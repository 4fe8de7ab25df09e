//! The preview stream's bookkeeping: encode-time statistics, the rolling
//! median over recent encode times, the multipart framing of the MJPEG
//! stream, and the routing of the loopback server.
use vstd::prelude::*;
use vstd::relations::{sorted_by, total_ordering};
use vstd::seq_lib::group_to_multiset_ensures;
use vstd::string::{StringExecFns, StringSliceAdditionalSpecFns};
use fast_image_resize::{images, FilterType, PixelType, ResizeAlg, ResizeOptions, Resizer};
use std::sync::atomic::AtomicU64;

verus! {

/// Counters the preview thread publishes for the HUD.
#[derive(Default)]
pub struct PreviewStats {
    /// Rolling median of encode time, in microseconds.
    pub encode_p50_us: AtomicU64,
    pub encoded: AtomicU64,
    pub dropped: AtomicU64,
}

/// How many recent encode times the rolling median is taken over.
pub const SAMPLE_WINDOW: usize = 128;

/// The order encode times are sorted by.
pub open spec fn time_le() -> spec_fn(u64, u64) -> bool {
    |a: u64, b: u64| a <= b
}

/// The upper median of `s`: the element at index `len / 2` once sorted.
pub open spec fn upper_median(s: Seq<u64>) -> u64 {
    s.sort_by(time_le())[s.len() as int / 2]
}

/// The window after `us` is recorded into `w`: appended, and the oldest
/// sample dropped once there are more than [`SAMPLE_WINDOW`].
pub open spec fn window_after(w: Seq<u64>, us: u64) -> Seq<u64> {
    if w.len() + 1 > SAMPLE_WINDOW {
        w.push(us).drop_first()
    } else {
        w.push(us)
    }
}

/// The last [`SAMPLE_WINDOW`] elements of `s`, in order; all of `s` when it
/// is no longer than that.
pub open spec fn latest(s: Seq<u64>) -> Seq<u64> {
    if s.len() > SAMPLE_WINDOW {
        s.subrange(s.len() - SAMPLE_WINDOW, s.len() as int)
    } else {
        s
    }
}

/// The window after recording each of `xs` in turn into an empty one.
pub open spec fn window_of(xs: Seq<u64>) -> Seq<u64>
    decreases xs.len(),
{
    if xs.len() == 0 {
        Seq::empty()
    } else {
        window_after(window_of(xs.drop_last()), xs.last())
    }
}

/// Recording into a window that holds the latest samples of some history
/// keeps it the latest samples of that history extended by the new one: the
/// oldest sample leaves first, whatever the values.
pub proof fn lemma_window_after_keeps_latest(h: Seq<u64>, us: u64)
    ensures
        window_after(latest(h), us) == latest(h.push(us)),
{
    let w = latest(h);
    let n: int = h.len() as int;
    if n + 1 > SAMPLE_WINDOW {
        assert(w.push(us).drop_first() =~= h.push(us).subrange(n + 1 - SAMPLE_WINDOW, n + 1));
    }
}

/// The window over encode times is always the most recent
/// [`SAMPLE_WINDOW`] times recorded (all of them while there are fewer),
/// in the order they were recorded.
pub proof fn lemma_window_is_latest(xs: Seq<u64>)
    ensures
        window_of(xs) == latest(xs),
    decreases xs.len(),
{
    if xs.len() > 0 {
        lemma_window_is_latest(xs.drop_last());
        lemma_window_after_keeps_latest(xs.drop_last(), xs.last());
        assert(xs.drop_last().push(xs.last()) =~= xs);
    } else {
        assert(latest(xs) =~= Seq::<u64>::empty());
    }
}

proof fn lemma_time_le_total()
    ensures
        total_ordering(time_le()),
{
}

/// `s` sorted by encode time.
fn sorted_copy(s: &Vec<u64>) -> (r: Vec<u64>)
    ensures
        r@ == s@.sort_by(time_le()),
        r@.len() == s@.len(),
{
    broadcast use group_to_multiset_ensures;

    let mut r: Vec<u64> = Vec::new();
    let mut i: usize = 0;
    assert(s@.take(0) =~= Seq::<u64>::empty());
    while i < s.len()
        invariant
            i <= s@.len(),
            sorted_by(r@, time_le()),
            r@.to_multiset() == s@.take(i as int).to_multiset(),
        decreases s@.len() - i,
    {
        let x: u64 = s[i];
        let mut p: usize = 0;
        while p < r.len() && r[p] <= x
            invariant
                p <= r@.len(),
                forall|k: int| 0 <= k < p ==> r@[k] <= x,
            decreases r@.len() - p,
        {
            p = p + 1;
        }
        let ghost before = r@;
        r.insert(p, x);
        assert forall|a: int, b: int| 0 <= a < b < r@.len() implies #[trigger] (time_le())(
            r@[a],
            r@[b],
        ) by {
            if b < p {
                assert((time_le())(before[a], before[b]));
            } else if a < p && b == p {
            } else if a < p && b > p {
                assert(before[a] <= x);
                if p < before.len() {
                    assert((time_le())(before[p as int], before[b - 1]));
                }
            } else if a == p {
                assert(!(p < before.len() && before[p as int] <= x) || p == before.len());
                if p < before.len() {
                    assert(before[p as int] > x);
                    assert(b - 1 >= p);
                    if b - 1 > p {
                        assert((time_le())(before[p as int], before[b - 1]));
                    }
                }
            } else {
                assert((time_le())(before[a - 1], before[b - 1]));
            }
        }
        proof {
            vstd::seq_lib::to_multiset_insert(before, p as int, x);
            vstd::seq_lib::to_multiset_build(s@.take(i as int), x);
            assert(s@.take(i + 1) =~= s@.take(i as int).push(x));
        }
        i = i + 1;
    }
    assert(s@.take(s@.len() as int) =~= s@);
    proof {
        lemma_time_le_total();
        s@.lemma_sort_by_ensures(time_le());
        vstd::seq_lib::lemma_sorted_unique(r@, s@.sort_by(time_le()), time_le());
        assert(r@.len() == r@.to_multiset().len());
        assert(s@.len() == s@.to_multiset().len());
    }
    r
}

/// The most recent encode times, at most [`SAMPLE_WINDOW`] of them.
pub struct EncodeTimes {
    samples: Vec<u64>,
}

impl View for EncodeTimes {
    type V = Seq<u64>;

    closed spec fn view(&self) -> Seq<u64> {
        self.samples@
    }
}

impl EncodeTimes {
    #[verifier::type_invariant]
    spec fn within_window(self) -> bool {
        self.samples@.len() <= SAMPLE_WINDOW
    }

    /// No samples yet.
    pub fn new() -> (t: Self)
        ensures
            t@ == Seq::<u64>::empty(),
    {
        EncodeTimes { samples: Vec::new() }
    }

    /// Record one encode time and return the median of the window, which
    /// keeps the most recent [`SAMPLE_WINDOW`] times.
    pub fn record(&mut self, us: u64) -> (p50: u64)
        ensures
            final(self)@ == window_after(old(self)@, us),
            final(self)@ == latest(old(self)@.push(us)),
            final(self)@.len() <= SAMPLE_WINDOW,
            p50 == upper_median(final(self)@),
    {
        proof {
            use_type_invariant(&*self);
        }
        let mut samples: Vec<u64> = Vec::new();
        std::mem::swap(&mut samples, &mut self.samples);
        samples.push(us);
        if samples.len() > SAMPLE_WINDOW {
            samples.remove(0);
        }
        let sorted = sorted_copy(&samples);
        proof {
            assert(latest(old(self)@) == old(self)@);
            lemma_window_after_keeps_latest(old(self)@, us);
        }
        let p50: u64 = sorted[samples.len() / 2];
        self.samples = samples;
        p50
    }
}

} // verus!

verus! {

/// The boundary between parts of the MJPEG stream.
pub const BOUNDARY: &'static str = "deepscreenframe";

/// What opens a part, before the boundary.
pub const PART_OPEN: &'static str = "\r\n--";

/// What follows the boundary, up to the length of the image.
pub const PART_TYPE: &'static str = "\r\nContent-Type: image/jpeg\r\nContent-Length: ";

/// What ends a part's headers.
pub const PART_END: &'static str = "\r\n\r\n";

/// The decimal digits of `n`, as ASCII bytes, most significant first.
pub open spec fn decimal(n: nat) -> Seq<u8>
    decreases n,
{
    if n < 10 {
        seq![(n + 48) as u8]
    } else {
        decimal(n / 10).push((n % 10 + 48) as u8)
    }
}

/// Append the decimal digits of `n` to `out`.
fn push_decimal(out: &mut Vec<u8>, n: usize)
    ensures
        final(out)@ == old(out)@ + decimal(n as nat),
    decreases n,
{
    if n >= 10 {
        push_decimal(out, n / 10);
    }
    let d: u8 = (n % 10) as u8;
    let ghost before = out@;
    out.push(d + 48);
    proof {
        if n >= 10 {
            assert(out@ =~= old(out)@ + decimal(n as nat));
        } else {
            assert(out@ =~= old(out)@ + decimal(n as nat));
        }
    }
}

/// One part of the MJPEG stream carrying `jpeg`: the boundary, the content
/// type, the length of the image in decimal, and the image.
pub open spec fn part_bytes(jpeg: Seq<u8>) -> Seq<u8> {
    PART_OPEN.spec_bytes() + BOUNDARY.spec_bytes() + PART_TYPE.spec_bytes() + decimal(
        jpeg.len(),
    ) + PART_END.spec_bytes() + jpeg
}

/// Append `b` to `out`.
fn push_bytes(out: &mut Vec<u8>, b: &[u8])
    ensures
        final(out)@ == old(out)@ + b@,
{
    out.extend_from_slice(b);
    assert(out@ =~= old(out)@ + b@);
}

/// The bytes of one MJPEG part carrying `jpeg`.
pub fn encode_part(jpeg: &[u8]) -> (part: Vec<u8>)
    ensures
        part@ == part_bytes(jpeg@),
{
    let mut out: Vec<u8> = Vec::new();
    push_bytes(&mut out, PART_OPEN.as_bytes());
    push_bytes(&mut out, BOUNDARY.as_bytes());
    push_bytes(&mut out, PART_TYPE.as_bytes());
    push_decimal(&mut out, jpeg.len());
    push_bytes(&mut out, PART_END.as_bytes());
    push_bytes(&mut out, jpeg);
    assert(out@ =~= part_bytes(jpeg@));
    out
}

/// The response content type of the stream.
pub fn stream_content_type() -> (t: String)
    ensures
        t@ == "multipart/x-mixed-replace; boundary="@ + BOUNDARY@,
{
    String::from_str("multipart/x-mixed-replace; boundary=").concat(BOUNDARY)
}

/// The multipart body of the stream as it is being written: which preview
/// frame was staged last, and the bytes of its part not yet handed out.
pub struct MjpegParts {
    last_seq: u64,
    buf: Vec<u8>,
    pos: usize,
}

impl MjpegParts {
    #[verifier::type_invariant]
    spec fn within_part(self) -> bool {
        self.pos <= self.buf@.len()
    }

    /// The sequence number of the frame staged last.
    pub closed spec fn last_seq(self) -> u64 {
        self.last_seq
    }

    /// The bytes of the staged part not yet handed out.
    pub closed spec fn pending(self) -> Seq<u8> {
        self.buf@.subrange(self.pos as int, self.buf@.len() as int)
    }

    /// Nothing staged; any frame but one numbered `u64::MAX` counts as new.
    pub fn new() -> (p: Self)
        ensures
            p.last_seq() == u64::MAX,
            p.pending() == Seq::<u8>::empty(),
    {
        MjpegParts { last_seq: u64::MAX, buf: Vec::new(), pos: 0 }
    }

    /// Whether every byte of the staged part has been handed out.
    pub fn is_drained(&self) -> (b: bool)
        ensures
            b == (self.pending().len() == 0),
    {
        proof {
            use_type_invariant(self);
        }
        self.pos >= self.buf.len()
    }

    /// Stage the part for frame `seq` carrying `jpeg`, unless that frame was
    /// the one staged last. Returns whether it was staged.
    pub fn offer(&mut self, seq: u64, jpeg: &[u8]) -> (staged: bool)
        ensures
            staged == (seq != old(self).last_seq()),
            staged ==> final(self).last_seq() == seq && final(self).pending() == part_bytes(jpeg@),
            !staged ==> final(self).last_seq() == old(self).last_seq() && final(self).pending()
                == old(self).pending(),
    {
        if seq == self.last_seq {
            return false;
        }
        let buf = encode_part(jpeg);
        *self = MjpegParts { last_seq: seq, buf, pos: 0 };
        assert(buf@.subrange(0, buf@.len() as int) =~= buf@);
        true
    }

    /// Hand out as much of the staged part as fits in `out`, from the start
    /// of `out`. Returns how many bytes were written.
    pub fn read_into(&mut self, out: &mut [u8]) -> (n: usize)
        ensures
            n as int == if old(out)@.len() < old(self).pending().len() {
                old(out)@.len() as int
            } else {
                old(self).pending().len() as int
            },
            final(out)@.len() == old(out)@.len(),
            final(out)@.subrange(0, n as int) == old(self).pending().subrange(0, n as int),
            final(out)@.subrange(n as int, old(out)@.len() as int) == old(out)@.subrange(
                n as int,
                old(out)@.len() as int,
            ),
            final(self).pending() == old(self).pending().skip(n as int),
            final(self).last_seq() == old(self).last_seq(),
    {
        proof {
            use_type_invariant(&*self);
        }
        let avail: usize = self.buf.len() - self.pos;
        let n: usize = if out.len() < avail {
            out.len()
        } else {
            avail
        };
        let mut i: usize = 0;
        while i < n
            invariant
                i <= n,
                n <= out@.len(),
                out@.len() == old(out)@.len(),
                self.pos + n <= self.buf@.len(),
                self.buf@.len() <= usize::MAX,
                forall|k: int| 0 <= k < i ==> out@[k] == self.buf@[self.pos + k],
                forall|k: int| n <= k < out@.len() ==> out@[k] == old(out)@[k],
            decreases n - i,
        {
            out[i] = self.buf[self.pos + i];
            i = i + 1;
        }
        let ghost old_pending = self.buf@.subrange(self.pos as int, self.buf@.len() as int);
        self.pos = self.pos + n;
        assert(out@.subrange(0, n as int) =~= old_pending.subrange(0, n as int));
        assert(out@.subrange(n as int, out@.len() as int) =~= old(out)@.subrange(
            n as int,
            old(out)@.len() as int,
        ));
        assert(self.buf@.subrange(self.pos as int, self.buf@.len() as int) =~= old_pending.skip(
            n as int,
        ));
        n
    }
}

/// What the loopback server answers a request with.
#[derive(Debug, Clone, Copy, PartialEq, Eq, Structural)]
pub enum Route {
    /// The endless MJPEG stream.
    Stream,
    /// A plain "ok".
    Health,
    /// A 404.
    NotFound,
}

/// The route for a request URL: `/stream`, `/health`, and nothing else.
pub fn route_for(url: &str) -> (r: Route)
    ensures
        r == (if url@ == "/stream"@ {
            Route::Stream
        } else if url@ == "/health"@ {
            Route::Health
        } else {
            Route::NotFound
        }),
{
    if crate::text::str_eq(url, "/stream") {
        Route::Stream
    } else if crate::text::str_eq(url, "/health") {
        Route::Health
    } else {
        Route::NotFound
    }
}

} // verus!

verus! {

/// Preview width in pixels; detection still runs at full resolution.
pub const PREVIEW_WIDTH: u32 = 640;

/// JPEG quality of the preview. Above ~70 the encoder spends milliseconds
/// on artefacts nobody can see in a test window.
pub const JPEG_QUALITY: u8 = 70;

/// The JPEG that the `image` crate's baseline encoder writes for an RGB
/// image of `width` x `height` with `pixels`, at `quality`.
pub uninterp spec fn jpeg_of_rgb(pixels: Seq<u8>, width: u32, height: u32, quality: u8) -> Seq<u8>;

/// The RGB image of `tw` x `th` that fast_image_resize's bilinear
/// convolution makes of the RGB image of `sw` x `sh` held in `pixels`.
pub uninterp spec fn resized_rgb(pixels: Seq<u8>, sw: u32, sh: u32, tw: u32, th: u32) -> Seq<u8>;

/// `Resizer::resize` of fast_image_resize, bilinear, from an RGB image of
/// `sw` x `sh` read from `rgb` into a fresh RGB image of `tw` x `th`.
///
/// Claims what the crate's source shows: the source view is refused exactly
/// when `rgb` is shorter than `sw * sh` pixels, the resize itself does not
/// fail on two views of the same pixel type, and the result holds
/// `tw * th` pixels. The pixels themselves are named: every kernel the
/// crate picks by the CPU's extensions works on the same 16-bit
/// fixed-point coefficients with exact integer sums, so the result depends
/// on the arguments alone.
#[verifier::external_body]
fn resize_rgb(rgb: &[u8], sw: u32, sh: u32, tw: u32, th: u32) -> (r: Result<Vec<u8>, String>)
    requires
        sw * sh * 3 <= usize::MAX,
        tw * th * 3 <= usize::MAX,
    ensures
        r is Ok <==> rgb@.len() >= sw * sh * 3,
        r matches Ok(px) ==> px@.len() == tw * th * 3 && px@ == resized_rgb(rgb@, sw, sh, tw, th),
{
    let src = images::ImageRef::new(sw, sh, rgb, PixelType::U8x3).map_err(|e| e.to_string())?;
    let mut dst = images::Image::new(tw, th, PixelType::U8x3);
    let options = ResizeOptions::new().resize_alg(ResizeAlg::Convolution(FilterType::Bilinear));
    Resizer::new().resize(&src, &mut dst, &options).map_err(|e| e.to_string())?;
    Ok(dst.into_vec())
}

/// `JpegEncoder::new_with_quality` and `JpegEncoder::encode` of the `image`
/// crate, writing an RGB image into a fresh buffer.
///
/// Claims what the encoder's source shows: it refuses a side of zero or
/// above 65535 and otherwise writes its JPEG, which depends on the pixels,
/// the size and the quality alone. The JPEG itself is named, not stated.
#[verifier::external_body]
fn jpeg_rgb(pixels: &[u8], width: u32, height: u32, quality: u8) -> (r: Result<Vec<u8>, String>)
    requires
        pixels@.len() == width * height * 3,
    ensures
        r is Ok <==> (1 <= width <= 65535 && 1 <= height <= 65535),
        r matches Ok(j) ==> j@ == jpeg_of_rgb(pixels@, width, height, quality),
{
    let mut jpeg = Vec::with_capacity(48 * 1024);
    image::codecs::jpeg::JpegEncoder::new_with_quality(&mut jpeg, quality)
        .encode(pixels, width, height, image::ExtendedColorType::Rgb8)
        .map_err(|e| e.to_string())?;
    Ok(jpeg)
}

/// Whether the preview of an RGB frame of `sw` x `sh` held in `rgb`, scaled
/// to `tw` x `th`, can be encoded.
pub open spec fn preview_encodes(rgb: Seq<u8>, sw: u32, sh: u32, tw: u32, th: u32) -> bool {
    &&& sw > 0
    &&& sh > 0
    &&& rgb.len() >= sw * sh * 3
    &&& 1 <= tw <= 65535
    &&& 1 <= th <= 65535
}

/// The preview JPEG of an RGB frame of `sw` x `sh` held in `rgb`, scaled to
/// `tw` x `th`.
pub open spec fn preview_jpeg(rgb: Seq<u8>, sw: u32, sh: u32, tw: u32, th: u32) -> Seq<u8> {
    jpeg_of_rgb(resized_rgb(rgb, sw, sh, tw, th), tw, th, JPEG_QUALITY)
}

/// The message for a frame with a zero side.
pub const EMPTY_FRAME: &'static str = "empty frame";

/// Downscale an RGB frame of `sw` x `sh` to `tw` x `th` and encode it as the
/// preview JPEG: the JPEG of the scaled frame.
///
/// A frame with a zero side is refused first; a frame whose pixels are
/// shorter than its size says is refused by the scaler; a target the JPEG
/// encoder cannot write is refused by the encoder.
pub fn encode_preview(rgb: &[u8], sw: u32, sh: u32, tw: u32, th: u32) -> (r: Result<
    Vec<u8>,
    String,
>)
    requires
        sw * sh * 3 <= usize::MAX,
        tw * th * 3 <= usize::MAX,
    ensures
        (sw == 0 || sh == 0) ==> (r matches Err(m) && m@ == EMPTY_FRAME@),
        r is Ok <==> preview_encodes(rgb@, sw, sh, tw, th),
        r matches Ok(j) ==> j@ == preview_jpeg(rgb@, sw, sh, tw, th),
{
    if sw == 0 || sh == 0 {
        return Err(String::from_str(EMPTY_FRAME));
    }
    let scaled = match resize_rgb(rgb, sw, sh, tw, th) {
        Ok(px) => px,
        Err(e) => {
            return Err(e);
        },
    };
    let r = jpeg_rgb(scaled.as_slice(), tw, th, JPEG_QUALITY);
    r
}

} // verus!

verus! {

/// The number an ASCII decimal numeral stands for.
pub open spec fn numeral_value(s: Seq<u8>) -> nat
    decreases s.len(),
{
    if s.len() == 0 {
        0
    } else {
        numeral_value(s.drop_last()) * 10 + (s.last() - 48) as nat
    }
}

/// The length a part announces is the length of its image: the digits are
/// ASCII decimal digits and read back as exactly that number.
pub proof fn lemma_decimal_reads_back(n: nat)
    ensures
        numeral_value(decimal(n)) == n,
        forall|i: int| 0 <= i < decimal(n).len() ==> 48 <= #[trigger] decimal(n)[i] <= 57,
    decreases n,
{
    if n >= 10 {
        lemma_decimal_reads_back(n / 10);
        assert(decimal(n).drop_last() =~= decimal(n / 10));
        assert(decimal(n).last() == (n % 10 + 48) as u8);
        assert((n / 10) * 10 + n % 10 == n) by (nonlinear_arith);
        assert(numeral_value(decimal(n)) == numeral_value(decimal(n / 10)) * 10 + n % 10);
    } else {
        assert(decimal(n).drop_last() =~= Seq::<u8>::empty());
        assert(decimal(n).last() == (n + 48) as u8);
        assert(numeral_value(Seq::<u8>::empty()) == 0);
        assert(numeral_value(decimal(n)) == numeral_value(decimal(n).drop_last()) * 10 + n);
    }
}

/// The preview's median encode time is one of the recorded times.
pub proof fn lemma_median_is_a_sample(s: Seq<u64>)
    requires
        s.len() > 0,
    ensures
        s.contains(upper_median(s)),
{
    broadcast use group_to_multiset_ensures;

    lemma_time_le_total();
    s.lemma_sort_by_ensures(time_le());
    let t = s.sort_by(time_le());
    assert(t.len() == t.to_multiset().len());
    assert(s.len() == s.to_multiset().len());
    assert(t.contains(t[s.len() as int / 2]));
}

} // verus!

verus! {

/// Which detection the preview thread encoded last, so that a detection is
/// encoded once however often it is polled.
pub struct PreviewCursor {
    /// The sequence number of the frame encoded last.
    pub last_seq: u64,
}

impl PreviewCursor {
    /// Nothing encoded yet; any frame but one numbered `u64::MAX` is new.
    pub fn new() -> (c: Self)
        ensures
            c.last_seq == u64::MAX,
    {
        PreviewCursor { last_seq: u64::MAX }
    }

    /// Whether frame `seq` is new to the preview; it becomes the last one
    /// seen either way.
    pub fn take_new(&mut self, seq: u64) -> (fresh: bool)
        ensures
            fresh == (seq != old(self).last_seq),
            final(self).last_seq == seq,
    {
        let fresh = seq != self.last_seq;
        self.last_seq = seq;
        fresh
    }
}

/// Whether the preview thread is done: the detector has stopped and has no
/// detection left to show. The detector owns the lifetime; when it stops,
/// so does the preview.
pub fn preview_finished(running: bool, has_latest: bool) -> (done: bool)
    ensures
        done == (!running && !has_latest),
{
    !running && !has_latest
}

} // verus!

verus! {

/// A counter after one more event, wrapping past `u64::MAX` as the
/// published atomic counters do.
pub open spec fn counted(n: u64) -> u64 {
    if n == u64::MAX {
        0
    } else {
        (n + 1) as u64
    }
}

/// The preview thread's own state between polls: which detection it saw
/// last, and how many previews it encoded and dropped.
pub struct PreviewProgress {
    pub cursor: PreviewCursor,
    pub encoded: u64,
    pub dropped: u64,
}

impl PreviewProgress {
    /// Nothing seen, encoded or dropped yet.
    pub fn new() -> (p: Self)
        ensures
            p.cursor.last_seq == u64::MAX,
            p.encoded == 0,
            p.dropped == 0,
    {
        PreviewProgress { cursor: PreviewCursor::new(), encoded: 0, dropped: 0 }
    }

    /// Handle the newest detection, on frame `seq` with RGB pixels `rgb` of
    /// `sw` x `sh`, to be previewed at `tw` x `th`.
    ///
    /// A detection already seen is left alone: nothing is encoded or
    /// counted. A new one is encoded exactly once; the JPEG comes back and
    /// counts as encoded, or the failure comes back and counts as dropped.
    /// Either way the detection becomes the last one seen. Drop-oldest: a
    /// detection that was never polled is never encoded.
    pub fn on_detection(&mut self, seq: u64, rgb: &[u8], sw: u32, sh: u32, tw: u32, th: u32) -> (r:
        Option<Result<Vec<u8>, String>>)
        requires
            seq != old(self).cursor.last_seq ==> (sw * sh * 3 <= usize::MAX && tw * th * 3
                <= usize::MAX),
        ensures
            final(self).cursor.last_seq == seq,
            seq == old(self).cursor.last_seq ==> (r is None && final(self).encoded == old(
                self,
            ).encoded && final(self).dropped == old(self).dropped),
            seq != old(self).cursor.last_seq ==> match r {
                None => false,
                Some(Ok(j)) => {
                    &&& preview_encodes(rgb@, sw, sh, tw, th)
                    &&& j@ == preview_jpeg(rgb@, sw, sh, tw, th)
                    &&& final(self).encoded == counted(old(self).encoded)
                    &&& final(self).dropped == old(self).dropped
                },
                Some(Err(m)) => {
                    &&& !preview_encodes(rgb@, sw, sh, tw, th)
                    &&& (sw == 0 || sh == 0) ==> m@ == EMPTY_FRAME@
                    &&& final(self).dropped == counted(old(self).dropped)
                    &&& final(self).encoded == old(self).encoded
                },
            },
    {
        if !self.cursor.take_new(seq) {
            return None;
        }
        let r = encode_preview(rgb, sw, sh, tw, th);
        match &r {
            Ok(_) => {
                self.encoded = if self.encoded == u64::MAX {
                    0
                } else {
                    self.encoded + 1
                };
            },
            Err(_) => {
                self.dropped = if self.dropped == u64::MAX {
                    0
                } else {
                    self.dropped + 1
                };
            },
        }
        Some(r)
    }
}

} // verus!
