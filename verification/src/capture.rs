//! Capture-side logic: naming the backend, explaining camera failures, and
//! turning a camera's pixel plane into a tightly packed RGB frame.
use vstd::prelude::*;
use vstd::string::StringExecFns;

use crate::error::DetectError;
use crate::text::{ascii_lower, chars_of, contains_chars, has_infix, lower_chars};

verus! {

/// How long to wait for a frame before giving up on one grab.
///
/// Generous relative to a 33 ms frame interval: a camera that has genuinely
/// stalled should surface as an error, but a driver hiccup during startup
/// should not end the session.
pub const GRAB_TIMEOUT_MS: u32 = 3000;

/// What is appended to a camera error that looks like another process
/// holding the device.
pub const BUSY_HELP: &'static str = "\n\nWindows lets exactly one process own a webcam. Close OBS, Teams, Zoom, Discord, a browser tab, or another copy of this app, then try again.";

/// Whether a (lower-cased) camera failure reads like a device another
/// process owns.
pub open spec fn looks_busy(lower: Seq<char>) -> bool {
    ||| has_infix(lower, "in use"@)
    ||| has_infix(lower, "busy"@)
    ||| has_infix(lower, "access"@)
    ||| has_infix(lower, "denied"@)
    ||| has_infix(lower, "0x800700aa"@)
}

/// The message `busy_or` gives for a failure described by `detail`.
pub open spec fn busy_message(detail: Seq<char>) -> Seq<char> {
    if looks_busy(ascii_lower(detail)) {
        detail + BUSY_HELP@
    } else {
        detail
    }
}

/// Map a camera failure onto the plain-language cause when it looks like one.
///
/// Windows lets exactly one process own a webcam, and that single fact
/// accounts for most "the camera does not work" reports. The match is made
/// on the ASCII lower-case form of the detail, against "in use", "busy",
/// "access", "denied" and the DirectShow code 0x800700aa.
pub fn busy_or(detail: String) -> (e: DetectError)
    ensures
        e matches DetectError::Camera(m) && m@ == busy_message(detail@),
{
    let lower = lower_chars(&chars_of(detail.as_str()));
    let looks = contains_chars(&lower, &chars_of("in use"))
        || contains_chars(&lower, &chars_of("busy"))
        || contains_chars(&lower, &chars_of("access"))
        || contains_chars(&lower, &chars_of("denied"))
        || contains_chars(&lower, &chars_of("0x800700aa"));
    if looks {
        DetectError::Camera(detail.concat(BUSY_HELP))
    } else {
        DetectError::Camera(detail)
    }
}

} // verus!

verus! {

/// The first `rows` rows of a plane whose rows start every `stride` bytes,
/// each cut to its first `row_bytes` bytes and laid end to end.
pub open spec fn packed_rows(src: Seq<u8>, row_bytes: int, stride: int, rows: int) -> Seq<u8>
    decreases rows,
{
    if rows <= 0 {
        Seq::empty()
    } else {
        packed_rows(src, row_bytes, stride, rows - 1) + src.subrange(
            (rows - 1) * stride,
            (rows - 1) * stride + row_bytes,
        )
    }
}

/// A packed frame of `rows` rows is `rows * row_bytes` bytes long.
pub proof fn lemma_packed_rows_len(src: Seq<u8>, row_bytes: int, stride: int, rows: int)
    requires
        0 <= row_bytes,
        0 <= stride,
        0 <= rows,
        rows > 0 ==> (rows - 1) * stride + row_bytes <= src.len(),
    ensures
        packed_rows(src, row_bytes, stride, rows).len() == rows * row_bytes,
    decreases rows,
{
    if rows > 0 {
        if rows > 1 {
            assert((rows - 2) * stride <= (rows - 1) * stride) by (nonlinear_arith)
                requires
                    stride >= 0,
                    rows >= 2,
            ;
        }
        lemma_packed_rows_len(src, row_bytes, stride, rows - 1);
        assert(rows * row_bytes == (rows - 1) * row_bytes + row_bytes) by (nonlinear_arith);
    }
}

/// The text of the error for a frame that carried no pixel plane.
pub const NO_PLANE: &'static str = "frame carried no pixel plane";

/// The pixel bytes of one RGB frame of `width` x `height`, from the camera's
/// first plane whose rows start every `stride` bytes.
///
/// Rows may be padded to a hardware-friendly stride; a frame is handed on
/// tightly packed. When the rows already are (`stride` is three bytes per
/// pixel), the plane is taken as it stands. Otherwise each row is cut to
/// its pixels and the rows are laid end to end in `packed`, a buffer kept
/// between frames so that one is not allocated per grab.
pub fn frame_pixels(
    plane: Option<&[u8]>,
    width: u32,
    height: u32,
    stride: usize,
    packed: &mut Vec<u8>,
) -> (r: Result<Vec<u8>, DetectError>)
    requires
        width * 3 <= usize::MAX,
        plane matches Some(src) ==> (stride != width * 3 && height > 0 ==> (height - 1) * stride
            + width * 3 <= src@.len()),
    ensures
        plane is None ==> (r matches Err(DetectError::Camera(m)) && m@ == NO_PLANE@
            && final(packed)@ == old(packed)@),
        plane matches Some(src) ==> {
            &&& r is Ok
            &&& stride == width * 3 ==> r->Ok_0@ == src@ && final(packed)@ == old(packed)@
            &&& stride != width * 3 ==> r->Ok_0@ == packed_rows(
                src@,
                width * 3,
                stride as int,
                height as int,
            ) && final(packed)@ == r->Ok_0@
        },
{
    let row_bytes: usize = width as usize * 3;
    let src = match plane {
        Some(s) => s,
        None => {
            return Err(DetectError::Camera(String::from_str(NO_PLANE)));
        },
    };
    if stride == row_bytes {
        return Ok(vstd::slice::slice_to_vec(src));
    }
    let src_len: usize = src.len();
    packed.clear();
    let h: usize = height as usize;
    let mut y: usize = 0;
    while y < h
        invariant
            y <= h,
            h == height,
            row_bytes == width * 3,
            h > 0 ==> (h - 1) * stride + row_bytes <= src@.len(),
            src_len == src@.len(),
            packed@ == packed_rows(src@, row_bytes as int, stride as int, y as int),
        decreases h - y,
    {
        assert(y * stride <= (h - 1) * stride) by (nonlinear_arith)
            requires
                y < h,
        ;

        let start: usize = y * stride;
        let row = &src[start..start + row_bytes];
        let ghost before = packed@;
        packed.extend_from_slice(row);
        assert(packed@ =~= before + src@.subrange(start as int, start + row_bytes));
        y = y + 1;
    }
    Ok(packed.clone())
}

} // verus!

verus! {

/// Explaining a camera failure never loses what the failure said: the
/// message starts with the detail it was given.
pub proof fn lemma_busy_message_keeps_detail(detail: Seq<char>)
    ensures
        crate::text::has_prefix(busy_message(detail), detail),
{
    assert(busy_message(detail).subrange(0, detail.len() as int) =~= detail);
}

} // verus!

verus! {

/// Packing keeps every pixel where it belongs: byte `k` of the packed frame
/// is byte `k % row_bytes` of row `k / row_bytes` of the plane.
pub proof fn lemma_packed_rows_index(src: Seq<u8>, row_bytes: int, stride: int, rows: int, k: int)
    requires
        0 < row_bytes,
        0 <= stride,
        0 <= rows,
        rows > 0 ==> (rows - 1) * stride + row_bytes <= src.len(),
        0 <= k < rows * row_bytes,
    ensures
        packed_rows(src, row_bytes, stride, rows)[k] == src[(k / row_bytes) * stride + k
            % row_bytes],
    decreases rows,
{
    if rows > 0 {
        let prev = packed_rows(src, row_bytes, stride, rows - 1);
        if rows > 1 {
            assert((rows - 2) * stride <= (rows - 1) * stride) by (nonlinear_arith)
                requires
                    stride >= 0,
                    rows >= 2,
            ;
        }
        lemma_packed_rows_len(src, row_bytes, stride, rows - 1);
        assert(prev.len() == (rows - 1) * row_bytes);
        let last = src.subrange((rows - 1) * stride, (rows - 1) * stride + row_bytes);
        assert(packed_rows(src, row_bytes, stride, rows) == prev + last);
        if k < (rows - 1) * row_bytes {
            lemma_packed_rows_index(src, row_bytes, stride, rows - 1, k);
            assert(packed_rows(src, row_bytes, stride, rows)[k] == prev[k]);
        } else {
            let j: int = k - (rows - 1) * row_bytes;
            assert(0 <= j < row_bytes) by (nonlinear_arith)
                requires
                    j == k - (rows - 1) * row_bytes,
                    (rows - 1) * row_bytes <= k < rows * row_bytes,
            ;
            assert(k / row_bytes == rows - 1 && k % row_bytes == j) by (nonlinear_arith)
                requires
                    j == k - (rows - 1) * row_bytes,
                    0 <= j < row_bytes,
                    rows >= 1,
            ;
            assert(packed_rows(src, row_bytes, stride, rows)[k] == last[j]);
            assert(last[j] == src[(rows - 1) * stride + j]);
            assert((k / row_bytes) * stride == (rows - 1) * stride);
        }
    } else {
        assert(rows * row_bytes == 0) by (nonlinear_arith)
            requires
                rows == 0,
        ;
    }
}

} // verus!

verus! {

/// The decimal digits of `n`, most significant first, as text.
pub open spec fn decimal_text(n: nat) -> Seq<char>
    decreases n,
{
    if n < 10 {
        seq![((n + 48) as u32) as char]
    } else {
        decimal_text(n / 10).push(((n % 10 + 48) as u32) as char)
    }
}

/// The ten decimal digits, as text.
pub const DIGITS: [&'static str; 10] = ["0", "1", "2", "3", "4", "5", "6", "7", "8", "9"];

proof fn lemma_digits()
    ensures
        forall|d: int| 0 <= d < 10 ==> #[trigger] DIGITS@[d]@ == seq![((d + 48) as u32) as char],
{
    reveal_strlit("0");
    reveal_strlit("1");
    reveal_strlit("2");
    reveal_strlit("3");
    reveal_strlit("4");
    reveal_strlit("5");
    reveal_strlit("6");
    reveal_strlit("7");
    reveal_strlit("8");
    reveal_strlit("9");
    assert(DIGITS@[0]@ =~= seq!['0']);
    assert(DIGITS@[1]@ =~= seq!['1']);
    assert(DIGITS@[2]@ =~= seq!['2']);
    assert(DIGITS@[3]@ =~= seq!['3']);
    assert(DIGITS@[4]@ =~= seq!['4']);
    assert(DIGITS@[5]@ =~= seq!['5']);
    assert(DIGITS@[6]@ =~= seq!['6']);
    assert(DIGITS@[7]@ =~= seq!['7']);
    assert(DIGITS@[8]@ =~= seq!['8']);
    assert(DIGITS@[9]@ =~= seq!['9']);
}

/// Append the decimal digits of `n` to `s`.
fn push_decimal_text(s: &mut String, n: u64)
    ensures
        final(s)@ == old(s)@ + decimal_text(n as nat),
    decreases n,
{
    if n >= 10 {
        push_decimal_text(s, n / 10);
    }
    let d: usize = (n % 10) as usize;
    proof {
        lemma_digits();
    }
    s.append(DIGITS[d]);
    assert(s@ =~= old(s)@ + decimal_text(n as nat));
}

/// The frame sequence number after `seq`.
pub fn next_seq(seq: u64) -> (n: u64)
    requires
        seq < u64::MAX,
    ensures
        n == seq + 1,
{
    seq + 1
}

/// The message for a camera that produced no frame in time.
pub open spec fn grab_timeout_message(index: u32) -> Seq<char> {
    "camera "@ + decimal_text(index as nat) + " produced no frame within "@ + decimal_text(
        GRAB_TIMEOUT_MS as nat,
    ) + " ms"@
}

/// The error for camera `index` producing no frame within
/// [`GRAB_TIMEOUT_MS`]. A live camera has no end of stream, so this is a
/// stall rather than completion.
pub fn grab_timeout_error(index: u32) -> (e: DetectError)
    ensures
        e matches DetectError::Camera(m) && m@ == grab_timeout_message(index),
{
    let mut m = String::from_str("camera ");
    push_decimal_text(&mut m, index as u64);
    m.append(" produced no frame within ");
    push_decimal_text(&mut m, GRAB_TIMEOUT_MS as u64);
    m.append(" ms");
    DetectError::Camera(m)
}

/// What follows the camera's pixel format in the error for a frame that is
/// not RGB.
pub const NOT_RGB: &'static str = ", expected Rgb24. The pipeline is RGB end to end and a silent channel swap degrades detection rather than breaking it.";

/// Refuse a frame that is not RGB, naming the format it came in as
/// `found`. Every downstream model assumes RGB, and a wrong channel order
/// degrades detection silently instead of failing.
pub fn check_rgb(is_rgb24: bool, found: &str) -> (r: Result<(), DetectError>)
    ensures
        r is Ok <==> is_rgb24,
        r is Err ==> (r matches Err(DetectError::Camera(m)) && m@ == "camera returned "@ + found@
            + NOT_RGB@),
{
    if is_rgb24 {
        return Ok(());
    }
    Err(DetectError::Camera(String::from_str("camera returned ").concat(found).concat(NOT_RGB)))
}

} // verus!

verus! {

/// What one grab from the camera delivered: whether the frame is RGB24 and
/// the name of its pixel format, its size, and the stride and bytes of its
/// first plane, if it carried one.
pub struct Grabbed<'a> {
    pub is_rgb24: bool,
    pub format_name: String,
    pub width: u32,
    pub height: u32,
    pub stride: usize,
    pub plane: Option<&'a [u8]>,
}

/// A frame handed on from the camera: tightly packed RGB pixels, its size,
/// and its sequence number.
#[derive(Debug)]
pub struct TakenFrame {
    pub data: Vec<u8>,
    pub width: u32,
    pub height: u32,
    pub seq: u64,
}

/// The packed pixels of a plane `src` of a `width` x `height` RGB frame
/// whose rows start every `stride` bytes.
pub open spec fn frame_bytes(src: Seq<u8>, width: u32, height: u32, stride: usize) -> Seq<u8> {
    if stride == width * 3 {
        src
    } else {
        packed_rows(src, width * 3, stride as int, height as int)
    }
}

/// Whether a plane holds every row that a frame's size and stride call for
/// (a plane taken as it stands, at a stride of three bytes per pixel, is
/// never read row by row).
pub open spec fn plane_holds_rows(src: Seq<u8>, width: u32, height: u32, stride: usize) -> bool {
    stride != width * 3 && height > 0 ==> (height - 1) * stride + width * 3 <= src.len()
}

/// Turn one grab into the next frame of the session, numbering frames
/// 1, 2, 3, ... in `seq`.
///
/// A grab that delivered nothing is a stall: a live camera has no end of
/// stream, so it becomes the timeout error of camera `index`, never the end
/// of the session. A frame that is not RGB24, or that carries no pixel
/// plane, is refused. Only a frame that is handed on takes the next number;
/// a refused grab leaves `seq` and the reusable buffer `packed` alone.
pub fn take_frame(seq: &mut u64, index: u32, grab: Option<Grabbed<'_>>, packed: &mut Vec<u8>) -> (r:
    Result<TakenFrame, DetectError>)
    requires
        grab matches Some(g) ==> (g.is_rgb24 ==> (g.width * 3 <= usize::MAX && (g.plane matches Some(
            src,
        ) ==> (plane_holds_rows(src@, g.width, g.height, g.stride) && *old(seq) < u64::MAX)))),
    ensures
        r is Err ==> (*final(seq) == *old(seq) && final(packed)@ == old(packed)@),
        grab is None ==> (r matches Err(DetectError::Camera(m)) && m@ == grab_timeout_message(
            index,
        )),
        grab matches Some(g) ==> {
            &&& !g.is_rgb24 ==> (r matches Err(DetectError::Camera(m)) && m@ == "camera returned "@
                + g.format_name@ + NOT_RGB@)
            &&& (g.is_rgb24 && g.plane is None) ==> (r matches Err(DetectError::Camera(m)) && m@
                == NO_PLANE@)
            &&& (g.is_rgb24 && g.plane is Some) ==> (r matches Ok(f) && {
                &&& f.data@ == frame_bytes(g.plane->Some_0@, g.width, g.height, g.stride)
                &&& f.width == g.width
                &&& f.height == g.height
                &&& f.seq == *old(seq) + 1
                &&& *final(seq) == f.seq
                &&& final(packed)@ == (if g.stride == g.width * 3 {
                    old(packed)@
                } else {
                    f.data@
                })
            })
        },
{
    let g = match grab {
        None => {
            return Err(grab_timeout_error(index));
        },
        Some(g) => g,
    };
    match check_rgb(g.is_rgb24, g.format_name.as_str()) {
        Err(e) => {
            return Err(e);
        },
        Ok(()) => {},
    }
    let data = match frame_pixels(g.plane, g.width, g.height, g.stride, packed) {
        Err(e) => {
            return Err(e);
        },
        Ok(d) => d,
    };
    *seq = next_seq(*seq);
    Ok(TakenFrame { data, width: g.width, height: g.height, seq: *seq })
}

} // verus!
