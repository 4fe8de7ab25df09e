//! Every tunable number that has no fractional part, the model slots and
//! their files, and the validation rules that need no arithmetic on
//! fractions.
use vstd::prelude::*;
use vstd::string::StringExecFns;

use crate::coco::{coco_contains, is_coco_class};
use crate::error::DetectError;
use crate::text::has_prefix;

verus! {

// ---------------------------------------------------------------------------
// capture
// ---------------------------------------------------------------------------

/// Which Windows capture API the camera is opened through.
///
/// Webcam vendors are inconsistent about which one their driver actually
/// works with, so this is configuration rather than a rebuild.
#[derive(Debug, Clone, Copy, PartialEq, Eq, Structural)]
pub enum CaptureBackend {
    Dshow,
    Msmf,
}

impl CaptureBackend {
    /// The name the capture library takes as its extra device information.
    pub open spec fn spec_extra_info(self) -> Seq<char> {
        match self {
            CaptureBackend::Dshow => "dshow"@,
            CaptureBackend::Msmf => "msmf"@,
        }
    }

    /// The name the capture library takes as its extra device information.
    pub fn extra_info(self) -> (s: &'static str)
        ensures
            s@ == self.spec_extra_info(),
    {
        match self {
            CaptureBackend::Dshow => "dshow",
            CaptureBackend::Msmf => "msmf",
        }
    }
}

impl Default for CaptureBackend {
    /// DirectShow, which is what the ffmpeg capture path uses.
    fn default() -> (b: Self)
        ensures
            b == CaptureBackend::Dshow,
    {
        CaptureBackend::Dshow
    }
}

/// How the camera is opened.
#[derive(Debug, Clone, Copy, PartialEq, Eq, Structural)]
pub struct CaptureConfig {
    pub device_index: u32,
    pub width: u32,
    pub height: u32,
    pub fps: u32,
    /// Ask for MJPEG when the camera offers it. Raw YUYV at 1280x720x30 is
    /// ~55 MB/s over USB and caps you at the bus, not the model.
    pub prefer_mjpeg: bool,
    pub backend: CaptureBackend,
}

impl Default for CaptureConfig {
    /// Camera 0 at 1280x720, 30 fps, MJPEG preferred, through DirectShow.
    fn default() -> (c: Self)
        ensures
            c == (CaptureConfig {
                device_index: 0,
                width: 1280,
                height: 720,
                fps: 30,
                prefer_mjpeg: true,
                backend: CaptureBackend::Dshow,
            }),
    {
        CaptureConfig {
            device_index: 0,
            width: 1280,
            height: 720,
            fps: 30,
            prefer_mjpeg: true,
            backend: CaptureBackend::Dshow,
        }
    }
}

/// The message for a capture resolution with a zero side.
pub const ZERO_RESOLUTION: &'static str = "capture resolution must be non-zero";

impl CaptureConfig {
    /// Refuse a resolution with a zero side.
    pub fn check_resolution(&self) -> (r: Result<(), DetectError>)
        ensures
            r is Ok <==> (self.width != 0 && self.height != 0),
            r is Err ==> (r matches Err(DetectError::Config(m)) && m@ == ZERO_RESOLUTION@),
    {
        if self.width == 0 || self.height == 0 {
            return Err(DetectError::Config(String::from_str(ZERO_RESOLUTION)));
        }
        Ok(())
    }
}

} // verus!

verus! {

// ---------------------------------------------------------------------------
// models
// ---------------------------------------------------------------------------

/// Which model is being built. Used to look up its provider and to name it
/// in the startup log.
#[derive(Debug, Clone, Copy, PartialEq, Eq, Structural)]
pub enum ModelSlot {
    Face,
    Pose,
    Gaze,
    Objects,
    Identity,
}

impl ModelSlot {
    /// The slot's name.
    pub open spec fn name(self) -> Seq<char> {
        match self {
            ModelSlot::Face => "face"@,
            ModelSlot::Pose => "pose"@,
            ModelSlot::Gaze => "gaze"@,
            ModelSlot::Objects => "objects"@,
            ModelSlot::Identity => "identity"@,
        }
    }

    /// The slot's position in [`ModelPaths::CONVENTIONAL`].
    pub open spec fn position(self) -> int {
        match self {
            ModelSlot::Face => 0,
            ModelSlot::Pose => 1,
            ModelSlot::Gaze => 2,
            ModelSlot::Objects => 3,
            ModelSlot::Identity => 4,
        }
    }

    /// The slot's name, as the startup log and the model table write it.
    pub fn as_str(self) -> (s: &'static str)
        ensures
            s@ == self.name(),
    {
        match self {
            ModelSlot::Face => "face",
            ModelSlot::Pose => "pose",
            ModelSlot::Gaze => "gaze",
            ModelSlot::Objects => "objects",
            ModelSlot::Identity => "identity",
        }
    }
}

/// Which precision to load when both are shipped.
#[derive(Debug, Clone, Copy, PartialEq, Eq, Structural)]
pub enum Variant {
    Fp32,
    Int8,
    /// Micro-benchmark both at startup and keep the winner. The result
    /// genuinely flips depending on CPU, so this is the default.
    Auto,
}

impl Default for Variant {
    fn default() -> (v: Self)
        ensures
            v == Variant::Auto,
    {
        Variant::Auto
    }
}

/// Resolved model paths only. The library never learns how a desktop shell
/// resolves a resource directory: the shell resolves and passes paths in.
#[derive(Debug, Clone)]
pub struct ModelPaths {
    pub face: Option<String>,
    pub pose: Option<String>,
    pub gaze: Option<String>,
    pub objects: Option<String>,
    pub identity: Option<String>,
    /// Which precision to load when both are shipped.
    pub variant: Variant,
}

impl Default for ModelPaths {
    /// No slot set, precision chosen at startup.
    fn default() -> (p: Self)
        ensures
            p.face is None,
            p.pose is None,
            p.gaze is None,
            p.objects is None,
            p.identity is None,
            p.variant == Variant::Auto,
    {
        ModelPaths {
            face: None,
            pose: None,
            gaze: None,
            objects: None,
            identity: None,
            variant: Variant::Auto,
        }
    }
}

/// A file name with no directory part and no drive: what a path join
/// appends rather than lets replace the directory.
pub open spec fn plain_file_name(f: Seq<char>) -> bool {
    &&& f.len() > 0
    &&& forall|i: int| 0 <= i < f.len() ==> #[trigger] f[i] != '/' && f[i] != '\\' && f[i] != ':'
}

/// The prefix of a Windows verbatim path, under which a join renormalises
/// the whole path.
pub open spec fn verbatim_prefix() -> Seq<char> {
    seq!['\\', '\\', '?', '\\']
}

/// `p` is `file` joined onto `dir`: `file` alone onto an empty directory;
/// `file` appended directly onto a directory that already ends in `/`; one
/// path separator (`/` or `\\`, whichever the platform uses) between them
/// onto a directory that ends in neither `/`, `\\` nor `:`; and, onto a
/// directory ending in `\\` or `:`, which are separators or drive marks on
/// one platform and plain characters on another, either of those.
pub open spec fn is_join_of(p: Seq<char>, dir: Seq<char>, file: Seq<char>) -> bool {
    if dir.len() == 0 {
        p == file
    } else if dir.last() == '/' {
        p == dir + file
    } else if dir.last() == '\\' || dir.last() == ':' {
        ||| p == dir + file
        ||| p == dir + seq!['/'] + file
        ||| p == dir + seq!['\\'] + file
    } else {
        ||| p == dir + seq!['/'] + file
        ||| p == dir + seq!['\\'] + file
    }
}

/// `Path::join` of std, on a directory and a plain file name, as text.
///
/// Claims that, for a plain file name and unless `dir` is a Windows
/// verbatim path, the result is `file` joined onto `dir` as
/// [`is_join_of`] says: the documentation of `PathBuf::push` says a relative
/// path extends the existing one, with a separator unless the path is
/// empty or already ends in one. Under a verbatim prefix the documentation
/// says the whole path is normalised, and for a name with a separator or a
/// drive the join may replace the directory; nothing is claimed there.
#[verifier::external_body]
pub(crate) fn join_path(dir: &str, file: &str) -> (p: String)
    ensures
        plain_file_name(file@) && !has_prefix(dir@, verbatim_prefix()) ==> is_join_of(
            p@,
            dir@,
            file@,
        ),
{
    std::path::Path::new(dir).join(file).to_string_lossy().into_owned()
}

/// `Path::exists` of std: whether something is on disk at `p`.
///
/// The answer depends on the disk at the moment of the call, so nothing is
/// claimed of it.
#[verifier::external_body]
pub(crate) fn path_exists(p: &str) -> (b: bool) {
    std::path::Path::new(p).exists()
}

/// Each conventional file name is plain, so a join appends it.
proof fn lemma_conventional_files_plain()
    ensures
        forall|k: int| 0 <= k < 5 ==> plain_file_name(#[trigger] ModelPaths::CONVENTIONAL@[k].1@),
{
    reveal_strlit("face_detection_yunet_2023mar.onnx");
    reveal_strlit("headpose_mobilenetv3_small.onnx");
    reveal_strlit("mobileone_s0_gaze.onnx");
    reveal_strlit("yolox_nano.onnx");
    reveal_strlit("w600k_mbf.onnx");
    assert(plain_file_name(ModelPaths::CONVENTIONAL@[0].1@));
    assert(plain_file_name(ModelPaths::CONVENTIONAL@[1].1@));
    assert(plain_file_name(ModelPaths::CONVENTIONAL@[2].1@));
    assert(plain_file_name(ModelPaths::CONVENTIONAL@[3].1@));
    assert(plain_file_name(ModelPaths::CONVENTIONAL@[4].1@));
}

impl ModelPaths {
    /// Conventional filename for each slot, as downloaded.
    pub const CONVENTIONAL: [(&'static str, &'static str); 5] = [
        ("face", "face_detection_yunet_2023mar.onnx"),
        ("pose", "headpose_mobilenetv3_small.onnx"),
        ("gaze", "mobileone_s0_gaze.onnx"),
        ("objects", "yolox_nano.onnx"),
        ("identity", "w600k_mbf.onnx"),
    ];

    /// The configured path of `slot`.
    pub open spec fn path_of(self, slot: ModelSlot) -> Option<String> {
        match slot {
            ModelSlot::Face => self.face,
            ModelSlot::Pose => self.pose,
            ModelSlot::Gaze => self.gaze,
            ModelSlot::Objects => self.objects,
            ModelSlot::Identity => self.identity,
        }
    }

    /// The conventional file name of `slot`.
    pub open spec fn conventional_file(slot: ModelSlot) -> Seq<char> {
        Self::CONVENTIONAL@[slot.position()].1@
    }

    /// What a slot holds after filling: an explicit path always wins,
    /// otherwise the candidate found for it, if any.
    pub open spec fn filled(old: Option<String>, candidate: Option<String>) -> Option<String> {
        if old is Some {
            old
        } else {
            candidate
        }
    }

    /// The paths at which the conventional model files would sit in `dir`:
    /// each file of [`ModelPaths::CONVENTIONAL`], in order, joined onto
    /// `dir`.
    pub fn conventional_candidates(dir: &str) -> (c: Vec<String>)
        ensures
            c@.len() == 5,
            forall|k: int|
                0 <= k < 5 ==> (!has_prefix(dir@, verbatim_prefix()) ==> is_join_of(
                    #[trigger] c@[k]@,
                    dir@,
                    Self::CONVENTIONAL@[k].1@,
                )),
    {
        proof {
            lemma_conventional_files_plain();
        }
        let mut c: Vec<String> = Vec::new();
        let mut i: usize = 0;
        while i < 5
            invariant
                i <= 5,
                c@.len() == i,
                forall|k: int|
                    0 <= k < i ==> (!has_prefix(dir@, verbatim_prefix()) ==> is_join_of(
                        #[trigger] c@[k]@,
                        dir@,
                        Self::CONVENTIONAL@[k].1@,
                    )),
                forall|k: int| 0 <= k < 5 ==> plain_file_name(#[trigger] Self::CONVENTIONAL@[k].1@),
            decreases 5 - i,
        {
            let entry = Self::CONVENTIONAL[i];
            c.push(join_path(dir, entry.1));
            i = i + 1;
        }
        c
    }

    /// Fill any slot that config left unset, from a directory of models.
    ///
    /// An explicit path always wins; an unset slot takes the conventional
    /// file of [`ModelPaths::CONVENTIONAL`] joined onto `dir`, if a file is
    /// there, and stays unset otherwise. Nothing here knows where `dir`
    /// came from; a binary decides which directory, this only knows what the
    /// files are conventionally called.
    pub fn fill_missing_from_dir(&mut self, dir: &str)
        ensures
            final(self).variant == old(self).variant,
            forall|s: ModelSlot|
                old(self).path_of(s) is Some ==> #[trigger] final(self).path_of(s) == old(
                    self,
                ).path_of(s),
            forall|s: ModelSlot|
                old(self).path_of(s) is None ==> match #[trigger] final(self).path_of(s) {
                    None => true,
                    Some(p) => !has_prefix(dir@, verbatim_prefix()) ==> is_join_of(
                        p@,
                        dir@,
                        Self::conventional_file(s),
                    ),
                },
    {
        let candidates = Self::conventional_candidates(dir);
        let mut found: Vec<Option<String>> = Vec::new();
        let mut i: usize = 0;
        while i < 5
            invariant
                i <= 5,
                found@.len() == i,
                candidates@.len() == 5,
                forall|k: int|
                    0 <= k < 5 ==> (!has_prefix(dir@, verbatim_prefix()) ==> is_join_of(
                        #[trigger] candidates@[k]@,
                        dir@,
                        Self::CONVENTIONAL@[k].1@,
                    )),
                forall|k: int|
                    0 <= k < i ==> match #[trigger] found@[k] {
                        None => true,
                        Some(p) => p@ == candidates@[k]@,
                    },
            decreases 5 - i,
        {
            if path_exists(candidates[i].as_str()) {
                found.push(Some(candidates[i].clone()));
            } else {
                found.push(None);
            }
            i = i + 1;
        }
        assert forall|k: int| 0 <= k < 5 implies match #[trigger] found@[k] {
            None => true,
            Some(p) => !has_prefix(dir@, verbatim_prefix()) ==> is_join_of(
                p@,
                dir@,
                Self::CONVENTIONAL@[k].1@,
            ),
        } by {
            assert(is_join_of(candidates@[k]@, dir@, Self::CONVENTIONAL@[k].1@) || has_prefix(dir@, verbatim_prefix()));
        }
        self.fill_missing_from_found(&found);
    }

    /// Fill any slot that is unset from `found`, which holds, for each entry
    /// of [`ModelPaths::CONVENTIONAL`] in order, the candidate path if the
    /// file is present.
    pub fn fill_missing_from_found(&mut self, found: &Vec<Option<String>>)
        requires
            found@.len() == 5,
        ensures
            forall|s: ModelSlot|
                #[trigger] final(self).path_of(s) == Self::filled(
                    old(self).path_of(s),
                    found@[s.position()],
                ),
            final(self).variant == old(self).variant,
    {
        if self.face.is_none() {
            if let Some(p) = &found[0] {
                self.face = Some(p.clone());
            }
        }
        if self.pose.is_none() {
            if let Some(p) = &found[1] {
                self.pose = Some(p.clone());
            }
        }
        if self.gaze.is_none() {
            if let Some(p) = &found[2] {
                self.gaze = Some(p.clone());
            }
        }
        if self.objects.is_none() {
            if let Some(p) = &found[3] {
                self.objects = Some(p.clone());
            }
        }
        if self.identity.is_none() {
            if let Some(p) = &found[4] {
                self.identity = Some(p.clone());
            }
        }
    }
}

} // verus!

verus! {

// ---------------------------------------------------------------------------
// objects
// ---------------------------------------------------------------------------

/// One named group of COCO classes judged together.
#[derive(Debug, Clone, PartialEq)]
pub struct ObjectBucket {
    pub classes: Vec<String>,
}

impl Default for ObjectBucket {
    /// A bucket with no classes.
    fn default() -> (b: Self)
        ensures
            b.classes@.len() == 0,
    {
        ObjectBucket { classes: Vec::new() }
    }
}

/// The class names of a bucket, as text.
pub open spec fn class_names(classes: Seq<String>) -> Seq<Seq<char>> {
    classes.map_values(|c: String| c@)
}

/// Named buckets, as text: each name with its class names.
pub open spec fn bucket_views(buckets: Seq<(String, ObjectBucket)>) -> Seq<(Seq<char>, Seq<Seq<char>>)> {
    buckets.map_values(|b: (String, ObjectBucket)| (b.0@, class_names(b.1.classes@)))
}

/// The message for a bucket named `name` that lists no classes.
pub open spec fn empty_bucket_message(name: Seq<char>) -> Seq<char> {
    "objects.buckets."@ + name + " lists no classes, so it can never fire"@
}

/// The message for a bucket named `name` that lists `class`, which the
/// object model never produces.
pub open spec fn unknown_class_message(name: Seq<char>, class: Seq<char>) -> Seq<char> {
    "objects.buckets."@ + name + " lists \""@ + class + "\", which is not a COCO class this model can produce"@
}

/// The first class in `classes` that the object model never produces.
pub open spec fn first_unknown_class(classes: Seq<Seq<char>>) -> Option<Seq<char>>
    decreases classes.len(),
{
    if classes.len() == 0 {
        None
    } else if !is_coco_class(classes[0]) {
        Some(classes[0])
    } else {
        first_unknown_class(classes.drop_first())
    }
}

/// What is wrong with the bucket `name` listing `classes`, if anything.
pub open spec fn bucket_error(name: Seq<char>, classes: Seq<Seq<char>>) -> Option<Seq<char>> {
    if classes.len() == 0 {
        Some(empty_bucket_message(name))
    } else {
        match first_unknown_class(classes) {
            Some(c) => Some(unknown_class_message(name, c)),
            None => None,
        }
    }
}

/// The message for the first faulty bucket of `buckets`, in order.
pub open spec fn first_bucket_error(buckets: Seq<(Seq<char>, Seq<Seq<char>>)>) -> Option<Seq<char>>
    decreases buckets.len(),
{
    if buckets.len() == 0 {
        None
    } else {
        match bucket_error(buckets[0].0, buckets[0].1) {
            Some(m) => Some(m),
            None => first_bucket_error(buckets.drop_first()),
        }
    }
}

/// The first class of `classes` that the object model never produces.
fn find_unknown_class(classes: &Vec<String>) -> (r: Option<usize>)
    ensures
        match r {
            None => first_unknown_class(class_names(classes@)) is None,
            Some(k) => k < classes@.len() && first_unknown_class(class_names(classes@)) == Some(
                classes@[k as int]@,
            ),
        },
{
    let ghost names = class_names(classes@);
    let mut k: usize = 0;
    assert(names.skip(0) =~= names);
    while k < classes.len()
        invariant
            k <= classes@.len(),
            names == class_names(classes@),
            first_unknown_class(names) == first_unknown_class(names.skip(k as int)),
        decreases classes@.len() - k,
    {
        assert(names.skip(k as int)[0] == classes@[k as int]@);
        if !coco_contains(classes[k].as_str()) {
            return Some(k);
        }
        assert(names.skip(k as int).drop_first() =~= names.skip(k + 1));
        k = k + 1;
    }
    assert(names.skip(k as int).len() == 0);
    None
}

/// Refuse object buckets that can never fire: a bucket naming no class, or
/// a class the object model never produces. The buckets are judged in the
/// order given, and the first fault is reported.
///
/// A bucket naming a class the detector can never emit is a threshold that
/// silently never fires, the quietest possible failure.
pub fn check_object_buckets(buckets: &Vec<(String, ObjectBucket)>) -> (r: Result<(), DetectError>)
    requires
        names_ascending(bucket_names(buckets@)),
    ensures
        r is Ok <==> first_bucket_error(bucket_views(buckets@)) is None,
        r is Err ==> (r matches Err(DetectError::Config(m)) && Some(m@) == first_bucket_error(
            bucket_views(buckets@),
        )),
{
    let ghost views = bucket_views(buckets@);
    let mut i: usize = 0;
    assert(views.skip(0) =~= views);
    while i < buckets.len()
        invariant
            i <= buckets@.len(),
            views == bucket_views(buckets@),
            first_bucket_error(views) == first_bucket_error(views.skip(i as int)),
        decreases buckets@.len() - i,
    {
        let name = &buckets[i].0;
        let classes = &buckets[i].1.classes;
        assert(views.skip(i as int)[0] == views[i as int]);
        if classes.len() == 0 {
            let m = String::from_str("objects.buckets.").concat(name.as_str()).concat(
                " lists no classes, so it can never fire",
            );
            return Err(DetectError::Config(m));
        }
        match find_unknown_class(classes) {
            Some(k) => {
                let m = String::from_str("objects.buckets.").concat(name.as_str()).concat(
                    " lists \"",
                ).concat(classes[k].as_str()).concat(
                    "\", which is not a COCO class this model can produce",
                );
                return Err(DetectError::Config(m));
            },
            None => {},
        }
        assert(views.skip(i as int).drop_first() =~= views.skip(i + 1));
        i = i + 1;
    }
    assert(views.skip(i as int).len() == 0);
    Ok(())
}

} // verus!

verus! {

/// The default object buckets, in name order.
pub open spec fn default_bucket_views() -> Seq<(Seq<char>, Seq<Seq<char>>)> {
    seq![("book"@, seq!["book"@]), ("handheld_device"@, seq!["cell phone"@, "remote"@])]
}

/// The default object buckets, in name order: `book`, and
/// `handheld_device` holding `cell phone` and `remote`.
///
/// The object model labels a phone `remote` (and `laptop`) on frames where
/// it is plainly a phone; a bucket absorbs that confusion where a literal
/// match would turn it into a false negative. `laptop` is deliberately not
/// in `handheld_device`: the candidate's own machine is in shot for the
/// whole exam and would fire continuously.
pub fn default_object_buckets() -> (b: Vec<(String, ObjectBucket)>)
    ensures
        bucket_views(b@) == default_bucket_views(),
        names_ascending(bucket_names(b@)),
{
    let mut book: Vec<String> = Vec::new();
    book.push(String::from_str("book"));
    let mut handheld: Vec<String> = Vec::new();
    handheld.push(String::from_str("cell phone"));
    handheld.push(String::from_str("remote"));
    let mut b: Vec<(String, ObjectBucket)> = Vec::new();
    b.push((String::from_str("book"), ObjectBucket { classes: book }));
    b.push((String::from_str("handheld_device"), ObjectBucket { classes: handheld }));
    assert(class_names(b@[0].1.classes@) =~= seq!["book"@]);
    assert(class_names(b@[1].1.classes@) =~= seq!["cell phone"@, "remote"@]);
    assert(bucket_views(b@) =~= default_bucket_views());
    proof {
        lemma_default_bucket_names_ascending();
        assert(bucket_names(b@) =~= default_bucket_views().map_values(
            |v: (Seq<char>, Seq<Seq<char>>)| v.0,
        ));
    }
    b
}

/// The default allow-list of object classes: `cell phone` and `book`.
///
/// Narrowed from five classes to two: `laptop` is the machine the exam runs
/// on, `tv` is usually the candidate's own monitor, and `person` duplicates
/// the multiple-faces signal.
pub fn default_allowlist() -> (a: Vec<String>)
    ensures
        class_names(a@) == seq!["cell phone"@, "book"@],
{
    let mut a: Vec<String> = Vec::new();
    a.push(String::from_str("cell phone"));
    a.push(String::from_str("book"));
    assert(class_names(a@) =~= seq!["cell phone"@, "book"@]);
    a
}

/// The default object buckets are valid: every bucket names at least one
/// class, and every class is one the object model produces.
pub proof fn lemma_default_buckets_valid()
    ensures
        first_bucket_error(default_bucket_views()) is None,
{
    let v = default_bucket_views();
    reveal_with_fuel(first_unknown_class, 3);
    reveal_with_fuel(first_bucket_error, 3);
    assert(crate::coco::COCO_CLASSES@[73]@ == "book"@);
    assert(crate::coco::COCO_CLASSES@[67]@ == "cell phone"@);
    assert(crate::coco::COCO_CLASSES@[65]@ == "remote"@);
    assert(is_coco_class("book"@));
    assert(is_coco_class("cell phone"@));
    assert(is_coco_class("remote"@));
    let c0 = v[0].1;
    assert(c0.drop_first().len() == 0);
    assert(first_unknown_class(c0) is None);
    let c1 = v[1].1;
    assert(c1.drop_first().drop_first().len() == 0);
    assert(first_unknown_class(c1.drop_first()) is None);
    assert(first_unknown_class(c1) is None);
    assert(v.drop_first().drop_first().len() == 0);
    assert(first_bucket_error(v.drop_first()) is None);
}

} // verus!

verus! {

// ---------------------------------------------------------------------------
// fusion
// ---------------------------------------------------------------------------

/// How serious a violation is, from an informational anomaly to a severe
/// integrity breach.
#[derive(Debug, Clone, Copy, PartialEq, Eq, Structural)]
pub enum Severity {
    Low,
    Medium,
    High,
    Critical,
}

/// The violation kinds, by name.
pub open spec fn violation_kinds() -> Seq<Seq<char>> {
    seq![
        "never_seen"@,
        "no_face"@,
        "multiple_faces"@,
        "head_turned_away"@,
        "gaze_off_screen"@,
        "prohibited_object"@,
        "identity_mismatch"@,
        "signal_lost"@,
    ]
}

/// Severity entries, as text.
pub open spec fn severity_views(entries: Seq<(String, Severity)>) -> Seq<(Seq<char>, Severity)> {
    entries.map_values(|e: (String, Severity)| (e.0@, e.1))
}

/// The severity given to `kind`: that of the first entry naming it, and
/// `Medium` when none does.
pub open spec fn severity_in(entries: Seq<(Seq<char>, Severity)>, kind: Seq<char>) -> Severity
    decreases entries.len(),
{
    if entries.len() == 0 {
        Severity::Medium
    } else if entries[0].0 == kind {
        entries[0].1
    } else {
        severity_in(entries.drop_first(), kind)
    }
}

/// The default severities, in name order.
pub open spec fn default_severity_views() -> Seq<(Seq<char>, Severity)> {
    seq![
        ("gaze_off_screen"@, Severity::Low),
        ("head_turned_away"@, Severity::Medium),
        ("identity_mismatch"@, Severity::Critical),
        ("multiple_faces"@, Severity::Critical),
        ("never_seen"@, Severity::High),
        ("no_face"@, Severity::High),
        ("prohibited_object"@, Severity::High),
        ("signal_lost"@, Severity::Critical),
    ]
}

/// Fusion's own numbers: how long a lost signal must stay lost, and how
/// serious each violation is.
#[derive(Debug, Clone)]
pub struct FusionConfig {
    /// How long pose or gaze must be absent before that absence is itself
    /// reported. A blink or one failed frame is absorbed; a covered camera
    /// or a wedged model is not.
    pub signal_lost_ms: u64,
    pub signal_lost_clear_ms: u64,
    /// Severity per violation kind, keyed by the kind's name, in name order.
    /// Anything missing is `Medium`.
    pub severity: Vec<(String, Severity)>,
}

impl FusionConfig {
    /// The severity configured for the violation kind named `kind`; anything
    /// missing from the table is `Medium`.
    pub fn severity_of(&self, kind: &str) -> (s: Severity)
        requires
            names_ascending(severity_names(self.severity@)),
        ensures
            s == severity_in(severity_views(self.severity@), kind@),
    {
        let ghost views = severity_views(self.severity@);
        let mut i: usize = 0;
        assert(views.skip(0) =~= views);
        while i < self.severity.len()
            invariant
                i <= self.severity@.len(),
                views == severity_views(self.severity@),
                severity_in(views, kind@) == severity_in(views.skip(i as int), kind@),
            decreases self.severity@.len() - i,
        {
            assert(views.skip(i as int)[0] == views[i as int]);
            if crate::text::str_eq(self.severity[i].0.as_str(), kind) {
                return self.severity[i].1;
            }
            assert(views.skip(i as int).drop_first() =~= views.skip(i + 1));
            i = i + 1;
        }
        assert(views.skip(i as int).len() == 0);
        Severity::Medium
    }
}

impl Default for FusionConfig {
    /// Signal lost after 5 s, cleared after 1.5 s; a second face, a
    /// different person and a lost signal (a covered lens or a frozen feed
    /// never reads as clear) are `Critical`; nobody ever appearing, an
    /// absent face and a prohibited object `High`; a turned head `Medium`;
    /// gaze off screen, an informational glance, `Low`.
    fn default() -> (c: Self)
        ensures
            c.signal_lost_ms == 5000,
            c.signal_lost_clear_ms == 1500,
            severity_views(c.severity@) == default_severity_views(),
            names_ascending(severity_names(c.severity@)),
    {
        let mut s: Vec<(String, Severity)> = Vec::new();
        s.push((String::from_str("gaze_off_screen"), Severity::Low));
        s.push((String::from_str("head_turned_away"), Severity::Medium));
        s.push((String::from_str("identity_mismatch"), Severity::Critical));
        s.push((String::from_str("multiple_faces"), Severity::Critical));
        s.push((String::from_str("never_seen"), Severity::High));
        s.push((String::from_str("no_face"), Severity::High));
        s.push((String::from_str("prohibited_object"), Severity::High));
        s.push((String::from_str("signal_lost"), Severity::Critical));
        assert(severity_views(s@) =~= default_severity_views());
        proof {
            lemma_default_severity_names_ascending();
            assert(severity_names(s@) =~= default_severity_views().map_values(
                |e: (Seq<char>, Severity)| e.0,
            ));
        }
        FusionConfig { signal_lost_ms: 5000, signal_lost_clear_ms: 1500, severity: s }
    }
}

// ---------------------------------------------------------------------------
// runtime
// ---------------------------------------------------------------------------

/// Which execution provider a model asks for.
#[derive(Debug, Clone, Copy, PartialEq, Eq, Structural)]
pub enum ExecutionProviderPref {
    /// DirectML first, CPU fallback. Runs on any DirectX 12 device,
    /// including integrated graphics.
    DirectMlThenCpu,
    CpuOnly,
}

impl Default for ExecutionProviderPref {
    fn default() -> (p: Self)
        ensures
            p == ExecutionProviderPref::CpuOnly,
    {
        ExecutionProviderPref::CpuOnly
    }
}

/// Requested execution provider per model slot.
///
/// Per model, not global: dispatch has a fixed per-inference cost, so a
/// small graph can be slower on the GPU than on the CPU.
#[derive(Debug, Clone, Copy, PartialEq, Eq, Structural)]
pub struct ModelProviders {
    pub face: ExecutionProviderPref,
    pub pose: ExecutionProviderPref,
    pub gaze: ExecutionProviderPref,
    pub objects: ExecutionProviderPref,
    pub identity: ExecutionProviderPref,
}

impl Default for ModelProviders {
    /// DirectML with CPU fallback for all five slots: all five measured
    /// faster on it.
    fn default() -> (p: Self)
        ensures
            forall|s: ModelSlot| #[trigger] p.spec_for_slot(s) == ExecutionProviderPref::DirectMlThenCpu,
    {
        ModelProviders {
            face: ExecutionProviderPref::DirectMlThenCpu,
            pose: ExecutionProviderPref::DirectMlThenCpu,
            gaze: ExecutionProviderPref::DirectMlThenCpu,
            objects: ExecutionProviderPref::DirectMlThenCpu,
            identity: ExecutionProviderPref::DirectMlThenCpu,
        }
    }
}

impl ModelProviders {
    /// The provider requested for `slot`.
    pub open spec fn spec_for_slot(self, slot: ModelSlot) -> ExecutionProviderPref {
        match slot {
            ModelSlot::Face => self.face,
            ModelSlot::Pose => self.pose,
            ModelSlot::Gaze => self.gaze,
            ModelSlot::Objects => self.objects,
            ModelSlot::Identity => self.identity,
        }
    }

    /// The provider requested for `slot`.
    pub fn for_slot(&self, slot: ModelSlot) -> (p: ExecutionProviderPref)
        ensures
            p == self.spec_for_slot(slot),
            slot is Face ==> p == self.face,
            slot is Pose ==> p == self.pose,
            slot is Gaze ==> p == self.gaze,
            slot is Objects ==> p == self.objects,
            slot is Identity ==> p == self.identity,
    {
        match slot {
            ModelSlot::Face => self.face,
            ModelSlot::Pose => self.pose,
            ModelSlot::Gaze => self.gaze,
            ModelSlot::Objects => self.objects,
            ModelSlot::Identity => self.identity,
        }
    }
}

/// Each slot reads its own setting: changing the provider of one slot
/// changes what that slot asks for, to exactly the new value, and leaves
/// every other slot as it was.
pub proof fn lemma_each_slot_reads_its_own_setting(
    p: ModelProviders,
    slot: ModelSlot,
    v: ExecutionProviderPref,
)
    ensures
        ({
            let q = match slot {
                ModelSlot::Face => ModelProviders { face: v, ..p },
                ModelSlot::Pose => ModelProviders { pose: v, ..p },
                ModelSlot::Gaze => ModelProviders { gaze: v, ..p },
                ModelSlot::Objects => ModelProviders { objects: v, ..p },
                ModelSlot::Identity => ModelProviders { identity: v, ..p },
            };
            &&& q.spec_for_slot(slot) == v
            &&& forall|other: ModelSlot| other != slot ==> #[trigger] q.spec_for_slot(other)
                == p.spec_for_slot(other)
        }),
{
}

/// Inference-runtime settings.
#[derive(Debug, Clone, Copy, PartialEq, Eq, Structural)]
pub struct RuntimeConfig {
    /// Threads for small models at a high rate.
    pub intra_threads_small: usize,
    /// The object session's thread budget.
    pub intra_threads_large: usize,
    pub inter_threads: usize,
    /// Switches the runtime to decreasing-granularity work claiming.
    pub dynamic_block_base: usize,
    /// Which execution provider each model slot asks for.
    pub providers: ModelProviders,
    /// Inferences run before the first real frame.
    pub warmup_iters: u32,
    /// Iterations per variant when the precision is chosen at startup.
    pub variant_bench_iters: u32,
    /// Let the runtime's thread pools spin-wait between inferences.
    pub allow_spinning: bool,
    /// Cap on evidence JPEGs written per minute.
    pub evidence_per_minute: u32,
}

impl Default for RuntimeConfig {
    /// Two threads for small models, one for the object model, one
    /// inter-op thread, block base 4, DirectML everywhere, 5 warm-up and 20
    /// benchmark iterations, no spinning, 6 evidence images a minute.
    fn default() -> (c: Self)
        ensures
            c == (RuntimeConfig {
                intra_threads_small: 2,
                intra_threads_large: 1,
                inter_threads: 1,
                dynamic_block_base: 4,
                providers: c.providers,
                warmup_iters: 5,
                variant_bench_iters: 20,
                allow_spinning: false,
                evidence_per_minute: 6,
            }),
            forall|s: ModelSlot| #[trigger] c.providers.spec_for_slot(s) == ExecutionProviderPref::DirectMlThenCpu,
    {
        RuntimeConfig {
            intra_threads_small: 2,
            intra_threads_large: 1,
            inter_threads: 1,
            dynamic_block_base: 4,
            providers: ModelProviders::default(),
            warmup_iters: 5,
            variant_bench_iters: 20,
            allow_spinning: false,
            evidence_per_minute: 6,
        }
    }
}

} // verus!

verus! {

/// The conventional table names its slots as the slots name themselves, in
/// the order of [`ModelSlot::position`].
pub proof fn lemma_conventional_names_match_slots()
    ensures
        forall|s: ModelSlot| #[trigger] ModelPaths::CONVENTIONAL@[s.position()].0@ == s.name(),
{
}

/// Two slots with the same name are the same slot.
pub proof fn lemma_slot_names_distinct(a: ModelSlot, b: ModelSlot)
    ensures
        a.name() == b.name() ==> a == b,
{
    reveal_strlit("face");
    reveal_strlit("pose");
    reveal_strlit("gaze");
    reveal_strlit("objects");
    reveal_strlit("identity");
    if a.name() == b.name() && a != b {
        assert(a.name().len() != b.name().len() || a.name()[0] != b.name()[0]);
    }
}

/// Filling is settled after one pass: an explicit path always wins, and
/// filling a second time from the same candidates changes nothing.
pub proof fn lemma_fill_settles(old: Option<String>, candidate: Option<String>)
    ensures
        old is Some ==> ModelPaths::filled(old, candidate) == old,
        ModelPaths::filled(ModelPaths::filled(old, candidate), candidate) == ModelPaths::filled(
            old,
            candidate,
        ),
{
}

/// The default severity table names every violation kind.
pub proof fn lemma_default_severity_covers_every_kind()
    ensures
        forall|k: int|
            0 <= k < violation_kinds().len() ==> exists|j: int|
                0 <= j < default_severity_views().len() && #[trigger] default_severity_views()[j].0
                    == #[trigger] violation_kinds()[k],
{
    let d = default_severity_views();
    let v = violation_kinds();
    assert(d[4].0 == v[0]);
    assert(d[5].0 == v[1]);
    assert(d[3].0 == v[2]);
    assert(d[1].0 == v[3]);
    assert(d[0].0 == v[4]);
    assert(d[6].0 == v[5]);
    assert(d[2].0 == v[6]);
    assert(d[7].0 == v[7]);
}

} // verus!

verus! {

/// Every class of `classes` is one the object model produces.
pub open spec fn all_coco(classes: Seq<Seq<char>>) -> bool {
    forall|j: int| 0 <= j < classes.len() ==> is_coco_class(#[trigger] classes[j])
}

/// A class list has no unknown class exactly when every class is known.
pub proof fn lemma_no_unknown_class_iff(classes: Seq<Seq<char>>)
    ensures
        first_unknown_class(classes) is None <==> all_coco(classes),
    decreases classes.len(),
{
    if classes.len() > 0 {
        lemma_no_unknown_class_iff(classes.drop_first());
        if all_coco(classes.drop_first()) && is_coco_class(classes[0]) {
            assert forall|j: int| 0 <= j < classes.len() implies is_coco_class(
                #[trigger] classes[j],
            ) by {
                if j > 0 {
                    assert(classes[j] == classes.drop_first()[j - 1]);
                }
            }
        }
        if all_coco(classes) {
            assert forall|j: int| 0 <= j < classes.drop_first().len() implies is_coco_class(
                #[trigger] classes.drop_first()[j],
            ) by {
                assert(classes.drop_first()[j] == classes[j + 1]);
            }
        }
    }
}

/// Object buckets pass validation exactly when every bucket names at least
/// one class and every class named is one the object model produces.
pub proof fn lemma_buckets_valid_iff(buckets: Seq<(Seq<char>, Seq<Seq<char>>)>)
    ensures
        first_bucket_error(buckets) is None <==> forall|i: int|
            0 <= i < buckets.len() ==> (#[trigger] buckets[i]).1.len() > 0 && all_coco(
                buckets[i].1,
            ),
    decreases buckets.len(),
{
    if buckets.len() > 0 {
        lemma_buckets_valid_iff(buckets.drop_first());
        lemma_no_unknown_class_iff(buckets[0].1);
        if first_bucket_error(buckets) is None {
            assert forall|i: int| 0 <= i < buckets.len() implies (#[trigger] buckets[i]).1.len()
                > 0 && all_coco(buckets[i].1) by {
                if i > 0 {
                    assert(buckets[i] == buckets.drop_first()[i - 1]);
                }
            }
        }
        if forall|i: int|
            0 <= i < buckets.len() ==> (#[trigger] buckets[i]).1.len() > 0 && all_coco(
                buckets[i].1,
            ) {
            assert forall|i: int| 0 <= i < buckets.drop_first().len() implies (
            #[trigger] buckets.drop_first()[i]).1.len() > 0 && all_coco(
                buckets.drop_first()[i].1,
            ) by {
                assert(buckets.drop_first()[i] == buckets[i + 1]);
            }
        }
    }
}

} // verus!

verus! {

/// `a` sorts before `b` in the order of a name-keyed map: character by
/// character, by code point, a proper prefix first.
pub open spec fn name_lt(a: Seq<char>, b: Seq<char>) -> bool
    decreases a.len(),
{
    if a.len() == 0 {
        b.len() > 0
    } else if b.len() == 0 {
        false
    } else if a[0] != b[0] {
        (a[0] as u32) < (b[0] as u32)
    } else {
        name_lt(a.drop_first(), b.drop_first())
    }
}

/// Each name sorts strictly before the next: the order in which a
/// name-keyed map is walked.
pub open spec fn names_ascending(names: Seq<Seq<char>>) -> bool {
    forall|i: int| 0 <= i < names.len() - 1 ==> name_lt(#[trigger] names[i], names[i + 1])
}

/// No name sorts before itself.
pub proof fn lemma_name_lt_irreflexive(a: Seq<char>)
    ensures
        !name_lt(a, a),
    decreases a.len(),
{
    if a.len() > 0 {
        lemma_name_lt_irreflexive(a.drop_first());
    }
}

/// The order of names is transitive.
pub proof fn lemma_name_lt_transitive(a: Seq<char>, b: Seq<char>, c: Seq<char>)
    requires
        name_lt(a, b),
        name_lt(b, c),
    ensures
        name_lt(a, c),
    decreases a.len(),
{
    if a.len() > 0 && b.len() > 0 && c.len() > 0 && a[0] == b[0] && b[0] == c[0] {
        lemma_name_lt_transitive(a.drop_first(), b.drop_first(), c.drop_first());
    }
}

/// Names in ascending order are all different: a table kept in that order
/// names each key once.
pub proof fn lemma_ascending_names_distinct(names: Seq<Seq<char>>, i: int, j: int)
    requires
        names_ascending(names),
        0 <= i < j < names.len(),
    ensures
        name_lt(names[i], names[j]),
        names[i] != names[j],
    decreases j - i,
{
    if j == i + 1 {
        assert(name_lt(names[i], names[i + 1]));
    } else {
        lemma_ascending_names_distinct(names, i, j - 1);
        assert(name_lt(names[j - 1], names[j]));
        lemma_name_lt_transitive(names[i], names[j - 1], names[j]);
    }
    lemma_name_lt_irreflexive(names[i]);
}

/// The default severity table is kept in name order, each kind once.
pub proof fn lemma_default_severity_names_ascending()
    ensures
        names_ascending(default_severity_views().map_values(|e: (Seq<char>, Severity)| e.0)),
{
    reveal_strlit("gaze_off_screen");
    reveal_strlit("head_turned_away");
    reveal_strlit("identity_mismatch");
    reveal_strlit("multiple_faces");
    reveal_strlit("never_seen");
    reveal_strlit("no_face");
    reveal_strlit("prohibited_object");
    reveal_strlit("signal_lost");
    reveal_with_fuel(name_lt, 3);
    let n = default_severity_views().map_values(|e: (Seq<char>, Severity)| e.0);
    assert(name_lt(n[0], n[1]));
    assert(name_lt(n[1], n[2]));
    assert(name_lt(n[2], n[3]));
    assert(name_lt(n[3], n[4]));
    assert(name_lt(n[4], n[5]));
    assert(name_lt(n[5], n[6]));
    assert(name_lt(n[6], n[7]));
}

/// The default object buckets are kept in name order.
pub proof fn lemma_default_bucket_names_ascending()
    ensures
        names_ascending(
            default_bucket_views().map_values(|b: (Seq<char>, Seq<Seq<char>>)| b.0),
        ),
{
    reveal_strlit("book");
    reveal_strlit("handheld_device");
    let n = default_bucket_views().map_values(|b: (Seq<char>, Seq<Seq<char>>)| b.0);
    assert(name_lt(n[0], n[1]));
}

} // verus!

verus! {

/// The names of a bucket list, in order.
pub open spec fn bucket_names(buckets: Seq<(String, ObjectBucket)>) -> Seq<Seq<char>> {
    buckets.map_values(|b: (String, ObjectBucket)| b.0@)
}

/// The names of a severity table, in order.
pub open spec fn severity_names(entries: Seq<(String, Severity)>) -> Seq<Seq<char>> {
    entries.map_values(|e: (String, Severity)| e.0@)
}

/// Whether `a` sorts before `b` in the order of a name-keyed map.
pub fn name_before(a: &str, b: &str) -> (r: bool)
    ensures
        r == name_lt(a@, b@),
{
    let x = crate::text::chars_of(a);
    let y = crate::text::chars_of(b);
    let mut i: usize = 0;
    assert(x@.skip(0) =~= x@);
    assert(y@.skip(0) =~= y@);
    loop
        invariant
            i <= x@.len(),
            i <= y@.len(),
            x@ == a@,
            y@ == b@,
            name_lt(a@, b@) == name_lt(x@.skip(i as int), y@.skip(i as int)),
        decreases x@.len() - i,
    {
        if i == x.len() {
            assert(x@.skip(i as int).len() == 0);
            return i < y.len();
        }
        if i == y.len() {
            assert(y@.skip(i as int).len() == 0);
            return false;
        }
        assert(x@.skip(i as int)[0] == x@[i as int]);
        assert(y@.skip(i as int)[0] == y@[i as int]);
        if x[i] != y[i] {
            return (x[i] as u32) < (y[i] as u32);
        }
        assert(x@.skip(i as int).drop_first() =~= x@.skip(i + 1));
        assert(y@.skip(i as int).drop_first() =~= y@.skip(i + 1));
        i = i + 1;
    }
}

/// Whether a bucket list is in name order, each name once: the order in
/// which a name-keyed map is walked.
pub fn bucket_names_in_order(buckets: &Vec<(String, ObjectBucket)>) -> (r: bool)
    ensures
        r == names_ascending(bucket_names(buckets@)),
{
    let ghost names = bucket_names(buckets@);
    let n: usize = buckets.len();
    let mut i: usize = 0;
    while i < n && i + 1 < n
        invariant
            names == bucket_names(buckets@),
            n == buckets@.len(),
            i == 0 || i < n,
            forall|k: int| 0 <= k < i ==> name_lt(#[trigger] names[k], names[k + 1]),
        decreases buckets@.len() - i,
    {
        if !name_before(buckets[i].0.as_str(), buckets[i + 1].0.as_str()) {
            assert(!name_lt(names[i as int], names[i + 1]));
            return false;
        }
        i = i + 1;
    }
    true
}

/// Whether a severity table is in name order, each name once: the order in
/// which a name-keyed map is walked.
pub fn severity_names_in_order(entries: &Vec<(String, Severity)>) -> (r: bool)
    ensures
        r == names_ascending(severity_names(entries@)),
{
    let ghost names = severity_names(entries@);
    let n: usize = entries.len();
    let mut i: usize = 0;
    while i < n && i + 1 < n
        invariant
            names == severity_names(entries@),
            n == entries@.len(),
            i == 0 || i < n,
            forall|k: int| 0 <= k < i ==> name_lt(#[trigger] names[k], names[k + 1]),
        decreases entries@.len() - i,
    {
        if !name_before(entries[i].0.as_str(), entries[i + 1].0.as_str()) {
            assert(!name_lt(names[i as int], names[i + 1]));
            return false;
        }
        i = i + 1;
    }
    true
}

} // verus!
