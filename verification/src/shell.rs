//! What the desktop shell decides on its own: its command line, where its
//! bundled files are, and how a startup failure is explained to a person.
use vstd::prelude::*;
use vstd::string::StringExecFns;

use crate::config::{is_join_of, join_path, path_exists, plain_file_name, verbatim_prefix};
use crate::text::{has_infix, has_prefix, str_contains, str_eq, str_starts_with};

verus! {

/// The shell's command line.
#[derive(Debug, Clone)]
pub struct Args {
    /// Where frames come from: `camera:N`, `file:PATH` or `dir:PATH`.
    pub source: String,
    /// A configuration file to load instead of the defaults.
    pub config: Option<String>,
    /// Run replay sources in real time rather than flat out.
    pub paced: bool,
}

/// An optional string, as text.
pub open spec fn opt_view(o: Option<String>) -> Option<Seq<char>> {
    match o {
        Some(s) => Some(s@),
        None => None,
    }
}

/// Arguments, as text.
pub open spec fn arg_views(argv: Seq<String>) -> Seq<Seq<char>> {
    argv.map_values(|a: String| a@)
}

/// The command line as text: source, configuration file, paced.
pub type ArgsView = (Seq<char>, Option<Seq<char>>, bool);

/// The effect of the arguments `argv` on the state `st`, read left to
/// right: `--source V` sets the source, `--config V` sets the
/// configuration file (and a trailing `--config` clears it), `--paced`
/// sets paced, and anything else is ignored.
pub open spec fn scan_args(argv: Seq<Seq<char>>, st: ArgsView) -> ArgsView
    decreases argv.len(),
{
    if argv.len() == 0 {
        st
    } else if argv[0] == "--source"@ {
        if argv.len() >= 2 {
            scan_args(argv.skip(2), (argv[1], st.1, st.2))
        } else {
            st
        }
    } else if argv[0] == "--config"@ {
        if argv.len() >= 2 {
            scan_args(argv.skip(2), (st.0, Some(argv[1]), st.2))
        } else {
            (st.0, None, st.2)
        }
    } else if argv[0] == "--paced"@ {
        scan_args(argv.skip(1), (st.0, st.1, true))
    } else {
        scan_args(argv.skip(1), st)
    }
}

/// The command line `argv` (program name excluded) describes: camera 0,
/// no configuration file and flat-out replay unless the arguments say
/// otherwise, and any source but a camera always paced.
pub open spec fn parsed_args(argv: Seq<Seq<char>>) -> ArgsView {
    let st = scan_args(argv, ("camera:0"@, None, false));
    if has_prefix(st.0, "camera:"@) {
        st
    } else {
        (st.0, st.1, true)
    }
}

impl Args {
    /// The command line as text.
    pub open spec fn view_args(self) -> ArgsView {
        (self.source@, opt_view(self.config), self.paced)
    }

    /// Read the command line `argv`, without the program name.
    pub fn parse(argv: Vec<String>) -> (a: Args)
        ensures
            a.view_args() == parsed_args(arg_views(argv@)),
    {
        let ghost views = arg_views(argv@);
        let mut source = String::from_str("camera:0");
        let mut config: Option<String> = None;
        let mut paced = false;
        let mut i: usize = 0;
        assert(views.skip(0) =~= views);
        while i < argv.len()
            invariant
                i <= argv@.len(),
                views == arg_views(argv@),
                scan_args(views, ("camera:0"@, None, false)) == scan_args(
                    views.skip(i as int),
                    (source@, opt_view(config), paced),
                ),
            decreases argv@.len() - i,
        {
            let ghost rest = views.skip(i as int);
            assert(rest[0] == argv@[i as int]@);
            let arg = argv[i].as_str();
            if str_eq(arg, "--source") {
                if i + 1 < argv.len() {
                    assert(rest[1] == argv@[i + 1]@);
                    assert(rest.skip(2) =~= views.skip(i + 2));
                    source = argv[i + 1].clone();
                    i = i + 2;
                } else {
                    assert(views.skip(i + 1).len() == 0);
                    i = i + 1;
                }
            } else if str_eq(arg, "--config") {
                if i + 1 < argv.len() {
                    assert(rest[1] == argv@[i + 1]@);
                    assert(rest.skip(2) =~= views.skip(i + 2));
                    config = Some(argv[i + 1].clone());
                    i = i + 2;
                } else {
                    config = None;
                    assert(views.skip(i + 1).len() == 0);
                    i = i + 1;
                }
            } else if str_eq(arg, "--paced") {
                assert(rest.skip(1) =~= views.skip(i + 1));
                paced = true;
                i = i + 1;
            } else {
                assert(rest.skip(1) =~= views.skip(i + 1));
                i = i + 1;
            }
        }
        assert(views.skip(i as int).len() == 0);
        if !str_starts_with(source.as_str(), "camera:") {
            paced = true;
        }
        Args { source, config, paced }
    }
}

/// A source other than a camera is always paced: a file or directory is
/// only watchable in real time.
pub proof fn lemma_replay_sources_are_paced(argv: Seq<Seq<char>>)
    ensures
        !has_prefix(parsed_args(argv).0, "camera:"@) ==> parsed_args(argv).2,
{
}

/// `r` is the first of `candidates`, in order, whose flag in `present` is
/// set, and `None` when no flag is set.
pub open spec fn is_first_present(candidates: Seq<String>, present: Seq<bool>, r: Option<String>) -> bool {
    &&& (r is Some <==> exists|k: int| 0 <= k < present.len() && #[trigger] present[k])
    &&& (r matches Some(d) ==> exists|k: int|
        0 <= k < present.len() && #[trigger] present[k] && (forall|j: int| 0 <= j < k ==> !present[j])
            && d@ == candidates[k]@)
}

/// The first of `candidates`, in order, whose flag in `present` is set.
pub fn first_present(candidates: &Vec<String>, present: &Vec<bool>) -> (r: Option<String>)
    requires
        present@.len() == candidates@.len(),
    ensures
        is_first_present(candidates@, present@, r),
{
    let mut i: usize = 0;
    while i < candidates.len()
        invariant
            i <= candidates@.len(),
            present@.len() == candidates@.len(),
            forall|j: int| 0 <= j < i ==> !present@[j],
        decreases candidates@.len() - i,
    {
        if present[i] {
            let d = candidates[i].clone();
            assert(present@[i as int]);
            return Some(d);
        }
        i = i + 1;
    }
    None
}

/// The path of a file named `file` in each of `candidates`, in order: `file`
/// joined onto each.
pub fn marker_paths(candidates: &Vec<String>, file: &str) -> (m: Vec<String>)
    ensures
        m@.len() == candidates@.len(),
        forall|k: int|
            0 <= k < candidates@.len() ==> (plain_file_name(file@) && !has_prefix(
                candidates@[k]@,
                verbatim_prefix(),
            ) ==> is_join_of(#[trigger] m@[k]@, candidates@[k]@, file@)),
{
    let mut m: Vec<String> = Vec::new();
    let mut i: usize = 0;
    while i < candidates.len()
        invariant
            i <= candidates@.len(),
            m@.len() == i,
            forall|k: int|
                0 <= k < i ==> (plain_file_name(file@) && !has_prefix(
                    candidates@[k]@,
                    verbatim_prefix(),
                ) ==> is_join_of(#[trigger] m@[k]@, candidates@[k]@, file@)),
        decreases candidates@.len() - i,
    {
        m.push(join_path(candidates[i].as_str(), file));
        i = i + 1;
    }
    m
}

/// The first directory of `candidates`, in order, that holds a file named
/// `file`, looked for as `file` joined onto each candidate.
///
/// Whether a file is there depends on the disk at the moment of the look,
/// so what is promised is the order: the answer is the first candidate whose
/// look found the file, and `None` when no look did.
pub fn first_dir_containing(candidates: &Vec<String>, file: &str) -> (r: Option<String>)
    ensures
        r matches Some(d) ==> exists|k: int| 0 <= k < candidates@.len() && #[trigger] candidates@[k]@ == d@,
        exists|present: Seq<bool>|
            present.len() == candidates@.len() && #[trigger] is_first_present(candidates@, present, r),
{
    let markers = marker_paths(candidates, file);
    let mut present: Vec<bool> = Vec::new();
    let mut i: usize = 0;
    while i < markers.len()
        invariant
            i <= markers@.len(),
            markers@.len() == candidates@.len(),
            present@.len() == i,
        decreases markers@.len() - i,
    {
        present.push(path_exists(markers[i].as_str()));
        i = i + 1;
    }
    let r = first_present(candidates, &present);
    proof {
        if r is Some {
            let k = choose|k: int|
                0 <= k < present@.len() && #[trigger] present@[k] && (forall|j: int|
                    0 <= j < k ==> !present@[j]) && r->Some_0@ == candidates@[k]@;
            assert(candidates@[k]@ == r->Some_0@);
        }
    }
    r
}

/// What is appended to a failure that looks like another process holding
/// the camera.
pub const WEBCAM_HELP: &'static str = "\n\nWindows lets exactly one process own a webcam. Close OBS, Teams, Zoom, Discord, a browser tab, or a running detect-cli, then restart the viewer.";

/// What is appended to a failure to start ffmpeg or ffprobe.
pub const FFMPEG_HELP: &'static str = "\n\nffmpeg and ffprobe must be on PATH for camera: and file: sources.";

/// The explanation a person is shown for a startup failure reading `base`.
pub open spec fn explanation(base: Seq<char>) -> Seq<char> {
    if has_infix(base, "Could not run graph"@) || has_infix(base, "already in use"@) {
        base + WEBCAM_HELP@
    } else if has_infix(base, "could not start ffmpeg"@) || has_infix(
        base,
        "could not run ffprobe"@,
    ) {
        base + FFMPEG_HELP@
    } else {
        base
    }
}

/// Turn a startup failure, by its message, into something a person can act
/// on.
pub fn explain(base: &str) -> (s: String)
    ensures
        s@ == explanation(base@),
{
    if str_contains(base, "Could not run graph") || str_contains(base, "already in use") {
        String::from_str(base).concat(WEBCAM_HELP)
    } else if str_contains(base, "could not start ffmpeg") || str_contains(
        base,
        "could not run ffprobe",
    ) {
        String::from_str(base).concat(FFMPEG_HELP)
    } else {
        String::from_str(base)
    }
}

} // verus!

verus! {

/// Explaining a startup failure never loses what the failure said: the
/// explanation starts with it.
pub proof fn lemma_explanation_keeps_message(base: Seq<char>)
    ensures
        has_prefix(explanation(base), base),
{
    assert(explanation(base).subrange(0, base.len() as int) =~= base);
}

} // verus!
