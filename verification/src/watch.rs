//! Which file-system events announce a new replay to the replay watcher.

use vstd::prelude::*;

use crate::text::{eq_ignore_ascii_case_spec, str_eq_ignore_ascii_case};

verus! {

/// Kind of a file-system event, as far as the watcher cares.
#[derive(Clone, Copy, Debug, PartialEq, Eq, Structural)]
pub enum WatchEventKind {
    Create,
    Modify,
    Other,
}

/// A replay file's extension: `SC2Replay`, any ASCII case.
pub open spec fn is_replay_extension_spec(ext: Seq<char>) -> bool {
    eq_ignore_ascii_case_spec(ext, "SC2Replay"@)
}

/// Whether a file extension is that of a replay (`.SC2Replay`).
pub fn is_replay_extension(ext: &str) -> (r: bool)
    ensures
        r == is_replay_extension_spec(ext@),
{
    str_eq_ignore_ascii_case(ext, "SC2Replay")
}

/// An event announces a replay when it creates or modifies a file with a
/// replay extension (`ext` is the path's UTF-8 extension, if any).
pub fn announces_replay(kind: WatchEventKind, ext: Option<&str>) -> (r: bool)
    ensures
        r == ((kind == WatchEventKind::Create || kind == WatchEventKind::Modify) && match ext {
            Some(e) => is_replay_extension_spec(e@),
            None => false,
        }),
{
    match kind {
        WatchEventKind::Other => false,
        _ => match ext {
            Some(e) => is_replay_extension(e),
            None => false,
        },
    }
}

} // verus!
