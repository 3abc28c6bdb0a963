//! The static-file middleware's decision: whether a request path may be
//! tried against the static directory at all, and which file it names
//! there. Probing the filesystem and streaming the file belong to the
//! transport; the path analysis is verified here.

use vstd::prelude::*;

use crate::strutil::{contains_seq, contains_sub};

verus! {

/// A path that tries to step through the directory tree: it embeds a
/// relative component and is never served.
pub open spec fn path_is_suspect(path: Seq<char>) -> bool {
    contains_seq(path, "./"@) || contains_seq(path, "../"@)
}

/// The middleware that serves a file from the static directory when one
/// matches the request path, and passes the request on otherwise.
pub struct TryFile;

impl TryFile {
    /// The file a request path may be served from: the path joined under
    /// the static directory, or nothing for a path with relative
    /// components, which the original treats as hostile.
    pub fn candidate(path: &str) -> (r: Option<String>)
        ensures
            match r {
                Some(c) => !path_is_suspect(path@) && c@ == "./static"@ + path@,
                None => path_is_suspect(path@),
            },
    {
        if contains_sub(path, "./") || contains_sub(path, "../") {
            None
        } else {
            Some("./static".to_owned().concat(path))
        }
    }
}

} // verus!
