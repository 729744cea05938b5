//! What is known of a source file besides its contents: its path, name,
//! kind and content hash.

use vstd::prelude::*;
use crate::java::{content_hash, md5_hex};

verus! {

/// The kinds of file the tool reads.
#[derive(Clone, Copy, Debug, PartialEq, Eq, Structural)]
pub enum FileSuffix {
    Java,
    Property,
    Xml,
}

/// The name given to the last component of a path.
pub uninterp spec fn file_name_of(path: Seq<char>) -> Option<Seq<char>>;

/// Relies on std::path::Path::file_name: the final component of the path,
/// `None` when the path ends in `..` or is a root; a non-UTF-8 component
/// cannot arise from a `&str`.
#[verifier::external_body]
fn path_file_name(path: &str) -> (r: Option<String>)
    ensures
        opt_string_view(r) == file_name_of(path@),
{
    std::path::Path::new(path).file_name().and_then(|s| s.to_str()).map(|s| s.to_string())
}

pub open spec fn opt_string_view(o: Option<String>) -> Option<Seq<char>> {
    match o {
        Some(s) => Some(s@),
        None => None,
    }
}

/// A file's identity: where it is, its name, its kind and the hash of its
/// text.
#[derive(Clone, Debug)]
pub struct FileMeta {
    pub path: String,
    pub name: String,
    pub suffix: FileSuffix,
    pub hash_value: String,
}

impl FileMeta {
    /// The name is the path's last component, or `unknown` where it has none.
    pub fn new(path: &str, suffix: FileSuffix, source: &str) -> (r: FileMeta)
        ensures
            r.path@ == path@,
            r.suffix == suffix,
            r.hash_value@ == md5_hex(source@),
            r.name@ == (match file_name_of(path@) {
                Some(n) => n,
                None => "unknown"@,
            }),
    {
        let name = match path_file_name(path) {
            Some(n) => n,
            None => "unknown".to_string(),
        };
        FileMeta { path: path.to_string(), name, suffix, hash_value: content_hash(source) }
    }
}

} // verus!
