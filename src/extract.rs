//! What the run does with a decoded container, and the names of the text
//! files that replace message tables.
use vstd::prelude::*;
use crate::error::MigrationError;
use crate::text::{ends_with_text, has_suffix};
use vstd::slice::slice_to_vec;
use vstd::string::{StrSliceExecFns, StringExecFns};
use vstd::utf8::encode_utf8;

verus! {

/// What the container decoder handed back for one file.
pub enum Extraction {
    /// The raw payload of a text container.
    Raw(Vec<u8>),
    /// The rendered script of a message container.
    Script(String),
    /// The container could not be decoded, for this reason.
    Failed(String),
}

/// The bytes written for a successful extraction; `None` for a failed one.
pub open spec fn extracted_bytes(outcome: Extraction) -> Option<Seq<u8>> {
    match outcome {
        Extraction::Raw(b) => Some(b@),
        Extraction::Script(s) => Some(encode_utf8(s@)),
        Extraction::Failed(_) => None,
    }
}

/// The one place where the failure policy is decided: a container that
/// cannot be decoded stops the run, naming the file at `path`; otherwise the
/// payload is written as it came, a script as its UTF-8 bytes.
pub fn accept_extraction(path: &str, outcome: Extraction) -> (r: Result<Vec<u8>, MigrationError>)
    ensures
        r is Ok <==> extracted_bytes(outcome) is Some,
        r matches Ok(v) ==> extracted_bytes(outcome) == Some(v@),
        r matches Err(e) ==> (outcome matches Extraction::Failed(reason) && e matches MigrationError::DecodeFailure(
            p,
            q,
        ) && p@ == path@ && q@ == reason@),
{
    match outcome {
        Extraction::Raw(b) => Ok(b),
        Extraction::Script(s) => Ok(slice_to_vec(s.as_str().as_bytes())),
        Extraction::Failed(reason) => Err(
            MigrationError::DecodeFailure(String::from_str(path), reason),
        ),
    }
}

/// The index of the last `.` among the first `k` characters of `s`, or -1.
pub open spec fn last_dot_before(s: Seq<char>, k: int) -> int
    decreases k,
{
    if k <= 0 {
        -1
    } else if s[k - 1] == '.' {
        k - 1
    } else {
        last_dot_before(s, k - 1)
    }
}

/// A file name without its extension: the part before the last `.`, unless
/// that `.` starts the name or there is none.
pub open spec fn file_stem(name: Seq<char>) -> Seq<char> {
    let d = last_dot_before(name, name.len() as int);
    if d > 0 {
        name.subrange(0, d)
    } else {
        name
    }
}

/// The name of the text file that replaces the message table file `name`:
/// its extension, if any, becomes `txt`. Only names ending in `msbt` have one.
pub open spec fn msbt_text_name_of(name: Seq<char>) -> Option<Seq<char>> {
    if has_suffix(name, "msbt"@) {
        Some(file_stem(name) + ".txt"@)
    } else {
        None
    }
}

/// The name of the text file written beside the message table `name`, or
/// `None` when `name` is no message table.
pub fn msbt_text_name(name: &str) -> (r: Option<String>)
    ensures
        r is Some <==> msbt_text_name_of(name@) is Some,
        r matches Some(t) ==> msbt_text_name_of(name@) == Some(t@),
{
    if !ends_with_text(name, "msbt") {
        return None;
    }
    let n = name.unicode_len();
    let mut k: usize = n;
    while k > 0 && name.get_char(k - 1) != '.'
        invariant
            n == name@.len(),
            k <= n,
            last_dot_before(name@, n as int) == last_dot_before(name@, k as int),
        decreases k,
    {
        k = k - 1;
    }
    let ghost d = last_dot_before(name@, n as int);
    assert(d == if k == 0 { -1 } else { k - 1 });
    let stem = if k > 1 {
        String::from_str(name.substring_char(0, k - 1))
    } else {
        String::from_str(name)
    };
    Some(stem.concat(".txt"))
}

} // verus!
