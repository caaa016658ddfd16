//! Path strings: joining components and taking the final component.

use vstd::prelude::*;
use vstd::string::StringExecFns;
use crate::text::chars_of;

verus! {

/// `base` extended by `name` as `Path::join` does on Unix: an absolute `name`
/// replaces `base`; otherwise a `/` is put between them unless `base` is empty
/// or already ends with one.
pub open spec fn join_path_spec(base: Seq<char>, name: Seq<char>) -> Seq<char> {
    if name.len() > 0 && name[0] == '/' {
        name
    } else if base.len() > 0 && base.last() != '/' {
        base + seq!['/'] + name
    } else {
        base + name
    }
}

/// Joins `name` onto the path `base`.
pub fn join_path(base: &str, name: &str) -> (r: String)
    ensures
        r@ == join_path_spec(base@, name@),
{
    let b = chars_of(base);
    let n = chars_of(name);
    if n.len() > 0 && n[0] == '/' {
        return String::from_str(name);
    }
    let mut r = String::from_str(base);
    if b.len() > 0 && b[b.len() - 1] != '/' {
        r.append("/");
        proof {
            reveal_strlit("/");
            assert(b@.last() == b@[b@.len() - 1]);
        }
    }
    r.append(name);
    r
}

/// Number of characters after the last `/` of `path` (all of them when there
/// is none).
pub open spec fn tail_len(path: Seq<char>) -> nat
    decreases path.len(),
{
    if path.len() == 0 || path.last() == '/' {
        0
    } else {
        1 + tail_len(path.drop_last())
    }
}

/// The final component of the path `path`, as `Path::file_name` gives it on
/// Unix: the last piece between `/` separators, skipping empty pieces (repeated
/// or trailing separators) and `.` pieces; `None` when that piece is `..` or
/// when there is no piece (an empty path, `/`, `.`).
pub open spec fn file_name_of(path: Seq<char>) -> Option<Seq<char>>
    decreases path.len(),
{
    let k = tail_len(path);
    let piece = path.skip(path.len() - k);
    if piece == Seq::<char>::empty() || piece == "."@ {
        if k < path.len() {
            file_name_of(path.take(path.len() - k - 1))
        } else {
            None
        }
    } else if piece == ".."@ {
        None
    } else {
        Some(piece)
    }
}

/// The final component of `path`.
///
/// Trusted: calls `std::path::Path::file_name` on `path` and converts the
/// component (always valid UTF-8 here, since it comes from a `&str`) to a
/// `String`. The contract states the value `file_name_of` gives, which follows
/// the documentation of `Path::file_name` and `Path::components` on Unix:
/// repeated separators, a trailing separator and `.` components are ignored,
/// and a path ending in `..`, the root and an empty path have no file name.
#[verifier::external_body]
pub(crate) fn file_name(path: &str) -> (r: Option<String>)
    ensures
        match r {
            Some(n) => file_name_of(path@) == Some(n@),
            None => file_name_of(path@) is None,
        },
{
    std::path::Path::new(path).file_name().and_then(|n| n.to_str()).map(|n| n.to_string())
}

} // verus!
