//! File-system paths as strings, through `std::path` (Unix semantics: the
//! application runs on macOS and Linux).

use vstd::prelude::*;

use crate::history::{last_dot, last_dot_from};
use crate::text::{chars_of, slice_chars, string_of};

verus! {

/// The last character of `s` is '/'.
pub open spec fn ends_with_separator(s: Seq<char>) -> bool {
    s.len() > 0 && s.last() == '/'
}

/// `Path::join` of `dir` and `name`, as `PathBuf::push` documents it on
/// Unix: an absolute `name` replaces `dir`; otherwise a separator is added
/// between them unless `dir` is empty or already ends with one.
pub open spec fn joined(dir: Seq<char>, name: Seq<char>) -> Seq<char> {
    if name.len() > 0 && name[0] == '/' {
        name
    } else if dir.len() == 0 || ends_with_separator(dir) {
        dir + name
    } else {
        dir + seq!['/'] + name
    }
}

/// `dir` joined with `name`.
pub fn join(dir: &str, name: &str) -> (p: String)
    ensures
        p@ == joined(dir@, name@),
{
    let d = chars_of(dir);
    let mut n = chars_of(name);
    if n.len() > 0 && n[0] == '/' {
        return string_of(n.as_slice());
    }
    let mut out = d;
    if out.len() > 0 && out[out.len() - 1] != '/' {
        out.push('/');
    }
    out.append(&mut n);
    string_of(out.as_slice())
}

/// What `Path::file_name` returns for a path.
pub uninterp spec fn path_file_name(p: Seq<char>) -> Option<Seq<char>>;

/// What `Path::parent` returns for a path.
pub uninterp spec fn path_parent(p: Seq<char>) -> Option<Seq<char>>;

/// The extension of a file name, as `Path::extension` takes it: what
/// follows the last '.', unless there is none or the only one starts the
/// name (and ".." has none).
pub open spec fn name_extension(n: Seq<char>) -> Option<Seq<char>> {
    if n == seq!['.', '.'] {
        None
    } else {
        match last_dot(n) {
            None => None,
            Some(i) => if i == 0 {
                None
            } else {
                Some(n.subrange(i + 1, n.len() as int))
            },
        }
    }
}

/// What `Path::extension` returns for a path: the extension of its file name.
pub open spec fn path_extension(p: Seq<char>) -> Option<Seq<char>> {
    match path_file_name(p) {
        None => None,
        Some(n) => name_extension(n),
    }
}

/// What `Path::with_file_name` returns for a path and a new file name.
pub uninterp spec fn path_with_file_name(p: Seq<char>, name: Seq<char>) -> Seq<char>;

/// `Path::file_name`. Trusted: the result is `path_file_name` of the path.
#[verifier::external_body]
pub(crate) fn file_name(p: &str) -> (n: Option<String>)
    ensures
        match n {
            Some(n) => path_file_name(p@) == Some(n@),
            None => path_file_name(p@) is None,
        },
{
    std::path::Path::new(p).file_name().map(|n| n.to_string_lossy().into_owned())
}

/// `Path::parent`. Trusted: the result is `path_parent` of the path.
#[verifier::external_body]
pub(crate) fn parent(p: &str) -> (d: Option<String>)
    ensures
        match d {
            Some(d) => path_parent(p@) == Some(d@),
            None => path_parent(p@) is None,
        },
{
    std::path::Path::new(p).parent().map(|d| d.to_string_lossy().into_owned())
}

/// `Path::extension`: the extension of the path's file name.
pub fn extension(p: &str) -> (e: Option<String>)
    ensures
        match e {
            Some(e) => path_extension(p@) == Some(e@),
            None => path_extension(p@) is None,
        },
{
    let name = match file_name(p) {
        Some(n) => n,
        None => return None,
    };
    let n = chars_of(name.as_str());
    if n.len() == 2 && n[0] == '.' && n[1] == '.' {
        assert(n@ =~= seq!['.', '.']);
        return None;
    }
    let mut i: usize = n.len();
    while i > 0
        invariant
            i <= n@.len(),
            last_dot(n@) == last_dot_from(n@, i - 1),
        ensures
            i <= n@.len(),
            last_dot(n@) == last_dot_from(n@, i - 1),
            i == 0 || n@[i - 1] == '.',
        decreases i,
    {
        if n[i - 1] == '.' {
            break;
        }
        i = i - 1;
    }
    proof {
        if n@ == seq!['.', '.'] {
            assert(n@.len() == 2 && n@[0] == '.' && n@[1] == '.');
        }
    }
    if i <= 1 {
        return None;
    }
    let ext = slice_chars(n.as_slice(), i, n.len());
    Some(string_of(ext.as_slice()))
}

/// `Path::with_file_name`. Trusted: the result is `path_with_file_name`.
#[verifier::external_body]
pub(crate) fn with_file_name(p: &str, name: &str) -> (q: String)
    ensures
        q@ == path_with_file_name(p@, name@),
{
    std::path::Path::new(p).with_file_name(name).to_string_lossy().into_owned()
}

} // verus!
