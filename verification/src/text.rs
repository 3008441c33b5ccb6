//! Small operations on strings that the reports and the registry are built
//! from.

use vstd::prelude::*;
use vstd::string::*;

verus! {

/// What the `{:?}` format of std prints for a string: the string between
/// double quotes, with the characters that need it escaped.
pub uninterp spec fn debug_form(s: Seq<char>) -> Seq<char>;

/// Formats a string with `{:?}` (std's `Debug` for `str`). The result is the
/// text that [`debug_form`] names.
#[verifier::external_body]
pub(crate) fn debug_format(s: &str) -> (r: String)
    ensures
        r@ == debug_form(s@),
{
    format!("{:?}", s)
}

/// `s` ends with `suffix`.
pub open spec fn ends_with(s: Seq<char>, suffix: Seq<char>) -> bool {
    s.len() >= suffix.len() && s.subrange(s.len() - suffix.len(), s.len() as int) == suffix
}

/// `s` without the `suffix` that it ends with; `s` itself where it does not
/// end with it.
pub open spec fn without_suffix(s: Seq<char>, suffix: Seq<char>) -> Seq<char> {
    if ends_with(s, suffix) {
        s.subrange(0, s.len() - suffix.len())
    } else {
        s
    }
}

/// Two paths put together. An absolute `part`, one that begins with `/`,
/// takes the place of the base. Else the result is `part` alone under an
/// empty base, and otherwise `base`, a `/` unless `base` already ends with
/// one, and `part`.
pub open spec fn joined(base: Seq<char>, part: Seq<char>) -> Seq<char> {
    if part.len() > 0 && part[0] == '/' {
        part
    } else if base.len() == 0 {
        part
    } else if base.last() == '/' {
        base + part
    } else {
        base + seq!['/'] + part
    }
}

/// Whether `s` ends with `suffix`.
pub fn has_suffix(s: &str, suffix: &str) -> (r: bool)
    ensures
        r == ends_with(s@, suffix@),
{
    let n = s.unicode_len();
    let m = suffix.unicode_len();
    if n < m {
        return false;
    }
    let tail = s.substring_char(n - m, n).to_owned();
    let wanted = suffix.to_owned();
    tail == wanted
}

/// Takes the `suffix` off the end of `s`, where `s` ends with it.
pub fn trim_suffix(s: &str, suffix: &str) -> (r: String)
    ensures
        r@ == without_suffix(s@, suffix@),
{
    if has_suffix(s, suffix) {
        let n = s.unicode_len();
        let m = suffix.unicode_len();
        s.substring_char(0, n - m).to_owned()
    } else {
        s.to_owned()
    }
}

/// Puts `part` under `base`, with one `/` between them where `base` does not
/// end with one; an absolute `part` is returned as it is.
pub fn join_path(base: &str, part: &str) -> (r: String)
    ensures
        r@ == joined(base@, part@),
{
    if part.unicode_len() > 0 && part.get_char(0) == '/' {
        return part.to_owned();
    }
    let n = base.unicode_len();
    if n == 0 {
        return part.to_owned();
    }
    let mut path = base.to_owned();
    if base.get_char(n - 1) != '/' {
        path.append("/");
        proof {
            reveal_strlit("/");
            assert("/"@ == seq!['/']);
        }
    }
    path.append(part);
    path
}

} // verus!
