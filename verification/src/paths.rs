//! Verified path manipulation: joining with `/`, stripping the archive
//! name suffix, and taking the final path segment.

use vstd::prelude::*;
use vstd::string::*;

verus! {

/// `a` and `b` joined by a single `/` separator.
pub open spec fn spec_join(a: Seq<char>, b: Seq<char>) -> Seq<char> {
    a + seq!['/'] + b
}

/// Joins two path fragments with `/`.
pub fn path_join(a: &str, b: &str) -> (r: String)
    ensures
        r@ == spec_join(a@, b@),
{
    proof {
        reveal_strlit("/");
    }
    let r = a.to_owned().concat("/").concat(b);
    assert(r@ =~= spec_join(a@, b@));
    r
}

/// The archive name suffix stripped when deriving a package identifier.
pub open spec fn targz_suffix() -> Seq<char> {
    seq!['.', 't', 'a', 'r', '.', 'g', 'z']
}

/// Whether `s` ends in the archive name suffix.
pub open spec fn ends_with_targz(s: Seq<char>) -> bool {
    s.len() >= 7 && s.subrange(s.len() - 7, s.len() as int) == targz_suffix()
}

/// `s` without its archive name suffix, if it carries one.
pub open spec fn spec_strip_targz(s: Seq<char>) -> Seq<char> {
    if ends_with_targz(s) {
        s.take(s.len() - 7)
    } else {
        s
    }
}

/// Length of the `/`-free run just before position `j`, counting backwards.
pub open spec fn tail_run(s: Seq<char>, j: int) -> nat
    decreases j,
{
    if j <= 0 || j > s.len() || s[j - 1] == '/' {
        0
    } else {
        1 + tail_run(s, j - 1)
    }
}

/// The final `/`-separated segment of `s` (all of `s` if it has no `/`).
pub open spec fn spec_last_segment(s: Seq<char>) -> Seq<char> {
    s.subrange(s.len() - tail_run(s, s.len() as int), s.len() as int)
}

/// The package identifier an archive path denotes: the path without its
/// archive name suffix, reduced to its final path segment.
pub open spec fn spec_package_id(p: Seq<char>) -> Seq<char> {
    spec_last_segment(spec_strip_targz(p))
}

/// Derives the package identifier from an input archive path.
pub fn package_id(path: &str) -> (r: String)
    ensures
        r@ == spec_package_id(path@),
{
    let len: usize = path.unicode_len();
    let mut end: usize = len;
    if len >= 7 {
        let stripped = path.get_char(len - 7) == '.' && path.get_char(len - 6) == 't'
            && path.get_char(len - 5) == 'a' && path.get_char(len - 4) == 'r'
            && path.get_char(len - 3) == '.' && path.get_char(len - 2) == 'g'
            && path.get_char(len - 1) == 'z';
        if stripped {
            assert(path@.subrange(len - 7, len as int) =~= targz_suffix());
            end = len - 7;
        } else {
            assert(!ends_with_targz(path@));
        }
    }
    let ghost t = spec_strip_targz(path@);
    assert(t =~= path@.take(end as int));
    let mut j: usize = end;
    while j > 0 && path.get_char(j - 1) != '/'
        invariant
            0 <= j <= end <= len,
            len == path@.len(),
            t == path@.take(end as int),
            tail_run(t, end as int) == (end - j) + tail_run(t, j as int),
        decreases j,
    {
        assert(t[j - 1] == path@[j - 1]);
        j = j - 1;
    }
    assert(tail_run(t, j as int) == 0) by {
        if j > 0 {
            assert(t[j - 1] == path@[j - 1]);
        }
    }
    let r = path.substring_char(j, end);
    assert(r@ =~= spec_last_segment(t));
    r.to_owned()
}

} // verus!
