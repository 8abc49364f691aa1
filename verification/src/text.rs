//! Verified text handling: whitespace trimming, splitting, and integer
//! parsing over `Seq<char>` views of strings.

use vstd::prelude::*;
use vstd::string::*;

verus! {

/// The whitespace characters this tool recognises in its text inputs
/// (entry lists, manifest files, version stamps).
pub open spec fn is_space(c: char) -> bool {
    c == ' ' || c == '\t' || c == '\n' || c == '\r'
}

/// Number of consecutive whitespace characters at or after position `i`.
pub open spec fn space_run(s: Seq<char>, i: int) -> nat
    decreases s.len() - i,
{
    if i < 0 || i >= s.len() || !is_space(s[i]) {
        0
    } else {
        1 + space_run(s, i + 1)
    }
}

/// Number of consecutive whitespace characters just before position `j`,
/// counting backwards.
pub open spec fn space_run_back(s: Seq<char>, j: int) -> nat
    decreases j,
{
    if j <= 0 || j > s.len() || !is_space(s[j - 1]) {
        0
    } else {
        1 + space_run_back(s, j - 1)
    }
}

/// `s` with leading and trailing whitespace removed.
pub open spec fn spec_trim(s: Seq<char>) -> Seq<char> {
    let a = space_run(s, 0) as int;
    if a >= s.len() {
        Seq::empty()
    } else {
        s.subrange(a, s.len() - space_run_back(s, s.len() as int))
    }
}

/// Executable trim; returns the substring of `s` without leading and
/// trailing whitespace.
pub fn trim(s: &str) -> (r: String)
    ensures
        r@ == spec_trim(s@),
{
    let len: usize = s.unicode_len();
    let mut a: usize = 0;
    while a < len && is_space_char(s.get_char(a))
        invariant
            0 <= a <= len,
            len == s@.len(),
            space_run(s@, 0) == a + space_run(s@, a as int),
        decreases len - a,
    {
        a = a + 1;
    }
    if a == len {
        assert(space_run(s@, a as int) == 0);
        return String::new();
    }
    assert(!is_space(s@[a as int]));
    assert(space_run(s@, a as int) == 0);
    assert(space_run(s@, 0) == a);
    let mut j: usize = len;
    while j > a && is_space_char(s.get_char(j - 1))
        invariant
            a < j <= len,
            a < len == s@.len(),
            !is_space(s@[a as int]),
            space_run_back(s@, len as int) == (len - j) + space_run_back(s@, j as int),
        decreases j,
    {
        j = j - 1;
    }
    assert(!is_space(s@[j - 1]));
    assert(space_run_back(s@, j as int) == 0);
    assert(space_run_back(s@, len as int) == len - j);
    s.substring_char(a, j).to_owned()
}

/// Executable form of [`is_space`].
fn is_space_char(c: char) -> (r: bool)
    ensures
        r == is_space(c),
{
    c == ' ' || c == '\t' || c == '\n' || c == '\r'
}

/// Separator class used when splitting: either any whitespace character
/// (`ws` true) or a comma (`ws` false).
pub open spec fn is_sep(c: char, ws: bool) -> bool {
    if ws {
        is_space(c)
    } else {
        c == ','
    }
}

/// Length of the separator-free run starting at position `i`.
pub open spec fn piece_run(s: Seq<char>, i: int, ws: bool) -> nat
    decreases s.len() - i,
{
    if i < 0 || i >= s.len() || is_sep(s[i], ws) {
        0
    } else {
        1 + piece_run(s, i + 1, ws)
    }
}

/// The pieces of `s` delimited by separators, from position `i` on. Every
/// separator bounds a piece, so consecutive separators yield empty pieces.
pub open spec fn split_from(s: Seq<char>, i: int, ws: bool) -> Seq<Seq<char>>
    decreases s.len() - i,
{
    let e = i + piece_run(s, i, ws);
    if e >= s.len() {
        seq![s.subrange(i, e)]
    } else {
        seq![s.subrange(i, e)] + split_from(s, e + 1, ws)
    }
}

/// Each piece trimmed of surrounding whitespace, with the pieces that are
/// empty after trimming dropped.
pub open spec fn spec_clean(ps: Seq<Seq<char>>) -> Seq<Seq<char>>
    decreases ps.len(),
{
    if ps.len() == 0 {
        Seq::empty()
    } else {
        let h = spec_trim(ps[0]);
        let rest = spec_clean(ps.drop_first());
        if h.len() == 0 {
            rest
        } else {
            seq![h] + rest
        }
    }
}

/// The nonblank entries of `s`: split at separators, trim each piece,
/// drop the pieces that were blank.
pub open spec fn spec_entries(s: Seq<char>, ws: bool) -> Seq<Seq<char>> {
    spec_clean(split_from(s, 0, ws))
}

/// Executable form of [`is_sep`].
fn is_sep_char(c: char, ws: bool) -> (r: bool)
    ensures
        r == is_sep(c, ws),
{
    if ws {
        is_space_char(c)
    } else {
        c == ','
    }
}

/// Splits `s` at the chosen separator class, trims each piece, and returns
/// the nonblank pieces in order.
pub fn split_entries(s: &str, ws: bool) -> (r: Vec<String>)
    ensures
        r.deep_view() == spec_entries(s@, ws),
{
    let len: usize = s.unicode_len();
    let mut out: Vec<String> = Vec::new();
    let mut i: usize = 0;
    loop
        invariant
            0 <= i <= len,
            len == s@.len(),
            spec_entries(s@, ws) =~= out.deep_view() + spec_clean(split_from(s@, i as int, ws)),
        decreases len - i,
    {
        let mut j: usize = i;
        while j < len && !is_sep_char(s.get_char(j), ws)
            invariant
                i <= j <= len,
                len == s@.len(),
                piece_run(s@, i as int, ws) == (j - i) + piece_run(s@, j as int, ws),
            decreases len - j,
        {
            j = j + 1;
        }
        assert(piece_run(s@, j as int, ws) == 0);
        assert(i + piece_run(s@, i as int, ws) == j);
        let piece = s.substring_char(i, j);
        let t = trim(piece);
        let ghost prior = out.deep_view();
        let ghost pieces_here = split_from(s@, i as int, ws);
        assert(pieces_here[0] == s@.subrange(i as int, j as int));
        if t.unicode_len() > 0 {
            out.push(t);
            assert(out.deep_view() =~= prior + seq![spec_trim(s@.subrange(i as int, j as int))]);
        }
        if j < len {
            assert(pieces_here.drop_first() =~= split_from(s@, j + 1, ws));
            assert(spec_clean(pieces_here) == (if spec_trim(pieces_here[0]).len() == 0 {
                spec_clean(split_from(s@, j + 1, ws))
            } else {
                seq![spec_trim(pieces_here[0])] + spec_clean(split_from(s@, j + 1, ws))
            }));
            i = j + 1;
        } else {
            assert(pieces_here =~= seq![s@.subrange(i as int, j as int)]);
            assert(pieces_here.drop_first() =~= Seq::<Seq<char>>::empty());
            assert(spec_clean(pieces_here.drop_first()) == Seq::<Seq<char>>::empty());
            assert(spec_entries(s@, ws) =~= out.deep_view());
            return out;
        }
    }
}

/// A decimal digit.
pub open spec fn is_digit(c: char) -> bool {
    48 <= c as u32 <= 57
}

/// The numeric value of a digit (0 for anything else).
pub open spec fn digit_val(c: char) -> nat {
    if is_digit(c) {
        (c as u32 - 48) as nat
    } else {
        0
    }
}

/// Whether `s` consists solely of decimal digits.
pub open spec fn all_digits(s: Seq<char>) -> bool {
    forall|k: int| 0 <= k < s.len() ==> is_digit(s[k])
}

/// The number denoted by a digit string, most significant digit first.
pub open spec fn digits_val(s: Seq<char>) -> nat
    decreases s.len(),
{
    if s.len() == 0 {
        0
    } else {
        10 * digits_val(s.drop_last()) + digit_val(s.last())
    }
}

/// What parsing `s` as an unsigned decimal integer yields: the denoted
/// value if `s` is one or more digits and the value fits in a `u64`,
/// nothing otherwise.
pub open spec fn spec_parse_u64(s: Seq<char>) -> Option<u64> {
    if s.len() == 0 || !all_digits(s) {
        None
    } else if digits_val(s) > u64::MAX {
        None
    } else {
        Some(digits_val(s) as u64)
    }
}

proof fn lemma_digits_val_step(s: Seq<char>, i: int)
    requires
        0 <= i < s.len(),
    ensures
        digits_val(s.take(i + 1)) == 10 * digits_val(s.take(i)) + digit_val(s[i]),
{
    assert(s.take(i + 1).drop_last() =~= s.take(i));
    assert(s.take(i + 1).last() == s[i]);
}

proof fn lemma_digits_val_le(s: Seq<char>, i: int, j: int)
    requires
        0 <= i <= j <= s.len(),
    ensures
        digits_val(s.take(i)) <= digits_val(s.take(j)),
    decreases j - i,
{
    if i < j {
        lemma_digits_val_le(s, i, j - 1);
        lemma_digits_val_step(s, j - 1);
    }
}

/// Executable digit test; yields the digit's value.
fn digit_of(c: char) -> (r: Option<u8>)
    ensures
        r is Some <==> is_digit(c),
        r is Some ==> r->Some_0 == digit_val(c),
{
    let v: u32 = c as u32;
    if 48 <= v && v <= 57 {
        Some((v - 48) as u8)
    } else {
        None
    }
}

/// Parses an unsigned decimal integer: one or more digits and nothing
/// else, rejecting values that do not fit in a `u64`.
pub fn parse_u64(s: &str) -> (r: Option<u64>)
    ensures
        r == spec_parse_u64(s@),
{
    let len: usize = s.unicode_len();
    if len == 0 {
        return None;
    }
    let mut acc: u64 = 0;
    let mut i: usize = 0;
    while i < len
        invariant
            0 <= i <= len,
            len == s@.len(),
            all_digits(s@.take(i as int)),
            acc == digits_val(s@.take(i as int)),
        decreases len - i,
    {
        let c = s.get_char(i);
        match digit_of(c) {
            None => {
                assert(!all_digits(s@)) by {
                    assert(!is_digit(s@[i as int]));
                }
                return None;
            },
            Some(d) => {
                proof {
                    lemma_digits_val_step(s@, i as int);
                }
                if acc > (u64::MAX - d as u64) / 10 {
                    proof {
                        let m = (u64::MAX - d) as int;
                        vstd::arithmetic::div_mod::lemma_fundamental_div_mod(m, 10);
                        assert(acc * 10 >= (m / 10) * 10 + 10);
                        assert(digits_val(s@.take(i + 1)) > u64::MAX);
                        lemma_digits_val_le(s@, i + 1, s@.len() as int);
                        assert(s@.take(s@.len() as int) =~= s@);
                    }
                    return None;
                }
                proof {
                    let m = (u64::MAX - d) as int;
                    vstd::arithmetic::div_mod::lemma_fundamental_div_mod(m, 10);
                    assert(acc * 10 + d <= u64::MAX);
                }
                acc = acc * 10 + d as u64;
                assert(forall|k: int| 0 <= k < i + 1 ==> is_digit(#[trigger] s@.take(i + 1)[k]));
                i = i + 1;
            },
        }
    }
    assert(s@.take(i as int) =~= s@);
    Some(acc)
}

} // verus!
