use vstd::prelude::*;

use crate::error::UvmVersionError;
use crate::text::{
    all_digits, chars_of, decimal_digits, decimal_value, digit_char, digit_value, digits_value, is_digit,
    lemma_decimal_digits,
};
use crate::version::{version_text, version_view, Version, VersionView};
use crate::version_type::{lemma_release_char_roundtrip, release_char, release_of_char, VersionType};

verus! {

/// Where the parts of a version were found in a text: the major number spans
/// `start..major_end`, the minor number `major_end + 1..minor_end`, the patch
/// number `minor_end + 1..patch_end`, the release letter sits at `patch_end`
/// and the revision spans `patch_end + 1..revision_end`.
pub struct Captures {
    pub start: int,
    pub major_end: int,
    pub minor_end: int,
    pub patch_end: int,
    pub revision_end: int,
}

/// A number of one to four digits at `lo..hi` that the next character, a
/// non-digit, closes.
pub open spec fn closed_field(s: Seq<char>, lo: int, hi: int) -> bool {
    &&& 0 <= lo < hi <= lo + 4
    &&& hi < s.len()
    &&& all_digits(s, lo, hi)
    &&& !is_digit(s[hi])
}

/// A number of one to four digits at `lo..hi` that takes as many digits as
/// there are, up to four.
pub open spec fn open_field(s: Seq<char>, lo: int, hi: int) -> bool {
    &&& 0 <= lo < hi <= lo + 4
    &&& hi <= s.len()
    &&& all_digits(s, lo, hi)
    &&& hi < lo + 4 ==> hi == s.len() || !is_digit(s[hi])
}

/// The text has the form `D.D.DxD` at the given places, where each `D` is a
/// number of one to four digits and `x` is one of `f`, `p`, `b`, `a`; the
/// revision takes as many digits as follow, up to four.
pub open spec fn pattern_at(s: Seq<char>, c: Captures) -> bool {
    &&& closed_field(s, c.start, c.major_end)
    &&& s[c.major_end] == '.'
    &&& closed_field(s, c.major_end + 1, c.minor_end)
    &&& s[c.minor_end] == '.'
    &&& closed_field(s, c.minor_end + 1, c.patch_end)
    &&& release_of_char(s[c.patch_end]) is Some
    &&& open_field(s, c.patch_end + 1, c.revision_end)
}

/// The version pattern occurs at `c`, and nowhere further to the left.
pub open spec fn leftmost_match(s: Seq<char>, c: Captures) -> bool {
    &&& pattern_at(s, c)
    &&& forall|d: Captures| #[trigger] pattern_at(s, d) ==> c.start <= d.start
}

/// The version pattern occurs somewhere in the text.
pub open spec fn has_version_pattern(s: Seq<char>) -> bool {
    exists|c: Captures| #[trigger] pattern_at(s, c)
}

/// The value of the number at `lo..hi`.
pub open spec fn field_value(s: Seq<char>, lo: int, hi: int) -> nat {
    decimal_value(s.subrange(lo, hi))
}

/// The version that an occurrence of the pattern spells.
pub open spec fn captured_version(s: Seq<char>, c: Captures) -> VersionView {
    version_view(
        field_value(s, c.start, c.major_end) as u64,
        field_value(s, c.major_end + 1, c.minor_end) as u64,
        field_value(s, c.minor_end + 1, c.patch_end) as u64,
        release_of_char(s[c.patch_end])->0,
        field_value(s, c.patch_end + 1, c.revision_end) as u64,
    )
}

/// The places, as plain indices, that the scanner reports.
pub open spec fn captures_of(t: (usize, usize, usize, usize, usize)) -> Captures {
    Captures {
        start: t.0 as int,
        major_end: t.1 as int,
        minor_end: t.2 as int,
        patch_end: t.3 as int,
        revision_end: t.4 as int,
    }
}

/// A closed number ends at the first non-digit.
proof fn lemma_closed_field_unique(s: Seq<char>, lo: int, h1: int, h2: int)
    requires
        closed_field(s, lo, h1),
        closed_field(s, lo, h2),
    ensures
        h1 == h2,
{
    if h1 < h2 {
        assert(is_digit(s[h1]));
    } else if h2 < h1 {
        assert(is_digit(s[h2]));
    }
}

/// An open number takes all the digits there are, up to four.
proof fn lemma_open_field_unique(s: Seq<char>, lo: int, h1: int, h2: int)
    requires
        open_field(s, lo, h1),
        open_field(s, lo, h2),
    ensures
        h1 == h2,
{
    if h1 < h2 {
        assert(is_digit(s[h1]));
    } else if h2 < h1 {
        assert(is_digit(s[h2]));
    }
}

/// The pattern can occur in only one way at a given place.
pub proof fn lemma_pattern_unique_at(s: Seq<char>, c: Captures, d: Captures)
    requires
        pattern_at(s, c),
        pattern_at(s, d),
        c.start == d.start,
    ensures
        c == d,
{
    lemma_closed_field_unique(s, c.start, c.major_end, d.major_end);
    lemma_closed_field_unique(s, c.major_end + 1, c.minor_end, d.minor_end);
    lemma_closed_field_unique(s, c.minor_end + 1, c.patch_end, d.patch_end);
    lemma_open_field_unique(s, c.patch_end + 1, c.revision_end, d.revision_end);
}

/// There is at most one leftmost occurrence of the pattern.
pub proof fn lemma_leftmost_unique(s: Seq<char>, c: Captures, d: Captures)
    requires
        leftmost_match(s, c),
        leftmost_match(s, d),
    ensures
        c == d,
{
    assert(c.start <= d.start);
    assert(d.start <= c.start);
    lemma_pattern_unique_at(s, c, d);
}

/// The end of the run of at most `limit` digits that starts at `lo`.
fn digit_run_end(s: &Vec<char>, lo: usize, limit: usize) -> (hi: usize)
    requires
        lo <= s.len(),
    ensures
        lo <= hi <= lo + limit,
        hi <= s.len(),
        all_digits(s@, lo as int, hi as int),
        hi < lo + limit ==> hi == s.len() || !is_digit(s@[hi as int]),
{
    let mut hi = lo;
    while hi < s.len() && hi - lo < limit && '0' <= s[hi] && s[hi] <= '9'
        invariant
            lo <= hi <= lo + limit,
            hi <= s.len(),
            all_digits(s@, lo as int, hi as int),
        decreases s.len() - hi,
    {
        hi = hi + 1;
    }
    hi
}

/// The closed number that starts at `lo`, if there is one.
fn closed_field_end(s: &Vec<char>, lo: usize) -> (r: Option<usize>)
    requires
        lo <= s.len(),
    ensures
        r matches Some(hi) ==> closed_field(s@, lo as int, hi as int),
        r is None ==> forall|h: int| !closed_field(s@, lo as int, h),
{
    let hi = digit_run_end(s, lo, 5);
    if hi > lo && hi - lo <= 4 && hi < s.len() {
        Some(hi)
    } else {
        proof {
            assert forall|h: int| !closed_field(s@, lo as int, h) by {
                if closed_field(s@, lo as int, h) {
                    if h < hi {
                        assert(is_digit(s@[h]));
                    } else if h > hi {
                        assert(is_digit(s@[hi as int]));
                    }
                }
            }
        }
        None
    }
}

/// The open number that starts at `lo`, if there is one.
fn open_field_end(s: &Vec<char>, lo: usize) -> (r: Option<usize>)
    requires
        lo <= s.len(),
    ensures
        r matches Some(hi) ==> open_field(s@, lo as int, hi as int),
        r is None ==> forall|h: int| !open_field(s@, lo as int, h),
{
    let hi = digit_run_end(s, lo, 4);
    if hi > lo {
        Some(hi)
    } else {
        None
    }
}

/// Whether `c` is one of the release letters `f`, `p`, `b`, `a`.
fn is_release_letter(c: char) -> (b: bool)
    ensures
        b == (release_of_char(c) is Some),
{
    VersionType::from_release_char(c).is_some()
}

/// The occurrence of the pattern that starts at `i`, if there is one.
fn pattern_at_index(s: &Vec<char>, i: usize) -> (r: Option<(usize, usize, usize, usize, usize)>)
    requires
        i <= s.len(),
    ensures
        r matches Some(t) ==> t.0 == i && pattern_at(s@, captures_of(t)),
        r is None ==> forall|c: Captures| c.start == i ==> !#[trigger] pattern_at(s@, c),
{
    let e1 = match closed_field_end(s, i) {
        Some(e) => e,
        None => return None,
    };
    if s[e1] != '.' {
        return None;
    }
    let e2 = match closed_field_end(s, e1 + 1) {
        Some(e) => e,
        None => return None,
    };
    if s[e2] != '.' {
        return None;
    }
    let e3 = match closed_field_end(s, e2 + 1) {
        Some(e) => e,
        None => return None,
    };
    if !is_release_letter(s[e3]) {
        return None;
    }
    let e4 = match open_field_end(s, e3 + 1) {
        Some(e) => e,
        None => return None,
    };
    Some((i, e1, e2, e3, e4))
}

/// The leftmost occurrence of the version pattern in `s`, if there is one.
pub fn find_version_pattern(s: &Vec<char>) -> (r: Option<(usize, usize, usize, usize, usize)>)
    ensures
        r is None <==> !has_version_pattern(s@),
        r matches Some(t) ==> leftmost_match(s@, captures_of(t)),
{
    let mut i: usize = 0;
    while i < s.len()
        invariant
            i <= s.len(),
            forall|c: Captures| #[trigger] pattern_at(s@, c) ==> i <= c.start,
        decreases s.len() - i,
    {
        match pattern_at_index(s, i) {
            Some(t) => {
                proof {
                    assert(pattern_at(s@, captures_of(t)));
                }
                return Some(t);
            },
            None => {},
        }
        i = i + 1;
    }
    proof {
        assert forall|c: Captures| !#[trigger] pattern_at(s@, c) by {
            if pattern_at(s@, c) {
                assert(c.start < s@.len());
            }
        }
    }
    None
}

/// The text `a.b.cxd`.
pub open spec fn assembled_text(a: Seq<char>, b: Seq<char>, c: Seq<char>, x: char, d: Seq<char>) -> Seq<
    char,
> {
    a + seq!['.'] + b + seq!['.'] + c + seq![x] + d
}

/// A number of one to four digits.
pub open spec fn short_number(a: Seq<char>) -> bool {
    1 <= a.len() <= 4 && all_digits(a, 0, a.len() as int)
}

/// A text that is exactly `a.b.cxd`, with numbers of one to four digits and a
/// release letter `x`, is read as the version with those numbers and that
/// release type.
pub proof fn lemma_assembled_text_parses(
    a: Seq<char>,
    b: Seq<char>,
    c: Seq<char>,
    x: char,
    d: Seq<char>,
)
    requires
        short_number(a),
        short_number(b),
        short_number(c),
        short_number(d),
        release_of_char(x) is Some,
    ensures
        has_version_pattern(assembled_text(a, b, c, x, d)),
        forall|m: Captures| #[trigger]
            leftmost_match(assembled_text(a, b, c, x, d), m) ==> captured_version(
                assembled_text(a, b, c, x, d),
                m,
            ) == version_view(
                decimal_value(a) as u64,
                decimal_value(b) as u64,
                decimal_value(c) as u64,
                release_of_char(x)->0,
                decimal_value(d) as u64,
            ),
{
    let t = assembled_text(a, b, c, x, d);
    let e1 = a.len() as int;
    let e2 = e1 + 1 + b.len();
    let e3 = e2 + 1 + c.len();
    let e4 = e3 + 1 + d.len();
    assert(t.len() == e4);
    assert forall|k: int| 0 <= k < e1 implies t[k] == a[k] by {}
    assert(t[e1] == '.');
    assert forall|k: int| e1 < k < e2 implies t[k] == b[k - e1 - 1] by {}
    assert(t[e2] == '.');
    assert forall|k: int| e2 < k < e3 implies t[k] == c[k - e2 - 1] by {}
    assert(t[e3] == x);
    assert forall|k: int| e3 < k < e4 implies t[k] == d[k - e3 - 1] by {}
    assert(all_digits(t, 0, e1)) by {
        assert forall|k: int| 0 <= k < e1 implies #[trigger] is_digit(t[k]) by {
            assert(is_digit(a[k]));
        }
    }
    assert(all_digits(t, e1 + 1, e2)) by {
        assert forall|k: int| e1 + 1 <= k < e2 implies #[trigger] is_digit(t[k]) by {
            assert(is_digit(b[k - e1 - 1]));
        }
    }
    assert(all_digits(t, e2 + 1, e3)) by {
        assert forall|k: int| e2 + 1 <= k < e3 implies #[trigger] is_digit(t[k]) by {
            assert(is_digit(c[k - e2 - 1]));
        }
    }
    assert(all_digits(t, e3 + 1, e4)) by {
        assert forall|k: int| e3 + 1 <= k < e4 implies #[trigger] is_digit(t[k]) by {
            assert(is_digit(d[k - e3 - 1]));
        }
    }
    let m = Captures { start: 0, major_end: e1, minor_end: e2, patch_end: e3, revision_end: e4 };
    assert(pattern_at(t, m));
    assert(leftmost_match(t, m));
    assert(t.subrange(0, e1) =~= a);
    assert(t.subrange(e1 + 1, e2) =~= b);
    assert(t.subrange(e2 + 1, e3) =~= c);
    assert(t.subrange(e3 + 1, e4) =~= d);
    assert forall|n: Captures| #[trigger] leftmost_match(t, n) implies captured_version(t, n)
        == version_view(
        decimal_value(a) as u64,
        decimal_value(b) as u64,
        decimal_value(c) as u64,
        release_of_char(x)->0,
        decimal_value(d) as u64,
    ) by {
        lemma_leftmost_unique(t, m, n);
    }
}

/// Reading the text of a version gives the version back, when each of its
/// numbers has at most four digits.
pub proof fn lemma_text_roundtrip(v: VersionView)
    requires
        v.major < 10000,
        v.minor < 10000,
        v.patch < 10000,
        v.revision < 10000,
    ensures
        has_version_pattern(version_text(v)),
        forall|m: Captures| #[trigger]
            leftmost_match(version_text(v), m) ==> captured_version(version_text(v), m) == v,
{
    lemma_decimal_digits(v.major as nat);
    lemma_decimal_digits(v.minor as nat);
    lemma_decimal_digits(v.patch as nat);
    lemma_decimal_digits(v.revision as nat);
    lemma_release_char_roundtrip(v.release_type);
    lemma_assembled_text_parses(
        decimal_digits(v.major as nat),
        decimal_digits(v.minor as nat),
        decimal_digits(v.patch as nat),
        release_char(v.release_type),
        decimal_digits(v.revision as nat),
    );
    assert(version_text(v) == assembled_text(
        decimal_digits(v.major as nat),
        decimal_digits(v.minor as nat),
        decimal_digits(v.patch as nat),
        release_char(v.release_type),
        decimal_digits(v.revision as nat),
    ));
}

/// The four-digit, zero-padded decimal notation of `n < 10000`.
pub open spec fn padded_digits(n: nat) -> Seq<char> {
    seq![
        digit_char((n / 1000) % 10),
        digit_char((n / 100) % 10),
        digit_char((n / 10) % 10),
        digit_char(n % 10),
    ]
}

proof fn lemma_padded_digits(n: nat)
    requires
        n < 10000,
    ensures
        short_number(padded_digits(n)),
        decimal_value(padded_digits(n)) == n,
{
    let p = padded_digits(n);
    let q0 = (n / 1000) % 10;
    let q1 = (n / 100) % 10;
    let q2 = (n / 10) % 10;
    let q3 = n % 10;
    assert(p.drop_last().drop_last().drop_last().drop_last() =~= Seq::<char>::empty());
    assert(p.drop_last().drop_last().drop_last() =~= seq![digit_char(q0)]);
    assert(p.drop_last().drop_last() =~= seq![digit_char(q0), digit_char(q1)]);
    assert(p.drop_last() =~= seq![digit_char(q0), digit_char(q1), digit_char(q2)]);
    assert(digit_value(digit_char(q0)) == q0);
    assert(digit_value(digit_char(q1)) == q1);
    assert(digit_value(digit_char(q2)) == q2);
    assert(digit_value(digit_char(q3)) == q3);
    assert(decimal_value(Seq::<char>::empty()) == 0);
    assert(decimal_value(p.drop_last().drop_last().drop_last()) == q0);
    assert(decimal_value(p.drop_last().drop_last()) == q0 * 10 + q1);
    assert(decimal_value(p.drop_last()) == (q0 * 10 + q1) * 10 + q2);
    assert(decimal_value(p) == ((q0 * 10 + q1) * 10 + q2) * 10 + q3);
    assert(((q0 * 10 + q1) * 10 + q2) * 10 + q3 == n) by (nonlinear_arith)
        requires
            n < 10000,
            q0 == (n / 1000) % 10,
            q1 == (n / 100) % 10,
            q2 == (n / 10) % 10,
            q3 == n % 10,
    ;
    assert(all_digits(p, 0, 4));
}

/// The zero-padded text `MMMM.mmmm.ppppfrrrr` of four numbers below ten
/// thousand is read as the final release with those numbers.
pub proof fn lemma_padded_text_parses(major: u64, minor: u64, patch: u64, revision: u64)
    requires
        major < 10000,
        minor < 10000,
        patch < 10000,
        revision < 10000,
    ensures
        has_version_pattern(
            assembled_text(
                padded_digits(major as nat),
                padded_digits(minor as nat),
                padded_digits(patch as nat),
                'f',
                padded_digits(revision as nat),
            ),
        ),
        forall|m: Captures| #[trigger]
            leftmost_match(
                assembled_text(
                    padded_digits(major as nat),
                    padded_digits(minor as nat),
                    padded_digits(patch as nat),
                    'f',
                    padded_digits(revision as nat),
                ),
                m,
            ) ==> captured_version(
                assembled_text(
                    padded_digits(major as nat),
                    padded_digits(minor as nat),
                    padded_digits(patch as nat),
                    'f',
                    padded_digits(revision as nat),
                ),
                m,
            ) == version_view(major, minor, patch, VersionType::Final, revision),
{
    lemma_padded_digits(major as nat);
    lemma_padded_digits(minor as nat);
    lemma_padded_digits(patch as nat);
    lemma_padded_digits(revision as nat);
    lemma_assembled_text_parses(
        padded_digits(major as nat),
        padded_digits(minor as nat),
        padded_digits(patch as nat),
        'f',
        padded_digits(revision as nat),
    );
}

/// No character of `p` is a decimal digit.
pub open spec fn digit_free(p: Seq<char>) -> bool {
    forall|k: int| 0 <= k < p.len() ==> !#[trigger] is_digit(p[k])
}

/// `t` is the text `a.b.cxd` of the version `v`: numbers of one to four digits
/// that denote `v`'s major, minor, patch and revision numbers, and `v`'s release
/// letter `x`.
pub open spec fn spells(t: Seq<char>, v: VersionView) -> bool {
    exists|a: Seq<char>, b: Seq<char>, c: Seq<char>, d: Seq<char>|
        #[trigger] assembled_text(a, b, c, release_char(v.release_type), d) == t
            && short_number(a) && short_number(b) && short_number(c) && short_number(d)
            && decimal_value(a) == v.major && decimal_value(b) == v.minor && decimal_value(c)
            == v.patch && decimal_value(d) == v.revision
}

/// The text of `s` at `i..j` spells the version `v`.
pub open spec fn spelled_at(s: Seq<char>, i: int, j: int, v: VersionView) -> bool {
    0 <= i <= j <= s.len() && spells(s.subrange(i, j), v)
}

/// The text of `s` at `i..j` spells `v`, and its revision takes all the digits
/// that follow, up to four.
pub open spec fn read_at(s: Seq<char>, i: int, j: int, v: VersionView) -> bool {
    &&& spelled_at(s, i, j, v)
    &&& j == s.len() || !is_digit(s[j]) || all_digits(s, j - 4, j)
}

/// The text `p`, then the text of `v`, then `q`.
pub open spec fn framed_version_text(p: Seq<char>, v: VersionView, q: Seq<char>) -> Seq<char> {
    p + version_text(v) + q
}

/// A number of at most four digits is below ten thousand.
proof fn lemma_short_value(t: Seq<char>)
    requires
        t.len() <= 4,
        all_digits(t, 0, t.len() as int),
    ensures
        decimal_value(t) < 10000,
        t.len() <= 3 ==> decimal_value(t) < 1000,
        t.len() <= 2 ==> decimal_value(t) < 100,
        t.len() <= 1 ==> decimal_value(t) < 10,
    decreases t.len(),
{
    if t.len() > 0 {
        assert(all_digits(t.drop_last(), 0, t.drop_last().len() as int)) by {
            assert forall|k: int| 0 <= k < t.drop_last().len() implies #[trigger] is_digit(
                t.drop_last()[k],
            ) by {
                assert(is_digit(t[k]));
            }
        }
        lemma_short_value(t.drop_last());
        assert(is_digit(t[t.len() - 1]));
        assert(digit_value(t.last()) <= 9);
    }
}



/// A digit starts an open number: the digits that follow, up to four.
proof fn lemma_open_field_exists(s: Seq<char>, lo: int)
    requires
        0 <= lo < s.len(),
        is_digit(s[lo]),
    ensures
        exists|h: int| #[trigger] open_field(s, lo, h),
{
    if lo + 1 == s.len() || !is_digit(s[lo + 1]) {
        assert(open_field(s, lo, lo + 1));
    } else if lo + 2 == s.len() || !is_digit(s[lo + 2]) {
        assert(open_field(s, lo, lo + 2));
    } else if lo + 3 == s.len() || !is_digit(s[lo + 3]) {
        assert(open_field(s, lo, lo + 3));
    } else {
        assert(open_field(s, lo, lo + 4));
    }
}

/// Wherever the text of a version is spelled, the version pattern occurs.
proof fn lemma_spelled_is_pattern(s: Seq<char>, i: int, j: int, v: VersionView)
    requires
        spelled_at(s, i, j, v),
    ensures
        exists|c: Captures| c.start == i && #[trigger] pattern_at(s, c),
{
    let t = s.subrange(i, j);
    let x = release_char(v.release_type);
    let (a, b, c, d) = choose|a: Seq<char>, b: Seq<char>, c: Seq<char>, d: Seq<char>|
        #[trigger] assembled_text(a, b, c, x, d) == t && short_number(a) && short_number(b)
            && short_number(c) && short_number(d) && decimal_value(a) == v.major
            && decimal_value(b) == v.minor && decimal_value(c) == v.patch && decimal_value(d)
            == v.revision;
    lemma_release_char_roundtrip(v.release_type);
    let e1 = i + a.len();
    let e2 = e1 + 1 + b.len();
    let e3 = e2 + 1 + c.len();
    let e4 = e3 + 1 + d.len();
    assert(t.len() == e4 - i);
    assert forall|k: int| i <= k < e1 implies s[k] == a[k - i] by {
        assert(s[k] == t[k - i]);
    }
    assert(s[e1] == t[e1 - i]);
    assert(s[e1] == '.');
    assert forall|k: int| e1 < k < e2 implies s[k] == b[k - e1 - 1] by {
        assert(s[k] == t[k - i]);
    }
    assert(s[e2] == t[e2 - i]);
    assert(s[e2] == '.');
    assert forall|k: int| e2 < k < e3 implies s[k] == c[k - e2 - 1] by {
        assert(s[k] == t[k - i]);
    }
    assert(s[e3] == t[e3 - i]);
    assert(s[e3] == x);
    assert(s[e3 + 1] == t[e3 + 1 - i]);
    assert(s[e3 + 1] == d[0]);
    assert(is_digit(d[0]));
    assert(all_digits(s, i, e1)) by {
        assert forall|k: int| i <= k < e1 implies #[trigger] is_digit(s[k]) by {
            assert(is_digit(a[k - i]));
        }
    }
    assert(all_digits(s, e1 + 1, e2)) by {
        assert forall|k: int| e1 + 1 <= k < e2 implies #[trigger] is_digit(s[k]) by {
            assert(is_digit(b[k - e1 - 1]));
        }
    }
    assert(all_digits(s, e2 + 1, e3)) by {
        assert forall|k: int| e2 + 1 <= k < e3 implies #[trigger] is_digit(s[k]) by {
            assert(is_digit(c[k - e2 - 1]));
        }
    }
    lemma_open_field_exists(s, e3 + 1);
    let h = choose|h: int| #[trigger] open_field(s, e3 + 1, h);
    let m = Captures { start: i, major_end: e1, minor_end: e2, patch_end: e3, revision_end: h };
    assert(pattern_at(s, m));
}

/// Where the version pattern occurs, the version it spells is read there, with
/// a revision that takes all the digits that follow, up to four.
proof fn lemma_pattern_is_read(s: Seq<char>, m: Captures)
    requires
        pattern_at(s, m),
    ensures
        read_at(s, m.start, m.revision_end, captured_version(s, m)),
{
    let v = captured_version(s, m);
    let a = s.subrange(m.start, m.major_end);
    let b = s.subrange(m.major_end + 1, m.minor_end);
    let c = s.subrange(m.minor_end + 1, m.patch_end);
    let d = s.subrange(m.patch_end + 1, m.revision_end);
    let x = s[m.patch_end];
    assert(all_digits(a, 0, a.len() as int)) by {
        assert forall|k: int| 0 <= k < a.len() implies #[trigger] is_digit(a[k]) by {
            assert(is_digit(s[m.start + k]));
        }
    }
    assert(all_digits(b, 0, b.len() as int)) by {
        assert forall|k: int| 0 <= k < b.len() implies #[trigger] is_digit(b[k]) by {
            assert(is_digit(s[m.major_end + 1 + k]));
        }
    }
    assert(all_digits(c, 0, c.len() as int)) by {
        assert forall|k: int| 0 <= k < c.len() implies #[trigger] is_digit(c[k]) by {
            assert(is_digit(s[m.minor_end + 1 + k]));
        }
    }
    assert(all_digits(d, 0, d.len() as int)) by {
        assert forall|k: int| 0 <= k < d.len() implies #[trigger] is_digit(d[k]) by {
            assert(is_digit(s[m.patch_end + 1 + k]));
        }
    }
    lemma_short_value(a);
    lemma_short_value(b);
    lemma_short_value(c);
    lemma_short_value(d);
    assert(release_char(v.release_type) == x);
    assert(s.subrange(m.start, m.revision_end) =~= assembled_text(a, b, c, x, d));
    assert(assembled_text(a, b, c, release_char(v.release_type), d) == s.subrange(
        m.start,
        m.revision_end,
    ));
    assert(spells(s.subrange(m.start, m.revision_end), v));
    if m.revision_end == m.patch_end + 1 + 4 {
        assert(all_digits(s, m.revision_end - 4, m.revision_end));
    }
}

/// In a text made of a digit-free `p`, then `a.b.cxd`, then a `q` that does not
/// start with a digit, the version pattern occurs first right after `p`, with
/// exactly the numbers `a`, `b`, `c`, `d`.
proof fn lemma_framed_assembled_parses(
    p: Seq<char>,
    a: Seq<char>,
    b: Seq<char>,
    c: Seq<char>,
    x: char,
    d: Seq<char>,
    q: Seq<char>,
) -> (m: Captures)
    requires
        digit_free(p),
        short_number(a),
        short_number(b),
        short_number(c),
        short_number(d),
        release_of_char(x) is Some,
        q.len() == 0 || !is_digit(q[0]),
    ensures
        leftmost_match(p + assembled_text(a, b, c, x, d) + q, m),
        captured_version(p + assembled_text(a, b, c, x, d) + q, m) == version_view(
            decimal_value(a) as u64,
            decimal_value(b) as u64,
            decimal_value(c) as u64,
            release_of_char(x)->0,
            decimal_value(d) as u64,
        ),
{
    let u = assembled_text(a, b, c, x, d);
    let t = p + u + q;
    let o = p.len() as int;
    let e1 = o + a.len();
    let e2 = e1 + 1 + b.len();
    let e3 = e2 + 1 + c.len();
    let e4 = e3 + 1 + d.len();
    assert(u.len() == e4 - o);
    assert forall|k: int| 0 <= k < o implies t[k] == p[k] by {}
    assert forall|k: int| o <= k < e4 implies t[k] == u[k - o] by {}
    assert forall|k: int| e4 <= k < t.len() implies t[k] == q[k - e4] by {}
    assert forall|k: int| o <= k < e1 implies t[k] == a[k - o] by {
        assert(u[k - o] == a[k - o]);
    }
    assert(t[e1] == u[e1 - o]);
    assert(t[e1] == '.');
    assert forall|k: int| e1 < k < e2 implies t[k] == b[k - e1 - 1] by {
        assert(t[k] == u[k - o]);
    }
    assert(t[e2] == u[e2 - o]);
    assert(t[e2] == '.');
    assert forall|k: int| e2 < k < e3 implies t[k] == c[k - e2 - 1] by {
        assert(t[k] == u[k - o]);
    }
    assert(t[e3] == u[e3 - o]);
    assert(t[e3] == x);
    assert forall|k: int| e3 < k < e4 implies t[k] == d[k - e3 - 1] by {
        assert(t[k] == u[k - o]);
    }
    assert(all_digits(t, o, e1)) by {
        assert forall|k: int| o <= k < e1 implies #[trigger] is_digit(t[k]) by {
            assert(is_digit(a[k - o]));
        }
    }
    assert(all_digits(t, e1 + 1, e2)) by {
        assert forall|k: int| e1 + 1 <= k < e2 implies #[trigger] is_digit(t[k]) by {
            assert(is_digit(b[k - e1 - 1]));
        }
    }
    assert(all_digits(t, e2 + 1, e3)) by {
        assert forall|k: int| e2 + 1 <= k < e3 implies #[trigger] is_digit(t[k]) by {
            assert(is_digit(c[k - e2 - 1]));
        }
    }
    assert(all_digits(t, e3 + 1, e4)) by {
        assert forall|k: int| e3 + 1 <= k < e4 implies #[trigger] is_digit(t[k]) by {
            assert(is_digit(d[k - e3 - 1]));
        }
    }
    if e4 < t.len() {
        assert(t[e4] == q[0]);
    }
    let m = Captures { start: o, major_end: e1, minor_end: e2, patch_end: e3, revision_end: e4 };
    assert(pattern_at(t, m));
    assert forall|n: Captures| #[trigger] pattern_at(t, n) implies m.start <= n.start by {
        if n.start < o {
            assert(is_digit(t[n.start]));
            assert(t[n.start] == p[n.start]);
        }
    }
    assert(t.subrange(o, e1) =~= a);
    assert(t.subrange(e1 + 1, e2) =~= b);
    assert(t.subrange(e2 + 1, e3) =~= c);
    assert(t.subrange(e3 + 1, e4) =~= d);
    m
}

/// In a text made of a digit-free `p`, the text of `v`, and a `q` that does
/// not start with a digit, the first occurrence of the version pattern spells
/// `v`, when each of `v`'s numbers has at most four digits.
proof fn lemma_framed_version_text(p: Seq<char>, v: VersionView, q: Seq<char>) -> (m: Captures)
    requires
        digit_free(p),
        v.major < 10000,
        v.minor < 10000,
        v.patch < 10000,
        v.revision < 10000,
        q.len() == 0 || !is_digit(q[0]),
    ensures
        leftmost_match(framed_version_text(p, v, q), m),
        captured_version(framed_version_text(p, v, q), m) == v,
{
    lemma_decimal_digits(v.major as nat);
    lemma_decimal_digits(v.minor as nat);
    lemma_decimal_digits(v.patch as nat);
    lemma_decimal_digits(v.revision as nat);
    lemma_release_char_roundtrip(v.release_type);
    let a = decimal_digits(v.major as nat);
    let b = decimal_digits(v.minor as nat);
    let c = decimal_digits(v.patch as nat);
    let x = release_char(v.release_type);
    let d = decimal_digits(v.revision as nat);
    let m = lemma_framed_assembled_parses(p, a, b, c, x, d, q);
    assert(framed_version_text(p, v, q) == p + assembled_text(a, b, c, x, d) + q);
    m
}

impl Version {
    /// Reads the first version of the form `1.2.3f4` in `s`: the leftmost
    /// place where three numbers of one to four digits, separated by dots, are
    /// followed by a release letter (`f`, `p`, `b` or `a`) and a revision of
    /// one to four digits (as many as follow, up to four). Text around it is
    /// ignored.
    pub fn from_str(s: &str) -> (r: Result<Version, UvmVersionError>)
        ensures
            r is Ok <==> has_version_pattern(s@),
            r matches Ok(v) ==> exists|c: Captures|
                #[trigger] leftmost_match(s@, c) && v@ == captured_version(s@, c),
            r matches Ok(v) ==> forall|c: Captures|
                #[trigger] leftmost_match(s@, c) ==> v@ == captured_version(s@, c),
            r matches Err(e) ==> e is VersionPatternMismatch,
            // The version read is spelled in the text, with a revision that takes
            // all the digits that follow (up to four), and no version is spelled
            // anywhere further to the left.
            r matches Ok(v) ==> exists|i: int, j: int|
                #[trigger] read_at(s@, i, j, v@) && forall|i2: int, j2: int, w: VersionView|
                    i2 < i ==> !#[trigger] spelled_at(s@, i2, j2, w),
            // A text in which no version is spelled holds none.
            r is Err ==> forall|i: int, j: int, w: VersionView| !#[trigger] spelled_at(s@, i, j, w),
            // Text around a version does not change what is read, when the text
            // before it has no digit and the text after it does not start with
            // one.
            forall|p: Seq<char>, w: VersionView, q: Seq<char>|
                #![trigger framed_version_text(p, w, q)]
                s@ == framed_version_text(p, w, q) && digit_free(p) && w.major < 10000 && w.minor
                    < 10000 && w.patch < 10000 && w.revision < 10000 && (q.len() == 0 || !is_digit(
                    q[0],
                )) ==> (r matches Ok(v) && v@ == w),
    {
        let chars = chars_of(s);
        let r = match find_version_pattern(&chars) {
            None => Err(UvmVersionError::VersionPatternMismatch),
            Some(t) => {
                let (start, major_end, minor_end, patch_end, revision_end) = t;
                let major = digits_value(&chars, start, major_end);
                let minor = digits_value(&chars, major_end + 1, minor_end);
                let patch = digits_value(&chars, minor_end + 1, patch_end);
                let release_type = VersionType::from_release_char(chars[patch_end]).unwrap();
                let revision = digits_value(&chars, patch_end + 1, revision_end);
                let v = Version::new(major, minor, patch, release_type, revision);
                proof {
                    let c = captures_of(t);
                    assert(leftmost_match(s@, c));
                    assert forall|d: Captures| #[trigger] leftmost_match(s@, d) implies v@
                        == captured_version(s@, d) by {
                        lemma_leftmost_unique(s@, c, d);
                    }
                    lemma_pattern_is_read(s@, c);
                    assert forall|i2: int, j2: int, w: VersionView|
                        i2 < c.start implies !#[trigger] spelled_at(s@, i2, j2, w) by {
                        if spelled_at(s@, i2, j2, w) {
                            lemma_spelled_is_pattern(s@, i2, j2, w);
                        }
                    }
                    assert(read_at(s@, c.start, c.revision_end, v@));
                }
                Ok(v)
            },
        };
        proof {
            if r is Err {
                assert forall|i: int, j: int, w: VersionView| !#[trigger] spelled_at(s@, i, j, w) by {
                    if spelled_at(s@, i, j, w) {
                        lemma_spelled_is_pattern(s@, i, j, w);
                    }
                }
            }
            assert forall|p: Seq<char>, w: VersionView, q: Seq<char>|
                s@ == #[trigger] framed_version_text(p, w, q) && digit_free(p) && w.major < 10000
                    && w.minor < 10000 && w.patch < 10000 && w.revision < 10000 && (q.len() == 0
                    || !is_digit(q[0])) implies (r matches Ok(v) && v@ == w) by {
                let m = lemma_framed_version_text(p, w, q);
                assert(pattern_at(s@, m));
            }
        }
        r
    }
}

} // verus!
