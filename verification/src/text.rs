use vstd::prelude::*;

verus! {

/// An ASCII decimal digit.
pub open spec fn is_digit(c: char) -> bool {
    '0' <= c && c <= '9'
}

/// The value of a decimal digit character.
pub open spec fn digit_value(c: char) -> nat {
    (c as int - '0' as int) as nat
}

/// The character of a decimal digit `d` in `0..10`.
pub open spec fn digit_char(d: nat) -> char {
    (d + '0' as int) as char
}

/// Whether every character of `s` in `lo..hi` is a decimal digit.
pub open spec fn all_digits(s: Seq<char>, lo: int, hi: int) -> bool {
    forall|k: int| lo <= k < hi ==> #[trigger] is_digit(s[k])
}

/// The number that a sequence of decimal digits denotes, most significant first.
pub open spec fn decimal_value(s: Seq<char>) -> nat
    decreases s.len(),
{
    if s.len() == 0 {
        0
    } else {
        decimal_value(s.drop_last()) * 10 + digit_value(s.last())
    }
}

/// The shortest decimal notation of `n`, most significant digit first.
pub open spec fn decimal_digits(n: nat) -> Seq<char>
    decreases n,
{
    if n < 10 {
        seq![digit_char(n)]
    } else {
        decimal_digits(n / 10).push(digit_char(n % 10))
    }
}

/// The decimal notation of `n` is made of digits and denotes `n`; it has at
/// most four digits when `n < 10000`.
pub proof fn lemma_decimal_digits(n: nat)
    ensures
        decimal_value(decimal_digits(n)) == n,
        all_digits(decimal_digits(n), 0, decimal_digits(n).len() as int),
        1 <= decimal_digits(n).len(),
        n < 10 <==> decimal_digits(n).len() == 1,
        n < 100 ==> decimal_digits(n).len() <= 2,
        n < 1000 ==> decimal_digits(n).len() <= 3,
        n < 10000 ==> decimal_digits(n).len() <= 4,
        n >= 10 ==> decimal_digits(n)[0] != '0',
    decreases n,
{
    if n >= 10 {
        lemma_decimal_digits(n / 10);
        let d = decimal_digits(n);
        assert(d.drop_last() =~= decimal_digits(n / 10));
        assert(d[0] == decimal_digits(n / 10)[0]);
        assert(digit_value(digit_char(n % 10)) == n % 10);
        assert(d.last() == digit_char(n % 10));
        assert((n / 10) * 10 + n % 10 == n);
        assert(decimal_value(d) == decimal_value(decimal_digits(n / 10)) * 10 + n % 10);
    } else {
        assert(digit_value(digit_char(n)) == n);
        let d = decimal_digits(n);
        assert(d.drop_last() =~= Seq::<char>::empty());
        assert(decimal_value(Seq::<char>::empty()) == 0);
        assert(d.last() == digit_char(n));
    }
}

/// Ten to the power `k`.
pub open spec fn pow10(k: nat) -> nat
    decreases k,
{
    if k == 0 {
        1
    } else {
        10 * pow10((k - 1) as nat)
    }
}

/// The characters of `s`, in order.
pub fn chars_of(s: &str) -> (v: Vec<char>)
    ensures
        v@ == s@,
{
    broadcast use vstd::string::group_string_axioms;

    let mut v: Vec<char> = Vec::new();
    for c in it: s.chars()
        invariant
            v@ == it.seq().take(it.index() as int),
    {
        v.push(c);
    }
    v
}

/// The number that the digits of `s` at `lo..hi` denote.
pub fn digits_value(s: &Vec<char>, lo: usize, hi: usize) -> (n: u64)
    requires
        lo <= hi <= s.len(),
        hi <= lo + 4,
        all_digits(s@, lo as int, hi as int),
    ensures
        n == decimal_value(s@.subrange(lo as int, hi as int)),
        n < 10000,
{
    proof {
        reveal_with_fuel(pow10, 5);
    }
    let mut n: u64 = 0;
    let mut k: usize = lo;
    while k < hi
        invariant
            lo <= k <= hi,
            hi <= s.len(),
            hi <= lo + 4,
            all_digits(s@, lo as int, hi as int),
            n == decimal_value(s@.subrange(lo as int, k as int)),
            n < pow10((k - lo) as nat),
            pow10(0) == 1 && pow10(1) == 10 && pow10(2) == 100 && pow10(3) == 1000 && pow10(4)
                == 10000,
        decreases hi - k,
    {
        let c = s[k];
        assert(is_digit(s@[k as int]));
        let d: u64 = (c as u32 - 48u32) as u64;
        assert(s@.subrange(lo as int, k + 1).drop_last() =~= s@.subrange(lo as int, k as int));
        assert(d == digit_value(c));
        n = n * 10 + d;
        k = k + 1;
    }
    n
}

/// Appends `c` to the end of `s` (`String::push`).
#[verifier::external_body]
pub(crate) fn push_char(s: &mut String, c: char)
    ensures
        final(s)@ == old(s)@.push(c),
{
    s.push(c)
}

/// Appends the decimal notation of `n` to `s`.
pub fn push_decimal(s: &mut String, n: u64)
    ensures
        final(s)@ == old(s)@ + decimal_digits(n as nat),
    decreases n,
{
    if n >= 10 {
        push_decimal(s, n / 10);
    }
    let d: u8 = (n % 10) as u8;
    let c: char = (d + 48u8) as char;
    push_char(s, c);
    proof {
        assert(c == digit_char((n % 10) as nat));
    }
}

} // verus!
