use vstd::prelude::*;
use crate::text::chars_to_string;

verus! {

/// The character for one decimal digit.
pub open spec fn spec_digit(d: nat) -> char {
    ((48 + d) as u8) as char
}

/// The decimal rendering of a natural number, without leading zeros
/// (`0` renders as the single character `'0'`).
pub open spec fn spec_dec(n: nat) -> Seq<char>
    decreases n,
{
    if n < 10 {
        seq![spec_digit(n)]
    } else {
        spec_dec(n / 10).push(spec_digit(n % 10))
    }
}

pub proof fn lemma_spec_dec_len(n: nat)
    ensures
        spec_dec(n).len() >= 1,
    decreases n,
{
    if n >= 10 {
        lemma_spec_dec_len(n / 10);
    }
}

/// Every character of a decimal rendering is a digit.
pub open spec fn is_digit(c: char) -> bool {
    '0' <= c && c <= '9'
}

pub proof fn lemma_spec_dec_digits(n: nat)
    ensures
        forall|i: int| 0 <= i < spec_dec(n).len() ==> is_digit(#[trigger] spec_dec(n)[i]),
    decreases n,
{
    if n < 10 {
        assert(is_digit(spec_digit(n)));
    } else {
        lemma_spec_dec_digits(n / 10);
        let s = spec_dec(n / 10);
        assert forall|i: int| 0 <= i < spec_dec(n).len() implies is_digit(
            #[trigger] spec_dec(n)[i],
        ) by {
            if i < s.len() {
                assert(spec_dec(n)[i] == s[i]);
            } else {
                assert(spec_dec(n)[i] == spec_digit(n % 10));
                assert(is_digit(spec_digit(n % 10)));
            }
        }
    }
}

fn digit_char(d: u8) -> (c: char)
    requires
        d < 10,
    ensures
        c == spec_digit(d as nat),
{
    (48 + d) as char
}

/// Appends the decimal rendering of `n` to `v`.
pub fn push_dec(n: u64, v: &mut Vec<char>)
    ensures
        final(v)@ == old(v)@ + spec_dec(n as nat),
    decreases n,
{
    if n < 10 {
        v.push(digit_char(n as u8));
        assert(final(v)@ =~= old(v)@ + spec_dec(n as nat));
    } else {
        push_dec(n / 10, v);
        v.push(digit_char((n % 10) as u8));
        assert(final(v)@ =~= old(v)@ + spec_dec(n as nat));
    }
}

/// The decimal rendering of `n`, as a string.
pub fn u64_to_string(n: u64) -> (s: String)
    ensures
        s@ == spec_dec(n as nat),
{
    let mut v: Vec<char> = Vec::new();
    push_dec(n, &mut v);
    assert(v@ =~= spec_dec(n as nat));
    chars_to_string(&v)
}

/// The numeric value of one digit character.
pub open spec fn spec_digit_val(c: char) -> nat {
    (c as u32 - 48) as nat
}

pub open spec fn spec_all_digits(s: Seq<char>) -> bool {
    forall|i: int| 0 <= i < s.len() ==> is_digit(#[trigger] s[i])
}

/// The value of a digit string, most significant digit first.
pub open spec fn spec_digits_val(s: Seq<char>) -> nat
    decreases s.len(),
{
    if s.len() == 0 {
        0
    } else {
        spec_digits_val(s.drop_last()) * 10 + spec_digit_val(s.last())
    }
}

/// Printing then reading a digit gives the digit back.
pub proof fn lemma_digit_roundtrip(d: nat)
    requires
        d < 10,
    ensures
        spec_digit_val(spec_digit(d)) == d,
        is_digit(spec_digit(d)),
{
}

/// Reading the decimal rendering of `n` gives `n` back.
pub proof fn lemma_dec_val(n: nat)
    ensures
        spec_digits_val(spec_dec(n)) == n,
    decreases n,
{
    if n < 10 {
        lemma_digit_roundtrip(n);
        assert(spec_dec(n) == seq![spec_digit(n)]);
        assert(spec_dec(n).drop_last() =~= Seq::<char>::empty());
        assert(spec_dec(n).last() == spec_digit(n));
        assert(spec_digits_val(Seq::<char>::empty()) == 0);
        assert(spec_digits_val(spec_dec(n)) == spec_digits_val(spec_dec(n).drop_last()) * 10
            + spec_digit_val(spec_dec(n).last()));
    } else {
        lemma_dec_val(n / 10);
        lemma_digit_roundtrip(n % 10);
        assert(spec_dec(n) == spec_dec(n / 10).push(spec_digit(n % 10)));
        assert(spec_dec(n).len() >= 1) by {
            lemma_spec_dec_len(n);
        }
        assert(spec_dec(n).drop_last() =~= spec_dec(n / 10));
        assert(spec_dec(n).last() == spec_digit(n % 10));
        assert(spec_digits_val(spec_dec(n)) == spec_digits_val(spec_dec(n).drop_last()) * 10
            + spec_digit_val(spec_dec(n).last()));
        assert(spec_digits_val(spec_dec(n)) == (n / 10) * 10 + (n % 10));
    }
}

/// A digit string's value only grows as digits are appended.
pub proof fn lemma_digits_val_prefix(s: Seq<char>, i: int)
    requires
        0 <= i <= s.len(),
    ensures
        spec_digits_val(s.take(i)) <= spec_digits_val(s),
    decreases s.len() - i,
{
    if i < s.len() {
        assert(s.take(i + 1).drop_last() =~= s.take(i));
        assert(s.take(i + 1).last() == s[i]);
        assert(spec_digits_val(s.take(i)) <= spec_digits_val(s.take(i + 1)));
        lemma_digits_val_prefix(s, i + 1);
    } else {
        assert(s.take(i) =~= s);
    }
}

/// Reads the value of `v[from..to]`, all digits, as a `u64`;
/// `None` when the value does not fit.
pub fn read_digits_u64(v: &Vec<char>, from: usize, to: usize) -> (r: Option<u64>)
    requires
        from <= to <= v@.len(),
        spec_all_digits(v@.subrange(from as int, to as int)),
    ensures
        match r {
            Some(n) => n == spec_digits_val(v@.subrange(from as int, to as int)),
            None => spec_digits_val(v@.subrange(from as int, to as int)) > u64::MAX,
        },
{
    let ghost s = v@.subrange(from as int, to as int);
    let mut acc: u64 = 0;
    let mut i: usize = from;
    while i < to
        invariant
            from <= i <= to <= v@.len(),
            s == v@.subrange(from as int, to as int),
            spec_all_digits(s),
            acc == spec_digits_val(s.take(i - from)),
        decreases to - i,
    {
        let c = v[i];
        assert(c == s[i - from]);
        assert(is_digit(c));
        let d: u64 = (c as u32 - 48) as u64;
        assert(d == spec_digit_val(c));
        assert(d < 10);
        if acc > 0x1999_9999_9999_9999u64 || (acc == 0x1999_9999_9999_9999u64 && d > 5) {
            proof {
                assert(s.take(i + 1 - from).drop_last() =~= s.take(i - from));
                assert(s.take(i + 1 - from).last() == s[i - from]);
                assert(spec_digits_val(s.take(i + 1 - from)) > u64::MAX);
                lemma_digits_val_prefix(s, i + 1 - from);
            }
            return None;
        }
        let acc2: u64 = acc * 10 + d;
        proof {
            assert(s.take(i + 1 - from).drop_last() =~= s.take(i - from));
            assert(s.take(i + 1 - from).last() == s[i - from]);
        }
        acc = acc2;
        i = i + 1;
    }
    assert(s.take(to - from) =~= s);
    Some(acc)
}

} // verus!
