use vstd::prelude::*;

verus! {

/// The character of a decimal digit `d` (`d < 10`).
pub open spec fn spec_digit(d: nat) -> char {
    (d + 48) as char
}

/// The decimal notation of `n`, without sign or leading zeros.
pub open spec fn spec_decimal(n: nat) -> Seq<char>
    decreases n,
{
    if n < 10 {
        seq![spec_digit(n)]
    } else {
        spec_decimal(n / 10).push(spec_digit(n % 10))
    }
}

/// Appends one character to a string.
#[verifier::external_body]
pub(crate) fn push_char(s: &mut String, c: char)
    ensures
        final(s)@ == old(s)@.push(c),
{
    s.push(c);
}

/// The decimal notation of `n`.
pub fn decimal_string(n: u64) -> (res: String)
    ensures
        res@ == spec_decimal(n as nat),
    decreases n,
{
    let d: u64 = n % 10;
    let c: char = ((d as u8) + 48u8) as char;
    assert(c == spec_digit(d as nat));
    if n < 10 {
        let mut s = String::new();
        push_char(&mut s, c);
        s
    } else {
        let mut s = decimal_string(n / 10);
        push_char(&mut s, c);
        s
    }
}

/// A decimal notation is never empty, and it has a single digit exactly for numbers below ten.
pub proof fn lemma_decimal_len(n: nat)
    ensures
        spec_decimal(n).len() >= 1,
        (spec_decimal(n).len() == 1) == (n < 10),
    decreases n,
{
    if n >= 10 {
        lemma_decimal_len(n / 10);
    }
}

/// Distinct numbers have distinct decimal notations.
pub proof fn lemma_decimal_injective(a: nat, b: nat)
    ensures
        spec_decimal(a) == spec_decimal(b) ==> a == b,
    decreases a,
{
    if spec_decimal(a) == spec_decimal(b) {
        lemma_decimal_len(a);
        lemma_decimal_len(b);
        if a >= 10 {
            let da = spec_decimal(a);
            assert(da.drop_last() =~= spec_decimal(a / 10));
            assert(spec_decimal(b).drop_last() =~= spec_decimal(b / 10));
            assert(da.last() == spec_digit(a % 10));
            assert(spec_decimal(b).last() == spec_digit(b % 10));
            lemma_decimal_injective(a / 10, b / 10);
        } else {
            assert(spec_decimal(a)[0] == spec_digit(a));
            assert(spec_decimal(b)[0] == spec_digit(b));
        }
    }
}

/// The number that a text of decimal digits denotes, read from the left; a character that is
/// not a digit makes it -1.
pub open spec fn spec_digits_value(s: Seq<char>) -> int
    decreases s.len(),
{
    if s.len() == 0 {
        0
    } else {
        let last = s.last() as int;
        let rest = spec_digits_value(s.drop_last());
        if 48 <= last <= 57 && rest >= 0 {
            rest * 10 + (last - 48)
        } else {
            -1
        }
    }
}

/// The decimal notation of `n` is a non-empty text of digits that reads back as `n`, with no
/// leading zero unless it is `"0"` itself.
pub proof fn lemma_decimal_value(n: nat)
    ensures
        spec_digits_value(spec_decimal(n)) == n,
        spec_decimal(n).len() >= 1,
        forall|k: int| 0 <= k < spec_decimal(n).len() ==> '0' <= #[trigger] spec_decimal(n)[k] <= '9',
        spec_decimal(n).len() > 1 ==> spec_decimal(n)[0] != '0',
    decreases n,
{
    lemma_decimal_len(n);
    let d = spec_decimal(n);
    assert(spec_digit(n % 10) as int == n % 10 + 48);
    if n < 10 {
        assert(d.drop_last() =~= Seq::<char>::empty());
        assert(d.last() == spec_digit(n));
        assert(spec_digit(n) as int == n + 48);
        assert(spec_digits_value(d.drop_last()) == 0);
        assert(spec_digits_value(d) == 0 * 10 + (n + 48 - 48));
    } else {
        lemma_decimal_value(n / 10);
        assert(d.drop_last() =~= spec_decimal(n / 10));
        assert(d.last() == spec_digit(n % 10));
        assert(n == (n / 10) * 10 + n % 10);
        assert(spec_digits_value(d.drop_last()) == n / 10);
        assert(spec_digits_value(d) == (n / 10) * 10 + (n % 10 + 48 - 48));
        assert forall|k: int| 0 <= k < d.len() implies '0' <= #[trigger] d[k] <= '9' by {
            if k < d.len() - 1 {
                assert(d[k] == spec_decimal(n / 10)[k]);
            }
        }
        lemma_decimal_len(n / 10);
        assert(d[0] == spec_decimal(n / 10)[0]);
        if n / 10 < 10 {
            assert(spec_decimal(n / 10)[0] == spec_digit(n / 10));
        }
    }
}

} // verus!
