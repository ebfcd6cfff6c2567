//! Numbers as text, and text as numbers.

use vstd::prelude::*;

verus! {

/// The character of one digit, in bases up to sixteen.
pub open spec fn digit(d: nat) -> char {
    "0123456789abcdef"@[d as int]
}

/// `n` in decimal, without leading zeros.
pub open spec fn decimal(n: nat) -> Seq<char>
    decreases n,
{
    if n < 10 {
        seq![digit(n)]
    } else {
        decimal(n / 10).push(digit(n % 10))
    }
}

/// `n` in decimal, with a sign when it is negative.
pub open spec fn signed_decimal(n: int) -> Seq<char> {
    if n < 0 {
        "-"@ + decimal((-n) as nat)
    } else {
        decimal(n as nat)
    }
}

/// The last `width` hexadecimal digits of `n`, padded with zeros.
pub open spec fn hex_digits(n: nat, width: nat) -> Seq<char>
    decreases width,
{
    if width == 0 {
        Seq::empty()
    } else {
        hex_digits(n / 16, (width - 1) as nat).push(digit(n % 16))
    }
}

/// The number that a run of decimal digits denotes.
pub open spec fn digits_value(s: Seq<char>) -> nat
    decreases s.len(),
{
    if s.len() == 0 {
        0
    } else {
        digits_value(s.drop_last()) * 10 + (s.last() as nat - '0' as nat) as nat
    }
}

/// Whether every character is one of `0` to `9`.
pub open spec fn all_digits(s: Seq<char>) -> bool {
    forall|i: int| 0 <= i < s.len() ==> '0' <= #[trigger] s[i] <= '9'
}

/// The text without a leading plus sign.
pub open spec fn without_plus(s: Seq<char>) -> Seq<char> {
    if s.len() > 0 && s[0] == '+' {
        s.skip(1)
    } else {
        s
    }
}

/// The unsigned number that `s` spells, if it spells one of at most `max`: an
/// optional plus sign, then at least one digit and nothing else.
pub open spec fn parsed(s: Seq<char>, max: nat) -> Option<nat> {
    let body = without_plus(s);
    if body.len() > 0 && all_digits(body) && digits_value(body) <= max {
        Some(digits_value(body))
    } else {
        None
    }
}

/// The characters of `s`, one by one.
pub fn chars_of(s: &str) -> (chars: Vec<char>)
    ensures
        chars@ == s@,
{
    let mut chars: Vec<char> = Vec::new();
    for c in it: s.chars()
        invariant
            chars@ == it.seq().take(it.index() as int),
            it.seq() == s@,
    {
        chars.push(c);
        assert(chars@ =~= it.seq().take(it.index() + 1));
    }
    assert(chars@ =~= s@);
    chars
}

fn push_digit(out: &mut String, d: u64)
    requires
        d < 16,
    ensures
        final(out)@ == old(out)@.push(digit(d as nat)),
{
    let table = "0123456789abcdef";
    proof {
        reveal_strlit("0123456789abcdef");
    }
    let i: usize = d as usize;
    let one = table.substring_char(i, i + 1);
    out.append(one);
    assert(out@ =~= old(out)@.push(digit(d as nat)));
}

/// Appends `n` in decimal.
pub fn push_decimal(out: &mut String, n: u64)
    ensures
        final(out)@ == old(out)@ + decimal(n as nat),
    decreases n,
{
    if n >= 10 {
        push_decimal(out, n / 10);
    }
    push_digit(out, n % 10);
    assert(out@ =~= old(out)@ + decimal(n as nat));
}

/// Appends `n` in decimal, with a sign when it is negative.
pub fn push_signed(out: &mut String, n: i64)
    ensures
        final(out)@ == old(out)@ + signed_decimal(n as int),
{
    if n < 0 {
        out.append("-");
        let magnitude: u64 = (-(n as i128)) as u64;
        push_decimal(out, magnitude);
        assert(out@ =~= old(out)@ + signed_decimal(n as int));
    } else {
        push_decimal(out, n as u64);
    }
}

fn push_hex_digits(out: &mut String, n: u64, width: u32)
    ensures
        final(out)@ == old(out)@ + hex_digits(n as nat, width as nat),
    decreases width,
{
    if width > 0 {
        push_hex_digits(out, n / 16, width - 1);
        push_digit(out, n % 16);
    }
    assert(out@ =~= old(out)@ + hex_digits(n as nat, width as nat));
}

/// Appends `n` as sixteen hexadecimal digits.
pub fn push_hex16(out: &mut String, n: u64)
    ensures
        final(out)@ == old(out)@ + hex_digits(n as nat, 16),
{
    push_hex_digits(out, n, 16);
}

proof fn digit_is_injective(a: nat, b: nat)
    requires
        a < 16,
        b < 16,
        digit(a) == digit(b),
    ensures
        a == b,
{
    reveal_strlit("0123456789abcdef");
}

proof fn hex_digits_is_injective(a: nat, b: nat, width: nat, bound: nat)
    requires
        a < bound,
        b < bound,
        bound == vstd::arithmetic::power::pow(16, width),
        hex_digits(a, width) == hex_digits(b, width),
    ensures
        a == b,
    decreases width,
{
    reveal(vstd::arithmetic::power::pow);
    if width > 0 {
        let rest = vstd::arithmetic::power::pow(16, (width - 1) as nat);
        assert(bound == 16 * rest);
        vstd::arithmetic::power::lemma_pow_positive(16, (width - 1) as nat);
        let ha = hex_digits(a / 16, (width - 1) as nat);
        let hb = hex_digits(b / 16, (width - 1) as nat);
        assert(hex_digits(a, width).last() == digit(a % 16));
        assert(hex_digits(b, width).last() == digit(b % 16));
        assert(hex_digits(a, width).drop_last() =~= ha);
        assert(hex_digits(b, width).drop_last() =~= hb);
        digit_is_injective(a % 16, b % 16);
        hex_digits_is_injective(a / 16, b / 16, (width - 1) as nat, rest as nat);
    }
}

/// Two numbers with the same sixteen hexadecimal digits are the same number.
pub proof fn hex16_is_injective(a: u64, b: u64)
    ensures
        hex_digits(a as nat, 16) == hex_digits(b as nat, 16) <==> a == b,
{
    if hex_digits(a as nat, 16) == hex_digits(b as nat, 16) {
        reveal_with_fuel(vstd::arithmetic::power::pow, 17);
        assert(vstd::arithmetic::power::pow(16, 16) == 0x1_0000_0000_0000_0000);
        hex_digits_is_injective(a as nat, b as nat, 16, 0x1_0000_0000_0000_0000);
    }
}

proof fn digits_value_grows(s: Seq<char>, n: int)
    requires
        0 <= n <= s.len(),
        all_digits(s),
    ensures
        digits_value(s.take(n)) <= digits_value(s),
    decreases s.len() - n,
{
    if n < s.len() {
        digits_value_grows(s, n + 1);
        assert(s.take(n + 1).drop_last() =~= s.take(n));
    } else {
        assert(s.take(n) =~= s);
    }
}

/// The unsigned number of at most `max` that `s` spells.
pub fn parse_unsigned(s: &str, max: u64) -> (value: Option<u64>)
    ensures
        parsed(s@, max as nat) == (match value {
            Some(v) => Some(v as nat),
            None => None,
        }),
{
    let chars = chars_of(s);
    let mut start: usize = 0;
    if chars.len() > 0 && chars[0] == '+' {
        start = 1;
    }
    let ghost body = without_plus(s@);
    assert(body =~= s@.skip(start as int));
    if start == chars.len() {
        return None;
    }
    let mut value: u64 = 0;
    let mut i: usize = start;
    while i < chars.len()
        invariant
            start <= i <= chars@.len(),
            start <= 1,
            chars@ == s@,
            body == s@.skip(start as int),
            body == without_plus(s@),
            all_digits(body.take(i - start)),
            value == digits_value(body.take(i - start)),
            value <= max,
        decreases chars@.len() - i,
    {
        let c = chars[i];
        let ghost n = i - start;
        proof {
            assert(body[n] == c);
            assert(body.take(n + 1).drop_last() =~= body.take(n));
            assert(body.take(n + 1).last() == c);
        }
        if c < '0' || '9' < c {
            return None;
        }
        let d: u64 = (c as u32 - '0' as u32) as u64;
        if value > (u64::MAX - d) / 10 || value * 10 + d > max {
            proof {
                assert(digits_value(body.take(n + 1)) > max);
                if all_digits(body) {
                    digits_value_grows(body, n + 1);
                }
            }
            return None;
        }
        value = value * 10 + d;
        proof {
            assert forall|k: int| 0 <= k < n + 1 implies '0' <= #[trigger] body.take(n + 1)[k]
                <= '9' by {
                if k < n {
                    assert(body.take(n)[k] == body.take(n + 1)[k]);
                }
            }
        }
        i += 1;
    }
    assert(body.take(i - start) =~= body);
    Some(value)
}

proof fn a_digit_reads_back(d: nat)
    requires
        d < 10,
    ensures
        '0' <= digit(d) <= '9',
        digit(d) as nat == '0' as nat + d,
{
    reveal_strlit("0123456789abcdef");
}

proof fn decimal_digits_read_back(n: nat)
    ensures
        all_digits(decimal(n)),
        decimal(n).len() > 0,
        digits_value(decimal(n)) == n,
        n > 0 ==> decimal(n)[0] != '0',
    decreases n,
{
    if n < 10 {
        a_digit_reads_back(n);
        assert(decimal(n).drop_last().len() == 0);
        assert(digits_value(decimal(n).drop_last()) == 0);
    } else {
        decimal_digits_read_back(n / 10);
        a_digit_reads_back(n % 10);
        assert(decimal(n).drop_last() =~= decimal(n / 10));
    }
}

/// A number reads back from its decimal form, with or without a plus sign, wherever it
/// is within the bound, and nowhere else. The form has no leading zero.
pub proof fn a_decimal_reads_back(n: nat, max: nat)
    ensures
        n <= max ==> parsed(decimal(n), max) == Some(n),
        n <= max ==> parsed(seq!['+'] + decimal(n), max) == Some(n),
        n > max ==> parsed(decimal(n), max) is None,
        decimal(n).len() > 0,
        n > 0 ==> decimal(n)[0] != '0',
{
    decimal_digits_read_back(n);
    assert(decimal(n)[0] != '+');
    assert((seq!['+'] + decimal(n)).skip(1) =~= decimal(n));
}

/// One more digit is worth ten times what stood before it and its own value; any other
/// character, and an empty text, spell no number.
pub proof fn a_digit_more_counts_tenfold(s: Seq<char>, c: char, max: nat)
    requires
        parsed(s, max) is Some,
    ensures
        '0' <= c <= '9' ==> parsed(s.push(c), max) == ({
            let value = 10 * parsed(s, max)->0 + (c as nat - '0' as nat) as nat;
            if value <= max {
                Some(value)
            } else {
                None
            }
        }),
        !('0' <= c <= '9') ==> parsed(s.push(c), max) is None,
        parsed(Seq::empty(), max) is None,
{
    let body = without_plus(s);
    let longer = without_plus(s.push(c));
    assert(longer =~= body.push(c));
    assert(longer.drop_last() =~= body);
    assert(longer.last() == c);
    if '0' <= c <= '9' {
        assert forall|i: int| 0 <= i < longer.len() implies '0' <= #[trigger] longer[i] <= '9' by {
            if i < body.len() {
                assert(longer[i] == body[i]);
            }
        }
    } else {
        assert(longer[longer.len() - 1] == c);
        assert(!all_digits(longer));
    }
}

/// A text with a character that is no digit, but for a plus sign at its start, spells no
/// number.
pub proof fn only_digits_spell_a_number(s: Seq<char>, i: int, max: nat)
    requires
        0 <= i < s.len(),
        !('0' <= s[i] <= '9'),
        i == 0 ==> s[0] != '+',
    ensures
        parsed(s, max) is None,
{
    let body = without_plus(s);
    if s[0] == '+' {
        assert(body[i - 1] == s[i]);
    } else {
        assert(body[i] == s[i]);
    }
}

/// The digits of a number in base sixteen are those of its quotient by sixteen, and then
/// one of `0` to `9` and `a` to `f` for the remainder.
pub proof fn hexadecimal_digits_stand_for_their_values(n: nat, width: nat)
    requires
        width > 0,
    ensures
        hex_digits(n, width).len() == hex_digits(n / 16, (width - 1) as nat).len() + 1,
        hex_digits(n, width).last() as nat == (if n % 16 < 10 {
            '0' as nat + n % 16
        } else {
            'a' as nat + (n % 16 - 10) as nat
        }),
        hex_digits(n, 0).len() == 0,
{
    reveal_strlit("0123456789abcdef");
}

/// A negative number is written as its sign and its size, and any other as its size.
pub proof fn a_sign_stands_before_the_size(n: nat)
    ensures
        signed_decimal(n as int) == decimal(n),
        n > 0 ==> signed_decimal(-(n as int)) == "-"@ + decimal(n),
{
}

} // verus!
