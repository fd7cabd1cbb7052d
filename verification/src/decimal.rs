//! Decimal numerals: reading the times written in a source file and
//! writing the numbers that go into the generated SystemVerilog.
use vstd::prelude::*;

verus! {

/// The character of a decimal digit `d < 10`.
pub open spec fn digit_char(d: nat) -> char {
    (d + 48) as char
}

pub open spec fn is_digit(c: char) -> bool {
    '0' <= c && c <= '9'
}

pub open spec fn digit_value(c: char) -> nat {
    (c as int - 48) as nat
}

/// The shortest decimal numeral of `n` (no sign, no leading zeros).
pub open spec fn dec_nat(n: nat) -> Seq<char>
    decreases n,
{
    if n < 10 {
        seq![digit_char(n)]
    } else {
        dec_nat(n / 10) + seq![digit_char(n % 10)]
    }
}

/// The decimal numeral of a signed number: `-` before the numeral of its
/// magnitude when it is negative.
pub open spec fn dec_int(i: int) -> Seq<char> {
    if i < 0 {
        seq!['-'] + dec_nat((-i) as nat)
    } else {
        dec_nat(i as nat)
    }
}

pub open spec fn all_digits(s: Seq<char>) -> bool {
    forall|i: int| 0 <= i < s.len() ==> is_digit(#[trigger] s[i])
}

/// The number that a string of digits denotes.
pub open spec fn digits_value(s: Seq<char>) -> nat
    decreases s.len(),
{
    if s.len() == 0 {
        0
    } else {
        digits_value(s.drop_last()) * 10 + digit_value(s.last())
    }
}

/// The digits of a `u32` numeral: what follows an optional leading `+`.
pub open spec fn unsigned_digits(s: Seq<char>) -> Seq<char> {
    if s.len() > 0 && s[0] == '+' {
        s.drop_first()
    } else {
        s
    }
}

/// What reading `s` as a `u32` gives: an optional `+` followed by at least
/// one ASCII digit, denoting a number that fits in 32 bits.
pub open spec fn spec_parse_u32(s: Seq<char>) -> Option<u32> {
    let d = unsigned_digits(s);
    if d.len() > 0 && all_digits(d) && digits_value(d) <= u32::MAX {
        Some(digits_value(d) as u32)
    } else {
        None
    }
}

fn digit_str(d: u32) -> (s: &'static str)
    requires
        d < 10,
    ensures
        s@ == seq![digit_char(d as nat)],
{
    proof {
        reveal_strlit("0");
        reveal_strlit("1");
        reveal_strlit("2");
        reveal_strlit("3");
        reveal_strlit("4");
        reveal_strlit("5");
        reveal_strlit("6");
        reveal_strlit("7");
        reveal_strlit("8");
        reveal_strlit("9");
    }
    match d {
        0 => "0",
        1 => "1",
        2 => "2",
        3 => "3",
        4 => "4",
        5 => "5",
        6 => "6",
        7 => "7",
        8 => "8",
        _ => "9",
    }
}

/// Appends the decimal numeral of `n` to `out`.
pub fn push_u32(out: &mut String, n: u32)
    ensures
        final(out)@ == old(out)@ + dec_nat(n as nat),
    decreases n,
{
    if n >= 10 {
        push_u32(out, n / 10);
    }
    out.append(digit_str(n % 10));
    proof {
        if n >= 10 {
            assert(old(out)@ + dec_nat(n as nat) =~= old(out)@ + dec_nat((n / 10) as nat) + seq![
                digit_char((n % 10) as nat),
            ]);
        }
    }
}

/// Appends the decimal numeral of `i` to `out`, with a `-` when it is negative.
pub fn push_i32(out: &mut String, i: i32)
    ensures
        final(out)@ == old(out)@ + dec_int(i as int),
{
    if i < 0 {
        proof {
            reveal_strlit("-");
        }
        out.append("-");
        let magnitude: u32 = (0i64 - (i as i64)) as u32;
        push_u32(out, magnitude);
        assert(final(out)@ =~= old(out)@ + dec_int(i as int));
    } else {
        push_u32(out, i as u32);
    }
}

/// A longer string of digits never denotes a smaller number.
proof fn lemma_digits_value_prefix(s: Seq<char>, k: int)
    requires
        0 <= k <= s.len(),
        all_digits(s),
    ensures
        digits_value(s.take(k)) <= digits_value(s),
    decreases s.len() - k,
{
    if k < s.len() {
        lemma_digits_value_prefix(s, k + 1);
        assert(s.take(k + 1).drop_last() =~= s.take(k));
    } else {
        assert(s.take(k) =~= s);
    }
}

/// The value of `d` when it is a non-empty string of digits denoting at
/// most `limit`.
pub open spec fn digits_upto(d: Seq<char>, limit: nat) -> Option<nat> {
    if d.len() > 0 && all_digits(d) && digits_value(d) <= limit {
        Some(digits_value(d))
    } else {
        None
    }
}

/// What reading `s` as an `i32` gives: an optional `+` or `-` followed by at
/// least one ASCII digit, denoting a number that fits in 32 signed bits.
pub open spec fn spec_parse_i32(s: Seq<char>) -> Option<i32> {
    if s.len() > 0 && s[0] == '-' {
        match digits_upto(s.drop_first(), 0x8000_0000) {
            Some(v) => Some((-v) as i32),
            None => None,
        }
    } else {
        match digits_upto(unsigned_digits(s), 0x7fff_ffff) {
            Some(v) => Some(v as i32),
            None => None,
        }
    }
}

/// Reads the digits of `s` from position `start` on, as a number of at
/// most `limit`.
fn parse_digits(s: &str, start: usize, limit: u64) -> (res: Option<u64>)
    requires
        start <= s@.len(),
        limit <= u32::MAX,
    ensures
        res matches Some(v) ==> digits_upto(s@.skip(start as int), limit as nat) == Some(v as nat),
        res is None ==> digits_upto(s@.skip(start as int), limit as nat) is None,
{
    let len = s.unicode_len();
    let ghost d = s@.skip(start as int);
    if start == len {
        return None;
    }
    let mut acc: u64 = 0;
    let mut i: usize = start;
    while i < len
        invariant
            start <= i <= len,
            len == s@.len(),
            d == s@.skip(start as int),
            limit <= u32::MAX,
            all_digits(d.take(i - start)),
            acc == digits_value(d.take(i - start)),
            acc <= limit,
        decreases len - i,
    {
        let c = s.get_char(i);
        if c < '0' || c > '9' {
            assert(!is_digit(d[i - start]));
            assert(!all_digits(d));
            return None;
        }
        let dv: u64 = (c as u64) - 48;
        assert(d.take(i - start + 1).drop_last() =~= d.take(i - start));
        assert(d.take(i - start + 1).last() == c);
        acc = acc * 10 + dv;
        assert(all_digits(d.take(i - start + 1)));
        i = i + 1;
        if acc > limit {
            proof {
                if all_digits(d) {
                    lemma_digits_value_prefix(d, i - start);
                }
            }
            return None;
        }
    }
    assert(d.take(i - start) =~= d);
    Some(acc)
}

/// Reads `s` as a `u32` numeral: an optional `+` and then decimal digits.
pub fn parse_u32(s: &str) -> (res: Option<u32>)
    ensures
        res == spec_parse_u32(s@),
{
    let len = s.unicode_len();
    let mut start: usize = 0;
    if len > 0 && s.get_char(0) == '+' {
        start = 1;
    }
    assert(unsigned_digits(s@) =~= s@.skip(start as int));
    match parse_digits(s, start, 0xffff_ffff) {
        Some(v) => Some(v as u32),
        None => None,
    }
}

/// Reads `s` as an `i32` numeral: an optional sign and then decimal digits.
pub fn parse_i32(s: &str) -> (res: Option<i32>)
    ensures
        res == spec_parse_i32(s@),
{
    let len = s.unicode_len();
    if len > 0 && s.get_char(0) == '-' {
        assert(s@.drop_first() =~= s@.skip(1));
        match parse_digits(s, 1, 0x8000_0000) {
            Some(v) => {
                let r: i64 = 0i64 - (v as i64);
                Some(r as i32)
            },
            None => None,
        }
    } else {
        let mut start: usize = 0;
        if len > 0 && s.get_char(0) == '+' {
            start = 1;
        }
        assert(unsigned_digits(s@) =~= s@.skip(start as int));
        match parse_digits(s, start, 0x7fff_ffff) {
            Some(v) => Some(v as i32),
            None => None,
        }
    }
}

proof fn lemma_dec_nat_is_numeral(n: nat)
    ensures
        dec_nat(n).len() > 0,
        all_digits(dec_nat(n)),
        dec_nat(n)[0] != '+',
        digits_value(dec_nat(n)) == n,
    decreases n,
{
    if n < 10 {
        assert(dec_nat(n).drop_last() =~= Seq::<char>::empty());
        assert(digits_value(Seq::<char>::empty()) == 0);
        assert(digit_value(digit_char(n)) == n);
    } else {
        lemma_dec_nat_is_numeral(n / 10);
        let s = dec_nat(n);
        assert(s.drop_last() =~= dec_nat(n / 10));
        assert(s[0] == dec_nat(n / 10)[0]);
        assert(s.last() == digit_char(n % 10));
        assert(digit_value(digit_char(n % 10)) == n % 10);
        assert((n / 10) * 10 + n % 10 == n);
    }
}

/// Reading back the numeral that `push_u32` writes gives the number that
/// was written: the times of a source file survive the trip through text.
pub proof fn lemma_parse_u32_of_numeral(n: u32)
    ensures
        spec_parse_u32(dec_nat(n as nat)) == Some(n),
{
    lemma_dec_nat_is_numeral(n as nat);
}

} // verus!
