//! Verified text helpers: string comparison, prefix tests, and decimal
//! reading and printing, each proved against a direct specification.
use vstd::prelude::*;

verus! {

/// String equality by contents.
pub fn str_eq(a: &str, b: &str) -> (r: bool)
    ensures
        r == (a@ == b@),
{
    let x: String = a.to_owned();
    let y: String = b.to_owned();
    x == y
}

/// Holds when `p` is a prefix of `s`.
pub open spec fn is_prefix_of(p: Seq<char>, s: Seq<char>) -> bool {
    p.len() <= s.len() && s.subrange(0, p.len() as int) == p
}

/// Prefix test on strings.
pub fn starts_with(s: &str, p: &str) -> (r: bool)
    ensures
        r == is_prefix_of(p@, s@),
{
    let slen = s.unicode_len();
    let plen = p.unicode_len();
    if plen > slen {
        assert(!is_prefix_of(p@, s@));
        false
    } else {
        let head = s.substring_char(0, plen);
        let r = str_eq(head, p);
        proof {
            if r {
                assert(is_prefix_of(p@, s@));
            } else {
                assert(s@.subrange(0, p@.len() as int) != p@);
            }
        }
        r
    }
}

/// The characters of `s` from position `from` to its end.
pub fn suffix_from(s: &str, from: usize) -> (r: String)
    requires
        from <= s@.len(),
    ensures
        r@ == s@.skip(from as int),
{
    let slen = s.unicode_len();
    let tail = s.substring_char(from, slen);
    tail.to_owned()
}

/// Holds when `c` is a decimal digit.
pub open spec fn is_digit(c: char) -> bool {
    '0' <= c && c <= '9'
}

/// The numeric value of a digit character.
pub open spec fn digit_val(c: char) -> int {
    c as int - '0' as int
}

/// Holds when `s` consists of decimal digits only.
pub open spec fn is_digits(s: Seq<char>) -> bool {
    forall|i: int| 0 <= i < s.len() ==> is_digit(#[trigger] s[i])
}

/// The number a sequence of decimal digits denotes.
pub open spec fn dec_val(s: Seq<char>) -> int
    decreases s.len(),
{
    if s.len() == 0 {
        0
    } else {
        dec_val(s.drop_last()) * 10 + digit_val(s.last())
    }
}

/// A digit appended on the right never lowers the denoted value.
proof fn lemma_dec_val_take_monotone(s: Seq<char>, i: int)
    requires
        is_digits(s),
        0 <= i <= s.len(),
    ensures
        dec_val(s) >= dec_val(s.take(i)),
        dec_val(s) >= 0,
    decreases s.len() - i,
{
    if i == s.len() {
        assert(s.take(i) == s);
        lemma_dec_val_nonneg(s);
    } else {
        lemma_dec_val_take_monotone(s, i + 1);
        let t = s.take(i + 1);
        assert(t.drop_last() == s.take(i));
        assert(t.last() == s[i]);
        assert(dec_val(t) == dec_val(s.take(i)) * 10 + digit_val(s[i]));
        assert(is_digit(s[i]));
        lemma_dec_val_nonneg(s.take(i));
        assert(dec_val(t) >= dec_val(s.take(i)));
    }
}

/// The value of a digit string is never negative.
proof fn lemma_dec_val_nonneg(s: Seq<char>)
    requires
        is_digits(s),
    ensures
        dec_val(s) >= 0,
    decreases s.len(),
{
    if s.len() > 0 {
        assert(is_digits(s.drop_last()));
        lemma_dec_val_nonneg(s.drop_last());
    }
}

/// Reads an unsigned decimal number. Returns the value when `s` is one or
/// more digits denoting a number that fits in a `u64`, and nothing otherwise.
pub fn parse_u64(s: &str) -> (r: Option<u64>)
    ensures
        match r {
            Some(n) => s@.len() > 0 && is_digits(s@) && n as int == dec_val(s@),
            None => s@.len() == 0 || !is_digits(s@) || dec_val(s@) > u64::MAX as int,
        },
{
    let len = s.unicode_len();
    if len == 0 {
        return None;
    }
    let mut acc: u128 = 0;
    let mut i: usize = 0;
    while i < len
        invariant
            0 < len == s@.len(),
            0 <= i <= len,
            is_digits(s@.take(i as int)),
            acc as int == dec_val(s@.take(i as int)),
            acc <= u64::MAX,
        decreases len - i,
    {
        let c = s.get_char(i);
        let d: u128 = match digit_of(c) {
            Some(d) => d as u128,
            None => {
                assert(!is_digit(s@[i as int]));
                return None;
            },
        };
        let next: u128 = acc * 10 + d;
        proof {
            assert(s@.take(i + 1).drop_last() == s@.take(i as int));
            assert(s@.take(i + 1).last() == s@[i as int]);
            assert(next as int == dec_val(s@.take(i + 1)));
        }
        if next > u64::MAX as u128 {
            proof {
                if is_digits(s@) {
                    lemma_dec_val_take_monotone(s@, i + 1);
                }
            }
            return None;
        }
        acc = next;
        i = i + 1;
    }
    proof {
        assert(s@.take(len as int) == s@);
    }
    Some(acc as u64)
}

/// The digit character that denotes `d`.
pub open spec fn digit_char(d: int) -> char {
    if d == 0 { '0' }
    else if d == 1 { '1' }
    else if d == 2 { '2' }
    else if d == 3 { '3' }
    else if d == 4 { '4' }
    else if d == 5 { '5' }
    else if d == 6 { '6' }
    else if d == 7 { '7' }
    else if d == 8 { '8' }
    else { '9' }
}

/// The canonical decimal rendering of `n`: no sign, no leading zero except
/// for zero itself.
pub open spec fn dec_str(n: int) -> Seq<char>
    decreases n,
{
    if n <= 9 {
        seq![digit_char(if n < 0 { 0 } else { n })]
    } else {
        dec_str(n / 10).push(digit_char(n % 10))
    }
}

/// The one-character string that denotes the digit `d`.
fn digit_str(d: u64) -> (r: &'static str)
    requires
        d <= 9,
    ensures
        r@ == seq![digit_char(d as int)],
{
    proof {
        reveal_strlit("0");
        reveal_strlit("1");
        reveal_strlit("2");
        reveal_strlit("3");
        reveal_strlit("4");
        reveal_strlit("5");
        reveal_strlit("6");
        reveal_strlit("7");
        reveal_strlit("8");
        reveal_strlit("9");
    }
    if d == 0 { "0" }
    else if d == 1 { "1" }
    else if d == 2 { "2" }
    else if d == 3 { "3" }
    else if d == 4 { "4" }
    else if d == 5 { "5" }
    else if d == 6 { "6" }
    else if d == 7 { "7" }
    else if d == 8 { "8" }
    else { "9" }
}

/// The numeric value of `c` when it is a decimal digit.
pub fn digit_of(c: char) -> (r: Option<u64>)
    ensures
        match r {
            Some(d) => is_digit(c) && d as int == digit_val(c),
            None => !is_digit(c),
        },
{
    if c == '0' { Some(0) }
    else if c == '1' { Some(1) }
    else if c == '2' { Some(2) }
    else if c == '3' { Some(3) }
    else if c == '4' { Some(4) }
    else if c == '5' { Some(5) }
    else if c == '6' { Some(6) }
    else if c == '7' { Some(7) }
    else if c == '8' { Some(8) }
    else if c == '9' { Some(9) }
    else { None }
}

/// Renders `n` in decimal.
pub fn u64_to_dec(n: u64) -> (r: String)
    ensures
        r@ == dec_str(n as int),
    decreases n,
{
    if n <= 9 {
        digit_str(n).to_owned()
    } else {
        let mut s = u64_to_dec(n / 10);
        s.append(digit_str(n % 10));
        s
    }
}

/// Addition on `u64` that stops at the largest representable value.
pub open spec fn sat_add(a: u64, b: u64) -> u64 {
    if a + b <= u64::MAX { (a + b) as u64 } else { u64::MAX }
}

/// Computes `sat_add`.
pub fn saturating_add_u64(a: u64, b: u64) -> (r: u64)
    ensures
        r == sat_add(a, b),
{
    if a <= u64::MAX - b {
        a + b
    } else {
        u64::MAX
    }
}

} // verus!
