//! Decimal and hexadecimal text: reading an `i32` the way `str::parse` does,
//! writing one the way `to_string` does, and lower-case hex of bytes.

use vstd::prelude::*;

verus! {

/// The character for a digit value below 16 (lower-case past 9).
pub open spec fn hex_char(d: int) -> char {
    if d == 0 { '0' }
    else if d == 1 { '1' }
    else if d == 2 { '2' }
    else if d == 3 { '3' }
    else if d == 4 { '4' }
    else if d == 5 { '5' }
    else if d == 6 { '6' }
    else if d == 7 { '7' }
    else if d == 8 { '8' }
    else if d == 9 { '9' }
    else if d == 10 { 'a' }
    else if d == 11 { 'b' }
    else if d == 12 { 'c' }
    else if d == 13 { 'd' }
    else if d == 14 { 'e' }
    else { 'f' }
}

pub open spec fn is_digit(c: char) -> bool {
    '0' <= c && c <= '9'
}

pub open spec fn digit_value(c: char) -> int {
    c as int - '0' as int
}

pub open spec fn all_digits(s: Seq<char>) -> bool {
    forall|i: int| 0 <= i < s.len() ==> is_digit(#[trigger] s[i])
}

/// The number that a sequence of decimal digits denotes.
pub open spec fn digits_value(s: Seq<char>) -> int
    decreases s.len(),
{
    if s.len() == 0 {
        0
    } else {
        digits_value(s.drop_last()) * 10 + digit_value(s.last())
    }
}

/// What `str::parse::<i32>` gives back: an optional sign (`+` or `-`),
/// then one or more decimal digits whose value fits in an `i32`.
pub open spec fn spec_parse_i32(s: Seq<char>) -> Option<i32> {
    if s.len() > 0 && s[0] == '-' {
        let d = s.drop_first();
        if d.len() > 0 && all_digits(d) && digits_value(d) <= 0x8000_0000 {
            Some((-digits_value(d)) as i32)
        } else {
            None
        }
    } else {
        let d = if s.len() > 0 && s[0] == '+' { s.drop_first() } else { s };
        if d.len() > 0 && all_digits(d) && digits_value(d) <= 0x7fff_ffff {
            Some(digits_value(d) as i32)
        } else {
            None
        }
    }
}

/// The decimal digits of a natural number, with no leading zero.
pub open spec fn nat_text(n: nat) -> Seq<char>
    decreases n,
{
    if n < 10 {
        seq![hex_char(n as int)]
    } else {
        nat_text(n / 10).push(hex_char((n % 10) as int))
    }
}

/// What `to_string` gives for an `i32`.
pub open spec fn i32_text(n: i32) -> Seq<char> {
    if n < 0 {
        seq!['-'] + nat_text((-n) as nat)
    } else {
        nat_text(n as nat)
    }
}

/// What `str::parse::<bool>` gives back.
pub open spec fn spec_parse_bool(s: Seq<char>) -> Option<bool> {
    if s == seq!['t', 'r', 'u', 'e'] {
        Some(true)
    } else if s == seq!['f', 'a', 'l', 's', 'e'] {
        Some(false)
    } else {
        None
    }
}

/// Lower-case hex of bytes, two digits per byte, high digit first.
pub open spec fn lower_hex(bytes: Seq<u8>) -> Seq<char>
    decreases bytes.len(),
{
    if bytes.len() == 0 {
        seq![]
    } else {
        lower_hex(bytes.drop_last()) + seq![
            hex_char(bytes.last() as int / 16),
            hex_char(bytes.last() as int % 16),
        ]
    }
}

proof fn lemma_digits_value_nonneg(s: Seq<char>)
    requires
        all_digits(s),
    ensures
        digits_value(s) >= 0,
    decreases s.len(),
{
    if s.len() > 0 {
        lemma_digits_value_nonneg(s.drop_last());
    }
}

/// A longer run of digits never denotes less than its prefix.
proof fn lemma_digits_value_prefix(s: Seq<char>, i: int)
    requires
        all_digits(s),
        0 <= i <= s.len(),
    ensures
        digits_value(s.take(i)) <= digits_value(s),
    decreases s.len() - i,
{
    if i < s.len() {
        lemma_digits_value_prefix(s, i + 1);
        assert(s.take(i + 1).drop_last() =~= s.take(i));
        lemma_digits_value_nonneg(s.take(i));
    } else {
        assert(s.take(i) =~= s);
    }
}

proof fn lemma_nat_text(n: nat)
    ensures
        nat_text(n).len() > 0,
        all_digits(nat_text(n)),
        digits_value(nat_text(n)) == n,
    decreases n,
{
    if n < 10 {
        assert(digits_value(nat_text(n)) == digits_value(nat_text(n).drop_last()) * 10
            + digit_value(nat_text(n).last()));
        assert(nat_text(n).drop_last() =~= Seq::<char>::empty());
    } else {
        lemma_nat_text(n / 10);
        let t = nat_text(n);
        assert(t.drop_last() =~= nat_text(n / 10));
        assert forall|i: int| 0 <= i < t.len() implies is_digit(#[trigger] t[i]) by {
            if i < t.len() - 1 {
                assert(t[i] == nat_text(n / 10)[i]);
            }
        }
    }
}

/// Reading back what `to_string` wrote for an `i32` gives the same number.
pub proof fn lemma_i32_text_parses(n: i32)
    ensures
        spec_parse_i32(i32_text(n)) == Some(n),
        i32_text(n).len() > 0,
        !i32_text(n).contains(','),
{
    if n < 0 {
        let m = (-n) as nat;
        lemma_nat_text(m);
        let t = i32_text(n);
        assert(t.drop_first() =~= nat_text(m));
        assert(!t.contains(',')) by {
            if t.contains(',') {
                let k = choose|k: int| 0 <= k < t.len() && t[k] == ',';
                assert(t[k] == ',');
                if k > 0 {
                    assert(t[k] == nat_text(m)[k - 1]);
                }
            }
        }
    } else {
        lemma_nat_text(n as nat);
        let t = i32_text(n);
        assert(is_digit(t[0]));
        assert(!t.contains(',')) by {
            if t.contains(',') {
                let k = choose|k: int| 0 <= k < t.len() && t[k] == ',';
                assert(is_digit(t[k]));
            }
        }
    }
}

/// The one-character text of a digit value below 16.
fn hex_digit_str(d: u8) -> (s: &'static str)
    requires
        d < 16,
    ensures
        s@ == seq![hex_char(d as int)],
{
    if d == 0 {
        proof { reveal_strlit("0"); }
        "0"
    } else if d == 1 {
        proof { reveal_strlit("1"); }
        "1"
    } else if d == 2 {
        proof { reveal_strlit("2"); }
        "2"
    } else if d == 3 {
        proof { reveal_strlit("3"); }
        "3"
    } else if d == 4 {
        proof { reveal_strlit("4"); }
        "4"
    } else if d == 5 {
        proof { reveal_strlit("5"); }
        "5"
    } else if d == 6 {
        proof { reveal_strlit("6"); }
        "6"
    } else if d == 7 {
        proof { reveal_strlit("7"); }
        "7"
    } else if d == 8 {
        proof { reveal_strlit("8"); }
        "8"
    } else if d == 9 {
        proof { reveal_strlit("9"); }
        "9"
    } else if d == 10 {
        proof { reveal_strlit("a"); }
        "a"
    } else if d == 11 {
        proof { reveal_strlit("b"); }
        "b"
    } else if d == 12 {
        proof { reveal_strlit("c"); }
        "c"
    } else if d == 13 {
        proof { reveal_strlit("d"); }
        "d"
    } else if d == 14 {
        proof { reveal_strlit("e"); }
        "e"
    } else {
        proof { reveal_strlit("f"); }
        "f"
    }
}

fn append_nat_text(out: &mut String, n: u32)
    ensures
        final(out)@ == old(out)@ + nat_text(n as nat),
    decreases n,
{
    if n >= 10 {
        append_nat_text(out, n / 10);
    }
    out.append(hex_digit_str((n % 10) as u8));
    proof {
        if n >= 10 {
            assert(nat_text(n as nat) == nat_text((n / 10) as nat).push(hex_char((n % 10) as int)));
        }
    }
}

/// Writes an `i32` in decimal, as `to_string` does.
pub fn i32_to_string(n: i32) -> (s: String)
    ensures
        s@ == i32_text(n),
{
    let mut out = String::new();
    if n < 0 {
        proof { reveal_strlit("-"); }
        out.append("-");
        let m: u32 = if n == i32::MIN { 0x8000_0000u32 } else { (-n) as u32 };
        append_nat_text(&mut out, m);
    } else {
        append_nat_text(&mut out, n as u32);
    }
    out
}

/// The sixteen lower-case hex digits, in order of value.
pub open spec fn hex_digits() -> Seq<char> {
    seq!['0', '1', '2', '3', '4', '5', '6', '7', '8', '9', 'a', 'b', 'c', 'd', 'e', 'f']
}

/// Each digit value below 16 is written as the lower-case hex digit of that
/// value.
pub proof fn lemma_hex_char_is_digit(d: int)
    requires
        0 <= d < 16,
    ensures
        hex_char(d) == hex_digits()[d],
{
}

/// Lower-case hex writes two characters per byte, byte by byte in order: the
/// digit of the high four bits, then the digit of the low four bits.
pub proof fn lemma_lower_hex_bytes(bytes: Seq<u8>)
    ensures
        lower_hex(bytes).len() == 2 * bytes.len(),
        forall|k: int|
            0 <= k < bytes.len() ==> lower_hex(bytes)[2 * k] == hex_digits()[(#[trigger] bytes[k]) as int / 16] && lower_hex(bytes)[2 * k + 1] == hex_digits()[bytes[k] as int % 16],
    decreases bytes.len(),
{
    if bytes.len() > 0 {
        let pre = bytes.drop_last();
        lemma_lower_hex_bytes(pre);
        let b = bytes.last();
        lemma_hex_char_is_digit(b as int / 16);
        lemma_hex_char_is_digit(b as int % 16);
        assert forall|k: int| 0 <= k < bytes.len() implies lower_hex(bytes)[2 * k]
            == hex_digits()[(#[trigger] bytes[k]) as int / 16] && lower_hex(bytes)[2 * k + 1]
            == hex_digits()[bytes[k] as int % 16] by {
            if k < pre.len() {
                assert(bytes[k] == pre[k]);
                assert(lower_hex(bytes)[2 * k] == lower_hex(pre)[2 * k]);
                assert(lower_hex(bytes)[2 * k + 1] == lower_hex(pre)[2 * k + 1]);
            } else {
                assert(bytes[k] == b);
            }
        }
    }
}

/// Lower-case hex of bytes, as `{:x}` writes a digest.
pub fn to_lower_hex(bytes: &Vec<u8>) -> (s: String)
    ensures
        s@ == lower_hex(bytes@),
        s@.len() == 2 * bytes@.len(),
        forall|k: int|
            0 <= k < bytes@.len() ==> s@[2 * k] == hex_digits()[(#[trigger] bytes@[k]) as int / 16]
                && s@[2 * k + 1] == hex_digits()[bytes@[k] as int % 16],
{
    proof {
        lemma_lower_hex_bytes(bytes@);
    }
    let mut out = String::new();
    for i in 0..bytes.len()
        invariant
            out@ == lower_hex(bytes@.take(i as int)),
    {
        let b = bytes[i];
        out.append(hex_digit_str(b / 16));
        out.append(hex_digit_str(b % 16));
        assert(bytes@.take(i + 1).drop_last() =~= bytes@.take(i as int));
    }
    assert(bytes@.take(bytes.len() as int) =~= bytes@);
    out
}

/// The characters of a string slice, in order.
pub fn chars_of(s: &str) -> (v: Vec<char>)
    ensures
        v@ == s@,
{
    let n = s.unicode_len();
    let mut v: Vec<char> = Vec::new();
    for i in 0..n
        invariant
            n == s@.len(),
            v@ == s@.take(i as int),
    {
        v.push(s.get_char(i));
        assert(s@.take(i + 1) =~= s@.take(i as int).push(s@[i as int]));
    }
    assert(s@.take(n as int) =~= s@);
    v
}

/// Reads an `i32` from `s[start..end]`, as `str::parse::<i32>` reads the text.
pub fn parse_i32_in(s: &Vec<char>, start: usize, end: usize) -> (r: Option<i32>)
    requires
        start <= end <= s.len(),
    ensures
        r == spec_parse_i32(s@.subrange(start as int, end as int)),
{
    let ghost t = s@.subrange(start as int, end as int);
    let mut i = start;
    let mut negative = false;
    if start < end && s[start] == '-' {
        negative = true;
        i = start + 1;
    } else if start < end && s[start] == '+' {
        i = start + 1;
    }
    let ghost d = s@.subrange(i as int, end as int);
    proof {
        if i == start + 1 {
            assert(d =~= t.drop_first());
        } else {
            assert(d =~= t);
        }
    }
    if i == end {
        return None;
    }
    let limit: u64 = if negative { 0x8000_0000 } else { 0x7fff_ffff };
    let mut acc: u64 = 0;
    let mut j = i;
    while j < end
        invariant
            i <= j <= end <= s.len(),
            d == s@.subrange(i as int, end as int),
            t == s@.subrange(start as int, end as int),
            negative ==> t.len() > 0 && t[0] == '-' && d == t.drop_first(),
            !negative ==> !(t.len() > 0 && t[0] == '-') && d == (if t.len() > 0 && t[0] == '+' {
                t.drop_first()
            } else {
                t
            }),
            limit == (if negative { 0x8000_0000u64 } else { 0x7fff_ffffu64 }),
            all_digits(d.take(j - i)),
            acc == digits_value(d.take(j - i)),
            acc <= limit,
            limit <= 0x8000_0000,
        decreases end - j,
    {
        let c = s[j];
        if !('0' <= c && c <= '9') {
            proof {
                assert(d[j - i] == c);
                assert(!all_digits(d));
            }
            return None;
        }
        let dv: u64 = (c as u32 - '0' as u32) as u64;
        assert(d.take(j - i + 1).drop_last() =~= d.take(j - i));
        assert(d.take(j - i + 1).last() == c);
        let next = acc * 10 + dv;
        assert(all_digits(d.take(j - i + 1))) by {
            assert forall|k: int| 0 <= k < d.take(j - i + 1).len() implies is_digit(
                #[trigger] d.take(j - i + 1)[k],
            ) by {
                if k < j - i {
                    assert(d.take(j - i + 1)[k] == d.take(j - i)[k]);
                }
            }
        }
        if next > limit {
            proof {
                if all_digits(d) {
                    lemma_digits_value_prefix(d, j - i + 1);
                }
            }
            return None;
        }
        acc = next;
        j = j + 1;
    }
    assert(d.take(j - i) =~= d);
    if negative {
        if acc == 0x8000_0000 {
            Some(i32::MIN)
        } else {
            Some(-(acc as i32))
        }
    } else {
        Some(acc as i32)
    }
}

/// Reads an `i32` as `str::parse::<i32>` does; `None` where it fails.
pub fn parse_i32(s: &str) -> (r: Option<i32>)
    ensures
        r == spec_parse_i32(s@),
{
    let v = chars_of(s);
    assert(v@.subrange(0, v@.len() as int) =~= v@);
    parse_i32_in(&v, 0, v.len())
}

/// Reads a `bool` as `str::parse::<bool>` does; `None` where it fails.
pub fn parse_bool(s: &str) -> (r: Option<bool>)
    ensures
        r == spec_parse_bool(s@),
{
    let v = chars_of(s);
    if v.len() == 4 && v[0] == 't' && v[1] == 'r' && v[2] == 'u' && v[3] == 'e' {
        assert(v@ =~= seq!['t', 'r', 'u', 'e']);
        Some(true)
    } else if v.len() == 5 && v[0] == 'f' && v[1] == 'a' && v[2] == 'l' && v[3] == 's' && v[4]
        == 'e' {
        assert(v@ =~= seq!['f', 'a', 'l', 's', 'e']);
        Some(false)
    } else {
        proof {
            if v@ == seq!['t', 'r', 'u', 'e'] {
                assert(v@[0] == 't' && v@[3] == 'e');
            }
            if v@ == seq!['f', 'a', 'l', 's', 'e'] {
                assert(v@[0] == 'f' && v@[4] == 'e');
            }
        }
        None
    }
}

} // verus!
