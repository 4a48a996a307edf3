//! Character-level models of the textual forms used by the storage layer:
//! hexadecimal digits, big-endian byte strings, radix-16 integer parsing,
//! decimal numerals and comma-separated lists.

use vstd::prelude::*;

verus! {

/// Numeric value of a hexadecimal digit (either case), or -1 for any other character.
pub open spec fn hex_value(c: char) -> int {
    let n = c as int;
    if 48 <= n <= 57 {
        n - 48
    } else if 97 <= n <= 102 {
        n - 87
    } else if 65 <= n <= 70 {
        n - 55
    } else {
        -1
    }
}

pub open spec fn is_hex_digit(c: char) -> bool {
    hex_value(c) >= 0
}

pub open spec fn all_hex_digits(s: Seq<char>) -> bool {
    forall|i: int| 0 <= i < s.len() ==> #[trigger] is_hex_digit(s[i])
}

/// The lower-case hexadecimal digit for `n` (meant for `0 <= n < 16`).
pub open spec fn lower_digit(n: int) -> char {
    if n < 10 {
        (48 + n) as char
    } else {
        (87 + n) as char
    }
}

/// Value of a string of hexadecimal digits read most significant digit first.
pub open spec fn hex_digits_value(s: Seq<char>) -> int
    decreases s.len(),
{
    if s.len() == 0 {
        0
    } else {
        hex_digits_value(s.drop_last()) * 16 + hex_value(s.last())
    }
}

/// Lower-case hexadecimal text of a byte string, two digits per byte.
pub open spec fn hex_of_bytes(b: Seq<u8>) -> Seq<char>
    decreases b.len(),
{
    if b.len() == 0 {
        Seq::empty()
    } else {
        hex_of_bytes(b.drop_last()) + seq![lower_digit((b.last() / 16) as int), lower_digit((b.last() % 16) as int)]
    }
}

/// The bytes spelled by a string of hexadecimal digit pairs.
pub open spec fn bytes_of_hex(s: Seq<char>) -> Seq<u8>
    decreases s.len(),
{
    if s.len() < 2 {
        Seq::empty()
    } else {
        bytes_of_hex(s.subrange(0, s.len() - 2)).push(
            (hex_value(s[s.len() - 2]) * 16 + hex_value(s[s.len() - 1])) as u8,
        )
    }
}

/// Value of a byte string read as a big-endian number.
pub open spec fn be_value(b: Seq<u8>) -> int
    decreases b.len(),
{
    if b.len() == 0 {
        0
    } else {
        be_value(b.drop_last()) * 256 + b.last()
    }
}

/// The four big-endian bytes of a 32-bit word.
pub open spec fn be_bytes_u32(x: u32) -> Seq<u8> {
    seq![
        (x / 0x100_0000) as u8,
        ((x / 0x1_0000) % 256) as u8,
        ((x / 0x100) % 256) as u8,
        (x % 256) as u8,
    ]
}

/// Lower-case hexadecimal numeral of `x` without leading zeros (`"0"` for zero).
pub open spec fn lower_hex_numeral(x: nat) -> Seq<char>
    decreases x,
{
    if x < 16 {
        seq![lower_digit(x as int)]
    } else {
        lower_hex_numeral(x / 16).push(lower_digit((x % 16) as int))
    }
}

/// Decimal numeral of `x` without leading zeros (`"0"` for zero).
pub open spec fn decimal_numeral(x: nat) -> Seq<char>
    decreases x,
{
    if x < 10 {
        seq![(48 + x) as char]
    } else {
        decimal_numeral(x / 10).push((48 + x % 10) as char)
    }
}

/// What a radix-16 integer parse of `s` yields for an integer type whose
/// range is `lo..=hi`: an optional `+` (or `-` when `signed`) followed by one
/// or more hexadecimal digits of either case, whose value lies in the range.
pub open spec fn parse_radix16(s: Seq<char>, signed: bool, lo: int, hi: int) -> Option<int> {
    if s.len() == 0 {
        None
    } else {
        let negative = signed && s[0] == '-';
        let digits = if s[0] == '+' || negative {
            s.skip(1)
        } else {
            s
        };
        if digits.len() == 0 || !all_hex_digits(digits) {
            None
        } else {
            let v = if negative {
                -hex_digits_value(digits)
            } else {
                hex_digits_value(digits)
            };
            if lo <= v <= hi {
                Some(v)
            } else {
                None
            }
        }
    }
}

pub open spec fn parse_u32_radix16(s: Seq<char>) -> Option<int> {
    parse_radix16(s, false, 0, 0xffff_ffff)
}

pub open spec fn parse_i32_radix16(s: Seq<char>) -> Option<int> {
    parse_radix16(s, true, -0x8000_0000, 0x7fff_ffff)
}

/// `items` joined with `sep` between consecutive items.
pub open spec fn join(items: Seq<Seq<char>>, sep: Seq<char>) -> Seq<char>
    decreases items.len(),
{
    if items.len() == 0 {
        Seq::empty()
    } else if items.len() == 1 {
        items[0]
    } else {
        join(items.drop_last(), sep) + sep + items.last()
    }
}

pub proof fn lemma_lower_digit(n: int)
    requires
        0 <= n < 16,
    ensures
        hex_value(lower_digit(n)) == n,
        is_hex_digit(lower_digit(n)),
        lower_digit(n) != '+',
        lower_digit(n) != '-',
        lower_digit(n) != 'x',
        lower_digit(n) != 'X',
{
}

pub proof fn lemma_hex_digits_value_push(s: Seq<char>, c: char)
    ensures
        hex_digits_value(s.push(c)) == hex_digits_value(s) * 16 + hex_value(c),
{
    assert(s.push(c).drop_last() =~= s);
}

/// Hexadecimal text of bytes: its length, its alphabet, its numeric value and
/// the bytes it spells.
pub proof fn lemma_hex_of_bytes(b: Seq<u8>)
    ensures
        hex_of_bytes(b).len() == 2 * b.len(),
        all_hex_digits(hex_of_bytes(b)),
        hex_digits_value(hex_of_bytes(b)) == be_value(b),
        bytes_of_hex(hex_of_bytes(b)) == b,
        forall|i: int|
            0 <= i < hex_of_bytes(b).len() ==> #[trigger] hex_of_bytes(b)[i] != '+'
                && hex_of_bytes(b)[i] != '-',
    decreases b.len(),
{
    if b.len() > 0 {
        let p = b.drop_last();
        let x = b.last();
        lemma_hex_of_bytes(p);
        let hi = lower_digit((x / 16) as int);
        let lo = lower_digit((x % 16) as int);
        lemma_lower_digit((x / 16) as int);
        lemma_lower_digit((x % 16) as int);
        let hp = hex_of_bytes(p);
        let h = hex_of_bytes(b);
        assert(h =~= hp + seq![hi, lo]);
        assert forall|i: int| 0 <= i < h.len() implies #[trigger] is_hex_digit(h[i]) && h[i] != '+'
            && h[i] != '-' by {
            if i < hp.len() {
                assert(h[i] == hp[i]);
            }
        }
        lemma_hex_digits_value_push(hp, hi);
        assert(hp + seq![hi, lo] =~= hp.push(hi).push(lo));
        lemma_hex_digits_value_push(hp.push(hi), lo);
        assert(h.subrange(0, h.len() - 2) =~= hp);
        assert(b =~= p.push(x));
    }
}

pub proof fn lemma_be_bytes_u32(x: u32)
    ensures
        be_value(be_bytes_u32(x)) == x,
        be_bytes_u32(x).len() == 4,
{
    let b = be_bytes_u32(x);
    let a3 = x / 0x100_0000;
    let a2 = (x / 0x1_0000) % 256;
    let a1 = (x / 0x100) % 256;
    let a0 = x % 256;
    assert(a3 < 256);
    assert(b.drop_last().drop_last().drop_last().drop_last() =~= Seq::<u8>::empty());
    assert(b.drop_last().drop_last().drop_last() =~= seq![a3 as u8]);
    assert(b.drop_last().drop_last() =~= seq![a3 as u8, a2 as u8]);
    assert(b.drop_last() =~= seq![a3 as u8, a2 as u8, a1 as u8]);
    reveal_with_fuel(be_value, 5);
    assert(be_value(b) == ((a3 * 256 + a2) * 256 + a1) * 256 + a0);
    assert(((a3 * 256 + a2) * 256 + a1) * 256 + a0 == x) by (nonlinear_arith)
        requires
            a3 == x / 0x100_0000,
            a2 == (x / 0x1_0000) % 256,
            a1 == (x / 0x100) % 256,
            a0 == x % 256,
            x < 0x1_0000_0000,
    ;
}

/// A hexadecimal numeral without leading zeros: alphabet, value and length bound.
pub proof fn lemma_lower_hex_numeral(x: nat)
    ensures
        lower_hex_numeral(x).len() > 0,
        all_hex_digits(lower_hex_numeral(x)),
        hex_digits_value(lower_hex_numeral(x)) == x,
        lower_hex_numeral(x)[0] != '+',
        lower_hex_numeral(x)[0] != '-',
        lower_hex_numeral(x).len() > 1 ==> lower_hex_numeral(x)[1] != 'x' && lower_hex_numeral(x)[1]
            != 'X',
    decreases x,
{
    if x < 16 {
        lemma_lower_digit(x as int);
        lemma_hex_digits_value_push(Seq::empty(), lower_digit(x as int));
        assert(lower_hex_numeral(x) =~= Seq::<char>::empty().push(lower_digit(x as int)));
    } else {
        lemma_lower_hex_numeral(x / 16);
        lemma_lower_digit((x % 16) as int);
        let p = lower_hex_numeral(x / 16);
        let s = lower_hex_numeral(x);
        assert(s =~= p.push(lower_digit((x % 16) as int)));
        assert forall|i: int| 0 <= i < s.len() implies #[trigger] is_hex_digit(s[i]) by {
            if i < p.len() {
                assert(s[i] == p[i]);
            }
        }
        lemma_hex_digits_value_push(p, lower_digit((x % 16) as int));
        assert(hex_value(lower_digit((x % 16) as int)) == x % 16);
        assert((x / 16) * 16 + x % 16 == x);
        if p.len() > 1 {
            assert(s[1] == p[1]);
        } else {
            assert(s[1] == lower_digit((x % 16) as int));
        }
        assert(s[0] == p[0]);
    }
}


/// Value of a string of decimal digits, most significant first.
pub open spec fn decimal_digits_value(s: Seq<char>) -> int
    decreases s.len(),
{
    if s.len() == 0 {
        0
    } else {
        decimal_digits_value(s.drop_last()) * 10 + (s.last() as int - 48)
    }
}

/// Law (a decimal numeral spells its number): the numeral of `x` is a
/// non-empty string of decimal digits that reads back as `x`, with no
/// leading zero unless `x` is zero.
pub proof fn lemma_decimal_numeral_value(x: nat)
    ensures
        decimal_numeral(x).len() > 0,
        forall|i: int| 0 <= i < decimal_numeral(x).len() ==> '0' <= #[trigger] decimal_numeral(x)[i] <= '9',
        decimal_digits_value(decimal_numeral(x)) == x,
        x > 0 ==> decimal_numeral(x)[0] != '0',
    decreases x,
{
    let s = decimal_numeral(x);
    if x < 10 {
        assert(s.drop_last().len() == 0);
        assert(decimal_digits_value(s.drop_last()) == 0);
        assert(s.last() as int == 48 + x);
    } else {
        lemma_decimal_numeral_value(x / 10);
        let p = decimal_numeral(x / 10);
        assert(s =~= p.push((48 + x % 10) as char));
        assert(s.drop_last() =~= p);
        assert forall|i: int| 0 <= i < s.len() implies '0' <= #[trigger] s[i] <= '9' by {
            if i < p.len() {
                assert(s[i] == p[i]);
            }
        }
        assert(s[0] == p[0]);
        assert(s.last() as int == 48 + x % 10);
        assert(decimal_digits_value(s) == decimal_digits_value(p) * 10 + x % 10);
        assert((x / 10) * 10 + x % 10 == x);
    }
}

} // verus!
