//! Numbers written as text: decimal and hexadecimal digits.

use vstd::prelude::*;
use vstd::arithmetic::div_mod::lemma_breakdown;
use vstd::arithmetic::power::{lemma_pow_positive, pow};
use crate::text::{ascii_lower, ascii_lower_text};

verus! {

/// The character of one hexadecimal digit, in lower case.
pub open spec fn digit(value: int) -> char {
    if value < 10 {
        ('0' as u32 + value) as char
    } else {
        ('a' as u32 + (value - 10)) as char
    }
}

/// The decimal digits of a number, without leading zeros.
pub open spec fn decimal(value: nat) -> Seq<char>
    decreases value,
{
    if value < 10 {
        seq![digit(value as int)]
    } else {
        decimal(value / 10).push(digit((value % 10) as int))
    }
}

/// The number's lowest `width` hexadecimal digits, in lower case, highest first.
pub open spec fn hex(value: nat, width: nat) -> Seq<char>
    decreases width,
{
    if width == 0 {
        Seq::empty()
    } else {
        hex(value / 16, (width - 1) as nat).push(digit((value % 16) as int))
    }
}

/// There are as many digits as were asked for, and they tell the number's lower part.
pub proof fn lemma_hex_tells_lower_part(a: nat, b: nat, width: nat)
    ensures
        hex(a, width).len() == width,
        hex(a, width) == hex(b, width) ==> a as int % pow(16, width) == b as int % pow(16, width),
    decreases width,
{
    reveal(pow);
    if width > 0 {
        let less = (width - 1) as nat;
        lemma_hex_tells_lower_part(a / 16, b / 16, less);
        lemma_hex_tells_lower_part(b / 16, a / 16, less);
        lemma_pow_positive(16, less);
        lemma_breakdown(a as int, 16, pow(16, less));
        lemma_breakdown(b as int, 16, pow(16, less));
        if hex(a, width) == hex(b, width) {
            assert(hex(a, width).last() == digit((a % 16) as int));
            assert(hex(b, width).last() == digit((b % 16) as int));
            assert(hex(a, width).drop_last() =~= hex(a / 16, less));
            assert(hex(b, width).drop_last() =~= hex(b / 16, less));
            lemma_digits_differ((a % 16) as int, (b % 16) as int);
        }
    } else {
        assert(pow(16, 0) == 1);
    }
}

proof fn lemma_digits_differ(a: int, b: int)
    requires
        0 <= a < 16,
        0 <= b < 16,
        digit(a) == digit(b),
    ensures
        a == b,
{
    assert(digit(a) as int == if a < 10 { 48 + a } else { 87 + a });
    assert(digit(b) as int == if b < 10 { 48 + b } else { 87 + b });
}

/// Two hexadecimal digits for each byte, in order.
pub open spec fn hex_bytes(bytes: Seq<u8>) -> Seq<char>
    decreases bytes.len(),
{
    if bytes.len() == 0 {
        Seq::empty()
    } else {
        hex_bytes(bytes.drop_last()) + hex(bytes.last() as nat, 2)
    }
}

/// The character of one hexadecimal digit, in lower case.
fn digit_char(value: u8) -> (r: char)
    requires
        value < 16,
    ensures
        r == digit(value as int),
{
    if value < 10 {
        ('0' as u8 + value) as char
    } else {
        ('a' as u8 + (value - 10)) as char
    }
}

/// The decimal digits of a number.
pub fn decimal_text(value: u64) -> (r: String)
    ensures
        r@ == decimal(value as nat),
    decreases value,
{
    if value < 10 {
        let mut out = String::new();
        out.push(digit_char(value as u8));
        assert(out@ =~= decimal(value as nat));
        out
    } else {
        let mut out = decimal_text(value / 10);
        out.push(digit_char((value % 10) as u8));
        out
    }
}

/// The decimal digits of a signed number, after a minus sign where it is negative.
pub open spec fn signed_decimal(value: int) -> Seq<char> {
    if value < 0 {
        seq!['-'] + decimal((-value) as nat)
    } else {
        decimal(value as nat)
    }
}

/// The decimal digits of a signed number, after a minus sign where it is negative.
pub fn signed_decimal_text(value: i64) -> (r: String)
    ensures
        r@ == signed_decimal(value as int),
{
    if value < 0 {
        let mut out = String::new();
        out.push('-');
        assert(out@ =~= seq!['-']);
        let size: u64 = if value == i64::MIN {
            0x8000_0000_0000_0000
        } else {
            (-value) as u64
        };
        out.append(decimal_text(size).as_str());
        out
    } else {
        decimal_text(value as u64)
    }
}

/// The lowest `width` hexadecimal digits of a number.
pub fn hex_text(value: u64, width: u32) -> (r: String)
    ensures
        r@ == hex(value as nat, width as nat),
    decreases width,
{
    if width == 0 {
        let out = String::new();
        assert(out@ =~= hex(value as nat, 0));
        out
    } else {
        let mut out = hex_text(value / 16, width - 1);
        out.push(digit_char((value % 16) as u8));
        out
    }
}

/// Two hexadecimal digits for each byte.
pub fn hex_bytes_text(bytes: &[u8]) -> (r: String)
    ensures
        r@ == hex_bytes(bytes@),
{
    let mut out = String::new();
    let mut i: usize = 0;
    assert(bytes@.take(0) =~= Seq::<u8>::empty());
    while i < bytes.len()
        invariant
            i <= bytes@.len(),
            out@ == hex_bytes(bytes@.take(i as int)),
        decreases bytes@.len() - i,
    {
        let pair = hex_text(bytes[i] as u64, 2);
        out.append(pair.as_str());
        assert(bytes@.take(i + 1).drop_last() =~= bytes@.take(i as int));
        i = i + 1;
    }
    assert(bytes@.take(bytes@.len() as int) =~= bytes@);
    out
}

/// Different numbers have different decimal digits.
pub proof fn lemma_decimal_injective(a: nat, b: nat)
    requires
        decimal(a) == decimal(b),
    ensures
        a == b,
    decreases a,
{
    lemma_decimal_nonempty(a);
    lemma_decimal_nonempty(b);
    let da = decimal(a);
    let db = decimal(b);
    assert(da.last() == digit((a % 10) as int));
    assert(db.last() == digit((b % 10) as int));
    assert(a % 10 == b % 10);
    if a < 10 {
        assert(da.len() == 1);
        if b >= 10 {
            lemma_decimal_nonempty(b / 10);
            assert(db.len() >= 2);
        }
    } else {
        lemma_decimal_nonempty(a / 10);
        assert(da.len() >= 2);
        assert(b >= 10);
        assert(da.drop_last() =~= decimal(a / 10));
        assert(db.drop_last() =~= decimal(b / 10));
        lemma_decimal_injective(a / 10, b / 10);
    }
}

proof fn lemma_decimal_nonempty(value: nat)
    ensures
        decimal(value).len() > 0,
        decimal(value).last() == digit((value % 10) as int),
    decreases value,
{
    if value >= 10 {
        lemma_decimal_nonempty(value / 10);
    }
}

/// A digit is its own lower-case form.
proof fn lemma_digit_is_lower(value: int)
    requires
        0 <= value < 16,
    ensures
        ascii_lower(digit(value)) == digit(value),
{
    assert(digit(value) as int == if value < 10 {
        48 + value
    } else {
        87 + value
    });
}

/// Bytes are written in lower case.
pub proof fn lemma_hex_bytes_are_lower(bytes: Seq<u8>)
    ensures
        ascii_lower_text(hex_bytes(bytes)) == hex_bytes(bytes),
        hex_bytes(bytes).len() == 2 * bytes.len(),
    decreases bytes.len(),
{
    if bytes.len() > 0 {
        let front = hex_bytes(bytes.drop_last());
        let last = bytes.last() as nat;
        lemma_hex_bytes_are_lower(bytes.drop_last());
        reveal_with_fuel(hex, 3);
        lemma_digit_is_lower((last % 16) as int);
        lemma_digit_is_lower((last / 16 % 16) as int);
        let pair = hex(last, 2);
        assert(pair.len() == 2 && pair[0] == digit((last / 16 % 16) as int) && pair[1] == digit(
            (last % 16) as int,
        ));
        assert forall|i: int| 0 <= i < hex_bytes(bytes).len() implies ascii_lower(
            hex_bytes(bytes)[i],
        ) == hex_bytes(bytes)[i] by {
            if i < front.len() {
                assert(ascii_lower_text(front)[i] == front[i]);
            }
        }
        assert(ascii_lower_text(hex_bytes(bytes)) =~= hex_bytes(bytes));
    } else {
        assert(ascii_lower_text(hex_bytes(bytes)) =~= hex_bytes(bytes));
    }
}

/// Bytes are told by the digits that they are written in.
pub proof fn lemma_hex_bytes_injective(a: Seq<u8>, b: Seq<u8>)
    requires
        hex_bytes(a) == hex_bytes(b),
    ensures
        a == b,
    decreases a.len(),
{
    lemma_hex_bytes_are_lower(a);
    lemma_hex_bytes_are_lower(b);
    if a.len() > 0 {
        let length = hex_bytes(a).len() as int;
        let (x, y) = (a.last() as nat, b.last() as nat);
        lemma_hex_bytes_are_lower(a.drop_last());
        lemma_hex_bytes_are_lower(b.drop_last());
        assert(hex_bytes(a).take(length - 2) =~= hex_bytes(a.drop_last()));
        assert(hex_bytes(b).take(length - 2) =~= hex_bytes(b.drop_last()));
        lemma_hex_bytes_injective(a.drop_last(), b.drop_last());
        lemma_hex_tells_lower_part(x, y, 2);
        lemma_hex_tells_lower_part(y, x, 2);
        assert(hex_bytes(a).skip(length - 2) =~= hex(x, 2));
        assert(hex_bytes(b).skip(length - 2) =~= hex(y, 2));
        assert(pow(16, 2) == 256) by {
            reveal(pow);
            assert(pow(16, 0) == 1);
            assert(pow(16, 1) == 16 * pow(16, 0));
            assert(pow(16, 2) == 16 * pow(16, 1));
        }
        assert(x == y);
        assert(a =~= a.drop_last().push(a.last()));
        assert(b =~= b.drop_last().push(b.last()));
    } else {
        assert(a =~= b);
    }
}

/// The number that decimal digits are read as.
pub open spec fn read_decimal(digits: Seq<char>) -> int
    decreases digits.len(),
{
    if digits.len() == 0 {
        0
    } else {
        10 * read_decimal(digits.drop_last()) + (digits.last() as int - '0' as int)
    }
}

/// Decimal digits are read as the number that they were written for, and are digits.
pub proof fn law_decimal_reads_back(value: nat)
    ensures
        read_decimal(decimal(value)) == value,
        forall|i: int|
            0 <= i < decimal(value).len() ==> '0' as u32 <= #[trigger] decimal(value)[i] as u32
                <= '9' as u32,
        decimal(value).len() > 1 ==> decimal(value)[0] != '0',
    decreases value,
{
    reveal_with_fuel(read_decimal, 2);
    if value < 10 {
        assert(decimal(value).drop_last() =~= Seq::empty());
        assert(digit(value as int) as int == 48 + value);
    } else {
        law_decimal_reads_back(value / 10);
        lemma_decimal_nonempty(value / 10);
        let front = decimal(value / 10);
        assert(digit((value % 10) as int) as int == 48 + value % 10);
        assert(decimal(value).drop_last() =~= front);
        assert forall|i: int| 0 <= i < decimal(value).len() implies '0' as u32
            <= #[trigger] decimal(value)[i] as u32 <= '9' as u32 by {
            if i < front.len() {
                assert(decimal(value)[i] == front[i]);
            }
        }
        assert(decimal(value)[0] == front[0]);
        if front.len() == 1 {
            assert(value / 10 < 10) by {
                if value / 10 >= 10 {
                    lemma_decimal_nonempty(value / 10 / 10);
                }
            }
            assert(front[0] == digit((value / 10) as int));
            assert(digit((value / 10) as int) as int == 48 + value / 10);
        }
    }
}

/// A negative number is written with a minus sign before the digits of its size.
pub proof fn law_minus_sign_stands_first(value: int)
    ensures
        value < 0 ==> signed_decimal(value)[0] == '-' && read_decimal(
            signed_decimal(value).drop_first(),
        ) == -value,
        value >= 0 ==> read_decimal(signed_decimal(value)) == value,
{
    if value < 0 {
        law_decimal_reads_back((-value) as nat);
        assert(signed_decimal(value).drop_first() =~= decimal((-value) as nat));
    } else {
        law_decimal_reads_back(value as nat);
    }
}

} // verus!
