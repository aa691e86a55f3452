//! Decimal, hexadecimal and byte-list renderings used inside error messages.

use vstd::arithmetic::power::*;
use vstd::prelude::*;
use vstd::string::*;

verus! {

/// The lower-case digit that stands for `d` in bases up to sixteen.
pub open spec fn digit(d: nat) -> char {
    if d < 10 {
        (48 + d) as char
    } else {
        (87 + d) as char
    }
}

/// `n` in base ten, without leading zeros.
pub open spec fn decimal(n: nat) -> Seq<char>
    decreases n,
{
    if n < 10 {
        seq![digit(n)]
    } else {
        decimal(n / 10).push(digit(n % 10))
    }
}

/// The last `width` base-sixteen digits of `n`, padded with zeros on the left.
pub open spec fn hex(n: nat, width: nat) -> Seq<char>
    decreases width,
{
    if width == 0 {
        Seq::empty()
    } else {
        hex(n / 16, (width - 1) as nat).push(digit(n % 16))
    }
}

/// The elements of `bytes` in decimal, separated by a comma and a space.
pub open spec fn byte_items(bytes: Seq<u8>) -> Seq<char>
    decreases bytes.len(),
{
    if bytes.len() == 0 {
        Seq::empty()
    } else if bytes.len() == 1 {
        decimal(bytes[0] as nat)
    } else {
        byte_items(bytes.drop_last()) + ", "@ + decimal(bytes.last() as nat)
    }
}

/// `bytes` as a bracketed list.
pub open spec fn byte_list(bytes: Seq<u8>) -> Seq<char> {
    "["@ + byte_items(bytes) + "]"@
}

/// The text of one digit.
fn digit_text(d: u8) -> (r: &'static str)
    requires
        d < 16,
    ensures
        r@ == seq![digit(d as nat)],
{
    proof {
        reveal_strlit("0");
        reveal_strlit("1");
        reveal_strlit("2");
        reveal_strlit("3");
        reveal_strlit("4");
        reveal_strlit("5");
        reveal_strlit("6");
        reveal_strlit("7");
        reveal_strlit("8");
        reveal_strlit("9");
        reveal_strlit("a");
        reveal_strlit("b");
        reveal_strlit("c");
        reveal_strlit("d");
        reveal_strlit("e");
        reveal_strlit("f");
    }
    match d {
        0 => "0",
        1 => "1",
        2 => "2",
        3 => "3",
        4 => "4",
        5 => "5",
        6 => "6",
        7 => "7",
        8 => "8",
        9 => "9",
        10 => "a",
        11 => "b",
        12 => "c",
        13 => "d",
        14 => "e",
        _ => "f",
    }
}

/// Appends `n` in base ten.
pub fn push_decimal(out: &mut String, n: u64)
    ensures
        final(out)@ == old(out)@ + decimal(n as nat),
    decreases n,
{
    if n >= 10 {
        push_decimal(out, n / 10);
    }
    out.append(digit_text((n % 10) as u8));
}

/// Appends the last `width` base-sixteen digits of `n`.
fn push_hex(out: &mut String, n: u64, width: u8)
    ensures
        final(out)@ == old(out)@ + hex(n as nat, width as nat),
    decreases width,
{
    if width > 0 {
        push_hex(out, n / 16, width - 1);
        out.append(digit_text((n % 16) as u8));
    }
}

/// Appends `n` as sixteen base-sixteen digits.
pub fn push_hex16(out: &mut String, n: u64)
    ensures
        final(out)@ == old(out)@ + hex(n as nat, 16),
{
    push_hex(out, n, 16);
}

/// Appends `bytes` as a bracketed list of decimals.
pub fn push_byte_list(out: &mut String, bytes: &Vec<u8>)
    ensures
        final(out)@ == old(out)@ + byte_list(bytes@),
{
    out.append("[");
    let ghost start = out@;
    let mut i: usize = 0;
    while i < bytes.len()
        invariant
            i <= bytes.len(),
            out@ == start + byte_items(bytes@.take(i as int)),
        decreases bytes.len() - i,
    {
        if i > 0 {
            out.append(", ");
        }
        push_decimal(out, bytes[i] as u64);
        proof {
            let next = bytes@.take(i + 1);
            assert(next.drop_last() =~= bytes@.take(i as int));
            assert(next.last() == bytes@[i as int]);
        }
        i += 1;
    }
    assert(bytes@.take(bytes@.len() as int) =~= bytes@);
    out.append("]");
}

/// The number that `c` stands for in base ten.
pub open spec fn digit_value(c: char) -> Option<nat> {
    if '0' <= c <= '9' {
        Some((c as nat - '0' as nat) as nat)
    } else {
        None
    }
}

/// The number that `text` stands for in base ten. There is one exactly for texts of one digit or
/// more.
pub open spec fn decimal_value(text: Seq<char>) -> Option<nat>
    decreases text.len(),
{
    if text.len() == 0 {
        None
    } else {
        match digit_value(text.last()) {
            None => None,
            Some(d) => if text.len() == 1 {
                Some(d)
            } else {
                match decimal_value(text.drop_last()) {
                    None => None,
                    Some(v) => Some(v * 10 + d),
                }
            },
        }
    }
}

proof fn lemma_prefix_value(text: Seq<char>, len: int)
    requires
        0 < len <= text.len(),
        decimal_value(text) is Some,
    ensures
        decimal_value(text.take(len)) matches Some(v) && v <= decimal_value(text)->0,
    decreases text.len(),
{
    if len < text.len() {
        lemma_prefix_value(text.drop_last(), len);
        assert(text.drop_last().take(len) =~= text.take(len));
    } else {
        assert(text.take(len) =~= text);
    }
}

/// Reads a number in base ten.
pub fn parse_decimal(text: &str) -> (r: Option<u64>)
    ensures
        r == (match decimal_value(text@) {
            Some(v) => if v <= u64::MAX {
                Some(v as u64)
            } else {
                None
            },
            None => None,
        }),
{
    let len: usize = text.unicode_len();
    let mut value: u64 = 0;
    let mut i: usize = 0;
    while i < len
        invariant
            len == text@.len(),
            i <= len,
            i == 0 ==> value == 0,
            i > 0 ==> decimal_value(text@.take(i as int)) == Some(value as nat),
        decreases len - i,
    {
        let c = text.get_char(i);
        let ghost next = text@.take(i + 1);
        proof {
            assert(next.last() == c);
            assert(next.drop_last() =~= text@.take(i as int));
            if decimal_value(text@) is Some {
                lemma_prefix_value(text@, i + 1);
            }
        }
        if c < '0' || c > '9' {
            return None;
        }
        let d: u64 = (c as u32 - '0' as u32) as u64;
        assert(decimal_value(next) == Some((value * 10 + d) as nat));
        if value > (u64::MAX - d) / 10 {
            return None;
        }
        value = value * 10 + d;
        i += 1;
    }
    assert(text@.take(len as int) =~= text@);
    if len == 0 {
        return None;
    }
    Some(value)
}

/// Reading back a number that was written in base ten gives the number.
pub proof fn decimal_round_trip(n: nat)
    ensures
        decimal_value(decimal(n)) == Some(n),
    decreases n,
{
    if n >= 10 {
        decimal_round_trip(n / 10);
        assert(decimal(n).drop_last() =~= decimal(n / 10));
        assert(decimal(n / 10).len() > 0);
    }
}

proof fn lemma_next_place(n: nat, base: nat, k: nat)
    requires
        base > 0,
    ensures
        pow(base as int, k) > 0,
        (n / base) as int / pow(base as int, k) == n as int / pow(base as int, k + 1),
{
    lemma_pow_positive(base as int, k);
    lemma_pow_adds(base as int, 1, k);
    lemma_pow1(base as int);
    vstd::arithmetic::div_mod::lemma_div_denominator(n as int, base as int, pow(base as int, k));
}

proof fn lemma_decimal_places(n: nat)
    ensures
        ({
            let text = decimal(n);
            &&& text.len() > 0
            &&& (n as int) < pow(10, text.len())
            &&& text.len() > 1 ==> pow(10, (text.len() - 1) as nat) <= n
            &&& forall|i: int|
                0 <= i < text.len() ==> #[trigger] text[i] == digit(
                    ((n as int / pow(10, (text.len() - 1 - i) as nat)) % 10) as nat,
                )
        }),
    decreases n,
{
    lemma_pow0(10);
    lemma_pow1(10);
    if n >= 10 {
        let text = decimal(n);
        let front = decimal(n / 10);
        lemma_decimal_places(n / 10);
        lemma_pow_adds(10, 1, front.len());
        lemma_pow_adds(10, 1, (front.len() - 1) as nat);
        assert forall|i: int| 0 <= i < text.len() implies #[trigger] text[i] == digit(
            ((n as int / pow(10, (text.len() - 1 - i) as nat)) % 10) as nat,
        ) by {
            if i < front.len() {
                assert(text[i] == front[i]);
                lemma_next_place(n, 10, (front.len() - 1 - i) as nat);
                assert((front.len() - 1 - i) as nat + 1 == (text.len() - 1 - i) as nat);
            } else {
                assert(n as int / pow(10, 0) == n as int);
            }
        }
    }
}

proof fn lemma_hex_places(n: nat, width: nat)
    ensures
        ({
            let text = hex(n, width);
            &&& text.len() == width
            &&& forall|i: int|
                0 <= i < width ==> #[trigger] text[i] == digit(
                    ((n as int / pow(16, (width - 1 - i) as nat)) % 16) as nat,
                )
        }),
    decreases width,
{
    lemma_pow0(16);
    if width > 0 {
        let text = hex(n, width);
        let front = hex(n / 16, (width - 1) as nat);
        lemma_hex_places(n / 16, (width - 1) as nat);
        assert forall|i: int| 0 <= i < width implies #[trigger] text[i] == digit(
            ((n as int / pow(16, (width - 1 - i) as nat)) % 16) as nat,
        ) by {
            if i < front.len() {
                assert(text[i] == front[i]);
                lemma_next_place(n, 16, (front.len() - 1 - i) as nat);
            }
        }
    }
}

/// A number is written behind what is there, in base ten: without leading zeros, and with each of
/// its digits in its place.
pub proof fn decimals_have_their_digits(out: &mut String, n: u64)
    requires
        call_ensures(push_decimal, (out, n), ()),
    ensures
        ({
            let text = final(out)@.skip(old(out)@.len() as int);
            &&& final(out)@ == old(out)@ + text
            &&& text == decimal(n as nat)
            &&& text.len() > 0
            &&& text.len() > 1 ==> text[0] != '0'
            &&& (n as int) < pow(10, text.len())
            &&& forall|i: int|
                0 <= i < text.len() ==> '0' <= (#[trigger] text[i]) <= '9' && text[i] as int
                    - '0' as int == (n as int / pow(10, (text.len() - 1 - i) as nat)) % 10
        }),
{
    let text = final(out)@.skip(old(out)@.len() as int);
    assert(text =~= decimal(n as nat));
    lemma_decimal_places(n as nat);
    if text.len() > 1 {
        let p = pow(10, (text.len() - 1) as nat);
        lemma_pow_adds(10, 1, (text.len() - 1) as nat);
        lemma_pow1(10);
        assert(1 <= n as int / p < 10) by (nonlinear_arith)
            requires
                p <= n as int,
                (n as int) < 10 * p,
                p > 0,
        ;
        assert(text[0] == digit(((n as int / p) % 10) as nat));
    }
}

/// A number is written behind what is there, as sixteen lower-case digits in base sixteen, each in
/// its place.
pub proof fn hex_has_its_digits(out: &mut String, n: u64)
    requires
        call_ensures(push_hex16, (out, n), ()),
    ensures
        ({
            let text = final(out)@.skip(old(out)@.len() as int);
            &&& final(out)@ == old(out)@ + text
            &&& text.len() == 16
            &&& forall|i: int|
                0 <= i < 16 ==> ({
                    let d = (n as int / pow(16, (15 - i) as nat)) % 16;
                    #[trigger] text[i] as int == if d < 10 {
                        '0' as int + d
                    } else {
                        'a' as int + (d - 10)
                    }
                })
        }),
{
    let text = final(out)@.skip(old(out)@.len() as int);
    assert(text =~= hex(n as nat, 16));
    lemma_hex_places(n as nat, 16);
    assert forall|i: int| 0 <= i < 16 implies ({
        let d = (n as int / pow(16, (15 - i) as nat)) % 16;
        #[trigger] text[i] as int == if d < 10 {
            '0' as int + d
        } else {
            'a' as int + (d - 10)
        }
    }) by {
        let d = (n as int / pow(16, (15 - i) as nat)) % 16;
        assert(text[i] == digit(d as nat));
    }
}

proof fn lemma_byte_items_split(a: Seq<u8>, b: Seq<u8>)
    requires
        a.len() > 0,
        b.len() > 0,
    ensures
        byte_items(a + b) == byte_items(a) + ", "@ + byte_items(b),
    decreases b.len(),
{
    assert((a + b).drop_last() =~= a + b.drop_last());
    assert((a + b).last() == b.last());
    if b.len() > 1 {
        lemma_byte_items_split(a, b.drop_last());
        assert(byte_items(a + b) =~= byte_items(a) + ", "@ + byte_items(b));
    } else {
        assert(a + b.drop_last() =~= a);
        assert(b[0] == b.last());
    }
}

/// A list of bytes is written behind what is there, in brackets: what stands for a list that
/// consists of two is what stands for each of them, with a comma and a space between, and a single
/// byte is written in base ten.
pub proof fn lists_are_written_item_by_item(
    out: &mut String,
    bytes: &Vec<u8>,
    a: Seq<u8>,
    b: Seq<u8>,
)
    requires
        call_ensures(push_byte_list, (out, bytes), ()),
        a.len() > 0,
        b.len() > 0,
    ensures
        final(out)@ == old(out)@ + "["@ + byte_items(bytes@) + "]"@,
        bytes@.len() == 0 ==> byte_items(bytes@) == Seq::<char>::empty(),
        byte_items(a + b) == byte_items(a) + ", "@ + byte_items(b),
        a.len() == 1 ==> byte_items(a) == decimal(a[0] as nat),
{
    lemma_byte_items_split(a, b);
    assert(final(out)@ =~= old(out)@ + "["@ + byte_items(bytes@) + "]"@);
}

/// A text is read as a number exactly where it is one or more digits that stand for a number of 64
/// bits, and then as that number.
pub proof fn numbers_are_read_digit_by_digit(text: &str, r: Option<u64>)
    requires
        call_ensures(parse_decimal, (text,), r),
    ensures
        r is Some ==> text@.len() > 0 && forall|i: int|
            0 <= i < text@.len() ==> '0' <= (#[trigger] text@[i]) <= '9',
        r matches Some(n) ==> place_value(text@) == n,
        r is None ==> text@.len() == 0 || (exists|i: int|
            0 <= i < text@.len() && !('0' <= (#[trigger] text@[i]) <= '9')) || place_value(text@)
            > u64::MAX,
{
    lemma_decimal_value(text@);
}

/// The sum of the digits of `text`, each times its power of ten.
pub open spec fn place_value(text: Seq<char>) -> int
    decreases text.len(),
{
    if text.len() == 0 {
        0
    } else {
        (text[0] as int - '0' as int) * pow(10, (text.len() - 1) as nat) + place_value(
            text.drop_first(),
        )
    }
}

proof fn lemma_place_value_push(text: Seq<char>, c: char)
    ensures
        place_value(text.push(c)) == place_value(text) * 10 + (c as int - '0' as int),
    decreases text.len(),
{
    lemma_pow0(10);
    if text.len() == 0 {
        let d = c as int - '0' as int;
        assert(text.push(c).drop_first() =~= Seq::<char>::empty());
        assert(text.push(c)[0] == c);
        assert(place_value(text.push(c)) == d * pow(10, 0) + place_value(Seq::<char>::empty()));
        assert(d * pow(10, 0) == d);
    } else {
        assert(text.push(c)[0] == text[0]);
        lemma_place_value_push(text.drop_first(), c);
        assert(text.push(c).drop_first() =~= text.drop_first().push(c));
        let p = pow(10, (text.len() - 1) as nat);
        let d = text[0] as int - '0' as int;
        lemma_pow_adds(10, 1, (text.len() - 1) as nat);
        lemma_pow1(10);
        assert(d * (10 * p) == (d * p) * 10) by (nonlinear_arith);
    }
}

proof fn lemma_decimal_value(text: Seq<char>)
    ensures
        decimal_value(text) is Some <==> text.len() > 0 && forall|i: int|
            0 <= i < text.len() ==> '0' <= (#[trigger] text[i]) <= '9',
        decimal_value(text) matches Some(v) ==> v == place_value(text),
    decreases text.len(),
{
    if text.len() > 0 {
        let front = text.drop_last();
        lemma_decimal_value(front);
        lemma_place_value_push(front, text.last());
        assert(front.push(text.last()) =~= text);
        assert(text.last() == text[text.len() - 1]);
        if decimal_value(text) is Some {
            assert forall|i: int| 0 <= i < text.len() implies '0' <= (#[trigger] text[i])
                <= '9' by {
                if i < front.len() {
                    assert(front[i] == text[i]);
                }
            }
        }
        if forall|i: int| 0 <= i < text.len() ==> '0' <= (#[trigger] text[i]) <= '9' {
            assert forall|i: int| 0 <= i < front.len() implies '0' <= (#[trigger] front[i])
                <= '9' by {
                assert(front[i] == text[i]);
            }
        }
        if text.len() == 1 {
            assert(front =~= Seq::<char>::empty());
        }
    }
}

} // verus!
