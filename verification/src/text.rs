//! The text of numbers and of bytes.

use vstd::prelude::*;

verus! {

/// The lower-case hexadecimal digit of `n`, for `n` below 16.
pub open spec fn hex_digit(n: nat) -> char {
    if n == 0 {
        '0'
    } else if n == 1 {
        '1'
    } else if n == 2 {
        '2'
    } else if n == 3 {
        '3'
    } else if n == 4 {
        '4'
    } else if n == 5 {
        '5'
    } else if n == 6 {
        '6'
    } else if n == 7 {
        '7'
    } else if n == 8 {
        '8'
    } else if n == 9 {
        '9'
    } else if n == 10 {
        'a'
    } else if n == 11 {
        'b'
    } else if n == 12 {
        'c'
    } else if n == 13 {
        'd'
    } else if n == 14 {
        'e'
    } else {
        'f'
    }
}

/// The upper-case hexadecimal digit of `n`, for `n` below 16.
pub open spec fn hex_digit_upper(n: nat) -> char {
    if n == 10 {
        'A'
    } else if n == 11 {
        'B'
    } else if n == 12 {
        'C'
    } else if n == 13 {
        'D'
    } else if n == 14 {
        'E'
    } else if n == 15 {
        'F'
    } else {
        hex_digit(n)
    }
}

/// The number that the hexadecimal digit `c` stands for, in either case.
pub open spec fn hex_digit_value(c: char) -> Option<nat> {
    if c == '0' {
        Some(0)
    } else if c == '1' {
        Some(1)
    } else if c == '2' {
        Some(2)
    } else if c == '3' {
        Some(3)
    } else if c == '4' {
        Some(4)
    } else if c == '5' {
        Some(5)
    } else if c == '6' {
        Some(6)
    } else if c == '7' {
        Some(7)
    } else if c == '8' {
        Some(8)
    } else if c == '9' {
        Some(9)
    } else if c == 'a' || c == 'A' {
        Some(10)
    } else if c == 'b' || c == 'B' {
        Some(11)
    } else if c == 'c' || c == 'C' {
        Some(12)
    } else if c == 'd' || c == 'D' {
        Some(13)
    } else if c == 'e' || c == 'E' {
        Some(14)
    } else if c == 'f' || c == 'F' {
        Some(15)
    } else {
        None
    }
}

/// The last `width` hexadecimal digits of `v`, the most significant first.
pub open spec fn hex_text(v: nat, width: nat, upper: bool) -> Seq<char>
    decreases width,
{
    if width == 0 {
        Seq::empty()
    } else {
        hex_text(v / 16, (width - 1) as nat, upper).push(
            if upper {
                hex_digit_upper(v % 16)
            } else {
                hex_digit(v % 16)
            },
        )
    }
}

/// The decimal digits of `v`, the most significant first, without leading
/// zeros.
pub open spec fn decimal_text(v: nat) -> Seq<char>
    decreases v,
{
    if v < 10 {
        seq![hex_digit(v)]
    } else {
        decimal_text(v / 10).push(hex_digit(v % 10))
    }
}

/// The decimal text of `v`, with a minus sign where it is negative.
pub open spec fn integer_text(v: int) -> Seq<char> {
    if v < 0 {
        seq!['-'] + decimal_text((-v) as nat)
    } else {
        decimal_text(v as nat)
    }
}

/// The decimal digits of `v`, with zeros in front of them where they are
/// fewer than `width`.
pub open spec fn padded_text(v: nat, width: nat) -> Seq<char> {
    let digits = decimal_text(v);
    if digits.len() < width {
        Seq::new((width - digits.len()) as nat, |i: int| '0') + digits
    } else {
        digits
    }
}

/// Two lower-case hexadecimal digits for each byte of `data`, in order.
pub open spec fn hex_bytes(data: Seq<u8>) -> Seq<char>
    decreases data.len(),
{
    if data.len() == 0 {
        Seq::empty()
    } else {
        hex_bytes(data.drop_last()) + hex_text(data.last() as nat, 2, false)
    }
}

/// The bytes that `text` spells with two hexadecimal digits each, if it is
/// made of such pairs.
pub open spec fn unhex_bytes(text: Seq<char>) -> Option<Seq<u8>>
    decreases text.len(),
{
    if text.len() == 0 {
        Some(Seq::empty())
    } else if text.len() < 2 {
        None
    } else {
        let n = text.len() as int;
        match (
            unhex_bytes(text.subrange(0, n - 2)),
            hex_digit_value(text[n - 2]),
            hex_digit_value(text[n - 1]),
        ) {
            (Some(head), Some(high), Some(low)) => Some(head.push((high * 16 + low) as u8)),
            _ => None,
        }
    }
}

/// Where the last colon of `text` is, or -1 where it has none.
pub open spec fn last_colon(text: Seq<char>) -> int
    decreases text.len(),
{
    if text.len() == 0 {
        -1
    } else if text.last() == ':' {
        text.len() - 1
    } else {
        last_colon(text.drop_last())
    }
}

/// What lies between the last colon of `text` and its last character.
pub open spec fn dump_payload(text: Seq<char>) -> Seq<char> {
    text.subrange(last_colon(text) + 1, text.len() - 1)
}

/// The text of a dump: the name and the hexadecimal digits of the bytes,
/// with a colon between them and angle brackets around them.
pub open spec fn dump_text(name: Seq<char>, data: Seq<u8>) -> Seq<char> {
    seq!['<'] + name + seq![':'] + hex_bytes(data) + seq!['>']
}

/// The last colon of a text is the one after which no colon comes.
pub proof fn lemma_last_colon(head: Seq<char>, tail: Seq<char>)
    requires
        !tail.contains(':'),
    ensures
        last_colon(head + seq![':'] + tail) == head.len(),
    decreases tail.len(),
{
    let text = head + seq![':'] + tail;
    if tail.len() == 0 {
        assert(text.last() == ':');
    } else {
        assert(tail.contains(tail.last()));
        assert(text.last() == tail.last());
        assert(text.drop_last() =~= head + seq![':'] + tail.drop_last());
        assert(!tail.drop_last().contains(':')) by {
            if tail.drop_last().contains(':') {
                let i = choose|i: int| 0 <= i < tail.drop_last().len() && tail.drop_last()[i] == ':';
                assert(tail[i] == ':');
            }
        }
        lemma_last_colon(head, tail.drop_last());
    }
}

/// The bytes of a dump can be read back out of its text, whatever the
/// name and the bytes are.
pub proof fn lemma_dump_round_trip(name: Seq<char>, data: Seq<u8>)
    ensures
        unhex_bytes(dump_payload(dump_text(name, data))) == Some(data),
{
    let head = seq!['<'] + name;
    let tail = hex_bytes(data) + seq!['>'];
    let text = dump_text(name, data);
    lemma_hex_bytes_len(data);
    assert(!tail.contains(':')) by {
        if tail.contains(':') {
            let i = choose|i: int| 0 <= i < tail.len() && tail[i] == ':';
            if i < hex_bytes(data).len() {
                assert(hex_bytes(data).contains(hex_bytes(data)[i]));
            }
        }
    }
    assert(text =~= head + seq![':'] + tail);
    lemma_last_colon(head, tail);
    assert(dump_payload(text) =~= hex_bytes(data));
    lemma_hex_round_trip(data);
}

/// A hexadecimal digit reads back as its number.
pub proof fn lemma_hex_digit_value(n: nat)
    requires
        n < 16,
    ensures
        hex_digit_value(hex_digit(n)) == Some(n),
        hex_digit_value(hex_digit_upper(n)) == Some(n),
        hex_digit(n) != ':',
{
}

/// The two digits of a byte.
pub proof fn lemma_hex_text_2(b: u8)
    ensures
        hex_text(b as nat, 2, false) == seq![
            hex_digit((b / 16) as nat),
            hex_digit((b % 16) as nat),
        ],
{
    reveal_with_fuel(hex_text, 3);
    assert(hex_text(b as nat, 2, false) =~= seq![
        hex_digit((b / 16) as nat),
        hex_digit((b % 16) as nat),
    ]);
}

/// The text of bytes has two characters for each byte and no colon.
pub proof fn lemma_hex_bytes_len(data: Seq<u8>)
    ensures
        hex_bytes(data).len() == 2 * data.len(),
        !hex_bytes(data).contains(':'),
    decreases data.len(),
{
    if data.len() > 0 {
        lemma_hex_bytes_len(data.drop_last());
        lemma_hex_text_2(data.last());
        lemma_hex_digit_value((data.last() / 16) as nat);
        lemma_hex_digit_value((data.last() % 16) as nat);
        let head = hex_bytes(data.drop_last());
        let tail = hex_text(data.last() as nat, 2, false);
        assert forall|i: int| 0 <= i < hex_bytes(data).len() implies hex_bytes(data)[i] != ':' by {
            if i < head.len() {
                assert(head.contains(head[i]));
            }
        }
    }
}

/// Bytes written as hexadecimal text read back as the same bytes, whatever
/// they are.
pub proof fn lemma_hex_round_trip(data: Seq<u8>)
    ensures
        unhex_bytes(hex_bytes(data)) == Some(data),
    decreases data.len(),
{
    if data.len() > 0 {
        let head = hex_bytes(data.drop_last());
        let b = data.last();
        let text = hex_bytes(data);
        lemma_hex_round_trip(data.drop_last());
        lemma_hex_bytes_len(data.drop_last());
        lemma_hex_text_2(b);
        lemma_hex_digit_value((b / 16) as nat);
        lemma_hex_digit_value((b % 16) as nat);
        let n = text.len() as int;
        assert(text.subrange(0, n - 2) =~= head);
        assert(text[n - 2] == hex_digit((b / 16) as nat));
        assert(text[n - 1] == hex_digit((b % 16) as nat));
        assert((b / 16) * 16 + b % 16 == b);
        assert(data.drop_last().push(b) =~= data);
    }
}

/// `String::push`: the string with the character `c` after what it held.
#[verifier::external_body]
pub(crate) fn push_char(s: &mut String, c: char)
    ensures
        final(s)@ == old(s)@.push(c),
{
    s.push(c)
}

/// The lower-case or upper-case hexadecimal digit of `n`.
pub fn hex_char(n: u8, upper: bool) -> (c: char)
    requires
        n < 16,
    ensures
        c == if upper {
            hex_digit_upper(n as nat)
        } else {
            hex_digit(n as nat)
        },
{
    match n {
        0 => '0',
        1 => '1',
        2 => '2',
        3 => '3',
        4 => '4',
        5 => '5',
        6 => '6',
        7 => '7',
        8 => '8',
        9 => '9',
        10 => if upper {
            'A'
        } else {
            'a'
        },
        11 => if upper {
            'B'
        } else {
            'b'
        },
        12 => if upper {
            'C'
        } else {
            'c'
        },
        13 => if upper {
            'D'
        } else {
            'd'
        },
        14 => if upper {
            'E'
        } else {
            'e'
        },
        _ => if upper {
            'F'
        } else {
            'f'
        },
    }
}

/// Appends the last `width` hexadecimal digits of `v` to `s`.
pub fn push_hex(s: &mut String, v: u64, width: u8, upper: bool)
    ensures
        final(s)@ == old(s)@ + hex_text(v as nat, width as nat, upper),
    decreases width,
{
    if width > 0 {
        push_hex(s, v / 16, width - 1, upper);
        push_char(s, hex_char((v % 16) as u8, upper));
        assert(s@ =~= old(s)@ + hex_text(v as nat, width as nat, upper));
    } else {
        assert(s@ =~= old(s)@ + hex_text(v as nat, width as nat, upper));
    }
}

/// Appends the decimal digits of `v` to `s`.
pub fn push_decimal(s: &mut String, v: u128)
    ensures
        final(s)@ == old(s)@ + decimal_text(v as nat),
    decreases v,
{
    if v >= 10 {
        push_decimal(s, v / 10);
    }
    push_char(s, hex_char((v % 10) as u8, false));
    assert(s@ =~= old(s)@ + decimal_text(v as nat));
}

/// Appends the decimal text of `v` to `s`, with a minus sign where it is
/// negative.
pub fn push_integer(s: &mut String, v: i128)
    ensures
        final(s)@ == old(s)@ + integer_text(v as int),
{
    if v < 0 {
        push_char(s, '-');
        let magnitude: u128 = if v == i128::MIN {
            0x8000_0000_0000_0000_0000_0000_0000_0000
        } else {
            (-v) as u128
        };
        push_decimal(s, magnitude);
        assert(s@ =~= old(s)@ + integer_text(v as int));
    } else {
        push_decimal(s, v as u128);
    }
}

/// The number of decimal digits of `v`.
pub fn decimal_len(v: u128) -> (n: u8)
    ensures
        n == decimal_text(v as nat).len(),
        1 <= n <= 39,
    decreases v,
{
    if v >= 10 {
        let rest: u8 = decimal_len(v / 10);
        proof {
            lemma_decimal_len_bound(v);
        }
        rest + 1
    } else {
        1
    }
}

/// A number below ten to the power of 39 has at most 39 digits.
proof fn lemma_decimal_len_bound(v: u128)
    ensures
        decimal_text(v as nat).len() <= 39,
{
    reveal_with_fuel(decimal_text, 40);
    assert(v / 10 / 10 / 10 / 10 / 10 / 10 / 10 / 10 / 10 / 10 / 10 / 10 / 10 / 10 / 10 / 10 / 10
        / 10 / 10 / 10 / 10 / 10 / 10 / 10 / 10 / 10 / 10 / 10 / 10 / 10 / 10 / 10 / 10 / 10 / 10
        / 10 / 10 / 10 < 10);
}

/// Appends the decimal digits of `v` to `s`, with zeros in front of them
/// where they are fewer than `width`.
pub fn push_padded(s: &mut String, v: u128, width: u8)
    ensures
        final(s)@ == old(s)@ + padded_text(v as nat, width as nat),
{
    let digits: u8 = decimal_len(v);
    let mut i: u8 = digits;
    while i < width
        invariant
            digits <= i,
            digits >= width ==> i == digits,
            digits < width ==> i <= width,
            s@ == old(s)@ + Seq::new((i - digits) as nat, |k: int| '0'),
        decreases width - i,
    {
        push_char(s, '0');
        i = i + 1;
        assert(s@ =~= old(s)@ + Seq::new((i - digits) as nat, |k: int| '0'));
    }
    let ghost zeros = Seq::new((i - digits) as nat, |k: int| '0');
    push_decimal(s, v);
    proof {
        if digits < width {
            assert(padded_text(v as nat, width as nat) == zeros + decimal_text(v as nat));
        } else {
            assert(zeros =~= Seq::<char>::empty());
            assert(padded_text(v as nat, width as nat) == decimal_text(v as nat));
        }
        assert(s@ =~= old(s)@ + padded_text(v as nat, width as nat));
    }
}

/// Appends two lower-case hexadecimal digits for each byte of `data` to `s`.
pub fn push_hex_bytes(s: &mut String, data: &[u8])
    ensures
        final(s)@ == old(s)@ + hex_bytes(data@),
{
    let mut i: usize = 0;
    assert(s@ =~= old(s)@ + hex_bytes(data@.subrange(0, 0)));
    while i < data.len()
        invariant
            i <= data@.len(),
            s@ == old(s)@ + hex_bytes(data@.subrange(0, i as int)),
        decreases data@.len() - i,
    {
        let ghost before = s@;
        push_hex(s, data[i] as u64, 2, false);
        proof {
            let next = data@.subrange(0, i + 1);
            assert(next.drop_last() =~= data@.subrange(0, i as int));
            assert(next.last() == data@[i as int]);
            assert(s@ =~= old(s)@ + hex_bytes(next));
        }
        i = i + 1;
    }
    assert(data@.subrange(0, i as int) =~= data@);
}

} // verus!
