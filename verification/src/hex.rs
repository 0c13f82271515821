//! Hexadecimal text.
use vstd::prelude::*;
use vstd::string::StringSliceAdditionalSpecFns;

verus! {

/// The lower-case hexadecimal digit of `d`.
pub open spec fn spec_hex_digit(d: int) -> char {
    if 0 <= d < 10 {
        ('0' as int + d) as char
    } else {
        ('a' as int + d - 10) as char
    }
}

/// The lower-case hexadecimal text of some bytes: two digits for each, the
/// upper half first.
pub open spec fn hex_text(data: Seq<u8>) -> Seq<char> {
    Seq::new(
        2 * data.len(),
        |i: int|
            spec_hex_digit(
                if i % 2 == 0 {
                    data[i / 2] as int / 16
                } else {
                    data[i / 2] as int % 16
                },
            ),
    )
}

/// The lower-case hexadecimal digit of `d`.
fn hex_digit(d: u8) -> (r: &'static str)
    requires
        d < 16,
    ensures
        r@ == seq![spec_hex_digit(d as int)],
{
    proof {
        reveal_strlit("0");
        reveal_strlit("1");
        reveal_strlit("2");
        reveal_strlit("3");
        reveal_strlit("4");
        reveal_strlit("5");
        reveal_strlit("6");
        reveal_strlit("7");
        reveal_strlit("8");
        reveal_strlit("9");
        reveal_strlit("a");
        reveal_strlit("b");
        reveal_strlit("c");
        reveal_strlit("d");
        reveal_strlit("e");
        reveal_strlit("f");
    }
    let r = match d {
        0 => "0",
        1 => "1",
        2 => "2",
        3 => "3",
        4 => "4",
        5 => "5",
        6 => "6",
        7 => "7",
        8 => "8",
        9 => "9",
        10 => "a",
        11 => "b",
        12 => "c",
        13 => "d",
        14 => "e",
        _ => "f",
    };
    assert(r@ =~= seq![spec_hex_digit(d as int)]);
    r
}

/// Writes bytes as lower-case hexadecimal text.
pub fn hex(data: &[u8]) -> (r: String)
    ensures
        r@ == hex_text(data@),
{
    let mut r = String::new();
    let mut i: usize = 0;
    while i < data.len()
        invariant
            i <= data.len(),
            r@ =~= hex_text(data@.take(i as int)),
        decreases data.len() - i,
    {
        let byte = data[i];
        assert(byte >> 4 == byte / 16 && byte & 15 == byte % 16) by (bit_vector);
        r.append(hex_digit(byte >> 4));
        r.append(hex_digit(byte & 15));
        i = i + 1;
    }
    assert(data@.take(i as int) =~= data@);
    r
}

/// The number that a byte stands for as a digit: the decimal digits count from
/// `0`, what comes after them counts on from `a`.
pub open spec fn digit_value(byte: u8) -> int {
    if byte <= 0x39 {
        byte - 0x30
    } else {
        byte - 0x61 + 10
    }
}

/// Whether two bytes stand for a number of one byte: neither is below its row
/// of digits, the first is no more than a half byte, and both together are no
/// more than a byte.
pub open spec fn is_digit_pair(first: u8, second: u8) -> bool {
    &&& 0 <= digit_value(first) < 16
    &&& 0 <= digit_value(second)
    &&& first > 0x39 ==> first >= 0x61
    &&& second > 0x39 ==> second >= 0x61
    &&& digit_value(first) * 16 + digit_value(second) <= 255
}

/// Whether each full pair of bytes stands for a number of one byte.
pub open spec fn is_hex(bytes: Seq<u8>) -> bool {
    forall|i: int|
        0 <= i < bytes.len() / 2 ==> is_digit_pair(
            #[trigger] bytes[2 * i],
            bytes[2 * i + 1],
        )
}

/// The bytes that hexadecimal text stands for. A last digit without a partner
/// counts for nothing.
pub open spec fn unhex_bytes(bytes: Seq<u8>) -> Seq<u8> {
    Seq::new(
        bytes.len() / 2,
        |i: int| (digit_value(bytes[2 * i]) * 16 + digit_value(bytes[2 * i + 1])) as u8,
    )
}

/// The number that a byte stands for as a digit.
fn digit(byte: u8) -> (r: u8)
    requires
        0 <= digit_value(byte) <= 255,
        byte > 0x39 ==> byte >= 0x61,
    ensures
        r == digit_value(byte),
{
    if byte <= 0x39 {
        byte - 0x30
    } else {
        byte - 0x61 + 10
    }
}

/// Reads the bytes that hexadecimal text stands for.
pub fn unhex(text: &str) -> (r: Vec<u8>)
    requires
        is_hex(text.spec_bytes()),
    ensures
        r@ == unhex_bytes(text.spec_bytes()),
{
    let bytes = text.as_bytes();
    let mut r: Vec<u8> = Vec::new();
    let mut i: usize = 0;
    while i < bytes.len() / 2
        invariant
            i <= bytes.len() / 2,
            bytes@ == text.spec_bytes(),
            is_hex(bytes@),
            r@ =~= unhex_bytes(bytes@).take(i as int),
        decreases bytes.len() / 2 - i,
    {
        assert(is_digit_pair(bytes@[2 * i as int], bytes@[2 * i + 1]));
        let upper = digit(bytes[2 * i]);
        let lower = digit(bytes[2 * i + 1]);
        r.push(upper * 16 + lower);
        i = i + 1;
    }
    assert(unhex_bytes(bytes@).take(i as int) =~= unhex_bytes(bytes@));
    r
}

/// What was written as hexadecimal text can be read back, and gives the same
/// bytes.
pub proof fn unhex_reads_hex(data: Seq<u8>, text: &str)
    requires
        text@ == hex_text(data),
    ensures
        is_hex(text.spec_bytes()),
        unhex_bytes(text.spec_bytes()) == data,
{
    broadcast use vstd::string::is_ascii_spec_bytes;

    assert(vstd::string::is_ascii(text)) by {
        assert forall|i: int| 0 <= i < text@.len() implies (#[trigger] text@[i] as u32) < 0x80 by {}
    }
    let bytes = text.spec_bytes();
    assert(bytes =~= Seq::new(text@.len(), |i: int| text@[i] as u8));
    assert forall|i: int| 0 <= i < bytes.len() / 2 implies is_digit_pair(
        #[trigger] bytes[2 * i],
        bytes[2 * i + 1],
    ) && digit_value(bytes[2 * i]) * 16 + digit_value(bytes[2 * i + 1]) == data[i] by {
        assert((2 * i) / 2 == i && (2 * i) % 2 == 0);
        assert((2 * i + 1) / 2 == i && (2 * i + 1) % 2 == 1);
    }
    assert(unhex_bytes(bytes) =~= data);
}

} // verus!
