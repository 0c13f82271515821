//! Codecs, numbers and bytes.
use vstd::prelude::*;
use vstd::string::StringSliceAdditionalSpecFns;

use crate::codec;
use crate::codec::Codec;
use crate::hex;
use crate::laws;
use crate::laws::Operation;
use crate::model::PublisherState;
use crate::packet;
use crate::publisher::Publisher;
use crate::session;
use crate::text;

verus! {

/// Opus and AAC are audio, with a media clock of 48 kHz, and H.264 and H.265 are
/// video, with one of 90 kHz. Each has its name in session descriptions.
pub proof fn codecs_are_told_apart(codec: Codec, audio: bool, rate: u32, name: &'static str)
    requires
        call_ensures(Codec::is_audio, (codec,), audio),
        call_ensures(Codec::clock_rate, (codec,), rate),
        call_ensures(Codec::name, (codec,), name),
    ensures
        match codec {
            Codec::H264 => !audio && rate == 90_000 && name@ == "H264"@,
            Codec::H265 => !audio && rate == 90_000 && name@ == "H265"@,
            Codec::Opus => audio && rate == 48_000 && name@ == "opus"@,
            Codec::Aac => audio && rate == 48_000 && name@ == "MPEG4-GENERIC"@,
        },
{
}

/// A name is that of a codec just if it is the codec's own.
pub proof fn name_tells_the_codec(name: &String, r: Option<Codec>)
    requires
        call_ensures(Codec::from_name, (name,), r),
    ensures
        r == Some(Codec::H264) <==> name@ == "H264"@,
        r == Some(Codec::H265) <==> name@ == "H265"@,
        r == Some(Codec::Opus) <==> name@ == "opus"@,
        r == Some(Codec::Aac) <==> name@ == "MPEG4-GENERIC"@,
{
    codec::name_identifies_codec(Codec::H264);
    codec::name_identifies_codec(Codec::H265);
    codec::name_identifies_codec(Codec::Opus);
    codec::name_identifies_codec(Codec::Aac);
}

/// One to four are the numbers of H.264, H.265, Opus and AAC, and zero that of no
/// codec. Any other number is an error that names it.
pub proof fn numbers_stand_for_codecs(
    codec: Codec,
    number: i32,
    value: i32,
    r: Result<Option<Codec>, String>,
)
    requires
        call_ensures(codec::encode_codec, (codec,), number),
        call_ensures(codec::decode_codec, (value,), r),
    ensures
        match codec {
            Codec::H264 => number == 1,
            Codec::H265 => number == 2,
            Codec::Opus => number == 3,
            Codec::Aac => number == 4,
        },
        value == 0 ==> r == Ok::<Option<Codec>, String>(None),
        value == number ==> r == Ok::<Option<Codec>, String>(Some(codec)),
        value < 0 || value > 4 ==> (r matches Err(error) && error@ == "unknown codec "@
            + text::spec_integer_text(value as int)),
        r is Ok ==> 0 <= value <= 4,
{
}

/// The number that decimal digits spell.
pub open spec fn spelled_number(digits: Seq<char>) -> int
    decreases digits.len(),
{
    if digits.len() == 0 {
        0
    } else {
        spelled_number(digits.drop_last()) * 10 + (digits.last() as int - '0' as int)
    }
}

/// Decimal text spells its number, in decimal digits, without a zero in front.
proof fn decimal_text_spells(n: nat)
    ensures
        ({
            let digits = text::spec_natural_text(n);
            &&& digits.len() > 0
            &&& spelled_number(digits) == n
            &&& forall|i: int| 0 <= i < digits.len() ==> '0' <= #[trigger] digits[i] <= '9'
            &&& digits.len() > 1 ==> digits[0] != '0'
            &&& n > 0 ==> digits[0] != '0'
        }),
    decreases n,
{
    let digits = text::spec_natural_text(n);
    if n < 10 {
        assert(digits.drop_last() =~= Seq::empty());
        assert(spelled_number(digits.drop_last()) == 0);
    } else {
        decimal_text_spells(n / 10);
        let leading = text::spec_natural_text(n / 10);
        assert(digits.drop_last() =~= leading);
        assert forall|i: int| 0 <= i < digits.len() implies '0' <= #[trigger] digits[i] <= '9' by {
            if i < leading.len() {
                assert(digits[i] == leading[i]);
            }
        }
        assert(digits[0] == leading[0]);
    }
}

/// An integer in decimal is its digits, which spell it and have no zero in front,
/// behind a minus sign where it is negative.
pub proof fn integer_is_written_in_decimal(v: i32, r: String)
    requires
        call_ensures(text::integer_text, (v,), r),
    ensures
        r@ == text::spec_integer_text(v as int),
        ({
            let digits = if v < 0 {
                r@.skip(1)
            } else {
                r@
            };
            &&& v < 0 ==> r@.len() > 0 && r@[0] == '-'
            &&& digits.len() > 0
            &&& spelled_number(digits) == if v < 0 {
                -v
            } else {
                v as int
            }
            &&& forall|i: int| 0 <= i < digits.len() ==> '0' <= #[trigger] digits[i] <= '9'
            &&& digits.len() > 1 ==> digits[0] != '0'
        }),
{
    if v < 0 {
        decimal_text_spells((-v) as nat);
        assert(r@.skip(1) =~= text::spec_natural_text((-v) as nat));
    } else {
        decimal_text_spells(v as nat);
    }
}

/// The number that a lower-case hexadecimal digit stands for.
pub open spec fn digit_number(digit: char) -> int {
    if '0' <= digit <= '9' {
        digit as int - '0' as int
    } else {
        digit as int - 'a' as int + 10
    }
}

/// Bytes are written with two lower-case hexadecimal digits each, which spell
/// them.
pub proof fn bytes_are_written_in_hexadecimal(data: &[u8], r: String)
    requires
        call_ensures(hex::hex, (data,), r),
    ensures
        r@.len() == 2 * data@.len(),
        forall|i: int|
            0 <= i < r@.len() ==> ('0' <= #[trigger] r@[i] <= '9') || ('a' <= r@[i] <= 'f'),
        forall|i: int|
            0 <= i < data@.len() ==> #[trigger] data@[i] == 16 * digit_number(r@[2 * i])
                + digit_number(r@[2 * i + 1]),
{
    assert forall|i: int| 0 <= i < data@.len() implies #[trigger] data@[i] == 16 * digit_number(
        r@[2 * i],
    ) + digit_number(r@[2 * i + 1]) by {
        assert((2 * i) / 2 == i && (2 * i) % 2 == 0);
        assert((2 * i + 1) / 2 == i && (2 * i + 1) % 2 == 1);
    }
}

/// Bytes that were written in hexadecimal are read back.
pub proof fn hexadecimal_is_read_back(data: &[u8], written: String, text: &str, r: Vec<u8>)
    requires
        call_ensures(hex::hex, (data,), written),
        text@ == written@,
        call_ensures(hex::unhex, (text,), r),
    ensures
        r@ == data@,
{
    hex::unhex_reads_hex(data@, text);
}

/// Each pair of hexadecimal digits is read as the byte that it spells, and a
/// digit without a partner is passed over.
pub proof fn digits_are_read_in_pairs(text: &str, r: Vec<u8>)
    requires
        vstd::utf8::is_ascii_chars(text@),
        forall|i: int|
            0 <= i < text@.len() ==> ('0' <= #[trigger] text@[i] <= '9') || ('a' <= text@[i]
                <= 'f'),
        call_ensures(hex::unhex, (text,), r),
    ensures
        r@.len() == text@.len() / 2,
        forall|i: int|
            0 <= i < r@.len() ==> #[trigger] r@[i] == 16 * digit_number(text@[2 * i])
                + digit_number(text@[2 * i + 1]),
{
    let bytes = text.spec_bytes();
    vstd::utf8::is_ascii_chars_encode_utf8(text@);
    assert(bytes == vstd::utf8::encode_utf8(text@));
    assert forall|i: int| 0 <= i < bytes.len() / 2 implies hex::is_digit_pair(
        #[trigger] bytes[2 * i],
        bytes[2 * i + 1],
    ) by {
        assert(text@[2 * i] as u8 == bytes[2 * i]);
        assert(text@[2 * i + 1] as u8 == bytes[2 * i + 1]);
    }
    assert forall|i: int| 0 <= i < r@.len() implies #[trigger] r@[i] == 16 * digit_number(
        text@[2 * i],
    ) + digit_number(text@[2 * i + 1]) by {
        assert(text@[2 * i] as u8 == bytes[2 * i]);
        assert(text@[2 * i + 1] as u8 == bytes[2 * i + 1]);
        assert(hex::is_digit_pair(bytes[2 * i], bytes[2 * i + 1]));
    }
}

/// A datagram is RTP just if it has room for the header of twelve bytes, is of
/// version two, and is no RTCP packet by its type.
pub proof fn rtp_is_told_from_the_rest(data: &[u8], r: bool)
    requires
        call_ensures(packet::is_rtp, (data,), r),
    ensures
        r <==> data@.len() >= 12 && 128 <= data@[0] < 192 && !(192 <= data@[1] <= 223),
{
}

/// Nanoseconds are counted as they are, up to what 64 bits hold.
pub proof fn nanoseconds_are_counted(time: u128, r: u64)
    requires
        call_ensures(session::nanos, (time,), r),
    ensures
        time <= u64::MAX ==> r == time,
        time > u64::MAX ==> r == u64::MAX,
{
}

/// Whatever is done with a publisher, no frame ever waits that was written under
/// an earlier description, so that no datagram and no time is refused for one.
pub proof fn no_frame_is_ever_stale(
    audio: Option<Codec>,
    video: Option<Codec>,
    initial_bitrate: Option<u64>,
    desired_bitrate: Option<u64>,
    p: Publisher,
    states: Seq<PublisherState>,
    operations: Seq<(Operation, u64)>,
)
    requires
        call_ensures(
            Publisher::new_with_bwe,
            (audio, video, initial_bitrate, desired_bitrate),
            Ok(p),
        ),
        laws::is_life(states, operations),
        states[0] == p@,
    ensures
        states.last().backlog.waiting == 0 || states.last().backlog.described
            == states.last().descriptions.len() as usize,
        states.last().grace == 15_000_000_000,
{
    laws::no_frame_outlives_its_description(states, operations);
    grace_is_kept(states, operations);
}

/// The grace period stays as it is.
proof fn grace_is_kept(states: Seq<PublisherState>, operations: Seq<(Operation, u64)>)
    requires
        laws::is_life(states, operations),
    ensures
        states.last().grace == states[0].grace,
    decreases operations.len(),
{
    if operations.len() > 0 {
        let (before, earlier) = (states.drop_last(), operations.drop_last());
        assert forall|i: int| 0 <= i < earlier.len() implies #[trigger] laws::performed(
            before[i],
            before[i + 1],
            earlier[i].0,
            earlier[i].1,
        ) by {
            assert(laws::performed(states[i], states[i + 1], operations[i].0, operations[i].1));
        }
        grace_is_kept(before, earlier);
        let last = operations.len() - 1;
        assert(laws::performed(
            states[last],
            states[last + 1],
            operations[last].0,
            operations[last].1,
        ));
        laws::operations_are_sound(
            states[last],
            states[last + 1],
            operations[last].0,
            operations[last].1,
        );
    }
}

} // verus!
