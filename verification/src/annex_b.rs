//! Access units of H.264 and H.265 video, framed in the two usual ways.
//!
//! AVCC, as VideoToolbox emits it, puts the length of each NAL unit before it,
//! in four bytes with the most significant first. Annex B puts a start code
//! before each instead.
use vstd::prelude::*;

verus! {

/// The number that four bytes spell, the most significant first.
pub open spec fn big_endian(bytes: Seq<u8>) -> nat {
    (bytes[0] * 0x100_0000 + bytes[1] * 0x1_0000 + bytes[2] * 0x100 + bytes[3]) as nat
}

/// The four bytes of a number, the most significant first.
pub open spec fn big_endian_bytes(n: nat) -> Seq<u8> {
    seq![
        (n / 0x100_0000) as u8,
        (n / 0x1_0000 % 0x100) as u8,
        (n / 0x100 % 0x100) as u8,
        (n % 0x100) as u8,
    ]
}

/// The NAL units of an AVCC access unit. `None` if the data is no such unit: a
/// length is cut short, is zero, or runs past the end.
pub open spec fn avcc_units(data: Seq<u8>) -> Option<Seq<Seq<u8>>>
    decreases data.len(),
{
    if data.len() == 0 {
        Some(Seq::empty())
    } else if data.len() < 4 {
        None
    } else {
        let length = big_endian(data);
        if length == 0 || data.len() < 4 + length {
            None
        } else {
            match avcc_units(data.skip(4 + length as int)) {
                Some(rest) => Some(seq![data.subrange(4, 4 + length as int)] + rest),
                None => None,
            }
        }
    }
}

/// The Annex B start code.
pub open spec fn start_code() -> Seq<u8> {
    seq![0u8, 0u8, 0u8, 1u8]
}

/// The Annex B access unit of some NAL units.
pub open spec fn annex_b(units: Seq<Seq<u8>>) -> Seq<u8>
    decreases units.len(),
{
    if units.len() == 0 {
        Seq::empty()
    } else {
        start_code() + units.first() + annex_b(units.drop_first())
    }
}

/// The AVCC access unit of some NAL units.
pub open spec fn avcc(units: Seq<Seq<u8>>) -> Seq<u8>
    decreases units.len(),
{
    if units.len() == 0 {
        Seq::empty()
    } else {
        big_endian_bytes(units.first().len()) + units.first() + avcc(units.drop_first())
    }
}

/// The Annex B form of an AVCC access unit, or `None` if the data is none.
pub open spec fn converted(data: Seq<u8>) -> Option<Seq<u8>> {
    match avcc_units(data) {
        Some(units) => Some(annex_b(units)),
        None => None,
    }
}

/// Converts an AVCC access unit to Annex B. `None` if the data is no AVCC
/// access unit.
pub fn avcc_to_annex_b(data: &[u8]) -> (r: Option<Vec<u8>>)
    ensures
        match r {
            Some(output) => converted(data@) == Some(output@),
            None => converted(data@) is None,
        },
{
    let mut output: Vec<u8> = Vec::with_capacity(data.len());
    let mut at: usize = 0;
    assert(data@.skip(0) =~= data@);
    while at < data.len()
        invariant
            at <= data.len(),
            converted(data@) == (match converted(data@.skip(at as int)) {
                Some(rest) => Some(output@ + rest),
                None => None,
            }),
        decreases data.len() - at,
    {
        let ghost input = data@.skip(at as int);
        let ghost done = output@;
        let left: usize = data.len() - at;
        if left < 4 {
            return None;
        }
        let length: u32 = (data[at] as u32) * 0x100_0000 + (data[at + 1] as u32) * 0x1_0000 + (
        data[at + 2] as u32) * 0x100 + (data[at + 3] as u32);
        assert(length == big_endian(input));
        if length == 0 || (left as u64) < 4 + length as u64 {
            return None;
        }
        let start: usize = at + 4;
        let end: usize = start + length as usize;
        output.extend_from_slice(&[0, 0, 0, 1]);
        output.extend_from_slice(vstd::slice::slice_subrange(data, start, end));
        at = end;
        proof {
            let unit = input.subrange(4, 4 + length);
            assert(data@.subrange(start as int, end as int) =~= unit);
            assert(output@ =~= done + (start_code() + unit));
            assert(input.skip(4 + length) =~= data@.skip(at as int));
            if let Some(units) = avcc_units(input) {
                let rest = avcc_units(data@.skip(at as int))->0;
                assert(units.first() == unit);
                assert(units.drop_first() =~= rest);
                assert(done + annex_b(units) =~= output@ + annex_b(rest));
            }
        }
    }
    assert(data@.skip(at as int) =~= Seq::empty());
    assert(output@ + annex_b(Seq::empty()) =~= output@);
    Some(output)
}

/// What is sent for a video access unit: its Annex B form if it is an AVCC
/// access unit, and itself if not.
pub open spec fn sent_access_unit(data: Seq<u8>) -> Seq<u8> {
    match converted(data) {
        Some(output) => output,
        None => data,
    }
}

/// The Annex B form of an AVCC access unit, or the access unit as it is.
pub fn access_unit(data: &[u8]) -> (r: Vec<u8>)
    ensures
        r@ == sent_access_unit(data@),
{
    match avcc_to_annex_b(data) {
        Some(output) => output,
        None => vstd::slice::slice_to_vec(data),
    }
}

/// Four bytes spell the number that they are made of.
proof fn big_endian_inverse(n: nat, tail: Seq<u8>)
    requires
        n < 0x1_0000_0000,
    ensures
        big_endian(big_endian_bytes(n) + tail) == n,
{
    let bytes = big_endian_bytes(n) + tail;
    assert(bytes[0] == n / 0x100_0000);
    assert(bytes[1] == n / 0x1_0000 % 0x100);
    assert(bytes[2] == n / 0x100 % 0x100);
    assert(bytes[3] == n % 0x100);
}

/// The NAL units that were framed as AVCC are read back from it. Units are not
/// empty, and their lengths fit in four bytes.
#[verifier::spinoff_prover]
pub proof fn avcc_units_reads_avcc(units: Seq<Seq<u8>>)
    requires
        forall|i: int| 0 <= i < units.len() ==> 0 < (#[trigger] units[i]).len() < 0x1_0000_0000,
    ensures
        avcc_units(avcc(units)) == Some(units),
    decreases units.len(),
{
    if units.len() > 0 {
        let unit = units.first();
        let tail = avcc(units.drop_first());
        let data = avcc(units);
        assert(unit == units[0]);
        assert(data =~= big_endian_bytes(unit.len()) + (unit + tail));
        big_endian_inverse(unit.len(), unit + tail);
        assert(data.subrange(4, 4 + unit.len() as int) =~= unit);
        assert(data.skip(4 + unit.len() as int) =~= tail);
        assert forall|i: int| 0 <= i < units.drop_first().len() implies 0 < (
        #[trigger] units.drop_first()[i]).len() < 0x1_0000_0000 by {
            assert(units.drop_first()[i] == units[i + 1]);
        }
        avcc_units_reads_avcc(units.drop_first());
        assert(seq![unit] + units.drop_first() =~= units);
    } else {
        assert(units =~= Seq::empty());
    }
}

/// Converting NAL units that were framed as AVCC frames the same units as
/// Annex B.
pub proof fn conversion_keeps_units(units: Seq<Seq<u8>>)
    requires
        forall|i: int| 0 <= i < units.len() ==> 0 < (#[trigger] units[i]).len() < 0x1_0000_0000,
    ensures
        converted(avcc(units)) == Some(annex_b(units)),
{
    avcc_units_reads_avcc(units);
}

/// A start code is as long as the length that it replaces, so what is sent for
/// an access unit is as long as the access unit.
pub proof fn conversion_keeps_length(data: Seq<u8>)
    ensures
        sent_access_unit(data).len() == data.len(),
    decreases data.len(),
{
    if data.len() >= 4 {
        let length = big_endian(data);
        if length != 0 && data.len() >= 4 + length {
            let rest = data.skip(4 + length as int);
            conversion_keeps_length(rest);
            if let Some(units) = avcc_units(rest) {
                let all = seq![data.subrange(4, 4 + length as int)] + units;
                assert(all.drop_first() =~= units);
                assert(all.first() =~= data.subrange(4, 4 + length as int));
                assert(annex_b(all) == start_code() + all.first() + annex_b(units));
            }
        }
    }
}

/// Whether all these NAL units are single bytes.
pub open spec fn single_bytes(units: Seq<Seq<u8>>) -> bool {
    forall|i: int| 0 <= i < units.len() ==> (#[trigger] units[i]).len() == 1
}

/// Four bytes are a start code just if they spell the number one.
proof fn start_code_spells_one(data: Seq<u8>)
    requires
        data.len() >= 4,
    ensures
        big_endian(data) == 1 <==> data.take(4) == start_code(),
{
    assert(data.take(4) == start_code() ==> start_code()[0] == data[0] && start_code()[1] == data[1]
        && start_code()[2] == data[2] && start_code()[3] == data[3]);
    if big_endian(data) == 1 {
        assert(data.take(4) =~= start_code());
    }
}

/// Units are single bytes just if the first is one and the others are.
proof fn single_bytes_split(unit: Seq<u8>, units: Seq<Seq<u8>>)
    ensures
        single_bytes(seq![unit] + units) <==> unit.len() == 1 && single_bytes(units),
{
    let all = seq![unit] + units;
    if single_bytes(all) {
        assert(all[0].len() == 1);
        assert forall|i: int| 0 <= i < units.len() implies (#[trigger] units[i]).len() == 1 by {
            assert(units[i] == all[i + 1]);
        }
    }
    if unit.len() == 1 && single_bytes(units) {
        assert forall|i: int| 0 <= i < all.len() implies (#[trigger] all[i]).len() == 1 by {
            if i > 0 {
                assert(all[i] == units[i - 1]);
            }
        }
    }
}

/// Four bytes, a unit and a tail are a given whole just if they are its parts.
proof fn parts_are_whole(head: Seq<u8>, unit: Seq<u8>, tail: Seq<u8>, data: Seq<u8>)
    requires
        head.len() == 4,
        data.len() >= 4 + unit.len(),
        data.subrange(4, 4 + unit.len() as int) == unit,
    ensures
        head + unit + tail == data <==> head == data.take(4) && tail == data.skip(
            4 + unit.len() as int,
        ),
{
    let whole = head + unit + tail;
    assert(whole.take(4) =~= head);
    assert(whole.skip(4 + unit.len() as int) =~= tail);
    if head == data.take(4) && tail == data.skip(4 + unit.len() as int) {
        assert forall|i: int| 0 <= i < data.len() implies whole[i] == data[i] by {
            if i < 4 {
                assert(data.take(4)[i] == data[i]);
            } else if i < 4 + unit.len() {
                assert(data.subrange(4, 4 + unit.len() as int)[i - 4] == data[i]);
            } else {
                assert(data.skip(4 + unit.len() as int)[i - 4 - unit.len()] == data[i]);
            }
        }
        assert(whole =~= data);
    }
}

/// NAL units in Annex B form are the access unit that they were read from just
/// if they are single bytes: only then is each length prefix a start code.
#[verifier::spinoff_prover]
proof fn start_codes_are_lengths(data: Seq<u8>)
    requires
        avcc_units(data) is Some,
    ensures
        annex_b(avcc_units(data)->0) == data <==> single_bytes(avcc_units(data)->0),
    decreases data.len(),
{
    if data.len() == 0 {
        assert(annex_b(Seq::empty()) =~= data);
    } else {
        let length = big_endian(data) as int;
        let unit = data.subrange(4, 4 + length);
        let rest = data.skip(4 + length);
        let units = avcc_units(rest)->0;
        let all = seq![unit] + units;
        start_codes_are_lengths(rest);
        assert(all.first() == unit);
        assert(all.drop_first() =~= units);
        assert(annex_b(all) == start_code() + unit + annex_b(units));
        start_code_spells_one(data);
        single_bytes_split(unit, units);
        parts_are_whole(start_code(), unit, annex_b(units), data);
    }
}

/// An access unit is sent as it is, unless it is an AVCC access unit with a NAL
/// unit of more than one byte, and such a one is not.
pub proof fn what_is_sent_unchanged(data: Seq<u8>)
    ensures
        sent_access_unit(data) == data <==> match avcc_units(data) {
            Some(units) => single_bytes(units),
            None => true,
        },
{
    if avcc_units(data) is Some {
        start_codes_are_lengths(data);
    }
}

/// An Annex B access unit of less than 16 MiB is sent as it is if the second
/// byte of its first NAL unit is not zero, as it never is in H.265.
pub proof fn annex_b_is_sent_unchanged(units: Seq<Seq<u8>>)
    requires
        units.len() > 0,
        units[0].len() >= 2,
        units[0][1] != 0,
        annex_b(units).len() < 0x100_0000,
    ensures
        sent_access_unit(annex_b(units)) == annex_b(units),
{
    let data = annex_b(units);
    assert(data[0] == 0 && data[1] == 0 && data[2] == 0 && data[3] == 1);
    assert(data[5] == units[0][1]);
    assert(big_endian(data) == 1);
    let rest = data.skip(5);
    assert(rest[0] == data[5]);
    if rest.len() >= 4 {
        assert(big_endian(rest) >= 0x100_0000);
    }
    assert(avcc_units(rest) is None);
    assert(avcc_units(data) is None);
}

} // verus!
