//! Sending frames, and the bit rate to aim at.
use vstd::prelude::*;

use crate::annex_b;
use crate::codec::Codec;
use crate::model;
use crate::model::PublisherState;
use crate::promises;
use crate::promises::{drains, reads_clock};
use crate::publisher;
use crate::publisher::Publisher;
use crate::session;
use crate::session::{Backlog, Exchange, Payload};

verus! {

/// The bit rate that a session aims at is the one that it is told to, in bits
/// per second, or five gigabits where it is told more than that. Nothing else
/// changes.
pub proof fn desired_bit_rate_is_aimed_at(p: &mut Publisher, bitrate: u64)
    requires
        call_ensures(Publisher::set_desired_bitrate, (p, bitrate), ()),
    ensures
        bitrate <= 5_000_000_000 ==> final(p)@ == (PublisherState {
            exchanges: old(p)@.exchanges.push(Exchange::SetDesiredBitrate(bitrate)),
            ..old(p)@
        }),
        bitrate > 5_000_000_000 ==> final(p)@ == (PublisherState {
            exchanges: old(p)@.exchanges.push(Exchange::SetDesiredBitrate(5_000_000_000)),
            ..old(p)@
        }),
{
}

/// The bit rate that a session takes is no other than was asked for, unless that
/// is more than five gigabits.
pub proof fn bit_rate_is_capped(bitrate: u64, r: u64)
    requires
        call_ensures(session::attainable, (bitrate,), r),
    ensures
        bitrate <= 5_000_000_000 ==> r == bitrate,
        bitrate > 5_000_000_000 ==> r == 5_000_000_000,
{
}

/// Four bytes are those of the number that they spell.
proof fn four_bytes_are_the_length(data: Seq<u8>)
    requires
        data.len() >= 4,
    ensures
        annex_b::big_endian_bytes(annex_b::big_endian(data)) == data.take(4),
        annex_b::big_endian(data) < 0x1_0000_0000,
{
    let (a, b, c, d) = (data[0] as int, data[1] as int, data[2] as int, data[3] as int);
    let length = annex_b::big_endian(data) as int;
    assert(length == a * 0x100_0000 + b * 0x1_0000 + c * 0x100 + d);
    assert(length / 0x100_0000 == a);
    assert(length / 0x1_0000 == a * 0x100 + b);
    assert(length / 0x1_0000 % 0x100 == b);
    assert(length / 0x100 == a * 0x1_0000 + b * 0x100 + c);
    assert(length / 0x100 % 0x100 == c);
    assert(length % 0x100 == d);
    assert(annex_b::big_endian_bytes(length as nat) =~= data.take(4));
}

/// An AVCC access unit is the units that are read from it: none of them is empty
/// and each has a length of four bytes.
proof fn units_make_up_the_access_unit(data: Seq<u8>)
    requires
        annex_b::avcc_units(data) is Some,
    ensures
        ({
            let units = annex_b::avcc_units(data)->0;
            &&& annex_b::avcc(units) == data
            &&& forall|i: int|
                0 <= i < units.len() ==> 0 < (#[trigger] units[i]).len() < 0x1_0000_0000
        }),
    decreases data.len(),
{
    let units = annex_b::avcc_units(data)->0;
    if data.len() > 0 {
        let length = annex_b::big_endian(data) as int;
        let rest = data.skip(4 + length);
        units_make_up_the_access_unit(rest);
        let tail = annex_b::avcc_units(rest)->0;
        let unit = data.subrange(4, 4 + length);
        assert(units.first() == unit);
        assert(units.drop_first() =~= tail);
        four_bytes_are_the_length(data);
        assert(annex_b::avcc(units) == annex_b::big_endian_bytes(unit.len()) + unit
            + annex_b::avcc(tail));
        assert(data.take(4) + unit + rest =~= data);
        assert forall|i: int| 0 <= i < units.len() implies 0 < (#[trigger] units[i]).len()
            < 0x1_0000_0000 by {
            if i > 0 {
                assert(units[i] == tail[i - 1]);
            }
        }
    } else {
        assert(annex_b::avcc(units) =~= data);
    }
}

/// Converting is what framing the same units anew would be: what comes of an
/// AVCC access unit is the Annex B access unit of the same units, and nothing
/// comes of what is no AVCC access unit. Either way no byte is lost.
pub proof fn conversion_reframes_the_units(
    data: &[u8],
    converted: Option<Vec<u8>>,
    sent: Vec<u8>,
    units: Seq<Seq<u8>>,
)
    requires
        call_ensures(annex_b::avcc_to_annex_b, (data,), converted),
        call_ensures(annex_b::access_unit, (data,), sent),
    ensures
        data@ == annex_b::avcc(units) && (forall|i: int|
            0 <= i < units.len() ==> 0 < (#[trigger] units[i]).len() < 0x1_0000_0000) ==> (
        converted matches Some(output) && output@ == annex_b::annex_b(units)) && sent@
            == annex_b::annex_b(units),
        (forall|others: Seq<Seq<u8>>|
            (forall|i: int|
                0 <= i < others.len() ==> 0 < (#[trigger] others[i]).len() < 0x1_0000_0000)
                ==> #[trigger] annex_b::avcc(others) != data@) ==> converted is None && sent@
            == data@,
        sent@.len() == data@.len(),
        converted matches Some(output) ==> output@.len() == data@.len(),
{
    annex_b::conversion_keeps_length(data@);
    if data@ == annex_b::avcc(units) && (forall|i: int|
        0 <= i < units.len() ==> 0 < (#[trigger] units[i]).len() < 0x1_0000_0000) {
        annex_b::conversion_keeps_units(units);
    }
    if annex_b::avcc_units(data@) is Some {
        units_make_up_the_access_unit(data@);
    }
}

/// Framing as Annex B puts the start code, three zeros and a one, before a unit,
/// and framing as AVCC its length, the most significant byte first.
pub proof fn framing_puts_four_bytes_first(unit: Seq<u8>)
    ensures
        annex_b::annex_b(seq![unit]) =~= seq![0u8, 0u8, 0u8, 1u8] + unit,
        unit.len() < 0x1_0000_0000 ==> {
            let framed = annex_b::avcc(seq![unit]);
            &&& framed.len() == unit.len() + 4
            &&& framed.skip(4) =~= unit
            &&& unit.len() == framed[0] * 0x100_0000 + framed[1] * 0x1_0000 + framed[2] * 0x100
                + framed[3]
        },
        annex_b::annex_b(Seq::empty()).len() == 0,
        annex_b::avcc(Seq::empty()).len() == 0,
{
    let one = seq![unit];
    assert(one.drop_first() =~= Seq::empty());
    assert(annex_b::annex_b(one.drop_first()) =~= Seq::empty());
    assert(annex_b::avcc(one.drop_first()) =~= Seq::empty());
    assert(annex_b::annex_b(one) =~= annex_b::start_code() + unit);
    assert(annex_b::avcc(one) =~= annex_b::big_endian_bytes(unit.len()) + unit);
    if unit.len() < 0x1_0000_0000 {
        let framed = annex_b::avcc(one);
        assert(framed.skip(4) =~= unit);
        let n = unit.len() as int;
        assert(framed[0] == n / 0x100_0000);
        assert(framed[1] == n / 0x1_0000 % 0x100);
        assert(framed[2] == n / 0x100 % 0x100);
        assert(framed[3] == n % 0x100);
    }
}

/// Both framings put one unit after the other.
pub proof fn framing_goes_unit_by_unit(first: Seq<Seq<u8>>, second: Seq<Seq<u8>>)
    ensures
        annex_b::annex_b(first + second) == annex_b::annex_b(first) + annex_b::annex_b(second),
        annex_b::avcc(first + second) == annex_b::avcc(first) + annex_b::avcc(second),
    decreases first.len(),
{
    if first.len() == 0 {
        assert(first + second =~= second);
        assert(annex_b::annex_b(first) + annex_b::annex_b(second) =~= annex_b::annex_b(second));
        assert(annex_b::avcc(first) + annex_b::avcc(second) =~= annex_b::avcc(second));
    } else {
        let rest = first.drop_first();
        framing_goes_unit_by_unit(rest, second);
        let all = first + second;
        assert(all.first() == first.first());
        assert(all.drop_first() =~= rest + second);
        let (start, length) = (
            annex_b::start_code() + first.first(),
            annex_b::big_endian_bytes(first.first().len()) + first.first(),
        );
        assert(start + (annex_b::annex_b(rest) + annex_b::annex_b(second)) =~= start
            + annex_b::annex_b(rest) + annex_b::annex_b(second));
        assert(length + (annex_b::avcc(rest) + annex_b::avcc(second)) =~= length + annex_b::avcc(
            rest,
        ) + annex_b::avcc(second));
    }
}

/// A frame is sent at the time that is given or that the clock reads.
pub proof fn frame_is_sent(
    p: &mut Publisher,
    codec: Codec,
    media_time: u64,
    data: &[u8],
    now: u64,
    r: Result<(), String>,
    q: &mut Publisher,
    by_clock: Result<(), String>,
)
    requires
        call_ensures(Publisher::send_at, (p, codec, media_time, data, now), r),
        call_ensures(Publisher::send, (q, codec, media_time, data), by_clock),
    ensures
        model::sent(old(p)@, final(p)@, codec, media_time, data@, now, r),
        exists|read: PublisherState, at: u64| #[trigger]
            model::sent(read, final(q)@, codec, media_time, data@, at, by_clock) && reads_clock(
                old(q)@,
                read,
                at,
            ),
{
    let reading = choose|reading: u128| #[trigger]
        model::sent(
            old(q)@.at(reading),
            final(q)@,
            codec,
            media_time,
            data@,
            session::spec_nanos(reading),
            by_clock,
        );
    promises::clock_is_read(old(q)@, reading);
}

/// The first payload type of a codec is that of the first entry under the
/// codec's name.
pub proof fn first_payload_of_the_codec(
    payloads: &Vec<Payload>,
    codec: Codec,
    r: Option<u8>,
    i: int,
)
    requires
        call_ensures(publisher::find_payload, (payloads, codec), r),
    ensures
        ({
            let name = match codec {
                Codec::H264 => "H264"@,
                Codec::H265 => "H265"@,
                Codec::Opus => "opus"@,
                Codec::Aac => "MPEG4-GENERIC"@,
            };
            &&& r == model::payload_for(payloads@, codec)
            &&& 0 <= i < payloads@.len() && payloads@[i].codec@ == name && (forall|j: int|
                0 <= j < i ==> (#[trigger] payloads@[j]).codec@ != name) ==> r == Some(
                payloads@[i].payload_type,
            )
            &&& (forall|j: int|
                0 <= j < payloads@.len() ==> (#[trigger] payloads@[j]).codec@ != name) ==> r is None
        }),
{
    if 0 <= i < payloads@.len() && payloads@[i].codec@ == codec.spec_name() && (forall|j: int|
        0 <= j < i ==> (#[trigger] payloads@[j]).codec@ != codec.spec_name()) {
        payload_is_first(payloads@, codec, i);
    }
    if forall|j: int| 0 <= j < payloads@.len() ==> (#[trigger] payloads@[j]).codec@
        != codec.spec_name() {
        payload_is_missing(payloads@, codec);
    }
}

/// The payload type of a codec is that of the first entry under its name.
proof fn payload_is_first(payloads: Seq<Payload>, codec: Codec, i: int)
    requires
        0 <= i < payloads.len(),
        payloads[i].codec@ == codec.spec_name(),
        forall|j: int| 0 <= j < i ==> (#[trigger] payloads[j]).codec@ != codec.spec_name(),
    ensures
        model::payload_for(payloads, codec) == Some(payloads[i].payload_type),
    decreases payloads.len(),
{
    if i > 0 {
        assert(payloads[0].codec@ != codec.spec_name());
        assert forall|j: int| 0 <= j < i - 1 implies (#[trigger] payloads.drop_first()[j]).codec@
            != codec.spec_name() by {
            assert(payloads.drop_first()[j] == payloads[j + 1]);
        }
        payload_is_first(payloads.drop_first(), codec, i - 1);
    }
}

/// A codec without an entry has no payload type.
proof fn payload_is_missing(payloads: Seq<Payload>, codec: Codec)
    requires
        forall|j: int|
            0 <= j < payloads.len() ==> (#[trigger] payloads[j]).codec@ != codec.spec_name(),
    ensures
        model::payload_for(payloads, codec) is None,
    decreases payloads.len(),
{
    if payloads.len() > 0 {
        assert(payloads[0].codec@ != codec.spec_name());
        assert forall|j: int| 0 <= j < payloads.drop_first().len() implies (
        #[trigger] payloads.drop_first()[j]).codec@ != codec.spec_name() by {
            assert(payloads.drop_first()[j] == payloads[j + 1]);
        }
        payload_is_missing(payloads.drop_first(), codec);
    }
}

/// Whatever of a frame the session is given is the whole of it: all the bytes of
/// audio, and of video too if they are no AVCC access unit, and all the units of
/// an AVCC access unit in Annex B form. It is given under the frame's own media
/// time, at the codec's clock rate, and at the present.
pub proof fn whole_frame_reaches_the_session(
    p: &mut Publisher,
    codec: Codec,
    media_time: u64,
    data: &[u8],
    now: u64,
    r: Result<(), String>,
    i: int,
    units: Seq<Seq<u8>>,
)
    requires
        call_ensures(Publisher::send_at, (p, codec, media_time, data, now), r),
        old(p)@.exchanges.len() <= i < final(p)@.exchanges.len(),
        final(p)@.exchanges[i] is Write,
    ensures
        final(p)@.exchanges[i] matches Exchange::Write {
            now: at,
            media_time: time,
            clock_rate,
            data: bytes,
            ..
        } && {
            &&& at == now
            &&& time == media_time
            &&& codec is Opus || codec is Aac ==> clock_rate == 48_000 && bytes == data@
            &&& codec is H264 || codec is H265 ==> {
                &&& clock_rate == 90_000
                &&& bytes.len() == data@.len()
                &&& data@ == annex_b::avcc(units) && (forall|k: int|
                    0 <= k < units.len() ==> 0 < (#[trigger] units[k]).len() < 0x1_0000_0000)
                    ==> bytes == annex_b::annex_b(units)
                &&& (forall|others: Seq<Seq<u8>>|
                    (forall|k: int|
                        0 <= k < others.len() ==> 0 < (#[trigger] others[k]).len() < 0x1_0000_0000)
                        ==> #[trigger] annex_b::avcc(others) != data@) ==> bytes == data@
            }
        },
        i == old(p)@.exchanges.len() + 1,
{
    let (pre, post) = (old(p)@, final(p)@);
    let n = pre.exchanges.len() as int;
    sent_frame_is_the_only_one(pre, post, codec, media_time, data@, now, r, i);
    annex_b::conversion_keeps_length(data@);
    if data@ == annex_b::avcc(units) && (forall|k: int|
        0 <= k < units.len() ==> 0 < (#[trigger] units[k]).len() < 0x1_0000_0000) {
        annex_b::conversion_keeps_units(units);
    }
    if annex_b::avcc_units(data@) is Some {
        units_make_up_the_access_unit(data@);
    }
}

/// Where sending writes anything to the session, it does so once, after it
/// looked up the payload types.
proof fn sent_frame_is_the_only_one(
    pre: PublisherState,
    post: PublisherState,
    codec: Codec,
    media_time: u64,
    data: Seq<u8>,
    now: u64,
    r: Result<(), String>,
    i: int,
)
    requires
        model::sent(pre, post, codec, media_time, data, now, r),
        pre.exchanges.len() <= i < post.exchanges.len(),
        post.exchanges[i] is Write,
    ensures
        i == pre.exchanges.len() + 1,
        pre.deadline is None && !pre.reported,
        pre.mid_for(codec) is Some,
        post.exchanges[i - 1] matches Exchange::Payloads { result: Some(listed), .. }
            && model::payload_for(listed@, codec) is Some,
{
    let n = pre.exchanges.len() as int;
    if pre.deadline is Some || pre.reported {
        drains::drain_polls_to_the_end(pre, post, now, r);
        assert(post.exchanges[i] is Poll);
    } else if pre.mid_for(codec) is Some {
        match post.exchanges[n] {
            Exchange::Payloads { mid, result: Some(listed) } => {
                if model::payload_for(listed@, codec) is Some {
                    match post.exchanges[n + 1] {
                        Exchange::Write { result, .. } => {
                            let written = pre.with(post.exchanges[n]).with(post.exchanges[n + 1]);
                            let s = PublisherState {
                                backlog: session::after_write(
                                    written.backlog,
                                    written.descriptions.len(),
                                    result,
                                ),
                                ..written
                            };
                            if result is Some && model::timely(result->0) is Ok {
                                drains::drain_polls_to_the_end(s, post, now, r);
                                if i >= n + 2 {
                                    assert(post.exchanges[i] is Poll);
                                }
                            }
                        },
                        _ => {},
                    }
                }
            },
            _ => {},
        }
    }
}

/// Sending a frame, in full. During a disconnect and after one was told, what
/// the session has to report is collected, and nothing is sent. Otherwise the
/// line of the codec's kind is asked for its payload types, and the frame goes
/// out under the first one of the codec, after which the session is drained. Each
/// thing that is missing on the way is its own error.
pub proof fn sent_frame(
    pre: PublisherState,
    post: PublisherState,
    codec: Codec,
    media_time: u64,
    data: Seq<u8>,
    now: u64,
    r: Result<(), String>,
)
    requires
        model::sent(pre, post, codec, media_time, data, now, r),
    ensures
        ({
            let n = pre.exchanges.len() as int;
            let line = if codec is Opus || codec is Aac {
                pre.audio_mid
            } else {
                pre.video_mid
            };
            if pre.deadline is Some || pre.reported {
                model::drained(pre, post, now, r)
            } else if line is None {
                post == pre && (r matches Err(error) && error@ == "media track was not offered"@)
            } else {
                let asked = PublisherState {
                    exchanges: pre.exchanges.push(post.exchanges[n]),
                    ..pre
                };
                &&& post.exchanges.len() > n
                &&& post.exchanges[n] matches Exchange::Payloads { mid, result: listed }
                &&& mid == line->0
                &&& match listed {
                    None => post == asked && (r matches Err(error) && error@
                        == "media track is not negotiated"@),
                    Some(payloads) => match model::payload_for(payloads@, codec) {
                        None => post == asked && (r matches Err(error) && error@
                            == "codec was not negotiated"@),
                        Some(chosen) => {
                            &&& post.exchanges.len() > n + 1
                            &&& post.exchanges[n + 1] matches Exchange::Write {
                                mid: used,
                                payload_type,
                                result,
                                ..
                            }
                            &&& used == line->0
                            &&& payload_type == chosen
                            &&& ({
                                let written = PublisherState {
                                    exchanges: asked.exchanges.push(post.exchanges[n + 1]),
                                    backlog: session::after_write(
                                        pre.backlog,
                                        pre.descriptions.len(),
                                        result,
                                    ),
                                    ..pre
                                };
                                match result {
                                    Some(Some(Ok(_))) => model::drained(written, post, now, r),
                                    Some(Some(Err(error))) => post == written && (r matches Err(told)
                                        && told@ == error@),
                                    Some(None) => post == written && (r matches Err(told) && told@
                                        == "time is out of range"@),
                                    None => post == written && (r matches Err(told) && told@
                                        == "media track is not negotiated"@),
                                }
                            })
                        },
                    },
                }
            }
        }),
{
    let n = pre.exchanges.len() as int;
    if !(pre.deadline is Some || pre.reported) && pre.mid_for(codec) is Some {
        match post.exchanges[n] {
            Exchange::Payloads { mid, result: Some(listed) } => {
                if model::payload_for(listed@, codec) is Some {
                    match post.exchanges[n + 1] {
                        Exchange::Write { result, .. } => {
                            let written = pre.with(post.exchanges[n]).with(post.exchanges[n + 1]);
                            let s = PublisherState {
                                backlog: session::after_write(
                                    written.backlog,
                                    written.descriptions.len(),
                                    result,
                                ),
                                ..written
                            };
                            if result is Some && model::timely(result->0) is Ok {
                                drains::drain_polls_to_the_end(s, post, now, r);
                            }
                        },
                        _ => {},
                    }
                }
            },
            _ => {},
        }
    }
}

/// A frame that the session takes waits to be packed, with those that waited
/// before; at most 101 are counted. Frames that wait under a description were
/// written under it. A frame that it does not take changes nothing.
pub proof fn written_frame_waits(
    backlog: Backlog,
    n: usize,
    result: Option<Option<Result<(), String>>>,
)
    ensures
        ({
            let after = session::after_write(backlog, n as nat, result);
            &&& after.latest == backlog.latest
            &&& !(result matches Some(Some(Ok(_)))) ==> after == backlog
            &&& (result matches Some(Some(Ok(_)))) ==> {
                &&& after.waiting == if backlog.waiting < 101 {
                    backlog.waiting + 1
                } else {
                    backlog.waiting as int
                }
                &&& backlog.waiting == 0 ==> after.described == n
                &&& backlog.waiting > 0 ==> after.described == backlog.described
            }
        }),
{
}

} // verus!
