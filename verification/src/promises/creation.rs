//! Making publishers and receivers.
use vstd::prelude::*;

use crate::codec::Codec;
use crate::model::{PeerEvent, PublisherState};
use crate::peer;
use crate::publisher;
use crate::publisher::Publisher;
use crate::session;
use crate::session::{AudioFormatView, Exchange, IceState, Report};

verus! {

/// A publisher is made just if it has a track, its audio is Opus or AAC, its
/// video is H.264 or H.265, and the transport carries AAC where that is asked
/// for. The first of these that does not hold is the error.
pub proof fn publisher_needs_fitting_tracks(
    audio: Option<Codec>,
    video: Option<Codec>,
    initial_bitrate: Option<u64>,
    desired_bitrate: Option<u64>,
    r: Result<Publisher, String>,
)
    requires
        call_ensures(
            Publisher::new_with_bwe,
            (audio, video, initial_bitrate, desired_bitrate),
            r,
        ),
    ensures
        audio is None && video is None ==> (r matches Err(error) && error@
            == "at least one media track is required"@),
        audio == Some(Codec::H264) || audio == Some(Codec::H265) ==> (r matches Err(error)
            && error@ == "audio must use Opus or AAC"@),
        (audio is None || audio == Some(Codec::Opus) || audio == Some(Codec::Aac)) && (video
            == Some(Codec::Opus) || video == Some(Codec::Aac)) ==> (r matches Err(error) && error@
            == "video must use H264 or H265"@),
        (video is None || video == Some(Codec::H264) || video == Some(Codec::H265)) && audio
            == Some(Codec::Aac) && session::engine_codec_name("MPEG4-GENERIC"@)
            != "MPEG4-GENERIC"@ ==> (r matches Err(error) && error@
            == "the transport does not carry AAC"@),
        r is Ok <==> {
            &&& audio is Some || video is Some
            &&& audio is None || audio == Some(Codec::Opus) || audio == Some(Codec::Aac)
            &&& video is None || video == Some(Codec::H264) || video == Some(Codec::H265)
            &&& audio == Some(Codec::Aac) ==> session::engine_codec_name("MPEG4-GENERIC"@)
                == "MPEG4-GENERIC"@
        },
{
}

/// Every publisher, with bandwidth estimation or without, has a grace period of
/// 15 seconds, and starts out unconnected, with nothing negotiated, queued or
/// asked for.
pub proof fn publisher_starts_with_grace(
    audio: Option<Codec>,
    video: Option<Codec>,
    initial_bitrate: Option<u64>,
    desired_bitrate: Option<u64>,
    p: Publisher,
)
    requires
        call_ensures(
            Publisher::new_with_bwe,
            (audio, video, initial_bitrate, desired_bitrate),
            Ok(p),
        ),
    ensures
        p@.grace == 15_000_000_000,
        p@.deadline is None,
        !p@.reported,
        !p@.ever_connected,
        p@.audio_codec == audio,
        p@.video_enabled == (video is Some),
        p@.estimating == (initial_bitrate is Some),
        p@.descriptions.len() == 0,
        p@.additions == 0,
        p@.backlog.waiting == 0,
        p@.backlog.latest == 0,
        p@.candidates.len() == 0,
        p@.pending is None,
        p@.audio_mid is None,
        p@.video_mid is None,
        p@.output.len() == 0,
        p@.events.len() == 0,
        p@.media.len() == 0,
        p@.estimates.len() == 0,
        p@.requests.len() == 0,
        p@.next_timeout is None,
{
}

/// The session behind a publisher carries just the codecs of its tracks. It
/// starts from the initial bit rate and aims at the desired one, or else at the
/// initial one, each as it was asked for up to five gigabits per second.
pub proof fn session_carries_the_tracks(
    audio: Option<Codec>,
    video: Option<Codec>,
    initial_bitrate: Option<u64>,
    desired_bitrate: Option<u64>,
    p: Publisher,
)
    requires
        call_ensures(
            Publisher::new_with_bwe,
            (audio, video, initial_bitrate, desired_bitrate),
            Ok(p),
        ),
    ensures
        p@.exchanges.len() > 0,
        p@.exchanges[0] matches Exchange::Start(plan) && {
            &&& plan.opus <==> audio == Some(Codec::Opus)
            &&& plan.h264 <==> video == Some(Codec::H264)
            &&& plan.h265 <==> video == Some(Codec::H265)
            &&& plan.formats.len() == if audio == Some(Codec::Aac) {
                1nat
            } else {
                0nat
            }
            &&& audio == Some(Codec::Aac) ==> plan.formats[0] == (AudioFormatView {
                payload_type: 112,
                name: "MPEG4-GENERIC"@,
                clock_rate: 48_000,
                channels: 2,
                parameters: "config=1190;streamtype=5;profile-level-id=1;mode=AAC-hbr;sizeLength=13;indexLength=3;indexDeltaLength=3"@,
            })
            &&& plan.initial_bitrate is Some <==> initial_bitrate is Some
            &&& initial_bitrate matches Some(bitrate) ==> plan.initial_bitrate == Some(
                if bitrate <= 5_000_000_000 {
                    bitrate
                } else {
                    5_000_000_000
                },
            )
        },
        initial_bitrate is None && desired_bitrate is None ==> p@.exchanges.len() == 1,
        initial_bitrate is Some || desired_bitrate is Some ==> {
            let wanted = if desired_bitrate is Some {
                desired_bitrate->0
            } else {
                initial_bitrate->0
            };
            &&& p@.exchanges.len() == 2
            &&& wanted <= 5_000_000_000 ==> p@.exchanges[1] == Exchange::SetDesiredBitrate(wanted)
            &&& wanted > 5_000_000_000 ==> p@.exchanges[1] == Exchange::SetDesiredBitrate(
                5_000_000_000,
            )
        },
{
}

/// A publisher without bandwidth estimation is what one with it would be if no
/// bit rate were given.
pub proof fn plain_publisher_is_one_without_bit_rates(
    audio: Option<Codec>,
    video: Option<Codec>,
    plain: Result<Publisher, String>,
    other: Result<Publisher, String>,
)
    requires
        call_ensures(Publisher::new, (audio, video), plain),
        call_ensures(Publisher::new_with_bwe, (audio, video, None::<u64>, None::<u64>), other),
    ensures
        match (plain, other) {
            (Ok(p), Ok(q)) => p@ == q@,
            (Err(error), Err(same)) => error@ == same@,
            _ => false,
        },
{
}

/// A receiver can always be made. It carries Opus, H.264 and H.265, and differs
/// from a publisher of Opus and H.264 in that, and in that it has no grace
/// period.
pub proof fn receiver_has_no_grace(r: Result<Publisher, String>, p: Publisher)
    requires
        call_ensures(Publisher::new_receiver, (), r),
        call_ensures(Publisher::new, (Some(Codec::Opus), Some(Codec::H264)), Ok(p)),
    ensures
        r matches Ok(receiver) && {
            &&& receiver@.grace == 0
            &&& receiver@ == (PublisherState {
                grace: 0,
                exchanges: receiver@.exchanges,
                ..p@
            })
            &&& receiver@.exchanges.len() == 1
            &&& receiver@.exchanges[0] matches Exchange::Start(plan)
            &&& plan.opus && plan.h264 && plan.h265
            &&& plan.formats.len() == 0
            &&& plan.initial_bitrate is None
        },
{
}

/// A publisher of any tracks and bit rates keeps its session for 15 seconds: a
/// disconnect after it was connected is not reported, and becomes final only
/// that much later.
pub proof fn every_publisher_waits_out_a_disconnect(
    audio: Option<Codec>,
    video: Option<Codec>,
    initial_bitrate: Option<u64>,
    desired_bitrate: Option<u64>,
    made: Publisher,
    p: &mut Publisher,
    connected: u64,
    more: bool,
    q: &mut Publisher,
    disconnected: u64,
)
    requires
        call_ensures(
            Publisher::new_with_bwe,
            (audio, video, initial_bitrate, desired_bitrate),
            Ok(made),
        ),
        old(p)@ == made@,
        call_ensures(Publisher::take_report, (p, Report::Connected, connected), more),
        old(q)@ == final(p)@,
        call_ensures(Publisher::ice_state_changed, (q, IceState::Disconnected, disconnected), ()),
    ensures
        final(q)@.deadline == Some(
            if disconnected + 15_000_000_000 <= u64::MAX {
                (disconnected + 15_000_000_000) as u64
            } else {
                u64::MAX
            },
        ),
        final(q)@.events =~= seq![PeerEvent::Connected],
        !final(q)@.reported,
{
}

/// The codec numbers of the C boundary choose the tracks: zero is none, and one
/// to four are H.264, H.265, Opus and AAC. A peer is what is made of these
/// tracks, with no error and nothing handed out yet.
pub proof fn peer_is_made_of_the_numbered_tracks(
    audio: Option<Codec>,
    video: Option<Codec>,
    initial_bitrate: u64,
    desired_bitrate: u64,
    peer: Option<peer::WagaPeer>,
    made: Result<Publisher, String>,
)
    requires
        call_ensures(
            peer::waga_peer_create_with_bwe,
            (
                match audio {
                    None => 0i32,
                    Some(Codec::H264) => 1,
                    Some(Codec::H265) => 2,
                    Some(Codec::Opus) => 3,
                    Some(Codec::Aac) => 4,
                },
                match video {
                    None => 0i32,
                    Some(Codec::H264) => 1,
                    Some(Codec::H265) => 2,
                    Some(Codec::Opus) => 3,
                    Some(Codec::Aac) => 4,
                },
                initial_bitrate,
                desired_bitrate,
            ),
            peer,
        ),
        call_ensures(
            Publisher::new_with_bwe,
            (audio, video, Some(initial_bitrate), Some(desired_bitrate)),
            made,
        ),
    ensures
        match (peer, made) {
            (Some(peer), Ok(p)) => {
                &&& peer@.publisher == p@
                &&& peer@.last_error =~= seq![0u8]
                &&& peer@.transmit is None
                &&& peer@.media is None
            },
            (None, Err(_)) => true,
            _ => false,
        },
{
}

/// The same holds without bandwidth estimation.
pub proof fn plain_peer_is_made_of_the_numbered_tracks(
    audio: Option<Codec>,
    video: Option<Codec>,
    peer: Option<peer::WagaPeer>,
    made: Result<Publisher, String>,
)
    requires
        call_ensures(
            peer::waga_peer_create,
            (
                match audio {
                    None => 0i32,
                    Some(Codec::H264) => 1,
                    Some(Codec::H265) => 2,
                    Some(Codec::Opus) => 3,
                    Some(Codec::Aac) => 4,
                },
                match video {
                    None => 0i32,
                    Some(Codec::H264) => 1,
                    Some(Codec::H265) => 2,
                    Some(Codec::Opus) => 3,
                    Some(Codec::Aac) => 4,
                },
            ),
            peer,
        ),
        call_ensures(Publisher::new, (audio, video), made),
    ensures
        match (peer, made) {
            (Some(peer), Ok(p)) => {
                &&& peer@.publisher == p@
                &&& peer@.last_error =~= seq![0u8]
                &&& peer@.transmit is None
                &&& peer@.media is None
            },
            (None, Err(_)) => true,
            _ => false,
        },
{
}

/// A number that stands for nothing makes no peer.
pub proof fn unknown_number_makes_no_peer(
    audio: i32,
    video: i32,
    initial_bitrate: u64,
    desired_bitrate: u64,
    estimating: Option<peer::WagaPeer>,
    plain: Option<peer::WagaPeer>,
)
    requires
        !(0 <= audio <= 4) || !(0 <= video <= 4),
        call_ensures(
            peer::waga_peer_create_with_bwe,
            (audio, video, initial_bitrate, desired_bitrate),
            estimating,
        ),
        call_ensures(peer::waga_peer_create, (audio, video), plain),
    ensures
        estimating is None,
        plain is None,
{
}

/// The receiver behind the C boundary is a receiver.
pub proof fn receiving_peer_is_a_receiver(
    peer: Option<peer::WagaPeer>,
    made: Result<Publisher, String>,
)
    requires
        call_ensures(peer::waga_receiver_create, (), peer),
        call_ensures(Publisher::new_receiver, (), made),
    ensures
        match (peer, made) {
            (Some(peer), Ok(p)) => {
                &&& peer@.publisher == p@
                &&& peer@.last_error =~= seq![0u8]
                &&& peer@.transmit is None
                &&& peer@.media is None
            },
            _ => false,
        },
{
}

/// AAC can be carried just if the transport knows it by its name; any other
/// audio can.
pub proof fn only_aac_depends_on_the_transport(
    audio: Option<Codec>,
    known_as: &String,
    r: Result<(), String>,
)
    requires
        call_ensures(publisher::check_codec, (audio, known_as), r),
    ensures
        r is Err <==> audio == Some(Codec::Aac) && known_as@ != "MPEG4-GENERIC"@,
        r matches Err(error) ==> error@ == "the transport does not carry AAC"@,
{
}

} // verus!
