//! One end of a media session: a publisher or a receiver.
use std::collections::VecDeque;

use str0m::change::{SdpAnswer, SdpOffer, SdpPendingOffer};
use str0m::media::Mid;
use str0m::{Candidate, Rtc};
use vstd::prelude::*;

use crate::annex_b::access_unit;
use crate::codec::Codec;
use crate::laws;
use crate::model;
use crate::model::{EngineRequest, Media, PeerEvent, Transmit};
use crate::session;
use crate::session::{
    candidate_kind, engine_codec, frame, host_candidate, ice_state, nanos, parse_answer,
    parse_offer, print_answer, print_offer, reflexive_candidate, AudioFormat, CandidateKind,
    Exchange, Frame, IceState, Payload, Report, Session, SessionConfig, TrackDirection, TrackKind,
    TrackRequest,
};

verus! {

/// One end of a media session.
pub struct Publisher {
    session: Session,
    local_candidates: Vec<(String, Candidate)>,
    pending: Option<SdpPendingOffer>,
    audio_mid: Option<Mid>,
    video_mid: Option<Mid>,
    output: VecDeque<Transmit>,
    events: VecDeque<PeerEvent>,
    media: VecDeque<Media>,
    bitrate_estimates: VecDeque<u64>,
    requests: VecDeque<EngineRequest>,
    next_timeout: Option<u64>,
    disconnect_grace: u64,
    disconnect_deadline: Option<u64>,
    disconnect_reported: bool,
    ever_connected: bool,
    audio_codec: Option<Codec>,
    video_enabled: bool,
    estimating: bool,
}

impl View for Publisher {
    type V = model::PublisherState;

    closed spec fn view(&self) -> model::PublisherState {
        model::PublisherState {
            exchanges: self.session.history(),
            descriptions: self.session.descriptions(),
            additions: self.session.additions(),
            backlog: self.session.backlog(),
            candidates: self.local_candidates@.map_values(
                |c: (String, Candidate)| (c.0@, c.1),
            ),
            pending: self.pending,
            audio_mid: self.audio_mid,
            video_mid: self.video_mid,
            output: self.output@,
            events: self.events@,
            media: self.media@.map_values(|media: Media| media@),
            estimates: self.bitrate_estimates@,
            requests: self.requests@,
            next_timeout: self.next_timeout,
            grace: self.disconnect_grace,
            deadline: self.disconnect_deadline,
            reported: self.disconnect_reported,
            ever_connected: self.ever_connected,
            audio_codec: self.audio_codec,
            video_enabled: self.video_enabled,
            estimating: self.estimating,
        }
    }
}

impl Publisher {
    /// The `Rtc` of the publisher's session.
    pub closed spec fn rtc(&self) -> Rtc {
        self.session.rtc()
    }

    /// A publisher of at least one track, without bandwidth estimation.
    pub fn new(audio: Option<Codec>, video: Option<Codec>) -> (r: Result<Self, String>)
        ensures
            model::created(audio, video, None, None, r),
    {
        Self::new_with_bwe(audio, video, None, None)
    }

    /// A publisher of at least one track, which estimates its bandwidth from
    /// `initial_bitrate` on and aims at `desired_bitrate`, each
    /// [`session::MAX_BITRATE`] at most.
    pub fn new_with_bwe(
        audio: Option<Codec>,
        video: Option<Codec>,
        initial_bitrate: Option<u64>,
        desired_bitrate: Option<u64>,
    ) -> (r: Result<Self, String>)
        ensures
            model::created(audio, video, initial_bitrate, desired_bitrate, r),
    {
        if audio.is_none() && video.is_none() {
            return Err("at least one media track is required".to_owned());
        }
        if let Some(codec) = audio {
            if !codec.is_audio() {
                return Err("audio must use Opus or AAC".to_owned());
            }
        }
        if let Some(codec) = video {
            if codec.is_audio() {
                return Err("video must use H264 or H265".to_owned());
            }
        }
        match Self::build(
            audio,
            video == Some(Codec::H264),
            video == Some(Codec::H265),
            initial_bitrate,
            desired_bitrate,
        ) {
            Ok(mut publisher) => {
                publisher.disconnect_grace = model::DISCONNECT_GRACE;
                Ok(publisher)
            },
            Err(error) => Err(error),
        }
    }

    /// A receiver of Opus, H.264 and H.265.
    pub fn new_receiver() -> (r: Result<Self, String>)
        ensures
            r matches Ok(publisher) && publisher@ == model::initial_state(
                Some(Codec::Opus),
                true,
                true,
                None,
                None,
                0,
            ),
    {
        Self::build(Some(Codec::Opus), true, true, None, None)
    }

    /// Sets up a session that has no grace period.
    fn build(
        audio: Option<Codec>,
        h264: bool,
        h265: bool,
        initial_bitrate: Option<u64>,
        desired_bitrate: Option<u64>,
    ) -> (r: Result<Self, String>)
        ensures
            match model::codec_fault(
                audio,
                session::engine_codec_name(Codec::Aac.spec_name()),
            ) {
                Some(text) => model::fails(r, text),
                None => r matches Ok(publisher) && publisher@ == model::initial_state(
                    audio,
                    h264,
                    h265,
                    initial_bitrate,
                    desired_bitrate,
                    0,
                ),
            },
    {
        let name = Codec::Aac.name().to_owned();
        if let Err(error) = check_codec(audio, &engine_codec(name.as_str())) {
            return Err(error);
        }
        let starting = match initial_bitrate {
            Some(bitrate) => Some(session::attainable(bitrate)),
            None => None,
        };
        let mut config = SessionConfig::new(audio == Some(Codec::Opus), h264, h265, starting);
        if audio == Some(Codec::Aac) {
            config.add_format(
                &AudioFormat {
                    payload_type: 112,
                    name,
                    clock_rate: 48_000,
                    channels: 2,
                    parameters: "config=1190;streamtype=5;profile-level-id=1;mode=AAC-hbr;sizeLength=13;indexLength=3;indexDeltaLength=3".to_owned(),
                },
            );
        }
        let mut session = Session::start(config);
        let desired = match desired_bitrate {
            Some(bitrate) => Some(bitrate),
            None => initial_bitrate,
        };
        if let Some(bitrate) = desired {
            session.set_desired_bitrate(session::attainable(bitrate));
        }
        let publisher = Publisher {
            session,
            local_candidates: Vec::new(),
            pending: None,
            audio_mid: None,
            video_mid: None,
            output: VecDeque::new(),
            events: VecDeque::new(),
            media: VecDeque::new(),
            bitrate_estimates: VecDeque::new(),
            requests: VecDeque::new(),
            next_timeout: None,
            disconnect_grace: 0,
            disconnect_deadline: None,
            disconnect_reported: false,
            ever_connected: false,
            audio_codec: audio,
            video_enabled: h264 || h265,
            estimating: initial_bitrate.is_some(),
        };
        assert(publisher@ =~= model::initial_state(
            audio,
            h264,
            h265,
            initial_bitrate,
            desired_bitrate,
            0,
        ));
        Ok(publisher)
    }

    /// Adds the host candidate of a local UDP socket.
    pub fn add_local_candidate(&mut self, address: &str) -> (r: Result<(), String>)
        ensures
            exists|reading: u128| #[trigger]
                model::candidate_added(
                    old(self)@.at(reading),
                    final(self)@,
                    address@,
                    session::host_candidate_of(address@),
                    session::spec_nanos(reading),
                    r,
                ),
    {
        self.add_candidate(address, host_candidate(address))
    }

    /// Adds the server-reflexive candidate of a local UDP socket: the address
    /// that a STUN server sees, and the local one.
    pub fn add_server_reflexive_candidate(&mut self, address: &str, base: &str) -> (r: Result<
        (),
        String,
    >)
        ensures
            exists|reading: u128| #[trigger]
                model::candidate_added(
                    old(self)@.at(reading),
                    final(self)@,
                    base@,
                    session::reflexive_candidate_of(address@, base@),
                    session::spec_nanos(reading),
                    r,
                ),
    {
        self.add_candidate(base, reflexive_candidate(address, base))
    }

    /// Hands a candidate to the session, and keeps it under its interface's
    /// address in the form in which the session took it, if it did.
    pub fn add_candidate(&mut self, base: &str, made: Result<Candidate, String>) -> (r: Result<
        (),
        String,
    >)
        ensures
            exists|reading: u128| #[trigger]
                model::candidate_added(
                    old(self)@.at(reading),
                    final(self)@,
                    base@,
                    session::outcome(made),
                    session::spec_nanos(reading),
                    r,
                ),
    {
        let now: u64 = self.session.now();
        let ghost pre = self@;
        assert(pre == old(self)@.at(session::clock_reading(pre.exchanges.last())));
        let ghost named = session::outcome(made);
        let r = match made {
            Ok(candidate) => {
                let ghost views = |c: (String, Candidate)| (c.0@, c.1);
                let kind = candidate_kind(&candidate);
                if kind != CandidateKind::Host && kind != CandidateKind::ServerReflexive {
                    let r: Result<(), String> = Err(
                        "only host and server-reflexive candidates are local".to_owned(),
                    );
                    assert(model::candidate_added(pre, self@, base@, named, now, r));
                    return r;
                }
                if !self.session.takes_candidate() {
                    let r: Result<(), String> = Err("too many local candidates".to_owned());
                    assert(model::candidate_added(pre, self@, base@, named, now, r));
                    return r;
                }
                if let Some(taken) = self.session.add_candidate(candidate) {
                    let ghost held = self.local_candidates@;
                    self.local_candidates.push((base.to_owned(), taken));
                    assert(self.local_candidates@.map_values(views) =~= held.map_values(views).push(
                        (base@, taken),
                    ));
                }
                self.drain_at(now)
            },
            Err(error) => Err(error),
        };
        assert(model::candidate_added(pre, self@, base@, named, now, r));
        r
    }

    /// Withdraws an interface: its candidates, and what was to be sent from it.
    pub fn remove_local_candidate(&mut self, base: &str) -> (r: Result<(), String>)
        ensures
            exists|reading: u128| #[trigger]
                model::interface_removed(
                    old(self)@.at(reading),
                    final(self)@,
                    base@,
                    session::spec_nanos(reading),
                    r,
                ),
    {
        let now: u64 = self.session.now();
        let ghost pre = self@;
        assert(pre == old(self)@.at(session::clock_reading(pre.exchanges.last())));
        let base = base.to_owned();
        self.forget_candidates(&base);
        self.drop_output(&base);
        let ghost forgotten = self@;
        let r = self.drain_at(now);
        proof {
            let n = pre.exchanges.len() as int;
            let gone = model::candidates_of(pre.candidates, base@);
            assert(self@.exchanges.subrange(n, n + gone.len()) =~= forgotten.exchanges.skip(n));
            assert(model::interface_removed(pre, self@, base@, now, r));
        }
        r
    }

    /// Invalidates and forgets the candidates of an interface.
    fn forget_candidates(&mut self, base: &String)
        ensures
            ({
                let n = old(self)@.exchanges.len() as int;
                let gone = model::candidates_of(old(self)@.candidates, base@);
                let invalidations = final(self)@.exchanges.skip(n);
                &&& model::invalidate(invalidations, gone)
                &&& final(self)@ == (model::PublisherState {
                    exchanges: old(self)@.exchanges + invalidations,
                    candidates: model::candidates_beside(old(self)@.candidates, base@),
                    ..old(self)@
                })
            }),
    {
        let ghost pre = self@;
        let ghost all = pre.candidates;
        let ghost views = |c: (String, Candidate)| (c.0@, c.1);
        let ghost mut done: int = 0;
        let ghost mut invalidations: Seq<Exchange> = Seq::empty();
        let mut i: usize = 0;
        proof {
            reveal(Seq::filter);
            assert(pre.exchanges + invalidations =~= pre.exchanges);
            assert(model::candidates_beside(all.take(0), base@) + all.skip(0) =~= all);
        }
        while i < self.local_candidates.len()
            invariant
                views == (|c: (String, Candidate)| (c.0@, c.1)),
                0 <= done <= all.len(),
                i == model::candidates_beside(all.take(done), base@).len(),
                self.local_candidates.len() - i == all.len() - done,
                self.local_candidates@.map_values(views) == model::candidates_beside(
                    all.take(done),
                    base@,
                ) + all.skip(done),
                model::invalidate(invalidations, model::candidates_of(all.take(done), base@)),
                self@ == (model::PublisherState {
                    exchanges: pre.exchanges + invalidations,
                    candidates: self.local_candidates@.map_values(views),
                    ..pre
                }),
            decreases all.len() - done,
        {
            let ghost held = self.local_candidates@;
            let ghost kept = model::candidates_beside(all.take(done), base@);
            proof {
                model::candidate_falls_to_one_side(all, base@, done);
                assert(held.map_values(views)[i as int] == all[done]);
                assert(all.skip(done).drop_first() =~= all.skip(done + 1));
            }
            if self.local_candidates[i].0 == *base {
                let (_, candidate) = self.local_candidates.remove(i);
                let found = self.session.invalidate_candidate(&candidate);
                proof {
                    assert(self.local_candidates@.map_values(views) =~= held.map_values(
                        views,
                    ).remove(i as int));
                    assert(self.local_candidates@.map_values(views) =~= kept + all.skip(done + 1));
                    let exchange = Exchange::InvalidateCandidate { candidate, found };
                    assert((pre.exchanges + invalidations).push(exchange) =~= pre.exchanges
                        + invalidations.push(exchange));
                    invalidations = invalidations.push(exchange);
                }
            } else {
                assert(kept.push(all[done]) + all.skip(done + 1) =~= kept + all.skip(done));
                i = i + 1;
            }
            proof {
                done = done + 1;
            }
        }
        proof {
            assert(all.take(done) =~= all);
            assert(model::candidates_beside(all, base@) + all.skip(done)
                =~= model::candidates_beside(all, base@));
            assert((pre.exchanges + invalidations).skip(pre.exchanges.len() as int)
                =~= invalidations);
        }
    }

    /// Drops what was to be sent from an interface.
    fn drop_output(&mut self, base: &String)
        ensures
            final(self)@ == (model::PublisherState {
                output: model::output_beside(old(self)@.output, base@),
                ..old(self)@
            }),
    {
        let ghost pre = self@;
        let ghost all = pre.output;
        let ghost mut done: int = 0;
        let mut left: usize = self.output.len();
        proof {
            reveal(Seq::filter);
            assert(all.skip(0) + model::output_beside(all.take(0), base@) =~= all);
        }
        while left > 0
            invariant
                0 <= done <= all.len(),
                left == all.len() - done,
                self@ == (model::PublisherState {
                    output: all.skip(done) + model::output_beside(all.take(done), base@),
                    ..pre
                }),
            decreases left,
        {
            let ghost kept = model::output_beside(all.take(done), base@);
            proof {
                model::datagram_is_kept_or_dropped(all, base@, done);
                assert((all.skip(done) + kept)[0] == all[done]);
                assert((all.skip(done) + kept).skip(1) =~= all.skip(done + 1) + kept);
            }
            if let Some(datagram) = self.output.pop_front() {
                assert(datagram == all[done]);
                if datagram.source != *base {
                    self.output.push_back(datagram);
                    assert((all.skip(done + 1) + kept).push(all[done]) =~= all.skip(done + 1)
                        + kept.push(all[done]));
                }
            }
            left = left - 1;
            proof {
                done = done + 1;
            }
        }
        proof {
            assert(all.take(done) =~= all);
            assert(all.skip(done) + model::output_beside(all, base@) =~= model::output_beside(
                all,
                base@,
            ));
        }
    }

    /// Makes an offer to send the publisher's tracks.
    pub fn create_offer(&mut self) -> (r: Result<String, String>)
        ensures
            exists|reading: u128| #[trigger]
                model::offered(
                    old(self)@.at(reading),
                    final(self)@,
                    session::spec_nanos(reading),
                    r,
                ),
    {
        let now: u64 = self.session.now();
        let ghost pre = self@;
        assert(pre == old(self)@.at(session::clock_reading(pre.exchanges.last())));
        if self.pending.is_some() {
            let r: Result<String, String> = Err("an offer is already pending".to_owned());
            assert(model::offered(pre, self@, now, r));
            return r;
        }
        let audio = if self.audio_codec.is_some() {
            Some(
                TrackRequest {
                    kind: TrackKind::Audio,
                    direction: TrackDirection::SendOnly,
                    stream: Some("waga".to_owned()),
                    track: Some("audio".to_owned()),
                },
            )
        } else {
            None
        };
        let video = if self.video_enabled {
            Some(
                TrackRequest {
                    kind: TrackKind::Video,
                    direction: TrackDirection::SendOnly,
                    stream: Some("waga".to_owned()),
                    track: Some("video".to_owned()),
                },
            )
        } else {
            None
        };
        let offered = self.session.offer(audio, video);
        if let Some(mid) = offered.first {
            self.audio_mid = Some(mid);
        }
        if let Some(mid) = offered.second {
            self.video_mid = Some(mid);
        }
        let r = match offered.offer {
            Some((sdp, pending)) => {
                self.pending = Some(pending);
                self.drain_for(sdp, now)
            },
            None => Err("offer contained no changes".to_owned()),
        };
        assert(model::offered(pre, self@, now, r));
        r
    }

    /// Makes an offer to receive video and audio.
    pub fn create_receive_offer(&mut self) -> (r: Result<String, String>)
        ensures
            exists|reading: u128| #[trigger]
                model::receive_offered(
                    old(self)@.at(reading),
                    final(self)@,
                    session::spec_nanos(reading),
                    r,
                ),
    {
        let now: u64 = self.session.now();
        let ghost pre = self@;
        assert(pre == old(self)@.at(session::clock_reading(pre.exchanges.last())));
        if self.pending.is_some() {
            let r: Result<String, String> = Err("an offer is already pending".to_owned());
            assert(model::receive_offered(pre, self@, now, r));
            return r;
        }
        let offered = self.session.offer(
            Some(
                TrackRequest {
                    kind: TrackKind::Video,
                    direction: TrackDirection::RecvOnly,
                    stream: None,
                    track: None,
                },
            ),
            Some(
                TrackRequest {
                    kind: TrackKind::Audio,
                    direction: TrackDirection::RecvOnly,
                    stream: None,
                    track: None,
                },
            ),
        );
        self.video_mid = offered.first;
        self.audio_mid = offered.second;
        let r = match offered.offer {
            Some((sdp, pending)) => {
                self.pending = Some(pending);
                self.drain_for(sdp, now)
            },
            None => Err("offer contained no changes".to_owned()),
        };
        assert(model::receive_offered(pre, self@, now, r));
        r
    }

    /// Takes the remote peer's answer to the offer that awaits it.
    pub fn accept_answer(&mut self, sdp: &str) -> (r: Result<(), String>)
        ensures
            exists|reading: u128| #[trigger]
                model::answer_read(
                    old(self)@.at(reading),
                    final(self)@,
                    sdp@,
                    session::spec_nanos(reading),
                    r,
                ),
    {
        let ghost pre = self@;
        let parsed = parse_answer(sdp);
        let ghost named = session::outcome(parsed);
        let r = self.accept_parsed_answer(parsed);
        proof {
            let reading = choose|reading: u128| #[trigger]
                model::answered(pre.at(reading), self@, named, session::spec_nanos(reading), r);
            assert(model::answer_read(
                pre.at(reading),
                self@,
                sdp@,
                session::spec_nanos(reading),
                r,
            ));
        }
        r
    }

    /// Takes the remote peer's answer, or the error of reading it.
    pub fn accept_parsed_answer(&mut self, parsed: Result<SdpAnswer, String>) -> (r: Result<
        (),
        String,
    >)
        ensures
            exists|reading: u128| #[trigger]
                model::answered(
                    old(self)@.at(reading),
                    final(self)@,
                    session::outcome(parsed),
                    session::spec_nanos(reading),
                    r,
                ),
    {
        let ghost named = session::outcome(parsed);
        let now: u64 = self.session.now();
        let ghost pre = self@;
        assert(pre == old(self)@.at(session::clock_reading(pre.exchanges.last())));
        let aac = self.audio_codec == Some(Codec::Aac);
        let answer = match parsed {
            Ok(answer) => answer,
            Err(error) => {
                let r: Result<(), String> = Err(
                    if aac {
                        with_aac_advice("Invalid AAC answer: ", error)
                    } else {
                        error
                    },
                );
                assert(model::answered(pre, self@, named, now, r));
                return r;
            },
        };
        let Some(pending) = self.pending.take() else {
            let r: Result<(), String> = Err("no offer is pending".to_owned());
            assert(model::answered(pre, self@, named, now, r));
            return r;
        };
        let text = print_answer(&answer);
        if let Some(error) = self.session.fault_of(&text) {
            let r: Result<(), String> = Err(
                if aac {
                    with_aac_advice("AAC negotiation failed: ", error)
                } else {
                    error
                },
            );
            assert(model::answered(pre, self@, named, now, r));
            return r;
        }
        let ghost taken = self@;
        if let Err(error) = self.settle(now) {
            let r: Result<(), String> = Err(error);
            assert(model::unsettled(taken, self@, now, error@));
            assert(model::answered(pre, self@, named, now, r));
            return r;
        }
        let ghost mid = self@;
        assert(model::settled(taken, mid, now));
        if let Err(error) = self.session.accept_answer(pending, answer, text) {
            let r: Result<(), String> = Err(
                if aac {
                    with_aac_advice("AAC negotiation failed: ", error)
                } else {
                    error
                },
            );
            assert(model::answer_taken(mid, self@, pending, answer, now, r));
            assert(model::answered(pre, self@, named, now, r));
            return r;
        }
        let ghost accepted = self@;
        let r = self.drain_at(now);
        if r.is_err() || !aac {
            assert(model::answer_taken(mid, self@, pending, answer, now, r));
            assert(model::answered(pre, self@, named, now, r));
            return r;
        }
        let ghost drained = self@;
        let negotiated = match self.audio_mid {
            Some(mid) => match self.session.payloads(mid) {
                Some(payloads) => find_payload(&payloads, Codec::Aac).is_some(),
                None => false,
            },
            None => false,
        };
        let r: Result<(), String> = if negotiated {
            Ok(())
        } else {
            Err("The WHIP receiver does not accept AAC. Select Opus for this receiver.".to_owned())
        };
        assert(self@.audio_mid is Some ==> model::before_last(self@) =~= drained);
        proof {
            let polls = drained.exchanges.skip(accepted.exchanges.len() as int);
            laws::polls_keep_negotiation(accepted, polls, now);
        }
        assert(model::answer_taken(mid, self@, pending, answer, now, r));
        assert(model::answered(pre, self@, named, now, r));
        r
    }

    /// Takes a remote peer's offer, and gives the answer.
    pub fn accept_offer(&mut self, sdp: &str) -> (r: Result<String, String>)
        ensures
            exists|reading: u128| #[trigger]
                model::offer_read(
                    old(self)@.at(reading),
                    final(self)@,
                    sdp@,
                    session::spec_nanos(reading),
                    r,
                ),
    {
        let ghost pre = self@;
        let parsed = parse_offer(sdp);
        let ghost named = session::outcome(parsed);
        let r = self.accept_parsed_offer(parsed);
        proof {
            let reading = choose|reading: u128| #[trigger]
                model::offer_accepted(
                    pre.at(reading),
                    self@,
                    named,
                    session::spec_nanos(reading),
                    r,
                );
            let now = session::spec_nanos(reading);
            assert(model::offer_read(pre.at(reading), self@, sdp@, now, r));
        }
        r
    }

    /// Takes a remote peer's offer, or the error of reading it.
    pub fn accept_parsed_offer(&mut self, parsed: Result<SdpOffer, String>) -> (r: Result<
        String,
        String,
    >)
        ensures
            exists|reading: u128| #[trigger]
                model::offer_accepted(
                    old(self)@.at(reading),
                    final(self)@,
                    session::outcome(parsed),
                    session::spec_nanos(reading),
                    r,
                ),
    {
        let ghost named = session::outcome(parsed);
        let now: u64 = self.session.now();
        let ghost pre = self@;
        assert(pre == old(self)@.at(session::clock_reading(pre.exchanges.last())));
        let r = match parsed {
            Ok(offer) => {
                let text = print_offer(&offer);
                if let Some(error) = self.session.fault_of(&text) {
                    Err(error)
                } else {
                    match self.settle(now) {
                        Ok(()) => {
                            let ghost mid = self@;
                            assert(model::settled(pre, mid, now));
                            let r = match self.session.accept_offer(offer, text) {
                                Ok(answer) => self.drain_for(answer, now),
                                Err(error) => Err(error),
                            };
                            assert(model::offer_taken(mid, self@, offer, now, r));
                            r
                        },
                        Err(error) => {
                            assert(model::unsettled(pre, self@, now, error@));
                            Err(error)
                        },
                    }
                }
            },
            Err(error) => Err(error),
        };
        assert(model::offer_accepted(pre, self@, named, now, r));
        r
    }

    /// Tells the session the time until it has packed every frame that waits.
    fn settle(&mut self, now: u64) -> (r: Result<(), String>)
        ensures
            match r {
                Ok(_) => {
                    &&& model::settled(old(self)@, final(self)@, now)
                    &&& final(self)@.backlog.waiting == 0
                },
                Err(error) => model::unsettled(old(self)@, final(self)@, now, error@),
            },
    {
        let ghost pre = self@;
        if !self.session.frames_are_current() {
            return Err("a frame waits for a payload type that may be gone".to_owned());
        }
        let frames = self.session.frames();
        let at: u64 = if now < frames.latest {
            frames.latest
        } else {
            now
        };
        let mut left: u64 = frames.waiting;
        let ghost mut inputs: Seq<Exchange> = Seq::empty();
        assert(pre.exchanges + inputs =~= pre.exchanges);
        while left > 0
            invariant
                pre.current(),
                at == model::packing_time(pre, now),
                left + inputs.len() == pre.backlog.waiting,
                forall|i: int| 0 <= i < inputs.len() ==> #[trigger] model::packs(inputs[i], at),
                self@ == (model::PublisherState {
                    exchanges: pre.exchanges + inputs,
                    backlog: model::packed(pre, inputs.len() as int, at),
                    ..pre
                }),
                pre == old(self)@,
            decreases left,
        {
            let ghost earlier = inputs;
            let result = self.session.handle_timeout(at);
            proof {
                inputs = inputs.push(Exchange::Timeout { now: at, result });
                assert(pre.exchanges + inputs =~= (pre.exchanges + earlier).push(inputs.last()));
                assert((pre.exchanges + inputs).skip(pre.exchanges.len() as int) =~= inputs);
            }
            match result {
                Some(Ok(())) => {},
                Some(Err(error)) => {
                    return Err(error);
                },
                None => {
                    return Err("time is out of range".to_owned());
                },
            }
            left = left - 1;
        }
        assert((pre.exchanges + inputs).skip(pre.exchanges.len() as int) =~= inputs);
        Ok(())
    }

    /// Takes a datagram that arrived.
    pub fn receive(&mut self, source: &str, destination: &str, contents: &[u8]) -> (r: Result<
        (),
        String,
    >)
        ensures
            exists|reading: u128| #[trigger]
                model::received(
                    old(self)@.at(reading),
                    final(self)@,
                    source@,
                    destination@,
                    contents@,
                    session::spec_nanos(reading),
                    r,
                ),
    {
        let now: u64 = self.session.now();
        assert(self@ == old(self)@.at(session::clock_reading(self@.exchanges.last())));
        self.receive_at(source, destination, contents, now)
    }

    /// Takes a datagram that arrived, as of `now`.
    ///
    /// Untrusted UDP input can be unrelated or malformed; a parse failure must
    /// not terminate an otherwise healthy session.
    pub fn receive_at(&mut self, source: &str, destination: &str, contents: &[u8], now: u64) -> (r:
        Result<(), String>)
        ensures
            model::received(old(self)@, final(self)@, source@, destination@, contents@, now, r),
            old(self)@.current() && !session::is_multiplexed(contents@) ==> r is Ok && final(self)@
                == old(self)@,
    {
        if !self.session.frames_are_current() {
            return Err("a frame waits for a payload type that may be gone".to_owned());
        }
        match self.session.receive(now, source, destination, contents) {
            Some(result) => self.drain_after(result, now),
            None => Ok(()),
        }
    }

    /// Tells the session the time.
    pub fn handle_timeout(&mut self) -> (r: Result<(), String>)
        ensures
            exists|reading: u128| #[trigger]
                model::timed_out(
                    old(self)@.at(reading),
                    final(self)@,
                    session::spec_nanos(reading),
                    r,
                ),
    {
        let now: u64 = self.session.now();
        assert(self@ == old(self)@.at(session::clock_reading(self@.exchanges.last())));
        self.handle_timeout_at(now)
    }

    /// Tells the session that it is `now`.
    pub fn handle_timeout_at(&mut self, now: u64) -> (r: Result<(), String>)
        ensures
            model::timed_out(old(self)@, final(self)@, now, r),
    {
        if !self.session.frames_are_current() {
            return Err("a frame waits for a payload type that may be gone".to_owned());
        }
        let result = self.session.handle_timeout(now);
        self.drain_after(result, now)
    }

    /// The nanoseconds until [`Publisher::handle_timeout`] is due.
    pub fn timeout_after(&mut self) -> (r: u128)
        ensures
            exists|reading: u128|
                final(self)@ == #[trigger] old(self)@.at(reading) && r == model::time_left(
                    old(self)@.next_timeout,
                    session::spec_nanos(reading),
                ),
    {
        let now: u64 = self.session.now();
        assert(self@ == old(self)@.at(session::clock_reading(self@.exchanges.last())));
        self.timeout_after_at(now)
    }

    /// The nanoseconds from `now` until [`Publisher::handle_timeout`] is due.
    pub fn timeout_after_at(&self, now: u64) -> (r: u128)
        ensures
            r == model::time_left(self@.next_timeout, now),
    {
        match self.next_timeout {
            Some(at) => at.saturating_sub(now) as u128,
            None => model::LONGEST_WAIT,
        }
    }

    /// Sends a frame: an AVCC or Annex B access unit of video, or a packet of
    /// audio.
    pub fn send(&mut self, codec: Codec, media_time: u64, data: &[u8]) -> (r: Result<(), String>)
        ensures
            exists|reading: u128| #[trigger]
                model::sent(
                    old(self)@.at(reading),
                    final(self)@,
                    codec,
                    media_time,
                    data@,
                    session::spec_nanos(reading),
                    r,
                ),
    {
        let now: u64 = self.session.now();
        assert(self@ == old(self)@.at(session::clock_reading(self@.exchanges.last())));
        self.send_at(codec, media_time, data, now)
    }

    /// Sends a frame, as of `now`.
    pub fn send_at(&mut self, codec: Codec, media_time: u64, data: &[u8], now: u64) -> (r: Result<
        (),
        String,
    >)
        ensures
            model::sent(old(self)@, final(self)@, codec, media_time, data@, now, r),
    {
        if self.disconnect_deadline.is_some() || self.disconnect_reported {
            return self.drain_at(now);
        }
        let line = if codec.is_audio() {
            self.audio_mid
        } else {
            self.video_mid
        };
        let Some(mid) = line else {
            return Err("media track was not offered".to_owned());
        };
        let Some(payloads) = self.session.payloads(mid) else {
            return Err("media track is not negotiated".to_owned());
        };
        let Some(payload_type) = find_payload(&payloads, codec) else {
            return Err("codec was not negotiated".to_owned());
        };
        let data = if codec.is_audio() {
            vstd::slice::slice_to_vec(data)
        } else {
            access_unit(data)
        };
        let Some(result) = self.session.write(
            mid,
            payload_type,
            now,
            media_time,
            codec.clock_rate(),
            data,
        ) else {
            return Err("media track is not negotiated".to_owned());
        };
        self.drain_after(result, now)
    }

    /// Sets the bit rate that the bandwidth estimation aims at, which is
    /// [`session::MAX_BITRATE`] at most.
    pub fn set_desired_bitrate(&mut self, bitrate: u64)
        ensures
            final(self)@ == old(self)@.with(model::aim(bitrate)),
    {
        self.session.set_desired_bitrate(session::attainable(bitrate));
    }

    /// Asks for a probe of the path's capacity. The host starts it, and then
    /// calls [`Publisher::handle_timeout`], with which it takes effect.
    pub fn request_path_probe(&mut self) -> (r: Result<(), String>)
        ensures
            r is Ok,
            final(self)@ == model::path_probed(old(self)@),
    {
        self.requests.push_back(EngineRequest::ProbePath);
        Ok(())
    }

    /// Asks for a fresh bandwidth estimate, now that the path has changed, and
    /// forgets the one there was. The host restarts the estimation, and then
    /// calls [`Publisher::handle_timeout`], with which it takes effect.
    pub fn restart_on_path_change(&mut self) -> (r: Result<(), String>)
        ensures
            r is Ok,
            final(self)@ == model::path_restarted(old(self)@),
    {
        self.bitrate_estimates.clear();
        self.requests.push_back(EngineRequest::RestartEstimate);
        assert(self@.estimates =~= Seq::empty());
        Ok(())
    }

    /// Attributes the packet with this transport-wide sequence number to a
    /// path, or to none.
    pub fn set_egress_path(&mut self, sequence: u64, path: Option<u64>)
        ensures
            final(self)@ == old(self)@.asking(EngineRequest::AttributePath { sequence, path }),
    {
        self.requests.push_back(EngineRequest::AttributePath { sequence, path });
    }

    /// The next datagram to send.
    pub fn poll_transmit(&mut self) -> (r: Option<Transmit>)
        ensures
            r == model::first(old(self)@.output),
            final(self)@ == (model::PublisherState {
                output: model::rest(old(self)@.output),
                ..old(self)@
            }),
    {
        self.output.pop_front()
    }

    /// The next event.
    pub fn poll_event(&mut self) -> (r: Option<PeerEvent>)
        ensures
            r == model::first(old(self)@.events),
            final(self)@ == (model::PublisherState {
                events: model::rest(old(self)@.events),
                ..old(self)@
            }),
    {
        self.events.pop_front()
    }

    /// The next frame.
    pub fn poll_media(&mut self) -> (r: Option<Media>)
        ensures
            model::optional_media(r) == model::first(old(self)@.media),
            final(self)@ == (model::PublisherState {
                media: model::rest(old(self)@.media),
                ..old(self)@
            }),
    {
        let ghost queued = self.media@;
        let r = self.media.pop_front();
        assert(self.media@.map_values(|media: Media| media@) =~= model::rest(
            queued.map_values(|media: Media| media@),
        ));
        r
    }

    /// The latest bandwidth estimate, unless it was collected already.
    pub fn poll_bitrate_estimate(&mut self) -> (r: Option<u64>)
        ensures
            r == model::first(old(self)@.estimates),
            final(self)@ == (model::PublisherState {
                estimates: model::rest(old(self)@.estimates),
                ..old(self)@
            }),
    {
        self.bitrate_estimates.pop_front()
    }

    /// The next piece of work for the host.
    pub fn poll_request(&mut self) -> (r: Option<EngineRequest>)
        ensures
            r == model::first(old(self)@.requests),
            final(self)@ == (model::PublisherState {
                requests: model::rest(old(self)@.requests),
                ..old(self)@
            }),
    {
        self.requests.pop_front()
    }

    /// The transport, for the host to carry out the work that it is asked for.
    pub fn rtc_mut(&mut self) -> (r: &mut Rtc)
        ensures
            *r == old(self).rtc(),
            final(self).rtc() == *final(r),
            final(self)@ == old(self)@,
    {
        self.session.rtc_mut()
    }

    /// Whether bandwidth is estimated.
    pub fn estimates_bandwidth(&self) -> (r: bool)
        ensures
            r == self@.estimating,
    {
        self.estimating
    }

    /// When the present ICE disconnect counts as final.
    pub fn disconnect_deadline(&self) -> (r: Option<u64>)
        ensures
            r == self@.deadline,
    {
        self.disconnect_deadline
    }

    /// Whether the application was told of a final disconnect.
    pub fn disconnect_reported(&self) -> (r: bool)
        ensures
            r == self@.reported,
    {
        self.disconnect_reported
    }

    /// The local candidates in use, each with the address of its interface.
    pub fn local_candidates(&self) -> (r: &Vec<(String, Candidate)>)
        ensures
            r@.map_values(|c: (String, Candidate)| (c.0@, c.1)) == self@.candidates,
    {
        &self.local_candidates
    }

    /// Collects everything that the session has to report, as of now.
    pub fn drain(&mut self) -> (r: Result<(), String>)
        ensures
            exists|reading: u128| #[trigger]
                model::drained(
                    old(self)@.at(reading),
                    final(self)@,
                    session::spec_nanos(reading),
                    r,
                ),
    {
        let now: u64 = self.session.now();
        assert(self@ == old(self)@.at(session::clock_reading(self@.exchanges.last())));
        self.drain_at(now)
    }

    /// Collects everything that the session has to report, as of `now`.
    pub fn drain_at(&mut self, now: u64) -> (r: Result<(), String>)
        ensures
            model::drained(old(self)@, final(self)@, now, r),
            final(self)@.exchanges.len() > old(self)@.exchanges.len(),
            forall|i: int|
                0 <= i < old(self)@.exchanges.len() ==> #[trigger] final(self)@.exchanges[i]
                    == old(self)@.exchanges[i],
    {
        let ghost pre = self@;
        let ghost mut polls: Seq<Exchange> = Seq::empty();
        let mut left: u64 = model::MAX_POLLS;
        assert(pre.exchanges + polls =~= pre.exchanges);
        while left > 0
            invariant
                self@ == model::after_polls(pre, polls, now),
                self@.exchanges == pre.exchanges + polls,
                polls.len() == model::MAX_POLLS - left,
                forall|i: int| 0 <= i < polls.len() ==> #[trigger] model::goes_on(polls[i]),
                pre == old(self)@,
            decreases left,
        {
            let ghost before = self@;
            let ghost earlier = polls;
            let outcome = self.session.poll();
            proof {
                polls = polls.push(Exchange::Poll(outcome));
                assert(polls.drop_last() =~= earlier);
                assert(pre.exchanges + polls =~= (pre.exchanges + earlier).push(polls.last()));
                assert((pre.exchanges + polls).skip(pre.exchanges.len() as int) =~= polls);
                assert(self@ == before.with(polls.last()));
            }
            match outcome {
                Ok(report) => {
                    if !self.take_report(report, now) {
                        return Ok(());
                    }
                },
                Err(error) => {
                    return Err(error);
                },
            }
            left = left - 1;
        }
        assert((pre.exchanges + polls).skip(pre.exchanges.len() as int) =~= polls);
        assert(model::goes_on(polls[polls.len() - 1]));
        Err("the session does not come to rest".to_owned())
    }

    /// Collects what the session has to report after a call on it that had this
    /// outcome, unless that is a failure.
    pub fn drain_after(&mut self, result: Option<Result<(), String>>, now: u64) -> (r: Result<
        (),
        String,
    >)
        ensures
            model::drained_after(result, old(self)@, final(self)@, now, r),
            final(self)@.exchanges.len() >= old(self)@.exchanges.len(),
            forall|i: int|
                0 <= i < old(self)@.exchanges.len() ==> #[trigger] final(self)@.exchanges[i]
                    == old(self)@.exchanges[i],
    {
        match result {
            Some(Ok(())) => self.drain_at(now),
            Some(Err(error)) => Err(error),
            None => Err("time is out of range".to_owned()),
        }
    }

    /// Drains the session before `value` is handed out.
    fn drain_for(&mut self, value: String, now: u64) -> (r: Result<String, String>)
        ensures
            model::drained_for(old(self)@, final(self)@, now, value, r),
            final(self)@.exchanges.len() > old(self)@.exchanges.len(),
            forall|i: int|
                0 <= i < old(self)@.exchanges.len() ==> #[trigger] final(self)@.exchanges[i]
                    == old(self)@.exchanges[i],
    {
        match self.drain_at(now) {
            Ok(()) => Ok(value),
            Err(error) => Err(error),
        }
    }

    /// Takes note of a report from the session, and tells whether the session
    /// has more to report.
    pub fn take_report(&mut self, report: Report, now: u64) -> (more: bool)
        ensures
            final(self)@ == model::after_report(old(self)@, report, now),
            more == !(report is Timeout),
    {
        match report {
            Report::Timeout(at) => {
                if let Some(deadline) = self.disconnect_deadline {
                    if now >= deadline {
                        self.disconnect_deadline = None;
                        self.disconnect_reported = true;
                        self.events.push_back(PeerEvent::Disconnected);
                    }
                }
                let at = nanos(at);
                self.next_timeout = Some(
                    match self.disconnect_deadline {
                        Some(deadline) => if deadline < at {
                            deadline
                        } else {
                            at
                        },
                        None => at,
                    },
                );
                return false;
            },
            Report::Transmit(source, destination, contents) => {
                self.output.push_back(
                    Transmit { source, destination, contents, transport_sequence: None },
                );
            },
            Report::Connected => {
                self.ever_connected = true;
                self.events.push_back(PeerEvent::Connected);
            },
            Report::IceStateChange(state) => {
                self.ice_state_changed(ice_state(state), now);
            },
            Report::KeyframeRequest => {
                self.events.push_back(PeerEvent::KeyframeRequest);
            },
            Report::BitrateEstimate(bitrate) => {
                // Only the current estimate should drive the encoder after an
                // application stall; replaying old rates delays recovery.
                self.bitrate_estimates.clear();
                self.bitrate_estimates.push_back(bitrate);
                assert(self.bitrate_estimates@ =~= seq![bitrate]);
            },
            Report::Closed => {
                self.disconnect_deadline = None;
                self.events.push_back(PeerEvent::Closed);
            },
            Report::MediaData(data) => {
                self.take_frame(frame(data));
            },
            Report::Other => {},
        }
        true
    }

    /// Takes note of a change of the ICE state.
    ///
    /// A disconnect keeps ICE, DTLS and the bonded paths alive while a phone
    /// changes networks. Repeated disconnects do not extend that window.
    pub fn ice_state_changed(&mut self, state: IceState, now: u64)
        ensures
            final(self)@ == model::after_ice_state(old(self)@, state, now),
    {
        match state {
            IceState::Connected | IceState::Completed => {
                self.disconnect_deadline = None;
            },
            IceState::Disconnected => {
                if !self.disconnect_reported {
                    if self.ever_connected && self.disconnect_grace != 0 {
                        if self.disconnect_deadline.is_none() {
                            self.disconnect_deadline = Some(
                                now.saturating_add(self.disconnect_grace),
                            );
                        }
                        if let Some(mid) = self.audio_mid {
                            self.requests.push_back(EngineRequest::DiscardQueuedMedia(mid));
                        }
                        if let Some(mid) = self.video_mid {
                            self.requests.push_back(EngineRequest::DiscardQueuedMedia(mid));
                        }
                    } else {
                        self.disconnect_reported = true;
                        self.events.push_back(PeerEvent::Disconnected);
                    }
                }
            },
            IceState::New | IceState::Checking => {},
        }
    }

    /// Queues a frame for the application, if its codec is one of ours.
    pub fn take_frame(&mut self, frame: Frame)
        ensures
            final(self)@ == (match model::media_of(frame@) {
                Some(media) => model::PublisherState {
                    media: old(self)@.media.push(media),
                    ..old(self)@
                },
                None => old(self)@,
            }),
    {
        if let Some(codec) = Codec::from_name(&frame.codec) {
            let (ntp_micros, sender_media_time) = match frame.sender {
                Some(sender) => match sender.ntp_micros {
                    Some(micros) => (Some(nanos(micros)), sender.media_time),
                    None => (None, 0),
                },
                None => (None, 0),
            };
            let media = Media {
                codec,
                media_time: frame.media_time,
                clock_rate: frame.clock_rate,
                ntp_micros,
                sender_media_time,
                contents: frame.contents,
            };
            let ghost queued = self.media@;
            self.media.push_back(media);
            assert(self.media@.map_values(|media: Media| media@) =~= queued.map_values(
                |media: Media| media@,
            ).push(media@));
        }
    }
}

/// The error text for AAC that could not be negotiated.
fn with_aac_advice(what: &str, error: String) -> (r: String)
    ensures
        r@ == what@ + error@ + model::aac_advice(),
{
    what.to_owned().concat(error.as_str()).concat(
        ". Select Opus if this receiver does not support AAC.",
    )
}

/// Checks that the transport carries an audio codec, where `known_as` is what it
/// makes of AAC's name.
pub fn check_codec(audio: Option<Codec>, known_as: &String) -> (r: Result<(), String>)
    ensures
        match model::codec_fault(audio, known_as@) {
            Some(text) => model::fails(r, text),
            None => r is Ok,
        },
{
    if audio == Some(Codec::Aac) && *known_as != Codec::Aac.name().to_owned() {
        Err("the transport does not carry AAC".to_owned())
    } else {
        Ok(())
    }
}

/// The first payload type that carries a codec.
pub fn find_payload(payloads: &Vec<Payload>, codec: Codec) -> (r: Option<u8>)
    ensures
        r == model::payload_for(payloads@, codec),
{
    let name = codec.name().to_owned();
    let mut i: usize = 0;
    assert(payloads@.skip(0) =~= payloads@);
    while i < payloads.len()
        invariant
            i <= payloads.len(),
            name@ == codec.spec_name(),
            model::payload_for(payloads@, codec) == model::payload_for(
                payloads@.skip(i as int),
                codec,
            ),
        decreases payloads.len() - i,
    {
        assert(payloads@.skip(i as int).drop_first() =~= payloads@.skip(i + 1));
        if payloads[i].codec == name {
            return Some(payloads[i].payload_type);
        }
        i = i + 1;
    }
    None
}

} // verus!
