//! The codecs a session can carry, and their numbers on the C boundary.
use vstd::prelude::*;

use crate::text;

verus! {

/// A media codec.
#[derive(Clone, Copy, Debug, PartialEq, Eq, Structural)]
pub enum Codec {
    H264,
    H265,
    Opus,
    Aac,
}

impl Codec {
    /// Whether the codec carries audio; the others carry video.
    pub open spec fn spec_is_audio(self) -> bool {
        self is Opus || self is Aac
    }

    /// Whether the codec carries audio; the others carry video.
    pub fn is_audio(self) -> (r: bool)
        ensures
            r == self.spec_is_audio(),
    {
        match self {
            Codec::Opus | Codec::Aac => true,
            Codec::H264 | Codec::H265 => false,
        }
    }

    /// Ticks per second of the codec's media clock.
    pub open spec fn spec_clock_rate(self) -> u32 {
        if self.spec_is_audio() {
            48_000
        } else {
            90_000
        }
    }

    /// Ticks per second of the codec's media clock: 48 kHz for audio, 90 kHz
    /// for video.
    pub fn clock_rate(self) -> (r: u32)
        ensures
            r == self.spec_clock_rate(),
    {
        match self {
            Codec::H264 | Codec::H265 => 90_000,
            Codec::Opus | Codec::Aac => 48_000,
        }
    }

    /// The encoding name that the codec has in a session description.
    pub open spec fn spec_name(self) -> Seq<char> {
        match self {
            Codec::H264 => "H264"@,
            Codec::H265 => "H265"@,
            Codec::Opus => "opus"@,
            Codec::Aac => "MPEG4-GENERIC"@,
        }
    }

    /// The encoding name that the codec has in a session description.
    pub fn name(self) -> (r: &'static str)
        ensures
            r@ == self.spec_name(),
    {
        match self {
            Codec::H264 => "H264",
            Codec::H265 => "H265",
            Codec::Opus => "opus",
            Codec::Aac => "MPEG4-GENERIC",
        }
    }

    /// The codec of an encoding name, if it is one of ours.
    pub open spec fn spec_from_name(name: Seq<char>) -> Option<Codec> {
        if name == Codec::H264.spec_name() {
            Some(Codec::H264)
        } else if name == Codec::H265.spec_name() {
            Some(Codec::H265)
        } else if name == Codec::Opus.spec_name() {
            Some(Codec::Opus)
        } else if name == Codec::Aac.spec_name() {
            Some(Codec::Aac)
        } else {
            None
        }
    }

    /// The codec of an encoding name, if it is one of ours.
    pub fn from_name(name: &String) -> (r: Option<Codec>)
        ensures
            r == Codec::spec_from_name(name@),
    {
        if *name == Codec::H264.name().to_owned() {
            Some(Codec::H264)
        } else if *name == Codec::H265.name().to_owned() {
            Some(Codec::H265)
        } else if *name == Codec::Opus.name().to_owned() {
            Some(Codec::Opus)
        } else if *name == Codec::Aac.name().to_owned() {
            Some(Codec::Aac)
        } else {
            None
        }
    }
}

/// The number of a codec on the C boundary.
pub open spec fn codec_number(codec: Codec) -> i32 {
    match codec {
        Codec::H264 => 1,
        Codec::H265 => 2,
        Codec::Opus => 3,
        Codec::Aac => 4,
    }
}

/// The number of a codec on the C boundary.
pub fn encode_codec(codec: Codec) -> (r: i32)
    ensures
        r == codec_number(codec),
{
    match codec {
        Codec::H264 => 1,
        Codec::H265 => 2,
        Codec::Opus => 3,
        Codec::Aac => 4,
    }
}

/// The codec behind a number on the C boundary, if the number has a meaning.
/// Zero stands for no codec.
pub open spec fn decoded(value: i32) -> Option<Option<Codec>> {
    if value == 0 {
        Some(None)
    } else if value == 1 {
        Some(Some(Codec::H264))
    } else if value == 2 {
        Some(Some(Codec::H265))
    } else if value == 3 {
        Some(Some(Codec::Opus))
    } else if value == 4 {
        Some(Some(Codec::Aac))
    } else {
        None
    }
}

/// The error text for a number that has no meaning.
pub open spec fn unknown_codec(value: i32) -> Seq<char> {
    "unknown codec "@ + text::spec_integer_text(value as int)
}

/// The codec behind a number on the C boundary. A number that has no meaning is
/// an error that names it.
pub fn decode_codec(value: i32) -> (r: Result<Option<Codec>, String>)
    ensures
        match decoded(value) {
            Some(codec) => r == Ok::<Option<Codec>, String>(codec),
            None => r matches Err(error) && error@ == unknown_codec(value),
        },
{
    match value {
        0 => Ok(None),
        1 => Ok(Some(Codec::H264)),
        2 => Ok(Some(Codec::H265)),
        3 => Ok(Some(Codec::Opus)),
        4 => Ok(Some(Codec::Aac)),
        _ => {
            let number = text::integer_text(value);
            Err("unknown codec ".to_owned().concat(number.as_str()))
        },
    }
}

/// Distinct codecs have distinct encoding names, so a codec is recovered from
/// its own name.
pub proof fn name_identifies_codec(codec: Codec)
    ensures
        Codec::spec_from_name(codec.spec_name()) == Some(codec),
{
    reveal_strlit("H264");
    reveal_strlit("H265");
    reveal_strlit("opus");
    reveal_strlit("MPEG4-GENERIC");
    assert("H264"@[3] == '4');
    assert("H265"@[3] == '5');
    assert("opus"@[3] == 's');
    assert("H264"@.len() == 4 && "H265"@.len() == 4 && "opus"@.len() == 4);
    assert("MPEG4-GENERIC"@.len() == 13);
}

/// The codec is read back from its number.
pub proof fn decoding_reads_number(codec: Codec)
    ensures
        decoded(codec_number(codec)) == Some(Some(codec)),
{
}

/// A codec's number is never the one that stands for no codec, and no two
/// codecs share a number.
pub proof fn codec_number_is_injective(a: Codec, b: Codec)
    ensures
        codec_number(a) != 0,
        codec_number(a) == codec_number(b) ==> a == b,
{
}

} // verus!
