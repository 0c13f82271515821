//! Session descriptions as str0m prints them, and what may be wrong with one.
//!
//! Two lines of a description must not share an identity, where the remote peer
//! receives a payload type must mean the same wherever it is mapped, and an ICE
//! user fragment must leave room in a STUN message: str0m takes all of it for
//! granted.
use vstd::prelude::*;
use vstd::string::StringSliceAdditionalSpecFns;

verus! {

/// The pieces of some bytes between the separators. Carriage returns count for
/// nothing.
pub open spec fn pieces(text: Seq<u8>, separator: u8) -> Seq<Seq<u8>>
    decreases text.len(),
{
    if text.len() == 0 {
        seq![Seq::empty()]
    } else {
        let before = pieces(text.drop_last(), separator);
        if text.last() == separator {
            before.push(Seq::empty())
        } else if text.last() == 0x0d {
            before
        } else {
            before.drop_last().push(before.last().push(text.last()))
        }
    }
}

/// The bytes of a text.
pub open spec fn bytes(text: Seq<char>) -> Seq<u8> {
    vstd::utf8::encode_utf8(text)
}

/// Whether a line starts with a text.
pub open spec fn starts(line: Seq<u8>, text: Seq<char>) -> bool {
    bytes(text).is_prefix_of(line)
}

/// What follows a text that a line starts with.
pub open spec fn after(line: Seq<u8>, text: Seq<char>) -> Seq<u8> {
    line.skip(bytes(text).len() as int)
}

/// A line of a description, with the number of the media section that it is
/// in. What stands before the first has the number zero.
pub struct LineView {
    pub section: nat,
    pub text: Seq<u8>,
}

/// How many of these lines open a media section.
pub open spec fn opened(lines: Seq<Seq<u8>>) -> nat
    decreases lines.len(),
{
    if lines.len() == 0 {
        0
    } else if starts(lines.last(), "m="@) {
        opened(lines.drop_last()) + 1
    } else {
        opened(lines.drop_last())
    }
}

/// Lines with the numbers of their sections.
pub open spec fn numbered(lines: Seq<Seq<u8>>) -> Seq<LineView> {
    Seq::new(lines.len(), |i: int| LineView { section: opened(lines.take(i + 1)), text: lines[i] })
}

/// The lines of a description.
pub open spec fn described(text: Seq<char>) -> Seq<LineView> {
    numbered(pieces(bytes(text), 0x0a))
}

/// Whether every line stands for itself. An `a=ssrc` or `b=` line that runs on
/// into the next has no colon behind its type.
pub open spec fn genuine(lines: Seq<LineView>) -> bool {
    forall|i: int|
        0 <= i < lines.len() ==> {
            &&& starts((#[trigger] lines[i]).text, "a=ssrc:"@) ==> after(
                lines[i].text,
                "a=ssrc:"@,
            ).contains(0x3a)
            &&& starts(lines[i].text, "b="@) ==> lines[i].text.contains(0x3a)
        }
}

/// Whether no two media lines share an identity.
pub open spec fn distinct(lines: Seq<LineView>) -> bool {
    forall|i: int, j: int|
        0 <= i < j < lines.len() && starts((#[trigger] lines[i]).text, "a=mid:"@)
            ==> (#[trigger] lines[j]).text != lines[i].text
}

/// The first word of some bytes.
pub open spec fn first_word(text: Seq<u8>) -> Seq<u8> {
    pieces(text, 0x20)[0]
}

/// What a format parameter tells of which codec configuration, or which payload
/// type, is meant: the payload type that is repaired, the packetization mode,
/// and a profile without the level behind it.
pub open spec fn told(part: Seq<u8>) -> Option<Seq<u8>> {
    if starts(part, "apt="@) || starts(part, "packetization-mode="@) {
        Some(part)
    } else if starts(part, "profile-level-id="@) {
        if after(part, "profile-level-id="@).len() == 6 {
            Some(part.take(part.len() - 2))
        } else {
            Some(part)
        }
    } else {
        None
    }
}

/// What some format parameters tell.
pub open spec fn telling(parts: Seq<Seq<u8>>) -> Seq<Seq<u8>>
    decreases parts.len(),
{
    if parts.len() == 0 {
        Seq::empty()
    } else {
        match told(parts.last()) {
            Some(part) => telling(parts.drop_last()).push(part),
            None => telling(parts.drop_last()),
        }
    }
}

/// What the parameters of an `a=fmtp` line tell of its payload type, which is
/// the first word of `text`: they are in the second.
pub open spec fn parameters(text: Seq<u8>) -> Seq<Seq<u8>> {
    let words = pieces(text, 0x20);
    if words.len() < 2 {
        Seq::empty()
    } else {
        telling(pieces(words[1], 0x3b))
    }
}

/// What a media section makes of a payload type.
#[verifier::ext_equal]
pub struct MappingView {
    pub payload_type: Seq<u8>,
    pub codec: Seq<u8>,
    pub parameters: Seq<Seq<u8>>,
}

/// What the parameters that a section gives to a payload type tell.
pub open spec fn section_parameters(
    lines: Seq<LineView>,
    section: nat,
    payload_type: Seq<u8>,
) -> Seq<Seq<u8>>
    decreases lines.len(),
{
    if lines.len() == 0 {
        Seq::empty()
    } else {
        let before = section_parameters(lines.drop_last(), section, payload_type);
        let line = lines.last();
        if line.section == section && starts(line.text, "a=fmtp:"@) && first_word(
            after(line.text, "a=fmtp:"@),
        ) == payload_type {
            before + parameters(after(line.text, "a=fmtp:"@))
        } else {
            before
        }
    }
}

/// What the line maps, if it is an `a=rtpmap` line.
pub open spec fn mapping(lines: Seq<LineView>, line: LineView) -> MappingView {
    let codec = after(line.text, "a=rtpmap:"@);
    MappingView {
        payload_type: first_word(codec),
        codec,
        parameters: section_parameters(lines, line.section, first_word(codec)),
    }
}

/// Whether a codec, which is the second word of `text`, is one that a session
/// may be configured with, or retransmission.
pub open spec fn is_configurable(text: Seq<u8>) -> bool {
    let words = pieces(text, 0x20);
    words.len() >= 2 && {
        ||| starts(words[1], "opus/"@)
        ||| starts(words[1], "H264/"@)
        ||| starts(words[1], "H265/"@)
        ||| starts(words[1], "MPEG4-GENERIC/"@)
        ||| starts(words[1], "rtx/"@)
    }
}

/// Whether a line maps a payload type to a codec that counts.
pub open spec fn maps(line: Seq<u8>) -> bool {
    starts(line, "a=rtpmap:"@) && is_configurable(after(line, "a=rtpmap:"@))
}

/// What the first `n` lines map.
pub open spec fn mappings_to(lines: Seq<LineView>, n: int) -> Seq<MappingView>
    decreases n,
{
    if n <= 0 {
        Seq::empty()
    } else if maps(lines[n - 1].text) {
        mappings_to(lines, n - 1).push(mapping(lines, lines[n - 1]))
    } else {
        mappings_to(lines, n - 1)
    }
}

/// What a description maps.
pub open spec fn mappings(lines: Seq<LineView>) -> Seq<MappingView> {
    mappings_to(lines, lines.len() as int)
}

/// What several descriptions map.
pub open spec fn all_mappings(descriptions: Seq<Seq<char>>) -> Seq<MappingView>
    decreases descriptions.len(),
{
    if descriptions.len() == 0 {
        Seq::empty()
    } else {
        all_mappings(descriptions.drop_last()) + mappings(described(descriptions.last()))
    }
}

/// The last of some parameters that starts with a text, if there is one.
pub open spec fn last_told(parts: Seq<Seq<u8>>, start: Seq<char>, otherwise: Seq<u8>) -> Seq<u8>
    decreases parts.len(),
{
    if parts.len() == 0 {
        otherwise
    } else if starts(parts.last(), start) {
        parts.last()
    } else {
        last_told(parts.drop_last(), start, otherwise)
    }
}

/// What a payload type means: its codec, the payload type that it repairs, and,
/// as far as H.264 goes, its packetization mode and its profile. Without
/// parameters these are the single-unit mode and the baseline profile.
pub struct MeaningView {
    pub codec: Seq<u8>,
    pub repaired: Seq<u8>,
    pub mode: Seq<u8>,
    pub profile: Seq<u8>,
}

/// What a mapping makes its payload type mean.
pub open spec fn meaning(m: MappingView) -> MeaningView {
    MeaningView {
        codec: m.codec,
        repaired: last_told(m.parameters, "apt="@, Seq::empty()),
        mode: last_told(
            m.parameters,
            "packetization-mode="@,
            bytes("packetization-mode=0"@),
        ),
        profile: last_told(m.parameters, "profile-level-id="@, bytes("profile-level-id=4200"@)),
    }
}

/// Whether a payload type means the same wherever it is mapped.
pub open spec fn agree(mappings: Seq<MappingView>) -> bool {
    forall|i: int, j: int|
        0 <= i < mappings.len() && 0 <= j < mappings.len() && (#[trigger] mappings[i]).payload_type
            == (#[trigger] mappings[j]).payload_type ==> meaning(mappings[i]) == meaning(
            mappings[j],
        )
}

/// Whether a payload type repairs no more than one other.
pub open spec fn repairs_one(parameters: Seq<Seq<u8>>) -> bool {
    forall|i: int, j: int|
        0 <= i < parameters.len() && 0 <= j < parameters.len() && starts(
            #[trigger] parameters[i],
            "apt="@,
        ) && starts(#[trigger] parameters[j], "apt="@) ==> parameters[i] == parameters[j]
}

/// Whether one of these lines, in this section, is just this text.
pub open spec fn holds(lines: Seq<LineView>, section: nat, text: Seq<char>) -> bool {
    exists|i: int|
        0 <= i < lines.len() && (#[trigger] lines[i]).section == section && lines[i].text == bytes(
            text,
        )
}

/// Whether a section says that the remote peer sends, and nothing else.
pub open spec fn only_sends(lines: Seq<LineView>, section: nat) -> bool {
    &&& holds(lines, section, "a=sendonly"@)
    &&& !holds(lines, section, "a=sendrecv"@)
    &&& !holds(lines, section, "a=recvonly"@)
    &&& !holds(lines, section, "a=inactive"@)
}

/// Whether a section that maps a payload type may have the remote peer receive.
/// The payload types of such a section stand as the remote peer chose them.
pub open spec fn receives(lines: Seq<LineView>) -> bool {
    exists|i: int|
        0 <= i < lines.len() && maps((#[trigger] lines[i]).text) && !only_sends(
            lines,
            lines[i].section,
        )
}

/// Whether a description asks for a data channel.
pub open spec fn opens_channel(text: Seq<char>) -> bool {
    exists|i: int|
        0 <= i < pieces(bytes(text), 0x0a).len() && starts(
            #[trigger] pieces(bytes(text), 0x0a)[i],
            "m=application"@,
        )
}

/// The descriptions that count once the session was handed another after the
/// `earlier` ones: a refused one counts only where some description asks for a
/// data channel, since it may have taken effect before it failed.
pub open spec fn kept(earlier: Seq<Seq<char>>, text: Seq<char>, accepted: bool) -> Seq<Seq<char>> {
    let all = earlier.push(text);
    if accepted || exists|i: int| 0 <= i < all.len() && opens_channel(#[trigger] all[i]) {
        all
    } else {
        earlier
    }
}

/// Whether a description is unambiguous after the `earlier` ones of its
/// session.
pub open spec fn unambiguous(earlier: Seq<Seq<char>>, text: Seq<char>) -> bool {
    let lines = described(text);
    let all = all_mappings(earlier) + mappings(lines);
    &&& genuine(lines)
    &&& distinct(lines)
    &&& receives(lines) ==> {
        &&& agree(all)
        &&& forall|i: int| 0 <= i < all.len() ==> repairs_one((#[trigger] all[i]).parameters)
    }
}

/// The contents of some byte strings.
spec fn views(strings: Seq<Vec<u8>>) -> Seq<Seq<u8>> {
    Seq::new(strings.len(), |i: int| strings[i]@)
}

/// A line of a description, as it is read.
struct Line {
    section: usize,
    text: Vec<u8>,
}

/// What some lines hold.
spec fn line_views(lines: Seq<Line>) -> Seq<LineView> {
    Seq::new(
        lines.len(),
        |i: int| LineView { section: lines[i].section as nat, text: lines[i].text@ },
    )
}

/// What a media section makes of a payload type, as it is read.
struct Mapping {
    payload_type: Vec<u8>,
    codec: Vec<u8>,
    parameters: Vec<Vec<u8>>,
}

/// What a mapping holds.
spec fn mapping_view(m: Mapping) -> MappingView {
    MappingView {
        payload_type: m.payload_type@,
        codec: m.codec@,
        parameters: views(m.parameters@),
    }
}

/// What some mappings hold.
spec fn mapping_views(mappings: Seq<Mapping>) -> Seq<MappingView> {
    Seq::new(mappings.len(), |i: int| mapping_view(mappings[i]))
}

/// Whether two byte strings are equal.
fn same(a: &Vec<u8>, b: &Vec<u8>) -> (r: bool)
    ensures
        r == (a@ == b@),
{
    if a.len() != b.len() {
        return false;
    }
    let mut i: usize = 0;
    while i < a.len()
        invariant
            i <= a@.len() == b@.len(),
            forall|k: int| 0 <= k < i ==> a@[k] == b@[k],
        decreases a@.len() - i,
    {
        if a[i] != b[i] {
            return false;
        }
        i += 1;
    }
    assert(a@ =~= b@);
    true
}

/// Whether a line starts with a text.
fn begins(line: &Vec<u8>, text: &str) -> (r: bool)
    ensures
        r == starts(line@, text@),
{
    let start: &[u8] = text.as_bytes();
    if line.len() < start.len() {
        return false;
    }
    let mut i: usize = 0;
    while i < start.len()
        invariant
            i <= start@.len() <= line@.len(),
            start@ == bytes(text@),
            forall|k: int| 0 <= k < i ==> line@[k] == start@[k],
        decreases start@.len() - i,
    {
        if line[i] != start[i] {
            assert(line@.subrange(0, start@.len() as int)[i as int] == line@[i as int]);
            return false;
        }
        i += 1;
    }
    assert(line@.subrange(0, start@.len() as int) =~= start@);
    true
}

/// What follows a text that a line starts with.
fn remainder(line: &Vec<u8>, text: &str) -> (r: Vec<u8>)
    requires
        starts(line@, text@),
    ensures
        r@ == after(line@, text@),
{
    let start: usize = text.as_bytes().len();
    let rest: &[u8] = vstd::slice::slice_subrange(line.as_slice(), start, line.len());
    let r: Vec<u8> = vstd::slice::slice_to_vec(rest);
    assert(r@ =~= line@.skip(start as int));
    r
}

/// Whether a byte is among some.
fn holds_byte(line: &Vec<u8>, byte: u8) -> (r: bool)
    ensures
        r == line@.contains(byte),
{
    let mut i: usize = 0;
    while i < line.len()
        invariant
            i <= line@.len(),
            forall|k: int| 0 <= k < i ==> line@[k] != byte,
        decreases line@.len() - i,
    {
        if line[i] == byte {
            return true;
        }
        i += 1;
    }
    false
}

/// Cuts some bytes at the separators.
fn cut(text: &[u8], separator: u8) -> (r: Vec<Vec<u8>>)
    ensures
        views(r@) == pieces(text@, separator),
        r@.len() > 0,
{
    let mut done: Vec<Vec<u8>> = Vec::new();
    let mut current: Vec<u8> = Vec::new();
    let mut i: usize = 0;
    assert(text@.take(0) =~= Seq::empty());
    assert(views(done@).push(current@) =~= seq![Seq::empty()]);
    while i < text.len()
        invariant
            i <= text@.len(),
            views(done@).push(current@) == pieces(text@.take(i as int), separator),
        decreases text@.len() - i,
    {
        let byte: u8 = text[i];
        let ghost before = done@;
        let ghost line = current@;
        assert(text@.take(i + 1).drop_last() =~= text@.take(i as int));
        assert(views(before).push(line).drop_last() =~= views(before));
        if byte == separator {
            done.push(current);
            current = Vec::new();
            assert(views(done@) =~= views(before).push(line));
        } else if byte != 0x0d {
            current.push(byte);
        }
        i += 1;
    }
    assert(text@.take(i as int) =~= text@);
    let ghost before = done@;
    let ghost line = current@;
    done.push(current);
    assert(views(done@) =~= views(before).push(line));
    done
}

/// Reads the lines of a description.
fn read_lines(text: &str) -> (r: Vec<Line>)
    ensures
        line_views(r@) == described(text@),
{
    let lines: Vec<Vec<u8>> = cut(text.as_bytes(), 0x0a);
    let mut r: Vec<Line> = Vec::new();
    let mut section: usize = 0;
    let mut i: usize = 0;
    let ghost all = views(lines@);
    assert(all.take(0) =~= Seq::empty());
    while i < lines.len()
        invariant
            i <= lines@.len(),
            all == views(lines@),
            section <= i,
            section == opened(all.take(i as int)),
            r@.len() == i,
            forall|k: int| 0 <= k < i ==> line_views(r@)[k] == #[trigger] numbered(all)[k],
        decreases lines@.len() - i,
    {
        let line: Vec<u8> = vstd::slice::slice_to_vec(lines[i].as_slice());
        assert(all.take(i + 1).drop_last() =~= all.take(i as int));
        assert(all.take(i + 1).last() == line@);
        if begins(&line, "m=") {
            section += 1;
        }
        let ghost before = r@;
        r.push(Line { section, text: line });
        assert forall|k: int| 0 <= k < i + 1 implies line_views(r@)[k] == #[trigger] numbered(
            all,
        )[k] by {
            if k < i {
                assert(line_views(before)[k] == numbered(all)[k]);
            }
        }
        i += 1;
    }
    assert(line_views(r@) =~= numbered(all));
    r
}

/// The first word of some bytes.
fn read_first_word(text: &Vec<u8>) -> (r: Vec<u8>)
    ensures
        r@ == first_word(text@),
{
    let words: Vec<Vec<u8>> = cut(text.as_slice(), 0x20);
    assert(views(words@)[0] == words@[0]@);
    vstd::slice::slice_to_vec(words[0].as_slice())
}

/// What a format parameter tells.
fn tell(part: &Vec<u8>) -> (r: Option<Vec<u8>>)
    ensures
        match told(part@) {
            Some(text) => r matches Some(given) && given@ == text,
            None => r is None,
        },
{
    if begins(part, "apt=") || begins(part, "packetization-mode=") {
        return Some(vstd::slice::slice_to_vec(part.as_slice()));
    }
    if !begins(part, "profile-level-id=") {
        return None;
    }
    let profile: Vec<u8> = remainder(part, "profile-level-id=");
    if profile.len() != 6 {
        return Some(vstd::slice::slice_to_vec(part.as_slice()));
    }
    let r: Vec<u8> = vstd::slice::slice_to_vec(
        vstd::slice::slice_subrange(part.as_slice(), 0, part.len() - 2),
    );
    assert(r@ =~= part@.take(part@.len() - 2));
    Some(r)
}

/// Adds what the parameters of an `a=fmtp` line tell to what others told.
fn read_parameters(text: &Vec<u8>, parameters_so_far: &mut Vec<Vec<u8>>)
    ensures
        views(final(parameters_so_far)@) == views(old(parameters_so_far)@) + parameters(text@),
{
    let ghost start = views(old(parameters_so_far)@);
    let words: Vec<Vec<u8>> = cut(text.as_slice(), 0x20);
    if words.len() < 2 {
        assert(start + Seq::<Seq<u8>>::empty() =~= start);
        return;
    }
    assert(views(words@)[1] == words@[1]@);
    let parts: Vec<Vec<u8>> = cut(words[1].as_slice(), 0x3b);
    let ghost all = views(parts@);
    let mut i: usize = 0;
    assert(all.take(0) =~= Seq::empty());
    assert(start + Seq::<Seq<u8>>::empty() =~= start);
    while i < parts.len()
        invariant
            i <= parts@.len(),
            all == views(parts@),
            views(parameters_so_far@) == start + telling(all.take(i as int)),
        decreases parts@.len() - i,
    {
        let ghost before = parameters_so_far@;
        let ghost found = telling(all.take(i as int));
        assert(all.take(i + 1).drop_last() =~= all.take(i as int));
        assert(all.take(i + 1).last() == parts@[i as int]@);
        if let Some(part) = tell(&parts[i]) {
            let ghost held = part@;
            parameters_so_far.push(part);
            assert(views(parameters_so_far@) =~= views(before).push(held));
            assert((start + found).push(held) =~= start + found.push(held));
        }
        i += 1;
    }
    assert(all.take(i as int) =~= all);
}

/// What the parameters that a section gives to a payload type tell.
fn read_section_parameters(lines: &Vec<Line>, section: usize, payload_type: &Vec<u8>) -> (r: Vec<
    Vec<u8>,
>)
    ensures
        views(r@) == section_parameters(line_views(lines@), section as nat, payload_type@),
{
    let mut r: Vec<Vec<u8>> = Vec::new();
    let mut i: usize = 0;
    let ghost all = line_views(lines@);
    assert(all.take(0) =~= Seq::empty());
    assert(views(r@) =~= Seq::empty());
    while i < lines.len()
        invariant
            i <= lines@.len(),
            all == line_views(lines@),
            views(r@) == section_parameters(all.take(i as int), section as nat, payload_type@),
        decreases lines@.len() - i,
    {
        assert(all.take(i + 1).drop_last() =~= all.take(i as int));
        assert(all.take(i + 1).last() == all[i as int]);
        if lines[i].section == section && begins(&lines[i].text, "a=fmtp:") {
            let rest: Vec<u8> = remainder(&lines[i].text, "a=fmtp:");
            let word: Vec<u8> = read_first_word(&rest);
            if same(&word, payload_type) {
                read_parameters(&rest, &mut r);
            }
        }
        i += 1;
    }
    assert(all.take(i as int) =~= all);
    r
}

/// Whether a line maps a payload type to a codec that counts.
fn is_mapping(line: &Vec<u8>) -> (r: bool)
    ensures
        r == maps(line@),
{
    if !begins(line, "a=rtpmap:") {
        return false;
    }
    let words: Vec<Vec<u8>> = cut(remainder(line, "a=rtpmap:").as_slice(), 0x20);
    if words.len() < 2 {
        return false;
    }
    assert(views(words@)[1] == words@[1]@);
    begins(&words[1], "opus/") || begins(&words[1], "H264/") || begins(&words[1], "H265/")
        || begins(&words[1], "MPEG4-GENERIC/") || begins(&words[1], "rtx/")
}

/// Adds what a description maps to other mappings.
fn read_mappings(lines: &Vec<Line>, found: &mut Vec<Mapping>)
    ensures
        mapping_views(final(found)@) == mapping_views(old(found)@) + mappings(line_views(lines@)),
{
    let ghost start = mapping_views(old(found)@);
    let ghost all = line_views(lines@);
    let mut i: usize = 0;
    assert(start + Seq::<MappingView>::empty() =~= start);
    while i < lines.len()
        invariant
            i <= lines@.len(),
            all == line_views(lines@),
            mapping_views(found@) == start + mappings_to(all, i as int),
        decreases lines@.len() - i,
    {
        assert(all[i as int].text == lines@[i as int].text@);
        if is_mapping(&lines[i].text) {
            let ghost before = found@;
            let codec: Vec<u8> = remainder(&lines[i].text, "a=rtpmap:");
            let payload_type: Vec<u8> = read_first_word(&codec);
            let parameters: Vec<Vec<u8>> = read_section_parameters(
                lines,
                lines[i].section,
                &payload_type,
            );
            let ghost made = mapping(all, all[i as int]);
            let ghost so_far = mappings_to(all, i as int);
            found.push(Mapping { payload_type, codec, parameters });
            assert(mapping_views(found@) =~= mapping_views(before).push(made));
            assert((start + so_far).push(made) =~= start + so_far.push(made));
        }
        i += 1;
    }
}

/// Whether every line stands for itself.
fn are_genuine(lines: &Vec<Line>) -> (r: bool)
    ensures
        r == genuine(line_views(lines@)),
{
    let ghost all = line_views(lines@);
    let mut i: usize = 0;
    while i < lines.len()
        invariant
            i <= lines@.len(),
            all == line_views(lines@),
            forall|k: int|
                0 <= k < i ==> {
                    &&& starts((#[trigger] all[k]).text, "a=ssrc:"@) ==> after(
                        all[k].text,
                        "a=ssrc:"@,
                    ).contains(0x3a)
                    &&& starts(all[k].text, "b="@) ==> all[k].text.contains(0x3a)
                },
        decreases lines@.len() - i,
    {
        assert(all[i as int].text == lines@[i as int].text@);
        if begins(&lines[i].text, "a=ssrc:") {
            let rest: Vec<u8> = remainder(&lines[i].text, "a=ssrc:");
            if !holds_byte(&rest, 0x3a) {
                return false;
            }
        }
        if begins(&lines[i].text, "b=") && !holds_byte(&lines[i].text, 0x3a) {
            return false;
        }
        i += 1;
    }
    true
}

/// Whether no two media lines share an identity.
fn are_distinct(lines: &Vec<Line>) -> (r: bool)
    ensures
        r == distinct(line_views(lines@)),
{
    let ghost all = line_views(lines@);
    let mut i: usize = 0;
    while i < lines.len()
        invariant
            i <= lines@.len(),
            all == line_views(lines@),
            forall|k: int, l: int|
                0 <= k < i && k < l < all.len() && starts((#[trigger] all[k]).text, "a=mid:"@)
                    ==> (#[trigger] all[l]).text != all[k].text,
        decreases lines@.len() - i,
    {
        assert(all[i as int].text == lines@[i as int].text@);
        if begins(&lines[i].text, "a=mid:") {
            let mut j: usize = i + 1;
            while j < lines.len()
                invariant
                    i < j <= lines@.len(),
                    all == line_views(lines@),
                    starts(all[i as int].text, "a=mid:"@),
                    forall|l: int| i < l < j ==> (#[trigger] all[l]).text != all[i as int].text,
                decreases lines@.len() - j,
            {
                assert(all[j as int].text == lines@[j as int].text@);
                assert(all[i as int].text == lines@[i as int].text@);
                if same(&lines[i].text, &lines[j].text) {
                    return false;
                }
                j += 1;
            }
        }
        i += 1;
    }
    true
}

/// Whether one of these lines, in this section, is just this text.
fn holds_line(lines: &Vec<Line>, section: usize, text: &str) -> (r: bool)
    ensures
        r == holds(line_views(lines@), section as nat, text@),
{
    let wanted: Vec<u8> = vstd::slice::slice_to_vec(text.as_bytes());
    let ghost all = line_views(lines@);
    let mut i: usize = 0;
    while i < lines.len()
        invariant
            i <= lines@.len(),
            all == line_views(lines@),
            wanted@ == bytes(text@),
            forall|k: int|
                0 <= k < i && (#[trigger] all[k]).section == section ==> all[k].text != bytes(text@),
        decreases lines@.len() - i,
    {
        assert(all[i as int].text == lines@[i as int].text@);
        if lines[i].section == section && same(&lines[i].text, &wanted) {
            assert(all[i as int].section == section);
            return true;
        }
        i += 1;
    }
    false
}

/// Whether a section that maps a payload type may have the remote peer receive.
fn may_receive(lines: &Vec<Line>) -> (r: bool)
    ensures
        r == receives(line_views(lines@)),
{
    let ghost all = line_views(lines@);
    let mut i: usize = 0;
    while i < lines.len()
        invariant
            i <= lines@.len(),
            all == line_views(lines@),
            forall|k: int|
                0 <= k < i && maps((#[trigger] all[k]).text) ==> only_sends(
                    all,
                    all[k].section,
                ),
        decreases lines@.len() - i,
    {
        assert(all[i as int].text == lines@[i as int].text@);
        assert(all[i as int].section == lines@[i as int].section);
        if is_mapping(&lines[i].text) {
            let section: usize = lines[i].section;
            let sends: bool = holds_line(lines, section, "a=sendonly") && !holds_line(
                lines,
                section,
                "a=sendrecv",
            ) && !holds_line(lines, section, "a=recvonly") && !holds_line(
                lines,
                section,
                "a=inactive",
            );
            if !sends {
                return true;
            }
        }
        i += 1;
    }
    false
}

/// The last of some parameters that starts with a text, if there is one.
fn find_last(parts: &Vec<Vec<u8>>, start: &str, otherwise: &str) -> (r: Vec<u8>)
    ensures
        r@ == last_told(views(parts@), start@, bytes(otherwise@)),
{
    let ghost all = views(parts@);
    let mut i: usize = parts.len();
    assert(all.take(i as int) =~= all);
    while i > 0
        invariant
            i <= parts@.len(),
            all == views(parts@),
            last_told(all, start@, bytes(otherwise@)) == last_told(
                all.take(i as int),
                start@,
                bytes(otherwise@),
            ),
        decreases i,
    {
        i -= 1;
        assert(all.take(i + 1).drop_last() =~= all.take(i as int));
        assert(all.take(i + 1).last() == parts@[i as int]@);
        if begins(&parts[i], start) {
            return vstd::slice::slice_to_vec(parts[i].as_slice());
        }
    }
    vstd::slice::slice_to_vec(otherwise.as_bytes())
}

/// Whether two mappings make their payload types mean the same.
fn same_meaning(a: &Mapping, b: &Mapping) -> (r: bool)
    ensures
        r == (meaning(mapping_view(*a)) == meaning(mapping_view(*b))),
{
    let (mode, default_mode) = ("packetization-mode=", "packetization-mode=0");
    let (profile, default_profile) = ("profile-level-id=", "profile-level-id=4200");
    proof {
        reveal_strlit("");
        assert(""@ =~= Seq::<char>::empty());
        assert(bytes(""@) =~= Seq::<u8>::empty());
    }
    same(&a.codec, &b.codec) && same(
        &find_last(&a.parameters, "apt=", ""),
        &find_last(&b.parameters, "apt=", ""),
    ) && same(
        &find_last(&a.parameters, mode, default_mode),
        &find_last(&b.parameters, mode, default_mode),
    ) && same(
        &find_last(&a.parameters, profile, default_profile),
        &find_last(&b.parameters, profile, default_profile),
    )
}

/// Whether a payload type means the same wherever it is mapped.
fn all_agree(found: &Vec<Mapping>) -> (r: bool)
    ensures
        r == agree(mapping_views(found@)),
{
    let ghost all = mapping_views(found@);
    let mut i: usize = 0;
    while i < found.len()
        invariant
            i <= found@.len(),
            all == mapping_views(found@),
            forall|k: int, l: int|
                0 <= k < i && 0 <= l < all.len() && (#[trigger] all[k]).payload_type
                    == (#[trigger] all[l]).payload_type ==> meaning(all[k]) == meaning(all[l]),
        decreases found@.len() - i,
    {
        let mut j: usize = 0;
        while j < found.len()
            invariant
                i < found@.len(),
                j <= found@.len(),
                all == mapping_views(found@),
                forall|l: int|
                    0 <= l < j && all[i as int].payload_type == (#[trigger] all[l]).payload_type
                        ==> meaning(all[i as int]) == meaning(all[l]),
            decreases found@.len() - j,
        {
            assert(all[i as int].payload_type == found@[i as int].payload_type@);
            assert(all[j as int].payload_type == found@[j as int].payload_type@);
            if same(&found[i].payload_type, &found[j].payload_type) && !same_meaning(
                &found[i],
                &found[j],
            ) {
                return false;
            }
            j += 1;
        }
        i += 1;
    }
    true
}

/// Whether a payload type repairs no more than one other.
fn repairs_at_most_one(found: &Vec<Vec<u8>>) -> (r: bool)
    ensures
        r == repairs_one(views(found@)),
{
    let ghost all = views(found@);
    let mut i: usize = 0;
    while i < found.len()
        invariant
            i <= found@.len(),
            all == views(found@),
            forall|k: int, l: int|
                0 <= k < i && 0 <= l < all.len() && starts(#[trigger] all[k], "apt="@) && starts(
                    #[trigger] all[l],
                    "apt="@,
                ) ==> all[k] == all[l],
        decreases found@.len() - i,
    {
        assert(all[i as int] == found@[i as int]@);
        if begins(&found[i], "apt=") {
            let mut j: usize = 0;
            while j < found.len()
                invariant
                    i < found@.len(),
                    j <= found@.len(),
                    all == views(found@),
                    starts(all[i as int], "apt="@),
                    forall|l: int|
                        0 <= l < j && starts(#[trigger] all[l], "apt="@) ==> all[i as int] == all[l],
                decreases found@.len() - j,
            {
                assert(all[i as int] == found@[i as int]@);
                assert(all[j as int] == found@[j as int]@);
                if begins(&found[j], "apt=") && !same(&found[i], &found[j]) {
                    return false;
                }
                j += 1;
            }
        }
        i += 1;
    }
    true
}

/// Whether each payload type repairs no more than one other.
fn all_repair_at_most_one(found: &Vec<Mapping>) -> (r: bool)
    ensures
        r == (forall|i: int|
            0 <= i < found@.len() ==> repairs_one(
                (#[trigger] mapping_views(found@)[i]).parameters,
            )),
{
    let ghost all = mapping_views(found@);
    let mut i: usize = 0;
    while i < found.len()
        invariant
            i <= found@.len(),
            all == mapping_views(found@),
            forall|k: int| 0 <= k < i ==> repairs_one((#[trigger] all[k]).parameters),
        decreases found@.len() - i,
    {
        if !repairs_at_most_one(&found[i].parameters) {
            assert(!repairs_one(all[i as int].parameters));
            return false;
        }
        i += 1;
    }
    true
}

/// The longest ICE user fragment, in bytes: a STUN user name holds it, a colon
/// and the sixteen bytes of the local one, and has room for 128.
pub const MAX_FRAGMENT: usize = 111;

/// Whether the ICE user fragments of a description are no longer than they may
/// be.
pub open spec fn is_brief(lines: Seq<LineView>) -> bool {
    forall|i: int|
        0 <= i < lines.len() && starts((#[trigger] lines[i]).text, "a=ice-ufrag:"@) ==> after(
            lines[i].text,
            "a=ice-ufrag:"@,
        ).len() <= MAX_FRAGMENT
}

/// What is wrong with a description after the `earlier` ones of its session, if
/// anything.
pub open spec fn fault(earlier: Seq<Seq<char>>, text: Seq<char>) -> Option<Seq<char>> {
    if !is_brief(described(text)) {
        Some("the ICE user fragment is too long"@)
    } else if !unambiguous(earlier, text) {
        Some("the session description is ambiguous"@)
    } else {
        None
    }
}

/// Whether the ICE user fragments are no longer than they may be.
fn are_brief(lines: &Vec<Line>) -> (r: bool)
    ensures
        r == is_brief(line_views(lines@)),
{
    let ghost all = line_views(lines@);
    let mut i: usize = 0;
    while i < lines.len()
        invariant
            i <= lines@.len(),
            all == line_views(lines@),
            forall|k: int|
                0 <= k < i && starts((#[trigger] all[k]).text, "a=ice-ufrag:"@) ==> after(
                    all[k].text,
                    "a=ice-ufrag:"@,
                ).len() <= MAX_FRAGMENT,
        decreases lines@.len() - i,
    {
        assert(all[i as int].text == lines@[i as int].text@);
        if begins(&lines[i].text, "a=ice-ufrag:") && remainder(
            &lines[i].text,
            "a=ice-ufrag:",
        ).len() > MAX_FRAGMENT {
            return false;
        }
        i += 1;
    }
    true
}

/// What is wrong with a description, as str0m prints it, after the `earlier`
/// ones of its session, if anything.
pub fn find_fault(earlier: &Vec<String>, text: &str) -> (r: Option<String>)
    ensures
        match fault(texts(earlier@), text@) {
            Some(error) => r matches Some(given) && given@ == error,
            None => r is None,
        },
{
    if !are_brief(&read_lines(text)) {
        Some("the ICE user fragment is too long".to_owned())
    } else if !is_unambiguous(earlier, text) {
        Some("the session description is ambiguous".to_owned())
    } else {
        None
    }
}

/// The texts of some descriptions.
pub open spec fn texts(descriptions: Seq<String>) -> Seq<Seq<char>> {
    Seq::new(descriptions.len(), |i: int| descriptions[i]@)
}

/// Whether one of these descriptions asks for a data channel.
pub fn any_opens_channel(descriptions: &Vec<String>) -> (r: bool)
    ensures
        r == exists|i: int|
            0 <= i < descriptions@.len() && opens_channel(#[trigger] texts(descriptions@)[i]),
{
    let ghost all = texts(descriptions@);
    let mut i: usize = 0;
    while i < descriptions.len()
        invariant
            i <= descriptions@.len(),
            all == texts(descriptions@),
            forall|k: int| 0 <= k < i ==> !opens_channel(#[trigger] all[k]),
        decreases descriptions@.len() - i,
    {
        let lines: Vec<Vec<u8>> = cut(descriptions[i].as_str().as_bytes(), 0x0a);
        let ghost pieces = views(lines@);
        assert(all[i as int] == descriptions@[i as int]@);
        let mut j: usize = 0;
        while j < lines.len()
            invariant
                j <= lines@.len(),
                i < descriptions@.len(),
                all == texts(descriptions@),
                pieces == views(lines@),
                pieces == self::pieces(bytes(all[i as int]), 0x0a),
                forall|k: int| 0 <= k < j ==> !starts(#[trigger] pieces[k], "m=application"@),
            decreases lines@.len() - j,
        {
            assert(pieces[j as int] == lines@[j as int]@);
            if begins(&lines[j], "m=application") {
                assert(opens_channel(all[i as int]));
                return true;
            }
            j += 1;
        }
        i += 1;
    }
    false
}

/// Whether a description, as str0m prints it, is unambiguous after the
/// `earlier` ones of its session.
pub fn is_unambiguous(earlier: &Vec<String>, text: &str) -> (r: bool)
    ensures
        r == unambiguous(texts(earlier@), text@),
{
    let lines: Vec<Line> = read_lines(text);
    if !are_genuine(&lines) || !are_distinct(&lines) {
        return false;
    }
    if !may_receive(&lines) {
        return true;
    }
    let mut found: Vec<Mapping> = Vec::new();
    let mut i: usize = 0;
    let ghost all = texts(earlier@);
    assert(all.take(0) =~= Seq::empty());
    assert(mapping_views(found@) =~= Seq::empty());
    while i < earlier.len()
        invariant
            i <= earlier@.len(),
            all == texts(earlier@),
            mapping_views(found@) == all_mappings(all.take(i as int)),
        decreases earlier@.len() - i,
    {
        assert(all.take(i + 1).drop_last() =~= all.take(i as int));
        assert(all.take(i + 1).last() == earlier@[i as int]@);
        let before: Vec<Line> = read_lines(earlier[i].as_str());
        read_mappings(&before, &mut found);
        i += 1;
    }
    assert(all.take(i as int) =~= all);
    read_mappings(&lines, &mut found);
    all_agree(&found) && all_repair_at_most_one(&found)
}

} // verus!
