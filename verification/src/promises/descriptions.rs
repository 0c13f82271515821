//! Which session descriptions are taken, and which are refused.
//!
//! The laws speak of the lines that a description is made of, each ended by a
//! carriage return and a line feed.
use vstd::prelude::*;

use crate::description;
use crate::description::{LineView, MappingView};

verus! {

/// Lines written one after the other, each with its end.
pub open spec fn spelled(lines: Seq<Seq<u8>>) -> Seq<u8>
    decreases lines.len(),
{
    if lines.len() == 0 {
        Seq::empty()
    } else {
        spelled(lines.drop_last()) + lines.last() + seq![0x0du8, 0x0au8]
    }
}

/// Whether a text is these lines, none of which holds the end of one.
pub open spec fn consists_of(text: Seq<char>, lines: Seq<Seq<u8>>) -> bool {
    &&& vstd::utf8::encode_utf8(text) == spelled(lines)
    &&& forall|i: int, k: int|
        0 <= i < lines.len() && 0 <= k < lines[i].len() ==> #[trigger] lines[i][k] != 0x0d
            && lines[i][k] != 0x0a
}

/// Whether a line begins with a text.
pub open spec fn opens(line: Seq<u8>, start: &str) -> bool {
    vstd::utf8::encode_utf8(start@).is_prefix_of(line)
}

/// What a line holds beyond the text that it begins with.
pub open spec fn beyond(line: Seq<u8>, start: &str) -> Seq<u8> {
    line.skip(vstd::utf8::encode_utf8(start@).len() as int)
}

/// Whether a text stands at a place in a line.
pub open spec fn stands_at(line: Seq<u8>, text: &str, place: int) -> bool {
    let bytes = vstd::utf8::encode_utf8(text@);
    &&& 0 <= place
    &&& place + bytes.len() <= line.len()
    &&& line.subrange(place, place + bytes.len()) == bytes
}

/// Whether some bytes are the first word of others: up to the first space, or
/// all of them.
pub open spec fn is_first_word(word: Seq<u8>, rest: Seq<u8>) -> bool {
    &&& word.is_prefix_of(rest)
    &&& !word.contains(0x20)
    &&& word.len() == rest.len() || rest[word.len() as int] == 0x20
}

/// Pieces go on with what is added to the last of them.
proof fn pieces_go_on(text: Seq<u8>, more: Seq<u8>, separator: u8)
    requires
        forall|k: int|
            0 <= k < more.len() ==> #[trigger] more[k] != separator && more[k] != 0x0d,
    ensures
        description::pieces(text, separator).len() > 0,
        description::pieces(text + more, separator) == description::pieces(
            text,
            separator,
        ).drop_last().push(description::pieces(text, separator).last() + more),
    decreases text.len() + more.len(),
{
    let before = description::pieces(text, separator);
    if more.len() == 0 {
        if text.len() > 0 {
            pieces_go_on(text.drop_last(), Seq::empty(), separator);
        }
        assert(text + more =~= text);
        assert(before.last() + more =~= before.last());
        assert(before.drop_last().push(before.last()) =~= before);
    } else {
        let fewer = more.drop_last();
        assert forall|k: int| 0 <= k < fewer.len() implies #[trigger] fewer[k] != separator
            && fewer[k] != 0x0d by {
            assert(more[k] != separator);
        }
        pieces_go_on(text, fewer, separator);
        let all = text + more;
        assert(all.drop_last() =~= text + fewer);
        assert(all.last() == more[more.len() - 1]);
        let last = before.last() + fewer;
        assert(before.drop_last().push(last).drop_last() =~= before.drop_last());
        assert(last.push(more.last()) =~= before.last() + more);
    }
}

/// The lines that were written are read, and an empty one behind them.
proof fn lines_are_read(lines: Seq<Seq<u8>>)
    requires
        forall|i: int, k: int|
            0 <= i < lines.len() && 0 <= k < lines[i].len() ==> #[trigger] lines[i][k] != 0x0d
                && lines[i][k] != 0x0a,
    ensures
        description::pieces(spelled(lines), 0x0a) == lines.push(Seq::empty()),
    decreases lines.len(),
{
    if lines.len() == 0 {
        assert(lines.push(Seq::empty()) =~= seq![Seq::empty()]);
    } else {
        let (fewer, line) = (lines.drop_last(), lines.last());
        assert forall|i: int, k: int| 0 <= i < fewer.len() && 0 <= k < fewer[i].len() implies #[trigger] fewer[i][k]
            != 0x0d && fewer[i][k] != 0x0a by {
            assert(lines[i][k] != 0x0d);
        }
        lines_are_read(fewer);
        let text = spelled(fewer);
        assert forall|k: int| 0 <= k < line.len() implies #[trigger] line[k] != 0x0a && line[k]
            != 0x0d by {
            assert(lines[lines.len() - 1][k] != 0x0d);
        }
        pieces_go_on(text, line, 0x0a);
        let read = description::pieces(text, 0x0a);
        assert(read.last() + line =~= line);
        assert(read.drop_last() =~= fewer);
        assert(fewer.push(line) =~= lines);
        let returned = text + line + seq![0x0du8];
        assert(returned.drop_last() =~= text + line);
        assert(description::pieces(returned, 0x0a) =~= lines);
        let ended = spelled(lines);
        assert(ended.drop_last() =~= returned);
        assert(ended.last() == 0x0a);
    }
}

/// The lines of a description are those that it consists of, and an empty one.
proof fn description_is_read(text: Seq<char>, lines: Seq<Seq<u8>>)
    requires
        consists_of(text, lines),
    ensures
        ({
            let read = description::described(text);
            &&& read.len() == lines.len() + 1
            &&& forall|i: int| 0 <= i < lines.len() ==> (#[trigger] read[i]).text == lines[i]
            &&& read[lines.len() as int].text == Seq::<u8>::empty()
        }),
{
    lines_are_read(lines);
}

/// ASCII text takes a byte for each character.
proof fn ascii_is_encoded(text: &str)
    requires
        vstd::utf8::is_ascii_chars(text@),
    ensures
        vstd::utf8::encode_utf8(text@).len() == text@.len(),
        forall|i: int|
            0 <= i < text@.len() ==> #[trigger] vstd::utf8::encode_utf8(text@)[i] == text@[i] as u8,
{
    vstd::utf8::is_ascii_chars_encode_utf8(text@);
}

/// The beginnings that lines are told apart by are not empty.
proof fn beginnings_are_not_empty()
    ensures
        vstd::utf8::encode_utf8("a=ice-ufrag:"@).len() == 12,
        vstd::utf8::encode_utf8("a=ssrc:"@).len() > 0,
        vstd::utf8::encode_utf8("b="@).len() > 0,
        vstd::utf8::encode_utf8("a=mid:"@).len() > 0,
        vstd::utf8::encode_utf8("a=rtpmap:"@).len() == 9,
        vstd::utf8::encode_utf8("a=fmtp:"@).len() == 7,
        vstd::utf8::encode_utf8("apt="@).len() == 4,
{
    reveal_strlit("a=ice-ufrag:");
    reveal_strlit("a=ssrc:");
    reveal_strlit("b=");
    reveal_strlit("a=mid:");
    reveal_strlit("a=rtpmap:");
    reveal_strlit("a=fmtp:");
    reveal_strlit("apt=");
    ascii_is_encoded("a=ice-ufrag:");
    ascii_is_encoded("a=ssrc:");
    ascii_is_encoded("b=");
    ascii_is_encoded("a=mid:");
    ascii_is_encoded("a=rtpmap:");
    ascii_is_encoded("a=fmtp:");
    ascii_is_encoded("apt=");
}

/// Where a piece begins.
spec fn offset(pieces: Seq<Seq<u8>>, k: int) -> int
    decreases k,
{
    if k <= 0 {
        0
    } else {
        offset(pieces, k - 1) + pieces[k - 1].len() + 1
    }
}

/// Where a piece begins rests on those before it.
proof fn offset_rests_on_earlier_pieces(a: Seq<Seq<u8>>, b: Seq<Seq<u8>>, k: int)
    requires
        forall|i: int| 0 <= i < k ==> #[trigger] a[i] == b[i],
    ensures
        offset(a, k) == offset(b, k),
    decreases k,
{
    if k > 0 {
        assert(a[k - 1] == b[k - 1]);
        offset_rests_on_earlier_pieces(a, b, k - 1);
    }
}

/// Pieces stand in the text one after the other, with the separator between.
#[verifier::spinoff_prover]
#[verifier::rlimit(40)]
proof fn pieces_stand_in_order(text: Seq<u8>, separator: u8)
    requires
        forall|k: int| 0 <= k < text.len() ==> #[trigger] text[k] != 0x0d,
    ensures
        ({
            let pieces = description::pieces(text, separator);
            &&& pieces.len() > 0
            &&& offset(pieces, pieces.len() - 1) + pieces.last().len() == text.len()
            &&& forall|k: int|
                0 <= k < pieces.len() ==> {
                    &&& 0 <= offset(pieces, k)
                    &&& offset(pieces, k) + (#[trigger] pieces[k]).len() <= text.len()
                    &&& text.subrange(
                        offset(pieces, k),
                        offset(pieces, k) + pieces[k].len(),
                    ) == pieces[k]
                    &&& !pieces[k].contains(separator)
                    &&& k + 1 < pieces.len() ==> offset(pieces, k) + pieces[k].len() < text.len()
                        && text[offset(pieces, k) + pieces[k].len()] == separator
                }
        }),
    decreases text.len(),
{
    let pieces = description::pieces(text, separator);
    if text.len() == 0 {
        assert(text.subrange(0, 0) =~= Seq::empty());
    } else {
        let fewer = text.drop_last();
        assert forall|k: int| 0 <= k < fewer.len() implies #[trigger] fewer[k] != 0x0d by {
            assert(text[k] != 0x0d);
        }
        pieces_stand_in_order(fewer, separator);
        let before = description::pieces(fewer, separator);
        let byte = text.last();
        assert(text[text.len() - 1] != 0x0d);
        let n = before.len() - 1;
        assert forall|k: int| 0 <= k < pieces.len() implies {
            &&& 0 <= offset(pieces, k)
            &&& offset(pieces, k) + (#[trigger] pieces[k]).len() <= text.len()
            &&& text.subrange(offset(pieces, k), offset(pieces, k) + pieces[k].len()) == pieces[k]
            &&& !pieces[k].contains(separator)
            &&& k + 1 < pieces.len() ==> offset(pieces, k) + pieces[k].len() < text.len()
                && text[offset(pieces, k) + pieces[k].len()] == separator
        } by {
            if k <= n {
                offset_rests_on_earlier_pieces(before, pieces, k);
                let at = offset(before, k);
                assert(fewer.subrange(at, at + before[k].len()) == before[k]);
                assert forall|i: int| 0 <= i < before[k].len() implies text[at + i]
                    == #[trigger] before[k][i] by {
                    assert(fewer.subrange(at, at + before[k].len())[i] == fewer[at + i]);
                }
                assert(text.subrange(at, at + pieces[k].len()) =~= pieces[k]);
                if pieces[k].contains(separator) {
                    let i = choose|i: int| 0 <= i < pieces[k].len() && pieces[k][i] == separator;
                    if i < before[k].len() {
                        assert(before[k].contains(before[k][i]));
                    }
                }
            } else {
                offset_rests_on_earlier_pieces(before, pieces, n);
                assert(pieces[n] == before[n]);
                assert(offset(pieces, k) == offset(pieces, n) + pieces[n].len() + 1);
                assert(text.subrange(offset(pieces, k), offset(pieces, k)) =~= Seq::empty());
            }
        }
        offset_rests_on_earlier_pieces(before, pieces, n);
    }
}

/// Later pieces begin further on.
proof fn later_pieces_begin_later(pieces: Seq<Seq<u8>>, k: int, l: int)
    requires
        0 <= k < l < pieces.len(),
    ensures
        offset(pieces, k) + pieces[k].len() < offset(pieces, l),
    decreases l,
{
    if k < l - 1 {
        later_pieces_begin_later(pieces, k, l - 1);
    }
}

/// The first word is the first word.
proof fn first_word_is_found(rest: Seq<u8>)
    requires
        forall|k: int| 0 <= k < rest.len() ==> #[trigger] rest[k] != 0x0d,
    ensures
        is_first_word(description::first_word(rest), rest),
{
    pieces_stand_in_order(rest, 0x20);
    let words = description::pieces(rest, 0x20);
    assert(rest.subrange(0, words[0].len() as int) == words[0]);
    if words.len() == 1 {
        assert(words.last() == words[0]);
    }
}

/// There is one first word.
proof fn first_word_is_the_one(word: Seq<u8>, rest: Seq<u8>)
    requires
        is_first_word(word, rest),
        forall|k: int| 0 <= k < rest.len() ==> #[trigger] rest[k] != 0x0d,
    ensures
        description::first_word(rest) == word,
{
    first_word_is_found(rest);
    let found = description::first_word(rest);
    let (a, b) = (word.len() as int, found.len() as int);
    assert(rest.subrange(0, a) == word);
    assert(rest.subrange(0, b) == found);
    if a < b {
        assert(found[a] == rest[a]);
        assert(found.contains(found[a]));
    } else if b < a {
        assert(word[b] == rest[b]);
        assert(word.contains(word[b]));
    }
    assert(word =~= found);
}

/// What is told of parameters comes from them, in order: a parameter that begins
/// with `apt=` is told as it is.
proof fn told_parameters_have_their_places(parts: Seq<Seq<u8>>, i: int) -> (k: int)
    requires
        0 <= i < description::telling(parts).len(),
        opens(description::telling(parts)[i], "apt="),
    ensures
        0 <= k < parts.len(),
        opens(parts[k], "apt="),
    decreases parts.len(),
{
    let told = description::telling(parts);
    let fewer = parts.drop_last();
    let n = description::telling(fewer).len();
    if i < n {
        assert(told[i] == description::telling(fewer)[i]);
        told_parameters_have_their_places(fewer, i)
    } else {
        let (part, given) = (parts.last(), told[i]);
        let start = vstd::utf8::encode_utf8("apt="@);
        assert(part.subrange(0, start.len() as int) =~= given.subrange(0, start.len() as int));
        parts.len() - 1
    }
}

/// Two of them come from two.
proof fn told_parameters_keep_order(parts: Seq<Seq<u8>>, i: int, j: int) -> (places: (int, int))
    requires
        0 <= i < j < description::telling(parts).len(),
        opens(description::telling(parts)[i], "apt="),
        opens(description::telling(parts)[j], "apt="),
    ensures
        0 <= places.0 < places.1 < parts.len(),
        opens(parts[places.0], "apt="),
        opens(parts[places.1], "apt="),
    decreases parts.len(),
{
    let told = description::telling(parts);
    let fewer = parts.drop_last();
    let n = description::telling(fewer).len();
    assert(told[i] == description::telling(fewer)[i]);
    if j < n {
        assert(told[j] == description::telling(fewer)[j]);
        told_parameters_keep_order(fewer, i, j)
    } else {
        let (part, given) = (parts.last(), told[j]);
        let start = vstd::utf8::encode_utf8("apt="@);
        assert(part.subrange(0, start.len() as int) =~= given.subrange(0, start.len() as int));
        (told_parameters_have_their_places(fewer, i), parts.len() - 1)
    }
}

/// A line of format parameters in which `apt=` stands at one place at most has
/// its payload type repair one other at most.
proof fn one_place_repairs_one(rest: Seq<u8>)
    requires
        forall|k: int| 0 <= k < rest.len() ==> #[trigger] rest[k] != 0x0d,
        forall|a: int, b: int|
            #[trigger] stands_at(rest, "apt=", a) && #[trigger] stands_at(rest, "apt=", b) ==> a
                == b,
    ensures
        description::repairs_one(description::parameters(rest)),
{
    let words = description::pieces(rest, 0x20);
    let told = description::parameters(rest);
    if words.len() >= 2 {
        pieces_stand_in_order(rest, 0x20);
        let word = words[1];
        let at = offset(words, 1);
        assert(rest.subrange(at, at + word.len()) == word);
        assert forall|k: int| 0 <= k < word.len() implies #[trigger] word[k] != 0x0d && word[k]
            == rest[at + k] by {
            assert(rest.subrange(at, at + word.len())[k] == rest[at + k]);
        }
        pieces_stand_in_order(word, 0x3b);
        let parts = description::pieces(word, 0x3b);
        assert forall|i: int, j: int|
            0 <= i < j < told.len() && description::starts(#[trigger] told[i], "apt="@)
                && description::starts(#[trigger] told[j], "apt="@) implies false by {
            let (k, l) = told_parameters_keep_order(parts, i, j);
            later_pieces_begin_later(parts, k, l);
            part_stands_in_line(rest, word, at, parts, k);
            part_stands_in_line(rest, word, at, parts, l);
            assert(at + offset(parts, k) == at + offset(parts, l));
        }
    }
}

/// A parameter that begins with `apt=` stands in its line.
proof fn part_stands_in_line(
    rest: Seq<u8>,
    word: Seq<u8>,
    at: int,
    parts: Seq<Seq<u8>>,
    k: int,
)
    requires
        0 <= at,
        at + word.len() <= rest.len(),
        rest.subrange(at, at + word.len()) == word,
        0 <= k < parts.len(),
        0 <= offset(parts, k),
        offset(parts, k) + parts[k].len() <= word.len(),
        word.subrange(offset(parts, k), offset(parts, k) + parts[k].len()) == parts[k],
        opens(parts[k], "apt="),
    ensures
        stands_at(rest, "apt=", at + offset(parts, k)),
{
    let start = vstd::utf8::encode_utf8("apt="@);
    let place = at + offset(parts, k);
    assert(parts[k].subrange(0, start.len() as int) == start);
    assert forall|i: int| 0 <= i < start.len() implies rest[place + i] == #[trigger] start[i] by {
        assert(parts[k].subrange(0, start.len() as int)[i] == parts[k][i]);
        assert(word.subrange(offset(parts, k), offset(parts, k) + parts[k].len())[i]
            == word[offset(parts, k) + i]);
        assert(rest.subrange(at, at + word.len())[offset(parts, k) + i] == rest[place + i]);
    }
    assert(rest.subrange(place, place + start.len()) =~= start);
}

/// Whether a line gives parameters to a payload type.
spec fn gives_parameters(line: LineView, payload_type: Seq<u8>) -> bool {
    description::starts(line.text, "a=fmtp:"@) && description::first_word(
        description::after(line.text, "a=fmtp:"@),
    ) == payload_type
}

/// Where no line gives parameters there are none.
proof fn no_line_no_parameters(lines: Seq<LineView>, section: nat, payload_type: Seq<u8>)
    requires
        forall|i: int| 0 <= i < lines.len() ==> !gives_parameters(#[trigger] lines[i], payload_type),
    ensures
        description::section_parameters(lines, section, payload_type).len() == 0,
    decreases lines.len(),
{
    if lines.len() > 0 {
        assert(!gives_parameters(lines[lines.len() - 1], payload_type));
        assert forall|i: int| 0 <= i < lines.drop_last().len() implies !gives_parameters(
            #[trigger] lines.drop_last()[i],
            payload_type,
        ) by {
            assert(!gives_parameters(lines[i], payload_type));
        }
        no_line_no_parameters(lines.drop_last(), section, payload_type);
    }
}

/// Where one line at most gives parameters, and it has its payload type repair
/// one other at most, so does the section.
proof fn one_line_repairs_one(lines: Seq<LineView>, section: nat, payload_type: Seq<u8>)
    requires
        forall|i: int, j: int|
            0 <= i < j < lines.len() && gives_parameters(#[trigger] lines[i], payload_type)
                ==> !gives_parameters(#[trigger] lines[j], payload_type),
        forall|i: int|
            0 <= i < lines.len() && gives_parameters(#[trigger] lines[i], payload_type)
                ==> description::repairs_one(
                description::parameters(description::after(lines[i].text, "a=fmtp:"@)),
            ),
    ensures
        description::repairs_one(
            description::section_parameters(lines, section, payload_type),
        ),
    decreases lines.len(),
{
    if lines.len() > 0 {
        let fewer = lines.drop_last();
        let last = lines.len() - 1;
        if gives_parameters(lines[last], payload_type) {
            assert forall|i: int| 0 <= i < fewer.len() implies !gives_parameters(
                #[trigger] fewer[i],
                payload_type,
            ) by {
                assert(fewer[i] == lines[i]);
            }
            no_line_no_parameters(fewer, section, payload_type);
            let given = description::parameters(description::after(lines[last].text, "a=fmtp:"@));
            assert(description::section_parameters(fewer, section, payload_type) + given =~= given);
        } else {
            assert forall|i: int, j: int|
                0 <= i < j < fewer.len() && gives_parameters(#[trigger] fewer[i], payload_type) implies !gives_parameters(
                #[trigger] fewer[j],
                payload_type,
            ) by {
                assert(fewer[i] == lines[i] && fewer[j] == lines[j]);
            }
            assert forall|i: int|
                0 <= i < fewer.len() && gives_parameters(#[trigger] fewer[i], payload_type) implies description::repairs_one(
                description::parameters(description::after(fewer[i].text, "a=fmtp:"@)),
            ) by {
                assert(fewer[i] == lines[i]);
            }
            one_line_repairs_one(fewer, section, payload_type);
        }
    }
}

/// The line that a mapping was read from.
proof fn mapping_has_a_line(lines: Seq<LineView>, n: int, k: int) -> (i: int)
    requires
        0 <= n <= lines.len(),
        0 <= k < description::mappings_to(lines, n).len(),
    ensures
        0 <= i < n,
        description::maps(lines[i].text),
        description::mappings_to(lines, n)[k] == description::mapping(lines, lines[i]),
    decreases n,
{
    let before = description::mappings_to(lines, n - 1);
    if k < before.len() {
        mapping_has_a_line(lines, n - 1, k)
    } else {
        n - 1
    }
}

/// Two mappings were read from two lines.
proof fn mappings_have_their_lines(lines: Seq<LineView>, n: int, k: int, l: int) -> (places: (
    int,
    int,
))
    requires
        0 <= n <= lines.len(),
        0 <= k < l < description::mappings_to(lines, n).len(),
    ensures
        0 <= places.0 < places.1 < n,
        description::maps(lines[places.0].text),
        description::maps(lines[places.1].text),
        description::mappings_to(lines, n)[k] == description::mapping(lines, lines[places.0]),
        description::mappings_to(lines, n)[l] == description::mapping(lines, lines[places.1]),
    decreases n,
{
    let before = description::mappings_to(lines, n - 1);
    if l < before.len() {
        mappings_have_their_lines(lines, n - 1, k, l)
    } else {
        (mapping_has_a_line(lines, n - 1, k), n - 1)
    }
}

/// A line that maps a payload type is among the mappings.
proof fn line_has_a_mapping(lines: Seq<LineView>, n: int, i: int) -> (k: int)
    requires
        0 <= i < n <= lines.len(),
        description::maps(lines[i].text),
    ensures
        0 <= k < description::mappings_to(lines, n).len(),
        description::mappings_to(lines, n)[k] == description::mapping(lines, lines[i]),
    decreases n,
{
    let before = description::mappings_to(lines, n - 1);
    if i == n - 1 {
        before.len() as int
    } else {
        line_has_a_mapping(lines, n - 1, i)
    }
}

/// A session's first description is taken if no ICE user fragment in it is
/// longer than 111 bytes, however short it is, no two lines give the same media
/// identity, every source and bandwidth line has its colon, no payload type is
/// mapped twice, unless to the same codec and without parameters, or given
/// parameters twice, and no line names two payload types that one repairs.
pub proof fn ordinary_description_is_taken(text: Seq<char>, lines: Seq<Seq<u8>>)
    requires
        consists_of(text, lines),
        forall|i: int|
            0 <= i < lines.len() && opens(#[trigger] lines[i], "a=ice-ufrag:") ==> beyond(
                lines[i],
                "a=ice-ufrag:",
            ).len() <= 111,
        forall|i: int, j: int|
            0 <= i < j < lines.len() && opens(#[trigger] lines[i], "a=mid:") ==> lines[i]
                != #[trigger] lines[j],
        forall|i: int|
            0 <= i < lines.len() && opens(#[trigger] lines[i], "a=ssrc:") ==> beyond(
                lines[i],
                "a=ssrc:",
            ).contains(0x3a),
        forall|i: int|
            0 <= i < lines.len() && opens(#[trigger] lines[i], "b=") ==> lines[i].contains(0x3a),
        forall|i: int, j: int, word: Seq<u8>|
            0 <= i < j < lines.len() && opens(lines[i], "a=rtpmap:") && opens(lines[j], "a=rtpmap:")
                && #[trigger] is_first_word(word, beyond(lines[i], "a=rtpmap:"))
                && #[trigger] is_first_word(word, beyond(lines[j], "a=rtpmap:")) ==> beyond(
                lines[i],
                "a=rtpmap:",
            ) == beyond(lines[j], "a=rtpmap:") && forall|k: int|
                0 <= k < lines.len() && opens(#[trigger] lines[k], "a=fmtp:") ==> !is_first_word(
                    word,
                    beyond(lines[k], "a=fmtp:"),
                ),
        forall|i: int, j: int, word: Seq<u8>|
            0 <= i < j < lines.len() && opens(lines[i], "a=fmtp:") && opens(lines[j], "a=fmtp:")
                && #[trigger] is_first_word(word, beyond(lines[i], "a=fmtp:"))
                ==> !#[trigger] is_first_word(word, beyond(lines[j], "a=fmtp:")),
        forall|i: int, a: int, b: int|
            0 <= i < lines.len() && opens(lines[i], "a=fmtp:") && #[trigger] stands_at(
                beyond(lines[i], "a=fmtp:"),
                "apt=",
                a,
            ) && #[trigger] stands_at(beyond(lines[i], "a=fmtp:"), "apt=", b) ==> a == b,
    ensures
        description::fault(Seq::empty(), text) is None,
{
    description_is_read(text, lines);
    beginnings_are_not_empty();
    let read = description::described(text);
    let n = lines.len() as int;
    assert forall|i: int, start: Seq<char>|
        0 <= i < read.len() && #[trigger] description::starts(read[i].text, start)
            && vstd::utf8::encode_utf8(start).len() > 0 implies i < n by {}
    let found = description::mappings(read);
    assert(description::all_mappings(Seq::empty()) + found =~= found);
    assert forall|k: int, l: int|
        0 <= k < l < found.len() && found[k].payload_type == found[l].payload_type implies found[k]
        == found[l] by {
        let (i, j) = mappings_have_their_lines(read, read.len() as int, k, l);
        word_of_line(lines[i], "a=rtpmap:", lines, i);
        word_of_line(lines[j], "a=rtpmap:", lines, j);
        let word = description::first_word(beyond(lines[i], "a=rtpmap:"));
        assert(is_first_word(word, beyond(lines[i], "a=rtpmap:")));
        assert(is_first_word(word, beyond(lines[j], "a=rtpmap:")));
        assert forall|a: int| 0 <= a < read.len() implies !gives_parameters(
            #[trigger] read[a],
            word,
        ) by {
            if gives_parameters(read[a], word) {
                word_of_line(lines[a], "a=fmtp:", lines, a);
            }
        }
        no_line_no_parameters(read, read[i].section, word);
        no_line_no_parameters(read, read[j].section, word);
        assert(found[k].parameters =~= found[l].parameters);
    }
    assert forall|k: int| 0 <= k < found.len() implies description::repairs_one(
        (#[trigger] found[k]).parameters,
    ) by {
        let i = mapping_has_a_line(read, read.len() as int, k);
        let word = found[k].payload_type;
        assert forall|a: int, b: int|
            0 <= a < b < read.len() && gives_parameters(#[trigger] read[a], word) implies !gives_parameters(
            #[trigger] read[b],
            word,
        ) by {
            if gives_parameters(read[b], word) {
                word_of_line(lines[a], "a=fmtp:", lines, a);
                word_of_line(lines[b], "a=fmtp:", lines, b);
                assert(is_first_word(word, beyond(lines[a], "a=fmtp:")));
            }
        }
        assert forall|a: int|
            0 <= a < read.len() && gives_parameters(#[trigger] read[a], word) implies description::repairs_one(
            description::parameters(description::after(read[a].text, "a=fmtp:"@)),
        ) by {
            let rest = beyond(lines[a], "a=fmtp:");
            word_of_line(lines[a], "a=fmtp:", lines, a);
            one_place_repairs_one(rest);
        }
        one_line_repairs_one(read, read[i].section, word);
    }
}

/// What follows the beginning of a line holds no carriage return, and has its
/// first word.
proof fn word_of_line(line: Seq<u8>, start: &str, lines: Seq<Seq<u8>>, i: int)
    requires
        0 <= i < lines.len(),
        line == lines[i],
        opens(line, start),
        forall|i: int, k: int|
            0 <= i < lines.len() && 0 <= k < lines[i].len() ==> #[trigger] lines[i][k] != 0x0d
                && lines[i][k] != 0x0a,
    ensures
        forall|k: int|
            0 <= k < beyond(line, start).len() ==> #[trigger] beyond(line, start)[k] != 0x0d,
        is_first_word(description::first_word(beyond(line, start)), beyond(line, start)),
{
    let n = vstd::utf8::encode_utf8(start@).len() as int;
    let rest = beyond(line, start);
    assert forall|k: int| 0 <= k < rest.len() implies #[trigger] rest[k] != 0x0d by {
        assert(rest[k] == lines[i][n + k]);
    }
    first_word_is_found(rest);
}

/// What is found wrong with a description is what is wrong with it.
pub proof fn fault_is_found(
    earlier: &Vec<String>,
    text: &str,
    r: Option<String>,
    unambiguous: bool,
)
    requires
        call_ensures(description::find_fault, (earlier, text), r),
        call_ensures(description::is_unambiguous, (earlier, text), unambiguous),
    ensures
        ({
            let before = Seq::new(earlier@.len(), |i: int| earlier@[i]@);
            &&& r is Some <==> description::fault(before, text@) is Some
            &&& r matches Some(reason) ==> description::fault(before, text@) == Some(reason@)
            &&& r is None ==> unambiguous
            &&& !unambiguous ==> (r matches Some(reason) && (reason@
                == "the session description is ambiguous"@ || reason@
                == "the ICE user fragment is too long"@))
        }),
{
    let before = Seq::new(earlier@.len(), |i: int| earlier@[i]@);
    assert(before =~= description::texts(earlier@));
}

/// A description is refused for an ICE user fragment just if one is longer than
/// 111 bytes, whatever came before it.
pub proof fn long_fragment_is_refused(
    earlier: Seq<Seq<char>>,
    text: Seq<char>,
    lines: Seq<Seq<u8>>,
)
    requires
        consists_of(text, lines),
    ensures
        description::fault(earlier, text) == Some("the ICE user fragment is too long"@) <==> exists|
            i: int,
        |
            0 <= i < lines.len() && opens(#[trigger] lines[i], "a=ice-ufrag:") && beyond(
                lines[i],
                "a=ice-ufrag:",
            ).len() > 111,
        description::fault(earlier, text) is Some ==> description::fault(earlier, text) == Some(
            "the ICE user fragment is too long"@,
        ) || description::fault(earlier, text) == Some("the session description is ambiguous"@),
{
    reveal_strlit("the ICE user fragment is too long");
    reveal_strlit("the session description is ambiguous");
    assert("the ICE user fragment is too long"@[4] == 'I');
    assert("the session description is ambiguous"@[4] == 's');
    description_is_read(text, lines);
    beginnings_are_not_empty();
    let read = description::described(text);
    if exists|i: int|
        0 <= i < lines.len() && opens(#[trigger] lines[i], "a=ice-ufrag:") && beyond(
            lines[i],
            "a=ice-ufrag:",
        ).len() > 111 {
        let i = choose|i: int|
            0 <= i < lines.len() && opens(#[trigger] lines[i], "a=ice-ufrag:") && beyond(
                lines[i],
                "a=ice-ufrag:",
            ).len() > 111;
        assert(read[i].text == lines[i]);
    }
    if !description::is_brief(read) {
        let i = choose|i: int|
            0 <= i < read.len() && description::starts(
                (#[trigger] read[i]).text,
                "a=ice-ufrag:"@,
            ) && description::after(read[i].text, "a=ice-ufrag:"@).len() > 111;
        assert(read[i].text == lines[i]);
    }
}

/// A description in which two lines give the same media identity, or a source or
/// bandwidth line lacks its colon, is refused, whatever came before it.
pub proof fn misleading_line_is_refused(
    earlier: Seq<Seq<char>>,
    text: Seq<char>,
    lines: Seq<Seq<u8>>,
    i: int,
    j: int,
)
    requires
        consists_of(text, lines),
        0 <= i < lines.len(),
        (i < j < lines.len() && opens(lines[i], "a=mid:") && lines[i] == lines[j]) || (opens(lines[i], "a=ssrc:")
            && !beyond(lines[i], "a=ssrc:").contains(0x3a)) || (opens(lines[i], "b=")
            && !lines[i].contains(0x3a)),
    ensures
        description::fault(earlier, text) is Some,
{
    description_is_read(text, lines);
    let read = description::described(text);
    assert(read[i].text == lines[i]);
    if i < j < lines.len() {
        assert(read[j].text == lines[j]);
    }
}

/// A description that was taken is taken again, after itself.
pub proof fn repeated_description_is_taken(earlier: Seq<Seq<char>>, text: Seq<char>)
    requires
        description::fault(earlier, text) is None,
    ensures
        description::fault(earlier.push(text), text) is None,
{
    let lines = description::described(text);
    let found = description::mappings(lines);
    let once = description::all_mappings(earlier) + found;
    let again = earlier.push(text);
    assert(again.drop_last() =~= earlier);
    let twice = description::all_mappings(again) + found;
    assert(twice =~= once + found);
    let n = description::all_mappings(earlier).len() as int;
    if description::receives(lines) {
        assert forall|i: int| 0 <= i < twice.len() implies exists|k: int|
            0 <= k < once.len() && #[trigger] once[k] == #[trigger] twice[i] by {
            if i < once.len() {
                assert(once[i] == twice[i]);
            } else {
                assert(once[n + i - once.len()] == twice[i]);
            }
        }
        assert forall|i: int, j: int|
            0 <= i < twice.len() && 0 <= j < twice.len() && (#[trigger] twice[i]).payload_type
                == (#[trigger] twice[j]).payload_type implies description::meaning(twice[i])
            == description::meaning(twice[j]) by {
            let k = choose|k: int| 0 <= k < once.len() && #[trigger] once[k] == twice[i];
            let l = choose|l: int| 0 <= l < once.len() && #[trigger] once[l] == twice[j];
            assert(once[k].payload_type == once[l].payload_type);
        }
        assert forall|i: int| 0 <= i < twice.len() implies description::repairs_one(
            (#[trigger] twice[i]).parameters,
        ) by {
            let k = choose|k: int| 0 <= k < once.len() && #[trigger] once[k] == twice[i];
            assert(description::repairs_one(once[k].parameters));
        }
    }
}

/// What a description without a section that only sends maps has the same meaning
/// throughout, if it is taken.
proof fn taken_mappings_agree(text: Seq<char>, lines: Seq<Seq<u8>>)
    requires
        consists_of(text, lines),
        description::fault(Seq::empty(), text) is None,
        forall|k: int|
            0 <= k < lines.len() ==> #[trigger] lines[k] != vstd::utf8::encode_utf8("a=sendonly"@),
    ensures
        ({
            let found = description::mappings(description::described(text));
            &&& description::agree(found)
            &&& forall|k: int|
                0 <= k < found.len() ==> description::repairs_one((#[trigger] found[k]).parameters)
        }),
{
    let read = description::described(text);
    let found = description::mappings(read);
    assert(description::all_mappings(Seq::empty()) + found =~= found);
    description_is_read(text, lines);
    reveal_strlit("a=sendonly");
    ascii_is_encoded("a=sendonly");
    if found.len() > 0 {
        let i = mapping_has_a_line(read, read.len() as int, 0);
        assert forall|m: int| 0 <= m < read.len() implies (#[trigger] read[m]).text
            != description::bytes("a=sendonly"@) by {
            if m < lines.len() {
                assert(read[m].text == lines[m]);
            }
        }
        assert(!description::only_sends(read, read[i].section));
        assert(description::receives(read));
    }
}

/// A session may be handed a second description that differs from the first: if
/// each would be taken alone, and they map no payload type in common, the second
/// is taken after the first.
pub proof fn second_description_may_differ(
    first: Seq<char>,
    before: Seq<Seq<u8>>,
    text: Seq<char>,
    lines: Seq<Seq<u8>>,
)
    requires
        consists_of(first, before),
        consists_of(text, lines),
        description::fault(Seq::empty(), first) is None,
        description::fault(Seq::empty(), text) is None,
        forall|k: int|
            0 <= k < before.len() ==> #[trigger] before[k] != vstd::utf8::encode_utf8(
                "a=sendonly"@,
            ),
        forall|k: int|
            0 <= k < lines.len() ==> #[trigger] lines[k] != vstd::utf8::encode_utf8("a=sendonly"@),
        forall|i: int, j: int, word: Seq<u8>|
            0 <= i < before.len() && 0 <= j < lines.len() && opens(before[i], "a=rtpmap:") && opens(
                lines[j],
                "a=rtpmap:",
            ) && #[trigger] is_first_word(word, beyond(before[i], "a=rtpmap:"))
                ==> !#[trigger] is_first_word(word, beyond(lines[j], "a=rtpmap:")),
    ensures
        description::fault(seq![first], text) is None,
{
    taken_mappings_agree(first, before);
    taken_mappings_agree(text, lines);
    beginnings_are_not_empty();
    description_is_read(first, before);
    description_is_read(text, lines);
    let (told, read) = (description::described(first), description::described(text));
    let (old, new) = (description::mappings(told), description::mappings(read));
    let one = seq![first];
    assert(one.drop_last() =~= Seq::empty());
    assert(description::all_mappings(Seq::empty()) + old =~= old);
    assert(description::all_mappings(one) == old);
    let all = old + new;
    assert forall|k: int, l: int| 0 <= k < old.len() && 0 <= l < new.len() implies (
    #[trigger] old[k]).payload_type != (#[trigger] new[l]).payload_type by {
        let i = mapping_has_a_line(told, told.len() as int, k);
        let j = mapping_has_a_line(read, read.len() as int, l);
        word_of_line(before[i], "a=rtpmap:", before, i);
        word_of_line(lines[j], "a=rtpmap:", lines, j);
        let word = description::first_word(beyond(before[i], "a=rtpmap:"));
        assert(is_first_word(word, beyond(before[i], "a=rtpmap:")));
    }
    assert forall|k: int, l: int|
        0 <= k < all.len() && 0 <= l < all.len() && (#[trigger] all[k]).payload_type == (
        #[trigger] all[l]).payload_type implies description::meaning(all[k])
        == description::meaning(all[l]) by {
        let n = old.len();
        if k < n && l < n {
            assert(all[k] == old[k] && all[l] == old[l]);
        } else if k >= n && l >= n {
            assert(all[k] == new[k - n] && all[l] == new[l - n]);
        } else if k < n {
            assert(all[k] == old[k] && all[l] == new[l - n]);
        } else {
            assert(all[k] == new[k - n] && all[l] == old[l]);
        }
    }
    assert forall|k: int| 0 <= k < all.len() implies description::repairs_one(
        (#[trigger] all[k]).parameters,
    ) by {
        if k < old.len() {
            assert(all[k] == old[k]);
        } else {
            assert(all[k] == new[k - old.len()]);
        }
    }
}

/// Whether what follows `a=rtpmap:` maps a payload type to one of the codecs
/// that a session may carry, or to retransmission.
pub open spec fn maps_to_a_codec(rest: Seq<u8>, word: Seq<u8>) -> bool {
    let place = word.len() as int + 1;
    &&& is_first_word(word, rest)
    &&& {
        ||| stands_at(rest, "opus/", place)
        ||| stands_at(rest, "H264/", place)
        ||| stands_at(rest, "H265/", place)
        ||| stands_at(rest, "MPEG4-GENERIC/", place)
        ||| stands_at(rest, "rtx/", place)
    }
}

/// A text without a space that stands behind the first word begins the second.
proof fn second_word_begins_so(rest: Seq<u8>, word: Seq<u8>, text: &str)
    requires
        is_first_word(word, rest),
        forall|k: int| 0 <= k < rest.len() ==> #[trigger] rest[k] != 0x0d,
        stands_at(rest, text, word.len() as int + 1),
        vstd::utf8::is_ascii_chars(text@),
        forall|i: int| 0 <= i < text@.len() ==> #[trigger] text@[i] != ' ',
        text@.len() > 0,
    ensures
        description::pieces(rest, 0x20).len() >= 2,
        description::starts(description::pieces(rest, 0x20)[1], text@),
{
    ascii_is_encoded(text);
    pieces_stand_in_order(rest, 0x20);
    first_word_is_the_one(word, rest);
    let words = description::pieces(rest, 0x20);
    let bytes = vstd::utf8::encode_utf8(text@);
    let place = word.len() as int + 1;
    assert(words[0] == word);
    if words.len() == 1 {
        assert(words.last() == word);
    }
    assert(offset(words, 0) == 0);
    assert(offset(words, 1) == place);
    let second = words[1];
    assert(rest.subrange(place, place + second.len()) == second);
    if second.len() < bytes.len() {
        let k = second.len() as int;
        if words.len() > 2 {
            assert(rest[place + k] == 0x20);
            assert(rest.subrange(place, place + bytes.len())[k] == rest[place + k]);
            assert(bytes[k] == text@[k] as u8);
        } else {
            assert(words.last() == second);
        }
    }
    assert forall|k: int| 0 <= k < bytes.len() implies second[k] == #[trigger] bytes[k] by {
        assert(rest.subrange(place, place + second.len())[k] == rest[place + k]);
        assert(rest.subrange(place, place + bytes.len())[k] == rest[place + k]);
    }
    assert(second.subrange(0, bytes.len() as int) =~= bytes);
}

/// A line that maps a payload type to a codec counts.
proof fn line_counts(text: Seq<char>, lines: Seq<Seq<u8>>, i: int, word: Seq<u8>) -> (k: int)
    requires
        consists_of(text, lines),
        0 <= i < lines.len(),
        opens(lines[i], "a=rtpmap:"),
        maps_to_a_codec(beyond(lines[i], "a=rtpmap:"), word),
    ensures
        description::maps(description::described(text)[i].text),
        0 <= k < description::mappings(description::described(text)).len(),
        description::mappings(description::described(text))[k].payload_type == word,
        description::mappings(description::described(text))[k].codec == beyond(
            lines[i],
            "a=rtpmap:",
        ),
{
    description_is_read(text, lines);
    word_of_line(lines[i], "a=rtpmap:", lines, i);
    let rest = beyond(lines[i], "a=rtpmap:");
    let read = description::described(text);
    let place = word.len() as int + 1;
    assert(read[i].text == lines[i]);
    reveal_strlit("opus/");
    reveal_strlit("H264/");
    reveal_strlit("H265/");
    reveal_strlit("MPEG4-GENERIC/");
    reveal_strlit("rtx/");
    if stands_at(rest, "opus/", place) {
        second_word_begins_so(rest, word, "opus/");
    } else if stands_at(rest, "H264/", place) {
        second_word_begins_so(rest, word, "H264/");
    } else if stands_at(rest, "H265/", place) {
        second_word_begins_so(rest, word, "H265/");
    } else if stands_at(rest, "MPEG4-GENERIC/", place) {
        second_word_begins_so(rest, word, "MPEG4-GENERIC/");
    } else {
        second_word_begins_so(rest, word, "rtx/");
    }
    first_word_is_the_one(word, rest);
    line_has_a_mapping(read, read.len() as int, i)
}

/// More lines open no fewer sections.
proof fn sections_add_up(lines: Seq<Seq<u8>>, a: int, b: int)
    requires
        0 <= a <= b <= lines.len(),
    ensures
        description::opened(lines.take(a)) <= description::opened(lines.take(b)),
        a < b && opens(lines[b - 1], "m=") ==> description::opened(lines.take(a))
            < description::opened(lines.take(b)),
    decreases b - a,
{
    if a < b {
        sections_add_up(lines, a, b - 1);
        assert(lines.take(b).drop_last() =~= lines.take(b - 1));
        assert(lines.take(b).last() == lines[b - 1]);
    }
}

/// Whether the lines from `s` on, up to `e`, are a section of a description, or
/// what stands before the first.
pub open spec fn is_section(lines: Seq<Seq<u8>>, s: int, e: int) -> bool {
    &&& 0 <= s < e <= lines.len()
    &&& s == 0 || opens(lines[s], "m=")
    &&& e == lines.len() || opens(lines[e], "m=")
    &&& forall|k: int| s < k < e ==> !opens(#[trigger] lines[k], "m=")
}

/// Lines are in one section just if they stand in the same.
proof fn section_holds_its_lines(
    text: Seq<char>,
    lines: Seq<Seq<u8>>,
    s: int,
    e: int,
    i: int,
    k: int,
)
    requires
        consists_of(text, lines),
        is_section(lines, s, e),
        s <= i < e,
        0 <= k < lines.len(),
    ensures
        description::described(text)[i].section == description::described(text)[k].section <==> s
            <= k < e,
{
    lines_are_read(lines);
    let all = lines.push(Seq::empty());
    assert(all.take(i + 1) =~= lines.take(i + 1));
    assert(all.take(k + 1) =~= lines.take(k + 1));
    if k < s {
        sections_add_up(lines, k + 1, s + 1);
        sections_add_up(lines, s + 1, i + 1);
    } else if k >= e {
        sections_add_up(lines, i + 1, e + 1);
        sections_add_up(lines, e + 1, k + 1);
    } else if i <= k {
        section_is_not_left(lines, i, k);
    } else {
        section_is_not_left(lines, k, i);
    }
}

/// Lines that open no section stay in theirs.
proof fn section_is_not_left(lines: Seq<Seq<u8>>, i: int, k: int)
    requires
        0 <= i <= k < lines.len(),
        forall|m: int| i < m <= k ==> !opens(#[trigger] lines[m], "m="),
    ensures
        description::opened(lines.take(i + 1)) == description::opened(lines.take(k + 1)),
    decreases k - i,
{
    if i < k {
        section_is_not_left(lines, i, k - 1);
        assert(lines.take(k + 1).drop_last() =~= lines.take(k));
        assert(lines.take(k + 1).last() == lines[k]);
    }
}

/// A description with a section that maps a payload type and does not only send
/// must not map one to another codec than it mapped it to elsewhere, or than an
/// earlier description of the session did.
pub proof fn conflicting_payload_type_is_refused(
    earlier: Seq<char>,
    before: Seq<Seq<u8>>,
    text: Seq<char>,
    lines: Seq<Seq<u8>>,
    i: int,
    j: int,
    word: Seq<u8>,
    s: int,
    e: int,
)
    requires
        consists_of(earlier, before),
        consists_of(text, lines),
        is_section(lines, s, e),
        s <= i < e,
        (forall|k: int|
            s <= k < e ==> #[trigger] lines[k] != vstd::utf8::encode_utf8("a=sendonly"@)) || (
        exists|k: int|
            s <= k < e && (#[trigger] lines[k] == vstd::utf8::encode_utf8("a=sendrecv"@)
                || lines[k] == vstd::utf8::encode_utf8("a=recvonly"@) || lines[k]
                == vstd::utf8::encode_utf8("a=inactive"@))),
        opens(lines[i], "a=rtpmap:"),
        maps_to_a_codec(beyond(lines[i], "a=rtpmap:"), word),
        (0 <= j < lines.len() && opens(lines[j], "a=rtpmap:") && maps_to_a_codec(
            beyond(lines[j], "a=rtpmap:"),
            word,
        ) && beyond(lines[j], "a=rtpmap:") != beyond(lines[i], "a=rtpmap:")) || (0 <= j
            < before.len() && opens(before[j], "a=rtpmap:") && maps_to_a_codec(
            beyond(before[j], "a=rtpmap:"),
            word,
        ) && beyond(before[j], "a=rtpmap:") != beyond(lines[i], "a=rtpmap:")),
    ensures
        description::fault(seq![earlier], text) is Some,
{
    let read = description::described(text);
    description_is_read(text, lines);
    let k = line_counts(text, lines, i, word);
    let section = read[i].section;
    assert(!description::only_sends(read, section)) by {
        reveal_strlit("a=sendonly");
        ascii_is_encoded("a=sendonly");
        if exists|k: int|
            s <= k < e && (#[trigger] lines[k] == vstd::utf8::encode_utf8("a=sendrecv"@)
                || lines[k] == vstd::utf8::encode_utf8("a=recvonly"@) || lines[k]
                == vstd::utf8::encode_utf8("a=inactive"@)) {
            let k = choose|k: int|
                s <= k < e && (#[trigger] lines[k] == vstd::utf8::encode_utf8("a=sendrecv"@)
                    || lines[k] == vstd::utf8::encode_utf8("a=recvonly"@) || lines[k]
                    == vstd::utf8::encode_utf8("a=inactive"@));
            section_holds_its_lines(text, lines, s, e, i, k);
            assert(read[k].text == lines[k]);
        } else {
            assert forall|m: int|
                0 <= m < read.len() && (#[trigger] read[m]).section == section implies read[m].text
                != description::bytes("a=sendonly"@) by {
                if m < lines.len() {
                    section_holds_its_lines(text, lines, s, e, i, m);
                    assert(read[m].text == lines[m]);
                }
            }
        }
    }
    assert(description::receives(read));
    let one = seq![earlier];
    assert(one.drop_last() =~= Seq::empty());
    let old = description::mappings(description::described(earlier));
    assert(description::all_mappings(Seq::empty()) + old =~= old);
    assert(description::all_mappings(one) == old);
    let found = description::mappings(read);
    let all = old + found;
    assert(all[old.len() + k] == found[k]);
    if 0 <= j < lines.len() && opens(lines[j], "a=rtpmap:") && maps_to_a_codec(
        beyond(lines[j], "a=rtpmap:"),
        word,
    ) && beyond(lines[j], "a=rtpmap:") != beyond(lines[i], "a=rtpmap:") {
        let l = line_counts(text, lines, j, word);
        assert(all[old.len() + l] == found[l]);
        assert(description::meaning(all[old.len() + l]) != description::meaning(
            all[old.len() + k],
        ));
    } else {
        let l = line_counts(earlier, before, j, word);
        assert(all[l] == old[l]);
        assert(description::meaning(all[l]) != description::meaning(all[old.len() + k]));
    }
}

/// Behind the only line that opens a section all lines are in the first.
proof fn one_section_is_the_first(lines: Seq<Seq<u8>>, m: int, i: int)
    requires
        0 <= m < lines.len(),
        0 <= i <= lines.len(),
        opens(lines[m], "m="),
        forall|k: int| 0 <= k < lines.len() && k != m ==> !opens(#[trigger] lines[k], "m="),
    ensures
        description::opened(lines.take(i)) == if i > m {
            1nat
        } else {
            0nat
        },
    decreases i,
{
    if i > 0 {
        one_section_is_the_first(lines, m, i - 1);
        assert(lines.take(i).drop_last() =~= lines.take(i - 1));
        assert(lines.take(i).last() == lines[i - 1]);
    }
}

/// A description of one media section that only sends may map payload types in
/// any way, whatever came before.
pub proof fn sending_description_is_taken(
    earlier: Seq<Seq<char>>,
    text: Seq<char>,
    lines: Seq<Seq<u8>>,
    m: int,
    d: int,
)
    requires
        consists_of(text, lines),
        description::fault(Seq::empty(), text) is None,
        0 <= m < d < lines.len(),
        opens(lines[m], "m="),
        forall|k: int| 0 <= k < lines.len() && k != m ==> !opens(#[trigger] lines[k], "m="),
        forall|k: int| 0 <= k < m ==> !opens(#[trigger] lines[k], "a=rtpmap:"),
        lines[d] == vstd::utf8::encode_utf8("a=sendonly"@),
        forall|k: int|
            0 <= k < lines.len() ==> #[trigger] lines[k] != vstd::utf8::encode_utf8("a=sendrecv"@)
                && lines[k] != vstd::utf8::encode_utf8("a=recvonly"@) && lines[k]
                != vstd::utf8::encode_utf8("a=inactive"@),
    ensures
        description::fault(earlier, text) is None,
{
    lines_are_read(lines);
    description_is_read(text, lines);
    beginnings_are_not_empty();
    reveal_strlit("m=");
    reveal_strlit("a=sendrecv");
    reveal_strlit("a=recvonly");
    reveal_strlit("a=inactive");
    ascii_is_encoded("m=");
    ascii_is_encoded("a=sendrecv");
    ascii_is_encoded("a=recvonly");
    ascii_is_encoded("a=inactive");
    let read = description::described(text);
    let all = lines.push(Seq::empty());
    if description::receives(read) {
        let i = choose|i: int|
            0 <= i < read.len() && description::maps((#[trigger] read[i]).text)
                && !description::only_sends(read, read[i].section);
        assert(read[i].text == lines[i]);
        one_section_is_the_first(lines, m, i + 1);
        one_section_is_the_first(lines, m, d + 1);
        assert(all.take(i + 1) =~= lines.take(i + 1));
        assert(all.take(d + 1) =~= lines.take(d + 1));
        assert(read[i].section == 1 && read[d].section == 1);
        assert(read[d].text == lines[d]);
        assert(description::holds(read, 1, "a=sendonly"@));
        assert forall|k: int| 0 <= k < read.len() implies (#[trigger] read[k]).text
            != description::bytes("a=sendrecv"@) && read[k].text != description::bytes(
            "a=recvonly"@,
        ) && read[k].text != description::bytes("a=inactive"@) by {
            if k < lines.len() {
                assert(read[k].text == lines[k]);
            }
        }
    }
}

/// Two mappings of a payload type agree just if they are of the same codec and
/// tell the same of which payload type is repaired, of the packetization mode and
/// of the profile, where a single parameter is told.
pub proof fn parameters_must_agree(a: MappingView, b: MappingView, x: Seq<u8>, y: Seq<u8>)
    requires
        a.payload_type == b.payload_type,
        a.codec == b.codec,
        a.parameters == seq![x],
        b.parameters == seq![y],
        (opens(x, "apt=") && opens(y, "apt=")) || (opens(x, "packetization-mode=") && opens(
            y,
            "packetization-mode=",
        )) || (opens(x, "profile-level-id=") && opens(y, "profile-level-id=")),
    ensures
        description::agree(seq![a, b]) <==> x == y,
{
    let both = seq![a, b];
    assert(both[0] == a && both[1] == b);
    assert(seq![x].drop_last() =~= Seq::empty());
    assert(seq![y].drop_last() =~= Seq::empty());
    if x == y {
        assert(a =~= b);
    } else if description::agree(both) {
        assert(description::meaning(both[0]) == description::meaning(both[1]));
    }
}

/// Every line stands in a section.
proof fn line_has_a_section(lines: Seq<Seq<u8>>, i: int) -> (bounds: (int, int))
    requires
        0 <= i < lines.len(),
    ensures
        is_section(lines, bounds.0, bounds.1),
        bounds.0 <= i < bounds.1,
{
    let s = section_begins(lines, i);
    let e = section_ends(lines, i + 1);
    (s, e)
}

/// Where the section of a line begins.
proof fn section_begins(lines: Seq<Seq<u8>>, i: int) -> (s: int)
    requires
        0 <= i < lines.len(),
    ensures
        0 <= s <= i,
        s == 0 || opens(lines[s], "m="),
        forall|k: int| s < k <= i ==> !opens(#[trigger] lines[k], "m="),
    decreases i,
{
    if i == 0 || opens(lines[i], "m=") {
        i
    } else {
        section_begins(lines, i - 1)
    }
}

/// Where a section ends that goes on up to a line.
proof fn section_ends(lines: Seq<Seq<u8>>, i: int) -> (e: int)
    requires
        0 <= i <= lines.len(),
    ensures
        i <= e <= lines.len(),
        e == lines.len() || opens(lines[e], "m="),
        forall|k: int| i <= k < e ==> !opens(#[trigger] lines[k], "m="),
    decreases lines.len() - i,
{
    if i == lines.len() || opens(lines[i], "m=") {
        i
    } else {
        section_ends(lines, i + 1)
    }
}

/// What the parameters that some lines give to a payload type tell.
spec fn given_by(lines: Seq<Seq<u8>>, word: Seq<u8>) -> Seq<Seq<u8>>
    decreases lines.len(),
{
    if lines.len() == 0 {
        Seq::empty()
    } else {
        let line = lines.last();
        if opens(line, "a=fmtp:") && description::first_word(beyond(line, "a=fmtp:")) == word {
            given_by(lines.drop_last(), word) + description::parameters(beyond(line, "a=fmtp:"))
        } else {
            given_by(lines.drop_last(), word)
        }
    }
}

/// The parameters of a section are given by its lines.
proof fn section_gives_its_parameters(
    text: Seq<char>,
    lines: Seq<Seq<u8>>,
    s: int,
    e: int,
    i: int,
    word: Seq<u8>,
    n: int,
)
    requires
        consists_of(text, lines),
        is_section(lines, s, e),
        s <= i < e,
        0 <= n <= description::described(text).len(),
    ensures
        ({
            let read = description::described(text);
            let end = if n < s {
                s
            } else if n > e {
                e
            } else {
                n
            };
            description::section_parameters(read.take(n), read[i].section, word) == given_by(
                lines.subrange(s, end),
                word,
            )
        }),
    decreases n,
{
    let read = description::described(text);
    description_is_read(text, lines);
    beginnings_are_not_empty();
    if n == 0 {
        assert(lines.subrange(s, s) =~= Seq::empty());
    } else {
        section_gives_its_parameters(text, lines, s, e, i, word, n - 1);
        assert(read.take(n).drop_last() =~= read.take(n - 1));
        assert(read.take(n).last() == read[n - 1]);
        if n <= lines.len() {
            assert(read[n - 1].text == lines[n - 1]);
            section_holds_its_lines(text, lines, s, e, i, n - 1);
            if s < n <= e {
                let part = lines.subrange(s, n);
                assert(part.drop_last() =~= lines.subrange(s, n - 1));
                assert(part.last() == lines[n - 1]);
            }
        }
    }
}

/// Whether two sections are alike as far as their parameters go.
pub open spec fn alike(lines: Seq<Seq<u8>>, s: int, e: int, t: int, u: int) -> bool {
    &&& e - s == u - t
    &&& forall|k: int|
        0 <= k < e - s ==> (#[trigger] lines[s + k] == lines[t + k] || (!opens(
            lines[s + k],
            "a=fmtp:",
        ) && !opens(lines[t + k], "a=fmtp:")))
}

/// Sections that are alike give the same parameters.
proof fn alike_sections_give_the_same(
    lines: Seq<Seq<u8>>,
    s: int,
    t: int,
    n: int,
    word: Seq<u8>,
)
    requires
        0 <= s,
        0 <= t,
        0 <= n,
        s + n <= lines.len(),
        t + n <= lines.len(),
        alike(lines, s, s + n, t, t + n),
    ensures
        given_by(lines.subrange(s, s + n), word) == given_by(lines.subrange(t, t + n), word),
    decreases n,
{
    let (a, b) = (lines.subrange(s, s + n), lines.subrange(t, t + n));
    if n > 0 {
        assert(a.drop_last() =~= lines.subrange(s, s + n - 1));
        assert(b.drop_last() =~= lines.subrange(t, t + n - 1));
        assert(a.last() == lines[s + (n - 1)]);
        assert(b.last() == lines[t + (n - 1)]);
        alike_sections_give_the_same(lines, s, t, n - 1, word);
    } else {
        assert(a =~= b);
    }
}

/// Where one line of a section at most gives parameters, and it has its payload
/// type repair one other at most, so does the section.
proof fn section_repairs_one(lines: Seq<LineView>, section: nat, payload_type: Seq<u8>)
    requires
        forall|i: int, j: int|
            0 <= i < j < lines.len() && (#[trigger] lines[i]).section == section && (
            #[trigger] lines[j]).section == section && gives_parameters(lines[i], payload_type)
                ==> !gives_parameters(lines[j], payload_type),
        forall|i: int|
            0 <= i < lines.len() && gives_parameters(#[trigger] lines[i], payload_type)
                ==> description::repairs_one(
                description::parameters(description::after(lines[i].text, "a=fmtp:"@)),
            ),
    ensures
        description::repairs_one(
            description::section_parameters(lines, section, payload_type),
        ),
{
    if exists|a: int|
        0 <= a < lines.len() && (#[trigger] lines[a]).section == section && gives_parameters(
            lines[a],
            payload_type,
        ) {
        let a = choose|a: int|
            0 <= a < lines.len() && (#[trigger] lines[a]).section == section && gives_parameters(
                lines[a],
                payload_type,
            );
        parameters_are_the_lines_own(lines, section, a, payload_type);
    } else {
        other_lines_give_nothing(lines, section, payload_type);
    }
}

/// A session's first description may map a payload type in several sections if
/// they map it to the same codec and give it the same parameters: what else
/// [`ordinary_description_is_taken`] asks for makes such a description be taken
/// too.
#[verifier::spinoff_prover]
#[verifier::rlimit(40)]
pub proof fn matching_sections_are_taken(text: Seq<char>, lines: Seq<Seq<u8>>)
    requires
        consists_of(text, lines),
        forall|i: int|
            0 <= i < lines.len() && opens(#[trigger] lines[i], "a=ice-ufrag:") ==> beyond(
                lines[i],
                "a=ice-ufrag:",
            ).len() <= 111,
        forall|i: int, j: int|
            0 <= i < j < lines.len() && opens(#[trigger] lines[i], "a=mid:") ==> lines[i]
                != #[trigger] lines[j],
        forall|i: int|
            0 <= i < lines.len() && opens(#[trigger] lines[i], "a=ssrc:") ==> beyond(
                lines[i],
                "a=ssrc:",
            ).contains(0x3a),
        forall|i: int|
            0 <= i < lines.len() && opens(#[trigger] lines[i], "b=") ==> lines[i].contains(0x3a),
        forall|i: int, j: int, word: Seq<u8>, s: int, e: int, t: int, u: int|
            0 <= i < j < lines.len() && opens(lines[i], "a=rtpmap:") && opens(lines[j], "a=rtpmap:")
                && #[trigger] is_first_word(word, beyond(lines[i], "a=rtpmap:"))
                && #[trigger] is_first_word(word, beyond(lines[j], "a=rtpmap:"))
                && #[trigger] is_section(lines, s, e) && #[trigger] is_section(lines, t, u) && s
                <= i < e && t <= j < u ==> beyond(lines[i], "a=rtpmap:") == beyond(
                lines[j],
                "a=rtpmap:",
            ) && alike(lines, s, e, t, u),
        forall|i: int, j: int, word: Seq<u8>, s: int, e: int|
            #[trigger] is_section(lines, s, e) && s <= i < j < e && opens(lines[i], "a=fmtp:")
                && opens(lines[j], "a=fmtp:") && #[trigger] is_first_word(
                word,
                beyond(lines[i], "a=fmtp:"),
            ) ==> !#[trigger] is_first_word(word, beyond(lines[j], "a=fmtp:")),
        forall|i: int, a: int, b: int|
            0 <= i < lines.len() && opens(lines[i], "a=fmtp:") && #[trigger] stands_at(
                beyond(lines[i], "a=fmtp:"),
                "apt=",
                a,
            ) && #[trigger] stands_at(beyond(lines[i], "a=fmtp:"), "apt=", b) ==> a == b,
    ensures
        description::fault(Seq::empty(), text) is None,
{
    description_is_read(text, lines);
    beginnings_are_not_empty();
    let read = description::described(text);
    let n = lines.len() as int;
    assert forall|i: int, start: Seq<char>|
        0 <= i < read.len() && #[trigger] description::starts(read[i].text, start)
            && vstd::utf8::encode_utf8(start).len() > 0 implies i < n by {}
    let found = description::mappings(read);
    assert(description::all_mappings(Seq::empty()) + found =~= found);
    assert(read.take(read.len() as int) =~= read);
    assert forall|k: int, l: int|
        0 <= k < l < found.len() && found[k].payload_type == found[l].payload_type implies found[k]
        == found[l] by {
        let (i, j) = mappings_have_their_lines(read, read.len() as int, k, l);
        word_of_line(lines[i], "a=rtpmap:", lines, i);
        word_of_line(lines[j], "a=rtpmap:", lines, j);
        let word = description::first_word(beyond(lines[i], "a=rtpmap:"));
        assert(is_first_word(word, beyond(lines[i], "a=rtpmap:")));
        assert(is_first_word(word, beyond(lines[j], "a=rtpmap:")));
        let (s, e) = line_has_a_section(lines, i);
        let (t, u) = line_has_a_section(lines, j);
        section_gives_its_parameters(text, lines, s, e, i, word, read.len() as int);
        section_gives_its_parameters(text, lines, t, u, j, word, read.len() as int);
        assert(alike(lines, s, e, t, u));
        alike_sections_give_the_same(lines, s, t, e - s, word);
    }
    assert forall|k: int| 0 <= k < found.len() implies description::repairs_one(
        (#[trigger] found[k]).parameters,
    ) by {
        let i = mapping_has_a_line(read, read.len() as int, k);
        let word = found[k].payload_type;
        let section = read[i].section;
        let (s, e) = line_has_a_section(lines, i);
        assert forall|a: int, b: int|
            0 <= a < b < read.len() && (#[trigger] read[a]).section == section && (
            #[trigger] read[b]).section == section && gives_parameters(read[a], word) implies !gives_parameters(
            read[b],
            word,
        ) by {
            if gives_parameters(read[b], word) {
                word_of_line(lines[a], "a=fmtp:", lines, a);
                word_of_line(lines[b], "a=fmtp:", lines, b);
                section_holds_its_lines(text, lines, s, e, i, a);
                section_holds_its_lines(text, lines, s, e, i, b);
                assert(is_first_word(word, beyond(lines[a], "a=fmtp:")));
                assert(is_first_word(word, beyond(lines[b], "a=fmtp:")));
            }
        }
        assert forall|a: int|
            0 <= a < read.len() && gives_parameters(#[trigger] read[a], word) implies description::repairs_one(
            description::parameters(description::after(read[a].text, "a=fmtp:"@)),
        ) by {
            let rest = beyond(lines[a], "a=fmtp:");
            word_of_line(lines[a], "a=fmtp:", lines, a);
            one_place_repairs_one(rest);
        }
        section_repairs_one(read, section, word);
    }
}

/// What follows `a=fmtp:` where a payload type is given one parameter.
pub open spec fn one_parameter(word: Seq<u8>, part: Seq<u8>) -> Seq<u8> {
    word.push(0x20) + part
}

/// Whether some bytes are a word of their own: they hold no space, no semicolon
/// and no carriage return.
pub open spec fn is_plain(part: Seq<u8>) -> bool {
    forall|k: int|
        0 <= k < part.len() ==> #[trigger] part[k] != 0x20 && part[k] != 0x3b && part[k] != 0x0d
}

/// One parameter is told alone.
proof fn one_parameter_is_told(word: Seq<u8>, part: Seq<u8>)
    requires
        is_plain(word),
        is_plain(part),
        description::told(part) == Some(part),
    ensures
        description::first_word(one_parameter(word, part)) == word,
        description::parameters(one_parameter(word, part)) == seq![part],
{
    let none = Seq::<u8>::empty();
    pieces_go_on(none, word, 0x20);
    assert(none + word =~= word);
    let one = description::pieces(word, 0x20);
    assert(one =~= seq![word]);
    let spaced = word.push(0x20);
    assert(spaced.drop_last() =~= word);
    let two = description::pieces(spaced, 0x20);
    assert(two =~= seq![word, none]);
    pieces_go_on(spaced, part, 0x20);
    let all = description::pieces(one_parameter(word, part), 0x20);
    assert(none + part =~= part);
    assert(all =~= seq![word, part]);
    pieces_go_on(none, part, 0x3b);
    assert(description::pieces(part, 0x3b) =~= seq![part]);
    assert(seq![part].drop_last() =~= Seq::empty());
    assert(description::telling(seq![part].drop_last()) =~= Seq::empty());
    assert(description::telling(seq![part]) =~= seq![part]);
}

/// The parameters of a section hold those of each of its lines.
proof fn section_has_the_parameters(
    lines: Seq<LineView>,
    a: int,
    payload_type: Seq<u8>,
    part: Seq<u8>,
)
    requires
        0 <= a < lines.len(),
        gives_parameters(lines[a], payload_type),
        description::parameters(description::after(lines[a].text, "a=fmtp:"@)).contains(part),
    ensures
        description::section_parameters(lines, lines[a].section, payload_type).contains(part),
    decreases lines.len(),
{
    let fewer = lines.drop_last();
    let before = description::section_parameters(fewer, lines[a].section, payload_type);
    let all = description::section_parameters(lines, lines[a].section, payload_type);
    if a < fewer.len() {
        assert(fewer[a] == lines[a]);
        section_has_the_parameters(fewer, a, payload_type, part);
        let k = choose|k: int| 0 <= k < before.len() && before[k] == part;
        assert(all[k] == part);
    } else {
        let given = description::parameters(description::after(lines[a].text, "a=fmtp:"@));
        let k = choose|k: int| 0 <= k < given.len() && given[k] == part;
        assert(all[before.len() + k] == part);
    }
}

/// A payload type of a receiving section must not repair two others.
pub proof fn second_repair_is_refused(
    earlier: Seq<Seq<char>>,
    text: Seq<char>,
    lines: Seq<Seq<u8>>,
    s: int,
    e: int,
    i: int,
    word: Seq<u8>,
    a: int,
    first: Seq<u8>,
    b: int,
    second: Seq<u8>,
)
    requires
        consists_of(text, lines),
        is_section(lines, s, e),
        s <= i < e,
        s <= a < e,
        s <= b < e,
        forall|k: int|
            s <= k < e ==> #[trigger] lines[k] != vstd::utf8::encode_utf8("a=sendonly"@),
        opens(lines[i], "a=rtpmap:"),
        maps_to_a_codec(beyond(lines[i], "a=rtpmap:"), word),
        is_plain(word),
        is_plain(first),
        is_plain(second),
        opens(first, "apt="),
        opens(second, "apt="),
        first != second,
        opens(lines[a], "a=fmtp:"),
        beyond(lines[a], "a=fmtp:") == one_parameter(word, first),
        opens(lines[b], "a=fmtp:"),
        beyond(lines[b], "a=fmtp:") == one_parameter(word, second),
    ensures
        description::fault(earlier, text) is Some,
{
    let read = description::described(text);
    description_is_read(text, lines);
    let section = read[i].section;
    let l = line_counts(text, lines, i, word);
    assert(read[i].text == lines[i] && read[a].text == lines[a] && read[b].text == lines[b]);
    section_holds_its_lines(text, lines, s, e, i, a);
    section_holds_its_lines(text, lines, s, e, i, b);
    one_parameter_is_told(word, first);
    one_parameter_is_told(word, second);
    assert(seq![first][0] == first && seq![second][0] == second);
    section_has_the_parameters(read, a, word, first);
    section_has_the_parameters(read, b, word, second);
    let given = description::section_parameters(read, section, word);
    let p = choose|p: int| 0 <= p < given.len() && given[p] == first;
    let q = choose|q: int| 0 <= q < given.len() && given[q] == second;
    assert(!description::repairs_one(given)) by {
        assert(description::starts(given[p], "apt="@) && description::starts(given[q], "apt="@));
    }
    assert(!description::only_sends(read, section)) by {
        reveal_strlit("a=sendonly");
        ascii_is_encoded("a=sendonly");
        assert forall|m: int|
            0 <= m < read.len() && (#[trigger] read[m]).section == section implies read[m].text
            != description::bytes("a=sendonly"@) by {
            if m < lines.len() {
                section_holds_its_lines(text, lines, s, e, i, m);
                assert(read[m].text == lines[m]);
            }
        }
    }
    assert(description::receives(read));
    word_of_line(lines[i], "a=rtpmap:", lines, i);
    first_word_is_the_one(word, beyond(lines[i], "a=rtpmap:"));
    let k = line_has_a_mapping(read, read.len() as int, i);
    let old = description::all_mappings(earlier);
    let all = old + description::mappings(read);
    assert(all[old.len() + k].parameters == given);
}

/// Where just one line of a section gives parameters, they are its own.
proof fn parameters_are_the_lines_own(
    lines: Seq<LineView>,
    section: nat,
    a: int,
    payload_type: Seq<u8>,
)
    requires
        0 <= a < lines.len(),
        lines[a].section == section,
        gives_parameters(lines[a], payload_type),
        forall|k: int|
            0 <= k < lines.len() && k != a && (#[trigger] lines[k]).section == section
                ==> !gives_parameters(lines[k], payload_type),
    ensures
        description::section_parameters(lines, section, payload_type) == description::parameters(
            description::after(lines[a].text, "a=fmtp:"@),
        ),
    decreases lines.len(),
{
    let fewer = lines.drop_last();
    let given = description::parameters(description::after(lines[a].text, "a=fmtp:"@));
    let before = description::section_parameters(fewer, section, payload_type);
    assert forall|k: int|
        0 <= k < fewer.len() && k != a && (#[trigger] fewer[k]).section == section implies !gives_parameters(
        fewer[k],
        payload_type,
    ) by {
        assert(fewer[k] == lines[k]);
    }
    if a < fewer.len() {
        assert(fewer[a] == lines[a]);
        parameters_are_the_lines_own(fewer, section, a, payload_type);
        assert(lines[lines.len() - 1] == lines.last());
    } else {
        other_lines_give_nothing(fewer, section, payload_type);
        assert(before + given =~= given);
    }
}

/// Where no line of a section gives parameters there are none.
proof fn other_lines_give_nothing(lines: Seq<LineView>, section: nat, payload_type: Seq<u8>)
    requires
        forall|k: int|
            0 <= k < lines.len() && (#[trigger] lines[k]).section == section ==> !gives_parameters(
                lines[k],
                payload_type,
            ),
    ensures
        description::section_parameters(lines, section, payload_type).len() == 0,
    decreases lines.len(),
{
    if lines.len() > 0 {
        let fewer = lines.drop_last();
        assert forall|k: int| 0 <= k < fewer.len() && (#[trigger] fewer[k]).section
            == section implies !gives_parameters(fewer[k], payload_type) by {
            assert(fewer[k] == lines[k]);
        }
        other_lines_give_nothing(fewer, section, payload_type);
        assert(lines[lines.len() - 1] == lines.last());
    }
}

/// What a line maps where its section gives its payload type one parameter.
proof fn mapping_with_one_parameter(
    text: Seq<char>,
    lines: Seq<Seq<u8>>,
    s: int,
    e: int,
    i: int,
    word: Seq<u8>,
    a: int,
    part: Seq<u8>,
) -> (k: int)
    requires
        consists_of(text, lines),
        is_section(lines, s, e),
        s <= i < e,
        s <= a < e,
        opens(lines[i], "a=rtpmap:"),
        maps_to_a_codec(beyond(lines[i], "a=rtpmap:"), word),
        is_plain(word),
        is_plain(part),
        description::told(part) == Some(part),
        opens(lines[a], "a=fmtp:"),
        beyond(lines[a], "a=fmtp:") == one_parameter(word, part),
        forall|k: int|
            s <= k < e && k != a && opens(#[trigger] lines[k], "a=fmtp:") ==> !is_first_word(
                word,
                beyond(lines[k], "a=fmtp:"),
            ),
    ensures
        0 <= k < description::mappings(description::described(text)).len(),
        description::mappings(description::described(text))[k] == (MappingView {
            payload_type: word,
            codec: beyond(lines[i], "a=rtpmap:"),
            parameters: seq![part],
        }),
        description::maps(description::described(text)[i].text),
{
    let read = description::described(text);
    description_is_read(text, lines);
    beginnings_are_not_empty();
    let section = read[i].section;
    let l = line_counts(text, lines, i, word);
    assert(read[i].text == lines[i] && read[a].text == lines[a]);
    one_parameter_is_told(word, part);
    section_holds_its_lines(text, lines, s, e, i, a);
    assert forall|k: int|
        0 <= k < read.len() && k != a && (#[trigger] read[k]).section == section implies !gives_parameters(
        read[k],
        word,
    ) by {
        if k < lines.len() {
            section_holds_its_lines(text, lines, s, e, i, k);
            assert(read[k].text == lines[k]);
            if gives_parameters(read[k], word) {
                word_of_line(lines[k], "a=fmtp:", lines, k);
            }
        }
    }
    parameters_are_the_lines_own(read, section, a, word);
    word_of_line(lines[i], "a=rtpmap:", lines, i);
    first_word_is_the_one(word, beyond(lines[i], "a=rtpmap:"));
    line_has_a_mapping(read, read.len() as int, i)
}

/// A payload type that two sections map to the same codec, each with one
/// parameter of the same name for it, is taken to mean the same just if the
/// parameters are the same: with different ones, and a section that receives, the
/// description is refused. The packetization mode, the profile and the payload
/// type that is repaired are such parameters.
pub proof fn conflicting_parameters_are_refused(
    earlier: Seq<Seq<char>>,
    text: Seq<char>,
    lines: Seq<Seq<u8>>,
    word: Seq<u8>,
    s: int,
    e: int,
    i: int,
    a: int,
    first: Seq<u8>,
    t: int,
    u: int,
    j: int,
    b: int,
    second: Seq<u8>,
)
    requires
        consists_of(text, lines),
        is_section(lines, s, e),
        is_section(lines, t, u),
        s <= i < e,
        s <= a < e,
        t <= j < u,
        t <= b < u,
        forall|k: int|
            s <= k < e ==> #[trigger] lines[k] != vstd::utf8::encode_utf8("a=sendonly"@),
        opens(lines[i], "a=rtpmap:"),
        maps_to_a_codec(beyond(lines[i], "a=rtpmap:"), word),
        opens(lines[j], "a=rtpmap:"),
        maps_to_a_codec(beyond(lines[j], "a=rtpmap:"), word),
        is_plain(word),
        is_plain(first),
        is_plain(second),
        description::told(first) == Some(first),
        description::told(second) == Some(second),
        (opens(first, "apt=") && opens(second, "apt=")) || (opens(first, "packetization-mode=")
            && opens(second, "packetization-mode=")) || (opens(first, "profile-level-id=") && opens(
            second,
            "profile-level-id=",
        )),
        first != second,
        opens(lines[a], "a=fmtp:"),
        beyond(lines[a], "a=fmtp:") == one_parameter(word, first),
        forall|k: int|
            s <= k < e && k != a && opens(#[trigger] lines[k], "a=fmtp:") ==> !is_first_word(
                word,
                beyond(lines[k], "a=fmtp:"),
            ),
        opens(lines[b], "a=fmtp:"),
        beyond(lines[b], "a=fmtp:") == one_parameter(word, second),
        forall|k: int|
            t <= k < u && k != b && opens(#[trigger] lines[k], "a=fmtp:") ==> !is_first_word(
                word,
                beyond(lines[k], "a=fmtp:"),
            ),
    ensures
        description::fault(earlier, text) is Some,
{
    let read = description::described(text);
    description_is_read(text, lines);
    let section = read[i].section;
    let k = mapping_with_one_parameter(text, lines, s, e, i, word, a, first);
    let l = mapping_with_one_parameter(text, lines, t, u, j, word, b, second);
    assert(!description::only_sends(read, section)) by {
        reveal_strlit("a=sendonly");
        ascii_is_encoded("a=sendonly");
        assert forall|m: int|
            0 <= m < read.len() && (#[trigger] read[m]).section == section implies read[m].text
            != description::bytes("a=sendonly"@) by {
            if m < lines.len() {
                section_holds_its_lines(text, lines, s, e, i, m);
                assert(read[m].text == lines[m]);
            }
        }
    }
    assert(description::receives(read));
    let old = description::all_mappings(earlier);
    let found = description::mappings(read);
    let all = old + found;
    let (x, y) = (found[k], found[l]);
    assert(all[old.len() + k] == x && all[old.len() + l] == y);
    if description::agree(all) {
        assert(description::meaning(all[old.len() + k]) == description::meaning(all[old.len() + l]));
        assert(seq![first].drop_last() =~= Seq::empty());
        assert(seq![second].drop_last() =~= Seq::empty());
    }
}

/// Where a payload type is given no parameters, it means what it would with the
/// packetization mode zero, with the baseline profile, and with no other payload
/// type repaired, and nothing else.
pub proof fn absent_parameters_have_defaults(a: MappingView, b: MappingView, part: Seq<u8>)
    requires
        a.payload_type == b.payload_type,
        a.codec == b.codec,
        a.parameters.len() == 0,
        b.parameters == seq![part],
    ensures
        opens(part, "packetization-mode=") && !opens(part, "apt=") && !opens(
            part,
            "profile-level-id=",
        ) ==> (description::agree(seq![a, b]) <==> part == vstd::utf8::encode_utf8(
            "packetization-mode=0"@,
        )),
        opens(part, "profile-level-id=") && !opens(part, "apt=") && !opens(
            part,
            "packetization-mode=",
        ) ==> (description::agree(seq![a, b]) <==> part == vstd::utf8::encode_utf8(
            "profile-level-id=4200"@,
        )),
        opens(part, "apt=") ==> !description::agree(seq![a, b]),
{
    beginnings_are_not_empty();
    let both = seq![a, b];
    assert(both[0] == a && both[1] == b);
    let fewer = seq![part].drop_last();
    let (mode, profile) = (
        description::bytes("packetization-mode=0"@),
        description::bytes("profile-level-id=4200"@),
    );
    assert(fewer =~= Seq::empty());
    assert(description::last_told(fewer, "apt="@, Seq::empty()) == Seq::<u8>::empty());
    assert(description::last_told(fewer, "packetization-mode="@, mode) == mode);
    assert(description::last_told(fewer, "profile-level-id="@, profile) == profile);
    let (x, y) = (description::meaning(a), description::meaning(b));
    assert(x.mode == mode && x.profile == profile && x.repaired == Seq::<u8>::empty());
    assert(b.parameters.last() == part && b.parameters.drop_last() == fewer);
    if description::agree(both) {
        assert(description::meaning(both[0]) == description::meaning(both[1]));
    }
    if x == y {
        assert(description::agree(both)) by {
            assert forall|i: int, j: int|
                0 <= i < both.len() && 0 <= j < both.len() && (#[trigger] both[i]).payload_type
                    == (#[trigger] both[j]).payload_type implies description::meaning(both[i])
                == description::meaning(both[j]) by {}
        }
    }
    if opens(part, "apt=") {
        assert(part.len() >= 4);
    }
}

/// A parameter is told whole, but for the last two characters of a profile of
/// six, which are its level. Only three parameters are told.
pub proof fn only_three_parameters_are_told(part: Seq<u8>)
    ensures
        opens(part, "apt=") || opens(part, "packetization-mode=") ==> description::told(part)
            == Some(part),
        !opens(part, "apt=") && !opens(part, "packetization-mode=") && opens(
            part,
            "profile-level-id=",
        ) ==> description::told(part) == Some(
            if beyond(part, "profile-level-id=").len() == 6 {
                part.take(part.len() - 2)
            } else {
                part
            },
        ),
        !opens(part, "apt=") && !opens(part, "packetization-mode=") && !opens(
            part,
            "profile-level-id=",
        ) ==> description::told(part) is None,
{
}

/// A description asks for a data channel just if one of its lines opens a section
/// for applications.
proof fn channel_has_a_line(text: Seq<char>, lines: Seq<Seq<u8>>)
    requires
        consists_of(text, lines),
    ensures
        description::opens_channel(text) <==> exists|i: int|
            0 <= i < lines.len() && opens(#[trigger] lines[i], "m=application"),
{
    lines_are_read(lines);
    reveal_strlit("m=application");
    ascii_is_encoded("m=application");
    let read = description::pieces(description::bytes(text), 0x0a);
    assert forall|i: int| 0 <= i < lines.len() implies read[i] == #[trigger] lines[i] by {}
    if description::opens_channel(text) {
        let i = choose|i: int|
            0 <= i < read.len() && description::starts(#[trigger] read[i], "m=application"@);
        assert(opens(lines[i], "m=application"));
    }
    if exists|i: int| 0 <= i < lines.len() && opens(#[trigger] lines[i], "m=application") {
        let i = choose|i: int| 0 <= i < lines.len() && opens(#[trigger] lines[i], "m=application");
        assert(description::starts(read[i], "m=application"@));
    }
}

/// A description that the session accepted counts for those after it. One that
/// it refused does too just if some description so far asks for a data channel.
pub proof fn accepted_description_counts(
    earlier: Seq<Seq<char>>,
    before: Seq<Seq<Seq<u8>>>,
    text: Seq<char>,
    lines: Seq<Seq<u8>>,
    accepted: bool,
)
    requires
        consists_of(text, lines),
        earlier.len() == before.len(),
        forall|k: int| 0 <= k < earlier.len() ==> consists_of(#[trigger] earlier[k], before[k]),
    ensures
        ({
            let channel = (exists|i: int|
                0 <= i < lines.len() && opens(#[trigger] lines[i], "m=application")) || (exists|
                k: int,
                i: int,
            |
                0 <= k < before.len() && 0 <= i < before[k].len() && opens(
                    #[trigger] before[k][i],
                    "m=application",
                ));
            description::kept(earlier, text, accepted) == if accepted || channel {
                earlier.push(text)
            } else {
                earlier
            }
        }),
{
    let all = earlier.push(text);
    channel_has_a_line(text, lines);
    assert(all[earlier.len() as int] == text);
    assert forall|k: int| 0 <= k < earlier.len() implies all[k] == #[trigger] earlier[k] && (
    description::opens_channel(all[k]) <==> exists|i: int|
        0 <= i < before[k].len() && opens(#[trigger] before[k][i], "m=application")) by {
        channel_has_a_line(earlier[k], before[k]);
    }
    if exists|k: int, i: int|
        0 <= k < before.len() && 0 <= i < before[k].len() && opens(
            #[trigger] before[k][i],
            "m=application",
        ) {
        let (k, i) = choose|k: int, i: int|
            0 <= k < before.len() && 0 <= i < before[k].len() && opens(
                #[trigger] before[k][i],
                "m=application",
            );
        assert(earlier[k] == all[k]);
        assert(description::opens_channel(all[k]));
    }
    if exists|i: int| 0 <= i < all.len() && description::opens_channel(#[trigger] all[i]) {
        let k = choose|k: int| 0 <= k < all.len() && description::opens_channel(#[trigger] all[k]);
        if k < earlier.len() {
            assert(earlier[k] == all[k]);
        }
    }
}

} // verus!
