//! Patching of scripts and style sheets, so that what they ask for is asked of this server.
use crate::text::{chars_of, concat2};
use regex_cursor::engines::meta::Regex;
use regex_cursor::Input;
use std::ops::Range;
use tree_sitter::{Language, Parser, Query, QueryCursor};
use vstd::prelude::*;
use vstd::string::StringSliceAdditionalSpecFns;
use vstd::utf8::{
    decode_utf8, decode_utf8_split, encode_utf8, encode_utf8_decode_utf8,
    encode_utf8_valid_utf8, is_ascii_chars, is_ascii_chars_encode_utf8, is_char_boundary,
    valid_utf8, valid_utf8_split,
};

verus! {

/// Whether [`Regex::is_match`] finds a pattern in a text, where the pattern is one.
pub uninterp spec fn regex_match(pattern: Seq<char>, text: Seq<char>) -> Option<bool>;

/// The places, in bytes, at which [`Regex::find_iter`] finds a pattern in a text, where the pattern
/// is one.
pub uninterp spec fn regex_starts(pattern: Seq<char>, text: Seq<char>) -> Option<Seq<usize>>;

/// [`Regex::is_match`] tells whether a pattern that [`Regex::new`] takes is found in a text.
#[verifier::external_body]
fn regex_is_match(pattern: &str, text: &str) -> (r: Option<bool>)
    ensures
        r == regex_match(pattern@, text@),
{
    let regex = Regex::new(pattern).ok()?;
    Some(regex.is_match(Input::new(text)))
}

/// [`Regex::find_iter`] tells where a pattern that [`Regex::new`] takes is found in a text.
#[verifier::external_body]
fn regex_find_starts(pattern: &str, text: &str) -> (r: Option<Vec<usize>>)
    ensures
        regex_starts(pattern@, text@) == match r {
            Some(starts) => Some(starts@),
            None => None,
        },
{
    let regex = Regex::new(pattern).ok()?;
    Some(regex.find_iter(Input::new(text)).map(|found| found.start()).collect())
}

/// Whether a text is a pattern, and is found in another.
pub open spec fn found(pattern: Seq<char>, text: Seq<char>) -> bool {
    regex_match(pattern, text) == Some(true)
}

/// Whether a pattern is found in a text. What is no pattern is found nowhere.
pub fn is_found(pattern: &str, text: &str) -> (r: bool)
    ensures
        r == found(pattern@, text@),
{
    match regex_is_match(pattern, text) {
        Some(found) => found,
        None => false,
    }
}

/// Where a pattern is found in a text.
pub open spec fn starts(pattern: Seq<char>, text: Seq<char>) -> Seq<usize> {
    match regex_starts(pattern, text) {
        Some(starts) => starts,
        None => seq![],
    }
}

/// Whether two places, in bytes, bound a part of a text.
pub open spec fn is_range(text: Seq<char>, range: (usize, usize)) -> bool {
    &&& range.0 <= range.1
    &&& is_char_boundary(encode_utf8(text), range.0 as int)
    &&& is_char_boundary(encode_utf8(text), range.1 as int)
}

/// The number of characters of a text before a place in bytes.
pub open spec fn char_index(text: Seq<char>, byte: usize) -> int {
    decode_utf8(encode_utf8(text).subrange(0, byte as int)).len() as int
}

/// The part of a text between two places in bytes.
pub open spec fn part(text: Seq<char>, range: (usize, usize)) -> Seq<char> {
    decode_utf8(encode_utf8(text).subrange(range.0 as int, range.1 as int))
}

/// The places of a text before which something is put: one for each place at which the pattern
/// is found in a part, as many characters behind the beginning of the part as the pattern is found
/// bytes behind it.
pub open spec fn places(text: Seq<char>, ranges: Seq<(usize, usize)>, pattern: Seq<char>) -> Seq<
    int,
>
    decreases ranges.len(),
{
    if ranges.len() == 0 {
        seq![]
    } else {
        let range = ranges.last();
        places(text, ranges.drop_last(), pattern) + starts(pattern, part(text, range)).map_values(
            |start: usize| char_index(text, range.0) + start,
        )
    }
}

/// How often a place occurs.
pub open spec fn count(places: Seq<int>, place: int) -> nat
    decreases places.len(),
{
    if places.len() == 0 {
        0
    } else {
        count(places.drop_last(), place) + if places.last() == place {
            1nat
        } else {
            0nat
        }
    }
}

/// A piece of text some times over.
pub open spec fn repeated(piece: Seq<char>, times: nat) -> Seq<char>
    decreases times,
{
    if times == 0 {
        seq![]
    } else {
        repeated(piece, (times - 1) as nat) + piece
    }
}

/// The first `n` characters of a text, with a piece put before each place, up to the place `n`
/// itself, as often as the place occurs.
pub open spec fn woven(text: Seq<char>, places: Seq<int>, piece: Seq<char>, n: int) -> Seq<char>
    decreases n,
{
    if n <= 0 {
        repeated(piece, count(places, 0))
    } else {
        woven(text, places, piece, n - 1).push(text[n - 1]) + repeated(piece, count(places, n))
    }
}

/// A text with a piece put before each place.
pub open spec fn inserted(text: Seq<char>, places: Seq<int>, piece: Seq<char>) -> Seq<char> {
    woven(text, places, piece, text.len() as int)
}

/// Places as integers.
pub open spec fn as_places(places: Seq<usize>) -> Seq<int> {
    places.map_values(|place: usize| place as int)
}

/// A place occurs at most as often as there are places.
proof fn lemma_count(places: Seq<int>, place: int)
    ensures
        count(places, place) <= places.len(),
    decreases places.len(),
{
    if places.len() > 0 {
        lemma_count(places.drop_last(), place);
    }
}

/// Puts a piece before each place of a text.
pub fn insert_all(text: &str, places: &Vec<usize>, piece: &str) -> (r: String)
    requires
        forall|i: int| 0 <= i < places.len() ==> #[trigger] places@[i] <= text@.len(),
    ensures
        r@ == inserted(text@, as_places(places@), piece@),
{
    let chars = chars_of(text);
    let ghost all = as_places(places@);
    let mut counts: Vec<usize> = Vec::new();
    let mut i: usize = 0;
    while i < chars.len()
        invariant
            i <= chars.len(),
            counts.len() == i,
            forall|j: int| 0 <= j < counts.len() ==> #[trigger] counts@[j] == 0,
        decreases chars.len() - i,
    {
        counts.push(0);
        i = i + 1;
    }
    counts.push(0);
    let mut k: usize = 0;
    assert(all.take(0) =~= seq![]);
    while k < places.len()
        invariant
            k <= places.len(),
            chars@ == text@,
            all == as_places(places@),
            counts.len() == chars.len() + 1,
            forall|j: int| 0 <= j < places.len() ==> #[trigger] places@[j] <= text@.len(),
            forall|j: int|
                0 <= j < counts.len() ==> #[trigger] counts@[j] == count(all.take(k as int), j),
        decreases places.len() - k,
    {
        let place: usize = places[k];
        proof {
            assert(all.take(k + 1).drop_last() =~= all.take(k as int));
            assert(all.take(k + 1).last() == place);
            lemma_count(all.take(k as int), place as int);
        }
        let before: usize = counts[place];
        counts.set(place, before + 1);
        k = k + 1;
    }
    assert(all.take(k as int) =~= all);
    let mut out = String::new();
    let mut n: usize = 0;
    push_repeated(&mut out, piece, counts[0]);
    assert(out@ =~= woven(text@, all, piece@, 0));
    while n < chars.len()
        invariant
            n <= chars.len(),
            chars@ == text@,
            counts.len() == chars.len() + 1,
            forall|j: int| 0 <= j < counts.len() ==> #[trigger] counts@[j] == count(all, j),
            out@ == woven(text@, all, piece@, n as int),
        decreases chars.len() - n,
    {
        out.push(chars[n]);
        n = n + 1;
        push_repeated(&mut out, piece, counts[n]);
        assert(out@ =~= woven(text@, all, piece@, n as int));
    }
    out
}

/// Appends a piece of text some times over.
fn push_repeated(out: &mut String, piece: &str, times: usize)
    ensures
        final(out)@ == old(out)@ + repeated(piece@, times as nat),
{
    let ghost before = out@;
    let mut i: usize = 0;
    assert(before + repeated(piece@, 0) =~= before);
    while i < times
        invariant
            i <= times,
            out@ == before + repeated(piece@, i as nat),
        decreases times - i,
    {
        out.push_str(piece);
        i = i + 1;
        assert(out@ =~= before + repeated(piece@, i as nat));
    }
}

/// What is put before an address so that this server is asked for it.
pub open spec fn detour(accessible_host: Seq<char>) -> Seq<char> {
    accessible_host + "/@"@
}

/// A text can be patched when its parts are parts of it and every place lies in it.
pub open spec fn patchable(
    text: Seq<char>,
    ranges: Seq<(usize, usize)>,
    pattern: Seq<char>,
) -> bool {
    &&& forall|i: int| 0 <= i < ranges.len() ==> is_range(text, #[trigger] ranges[i])
    &&& forall|i: int|
        0 <= i < places(text, ranges, pattern).len() ==> #[trigger] places(
            text,
            ranges,
            pattern,
        )[i] <= text.len()
}

/// What stands before and behind a place in bytes.
proof fn lemma_split(text: Seq<char>, head: Seq<char>, tail: Seq<char>, mid: int)
    requires
        is_char_boundary(encode_utf8(text), mid),
        encode_utf8(head) == encode_utf8(text).subrange(0, mid),
        encode_utf8(tail) == encode_utf8(text).subrange(mid, encode_utf8(text).len() as int),
    ensures
        head == decode_utf8(encode_utf8(text).subrange(0, mid)),
        tail == decode_utf8(encode_utf8(text).subrange(mid, encode_utf8(text).len() as int)),
        text == head + tail,
{
    encode_utf8_decode_utf8(head);
    encode_utf8_decode_utf8(tail);
    encode_utf8_decode_utf8(text);
    encode_utf8_valid_utf8(text);
    decode_utf8_split(encode_utf8(text), mid);
}

/// A place in a text lies within it.
proof fn lemma_boundary(bytes: Seq<u8>, index: int)
    requires
        valid_utf8(bytes),
        is_char_boundary(bytes, index),
    ensures
        0 <= index <= bytes.len(),
    decreases bytes.len(),
{
    if index != 0 && bytes.len() > 0 {
        lemma_boundary(
            vstd::utf8::pop_first_scalar(bytes),
            index - vstd::utf8::length_of_first_scalar(bytes),
        );
    }
}

/// Two bounds of parts, one behind the other: the first bounds the part before the second, too.
proof fn lemma_boundary_before(bytes: Seq<u8>, first: int, second: int)
    requires
        valid_utf8(bytes),
        is_char_boundary(bytes, first),
        is_char_boundary(bytes, second),
        first <= second,
    ensures
        is_char_boundary(bytes.subrange(0, second), first),
    decreases bytes.len(),
{
    lemma_boundary(bytes, second);
    lemma_boundary(bytes, first);
    valid_utf8_split(bytes, second);
    let head = bytes.subrange(0, second);
    if first == second {
        vstd::utf8::is_char_boundary_start_end_of_seq(head);
    } else if first == 0 {
        vstd::utf8::is_char_boundary_start_end_of_seq(head);
    } else {
        vstd::utf8::is_char_boundary_iff_not_is_continuation_byte(bytes, first);
        vstd::utf8::is_char_boundary_iff_not_is_continuation_byte(head, first);
    }
}

/// Patches a text: before each address that is found in one of the parts, this server is put.
/// Nothing comes of it where a part is none, or where a place would lie behind the end.
pub fn patch(
    text: &str,
    ranges: &Vec<(usize, usize)>,
    pattern: &str,
    accessible_host: &str,
) -> (r: Option<String>)
    ensures
        match r {
            Some(patched) => {
                &&& patchable(text@, ranges@, pattern@)
                &&& patched@ == inserted(
                    text@,
                    places(text@, ranges@, pattern@),
                    detour(accessible_host@),
                )
            },
            None => !patchable(text@, ranges@, pattern@),
        },
{
    let len: usize = text.unicode_len();
    let mut found: Vec<usize> = Vec::new();
    let mut i: usize = 0;
    assert(ranges@.take(0) =~= seq![]);
    assert(as_places(found@) =~= seq![]);
    while i < ranges.len()
        invariant
            i <= ranges.len(),
            len == text@.len(),
            as_places(found@) == places(text@, ranges@.take(i as int), pattern@),
            forall|j: int| 0 <= j < i ==> is_range(text@, #[trigger] ranges@[j]),
            forall|j: int| 0 <= j < found.len() ==> #[trigger] found@[j] <= len,
        decreases ranges.len() - i,
    {
        let range = ranges[i];
        if range.0 > range.1 || !text.is_char_boundary(range.0) || !text.is_char_boundary(range.1) {
            return None;
        }
        let (head, tail) = text.split_at(range.1);
        proof {
            encode_utf8_valid_utf8(text@);
            lemma_split(text@, head@, tail@, range.1 as int);
            lemma_boundary_before(text.spec_bytes(), range.0 as int, range.1 as int);
        }
        let (before, inner) = head.split_at(range.0);
        proof {
            lemma_boundary(text.spec_bytes(), range.1 as int);
            lemma_split(head@, before@, inner@, range.0 as int);
            assert(head.spec_bytes().subrange(0, range.0 as int) =~= text.spec_bytes().subrange(
                0,
                range.0 as int,
            ));
            assert(head.spec_bytes().subrange(range.0 as int, head.spec_bytes().len() as int)
                =~= text.spec_bytes().subrange(range.0 as int, range.1 as int));
            assert(char_index(text@, range.0) == before@.len());
            assert(part(text@, range) == inner@);
        }
        let at: usize = before.unicode_len();
        let starts_here: Vec<usize> = match regex_find_starts(pattern, inner) {
            Some(starts) => starts,
            None => Vec::new(),
        };
        assert(starts_here@ =~= starts(pattern@, inner@));
        let ghost base = places(text@, ranges@.take(i as int), pattern@);
        let ghost here = starts(pattern@, inner@).map_values(
            |start: usize| char_index(text@, range.0) + start,
        );
        proof {
            assert(ranges@.take(i + 1).drop_last() =~= ranges@.take(i as int));
            assert(places(text@, ranges@.take(i + 1), pattern@) == base + here);
            assert(here.take(0) =~= seq![]);
            assert(base + here.take(0) =~= base);
        }
        let mut k: usize = 0;
        while k < starts_here.len()
            invariant
                k <= starts_here.len(),
                i < ranges.len(),
                len == text@.len(),
                at <= len,
                at == char_index(text@, range.0),
                range == ranges@[i as int],
                base + here == places(text@, ranges@.take(i + 1), pattern@),
                here == starts_here@.map_values(
                    |start: usize| char_index(text@, range.0) + start,
                ),
                as_places(found@) == base + here.take(k as int),
                forall|j: int| 0 <= j < found.len() ==> #[trigger] found@[j] <= len,
            decreases starts_here.len() - k,
        {
            let start: usize = starts_here[k];
            if start > len - at {
                proof {
                    let index = base.len() + k;
                    assert((base + here)[index as int] == at + start);
                    lemma_places_prefix(text@, ranges@, pattern@, i + 1);
                    assert(places(text@, ranges@, pattern@)[index as int] == at + start);
                }
                return None;
            }
            let ghost sofar = found@;
            found.push(at + start);
            proof {
                assert(as_places(found@) =~= as_places(sofar).push((at + start) as int));
                assert(here.take(k + 1) =~= here.take(k as int).push((at + start) as int));
                assert(base + here.take(k + 1) =~= (base + here.take(k as int)).push(
                    (at + start) as int,
                ));
            }
            k = k + 1;
        }
        assert(here.take(k as int) =~= here);
        i = i + 1;
    }
    assert(ranges@.take(i as int) =~= ranges@);
    let ghost all = places(text@, ranges@, pattern@);
    assert forall|j: int| 0 <= j < all.len() implies #[trigger] all[j] <= text@.len() by {
        assert(as_places(found@)[j] == found@[j]);
    }
    let piece = concat2(accessible_host, "/@");
    Some(insert_all(text, &found, piece.as_str()))
}

/// A grammar.
#[verifier::external_type_specification]
#[verifier::external_body]
pub struct ExLanguage(tree_sitter::Language);

/// Patterns of syntax.
#[verifier::external_type_specification]
#[verifier::external_body]
pub struct ExQuery(tree_sitter::Query);

/// Why a source is not patched.
#[derive(Clone, Copy, Debug, PartialEq, Eq, Structural)]
pub enum PatchError {
    /// The parser does not know the grammar.
    Language,
    /// The source could not be read.
    Syntax,
    /// A pattern of syntax captures nothing.
    Capture,
    /// A part is none, or something would be put behind the end.
    Place,
}

/// The bounds, in bytes, of all that patterns of syntax capture, for each place where
/// [`QueryCursor::matches`] finds one in a text that [`Parser::parse`] has read by a grammar. An error
/// where the parser does not take the grammar or does not read the text.
pub uninterp spec fn captured_parts(language: Language, query: Query, text: Seq<char>) -> Result<
    Seq<Seq<(usize, usize)>>,
    PatchError,
>;

/// What was captured, match by match.
pub open spec fn captures(matches: Seq<Vec<(usize, usize)>>) -> Seq<Seq<(usize, usize)>> {
    matches.map_values(|parts: Vec<(usize, usize)>| parts@)
}

/// [`Parser::set_language`] gives a new parser the grammar, [`Parser::parse`] reads the text, and
/// [`QueryCursor::matches`], on a new cursor, finds the patterns in it, of each of which the bounds of
/// all that was captured are handed out. Without limits of time or number this rests on the grammar,
/// the patterns and the text alone.
#[verifier::external_body]
fn capture_parts(language: &Language, query: &Query, text: &str) -> (r: Result<
    Vec<Vec<(usize, usize)>>,
    PatchError,
>)
    ensures
        captured_parts(*language, *query, text@) == match r {
            Ok(matches) => Ok(captures(matches@)),
            Err(error) => Err(error),
        },
{
    let mut parser = Parser::new();
    parser.set_language(language).map_err(|_| PatchError::Language)?;
    let tree = parser.parse(text, None).ok_or(PatchError::Syntax)?;
    let mut cursor = QueryCursor::new();
    let matches = cursor.matches(query, tree.root_node(), text.as_bytes());
    let nodes = matches.map(|m| m.captures.iter().map(|c| c.node.byte_range()).collect());
    let ranges = nodes.map(|parts: Vec<Range<usize>>| parts.into_iter());
    Ok(ranges.map(|parts| parts.map(|part| (part.start, part.end)).collect()).collect())
}

/// The first part of each match.
pub open spec fn first_parts(captured: Seq<Seq<(usize, usize)>>) -> Seq<(usize, usize)> {
    captured.map_values(|parts: Seq<(usize, usize)>| parts[0])
}

/// A source with this server put before each address that is found in what was captured first by each
/// match.
pub open spec fn patched_parts(
    captured: Seq<Seq<(usize, usize)>>,
    text: Seq<char>,
    pattern: Seq<char>,
    accessible_host: Seq<char>,
) -> Result<Seq<char>, PatchError> {
    if exists|i: int| 0 <= i < captured.len() && (#[trigger] captured[i]).len() == 0 {
        Err(PatchError::Capture)
    } else if !patchable(text, first_parts(captured), pattern) {
        Err(PatchError::Place)
    } else {
        Ok(inserted(text, places(text, first_parts(captured), pattern), detour(accessible_host)))
    }
}

/// Patches a source in what was captured first by each match: before each address that is found there,
/// this server is put, and nothing else is changed.
pub fn patch_parts(
    captured: &Vec<Vec<(usize, usize)>>,
    text: &str,
    pattern: &str,
    accessible_host: &str,
) -> (r: Result<String, PatchError>)
    ensures
        patched_parts(captures(captured@), text@, pattern@, accessible_host@) == match r {
            Ok(patched) => Ok(patched@),
            Err(error) => Err(error),
        },
{
    let mut ranges: Vec<(usize, usize)> = Vec::new();
    let mut i: usize = 0;
    while i < captured.len()
        invariant
            i <= captured.len(),
            ranges.len() == i,
            forall|j: int|
                0 <= j < i ==> (#[trigger] captured@[j]).len() > 0 && captured@[j]@[0]
                    == ranges@[j],
        decreases captured.len() - i,
    {
        if captured[i].len() == 0 {
            assert(captures(captured@)[i as int].len() == 0);
            return Err(PatchError::Capture);
        }
        ranges.push(captured[i][0]);
        i = i + 1;
    }
    assert(ranges@ =~= first_parts(captures(captured@)));
    assert forall|j: int| 0 <= j < captured.len() implies (#[trigger] captures(captured@)[j]).len()
        > 0 by {
        assert(captured@[j].len() > 0);
    }
    match patch(text, &ranges, pattern, accessible_host) {
        Some(patched) => Ok(patched),
        None => Err(PatchError::Place),
    }
}

/// A source with this server put before each address, for what was captured in it, where anything
/// was.
pub open spec fn patched_source(
    captured: Result<Seq<Seq<(usize, usize)>>, PatchError>,
    text: Seq<char>,
    pattern: Seq<char>,
    accessible_host: Seq<char>,
) -> Result<Seq<char>, PatchError> {
    match captured {
        Ok(captured) => patched_parts(captured, text, pattern, accessible_host),
        Err(error) => Err(error),
    }
}

/// Patches a source: in what patterns of syntax capture first, this server is put before each address,
/// and nothing else is changed.
pub fn patch_source(
    language: &Language,
    query: &Query,
    text: &str,
    pattern: &str,
    accessible_host: &str,
) -> (r: Result<String, PatchError>)
    ensures
        patched_source(
            captured_parts(*language, *query, text@),
            text@,
            pattern@,
            accessible_host@,
        ) == match r {
            Ok(patched) => Ok(patched@),
            Err(error) => Err(error),
        },
{
    match capture_parts(language, query, text) {
        Ok(captured) => patch_parts(&captured, text, pattern, accessible_host),
        Err(error) => Err(error),
    }
}

/// The places of the first parts come first.
proof fn lemma_places_prefix(
    text: Seq<char>,
    ranges: Seq<(usize, usize)>,
    pattern: Seq<char>,
    n: int,
)
    requires
        0 <= n <= ranges.len(),
    ensures
        places(text, ranges.take(n), pattern).len() <= places(text, ranges, pattern).len(),
        forall|i: int|
            0 <= i < places(text, ranges.take(n), pattern).len() ==> places(text, ranges, pattern)[i]
                == #[trigger] places(text, ranges.take(n), pattern)[i],
    decreases ranges.len(),
{
    if n == ranges.len() {
        assert(ranges.take(n) =~= ranges);
    } else {
        lemma_places_prefix(text, ranges.drop_last(), pattern, n);
        assert(ranges.drop_last().take(n) =~= ranges.take(n));
    }
}

/// A text in which nothing is found stays as it is.
pub proof fn nothing_found_nothing_changed(text: Seq<char>, piece: Seq<char>)
    ensures
        inserted(text, seq![], piece) == text,
{
    lemma_woven_plain(text, piece, text.len() as int);
    assert(text.take(text.len() as int) =~= text);
}

/// Without places there is nothing but the text.
proof fn lemma_woven_plain(text: Seq<char>, piece: Seq<char>, n: int)
    requires
        0 <= n <= text.len(),
    ensures
        woven(text, seq![], piece, n) == text.take(n),
    decreases n,
{
    if n > 0 {
        lemma_woven_plain(text, piece, n - 1);
    }
    assert(woven(text, seq![], piece, n) =~= text.take(n));
}

/// At one place the piece is put before what stands there, and all else stays as it is.
pub proof fn pieces_stand_before_their_places(text: Seq<char>, place: int, piece: Seq<char>)
    requires
        0 <= place <= text.len(),
    ensures
        inserted(text, seq![place], piece) == text.take(place) + piece + text.skip(place),
{
    lemma_woven_once(text, place, piece, text.len() as int);
    assert(text.take(place) + piece + text.subrange(place, text.len() as int) =~= text.take(place)
        + piece + text.skip(place));
}

/// With one place the piece is there once the place is reached.
proof fn lemma_woven_once(text: Seq<char>, place: int, piece: Seq<char>, n: int)
    requires
        0 <= place <= text.len(),
        0 <= n <= text.len(),
    ensures
        woven(text, seq![place], piece, n) == (if n < place {
            text.take(n)
        } else {
            text.take(place) + piece + text.subrange(place, n)
        }),
    decreases n,
{
    reveal_with_fuel(count, 3);
    reveal_with_fuel(repeated, 3);
    assert(seq![place].drop_last() =~= seq![]);
    assert(count(seq![place], n) == if n == place {
        1nat
    } else {
        0nat
    });
    if n > 0 {
        lemma_woven_once(text, place, piece, n - 1);
    }
    if n < place {
        assert(woven(text, seq![place], piece, n) =~= text.take(n));
    } else {
        assert(woven(text, seq![place], piece, n) =~= text.take(place) + piece + text.subrange(
            place,
            n,
        ));
    }
}

/// Where a part of a text holds only ASCII characters, an address that is found in it stands
/// exactly at the place before which the piece is put.
pub proof fn addresses_stand_at_their_places(text: Seq<char>, range: (usize, usize), start: usize)
    requires
        is_range(text, range),
        is_ascii_chars(part(text, range)),
        start <= part(text, range).len(),
    ensures
        ({
            let place = char_index(text, range.0) + start;
            let end = char_index(text, range.0) + part(text, range).len();
            &&& place <= end <= text.len()
            &&& text.subrange(place, end) == part(text, range).skip(start as int)
            &&& encode_utf8(part(text, range)).skip(start as int) == encode_utf8(
                part(text, range).skip(start as int),
            )
        }),
{
    let bytes = encode_utf8(text);
    encode_utf8_valid_utf8(text);
    encode_utf8_decode_utf8(text);
    lemma_boundary(bytes, range.1 as int);
    lemma_boundary_before(bytes, range.0 as int, range.1 as int);
    let head_bytes = bytes.subrange(0, range.1 as int);
    valid_utf8_split(bytes, range.1 as int);
    valid_utf8_split(head_bytes, range.0 as int);
    decode_utf8_split(bytes, range.1 as int);
    decode_utf8_split(head_bytes, range.0 as int);
    let before = decode_utf8(head_bytes.subrange(0, range.0 as int));
    let inner = decode_utf8(head_bytes.subrange(range.0 as int, head_bytes.len() as int));
    let tail = decode_utf8(bytes.subrange(range.1 as int, bytes.len() as int));
    assert(head_bytes.subrange(0, range.0 as int) =~= bytes.subrange(0, range.0 as int));
    assert(head_bytes.subrange(range.0 as int, head_bytes.len() as int) =~= bytes.subrange(
        range.0 as int,
        range.1 as int,
    ));
    assert(text =~= before + inner + tail);
    let place = before.len() + start;
    let end = before.len() + inner.len();
    assert(text.subrange(place as int, end as int) =~= inner.skip(start as int));
    let rest = inner.skip(start as int);
    assert(is_ascii_chars(rest)) by {
        assert forall|i: int| 0 <= i < rest.len() implies '\0' <= #[trigger] rest[i] <= '\u{7f}' by {
            assert(rest[i] == inner[i + start]);
        }
    }
    is_ascii_chars_encode_utf8(inner);
    is_ascii_chars_encode_utf8(rest);
    assert forall|i: int| 0 <= i < rest.len() implies encode_utf8(inner).skip(start as int)[i]
        == encode_utf8(rest)[i] by {
        assert(rest[i] == inner[i + start]);
        assert(encode_utf8(inner)[i + start] == inner[i + start] as u8);
        assert(encode_utf8(rest)[i] == rest[i] as u8);
    }
    assert(encode_utf8(inner).skip(start as int) =~= encode_utf8(rest));
}

} // verus!
