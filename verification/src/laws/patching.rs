//! What patching does to a source, character by character.
use crate::patch::{
    char_index, count, first_parts, part, patchable, patched_source, places, regex_starts, repeated,
    starts, woven, PatchError,
};
use vstd::prelude::*;
use vstd::utf8::{decode_utf8, encode_utf8, is_char_boundary};

verus! {

/// Where an address is found in a part of a source, in bytes behind its beginning.
pub open spec fn found_in(text: Seq<char>, bounds: (usize, usize), pattern: Seq<char>) -> Seq<usize> {
    match regex_starts(
        pattern,
        decode_utf8(encode_utf8(text).subrange(bounds.0 as int, bounds.1 as int)),
    ) {
        Some(found) => found,
        None => seq![],
    }
}

/// How many characters of a source stand before a part of it.
pub open spec fn begin_of(text: Seq<char>, bounds: (usize, usize)) -> int {
    decode_utf8(encode_utf8(text).subrange(0, bounds.0 as int)).len() as int
}

/// The place of the source before which something is put for the address that is found `k`-th in the
/// first part of the match `j`.
pub open spec fn place_of(
    captured: Seq<Seq<(usize, usize)>>,
    text: Seq<char>,
    pattern: Seq<char>,
    j: int,
    k: int,
) -> int {
    begin_of(text, captured[j][0]) + found_in(text, captured[j][0], pattern)[k]
}

/// By how much the addresses that are found in a part, which begins at a place, push on what stands at
/// another: by a length for each that is found there or before it.
pub open spec fn pushed_by(at: int, found: Seq<usize>, length: int, i: int) -> int
    decreases found.len(),
{
    if found.len() == 0 {
        0
    } else {
        pushed_by(at, found.drop_last(), length, i) + if at + found.last() <= i {
            length
        } else {
            0
        }
    }
}

/// By how much all addresses that are found in the first part of each match push on what stands at a
/// place of the source.
pub open spec fn pushed(
    captured: Seq<Seq<(usize, usize)>>,
    text: Seq<char>,
    pattern: Seq<char>,
    length: int,
    i: int,
) -> int
    decreases captured.len(),
{
    if captured.len() == 0 {
        0
    } else {
        let bounds = captured.last()[0];
        pushed(captured.drop_last(), text, pattern, length, i) + pushed_by(
            begin_of(text, bounds),
            found_in(text, bounds, pattern),
            length,
            i,
        )
    }
}

/// A source is patched in every match: for each address that is found in the first part of each of them,
/// this server is put right before the place of the address, and every character of the source stands
/// where these have pushed it, so that nothing else is added and nothing is lost. This fails only where a
/// match captures nothing, or a first part is none, or a place lies behind the end; and where the source
/// could not be read, that is the error.
pub proof fn every_match_is_patched(
    captured: Seq<Seq<(usize, usize)>>,
    text: Seq<char>,
    pattern: Seq<char>,
    accessible_host: Seq<char>,
)
    ensures
        ({
            let result = patched_source(Ok(captured), text, pattern, accessible_host);
            let piece = accessible_host + "/@"@;
            let length = piece.len() as int;
            let complete = forall|j: int| 0 <= j < captured.len() ==> (#[trigger] captured[j]).len() > 0;
            let bounded = forall|j: int|
                0 <= j < captured.len() ==> {
                    let bounds = (#[trigger] captured[j])[0];
                    &&& bounds.0 <= bounds.1
                    &&& is_char_boundary(encode_utf8(text), bounds.0 as int)
                    &&& is_char_boundary(encode_utf8(text), bounds.1 as int)
                };
            let within = forall|j: int, k: int|
                0 <= j < captured.len() && 0 <= k < found_in(text, captured[j][0], pattern).len()
                    ==> #[trigger] place_of(captured, text, pattern, j, k) <= text.len();
            &&& !complete ==> result is Err && result->Err_0 == PatchError::Capture
            &&& complete && !(bounded && within) ==> result is Err && result->Err_0
                == PatchError::Place
            &&& complete && bounded && within ==> {
                let patched = result->Ok_0;
                &&& result is Ok
                &&& patched.len() == text.len() + pushed(
                    captured,
                    text,
                    pattern,
                    length,
                    text.len() as int,
                )
                &&& forall|i: int|
                    0 <= i < text.len() ==> patched[i + #[trigger] pushed(
                        captured,
                        text,
                        pattern,
                        length,
                        i,
                    )] == text[i]
                &&& forall|j: int, k: int|
                    0 <= j < captured.len() && 0 <= k < found_in(
                        text,
                        captured[j][0],
                        pattern,
                    ).len() ==> {
                        let place = #[trigger] place_of(captured, text, pattern, j, k);
                        let end = place + pushed(captured, text, pattern, length, place);
                        &&& 0 <= end - length
                        &&& end <= patched.len()
                        &&& patched.subrange(end - length, end) == piece
                    }
            }
        }),
        forall|error: PatchError|
            #[trigger] patched_source(
                Err::<Seq<Seq<(usize, usize)>>, PatchError>(error),
                text,
                pattern,
                accessible_host,
            ) == Err::<Seq<char>, PatchError>(error),
{
    let piece = accessible_host + "/@"@;
    let length = piece.len() as int;
    let complete = forall|j: int| 0 <= j < captured.len() ==> (#[trigger] captured[j]).len() > 0;
    if complete {
        let parts = first_parts(captured);
        let all = places(text, parts, pattern);
        assert(parts.len() == captured.len());
        assert forall|j: int| 0 <= j < captured.len() implies #[trigger] parts[j]
            == captured[j][0] by {}
        let within = forall|j: int, k: int|
            0 <= j < captured.len() && 0 <= k < found_in(text, captured[j][0], pattern).len()
                ==> #[trigger] place_of(captured, text, pattern, j, k) <= text.len();
        let bounded = forall|j: int|
            0 <= j < captured.len() ==> {
                let bounds = (#[trigger] captured[j])[0];
                &&& bounds.0 <= bounds.1
                &&& is_char_boundary(encode_utf8(text), bounds.0 as int)
                &&& is_char_boundary(encode_utf8(text), bounds.1 as int)
            };
        lemma_places(captured, text, pattern);
        assert forall|j: int, k: int|
            0 <= j < captured.len() && 0 <= k < found_in(
                text,
                captured[j][0],
                pattern,
            ).len() implies all.contains(#[trigger] place_of(captured, text, pattern, j, k)) by {}
        if within {
            lemma_places_within(captured, text, pattern);
        } else {
            let (j, k) = choose|j: int, k: int|
                0 <= j < captured.len() && 0 <= k < found_in(text, captured[j][0], pattern).len()
                    && #[trigger] place_of(captured, text, pattern, j, k) > text.len();
            let place = place_of(captured, text, pattern, j, k);
            let m = choose|m: int| 0 <= m < all.len() && all[m] == place;
            assert(all[m] > text.len());
        }
        if bounded {
            assert forall|j: int| 0 <= j < parts.len() implies crate::patch::is_range(
                text,
                #[trigger] parts[j],
            ) by {
                assert(captured[j][0] == parts[j]);
            }
        } else {
            let j = choose|j: int|
                0 <= j < captured.len() && !{
                    let bounds = (#[trigger] captured[j])[0];
                    &&& bounds.0 <= bounds.1
                    &&& is_char_boundary(encode_utf8(text), bounds.0 as int)
                    &&& is_char_boundary(encode_utf8(text), bounds.1 as int)
                };
            assert(!crate::patch::is_range(text, parts[j]));
        }
        assert((exists|j: int| 0 <= j < captured.len() && (#[trigger] captured[j]).len() == 0)
            == false);
        if bounded && within {
            assert(patchable(text, parts, pattern));
            let patched = woven(text, all, piece, text.len() as int);
            lemma_places_above(text, parts, pattern);
            lemma_woven(text, all, piece, text.len() as int);
            assert forall|i: int| 0 <= i < text.len() implies patched[i + #[trigger] pushed(
                captured,
                text,
                pattern,
                length,
                i,
            )] == text[i] by {
                lemma_pushed(captured, text, pattern, length, i);
                assert(patched[i + shift(all, length, i)] == text[i]);
            }
            lemma_pushed(captured, text, pattern, length, text.len() as int);
            assert forall|j: int, k: int|
                0 <= j < captured.len() && 0 <= k < found_in(
                    text,
                    captured[j][0],
                    pattern,
                ).len() implies {
                let place = #[trigger] place_of(captured, text, pattern, j, k);
                let end = place + pushed(captured, text, pattern, length, place);
                &&& 0 <= end - length
                &&& end <= patched.len()
                &&& patched.subrange(end - length, end) == piece
            } by {
                let place = place_of(captured, text, pattern, j, k);
                lemma_pushed(captured, text, pattern, length, place);
                assert(all.contains(place));
                lemma_count_contained(all, place);
                assert(count(all, place) > 0);
            }
        }
    }
}

/// By how much places push on what stands at one: by a length for each that is there or before it.
spec fn shift(all: Seq<int>, length: int, i: int) -> int
    decreases all.len(),
{
    if all.len() == 0 {
        0
    } else {
        shift(all.drop_last(), length, i) + if all.last() <= i {
            length
        } else {
            0
        }
    }
}

/// A place that is among others occurs.
proof fn lemma_count_contained(all: Seq<int>, place: int)
    requires
        all.contains(place),
    ensures
        count(all, place) > 0,
    decreases all.len(),
{
    let m = choose|m: int| 0 <= m < all.len() && all[m] == place;
    if m < all.len() - 1 {
        assert(all.drop_last()[m] == place);
        lemma_count_contained(all.drop_last(), place);
    }
}

/// Places one behind the other push on by the sum.
proof fn lemma_shift_both(a: Seq<int>, b: Seq<int>, length: int, i: int)
    ensures
        shift(a + b, length, i) == shift(a, length, i) + shift(b, length, i),
    decreases b.len(),
{
    if b.len() == 0 {
        assert(a + b =~= a);
    } else {
        lemma_shift_both(a, b.drop_last(), length, i);
        assert((a + b).drop_last() =~= a + b.drop_last());
        assert((a + b).last() == b.last());
    }
}

/// What is found in a part pushes on as its places do.
proof fn lemma_shift_part(at: int, found: Seq<usize>, length: int, i: int)
    ensures
        shift(found.map_values(|start: usize| at + start), length, i) == pushed_by(
            at,
            found,
            length,
            i,
        ),
    decreases found.len(),
{
    let all = found.map_values(|start: usize| at + start);
    if found.len() > 0 {
        lemma_shift_part(at, found.drop_last(), length, i);
        assert(all.drop_last() =~= found.drop_last().map_values(|start: usize| at + start));
        assert(all.last() == at + found.last());
    }
}

/// All that is found pushes on as the places do.
proof fn lemma_pushed(
    captured: Seq<Seq<(usize, usize)>>,
    text: Seq<char>,
    pattern: Seq<char>,
    length: int,
    i: int,
)
    ensures
        pushed(captured, text, pattern, length, i) == shift(
            places(text, first_parts(captured), pattern),
            length,
            i,
        ),
    decreases captured.len(),
{
    let parts = first_parts(captured);
    if captured.len() > 0 {
        let fewer = captured.drop_last();
        lemma_pushed(fewer, text, pattern, length, i);
        assert(parts.drop_last() =~= first_parts(fewer));
        let bounds = parts.last();
        assert(bounds == captured.last()[0]);
        let found = found_in(text, bounds, pattern);
        assert(found == starts(pattern, part(text, bounds)));
        let here = found.map_values(|start: usize| char_index(text, bounds.0) + start);
        assert(places(text, parts, pattern) =~= places(text, first_parts(fewer), pattern) + here);
        lemma_shift_both(places(text, first_parts(fewer), pattern), here, length, i);
        lemma_shift_part(char_index(text, bounds.0), found, length, i);
    }
}

/// The places are those of all addresses that are found.
proof fn lemma_places(captured: Seq<Seq<(usize, usize)>>, text: Seq<char>, pattern: Seq<char>)
    ensures
        forall|j: int, k: int|
            0 <= j < captured.len() && 0 <= k < found_in(text, captured[j][0], pattern).len()
                ==> places(text, first_parts(captured), pattern).contains(
                #[trigger] place_of(captured, text, pattern, j, k),
            ),
    decreases captured.len(),
{
    let parts = first_parts(captured);
    let all = places(text, parts, pattern);
    if captured.len() > 0 {
        let fewer = captured.drop_last();
        lemma_places(fewer, text, pattern);
        assert(parts.drop_last() =~= first_parts(fewer));
        let before = places(text, first_parts(fewer), pattern);
        let bounds = parts.last();
        assert(bounds == captured.last()[0]);
        let found = found_in(text, bounds, pattern);
        let here = found.map_values(|start: usize| char_index(text, bounds.0) + start);
        assert(all =~= before + here);
        assert forall|j: int, k: int|
            0 <= j < captured.len() && 0 <= k < found_in(
                text,
                captured[j][0],
                pattern,
            ).len() implies all.contains(#[trigger] place_of(captured, text, pattern, j, k)) by {
            let place = place_of(captured, text, pattern, j, k);
            if j < fewer.len() {
                assert(place_of(fewer, text, pattern, j, k) == place);
                assert(before.contains(place));
                let m = choose|m: int| 0 <= m < before.len() && before[m] == place;
                assert(all[m] == place);
            } else {
                assert(here[k] == place);
                assert(all[before.len() + k] == place);
            }
        }
    }
}

/// Where no address lies behind the end, no place does.
proof fn lemma_places_within(
    captured: Seq<Seq<(usize, usize)>>,
    text: Seq<char>,
    pattern: Seq<char>,
)
    requires
        forall|j: int, k: int|
            0 <= j < captured.len() && 0 <= k < found_in(text, captured[j][0], pattern).len()
                ==> #[trigger] place_of(captured, text, pattern, j, k) <= text.len(),
    ensures
        forall|m: int|
            0 <= m < places(text, first_parts(captured), pattern).len() ==> #[trigger] places(
                text,
                first_parts(captured),
                pattern,
            )[m] <= text.len(),
    decreases captured.len(),
{
    let parts = first_parts(captured);
    let all = places(text, parts, pattern);
    if captured.len() > 0 {
        let fewer = captured.drop_last();
        assert forall|j: int, k: int|
            0 <= j < fewer.len() && 0 <= k < found_in(
                text,
                fewer[j][0],
                pattern,
            ).len() implies #[trigger] place_of(fewer, text, pattern, j, k) <= text.len() by {
            assert(place_of(captured, text, pattern, j, k) == place_of(
                fewer,
                text,
                pattern,
                j,
                k,
            ));
        }
        lemma_places_within(fewer, text, pattern);
        assert(parts.drop_last() =~= first_parts(fewer));
        let before = places(text, first_parts(fewer), pattern);
        let bounds = parts.last();
        assert(bounds == captured.last()[0]);
        let found = found_in(text, bounds, pattern);
        let here = found.map_values(|start: usize| char_index(text, bounds.0) + start);
        assert(all =~= before + here);
        assert forall|m: int| 0 <= m < all.len() implies #[trigger] all[m] <= text.len() by {
            if m < before.len() {
                assert(all[m] == before[m]);
            } else {
                let k = m - before.len();
                assert(all[m] == here[k]);
                assert(place_of(captured, text, pattern, captured.len() - 1, k) == all[m]);
            }
        }
    }
}

/// No place lies before the beginning.
proof fn lemma_places_above(text: Seq<char>, parts: Seq<(usize, usize)>, pattern: Seq<char>)
    ensures
        forall|m: int|
            0 <= m < places(text, parts, pattern).len() ==> #[trigger] places(
                text,
                parts,
                pattern,
            )[m] >= 0,
    decreases parts.len(),
{
    if parts.len() > 0 {
        lemma_places_above(text, parts.drop_last(), pattern);
        let before = places(text, parts.drop_last(), pattern);
        let bounds = parts.last();
        let here = starts(pattern, part(text, bounds)).map_values(
            |start: usize| char_index(text, bounds.0) + start,
        );
        let all = places(text, parts, pattern);
        assert(all == before + here);
        assert forall|m: int| 0 <= m < all.len() implies #[trigger] all[m] >= 0 by {
            if m < before.len() {
                assert(all[m] == before[m]);
            } else {
                assert(all[m] == here[m - before.len()]);
            }
        }
    }
}

/// What is pushed on grows by a length for each time that a place occurs.
proof fn lemma_shift_step(all: Seq<int>, length: int, n: int)
    ensures
        shift(all, length, n) == shift(all, length, n - 1) + count(all, n) * length,
    decreases all.len(),
{
    if all.len() > 0 {
        lemma_shift_step(all.drop_last(), length, n);
        let before = count(all.drop_last(), n) as int;
        assert((before + 1) * length == before * length + length) by (nonlinear_arith);
    } else {
        assert(0 * length == 0) by (nonlinear_arith);
    }
}

/// What is pushed on never shrinks, and begins with nothing.
proof fn lemma_shift_grows(all: Seq<int>, length: int, a: int, b: int)
    requires
        length >= 0,
        a <= b,
    ensures
        0 <= shift(all, length, a) <= shift(all, length, b),
        (forall|m: int| 0 <= m < all.len() ==> #[trigger] all[m] >= 0) ==> shift(all, length, -1)
            == 0,
    decreases all.len(),
{
    if all.len() > 0 {
        lemma_shift_grows(all.drop_last(), length, a, b);
        if forall|m: int| 0 <= m < all.len() ==> #[trigger] all[m] >= 0 {
            assert forall|m: int| 0 <= m < all.drop_last().len() implies #[trigger] all.drop_last()[m]
                >= 0 by {
                assert(all[m] >= 0);
            }
            assert(all[all.len() - 1] >= 0);
        }
    }
}

/// A piece some times over is so many times as long.
proof fn lemma_repeated(piece: Seq<char>, times: nat)
    ensures
        repeated(piece, times).len() == times * piece.len(),
    decreases times,
{
    if times > 0 {
        lemma_repeated(piece, (times - 1) as nat);
        assert((times - 1) * piece.len() + piece.len() == times * piece.len()) by (nonlinear_arith);
    } else {
        assert(0 * piece.len() == 0) by (nonlinear_arith);
    }
}

/// Where everything stands once pieces are put before places.
proof fn lemma_woven(text: Seq<char>, all: Seq<int>, piece: Seq<char>, n: int)
    requires
        0 <= n <= text.len(),
        forall|m: int| 0 <= m < all.len() ==> #[trigger] all[m] >= 0,
    ensures
        woven(text, all, piece, n).len() == n + shift(all, piece.len() as int, n),
        forall|i: int|
            0 <= i < n ==> woven(text, all, piece, n)[i + #[trigger] shift(
                all,
                piece.len() as int,
                i,
            )] == text[i],
        forall|k: int|
            0 <= k <= n && #[trigger] count(all, k) > 0 ==> {
                let end = k + shift(all, piece.len() as int, k);
                &&& 0 <= end - piece.len()
                &&& end <= woven(text, all, piece, n).len()
                &&& woven(text, all, piece, n).subrange(end - piece.len(), end) == piece
            },
    decreases n,
{
    let length = piece.len() as int;
    let w = woven(text, all, piece, n);
    let times = count(all, n);
    let tail = repeated(piece, times);
    lemma_repeated(piece, times);
    lemma_shift_step(all, length, n);
    lemma_shift_grows(all, length, -1, n);
    let before = if n <= 0 {
        Seq::<char>::empty()
    } else {
        woven(text, all, piece, n - 1).push(text[n - 1])
    };
    if n > 0 {
        lemma_woven(text, all, piece, n - 1);
    }
    assert(w =~= before + tail);
    assert(before.len() == n + shift(all, length, n - 1));
    assert(w.len() == n + shift(all, length, n));
    assert forall|i: int| 0 <= i < n implies w[i + #[trigger] shift(all, length, i)] == text[i] by {
        lemma_shift_grows(all, length, i, n - 1);
        let at = i + shift(all, length, i);
        assert(0 <= at < before.len());
        if i < n - 1 {
            let shorter = woven(text, all, piece, n - 1);
            assert(shorter[at] == text[i]);
            lemma_shift_grows(all, length, i, n - 1);
            assert(at < shorter.len());
            assert(before[at] == shorter[at]);
        } else {
            assert(before[at] == text[n - 1]);
        }
        assert(w[at] == before[at]);
    }
    assert forall|k: int| 0 <= k <= n && #[trigger] count(all, k) > 0 implies {
        let end = k + shift(all, length, k);
        &&& 0 <= end - length
        &&& end <= w.len()
        &&& w.subrange(end - length, end) == piece
    } by {
        let end = k + shift(all, length, k);
        if k == n {
            let fewer = repeated(piece, (times - 1) as nat);
            assert(tail =~= fewer + piece);
            assert(end == w.len());
            assert(w =~= before + fewer + piece);
            assert(w.subrange(end - length, end) =~= piece);
        } else {
            let shorter = woven(text, all, piece, n - 1);
            assert(shorter.subrange(end - length, end) == piece);
            assert(end <= shorter.len());
            assert(w.subrange(end - length, end) =~= shorter.subrange(end - length, end));
        }
    }
}

} // verus!
