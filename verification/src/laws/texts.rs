//! What holds of texts: searching, splitting, joining, replacing, trimming, and numbers.
use crate::blobcast::ws::{framed, FrameError};
use crate::digits::{
    byte_number, decimal, decimal_digits, digit, digits_value, hex_digits, is_digit, signed_number,
};
use crate::frame::log_parts;
use crate::http_cache::lists_br;
use crate::text::{
    find_from, is_blank, join, occurs_at, pad_start, replace, split, split_once, trim, trim_end,
    trim_start,
};
use vstd::prelude::*;

verus! {

/// Whether a pattern stands in a text at a place, character by character.
pub open spec fn stands_at(s: Seq<char>, pattern: Seq<char>, at: int) -> bool {
    &&& 0 <= at
    &&& at + pattern.len() <= s.len()
    &&& forall|i: int| 0 <= i < pattern.len() ==> s[at + i] == #[trigger] pattern[i]
}

/// A pattern occurs where it stands.
proof fn lemma_occurs(s: Seq<char>, pattern: Seq<char>, at: int)
    ensures
        occurs_at(s, pattern, at) <==> stands_at(s, pattern, at),
{
    if occurs_at(s, pattern, at) {
        assert forall|i: int| 0 <= i < pattern.len() implies s[at + i] == #[trigger] pattern[i] by {
            assert(s.subrange(at, at + pattern.len())[i] == s[at + i]);
        }
    }
    if stands_at(s, pattern, at) {
        assert(s.subrange(at, at + pattern.len()) =~= pattern);
    }
}

/// What is found is the first place from a place on at which the pattern stands, and nothing is found
/// only where it stands nowhere from there on.
pub proof fn the_first_place_is_found(s: Seq<char>, pattern: Seq<char>, from: int)
    requires
        0 <= from,
    ensures
        match find_from(s, pattern, from) {
            Some(at) => {
                &&& from <= at
                &&& stands_at(s, pattern, at)
                &&& forall|j: int| from <= j < at ==> !#[trigger] stands_at(s, pattern, j)
            },
            None => forall|j: int| from <= j ==> !#[trigger] stands_at(s, pattern, j),
        },
    decreases s.len() - from + 1,
{
    lemma_occurs(s, pattern, from);
    if from + pattern.len() <= s.len() && !occurs_at(s, pattern, from) {
        the_first_place_is_found(s, pattern, from + 1);
        assert forall|j: int| from <= j && !(from + 1 <= j) implies !#[trigger] stands_at(
            s,
            pattern,
            j,
        ) by {
            assert(j == from);
        }
    }
}

/// A text that is split once is the part before the pattern, the pattern, and the part behind it, and the
/// pattern stands nowhere before; it is not split only where the pattern stands nowhere.
pub proof fn texts_are_split_at_the_first_place(s: Seq<char>, pattern: Seq<char>)
    ensures
        match split_once(s, pattern) {
            Some((head, tail)) => {
                &&& s == head + pattern + tail
                &&& forall|j: int| 0 <= j < head.len() ==> !#[trigger] stands_at(s, pattern, j)
            },
            None => forall|j: int| !#[trigger] stands_at(s, pattern, j),
        },
{
    the_first_place_is_found(s, pattern, 0);
    match split_once(s, pattern) {
        Some((head, tail)) => {
            let at = find_from(s, pattern, 0)->Some_0;
            assert forall|i: int| 0 <= i < s.len() implies s[i] == (head + pattern + tail)[i] by {
                if at <= i < at + pattern.len() {
                    assert(s[at + (i - at)] == pattern[i - at]);
                }
            }
            assert(s =~= head + pattern + tail);
        },
        None => {
            assert forall|j: int| !#[trigger] stands_at(s, pattern, j) by {
                if j < 0 {
                }
            }
        },
    }
}

/// A text is split at a place before which the pattern does not stand.
pub(crate) proof fn lemma_split_known(head: Seq<char>, pattern: Seq<char>, tail: Seq<char>)
    requires
        forall|j: int|
            0 <= j < head.len() ==> !#[trigger] stands_at(head + pattern + tail, pattern, j),
    ensures
        split_once(head + pattern + tail, pattern) == Some((head, tail)),
{
    let s = head + pattern + tail;
    the_first_place_is_found(s, pattern, 0);
    assert(stands_at(s, pattern, head.len() as int));
    let at = find_from(s, pattern, 0)->Some_0;
    assert(at == head.len());
    assert(s.take(at) =~= head);
    assert(s.skip(at + pattern.len()) =~= tail);
}

/// The pieces of a text, with the pattern between each two, are the text; there is at least one, and the
/// pattern stands in none of them.
pub proof fn pieces_are_joined_again(s: Seq<char>, pattern: Seq<char>)
    requires
        pattern.len() > 0,
    ensures
        split(s, pattern).len() > 0,
        join(split(s, pattern), pattern) == s,
        forall|i: int, j: int|
            0 <= i < split(s, pattern).len() ==> !#[trigger] stands_at(
                split(s, pattern)[i],
                pattern,
                j,
            ),
    decreases s.len(),
{
    texts_are_split_at_the_first_place(s, pattern);
    let pieces = split(s, pattern);
    match split_once(s, pattern) {
        Some((head, tail)) => {
            assert(tail.len() < s.len());
            pieces_are_joined_again(tail, pattern);
            let rest = split(tail, pattern);
            assert(pieces == seq![head] + rest);
            lemma_join_front(head, rest, pattern);
            assert(join(pieces, pattern) =~= head + pattern + join(rest, pattern));
            assert forall|i: int, j: int| 0 <= i < pieces.len() implies !#[trigger] stands_at(
                pieces[i],
                pattern,
                j,
            ) by {
                if i == 0 {
                    if stands_at(head, pattern, j) {
                        assert forall|k: int| 0 <= k < pattern.len() implies s[j + k]
                            == #[trigger] pattern[k] by {
                            assert(head[j + k] == pattern[k]);
                        }
                        assert(stands_at(s, pattern, j));
                    }
                } else {
                    assert(pieces[i] == rest[i - 1]);
                }
            }
        },
        None => {
            assert(pieces =~= seq![s]);
            assert(pieces.drop_last() =~= seq![]);
            assert(join(pieces, pattern) =~= s);
        },
    }
}

/// Pieces behind one more.
proof fn lemma_join_front(head: Seq<char>, rest: Seq<Seq<char>>, between: Seq<char>)
    requires
        rest.len() > 0,
    ensures
        join(seq![head] + rest, between) == head + between + join(rest, between),
    decreases rest.len(),
{
    let all = seq![head] + rest;
    assert(all.drop_last() =~= seq![head] + rest.drop_last());
    assert(all.last() == rest.last());
    if rest.len() == 1 {
        assert(rest.drop_last() =~= seq![]);
        assert(all.drop_last() =~= seq![head]);
        assert(seq![head].drop_last() =~= seq![]);
        reveal_with_fuel(join, 3);
        assert(join(all, between) =~= head + between + join(rest, between));
    } else {
        lemma_join_front(head, rest.drop_last(), between);
        assert(join(all, between) =~= head + between + join(rest, between));
    }
}

/// A list is joined by putting the one text between each two, and nothing before the first or behind the
/// last.
pub proof fn lists_are_joined(list: Seq<Seq<char>>, last: Seq<char>, between: Seq<char>)
    ensures
        join(seq![], between) == Seq::<char>::empty(),
        join(seq![last], between) == last,
        list.len() > 0 ==> join(list.push(last), between) == join(list, between) + between + last,
{
    assert(seq![last].drop_last() =~= seq![]);
    assert(join(seq![last], between) =~= last);
    assert(list.push(last).drop_last() =~= list);
}

/// To replace a pattern is to take what stands between its places and to put the other text between them
/// instead.
pub proof fn replacing_is_splitting_and_joining(s: Seq<char>, pattern: Seq<char>, by: Seq<char>)
    requires
        pattern.len() > 0,
    ensures
        replace(s, pattern, by) == join(split(s, pattern), by),
    decreases s.len(),
{
    texts_are_split_at_the_first_place(s, pattern);
    match split_once(s, pattern) {
        Some((head, tail)) => {
            replacing_is_splitting_and_joining(tail, pattern, by);
            pieces_are_joined_again(tail, pattern);
            lemma_join_front(head, split(tail, pattern), by);
            assert(split(s, pattern) == seq![head] + split(tail, pattern));
            lemma_replaced_first(head, pattern, tail, by);
        },
        None => {
            assert(split(s, pattern) =~= seq![s]);
            lists_are_joined(seq![], s, by);
            lemma_nothing_replaced(s, pattern, by);
        },
    }
}

/// A text without its first character holds a pattern one place earlier.
proof fn lemma_stands_behind(s: Seq<char>, pattern: Seq<char>, at: int)
    requires
        s.len() > 0,
        0 <= at,
    ensures
        stands_at(s.skip(1), pattern, at) <==> stands_at(s, pattern, at + 1),
{
    if stands_at(s.skip(1), pattern, at) {
        assert forall|i: int| 0 <= i < pattern.len() implies s[at + 1 + i]
            == #[trigger] pattern[i] by {
            assert(s.skip(1)[at + i] == pattern[i]);
        }
    }
    if stands_at(s, pattern, at + 1) {
        assert forall|i: int| 0 <= i < pattern.len() implies s.skip(1)[at + i]
            == #[trigger] pattern[i] by {
            assert(s[at + 1 + i] == pattern[i]);
        }
    }
}

/// The first pattern is replaced, and what is behind it as a text of its own.
proof fn lemma_replaced_first(
    head: Seq<char>,
    pattern: Seq<char>,
    tail: Seq<char>,
    by: Seq<char>,
)
    requires
        pattern.len() > 0,
        forall|j: int|
            0 <= j < head.len() ==> !#[trigger] stands_at(head + pattern + tail, pattern, j),
    ensures
        replace(head + pattern + tail, pattern, by) == head + by + replace(tail, pattern, by),
    decreases head.len(),
{
    let s = head + pattern + tail;
    lemma_occurs(s, pattern, 0);
    if head.len() == 0 {
        assert(stands_at(s, pattern, 0));
        assert(s.skip(pattern.len() as int) =~= tail);
        assert(replace(s, pattern, by) =~= head + by + replace(tail, pattern, by));
    } else {
        assert(!stands_at(s, pattern, 0));
        let rest = head.skip(1);
        assert(s.skip(1) =~= rest + pattern + tail);
        assert forall|j: int| 0 <= j < rest.len() implies !#[trigger] stands_at(
            rest + pattern + tail,
            pattern,
            j,
        ) by {
            lemma_stands_behind(s, pattern, j);
            assert(!stands_at(s, pattern, j + 1));
        }
        lemma_replaced_first(rest, pattern, tail, by);
        assert(replace(s, pattern, by) == seq![s[0]] + (rest + by + replace(tail, pattern, by)));
        assert(replace(s, pattern, by) =~= head + by + replace(tail, pattern, by));
    }
}

/// Nothing is replaced where the pattern stands nowhere.
proof fn lemma_nothing_replaced(s: Seq<char>, pattern: Seq<char>, by: Seq<char>)
    requires
        pattern.len() > 0,
        forall|j: int| !#[trigger] stands_at(s, pattern, j),
    ensures
        replace(s, pattern, by) == s,
    decreases s.len(),
{
    if s.len() > 0 {
        lemma_occurs(s, pattern, 0);
        assert(!stands_at(s, pattern, 0));
        assert forall|j: int| !#[trigger] stands_at(s.skip(1), pattern, j) by {
            if j >= 0 {
                lemma_stands_behind(s, pattern, j);
                assert(!stands_at(s, pattern, j + 1));
            }
        }
        lemma_nothing_replaced(s.skip(1), pattern, by);
        assert(replace(s, pattern, by) =~= s);
    }
}

/// The blanks are the ends of lines, the tabulators, and the spaces of all widths, those that do not break
/// among them; no letter, digit or mark below the controls of Latin is one.
pub proof fn blanks_are_spaces_and_ends_of_lines(c: char)
    ensures
        (c as u32) < 0x80 ==> (is_blank(c) <==> c == ' ' || c == '\t' || c == '\n' || c == '\r'
            || c as u32 == 0x0B || c as u32 == 0x0C),
        0x80 <= c as u32 && (c as u32) < 0x2000 ==> (is_blank(c) <==> c as u32 == 0x85 || c as u32
            == 0xA0 || c as u32 == 0x1680),
        0x2000 <= c as u32 ==> (is_blank(c) <==> c as u32 <= 0x200A || c as u32 == 0x2028 || c as u32
            == 0x2029 || c as u32 == 0x202F || c as u32 == 0x205F || c as u32 == 0x3000),
{
}

/// A text is trimmed at both ends of what is to be dropped, up to the first and the last character that is
/// not.
pub proof fn texts_are_trimmed_at_both_ends(s: Seq<char>, drop: spec_fn(char) -> bool)
    ensures
        exists|from: int, to: int|
            {
                &&& 0 <= from <= to <= s.len()
                &&& trim(s, drop) == #[trigger] s.subrange(from, to)
                &&& forall|i: int| 0 <= i < from ==> drop(#[trigger] s[i])
                &&& forall|i: int| to <= i < s.len() ==> drop(#[trigger] s[i])
                &&& from < to ==> !drop(s[from]) && !drop(s[to - 1])
            },
{
    let from = lemma_trim_start(s, drop);
    let head = trim_start(s, drop);
    let len = lemma_trim_end(head, drop);
    let to = from + len;
    assert(trim(s, drop) =~= s.subrange(from, to));
    assert forall|i: int| to <= i < s.len() implies drop(#[trigger] s[i]) by {
        assert(head[i - from] == s[i]);
    }
    if from < to {
        assert(head[0] == s[from]);
        assert(head[len - 1] == s[to - 1]);
    }
}

/// From where on a text is kept.
proof fn lemma_trim_start(s: Seq<char>, drop: spec_fn(char) -> bool) -> (from: int)
    ensures
        0 <= from <= s.len(),
        trim_start(s, drop) == s.skip(from),
        forall|i: int| 0 <= i < from ==> drop(#[trigger] s[i]),
        from < s.len() ==> !drop(s[from]),
    decreases s.len(),
{
    if s.len() > 0 && drop(s[0]) {
        let rest = s.skip(1);
        let from = lemma_trim_start(rest, drop);
        assert(s.skip(1).skip(from) =~= s.skip(from + 1));
        assert forall|i: int| 0 <= i < from + 1 implies drop(#[trigger] s[i]) by {
            if i > 0 {
                assert(rest[i - 1] == s[i]);
            }
        }
        from + 1
    } else {
        assert(s.skip(0) =~= s);
        0
    }
}

/// Up to where a text is kept.
proof fn lemma_trim_end(s: Seq<char>, drop: spec_fn(char) -> bool) -> (to: int)
    ensures
        0 <= to <= s.len(),
        trim_end(s, drop) == s.take(to),
        forall|i: int| to <= i < s.len() ==> drop(#[trigger] s[i]),
        to > 0 ==> !drop(s[to - 1]),
    decreases s.len(),
{
    if s.len() > 0 && drop(s.last()) {
        let rest = s.drop_last();
        let to = lemma_trim_end(rest, drop);
        assert(rest.take(to) =~= s.take(to));
        assert forall|i: int| to <= i < s.len() implies drop(#[trigger] s[i]) by {
            if i < rest.len() {
                assert(rest[i] == s[i]);
            }
        }
        to
    } else {
        assert(s.take(s.len() as int) =~= s);
        s.len() as int
    }
}

/// A text that is aligned to the right has spaces before it, and as many characters as are wanted, or its
/// own where it has more.
pub proof fn texts_are_aligned_with_spaces(s: Seq<char>, width: int)
    ensures
        ({
            let aligned = pad_start(s, width);
            let spaces = aligned.len() - s.len();
            &&& s.len() >= width ==> aligned == s
            &&& s.len() < width ==> aligned.len() == width
            &&& aligned.skip(spaces) == s
            &&& forall|i: int| 0 <= i < spaces ==> #[trigger] aligned[i] == ' '
        }),
{
    let aligned = pad_start(s, width);
    assert(aligned.skip(aligned.len() - s.len()) =~= s);
}

/// An encoding is listed where it is one of the pieces between commas, blanks at its ends aside: one more
/// piece before a list makes a difference only where it is that encoding itself.
pub proof fn encodings_are_listed_between_commas(piece: Seq<char>, rest: Seq<char>)
    requires
        !piece.contains(','),
    ensures
        lists_br(piece) <==> trim(piece, |c: char| is_blank(c)) == "br"@,
        lists_br(piece + ","@ + rest) <==> trim(piece, |c: char| is_blank(c)) == "br"@ || lists_br(
            rest,
        ),
{
    reveal_strlit(",");
    let comma = ","@;
    let whole = piece + comma + rest;
    assert forall|j: int| 0 <= j < piece.len() implies !#[trigger] stands_at(whole, comma, j) by {
        if stands_at(whole, comma, j) {
            assert(whole[j + 0] == comma[0]);
            assert(piece.contains(piece[j]));
        }
    }
    lemma_split_known(piece, comma, rest);
    assert(split(whole, comma) == seq![piece] + split(rest, comma));
    texts_are_split_at_the_first_place(piece, comma);
    if split_once(piece, comma) is Some {
        let (head, tail) = split_once(piece, comma)->Some_0;
        assert(piece[head.len() as int] == ',');
        assert(piece.contains(piece[head.len() as int]));
    }
    assert(split(piece, comma) =~= seq![piece]);
    let pieces = split(whole, comma);
    let others = split(rest, comma);
    let want = "br"@;
    if trim(piece, |c: char| is_blank(c)) == want {
        assert(pieces[0] == piece);
        assert(split(piece, comma)[0] == piece);
    }
    if lists_br(rest) {
        let i = choose|i: int|
            0 <= i < others.len() && trim(#[trigger] others[i], |c: char| is_blank(c)) == want;
        assert(pieces[i + 1] == others[i]);
    }
    if lists_br(whole) {
        let i = choose|i: int|
            0 <= i < pieces.len() && trim(#[trigger] pieces[i], |c: char| is_blank(c)) == want;
        if i > 0 {
            assert(others[i - 1] == pieces[i]);
        }
    }
}

/// What is logged of a text that is passed on is what stands before the first three colons, and what stands
/// from there to the next three or to the end; and all of it where there are none.
pub proof fn logs_show_what_stands_between_colons(
    opcode: Seq<char>,
    message: Seq<char>,
    more: Seq<char>,
)
    requires
        !opcode.contains(':'),
        !message.contains(':'),
    ensures
        log_parts(opcode) == (opcode, None::<Seq<char>>),
        log_parts(opcode + ":::"@ + message) == (opcode, Some(message)),
        log_parts(opcode + ":::"@ + (message + ":::"@ + more)) == (opcode, Some(message)),
{
    reveal_strlit(":::");
    let colons = ":::"@;
    lemma_no_colons(opcode, Seq::empty());
    lemma_no_colons(opcode, message);
    lemma_no_colons(opcode, message + colons + more);
    lemma_no_colons(message, more);
    assert forall|j: int| !#[trigger] stands_at(opcode, colons, j) by {
        if stands_at(opcode, colons, j) {
            assert(opcode[j + 0] == colons[0]);
            assert(opcode.contains(opcode[j]));
        }
    }
    assert forall|j: int| !#[trigger] stands_at(message, colons, j) by {
        if stands_at(message, colons, j) {
            assert(message[j + 0] == colons[0]);
            assert(message.contains(message[j]));
        }
    }
    lemma_unsplit(opcode, colons);
    lemma_unsplit(message, colons);
    lemma_split_known(opcode, colons, message);
    lemma_split_known(opcode, colons, message + colons + more);
    lemma_split_known(message, colons, more);
    assert(split(opcode + colons + message, colons) =~= seq![opcode, message]);
    let rest = split(message + colons + more, colons);
    assert(rest == seq![message] + split(more, colons));
    assert(split(opcode + colons + (message + colons + more), colons) == seq![opcode] + rest);
    assert(rest[0] == message);
}

/// Three colons do not stand where there are none.
proof fn lemma_no_colons(head: Seq<char>, tail: Seq<char>)
    requires
        !head.contains(':'),
    ensures
        forall|j: int|
            0 <= j < head.len() ==> !#[trigger] stands_at(head + ":::"@ + tail, ":::"@, j),
{
    reveal_strlit(":::");
    let colons = ":::"@;
    let whole = head + colons + tail;
    assert forall|j: int| 0 <= j < head.len() implies !#[trigger] stands_at(whole, colons, j) by {
        if stands_at(whole, colons, j) {
            assert(whole[j + 0] == colons[0]);
            assert(head.contains(head[j]));
        }
    }
}

/// A text in which a pattern does not stand is one piece.
proof fn lemma_unsplit(s: Seq<char>, pattern: Seq<char>)
    requires
        forall|j: int| !#[trigger] stands_at(s, pattern, j),
    ensures
        split_once(s, pattern) is None,
        split(s, pattern) == seq![s],
{
    texts_are_split_at_the_first_place(s, pattern);
    if split_once(s, pattern) is Some {
        let (head, tail) = split_once(s, pattern)->Some_0;
        assert(stands_at(s, pattern, head.len() as int));
    }
}

/// The value of a digit.
proof fn lemma_digit(value: int)
    requires
        0 <= value < 10,
    ensures
        is_digit(digit(value)),
        digit(value) as nat - '0' as nat == value,
{
}

/// The digits of a number have its value.
proof fn lemma_decimal_value(n: nat)
    ensures
        digits_value(decimal_digits(n)) == n,
        decimal_digits(n).len() > 0,
        forall|i: int|
            0 <= i < decimal_digits(n).len() ==> is_digit(#[trigger] decimal_digits(n)[i]),
    decreases n,
{
    if n < 10 {
        lemma_digit(n as int);
        let s = seq![digit(n as int)];
        assert(s.drop_last() =~= seq![]);
        reveal_with_fuel(digits_value, 2);
        assert(digits_value(s) == n);
    } else {
        lemma_decimal_value(n / 10);
        lemma_digit((n % 10) as int);
        let s = decimal_digits(n);
        assert(s.drop_last() =~= decimal_digits(n / 10));
        assert(s.last() == digit((n % 10) as int));
    }
}

/// A number that is written is read back.
pub proof fn written_numbers_read_back(n: i64)
    ensures
        signed_number(decimal(n as int)) == Some(n),
        0 <= n <= 255 ==> byte_number(decimal(n as int)) == Some(n as u8),
{
    let s = decimal(n as int);
    if n < 0 {
        let size = (-(n as int)) as nat;
        lemma_decimal_value(size);
        assert(s.skip(1) =~= decimal_digits(size));
        assert(s[0] == '-');
    } else {
        lemma_decimal_value(n as nat);
        assert(is_digit(s[0]));
        assert(s[0] != '-' && s[0] != '+');
    }
}

/// The value of a digit of base sixteen.
pub open spec fn hex_value(c: char) -> int {
    if '0' <= c <= '9' {
        c as u32 - '0' as u32
    } else {
        c as u32 - 'a' as u32 + 10
    }
}

/// The value of digits of base sixteen.
pub open spec fn hex_number(s: Seq<char>) -> int
    decreases s.len(),
{
    if s.len() == 0 {
        0
    } else {
        16 * hex_number(s.drop_last()) + hex_value(s.last())
    }
}

/// A token is written as thirty-two digits whose value is its own, so that no two tokens are written alike.
pub proof fn written_tokens_keep_their_value(n: u128)
    ensures
        hex_digits(n as nat, 32).len() == 32,
        hex_number(hex_digits(n as nat, 32)) == n,
{
    lemma_hex(n as nat, 32);
    assert(pow16(32) == 0x1_0000_0000_0000_0000_0000_0000_0000_0000) by {
        reveal_with_fuel(pow16, 33);
    }
}

/// A power of sixteen.
spec fn pow16(k: nat) -> nat
    decreases k,
{
    if k == 0 {
        1
    } else {
        16 * pow16((k - 1) as nat)
    }
}

/// So many digits of base sixteen hold a number below so high a power of sixteen.
proof fn lemma_hex(n: nat, width: nat)
    ensures
        hex_digits(n, width).len() == width,
        n < pow16(width) ==> hex_number(hex_digits(n, width)) == n,
    decreases width,
{
    if width > 0 {
        lemma_hex(n / 16, (width - 1) as nat);
        let s = hex_digits(n, width);
        assert(s.drop_last() =~= hex_digits(n / 16, (width - 1) as nat));
        assert(s.last() == digit((n % 16) as int));
        assert(hex_value(digit((n % 16) as int)) == n % 16);
    }
}

/// A frame is an opcode in digits, two colons and what is behind them. Of one that holds messages that is a
/// character of its own, which has to be an ASCII character, and the message; of any other nothing is taken.
pub proof fn frames_are_read(opcode: u8, behind: Seq<char>)
    ensures
        ({
            let result = framed(decimal(opcode as int) + "::"@ + behind);
            &&& opcode != 5 ==> result is Ok && result->Ok_0 == (opcode, None::<Seq<char>>)
            &&& opcode == 5 && behind.len() > 0 && (behind[0] as u32) < 128 ==> result is Ok
                && result->Ok_0 == (opcode, Some(behind.skip(1)))
            &&& opcode == 5 && (behind.len() == 0 || behind[0] as u32 >= 128) ==> result is Err
                && result->Err_0 == FrameError::NoMessage
        }),
{
    reveal_strlit("::");
    let head = decimal(opcode as int);
    let colons = "::"@;
    let whole = head + colons + behind;
    lemma_decimal_value(opcode as nat);
    assert forall|j: int| 0 <= j < head.len() implies !#[trigger] stands_at(whole, colons, j) by {
        if stands_at(whole, colons, j) {
            assert(whole[j + 0] == colons[0]);
            assert(is_digit(head[j]));
        }
    }
    lemma_split_known(head, colons, behind);
    written_numbers_read_back(opcode as i64);
}

/// A text without two colons is no frame, nor is one without a number before them.
pub proof fn other_texts_are_no_frames(text: Seq<char>)
    ensures
        (forall|j: int| !#[trigger] stands_at(text, "::"@, j)) ==> framed(text) is Err
            && framed(text)->Err_0 == FrameError::NoSeparator,
        split_once(text, "::"@) matches Some((head, _)) ==> byte_number(head) is None ==> framed(
            text,
        ) is Err && framed(text)->Err_0 == FrameError::InvalidOpcode,
{
    if forall|j: int| !#[trigger] stands_at(text, "::"@, j) {
        lemma_unsplit(text, "::"@);
    }
}

} // verus!
