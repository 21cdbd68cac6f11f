//! Text: searching, splitting, replacing and trimming, stated over sequences of characters.
use vstd::prelude::*;

verus! {

/// [`String::push`] appends one character.
pub assume_specification[ String::push ](s: &mut String, c: char)
    ensures
        final(s)@ == old(s)@.push(c),
;

/// [`String::push_str`] appends a piece of text.
pub assume_specification[ String::push_str ](s: &mut String, piece: &str)
    ensures
        final(s)@ == old(s)@ + piece@,
;

/// Whether `pattern` stands in `s` at position `at`.
pub open spec fn occurs_at(s: Seq<char>, pattern: Seq<char>, at: int) -> bool {
    &&& 0 <= at
    &&& at + pattern.len() <= s.len()
    &&& s.subrange(at, at + pattern.len()) == pattern
}

/// The first position from `from` on at which `pattern` stands in `s`.
pub open spec fn find_from(s: Seq<char>, pattern: Seq<char>, from: int) -> Option<int>
    decreases s.len() - from + 1,
{
    if from < 0 || from + pattern.len() > s.len() {
        None
    } else if occurs_at(s, pattern, from) {
        Some(from)
    } else {
        find_from(s, pattern, from + 1)
    }
}

/// What stands before the first `pattern` in `s`, and what stands behind it.
pub open spec fn split_once(s: Seq<char>, pattern: Seq<char>) -> Option<(Seq<char>, Seq<char>)> {
    match find_from(s, pattern, 0) {
        Some(at) => Some((s.take(at), s.skip(at + pattern.len()))),
        None => None,
    }
}

/// The pieces of `s` between the places where `pattern` stands.
pub open spec fn split(s: Seq<char>, pattern: Seq<char>) -> Seq<Seq<char>>
    decreases s.len(),
{
    match split_once(s, pattern) {
        Some((head, tail)) => if tail.len() < s.len() {
            seq![head] + split(tail, pattern)
        } else {
            seq![s]
        },
        None => seq![s],
    }
}

/// `s` with each `pattern`, read from the left, exchanged for `by`.
pub open spec fn replace(s: Seq<char>, pattern: Seq<char>, by: Seq<char>) -> Seq<char>
    decreases s.len(),
{
    if s.len() == 0 || pattern.len() == 0 {
        s
    } else if occurs_at(s, pattern, 0) {
        by + replace(s.skip(pattern.len() as int), pattern, by)
    } else {
        seq![s[0]] + replace(s.skip(1), pattern, by)
    }
}

/// Whether `s` begins with `prefix`.
pub open spec fn starts_with(s: Seq<char>, prefix: Seq<char>) -> bool {
    occurs_at(s, prefix, 0)
}

/// `s` without the characters of `drop` at its start.
pub open spec fn trim_start(s: Seq<char>, drop: spec_fn(char) -> bool) -> Seq<char>
    decreases s.len(),
{
    if s.len() > 0 && drop(s[0]) {
        trim_start(s.skip(1), drop)
    } else {
        s
    }
}

/// `s` without the characters of `drop` at its end.
pub open spec fn trim_end(s: Seq<char>, drop: spec_fn(char) -> bool) -> Seq<char>
    decreases s.len(),
{
    if s.len() > 0 && drop(s.last()) {
        trim_end(s.drop_last(), drop)
    } else {
        s
    }
}

/// `s` without the characters of `drop` at both ends.
pub open spec fn trim(s: Seq<char>, drop: spec_fn(char) -> bool) -> Seq<char> {
    trim_end(trim_start(s, drop), drop)
}

/// `s` with spaces before it up to `width` characters.
pub open spec fn pad_start(s: Seq<char>, width: int) -> Seq<char> {
    if s.len() < width {
        Seq::new((width - s.len()) as nat, |i: int| ' ') + s
    } else {
        s
    }
}

/// `pieces` one after another, with `between` between each two.
pub open spec fn join(pieces: Seq<Seq<char>>, between: Seq<char>) -> Seq<char>
    decreases pieces.len(),
{
    if pieces.len() == 0 {
        Seq::empty()
    } else if pieces.len() == 1 {
        pieces[0]
    } else {
        join(pieces.drop_last(), between) + between + pieces.last()
    }
}

/// The text of each string.
pub open spec fn texts(strings: Seq<String>) -> Seq<Seq<char>> {
    strings.map_values(|s: String| s@)
}

/// The text of a string that may be missing.
pub open spec fn opt_text(s: Option<String>) -> Option<Seq<char>> {
    match s {
        Some(t) => Some(t@),
        None => None,
    }
}

/// The characters of `s`.
pub fn chars_of(s: &str) -> (r: Vec<char>)
    ensures
        r@ == s@,
{
    let mut r: Vec<char> = Vec::new();
    for c in it: s.chars()
        invariant
            r@ == it.seq().take(it.index() as int),
            it.seq() == s@,
    {
        r.push(c);
    }
    r
}

/// The text of `chars` from `from` up to `to`.
pub fn text_of(chars: &Vec<char>, from: usize, to: usize) -> (r: String)
    requires
        from <= to <= chars.len(),
    ensures
        r@ == chars@.subrange(from as int, to as int),
{
    let mut r = String::new();
    let mut i: usize = from;
    while i < to
        invariant
            from <= i <= to <= chars.len(),
            r@ == chars@.subrange(from as int, i as int),
        decreases to - i,
    {
        r.push(chars[i]);
        i = i + 1;
    }
    r
}

/// Whether two texts are the same.
pub fn same_text(a: &str, b: &str) -> (r: bool)
    ensures
        r == (a@ == b@),
{
    a.to_owned() == b.to_owned()
}

/// The texts one behind the other.
pub fn concat2(a: &str, b: &str) -> (r: String)
    ensures
        r@ == a@ + b@,
{
    let mut r = a.to_owned();
    r.push_str(b);
    r
}

/// The texts one behind the other.
pub fn concat3(a: &str, b: &str, c: &str) -> (r: String)
    ensures
        r@ == a@ + b@ + c@,
{
    let mut r = a.to_owned();
    r.push_str(b);
    r.push_str(c);
    r
}

/// Whether `pattern` stands in `s` at position `at`.
fn matches_at(s: &Vec<char>, pattern: &Vec<char>, at: usize) -> (r: bool)
    requires
        at <= s.len(),
    ensures
        r == occurs_at(s@, pattern@, at as int),
{
    if pattern.len() > s.len() - at {
        return false;
    }
    let mut i: usize = 0;
    while i < pattern.len()
        invariant
            i <= pattern.len(),
            at + pattern.len() <= s.len(),
            forall|j: int| 0 <= j < i ==> s@[at + j] == pattern@[j],
        decreases pattern.len() - i,
    {
        if s[at + i] != pattern[i] {
            assert(s@.subrange(at as int, at + pattern.len())[i as int] != pattern@[i as int]);
            return false;
        }
        i = i + 1;
    }
    assert(s@.subrange(at as int, at + pattern.len()) =~= pattern@);
    true
}

/// The first position from `from` on at which `pattern` stands in `s`.
pub fn find(s: &Vec<char>, pattern: &Vec<char>, from: usize) -> (r: Option<usize>)
    requires
        from <= s.len(),
    ensures
        match r {
            Some(at) => find_from(s@, pattern@, from as int) == Some(at as int),
            None => find_from(s@, pattern@, from as int) is None,
        },
        r matches Some(at) ==> from <= at && at + pattern.len() <= s.len(),
{
    let mut i: usize = from;
    while i <= s.len() && pattern.len() <= s.len() - i
        invariant
            from <= i <= s.len() + 1,
            i <= usize::MAX,
            find_from(s@, pattern@, from as int) == find_from(s@, pattern@, i as int),
        decreases s.len() + 1 - i,
    {
        if matches_at(s, pattern, i) {
            return Some(i);
        }
        if i == s.len() {
            assert(find_from(s@, pattern@, i + 1) is None);
            return None;
        }
        i = i + 1;
    }
    None
}

/// What stands before the first `pattern` in `s`, and what stands behind it.
pub fn cut(s: &str, pattern: &str) -> (r: Option<(String, String)>)
    ensures
        match r {
            Some((head, tail)) => split_once(s@, pattern@) == Some((head@, tail@)),
            None => split_once(s@, pattern@) is None,
        },
{
    let chars = chars_of(s);
    let wanted = chars_of(pattern);
    match find(&chars, &wanted, 0) {
        Some(at) => {
            let head = text_of(&chars, 0, at);
            let tail = text_of(&chars, at + wanted.len(), chars.len());
            assert(head@ =~= s@.take(at as int));
            assert(tail@ =~= s@.skip(at + wanted.len()));
            Some((head, tail))
        },
        None => None,
    }
}

/// The first match found is at or behind the place where the search began.
pub proof fn lemma_find_from_bounds(s: Seq<char>, pattern: Seq<char>, from: int)
    requires
        0 <= from,
    ensures
        find_from(s, pattern, from) matches Some(at) ==> from <= at && occurs_at(s, pattern, at),
    decreases s.len() - from + 1,
{
    if from + pattern.len() <= s.len() && !occurs_at(s, pattern, from) {
        lemma_find_from_bounds(s, pattern, from + 1);
    }
}

/// The pieces of `s` between the places where `pattern` stands.
pub fn pieces(s: &str, pattern: &str) -> (r: Vec<String>)
    requires
        pattern@.len() > 0,
    ensures
        texts(r@) == split(s@, pattern@),
{
    let mut r: Vec<String> = Vec::new();
    let mut rest = s.to_owned();
    loop
        invariant
            pattern@.len() > 0,
            texts(r@) + split(rest@, pattern@) == split(s@, pattern@),
        decreases rest@.len(),
    {
        let ghost before = r@;
        proof {
            lemma_find_from_bounds(rest@, pattern@, 0);
        }
        match cut(rest.as_str(), pattern) {
            Some((head, tail)) => {
                let ghost whole = rest@;
                r.push(head);
                rest = tail;
                assert(rest@.len() < whole.len());
                assert(texts(r@) =~= texts(before).push(head@));
                assert(texts(before) + (seq![head@] + split(rest@, pattern@)) =~= texts(r@) + split(
                    rest@,
                    pattern@,
                ));
            },
            None => {
                let ghost last = rest@;
                r.push(rest);
                assert(texts(r@) =~= texts(before) + seq![last]);
                return r;
            },
        }
    }
}

/// Whether `s` begins with `prefix`.
pub fn has_prefix(s: &str, prefix: &str) -> (r: bool)
    ensures
        r == starts_with(s@, prefix@),
{
    matches_at(&chars_of(s), &chars_of(prefix), 0)
}

/// `s` with each `pattern`, read from the left, exchanged for `by`.
pub fn replace_all(s: &str, pattern: &str, by: &str) -> (r: String)
    ensures
        pattern@.len() > 0 ==> r@ == replace(s@, pattern@, by@),
        pattern@.len() == 0 ==> r@ == s@,
{
    let chars = chars_of(s);
    let wanted = chars_of(pattern);
    if wanted.len() == 0 {
        return s.to_owned();
    }
    let mut r = String::new();
    let mut i: usize = 0;
    assert(s@.skip(0) =~= s@);
    while i < chars.len()
        invariant
            i <= chars.len(),
            chars@ == s@,
            wanted@ == pattern@,
            wanted.len() > 0,
            r@ + replace(s@.skip(i as int), pattern@, by@) == replace(s@, pattern@, by@),
        decreases chars.len() - i,
    {
        let ghost rest = s@.skip(i as int);
        let ghost done = r@;
        if matches_at(&chars, &wanted, i) {
            r.push_str(by);
            assert(rest.subrange(0, pattern@.len() as int) =~= s@.subrange(
                i as int,
                i + pattern@.len(),
            ));
            assert(rest.skip(pattern@.len() as int) =~= s@.skip(i + pattern@.len()));
            assert((done + by@) + replace(s@.skip(i + pattern@.len()), pattern@, by@) =~= done + (
            by@ + replace(s@.skip(i + pattern@.len()), pattern@, by@)));
            i = i + wanted.len();
        } else {
            r.push(chars[i]);
            proof {
                if occurs_at(rest, pattern@, 0) {
                    assert(rest.subrange(0, pattern@.len() as int) =~= s@.subrange(
                        i as int,
                        i + pattern@.len(),
                    ));
                }
            }
            assert(rest.skip(1) =~= s@.skip(i + 1));
            assert(done.push(s@[i as int]) + replace(s@.skip(i + 1), pattern@, by@) =~= done + (seq![
                s@[i as int],
            ] + replace(s@.skip(i + 1), pattern@, by@)));
            i = i + 1;
        }
    }
    assert(s@.skip(i as int) =~= Seq::empty());
    assert(r@ + Seq::<char>::empty() =~= r@);
    r
}

/// Whether `c` is a blank: a character with the property `White_Space` of Unicode.
pub open spec fn is_blank(c: char) -> bool {
    let code = c as u32;
    ||| 0x09 <= code <= 0x0D
    ||| code == 0x20
    ||| code == 0x85
    ||| code == 0xA0
    ||| code == 0x1680
    ||| 0x2000 <= code <= 0x200A
    ||| code == 0x2028
    ||| code == 0x2029
    ||| code == 0x202F
    ||| code == 0x205F
    ||| code == 0x3000
}

/// Whether `c` is a blank.
fn blank(c: char) -> (r: bool)
    ensures
        r == is_blank(c),
{
    let code: u32 = c as u32;
    (0x09 <= code && code <= 0x0D) || code == 0x20 || code == 0x85 || code == 0xA0 || code == 0x1680
        || (0x2000 <= code && code <= 0x200A) || code == 0x2028 || code == 0x2029 || code == 0x202F
        || code == 0x205F || code == 0x3000
}

/// `s` without blanks at both ends.
pub fn trim_blanks(s: &str) -> (r: String)
    ensures
        r@ == trim(s@, |c: char| is_blank(c)),
{
    let chars = chars_of(s);
    let ghost drop = |c: char| is_blank(c);
    let mut from: usize = 0;
    assert(s@.skip(0) =~= s@);
    while from < chars.len() && blank(chars[from])
        invariant
            from <= chars.len(),
            chars@ == s@,
            drop == |c: char| is_blank(c),
            trim_start(s@, drop) == trim_start(s@.skip(from as int), drop),
        decreases chars.len() - from,
    {
        assert(s@.skip(from as int).skip(1) =~= s@.skip(from + 1));
        from = from + 1;
    }
    let ghost head = trim_start(s@, drop);
    assert(head == s@.skip(from as int));
    let mut to: usize = chars.len();
    assert(head =~= s@.subrange(from as int, to as int));
    while from < to && blank(chars[to - 1])
        invariant
            from <= to <= chars.len(),
            chars@ == s@,
            drop == |c: char| is_blank(c),
            trim_end(head, drop) == trim_end(s@.subrange(from as int, to as int), drop),
        decreases to - from,
    {
        assert(s@.subrange(from as int, to as int).drop_last() =~= s@.subrange(
            from as int,
            to - 1,
        ));
        to = to - 1;
    }
    text_of(&chars, from, to)
}

/// `s` without the character `c` at both ends.
pub fn trim_char(s: &str, c: char) -> (r: String)
    ensures
        r@ == trim(s@, |d: char| d == c),
{
    let chars = chars_of(s);
    let ghost drop = |d: char| d == c;
    let mut from: usize = 0;
    assert(s@.skip(0) =~= s@);
    while from < chars.len() && chars[from] == c
        invariant
            from <= chars.len(),
            chars@ == s@,
            drop == |d: char| d == c,
            trim_start(s@, drop) == trim_start(s@.skip(from as int), drop),
        decreases chars.len() - from,
    {
        assert(s@.skip(from as int).skip(1) =~= s@.skip(from + 1));
        from = from + 1;
    }
    let ghost head = trim_start(s@, drop);
    assert(head == s@.skip(from as int));
    let mut to: usize = chars.len();
    assert(head =~= s@.subrange(from as int, to as int));
    while from < to && chars[to - 1] == c
        invariant
            from <= to <= chars.len(),
            chars@ == s@,
            drop == |d: char| d == c,
            trim_end(head, drop) == trim_end(s@.subrange(from as int, to as int), drop),
        decreases to - from,
    {
        assert(s@.subrange(from as int, to as int).drop_last() =~= s@.subrange(
            from as int,
            to - 1,
        ));
        to = to - 1;
    }
    text_of(&chars, from, to)
}

/// `s` with spaces before it up to `width` characters.
pub fn right_aligned(s: &str, width: usize) -> (r: String)
    ensures
        r@ == pad_start(s@, width as int),
{
    let len: usize = s.unicode_len();
    let mut r = String::new();
    let mut missing: usize = if len < width {
        width - len
    } else {
        0
    };
    let ghost total = missing as nat;
    while missing > 0
        invariant
            missing <= total,
            r@ =~= Seq::new((total - missing) as nat, |i: int| ' '),
        decreases missing,
    {
        r.push(' ');
        missing = missing - 1;
    }
    r.push_str(s);
    assert(s@.len() >= width ==> r@ =~= s@);
    r
}

/// `list` one after another, with `between` between each two.
pub fn joined(list: &Vec<String>, between: &str) -> (r: String)
    ensures
        r@ == join(texts(list@), between@),
{
    let mut r = String::new();
    let mut i: usize = 0;
    let ghost all = texts(list@);
    while i < list.len()
        invariant
            i <= list.len(),
            all == texts(list@),
            r@ == join(all.take(i as int), between@),
        decreases list.len() - i,
    {
        assert(all.take(i + 1).drop_last() =~= all.take(i as int));
        if i > 0 {
            r.push_str(between);
        }
        r.push_str(list[i].as_str());
        i = i + 1;
        assert(r@ =~= join(all.take(i as int), between@));
    }
    assert(all.take(i as int) =~= all);
    r
}

} // verus!
