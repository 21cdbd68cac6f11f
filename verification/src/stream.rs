//! Text out of a stream of bytes that comes in chunks.
use vstd::prelude::*;
use vstd::slice::{slice_subrange, slice_to_vec};
use vstd::utf8::{
    decode_utf8, decode_utf8_encode_utf8, encode_utf8, encode_utf8_decode_utf8,
    encode_utf8_valid_utf8, length_of_first_scalar, partial_valid_partial_invalid_utf8,
    pop_first_scalar, valid_first_scalar, valid_utf8, valid_utf8_concat,
};

verus! {

/// A vector of at most `N` items that is kept in place.
#[verifier::external_type_specification]
#[verifier::external_body]
#[verifier::reject_recursive_types(T)]
pub struct ExSmallVec<T, const N: usize>(heapless::Vec<T, N>);

/// The bytes that a small vector holds.
pub uninterp spec fn small_bytes(v: heapless::Vec<u8, 4>) -> Seq<u8>;

/// [`heapless::Vec::new`] makes a vector without items.
#[verifier::external_body]
fn small_new() -> (v: heapless::Vec<u8, 4>)
    ensures
        small_bytes(v) == Seq::<u8>::empty(),
{
    heapless::Vec::new()
}

/// [`heapless::Vec::extend_from_slice`] appends bytes where there is room for all of them, and
/// otherwise leaves the vector as it is.
#[verifier::external_body]
fn small_extend(v: &mut heapless::Vec<u8, 4>, bytes: &[u8]) -> (r: Result<(), ()>)
    ensures
        r is Ok <==> small_bytes(*old(v)).len() + bytes@.len() <= 4,
        small_bytes(*final(v)) == (if r is Ok {
            small_bytes(*old(v)) + bytes@
        } else {
            small_bytes(*old(v))
        }),
{
    v.extend_from_slice(bytes)
}

/// [`heapless::Vec::as_slice`] shows the bytes.
#[verifier::external_body]
fn small_slice(v: &heapless::Vec<u8, 4>) -> (r: &[u8])
    ensures
        r@ == small_bytes(*v),
{
    v.as_slice()
}

/// The length of the longest beginning of `bytes` that is text in UTF-8.
pub open spec fn valid_length(bytes: Seq<u8>) -> int
    decreases bytes.len(),
{
    if valid_utf8(bytes) || bytes.len() == 0 {
        bytes.len() as int
    } else {
        valid_length(bytes.drop_last())
    }
}

/// [`std::str::from_utf8`] gives the text that bytes in UTF-8 are, or, as
/// [`std::str::Utf8Error::valid_up_to`], the length of the longest beginning that is text.
#[verifier::external_body]
fn utf8_text(bytes: &[u8]) -> (r: Result<&str, usize>)
    ensures
        match r {
            Ok(text) => valid_utf8(bytes@) && text@ == decode_utf8(bytes@),
            Err(valid) => !valid_utf8(bytes@) && valid == valid_length(bytes@),
        },
{
    std::str::from_utf8(bytes).map_err(|e| e.valid_up_to())
}

/// The longest valid beginning is valid, and no longer one is.
pub proof fn lemma_valid_length(bytes: Seq<u8>)
    ensures
        0 <= valid_length(bytes) <= bytes.len(),
        valid_utf8(bytes.take(valid_length(bytes))),
        forall|n: int|
            valid_length(bytes) < n <= bytes.len() ==> !valid_utf8(#[trigger] bytes.take(n)),
    decreases bytes.len(),
{
    if valid_utf8(bytes) || bytes.len() == 0 {
        assert(bytes.take(bytes.len() as int) =~= bytes);
    } else {
        let shorter = bytes.drop_last();
        lemma_valid_length(shorter);
        assert(shorter.take(valid_length(bytes)) =~= bytes.take(valid_length(bytes)));
        assert forall|n: int| valid_length(bytes) < n <= bytes.len() implies !valid_utf8(
            #[trigger] bytes.take(n),
        ) by {
            if n < bytes.len() {
                assert(shorter.take(n) =~= bytes.take(n));
            } else {
                assert(bytes.take(n) =~= bytes);
            }
        }
    }
}

/// Why a stream is no text.
#[derive(Clone, Copy, Debug, PartialEq, Eq, Structural)]
pub enum StreamError {
    InvalidUtf8,
}

/// Text that is put together from chunks. A character that a chunk ends amid of is kept until the
/// next.
pub struct TextBuilder {
    text: String,
    off_char: Option<heapless::Vec<u8, 4>>,
}

/// The model of [`TextBuilder`]: the text so far, and the bytes that are left over.
pub struct BuilderView {
    pub text: Seq<char>,
    pub rest: Seq<u8>,
}

impl View for TextBuilder {
    type V = BuilderView;

    closed spec fn view(&self) -> BuilderView {
        BuilderView {
            text: self.text@,
            rest: match self.off_char {
                Some(off_char) => small_bytes(off_char),
                None => seq![],
            },
        }
    }
}

/// Whether the bytes that a chunk leaves over are few enough to be kept. Where the bytes do not
/// begin with a character none are kept.
pub open spec fn keepable(before: BuilderView, chunk: Seq<u8>) -> bool {
    let bytes = before.rest + chunk;
    valid_length(bytes) == 0 || bytes.len() - valid_length(bytes) <= 4
}

/// The text with a chunk more. A chunk is refused when the bytes that are there then do not begin
/// with a character.
pub open spec fn with_chunk(before: BuilderView, chunk: Seq<u8>) -> Result<
    BuilderView,
    StreamError,
> {
    let bytes = before.rest + chunk;
    let valid = valid_length(bytes);
    if valid > 0 {
        Ok(
            BuilderView {
                text: before.text + decode_utf8(bytes.take(valid)),
                rest: bytes.skip(valid),
            },
        )
    } else {
        Err(StreamError::InvalidUtf8)
    }
}

impl TextBuilder {
    /// No text.
    pub fn new() -> (r: TextBuilder)
        ensures
            r@ == (BuilderView { text: seq![], rest: seq![] }),
    {
        let r = TextBuilder { text: String::new(), off_char: None };
        assert(r@.text =~= seq![]);
        r
    }

    /// The bytes that are left over, and those of a chunk.
    fn buffer(&self, chunk: &[u8]) -> (r: Vec<u8>)
        ensures
            r@ == self@.rest + chunk@,
    {
        let mut buffer: Vec<u8> = match &self.off_char {
            Some(off_char) => slice_to_vec(small_slice(off_char)),
            None => Vec::new(),
        };
        let ghost rest = buffer@;
        assert(rest =~= self@.rest);
        let mut i: usize = 0;
        while i < chunk.len()
            invariant
                i <= chunk.len(),
                buffer@ == rest + chunk@.take(i as int),
            decreases chunk.len() - i,
        {
            buffer.push(chunk[i]);
            assert(chunk@.take(i + 1) =~= chunk@.take(i as int).push(chunk@[i as int]));
            assert(buffer@ =~= rest + chunk@.take(i + 1));
            i = i + 1;
        }
        assert(chunk@.take(i as int) =~= chunk@);
        buffer
    }

    /// Whether a chunk can be appended, or is refused in the ordinary way.
    pub fn can_append(&self, chunk: &[u8]) -> (r: bool)
        ensures
            r == keepable(self@, chunk@),
    {
        let buffer = self.buffer(chunk);
        proof {
            lemma_valid_length(buffer@);
        }
        match utf8_text(buffer.as_slice()) {
            Ok(_) => true,
            Err(valid) => valid == 0 || buffer.len() - valid <= 4,
        }
    }

    /// Appends a chunk.
    pub fn append(&mut self, chunk: &[u8]) -> (r: Result<(), StreamError>)
        requires
            keepable(old(self)@, chunk@),
        ensures
            match r {
                Ok(()) => with_chunk(old(self)@, chunk@) == Ok::<_, StreamError>(final(self)@),
                Err(error) => {
                    &&& with_chunk(old(self)@, chunk@) == Err::<BuilderView, _>(error)
                    &&& final(self)@ == old(self)@
                },
            },
    {
        let ghost before = self@;
        let buffer = self.buffer(chunk);
        let ghost bytes = buffer@;
        proof {
            lemma_valid_length(bytes);
        }
        let valid: usize = match utf8_text(buffer.as_slice()) {
            Ok(_) => buffer.len(),
            Err(valid) => valid,
        };
        assert(valid == valid_length(bytes));
        if valid == 0 {
            return Err(StreamError::InvalidUtf8);
        }
        let head = slice_subrange(buffer.as_slice(), 0, valid);
        assert(head@ =~= bytes.take(valid as int));
        match utf8_text(head) {
            Ok(text) => {
                self.text.push_str(text);
            },
            Err(_) => {},
        }
        let end: usize = buffer.len();
        let tail = slice_subrange(buffer.as_slice(), valid, end);
        assert(tail@ =~= bytes.skip(valid as int));
        if tail.len() > 0 {
            let mut off_char = small_new();
            let _ = small_extend(&mut off_char, tail);
            assert(small_bytes(off_char) =~= tail@);
            self.off_char = Some(off_char);
        } else {
            self.off_char = None;
            assert(self@.rest =~= tail@);
        }
        Ok(())
    }

    /// The text. What is left over is dropped.
    pub fn finish(self) -> (r: String)
        ensures
            r@ == self@.text,
    {
        self.text
    }
}

/// What is put together from chunks, where none is refused.
pub open spec fn assembled(chunks: Seq<Seq<u8>>) -> Option<BuilderView>
    decreases chunks.len(),
{
    if chunks.len() == 0 {
        Some(BuilderView { text: seq![], rest: seq![] })
    } else {
        match assembled(chunks.drop_last()) {
            Some(before) => match with_chunk(before, chunks.last()) {
                Ok(after) => Some(after),
                Err(_) => None,
            },
            None => None,
        }
    }
}

/// Chunks one behind the other.
pub open spec fn joined_chunks(chunks: Seq<Seq<u8>>) -> Seq<u8>
    decreases chunks.len(),
{
    if chunks.len() == 0 {
        seq![]
    } else {
        joined_chunks(chunks.drop_last()) + chunks.last()
    }
}

/// Nothing is lost: the text in UTF-8 and the bytes that are left over are the bytes that have
/// come, and what is left over does not begin with what could have been taken.
pub proof fn nothing_is_lost(chunks: Seq<Seq<u8>>)
    ensures
        assembled(chunks) matches Some(built) ==> {
            &&& encode_utf8(built.text) + built.rest == joined_chunks(chunks)
            &&& built.rest.len() > 0 ==> !valid_utf8(built.rest)
        },
    decreases chunks.len(),
{
    if chunks.len() == 0 {
        assert(encode_utf8(Seq::<char>::empty()) + Seq::<u8>::empty() =~= joined_chunks(chunks));
    } else if assembled(chunks) is Some {
        nothing_is_lost(chunks.drop_last());
        let before = assembled(chunks.drop_last())->Some_0;
        let after = assembled(chunks)->Some_0;
        let bytes = before.rest + chunks.last();
        let valid = valid_length(bytes);
        let head = bytes.take(valid);
        lemma_valid_length(bytes);
        lemma_encode_concat(before.text, decode_utf8(head));
        decode_utf8_encode_utf8(head);
        assert(bytes =~= head + after.rest);
        assert(encode_utf8(after.text) + after.rest =~= encode_utf8(before.text) + bytes);
        assert(encode_utf8(before.text) + bytes =~= joined_chunks(chunks));
        if after.rest.len() > 0 && valid_utf8(after.rest) {
            valid_utf8_concat(head, after.rest);
            assert(bytes.take(bytes.len() as int) =~= bytes);
        }
    }
}

/// Text one behind the other is, in UTF-8, the bytes of the one behind those of the other.
pub proof fn lemma_encode_concat(a: Seq<char>, b: Seq<char>)
    ensures
        encode_utf8(a + b) == encode_utf8(a) + encode_utf8(b),
    decreases a.len(),
{
    if a.len() == 0 {
        assert(a + b =~= b);
        assert(encode_utf8(a) + encode_utf8(b) =~= encode_utf8(b));
    } else {
        lemma_encode_concat(a.drop_first(), b);
        assert((a + b).drop_first() =~= a.drop_first() + b);
        assert(encode_utf8(a + b) =~= encode_utf8(a) + encode_utf8(b));
    }
}

/// A stream that is text in UTF-8, and of which no chunk is refused, gives that text, however it
/// was cut into chunks.
pub proof fn streams_of_text_give_the_text(chunks: Seq<Seq<u8>>)
    requires
        valid_utf8(joined_chunks(chunks)),
        assembled(chunks) is Some,
    ensures
        assembled(chunks)->Some_0.text == decode_utf8(joined_chunks(chunks)),
        assembled(chunks)->Some_0.rest.len() == 0,
{
    nothing_is_lost(chunks);
    let built = assembled(chunks)->Some_0;
    let all = joined_chunks(chunks);
    let head = encode_utf8(built.text);
    encode_utf8_valid_utf8(built.text);
    encode_utf8_decode_utf8(built.text);
    if built.rest.len() > 0 {
        assert(all.subrange(0, head.len() as int) =~= head);
        assert(all.subrange(head.len() as int, all.len() as int) =~= built.rest);
        partial_valid_partial_invalid_utf8(all, head.len() as int);
    }
    assert(all =~= head);
}

/// The bytes of a valid stream from the end of a valid beginning on are valid.
proof fn lemma_valid_rest(all: Seq<u8>, n: int)
    requires
        0 <= n <= all.len(),
        valid_utf8(all),
        valid_utf8(all.take(n)),
    ensures
        valid_utf8(all.skip(n)),
{
    if !valid_utf8(all.skip(n)) {
        assert(all.subrange(0, n) =~= all.take(n));
        assert(all.subrange(n, all.len() as int) =~= all.skip(n));
        partial_valid_partial_invalid_utf8(all, n);
    }
}

/// A beginning of a valid stream that holds its first character has a valid beginning.
proof fn lemma_first_character(all: Seq<u8>, n: int)
    requires
        valid_utf8(all),
        0 < all.len(),
        length_of_first_scalar(all) <= n <= all.len(),
    ensures
        1 <= length_of_first_scalar(all) <= 4,
        valid_utf8(all.take(length_of_first_scalar(all))),
{
    let len = length_of_first_scalar(all);
    let first = all.take(len);
    assert(valid_first_scalar(all));
    assert(valid_first_scalar(first));
    assert(pop_first_scalar(first) =~= Seq::<u8>::empty());
    reveal_with_fuel(valid_utf8, 2);
}

/// Of a beginning of a valid stream at most three bytes are left over, and it is refused only
/// where it does not hold the first character.
proof fn lemma_beginnings(all: Seq<u8>, n: int)
    requires
        valid_utf8(all),
        0 <= n <= all.len(),
    ensures
        n - valid_length(all.take(n)) <= 3,
        n >= 4 || n == all.len() > 0 ==> valid_length(all.take(n)) > 0,
{
    let bytes = all.take(n);
    let valid = valid_length(bytes);
    lemma_valid_length(bytes);
    assert(bytes.take(valid) =~= all.take(valid));
    lemma_valid_rest(all, valid);
    let rest = all.skip(valid);
    if rest.len() > 0 {
        let len = length_of_first_scalar(rest);
        lemma_first_character(rest, rest.len() as int);
        if valid + len <= n {
            valid_utf8_concat(all.take(valid), rest.take(len));
            assert(all.take(valid) + rest.take(len) =~= bytes.take(valid + len));
        }
    }
}

/// A stream that is text in UTF-8 is taken, whatever its chunks are, as long as each but the last
/// has at least four bytes and none is empty; and never is more left over than can be kept.
pub proof fn streams_of_text_are_taken(chunks: Seq<Seq<u8>>, n: int)
    requires
        valid_utf8(joined_chunks(chunks)),
        0 <= n <= chunks.len(),
        forall|i: int| 0 <= i < chunks.len() ==> (#[trigger] chunks[i]).len() > 0,
        forall|i: int| 0 <= i < chunks.len() - 1 ==> (#[trigger] chunks[i]).len() >= 4,
    ensures
        assembled(chunks.take(n)) is Some,
        n < chunks.len() ==> keepable(assembled(chunks.take(n))->Some_0, chunks[n]),
    decreases n,
{
    let all = joined_chunks(chunks);
    if n == 0 {
        assert(chunks.take(0) =~= seq![]);
        assert(assembled(chunks.take(0)) == Some(BuilderView { text: seq![], rest: seq![] }));
    } else {
        streams_of_text_are_taken(chunks, n - 1);
        let before = assembled(chunks.take(n - 1))->Some_0;
        assert(chunks.take(n).drop_last() =~= chunks.take(n - 1));
        lemma_step(chunks, n - 1);
        assert(chunks.take(n).last() == chunks[n - 1]);
    }
    if n < chunks.len() {
        lemma_step(chunks, n);
    }
}

/// What a chunk of a valid stream makes of what was put together before.
proof fn lemma_step(chunks: Seq<Seq<u8>>, n: int)
    requires
        valid_utf8(joined_chunks(chunks)),
        0 <= n < chunks.len(),
        forall|i: int| 0 <= i < chunks.len() ==> (#[trigger] chunks[i]).len() > 0,
        forall|i: int| 0 <= i < chunks.len() - 1 ==> (#[trigger] chunks[i]).len() >= 4,
        assembled(chunks.take(n)) is Some,
    ensures
        with_chunk(assembled(chunks.take(n))->Some_0, chunks[n]) is Ok,
        keepable(assembled(chunks.take(n))->Some_0, chunks[n]),
{
    let all = joined_chunks(chunks);
    let before = assembled(chunks.take(n))->Some_0;
    let bytes = before.rest + chunks[n];
    let head = encode_utf8(before.text);
    nothing_is_lost(chunks.take(n));
    encode_utf8_valid_utf8(before.text);
    lemma_joined_prefix(chunks, n);
    lemma_joined_prefix(chunks, n + 1);
    assert(chunks.take(n + 1).drop_last() =~= chunks.take(n));
    assert(joined_chunks(chunks.take(n + 1)) =~= head + bytes);
    assert(all.take(head.len() as int) =~= head);
    lemma_valid_rest(all, head.len() as int);
    let rest = all.skip(head.len() as int);
    let part = head + bytes;
    assert(all.take(part.len() as int) == part);
    assert forall|i: int| 0 <= i < bytes.len() implies rest[i] == bytes[i] by {
        assert(all.take(part.len() as int)[head.len() + i] == part[head.len() + i]);
    }
    assert(rest.take(bytes.len() as int) =~= bytes);
    if n + 1 == chunks.len() {
        assert(chunks.take(n + 1) =~= chunks);
    }
    lemma_beginnings(rest, bytes.len() as int);
}

/// The first chunks are a beginning of all.
proof fn lemma_joined_prefix(chunks: Seq<Seq<u8>>, n: int)
    requires
        0 <= n <= chunks.len(),
    ensures
        joined_chunks(chunks.take(n)).len() <= joined_chunks(chunks).len(),
        joined_chunks(chunks).take(joined_chunks(chunks.take(n)).len() as int) == joined_chunks(
            chunks.take(n),
        ),
    decreases chunks.len(),
{
    if n == chunks.len() {
        assert(chunks.take(n) =~= chunks);
        assert(joined_chunks(chunks).take(joined_chunks(chunks).len() as int) =~= joined_chunks(
            chunks,
        ));
    } else {
        lemma_joined_prefix(chunks.drop_last(), n);
        assert(chunks.drop_last().take(n) =~= chunks.take(n));
        let part = joined_chunks(chunks.take(n));
        assert(joined_chunks(chunks).take(part.len() as int) =~= joined_chunks(
            chunks.drop_last(),
        ).take(part.len() as int));
    }
}

} // verus!
