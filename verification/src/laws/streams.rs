//! What holds of a stream that is put together chunk by chunk.
use crate::stream::{keepable, valid_length, with_chunk, BuilderView, StreamError};
use vstd::prelude::*;
use vstd::utf8::{decode_utf8, valid_utf8};

verus! {

/// A chunk can be kept unless more than four bytes are left over behind the text that it brings; one that
/// is refused leaves none.
pub proof fn few_bytes_are_kept(before: BuilderView, chunk: Seq<u8>)
    ensures
        match with_chunk(before, chunk) {
            Ok(after) => keepable(before, chunk) <==> after.rest.len() <= 4,
            Err(error) => keepable(before, chunk) && error == StreamError::InvalidUtf8,
        },
{
    the_longest_text_is_taken(before.rest + chunk);
}

/// What is taken as text from the beginning of bytes is text, and no longer beginning of them is.
pub proof fn the_longest_text_is_taken(bytes: Seq<u8>)
    ensures
        0 <= valid_length(bytes) <= bytes.len(),
        valid_length(bytes) > 0 ==> valid_utf8(bytes.take(valid_length(bytes))),
        forall|n: int|
            valid_length(bytes) < n <= bytes.len() ==> !valid_utf8(#[trigger] bytes.take(n)),
    decreases bytes.len(),
{
    assert(bytes.take(bytes.len() as int) =~= bytes);
    if !valid_utf8(bytes) && bytes.len() > 0 {
        let shorter = bytes.drop_last();
        the_longest_text_is_taken(shorter);
        assert(shorter.take(valid_length(shorter)) =~= bytes.take(valid_length(shorter)));
        assert forall|n: int| valid_length(bytes) < n <= bytes.len() implies !valid_utf8(
            #[trigger] bytes.take(n),
        ) by {
            if n < bytes.len() {
                assert(shorter.take(n) =~= bytes.take(n));
            }
        }
    }
}

/// With a chunk more the text grows, and what was left over before, the chunk, and what is left over after
/// are the same bytes.
pub proof fn texts_grow_by_chunks(before: BuilderView, chunk: Seq<u8>)
    ensures
        with_chunk(before, chunk) matches Ok(after) ==> {
            &&& after.text.len() >= before.text.len()
            &&& after.text.take(before.text.len() as int) == before.text
            &&& after.rest.len() < before.rest.len() + chunk.len()
            &&& after.rest == (before.rest + chunk).skip(
                before.rest.len() + chunk.len() - after.rest.len(),
            )
            &&& after.text.skip(before.text.len() as int) == decode_utf8(
                (before.rest + chunk).take(before.rest.len() + chunk.len() - after.rest.len()),
            )
        },
{
    let bytes = before.rest + chunk;
    the_longest_text_is_taken(bytes);
    if with_chunk(before, chunk) is Ok {
        let after = with_chunk(before, chunk)->Ok_0;
        assert(after.text.take(before.text.len() as int) =~= before.text);
        assert(after.text.skip(before.text.len() as int) =~= decode_utf8(
            bytes.take(valid_length(bytes)),
        ));
    }
}

} // verus!
