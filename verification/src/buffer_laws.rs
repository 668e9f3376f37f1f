//! What holds of buffers over several operations.
use crate::buffer::{Buffer, Builder, K_CHEAP_PREPEND_SIZE, K_INITIAL_SIZE};
use crate::endian::{ByteArray, Endian, EndianRead, EndianWrite};
use vstd::prelude::*;
use vstd::utf8::*;

verus! {

impl Buffer {
    /// The size of the storage.
    pub open spec fn storage(&self) -> nat {
        self.prependable() + self@.len() + self.writable()
    }
}

/// Bytes come out in the order in which they went in: once the earlier content has
/// been read, what was appended is next, and it is all there is.
pub proof fn law_first_in_first_out(pre: &Buffer, bytes: Seq<u8>, mid: &Buffer, post: &Buffer)
    requires
        pre.appended(bytes, mid),
        mid.retrieved(pre@.len() as int, post),
    ensures
        mid@.take(pre@.len() as int) == pre@,
        post@ == bytes,
{
    assert(mid@.take(pre@.len() as int) =~= pre@);
    assert(post@ =~= bytes);
}

/// Reading in two steps is reading once: the same bytes come out, and the buffer is left
/// with the same content and the same room before and after it.
pub proof fn law_reads_compose(pre: &Buffer, m: int, mid: &Buffer, n: int, post: &Buffer)
    requires
        0 <= m,
        0 <= n,
        m + n <= pre@.len(),
        pre.retrieved(m, mid),
        mid.retrieved(n, post),
    ensures
        pre.retrieved(m + n, post),
        pre@.take(m + n) == pre@.take(m) + mid@.take(n),
{
    assert(post@ =~= pre@.skip(m + n));
    assert(pre@.take(m + n) =~= pre@.take(m) + mid@.take(n));
}

/// A buffer that has been read to its end is back at its start, whatever was written and
/// read before: nothing is left of its content, in front is the room for prepending, and
/// all the rest of the storage can be written. So where the storage has not grown, it is
/// like a fresh one.
pub proof fn law_emptied_is_back_at_start(pre: &Buffer, size: int, post: &Buffer)
    requires
        pre.wf(),
        post.wf(),
        size == pre@.len(),
        pre.retrieved(size, post),
    ensures
        post@ == Seq::<u8>::empty(),
        post.prependable() == K_CHEAP_PREPEND_SIZE,
        post.writable() == pre.storage() - K_CHEAP_PREPEND_SIZE,
        pre.storage() == K_CHEAP_PREPEND_SIZE + K_INITIAL_SIZE ==> post.is_fresh(),
{
    pre.law_room_kept();
}

/// Appending in two steps gives the content of appending once.
pub proof fn law_appends_compose(pre: &Buffer, a: Seq<u8>, mid: &Buffer, b: Seq<u8>, post: &Buffer)
    requires
        pre.appended(a, mid),
        mid.appended(b, post),
    ensures
        post@ == pre@ + (a + b),
{
    assert(post@ =~= pre@ + (a + b));
}

/// What was prepended is read first, and reading it undoes the prepending. (A buffer
/// that was empty starts afresh.)
pub proof fn law_read_undoes_prepend(pre: &Buffer, bytes: Seq<u8>, mid: &Buffer, post: &Buffer)
    requires
        bytes.len() <= pre.prependable(),
        pre.prepended(bytes, mid),
        mid.retrieved(bytes.len() as int, post),
    ensures
        mid@.take(bytes.len() as int) == bytes,
        post@ == pre@,
        pre@.len() > 0 ==> post.prependable() == pre.prependable() && post.writable() == pre.writable(),
{
    assert(mid@.take(bytes.len() as int) =~= bytes);
    assert(post@ =~= pre@);
}

/// A value that was appended is read back, once the earlier content has been read.
pub proof fn law_read_gives_back_appended<T: Endian>(pre: &Buffer, val: T, mid: &Buffer, post: &Buffer)
    requires
        pre.appended(val.encoding(), mid),
        mid.retrieved(pre@.len() as int, post),
    ensures
        <T as EndianRead>::Array::width() <= post@.len(),
        T::decoding(post@.take(<T as EndianRead>::Array::width() as int)) == val,
{
    law_first_in_first_out(pre, val.encoding(), mid, post);
    val.law_round_trip();
    assert(post@.take(<T as EndianRead>::Array::width() as int) =~= val.encoding());
}

/// A value that was prepended is read back at once.
pub proof fn law_peek_gives_back_prepended<T: Endian>(pre: &Buffer, val: T, mid: &Buffer)
    requires
        pre.prepended(val.encoding(), mid),
    ensures
        <T as EndianRead>::Array::width() <= mid@.len(),
        T::decoding(mid@.take(<T as EndianRead>::Array::width() as int)) == val,
{
    val.law_round_trip();
    assert(mid@.take(<T as EndianRead>::Array::width() as int) =~= val.encoding());
}

/// Text that was appended is read back, once the earlier content has been read.
pub proof fn law_read_gives_back_text(pre: &Buffer, text: Seq<char>, mid: &Buffer, post: &Buffer)
    requires
        pre.appended(encode_utf8(text), mid),
        mid.retrieved(pre@.len() as int, post),
    ensures
        valid_utf8(post@),
        decode_utf8(post@) == text,
{
    law_first_in_first_out(pre, encode_utf8(text), mid, post);
    encode_utf8_valid_utf8(text);
    encode_utf8_decode_utf8(text);
}

/// Reading and prepending leave the storage as large as it was.
pub proof fn law_storage_kept(pre: &Buffer, size: int, bytes: Seq<u8>, read: &Buffer, prepended: &Buffer)
    requires
        0 <= size <= pre@.len(),
        bytes.len() <= pre.prependable(),
        pre.wf(),
        pre.retrieved(size, read),
        pre.prepended(bytes, prepended),
    ensures
        read.storage() == pre.storage(),
        prepended.storage() == pre.storage(),
{
    pre.law_room_kept();
}

/// Appending grows the storage only if the spare room is not enough, and then to
/// no more than the content and the room before it need.
pub proof fn law_storage_grows_if_it_must(pre: &Buffer, bytes: Seq<u8>, post: &Buffer)
    requires
        pre.appended(bytes, post),
    ensures
        post.storage() == if pre.must_grow(bytes.len() as int) {
            pre.prependable() + pre@.len() + bytes.len()
        } else {
            pre.storage()
        },
        pre.storage() <= post.storage(),
{
}

/// What is shown, read as a value or read as text after the earlier content has been read is
/// what was appended: the same bytes, the same value, the same text.
pub proof fn law_shown_as_appended<T: Endian>(
    pre: &Buffer,
    bytes: Seq<u8>,
    val: T,
    text: Seq<char>,
    mid: &Buffer,
    post: &Buffer,
    shown: Seq<u8>,
    value: T,
    said: Seq<char>,
)
    requires
        pre.appended(bytes, mid),
        mid.retrieved(pre@.len() as int, post),
        post.shows(shown),
        post.spells(value),
        post.says(post@.len() as int, said),
    ensures
        shown == bytes,
        bytes == val.encoding() ==> value == val,
        bytes == encode_utf8(text) ==> said == text,
{
    law_first_in_first_out(pre, bytes, mid, post);
    val.law_round_trip();
    encode_utf8_valid_utf8(text);
    encode_utf8_decode_utf8(text);
    assert(post@.take(post@.len() as int) =~= post@);
}

/// What was prepended is shown first, and a value that was prepended is read at once.
pub proof fn law_shown_as_prepended<T: Endian>(
    pre: &Buffer,
    val: T,
    post: &Buffer,
    shown: Seq<u8>,
    value: T,
)
    requires
        pre.prepended(val.encoding(), post),
        post.shows(shown),
        post.spells(value),
    ensures
        shown == val.encoding() + pre@,
        value == val,
{
    law_peek_gives_back_prepended(pre, val, post);
}

/// Text is read from just the bytes that were asked for.
pub proof fn law_text_of_first_bytes(buf: &Buffer, text: Seq<char>, rest: Seq<u8>, said: Seq<char>)
    requires
        buf@ == encode_utf8(text) + rest,
        buf.says(encode_utf8(text).len() as int, said),
    ensures
        said == text,
{
    encode_utf8_valid_utf8(text);
    encode_utf8_decode_utf8(text);
    assert(buf@.take(encode_utf8(text).len() as int) =~= encode_utf8(text));
}

/// What a read came to is handed on; the bytes that it read, and no others, stand behind the
/// content, and a read that failed changes nothing.
pub proof fn law_took_in<E>(
    pre: &Buffer,
    buf: Seq<u8>,
    outcome: Result<usize, E>,
    r: Result<usize, E>,
    post: &Buffer,
)
    requires
        outcome matches Ok(n) ==> n <= buf.len(),
        pre.took_in(buf, outcome, r, post),
    ensures
        r == outcome,
        outcome matches Ok(n) ==> post@ == pre@ + buf.subrange(0, n as int),
        outcome is Err ==> *post == *pre,
{
    if let Ok(n) = outcome {
        assert(buf.take(n as int) =~= buf.subrange(0, n as int));
    }
}

/// Appending uses the room behind the content if that is enough, and leaves the content
/// where it is then. If it is not, but all the spare room is but for the room that a fresh
/// buffer has in front, the content moves to the front of the storage, which stays as
/// large as it is. Only otherwise does the storage grow, by just what is missing.
pub proof fn law_append_room(pre: &Buffer, bytes: Seq<u8>, post: &Buffer)
    requires
        pre.appended(bytes, post),
    ensures
        ({
            let len = bytes.len() as int;
            let spare = pre.prependable() + pre.writable() - K_CHEAP_PREPEND_SIZE;
            if len <= pre.writable() {
                post.prependable() == pre.prependable() && post.writable() + len == pre.writable()
            } else if len <= spare {
                post.prependable() == K_CHEAP_PREPEND_SIZE && post.writable() + len == spare
            } else {
                post.prependable() == pre.prependable() && post.writable() == 0
            }
        }),
{
}

/// Bytes can be appended if they fit behind the content, or if the storage can grow by them.
pub proof fn law_room(buf: &Buffer, len: int)
    requires
        len >= 0,
    ensures
        len <= buf.writable() ==> buf.has_room_for(len),
        buf.prependable() + buf@.len() + len <= isize::MAX ==> buf.has_room_for(len),
        len > buf.prependable() + buf.writable() && buf.prependable() + buf@.len() + len > isize::MAX
            ==> !buf.has_room_for(len),
{
}

/// Prepending takes up the room in front of the content and no other.
pub proof fn law_prepend_room(pre: &Buffer, bytes: Seq<u8>, post: &Buffer)
    requires
        bytes.len() <= pre.prependable(),
        pre.prepended(bytes, post),
    ensures
        post@ == bytes + pre@,
        post.prependable() + bytes.len() == pre.prependable(),
        post.writable() == pre.writable(),
{
}

/// Reading leaves what was not read, and gives its room to the front; dropping the content
/// is reading all of it.
pub proof fn law_read_room(pre: &Buffer, size: int, post: &Buffer)
    requires
        0 <= size <= pre@.len(),
        pre.retrieved(size, post),
    ensures
        post@ == pre@.skip(size),
        size < pre@.len() ==> post.prependable() == pre.prependable() + size && post.writable() == pre.writable(),
        size == pre@.len() ==> post.cleared_from(pre),
        forall|cleared: &Buffer| #[trigger] cleared.cleared_from(pre) ==> pre.retrieved(pre@.len() as int, cleared),
{
    assert forall|cleared: &Buffer| #[trigger] cleared.cleared_from(pre) implies pre.retrieved(
        pre@.len() as int,
        cleared,
    ) by {
        assert(pre@.skip(pre@.len() as int) =~= Seq::<u8>::empty());
    }
}

/// A fresh buffer is empty, with room for 1024 bytes and 8 more in front; one that was built
/// has the room that was asked for.
pub proof fn law_fresh_buffer(fresh: &Buffer, builder: &Builder, built: &Buffer, size: usize)
    requires
        fresh.is_fresh(),
        builder.asks_for(size),
        built.is_built(builder.initial_size()),
    ensures
        fresh@.len() == 0,
        fresh.prependable() == 8,
        fresh.writable() == 1024,
        built@.len() == 0,
        built.prependable() == 8,
        built.writable() == size,
{
}

} // verus!
