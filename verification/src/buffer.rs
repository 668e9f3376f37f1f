//! A byte buffer that is written at its end and read at its front, with some
//! room before the front to prepend to.
use crate::endian::{ByteArray, EndianRead, EndianWrite};
use vstd::prelude::*;
use vstd::slice::slice_subrange;
use vstd::utf8::*;

verus! {

/// The room that a fresh buffer leaves before its front.
pub const K_CHEAP_PREPEND_SIZE: usize = 8;

/// The room for content that a buffer has if no size is asked for.
pub const K_INITIAL_SIZE: usize = 1024;

/// How many bytes are read into a buffer at a time.
pub const K_READ_BUF_SIZE: usize = 1024;

pub struct Buffer {
    data: Vec<u8>,
    read_idx: usize,
    write_idx: usize,
}

/// Builds a buffer of a chosen size.
pub struct Builder {
    initial_size: usize,
}

impl Builder {
    /// The room for content that the buffer will have.
    pub closed spec fn initial_size(&self) -> usize {
        self.initial_size
    }

    /// The buffer will have room for `size` bytes.
    pub open spec fn asks_for(&self, size: usize) -> bool {
        self.initial_size() == size
    }

    pub fn new() -> (r: Self)
        ensures
            r.asks_for(K_INITIAL_SIZE),
    {
        Builder { initial_size: K_INITIAL_SIZE }
    }

    pub fn size(self, size: usize) -> (r: Self)
        ensures
            r.asks_for(size),
    {
        Builder { initial_size: size }
    }

    pub fn build(self) -> (r: Buffer)
        requires
            K_CHEAP_PREPEND_SIZE + self.initial_size() <= isize::MAX,
        ensures
            r.is_built(self.initial_size()),
    {
        let r = Buffer {
            data: vec![0; K_CHEAP_PREPEND_SIZE + self.initial_size],
            read_idx: K_CHEAP_PREPEND_SIZE,
            write_idx: K_CHEAP_PREPEND_SIZE,
        };
        assert(r@ =~= Seq::<u8>::empty());
        r
    }
}

/// The content of a buffer: the bytes written and not read yet.
impl View for Buffer {
    type V = Seq<u8>;

    closed spec fn view(&self) -> Seq<u8> {
        self.data@.subrange(self.read_idx as int, self.write_idx as int)
    }
}

impl Buffer {
    /// The content lies within the storage, which never loses the initial room.
    pub closed spec fn wf(&self) -> bool {
        &&& self.read_idx <= self.write_idx <= self.data@.len()
        &&& K_CHEAP_PREPEND_SIZE <= self.data@.len()
    }

    /// The room before the content.
    pub closed spec fn prependable(&self) -> nat {
        self.read_idx as nat
    }

    /// The room after the content.
    pub closed spec fn writable(&self) -> nat {
        (self.data@.len() - self.write_idx) as nat
    }

    /// The storage has to grow before `len` bytes can be appended: neither the
    /// room after the content nor all of the spare room is enough.
    pub open spec fn must_grow(&self, len: int) -> bool {
        &&& self.writable() < len
        &&& self.writable() + self.prependable() < len + K_CHEAP_PREPEND_SIZE
    }

    /// `len` bytes can be appended without exceeding what a `Vec` may hold.
    pub open spec fn has_room_for(&self, len: int) -> bool {
        self.must_grow(len) ==> self.prependable() + self@.len() + len <= isize::MAX
    }

    /// What appending `bytes` makes of this buffer. The content moves to the front
    /// of the storage if that makes room; otherwise the storage grows by just
    /// what is missing.
    pub open spec fn appended(&self, bytes: Seq<u8>, post: &Buffer) -> bool {
        let len = bytes.len() as int;
        &&& post@ == self@ + bytes
        &&& if len <= self.writable() {
            post.prependable() == self.prependable() && post.writable() == self.writable() - len
        } else if self.must_grow(len) {
            post.prependable() == self.prependable() && post.writable() == 0
        } else {
            &&& post.prependable() == K_CHEAP_PREPEND_SIZE
            &&& post.writable() == self.writable() + self.prependable() - K_CHEAP_PREPEND_SIZE - len
        }
    }

    /// What reading `size` bytes makes of this buffer. A buffer that has been read
    /// to its end starts afresh.
    pub open spec fn retrieved(&self, size: int, post: &Buffer) -> bool {
        &&& post@ == self@.skip(size)
        &&& if size < self@.len() {
            post.prependable() == self.prependable() + size && post.writable() == self.writable()
        } else {
            post.cleared_from(self)
        }
    }

    /// This is `pre` with its content dropped and all of its storage regained.
    pub open spec fn cleared_from(&self, pre: &Buffer) -> bool {
        &&& self@ == Seq::<u8>::empty()
        &&& self.prependable() == K_CHEAP_PREPEND_SIZE
        &&& self.writable() == pre.prependable() + pre@.len() + pre.writable() - K_CHEAP_PREPEND_SIZE
    }

    /// What prepending `bytes` makes of this buffer.
    pub open spec fn prepended(&self, bytes: Seq<u8>, post: &Buffer) -> bool {
        &&& post@ == bytes + self@
        &&& post.prependable() == self.prependable() - bytes.len()
        &&& post.writable() == self.writable()
    }

    /// `bytes` are the content.
    pub open spec fn shows(&self, bytes: Seq<u8>) -> bool {
        bytes == self@
    }

    /// The first bytes of the content spell `val`.
    pub open spec fn spells<T: EndianRead>(&self, val: T) -> bool {
        val == T::decoding(self@.take(T::Array::width() as int))
    }

    /// The first `len` bytes of the content are read as `text`.
    pub open spec fn says(&self, len: int, text: Seq<char>) -> bool {
        &&& text == utf8_lossy(self@.take(len))
        &&& valid_utf8(self@.take(len)) ==> text == decode_utf8(self@.take(len))
    }

    /// Taking in what a read into `buf` came to gives `r`, and makes `post` of this buffer.
    pub open spec fn took_in<E>(
        &self,
        buf: Seq<u8>,
        outcome: Result<usize, E>,
        r: Result<usize, E>,
        post: &Buffer,
    ) -> bool {
        &&& r == outcome
        &&& match outcome {
            Ok(n) => self.appended(buf.take(n as int), post),
            Err(_) => *post == *self,
        }
    }

    /// This buffer is empty, with room for `size` bytes, and as valid as any.
    pub open spec fn is_built(&self, size: usize) -> bool {
        &&& self.wf()
        &&& self@ == Seq::<u8>::empty()
        &&& self.prependable() == K_CHEAP_PREPEND_SIZE
        &&& self.writable() == size
    }

    /// This buffer is empty and has the room of a fresh one.
    pub open spec fn is_fresh(&self) -> bool {
        &&& self.wf()
        &&& self@ == Seq::<u8>::empty()
        &&& self.prependable() == K_CHEAP_PREPEND_SIZE
        &&& self.writable() == K_INITIAL_SIZE
    }

    /// The storage has at least the room that a fresh buffer leaves before its front.
    pub proof fn law_room_kept(&self)
        requires
            self.wf(),
        ensures
            K_CHEAP_PREPEND_SIZE <= self.prependable() + self@.len() + self.writable(),
    {
    }

    pub fn new() -> (r: Self)
        ensures
            r.is_fresh(),
    {
        Builder::new().build()
    }

    pub fn readable_bytes(&self) -> (n: usize)
        requires
            self.wf(),
        ensures
            n == self@.len(),
    {
        self.write_idx - self.read_idx
    }

    pub fn writable_bytes(&self) -> (n: usize)
        requires
            self.wf(),
        ensures
            n == self.writable(),
    {
        self.data.len() - self.write_idx
    }

    pub fn prependable_bytes(&self) -> (n: usize)
        ensures
            n == self.prependable(),
    {
        self.read_idx
    }

    /// Whether `len` bytes can be appended.
    pub fn has_room(&self, len: usize) -> (r: bool)
        requires
            self.wf(),
        ensures
            r == self.has_room_for(len as int),
    {
        let total: usize = self.data.len();
        let spare: usize = total - self.readable_bytes();
        if self.writable_bytes() < len && (spare < K_CHEAP_PREPEND_SIZE || spare - K_CHEAP_PREPEND_SIZE < len) {
            self.write_idx <= isize::MAX as usize && len <= isize::MAX as usize - self.write_idx
        } else {
            true
        }
    }

    /// Drops the first `size` bytes of the content.
    pub fn retrieve(&mut self, size: usize)
        requires
            old(self).wf(),
            size <= old(self)@.len(),
        ensures
            final(self).wf(),
            old(self).retrieved(size as int, final(self)),
    {
        if size < self.readable_bytes() {
            self.read_idx = self.read_idx + size;
        } else {
            self.retrieve_all();
        }
        assert(self@ =~= old(self)@.skip(size as int));
    }

    /// Drops the content.
    pub fn retrieve_all(&mut self)
        requires
            old(self).wf(),
        ensures
            final(self).wf(),
            final(self).cleared_from(old(self)),
    {
        self.read_idx = K_CHEAP_PREPEND_SIZE;
        self.write_idx = K_CHEAP_PREPEND_SIZE;
        assert(self@ =~= Seq::<u8>::empty());
    }

    /// Copies `data` over the storage from position `from` on.
    fn overwrite(&mut self, from: usize, data: &[u8])
        requires
            from + data@.len() <= old(self).data@.len(),
        ensures
            final(self).read_idx == old(self).read_idx,
            final(self).write_idx == old(self).write_idx,
            final(self).data@.len() == old(self).data@.len(),
            forall|i: int|
                0 <= i < old(self).data@.len() ==> #[trigger] final(self).data@[i] == (if from <= i < from
                    + data@.len() {
                    data@[i - from]
                } else {
                    old(self).data@[i]
                }),
    {
        let len: usize = data.len();
        let total: usize = self.data.len();
        let mut i: usize = 0;
        while i < len
            invariant
                i <= len == data@.len(),
                from + len <= total == self.data@.len(),
                self.read_idx == old(self).read_idx,
                self.write_idx == old(self).write_idx,
                self.data@.len() == old(self).data@.len(),
                forall|j: int|
                    0 <= j < old(self).data@.len() ==> #[trigger] self.data@[j] == (if from <= j < from + i {
                        data@[j - from]
                    } else {
                        old(self).data@[j]
                    }),
            decreases len - i,
        {
            self.data.set(from + i, data[i]);
            i = i + 1;
        }
    }

    /// Puts a copy of `data` before the content.
    pub fn prepend(&mut self, data: &[u8])
        requires
            old(self).wf(),
            data@.len() <= old(self).prependable(),
        ensures
            final(self).wf(),
            old(self).prepended(data@, final(self)),
    {
        let len: usize = data.len();
        self.read_idx = self.read_idx - len;
        self.overwrite(self.read_idx, data);
        assert(self@ =~= data@ + old(self)@);
    }

    /// Puts a copy of `data` after the content.
    pub fn append(&mut self, data: &[u8])
        requires
            old(self).wf(),
            old(self).has_room_for(data@.len() as int),
        ensures
            final(self).wf(),
            old(self).appended(data@, final(self)),
    {
        let len: usize = data.len();
        self.ensure_writable(len);
        let total: usize = self.data.len();
        let ghost mid = self@;
        self.overwrite(self.write_idx, data);
        self.write_idx = self.write_idx + len;
        assert(self@ =~= mid + data@);
    }

    /// Makes room for `len` bytes after the content.
    fn ensure_writable(&mut self, len: usize)
        requires
            old(self).wf(),
            old(self).has_room_for(len as int),
        ensures
            final(self).wf(),
            final(self)@ == old(self)@,
            if len <= old(self).writable() {
                *final(self) == *old(self)
            } else if old(self).must_grow(len as int) {
                final(self).prependable() == old(self).prependable() && final(self).writable() == len
            } else {
                &&& final(self).prependable() == K_CHEAP_PREPEND_SIZE
                &&& final(self).writable() == old(self).writable() + old(self).prependable() - K_CHEAP_PREPEND_SIZE
            },
    {
        if self.writable_bytes() < len {
            let total: usize = self.data.len();
            let spare: usize = total - self.readable_bytes();
            if spare < K_CHEAP_PREPEND_SIZE || spare - K_CHEAP_PREPEND_SIZE < len {
                self.data.resize(self.write_idx + len, 0);
                assert(self.data@.subrange(0, total as int) == old(self).data@);
                assert(forall|i: int| 0 <= i < total ==> self.data@.subrange(0, total as int)[i] == self.data@[i]);
            } else {
                let readable: usize = self.readable_bytes();
                self.move_to_front();
                self.read_idx = K_CHEAP_PREPEND_SIZE;
                self.write_idx = self.read_idx + readable;
            }
        }
        assert(self@ =~= old(self)@);
    }

    /// Copies the content to where a fresh buffer has its front.
    fn move_to_front(&mut self)
        requires
            old(self).wf(),
            K_CHEAP_PREPEND_SIZE < old(self).read_idx,
        ensures
            final(self).read_idx == old(self).read_idx,
            final(self).write_idx == old(self).write_idx,
            final(self).data@.len() == old(self).data@.len(),
            final(self).data@.subrange(
                K_CHEAP_PREPEND_SIZE as int,
                K_CHEAP_PREPEND_SIZE + old(self)@.len(),
            ) == old(self)@,
    {
        let readable: usize = self.readable_bytes();
        let from: usize = self.read_idx;
        let mut i: usize = 0;
        while i < readable
            invariant
                i <= readable == old(self)@.len(),
                K_CHEAP_PREPEND_SIZE < from == old(self).read_idx,
                self.read_idx == old(self).read_idx,
                self.write_idx == old(self).write_idx,
                self.write_idx == from + readable,
                self.write_idx <= self.data@.len(),
                self.data@.len() == old(self).data@.len(),
                forall|j: int|
                    K_CHEAP_PREPEND_SIZE <= j < K_CHEAP_PREPEND_SIZE + i ==> #[trigger] self.data@[j]
                        == old(self).data@[j - K_CHEAP_PREPEND_SIZE + from],
                forall|j: int| K_CHEAP_PREPEND_SIZE + i <= j < self.data@.len() ==> self.data@[j] == old(self).data@[j],
            decreases readable - i,
        {
            let b: u8 = self.data[from + i];
            self.data.set(K_CHEAP_PREPEND_SIZE + i, b);
            i = i + 1;
        }
    }

    /// The content.
    pub fn peek(&self) -> (r: &[u8])
        requires
            self.wf(),
        ensures
            self.shows(r@),
    {
        slice_subrange(self.data.as_slice(), self.read_idx, self.write_idx)
    }

    /// The value that the first bytes of the content spell.
    pub fn peek_as<T: EndianRead>(&self) -> (r: T)
        requires
            self.wf(),
            T::Array::width() <= self@.len(),
        ensures
            self.spells(r),
    {
        let len: usize = T::Array::size();
        let s = slice_subrange(self.peek(), 0, len);
        assert(s@ =~= self@.take(len as int));
        T::from_bytes(T::Array::from_slice(s))
    }

    /// The first `len` bytes of the content as text.
    pub fn peek_as_string(&self, len: usize) -> (r: String)
        requires
            self.wf(),
            len <= self@.len(),
        ensures
            self.says(len as int, r@),
    {
        let bytes = slice_subrange(self.peek(), 0, len);
        assert(bytes@ =~= self@.take(len as int));
        text_of(bytes)
    }

    /// Reads the value that the first bytes of the content spell.
    pub fn retrieve_as<T: EndianRead>(&mut self) -> (r: T)
        requires
            old(self).wf(),
            T::Array::width() <= old(self)@.len(),
        ensures
            final(self).wf(),
            old(self).spells(r),
            old(self).retrieved(T::Array::width() as int, final(self)),
    {
        let len: usize = T::Array::size();
        let ret = self.peek_as::<T>();
        self.retrieve(len);
        ret
    }

    /// Reads the first `len` bytes of the content as text.
    pub fn retrieve_as_string(&mut self, len: usize) -> (r: String)
        requires
            old(self).wf(),
            len <= old(self)@.len(),
        ensures
            final(self).wf(),
            old(self).says(len as int, r@),
            old(self).retrieved(len as int, final(self)),
    {
        let ret = self.peek_as_string(len);
        self.retrieve(len);
        ret
    }

    /// Reads all of the content as text.
    pub fn retrieve_all_as_string(&mut self) -> (r: String)
        requires
            old(self).wf(),
        ensures
            final(self).wf(),
            old(self).says(old(self)@.len() as int, r@),
            final(self).cleared_from(old(self)),
    {
        assert(self@.take(self@.len() as int) =~= self@);
        let ret = text_of(self.peek());
        self.retrieve_all();
        ret
    }

    /// Appends the bytes that spell `val`.
    pub fn append_as<T: EndianWrite>(&mut self, val: T)
        requires
            old(self).wf(),
            old(self).has_room_for(val.encoding().len() as int),
        ensures
            final(self).wf(),
            old(self).appended(val.encoding(), final(self)),
    {
        let bytes = val.as_bytes();
        self.append(bytes.as_slice());
    }

    /// Appends the text `val`.
    pub fn append_string(&mut self, val: String)
        requires
            old(self).wf(),
            old(self).has_room_for(encode_utf8(val@).len() as int),
        ensures
            final(self).wf(),
            old(self).appended(encode_utf8(val@), final(self)),
    {
        self.append(val.as_str().as_bytes());
    }

    /// Prepends the bytes that spell `val`.
    pub fn prepend_as<T: EndianWrite>(&mut self, val: T)
        requires
            old(self).wf(),
            val.encoding().len() <= old(self).prependable(),
        ensures
            final(self).wf(),
            old(self).prepended(val.encoding(), final(self)),
    {
        let bytes = val.as_bytes();
        self.prepend(bytes.as_slice());
    }

    /// Takes in what a read into `buf` came to: on success the bytes that were
    /// read are appended, and a failure is handed on.
    pub fn read_from<E>(&mut self, buf: &[u8], outcome: Result<usize, E>) -> (r: Result<usize, E>)
        requires
            old(self).wf(),
            outcome matches Ok(n) ==> n <= buf@.len() && old(self).has_room_for(n as int),
        ensures
            final(self).wf(),
            old(self).took_in(buf@, outcome, r, final(self)),
    {
        let n: usize = match outcome {
            Ok(n) => n,
            Err(e) => return Err(e),
        };
        let data = slice_subrange(buf, 0, n);
        assert(data@ =~= buf@.take(n as int));
        self.append(data);
        Ok(n)
    }
}

/// The text that `String::from_utf8_lossy` makes of `bytes`.
pub uninterp spec fn utf8_lossy(bytes: Seq<u8>) -> Seq<char>;

/// Calls `String::from_utf8_lossy` and `Cow::into_owned`. The text is a function of
/// the bytes; if they are valid UTF-8, it is what they encode. What stands in
/// the place of invalid bytes is not said.
#[verifier::external_body]
fn text_of(bytes: &[u8]) -> (r: String)
    ensures
        r@ == utf8_lossy(bytes@),
        valid_utf8(bytes@) ==> r@ == decode_utf8(bytes@),
{
    String::from_utf8_lossy(bytes).into_owned()
}

} // verus!
