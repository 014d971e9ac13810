//! A byte buffer of fixed capacity that tracks its own write offset and
//! refuses writes past the end.
use vstd::prelude::*;

verus! {

/// What a buffer holds, and how much it can hold.
pub struct BufferView {
    pub contents: Seq<u8>,
    pub capacity: nat,
}

/// `b` after an attempt to append `x`: the byte is kept while there is room.
pub open spec fn push_spec(b: BufferView, x: u8) -> BufferView {
    if b.contents.len() < b.capacity {
        BufferView { contents: b.contents.push(x), capacity: b.capacity }
    } else {
        b
    }
}

/// `b` emptied.
pub open spec fn cleared(b: BufferView) -> BufferView {
    BufferView { contents: Seq::empty(), capacity: b.capacity }
}

/// Fixed storage, of which the first `len` bytes are in use.
pub struct FrameBuffer {
    storage: Vec<u8>,
    len: usize,
}

impl View for FrameBuffer {
    type V = BufferView;

    closed spec fn view(&self) -> BufferView {
        BufferView { contents: self.storage@.take(self.len as int), capacity: self.storage@.len() }
    }
}

impl FrameBuffer {
    /// The buffer's invariant: the bytes in use lie within the storage.
    pub closed spec fn wf(&self) -> bool {
        self.len <= self.storage@.len()
    }

    /// An empty buffer whose capacity is the length of `storage`.
    pub fn new(storage: Vec<u8>) -> (r: FrameBuffer)
        ensures
            r.wf(),
            r@ == (BufferView { contents: Seq::empty(), capacity: storage@.len() }),
    {
        let r = FrameBuffer { storage, len: 0 };
        assert(r@.contents =~= Seq::<u8>::empty());
        r
    }

    /// An empty buffer of capacity `capacity`.
    pub fn with_capacity(capacity: usize) -> (r: FrameBuffer)
        ensures
            r.wf(),
            r@ == (BufferView { contents: Seq::empty(), capacity: capacity as nat }),
    {
        let mut storage: Vec<u8> = Vec::new();
        while storage.len() < capacity
            invariant
                storage@.len() <= capacity,
            decreases capacity - storage@.len(),
        {
            storage.push(0);
        }
        FrameBuffer::new(storage)
    }

    /// The number of bytes in use.
    pub fn len(&self) -> (r: usize)
        requires
            self.wf(),
        ensures
            r == self@.contents.len(),
    {
        self.len
    }

    /// The number of bytes the buffer can hold.
    pub fn capacity(&self) -> (r: usize)
        ensures
            r == self@.capacity,
    {
        self.storage.len()
    }

    /// Appends `x` if there is room; says whether it did.
    pub fn push(&mut self, x: u8) -> (r: bool)
        requires
            old(self).wf(),
        ensures
            final(self).wf(),
            r == (old(self)@.contents.len() < old(self)@.capacity),
            final(self)@ == push_spec(old(self)@, x),
    {
        if self.len < self.storage.len() {
            let ghost before = self.storage@.take(self.len as int);
            self.storage.set(self.len, x);
            self.len = self.len + 1;
            assert(self.storage@.take(self.len as int) =~= before.push(x));
            true
        } else {
            false
        }
    }

    /// Forgets the bytes in use.
    pub fn clear(&mut self)
        requires
            old(self).wf(),
        ensures
            final(self).wf(),
            final(self)@ == cleared(old(self)@),
    {
        self.len = 0;
        assert(self@.contents =~= Seq::<u8>::empty());
    }

    /// A copy of the bytes in use.
    pub fn to_vec(&self) -> (r: Vec<u8>)
        requires
            self.wf(),
        ensures
            r@ == self@.contents,
    {
        let mut out: Vec<u8> = Vec::new();
        let mut i: usize = 0;
        while i < self.len
            invariant
                i <= self.len <= self.storage@.len(),
                out@ == self.storage@.take(i as int),
            decreases self.len - i,
        {
            out.push(self.storage[i]);
            i = i + 1;
            assert(out@ =~= self.storage@.take(i as int));
        }
        out
    }
}

} // verus!
