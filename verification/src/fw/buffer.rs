//! Owned buffers with a window on their storage.
use vstd::prelude::*;

use super::bytes;

verus! {

/// A buffer handed from component to component: storage, a window on it, and a
/// number by which its owner knows it again.
#[derive(Debug)]
pub struct Buffer {
    storage: Vec<u8>,
    offset: usize,
    size: usize,
    context: u32,
}

/// A buffer as contracts see it.
#[verifier::ext_equal]
pub struct BufferView {
    /// The whole storage.
    pub storage: Seq<u8>,
    /// Where the window starts.
    pub offset: nat,
    /// How many bytes the window shows.
    pub size: nat,
    /// The number by which the owner knows the buffer.
    pub context: u32,
}

/// The context of a buffer that nobody needs to know again.
pub const NO_CONTEXT: u32 = 0xFFFF_FFFF;

impl BufferView {
    /// The window lies within the storage.
    pub open spec fn wf(self) -> bool {
        self.offset + self.size <= self.storage.len()
    }

    /// The bytes that the window shows.
    pub open spec fn bytes(self) -> Seq<u8> {
        self.storage.subrange(self.offset as int, (self.offset + self.size) as int)
    }

    /// The buffer without storage.
    pub open spec fn empty() -> BufferView {
        BufferView { storage: Seq::empty(), offset: 0, size: 0, context: NO_CONTEXT }
    }

    /// The buffer that shows all of `storage`.
    pub open spec fn whole(storage: Seq<u8>, context: u32) -> BufferView {
        BufferView { storage, offset: 0, size: storage.len(), context }
    }

    /// Whether there is any storage.
    pub open spec fn valid(self) -> bool {
        self.storage.len() > 0
    }

    /// The buffer with the first bytes of its window replaced by `data`, showing just
    /// those.
    pub open spec fn overwritten(self, data: Seq<u8>) -> BufferView {
        BufferView {
            storage: self.storage.take(self.offset as int) + data + self.storage.skip(
                (self.offset + data.len()) as int,
            ),
            size: data.len(),
            ..self
        }
    }

    /// The buffer with its window moved to show `size` bytes, starting `skip` bytes
    /// into the present window.
    pub open spec fn window(self, skip: nat, size: nat) -> BufferView {
        BufferView { offset: self.offset + skip, size, ..self }
    }
}

impl View for Buffer {
    type V = BufferView;

    closed spec fn view(&self) -> BufferView {
        BufferView {
            storage: self.storage@,
            offset: self.offset as nat,
            size: self.size as nat,
            context: self.context,
        }
    }
}

impl Buffer {
    /// The window lies within the storage.
    #[verifier::type_invariant]
    spec fn inv(self) -> bool {
        self.offset + self.size <= self.storage.len()
    }

    /// The buffer without storage.
    pub fn empty() -> (r: Self)
        ensures
            r@ == BufferView::empty(),
    {
        let r = Buffer { storage: Vec::new(), offset: 0, size: 0, context: NO_CONTEXT };
        assert(r@ =~= BufferView::empty());
        r
    }

    /// A buffer of `n` zero bytes.
    pub fn allocate(n: usize) -> (r: Self)
        ensures
            r@ == BufferView::whole(Seq::new(n as nat, |i: int| 0u8), NO_CONTEXT),
    {
        let mut storage: Vec<u8> = Vec::new();
        let mut i: usize = 0;
        while i < n
            invariant
                i <= n,
                storage@ == Seq::new(i as nat, |j: int| 0u8),
            decreases n - i,
        {
            storage.push(0);
            i += 1;
            assert(storage@ =~= Seq::new(i as nat, |j: int| 0u8));
        }
        Buffer { storage, offset: 0, size: n, context: NO_CONTEXT }
    }

    /// A buffer that shows all of `storage`.
    pub fn from_storage(storage: Vec<u8>, context: u32) -> (r: Self)
        ensures
            r@ == BufferView::whole(storage@, context),
    {
        let size: usize = storage.len();
        Buffer { storage, offset: 0, size, context }
    }

    /// A buffer that holds and shows a copy of `data`.
    pub fn holding(data: &[u8]) -> (r: Self)
        ensures
            r@ == BufferView::whole(data@, NO_CONTEXT),
    {
        Self::from_storage(bytes::copy_bytes(data), NO_CONTEXT)
    }

    /// Gives up the storage.
    pub fn into_storage(self) -> (r: Vec<u8>)
        ensures
            r@ == self@.storage,
    {
        self.storage
    }

    /// A copy of the bytes that the window shows.
    pub fn to_vec(&self) -> (r: Vec<u8>)
        ensures
            r@ == self@.bytes(),
    {
        proof {
            use_type_invariant(self);
        }
        bytes::copy_range(self.storage.as_slice(), self.offset, self.offset + self.size)
    }

    /// The byte at position `i` of the window.
    pub fn byte(&self, i: usize) -> (r: u8)
        requires
            i < self@.size,
        ensures
            r == self@.bytes()[i as int],
    {
        proof {
            use_type_invariant(self);
        }
        self.storage[self.offset + i]
    }

    /// How many bytes the window shows.
    pub fn size(&self) -> (r: usize)
        ensures
            r == self@.size,
            self@.wf(),
    {
        proof {
            use_type_invariant(self);
        }
        self.size
    }

    /// How large the storage is.
    pub fn capacity(&self) -> (r: usize)
        ensures
            r == self@.storage.len(),
    {
        self.storage.len()
    }

    /// The number by which the owner knows the buffer.
    pub fn context(&self) -> (r: u32)
        ensures
            r == self@.context,
    {
        self.context
    }

    /// Whether there is any storage.
    pub fn is_valid(&self) -> (r: bool)
        ensures
            r == self@.valid(),
    {
        self.storage.len() > 0
    }

    /// Shrinks or grows the window at its end.
    pub fn set_size(&mut self, size: usize)
        requires
            old(self)@.offset + size <= old(self)@.storage.len(),
        ensures
            final(self)@ == old(self)@.window(0, size as nat),
    {
        proof {
            use_type_invariant(&*self);
        }
        self.size = size;
    }

    /// The same buffer, the first bytes of its window replaced by `data`, showing just
    /// those.
    pub fn overwritten(self, data: &[u8]) -> (r: Self)
        requires
            data@.len() <= self@.size,
        ensures
            r@ == self@.overwritten(data@),
    {
        proof {
            use_type_invariant(&self);
        }
        let offset: usize = self.offset;
        let context: u32 = self.context;
        let mut storage: Vec<u8> = self.storage;
        let ghost before = storage@;
        let mut i: usize = 0;
        while i < data.len()
            invariant
                i <= data@.len(),
                offset + data@.len() <= before.len() <= usize::MAX,
                storage@ == before.take(offset as int) + data@.take(i as int) + before.skip(
                    offset + i,
                ),
            decreases data@.len() - i,
        {
            storage.set(offset + i, data[i]);
            i += 1;
            assert(storage@ =~= before.take(offset as int) + data@.take(i as int) + before.skip(
                offset + i,
            ));
        }
        assert(data@.take(data@.len() as int) =~= data@);
        Buffer { storage, offset, size: data.len(), context }
    }

    /// The same buffer, its window moved to show `size` bytes, starting `skip` bytes
    /// into the present window.
    pub fn narrowed(self, skip: usize, size: usize) -> (r: Self)
        requires
            skip + size <= self@.size,
        ensures
            r@ == self@.window(skip as nat, size as nat),
    {
        proof {
            use_type_invariant(&self);
        }
        let offset: usize = self.offset + skip;
        Buffer { storage: self.storage, offset, size, context: self.context }
    }
}

/// Overwriting shows exactly what was written, and leaves the rest of the storage alone.
pub proof fn law_overwritten_shows_data(b: BufferView, data: Seq<u8>)
    requires
        b.wf(),
        data.len() <= b.size,
    ensures
        b.overwritten(data).wf(),
        b.overwritten(data).bytes() == data,
        b.overwritten(data).storage.len() == b.storage.len(),
{
    assert(b.overwritten(data).bytes() =~= data);
}

/// A narrowed window shows exactly the corresponding part of what was shown.
pub proof fn law_window_shows_part(b: BufferView, skip: nat, size: nat)
    requires
        b.wf(),
        skip + size <= b.size,
    ensures
        b.window(skip, size).wf(),
        b.window(skip, size).bytes() == b.bytes().subrange(skip as int, (skip + size) as int),
{
    assert(b.window(skip, size).bytes() =~= b.bytes().subrange(
        skip as int,
        (skip + size) as int,
    ));
}

/// Overwriting changes no byte but those that the window then shows; the window starts where it
/// did, and the owner knows the buffer as before.
pub proof fn law_overwriting_leaves_the_rest(b: BufferView, data: Seq<u8>, i: int)
    requires
        b.wf(),
        data.len() <= b.size,
        0 <= i < b.storage.len(),
    ensures
        ({
            let r = b.overwritten(data);
            &&& r.offset == b.offset
            &&& r.size == data.len()
            &&& r.context == b.context
            &&& r.storage[i] == if b.offset <= i < b.offset + data.len() {
                data[i - b.offset]
            } else {
                b.storage[i]
            }
        }),
{
}

/// Moving the window changes nothing in the storage, and the owner knows the buffer as before. A
/// buffer that shows all of its storage does so from the first byte on; without storage it shows
/// nothing.
pub proof fn law_windows(b: BufferView, skip: nat, size: nat)
    ensures
        b.window(skip, size).storage == b.storage,
        b.window(skip, size).context == b.context,
        b.window(skip, size).offset == b.offset + skip,
        b.window(skip, size).size == size,
        BufferView::whole(b.storage, b.context).bytes() == b.storage,
        BufferView::whole(b.storage, b.context).context == b.context,
        BufferView::empty().bytes().len() == 0,
        !BufferView::empty().valid(),
        b.valid() <==> b.storage.len() > 0,
{
    assert(BufferView::whole(b.storage, b.context).bytes() =~= b.storage);
}

} // verus!
