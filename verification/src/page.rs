use vstd::prelude::*;

verus! {

broadcast use vstd::array::group_array_axioms;

/// Number of bytes in one page.
pub const PAGE_SIZE: usize = 4096;

/// Required alignment of a page's storage, equal to its size.
pub const PAGE_ALIGN: usize = 4096;

/// A single page of memory: an opaque, copyable container of exactly
/// [`PAGE_SIZE`] bytes, viewed abstractly as a byte sequence.
///
/// A page is a plain value: copying one duplicates all of its bytes, and no
/// two page values share storage.
#[derive(Clone, Copy)]
pub struct Page {
    bytes: [u8; PAGE_SIZE],
}

impl View for Page {
    type V = Seq<u8>;

    closed spec fn view(&self) -> Seq<u8> {
        self.bytes@
    }
}

/// The byte sequence of a page holding `data` at offset 0 and zero in every
/// byte after it.
pub open spec fn padded(data: Seq<u8>) -> Seq<u8>
    recommends
        data.len() <= PAGE_SIZE,
{
    Seq::new(PAGE_SIZE as nat, |i: int| if i < data.len() { data[i] } else { 0u8 })
}

/// Round-trip law: the byte view of a page built from `data` restores `data`
/// exactly when its first `data.len()` bytes are read back, and holds zero at
/// every index from `data.len()` up to [`PAGE_SIZE`].
pub proof fn lemma_padded_round_trip(data: Seq<u8>)
    requires
        data.len() <= PAGE_SIZE,
    ensures
        padded(data).len() == PAGE_SIZE,
        padded(data).subrange(0, data.len() as int) == data,
        forall|j: int| data.len() <= j < PAGE_SIZE ==> padded(data)[j] == 0u8,
{
    assert(padded(data).subrange(0, data.len() as int) =~= data);
}

/// Determinism law: building pages from equal byte images yields
/// byte-identical pages.
pub proof fn lemma_copy_deterministic(a: Seq<u8>, b: Seq<u8>)
    requires
        a == b,
    ensures
        padded(a) == padded(b),
{
}

impl Default for Page {
    /// Returns a page whose every byte is zero, as [`Page::zeroed`] does.
    fn default() -> (p: Self)
        ensures
            p@ == padded(Seq::<u8>::empty()),
    {
        Page::zeroed()
    }
}

/// Why a value's byte image was refused by [`Page::try_copy`].
///
/// Each variant marks a violated placement constraint, found before any byte
/// is written. [`Page::copy`] treats the same constraints as preconditions:
/// a caller that cannot rule them out ahead of time uses [`Page::try_copy`].
#[derive(Clone, Copy, Debug, PartialEq, Eq, Structural)]
pub enum CopyError {
    /// The value's byte size exceeds the page size.
    SizeExceeded,
    /// The value's required alignment exceeds the page's alignment.
    AlignmentExceeded,
    /// The page's alignment is not an exact multiple of the value's alignment.
    AlignmentNotDivisible,
}

impl Page {
    /// Returns the size of a page in bytes.
    pub fn size() -> (n: usize)
        ensures
            n == PAGE_SIZE,
    {
        PAGE_SIZE
    }

    /// Returns a page whose every byte is zero.
    pub fn zeroed() -> (p: Page)
        ensures
            p@ == padded(Seq::<u8>::empty()),
            p@.len() == PAGE_SIZE,
            forall|i: int| 0 <= i < PAGE_SIZE ==> p@[i] == 0u8,
    {
        let p = Page { bytes: [0u8; PAGE_SIZE] };
        proof {
            assert(p@ =~= padded(Seq::<u8>::empty()));
        }
        p
    }

    /// Copies a value's byte image into the start of a fresh page.
    ///
    /// `value` is the value's bit representation and `align` its required
    /// alignment. The returned page holds `value` at byte offset 0 and zero
    /// in every remaining byte. The preconditions are the placement
    /// constraints: the value must fit, its alignment must not exceed the
    /// page's, and the page's alignment must be an exact multiple of it, so
    /// that offset 0 of page-aligned storage satisfies the value's own
    /// alignment. (An alignment is at least 1.)
    pub fn copy(value: &[u8], align: usize) -> (p: Page)
        requires
            value@.len() <= PAGE_SIZE,
            1 <= align <= PAGE_ALIGN,
            PAGE_ALIGN as int % align as int == 0,
        ensures
            p@ == padded(value@),
    {
        let mut p = Page::zeroed();
        let n = value.len();
        let mut i: usize = 0;
        while i < n
            invariant
                i <= n,
                n == value@.len(),
                n <= PAGE_SIZE,
                p@.len() == PAGE_SIZE,
                forall|j: int| 0 <= j < i ==> p@[j] == value@[j],
                forall|j: int| i <= j < PAGE_SIZE ==> p@[j] == 0u8,
            decreases n - i,
        {
            p.bytes[i] = value[i];
            i += 1;
        }
        proof {
            assert(p@ =~= padded(value@));
        }
        p
    }

    /// Copies a value's byte image into a fresh page, checking the placement
    /// constraints first.
    ///
    /// On success the page is exactly what [`Page::copy`] returns. Each
    /// constraint is checked before any byte is written, in this order: size,
    /// alignment bound, alignment divisibility; the first violated one is
    /// reported and no page is produced.
    pub fn try_copy(value: &[u8], align: usize) -> (r: Result<Page, CopyError>)
        requires
            align >= 1,
        ensures
            match r {
                Ok(p) => {
                    &&& value@.len() <= PAGE_SIZE
                    &&& align <= PAGE_ALIGN
                    &&& PAGE_ALIGN as int % align as int == 0
                    &&& p@ == padded(value@)
                },
                Err(e) => match e {
                    CopyError::SizeExceeded => value@.len() > PAGE_SIZE,
                    CopyError::AlignmentExceeded => {
                        &&& value@.len() <= PAGE_SIZE
                        &&& align > PAGE_ALIGN
                    },
                    CopyError::AlignmentNotDivisible => {
                        &&& value@.len() <= PAGE_SIZE
                        &&& align <= PAGE_ALIGN
                        &&& PAGE_ALIGN as int % align as int != 0
                    },
                },
            },
    {
        if value.len() > PAGE_SIZE {
            Err(CopyError::SizeExceeded)
        } else if align > PAGE_ALIGN {
            Err(CopyError::AlignmentExceeded)
        } else if PAGE_ALIGN % align != 0 {
            Err(CopyError::AlignmentNotDivisible)
        } else {
            Ok(Page::copy(value, align))
        }
    }

    /// Returns the page's contents as a byte slice of length [`PAGE_SIZE`],
    /// without copying.
    pub fn as_bytes(&self) -> (r: &[u8])
        ensures
            r@ == self@,
            r@.len() == PAGE_SIZE,
    {
        self.bytes.as_slice()
    }

    /// Returns the byte at index `i`.
    pub fn byte_at(&self, i: usize) -> (b: u8)
        requires
            i < PAGE_SIZE,
        ensures
            b == self@[i as int],
    {
        self.bytes[i]
    }

    /// Writes `b` at index `i`, mutating this page's backing storage in
    /// place. Only this page changes: a page is a value, so no other page
    /// shares its storage.
    pub fn set_byte(&mut self, i: usize, b: u8)
        requires
            i < PAGE_SIZE,
        ensures
            final(self)@ == old(self)@.update(i as int, b),
    {
        self.bytes[i] = b;
    }

    /// The length of every page's byte view is exactly [`PAGE_SIZE`].
    pub proof fn lemma_view_len(p: Page)
        ensures
            p@.len() == PAGE_SIZE,
    {
    }
}

} // verus!
