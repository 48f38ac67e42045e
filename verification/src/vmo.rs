//! Virtual memory objects: resizable byte memory behind one operation set.
//!
//! A VMO is a byte-addressable memory resource with one of two backing
//! variants: *paged* (lazily committed; backing pages are allocated on
//! first write or commit) and *physical* (a fixed physical range, eagerly
//! backed). Callers never branch on the variant: the operation set is
//! uniform, and each variant encodes only its divergent behaviour —
//! resizing is refused on the physical variant, and commit is a no-op
//! there.
//!
//! Bounds policy, chosen and documented once: a read or write whose byte
//! range reaches past the current length fails with `OUT_OF_RANGE` and
//! changes nothing — no short-circuit, no implicit growth, no zero-fill.
//! Lengths and mapped ranges are page-aligned at this layer; an unaligned
//! length is refused with `INVALID_ARGS`.
//!
//! Mappings are installed into a [`PageTable`], the model of the
//! capability-address-space interface the VMO layer consumes: it keeps the
//! bookkeeping of which contiguous ranges are mapped. Unmapping a range
//! that the address space does not report as mapped indicates a caller
//! bookkeeping bug upstream; [`VMObject::unmap_from`] therefore demands a
//! mapped range up front instead of continuing silently.

use vstd::prelude::*;
use vstd::pervasive::VecAdditionalExecFns;
use vstd::arithmetic::div_mod::lemma_fundamental_div_mod;
use crate::error::{ZxError, ZxResult};
use crate::object::KObjectBase;

verus! {

/// Size of one page in bytes.
pub const PAGE_SIZE: usize = 4096;

/// Permission flags for a mapping (read / write / execute bits); carried
/// through to the address space unchanged.
pub type MMUFlags = u32;

/// One contiguous mapping installed in an address space.
#[derive(Clone, Copy, Debug, PartialEq, Eq, Structural)]
pub struct Mapping {
    /// First mapped virtual address (page-aligned).
    pub vaddr: usize,
    /// Number of contiguous pages mapped.
    pub pages: usize,
    /// Permission flags the range was mapped with.
    pub flags: MMUFlags,
}

/// The address-space interface the VMO layer consumes: bookkeeping of
/// which contiguous page ranges are mapped. Ranges are unmapped as the
/// units they were mapped; the space's own validity rules (overlap,
/// alignment of `vaddr`) are its consumer's concern.
pub struct PageTable {
    mappings: Vec<Mapping>,
}

impl PageTable {
    /// The mappings currently installed, in installation order.
    pub closed spec fn maps(self) -> Seq<Mapping> {
        self.mappings@
    }

    /// Is a range of exactly `pages` pages at `vaddr` installed?
    pub open spec fn has_mapping(self, vaddr: usize, pages: usize) -> bool {
        exists|k: int|
            0 <= k < self.maps().len() && self.maps()[k].vaddr == vaddr && self.maps()[k].pages
                == pages
    }

    /// An empty address space.
    pub fn new() -> (pt: Self)
        ensures
            pt.maps() == Seq::<Mapping>::empty(),
    {
        PageTable { mappings: Vec::new() }
    }

    /// Install a mapping of `pages` contiguous pages at `vaddr`. The
    /// bookkeeping itself is total: it records the range and succeeds.
    pub fn map_cont(&mut self, vaddr: usize, pages: usize, flags: MMUFlags) -> (r: ZxResult<()>)
        ensures
            r == Ok::<(), ZxError>(()),
            final(self).maps() == old(self).maps().push(Mapping { vaddr, pages, flags }),
    {
        self.mappings.push(Mapping { vaddr, pages, flags });
        Ok(())
    }

    /// Remove the mapping of exactly `pages` pages at `vaddr`. Fails with
    /// `INTERNAL` — the caller's bookkeeping is wrong — exactly when no
    /// such range is installed, and then changes nothing.
    pub fn unmap_cont(&mut self, vaddr: usize, pages: usize) -> (r: ZxResult<()>)
        ensures
            r == Ok::<(), ZxError>(()) <==> old(self).has_mapping(vaddr, pages),
            !old(self).has_mapping(vaddr, pages) ==> r == Err::<(), ZxError>(ZxError::INTERNAL)
                && *final(self) == *old(self),
            old(self).has_mapping(vaddr, pages) ==> exists|k: int|
                {
                    &&& 0 <= k < old(self).maps().len()
                    &&& old(self).maps()[k].vaddr == vaddr
                    &&& old(self).maps()[k].pages == pages
                    &&& final(self).maps() == old(self).maps().remove(k)
                },
    {
        let mut k: usize = 0;
        while k < self.mappings.len()
            invariant
                k <= self.mappings.len(),
                *self == *old(self),
                forall|j: int|
                    0 <= j < k ==> !(self.mappings@[j].vaddr == vaddr && self.mappings@[j].pages
                        == pages),
            decreases self.mappings.len() - k,
        {
            if self.mappings[k].vaddr == vaddr && self.mappings[k].pages == pages {
                proof {
                    assert(old(self).maps()[k as int].vaddr == vaddr && old(self).maps()[
                        k as int
                    ].pages == pages);
                }
                self.mappings.remove(k);
                proof {
                    assert(final(self).maps() == old(self).maps().remove(k as int));
                }
                return Ok(());
            }
            k = k + 1;
        }
        Err(ZxError::INTERNAL)
    }
}

/// Does page number `page` overlap the byte range `[offset, offset + len)`?
pub open spec fn page_overlaps(page: int, offset: int, len: int) -> bool {
    page * PAGE_SIZE < offset + len && offset < (page + 1) * PAGE_SIZE
}

/// The per-page commit flags after committing the byte range
/// `[offset, offset + len)`: every page the range touches becomes
/// committed, every other page keeps its state. An empty range commits
/// nothing.
pub open spec fn spec_commit(committed: Seq<bool>, offset: int, len: int) -> Seq<bool> {
    if len <= 0 {
        committed
    } else {
        Seq::new(committed.len(), |page: int| committed[page] || page_overlaps(page, offset, len))
    }
}

/// Committing any range of a fully committed object changes nothing: this
/// is why commit is a no-op on the physical variant.
pub proof fn lemma_commit_all_true(n: nat, offset: int, len: int)
    ensures
        spec_commit(Seq::new(n, |page: int| true), offset, len) == Seq::new(
            n,
            |page: int| true,
        ),
{
    assert(spec_commit(Seq::new(n, |page: int| true), offset, len) =~= Seq::new(
        n,
        |page: int| true,
    ));
}

/// Commit idempotence: committing a range that was just committed leaves
/// the backing state exactly as it was — no new page becomes committed,
/// none becomes uncommitted.
pub proof fn lemma_commit_idempotent(committed: Seq<bool>, offset: int, len: int)
    ensures
        spec_commit(spec_commit(committed, offset, len), offset, len) == spec_commit(
            committed,
            offset,
            len,
        ),
{
    assert(spec_commit(spec_commit(committed, offset, len), offset, len) =~= spec_commit(
        committed,
        offset,
        len,
    ));
}

/// Writing then reading the same range gives back exactly the bytes
/// written, whatever the backing: reading `[offset, offset + n)` out of
/// contents into which `bytes` (of length `n`) was just written at
/// `offset` yields `bytes`.
pub proof fn lemma_write_read_round_trip(contents: Seq<u8>, offset: int, bytes: Seq<u8>)
    requires
        0 <= offset,
        offset + bytes.len() <= contents.len(),
    ensures
        (contents.take(offset) + bytes + contents.skip(offset + bytes.len())).subrange(
            offset,
            offset + bytes.len(),
        ) == bytes,
{
    assert((contents.take(offset) + bytes + contents.skip(offset + bytes.len())).subrange(
        offset,
        offset + bytes.len(),
    ) =~= bytes);
}

/// A virtual memory object: a closed polymorphic surface over the two
/// backing variants.
pub enum VMObject {
    /// Lazily committed backing: pages get physical frames on first write
    /// or commit.
    Paged {
        /// Object identity and signal state.
        base: KObjectBase,
        /// Current contents; uncommitted pages read as zero.
        data: Vec<u8>,
        /// Per-page commit flag: does the page have a physical frame?
        committed: Vec<bool>,
    },
    /// Eagerly backed fixed physical range (device memory, firmware
    /// reservations); fixed-size by construction.
    Physical {
        /// Object identity and signal state.
        base: KObjectBase,
        /// First physical address of the backing range.
        paddr: usize,
        /// Current contents, fully backed from creation.
        data: Vec<u8>,
    },
}

impl VMObject {
    /// The current contents, one byte per offset.
    pub closed spec fn contents(self) -> Seq<u8> {
        match self {
            VMObject::Paged { data, .. } => data@,
            VMObject::Physical { data, .. } => data@,
        }
    }

    /// Current length in bytes.
    pub open spec fn size(self) -> nat {
        self.contents().len()
    }

    /// Number of pages the object spans.
    pub open spec fn page_count(self) -> nat {
        (self.size() / PAGE_SIZE as nat)
    }

    /// Per-page commit flags. A physical object is fully committed from
    /// creation.
    pub closed spec fn committed_view(self) -> Seq<bool> {
        match self {
            VMObject::Paged { committed, .. } => committed@,
            VMObject::Physical { .. } => Seq::new(self.page_count(), |page: int| true),
        }
    }

    /// Is this the paged variant?
    pub closed spec fn is_paged(self) -> bool {
        self is Paged
    }

    /// Well-formedness: the length is a whole number of pages and the
    /// commit flags cover exactly those pages.
    pub closed spec fn wf(self) -> bool {
        match self {
            VMObject::Paged { data, committed, .. } => committed@.len() * PAGE_SIZE == data@.len(),
            VMObject::Physical { data, .. } => data@.len() as int % PAGE_SIZE as int == 0,
        }
    }

    /// A fresh paged object spanning `pages` pages, zero-filled, with no
    /// page committed yet.
    pub fn new_paged(koid: u64, pages: usize) -> (v: Self)
        requires
            pages * PAGE_SIZE <= usize::MAX,
        ensures
            v.wf(),
            v.is_paged(),
            v.size() == pages * PAGE_SIZE,
            v.contents() == Seq::new((pages * PAGE_SIZE) as nat, |i: int| 0u8),
            v.committed_view() == Seq::new(pages as nat, |i: int| false),
    {
        let len = pages * PAGE_SIZE;
        VMObject::Paged {
            base: KObjectBase::new(koid),
            data: zero_vec(len),
            committed: bool_vec(pages, false),
        }
    }

    /// A fresh physical object over the fixed range of `pages` pages at
    /// physical address `paddr`: eagerly backed, fixed-size.
    pub fn new_physical(koid: u64, paddr: usize, pages: usize) -> (v: Self)
        requires
            pages * PAGE_SIZE <= usize::MAX,
        ensures
            v.wf(),
            !v.is_paged(),
            v.size() == pages * PAGE_SIZE,
            v.contents() == Seq::new((pages * PAGE_SIZE) as nat, |i: int| 0u8),
    {
        let len = pages * PAGE_SIZE;
        VMObject::Physical { base: KObjectBase::new(koid), paddr, data: zero_vec(len) }
    }

    /// The backing bytes, whichever the variant.
    fn bytes(&self) -> (d: &Vec<u8>)
        ensures
            d@ == self.contents(),
    {
        match self {
            VMObject::Paged { data, .. } => data,
            VMObject::Physical { data, .. } => data,
        }
    }

    /// Current length of the object in bytes.
    pub fn len(&self) -> (n: usize)
        ensures
            n == self.size(),
    {
        self.bytes().len()
    }

    /// Read `len` bytes starting at byte `offset`. Fails with
    /// `OUT_OF_RANGE`, reading nothing, exactly when the range reaches past
    /// the current length.
    pub fn read(&self, offset: usize, len: usize) -> (r: ZxResult<Vec<u8>>)
        ensures
            offset + len <= self.size() ==> (r matches Ok(bytes) && bytes@ == self.contents(
            ).subrange(offset as int, offset as int + len as int)),
            offset + len > self.size() ==> r == Err::<Vec<u8>, ZxError>(ZxError::OUT_OF_RANGE),
    {
        let data = self.bytes();
        if len > data.len() || offset > data.len() - len {
            return Err(ZxError::OUT_OF_RANGE);
        }
        Ok(read_bytes(data, offset, len))
    }

    /// Write all of `buf` starting at byte `offset`. Fails with
    /// `OUT_OF_RANGE`, changing nothing, exactly when the range reaches
    /// past the current length. On the paged variant the touched pages
    /// become committed (backing is allocated on first write); elsewhere
    /// the commit state keeps its meaning: a physical object stays fully
    /// committed.
    pub fn write(&mut self, offset: usize, buf: &Vec<u8>) -> (r: ZxResult<()>)
        requires
            old(self).wf(),
        ensures
            final(self).wf(),
            offset + buf@.len() <= old(self).size() ==> {
                &&& r == Ok::<(), ZxError>(())
                &&& final(self).contents() == old(self).contents().take(offset as int) + buf@
                    + old(self).contents().skip(offset as int + buf@.len() as int)
                &&& final(self).size() == old(self).size()
                &&& final(self).is_paged() == old(self).is_paged()
                &&& final(self).committed_view() == spec_commit(
                    old(self).committed_view(),
                    offset as int,
                    buf@.len() as int,
                )
            },
            offset + buf@.len() > old(self).size() ==> r == Err::<(), ZxError>(
                ZxError::OUT_OF_RANGE,
            ) && *final(self) == *old(self),
    {
        match self {
            VMObject::Paged { data, committed, .. } => {
                if buf.len() > data.len() || offset > data.len() - buf.len() {
                    return Err(ZxError::OUT_OF_RANGE);
                }
                write_bytes(data, offset, buf);
                commit_flags(committed, offset, buf.len());
                Ok(())
            },
            VMObject::Physical { data, .. } => {
                if buf.len() > data.len() || offset > data.len() - buf.len() {
                    return Err(ZxError::OUT_OF_RANGE);
                }
                write_bytes(data, offset, buf);
                proof {
                    lemma_commit_all_true(
                        data@.len() / PAGE_SIZE as nat,
                        offset as int,
                        buf@.len() as int,
                    );
                }
                Ok(())
            },
        }
    }

    /// Ensure physical backing exists for `[offset, offset + len)`.
    /// Idempotent: committing a committed range changes nothing. On the
    /// physical variant the body is a no-op — the range is backed from
    /// creation — and the commit state is unchanged. Fails with
    /// `OUT_OF_RANGE` exactly when the range reaches past the current
    /// length.
    pub fn commit(&mut self, offset: usize, len: usize) -> (r: ZxResult<()>)
        requires
            old(self).wf(),
        ensures
            final(self).wf(),
            offset + len <= old(self).size() ==> {
                &&& r == Ok::<(), ZxError>(())
                &&& final(self).contents() == old(self).contents()
                &&& final(self).size() == old(self).size()
                &&& final(self).is_paged() == old(self).is_paged()
                &&& final(self).committed_view() == spec_commit(
                    old(self).committed_view(),
                    offset as int,
                    len as int,
                )
            },
            offset + len > old(self).size() ==> r == Err::<(), ZxError>(ZxError::OUT_OF_RANGE)
                && *final(self) == *old(self),
    {
        match self {
            VMObject::Paged { data, committed, .. } => {
                if len > data.len() || offset > data.len() - len {
                    return Err(ZxError::OUT_OF_RANGE);
                }
                commit_flags(committed, offset, len);
                Ok(())
            },
            VMObject::Physical { data, .. } => {
                if len > data.len() || offset > data.len() - len {
                    return Err(ZxError::OUT_OF_RANGE);
                }
                proof {
                    lemma_commit_all_true(data@.len() / PAGE_SIZE as nat, offset as int, len as int);
                }
                Ok(())
            },
        }
    }

    /// Resize the object to `new_len` bytes. Only the paged variant
    /// supports resizing — the physical variant is fixed-size by
    /// construction and fails with `NOT_SUPPORTED`. Lengths are
    /// page-aligned at this layer: an unaligned `new_len` is refused with
    /// `INVALID_ARGS`. Shrinking discards the contents and decommits the
    /// pages past the new length; growing appends zero-filled,
    /// uncommitted pages.
    pub fn set_len(&mut self, new_len: usize) -> (r: ZxResult<()>)
        requires
            old(self).wf(),
        ensures
            final(self).wf(),
            !old(self).is_paged() ==> r == Err::<(), ZxError>(ZxError::NOT_SUPPORTED) && *final(self) == *old(self),
            old(self).is_paged() && new_len as int % PAGE_SIZE as int != 0 ==> r == Err::<
                (),
                ZxError,
            >(ZxError::INVALID_ARGS) && *final(self) == *old(self),
            old(self).is_paged() && new_len as int % PAGE_SIZE as int == 0 ==> {
                &&& r == Ok::<(), ZxError>(())
                &&& final(self).is_paged()
                &&& final(self).size() == new_len
                &&& new_len <= old(self).size() ==> final(self).contents() == old(self).contents().take(new_len as int) && final(self).committed_view() == old(self).committed_view().take(new_len as int / PAGE_SIZE as int)
                &&& new_len > old(self).size() ==> final(self).contents() == old(self).contents()
                    + Seq::new((new_len - old(self).size()) as nat, |i: int| 0u8) && final(self).committed_view() == old(self).committed_view() + Seq::new(
                    (new_len as int / PAGE_SIZE as int - old(self).committed_view().len()) as nat,
                    |i: int| false,
                )
            },
    {
        match self {
            VMObject::Paged { data, committed, .. } => {
                if new_len % PAGE_SIZE != 0 {
                    return Err(ZxError::INVALID_ARGS);
                }
                let new_pages = new_len / PAGE_SIZE;
                proof {
                    lemma_fundamental_div_mod(new_len as int, PAGE_SIZE as int);
                }
                if new_len <= data.len() {
                    proof {
                        vstd::arithmetic::div_mod::lemma_div_is_ordered(
                            new_len as int,
                            committed@.len() * PAGE_SIZE as int,
                            PAGE_SIZE as int,
                        );
                        vstd::arithmetic::div_mod::lemma_div_multiples_vanish(
                            committed@.len() as int,
                            PAGE_SIZE as int,
                        );
                        assert(committed@.len() * PAGE_SIZE as int == PAGE_SIZE as int
                            * committed@.len()) by (nonlinear_arith);
                    }
                    data.truncate(new_len);
                    committed.truncate(new_pages);
                } else {
                    proof {
                        vstd::arithmetic::div_mod::lemma_div_is_ordered(
                            committed@.len() * PAGE_SIZE as int,
                            new_len as int,
                            PAGE_SIZE as int,
                        );
                        vstd::arithmetic::div_mod::lemma_div_multiples_vanish(
                            committed@.len() as int,
                            PAGE_SIZE as int,
                        );
                        assert(committed@.len() * PAGE_SIZE as int == PAGE_SIZE as int
                            * committed@.len()) by (nonlinear_arith);
                    }
                    let ghost orig_data: Seq<u8> = data@;
                    let ghost orig_committed: Seq<bool> = committed@;
                    let mut i = data.len();
                    while i < new_len
                        invariant
                            i == data@.len(),
                            orig_data.len() <= i <= new_len,
                            data@ == orig_data + Seq::new(
                                (i - orig_data.len()) as nat,
                                |j: int| 0u8,
                            ),
                        decreases new_len - i,
                    {
                        data.push(0u8);
                        proof {
                            assert(data@ =~= orig_data + Seq::new(
                                (i + 1 - orig_data.len()) as nat,
                                |j: int| 0u8,
                            ));
                        }
                        i = i + 1;
                    }
                    let mut p = committed.len();
                    while p < new_pages
                        invariant
                            p == committed@.len(),
                            orig_committed.len() <= p <= new_pages,
                            committed@ == orig_committed + Seq::new(
                                (p - orig_committed.len()) as nat,
                                |j: int| false,
                            ),
                        decreases new_pages - p,
                    {
                        committed.push(false);
                        proof {
                            assert(committed@ =~= orig_committed + Seq::new(
                                (p + 1 - orig_committed.len()) as nat,
                                |j: int| false,
                            ));
                        }
                        p = p + 1;
                    }
                }
                Ok(())
            },
            VMObject::Physical { .. } => Err(ZxError::NOT_SUPPORTED),
        }
    }

    /// Install a mapping of `[offset, offset + len)` of this object at
    /// `vaddr` in the target address space, with the requested permission
    /// flags. The range must be whole pages (`INVALID_ARGS` otherwise) and
    /// must lie inside the object (`OUT_OF_RANGE` otherwise); an address
    /// space failure would be propagated, never swallowed.
    pub fn map_to(
        &self,
        page_table: &mut PageTable,
        vaddr: usize,
        offset: usize,
        len: usize,
        flags: MMUFlags,
    ) -> (r: ZxResult<()>)
        ensures
            len as int % PAGE_SIZE as int != 0 ==> r == Err::<(), ZxError>(ZxError::INVALID_ARGS)
                && *final(page_table) == *old(page_table),
            len as int % PAGE_SIZE as int == 0 && offset + len > self.size() ==> r == Err::<
                (),
                ZxError,
            >(ZxError::OUT_OF_RANGE) && *final(page_table) == *old(page_table),
            len as int % PAGE_SIZE as int == 0 && offset + len <= self.size() ==> {
                &&& r == Ok::<(), ZxError>(())
                &&& final(page_table).maps() == old(page_table).maps().push(
                    Mapping { vaddr, pages: (len as int / PAGE_SIZE as int) as usize, flags },
                )
            },
    {
        if len % PAGE_SIZE != 0 {
            return Err(ZxError::INVALID_ARGS);
        }
        let n = self.len();
        if len > n || offset > n - len {
            return Err(ZxError::OUT_OF_RANGE);
        }
        page_table.map_cont(vaddr, len / PAGE_SIZE, flags)
    }

    /// Remove the `len / PAGE_SIZE`-page mapping at `vaddr` from the
    /// target address space. An address space that does not report the
    /// range as mapped indicates a caller bookkeeping bug upstream, which
    /// must not be continued past silently: callers owe this operation a
    /// mapped range.
    pub fn unmap_from(
        &self,
        page_table: &mut PageTable,
        vaddr: usize,
        _offset: usize,
        len: usize,
    )
        requires
            old(page_table).has_mapping(vaddr, (len as int / PAGE_SIZE as int) as usize),
        ensures
            exists|k: int|
                {
                    &&& 0 <= k < old(page_table).maps().len()
                    &&& old(page_table).maps()[k].vaddr == vaddr
                    &&& old(page_table).maps()[k].pages == (len as int / PAGE_SIZE as int) as usize
                    &&& final(page_table).maps() == old(page_table).maps().remove(k)
                },
    {
        let pages = len / PAGE_SIZE;
        let r = page_table.unmap_cont(vaddr, pages);
        match r {
            Ok(_) => (),
            Err(_) => {
                proof {
                    assert(false);
                }
            },
        }
    }

    /// Is page number `page` backed by a physical frame?
    pub fn page_committed(&self, page: usize) -> (b: bool)
        requires
            self.wf(),
            page < self.committed_view().len(),
        ensures
            b == self.committed_view()[page as int],
    {
        match self {
            VMObject::Paged { committed, .. } => committed[page],
            VMObject::Physical { .. } => true,
        }
    }
}

/// A zero-filled byte vector of length `n`.
fn zero_vec(n: usize) -> (v: Vec<u8>)
    ensures
        v@ == Seq::new(n as nat, |i: int| 0u8),
{
    let mut v: Vec<u8> = Vec::new();
    let mut i: usize = 0;
    while i < n
        invariant
            i <= n,
            v@ == Seq::new(i as nat, |j: int| 0u8),
        decreases n - i,
    {
        v.push(0u8);
        proof {
            assert(v@ =~= Seq::new((i + 1) as nat, |j: int| 0u8));
        }
        i = i + 1;
    }
    v
}

/// A vector of `n` copies of `val`.
fn bool_vec(n: usize, val: bool) -> (v: Vec<bool>)
    ensures
        v@ == Seq::new(n as nat, |i: int| val),
{
    let mut v: Vec<bool> = Vec::new();
    let mut i: usize = 0;
    while i < n
        invariant
            i <= n,
            v@ == Seq::new(i as nat, |j: int| val),
        decreases n - i,
    {
        v.push(val);
        proof {
            assert(v@ =~= Seq::new((i + 1) as nat, |j: int| val));
        }
        i = i + 1;
    }
    v
}

/// Copy `[offset, offset + len)` out of `data` into a fresh vector.
fn read_bytes(data: &Vec<u8>, offset: usize, len: usize) -> (out: Vec<u8>)
    requires
        offset + len <= data@.len(),
    ensures
        out@ == data@.subrange(offset as int, offset as int + len as int),
{
    let n = data.len();
    let mut out: Vec<u8> = Vec::new();
    let mut i: usize = 0;
    while i < len
        invariant
            i <= len,
            offset + len <= n,
            n == data@.len(),
            out@ == data@.subrange(offset as int, offset as int + i as int),
        decreases len - i,
    {
        out.push(data[offset + i]);
        proof {
            assert(out@ =~= data@.subrange(offset as int, offset as int + i as int + 1));
        }
        i = i + 1;
    }
    out
}

/// Overwrite `[offset, offset + buf.len())` of `data` with `buf`.
fn write_bytes(data: &mut Vec<u8>, offset: usize, buf: &Vec<u8>)
    requires
        offset + buf@.len() <= old(data)@.len(),
    ensures
        final(data)@ == old(data)@.take(offset as int) + buf@ + old(data)@.skip(
            offset as int + buf@.len() as int,
        ),
{
    let n = data.len();
    let mut i: usize = 0;
    while i < buf.len()
        invariant
            i <= buf@.len(),
            offset + buf@.len() <= n,
            n == old(data)@.len(),
            data@.len() == old(data)@.len(),
            data@ == old(data)@.take(offset as int) + buf@.take(i as int) + old(data)@.skip(
                offset as int + i as int,
            ),
        decreases buf@.len() - i,
    {
        data.set(offset + i, buf[i]);
        proof {
            assert(data@ =~= old(data)@.take(offset as int) + buf@.take(i as int + 1) + old(
                data,
            )@.skip(offset as int + i as int + 1));
        }
        i = i + 1;
    }
    proof {
        assert(data@ =~= old(data)@.take(offset as int) + buf@ + old(data)@.skip(
            offset as int + buf@.len() as int,
        ));
    }
}

/// Mark every page overlapping `[offset, offset + len)` committed.
fn commit_flags(committed: &mut Vec<bool>, offset: usize, len: usize)
    requires
        offset + len <= old(committed)@.len() * PAGE_SIZE,
        old(committed)@.len() * PAGE_SIZE <= usize::MAX,
    ensures
        final(committed)@ == spec_commit(old(committed)@, offset as int, len as int),
{
    if len == 0 {
        return ;
    }
    let ghost orig: Seq<bool> = committed@;
    let n = committed.len();
    let mut result: Vec<bool> = Vec::new();
    let mut page: usize = 0;
    while page < n
        invariant
            n == orig.len(),
            page <= n,
            committed@ == orig,
            offset + len <= n * PAGE_SIZE,
            n * PAGE_SIZE <= usize::MAX,
            len > 0,
            result@.len() == page,
            forall|p: int|
                0 <= p < page ==> result@[p] == (orig[p] || page_overlaps(
                    p,
                    offset as int,
                    len as int,
                )),
        decreases n - page,
    {
        proof {
            let clen: int = n as int;
            let pg: int = page as int;
            assert(pg * PAGE_SIZE as int <= clen * PAGE_SIZE as int && (pg + 1) * PAGE_SIZE
                as int <= clen * PAGE_SIZE as int && pg * PAGE_SIZE as int + PAGE_SIZE as int
                == (pg + 1) * PAGE_SIZE as int) by (nonlinear_arith)
                requires
                    0 <= pg,
                    pg < clen,
                    PAGE_SIZE as int > 0,
            ;
        }
        let lo = page * PAGE_SIZE;
        let hi = lo + PAGE_SIZE;
        let overlaps = lo < offset + len && offset < hi;
        proof {
            assert(overlaps == page_overlaps(page as int, offset as int, len as int));
        }
        result.push(committed[page] || overlaps);
        page = page + 1;
    }
    *committed = result;
    proof {
        assert(committed@ =~= spec_commit(orig, offset as int, len as int));
    }
}

} // verus!
