//! An owned handle on an open byte resource, with cursor-advancing reads,
//! absolute and relative seeks, and explicit error signaling on open.
//!
//! The resource is held as plain bytes together with the cursor that the
//! resource owns. Attaching a handle to something outside the process (a
//! file on disk) is the caller's business: the caller performs the lookup
//! and hands `open` either the resource's bytes or, where the lookup
//! failed, nothing at all.

use vstd::prelude::*;
use vstd::pervasive::VecAdditionalExecFns;

verus! {

/// The one error the component signals: the resource could not be opened.
/// No handle exists on this path, so no resource representation can leak.
#[derive(Clone, Copy, Debug, PartialEq, Eq, Structural)]
pub enum Error {
    NotFound,
}

/// An owned, exclusively held reference to an open byte resource.
///
/// A `Handle` either wraps a valid resource or does not exist: the only
/// constructor is a successful `open`, and the resource is released when
/// the handle is dropped. The cursor belongs to the resource, not to any
/// caller-visible cache.
pub struct Handle {
    data: Vec<u8>,
    pos: usize,
}

/// How many bytes remain between `pos` and the end of `content`.
pub open spec fn bytes_available(content: Seq<u8>, pos: nat) -> nat {
    if pos < content.len() {
        (content.len() - pos) as nat
    } else {
        0
    }
}

/// How many bytes a read of `amount` transfers when the cursor stands at
/// `pos`: the requested amount, shortened at end-of-stream.
pub open spec fn transfer_count(content: Seq<u8>, pos: nat, amount: nat) -> nat {
    if amount <= bytes_available(content, pos) {
        amount
    } else {
        bytes_available(content, pos)
    }
}

/// The bytes a read of `amount` transfers when the cursor stands at `pos`.
pub open spec fn transferred_bytes(content: Seq<u8>, pos: nat, amount: nat) -> Seq<u8> {
    if pos <= content.len() {
        content.subrange(pos as int, pos + transfer_count(content, pos, amount) as int)
    } else {
        Seq::<u8>::empty()
    }
}

impl Handle {
    /// The full byte content of the resource this handle owns.
    pub closed spec fn content(&self) -> Seq<u8> {
        self.data@
    }

    /// The resource's current cursor.
    pub closed spec fn cursor(&self) -> nat {
        self.pos as nat
    }

    /// Well-formed: size and cursor fit the native layer's signed offset
    /// domain, so `tell` can always report the cursor.
    pub open spec fn wf(&self) -> bool {
        self.content().len() <= isize::MAX as int && self.cursor() <= isize::MAX as int
    }
}

/// Opens a resource in read-only mode. The caller hands over what its
/// lookup produced: the resource's bytes, or `None` where the path did not
/// resolve or could not be opened for reading.
///
/// On success the returned handle owns the resource with its cursor at the
/// start; on failure a `NotFound` error is returned and no handle — and so
/// no partial state — exists.
pub fn open(resource: Option<Vec<u8>>) -> (r: Result<Handle, Error>)
    requires
        resource matches Some(content) ==> content@.len() <= isize::MAX as int,
    ensures
        r is Ok <==> resource is Some,
        r is Err ==> r == Err::<Handle, Error>(Error::NotFound),
        resource matches Some(content) ==> (r matches Ok(h)
            && h.wf()
            && h.content() == content@
            && h.cursor() == 0),
{
    match resource {
        Some(data) => Ok(Handle { data, pos: 0 }),
        None => Err(Error::NotFound),
    }
}

/// Moves the cursor to an absolute position, counted from the start of
/// the resource. Positioning past the end is allowed; reads there simply
/// transfer nothing. A negative absolute position has no meaning, so the
/// operation is infallible by contract on the positions it admits.
pub fn seek_from_begin(handle: &mut Handle, offset: isize)
    requires
        old(handle).wf(),
        0 <= offset,
    ensures
        final(handle).wf(),
        final(handle).content() == old(handle).content(),
        final(handle).cursor() == offset as int,
{
    handle.pos = offset as usize;
}

/// Moves the cursor by a signed distance from its current position. The
/// target must stay inside the native layer's signed offset domain; within
/// it the operation is infallible by contract.
pub fn seek_from_current(handle: &mut Handle, offset: isize)
    requires
        old(handle).wf(),
        0 <= old(handle).cursor() + offset <= isize::MAX as int,
    ensures
        final(handle).wf(),
        final(handle).content() == old(handle).content(),
        final(handle).cursor() == old(handle).cursor() + offset,
{
    if offset >= 0 {
        handle.pos = handle.pos + (offset as usize);
    } else {
        handle.pos = handle.pos - ((-offset) as usize);
    }
}

/// Moves the cursor by a signed distance from the end of the resource;
/// negative offsets move backward from the end, so an offset of `-1`
/// stands on the last byte. The target must stay inside the native
/// layer's signed offset domain; within it the operation is infallible by
/// contract.
pub fn seek_from_end(handle: &mut Handle, offset: isize)
    requires
        old(handle).wf(),
        0 <= old(handle).content().len() + offset <= isize::MAX as int,
    ensures
        final(handle).wf(),
        final(handle).content() == old(handle).content(),
        final(handle).cursor() == old(handle).content().len() + offset,
{
    let end: usize = handle.data.len();
    if offset >= 0 {
        handle.pos = end + (offset as usize);
    } else {
        handle.pos = end - ((-offset) as usize);
    }
}

/// Asks that buffered state for the resource be persisted. The resource
/// here is read-only and held in full, so there is nothing to write back:
/// the handle is left exactly as it was, and the operation is infallible
/// by contract.
pub fn flush(handle: &mut Handle)
    ensures
        *final(handle) == *old(handle),
{
}

/// Reports the resource's total byte length. The cursor is not moved.
pub fn size(handle: &Handle) -> (n: usize)
    ensures
        n == handle.content().len(),
{
    handle.data.len()
}

/// Reports the current cursor as a signed offset.
pub fn tell(handle: &Handle) -> (offset: isize)
    requires
        handle.wf(),
    ensures
        offset == handle.cursor() as int,
{
    handle.pos as isize
}

/// Reads up to `amount` bytes into `mem`, starting at byte `offset` of
/// `mem`, and reports how many bytes were transferred.
///
/// A request that does not fit its own buffer — `offset + amount` beyond
/// `mem`'s length — is a usage error: it returns `0` and touches neither
/// the resource nor the buffer. Otherwise the transfer starts at the
/// cursor, is shortened at end-of-stream, advances the cursor by exactly
/// the transferred count, and leaves every byte of `mem` outside
/// `offset..offset + count` as it was. Short transfers are signaled only
/// through the returned count, never as an error.
pub fn read_into(handle: &mut Handle, mem: &mut Vec<u8>, offset: usize, amount: usize) -> (n:
    usize)
    requires
        old(handle).wf(),
    ensures
        final(handle).wf(),
        final(handle).content() == old(handle).content(),
        final(mem)@.len() == old(mem)@.len(),
        old(mem)@.len() < offset + amount ==> (n == 0
            && *final(handle) == *old(handle)
            && final(mem)@ == old(mem)@),
        offset + amount <= old(mem)@.len() ==> {
            &&& n == transfer_count(old(handle).content(), old(handle).cursor(), amount as nat)
            &&& final(handle).cursor() == old(handle).cursor() + n
            &&& final(mem)@ == old(mem)@.subrange(0, offset as int) + transferred_bytes(
                old(handle).content(),
                old(handle).cursor(),
                amount as nat,
            ) + old(mem)@.subrange(offset + n, old(mem)@.len() as int)
        },
{
    if offset > mem.len() || amount > mem.len() - offset {
        return 0;
    }
    let avail: usize = if handle.pos < handle.data.len() {
        handle.data.len() - handle.pos
    } else {
        0
    };
    let n: usize = if amount <= avail {
        amount
    } else {
        avail
    };
    let start: usize = handle.pos;
    let dlen: usize = handle.data.len();
    let mlen: usize = mem.len();
    let mut i: usize = 0;
    while i < n
        invariant
            i <= n,
            offset + n <= mlen,
            n == 0 || start + n <= dlen,
            dlen == handle.data@.len(),
            mlen == mem@.len(),
            *handle == *old(handle),
            start == old(handle).cursor(),
            mem@.len() == old(mem)@.len(),
            forall|j: int| 0 <= j < offset ==> mem@[j] == old(mem)@[j],
            forall|j: int|
                offset <= j < offset + i ==> #[trigger] mem@[j] == handle.data@[start + (j
                    - offset)],
            forall|j: int| offset + i <= j < mem@.len() ==> mem@[j] == old(mem)@[j],
        decreases n - i,
    {
        let b: u8 = handle.data[start + i];
        mem.set(offset + i, b);
        i = i + 1;
    }
    handle.pos = start + n;
    proof {
        assert(mem@ =~= old(mem)@.subrange(0, offset as int) + transferred_bytes(
            old(handle).content(),
            old(handle).cursor(),
            amount as nat,
        ) + old(mem)@.subrange(offset + n, old(mem)@.len() as int));
    }
    n
}

/// Reads from the cursor into the whole of `mem`, filling it from its
/// start up to its full current length, and reports the transferred
/// count. Equivalent to `read_into(handle, mem, 0, mem.len())`.
pub fn read(handle: &mut Handle, mem: &mut Vec<u8>) -> (n: usize)
    requires
        old(handle).wf(),
    ensures
        final(handle).wf(),
        final(handle).content() == old(handle).content(),
        n == transfer_count(old(handle).content(), old(handle).cursor(), old(mem)@.len() as nat),
        final(handle).cursor() == old(handle).cursor() + n,
        final(mem)@.len() == old(mem)@.len(),
        final(mem)@ == transferred_bytes(
            old(handle).content(),
            old(handle).cursor(),
            old(mem)@.len() as nat,
        ) + old(mem)@.subrange(n as int, old(mem)@.len() as int),
{
    let len: usize = mem.len();
    let n: usize = read_into(handle, mem, 0, len);
    proof {
        assert(mem@ =~= transferred_bytes(
            old(handle).content(),
            old(handle).cursor(),
            old(mem)@.len() as nat,
        ) + old(mem)@.subrange(n as int, old(mem)@.len() as int));
    }
    n
}

/// Reads the whole resource: queries its size, allocates a buffer of
/// exactly that many bytes, and performs one full-size `read_into` from
/// the current cursor. With the cursor at the start the buffer comes back
/// equal to the resource's entire content; with the cursor further on,
/// the bytes past the transferred count keep their zero fill.
pub fn read_all(handle: &mut Handle) -> (mem: Vec<u8>)
    requires
        old(handle).wf(),
    ensures
        final(handle).wf(),
        final(handle).content() == old(handle).content(),
        mem@.len() == old(handle).content().len(),
        final(handle).cursor() == old(handle).cursor() + transfer_count(
            old(handle).content(),
            old(handle).cursor(),
            old(handle).content().len() as nat,
        ),
        mem@ == transferred_bytes(
            old(handle).content(),
            old(handle).cursor(),
            old(handle).content().len() as nat,
        ) + Seq::<u8>::new(
            (old(handle).content().len() - transfer_count(
                old(handle).content(),
                old(handle).cursor(),
                old(handle).content().len() as nat,
            )) as nat,
            |j: int| 0u8,
        ),
        old(handle).cursor() == 0 ==> mem@ == old(handle).content(),
{
    let sz: usize = size(handle);
    let mut mem: Vec<u8> = Vec::new();
    mem.resize(sz, 0u8);
    let n: usize = read_into(handle, &mut mem, 0, sz);
    proof {
        assert(mem@ =~= transferred_bytes(
            old(handle).content(),
            old(handle).cursor(),
            old(handle).content().len() as nat,
        ) + Seq::<u8>::new(
            (old(handle).content().len() - n) as nat,
            |j: int| 0u8,
        ));
        if old(handle).cursor() == 0 {
            assert(mem@ =~= old(handle).content());
        }
    }
    mem
}

/// Law: reads advance the cursor and preserve order, so one read of
/// `a1 + a2` bytes transfers exactly the bytes of a read of `a1` followed
/// by a read of `a2` from the advanced cursor — splitting one logical
/// read into two sequential reads over disjoint, contiguous ranges yields
/// the same concatenated bytes, and the same total count.
pub proof fn lemma_split_read(content: Seq<u8>, pos: nat, a1: nat, a2: nat)
    ensures
        transferred_bytes(content, pos, a1) + transferred_bytes(
            content,
            pos + transfer_count(content, pos, a1),
            a2,
        ) == transferred_bytes(content, pos, a1 + a2),
        transfer_count(content, pos, a1) + transfer_count(
            content,
            pos + transfer_count(content, pos, a1),
            a2,
        ) == transfer_count(content, pos, a1 + a2),
{
    assert(transferred_bytes(content, pos, a1) + transferred_bytes(
        content,
        pos + transfer_count(content, pos, a1),
        a2,
    ) =~= transferred_bytes(content, pos, a1 + a2));
}

/// Law: with the cursor one byte before the end of a non-empty resource —
/// where a seek of `-1` from the end leaves it — a one-byte read
/// transfers exactly the resource's last byte.
pub proof fn lemma_read_last_byte(content: Seq<u8>)
    requires
        1 <= content.len(),
    ensures
        transfer_count(content, (content.len() - 1) as nat, 1) == 1,
        transferred_bytes(content, (content.len() - 1) as nat, 1) == seq![content.last()],
{
    assert(transferred_bytes(content, (content.len() - 1) as nat, 1) =~= seq![content.last()]);
}

} // verus!
