//! A backend over bytes that the caller owns, for exercising the accessor
//! without a second process.

use crate::error::Error;
use crate::memory::value::Typed;
use crate::memory::{
    backed_by, ends_string, gathered, image_answer, judged, read_result, reads_byte, Memory,
    Transfer,
};
use vstd::prelude::*;

verus! {

/// What a region lets its user do.
#[derive(Clone, Copy, Debug, PartialEq, Eq, Structural)]
pub enum Access {
    ReadWrite,
    ReadOnly,
    Denied,
}

/// A run of bytes addressed from zero, with a cap on how many bytes one
/// transfer moves. Address `a` is the byte `bytes[a]`; beyond the last byte
/// nothing can be moved.
#[derive(Debug)]
pub struct LocalRegion {
    pub bytes: Vec<u8>,
    pub limit: usize,
    pub access: Access,
}

impl LocalRegion {
    /// A readable and writable region without a cap.
    pub fn new(bytes: Vec<u8>) -> (region: LocalRegion)
        ensures
            region.bytes@ == bytes@,
            region.limit == usize::MAX,
            region.access == Access::ReadWrite,
    {
        LocalRegion { bytes, limit: usize::MAX, access: Access::ReadWrite }
    }

    /// A readable and writable region none of whose transfers moves more
    /// than `limit` bytes.
    pub fn capped(bytes: Vec<u8>, limit: usize) -> (region: LocalRegion)
        ensures
            region.bytes@ == bytes@,
            region.limit == limit,
            region.access == Access::ReadWrite,
    {
        LocalRegion { bytes, limit, access: Access::ReadWrite }
    }

    /// A region without a cap that grants `access`.
    pub fn guarded(bytes: Vec<u8>, access: Access) -> (region: LocalRegion)
        ensures
            region.bytes@ == bytes@,
            region.limit == usize::MAX,
            region.access == access,
    {
        LocalRegion { bytes, limit: usize::MAX, access }
    }

    /// Number of bytes that one transfer of `len` bytes at `address` moves:
    /// as many as were asked for, as the cap allows, and as lie between
    /// `address` and the end of the region.
    pub open spec fn reach(&self, address: usize, len: nat) -> nat {
        let room: nat = if address < self.bytes@.len() {
            (self.bytes@.len() - address) as nat
        } else {
            0
        };
        let wanted: nat = if len <= self.limit {
            len
        } else {
            self.limit as nat
        };
        if wanted <= room {
            wanted
        } else {
            room
        }
    }

    /// The answer to a request for `len` bytes at `address`.
    pub open spec fn fetched(&self, address: usize, len: nat) -> (Transfer, Seq<u8>) {
        if self.access == Access::Denied {
            (Transfer::Rejected, Seq::empty())
        } else {
            let n = self.reach(address, len);
            if n == 0 {
                (Transfer::Moved(0), Seq::empty())
            } else {
                (Transfer::Moved(n as usize), self.bytes@.subrange(address as int, address + n))
            }
        }
    }

    /// The answer to an offer of `bytes` at `address`, and what the region
    /// holds afterwards. A transfer that stops early has still written the
    /// bytes that it moved.
    pub open spec fn stored(&self, address: usize, bytes: Seq<u8>) -> (Transfer, Seq<u8>) {
        if self.access == Access::ReadWrite {
            let n = self.reach(address, bytes.len());
            (
                Transfer::Moved(n as usize),
                Seq::new(
                    self.bytes@.len(),
                    |i: int|
                        if address <= i < address + n {
                            bytes[i - address]
                        } else {
                            self.bytes@[i]
                        },
                ),
            )
        } else {
            (Transfer::Rejected, self.bytes@)
        }
    }

    fn span(&self, address: usize, len: usize) -> (n: usize)
        ensures
            n == self.reach(address, len as nat),
            n <= len,
            n > 0 ==> address + n <= self.bytes@.len(),
            self.bytes@.len() <= usize::MAX,
    {
        let room: usize = if address < self.bytes.len() {
            self.bytes.len() - address
        } else {
            0
        };
        let wanted: usize = if len <= self.limit {
            len
        } else {
            self.limit
        };
        if wanted <= room {
            wanted
        } else {
            room
        }
    }
}

impl Memory for LocalRegion {
    open spec fn may_fetch(&self, address: usize, len: nat, outcome: Transfer, data: Seq<u8>) -> bool {
        (outcome, data) == self.fetched(address, len)
    }

    open spec fn may_store(
        &self,
        address: usize,
        bytes: Seq<u8>,
        outcome: Transfer,
        after: LocalRegion,
    ) -> bool {
        &&& outcome == self.stored(address, bytes).0
        &&& after.bytes@ == self.stored(address, bytes).1
        &&& after.limit == self.limit
        &&& after.access == self.access
    }

    fn fetch(&self, address: usize, buffer: &mut Vec<u8>) -> (outcome: Transfer) {
        if self.access == Access::Denied {
            assert(buffer@.take(0) =~= Seq::<u8>::empty());
            return Transfer::Rejected;
        }
        let n = self.span(address, buffer.len());
        let mut i: usize = 0;
        while i < n
            invariant
                i <= n,
                n <= buffer@.len(),
                buffer@.len() == old(buffer)@.len(),
                n > 0 ==> address + n <= self.bytes@.len(),
                self.bytes@.len() <= usize::MAX,
                forall|j: int| 0 <= j < i ==> buffer@[j] == self.bytes@[address + j],
            decreases n - i,
        {
            buffer.set(i, self.bytes[address + i]);
            i += 1;
        }
        proof {
            if n == 0 {
                assert(buffer@.take(0) =~= Seq::<u8>::empty());
            } else {
                assert(buffer@.take(n as int) =~= self.bytes@.subrange(
                    address as int,
                    address + n,
                ));
            }
        }
        Transfer::Moved(n)
    }

    fn store(&mut self, address: usize, bytes: &Vec<u8>) -> (outcome: Transfer) {
        if self.access != Access::ReadWrite {
            return Transfer::Rejected;
        }
        let n = self.span(address, bytes.len());
        let mut i: usize = 0;
        while i < n
            invariant
                i <= n,
                n <= bytes@.len(),
                n > 0 ==> address + n <= old(self).bytes@.len(),
                old(self).bytes@.len() <= usize::MAX,
                self.bytes@.len() == old(self).bytes@.len(),
                self.limit == old(self).limit,
                self.access == old(self).access,
                forall|j: int|
                    0 <= j < self.bytes@.len() ==> self.bytes@[j] == if address <= j < address
                        + i {
                        bytes@[j - address]
                    } else {
                        old(self).bytes@[j]
                    },
            decreases n - i,
        {
            self.bytes.set(address + i, bytes[i]);
            i += 1;
        }
        assert(self.bytes@ =~= old(self).stored(address, bytes@).1);
        Transfer::Moved(n)
    }
}

/// Round trip: a value written to a place that lies within a writable
/// region, under a cap that lets it through in one transfer, is read back
/// from that place bit for bit. Whatever the region may answer to the
/// write, the write succeeds; whatever it may then answer to the read, the
/// read gives the value.
pub proof fn lemma_write_then_read<T: Typed>(region: LocalRegion, address: usize, value: T)
    requires
        region.access == Access::ReadWrite,
        address + T::width() <= region.bytes@.len(),
        T::width() <= region.limit,
    ensures
        forall|stored: Transfer, after: LocalRegion, fetched: Transfer, data: Seq<u8>|
            #![trigger region.may_store(address, value.to_bytes(), stored, after), after.may_fetch(address, T::width(), fetched, data)]
            region.may_store(address, value.to_bytes(), stored, after) && after.may_fetch(
                address,
                T::width(),
                fetched,
                data,
            ) ==> judged(stored, T::width(), Error::ShortWrite) is Ok && read_result::<T>(
                fetched,
                data,
            ) == Ok::<T, Error>(value),
{
    value.lemma_layout();
    let bytes = value.to_bytes();
    assert forall|stored: Transfer, after: LocalRegion, fetched: Transfer, data: Seq<u8>|
        #![trigger region.may_store(address, bytes, stored, after), after.may_fetch(address, T::width(), fetched, data)]
        region.may_store(address, bytes, stored, after) && after.may_fetch(
            address,
            T::width(),
            fetched,
            data,
        ) implies judged(stored, T::width(), Error::ShortWrite) is Ok && read_result::<T>(
        fetched,
        data,
    ) == Ok::<T, Error>(value) by {
        assert(region.reach(address, T::width()) == T::width());
        assert(after.reach(address, T::width()) == T::width());
        assert(data =~= bytes);
    }
}

/// A region whose cap lies below the size of a value answers a read and a
/// write of that value with fewer bytes than were asked for, and both fail
/// with the short-transfer error, leaving no silent success.
pub proof fn lemma_capped_transfer_is_short<T: Typed>(region: LocalRegion, address: usize, value: T)
    requires
        region.access == Access::ReadWrite,
        region.limit < T::width(),
    ensures
        read_result::<T>(
            region.fetched(address, T::width()).0,
            region.fetched(address, T::width()).1,
        ) == Err::<T, Error>(Error::ShortRead),
        judged(region.stored(address, value.to_bytes()).0, T::width(), Error::ShortWrite) == Err::<
            (),
            Error,
        >(Error::ShortWrite),
{
    value.lemma_layout();
}

/// A region that grants reading and has no cap answers every read from the
/// bytes it holds, which are all the memory there is to read.
pub proof fn lemma_region_is_image(region: &LocalRegion)
    requires
        region.access != Access::Denied,
        region.limit == usize::MAX,
    ensures
        backed_by(region, region.bytes@),
{
    vstd::std_specs::vec::axiom_spec_len(&region.bytes);
    assert(region.bytes@.len() == region.bytes.len());
    assert forall|address: usize, len: nat, outcome: Transfer, data: Seq<u8>| #[trigger]
        region.may_fetch(address, len, outcome, data) implies (outcome, data) == image_answer(
        region.bytes@,
        address,
        len,
    ) by {
    }
}

/// In a region that grants reading and lets single bytes through, what a
/// byte-by-byte read gathers is settled by the bytes of the region: it is
/// the run that starts at `address` and ends before the first zero, at
/// the end of the region, or at `limit` bytes.
pub proof fn lemma_string_in_region(
    region: &LocalRegion,
    address: usize,
    limit: usize,
    bytes: Seq<u8>,
)
    requires
        region.access != Access::Denied,
        region.limit >= 1,
        gathered(region, address, limit, bytes),
    ensures
        bytes.len() > 0 ==> address + bytes.len() <= region.bytes@.len(),
        forall|i: int|
            0 <= i < bytes.len() ==> #[trigger] bytes[i] == region.bytes@[address + i] && bytes[i]
                != 0,
        bytes.len() < limit ==> address + bytes.len() >= region.bytes@.len()
            || region.bytes@[address + bytes.len()] == 0,
{
    vstd::std_specs::vec::axiom_spec_len(&region.bytes);
    assert(region.bytes@.len() == region.bytes.len());
    assert forall|i: int| 0 <= i < bytes.len() implies address + i < region.bytes@.len()
        && #[trigger] bytes[i] == region.bytes@[address + i] && bytes[i] != 0 by {
        assert(reads_byte(region, address + i, Ok(bytes[i])));
        let at = (address + i) as usize;
        let (outcome, data) = choose|outcome: Transfer, data: Seq<u8>| #[trigger]
            region.may_fetch(at, 1, outcome, data) && Ok::<u8, Error>(bytes[i]) == read_result::<
                u8,
            >(outcome, data);
        assert(region.reach(at, 1) == 1);
        assert(data[0] == region.bytes@[at as int]);
    }
    if bytes.len() > 0 {
        let last = bytes.len() - 1;
        assert(bytes[last] == region.bytes@[address + last]);
    }
    if bytes.len() < limit {
        let at = address + bytes.len();
        assert(ends_string(region, at));
        if at <= usize::MAX && at < region.bytes@.len() {
            let r = choose|r: Result<u8, Error>| #[trigger]
                reads_byte(region, at, r) && !(r matches Ok(byte) && byte != 0);
            let (outcome, data) = choose|outcome: Transfer, data: Seq<u8>| #[trigger]
                region.may_fetch(at as usize, 1, outcome, data) && r == read_result::<u8>(
                    outcome,
                    data,
                );
            assert(region.reach(at as usize, 1) == 1);
            assert(data[0] == region.bytes@[at]);
        }
    }
}

} // verus!
