//! The remote memory accessor: what a backend must offer, and the typed
//! operations built on it.

use crate::error::Error;
use crate::memory::value::Typed;
use vstd::prelude::*;
use vstd::utf8::{decode_utf8, valid_utf8};

pub mod linux;
pub mod pattern;
pub mod region;
pub mod value;
pub mod windows;

verus! {

/// A loaded executable or shared library image in the address space of the
/// process.
#[derive(Debug, Clone)]
pub struct Module {
    pub name: String,
    pub base_address: usize,
    pub size: usize,
}

/// What an operating-system copy between two address spaces reported.
#[derive(Clone, Copy, Debug, PartialEq, Eq, Structural)]
pub enum Transfer {
    /// The call was refused outright.
    Rejected,
    /// The call went through and moved this many bytes.
    Moved(usize),
}

impl Transfer {
    /// Number of bytes that arrived; none when the call was refused.
    pub open spec fn count(self) -> nat {
        match self {
            Transfer::Rejected => 0,
            Transfer::Moved(n) => n as nat,
        }
    }

    pub fn moved(&self) -> (n: usize)
        ensures
            n == self.count(),
    {
        match self {
            Transfer::Rejected => 0,
            Transfer::Moved(n) => *n,
        }
    }
}

/// The verdict on a transfer that was meant to move exactly `len` bytes:
/// a refusal is `AccessDenied`, any other count than `len` is the given
/// short-transfer error, and only the full count is a success.
pub open spec fn judged(outcome: Transfer, len: nat, short: Error) -> Result<(), Error> {
    match outcome {
        Transfer::Rejected => Err(Error::AccessDenied),
        Transfer::Moved(n) => if n == len {
            Ok(())
        } else {
            Err(short)
        },
    }
}

/// The verdict on a transfer that was meant to move exactly `len` bytes.
pub fn judge(outcome: Transfer, len: usize, short: Error) -> (r: Result<(), Error>)
    ensures
        r == judged(outcome, len as nat, short),
{
    match outcome {
        Transfer::Rejected => Err(Error::AccessDenied),
        Transfer::Moved(n) => if n == len {
            Ok(())
        } else {
            Err(short)
        },
    }
}

/// No silent success: a transfer that reports any other count than the one
/// asked for fails with the short-transfer error, and a typed read of it
/// with `ShortRead`.
pub proof fn lemma_short_transfer_fails<T: Typed>(moved: usize, len: nat, short: Error, data: Seq<u8>)
    ensures
        moved != len ==> judged(Transfer::Moved(moved), len, short) == Err::<(), Error>(short),
        moved != T::width() ==> read_result::<T>(Transfer::Moved(moved), data) == Err::<T, Error>(
            Error::ShortRead,
        ),
{
}

/// The value that a typed read hands back once the backend has answered
/// with `outcome` and the bytes `data`.
pub open spec fn read_result<T: Typed>(outcome: Transfer, data: Seq<u8>) -> Result<T, Error> {
    match judged(outcome, T::width(), Error::ShortRead) {
        Ok(_) => Ok(T::from_bytes(data)),
        Err(e) => Err(e),
    }
}

/// Turns the answer to a request for one value into that value, or into
/// the error that the answer calls for.
pub fn finish_read<T: Typed>(outcome: Transfer, buffer: &Vec<u8>) -> (r: Result<T, Error>)
    requires
        buffer@.len() == T::width(),
    ensures
        r == read_result::<T>(outcome, buffer@.take(outcome.count() as int)),
{
    match judge(outcome, buffer.len(), Error::ShortRead) {
        Ok(_) => {
            assert(buffer@.take(outcome.count() as int) =~= buffer@);
            Ok(T::decode(buffer))
        },
        Err(e) => Err(e),
    }
}

/// The answer that a fixed image, addressed from zero, gives to a request
/// for `len` bytes at `address`: the bytes that the image holds from there
/// on, as many as were asked for and no more than it has.
pub open spec fn image_answer(image: Seq<u8>, address: usize, len: nat) -> (Transfer, Seq<u8>) {
    let room: nat = if address < image.len() {
        (image.len() - address) as nat
    } else {
        0
    };
    let n: nat = if len <= room {
        len
    } else {
        room
    };
    if n == 0 {
        (Transfer::Moved(0), Seq::empty())
    } else {
        (Transfer::Moved(n as usize), image.subrange(address as int, address + n))
    }
}

/// Whether a backend answers every read from the one image given, which
/// then is all the memory there is to read.
pub open spec fn backed_by<M: Memory>(memory: &M, image: Seq<u8>) -> bool {
    &&& image.len() <= usize::MAX
    &&& forall|address: usize, len: nat, outcome: Transfer, data: Seq<u8>| #[trigger]
        memory.may_fetch(address, len, outcome, data) ==> (outcome, data) == image_answer(
            image,
            address,
            len,
        )
}

/// The error of `String::from_utf8`, carried through unopened.
#[verifier::external_type_specification]
#[verifier::external_body]
pub struct ExFromUtf8Error(std::string::FromUtf8Error);

/// Calls `String::from_utf8`. Trusted: the call succeeds exactly on
/// well-formed UTF-8, and then hands back the text that the bytes encode.
#[verifier::external_body]
fn text_from_utf8(bytes: Vec<u8>) -> (r: Result<String, std::string::FromUtf8Error>)
    ensures
        match r {
            Ok(text) => valid_utf8(bytes@) && text@ == decode_utf8(bytes@),
            Err(_) => !valid_utf8(bytes@),
        },
{
    String::from_utf8(bytes)
}

/// The text that a run of bytes read from a process stands for:
/// `InvalidText` where the bytes are not well-formed UTF-8.
pub fn finish_string(bytes: Vec<u8>) -> (r: Result<String, Error>)
    ensures
        match r {
            Ok(text) => valid_utf8(bytes@) && text@ == decode_utf8(bytes@),
            Err(e) => e == Error::InvalidText && !valid_utf8(bytes@),
        },
{
    match text_from_utf8(bytes) {
        Ok(text) => Ok(text),
        Err(_) => Err(Error::InvalidText),
    }
}

/// A backend that moves bytes out of and into the memory of one attached
/// process.
///
/// A backend supplies the two raw transfers, `fetch` and `store`. What it
/// may answer is a relation, not a function: the process runs on while it is
/// read, so two equal requests need not be answered alike. A backend that
/// says nothing of itself is taken to answer anything that the clauses of
/// `fetch` and `store` allow; a backend over memory that the caller owns
/// narrows both relations to one answer.
pub trait Memory: Sized {
    /// Whether a request for `len` bytes at `address` may be answered with
    /// `outcome`, `data` being the bytes that arrived.
    open spec fn may_fetch(&self, address: usize, len: nat, outcome: Transfer, data: Seq<u8>) -> bool {
        true
    }

    /// Whether an offer of `bytes` at `address` may be answered with
    /// `outcome`, leaving the backend as `after`.
    open spec fn may_store(&self, address: usize, bytes: Seq<u8>, outcome: Transfer, after: Self) -> bool {
        true
    }

    /// Copies up to `buffer.len()` bytes from `address` into the front of
    /// `buffer` and reports how many arrived.
    fn fetch(&self, address: usize, buffer: &mut Vec<u8>) -> (outcome: Transfer)
        ensures
            final(buffer)@.len() == old(buffer)@.len(),
            outcome.count() <= old(buffer)@.len(),
            self.may_fetch(
                address,
                old(buffer)@.len(),
                outcome,
                final(buffer)@.take(outcome.count() as int),
            ),
    ;

    /// Copies up to `bytes.len()` bytes to `address` and reports how many
    /// were taken.
    fn store(&mut self, address: usize, bytes: &Vec<u8>) -> (outcome: Transfer)
        ensures
            outcome.count() <= bytes@.len(),
            old(self).may_store(address, bytes@, outcome, *final(self)),
    ;
}

/// Whether a read of the single byte at `at` may end in `r`. No byte lies
/// beyond the last address.
pub open spec fn reads_byte<M: Memory>(memory: &M, at: int, r: Result<u8, Error>) -> bool {
    &&& 0 <= at <= usize::MAX
    &&& exists|outcome: Transfer, data: Seq<u8>| #[trigger]
        memory.may_fetch(at as usize, 1, outcome, data) && r == read_result::<u8>(outcome, data)
}

/// Whether a read of the single byte at `at` may end the gathering of a
/// string: the address does not exist, the read fails, or the byte is zero.
pub open spec fn ends_string<M: Memory>(memory: &M, at: int) -> bool {
    ||| at > usize::MAX
    ||| exists|r: Result<u8, Error>| #[trigger]
        reads_byte(memory, at, r) && !(r matches Ok(byte) && byte != 0)
}

/// Whether reading byte after byte from `address` may have gathered
/// `bytes`: each of them was read in its place and is not zero, and they
/// stop either at `limit` bytes or before a read that ends the string.
pub open spec fn gathered<M: Memory>(memory: &M, address: usize, limit: usize, bytes: Seq<u8>) -> bool {
    &&& bytes.len() <= limit
    &&& forall|i: int|
        0 <= i < bytes.len() ==> bytes[i] != 0 && reads_byte(
            memory,
            address + i,
            Ok(#[trigger] bytes[i]),
        )
    &&& bytes.len() < limit ==> ends_string(memory, address + bytes.len())
}

/// The typed operations on the memory of a process. Every backend has
/// them, and has them as they stand here: none can bring its own.
pub trait Accessor: Memory {
    /// Fills `buffer` from `address`, or fails: with `AccessDenied` when the
    /// transfer is refused, with `ShortRead` when it stops early.
    fn read_into(&self, address: usize, buffer: &mut Vec<u8>) -> (r: Result<(), Error>)
        ensures
            final(buffer)@.len() == old(buffer)@.len(),
            exists|outcome: Transfer, data: Seq<u8>| #[trigger]
                self.may_fetch(address, old(buffer)@.len(), outcome, data) && r == judged(
                    outcome,
                    old(buffer)@.len(),
                    Error::ShortRead,
                ) && (r is Ok ==> final(buffer)@ == data),
    {
        let outcome = self.fetch(address, buffer);
        let r = judge(outcome, buffer.len(), Error::ShortRead);
        proof {
            if r is Ok {
                assert(buffer@.take(outcome.count() as int) =~= buffer@);
            }
        }
        r
    }

    /// Reads one value of type `T` from `address`.
    fn read<T: Typed>(&self, address: usize) -> (r: Result<T, Error>)
        ensures
            exists|outcome: Transfer, data: Seq<u8>| #[trigger]
                self.may_fetch(address, T::width(), outcome, data) && r == read_result::<T>(
                    outcome,
                    data,
                ),
    {
        let mut buffer: Vec<u8> = vec![0u8; T::size()];
        let outcome = self.fetch(address, &mut buffer);
        finish_read::<T>(outcome, &buffer)
    }

    /// Writes one value of type `T` to `address`, or fails: with
    /// `AccessDenied` when the transfer is refused, with `ShortWrite` when
    /// it stops early.
    fn write<T: Typed>(&mut self, address: usize, value: T) -> (r: Result<(), Error>)
        ensures
            exists|outcome: Transfer| #[trigger]
                old(self).may_store(address, value.to_bytes(), outcome, *final(self)) && r
                    == judged(outcome, T::width(), Error::ShortWrite),
    {
        let bytes = value.encode();
        proof {
            value.lemma_layout();
        }
        let outcome = self.store(address, &bytes);
        judge(outcome, bytes.len(), Error::ShortWrite)
    }

    /// Reads bytes from `address` on, one at a time, up to the first that
    /// is zero or cannot be read, and no more than `limit` of them.
    fn read_until_nul(&self, address: usize, limit: usize) -> (bytes: Vec<u8>)
        ensures
            gathered(self, address, limit, bytes@),
    {
        let mut bytes: Vec<u8> = Vec::new();
        while bytes.len() < limit
            invariant
                bytes@.len() <= limit,
                forall|i: int|
                    0 <= i < bytes@.len() ==> bytes@[i] != 0 && reads_byte(
                        self,
                        address + i,
                        Ok(#[trigger] bytes@[i]),
                    ),
            decreases limit - bytes@.len(),
        {
            let at = match address.checked_add(bytes.len()) {
                Some(at) => at,
                None => {
                    return bytes;
                },
            };
            let r = self.read::<u8>(at);
            assert(reads_byte(self, at as int, r));
            match r {
                Ok(byte) => {
                    if byte == 0 {
                        return bytes;
                    }
                    bytes.push(byte);
                },
                Err(_) => {
                    return bytes;
                },
            }
        }
        bytes
    }

    /// Reads the text that starts at `address` and runs up to the first
    /// byte that is zero or cannot be read, or up to `limit` bytes. Fails
    /// with `InvalidText` where those bytes are not well-formed UTF-8, and
    /// in no other way.
    fn read_string(&self, address: usize, limit: usize) -> (r: Result<String, Error>)
        ensures
            exists|bytes: Seq<u8>| #[trigger]
                gathered(self, address, limit, bytes) && match r {
                    Ok(text) => valid_utf8(bytes) && text@ == decode_utf8(bytes),
                    Err(e) => e == Error::InvalidText && !valid_utf8(bytes),
                },
    {
        let bytes = self.read_until_nul(address, limit);
        finish_string(bytes)
    }
}

impl<M: Memory> Accessor for M {

}

} // verus!
