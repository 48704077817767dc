//! Reading the record in which the process keeps its counters.

use crate::error::Error;
use crate::memory::value::Typed;
use crate::memory::{judged, Accessor, Memory, Transfer};
use crate::scheduler::Tick;
use vstd::prelude::*;

verus! {

/// Where the counters lie within the record. The places are not known to
/// this library; whoever knows the program supplies them.
#[derive(Clone, Copy, Debug, PartialEq, Eq, Structural)]
pub struct ClockLayout {
    /// Number of bytes of the record.
    pub size: usize,
    /// Offset of the tick counter, four bytes.
    pub tick_offset: usize,
    /// Offset of the frame counter, four bytes.
    pub frame_offset: usize,
    /// Offset of the length of a frame, four bytes.
    pub frame_time_offset: usize,
}

impl ClockLayout {
    /// Whether all three fields lie within the record.
    pub open spec fn fits(self) -> bool {
        &&& self.tick_offset + 4 <= self.size
        &&& self.frame_offset + 4 <= self.size
        &&& self.frame_time_offset + 4 <= self.size
    }

    /// Whether all three fields lie within the record.
    pub fn is_sound(&self) -> (r: bool)
        ensures
            r == self.fits(),
    {
        self.size >= 4 && self.tick_offset <= self.size - 4 && self.frame_offset <= self.size - 4
            && self.frame_time_offset <= self.size - 4
    }
}

/// The counters as they stand in the record.
#[derive(Clone, Copy, Debug, PartialEq, Eq, Structural)]
pub struct Clock {
    /// The tick counter.
    pub tick: Tick,
    /// The frame counter.
    pub frame: i32,
    /// Length of one frame in seconds, a single-precision number held as
    /// its 32 bits.
    pub frame_time: u32,
}

/// The value of type `T` that stands at `offset` in `record`.
pub open spec fn field<T: Typed>(record: Seq<u8>, offset: int) -> T {
    T::from_bytes(record.subrange(offset, offset + T::width()))
}

/// The value of type `T` that stands at `offset` in `record`.
pub fn decode_at<T: Typed>(record: &Vec<u8>, offset: usize) -> (value: T)
    requires
        offset + T::width() <= record@.len(),
    ensures
        value == field::<T>(record@, offset as int),
{
    let width = T::size();
    let len = record.len();
    let mut bytes: Vec<u8> = Vec::new();
    let mut i: usize = 0;
    while i < width
        invariant
            i <= width,
            width == T::width(),
            offset + width <= record@.len() == len,
            bytes@.len() == i,
            forall|j: int| 0 <= j < i ==> bytes@[j] == record@[offset + j],
        decreases width - i,
    {
        bytes.push(record[offset + i]);
        i += 1;
    }
    assert(bytes@ =~= record@.subrange(offset as int, offset + T::width()));
    T::decode(&bytes)
}

/// The counters that a record holds.
pub open spec fn clock_of(layout: ClockLayout, record: Seq<u8>) -> Clock {
    Clock {
        tick: Tick { bits: field::<u32>(record, layout.tick_offset as int) },
        frame: field::<i32>(record, layout.frame_offset as int),
        frame_time: field::<u32>(record, layout.frame_time_offset as int),
    }
}

/// What a read of the record hands back once the backend has answered
/// with `outcome` and the bytes `data`.
pub open spec fn clock_result(layout: ClockLayout, outcome: Transfer, data: Seq<u8>) -> Result<
    Clock,
    Error,
> {
    match judged(outcome, layout.size as nat, Error::ShortRead) {
        Ok(_) => Ok(clock_of(layout, data)),
        Err(e) => Err(e),
    }
}

/// Reads the record at `address` in one transfer and takes the counters
/// from it.
pub fn read_clock<M: Memory>(memory: &M, address: usize, layout: &ClockLayout) -> (r: Result<
    Clock,
    Error,
>)
    requires
        layout.fits(),
    ensures
        exists|outcome: Transfer, data: Seq<u8>| #[trigger]
            memory.may_fetch(address, layout.size as nat, outcome, data) && r == clock_result(
                *layout,
                outcome,
                data,
            ),
{
    let mut record: Vec<u8> = vec![0u8; layout.size];
    match memory.read_into(address, &mut record) {
        Ok(_) => {
            let tick = decode_at::<u32>(&record, layout.tick_offset);
            let frame = decode_at::<i32>(&record, layout.frame_offset);
            let frame_time = decode_at::<u32>(&record, layout.frame_time_offset);
            Ok(Clock { tick: Tick { bits: tick }, frame, frame_time })
        },
        Err(e) => Err(e),
    }
}

} // verus!
