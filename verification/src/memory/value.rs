//! Fixed-size plain values and their layout in memory.

use vstd::bytes::*;
use vstd::prelude::*;

verus! {

/// A value of fixed size that travels to and from remote memory as a run of
/// bytes. Integers are laid out least significant byte first, as on every
/// target this library attaches to.
pub trait Typed: Sized {
    /// Number of bytes a value occupies.
    spec fn width() -> nat;

    /// The bytes that stand for the value in memory.
    spec fn to_bytes(&self) -> Seq<u8>;

    /// The value that a run of `width()` bytes stands for.
    spec fn from_bytes(bytes: Seq<u8>) -> Self;

    /// Every value occupies `width()` bytes and is recovered from them.
    proof fn lemma_layout(&self)
        ensures
            self.to_bytes().len() == Self::width(),
            Self::from_bytes(self.to_bytes()) == *self,
    ;

    fn size() -> (n: usize)
        ensures
            n == Self::width(),
    ;

    fn encode(&self) -> (bytes: Vec<u8>)
        ensures
            bytes@ == self.to_bytes(),
    ;

    fn decode(bytes: &Vec<u8>) -> (value: Self)
        requires
            bytes@.len() == Self::width(),
        ensures
            value == Self::from_bytes(bytes@),
    ;
}

impl Typed for u8 {
    open spec fn width() -> nat {
        1
    }

    open spec fn to_bytes(&self) -> Seq<u8> {
        seq![*self]
    }

    open spec fn from_bytes(bytes: Seq<u8>) -> u8 {
        bytes[0]
    }

    proof fn lemma_layout(&self) {
    }

    fn size() -> (n: usize) {
        1
    }

    fn encode(&self) -> (bytes: Vec<u8>) {
        let mut bytes: Vec<u8> = Vec::new();
        bytes.push(*self);
        assert(bytes@ =~= seq![*self]);
        bytes
    }

    fn decode(bytes: &Vec<u8>) -> (value: u8) {
        bytes[0]
    }
}

impl Typed for u16 {
    open spec fn width() -> nat {
        2
    }

    open spec fn to_bytes(&self) -> Seq<u8> {
        spec_u16_to_le_bytes(*self)
    }

    open spec fn from_bytes(bytes: Seq<u8>) -> u16 {
        spec_u16_from_le_bytes(bytes)
    }

    proof fn lemma_layout(&self) {
        lemma_auto_spec_u16_to_from_le_bytes();
        assert(spec_u16_to_le_bytes(*self).len() == 2);
    }

    fn size() -> (n: usize) {
        2
    }

    fn encode(&self) -> (bytes: Vec<u8>) {
        u16_to_le_bytes(*self)
    }

    fn decode(bytes: &Vec<u8>) -> (value: u16) {
        u16_from_le_bytes(bytes.as_slice())
    }
}

impl Typed for u32 {
    open spec fn width() -> nat {
        4
    }

    open spec fn to_bytes(&self) -> Seq<u8> {
        spec_u32_to_le_bytes(*self)
    }

    open spec fn from_bytes(bytes: Seq<u8>) -> u32 {
        spec_u32_from_le_bytes(bytes)
    }

    proof fn lemma_layout(&self) {
        lemma_auto_spec_u32_to_from_le_bytes();
        assert(spec_u32_to_le_bytes(*self).len() == 4);
    }

    fn size() -> (n: usize) {
        4
    }

    fn encode(&self) -> (bytes: Vec<u8>) {
        u32_to_le_bytes(*self)
    }

    fn decode(bytes: &Vec<u8>) -> (value: u32) {
        u32_from_le_bytes(bytes.as_slice())
    }
}

impl Typed for u64 {
    open spec fn width() -> nat {
        8
    }

    open spec fn to_bytes(&self) -> Seq<u8> {
        spec_u64_to_le_bytes(*self)
    }

    open spec fn from_bytes(bytes: Seq<u8>) -> u64 {
        spec_u64_from_le_bytes(bytes)
    }

    proof fn lemma_layout(&self) {
        lemma_auto_spec_u64_to_from_le_bytes();
        assert(spec_u64_to_le_bytes(*self).len() == 8);
    }

    fn size() -> (n: usize) {
        8
    }

    fn encode(&self) -> (bytes: Vec<u8>) {
        u64_to_le_bytes(*self)
    }

    fn decode(bytes: &Vec<u8>) -> (value: u64) {
        u64_from_le_bytes(bytes.as_slice())
    }
}

impl Typed for i32 {
    open spec fn width() -> nat {
        4
    }

    open spec fn to_bytes(&self) -> Seq<u8> {
        spec_u32_to_le_bytes(*self as u32)
    }

    open spec fn from_bytes(bytes: Seq<u8>) -> i32 {
        spec_u32_from_le_bytes(bytes) as i32
    }

    proof fn lemma_layout(&self) {
        let x = *self;
        lemma_auto_spec_u32_to_from_le_bytes();
        assert(spec_u32_to_le_bytes(x as u32).len() == 4);
        assert((x as u32) as i32 == x) by (bit_vector);
    }

    fn size() -> (n: usize) {
        4
    }

    fn encode(&self) -> (bytes: Vec<u8>) {
        u32_to_le_bytes(*self as u32)
    }

    fn decode(bytes: &Vec<u8>) -> (value: i32) {
        u32_from_le_bytes(bytes.as_slice()) as i32
    }
}

impl Typed for i64 {
    open spec fn width() -> nat {
        8
    }

    open spec fn to_bytes(&self) -> Seq<u8> {
        spec_u64_to_le_bytes(*self as u64)
    }

    open spec fn from_bytes(bytes: Seq<u8>) -> i64 {
        spec_u64_from_le_bytes(bytes) as i64
    }

    proof fn lemma_layout(&self) {
        let x = *self;
        lemma_auto_spec_u64_to_from_le_bytes();
        assert(spec_u64_to_le_bytes(x as u64).len() == 8);
        assert((x as u64) as i64 == x) by (bit_vector);
    }

    fn size() -> (n: usize) {
        8
    }

    fn encode(&self) -> (bytes: Vec<u8>) {
        u64_to_le_bytes(*self as u64)
    }

    fn decode(bytes: &Vec<u8>) -> (value: i64) {
        u64_from_le_bytes(bytes.as_slice()) as i64
    }
}

/// A remote address is stored as eight bytes, whatever the width of `usize`
/// on the machine that reads it.
impl Typed for usize {
    open spec fn width() -> nat {
        8
    }

    open spec fn to_bytes(&self) -> Seq<u8> {
        spec_u64_to_le_bytes(*self as u64)
    }

    open spec fn from_bytes(bytes: Seq<u8>) -> usize {
        spec_u64_from_le_bytes(bytes) as usize
    }

    proof fn lemma_layout(&self) {
        let x = *self;
        lemma_auto_spec_u64_to_from_le_bytes();
        assert(spec_u64_to_le_bytes(x as u64).len() == 8);
    }

    fn size() -> (n: usize) {
        8
    }

    fn encode(&self) -> (bytes: Vec<u8>) {
        u64_to_le_bytes(*self as u64)
    }

    fn decode(bytes: &Vec<u8>) -> (value: usize) {
        u64_from_le_bytes(bytes.as_slice()) as usize
    }
}

/// A run of bytes of fixed length stands for itself.
impl<const N: usize> Typed for [u8; N] {
    open spec fn width() -> nat {
        N as nat
    }

    open spec fn to_bytes(&self) -> Seq<u8> {
        self@
    }

    open spec fn from_bytes(bytes: Seq<u8>) -> [u8; N] {
        choose|array: [u8; N]| array@ == bytes
    }

    proof fn lemma_layout(&self) {
        let back = Self::from_bytes(self@);
        assert(back@ == self@);
        assert(back =~= *self);
    }

    fn size() -> (n: usize) {
        N
    }

    fn encode(&self) -> (bytes: Vec<u8>) {
        let mut bytes: Vec<u8> = Vec::new();
        let mut i: usize = 0;
        while i < N
            invariant
                i <= N,
                bytes@.len() == i,
                forall|j: int| 0 <= j < i ==> bytes@[j] == self@[j],
            decreases N - i,
        {
            bytes.push(self[i]);
            i += 1;
        }
        assert(bytes@ =~= self@);
        bytes
    }

    fn decode(bytes: &Vec<u8>) -> (value: [u8; N]) {
        let mut value = [0u8; N];
        let mut i: usize = 0;
        while i < N
            invariant
                i <= N,
                bytes@.len() == N,
                forall|j: int| 0 <= j < i ==> value@[j] == bytes@[j],
            decreases N - i,
        {
            value[i] = bytes[i];
            i += 1;
        }
        assert(value@ =~= bytes@);
        assert(value =~= Self::from_bytes(bytes@));
        value
    }
}

} // verus!
