//! Locating a run of bytes in remote memory when no fixed offset is known.

use crate::error::Error;
use crate::memory::{backed_by, image_answer, Memory, Transfer};
use vstd::prelude::*;
use vstd::slice::slice_subrange;

verus! {

/// Number of bytes that the scanner asks for in one transfer, unless the
/// pattern is longer.
pub const CHUNK: usize = 4096;

/// Whether `needle` stands in `hay` at index `at`.
pub open spec fn stands_at(hay: Seq<u8>, needle: Seq<u8>, at: int) -> bool {
    &&& 0 <= at
    &&& at + needle.len() <= hay.len()
    &&& hay.subrange(at, at + needle.len()) == needle
}

/// Whether `at` is the first index at which `needle` stands in `hay`.
pub open spec fn first_at(hay: Seq<u8>, needle: Seq<u8>, at: int) -> bool {
    &&& stands_at(hay, needle, at)
    &&& forall|before: int| 0 <= before < at ==> !stands_at(hay, needle, before)
}

/// Whether `needle` stands nowhere in `hay`.
pub open spec fn absent(hay: Seq<u8>, needle: Seq<u8>) -> bool {
    forall|at: int| !stands_at(hay, needle, at)
}

fn matches_at(hay: &[u8], needle: &[u8], at: usize) -> (r: bool)
    requires
        at + needle@.len() <= hay@.len(),
    ensures
        r == stands_at(hay@, needle@, at as int),
{
    let mut k: usize = 0;
    assert(hay@.len() <= usize::MAX) by {
        vstd::slice::axiom_spec_len(hay);
    }
    while k < needle.len()
        invariant
            k <= needle@.len(),
            at + needle@.len() <= hay@.len() <= usize::MAX,
            forall|j: int| 0 <= j < k ==> hay@[at + j] == needle@[j],
        decreases needle@.len() - k,
    {
        if hay[at + k] != needle[k] {
            assert(hay@.subrange(at as int, at + needle@.len())[k as int] == hay@[at + k]);
            return false;
        }
        k += 1;
    }
    assert(hay@.subrange(at as int, at + needle@.len()) =~= needle@);
    true
}

/// The first index at which `needle` stands in `hay`, if it stands there at
/// all. The empty needle stands at index zero of any hay.
pub fn find_in(hay: &[u8], needle: &[u8]) -> (r: Option<usize>)
    ensures
        match r {
            Some(at) => first_at(hay@, needle@, at as int),
            None => absent(hay@, needle@),
        },
{
    if needle.len() > hay.len() {
        return None;
    }
    let last = hay.len() - needle.len();
    let mut at: usize = 0;
    loop
        invariant
            at <= last,
            last + needle@.len() == hay@.len(),
            forall|before: int| 0 <= before < at ==> !stands_at(hay@, needle@, before),
        decreases last - at,
    {
        if matches_at(hay, needle, at) {
            return Some(at);
        }
        if at == last {
            return None;
        }
        at += 1;
    }
}

/// Whether `needle` is how `hay` begins.
pub fn begins_with(hay: &[u8], needle: &[u8]) -> (r: bool)
    ensures
        r == stands_at(hay@, needle@, 0),
{
    if needle.len() > hay.len() {
        return false;
    }
    matches_at(hay, needle, 0)
}

/// What one transfer of a scan shows of an image: `data` is the `n` bytes
/// that the image holds from `from` on, no more bytes follow where fewer
/// than `asked` arrived, and the needle stands in `data` wherever it stands
/// in that part of the image.
spec fn shows(
    image: Seq<u8>,
    from: int,
    asked: int,
    n: int,
    data: Seq<u8>,
    needle: Seq<u8>,
) -> bool {
    &&& from + n <= image.len()
    &&& n < asked ==> from + n == image.len()
    &&& forall|at: int| #[trigger]
        stands_at(image, needle, at) && from <= at && at + needle.len() <= from + n ==> stands_at(
            data,
            needle,
            at - from,
        )
    &&& forall|k: int| #[trigger] stands_at(data, needle, k) ==> stands_at(image, needle, from + k)
}

proof fn lemma_shows(image: Seq<u8>, from: usize, asked: nat, needle: Seq<u8>)
    requires
        image.len() <= usize::MAX,
        from <= image.len(),
        0 < asked,
    ensures
        image_answer(image, from, asked).0 is Moved,
        shows(
            image,
            from as int,
            asked as int,
            image_answer(image, from, asked).0.count() as int,
            image_answer(image, from, asked).1,
            needle,
        ),
{
    let (outcome, data) = image_answer(image, from, asked);
    let n = outcome.count() as int;
    assert forall|at: int| #[trigger]
        stands_at(image, needle, at) && from <= at && at + needle.len() <= from + n implies stands_at(
        data,
        needle,
        at - from,
    ) by {
        assert(data.subrange(at - from, at - from + needle.len()) =~= image.subrange(
            at,
            at + needle.len(),
        ));
    }
    assert forall|k: int| #[trigger] stands_at(data, needle, k) implies stands_at(
        image,
        needle,
        from + k,
    ) by {
        assert(data.subrange(k, k + needle.len()) =~= image.subrange(
            from + k,
            from + k + needle.len(),
        ));
    }
}

/// Something that can be looked for in the memory of a process.
pub trait Pattern {
    /// Whether the pattern stands in `image` at index `at`.
    spec fn stands_in(&self, image: Seq<u8>, at: int) -> bool;

    /// The address of the first place in the memory of `process` at which
    /// the pattern stands.
    ///
    /// The scan starts at address zero and goes on while bytes arrive. A
    /// refused transfer ends it with `AccessDenied`; the end of readable
    /// memory ends it with `PatternNotFound`. Where the process answers from
    /// one fixed image, the result is the first place at which the pattern
    /// stands in that image, and `PatternNotFound` exactly if it stands
    /// nowhere in it, also where a match lies across two transfers. A
    /// backend that hands out bytes beyond the last address has them
    /// ignored.
    fn find<M: Memory>(&self, process: &M) -> (r: Result<usize, Error>)
        ensures
            r matches Err(e) ==> e == Error::AccessDenied || e == Error::PatternNotFound,
            r matches Ok(found) ==> exists|from: usize, len: nat, outcome: Transfer, data: Seq<u8>|
                #[trigger] process.may_fetch(from, len, outcome, data) && from <= found
                    && self.stands_in(data, found - from),
            forall|image: Seq<u8>| #[trigger]
                backed_by(process, image) ==> match r {
                    Ok(found) => self.stands_in(image, found as int) && forall|before: int|
                        0 <= before < found ==> !self.stands_in(image, before),
                    Err(e) => e == Error::PatternNotFound && forall|at: int|
                        !self.stands_in(image, at),
                },
    ;
}

/// A run of bytes to look for.
pub struct BytePattern {
    bytes: Vec<u8>,
}

impl View for BytePattern {
    type V = Seq<u8>;

    closed spec fn view(&self) -> Seq<u8> {
        self.bytes@
    }
}

impl BytePattern {
    pub fn new(bytes: Vec<u8>) -> (pattern: BytePattern)
        ensures
            pattern@ == bytes@,
    {
        BytePattern { bytes }
    }

    /// The bytes that the pattern was made from.
    pub fn bytes(&self) -> (bytes: &Vec<u8>)
        ensures
            bytes@ == self@,
    {
        &self.bytes
    }
}

impl Pattern for BytePattern {
    open spec fn stands_in(&self, image: Seq<u8>, at: int) -> bool {
        stands_at(image, self@, at)
    }

    fn find<M: Memory>(&self, process: &M) -> (r: Result<usize, Error>) {
        let plen = self.bytes.len();
        let chunk = if plen > CHUNK {
            plen
        } else {
            CHUNK
        };
        let mut buffer: Vec<u8> = vec![0u8; chunk];
        let mut address: usize = 0;
        loop
            invariant
                plen == self@.len(),
                plen <= chunk,
                0 < chunk,
                buffer@.len() == chunk,
                forall|image: Seq<u8>| #[trigger]
                    backed_by(process, image) ==> address <= image.len() && forall|before: int|
                        0 <= before < address ==> !stands_at(image, self@, before),
            decreases usize::MAX - address,
        {
            let outcome = process.fetch(address, &mut buffer);
            let n = match outcome {
                Transfer::Rejected => {
                    assert forall|image: Seq<u8>| #[trigger]
                        backed_by(process, image) implies false by {
                        assert(process.may_fetch(
                            address,
                            chunk as nat,
                            outcome,
                            buffer@.take(0),
                        ));
                        lemma_shows(image, address, chunk as nat, self@);
                    }
                    return Err(Error::AccessDenied);
                },
                Transfer::Moved(n) => n,
            };
            let ghost data = buffer@.take(n as int);
            let seen = slice_subrange(buffer.as_slice(), 0, n);
            assert(seen@ =~= data);
            let hit = find_in(seen, self.bytes.as_slice());
            proof {
                assert forall|image: Seq<u8>| #[trigger] backed_by(process, image) implies shows(
                    image,
                    address as int,
                    chunk as int,
                    n as int,
                    data,
                    self@,
                ) by {
                    assert(process.may_fetch(address, chunk as nat, outcome, data));
                    lemma_shows(image, address, chunk as nat, self@);
                }
            }
            match hit {
                Some(at) => {
                    match address.checked_add(at) {
                        Some(found) => {
                            return Ok(found);
                        },
                        None => {
                            return Err(Error::PatternNotFound);
                        },
                    }
                },
                None => {},
            }
            if n < plen {
                return Err(Error::PatternNotFound);
            }
            assert(plen > 0) by {
                if plen == 0 {
                    assert(data.subrange(0, 0) =~= self@);
                    assert(stands_at(data, self@, 0));
                }
            }
            let step = n - (plen - 1);
            match address.checked_add(step) {
                Some(next) => {
                    address = next;
                },
                None => {
                    return Err(Error::PatternNotFound);
                },
            }
        }
    }
}

} // verus!
