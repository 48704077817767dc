//! Finding a module in the memory map of a process.

use crate::error::Error;
use crate::memory::pattern::{find_in, stands_at};
use crate::memory::Module;
use vstd::prelude::*;
use vstd::utf8::encode_utf8;

verus! {

/// One mapped range of a process, as its memory map lists it.
#[derive(Debug)]
pub struct MapRange {
    /// Path of the file that is mapped there, if a file is.
    pub filename: Option<String>,
    /// Address of the first byte.
    pub start: usize,
    /// Number of bytes.
    pub size: usize,
    /// Whether code may be run from the range.
    pub executable: bool,
}

/// Whether the text `needle` occurs somewhere in the text `hay`.
pub open spec fn occurs_in(hay: Seq<char>, needle: Seq<char>) -> bool {
    exists|at: int| stands_at(encode_utf8(hay), encode_utf8(needle), at)
}

/// Whether a range can stand for the module asked for: it maps a file whose
/// path holds the name, and it is executable. A module shows up as several
/// ranges, of which only the executable one gives its base.
pub open spec fn eligible(range: MapRange, mod_name: Seq<char>) -> bool {
    &&& range.filename matches Some(path) && occurs_in(path@, mod_name)
    &&& range.executable
}

/// Whether range `at` is the one that resolution picks: the first eligible
/// one.
pub open spec fn picked(maps: Seq<MapRange>, mod_name: Seq<char>, at: int) -> bool {
    &&& 0 <= at < maps.len()
    &&& eligible(maps[at], mod_name)
    &&& forall|before: int| 0 <= before < at ==> !eligible(maps[before], mod_name)
}

/// Whether `module` describes the range `range`.
pub open spec fn describes(module: Module, range: MapRange) -> bool {
    &&& range.filename matches Some(path) && module.name@ == path@
    &&& module.base_address == range.start
    &&& module.size == range.size
}

/// Whether the text `needle` occurs somewhere in the text `hay`.
pub fn contains(hay: &str, needle: &str) -> (r: bool)
    ensures
        r == occurs_in(hay@, needle@),
{
    find_in(hay.as_bytes(), needle.as_bytes()).is_some()
}

fn is_eligible(range: &MapRange, mod_name: &str) -> (r: bool)
    ensures
        r == eligible(*range, mod_name@),
{
    match &range.filename {
        Some(path) => range.executable && contains(path.as_str(), mod_name),
        None => false,
    }
}

/// Resolves a module by name against a snapshot of the memory map.
///
/// The first executable range whose path holds `mod_name` wins; ranges
/// without a file and ranges that are not executable are passed over. With
/// no such range the result is `ModuleNotFound`.
pub fn get_module(maps: &Vec<MapRange>, mod_name: &str) -> (r: Result<Module, Error>)
    ensures
        match r {
            Ok(module) => exists|at: int| #[trigger]
                picked(maps@, mod_name@, at) && describes(module, maps@[at]),
            Err(e) => e == Error::ModuleNotFound && forall|at: int|
                0 <= at < maps@.len() ==> !eligible(#[trigger] maps@[at], mod_name@),
        },
{
    let mut i: usize = 0;
    while i < maps.len()
        invariant
            i <= maps@.len(),
            forall|before: int| 0 <= before < i ==> !eligible(#[trigger] maps@[before], mod_name@),
        decreases maps@.len() - i,
    {
        let range = &maps[i];
        if is_eligible(range, mod_name) {
            match &range.filename {
                Some(path) => {
                    let module = Module {
                        name: path.clone(),
                        base_address: range.start,
                        size: range.size,
                    };
                    assert(picked(maps@, mod_name@, i as int));
                    return Ok(module);
                },
                None => {},
            }
        }
        i += 1;
    }
    Err(Error::ModuleNotFound)
}

/// Whether two ranges map the same file.
pub open spec fn same_file(a: MapRange, b: MapRange) -> bool {
    a.filename is Some && b.filename is Some && a.filename->0@ == b.filename->0@
}

/// Resolution never settles on a range that is not executable, and a range
/// that maps the same file as the one picked and comes before it is not
/// executable.
pub proof fn lemma_executable_range_wins(maps: Seq<MapRange>, mod_name: Seq<char>, at: int)
    requires
        picked(maps, mod_name, at),
    ensures
        maps[at].executable,
        forall|other: int|
            0 <= other < at && same_file(#[trigger] maps[other], maps[at])
                ==> !maps[other].executable,
{
    assert forall|other: int|
        0 <= other < at && same_file(#[trigger] maps[other], maps[at])
        implies !maps[other].executable by {
        assert(!eligible(maps[other], mod_name));
    }
}

/// Resolution has one answer: two ranges picked for the same name from the
/// same map are the same range.
pub proof fn lemma_picked_is_unique(maps: Seq<MapRange>, mod_name: Seq<char>, a: int, b: int)
    requires
        picked(maps, mod_name, a),
        picked(maps, mod_name, b),
    ensures
        a == b,
{
}

} // verus!
