//! Attaching by way of the memory map.

use crate::error::Error;
use crate::memory::linux::{describes, eligible, get_module, picked, MapRange};
use crate::memory::{Memory, Module};
use crate::sdk::{find_module, named_at, same_text, Process};
use vstd::prelude::*;

verus! {

/// A process that was attached to through its memory map: its memory, and
/// the modules that were resolved in it at that time.
pub struct LinuxSdk<M: Memory> {
    modules: Vec<Module>,
    memory: M,
}

/// Whether `module` is what resolution gives for `name`.
pub open spec fn resolves_to(maps: Seq<MapRange>, name: Seq<char>, module: Module) -> bool {
    exists|at: int| #[trigger] picked(maps, name, at) && describes(module, maps[at])
}

/// Whether `modules` are what resolution gives for the first `upto` of
/// the names `wanted`, in their order.
pub open spec fn resolved(
    modules: Seq<Module>,
    maps: Seq<MapRange>,
    wanted: Seq<String>,
    upto: int,
) -> bool {
    &&& modules.len() == upto
    &&& forall|k: int| 0 <= k < upto ==> resolves_to(maps, wanted[k]@, #[trigger] modules[k])
}

/// Whether the name `wanted[k]` has no range in the map that can stand for
/// it.
pub open spec fn missing(maps: Seq<MapRange>, wanted: Seq<String>, k: int) -> bool {
    &&& 0 <= k < wanted.len()
    &&& forall|at: int| 0 <= at < maps.len() ==> !eligible(#[trigger] maps[at], wanted[k]@)
}

/// Whether process `at` of `running` is the last that goes by `name`.
pub open spec fn last_named(running: Seq<Process>, name: Seq<char>, at: int) -> bool {
    &&& 0 <= at < running.len()
    &&& running[at].name@ == name
    &&& forall|after: int| at < after < running.len() ==> (#[trigger] running[after]).name@ != name
}

/// The parent of a process, or zero, which is no process, where the list
/// names none.
pub open spec fn parent_or_zero(process: Process) -> u32 {
    match process.parent {
        Some(parent) => parent,
        None => 0,
    }
}

/// The identifier to attach to, for a program that runs as `name`: the
/// parent of the last process that goes by exactly that name. Zero, which
/// is no process, where that process has no parent or none is so named.
pub fn owner_of(running: &Vec<Process>, name: &str) -> (pid: u32)
    ensures
        (exists|at: int| #[trigger]
            last_named(running@, name@, at) && pid == parent_or_zero(running@[at])) || (pid == 0
            && forall|at: int|
            0 <= at < running@.len() ==> (#[trigger] running@[at]).name@ != name@),
{
    let mut pid: u32 = 0;
    let mut i: usize = 0;
    let ghost mut last: int = -1;
    while i < running.len()
        invariant
            i <= running@.len(),
            -1 <= last < i,
            last == -1 ==> pid == 0 && forall|at: int|
                0 <= at < i ==> (#[trigger] running@[at]).name@ != name@,
            last >= 0 ==> running@[last].name@ == name@ && pid == parent_or_zero(running@[last])
                && forall|after: int|
                last < after < i ==> (#[trigger] running@[after]).name@ != name@,
        decreases running@.len() - i,
    {
        if same_text(running[i].name.as_str(), name) {
            pid = match running[i].parent {
                Some(parent) => parent,
                None => 0,
            };
            proof {
                last = i as int;
            }
        }
        i += 1;
    }
    proof {
        if last >= 0 {
            assert(last_named(running@, name@, last));
        }
    }
    pid
}

impl<M: Memory> LinuxSdk<M> {
    /// The modules that were resolved, in the order in which they were
    /// asked for.
    pub closed spec fn modules(&self) -> Seq<Module> {
        self.modules@
    }

    /// The memory of the process.
    pub closed spec fn memory(&self) -> M {
        self.memory
    }

    /// Attaches to the process `pid`, whose memory is `memory` and whose
    /// memory map reads `maps`, and resolves the modules `wanted`.
    ///
    /// Fails with `ProcessNotFound` where `pid` is zero, which is what a
    /// search without a result hands in, and with `ModuleNotFound` where
    /// one of the modules has no executable range in the map. Nothing is
    /// tried again.
    pub fn new(pid: u32, memory: M, maps: &Vec<MapRange>, wanted: &Vec<String>) -> (r: Result<
        LinuxSdk<M>,
        Error,
    >)
        ensures
            match r {
                Ok(sdk) => {
                    &&& pid != 0
                    &&& sdk.memory() == memory
                    &&& resolved(sdk.modules(), maps@, wanted@, wanted@.len() as int)
                },
                Err(e) => if pid == 0 {
                    e == Error::ProcessNotFound
                } else {
                    e == Error::ModuleNotFound && exists|k: int| missing(maps@, wanted@, k)
                },
            },
    {
        if pid == 0 {
            return Err(Error::ProcessNotFound);
        }
        let mut modules: Vec<Module> = Vec::new();
        let mut k: usize = 0;
        while k < wanted.len()
            invariant
                pid != 0,
                k <= wanted@.len(),
                resolved(modules@, maps@, wanted@, k as int),
            decreases wanted@.len() - k,
        {
            match get_module(maps, wanted[k].as_str()) {
                Ok(module) => {
                    assert(resolves_to(maps@, wanted@[k as int]@, module));
                    modules.push(module);
                },
                Err(_) => {
                    assert(missing(maps@, wanted@, k as int));
                    return Err(Error::ModuleNotFound);
                },
            }
            k += 1;
        }
        Ok(LinuxSdk { modules, memory })
    }

    /// The modules that were resolved, in the order in which they were
    /// asked for.
    pub fn get_modules(&self) -> (modules: &Vec<Module>)
        ensures
            modules@ == self.modules(),
    {
        &self.modules
    }

    /// The memory of the process.
    pub fn get_memory(&self) -> (memory: &M)
        ensures
            *memory == self.memory(),
    {
        &self.memory
    }

    /// The memory of the process, for writing.
    pub fn get_memory_mut(&mut self) -> (memory: &mut M)
        ensures
            *memory == old(self).memory(),
            final(self).memory() == *final(memory),
            final(self).modules() == old(self).modules(),
    {
        &mut self.memory
    }

    /// The first resolved module that goes by exactly `name`.
    pub fn get_module(&self, name: &str) -> (r: Option<&Module>)
        ensures
            match r {
                Some(module) => exists|at: int| #[trigger]
                    named_at(self.modules(), name@, at) && *module == self.modules()[at],
                None => forall|at: int|
                    0 <= at < self.modules().len() ==> (#[trigger] self.modules()[at]).name@
                        != name@,
            },
    {
        let r = find_module(&self.modules, name);
        proof {
            assert(self.modules() == self.modules@);
            if r is Some {
                let at = choose|at: int| #[trigger]
                    named_at(self.modules@, name@, at) && *r->0 == self.modules@[at];
                assert(named_at(self.modules(), name@, at));
            }
        }
        r
    }
}

} // verus!
