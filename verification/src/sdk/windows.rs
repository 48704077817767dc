//! Attaching by way of a module snapshot.

use crate::error::Error;
use crate::memory::windows::{fails_with, get_module, resolves_to, succeeds, ModuleEntry};
use crate::memory::{Memory, Module};
use crate::sdk::{find_module, named_at, Games};
use vstd::prelude::*;

verus! {

/// A process that was attached to through a snapshot of its module list:
/// the program it runs, its memory, and the modules that were resolved in
/// it at that time.
pub struct WindowsSdk<M: Memory> {
    modules: Vec<Module>,
    memory: M,
    game: Games,
}

/// Whether `modules` are what resolution gives for the first `upto` of
/// the names `wanted`, in their order.
pub open spec fn resolved(
    modules: Seq<Module>,
    entries: Seq<ModuleEntry>,
    wanted: Seq<String>,
    upto: int,
) -> bool {
    &&& modules.len() == upto
    &&& forall|k: int| 0 <= k < upto ==> resolves_to(entries, wanted[k]@, #[trigger] modules[k])
}

/// Whether `wanted[k]` is the first name whose resolution fails, and fails
/// with `e`.
pub open spec fn fails_at(entries: Seq<ModuleEntry>, wanted: Seq<String>, k: int, e: Error) -> bool {
    &&& 0 <= k < wanted.len()
    &&& fails_with(entries, wanted[k]@, e)
    &&& forall|j: int| 0 <= j < k ==> succeeds(entries, #[trigger] wanted[j]@)
}

impl<M: Memory> WindowsSdk<M> {
    /// The modules that were resolved, in the order in which they were
    /// asked for.
    pub closed spec fn modules(&self) -> Seq<Module> {
        self.modules@
    }

    /// The memory of the process.
    pub closed spec fn memory(&self) -> M {
        self.memory
    }

    /// The program that the process runs.
    pub closed spec fn game(&self) -> Games {
        self.game
    }

    /// Attaches to the process that detection found, whose memory is
    /// `memory` and whose module list reads `entries`, and resolves the
    /// modules `wanted`.
    ///
    /// Fails with `ProcessNotFound` where detection found nothing, and with
    /// the error of the first module that does not resolve. Nothing is
    /// tried again.
    pub fn new(
        found: Option<(Games, u32)>,
        memory: M,
        entries: &Vec<ModuleEntry>,
        wanted: &Vec<String>,
    ) -> (r: Result<WindowsSdk<M>, Error>)
        ensures
            match r {
                Ok(sdk) => {
                    &&& found matches Some(pair) && sdk.game() == pair.0
                    &&& sdk.memory() == memory
                    &&& resolved(sdk.modules(), entries@, wanted@, wanted@.len() as int)
                },
                Err(e) => if found is None {
                    e == Error::ProcessNotFound
                } else {
                    exists|k: int| fails_at(entries@, wanted@, k, e)
                },
            },
    {
        let game = match found {
            Some((game, _)) => game,
            None => {
                return Err(Error::ProcessNotFound);
            },
        };
        let mut modules: Vec<Module> = Vec::new();
        let mut k: usize = 0;
        while k < wanted.len()
            invariant
                found is Some,
                k <= wanted@.len(),
                resolved(modules@, entries@, wanted@, k as int),
            decreases wanted@.len() - k,
        {
            match get_module(entries, wanted[k].as_str()) {
                Ok(module) => {
                    assert(resolves_to(entries@, wanted@[k as int]@, module));
                    modules.push(module);
                },
                Err(e) => {
                    assert forall|j: int| 0 <= j < k implies succeeds(
                        entries@,
                        #[trigger] wanted@[j]@,
                    ) by {
                        assert(resolves_to(entries@, wanted@[j]@, modules@[j]));
                    }
                    assert(fails_at(entries@, wanted@, k as int, e));
                    return Err(e);
                },
            }
            k += 1;
        }
        Ok(WindowsSdk { modules, memory, game })
    }

    /// The modules that were resolved, in the order in which they were
    /// asked for.
    pub fn get_modules(&self) -> (modules: &Vec<Module>)
        ensures
            modules@ == self.modules(),
    {
        &self.modules
    }

    /// The memory of the process.
    pub fn get_memory(&self) -> (memory: &M)
        ensures
            *memory == self.memory(),
    {
        &self.memory
    }

    /// The memory of the process, for writing.
    pub fn get_memory_mut(&mut self) -> (memory: &mut M)
        ensures
            *memory == old(self).memory(),
            final(self).memory() == *final(memory),
            final(self).modules() == old(self).modules(),
            final(self).game() == old(self).game(),
    {
        &mut self.memory
    }

    /// The first resolved module that goes by exactly `name`.
    pub fn get_module(&self, name: &str) -> (r: Option<&Module>)
        ensures
            match r {
                Some(module) => exists|at: int| #[trigger]
                    named_at(self.modules(), name@, at) && *module == self.modules()[at],
                None => forall|at: int|
                    0 <= at < self.modules().len() ==> (#[trigger] self.modules()[at]).name@
                        != name@,
            },
    {
        let r = find_module(&self.modules, name);
        proof {
            assert(self.modules() == self.modules@);
            if r is Some {
                let at = choose|at: int| #[trigger]
                    named_at(self.modules@, name@, at) && *r->0 == self.modules@[at];
                assert(named_at(self.modules(), name@, at));
            }
        }
        r
    }

    /// The program that the process runs.
    pub fn get_game(&self) -> (game: Games)
        ensures
            game == self.game(),
    {
        self.game
    }
}

} // verus!
