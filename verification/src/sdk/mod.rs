//! Attaching to a process: telling which process it is, and holding its
//! memory together with the modules that were resolved in it.

use crate::error::Error;
use crate::memory::pattern::begins_with;
use crate::memory::value::Typed;
use crate::memory::{read_result, Accessor, Memory, Module, Transfer};
use vstd::prelude::*;
use vstd::utf8::encode_utf8_decode_utf8;

pub mod clock;
pub mod linux;
pub mod windows;

verus! {

/// The operating system whose naming conventions apply.
#[derive(Debug, Clone, Copy, PartialEq, Eq, Structural)]
pub enum Platform {
    Linux,
    Windows,
}

/// The programs that the library knows how to attach to.
#[derive(Debug, Clone, Copy, PartialEq, Eq, Structural)]
pub enum Games {
    Cs2,
}

/// One running process, as a process list shows it.
#[derive(Debug)]
pub struct Process {
    pub name: String,
    pub pid: u32,
    /// The process that started this one, where the list tells.
    pub parent: Option<u32>,
}

/// Whether two texts are the same.
pub fn same_text(a: &str, b: &str) -> (r: bool)
    ensures
        r == (a@ == b@),
{
    let left = a.as_bytes();
    let right = b.as_bytes();
    let r = left.len() == right.len() && begins_with(left, right);
    proof {
        if r {
            assert(left@.subrange(0, right@.len() as int) =~= left@);
            encode_utf8_decode_utf8(a@);
            encode_utf8_decode_utf8(b@);
        }
        if a@ == b@ {
            assert(left@.subrange(0, right@.len() as int) =~= left@);
        }
    }
    r
}

impl Games {
    /// The name under which the program runs on `platform`.
    pub open spec fn process_name(self, platform: Platform) -> Seq<char> {
        match (self, platform) {
            (Games::Cs2, Platform::Linux) => "cs2"@,
            (Games::Cs2, Platform::Windows) => "cs2.exe"@,
        }
    }

    /// The process names to look for on `platform`, each with the program
    /// that it gives away, in the order in which they are tried.
    pub fn process_names(platform: Platform) -> (names: Vec<(&'static str, Games)>)
        ensures
            names@.len() == 1,
            names@[0].1 == Games::Cs2,
            names@[0].0@ == Games::Cs2.process_name(platform),
    {
        let mut names: Vec<(&'static str, Games)> = Vec::new();
        match platform {
            Platform::Linux => names.push(("cs2", Games::Cs2)),
            Platform::Windows => names.push(("cs2.exe", Games::Cs2)),
        }
        names
    }

    /// Whether process `at` of `running` is the one that detection settles
    /// on: the first that goes by the program's name.
    pub open spec fn detected_at(running: Seq<Process>, platform: Platform, at: int) -> bool {
        &&& 0 <= at < running.len()
        &&& running[at].name@ == Games::Cs2.process_name(platform)
        &&& forall|before: int|
            0 <= before < at ==> (#[trigger] running[before]).name@ != Games::Cs2.process_name(
                platform,
            )
    }

    /// Tells from a process list which known program is running, and under
    /// which process identifier: the first process that goes by exactly the
    /// name of a known program. `None` where no process does.
    pub fn detect(platform: Platform, running: &Vec<Process>) -> (r: Option<(Games, u32)>)
        ensures
            match r {
                Some((game, pid)) => game == Games::Cs2 && exists|at: int| #[trigger]
                    Games::detected_at(running@, platform, at) && pid == running@[at].pid,
                None => forall|at: int|
                    0 <= at < running@.len() ==> (#[trigger] running@[at]).name@
                        != Games::Cs2.process_name(platform),
            },
    {
        let names = Games::process_names(platform);
        let mut k: usize = 0;
        while k < names.len()
            invariant
                names@.len() == 1,
                names@[0].1 == Games::Cs2,
                names@[0].0@ == Games::Cs2.process_name(platform),
                k <= names@.len(),
                k > 0 ==> forall|at: int|
                    0 <= at < running@.len() ==> (#[trigger] running@[at]).name@
                        != Games::Cs2.process_name(platform),
            decreases names@.len() - k,
        {
            let (name, game) = names[k];
            let mut i: usize = 0;
            while i < running.len()
                invariant
                    i <= running@.len(),
                    k == 0,
                    game == Games::Cs2,
                    name@ == Games::Cs2.process_name(platform),
                    forall|before: int|
                        0 <= before < i ==> (#[trigger] running@[before]).name@ != name@,
                decreases running@.len() - i,
            {
                if same_text(running[i].name.as_str(), name) {
                    assert(Games::detected_at(running@, platform, i as int));
                    return Some((game, running[i].pid));
                }
                i += 1;
            }
            k += 1;
        }
        None
    }
}

/// Whether module `at` of `modules` is the first that goes by `name`.
pub open spec fn named_at(modules: Seq<Module>, name: Seq<char>, at: int) -> bool {
    &&& 0 <= at < modules.len()
    &&& modules[at].name@ == name
    &&& forall|before: int| 0 <= before < at ==> (#[trigger] modules[before]).name@ != name
}

/// The first module that goes by exactly `name`.
pub fn find_module<'a>(modules: &'a Vec<Module>, name: &str) -> (r: Option<&'a Module>)
    ensures
        match r {
            Some(module) => exists|at: int| #[trigger]
                named_at(modules@, name@, at) && *module == modules@[at],
            None => forall|at: int|
                0 <= at < modules@.len() ==> (#[trigger] modules@[at]).name@ != name@,
        },
{
    let mut i: usize = 0;
    while i < modules.len()
        invariant
            i <= modules@.len(),
            forall|before: int| 0 <= before < i ==> (#[trigger] modules@[before]).name@ != name@,
        decreases modules@.len() - i,
    {
        if same_text(modules[i].name.as_str(), name) {
            assert(named_at(modules@, name@, i as int));
            return Some(&modules[i]);
        }
        i += 1;
    }
    None
}

/// Whether a read of the address stored at `address` may end in `r`.
pub open spec fn reads_pointer<M: Memory>(memory: &M, address: usize, r: Result<usize, Error>) -> bool {
    exists|outcome: Transfer, data: Seq<u8>| #[trigger]
        memory.may_fetch(address, usize::width(), outcome, data) && r == read_result::<usize>(
            outcome,
            data,
        )
}

/// Reads the address stored at `address` until it is not zero, at most
/// `attempts` times.
///
/// A read that fails ends the wait with its error. `Timeout` means that
/// every attempt read zero, or that none was allowed.
pub fn wait_for_pointer<M: Memory>(memory: &M, address: usize, attempts: u32) -> (r: Result<
    usize,
    Error,
>)
    ensures
        match r {
            Ok(pointer) => pointer != 0 && reads_pointer(memory, address, Ok(pointer)),
            Err(e) => if e == Error::Timeout {
                attempts == 0 || reads_pointer(memory, address, Ok(0))
            } else {
                reads_pointer(memory, address, Err(e))
            },
        },
{
    let mut left = attempts;
    while left > 0
        invariant
            left <= attempts,
            left < attempts ==> reads_pointer(memory, address, Ok(0)),
        decreases left,
    {
        let r = memory.read::<usize>(address);
        assert(reads_pointer(memory, address, r));
        match r {
            Ok(pointer) => {
                if pointer != 0 {
                    return Ok(pointer);
                }
            },
            Err(e) => {
                assert(e != Error::Timeout) by {
                    assert(e == Error::AccessDenied || e == Error::ShortRead);
                }
                return Err(e);
            },
        }
        left -= 1;
    }
    Err(Error::Timeout)
}

} // verus!
