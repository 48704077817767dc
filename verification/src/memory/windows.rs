//! Finding a module in a snapshot of the module list of a process.

use crate::error::Error;
use crate::memory::pattern::{begins_with, stands_at};
use crate::memory::Module;
use vstd::prelude::*;
use vstd::string::*;
use vstd::utf8::encode_utf8;

verus! {

/// One entry of a module snapshot.
#[derive(Debug)]
pub struct ModuleEntry {
    /// The module's name as UTF-16 code units, in a buffer of fixed length
    /// in which a zero unit ends the name.
    pub name: Vec<u16>,
    /// Address at which the module is loaded.
    pub base_address: usize,
    /// Number of bytes that the module occupies.
    pub size: u32,
}

/// The error of `widestring`'s UTF-16 decoding, carried through unopened.
#[verifier::external_type_specification]
#[verifier::external_body]
pub struct ExUtf16Error(widestring::error::Utf16Error);

/// The text that a run of UTF-16 code units decodes to, or `None` where the
/// run is ill-formed.
pub uninterp spec fn utf16_text(units: Seq<u16>) -> Option<Seq<char>>;

/// Calls `widestring::U16String::from_vec` and `to_string` on the result.
/// Trusted: the call succeeds exactly on the runs that `utf16_text` decodes,
/// and then hands back that text.
#[verifier::external_body]
fn decode_utf16(units: &Vec<u16>) -> (r: Result<String, widestring::error::Utf16Error>)
    ensures
        match r {
            Ok(text) => utf16_text(units@) == Some(text@),
            Err(_) => utf16_text(units@) is None,
        },
{
    widestring::U16String::from_vec(units.clone()).to_string()
}

/// Number of characters that stand before the first NUL of a text, which is
/// all of them where it has none.
pub open spec fn nul_offset(text: Seq<char>) -> nat
    decreases text.len(),
{
    if text.len() == 0 || text[0] == '\0' {
        0
    } else {
        1 + nul_offset(text.drop_first())
    }
}

/// The part of a text that stands before its first NUL.
pub open spec fn before_nul(text: Seq<char>) -> Seq<char> {
    text.take(nul_offset(text) as int)
}

proof fn lemma_nul_offset(text: Seq<char>, k: int)
    requires
        0 <= k <= text.len(),
        forall|j: int| 0 <= j < k ==> text[j] != '\0',
        k < text.len() ==> text[k] == '\0',
    ensures
        nul_offset(text) == k,
    decreases text.len(),
{
    if k > 0 {
        let rest = text.drop_first();
        assert forall|j: int| 0 <= j < k - 1 implies rest[j] != '\0' by {
            assert(rest[j] == text[j + 1]);
        }
        lemma_nul_offset(rest, k - 1);
    }
}

/// The part of a text that stands before its first NUL.
pub fn cut_at_nul(text: &str) -> (name: String)
    ensures
        name@ == before_nul(text@),
{
    let len = text.unicode_len();
    let mut k: usize = 0;
    while k < len && text.get_char(k) != '\0'
        invariant
            k <= len,
            len == text@.len(),
            forall|j: int| 0 <= j < k ==> text@[j] != '\0',
        decreases len - k,
    {
        k += 1;
    }
    proof {
        lemma_nul_offset(text@, k as int);
    }
    text.substring_char(0, k).to_owned()
}

/// The name that an entry goes by: its code units decoded, up to the first
/// NUL. `None` where the units are ill-formed anywhere in the buffer.
pub open spec fn listed_name(entry: ModuleEntry) -> Option<Seq<char>> {
    match utf16_text(entry.name@) {
        Some(text) => Some(before_nul(text)),
        None => None,
    }
}

/// The name that an entry goes by, or `InvalidText` where its code units
/// are ill-formed.
pub fn module_name(entry: &ModuleEntry) -> (r: Result<String, Error>)
    ensures
        match r {
            Ok(name) => listed_name(*entry) == Some(name@),
            Err(e) => e == Error::InvalidText && listed_name(*entry) is None,
        },
{
    match decode_utf16(&entry.name) {
        Ok(text) => Ok(cut_at_nul(text.as_str())),
        Err(_) => Err(Error::InvalidText),
    }
}

/// Whether the text `hay` begins with the text `needle`.
pub open spec fn begins(hay: Seq<char>, needle: Seq<char>) -> bool {
    stands_at(encode_utf8(hay), encode_utf8(needle), 0)
}

/// Whether the text `hay` begins with the text `needle`.
pub fn starts_with(hay: &str, needle: &str) -> (r: bool)
    ensures
        r == begins(hay@, needle@),
{
    begins_with(hay.as_bytes(), needle.as_bytes())
}

/// Whether an entry has a well-formed name that does not begin with
/// `mod_name`, so that resolution goes on to the next entry.
pub open spec fn passed_over(entry: ModuleEntry, mod_name: Seq<char>) -> bool {
    listed_name(entry) matches Some(name) && !begins(name, mod_name)
}

/// Whether entry `at` is the one at which resolution stops: every entry
/// before it was passed over, and it was not.
pub open spec fn stops_at(entries: Seq<ModuleEntry>, mod_name: Seq<char>, at: int) -> bool {
    &&& 0 <= at < entries.len()
    &&& !passed_over(entries[at], mod_name)
    &&& forall|before: int| 0 <= before < at ==> passed_over(#[trigger] entries[before], mod_name)
}

/// Whether `module` describes the entry `entry`.
pub open spec fn describes(module: Module, entry: ModuleEntry) -> bool {
    &&& listed_name(entry) == Some(module.name@)
    &&& module.base_address == entry.base_address
    &&& module.size == entry.size
}

/// Whether `module` is what resolution gives for `mod_name`.
pub open spec fn resolves_to(entries: Seq<ModuleEntry>, mod_name: Seq<char>, module: Module) -> bool {
    exists|at: int| #[trigger] stops_at(entries, mod_name, at) && describes(module, entries[at])
}

/// Whether resolution of `mod_name` finds a module.
pub open spec fn succeeds(entries: Seq<ModuleEntry>, mod_name: Seq<char>) -> bool {
    exists|at: int| #[trigger]
        stops_at(entries, mod_name, at) && listed_name(entries[at]) is Some
}

/// Whether resolution of `mod_name` fails with `e`: with `InvalidText`
/// where it stops at an entry whose name is ill-formed, with
/// `ModuleNotFound` where it passes over every entry.
pub open spec fn fails_with(entries: Seq<ModuleEntry>, mod_name: Seq<char>, e: Error) -> bool {
    if e == Error::InvalidText {
        exists|at: int| #[trigger]
            stops_at(entries, mod_name, at) && listed_name(entries[at]) is None
    } else {
        e == Error::ModuleNotFound && forall|at: int|
            0 <= at < entries.len() ==> passed_over(#[trigger] entries[at], mod_name)
    }
}

/// Resolves a module by name against a snapshot of the module list.
///
/// Entries are taken in order. The first whose name begins with `mod_name`
/// wins. An entry whose name is ill-formed ends the search with
/// `InvalidText`; a list without a match gives `ModuleNotFound`.
pub fn get_module(entries: &Vec<ModuleEntry>, mod_name: &str) -> (r: Result<Module, Error>)
    ensures
        match r {
            Ok(module) => resolves_to(entries@, mod_name@, module),
            Err(e) => fails_with(entries@, mod_name@, e),
        },
{
    let mut i: usize = 0;
    while i < entries.len()
        invariant
            i <= entries@.len(),
            forall|before: int|
                0 <= before < i ==> passed_over(#[trigger] entries@[before], mod_name@),
        decreases entries@.len() - i,
    {
        let entry = &entries[i];
        match module_name(entry) {
            Ok(name) => {
                if starts_with(name.as_str(), mod_name) {
                    let module = Module {
                        name,
                        base_address: entry.base_address,
                        size: entry.size as usize,
                    };
                    assert(stops_at(entries@, mod_name@, i as int));
                    return Ok(module);
                }
            },
            Err(e) => {
                assert(stops_at(entries@, mod_name@, i as int));
                return Err(e);
            },
        }
        i += 1;
    }
    Err(Error::ModuleNotFound)
}

/// Resolution has one answer: it cannot stop at two different entries of
/// the same list for the same name.
pub proof fn lemma_stops_once(entries: Seq<ModuleEntry>, mod_name: Seq<char>, a: int, b: int)
    requires
        stops_at(entries, mod_name, a),
        stops_at(entries, mod_name, b),
    ensures
        a == b,
{
}

} // verus!
