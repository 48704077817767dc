use remote_mem::error::Error;
use remote_mem::memory::linux::{contains, get_module, MapRange};
use remote_mem::memory::windows::{
    cut_at_nul, get_module as get_listed_module, module_name, starts_with, ModuleEntry,
};

fn range(path: Option<&str>, start: usize, size: usize, executable: bool) -> MapRange {
    MapRange { filename: path.map(|p| p.to_string()), start, size, executable }
}

fn client_map() -> Vec<MapRange> {
    vec![
        range(None, 0x1000, 0x1000, true),
        range(Some("/game/bin/libclient.so"), 0x7f00_0000, 0x2000, false),
        range(Some("/game/bin/libclient.so"), 0x7f00_2000, 0x9000, true),
        range(Some("/game/bin/libclient.so"), 0x7f00_b000, 0x1000, false),
        range(Some("/game/bin/libengine2.so"), 0x7f10_0000, 0x4000, true),
        range(Some("/game/bin/libclient.so"), 0x7f20_0000, 0x3000, true),
    ]
}

#[test]
fn the_executable_range_wins_over_its_siblings() {
    let module = get_module(&client_map(), "libclient.so").unwrap();
    assert_eq!(module.name, "/game/bin/libclient.so");
    assert_eq!(module.base_address, 0x7f00_2000);
    assert_eq!(module.size, 0x9000);
}

#[test]
fn the_first_executable_match_wins() {
    let module = get_module(&client_map(), "lib").unwrap();
    assert_eq!(module.base_address, 0x7f00_2000);
    let engine = get_module(&client_map(), "engine2").unwrap();
    assert_eq!(engine.name, "/game/bin/libengine2.so");
    assert_eq!(engine.base_address, 0x7f10_0000);
    assert_eq!(engine.size, 0x4000);
}

#[test]
fn a_module_without_an_executable_range_is_not_found() {
    let maps = vec![
        range(Some("/lib/libdata.so"), 0x1000, 0x1000, false),
        range(None, 0x2000, 0x1000, true),
    ];
    assert_eq!(get_module(&maps, "libdata.so").err(), Some(Error::ModuleNotFound));
    assert_eq!(get_module(&maps, "libother.so").err(), Some(Error::ModuleNotFound));
    assert_eq!(get_module(&Vec::new(), "libdata.so").err(), Some(Error::ModuleNotFound));
}

#[test]
fn resolution_gives_the_same_answer_each_time() {
    let maps = client_map();
    for _ in 0..3 {
        assert_eq!(get_module(&maps, "libclient.so").unwrap().base_address, 0x7f00_2000);
        assert_eq!(get_module(&maps, "nowhere").err(), Some(Error::ModuleNotFound));
    }
}

#[test]
fn contains_is_substring_search() {
    assert!(contains("/usr/lib/libfoo.so.1", "libfoo.so"));
    assert!(contains("libfoo", ""));
    assert!(contains("grüße", "üß"));
    assert!(!contains("libfoo", "libfoo.so"));
    assert!(!contains("", "x"));
    assert!(!contains("LIBFOO", "libfoo"));
}

fn wide(name: &str, len: usize) -> Vec<u16> {
    let mut units: Vec<u16> = name.encode_utf16().collect();
    units.resize(len, 0);
    units
}

fn entry(name: &str, base_address: usize, size: u32) -> ModuleEntry {
    ModuleEntry { name: wide(name, 256), base_address, size }
}

fn listing() -> Vec<ModuleEntry> {
    vec![
        entry("cs2.exe", 0x1400_0000, 0x5000),
        entry("engine2.dll", 0x1800_0000, 0x6000),
        entry("client.dll", 0x1900_0000, 0x7000),
        entry("client.dll.bak", 0x1a00_0000, 0x100),
    ]
}

#[test]
fn a_listed_module_is_found_by_the_start_of_its_name() {
    let module = get_listed_module(&listing(), "client.dll").unwrap();
    assert_eq!(module.name, "client.dll");
    assert_eq!(module.base_address, 0x1900_0000);
    assert_eq!(module.size, 0x7000);
    let by_prefix = get_listed_module(&listing(), "eng").unwrap();
    assert_eq!(by_prefix.name, "engine2.dll");
    let first = get_listed_module(&listing(), "").unwrap();
    assert_eq!(first.name, "cs2.exe");
}

#[test]
fn a_listed_module_is_not_found_by_the_middle_of_its_name() {
    assert_eq!(get_listed_module(&listing(), "lient.dll").err(), Some(Error::ModuleNotFound));
    assert_eq!(get_listed_module(&listing(), "navsystem.dll").err(), Some(Error::ModuleNotFound));
    assert_eq!(get_listed_module(&Vec::new(), "client.dll").err(), Some(Error::ModuleNotFound));
}

#[test]
fn an_ill_formed_name_ends_the_search() {
    let mut entries = listing();
    entries.insert(1, ModuleEntry { name: vec![0x0041, 0xD800, 0x0042, 0], base_address: 1, size: 1 });
    assert_eq!(get_listed_module(&entries, "client.dll").err(), Some(Error::InvalidText));
    let hit = get_listed_module(&entries, "cs2").unwrap();
    assert_eq!(hit.name, "cs2.exe");
}

#[test]
fn rubbish_behind_the_terminator_still_counts() {
    let mut units = wide("client.dll", 16);
    units[12] = 0xDC00;
    let entries = vec![ModuleEntry { name: units, base_address: 1, size: 1 }];
    assert_eq!(get_listed_module(&entries, "client.dll").err(), Some(Error::InvalidText));
}

#[test]
fn a_name_is_decoded_from_utf16() {
    let plain = ModuleEntry { name: wide("navsystem.dll", 32), base_address: 0, size: 0 };
    assert_eq!(module_name(&plain), Ok("navsystem.dll".to_string()));
    let pair = ModuleEntry { name: vec![0xD834, 0xDD1E, 0x006D, 0], base_address: 0, size: 0 };
    assert_eq!(module_name(&pair), Ok("𝄞m".to_string()));
    let umlaut = ModuleEntry { name: vec![0x00E4, 0x20AC], base_address: 0, size: 0 };
    assert_eq!(module_name(&umlaut), Ok("ä€".to_string()));
    let lone = ModuleEntry { name: vec![0xDD1E, 0x0041], base_address: 0, size: 0 };
    assert_eq!(module_name(&lone), Err(Error::InvalidText));
    let empty = ModuleEntry { name: Vec::new(), base_address: 0, size: 0 };
    assert_eq!(module_name(&empty), Ok(String::new()));
}

#[test]
fn a_text_is_cut_at_its_first_nul() {
    assert_eq!(cut_at_nul("client.dll\0\0\0"), "client.dll");
    assert_eq!(cut_at_nul("a\0b\0c"), "a");
    assert_eq!(cut_at_nul("\0abc"), "");
    assert_eq!(cut_at_nul("no terminator"), "no terminator");
    assert_eq!(cut_at_nul(""), "");
    assert_eq!(cut_at_nul("grüße\0x"), "grüße");
}

#[test]
fn starts_with_is_prefix_search() {
    assert!(starts_with("client.dll", "client"));
    assert!(starts_with("client.dll", ""));
    assert!(starts_with("client.dll", "client.dll"));
    assert!(!starts_with("client.dll", "lient"));
    assert!(!starts_with("client", "client.dll"));
}
