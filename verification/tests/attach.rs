use remote_mem::error::Error;
use remote_mem::memory::linux::MapRange;
use remote_mem::memory::region::{Access, LocalRegion};
use remote_mem::memory::windows::ModuleEntry;
use remote_mem::memory::Accessor;
use remote_mem::retry::Retry;
use remote_mem::sdk::linux::{owner_of, LinuxSdk};
use remote_mem::sdk::windows::WindowsSdk;
use remote_mem::sdk::{find_module, same_text, wait_for_pointer, Games, Platform, Process};

fn process(name: &str, pid: u32, parent: Option<u32>) -> Process {
    Process { name: name.to_string(), pid, parent }
}

fn range(path: &str, start: usize, size: usize, executable: bool) -> MapRange {
    MapRange { filename: Some(path.to_string()), start, size, executable }
}

fn maps() -> Vec<MapRange> {
    vec![
        range("/game/libclient.so", 0x1000, 0x100, false),
        range("/game/libclient.so", 0x2000, 0x200, true),
        range("/game/libengine2.so", 0x3000, 0x300, true),
    ]
}

fn names(list: &[&str]) -> Vec<String> {
    list.iter().map(|name| name.to_string()).collect()
}

#[test]
fn process_names_follow_the_platform() {
    assert_eq!(Games::process_names(Platform::Linux), vec![("cs2", Games::Cs2)]);
    assert_eq!(Games::process_names(Platform::Windows), vec![("cs2.exe", Games::Cs2)]);
}

#[test]
fn detection_takes_the_first_process_of_that_name() {
    let running = vec![
        process("explorer.exe", 4, None),
        process("cs2.exe", 812, Some(4)),
        process("cs2.exe", 900, Some(812)),
        process("cs2", 77, None),
    ];
    assert_eq!(Games::detect(Platform::Windows, &running), Some((Games::Cs2, 812)));
    assert_eq!(Games::detect(Platform::Linux, &running), Some((Games::Cs2, 77)));
    assert_eq!(Games::detect(Platform::Linux, &running[..3].iter().map(|p| process(&p.name, p.pid, p.parent)).collect()), None);
    assert_eq!(Games::detect(Platform::Windows, &Vec::new()), None);
    let near = vec![process("cs2.exe.bak", 1, None), process("CS2.EXE", 2, None)];
    assert_eq!(Games::detect(Platform::Windows, &near), None);
}

#[test]
fn the_owner_is_the_parent_of_the_last_process_of_that_name() {
    let running = vec![
        process("cs2", 101, Some(100)),
        process("bash", 50, Some(1)),
        process("cs2", 102, Some(200)),
        process("cs2-helper", 103, Some(300)),
    ];
    assert_eq!(owner_of(&running, "cs2"), 200);
    assert_eq!(owner_of(&running, "bash"), 1);
    assert_eq!(owner_of(&running, "zsh"), 0);
    assert_eq!(owner_of(&Vec::new(), "cs2"), 0);
    let orphan = vec![process("cs2", 101, Some(100)), process("cs2", 102, None)];
    assert_eq!(owner_of(&orphan, "cs2"), 0);
}

#[test]
fn attaching_resolves_the_modules_in_order() {
    let memory = LocalRegion::new(vec![5u8; 8]);
    let wanted = names(&["libengine2.so", "libclient.so"]);
    let sdk = LinuxSdk::new(4242, memory, &maps(), &wanted).unwrap();
    let modules = sdk.get_modules();
    assert_eq!(modules.len(), 2);
    assert_eq!(modules[0].name, "/game/libengine2.so");
    assert_eq!(modules[0].base_address, 0x3000);
    assert_eq!(modules[0].size, 0x300);
    assert_eq!(modules[1].name, "/game/libclient.so");
    assert_eq!(modules[1].base_address, 0x2000);
    assert_eq!(modules[1].size, 0x200);
    assert_eq!(sdk.get_memory().read::<u8>(0), Ok(5));
}

#[test]
fn attaching_to_no_process_fails() {
    let memory = LocalRegion::new(Vec::new());
    let r = LinuxSdk::new(0, memory, &maps(), &names(&["libclient.so"]));
    assert_eq!(r.err(), Some(Error::ProcessNotFound));
    let r = WindowsSdk::new(None, LocalRegion::new(Vec::new()), &Vec::new(), &Vec::new());
    assert_eq!(r.err(), Some(Error::ProcessNotFound));
}

#[test]
fn attaching_fails_on_a_missing_module() {
    let memory = LocalRegion::new(Vec::new());
    let wanted = names(&["libclient.so", "libserver.so", "libengine2.so"]);
    assert_eq!(LinuxSdk::new(1, memory, &maps(), &wanted).err(), Some(Error::ModuleNotFound));
    let memory = LocalRegion::new(Vec::new());
    assert_eq!(
        LinuxSdk::new(1, memory, &Vec::new(), &names(&["libclient.so"])).err(),
        Some(Error::ModuleNotFound)
    );
}

#[test]
fn attaching_without_modules_succeeds() {
    let sdk = LinuxSdk::new(1, LocalRegion::new(Vec::new()), &Vec::new(), &Vec::new()).unwrap();
    assert!(sdk.get_modules().is_empty());
    assert!(sdk.get_module("anything").is_none());
}

#[test]
fn a_resolved_module_is_looked_up_by_its_whole_name() {
    let memory = LocalRegion::new(Vec::new());
    let wanted = names(&["libclient.so", "libengine2.so"]);
    let sdk = LinuxSdk::new(1, memory, &maps(), &wanted).unwrap();
    assert_eq!(sdk.get_module("/game/libengine2.so").map(|m| m.base_address), Some(0x3000));
    assert_eq!(sdk.get_module("/game/libclient.so").map(|m| m.size), Some(0x200));
    assert!(sdk.get_module("libclient.so").is_none());
    assert!(sdk.get_module("").is_none());
}

#[test]
fn the_memory_of_an_attached_process_can_be_written() {
    let memory = LocalRegion::new(vec![0u8; 8]);
    let mut sdk = LinuxSdk::new(1, memory, &maps(), &names(&["libclient.so"])).unwrap();
    assert_eq!(sdk.get_memory_mut().write::<u32>(4, 255), Ok(()));
    assert_eq!(sdk.get_memory().read::<u32>(4), Ok(255));
    assert_eq!(sdk.get_modules().len(), 1);
}

fn entry(name: &str, base_address: usize, size: u32) -> ModuleEntry {
    let mut units: Vec<u16> = name.encode_utf16().collect();
    units.resize(256, 0);
    ModuleEntry { name: units, base_address, size }
}

fn listing() -> Vec<ModuleEntry> {
    vec![
        entry("cs2.exe", 0x1000, 0x10),
        entry("client.dll", 0x2000, 0x20),
        entry("engine2.dll", 0x3000, 0x30),
        entry("inputsystem.dll", 0x4000, 0x40),
    ]
}

#[test]
fn attaching_through_a_module_list() {
    let wanted = names(&["client.dll", "engine2.dll", "inputsystem.dll"]);
    let found = Some((Games::Cs2, 812));
    let mut sdk = WindowsSdk::new(found, LocalRegion::new(vec![0u8; 4]), &listing(), &wanted).unwrap();
    assert_eq!(sdk.get_game(), Games::Cs2);
    assert_eq!(sdk.get_modules().len(), 3);
    assert_eq!(sdk.get_module("engine2.dll").map(|m| m.base_address), Some(0x3000));
    assert_eq!(sdk.get_module("inputsystem.dll").map(|m| m.size), Some(0x40));
    assert!(sdk.get_module("engine2").is_none());
    assert_eq!(sdk.get_memory_mut().write::<u16>(0, 9), Ok(()));
    assert_eq!(sdk.get_memory().read::<u16>(0), Ok(9));
}

#[test]
fn attaching_through_a_module_list_fails_with_the_first_error() {
    let found = Some((Games::Cs2, 812));
    let wanted = names(&["client.dll", "navsystem.dll"]);
    let r = WindowsSdk::new(found, LocalRegion::new(Vec::new()), &listing(), &wanted);
    assert_eq!(r.err(), Some(Error::ModuleNotFound));
    let mut broken = listing();
    broken.insert(2, ModuleEntry { name: vec![0xD800], base_address: 0, size: 0 });
    let r = WindowsSdk::new(found, LocalRegion::new(Vec::new()), &broken, &names(&["engine2.dll"]));
    assert_eq!(r.err(), Some(Error::InvalidText));
    let r = WindowsSdk::new(found, LocalRegion::new(Vec::new()), &broken, &names(&["client.dll"]));
    assert!(r.is_ok());
}

#[test]
fn texts_are_compared_whole() {
    assert!(same_text("client.dll", "client.dll"));
    assert!(same_text("", ""));
    assert!(same_text("grüße", "grüße"));
    assert!(!same_text("client.dll", "client.dl"));
    assert!(!same_text("client.dll", "Client.dll"));
    assert!(!same_text("a", ""));
}

#[test]
fn find_module_takes_the_first_of_that_name() {
    let sdk = LinuxSdk::new(
        1,
        LocalRegion::new(Vec::new()),
        &vec![range("same", 0x10, 1, true), range("same", 0x20, 2, true)],
        &names(&["same", "same"]),
    )
    .unwrap();
    assert_eq!(find_module(sdk.get_modules(), "same").map(|m| m.base_address), Some(0x10));
    assert!(find_module(sdk.get_modules(), "other").is_none());
}

#[test]
fn a_wait_doubles_its_pause_and_gives_up() {
    let mut retry = Retry::new(4, 1_000);
    assert_eq!(retry.attempt(false), Ok(Some(1_000)));
    assert_eq!(retry.attempt(false), Ok(Some(2_000)));
    assert_eq!(retry.attempt(false), Ok(Some(4_000)));
    assert_eq!(retry, Retry { attempts_left: 1, delay_micros: 8_000 });
    assert_eq!(retry.attempt(false), Err(Error::Timeout));
    assert_eq!(retry.attempts_left, 0);
    assert_eq!(retry.attempt(false), Err(Error::Timeout));
    assert_eq!(retry.attempt(true), Ok(None));
}

#[test]
fn a_wait_ends_as_soon_as_the_thing_is_ready() {
    let mut retry = Retry::new(3, 500);
    assert_eq!(retry.attempt(false), Ok(Some(500)));
    assert_eq!(retry.attempt(true), Ok(None));
    assert_eq!(retry, Retry { attempts_left: 2, delay_micros: 1_000 });
    let mut none = Retry::new(0, 500);
    assert_eq!(none.attempt(false), Err(Error::Timeout));
    assert_eq!(none.attempt(true), Ok(None));
}

#[test]
fn the_pause_of_a_wait_stops_growing_at_its_ceiling() {
    let mut retry = Retry::new(5, u64::MAX / 2);
    assert_eq!(retry.attempt(false), Ok(Some(u64::MAX / 2)));
    assert_eq!(retry.attempt(false), Ok(Some(u64::MAX - 1)));
    assert_eq!(retry.attempt(false), Ok(Some(u64::MAX)));
    assert_eq!(retry.attempt(false), Ok(Some(u64::MAX)));
    assert_eq!(retry.attempt(false), Err(Error::Timeout));
}

#[test]
fn waiting_for_a_pointer() {
    let mut region = LocalRegion::new(vec![0u8; 24]);
    region.write::<usize>(8, 0x7f12_3456_7000).unwrap();
    assert_eq!(wait_for_pointer(&region, 8, 3), Ok(0x7f12_3456_7000));
    assert_eq!(wait_for_pointer(&region, 0, 3), Err(Error::Timeout));
    assert_eq!(wait_for_pointer(&region, 8, 0), Err(Error::Timeout));
    assert_eq!(wait_for_pointer(&region, 20, 3), Err(Error::ShortRead));
    let locked = LocalRegion::guarded(vec![1u8; 24], Access::Denied);
    assert_eq!(wait_for_pointer(&locked, 8, 3), Err(Error::AccessDenied));
}
