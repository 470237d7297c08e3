use rquake::{
    EventAction, GameResources, GameResourcesImpl, Host, NativeSoundEngine, PackFile, PackScan,
    ReadError, SoundEngine,
};
use std::cell::RefCell;
use std::rc::Rc;

/// A sound device that writes down what is asked of it.
struct RecordingDevice {
    log: Rc<RefCell<Vec<String>>>,
}

impl NativeSoundEngine for RecordingDevice {
    fn init(&mut self) {
        self.log.borrow_mut().push("device init".to_string());
    }

    fn shutdown(&mut self) {
        self.log.borrow_mut().push("device shutdown".to_string());
    }
}

/// Resources that write down which directories they were given.
struct RecordingResources {
    log: Rc<RefCell<Vec<String>>>,
}

impl GameResources for RecordingResources {
    fn add_game_directory(&mut self, path: &str) {
        self.log.borrow_mut().push(format!("add {}", path));
    }
}

fn pack_named(names: &[&str]) -> Vec<u8> {
    let mut data = Vec::new();
    data.extend_from_slice(b"PACK");
    data.extend_from_slice(&12u32.to_le_bytes());
    data.extend_from_slice(&(names.len() as u32 * 64).to_le_bytes());
    for name in names {
        let mut field = [0u8; 56];
        field[..name.len()].copy_from_slice(name.as_bytes());
        data.extend_from_slice(&field);
        data.extend_from_slice(&[0u8; 8]);
    }
    data
}

#[test]
fn sound_engine_drives_its_device() {
    let log = Rc::new(RefCell::new(Vec::new()));
    let mut snd = SoundEngine::new(Box::new(RecordingDevice { log: log.clone() }));
    assert!(log.borrow().is_empty());
    snd.init();
    assert_eq!(*log.borrow(), vec!["device init"]);
    snd.update();
    assert_eq!(*log.borrow(), vec!["device init"]);
    snd.shutdown();
    assert_eq!(*log.borrow(), vec!["device init", "device shutdown"]);
}

#[test]
fn host_adds_the_base_directory_then_starts_the_sound() {
    let log = Rc::new(RefCell::new(Vec::new()));
    let mut game_res = RecordingResources { log: log.clone() };
    let mut snd = SoundEngine::new(Box::new(RecordingDevice { log: log.clone() }));
    let mut host = Host::new(&mut game_res, &mut snd);
    assert!(log.borrow().is_empty());
    host.init();
    assert_eq!(*log.borrow(), vec!["add Id1", "device init"]);
    host.shutdown();
    assert_eq!(*log.borrow(), vec!["add Id1", "device init", "device shutdown"]);
}

#[test]
fn host_works_on_what_its_owner_keeps() {
    let log = Rc::new(RefCell::new(Vec::new()));
    let mut game_res = RecordingResources { log: log.clone() };
    let mut snd = SoundEngine::new(Box::new(RecordingDevice { log: log.clone() }));
    {
        let mut host = Host::new(&mut game_res, &mut snd);
        host.init();
    }
    // the owner goes on with the same resources and the same engine
    game_res.add_game_directory("hipnotic");
    snd.shutdown();
    assert_eq!(*log.borrow(), vec!["add Id1", "device init", "add hipnotic", "device shutdown"]);
}

#[test]
fn event_actions_compare() {
    assert_eq!(EventAction::ToggleFullscreen, EventAction::ToggleFullscreen);
    let actions = vec![EventAction::ToggleFullscreen];
    assert_eq!(actions.len(), 1);
}

#[test]
fn pack_files_of_a_directory_are_numbered_from_zero() {
    let mut resources = GameResourcesImpl::new();
    let mut scan = PackScan::new();
    assert_eq!(scan.number(), 0);
    assert_eq!(scan.path("Id1"), "Id1/pak0.pak");
    assert!(resources.add_pack(&mut scan, PackFile::open(pack_named(&["a"]))));
    assert_eq!(scan.path("Id1"), "Id1/pak1.pak");
    for _ in 1..10 {
        assert!(resources.add_pack(&mut scan, PackFile::open(pack_named(&["a"]))));
    }
    assert_eq!(scan.number(), 10);
    assert_eq!(scan.path("Id1"), "Id1/pak10.pak");
    for _ in 10..105 {
        assert!(resources.add_pack(&mut scan, PackFile::open(pack_named(&[]))));
    }
    assert_eq!(scan.path("games/quake/Id1"), "games/quake/Id1/pak105.pak");
    assert_eq!(scan.path(""), "/pak105.pak");
    assert_eq!(scan.path("Id1/"), "Id1//pak105.pak");
    assert_eq!(resources.len(), 105);
}

#[test]
fn resources_collect_pack_files_until_one_does_not_open() {
    let mut resources = GameResourcesImpl::new();
    let mut scan = PackScan::new();
    assert_eq!(resources.len(), 0);
    assert!(resources.pack(0).is_none());
    assert!(resources.add_pack(&mut scan, PackFile::open(pack_named(&["a"]))));
    assert!(resources.add_pack(&mut scan, PackFile::open(pack_named(&["b", "c"]))));
    assert_eq!(resources.len(), 2);
    assert_eq!(scan.number(), 2);
    // the first failure ends the directory and is no error
    assert!(!resources.add_pack(&mut scan, Err(ReadError::FileNotFound)));
    assert_eq!(resources.len(), 2);
    assert_eq!(scan.number(), 2);
    assert!(!resources.add_pack(&mut scan, PackFile::open(b"JUNK".to_vec())));
    assert_eq!(resources.len(), 2);
    // in the order in which they were added
    assert_eq!(resources.pack(0).unwrap().len(), 1);
    assert_eq!(resources.pack(1).unwrap().len(), 2);
    assert_eq!(resources.pack(1).unwrap().entry(1).unwrap().name, "c");
    assert!(resources.pack(2).is_none());
}

#[test]
fn resources_of_a_second_directory_come_behind_the_first() {
    let mut resources = GameResourcesImpl::new();
    let mut scan = PackScan::new();
    assert!(resources.add_pack(&mut scan, PackFile::open(pack_named(&["first"]))));
    assert!(!resources.add_pack(&mut scan, Err(ReadError::FileNotFound)));
    // each directory is walked from zero
    let mut scan = PackScan::new();
    assert_eq!(scan.path("hipnotic"), "hipnotic/pak0.pak");
    assert!(resources.add_pack(&mut scan, PackFile::open(pack_named(&["second"]))));
    assert_eq!(resources.len(), 2);
    assert_eq!(resources.pack(1).unwrap().entry(0).unwrap().name, "second");
}
