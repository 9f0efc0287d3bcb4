use blackbox::controller::{
    AppState, BlackBox, Command, Effect, Gauge, Message, Screen, SubEvent, Update,
};
use blackbox::recorder::RecorderState;
use blackbox::utils::Device;

/// The effects of an update, in short.
fn told(update: &Update) -> Vec<String> {
    update
        .effects
        .iter()
        .map(|effect| match effect {
            Effect::SetRecorder(RecorderState::Stop) => "stop".to_string(),
            Effect::SetRecorder(RecorderState::Record(device)) => format!("record {:?}", device),
            Effect::SetNotifier(state) => format!("notify {:?}", state),
            Effect::MountSdCard(fs_type) => format!("mount {}", fs_type),
            Effect::CreateFolder(path) => format!("create {}", path),
        })
        .collect()
}

fn new() -> BlackBox {
    BlackBox::new().0
}

#[test]
fn the_recorder_starts_by_looking_for_a_card() {
    let (recorder, command) = BlackBox::new();
    assert_eq!(command, Command::CheckSdInsertion);
    assert_eq!(recorder.state, AppState::Loading);
    assert_eq!(recorder.state_message, "Initializing...");
    assert_eq!(recorder.recorder_state, RecorderState::Stop);
    assert!(!recorder.is_recording && !recorder.is_wating_to_record);
    assert_eq!(recorder.title(), "Spidercore-BlackBox");
}

#[test]
fn a_card_that_came_in_is_looked_at() {
    let mut recorder = new();
    let update = recorder.update(Message::SDInserted);
    assert_eq!(told(&update), ["stop", "notify Loading"]);
    assert_eq!(update.command, Command::CheckSdFormat);
    assert_eq!(recorder.state_message, "SD Card Insertion Detected!");
}

#[test]
fn a_supported_card_is_mounted_and_recorded_to() {
    for fs_type in ["ext4", "exfat", "vfat"] {
        let mut recorder = new();
        let update = recorder.update(Message::SDFormatChecked(fs_type.to_string()));
        assert_eq!(told(&update), [format!("mount {}", fs_type), "notify UsingSD".to_string(), "record SD".to_string()]);
        assert_eq!(update.command, Command::CheckTargetSpace(Device::SD));
        assert_eq!(recorder.storage.target, Device::SD);
        assert_eq!(recorder.storage.format, fs_type);
        assert_eq!(recorder.storage.folder, "/media/sdcard");
        assert_eq!(recorder.state, AppState::UsingSD);
    }
}

#[test]
fn another_card_is_refused() {
    for fs_type in ["", "ntfs", "ext3", "EXT4"] {
        let mut recorder = new();
        let update = recorder.update(Message::SDFormatChecked(fs_type.to_string()));
        assert_eq!(told(&update), ["notify ResetSD"]);
        assert_eq!(update.command, Command::Nothing);
        assert_eq!(recorder.state, AppState::ResetSD);
        assert_eq!(recorder.storage.target, Device::Local);
        assert_eq!(
            recorder.state_message,
            "Unsupported SD Format Found!\nOnly exfat, ext4 format usb allowed\nFormat the usb, and retry"
        );
    }
}

#[test]
fn without_a_card_the_local_disk_is_used() {
    let mut recorder = new();
    let update = recorder.update(Message::SDRemoved);
    assert_eq!(
        told(&update),
        ["stop", "create /home/team3/blackbox", "notify UsingLocal", "record Local"]
    );
    assert_eq!(update.command, Command::CheckTargetSpace(Device::Local));
    assert_eq!(recorder.storage.folder, "/home/team3/blackbox");
    assert_eq!(recorder.state_message, "SD Card is removed!");
}

#[test]
fn a_new_recording_waits_for_the_last() {
    let mut recorder = new();
    recorder.update(Message::SDFormatChecked("ext4".to_string()));
    recorder.update(Message::RecorderStarted);
    assert!(recorder.is_recording);
    assert_eq!(recorder.state_message, "\u{25b6}\u{fe0f}    Recording!");
    let update = recorder.update(Message::SDRemoved);
    assert_eq!(told(&update), ["stop", "create /home/team3/blackbox", "notify UsingLocal"]);
    assert!(recorder.is_wating_to_record);
    assert_eq!(recorder.recorder_state, RecorderState::Stop);
    let update = recorder.update(Message::RecorderStopped);
    assert_eq!(told(&update), ["record Local"]);
    assert!(!recorder.is_wating_to_record && !recorder.is_recording);
    assert_eq!(recorder.state_message, "\u{1f6d1}    Recording Stopped!");
    let update = recorder.update(Message::RecorderStopped);
    assert!(update.effects.is_empty());
}

#[test]
fn little_room_stops_the_recorder() {
    let mut recorder = new();
    recorder.update(Message::SDRemoved);
    let update = recorder.update(Message::StorageChangeDetect(1000000000, 209715201));
    assert!(update.effects.is_empty());
    assert_eq!(recorder.recorder_state, RecorderState::Record(Device::Local));
    let update = recorder.update(Message::StorageChangeDetect(1000000000, 209715200));
    assert_eq!(told(&update), ["stop"]);
    assert_eq!(recorder.recorder_state, RecorderState::Stop);
    assert_eq!((recorder.storage.total_space, recorder.storage.avail_space), (1000000000, 209715200));
}

#[test]
fn a_changed_file_has_the_room_measured() {
    let mut recorder = new();
    assert_eq!(recorder.update(Message::FileChangeDetect).command, Command::CheckTargetSpace(Device::Local));
    recorder.update(Message::SDFormatChecked("vfat".to_string()));
    assert_eq!(recorder.update(Message::FileChangeDetect).command, Command::CheckTargetSpace(Device::SD));
}

#[test]
fn events_become_messages() {
    assert!(matches!(BlackBox::subscription(SubEvent::FileChangeDetect), Message::FileChangeDetect));
    assert!(matches!(BlackBox::subscription(SubEvent::SDInserted), Message::SDInserted));
    assert!(matches!(BlackBox::subscription(SubEvent::SDRemoved), Message::SDRemoved));
    assert!(matches!(BlackBox::subscription(SubEvent::PipeRunning), Message::RecorderStarted));
    assert!(matches!(BlackBox::subscription(SubEvent::PipeStopped), Message::RecorderStopped));
}

#[test]
fn the_watcher_always_knows_the_state() {
    let mut recorder = new();
    let messages = [
        Message::SDInserted,
        Message::SDFormatChecked("ntfs".to_string()),
        Message::SDRemoved,
        Message::SDInserted,
        Message::SDFormatChecked("exfat".to_string()),
        Message::RecorderStarted,
        Message::StorageChangeDetect(1, 0),
        Message::RecorderStopped,
    ];
    for message in messages {
        recorder.update(message);
        assert_eq!(recorder.file_state, recorder.state);
        assert!(!recorder.is_wating_to_record || recorder.is_recording);
    }
}

#[test]
fn the_device_shown_is_the_one_recorded_to() {
    let messages = [
        Message::SDInserted,
        Message::SDFormatChecked("vfat".to_string()),
        Message::SDRemoved,
        Message::SDFormatChecked("ntfs".to_string()),
        Message::StorageChangeDetect(9, 3),
        Message::RecorderStarted,
        Message::RecorderStopped,
        Message::FileChangeDetect,
    ];
    let mut recorder = new();
    for i in 0..256usize {
        recorder.update(messages[(i * i + i / 5) % 8].clone());
        let storage = (recorder.storage.target, recorder.storage.folder.as_str());
        match recorder.state {
            AppState::UsingSD => assert_eq!(storage, (Device::SD, "/media/sdcard")),
            AppState::UsingLocal => assert_eq!(storage, (Device::Local, "/home/team3/blackbox")),
            _ => {}
        }
    }
}

#[test]
fn the_screen_shows_the_state() {
    let mut recorder = new();
    match recorder.view_screen() {
        Screen::Loading { heading, message } => {
            assert_eq!((heading.as_str(), message.as_str()), ("AppState: Loading", "Initializing..."));
        }
        _ => panic!("still loading"),
    }
    recorder.update(Message::SDFormatChecked("ntfs".to_string()));
    assert!(matches!(recorder.view_screen(), Screen::ResetSD { .. }));
}

#[test]
fn the_screen_shows_a_card() {
    let mut recorder = new();
    recorder.update(Message::SDFormatChecked("ext4".to_string()));
    match recorder.view_screen() {
        Screen::InUse { device, caption, gauge, room, .. } => {
            assert_eq!(device, Device::SD);
            assert_eq!(caption, "SD Card (ext4)");
            assert_eq!(gauge, Gauge::Percent(100));
            assert_eq!(room, "0.00 KB free of 0.00 KB");
        }
        _ => panic!("the card is in use"),
    }
    recorder.update(Message::StorageChangeDetect(4294967296, 1073741824));
    match recorder.view_screen() {
        Screen::InUse { gauge, room, message, .. } => {
            assert_eq!(gauge, Gauge::Used { used: 3221225472, total: 4294967296 });
            assert_eq!(room, "1.00 GB free of 4.00 GB");
            assert_eq!(message, "Initializing...");
        }
        _ => panic!("the card is in use"),
    }
}

#[test]
fn the_screen_shows_the_local_disk() {
    let mut recorder = new();
    recorder.update(Message::SDRemoved);
    match recorder.view_screen() {
        Screen::InUse { device, caption, gauge, message, .. } => {
            assert_eq!(device, Device::Local);
            assert_eq!(caption, "Local Storage");
            assert_eq!(gauge, Gauge::Percent(0));
            assert_eq!(message, "SD Card is removed!");
        }
        _ => panic!("the disk is in use"),
    }
}

#[test]
fn the_threads_are_told_what_is_decided() {
    let (mut recorder, _) = BlackBox::new();
    let mut order = recorder.recorder_state;
    let mut notice = recorder.file_state;
    let messages = [
        Message::SDInserted,
        Message::SDFormatChecked("vfat".to_string()),
        Message::RecorderStarted,
        Message::SDRemoved,
        Message::StorageChangeDetect(5, 5),
        Message::RecorderStopped,
        Message::SDFormatChecked("ntfs".to_string()),
        Message::FileChangeDetect,
    ];
    for message in messages {
        let copy = message.clone();
        assert_eq!(format!("{:?}", copy), format!("{:?}", message));
        for effect in recorder.update(message).effects {
            match effect {
                Effect::SetRecorder(state) => order = state,
                Effect::SetNotifier(state) => notice = state,
                _ => {}
            }
        }
        assert_eq!(recorder.recorder_state, order);
        assert_eq!(recorder.file_state, notice);
    }
}
