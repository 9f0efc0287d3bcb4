use blackbox::controller::{AppState, SubEvent};
use blackbox::notifier::{sd_change_notifier, slot_seen, watch_reported, FileNotifier, WatchAction};
use blackbox::utils::Device;

#[test]
fn the_device_in_use_is_watched_once() {
    let mut notifier = FileNotifier::new();
    assert!(notifier.file_change_notifier(AppState::Loading).is_none());
    let actions = notifier.file_change_notifier(AppState::UsingLocal).unwrap();
    assert_eq!(actions, [WatchAction::Watch(Device::Local)]);
    assert!(notifier.file_change_notifier(AppState::UsingLocal).is_none());
    let actions = notifier.file_change_notifier(AppState::UsingSD).unwrap();
    assert_eq!(actions, [WatchAction::Watch(Device::SD)]);
    let actions = notifier.file_change_notifier(AppState::UsingLocal).unwrap();
    assert!(actions.is_empty());
    assert_eq!(notifier.watching_list, [Device::Local, Device::SD]);
}

#[test]
fn loading_lets_go_and_clears_the_list() {
    let mut notifier = FileNotifier::new();
    notifier.file_change_notifier(AppState::UsingLocal);
    let actions = notifier.file_change_notifier(AppState::Loading).unwrap();
    assert_eq!(actions, [WatchAction::Unwatch(Device::Local)]);
    assert!(notifier.watching_list.is_empty());
    assert_eq!(notifier.my_last_state, AppState::Loading);
}

#[test]
fn a_device_is_watched_again_after_loading() {
    let mut notifier = FileNotifier::new();
    notifier.file_change_notifier(AppState::UsingLocal);
    notifier.file_change_notifier(AppState::Loading);
    let actions = notifier.file_change_notifier(AppState::UsingLocal).unwrap();
    assert_eq!(actions, [WatchAction::Watch(Device::Local)]);
    assert_eq!(notifier.watching_list, [Device::Local]);
}

#[test]
fn a_device_is_let_go_once() {
    let mut notifier = FileNotifier::new();
    notifier.file_change_notifier(AppState::UsingSD);
    notifier.file_change_notifier(AppState::Loading);
    assert!(notifier.file_change_notifier(AppState::ResetSD).unwrap().is_empty());
}

#[test]
fn a_card_to_format_clears_the_list() {
    let mut notifier = FileNotifier::new();
    notifier.file_change_notifier(AppState::UsingSD);
    notifier.file_change_notifier(AppState::UsingLocal);
    let actions = notifier.file_change_notifier(AppState::ResetSD).unwrap();
    assert_eq!(actions, [WatchAction::Unwatch(Device::SD), WatchAction::Unwatch(Device::Local)]);
    assert!(notifier.watching_list.is_empty());
    let actions = notifier.file_change_notifier(AppState::UsingSD).unwrap();
    assert_eq!(actions, [WatchAction::Watch(Device::SD)]);
}

#[test]
fn only_reports_without_an_error_count() {
    assert_eq!(watch_reported(true), Some(SubEvent::FileChangeDetect));
    assert_eq!(watch_reported(false), None);
}

#[test]
fn changes_of_the_slot_are_told_in_turn() {
    let mut last = false;
    let mut events = vec![];
    for state in [false, true, true, false, false, true] {
        if let Some(event) = slot_seen(&mut last, state) {
            events.push(event);
        }
        assert_eq!(last, state);
    }
    assert_eq!(events, [SubEvent::SDInserted, SubEvent::SDRemoved, SubEvent::SDInserted]);
}

#[test]
fn the_slot_is_seen_in_the_list_of_disks() {
    let mut last = false;
    assert_eq!(sd_change_notifier(&mut last, b"NAME\nmmcblk0\n"), None);
    assert_eq!(sd_change_notifier(&mut last, b"NAME\nmmcblk0\nmmcblk1\n"), Some(SubEvent::SDInserted));
    assert_eq!(sd_change_notifier(&mut last, b"NAME\nmmcblk1\n"), None);
    assert_eq!(sd_change_notifier(&mut last, b""), Some(SubEvent::SDRemoved));
    assert!(!last);
}

#[test]
fn the_devices_on_the_list_are_those_watched() {
    let states = [AppState::Loading, AppState::ResetSD, AppState::UsingSD, AppState::UsingLocal];
    let mut notifier = FileNotifier::new();
    let mut watched: Vec<Device> = vec![];
    for i in 0..256usize {
        let state = states[(i * i + i / 3) % 4];
        for action in notifier.file_change_notifier(state).unwrap_or_default() {
            match action {
                WatchAction::Watch(device) => {
                    assert!(!watched.contains(&device));
                    watched.push(device);
                }
                WatchAction::Unwatch(device) => {
                    assert!(watched.contains(&device));
                    watched.retain(|d| *d != device);
                }
            }
        }
        assert_eq!(watched, notifier.watching_list);
        match state {
            AppState::UsingSD => assert!(watched.contains(&Device::SD)),
            AppState::UsingLocal => assert!(watched.contains(&Device::Local)),
            _ => assert!(watched.is_empty()),
        }
    }
}
