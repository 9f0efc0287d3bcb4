use blackbox::controller::Message;
use blackbox::utils::{
    camera_folder, check_disk_mounted, check_sd_format, check_sd_insertion, check_target_space,
    fs_type_of, mount_sd_card, oldest_first, prettify_space, remove_old_files, sd_partition,
    workdir, Cleanup, Device, Disk, Entry, Storage, LOCAL_WORKDIR, SD_DEVICE, SD_WORKDIR,
};

fn in_floating_point(space: u64) -> String {
    if space >= 1099511627776 {
        format!("{:.2} TB", space as f64 / 1099511627776.0)
    } else if space >= 1073741824 {
        format!("{:.2} GB", space as f64 / 1073741824.0)
    } else if space >= 1048576 {
        format!("{:.2} MB", space as f64 / 1048576.0)
    } else {
        format!("{:.2} KB", space as f64 / 1024.0)
    }
}

#[test]
fn sizes_are_shown_with_two_decimals() {
    assert_eq!(prettify_space(0), "0.00 KB");
    assert_eq!(prettify_space(1), "0.00 KB");
    assert_eq!(prettify_space(1536), "1.50 KB");
    assert_eq!(prettify_space(1048576), "1.00 MB");
    assert_eq!(prettify_space(209715200), "200.00 MB");
    assert_eq!(prettify_space(1073741824), "1.00 GB");
    assert_eq!(prettify_space(1099511627776), "1.00 TB");
    assert_eq!(prettify_space(u64::MAX), "16777216.00 TB");
}

#[test]
fn a_size_just_below_a_unit_rounds_up_in_the_smaller_one() {
    assert_eq!(prettify_space(1048575), "1024.00 KB");
    assert_eq!(prettify_space(1073741823), "1024.00 MB");
}

#[test]
fn a_tie_goes_to_the_even_digit() {
    assert_eq!(prettify_space(128), "0.12 KB");
    assert_eq!(prettify_space(384), "0.38 KB");
    assert_eq!(prettify_space(128 * 1024 + 1048576), "1.12 MB");
}

#[test]
fn small_sizes_match_floating_point() {
    for space in 0..300000u64 {
        assert_eq!(prettify_space(space), in_floating_point(space));
    }
}

#[test]
fn large_sizes_match_floating_point() {
    let mut space: u64 = 1;
    for i in 0..200000u64 {
        space = space.wrapping_mul(6364136223846793005).wrapping_add(1442695040888963407);
        let shifted = space >> (i % 60);
        assert_eq!(prettify_space(shifted), in_floating_point(shifted), "{}", shifted);
    }
}

#[test]
fn sizes_around_powers_of_two_match_floating_point() {
    for power in 0..64u32 {
        let base: u64 = 1 << power;
        for distance in 0..3000u64 {
            for space in [base.saturating_add(distance), base.saturating_sub(distance)] {
                assert_eq!(prettify_space(space), in_floating_point(space), "{}", space);
            }
        }
    }
    for distance in 0..5000u64 {
        let space = u64::MAX - distance;
        assert_eq!(prettify_space(space), in_floating_point(space), "{}", space);
    }
}

#[test]
fn storage_starts_on_the_local_disk() {
    assert_eq!(Device::default(), Device::Local);
    let storage = Storage::default();
    assert_eq!(storage.target, Device::Local);
    assert_eq!(storage.format, "");
    assert_eq!(storage.folder, "");
    assert_eq!((storage.total_space, storage.avail_space), (0, 0));
}

#[test]
fn devices_have_their_places() {
    assert_eq!(workdir(Device::SD), "/media/sdcard");
    assert_eq!(workdir(Device::Local), "/home/team3/blackbox");
    assert_eq!(sd_partition(), "/dev/mmcblk1p1");
    assert_eq!((SD_WORKDIR, LOCAL_WORKDIR, SD_DEVICE), ("/media/sdcard", "/home/team3/blackbox", "mmcblk1"));
}

#[test]
fn a_listed_disk_is_mounted() {
    let output = b"NAME\nmmcblk0\nmmcblk1\n";
    assert!(check_disk_mounted(output, "mmcblk1"));
    assert!(!check_disk_mounted(output, "mmcblk2"));
    assert!(!check_disk_mounted(b"", "mmcblk1"));
    assert!(!check_disk_mounted(b"", ""));
    assert!(check_disk_mounted(b"x", ""));
}

#[test]
fn a_listing_may_hold_bytes_that_are_no_text() {
    assert!(check_disk_mounted(b"\xff\xfe mmcblk1 \xc3", "mmcblk1"));
    assert!(check_disk_mounted(b"a\xffb", "a\u{fffd}b"));
    assert!(!check_disk_mounted(b"mmc\xffblk1", "mmcblk1"));
}

#[test]
fn the_card_is_in_when_its_device_is_listed() {
    assert!(matches!(check_sd_insertion(b"NAME\nmmcblk1\n"), Message::SDInserted));
    assert!(matches!(check_sd_insertion(b"NAME\nmmcblk0\n"), Message::SDRemoved));
    assert!(matches!(check_sd_insertion(b""), Message::SDRemoved));
}

#[test]
fn the_file_system_is_read_from_blkid() {
    let line = "/dev/mmcblk1p1: UUID=\"1234\" TYPE=\"ext4\" PARTUUID=\"x\"\n";
    assert_eq!(fs_type_of(line), "ext4");
    assert_eq!(check_sd_format(true, line.as_bytes().to_vec()), "ext4");
    assert_eq!(check_sd_format(false, line.as_bytes().to_vec()), "");
    assert_eq!(check_sd_format(true, b"/dev/mmcblk1p1: UUID=\"1\"\n".to_vec()), "");
    assert_eq!(check_sd_format(false, vec![0xff]), "");
}

#[test]
fn only_the_first_type_counts() {
    assert_eq!(fs_type_of("TYPE=\"ext4\" TYPE=\"vfat\""), "ext4");
    assert_eq!(fs_type_of("TYPE=TYPE=\"vfat\""), "");
    assert_eq!(fs_type_of("TYPE="), "");
    assert_eq!(fs_type_of("TYPE=  exfat\tx"), "exfat");
}

#[test]
fn other_fields_are_not_the_type() {
    assert_eq!(fs_type_of("SEC_TYPE=\"msdos\" TYPE=\"vfat\""), "vfat");
    assert_eq!(
        fs_type_of("/dev/mmcblk1p1: SEC_TYPE=\"msdos\" UUID=\"1A2B-3C4D\" TYPE=\"vfat\"\n"),
        "vfat"
    );
    assert_eq!(fs_type_of("TYPE=\"vfat\" PTTYPE=\"dos\""), "vfat");
    assert_eq!(fs_type_of("PTTYPE=\"dos\""), "");
    assert_eq!(fs_type_of("/dev/mmcblk1p1:TYPE=\"ext4\""), "ext4");
    assert_eq!(fs_type_of("SEC_TYPE=\"msdos\",TYPE=\"vfat\" PTTYPE=\"dos\""), "vfat");
    assert_eq!(fs_type_of("SEC-TYPE=\"msdos\" ID2TYPE=\"x\""), "");
    assert_eq!(
        check_sd_format(true, b"/dev/mmcblk1p1: SEC_TYPE=\"msdos\" TYPE=\"vfat\"\n".to_vec()),
        "vfat"
    );
}

#[test]
fn a_card_is_mounted_once() {
    let arguments = mount_sd_card("ext4", b"MOUNTPOINT\n/\n").unwrap();
    assert_eq!(arguments, ["-t", "ext4", "/dev/mmcblk1p1", "/media/sdcard"]);
    assert!(mount_sd_card("ext4", b"MOUNTPOINT\n/media/sdcard\n").is_none());
    assert!(mount_sd_card("vfat", b"").is_some());
}

fn disk(name: &str, total_space: u64, available_space: u64) -> Disk {
    Disk { name: name.to_string(), total_space, available_space }
}

#[test]
fn space_is_that_of_the_first_disk_of_the_name() {
    let disks = vec![
        disk("/dev/sda1", 1, 2),
        disk("/dev/mmcblk1p1", 300, 200),
        disk("/dev/mmcblk0p1", 500, 400),
        disk("/dev/mmcblk1p1", 7, 8),
    ];
    assert_eq!(check_target_space(Device::SD, &disks), (300, 200));
    assert_eq!(check_target_space(Device::Local, &disks), (500, 400));
    assert_eq!(check_target_space(Device::SD, &vec![]), (0, 0));
    assert_eq!(check_target_space(Device::Local, &vec![disk("/dev/mmcblk1p1", 1, 1)]), (0, 0));
}

#[test]
fn nothing_is_removed_while_there_is_room() {
    let sd = |room: u64| vec![disk("/dev/mmcblk0p1", 9, 9), disk("/dev/mmcblk1p1", u64::MAX, room)];
    assert!(remove_old_files(Device::SD, &sd(160000001)).is_none());
    assert!(remove_old_files(Device::SD, &sd(160000000)).is_none());
    assert_eq!(
        remove_old_files(Device::SD, &sd(159999999)).unwrap(),
        [
            "/media/sdcard/camera_0",
            "/media/sdcard/camera_1",
            "/media/sdcard/camera_2",
            "/media/sdcard/camera_3",
        ]
    );
    assert_eq!(remove_old_files(Device::Local, &vec![]).unwrap()[3], "/home/team3/blackbox/camera_3");
    assert_eq!(camera_folder("/x", 2), "/x/camera_2");
}

fn entry(name: &str, is_dir: bool) -> Entry {
    Entry { name: name.to_string(), is_dir }
}

#[test]
fn files_go_by_name_and_directories_stay() {
    let entries = vec![
        entry("20240102_000000_0.mp4", false),
        entry("20240101_000000_1.mp4", false),
        entry("20231231", true),
        entry("20240101_000000_0.mp4", false),
        entry("20240101_000000_1.mp4", false),
    ];
    assert_eq!(oldest_first(&entries), [3, 1, 4, 0]);
    assert!(oldest_first(&vec![]).is_empty());
}

#[test]
fn the_order_is_that_of_a_stable_sort() {
    let names = ["b", "a", "c", "a", "", "b", "\u{e9}", "aa", "a", "\u{10000}", "\u{ffff}"];
    let entries: Vec<Entry> = names.iter().map(|name| entry(name, false)).collect();
    let mut expected: Vec<usize> = (0..names.len()).collect();
    expected.sort_by(|a, b| names[*a].cmp(names[*b]));
    assert_eq!(oldest_first(&entries), expected);
}

fn remove_from(files: &[(&str, u64)]) -> (Vec<String>, i32) {
    let entries: Vec<Entry> = files.iter().map(|file| entry(file.0, false)).collect();
    let mut cleanup = Cleanup::new(&entries);
    let mut removed = vec![];
    while let Some(position) = cleanup.next() {
        removed.push(entries[position].name.clone());
        cleanup.file_removed(files[position].1);
    }
    (removed, cleanup.counter)
}

#[test]
fn two_videos_are_removed_however_many_small_files_go_with_them() {
    let files = [("e", 40000000), ("b", 30000000), ("c", 10000000), ("a", 0), ("d", 10000001)];
    assert_eq!(remove_from(&files), (vec!["a".into(), "b".into(), "c".into(), "d".into()], 0));
}

#[test]
fn small_files_alone_do_not_end_the_removal() {
    let files = [("c", 10000000), ("a", 0), ("b", 1)];
    assert_eq!(remove_from(&files), (vec!["a".into(), "b".into(), "c".into()], 2));
    assert_eq!(remove_from(&[]), (vec![], 2));
}

#[test]
fn at_least_one_of_the_unit_is_shown() {
    for space in [1048576u64, 1048577, 1073741823, 1073741824, 1099511627776, 9007199254740993] {
        assert!(!prettify_space(space).starts_with('0'), "{}", space);
    }
}
