//! Storage devices: where they stand, how much room they have, what is removed from them.

use vstd::arithmetic::power2::*;
use vstd::prelude::*;
use vstd::utf8::*;

use crate::controller::Message;
use crate::text;

verus! {

/// The directory that recordings on the local disk go to.
pub const LOCAL_WORKDIR: &'static str = "/home/team3/blackbox";

/// The directory that the SD card is mounted on.
pub const SD_WORKDIR: &'static str = "/media/sdcard";

/// The name of the SD card's block device.
pub const SD_DEVICE: &'static str = "mmcblk1";

/// The device file of the local disk.
pub const LOCAL_PARTITION: &'static str = "/dev/mmcblk0p1";

/// A place to record to.
#[derive(Debug, Copy, Clone, PartialEq, Eq, Structural)]
pub enum Device {
    SD,
    Local,
}

impl Default for Device {
    fn default() -> (device: Self)
        ensures
            device == Device::Local,
    {
        Device::Local
    }
}

/// The storage that is recorded to, and the room on it in bytes.
#[derive(Debug)]
pub struct Storage {
    pub target: Device,
    pub format: String,
    pub folder: String,
    pub total_space: u64,
    pub avail_space: u64,
}

/// What a `Storage` says, with its texts as character sequences.
#[verifier::ext_equal]
pub struct StorageView {
    pub target: Device,
    pub format: Seq<char>,
    pub folder: Seq<char>,
    pub total_space: u64,
    pub avail_space: u64,
}

impl View for Storage {
    type V = StorageView;

    open spec fn view(&self) -> StorageView {
        StorageView {
            target: self.target,
            format: self.format@,
            folder: self.folder@,
            total_space: self.total_space,
            avail_space: self.avail_space,
        }
    }
}

impl Default for Storage {
    fn default() -> (storage: Self)
        ensures
            storage@ == (StorageView {
                target: Device::Local,
                format: Seq::empty(),
                folder: Seq::empty(),
                total_space: 0,
                avail_space: 0,
            }),
    {
        Storage {
            target: Device::default(),
            format: String::new(),
            folder: String::new(),
            total_space: 0,
            avail_space: 0,
        }
    }
}

/// The directory that recordings on a device go to.
pub open spec fn workdir_of(device: Device) -> Seq<char> {
    match device {
        Device::SD => SD_WORKDIR@,
        Device::Local => LOCAL_WORKDIR@,
    }
}

/// The directory that recordings on a device go to.
pub fn workdir(device: Device) -> (dir: &'static str)
    ensures
        dir@ == workdir_of(device),
{
    match device {
        Device::SD => SD_WORKDIR,
        Device::Local => LOCAL_WORKDIR,
    }
}

/// The device file of the SD card's first partition.
pub open spec fn sd_partition_path() -> Seq<char> {
    "/dev/"@ + SD_DEVICE@ + "p1"@
}

/// The device file that a device's file system is on.
pub open spec fn partition_of(device: Device) -> Seq<char> {
    match device {
        Device::SD => sd_partition_path(),
        Device::Local => LOCAL_PARTITION@,
    }
}

/// The device file of the SD card's first partition.
pub fn sd_partition() -> (path: String)
    ensures
        path@ == sd_partition_path(),
{
    let mut path = "/dev/".to_owned();
    path.append(SD_DEVICE);
    path.append("p1");
    path
}

// ---------------------------------------------------------------------------
// What the system says of its disks
// ---------------------------------------------------------------------------

/// The output of a listing command names `target`. An empty output names nothing.
pub open spec fn lists(output: Seq<u8>, target: Seq<char>) -> bool {
    output.len() > 0 && text::contains(text::readable(output), target)
}

/// Whether the output of `lsblk -o NAME` lists the block device `target`.
pub fn check_disk_mounted(lsblk_output: &[u8], target: &str) -> (mounted: bool)
    ensures
        mounted == lists(lsblk_output@, target@),
{
    if lsblk_output.len() == 0 {
        return false;
    }
    let listing: String = text::text_from_utf8_lossy(lsblk_output);
    text::text_contains(listing.as_str(), target)
}

/// The SD card is in where the output of `lsblk -o NAME` lists it.
pub open spec fn card_is_in(lsblk_output: Seq<u8>) -> bool {
    lists(lsblk_output, SD_DEVICE@)
}

/// The message that tells whether the SD card is in, from the output of `lsblk -o NAME`.
pub fn check_sd_insertion(lsblk_output: &[u8]) -> (message: Message)
    ensures
        message == (if lists(lsblk_output@, SD_DEVICE@) {
            Message::SDInserted
        } else {
            Message::SDRemoved
        }),
        message is SDInserted <==> card_is_in(lsblk_output@),
        message is SDRemoved <==> !card_is_in(lsblk_output@),
{
    if check_disk_mounted(lsblk_output, SD_DEVICE) {
        return Message::SDInserted;
    }
    Message::SDRemoved
}

/// The file system that a line of `blkid` names: the first word after its `TYPE=` field, up to
/// any further `TYPE=`, without its quotes. Empty where the line has no such field; `SEC_TYPE=`
/// and the like are other fields.
pub open spec fn fs_type_in(line: Seq<char>) -> Seq<char> {
    if text::has_field(line, "TYPE="@) {
        text::first_word(text::up_to(text::after_field(line, "TYPE="@), "TYPE="@)).filter(
            |c: char| c != '"',
        )
    } else {
        Seq::empty()
    }
}

/// The file system that a line of `blkid` names.
pub fn fs_type_of(line: &str) -> (fs_type: String)
    ensures
        fs_type@ == fs_type_in(line@),
{
    let mut chars: Vec<char> = text::chars_of(line);
    let key: Vec<char> = text::chars_of("TYPE=");
    match text::find_field(&chars, &key) {
        None => String::new(),
        Some(at) => {
            assert(at + key.len() <= chars.len());
            let mut piece: Vec<char> = chars.split_off(at + key.len());
            if let Some(end) = text::find(&piece, &key) {
                piece.truncate(end);
            }
            text::word_without(&piece, '"')
        },
    }
}

/// The file system that a line names in quotes is what is read, whatever other fields stand
/// around it, such as a `SEC_TYPE=` before it.
pub proof fn named_fs_type_is_read(before: Seq<char>, fs_type: Seq<char>, rest: Seq<char>)
    requires
        !text::has_field(before, "TYPE="@),
        before.len() > 0 ==> !text::key_char(before.last()),
        !text::contains(fs_type, "TYPE="@),
        forall|i: int|
            0 <= i < fs_type.len() ==> #[trigger] fs_type[i] != '"' && !text::white_space(
                fs_type[i],
            ),
        rest.len() > 0 ==> text::white_space(rest[0]),
    ensures
        fs_type_in(before + "TYPE="@ + (seq!['"'] + fs_type + seq!['"'] + rest)) == fs_type,
{
    first_type_field_is_found(before, seq!['"'] + fs_type + seq!['"'] + rest);
    quoted_word_is_whole(fs_type, rest);
    quotes_are_dropped(fs_type);
}

/// A `TYPE=` that stands where a field can, after none that does, is the field that counts.
proof fn first_type_field_is_found(before: Seq<char>, value: Seq<char>)
    requires
        !text::has_field(before, "TYPE="@),
        before.len() > 0 ==> !text::key_char(before.last()),
    ensures
        text::has_field(before + "TYPE="@ + value, "TYPE="@),
        text::after_field(before + "TYPE="@ + value, "TYPE="@) == value,
{
    reveal_strlit("TYPE=");
    let key = "TYPE="@;
    let line = before + key + value;
    let at = before.len() as int;
    assert(line.subrange(at, at + key.len()) =~= key);
    assert(text::field_at(line, key, at));
    assert forall|n: int| text::field_at(line, key, n) implies at <= n by {
        if n < at {
            let window = line.subrange(n, n + key.len());
            assert(line[n + 4] == window[4]);
            if n + 4 < at {
                assert(before.subrange(n, n + key.len()) =~= window);
                assert(text::field_at(before, key, n));
            } else {
                assert(line[n + 4] == key[n + 4 - at]);
            }
        }
    }
    assert(text::first_field_at(line, key, at));
    assert(line.skip(at + key.len()) =~= value);
}

/// Behind a quoted word that does not hold it, `TYPE=` stands after the white space at the
/// earliest.
proof fn type_key_is_behind(word: Seq<char>, rest: Seq<char>, at: int)
    requires
        !text::contains(word, "TYPE="@),
        rest.len() > 0 ==> text::white_space(rest[0]),
        text::occurs_at(seq!['"'] + word + seq!['"'] + rest, "TYPE="@, at),
    ensures
        at > word.len() + 2,
{
    reveal_strlit("TYPE=");
    let key = "TYPE="@;
    let close = word.len() as int + 1;
    let value = seq!['"'] + word + seq!['"'] + rest;
    let window = value.subrange(at, at + key.len());
    assert(value[0] == '"');
    assert(value[close] == '"');
    assert(window[0] == value[at]);
    if at <= close < at + 5 {
        let k = close - at;
        assert(window[k] == value[close]);
        assert(k == 0 || k == 1 || k == 2 || k == 3 || k == 4);
    } else if at == close + 1 {
        assert(value[at] == rest[0]);
    } else if 0 < at < close {
        assert(word.subrange(at - 1, at - 1 + key.len()) =~= window);
        assert(text::occurs_at(word, key, at - 1));
    }
}

/// To cut a text at `TYPE=` leaves a quoted word at its front whole.
proof fn quoted_word_is_whole(word: Seq<char>, rest: Seq<char>)
    requires
        !text::contains(word, "TYPE="@),
        forall|i: int| 0 <= i < word.len() ==> !text::white_space(#[trigger] word[i]),
        rest.len() > 0 ==> text::white_space(rest[0]),
    ensures
        text::first_word(
            text::up_to(seq!['"'] + word + seq!['"'] + rest, "TYPE="@),
        ) == seq!['"'] + word + seq!['"'],
{
    let key = "TYPE="@;
    let quoted = seq!['"'] + word + seq!['"'];
    let value = quoted + rest;
    if text::contains(value, key) {
        text::first_exists(value, key);
        let end = choose|n: int| text::first_at(value, key, n);
        type_key_is_behind(word, rest, end);
        assert(value.take(end) =~= quoted + rest.take(end - quoted.len()));
        text::first_word_is_read(quoted, rest.take(end - quoted.len()));
    } else {
        text::first_word_is_read(quoted, rest);
    }
}

/// Without its quotes a quoted word is the word.
proof fn quotes_are_dropped(word: Seq<char>)
    requires
        forall|i: int| 0 <= i < word.len() ==> #[trigger] word[i] != '"',
    ensures
        (seq!['"'] + word + seq!['"']).filter(|c: char| c != '"') == word,
{
    let kept = |c: char| c != '"';
    let quote = seq!['"'];
    assert(quote.filter(kept) == Seq::<char>::empty()) by {
        reveal_with_fuel(Seq::filter, 2);
        assert(quote.drop_last() =~= Seq::<char>::empty());
    }
    Seq::filter_distributes_over_add(quote + word, quote, kept);
    Seq::filter_distributes_over_add(quote, word, kept);
    text::filter_of_kept(word, kept);
    assert(Seq::<char>::empty() + word + Seq::<char>::empty() =~= word);
}

/// The file system on the SD card, from how `blkid` ended and what it wrote.
pub open spec fn card_format(success: bool, blkid_output: Seq<u8>) -> Seq<char> {
    if success {
        fs_type_in(decode_utf8(blkid_output))
    } else {
        Seq::empty()
    }
}

/// The file system on the SD card, from how `blkid` ended and what it wrote: empty where it
/// failed.
pub fn check_sd_format(success: bool, blkid_output: Vec<u8>) -> (fs_type: String)
    requires
        success ==> valid_utf8(blkid_output@),
    ensures
        fs_type@ == (if success {
            fs_type_in(decode_utf8(blkid_output@))
        } else {
            Seq::empty()
        }),
        fs_type@ == card_format(success, blkid_output@),
{
    if success {
        if let Some(line) = text::text_from_utf8(blkid_output) {
            return fs_type_of(line.as_str());
        }
    }
    String::new()
}

/// The arguments with which `mount` puts the SD card in place, as text.
pub open spec fn mount_arguments(fs_type: Seq<char>) -> Seq<Seq<char>> {
    seq!["-t"@, fs_type, sd_partition_path(), SD_WORKDIR@]
}

/// The SD card is mounted where the output of `lsblk -o MOUNTPOINT` lists its directory.
pub open spec fn card_is_mounted(lsblk_output: Seq<u8>) -> bool {
    lists(lsblk_output, SD_WORKDIR@)
}

/// How to mount the SD card, from its file system and the output of `lsblk -o MOUNTPOINT`: the
/// arguments for `mount`, or nothing where the card is mounted already.
pub fn mount_sd_card(fs_type: &str, lsblk_output: &[u8]) -> (arguments: Option<Vec<String>>)
    ensures
        arguments is None <==> lists(lsblk_output@, SD_WORKDIR@),
        arguments is None <==> card_is_mounted(lsblk_output@),
        arguments matches Some(list) ==> text::texts(list@) == mount_arguments(fs_type@),
{
    if check_disk_mounted(lsblk_output, SD_WORKDIR) {
        return None;
    }
    let mut list: Vec<String> = Vec::new();
    list.push("-t".to_owned());
    list.push(fs_type.to_owned());
    list.push(sd_partition());
    list.push(SD_WORKDIR.to_owned());
    assert(text::texts(list@) =~= mount_arguments(fs_type@));
    Some(list)
}

/// One disk of the machine: the device file it is on, its size and the room left, in bytes.
pub struct Disk {
    pub name: String,
    pub total_space: u64,
    pub available_space: u64,
}

/// The size of the first disk on the device file `name` and the room left on it: both zero where
/// there is no such disk.
pub open spec fn space_on(disks: Seq<Disk>, name: Seq<char>) -> (u64, u64)
    decreases disks.len(),
{
    if disks.len() == 0 {
        (0, 0)
    } else if disks[0].name@ == name {
        (disks[0].total_space, disks[0].available_space)
    } else {
        space_on(disks.drop_first(), name)
    }
}

/// The size of a device's file system and the room left on it. Both are zero where the machine
/// has no such disk.
pub fn check_target_space(target_disk: Device, disks: &Vec<Disk>) -> (space: (u64, u64))
    ensures
        space == space_on(disks@, partition_of(target_disk)),
{
    let name: String = match target_disk {
        Device::Local => LOCAL_PARTITION.to_owned(),
        Device::SD => sd_partition(),
    };
    assert(disks@.skip(0) =~= disks@);
    for i in 0..disks.len()
        invariant
            name@ == partition_of(target_disk),
            space_on(disks@, name@) == space_on(disks@.skip(i as int), name@),
    {
        if disks[i].name == name {
            return (disks[i].total_space, disks[i].available_space);
        }
        assert(disks@.skip(i as int).drop_first() =~= disks@.skip(i + 1));
    }
    (0, 0)
}

// ---------------------------------------------------------------------------
// Making room
// ---------------------------------------------------------------------------

/// How many cameras there are.
pub const CAMERAS: i32 = 4;

/// With this many bytes left or more, nothing is removed.
pub const ENOUGH_SPACE: u64 = 160000000;

/// A removed file counts as a video when it held more bytes than this.
pub const VIDEO_SIZE: u64 = 10000000;

/// How many videos are removed from each camera's directory.
pub const VIDEOS_TO_REMOVE: i32 = 2;

/// The directory below `target_path` that a camera's videos go to.
pub open spec fn camera_folder_of(target_path: Seq<char>, camera_id: int) -> Seq<char> {
    target_path + "/camera_"@ + text::signed_decimal(camera_id)
}

/// The directory below `target_path` that a camera's videos go to.
pub fn camera_folder(target_path: &str, camera_id: i32) -> (path: String)
    ensures
        path@ == camera_folder_of(target_path@, camera_id as int),
{
    let mut path = target_path.to_owned();
    path.append("/camera_");
    text::push_signed_decimal(&mut path, camera_id as i64);
    path
}

/// There is enough room where this many bytes are left.
pub open spec fn is_enough(available_space: u64) -> bool {
    available_space >= ENOUGH_SPACE
}

/// The directories to remove old videos from, one for each camera.
pub open spec fn folders_of(target_disk: Device) -> Seq<Seq<char>> {
    Seq::new(CAMERAS as nat, |i: int| camera_folder_of(workdir_of(target_disk), i))
}

/// The directories to remove old videos from, one for each camera, given the machine's disks:
/// none at all while there is enough room on the device.
pub fn remove_old_files(target_disk: Device, disks: &Vec<Disk>) -> (folders: Option<Vec<String>>)
    ensures
        folders is None <==> space_on(disks@, partition_of(target_disk)).1 >= ENOUGH_SPACE,
        folders matches Some(list) ==> text::texts(list@) == Seq::new(
            CAMERAS as nat,
            |i: int| camera_folder_of(workdir_of(target_disk), i),
        ),
        folders is None <==> is_enough(space_on(disks@, partition_of(target_disk)).1),
        folders matches Some(list) ==> text::texts(list@) == folders_of(target_disk),
{
    let spaces: (u64, u64) = check_target_space(target_disk, disks);
    if spaces.1 >= ENOUGH_SPACE {
        return None;
    }
    let dir: &str = workdir(target_disk);
    let mut list: Vec<String> = Vec::new();
    for i in 0..CAMERAS
        invariant
            dir@ == workdir_of(target_disk),
            list@.len() == i,
            forall|k: int|
                0 <= k < i ==> (#[trigger] list@[k])@ == camera_folder_of(
                    workdir_of(target_disk),
                    k,
                ),
    {
        list.push(camera_folder(dir, i));
    }
    assert(text::texts(list@) =~= Seq::new(
        CAMERAS as nat,
        |i: int| camera_folder_of(workdir_of(target_disk), i),
    ));
    assert(text::texts(list@) =~= folders_of(target_disk));
    Some(list)
}

/// One entry of a camera's directory.
pub struct Entry {
    pub name: String,
    pub is_dir: bool,
}

/// The entry at `a` goes before the one at `b`: by name, and among equal names as they were
/// listed.
pub open spec fn goes_before(entries: Seq<Entry>, a: int, b: int) -> bool {
    ||| text::precedes(entries[a].name@, entries[b].name@)
    ||| entries[a].name@ == entries[b].name@ && a < b
}

/// `order` lists exactly the entries that are not directories, each once, by name.
pub open spec fn oldest_first_order(entries: Seq<Entry>, order: Seq<usize>) -> bool {
    &&& forall|k: int|
        0 <= k < order.len() ==> (#[trigger] order[k]) < entries.len()
            && !entries[order[k] as int].is_dir
    &&& forall|i: int|
        #![trigger entries[i]]
        0 <= i < entries.len() && !entries[i].is_dir ==> exists|k: int|
            0 <= k < order.len() && #[trigger] order[k] == i
    &&& forall|j: int, k: int|
        #![trigger order[j], order[k]]
        0 <= j < k < order.len() ==> goes_before(entries, order[j] as int, order[k] as int)
}

/// Puts the file at `i` in its place among the files before it.
fn insert_by_name(entries: &Vec<Entry>, order: &mut Vec<usize>, i: usize)
    requires
        i < entries@.len(),
        !entries@[i as int].is_dir,
        oldest_first_order(entries@.take(i as int), old(order)@),
    ensures
        oldest_first_order(entries@.take(i + 1), final(order)@),
{
    let ghost before = order@;
    let ghost earlier = entries@.take(i as int);
    let ghost listed = entries@.take(i + 1);
    let name: Vec<char> = text::chars_of(entries[i].name.as_str());
    let mut at: usize = 0;
    while at < order.len() && !text::text_precedes(
        &name,
        &text::chars_of(entries[order[at]].name.as_str()),
    )
        invariant
            at <= order@.len(),
            order@ == before,
            i < entries@.len(),
            name@ == entries@[i as int].name@,
            earlier == entries@.take(i as int),
            oldest_first_order(earlier, before),
            forall|k: int|
                0 <= k < at ==> !text::precedes(
                    name@,
                    entries@[#[trigger] before[k] as int].name@,
                ),
        ensures
            at < before.len() ==> text::precedes(
                name@,
                entries@[before[at as int] as int].name@,
            ),
        decreases before.len() - at,
    {
        at = at + 1;
    }
    order.insert(at, i);
    proof {
        let after = order@;
        assert(after =~= before.insert(at as int, i));
        assert forall|k: int| 0 <= k < before.len() implies {
            &&& (#[trigger] before[k]) < i
            &&& k < at ==> goes_before(listed, before[k] as int, i as int)
            &&& k >= at ==> goes_before(listed, i as int, before[k] as int)
        } by {
            assert(before[k] < earlier.len());
            let other = entries@[before[k] as int].name@;
            text::precedes_is_total(name@, other);
            if k > at {
                let first = entries@[before[at as int] as int].name@;
                assert(goes_before(earlier, before[at as int] as int, before[k] as int));
                if text::precedes(first, other) {
                    text::precedes_is_transitive(name@, first, other);
                }
            }
        }
        assert forall|j: int, k: int|
            #![trigger after[j], after[k]]
            0 <= j < k < after.len() implies goes_before(
            listed,
            after[j] as int,
            after[k] as int,
        ) by {
            let bj = if j < at { j } else { j - 1 };
            let bk = if k < at { k } else { k - 1 };
            if j != at && k != at {
                assert(after[j] == before[bj] && after[k] == before[bk]);
                assert(goes_before(earlier, before[bj] as int, before[bk] as int));
                assert(before[bj] < i && before[bk] < i);
            } else if j == at {
                assert(after[k] == before[bk]);
            } else {
                assert(after[j] == before[bj]);
            }
        }
        assert forall|k: int| 0 <= k < after.len() implies (#[trigger] after[k]) < listed.len()
            && !listed[after[k] as int].is_dir by {
            let bk = if k < at { k } else { k - 1 };
            if k != at {
                assert(after[k] == before[bk]);
                assert(before[bk] < earlier.len() && !earlier[before[bk] as int].is_dir);
            }
        }
        assert forall|n: int|
            #![trigger listed[n]]
            0 <= n < listed.len() && !listed[n].is_dir implies exists|k: int|
            0 <= k < after.len() && #[trigger] after[k] == n by {
            if n == i {
                assert(after[at as int] == n);
            } else {
                assert(!earlier[n].is_dir);
                let k = choose|k: int| 0 <= k < before.len() && #[trigger] before[k] == n;
                assert(after[if k < at { k } else { k + 1 }] == n);
            }
        }
    }
}

/// The positions of the files in a directory, in the order in which they are removed. Names
/// start with a time stamp, so the order of names is that of age.
pub fn oldest_first(entries: &Vec<Entry>) -> (order: Vec<usize>)
    ensures
        oldest_first_order(entries@, order@),
{
    let mut order: Vec<usize> = Vec::new();
    for i in 0..entries.len()
        invariant
            i <= entries@.len(),
            oldest_first_order(entries@.take(i as int), order@),
    {
        if !entries[i].is_dir {
            insert_by_name(entries, &mut order, i);
        } else {
            assert forall|j: int|
                #![trigger entries@.take(i + 1)[j]]
                0 <= j < i + 1 && !entries@.take(i + 1)[j].is_dir implies exists|k: int|
                0 <= k < order@.len() && #[trigger] order@[k] == j by {
                assert(!entries@.take(i as int)[j].is_dir);
            }
        }
    }
    assert(entries@.take(entries@.len() as int) =~= entries@);
    order
}

/// A directory is removed from in only one order.
pub proof fn oldest_first_is_unique(entries: Seq<Entry>, a: Seq<usize>, b: Seq<usize>)
    requires
        oldest_first_order(entries, a),
        oldest_first_order(entries, b),
    ensures
        a == b,
{
    orders_agree(entries, a, b, a.len());
    orders_agree(entries, b, a, b.len());
    assert(a =~= b);
}

/// Two removal orders agree on their first `n` files.
proof fn orders_agree(entries: Seq<Entry>, a: Seq<usize>, b: Seq<usize>, n: nat)
    requires
        oldest_first_order(entries, a),
        oldest_first_order(entries, b),
        n <= a.len(),
    ensures
        n <= b.len(),
        forall|k: int| 0 <= k < n ==> a[k] == b[k],
    decreases n,
{
    if n > 0 {
        let last = n - 1;
        orders_agree(entries, a, b, last as nat);
        let x = a[last] as int;
        assert(!entries[x].is_dir);
        let m = choose|m: int| 0 <= m < b.len() && #[trigger] b[m] == x;
        if m < last {
            assert(goes_before(entries, a[m] as int, a[last] as int));
            text::precedes_is_total(entries[x].name@, entries[x].name@);
        } else if m > last {
            let y = b[last] as int;
            assert(!entries[y].is_dir);
            let k = choose|k: int| 0 <= k < a.len() && #[trigger] a[k] == y;
            assert(goes_before(entries, b[last] as int, b[m] as int));
            if k < last {
                assert(goes_before(entries, b[k] as int, b[last] as int));
            } else if k > last {
                assert(goes_before(entries, a[last] as int, a[k] as int));
            }
            text::precedes_is_total(entries[x].name@, entries[y].name@);
            text::precedes_is_total(entries[y].name@, entries[y].name@);
        }
    }
}

/// A removed file of this size counts as a video.
pub open spec fn is_video(size: u64) -> bool {
    size > VIDEO_SIZE
}

/// How many videos are still to be removed once a file of this size is gone.
pub open spec fn left_after(counter: int, size: u64) -> int {
    if is_video(size) {
        counter - 1
    } else {
        counter
    }
}

/// How many files are removed from a directory that holds files of these sizes, oldest first,
/// when `counter` videos are to go.
pub open spec fn removed(counter: int, sizes: Seq<u64>) -> nat
    decreases sizes.len(),
{
    if sizes.len() == 0 {
        0
    } else if left_after(counter, sizes[0]) <= 0 {
        1
    } else {
        1 + removed(left_after(counter, sizes[0]), sizes.drop_first())
    }
}

/// How many of these files count as videos.
pub open spec fn videos(sizes: Seq<u64>) -> nat
    decreases sizes.len(),
{
    if sizes.len() == 0 {
        0
    } else {
        videos(sizes.drop_first()) + if is_video(sizes[0]) {
            1nat
        } else {
            0nat
        }
    }
}

/// How far the removal of old videos from one directory has come: the files in the order in which
/// they go, how many are gone, and how many videos are still to go.
pub struct Cleanup {
    pub order: Vec<usize>,
    pub position: usize,
    pub counter: i32,
}

impl Cleanup {
    /// The next file to go, if any: none once enough videos are gone, or all files are.
    pub open spec fn next_file(self) -> Option<usize> {
        if self.counter > 0 && self.position < self.order@.len() {
            Some(self.order@[self.position as int])
        } else {
            None
        }
    }

    /// Nothing is removed yet from a directory with these entries.
    pub fn new(entries: &Vec<Entry>) -> (cleanup: Self)
        ensures
            oldest_first_order(entries@, cleanup.order@),
            cleanup.position == 0,
            cleanup.counter == VIDEOS_TO_REMOVE,
    {
        Cleanup { order: oldest_first(entries), position: 0, counter: VIDEOS_TO_REMOVE }
    }

    /// The next file to go, if any.
    pub fn next(&self) -> (file: Option<usize>)
        ensures
            file == self.next_file(),
    {
        if self.counter > 0 && self.position < self.order.len() {
            Some(self.order[self.position])
        } else {
            None
        }
    }

    /// Takes note that the next file is gone, which held this many bytes.
    pub fn file_removed(&mut self, size: u64)
        requires
            old(self).next_file() is Some,
        ensures
            final(self).order == old(self).order,
            final(self).position == old(self).position + 1,
            final(self).counter == left_after(old(self).counter as int, size),
            size > VIDEO_SIZE ==> final(self).counter == old(self).counter - 1,
            size <= VIDEO_SIZE ==> final(self).counter == old(self).counter,
    {
        if size > VIDEO_SIZE {
            self.counter = self.counter - 1;
        }
        assert(self.position < self.order.len());
        self.position = self.position + 1;
    }
}

/// After `n` removals there is a next file exactly while fewer files are gone than are removed in
/// all.
pub proof fn removal_goes_on(counter: int, sizes: Seq<u64>, n: int)
    requires
        counter > 0,
        0 <= n <= removed(counter, sizes),
    ensures
        n < removed(counter, sizes) <==> n < sizes.len() && counter - videos(sizes.take(n)) > 0,
    decreases sizes.len(),
{
    reveal_with_fuel(videos, 2);
    removal_stops_in_time(counter, sizes);
    if sizes.len() > 0 && n > 0 {
        let left = left_after(counter, sizes[0]);
        let rest = sizes.drop_first();
        if left > 0 {
            removal_goes_on(left, rest, n - 1);
        }
        assert(sizes.take(n).drop_first() =~= rest.take(n - 1));
    }
}

/// Never more videos are removed than were to go. Files remain only once that many videos are
/// gone, and then the last file that was removed is a video.
pub proof fn removal_stops_in_time(counter: int, sizes: Seq<u64>)
    requires
        counter > 0,
    ensures
        removed(counter, sizes) <= sizes.len(),
        videos(sizes.take(removed(counter, sizes) as int)) <= counter,
        removed(counter, sizes) < sizes.len() ==> {
            &&& videos(sizes.take(removed(counter, sizes) as int)) == counter
            &&& is_video(sizes[removed(counter, sizes) - 1])
        },
    decreases sizes.len(),
{
    reveal_with_fuel(videos, 2);
    if sizes.len() > 0 {
        let left = left_after(counter, sizes[0]);
        let n = removed(counter, sizes) as int;
        let rest = sizes.drop_first();
        if left > 0 {
            removal_stops_in_time(left, rest);
        }
        assert(sizes.take(n).drop_first() =~= rest.take(n - 1));
    }
}

// ---------------------------------------------------------------------------
// Sizes for people
// ---------------------------------------------------------------------------

/// Bytes in a kilobyte, megabyte, gigabyte and terabyte.
pub const KB: u64 = 1024;

pub const MB: u64 = 1048576;

pub const GB: u64 = 1073741824;

pub const TB: u64 = 1099511627776;

/// Below this every whole number is a double precision number.
pub const EXACT_DOUBLES: u64 = 9007199254740992;

/// `num / den` to the nearest whole number, and to the even one where two are equally near.
pub open spec fn nearest(num: nat, den: nat) -> nat {
    let down = num / den;
    let rest = num % den;
    if 2 * rest < den || (2 * rest == den && down % 2 == 0) {
        down
    } else {
        down + 1
    }
}

/// The distance between the double precision numbers around `n`, where it is a whole number.
pub open spec fn double_step(n: nat) -> nat
    decreases n,
{
    if n < EXACT_DOUBLES {
        1
    } else {
        2 * double_step(n / 2)
    }
}

/// The double precision number nearest to `n`.
pub open spec fn nearest_double(n: nat) -> nat {
    nearest(n, double_step(n)) * double_step(n)
}

/// The unit that a size is shown in.
pub open spec fn unit_of(space: nat) -> nat {
    if space >= TB {
        TB as nat
    } else if space >= GB {
        GB as nat
    } else if space >= MB {
        MB as nat
    } else {
        KB as nat
    }
}

/// How that unit is written.
pub open spec fn unit_name_of(space: nat) -> Seq<char> {
    if space >= TB {
        " TB"@
    } else if space >= GB {
        " GB"@
    } else if space >= MB {
        " MB"@
    } else {
        " KB"@
    }
}

/// The hundredths of a unit that are shown for a size.
pub open spec fn hundredths_of(space: nat) -> nat {
    nearest(100 * nearest_double(space), unit_of(space))
}

/// A size in the largest unit of which it has at least one (kilobytes at least), with two
/// decimals.
pub open spec fn pretty(space: nat) -> Seq<char> {
    let hundredths = hundredths_of(space);
    text::decimal(hundredths / 100) + "."@ + seq![
        text::digit(((hundredths / 10) % 10) as int),
        text::digit((hundredths % 10) as int),
    ] + unit_name_of(space)
}

/// `num / den` to the nearest whole number, and to the even one where two are equally near.
fn round(num: u128, den: u128) -> (res: u128)
    requires
        den > 0,
        num < 0x1_0000_0000_0000_0000_0000_0000,
    ensures
        res == nearest(num as nat, den as nat),
        res <= num / den + 1,
{
    let down: u128 = num / den;
    let rest: u128 = num % den;
    assert(rest < den && down <= num && rest <= num) by (nonlinear_arith)
        requires
            den > 0,
            down == num / den,
            rest == num % den,
    ;
    if rest < den - rest || (rest == den - rest && down % 2 == 0) {
        down
    } else {
        down + 1
    }
}

/// Rounding moves by at most half.
proof fn nearest_is_near(num: nat, den: nat)
    requires
        den > 0,
    ensures
        2 * (nearest(num, den) * den) <= 2 * num + den,
        2 * num <= 2 * (nearest(num, den) * den) + den,
{
    let down = num / den;
    let rest = num % den;
    assert(num == down * den + rest && rest < den) by (nonlinear_arith)
        requires
            den > 0,
            down == num / den,
            rest == num % den,
    ;
    assert((down + 1) * den == down * den + den) by (nonlinear_arith);
}

/// Small whole numbers are double precision numbers.
proof fn double_is_exact(n: nat)
    ensures
        1 <= double_step(n),
        n < EXACT_DOUBLES ==> nearest_double(n) == n,
{
    if n < EXACT_DOUBLES {
        assert(double_step(n) == 1);
        assert(n / 1 == n && n % 1 == 0);
        assert(nearest(n, 1) == n);
    } else {
        double_step_is_small(n);
    }
}

/// The double step is at most a 2^52nd part of the number.
proof fn double_step_is_small(n: nat)
    requires
        2 * n >= EXACT_DOUBLES,
    ensures
        1 <= double_step(n),
        double_step(n) * 4503599627370496 <= n,
    decreases n,
{
    if n >= EXACT_DOUBLES {
        double_step_is_small(n / 2);
    }
}

/// The distance between the double precision numbers around `n`.
fn step_at(n: u64) -> (step: u64)
    ensures
        step == double_step(n as nat),
        1 <= step <= 4096,
    decreases n,
{
    if n < EXACT_DOUBLES {
        1
    } else {
        proof {
            double_step_is_small(n as nat);
            double_step_is_small((n / 2) as nat);
        }
        2 * step_at(n / 2)
    }
}

/// The double precision number nearest to `n`.
fn to_double(n: u64) -> (value: u128)
    ensures
        value == nearest_double(n as nat),
        value <= n + 4096,
        n < EXACT_DOUBLES ==> value == n,
{
    proof {
        double_is_exact(n as nat);
        nearest_is_near(n as nat, double_step(n as nat));
    }
    let step: u128 = step_at(n) as u128;
    let steps: u128 = round(n as u128, step);
    assert(steps * step <= n + step);
    steps * step
}

/// A size in the largest unit of which it has at least one (kilobytes at least), with two
/// decimals.
pub fn prettify_space(space: u64) -> (res: String)
    ensures
        res@ == pretty(space as nat),
{
    let hundred: u128 = 100 * to_double(space);
    let hundredths: u64;
    let unit_name: &str;
    if space >= TB {
        hundredths = round(hundred, 1099511627776) as u64;
        unit_name = " TB";
    } else if space >= GB {
        hundredths = round(hundred, 1073741824) as u64;
        unit_name = " GB";
    } else if space >= MB {
        hundredths = round(hundred, 1048576) as u64;
        unit_name = " MB";
    } else {
        hundredths = round(hundred, 1024) as u64;
        unit_name = " KB";
    }
    let mut res = String::new();
    text::push_decimal(&mut res, hundredths / 100);
    res.append(".");
    text::push_digit(&mut res, ((hundredths / 10) % 10) as u8);
    text::push_digit(&mut res, (hundredths % 10) as u8);
    res.append(unit_name);
    proof {
        assert(res@ =~= pretty(space as nat));
    }
    res
}

/// What is shown of a size is off by at most half a hundredth of the unit from the size, as
/// double precision holds it.
pub proof fn pretty_is_nearest(space: nat)
    ensures
        2 * hundredths_of(space) * unit_of(space) <= 200 * nearest_double(space) + unit_of(space),
        200 * nearest_double(space) <= 2 * hundredths_of(space) * unit_of(space) + unit_of(space),
        space < EXACT_DOUBLES ==> nearest_double(space) == space,
{
    double_is_exact(space);
    nearest_is_near(100 * nearest_double(space), unit_of(space));
    let (h, u) = (hundredths_of(space), unit_of(space));
    assert(2 * h * u == 2 * (h * u)) by (nonlinear_arith);
}

/// At least one of the unit is shown, but for kilobytes.
pub proof fn pretty_unit_fits(space: nat)
    requires
        space >= MB,
    ensures
        hundredths_of(space) >= 100,
{
    double_is_exact(space);
    if space >= EXACT_DOUBLES {
        double_step_is_small(space);
        nearest_is_near(space, double_step(space));
    }
    let double = nearest_double(space);
    assert(double >= unit_of(space));
    if space >= TB {
        assert((100 * double) / (TB as nat) >= 100);
    } else if space >= GB {
        assert((100 * double) / (GB as nat) >= 100);
    } else {
        assert((100 * double) / (MB as nat) >= 100);
    }
}

// ---------------------------------------------------------------------------
// Laws
// ---------------------------------------------------------------------------

/// The view of a storage says all that the storage does.
pub proof fn storage_view_is_whole(storage: Storage)
    ensures
        storage@.target == storage.target,
        storage@.format == storage.format@,
        storage@.folder == storage.folder@,
        storage@.total_space == storage.total_space,
        storage@.avail_space == storage.avail_space,
{
}

/// Where recordings go, and where the file system is that they go to.
pub proof fn devices_have_their_places()
    ensures
        workdir_of(Device::SD) == "/media/sdcard"@,
        workdir_of(Device::Local) == "/home/team3/blackbox"@,
        partition_of(Device::SD) == "/dev/mmcblk1p1"@,
        partition_of(Device::Local) == "/dev/mmcblk0p1"@,
        sd_partition_path() == "/dev/mmcblk1p1"@,
{
    reveal_strlit("/dev/");
    reveal_strlit("mmcblk1");
    reveal_strlit("p1");
    reveal_strlit("/dev/mmcblk1p1");
    assert(sd_partition_path() =~= "/dev/mmcblk1p1"@);
}

/// A listing names a target exactly when the target is a part of its text.
pub proof fn listed_is_a_part_of_the_output(output: Seq<u8>, target: Seq<char>)
    ensures
        lists(output, target) <==> output.len() > 0 && exists|before: Seq<char>, after: Seq<char>|
            text::readable(output) == #[trigger] (before + target + after),
{
    let listing = text::readable(output);
    if text::contains(listing, target) {
        let at = choose|at: int| text::occurs_at(listing, target, at);
        text::found_is_a_part(listing, target, at);
        assert(listing == listing.take(at) + target + listing.skip(at + target.len()));
    }
    if exists|before: Seq<char>, after: Seq<char>|
        listing == #[trigger] (before + target + after) {
        let (before, after) = choose|before: Seq<char>, after: Seq<char>|
            listing == #[trigger] (before + target + after);
        text::part_is_found(before, target, after);
    }
}

/// Every `TYPE=` in a text is the end of a longer key.
pub open spec fn only_longer_keys(line: Seq<char>) -> bool {
    forall|at: int| #[trigger]
        text::occurs_at(line, "TYPE="@, at) ==> at > 0 && text::key_char(line[at - 1])
}

/// A line has a `TYPE=` field exactly where some `TYPE=` is not the end of a longer key.
proof fn fields_are_no_longer_keys(line: Seq<char>)
    ensures
        text::has_field(line, "TYPE="@) <==> !only_longer_keys(line),
{
    let key = "TYPE="@;
    if text::has_field(line, key) {
        let at = choose|at: int| text::field_at(line, key, at);
        assert(text::occurs_at(line, key, at));
    }
    if !only_longer_keys(line) {
        let at = choose|at: int| #[trigger]
            text::occurs_at(line, key, at) && !(at > 0 && text::key_char(line[at - 1]));
        assert(text::field_at(line, key, at));
    }
}

/// Behind a word that does not hold it, `TYPE=` stands after the white space at the earliest.
proof fn type_key_is_behind_the_word(
    gap: Seq<char>,
    word: Seq<char>,
    rest: Seq<char>,
    at: int,
)
    requires
        text::all_space(gap),
        !text::contains(word, "TYPE="@),
        rest.len() > 0 ==> text::white_space(rest[0]),
        text::occurs_at(gap + word + rest, "TYPE="@, at),
    ensures
        at > gap.len() + word.len(),
{
    reveal_strlit("TYPE=");
    let key = "TYPE="@;
    let value = gap + word + rest;
    let end = gap.len() + word.len();
    let window = value.subrange(at, at + key.len());
    assert(window[0] == value[at]);
    if at < gap.len() {
        assert(value[at] == gap[at]);
    } else if at + 5 <= end {
        assert(word.subrange(at - gap.len(), at - gap.len() + key.len()) =~= window);
        assert(text::occurs_at(word, key, at - gap.len()));
    } else if at <= end {
        let k = end - at;
        assert(window[k] == value[end as int]);
        assert(value[end as int] == rest[0]);
        assert(k == 0 || k == 1 || k == 2 || k == 3 || k == 4);
    }
}

/// The file system that is read is the word behind the first `TYPE=` that is no part of a longer
/// key, without its quotes, whatever stands before and behind.
pub proof fn type_field_is_read(
    before: Seq<char>,
    gap: Seq<char>,
    word: Seq<char>,
    rest: Seq<char>,
)
    requires
        only_longer_keys(before),
        before.len() > 0 ==> !text::key_char(before.last()),
        text::all_space(gap),
        word.len() > 0,
        forall|i: int| 0 <= i < word.len() ==> !text::white_space(#[trigger] word[i]),
        !text::contains(word, "TYPE="@),
        rest.len() > 0 ==> text::white_space(rest[0]),
    ensures
        fs_type_in(before + "TYPE="@ + (gap + word + rest)) == word.filter(|c: char| c != '"'),
{
    let key = "TYPE="@;
    let value = gap + word + rest;
    fields_are_no_longer_keys(before);
    first_type_field_is_found(before, value);
    if text::contains(value, key) {
        text::cut_is_at_the_first(value, key);
        let end = text::up_to(value, key).len() as int;
        type_key_is_behind_the_word(gap, word, rest, end);
        let cut = rest.take(end - gap.len() - word.len());
        assert(value.take(end) =~= gap + word + cut);
        text::first_word_stands_between(gap, word, cut);
    } else {
        text::first_word_stands_between(gap, word, rest);
    }
}

/// Without a `TYPE=` that is no part of a longer key, no file system is named.
pub proof fn without_type_field_none_is_named(line: Seq<char>)
    requires
        only_longer_keys(line),
    ensures
        fs_type_in(line) == Seq::<char>::empty(),
{
    fields_are_no_longer_keys(line);
}

/// What stands behind the next `TYPE=` does not count.
pub proof fn next_type_field_does_not_count(before: Seq<char>, value: Seq<char>)
    requires
        only_longer_keys(before),
        before.len() > 0 ==> !text::key_char(before.last()),
    ensures
        fs_type_in(before + "TYPE="@ + value) == fs_type_in(
            before + "TYPE="@ + text::up_to(value, "TYPE="@),
        ),
{
    let key = "TYPE="@;
    let cut = text::up_to(value, key);
    fields_are_no_longer_keys(before);
    first_type_field_is_found(before, value);
    first_type_field_is_found(before, cut);
    text::cut_is_at_the_first(value, key);
    text::cut_is_at_the_first(cut, key);
    if text::contains(cut, key) {
        let at = choose|at: int| text::occurs_at(cut, key, at);
        reveal_strlit("TYPE=");
        if text::contains(value, key) {
            assert(value.subrange(at, at + key.len()) =~= cut.subrange(at, at + key.len()));
            assert(text::occurs_at(value, key, at));
        }
    }
}

/// The card is mounted with its file system, from its partition to its directory.
pub proof fn mount_joins_partition_and_directory(fs_type: Seq<char>)
    ensures
        mount_arguments(fs_type).len() == 4,
        mount_arguments(fs_type)[0] == "-t"@,
        mount_arguments(fs_type)[1] == fs_type,
        mount_arguments(fs_type)[2] == "/dev/mmcblk1p1"@,
        mount_arguments(fs_type)[3] == "/media/sdcard"@,
{
    devices_have_their_places();
}

/// The room that is told is that of the first disk with the name, to the byte.
pub proof fn room_is_that_of_the_first_disk(disks: Seq<Disk>, name: Seq<char>, i: int)
    requires
        0 <= i < disks.len(),
        disks[i].name@ == name,
        forall|j: int| 0 <= j < i ==> (#[trigger] disks[j]).name@ != name,
    ensures
        space_on(disks, name) == (disks[i].total_space, disks[i].available_space),
    decreases disks.len(),
{
    if i > 0 {
        let rest = disks.drop_first();
        assert(disks[0].name@ != name);
        assert forall|j: int| 0 <= j < i - 1 implies (#[trigger] rest[j]).name@ != name by {
            assert(rest[j] == disks[j + 1]);
        }
        room_is_that_of_the_first_disk(rest, name, i - 1);
    }
}

/// Where no disk has the name there is no room.
pub proof fn without_the_disk_there_is_no_room(disks: Seq<Disk>, name: Seq<char>)
    requires
        forall|j: int| 0 <= j < disks.len() ==> (#[trigger] disks[j]).name@ != name,
    ensures
        space_on(disks, name) == (0u64, 0u64),
    decreases disks.len(),
{
    if disks.len() > 0 {
        let rest = disks.drop_first();
        assert(disks[0].name@ != name);
        assert forall|j: int| 0 <= j < rest.len() implies (#[trigger] rest[j]).name@ != name by {
            assert(rest[j] == disks[j + 1]);
        }
        without_the_disk_there_is_no_room(rest, name);
    }
}

/// Nothing is removed with 160000000 bytes left or more. With fewer, files go from the directories
/// of the four cameras below that of the device.
pub proof fn room_is_made_for_four_cameras(target_disk: Device, available_space: u64)
    ensures
        is_enough(available_space) <==> available_space >= 160000000,
        folders_of(target_disk).len() == 4,
        forall|i: int|
            0 <= i < 4 ==> #[trigger] folders_of(target_disk)[i] == (match target_disk {
                Device::SD => "/media/sdcard"@,
                Device::Local => "/home/team3/blackbox"@,
            }) + "/camera_"@ + text::signed_decimal(i),
{
}

/// The removal order holds each file once and no directory. A file never goes before one whose
/// name is smaller, nor before one of the same name that was listed earlier.
pub proof fn files_go_once_and_by_name(entries: Seq<Entry>, order: Seq<usize>)
    requires
        oldest_first_order(entries, order),
    ensures
        forall|k: int|
            0 <= k < order.len() ==> 0 <= (#[trigger] order[k]) < entries.len()
                && !entries[order[k] as int].is_dir,
        forall|i: int|
            0 <= i < entries.len() && !(#[trigger] entries[i]).is_dir ==> exists|k: int|
                0 <= k < order.len() && #[trigger] order[k] == i,
        forall|j: int, k: int|
            #![trigger order[j], order[k]]
            0 <= j < k < order.len() ==> {
                &&& order[j] != order[k]
                &&& !text::precedes(
                    entries[order[k] as int].name@,
                    entries[order[j] as int].name@,
                )
                &&& entries[order[j] as int].name@ == entries[order[k] as int].name@ ==> order[j]
                    < order[k]
            },
{
    assert forall|j: int, k: int|
        #![trigger order[j], order[k]]
        0 <= j < k < order.len() implies {
        &&& order[j] != order[k]
        &&& !text::precedes(entries[order[k] as int].name@, entries[order[j] as int].name@)
        &&& entries[order[j] as int].name@ == entries[order[k] as int].name@ ==> order[j]
            < order[k]
    } by {
        assert(goes_before(entries, order[j] as int, order[k] as int));
        text::precedes_is_total(entries[order[j] as int].name@, entries[order[k] as int].name@);
    }
}

/// A removed file counts exactly when it held more than 10000000 bytes.
pub proof fn large_files_count(counter: int, size: u64)
    ensures
        size > 10000000 ==> left_after(counter, size) == counter - 1,
        size <= 10000000 ==> left_after(counter, size) == counter,
{
}

/// How many of these files hold more than 10000000 bytes.
pub open spec fn large_files(sizes: Seq<u64>) -> nat {
    sizes.filter(|size: u64| size > 10000000).len()
}

/// One file more counts for itself.
proof fn large_files_add_up(sizes: Seq<u64>)
    requires
        sizes.len() > 0,
    ensures
        large_files(sizes) == large_files(sizes.drop_last()) + (if sizes.last() > 10000000 {
            1nat
        } else {
            0nat
        }),
{
    reveal_with_fuel(Seq::filter, 2);
}

impl Cleanup {
    /// The removal once files of these sizes have gone one after the other.
    pub open spec fn after_removals(self, sizes: Seq<u64>) -> Cleanup
        decreases sizes.len(),
    {
        if sizes.len() == 0 {
            self
        } else {
            let before = self.after_removals(sizes.drop_last());
            Cleanup {
                order: before.order,
                position: (before.position + 1) as usize,
                counter: left_after(before.counter as int, sizes.last()) as i32,
            }
        }
    }
}

/// Files go one after the other, and go on while there are any and fewer than two of those that
/// are gone held more than 10000000 bytes.
pub proof fn removal_goes_on_to_the_second_video(start: Cleanup, sizes: Seq<u64>)
    requires
        start.position == 0,
        start.counter == VIDEOS_TO_REMOVE,
        sizes.len() <= start.order@.len(),
        large_files(sizes) <= 2,
    ensures
        start.after_removals(sizes).next_file() == (if sizes.len() < start.order@.len()
            && large_files(sizes) < 2 {
            Some(start.order@[sizes.len() as int])
        } else {
            None
        }),
{
    removal_state(start, sizes);
}

/// Where a removal stands after some files.
proof fn removal_state(start: Cleanup, sizes: Seq<u64>)
    requires
        start.position == 0,
        start.counter == VIDEOS_TO_REMOVE,
        sizes.len() <= start.order@.len(),
        large_files(sizes) <= 2,
    ensures
        start.after_removals(sizes).order == start.order,
        start.after_removals(sizes).position == sizes.len(),
        start.after_removals(sizes).counter == 2 - large_files(sizes),
    decreases sizes.len(),
{
    if sizes.len() == 0 {
        reveal(Seq::filter);
    } else {
        large_files_add_up(sizes);
        removal_state(start, sizes.drop_last());
        assert(start.order.len() <= usize::MAX);
    }
}

/// As many files are removed as it takes for `counter` of them to hold more than 10000000 bytes:
/// with one fewer too few are gone, and files stay only where enough are.
pub proof fn enough_files_are_removed(counter: int, sizes: Seq<u64>)
    requires
        counter > 0,
    ensures
        ({
            let n = removed(counter, sizes) as int;
            &&& n <= sizes.len()
            &&& n > 0 ==> large_files(sizes.take(n - 1)) < counter
            &&& n < sizes.len() ==> n > 0 && large_files(sizes.take(n)) == counter
            &&& sizes.len() > 0 ==> n > 0
        }),
    decreases sizes.len(),
{
    if sizes.len() > 0 {
        let n = removed(counter, sizes) as int;
        let left = left_after(counter, sizes[0]);
        let rest = sizes.drop_first();
        if left > 0 {
            enough_files_are_removed(left, rest);
            if n > 1 {
                large_files_in_front(sizes.take(n - 1));
                assert(sizes.take(n - 1).drop_first() =~= rest.take(n - 2));
            } else {
                assert(rest.len() == 0);
            }
        }
        large_files_in_front(sizes.take(n));
        assert(sizes.take(n).drop_first() =~= rest.take(n - 1));
        reveal(Seq::filter);
        assert(sizes.take(0) =~= Seq::<u64>::empty());
        assert(rest.take(0) =~= Seq::<u64>::empty());
        assert(large_files(Seq::<u64>::empty()) == 0);
    }
}

/// The file in front counts for itself.
proof fn large_files_in_front(sizes: Seq<u64>)
    requires
        sizes.len() > 0,
    ensures
        large_files(sizes) == large_files(sizes.drop_first()) + (if sizes[0] > 10000000 {
            1nat
        } else {
            0nat
        }),
{
    let large = |size: u64| size > 10000000;
    let one = seq![sizes[0]];
    assert(sizes =~= one + sizes.drop_first());
    Seq::filter_distributes_over_add(one, sizes.drop_first(), large);
    reveal_with_fuel(Seq::filter, 2);
    assert(one.drop_last() =~= Seq::<u64>::empty());
}

/// Where every file is a video, two go, or as many as there are.
pub proof fn two_videos_go(sizes: Seq<u64>)
    requires
        forall|i: int| 0 <= i < sizes.len() ==> #[trigger] sizes[i] > 10000000,
    ensures
        removed(2, sizes) == (if sizes.len() < 2 {
            sizes.len()
        } else {
            2
        }),
{
    reveal_with_fuel(removed, 3);
    if sizes.len() > 1 {
        assert(sizes.drop_first()[0] == sizes[1]);
    }
}

/// Where no file is a video, all go.
pub proof fn small_files_all_go(counter: int, sizes: Seq<u64>)
    requires
        counter > 0,
        forall|i: int| 0 <= i < sizes.len() ==> #[trigger] sizes[i] <= 10000000,
    ensures
        removed(counter, sizes) == sizes.len(),
    decreases sizes.len(),
{
    if sizes.len() > 0 {
        let rest = sizes.drop_first();
        assert forall|i: int| 0 <= i < rest.len() implies #[trigger] rest[i] <= 10000000 by {
            assert(rest[i] == sizes[i + 1]);
        }
        small_files_all_go(counter, rest);
    }
}

/// Rounding gives the nearest whole number, and the even one of two that are equally near.
pub proof fn rounding_is_to_the_nearest(num: nat, den: nat)
    requires
        den > 0,
    ensures
        2 * (nearest(num, den) * den) <= 2 * num + den,
        2 * num <= 2 * (nearest(num, den) * den) + den,
        2 * (nearest(num, den) * den) == 2 * num + den || 2 * num == 2 * (nearest(num, den) * den)
            + den ==> nearest(num, den) % 2 == 0,
{
    nearest_is_near(num, den);
    let down = num / den;
    let rest = num % den;
    assert(num == down * den + rest && rest < den) by (nonlinear_arith)
        requires
            den > 0,
            down == num / den,
            rest == num % den,
    ;
    assert((down + 1) * den == down * den + den) by (nonlinear_arith);
}

/// A double precision number has 53 binary digits: the step between two of them is a power of
/// two, and the number is less than 2^53 steps and, where the step is not one, no less than 2^52.
pub proof fn doubles_have_their_digits(n: nat)
    ensures
        exists|k: nat| double_step(n) == pow2(k),
        n < 9007199254740992 * double_step(n),
        double_step(n) == 1 || 4503599627370496 * double_step(n) <= n,
        n < 9007199254740992 ==> double_step(n) == 1,
    decreases n,
{
    lemma2_to64();
    if n < EXACT_DOUBLES {
        assert(double_step(n) == pow2(0));
    } else {
        doubles_have_their_digits(n / 2);
        let k = choose|k: nat| double_step(n / 2) == pow2(k);
        lemma_pow2_unfold(k + 1);
        assert(double_step(n) == pow2(k + 1));
    }
}

/// A number is shown as the double precision number nearest to it: so many steps, to the nearest
/// step, and to the even one of two that are equally near.
pub proof fn doubles_are_nearest(n: nat)
    ensures
        ({
            let step = double_step(n);
            let steps = nearest(n, step);
            &&& nearest_double(n) == steps * step
            &&& 2 * nearest_double(n) <= 2 * n + step
            &&& 2 * n <= 2 * nearest_double(n) + step
            &&& 2 * nearest_double(n) == 2 * n + step || 2 * n == 2 * nearest_double(n) + step
                ==> steps % 2 == 0
            &&& n < 9007199254740992 ==> nearest_double(n) == n
        }),
{
    double_is_exact(n);
    rounding_is_to_the_nearest(n, double_step(n));
}

/// The hundredths that are shown are those nearest to the size, as double precision holds it, and
/// the even ones of two that are equally near.
pub proof fn hundredths_are_nearest(space: nat)
    ensures
        ({
            let shown = hundredths_of(space) * unit_of(space);
            &&& 2 * shown <= 200 * nearest_double(space) + unit_of(space)
            &&& 200 * nearest_double(space) <= 2 * shown + unit_of(space)
            &&& 2 * shown == 200 * nearest_double(space) + unit_of(space) || 200 * nearest_double(
                space,
            ) == 2 * shown + unit_of(space) ==> hundredths_of(space) % 2 == 0
        }),
{
    rounding_is_to_the_nearest(100 * nearest_double(space), unit_of(space));
}

/// A size is shown in the largest unit of which it has one, or in kilobytes.
pub proof fn unit_is_the_largest_that_fits(space: nat)
    ensures
        unit_of(space) == 1024 && unit_name_of(space) == " KB"@ || unit_of(space) == 1024 * 1024
            && unit_name_of(space) == " MB"@ || unit_of(space) == 1024 * 1024 * 1024
            && unit_name_of(space) == " GB"@ || unit_of(space) == 1024 * 1024 * 1024 * 1024
            && unit_name_of(space) == " TB"@,
        unit_of(space) <= space || unit_of(space) == 1024,
        space < 1024 * unit_of(space) || unit_of(space) == 1024 * 1024 * 1024 * 1024,
{
}

/// A text shows so many hundredths of a unit: whole units, a point, two digits, and the unit's
/// name of three characters.
pub open spec fn shows(shown: Seq<char>, hundredths: int, unit_name: Seq<char>) -> bool {
    let point = shown.len() - 6;
    &&& point > 0
    &&& text::is_numeral(shown.take(point))
    &&& shown[point] == '.'
    &&& '0' <= shown[point + 1] <= '9'
    &&& '0' <= shown[point + 2] <= '9'
    &&& text::number_of(shown.take(point)) * 100 + (shown[point + 1] as int - '0' as int) * 10 + (
    shown[point + 2] as int - '0' as int) == hundredths
    &&& shown.skip(point + 3) == unit_name
}

/// What is shown of a size reads as its hundredths, with the unit behind them.
pub proof fn pretty_reads_back(space: nat)
    ensures
        shows(pretty(space), hundredths_of(space) as int, unit_name_of(space)),
{
    reveal_strlit(" KB");
    reveal_strlit(" MB");
    reveal_strlit(" GB");
    reveal_strlit(" TB");
    reveal_strlit(".");
    let h = hundredths_of(space);
    let whole = text::decimal(h / 100);
    text::decimal_reads_back(h / 100);
    let shown = pretty(space);
    let point = whole.len() as int;
    assert(unit_name_of(space).len() == 3);
    assert(shown.len() == point + 6);
    assert(shown.take(point) =~= whole);
    assert(shown.skip(point + 3) =~= unit_name_of(space));
    assert(shown[point + 1] == text::digit(((h / 10) % 10) as int));
    assert(shown[point + 2] == text::digit((h % 10) as int));
}

/// A failed `blkid` names no file system, and a successful one that of its text.
pub proof fn failed_lookup_names_nothing(line: Seq<char>, blkid_output: Seq<u8>)
    requires
        decode_utf8(blkid_output) == line,
    ensures
        card_format(true, blkid_output) == fs_type_in(line),
        card_format(false, blkid_output) == Seq::<char>::empty(),
{
}

/// The card is in exactly when the listing names `mmcblk1`.
pub proof fn card_is_in_when_listed(lsblk_output: Seq<u8>)
    ensures
        card_is_in(lsblk_output) <==> lists(lsblk_output, "mmcblk1"@),
{
}

/// The card is mounted exactly when the listing names its directory.
pub proof fn card_is_mounted_when_listed(lsblk_output: Seq<u8>)
    ensures
        card_is_mounted(lsblk_output) <==> lists(lsblk_output, "/media/sdcard"@),
{
}

} // verus!
