//! The recorder as a whole: its state, what it is told, and what it does in answer.

use vstd::prelude::*;

use crate::recorder;
use crate::recorder::RecorderState;
use crate::utils;
use crate::utils::{Device, Storage, StorageView};

verus! {

/// What the recorder is told.
#[derive(Debug)]
pub enum Message {
    /// Something changed below the watched directory.
    FileChangeDetect,
    /// The room on the storage was measured: all of it, and what is left.
    StorageChangeDetect(u64, u64),
    /// The SD card is in.
    SDInserted,
    /// The SD card is out.
    SDRemoved,
    /// The SD card's file system was looked up.
    SDFormatChecked(String),
    /// The recorder runs.
    RecorderStarted,
    /// The recorder has stopped.
    RecorderStopped,
}

/// Where the recorder stands with its storage.
#[derive(Debug, Copy, Clone, PartialEq, Eq, Structural)]
pub enum AppState {
    /// At the start, and while a card is looked at.
    Loading,
    /// The card has to be formatted first.
    ResetSD,
    /// Recordings go to the SD card.
    UsingSD,
    /// Recordings go to the local disk.
    UsingLocal,
}

/// What the threads around the recorder tell it.
#[derive(Debug, Copy, Clone, PartialEq, Eq, Structural)]
pub enum SubEvent {
    /// Something changed below the watched directory.
    FileChangeDetect,
    /// The SD card came in or went out.
    SDInserted,
    SDRemoved,
    /// The pipelines run or have stopped.
    PipeRunning,
    PipeStopped,
}

/// With this many bytes left or fewer, nothing more is recorded.
pub const LOW_SPACE: u64 = 209715200;

/// What a message tells, with its text as a character sequence.
pub enum MessageView {
    FileChangeDetect,
    StorageChangeDetect(u64, u64),
    SDInserted,
    SDRemoved,
    SDFormatChecked(Seq<char>),
    RecorderStarted,
    RecorderStopped,
}

impl View for Message {
    type V = MessageView;

    open spec fn view(&self) -> MessageView {
        match *self {
            Message::FileChangeDetect => MessageView::FileChangeDetect,
            Message::StorageChangeDetect(total, avail) => MessageView::StorageChangeDetect(
                total,
                avail,
            ),
            Message::SDInserted => MessageView::SDInserted,
            Message::SDRemoved => MessageView::SDRemoved,
            Message::SDFormatChecked(fs_type) => MessageView::SDFormatChecked(fs_type@),
            Message::RecorderStarted => MessageView::RecorderStarted,
            Message::RecorderStopped => MessageView::RecorderStopped,
        }
    }
}

impl Clone for Message {
    fn clone(&self) -> (res: Self)
        ensures
            res@ == self@,
    {
        match self {
            Message::FileChangeDetect => Message::FileChangeDetect,
            Message::StorageChangeDetect(total, avail) => Message::StorageChangeDetect(
                *total,
                *avail,
            ),
            Message::SDInserted => Message::SDInserted,
            Message::SDRemoved => Message::SDRemoved,
            Message::SDFormatChecked(fs_type) => Message::SDFormatChecked(fs_type.clone()),
            Message::RecorderStarted => Message::RecorderStarted,
            Message::RecorderStopped => Message::RecorderStopped,
        }
    }
}

/// What is to be done on the spot after a message.
#[derive(Debug)]
pub enum Effect {
    /// Tell the recording thread.
    SetRecorder(RecorderState),
    /// Tell the thread that watches files.
    SetNotifier(AppState),
    /// Mount the SD card, with this file system on it.
    MountSdCard(String),
    /// Create this directory unless it is there.
    CreateFolder(String),
}

/// An effect, with its text as a character sequence.
pub enum EffectView {
    SetRecorder(RecorderState),
    SetNotifier(AppState),
    MountSdCard(Seq<char>),
    CreateFolder(Seq<char>),
}

impl View for Effect {
    type V = EffectView;

    open spec fn view(&self) -> EffectView {
        match *self {
            Effect::SetRecorder(state) => EffectView::SetRecorder(state),
            Effect::SetNotifier(state) => EffectView::SetNotifier(state),
            Effect::MountSdCard(fs_type) => EffectView::MountSdCard(fs_type@),
            Effect::CreateFolder(path) => EffectView::CreateFolder(path@),
        }
    }
}

/// A list of effects, with their texts as character sequences.
pub open spec fn effect_views(effects: Seq<Effect>) -> Seq<EffectView> {
    Seq::new(effects.len(), |i: int| effects[i]@)
}

/// What is to be found out after a message; the answer comes back as another one.
#[derive(Debug, Copy, Clone, PartialEq, Eq, Structural)]
pub enum Command {
    Nothing,
    CheckSdInsertion,
    CheckSdFormat,
    CheckTargetSpace(Device),
}

/// The recorder.
pub struct BlackBox {
    /// The storage that is recorded to.
    pub storage: Storage,
    /// Where the recorder stands with it.
    pub state: AppState,
    /// What is shown of that.
    pub state_message: String,
    /// What the thread that watches files was last told.
    pub file_state: AppState,
    /// A recording is under way.
    pub is_recording: bool,
    /// The next recording is to start as soon as this one has stopped.
    pub is_wating_to_record: bool,
    /// What the recording thread was last told.
    pub recorder_state: RecorderState,
}

/// The recorder, with its texts as character sequences.
#[verifier::ext_equal]
pub struct BlackBoxView {
    pub storage: StorageView,
    pub state: AppState,
    pub state_message: Seq<char>,
    pub file_state: AppState,
    pub is_recording: bool,
    pub is_wating_to_record: bool,
    pub recorder_state: RecorderState,
}

impl View for BlackBox {
    type V = BlackBoxView;

    open spec fn view(&self) -> BlackBoxView {
        BlackBoxView {
            storage: self.storage@,
            state: self.state,
            state_message: self.state_message@,
            file_state: self.file_state,
            is_recording: self.is_recording,
            is_wating_to_record: self.is_wating_to_record,
            recorder_state: self.recorder_state,
        }
    }
}

/// What a message leads to.
#[verifier::ext_equal]
pub struct Outcome {
    pub next: BlackBoxView,
    pub effects: Seq<EffectView>,
    pub command: Command,
}

/// The file systems that a card may have.
pub open spec fn is_supported(fs_type: Seq<char>) -> bool {
    fs_type == "ext4"@ || fs_type == "exfat"@ || fs_type == "vfat"@
}

/// What is shown of a card with another file system.
pub const UNSUPPORTED: &'static str = "Unsupported SD Format Found!\nOnly exfat, ext4 format usb allowed\nFormat the usb, and retry";

impl BlackBoxView {
    /// The thread that watches files knows where the recorder stands. A recording is waited for
    /// only while another is under way. Once there is a storage directory it is the one of the
    /// device that is recorded to. A device that is shown as in use is that device.
    pub open spec fn wf(self) -> bool {
        &&& self.file_state == self.state
        &&& self.is_wating_to_record ==> self.is_recording
        &&& self.storage.folder == utils::workdir_of(self.storage.target)
            || self.storage.folder.len() == 0
        &&& self.state is UsingSD ==> self.storage.target == Device::SD && self.storage.folder
            == utils::SD_WORKDIR@
        &&& self.state is UsingLocal ==> self.storage.target == Device::Local
            && self.storage.folder == utils::LOCAL_WORKDIR@
    }

    /// A new storage, of which the room is not known yet, in the state that goes with it.
    pub open spec fn with_storage(self, device: Device, fs_type: Seq<char>, state: AppState) -> Self {
        BlackBoxView {
            storage: StorageView {
                target: device,
                format: fs_type,
                folder: utils::workdir_of(device),
                total_space: 0,
                avail_space: 0,
            },
            state,
            file_state: state,
            ..self
        }
    }

    /// Recording on a device starts, or waits for the recording that is under way.
    pub open spec fn record_on(self, device: Device) -> Self {
        if self.is_recording {
            BlackBoxView { is_wating_to_record: true, ..self }
        } else {
            BlackBoxView { recorder_state: RecorderState::Record(device), ..self }
        }
    }

    /// What is done for that.
    pub open spec fn record_effects(self, device: Device) -> Seq<EffectView> {
        if self.is_recording {
            Seq::empty()
        } else {
            seq![EffectView::SetRecorder(RecorderState::Record(device))]
        }
    }

    /// A card came in: recording stops, and the card is looked at.
    pub open spec fn on_inserted(self) -> Outcome {
        Outcome {
            next: BlackBoxView {
                state_message: "SD Card Insertion Detected!"@,
                recorder_state: RecorderState::Stop,
                state: AppState::Loading,
                file_state: AppState::Loading,
                ..self
            },
            effects: seq![
                EffectView::SetRecorder(RecorderState::Stop),
                EffectView::SetNotifier(AppState::Loading),
            ],
            command: Command::CheckSdFormat,
        }
    }

    /// The card's file system is known: the card is mounted and recorded to, or refused.
    pub open spec fn on_format(self, fs_type: Seq<char>) -> Outcome {
        if is_supported(fs_type) {
            Outcome {
                next: self.with_storage(Device::SD, fs_type, AppState::UsingSD).record_on(
                    Device::SD,
                ),
                effects: seq![
                    EffectView::MountSdCard(fs_type),
                    EffectView::SetNotifier(AppState::UsingSD),
                ] + self.record_effects(Device::SD),
                command: Command::CheckTargetSpace(Device::SD),
            }
        } else {
            Outcome {
                next: BlackBoxView {
                    state_message: UNSUPPORTED@,
                    state: AppState::ResetSD,
                    file_state: AppState::ResetSD,
                    ..self
                },
                effects: seq![EffectView::SetNotifier(AppState::ResetSD)],
                command: Command::Nothing,
            }
        }
    }

    /// The card went out: recording goes on on the local disk.
    pub open spec fn on_removed(self) -> Outcome {
        let stopped = BlackBoxView {
            state_message: "SD Card is removed!"@,
            recorder_state: RecorderState::Stop,
            ..self
        };
        Outcome {
            next: stopped.with_storage(
                Device::Local,
                Seq::empty(),
                AppState::UsingLocal,
            ).record_on(Device::Local),
            effects: seq![
                EffectView::SetRecorder(RecorderState::Stop),
                EffectView::CreateFolder(utils::LOCAL_WORKDIR@),
                EffectView::SetNotifier(AppState::UsingLocal),
            ] + self.record_effects(Device::Local),
            command: Command::CheckTargetSpace(Device::Local),
        }
    }

    /// The room on the storage is known: recording stops where it runs out.
    pub open spec fn on_space(self, total_space: u64, avail_space: u64) -> Outcome {
        let measured = BlackBoxView {
            storage: StorageView { total_space, avail_space, ..self.storage },
            ..self
        };
        if avail_space <= LOW_SPACE {
            Outcome {
                next: BlackBoxView { recorder_state: RecorderState::Stop, ..measured },
                effects: seq![EffectView::SetRecorder(RecorderState::Stop)],
                command: Command::Nothing,
            }
        } else {
            Outcome { next: measured, effects: Seq::empty(), command: Command::Nothing }
        }
    }

    /// The recorder has stopped: a recording that was waited for starts.
    pub open spec fn on_stopped(self) -> Outcome {
        let stopped = BlackBoxView {
            is_recording: false,
            is_wating_to_record: false,
            state_message: "🛑    Recording Stopped!"@,
            ..self
        };
        if self.is_wating_to_record {
            Outcome {
                next: stopped.record_on(self.storage.target),
                effects: stopped.record_effects(self.storage.target),
                command: Command::Nothing,
            }
        } else {
            Outcome { next: stopped, effects: Seq::empty(), command: Command::Nothing }
        }
    }

    /// What a message leads to.
    pub open spec fn on_message(self, message: MessageView) -> Outcome {
        match message {
            MessageView::SDInserted => self.on_inserted(),
            MessageView::SDFormatChecked(fs_type) => self.on_format(fs_type),
            MessageView::SDRemoved => self.on_removed(),
            MessageView::FileChangeDetect => Outcome {
                next: self,
                effects: Seq::empty(),
                command: Command::CheckTargetSpace(self.storage.target),
            },
            MessageView::StorageChangeDetect(total, avail) => self.on_space(total, avail),
            MessageView::RecorderStarted => Outcome {
                next: BlackBoxView {
                    is_recording: true,
                    state_message: "▶️    Recording!"@,
                    ..self
                },
                effects: Seq::empty(),
                command: Command::Nothing,
            },
            MessageView::RecorderStopped => self.on_stopped(),
        }
    }
}

/// The recorder at the start.
pub open spec fn at_start() -> BlackBoxView {
    BlackBoxView {
        storage: StorageView {
            target: Device::Local,
            format: Seq::empty(),
            folder: Seq::empty(),
            total_space: 0,
            avail_space: 0,
        },
        state: AppState::Loading,
        state_message: "Initializing..."@,
        file_state: AppState::Loading,
        is_recording: false,
        is_wating_to_record: false,
        recorder_state: RecorderState::Stop,
    }
}

/// The message that the recorder gets when a thread around it tells of something.
pub open spec fn message_of(event: SubEvent) -> MessageView {
    match event {
        SubEvent::FileChangeDetect => MessageView::FileChangeDetect,
        SubEvent::SDInserted => MessageView::SDInserted,
        SubEvent::SDRemoved => MessageView::SDRemoved,
        SubEvent::PipeRunning => MessageView::RecorderStarted,
        SubEvent::PipeStopped => MessageView::RecorderStopped,
    }
}

/// What is to be done after a message: the effects in this order, then the command.
#[derive(Debug)]
pub struct Update {
    pub effects: Vec<Effect>,
    pub command: Command,
}

impl BlackBox {
    /// The recorder at the start, and the first thing to find out.
    pub fn new() -> (res: (BlackBox, Command))
        ensures
            res.0@ == (BlackBoxView {
                storage: StorageView {
                    target: Device::Local,
                    format: Seq::empty(),
                    folder: Seq::empty(),
                    total_space: 0,
                    avail_space: 0,
                },
                state: AppState::Loading,
                state_message: "Initializing..."@,
                file_state: AppState::Loading,
                is_recording: false,
                is_wating_to_record: false,
                recorder_state: RecorderState::Stop,
            }),
            res.0@ == at_start(),
            res.0@.wf(),
            res.1 == Command::CheckSdInsertion,
    {
        (
            BlackBox {
                storage: Storage::default(),
                state: AppState::Loading,
                state_message: "Initializing...".to_owned(),
                file_state: AppState::Loading,
                is_recording: false,
                is_wating_to_record: false,
                recorder_state: RecorderState::Stop,
            },
            Command::CheckSdInsertion,
        )
    }

    /// Makes a device the one that is recorded to. The room on it is not known yet.
    pub fn change_storage(&mut self, target_type: Device, fs_type: &str)
        ensures
            final(self)@ == (BlackBoxView {
                storage: StorageView {
                    target: target_type,
                    format: fs_type@,
                    folder: utils::workdir_of(target_type),
                    total_space: 0,
                    avail_space: 0,
                },
                ..old(self)@
            }),
    {
        self.storage = Storage {
            target: target_type,
            format: fs_type.to_owned(),
            folder: utils::workdir(target_type).to_owned(),
            total_space: 0,
            avail_space: 0,
        };
    }

    /// The command that measures the room on the storage.
    pub fn check_space(&self) -> (command: Command)
        ensures
            command == Command::CheckTargetSpace(self.storage.target),
    {
        Command::CheckTargetSpace(self.storage.target)
    }

    /// Enters a state, and lets the thread that watches files know.
    pub fn change_file_notifier_target(&mut self, new_state: AppState, effects: &mut Vec<Effect>)
        ensures
            final(self)@ == (BlackBoxView {
                state: new_state,
                file_state: new_state,
                ..old(self)@
            }),
            effect_views(final(effects)@) == effect_views(old(effects)@).push(
                EffectView::SetNotifier(new_state),
            ),
    {
        self.state = new_state;
        self.file_state = new_state;
        effects.push(Effect::SetNotifier(new_state));
        assert(effect_views(effects@) =~= effect_views(old(effects)@).push(
            EffectView::SetNotifier(new_state),
        ));
    }

    /// Tells the recording thread what to do.
    pub fn change_recorder_state(&mut self, new_state: RecorderState, effects: &mut Vec<Effect>)
        ensures
            final(self)@ == (BlackBoxView { recorder_state: new_state, ..old(self)@ }),
            effect_views(final(effects)@) == effect_views(old(effects)@).push(
                EffectView::SetRecorder(new_state),
            ),
    {
        self.recorder_state = new_state;
        effects.push(Effect::SetRecorder(new_state));
        assert(effect_views(effects@) =~= effect_views(old(effects)@).push(
            EffectView::SetRecorder(new_state),
        ));
    }

    /// Starts to record on a device, or waits for the recording that is under way.
    pub fn start_record_or_wait(&mut self, device: Device, effects: &mut Vec<Effect>)
        ensures
            final(self)@ == old(self)@.record_on(device),
            effect_views(final(effects)@) == effect_views(old(effects)@)
                + old(self)@.record_effects(device),
    {
        if self.is_recording {
            self.is_wating_to_record = true;
            assert(effect_views(effects@) =~= effect_views(old(effects)@)
                + old(self)@.record_effects(device));
        } else {
            self.change_recorder_state(RecorderState::Record(device), effects);
        }
    }

    /// Whether a card with this file system can be recorded to.
    fn supports(fs_type: &String) -> (supported: bool)
        ensures
            supported == is_supported(fs_type@),
    {
        *fs_type == "ext4".to_owned() || *fs_type == "exfat".to_owned() || *fs_type
            == "vfat".to_owned()
    }

    /// Takes in a message.
    pub fn update(&mut self, message: Message) -> (update: Update)
        ensures
            final(self)@ == old(self)@.on_message(message@).next,
            effect_views(update.effects@) == old(self)@.on_message(message@).effects,
            update.command == old(self)@.on_message(message@).command,
            old(self)@.wf() ==> final(self)@.wf(),
    {
        let mut effects: Vec<Effect> = Vec::new();
        let mut command: Command = Command::Nothing;
        assert(effect_views(effects@) =~= Seq::empty());
        match message {
            Message::SDInserted => {
                self.state_message = "SD Card Insertion Detected!".to_owned();
                self.change_recorder_state(RecorderState::Stop, &mut effects);
                self.change_file_notifier_target(AppState::Loading, &mut effects);
                command = Command::CheckSdFormat;
            },
            Message::SDFormatChecked(fs_type) => {
                if Self::supports(&fs_type) {
                    effects.push(Effect::MountSdCard(fs_type.clone()));
                    assert(effect_views(effects@) =~= seq![EffectView::MountSdCard(fs_type@)]);
                    self.change_storage(Device::SD, fs_type.as_str());
                    self.change_file_notifier_target(AppState::UsingSD, &mut effects);
                    self.start_record_or_wait(Device::SD, &mut effects);
                    command = self.check_space();
                } else {
                    self.state_message = UNSUPPORTED.to_owned();
                    self.change_file_notifier_target(AppState::ResetSD, &mut effects);
                }
            },
            Message::SDRemoved => {
                self.state_message = "SD Card is removed!".to_owned();
                self.change_recorder_state(RecorderState::Stop, &mut effects);
                let ghost so_far = effect_views(effects@);
                effects.push(Effect::CreateFolder(utils::LOCAL_WORKDIR.to_owned()));
                assert(effect_views(effects@) =~= so_far.push(
                    EffectView::CreateFolder(utils::LOCAL_WORKDIR@),
                ));
                self.change_storage(Device::Local, "");
                proof {
                    reveal_strlit("");
                    assert(""@ =~= Seq::<char>::empty());
                }
                self.change_file_notifier_target(AppState::UsingLocal, &mut effects);
                self.start_record_or_wait(Device::Local, &mut effects);
                command = self.check_space();
            },
            Message::FileChangeDetect => {
                command = self.check_space();
            },
            Message::StorageChangeDetect(total_space, avail_space) => {
                self.storage.total_space = total_space;
                self.storage.avail_space = avail_space;
                if avail_space <= LOW_SPACE {
                    self.change_recorder_state(RecorderState::Stop, &mut effects);
                }
            },
            Message::RecorderStarted => {
                self.is_recording = true;
                self.state_message = "▶️    Recording!".to_owned();
            },
            Message::RecorderStopped => {
                self.is_recording = false;
                self.state_message = "🛑    Recording Stopped!".to_owned();
                if self.is_wating_to_record {
                    self.is_wating_to_record = false;
                    let target_device: Device = self.storage.target;
                    self.change_recorder_state(RecorderState::Record(target_device), &mut effects);
                }
            },
        }
        proof {
            let outcome = old(self)@.on_message(message@);
            assert(effect_views(effects@) =~= outcome.effects);
            assert(self@ =~= outcome.next);
        }
        Update { effects, command }
    }

    /// The title of the window.
    pub fn title(&self) -> (title: String)
        ensures
            title@ == "Spidercore-BlackBox"@,
    {
        "Spidercore-BlackBox".to_owned()
    }

    /// The message that the recorder gets when a thread around it tells of something.
    pub fn subscription(event: SubEvent) -> (message: Message)
        ensures
            message == (match event {
                SubEvent::FileChangeDetect => Message::FileChangeDetect,
                SubEvent::SDInserted => Message::SDInserted,
                SubEvent::SDRemoved => Message::SDRemoved,
                SubEvent::PipeRunning => Message::RecorderStarted,
                SubEvent::PipeStopped => Message::RecorderStopped,
            }),
            message@ == message_of(event),
    {
        match event {
            SubEvent::FileChangeDetect => Message::FileChangeDetect,
            SubEvent::SDInserted => Message::SDInserted,
            SubEvent::SDRemoved => Message::SDRemoved,
            SubEvent::PipeRunning => Message::RecorderStarted,
            SubEvent::PipeStopped => Message::RecorderStopped,
        }
    }
}

// ---------------------------------------------------------------------------
// What is shown
// ---------------------------------------------------------------------------

/// How full a gauge is: so many percent, or so much of so much.
#[derive(Debug, Copy, Clone, PartialEq, Eq, Structural)]
pub enum Gauge {
    Percent(u64),
    Used { used: u64, total: u64 },
}

/// What is shown in the window.
#[derive(Debug)]
pub enum Screen {
    /// A heading and a message.
    Loading { heading: String, message: String },
    /// A message in large letters.
    ResetSD { message: String },
    /// A storage with its picture and caption, a gauge of how full it is, the room on it in
    /// words, and a message.
    InUse { device: Device, caption: String, gauge: Gauge, room: String, message: String },
}

/// What is shown, with its texts as character sequences.
pub enum ScreenView {
    Loading { heading: Seq<char>, message: Seq<char> },
    ResetSD { message: Seq<char> },
    InUse {
        device: Device,
        caption: Seq<char>,
        gauge: Gauge,
        room: Seq<char>,
        message: Seq<char>,
    },
}

impl View for Screen {
    type V = ScreenView;

    open spec fn view(&self) -> ScreenView {
        match *self {
            Screen::Loading { heading, message } => ScreenView::Loading {
                heading: heading@,
                message: message@,
            },
            Screen::ResetSD { message } => ScreenView::ResetSD { message: message@ },
            Screen::InUse { device, caption, gauge, room, message } => ScreenView::InUse {
                device,
                caption: caption@,
                gauge,
                room: room@,
                message: message@,
            },
        }
    }
}

/// The gauge of a storage. A card of which the room is not known is shown as full, a local disk
/// as empty.
pub open spec fn gauge_of(device: Device, total_space: u64, avail_space: u64) -> Gauge {
    if total_space != 0 {
        Gauge::Used { used: (total_space - avail_space) as u64, total: total_space }
    } else {
        Gauge::Percent(
            match device {
                Device::SD => 100,
                Device::Local => 0,
            },
        )
    }
}

impl BlackBoxView {
    /// No more room is left than there is, as far as the room is known. What is shown of a
    /// storage in use rests on that.
    pub open spec fn room_is_known_well(self) -> bool {
        (self.state is UsingSD || self.state is UsingLocal) && self.storage.total_space != 0
            ==> self.storage.avail_space <= self.storage.total_space
    }

    /// The room on the storage in words.
    pub open spec fn room(self) -> Seq<char> {
        utils::pretty(self.storage.avail_space as nat) + " free of "@ + utils::pretty(
            self.storage.total_space as nat,
        )
    }

    /// What is shown.
    pub open spec fn screen(self) -> ScreenView {
        match self.state {
            AppState::Loading => ScreenView::Loading {
                heading: "AppState: Loading"@,
                message: self.state_message,
            },
            AppState::ResetSD => ScreenView::ResetSD { message: self.state_message },
            AppState::UsingSD => ScreenView::InUse {
                device: Device::SD,
                caption: "SD Card ("@ + self.storage.format + ")"@,
                gauge: gauge_of(Device::SD, self.storage.total_space, self.storage.avail_space),
                room: self.room(),
                message: self.state_message,
            },
            AppState::UsingLocal => ScreenView::InUse {
                device: Device::Local,
                caption: "Local Storage"@,
                gauge: gauge_of(Device::Local, self.storage.total_space, self.storage.avail_space),
                room: self.room(),
                message: self.state_message,
            },
        }
    }
}

impl BlackBox {
    /// The gauge of the storage, shown for a device.
    fn gauge(&self, device: Device) -> (gauge: Gauge)
        requires
            self.storage.total_space != 0 ==> self.storage.avail_space <= self.storage.total_space,
        ensures
            gauge == gauge_of(device, self.storage.total_space, self.storage.avail_space),
    {
        if self.storage.total_space != 0 {
            Gauge::Used {
                used: self.storage.total_space - self.storage.avail_space,
                total: self.storage.total_space,
            }
        } else {
            match device {
                Device::SD => Gauge::Percent(100),
                Device::Local => Gauge::Percent(0),
            }
        }
    }

    /// The room on the storage in words.
    fn room(&self) -> (room: String)
        ensures
            room@ == self@.room(),
    {
        let mut room: String = utils::prettify_space(self.storage.avail_space);
        room.append(" free of ");
        room.append(utils::prettify_space(self.storage.total_space).as_str());
        room
    }

    /// What is shown.
    pub fn view_screen(&self) -> (screen: Screen)
        requires
            self@.room_is_known_well(),
        ensures
            screen@ == self@.screen(),
    {
        let message: String = self.state_message.clone();
        match self.state {
            AppState::Loading => Screen::Loading {
                heading: "AppState: Loading".to_owned(),
                message,
            },
            AppState::ResetSD => Screen::ResetSD { message },
            AppState::UsingSD => {
                let mut caption: String = "SD Card (".to_owned();
                caption.append(self.storage.format.as_str());
                caption.append(")");
                Screen::InUse {
                    device: Device::SD,
                    caption,
                    gauge: self.gauge(Device::SD),
                    room: self.room(),
                    message,
                }
            },
            AppState::UsingLocal => Screen::InUse {
                device: Device::Local,
                caption: "Local Storage".to_owned(),
                gauge: self.gauge(Device::Local),
                room: self.room(),
                message,
            },
        }
    }
}

// ---------------------------------------------------------------------------
// Laws
// ---------------------------------------------------------------------------

/// What the recording thread was last told, after effects that followed `before`.
pub open spec fn last_order(before: RecorderState, effects: Seq<EffectView>) -> RecorderState
    decreases effects.len(),
{
    if effects.len() == 0 {
        before
    } else {
        match effects.last() {
            EffectView::SetRecorder(state) => state,
            _ => last_order(before, effects.drop_last()),
        }
    }
}

/// What the thread that watches files was last told, after effects that followed `before`.
pub open spec fn last_notice(before: AppState, effects: Seq<EffectView>) -> AppState
    decreases effects.len(),
{
    if effects.len() == 0 {
        before
    } else {
        match effects.last() {
            EffectView::SetNotifier(state) => state,
            _ => last_notice(before, effects.drop_last()),
        }
    }
}

/// The recorder knows what it told the threads: its own account is what the effects leave them
/// with.
pub proof fn threads_hear_what_is_decided(s: BlackBoxView, message: MessageView)
    ensures
        s.on_message(message).next.recorder_state == last_order(
            s.recorder_state,
            s.on_message(message).effects,
        ),
        s.on_message(message).next.file_state == last_notice(
            s.file_state,
            s.on_message(message).effects,
        ),
{
    reveal_with_fuel(last_order, 6);
    reveal_with_fuel(last_notice, 6);
}

/// An order to record is given only while nothing is recorded, for the device of the storage,
/// and it is the last order given.
pub proof fn recording_waits_for_the_last(s: BlackBoxView, message: MessageView, device: Device)
    requires
        s.on_message(message).effects.contains(
            EffectView::SetRecorder(RecorderState::Record(device)),
        ),
    ensures
        !s.on_message(message).next.is_recording,
        s.on_message(message).next.storage.target == device,
        s.on_message(message).next.recorder_state == RecorderState::Record(device),
{
}

/// A recording that was waited for starts as soon as the recorder has stopped, on the device
/// that the storage is on by then.
pub proof fn awaited_recording_starts(s: BlackBoxView)
    requires
        s.is_wating_to_record,
    ensures
        s.on_message(MessageView::RecorderStopped).effects == seq![
            EffectView::SetRecorder(RecorderState::Record(s.storage.target)),
        ],
        !s.on_message(MessageView::RecorderStopped).next.is_wating_to_record,
{
}

/// Only a card with a supported file system and the removal of the card change the device that
/// is recorded to. Its room is measured at once.
pub proof fn new_storage_is_measured(s: BlackBoxView, message: MessageView)
    requires
        s.on_message(message).next.storage.target != s.storage.target,
    ensures
        message is SDRemoved || (message matches MessageView::SDFormatChecked(fs_type)
            && is_supported(fs_type)),
        s.on_message(message).command == Command::CheckTargetSpace(
            s.on_message(message).next.storage.target,
        ),
        s.on_message(message).next.storage.total_space == 0,
        s.on_message(message).next.storage.avail_space == 0,
{
}

/// A card with another file system is neither mounted nor recorded to, and nothing else of the
/// storage or the recording changes.
pub proof fn unsupported_card_is_refused(s: BlackBoxView, fs_type: Seq<char>)
    requires
        !is_supported(fs_type),
    ensures
        ({
            let outcome = s.on_message(MessageView::SDFormatChecked(fs_type));
            &&& outcome.next.state is ResetSD
            &&& outcome.next.storage == s.storage
            &&& outcome.next.recorder_state == s.recorder_state
            &&& outcome.effects == seq![EffectView::SetNotifier(AppState::ResetSD)]
            &&& outcome.command is Nothing
        }),
{
}

/// A card is mounted before anything else is done with it.
pub proof fn card_is_mounted_first(s: BlackBoxView, message: MessageView, fs_type: Seq<char>)
    requires
        s.on_message(message).effects.contains(EffectView::MountSdCard(fs_type)),
    ensures
        s.on_message(message).effects[0] == EffectView::MountSdCard(fs_type),
        is_supported(fs_type),
        s.on_message(message).next.storage.format == fs_type,
        s.on_message(message).next.state is UsingSD,
{
}

/// With little room left the recorder is told to stop, and with more room its orders stand.
pub proof fn low_space_stops_recording(s: BlackBoxView, total_space: u64, avail_space: u64)
    ensures
        ({
            let next = s.on_message(
                MessageView::StorageChangeDetect(total_space, avail_space),
            ).next;
            &&& next.recorder_state == (if avail_space <= LOW_SPACE {
                RecorderState::Stop
            } else {
                s.recorder_state
            })
            &&& next.storage.total_space == total_space
            &&& next.storage.avail_space == avail_space
        }),
{
}

/// Whatever came before, once the card is out recordings go to the local disk.
pub proof fn removal_falls_back_to_local(s: BlackBoxView)
    ensures
        ({
            let next = s.on_message(MessageView::SDRemoved).next;
            &&& next.state is UsingLocal
            &&& next.storage.target == Device::Local
            &&& next.storage.folder == utils::LOCAL_WORKDIR@
            &&& s.is_recording ==> next.is_wating_to_record && next.recorder_state
                == RecorderState::Stop
            &&& !s.is_recording ==> next.recorder_state == RecorderState::Record(Device::Local)
        }),
{
}

/// The recorder after a run of messages.
pub open spec fn after_messages(s: BlackBoxView, messages: Seq<MessageView>) -> BlackBoxView
    decreases messages.len(),
{
    if messages.len() == 0 {
        s
    } else {
        after_messages(s, messages.drop_last()).on_message(messages.last()).next
    }
}

/// All that is done over a run of messages.
pub open spec fn effects_of(s: BlackBoxView, messages: Seq<MessageView>) -> Seq<EffectView>
    decreases messages.len(),
{
    if messages.len() == 0 {
        Seq::empty()
    } else {
        effects_of(s, messages.drop_last()) + after_messages(s, messages.drop_last()).on_message(
            messages.last(),
        ).effects
    }
}

/// No run of messages leads out of the well-formed states.
pub proof fn runs_keep_well_formed(s: BlackBoxView, messages: Seq<MessageView>)
    requires
        s.wf(),
    ensures
        after_messages(s, messages).wf(),
    decreases messages.len(),
{
    if messages.len() > 0 {
        runs_keep_well_formed(s, messages.drop_last());
    }
}

/// After any run of messages the threads have last been told what the recorder holds them to
/// know: which orders stand, and where it stands with its storage.
pub proof fn threads_keep_up(s: BlackBoxView, messages: Seq<MessageView>)
    ensures
        after_messages(s, messages).recorder_state == last_order(
            s.recorder_state,
            effects_of(s, messages),
        ),
        after_messages(s, messages).file_state == last_notice(
            s.file_state,
            effects_of(s, messages),
        ),
    decreases messages.len(),
{
    if messages.len() > 0 {
        let before = messages.drop_last();
        let now = after_messages(s, before);
        threads_keep_up(s, before);
        threads_hear_what_is_decided(now, messages.last());
        last_of_both(
            s.recorder_state,
            s.file_state,
            effects_of(s, before),
            now.on_message(messages.last()).effects,
        );
    }
}

/// What was last told after one list of effects and then another.
proof fn last_of_both(
    order: RecorderState,
    notice: AppState,
    a: Seq<EffectView>,
    b: Seq<EffectView>,
)
    ensures
        last_order(order, a + b) == last_order(last_order(order, a), b),
        last_notice(notice, a + b) == last_notice(last_notice(notice, a), b),
    decreases b.len(),
{
    if b.len() == 0 {
        assert(a + b =~= a);
    } else {
        last_of_both(order, notice, a, b.drop_last());
        assert((a + b).drop_last() =~= a + b.drop_last());
        assert((a + b).last() == b.last());
    }
}

/// A message says what its view says.
pub proof fn message_view_is_whole(message: Message)
    ensures
        message is FileChangeDetect <==> message@ is FileChangeDetect,
        message is SDInserted <==> message@ is SDInserted,
        message is SDRemoved <==> message@ is SDRemoved,
        message is RecorderStarted <==> message@ is RecorderStarted,
        message is RecorderStopped <==> message@ is RecorderStopped,
        forall|total: u64, avail: u64|
            message == Message::StorageChangeDetect(total, avail) <==> message@
                == MessageView::StorageChangeDetect(total, avail),
        message matches Message::SDFormatChecked(fs_type) ==> message@
            == MessageView::SDFormatChecked(fs_type@),
        message@ is SDFormatChecked ==> message is SDFormatChecked,
{
}

/// An effect says what its view says, and a list of them has their views at their positions.
pub proof fn effect_views_are_whole(effects: Seq<Effect>, i: int)
    requires
        0 <= i < effects.len(),
    ensures
        effect_views(effects).len() == effects.len(),
        match effects[i] {
            Effect::SetRecorder(state) => effect_views(effects)[i] == EffectView::SetRecorder(state),
            Effect::SetNotifier(state) => effect_views(effects)[i] == EffectView::SetNotifier(state),
            Effect::MountSdCard(fs_type) => effect_views(effects)[i] == EffectView::MountSdCard(
                fs_type@,
            ),
            Effect::CreateFolder(path) => effect_views(effects)[i] == EffectView::CreateFolder(
                path@,
            ),
        },
{
}

/// The view of the recorder says all that the recorder does.
pub proof fn recorder_view_is_whole(recorder: BlackBox)
    ensures
        recorder@.storage == recorder.storage@,
        recorder@.state == recorder.state,
        recorder@.state_message == recorder.state_message@,
        recorder@.file_state == recorder.file_state,
        recorder@.is_recording == recorder.is_recording,
        recorder@.is_wating_to_record == recorder.is_wating_to_record,
        recorder@.recorder_state == recorder.recorder_state,
{
}

/// What is shown is what its view says.
pub proof fn screen_view_is_whole(screen: Screen)
    ensures
        match screen {
            Screen::Loading { heading, message } => screen@ == (ScreenView::Loading {
                heading: heading@,
                message: message@,
            }),
            Screen::ResetSD { message } => screen@ == (ScreenView::ResetSD { message: message@ }),
            Screen::InUse { device, caption, gauge, room, message } => screen@
                == (ScreenView::InUse {
                device,
                caption: caption@,
                gauge,
                room: room@,
                message: message@,
            }),
        },
{
}

/// Whatever the recorder does when a card comes in, recording is stopped first. Then the card is
/// looked at, and until its file system is known the storage and the account of the recording
/// stay.
pub proof fn insertion_stops_recording(s: BlackBoxView)
    ensures
        ({
            let outcome = s.on_message(MessageView::SDInserted);
            let next = outcome.next;
            &&& next.recorder_state == RecorderState::Stop
            &&& outcome.effects.contains(EffectView::SetRecorder(RecorderState::Stop))
            &&& outcome.effects.len() == 2
            &&& outcome.effects[0] == EffectView::SetRecorder(RecorderState::Stop)
            &&& outcome.effects[1] == EffectView::SetNotifier(AppState::Loading)
            &&& outcome.command == Command::CheckSdFormat
            &&& next.state == AppState::Loading && next.file_state == AppState::Loading
            &&& next.state_message == "SD Card Insertion Detected!"@
            &&& next.storage == s.storage
            &&& next.is_recording == s.is_recording
            &&& next.is_wating_to_record == s.is_wating_to_record
        }),
{
    let effects = s.on_message(MessageView::SDInserted).effects;
    assert(effects[0] == EffectView::SetRecorder(RecorderState::Stop));
}

/// A card with ext4, exfat or vfat on it is mounted, becomes the storage, and is recorded to: at
/// once, or after the recording that is under way.
pub proof fn supported_card_is_recorded_to(s: BlackBoxView, fs_type: Seq<char>)
    requires
        fs_type == "ext4"@ || fs_type == "exfat"@ || fs_type == "vfat"@,
    ensures
        ({
            let outcome = s.on_message(MessageView::SDFormatChecked(fs_type));
            let next = outcome.next;
            &&& outcome.effects[0] == EffectView::MountSdCard(fs_type)
            &&& outcome.effects[1] == EffectView::SetNotifier(AppState::UsingSD)
            &&& outcome.command == Command::CheckTargetSpace(Device::SD)
            &&& next.state == AppState::UsingSD && next.file_state == AppState::UsingSD
            &&& next.storage.target == Device::SD
            &&& next.storage.format == fs_type
            &&& next.storage.folder == "/media/sdcard"@
            &&& next.storage.total_space == 0 && next.storage.avail_space == 0
            &&& next.state_message == s.state_message
            &&& next.is_recording == s.is_recording
            &&& s.is_recording ==> {
                &&& outcome.effects.len() == 2
                &&& next.is_wating_to_record
                &&& next.recorder_state == s.recorder_state
            }
            &&& !s.is_recording ==> {
                &&& outcome.effects.len() == 3
                &&& outcome.effects[2] == EffectView::SetRecorder(
                    RecorderState::Record(Device::SD),
                )
                &&& next.is_wating_to_record == s.is_wating_to_record
                &&& next.recorder_state == RecorderState::Record(Device::SD)
            }
        }),
{
}

/// A card with any other file system has to be formatted first: it is told so, and nothing of the
/// storage or the recording changes.
pub proof fn other_card_has_to_be_formatted(s: BlackBoxView, fs_type: Seq<char>)
    requires
        fs_type != "ext4"@,
        fs_type != "exfat"@,
        fs_type != "vfat"@,
    ensures
        ({
            let outcome = s.on_message(MessageView::SDFormatChecked(fs_type));
            let next = outcome.next;
            &&& next.state == AppState::ResetSD && next.file_state == AppState::ResetSD
            &&& next.state_message
                == "Unsupported SD Format Found!\nOnly exfat, ext4 format usb allowed\nFormat the usb, and retry"@
            &&& next.storage == s.storage
            &&& next.is_recording == s.is_recording
            &&& next.is_wating_to_record == s.is_wating_to_record
            &&& next.recorder_state == s.recorder_state
            &&& outcome.effects.len() == 1
            &&& outcome.effects[0] == EffectView::SetNotifier(AppState::ResetSD)
            &&& outcome.command == Command::Nothing
        }),
{
}

/// When the card goes out, recording stops first. Then the local disk becomes the storage, its
/// directory is made, and it is recorded to: at once, or after the recording that is under way.
pub proof fn removal_turns_to_the_local_disk(s: BlackBoxView)
    ensures
        ({
            let outcome = s.on_message(MessageView::SDRemoved);
            let next = outcome.next;
            &&& outcome.effects[0] == EffectView::SetRecorder(RecorderState::Stop)
            &&& outcome.effects[1] == EffectView::CreateFolder("/home/team3/blackbox"@)
            &&& outcome.effects[2] == EffectView::SetNotifier(AppState::UsingLocal)
            &&& outcome.command == Command::CheckTargetSpace(Device::Local)
            &&& next.state == AppState::UsingLocal && next.file_state == AppState::UsingLocal
            &&& next.state_message == "SD Card is removed!"@
            &&& next.storage.target == Device::Local
            &&& next.storage.format.len() == 0
            &&& next.storage.folder == "/home/team3/blackbox"@
            &&& next.storage.total_space == 0 && next.storage.avail_space == 0
            &&& next.is_recording == s.is_recording
            &&& s.is_recording ==> {
                &&& outcome.effects.len() == 3
                &&& next.is_wating_to_record
                &&& next.recorder_state == RecorderState::Stop
            }
            &&& !s.is_recording ==> {
                &&& outcome.effects.len() == 4
                &&& outcome.effects[3] == EffectView::SetRecorder(
                    RecorderState::Record(Device::Local),
                )
                &&& next.is_wating_to_record == s.is_wating_to_record
                &&& next.recorder_state == RecorderState::Record(Device::Local)
            }
        }),
{
}

/// A changed file has the room on the storage measured, and changes nothing else.
pub proof fn changed_file_has_room_measured(s: BlackBoxView)
    ensures
        s.on_message(MessageView::FileChangeDetect).next == s,
        s.on_message(MessageView::FileChangeDetect).effects.len() == 0,
        s.on_message(MessageView::FileChangeDetect).command == Command::CheckTargetSpace(
            s.storage.target,
        ),
{
}

/// What was measured is what the storage has. With 209715200 bytes left or fewer recording is
/// stopped, and with more nothing is done.
pub proof fn measured_room_decides(s: BlackBoxView, total_space: u64, avail_space: u64)
    ensures
        ({
            let outcome = s.on_message(MessageView::StorageChangeDetect(total_space, avail_space));
            let next = outcome.next;
            &&& next.storage.total_space == total_space
            &&& next.storage.avail_space == avail_space
            &&& next.storage.target == s.storage.target
            &&& next.storage.format == s.storage.format
            &&& next.storage.folder == s.storage.folder
            &&& next.state == s.state && next.file_state == s.file_state
            &&& next.state_message == s.state_message
            &&& next.is_recording == s.is_recording
            &&& next.is_wating_to_record == s.is_wating_to_record
            &&& outcome.command == Command::Nothing
            &&& avail_space <= 209715200 ==> {
                &&& next.recorder_state == RecorderState::Stop
                &&& outcome.effects.len() == 1
                &&& outcome.effects[0] == EffectView::SetRecorder(RecorderState::Stop)
            }
            &&& avail_space > 209715200 ==> {
                &&& next.recorder_state == s.recorder_state
                &&& outcome.effects.len() == 0
            }
        }),
{
}

/// That the recorder runs is taken note of and shown, and nothing else changes.
pub proof fn start_of_recording_is_noted(s: BlackBoxView)
    ensures
        ({
            let outcome = s.on_message(MessageView::RecorderStarted);
            let next = outcome.next;
            &&& next.is_recording
            &&& next.state_message == "▶️    Recording!"@
            &&& next.storage == s.storage
            &&& next.state == s.state && next.file_state == s.file_state
            &&& next.is_wating_to_record == s.is_wating_to_record
            &&& next.recorder_state == s.recorder_state
            &&& outcome.effects.len() == 0
            &&& outcome.command == Command::Nothing
        }),
{
}

/// That the recorder has stopped is taken note of and shown. A recording that was waited for
/// starts on the storage there is, and without one nothing is ordered.
pub proof fn end_of_recording_is_noted(s: BlackBoxView)
    ensures
        ({
            let outcome = s.on_message(MessageView::RecorderStopped);
            let next = outcome.next;
            &&& !next.is_recording
            &&& !next.is_wating_to_record
            &&& next.state_message == "🛑    Recording Stopped!"@
            &&& next.storage == s.storage
            &&& next.state == s.state && next.file_state == s.file_state
            &&& outcome.command == Command::Nothing
            &&& s.is_wating_to_record ==> {
                &&& next.recorder_state == RecorderState::Record(s.storage.target)
                &&& outcome.effects.len() == 1
                &&& outcome.effects[0] == EffectView::SetRecorder(
                    RecorderState::Record(s.storage.target),
                )
            }
            &&& !s.is_wating_to_record ==> {
                &&& next.recorder_state == s.recorder_state
                &&& outcome.effects.len() == 0
            }
        }),
{
}

/// A supported card that comes in is recorded to in the end, whatever was done before: once its
/// file system is known, or once the recording that was under way has stopped. The recording
/// thread was told to stop before that, so the order is a turn to it.
pub proof fn card_that_comes_in_is_recorded_to(s: BlackBoxView, fs_type: Seq<char>)
    requires
        fs_type == "ext4"@ || fs_type == "exfat"@ || fs_type == "vfat"@,
    ensures
        ({
            let looked_at = s.on_message(MessageView::SDInserted).next;
            let known = looked_at.on_message(MessageView::SDFormatChecked(fs_type)).next;
            let stopped = known.on_message(MessageView::RecorderStopped).next;
            let order = RecorderState::Record(Device::SD);
            &&& !s.is_recording ==> known.recorder_state == order
            &&& s.is_recording ==> known.recorder_state == RecorderState::Stop
                && stopped.recorder_state == order
            &&& recorder::encoder_turn(looked_at.recorder_state, order) is Some
            &&& recorder::encoder_turn(looked_at.recorder_state, order)->0.encode == Some(
                Device::SD,
            )
        }),
{
}

/// When the card goes out the local disk is recorded to in the end, whatever was done before: at
/// once, or once the recording that was under way has stopped.
pub proof fn local_disk_is_recorded_to_without_a_card(s: BlackBoxView)
    ensures
        ({
            let out = s.on_message(MessageView::SDRemoved).next;
            let stopped = out.on_message(MessageView::RecorderStopped).next;
            let order = RecorderState::Record(Device::Local);
            &&& !s.is_recording ==> out.recorder_state == order
            &&& s.is_recording ==> out.recorder_state == RecorderState::Stop
                && stopped.recorder_state == order
            &&& recorder::encoder_turn(RecorderState::Stop, order) is Some
            &&& recorder::encoder_turn(RecorderState::Stop, order)->0.encode == Some(Device::Local)
        }),
{
}

/// Nothing but a supported card, the removal of the card, and the end of a recording while another
/// is waited for has a recorder that stopped record again.
pub proof fn recording_starts_for_a_reason(s: BlackBoxView, message: MessageView)
    requires
        s.recorder_state == RecorderState::Stop,
        s.on_message(message).next.recorder_state != RecorderState::Stop,
    ensures
        message is SDRemoved || message is RecorderStopped && s.is_wating_to_record || (message
            matches MessageView::SDFormatChecked(fs_type) && (fs_type == "ext4"@ || fs_type
            == "exfat"@ || fs_type == "vfat"@)),
{
}

/// The recorder is told of what the threads tell, each event by its own message.
pub proof fn events_are_told_as_they_are(event: SubEvent)
    ensures
        message_of(event) is FileChangeDetect <==> event is FileChangeDetect,
        message_of(event) is SDInserted <==> event is SDInserted,
        message_of(event) is SDRemoved <==> event is SDRemoved,
        message_of(event) is RecorderStarted <==> event is PipeRunning,
        message_of(event) is RecorderStopped <==> event is PipeStopped,
{
}

/// The device in use is shown with its name, and what is in use and what is left of its room make
/// up all of it. Where the room is not known a card is shown as full and a local disk as empty.
pub proof fn screen_shows_the_device_in_use(s: BlackBoxView)
    requires
        s.state == AppState::UsingSD || s.state == AppState::UsingLocal,
        s.room_is_known_well(),
    ensures
        s.screen() matches ScreenView::InUse { device, caption, gauge, room, message } && {
            &&& device == (if s.state == AppState::UsingSD {
                Device::SD
            } else {
                Device::Local
            })
            &&& s.state == AppState::UsingSD ==> caption == "SD Card ("@ + s.storage.format + ")"@
            &&& s.state == AppState::UsingLocal ==> caption == "Local Storage"@
            &&& s.storage.total_space == 0 ==> gauge == Gauge::Percent(
                if s.state == AppState::UsingSD {
                    100
                } else {
                    0
                },
            )
            &&& s.storage.total_space != 0 ==> {
                &&& gauge matches Gauge::Used { used, total } && total == s.storage.total_space
                    && used + s.storage.avail_space == s.storage.total_space
            }
            &&& room == utils::pretty(s.storage.avail_space as nat) + " free of "@ + utils::pretty(
                s.storage.total_space as nat,
            )
            &&& message == s.state_message
        },
{
}

/// While no device is in use the message is shown, and while the recorder loads a heading as well.
pub proof fn screen_shows_the_message(s: BlackBoxView)
    ensures
        s.state == AppState::Loading ==> s.screen() == (ScreenView::Loading {
            heading: "AppState: Loading"@,
            message: s.state_message,
        }),
        s.state == AppState::ResetSD ==> s.screen() == (ScreenView::ResetSD {
            message: s.state_message,
        }),
{
}

/// A screen can be shown unless a device in use is said to have more room left than it has.
pub proof fn screen_can_be_shown(s: BlackBoxView)
    ensures
        s.room_is_known_well() <==> !(s.storage.avail_space > s.storage.total_space
            && s.storage.total_space > 0 && (s.state == AppState::UsingSD || s.state
            == AppState::UsingLocal)),
{
}

/// What holds of the recorder after any run: the watching thread knows the state, none but a
/// running recording is waited for, and the device shown as in use is the storage.
pub proof fn runs_keep_the_account_straight(s: BlackBoxView, messages: Seq<MessageView>)
    requires
        s.wf(),
    ensures
        ({
            let now = after_messages(s, messages);
            &&& now.file_state == now.state
            &&& now.is_wating_to_record ==> now.is_recording
            &&& now.state == AppState::UsingSD ==> now.storage.target == Device::SD
                && now.storage.folder == "/media/sdcard"@
            &&& now.state == AppState::UsingLocal ==> now.storage.target == Device::Local
                && now.storage.folder == "/home/team3/blackbox"@
            &&& now.storage.folder.len() > 0 ==> now.storage.folder == (match now.storage.target {
                Device::SD => "/media/sdcard"@,
                Device::Local => "/home/team3/blackbox"@,
            })
        }),
{
    runs_keep_well_formed(s, messages);
}

/// At the start nothing is recorded nor known of the storage, and the threads have not been told
/// anything else.
pub proof fn start_is_idle()
    ensures
        at_start().wf(),
        at_start().state == AppState::Loading,
        at_start().recorder_state == RecorderState::Stop,
        !at_start().is_recording,
        !at_start().is_wating_to_record,
        at_start().storage.target == Device::Local,
        at_start().storage.format.len() == 0,
        at_start().storage.folder.len() == 0,
        at_start().storage.total_space == 0,
        at_start().storage.avail_space == 0,
        at_start().state_message == "Initializing..."@,
{
}

} // verus!
