//! Recording: what the recording threads do when they are told, and the pipelines that they
//! build.

use std::collections::VecDeque;
use vstd::prelude::*;

use crate::clock;
use crate::clock::Timestamp;
use crate::controller::SubEvent;
use crate::fakesink_handler::RECORDING_FRAMES;
use crate::text;
use crate::utils;
use crate::utils::Device;

verus! {

/// The pipeline that encodes a recording, but for the file that it writes.
pub const ENCODER: &'static str = "appsrc name=appsrc ! video/x-raw, format=I420, width=1280, height=720, framerate=30/1 ! nvvideoconvert name=convert ! video/x-raw(memory:NVMM), format=I420, width=1280, height=720 ! nvv4l2h264enc name=enc ! h264parse name=parse ! mp4mux name=mux trak-timescale=10 ! filesink name=filesink location=";

/// How many seconds a recording spans.
pub const RECORDING_SECONDS: i64 = 90;

/// What a recording thread is told to do.
#[derive(Debug, Copy, Clone, PartialEq, Eq, Structural)]
pub enum RecorderState {
    Record(Device),
    Stop,
}

/// Two states are the same to a recording thread: both stop, or both record, whatever the device.
pub open spec fn same_to_thread(a: RecorderState, b: RecorderState) -> bool {
    a is Stop <==> b is Stop
}

/// Whether two states are the same to a recording thread: both stop, or both record, whatever
/// the device.
pub fn is_state_same(last_state: &RecorderState, current_state: &RecorderState) -> (same: bool)
    ensures
        same == (*last_state is Stop <==> *current_state is Stop),
        same == same_to_thread(*last_state, *current_state),
{
    if *last_state == RecorderState::Stop {
        *current_state == RecorderState::Stop
    } else {
        *current_state != RecorderState::Stop
    }
}

// ---------------------------------------------------------------------------
// The encoding thread
// ---------------------------------------------------------------------------

/// One turn of the encoding thread: the device to put a recording on, if any, and what to tell
/// once that is done.
#[derive(Debug, Copy, Clone, PartialEq, Eq, Structural)]
pub struct EncoderTurn {
    pub encode: Option<Device>,
    pub event: SubEvent,
}

/// The turn that the encoding thread takes when it was last told `last` and is now told
/// `requested`: none, while the two are the same to it.
pub open spec fn encoder_turn(last: RecorderState, requested: RecorderState) -> Option<
    EncoderTurn,
> {
    if last is Stop <==> requested is Stop {
        None
    } else {
        Some(
            EncoderTurn {
                encode: match requested {
                    RecorderState::Record(device) => Some(device),
                    RecorderState::Stop => None,
                },
                event: SubEvent::PipeStopped,
            },
        )
    }
}

/// What a thread goes by once it has looked at what it is told.
pub open spec fn state_after_look(last: RecorderState, requested: RecorderState) -> RecorderState {
    if same_to_thread(last, requested) {
        last
    } else {
        requested
    }
}

/// The device that an order names, where it is one to record.
pub open spec fn device_ordered(order: RecorderState) -> Option<Device> {
    match order {
        RecorderState::Record(device) => Some(device),
        RecorderState::Stop => None,
    }
}

/// Looks at what the encoding thread is told. Without a turn it goes on waiting.
pub fn encoder_thread(
    my_last_state: &mut RecorderState,
    requested: RecorderState,
) -> (turn: Option<EncoderTurn>)
    ensures
        turn == encoder_turn(*old(my_last_state), requested),
        turn is Some ==> turn->0.encode == device_ordered(requested),
        *final(my_last_state) == state_after_look(*old(my_last_state), requested),
        *final(my_last_state) == (if turn is Some {
            requested
        } else {
            *old(my_last_state)
        }),
{
    if is_state_same(my_last_state, &requested) {
        return None;
    }
    *my_last_state = requested;
    let encode: Option<Device> = match requested {
        RecorderState::Record(device) => Some(device),
        RecorderState::Stop => None,
    };
    Some(EncoderTurn { encode, event: SubEvent::PipeStopped })
}

/// Turns that encode and turns that do not take place in alternation: one order to record makes
/// one recording.
pub proof fn encoder_turns_alternate(last: RecorderState, a: RecorderState, b: RecorderState)
    requires
        encoder_turn(last, a) is Some,
        encoder_turn(a, b) is Some,
    ensures
        encoder_turn(last, a)->0.encode is Some <==> encoder_turn(a, b)->0.encode is None,
{
}

/// The recording that is taken out of a buffer, if any, and what stays in it.
pub open spec fn recording_taken<T>(buffer: Seq<T>) -> (Option<Seq<T>>, Seq<T>) {
    if buffer.len() >= RECORDING_FRAMES {
        (Some(buffer), Seq::empty())
    } else {
        (None, buffer)
    }
}

/// Takes a whole recording out of the buffer, or leaves it alone while it holds less.
pub fn take_recording<T>(frame_buffer: &mut VecDeque<T>) -> (recording: Option<VecDeque<T>>)
    ensures
        recording is Some <==> old(frame_buffer)@.len() >= RECORDING_FRAMES,
        recording matches Some(frames) ==> frames@ == old(frame_buffer)@,
        recording is Some <==> recording_taken(old(frame_buffer)@).0 is Some,
        recording matches Some(frames) ==> recording_taken(old(frame_buffer)@).0 == Some(frames@),
        final(frame_buffer)@ == recording_taken(old(frame_buffer)@).1,
        final(frame_buffer)@ == (if recording is Some {
            Seq::empty()
        } else {
            old(frame_buffer)@
        }),
{
    if frame_buffer.len() < RECORDING_FRAMES {
        return None;
    }
    let mut frames: VecDeque<T> = VecDeque::new();
    frames.append(frame_buffer);
    assert(frames@ =~= old(frame_buffer)@);
    Some(frames)
}

/// When a recording that ends at `end` starts, in milliseconds since the epoch.
pub open spec fn start_millis(end: Timestamp) -> int {
    (end.secs - RECORDING_SECONDS) * 1000 + end.nanos / 1000000
}

/// The directory that a recording which ends at `end` goes to.
pub open spec fn recording_folder_of(device: Device, end: Timestamp) -> Seq<char> {
    utils::workdir_of(device) + "/"@ + text::signed_decimal(start_millis(end))
}

/// The directory that a recording which ends at `end` goes to.
pub fn recording_folder(device: Device, end: Timestamp) -> (folder: String)
    requires
        end.wf(),
        clock::FIRST_SECOND <= end.secs - RECORDING_SECONDS,
    ensures
        folder@ == recording_folder_of(device, end),
{
    let start: Timestamp = clock::seconds_before(end, RECORDING_SECONDS);
    let mut folder: String = utils::workdir(device).to_owned();
    folder.append("/");
    text::push_signed_decimal(&mut folder, clock::epoch_millis(start));
    folder
}

/// Two recordings share a directory only if they are on one device and end in the same
/// millisecond.
pub proof fn recording_folders_are_distinct(a: Device, s: Timestamp, b: Device, t: Timestamp)
    requires
        recording_folder_of(a, s) == recording_folder_of(b, t),
    ensures
        a == b,
        start_millis(s) == start_millis(t),
{
    let (f, g) = (recording_folder_of(a, s), recording_folder_of(b, t));
    reveal_strlit("/media/sdcard");
    reveal_strlit("/home/team3/blackbox");
    assert(f[1] == utils::workdir_of(a)[1]);
    assert(g[1] == utils::workdir_of(b)[1]);
    let head = utils::workdir_of(a) + "/"@;
    assert(f.skip(head.len() as int) =~= text::signed_decimal(start_millis(s)));
    assert(g.skip(head.len() as int) =~= text::signed_decimal(start_millis(t)));
    text::signed_decimal_is_injective(start_millis(s), start_millis(t));
}

// ---------------------------------------------------------------------------
// Writing a recording
// ---------------------------------------------------------------------------

/// The pipeline that encodes a recording into a directory.
pub open spec fn encoder_pipeline_of(target_folder: Seq<char>) -> Seq<char> {
    ENCODER@ + target_folder + "/temp.mp4"@
}

/// The pipeline that encodes a recording into a directory.
pub fn build_encoder_pipeline(target_folder: &str) -> (description: String)
    ensures
        description@ == ENCODER@ + target_folder@ + "/temp.mp4"@,
        description@ == encoder_pipeline_of(target_folder@),
{
    let mut description: String = ENCODER.to_owned();
    description.append(target_folder);
    description.append("/temp.mp4");
    description
}

/// The files of a recording, and the arguments with which `ffmpeg` makes the video.
pub struct Mp4Files {
    pub temp_path: String,
    pub video_path: String,
    pub done_path: String,
    pub ffmpeg_arguments: Vec<String>,
}

/// The arguments with which `ffmpeg` turns one file into the other, as text.
pub open spec fn ffmpeg_arguments_of(temp: Seq<char>, video: Seq<char>) -> Seq<Seq<char>> {
    seq![
        "-i"@,
        temp,
        "-c:v"@,
        "h264_nvmpi"@,
        "-pix_fmt"@,
        "yuv420p"@,
        "-preset"@,
        "fast"@,
        video,
    ]
}

/// What the encoding pipeline writes, what `ffmpeg` makes of that, and what tells that a recording
/// is done.
pub open spec fn files_of(target_folder: Seq<char>) -> (Seq<char>, Seq<char>, Seq<char>) {
    (
        target_folder + "/temp.mp4"@,
        target_folder + "/video.mp4"@,
        target_folder + "/.DONE"@,
    )
}

/// The files that a recording in a directory is made of.
pub fn buffer_to_mp4(target_folder: &str) -> (files: Mp4Files)
    ensures
        files.temp_path@ == target_folder@ + "/temp.mp4"@,
        files.video_path@ == target_folder@ + "/video.mp4"@,
        files.done_path@ == target_folder@ + "/.DONE"@,
        (files.temp_path@, files.video_path@, files.done_path@) == files_of(target_folder@),
        text::texts(files.ffmpeg_arguments@) == ffmpeg_arguments_of(
            files.temp_path@,
            files.video_path@,
        ),
{
    let temp_path: String = target_folder.to_owned().concat("/temp.mp4");
    let video_path: String = target_folder.to_owned().concat("/video.mp4");
    let done_path: String = target_folder.to_owned().concat("/.DONE");
    let mut ffmpeg_arguments: Vec<String> = Vec::new();
    ffmpeg_arguments.push("-i".to_owned());
    ffmpeg_arguments.push(temp_path.clone());
    ffmpeg_arguments.push("-c:v".to_owned());
    ffmpeg_arguments.push("h264_nvmpi".to_owned());
    ffmpeg_arguments.push("-pix_fmt".to_owned());
    ffmpeg_arguments.push("yuv420p".to_owned());
    ffmpeg_arguments.push("-preset".to_owned());
    ffmpeg_arguments.push("fast".to_owned());
    ffmpeg_arguments.push(video_path.clone());
    assert(text::texts(ffmpeg_arguments@) =~= ffmpeg_arguments_of(temp_path@, video_path@));
    Mp4Files { temp_path, video_path, done_path, ffmpeg_arguments }
}

/// What the encoding pipeline says on its bus.
#[derive(Debug, Copy, Clone, PartialEq, Eq, Structural)]
pub enum BusMessage {
    Error,
    Eos,
    Other,
}

/// What that means for the recording: it goes on, is complete, or has failed.
#[derive(Debug, Copy, Clone, PartialEq, Eq, Structural)]
pub enum BusStep {
    Continue,
    Complete,
    Failed,
}

/// What a message on the bus means for the recording.
pub open spec fn bus_step_of(message: BusMessage) -> BusStep {
    match message {
        BusMessage::Error => BusStep::Failed,
        BusMessage::Eos => BusStep::Complete,
        BusMessage::Other => BusStep::Continue,
    }
}

/// What a message on the bus means for the recording.
pub fn bus_step(message: BusMessage) -> (step: BusStep)
    ensures
        step == bus_step_of(message),
{
    match message {
        BusMessage::Error => BusStep::Failed,
        BusMessage::Eos => BusStep::Complete,
        BusMessage::Other => BusStep::Continue,
    }
}

/// How a recording ends that hears these messages on the bus: the first that is an error or the
/// end of the stream decides.
pub open spec fn bus_outcome(messages: Seq<BusMessage>) -> BusStep
    decreases messages.len(),
{
    if messages.len() == 0 {
        BusStep::Continue
    } else if bus_step_of(messages[0]) is Continue {
        bus_outcome(messages.drop_first())
    } else {
        bus_step_of(messages[0])
    }
}

/// The stream ends at message `n`, with no error before it.
pub open spec fn ends_well_at(messages: Seq<BusMessage>, n: int) -> bool {
    &&& 0 <= n < messages.len()
    &&& messages[n] is Eos
    &&& forall|i: int| 0 <= i < n ==> messages[i] !is Error
}

/// A recording is complete exactly when the end of the stream comes before any error.
pub proof fn complete_means_no_error_before_the_end(messages: Seq<BusMessage>)
    ensures
        bus_outcome(messages) is Complete <==> exists|n: int| ends_well_at(messages, n),
    decreases messages.len(),
{
    if messages.len() > 0 {
        let rest = messages.drop_first();
        complete_means_no_error_before_the_end(rest);
        match messages[0] {
            BusMessage::Eos => {
                assert(ends_well_at(messages, 0));
            },
            BusMessage::Error => {},
            BusMessage::Other => {
                assert forall|n: int| ends_well_at(rest, n) implies ends_well_at(
                    messages,
                    n + 1,
                ) by {
                    assert forall|i: int| 0 <= i < n + 1 implies messages[i] !is Error by {
                        if i > 0 {
                            assert(rest[i - 1] !is Error);
                        }
                    }
                }
                assert forall|n: int| ends_well_at(messages, n) implies ends_well_at(
                    rest,
                    n - 1,
                ) by {
                    assert forall|i: int| 0 <= i < n - 1 implies rest[i] !is Error by {
                        assert(messages[i + 1] !is Error);
                    }
                }
                if exists|n: int| ends_well_at(rest, n) {
                    let n = choose|n: int| ends_well_at(rest, n);
                    assert(ends_well_at(messages, n + 1));
                }
                if exists|n: int| ends_well_at(messages, n) {
                    let n = choose|n: int| ends_well_at(messages, n);
                    assert(ends_well_at(rest, n - 1));
                }
            },
        }
    }
}

// ---------------------------------------------------------------------------
// Pipelines from a description
// ---------------------------------------------------------------------------

/// The characters that are dropped from the description of a pipeline: those that a shell
/// command line needs and a pipeline does not.
pub open spec fn is_shell_only(c: char) -> bool {
    c == '\\' || c == '\n' || c == '"'
}

/// The description of the camera pipeline, from the text that it is set in.
pub open spec fn description_of(setting: Seq<char>) -> Seq<char> {
    setting.filter(|c: char| !is_shell_only(c))
}

/// The description of the camera pipeline, from the text that it is set in.
pub fn pipe_builder(setting: &str) -> (description: String)
    ensures
        description@ == setting@.filter(|c: char| !is_shell_only(c)),
        description@ == setting@.filter(|c: char| c != '\\' && c != '\n' && c != '"'),
        description@ == description_of(setting@),
{
    let ghost wanted = |c: char| !is_shell_only(c);
    let chars: Vec<char> = text::chars_of(setting);
    let mut description = String::new();
    proof {
        reveal(Seq::filter);
    }
    for i in 0..chars.len()
        invariant
            wanted == (|c: char| !is_shell_only(c)),
            description@ == chars@.take(i as int).filter(wanted),
    {
        proof {
            reveal(Seq::filter);
            assert(chars@.take(i + 1).drop_last() =~= chars@.take(i as int));
        }
        let c: char = chars[i];
        if !(c == '\\' || c == '\n' || c == '"') {
            description.push(c);
        }
    }
    assert(chars@.take(chars@.len() as int) =~= setting@);
    assert(wanted =~= (|c: char| c != '\\' && c != '\n' && c != '"'));
    description
}

/// The name of the sink that a camera's frames come out of.
pub open spec fn fakesink_name_of(camera_id: int) -> Seq<char> {
    "fakesink_"@ + text::signed_decimal(camera_id)
}

/// The name of the sink that a camera's frames come out of.
pub fn fakesink_name(camera_id: i32) -> (name: String)
    ensures
        name@ == "fakesink_"@ + text::signed_decimal(camera_id as int),
        name@ == fakesink_name_of(camera_id as int),
{
    let mut name: String = "fakesink_".to_owned();
    text::push_signed_decimal(&mut name, camera_id as i64);
    name
}

/// The device file of a camera.
pub open spec fn camera_device_of(camera_id: int) -> Seq<char> {
    "/dev/video"@ + text::signed_decimal(camera_id)
}

/// The device file of a camera.
pub fn camera_device(camera_id: i32) -> (path: String)
    ensures
        path@ == camera_device_of(camera_id as int),
{
    let mut path: String = "/dev/video".to_owned();
    text::push_signed_decimal(&mut path, camera_id as i64);
    path
}

/// The pipeline that records a camera into its directory, in files named for a time stamp.
pub open spec fn camera_pipeline_of(
    camera_id: int,
    target_path: Seq<char>,
    stamp: Seq<char>,
) -> Seq<char> {
    "v4l2src device="@ + camera_device_of(camera_id)
        + " num-buffers=2000 ! videoconvert ! video/x-raw, format=NV12, width=1280, height=720, framerate=30/1 ! x264enc ! mp4mux ! multifilesink location="@
        + utils::camera_folder_of(target_path, camera_id) + "/"@ + stamp + "_%lu.mp4 -e"@
}

/// The pipeline that records a camera into its directory, in files named for a time stamp.
pub fn camera_pipeline(camera_id: i32, target_path: &str, stamp: &str) -> (description: String)
    ensures
        description@ == camera_pipeline_of(camera_id as int, target_path@, stamp@),
{
    let mut description: String = "v4l2src device=".to_owned();
    description.append(camera_device(camera_id).as_str());
    description.append(
        " num-buffers=2000 ! videoconvert ! video/x-raw, format=NV12, width=1280, height=720, framerate=30/1 ! x264enc ! mp4mux ! multifilesink location=",
    );
    description.append(utils::camera_folder(target_path, camera_id).as_str());
    description.append("/");
    description.append(stamp);
    description.append("_%lu.mp4 -e");
    description
}

/// The directory that a camera records into, and the pipeline that does it.
pub struct CameraPlan {
    pub folder: String,
    pub pipeline: String,
}

/// How a camera is recorded from `now` on: its directory and its pipeline.
pub open spec fn camera_plan_of(
    camera_id: int,
    is_present: bool,
    target_path: Seq<char>,
    now: Timestamp,
) -> Option<(Seq<char>, Seq<char>)> {
    if is_present {
        Some(
            (
                utils::camera_folder_of(target_path, camera_id),
                camera_pipeline_of(
                    camera_id,
                    target_path,
                    clock::formatted(now.secs, now.nanos, clock::STAMP_FORMAT@),
                ),
            ),
        )
    } else {
        None
    }
}

/// How a camera is recorded from `now` on: not at all where its device file is missing.
pub fn pipeline_builder(
    camera_id: i32,
    is_present: bool,
    target_path: &str,
    now: Timestamp,
) -> (plan: Option<CameraPlan>)
    requires
        now.wf(),
    ensures
        plan is Some <==> is_present,
        plan matches Some(p) ==> {
            &&& p.folder@ == utils::camera_folder_of(target_path@, camera_id as int)
            &&& p.pipeline@ == camera_pipeline_of(
                camera_id as int,
                target_path@,
                clock::formatted(now.secs, now.nanos, clock::STAMP_FORMAT@),
            )
        },
        (match plan {
            Some(p) => Some((p.folder@, p.pipeline@)),
            None => None,
        }) == camera_plan_of(camera_id as int, is_present, target_path@, now),
{
    if !is_present {
        return None;
    }
    let stamp: String = clock::format_utc(now, clock::STAMP_FORMAT);
    Some(
        CameraPlan {
            folder: utils::camera_folder(target_path, camera_id),
            pipeline: camera_pipeline(camera_id, target_path, stamp.as_str()),
        },
    )
}

// ---------------------------------------------------------------------------
// The thread that records each camera on its own
// ---------------------------------------------------------------------------

/// The recording thread: what it was last told, and the pipelines that run.
pub struct RecorderThread<P> {
    pub my_last_state: RecorderState,
    pub pipeline_list: Vec<P>,
}

/// What the recording thread does next: wait, try all cameras on a device, or stop these
/// pipelines in this order and then tell of it.
pub enum RecorderStep<P> {
    Wait,
    Start(Device),
    Stop { pipelines: Vec<P>, event: SubEvent },
}

/// A step of the recording thread, with the pipelines as a sequence.
pub enum StepView<P> {
    Wait,
    Start(Device),
    Stop(Seq<P>, SubEvent),
}

impl<P> View for RecorderStep<P> {
    type V = StepView<P>;

    open spec fn view(&self) -> StepView<P> {
        match *self {
            RecorderStep::Wait => StepView::Wait,
            RecorderStep::Start(device) => StepView::Start(device),
            RecorderStep::Stop { pipelines, event } => StepView::Stop(pipelines@, event),
        }
    }
}

/// What the recording thread does when it was last told `last`, runs these pipelines, and is now
/// told `requested`.
pub open spec fn recorder_step<P>(
    last: RecorderState,
    running: Seq<P>,
    requested: RecorderState,
) -> StepView<P> {
    if same_to_thread(last, requested) {
        StepView::Wait
    } else {
        match requested {
            RecorderState::Record(device) => StepView::Start(device),
            RecorderState::Stop => StepView::Stop(running.reverse(), SubEvent::PipeStopped),
        }
    }
}

/// What to tell with so many pipelines running.
pub open spec fn running_event(running: nat) -> SubEvent {
    if running == 0 {
        SubEvent::PipeStopped
    } else {
        SubEvent::PipeRunning
    }
}

/// The pipelines that could be started, in the order of the cameras.
pub open spec fn started_of<P>(tried: Seq<Option<P>>) -> Seq<P>
    decreases tried.len(),
{
    if tried.len() == 0 {
        Seq::empty()
    } else {
        match tried.last() {
            Some(pipeline) => started_of(tried.drop_last()).push(pipeline),
            None => started_of(tried.drop_last()),
        }
    }
}

impl<P> RecorderThread<P> {
    /// Nothing runs while the thread is told to stop.
    pub open spec fn wf(self) -> bool {
        self.my_last_state is Stop ==> self.pipeline_list@.len() == 0
    }

    /// The thread starts out stopped.
    pub fn new() -> (thread: Self)
        ensures
            thread.wf(),
            thread.my_last_state is Stop,
            thread.pipeline_list@ == Seq::<P>::empty(),
    {
        RecorderThread { my_last_state: RecorderState::Stop, pipeline_list: Vec::new() }
    }

    /// Looks at what the thread is told.
    pub fn recorder_thread(&mut self, requested: RecorderState) -> (step: RecorderStep<P>)
        requires
            old(self).wf(),
        ensures
            final(self).wf(),
            step is Wait <==> (old(self).my_last_state is Stop <==> requested is Stop),
            step is Wait ==> *final(self) == *old(self),
            step !is Wait ==> final(self).my_last_state == requested,
            step matches RecorderStep::Start(device) ==> requested == RecorderState::Record(
                device,
            ) && final(self).pipeline_list@ == old(self).pipeline_list@,
            step matches RecorderStep::Stop { pipelines, event } ==> requested is Stop
                && pipelines@ == old(self).pipeline_list@.reverse() && event
                == SubEvent::PipeStopped && final(self).pipeline_list@.len() == 0,
            final(self).my_last_state == state_after_look(old(self).my_last_state, requested),
            step@ == recorder_step(
                old(self).my_last_state,
                old(self).pipeline_list@,
                requested,
            ),
    {
        if is_state_same(&self.my_last_state, &requested) {
            return RecorderStep::Wait;
        }
        self.my_last_state = requested;
        match requested {
            RecorderState::Record(device) => RecorderStep::Start(device),
            RecorderState::Stop => {
                let mut pipelines: Vec<P> = Vec::new();
                let ghost all = self.pipeline_list@;
                loop
                    invariant
                        self.my_last_state == requested,
                        pipelines@.len() + self.pipeline_list@.len() == all.len(),
                        self.pipeline_list@ == all.take(self.pipeline_list@.len() as int),
                        pipelines@ == all.skip(self.pipeline_list@.len() as int).reverse(),
                    ensures
                        self.my_last_state == requested,
                        self.pipeline_list@.len() == 0,
                        pipelines@ == all.reverse(),
                    decreases self.pipeline_list@.len(),
                {
                    match self.pipeline_list.pop() {
                        Some(pipeline) => {
                            pipelines.push(pipeline);
                        },
                        None => {
                            assert(all.skip(0) =~= all);
                            break;
                        },
                    }
                }
                RecorderStep::Stop { pipelines, event: SubEvent::PipeStopped }
            },
        }
    }

    /// Takes in what came of trying all cameras: at each camera's number its pipeline, or nothing
    /// where that could not be started. Gives what to tell: that pipelines run, or that none does.
    pub fn cameras_tried(&mut self, tried: Vec<Option<P>>) -> (event: SubEvent)
        requires
            old(self).my_last_state is Record,
            tried@.len() == utils::CAMERAS,
        ensures
            final(self).wf(),
            final(self).my_last_state == old(self).my_last_state,
            final(self).pipeline_list@ == old(self).pipeline_list@ + started_of(tried@),
            event == (if final(self).pipeline_list@.len() == 0 {
                SubEvent::PipeStopped
            } else {
                SubEvent::PipeRunning
            }),
            event == running_event((old(self).pipeline_list@ + started_of(tried@)).len()),
    {
        let ghost all = tried@;
        let ghost before = self.pipeline_list@;
        assert(before + started_of(all.take(0)) =~= before);
        for pipeline in it: tried
            invariant
                it.seq() == all,
                self.my_last_state == old(self).my_last_state,
                self.pipeline_list@ == before + started_of(all.take(it.index() as int)),
        {
            assert(all.take(it.index() as int + 1).drop_last() =~= all.take(it.index() as int));
            if let Some(started) = pipeline {
                self.pipeline_list.push(started);
            }
        }
        assert(all.take(all.len() as int) =~= all);
        if self.pipeline_list.is_empty() {
            SubEvent::PipeStopped
        } else {
            SubEvent::PipeRunning
        }
    }
}

/// A pipeline that was started is among those that the next stop stops.
pub proof fn started_pipelines_are_stopped<P>(running: Seq<P>, tried: Seq<Option<P>>, i: int)
    requires
        0 <= i < tried.len(),
        tried[i] is Some,
    ensures
        (running + started_of(tried)).reverse().contains(tried[i]->0),
{
    let at = started_position(tried, i);
    let all = running + started_of(tried);
    assert(all.reverse()[all.len() - 1 - (running.len() + at)] == tried[i]->0);
}

/// Where a started pipeline stands among those that were started.
proof fn started_position<P>(tried: Seq<Option<P>>, i: int) -> (at: int)
    requires
        0 <= i < tried.len(),
        tried[i] is Some,
    ensures
        0 <= at < started_of(tried).len(),
        started_of(tried)[at] == tried[i]->0,
    decreases tried.len(),
{
    if i == tried.len() - 1 {
        started_of(tried).len() - 1
    } else {
        started_position(tried.drop_last(), i)
    }
}

// ---------------------------------------------------------------------------
// Laws
// ---------------------------------------------------------------------------

/// What is the same to a recording thread: to stop is one thing, and to record is another, on
/// whatever device.
pub proof fn threads_tell_recording_from_stopping(a: Device, b: Device)
    ensures
        same_to_thread(RecorderState::Stop, RecorderState::Stop),
        same_to_thread(RecorderState::Record(a), RecorderState::Record(b)),
        !same_to_thread(RecorderState::Stop, RecorderState::Record(a)),
        !same_to_thread(RecorderState::Record(a), RecorderState::Stop),
{
}

/// A recording goes to the device that was ordered: a thread that had stopped encodes for it, and
/// tells of it when that is done. While it records, no other order to record is a turn.
pub proof fn recording_goes_to_the_device_ordered(device: Device, other: Device)
    ensures
        encoder_turn(RecorderState::Stop, RecorderState::Record(device)) == Some(
            EncoderTurn { encode: Some(device), event: SubEvent::PipeStopped },
        ),
        encoder_turn(RecorderState::Record(other), RecorderState::Record(device)) is None,
        device_ordered(RecorderState::Record(device)) == Some(device),
{
}

/// A thread that is told to stop encodes nothing, and tells of it once.
pub proof fn stopping_encodes_nothing(device: Device)
    ensures
        encoder_turn(RecorderState::Record(device), RecorderState::Stop) == Some(
            EncoderTurn { encode: None, event: SubEvent::PipeStopped },
        ),
        encoder_turn(RecorderState::Stop, RecorderState::Stop) is None,
        device_ordered(RecorderState::Stop) is None,
{
}

/// Whatever turn is taken on an order to record, the recording goes to the device ordered.
pub proof fn turn_encodes_for_the_order(last: RecorderState, requested: RecorderState)
    ensures
        forall|device: Device|
            encoder_turn(last, requested) is Some && requested == RecorderState::Record(device)
                ==> (#[trigger] encoder_turn(last, requested))->0.encode == Some(device),
        encoder_turn(last, requested) is Some && requested == RecorderState::Stop
            ==> encoder_turn(last, requested)->0.encode is None,
        encoder_turn(last, requested) is Some <==> (last == RecorderState::Stop) != (requested
            == RecorderState::Stop),
        encoder_turn(last, requested) is Some ==> encoder_turn(last, requested)->0.event
            == SubEvent::PipeStopped,
{
}

/// No frame is lost when a recording is taken: what is taken and what stays make up the buffer.
/// Less than 600 frames are left alone, and of 600 or more all are taken.
pub proof fn taking_loses_no_frame<T>(buffer: Seq<T>)
    ensures
        match recording_taken(buffer).0 {
            Some(frames) => frames + recording_taken(buffer).1 == buffer && frames.len() >= 600
                && recording_taken(buffer).1.len() == 0,
            None => recording_taken(buffer).1 == buffer && buffer.len() < 600,
        },
{
}

/// A recording starts 90 seconds before it ends, to the millisecond below.
pub proof fn recording_spans_its_seconds(end: Timestamp)
    ensures
        start_millis(end) * 1000000 <= end.since_epoch() - 90 * 1000000000 < (start_millis(end)
            + 1) * 1000000,
{
}

/// A recording goes below the directory of its device, and the rest of its path is the time at
/// which it starts.
pub proof fn recording_is_named_for_its_start(device: Device, end: Timestamp)
    ensures
        ({
            let dir = match device {
                Device::SD => "/media/sdcard/"@,
                Device::Local => "/home/team3/blackbox/"@,
            };
            let folder = recording_folder_of(device, end);
            let start = folder.skip(dir.len() as int);
            &&& folder == dir + start
            &&& start_millis(end) >= 0 ==> text::is_numeral(start) && text::number_of(start)
                == start_millis(end)
            &&& start_millis(end) < 0 ==> start.len() > 0 && start[0] == '-' && text::is_numeral(
                start.skip(1),
            ) && text::number_of(start.skip(1)) == -start_millis(end)
        }),
{
    reveal_strlit("/media/sdcard/");
    reveal_strlit("/home/team3/blackbox/");
    reveal_strlit("/media/sdcard");
    reveal_strlit("/home/team3/blackbox");
    reveal_strlit("/");
    text::signed_decimal_reads_back(start_millis(end));
    let dir = match device {
        Device::SD => "/media/sdcard/"@,
        Device::Local => "/home/team3/blackbox/"@,
    };
    assert(utils::workdir_of(device) + "/"@ =~= dir);
    assert(recording_folder_of(device, end).skip(dir.len() as int) =~= text::signed_decimal(
        start_millis(end),
    ));
    assert(recording_folder_of(device, end) =~= dir + text::signed_decimal(start_millis(end)));
}

/// The files of a recording stand in its directory, and `ffmpeg` reads what the encoding pipeline
/// writes.
pub proof fn recording_files_hang_together(target_folder: Seq<char>)
    ensures
        files_of(target_folder).0 == target_folder + "/temp.mp4"@,
        files_of(target_folder).1 == target_folder + "/video.mp4"@,
        files_of(target_folder).2 == target_folder + "/.DONE"@,
        encoder_pipeline_of(target_folder)
            == "appsrc name=appsrc ! video/x-raw, format=I420, width=1280, height=720, framerate=30/1 ! nvvideoconvert name=convert ! video/x-raw(memory:NVMM), format=I420, width=1280, height=720 ! nvv4l2h264enc name=enc ! h264parse name=parse ! mp4mux name=mux trak-timescale=10 ! filesink name=filesink location="@
            + files_of(target_folder).0,
{
    assert(encoder_pipeline_of(target_folder) =~= ENCODER@ + (target_folder + "/temp.mp4"@));
}

/// `ffmpeg` is given the one file to read and the other to write, with the encoder in between.
pub proof fn ffmpeg_reads_one_and_writes_the_other(temp: Seq<char>, video: Seq<char>)
    ensures
        ({
            let list = ffmpeg_arguments_of(temp, video);
            &&& list.len() == 9
            &&& list[0] == "-i"@ && list[1] == temp
            &&& list[2] == "-c:v"@ && list[3] == "h264_nvmpi"@
            &&& list[4] == "-pix_fmt"@ && list[5] == "yuv420p"@
            &&& list[6] == "-preset"@ && list[7] == "fast"@
            &&& list[8] == video
        }),
{
}

/// A recording goes on unless its stream ends or an error is told: the one completes it, the other
/// has it fail.
pub proof fn only_an_end_or_an_error_ends(message: BusMessage)
    ensures
        bus_step_of(message) is Complete <==> message is Eos,
        bus_step_of(message) is Failed <==> message is Error,
        bus_step_of(message) is Continue <==> message is Other,
{
}

/// Only backslashes, line ends and double quotes are dropped from a setting. Every other
/// character stands in the description, in its order.
pub proof fn only_shell_characters_are_dropped(setting: Seq<char>)
    ensures
        description_of(setting) == setting.filter(|c: char| c != '\\' && c != '\n' && c != '"'),
        (forall|i: int|
            0 <= i < setting.len() ==> #[trigger] setting[i] != '\\' && setting[i] != '\n'
                && setting[i] != '"') ==> description_of(setting) == setting,
{
    let wanted = |c: char| !is_shell_only(c);
    let literal = |c: char| c != '\\' && c != '\n' && c != '"';
    assert(wanted =~= literal);
    if forall|i: int|
        0 <= i < setting.len() ==> #[trigger] setting[i] != '\\' && setting[i] != '\n'
            && setting[i] != '"' {
        text::filter_of_kept(setting, literal);
    }
}

/// A setting is described piece by piece: what stands in one part does not touch another, and one
/// character comes out as it is or not at all.
pub proof fn settings_are_described_piecewise(a: Seq<char>, c: char, b: Seq<char>)
    ensures
        description_of(a + seq![c] + b) == description_of(a) + (if c == '\\' || c == '\n' || c
            == '"' {
            Seq::<char>::empty()
        } else {
            seq![c]
        }) + description_of(b),
{
    let wanted = |d: char| !is_shell_only(d);
    let one = seq![c];
    assert(wanted =~= (|d: char| !is_shell_only(d)));
    Seq::filter_distributes_over_add(a + one, b, wanted);
    Seq::filter_distributes_over_add(a, one, wanted);
    reveal_with_fuel(Seq::filter, 2);
    assert(one.drop_last() =~= Seq::<char>::empty());
    assert(one.filter(wanted) =~= (if is_shell_only(c) {
        Seq::<char>::empty()
    } else {
        one
    }));
}

/// What belongs to a camera is named for its number: its sink, its device file, and the directory
/// that it records into.
pub proof fn cameras_are_told_apart(camera_id: int, target_path: Seq<char>)
    ensures
        fakesink_name_of(camera_id) == "fakesink_"@ + text::signed_decimal(camera_id),
        camera_device_of(camera_id) == "/dev/video"@ + text::signed_decimal(camera_id),
        utils::camera_folder_of(target_path, camera_id) == target_path + "/camera_"@
            + text::signed_decimal(camera_id),
        text::number_of(
            text::signed_decimal(camera_id).skip(
                if camera_id < 0 {
                    1
                } else {
                    0
                },
            ),
        ) == if camera_id < 0 {
            -camera_id
        } else {
            camera_id
        },
{
    text::signed_decimal_reads_back(camera_id);
    assert(text::signed_decimal(camera_id).skip(0) =~= text::signed_decimal(camera_id));
}

/// Two cameras share neither sink nor device file, nor a directory below one path.
pub proof fn cameras_do_not_share(a: int, b: int, target_path: Seq<char>)
    requires
        a != b,
    ensures
        fakesink_name_of(a) != fakesink_name_of(b),
        camera_device_of(a) != camera_device_of(b),
        utils::camera_folder_of(target_path, a) != utils::camera_folder_of(target_path, b),
{
    let (x, y) = (text::signed_decimal(a), text::signed_decimal(b));
    if x == y {
        text::signed_decimal_is_injective(a, b);
    }
    let sink = "fakesink_"@.len() as int;
    assert(fakesink_name_of(a).skip(sink) =~= x);
    assert(fakesink_name_of(b).skip(sink) =~= y);
    let device = "/dev/video"@.len() as int;
    assert(camera_device_of(a).skip(device) =~= x);
    assert(camera_device_of(b).skip(device) =~= y);
    let folder = (target_path + "/camera_"@).len() as int;
    assert(utils::camera_folder_of(target_path, a).skip(folder) =~= x);
    assert(utils::camera_folder_of(target_path, b).skip(folder) =~= y);
}

/// A camera's pipeline reads from its device file and writes below its directory, in files that
/// start with the time stamp.
pub proof fn camera_pipeline_joins_device_and_directory(
    camera_id: int,
    target_path: Seq<char>,
    stamp: Seq<char>,
)
    ensures
        camera_pipeline_of(camera_id, target_path, stamp) == "v4l2src device="@ + (
        "/dev/video"@ + text::signed_decimal(camera_id))
            + " num-buffers=2000 ! videoconvert ! video/x-raw, format=NV12, width=1280, height=720, framerate=30/1 ! x264enc ! mp4mux ! multifilesink location="@
            + (target_path + "/camera_"@ + text::signed_decimal(camera_id)) + "/"@ + stamp
            + "_%lu.mp4 -e"@,
{
}

/// Each camera counts for itself: what was started is what was started before, this one where it
/// was, and what was started behind it.
pub proof fn cameras_are_started_one_by_one<P>(
    before: Seq<Option<P>>,
    camera: Option<P>,
    behind: Seq<Option<P>>,
)
    ensures
        started_of(before + seq![camera] + behind) == started_of(before) + (match camera {
            Some(pipeline) => seq![pipeline],
            None => Seq::empty(),
        }) + started_of(behind),
        started_of(Seq::<Option<P>>::empty()) == Seq::<P>::empty(),
    decreases behind.len(),
{
    let all = before + seq![camera] + behind;
    let one = match camera {
        Some(pipeline) => seq![pipeline],
        None => Seq::empty(),
    };
    if behind.len() == 0 {
        assert(all.drop_last() =~= before);
        assert(all.last() == camera);
        assert(started_of(all) =~= started_of(before) + one + started_of(behind));
    } else {
        cameras_are_started_one_by_one(before, camera, behind.drop_last());
        assert(all.drop_last() =~= before + seq![camera] + behind.drop_last());
        assert(all.last() == behind.last());
        assert(started_of(all) =~= started_of(before) + one + started_of(behind));
    }
}

/// The recording thread starts on the device ordered, and only from a stop. A stop takes all
/// pipelines that run, the last first, and none is left out.
pub proof fn recording_thread_follows_orders<P>(running: Seq<P>, device: Device, other: Device)
    ensures
        recorder_step(RecorderState::Stop, running, RecorderState::Record(device))
            == StepView::<P>::Start(device),
        recorder_step(RecorderState::Record(other), running, RecorderState::Record(device))
            == StepView::<P>::Wait,
        recorder_step(RecorderState::Stop, running, RecorderState::Stop) == StepView::<P>::Wait,
        recorder_step(RecorderState::Record(other), running, RecorderState::Stop) matches
            StepView::Stop(stopped, event) && event == SubEvent::PipeStopped && stopped.len()
            == running.len() && forall|i: int|
            0 <= i < running.len() ==> #[trigger] stopped[i] == running[running.len() - 1 - i],
{
}

/// That something runs is told exactly when a pipeline does.
pub proof fn running_is_told_of_running(running: nat)
    ensures
        running_event(running) == SubEvent::PipeRunning <==> running > 0,
        running_event(running) == SubEvent::PipeStopped <==> running == 0,
{
}

/// A thread that is told to stop has nothing that runs.
pub proof fn stopped_thread_runs_nothing<P>(thread: RecorderThread<P>)
    requires
        thread.wf(),
        thread.my_last_state == RecorderState::Stop,
    ensures
        thread.pipeline_list@ == Seq::<P>::empty(),
{
}

/// Once a thread has looked, it goes by what it was told: to stop or to record. The device of a
/// recording that is under way stays.
pub proof fn threads_go_by_what_they_are_told(last: RecorderState, requested: RecorderState)
    ensures
        state_after_look(last, requested) == RecorderState::Stop <==> requested
            == RecorderState::Stop,
        last == RecorderState::Stop ==> state_after_look(last, requested) == requested,
        last != RecorderState::Stop && requested != RecorderState::Stop ==> state_after_look(
            last,
            requested,
        ) == last,
        encoder_turn(state_after_look(last, requested), requested) is None,
{
}

/// A camera that is there is recorded below the path, into the directory of its number, in files
/// that start with the time; one that is not there is not recorded.
pub proof fn present_cameras_are_recorded(
    camera_id: int,
    target_path: Seq<char>,
    now: Timestamp,
)
    ensures
        camera_plan_of(camera_id, false, target_path, now) is None,
        camera_plan_of(camera_id, true, target_path, now) matches Some((folder, pipeline)) && {
            &&& folder == target_path + "/camera_"@ + text::signed_decimal(camera_id)
            &&& pipeline == camera_pipeline_of(
                camera_id,
                target_path,
                clock::formatted(now.secs, now.nanos, "%Y%m%d_%H%M%S"@),
            )
        },
{
}

/// A step of the recording thread says what its view says.
pub proof fn step_view_is_whole<P>(step: RecorderStep<P>)
    ensures
        match step {
            RecorderStep::Wait => step@ == StepView::<P>::Wait,
            RecorderStep::Start(device) => step@ == StepView::<P>::Start(device),
            RecorderStep::Stop { pipelines, event } => step@ == StepView::Stop(pipelines@, event),
        },
{
}

} // verus!
