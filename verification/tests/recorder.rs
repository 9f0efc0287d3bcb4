use blackbox::clock::Timestamp;
use blackbox::controller::SubEvent;
use blackbox::recorder::{
    buffer_to_mp4, build_encoder_pipeline, bus_step, camera_device, camera_pipeline,
    encoder_thread, fakesink_name, is_state_same, pipe_builder, pipeline_builder,
    recording_folder, BusMessage, BusStep, EncoderTurn, RecorderState, RecorderStep,
    RecorderThread, ENCODER,
};
use blackbox::utils::Device;

const SD: RecorderState = RecorderState::Record(Device::SD);
const LOCAL: RecorderState = RecorderState::Record(Device::Local);
const STOP: RecorderState = RecorderState::Stop;

#[test]
fn recording_is_one_state_whatever_the_device() {
    assert!(is_state_same(&STOP, &STOP));
    assert!(is_state_same(&SD, &LOCAL));
    assert!(is_state_same(&LOCAL, &LOCAL));
    assert!(!is_state_same(&STOP, &SD));
    assert!(!is_state_same(&LOCAL, &STOP));
}

#[test]
fn the_encoder_takes_one_turn_for_each_change() {
    let mut last = STOP;
    assert_eq!(encoder_thread(&mut last, STOP), None);
    assert_eq!(
        encoder_thread(&mut last, SD),
        Some(EncoderTurn { encode: Some(Device::SD), event: SubEvent::PipeStopped })
    );
    assert_eq!(last, SD);
    assert_eq!(encoder_thread(&mut last, LOCAL), None);
    assert_eq!(last, SD);
    assert_eq!(
        encoder_thread(&mut last, STOP),
        Some(EncoderTurn { encode: None, event: SubEvent::PipeStopped })
    );
    assert_eq!(last, STOP);
}

#[test]
fn a_recording_goes_to_a_directory_named_for_its_start() {
    let end = Timestamp::new(1721384430, 123999999).unwrap();
    assert_eq!(recording_folder(Device::SD, end), "/media/sdcard/1721384340123");
    assert_eq!(recording_folder(Device::Local, end), "/home/team3/blackbox/1721384340123");
    let early = Timestamp::new(0, 1000000).unwrap();
    assert_eq!(recording_folder(Device::SD, early), "/media/sdcard/-89999");
}

#[test]
fn the_encoder_writes_below_the_target() {
    assert_eq!(build_encoder_pipeline("/t"), format!("{}/t/temp.mp4", ENCODER));
    assert!(ENCODER.starts_with("appsrc name=appsrc ! "));
    assert!(ENCODER.ends_with("filesink name=filesink location="));
}

#[test]
fn a_recording_has_its_files() {
    let files = buffer_to_mp4("/t");
    assert_eq!(files.temp_path, "/t/temp.mp4");
    assert_eq!(files.video_path, "/t/video.mp4");
    assert_eq!(files.done_path, "/t/.DONE");
    assert_eq!(
        files.ffmpeg_arguments,
        ["-i", "/t/temp.mp4", "-c:v", "h264_nvmpi", "-pix_fmt", "yuv420p", "-preset", "fast", "/t/video.mp4"]
    );
}

#[test]
fn the_bus_ends_with_an_error_or_the_end_of_the_stream() {
    assert_eq!(bus_step(BusMessage::Other), BusStep::Continue);
    assert_eq!(bus_step(BusMessage::Eos), BusStep::Complete);
    assert_eq!(bus_step(BusMessage::Error), BusStep::Failed);
}

#[test]
fn a_setting_loses_what_only_a_shell_needs() {
    assert_eq!(
        pipe_builder("v4l2src \\\n ! \"video/x-raw\" ! fakesink name=fakesink_0\n"),
        "v4l2src  ! video/x-raw ! fakesink name=fakesink_0"
    );
    assert_eq!(pipe_builder(""), "");
}

#[test]
fn cameras_have_their_names() {
    assert_eq!(fakesink_name(3), "fakesink_3");
    assert_eq!(camera_device(0), "/dev/video0");
}

const PIPELINE: &str = "v4l2src device=/dev/video2 num-buffers=2000 ! videoconvert ! video/x-raw, format=NV12, width=1280, height=720, framerate=30/1 ! x264enc ! mp4mux ! multifilesink location=/t/camera_2/20240719_102030_%lu.mp4 -e";

#[test]
fn a_camera_is_recorded_into_its_directory() {
    let now = Timestamp::new(1721384430, 0).unwrap();
    let plan = pipeline_builder(2, true, "/t", now).unwrap();
    assert_eq!(plan.folder, "/t/camera_2");
    assert_eq!(plan.pipeline, PIPELINE);
    assert_eq!(camera_pipeline(2, "/t", "20240719_102030"), PIPELINE);
    assert!(pipeline_builder(2, false, "/t", now).is_none());
}

#[test]
fn cameras_are_started_and_stopped_together() {
    let mut thread: RecorderThread<i32> = RecorderThread::new();
    assert!(matches!(thread.recorder_thread(STOP), RecorderStep::Wait));
    assert!(matches!(thread.recorder_thread(LOCAL), RecorderStep::Start(Device::Local)));
    let event = thread.cameras_tried(vec![Some(10), None, Some(12), Some(13)]);
    assert_eq!(event, SubEvent::PipeRunning);
    assert_eq!(thread.pipeline_list, [10, 12, 13]);
    assert!(matches!(thread.recorder_thread(SD), RecorderStep::Wait));
    match thread.recorder_thread(STOP) {
        RecorderStep::Stop { pipelines, event } => {
            assert_eq!(pipelines, [13, 12, 10]);
            assert_eq!(event, SubEvent::PipeStopped);
        }
        _ => panic!("the pipelines are to be stopped"),
    }
    assert!(thread.pipeline_list.is_empty());
}

#[test]
fn without_a_camera_nothing_runs() {
    let mut thread: RecorderThread<i32> = RecorderThread::new();
    assert!(matches!(thread.recorder_thread(SD), RecorderStep::Start(Device::SD)));
    assert_eq!(thread.cameras_tried(vec![None, None, None, None]), SubEvent::PipeStopped);
}

#[test]
fn recordings_do_not_share_a_directory() {
    let folder = |device, nanos| recording_folder(device, Timestamp::new(1721384430, nanos).unwrap());
    assert_ne!(folder(Device::SD, 0), folder(Device::SD, 1000000));
    assert_eq!(folder(Device::SD, 0), folder(Device::SD, 999999));
    assert_ne!(folder(Device::SD, 0), folder(Device::Local, 0));
}

fn outcome(messages: &[BusMessage]) -> BusStep {
    for message in messages {
        let step = bus_step(*message);
        if step != BusStep::Continue {
            return step;
        }
    }
    BusStep::Continue
}

#[test]
fn a_recording_is_complete_without_an_error_before_its_end() {
    let (eos, error, other) = (BusMessage::Eos, BusMessage::Error, BusMessage::Other);
    assert_eq!(outcome(&[other, eos, error]), BusStep::Complete);
    assert_eq!(outcome(&[other, error, eos]), BusStep::Failed);
    assert_eq!(outcome(&[other, other]), BusStep::Continue);
}
