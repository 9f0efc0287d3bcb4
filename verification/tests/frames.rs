use blackbox::fakesink_handler::fakesink_handler;
use blackbox::recorder::take_recording;
use std::collections::VecDeque;

#[test]
fn one_frame_in_three_is_kept() {
    let mut buffer: VecDeque<i32> = VecDeque::new();
    let mut record = true;
    for number in -4..5 {
        assert!(!fakesink_handler(&mut buffer, &mut record, number, number));
    }
    assert_eq!(buffer, [-3, 0, 3]);
    assert!(record);
}

#[test]
fn the_encoder_is_woken_when_a_recording_is_full() {
    let mut buffer: VecDeque<i32> = VecDeque::new();
    let mut record = true;
    for frame in 0..599 {
        assert!(!fakesink_handler(&mut buffer, &mut record, frame, 0));
    }
    assert!(record);
    assert!(fakesink_handler(&mut buffer, &mut record, 599, 0));
    assert!(!record);
    assert_eq!(buffer.len(), 600);
}

#[test]
fn a_full_buffer_loses_its_oldest_frame() {
    let mut buffer: VecDeque<i32> = (0..600).collect();
    let mut record = false;
    assert!(fakesink_handler(&mut buffer, &mut record, 600, 3));
    assert_eq!(buffer.len(), 600);
    assert_eq!((buffer[0], buffer[599]), (1, 600));
}

#[test]
fn a_full_buffer_loses_a_frame_even_to_one_that_is_not_kept() {
    let mut buffer: VecDeque<i32> = (0..600).collect();
    let mut record = true;
    assert!(!fakesink_handler(&mut buffer, &mut record, 600, 1));
    assert_eq!(buffer.len(), 599);
    assert_eq!((buffer[0], buffer[598]), (1, 599));
    assert!(record);
}

#[test]
fn the_buffer_holds_the_newest_frames_in_order() {
    let mut buffer: VecDeque<i32> = VecDeque::new();
    let mut record = true;
    for frame in 0..2000 {
        fakesink_handler(&mut buffer, &mut record, frame, 6);
        assert!(buffer.len() <= 600);
    }
    assert_eq!(buffer, (1400..2000).collect::<VecDeque<i32>>());
}

#[test]
fn a_recording_is_taken_whole() {
    let mut buffer: VecDeque<i32> = (0..599).collect();
    assert!(take_recording(&mut buffer).is_none());
    assert_eq!(buffer.len(), 599);
    buffer.push_back(599);
    let recording = take_recording(&mut buffer).unwrap();
    assert_eq!(recording, (0..600).collect::<VecDeque<i32>>());
    assert!(buffer.is_empty());
}
