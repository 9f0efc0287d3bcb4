# blackbox

The decisions of a dash-camera recorder, verified with Verus: which storage it records to, when it
starts and stops, which frames it keeps, which files it removes and what it shows.

- `src/controller.rs`: the recorder as a whole, a step from state and message to state, effects
  and command; what the window shows
- `src/recorder.rs`: what the recording threads do when they are told, the pipelines they build,
  the files of a recording
- `src/fakesink_handler.rs`: the frames that wait to be encoded
- `src/notifier.rs`: the threads that watch files and the card slot
- `src/utils.rs`: storage devices, their room, what is removed from them, sizes for people
- `src/logger.rs`: where the log goes, which old logs are removed
- `src/clock.rs`: points in time, and what the `chrono` crate knows of the calendar
- `src/text.rs`: text as sequences of characters
- `tests/`: tests of all that
- `app/`: the program around it: window, threads, pipelines, files. It needs GStreamer, the `iced`
  crate, a file `settings` with the camera pipeline, and the pictures in `assets/`.
