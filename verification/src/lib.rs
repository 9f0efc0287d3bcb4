//! The decisions of a dash-camera recorder: which storage it records to, when it
//! starts and stops, which frames it keeps, which files it removes and what it shows.
//!
//! Nothing here touches a device. Callers hand in what they read and carry out what
//! comes back.

pub mod clock;
pub mod controller;
pub mod fakesink_handler;
pub mod logger;
pub mod notifier;
pub mod recorder;
pub mod text;
pub mod utils;
