//! Demand-driven capture-to-publish core of a depth-camera streaming bridge.
//!
//! The modules hold the verified decisions and conversions: which streams have
//! subscribers (`activation`), the lossy frame channel between capture and
//! publish (`channel`), the capture state machine (`capture`), tone mapping of
//! infrared samples (`tone_map`, `infrared`) with its hot-reloaded
//! configuration (`config_manager`), re-framing and conversion of audio
//! (`audio`), the color frame check (`color`), the subscriber credential check
//! (`auth`) and the device wait at start-up (`startup`).
pub mod activation;
pub mod audio;
pub mod auth;
pub mod capture;
pub mod channel;
pub mod color;
pub mod config_manager;
pub mod frame;
pub mod infrared;
pub mod startup;
pub mod tone_map;
