//! The logic of the simhark match viewer, replay log and match runner.

pub mod args;
pub mod client;
pub mod codec;
pub mod config;
pub mod console;
pub mod control;
pub mod controller;
pub mod debug;
pub mod developer;
pub mod direct;
pub mod edits;
pub mod faabs;
pub mod launch;
pub mod layers;
pub mod motion;
pub mod names;
pub mod number;
pub mod order;
pub mod pickup;
pub mod playback;
pub mod publish;
pub mod replay;
pub mod report;
pub mod requests;
pub mod runner;
pub mod session;
pub mod snapshot;
pub mod ssl_log;
pub mod state;
pub mod table;
pub mod text;
pub mod trackers;
pub mod viewer;
pub mod worlds;
