//! Decisions of a real-time frame annotation pipeline.

pub mod annotate;
pub mod detect;
pub mod frame;
pub mod main_loop;
pub mod mapper;
pub mod protocol;
pub mod region;
pub mod round_trip;
pub mod run;
pub mod scale;
