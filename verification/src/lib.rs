//! Turns a CSV log of video-surveillance events into static HTML report
//! pages: an event table page, a video gallery page, and a composite index
//! page.
//!
//! The pipeline is pure: CSV bytes become event records, each record becomes
//! two HTML fragments (a table row and a gallery card), and the fragments are
//! substituted into fixed page templates. File reading and writing live with
//! the caller; every function here is a total function of its arguments.

pub mod hours;
pub mod pages;
pub mod records;
pub mod render;
pub mod text;
