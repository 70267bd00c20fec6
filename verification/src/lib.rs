//! Decision logic of the bench workstation: log search and editing, log tabs,
//! serial capture, instrument control and the plugin market.
pub mod bench;
pub mod bench_api;
pub mod bench_events;
pub mod bench_status;
pub mod browser;
pub mod capture;
pub mod controls;
pub mod discovery;
pub mod editor;
pub mod files;
pub mod instrument;
pub mod json;
pub mod lang;
pub mod log_edit;
pub mod log_laws;
pub mod log_tab;
pub mod market;
pub mod overview;
pub mod pane;
pub mod pane_laws;
pub mod rack;
pub mod request;
pub mod screenshot;
pub mod search;
pub mod serial;
pub mod tabs;
pub mod tektronix;
pub mod text;
pub mod waveform;
pub mod worker;

use vstd::prelude::*;

verus! {

} // verus!
