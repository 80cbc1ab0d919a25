//! Decision logic of a terminal internet-radio player: the station list and
//! the player state, stream metadata merging, the ICY metadata demultiplexer,
//! stream header interpretation and the small text helpers they share.

pub mod text;
pub mod station;
pub mod meta;
pub mod icy;
pub mod stream;
pub mod history;
pub mod stats;
pub mod player;
