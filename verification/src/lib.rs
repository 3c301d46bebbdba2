//! Decision logic of a terminal tool that picks a compressed disk image from
//! mounted media and writes it to a block device, guided by a block map.

pub mod text;
pub mod paths;
pub mod xml;
pub mod blockmap;
pub mod input;
pub mod images;
pub mod mounts;
pub mod flash;
pub mod final_page;
pub mod ui;
pub mod laws;
