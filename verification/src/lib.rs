//! Host telemetry for a small wireless display.
//!
//! The library takes raw readings of a host (processor load, memory size
//! and pressure, and what system tools print about the graphics processor),
//! turns them into a snapshot with sizes scaled to a unit, writes the
//! snapshot as a fixed record of sixteen bytes, and decides, step by step,
//! how a session with the peripheral that shows the record proceeds.
//!
//! Nothing here touches the outside world: readings come in as plain
//! values and text, and the radio work is named as actions for the caller
//! to carry out. Every function is verified against the contract it states.
//!
//! - [`text`] and [`decimal`]: scanning of text and reading of numbers;
//! - [`gpu_info_macos`]: readings of the graphics processor from tool output;
//! - [`gpu_probe`]: the order in which the tools are asked, and what they
//!   tell together;
//! - [`magnitude`] and [`helpers`]: scaling of sizes and the unit field;
//! - [`system_info`]: the snapshot and its record;
//! - [`link`]: the session with the peripheral.

pub mod decimal;
pub mod gpu_info_macos;
pub mod gpu_probe;
pub mod helpers;
pub mod link;
pub mod magnitude;
pub mod system_info;
pub mod text;
