//! Interactive controller for reordering UEFI boot entries.
//!
//! The crate verifies the decision logic of a terminal front end for
//! `efibootmgr`: the state machine that reacts to key presses and timer
//! ticks, the model of the boot-entry list with its two cursors, the
//! parser for the inventory tool's output, and the classifier for the
//! result of a privilege-elevated command.  Screen drawing and process
//! spawning live outside the library and talk to it through plain values.


pub mod entry;
pub mod executor;
pub mod laws;
pub mod machine;
pub mod state;
pub mod text;
