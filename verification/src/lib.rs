//! The controlling side of an EtherCAT network: the frames a main device sends, and the decisions
//! it takes on what comes back.
//!
//! Nothing in this library touches a network interface. It lays out frames as bytes, keeps account
//! of which frame slots are in use, and steps through the start-up of a network; whoever holds the
//! interface sends the bytes and hands the replies back.

pub mod coe;
pub mod collections;
pub mod command;
pub mod config;
pub mod eeprom;
pub mod error;
pub mod fmmu;
pub mod frames;
pub mod hand_out;
pub mod init;
pub mod maindevice;
pub mod pdu_loop;
pub mod register;
pub mod reset;
pub mod subdevice;
pub mod sync_manager;
pub mod wait;
pub mod wire;
