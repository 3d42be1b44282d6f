//! What can go wrong.

use crate::wire::WireError;
use vstd::prelude::*;

verus! {

/// A list or table of fixed size.
#[derive(Clone, Copy, Debug, PartialEq, Eq, Structural)]
pub enum Item {
    /// The discovered SubDevices.
    SubDevice,
    /// The groups that SubDevices were assigned to.
    Group,
}

/// Why a PDU could not be sent, or its response not be read.
#[derive(Clone, Copy, Debug, PartialEq, Eq, Structural)]
pub enum PduError {
    /// The PDU does not fit into a frame.
    TooLong,
    /// Every frame slot is in use.
    SwapState,
    /// The response is cut short.
    Decode,
    /// The response carries another index than the PDU that was sent.
    IndexMismatch {
        /// The index that was sent.
        sent: u8,
        /// The index in the response.
        received: u8,
    },
    /// The response carries another command than the PDU that was sent.
    CommandMismatch {
        /// The command code that was sent.
        sent: u8,
        /// The command code in the response.
        received: u8,
    },
}

/// An error of the main device.
#[derive(Clone, Copy, Debug, PartialEq, Eq, Structural)]
pub enum Error {
    /// A PDU failed.
    Pdu(PduError),
    /// A value could not be read from a response.
    Wire(WireError),
    /// A list or table of fixed size is full.
    Capacity(Item),
    /// A response was not handled by the number of SubDevices that were to handle it.
    WorkingCounter {
        /// The count that was called for.
        expected: u16,
        /// The count in the response.
        received: u16,
    },
    /// A SubDevice reports that it could not change its state.
    StateTransition,
    /// An operation took too long.
    Timeout,
    /// A SubDevice that belongs to no group.
    UnknownSubDevice,
    /// Something else went wrong while talking to a SubDevice.
    Internal,
}

} // verus!
