//! The messages exchanged between the host, the modem and the devices.

use vstd::prelude::*;

use crate::relays::{RelayIdx, RelayState, ShelfStatus};

verus! {

/// General messages from the host to a device.
#[derive(Debug, Clone, Copy, PartialEq, Eq, Structural)]
pub enum GeneralHostMessage {
    Ping,
}

/// General messages from a device to the host.
#[derive(Debug, Clone, Copy, PartialEq, Eq, Structural)]
pub enum GeneralDeviceMessage {
    Pong,
    InitializeSession,
    MessageRequest,
}

/// Messages from a plant light to the host.
#[derive(Debug, Clone, Copy)]
pub enum PlantLightDeviceMessage {
    Status(ShelfStatus),
}

/// Messages from the host to a plant light.
#[derive(Debug, Clone, Copy, PartialEq, Eq, Structural)]
pub enum PlantLightHostMessage {
    SetRelay { relay: RelayIdx, state: RelayState },
    SetCounters { on_lifetime: u32, off_lifetime: u32 },
}

/// Any message from the host to a device.
#[derive(Debug, Clone, Copy, PartialEq, Eq, Structural)]
pub enum HostToDevice {
    General(GeneralHostMessage),
    PlantLight(PlantLightHostMessage),
}

/// Any message from a device to the host.
#[derive(Debug, Clone, Copy)]
pub enum DeviceToHost {
    General(GeneralDeviceMessage),
    PlantLight(PlantLightDeviceMessage),
}

/// What the PC sends the modem.
#[derive(Debug, Clone, Copy, PartialEq, Eq, Structural)]
pub enum PcToModem {
    Outgoing { pipe: u8, msg: HostToDevice },
    Ping,
}

/// What the modem sends the PC.
#[derive(Debug, Clone, Copy)]
pub enum ModemToPc {
    Incoming { pipe: u8, msg: DeviceToHost },
    Pong,
}

/// A command to switch one relay.
#[derive(Debug, Clone, Copy, PartialEq, Eq, Structural)]
pub struct RelayCommand {
    pub relay: RelayIdx,
    pub state: RelayState,
}

} // verus!
