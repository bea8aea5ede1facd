//! Bluetooth co-processor interface: HCI framing and connection state.
pub mod hci;
pub mod state;
