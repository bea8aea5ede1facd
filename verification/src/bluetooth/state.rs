//! Bluetooth connection state tracker.
use vstd::prelude::*;

verus! {

/// Tracks whether a BLE peer is currently connected and, if so, its address.
pub struct BluetoothState {
    connected: bool,
    peer_address: Option<[u8; 6]>,
}

impl BluetoothState {
    /// Whether a peer is connected, as a contract sees it.
    pub closed spec fn is_connected(&self) -> bool {
        self.connected
    }

    /// The connected peer's address, as a contract sees it.
    pub closed spec fn peer(&self) -> Option<[u8; 6]> {
        self.peer_address
    }

    /// A peer address is recorded exactly when a peer is connected.
    pub closed spec fn wf(&self) -> bool {
        self.connected <==> self.peer_address is Some
    }

    /// Create a new, disconnected state.
    pub fn new() -> (s: Self)
        ensures
            s.wf(),
            !s.is_connected(),
            s.peer() is None,
    {
        BluetoothState { connected: false, peer_address: None }
    }

    /// Record a successful connection from `address`.
    pub fn on_connected(&mut self, address: [u8; 6])
        ensures
            final(self).wf(),
            final(self).is_connected(),
            final(self).peer() == Some(address),
    {
        self.connected = true;
        self.peer_address = Some(address);
    }

    /// Record that the peer has disconnected.
    pub fn on_disconnected(&mut self)
        ensures
            final(self).wf(),
            !final(self).is_connected(),
            final(self).peer() is None,
    {
        self.connected = false;
        self.peer_address = None;
    }

    /// Returns `true` if a peer is currently connected.
    pub fn connected(&self) -> (r: bool)
        ensures
            r == self.is_connected(),
    {
        self.connected
    }

    /// Returns the peer's 6-byte Bluetooth address, or `None` when disconnected.
    pub fn peer_address(&self) -> (r: Option<[u8; 6]>)
        ensures
            r == self.peer(),
    {
        self.peer_address
    }
}

impl Default for BluetoothState {
    fn default() -> (s: Self)
        ensures
            s.wf(),
            !s.is_connected(),
            s.peer() is None,
    {
        Self::new()
    }
}

} // verus!
