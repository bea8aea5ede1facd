use soul_listener::bluetooth::state::BluetoothState;

#[test]
fn test_bt_starts_disconnected() {
    let state = BluetoothState::new();
    assert!(!state.connected());
}

#[test]
fn test_bt_connect() {
    let mut state = BluetoothState::new();
    state.on_connected([0x01; 6]);
    assert!(state.connected());
}

#[test]
fn test_bt_disconnect() {
    let mut state = BluetoothState::new();
    state.on_connected([0x01; 6]);
    state.on_disconnected();
    assert!(!state.connected());
}

#[test]
fn test_bt_peer_address_after_connect() {
    let mut state = BluetoothState::new();
    let addr = [0xAA, 0xBB, 0xCC, 0xDD, 0xEE, 0xFF];
    state.on_connected(addr);
    assert_eq!(state.peer_address(), Some(addr));
}

#[test]
fn test_bt_peer_address_none_when_disconnected() {
    let state = BluetoothState::new();
    assert_eq!(state.peer_address(), None);
}

#[test]
fn bt_reconnect_replaces_peer() {
    let mut state = BluetoothState::default();
    state.on_connected([1, 2, 3, 4, 5, 6]);
    state.on_connected([6, 5, 4, 3, 2, 1]);
    assert_eq!(state.peer_address(), Some([6, 5, 4, 3, 2, 1]));
    state.on_disconnected();
    assert_eq!(state.peer_address(), None);
}
