//! Bluetooth devices as reported to IPC clients.

use vstd::prelude::*;

verus! {

#[derive(Debug, Clone)]
pub struct BluetoothDevice {
    pub mac: String,
    pub name: Option<String>,
    pub paired: bool,
    pub connected: bool,
}

} // verus!
