//! Renogy BMS monitoring over a BT-2 Bluetooth module: Modbus framing,
//! register requests and replies, the decisions of the BT-2 transport,
//! and the text and chart computations of the terminal dashboard.

pub mod error;
pub mod pdu;
pub mod transport;
pub mod text;
pub mod bt2;
pub mod tui;
pub mod chart;
pub mod clock;
