use vstd::prelude::*;

verus! {

/// Errors raised while talking to a Renogy BMS.
#[derive(Debug, Clone, PartialEq, Eq)]
pub enum RenogyError {
    /// A Bluetooth / D-Bus level failure, with a description.
    Bluetooth(String),
    /// A reply that is too short or that does not have the expected shape.
    InvalidData,
    /// A frame whose trailing CRC does not match its contents.
    CrcMismatch,
    /// The device answered with a Modbus exception; the byte is the exception code.
    ModbusException(u8),
}

/// The mathematical value of a [`RenogyError`]: descriptions are taken by their characters.
pub enum RenogyErrorView {
    Bluetooth(Seq<char>),
    InvalidData,
    CrcMismatch,
    ModbusException(u8),
}

impl View for RenogyError {
    type V = RenogyErrorView;

    open spec fn view(&self) -> RenogyErrorView {
        match self {
            RenogyError::Bluetooth(s) => RenogyErrorView::Bluetooth(s@),
            RenogyError::InvalidData => RenogyErrorView::InvalidData,
            RenogyError::CrcMismatch => RenogyErrorView::CrcMismatch,
            RenogyError::ModbusException(c) => RenogyErrorView::ModbusException(*c),
        }
    }
}

/// Builds a [`RenogyError::Bluetooth`] from a message.
pub fn bluetooth_error(message: &str) -> (e: RenogyError)
    ensures
        e@ == RenogyErrorView::Bluetooth(message@),
{
    RenogyError::Bluetooth(String::from_str(message))
}

} // verus!
