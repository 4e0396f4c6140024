use renogymon::error::RenogyError;
use renogymon::pdu::{crc16, FunctionCode, Pdu};

#[test]
fn crc16_check_value() {
    assert_eq!(crc16(b"123456789"), 0x4B37);
    assert_eq!(crc16(&[]), 0xFFFF);
}

#[test]
fn serialize_appends_crc_low_byte_first() {
    let pdu = Pdu::new(1, FunctionCode::ReadHoldingRegisters, vec![0x13, 0x88, 0x00, 0x11]);
    assert_eq!(pdu.serialize(), vec![0x01, 0x03, 0x13, 0x88, 0x00, 0x11, 0x01, 0x68]);
}

#[test]
fn deserialize_reply() {
    let frame = [0x01, 0x03, 0x04, 0x00, 0x64, 0x00, 0xC8, 0xBA, 0x7A];
    let pdu = Pdu::deserialize(&frame).unwrap();
    assert_eq!(pdu.slave, 1);
    assert_eq!(pdu.function, FunctionCode::ReadHoldingRegisters);
    assert_eq!(pdu.payload, vec![0x04, 0x00, 0x64, 0x00, 0xC8]);
}

#[test]
fn deserialize_roundtrip() {
    for function in [
        FunctionCode::ReadHoldingRegisters,
        FunctionCode::WriteSingleRegister,
        FunctionCode::WriteMultipleRegisters,
    ] {
        let pdu = Pdu::new(0x30, function, vec![9, 8, 7, 6, 5]);
        assert_eq!(Pdu::deserialize(&pdu.serialize()), Ok(pdu));
    }
    let empty = Pdu::new(0xFF, FunctionCode::WriteSingleRegister, vec![]);
    assert_eq!(Pdu::deserialize(&empty.serialize()), Ok(empty));
}

#[test]
fn deserialize_short_frame() {
    assert_eq!(Pdu::deserialize(&[0x01, 0x03, 0x00]), Err(RenogyError::InvalidData));
}

#[test]
fn deserialize_bad_crc() {
    let frame = [0x01, 0x03, 0x04, 0x00, 0x64, 0x00, 0xC8, 0xBA, 0x7B];
    assert_eq!(Pdu::deserialize(&frame), Err(RenogyError::CrcMismatch));
}

#[test]
fn deserialize_exception() {
    assert_eq!(
        Pdu::deserialize(&[0x01, 0x83, 0x02, 0xC0, 0xF1]),
        Err(RenogyError::ModbusException(0x02))
    );
}

#[test]
fn deserialize_unknown_function() {
    assert_eq!(Pdu::deserialize(&[0x01, 0x04, 0x00, 0x22, 0xC0]), Err(RenogyError::InvalidData));
}

#[test]
fn function_codes() {
    assert_eq!(FunctionCode::ReadHoldingRegisters.to_u8(), 0x03);
    assert_eq!(FunctionCode::WriteSingleRegister.to_u8(), 0x06);
    assert_eq!(FunctionCode::WriteMultipleRegisters.to_u8(), 0x10);
    assert_eq!(FunctionCode::from_u8(0x10), Some(FunctionCode::WriteMultipleRegisters));
    assert_eq!(FunctionCode::from_u8(0x04), None);
}
