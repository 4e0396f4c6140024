use renogymon::error::RenogyError;
use renogymon::pdu::{FunctionCode, Pdu};
use renogymon::transport::{
    custom_request, decode_holding_registers, read_holding_registers_request, reply_outcome,
    write_multiple_registers_request, write_single_register_request, ReplyEvent,
};

#[test]
fn read_request_payload() {
    let p = read_holding_registers_request(0x30, 5000, 17);
    assert_eq!(p.slave, 0x30);
    assert_eq!(p.function, FunctionCode::ReadHoldingRegisters);
    assert_eq!(p.payload, vec![0x13, 0x88, 0x00, 0x11]);
}

#[test]
fn write_single_payload() {
    let p = write_single_register_request(1, 0x0102, 0xABCD);
    assert_eq!(p.function, FunctionCode::WriteSingleRegister);
    assert_eq!(p.payload, vec![0x01, 0x02, 0xAB, 0xCD]);
}

#[test]
fn write_multiple_payload() {
    let p = write_multiple_registers_request(2, 0x1000, &[0x0001, 0xFFFE]);
    assert_eq!(p.function, FunctionCode::WriteMultipleRegisters);
    assert_eq!(p.payload, vec![0x10, 0x00, 0x00, 0x02, 0x04, 0x00, 0x01, 0xFF, 0xFE]);
}

#[test]
fn write_multiple_byte_count_wraps() {
    let values = vec![7u16; 130];
    let p = write_multiple_registers_request(1, 0, &values);
    assert_eq!(&p.payload[..5], &[0x00, 0x00, 0x00, 130, 4]);
    assert_eq!(p.payload.len(), 5 + 260);
}

#[test]
fn custom_request_known_and_unknown_codes() {
    let p = custom_request(9, 0x06, &[1, 2, 3]).unwrap();
    assert_eq!(p, Pdu::new(9, FunctionCode::WriteSingleRegister, vec![1, 2, 3]));
    assert_eq!(custom_request(9, 0x2B, &[1]), Err(RenogyError::InvalidData));
}

#[test]
fn decode_registers_reply() {
    let reply = Pdu::new(1, FunctionCode::ReadHoldingRegisters, vec![4, 0x00, 0x64, 0x00, 0xC8]);
    assert_eq!(decode_holding_registers(&reply, 2), Ok(vec![100, 200]));
    assert_eq!(decode_holding_registers(&reply, 1), Ok(vec![100]));
    assert_eq!(decode_holding_registers(&reply, 5), Ok(vec![100, 200]));
}

#[test]
fn decode_registers_ignores_odd_trailing_byte() {
    let reply = Pdu::new(1, FunctionCode::ReadHoldingRegisters, vec![3, 0x12, 0x34, 0x56]);
    assert_eq!(decode_holding_registers(&reply, 3), Ok(vec![0x1234]));
}

#[test]
fn decode_registers_rejects_bad_replies() {
    let empty = Pdu::new(1, FunctionCode::ReadHoldingRegisters, vec![]);
    assert_eq!(decode_holding_registers(&empty, 1), Err(RenogyError::InvalidData));
    let short = Pdu::new(1, FunctionCode::ReadHoldingRegisters, vec![4, 0x00, 0x64]);
    assert_eq!(decode_holding_registers(&short, 2), Err(RenogyError::InvalidData));
}

#[test]
fn reply_outcomes() {
    let frame = Pdu::new(1, FunctionCode::ReadHoldingRegisters, vec![2, 0, 7]).serialize();
    assert_eq!(
        reply_outcome(ReplyEvent::Received(frame)),
        Ok(Pdu::new(1, FunctionCode::ReadHoldingRegisters, vec![2, 0, 7]))
    );
    assert_eq!(
        reply_outcome(ReplyEvent::TimedOut),
        Err(RenogyError::Bluetooth("timeout waiting for response".to_string()))
    );
    assert_eq!(
        reply_outcome(ReplyEvent::ChannelClosed),
        Err(RenogyError::Bluetooth("notification channel closed".to_string()))
    );
}
