//! Modbus RTU protocol data units as carried over the BT-2 link:
//! a slave address, a function code, a payload and a trailing CRC-16.

use vstd::prelude::*;
use crate::error::{RenogyError, RenogyErrorView};

verus! {

/// The Modbus function codes used with a Renogy BMS.
#[derive(Clone, Copy, Debug, PartialEq, Eq, Structural)]
pub enum FunctionCode {
    /// Code 0x03.
    ReadHoldingRegisters,
    /// Code 0x06.
    WriteSingleRegister,
    /// Code 0x10.
    WriteMultipleRegisters,
}

impl FunctionCode {
    /// The byte that stands for this function on the wire.
    pub open spec fn spec_code(self) -> u8 {
        match self {
            FunctionCode::ReadHoldingRegisters => 0x03,
            FunctionCode::WriteSingleRegister => 0x06,
            FunctionCode::WriteMultipleRegisters => 0x10,
        }
    }

    /// The function that a byte stands for, if any.
    pub open spec fn spec_from_code(code: u8) -> Option<FunctionCode> {
        if code == 0x03 {
            Some(FunctionCode::ReadHoldingRegisters)
        } else if code == 0x06 {
            Some(FunctionCode::WriteSingleRegister)
        } else if code == 0x10 {
            Some(FunctionCode::WriteMultipleRegisters)
        } else {
            None
        }
    }

    /// Returns the byte that stands for this function on the wire.
    pub fn to_u8(self) -> (code: u8)
        ensures
            code == self.spec_code(),
    {
        match self {
            FunctionCode::ReadHoldingRegisters => 0x03,
            FunctionCode::WriteSingleRegister => 0x06,
            FunctionCode::WriteMultipleRegisters => 0x10,
        }
    }

    /// Returns the function that a byte stands for, or `None` for an unknown code.
    pub fn from_u8(code: u8) -> (f: Option<FunctionCode>)
        ensures
            f == Self::spec_from_code(code),
    {
        if code == 0x03 {
            Some(FunctionCode::ReadHoldingRegisters)
        } else if code == 0x06 {
            Some(FunctionCode::WriteSingleRegister)
        } else if code == 0x10 {
            Some(FunctionCode::WriteMultipleRegisters)
        } else {
            None
        }
    }
}

/// Decoding the byte of a function gives that function back, and every byte that
/// decodes to a function is that function's byte.
pub proof fn lemma_function_code_roundtrip(f: FunctionCode, code: u8)
    ensures
        FunctionCode::spec_from_code(f.spec_code()) == Some(f),
        FunctionCode::spec_from_code(code) == Some(f) ==> f.spec_code() == code,
        f.spec_code() < 0x80,
{
}

/// One shift step of the Modbus CRC-16 (reflected polynomial 0xA001).
pub open spec fn crc_shift(crc: u16) -> u16 {
    if crc & 1 == 1 {
        (crc >> 1u16) ^ 0xA001u16
    } else {
        crc >> 1u16
    }
}

/// `n` shift steps of the Modbus CRC-16.
pub open spec fn crc_shifts(crc: u16, n: nat) -> u16
    decreases n,
{
    if n == 0 {
        crc
    } else {
        crc_shift(crc_shifts(crc, (n - 1) as nat))
    }
}

/// The Modbus CRC-16 register after taking in one more byte.
pub open spec fn crc_add_byte(crc: u16, b: u8) -> u16 {
    crc_shifts(crc ^ (b as u16), 8)
}

/// The Modbus CRC-16 of a byte sequence (initial value 0xFFFF).
pub open spec fn spec_crc16(data: Seq<u8>) -> u16
    decreases data.len(),
{
    if data.len() == 0 {
        0xFFFFu16
    } else {
        crc_add_byte(spec_crc16(data.drop_last()), data.last())
    }
}

/// The abstract value of a [`Pdu`].
pub struct PduView {
    pub slave: u8,
    pub function: FunctionCode,
    pub payload: Seq<u8>,
}

/// A Modbus request or reply without its checksum.
#[derive(Debug, Clone, PartialEq, Eq)]
pub struct Pdu {
    pub slave: u8,
    pub function: FunctionCode,
    pub payload: Vec<u8>,
}

impl View for Pdu {
    type V = PduView;

    open spec fn view(&self) -> PduView {
        PduView { slave: self.slave, function: self.function, payload: self.payload@ }
    }
}

/// The bytes of a frame before its checksum: slave, function code, payload.
pub open spec fn frame_body(p: PduView) -> Seq<u8> {
    seq![p.slave, p.function.spec_code()] + p.payload
}

/// A byte sequence followed by its CRC-16, low byte first.
pub open spec fn with_crc(body: Seq<u8>) -> Seq<u8> {
    body + seq![(spec_crc16(body) % 256) as u8, (spec_crc16(body) / 256) as u8]
}

/// The wire form of a PDU.
pub open spec fn encode_frame(p: PduView) -> Seq<u8> {
    with_crc(frame_body(p))
}

/// Whether the last two bytes of a frame are the CRC-16 of the bytes before them.
pub open spec fn crc_matches(frame: Seq<u8>) -> bool {
    let body = frame.take(frame.len() - 2);
    &&& frame[frame.len() - 2] == (spec_crc16(body) % 256) as u8
    &&& frame[frame.len() - 1] == (spec_crc16(body) / 256) as u8
}

/// What a received frame decodes to.
pub open spec fn decode_frame(frame: Seq<u8>) -> Result<PduView, RenogyErrorView> {
    if frame.len() < 4 {
        Err(RenogyErrorView::InvalidData)
    } else if !crc_matches(frame) {
        Err(RenogyErrorView::CrcMismatch)
    } else if frame[1] >= 0x80 {
        if frame.len() >= 5 {
            Err(RenogyErrorView::ModbusException(frame[2]))
        } else {
            Err(RenogyErrorView::InvalidData)
        }
    } else {
        match FunctionCode::spec_from_code(frame[1]) {
            None => Err(RenogyErrorView::InvalidData),
            Some(f) => Ok(
                PduView { slave: frame[0], function: f, payload: frame.subrange(2, frame.len() - 2) },
            ),
        }
    }
}

/// The abstract value of a decoding result.
pub open spec fn pdu_result_view(r: Result<Pdu, RenogyError>) -> Result<PduView, RenogyErrorView> {
    match r {
        Ok(p) => Ok(p@),
        Err(e) => Err(e@),
    }
}

/// The CRC-16 of the first `n` bytes of `data`.
pub fn crc16_prefix(data: &[u8], n: usize) -> (crc: u16)
    requires
        n <= data@.len(),
    ensures
        crc == spec_crc16(data@.take(n as int)),
{
    let mut crc: u16 = 0xFFFF;
    let mut i: usize = 0;
    assert(data@.take(0) =~= Seq::<u8>::empty());
    while i < n
        invariant
            i <= n,
            n <= data@.len(),
            crc == spec_crc16(data@.take(i as int)),
        decreases n - i,
    {
        let mut c: u16 = crc ^ (data[i] as u16);
        let mut k: usize = 0;
        while k < 8
            invariant
                k <= 8,
                c == crc_shifts(crc ^ (data@[i as int] as u16), k as nat),
            decreases 8 - k,
        {
            if c & 1 == 1 {
                c = (c >> 1u16) ^ 0xA001u16;
            } else {
                c = c >> 1u16;
            }
            k = k + 1;
        }
        assert(data@.take(i + 1).drop_last() =~= data@.take(i as int));
        crc = c;
        i = i + 1;
    }
    crc
}

/// The Modbus CRC-16 of `data`.
pub fn crc16(data: &[u8]) -> (crc: u16)
    ensures
        crc == spec_crc16(data@),
{
    assert(data@.take(data@.len() as int) =~= data@);
    crc16_prefix(data, data.len())
}

impl Pdu {
    /// Builds a PDU from its parts.
    pub fn new(slave: u8, function: FunctionCode, payload: Vec<u8>) -> (p: Pdu)
        ensures
            p@ == (PduView { slave, function, payload: payload@ }),
    {
        Pdu { slave, function, payload }
    }

    /// The wire form: slave, function code, payload, then the CRC-16 low byte first.
    pub fn serialize(&self) -> (frame: Vec<u8>)
        ensures
            frame@ == encode_frame(self@),
    {
        let mut frame: Vec<u8> = Vec::new();
        frame.push(self.slave);
        frame.push(self.function.to_u8());
        let n = self.payload.len();
        let mut i: usize = 0;
        while i < n
            invariant
                i <= n,
                n == self.payload@.len(),
                frame@ =~= seq![self.slave, self.function.spec_code()] + self.payload@.take(i as int),
            decreases n - i,
        {
            frame.push(self.payload[i]);
            i = i + 1;
        }
        assert(self.payload@.take(n as int) =~= self.payload@);
        let crc = crc16(frame.as_slice());
        frame.push((crc % 256) as u8);
        frame.push((crc / 256) as u8);
        frame
    }

    /// Decodes a received frame.
    ///
    /// Fails with `InvalidData` when the frame is shorter than four bytes, with
    /// `CrcMismatch` when its checksum is wrong, with `ModbusException` when the
    /// device reports an exception, and with `InvalidData` for an unknown function.
    pub fn deserialize(frame: &[u8]) -> (r: Result<Pdu, RenogyError>)
        ensures
            pdu_result_view(r) == decode_frame(frame@),
    {
        let len = frame.len();
        if len < 4 {
            return Err(RenogyError::InvalidData);
        }
        let crc = crc16_prefix(frame, len - 2);
        if frame[len - 2] != (crc % 256) as u8 || frame[len - 1] != (crc / 256) as u8 {
            return Err(RenogyError::CrcMismatch);
        }
        if frame[1] >= 0x80 {
            if len >= 5 {
                return Err(RenogyError::ModbusException(frame[2]));
            } else {
                return Err(RenogyError::InvalidData);
            }
        }
        match FunctionCode::from_u8(frame[1]) {
            None => Err(RenogyError::InvalidData),
            Some(function) => {
                let mut payload: Vec<u8> = Vec::new();
                let mut i: usize = 2;
                while i < len - 2
                    invariant
                        2 <= i <= len - 2,
                        len == frame@.len(),
                        len >= 4,
                        payload@ =~= frame@.subrange(2, i as int),
                    decreases len - 2 - i,
                {
                    payload.push(frame[i]);
                    i = i + 1;
                }
                Ok(Pdu { slave: frame[0], function, payload })
            },
        }
    }
}

/// Decoding the wire form of a PDU gives the PDU back.
pub proof fn lemma_decode_encode(p: PduView)
    ensures
        decode_frame(encode_frame(p)) == Ok::<PduView, RenogyErrorView>(p),
{
    let body = frame_body(p);
    let frame = encode_frame(p);
    lemma_function_code_roundtrip(p.function, p.function.spec_code());
    assert(frame.take(frame.len() - 2) =~= body);
    assert(frame.subrange(2, frame.len() - 2) =~= p.payload);
    assert(frame[1] == p.function.spec_code());
}

} // verus!

verus! {

/// A frame decodes to a PDU only when it is exactly that PDU's wire form: its slave
/// byte, its function's byte and its payload, followed by both bytes of the CRC-16 of
/// those bytes, low byte first. A frame whose CRC bytes do not both match is refused.
pub proof fn lemma_decode_accepts_only_encoded(frame: Seq<u8>, p: PduView)
    requires
        decode_frame(frame) == Ok::<PduView, RenogyErrorView>(p),
    ensures
        frame == encode_frame(p),
        frame.len() == p.payload.len() + 4,
        frame[0] == p.slave,
        frame[1] == p.function.spec_code(),
        forall|i: int| 0 <= i < p.payload.len() ==> frame[2 + i] == #[trigger] p.payload[i],
        frame[frame.len() - 2] as int == spec_crc16(frame.take(frame.len() - 2)) % 256,
        frame[frame.len() - 1] as int == spec_crc16(frame.take(frame.len() - 2)) / 256,
{
    let body = frame.take(frame.len() - 2);
    lemma_function_code_roundtrip(p.function, frame[1]);
    assert(body =~= frame_body(p));
    assert(frame =~= encode_frame(p));
}

/// Decoding succeeds exactly on the wire forms of PDUs.
pub proof fn lemma_decode_ok_iff_encoded(frame: Seq<u8>, p: PduView)
    ensures
        decode_frame(frame) == Ok::<PduView, RenogyErrorView>(p) <==> frame == encode_frame(p),
{
    if frame == encode_frame(p) {
        lemma_decode_encode(p);
    }
    if decode_frame(frame) == Ok::<PduView, RenogyErrorView>(p) {
        lemma_decode_accepts_only_encoded(frame, p);
    }
}

} // verus!
