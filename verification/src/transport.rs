//! The register operations of a Modbus transport: the requests they send and
//! what they make of the replies.

use vstd::prelude::*;
use crate::error::{RenogyError, RenogyErrorView};
use crate::pdu::{FunctionCode, Pdu, PduView, decode_frame, pdu_result_view};

verus! {

/// The big-endian bytes of a 16-bit value.
pub open spec fn be_bytes(v: u16) -> Seq<u8> {
    seq![(v / 256) as u8, (v % 256) as u8]
}

/// The 16-bit value of two big-endian bytes.
pub open spec fn be_value(hi: u8, lo: u8) -> u16 {
    (hi as int * 256 + lo as int) as u16
}

/// The big-endian bytes of a sequence of 16-bit values, one pair per value.
pub open spec fn registers_be(values: Seq<u16>) -> Seq<u8> {
    Seq::new(
        2 * values.len(),
        |i: int|
            if i % 2 == 0 {
                (values[i / 2] / 256) as u8
            } else {
                (values[i / 2] % 256) as u8
            },
    )
}

/// The payload of a "read holding registers" request.
pub open spec fn read_request_payload(addr: u16, quantity: u16) -> Seq<u8> {
    be_bytes(addr) + be_bytes(quantity)
}

/// The payload of a "write single register" request.
pub open spec fn write_single_payload(addr: u16, value: u16) -> Seq<u8> {
    be_bytes(addr) + be_bytes(value)
}

/// The payload of a "write multiple registers" request: start address, register
/// count (truncated to 16 bits), byte count (truncated to 8 bits), then the values.
pub open spec fn write_multiple_payload(addr: u16, values: Seq<u16>) -> Seq<u8> {
    be_bytes(addr) + be_bytes((values.len() % 65536) as u16) + seq![
        ((2 * values.len()) % 256) as u8,
    ] + registers_be(values)
}

/// The registers read from the payload of a "read holding registers" reply: the first
/// byte is a byte count that the payload must cover; then each complete pair of bytes
/// is one big-endian register, and at most `quantity` of them are taken.
pub open spec fn decode_registers(payload: Seq<u8>, quantity: u16) -> Result<
    Seq<u16>,
    RenogyErrorView,
> {
    if payload.len() == 0 {
        Err(RenogyErrorView::InvalidData)
    } else if payload.len() < 1 + payload[0] {
        Err(RenogyErrorView::InvalidData)
    } else {
        let pairs = (payload.len() - 1) / 2;
        let n = if (quantity as int) < pairs {
            quantity as int
        } else {
            pairs
        };
        Ok(Seq::new(n as nat, |i: int| be_value(payload[1 + 2 * i], payload[2 + 2 * i])))
    }
}

/// The abstract value of a register decoding result.
pub open spec fn registers_result_view(r: Result<Vec<u16>, RenogyError>) -> Result<
    Seq<u16>,
    RenogyErrorView,
> {
    match r {
        Ok(v) => Ok(v@),
        Err(e) => Err(e@),
    }
}

fn push_be(bytes: &mut Vec<u8>, v: u16)
    ensures
        final(bytes)@ == old(bytes)@ + be_bytes(v),
{
    bytes.push((v / 256) as u8);
    bytes.push((v % 256) as u8);
    assert(final(bytes)@ =~= old(bytes)@ + be_bytes(v));
}

/// The request that reads `quantity` holding registers starting at `addr`.
pub fn read_holding_registers_request(slave: u8, addr: u16, quantity: u16) -> (p: Pdu)
    ensures
        p@ == (PduView {
            slave,
            function: FunctionCode::ReadHoldingRegisters,
            payload: read_request_payload(addr, quantity),
        }),
{
    let mut payload: Vec<u8> = Vec::new();
    push_be(&mut payload, addr);
    push_be(&mut payload, quantity);
    assert(payload@ =~= read_request_payload(addr, quantity));
    Pdu::new(slave, FunctionCode::ReadHoldingRegisters, payload)
}

/// The request that writes `value` into the register at `addr`.
pub fn write_single_register_request(slave: u8, addr: u16, value: u16) -> (p: Pdu)
    ensures
        p@ == (PduView {
            slave,
            function: FunctionCode::WriteSingleRegister,
            payload: write_single_payload(addr, value),
        }),
{
    let mut payload: Vec<u8> = Vec::new();
    push_be(&mut payload, addr);
    push_be(&mut payload, value);
    assert(payload@ =~= write_single_payload(addr, value));
    Pdu::new(slave, FunctionCode::WriteSingleRegister, payload)
}

/// The request that writes `values` into consecutive registers starting at `addr`.
pub fn write_multiple_registers_request(slave: u8, addr: u16, values: &[u16]) -> (p: Pdu)
    ensures
        p@ == (PduView {
            slave,
            function: FunctionCode::WriteMultipleRegisters,
            payload: write_multiple_payload(addr, values@),
        }),
{
    let n = values.len();
    let mut payload: Vec<u8> = Vec::new();
    push_be(&mut payload, addr);
    push_be(&mut payload, (n % 65536) as u16);
    let count_byte: u8 = ((n % 128) * 2) as u8;
    assert(((n % 128) * 2) as int == (2 * n) % 256) by (nonlinear_arith);
    payload.push(count_byte);
    let ghost header = payload@;
    assert(header =~= be_bytes(addr) + be_bytes((n % 65536) as u16) + seq![
        ((2 * n) % 256) as u8,
    ]);
    let mut i: usize = 0;
    while i < n
        invariant
            i <= n,
            n == values@.len(),
            payload@ =~= header + registers_be(values@.take(i as int)),
        decreases n - i,
    {
        let v = values[i];
        push_be(&mut payload, v);
        proof {
            let prev = registers_be(values@.take(i as int));
            let next = registers_be(values@.take(i + 1));
            assert(next =~= prev + be_bytes(v)) by {
                assert forall|k: int| 0 <= k < next.len() implies next[k] == (prev + be_bytes(
                    v,
                ))[k] by {
                    if k < 2 * i {
                        assert(k / 2 < i);
                    } else {
                        assert(k / 2 == i);
                    }
                }
            }
        }
        i = i + 1;
    }
    assert(values@.take(n as int) =~= values@);
    Pdu::new(slave, FunctionCode::WriteMultipleRegisters, payload)
}

/// The request for an arbitrary function code; fails with `InvalidData` when the
/// code is not a known Modbus function.
pub fn custom_request(slave: u8, function_code: u8, data: &[u8]) -> (r: Result<Pdu, RenogyError>)
    ensures
        match FunctionCode::spec_from_code(function_code) {
            None => r matches Err(e) && e@ == RenogyErrorView::InvalidData,
            Some(f) => r matches Ok(p) && p@ == (PduView { slave, function: f, payload: data@ }),
        },
{
    match FunctionCode::from_u8(function_code) {
        None => Err(RenogyError::InvalidData),
        Some(f) => {
            let mut payload: Vec<u8> = Vec::new();
            let mut i: usize = 0;
            while i < data.len()
                invariant
                    i <= data@.len(),
                    payload@ =~= data@.take(i as int),
                decreases data@.len() - i,
            {
                payload.push(data[i]);
                i = i + 1;
            }
            assert(data@.take(data@.len() as int) =~= data@);
            Ok(Pdu::new(slave, f, payload))
        },
    }
}

/// The registers carried by the reply to a "read holding registers" request.
pub fn decode_holding_registers(response: &Pdu, quantity: u16) -> (r: Result<
    Vec<u16>,
    RenogyError,
>)
    ensures
        registers_result_view(r) == decode_registers(response.payload@, quantity),
{
    let payload = &response.payload;
    let len = payload.len();
    if len == 0 {
        return Err(RenogyError::InvalidData);
    }
    let byte_count = payload[0] as usize;
    if len < 1 + byte_count {
        return Err(RenogyError::InvalidData);
    }
    let pairs = (len - 1) / 2;
    let n = if (quantity as usize) < pairs {
        quantity as usize
    } else {
        pairs
    };
    let ghost expected = Seq::new(
        n as nat,
        |i: int| be_value(payload@[1 + 2 * i], payload@[2 + 2 * i]),
    );
    let mut out: Vec<u16> = Vec::new();
    let mut i: usize = 0;
    while i < n
        invariant
            i <= n,
            n <= pairs,
            pairs == (len - 1) / 2,
            len == payload@.len(),
            len >= 1,
            expected == Seq::new(
                n as nat,
                |i: int| be_value(payload@[1 + 2 * i], payload@[2 + 2 * i]),
            ),
            out@ =~= expected.take(i as int),
        decreases n - i,
    {
        let hi = payload[1 + 2 * i];
        let lo = payload[2 + 2 * i];
        out.push((hi as u16) * 256 + (lo as u16));
        i = i + 1;
    }
    assert(expected.take(n as int) =~= expected);
    Ok(out)
}

/// What became of the wait for a reply.
pub enum ReplyEvent {
    /// A notification arrived with these bytes.
    Received(Vec<u8>),
    /// No notification arrived before the timeout.
    TimedOut,
    /// The notification channel was closed.
    ChannelClosed,
}

/// The outcome of a request given what became of the wait for its reply: a received
/// frame is decoded; a timeout or a closed channel is a Bluetooth error.
pub fn reply_outcome(event: ReplyEvent) -> (r: Result<Pdu, RenogyError>)
    ensures
        match event {
            ReplyEvent::Received(bytes) => pdu_result_view(r) == decode_frame(bytes@),
            ReplyEvent::TimedOut => r matches Err(e) && e@ == RenogyErrorView::Bluetooth(
                "timeout waiting for response"@,
            ),
            ReplyEvent::ChannelClosed => r matches Err(e) && e@ == RenogyErrorView::Bluetooth(
                "notification channel closed"@,
            ),
        },
{
    match event {
        ReplyEvent::Received(bytes) => Pdu::deserialize(bytes.as_slice()),
        ReplyEvent::TimedOut => Err(crate::error::bluetooth_error("timeout waiting for response")),
        ReplyEvent::ChannelClosed => Err(
            crate::error::bluetooth_error("notification channel closed"),
        ),
    }
}

/// Decoding the reply payload of `values` — its byte count followed by the values in
/// big-endian order — with the number of values as quantity gives the values back.
pub proof fn lemma_decode_registers_roundtrip(values: Seq<u16>)
    requires
        values.len() <= 65535,
    ensures
        decode_registers(
            seq![((2 * values.len()) % 256) as u8] + registers_be(values),
            values.len() as u16,
        ) == Ok::<Seq<u16>, RenogyErrorView>(values),
{
    let payload = seq![((2 * values.len()) % 256) as u8] + registers_be(values);
    let n = values.len();
    assert(payload.len() == 1 + 2 * n);
    assert((payload.len() - 1) / 2 == n);
    let decoded = Seq::new(n, |i: int| be_value(payload[1 + 2 * i], payload[2 + 2 * i]));
    assert forall|i: int| 0 <= i < n implies decoded[i] == values[i] by {
        assert(payload[1 + 2 * i] == registers_be(values)[2 * i]);
        assert(payload[2 + 2 * i] == registers_be(values)[2 * i + 1]);
        assert((2 * i) / 2 == i);
        assert((2 * i + 1) / 2 == i);
        assert((2 * i) % 2 == 0);
        assert((2 * i + 1) % 2 == 1);
    }
    assert(decoded =~= values);
}

/// Decoding never yields more registers than were asked for.
pub proof fn lemma_decode_registers_bounded(payload: Seq<u8>, quantity: u16)
    ensures
        decode_registers(payload, quantity) matches Ok(v) ==> v.len() <= quantity,
{
}

} // verus!

verus! {

/// Each value is written as its own pair of bytes, high byte first.
pub proof fn lemma_registers_be_layout(values: Seq<u16>)
    ensures
        registers_be(values).len() == 2 * values.len(),
        forall|i: int|
            0 <= i < values.len() ==> registers_be(values)[2 * i] as int == #[trigger] values[i]
                / 256 && registers_be(values)[2 * i + 1] as int == values[i] % 256,
{
    assert forall|i: int| 0 <= i < values.len() implies registers_be(values)[2 * i] as int
        == #[trigger] values[i] / 256 && registers_be(values)[2 * i + 1] as int == values[i]
        % 256 by {
        assert((2 * i) / 2 == i && (2 * i) % 2 == 0);
        assert((2 * i + 1) / 2 == i && (2 * i + 1) % 2 == 1);
    }
}

/// A decoded register is the big-endian value of its own pair of bytes after the byte
/// count, and as many registers are decoded as were asked for and the payload holds.
pub proof fn lemma_decoded_registers_big_endian(payload: Seq<u8>, quantity: u16)
    ensures
        decode_registers(payload, quantity) is Ok <==> (payload.len() >= 1 && payload.len() >= 1
            + payload[0]),
        decode_registers(payload, quantity) matches Ok(v) ==> {
            &&& v.len() == if (quantity as int) < (payload.len() - 1) / 2 {
                quantity as int
            } else {
                (payload.len() - 1) / 2
            }
            &&& forall|i: int|
                0 <= i < v.len() ==> #[trigger] v[i] as int == payload[1 + 2 * i] as int * 256
                    + payload[2 + 2 * i] as int
        },
{
    if let Ok(v) = decode_registers(payload, quantity) {
        assert forall|i: int| 0 <= i < v.len() implies #[trigger] v[i] as int == payload[1 + 2
            * i] as int * 256 + payload[2 + 2 * i] as int by {
            let hi = payload[1 + 2 * i];
            let lo = payload[2 + 2 * i];
            assert(hi as int * 256 + lo as int <= 65535);
        }
    }
}

/// The "write multiple registers" payload: the start address and the register count
/// (truncated to 16 bits) high byte first, the byte count (twice the number of values,
/// truncated to 8 bits), then each value high byte first, in order.
pub proof fn lemma_write_multiple_payload_layout(addr: u16, values: Seq<u16>)
    ensures
        ({
            let p = write_multiple_payload(addr, values);
            let n = values.len();
            &&& p.len() == 5 + 2 * n
            &&& p[0] as int == addr / 256
            &&& p[1] as int == addr % 256
            &&& p[2] as int == (n % 65536) / 256
            &&& p[3] as int == (n % 65536) % 256
            &&& p[4] as int == (2 * n) % 256
            &&& forall|i: int|
                0 <= i < n ==> p[5 + 2 * i] as int == #[trigger] values[i] / 256 && p[6 + 2 * i]
                    as int == values[i] % 256
        }),
{
    lemma_registers_be_layout(values);
    let n = values.len();
    let count = (n % 65536) as u16;
    let head = be_bytes(addr) + be_bytes(count) + seq![((2 * n) % 256) as u8];
    let r = registers_be(values);
    let p = write_multiple_payload(addr, values);
    assert(p == head + r);
    assert(head.len() == 5);
    assert(head[0] == (addr / 256) as u8 && head[1] == (addr % 256) as u8);
    assert(head[2] == (count / 256) as u8 && head[3] == (count % 256) as u8);
    assert(count as int == n % 65536);
    assert forall|i: int| 0 <= i < n implies p[5 + 2 * i] as int == #[trigger] values[i] / 256
        && p[6 + 2 * i] as int == values[i] % 256 by {
        assert(p[5 + 2 * i] == r[2 * i]);
        assert(p[6 + 2 * i] == r[2 * i + 1]);
    }
}

/// The "read holding registers" and "write single register" payloads: two 16-bit
/// values, each high byte first.
pub proof fn lemma_two_value_payloads(a: u16, b: u16)
    ensures
        read_request_payload(a, b) == write_single_payload(a, b),
        read_request_payload(a, b).len() == 4,
        read_request_payload(a, b)[0] as int == a / 256,
        read_request_payload(a, b)[1] as int == a % 256,
        read_request_payload(a, b)[2] as int == b / 256,
        read_request_payload(a, b)[3] as int == b % 256,
{
}

/// Decoding the reply payload that carries a request's values gives those values back:
/// what "write multiple registers" writes, "read holding registers" reads.
pub proof fn lemma_written_values_read_back(addr: u16, values: Seq<u16>)
    requires
        values.len() <= 65535,
    ensures
        decode_registers(
            write_multiple_payload(addr, values).subrange(4, 5 + 2 * values.len() as int),
            values.len() as u16,
        ) == Ok::<Seq<u16>, RenogyErrorView>(values),
{
    let p = write_multiple_payload(addr, values);
    assert(p.subrange(4, 5 + 2 * values.len() as int) =~= seq![((2 * values.len()) % 256) as u8]
        + registers_be(values));
    lemma_decode_registers_roundtrip(values);
}

} // verus!
