//! The bridge's handling of one request: what to do on the bus, and the
//! response once the bus has answered.

use vstd::prelude::*;
use crate::bytes::{spec_u16_le, spec_u32_le};
use crate::usb_i2c::protocol::{
    general_error, spec_packet_error, spec_request_size, Packet, Request, CONFIGURE, GENERAL_ERROR, READ, WRITE,
    WRITE_READ,
};

verus! {

/// The 7-bit bus address in a request's address field.
pub fn i2c_address_from_protocol(proto: u16) -> (r: u8)
    ensures
        r == proto & 0x7F,
{
    assert(proto & 0x7F <= 0x7F) by (bit_vector);
    (proto & 0x7F) as u8
}

/// What the bridge does on the bus for a request.
#[derive(Debug, PartialEq, Eq)]
pub enum I2CAction<'a> {
    /// Set the bus frequency.
    Configure(u32),
    /// Write the bytes to the address.
    Write(u8, &'a [u8]),
    /// Read this many bytes from the address.
    Read(u8, usize),
    /// Write the bytes, then read this many, from the address.
    WriteRead(u8, &'a [u8], usize),
    /// Nothing; the reply, of this size, is already in the response buffer.
    Reply(usize),
}

/// Reads a request and says what to do on the bus; a request that cannot
/// be read, or is a response, is answered with the general error packet,
/// which carries the request's packet ID (0 when it has none).
pub fn plan_request<'a>(request: &'a [u8], response: &mut [u8]) -> (r: I2CAction<'a>)
    requires
        old(response)@.len() >= 2,
    ensures
        ({
            let s = request@;
            let p = s.skip(2);
            if spec_packet_error(s, spec_request_size(s[0])) is Some {
                r == I2CAction::Reply(2) && final(response)@ == old(response)@.update(0, GENERAL_ERROR).update(
                    1,
                    if s.len() >= 2 { s[1] } else { 0u8 },
                )
            } else {
                &&& final(response)@ == old(response)@
                &&& s[0] == CONFIGURE ==> r == I2CAction::Configure(spec_u32_le(p, 1))
                &&& s[0] == WRITE ==> (r matches I2CAction::Write(a, d) && a == spec_u16_le(p, 0) & 0x7F && d@ == p.skip(2))
                &&& s[0] == READ ==> r == I2CAction::Read((spec_u16_le(p, 0) & 0x7F) as u8, p[2] as usize)
                &&& s[0] == WRITE_READ ==> (r matches I2CAction::WriteRead(a, d, n) && a == spec_u16_le(p, 0) & 0x7F
                    && d@ == p.skip(3) && n == p[2])
            }
        }),
{
    match Packet::try_parse_request(request) {
        Ok(Packet::ConfigureRequest(req)) => I2CAction::Configure(req.get_freq_hz()),
        Ok(Packet::WriteRequest(req)) => I2CAction::Write(i2c_address_from_protocol(req.get_address()), req.get_data()),
        Ok(Packet::ReadRequest(req)) => I2CAction::Read(
            i2c_address_from_protocol(req.get_address()),
            req.get_len() as usize,
        ),
        Ok(Packet::WriteReadRequest(req)) => I2CAction::WriteRead(
            i2c_address_from_protocol(req.get_address()),
            req.get_write_data(),
            req.get_len() as usize,
        ),
        _ => {
            let id: u8 = if request.len() >= 2 { request[1] } else { 0 };
            I2CAction::Reply(general_error(response, id))
        },
    }
}

/// The result byte of a response: 0 when the bus operation succeeded;
/// otherwise 255 for a configure request and 1 for the others.
pub open spec fn spec_result_byte(packet_type: u8, ok: bool) -> u8 {
    if ok {
        0
    } else if packet_type == CONFIGURE {
        255
    } else {
        1
    }
}

/// Writes the response to a request whose bus operation has been done:
/// the request's type and id, the result, and `read_len` bytes read, which
/// must already be in place after the result byte.
pub fn finish_request(request: &Request, response: &mut [u8], ok: bool, read_len: usize) -> (r: usize)
    requires
        old(response)@.len() >= 3 + read_len,
    ensures
        r == 3 + read_len,
        final(response)@ == old(response)@.update(0, request.base.bytes()[0]).update(1, request.base.bytes()[1]).update(
            2,
            spec_result_byte(request.base.bytes()[0], ok),
        ),
{
    let _len = response.len();
    match request.try_alloc_response(response) {
        Ok(mut res) => {
            let t = request.base.get_type();
            let result: u8 = if ok {
                0
            } else if t == CONFIGURE {
                255
            } else {
                1
            };
            res.set_result(result);
            res.commit(read_len)
        },
        Err(_) => 0,
    }
}

} // verus!
