use vstd::prelude::*;
use vstd::slice::{slice_subrange, slice_to_vec};
use vstd::string::StringSliceAdditionalSpecFns;
use vstd::utf8::{
    decode_utf8, decode_utf8_encode_utf8, encode_utf8, encode_utf8_decode_utf8,
    encode_utf8_valid_utf8, valid_utf8,
};
use crate::error::ErrorKind;
use crate::frame::{
    frame_bytes, header_tag, same_tag, HeaderHeader, MAX_BODY_LEN, TAG_CON1, TAG_DATA, TAG_ERRM,
    TAG_OKAY,
};
use crate::reader::ByteReader;

verus! {

/// `String::from_utf8` of the standard library: it succeeds exactly on
/// well-formed UTF-8, and the string then holds the characters that the
/// bytes encode.
pub assume_specification[ String::from_utf8 ](vec: Vec<u8>) -> (r: Result<
    String,
    std::string::FromUtf8Error,
>)
    ensures
        r is Ok <==> valid_utf8(vec@),
        r matches Ok(s) ==> s@ == decode_utf8(vec@),
;

/// The error of `String::from_utf8`.
#[verifier::external_type_specification]
#[verifier::external_body]
pub struct ExFromUtf8Error(std::string::FromUtf8Error);

/// The four bytes of a `u32`, low byte first.
pub open spec fn le32_bytes(value: int) -> Seq<u8> {
    seq![
        (value % 256) as u8,
        ((value / 256) % 256) as u8,
        ((value / 65536) % 256) as u8,
        (value / 16777216) as u8,
    ]
}

/// The body of an `errm` frame: the code, the message's length in bytes,
/// the message.
pub open spec fn error_body(code: int, msg: Seq<char>) -> Seq<u8> {
    le32_bytes(code) + seq![encode_utf8(msg).len() as u8] + encode_utf8(msg)
}

/// The body of a `con1` frame: the protocol byte, the address's length in
/// bytes, the address.
pub open spec fn establish_body(protocol: u8, address_port: Seq<char>) -> Seq<u8> {
    seq![protocol, encode_utf8(address_port).len() as u8] + encode_utf8(address_port)
}

/// The bytes of the address in a `con1` body.
pub open spec fn establish_address_bytes(body: Seq<u8>) -> Seq<u8> {
    body.subrange(2, 2 + body[1] as int)
}

/// Whether a `con1` body has the required shape: a protocol byte, a length
/// byte, and at least that many bytes after them, which are UTF-8. Bytes
/// after the address are allowed.
pub open spec fn establish_well_formed(body: Seq<u8>) -> bool {
    &&& body.len() >= 2
    &&& body.len() >= 2 + body[1] as int
    &&& valid_utf8(establish_address_bytes(body))
}

/// Appends a `data` frame that carries `buf`. There is at least one byte
/// to carry: a `data` frame without a body is not to be sent.
pub fn write_data(writer: &mut Vec<u8>, buf: &[u8])
    requires
        0 < buf@.len() <= MAX_BODY_LEN,
    ensures
        final(writer)@ == old(writer)@ + frame_bytes(TAG_DATA@, buf@),
{
    HeaderHeader::data(buf.len()).write_all(writer);
    writer.extend_from_slice(buf);
    assert(writer@ =~= old(writer)@ + frame_bytes(TAG_DATA@, buf@));
}

/// Appends an `errm` frame with this code and message. The message is at
/// most 255 bytes long.
pub fn write_error(writer: &mut Vec<u8>, code: u32, msg: &str)
    requires
        msg.spec_bytes().len() <= 255,
    ensures
        final(writer)@ == old(writer)@ + frame_bytes(TAG_ERRM@, error_body(code as int, msg@)),
{
    let bytes = msg.as_bytes();
    let string_length = bytes.len() as u8;
    HeaderHeader::error(string_length).write_all(writer);
    writer.push((code % 256) as u8);
    writer.push(((code / 256) % 256) as u8);
    writer.push(((code / 65536) % 256) as u8);
    writer.push((code / 16777216) as u8);
    writer.push(string_length);
    writer.extend_from_slice(bytes);
    assert(writer@ =~= old(writer)@ + frame_bytes(TAG_ERRM@, error_body(code as int, msg@)));
}

/// A request to open a connection: the body of a `con1` frame.
#[derive(Debug, Clone)]
pub struct Establish {
    /// `t` for TCP; `u` is set aside for UDP.
    pub protocol: u8,
    /// The target as `host:port`, at most 255 bytes long.
    pub address_port: String,
}

impl Establish {
    /// Whether the address is one that a `con1` frame can hold: at most 255
    /// bytes. Every request that was read is so.
    pub open spec fn well_formed(&self) -> bool {
        encode_utf8(self.address_port@).len() <= 255
    }
}

/// The protocol byte for TCP.
pub const PROTOCOL_TCP: u8 = 0x74;

/// The protocol byte set aside for UDP.
pub const PROTOCOL_UDP: u8 = 0x75;

/// Appends a `con1` frame for this request. An address of more than 255
/// bytes cannot be encoded: the call fails and appends nothing.
pub fn write_establish(writer: &mut Vec<u8>, establish: &Establish) -> (r: Result<(), ErrorKind>)
    ensures
        match r {
            Ok(_) => establish.well_formed() && final(writer)@ == old(writer)@ + frame_bytes(
                TAG_CON1@,
                establish_body(establish.protocol, establish.address_port@),
            ),
            Err(e) => e == ErrorKind::Malformed && !establish.well_formed() && final(writer)@
                == old(writer)@,
        },
{
    let bytes = establish.address_port.as_str().as_bytes();
    if bytes.len() > 255 {
        return Err(ErrorKind::Malformed);
    }
    let addr_len = bytes.len() as u8;
    let header = HeaderHeader { four_cc: TAG_CON1, data_len: 1 + 1 + addr_len as u16 };
    header.write_all(writer);
    writer.push(establish.protocol);
    writer.push(addr_len);
    writer.extend_from_slice(bytes);
    assert(writer@ =~= old(writer)@ + frame_bytes(
        TAG_CON1@,
        establish_body(establish.protocol, establish.address_port@),
    ));
    Ok(())
}

/// Decodes the body of a `con1` frame. It fails with `Malformed` on fewer
/// than two bytes, on a length byte that announces more than what follows
/// it, and on an address that is not UTF-8.
pub fn parse_establish(buf: &[u8]) -> (r: Result<Establish, ErrorKind>)
    ensures
        match r {
            Ok(e) => establish_well_formed(buf@) && e.well_formed() && e.protocol == buf@[0]
                && e.address_port@ == decode_utf8(establish_address_bytes(buf@)),
            Err(e) => e == ErrorKind::Malformed && !establish_well_formed(buf@),
        },
{
    if buf.len() < 2 {
        return Err(ErrorKind::Malformed);
    }
    let protocol = buf[0];
    let name_length = buf[1] as usize;
    if buf.len() - 2 < name_length {
        return Err(ErrorKind::Malformed);
    }
    let name = slice_to_vec(slice_subrange(buf, 2, 2 + name_length));
    proof {
        if valid_utf8(name@) {
            decode_utf8_encode_utf8(name@);
        }
    }
    match String::from_utf8(name) {
        Ok(address_port) => Ok(Establish { protocol, address_port }),
        Err(_) => Err(ErrorKind::Malformed),
    }
}

/// Reads one header and accepts it if its tag is `okay`. The body length
/// that the header announces is not looked at and no body is read.
pub fn read_okay(reader: &mut ByteReader) -> (r: Result<(), ErrorKind>)
    ensures
        match r {
            Ok(_) => old(reader)@.len() >= 6 && header_tag(old(reader)@) == TAG_OKAY@
                && final(reader)@ == old(reader)@.skip(6),
            Err(e) => if old(reader)@.len() < 6 {
                e == ErrorKind::ShortRead && final(reader)@ == old(reader)@
            } else {
                e == ErrorKind::UnexpectedFrame && header_tag(old(reader)@) != TAG_OKAY@
                    && final(reader)@ == old(reader)@.skip(6)
            },
        },
{
    let resp = match HeaderHeader::from(reader) {
        Ok(h) => h,
        Err(e) => { return Err(e); },
    };
    if same_tag(&resp.four_cc, &TAG_OKAY) {
        Ok(())
    } else {
        Err(ErrorKind::UnexpectedFrame)
    }
}

/// A request that was written is read back as it was: the body that
/// `write_establish` gives for a protocol byte and an address of at most
/// 255 bytes is well formed, also with further bytes after it, and
/// `parse_establish` finds the same protocol byte and address in it.
pub proof fn lemma_establish_round_trip(protocol: u8, address_port: Seq<char>, extra: Seq<u8>)
    requires
        encode_utf8(address_port).len() <= 255,
    ensures
        establish_well_formed(establish_body(protocol, address_port) + extra),
        (establish_body(protocol, address_port) + extra)[0] == protocol,
        decode_utf8(establish_address_bytes(establish_body(protocol, address_port) + extra))
            == address_port,
{
    let body = establish_body(protocol, address_port) + extra;
    assert(establish_address_bytes(body) =~= encode_utf8(address_port));
    encode_utf8_valid_utf8(address_port);
    encode_utf8_decode_utf8(address_port);
}

} // verus!
