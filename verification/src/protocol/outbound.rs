//! The two commands that a client sends, and their encoding.
//!
//! A command is appended to a byte buffer through `byteorder`'s writing
//! methods. The contracts of those calls are stated in this module and are
//! not proved; everything that is said of the encoders rests on them.

use crate::protocol::wire::spec_kstring;
use crate::protocol::wire::spec_le_u16;
use crate::protocol::wire::spec_le_u32;
use crate::protocol::wire::u16_of_le;
use crate::protocol::wire::Failure;
use crate::protocol::PROTOCOL_VERSION;
use byteorder::LittleEndian;
use byteorder::WriteBytesExt;
use std::io::Write;
use vstd::prelude::*;
use vstd::string::StringSliceAdditionalSpecFns;
use vstd::utf8::encode_utf8;
use vstd::utf8::encode_utf8_decode_utf8;
use vstd::utf8::encode_utf8_valid_utf8;

verus! {

/// The error of the standard library's writers.
#[verifier::external_type_specification]
#[verifier::external_body]
pub struct ExIoError(std::io::Error);

/// The longest string, in bytes of UTF-8, that a length prefix can announce.
pub const MAX_STRING_BYTES: usize = 0xFFFF;

/// The two bytes of a 16-bit number, the low one first.
pub open spec fn u16_le_bytes(n: u16) -> Seq<u8> {
    seq![(n % 256) as u8, (n / 256) as u8]
}

/// The four bytes of a 32-bit number, the lowest first.
pub open spec fn u32_le_bytes(n: u32) -> Seq<u8> {
    seq![
        (n % 256) as u8,
        (n / 256 % 256) as u8,
        (n / 65536 % 256) as u8,
        (n / 16777216) as u8,
    ]
}

/// A string on the wire: the length of its UTF-8 bytes as a 16-bit number,
/// then the bytes.
pub open spec fn kstring_bytes(text: Seq<char>) -> Seq<u8> {
    u16_le_bytes(encode_utf8(text).len() as u16) + encode_utf8(text)
}

/// Whether a string is short enough for its length prefix.
pub open spec fn fits_prefix(text: Seq<char>) -> bool {
    encode_utf8(text).len() <= MAX_STRING_BYTES
}

/// A 16-bit number that was encoded decodes to itself, whatever follows it.
pub proof fn lemma_u16_round_trip(n: u16, trailing: Seq<u8>)
    ensures
        spec_le_u16(u16_le_bytes(n) + trailing) == Ok::<(Seq<u8>, u16), Failure>((trailing, n)),
{
    reveal(spec_le_u16);
    let s = u16_le_bytes(n) + trailing;
    assert(s.skip(2) =~= trailing);
}

/// A 32-bit number that was encoded decodes to itself, whatever follows it.
pub proof fn lemma_u32_round_trip(n: u32, trailing: Seq<u8>)
    ensures
        spec_le_u32(u32_le_bytes(n) + trailing) == Ok::<(Seq<u8>, u32), Failure>((trailing, n)),
{
    reveal(spec_le_u32);
    let s = u32_le_bytes(n) + trailing;
    assert(s.skip(4) =~= trailing);
}

/// A string that was encoded decodes to itself. Whatever follows the
/// encoding of a string that fits its length prefix, decoding yields the
/// string and leaves what follows untouched.
pub proof fn lemma_kstring_round_trip(text: Seq<char>, trailing: Seq<u8>)
    requires
        fits_prefix(text),
    ensures
        spec_kstring(kstring_bytes(text) + trailing) == Ok::<(Seq<u8>, Seq<char>), Failure>(
            (trailing, text),
        ),
{
    reveal(spec_kstring);
    reveal(spec_le_u16);
    let bytes = encode_utf8(text);
    let s = kstring_bytes(text) + trailing;
    let n: u16 = bytes.len() as u16;
    let body = s.skip(2);
    assert(body.take(n as int) =~= bytes);
    assert(body.skip(n as int) =~= trailing);
    encode_utf8_valid_utf8(text);
    encode_utf8_decode_utf8(text);
}

/// `Write::write_all` on a byte vector: the bytes are appended, and the
/// call cannot fail.
#[verifier::external_body]
fn write_all(writer: &mut Vec<u8>, bytes: &[u8]) -> (r: std::io::Result<()>)
    ensures
        r is Ok,
        final(writer)@ == old(writer)@ + bytes@,
{
    writer.write_all(bytes)
}

/// `WriteBytesExt::write_u8` on a byte vector: the byte is appended.
#[verifier::external_body]
fn write_u8(writer: &mut Vec<u8>, n: u8) -> (r: std::io::Result<()>)
    ensures
        r is Ok,
        final(writer)@ == old(writer)@.push(n),
{
    writer.write_u8(n)
}

/// `WriteBytesExt::write_u16::<LittleEndian>` on a byte vector: the two
/// bytes of the number are appended, the low one first.
#[verifier::external_body]
fn write_u16_le(writer: &mut Vec<u8>, n: u16) -> (r: std::io::Result<()>)
    ensures
        r is Ok,
        final(writer)@ == old(writer)@ + u16_le_bytes(n),
{
    writer.write_u16::<LittleEndian>(n)
}

/// `WriteBytesExt::write_u32::<LittleEndian>` on a byte vector: the four
/// bytes of the number are appended, the lowest first.
#[verifier::external_body]
fn write_u32_le(writer: &mut Vec<u8>, n: u32) -> (r: std::io::Result<()>)
    ensures
        r is Ok,
        final(writer)@ == old(writer)@ + u32_le_bytes(n),
{
    writer.write_u32::<LittleEndian>(n)
}

/// Appends a string with its length prefix.
fn write_kstring(string: &str, writer: &mut Vec<u8>) -> (r: std::io::Result<()>)
    requires
        fits_prefix(string@),
    ensures
        r is Ok,
        final(writer)@ == old(writer)@ + kstring_bytes(string@),
{
    let bytes = string.as_bytes();
    write_u16_le(writer, bytes.len() as u16)?;
    write_all(writer, bytes)
}

/// A command that can be encoded into a writer of type `W`.
pub trait OutboundMessage<W>: Sized {
    /// What the writer has taken so far.
    spec fn written(writer: &W) -> Seq<u8>;

    /// The bytes of the command.
    spec fn wire(&self) -> Seq<u8>;

    /// Whether the command can be encoded at all: each of its strings must
    /// be short enough for its length prefix.
    spec fn encodable(&self) -> bool;

    /// Whether the command can be encoded: `encode` asks for it.
    fn is_encodable(&self) -> (fits: bool)
        ensures
            fits == self.encodable(),
    ;

    /// Appends the bytes of the command to what the writer holds. An error
    /// of the writer is handed on.
    fn encode(self, writer: &mut W) -> (r: std::io::Result<()>)
        requires
            self.encodable(),
        ensures
            r is Ok ==> Self::written(final(writer)) == Self::written(old(writer)) + self.wire(),
    ;
}

/// The request to be sent updates.
#[derive(Debug, Clone)]
pub struct RegistrationRequest<'a> {
    version: u8,
    username: &'a str,
    password: &'a str,
    interval: u32,
    command_password: &'a str,
}

/// The mathematical value of a [`RegistrationRequest`].
pub struct RegistrationRequestView {
    pub version: u8,
    pub username: Seq<char>,
    pub password: Seq<char>,
    pub interval: u32,
    pub command_password: Seq<char>,
}

/// The bytes of a registration request: tag 1, the version, the user name,
/// the password, the update interval and the command password.
pub open spec fn registration_request_bytes(request: RegistrationRequestView) -> Seq<u8> {
    seq![0x01u8, request.version] + kstring_bytes(request.username) + kstring_bytes(
        request.password,
    ) + u32_le_bytes(request.interval) + kstring_bytes(request.command_password)
}

impl<'a> View for RegistrationRequest<'a> {
    type V = RegistrationRequestView;

    closed spec fn view(&self) -> RegistrationRequestView {
        RegistrationRequestView {
            version: self.version,
            username: self.username@,
            password: self.password@,
            interval: self.interval,
            command_password: self.command_password@,
        }
    }
}

impl<'a> RegistrationRequest<'a> {
    /// A request in the name of `username`, for updates every `interval`
    /// milliseconds. It announces [`PROTOCOL_VERSION`].
    pub fn new(
        username: &'a str,
        password: &'a str,
        interval: u32,
        command_password: &'a str,
    ) -> (request: Self)
        ensures
            request@ == (RegistrationRequestView {
                version: PROTOCOL_VERSION,
                username: username@,
                password: password@,
                interval,
                command_password: command_password@,
            }),
    {
        Self { version: PROTOCOL_VERSION, username, password, interval, command_password }
    }
}

impl<'a> OutboundMessage<Vec<u8>> for RegistrationRequest<'a> {
    open spec fn written(writer: &Vec<u8>) -> Seq<u8> {
        writer@
    }

    open spec fn wire(&self) -> Seq<u8> {
        registration_request_bytes(self@)
    }

    open spec fn encodable(&self) -> bool {
        &&& fits_prefix(self@.username)
        &&& fits_prefix(self@.password)
        &&& fits_prefix(self@.command_password)
    }

    fn is_encodable(&self) -> (fits: bool) {
        self.username.as_bytes().len() <= MAX_STRING_BYTES && self.password.as_bytes().len()
            <= MAX_STRING_BYTES && self.command_password.as_bytes().len() <= MAX_STRING_BYTES
    }

    /// Appends the request to the buffer. This cannot fail.
    fn encode(self, writer: &mut Vec<u8>) -> (r: std::io::Result<()>)
        ensures
            r is Ok,
            final(writer)@ == old(writer)@ + registration_request_bytes(self@),
    {
        let tag: [u8; 1] = [0x01];
        write_all(writer, tag.as_slice())?;
        write_u8(writer, self.version)?;
        write_kstring(self.username, writer)?;
        write_kstring(self.password, writer)?;
        write_u32_le(writer, self.interval)?;
        write_kstring(self.command_password, writer)
    }
}

/// The request to be sent no more updates.
#[derive(Debug, Clone)]
pub struct UnregisterRequest {
    connection_id: u32,
}

/// The bytes of an unregister request: tag 9 and the connection id.
pub open spec fn unregister_request_bytes(connection_id: u32) -> Seq<u8> {
    seq![0x09u8] + u32_le_bytes(connection_id)
}

impl View for UnregisterRequest {
    type V = u32;

    closed spec fn view(&self) -> u32 {
        self.connection_id
    }
}

impl UnregisterRequest {
    /// A request to end the connection with the id `connection_id`.
    pub fn new(connection_id: u32) -> (request: Self)
        ensures
            request@ == connection_id,
    {
        Self { connection_id }
    }
}

impl OutboundMessage<Vec<u8>> for UnregisterRequest {
    open spec fn written(writer: &Vec<u8>) -> Seq<u8> {
        writer@
    }

    open spec fn wire(&self) -> Seq<u8> {
        unregister_request_bytes(self@)
    }

    open spec fn encodable(&self) -> bool {
        true
    }

    fn is_encodable(&self) -> (fits: bool) {
        true
    }

    /// Appends the request to the buffer. This cannot fail.
    fn encode(self, writer: &mut Vec<u8>) -> (r: std::io::Result<()>)
        ensures
            r is Ok,
            final(writer)@ == old(writer)@ + unregister_request_bytes(self@),
    {
        let tag: [u8; 1] = [0x09];
        write_all(writer, tag.as_slice())?;
        write_u32_le(writer, self.connection_id)
    }
}

} // verus!
