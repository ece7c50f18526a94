//! The message envelope: a 24-byte header and the payload it frames.
//!
//! Layout of the header, in bytes: magic (4), command name padded with NUL to
//! twelve bytes, payload length (4, little-endian), checksum (4). The payload
//! follows.

use crate::checksum::{checksum4, spec_checksum4, spec_verify, verify};
use crate::endian::{
    get_u32_le, lemma_u32_round_trip, put_bytes, put_u32_le, spec_u32_from_le, spec_u32_le,
};
use crate::error::{DecodingError, EncodingError};
use crate::text::{
    ascii_string, lemma_ascii_encoding, spec_all_ascii, spec_ascii_bytes, spec_ascii_chars,
};
use vstd::prelude::*;
use vstd::slice::slice_subrange;
use vstd::utf8::is_ascii_chars;

verus! {

/// Bytes of the magic.
pub const MAGIC_LEN: usize = 4;

/// Bytes of the command field.
pub const COMMAND_LEN: usize = 12;

/// Bytes of the header.
pub const HEADER_LEN: usize = 24;

/// The parsed header of an envelope.
#[derive(Clone, Debug, PartialEq, Eq)]
pub struct EnvelopeHeader {
    /// The network identifier.
    pub magic: [u8; 4],
    /// The command name, without its padding.
    pub command: String,
    /// The declared length of the payload.
    pub length: u32,
    /// The claimed checksum of the payload.
    pub checksum: [u8; 4],
}

/// What a header says.
pub struct HeaderView {
    pub magic: Seq<u8>,
    pub command: Seq<char>,
    pub length: u32,
    pub checksum: Seq<u8>,
}

impl View for EnvelopeHeader {
    type V = HeaderView;

    open spec fn view(&self) -> HeaderView {
        HeaderView {
            magic: self.magic@,
            command: self.command@,
            length: self.length,
            checksum: self.checksum@,
        }
    }
}

/// A header together with its payload.
#[derive(Clone, Debug, PartialEq, Eq)]
pub struct MessageEnvelope {
    pub header: EnvelopeHeader,
    pub payload: Vec<u8>,
}

/// What an envelope says.
pub struct EnvelopeView {
    pub header: HeaderView,
    pub payload: Seq<u8>,
}

impl View for MessageEnvelope {
    type V = EnvelopeView;

    open spec fn view(&self) -> EnvelopeView {
        EnvelopeView { header: self.header@, payload: self.payload@ }
    }
}

impl EnvelopeView {
    /// The header's length and checksum are those of the payload.
    pub open spec fn intact(self) -> bool {
        &&& self.header.length == self.payload.len()
        &&& self.header.checksum == spec_checksum4(self.payload)
    }
}

impl MessageEnvelope {
    /// The header's length and checksum are those of the payload.
    pub open spec fn wf(&self) -> bool {
        self@.intact()
    }
}

/// Number of bytes before the first NUL of a command field.
pub open spec fn spec_name_len(field: Seq<u8>) -> nat
    decreases field.len(),
{
    if field.len() == 0 || field[0] == 0 {
        0
    } else {
        1 + spec_name_len(field.drop_first())
    }
}

/// Whether a command field is an ASCII name followed by nothing but NUL.
pub open spec fn spec_field_ok(field: Seq<u8>) -> bool {
    let k = spec_name_len(field) as int;
    &&& spec_all_ascii(field.subrange(0, k))
    &&& forall|i: int| k <= i < field.len() ==> #[trigger] field[i] == 0
}

/// The name in a command field: the characters before the first NUL.
pub open spec fn spec_field_name(field: Seq<u8>) -> Seq<char> {
    spec_ascii_chars(field.subrange(0, spec_name_len(field) as int))
}

/// The twelve bytes of a command field: the name's codes, then NUL.
pub open spec fn spec_command_field(name: Seq<char>) -> Seq<u8> {
    Seq::new(
        COMMAND_LEN as nat,
        |i: int|
            if i < name.len() {
                name[i] as u8
            } else {
                0u8
            },
    )
}

/// Why a command and a payload cannot be framed, if they cannot.
pub open spec fn spec_envelope_error(name: Seq<char>, payload: Seq<u8>) -> Option<EncodingError> {
    if !is_ascii_chars(name) {
        Some(EncodingError::CommandNotAscii)
    } else if name.len() > COMMAND_LEN {
        Some(EncodingError::CommandTooLong)
    } else if payload.len() > u32::MAX {
        Some(EncodingError::PayloadTooLong)
    } else {
        None
    }
}

/// The 24 bytes of the header that frames `payload`.
pub open spec fn spec_encode_header(magic: Seq<u8>, name: Seq<char>, payload: Seq<u8>) -> Seq<u8> {
    magic + spec_command_field(name) + spec_u32_le(payload.len() as u32) + spec_checksum4(payload)
}

/// The bytes of a whole envelope: header, then payload.
pub open spec fn spec_encode_envelope(magic: Seq<u8>, name: Seq<char>, payload: Seq<u8>) -> Seq<
    u8,
> {
    spec_encode_header(magic, name, payload) + payload
}

/// What the first 24 bytes of `b` parse to on the network with the given magic.
pub open spec fn spec_decode_header(b: Seq<u8>, network_magic: Seq<u8>) -> Result<
    HeaderView,
    DecodingError,
> {
    if b.len() < HEADER_LEN {
        Err(DecodingError::Truncated)
    } else if b.subrange(0, 4) != network_magic {
        Err(DecodingError::BadMagic)
    } else if !spec_field_ok(b.subrange(4, 16)) {
        Err(DecodingError::BadCommand)
    } else {
        Ok(
            HeaderView {
                magic: b.subrange(0, 4),
                command: spec_field_name(b.subrange(4, 16)),
                length: spec_u32_from_le(b.subrange(16, 20)),
                checksum: b.subrange(20, 24),
            },
        )
    }
}

/// The result of parsing a header, with the header replaced by what it says.
pub open spec fn spec_header_view(r: Result<EnvelopeHeader, DecodingError>) -> Result<
    HeaderView,
    DecodingError,
> {
    match r {
        Ok(h) => Ok(h@),
        Err(e) => Err(e),
    }
}

/// Whether `message` holds a header, the payload that the header declares, and
/// the checksum of that payload. Magic and command are not looked at.
pub open spec fn spec_validate_message(message: Seq<u8>) -> bool {
    &&& message.len() >= HEADER_LEN
    &&& HEADER_LEN + spec_u32_from_le(message.subrange(16, 20)) <= message.len()
    &&& spec_verify(
        message.subrange(
            HEADER_LEN as int,
            HEADER_LEN + spec_u32_from_le(message.subrange(16, 20)),
        ),
        message.subrange(20, 24),
    )
}

/// The name ends at `k` if no byte before `k` is NUL and `k` is the end of the
/// field or holds NUL.
pub proof fn lemma_name_len(field: Seq<u8>, k: int)
    requires
        0 <= k <= field.len(),
        forall|j: int| 0 <= j < k ==> field[j] != 0,
        k == field.len() || field[k] == 0,
    ensures
        spec_name_len(field) == k,
    decreases k,
{
    if k > 0 {
        let rest = field.drop_first();
        assert(field[0] != 0);
        assert forall|j: int| 0 <= j < k - 1 implies rest[j] != 0 by {
            assert(rest[j] == field[j + 1]);
        }
        lemma_name_len(rest, k - 1);
    }
}

/// The name in a field ends within the field, before the first NUL.
pub proof fn lemma_name_len_bounds(field: Seq<u8>)
    ensures
        spec_name_len(field) <= field.len(),
        forall|j: int| 0 <= j < spec_name_len(field) ==> field[j] != 0,
        spec_name_len(field) < field.len() ==> field[spec_name_len(field) as int] == 0,
    decreases field.len(),
{
    if field.len() > 0 && field[0] != 0 {
        let rest = field.drop_first();
        lemma_name_len_bounds(rest);
        assert forall|j: int| 0 <= j < spec_name_len(field) implies field[j] != 0 by {
            if j > 0 {
                assert(rest[j - 1] == field[j]);
            }
        }
        if spec_name_len(field) < field.len() {
            assert(rest[spec_name_len(rest) as int] == field[spec_name_len(field) as int]);
        }
    }
}

/// Every character after a NUL is NUL: the name may end in NULs but holds
/// none before another character.
pub open spec fn spec_nul_only_at_end(name: Seq<char>) -> bool {
    forall|i: int, j: int|
        0 <= i < j < name.len() && #[trigger] name[i] == '\0' ==> #[trigger] name[j] == '\0'
}

/// Whether no character of the name is NUL.
pub open spec fn spec_no_nul(name: Seq<char>) -> bool {
    forall|i: int| 0 <= i < name.len() ==> #[trigger] name[i] != '\0'
}

/// The field of an ASCII name of at most twelve characters parses, provided
/// that the name holds no NUL before another character; a name without NUL
/// comes back unchanged.
pub proof fn lemma_command_field(name: Seq<char>)
    requires
        is_ascii_chars(name),
        name.len() <= COMMAND_LEN,
        spec_nul_only_at_end(name),
    ensures
        spec_command_field(name).len() == COMMAND_LEN,
        spec_field_ok(spec_command_field(name)),
        spec_no_nul(name) ==> spec_field_name(spec_command_field(name)) == name,
{
    let field = spec_command_field(name);
    let m = spec_name_len(field) as int;
    lemma_name_len_bounds(field);
    lemma_ascii_encoding(name);
    assert forall|j: int| 0 <= j < m implies #[trigger] field.subrange(0, m)[j] < 0x80 by {
        assert(field[j] != 0);
        assert(j < name.len());
        assert(field[j] == spec_ascii_bytes(name)[j]);
    }
    assert forall|i: int| m <= i < field.len() implies #[trigger] field[i] == 0 by {
        if i < name.len() {
            assert(field[m] == 0);
            assert(name[m] == '\0');
            if m < i {
                assert(name[i] == '\0');
            }
        }
    }
    if spec_no_nul(name) {
        assert forall|j: int| 0 <= j < name.len() implies field[j] != 0 by {
            assert(name[j] != '\0');
        }
        lemma_name_len(field, name.len() as int);
        assert(field.subrange(0, m) =~= spec_ascii_bytes(name));
    }
}

/// An envelope that was built reads back: its header parses to the command,
/// the length and the checksum of the payload, the bytes after the header are
/// the payload, and the payload verifies against the checksum in the header.
/// The command must hold no NUL before another character: the field of
/// such a name does not parse.
pub proof fn lemma_envelope_integrity(magic: Seq<u8>, name: Seq<char>, payload: Seq<u8>)
    requires
        magic.len() == MAGIC_LEN,
        spec_envelope_error(name, payload) is None,
        spec_nul_only_at_end(name),
    ensures
        spec_encode_envelope(magic, name, payload).len() == HEADER_LEN + payload.len(),
        spec_decode_header(spec_encode_envelope(magic, name, payload), magic) == Ok::<
            HeaderView,
            DecodingError,
        >(
            HeaderView {
                magic: magic,
                command: spec_field_name(spec_command_field(name)),
                length: payload.len() as u32,
                checksum: spec_checksum4(payload),
            },
        ),
        spec_no_nul(name) ==> spec_field_name(spec_command_field(name)) == name,
        spec_encode_envelope(magic, name, payload).subrange(
            HEADER_LEN as int,
            HEADER_LEN + payload.len(),
        ) == payload,
        spec_verify(payload, spec_checksum4(payload)),
        spec_validate_message(spec_encode_envelope(magic, name, payload)),
{
    let b = spec_encode_envelope(magic, name, payload);
    let field = spec_command_field(name);
    let length = payload.len() as u32;
    lemma_command_field(name);
    lemma_u32_round_trip(length);
    assert(spec_checksum4(payload).len() == 4);
    assert(b.subrange(0, 4) =~= magic);
    assert(b.subrange(4, 16) =~= field);
    assert(b.subrange(16, 20) =~= spec_u32_le(length));
    assert(b.subrange(20, 24) =~= spec_checksum4(payload));
    assert(b.subrange(HEADER_LEN as int, HEADER_LEN + payload.len()) =~= payload);
}

/// A header whose magic is not that of the configured network is rejected
/// as `BadMagic`, whatever follows the magic.
pub proof fn lemma_foreign_magic_rejected(bytes: Seq<u8>, network_magic: Seq<u8>)
    requires
        bytes.len() >= HEADER_LEN,
        bytes.subrange(0, 4) != network_magic,
    ensures
        spec_decode_header(bytes, network_magic) == Err::<HeaderView, DecodingError>(
            DecodingError::BadMagic,
        ),
{
}

/// An envelope built for one network is rejected on every other, though its
/// command, length, checksum and payload are in order.
pub proof fn lemma_foreign_envelope_rejected(
    magic: Seq<u8>,
    other_magic: Seq<u8>,
    name: Seq<char>,
    payload: Seq<u8>,
)
    requires
        magic.len() == MAGIC_LEN,
        other_magic.len() == MAGIC_LEN,
        magic != other_magic,
    ensures
        spec_decode_header(spec_encode_envelope(other_magic, name, payload), magic) == Err::<
            HeaderView,
            DecodingError,
        >(DecodingError::BadMagic),
{
    let b = spec_encode_envelope(other_magic, name, payload);
    assert(spec_checksum4(payload).len() == 4);
    assert(b.subrange(0, 4) =~= other_magic);
}

/// Builds the header and the payload into one message. The checksum is
/// computed here. Fails if the command is not ASCII, is longer than twelve
/// bytes, or if the payload's length does not fit in four bytes.
pub fn encode_envelope(network_magic: [u8; 4], command: &str, payload: &[u8]) -> (r: Result<
    Vec<u8>,
    EncodingError,
>)
    ensures
        match spec_envelope_error(command@, payload@) {
            Some(e) => r == Err::<Vec<u8>, EncodingError>(e),
            None => r is Ok && r->Ok_0@ == spec_encode_envelope(
                network_magic@,
                command@,
                payload@,
            ),
        },
{
    if !command.is_ascii() {
        return Err(EncodingError::CommandNotAscii);
    }
    let name: &[u8] = command.as_bytes();
    proof {
        lemma_ascii_encoding(command@);
    }
    if name.len() > COMMAND_LEN {
        return Err(EncodingError::CommandTooLong);
    }
    if payload.len() > u32::MAX as usize {
        return Err(EncodingError::PayloadTooLong);
    }
    let sum: [u8; 4] = checksum4(payload);
    let mut out: Vec<u8> = Vec::new();
    put_bytes(&mut out, network_magic.as_slice());
    put_bytes(&mut out, name);
    let mut i: usize = name.len();
    while i < COMMAND_LEN
        invariant
            name@.len() <= i <= COMMAND_LEN,
            name@ == spec_ascii_bytes(command@),
            out@ == network_magic@ + spec_command_field(command@).subrange(0, i as int),
        decreases COMMAND_LEN - i,
    {
        out.push(0u8);
        i += 1;
        assert(out@ =~= network_magic@ + spec_command_field(command@).subrange(0, i as int));
    }
    assert(out@ =~= network_magic@ + spec_command_field(command@));
    put_u32_le(&mut out, payload.len() as u32);
    put_bytes(&mut out, sum.as_slice());
    put_bytes(&mut out, payload);
    Ok(out)
}

/// Parses the header in the first 24 bytes of `bytes`: `Truncated` if there
/// are fewer, `BadMagic` if the magic is not `network_magic`, `BadCommand` if
/// the command field is not a NUL-padded ASCII name.
pub fn decode_envelope_header(bytes: &[u8], network_magic: [u8; 4]) -> (r: Result<
    EnvelopeHeader,
    DecodingError,
>)
    ensures
        spec_header_view(r) == spec_decode_header(bytes@, network_magic@),
{
    if bytes.len() < HEADER_LEN {
        return Err(DecodingError::Truncated);
    }
    let ghost magic_field = bytes@.subrange(0, 4);
    let ghost field = bytes@.subrange(4, 16);
    if bytes[0] != network_magic[0] || bytes[1] != network_magic[1] || bytes[2] != network_magic[2]
        || bytes[3] != network_magic[3] {
        proof {
            assert(magic_field[0] == bytes@[0] && magic_field[1] == bytes@[1] && magic_field[2]
                == bytes@[2] && magic_field[3] == bytes@[3]);
        }
        return Err(DecodingError::BadMagic);
    }
    assert(magic_field =~= network_magic@);
    let mut k: usize = 0;
    while k < COMMAND_LEN && bytes[4 + k] != 0
        invariant
            k <= COMMAND_LEN,
            bytes@.len() >= HEADER_LEN,
            field == bytes@.subrange(4, 16),
            forall|j: int| 0 <= j < k ==> field[j] != 0,
        decreases COMMAND_LEN - k,
    {
        k += 1;
    }
    proof {
        lemma_name_len(field, k as int);
    }
    let mut name: Vec<u8> = Vec::new();
    let mut i: usize = 0;
    while i < k
        invariant
            i <= k <= COMMAND_LEN,
            bytes@.len() >= HEADER_LEN,
            field == bytes@.subrange(4, 16),
            spec_name_len(field) == k,
            bytes@.subrange(0, 4) == network_magic@,
            name@ == field.subrange(0, i as int),
            spec_all_ascii(name@),
        decreases k - i,
    {
        let b: u8 = bytes[4 + i];
        if b >= 0x80 {
            proof {
                assert(field.subrange(0, k as int)[i as int] == b);
                assert(!spec_all_ascii(field.subrange(0, k as int)));
            }
            return Err(DecodingError::BadCommand);
        }
        name.push(b);
        i += 1;
        assert(name@ =~= field.subrange(0, i as int));
    }
    let mut j: usize = k;
    while j < COMMAND_LEN
        invariant
            k <= j <= COMMAND_LEN,
            bytes@.len() >= HEADER_LEN,
            field == bytes@.subrange(4, 16),
            spec_name_len(field) == k,
            bytes@.subrange(0, 4) == network_magic@,
            forall|t: int| k <= t < j ==> field[t] == 0,
        decreases COMMAND_LEN - j,
    {
        if bytes[4 + j] != 0 {
            proof {
                assert(field[j as int] != 0);
            }
            return Err(DecodingError::BadCommand);
        }
        j += 1;
    }
    let command: String = ascii_string(name);
    let length: u32 = get_u32_le(bytes, 16);
    let checksum: [u8; 4] = [bytes[20], bytes[21], bytes[22], bytes[23]];
    assert(checksum@ =~= bytes@.subrange(20, 24));
    Ok(EnvelopeHeader { magic: network_magic, command, length, checksum })
}

/// Whether `message` is a header followed by the payload it declares, with
/// the checksum of that payload in the header. A message too short for its
/// header or for its declared payload is not valid.
pub fn validate_message(message: &[u8]) -> (ok: bool)
    ensures
        ok == spec_validate_message(message@),
{
    if message.len() < HEADER_LEN {
        return false;
    }
    let length: u32 = get_u32_le(message, 16);
    if message.len() - HEADER_LEN < length as usize {
        return false;
    }
    let payload: &[u8] = slice_subrange(message, HEADER_LEN, HEADER_LEN + length as usize);
    let claimed: [u8; 4] = [message[20], message[21], message[22], message[23]];
    assert(claimed@ =~= message@.subrange(20, 24));
    verify(payload, claimed)
}

} // verus!
