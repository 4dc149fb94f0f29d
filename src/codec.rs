use vstd::prelude::*;
use bincode::error::{DecodeError, EncodeError};
use crate::game_event::{GuiEvent, GuiMessage};

verus! {

#[verifier::external_type_specification]
#[verifier::external_body]
pub struct ExEncodeError(bincode::error::EncodeError);

#[verifier::external_type_specification]
#[verifier::external_body]
pub struct ExDecodeError(bincode::error::DecodeError);

/// The `n` low bytes of `v`, least significant first.
pub open spec fn le_bytes(v: nat, n: nat) -> Seq<u8>
    decreases n,
{
    if n == 0 {
        seq![]
    } else {
        seq![(v % 256) as u8] + le_bytes(v / 256, (n - 1) as nat)
    }
}

/// bincode's variable-length integer form of an unsigned integer: values up
/// to 250 as one byte, larger ones as a marker byte (251, 252 or 253)
/// followed by the value in 2, 4 or 8 little-endian bytes.
pub open spec fn varint_bytes(v: u64) -> Seq<u8> {
    if v <= 250 {
        seq![v as u8]
    } else if v <= 0xffff {
        seq![251u8] + le_bytes(v as nat, 2)
    } else if v <= 0xffff_ffff {
        seq![252u8] + le_bytes(v as nat, 4)
    } else {
        seq![253u8] + le_bytes(v as nat, 8)
    }
}

/// The number whose little-endian bytes are `b`.
pub open spec fn le_value(b: Seq<u8>) -> nat
    decreases b.len(),
{
    if b.len() == 0 {
        0
    } else {
        b[0] as nat + 256 * le_value(b.drop_first())
    }
}

/// Reads one variable-length integer from the front of `b`: the value and
/// the number of bytes it took, or `None` where `b` does not begin with one.
pub open spec fn read_varint(b: Seq<u8>) -> Option<(nat, nat)> {
    if b.len() == 0 {
        None
    } else if b[0] <= 250 {
        Some((b[0] as nat, 1))
    } else if b[0] == 251 && b.len() >= 3 {
        Some((le_value(b.subrange(1, 3)), 3))
    } else if b[0] == 252 && b.len() >= 5 {
        Some((le_value(b.subrange(1, 5)), 5))
    } else if b[0] == 253 && b.len() >= 9 {
        Some((le_value(b.subrange(1, 9)), 9))
    } else {
        None
    }
}

/// Reads two variable-length integers, one after the other.
pub open spec fn read_varint_pair(b: Seq<u8>) -> Option<(nat, nat, nat)> {
    match read_varint(b) {
        Some((x, n)) => match read_varint(b.subrange(n as int, b.len() as int)) {
            Some((y, m)) => Some((x, y, n + m)),
            None => None,
        },
        None => None,
    }
}

pub open spec fn pow256(n: nat) -> nat
    decreases n,
{
    if n == 0 {
        1
    } else {
        256 * pow256((n - 1) as nat)
    }
}

proof fn lemma_pow256_values()
    ensures
        pow256(2) == 0x1_0000,
        pow256(4) == 0x1_0000_0000,
        pow256(8) == 0x1_0000_0000_0000_0000,
{
    assert(pow256(0) == 1);
    assert(pow256(1) == 256);
    assert(pow256(2) == 0x1_0000);
    assert(pow256(3) == 0x100_0000);
    assert(pow256(4) == 0x1_0000_0000);
    assert(pow256(5) == 0x100_0000_0000);
    assert(pow256(6) == 0x1_0000_0000_0000);
    assert(pow256(7) == 0x100_0000_0000_0000);
}

proof fn lemma_le_bytes(v: nat, n: nat)
    requires
        v < pow256(n),
    ensures
        le_bytes(v, n).len() == n,
        le_value(le_bytes(v, n)) == v,
    decreases n,
{
    if n > 0 {
        vstd::arithmetic::div_mod::lemma_multiply_divide_lt(v as int, 256, pow256((n - 1) as nat) as int);
        lemma_le_bytes(v / 256, (n - 1) as nat);
        let b = le_bytes(v, n);
        assert(b.drop_first() =~= le_bytes(v / 256, (n - 1) as nat));
        vstd::arithmetic::div_mod::lemma_fundamental_div_mod(v as int, 256);
    }
}

/// Reading back the variable-length form of `v` gives `v`, whatever follows.
pub proof fn lemma_read_varint_bytes(v: u64, rest: Seq<u8>)
    ensures
        read_varint(varint_bytes(v) + rest) == Some((v as nat, varint_bytes(v).len())),
{
    let b = varint_bytes(v) + rest;
    if v <= 250 {
    } else if v <= 0xffff {
        lemma_pow256_values();
        lemma_le_bytes(v as nat, 2);
        assert(b.subrange(1, 3) =~= le_bytes(v as nat, 2));
    } else if v <= 0xffff_ffff {
        lemma_pow256_values();
        lemma_le_bytes(v as nat, 4);
        assert(b.subrange(1, 5) =~= le_bytes(v as nat, 4));
    } else {
        lemma_pow256_values();
        lemma_le_bytes(v as nat, 8);
        assert(b.subrange(1, 9) =~= le_bytes(v as nat, 8));
    }
}

/// Relies on bincode::encode_to_vec with the standard configuration: a usize
/// is written in variable-length form, and writing into a Vec cannot fail.
#[verifier::external_body]
fn encode_usize(v: usize) -> (r: Result<Vec<u8>, EncodeError>)
    ensures
        r is Ok,
        r matches Ok(b) ==> b@ == varint_bytes(v as u64),
{
    bincode::encode_to_vec(v, bincode::config::standard())
}

/// Relies on bincode::encode_to_vec with the standard configuration: a pair
/// is its two fields one after the other, each a usize in variable-length
/// form, and writing into a Vec cannot fail.
#[verifier::external_body]
fn encode_usize_pair(a: usize, b: usize) -> (r: Result<Vec<u8>, EncodeError>)
    ensures
        r is Ok,
        r matches Ok(bytes) ==> bytes@ == varint_bytes(a as u64) + varint_bytes(b as u64),
{
    bincode::encode_to_vec((a, b), bincode::config::standard())
}

/// Relies on bincode::decode_from_slice with the standard configuration: a
/// usize is read in variable-length form from the front of the input (and
/// cast with `as usize`), and the count of bytes read is returned beside it.
#[verifier::external_body]
fn decode_usize(bytes: &Vec<u8>) -> (r: Result<(usize, usize), DecodeError>)
    ensures
        r is Ok <==> read_varint(bytes@) is Some,
        r matches Ok((v, n)) ==> (read_varint(bytes@) matches Some((x, m)) && v == x as usize && n == m),
{
    bincode::decode_from_slice(bytes.as_slice(), bincode::config::standard())
}

/// Relies on bincode::decode_from_slice with the standard configuration: a
/// pair is read field by field, each a usize in variable-length form.
#[verifier::external_body]
fn decode_usize_pair(bytes: &Vec<u8>) -> (r: Result<((usize, usize), usize), DecodeError>)
    ensures
        r is Ok <==> read_varint_pair(bytes@) is Some,
        r matches Ok(((a, b), n)) ==> (read_varint_pair(bytes@) matches Some((x, y, m)) && a == x as usize && b
            == y as usize && n == m),
{
    bincode::decode_from_slice(bytes.as_slice(), bincode::config::standard())
}

/// Why a feedback event could not be written or read.
#[derive(Clone, Copy, Debug, PartialEq, Eq, Structural)]
pub enum CodecError {
    Encode,
    Decode,
}

impl GuiMessage {
    /// The bytes that carry this message's contents.
    pub open spec fn payload_bytes(&self) -> Seq<u8> {
        match self {
            GuiMessage::BackLightTile { index } => varint_bytes(*index as u64),
            GuiMessage::MoveUnit { index, unit_id } => varint_bytes(*index as u64) + varint_bytes(
                *unit_id as u64,
            ),
        }
    }

    /// Splits the message into its kind and its bincode payload.
    pub fn encode(&self) -> (r: Result<(GuiEvent, Vec<u8>), CodecError>)
        ensures
            r matches Ok((kind, bytes)) && kind == self.kind() && bytes@ == self.payload_bytes(),
    {
        match *self {
            GuiMessage::BackLightTile { index } => match encode_usize(index) {
                Ok(bytes) => Ok((GuiEvent::BackLightTile, bytes)),
                Err(_) => Err(CodecError::Encode),
            },
            GuiMessage::MoveUnit { index, unit_id } => match encode_usize_pair(index, unit_id) {
                Ok(bytes) => Ok((GuiEvent::MoveUnit, bytes)),
                Err(_) => Err(CodecError::Encode),
            },
        }
    }

    /// Rebuilds a message from its kind and payload; `Decode` where the
    /// payload does not begin with the contents of a message of that kind.
    pub fn decode(kind: GuiEvent, payload: &Vec<u8>) -> (r: Result<GuiMessage, CodecError>)
        ensures
            r == (match message_from(kind, payload@) {
                Some(m) => Ok(m),
                None => Err(CodecError::Decode),
            }),
    {
        match kind {
            GuiEvent::BackLightTile => match decode_usize(payload) {
                Ok((index, _)) => Ok(GuiMessage::BackLightTile { index }),
                Err(_) => Err(CodecError::Decode),
            },
            GuiEvent::MoveUnit => match decode_usize_pair(payload) {
                Ok(((index, unit_id), _)) => Ok(GuiMessage::MoveUnit { index, unit_id }),
                Err(_) => Err(CodecError::Decode),
            },
        }
    }
}

/// The message of the given kind that `b` begins with, if any.
pub open spec fn message_from(kind: GuiEvent, b: Seq<u8>) -> Option<GuiMessage> {
    match kind {
        GuiEvent::BackLightTile => match read_varint(b) {
            Some((v, _)) => Some(GuiMessage::BackLightTile { index: v as usize }),
            None => None,
        },
        GuiEvent::MoveUnit => match read_varint_pair(b) {
            Some((x, y, _)) => Some(GuiMessage::MoveUnit { index: x as usize, unit_id: y as usize }),
            None => None,
        },
    }
}

/// Decoding what `encode` produced gives back the message.
pub proof fn lemma_gui_message_round_trip(m: GuiMessage)
    ensures
        message_from(m.kind(), m.payload_bytes()) == Some(m),
{
    match m {
        GuiMessage::BackLightTile { index } => {
            lemma_read_varint_bytes(index as u64, seq![]);
            assert(varint_bytes(index as u64) + seq![] =~= varint_bytes(index as u64));
        },
        GuiMessage::MoveUnit { index, unit_id } => {
            let (a, b) = (varint_bytes(index as u64), varint_bytes(unit_id as u64));
            lemma_read_varint_bytes(index as u64, b);
            lemma_read_varint_bytes(unit_id as u64, seq![]);
            assert((a + b).subrange(a.len() as int, (a + b).len() as int) =~= b + seq![]);
            assert(b + seq![] =~= b);
        },
    }
}

} // verus!
