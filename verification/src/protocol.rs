//! Wire-format codec for the UDP echo service.
//!
//! A frame is a single datagram laid out as:
//! * byte 0: username length `N` (0..=255)
//! * bytes `1..1+N`: username, UTF-8
//! * bytes `1+N..`: body, UTF-8, filling the rest of the buffer
//!
//! The whole encoded frame is bounded by [`MAX_BUFFER_SIZE`] bytes.

use vstd::prelude::*;
use vstd::utf8::{decode_utf8, encode_utf8, valid_utf8};
use vstd::string::StringExecFns;
use vstd::utf8::{encode_utf8_decode_utf8, encode_utf8_valid_utf8};

verus! {

/// Largest encoded frame, in bytes, that the codec accepts in either direction.
pub const MAX_BUFFER_SIZE: usize = 4096;

/// A decoded message: who sent it and what they said.
#[derive(Debug, Clone, PartialEq, Eq)]
pub struct MessageProtocol {
    pub user_name: String,
    pub body: String,
}

/// Everything that can go wrong while encoding or decoding a frame.
#[derive(Debug, PartialEq, Eq, Structural)]
pub enum ProtocolError {
    /// The username's UTF-8 byte length does not fit the single length byte.
    UsernameTooLong(usize),
    /// The encoded frame (or the input buffer) exceeds [`MAX_BUFFER_SIZE`].
    BufferTooLarge(usize),
    /// The buffer ends before the declared username does.
    Truncated { expected: usize, actual: usize },
    /// The username bytes are not valid UTF-8.
    UsernameUtf8,
    /// The body bytes are not valid UTF-8.
    BodyUtf8,
}

/// The bytes of a well-formed frame: one length byte, then the username
/// bytes, then the body bytes.
pub open spec fn encode_frame(name_bytes: Seq<u8>, body_bytes: Seq<u8>) -> Seq<u8> {
    seq![name_bytes.len() as u8] + name_bytes + body_bytes
}

/// What `serialize` returns, as a function of the two fields' character
/// sequences.
pub open spec fn serialize_spec(user_name: Seq<char>, body: Seq<char>) -> Result<
    Seq<u8>,
    ProtocolError,
> {
    let name_bytes = encode_utf8(user_name);
    let body_bytes = encode_utf8(body);
    if name_bytes.len() > u8::MAX {
        Err(ProtocolError::UsernameTooLong(name_bytes.len() as usize))
    } else if 1 + name_bytes.len() + body_bytes.len() > MAX_BUFFER_SIZE {
        Err(ProtocolError::BufferTooLarge((1 + name_bytes.len() + body_bytes.len()) as usize))
    } else {
        Ok(encode_frame(name_bytes, body_bytes))
    }
}

/// What `deserialize` returns, as a function of the input bytes: either the
/// two decoded character sequences or the exact error.
pub open spec fn deserialize_spec(buf: Seq<u8>) -> Result<(Seq<char>, Seq<char>), ProtocolError> {
    if buf.len() > MAX_BUFFER_SIZE {
        Err(ProtocolError::BufferTooLarge(buf.len() as usize))
    } else if buf.len() == 0 {
        Err(ProtocolError::Truncated { expected: 1, actual: 0 })
    } else {
        let name_len = buf[0] as int;
        if buf.len() < 1 + name_len {
            Err(
                ProtocolError::Truncated {
                    expected: (1 + name_len) as usize,
                    actual: buf.len() as usize,
                },
            )
        } else {
            let name_bytes = buf.subrange(1, 1 + name_len);
            let body_bytes = buf.subrange(1 + name_len, buf.len() as int);
            if !valid_utf8(name_bytes) {
                Err(ProtocolError::UsernameUtf8)
            } else if !valid_utf8(body_bytes) {
                Err(ProtocolError::BodyUtf8)
            } else {
                Ok((decode_utf8(name_bytes), decode_utf8(body_bytes)))
            }
        }
    }
}

/// Relies on `String::from_utf8`: it returns `Ok` exactly when the bytes are
/// valid UTF-8, and the returned string is their decoding (the `String` owns
/// the very bytes that were passed in).
#[verifier::external_body]
fn string_from_utf8(bytes: Vec<u8>) -> (r: Option<String>)
    ensures
        r is Some <==> valid_utf8(bytes@),
        r is Some ==> r->0@ == decode_utf8(bytes@),
{
    match String::from_utf8(bytes) {
        Ok(s) => Some(s),
        Err(_) => None,
    }
}

impl MessageProtocol {
    /// Encode this message into a wire-format byte vector.
    ///
    /// Fails with `UsernameTooLong` when the username's UTF-8 byte length
    /// exceeds 255, and with `BufferTooLarge` when the whole frame would
    /// exceed [`MAX_BUFFER_SIZE`] bytes.
    pub fn serialize(&self) -> (r: Result<Vec<u8>, ProtocolError>)
        ensures
            (match serialize_spec(self.user_name@, self.body@) {
                Ok(bytes) => r matches Ok(v) && v@ == bytes,
                Err(e) => r == Err::<Vec<u8>, ProtocolError>(e),
            }),
    {
        let name_bytes: &[u8] = self.user_name.as_str().as_bytes();
        if name_bytes.len() > u8::MAX as usize {
            return Err(ProtocolError::UsernameTooLong(name_bytes.len()));
        }
        let body_bytes: &[u8] = self.body.as_str().as_bytes();

        let mut buf: Vec<u8> = Vec::new();
        buf.push(name_bytes.len() as u8);
        let mut i: usize = 0;
        while i < name_bytes.len()
            invariant
                i <= name_bytes@.len(),
                buf@ == seq![(name_bytes@.len() as u8)] + name_bytes@.subrange(0, i as int),
            decreases name_bytes@.len() - i,
        {
            buf.push(name_bytes[i]);
            i += 1;
            proof {
                assert(buf@ =~= seq![(name_bytes@.len() as u8)] + name_bytes@.subrange(
                    0,
                    i as int,
                ));
            }
        }
        let mut j: usize = 0;
        while j < body_bytes.len()
            invariant
                j <= body_bytes@.len(),
                buf@ == seq![(name_bytes@.len() as u8)] + name_bytes@ + body_bytes@.subrange(
                    0,
                    j as int,
                ),
            decreases body_bytes@.len() - j,
        {
            buf.push(body_bytes[j]);
            j += 1;
            proof {
                assert(buf@ =~= seq![(name_bytes@.len() as u8)] + name_bytes@
                    + body_bytes@.subrange(0, j as int));
            }
        }
        proof {
            assert(name_bytes@.subrange(0, name_bytes@.len() as int) =~= name_bytes@);
            assert(body_bytes@.subrange(0, body_bytes@.len() as int) =~= body_bytes@);
            assert(buf@ =~= encode_frame(name_bytes@, body_bytes@));
        }
        if buf.len() > MAX_BUFFER_SIZE {
            return Err(ProtocolError::BufferTooLarge(buf.len()));
        }
        Ok(buf)
    }

    /// The message as one display line: `<username>: body`.
    pub fn display_string(&self) -> (r: String)
        ensures
            r@ == "<"@ + self.user_name@ + ">: "@ + self.body@,
    {
        let mut out = "<".to_owned();
        out.append(self.user_name.as_str());
        out.append(">: ");
        out.append(self.body.as_str());
        out
    }

    /// Decode a wire-format byte vector back into a message.
    ///
    /// Rejects buffers over [`MAX_BUFFER_SIZE`] bytes, buffers that end
    /// before the declared username does, and byte ranges that are not valid
    /// UTF-8; on success the two fields are exactly the decoded slices.
    pub fn deserialize(buf: &Vec<u8>) -> (r: Result<MessageProtocol, ProtocolError>)
        ensures
            (match deserialize_spec(buf@) {
                Ok(decoded) => r matches Ok(m) && m.user_name@ == decoded.0 && m.body@
                    == decoded.1,
                Err(e) => r == Err::<MessageProtocol, ProtocolError>(e),
            }),
    {
        if buf.len() > MAX_BUFFER_SIZE {
            return Err(ProtocolError::BufferTooLarge(buf.len()));
        }
        if buf.len() == 0 {
            return Err(ProtocolError::Truncated { expected: 1, actual: 0 });
        }
        let name_len: usize = buf[0] as usize;
        if buf.len() < 1 + name_len {
            return Err(ProtocolError::Truncated { expected: 1 + name_len, actual: buf.len() });
        }

        let mut name_vec: Vec<u8> = Vec::new();
        let mut i: usize = 1;
        while i < 1 + name_len
            invariant
                name_len <= u8::MAX,
                1 <= i <= 1 + name_len,
                1 + name_len <= buf@.len(),
                name_vec@ == buf@.subrange(1, i as int),
            decreases 1 + name_len - i,
        {
            name_vec.push(buf[i]);
            i += 1;
            proof {
                assert(name_vec@ =~= buf@.subrange(1, i as int));
            }
        }

        let mut body_vec: Vec<u8> = Vec::new();
        let mut j: usize = 1 + name_len;
        while j < buf.len()
            invariant
                1 + name_len <= j <= buf@.len(),
                body_vec@ == buf@.subrange(1 + name_len as int, j as int),
            decreases buf@.len() - j,
        {
            body_vec.push(buf[j]);
            j += 1;
            proof {
                assert(body_vec@ =~= buf@.subrange(1 + name_len as int, j as int));
            }
        }

        let user_name = match string_from_utf8(name_vec) {
            Some(s) => s,
            None => {
                return Err(ProtocolError::UsernameUtf8);
            },
        };
        let body = match string_from_utf8(body_vec) {
            Some(s) => s,
            None => {
                return Err(ProtocolError::BodyUtf8);
            },
        };
        Ok(MessageProtocol { user_name, body })
    }
}

/// Round trip: any message whose username encodes to at most 255 bytes and
/// whose whole frame fits in [`MAX_BUFFER_SIZE`] bytes encodes successfully,
/// and decoding the encoded frame gives back exactly the original username
/// and body.
pub proof fn lemma_round_trip(user_name: Seq<char>, body: Seq<char>)
    requires
        encode_utf8(user_name).len() <= u8::MAX,
        1 + encode_utf8(user_name).len() + encode_utf8(body).len() <= MAX_BUFFER_SIZE,
    ensures
        serialize_spec(user_name, body) matches Ok(bytes) && deserialize_spec(bytes) == Ok::<
            (Seq<char>, Seq<char>),
            ProtocolError,
        >((user_name, body)),
{
    let name_bytes = encode_utf8(user_name);
    let body_bytes = encode_utf8(body);
    let bytes = encode_frame(name_bytes, body_bytes);
    assert(bytes.len() == 1 + name_bytes.len() + body_bytes.len());
    assert(bytes[0] == name_bytes.len() as u8);
    assert(bytes[0] as int == name_bytes.len());
    assert(bytes.subrange(1, 1 + name_bytes.len() as int) =~= name_bytes);
    assert(bytes.subrange(1 + name_bytes.len() as int, bytes.len() as int) =~= body_bytes);
    encode_utf8_valid_utf8(user_name);
    encode_utf8_valid_utf8(body);
    encode_utf8_decode_utf8(user_name);
    encode_utf8_decode_utf8(body);
}

} // verus!
