//! One receive cycle of the echo service.
//!
//! A datagram arrives as raw bytes. The service identifies the sender: it
//! first tries the wire-format codec, and when that fails it falls back to a
//! heuristic — the first whitespace-delimited token of the text, read
//! leniently, or `"anonymous"` when there is no token (an empty datagram
//! included). It then records the sender in the registry and echoes the
//! original raw bytes back; only the echo is skipped when the datagram is
//! empty.

use crate::client_manager::{ClientInfo, ClientManager, Endpoint, SessionView};
use crate::protocol::{deserialize_spec, MessageProtocol};
use vstd::prelude::*;
use vstd::std_specs::iter::IteratorSpec;
use vstd::utf8::{decode_utf8, valid_utf8};

verus! {

broadcast use vstd::string::next_postcondition, vstd::string::axiom_spec_iter;

/// How a datagram is read leniently as text: what
/// `String::from_utf8_lossy` returns for the given bytes, as characters.
pub uninterp spec fn lossy_of(bytes: Seq<u8>) -> Seq<char>;

/// Relies on `String::from_utf8_lossy`: decodes the bytes as UTF-8,
/// replacing each invalid sequence with the replacement character. The result
/// depends on the bytes alone; valid UTF-8 comes back as its own decoding,
/// and, since an invalid sequence still leaves a replacement character, the
/// result is empty exactly when the input is.
#[verifier::external_body]
fn lossy_string(bytes: &Vec<u8>) -> (r: String)
    ensures
        r@ == lossy_of(bytes@),
        valid_utf8(bytes@) ==> r@ == decode_utf8(bytes@),
        r@.len() == 0 <==> bytes@.len() == 0,
{
    String::from_utf8_lossy(bytes).into_owned()
}

/// Whether a character counts as whitespace when the fallback splits the
/// datagram's text into tokens: the Unicode `White_Space` property, which is
/// what `char::is_whitespace` tests. Its members are the tab through
/// carriage-return block, space, next line, the no-break spaces, the Ogham
/// space mark, the en-quad through hair-space block, the line and paragraph
/// separators, the medium mathematical space, and the ideographic space.
pub open spec fn is_space(c: char) -> bool {
    let u = c as u32;
    ||| (0x09 <= u && u <= 0x0D)
    ||| u == 0x20
    ||| u == 0x85
    ||| u == 0xA0
    ||| u == 0x1680
    ||| (0x2000 <= u && u <= 0x200A)
    ||| u == 0x2028
    ||| u == 0x2029
    ||| u == 0x202F
    ||| u == 0x205F
    ||| u == 0x3000
}

/// `true` exactly when the character has the Unicode `White_Space` property.
fn char_is_space(c: char) -> (r: bool)
    ensures
        r == is_space(c),
{
    let u = c as u32;
    (0x09 <= u && u <= 0x0D) || u == 0x20 || u == 0x85 || u == 0xA0 || u == 0x1680 || (0x2000 <= u
        && u <= 0x200A) || u == 0x2028 || u == 0x2029 || u == 0x202F || u == 0x205F || u == 0x3000
}

/// Relies on `String`'s `FromIterator<char>`: collecting characters builds
/// the string of exactly those characters.
#[verifier::external_body]
fn string_from_chars(chars: &Vec<char>) -> (r: String)
    ensures
        r@ == chars@,
{
    chars.iter().collect()
}

/// The characters of a string, as a vector.
fn str_chars(s: &str) -> (r: Vec<char>)
    ensures
        r@ == s@,
{
    let mut chars = s.chars();
    let mut out: Vec<char> = Vec::new();
    loop
        invariant
            chars.obeys_prophetic_iter_laws(),
            chars.decrease() is Some,
            out@ + chars.remaining() == s@,
        decreases chars.decrease()->0,
    {
        match chars.next() {
            Some(c) => {
                out.push(c);
                proof {
                    assert(out@ + chars.remaining() =~= s@);
                }
            },
            None => {
                proof {
                    assert(out@ =~= s@);
                }
                return out;
            },
        }
    }
}

/// The first index at or after `i` holding a non-whitespace character, or the
/// text's length when only whitespace is left.
pub open spec fn token_start(s: Seq<char>, i: int) -> int
    decreases s.len() - i,
{
    if i < 0 || i >= s.len() {
        s.len() as int
    } else if is_space(s[i]) {
        token_start(s, i + 1)
    } else {
        i
    }
}

/// The first index at or after `i` holding a whitespace character, or the
/// text's length when none is left.
pub open spec fn token_end(s: Seq<char>, i: int) -> int
    decreases s.len() - i,
{
    if i < 0 || i >= s.len() {
        s.len() as int
    } else if is_space(s[i]) {
        i
    } else {
        token_end(s, i + 1)
    }
}

/// The first whitespace-delimited token of the text; empty when the text
/// holds no token at all.
pub open spec fn first_token_spec(s: Seq<char>) -> Seq<char> {
    s.subrange(token_start(s, 0), token_end(s, token_start(s, 0)))
}

proof fn lemma_token_bounds(s: Seq<char>, i: int)
    requires
        0 <= i <= s.len(),
    ensures
        i <= token_start(s, i) <= s.len(),
        i <= token_end(s, i) <= s.len(),
    decreases s.len() - i,
{
    if i < s.len() {
        lemma_token_bounds(s, i + 1);
    }
}

/// The first whitespace-delimited token of the text.
fn first_token(s: &str) -> (r: String)
    ensures
        r@ == first_token_spec(s@),
{
    let chars = str_chars(s);
    let n = chars.len();
    let mut i: usize = 0;
    while i < n && char_is_space(chars[i])
        invariant
            0 <= i <= n == s@.len(),
            chars@ == s@,
            token_start(s@, 0) == token_start(s@, i as int),
        decreases n - i,
    {
        i += 1;
    }
    proof {
        assert(token_start(s@, 0) == i as int);
        lemma_token_bounds(s@, i as int);
    }
    let start = i;
    let mut token: Vec<char> = Vec::new();
    let mut j: usize = start;
    while j < n && !char_is_space(chars[j])
        invariant
            start <= j <= n == s@.len(),
            chars@ == s@,
            token_end(s@, start as int) == token_end(s@, j as int),
            token@ == s@.subrange(start as int, j as int),
        decreases n - j,
    {
        token.push(chars[j]);
        j += 1;
        proof {
            assert(token@ =~= s@.subrange(start as int, j as int));
        }
    }
    proof {
        assert(token_end(s@, start as int) == j as int);
    }
    string_from_chars(&token)
}

/// The username the fallback extracts from a datagram that the codec could
/// not decode: the first token of its lenient text, or `"anonymous"` when
/// there is none.
pub open spec fn fallback_username(bytes: Seq<u8>) -> Seq<char> {
    let token = first_token_spec(lossy_of(bytes));
    if token.len() == 0 {
        "anonymous"@
    } else {
        token
    }
}

/// The username under which a datagram's sender is registered: the frame's
/// username when the codec decodes it, the fallback's otherwise.
pub open spec fn sender_name(bytes: Seq<u8>) -> Seq<char> {
    match deserialize_spec(bytes) {
        Ok(decoded) => decoded.0,
        Err(_) => fallback_username(bytes),
    }
}

/// How a datagram's sender was identified: by decoding a well-formed frame,
/// or by the lenient fallback on its raw text.
pub enum IdentifiedSender {
    DecodedFrame(MessageProtocol),
    HeuristicUsername(String),
}

impl IdentifiedSender {
    /// The username this identification settles on.
    pub open spec fn user_name_spec(&self) -> Seq<char> {
        match self {
            IdentifiedSender::DecodedFrame(m) => m.user_name@,
            IdentifiedSender::HeuristicUsername(u) => u@,
        }
    }
}

/// Identify a datagram's sender: decode the frame when the codec accepts the
/// bytes, and fall back to the first token of the lenient text (or
/// `"anonymous"`) when it does not. An empty datagram is always
/// `"anonymous"`. A decode failure never escapes here.
pub fn identify_sender(buf: &Vec<u8>) -> (r: IdentifiedSender)
    ensures
        r is DecodedFrame <==> deserialize_spec(buf@) is Ok,
        r matches IdentifiedSender::DecodedFrame(m) ==> deserialize_spec(buf@) == Ok::<
            (Seq<char>, Seq<char>),
            crate::protocol::ProtocolError,
        >((m.user_name@, m.body@)),
        r.user_name_spec() == sender_name(buf@),
        buf@.len() == 0 ==> r.user_name_spec() == "anonymous"@,
{
    match MessageProtocol::deserialize(buf) {
        Ok(m) => IdentifiedSender::DecodedFrame(m),
        Err(_) => {
            let text = lossy_string(buf);
            let token = first_token(text.as_str());
            if token.as_str().is_empty() {
                IdentifiedSender::HeuristicUsername("anonymous".to_owned())
            } else {
                IdentifiedSender::HeuristicUsername(token)
            }
        },
    }
}

/// A fresh vector holding the same bytes.
fn copy_bytes(v: &Vec<u8>) -> (r: Vec<u8>)
    ensures
        r@ == v@,
{
    let mut out: Vec<u8> = Vec::new();
    let mut i: usize = 0;
    while i < v.len()
        invariant
            0 <= i <= v@.len(),
            out@ == v@.subrange(0, i as int),
        decreases v@.len() - i,
    {
        out.push(v[i]);
        i += 1;
        proof {
            assert(out@ =~= v@.subrange(0, i as int));
        }
    }
    proof {
        assert(out@ =~= v@);
    }
    out
}

/// One receive cycle, after the transport has delivered `buf` from `sender`
/// at instant `now`: the sender is registered under [`sender_name`] — an
/// empty datagram under `"anonymous"` — and the echo is exactly the bytes
/// that arrived, skipped only when the datagram is empty.
pub fn process_datagram(
    manager: &mut ClientManager,
    buf: &Vec<u8>,
    sender: Endpoint,
    now: u64,
) -> (echo: Option<Vec<u8>>)
    requires
        old(manager).wf(),
    ensures
        final(manager).wf(),
        final(manager).timeout() == old(manager).timeout(),
        final(manager).sessions() == old(manager).sessions().insert(
            sender_name(buf@),
            (SessionView {
                user_name: sender_name(buf@),
                socket_addr: sender,
                last_message_time: now,
            }),
        ),
        buf@.len() == 0 ==> echo is None && final(manager).sessions() == old(
            manager,
        ).sessions().insert(
            "anonymous"@,
            (SessionView {
                user_name: "anonymous"@,
                socket_addr: sender,
                last_message_time: now,
            }),
        ),
        buf@.len() > 0 ==> (echo matches Some(e) && e@ == buf@),
{
    let identified = identify_sender(buf);
    let user_name = match identified {
        IdentifiedSender::DecodedFrame(m) => m.user_name,
        IdentifiedSender::HeuristicUsername(u) => u,
    };
    manager.upsert_client(
        ClientInfo { user_name, socket_addr: sender, last_message_time: now },
    );
    if buf.len() == 0 {
        None
    } else {
        Some(copy_bytes(buf))
    }
}

} // verus!
