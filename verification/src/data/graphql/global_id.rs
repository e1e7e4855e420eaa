//! Opaque, URL-safe tokens that name a record by its kind and its 64-bit id.
//!
//! A token is the unpadded URL-safe base64 text of at least eight bytes: a
//! tag byte for the kind, a zero byte, and the low six bytes of the id, most
//! significant first. Bytes after the eighth are ignored when a token is read.
use vstd::prelude::*;

verus! {

/// The kind of record that a token names.
#[derive(Debug, Copy, Clone, PartialEq, Eq, Structural)]
pub enum NodeType {
    Game,
    User,
    Run,
    Category,
    Level,
}

/// The largest id that leaves the two most significant bytes zero.
pub const MAX_ID: u64 = 0x0000_FFFF_FFFF_FFFF;

impl NodeType {
    /// The tag byte that leads a token of this kind.
    pub open spec fn spec_tag(self) -> u8 {
        match self {
            NodeType::Game => 0x18,
            NodeType::User => 0x50,
            NodeType::Run => 0x44,
            NodeType::Category => 0x08,
            NodeType::Level => 0x2C,
        }
    }

    /// The kind that a tag byte stands for, if any.
    pub open spec fn spec_from_tag(tag: u8) -> Option<NodeType> {
        if tag == 0x18 {
            Some(NodeType::Game)
        } else if tag == 0x50 {
            Some(NodeType::User)
        } else if tag == 0x44 {
            Some(NodeType::Run)
        } else if tag == 0x08 {
            Some(NodeType::Category)
        } else if tag == 0x2C {
            Some(NodeType::Level)
        } else {
            None
        }
    }

    #[verifier::when_used_as_spec(spec_tag)]
    pub fn tag(self) -> (tag: u8)
        ensures
            tag == self.spec_tag(),
    {
        match self {
            NodeType::Game => 0x18,
            NodeType::User => 0x50,
            NodeType::Run => 0x44,
            NodeType::Category => 0x08,
            NodeType::Level => 0x2C,
        }
    }

    pub fn from_tag(tag: u8) -> (node_type: Option<NodeType>)
        ensures
            node_type == Self::spec_from_tag(tag),
    {
        if tag == 0x18 {
            Some(NodeType::Game)
        } else if tag == 0x50 {
            Some(NodeType::User)
        } else if tag == 0x44 {
            Some(NodeType::Run)
        } else if tag == 0x08 {
            Some(NodeType::Category)
        } else if tag == 0x2C {
            Some(NodeType::Level)
        } else {
            None
        }
    }
}

/// The eight bytes behind the token of `(id, node_type)`.
pub open spec fn token_bytes(id: u64, node_type: NodeType) -> Seq<u8> {
    seq![
        node_type.spec_tag(),
        0u8,
        (id / 0x100_0000_0000 % 0x100) as u8,
        (id / 0x1_0000_0000 % 0x100) as u8,
        (id / 0x100_0000 % 0x100) as u8,
        (id / 0x1_0000 % 0x100) as u8,
        (id / 0x100 % 0x100) as u8,
        (id % 0x100) as u8,
    ]
}

/// The pair that a token's bytes stand for: `None` when there are fewer
/// than eight bytes, when the second byte is not zero, or when the first is
/// no kind's tag.
pub open spec fn parse_token_bytes(bytes: Seq<u8>) -> Option<(u64, NodeType)> {
    if bytes.len() >= 8 && bytes[1] == 0 {
        match NodeType::spec_from_tag(bytes[0]) {
            Some(node_type) => Some(
                (
                    (bytes[2] * 0x100_0000_0000 + bytes[3] * 0x1_0000_0000 + bytes[4] * 0x100_0000
                        + bytes[5] * 0x1_0000 + bytes[6] * 0x100 + bytes[7]) as u64,
                    node_type,
                ),
            ),
            None => None,
        }
    } else {
        None
    }
}

/// Every kind is found again from its own tag.
pub proof fn lemma_tag_round_trip(node_type: NodeType)
    ensures
        NodeType::spec_from_tag(node_type.spec_tag()) == Some(node_type),
{
}

/// Reading the bytes written for a pair gives the pair back, for every kind
/// and every id up to `MAX_ID`.
pub proof fn lemma_token_bytes_round_trip(id: u64, node_type: NodeType)
    requires
        id <= MAX_ID,
    ensures
        parse_token_bytes(token_bytes(id, node_type)) == Some((id, node_type)),
{
    lemma_tag_round_trip(node_type);
    let b = token_bytes(id, node_type);
    assert(b[2] * 0x100_0000_0000 + b[3] * 0x1_0000_0000 + b[4] * 0x100_0000 + b[5] * 0x1_0000
        + b[6] * 0x100 + b[7] == id) by {
        lemma_id_bytes_sum(id);
    }
}

/// An id up to `MAX_ID` is the sum of its low six bytes, each at its place.
proof fn lemma_id_bytes_sum(id: u64)
    by (bit_vector)
    requires
        id <= 0x0000_FFFF_FFFF_FFFFu64,
    ensures
        ((id / 0x100_0000_0000 % 0x100) as u8) * 0x100_0000_0000 + ((id / 0x1_0000_0000 % 0x100) as u8)
            * 0x1_0000_0000 + ((id / 0x100_0000 % 0x100) as u8) * 0x100_0000 + ((id / 0x1_0000
            % 0x100) as u8) * 0x1_0000 + ((id / 0x100 % 0x100) as u8) * 0x100 + ((id % 0x100) as u8)
            == id,
{
}

/// Bytes that start with no kind's tag stand for nothing.
pub proof fn lemma_unknown_tag_rejected(bytes: Seq<u8>)
    requires
        bytes.len() == 0 || NodeType::spec_from_tag(bytes[0]) is None,
    ensures
        parse_token_bytes(bytes) is None,
{
}

/// Writes the eight token bytes of `(id, node_type)`.
pub fn encode_token_bytes(id: u64, node_type: NodeType) -> (bytes: Vec<u8>)
    requires
        id <= MAX_ID,
    ensures
        bytes@ == token_bytes(id, node_type),
{
    let mut bytes: Vec<u8> = Vec::with_capacity(8);
    bytes.push(node_type.tag());
    bytes.push(0u8);
    bytes.push((id / 0x100_0000_0000 % 0x100) as u8);
    bytes.push((id / 0x1_0000_0000 % 0x100) as u8);
    bytes.push((id / 0x100_0000 % 0x100) as u8);
    bytes.push((id / 0x1_0000 % 0x100) as u8);
    bytes.push((id / 0x100 % 0x100) as u8);
    bytes.push((id % 0x100) as u8);
    assert(bytes@ =~= token_bytes(id, node_type));
    bytes
}

/// Reads a pair back from token bytes.
pub fn decode_token_bytes(bytes: &[u8]) -> (pair: Option<(u64, NodeType)>)
    ensures
        pair == parse_token_bytes(bytes@),
{
    if bytes.len() < 8 || bytes[1] != 0 {
        return None;
    }
    match NodeType::from_tag(bytes[0]) {
        Some(node_type) => {
            let id: u64 = bytes[2] as u64 * 0x100_0000_0000 + bytes[3] as u64 * 0x1_0000_0000
                + bytes[4] as u64 * 0x100_0000 + bytes[5] as u64 * 0x1_0000 + bytes[6] as u64
                * 0x100 + bytes[7] as u64;
            Some((id, node_type))
        },
        None => None,
    }
}

/// The unpadded URL-safe base64 text of `bytes`.
pub uninterp spec fn url_safe_encoding(bytes: Seq<u8>) -> Seq<char>;

/// The bytes that `text` decodes to as URL-safe base64, or `None` where it
/// does not decode.
pub uninterp spec fn url_safe_decoding(text: Seq<char>) -> Option<Seq<u8>>;

/// `base64::encode_config` with `URL_SAFE_NO_PAD`. The result is the
/// encoding of `bytes`, and decoding it under the same configuration gives
/// `bytes` back.
#[verifier::external_body]
fn encode_url_safe(bytes: &Vec<u8>) -> (text: String)
    ensures
        text@ == url_safe_encoding(bytes@),
        url_safe_decoding(text@) == Some(bytes@),
{
    base64::encode_config(bytes, base64::URL_SAFE_NO_PAD)
}

/// `base64::decode_config` with `URL_SAFE_NO_PAD`. The result is the
/// decoding of `text`, with `None` for every decoding error.
#[verifier::external_body]
fn decode_url_safe(text: &str) -> (bytes: Option<Vec<u8>>)
    ensures
        match bytes {
            Some(b) => url_safe_decoding(text@) == Some(b@),
            None => url_safe_decoding(text@) is None,
        },
{
    base64::decode_config(text, base64::URL_SAFE_NO_PAD).ok()
}

/// The pair that a token stands for, or `None` where it stands for none.
pub open spec fn spec_parse_global_id(token: Seq<char>) -> Option<(u64, NodeType)> {
    match url_safe_decoding(token) {
        Some(bytes) => parse_token_bytes(bytes),
        None => None,
    }
}

/// Encodes `(id, node_type)` as a token. The token reads back as the same
/// pair.
pub fn global_id(id: u64, node_type: NodeType) -> (token: String)
    requires
        id <= MAX_ID,
    ensures
        token@ == url_safe_encoding(token_bytes(id, node_type)),
        spec_parse_global_id(token@) == Some((id, node_type)),
{
    let bytes = encode_token_bytes(id, node_type);
    proof {
        lemma_token_bytes_round_trip(id, node_type);
    }
    encode_url_safe(&bytes)
}

/// Decodes a token that stands for a pair.
pub fn parse_global_id(global_id: &str) -> (pair: (u64, NodeType))
    requires
        spec_parse_global_id(global_id@) is Some,
    ensures
        Some(pair) == spec_parse_global_id(global_id@),
{
    match decode_url_safe(global_id) {
        Some(bytes) => match decode_token_bytes(bytes.as_slice()) {
            Some(pair) => pair,
            None => {
                proof {
                    assert(false);
                }
                (0, NodeType::Game)
            },
        },
        None => {
            proof {
                assert(false);
            }
            (0, NodeType::Game)
        },
    }
}

/// Decodes any text: `Some` pair where the text is a token, `None` where it
/// is not base64, too short, or tagged with no known kind.
pub fn try_parse_global_id(global_id: &str) -> (pair: Option<(u64, NodeType)>)
    ensures
        pair == spec_parse_global_id(global_id@),
{
    match decode_url_safe(global_id) {
        Some(bytes) => {
            if decode_token_bytes(bytes.as_slice()).is_some() {
                Some(parse_global_id(global_id))
            } else {
                None
            }
        },
        None => None,
    }
}

} // verus!
