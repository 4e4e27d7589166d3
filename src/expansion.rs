//! The JSON expansion carried in an envelope's body, and its unwrapping.
use crate::inscription::{opt_bytes, opt_text, utf8_str, Inscription, InscriptionView};
use vstd::prelude::*;
use vstd::utf8::{decode_utf8, valid_utf8};

verus! {

/// At most this many bytes of compressed content are read when decompressing.
pub const MAX_DECOMPRESSION_INPUT: usize = 10_000_000;

/// The second-level payload of a wrapped inscription.
#[derive(Debug, PartialEq, Clone)]
pub struct Expansion {
    pub protocol: String,
    pub protocol_version: String,
    /// The merged protocol properties, as a JSON object text.
    pub protocol_properties: String,
    /// `br base64` when the content is brotli-compressed.
    pub compression: Option<String>,
    /// The magnet URI of content kept off-chain.
    pub offchain: Option<String>,
    /// The payload, in base64.
    pub content: Option<String>,
    /// The hex SHA-256 of the payload before base64.
    pub content_hash: Option<String>,
    pub content_type: Option<String>,
    /// The metadata JSON, in base64.
    pub content_metadata: Option<String>,
    /// Whether a reader is to unwrap this payload.
    pub wrapped: bool,
}

/// The mathematical value of an [`Expansion`].
pub struct ExpansionView {
    pub protocol: Seq<char>,
    pub protocol_version: Seq<char>,
    pub protocol_properties: Seq<char>,
    pub compression: Option<Seq<char>>,
    pub offchain: Option<Seq<char>>,
    pub content: Option<Seq<char>>,
    pub content_hash: Option<Seq<char>>,
    pub content_type: Option<Seq<char>>,
    pub content_metadata: Option<Seq<char>>,
    pub wrapped: bool,
}

impl View for Expansion {
    type V = ExpansionView;

    open spec fn view(&self) -> ExpansionView {
        ExpansionView {
            protocol: self.protocol@,
            protocol_version: self.protocol_version@,
            protocol_properties: self.protocol_properties@,
            compression: opt_text(self.compression),
            offchain: opt_text(self.offchain),
            content: opt_text(self.content),
            content_hash: opt_text(self.content_hash),
            content_type: opt_text(self.content_type),
            content_metadata: opt_text(self.content_metadata),
            wrapped: self.wrapped,
        }
    }
}

/// What base64 (standard alphabet, padded) decoding gives, or `None` where the
/// text is not base64.
pub uninterp spec fn base64_decoded(text: Seq<char>) -> Option<Seq<u8>>;

/// What brotli decompression of `input` gives: the whole output, or on a
/// decoding error what was produced before it.
pub uninterp spec fn brotli_decompressed(input: Seq<u8>) -> Seq<u8>;

/// Whether a JSON text's `tracking` member is `true`, or `None` where the
/// text is not JSON.
pub uninterp spec fn json_tracking_flag(text: Seq<char>) -> Option<bool>;

/// Relies on `base64::decode` (base64 0.13, standard alphabet).
#[verifier::external_body]
pub(crate) fn base64_decode(text: &String) -> (r: Option<Vec<u8>>)
    ensures
        opt_bytes(r) == base64_decoded(text@),
{
    base64::decode(text).ok()
}

/// Relies on `brotli::Decompressor` reading through `Read::take(limit)`: at most
/// `limit` bytes of input are read, and a decoding error ends the output.
#[verifier::external_body]
fn brotli_decompress(input: &Vec<u8>, limit: usize) -> (r: Vec<u8>)
    ensures
        r@ == brotli_decompressed(input@.take(if limit < input@.len() { limit as int } else { input@.len() as int })),
{
    let mut out = Vec::new();
    let reader = std::io::Read::take(input.as_slice(), limit as u64);
    let _ = std::io::Read::read_to_end(&mut brotli::Decompressor::new(reader, 4096), &mut out);
    out
}

/// Relies on `serde_json::from_str` into a `serde_json::Value`, and on
/// comparing its `tracking` member with `true`.
#[verifier::external_body]
pub(crate) fn json_tracking(text: &String) -> (r: Option<bool>)
    ensures
        r == json_tracking_flag(text@),
{
    serde_json::from_str::<serde_json::Value>(text).ok().map(|v| v["tracking"] == true)
}

/// `application/json`.
pub open spec fn json_media_type() -> Seq<u8> {
    seq![
        0x61u8, 0x70u8, 0x70u8, 0x6cu8, 0x69u8, 0x63u8, 0x61u8, 0x74u8, 0x69u8, 0x6fu8, 0x6eu8,
        0x2fu8, 0x6au8, 0x73u8, 0x6fu8, 0x6eu8,
    ]
}

/// `application/json`, as bytes.
pub fn json_media_type_bytes() -> (r: Vec<u8>)
    ensures
        r@ == json_media_type(),
{
    let r: Vec<u8> = vec![
        0x61u8, 0x70u8, 0x70u8, 0x6cu8, 0x69u8, 0x63u8, 0x61u8, 0x74u8, 0x69u8, 0x6fu8, 0x6eu8,
        0x2fu8, 0x6au8, 0x73u8, 0x6fu8, 0x6eu8,
    ];
    assert(r@ =~= json_media_type());
    r
}

/// The compression marker, `br base64`.
pub open spec fn brotli_marker() -> Seq<char> {
    seq!['b', 'r', ' ', 'b', 'a', 's', 'e', '6', '4']
}

/// The properties text that means "no properties", `{}`.
pub open spec fn empty_properties() -> Seq<char> {
    seq!['{', '}']
}

/// The text that a record's body is to be read as an expansion from: its body,
/// when the content type is `application/json` and the body is UTF-8.
pub open spec fn expansion_source(i: InscriptionView) -> Option<Seq<char>> {
    match (i.content_type, i.body) {
        (Some(ct), Some(b)) => if ct == json_media_type() && valid_utf8(b) {
            Some(decode_utf8(b))
        } else {
            None
        },
        _ => None,
    }
}

/// `text` if it decodes, else the empty byte string.
pub open spec fn decoded_or_empty(text: Option<Seq<char>>) -> Seq<u8> {
    match text {
        Some(t) => match base64_decoded(t) {
            Some(b) => b,
            None => Seq::empty(),
        },
        None => Seq::empty(),
    }
}

/// At most the first `MAX_DECOMPRESSION_INPUT` bytes.
pub open spec fn decompression_input(b: Seq<u8>) -> Seq<u8> {
    b.take(if MAX_DECOMPRESSION_INPUT < b.len() { MAX_DECOMPRESSION_INPUT as int } else { b.len() as int })
}

/// The body a wrapped expansion stands for: the decompressed content when it
/// is compressed, nothing when it is off-chain, else the decoded content.
pub open spec fn unwrapped_body(x: ExpansionView) -> Option<Seq<u8>> {
    if x.compression == Some(brotli_marker()) {
        Some(brotli_decompressed(decompression_input(decoded_or_empty(x.content))))
    } else if x.offchain is Some && x.content is None {
        None
    } else {
        match x.content {
            Some(c) => base64_decoded(c),
            None => None,
        }
    }
}

/// The record that a parsed record `raw` becomes given what its body read as
/// an expansion gave (`None` where that failed).
pub open spec fn expanded(raw: InscriptionView, x: Option<ExpansionView>) -> InscriptionView {
    match x {
        Some(x) => if expansion_source(raw) is Some && x.wrapped {
            let plain = x.protocol_properties == empty_properties();
            InscriptionView {
                content_type: raw.content_type,
                body: unwrapped_body(x),
                tracking: !plain && json_tracking_flag(x.protocol_properties) == Some(true),
                content_metadata: match x.content_metadata {
                    Some(m) => base64_decoded(m),
                    None => None,
                },
                protocol_properties: if plain {
                    None
                } else {
                    Some(x.protocol_properties)
                },
            }
        } else {
            raw
        },
        None => raw,
    }
}

/// The value of an optional expansion.
pub open spec fn opt_expansion(x: Option<Expansion>) -> Option<ExpansionView> {
    match x {
        Some(e) => Some(e@),
        None => None,
    }
}

/// Whether `s` is `target`, character by character.
pub(crate) fn text_is(s: &String, target: &str) -> (r: bool)
    ensures
        r == (s@ == target@),
{
    let t = target.to_owned();
    *s == t
}

impl Inscription {
    /// The text to read this record's body from as an expansion: the body,
    /// when the content type is `application/json` and the body is UTF-8.
    pub fn expansion_text(&self) -> (r: Option<String>)
        ensures
            opt_text(r) == expansion_source(self@),
    {
        match (&self.content_type, &self.body) {
            (Some(ct), Some(b)) => {
                let json = json_media_type_bytes();
                if crate::bytes::bytes_equal(ct.as_slice(), json.as_slice()) {
                    match utf8_str(b.as_slice()) {
                        Some(t) => Some(t.to_owned()),
                        None => None,
                    }
                } else {
                    None
                }
            },
            _ => None,
        }
    }

    /// Completes a parsed record from what its expansion text read as
    /// (`None` where it did not read as an expansion). A record without
    /// expansion text, or whose expansion is not wrapped, stays as it is.
    pub fn expand(self, expansion: Option<Expansion>) -> (r: Inscription)
        ensures
            r@ == expanded(self@, opt_expansion(expansion)),
    {
        let x = match expansion {
            Some(x) => x,
            None => {
                return self;
            },
        };
        if !x.wrapped {
            return self;
        }
        match self.expansion_text() {
            Some(_) => {},
            None => {
                return self;
            },
        }
        let plain = text_is(&x.protocol_properties, "{}");
        proof {
            reveal_strlit("{}");
            reveal_strlit("br base64");
        }
        assert(plain == (x@.protocol_properties == empty_properties())) by {
            assert("{}"@ =~= empty_properties());
        }
        let tracking = if plain {
            false
        } else {
            match json_tracking(&x.protocol_properties) {
                Some(t) => t,
                None => false,
            }
        };
        let content_metadata = match &x.content_metadata {
            Some(m) => base64_decode(m),
            None => None,
        };
        let compressed = match &x.compression {
            Some(c) => text_is(c, "br base64"),
            None => false,
        };
        assert(compressed == (x@.compression == Some(brotli_marker()))) by {
            assert("br base64"@ =~= brotli_marker());
        }
        let body = if compressed {
            let input = match &x.content {
                Some(c) => match base64_decode(c) {
                    Some(b) => b,
                    None => Vec::new(),
                },
                None => Vec::new(),
            };
            assert(input@ == decoded_or_empty(x@.content));
            Some(brotli_decompress(&input, MAX_DECOMPRESSION_INPUT))
        } else if x.offchain.is_some() && x.content.is_none() {
            None
        } else {
            match &x.content {
                Some(c) => base64_decode(c),
                None => None,
            }
        };
        let protocol_properties = if plain {
            None
        } else {
            Some(x.protocol_properties)
        };
        Inscription {
            content_type: self.content_type,
            body,
            tracking,
            content_metadata,
            protocol_properties,
        }
    }
}

} // verus!
