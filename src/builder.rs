//! Turning a file's bytes and the chosen protocol into an inscription.
use crate::bytes::copy_bytes;
use crate::expansion::{
    brotli_marker, json_media_type_bytes, json_tracking, json_tracking_flag, opt_expansion, text_is,
    json_media_type, Expansion, ExpansionView,
};
use crate::inscription::{opt_bytes, opt_text, Inscription};
use vstd::prelude::*;
use vstd::string::StrSliceExecFns;

verus! {

/// Why an inscription cannot be built.
#[derive(Debug, PartialEq, Eq, Clone, Copy)]
pub enum BuildError {
    /// Compression and off-chain content were both asked for.
    CompressionWithOffchain,
    /// The content is larger than the chain allows.
    ContentTooLarge { len: usize, limit: usize },
}

/// What brotli compression (quality 11, window 22, 4096-byte buffer) gives.
pub uninterp spec fn brotli_compressed(data: Seq<u8>) -> Seq<u8>;

/// The base64 text (standard alphabet, padded) of some bytes.
pub uninterp spec fn base64_text(data: Seq<u8>) -> Seq<char>;

/// The lower-case hex text of the SHA-256 digest of some bytes.
pub uninterp spec fn sha256_hex_text(data: Seq<u8>) -> Seq<char>;

/// Whether version text `a` is greater than `b`, or `None` where either does
/// not read as a version.
pub uninterp spec fn version_greater(a: Seq<char>, b: Seq<char>) -> Option<bool>;

/// Relies on `brotli::CompressorWriter` (quality 11, window 22, 4096-byte
/// buffer) writing into a `Vec`, which cannot fail.
#[verifier::external_body]
fn brotli_compress(data: &Vec<u8>) -> (r: Vec<u8>)
    ensures
        r@ == brotli_compressed(data@),
{
    let mut out = Vec::new();
    {
        let mut writer = brotli::CompressorWriter::new(&mut out, 4096, 11, 22);
        let _ = std::io::Write::write_all(&mut writer, data);
    }
    out
}

/// Relies on `base64::encode` (base64 0.13, standard alphabet).
#[verifier::external_body]
fn base64_encode(data: &[u8]) -> (r: String)
    ensures
        r@ == base64_text(data@),
{
    base64::encode(data)
}

/// Relies on bitcoin's `sha256::Hash::hash` and `ToHex` on the digest bytes.
#[verifier::external_body]
fn sha256_hex(data: &Vec<u8>) -> (r: String)
    ensures
        r@ == sha256_hex_text(data@),
        r@.len() == 64,
{
    let digest = <bitcoin::hashes::sha256::Hash as bitcoin::hashes::Hash>::hash(data);
    bitcoin::hashes::hex::ToHex::to_hex(&bitcoin::hashes::Hash::into_inner(digest)[..])
}

/// Relies on `version_compare::compare_to` with `Cmp::Gt`.
#[verifier::external_body]
fn compare_versions(a: &String, b: &String) -> (r: Option<bool>)
    ensures
        r == version_greater(a@, b@),
{
    version_compare::compare_to(a, b, version_compare::Cmp::Gt).ok()
}

/// The content to inscribe: the compressed bytes where compression was tried
/// (because it was asked for or metadata is attached) and came out strictly
/// shorter, else the bytes as they are.
pub open spec fn chosen_content(body: Seq<u8>, try_compression: bool) -> (Seq<u8>, bool) {
    if try_compression && brotli_compressed(body).len() < body.len() {
        (brotli_compressed(body), true)
    } else {
        (body, false)
    }
}

/// Picks the content to inscribe from a file's bytes and says whether it is
/// compressed; refuses compression together with off-chain content, and
/// content over the chain's size limit.
pub fn prepare_content(
    body: Vec<u8>,
    compression: bool,
    offchain: bool,
    has_metadata: bool,
    size_limit: Option<usize>,
) -> (r: Result<(Vec<u8>, bool), BuildError>)
    ensures
        compression && offchain ==> r == Err::<(Vec<u8>, bool), BuildError>(
            BuildError::CompressionWithOffchain,
        ),
        !(compression && offchain) ==> {
            let (content, encoded) = chosen_content(body@, compression || has_metadata);
            match size_limit {
                Some(limit) if content.len() > limit => r == Err::<(Vec<u8>, bool), BuildError>(
                    BuildError::ContentTooLarge { len: content.len() as usize, limit },
                ),
                _ => r matches Ok((c, e)) && c@ == content && e == encoded,
            }
        },
{
    if compression && offchain {
        return Err(BuildError::CompressionWithOffchain);
    }
    let (content, encoded) = if compression || has_metadata {
        let compressed = brotli_compress(&body);
        if compressed.len() < body.len() {
            (compressed, true)
        } else {
            (body, false)
        }
    } else {
        (body, false)
    };
    match size_limit {
        Some(limit) => {
            if content.len() > limit {
                return Err(BuildError::ContentTooLarge { len: content.len(), limit });
            }
        },
        None => {},
    }
    Ok((content, encoded))
}

/// Whether `prefix` begins `s`, character by character.
pub open spec fn is_text_prefix(prefix: Seq<char>, s: Seq<char>) -> bool {
    prefix.len() <= s.len() && s.subrange(0, prefix.len() as int) == prefix
}

fn starts_with(s: &String, prefix: &String) -> (r: bool)
    ensures
        r == is_text_prefix(prefix@, s@),
{
    let n = prefix.as_str().unicode_len();
    let m = s.as_str().unicode_len();
    if n > m {
        return false;
    }
    let mut i: usize = 0;
    while i < n
        invariant
            n == prefix@.len(),
            m == s@.len(),
            n <= m,
            i <= n,
            forall|j: int| 0 <= j < i ==> s@[j] == prefix@[j],
        decreases n - i,
    {
        if s.as_str().get_char(i) != prefix.as_str().get_char(i) {
            assert(s@.subrange(0, n as int)[i as int] != prefix@[i as int]);
            return false;
        }
        i = i + 1;
    }
    assert(s@.subrange(0, n as int) =~= prefix@);
    true
}

/// The latest of the first `k` spec files that begin with `id`: a later file
/// replaces the one kept unless the kept one's version is greater.
pub open spec fn latest_spec(files: Seq<Seq<char>>, id: Seq<char>, k: nat) -> Option<Seq<char>>
    decreases k,
{
    if k == 0 {
        None
    } else {
        let kept = latest_spec(files, id, (k - 1) as nat);
        let f = files[k - 1];
        if !is_text_prefix(id, f) {
            kept
        } else {
            match kept {
                Some(a) => if version_greater(a, f) == Some(true) {
                    kept
                } else {
                    Some(f)
                },
                None => Some(f),
            }
        }
    }
}

/// The values of a list of names.
pub open spec fn text_views(s: Seq<String>) -> Seq<Seq<char>> {
    s.map_values(|t: String| t@)
}

/// The spec file of a protocol among the bundled `files`: fixed for `ord-v1`,
/// `pub-v1` and `pub`; else the latest file whose name begins with the
/// protocol identifier, if any.
pub open spec fn spec_file_for(id: Seq<char>, files: Seq<Seq<char>>) -> Option<Seq<char>> {
    if id == "ord-v1"@ {
        Some("ord-v1.0.0.json"@)
    } else if id == "pub-v1"@ || id == "pub"@ {
        Some("pub-v1.0.0.json"@)
    } else {
        latest_spec(files, id, files.len())
    }
}

/// Picks the spec file of protocol `protocol_id` among the bundled file names.
pub fn spec_file_name(protocol_id: &String, files: &Vec<String>) -> (r: Option<String>)
    ensures
        opt_text(r) == spec_file_for(protocol_id@, text_views(files@)),
{
    if text_is(protocol_id, "ord-v1") {
        return Some("ord-v1.0.0.json".to_owned());
    }
    if text_is(protocol_id, "pub-v1") || text_is(protocol_id, "pub") {
        return Some("pub-v1.0.0.json".to_owned());
    }
    let ghost fs = text_views(files@);
    let mut active: Option<String> = None;
    let mut k: usize = 0;
    while k < files.len()
        invariant
            k <= files@.len(),
            fs == text_views(files@),
            opt_text(active) == latest_spec(fs, protocol_id@, k as nat),
        decreases files@.len() - k,
    {
        let f = &files[k];
        if starts_with(f, protocol_id) {
            let replace = match &active {
                Some(a) => match compare_versions(a, f) {
                    Some(true) => false,
                    _ => true,
                },
                None => true,
            };
            if replace {
                active = Some(f.clone());
            }
        }
        k = k + 1;
    }
    proof {
        reveal_strlit("ord-v1");
        reveal_strlit("pub-v1");
        reveal_strlit("pub");
    }
    active
}

/// Whether inscriptions of a protocol are tracked: its spec says
/// `"tracking": true`, or it is the legacy `ord-v0`.
pub fn protocol_tracking(spec_text: &String, protocol_id: &String) -> (r: bool)
    ensures
        r == (json_tracking_flag(spec_text@) == Some(true) || protocol_id@ == "ord-v0"@),
{
    let declared = match json_tracking(spec_text) {
        Some(t) => t,
        None => false,
    };
    declared || text_is(protocol_id, "ord-v0")
}

/// The expansion that wraps the content, given the protocol, its version and
/// properties, the content and whether it is compressed, the magnet URI and
/// SHA-256 hex of off-chain content, the media type and the base64 metadata;
/// `None` for the legacy `ord-v0` protocol, which inscribes the bare content.
pub open spec fn expansion_spec(
    protocol: Seq<char>,
    version: Seq<char>,
    properties: Seq<char>,
    content: Seq<u8>,
    compressed: bool,
    offchain: Option<(Seq<char>, Seq<char>)>,
    content_type: Seq<char>,
    metadata: Option<Seq<char>>,
) -> Option<ExpansionView> {
    if compressed {
        Some(
            ExpansionView {
                protocol,
                protocol_version: version,
                protocol_properties: properties,
                compression: Some(brotli_marker()),
                offchain: None,
                content: Some(base64_text(content)),
                content_hash: Some(sha256_hex_text(content)),
                content_type: Some(content_type),
                content_metadata: metadata,
                wrapped: true,
            },
        )
    } else if let Some((magnet, hash)) = offchain {
        Some(
            ExpansionView {
                protocol,
                protocol_version: version,
                protocol_properties: properties,
                compression: None,
                offchain: Some(magnet),
                content: None,
                content_hash: Some(hash),
                content_type: Some(content_type),
                content_metadata: metadata,
                wrapped: true,
            },
        )
    } else if protocol != "ord-v0"@ {
        Some(
            ExpansionView {
                protocol,
                protocol_version: version,
                protocol_properties: properties,
                compression: None,
                offchain: None,
                content: Some(base64_text(content)),
                content_hash: Some(sha256_hex_text(content)),
                content_type: Some(content_type),
                content_metadata: metadata,
                wrapped: true,
            },
        )
    } else {
        None
    }
}

/// The value of an optional pair of texts.
pub open spec fn opt_text_pair(o: Option<(String, String)>) -> Option<(Seq<char>, Seq<char>)> {
    match o {
        Some((a, b)) => Some((a@, b@)),
        None => None,
    }
}

/// Wraps the content in an expansion (see [`expansion_spec`]).
pub fn protocol_expansion(
    protocol_id: String,
    protocol_version: String,
    protocol_properties: String,
    content: &Vec<u8>,
    compressed: bool,
    offchain: Option<(String, String)>,
    content_type: String,
    content_metadata: Option<String>,
) -> (r: Option<Expansion>)
    ensures
        opt_expansion(r) == expansion_spec(
            protocol_id@,
            protocol_version@,
            protocol_properties@,
            content@,
            compressed,
            opt_text_pair(offchain),
            content_type@,
            opt_text(content_metadata),
        ),
{
    proof {
        reveal_strlit("br base64");
        reveal_strlit("ord-v0");
    }
    if compressed {
        let marker = "br base64".to_owned();
        assert(marker@ =~= brotli_marker());
        return Some(
            Expansion {
                protocol: protocol_id,
                protocol_version,
                protocol_properties,
                compression: Some(marker),
                offchain: None,
                content: Some(base64_encode(content.as_slice())),
                content_hash: Some(sha256_hex(content)),
                content_type: Some(content_type),
                content_metadata,
                wrapped: true,
            },
        );
    }
    match offchain {
        Some((magnet, hash)) => {
            return Some(
                Expansion {
                    protocol: protocol_id,
                    protocol_version,
                    protocol_properties,
                    compression: None,
                    offchain: Some(magnet),
                    content: None,
                    content_hash: Some(hash),
                    content_type: Some(content_type),
                    content_metadata,
                    wrapped: true,
                },
            );
        },
        None => {},
    }
    if text_is(&protocol_id, "ord-v0") {
        return None;
    }
    Some(
        Expansion {
            protocol: protocol_id,
            protocol_version,
            protocol_properties,
            compression: None,
            offchain: None,
            content: Some(base64_encode(content.as_slice())),
            content_hash: Some(sha256_hex(content)),
            content_type: Some(content_type),
            content_metadata,
            wrapped: true,
        },
    )
}

/// The metadata JSON text in base64, for the expansion, and as bytes, for the record.
pub fn metadata_fields(metadata: &String) -> (r: (String, Vec<u8>))
    ensures
        r.0@ == base64_text(vstd::utf8::encode_utf8(metadata@)),
        r.1@ == vstd::utf8::encode_utf8(metadata@),
{
    let bytes = metadata.as_str().as_bytes();
    (base64_encode(bytes), copy_bytes(bytes))
}

/// The comment of an `ord-v1` inscription whose content is stored as is.
pub const ORDV1_GENERAL_MESSAGE: &'static str = "This inscription is using the ordv1 protocol. If you see this message, you're likely using an outdated ordv0-only client or explorer. Consider upgrading to the software referenced in this message, asking your current software provider to add support for ordv1, or switching to other software compatible with ordv1.";

/// The comment of an `ord-v1` inscription whose content is compressed.
pub const ORDV1_COMPRESSED_MESSAGE: &'static str = "This inscription is compressed using the ordv1 protocol. If you see this message, you're likely using an outdated ordv0-only client or explorer. Consider upgrading to the software referenced in this message, asking your current software provider to add support for ordv1, or switching to other software compatible with ordv1.";

/// The comment of an `ord-v1` inscription whose content is off-chain.
pub const ORDV1_OFF_CHAIN_MESSAGE: &'static str = "This inscription's content is off-chain as a torrent using the ordv1 protocol. If you see this message, you're likely using an outdated ordv0-only client or explorer. Consider upgrading to the software referenced in this message, asking your current software provider to add support for ordv1, or switching to other software compatible with ordv1.";

/// Where the software that reads `ord-v1` inscriptions is found.
pub const ORDV1_SOFTWARE_MESSAGE: &'static str = "https://github.com/tyjvazum/arb";

/// An optional text, or the empty text.
pub open spec fn or_empty(o: Option<Seq<char>>) -> Seq<char> {
    match o {
        Some(t) => t,
        None => Seq::empty(),
    }
}

/// The assignments made to a protocol's properties, in order (a later one
/// of a key replaces an earlier one). For `ord-v1`: title, subtitle, license
/// and description from the caller, a comment that depends on how the content
/// is stored, and then the description again, as the software's address. For
/// any other protocol: empty title, subtitle and license.
pub open spec fn field_updates(
    id: Seq<char>,
    title: Option<Seq<char>>,
    subtitle: Option<Seq<char>>,
    license: Option<Seq<char>>,
    description: Option<Seq<char>>,
    compressed: bool,
    offchain: bool,
) -> Seq<(Seq<char>, Seq<char>)> {
    if id == "ord-v1"@ {
        seq![
            ("title"@, or_empty(title)),
            ("subtitle"@, or_empty(subtitle)),
            ("license"@, or_empty(license)),
            ("description"@, or_empty(description)),
            (
                "comment"@,
                if compressed {
                    ORDV1_COMPRESSED_MESSAGE@
                } else if offchain {
                    ORDV1_OFF_CHAIN_MESSAGE@
                } else {
                    ORDV1_GENERAL_MESSAGE@
                },
            ),
            ("description"@, ORDV1_SOFTWARE_MESSAGE@),
        ]
    } else {
        seq![("title"@, Seq::empty()), ("subtitle"@, Seq::empty()), ("license"@, Seq::empty())]
    }
}

/// The values of a list of key and value texts.
pub open spec fn text_pairs(s: Seq<(String, String)>) -> Seq<(Seq<char>, Seq<char>)> {
    s.map_values(|p: (String, String)| (p.0@, p.1@))
}

fn text_or_empty(o: Option<String>) -> (r: String)
    ensures
        r@ == or_empty(opt_text(o)),
{
    match o {
        Some(t) => t,
        None => String::new(),
    }
}

fn push_pair(out: &mut Vec<(String, String)>, key: &str, value: String)
    ensures
        text_pairs(final(out)@) == text_pairs(old(out)@).push((key@, value@)),
{
    out.push((key.to_owned(), value));
    assert(text_pairs(final(out)@) =~= text_pairs(old(out)@).push((key@, value@)));
}

/// The assignments to make to a protocol's properties (see [`field_updates`]).
pub fn protocol_fields(
    protocol_id: &String,
    title: Option<String>,
    subtitle: Option<String>,
    license: Option<String>,
    description: Option<String>,
    compressed: bool,
    offchain: bool,
) -> (r: Vec<(String, String)>)
    ensures
        text_pairs(r@) == field_updates(
            protocol_id@,
            opt_text(title),
            opt_text(subtitle),
            opt_text(license),
            opt_text(description),
            compressed,
            offchain,
        ),
{
    proof {
        reveal_strlit("ord-v1");
    }
    let mut out: Vec<(String, String)> = Vec::new();
    if text_is(protocol_id, "ord-v1") {
        push_pair(&mut out, "title", text_or_empty(title));
        push_pair(&mut out, "subtitle", text_or_empty(subtitle));
        push_pair(&mut out, "license", text_or_empty(license));
        push_pair(&mut out, "description", text_or_empty(description));
        let comment = if compressed {
            ORDV1_COMPRESSED_MESSAGE
        } else if offchain {
            ORDV1_OFF_CHAIN_MESSAGE
        } else {
            ORDV1_GENERAL_MESSAGE
        };
        push_pair(&mut out, "comment", comment.to_owned());
        push_pair(&mut out, "description", ORDV1_SOFTWARE_MESSAGE.to_owned());
    } else {
        push_pair(&mut out, "title", String::new());
        push_pair(&mut out, "subtitle", String::new());
        push_pair(&mut out, "license", String::new());
    }
    assert(text_pairs(out@) =~= field_updates(
        protocol_id@,
        opt_text(title),
        opt_text(subtitle),
        opt_text(license),
        opt_text(description),
        compressed,
        offchain,
    ));
    out
}

impl Inscription {
    /// A record whose body is the JSON text of an expansion.
    pub fn wrapping(
        json: Vec<u8>,
        tracking: bool,
        content_metadata: Option<Vec<u8>>,
        protocol_properties: String,
    ) -> (r: Inscription)
        ensures
            r@.content_type == Some(json_media_type()),
            r@.body == Some(json@),
            r.tracking == tracking,
            r@.content_metadata == opt_bytes(content_metadata),
            r@.protocol_properties == Some(protocol_properties@),
    {
        Inscription {
            content_type: Some(json_media_type_bytes()),
            body: Some(json),
            tracking,
            content_metadata,
            protocol_properties: Some(protocol_properties),
        }
    }
}

} // verus!
