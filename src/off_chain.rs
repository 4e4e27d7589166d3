//! What an off-chain inscription is built from: the magnet URI of its torrent
//! and the DHT bootstrap nodes written into the torrent.
use vstd::prelude::*;
use vstd::string::{StrSliceExecFns, StringExecFns};

verus! {

/// Bittorrent piece length (1 MiB).
pub const PIECE_LENGTH: i64 = 1048576;

/// The tracker named in magnet links.
pub const DEFAULT_TRACKER: &'static str = "udp://tracker.openbittorrent.com:6969";

/// The bootstrap peer named in magnet links.
pub const DEFAULT_PEER: &'static str = "dht.aelitis.com:6881";

/// The percent-encoding of a text (every byte but alphanumerics and `-_.~`).
pub uninterp spec fn url_encoded(text: Seq<char>) -> Seq<char>;

/// A text with leading and trailing white space removed.
pub uninterp spec fn trimmed(text: Seq<char>) -> Seq<char>;

/// The `i64` a decimal text stands for, or `None` where it stands for none.
pub uninterp spec fn decimal_i64(text: Seq<char>) -> Option<i64>;

/// Relies on `urlencoding::encode`.
#[verifier::external_body]
fn url_encode(text: &str) -> (r: String)
    ensures
        r@ == url_encoded(text@),
{
    urlencoding::encode(text).into_owned()
}

/// Relies on `str::trim`.
#[verifier::external_body]
fn trim(text: &str) -> (r: &str)
    ensures
        r@ == trimmed(text@),
{
    text.trim()
}

/// Relies on `str::parse::<i64>`.
#[verifier::external_body]
fn parse_i64(text: &str) -> (r: Option<i64>)
    ensures
        r == decimal_i64(text@),
{
    text.parse::<i64>().ok()
}

/// The magnet URI of a torrent with the given info-hash hex: it names the
/// default tracker and peer.
pub open spec fn magnet_uri_of(infohash_hex: Seq<char>) -> Seq<char> {
    "magnet:?xt=urn:btih:"@ + infohash_hex + "&tr="@ + url_encoded(DEFAULT_TRACKER@) + "&x.pe="@
        + url_encoded(DEFAULT_PEER@)
}

/// The magnet URI of a torrent with the given info-hash hex.
pub fn magnet_uri(infohash_hex: &str) -> (r: String)
    ensures
        r@ == magnet_uri_of(infohash_hex@),
{
    let tracker = url_encode(DEFAULT_TRACKER);
    let peer = url_encode(DEFAULT_PEER);
    let r = String::from_str("magnet:?xt=urn:btih:").concat(infohash_hex).concat("&tr=").concat(
        tracker.as_str(),
    ).concat("&x.pe=").concat(peer.as_str());
    proof {
        reveal_strlit("magnet:?xt=urn:btih:");
        reveal_strlit("&tr=");
        reveal_strlit("&x.pe=");
    }
    r
}

/// The pieces of `s` from position `i` on, the current one begun at `start`,
/// cut at each `sep`.
pub open spec fn split_from(s: Seq<char>, sep: char, start: int, i: int) -> Seq<Seq<char>>
    decreases s.len() - i,
{
    if i >= s.len() {
        seq![s.subrange(start, s.len() as int)]
    } else if s[i] == sep {
        seq![s.subrange(start, i)] + split_from(s, sep, i + 1, i + 1)
    } else {
        split_from(s, sep, start, i + 1)
    }
}

/// The pieces of `s` between occurrences of `sep`, as `str::split` gives them.
pub open spec fn split_on(s: Seq<char>, sep: char) -> Seq<Seq<char>> {
    split_from(s, sep, 0, 0)
}

/// The values of a list of texts.
pub open spec fn texts(s: Seq<String>) -> Seq<Seq<char>> {
    s.map_values(|t: String| t@)
}

/// Splits `s` at each `sep`.
fn split(s: &str, sep: char) -> (r: Vec<String>)
    ensures
        texts(r@) == split_on(s@, sep),
{
    let n = s.unicode_len();
    let mut pieces: Vec<String> = Vec::new();
    let mut start: usize = 0;
    let mut i: usize = 0;
    while i < n
        invariant
            n == s@.len(),
            start <= i <= n,
            texts(pieces@) + split_from(s@, sep, start as int, i as int) == split_on(s@, sep),
        decreases n - i,
    {
        if s.get_char(i) == sep {
            let ghost before = texts(pieces@);
            let piece = s.substring_char(start, i).to_owned();
            pieces.push(piece);
            assert(texts(pieces@) =~= before.push(s@.subrange(start as int, i as int)));
            assert(before + split_from(s@, sep, start as int, i as int) =~= texts(pieces@)
                + split_from(s@, sep, i + 1, i + 1));
            start = i + 1;
        }
        i = i + 1;
    }
    let ghost before = texts(pieces@);
    pieces.push(s.substring_char(start, n).to_owned());
    assert(texts(pieces@) =~= before + split_from(s@, sep, start as int, n as int));
    pieces
}

/// The node a `host:port` text names: the text before the first `:` and the
/// number between the first and any second `:`; `None` without a `:` or a number.
pub open spec fn node_of(entry: Seq<char>) -> Option<(Seq<char>, i64)> {
    let parts = split_on(entry, ':');
    if parts.len() < 2 {
        None
    } else {
        match decimal_i64(parts[1]) {
            Some(port) => Some((parts[0], port)),
            None => None,
        }
    }
}

/// The nodes named by the first `k` entries, those that name none skipped.
pub open spec fn nodes_of(entries: Seq<Seq<char>>, k: int) -> Seq<(Seq<char>, i64)>
    decreases k,
{
    if k <= 0 {
        Seq::empty()
    } else {
        match node_of(entries[k - 1]) {
            Some(node) => nodes_of(entries, k - 1).push(node),
            None => nodes_of(entries, k - 1),
        }
    }
}

/// The nodes of a space-separated list of `host:port` entries, with white
/// space around the list trimmed.
pub open spec fn node_list(nodes: Seq<char>) -> Seq<(Seq<char>, i64)> {
    let entries = split_on(trimmed(nodes), ' ');
    nodes_of(entries, entries.len() as int)
}

/// The values of a list of nodes.
pub open spec fn node_views(s: Seq<(String, i64)>) -> Seq<(Seq<char>, i64)> {
    s.map_values(|n: (String, i64)| (n.0@, n.1))
}

/// The DHT bootstrap nodes of a space-separated list of `host:port` entries;
/// malformed entries are skipped.
pub fn bencode_nodes(nodes: &str) -> (r: Vec<(String, i64)>)
    ensures
        node_views(r@) == node_list(nodes@),
{
    let entries = split(trim(nodes), ' ');
    let ghost es = texts(entries@);
    let mut out: Vec<(String, i64)> = Vec::new();
    let mut k: usize = 0;
    while k < entries.len()
        invariant
            k <= entries@.len(),
            es == texts(entries@),
            node_views(out@) == nodes_of(es, k as int),
        decreases entries@.len() - k,
    {
        let parts = split(entries[k].as_str(), ':');
        assert(es[k as int] == entries@[k as int]@);
        if parts.len() >= 2 {
            assert(texts(parts@)[1] == parts@[1]@);
            assert(texts(parts@)[0] == parts@[0]@);
            match parse_i64(parts[1].as_str()) {
                Some(port) => {
                    let ghost before = node_views(out@);
                    out.push((parts[0].clone(), port));
                    assert(node_views(out@) =~= before.push((parts@[0]@, port)));
                },
                None => {},
            }
        }
        k = k + 1;
    }
    out
}

} // verus!
