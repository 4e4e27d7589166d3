use arb::builder::{
    metadata_fields, prepare_content, protocol_expansion, protocol_fields, protocol_tracking,
    spec_file_name, BuildError, ORDV1_COMPRESSED_MESSAGE, ORDV1_GENERAL_MESSAGE,
    ORDV1_OFF_CHAIN_MESSAGE, ORDV1_SOFTWARE_MESSAGE,
};
use arb::expansion::Expansion;
use arb::inscription::Inscription;
use arb::limit::LimitedReader;

fn s(t: &str) -> String {
    t.to_string()
}

fn wrapped_record(properties: &str) -> Inscription {
    Inscription::wrapping(b"{\"wrapped\":true}".to_vec(), false, None, s(properties))
}

#[test]
fn compressed_content_is_kept_only_when_shorter() {
    let body = vec![b'a'; 1000];
    let (content, encoded) = prepare_content(body.clone(), true, false, false, None).unwrap();
    assert!(encoded);
    assert!(content.len() < body.len());

    let (content, encoded) = prepare_content(vec![1, 2, 3], true, false, false, None).unwrap();
    assert!(!encoded);
    assert_eq!(content, vec![1, 2, 3]);

    let (content, encoded) = prepare_content(body.clone(), false, false, false, None).unwrap();
    assert!(!encoded);
    assert_eq!(content, body);

    let (_, encoded) = prepare_content(body.clone(), false, false, true, None).unwrap();
    assert!(encoded);
}

#[test]
fn compression_and_offchain_are_exclusive() {
    assert_eq!(
        prepare_content(vec![1], true, true, false, None),
        Err(BuildError::CompressionWithOffchain)
    );
}

#[test]
fn size_limit_is_enforced() {
    assert_eq!(
        prepare_content(vec![1; 11], false, false, false, Some(10)),
        Err(BuildError::ContentTooLarge { len: 11, limit: 10 })
    );
    assert_eq!(
        prepare_content(vec![1; 10], false, false, false, Some(10)),
        Ok((vec![1; 10], false))
    );
}

#[test]
fn pinned_and_latest_spec_files() {
    let files = vec![
        s("foo-v1.0.0.json"),
        s("foo-v1.2.0.json"),
        s("foo-v1.1.0.json"),
        s("bar-v9.0.0.json"),
    ];
    assert_eq!(spec_file_name(&s("ord-v1"), &files), Some(s("ord-v1.0.0.json")));
    assert_eq!(spec_file_name(&s("pub"), &files), Some(s("pub-v1.0.0.json")));
    assert_eq!(spec_file_name(&s("pub-v1"), &files), Some(s("pub-v1.0.0.json")));
    assert_eq!(spec_file_name(&s("foo"), &files), Some(s("foo-v1.2.0.json")));
    assert_eq!(spec_file_name(&s("baz"), &files), None);
}

#[test]
fn tracking_comes_from_the_spec_or_legacy_protocol() {
    assert!(protocol_tracking(&s("{\"tracking\": true}"), &s("pub")));
    assert!(!protocol_tracking(&s("{\"tracking\": false}"), &s("pub")));
    assert!(protocol_tracking(&s("{}"), &s("ord-v0")));
    assert!(!protocol_tracking(&s("{}"), &s("ord-v1")));
    assert!(!protocol_tracking(&s("not json"), &s("ord-v1")));
}

#[test]
fn ord_v1_fields_end_with_the_software_address() {
    let fields = protocol_fields(
        &s("ord-v1"),
        Some(s("T")),
        None,
        Some(s("MIT")),
        Some(s("D")),
        false,
        true,
    );
    assert_eq!(
        fields,
        vec![
            (s("title"), s("T")),
            (s("subtitle"), s("")),
            (s("license"), s("MIT")),
            (s("description"), s("D")),
            (s("comment"), s(ORDV1_OFF_CHAIN_MESSAGE)),
            (s("description"), s(ORDV1_SOFTWARE_MESSAGE)),
        ]
    );
    let compressed = protocol_fields(&s("ord-v1"), None, None, None, None, true, false);
    assert_eq!(compressed[4], (s("comment"), s(ORDV1_COMPRESSED_MESSAGE)));
    let plain = protocol_fields(&s("ord-v1"), None, None, None, None, false, false);
    assert_eq!(plain[4], (s("comment"), s(ORDV1_GENERAL_MESSAGE)));
    let other = protocol_fields(&s("pub"), Some(s("T")), None, None, None, false, false);
    assert_eq!(
        other,
        vec![(s("title"), s("")), (s("subtitle"), s("")), (s("license"), s(""))]
    );
}

#[test]
fn plain_expansion_carries_base64_and_hash() {
    let x = protocol_expansion(
        s("pub"),
        s("1"),
        s("{}"),
        &b"foo".to_vec(),
        false,
        None,
        s("text/plain;charset=utf-8"),
        None,
    )
    .unwrap();
    assert_eq!(x.content, Some(s("Zm9v")));
    assert_eq!(
        x.content_hash,
        Some(s("2c26b46b68ffc68ff99b453c1d30413413422d706483bfa0f98a5e886266e7ae"))
    );
    assert_eq!(x.compression, None);
    assert!(x.wrapped);
}

#[test]
fn legacy_protocol_has_no_expansion() {
    assert_eq!(
        protocol_expansion(s("ord-v0"), s("1"), s("{}"), &vec![1], false, None, s("x"), None),
        None
    );
}

#[test]
fn offchain_expansion_has_no_content() {
    let x = protocol_expansion(
        s("pub"),
        s("1"),
        s("{}"),
        &vec![1],
        false,
        Some((s("magnet:?xt=urn:btih:00"), s("ab"))),
        s("x"),
        None,
    )
    .unwrap();
    assert_eq!(x.offchain, Some(s("magnet:?xt=urn:btih:00")));
    assert_eq!(x.content, None);
    assert_eq!(x.content_hash, Some(s("ab")));

    let record = wrapped_record("{}").expand(Some(x));
    assert_eq!(record.body, None);
    assert!(!record.tracking);
}

#[test]
fn compressed_expansion_unwraps_to_the_original_bytes() {
    let body = vec![b'z'; 2000];
    let (content, encoded) = prepare_content(body.clone(), true, false, false, None).unwrap();
    assert!(encoded);
    let x = protocol_expansion(
        s("pub"),
        s("1"),
        s("{\"tracking\":true}"),
        &content,
        true,
        None,
        s("text/plain;charset=utf-8"),
        None,
    )
    .unwrap();
    assert_eq!(x.compression, Some(s("br base64")));

    let record = wrapped_record("{\"tracking\":true}").expand(Some(x));
    assert_eq!(record.body, Some(body));
    assert!(record.tracking);
    assert_eq!(record.protocol_properties, Some(s("{\"tracking\":true}")));
    assert_eq!(record.content_type, Some(b"application/json".to_vec()));
}

#[test]
fn plain_expansion_unwraps_with_metadata() {
    let (encoded_metadata, metadata_bytes) = metadata_fields(&s("{\"a\":1}"));
    assert_eq!(metadata_bytes, b"{\"a\":1}".to_vec());
    let x = protocol_expansion(
        s("pub"),
        s("1"),
        s("{}"),
        &b"hello".to_vec(),
        false,
        None,
        s("text/plain"),
        Some(encoded_metadata),
    )
    .unwrap();
    let record = wrapped_record("{}").expand(Some(x));
    assert_eq!(record.body, Some(b"hello".to_vec()));
    assert_eq!(record.content_metadata, Some(b"{\"a\":1}".to_vec()));
    assert_eq!(record.protocol_properties, None);
    assert!(!record.tracking);
}

#[test]
fn unreadable_or_unwrapped_expansion_keeps_the_envelope() {
    let raw = wrapped_record("{}");
    assert_eq!(raw.clone().expand(None), raw);

    let x = Expansion {
        protocol: s("error"),
        protocol_version: s("error"),
        protocol_properties: s(""),
        compression: None,
        offchain: None,
        content: Some(s("Zm9v")),
        content_hash: None,
        content_type: None,
        content_metadata: None,
        wrapped: false,
    };
    assert_eq!(raw.clone().expand(Some(x.clone())), raw);

    let mut wrapped = x;
    wrapped.wrapped = true;
    let text = Inscription::new(Some(b"text/plain".to_vec()), Some(b"{}".to_vec()));
    assert_eq!(text.clone().expand(Some(wrapped)), text);
}

#[test]
fn expansion_text_needs_json_and_utf8() {
    assert_eq!(wrapped_record("{}").expansion_text(), Some(s("{\"wrapped\":true}")));
    let not_utf8 = Inscription::new(Some(b"application/json".to_vec()), Some(vec![0xff]));
    assert_eq!(not_utf8.expansion_text(), None);
    let not_json = Inscription::new(Some(b"text/plain".to_vec()), Some(b"{}".to_vec()));
    assert_eq!(not_json.expansion_text(), None);
}

#[test]
fn limited_reader_budget() {
    let mut r = LimitedReader::new((), 10);
    assert_eq!(r.allowance(4), 4);
    r.record(4);
    assert_eq!(r.allowance(100), 6);
    r.record(6);
    assert_eq!(r.allowance(100), 0);
    assert_eq!(r.total_read, 10);
}

#[test]
fn magnet_uri_names_the_default_tracker_and_peer() {
    assert_eq!(
        arb::off_chain::magnet_uri("abcd"),
        "magnet:?xt=urn:btih:abcd&tr=udp%3A%2F%2Ftracker.openbittorrent.com%3A6969&x.pe=dht.aelitis.com%3A6881"
    );
}

#[test]
fn bootstrap_nodes_skip_malformed_entries() {
    assert_eq!(
        arb::off_chain::bencode_nodes("  a:1 b c:x d:2:3 "),
        vec![(s("a"), 1), (s("d"), 2)]
    );
    assert_eq!(arb::off_chain::bencode_nodes(""), vec![]);
}

#[test]
fn undecodable_content_gives_no_body_or_an_empty_one() {
    let mut x = protocol_expansion(s("pub"), s("1"), s("{}"), &vec![1], false, None, s("x"), None)
        .unwrap();
    x.content = Some(s("!!!"));
    assert_eq!(wrapped_record("{}").expand(Some(x.clone())).body, None);

    x.compression = Some(s("br base64"));
    assert_eq!(wrapped_record("{}").expand(Some(x)).body, Some(Vec::new()));
}
