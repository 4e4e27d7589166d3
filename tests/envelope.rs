use arb::inscription::Inscription;
use arb::parser::InscriptionError;
use arb::script::{Instruction, ScriptError};
use bitcoin::blockdata::{opcodes, script};

fn envelope(payload: &[&[u8]]) -> Vec<Vec<u8>> {
    let mut builder = script::Builder::new()
        .push_opcode(opcodes::OP_FALSE)
        .push_opcode(opcodes::all::OP_IF);

    for data in payload {
        builder = builder.push_slice(data);
    }

    let script = builder.push_opcode(opcodes::all::OP_ENDIF).into_script();

    vec![script.into_bytes(), Vec::new()]
}

fn inscription(content_type: &str, body: impl AsRef<[u8]>) -> Inscription {
    Inscription::new(
        Some(content_type.as_bytes().to_vec()),
        Some(body.as_ref().to_vec()),
    )
}

fn bare() -> Inscription {
    Inscription {
        content_type: None,
        body: None,
        tracking: true,
        content_metadata: None,
        protocol_properties: None,
    }
}

#[test]
fn empty() {
    assert_eq!(Inscription::parse(&Vec::new()), Err(InscriptionError::EmptyWitness));
}

#[test]
fn ignore_key_path_spends() {
    assert_eq!(
        Inscription::parse(&vec![Vec::new()]),
        Err(InscriptionError::KeyPathSpend),
    );
}

#[test]
fn ignore_key_path_spends_with_annex() {
    assert_eq!(
        Inscription::parse(&vec![Vec::new(), vec![0x50]]),
        Err(InscriptionError::KeyPathSpend),
    );
}

#[test]
fn ignore_unparsable_scripts() {
    assert_eq!(
        Inscription::parse(&vec![vec![0x01], Vec::new()]),
        Err(InscriptionError::Script(ScriptError::EarlyEndOfScript)),
    );
}

#[test]
fn no_inscription() {
    assert_eq!(
        Inscription::parse(&vec![bitcoin::Script::new().into_bytes(), Vec::new()]),
        Err(InscriptionError::NoInscription),
    );
}

#[test]
fn duplicate_field() {
    assert_eq!(
        Inscription::parse(&envelope(&[
            b"ord",
            &[1],
            b"text/plain;charset=utf-8",
            &[1],
            b"text/plain;charset=utf-8",
            &[],
            b"ord",
        ])),
        Err(InscriptionError::InvalidInscription),
    );
}

#[test]
fn valid() {
    assert_eq!(
        Inscription::parse(&envelope(&[
            b"ord",
            &[1],
            b"text/plain;charset=utf-8",
            &[],
            b"ord",
        ])),
        Ok(inscription("text/plain;charset=utf-8", "ord")),
    );
}

#[test]
fn valid_with_unknown_tag() {
    assert_eq!(
        Inscription::parse(&envelope(&[
            b"ord",
            &[1],
            b"text/plain;charset=utf-8",
            &[3],
            b"bar",
            &[],
            b"ord",
        ])),
        Ok(inscription("text/plain;charset=utf-8", "ord")),
    );
}

#[test]
fn no_content_tag() {
    assert_eq!(
        Inscription::parse(&envelope(&[b"ord", &[1], b"text/plain;charset=utf-8"])),
        Ok(Inscription {
            content_type: Some(b"text/plain;charset=utf-8".to_vec()),
            body: None,
            tracking: true,
            content_metadata: None,
            protocol_properties: None,
        }),
    );
}

#[test]
fn no_content_type() {
    assert_eq!(
        Inscription::parse(&envelope(&[b"ord", &[], b"foo"])),
        Ok(Inscription {
            content_type: None,
            body: Some(b"foo".to_vec()),
            tracking: true,
            content_metadata: None,
            protocol_properties: None,
        }),
    );
}

#[test]
fn valid_body_in_multiple_pushes() {
    assert_eq!(
        Inscription::parse(&envelope(&[
            b"ord",
            &[1],
            b"text/plain;charset=utf-8",
            &[],
            b"foo",
            b"bar"
        ])),
        Ok(inscription("text/plain;charset=utf-8", "foobar")),
    );
}

#[test]
fn valid_body_in_zero_pushes() {
    assert_eq!(
        Inscription::parse(&envelope(&[b"ord", &[1], b"text/plain;charset=utf-8", &[]])),
        Ok(inscription("text/plain;charset=utf-8", "")),
    );
}

#[test]
fn valid_body_in_multiple_empty_pushes() {
    assert_eq!(
        Inscription::parse(&envelope(&[
            b"ord",
            &[1],
            b"text/plain;charset=utf-8",
            &[],
            &[],
            &[],
            &[],
            &[],
            &[],
        ])),
        Ok(inscription("text/plain;charset=utf-8", "")),
    );
}

#[test]
fn valid_ignore_trailing() {
    let script = script::Builder::new()
        .push_opcode(opcodes::OP_FALSE)
        .push_opcode(opcodes::all::OP_IF)
        .push_slice(b"ord")
        .push_slice(&[1])
        .push_slice(b"text/plain;charset=utf-8")
        .push_slice(&[])
        .push_slice(b"ord")
        .push_opcode(opcodes::all::OP_ENDIF)
        .push_opcode(opcodes::all::OP_CHECKSIG)
        .into_script();

    assert_eq!(
        Inscription::parse(&vec![script.into_bytes(), Vec::new()]),
        Ok(inscription("text/plain;charset=utf-8", "ord")),
    );
}

#[test]
fn valid_ignore_preceding() {
    let script = script::Builder::new()
        .push_opcode(opcodes::all::OP_CHECKSIG)
        .push_opcode(opcodes::OP_FALSE)
        .push_opcode(opcodes::all::OP_IF)
        .push_slice(b"ord")
        .push_slice(&[1])
        .push_slice(b"text/plain;charset=utf-8")
        .push_slice(&[])
        .push_slice(b"ord")
        .push_opcode(opcodes::all::OP_ENDIF)
        .into_script();

    assert_eq!(
        Inscription::parse(&vec![script.into_bytes(), Vec::new()]),
        Ok(inscription("text/plain;charset=utf-8", "ord")),
    );
}

#[test]
fn valid_ignore_inscriptions_after_first() {
    let script = script::Builder::new()
        .push_opcode(opcodes::OP_FALSE)
        .push_opcode(opcodes::all::OP_IF)
        .push_slice(b"ord")
        .push_slice(&[1])
        .push_slice(b"text/plain;charset=utf-8")
        .push_slice(&[])
        .push_slice(b"foo")
        .push_opcode(opcodes::all::OP_ENDIF)
        .push_opcode(opcodes::OP_FALSE)
        .push_opcode(opcodes::all::OP_IF)
        .push_slice(b"ord")
        .push_slice(&[1])
        .push_slice(b"text/plain;charset=utf-8")
        .push_slice(&[])
        .push_slice(b"bar")
        .push_opcode(opcodes::all::OP_ENDIF)
        .into_script();

    assert_eq!(
        Inscription::parse(&vec![script.into_bytes(), Vec::new()]),
        Ok(inscription("text/plain;charset=utf-8", "foo")),
    );
}

#[test]
fn invalid_utf8_does_not_render_inscription_invalid() {
    assert_eq!(
        Inscription::parse(&envelope(&[
            b"ord",
            &[1],
            b"text/plain;charset=utf-8",
            &[],
            &[0b10000000]
        ])),
        Ok(inscription("text/plain;charset=utf-8", [0b10000000])),
    );
}

#[test]
fn no_endif() {
    let script = script::Builder::new()
        .push_opcode(opcodes::OP_FALSE)
        .push_opcode(opcodes::all::OP_IF)
        .push_slice("ord".as_bytes())
        .into_script();

    assert_eq!(
        Inscription::parse(&vec![script.into_bytes(), Vec::new()]),
        Err(InscriptionError::NoInscription)
    );
}

#[test]
fn no_op_false() {
    let script = script::Builder::new()
        .push_opcode(opcodes::all::OP_IF)
        .push_slice("ord".as_bytes())
        .push_opcode(opcodes::all::OP_ENDIF)
        .into_script();

    assert_eq!(
        Inscription::parse(&vec![script.into_bytes(), Vec::new()]),
        Err(InscriptionError::NoInscription)
    );
}

#[test]
fn empty_envelope() {
    assert_eq!(
        Inscription::parse(&envelope(&[])),
        Err(InscriptionError::NoInscription)
    );
}

#[test]
fn wrong_magic_number() {
    assert_eq!(
        Inscription::parse(&envelope(&[b"foo"])),
        Err(InscriptionError::NoInscription),
    );
}

#[test]
fn extract_from_transaction() {
    let inputs = vec![envelope(&[b"ord", &[1], b"text/plain;charset=utf-8", &[], b"ord"])];

    assert_eq!(
        Inscription::from_transaction(&inputs),
        Some(inscription("text/plain;charset=utf-8", "ord")),
    );
}

#[test]
fn do_not_extract_from_second_input() {
    let inputs = vec![Vec::new(), inscription("foo", [1; 1040]).to_witness()];

    assert_eq!(Inscription::from_transaction(&inputs), None);
}

#[test]
fn do_not_extract_from_second_envelope() {
    let mut instructions = Vec::new();
    inscription("foo", [1; 100]).append_reveal_instructions(&mut instructions);
    let script = inscription("bar", [1; 100]).append_reveal_script(instructions);

    let inputs = vec![vec![script, Vec::new()]];

    assert_eq!(
        Inscription::from_transaction(&inputs),
        Some(inscription("foo", [1; 100]))
    );
}

#[test]
fn inscribe_png() {
    assert_eq!(
        Inscription::parse(&envelope(&[b"ord", &[1], b"image/png", &[], &[1; 100]])),
        Ok(inscription("image/png", [1; 100])),
    );
}

fn instruction_count(i: &Inscription) -> usize {
    bitcoin::Script::from(i.append_reveal_script(Vec::new()))
        .instructions()
        .count()
}

#[test]
fn reveal_script_chunks_data() {
    assert_eq!(instruction_count(&inscription("foo", [])), 7);

    assert_eq!(instruction_count(&inscription("foo", [0; 1])), 8);

    assert_eq!(instruction_count(&inscription("foo", [0; 520])), 8);

    assert_eq!(instruction_count(&inscription("foo", [0; 521])), 9);

    assert_eq!(instruction_count(&inscription("foo", [0; 1040])), 9);

    assert_eq!(instruction_count(&inscription("foo", [0; 1041])), 10);
}

#[test]
fn chunked_data_is_parsable() {
    let witness = vec![
        inscription("foo", [1; 1040]).append_reveal_script(Vec::new()),
        Vec::new(),
    ];

    assert_eq!(
        Inscription::parse(&witness).unwrap(),
        inscription("foo", [1; 1040]),
    );
}

#[test]
fn round_trip_with_no_fields() {
    let witness = vec![bare().append_reveal_script(Vec::new()), Vec::new()];

    assert_eq!(Inscription::parse(&witness).unwrap(), bare());
}

#[test]
fn unknown_odd_fields_are_ignored() {
    assert_eq!(Inscription::parse(&envelope(&[b"ord", &[3], &[0]])), Ok(bare()));
}

#[test]
fn unknown_even_fields_are_invalid() {
    assert_eq!(
        Inscription::parse(&envelope(&[b"ord", &[2], &[0]])),
        Err(InscriptionError::UnrecognizedEvenField),
    );
}

#[test]
fn body_tag_alone_gives_an_empty_body() {
    assert_eq!(
        Inscription::parse(&envelope(&[b"ord", &[]])),
        Ok(Inscription::new(None, Some(Vec::new()))),
    );
}

#[test]
fn two_envelopes_in_one_input_give_the_first() {
    let script = script::Builder::new()
        .push_opcode(opcodes::OP_FALSE)
        .push_opcode(opcodes::all::OP_IF)
        .push_slice(b"ord")
        .push_slice(&[1])
        .push_slice(b"foo")
        .push_slice(&[])
        .push_slice(&[1; 100])
        .push_opcode(opcodes::all::OP_ENDIF)
        .push_opcode(opcodes::OP_FALSE)
        .push_opcode(opcodes::all::OP_IF)
        .push_slice(b"ord")
        .push_slice(&[1])
        .push_slice(b"bar")
        .push_slice(&[])
        .push_slice(&[1; 100])
        .push_opcode(opcodes::all::OP_ENDIF)
        .into_script();
    let inputs = vec![vec![script.into_bytes(), Vec::new()]];

    assert_eq!(
        Inscription::from_transaction(&inputs),
        Some(inscription("foo", [1; 100]))
    );
}

#[test]
fn untracked_envelope_uses_pub_magic_and_is_not_read() {
    let mut i = inscription("foo", "bar");
    i.tracking = false;
    let script = i.append_reveal_script(Vec::new());
    assert_eq!(&script[2..6], &[0x03, b'p', b'u', b'b']);
    assert_eq!(
        Inscription::parse(&vec![script, Vec::new()]),
        Err(InscriptionError::NoInscription)
    );
}

#[test]
fn reveal_instructions_are_the_envelope() {
    let instructions = inscription("foo", [7; 521]).reveal_instructions();
    assert_eq!(instructions.len(), 9);
    assert_eq!(instructions[0], Instruction::PushBytes(Vec::new()));
    assert_eq!(instructions[1], Instruction::Op(0x63));
    assert_eq!(instructions[2], Instruction::PushBytes(b"ord".to_vec()));
    assert_eq!(instructions[3], Instruction::PushBytes(vec![1]));
    assert_eq!(instructions[4], Instruction::PushBytes(b"foo".to_vec()));
    assert_eq!(instructions[5], Instruction::PushBytes(Vec::new()));
    assert_eq!(instructions[6], Instruction::PushBytes(vec![7; 520]));
    assert_eq!(instructions[7], Instruction::PushBytes(vec![7]));
    assert_eq!(instructions[8], Instruction::Op(0x68));
}

#[test]
fn instructions_parse_without_bytes() {
    let instructions = vec![
        Instruction::PushBytes(Vec::new()),
        Instruction::Op(0x63),
        Instruction::PushBytes(b"ord".to_vec()),
        Instruction::PushBytes(vec![1]),
    ];
    assert_eq!(
        arb::parser::parse_instructions(instructions.clone(), None),
        Err(InscriptionError::NoInscription)
    );
    assert_eq!(
        arb::parser::parse_instructions(instructions, Some(ScriptError::EarlyEndOfScript)),
        Err(InscriptionError::Script(ScriptError::EarlyEndOfScript))
    );
}

#[test]
fn accessors() {
    let i = inscription("text/plain;charset=utf-8", "hello");
    assert_eq!(i.content_type(), Some("text/plain;charset=utf-8"));
    assert_eq!(i.body(), Some(&b"hello"[..]));
    assert_eq!(i.content_length(), Some(5));
    assert_eq!(
        i.clone().into_body_metadata_and_props(),
        (Some(b"hello".to_vec()), None, None)
    );
    let bad = Inscription::new(Some(vec![0xff]), None);
    assert_eq!(bad.content_type(), None);
    assert_eq!(bad.content_length(), None);
    assert_eq!(bad.body(), None);
}

#[test]
fn witness_of_three_elements_reads_the_second_to_last() {
    let mut witness = inscription("foo", "bar").to_witness();
    witness.insert(0, vec![9, 9]);
    assert_eq!(Inscription::parse(&witness), Ok(inscription("foo", "bar")));
}

#[test]
fn round_trip_through_witness_bytes() {
    for len in [0usize, 1, 75, 76, 255, 256, 519, 520, 521, 1040, 1041, 70000] {
        let body: Vec<u8> = (0..len).map(|i| (i % 251) as u8).collect();
        let with_type = Inscription::new(Some(b"image/png".to_vec()), Some(body.clone()));
        assert_eq!(Inscription::parse(&with_type.to_witness()), Ok(with_type));
        let without_type = Inscription::new(None, Some(body));
        assert_eq!(Inscription::parse(&without_type.to_witness()), Ok(without_type));
    }
    let no_body = Inscription::new(Some(b"text/plain".to_vec()), None);
    assert_eq!(Inscription::parse(&no_body.to_witness()), Ok(no_body));
}
