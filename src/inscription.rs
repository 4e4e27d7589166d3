//! The inscription record and the envelope that carries it in a script.
use crate::bytes::copy_bytes;
use crate::laws::{lemma_envelope_round_trip, lemma_untracked_envelope_not_read};
use crate::parser::{
    has_annex, raw_record, script_element, witness_inscription, witness_view, InscriptionError,
};
use crate::script::{
    emittable, encode_script, instr_views, plain_ops, script_bytes, script_instructions, InstrView,
    Instruction, ScriptError, MAX_PUSH_LEN, OP_ENDIF, OP_IF,
};
use vstd::prelude::*;
use vstd::utf8::{decode_utf8, valid_utf8};

verus! {

/// Data pushes in a reveal script are at most this long.
pub const MAX_CHUNK: usize = 520;

/// A parsed or constructed inscription.
#[derive(Debug, PartialEq, Clone)]
pub struct Inscription {
    /// The media type, as UTF-8 when present.
    pub content_type: Option<Vec<u8>>,
    /// The payload.
    pub body: Option<Vec<u8>>,
    /// Whether the envelope's magic is `ord` (tracked) rather than `pub`.
    pub tracking: bool,
    /// Metadata JSON, as written.
    pub content_metadata: Option<Vec<u8>>,
    /// The merged protocol properties, as a JSON object text.
    pub protocol_properties: Option<String>,
}

/// The mathematical value of an [`Inscription`].
pub struct InscriptionView {
    pub content_type: Option<Seq<u8>>,
    pub body: Option<Seq<u8>>,
    pub tracking: bool,
    pub content_metadata: Option<Seq<u8>>,
    pub protocol_properties: Option<Seq<char>>,
}

/// The value of an optional byte string.
pub open spec fn opt_bytes(o: Option<Vec<u8>>) -> Option<Seq<u8>> {
    match o {
        Some(v) => Some(v@),
        None => None,
    }
}

/// The value of an optional string.
pub open spec fn opt_text(o: Option<String>) -> Option<Seq<char>> {
    match o {
        Some(v) => Some(v@),
        None => None,
    }
}

impl View for Inscription {
    type V = InscriptionView;

    open spec fn view(&self) -> InscriptionView {
        InscriptionView {
            content_type: opt_bytes(self.content_type),
            body: opt_bytes(self.body),
            tracking: self.tracking,
            content_metadata: opt_bytes(self.content_metadata),
            protocol_properties: opt_text(self.protocol_properties),
        }
    }
}

/// `ord`, the magic of a tracked envelope.
pub open spec fn ord_magic() -> Seq<u8> {
    seq![0x6fu8, 0x72u8, 0x64u8]
}

/// `pub`, the magic of an untracked envelope.
pub open spec fn pub_magic() -> Seq<u8> {
    seq![0x70u8, 0x75u8, 0x62u8]
}

/// The tag that opens the body.
pub open spec fn body_tag() -> Seq<u8> {
    Seq::empty()
}

/// The tag of the content type field.
pub open spec fn content_type_tag() -> Seq<u8> {
    seq![0x01u8]
}

/// How many pushes a body of `n` bytes takes: one per started chunk.
pub open spec fn chunk_count(n: nat) -> nat {
    ((n + MAX_CHUNK as int - 1) / MAX_CHUNK as int) as nat
}

/// The body split into consecutive pushes of at most `MAX_CHUNK` bytes.
pub open spec fn body_chunks(b: Seq<u8>) -> Seq<InstrView> {
    Seq::new(
        chunk_count(b.len()),
        |k: int|
            InstrView::Push(
                b.subrange(
                    k * MAX_CHUNK as int,
                    if (k + 1) * MAX_CHUNK as int <= b.len() {
                        (k + 1) * MAX_CHUNK as int
                    } else {
                        b.len() as int
                    },
                ),
            ),
    )
}

/// The envelope that carries `i`:
/// `OP_FALSE OP_IF magic [0x01 content_type] [0x00 chunk*] OP_ENDIF`.
pub open spec fn envelope(i: InscriptionView) -> Seq<InstrView> {
    seq![
        InstrView::Push(Seq::empty()),
        InstrView::Op(OP_IF),
        InstrView::Push(if i.tracking { ord_magic() } else { pub_magic() }),
    ] + match i.content_type {
        Some(ct) => seq![InstrView::Push(content_type_tag()), InstrView::Push(ct)],
        None => Seq::empty(),
    } + match i.body {
        Some(b) => seq![InstrView::Push(body_tag())] + body_chunks(b),
        None => Seq::empty(),
    } + seq![InstrView::Op(OP_ENDIF)]
}

/// Relies on `std::str::from_utf8`: the text of the bytes exactly when they are UTF-8.
#[verifier::external_body]
pub(crate) fn utf8_str(bytes: &[u8]) -> (r: Option<&str>)
    ensures
        r is Some <==> valid_utf8(bytes@),
        r matches Some(t) ==> t@ == decode_utf8(bytes@),
{
    std::str::from_utf8(bytes).ok()
}

/// Every push of an envelope can be emitted, given a content type under 4 GiB.
pub proof fn lemma_envelope_emittable(i: InscriptionView)
    requires
        i.content_type matches Some(ct) ==> ct.len() < MAX_PUSH_LEN,
    ensures
        emittable(envelope(i)),
{
    let e = envelope(i);
    assert forall|k: int| 0 <= k < e.len() implies match #[trigger] e[k] {
        InstrView::Push(d) => d.len() < MAX_PUSH_LEN,
        InstrView::Op(_) => true,
    } by {
        let ct_len: int = if i.content_type is Some { 2 } else { 0 };
        if 3 + ct_len + 1 <= k < e.len() - 1 && i.body is Some {
            let b = i.body->0;
            let j = k - 3 - ct_len - 1;
            assert(e[k] == body_chunks(b)[j]);
        }
    }
}

/// The only opcodes of an envelope are `OP_IF` and `OP_ENDIF`.
proof fn lemma_envelope_plain_ops(i: InscriptionView)
    ensures
        plain_ops(envelope(i)),
{
    let e = envelope(i);
    assert forall|k: int| 0 <= k < e.len() implies match #[trigger] e[k] {
        InstrView::Push(_) => true,
        InstrView::Op(o) => o >= 0x4f,
    } by {
        let ct_len: int = if i.content_type is Some { 2 } else { 0 };
        if 3 + ct_len + 1 <= k < e.len() - 1 && i.body is Some {
            let b = i.body->0;
            let j = k - 3 - ct_len - 1;
            assert(e[k] == body_chunks(b)[j]);
        }
    }
}

/// Pushes a copy of `data`.
fn push_bytes(out: &mut Vec<Instruction>, data: &[u8])
    ensures
        instr_views(final(out)@) == instr_views(old(out)@).push(InstrView::Push(data@)),
{
    out.push(Instruction::PushBytes(copy_bytes(data)));
    assert(instr_views(final(out)@) =~= instr_views(old(out)@).push(InstrView::Push(data@)));
}

impl Inscription {
    /// A tracked inscription with the given content type and body, and no
    /// metadata or properties.
    pub fn new(content_type: Option<Vec<u8>>, body: Option<Vec<u8>>) -> (r: Self)
        ensures
            r.content_type == content_type,
            r.body == body,
            r.tracking,
            r.content_metadata is None,
            r.protocol_properties is None,
    {
        Inscription {
            content_type,
            body,
            tracking: true,
            content_metadata: None,
            protocol_properties: None,
        }
    }

    /// Appends this inscription's envelope to `out`.
    pub fn append_reveal_instructions(&self, out: &mut Vec<Instruction>)
        ensures
            instr_views(final(out)@) == instr_views(old(out)@) + envelope(self@),
    {
        let ghost start = instr_views(out@);
        push_bytes(out, Vec::<u8>::new().as_slice());
        let ghost p1 = out@;
        out.push(Instruction::Op(OP_IF));
        assert(instr_views(out@) =~= instr_views(p1).push(InstrView::Op(OP_IF)));
        let magic: Vec<u8> = if self.tracking {
            vec![0x6fu8, 0x72u8, 0x64u8]
        } else {
            vec![0x70u8, 0x75u8, 0x62u8]
        };
        assert(magic@ =~= if self.tracking { ord_magic() } else { pub_magic() });
        push_bytes(out, magic.as_slice());
        let ghost head = seq![
            InstrView::Push(Seq::empty()),
            InstrView::Op(OP_IF),
            InstrView::Push(if self.tracking { ord_magic() } else { pub_magic() }),
        ];
        assert(instr_views(out@) =~= start + head);
        let ghost ct_part = match self@.content_type {
            Some(ct) => seq![InstrView::Push(content_type_tag()), InstrView::Push(ct)],
            None => Seq::<InstrView>::empty(),
        };
        match &self.content_type {
            Some(ct) => {
                let tag: Vec<u8> = vec![0x01u8];
                assert(tag@ =~= content_type_tag());
                push_bytes(out, tag.as_slice());
                push_bytes(out, ct.as_slice());
            },
            None => {},
        }
        assert(instr_views(out@) =~= start + head + ct_part);
        let ghost body_part = match self@.body {
            Some(b) => seq![InstrView::Push(body_tag())] + body_chunks(b),
            None => Seq::<InstrView>::empty(),
        };
        match &self.body {
            Some(body) => {
                push_bytes(out, Vec::<u8>::new().as_slice());
                let ghost before = instr_views(out@);
                let n = body.len();
                let mut start_at: usize = 0;
                let ghost mut k: int = 0;
                while start_at < n
                    invariant
                        n == body@.len(),
                        start_at <= n,
                        0 <= k <= chunk_count(n as nat),
                        start_at < n ==> start_at == k * MAX_CHUNK as int,
                        start_at == n ==> k == chunk_count(n as nat),
                        instr_views(out@) == before + body_chunks(body@).take(k),
                    decreases n - start_at,
                {
                    proof {
                        assert(k < chunk_count(n as nat)) by (nonlinear_arith)
                            requires
                                start_at == k * 520,
                                start_at < n,
                                chunk_count(n as nat) == (n + 519) / 520,
                        ;
                    }
                    let end = if n - start_at >= MAX_CHUNK {
                        start_at + MAX_CHUNK
                    } else {
                        n
                    };
                    let mut chunk: Vec<u8> = Vec::new();
                    let mut j: usize = start_at;
                    while j < end
                        invariant
                            start_at <= j <= end <= n == body@.len(),
                            chunk@ == body@.subrange(start_at as int, j as int),
                        decreases end - j,
                    {
                        chunk.push(body[j]);
                        j = j + 1;
                        assert(chunk@ =~= body@.subrange(start_at as int, j as int));
                    }
                    let ghost prev = out@;
                    out.push(Instruction::PushBytes(chunk));
                    proof {
                        assert(body_chunks(body@)[k] == InstrView::Push(
                            body@.subrange(start_at as int, end as int),
                        ));
                        assert(instr_views(out@) =~= instr_views(prev).push(
                            InstrView::Push(chunk@),
                        ));
                        assert(body_chunks(body@).take(k + 1) =~= body_chunks(body@).take(k).push(
                            body_chunks(body@)[k],
                        ));
                        k = k + 1;
                        if end == n {
                            assert(k == chunk_count(n as nat)) by (nonlinear_arith)
                                requires
                                    (k - 1) * 520 < n,
                                    k * 520 >= n,
                                    chunk_count(n as nat) == (n + 519) / 520,
                            ;
                        }
                    }
                    start_at = end;
                }
                proof {
                    assert(body_chunks(body@).take(k) =~= body_chunks(body@));
                    assert(instr_views(out@) =~= start + head + ct_part + body_part);
                }
            },
            None => {},
        }
        assert(instr_views(out@) =~= start + head + ct_part + body_part);
        let ghost p2 = out@;
        out.push(Instruction::Op(OP_ENDIF));
        assert(instr_views(out@) =~= instr_views(p2).push(InstrView::Op(OP_ENDIF)));
        assert(instr_views(out@) =~= start + envelope(self@));
    }

    /// The instructions of this inscription's envelope.
    pub fn reveal_instructions(&self) -> (r: Vec<Instruction>)
        ensures
            instr_views(r@) == envelope(self@),
    {
        let mut out: Vec<Instruction> = Vec::new();
        self.append_reveal_instructions(&mut out);
        assert(instr_views(out@) =~= envelope(self@));
        out
    }

    /// The script of `prefix` followed by this inscription's envelope, as bytes.
    pub fn append_reveal_script(&self, prefix: Vec<Instruction>) -> (r: Vec<u8>)
        requires
            emittable(instr_views(prefix@)),
            self@.content_type matches Some(ct) ==> ct.len() < MAX_PUSH_LEN,
        ensures
            r@ == script_bytes(instr_views(prefix@) + envelope(self@)),
            plain_ops(instr_views(prefix@)) ==> script_instructions(r@) == (
                instr_views(prefix@) + envelope(self@),
                None::<ScriptError>,
            ),
    {
        let mut instructions = prefix;
        self.append_reveal_instructions(&mut instructions);
        proof {
            lemma_envelope_emittable(self@);
            let s = instr_views(instructions@);
            assert forall|i: int| 0 <= i < s.len() implies match #[trigger] s[i] {
                InstrView::Push(d) => d.len() < MAX_PUSH_LEN,
                InstrView::Op(_) => true,
            } by {
                let p = instr_views(prefix@);
                if i < p.len() {
                    assert(s[i] == p[i]);
                } else {
                    assert(s[i] == envelope(self@)[i - p.len()]);
                }
            }
            if plain_ops(instr_views(prefix@)) {
                lemma_envelope_plain_ops(self@);
                assert forall|i: int| 0 <= i < s.len() implies match #[trigger] s[i] {
                    InstrView::Push(_) => true,
                    InstrView::Op(o) => o >= 0x4f,
                } by {
                    let p = instr_views(prefix@);
                    if i < p.len() {
                        assert(s[i] == p[i]);
                    } else {
                        assert(s[i] == envelope(self@)[i - p.len()]);
                    }
                }
            }
        }
        encode_script(&instructions)
    }

    /// A witness that spends this inscription's envelope: its script and an
    /// empty control block.
    pub fn to_witness(&self) -> (r: Vec<Vec<u8>>)
        requires
            self@.content_type matches Some(ct) ==> ct.len() < MAX_PUSH_LEN,
        ensures
            r@.len() == 2,
            r@[0]@ == script_bytes(envelope(self@)),
            r@[1]@.len() == 0,
            self.tracking ==> witness_inscription(witness_view(r@)) == Ok::<
                InscriptionView,
                InscriptionError,
            >(raw_record(self@.content_type, self@.body)),
            !self.tracking ==> witness_inscription(witness_view(r@)) == Err::<
                InscriptionView,
                InscriptionError,
            >(InscriptionError::NoInscription),
    {
        let prefix: Vec<Instruction> = Vec::new();
        assert(instr_views(prefix@) =~= Seq::<InstrView>::empty());
        let script = self.append_reveal_script(prefix);
        assert(Seq::<InstrView>::empty() + envelope(self@) =~= envelope(self@));
        let mut w: Vec<Vec<u8>> = Vec::new();
        w.push(script);
        w.push(Vec::new());
        proof {
            let wv = witness_view(w@);
            assert(wv.len() == 2);
            assert(wv[0] == script@);
            assert(wv.last().len() == 0);
            assert(!has_annex(wv));
            assert(script_element(wv) == Ok::<Seq<u8>, InscriptionError>(script@));
            if self.tracking {
                lemma_envelope_round_trip(self@, Seq::empty(), None);
                assert(envelope(self@) + Seq::<InstrView>::empty() =~= envelope(self@));
            } else {
                lemma_untracked_envelope_not_read(self@);
            }
        }
        w
    }

    /// The body, if any.
    pub fn body(&self) -> (r: Option<&[u8]>)
        ensures
            match self.body {
                Some(b) => r matches Some(s) && s@ == b@,
                None => r is None,
            },
    {
        match &self.body {
            Some(b) => Some(b.as_slice()),
            None => None,
        }
    }

    /// The length of the body, if any.
    pub fn content_length(&self) -> (r: Option<usize>)
        ensures
            match self.body {
                Some(b) => r == Some(b@.len() as usize),
                None => r is None,
            },
    {
        match self.body() {
            Some(b) => Some(b.len()),
            None => None,
        }
    }

    /// The content type, where it is UTF-8.
    pub fn content_type(&self) -> (r: Option<&str>)
        ensures
            match self.content_type {
                Some(ct) => if valid_utf8(ct@) {
                    r matches Some(t) && t@ == decode_utf8(ct@)
                } else {
                    r is None
                },
                None => r is None,
            },
    {
        match &self.content_type {
            Some(ct) => utf8_str(ct.as_slice()),
            None => None,
        }
    }

    /// The body, the metadata and the protocol properties.
    pub fn into_body_metadata_and_props(self) -> (r: (Option<Vec<u8>>, Option<Vec<u8>>, Option<String>))
        ensures
            r == (self.body, self.content_metadata, self.protocol_properties),
    {
        (self.body, self.content_metadata, self.protocol_properties)
    }
}

} // verus!
