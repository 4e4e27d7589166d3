//! What holds of every envelope: reading back what was written, how many
//! instructions an envelope takes, and how its fields are judged.
use crate::inscription::{
    body_chunks, body_tag, chunk_count, content_type_tag, envelope, ord_magic, InscriptionView,
    MAX_CHUNK,
};
use crate::parser::{
    body_from, end_error, envelope_result, fields_from, has_annex, opens_envelope, raw_record,
    scan_from, unknown_even, witness_inscription, InscriptionError,
};
use crate::script::{InstrView, ScriptError, OP_ENDIF, OP_IF};
use vstd::prelude::*;

verus! {

/// The body pushes of `b`, standing from position `p` of `s` and followed by
/// `OP_ENDIF`, read back from chunk `k` on as the rest of `b`.
proof fn lemma_body_read_back(s: Seq<InstrView>, error: Option<ScriptError>, p: nat, b: Seq<u8>, k: nat)
    requires
        k <= chunk_count(b.len()),
        p + chunk_count(b.len()) < s.len(),
        forall|j: int| 0 <= j < chunk_count(b.len()) ==> s[p + j] == #[trigger] body_chunks(b)[j],
        s[p + chunk_count(b.len()) as int] == InstrView::Op(OP_ENDIF),
    ensures
        body_from(s, error, p + k) == Ok::<Seq<u8>, InscriptionError>(
            b.subrange(
                if k * MAX_CHUNK as int <= b.len() { k * MAX_CHUNK as int } else { b.len() as int },
                b.len() as int,
            ),
        ),
    decreases chunk_count(b.len()) - k,
{
    let n = chunk_count(b.len());
    let len = b.len() as int;
    assert(n == (len + 519) / 520);
    if k == n {
        assert(k * 520 >= len) by (nonlinear_arith)
            requires
                k == (len + 519) / 520,
                len >= 0,
        ;
        assert(s[p + k as int] == InstrView::Op(OP_ENDIF));
        assert(b.subrange(len, len) =~= Seq::<u8>::empty());
    } else {
        lemma_body_read_back(s, error, p, b, k + 1);
        assert(k * 520 < len) by (nonlinear_arith)
            requires
                k < (len + 519) / 520,
                len >= 0,
        ;
        assert(s[p + k as int] == body_chunks(b)[k as int]);
        let kk = k as int;
        let end: int = if (kk + 1) * 520 <= len { (kk + 1) * 520 } else { len };
        assert(body_chunks(b)[k as int] == InstrView::Push(b.subrange(kk * 520, end)));
        assert(b.subrange(kk * 520, end) + b.subrange(end, len) =~= b.subrange(kk * 520, len));
    }
}

/// An envelope written for a tracked inscription reads back as that
/// inscription's content type and body, whatever follows it in the script:
/// later envelopes are not read. The record read is tracked and has no
/// metadata or properties, which only an expansion in the body can give.
pub proof fn lemma_envelope_round_trip(i: InscriptionView, rest: Seq<InstrView>, error: Option<ScriptError>)
    requires
        i.tracking,
    ensures
        scan_from(envelope(i) + rest, error, 0) == Ok::<InscriptionView, InscriptionError>(
            raw_record(i.content_type, i.body),
        ),
{
    let s = envelope(i) + rest;
    let e = envelope(i);
    let c: int = if i.content_type is Some { 2 } else { 0 };
    assert(s[0] == InstrView::Push(Seq::empty()));
    assert(s[1] == InstrView::Op(OP_IF));
    assert(s[2] == InstrView::Push(ord_magic()));
    assert(opens_envelope(s, 0));
    let p = (3 + c) as nat;
    // The fields after the content type.
    if i.body is Some {
        let b = i.body->0;
        let n = chunk_count(b.len());
        assert(e.len() == 3 + c + 1 + n + 1);
        assert(s[p as int] == InstrView::Push(body_tag()));
        assert forall|j: int| 0 <= j < n implies s[p + 1 + j] == #[trigger] body_chunks(b)[j] by {
            assert(s[p + 1 + j] == e[p + 1 + j]);
        }
        assert(s[p + 1 + n as int] == InstrView::Op(OP_ENDIF));
        lemma_body_read_back(s, error, p + 1, b, 0);
        assert(b.subrange(0, b.len() as int) =~= b);
    } else {
        assert(s[p as int] == InstrView::Op(OP_ENDIF));
    }
    if i.content_type is Some {
        let ct = i.content_type->0;
        assert(s[3] == InstrView::Push(content_type_tag()));
        assert(s[4] == InstrView::Push(ct));
        assert(content_type_tag().len() != body_tag().len());
        assert(!Seq::<Seq<u8>>::empty().contains(content_type_tag()));
        assert(!unknown_even(content_type_tag()));
        assert(fields_from(s, error, 3, Seq::empty(), None, false) == fields_from(
            s,
            error,
            5,
            Seq::<Seq<u8>>::empty().push(content_type_tag()),
            Some(ct),
            false,
        ));
    }
}

/// An envelope written for an untracked inscription carries the magic `pub`,
/// which a reader does not take for an envelope.
pub proof fn lemma_untracked_envelope_not_read(i: InscriptionView)
    requires
        !i.tracking,
    ensures
        scan_from(envelope(i), None, 0) == Err::<InscriptionView, InscriptionError>(
            InscriptionError::NoInscription,
        ),
{
    let s = envelope(i);
    assert forall|j: int| #![trigger opens_envelope(s, j)] !opens_envelope(s, j) by {
        if opens_envelope(s, j) {
            let c: int = if i.content_type is Some { 2 } else { 0 };
            if j + 1 == 1 {
                assert(s[2] == InstrView::Push(seq![0x70u8, 0x75u8, 0x62u8]));
                assert(seq![0x70u8, 0x75u8, 0x62u8][0] != ord_magic()[0]);
            } else if j + 1 < 3 + c {
                assert(s[j + 1] is Push);
            } else if i.body is Some && j + 1 < s.len() - 1 {
                let b = i.body->0;
                if j + 1 > 3 + c {
                    assert(s[j + 1] == body_chunks(b)[j + 1 - 4 - c]);
                }
            }
        }
    }
    lemma_no_envelope_scan(s, None, 0);
}

/// Where no envelope opens from position `i` on, the scan reaches the end.
proof fn lemma_no_envelope_scan(s: Seq<InstrView>, error: Option<ScriptError>, i: nat)
    requires
        forall|j: int| #![trigger opens_envelope(s, j)] i <= j ==> !opens_envelope(s, j),
    ensures
        scan_from(s, error, i) == Err::<InscriptionView, InscriptionError>(end_error(error)),
    decreases s.len() + 1 - i,
{
    if i < s.len() {
        assert(!opens_envelope(s, i as int));
        if s[i as int] == InstrView::Push(Seq::empty()) {
            lemma_no_envelope_scan(s, error, i + 2);
        } else {
            lemma_no_envelope_scan(s, error, i + 1);
        }
    }
}

/// How many instructions an envelope takes: four, two more for a content
/// type, and for a body one tag and one push per started 520-byte chunk.
pub proof fn lemma_envelope_length(i: InscriptionView)
    ensures
        envelope(i).len() == 4 + (if i.content_type is Some { 2int } else { 0int }) + match i.body {
            Some(b) => 1 + chunk_count(b.len()) as int,
            None => 0int,
        },
{
}

/// A witness of one element, or of two whose last is an annex, is a key-path
/// spend.
pub proof fn lemma_key_path_spend(w: Seq<Seq<u8>>)
    requires
        w.len() == 1 || (w.len() == 2 && has_annex(w)),
    ensures
        witness_inscription(w) == Err::<InscriptionView, InscriptionError>(InscriptionError::KeyPathSpend),
{
}

/// `OP_FALSE OP_IF ord`, which opens an envelope.
pub open spec fn opening() -> Seq<InstrView> {
    seq![InstrView::Push(Seq::empty()), InstrView::Op(OP_IF), InstrView::Push(ord_magic())]
}

/// A list of fields written out as pushes: each tag, then its value.
pub open spec fn field_instrs(fields: Seq<(Seq<u8>, Seq<u8>)>) -> Seq<InstrView> {
    Seq::new(
        2 * fields.len(),
        |j: int|
            if j % 2 == 0 {
                InstrView::Push(fields[j / 2].0)
            } else {
                InstrView::Push(fields[j / 2].1)
            },
    )
}

/// The tags of a list of fields.
pub open spec fn field_tags(fields: Seq<(Seq<u8>, Seq<u8>)>) -> Seq<Seq<u8>> {
    fields.map_values(|f: (Seq<u8>, Seq<u8>)| f.0)
}

/// No tag of the list is the body tag.
pub open spec fn tags_nonempty(fields: Seq<(Seq<u8>, Seq<u8>)>) -> bool {
    forall|j: int| 0 <= j < fields.len() ==> (#[trigger] fields[j]).0.len() > 0
}

/// No tag of the list comes twice.
pub open spec fn distinct_tags(fields: Seq<(Seq<u8>, Seq<u8>)>) -> bool {
    forall|a: int, b: int| 0 <= a < b < fields.len() ==> (#[trigger] fields[a]).0 != (#[trigger] fields[b]).0
}

/// The value of the last content type field of the list, if any.
pub open spec fn content_type_of(fields: Seq<(Seq<u8>, Seq<u8>)>) -> Option<Seq<u8>>
    decreases fields.len(),
{
    if fields.len() == 0 {
        None
    } else if fields.last().0 == content_type_tag() {
        Some(fields.last().1)
    } else {
        content_type_of(fields.drop_last())
    }
}

/// Whether some tag of the list is unknown and even.
pub open spec fn any_unknown_even(fields: Seq<(Seq<u8>, Seq<u8>)>) -> bool
    decreases fields.len(),
{
    fields.len() > 0 && (any_unknown_even(fields.drop_last()) || unknown_even(fields.last().0))
}

/// Reading the fields of `f` from the `k`-th to the `m`-th, with no tag
/// repeated among the first `m`, carries the reader's state along.
proof fn lemma_fields_walk(
    s: Seq<InstrView>,
    error: Option<ScriptError>,
    f: Seq<(Seq<u8>, Seq<u8>)>,
    k: nat,
    m: nat,
)
    requires
        k <= m <= f.len(),
        3 + 2 * f.len() <= s.len(),
        forall|j: int| 0 <= j < 2 * f.len() ==> s[3 + j] == #[trigger] field_instrs(f)[j],
        tags_nonempty(f),
        distinct_tags(f.take(m as int)),
    ensures
        fields_from(
            s,
            error,
            3 + 2 * k,
            field_tags(f.take(k as int)),
            content_type_of(f.take(k as int)),
            any_unknown_even(f.take(k as int)),
        ) == fields_from(
            s,
            error,
            3 + 2 * m,
            field_tags(f.take(m as int)),
            content_type_of(f.take(m as int)),
            any_unknown_even(f.take(m as int)),
        ),
    decreases m - k,
{
    if k < m {
        let t = f[k as int].0;
        let v = f[k as int].1;
        let i = (3 + 2 * k) as nat;
        assert(s[i as int] == field_instrs(f)[2 * k as int]);
        assert(s[i + 1 as int] == field_instrs(f)[2 * k as int + 1]);
        assert(s[i as int] == InstrView::Push(t));
        assert(s[i + 1 as int] == InstrView::Push(v));
        assert(f[k as int].0.len() > 0);
        assert(t != body_tag());
        assert(!field_tags(f.take(k as int)).contains(t)) by {
            if field_tags(f.take(k as int)).contains(t) {
                let a = choose|a: int| 0 <= a < k && field_tags(f.take(k as int))[a] == t;
                assert(f.take(m as int)[a] == f[a]);
                assert(f.take(m as int)[k as int] == f[k as int]);
            }
        }
        let next = f.take(k + 1 as int);
        assert(next.drop_last() =~= f.take(k as int));
        assert(next.last() == f[k as int]);
        assert(field_tags(next) =~= field_tags(f.take(k as int)).push(t));
        lemma_fields_walk(s, error, f, k + 1, m);
    }
}

/// A field list without repeated or body tags, closed by `OP_ENDIF`, reads
/// as its content type field, the other odd tags dropped; an unknown even tag
/// makes the envelope unreadable.
pub proof fn lemma_fields_judged(
    fields: Seq<(Seq<u8>, Seq<u8>)>,
    rest: Seq<InstrView>,
    error: Option<ScriptError>,
)
    requires
        tags_nonempty(fields),
        distinct_tags(fields),
    ensures
        scan_from(
            opening() + field_instrs(fields) + seq![InstrView::Op(OP_ENDIF)] + rest,
            error,
            0,
        ) == if any_unknown_even(fields) {
            Err::<InscriptionView, InscriptionError>(InscriptionError::UnrecognizedEvenField)
        } else {
            Ok(raw_record(content_type_of(fields), None))
        },
{
    let s = opening() + field_instrs(fields) + seq![InstrView::Op(OP_ENDIF)] + rest;
    let n = fields.len();
    assert(opens_envelope(s, 0));
    assert forall|j: int| 0 <= j < 2 * n implies s[3 + j] == #[trigger] field_instrs(fields)[j] by {}
    assert(fields.take(n as int) =~= fields);
    lemma_fields_walk(s, error, fields, 0, n);
    assert(fields.take(0) =~= Seq::<(Seq<u8>, Seq<u8>)>::empty());
    assert(field_tags(fields.take(0)) =~= Seq::<Seq<u8>>::empty());
    assert(s[3 + 2 * n as int] == InstrView::Op(OP_ENDIF));
    assert(envelope_result(s, error, 3) == scan_from(s, error, 0));
}

/// A field list in which some tag other than the body tag comes twice makes
/// the envelope invalid, whatever follows it.
pub proof fn lemma_duplicate_field(
    fields: Seq<(Seq<u8>, Seq<u8>)>,
    rest: Seq<InstrView>,
    error: Option<ScriptError>,
)
    requires
        tags_nonempty(fields),
        !distinct_tags(fields),
    ensures
        scan_from(opening() + field_instrs(fields) + rest, error, 0) == Err::<
            InscriptionView,
            InscriptionError,
        >(InscriptionError::InvalidInscription),
    decreases fields.len(),
{
    let n = fields.len();
    let s = opening() + field_instrs(fields) + rest;
    let front = fields.drop_last();
    assert(n > 0);
    if !distinct_tags(front) {
        let t = fields.last();
        let rest2 = seq![InstrView::Push(t.0), InstrView::Push(t.1)] + rest;
        assert forall|j: int| 0 <= j < front.len() implies (#[trigger] front[j]).0.len() > 0 by {
            assert(front[j] == fields[j]);
        }
        lemma_duplicate_field(front, rest2, error);
        assert(opening() + field_instrs(front) + rest2 =~= s);
    } else {
        let m = (n - 1) as nat;
        assert(fields.take(m as int) =~= front);
        assert forall|j: int| 0 <= j < 2 * n implies s[3 + j] == #[trigger] field_instrs(fields)[j] by {}
        lemma_fields_walk(s, error, fields, 0, m);
        assert(fields.take(0) =~= Seq::<(Seq<u8>, Seq<u8>)>::empty());
        assert(field_tags(fields.take(0)) =~= Seq::<Seq<u8>>::empty());
        let (a, b) = choose|a: int, b: int| 0 <= a < b < n && fields[a].0 == fields[b].0;
        assert(b == m) by {
            if b < m {
                assert(front[a] == fields[a] && front[b] == fields[b]);
            }
        }
        let t = fields[m as int].0;
        assert(s[3 + 2 * m as int] == field_instrs(fields)[2 * m as int]);
        assert(s[3 + 2 * m as int] == InstrView::Push(t));
        assert(fields[m as int].0.len() > 0);
        assert(t != body_tag());
        assert(field_tags(fields.take(m as int))[a] == t);
        assert(field_tags(fields.take(m as int)).contains(t));
        assert(opens_envelope(s, 0));
    }
}

} // verus!
