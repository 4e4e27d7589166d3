//! Recognising the first envelope of a witness script.
use crate::bytes::{append_bytes, copy_bytes};
use crate::inscription::{
    body_tag, content_type_tag, opt_bytes, ord_magic, Inscription, InscriptionView,
};
use crate::script::{
    decode_script, instr_views, script_instructions, InstrView, Instruction, ScriptError, OP_ENDIF,
    OP_IF,
};
use vstd::prelude::*;

verus! {

/// The first byte of a taproot annex.
pub const TAPROOT_ANNEX_PREFIX: u8 = 0x50;

/// Why a witness holds no inscription.
#[derive(Debug, PartialEq, Eq, Clone, Copy)]
pub enum InscriptionError {
    EmptyWitness,
    InvalidInscription,
    KeyPathSpend,
    NoInscription,
    Script(ScriptError),
    UnrecognizedEvenField,
}

/// The error met by reading past the last decoded instruction: the decoding
/// error if decoding stopped at one, else the end of the script.
pub open spec fn end_error(error: Option<ScriptError>) -> InscriptionError {
    match error {
        Some(e) => InscriptionError::Script(e),
        None => InscriptionError::NoInscription,
    }
}

/// The body that starts at position `i`: every push up to the next `OP_ENDIF`,
/// concatenated.
pub open spec fn body_from(s: Seq<InstrView>, error: Option<ScriptError>, i: nat) -> Result<
    Seq<u8>,
    InscriptionError,
>
    decreases s.len() - i,
{
    if i >= s.len() {
        Err(end_error(error))
    } else {
        match s[i as int] {
            InstrView::Op(op) => if op == OP_ENDIF {
                Ok(Seq::empty())
            } else {
                Err(InscriptionError::InvalidInscription)
            },
            InstrView::Push(d) => match body_from(s, error, i + 1) {
                Ok(rest) => Ok(d + rest),
                Err(e) => Err(e),
            },
        }
    }
}

/// Whether `tag` is a field that no reader may ignore: an unknown tag whose
/// first byte is even.
pub open spec fn unknown_even(tag: Seq<u8>) -> bool {
    tag != content_type_tag() && tag.len() > 0 && tag[0] % 2 == 0
}

/// The fields from position `i` on, given the tags `seen` so far, the content
/// type so far and whether an unknown even tag was met: the content type, the
/// body and that flag at the end of the envelope.
pub open spec fn fields_from(
    s: Seq<InstrView>,
    error: Option<ScriptError>,
    i: nat,
    seen: Seq<Seq<u8>>,
    content_type: Option<Seq<u8>>,
    even: bool,
) -> Result<(Option<Seq<u8>>, Option<Seq<u8>>, bool), InscriptionError>
    decreases s.len() - i,
{
    if i >= s.len() {
        Err(end_error(error))
    } else {
        match s[i as int] {
            InstrView::Op(op) => if op == OP_ENDIF {
                Ok((content_type, None, even))
            } else {
                Err(InscriptionError::InvalidInscription)
            },
            InstrView::Push(tag) => if tag == body_tag() {
                match body_from(s, error, i + 1) {
                    Ok(b) => Ok((content_type, Some(b), even)),
                    Err(e) => Err(e),
                }
            } else if seen.contains(tag) {
                Err(InscriptionError::InvalidInscription)
            } else if i + 1 >= s.len() {
                Err(end_error(error))
            } else {
                match s[i + 1 as int] {
                    InstrView::Op(_) => Err(InscriptionError::InvalidInscription),
                    InstrView::Push(v) => fields_from(
                        s,
                        error,
                        i + 2,
                        seen.push(tag),
                        if tag == content_type_tag() {
                            Some(v)
                        } else {
                            content_type
                        },
                        even || unknown_even(tag),
                    ),
                }
            },
        }
    }
}

/// The record an envelope gives, before any expansion.
pub open spec fn raw_record(content_type: Option<Seq<u8>>, body: Option<Seq<u8>>) -> InscriptionView {
    InscriptionView {
        content_type,
        body,
        tracking: true,
        content_metadata: None,
        protocol_properties: None,
    }
}

/// The outcome of the envelope whose fields start at position `i`.
pub open spec fn envelope_result(s: Seq<InstrView>, error: Option<ScriptError>, i: nat) -> Result<
    InscriptionView,
    InscriptionError,
> {
    match fields_from(s, error, i, Seq::empty(), None, false) {
        Err(e) => Err(e),
        Ok((ct, body, even)) => if even {
            Err(InscriptionError::UnrecognizedEvenField)
        } else {
            Ok(raw_record(ct, body))
        },
    }
}

/// Whether an envelope opens at position `i`: `OP_FALSE OP_IF ord`.
pub open spec fn opens_envelope(s: Seq<InstrView>, i: int) -> bool {
    &&& 0 <= i
    &&& i + 2 < s.len()
    &&& s[i] == InstrView::Push(Seq::empty())
    &&& s[i + 1] == InstrView::Op(OP_IF)
    &&& s[i + 2] == InstrView::Push(ord_magic())
}

/// The outcome of scanning from position `i` for the first envelope. An empty
/// push not followed by `OP_IF ord` is skipped together with the instruction
/// after it.
pub open spec fn scan_from(s: Seq<InstrView>, error: Option<ScriptError>, i: nat) -> Result<
    InscriptionView,
    InscriptionError,
>
    decreases s.len() + 1 - i,
{
    if i >= s.len() {
        Err(end_error(error))
    } else if opens_envelope(s, i as int) {
        envelope_result(s, error, i + 3)
    } else if s[i as int] == InstrView::Push(Seq::empty()) {
        scan_from(s, error, i + 2)
    } else {
        scan_from(s, error, i + 1)
    }
}

/// The value of a parse outcome.
pub open spec fn result_view(r: Result<Inscription, InscriptionError>) -> Result<
    InscriptionView,
    InscriptionError,
> {
    match r {
        Ok(i) => Ok(i@),
        Err(e) => Err(e),
    }
}

/// The values of a sequence of tags.
pub open spec fn tag_views(s: Seq<Vec<u8>>) -> Seq<Seq<u8>> {
    s.map_values(|t: Vec<u8>| t@)
}

/// Whether `tag` is among `seen`.
fn contains_tag(seen: &Vec<Vec<u8>>, tag: &Vec<u8>) -> (r: bool)
    ensures
        r == tag_views(seen@).contains(tag@),
{
    let mut i: usize = 0;
    while i < seen.len()
        invariant
            i <= seen@.len(),
            forall|j: int| 0 <= j < i ==> seen@[j]@ != tag@,
        decreases seen@.len() - i,
    {
        if crate::bytes::bytes_equal(seen[i].as_slice(), tag.as_slice()) {
            assert(tag_views(seen@)[i as int] == tag@);
            return true;
        }
        i = i + 1;
    }
    assert(!tag_views(seen@).contains(tag@)) by {
        if tag_views(seen@).contains(tag@) {
            let j = choose|j: int| 0 <= j < tag_views(seen@).len() && tag_views(seen@)[j] == tag@;
            assert(seen@[j]@ == tag@);
        }
    }
    false
}

/// A cursor over the decoded instructions of a script.
struct InscriptionParser {
    instructions: Vec<Instruction>,
    error: Option<ScriptError>,
    next: usize,
}

impl InscriptionParser {
    /// The instructions' values.
    spec fn instrs(&self) -> Seq<InstrView> {
        instr_views(self.instructions@)
    }

    /// The decoding error after the last instruction, if any.
    spec fn error(&self) -> Option<ScriptError> {
        self.error
    }

    /// The position of the next instruction.
    spec fn position(&self) -> nat {
        self.next as nat
    }

    /// The cursor stands within the instructions or just after them.
    spec fn wf(&self) -> bool {
        self.next <= self.instructions@.len()
    }

    /// Only the cursor moves.
    spec fn same_script(&self, other: &Self) -> bool {
        self.instructions@ == other.instructions@ && self.error == other.error
    }

    /// A cursor at the first of `instructions`, which end with `error` if decoding stopped at one.
    fn new(instructions: Vec<Instruction>, error: Option<ScriptError>) -> (r: Self)
        ensures
            r.wf(),
            r.instrs() == instr_views(instructions@),
            r.error() == error,
            r.position() == 0,
    {
        InscriptionParser { instructions, error, next: 0 }
    }

    /// Consumes the next instruction and gives its position.
    fn advance(&mut self) -> (r: Result<usize, InscriptionError>)
        requires
            old(self).wf(),
        ensures
            final(self).wf(),
            final(self).same_script(old(self)),
            old(self).next < old(self).instructions@.len() ==> r == Ok::<usize, InscriptionError>(
                old(self).next,
            ) && final(self).next == old(self).next + 1,
            old(self).next >= old(self).instructions@.len() ==> r == Err::<usize, InscriptionError>(
                end_error(old(self).error),
            ) && final(self).next == old(self).next,
    {
        if self.next < self.instructions.len() {
            let k = self.next;
            self.next = self.next + 1;
            Ok(k)
        } else {
            match self.error {
                Some(e) => Err(InscriptionError::Script(e)),
                None => Err(InscriptionError::NoInscription),
            }
        }
    }

    /// Consumes the next instruction if it is `instruction`.
    fn accept(&mut self, instruction: &Instruction) -> (r: Result<bool, InscriptionError>)
        requires
            old(self).wf(),
        ensures
            final(self).wf(),
            final(self).same_script(old(self)),
            old(self).next < old(self).instructions@.len() ==> {
                let hit = old(self).instrs()[old(self).next as int] == instruction@;
                &&& r == Ok::<bool, InscriptionError>(hit)
                &&& final(self).next == if hit {
                    old(self).next + 1
                } else {
                    old(self).next as int
                }
            },
            old(self).next >= old(self).instructions@.len() ==> final(self).next == old(self).next
                && r == match old(self).error {
                Some(e) => Err(InscriptionError::Script(e)),
                None => Ok::<bool, InscriptionError>(false),
            },
    {
        if self.next < self.instructions.len() {
            let hit = self.instructions[self.next].same_as(instruction);
            if hit {
                self.next = self.next + 1;
            }
            Ok(hit)
        } else {
            match self.error {
                Some(e) => Err(InscriptionError::Script(e)),
                None => Ok(false),
            }
        }
    }

    /// Consumes the next instruction, which must be a push, and gives its position.
    fn expect_push(&mut self) -> (r: Result<usize, InscriptionError>)
        requires
            old(self).wf(),
        ensures
            final(self).wf(),
            final(self).same_script(old(self)),
            old(self).next >= old(self).instructions@.len() ==> r == Err::<usize, InscriptionError>(
                end_error(old(self).error),
            ),
            old(self).next < old(self).instructions@.len() ==> final(self).next == old(self).next + 1
                && r == match old(self).instrs()[old(self).next as int] {
                InstrView::Push(_) => Ok::<usize, InscriptionError>(old(self).next),
                InstrView::Op(_) => Err(InscriptionError::InvalidInscription),
            },
    {
        let k = match self.advance() {
            Ok(v) => v,
            Err(x) => {
                return Err(x);
            },
        };
        match &self.instructions[k] {
            Instruction::PushBytes(_) => Ok(k),
            Instruction::Op(_) => Err(InscriptionError::InvalidInscription),
        }
    }

    /// The data of the instruction at `k`, if it is a push.
    fn push_data(&self, k: usize) -> (r: Option<Vec<u8>>)
        requires
            k < self.instructions@.len(),
        ensures
            match self.instrs()[k as int] {
                InstrView::Push(d) => r matches Some(v) && v@ == d,
                InstrView::Op(_) => r is None,
            },
    {
        match &self.instructions[k] {
            Instruction::PushBytes(d) => Some(copy_bytes(d.as_slice())),
            Instruction::Op(_) => None,
        }
    }

    /// Whether the instruction at `k` is the opcode `op`.
    fn op_at(&self, k: usize, op: u8) -> (r: bool)
        requires
            k < self.instructions@.len(),
        ensures
            r == (self.instrs()[k as int] == InstrView::Op(op)),
    {
        match &self.instructions[k] {
            Instruction::PushBytes(_) => false,
            Instruction::Op(o) => *o == op,
        }
    }

    /// Reads a body: every push up to the next `OP_ENDIF`, which it consumes.
    fn parse_body(&mut self) -> (r: Result<Vec<u8>, InscriptionError>)
        requires
            old(self).wf(),
        ensures
            final(self).wf(),
            final(self).same_script(old(self)),
            match r {
                Ok(b) => body_from(old(self).instrs(), old(self).error, old(self).position()) == Ok::<
                    Seq<u8>,
                    InscriptionError,
                >(b@),
                Err(e) => body_from(old(self).instrs(), old(self).error, old(self).position()) == Err::<
                    Seq<u8>,
                    InscriptionError,
                >(e),
            },
    {
        let ghost s = self.instrs();
        let ghost e = self.error;
        let ghost start = self.position();
        let mut body: Vec<u8> = Vec::new();
        let endif = Instruction::Op(OP_ENDIF);
        loop
            invariant
                self.wf(),
                self.same_script(old(self)),
                s == self.instrs(),
                e == self.error,
                s == old(self).instrs(),
                e == old(self).error,
                start == old(self).position(),
                endif@ == InstrView::Op(OP_ENDIF),
                body_from(s, e, start) == match body_from(s, e, self.position()) {
                    Ok(rest) => Ok(body@ + rest),
                    Err(x) => Err(x),
                },
            decreases self.instructions@.len() - self.next,
        {
            let done = match self.accept(&endif) {
            Ok(v) => v,
            Err(x) => {
                return Err(x);
            },
        };
            if done {
                assert(body@ + Seq::<u8>::empty() =~= body@);
                return Ok(body);
            }
            let k = match self.expect_push() {
            Ok(v) => v,
            Err(x) => {
                return Err(x);
            },
        };
            let ghost before = body@;
            match &self.instructions[k] {
                Instruction::PushBytes(d) => append_bytes(&mut body, d.as_slice()),
                Instruction::Op(_) => {},
            }
            proof {
                match body_from(s, e, self.position()) {
                    Ok(rest) => {
                        assert(before + (s[k as int]->Push_0 + rest) =~= body@ + rest);
                    },
                    Err(_) => {},
                }
            }
        }
    }

    /// Reads the fields of an envelope up to its end: the content type, the
    /// body and whether an unknown even tag was met.
    fn parse_fields(&mut self) -> (r: Result<(Option<Vec<u8>>, Option<Vec<u8>>, bool), InscriptionError>)
        requires
            old(self).wf(),
        ensures
            final(self).wf(),
            final(self).same_script(old(self)),
            fields_from(old(self).instrs(), old(self).error, old(self).position(), Seq::empty(), None, false)
                == match r {
                Ok((ct, body, even)) => Ok((opt_bytes(ct), opt_bytes(body), even)),
                Err(e) => Err(e),
            },
    {
        let ghost s = self.instrs();
        let ghost e = self.error;
        let ghost start = self.position();
        let mut seen: Vec<Vec<u8>> = Vec::new();
        let mut content_type: Option<Vec<u8>> = None;
        let mut even = false;
        assert(tag_views(seen@) =~= Seq::<Seq<u8>>::empty());
        loop
            invariant
                self.wf(),
                self.same_script(old(self)),
                s == self.instrs(),
                e == self.error,
                s == old(self).instrs(),
                e == old(self).error,
                start == old(self).position(),
                fields_from(s, e, start, Seq::empty(), None, false) == fields_from(
                    s,
                    e,
                    self.position(),
                    tag_views(seen@),
                    opt_bytes(content_type),
                    even,
                ),
            decreases self.instructions@.len() - self.next,
        {
            let k = match self.advance() {
            Ok(v) => v,
            Err(x) => {
                return Err(x);
            },
        };
            let tag = match self.push_data(k) {
                Some(t) => t,
                None => {
                    if self.op_at(k, OP_ENDIF) {
                        return Ok((content_type, None, even));
                    } else {
                        return Err(InscriptionError::InvalidInscription);
                    }
                },
            };
            if tag.len() == 0 {
                assert(tag@ =~= body_tag());
                let body = match self.parse_body() {
            Ok(v) => v,
            Err(x) => {
                return Err(x);
            },
        };
                return Ok((content_type, Some(body), even));
            }
            assert(tag@ != body_tag());
            if contains_tag(&seen, &tag) {
                return Err(InscriptionError::InvalidInscription);
            }
            let v = match self.expect_push() {
            Ok(v) => v,
            Err(x) => {
                return Err(x);
            },
        };
            let value = match self.push_data(v) {
                Some(x) => x,
                None => {
                    return Err(InscriptionError::InvalidInscription);
                },
            };
            let is_content_type = tag.len() == 1 && tag[0] == 1;
            assert(is_content_type == (tag@ == content_type_tag())) by {
                if tag@ == content_type_tag() {
                    assert(tag@.len() == 1 && tag@[0] == 1);
                }
                if is_content_type {
                    assert(tag@ =~= content_type_tag());
                }
            }
            even = even || (!is_content_type && tag[0] % 2 == 0);
            if is_content_type {
                content_type = Some(value);
            }
            let ghost prev = seen@;
            seen.push(tag);
            assert(tag_views(seen@) =~= tag_views(prev).push(tag@));
        }
    }

    /// Called just after an empty push: reads the envelope that opens there, or
    /// gives `None` where none does, having consumed one more instruction.
    fn parse_inscription(&mut self) -> (r: Result<Option<Inscription>, InscriptionError>)
        requires
            old(self).wf(),
            old(self).next >= 1,
            old(self).instrs()[old(self).next - 1] == InstrView::Push(Seq::empty()),
        ensures
            final(self).wf(),
            final(self).same_script(old(self)),
            match r {
                Ok(None) => final(self).next == old(self).next + 1 && scan_from(
                    old(self).instrs(),
                    old(self).error,
                    (old(self).next - 1) as nat,
                ) == scan_from(old(self).instrs(), old(self).error, final(self).position()),
                Ok(Some(ins)) => scan_from(
                    old(self).instrs(),
                    old(self).error,
                    (old(self).next - 1) as nat,
                ) == Ok::<InscriptionView, InscriptionError>(ins@),
                Err(x) => scan_from(old(self).instrs(), old(self).error, (old(self).next - 1) as nat)
                    == Err::<InscriptionView, InscriptionError>(x),
            },
    {
        let ghost s = self.instrs();
        let ghost e = self.error;
        let ghost i = (self.next - 1) as nat;
        assert(!opens_envelope(s, i as int) ==> scan_from(s, e, i) == scan_from(s, e, i + 2));
        let k = match self.advance() {
            Ok(v) => v,
            Err(x) => {
                return Err(x);
            },
        };
        if !self.op_at(k, OP_IF) {
            return Ok(None);
        }
        let magic = Instruction::PushBytes(vec![0x6fu8, 0x72u8, 0x64u8]);
        assert(magic@ =~= InstrView::Push(ord_magic()));
        let found = match self.accept(&magic) {
            Ok(v) => v,
            Err(x) => {
                return Err(x);
            },
        };
        if !found {
            return Ok(None);
        }
        assert(opens_envelope(s, i as int));
        let (content_type, body, even) = match self.parse_fields() {
            Ok(v) => v,
            Err(x) => {
                return Err(x);
            },
        };
        if even {
            return Err(InscriptionError::UnrecognizedEvenField);
        }
        let ins = Inscription::new(content_type, body);
        assert(ins@ == raw_record(opt_bytes(content_type), opt_bytes(body)));
        Ok(Some(ins))
    }

    /// Scans forward for the first envelope and reads it.
    fn parse_script(&mut self) -> (r: Result<Inscription, InscriptionError>)
        requires
            old(self).wf(),
        ensures
            result_view(r) == scan_from(old(self).instrs(), old(self).error, old(self).position()),
    {
        let ghost s = self.instrs();
        let ghost e = self.error;
        let ghost start = self.position();
        loop
            invariant
                self.wf(),
                s == self.instrs(),
                e == self.error,
                s == old(self).instrs(),
                e == old(self).error,
                start == old(self).position(),
                scan_from(s, e, start) == scan_from(s, e, self.position()),
            decreases self.instructions@.len() - self.next,
        {
            let k = match self.advance() {
            Ok(v) => v,
            Err(x) => {
                return Err(x);
            },
        };
            let empty = match self.push_data(k) {
                Some(d) => d.len() == 0,
                None => false,
            };
            if empty {
                assert(s[k as int] == InstrView::Push(Seq::empty())) by {
                    assert(s[k as int]->Push_0 =~= Seq::<u8>::empty());
                }
                match self.parse_inscription() {
                    Err(x) => {
                        return Err(x);
                    },
                    Ok(o) => match o {
                    Some(ins) => {
                        return Ok(ins);
                    },
                    None => {},
                },
                }
            } else {
                assert(!opens_envelope(s, k as int));
            }
        }
    }
}

/// Reads the first envelope of a script's decoded instructions, which end
/// with `error` where decoding stopped at one.
pub fn parse_instructions(instructions: Vec<Instruction>, error: Option<ScriptError>) -> (r: Result<
    Inscription,
    InscriptionError,
>)
    ensures
        result_view(r) == scan_from(instr_views(instructions@), error, 0),
{
    let mut parser = InscriptionParser::new(instructions, error);
    parser.parse_script()
}

/// The values of a witness's elements.
pub open spec fn witness_view(w: Seq<Vec<u8>>) -> Seq<Seq<u8>> {
    w.map_values(|e: Vec<u8>| e@)
}

/// Whether the last element of a witness is a taproot annex.
pub open spec fn has_annex(w: Seq<Seq<u8>>) -> bool {
    w.len() > 0 && w.last().len() > 0 && w.last()[0] == TAPROOT_ANNEX_PREFIX
}

/// The element of a witness that holds the spent script: the one before the
/// last, unless the witness is a key-path spend.
pub open spec fn script_element(w: Seq<Seq<u8>>) -> Result<Seq<u8>, InscriptionError> {
    if w.len() == 0 {
        Err(InscriptionError::EmptyWitness)
    } else if w.len() == 1 || (w.len() == 2 && has_annex(w)) {
        Err(InscriptionError::KeyPathSpend)
    } else {
        Ok(w[w.len() - 2])
    }
}

/// The outcome of reading the first envelope of a witness.
pub open spec fn witness_inscription(w: Seq<Seq<u8>>) -> Result<InscriptionView, InscriptionError> {
    match script_element(w) {
        Err(e) => Err(e),
        Ok(script) => scan_from(script_instructions(script).0, script_instructions(script).1, 0),
    }
}

impl Inscription {
    /// Reads the inscription of a witness: the first envelope of its script
    /// element, as the envelope holds it.
    pub fn parse(witness: &Vec<Vec<u8>>) -> (r: Result<Inscription, InscriptionError>)
        ensures
            result_view(r) == witness_inscription(witness_view(witness@)),
    {
        let ghost w = witness_view(witness@);
        let n = witness.len();
        if n == 0 {
            return Err(InscriptionError::EmptyWitness);
        }
        if n == 1 {
            return Err(InscriptionError::KeyPathSpend);
        }
        let last = &witness[n - 1];
        let annex = last.len() > 0 && last[0] == TAPROOT_ANNEX_PREFIX;
        assert(annex == has_annex(w)) by {
            assert(w.last() == last@);
        }
        if n == 2 && annex {
            return Err(InscriptionError::KeyPathSpend);
        }
        let (instructions, error) = decode_script(witness[n - 2].as_slice());
        assert(w[n - 2] == witness@[n - 2]@);
        parse_instructions(instructions, error)
    }

    /// The inscription of a transaction, given the witnesses of its inputs in
    /// order: only the first input's witness is read.
    pub fn from_transaction(input_witnesses: &Vec<Vec<Vec<u8>>>) -> (r: Option<Inscription>)
        ensures
            input_witnesses@.len() == 0 ==> r is None,
            input_witnesses@.len() > 0 ==> match witness_inscription(
                witness_view(input_witnesses@[0]@),
            ) {
                Ok(v) => r matches Some(i) && i@ == v,
                Err(_) => r is None,
            },
    {
        if input_witnesses.len() == 0 {
            return None;
        }
        match Inscription::parse(&input_witnesses[0]) {
            Ok(i) => Some(i),
            Err(_) => None,
        }
    }
}

} // verus!
