//! Script instructions, and their byte encoding through the `bitcoin` crate.
use bitcoin::blockdata::script::{Error as BtcError, Instruction as BtcInstruction};
use vstd::prelude::*;

verus! {

/// `OP_IF`.
pub const OP_IF: u8 = 0x63;

/// `OP_ENDIF`.
pub const OP_ENDIF: u8 = 0x68;

/// The largest data push a script builder accepts is under this many bytes.
pub const MAX_PUSH_LEN: u64 = 0x1_0000_0000;

/// One decoded script instruction.
#[derive(Debug, PartialEq, Eq, Clone)]
pub enum Instruction {
    /// A data push (the empty push is `OP_FALSE`).
    PushBytes(Vec<u8>),
    /// Any other opcode, by its byte.
    Op(u8),
}

/// The mathematical value of an [`Instruction`].
pub enum InstrView {
    Push(Seq<u8>),
    Op(u8),
}

impl View for Instruction {
    type V = InstrView;

    open spec fn view(&self) -> InstrView {
        match self {
            Instruction::PushBytes(b) => InstrView::Push(b@),
            Instruction::Op(o) => InstrView::Op(*o),
        }
    }
}

/// The values of a sequence of instructions.
pub open spec fn instr_views(s: Seq<Instruction>) -> Seq<InstrView> {
    s.map_values(|i: Instruction| i@)
}

/// An error met while decoding a script.
#[derive(Debug, PartialEq, Eq, Clone, Copy)]
pub enum ScriptError {
    /// A push that is not in its shortest form.
    NonMinimalPush,
    /// A push runs past the end of the script.
    EarlyEndOfScript,
    /// A number on the stack is longer than four bytes.
    NumericOverflow,
    /// Any other script error.
    Other,
}

/// What decoding a script gives: its instructions in order up to the first
/// error, and that error if there is one.
pub uninterp spec fn script_instructions(script: Seq<u8>) -> (Seq<InstrView>, Option<ScriptError>);

/// The opcode bytes that announce a data push of `n` bytes, in their shortest form.
pub open spec fn push_prefix(n: nat) -> Seq<u8> {
    if n < 0x4c {
        seq![n as u8]
    } else if n < 0x100 {
        seq![0x4cu8, n as u8]
    } else if n < 0x10000 {
        seq![0x4du8, (n % 0x100) as u8, (n / 0x100) as u8]
    } else {
        seq![
            0x4eu8,
            (n % 0x100) as u8,
            ((n / 0x100) % 0x100) as u8,
            ((n / 0x10000) % 0x100) as u8,
            (n / 0x1000000) as u8,
        ]
    }
}

/// The bytes of one instruction.
pub open spec fn instruction_bytes(i: InstrView) -> Seq<u8> {
    match i {
        InstrView::Push(d) => push_prefix(d.len()) + d,
        InstrView::Op(o) => seq![o],
    }
}

/// The bytes of a sequence of instructions, one after another.
pub open spec fn script_bytes(s: Seq<InstrView>) -> Seq<u8>
    decreases s.len(),
{
    if s.len() == 0 {
        Seq::empty()
    } else {
        script_bytes(s.drop_last()) + instruction_bytes(s.last())
    }
}

/// Whether a builder can emit every instruction of `s`: pushes under 4 GiB.
pub open spec fn emittable(s: Seq<InstrView>) -> bool {
    forall|i: int|
        0 <= i < s.len() ==> match #[trigger] s[i] {
            InstrView::Push(d) => d.len() < MAX_PUSH_LEN,
            InstrView::Op(_) => true,
        }
}

/// Whether every opcode of `s` is one a decoder reads back as an opcode: a
/// byte from `0x4f` up, past the push opcodes.
pub open spec fn plain_ops(s: Seq<InstrView>) -> bool {
    forall|i: int| 0 <= i < s.len() ==> match #[trigger] s[i] {
        InstrView::Push(_) => true,
        InstrView::Op(o) => o >= 0x4f,
    }
}

/// Relies on bitcoin's `Script::instructions`: the instructions of a script in
/// order, the iteration ending at the first decoding error.
#[verifier::external_body]
pub(crate) fn decode_script(script: &[u8]) -> (r: (Vec<Instruction>, Option<ScriptError>))
    ensures
        (instr_views(r.0@), r.1) == script_instructions(script@),
{
    let mut out = Vec::new();
    for item in bitcoin::Script::from(script.to_vec()).instructions() {
        match item {
            Ok(BtcInstruction::PushBytes(b)) => out.push(Instruction::PushBytes(b.to_vec())),
            Ok(BtcInstruction::Op(op)) => out.push(Instruction::Op(op.to_u8())),
            Err(BtcError::NonMinimalPush) => return (out, Some(ScriptError::NonMinimalPush)),
            Err(BtcError::EarlyEndOfScript) => return (out, Some(ScriptError::EarlyEndOfScript)),
            Err(BtcError::NumericOverflow) => return (out, Some(ScriptError::NumericOverflow)),
            Err(_) => return (out, Some(ScriptError::Other)),
        }
    }
    (out, None)
}

/// Relies on bitcoin's `script::Builder`: `push_opcode` appends the opcode's
/// byte, `push_slice` the shortest push prefix and then the data; it panics
/// only on a push of 4 GiB or more. Relies too on `Script::instructions`
/// reading such bytes back: a push by its prefix (without asking for the
/// shortest form), and any byte from `0x4f` up as an opcode.
#[verifier::external_body]
pub(crate) fn encode_script(instructions: &Vec<Instruction>) -> (r: Vec<u8>)
    requires
        emittable(instr_views(instructions@)),
    ensures
        r@ == script_bytes(instr_views(instructions@)),
        plain_ops(instr_views(instructions@)) ==> script_instructions(r@) == (
            instr_views(instructions@),
            None::<ScriptError>,
        ),
{
    let mut builder = bitcoin::blockdata::script::Builder::new();
    for instruction in instructions {
        builder = match instruction {
            Instruction::PushBytes(data) => builder.push_slice(data),
            Instruction::Op(op) => builder.push_opcode((*op).into()),
        };
    }
    builder.into_script().into_bytes()
}

impl Instruction {
    /// Whether two instructions are the same.
    pub fn same_as(&self, other: &Instruction) -> (r: bool)
        ensures
            r == (self@ == other@),
    {
        match (self, other) {
            (Instruction::PushBytes(a), Instruction::PushBytes(b)) => {
                let r = crate::bytes::bytes_equal(a.as_slice(), b.as_slice());
                proof {
                    if r {
                        assert(self@ == other@);
                    } else {
                        assert(self@ != other@) by {
                            if self@ == other@ {
                                assert(a@ == b@);
                            }
                        }
                    }
                }
                r
            },
            (Instruction::Op(a), Instruction::Op(b)) => *a == *b,
            _ => false,
        }
    }
}

} // verus!
