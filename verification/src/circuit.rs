//! Circuits and their translation into gates.
//!
//! A circuit is a list of opcodes. Only the assertion that a constraint is zero
//! can be translated; any other opcode stops the translation, and so does a
//! constraint that does not fit a gate. Nothing is skipped: the translation of a
//! circuit has one gate for each of its opcodes, or it fails at the first opcode
//! that cannot be translated and says where.

use crate::constraint::Constraint;
use crate::gate::{fit, fitted, PlonkDefault, WidthExceeded};
use crate::witness::witness_values;
use acvm::acir::native_types::WitnessMap;
use vstd::prelude::*;

verus! {

/// The kinds of opcode that a circuit may hold.
#[derive(Clone, Copy, Debug, PartialEq, Eq, Structural)]
pub enum OpcodeKind {
    /// The assertion that a constraint is zero: the one kind that is translated.
    AssertZero,
    /// A call of a function that the proving system provides.
    BlackBoxFuncCall,
    /// A hint for the solver of the witnesses.
    Directive,
    /// Unconstrained code that computes witnesses.
    Brillig,
    /// A read or write of a block of memory.
    MemoryOp,
    /// The initial content of a block of memory.
    MemoryInit,
}

impl OpcodeKind {
    /// The name of the kind, as text.
    pub open spec fn spec_name(self) -> Seq<char> {
        match self {
            OpcodeKind::AssertZero => "AssertZero"@,
            OpcodeKind::BlackBoxFuncCall => "BlackBoxFuncCall"@,
            OpcodeKind::Directive => "Directive"@,
            OpcodeKind::Brillig => "Brillig"@,
            OpcodeKind::MemoryOp => "MemoryOp"@,
            OpcodeKind::MemoryInit => "MemoryInit"@,
        }
    }

    /// The name of the kind.
    pub fn name(self) -> (r: &'static str)
        ensures
            r@ == self.spec_name(),
    {
        match self {
            OpcodeKind::AssertZero => "AssertZero",
            OpcodeKind::BlackBoxFuncCall => "BlackBoxFuncCall",
            OpcodeKind::Directive => "Directive",
            OpcodeKind::Brillig => "Brillig",
            OpcodeKind::MemoryOp => "MemoryOp",
            OpcodeKind::MemoryInit => "MemoryInit",
        }
    }
}

/// One opcode of a circuit. Of the kinds that cannot be translated only the kind
/// is kept.
#[derive(Clone, Debug, PartialEq, Eq)]
pub enum Opcode {
    /// The assertion that a constraint is zero.
    AssertZero(Constraint),
    /// A call of a function that the proving system provides.
    BlackBoxFuncCall,
    /// A hint for the solver of the witnesses.
    Directive,
    /// Unconstrained code that computes witnesses.
    Brillig,
    /// A read or write of a block of memory.
    MemoryOp,
    /// The initial content of a block of memory.
    MemoryInit,
}

impl Opcode {
    /// The kind of the opcode.
    pub open spec fn spec_kind(self) -> OpcodeKind {
        match self {
            Opcode::AssertZero(_) => OpcodeKind::AssertZero,
            Opcode::BlackBoxFuncCall => OpcodeKind::BlackBoxFuncCall,
            Opcode::Directive => OpcodeKind::Directive,
            Opcode::Brillig => OpcodeKind::Brillig,
            Opcode::MemoryOp => OpcodeKind::MemoryOp,
            Opcode::MemoryInit => OpcodeKind::MemoryInit,
        }
    }

    /// The kind of the opcode.
    pub fn kind(&self) -> (r: OpcodeKind)
        ensures
            r == self.spec_kind(),
    {
        match self {
            Opcode::AssertZero(_) => OpcodeKind::AssertZero,
            Opcode::BlackBoxFuncCall => OpcodeKind::BlackBoxFuncCall,
            Opcode::Directive => OpcodeKind::Directive,
            Opcode::Brillig => OpcodeKind::Brillig,
            Opcode::MemoryOp => OpcodeKind::MemoryOp,
            Opcode::MemoryInit => OpcodeKind::MemoryInit,
        }
    }
}

/// A circuit: its opcodes, in order.
#[derive(Clone, Debug, PartialEq, Eq)]
pub struct Circuit {
    pub opcodes: Vec<Opcode>,
}

/// Why a circuit could not be translated.
#[derive(Clone, Copy, Debug, PartialEq, Eq)]
pub enum TranslationError {
    /// The constraint of the opcode at `index` does not fit a gate.
    WidthExceeded { index: usize },
    /// The opcode at `index` is of a kind that cannot be translated.
    UnsupportedOpcode { index: usize, kind: OpcodeKind },
}

impl TranslationError {
    /// The position in the circuit of the opcode that could not be translated.
    pub open spec fn spec_index(self) -> usize {
        match self {
            TranslationError::WidthExceeded { index } => index,
            TranslationError::UnsupportedOpcode { index, .. } => index,
        }
    }

    /// The position in the circuit of the opcode that could not be translated.
    pub fn index(&self) -> (r: usize)
        ensures
            r == self.spec_index(),
    {
        match self {
            TranslationError::WidthExceeded { index } => *index,
            TranslationError::UnsupportedOpcode { index, .. } => *index,
        }
    }
}

/// What the opcode that stands at `index` is translated to: its gate, or why it
/// has none.
pub open spec fn opcode_gate(opcode: Opcode, index: usize) -> Result<
    PlonkDefault,
    TranslationError,
> {
    match opcode {
        Opcode::AssertZero(constraint) => match fitted(constraint@) {
            Ok(gate) => Ok(gate),
            Err(_) => Err(TranslationError::WidthExceeded { index }),
        },
        _ => Err(TranslationError::UnsupportedOpcode { index, kind: opcode.spec_kind() }),
    }
}

/// The gates of `opcodes`, one for each and in their order, or the error of the
/// first opcode that has none.
pub open spec fn translation(opcodes: Seq<Opcode>) -> Result<Seq<PlonkDefault>, TranslationError>
    decreases opcodes.len(),
{
    if opcodes.len() == 0 {
        Ok(Seq::empty())
    } else {
        match translation(opcodes.drop_last()) {
            Ok(gates) => match opcode_gate(opcodes.last(), (opcodes.len() - 1) as usize) {
                Ok(gate) => Ok(gates.push(gate)),
                Err(error) => Err(error),
            },
            Err(error) => Err(error),
        }
    }
}

/// Once an opcode has no gate, no longer run of opcodes is translated, and the
/// error stays that of the first such opcode.
pub proof fn lemma_translation_fails_on(opcodes: Seq<Opcode>, n: int)
    requires
        0 <= n <= opcodes.len(),
        translation(opcodes.take(n)) is Err,
    ensures
        translation(opcodes) == translation(opcodes.take(n)),
    decreases opcodes.len(),
{
    if n < opcodes.len() {
        assert(opcodes.drop_last().take(n) =~= opcodes.take(n));
        lemma_translation_fails_on(opcodes.drop_last(), n);
    } else {
        assert(opcodes.take(n) =~= opcodes);
    }
}

/// Translates the opcode that stands at `index` of a circuit.
pub fn translate_opcode(opcode: &Opcode, index: usize) -> (r: Result<
    PlonkDefault,
    TranslationError,
>)
    ensures
        r == opcode_gate(*opcode, index),
{
    match opcode {
        Opcode::AssertZero(constraint) => match fit(constraint) {
            Ok(gate) => Ok(gate),
            Err(_) => Err(TranslationError::WidthExceeded { index }),
        },
        _ => Err(TranslationError::UnsupportedOpcode { index, kind: opcode.kind() }),
    }
}

/// Translates a circuit into its gates, one for each opcode and in their order.
/// It fails at the first opcode that is no assertion of a constraint, or whose
/// constraint does not fit a gate.
pub fn translate(circuit: &Circuit) -> (r: Result<Vec<PlonkDefault>, TranslationError>)
    ensures
        match r {
            Ok(gates) => translation(circuit.opcodes@) == Ok::<_, TranslationError>(gates@),
            Err(error) => translation(circuit.opcodes@) == Err::<Seq<PlonkDefault>, _>(error),
        },
{
    let ghost opcodes = circuit.opcodes@;
    let mut gates: Vec<PlonkDefault> = Vec::new();
    let mut i: usize = 0;
    while i < circuit.opcodes.len()
        invariant
            i <= circuit.opcodes.len(),
            opcodes == circuit.opcodes@,
            translation(opcodes.take(i as int)) == Ok::<_, TranslationError>(gates@),
        decreases circuit.opcodes.len() - i,
    {
        assert(opcodes.take(i + 1).drop_last() =~= opcodes.take(i as int));
        match translate_opcode(&circuit.opcodes[i], i) {
            Ok(gate) => {
                gates.push(gate);
            },
            Err(error) => {
                proof {
                    lemma_translation_fails_on(opcodes, i + 1);
                }
                return Err(error);
            },
        }
        i += 1;
    }
    assert(opcodes.take(i as int) =~= opcodes);
    Ok(gates)
}

/// A circuit together with the witnesses that its gates are checked against.
pub struct Program {
    /// The circuit.
    pub circuit: Circuit,
    /// The witnesses.
    pub witness: WitnessMap,
}

impl Program {
    /// A program of `circuit` and `witness`, both kept as they are.
    pub fn new(circuit: Circuit, witness: WitnessMap) -> (r: Self)
        ensures
            r.circuit == circuit,
            r.witness == witness,
    {
        Self { circuit, witness }
    }

    /// Fits the constraint `gate` into one gate and says whether the program's
    /// witnesses satisfy it.
    pub fn build_arithmetic_gate(&self, gate: &Constraint) -> (r: Result<
        (PlonkDefault, bool),
        WidthExceeded,
    >)
        ensures
            match r {
                Ok((fit, satisfied)) => fitted(gate@) == Ok::<_, WidthExceeded>(fit) && satisfied
                    == fit.holds(witness_values(self.witness)),
                Err(_) => fitted(gate@) is Err,
            },
    {
        match fit(gate) {
            Ok(noir_cs) => {
                let satisfied = noir_cs.evaluate(&self.witness);
                Ok((noir_cs, satisfied))
            },
            Err(e) => Err(e),
        }
    }

    /// Translates the program's circuit and checks each gate against its
    /// witnesses: the gates, and for each gate whether the witnesses satisfy it.
    pub fn build_circuit(&self) -> (r: Result<(Vec<PlonkDefault>, Vec<bool>), TranslationError>)
        ensures
            match r {
                Ok((gates, satisfied)) => {
                    &&& translation(self.circuit.opcodes@) == Ok::<_, TranslationError>(gates@)
                    &&& satisfied@.len() == gates@.len()
                    &&& forall|i: int|
                        0 <= i < gates@.len() ==> satisfied@[i] == (#[trigger] gates@[i]).holds(
                            witness_values(self.witness),
                        )
                },
                Err(error) => translation(self.circuit.opcodes@) == Err::<Seq<PlonkDefault>, _>(
                    error,
                ),
            },
    {
        let ghost opcodes = self.circuit.opcodes@;
        let ghost values = witness_values(self.witness);
        let mut gates: Vec<PlonkDefault> = Vec::new();
        let mut satisfied: Vec<bool> = Vec::new();
        let mut i: usize = 0;
        while i < self.circuit.opcodes.len()
            invariant
                i <= self.circuit.opcodes.len(),
                opcodes == self.circuit.opcodes@,
                values == witness_values(self.witness),
                translation(opcodes.take(i as int)) == Ok::<_, TranslationError>(gates@),
                satisfied@.len() == gates@.len(),
                forall|k: int|
                    0 <= k < gates@.len() ==> satisfied@[k] == (#[trigger] gates@[k]).holds(values),
            decreases self.circuit.opcodes.len() - i,
        {
            assert(opcodes.take(i + 1).drop_last() =~= opcodes.take(i as int));
            let step = match &self.circuit.opcodes[i] {
                Opcode::AssertZero(expression) => match self.build_arithmetic_gate(expression) {
                    Ok(built) => Ok(built),
                    Err(_) => Err(TranslationError::WidthExceeded { index: i }),
                },
                other => Err(
                    TranslationError::UnsupportedOpcode { index: i, kind: other.kind() },
                ),
            };
            match step {
                Ok((gate, holds)) => {
                    gates.push(gate);
                    satisfied.push(holds);
                },
                Err(error) => {
                    proof {
                        lemma_translation_fails_on(opcodes, i + 1);
                    }
                    return Err(error);
                },
            }
            i += 1;
        }
        assert(opcodes.take(i as int) =~= opcodes);
        Ok((gates, satisfied))
    }
}

} // verus!
