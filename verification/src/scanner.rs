//! What one basic block, taken alone, says about the obligation.

use vstd::prelude::*;
use crate::graph::Instruction;
use crate::verdict::Verdict;

verus! {

/// The result of scanning one block.
#[derive(Clone, Copy, Debug, PartialEq, Eq, Structural)]
pub enum ScanResult {
    /// An instruction of the block settles every path through it.
    Decisive(Verdict),
    /// The block holds neutral instructions only.
    Inconclusive,
}

/// The verdict that a single instruction fixes, if it fixes one. A throw,
/// dead code and a return with a value satisfy the obligation. A return
/// without a value satisfies it only where `allow_implicit_undefined` is set.
/// All other instructions are neutral.
pub open spec fn instruction_verdict(
    instruction: Instruction,
    allow_implicit_undefined: bool,
) -> Option<Verdict> {
    match instruction {
        Instruction::Return { has_value } => if has_value || allow_implicit_undefined {
            Some(Verdict::Satisfied)
        } else {
            Some(Verdict::NotSatisfied)
        },
        Instruction::Throw | Instruction::Unreachable => Some(Verdict::Satisfied),
        Instruction::Break
        | Instruction::Continue
        | Instruction::Iteration
        | Instruction::Condition
        | Instruction::Statement => None,
    }
}

/// The result of a block: that of its first decisive instruction.
pub open spec fn scan_spec(
    instructions: Seq<Instruction>,
    allow_implicit_undefined: bool,
) -> ScanResult
    decreases instructions.len(),
{
    if instructions.len() == 0 {
        ScanResult::Inconclusive
    } else {
        match instruction_verdict(instructions[0], allow_implicit_undefined) {
            Some(verdict) => ScanResult::Decisive(verdict),
            None => scan_spec(instructions.drop_first(), allow_implicit_undefined),
        }
    }
}

/// The verdict fixed by one instruction.
pub fn decide_instruction(instruction: Instruction, allow_implicit_undefined: bool) -> (verdict:
    Option<Verdict>)
    ensures
        verdict == instruction_verdict(instruction, allow_implicit_undefined),
{
    match instruction {
        Instruction::Return { has_value } => {
            if has_value || allow_implicit_undefined {
                Some(Verdict::Satisfied)
            } else {
                Some(Verdict::NotSatisfied)
            }
        },
        Instruction::Throw => Some(Verdict::Satisfied),
        Instruction::Unreachable => Some(Verdict::Satisfied),
        Instruction::Break => None,
        Instruction::Continue => None,
        Instruction::Iteration => None,
        Instruction::Condition => None,
        Instruction::Statement => None,
    }
}

/// A block whose first `i` instructions are neutral scans as the rest of it.
pub proof fn lemma_scan_skips_neutral_prefix(
    instructions: Seq<Instruction>,
    allow_implicit_undefined: bool,
    i: int,
)
    requires
        0 <= i <= instructions.len(),
        forall|j: int|
            0 <= j < i ==> instruction_verdict(instructions[j], allow_implicit_undefined)
                is None,
    ensures
        scan_spec(instructions, allow_implicit_undefined) == scan_spec(
            instructions.subrange(i, instructions.len() as int),
            allow_implicit_undefined,
        ),
    decreases i,
{
    if i == 0 {
        assert(instructions.subrange(0, instructions.len() as int) =~= instructions);
    } else {
        let rest = instructions.drop_first();
        assert forall|j: int| 0 <= j < i - 1 implies instruction_verdict(
            rest[j],
            allow_implicit_undefined,
        ) is None by {
            assert(rest[j] == instructions[j + 1]);
        }
        lemma_scan_skips_neutral_prefix(rest, allow_implicit_undefined, i - 1);
        assert(rest.subrange(i - 1, rest.len() as int) =~= instructions.subrange(
            i,
            instructions.len() as int,
        ));
    }
}

/// The first decisive instruction settles the block: what follows it in the
/// same block has no say.
pub proof fn lemma_first_decisive_instruction_wins(
    instructions: Seq<Instruction>,
    allow_implicit_undefined: bool,
    i: int,
)
    requires
        0 <= i < instructions.len(),
        forall|j: int|
            0 <= j < i ==> instruction_verdict(instructions[j], allow_implicit_undefined)
                is None,
        instruction_verdict(instructions[i], allow_implicit_undefined) is Some,
    ensures
        scan_spec(instructions, allow_implicit_undefined) == ScanResult::Decisive(
            instruction_verdict(instructions[i], allow_implicit_undefined)->0,
        ),
{
    lemma_scan_skips_neutral_prefix(instructions, allow_implicit_undefined, i);
    let rest = instructions.subrange(i, instructions.len() as int);
    assert(rest[0] == instructions[i]);
}

/// A block is inconclusive exactly when all its instructions are neutral.
pub proof fn lemma_inconclusive_iff_all_neutral(
    instructions: Seq<Instruction>,
    allow_implicit_undefined: bool,
)
    ensures
        scan_spec(instructions, allow_implicit_undefined) == ScanResult::Inconclusive <==> (
        forall|j: int|
            0 <= j < instructions.len() ==> instruction_verdict(
                instructions[j],
                allow_implicit_undefined,
            ) is None),
    decreases instructions.len(),
{
    if instructions.len() > 0 {
        let rest = instructions.drop_first();
        lemma_inconclusive_iff_all_neutral(rest, allow_implicit_undefined);
        if scan_spec(instructions, allow_implicit_undefined) == ScanResult::Inconclusive {
            assert forall|j: int| 0 <= j < instructions.len() implies instruction_verdict(
                instructions[j],
                allow_implicit_undefined,
            ) is None by {
                if j > 0 {
                    assert(rest[j - 1] == instructions[j]);
                }
            }
        }
        if forall|j: int|
            0 <= j < instructions.len() ==> instruction_verdict(
                instructions[j],
                allow_implicit_undefined,
            ) is None {
            assert forall|j: int| 0 <= j < rest.len() implies instruction_verdict(
                rest[j],
                allow_implicit_undefined,
            ) is None by {
                assert(rest[j] == instructions[j + 1]);
            }
        }
    }
}

/// Scans the instructions of one block in order and stops at the first
/// decisive one.
pub fn scan_block(instructions: &Vec<Instruction>, allow_implicit_undefined: bool) -> (result:
    ScanResult)
    ensures
        result == scan_spec(instructions@, allow_implicit_undefined),
{
    let mut i: usize = 0;
    while i < instructions.len()
        invariant
            i <= instructions.len(),
            forall|j: int|
                0 <= j < i ==> instruction_verdict(instructions@[j], allow_implicit_undefined)
                    is None,
        decreases instructions.len() - i,
    {
        match decide_instruction(instructions[i], allow_implicit_undefined) {
            Some(verdict) => {
                proof {
                    lemma_first_decisive_instruction_wins(
                        instructions@,
                        allow_implicit_undefined,
                        i as int,
                    );
                }
                return ScanResult::Decisive(verdict);
            },
            None => {},
        }
        i = i + 1;
    }
    proof {
        lemma_inconclusive_iff_all_neutral(instructions@, allow_implicit_undefined);
    }
    ScanResult::Inconclusive
}

} // verus!
