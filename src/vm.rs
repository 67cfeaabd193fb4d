//! The fetch-decode-execute loop and the modules it is built from.
pub mod compiler;
pub mod error;
pub mod instruction;
pub mod memory;
pub mod text;

use vstd::prelude::*;

pub use error::Error;
pub use instruction::Instruction;
pub use memory::Memory;

use instruction::{decode_spec, execute_spec};
use memory::MEMORY_SIZE;

verus! {

/// The largest number of instructions that one run executes. No program of
/// interest comes near it; it bounds the loop of a program that never halts.
pub const STEP_LIMIT: u64 = 0xffff_ffff_ffff_ffff;

/// One step of the machine with registers `regs` (register 0 is the program
/// counter) and memory `mem`: the registers and memory afterwards, and `Some`
/// of how the run ended where it ended on this step.
pub open spec fn step(regs: Seq<i16>, mem: Seq<u8>) -> (Seq<i16>, Seq<u8>, Option<Result<(), Error>>) {
    let pc = regs[0];
    if pc < 0 {
        (regs, mem, Some(Err(Error::NegativePc)))
    } else if pc >= MEMORY_SIZE {
        (regs, mem, Some(Ok(())))
    } else {
        match decode_spec(mem.skip(pc as int)) {
            Err(e) => (regs, mem, Some(Err(e))),
            Ok(i) => {
                let (regs2, mem2, r) = execute_spec(i, regs, mem, pc);
                match r {
                    Ok(next) => (regs2.update(0, next), mem2, None),
                    Err(e) => (regs2, mem2, Some(Err(e))),
                }
            },
        }
    }
}

/// The run from registers `regs` and memory `mem` for at most `fuel` steps: the
/// memory at its end, and `Some` of how it ended, or `None` where it has not
/// ended within `fuel` steps.
pub open spec fn run_spec(regs: Seq<i16>, mem: Seq<u8>, fuel: nat) -> (Seq<u8>, Option<Result<(), Error>>)
    decreases fuel,
{
    if fuel == 0 {
        (mem, None)
    } else {
        let (regs2, mem2, done) = step(regs, mem);
        match done {
            Some(r) => (mem2, Some(r)),
            None => run_spec(regs2, mem2, (fuel - 1) as nat),
        }
    }
}

/// The registers at the start of a run: all zero, so execution starts at offset 0.
pub open spec fn initial_registers() -> Seq<i16> {
    seq![0i16, 0i16, 0i16]
}

/// Whether the run from `regs` and `mem` executes no `branch_if_eq` within its
/// first `fuel` steps.
pub open spec fn branch_free(regs: Seq<i16>, mem: Seq<u8>, fuel: nat) -> bool
    decreases fuel,
{
    if fuel == 0 {
        true
    } else {
        let (regs2, mem2, done) = step(regs, mem);
        match done {
            Some(_) => true,
            None => !(decode_spec(mem.skip(regs[0] as int)) matches Ok(
                Instruction::BranchIfEq { .. },
            )) && branch_free(regs2, mem2, (fuel - 1) as nat),
        }
    }
}

/// A run that has ended within `n` steps ends the same way, with the same
/// memory, when it is given any more steps.
pub proof fn lemma_run_fuel_extends(regs: Seq<i16>, mem: Seq<u8>, n: nat, m: nat)
    requires
        run_spec(regs, mem, n).1 is Some,
        n <= m,
    ensures
        run_spec(regs, mem, m) == run_spec(regs, mem, n),
    decreases n,
{
    let (regs2, mem2, done) = step(regs, mem);
    if done is None {
        lemma_run_fuel_extends(regs2, mem2, (n - 1) as nat, (m - 1) as nat);
    }
}

/// Without a branch, each step moves the program counter forward, so a run from
/// a program counter `pc` in 0..=20 ends within `21 - pc` steps.
proof fn lemma_forward_run_ends(regs: Seq<i16>, mem: Seq<u8>, fuel: nat)
    requires
        regs.len() == 3,
        mem.len() == MEMORY_SIZE,
        0 <= regs[0],
        1 <= fuel,
        fuel + regs[0] >= MEMORY_SIZE + 1,
        branch_free(regs, mem, fuel),
    ensures
        run_spec(regs, mem, fuel).1 is Some,
    decreases fuel,
{
    let (regs2, mem2, done) = step(regs, mem);
    if done is None {
        assert(regs2[0] > regs[0]);
        lemma_forward_run_ends(regs2, mem2, (fuel - 1) as nat);
    }
}

/// A run from offset 0 that executes no `branch_if_eq` ends within 21 steps:
/// `run` returns how it ended and never stops at the step limit.
pub proof fn lemma_branch_free_run_ends(mem: Seq<u8>)
    requires
        mem.len() == MEMORY_SIZE,
        branch_free(initial_registers(), mem, (MEMORY_SIZE + 1) as nat),
    ensures
        run_spec(initial_registers(), mem, (MEMORY_SIZE + 1) as nat).1 is Some,
        run_spec(initial_registers(), mem, STEP_LIMIT as nat) == run_spec(
            initial_registers(),
            mem,
            (MEMORY_SIZE + 1) as nat,
        ),
{
    lemma_forward_run_ends(initial_registers(), mem, (MEMORY_SIZE + 1) as nat);
    lemma_run_fuel_extends(initial_registers(), mem, (MEMORY_SIZE + 1) as nat, STEP_LIMIT as nat);
}

/// Runs the program in `memory` from offset 0 with all registers zero, until it
/// halts, fails, or has executed `STEP_LIMIT` instructions.
pub fn run(memory: &mut Memory) -> (r: Result<(), Error>)
    ensures
        final(memory)@ == run_spec(initial_registers(), old(memory)@, STEP_LIMIT as nat).0,
        r == match run_spec(initial_registers(), old(memory)@, STEP_LIMIT as nat).1 {
            Some(res) => res,
            None => Err(Error::StepLimit),
        },
{
    let mut registers: [i16; 3] = [0; 3];
    let mut fuel: u64 = STEP_LIMIT;
    assert(registers@ =~= initial_registers());
    loop
        invariant
            registers@.len() == 3,
            run_spec(registers@, memory@, fuel as nat) == run_spec(
                initial_registers(),
                old(memory)@,
                STEP_LIMIT as nat,
            ),
        decreases fuel,
    {
        if fuel == 0 {
            return Err(Error::StepLimit);
        }
        let pc = registers[0];
        if pc < 0 {
            return Err(Error::NegativePc);
        }
        // Halt moves the pc to the memory size, so a halted program ends here.
        if pc >= memory.size() as i16 {
            return Ok(());
        }
        let instruction = match Instruction::decode(memory.0.as_slice(), pc as usize) {
            Ok(i) => i,
            Err(e) => return Err(e),
        };
        registers[0] = match instruction.execute(&mut registers, memory, pc) {
            Ok(next) => next,
            Err(e) => return Err(e),
        };
        fuel = fuel - 1;
    }
}

} // verus!
