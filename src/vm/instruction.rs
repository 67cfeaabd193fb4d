use vstd::prelude::*;

use super::error::Error;
use super::memory::{Memory, MEMORY_SIZE};
use super::text::{decimal, hex_byte, push_decimal, push_hex_byte};

verus! {

/// One decoded instruction, with the operand bytes that it reads.
#[derive(Debug, Clone, Copy, PartialEq, Eq, Structural)]
pub enum Instruction {
    LoadWord { reg: u8, addr: u8 },
    StoreWord { reg: u8, addr: u8 },
    Add { first_reg: u8, second_reg: u8 },
    Sub { first_reg: u8, second_reg: u8 },
    AddImmediate { reg: u8, constant: u8 },
    /// If first_reg and second_reg contain same value, pc jumps to new_pc.
    BranchIfEq { first_reg: u8, second_reg: u8, new_pc: u8 },
    Halt,
    Unknown(u8),
}

/// The instruction that the bytes `s` begin with: the leading byte selects the
/// variant and the following bytes are its operands. Input that ends before the
/// operands of its instruction does is an error, as is empty input.
pub open spec fn decode_spec(s: Seq<u8>) -> Result<Instruction, Error> {
    if s.len() == 0 {
        Err(Error::UnknownInstruction)
    } else if s[0] == 0x01 || s[0] == 0x02 || s[0] == 0x03 || s[0] == 0x04 || s[0] == 0x05 {
        if s.len() < 3 {
            Err(Error::UnknownInstruction)
        } else if s[0] == 0x01 {
            Ok(Instruction::LoadWord { reg: s[1], addr: s[2] })
        } else if s[0] == 0x02 {
            Ok(Instruction::StoreWord { reg: s[1], addr: s[2] })
        } else if s[0] == 0x03 {
            Ok(Instruction::Add { first_reg: s[1], second_reg: s[2] })
        } else if s[0] == 0x04 {
            Ok(Instruction::Sub { first_reg: s[1], second_reg: s[2] })
        } else {
            Ok(Instruction::AddImmediate { reg: s[1], constant: s[2] })
        }
    } else if s[0] == 0x06 {
        if s.len() < 4 {
            Err(Error::UnknownInstruction)
        } else {
            Ok(Instruction::BranchIfEq { first_reg: s[1], second_reg: s[2], new_pc: s[3] })
        }
    } else if s[0] == 0xff {
        Ok(Instruction::Halt)
    } else {
        Ok(Instruction::Unknown(s[0]))
    }
}

/// The bytes that encode an instruction.
pub open spec fn encode(i: Instruction) -> Seq<u8> {
    match i {
        Instruction::LoadWord { reg, addr } => seq![0x01u8, reg, addr],
        Instruction::StoreWord { reg, addr } => seq![0x02u8, reg, addr],
        Instruction::Add { first_reg, second_reg } => seq![0x03u8, first_reg, second_reg],
        Instruction::Sub { first_reg, second_reg } => seq![0x04u8, first_reg, second_reg],
        Instruction::AddImmediate { reg, constant } => seq![0x05u8, reg, constant],
        Instruction::BranchIfEq { first_reg, second_reg, new_pc } => seq![
            0x06u8,
            first_reg,
            second_reg,
            new_pc,
        ],
        Instruction::Halt => seq![0xffu8],
        Instruction::Unknown(x) => seq![x],
    }
}

/// Encoded length of an instruction in bytes.
pub open spec fn size_spec(i: Instruction) -> nat {
    match i {
        Instruction::BranchIfEq { .. } => 4,
        Instruction::Halt | Instruction::Unknown(_) => 1,
        _ => 3,
    }
}

/// `x` reduced into the range of `i16` by 16-bit two's-complement wraparound.
pub open spec fn wrap16(x: int) -> i16 {
    if x > i16::MAX {
        (x - 0x10000) as i16
    } else if x < i16::MIN {
        (x + 0x10000) as i16
    } else {
        x as i16
    }
}

/// The little-endian 16-bit word with low byte `lo` and high byte `hi`.
pub open spec fn word_of(lo: u8, hi: u8) -> i16 {
    wrap16(lo + 256 * hi)
}

/// The 16-bit pattern of `v` as an unsigned number.
pub open spec fn bits_of(v: i16) -> int {
    if v < 0 {
        v + 0x10000
    } else {
        v as int
    }
}

pub open spec fn low_byte(v: i16) -> u8 {
    (bits_of(v) % 256) as u8
}

pub open spec fn high_byte(v: i16) -> u8 {
    (bits_of(v) / 256) as u8
}

pub open spec fn is_reg(r: u8) -> bool {
    r < 3
}

/// What executing `i` at program counter `pc` does to registers `regs` and memory
/// `mem`: the registers and memory afterwards, and the next program counter or
/// the error. A store that fails on its second byte has written the first.
pub open spec fn execute_spec(i: Instruction, regs: Seq<i16>, mem: Seq<u8>, pc: i16) -> (
    Seq<i16>,
    Seq<u8>,
    Result<i16, Error>,
) {
    match i {
        Instruction::LoadWord { reg, addr } => {
            if !is_reg(reg) {
                (regs, mem, Err(Error::InvalidRegister))
            } else if addr >= MEMORY_SIZE {
                (regs, mem, Err(Error::OutOfBounds(addr as u16)))
            } else if addr + 1 >= MEMORY_SIZE {
                (regs, mem, Err(Error::OutOfBounds((addr + 1) as u16)))
            } else {
                (
                    regs.update(reg as int, word_of(mem[addr as int], mem[addr + 1])),
                    mem,
                    Ok((pc + 3) as i16),
                )
            }
        },
        Instruction::StoreWord { reg, addr } => {
            if !is_reg(reg) {
                (regs, mem, Err(Error::InvalidRegister))
            } else if addr >= MEMORY_SIZE {
                (regs, mem, Err(Error::OutOfBounds(addr as u16)))
            } else if addr + 1 >= MEMORY_SIZE {
                (
                    regs,
                    mem.update(addr as int, low_byte(regs[reg as int])),
                    Err(Error::OutOfBounds((addr + 1) as u16)),
                )
            } else {
                (
                    regs,
                    mem.update(addr as int, low_byte(regs[reg as int])).update(
                        addr + 1,
                        high_byte(regs[reg as int]),
                    ),
                    Ok((pc + 3) as i16),
                )
            }
        },
        Instruction::Add { first_reg: a, second_reg: b } => {
            if !is_reg(a) || !is_reg(b) {
                (regs, mem, Err(Error::InvalidRegister))
            } else {
                (
                    regs.update(a as int, wrap16(regs[a as int] + regs[b as int])),
                    mem,
                    Ok((pc + 3) as i16),
                )
            }
        },
        Instruction::Sub { first_reg: a, second_reg: b } => {
            if !is_reg(a) || !is_reg(b) {
                (regs, mem, Err(Error::InvalidRegister))
            } else {
                (
                    regs.update(a as int, wrap16(regs[a as int] - regs[b as int])),
                    mem,
                    Ok((pc + 3) as i16),
                )
            }
        },
        Instruction::AddImmediate { reg, constant } => {
            if !is_reg(reg) {
                (regs, mem, Err(Error::InvalidRegister))
            } else {
                (
                    regs.update(reg as int, wrap16(regs[reg as int] + constant)),
                    mem,
                    Ok((pc + 3) as i16),
                )
            }
        },
        Instruction::BranchIfEq { first_reg: a, second_reg: b, new_pc } => {
            if !is_reg(a) || !is_reg(b) {
                (regs, mem, Err(Error::InvalidRegister))
            } else if regs[a as int] == regs[b as int] {
                (regs, mem, Ok(new_pc as i16))
            } else {
                (regs, mem, Ok((pc + 4) as i16))
            }
        },
        Instruction::Halt => (regs, mem, Ok(MEMORY_SIZE as i16)),
        Instruction::Unknown(_) => (regs, mem, Err(Error::UnknownInstruction)),
    }
}

/// The mnemonic text of an instruction; an unknown byte renders as its own value.
pub open spec fn render(i: Instruction) -> Seq<char> {
    match i {
        Instruction::LoadWord { reg, addr } => "load_word r"@ + decimal(reg) + " ("@ + hex_byte(addr)
            + ")"@,
        Instruction::StoreWord { reg, addr } => "store_word r"@ + decimal(reg) + " ("@ + hex_byte(
            addr,
        ) + ")"@,
        Instruction::Add { first_reg, second_reg } => "add r"@ + decimal(first_reg) + " r"@
            + decimal(second_reg),
        Instruction::Sub { first_reg, second_reg } => "sub r"@ + decimal(first_reg) + " r"@
            + decimal(second_reg),
        Instruction::AddImmediate { reg, constant } => "add_immediate r"@ + decimal(reg) + " ("@
            + hex_byte(constant) + ")"@,
        Instruction::BranchIfEq { first_reg, second_reg, new_pc } => "branch_if_eq r"@ + decimal(
            first_reg,
        ) + " r"@ + decimal(second_reg) + " "@ + hex_byte(new_pc),
        Instruction::Halt => "halt"@,
        Instruction::Unknown(x) => hex_byte(x),
    }
}

/// The renderings of `is`, one per line, with no newline after the last.
pub open spec fn render_lines(is: Seq<Instruction>) -> Seq<char>
    decreases is.len(),
{
    if is.len() == 0 {
        Seq::empty()
    } else if is.len() == 1 {
        render(is[0])
    } else {
        render_lines(is.drop_last()) + "\n"@ + render(is.last())
    }
}

/// Executing `add a b` and then `sub a b` gives register `a` back its value, for
/// two distinct registers: `b` is the same for both steps, and 16-bit
/// wraparound undoes itself. Memory is untouched by both.
pub proof fn lemma_add_then_sub_restores(regs: Seq<i16>, mem: Seq<u8>, pc: i16, a: u8, b: u8)
    requires
        regs.len() == 3,
        is_reg(a),
        is_reg(b),
        a != b,
        pc + 7 <= i16::MAX,
    ensures
        ({
            let (regs1, mem1, next) = execute_spec(
                Instruction::Add { first_reg: a, second_reg: b },
                regs,
                mem,
                pc,
            );
            let (regs2, mem2, _) = execute_spec(
                Instruction::Sub { first_reg: a, second_reg: b },
                regs1,
                mem1,
                next->Ok_0,
            );
            regs2 == regs && mem2 == mem
        }),
{
    let (regs1, mem1, next) = execute_spec(
        Instruction::Add { first_reg: a, second_reg: b },
        regs,
        mem,
        pc,
    );
    let (regs2, mem2, _) = execute_spec(
        Instruction::Sub { first_reg: a, second_reg: b },
        regs1,
        mem1,
        next->Ok_0,
    );
    assert(regs2 =~= regs);
}

/// Reads the little-endian word at `addr`, one byte at a time through the accessor.
fn load_word(memory: &mut Memory, addr: u8) -> (r: Result<i16, Error>)
    ensures
        final(memory)@ == old(memory)@,
        addr >= MEMORY_SIZE ==> r == Err::<i16, Error>(Error::OutOfBounds(addr as u16)),
        addr + 1 == MEMORY_SIZE ==> r == Err::<i16, Error>(Error::OutOfBounds((addr + 1) as u16)),
        addr + 1 < MEMORY_SIZE ==> r == Ok::<i16, Error>(
            word_of(old(memory)@[addr as int], old(memory)@[addr + 1]),
        ),
{
    let lo = match memory.get_mut(addr) {
        Ok(b) => *b,
        Err(e) => return Err(e),
    };
    let hi = match memory.get_mut(addr + 1) {
        Ok(b) => *b,
        Err(e) => return Err(e),
    };
    let v: i32 = lo as i32 + (hi as i32) * 256;
    if v > 0x7fff {
        Ok((v - 0x10000) as i16)
    } else {
        Ok(v as i16)
    }
}

/// Writes `value` little-endian at `addr`, one byte at a time through the accessor.
fn store_word(memory: &mut Memory, addr: u8, value: i16) -> (r: Result<(), Error>)
    ensures
        addr >= MEMORY_SIZE ==> r == Err::<(), Error>(Error::OutOfBounds(addr as u16))
            && final(memory)@ == old(memory)@,
        addr + 1 == MEMORY_SIZE ==> r == Err::<(), Error>(Error::OutOfBounds((addr + 1) as u16))
            && final(memory)@ == old(memory)@.update(addr as int, low_byte(value)),
        addr + 1 < MEMORY_SIZE ==> r is Ok && final(memory)@ == old(memory)@.update(
            addr as int,
            low_byte(value),
        ).update(addr + 1, high_byte(value)),
{
    let bits: u16 = if value < 0 {
        (value as i32 + 0x10000) as u16
    } else {
        value as u16
    };
    match memory.get_mut(addr) {
        Ok(b) => {
            *b = (bits % 256) as u8;
        },
        Err(e) => return Err(e),
    }
    match memory.get_mut(addr + 1) {
        Ok(b) => {
            *b = (bits / 256) as u8;
        },
        Err(e) => return Err(e),
    }
    Ok(())
}

impl Instruction {
    /// Decodes the instruction that starts at `at` in `bytes`.
    pub fn decode(bytes: &[u8], at: usize) -> (r: Result<Instruction, Error>)
        requires
            at < bytes@.len(),
        ensures
            r == decode_spec(bytes@.skip(at as int)),
    {
        let n = bytes.len() - at;
        let op = bytes[at];
        if op == 0x01 || op == 0x02 || op == 0x03 || op == 0x04 || op == 0x05 {
            if n < 3 {
                return Err(Error::UnknownInstruction);
            }
            let x = bytes[at + 1];
            let y = bytes[at + 2];
            if op == 0x01 {
                Ok(Instruction::LoadWord { reg: x, addr: y })
            } else if op == 0x02 {
                Ok(Instruction::StoreWord { reg: x, addr: y })
            } else if op == 0x03 {
                Ok(Instruction::Add { first_reg: x, second_reg: y })
            } else if op == 0x04 {
                Ok(Instruction::Sub { first_reg: x, second_reg: y })
            } else {
                Ok(Instruction::AddImmediate { reg: x, constant: y })
            }
        } else if op == 0x06 {
            if n < 4 {
                return Err(Error::UnknownInstruction);
            }
            Ok(
                Instruction::BranchIfEq {
                    first_reg: bytes[at + 1],
                    second_reg: bytes[at + 2],
                    new_pc: bytes[at + 3],
                },
            )
        } else if op == 0xff {
            Ok(Instruction::Halt)
        } else {
            Ok(Instruction::Unknown(op))
        }
    }

    /// Executes the instruction at program counter `pc`; returns the new pc.
    pub fn execute(self, registers: &mut [i16; 3], memory: &mut Memory, pc: i16) -> (r: Result<
        i16,
        Error,
    >)
        requires
            pc + 4 <= i16::MAX,
        ensures
            execute_spec(self, old(registers)@, old(memory)@, pc) == (
                final(registers)@,
                final(memory)@,
                r,
            ),
    {
        match self {
            Instruction::LoadWord { reg, addr } => {
                if reg >= 3 {
                    return Err(Error::InvalidRegister);
                }
                let w = match load_word(memory, addr) {
                    Ok(w) => w,
                    Err(e) => return Err(e),
                };
                registers[reg as usize] = w;
                Ok(pc + 3)
            },
            Instruction::StoreWord { reg, addr } => {
                if reg >= 3 {
                    return Err(Error::InvalidRegister);
                }
                match store_word(memory, addr, registers[reg as usize]) {
                    Ok(()) => Ok(pc + 3),
                    Err(e) => Err(e),
                }
            },
            Instruction::Add { first_reg, second_reg } => {
                if first_reg >= 3 || second_reg >= 3 {
                    return Err(Error::InvalidRegister);
                }
                registers[first_reg as usize] = registers[first_reg as usize].wrapping_add(
                    registers[second_reg as usize],
                );
                Ok(pc + 3)
            },
            Instruction::Sub { first_reg, second_reg } => {
                if first_reg >= 3 || second_reg >= 3 {
                    return Err(Error::InvalidRegister);
                }
                registers[first_reg as usize] = registers[first_reg as usize].wrapping_sub(
                    registers[second_reg as usize],
                );
                Ok(pc + 3)
            },
            Instruction::AddImmediate { reg, constant } => {
                if reg >= 3 {
                    return Err(Error::InvalidRegister);
                }
                registers[reg as usize] = registers[reg as usize].wrapping_add(constant as i16);
                Ok(pc + 3)
            },
            Instruction::BranchIfEq { first_reg, second_reg, new_pc } => {
                if first_reg >= 3 || second_reg >= 3 {
                    return Err(Error::InvalidRegister);
                }
                if registers[first_reg as usize] == registers[second_reg as usize] {
                    Ok(new_pc as i16)
                } else {
                    Ok(pc + 4)
                }
            },
            Instruction::Halt => Ok(memory.size() as i16),
            Instruction::Unknown(_) => Err(Error::UnknownInstruction),
        }
    }

    /// Encoded length of the instruction in bytes.
    pub fn size(&self) -> (r: u8)
        ensures
            r as nat == size_spec(*self),
            r as nat == encode(*self).len(),
    {
        match self {
            Instruction::BranchIfEq { .. } => 4,
            Instruction::Halt | Instruction::Unknown(_) => 1,
            _ => 3,
        }
    }

    /// The mnemonic text of the instruction.
    pub fn to_string(&self) -> (r: String)
        ensures
            r@ == render(*self),
    {
        let mut out = String::new();
        match *self {
            Instruction::LoadWord { reg, addr } => {
                out.append("load_word r");
                push_decimal(&mut out, reg);
                out.append(" (");
                push_hex_byte(&mut out, addr);
                out.append(")");
            },
            Instruction::StoreWord { reg, addr } => {
                out.append("store_word r");
                push_decimal(&mut out, reg);
                out.append(" (");
                push_hex_byte(&mut out, addr);
                out.append(")");
            },
            Instruction::Add { first_reg, second_reg } => {
                out.append("add r");
                push_decimal(&mut out, first_reg);
                out.append(" r");
                push_decimal(&mut out, second_reg);
            },
            Instruction::Sub { first_reg, second_reg } => {
                out.append("sub r");
                push_decimal(&mut out, first_reg);
                out.append(" r");
                push_decimal(&mut out, second_reg);
            },
            Instruction::AddImmediate { reg, constant } => {
                out.append("add_immediate r");
                push_decimal(&mut out, reg);
                out.append(" (");
                push_hex_byte(&mut out, constant);
                out.append(")");
            },
            Instruction::BranchIfEq { first_reg, second_reg, new_pc } => {
                out.append("branch_if_eq r");
                push_decimal(&mut out, first_reg);
                out.append(" r");
                push_decimal(&mut out, second_reg);
                out.append(" ");
                push_hex_byte(&mut out, new_pc);
            },
            Instruction::Halt => {
                out.append("halt");
            },
            Instruction::Unknown(x) => {
                push_hex_byte(&mut out, x);
            },
        }
        assert(out@ =~= render(*self));
        out
    }
}

/// The renderings of `instructions`, joined by newlines.
pub fn instructions_to_string(instructions: Vec<Instruction>) -> (r: String)
    ensures
        r@ == render_lines(instructions@),
{
    let mut out = String::new();
    let mut i: usize = 0;
    while i < instructions.len()
        invariant
            i <= instructions@.len(),
            out@ == render_lines(instructions@.take(i as int)),
        decreases instructions@.len() - i,
    {
        proof {
            let t = instructions@.take(i as int + 1);
            assert(t.drop_last() =~= instructions@.take(i as int));
        }
        if i > 0 {
            out.append("\n");
        }
        let line = instructions[i].to_string();
        out.append(line.as_str());
        i = i + 1;
    }
    assert(instructions@.take(i as int) =~= instructions@);
    out
}

} // verus!
