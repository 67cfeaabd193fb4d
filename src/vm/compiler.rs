use vstd::prelude::*;

use super::error::Error;
use super::instruction::{decode_spec, encode, render, size_spec, Instruction};
use super::text::hex_byte;

verus! {

/// The instructions that the bytes `s` decode to, one after another from the
/// start: each begins right after the bytes of the one before it.
pub open spec fn disassemble(s: Seq<u8>) -> Result<Seq<Instruction>, Error>
    decreases s.len(),
{
    if s.len() == 0 {
        Ok(Seq::empty())
    } else {
        match decode_spec(s) {
            Err(e) => Err(e),
            Ok(i) => match disassemble(s.skip(size_spec(i) as int)) {
                Ok(rest) => Ok(seq![i] + rest),
                Err(e) => Err(e),
            },
        }
    }
}

/// `done` followed by what `rest` holds, or the error of `rest`.
pub open spec fn after(done: Seq<Instruction>, rest: Result<Seq<Instruction>, Error>) -> Result<
    Seq<Instruction>,
    Error,
> {
    match rest {
        Ok(is) => Ok(done + is),
        Err(e) => Err(e),
    }
}

/// The bytes of the instructions `is`, one after another.
pub open spec fn encode_all(is: Seq<Instruction>) -> Seq<u8>
    decreases is.len(),
{
    if is.len() == 0 {
        Seq::empty()
    } else {
        encode(is[0]) + encode_all(is.skip(1))
    }
}

/// The sum of the sizes of the instructions `is`.
pub open spec fn total_size(is: Seq<Instruction>) -> nat
    decreases is.len(),
{
    if is.len() == 0 {
        0
    } else {
        size_spec(is[0]) + total_size(is.skip(1))
    }
}

/// A decoded instruction is exactly the bytes it was decoded from.
proof fn lemma_decode_encodes(s: Seq<u8>)
    requires
        decode_spec(s) is Ok,
    ensures
        size_spec(decode_spec(s)->Ok_0) <= s.len(),
        encode(decode_spec(s)->Ok_0) == s.take(size_spec(decode_spec(s)->Ok_0) as int),
{
    let i = decode_spec(s)->Ok_0;
    assert(encode(i) =~= s.take(size_spec(i) as int));
}

/// Where a buffer disassembles, the instructions' encodings laid end to end
/// give the buffer back, and their sizes add up to its length.
pub proof fn lemma_disassembly_covers_bytes(s: Seq<u8>)
    requires
        disassemble(s) is Ok,
    ensures
        encode_all(disassemble(s)->Ok_0) == s,
        total_size(disassemble(s)->Ok_0) == s.len(),
    decreases s.len(),
{
    if s.len() == 0 {
        assert(encode_all(Seq::<Instruction>::empty()) =~= s);
    } else {
        let i = decode_spec(s)->Ok_0;
        let n = size_spec(i) as int;
        lemma_decode_encodes(s);
        lemma_disassembly_covers_bytes(s.skip(n));
        let is = disassemble(s)->Ok_0;
        assert(is.skip(1) =~= disassemble(s.skip(n))->Ok_0);
        assert(s =~= s.take(n) + s.skip(n));
    }
}

/// Where `prefix` disassembles exactly, disassembling more bytes after it gives
/// its instructions followed by those of the bytes that come after.
pub proof fn lemma_disassemble_append(prefix: Seq<u8>, rest: Seq<u8>)
    requires
        disassemble(prefix) is Ok,
    ensures
        disassemble(prefix + rest) == after(disassemble(prefix)->Ok_0, disassemble(rest)),
    decreases prefix.len(),
{
    if prefix.len() == 0 {
        assert(prefix + rest =~= rest);
        assert forall|x: Seq<Instruction>| #![auto] Seq::<Instruction>::empty() + x =~= x by {}
    } else {
        let whole = prefix + rest;
        let i = decode_spec(prefix)->Ok_0;
        let n = size_spec(i) as int;
        lemma_decode_encodes(prefix);
        assert(whole.take(n) =~= prefix.take(n));
        assert(decode_spec(whole) == decode_spec(prefix));
        assert(whole.skip(n) =~= prefix.skip(n) + rest);
        lemma_disassemble_append(prefix.skip(n), rest);
        assert forall|x: Seq<Instruction>| #![auto]
            seq![i] + (disassemble(prefix.skip(n))->Ok_0 + x) =~= (seq![i] + disassemble(
                prefix.skip(n),
            )->Ok_0) + x by {}
    }
}

/// A last byte that is no opcode disassembles as one unknown instruction of one
/// byte, whose rendering is the byte's own hexadecimal value.
pub proof fn lemma_unknown_tail(prefix: Seq<u8>, b: u8)
    requires
        disassemble(prefix) is Ok,
        b != 0x01 && b != 0x02 && b != 0x03 && b != 0x04 && b != 0x05 && b != 0x06 && b != 0xff,
    ensures
        disassemble(prefix.push(b)) == Ok::<Seq<Instruction>, Error>(
            disassemble(prefix)->Ok_0.push(Instruction::Unknown(b)),
        ),
        size_spec(Instruction::Unknown(b)) == 1,
        render(Instruction::Unknown(b)) == hex_byte(b),
{
    let tail = seq![b];
    assert(tail.skip(1) =~= Seq::<u8>::empty());
    assert(decode_spec(tail) == Ok::<Instruction, Error>(Instruction::Unknown(b)));
    assert(disassemble(tail.skip(1)) == Ok::<Seq<Instruction>, Error>(Seq::empty()));
    assert(disassemble(tail) == Ok::<Seq<Instruction>, Error>(seq![Instruction::Unknown(b)] + Seq::empty()));
    assert(seq![Instruction::Unknown(b)] + Seq::<Instruction>::empty() =~= seq![Instruction::Unknown(b)]);
    assert(prefix.push(b) =~= prefix + tail);
    lemma_disassemble_append(prefix, tail);
    assert(disassemble(prefix)->Ok_0 + seq![Instruction::Unknown(b)] =~= disassemble(prefix)->Ok_0.push(
        Instruction::Unknown(b),
    ));
}

/// Disassembles a whole buffer into its sequence of instructions.
pub fn decompile(memory: &[u8]) -> (r: Result<Vec<Instruction>, Error>)
    ensures
        match disassemble(memory@) {
            Ok(is) => r is Ok && r->Ok_0@ == is,
            Err(e) => r == Err::<Vec<Instruction>, Error>(e),
        },
{
    let mut result: Vec<Instruction> = Vec::new();
    let mut at: usize = 0;
    assert(memory@.skip(0) =~= memory@);
    assert forall|x: Seq<Instruction>| #![auto] Seq::<Instruction>::empty() + x =~= x by {}
    while at < memory.len()
        invariant
            at <= memory@.len(),
            disassemble(memory@) == after(result@, disassemble(memory@.skip(at as int))),
        decreases memory@.len() - at,
    {
        let instruction = match Instruction::decode(memory, at) {
            Ok(i) => i,
            Err(e) => return Err(e),
        };
        let size = instruction.size();
        proof {
            let s = memory@.skip(at as int);
            assert(s.skip(size as int) =~= memory@.skip(at + size));
            assert forall|x: Seq<Instruction>| #![auto]
                result@.push(instruction) + x =~= result@ + (seq![instruction] + x) by {}
        }
        result.push(instruction);
        at = at + size as usize;
    }
    assert(memory@.skip(at as int) =~= Seq::<u8>::empty());
    assert(result@ + Seq::<Instruction>::empty() =~= result@);
    Ok(result)
}

} // verus!
