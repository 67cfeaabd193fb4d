use bf_vm::vm::compiler::decompile;
use bf_vm::vm::instruction::{instructions_to_string, Instruction};
use bf_vm::vm::{run, Error, Memory};

fn test_helper(raw_memory: [u8; 20]) -> Result<i16, Error> {
    let mut raw_memory = raw_memory;

    let mut memory = Memory::new(&mut raw_memory);

    run(&mut memory)?;

    Ok(i16::from_le_bytes([raw_memory[0x0e], raw_memory[0x0f]]))
}

#[test]
fn add() {
    assert_eq!(Ok(5281 + 12), test_helper([
        0x01, 0x01, 0x10,
        0x01, 0x02, 0x12,
        0x03, 0x01, 0x02,
        0x02, 0x01, 0x0e,
        0xff,
        0x00, 0x00, 0x00,
        // 161 + 20 * 2^8
        0xa1, 0x14,
        // 12
        0x0c, 0x00,
    ]));
}

#[test]
fn add_immediate() {
    assert_eq!(Ok(5281 + 2), test_helper([
        0x01, 0x01, 0x10,
        0x05, 0x01, 0x02,
        0x02, 0x01, 0x0e,
        0xff,
        0x00, 0x00, 0x00,
        0x00, 0x00, 0x00,
        // 161 + 20 * 2^8
        0xa1, 0x14,
        0x00, 0x00,
    ]));
}

#[test]
fn sub() {
    assert_eq!(Ok(5281 - 12), test_helper([
        0x01, 0x01, 0x10,
        0x01, 0x02, 0x12,
        0x04, 0x01, 0x02,
        0x02, 0x01, 0x0e,
        0xff,
        0x00, 0x00, 0x00,
        // 161 + 20 * 2^8
        0xa1, 0x14,
        // 12
        0x0c, 0x00,
    ]));
}

#[test]
fn sub_negative() {
    assert_eq!(Ok(12 - 5281), test_helper([
        0x01, 0x01, 0x10,
        0x01, 0x02, 0x12,
        0x04, 0x01, 0x02,
        0x02, 0x01, 0x0e,
        0xff,
        0x00, 0x00, 0x00,
        // 12
        0x0c, 0x00,
        // 161 + 20 * 2^8
        0xa1, 0x14,
    ]));
}

#[test]
fn branch_if_equal() {
    // Set the output to 1, expect the output to be 0.
    // If r1 and r2 are equal (true since both start at 0), jump and
    // store r1 to the output. Otherwise halt.
    assert_eq!(Ok(0), test_helper([
        0x06, 0x01, 0x02, 0x05,
        0xff,
        0x02, 0x01, 0x0e,
        0xff, 0x00, 0x00,
        0x00, 0x00, 0x00,
        0x00, 0x01,
        0x00, 0x00,
        0x00, 0x00,
    ]));
}

#[test]
fn sub_negative_bit_pattern() {
    let mut raw = [
        0x01, 0x01, 0x10,
        0x01, 0x02, 0x12,
        0x04, 0x01, 0x02,
        0x02, 0x01, 0x0e,
        0xff,
        0x00, 0x00, 0x00,
        0x0c, 0x00,
        0xa1, 0x14,
    ];
    let mut memory = Memory::new(&mut raw);
    assert_eq!(Ok(()), run(&mut memory));
    // -5269 is 0xeb6b in 16-bit two's complement.
    assert_eq!([0x6b, 0xeb], [raw[0x0e], raw[0x0f]]);
}

#[test]
fn add_wraps_around() {
    // 0x7fff + 1 wraps to -32768.
    assert_eq!(Ok(i16::MIN), test_helper([
        0x01, 0x01, 0x10,
        0x05, 0x01, 0x01,
        0x02, 0x01, 0x0e,
        0xff,
        0x00, 0x00, 0x00, 0x00, 0x00, 0x00,
        0xff, 0x7f,
        0x00, 0x00,
    ]));
}

#[test]
fn falls_off_the_end() {
    let image = [
        0x05, 0x01, 0x01,
        0x06, 0x01, 0x02, 0x00,
        0x06, 0x01, 0x02, 0x00,
        0x03, 0x01, 0x01,
        0x03, 0x01, 0x01,
        0x03, 0x01, 0x01,
    ];
    let mut raw = image;
    let mut memory = Memory::new(&mut raw);
    assert_eq!(Ok(()), run(&mut memory));
    assert_eq!(image, raw);
}

#[test]
fn unknown_opcode_fails_run() {
    let mut raw = [0x07; 20];
    let mut memory = Memory::new(&mut raw);
    assert_eq!(Err(Error::UnknownInstruction), run(&mut memory));
}

#[test]
fn truncated_instruction_fails_run() {
    let mut raw = [0x00; 20];
    raw[0] = 0x06;
    raw[1] = 0x01;
    raw[2] = 0x02;
    raw[3] = 0x12;
    raw[18] = 0x01;
    raw[19] = 0x01;
    let mut memory = Memory::new(&mut raw);
    assert_eq!(Err(Error::UnknownInstruction), run(&mut memory));
}

#[test]
fn load_past_end_is_out_of_bounds() {
    let mut raw = [0x00; 20];
    raw[0] = 0x01;
    raw[1] = 0x01;
    raw[2] = 0x13;
    let mut memory = Memory::new(&mut raw);
    assert_eq!(Err(Error::OutOfBounds(20)), run(&mut memory));

    let mut raw = [0x00; 20];
    raw[0] = 0x01;
    raw[1] = 0x01;
    raw[2] = 0xff;
    let mut memory = Memory::new(&mut raw);
    assert_eq!(Err(Error::OutOfBounds(255)), run(&mut memory));
}

#[test]
fn store_at_last_byte_writes_one_byte() {
    let mut raw = [0x00; 20];
    raw[0] = 0x05;
    raw[1] = 0x01;
    raw[2] = 0x2a;
    raw[3] = 0x02;
    raw[4] = 0x01;
    raw[5] = 0x13;
    let mut memory = Memory::new(&mut raw);
    assert_eq!(Err(Error::OutOfBounds(20)), run(&mut memory));
    assert_eq!(0x2a, raw[19]);
}

#[test]
fn register_three_is_invalid() {
    let mut raw = [0x00; 20];
    raw[0] = 0x03;
    raw[1] = 0x03;
    raw[2] = 0x01;
    let mut memory = Memory::new(&mut raw);
    assert_eq!(Err(Error::InvalidRegister), run(&mut memory));
}

#[test]
fn memory_accessor() {
    let mut raw = [0x00; 20];
    let mut memory = Memory::new(&mut raw);
    assert_eq!(20, memory.size());
    *memory.get_mut(19).unwrap() = 9;
    assert!(matches!(memory.get_mut(20), Err(Error::OutOfBounds(20))));
    assert_eq!(9, raw[19]);
}

#[test]
fn add_then_sub_restores_register() {
    let mut raw = [0x00; 20];
    let mut memory = Memory::new(&mut raw);
    let mut registers: [i16; 3] = [0, 30000, 12345];
    let add = Instruction::Add { first_reg: 1, second_reg: 2 };
    let sub = Instruction::Sub { first_reg: 1, second_reg: 2 };
    assert_eq!(Ok(3), add.execute(&mut registers, &mut memory, 0));
    assert_eq!([0, 30000i16.wrapping_add(12345), 12345], registers);
    assert_eq!(Ok(6), sub.execute(&mut registers, &mut memory, 3));
    assert_eq!([0, 30000, 12345], registers);
}

#[test]
fn execute_results() {
    let mut raw = [0x00; 20];
    raw[4] = 0x34;
    raw[5] = 0x12;
    let mut memory = Memory::new(&mut raw);
    let mut registers: [i16; 3] = [0, 0, 7];
    let load = Instruction::LoadWord { reg: 1, addr: 4 };
    assert_eq!(Ok(8), load.execute(&mut registers, &mut memory, 5));
    assert_eq!(0x1234, registers[1]);
    let branch = Instruction::BranchIfEq { first_reg: 1, second_reg: 2, new_pc: 0 };
    assert_eq!(Ok(9), branch.execute(&mut registers, &mut memory, 5));
    assert_eq!(Ok(20), Instruction::Halt.execute(&mut registers, &mut memory, 5));
    assert_eq!(
        Err(Error::UnknownInstruction),
        Instruction::Unknown(0x42).execute(&mut registers, &mut memory, 5)
    );
}

#[test]
fn decompiles_1() {
    assert_eq!(
        Ok(
"load_word r1 (0x01)
store_word r1 (0x02)
add r1 r2
sub r2 r1
add_immediate r1 (0x01)
halt
0xa1
0x14
0x00
0x00"
        .to_string()),
        decompile(&[
            0x01, 0x01, 0x01,
            0x02, 0x01, 0x02,
            0x03, 0x01, 0x02,
            0x04, 0x02, 0x01,
            0x05, 0x01, 0x01,
            0xff,
            0xa1, 0x14,
            0x00, 0x00,
        ])
        .map(|x| instructions_to_string(x)),
    );
}

#[test]
fn decompiles_2() {
    assert_eq!(
        Ok(
"branch_if_eq r1 r2 0x06
0x00
0x00
0x00
0x00
0x00
0x00
0x00
0x00
0x00
0x00
0x00
0x00
0x00
0x00
0x00
0x00"
        .to_string()),
        decompile(&[
            0x06, 0x01, 0x02, 0x06,
            0x00,
            0x00, 0x00, 0x00,
            0x00, 0x00, 0x00,
            0x00, 0x00, 0x00,
            0x00, 0x00, 0x00,
            0x00, 0x00, 0x00,
        ])
        .map(|x| instructions_to_string(x)),
    );
}

#[test]
fn unknown_tail_byte() {
    let is = decompile(&[0xff, 0x07]).unwrap();
    assert_eq!(vec![Instruction::Halt, Instruction::Unknown(0x07)], is);
    assert_eq!(1, is[1].size());
    assert_eq!("0x07", is[1].to_string());
    assert_eq!("halt\n0x07", instructions_to_string(is));
}

#[test]
fn sizes_add_up_to_length() {
    let bytes = [0x01, 0x01, 0x10, 0x06, 0x01, 0x02, 0x05, 0xff, 0x9a, 0x05, 0x00, 0x2a];
    let is = decompile(&bytes).unwrap();
    assert_eq!(5, is.len());
    let total: usize = is.iter().map(|i| usize::from(i.size())).sum();
    assert_eq!(bytes.len(), total);
}

#[test]
fn truncated_instruction_fails_decompile() {
    assert_eq!(Err(Error::UnknownInstruction), decompile(&[0xff, 0x01, 0x01]));
    assert_eq!(Err(Error::UnknownInstruction), decompile(&[0x06, 0x01, 0x02]));
    assert_eq!(Ok(vec![]), decompile(&[]));
}

#[test]
fn renders_every_variant() {
    let cases = [
        (Instruction::LoadWord { reg: 0, addr: 0x10 }, "load_word r0 (0x10)"),
        (Instruction::StoreWord { reg: 2, addr: 0x0e }, "store_word r2 (0x0e)"),
        (Instruction::Add { first_reg: 255, second_reg: 10 }, "add r255 r10"),
        (Instruction::Sub { first_reg: 99, second_reg: 100 }, "sub r99 r100"),
        (Instruction::AddImmediate { reg: 1, constant: 0xab }, "add_immediate r1 (0xab)"),
        (Instruction::BranchIfEq { first_reg: 1, second_reg: 2, new_pc: 0xff }, "branch_if_eq r1 r2 0xff"),
        (Instruction::Halt, "halt"),
        (Instruction::Unknown(0x0f), "0x0f"),
    ];
    for (i, text) in cases {
        assert_eq!(text, i.to_string());
    }
    assert_eq!("", instructions_to_string(vec![]));
}

#[test]
fn decode_at_offset() {
    let bytes = [0x00, 0x05, 0x02, 0x09];
    assert_eq!(Ok(Instruction::AddImmediate { reg: 2, constant: 9 }), Instruction::decode(&bytes, 1));
    assert_eq!(Ok(Instruction::Unknown(0x09)), Instruction::decode(&bytes, 3));
    assert_eq!(Err(Error::UnknownInstruction), Instruction::decode(&bytes, 2));
}

#[test]
fn memory_hex_dump() {
    let mut raw = [0x00; 20];
    raw[0] = 0xab;
    raw[19] = 0x0c;
    let memory = Memory::new(&mut raw);
    let expected = "00 01 02 03 04 05 06 07 08 09 0a 0b 0c 0d 0e 0f 10 11 12 13 \n\
-----------------------------------------------------------\n\
ab 00 00 00 00 00 00 00 00 00 00 00 00 00 00 00 00 00 00 0c \n\
INSTRUCTIONS ---------------------------^ OUT-^ IN-1^ IN-2^";
    assert_eq!(expected, memory.to_string());
}
