use assembler::errors::{assembling_error, AsmErrorKind};
use assembler::instructions::{Instruction, Symbol};
use assembler::memory::Memory;

fn assemble(src: &str) -> Result<Memory, assembler::errors::AsmError> {
    let mut memory = Memory::new();
    memory.load_program_to_memory(src.to_string()).map(|_| memory)
}

#[test]
fn origin_sets_cursor() {
    let memory = assemble("ORG 064     // Start at 64(hex)\nLDA 002").unwrap();
    assert_eq!(memory.ram[0x64], 0x2002);
    assert_eq!(memory.ram[0], 0);
    assert_eq!(memory.ram[0x65], 0);
}

#[test]
fn full_program_image() {
    let file = "
                ORG 064     // Start the program at memory location 64(hex) = 100(dec)
        X,      DEC 000     // Store the result here
        LOP,    LDA 000     // Load the first number into the accumulator
                LDA 001     // Load the second number into the accumulator
                ADD 002     // Add the second number to the first
                STA X I     // Store the result indirectly
                HLT         // Halt the program";
    let memory = assemble(file).unwrap();
    assert_eq!(memory.ram[0x64], 0x0000); // DEC 000 stores the literal itself
    assert_eq!(memory.ram[0x65], 0x2000);
    assert_eq!(memory.ram[0x66], 0x2001);
    assert_eq!(memory.ram[0x67], 0x1002);
    assert_eq!(memory.ram[0x68], 0xB064); // STA X I: indirect, X bound at 0x64
    assert_eq!(memory.ram[0x69], 0x7001);
    assert_eq!(memory.variables.get(b"X"), Some(0x64));
    assert_eq!(memory.variables.get(b"LOP"), Some(0x65));
}

#[test]
fn label_resolves_to_integer_address() {
    let memory = assemble("ORG 00A\nVAR, DEC 000\nORG 000\nSTA VAR").unwrap();
    assert_eq!(memory.variables.get(b"VAR"), Some(0x00A));
    assert_eq!(memory.ram[0], 0x300A);
}

#[test]
fn assembly_is_deterministic() {
    let file = "ORG 010\nA, DEC 5\nLDA A\nHLT";
    let first = assemble(file).unwrap();
    let second = assemble(file).unwrap();
    assert_eq!(first.ram, second.ram);
}

#[test]
fn program_too_large_rejected() {
    // The final instruction would land at address 4096 (MEMORY_SIZE): the
    // run fails and nothing is written anywhere.
    let err = assemble("ORG FFF\nLDA 000\nLDA 001").unwrap_err();
    assert_eq!(err.kind, AsmErrorKind::ProgramTooLarge);
    assert_eq!(err.line_number, 2);
    let untouched = Memory::new();
    let mut memory = Memory::new();
    let r = memory.load_program_to_memory("ORG FFF\nLDA 000\nLDA 001".to_string());
    assert!(r.is_err());
    assert_eq!(memory.ram, untouched.ram);
}

#[test]
fn duplicate_label_rejected() {
    let err = assemble("X, DEC 001\nX, DEC 002").unwrap_err();
    assert_eq!(err.kind, AsmErrorKind::DuplicateLabel);
    assert_eq!(err.line_number, 1);
    assert_eq!(err.line, b"X, DEC 002".to_vec());
}

#[test]
fn label_without_instruction_rejected() {
    let err = assemble("X,").unwrap_err();
    assert_eq!(err.kind, AsmErrorKind::LabelWithoutInstruction);
}

#[test]
fn org_errors() {
    let err = assemble("ORG").unwrap_err();
    assert_eq!(err.kind, AsmErrorKind::MissingOrgAddress);
    let err = assemble("ORG XYZ").unwrap_err();
    assert_eq!(err.kind, AsmErrorKind::InvalidOrgAddress);
    // An origin outside the 4096-word image is rejected too.
    let err = assemble("ORG 1000").unwrap_err();
    assert_eq!(err.kind, AsmErrorKind::InvalidOrgAddress);
    let err = assemble("ORG 064 064").unwrap_err();
    assert_eq!(err.kind, AsmErrorKind::InvalidOrgAddress);
}

#[test]
fn instruction_errors() {
    let err = assemble("FOO 1").unwrap_err();
    assert_eq!(err.kind, AsmErrorKind::UnknownMnemonic);
    let err = assemble("LDA").unwrap_err();
    assert_eq!(err.kind, AsmErrorKind::MissingOperand);
    let err = assemble("LDA ZZZ").unwrap_err();
    assert_eq!(err.kind, AsmErrorKind::InvalidOperand);
    let err = assemble("LDA 002 J").unwrap_err();
    assert_eq!(err.kind, AsmErrorKind::InvalidIndirectFlag);
    let err = assemble("LDA 002 I X").unwrap_err();
    assert_eq!(err.kind, AsmErrorKind::ExtraTokens);
    let err = assemble("CLA 5").unwrap_err();
    assert_eq!(err.kind, AsmErrorKind::ExtraTokens);
}

#[test]
fn register_and_io_words() {
    let memory = assemble("CLA\nCIR\nINP\nIOF").unwrap();
    assert_eq!(memory.ram[0], 0x7800);
    assert_eq!(memory.ram[1], 0x7080);
    assert_eq!(memory.ram[2], 0xF800);
    assert_eq!(memory.ram[3], 0xF040);
}

#[test]
fn numeric_literal_directives_store_the_value() {
    let memory = assemble("HEX 1004\nDEC 255").unwrap();
    assert_eq!(memory.ram[0], 0x1004);
    assert_eq!(memory.ram[1], 255);
}

#[test]
fn forward_reference_is_an_error() {
    // Resolution is a single left-to-right pass: only labels already bound
    // are visible.
    let err = assemble("LDA VAR\nVAR, DEC 0").unwrap_err();
    assert_eq!(err.kind, AsmErrorKind::InvalidOperand);
    assert_eq!(err.line_number, 0);
}

#[test]
fn encode_decode_round_trip() {
    let samples = [
        Instruction::new(Symbol::AND, 0x123, false),
        Instruction::new(Symbol::ADD, 0xFFF, true),
        Instruction::new(Symbol::STA, 0x00A, false),
        Instruction::new(Symbol::LDA, 0x002, true),
        Instruction::new(Symbol::ISZ, 0x000, false),
        Instruction::new(Symbol::HLT, 0, false),
        Instruction::new(Symbol::ION, 0, false),
        Instruction::new(Symbol::HEX, 0, false),
    ];
    for i in samples.iter() {
        let w = i.encode();
        let back = Instruction::decode(w).unwrap();
        assert_eq!(back, *i);
    }
    assert_eq!(Instruction::decode(0x7777), None);
    assert_eq!(Instruction::decode(0xF001), None);
}

#[test]
fn symbol_catalog() {
    assert_eq!(Symbol::from_token(b"LDA"), Some(Symbol::LDA));
    assert_eq!(Symbol::from_token(b"lda"), None);
    assert_eq!(Symbol::from_token(b"ORG"), None);
    assert!(Symbol::LDA.is_memory_reference());
    assert!(!Symbol::LDA.is_register());
    assert!(Symbol::HLT.is_register());
    assert!(Symbol::ION.is_io());
    assert!(Symbol::DEC.is_number_representation());
    assert_eq!(Symbol::STA.value(false), 0x3);
    assert_eq!(Symbol::STA.value(true), 0xB);
    assert_eq!(Symbol::CLA.value(false), 0x7800);
}

#[test]
fn diagnostic_text() {
    let msg = assembling_error(12, "LDA ZZZ", "Instruction must have a valid address");
    assert_eq!(
        msg,
        "Error in line: 12\n\tLDA ZZZ\n\tInstruction must have a valid address"
    );
    assert_eq!(
        AsmErrorKind::ProgramTooLarge.message(),
        "Program is too large to fit in memory"
    );
}

#[test]
fn line_ending_forms() {
    // Trailing newlines and carriage returns are tolerated.
    let memory = assemble("LDA 0\n").unwrap();
    assert_eq!(memory.ram[0], 0x2000);
    let memory = assemble("LDA 0\r\nHLT\r\n").unwrap();
    assert_eq!(memory.ram[0], 0x2000);
    assert_eq!(memory.ram[1], 0x7001);
    let memory = assemble("").unwrap();
    assert_eq!(memory.ram[0], 0);
}

#[test]
fn operand_ranges() {
    // A memory-reference operand must fit the 12-bit address field; a
    // numeric-literal operand may use the full 16-bit word.
    let err = assemble("LDA 1000").unwrap_err();
    assert_eq!(err.kind, AsmErrorKind::InvalidOperand);
    let memory = assemble("HEX FFFF").unwrap();
    assert_eq!(memory.ram[0], 0xFFFF);
    let err = assemble("DEC 65536").unwrap_err();
    assert_eq!(err.kind, AsmErrorKind::InvalidOperand);
    let memory = assemble("DEC 65535").unwrap();
    assert_eq!(memory.ram[0], 65535);
}

#[test]
fn literal_wins_over_label() {
    // An operand that parses as a literal is never looked up as a label,
    // even when a label of the same spelling is bound.
    let memory = assemble("AAA, DEC 7\nORG 001\nLDA AAA").unwrap();
    assert_eq!(memory.ram[1], 0x2AAA);
}

#[test]
fn label_on_overflowing_line() {
    // The label is bound before the room check, but the line that would
    // overflow the image still aborts the whole run, so the binding never
    // becomes visible.
    let err = assemble("ORG FFF\nHLT\nX, HLT").unwrap_err();
    assert_eq!(err.kind, AsmErrorKind::ProgramTooLarge);
    assert_eq!(err.line_number, 2);
}
