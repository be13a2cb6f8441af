use assembler::labels::LabelTable;
use assembler::memory::{parse_instruction, split_line};

#[test]
fn split_line1() {
    let line = "LOP, LDA 0 // Load the first number into the accumulator";
    let (variable, instruction) = split_line(line.as_bytes());
    assert_eq!(variable, b"LOP".as_slice());
    assert_eq!(instruction, b"LDA 0".as_slice());
}

#[test]
fn split_line2() {
    let line = "LDA 0 // Load the first number into the accumulator";
    let (variable, instruction) = split_line(line.as_bytes());
    assert_eq!(variable, b"".as_slice());
    assert_eq!(instruction, b"LDA 0".as_slice());
}

#[test]
fn split_line3() {
    let line = "LOP, LDA 0";
    let (variable, instruction) = split_line(line.as_bytes());
    assert_eq!(variable, b"LOP".as_slice());
    assert_eq!(instruction, b"LDA 0".as_slice());
}

#[test]
fn split_line4() {
    let line = "LDA 0";
    let (variable, instruction) = split_line(line.as_bytes());
    assert_eq!(variable, b"".as_slice());
    assert_eq!(instruction, b"LDA 0".as_slice());
}

#[test]
fn split_line5() {
    let line = "LDA 40 I// Load the first number indirectly into AC";
    let (variable, instruction) = split_line(line.as_bytes());
    assert_eq!(variable, b"".as_slice());
    assert_eq!(instruction, b"LDA 40 I".as_slice());
}

#[test]
fn split_line6() {
    let line = "VAR, HEX 1004";
    let (variable, instruction) = split_line(line.as_bytes());
    assert_eq!(variable, b"VAR".as_slice());
    assert_eq!(instruction, b"HEX 1004".as_slice());
}

#[test]
fn split_line7() {
    let line = "";
    let (variable, instruction) = split_line(line.as_bytes());
    assert_eq!(variable, b"".as_slice());
    assert_eq!(instruction, b"".as_slice());
}

#[test]
fn split_line8() {
    let line = "  ";
    let (variable, instruction) = split_line(line.as_bytes());
    assert_eq!(variable, b"".as_slice());
    assert_eq!(instruction, b"".as_slice());
}

#[test]
fn split_line9() {
    let line = "// this is a comment";
    let (variable, instruction) = split_line(line.as_bytes());
    assert_eq!(variable, b"".as_slice());
    assert_eq!(instruction, b"".as_slice());
}

fn set_up_variables() -> LabelTable {
    let mut variables = LabelTable::new();
    variables.insert(b"VAR".to_vec(), 0x00A);
    variables
}

#[test]
fn parse_instruction1() {
    let instruction = "STA VAR";
    let variables = set_up_variables();
    let word = parse_instruction(instruction.as_bytes(), &variables).unwrap();
    println!("{:04X}", word);
    assert!(word == 0x300A);
}

#[test]
fn parse_instruction2() {
    let instruction = "LDA 002 I";
    let variables = set_up_variables();
    let word = parse_instruction(instruction.as_bytes(), &variables).unwrap();
    println!("{:04X}", word);
    assert!(word == 0xA002);
}

#[test]
fn parse_instruction3() {
    let instruction = "LDA VAR";
    let variables = set_up_variables();
    let word = parse_instruction(instruction.as_bytes(), &variables).unwrap();
    println!("{:04X}", word);
    assert!(word == 0x200A);
}
