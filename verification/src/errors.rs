use vstd::prelude::*;
use vstd::string::StringExecFns;

verus! {

/// Every way an assembly run can fail. Each kind is fatal: the run aborts on
/// the first one and no image is produced.
#[derive(Clone, Copy, PartialEq, Eq, Structural, Debug)]
pub enum AsmErrorKind {
    /// An origin directive with no address token after it.
    MissingOrgAddress,
    /// An origin directive whose operand is not a hexadecimal address inside
    /// the memory image, or that is followed by more than one token.
    InvalidOrgAddress,
    /// A mnemonic token that names no catalog entry.
    UnknownMnemonic,
    /// A memory-reference or numeric-literal line with no operand token.
    MissingOperand,
    /// An operand that is neither a valid literal in the mnemonic's base nor
    /// a label defined so far.
    InvalidOperand,
    /// A third token other than the indirect marker `I`.
    InvalidIndirectFlag,
    /// More tokens than the grammar of the mnemonic's category allows.
    ExtraTokens,
    /// A label defined on an earlier line defined once more.
    DuplicateLabel,
    /// A label on a line with nothing after the separator.
    LabelWithoutInstruction,
    /// A word about to be emitted past the end of the memory image.
    ProgramTooLarge,
}

/// The diagnostic text of an error kind.
pub open spec fn spec_message(k: AsmErrorKind) -> Seq<char> {
    match k {
        AsmErrorKind::MissingOrgAddress => "ORG must be followed by an address"@,
        AsmErrorKind::InvalidOrgAddress => "ORG must be followed by a valid address in hex"@,
        AsmErrorKind::UnknownMnemonic => "Instruction must have a valid symbol"@,
        AsmErrorKind::MissingOperand => "Memory Reference Instruction must have an address"@,
        AsmErrorKind::InvalidOperand => "Instruction must have a valid address"@,
        AsmErrorKind::InvalidIndirectFlag => "Instruction have an invalid indirect flag"@,
        AsmErrorKind::ExtraTokens => "Instruction must have only a symbol, address, and optional indirect flag"@,
        AsmErrorKind::DuplicateLabel => "Label must not be defined twice"@,
        AsmErrorKind::LabelWithoutInstruction => "Variable must be followed by an instruction or value"@,
        AsmErrorKind::ProgramTooLarge => "Program is too large to fit in memory"@,
    }
}

impl AsmErrorKind {
    /// The diagnostic text of this error kind.
    pub fn message(&self) -> (r: &'static str)
        ensures
            r@ == spec_message(*self),
    {
        match *self {
            AsmErrorKind::MissingOrgAddress => "ORG must be followed by an address",
            AsmErrorKind::InvalidOrgAddress => "ORG must be followed by a valid address in hex",
            AsmErrorKind::UnknownMnemonic => "Instruction must have a valid symbol",
            AsmErrorKind::MissingOperand => "Memory Reference Instruction must have an address",
            AsmErrorKind::InvalidOperand => "Instruction must have a valid address",
            AsmErrorKind::InvalidIndirectFlag => "Instruction have an invalid indirect flag",
            AsmErrorKind::ExtraTokens => "Instruction must have only a symbol, address, and optional indirect flag",
            AsmErrorKind::DuplicateLabel => "Label must not be defined twice",
            AsmErrorKind::LabelWithoutInstruction => "Variable must be followed by an instruction or value",
            AsmErrorKind::ProgramTooLarge => "Program is too large to fit in memory",
        }
    }
}

/// A fatal assembly error: what went wrong, on which line (counting from 0),
/// and the bytes of that line as it stood in the source.
#[derive(Debug)]
pub struct AsmError {
    pub kind: AsmErrorKind,
    pub line_number: usize,
    pub line: Vec<u8>,
}

/// The decimal digit character of a value below ten.
pub open spec fn dec_digit(d: nat) -> char {
    if d == 0 {
        '0'
    } else if d == 1 {
        '1'
    } else if d == 2 {
        '2'
    } else if d == 3 {
        '3'
    } else if d == 4 {
        '4'
    } else if d == 5 {
        '5'
    } else if d == 6 {
        '6'
    } else if d == 7 {
        '7'
    } else if d == 8 {
        '8'
    } else {
        '9'
    }
}

/// The decimal digit string of a number, most significant digit first, with
/// no leading zero except for the number zero itself.
pub open spec fn spec_dec(n: nat) -> Seq<char>
    decreases n,
{
    if n < 10 {
        seq![dec_digit(n)]
    } else {
        spec_dec(n / 10) + seq![dec_digit(n % 10)]
    }
}

fn digit_str(d: usize) -> (r: &'static str)
    requires
        d < 10,
    ensures
        r@ == seq![dec_digit(d as nat)],
{
    proof {
        reveal_strlit("0");
        reveal_strlit("1");
        reveal_strlit("2");
        reveal_strlit("3");
        reveal_strlit("4");
        reveal_strlit("5");
        reveal_strlit("6");
        reveal_strlit("7");
        reveal_strlit("8");
        reveal_strlit("9");
    }
    let r = if d == 0 {
        "0"
    } else if d == 1 {
        "1"
    } else if d == 2 {
        "2"
    } else if d == 3 {
        "3"
    } else if d == 4 {
        "4"
    } else if d == 5 {
        "5"
    } else if d == 6 {
        "6"
    } else if d == 7 {
        "7"
    } else if d == 8 {
        "8"
    } else {
        "9"
    };
    proof {
        assert(r@ =~= seq![dec_digit(d as nat)]);
    }
    r
}

/// Render a number in decimal.
pub fn decimal_string(n: usize) -> (r: String)
    ensures
        r@ == spec_dec(n as nat),
    decreases n,
{
    if n < 10 {
        String::from_str(digit_str(n))
    } else {
        let mut s = decimal_string(n / 10);
        s.append(digit_str(n % 10));
        proof {
            assert(s@ =~= spec_dec(n as nat));
        }
        s
    }
}

/// The full diagnostic for one failed line: a heading with the line number,
/// then the line, then the message, each part on its own indented line.
pub open spec fn spec_error_text(line_number: nat, line: Seq<char>, error: Seq<char>) -> Seq<
    char,
> {
    "Error in line: "@ + spec_dec(line_number) + "\n\t"@ + line + "\n\t"@ + error
}

/// Format a diagnostic that points at the offending source line.
pub fn assembling_error(line_number: usize, line: &str, error: &str) -> (r: String)
    ensures
        r@ == spec_error_text(line_number as nat, line@, error@),
{
    let mut s = String::from_str("Error in line: ");
    let num = decimal_string(line_number);
    s.append(num.as_str());
    s.append("\n\t");
    s.append(line);
    s.append("\n\t");
    s.append(error);
    proof {
        assert(s@ =~= spec_error_text(line_number as nat, line@, error@));
    }
    s
}

} // verus!
