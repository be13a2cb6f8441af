use vstd::prelude::*;

verus! {

/// The closed catalog of mnemonics. Each entry belongs to exactly one
/// category: memory-reference, register-operate, input/output, or
/// numeric-literal directive.
#[derive(Clone, Copy, PartialEq, Eq, Structural, Debug)]
pub enum Symbol {
    // Memory reference
    AND,
    ADD,
    LDA,
    STA,
    BUN,
    BSA,
    ISZ,
    // Register
    CLA,
    CLE,
    CMA,
    CME,
    CIR,
    CIL,
    INC,
    SPA,
    SNA,
    SZA,
    SZE,
    HLT,
    // I/O
    INP,
    OUT,
    SKI,
    SKO,
    ION,
    IOF,
    // Number representation
    HEX,
    DEC,
}

impl Symbol {
    pub open spec fn spec_is_memory_reference(self) -> bool {
        match self {
            Symbol::AND | Symbol::ADD | Symbol::LDA | Symbol::STA | Symbol::BUN | Symbol::BSA
            | Symbol::ISZ => true,
            _ => false,
        }
    }

    pub open spec fn spec_is_register(self) -> bool {
        match self {
            Symbol::CLA | Symbol::CLE | Symbol::CMA | Symbol::CME | Symbol::CIR | Symbol::CIL
            | Symbol::INC | Symbol::SPA | Symbol::SNA | Symbol::SZA | Symbol::SZE
            | Symbol::HLT => true,
            _ => false,
        }
    }

    pub open spec fn spec_is_io(self) -> bool {
        match self {
            Symbol::INP | Symbol::OUT | Symbol::SKI | Symbol::SKO | Symbol::ION
            | Symbol::IOF => true,
            _ => false,
        }
    }

    pub open spec fn spec_is_number_representation(self) -> bool {
        match self {
            Symbol::HEX | Symbol::DEC => true,
            _ => false,
        }
    }

    /// The fixed encoding of a mnemonic. For a memory-reference mnemonic this
    /// is the 4-bit opcode nibble selected by the addressing mode (the
    /// indirect nibble is the direct one with the high bit set); for every
    /// other mnemonic it is the complete operand-independent 16-bit word,
    /// and the addressing mode is irrelevant.
    pub open spec fn spec_value(self, indirect: bool) -> u16 {
        match self {
            Symbol::AND => if indirect { 0x8 } else { 0x0 },
            Symbol::ADD => if indirect { 0x9 } else { 0x1 },
            Symbol::LDA => if indirect { 0xA } else { 0x2 },
            Symbol::STA => if indirect { 0xB } else { 0x3 },
            Symbol::BUN => if indirect { 0xC } else { 0x4 },
            Symbol::BSA => if indirect { 0xD } else { 0x5 },
            Symbol::ISZ => if indirect { 0xE } else { 0x6 },
            Symbol::CLA => 0x7800,
            Symbol::CLE => 0x7400,
            Symbol::CMA => 0x7200,
            Symbol::CME => 0x7100,
            Symbol::CIR => 0x7080,
            Symbol::CIL => 0x7040,
            Symbol::INC => 0x7020,
            Symbol::SPA => 0x7010,
            Symbol::SNA => 0x7008,
            Symbol::SZA => 0x7004,
            Symbol::SZE => 0x7002,
            Symbol::HLT => 0x7001,
            Symbol::INP => 0xF800,
            Symbol::OUT => 0xF400,
            Symbol::SKI => 0xF200,
            Symbol::SKO => 0xF100,
            Symbol::ION => 0xF080,
            Symbol::IOF => 0xF040,
            Symbol::HEX => 0xF020,
            Symbol::DEC => 0xF010,
        }
    }

    /// The fixed encoding of the mnemonic: the opcode nibble of a
    /// memory-reference instruction in the given addressing mode, or the
    /// complete word of any other mnemonic.
    pub fn value(&self, indirect: bool) -> (w: u16)
        ensures
            w == self.spec_value(indirect),
    {
        match *self {
            Symbol::AND => if indirect { 0x8 } else { 0x0 },
            Symbol::ADD => if indirect { 0x9 } else { 0x1 },
            Symbol::LDA => if indirect { 0xA } else { 0x2 },
            Symbol::STA => if indirect { 0xB } else { 0x3 },
            Symbol::BUN => if indirect { 0xC } else { 0x4 },
            Symbol::BSA => if indirect { 0xD } else { 0x5 },
            Symbol::ISZ => if indirect { 0xE } else { 0x6 },
            Symbol::CLA => 0x7800,
            Symbol::CLE => 0x7400,
            Symbol::CMA => 0x7200,
            Symbol::CME => 0x7100,
            Symbol::CIR => 0x7080,
            Symbol::CIL => 0x7040,
            Symbol::INC => 0x7020,
            Symbol::SPA => 0x7010,
            Symbol::SNA => 0x7008,
            Symbol::SZA => 0x7004,
            Symbol::SZE => 0x7002,
            Symbol::HLT => 0x7001,
            Symbol::INP => 0xF800,
            Symbol::OUT => 0xF400,
            Symbol::SKI => 0xF200,
            Symbol::SKO => 0xF100,
            Symbol::ION => 0xF080,
            Symbol::IOF => 0xF040,
            Symbol::HEX => 0xF020,
            Symbol::DEC => 0xF010,
        }
    }

    pub fn is_memory_reference(&self) -> (r: bool)
        ensures
            r == self.spec_is_memory_reference(),
    {
        match *self {
            Symbol::AND | Symbol::ADD | Symbol::LDA | Symbol::STA | Symbol::BUN | Symbol::BSA
            | Symbol::ISZ => true,
            _ => false,
        }
    }

    pub fn is_register(&self) -> (r: bool)
        ensures
            r == self.spec_is_register(),
    {
        match *self {
            Symbol::CLA | Symbol::CLE | Symbol::CMA | Symbol::CME | Symbol::CIR | Symbol::CIL
            | Symbol::INC | Symbol::SPA | Symbol::SNA | Symbol::SZA | Symbol::SZE
            | Symbol::HLT => true,
            _ => false,
        }
    }

    pub fn is_io(&self) -> (r: bool)
        ensures
            r == self.spec_is_io(),
    {
        match *self {
            Symbol::INP | Symbol::OUT | Symbol::SKI | Symbol::SKO | Symbol::ION
            | Symbol::IOF => true,
            _ => false,
        }
    }

    pub fn is_number_representation(&self) -> (r: bool)
        ensures
            r == self.spec_is_number_representation(),
    {
        match *self {
            Symbol::HEX | Symbol::DEC => true,
            _ => false,
        }
    }
}

/// True when `tok` is exactly the three bytes `a`, `b`, `c`.
pub open spec fn tok_is(tok: Seq<u8>, a: u8, b: u8, c: u8) -> bool {
    tok.len() == 3 && tok[0] == a && tok[1] == b && tok[2] == c
}

/// The catalog entry named by a token, if any. Every mnemonic name is
/// exactly three bytes of upper-case ASCII.
pub open spec fn spec_symbol_of(tok: Seq<u8>) -> Option<Symbol> {
    if tok_is(tok, 65, 78, 68) {
        Some(Symbol::AND)
    } else if tok_is(tok, 65, 68, 68) {
        Some(Symbol::ADD)
    } else if tok_is(tok, 76, 68, 65) {
        Some(Symbol::LDA)
    } else if tok_is(tok, 83, 84, 65) {
        Some(Symbol::STA)
    } else if tok_is(tok, 66, 85, 78) {
        Some(Symbol::BUN)
    } else if tok_is(tok, 66, 83, 65) {
        Some(Symbol::BSA)
    } else if tok_is(tok, 73, 83, 90) {
        Some(Symbol::ISZ)
    } else if tok_is(tok, 67, 76, 65) {
        Some(Symbol::CLA)
    } else if tok_is(tok, 67, 76, 69) {
        Some(Symbol::CLE)
    } else if tok_is(tok, 67, 77, 65) {
        Some(Symbol::CMA)
    } else if tok_is(tok, 67, 77, 69) {
        Some(Symbol::CME)
    } else if tok_is(tok, 67, 73, 82) {
        Some(Symbol::CIR)
    } else if tok_is(tok, 67, 73, 76) {
        Some(Symbol::CIL)
    } else if tok_is(tok, 73, 78, 67) {
        Some(Symbol::INC)
    } else if tok_is(tok, 83, 80, 65) {
        Some(Symbol::SPA)
    } else if tok_is(tok, 83, 78, 65) {
        Some(Symbol::SNA)
    } else if tok_is(tok, 83, 90, 65) {
        Some(Symbol::SZA)
    } else if tok_is(tok, 83, 90, 69) {
        Some(Symbol::SZE)
    } else if tok_is(tok, 72, 76, 84) {
        Some(Symbol::HLT)
    } else if tok_is(tok, 73, 78, 80) {
        Some(Symbol::INP)
    } else if tok_is(tok, 79, 85, 84) {
        Some(Symbol::OUT)
    } else if tok_is(tok, 83, 75, 73) {
        Some(Symbol::SKI)
    } else if tok_is(tok, 83, 75, 79) {
        Some(Symbol::SKO)
    } else if tok_is(tok, 73, 79, 78) {
        Some(Symbol::ION)
    } else if tok_is(tok, 73, 79, 70) {
        Some(Symbol::IOF)
    } else if tok_is(tok, 72, 69, 88) {
        Some(Symbol::HEX)
    } else if tok_is(tok, 68, 69, 67) {
        Some(Symbol::DEC)
    } else {
        None
    }
}

impl Symbol {
    /// Resolve a mnemonic token against the closed catalog.
    pub fn from_token(tok: &[u8]) -> (r: Option<Symbol>)
        ensures
            r == spec_symbol_of(tok@),
    {
        if tok.len() != 3 {
            return None;
        }
        let a = tok[0];
        let b = tok[1];
        let c = tok[2];
        if a == 65 && b == 78 && c == 68 {
            Some(Symbol::AND)
        } else if a == 65 && b == 68 && c == 68 {
            Some(Symbol::ADD)
        } else if a == 76 && b == 68 && c == 65 {
            Some(Symbol::LDA)
        } else if a == 83 && b == 84 && c == 65 {
            Some(Symbol::STA)
        } else if a == 66 && b == 85 && c == 78 {
            Some(Symbol::BUN)
        } else if a == 66 && b == 83 && c == 65 {
            Some(Symbol::BSA)
        } else if a == 73 && b == 83 && c == 90 {
            Some(Symbol::ISZ)
        } else if a == 67 && b == 76 && c == 65 {
            Some(Symbol::CLA)
        } else if a == 67 && b == 76 && c == 69 {
            Some(Symbol::CLE)
        } else if a == 67 && b == 77 && c == 65 {
            Some(Symbol::CMA)
        } else if a == 67 && b == 77 && c == 69 {
            Some(Symbol::CME)
        } else if a == 67 && b == 73 && c == 82 {
            Some(Symbol::CIR)
        } else if a == 67 && b == 73 && c == 76 {
            Some(Symbol::CIL)
        } else if a == 73 && b == 78 && c == 67 {
            Some(Symbol::INC)
        } else if a == 83 && b == 80 && c == 65 {
            Some(Symbol::SPA)
        } else if a == 83 && b == 78 && c == 65 {
            Some(Symbol::SNA)
        } else if a == 83 && b == 90 && c == 65 {
            Some(Symbol::SZA)
        } else if a == 83 && b == 90 && c == 69 {
            Some(Symbol::SZE)
        } else if a == 72 && b == 76 && c == 84 {
            Some(Symbol::HLT)
        } else if a == 73 && b == 78 && c == 80 {
            Some(Symbol::INP)
        } else if a == 79 && b == 85 && c == 84 {
            Some(Symbol::OUT)
        } else if a == 83 && b == 75 && c == 73 {
            Some(Symbol::SKI)
        } else if a == 83 && b == 75 && c == 79 {
            Some(Symbol::SKO)
        } else if a == 73 && b == 79 && c == 78 {
            Some(Symbol::ION)
        } else if a == 73 && b == 79 && c == 70 {
            Some(Symbol::IOF)
        } else if a == 72 && b == 69 && c == 88 {
            Some(Symbol::HEX)
        } else if a == 68 && b == 69 && c == 67 {
            Some(Symbol::DEC)
        } else {
            None
        }
    }
}

/// One decoded instruction: a mnemonic, a 12-bit address operand (meaningful
/// only for memory-reference mnemonics), and the indirect-addressing flag.
#[derive(Clone, Copy, PartialEq, Eq, Structural, Debug)]
pub struct Instruction {
    pub symbol: Symbol,
    pub address: u16,
    pub indirect: bool,
}

impl Instruction {
    /// An instruction representable in the word format: a memory-reference
    /// instruction carries a 12-bit address; any other instruction has a
    /// single fixed word, so it carries no operand and no indirect flag.
    pub open spec fn wf(self) -> bool {
        if self.symbol.spec_is_memory_reference() {
            self.address < 4096
        } else {
            self.address == 0 && !self.indirect
        }
    }

    /// The word an instruction encodes to: opcode nibble followed by the
    /// 12-bit address for memory-reference instructions, the fixed word of
    /// the mnemonic otherwise.
    pub open spec fn spec_encode(self) -> int {
        if self.symbol.spec_is_memory_reference() {
            self.symbol.spec_value(self.indirect) * 0x1000 + self.address
        } else {
            self.symbol.spec_value(false) as int
        }
    }

    pub fn new(symbol: Symbol, address: u16, indirect: bool) -> (r: Instruction)
        ensures
            r == (Instruction { symbol, address, indirect }),
    {
        Instruction { symbol, address, indirect }
    }

    /// Pack the instruction into its 16-bit word.
    pub fn encode(&self) -> (w: u16)
        requires
            self.wf(),
        ensures
            w == self.spec_encode(),
    {
        if self.symbol.is_memory_reference() {
            self.symbol.value(self.indirect) * 0x1000 + self.address
        } else {
            self.symbol.value(false)
        }
    }

    /// The instruction a word decodes to, if the word is the encoding of one.
    pub open spec fn spec_decode(w: u16) -> Option<Instruction> {
        let nib = w / 0x1000;
        let addr = w % 0x1000;
        if nib == 7 || nib == 0xF {
            match spec_fixed_symbol_of(w) {
                Some(s) => Some(Instruction { symbol: s, address: 0, indirect: false }),
                None => None,
            }
        } else {
            let indirect = nib >= 8;
            let sym = spec_memref_symbol_of((nib % 8) as u16);
            Some(Instruction { symbol: sym, address: addr, indirect })
        }
    }

    /// Unpack a word into the instruction it encodes, or `None` where the
    /// word is not the encoding of any catalog instruction.
    pub fn decode(word: u16) -> (r: Option<Instruction>)
        ensures
            r == Instruction::spec_decode(word),
    {
        let nib = word / 0x1000;
        let addr = word % 0x1000;
        if nib == 7 || nib == 0xF {
            match fixed_symbol_of(word) {
                Some(s) => Some(Instruction { symbol: s, address: 0, indirect: false }),
                None => None,
            }
        } else {
            let indirect = nib >= 8;
            let sym = memref_symbol_of(nib % 8);
            Some(Instruction { symbol: sym, address: addr, indirect })
        }
    }
}

/// The memory-reference mnemonic whose direct opcode nibble is `nib`.
pub open spec fn spec_memref_symbol_of(nib: u16) -> Symbol {
    if nib == 0 {
        Symbol::AND
    } else if nib == 1 {
        Symbol::ADD
    } else if nib == 2 {
        Symbol::LDA
    } else if nib == 3 {
        Symbol::STA
    } else if nib == 4 {
        Symbol::BUN
    } else if nib == 5 {
        Symbol::BSA
    } else {
        Symbol::ISZ
    }
}

fn memref_symbol_of(nib: u16) -> (s: Symbol)
    requires
        nib < 7,
    ensures
        s == spec_memref_symbol_of(nib),
{
    if nib == 0 {
        Symbol::AND
    } else if nib == 1 {
        Symbol::ADD
    } else if nib == 2 {
        Symbol::LDA
    } else if nib == 3 {
        Symbol::STA
    } else if nib == 4 {
        Symbol::BUN
    } else if nib == 5 {
        Symbol::BSA
    } else {
        Symbol::ISZ
    }
}

/// The mnemonic whose fixed operand-independent word is `w`, if any.
pub open spec fn spec_fixed_symbol_of(w: u16) -> Option<Symbol> {
    if w == 0x7800 {
        Some(Symbol::CLA)
    } else if w == 0x7400 {
        Some(Symbol::CLE)
    } else if w == 0x7200 {
        Some(Symbol::CMA)
    } else if w == 0x7100 {
        Some(Symbol::CME)
    } else if w == 0x7080 {
        Some(Symbol::CIR)
    } else if w == 0x7040 {
        Some(Symbol::CIL)
    } else if w == 0x7020 {
        Some(Symbol::INC)
    } else if w == 0x7010 {
        Some(Symbol::SPA)
    } else if w == 0x7008 {
        Some(Symbol::SNA)
    } else if w == 0x7004 {
        Some(Symbol::SZA)
    } else if w == 0x7002 {
        Some(Symbol::SZE)
    } else if w == 0x7001 {
        Some(Symbol::HLT)
    } else if w == 0xF800 {
        Some(Symbol::INP)
    } else if w == 0xF400 {
        Some(Symbol::OUT)
    } else if w == 0xF200 {
        Some(Symbol::SKI)
    } else if w == 0xF100 {
        Some(Symbol::SKO)
    } else if w == 0xF080 {
        Some(Symbol::ION)
    } else if w == 0xF040 {
        Some(Symbol::IOF)
    } else if w == 0xF020 {
        Some(Symbol::HEX)
    } else if w == 0xF010 {
        Some(Symbol::DEC)
    } else {
        None
    }
}

fn fixed_symbol_of(w: u16) -> (r: Option<Symbol>)
    ensures
        r == spec_fixed_symbol_of(w),
{
    if w == 0x7800 {
        Some(Symbol::CLA)
    } else if w == 0x7400 {
        Some(Symbol::CLE)
    } else if w == 0x7200 {
        Some(Symbol::CMA)
    } else if w == 0x7100 {
        Some(Symbol::CME)
    } else if w == 0x7080 {
        Some(Symbol::CIR)
    } else if w == 0x7040 {
        Some(Symbol::CIL)
    } else if w == 0x7020 {
        Some(Symbol::INC)
    } else if w == 0x7010 {
        Some(Symbol::SPA)
    } else if w == 0x7008 {
        Some(Symbol::SNA)
    } else if w == 0x7004 {
        Some(Symbol::SZA)
    } else if w == 0x7002 {
        Some(Symbol::SZE)
    } else if w == 0x7001 {
        Some(Symbol::HLT)
    } else if w == 0xF800 {
        Some(Symbol::INP)
    } else if w == 0xF400 {
        Some(Symbol::OUT)
    } else if w == 0xF200 {
        Some(Symbol::SKI)
    } else if w == 0xF100 {
        Some(Symbol::SKO)
    } else if w == 0xF080 {
        Some(Symbol::ION)
    } else if w == 0xF040 {
        Some(Symbol::IOF)
    } else if w == 0xF020 {
        Some(Symbol::HEX)
    } else if w == 0xF010 {
        Some(Symbol::DEC)
    } else {
        None
    }
}

/// Encoding is injective up to decoding: decoding the word an instruction
/// packs to gives back exactly that instruction, for every instruction
/// representable in the word format.
pub proof fn lemma_encode_decode_round_trip(i: Instruction)
    requires
        i.wf(),
    ensures
        Instruction::spec_decode(i.spec_encode() as u16) == Some(i),
{
    let w = i.spec_encode() as u16;
    if i.symbol.spec_is_memory_reference() {
        let nib = i.symbol.spec_value(i.indirect) as int;
        assert(0 <= nib <= 0xE && nib != 7);
        assert(w == nib * 0x1000 + i.address);
        assert(w / 0x1000 == nib && w % 0x1000 == i.address) by (nonlinear_arith)
            requires
                w == nib * 0x1000 + i.address,
                0 <= nib <= 0xE,
                0 <= i.address < 0x1000,
        {
        }
    }
}

/// Decoding is injective the other way round: any word that decodes at all
/// decodes to a representable instruction that packs back to exactly that
/// word. Together with the encode-then-decode direction, encoding is a
/// bijection between representable instructions and decodable words.
pub proof fn lemma_decode_encode_round_trip(w: u16)
    requires
        Instruction::spec_decode(w) is Some,
    ensures
        Instruction::spec_decode(w)->Some_0.wf(),
        Instruction::spec_decode(w)->Some_0.spec_encode() == w,
{
    let nib = w / 0x1000;
    let addr = w % 0x1000;
    if nib != 7 && nib != 0xF {
        assert(w == nib * 0x1000 + addr && addr < 0x1000 && nib <= 0xF) by (nonlinear_arith)
            requires
                nib == w / 0x1000,
                addr == w % 0x1000,
                w <= 0xFFFF,
        {
        }
    }
}

} // verus!
