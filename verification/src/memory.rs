use vstd::prelude::*;
use vstd::string::StringSliceAdditionalSpecFns;
use vstd::slice::{slice_subrange, slice_to_vec};
use crate::errors::{AsmError, AsmErrorKind};
use crate::instructions::{spec_symbol_of, Symbol};
use crate::labels::LabelTable;
use crate::constants::MEMORY_WORDS_SIZE;
use crate::text::{
    find_byte, find_byte_pos, lemma_find_byte_bounds, lemma_numeral_val_bounds, numeral_val,
    parse_literal, spec_parse_literal, spec_lines, spec_tokens, spec_trim, split_lines,
    strip_comment, strip_comment_bytes, tokenize, trim_bytes, views_of,
};

verus! {

/// One line split into its optional label and its body: the comment is
/// discarded, the first comma separates the label from the rest, and both
/// parts lose their surrounding whitespace. Without a comma the label is
/// empty and the whole remainder is the body.
pub open spec fn spec_split_line(line: Seq<u8>) -> (Seq<u8>, Seq<u8>) {
    let c = strip_comment(spec_trim(line));
    let p = find_byte(c, 44);
    if p < c.len() {
        (spec_trim(c.take(p)), spec_trim(c.skip(p + 1)))
    } else {
        (Seq::empty(), spec_trim(c))
    }
}

/// Split one raw source line into `(label, body)`.
pub fn split_line<'a>(line: &'a [u8]) -> (r: (&'a [u8], &'a [u8]))
    ensures
        r.0@ == spec_split_line(line@).0,
        r.1@ == spec_split_line(line@).1,
{
    let t = trim_bytes(line);
    let c = strip_comment_bytes(t);
    let p = find_byte_pos(c, 44);
    proof {
        lemma_find_byte_bounds(c@, 44);
    }
    if p < c.len() {
        let head = trim_bytes(slice_subrange(c, 0, p));
        let tail = trim_bytes(slice_subrange(c, p + 1, c.len()));
        proof {
            assert(c@.subrange(0, p as int) =~= c@.take(p as int));
            assert(c@.subrange(p as int + 1, c@.len() as int) =~= c@.skip(p as int + 1));
        }
        (head, tail)
    } else {
        let head = slice_subrange(c, 0, 0);
        let tail = trim_bytes(c);
        proof {
            assert(head@ =~= Seq::<u8>::empty());
        }
        (head, tail)
    }
}

/// An operand resolves to the value of a literal in the mnemonic's base when
/// it is one below `limit`, and otherwise to the address of a label defined
/// so far.
pub open spec fn spec_resolve_operand(
    tok: Seq<u8>,
    base: u16,
    limit: int,
    labels: Map<Seq<u8>, u16>,
) -> Option<u16> {
    match spec_parse_literal(tok, base, limit) {
        Some(v) => Some(v),
        None => if labels.contains_key(tok) {
            Some(labels[tok])
        } else {
            None
        },
    }
}

/// The indirect marker token: the single byte `I`.
pub open spec fn indirect_token() -> Seq<u8> {
    seq![73u8]
}

/// What one instruction body assembles to under a given label table, exactly
/// as `parse_instruction` computes it: the packed word of a memory-reference
/// line, the fixed word of a register-operate or input/output line, or the
/// operand value itself of a numeric-literal directive line; or the error
/// that rejects the body.
pub open spec fn spec_parse_instruction(body: Seq<u8>, labels: Map<Seq<u8>, u16>) -> Result<
    u16,
    AsmErrorKind,
> {
    let toks = spec_tokens(body);
    if toks.len() == 0 {
        Err(AsmErrorKind::UnknownMnemonic)
    } else {
        match spec_symbol_of(toks[0]) {
            None => Err(AsmErrorKind::UnknownMnemonic),
            Some(sym) => {
                if !sym.spec_is_memory_reference() && !sym.spec_is_number_representation() {
                    if toks.len() > 1 {
                        Err(AsmErrorKind::ExtraTokens)
                    } else {
                        Ok(sym.spec_value(false))
                    }
                } else {
                    if toks.len() < 2 {
                        Err(AsmErrorKind::MissingOperand)
                    } else {
                        let base: u16 = if sym == Symbol::DEC {
                            10
                        } else {
                            16
                        };
                        let limit: int = if sym.spec_is_memory_reference() {
                            4096
                        } else {
                            65536
                        };
                        match spec_resolve_operand(toks[1], base, limit, labels) {
                            None => Err(AsmErrorKind::InvalidOperand),
                            Some(addr) => {
                                if toks.len() >= 3 && toks[2] != indirect_token() {
                                    Err(AsmErrorKind::InvalidIndirectFlag)
                                } else if toks.len() > 3 {
                                    Err(AsmErrorKind::ExtraTokens)
                                } else {
                                    let ind = toks.len() >= 3;
                                    if sym.spec_is_memory_reference() {
                                        Ok((sym.spec_value(ind) * 0x1000 + addr) as u16)
                                    } else {
                                        Ok(addr)
                                    }
                                }
                            },
                        }
                    }
                }
            },
        }
    }
}

/// Turn one instruction body into its machine word, resolving label operands
/// against the labels defined so far.
pub fn parse_instruction(instruction: &[u8], variables: &LabelTable) -> (r: Result<
    u16,
    AsmErrorKind,
>)
    requires
        variables.wf(),
    ensures
        r == spec_parse_instruction(instruction@, variables@),
{
    let toks = tokenize(instruction);
    if toks.len() == 0 {
        return Err(AsmErrorKind::UnknownMnemonic);
    }
    proof {
        assert(views_of(toks@)[0] == toks@[0]@);
    }
    let sym = match Symbol::from_token(toks[0].as_slice()) {
        None => {
            return Err(AsmErrorKind::UnknownMnemonic);
        },
        Some(s) => s,
    };
    let memref = sym.is_memory_reference();
    let numrep = sym.is_number_representation();
    if !memref && !numrep {
        if toks.len() > 1 {
            return Err(AsmErrorKind::ExtraTokens);
        }
        return Ok(sym.value(false));
    }
    if toks.len() < 2 {
        return Err(AsmErrorKind::MissingOperand);
    }
    proof {
        assert(views_of(toks@)[1] == toks@[1]@);
    }
    let base: u16 = match sym {
        Symbol::DEC => 10,
        _ => 16,
    };
    let limit: u32 = if memref {
        4096
    } else {
        65536
    };
    let addr: u16 = match parse_literal(toks[1].as_slice(), base, limit) {
        Some(v) => {
            proof {
                assert(memref ==> v < 4096) by {
                    lemma_numeral_val_bounds(toks@[1]@, base);
                }
            }
            v
        },
        None => {
            match variables.get(toks[1].as_slice()) {
                Some(a) => a,
                None => {
                    return Err(AsmErrorKind::InvalidOperand);
                },
            }
        },
    };
    let mut indirect = false;
    if toks.len() >= 3 {
        proof {
            assert(views_of(toks@)[2] == toks@[2]@);
        }
        let t2 = toks[2].as_slice();
        if t2.len() == 1 && t2[0] == 73 {
            proof {
                assert(t2@ =~= indirect_token());
            }
            indirect = true;
        } else {
            proof {
                assert(t2@ != indirect_token());
            }
            return Err(AsmErrorKind::InvalidIndirectFlag);
        }
    }
    if toks.len() > 3 {
        return Err(AsmErrorKind::ExtraTokens);
    }
    if memref {
        proof {
            assert(sym.spec_value(indirect) <= 0xE);
            assert(addr <= 4096);
        }
        Ok(sym.value(indirect) * 0x1000 + addr)
    } else {
        Ok(addr)
    }
}

/// The whole state the driver threads through the scan: the image built so
/// far, the labels defined so far, and the address cursor.
#[verifier::ext_equal]
pub ghost struct DriverState {
    pub ram: Seq<u16>,
    pub labels: Map<Seq<u8>, u16>,
    pub cursor: int,
}

/// The origin directive keyword `ORG`.
pub open spec fn org_token() -> Seq<u8> {
    seq![79u8, 82u8, 71u8]
}

/// What one source line does to the driver state, or the error that aborts
/// the run. A blank or comment-only line changes nothing; an origin line
/// moves the cursor; any other line may bind a label to the cursor, and emits
/// one word at the cursor. The word is emitted only where the pre-increment
/// cursor is still inside the image; the cursor itself therefore never
/// exceeds the image size.
pub open spec fn spec_step(st: DriverState, line: Seq<u8>) -> Result<DriverState, AsmErrorKind> {
    let t = spec_trim(line);
    if t.len() == 0 {
        Ok(st)
    } else {
        let toks = spec_tokens(strip_comment(t));
        if toks.len() > 0 && toks[0] == org_token() {
            if toks.len() == 1 {
                Err(AsmErrorKind::MissingOrgAddress)
            } else if toks.len() > 2 {
                Err(AsmErrorKind::InvalidOrgAddress)
            } else {
                match spec_parse_literal(toks[1], 16, 4096) {
                    Some(a) => Ok(DriverState { ram: st.ram, labels: st.labels, cursor: a as int }),
                    None => Err(AsmErrorKind::InvalidOrgAddress),
                }
            }
        } else {
            let lb = spec_split_line(line);
            let label = lb.0;
            let body = lb.1;
            if body.len() == 0 {
                if label.len() > 0 {
                    Err(AsmErrorKind::LabelWithoutInstruction)
                } else {
                    Ok(st)
                }
            } else if label.len() > 0 && st.labels.contains_key(label) {
                Err(AsmErrorKind::DuplicateLabel)
            } else {
                let labels2 = if label.len() > 0 {
                    st.labels.insert(label, st.cursor as u16)
                } else {
                    st.labels
                };
                match spec_parse_instruction(body, labels2) {
                    Err(k) => Err(k),
                    Ok(w) => if st.cursor >= 4096 {
                        Err(AsmErrorKind::ProgramTooLarge)
                    } else {
                        Ok(
                            DriverState {
                                ram: st.ram.update(st.cursor, w),
                                labels: labels2,
                                cursor: st.cursor + 1,
                            },
                        )
                    },
                }
            }
        }
    }
}

/// Run the scan from line `i` on. An error reports the index of the first
/// line that failed and aborts everything after it.
pub open spec fn spec_run(st: DriverState, lines: Seq<Seq<u8>>, i: int) -> Result<
    DriverState,
    (int, AsmErrorKind),
>
    decreases lines.len() - i,
{
    if i < 0 || i >= lines.len() {
        Ok(st)
    } else {
        match spec_step(st, lines[i]) {
            Ok(st2) => spec_run(st2, lines, i + 1),
            Err(k) => Err((i, k)),
        }
    }
}

/// The state a run starts from: an all-zero image, no labels, cursor at 0.
pub open spec fn init_state() -> DriverState {
    DriverState { ram: Seq::new(4096, |i: int| 0u16), labels: Map::empty(), cursor: 0 }
}

/// The UTF-8 bytes of the source text.
pub open spec fn source_bytes(text: Seq<char>) -> Seq<u8> {
    vstd::utf8::encode_utf8(text)
}

/// The outcome of assembling a whole source text: the final driver state, or
/// the index of the first failing line and the error that rejected it.
pub open spec fn spec_assemble(src: Seq<u8>) -> Result<DriverState, (int, AsmErrorKind)> {
    spec_run(init_state(), spec_lines(src), 0)
}

fn is_org_tok(t: &[u8]) -> (r: bool)
    ensures
        r == (t@ == org_token()),
{
    if t.len() == 3 && t[0] == 79 && t[1] == 82 && t[2] == 71 {
        proof {
            assert(t@ =~= org_token());
        }
        true
    } else {
        proof {
            assert(t@ != org_token());
        }
        false
    }
}

/// The machine's memory, the image the assembler fills, together with the
/// label table of the last run.
#[derive(Debug)]
pub struct Memory {
    pub ram: Vec<u16>,
    pub variables: LabelTable,
}

impl Memory {
    /// The image has its fixed size and the label table is well formed.
    pub open spec fn wf(&self) -> bool {
        self.ram@.len() == MEMORY_WORDS_SIZE && self.variables.wf()
    }

    /// The label bindings of the last run.
    pub open spec fn labels_view(&self) -> Map<Seq<u8>, u16> {
        self.variables@
    }

    /// A memory image of all zeroes.
    pub fn new() -> (m: Memory)
        ensures
            m.wf(),
            m.ram@ == init_state().ram,
            m.labels_view() == init_state().labels,
    {
        let mut ram: Vec<u16> = Vec::new();
        let mut k: usize = 0;
        while k < MEMORY_WORDS_SIZE
            invariant
                k <= 4096,
                ram@.len() == k,
                forall|j: int| 0 <= j < k ==> ram@[j] == 0u16,
            decreases 4096 - k,
        {
            ram.push(0);
            k += 1;
        }
        proof {
            assert(ram@ =~= Seq::new(4096, |i: int| 0u16));
        }
        Memory { ram, variables: LabelTable::new() }
    }

    /// Assemble a whole source text into this memory. On success the image
    /// holds exactly the assembled program and the label table the bindings
    /// of the run; on failure nothing is changed and the error names the
    /// first offending line. The run is all or nothing.
    pub fn load_program_to_memory(&mut self, file: String) -> (r: Result<(), AsmError>)
        ensures
            match r {
                Ok(_) => {
                    &&& spec_assemble(source_bytes(file@)) is Ok
                    &&& final(self).wf()
                    &&& final(self).ram@ == spec_assemble(source_bytes(file@))->Ok_0.ram
                    &&& final(self).labels_view() == spec_assemble(source_bytes(file@))->Ok_0.labels
                },
                Err(e) => {
                    &&& spec_assemble(source_bytes(file@)) == Err::<DriverState, (int, AsmErrorKind)>(
                        (e.line_number as int, e.kind),
                    )
                    &&& e.line@ == spec_lines(source_bytes(file@))[e.line_number as int]
                    &&& *final(self) == *old(self)
                },
            },
    {
        let bytes = file.as_str().as_bytes();
        proof {
            assert(bytes@ == source_bytes(file@));
        }
        let lines = split_lines(bytes);
        let ghost lseq = views_of(lines@);
        let mut ram: Vec<u16> = Vec::new();
        let mut k: usize = 0;
        while k < MEMORY_WORDS_SIZE
            invariant
                k <= 4096,
                ram@.len() == k,
                forall|j: int| 0 <= j < k ==> ram@[j] == 0u16,
            decreases 4096 - k,
        {
            ram.push(0);
            k += 1;
        }
        let mut labels = LabelTable::new();
        let mut cursor: u16 = 0;
        let mut i: usize = 0;
        proof {
            assert(ram@ =~= Seq::new(4096, |i: int| 0u16));
            let st0 = DriverState { ram: ram@, labels: labels@, cursor: cursor as int };
            assert(st0 =~= init_state());
        }
        while i < lines.len()
            invariant
                i <= lines@.len(),
                lseq == views_of(lines@),
                lseq == spec_lines(source_bytes(file@)),
                ram@.len() == 4096,
                cursor <= 4096,
                labels.wf(),
                spec_run(init_state(), lseq, 0) == spec_run(
                    DriverState { ram: ram@, labels: labels@, cursor: cursor as int },
                    lseq,
                    i as int,
                ),
            decreases lines@.len() - i,
        {
            let ghost pre = DriverState { ram: ram@, labels: labels@, cursor: cursor as int };
            proof {
                assert(lseq[i as int] == lines@[i as int]@);
            }
            let t = trim_bytes(lines[i].as_slice());
            if t.len() == 0 {
                proof {
                    assert(spec_step(pre, lseq[i as int]) == Ok::<DriverState, AsmErrorKind>(pre));
                }
                i += 1;
                continue;
            }
            let c = strip_comment_bytes(t);
            let toks = tokenize(c);
            let org = toks.len() > 0 && is_org_tok(toks[0].as_slice());
            proof {
                if toks@.len() > 0 {
                    assert(views_of(toks@)[0] == toks@[0]@);
                }
            }
            if org {
                if toks.len() == 1 {
                    proof {
                        assert(spec_step(pre, lseq[i as int]) == Err::<DriverState, AsmErrorKind>(
                            AsmErrorKind::MissingOrgAddress,
                        ));
                    }
                    return Err(
                        AsmError {
                            kind: AsmErrorKind::MissingOrgAddress,
                            line_number: i,
                            line: slice_to_vec(lines[i].as_slice()),
                        },
                    );
                }
                if toks.len() > 2 {
                    proof {
                        assert(spec_step(pre, lseq[i as int]) == Err::<DriverState, AsmErrorKind>(
                            AsmErrorKind::InvalidOrgAddress,
                        ));
                    }
                    return Err(
                        AsmError {
                            kind: AsmErrorKind::InvalidOrgAddress,
                            line_number: i,
                            line: slice_to_vec(lines[i].as_slice()),
                        },
                    );
                }
                proof {
                    assert(views_of(toks@)[1] == toks@[1]@);
                }
                match parse_literal(toks[1].as_slice(), 16, 4096) {
                    Some(a) => {
                        proof {
                            let post = DriverState {
                                ram: pre.ram,
                                labels: pre.labels,
                                cursor: a as int,
                            };
                            assert(spec_step(pre, lseq[i as int]) == Ok::<
                                DriverState,
                                AsmErrorKind,
                            >(post));
                            lemma_numeral_val_bounds(toks@[1]@, 16);
                        }
                        cursor = a;
                        i += 1;
                        continue;
                    },
                    None => {
                        proof {
                            assert(spec_step(pre, lseq[i as int]) == Err::<
                                DriverState,
                                AsmErrorKind,
                            >(AsmErrorKind::InvalidOrgAddress));
                        }
                        return Err(
                            AsmError {
                                kind: AsmErrorKind::InvalidOrgAddress,
                                line_number: i,
                                line: slice_to_vec(lines[i].as_slice()),
                            },
                        );
                    },
                }
            }
            let (label, body) = split_line(lines[i].as_slice());
            if body.len() == 0 {
                if label.len() > 0 {
                    proof {
                        assert(spec_step(pre, lseq[i as int]) == Err::<DriverState, AsmErrorKind>(
                            AsmErrorKind::LabelWithoutInstruction,
                        ));
                    }
                    return Err(
                        AsmError {
                            kind: AsmErrorKind::LabelWithoutInstruction,
                            line_number: i,
                            line: slice_to_vec(lines[i].as_slice()),
                        },
                    );
                }
                proof {
                    assert(spec_step(pre, lseq[i as int]) == Ok::<DriverState, AsmErrorKind>(pre));
                }
                i += 1;
                continue;
            }
            if label.len() > 0 {
                if labels.contains(label) {
                    proof {
                        assert(spec_step(pre, lseq[i as int]) == Err::<DriverState, AsmErrorKind>(
                            AsmErrorKind::DuplicateLabel,
                        ));
                    }
                    return Err(
                        AsmError {
                            kind: AsmErrorKind::DuplicateLabel,
                            line_number: i,
                            line: slice_to_vec(lines[i].as_slice()),
                        },
                    );
                }
                labels.insert(slice_to_vec(label), cursor);
            }
            match parse_instruction(body, &labels) {
                Err(kind) => {
                    proof {
                        assert(spec_step(pre, lseq[i as int]) == Err::<DriverState, AsmErrorKind>(
                            kind,
                        ));
                    }
                    return Err(
                        AsmError { kind, line_number: i, line: slice_to_vec(lines[i].as_slice()) },
                    );
                },
                Ok(w) => {
                    if cursor as usize >= MEMORY_WORDS_SIZE {
                        proof {
                            assert(spec_step(pre, lseq[i as int]) == Err::<
                                DriverState,
                                AsmErrorKind,
                            >(AsmErrorKind::ProgramTooLarge));
                        }
                        return Err(
                            AsmError {
                                kind: AsmErrorKind::ProgramTooLarge,
                                line_number: i,
                                line: slice_to_vec(lines[i].as_slice()),
                            },
                        );
                    }
                    ram[cursor as usize] = w;
                    cursor += 1;
                    proof {
                        let post = DriverState { ram: ram@, labels: labels@, cursor: cursor as int };
                        assert(spec_step(pre, lseq[i as int]) == Ok::<DriverState, AsmErrorKind>(
                            post,
                        ));
                    }
                    i += 1;
                },
            }
        }
        proof {
            let cur = DriverState { ram: ram@, labels: labels@, cursor: cursor as int };
            assert(spec_run(cur, lseq, i as int) == Ok::<DriverState, (int, AsmErrorKind)>(cur));
        }
        self.ram = ram;
        self.variables = labels;
        Ok(())
    }
}

/// Assembly is deterministic: one source text has one outcome, so running
/// the assembler twice on identical input yields identical images.
pub proof fn lemma_assembly_deterministic(src: Seq<u8>, r1: DriverState, r2: DriverState)
    requires
        spec_assemble(src) == Ok::<DriverState, (int, AsmErrorKind)>(r1),
        spec_assemble(src) == Ok::<DriverState, (int, AsmErrorKind)>(r2),
    ensures
        r1.ram =~= r2.ram,
        r1.labels =~= r2.labels,
{
}

/// A label bound to address `a` resolves, in an operand position whose token
/// is not itself a valid literal, to exactly the integer `a`.
pub proof fn lemma_label_resolution(
    name: Seq<u8>,
    a: u16,
    base: u16,
    limit: int,
    labels: Map<Seq<u8>, u16>,
)
    requires
        labels.contains_key(name),
        labels[name] == a,
        spec_parse_literal(name, base, limit) is None,
    ensures
        spec_resolve_operand(name, base, limit, labels) == Some(a),
{
}

/// A label on a line that both defines it and emits a word is bound to the
/// integer address the cursor held when the line was reached.
pub proof fn lemma_label_binds_cursor(st: DriverState, line: Seq<u8>, st2: DriverState)
    requires
        spec_step(st, line) == Ok::<DriverState, AsmErrorKind>(st2),
        spec_trim(line).len() > 0,
        !(spec_tokens(strip_comment(spec_trim(line))).len() > 0 && spec_tokens(
            strip_comment(spec_trim(line)),
        )[0] == org_token()),
        spec_split_line(line).0.len() > 0,
        spec_split_line(line).1.len() > 0,
    ensures
        st2.labels.contains_key(spec_split_line(line).0),
        st2.labels[spec_split_line(line).0] == st.cursor as u16,
        st2.cursor == st.cursor + 1,
{
}

/// One step keeps the driver state inside the machine: the image keeps its
/// fixed size and the cursor never exceeds it.
pub proof fn lemma_step_preserves_bounds(st: DriverState, line: Seq<u8>, st2: DriverState)
    requires
        spec_step(st, line) == Ok::<DriverState, AsmErrorKind>(st2),
        st.ram.len() == 4096,
        0 <= st.cursor <= 4096,
    ensures
        st2.ram.len() == 4096,
        0 <= st2.cursor <= 4096,
{
    let t = spec_trim(line);
    if t.len() > 0 {
        let toks = spec_tokens(strip_comment(t));
        if toks.len() == 2 && toks[0] == org_token() {
            lemma_numeral_val_bounds(toks[1], 16);
        }
    }
}

} // verus!
