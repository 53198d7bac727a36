//! The two-pass assembler: pass one binds every label to the address of the
//! instruction that follows it, pass two parses each line into an
//! instruction, binding variable symbols to successive free addresses on
//! first reference.
use vstd::prelude::*;

use crate::numerals::{bin16, bin16_chars, dec_val, is_dec_u16, parse_u16_chars};
use crate::symbols::{predefined, SymbolTable};
use crate::tables::{
    comp_bits, comp_code, dest_bits, dest_code, jump_bits, jump_code, view_opt_string,
};
use crate::text::{
    append_chars, chars_to_string, char_pos, prefix_len, str_to_chars, sub_chars, trim_chars,
    trimmed,
};

verus! {

/// A parsed machine instruction: an address load carrying a resolved 16-bit
/// value, or a computation with optional destination and jump mnemonics.
pub enum InstructionType {
    A(u16),
    C { dest: Option<String>, comp: String, jump: Option<String> },
}

/// The mathematical model of an instruction: the same shape over character
/// sequences.
pub enum Instr {
    A(u16),
    C { dest: Option<Seq<char>>, comp: Seq<char>, jump: Option<Seq<char>> },
}

impl View for InstructionType {
    type V = Instr;

    open spec fn view(&self) -> Instr {
        match *self {
            InstructionType::A(v) => Instr::A(v),
            InstructionType::C { dest, comp, jump } => Instr::C {
                dest: view_opt_string(dest),
                comp: comp@,
                jump: view_opt_string(jump),
            },
        }
    }
}

/// The views of a sequence of instructions.
pub open spec fn instr_views(v: Seq<InstructionType>) -> Seq<Instr> {
    v.map_values(|i: InstructionType| i@)
}

/// The views of a sequence of owned strings.
pub open spec fn str_views(v: Seq<String>) -> Seq<Seq<char>> {
    v.map_values(|s: String| s@)
}

/// A trimmed line that is a comment.
pub open spec fn is_comment_line(t: Seq<char>) -> bool {
    t.len() >= 2 && t[0] == '/' && t[1] == '/'
}

/// A trimmed line that declares a label: enclosed in parentheses.
pub open spec fn is_label_line(t: Seq<char>) -> bool {
    t.len() > 0 && t[0] == '(' && t[t.len() - 1] == ')'
}

/// A trimmed line that denotes an instruction: non-blank, neither a comment
/// nor a label declaration.
pub open spec fn is_code_line(t: Seq<char>) -> bool {
    t.len() > 0 && !is_comment_line(t) && !is_label_line(t)
}

/// The symbol a label declaration binds: the text between the parentheses.
pub open spec fn label_name(t: Seq<char>) -> Seq<char> {
    t.subrange(1, t.len() - 1)
}

/// The state of pass one after the first `i` lines: the symbol table so far
/// and the address of the next instruction. Labels bind to the current
/// instruction address without advancing it; an existing binding for the
/// same name is never overwritten.
pub open spec fn pass1_state(lines: Seq<Seq<char>>, i: int) -> (Map<Seq<char>, u16>, int)
    decreases i,
{
    if i <= 0 {
        (predefined(), 0)
    } else {
        let prior = pass1_state(lines, i - 1);
        let t = trimmed(lines[i - 1]);
        if is_label_line(t) {
            if prior.0.contains_key(label_name(t)) {
                prior
            } else {
                (prior.0.insert(label_name(t), prior.1 as u16), prior.1)
            }
        } else if is_code_line(t) {
            (prior.0, prior.1 + 1)
        } else {
            prior
        }
    }
}

/// The symbol table after pass one: predefined names and all labels.
pub open spec fn label_table(lines: Seq<Seq<char>>) -> Map<Seq<char>, u16> {
    pass1_state(lines, lines.len() as int).0
}

/// Resolution of the symbol part of an address-load line against the table:
/// a numeral denotes itself; a bound symbol denotes its address; an unbound
/// symbol is bound to the next free variable address, which then advances.
pub open spec fn resolve_symbol(tbl: Map<Seq<char>, u16>, ram: int, sym: Seq<char>) -> (
    u16,
    Map<Seq<char>, u16>,
    int,
) {
    if is_dec_u16(sym) {
        (dec_val(sym) as u16, tbl, ram)
    } else if tbl.contains_key(sym) {
        (tbl[sym], tbl, ram)
    } else {
        (ram as u16, tbl.insert(sym, ram as u16), ram + 1)
    }
}

/// The fields of a compute instruction: an optional jump mnemonic after the
/// first `;`, an optional destination mnemonic before the first `=` of the
/// remainder, and the computation mnemonic between them.
pub open spec fn parse_c_fields(t: Seq<char>) -> (Option<Seq<char>>, Seq<char>, Option<Seq<char>>) {
    let jpos = prefix_len(t, |c: char| c != ';') as int;
    let rest = if jpos < t.len() {
        t.subrange(0, jpos)
    } else {
        t
    };
    let jump = if jpos < t.len() {
        Some(t.subrange(jpos + 1, t.len() as int))
    } else {
        None
    };
    let dpos = prefix_len(rest, |c: char| c != '=') as int;
    if dpos < rest.len() {
        (Some(rest.subrange(0, dpos)), rest.subrange(dpos + 1, rest.len() as int), jump)
    } else {
        (None, rest, jump)
    }
}

/// The state of pass two after the first `i` lines: the instructions emitted
/// so far, the symbol table (pass one's table extended by variables), and
/// the next free variable address, starting at 16.
pub open spec fn pass2_state(lines: Seq<Seq<char>>, i: int) -> (
    Seq<Instr>,
    Map<Seq<char>, u16>,
    int,
)
    decreases i,
{
    if i <= 0 {
        (Seq::empty(), label_table(lines), 16)
    } else {
        let prior = pass2_state(lines, i - 1);
        let t = trimmed(lines[i - 1]);
        if t.len() > 0 && t[0] == '@' {
            let step = resolve_symbol(prior.1, prior.2, t.subrange(1, t.len() as int));
            (prior.0.push(Instr::A(step.0)), step.1, step.2)
        } else if is_code_line(t) {
            let fields = parse_c_fields(t);
            (
                prior.0.push(Instr::C { dest: fields.0, comp: fields.1, jump: fields.2 }),
                prior.1,
                prior.2,
            )
        } else {
            prior
        }
    }
}

/// Splits a compute instruction into its optional destination, computation,
/// and optional jump mnemonics, on the first `;` and the first `=`.
pub fn parse_c_instruction(instruction: &str) -> (r: (Option<String>, String, Option<String>))
    ensures
        ({
            let fields = parse_c_fields(instruction@);
            view_opt_string(r.0) == fields.0 && r.1@ == fields.1 && view_opt_string(r.2)
                == fields.2
        }),
{
    let t = str_to_chars(instruction);
    parse_c_chars(&t)
}

/// The character-vector form of `parse_c_instruction`.
pub fn parse_c_chars(t: &Vec<char>) -> (r: (Option<String>, String, Option<String>))
    ensures
        ({
            let fields = parse_c_fields(t@);
            view_opt_string(r.0) == fields.0 && r.1@ == fields.1 && view_opt_string(r.2)
                == fields.2
        }),
{
    let n = t.len();
    let jpos = char_pos(t, ';');
    let rest = if jpos < n {
        sub_chars(t, 0, jpos)
    } else {
        sub_chars(t, 0, n)
    };
    proof {
        if jpos >= n {
            assert(t@.subrange(0, n as int) =~= t@);
        }
    }
    let jump = if jpos < n {
        Some(chars_to_string(&sub_chars(t, jpos + 1, n)))
    } else {
        None
    };
    let m = rest.len();
    let dpos = char_pos(&rest, '=');
    if dpos < m {
        let dest = chars_to_string(&sub_chars(&rest, 0, dpos));
        let comp = chars_to_string(&sub_chars(&rest, dpos + 1, m));
        (Some(dest), comp, jump)
    } else {
        let comp = chars_to_string(&rest);
        (None, comp, jump)
    }
}

/// Runs both passes over the source lines: binds labels, then parses every
/// instruction line, resolving symbols and binding variables on first
/// reference. Returns the finished symbol table and the parsed instructions.
pub fn check_for_symbol_and_parse(instructions: Vec<String>) -> (r: (
    SymbolTable,
    Vec<InstructionType>,
))
    requires
        instructions@.len() < 32768,
    ensures
        ({
            let lines = str_views(instructions@);
            let outcome = pass2_state(lines, lines.len() as int);
            instr_views(r.1@) == outcome.0 && r.0@ == outcome.1
        }),
{
    let ghost lines = str_views(instructions@);
    let n = instructions.len();
    let mut table = SymbolTable::with_predefined();
    let mut rom: u16 = 0;
    let mut i: usize = 0;
    while i < n
        invariant
            i <= n,
            n == instructions@.len() < 32768,
            lines == str_views(instructions@),
            table@ == pass1_state(lines, i as int).0,
            rom as int == pass1_state(lines, i as int).1,
            rom <= i,
        decreases n - i,
    {
        let chars = str_to_chars(instructions[i].as_str());
        let t = trim_chars(&chars);
        proof {
            assert(lines[i as int] == instructions@[i as int]@);
            assert(t@ == trimmed(lines[i as int]));
        }
        let tl = t.len();
        if tl > 0 && t[0] == '(' && t[tl - 1] == ')' {
            let name = sub_chars(&t, 1, tl - 1);
            proof {
                assert(name@ == label_name(t@));
            }
            table.insert_if_absent(name, rom);
        } else if tl > 0 && !(tl >= 2 && t[0] == '/' && t[1] == '/') {
            rom = rom + 1;
        }
        i = i + 1;
    }
    let mut parsed: Vec<InstructionType> = Vec::new();
    let mut ram: u16 = 16;
    let mut j: usize = 0;
    proof {
        assert(table@ == label_table(lines));
    }
    while j < n
        invariant
            j <= n,
            n == instructions@.len() < 32768,
            lines == str_views(instructions@),
            instr_views(parsed@) == pass2_state(lines, j as int).0,
            table@ == pass2_state(lines, j as int).1,
            ram as int == pass2_state(lines, j as int).2,
            ram <= 16 + j,
        decreases n - j,
    {
        let chars = str_to_chars(instructions[j].as_str());
        let t = trim_chars(&chars);
        proof {
            assert(lines[j as int] == instructions@[j as int]@);
            assert(t@ == trimmed(lines[j as int]));
        }
        let tl = t.len();
        if tl > 0 && t[0] == '@' {
            let sym = sub_chars(&t, 1, tl);
            proof {
                assert(sym@ == t@.subrange(1, t@.len() as int));
            }
            match parse_u16_chars(&sym) {
                Some(v) => {
                    parsed.push(InstructionType::A(v));
                },
                None => {
                    match table.get(&sym) {
                        Some(addr) => {
                            parsed.push(InstructionType::A(addr));
                        },
                        None => {
                            parsed.push(InstructionType::A(ram));
                            table.insert_if_absent(sym, ram);
                            ram = ram + 1;
                        },
                    }
                },
            }
            proof {
                assert(instr_views(parsed@) =~= pass2_state(lines, j + 1).0);
            }
        } else if tl > 0 && !(tl >= 2 && t[0] == '/' && t[1] == '/') && !(tl > 0 && t[0] == '('
            && t[tl - 1] == ')') {
            let fields = parse_c_chars(&t);
            parsed.push(InstructionType::C { dest: fields.0, comp: fields.1, jump: fields.2 });
            proof {
                assert(instr_views(parsed@) =~= pass2_state(lines, j + 1).0);
            }
        }
        j = j + 1;
    }
    (table, parsed)
}

/// The fatal error of a translation run: an encoding-table lookup failed.
#[derive(Clone, Copy, Debug, PartialEq, Eq, Structural)]
pub enum AsmError {
    UnresolvableReference,
}

/// The 16-character binary word of one instruction, or `None` when a
/// mnemonic is outside the fixed encoding tables: an address load is the
/// 16-bit binary of its value (a value at or above 2^15 is emitted as that
/// full pattern, leading bit set, rather than rejected); a computation is
/// three leading ones followed by the computation, destination, and jump
/// patterns.
pub open spec fn encode_instr(ins: Instr) -> Option<Seq<char>> {
    match ins {
        Instr::A(v) => Some(bin16(v)),
        Instr::C { dest, comp, jump } => {
            if comp_code(comp) is Some && dest_code(dest) is Some && jump_code(jump) is Some {
                Some(seq!['1', '1', '1'] + comp_code(comp)->0 + dest_code(dest)->0 + jump_code(
                    jump,
                )->0)
            } else {
                None
            }
        },
    }
}

/// The binary text of the first `i` instructions, one newline-terminated
/// word per instruction, in order; `None` as soon as any instruction fails
/// to encode.
pub open spec fn emit_binary(instrs: Seq<Instr>, i: int) -> Option<Seq<char>>
    decreases i,
{
    if i <= 0 {
        Some(Seq::empty())
    } else {
        let rest = emit_binary(instrs, i - 1);
        let e = encode_instr(instrs[i - 1]);
        if rest is Some && e is Some {
            Some(rest->0 + e->0 + seq!['\n'])
        } else {
            None
        }
    }
}

proof fn lemma_emit_none_persists(instrs: Seq<Instr>, i: int, j: int)
    requires
        0 <= i <= j,
        emit_binary(instrs, i) is None,
    ensures
        emit_binary(instrs, j) is None,
    decreases j - i,
{
    if i < j {
        lemma_emit_none_persists(instrs, i, j - 1);
    }
}

/// Renders the parsed instructions as binary text, one 16-character word
/// per line, in order. Fails, with no partial output, exactly when some
/// computation, destination or jump mnemonic is outside the encoding tables.
pub fn translate_to_binary(instructions: &Vec<InstructionType>) -> (r: Result<String, AsmError>)
    ensures
        ({
            let spec_out = emit_binary(instr_views(instructions@), instructions@.len() as int);
            match r {
                Ok(s) => spec_out is Some && s@ == spec_out->0,
                Err(e) => spec_out is None && e == AsmError::UnresolvableReference,
            }
        }),
{
    let ghost views = instr_views(instructions@);
    let n = instructions.len();
    let mut out: Vec<char> = Vec::new();
    let mut i: usize = 0;
    proof {
        assert(out@ =~= Seq::<char>::empty());
    }
    while i < n
        invariant
            i <= n,
            n == instructions@.len(),
            views == instr_views(instructions@),
            emit_binary(views, i as int) == Some(out@),
        decreases n - i,
    {
        let ghost pre = out@;
        proof {
            assert(views[i as int] == instructions@[i as int]@);
        }
        match &instructions[i] {
            InstructionType::A(v) => {
                let bits = bin16_chars(*v);
                append_chars(&mut out, &bits);
                out.push('\n');
                proof {
                    assert(out@ =~= pre + bin16(*v) + seq!['\n']);
                }
            },
            InstructionType::C { dest, comp, jump } => {
                let cc = comp_bits(comp.as_str());
                let dd = dest_bits(dest);
                let jj = jump_bits(jump);
                match (cc, dd, jj) {
                    (Some(cb), Some(db), Some(jb)) => {
                        out.push('1');
                        out.push('1');
                        out.push('1');
                        append_chars(&mut out, &cb);
                        append_chars(&mut out, &db);
                        append_chars(&mut out, &jb);
                        out.push('\n');
                        proof {
                            assert(out@ =~= pre + (seq!['1', '1', '1'] + cb@ + db@ + jb@) + seq![
                                '\n',
                            ]);
                            assert(encode_instr(views[i as int]) == Some(
                                seq!['1', '1', '1'] + cb@ + db@ + jb@,
                            ));
                        }
                    },
                    _ => {
                        proof {
                            assert(encode_instr(views[i as int]) is None);
                            assert(emit_binary(views, i + 1) is None);
                            lemma_emit_none_persists(views, i + 1, n as int);
                        }
                        return Err(AsmError::UnresolvableReference);
                    },
                }
            },
        }
        i = i + 1;
    }
    Ok(chars_to_string(&out))
}

/// The binary text of a whole translation unit, when every mnemonic
/// resolves: the composition of both passes and the binary emission.
pub open spec fn assembled(lines: Seq<Seq<char>>) -> Option<Seq<char>> {
    let instrs = pass2_state(lines, lines.len() as int).0;
    emit_binary(instrs, instrs.len() as int)
}

/// Assembles source lines to binary text: both passes, then emission.
pub fn assemble(lines: Vec<String>) -> (r: Result<String, AsmError>)
    requires
        lines@.len() < 32768,
    ensures
        ({
            let spec_out = assembled(str_views(lines@));
            match r {
                Ok(s) => spec_out is Some && s@ == spec_out->0,
                Err(e) => spec_out is None && e == AsmError::UnresolvableReference,
            }
        }),
{
    let ghost views = str_views(lines@);
    let parsed = check_for_symbol_and_parse(lines);
    translate_to_binary(&parsed.1)
}

proof fn lemma_pass1_monotone(lines: Seq<Seq<char>>, i: int, j: int, key: Seq<char>)
    requires
        0 <= i <= j,
        pass1_state(lines, i).0.contains_key(key),
    ensures
        pass1_state(lines, j).0.contains_key(key),
        pass1_state(lines, j).0[key] == pass1_state(lines, i).0[key],
    decreases j - i,
{
    if i < j {
        lemma_pass1_monotone(lines, i, j - 1, key);
    }
}

proof fn lemma_pass2_monotone(lines: Seq<Seq<char>>, i: int, j: int, key: Seq<char>)
    requires
        0 <= i <= j,
        pass2_state(lines, i).1.contains_key(key),
    ensures
        pass2_state(lines, j).1.contains_key(key),
        pass2_state(lines, j).1[key] == pass2_state(lines, i).1[key],
    decreases j - i,
{
    if i < j {
        lemma_pass2_monotone(lines, i, j - 1, key);
    }
}

/// Every predefined symbol name keeps its fixed architectural address in the
/// final symbol table of any translation unit, regardless of program
/// content: no later layer ever overwrites it.
pub proof fn lemma_predefined_stable(lines: Seq<Seq<char>>, name: Seq<char>)
    requires
        predefined().contains_key(name),
    ensures
        pass2_state(lines, lines.len() as int).1.contains_key(name),
        pass2_state(lines, lines.len() as int).1[name] == predefined()[name],
{
    lemma_pass1_monotone(lines, 0, lines.len() as int, name);
    lemma_pass2_monotone(lines, 0, lines.len() as int, name);
}

/// Assigning a variable symbol is idempotent: resolving the same name again,
/// in the state the first resolution produced, yields the same address and
/// changes neither the table nor the next free address.
pub proof fn lemma_variable_binding_idempotent(tbl: Map<Seq<char>, u16>, ram: int, sym: Seq<char>)
    ensures
        ({
            let first = resolve_symbol(tbl, ram, sym);
            let second = resolve_symbol(first.1, first.2, sym);
            second.0 == first.0 && second.1 == first.1 && second.2 == first.2
        }),
{
}

/// A fresh variable binding never reuses an address already bound to a
/// different symbol, provided no existing binding holds the next free
/// address (a label bound into the variable range can break that premise).
pub proof fn lemma_variable_address_fresh(tbl: Map<Seq<char>, u16>, ram: int, sym: Seq<char>)
    requires
        !is_dec_u16(sym),
        !tbl.contains_key(sym),
        0 <= ram < 65536,
        forall|o: Seq<char>| tbl.contains_key(o) ==> tbl[o] != ram as u16,
    ensures
        ({
            let step = resolve_symbol(tbl, ram, sym);
            step.0 == ram as u16 && step.1.contains_key(sym) && step.1[sym] == ram as u16
                && (forall|o: Seq<char>|
                step.1.contains_key(o) && o != sym ==> step.1[o] != ram as u16)
        }),
{
}

/// Over a whole run of pass two, every symbol bound as a variable (bound
/// during pass two, not by pass one) gets an address in the variable range —
/// from 16 up to, but excluding, the next free address — and no two distinct
/// variable symbols ever share an address. (A variable's address may coincide
/// with a label's, since labels are instruction addresses in a different
/// address space.)
pub proof fn lemma_variable_addresses_distinct(lines: Seq<Seq<char>>, i: int)
    requires
        0 <= i < 32768,
    ensures
        ({
            let tbl = pass2_state(lines, i).1;
            let ram = pass2_state(lines, i).2;
            16 <= ram <= 16 + i && (forall|k: Seq<char>|
                #[trigger] tbl.contains_key(k) && !label_table(lines).contains_key(k) ==> 16
                    <= tbl[k] < ram) && (forall|k1: Seq<char>, k2: Seq<char>|
                #![trigger tbl.contains_key(k1), tbl.contains_key(k2)]
                tbl.contains_key(k1) && tbl.contains_key(k2) && !label_table(
                    lines,
                ).contains_key(k1) && !label_table(lines).contains_key(k2) && k1 != k2 ==> tbl[k1]
                    != tbl[k2])
        }),
    decreases i,
{
    if i > 0 {
        lemma_variable_addresses_distinct(lines, i - 1);
        let tbl0 = pass2_state(lines, i - 1).1;
        let ram0 = pass2_state(lines, i - 1).2;
        let tbl = pass2_state(lines, i).1;
        let ram = pass2_state(lines, i).2;
        let t = trimmed(lines[i - 1]);
        if t.len() > 0 && t[0] == '@' {
            let sym = t.subrange(1, t.len() as int);
            if !is_dec_u16(sym) && !tbl0.contains_key(sym) {
                assert(tbl == tbl0.insert(sym, ram0 as u16));
                assert(ram0 as u16 == ram0);
                assert forall|k: Seq<char>|
                    #[trigger] tbl.contains_key(k) && !label_table(lines).contains_key(
                        k,
                    ) implies 16 <= tbl[k] < ram by {
                    if k != sym {
                        assert(tbl0.contains_key(k) && tbl[k] == tbl0[k]);
                    }
                }
                assert forall|k1: Seq<char>, k2: Seq<char>|
                    #![trigger tbl.contains_key(k1), tbl.contains_key(k2)]
                    tbl.contains_key(k1) && tbl.contains_key(k2) && !label_table(
                        lines,
                    ).contains_key(k1) && !label_table(lines).contains_key(k2) && k1
                        != k2 implies tbl[k1] != tbl[k2] by {
                    if k1 != sym && k2 != sym {
                        assert(tbl0.contains_key(k1) && tbl0.contains_key(k2));
                    } else if k1 == sym {
                        assert(tbl0.contains_key(k2) && tbl[k2] == tbl0[k2] && tbl0[k2] < ram0);
                    } else {
                        assert(tbl0.contains_key(k1) && tbl[k1] == tbl0[k1] && tbl0[k1] < ram0);
                    }
                }
            }
        }
    }
}

/// The number of instruction lines (non-blank, non-comment, non-label)
/// among the first `i` source lines.
pub open spec fn code_line_count(lines: Seq<Seq<char>>, i: int) -> int
    decreases i,
{
    if i <= 0 {
        0
    } else {
        code_line_count(lines, i - 1) + (if is_code_line(trimmed(lines[i - 1])) {
            1int
        } else {
            0int
        })
    }
}

proof fn lemma_pass1_counter(lines: Seq<Seq<char>>, i: int)
    requires
        i >= 0,
    ensures
        pass1_state(lines, i).1 == code_line_count(lines, i),
        0 <= code_line_count(lines, i) <= i,
    decreases i,
{
    if i > 0 {
        lemma_pass1_counter(lines, i - 1);
    }
}

/// Pass two emits exactly one instruction per instruction line, so the line
/// count of pass one is also the number of instructions emitted: a label's
/// address indexes the instruction that follows it in the emitted sequence.
pub proof fn lemma_emitted_instruction_count(lines: Seq<Seq<char>>, i: int)
    requires
        i >= 0,
    ensures
        pass2_state(lines, i).0.len() == code_line_count(lines, i),
    decreases i,
{
    if i > 0 {
        lemma_emitted_instruction_count(lines, i - 1);
    }
}

/// A label declared on line `i` of a unit of fewer than 32768 lines, under a
/// name not already bound, is bound to the number of instruction lines
/// strictly preceding its declaration — by `lemma_emitted_instruction_count`,
/// the number of emitted instructions strictly preceding it — whether it is
/// referenced before or after that line.
pub proof fn lemma_label_address(lines: Seq<Seq<char>>, i: int)
    requires
        0 <= i < lines.len() < 32768,
        is_label_line(trimmed(lines[i])),
        !pass1_state(lines, i).0.contains_key(label_name(trimmed(lines[i]))),
    ensures
        label_table(lines).contains_key(label_name(trimmed(lines[i]))),
        label_table(lines)[label_name(trimmed(lines[i]))] == code_line_count(lines, i),
{
    let name = label_name(trimmed(lines[i]));
    lemma_pass1_counter(lines, i);
    assert(pass1_state(lines, i + 1).0.contains_key(name));
    assert(pass1_state(lines, i + 1).0[name] == code_line_count(lines, i));
    lemma_pass1_monotone(lines, i + 1, lines.len() as int, name);
}

/// Assembly is a pure function of its input lines: two independent runs over
/// the same source produce identical output.
pub proof fn lemma_assembly_deterministic(
    lines: Seq<Seq<char>>,
    first: Option<Seq<char>>,
    second: Option<Seq<char>>,
)
    requires
        first == assembled(lines),
        second == assembled(lines),
    ensures
        first == second,
{
}

} // verus!
