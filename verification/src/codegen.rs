//! The VM code generator: emits, for each command, the symbolic assembly
//! that implements stack-machine semantics over a shared operand stack whose
//! top is tracked by the stack pointer register. The counter that mints
//! unique internal labels is threaded explicitly and starts at zero for each
//! translation run.
use vstd::prelude::*;

use crate::numerals::{dec_chars_i64, dec_chars_u64, dec_digits, dec_digits_signed};
use crate::text::{append_chars, append_str, chars_to_string, str_eq, str_to_chars};
use crate::vm::{cmd_views, Cmd, CommandType};

verus! {

/// The fatal errors of a translation run: a push or pop names a segment
/// outside the fixed supported set, or an arithmetic command names an
/// operation outside the nine supported mnemonics.
#[derive(Clone, Copy, Debug, PartialEq, Eq, Structural)]
pub enum VmError {
    UnsupportedSegment,
    UnsupportedOperation,
}

/// Push of a base-relative segment cell: the effective address is the base
/// register's value plus the index.
pub open spec fn push_seg_base(base: Seq<char>, idx: int) -> Seq<char> {
    seq!['@'] + dec_digits_signed(idx) + "\nD=A\n@"@ + base
        + "\nA=D+M\nD=M\n@SP\nA=M\nM=D\n@SP\nM=M+1\n"@
}

/// Push of a directly addressed cell (temp, pointer, static).
pub open spec fn push_direct(addr: Seq<char>) -> Seq<char> {
    seq!['@'] + addr + "\nD=M\n@SP\nA=M\nM=D\n@SP\nM=M+1\n"@
}

/// Pop into a base-relative segment cell, via the first scratch register.
pub open spec fn pop_seg_base(base: Seq<char>, idx: int) -> Seq<char> {
    seq!['@'] + dec_digits_signed(idx) + "\nD=A\n@"@ + base
        + "\nD=D+M\n@R13\nM=D\n@SP\nAM=M-1\nD=M\n@R13\nA=M\nM=D\n"@
}

/// Pop into a directly addressed cell (temp, pointer, static).
pub open spec fn pop_direct(addr: Seq<char>) -> Seq<char> {
    "@SP\nAM=M-1\nD=M\n@"@ + addr + "\nM=D\n"@
}

/// The symbol a pointer cell resolves to: index zero is the `this` base
/// register, any other index the `that` base register.
pub open spec fn pointer_symbol(idx: int) -> Seq<char> {
    if idx == 0 {
        "THIS"@
    } else {
        "THAT"@
    }
}

/// The namespaced symbol of a static cell: one fixed namespace tag for the
/// whole translation unit, distinct per index.
pub open spec fn static_symbol(idx: int) -> Seq<char> {
    "Foo."@ + dec_digits_signed(idx)
}

/// The assembly of `push segment index`, or `None` for an unrecognized
/// segment name.
pub open spec fn push_asm(seg: Seq<char>, idx: int) -> Option<Seq<char>> {
    if seg == "constant"@ {
        Some(seq!['@'] + dec_digits_signed(idx) + "\nD=A\n@SP\nA=M\nM=D\n@SP\nM=M+1\n"@)
    } else if seg == "local"@ {
        Some(push_seg_base("LCL"@, idx))
    } else if seg == "argument"@ {
        Some(push_seg_base("ARG"@, idx))
    } else if seg == "this"@ {
        Some(push_seg_base("THIS"@, idx))
    } else if seg == "that"@ {
        Some(push_seg_base("THAT"@, idx))
    } else if seg == "temp"@ {
        Some(push_direct(dec_digits_signed(5 + idx)))
    } else if seg == "pointer"@ {
        Some(push_direct(pointer_symbol(idx)))
    } else if seg == "static"@ {
        Some(push_direct(static_symbol(idx)))
    } else {
        None
    }
}

/// The assembly of `pop segment index`, or `None` for an unrecognized
/// segment name; `constant` has no storage and cannot be popped into.
pub open spec fn pop_asm(seg: Seq<char>, idx: int) -> Option<Seq<char>> {
    if seg == "local"@ {
        Some(pop_seg_base("LCL"@, idx))
    } else if seg == "argument"@ {
        Some(pop_seg_base("ARG"@, idx))
    } else if seg == "this"@ {
        Some(pop_seg_base("THIS"@, idx))
    } else if seg == "that"@ {
        Some(pop_seg_base("THAT"@, idx))
    } else if seg == "temp"@ {
        Some(pop_direct(dec_digits_signed(5 + idx)))
    } else if seg == "pointer"@ {
        Some(pop_direct(pointer_symbol(idx)))
    } else if seg == "static"@ {
        Some(pop_direct(static_symbol(idx)))
    } else {
        None
    }
}

/// A comparison: pop two values, subtract, leave all-ones when the condition
/// on the difference holds and all-zeros otherwise, branching through a
/// freshly minted label.
pub open spec fn compare_asm(cond: Seq<char>, lbl: Seq<char>) -> Seq<char> {
    "@SP\nAM=M-1\nD=M\nA=A-1\nD=M-D\nM=-1\n@"@ + lbl + "\nD;"@ + cond
        + "\n@SP\nA=M-1\nM=0\n("@ + lbl + ")\n"@
}

/// The assembly of one arithmetic-logical command together with the counter
/// after it, or `None` for an unrecognized mnemonic. Comparisons mint one
/// unique label from the counter; all other operations leave it unchanged.
pub open spec fn arith_asm(op: Seq<char>, counter: nat) -> Option<(Seq<char>, nat)> {
    if op == "add"@ {
        Some(("@SP\nAM=M-1\nD=M\nA=A-1\nM=D+M\n"@, counter))
    } else if op == "sub"@ {
        Some(("@SP\nAM=M-1\nD=M\nA=A-1\nM=M-D\n"@, counter))
    } else if op == "neg"@ {
        Some(("@SP\nA=M-1\nM=-M\n"@, counter))
    } else if op == "eq"@ {
        Some((compare_asm("JEQ"@, "EQ"@ + dec_digits(counter)), counter + 1))
    } else if op == "gt"@ {
        Some((compare_asm("JGT"@, "GT"@ + dec_digits(counter)), counter + 1))
    } else if op == "lt"@ {
        Some((compare_asm("JLT"@, "LT"@ + dec_digits(counter)), counter + 1))
    } else if op == "and"@ {
        Some(("@SP\nAM=M-1\nD=M\nA=A-1\nM=D&M\n"@, counter))
    } else if op == "or"@ {
        Some(("@SP\nAM=M-1\nD=M\nA=A-1\nM=D|M\n"@, counter))
    } else if op == "not"@ {
        Some(("@SP\nA=M-1\nM=!M\n"@, counter))
    } else {
        None
    }
}

/// The assembly of a label declaration.
pub open spec fn label_asm(l: Seq<char>) -> Seq<char> {
    seq!['('] + l + ")\n"@
}

/// The assembly of an unconditional jump.
pub open spec fn goto_asm(l: Seq<char>) -> Seq<char> {
    seq!['@'] + l + "\n0;JMP\n"@
}

/// The assembly of a conditional jump: pop the top of the stack and jump
/// when it is nonzero (any nonzero bit pattern).
pub open spec fn if_goto_asm(l: Seq<char>) -> Seq<char> {
    "@SP\nAM=M-1\nD=M\n@"@ + l + "\nD;JNE\n"@
}

/// `n` repetitions of a push of zero, initializing a function's local slots.
pub open spec fn push_zero_repeat(n: nat) -> Seq<char>
    decreases n,
{
    if n == 0 {
        Seq::empty()
    } else {
        push_zero_repeat((n - 1) as nat) + "@SP\nA=M\nM=0\n@SP\nM=M+1\n"@
    }
}

/// The assembly of a function declaration: its entry label, then one push of
/// zero per local slot.
pub open spec fn function_asm(name: Seq<char>, n: nat) -> Seq<char> {
    seq!['('] + name + ")\n"@ + push_zero_repeat(n)
}

/// The assembly of `return`: capture the frame in the scratch registers,
/// fetch the return address from five below the frame, plant the return
/// value in the caller's argument slot, rewind the stack pointer to one past
/// it, restore that, this, argument and local bases in that order, and jump
/// to the return address.
pub open spec fn return_asm() -> Seq<char> {
    "@LCL\nD=M\n@R14\nM=D\n@5\nA=D-A\nD=M\n@R15\nM=D\n@SP\nA=M-1\nD=M\n@ARG\nA=M\nM=D\nD=A+1\n@SP\nM=D\n@R14\nAM=M-1\nD=M\n@THAT\nM=D\n@R14\nAM=M-1\nD=M\n@THIS\nM=D\n@R14\nAM=M-1\nD=M\n@ARG\nM=D\n@R14\nAM=M-1\nD=M\n@LCL\nM=D\n@R15\nA=M\n0;JMP\n"@
}

/// The assembly of `call name nArgs`: push the freshly minted return-address
/// label's address, push the local, argument, this and that bases in that
/// order, point the argument base at the first argument (five below the new
/// frame top, minus the argument count), point the local base at the stack
/// top, jump to the callee, and declare the return label.
pub open spec fn call_asm(name: Seq<char>, nargs: int, counter: nat) -> Seq<char> {
    let ret = "RETURN_LABEL"@ + dec_digits(counter);
    seq!['@'] + ret
        + "\nD=A\n@SP\nA=M\nM=D\n@SP\nM=M+1\n@LCL\nD=M\n@SP\nA=M\nM=D\n@SP\nM=M+1\n@ARG\nD=M\n@SP\nA=M\nM=D\n@SP\nM=M+1\n@THIS\nD=M\n@SP\nA=M\nM=D\n@SP\nM=M+1\n@THAT\nD=M\n@SP\nA=M\nM=D\n@SP\nM=M+1\n@SP\nD=M\n@5\nD=D-A\n@"@
        + dec_digits(nargs as nat) + "\nD=D-A\n@ARG\nM=D\n@SP\nD=M\n@LCL\nM=D\n@"@ + name
        + "\n0;JMP\n("@ + ret + ")\n"@
}

/// The assembly of one command together with the counter after it, or the
/// fatal error the command raises.
pub open spec fn cmd_asm(c: Cmd, counter: nat) -> Result<(Seq<char>, nat), VmError> {
    match c {
        Cmd::Push(seg, idx) => match push_asm(seg, idx as int) {
            Some(t) => Ok((t, counter)),
            None => Err(VmError::UnsupportedSegment),
        },
        Cmd::Pop(seg, idx) => match pop_asm(seg, idx as int) {
            Some(t) => Ok((t, counter)),
            None => Err(VmError::UnsupportedSegment),
        },
        Cmd::Arithmetic(op) => match arith_asm(op, counter) {
            Some(p) => Ok(p),
            None => Err(VmError::UnsupportedOperation),
        },
        Cmd::Label(l) => Ok((label_asm(l), counter)),
        Cmd::Goto(l) => Ok((goto_asm(l), counter)),
        Cmd::If(l) => Ok((if_goto_asm(l), counter)),
        Cmd::Function(name, n) => Ok((function_asm(name, n as nat), counter)),
        Cmd::Return => Ok((return_asm(), counter)),
        Cmd::Call(name, n) => Ok((call_asm(name, n as int, counter), counter + 1)),
    }
}

/// The assembly of the first `i` commands, concatenated in order with the
/// counter threaded through, starting at zero; the first fatal command
/// decides the error of the whole run.
pub open spec fn gen_state(cmds: Seq<Cmd>, i: int) -> Result<(Seq<char>, nat), VmError>
    decreases i,
{
    if i <= 0 {
        Ok((Seq::empty(), 0))
    } else {
        match gen_state(cmds, i - 1) {
            Ok(p) => match cmd_asm(cmds[i - 1], p.1) {
                Ok(q) => Ok((p.0 + q.0, q.1)),
                Err(e) => Err(e),
            },
            Err(e) => Err(e),
        }
    }
}

/// The translation of a whole run of commands.
pub open spec fn translated(cmds: Seq<Cmd>) -> Result<(Seq<char>, nat), VmError> {
    gen_state(cmds, cmds.len() as int)
}

proof fn lemma_gen_err_persists(cmds: Seq<Cmd>, i: int, j: int)
    requires
        0 <= i <= j,
        gen_state(cmds, i) is Err,
    ensures
        gen_state(cmds, j) is Err,
        gen_state(cmds, j) == gen_state(cmds, i),
    decreases j - i,
{
    if i < j {
        lemma_gen_err_persists(cmds, i, j - 1);
    }
}

/// A label made unique by the run's counter: the base text followed by the
/// counter's decimal numeral.
pub fn unique_label(base: &str, counter: u64) -> (r: String)
    ensures
        r@ == base@ + dec_digits(counter as nat),
{
    let mut v = str_to_chars(base);
    let digits = dec_chars_u64(counter);
    append_chars(&mut v, &digits);
    chars_to_string(&v)
}

fn push_base_code(base: &str, idx: i16) -> (r: Vec<char>)
    ensures
        r@ == push_seg_base(base@, idx as int),
{
    let mut out: Vec<char> = Vec::new();
    out.push('@');
    let digits = dec_chars_i64(idx as i64);
    append_chars(&mut out, &digits);
    append_str(&mut out, "\nD=A\n@");
    append_str(&mut out, base);
    append_str(&mut out, "\nA=D+M\nD=M\n@SP\nA=M\nM=D\n@SP\nM=M+1\n");
    proof {
        assert(out@ =~= push_seg_base(base@, idx as int));
    }
    out
}

fn pop_base_code(base: &str, idx: i16) -> (r: Vec<char>)
    ensures
        r@ == pop_seg_base(base@, idx as int),
{
    let mut out: Vec<char> = Vec::new();
    out.push('@');
    let digits = dec_chars_i64(idx as i64);
    append_chars(&mut out, &digits);
    append_str(&mut out, "\nD=A\n@");
    append_str(&mut out, base);
    append_str(&mut out, "\nD=D+M\n@R13\nM=D\n@SP\nAM=M-1\nD=M\n@R13\nA=M\nM=D\n");
    proof {
        assert(out@ =~= pop_seg_base(base@, idx as int));
    }
    out
}

fn push_direct_code(addr: &Vec<char>) -> (r: Vec<char>)
    ensures
        r@ == push_direct(addr@),
{
    let mut out: Vec<char> = Vec::new();
    out.push('@');
    append_chars(&mut out, addr);
    append_str(&mut out, "\nD=M\n@SP\nA=M\nM=D\n@SP\nM=M+1\n");
    proof {
        assert(out@ =~= push_direct(addr@));
    }
    out
}

fn pop_direct_code(addr: &Vec<char>) -> (r: Vec<char>)
    ensures
        r@ == pop_direct(addr@),
{
    let mut out: Vec<char> = Vec::new();
    append_str(&mut out, "@SP\nAM=M-1\nD=M\n@");
    append_chars(&mut out, addr);
    append_str(&mut out, "\nM=D\n");
    proof {
        assert(out@ =~= pop_direct(addr@));
    }
    out
}

fn direct_address(seg: &str, idx: i16) -> (r: Vec<char>)
    requires
        seg@ == "temp"@ || seg@ == "pointer"@ || seg@ == "static"@,
    ensures
        r@ == (if seg@ == "temp"@ {
            dec_digits_signed(5 + idx as int)
        } else if seg@ == "pointer"@ {
            pointer_symbol(idx as int)
        } else {
            static_symbol(idx as int)
        }),
{
    if str_eq(seg, "temp") {
        dec_chars_i64(5 + idx as i64)
    } else if str_eq(seg, "pointer") {
        if idx == 0 {
            str_to_chars("THIS")
        } else {
            str_to_chars("THAT")
        }
    } else {
        let mut addr = str_to_chars("Foo.");
        let digits = dec_chars_i64(idx as i64);
        append_chars(&mut addr, &digits);
        addr
    }
}

/// The code of one push command, or `None` for an unrecognized segment.
fn push_code(seg: &String, idx: i16) -> (r: Option<Vec<char>>)
    ensures
        (match r {
            Some(v) => push_asm(seg@, idx as int) == Some(v@),
            None => push_asm(seg@, idx as int) is None,
        }),
{
    if str_eq(seg.as_str(), "constant") {
        let mut out: Vec<char> = Vec::new();
        out.push('@');
        let digits = dec_chars_i64(idx as i64);
        append_chars(&mut out, &digits);
        append_str(&mut out, "\nD=A\n@SP\nA=M\nM=D\n@SP\nM=M+1\n");
        proof {
            assert(out@ =~= seq!['@'] + dec_digits_signed(idx as int)
                + "\nD=A\n@SP\nA=M\nM=D\n@SP\nM=M+1\n"@);
        }
        Some(out)
    } else if str_eq(seg.as_str(), "local") {
        Some(push_base_code("LCL", idx))
    } else if str_eq(seg.as_str(), "argument") {
        Some(push_base_code("ARG", idx))
    } else if str_eq(seg.as_str(), "this") {
        Some(push_base_code("THIS", idx))
    } else if str_eq(seg.as_str(), "that") {
        Some(push_base_code("THAT", idx))
    } else {
        let is_temp = str_eq(seg.as_str(), "temp");
        let is_pointer = str_eq(seg.as_str(), "pointer");
        let is_static = str_eq(seg.as_str(), "static");
        if is_temp || is_pointer || is_static {
            let addr = direct_address(seg.as_str(), idx);
            Some(push_direct_code(&addr))
        } else {
            None
        }
    }
}

/// The code of one pop command, or `None` for an unrecognized segment.
fn pop_code(seg: &String, idx: i16) -> (r: Option<Vec<char>>)
    ensures
        (match r {
            Some(v) => pop_asm(seg@, idx as int) == Some(v@),
            None => pop_asm(seg@, idx as int) is None,
        }),
{
    if str_eq(seg.as_str(), "local") {
        Some(pop_base_code("LCL", idx))
    } else if str_eq(seg.as_str(), "argument") {
        Some(pop_base_code("ARG", idx))
    } else if str_eq(seg.as_str(), "this") {
        Some(pop_base_code("THIS", idx))
    } else if str_eq(seg.as_str(), "that") {
        Some(pop_base_code("THAT", idx))
    } else {
        let is_temp = str_eq(seg.as_str(), "temp");
        let is_pointer = str_eq(seg.as_str(), "pointer");
        let is_static = str_eq(seg.as_str(), "static");
        if is_temp || is_pointer || is_static {
            let addr = direct_address(seg.as_str(), idx);
            Some(pop_direct_code(&addr))
        } else {
            None
        }
    }
}

fn arith_code(op: &str, counter: u64) -> (r: Result<(Vec<char>, u64), VmError>)
    requires
        counter < 0xffff_ffff_ffff_ffff,
    ensures
        (match r {
            Ok(p) => arith_asm(op@, counter as nat) == Some((p.0@, p.1 as nat)),
            Err(e) => arith_asm(op@, counter as nat) is None && e == VmError::UnsupportedOperation,
        }),
{
    if str_eq(op, "add") {
        Ok((str_to_chars("@SP\nAM=M-1\nD=M\nA=A-1\nM=D+M\n"), counter))
    } else if str_eq(op, "sub") {
        Ok((str_to_chars("@SP\nAM=M-1\nD=M\nA=A-1\nM=M-D\n"), counter))
    } else if str_eq(op, "neg") {
        Ok((str_to_chars("@SP\nA=M-1\nM=-M\n"), counter))
    } else if str_eq(op, "eq") {
        Ok((compare_code("JEQ", "EQ", counter), counter + 1))
    } else if str_eq(op, "gt") {
        Ok((compare_code("JGT", "GT", counter), counter + 1))
    } else if str_eq(op, "lt") {
        Ok((compare_code("JLT", "LT", counter), counter + 1))
    } else if str_eq(op, "and") {
        Ok((str_to_chars("@SP\nAM=M-1\nD=M\nA=A-1\nM=D&M\n"), counter))
    } else if str_eq(op, "or") {
        Ok((str_to_chars("@SP\nAM=M-1\nD=M\nA=A-1\nM=D|M\n"), counter))
    } else if str_eq(op, "not") {
        Ok((str_to_chars("@SP\nA=M-1\nM=!M\n"), counter))
    } else {
        Err(VmError::UnsupportedOperation)
    }
}

fn compare_code(cond: &str, base: &str, counter: u64) -> (r: Vec<char>)
    ensures
        r@ == compare_asm(cond@, base@ + dec_digits(counter as nat)),
{
    let mut lbl = str_to_chars(base);
    let digits = dec_chars_u64(counter);
    append_chars(&mut lbl, &digits);
    let mut out: Vec<char> = Vec::new();
    append_str(&mut out, "@SP\nAM=M-1\nD=M\nA=A-1\nD=M-D\nM=-1\n@");
    append_chars(&mut out, &lbl);
    append_str(&mut out, "\nD;");
    append_str(&mut out, cond);
    append_str(&mut out, "\n@SP\nA=M-1\nM=0\n(");
    append_chars(&mut out, &lbl);
    append_str(&mut out, ")\n");
    proof {
        assert(out@ =~= compare_asm(cond@, base@ + dec_digits(counter as nat)));
    }
    out
}

/// The assembly of one arithmetic-logical mnemonic, with the unique-label
/// counter it was given and the counter to use next; an unrecognized
/// mnemonic is the fatal `UnsupportedOperation`.
pub fn format_arithmetic(operation: &str, counter: u64) -> (r: Result<(String, u64), VmError>)
    requires
        counter < 0xffff_ffff_ffff_ffff,
    ensures
        (match r {
            Ok(p) => arith_asm(operation@, counter as nat) == Some((p.0@, p.1 as nat)),
            Err(e) => arith_asm(operation@, counter as nat) is None && e
                == VmError::UnsupportedOperation,
        }),
{
    match arith_code(operation, counter) {
        Ok(p) => Ok((chars_to_string(&p.0), p.1)),
        Err(e) => Err(e),
    }
}

fn function_code(name: &String, n: usize) -> (r: Vec<char>)
    ensures
        r@ == function_asm(name@, n as nat),
{
    let mut out: Vec<char> = Vec::new();
    out.push('(');
    append_str(&mut out, name.as_str());
    append_str(&mut out, ")\n");
    proof {
        assert(out@ =~= seq!['('] + name@ + ")\n"@ + push_zero_repeat(0));
    }
    let mut k: usize = 0;
    while k < n
        invariant
            k <= n,
            out@ == seq!['('] + name@ + ")\n"@ + push_zero_repeat(k as nat),
        decreases n - k,
    {
        append_str(&mut out, "@SP\nA=M\nM=0\n@SP\nM=M+1\n");
        proof {
            assert(out@ =~= seq!['('] + name@ + ")\n"@ + push_zero_repeat((k + 1) as nat));
        }
        k = k + 1;
    }
    out
}

fn call_code(name: &String, nargs: usize, counter: u64) -> (r: Vec<char>)
    ensures
        r@ == call_asm(name@, nargs as int, counter as nat),
{
    let mut ret = str_to_chars("RETURN_LABEL");
    let digits = dec_chars_u64(counter);
    append_chars(&mut ret, &digits);
    let mut out: Vec<char> = Vec::new();
    out.push('@');
    append_chars(&mut out, &ret);
    append_str(
        &mut out,
        "\nD=A\n@SP\nA=M\nM=D\n@SP\nM=M+1\n@LCL\nD=M\n@SP\nA=M\nM=D\n@SP\nM=M+1\n@ARG\nD=M\n@SP\nA=M\nM=D\n@SP\nM=M+1\n@THIS\nD=M\n@SP\nA=M\nM=D\n@SP\nM=M+1\n@THAT\nD=M\n@SP\nA=M\nM=D\n@SP\nM=M+1\n@SP\nD=M\n@5\nD=D-A\n@",
    );
    let nargs_digits = dec_chars_u64(nargs as u64);
    append_chars(&mut out, &nargs_digits);
    append_str(&mut out, "\nD=D-A\n@ARG\nM=D\n@SP\nD=M\n@LCL\nM=D\n@");
    append_str(&mut out, name.as_str());
    append_str(&mut out, "\n0;JMP\n(");
    append_chars(&mut out, &ret);
    append_str(&mut out, ")\n");
    proof {
        assert(out@ =~= call_asm(name@, nargs as int, counter as nat));
    }
    out
}

/// Translates a run of parsed commands to symbolic assembly, minting unique
/// labels from a counter that starts at zero for this run. Fails, with no
/// partial output, exactly when some command names an unrecognized segment
/// or operation.
pub fn convert_to_asm(parsed_content: &[CommandType]) -> (r: Result<String, VmError>)
    requires
        parsed_content@.len() < 0xffff_ffff_ffff_ffff,
    ensures
        (match (r, translated(cmd_views(parsed_content@))) {
            (Ok(s), Ok(p)) => s@ == p.0,
            (Err(e1), Err(e2)) => e1 == e2,
            _ => false,
        }),
{
    let ghost views = cmd_views(parsed_content@);
    let n = parsed_content.len();
    let mut out: Vec<char> = Vec::new();
    let mut ctr: u64 = 0;
    let mut i: usize = 0;
    proof {
        assert(out@ =~= Seq::<char>::empty());
    }
    while i < n
        invariant
            i <= n,
            n == parsed_content@.len() < 0xffff_ffff_ffff_ffff,
            views == cmd_views(parsed_content@),
            gen_state(views, i as int) == Ok::<_, VmError>((out@, ctr as nat)),
            ctr <= i,
        decreases n - i,
    {
        let ghost pre = out@;
        proof {
            assert(views[i as int] == parsed_content@[i as int]@);
        }
        match &parsed_content[i] {
            CommandType::Push(seg, idx) => {
                match push_code(seg, *idx) {
                    Some(v) => {
                        append_chars(&mut out, &v);
                    },
                    None => {
                        proof {
                            lemma_gen_err_persists(views, i + 1, n as int);
                        }
                        return Err(VmError::UnsupportedSegment);
                    },
                }
            },
            CommandType::Pop(seg, idx) => {
                match pop_code(seg, *idx) {
                    Some(v) => {
                        append_chars(&mut out, &v);
                    },
                    None => {
                        proof {
                            lemma_gen_err_persists(views, i + 1, n as int);
                        }
                        return Err(VmError::UnsupportedSegment);
                    },
                }
            },
            CommandType::Arithmetic(op) => {
                match arith_code(op.as_str(), ctr) {
                    Ok(p) => {
                        append_chars(&mut out, &p.0);
                        ctr = p.1;
                    },
                    Err(e) => {
                        proof {
                            lemma_gen_err_persists(views, i + 1, n as int);
                        }
                        return Err(e);
                    },
                }
            },
            CommandType::Label(l) => {
                out.push('(');
                append_str(&mut out, l.as_str());
                append_str(&mut out, ")\n");
                proof {
                    assert(out@ =~= pre + label_asm(l@));
                }
            },
            CommandType::Goto(l) => {
                out.push('@');
                append_str(&mut out, l.as_str());
                append_str(&mut out, "\n0;JMP\n");
                proof {
                    assert(out@ =~= pre + goto_asm(l@));
                }
            },
            CommandType::If(l) => {
                append_str(&mut out, "@SP\nAM=M-1\nD=M\n@");
                append_str(&mut out, l.as_str());
                append_str(&mut out, "\nD;JNE\n");
                proof {
                    assert(out@ =~= pre + if_goto_asm(l@));
                }
            },
            CommandType::Function(name, num_locals) => {
                let v = function_code(name, *num_locals);
                append_chars(&mut out, &v);
            },
            CommandType::Return => {
                append_str(
                    &mut out,
                    "@LCL\nD=M\n@R14\nM=D\n@5\nA=D-A\nD=M\n@R15\nM=D\n@SP\nA=M-1\nD=M\n@ARG\nA=M\nM=D\nD=A+1\n@SP\nM=D\n@R14\nAM=M-1\nD=M\n@THAT\nM=D\n@R14\nAM=M-1\nD=M\n@THIS\nM=D\n@R14\nAM=M-1\nD=M\n@ARG\nM=D\n@R14\nAM=M-1\nD=M\n@LCL\nM=D\n@R15\nA=M\n0;JMP\n",
                );
            },
            CommandType::Call(name, num_args) => {
                let v = call_code(name, *num_args, ctr);
                append_chars(&mut out, &v);
                ctr = ctr + 1;
            },
        }
        i = i + 1;
    }
    Ok(chars_to_string(&out))
}

/// Translation is a pure function of the command run: two independent runs,
/// each with its own counter state, produce identical output.
pub proof fn lemma_translation_deterministic(
    cmds: Seq<Cmd>,
    first: Result<(Seq<char>, nat), VmError>,
    second: Result<(Seq<char>, nat), VmError>,
)
    requires
        first == translated(cmds),
        second == translated(cmds),
    ensures
        first == second,
{
}

} // verus!
