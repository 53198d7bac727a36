//! The VM command model and parser: one command per recognizable source
//! line; lines that match no command shape are silently skipped.
use vstd::prelude::*;

use crate::assembler::is_comment_line;
use crate::numerals::{
    dec_val, dec_val_signed, is_dec_i16, is_dec_usize, parse_i16_chars, parse_usize_chars,
};
use crate::text::{
    chars_eq_str, chars_to_string, lines_of, split_lines, split_ws, str_to_chars, tokenize,
    trim_chars, trimmed, views_of,
};

verus! {

/// A parsed VM command.
pub enum CommandType {
    Arithmetic(String),
    Push(String, i16),
    Pop(String, i16),
    Label(String),
    Goto(String),
    If(String),
    Function(String, usize),
    Return,
    Call(String, usize),
}

/// The mathematical model of a command: the same shape over character
/// sequences.
pub enum Cmd {
    Arithmetic(Seq<char>),
    Push(Seq<char>, i16),
    Pop(Seq<char>, i16),
    Label(Seq<char>),
    Goto(Seq<char>),
    If(Seq<char>),
    Function(Seq<char>, usize),
    Return,
    Call(Seq<char>, usize),
}

impl View for CommandType {
    type V = Cmd;

    open spec fn view(&self) -> Cmd {
        match *self {
            CommandType::Arithmetic(op) => Cmd::Arithmetic(op@),
            CommandType::Push(seg, i) => Cmd::Push(seg@, i),
            CommandType::Pop(seg, i) => Cmd::Pop(seg@, i),
            CommandType::Label(l) => Cmd::Label(l@),
            CommandType::Goto(l) => Cmd::Goto(l@),
            CommandType::If(l) => Cmd::If(l@),
            CommandType::Function(f, n) => Cmd::Function(f@, n),
            CommandType::Return => Cmd::Return,
            CommandType::Call(f, n) => Cmd::Call(f@, n),
        }
    }
}

/// The views of a sequence of commands.
pub open spec fn cmd_views(v: Seq<CommandType>) -> Seq<Cmd> {
    v.map_values(|c: CommandType| c@)
}

/// Whether `op` is one of the nine arithmetic-logical mnemonics.
pub open spec fn is_arith_mnemonic(op: Seq<char>) -> bool {
    op == "add"@ || op == "sub"@ || op == "neg"@ || op == "eq"@ || op == "gt"@ || op == "lt"@ || op
        == "and"@ || op == "or"@ || op == "not"@
}

/// The command a source line denotes, or `None` for a blank line, a comment,
/// or a line that matches no recognized command shape (such a line is
/// skipped, not an error).
pub open spec fn parse_line_spec(line: Seq<char>) -> Option<Cmd> {
    let t = trimmed(line);
    if t.len() == 0 || is_comment_line(t) {
        None
    } else {
        let toks = split_ws(t);
        if toks.len() == 0 {
            None
        } else if toks[0] == "push"@ {
            if toks.len() == 3 && is_dec_i16(toks[2]) {
                Some(Cmd::Push(toks[1], dec_val_signed(toks[2]) as i16))
            } else {
                None
            }
        } else if toks[0] == "pop"@ {
            if toks.len() == 3 && is_dec_i16(toks[2]) {
                Some(Cmd::Pop(toks[1], dec_val_signed(toks[2]) as i16))
            } else {
                None
            }
        } else if toks[0] == "label"@ {
            if toks.len() == 2 {
                Some(Cmd::Label(toks[1]))
            } else {
                None
            }
        } else if toks[0] == "goto"@ {
            if toks.len() == 2 {
                Some(Cmd::Goto(toks[1]))
            } else {
                None
            }
        } else if toks[0] == "if-goto"@ {
            if toks.len() == 2 {
                Some(Cmd::If(toks[1]))
            } else {
                None
            }
        } else if toks[0] == "function"@ {
            if toks.len() == 3 && is_dec_usize(toks[2]) {
                Some(Cmd::Function(toks[1], dec_val(toks[2]) as usize))
            } else {
                None
            }
        } else if toks[0] == "call"@ {
            if toks.len() == 3 && is_dec_usize(toks[2]) {
                Some(Cmd::Call(toks[1], dec_val(toks[2]) as usize))
            } else {
                None
            }
        } else if toks[0] == "return"@ {
            if toks.len() == 1 {
                Some(Cmd::Return)
            } else {
                None
            }
        } else if is_arith_mnemonic(toks[0]) {
            if toks.len() == 1 {
                Some(Cmd::Arithmetic(toks[0]))
            } else {
                None
            }
        } else {
            None
        }
    }
}

/// Parses one source line into a command; blank lines, comments, and lines
/// matching no recognized command shape yield `None`.
pub fn parse_line(line: &str) -> (r: Option<CommandType>)
    ensures
        (match (r, parse_line_spec(line@)) {
            (Some(c), Some(s)) => c@ == s,
            (None, None) => true,
            _ => false,
        }),
{
    let chars = str_to_chars(line);
    parse_line_chars(&chars)
}

/// The character-vector form of `parse_line`.
pub fn parse_line_chars(line: &Vec<char>) -> (r: Option<CommandType>)
    ensures
        (match (r, parse_line_spec(line@)) {
            (Some(c), Some(s)) => c@ == s,
            (None, None) => true,
            _ => false,
        }),
{
    let t = trim_chars(line);
    let tl = t.len();
    if tl == 0 || (tl >= 2 && t[0] == '/' && t[1] == '/') {
        return None;
    }
    let toks = tokenize(&t);
    proof {
        assert(views_of(toks@) == split_ws(t@));
    }
    if toks.len() == 0 {
        return None;
    }
    let kw = &toks[0];
    proof {
        assert(kw@ == split_ws(t@)[0]);
    }
    if chars_eq_str(kw, "push") {
        if toks.len() == 3 {
            proof {
                assert(toks@[1]@ == split_ws(t@)[1]);
                assert(toks@[2]@ == split_ws(t@)[2]);
            }
            match parse_i16_chars(&toks[2]) {
                Some(v) => Some(CommandType::Push(chars_to_string(&toks[1]), v)),
                None => None,
            }
        } else {
            None
        }
    } else if chars_eq_str(kw, "pop") {
        if toks.len() == 3 {
            proof {
                assert(toks@[1]@ == split_ws(t@)[1]);
                assert(toks@[2]@ == split_ws(t@)[2]);
            }
            match parse_i16_chars(&toks[2]) {
                Some(v) => Some(CommandType::Pop(chars_to_string(&toks[1]), v)),
                None => None,
            }
        } else {
            None
        }
    } else if chars_eq_str(kw, "label") {
        if toks.len() == 2 {
            proof {
                assert(toks@[1]@ == split_ws(t@)[1]);
            }
            Some(CommandType::Label(chars_to_string(&toks[1])))
        } else {
            None
        }
    } else if chars_eq_str(kw, "goto") {
        if toks.len() == 2 {
            proof {
                assert(toks@[1]@ == split_ws(t@)[1]);
            }
            Some(CommandType::Goto(chars_to_string(&toks[1])))
        } else {
            None
        }
    } else if chars_eq_str(kw, "if-goto") {
        if toks.len() == 2 {
            proof {
                assert(toks@[1]@ == split_ws(t@)[1]);
            }
            Some(CommandType::If(chars_to_string(&toks[1])))
        } else {
            None
        }
    } else if chars_eq_str(kw, "function") {
        if toks.len() == 3 {
            proof {
                assert(toks@[1]@ == split_ws(t@)[1]);
                assert(toks@[2]@ == split_ws(t@)[2]);
            }
            match parse_usize_chars(&toks[2]) {
                Some(n) => Some(CommandType::Function(chars_to_string(&toks[1]), n)),
                None => None,
            }
        } else {
            None
        }
    } else if chars_eq_str(kw, "call") {
        if toks.len() == 3 {
            proof {
                assert(toks@[1]@ == split_ws(t@)[1]);
                assert(toks@[2]@ == split_ws(t@)[2]);
            }
            match parse_usize_chars(&toks[2]) {
                Some(n) => Some(CommandType::Call(chars_to_string(&toks[1]), n)),
                None => None,
            }
        } else {
            None
        }
    } else if chars_eq_str(kw, "return") {
        if toks.len() == 1 {
            Some(CommandType::Return)
        } else {
            None
        }
    } else if chars_eq_str(kw, "add") || chars_eq_str(kw, "sub") || chars_eq_str(kw, "neg")
        || chars_eq_str(kw, "eq") || chars_eq_str(kw, "gt") || chars_eq_str(kw, "lt")
        || chars_eq_str(kw, "and") || chars_eq_str(kw, "or") || chars_eq_str(kw, "not") {
        if toks.len() == 1 {
            Some(CommandType::Arithmetic(chars_to_string(kw)))
        } else {
            None
        }
    } else {
        None
    }
}

/// The commands of the first `i` lines, in order; unrecognizable lines
/// contribute nothing.
pub open spec fn parsed_commands(ls: Seq<Seq<char>>, i: int) -> Seq<Cmd>
    decreases i,
{
    if i <= 0 {
        Seq::empty()
    } else {
        let rest = parsed_commands(ls, i - 1);
        match parse_line_spec(ls[i - 1]) {
            Some(c) => rest.push(c),
            None => rest,
        }
    }
}

/// The commands of a whole source text, line by line.
pub open spec fn parse_program(s: Seq<char>) -> Seq<Cmd> {
    parsed_commands(split_lines(s), split_lines(s).len() as int)
}

/// Parses a source text into its commands, one per recognizable line,
/// skipping blank lines, comments, and unrecognizable lines.
pub fn parser(file_content: &str) -> (r: Vec<CommandType>)
    ensures
        cmd_views(r@) == parse_program(file_content@),
{
    let chars = str_to_chars(file_content);
    let all_lines = lines_of(&chars);
    let n = all_lines.len();
    let ghost ls = split_lines(file_content@);
    let mut r: Vec<CommandType> = Vec::new();
    let mut i: usize = 0;
    proof {
        assert(cmd_views(r@) =~= parsed_commands(ls, 0));
    }
    while i < n
        invariant
            i <= n,
            n == all_lines@.len(),
            views_of(all_lines@) == ls,
            cmd_views(r@) == parsed_commands(ls, i as int),
        decreases n - i,
    {
        proof {
            assert(all_lines@[i as int]@ == ls[i as int]);
        }
        match parse_line_chars(&all_lines[i]) {
            Some(c) => {
                let ghost pre = r@;
                r.push(c);
                proof {
                    assert(cmd_views(r@) =~= cmd_views(pre).push(c@));
                }
            },
            None => {},
        }
        i = i + 1;
    }
    r
}

} // verus!
