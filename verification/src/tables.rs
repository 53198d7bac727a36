//! The fixed encoding tables of the target machine: computation, destination
//! and jump mnemonics to their bit patterns.
use vstd::prelude::*;

use crate::text::{str_eq, str_to_chars};

verus! {

/// The 7-bit pattern of a computation mnemonic, or `None` for an
/// unrecognized one.
pub open spec fn comp_code(c: Seq<char>) -> Option<Seq<char>> {
    if c == "0"@ {
        Some("0101010"@)
    } else if c == "1"@ {
        Some("0111111"@)
    } else if c == "-1"@ {
        Some("0111010"@)
    } else if c == "D"@ {
        Some("0001100"@)
    } else if c == "A"@ {
        Some("0110000"@)
    } else if c == "!D"@ {
        Some("0001101"@)
    } else if c == "!A"@ {
        Some("0110001"@)
    } else if c == "-D"@ {
        Some("0001111"@)
    } else if c == "-A"@ {
        Some("0110011"@)
    } else if c == "D+1"@ {
        Some("0011111"@)
    } else if c == "A+1"@ {
        Some("0110111"@)
    } else if c == "D-1"@ {
        Some("0001110"@)
    } else if c == "A-1"@ {
        Some("0110010"@)
    } else if c == "D+A"@ {
        Some("0000010"@)
    } else if c == "D-A"@ {
        Some("0010011"@)
    } else if c == "A-D"@ {
        Some("0000111"@)
    } else if c == "D&A"@ {
        Some("0000000"@)
    } else if c == "D|A"@ {
        Some("0010101"@)
    } else if c == "M"@ {
        Some("1110000"@)
    } else if c == "!M"@ {
        Some("1110001"@)
    } else if c == "-M"@ {
        Some("1110011"@)
    } else if c == "M+1"@ {
        Some("1110111"@)
    } else if c == "M-1"@ {
        Some("1110010"@)
    } else if c == "D+M"@ {
        Some("1000010"@)
    } else if c == "D-M"@ {
        Some("1010011"@)
    } else if c == "M-D"@ {
        Some("1000111"@)
    } else if c == "D&M"@ {
        Some("1000000"@)
    } else if c == "D|M"@ {
        Some("1010101"@)
    } else {
        None
    }
}

/// The 3-bit pattern of an optional destination mnemonic: absence and the
/// explicit `null` mnemonic both encode as the null pattern.
pub open spec fn dest_code(d: Option<Seq<char>>) -> Option<Seq<char>> {
    let s = if d is Some {
        d->0
    } else {
        "null"@
    };
    if s == "null"@ {
        Some("000"@)
    } else if s == "M"@ {
        Some("001"@)
    } else if s == "D"@ {
        Some("010"@)
    } else if s == "MD"@ {
        Some("011"@)
    } else if s == "A"@ {
        Some("100"@)
    } else if s == "AM"@ {
        Some("101"@)
    } else if s == "AD"@ {
        Some("110"@)
    } else if s == "AMD"@ {
        Some("111"@)
    } else {
        None
    }
}

/// The 3-bit pattern of an optional jump mnemonic: absence and the explicit
/// `null` mnemonic both encode as the null pattern.
pub open spec fn jump_code(j: Option<Seq<char>>) -> Option<Seq<char>> {
    let s = if j is Some {
        j->0
    } else {
        "null"@
    };
    if s == "null"@ {
        Some("000"@)
    } else if s == "JGT"@ {
        Some("001"@)
    } else if s == "JEQ"@ {
        Some("010"@)
    } else if s == "JGE"@ {
        Some("011"@)
    } else if s == "JLT"@ {
        Some("100"@)
    } else if s == "JNE"@ {
        Some("101"@)
    } else if s == "JLE"@ {
        Some("110"@)
    } else {
        if s == "JMP"@ {
            Some("111"@)
        } else {
            None
        }
    }
}

/// Looks a computation mnemonic up in the fixed table.
pub fn comp_bits(c: &str) -> (r: Option<Vec<char>>)
    ensures
        (match r {
            Some(v) => comp_code(c@) == Some(v@),
            None => comp_code(c@) is None,
        }),
{
    if str_eq(c, "0") {
        Some(str_to_chars("0101010"))
    } else if str_eq(c, "1") {
        Some(str_to_chars("0111111"))
    } else if str_eq(c, "-1") {
        Some(str_to_chars("0111010"))
    } else if str_eq(c, "D") {
        Some(str_to_chars("0001100"))
    } else if str_eq(c, "A") {
        Some(str_to_chars("0110000"))
    } else if str_eq(c, "!D") {
        Some(str_to_chars("0001101"))
    } else if str_eq(c, "!A") {
        Some(str_to_chars("0110001"))
    } else if str_eq(c, "-D") {
        Some(str_to_chars("0001111"))
    } else if str_eq(c, "-A") {
        Some(str_to_chars("0110011"))
    } else if str_eq(c, "D+1") {
        Some(str_to_chars("0011111"))
    } else if str_eq(c, "A+1") {
        Some(str_to_chars("0110111"))
    } else if str_eq(c, "D-1") {
        Some(str_to_chars("0001110"))
    } else if str_eq(c, "A-1") {
        Some(str_to_chars("0110010"))
    } else if str_eq(c, "D+A") {
        Some(str_to_chars("0000010"))
    } else if str_eq(c, "D-A") {
        Some(str_to_chars("0010011"))
    } else if str_eq(c, "A-D") {
        Some(str_to_chars("0000111"))
    } else if str_eq(c, "D&A") {
        Some(str_to_chars("0000000"))
    } else if str_eq(c, "D|A") {
        Some(str_to_chars("0010101"))
    } else if str_eq(c, "M") {
        Some(str_to_chars("1110000"))
    } else if str_eq(c, "!M") {
        Some(str_to_chars("1110001"))
    } else if str_eq(c, "-M") {
        Some(str_to_chars("1110011"))
    } else if str_eq(c, "M+1") {
        Some(str_to_chars("1110111"))
    } else if str_eq(c, "M-1") {
        Some(str_to_chars("1110010"))
    } else if str_eq(c, "D+M") {
        Some(str_to_chars("1000010"))
    } else if str_eq(c, "D-M") {
        Some(str_to_chars("1010011"))
    } else if str_eq(c, "M-D") {
        Some(str_to_chars("1000111"))
    } else if str_eq(c, "D&M") {
        Some(str_to_chars("1000000"))
    } else if str_eq(c, "D|M") {
        Some(str_to_chars("1010101"))
    } else {
        None
    }
}

/// Looks an optional destination mnemonic up in the fixed table.
pub fn dest_bits(d: &Option<String>) -> (r: Option<Vec<char>>)
    ensures
        (match r {
            Some(v) => dest_code(view_opt_string(*d)) == Some(v@),
            None => dest_code(view_opt_string(*d)) is None,
        }),
{
    let s: &str = match d {
        Some(s) => s.as_str(),
        None => "null",
    };
    proof {
        if d is None {
            assert(s@ == "null"@);
        }
    }
    if str_eq(s, "null") {
        Some(str_to_chars("000"))
    } else if str_eq(s, "M") {
        Some(str_to_chars("001"))
    } else if str_eq(s, "D") {
        Some(str_to_chars("010"))
    } else if str_eq(s, "MD") {
        Some(str_to_chars("011"))
    } else if str_eq(s, "A") {
        Some(str_to_chars("100"))
    } else if str_eq(s, "AM") {
        Some(str_to_chars("101"))
    } else if str_eq(s, "AD") {
        Some(str_to_chars("110"))
    } else if str_eq(s, "AMD") {
        Some(str_to_chars("111"))
    } else {
        None
    }
}

/// Looks an optional jump mnemonic up in the fixed table.
pub fn jump_bits(j: &Option<String>) -> (r: Option<Vec<char>>)
    ensures
        (match r {
            Some(v) => jump_code(view_opt_string(*j)) == Some(v@),
            None => jump_code(view_opt_string(*j)) is None,
        }),
{
    let s: &str = match j {
        Some(s) => s.as_str(),
        None => "null",
    };
    proof {
        if j is None {
            assert(s@ == "null"@);
        }
    }
    if str_eq(s, "null") {
        Some(str_to_chars("000"))
    } else if str_eq(s, "JGT") {
        Some(str_to_chars("001"))
    } else if str_eq(s, "JEQ") {
        Some(str_to_chars("010"))
    } else if str_eq(s, "JGE") {
        Some(str_to_chars("011"))
    } else if str_eq(s, "JLT") {
        Some(str_to_chars("100"))
    } else if str_eq(s, "JNE") {
        Some(str_to_chars("101"))
    } else if str_eq(s, "JLE") {
        Some(str_to_chars("110"))
    } else if str_eq(s, "JMP") {
        Some(str_to_chars("111"))
    } else {
        None
    }
}

/// The view of an optional owned string as an optional character sequence.
pub open spec fn view_opt_string(o: Option<String>) -> Option<Seq<char>> {
    match o {
        Some(s) => Some(s@),
        None => None,
    }
}

} // verus!
