//! Decimal numerals over character sequences: their mathematical value,
//! bounded parsing, and rendering.
use vstd::prelude::*;

verus! {

pub open spec fn is_digit_char(c: char) -> bool {
    48 <= (c as u32) <= 57
}

/// The numeric value of a single decimal digit.
pub open spec fn digit_val(c: char) -> nat {
    ((c as u32) - 48) as nat
}

pub open spec fn all_digits(s: Seq<char>) -> bool {
    forall|k: int| 0 <= k < s.len() ==> is_digit_char(s[k])
}

/// The value of `s` read as a decimal numeral (most significant digit first).
pub open spec fn dec_val(s: Seq<char>) -> nat
    decreases s.len(),
{
    if s.len() == 0 {
        0
    } else {
        dec_val(s.drop_last()) * 10 + digit_val(s.last())
    }
}

/// `s` is a decimal numeral denoting a value that fits in 16 unsigned bits.
pub open spec fn is_dec_u16(s: Seq<char>) -> bool {
    s.len() > 0 && all_digits(s) && dec_val(s) <= 65535
}

/// `s` is a decimal numeral whose value fits in `usize`.
pub open spec fn is_dec_usize(s: Seq<char>) -> bool {
    s.len() > 0 && all_digits(s) && dec_val(s) <= usize::MAX
}

/// `s` is an optionally negated decimal numeral whose value fits in `i16`.
pub open spec fn is_dec_i16(s: Seq<char>) -> bool {
    if s.len() > 0 && s[0] == '-' {
        let t = s.subrange(1, s.len() as int);
        t.len() > 0 && all_digits(t) && dec_val(t) <= 32768
    } else {
        s.len() > 0 && all_digits(s) && dec_val(s) <= 32767
    }
}

/// The signed value of an optionally negated decimal numeral.
pub open spec fn dec_val_signed(s: Seq<char>) -> int {
    if s.len() > 0 && s[0] == '-' {
        -(dec_val(s.subrange(1, s.len() as int)) as int)
    } else {
        dec_val(s) as int
    }
}

/// The character for a single decimal digit.
pub open spec fn digit_char(d: nat) -> char {
    if d == 0 {
        '0'
    } else if d == 1 {
        '1'
    } else if d == 2 {
        '2'
    } else if d == 3 {
        '3'
    } else if d == 4 {
        '4'
    } else if d == 5 {
        '5'
    } else if d == 6 {
        '6'
    } else if d == 7 {
        '7'
    } else if d == 8 {
        '8'
    } else {
        '9'
    }
}

/// The decimal numeral of `n`, without leading zeros (except for `0` itself).
pub open spec fn dec_digits(n: nat) -> Seq<char>
    decreases n,
{
    if n < 10 {
        seq![digit_char(n)]
    } else {
        dec_digits(n / 10).push(digit_char(n % 10))
    }
}

/// The decimal numeral of a signed value, with a leading minus sign when
/// negative.
pub open spec fn dec_digits_signed(i: int) -> Seq<char> {
    if i < 0 {
        seq!['-'] + dec_digits((-i) as nat)
    } else {
        dec_digits(i as nat)
    }
}

pub fn is_digit(c: char) -> (r: bool)
    ensures
        r == is_digit_char(c),
{
    let x = c as u32;
    48 <= x && x <= 57
}

fn digit_of(c: char) -> (d: u32)
    requires
        is_digit_char(c),
    ensures
        d == digit_val(c),
        d <= 9,
{
    (c as u32) - 48
}

fn char_of_digit(d: u64) -> (c: char)
    requires
        d <= 9,
    ensures
        c == digit_char(d as nat),
{
    if d == 0 {
        '0'
    } else if d == 1 {
        '1'
    } else if d == 2 {
        '2'
    } else if d == 3 {
        '3'
    } else if d == 4 {
        '4'
    } else if d == 5 {
        '5'
    } else if d == 6 {
        '6'
    } else if d == 7 {
        '7'
    } else if d == 8 {
        '8'
    } else {
        '9'
    }
}

/// Renders `n` in decimal.
pub fn dec_chars_u64(n: u64) -> (r: Vec<char>)
    ensures
        r@ == dec_digits(n as nat),
    decreases n,
{
    if n < 10 {
        let mut r: Vec<char> = Vec::new();
        r.push(char_of_digit(n));
        proof {
            assert(r@ =~= seq![digit_char(n as nat)]);
        }
        r
    } else {
        let mut r = dec_chars_u64(n / 10);
        r.push(char_of_digit(n % 10));
        r
    }
}

/// Renders a signed value in decimal, with a leading minus sign when negative.
pub fn dec_chars_i64(i: i64) -> (r: Vec<char>)
    ensures
        r@ == dec_digits_signed(i as int),
{
    if i < 0 {
        let mut r: Vec<char> = Vec::new();
        r.push('-');
        let m: u64 = if i == i64::MIN {
            9223372036854775808u64
        } else {
            (-i) as u64
        };
        assert(m == -(i as int));
        let digits = dec_chars_u64(m);
        let mut k: usize = 0;
        while k < digits.len()
            invariant
                k <= digits@.len(),
                r@ == seq!['-'] + digits@.subrange(0, k as int),
            decreases digits@.len() - k,
        {
            r.push(digits[k]);
            assert(r@ =~= seq!['-'] + digits@.subrange(0, k + 1));
            k = k + 1;
        }
        proof {
            assert(digits@.subrange(0, digits@.len() as int) =~= digits@);
        }
        r
    } else {
        dec_chars_u64(i as u64)
    }
}

/// The binary numeral of `n`, exactly `w` digits wide (most significant
/// first, truncating above `2^w`).
pub open spec fn bin_digits(n: nat, w: nat) -> Seq<char>
    decreases w,
{
    if w == 0 {
        Seq::empty()
    } else {
        bin_digits(n / 2, (w - 1) as nat).push(
            if n % 2 == 1 {
                '1'
            } else {
                '0'
            },
        )
    }
}

/// The 16-bit binary rendering of a machine word.
pub open spec fn bin16(v: u16) -> Seq<char> {
    bin_digits(v as nat, 16)
}

fn bin_rec(n: u64, w: usize) -> (r: Vec<char>)
    ensures
        r@ == bin_digits(n as nat, w as nat),
    decreases w,
{
    if w == 0 {
        let r: Vec<char> = Vec::new();
        proof {
            assert(r@ =~= bin_digits(n as nat, 0));
        }
        r
    } else {
        let mut r = bin_rec(n / 2, w - 1);
        r.push(
            if n % 2 == 1 {
                '1'
            } else {
                '0'
            },
        );
        r
    }
}

/// Renders a machine word as sixteen binary digit characters.
pub fn bin16_chars(v: u16) -> (r: Vec<char>)
    ensures
        r@ == bin16(v),
{
    bin_rec(v as u64, 16)
}

proof fn lemma_dec_val_push(p: Seq<char>, c: char)
    ensures
        dec_val(p.push(c)) == dec_val(p) * 10 + digit_val(c),
{
    assert(p.push(c).drop_last() =~= p);
}

/// Parses an unsigned decimal numeral that fits in 16 bits; any other
/// character vector yields `None`.
pub fn parse_u16_chars(s: &Vec<char>) -> (r: Option<u16>)
    ensures
        r == (if is_dec_u16(s@) {
            Some(dec_val(s@) as u16)
        } else {
            None::<u16>
        }),
{
    let n = s.len();
    if n == 0 {
        return None;
    }
    let mut v: u32 = 0;
    let mut big: bool = false;
    let mut i: usize = 0;
    while i < n
        invariant
            i <= n,
            n == s@.len(),
            all_digits(s@.subrange(0, i as int)),
            !big ==> v == dec_val(s@.subrange(0, i as int)) && v <= 65535,
            big ==> dec_val(s@.subrange(0, i as int)) > 65535,
        decreases n - i,
    {
        let c = s[i];
        if !is_digit(c) {
            assert(!all_digits(s@));
            return None;
        }
        let d = digit_of(c);
        proof {
            lemma_dec_val_push(s@.subrange(0, i as int), c);
            assert(s@.subrange(0, i as int).push(c) =~= s@.subrange(0, i + 1));
        }
        if big {
            assert(dec_val(s@.subrange(0, i as int)) * 10 >= dec_val(s@.subrange(0, i as int)));
        } else {
            let w = v * 10 + d;
            if w > 65535 {
                big = true;
            } else {
                v = w;
            }
        }
        i = i + 1;
    }
    proof {
        assert(s@.subrange(0, n as int) =~= s@);
    }
    if big {
        None
    } else {
        Some(v as u16)
    }
}

/// Parses an unsigned decimal numeral that fits in `usize`; any other
/// character vector yields `None`.
pub fn parse_usize_chars(s: &Vec<char>) -> (r: Option<usize>)
    ensures
        r == (if is_dec_usize(s@) {
            Some(dec_val(s@) as usize)
        } else {
            None::<usize>
        }),
{
    let n = s.len();
    if n == 0 {
        return None;
    }
    let mut v: usize = 0;
    let mut big: bool = false;
    let mut i: usize = 0;
    while i < n
        invariant
            i <= n,
            n == s@.len(),
            all_digits(s@.subrange(0, i as int)),
            !big ==> v == dec_val(s@.subrange(0, i as int)),
            big ==> dec_val(s@.subrange(0, i as int)) > usize::MAX,
        decreases n - i,
    {
        let c = s[i];
        if !is_digit(c) {
            assert(!all_digits(s@));
            return None;
        }
        let d = digit_of(c);
        proof {
            lemma_dec_val_push(s@.subrange(0, i as int), c);
            assert(s@.subrange(0, i as int).push(c) =~= s@.subrange(0, i + 1));
        }
        if big {
            assert(dec_val(s@.subrange(0, i as int)) * 10 >= dec_val(s@.subrange(0, i as int)));
        } else {
            let step = v.checked_mul(10);
            match step {
                Some(w0) => {
                    match w0.checked_add(d as usize) {
                        Some(w) => {
                            v = w;
                        },
                        None => {
                            big = true;
                        },
                    }
                },
                None => {
                    big = true;
                    assert(v * 10 + digit_val(c) > usize::MAX);
                },
            }
        }
        i = i + 1;
    }
    proof {
        assert(s@.subrange(0, n as int) =~= s@);
    }
    if big {
        None
    } else {
        Some(v)
    }
}

/// Parses an optionally negated decimal numeral that fits in `i16`; any
/// other character vector yields `None`.
pub fn parse_i16_chars(s: &Vec<char>) -> (r: Option<i16>)
    ensures
        r == (if is_dec_i16(s@) {
            Some(dec_val_signed(s@) as i16)
        } else {
            None::<i16>
        }),
{
    let n = s.len();
    if n == 0 {
        return None;
    }
    if s[0] == '-' {
        let mut mag: Vec<char> = Vec::new();
        let mut i: usize = 1;
        while i < n
            invariant
                1 <= i <= n,
                n == s@.len(),
                mag@ == s@.subrange(1, i as int),
            decreases n - i,
        {
            mag.push(s[i]);
            assert(mag@ =~= s@.subrange(1, i + 1));
            i = i + 1;
        }
        match parse_u16_chars(&mag) {
            Some(v) => {
                if v <= 32768 {
                    Some((-(v as i32)) as i16)
                } else {
                    None
                }
            },
            None => None,
        }
    } else {
        match parse_u16_chars(s) {
            Some(v) => {
                if v <= 32767 {
                    Some(v as i16)
                } else {
                    None
                }
            },
            None => None,
        }
    }
}

} // verus!
