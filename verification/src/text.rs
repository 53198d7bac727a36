//! Character-level text utilities shared by the assembler and the VM
//! translator: trimming, tokenizing, line splitting, and decimal numerals.
//!
//! All parsing works on vectors of characters, whose mathematical model is a
//! `Seq<char>`; the one bridge back to `String` is `chars_to_string`.
use vstd::prelude::*;

verus! {

/// The whitespace characters recognized when trimming and tokenizing
/// (the ASCII whitespace set).
pub open spec fn is_space_char(c: char) -> bool {
    c == ' ' || c == '\t' || c == '\n' || c == '\r' || c == '\u{b}' || c == '\u{c}'
}

/// Length of the longest prefix of `s` whose characters all satisfy `p`.
pub open spec fn prefix_len(s: Seq<char>, p: spec_fn(char) -> bool) -> nat
    decreases s.len(),
{
    if s.len() == 0 || !p(s[0]) {
        0
    } else {
        1 + prefix_len(s.drop_first(), p)
    }
}

/// `prefix_len` is pinned down by any witness position `m`: all characters
/// before `m` satisfy `p` and the one at `m` (if any) does not.
pub proof fn lemma_prefix_len_at(s: Seq<char>, p: spec_fn(char) -> bool, m: int)
    requires
        0 <= m <= s.len(),
        forall|k: int| 0 <= k < m ==> p(s[k]),
        m == s.len() || !p(s[m]),
    ensures
        prefix_len(s, p) == m,
    decreases m,
{
    if m == 0 {
    } else {
        assert(p(s[0]));
        let t = s.drop_first();
        assert(forall|k: int| 0 <= k < m - 1 ==> t[k] == s[k + 1] && p(t[k]));
        lemma_prefix_len_at(t, p, m - 1);
    }
}

/// `s` with its leading whitespace removed.
pub open spec fn trim_front(s: Seq<char>) -> Seq<char>
    decreases s.len(),
{
    if s.len() > 0 && is_space_char(s[0]) {
        trim_front(s.drop_first())
    } else {
        s
    }
}

/// `s` with its trailing whitespace removed.
pub open spec fn trim_back(s: Seq<char>) -> Seq<char>
    decreases s.len(),
{
    if s.len() > 0 && is_space_char(s[s.len() - 1]) {
        trim_back(s.drop_last())
    } else {
        s
    }
}

/// `s` with both leading and trailing whitespace removed, the model of
/// `trim_chars`.
pub open spec fn trimmed(s: Seq<char>) -> Seq<char> {
    trim_back(trim_front(s))
}

proof fn lemma_trim_front_at(s: Seq<char>, m: int)
    requires
        0 <= m <= s.len(),
        forall|k: int| 0 <= k < m ==> is_space_char(s[k]),
        m == s.len() || !is_space_char(s[m]),
    ensures
        trim_front(s) == s.subrange(m, s.len() as int),
    decreases m,
{
    if m == 0 {
        assert(trim_front(s) =~= s.subrange(0, s.len() as int));
    } else {
        let t = s.drop_first();
        assert(forall|k: int| 0 <= k < m - 1 ==> t[k] == s[k + 1] && is_space_char(t[k]));
        lemma_trim_front_at(t, m - 1);
        assert(t.subrange(m - 1, t.len() as int) =~= s.subrange(m, s.len() as int));
    }
}

proof fn lemma_trim_back_at(s: Seq<char>, m: int)
    requires
        0 <= m <= s.len(),
        forall|k: int| m <= k < s.len() ==> is_space_char(s[k]),
        m == 0 || !is_space_char(s[m - 1]),
    ensures
        trim_back(s) == s.subrange(0, m),
    decreases s.len(),
{
    if s.len() > 0 && is_space_char(s[s.len() - 1]) {
        let t = s.drop_last();
        assert(forall|k: int| m <= k < t.len() ==> t[k] == s[k] && is_space_char(t[k]));
        lemma_trim_back_at(t, m);
        assert(t.subrange(0, m) =~= s.subrange(0, m));
    } else {
        assert(m == s.len());
        assert(trim_back(s) =~= s.subrange(0, m));
    }
}

/// Removes leading and trailing whitespace.
pub fn trim_chars(s: &Vec<char>) -> (r: Vec<char>)
    ensures
        r@ == trimmed(s@),
{
    let n = s.len();
    let mut start: usize = 0;
    while start < n && is_space(s[start])
        invariant
            start <= n,
            forall|k: int| 0 <= k < start ==> is_space_char(s@[k]),
        decreases n - start,
    {
        start = start + 1;
    }
    let mut end: usize = n;
    while end > start && is_space(s[end - 1])
        invariant
            start <= end <= n,
            forall|k: int| end <= k < n ==> is_space_char(s@[k]),
        decreases end,
    {
        end = end - 1;
    }
    let mut r: Vec<char> = Vec::new();
    let mut i: usize = start;
    while i < end
        invariant
            start <= i <= end <= n,
            n == s@.len(),
            r@ == s@.subrange(start as int, i as int),
        decreases end - i,
    {
        r.push(s[i]);
        assert(r@ =~= s@.subrange(start as int, i + 1));
        i = i + 1;
    }
    proof {
        lemma_trim_front_at(s@, start as int);
        let t = s@.subrange(start as int, n as int);
        assert(forall|k: int| end - start <= k < t.len() ==> t[k] == s@[k + start]
            && is_space_char(t[k]));
        if end > start {
            assert(t[end - start - 1] == s@[end - 1]);
        }
        lemma_trim_back_at(t, end - start);
        assert(t.subrange(0, end - start) =~= s@.subrange(start as int, end as int));
    }
    r
}

/// Whether `c` is in the recognized whitespace set.
pub fn is_space(c: char) -> (r: bool)
    ensures
        r == is_space_char(c),
{
    c == ' ' || c == '\t' || c == '\n' || c == '\r' || c == '\u{b}' || c == '\u{c}'
}

/// Character-wise equality of two character vectors.
pub fn chars_eq(a: &Vec<char>, b: &Vec<char>) -> (r: bool)
    ensures
        r == (a@ == b@),
{
    if a.len() != b.len() {
        return false;
    }
    let n = a.len();
    let mut i: usize = 0;
    while i < n
        invariant
            i <= n,
            n == a@.len() == b@.len(),
            forall|k: int| 0 <= k < i ==> a@[k] == b@[k],
        decreases n - i,
    {
        if a[i] != b[i] {
            return false;
        }
        i = i + 1;
    }
    proof {
        assert(a@ =~= b@);
    }
    true
}

/// Character-wise equality of a character vector and a string slice.
pub fn chars_eq_str(a: &Vec<char>, s: &str) -> (r: bool)
    ensures
        r == (a@ == s@),
{
    let n = s.unicode_len();
    if a.len() != n {
        return false;
    }
    let mut i: usize = 0;
    while i < n
        invariant
            i <= n,
            n == a@.len() == s@.len(),
            forall|k: int| 0 <= k < i ==> a@[k] == s@[k],
        decreases n - i,
    {
        if a[i] != s.get_char(i) {
            return false;
        }
        i = i + 1;
    }
    proof {
        assert(a@ =~= s@);
    }
    true
}

/// Character-wise equality of two string slices.
pub fn str_eq(a: &str, b: &str) -> (r: bool)
    ensures
        r == (a@ == b@),
{
    let n = a.unicode_len();
    if b.unicode_len() != n {
        return false;
    }
    let mut i: usize = 0;
    while i < n
        invariant
            i <= n,
            n == a@.len() == b@.len(),
            forall|k: int| 0 <= k < i ==> a@[k] == b@[k],
        decreases n - i,
    {
        if a.get_char(i) != b.get_char(i) {
            return false;
        }
        i = i + 1;
    }
    proof {
        assert(a@ =~= b@);
    }
    true
}

/// The characters of a string slice as a vector.
pub fn str_to_chars(s: &str) -> (r: Vec<char>)
    ensures
        r@ == s@,
{
    let n = s.unicode_len();
    let mut r: Vec<char> = Vec::new();
    let mut i: usize = 0;
    while i < n
        invariant
            i <= n,
            n == s@.len(),
            r@ == s@.subrange(0, i as int),
        decreases n - i,
    {
        r.push(s.get_char(i));
        assert(r@ =~= s@.subrange(0, i + 1));
        i = i + 1;
    }
    proof {
        assert(s@.subrange(0, n as int) =~= s@);
    }
    r
}

/// Relies on `String`'s `FromIterator<char>`: collecting an iterator of
/// characters yields the string of exactly those characters, in order.
#[verifier::external_body]
pub fn chars_to_string(v: &Vec<char>) -> (r: String)
    ensures
        r@ == v@,
{
    v.iter().collect()
}

/// A copy of the characters of `s` from `from` (inclusive) to `to`
/// (exclusive).
pub fn sub_chars(s: &Vec<char>, from: usize, to: usize) -> (r: Vec<char>)
    requires
        from <= to <= s@.len(),
    ensures
        r@ == s@.subrange(from as int, to as int),
{
    let mut r: Vec<char> = Vec::new();
    let mut i: usize = from;
    while i < to
        invariant
            from <= i <= to <= s@.len(),
            r@ == s@.subrange(from as int, i as int),
        decreases to - i,
    {
        r.push(s[i]);
        assert(r@ =~= s@.subrange(from as int, i + 1));
        i = i + 1;
    }
    r
}

/// Appends the characters of `src` to `dst`.
pub fn append_chars(dst: &mut Vec<char>, src: &Vec<char>)
    ensures
        final(dst)@ == old(dst)@ + src@,
{
    let n = src.len();
    let mut i: usize = 0;
    while i < n
        invariant
            i <= n,
            n == src@.len(),
            dst@ == old(dst)@ + src@.subrange(0, i as int),
        decreases n - i,
    {
        dst.push(src[i]);
        assert(dst@ =~= old(dst)@ + src@.subrange(0, i + 1));
        i = i + 1;
    }
    proof {
        assert(old(dst)@ + src@.subrange(0, n as int) =~= old(dst)@ + src@);
    }
}

/// Appends the characters of the string slice `src` to `dst`.
pub fn append_str(dst: &mut Vec<char>, src: &str)
    ensures
        final(dst)@ == old(dst)@ + src@,
{
    let n = src.unicode_len();
    let mut i: usize = 0;
    while i < n
        invariant
            i <= n,
            n == src@.len(),
            dst@ == old(dst)@ + src@.subrange(0, i as int),
        decreases n - i,
    {
        dst.push(src.get_char(i));
        assert(dst@ =~= old(dst)@ + src@.subrange(0, i + 1));
        i = i + 1;
    }
    proof {
        assert(old(dst)@ + src@.subrange(0, n as int) =~= old(dst)@ + src@);
    }
}

/// The position of the first occurrence of `c` in `s`, or the length of `s`
/// when `c` does not occur.
pub fn char_pos(s: &Vec<char>, c: char) -> (r: usize)
    ensures
        r == prefix_len(s@, |x: char| x != c),
        r <= s@.len(),
        forall|k: int| 0 <= k < r ==> s@[k] != c,
        r < s@.len() ==> s@[r as int] == c,
{
    let n = s.len();
    let mut i: usize = 0;
    while i < n && s[i] != c
        invariant
            i <= n,
            n == s@.len(),
            forall|k: int| 0 <= k < i ==> s@[k] != c,
        decreases n - i,
    {
        i = i + 1;
    }
    proof {
        lemma_prefix_len_at(s@, |x: char| x != c, i as int);
    }
    i
}

/// The views of a sequence of character vectors.
pub open spec fn views_of(v: Seq<Vec<char>>) -> Seq<Seq<char>> {
    v.map_values(|t: Vec<char>| t@)
}

/// Length of the whitespace-free token at the front of `s`.
pub open spec fn token_len(s: Seq<char>) -> nat {
    prefix_len(s, |c: char| !is_space_char(c))
}

/// The whitespace-separated tokens of `s`, in order; the model of `tokenize`.
pub open spec fn split_ws(s: Seq<char>) -> Seq<Seq<char>>
    decreases s.len(),
{
    if s.len() == 0 {
        Seq::empty()
    } else if is_space_char(s[0]) {
        split_ws(s.subrange(1, s.len() as int))
    } else {
        let k = token_len(s) as int;
        if k >= s.len() {
            seq![s]
        } else {
            seq![s.subrange(0, k)] + split_ws(s.subrange(k, s.len() as int))
        }
    }
}

/// Splits into whitespace-separated tokens.
pub fn tokenize(s: &Vec<char>) -> (r: Vec<Vec<char>>)
    ensures
        views_of(r@) == split_ws(s@),
{
    let n = s.len();
    let mut r: Vec<Vec<char>> = Vec::new();
    let mut i: usize = 0;
    proof {
        assert(s@.subrange(0, n as int) =~= s@);
        assert(views_of(r@) + split_ws(s@) =~= split_ws(s@));
    }
    while i < n
        invariant
            i <= n,
            n == s@.len(),
            split_ws(s@) == views_of(r@) + split_ws(s@.subrange(i as int, n as int)),
        decreases n - i,
    {
        if is_space(s[i]) {
            proof {
                let rest = s@.subrange(i as int, n as int);
                assert(rest.subrange(1, rest.len() as int) =~= s@.subrange(i + 1, n as int));
            }
            i = i + 1;
        } else {
            let start = i;
            let mut tok: Vec<char> = Vec::new();
            while i < n && !is_space(s[i])
                invariant
                    start <= i <= n,
                    n == s@.len(),
                    tok@ == s@.subrange(start as int, i as int),
                    forall|k: int| start <= k < i ==> !is_space_char(s@[k]),
                    !is_space_char(s@[start as int]),
                decreases n - i,
            {
                tok.push(s[i]);
                assert(tok@ =~= s@.subrange(start as int, i + 1));
                i = i + 1;
            }
            proof {
                let rest = s@.subrange(start as int, n as int);
                let p = |c: char| !is_space_char(c);
                assert(forall|k: int| 0 <= k < i - start ==> rest[k] == s@[k + start] && p(rest[k]));
                if i < n {
                    assert(rest[i - start] == s@[i as int]);
                }
                lemma_prefix_len_at(rest, p, i - start);
                assert(token_len(rest) == i - start);
                if i == n {
                    assert(rest =~= tok@);
                    assert(split_ws(rest) == seq![tok@]);
                } else {
                    assert(rest.subrange(0, i - start) =~= tok@);
                    assert(rest.subrange(i - start, rest.len() as int) =~= s@.subrange(
                        i as int,
                        n as int,
                    ));
                    assert(split_ws(rest) == seq![tok@] + split_ws(s@.subrange(i as int, n as int)));
                }
                assert(views_of(r@.push(tok)) =~= views_of(r@).push(tok@));
                assert(views_of(r@) + split_ws(rest) =~= views_of(r@.push(tok)) + split_ws(
                    s@.subrange(i as int, n as int),
                ));
            }
            r.push(tok);
        }
    }
    proof {
        assert(s@.subrange(n as int, n as int).len() == 0);
        assert(views_of(r@) + split_ws(s@.subrange(n as int, n as int)) =~= views_of(r@));
    }
    r
}

/// Length of the newline-free prefix of `s`.
pub open spec fn line_len(s: Seq<char>) -> nat {
    prefix_len(s, |c: char| c != '\n')
}

/// A line with a trailing carriage return loses it (the carriage return of a
/// two-character line break).
pub open spec fn strip_cr(l: Seq<char>) -> Seq<char> {
    if l.len() > 0 && l.last() == '\r' {
        l.drop_last()
    } else {
        l
    }
}

/// The lines of `s`: split at each newline, dropping the line break itself
/// and the carriage return of a two-character break; a final line break ends
/// the last line rather than opening an empty one.
pub open spec fn split_lines(s: Seq<char>) -> Seq<Seq<char>>
    decreases s.len(),
{
    if s.len() == 0 {
        Seq::empty()
    } else {
        let k = line_len(s) as int;
        if k >= s.len() {
            seq![s]
        } else {
            seq![strip_cr(s.subrange(0, k))] + split_lines(s.subrange(k + 1, s.len() as int))
        }
    }
}

/// Splits into lines, the executable form of `split_lines`.
pub fn lines_of(s: &Vec<char>) -> (r: Vec<Vec<char>>)
    ensures
        views_of(r@) == split_lines(s@),
{
    let n = s.len();
    let mut r: Vec<Vec<char>> = Vec::new();
    let mut i: usize = 0;
    proof {
        assert(s@.subrange(0, n as int) =~= s@);
        assert(views_of(r@) + split_lines(s@) =~= split_lines(s@));
    }
    while i < n
        invariant
            i <= n,
            n == s@.len(),
            split_lines(s@) == views_of(r@) + split_lines(s@.subrange(i as int, n as int)),
        decreases n - i,
    {
        let start = i;
        let mut line: Vec<char> = Vec::new();
        while i < n && s[i] != '\n'
            invariant
                start <= i <= n,
                n == s@.len(),
                line@ == s@.subrange(start as int, i as int),
                forall|k: int| start <= k < i ==> s@[k] != '\n',
            decreases n - i,
        {
            line.push(s[i]);
            assert(line@ =~= s@.subrange(start as int, i + 1));
            i = i + 1;
        }
        proof {
            let rest = s@.subrange(start as int, n as int);
            let p = |c: char| c != '\n';
            assert(forall|k: int| 0 <= k < i - start ==> rest[k] == s@[k + start] && p(rest[k]));
            if i < n {
                assert(rest[i - start] == s@[i as int]);
            }
            lemma_prefix_len_at(rest, p, i - start);
        }
        if i == n {
            proof {
                let rest = s@.subrange(start as int, n as int);
                assert(rest =~= line@);
                assert(start < n);
                assert(split_lines(rest) == seq![line@]);
                assert(views_of(r@.push(line)) =~= views_of(r@).push(line@));
                assert(views_of(r@) + split_lines(rest) =~= views_of(r@.push(line))
                    + split_lines(s@.subrange(n as int, n as int)));
            }
            r.push(line);
        } else {
            if line.len() > 0 && line[line.len() - 1] == '\r' {
                line.pop();
                assert(line@ =~= strip_cr(s@.subrange(start as int, i as int)));
            }
            proof {
                let rest = s@.subrange(start as int, n as int);
                assert(rest.subrange(0, i - start) =~= s@.subrange(start as int, i as int));
                assert(rest.subrange(i - start + 1, rest.len() as int) =~= s@.subrange(
                    i + 1,
                    n as int,
                ));
                assert(line@ == strip_cr(s@.subrange(start as int, i as int)));
                assert(split_lines(rest) == seq![line@] + split_lines(s@.subrange(i + 1, n as int)));
                assert(views_of(r@.push(line)) =~= views_of(r@).push(line@));
                assert(views_of(r@) + split_lines(rest) =~= views_of(r@.push(line)) + split_lines(
                    s@.subrange(i + 1, n as int),
                ));
            }
            r.push(line);
            i = i + 1;
        }
    }
    proof {
        assert(views_of(r@) + split_lines(s@.subrange(n as int, n as int)) =~= views_of(r@));
    }
    r
}

} // verus!
