//! Character-level building blocks shared by the URL grammars and helpers.
use vstd::prelude::*;

verus! {

/// `s` begins with `lit`.
pub open spec fn starts(s: Seq<char>, lit: Seq<char>) -> bool {
    lit.len() <= s.len() && s.take(lit.len() as int) == lit
}

/// What is left of `s` once the literal `lit` has been taken off its front.
pub open spec fn after(s: Seq<char>, lit: Seq<char>) -> Seq<char> {
    s.skip(lit.len() as int)
}

/// No character of `t` is a line feed.
pub open spec fn no_newline(t: Seq<char>) -> bool {
    forall|i: int| 0 <= i < t.len() ==> t[i] != '\n'
}

pub proof fn lemma_skip_skip(s: Seq<char>, a: int, b: int)
    requires
        0 <= a,
        0 <= b,
        a + b <= s.len(),
    ensures
        s.skip(a).skip(b) == s.skip(a + b),
{
    assert(s.skip(a).skip(b) =~= s.skip(a + b));
}

/// The characters of `s`, one by one.
pub fn chars_of(s: &str) -> (r: Vec<char>)
    ensures
        r@ == s@,
{
    let n = s.unicode_len();
    let mut v: Vec<char> = Vec::new();
    let mut i: usize = 0;
    while i < n
        invariant
            n == s@.len(),
            i <= n,
            v@ == s@.take(i as int),
        decreases n - i,
    {
        let c = s.get_char(i);
        v.push(c);
        i += 1;
        assert(v@ =~= s@.take(i as int));
    }
    assert(v@ =~= s@);
    v
}

/// Whether the characters of `s` from index `i` on begin with `lit`; where they
/// do, the index just past it.
pub fn skip_lit(s: &Vec<char>, i: usize, lit: &str) -> (r: Option<usize>)
    requires
        i <= s@.len(),
    ensures
        r is None <==> !starts(s@.skip(i as int), lit@),
        r matches Some(j) ==> j == i + lit@.len() && j <= s@.len() && s@.skip(j as int)
            == after(s@.skip(i as int), lit@),
{
    let n = lit.unicode_len();
    if n > s.len() - i {
        return None;
    }
    let mut j: usize = 0;
    while j < n
        invariant
            n == lit@.len(),
            i + n <= s@.len(),
            s@.len() <= usize::MAX,
            j <= n,
            forall|k: int| 0 <= k < j ==> s@[i + k] == lit@[k],
        decreases n - j,
    {
        if s[i + j] != lit.get_char(j) {
            proof {
                assert(s@.skip(i as int).take(n as int)[j as int] != lit@[j as int]);
            }
            return None;
        }
        j += 1;
    }
    proof {
        assert(s@.skip(i as int).take(n as int) =~= lit@);
        lemma_skip_skip(s@, i as int, n as int);
    }
    Some(i + n)
}

/// Whether no character of `s` from index `i` up to index `j` is a line feed.
pub fn free_of_newline(s: &Vec<char>, i: usize, j: usize) -> (r: bool)
    requires
        i <= j <= s@.len(),
    ensures
        r == no_newline(s@.subrange(i as int, j as int)),
{
    let mut k: usize = i;
    while k < j
        invariant
            i <= k <= j,
            j <= s@.len(),
            forall|m: int| i <= m < k ==> s@[m] != '\n',
        decreases j - k,
    {
        if s[k] == '\n' {
            assert(s@.subrange(i as int, j as int)[k - i] == '\n');
            return false;
        }
        k += 1;
    }
    assert forall|m: int| 0 <= m < j - i implies s@.subrange(i as int, j as int)[m] != '\n' by {
        assert(s@.subrange(i as int, j as int)[m] == s@[i + m]);
    }
    true
}

} // verus!

verus! {

/// Whether `c` is a Unicode word character (`\w` of the regex crate):
/// Alphabetic, Mark, Decimal_Number, Connector_Punctuation or Join_Control.
pub uninterp spec fn unicode_word(c: char) -> bool;

/// Whether `c` is a Unicode decimal digit (`\d` of the regex crate,
/// general category Decimal_Number).
pub uninterp spec fn unicode_digit(c: char) -> bool;

/// Relies on regex_syntax::try_is_word_character, the Unicode word table that
/// the regex crate's `\w` uses. Its error comes only where the crate is built
/// without Unicode tables, which this crate does not do.
#[verifier::external_body]
fn word_char(c: char) -> (r: bool)
    ensures
        r == unicode_word(c),
{
    regex_syntax::try_is_word_character(c).unwrap_or(false)
}

/// Relies on regex::Regex::new and regex::Regex::is_match: the pattern `^\d$`
/// matches a one-character string exactly where that character is a Unicode
/// decimal digit. The pattern is a valid literal, so its compilation does not
/// fail.
#[verifier::external_body]
fn decimal_digit(c: char) -> (r: bool)
    ensures
        r == unicode_digit(c),
{
    let mut buf = [0u8; 4];
    match regex::Regex::new(r"^\d$") {
        Ok(re) => re.is_match(c.encode_utf8(&mut buf)),
        Err(_) => false,
    }
}

/// The character classes that the URL grammars and the identifier helpers use.
#[derive(Clone, Copy, Debug, PartialEq, Eq, Structural)]
pub enum CharClass {
    /// Unicode word characters and `-`.
    Ident,
    /// Unicode decimal digits.
    Digit,
    /// What may follow an identifier as `&key=value` text: `Ident`, `=` and `&`.
    Param,
    /// Anything but the delimiters `&`, `/` and `?`.
    NotDelimiter,
}

pub open spec fn is_ident_char(c: char) -> bool {
    unicode_word(c) || c == '-'
}

pub open spec fn in_class(k: CharClass, c: char) -> bool {
    match k {
        CharClass::Ident => is_ident_char(c),
        CharClass::Digit => unicode_digit(c),
        CharClass::Param => is_ident_char(c) || c == '=' || c == '&',
        CharClass::NotDelimiter => c != '&' && c != '/' && c != '?',
    }
}

pub fn class_has(k: CharClass, c: char) -> (r: bool)
    ensures
        r == in_class(k, c),
{
    match k {
        CharClass::Ident => word_char(c) || c == '-',
        CharClass::Digit => decimal_digit(c),
        CharClass::Param => word_char(c) || c == '-' || c == '=' || c == '&',
        CharClass::NotDelimiter => c != '&' && c != '/' && c != '?',
    }
}

/// The length of the longest prefix of `t` whose characters are all in class `k`.
pub open spec fn run_len(t: Seq<char>, k: CharClass) -> nat
    decreases t.len(),
{
    if t.len() > 0 && in_class(k, t[0]) {
        1 + run_len(t.skip(1), k)
    } else {
        0
    }
}

pub proof fn lemma_run_len_bound(t: Seq<char>, k: CharClass)
    ensures
        run_len(t, k) <= t.len(),
        forall|i: int| 0 <= i < run_len(t, k) ==> in_class(k, #[trigger] t[i]),
        run_len(t, k) < t.len() ==> !in_class(k, t[run_len(t, k) as int]),
    decreases t.len(),
{
    if t.len() > 0 && in_class(k, t[0]) {
        lemma_run_len_bound(t.skip(1), k);
        assert forall|i: int| 0 <= i < run_len(t, k) implies in_class(k, #[trigger] t[i]) by {
            if i > 0 {
                assert(t[i] == t.skip(1)[i - 1]);
            }
        }
    }
}

/// The index at which the run of class-`k` characters that starts at `i` ends.
pub fn run_end(s: &Vec<char>, i: usize, k: CharClass) -> (e: usize)
    requires
        i <= s@.len(),
    ensures
        i <= e <= s@.len(),
        e - i == run_len(s@.skip(i as int), k),
{
    let mut j: usize = i;
    while j < s.len() && class_has(k, s[j])
        invariant
            i <= j <= s@.len(),
            run_len(s@.skip(i as int), k) == (j - i) + run_len(s@.skip(j as int), k),
        decreases s@.len() - j,
    {
        proof {
            lemma_skip_skip(s@, j as int, 1);
        }
        j += 1;
    }
    j
}

} // verus!
