use vstd::prelude::*;
use crate::text::{chars_of, is_white_space, is_white_space_char, string_from_range};

verus! {

/// Whether `c` is a Unicode decimal digit (general category `Nd`), the class
/// that regex's `\d` denotes.
pub uninterp spec fn decimal_digit(c: char) -> bool;

/// Relies on regex's `\d` class: the pattern `\A\d\z` matches a one-character
/// text exactly when that character is a Unicode decimal digit.
#[verifier::external_body]
fn is_decimal_digit(c: char) -> (r: bool)
    ensures
        r == decimal_digit(c),
{
    regex::Regex::new(r"\A\d\z").unwrap().is_match(c.encode_utf8(&mut [0u8; 4]))
}

/// The first position at or after `i` that does not hold whitespace.
pub open spec fn skip_white_space(s: Seq<char>, i: int) -> int
    decreases s.len() - i,
{
    if 0 <= i < s.len() && is_white_space(s[i]) {
        skip_white_space(s, i + 1)
    } else {
        i
    }
}

/// The first position at or after `i` that does not hold a decimal digit.
pub open spec fn skip_digits(s: Seq<char>, i: int) -> int
    decreases s.len() - i,
{
    if 0 <= i < s.len() && decimal_digit(s[i]) {
        skip_digits(s, i + 1)
    } else {
        i
    }
}

/// Whether `c` is the letter `u` (given in upper case) in either case.
pub open spec fn letter_either_case(c: char, u: char) -> bool {
    c == u || c as u32 == u as u32 + 32
}

/// Whether the keyword `LIMIT`, in any mix of cases, starts at position `i`.
pub open spec fn keyword_at(s: Seq<char>, i: int) -> bool {
    &&& 0 <= i
    &&& i + 5 <= s.len()
    &&& letter_either_case(s[i], 'L')
    &&& letter_either_case(s[i + 1], 'I')
    &&& letter_either_case(s[i + 2], 'M')
    &&& letter_either_case(s[i + 3], 'I')
    &&& letter_either_case(s[i + 4], 'T')
}

/// Whether `s[d..]` is what may follow the number of a trailing limit clause:
/// optional whitespace, an optional `;`, optional whitespace, and then either
/// the end of the text or a `--` comment that runs to the end without a line break.
pub open spec fn limit_tail_at(s: Seq<char>, d: int) -> bool {
    let p = skip_white_space(s, d);
    let q = if p < s.len() && s[p] == ';' {
        p + 1
    } else {
        p
    };
    let r = skip_white_space(s, q);
    r == s.len() || (r + 2 <= s.len() && s[r] == '-' && s[r + 1] == '-' && forall|k: int|
        r + 2 <= k < s.len() ==> s[k] != '\n')
}

/// Whether `s[i..]` is a trailing limit clause: optional whitespace, the
/// keyword `LIMIT` in any case, whitespace, one or more decimal digits, and a
/// tail as `limit_tail_at` states.
pub open spec fn limit_clause_at(s: Seq<char>, i: int) -> bool {
    let a = skip_white_space(s, i);
    let c = skip_white_space(s, a + 5);
    let d = skip_digits(s, c);
    &&& keyword_at(s, a)
    &&& c > a + 5
    &&& d > c
    &&& limit_tail_at(s, d)
}

/// The first position at or after `i` where a trailing limit clause starts,
/// or the length of `s` if there is none.
pub open spec fn first_limit_clause(s: Seq<char>, i: int) -> int
    decreases s.len() - i,
{
    if i >= s.len() {
        s.len() as int
    } else if 0 <= i && limit_clause_at(s, i) {
        i
    } else {
        first_limit_clause(s, i + 1)
    }
}

/// `s` without its trailing limit clause, if it has one.
pub open spec fn without_trailing_limit(s: Seq<char>) -> Seq<char> {
    s.subrange(0, first_limit_clause(s, 0))
}

fn skip_white_space_exec(s: &Vec<char>, i: usize) -> (r: usize)
    requires
        i <= s@.len(),
    ensures
        r == skip_white_space(s@, i as int),
        i <= r <= s@.len(),
{
    let mut j: usize = i;
    while j < s.len() && is_white_space_char(s[j])
        invariant
            i <= j <= s@.len(),
            skip_white_space(s@, j as int) == skip_white_space(s@, i as int),
        decreases s@.len() - j,
    {
        j += 1;
    }
    j
}

fn skip_digits_exec(s: &Vec<char>, i: usize) -> (r: usize)
    requires
        i <= s@.len(),
    ensures
        r == skip_digits(s@, i as int),
        i <= r <= s@.len(),
{
    let mut j: usize = i;
    while j < s.len() && is_decimal_digit(s[j])
        invariant
            i <= j <= s@.len(),
            skip_digits(s@, j as int) == skip_digits(s@, i as int),
        decreases s@.len() - j,
    {
        j += 1;
    }
    j
}

fn letter_either_case_exec(c: char, u: char) -> (r: bool)
    requires
        'A' <= u <= 'Z',
    ensures
        r == letter_either_case(c, u),
{
    c == u || c as u32 == u as u32 + 32
}

fn keyword_at_exec(s: &Vec<char>, i: usize) -> (r: bool)
    requires
        i <= s@.len(),
    ensures
        r == keyword_at(s@, i as int),
{
    s.len() - i >= 5 && letter_either_case_exec(s[i], 'L') && letter_either_case_exec(s[i + 1], 'I')
        && letter_either_case_exec(s[i + 2], 'M') && letter_either_case_exec(s[i + 3], 'I')
        && letter_either_case_exec(s[i + 4], 'T')
}

fn limit_tail_at_exec(s: &Vec<char>, d: usize) -> (r: bool)
    requires
        d <= s@.len(),
    ensures
        r == limit_tail_at(s@, d as int),
{
    let p = skip_white_space_exec(s, d);
    let q = if p < s.len() && s[p] == ';' {
        p + 1
    } else {
        p
    };
    let r = skip_white_space_exec(s, q);
    if r == s.len() {
        return true;
    }
    if s.len() - r < 2 || s[r] != '-' || s[r + 1] != '-' {
        return false;
    }
    no_line_break_from(s, r + 2)
}

fn no_line_break_from(s: &Vec<char>, from: usize) -> (r: bool)
    requires
        from <= s@.len(),
    ensures
        r == (forall|j: int| from <= j < s@.len() ==> s@[j] != '\n'),
{
    let mut k: usize = from;
    while k < s.len()
        invariant
            from <= k <= s@.len(),
            forall|j: int| from <= j < k ==> s@[j] != '\n',
        decreases s@.len() - k,
    {
        if s[k] == '\n' {
            return false;
        }
        k += 1;
    }
    true
}

fn limit_clause_at_exec(s: &Vec<char>, i: usize) -> (r: bool)
    requires
        i <= s@.len(),
    ensures
        r == limit_clause_at(s@, i as int),
{
    let a = skip_white_space_exec(s, i);
    if !keyword_at_exec(s, a) {
        return false;
    }
    assert(a + 5 <= s.len());
    let c = skip_white_space_exec(s, a + 5);
    if c == a + 5 {
        return false;
    }
    let d = skip_digits_exec(s, c);
    if d == c {
        return false;
    }
    limit_tail_at_exec(s, d)
}

/// Removes a trailing `LIMIT <n>` clause (keyword in any case), together with
/// the whitespace before it and an optional `;` and `--` comment after it.
/// A statement without such a clause at its end comes back unchanged.
pub fn remove_limit_statement(sql: &str) -> (r: String)
    ensures
        r@ == without_trailing_limit(sql@),
        (forall|i: int| 0 <= i <= sql@.len() ==> !limit_clause_at(sql@, i)) ==> r@ == sql@,
{
    let s = chars_of(sql);
    let n = s.len();
    let mut i: usize = 0;
    while i < n
        invariant
            n == s@.len(),
            s@ == sql@,
            i <= n,
            first_limit_clause(s@, 0) == first_limit_clause(s@, i as int),
            forall|j: int| 0 <= j < i ==> !limit_clause_at(s@, j),
        decreases n - i,
    {
        if limit_clause_at_exec(&s, i) {
            return string_from_range(&s, 0, i);
        }
        i += 1;
    }
    assert(s@.subrange(0, n as int) =~= s@);
    string_from_range(&s, 0, n)
}

} // verus!
