use vstd::prelude::*;
use crate::text::{chars_of, is_white_space, is_white_space_char, string_from_range};

verus! {

/// `s` with every maximal run of whitespace replaced by one ASCII space.
pub open spec fn collapse_white_space(s: Seq<char>) -> Seq<char>
    decreases s.len(),
{
    if s.len() == 0 {
        s
    } else {
        let p = collapse_white_space(s.drop_last());
        if !is_white_space(s.last()) {
            p.push(s.last())
        } else if s.len() >= 2 && is_white_space(s[s.len() - 2]) {
            p
        } else {
            p.push(' ')
        }
    }
}

/// `s` with every occurrence of `t` removed, scanning left to right and
/// taking occurrences that do not overlap.
pub open spec fn remove_all(s: Seq<char>, t: Seq<char>) -> Seq<char>
    decreases s.len(),
{
    if s.len() == 0 || t.len() == 0 {
        s
    } else if t.len() <= s.len() && s.subrange(0, t.len() as int) == t {
        remove_all(s.subrange(t.len() as int, s.len() as int), t)
    } else {
        seq![s[0]] + remove_all(s.drop_first(), t)
    }
}

/// The opening fence of a SQL code block.
pub open spec fn sql_fence() -> Seq<char> {
    seq!['`', '`', '`', 's', 'q', 'l']
}

/// The opening fence of a JSON code block.
pub open spec fn json_fence() -> Seq<char> {
    seq!['`', '`', '`', 'j', 's', 'o', 'n']
}

/// Three double quotes.
pub open spec fn triple_double_quote() -> Seq<char> {
    seq!['"', '"', '"']
}

/// Three single quotes.
pub open spec fn triple_single_quote() -> Seq<char> {
    seq!['\'', '\'', '\'']
}

/// A bare code fence.
pub open spec fn fence() -> Seq<char> {
    seq!['`', '`', '`']
}

/// A statement terminator.
pub open spec fn semicolon() -> Seq<char> {
    seq![';']
}

/// The markers removed from generated text, each removed everywhere, in this order.
pub open spec fn strip_markers(s: Seq<char>) -> Seq<char> {
    remove_all(
        remove_all(
            remove_all(
                remove_all(remove_all(remove_all(s, sql_fence()), json_fence()), triple_double_quote()),
                triple_single_quote(),
            ),
            fence(),
        ),
        semicolon(),
    )
}

/// `s` without its leading whitespace.
pub open spec fn trim_start(s: Seq<char>) -> Seq<char>
    decreases s.len(),
{
    if s.len() > 0 && is_white_space(s[0]) {
        trim_start(s.drop_first())
    } else {
        s
    }
}

/// `s` without its trailing whitespace.
pub open spec fn trim_end(s: Seq<char>) -> Seq<char>
    decreases s.len(),
{
    if s.len() > 0 && is_white_space(s.last()) {
        trim_end(s.drop_last())
    } else {
        s
    }
}

/// `s` without leading and trailing whitespace.
pub open spec fn trim(s: Seq<char>) -> Seq<char> {
    trim_end(trim_start(s))
}

/// Generated text after cleanup: whitespace runs collapsed first, then the
/// markers removed, then the ends trimmed.
pub open spec fn cleaned(s: Seq<char>) -> Seq<char> {
    trim(strip_markers(collapse_white_space(s)))
}

/// Relies on regex's `replace_all` with the pattern `\s+` and the replacement
/// `" "`: `\s` is the Unicode `White_Space` class, and `+` is greedy, so each
/// maximal run of whitespace becomes one space.
#[verifier::external_body]
fn collapse_white_space_runs(s: &str) -> (r: String)
    ensures
        r@ == collapse_white_space(s@),
{
    regex::Regex::new(r"\s+").unwrap().replace_all(s, " ").into_owned()
}

/// Whether `t` occurs in `s` at position `i`.
fn occurs_at(s: &Vec<char>, i: usize, t: &Vec<char>) -> (r: bool)
    requires
        i <= s@.len(),
    ensures
        r == (i + t@.len() <= s@.len() && s@.subrange(i as int, i + t@.len()) == t@),
{
    if t.len() > s.len() - i {
        return false;
    }
    let mut k: usize = 0;
    while k < t.len()
        invariant
            i + t@.len() <= s@.len(),
            s@.len() == s.len(),
            k <= t@.len(),
            forall|j: int| 0 <= j < k ==> s@[i + j] == t@[j],
        decreases t@.len() - k,
    {
        if s[i + k] != t[k] {
            assert(s@.subrange(i as int, i + t@.len())[k as int] != t@[k as int]);
            return false;
        }
        k += 1;
    }
    assert(s@.subrange(i as int, i + t@.len()) =~= t@);
    true
}

/// Every occurrence of `t` in `s` removed, as `remove_all` states.
fn remove_all_exec(s: &Vec<char>, t: &Vec<char>) -> (r: Vec<char>)
    requires
        t@.len() > 0,
    ensures
        r@ == remove_all(s@, t@),
{
    let mut out: Vec<char> = Vec::new();
    let mut i: usize = 0;
    assert(s@.subrange(0, s@.len() as int) =~= s@);
    assert(out@ + remove_all(s@, t@) =~= remove_all(s@, t@));
    while i < s.len()
        invariant
            t@.len() > 0,
            i <= s@.len(),
            out@ + remove_all(s@.subrange(i as int, s@.len() as int), t@) == remove_all(s@, t@),
        decreases s@.len() - i,
    {
        let rest = Ghost(s@.subrange(i as int, s@.len() as int));
        if occurs_at(s, i, t) {
            assert(rest@.subrange(0, t@.len() as int) =~= s@.subrange(i as int, i + t@.len()));
            assert(rest@.subrange(t@.len() as int, rest@.len() as int) =~= s@.subrange(
                i + t@.len(),
                s@.len() as int,
            ));
            i += t.len();
        } else {
            proof {
                if t@.len() <= rest@.len() {
                    assert(rest@.subrange(0, t@.len() as int) =~= s@.subrange(
                        i as int,
                        i + t@.len(),
                    ));
                }
            }
            assert(rest@.drop_first() =~= s@.subrange(i + 1, s@.len() as int));
            let c = s[i];
            proof {
                let tail = remove_all(s@.subrange(i + 1, s@.len() as int), t@);
                assert(out@.push(c) + tail =~= out@ + (seq![c] + tail));
            }
            out.push(c);
            i += 1;
        }
    }
    assert(out@ + remove_all(s@.subrange(i as int, s@.len() as int), t@) =~= out@);
    out
}

/// The characters of `v` without leading and trailing whitespace, as a string.
fn trim_exec(v: &Vec<char>) -> (r: String)
    ensures
        r@ == trim(v@),
{
    let n = v.len();
    let mut a: usize = 0;
    assert(v@.subrange(0, n as int) =~= v@);
    while a < n && is_white_space_char(v[a])
        invariant
            n == v@.len(),
            a <= n,
            trim_start(v@) == trim_start(v@.subrange(a as int, n as int)),
        decreases n - a,
    {
        assert(v@.subrange(a as int, n as int).drop_first() =~= v@.subrange(a + 1, n as int));
        a += 1;
    }
    let mut b: usize = n;
    while b > a && is_white_space_char(v[b - 1])
        invariant
            n == v@.len(),
            a <= b <= n,
            trim_start(v@) == v@.subrange(a as int, n as int),
            trim(v@) == trim_end(v@.subrange(a as int, b as int)),
        decreases b,
    {
        assert(v@.subrange(a as int, b as int).drop_last() =~= v@.subrange(a as int, b - 1));
        b -= 1;
    }
    string_from_range(v, a, b)
}

/// Cleans generated SQL text: collapses each run of whitespace into one space,
/// then removes every occurrence of the SQL and JSON code fences, of three
/// double quotes, of three single quotes, of a bare code fence and of `;` (in
/// that order), and finally trims whitespace from both ends.
pub fn clean_generation_result(result: &str) -> (r: String)
    ensures
        r@ == cleaned(result@),
{
    let sql = vec!['`', '`', '`', 's', 'q', 'l'];
    let json = vec!['`', '`', '`', 'j', 's', 'o', 'n'];
    let dq = vec!['"', '"', '"'];
    let sq = vec!['\'', '\'', '\''];
    let bare = vec!['`', '`', '`'];
    let semi = vec![';'];
    assert(sql@ =~= sql_fence());
    assert(json@ =~= json_fence());
    assert(dq@ =~= triple_double_quote());
    assert(sq@ =~= triple_single_quote());
    assert(bare@ =~= fence());
    assert(semi@ =~= semicolon());
    let collapsed = collapse_white_space_runs(result);
    let s0 = chars_of(collapsed.as_str());
    let s1 = remove_all_exec(&s0, &sql);
    let s2 = remove_all_exec(&s1, &json);
    let s3 = remove_all_exec(&s2, &dq);
    let s4 = remove_all_exec(&s3, &sq);
    let s5 = remove_all_exec(&s4, &bare);
    let s6 = remove_all_exec(&s5, &semi);
    trim_exec(&s6)
}

} // verus!
