use vstd::prelude::*;
use crate::clean::{
    cleaned, collapse_white_space, fence, json_fence, remove_all, semicolon, sql_fence,
    strip_markers, trim, trim_end, trim_start, triple_double_quote, triple_single_quote,
};
use crate::text::is_white_space;

verus! {

/// Whether `t` occurs in `s` as a contiguous run of characters.
pub open spec fn occurs_in(t: Seq<char>, s: Seq<char>) -> bool {
    exists|k: int| 0 <= k && k + t.len() <= s.len() && #[trigger] s.subrange(k, k + t.len()) == t
}

/// Whether `s` holds none of the markers that cleanup removes.
pub open spec fn free_of_markers(s: Seq<char>) -> bool {
    &&& !occurs_in(sql_fence(), s)
    &&& !occurs_in(json_fence(), s)
    &&& !occurs_in(triple_double_quote(), s)
    &&& !occurs_in(triple_single_quote(), s)
    &&& !occurs_in(fence(), s)
    &&& !occurs_in(semicolon(), s)
}

/// Whether no two neighbouring characters of `s` are both whitespace.
pub open spec fn no_double_white_space(s: Seq<char>) -> bool {
    forall|k: int| 0 <= k < s.len() - 1 ==> !(is_white_space(#[trigger] s[k]) && is_white_space(s[k + 1]))
}

/// Whether `s` neither starts nor ends with whitespace.
pub open spec fn trimmed(s: Seq<char>) -> bool {
    s.len() > 0 ==> !is_white_space(s[0]) && !is_white_space(s.last())
}

/// Whether every whitespace character of `s` is an ASCII space.
pub open spec fn only_plain_spaces(s: Seq<char>) -> bool {
    forall|k: int| 0 <= k < s.len() && is_white_space(#[trigger] s[k]) ==> s[k] == ' '
}

proof fn lemma_trim_start(s: Seq<char>)
    ensures
        trim_start(s).len() <= s.len(),
        trim_start(s) == s.subrange(s.len() - trim_start(s).len(), s.len() as int),
        trim_start(s).len() > 0 ==> !is_white_space(trim_start(s)[0]),
    decreases s.len(),
{
    if s.len() > 0 && is_white_space(s[0]) {
        lemma_trim_start(s.drop_first());
        assert(s.drop_first().subrange(
            s.drop_first().len() - trim_start(s).len(),
            s.drop_first().len() as int,
        ) =~= s.subrange(s.len() - trim_start(s).len(), s.len() as int));
    } else {
        assert(s.subrange(0, s.len() as int) =~= s);
    }
}

proof fn lemma_trim_end(s: Seq<char>)
    ensures
        trim_end(s).len() <= s.len(),
        trim_end(s) == s.subrange(0, trim_end(s).len() as int),
        trim_end(s).len() > 0 ==> !is_white_space(trim_end(s).last()),
    decreases s.len(),
{
    if s.len() > 0 && is_white_space(s.last()) {
        lemma_trim_end(s.drop_last());
        assert(s.drop_last().subrange(0, trim_end(s).len() as int) =~= s.subrange(
            0,
            trim_end(s).len() as int,
        ));
    } else {
        assert(s.subrange(0, s.len() as int) =~= s);
    }
}

/// `trim(s)` is a contiguous part of `s` with no whitespace at either end.
proof fn lemma_trim(s: Seq<char>) -> (a: int)
    ensures
        0 <= a <= a + trim(s).len() <= s.len(),
        trim(s) == s.subrange(a, a + trim(s).len()),
        trimmed(trim(s)),
{
    let u = trim_start(s);
    lemma_trim_start(s);
    lemma_trim_end(u);
    let a = s.len() - u.len();
    assert(trim(s) =~= s.subrange(a, a + trim(s).len()));
    if trim(s).len() > 0 {
        assert(trim(s)[0] == u[0]);
    }
    a
}

proof fn lemma_collapse(s: Seq<char>)
    ensures
        no_double_white_space(collapse_white_space(s)),
        only_plain_spaces(collapse_white_space(s)),
        s.len() > 0 ==> collapse_white_space(s).len() > 0 && (is_white_space(
            collapse_white_space(s).last(),
        ) <==> is_white_space(s.last())),
    decreases s.len(),
{
    if s.len() > 0 {
        lemma_collapse(s.drop_last());
        if s.len() >= 2 {
            assert(s.drop_last().last() == s[s.len() - 2]);
        }
    }
}

/// If the last characters of `collapse_white_space(s)` are a run `w` without
/// whitespace, then `s` ends with `w` too.
proof fn lemma_collapse_suffix(s: Seq<char>, w: Seq<char>)
    requires
        forall|k: int| 0 <= k < w.len() ==> !is_white_space(#[trigger] w[k]),
        w.len() <= collapse_white_space(s).len(),
        collapse_white_space(s).subrange(
            collapse_white_space(s).len() - w.len(),
            collapse_white_space(s).len() as int,
        ) == w,
    ensures
        w.len() <= s.len(),
        s.subrange(s.len() - w.len(), s.len() as int) == w,
    decreases s.len(),
{
    let c = collapse_white_space(s);
    if w.len() == 0 {
        assert(s.subrange(s.len() as int, s.len() as int) =~= w);
    } else {
        assert(c.last() == w.last());
        let p = collapse_white_space(s.drop_last());
        if !is_white_space(s.last()) {
            let w1 = w.drop_last();
            assert(p.subrange(p.len() - w1.len(), p.len() as int) =~= c.subrange(
                c.len() - w.len(),
                c.len() - 1,
            ));
            assert(c.subrange(c.len() - w.len(), c.len() - 1) =~= w1);
            lemma_collapse_suffix(s.drop_last(), w1);
            assert(s.subrange(s.len() - w.len(), s.len() as int) =~= s.drop_last().subrange(
                s.drop_last().len() - w1.len(),
                s.drop_last().len() as int,
            ).push(s.last()));
        } else if s.len() >= 2 && is_white_space(s[s.len() - 2]) {
            lemma_collapse_suffix(s.drop_last(), w);
            assert(s.drop_last().last() == w.last());
        } else {
            assert(!is_white_space(w[w.len() - 1]));
        }
    }
}

/// Collapsing whitespace creates no occurrence of a run without whitespace.
proof fn lemma_collapse_keeps_absent(s: Seq<char>, t: Seq<char>)
    requires
        forall|k: int| 0 <= k < t.len() ==> !is_white_space(#[trigger] t[k]),
        !occurs_in(t, s),
    ensures
        !occurs_in(t, collapse_white_space(s)),
    decreases s.len(),
{
    let c = collapse_white_space(s);
    if occurs_in(t, c) {
        let k = choose|k: int|
            0 <= k && k + t.len() <= c.len() && #[trigger] c.subrange(k, k + t.len()) == t;
        if k + t.len() == c.len() {
            lemma_collapse_suffix(s, t);
            assert(s.subrange(s.len() - t.len(), s.len() - t.len() + t.len()) == t);
        } else {
            let s1 = s.drop_last();
            let p = collapse_white_space(s1);
            assert(!occurs_in(t, s1)) by {
                if occurs_in(t, s1) {
                    let j = choose|j: int|
                        0 <= j && j + t.len() <= s1.len() && #[trigger] s1.subrange(j, j + t.len())
                            == t;
                    assert(s.subrange(j, j + t.len()) =~= s1.subrange(j, j + t.len()));
                }
            }
            lemma_collapse_keeps_absent(s1, t);
            assert(p.subrange(k, k + t.len()) =~= c.subrange(k, k + t.len()));
        }
    }
}

/// Removing a marker that does not occur changes nothing.
proof fn lemma_remove_absent(s: Seq<char>, t: Seq<char>)
    requires
        t.len() > 0,
        !occurs_in(t, s),
    ensures
        remove_all(s, t) == s,
    decreases s.len(),
{
    if s.len() > 0 {
        if t.len() <= s.len() && s.subrange(0, t.len() as int) == t {
            assert(s.subrange(0, 0 + t.len() as int) == t);
        } else {
            let s1 = s.drop_first();
            assert(!occurs_in(t, s1)) by {
                if occurs_in(t, s1) {
                    let j = choose|j: int|
                        0 <= j && j + t.len() <= s1.len() && #[trigger] s1.subrange(j, j + t.len())
                            == t;
                    assert(s.subrange(j + 1, j + 1 + t.len()) =~= s1.subrange(j, j + t.len()));
                }
            }
            lemma_remove_absent(s1, t);
            assert(seq![s[0]] + s1 =~= s);
        }
    }
}

/// A contiguous part of a text free of `t` is free of `t`.
proof fn lemma_absent_in_part(s: Seq<char>, t: Seq<char>, a: int, b: int)
    requires
        0 <= a <= b <= s.len(),
        !occurs_in(t, s),
    ensures
        !occurs_in(t, s.subrange(a, b)),
{
    let u = s.subrange(a, b);
    if occurs_in(t, u) {
        let j = choose|j: int| 0 <= j && j + t.len() <= u.len() && #[trigger] u.subrange(j, j + t.len()) == t;
        assert(s.subrange(a + j, a + j + t.len()) =~= u.subrange(j, j + t.len()));
    }
}

/// Removing every `c` leaves no `c`.
proof fn lemma_remove_char(s: Seq<char>, c: char)
    ensures
        forall|k: int| 0 <= k < remove_all(s, seq![c]).len() ==> #[trigger] remove_all(s, seq![c])[k] != c,
    decreases s.len(),
{
    if s.len() > 0 {
        lemma_remove_char(s.drop_first(), c);
        let t = seq![c];
        assert(t.len() == 1);
        if s.subrange(0, 1) == t {
            assert(s.subrange(1, s.len() as int) =~= s.drop_first());
            assert(remove_all(s, t) == remove_all(s.drop_first(), t));
        } else {
            assert(s[0] != c) by {
                if s[0] == c {
                    assert(s.subrange(0, 1) =~= seq![c]);
                }
            }
            let r = remove_all(s.drop_first(), seq![c]);
            assert(remove_all(s, seq![c]) == seq![s[0]] + r);
            assert forall|k: int| 0 <= k < remove_all(s, seq![c]).len() implies #[trigger] remove_all(
                s,
                seq![c],
            )[k] != c by {
                if k > 0 {
                    assert(remove_all(s, seq![c])[k] == r[k - 1]);
                }
            }
        }
    }
}

/// For text free of markers, cleanup only collapses whitespace and trims.
proof fn lemma_cleaned_of_free(s: Seq<char>)
    requires
        free_of_markers(s),
    ensures
        free_of_markers(collapse_white_space(s)),
        cleaned(s) == trim(collapse_white_space(s)),
{
    let c = collapse_white_space(s);
    lemma_collapse_keeps_absent(s, sql_fence());
    lemma_collapse_keeps_absent(s, json_fence());
    lemma_collapse_keeps_absent(s, triple_double_quote());
    lemma_collapse_keeps_absent(s, triple_single_quote());
    lemma_collapse_keeps_absent(s, fence());
    lemma_collapse_keeps_absent(s, semicolon());
    lemma_remove_absent(c, sql_fence());
    lemma_remove_absent(c, json_fence());
    lemma_remove_absent(c, triple_double_quote());
    lemma_remove_absent(c, triple_single_quote());
    lemma_remove_absent(c, fence());
    lemma_remove_absent(c, semicolon());
    assert(strip_markers(c) == c);
}

/// Cleaned text never starts or ends with whitespace.
pub proof fn cleaned_is_trimmed(s: Seq<char>)
    ensures
        trimmed(cleaned(s)),
{
    lemma_trim(strip_markers(collapse_white_space(s)));
}

/// For input free of the removed markers, cleaned text holds no two
/// neighbouring whitespace characters. (Removing a marker from between two
/// spaces, as in `a ; b`, leaves two spaces that are not collapsed again.)
pub proof fn cleaned_has_single_spaces(s: Seq<char>)
    requires
        free_of_markers(s),
    ensures
        no_double_white_space(cleaned(s)),
{
    lemma_cleaned_of_free(s);
    lemma_collapse(s);
    let c = collapse_white_space(s);
    let a = lemma_trim(c);
    assert forall|k: int| 0 <= k < cleaned(s).len() - 1 implies !(is_white_space(
        #[trigger] cleaned(s)[k],
    ) && is_white_space(cleaned(s)[k + 1])) by {
        assert(cleaned(s)[k] == c[a + k]);
        assert(cleaned(s)[k + 1] == c[a + k + 1]);
    }
}

/// Cleaned text never holds a `;`, and for input free of the removed markers
/// it holds none of them. (Removal of one marker can join the pieces of
/// another, as in `""```"`, which leaves three double quotes.)
pub proof fn cleaned_has_no_markers(s: Seq<char>)
    ensures
        !occurs_in(semicolon(), cleaned(s)),
        free_of_markers(s) ==> free_of_markers(cleaned(s)),
{
    let x = remove_all(
        remove_all(
            remove_all(
                remove_all(remove_all(collapse_white_space(s), sql_fence()), json_fence()),
                triple_double_quote(),
            ),
            triple_single_quote(),
        ),
        fence(),
    );
    let y = strip_markers(collapse_white_space(s));
    lemma_remove_char(x, ';');
    let a = lemma_trim(y);
    if occurs_in(semicolon(), cleaned(s)) {
        let k = choose|k: int|
            0 <= k && k + 1 <= cleaned(s).len() && #[trigger] cleaned(s).subrange(k, k + 1)
                == semicolon();
        assert(cleaned(s).subrange(k, k + 1)[0] == ';');
        assert(y[a + k] == ';');
    }
    if free_of_markers(s) {
        lemma_cleaned_of_free(s);
        let c = collapse_white_space(s);
        let a = lemma_trim(c);
        let b = a + cleaned(s).len();
        lemma_absent_in_part(c, sql_fence(), a, b);
        lemma_absent_in_part(c, json_fence(), a, b);
        lemma_absent_in_part(c, triple_double_quote(), a, b);
        lemma_absent_in_part(c, triple_single_quote(), a, b);
        lemma_absent_in_part(c, fence(), a, b);
        lemma_absent_in_part(c, semicolon(), a, b);
    }
}

/// Collapsing whitespace changes nothing in text whose whitespace is already
/// single plain spaces.
proof fn lemma_collapse_fixed(s: Seq<char>)
    requires
        no_double_white_space(s),
        only_plain_spaces(s),
    ensures
        collapse_white_space(s) == s,
    decreases s.len(),
{
    if s.len() > 0 {
        let s1 = s.drop_last();
        assert forall|k: int| 0 <= k < s1.len() - 1 implies !(is_white_space(#[trigger] s1[k])
            && is_white_space(s1[k + 1])) by {
            assert(s1[k] == s[k] && s1[k + 1] == s[k + 1]);
        }
        assert forall|k: int| 0 <= k < s1.len() && is_white_space(#[trigger] s1[k]) implies s1[k]
            == ' ' by {
            assert(s1[k] == s[k]);
        }
        lemma_collapse_fixed(s1);
        if is_white_space(s.last()) {
            assert(s.last() == s[s.len() - 1]);
            if s.len() >= 2 {
                assert(!is_white_space(s[s.len() - 2]));
            }
        }
        assert(s1.push(s.last()) =~= s);
    }
}

/// For input free of the removed markers, the cleaned text is trimmed, free
/// of markers, and its whitespace is single plain spaces.
proof fn lemma_cleaned_shape(s: Seq<char>)
    requires
        free_of_markers(s),
    ensures
        trimmed(cleaned(s)),
        free_of_markers(cleaned(s)),
        no_double_white_space(cleaned(s)),
        only_plain_spaces(cleaned(s)),
{
    cleaned_is_trimmed(s);
    cleaned_has_no_markers(s);
    cleaned_has_single_spaces(s);
    lemma_cleaned_of_free(s);
    lemma_collapse(s);
    let c = collapse_white_space(s);
    let a = lemma_trim(c);
    assert forall|k: int| 0 <= k < cleaned(s).len() && is_white_space(#[trigger] cleaned(s)[k]) implies cleaned(s)[k]
        == ' ' by {
        assert(cleaned(s)[k] == c[a + k]);
    }
}

/// Cleaning text free of the removed markers a second time changes nothing.
pub proof fn cleaning_is_idempotent(s: Seq<char>)
    requires
        free_of_markers(s),
    ensures
        cleaned(cleaned(s)) == cleaned(s),
{
    let u = cleaned(s);
    lemma_cleaned_shape(s);
    lemma_collapse_fixed(u);
    lemma_cleaned_of_free(u);
    if u.len() > 0 {
        assert(trim_start(u) == u);
        assert(trim_end(u) == u);
    } else {
        assert(trim(u) == u);
    }
}

/// The number of copies of `c` that `u` starts with.
spec fn leading_run(u: Seq<char>, c: char) -> nat
    decreases u.len(),
{
    if u.len() > 0 && u[0] == c {
        1 + leading_run(u.drop_first(), c)
    } else {
        0
    }
}

proof fn lemma_leading_run(u: Seq<char>, c: char, n: nat)
    ensures
        leading_run(u, c) >= n <==> (n <= u.len() && forall|k: int| 0 <= k < n ==> u[k] == c),
    decreases u.len(),
{
    if n > 0 && u.len() > 0 {
        let u1 = u.drop_first();
        lemma_leading_run(u1, c, (n - 1) as nat);
        if n <= u.len() && forall|k: int| 0 <= k < n ==> u[k] == c {
            assert(u[0] == c);
            assert forall|k: int| 0 <= k < n - 1 implies u1[k] == c by {
                assert(u1[k] == u[k + 1]);
            }
        }
        if leading_run(u, c) >= n {
            assert forall|k: int| 0 <= k < n implies u[k] == c by {
                if k > 0 {
                    assert(u[k] == u1[k - 1]);
                }
            }
        }
    }
}

/// Removing every run of three `c` leaves a leading run of `c` whose length
/// is the old one modulo three.
proof fn lemma_leading_run_after_removal(u: Seq<char>, c: char)
    ensures
        leading_run(remove_all(u, seq![c, c, c]), c) == leading_run(u, c) % 3,
    decreases u.len(),
{
    let t = seq![c, c, c];
    lemma_leading_run(u, c, 3);
    if u.len() > 0 {
        if 3 <= u.len() && u.subrange(0, 3) == t {
            assert(u[0] == c && u[1] == c && u[2] == c) by {
                assert(u.subrange(0, 3)[0] == u[0] && u.subrange(0, 3)[1] == u[1] && u.subrange(0, 3)[2] == u[2]);
            }
            let u3 = u.subrange(3, u.len() as int);
            lemma_leading_run_after_removal(u3, c);
            let d1 = u.drop_first();
            let d2 = d1.drop_first();
            assert(d2.drop_first() =~= u3);
            assert(leading_run(d2, c) == 1 + leading_run(u3, c));
            assert(leading_run(d1, c) == 1 + leading_run(d2, c));
            assert(leading_run(u, c) == 1 + leading_run(d1, c));
        } else {
            assert(leading_run(u, c) < 3) by {
                if leading_run(u, c) >= 3 {
                    assert(u.subrange(0, 3) =~= t);
                }
            }
            lemma_leading_run_after_removal(u.drop_first(), c);
            let r = remove_all(u.drop_first(), t);
            assert((seq![u[0]] + r).drop_first() =~= r);
            assert((seq![u[0]] + r)[0] == u[0]);
            if u[0] == c {
                assert(leading_run(u, c) == 1 + leading_run(u.drop_first(), c));
                assert(leading_run(seq![u[0]] + r, c) == 1 + leading_run(r, c));
            }
        }
    }
}

/// Removing every run of three `c` leaves no run of three `c`.
proof fn lemma_no_triple_after_removal(u: Seq<char>, c: char)
    ensures
        !occurs_in(seq![c, c, c], remove_all(u, seq![c, c, c])),
    decreases u.len(),
{
    let t = seq![c, c, c];
    let r = remove_all(u, t);
    if u.len() > 0 {
        if 3 <= u.len() && u.subrange(0, 3) == t {
            lemma_no_triple_after_removal(u.subrange(3, u.len() as int), c);
        } else {
            let u1 = u.drop_first();
            let r1 = remove_all(u1, t);
            lemma_no_triple_after_removal(u1, c);
            assert(r == seq![u[0]] + r1);
            if occurs_in(t, r) {
                let k = choose|k: int| 0 <= k && k + t.len() <= r.len() && #[trigger] r.subrange(k, k + t.len()) == t;
                if k > 0 {
                    assert(r1.subrange(k - 1, k - 1 + t.len()) =~= r.subrange(k, k + t.len()));
                } else {
                    assert(r[0] == c && r[1] == c && r[2] == c) by {
                        assert(r.subrange(0, 3)[0] == r[0] && r.subrange(0, 3)[1] == r[1] && r.subrange(0, 3)[2] == r[2]);
                    }
                    lemma_leading_run(r1, c, 2);
                    assert(r1[0] == r[1] && r1[1] == r[2]);
                    lemma_leading_run_after_removal(u1, c);
                    lemma_leading_run(u1, c, 2);
                    assert(u.subrange(0, 3) =~= t) by {
                        assert(u1[0] == u[1] && u1[1] == u[2]);
                    }
                }
            }
        }
    }
}

/// Collapsing whitespace brings in no character but the space.
proof fn lemma_collapse_lacks(s: Seq<char>, x: char)
    requires
        !is_white_space(x),
        forall|k: int| 0 <= k < s.len() ==> s[k] != x,
    ensures
        forall|k: int| 0 <= k < collapse_white_space(s).len() ==> collapse_white_space(s)[k] != x,
    decreases s.len(),
{
    if s.len() > 0 {
        let s1 = s.drop_last();
        assert forall|k: int| 0 <= k < s1.len() implies s1[k] != x by {
            assert(s1[k] == s[k]);
        }
        lemma_collapse_lacks(s1, x);
        let p = collapse_white_space(s1);
        assert(s.last() == s[s.len() - 1]);
        assert(is_white_space(' '));
        assert forall|k: int| 0 <= k < collapse_white_space(s).len() implies collapse_white_space(s)[k] != x by {
            if k < p.len() {
                assert(collapse_white_space(s)[k] == p[k]);
            }
        }
    }
}

/// Removing a marker brings in no character.
proof fn lemma_remove_lacks(s: Seq<char>, t: Seq<char>, x: char)
    requires
        forall|k: int| 0 <= k < s.len() ==> s[k] != x,
    ensures
        forall|k: int| 0 <= k < remove_all(s, t).len() ==> remove_all(s, t)[k] != x,
    decreases s.len(),
{
    if s.len() > 0 && t.len() > 0 {
        if t.len() <= s.len() && s.subrange(0, t.len() as int) == t {
            let s1 = s.subrange(t.len() as int, s.len() as int);
            assert forall|k: int| 0 <= k < s1.len() implies s1[k] != x by {
                assert(s1[k] == s[k + t.len()]);
            }
            lemma_remove_lacks(s1, t, x);
            assert(remove_all(s, t) == remove_all(s1, t));
        } else {
            let s1 = s.drop_first();
            assert forall|k: int| 0 <= k < s1.len() implies s1[k] != x by {
                assert(s1[k] == s[k + 1]);
            }
            let r = remove_all(s1, t);
            lemma_remove_lacks(s1, t, x);
            assert(remove_all(s, t) == seq![s[0]] + r);
            assert(s[0] != x);
            assert forall|k: int| 0 <= k < remove_all(s, t).len() implies remove_all(s, t)[k] != x by {
                if k > 0 {
                    assert(remove_all(s, t)[k] == r[k - 1]);
                }
            }
        }
    }
}

/// An occurrence of `t` holds an occurrence of each of its prefixes.
proof fn lemma_prefix_occurs(t: Seq<char>, n: int, y: Seq<char>)
    requires
        0 <= n <= t.len(),
        occurs_in(t, y),
    ensures
        occurs_in(t.subrange(0, n), y),
{
    let k = choose|k: int| 0 <= k && k + t.len() <= y.len() && #[trigger] y.subrange(k, k + t.len()) == t;
    assert(y.subrange(k, k + n) =~= t.subrange(0, n));
    assert(y.subrange(k, k + t.subrange(0, n).len()) == t.subrange(0, n));
}

/// For input without a `;`, cleaned text holds no code fence, bare or with a
/// language tag. (A `;` removed last can join backticks into a new fence, as
/// in ``` ``;` ```.)
pub proof fn cleaned_has_no_fences(s: Seq<char>)
    requires
        forall|k: int| 0 <= k < s.len() ==> s[k] != ';',
    ensures
        !occurs_in(fence(), cleaned(s)),
        !occurs_in(sql_fence(), cleaned(s)),
        !occurs_in(json_fence(), cleaned(s)),
{
    let x0 = collapse_white_space(s);
    let x1 = remove_all(x0, sql_fence());
    let x2 = remove_all(x1, json_fence());
    let x3 = remove_all(x2, triple_double_quote());
    let x4 = remove_all(x3, triple_single_quote());
    let x5 = remove_all(x4, fence());
    lemma_collapse_lacks(s, ';');
    lemma_remove_lacks(x0, sql_fence(), ';');
    lemma_remove_lacks(x1, json_fence(), ';');
    lemma_remove_lacks(x2, triple_double_quote(), ';');
    lemma_remove_lacks(x3, triple_single_quote(), ';');
    lemma_remove_lacks(x4, fence(), ';');
    if occurs_in(semicolon(), x5) {
        let k = choose|k: int| 0 <= k && k + 1 <= x5.len() && #[trigger] x5.subrange(k, k + 1) == semicolon();
        assert(x5.subrange(k, k + 1)[0] == x5[k]);
    }
    lemma_remove_absent(x5, semicolon());
    assert(strip_markers(x0) == x5);
    assert(fence() =~= seq!['`', '`', '`']);
    lemma_no_triple_after_removal(x4, '`');
    let a = lemma_trim(x5);
    lemma_absent_in_part(x5, fence(), a, a + cleaned(s).len());
    assert(sql_fence().subrange(0, 3) =~= fence());
    assert(json_fence().subrange(0, 3) =~= fence());
    if occurs_in(sql_fence(), cleaned(s)) {
        lemma_prefix_occurs(sql_fence(), 3, cleaned(s));
    }
    if occurs_in(json_fence(), cleaned(s)) {
        lemma_prefix_occurs(json_fence(), 3, cleaned(s));
    }
}

} // verus!
