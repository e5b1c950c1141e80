use vstd::prelude::*;
use crate::text::{chars_of, push_char};

verus! {

/// `s` with every backtick replaced by a double quote.
pub open spec fn backticks_to_double_quotes(s: Seq<char>) -> Seq<char> {
    Seq::new(s.len(), |k: int| if s[k] == '`' { '"' } else { s[k] })
}

/// Converts backtick-quoted identifiers to double-quoted ones by replacing
/// every backtick with a double quote. Returns the converted text and an
/// error message, which is always empty.
pub fn add_quotes(sql: &str) -> (r: (String, String))
    ensures
        r.0@ == backticks_to_double_quotes(sql@),
        r.1@ == Seq::<char>::empty(),
{
    let s = chars_of(sql);
    let mut out = String::new();
    let mut i: usize = 0;
    while i < s.len()
        invariant
            i <= s@.len(),
            out@ == backticks_to_double_quotes(s@.subrange(0, i as int)),
        decreases s@.len() - i,
    {
        let c = s[i];
        if c == '`' {
            push_char(&mut out, '"');
        } else {
            push_char(&mut out, c);
        }
        assert(backticks_to_double_quotes(s@.subrange(0, i + 1)) =~= backticks_to_double_quotes(
            s@.subrange(0, i as int),
        ).push(if c == '`' { '"' } else { c }));
        i += 1;
    }
    assert(s@.subrange(0, s@.len() as int) =~= s@);
    (out, String::new())
}

} // verus!
