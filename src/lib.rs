//! Post-processing of generated SQL text: whitespace and fence cleanup,
//! removal of a trailing `LIMIT n` clause, and backtick-to-double-quote
//! conversion of identifiers.

mod clean;
mod clean_lemmas;
mod limit;
mod quotes;
mod text;

pub use clean::{
    clean_generation_result, cleaned, collapse_white_space, fence, json_fence, remove_all, semicolon,
    sql_fence, strip_markers, trim, trim_end, trim_start, triple_double_quote, triple_single_quote,
};
pub use clean_lemmas::{
    cleaned_has_no_fences, cleaned_has_no_markers, cleaned_has_single_spaces, cleaned_is_trimmed,
    cleaning_is_idempotent, free_of_markers, no_double_white_space, occurs_in, only_plain_spaces,
    trimmed,
};
pub use limit::{
    decimal_digit, first_limit_clause, keyword_at, letter_either_case, limit_clause_at,
    limit_tail_at, remove_limit_statement, skip_digits, skip_white_space, without_trailing_limit,
};
pub use quotes::{add_quotes, backticks_to_double_quotes};
pub use text::{chars_of, is_white_space, is_white_space_char};
