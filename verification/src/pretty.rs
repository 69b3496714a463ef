//! The form in which a statement is shown above its result.

use vstd::prelude::*;

verus! {

/// What `sqlformat::format` makes of the text `sql`, with no parameters
/// to fill in, when it indents by `spaces` spaces, writes reserved
/// words in capitals if `uppercase` is set, and puts
/// `lines_between_queries` line breaks after each query.
pub uninterp spec fn formatted(
    sql: Seq<char>,
    spaces: u8,
    uppercase: bool,
    lines_between_queries: u8,
) -> Seq<char>;

/// Spaces per level of indentation.
pub const INDENT: u8 = 4;

/// Line breaks after each query.
pub const LINES_BETWEEN_QUERIES: u8 = 2;

/// `sqlformat::format` with `QueryParams::None` and the three options
/// given. Trusted: the call returns on every text, and what it returns
/// depends on the arguments alone; the contract says no more of it.
#[verifier::external_body]
fn format_sql(sql: &str, spaces: u8, uppercase: bool, lines_between_queries: u8) -> (text: String)
    ensures
        text@ == formatted(sql@, spaces, uppercase, lines_between_queries),
{
    let options = sqlformat::FormatOptions {
        indent: sqlformat::Indent::Spaces(spaces),
        uppercase,
        lines_between_queries,
    };
    sqlformat::format(sql, &sqlformat::QueryParams::None, options)
}

/// The statement `sql` as it is shown: formatted with an indentation of
/// four spaces, its reserved words in capitals, and two line breaks
/// after each query.
pub fn display_sql(sql: &str) -> (text: String)
    ensures
        text@ == formatted(sql@, INDENT, true, LINES_BETWEEN_QUERIES),
{
    format_sql(sql, INDENT, true, LINES_BETWEEN_QUERIES)
}

} // verus!
