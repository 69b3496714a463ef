use sql_report::input::{split_queries, QueryList};

fn owned(statements: &[&str]) -> Vec<String> {
    statements.iter().map(|s| s.to_string()).collect()
}

#[test]
fn two_statements() {
    assert_eq!(split_queries("SELECT 1; SELECT 2;"), owned(&["SELECT 1", "SELECT 2"]));
}

#[test]
fn line_comment_is_removed() {
    assert_eq!(
        split_queries("SELECT 1 -- note\n; SELECT 2;"),
        owned(&["SELECT 1", "SELECT 2"])
    );
}

#[test]
fn quoted_semicolon_does_not_split() {
    assert_eq!(
        split_queries("SELECT 'a;b'; SELECT 2;"),
        owned(&["SELECT 'a;b'", "SELECT 2"])
    );
}

#[test]
fn semicolon_in_parentheses_does_not_split() {
    assert_eq!(split_queries("SELECT f(1,2;3);"), owned(&["SELECT f(1,2;3)"]));
}

#[test]
fn trailing_statement_without_semicolon() {
    assert_eq!(split_queries("SELECT 1"), owned(&["SELECT 1"]));
}

#[test]
fn only_semicolons_and_blanks() {
    assert_eq!(split_queries(";  ;  "), Vec::<String>::new());
}

#[test]
fn empty_source() {
    assert_eq!(split_queries(""), Vec::<String>::new());
}

#[test]
fn query_list_holds_the_statements_in_order() {
    let list = QueryList::parse("a; b; c");
    assert_eq!(list.queries, owned(&["a", "b", "c"]));
}

#[test]
fn same_source_gives_same_statements() {
    let source = "SELECT 'x;y' -- c\n; .tables\n/* z */ SELECT (1;2); tail";
    assert_eq!(split_queries(source), split_queries(source));
    assert_eq!(QueryList::parse(source).queries, split_queries(source));
}

#[test]
fn one_statement_for_each_top_level_semicolon() {
    assert_eq!(split_queries("a;b;c;").len(), 3);
    assert_eq!(split_queries("a;b;c; d").len(), 4);
    assert_eq!(split_queries("a;'b;c';(d;e);").len(), 3);
    assert_eq!(split_queries("a;b;c;  \n").len(), 3);
}

#[test]
fn empty_statements_are_not_counted() {
    assert_eq!(split_queries("a;;b;"), owned(&["a", "b"]));
    assert_eq!(split_queries(" ; \n ;a"), owned(&["a"]));
}

#[test]
fn block_comment_is_removed() {
    assert_eq!(split_queries("SELECT /* c; */ 1;"), owned(&["SELECT  1"]));
    assert_eq!(split_queries("a/* one\ntwo */b;"), owned(&["ab"]));
}

#[test]
fn semicolon_in_a_comment_does_not_split() {
    assert_eq!(split_queries("a -- b; c\n; d"), owned(&["a", "d"]));
    assert_eq!(split_queries("a /* b; c */; d"), owned(&["a", "d"]));
}

#[test]
fn comment_text_does_not_matter() {
    let plain = split_queries("a \nb; c");
    assert_eq!(split_queries("a --x\nb; c"), plain);
    assert_eq!(split_queries("a --a much longer note; with 'quotes' (and more\nb; c"), plain);
    assert_eq!(plain, owned(&["a \nb", "c"]));
    assert_eq!(
        split_queries("a /* x */ b;"),
        split_queries("a /* something ( else ' entirely ; */ b;")
    );
}

#[test]
fn line_comment_at_the_end() {
    assert_eq!(split_queries("SELECT 1 -- bye"), owned(&["SELECT 1"]));
    assert_eq!(split_queries("-- only a note"), Vec::<String>::new());
}

#[test]
fn single_dash_and_slash_are_kept() {
    assert_eq!(split_queries("SELECT 3 - 2, 4 / 2 * 3;"), owned(&["SELECT 3 - 2, 4 / 2 * 3"]));
}

#[test]
fn each_kind_of_quote_protects_semicolons() {
    assert_eq!(split_queries("SELECT \"a;b\";"), owned(&["SELECT \"a;b\""]));
    assert_eq!(split_queries("SELECT `a;b`;"), owned(&["SELECT `a;b`"]));
    assert_eq!(split_queries("SELECT [a;b];"), owned(&["SELECT [a;b]"]));
    assert_eq!(split_queries("SELECT 'a;b';"), owned(&["SELECT 'a;b'"]));
}

#[test]
fn comment_markers_in_quotes_are_text() {
    assert_eq!(split_queries("SELECT '--'; SELECT '/*';"), owned(&["SELECT '--'", "SELECT '/*'"]));
}

#[test]
fn closing_bracket_ends_any_quote() {
    assert_eq!(split_queries("SELECT 'a];b';"), owned(&["SELECT 'a]", "b';"]));
}

#[test]
fn other_quotes_inside_a_quote_are_text() {
    assert_eq!(split_queries("SELECT 'a\"b;c';"), owned(&["SELECT 'a\"b;c'"]));
}

#[test]
fn parentheses_are_counted() {
    assert_eq!(split_queries("f((1);2);"), owned(&["f((1);2)"]));
    assert_eq!(split_queries("f(();(;);); g"), owned(&["f(();(;);)", "g"]));
}

#[test]
fn closing_parenthesis_without_opening() {
    assert_eq!(split_queries(");a;"), owned(&[")", "a"]));
    assert_eq!(split_queries("))(;);b"), owned(&["))(;)", "b"]));
}

#[test]
fn parentheses_in_quotes_and_comments_are_not_counted() {
    assert_eq!(split_queries("SELECT '('; SELECT 2;"), owned(&["SELECT '('", "SELECT 2"]));
    assert_eq!(split_queries("a /* ( */; b -- (\n; c"), owned(&["a", "b", "c"]));
}

#[test]
fn unclosed_parenthesis_holds_the_rest() {
    assert_eq!(split_queries("a; f(1; b; c"), owned(&["a", "f(1; b; c"]));
}

#[test]
fn unterminated_quote() {
    assert_eq!(split_queries("SELECT 'a; b"), owned(&["SELECT 'a; b"]));
}

#[test]
fn unterminated_block_comment() {
    assert_eq!(split_queries("SELECT 1 /* x; y"), owned(&["SELECT 1"]));
}

#[test]
fn dot_command_ends_with_its_line() {
    assert_eq!(split_queries(".tables\nSELECT 1;"), owned(&[".tables", "SELECT 1"]));
    assert_eq!(split_queries(".a\n.b\n.c\n"), owned(&[".a", ".b", ".c"]));
}

#[test]
fn unterminated_dot_command() {
    assert_eq!(split_queries(".tables"), owned(&[".tables"]));
}

#[test]
fn dot_command_after_a_semicolon() {
    assert_eq!(split_queries("SELECT 1;.tables\nSELECT 2;"), owned(&["SELECT 1", ".tables", "SELECT 2"]));
    assert_eq!(split_queries(".a;.b\n.c\n"), owned(&[".a", ".b", ".c"]));
}

#[test]
fn dot_must_come_first() {
    assert_eq!(split_queries(" .tables\nSELECT 1;"), owned(&[".tables\nSELECT 1"]));
    assert_eq!(split_queries("SELECT 1;\n.tables\nSELECT 2;"), owned(&["SELECT 1", ".tables\nSELECT 2"]));
    assert_eq!(split_queries("SELECT a.b\nFROM t;"), owned(&["SELECT a.b\nFROM t"]));
}

#[test]
fn block_comment_ends_a_dot_command() {
    assert_eq!(split_queries(".mode /* c */ list\n"), owned(&[".mode", "list"]));
    assert_eq!(split_queries(".mode/*"), owned(&[".mode"]));
}

#[test]
fn star_after_a_comment_is_text() {
    assert_eq!(split_queries("/**/*"), owned(&["*"]));
    assert_eq!(split_queries("a/**/*b;"), owned(&["a*b"]));
}

#[test]
fn star_after_a_comment_and_a_kept_slash() {
    assert_eq!(split_queries("a//**/*b*/c;"), owned(&["ac"]));
}

#[test]
fn dashes_around_a_comment_are_text() {
    assert_eq!(split_queries("1 -/**/- 2;"), owned(&["1 -- 2"]));
}

#[test]
fn slash_star_slash_is_a_whole_comment() {
    assert_eq!(split_queries("/*/ x"), owned(&["x"]));
}

#[test]
fn three_dashes() {
    assert_eq!(split_queries("a --- b\nc"), owned(&["a \nc"]));
}

#[test]
fn statements_are_trimmed_of_all_white_space() {
    assert_eq!(split_queries("\u{a0}\tSELECT 1\u{3000}\r\n;\u{2003}x\u{85}"), owned(&["SELECT 1", "x"]));
}

#[test]
fn statements_agree_with_trim() {
    for source in ["  a  ;\n\tb\n", "\u{2028}c\u{2029};", " 'q' ; [r] ", "\u{feff}d;"] {
        for statement in split_queries(source) {
            assert_eq!(statement.trim(), statement);
            assert!(!statement.is_empty());
            assert_ne!(statement, ";");
        }
    }
    assert_eq!(split_queries("\u{feff}d;"), owned(&["\u{feff}d"]));
}

#[test]
fn text_beyond_ascii_is_kept() {
    assert_eq!(split_queries("SELECT 'é;ü'; SELECT '日本語';"), owned(&["SELECT 'é;ü'", "SELECT '日本語'"]));
}

#[test]
fn lone_semicolon_inside_parentheses_at_the_end() {
    assert_eq!(split_queries(".a(\n;"), owned(&[".a("]));
    assert_eq!(split_queries(".a(\n;;"), owned(&[".a(", ";;"]));
}

#[test]
fn page_break_before_every_page_but_the_first() {
    let list = QueryList::parse("a; b; c");
    assert!(!list.page_break_before(0));
    assert!(list.page_break_before(1));
    assert!(list.page_break_before(2));
}
