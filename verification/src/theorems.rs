//! What holds of the splitter on every source.
//!
//! The theorems speak of `scan` and `split`, the model that
//! `split_queries` is proved to compute. A source is cut in parts where
//! that helps to say where something stands: `before` is what was
//! scanned up to a point, `after` what follows.

use vstd::prelude::*;
use crate::scan::{closes_encloser, emit, is_statement, opens_encloser, scan, split, Mode, ScanState};
use crate::text::{is_trimmed, trim_is_trimmed};

verus! {

// Scanning in parts

/// Scanning one more character is one step from where the scan stood.
pub proof fn scan_push(before: Seq<char>, c: char)
    ensures
        scan(before.push(c)) == scan(before).step(c),
{
    assert(before.push(c).drop_last() =~= before);
}

/// The state after `text`, from the state `from`.
pub open spec fn run(from: ScanState, text: Seq<char>) -> ScanState
    decreases text.len(),
{
    if text.len() == 0 {
        from
    } else {
        run(from, text.drop_last()).step(text.last())
    }
}

/// Scanning `before + after` is scanning `after` from where `before`
/// left the scanner.
pub proof fn scan_concat(before: Seq<char>, after: Seq<char>)
    ensures
        scan(before + after) == run(scan(before), after),
    decreases after.len(),
{
    if after.len() == 0 {
        assert(before + after =~= before);
    } else {
        scan_concat(before, after.drop_last());
        assert((before + after).drop_last() =~= before + after.drop_last());
    }
}

/// A step keeps a sound state sound.
pub proof fn step_is_sound(from: ScanState, c: char)
    requires
        from.is_sound(),
    ensures
        from.step(c).is_sound(),
{
    trim_is_trimmed(from.split_text(c));
}

/// Every state that a scan reaches is sound.
pub proof fn scan_is_sound(source: Seq<char>)
    ensures
        scan(source).is_sound(),
    decreases source.len(),
{
    if source.len() > 0 {
        scan_is_sound(source.drop_last());
        step_is_sound(scan(source.drop_last()), source.last());
    }
}

// The statements

/// The statements depend on the characters of the source and on
/// nothing else: two sources that hold the same characters have the
/// same statements, in the same order.
pub proof fn same_source_same_statements(first: Seq<char>, second: Seq<char>)
    requires
        first.len() == second.len(),
        forall|i: int| 0 <= i < first.len() ==> first[i] == second[i],
    ensures
        split(first) == split(second),
{
    assert(first =~= second);
}

/// Every statement is trimmed, not empty, and no lone semicolon.
pub proof fn statements_are_trimmed(source: Seq<char>, i: int)
    requires
        0 <= i < split(source).len(),
    ensures
        is_trimmed(split(source)[i]),
        split(source)[i].len() > 0,
        split(source)[i] != seq![';'],
{
    scan_is_sound(source);
    trim_is_trimmed(scan(source).pending);
}

/// A statement ends only at a split, and there the pending text starts
/// anew.
pub proof fn statements_end_at_splits(before: Seq<char>, c: char)
    ensures
        !scan(before).splits(c) ==> scan(before.push(c)).done == scan(before).done,
        scan(before).splits(c) ==> scan(before.push(c)).done == emit(
            scan(before).done,
            scan(before).split_text(c),
        ) && scan(before.push(c)).pending.len() == 0,
{
    scan_push(before, c);
}

/// What is finished stays: the statements of a source begin with those
/// that were finished after any part of it.
pub proof fn finished_statements_stay(before: Seq<char>, after: Seq<char>)
    ensures
        scan(before).done.is_prefix_of(scan(before + after).done),
        scan(before).done.is_prefix_of(split(before + after)),
    decreases after.len(),
{
    if after.len() == 0 {
        assert(before + after =~= before);
    } else {
        let shorter = before + after.drop_last();
        finished_statements_stay(before, after.drop_last());
        assert(before + after =~= shorter.push(after.last()));
        scan_push(shorter, after.last());
    }
}

// How many statements

/// One where `b` holds, else zero.
pub open spec fn count(b: bool) -> nat {
    if b {
        1
    } else {
        0
    }
}

/// How many top-level semicolons `source` has.
pub open spec fn top_level_semicolons(source: Seq<char>) -> nat
    decreases source.len(),
{
    if source.len() == 0 {
        0
    } else {
        top_level_semicolons(source.drop_last()) + count(
            scan(source.drop_last()).is_top_level_semicolon(source.last()),
        )
    }
}

/// How many dot commands end within `source`.
pub open spec fn dot_command_ends(source: Seq<char>) -> nat
    decreases source.len(),
{
    if source.len() == 0 {
        0
    } else {
        dot_command_ends(source.drop_last()) + count(
            scan(source.drop_last()).ends_dot_command(source.last()),
        )
    }
}

/// How many statements end within `source` that are not kept: empty
/// ones, and lone semicolons.
pub open spec fn statements_left_out(source: Seq<char>) -> nat
    decreases source.len(),
{
    if source.len() == 0 {
        0
    } else {
        let before = scan(source.drop_last());
        statements_left_out(source.drop_last()) + count(
            before.splits(source.last()) && !is_statement(before.split_text(source.last())),
        )
    }
}

/// Whether the text after the last split of `source` is kept as a
/// statement.
pub open spec fn has_last_statement(source: Seq<char>) -> bool {
    is_statement(scan(source).pending)
}

/// Each top-level semicolon and each end of a dot command finishes one
/// statement, kept or not; nothing else does.
pub proof fn finished_statements_count(source: Seq<char>)
    ensures
        scan(source).done.len() + statements_left_out(source) == top_level_semicolons(source)
            + dot_command_ends(source),
    decreases source.len(),
{
    if source.len() > 0 {
        finished_statements_count(source.drop_last());
    }
}

/// The count of the statements, on every source: one for each
/// top-level semicolon and each end of a dot command, and one for the
/// text after the last of them, less those that are not kept.
pub proof fn statement_count_in_general(source: Seq<char>)
    ensures
        split(source).len() + statements_left_out(source) == top_level_semicolons(source)
            + dot_command_ends(source) + count(has_last_statement(source)),
{
    finished_statements_count(source);
}

/// The statements are as many as the top-level semicolons, and one more
/// where the text after the last one is kept as a statement. This holds
/// where as many statements are left out as dot commands end, and
/// there only: above all on a source without dot commands in which
/// every top-level semicolon ends a statement that is kept.
pub proof fn statement_count(source: Seq<char>)
    requires
        statements_left_out(source) == dot_command_ends(source),
    ensures
        split(source).len() == top_level_semicolons(source) + count(has_last_statement(source)),
{
    statement_count_in_general(source);
}

// Plain text and parentheses

/// Whether `c` is a character without a meaning of its own to the
/// scanner: no semicolon, dot, dash, slash, star, parenthesis, or
/// opening character of a span.
pub open spec fn is_plain(c: char) -> bool {
    c != ';' && c != '.' && c != '-' && c != '/' && c != '*' && c != '(' && c != ')'
        && !opens_encloser(c)
}

/// Whether `text` is made of plain characters.
pub open spec fn is_plain_text(text: Seq<char>) -> bool {
    forall|i: int| 0 <= i < text.len() ==> is_plain(#[trigger] text[i])
}

/// Whether `text` is made of plain characters and semicolons.
pub open spec fn is_plain_but_for_semicolons(text: Seq<char>) -> bool {
    forall|i: int| 0 <= i < text.len() ==> is_plain(#[trigger] text[i]) || text[i] == ';'
}

/// Plain text is kept as it is, and changes nothing else; inside
/// parentheses that holds of semicolons too.
pub proof fn plain_text_is_kept(before: Seq<char>, text: Seq<char>)
    requires
        scan(before).mode is Normal,
        is_plain_but_for_semicolons(text),
        scan(before).depth > 0 || is_plain_text(text),
    ensures
        scan(before + text) == (ScanState {
            pending: scan(before).pending + text,
            prev: if text.len() > 0 {
                text.last()
            } else {
                scan(before).prev
            },
            ..scan(before)
        }),
    decreases text.len(),
{
    if text.len() == 0 {
        assert(before + text =~= before);
        assert(scan(before).pending + text =~= scan(before).pending);
    } else {
        let shorter = text.drop_last();
        assert forall|i: int| 0 <= i < shorter.len() implies (is_plain(#[trigger] shorter[i])
            || shorter[i] == ';') && (scan(before).depth > 0 || is_plain(shorter[i])) by {
            assert(shorter[i] == text[i]);
        }
        plain_text_is_kept(before, shorter);
        assert(before + text =~= (before + shorter).push(text.last()));
        scan_push(before + shorter, text.last());
        assert(text.last() == text[text.len() - 1]);
        assert((scan(before).pending + shorter).push(text.last()) =~= scan(before).pending + text);
    }
}

/// A semicolon after plain text, with no parenthesis open, ends the
/// statement that the pending text and the plain text make.
pub proof fn semicolon_ends_plain_statement(before: Seq<char>, text: Seq<char>)
    requires
        scan(before).mode is Normal,
        scan(before).depth == 0,
        is_plain_text(text),
    ensures
        scan(before + text + seq![';']) == (ScanState {
            pending: Seq::empty(),
            done: emit(scan(before).done, scan(before).pending + text),
            prev: ';',
            ..scan(before)
        }),
{
    plain_text_is_kept(before, text);
    scan_push(before + text, ';');
    assert(before + text + seq![';'] =~= (before + text).push(';'));
}

/// Parentheses are counted in statement text and nowhere else: `(`
/// opens one, `)` closes one where one is open.
pub proof fn parentheses_are_counted(before: Seq<char>, c: char)
    ensures
        scan(before.push(c)).depth == if !scan(before).mode.in_code() {
            scan(before).depth
        } else if c == '(' {
            scan(before).depth + 1
        } else if c == ')' && scan(before).depth > 0 {
            (scan(before).depth - 1) as nat
        } else {
            scan(before).depth
        },
{
    scan_push(before, c);
}

/// A semicolon inside parentheses ends no statement: it is kept in the
/// pending text, and nothing else changes.
pub proof fn semicolon_in_parentheses_is_kept(before: Seq<char>)
    requires
        scan(before).mode.in_code(),
        scan(before).depth > 0,
    ensures
        scan(before.push(';')) == (ScanState {
            pending: scan(before).pending.push(';'),
            prev: ';',
            ..scan(before)
        }),
{
    scan_push(before, ';');
}

// Quoted and bracketed spans

/// A quoted or bracketed span opens at one of the four opening
/// characters in statement text. It lasts until the character that
/// opened it comes again, or `]`; all of it is kept, and nothing in
/// it ends a statement or counts as a parenthesis.
pub proof fn encloser_spans(before: Seq<char>, c: char)
    ensures
        scan(before).mode.in_code() && opens_encloser(c) ==> scan(before.push(c)).mode
            == Mode::InEncloser(c),
        scan(before).mode matches Mode::InEncloser(opener) ==> scan(before.push(c)) == (ScanState {
            mode: if closes_encloser(opener, c) {
                Mode::Normal
            } else {
                Mode::InEncloser(opener)
            },
            pending: scan(before).pending.push(c),
            prev: c,
            ..scan(before)
        }),
{
    scan_push(before, c);
}

/// A semicolon in a quoted or bracketed span ends no statement: it is
/// kept in the pending text, the span goes on, and nothing else
/// changes.
pub proof fn semicolon_in_encloser_is_kept(before: Seq<char>)
    requires
        scan(before).mode is InEncloser,
    ensures
        scan(before.push(';')) == (ScanState {
            pending: scan(before).pending.push(';'),
            prev: ';',
            ..scan(before)
        }),
{
    scan_push(before, ';');
    scan_is_sound(before);
}

/// Whether no character of `body` closes a span that `opener` opened.
pub open spec fn stays_in_encloser(opener: char, body: Seq<char>) -> bool {
    forall|i: int| 0 <= i < body.len() ==> !closes_encloser(opener, #[trigger] body[i])
}

/// Within a span, text that does not close it is kept, and changes
/// nothing else.
proof fn scan_in_encloser(before: Seq<char>, opener: char, body: Seq<char>)
    requires
        scan(before).mode == Mode::InEncloser(opener),
        stays_in_encloser(opener, body),
    ensures
        scan(before + body) == (ScanState {
            pending: scan(before).pending + body,
            prev: if body.len() > 0 {
                body.last()
            } else {
                scan(before).prev
            },
            ..scan(before)
        }),
    decreases body.len(),
{
    if body.len() == 0 {
        assert(before + body =~= before);
        assert(scan(before).pending + body =~= scan(before).pending);
    } else {
        let shorter = body.drop_last();
        assert(stays_in_encloser(opener, shorter)) by {
            assert forall|i: int| 0 <= i < shorter.len() implies !closes_encloser(
                opener,
                #[trigger] shorter[i],
            ) by {
                assert(shorter[i] == body[i]);
            }
        }
        scan_in_encloser(before, opener, shorter);
        assert(before + body =~= (before + shorter).push(body.last()));
        scan_push(before + shorter, body.last());
        assert(!closes_encloser(opener, body[body.len() - 1]));
        assert((scan(before).pending + shorter).push(body.last()) =~= scan(before).pending + body);
    }
}

/// A quoted or bracketed span in statement text is kept whole and ends
/// no statement, whatever it holds: semicolons, line breaks, comment
/// markers and parentheses in it are text.
pub proof fn quoted_span_is_kept(before: Seq<char>, opener: char, body: Seq<char>, closer: char)
    requires
        scan(before).mode.in_code(),
        opens_encloser(opener),
        stays_in_encloser(opener, body),
        closes_encloser(opener, closer),
    ensures
        scan(before + seq![opener] + body + seq![closer]) == (ScanState {
            mode: Mode::Normal,
            pending: scan(before).pending + seq![opener] + body + seq![closer],
            prev: closer,
            ..scan(before)
        }),
{
    let opened = before.push(opener);
    scan_push(before, opener);
    scan_in_encloser(opened, opener, body);
    scan_push(opened + body, closer);
    assert(before + seq![opener] + body + seq![closer] =~= (opened + body).push(closer));
    assert((scan(opened).pending + body).push(closer) =~= scan(before).pending + seq![opener]
        + body + seq![closer]);
}

// Comments

/// In a comment nothing is kept and nothing ends: up to the line break
/// that ends a line comment, a character leaves the pending text, the
/// finished statements and the open parentheses as they were.
pub proof fn comment_text_is_dropped(before: Seq<char>, c: char)
    requires
        scan(before).mode.in_comment(),
        !(scan(before).mode is LineComment && c == '\n'),
    ensures
        scan(before.push(c)).pending == scan(before).pending,
        scan(before.push(c)).done == scan(before).done,
        scan(before.push(c)).depth == scan(before).depth,
        scan(before.push(c)).mode == scan(before).mode || (scan(before).closes_block_comment(c)
            && scan(before.push(c)).mode is Normal),
{
    scan_push(before, c);
}

/// The line break that ends a line comment is kept, and is all that is
/// kept of the comment.
pub proof fn line_break_ends_line_comment(before: Seq<char>)
    requires
        scan(before).mode is LineComment,
    ensures
        scan(before.push('\n')) == (ScanState {
            mode: Mode::Normal,
            pending: scan(before).pending.push('\n'),
            prev: '\n',
            ..scan(before)
        }),
{
    scan_push(before, '\n');
}

/// The two characters that open a comment are not kept: the second is
/// never added to the pending text, and the first is taken back, also
/// where the comment ends a dot command.
pub proof fn comment_marker_is_dropped(before: Seq<char>, c: char)
    requires
        scan(before).opens_line_comment(c) || scan(before).opens_block_comment(c),
    ensures
        scan(before.push(c)).mode.in_comment(),
        scan(before).pending.len() > 0,
        scan(before).pending.last() == scan(before).prev,
        !scan(before).splits(c) ==> scan(before.push(c)).pending
            == scan(before).pending.drop_last(),
        scan(before).splits(c) ==> scan(before).split_text(c)
            == scan(before).pending.drop_last(),
{
    scan_push(before, c);
}

/// Whether `text` holds no line break.
pub open spec fn is_one_line(text: Seq<char>) -> bool {
    forall|i: int| 0 <= i < text.len() ==> #[trigger] text[i] != '\n'
}

/// Whether two states differ at most in the character scanned last.
pub open spec fn same_but_prev(one: ScanState, other: ScanState) -> bool {
    one == (ScanState { prev: one.prev, ..other })
}

/// Within a line comment, text without a line break changes nothing
/// but the character scanned last.
proof fn run_in_line_comment(from: ScanState, body: Seq<char>)
    requires
        from.mode is LineComment,
        is_one_line(body),
    ensures
        same_but_prev(run(from, body), from),
    decreases body.len(),
{
    if body.len() > 0 {
        let shorter = body.drop_last();
        assert(is_one_line(shorter)) by {
            assert forall|i: int| 0 <= i < shorter.len() implies #[trigger] shorter[i] != '\n' by {
                assert(shorter[i] == body[i]);
            }
        }
        run_in_line_comment(from, shorter);
        assert(body.last() == body[body.len() - 1]);
    }
}

/// Two states in a line comment that differ at most in the character
/// scanned last come to the same statements on the same text.
proof fn run_from_line_comment(one: ScanState, other: ScanState, text: Seq<char>)
    requires
        one.mode is LineComment,
        same_but_prev(one, other),
    ensures
        run(one, text) == run(other, text) || (run(one, text).mode is LineComment
            && same_but_prev(run(one, text), run(other, text))),
        run(one, text).finish() == run(other, text).finish(),
    decreases text.len(),
{
    if text.len() > 0 {
        run_from_line_comment(one, other, text.drop_last());
    }
}

/// Nothing of a line comment's text is in the statements: they are the
/// same whatever stands in the comment.
pub proof fn line_comment_body_is_ignored(before: Seq<char>, body: Seq<char>, after: Seq<char>)
    requires
        scan(before).mode is LineComment,
        is_one_line(body),
    ensures
        split(before + body + after) == split(before + after),
{
    let from = scan(before);
    scan_concat(before + body, after);
    scan_concat(before, body);
    scan_concat(before, after);
    run_in_line_comment(from, body);
    run_from_line_comment(run(from, body), from, after);
}

/// A line comment in plain statement text counts as the line break
/// that ends it.
pub proof fn line_comment_is_a_line_break(before: Seq<char>, body: Seq<char>, after: Seq<char>)
    requires
        scan(before).mode is Normal,
        scan(before).prev != '-',
        is_one_line(body),
    ensures
        split(before + seq!['-', '-'] + body + seq!['\n'] + after) == split(
            before + seq!['\n'] + after,
        ),
{
    let opened = before.push('-').push('-');
    scan_push(before, '-');
    scan_push(before.push('-'), '-');
    assert(scan(opened).mode is LineComment);
    assert(scan(opened).pending =~= scan(before).pending);
    scan_concat(opened, body);
    run_in_line_comment(scan(opened), body);
    scan_push(opened + body, '\n');
    scan_push(before, '\n');
    let with_comment = (opened + body).push('\n');
    assert(scan(with_comment) == scan(before.push('\n')));
    scan_concat(with_comment, after);
    scan_concat(before.push('\n'), after);
    assert(before + seq!['-', '-'] + body + seq!['\n'] + after =~= with_comment + after);
    assert(before + seq!['\n'] + after =~= before.push('\n') + after);
}

/// Whether the block comment that is open after `before` stays open
/// all through `body`.
pub open spec fn stays_in_block_comment(before: Seq<char>, body: Seq<char>) -> bool {
    forall|k: int|
        0 <= k <= body.len() ==> (#[trigger] scan(before + body.take(k))).mode is BlockComment
}

/// Within a block comment, text that does not end it changes nothing
/// but the character scanned last.
proof fn scan_in_block_comment(before: Seq<char>, body: Seq<char>)
    requires
        stays_in_block_comment(before, body),
    ensures
        scan(before).mode is BlockComment,
        same_but_prev(scan(before + body), scan(before)),
    decreases body.len(),
{
    assert(before + body.take(0) =~= before);
    if body.len() == 0 {
        assert(before + body =~= before);
    } else {
        let shorter = body.drop_last();
        assert(stays_in_block_comment(before, shorter)) by {
            assert forall|k: int| 0 <= k <= shorter.len() implies (#[trigger] scan(
                before + shorter.take(k),
            )).mode is BlockComment by {
                assert(shorter.take(k) =~= body.take(k));
            }
        }
        scan_in_block_comment(before, shorter);
        assert(before + body =~= (before + shorter).push(body.last()));
        scan_push(before + shorter, body.last());
        assert(body =~= body.take(body.len() as int));
        assert(scan(before + body.take(body.len() as int)).mode is BlockComment);
    }
}

/// Nothing of a block comment's text is in the statements: they are
/// the same whatever stands in the comment.
pub proof fn block_comment_body_is_ignored(before: Seq<char>, body: Seq<char>, after: Seq<char>)
    requires
        stays_in_block_comment(before, body),
    ensures
        split(before + body + seq!['*', '/'] + after) == split(before + seq!['*', '/'] + after),
{
    scan_in_block_comment(before, body);
    scan_push(before + body, '*');
    scan_push(before, '*');
    assert(scan((before + body).push('*')) == scan(before.push('*')));
    let with_body = (before + body).push('*').push('/');
    let without = before.push('*').push('/');
    scan_push((before + body).push('*'), '/');
    scan_push(before.push('*'), '/');
    scan_concat(with_body, after);
    scan_concat(without, after);
    assert(before + body + seq!['*', '/'] + after =~= with_body + after);
    assert(before + seq!['*', '/'] + after =~= without + after);
}

/// A block comment in plain statement text leaves no trace: after it
/// the scanner stands as before it, but for the character scanned
/// last.
pub proof fn block_comment_leaves_no_trace(before: Seq<char>, body: Seq<char>)
    requires
        scan(before).mode is Normal,
        scan(before).prev != '/',
        stays_in_block_comment(before + seq!['/', '*'], body),
    ensures
        scan(before + seq!['/', '*'] + body + seq!['*', '/']) == (ScanState {
            prev: '/',
            ..scan(before)
        }),
{
    let opened = before + seq!['/', '*'];
    assert(opened =~= before.push('/').push('*'));
    scan_push(before, '/');
    scan_push(before.push('/'), '*');
    assert(scan(opened).pending =~= scan(before).pending);
    scan_in_block_comment(opened, body);
    scan_push(opened + body, '*');
    scan_push((opened + body).push('*'), '/');
    assert(opened + body + seq!['*', '/'] =~= (opened + body).push('*').push('/'));
}

} // verus!
