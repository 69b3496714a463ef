//! The model of the statement splitter: one pass over the characters of a
//! source text, from left to right, with one character of lookbehind.
//!
//! The splitter is no SQL parser. It knows comments, quoting, parentheses
//! and dot commands just well enough to tell the semicolons that end a
//! statement from those that do not, and it accepts every text.

use vstd::prelude::*;
use crate::text::{is_trimmed, trim};

verus! {

/// What the scanner is inside of. Exactly one mode holds at a time.
#[derive(Clone, Copy, Debug)]
pub enum Mode {
    /// Plain statement text.
    Normal,
    /// After `--`, up to the end of the line.
    LineComment,
    /// After `/*`, up to `*/`.
    BlockComment,
    /// A statement that began with `.`: it ends with its line. A quoted
    /// span or a comment in it takes this mode's place, and what
    /// follows them is plain statement text.
    DotCommand,
    /// Inside a quoted or bracketed span, with the character that opened it.
    InEncloser(char),
}

impl Mode {
    /// Statement text outside any quoting: `Normal` or `DotCommand`.
    pub open spec fn in_code(self) -> bool {
        self is Normal || self is DotCommand
    }

    /// `LineComment` or `BlockComment`.
    pub open spec fn in_comment(self) -> bool {
        self is LineComment || self is BlockComment
    }
}

/// Whether `c` opens a quoted or bracketed span.
pub open spec fn opens_encloser(c: char) -> bool {
    c == '[' || c == '"' || c == '\'' || c == '`'
}

/// Whether `c` closes a span that `opener` opened: the opener itself
/// does, and so does `]`, whatever the opener was. A quote thus ends
/// early at a `]` inside it; this departs from strict quoting and is
/// kept as it is.
pub open spec fn closes_encloser(opener: char, c: char) -> bool {
    c == ']' || c == opener
}

/// Whether `text`, once trimmed, is kept as a statement: it is not when
/// nothing is left of it, or a lone semicolon.
pub open spec fn is_statement(text: Seq<char>) -> bool {
    trim(text).len() > 0 && trim(text) != seq![';']
}

/// `done` with `text` added as its next statement, trimmed, or `done`
/// itself where `text` is not kept.
pub open spec fn emit(done: Seq<Seq<char>>, text: Seq<char>) -> Seq<Seq<char>> {
    if is_statement(text) {
        done.push(trim(text))
    } else {
        done
    }
}

/// The scanner's state between two characters.
pub struct ScanState {
    /// What the scanner is inside of.
    pub mode: Mode,
    /// How many parentheses are open.
    pub depth: nat,
    /// The character scanned last.
    pub prev: char,
    /// The text of the statement under way.
    pub pending: Seq<char>,
    /// The statements finished so far, in order.
    pub done: Seq<Seq<char>>,
}

impl ScanState {
    /// The state before the first character.
    pub open spec fn start() -> ScanState {
        ScanState {
            mode: Mode::Normal,
            depth: 0,
            prev: ' ',
            pending: Seq::empty(),
            done: Seq::empty(),
        }
    }

    /// What holds of every state that a scan reaches: only the four
    /// opening characters open a span, and each finished statement is
    /// trimmed, not empty, and no lone semicolon.
    pub open spec fn is_sound(self) -> bool {
        &&& self.mode matches Mode::InEncloser(opener) ==> opens_encloser(opener)
        &&& forall|i: int|
            0 <= i < self.done.len() ==> is_trimmed(#[trigger] self.done[i]) && self.done[i].len()
                > 0 && self.done[i] != seq![';']
    }

    /// Whether `c` is both the character scanned last and the last
    /// character of the pending text. The first half of a comment
    /// marker counts only where both hold of it, so that what is taken
    /// back is the marker and nothing else: a `*` after the `/` that
    /// closed a block comment opens a comment only if the text kept
    /// before that comment ends with `/`.
    pub open spec fn just_kept(self, c: char) -> bool {
        self.prev == c && self.pending.len() > 0 && self.pending.last() == c
    }

    /// Whether `c` completes `--` in statement text.
    pub open spec fn opens_line_comment(self, c: char) -> bool {
        self.mode.in_code() && c == '-' && self.just_kept('-')
    }

    /// Whether `c` completes `/*` in statement text.
    pub open spec fn opens_block_comment(self, c: char) -> bool {
        self.mode.in_code() && c == '*' && self.just_kept('/')
    }

    /// Whether `c` completes the `*/` that ends a block comment.
    pub open spec fn closes_block_comment(self, c: char) -> bool {
        self.mode is BlockComment && c == '/' && self.prev == '*'
    }

    /// Whether `c` is a top-level semicolon: outside comments and quoted
    /// spans, with no parenthesis open. It ends the pending statement
    /// and is no part of it.
    pub open spec fn is_top_level_semicolon(self, c: char) -> bool {
        self.mode.in_code() && c == ';' && self.depth == 0
    }

    /// Whether `c` ends a dot command: the end of its line does, and so
    /// does the start of a block comment.
    pub open spec fn ends_dot_command(self, c: char) -> bool {
        self.mode is DotCommand && (c == '\n' || self.opens_block_comment(c))
    }

    /// Whether the pending statement ends at `c`.
    pub open spec fn splits(self, c: char) -> bool {
        self.is_top_level_semicolon(c) || self.ends_dot_command(c)
    }

    /// The text of the statement that ends at `c`: the pending text,
    /// less the `/` of a `/*` that ends a dot command.
    pub open spec fn split_text(self, c: char) -> Seq<char> {
        if self.opens_block_comment(c) {
            self.pending.drop_last()
        } else {
            self.pending
        }
    }

    /// The state after `c`. In a comment nothing counts but its end; in
    /// a quoted span everything is kept, and nothing counts but its
    /// end; statement text is what `step_code` says.
    pub open spec fn step(self, c: char) -> ScanState {
        match self.mode {
            Mode::LineComment => ScanState {
                mode: if c == '\n' {
                    Mode::Normal
                } else {
                    Mode::LineComment
                },
                pending: if c == '\n' {
                    self.pending.push(c)
                } else {
                    self.pending
                },
                prev: c,
                ..self
            },
            Mode::BlockComment => ScanState {
                mode: if self.closes_block_comment(c) {
                    Mode::Normal
                } else {
                    Mode::BlockComment
                },
                prev: c,
                ..self
            },
            Mode::InEncloser(opener) => ScanState {
                mode: if closes_encloser(opener, c) {
                    Mode::Normal
                } else {
                    self.mode
                },
                pending: self.pending.push(c),
                prev: c,
                ..self
            },
            Mode::Normal | Mode::DotCommand => self.step_code(c),
        }
    }

    /// The state after `c` in statement text. A split ends the pending
    /// statement; a comment marker is taken out of it; any other
    /// character is kept, and may begin a dot command (a `.` that is
    /// the first character kept), open a quoted span, or open or close a
    /// parenthesis.
    pub open spec fn step_code(self, c: char) -> ScanState {
        if self.splits(c) {
            ScanState {
                mode: if self.opens_block_comment(c) {
                    Mode::BlockComment
                } else if c == '\n' {
                    Mode::Normal
                } else {
                    self.mode
                },
                pending: Seq::empty(),
                done: emit(self.done, self.split_text(c)),
                prev: c,
                ..self
            }
        } else if self.opens_line_comment(c) {
            ScanState { mode: Mode::LineComment, pending: self.pending.drop_last(), prev: c, ..self }
        } else if self.opens_block_comment(c) {
            ScanState {
                mode: Mode::BlockComment,
                pending: self.pending.drop_last(),
                prev: c,
                ..self
            }
        } else {
            ScanState {
                mode: if c == '.' && self.pending.len() == 0 {
                    Mode::DotCommand
                } else if opens_encloser(c) {
                    Mode::InEncloser(c)
                } else {
                    self.mode
                },
                depth: if c == '(' {
                    self.depth + 1
                } else if c == ')' && self.depth > 0 {
                    (self.depth - 1) as nat
                } else {
                    self.depth
                },
                pending: self.pending.push(c),
                prev: c,
                ..self
            }
        }
    }

    /// The statements once the source has ended: those finished, and
    /// the pending text as the last one, where it is kept.
    pub open spec fn finish(self) -> Seq<Seq<char>> {
        emit(self.done, self.pending)
    }
}

/// The state after all of `source`.
pub open spec fn scan(source: Seq<char>) -> ScanState
    decreases source.len(),
{
    if source.len() == 0 {
        ScanState::start()
    } else {
        scan(source.drop_last()).step(source.last())
    }
}

/// The statements of `source`, in order.
pub open spec fn split(source: Seq<char>) -> Seq<Seq<char>> {
    scan(source).finish()
}

} // verus!
