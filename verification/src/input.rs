//! The statement splitter, and the list of statements of one source.

use vstd::prelude::*;
use crate::scan::{emit, scan, split, Mode, ScanState};
use crate::text::{chars_of, substring_of, trim, trim_bounds};

verus! {

/// The statements of one source text, in the order in which they are to
/// be run.
pub struct QueryList {
    pub queries: Vec<String>,
}

impl QueryList {
    /// The statements of `content`.
    pub fn parse(content: &str) -> (list: QueryList)
        ensures
            list.queries.deep_view() == split(content@),
    {
        QueryList { queries: split_queries(content) }
    }

    /// Whether a page break is due before the page of the statement at
    /// `index`: each statement has a page of its own, so one is due
    /// before every page but the first.
    pub fn page_break_before(&self, index: usize) -> (needed: bool)
        ensures
            needed == (index != 0),
    {
        index != 0
    }
}

/// The scanner at work: `ScanState` in machine terms.
struct Scanner {
    mode: Mode,
    depth: usize,
    prev: char,
    pending: Vec<char>,
    done: Vec<String>,
}

impl View for Scanner {
    type V = ScanState;

    closed spec fn view(&self) -> ScanState {
        ScanState {
            mode: self.mode,
            depth: self.depth as nat,
            prev: self.prev,
            pending: self.pending@,
            done: self.done.deep_view(),
        }
    }
}

impl Scanner {
    fn new() -> (s: Scanner)
        ensures
            s@ == ScanState::start(),
    {
        let s = Scanner {
            mode: Mode::Normal,
            depth: 0,
            prev: ' ',
            pending: Vec::new(),
            done: Vec::new(),
        };
        assert(s.done.deep_view() =~= Seq::<Seq<char>>::empty());
        s
    }

    /// Ends the pending statement: keeps it, trimmed, unless it is
    /// empty or a lone semicolon, and starts the next one.
    fn flush(&mut self)
        ensures
            final(self)@ == (ScanState {
                pending: Seq::empty(),
                done: emit(old(self)@.done, old(self)@.pending),
                ..old(self)@
            }),
    {
        let (from, to) = trim_bounds(&self.pending);
        let lone_semicolon = to - from == 1 && self.pending[from] == ';';
        proof {
            let t = trim(self.pending@);
            assert(t.len() == to - from);
            if to - from == 1 {
                assert(t[0] == self.pending@[from as int]);
            }
            assert(lone_semicolon <==> t =~= seq![';']);
        }
        if to > from && !lone_semicolon {
            let statement = substring_of(&self.pending, from, to);
            let ghost before = self.done.deep_view();
            self.done.push(statement);
            assert(self.done.deep_view() =~= before.push(statement@));
        }
        self.pending.clear();
    }

    /// Takes the last character of the pending text back.
    fn unkeep(&mut self)
        requires
            old(self).pending.len() > 0,
        ensures
            final(self)@ == (ScanState { pending: old(self)@.pending.drop_last(), ..old(self)@ }),
    {
        self.pending.pop();
    }

    /// Scans `c`.
    fn step(&mut self, c: char)
        requires
            old(self).depth < usize::MAX,
        ensures
            final(self)@ == old(self)@.step(c),
    {
        let ghost before = self@;
        match self.mode {
            Mode::LineComment => {
                if c == '\n' {
                    self.pending.push(c);
                    self.mode = Mode::Normal;
                }
            },
            Mode::BlockComment => {
                if c == '/' && self.prev == '*' {
                    self.mode = Mode::Normal;
                }
            },
            Mode::InEncloser(opener) => {
                self.pending.push(c);
                if c == ']' || c == opener {
                    self.mode = Mode::Normal;
                }
            },
            Mode::Normal | Mode::DotCommand => {
                let in_dot = match self.mode {
                    Mode::DotCommand => true,
                    _ => false,
                };
                let n = self.pending.len();
                let marked = n > 0 && self.pending[n - 1] == self.prev;
                let opens_block = c == '*' && self.prev == '/' && marked;
                let opens_line = c == '-' && self.prev == '-' && marked;
                if c == ';' && self.depth == 0 {
                    self.flush();
                } else if in_dot && c == '\n' {
                    self.flush();
                    self.mode = Mode::Normal;
                } else if opens_block {
                    self.unkeep();
                    if in_dot {
                        self.flush();
                    }
                    self.mode = Mode::BlockComment;
                } else if opens_line {
                    self.unkeep();
                    self.mode = Mode::LineComment;
                } else {
                    if c == '.' && n == 0 {
                        self.mode = Mode::DotCommand;
                    } else if c == '[' || c == '"' || c == '\'' || c == '`' {
                        self.mode = Mode::InEncloser(c);
                    }
                    if c == '(' {
                        self.depth = self.depth + 1;
                    } else if c == ')' && self.depth > 0 {
                        self.depth = self.depth - 1;
                    }
                    self.pending.push(c);
                }
            },
        }
        self.prev = c;
        assert(self@ == before.step(c));
    }

    /// Ends the scan: the statements, with what was pending as the last.
    fn finish(self) -> (statements: Vec<String>)
        ensures
            statements.deep_view() == self@.finish(),
    {
        let mut s = self;
        s.flush();
        s.done
    }
}

/// Splits `sql`, a text of any number of SQL statements, into its
/// statements.
///
/// Comments are taken out. A semicolon ends a statement unless it stands
/// in a quoted or bracketed span, in a comment, or inside parentheses; a
/// statement that begins with `.` ends with its line. Each statement
/// comes trimmed and without the semicolon that ended it; what is empty
/// then is left out. Text after the last semicolon is a statement too.
/// Every text is accepted.
pub fn split_queries(sql: &str) -> (statements: Vec<String>)
    ensures
        statements.deep_view() == split(sql@),
{
    let source = chars_of(sql);
    let mut scanner = Scanner::new();
    let mut i: usize = 0;
    while i < source.len()
        invariant
            i <= source.len(),
            scanner@ == scan(source@.take(i as int)),
            scanner.depth <= i,
        decreases source.len() - i,
    {
        proof {
            let next = source@.take(i + 1);
            assert(next.drop_last() =~= source@.take(i as int));
            assert(next.last() == source@[i as int]);
        }
        scanner.step(source[i]);
        i += 1;
    }
    assert(source@.take(i as int) =~= sql@);
    scanner.finish()
}

} // verus!
