//! Script text to program: metadata keys, dependency references and phases of
//! commands, read line by line.
use vstd::prelude::*;
use crate::command::{command_at, command_of, Command};
use crate::text::{
    chars_of, contains_at, contains_char, find_char, find_char_at, lemma_find_char, quoted,
    quoted_at, starts_with, starts_with_at, text_of, trim, trim_bounds,
};

verus! {

/// A named, ordered group of commands.
#[derive(Debug, Clone, PartialEq, Eq)]
pub struct Phase {
    pub name: String,
    pub commands: Vec<Command<String>>,
}

#[verifier::ext_equal]
pub struct PhaseView {
    pub name: Seq<char>,
    pub commands: Seq<Command<Seq<char>>>,
}

impl View for Phase {
    type V = PhaseView;

    open spec fn view(&self) -> PhaseView {
        PhaseView { name: self.name@, commands: self.commands@.map_values(|c: Command<String>| c@) }
    }
}

/// What one script file declares.
#[derive(Debug, Clone, PartialEq, Eq)]
pub struct Program {
    pub name: String,
    pub version: String,
    pub description: String,
    pub author: String,
    pub depends: Vec<String>,
    pub phases: Vec<Phase>,
}

#[verifier::ext_equal]
pub struct ProgramView {
    pub name: Seq<char>,
    pub version: Seq<char>,
    pub description: Seq<char>,
    pub author: Seq<char>,
    pub depends: Seq<Seq<char>>,
    pub phases: Seq<PhaseView>,
}

impl View for Program {
    type V = ProgramView;

    open spec fn view(&self) -> ProgramView {
        ProgramView {
            name: self.name@,
            version: self.version@,
            description: self.description@,
            author: self.author@,
            depends: self.depends@.map_values(|d: String| d@),
            phases: self.phases@.map_values(|p: Phase| p@),
        }
    }
}

/// Why a script cannot be read. Lines are counted from 1.
#[derive(Debug, Clone, Copy, PartialEq, Eq, Structural)]
pub enum ParseError {
    /// No `package:` line gave the program a non-empty name.
    MissingName,
    /// A `package:`, `version:`, `description:` or `author:` line without a quoted value.
    Unquoted { line: usize },
    /// A `phase` line without a quoted name.
    UnnamedPhase { line: usize },
}

/// The lines of `t[start..]`, read from position `i`: the pieces between newlines.
pub open spec fn lines_from(t: Seq<char>, i: int, start: int) -> Seq<Seq<char>>
    decreases t.len() - i,
{
    if i < 0 || i >= t.len() {
        seq![t.subrange(start, t.len() as int)]
    } else if t[i] == '\n' {
        seq![t.subrange(start, i)] + lines_from(t, i + 1, i + 1)
    } else {
        lines_from(t, i + 1, start)
    }
}

pub open spec fn lines_of(t: Seq<char>) -> Seq<Seq<char>> {
    lines_from(t, 0, 0)
}

pub open spec fn blank_or_comment(t: Seq<char>) -> bool {
    t.len() == 0 || t[0] == '#'
}

pub open spec fn nonempty(t: Seq<char>) -> Seq<Seq<char>> {
    if t.len() > 0 {
        seq![t]
    } else {
        seq![]
    }
}

/// The references of a `depends:` line: the trimmed, non-empty texts between
/// double quotes; an unclosed last quote runs to the end of the line.
pub open spec fn depends_of(s: Seq<char>) -> Seq<Seq<char>>
    decreases s.len(),
{
    let a = find_char(s, '"', 0);
    let rest = s.subrange(a + 1, s.len() as int);
    let b = find_char(rest, '"', 0);
    if a < 0 {
        seq![]
    } else if b < 0 {
        nonempty(trim(rest))
    } else {
        proof {
            lemma_find_char(s, '"', 0);
            lemma_find_char(rest, '"', 0);
        }
        nonempty(trim(rest.subrange(0, b))) + depends_of(rest.subrange(b + 1, rest.len() as int))
    }
}

/// The first line at or after `j` that holds `{`, or the number of lines.
pub open spec fn brace_line(ls: Seq<Seq<char>>, j: int) -> int
    decreases ls.len() - j,
{
    if j < 0 || j >= ls.len() {
        ls.len() as int
    } else if contains_char(ls[j], '{') {
        j
    } else {
        brace_line(ls, j + 1)
    }
}

/// The first line at or after `j` whose trimmed text starts with `}`, or the
/// number of lines.
pub open spec fn close_line(ls: Seq<Seq<char>>, j: int) -> int
    decreases ls.len() - j,
{
    if j < 0 || j >= ls.len() {
        ls.len() as int
    } else if starts_with(trim(ls[j]), seq!['}']) {
        j
    } else {
        close_line(ls, j + 1)
    }
}

/// The command of one line of a phase body, if it is one; unknown or malformed
/// command lines give none.
pub open spec fn line_command(l: Seq<char>) -> Seq<Command<Seq<char>>> {
    let t = trim(l);
    if blank_or_comment(t) {
        seq![]
    } else {
        match command_of(t) {
            Some(c) => seq![c],
            None => seq![],
        }
    }
}

/// The commands of the lines `from..to`.
pub open spec fn phase_commands(ls: Seq<Seq<char>>, from: int, to: int) -> Seq<
    Command<Seq<char>>,
>
    decreases to - from,
{
    if to <= from {
        seq![]
    } else {
        phase_commands(ls, from, to - 1) + line_command(ls[to - 1])
    }
}

pub open spec fn empty_program() -> ProgramView {
    ProgramView {
        name: seq![],
        version: seq![],
        description: seq![],
        author: seq![],
        depends: seq![],
        phases: seq![],
    }
}

/// Where the body of the phase declared on line `i` begins.
pub open spec fn body_start(ls: Seq<Seq<char>>, i: int) -> int {
    let b = brace_line(ls, i + 1);
    if contains_char(ls[i], '{') {
        i + 1
    } else if b < ls.len() {
        b + 1
    } else {
        ls.len() as int
    }
}

/// Where reading resumes after the phase declared on line `i`.
pub open spec fn after_phase(ls: Seq<Seq<char>>, i: int) -> int {
    let close = close_line(ls, body_start(ls, i));
    if close < ls.len() {
        close + 1
    } else {
        ls.len() as int
    }
}

pub proof fn lemma_brace_line(ls: Seq<Seq<char>>, j: int)
    requires
        0 <= j,
    ensures
        j <= brace_line(ls, j) <= ls.len() || (j > ls.len() && brace_line(ls, j) == ls.len()),
    decreases ls.len() - j,
{
    if j < ls.len() && !contains_char(ls[j], '{') {
        lemma_brace_line(ls, j + 1);
    }
}

pub proof fn lemma_close_line(ls: Seq<Seq<char>>, j: int)
    requires
        0 <= j <= ls.len(),
    ensures
        j <= close_line(ls, j) <= ls.len(),
    decreases ls.len() - j,
{
    if j < ls.len() && !starts_with(trim(ls[j]), seq!['}']) {
        lemma_close_line(ls, j + 1);
    }
}

pub proof fn lemma_after_phase(ls: Seq<Seq<char>>, i: int)
    requires
        0 <= i < ls.len(),
    ensures
        i < body_start(ls, i) <= ls.len(),
        i < after_phase(ls, i) <= ls.len(),
{
    lemma_brace_line(ls, i + 1);
    lemma_close_line(ls, body_start(ls, i));
}

/// The program that the lines from `i` on make of `p`.
pub open spec fn parse_lines(ls: Seq<Seq<char>>, i: int, p: ProgramView) -> Result<
    ProgramView,
    ParseError,
>
    decreases ls.len() - i,
{
    if i < 0 || i >= ls.len() {
        if p.name.len() == 0 {
            Err(ParseError::MissingName)
        } else {
            Ok(p)
        }
    } else {
        let t = trim(ls[i]);
        let q = quoted(t);
        let line = (i + 1) as usize;
        if blank_or_comment(t) {
            parse_lines(ls, i + 1, p)
        } else if starts_with(t, "package:"@) {
            if q is None {
                Err(ParseError::Unquoted { line })
            } else {
                parse_lines(ls, i + 1, ProgramView { name: q->0, ..p })
            }
        } else if starts_with(t, "version:"@) {
            if q is None {
                Err(ParseError::Unquoted { line })
            } else {
                parse_lines(ls, i + 1, ProgramView { version: q->0, ..p })
            }
        } else if starts_with(t, "description:"@) {
            if q is None {
                Err(ParseError::Unquoted { line })
            } else {
                parse_lines(ls, i + 1, ProgramView { description: q->0, ..p })
            }
        } else if starts_with(t, "author:"@) {
            if q is None {
                Err(ParseError::Unquoted { line })
            } else {
                parse_lines(ls, i + 1, ProgramView { author: q->0, ..p })
            }
        } else if starts_with(t, "depends:"@) {
            parse_lines(
                ls,
                i + 1,
                ProgramView { depends: depends_of(t.subrange("depends:"@.len() as int, t.len() as int)), ..p },
            )
        } else if starts_with(t, "phase"@) {
            if q is None {
                Err(ParseError::UnnamedPhase { line })
            } else {
                let start = body_start(ls, i);
                let phase = PhaseView {
                    name: q->0,
                    commands: phase_commands(ls, start, close_line(ls, start)),
                };
                proof {
                    lemma_after_phase(ls, i);
                }
                parse_lines(ls, after_phase(ls, i), ProgramView { phases: p.phases.push(phase), ..p })
            }
        } else {
            parse_lines(ls, i + 1, p)
        }
    }
}

/// The program that a script's text declares, or why there is none.
pub open spec fn parse_text(t: Seq<char>) -> Result<ProgramView, ParseError> {
    parse_lines(lines_of(t), 0, empty_program())
}

/// The bounds of each line of `t`.
fn line_bounds(t: &Vec<char>) -> (r: Vec<(usize, usize)>)
    ensures
        r@.len() == lines_of(t@).len(),
        forall|k: int|
            0 <= k < r@.len() ==> (#[trigger] r@[k]).0 <= r@[k].1 <= t@.len() && t@.subrange(
                r@[k].0 as int,
                r@[k].1 as int,
            ) == lines_of(t@)[k],
{
    let mut r: Vec<(usize, usize)> = Vec::new();
    let mut start: usize = 0;
    let mut i: usize = 0;
    let n = t.len();
    while i < n
        invariant
            n == t@.len(),
            start <= i <= n,
            forall|k: int| 0 <= k < r@.len() ==> (#[trigger] r@[k]).0 <= r@[k].1 <= t@.len(),
            r@.map_values(|b: (usize, usize)| t@.subrange(b.0 as int, b.1 as int)) + lines_from(
                t@,
                i as int,
                start as int,
            ) == lines_of(t@),
        decreases n - i,
    {
        let ghost before = r@.map_values(|b: (usize, usize)| t@.subrange(b.0 as int, b.1 as int));
        if t[i] == '\n' {
            r.push((start, i));
            assert(r@.map_values(|b: (usize, usize)| t@.subrange(b.0 as int, b.1 as int))
                =~= before.push(t@.subrange(start as int, i as int)));
            assert(before + lines_from(t@, i as int, start as int) =~= before.push(
                t@.subrange(start as int, i as int),
            ) + lines_from(t@, i + 1, i + 1));
            start = i + 1;
        }
        i = i + 1;
    }
    let ghost before = r@.map_values(|b: (usize, usize)| t@.subrange(b.0 as int, b.1 as int));
    r.push((start, n));
    assert(r@.map_values(|b: (usize, usize)| t@.subrange(b.0 as int, b.1 as int)) =~= before
        + lines_from(t@, i as int, start as int));
    assert forall|k: int| 0 <= k < r@.len() implies (#[trigger] r@[k]).0 <= r@[k].1 <= t@.len()
        && t@.subrange(r@[k].0 as int, r@[k].1 as int) == lines_of(t@)[k] by {
        assert(r@.map_values(|b: (usize, usize)| t@.subrange(b.0 as int, b.1 as int))[k]
            == lines_of(t@)[k]);
    }
    r
}

/// The references of the `depends:` value `t[lo..hi]`.
fn depends_at(src: &str, t: &Vec<char>, lo: usize, hi: usize) -> (r: Vec<String>)
    requires
        t@ == src@,
        lo <= hi <= t@.len(),
    ensures
        r@.map_values(|d: String| d@) == depends_of(t@.subrange(lo as int, hi as int)),
{
    let mut r: Vec<String> = Vec::new();
    let mut pos = lo;
    while pos <= hi
        invariant
            t@ == src@,
            lo <= pos <= hi <= t@.len(),
            r@.map_values(|d: String| d@) + depends_of(t@.subrange(pos as int, hi as int))
                == depends_of(t@.subrange(lo as int, hi as int)),
        decreases hi - pos,
    {
        let ghost s = t@.subrange(pos as int, hi as int);
        let ghost before = r@.map_values(|d: String| d@);
        proof {
            lemma_find_char(s, '"', 0);
        }
        match find_char_at(t, pos, hi, '"', 0) {
            None => {
                assert(before + depends_of(s) =~= before);
                return r;
            },
            Some(a) => {
                let rs = pos + a + 1;
                let ghost rest = s.subrange(a + 1, s.len() as int);
                assert(rest =~= t@.subrange(rs as int, hi as int));
                proof {
                    lemma_find_char(rest, '"', 0);
                }
                match find_char_at(t, rs, hi, '"', 0) {
                    None => {
                        let (x, y) = trim_bounds(t, rs, hi);
                        if x < y {
                            r.push(text_of(src, x, y));
                        }
                        assert(r@.map_values(|d: String| d@) =~= before + depends_of(s));
                        return r;
                    },
                    Some(b) => {
                        let (x, y) = trim_bounds(t, rs, rs + b);
                        assert(rest.subrange(0, b as int) =~= t@.subrange(rs as int, rs + b));
                        assert(rest.subrange(b + 1, rest.len() as int) =~= t@.subrange(
                            rs + b + 1,
                            hi as int,
                        ));
                        if x < y {
                            r.push(text_of(src, x, y));
                        }
                        let ghost item = nonempty(trim(rest.subrange(0, b as int)));
                        assert(r@.map_values(|d: String| d@) =~= before + item);
                        assert(before + depends_of(s) =~= before + item + depends_of(
                            t@.subrange(rs + b + 1, hi as int),
                        ));
                        pos = rs + b + 1;
                    },
                }
            },
        }
    }
    r
}

/// Whether the trimmed text of `t[lo..hi]` starts with `}`.
fn closes_phase(t: &Vec<char>, lo: usize, hi: usize) -> (r: bool)
    requires
        lo <= hi <= t@.len(),
    ensures
        r == starts_with(trim(t@.subrange(lo as int, hi as int)), seq!['}']),
{
    let (x, y) = trim_bounds(t, lo, hi);
    let r = x < y && t[x] == '}';
    assert(r == starts_with(t@.subrange(x as int, y as int), seq!['}'])) by {
        if x < y {
            assert(t@.subrange(x as int, y as int).subrange(0, 1) =~= seq![t@[x as int]]);
            assert(seq!['}'][0] == '}');
            assert(seq![t@[x as int]][0] == t@[x as int]);
        }
    }
    r
}

/// Reads a script: its metadata keys, its `depends:` references and its phases.
/// Blank lines, comments and unknown lines are skipped; a command line that cannot
/// be read is dropped from its phase.
pub fn parse(text: &str) -> (r: Result<Program, ParseError>)
    ensures
        match r {
            Ok(p) => parse_text(text@) == Ok::<ProgramView, ParseError>(p@),
            Err(e) => parse_text(text@) == Err::<ProgramView, ParseError>(e),
        },
{
    let t = chars_of(text);
    let lines = line_bounds(&t);
    let ghost ls = lines_of(t@);
    let n = lines.len();
    let mut p = Program {
        name: String::new(),
        version: String::new(),
        description: String::new(),
        author: String::new(),
        depends: Vec::new(),
        phases: Vec::new(),
    };
    assert(p@ =~= empty_program());
    let mut i: usize = 0;
    while i < n
        invariant
            t@ == text@,
            ls == lines_of(t@),
            n == ls.len(),
            n == lines@.len(),
            forall|k: int|
                0 <= k < lines@.len() ==> (#[trigger] lines@[k]).0 <= lines@[k].1 <= t@.len()
                    && t@.subrange(lines@[k].0 as int, lines@[k].1 as int) == ls[k],
            i <= n,
            parse_lines(ls, i as int, p@) == parse_lines(ls, 0, empty_program()),
        decreases n - i,
    {
        let (lo, hi) = lines[i];
        assert(t@.subrange(lo as int, hi as int) == ls[i as int]);
        let (x, y) = trim_bounds(&t, lo, hi);
        let ghost before = p@;
        if x == y || t[x] == '#' {
            i = i + 1;
            continue;
        }
        let q = quoted_at(&t, x, y);
        let (qa, qb) = match q {
            Some(b) => b,
            None => (x, x),
        };
        if starts_with_at(&t, x, y, "package:") {
            if q.is_none() {
                return Err(ParseError::Unquoted { line: i + 1 });
            }
            p.name = text_of(text, qa, qb);
            assert(p@ =~= ProgramView { name: t@.subrange(qa as int, qb as int), ..before });
            i = i + 1;
        } else if starts_with_at(&t, x, y, "version:") {
            if q.is_none() {
                return Err(ParseError::Unquoted { line: i + 1 });
            }
            p.version = text_of(text, qa, qb);
            assert(p@ =~= ProgramView { version: t@.subrange(qa as int, qb as int), ..before });
            i = i + 1;
        } else if starts_with_at(&t, x, y, "description:") {
            if q.is_none() {
                return Err(ParseError::Unquoted { line: i + 1 });
            }
            p.description = text_of(text, qa, qb);
            assert(p@ =~= ProgramView {
                description: t@.subrange(qa as int, qb as int),
                ..before
            });
            i = i + 1;
        } else if starts_with_at(&t, x, y, "author:") {
            if q.is_none() {
                return Err(ParseError::Unquoted { line: i + 1 });
            }
            p.author = text_of(text, qa, qb);
            assert(p@ =~= ProgramView { author: t@.subrange(qa as int, qb as int), ..before });
            i = i + 1;
        } else if starts_with_at(&t, x, y, "depends:") {
            let k = "depends:".unicode_len();
            let ghost tl = t@.subrange(x as int, y as int);
            assert(tl.subrange(k as int, tl.len() as int) =~= t@.subrange(x + k, y as int));
            p.depends = depends_at(text, &t, x + k, y);
            assert(p@ =~= ProgramView {
                depends: depends_of(tl.subrange(k as int, tl.len() as int)),
                ..before
            });
            i = i + 1;
        } else if starts_with_at(&t, x, y, "phase") {
            if q.is_none() {
                return Err(ParseError::UnnamedPhase { line: i + 1 });
            }
            let name = text_of(text, qa, qb);
            let start = if contains_at(&t, lo, hi, '{') {
                i + 1
            } else {
                let mut j = i + 1;
                while j < n && !contains_at(&t, lines[j].0, lines[j].1, '{')
                    invariant
                        n == ls.len(),
                        n == lines@.len(),
                        forall|k: int|
                            0 <= k < lines@.len() ==> (#[trigger] lines@[k]).0 <= lines@[k].1
                                <= t@.len() && t@.subrange(lines@[k].0 as int, lines@[k].1 as int)
                                == ls[k],
                        i + 1 <= j <= n,
                        brace_line(ls, j as int) == brace_line(ls, i + 1),
                    decreases n - j,
                {
                    assert(t@.subrange(lines@[j as int].0 as int, lines@[j as int].1 as int)
                        == ls[j as int]);
                    j = j + 1;
                }
                if j < n {
                    assert(t@.subrange(lines@[j as int].0 as int, lines@[j as int].1 as int)
                        == ls[j as int]);
                    j + 1
                } else {
                    n
                }
            };
            assert(start == body_start(ls, i as int));
            let mut commands: Vec<Command<String>> = Vec::new();
            let mut k = start;
            while k < n && !closes_phase(&t, lines[k].0, lines[k].1)
                invariant
                    t@ == text@,
                    n == ls.len(),
                    n == lines@.len(),
                    forall|k: int|
                        0 <= k < lines@.len() ==> (#[trigger] lines@[k]).0 <= lines@[k].1
                            <= t@.len() && t@.subrange(lines@[k].0 as int, lines@[k].1 as int)
                            == ls[k],
                    start <= k <= n,
                    close_line(ls, k as int) == close_line(ls, start as int),
                    commands@.map_values(|c: Command<String>| c@) == phase_commands(
                        ls,
                        start as int,
                        k as int,
                    ),
                decreases n - k,
            {
                let (lo2, hi2) = lines[k];
                assert(t@.subrange(lo2 as int, hi2 as int) == ls[k as int]);
                let ghost cmds_before = commands@.map_values(|c: Command<String>| c@);
                let (cx, cy) = trim_bounds(&t, lo2, hi2);
                if cx < cy && t[cx] != '#' {
                    match command_at(text, &t, cx, cy) {
                        Some(c) => {
                            commands.push(c);
                        },
                        None => {},
                    }
                }
                assert(commands@.map_values(|c: Command<String>| c@) =~= cmds_before
                    + line_command(ls[k as int]));
                k = k + 1;
            }
            if k < n {
                assert(t@.subrange(lines@[k as int].0 as int, lines@[k as int].1 as int)
                    == ls[k as int]);
            }
            assert(k == close_line(ls, start as int));
            let phase = Phase { name, commands };
            let ghost pv = phase@;
            p.phases.push(phase);
            assert(p@ =~= ProgramView { phases: before.phases.push(pv), ..before });
            i = if k < n {
                k + 1
            } else {
                n
            };
        } else {
            i = i + 1;
        }
    }
    if p.name.as_str().unicode_len() == 0 {
        Err(ParseError::MissingName)
    } else {
        Ok(p)
    }
}

/// Whether line `l` gives the program a name: trimmed, it starts with `package:`
/// and quotes a non-empty value.
pub open spec fn names_program(l: Seq<char>) -> bool {
    let t = trim(l);
    &&& starts_with(t, "package:"@)
    &&& quoted(t) is Some
    &&& quoted(t)->0.len() > 0
}

proof fn lemma_unnamed_from(ls: Seq<Seq<char>>, i: int, p: ProgramView)
    requires
        0 <= i,
        p.name.len() == 0,
        forall|k: int| i <= k < ls.len() ==> !names_program(#[trigger] ls[k]),
    ensures
        parse_lines(ls, i, p) is Err,
    decreases ls.len() - i,
{
    if i < ls.len() {
        let t = trim(ls[i]);
        let q = quoted(t);
        assert(!names_program(ls[i]));
        if blank_or_comment(t) {
            lemma_unnamed_from(ls, i + 1, p);
        } else if starts_with(t, "package:"@) {
            if q is Some {
                lemma_unnamed_from(ls, i + 1, ProgramView { name: q->0, ..p });
            }
        } else if starts_with(t, "version:"@) {
            if q is Some {
                lemma_unnamed_from(ls, i + 1, ProgramView { version: q->0, ..p });
            }
        } else if starts_with(t, "description:"@) {
            if q is Some {
                lemma_unnamed_from(ls, i + 1, ProgramView { description: q->0, ..p });
            }
        } else if starts_with(t, "author:"@) {
            if q is Some {
                lemma_unnamed_from(ls, i + 1, ProgramView { author: q->0, ..p });
            }
        } else if starts_with(t, "depends:"@) {
            lemma_unnamed_from(
                ls,
                i + 1,
                ProgramView { depends: depends_of(t.subrange("depends:"@.len() as int, t.len() as int)), ..p },
            );
        } else if starts_with(t, "phase"@) {
            if q is Some {
                let start = body_start(ls, i);
                let phase = PhaseView {
                    name: q->0,
                    commands: phase_commands(ls, start, close_line(ls, start)),
                };
                lemma_after_phase(ls, i);
                lemma_unnamed_from(ls, after_phase(ls, i), ProgramView { phases: p.phases.push(phase), ..p });
            }
        } else {
            lemma_unnamed_from(ls, i + 1, p);
        }
    }
}

/// A script with no line that names the program (no `package:` line, or none with
/// a quoted, non-empty value) gives no program.
pub proof fn unnamed_script_fails(t: Seq<char>)
    requires
        forall|k: int| 0 <= k < lines_of(t).len() ==> !names_program(#[trigger] lines_of(t)[k]),
    ensures
        parse_text(t) is Err,
{
    lemma_unnamed_from(lines_of(t), 0, empty_program());
}

} // verus!
