use vstd::prelude::*;

use crate::diag::{Position, Range, spec_pos_le};
use crate::query::{PredArg, PredArgV, QueryElem, QueryElemV, elems_view, args_view,
    spec_arg_range, spec_elem_wf, spec_wf_range};

verus! {

/// Whether `c` may start an identifier: a letter or an underscore.
pub open spec fn spec_is_ident_start(c: char) -> bool {
    let u = c as u32;
    (97 <= u && u <= 122) || (65 <= u && u <= 90) || u == 95
}

/// Whether `c` may continue an identifier: a letter, a digit, an
/// underscore, a dash or a dot (capture and predicate names use the
/// last two).
pub open spec fn spec_is_ident_char(c: char) -> bool {
    spec_is_ident_start(c) || spec_is_digit(c) || c as u32 == 45 || c as u32 == 46
}

/// Whether `c` is an ASCII digit.
pub open spec fn spec_is_digit(c: char) -> bool {
    48 <= c as u32 && c as u32 <= 57
}

fn is_ident_start(c: char) -> (r: bool)
    ensures
        r == spec_is_ident_start(c),
{
    let u = c as u32;
    (97 <= u && u <= 122) || (65 <= u && u <= 90) || u == 95
}

fn is_ident_char(c: char) -> (r: bool)
    ensures
        r == spec_is_ident_char(c),
{
    let u = c as u32;
    is_ident_start(c) || (48 <= u && u <= 57) || u == 45 || u == 46
}

fn is_digit(c: char) -> (r: bool)
    ensures
        r == spec_is_digit(c),
{
    let u = c as u32;
    48 <= u && u <= 57
}

/// The index one past the identifier-character run starting at `j`.
pub open spec fn spec_ident_end(s: Seq<char>, j: int) -> int
    decreases s.len() - j,
{
    if 0 <= j < s.len() && spec_is_ident_char(s[j]) {
        spec_ident_end(s, j + 1)
    } else {
        j
    }
}

pub proof fn lemma_ident_end_bounds(s: Seq<char>, j: int)
    requires
        0 <= j <= s.len(),
    ensures
        j <= spec_ident_end(s, j) <= s.len(),
    decreases s.len() - j,
{
    if j < s.len() && spec_is_ident_char(s[j]) {
        lemma_ident_end_bounds(s, j + 1);
    }
}

/// The index of the next line break at or after `j`, or the end of input.
pub open spec fn spec_line_end(s: Seq<char>, j: int) -> int
    decreases s.len() - j,
{
    if 0 <= j < s.len() && s[j] != '\n' {
        spec_line_end(s, j + 1)
    } else {
        j
    }
}

pub proof fn lemma_line_end_bounds(s: Seq<char>, j: int)
    requires
        0 <= j <= s.len(),
    ensures
        j <= spec_line_end(s, j) <= s.len(),
    decreases s.len() - j,
{
    if j < s.len() && s[j] != '\n' {
        lemma_line_end_bounds(s, j + 1);
    }
}

/// The index one past a string literal whose first content character is
/// at `j`, and whether the literal was closed before a line break or the
/// end of input. A backslash escapes the next character.
pub open spec fn spec_string_end(s: Seq<char>, j: int) -> (int, bool)
    decreases s.len() - j,
{
    if j < 0 || j >= s.len() {
        (j, false)
    } else if s[j] == '"' {
        (j + 1, true)
    } else if s[j] == '\n' {
        (j, false)
    } else if s[j] == '\\' {
        if j + 1 < s.len() {
            spec_string_end(s, j + 2)
        } else {
            (j + 1, false)
        }
    } else {
        spec_string_end(s, j + 1)
    }
}

pub proof fn lemma_string_end_bounds(s: Seq<char>, j: int)
    requires
        0 <= j <= s.len(),
    ensures
        j <= spec_string_end(s, j).0 <= s.len(),
    decreases s.len() - j,
{
    if j < s.len() {
        if s[j] == '\\' {
            if j + 1 < s.len() {
                lemma_string_end_bounds(s, j + 2);
            }
        } else if s[j] != '"' && s[j] != '\n' {
            lemma_string_end_bounds(s, j + 1);
        }
    }
}

/// The single-line range starting at (`line`, `col`) and spanning `len`
/// characters.
pub open spec fn spec_span(line: int, col: int, len: int) -> Range {
    Range {
        start: Position { line: line as usize, character: col as usize },
        end: Position { line: line as usize, character: (col + len) as usize },
    }
}

/// The outcome of scanning an invocation's arguments: the arguments, the
/// error elements found among them, and the position of the closing
/// paren (or end of input).
pub ghost struct ArgScan {
    pub args: Seq<PredArgV>,
    pub errs: Seq<QueryElemV>,
    pub end_i: int,
    pub end_line: int,
    pub end_col: int,
}

/// Scan invocation arguments from `i` up to a closing paren or the end
/// of input, mirroring one argument token per step.
pub open spec fn spec_scan_args(s: Seq<char>, i: int, line: int, col: int) -> ArgScan
    decreases s.len() - i,
        when 0 <= i <= s.len()
        via spec_scan_args_dec
{
    if i >= s.len() || s[i] == ')' {
        ArgScan { args: Seq::empty(), errs: Seq::empty(), end_i: i, end_line: line, end_col: col }
    } else if s[i] == '\n' {
        spec_scan_args(s, i + 1, line + 1, 0)
    } else if s[i] == ' ' || s[i] == '\t' || s[i] == '\r' {
        spec_scan_args(s, i + 1, line, col + 1)
    } else if s[i] == '@' {
        let m = spec_ident_end(s, i + 1);
        if m > i + 1 {
            let rest = spec_scan_args(s, m, line, col + (m - i));
            ArgScan {
                args: seq![
                    PredArgV::Capture {
                        name: s.subrange(i + 1, m),
                        range: spec_span(line, col, m - i),
                    },
                ] + rest.args,
                errs: rest.errs,
                end_i: rest.end_i,
                end_line: rest.end_line,
                end_col: rest.end_col,
            }
        } else {
            let rest = spec_scan_args(s, i + 1, line, col + 1);
            ArgScan {
                args: rest.args,
                errs: seq![QueryElemV::ErrorNode { range: spec_span(line, col, 1) }] + rest.errs,
                end_i: rest.end_i,
                end_line: rest.end_line,
                end_col: rest.end_col,
            }
        }
    } else if s[i] == '"' {
        let m = spec_string_end(s, i + 1).0;
        let closed = spec_string_end(s, i + 1).1;
        let rest = spec_scan_args(s, m, line, col + (m - i));
        if closed {
            ArgScan {
                args: seq![
                    PredArgV::Str {
                        value: s.subrange(i + 1, m - 1),
                        range: spec_span(line, col, m - i),
                    },
                ] + rest.args,
                errs: rest.errs,
                end_i: rest.end_i,
                end_line: rest.end_line,
                end_col: rest.end_col,
            }
        } else {
            ArgScan {
                args: rest.args,
                errs: seq![QueryElemV::ErrorNode { range: spec_span(line, col, m - i) }]
                    + rest.errs,
                end_i: rest.end_i,
                end_line: rest.end_line,
                end_col: rest.end_col,
            }
        }
    } else if spec_is_digit(s[i]) {
        let m = spec_ident_end(s, i);
        let rest = spec_scan_args(s, m, line, col + (m - i));
        ArgScan {
            args: seq![
                PredArgV::Num { value: s.subrange(i, m), range: spec_span(line, col, m - i) },
            ] + rest.args,
            errs: rest.errs,
            end_i: rest.end_i,
            end_line: rest.end_line,
            end_col: rest.end_col,
        }
    } else if spec_is_ident_start(s[i]) {
        let m = spec_ident_end(s, i);
        let rest = spec_scan_args(s, m, line, col + (m - i));
        ArgScan {
            args: seq![
                PredArgV::Ident { value: s.subrange(i, m), range: spec_span(line, col, m - i) },
            ] + rest.args,
            errs: rest.errs,
            end_i: rest.end_i,
            end_line: rest.end_line,
            end_col: rest.end_col,
        }
    } else {
        let rest = spec_scan_args(s, i + 1, line, col + 1);
        ArgScan {
            args: rest.args,
            errs: seq![QueryElemV::ErrorNode { range: spec_span(line, col, 1) }] + rest.errs,
            end_i: rest.end_i,
            end_line: rest.end_line,
            end_col: rest.end_col,
        }
    }
}

#[via_fn]
proof fn spec_scan_args_dec(s: Seq<char>, i: int, line: int, col: int) {
    if 0 <= i < s.len() {
        lemma_ident_end_bounds(s, i);
        lemma_ident_end_bounds(s, i + 1);
        lemma_string_end_bounds(s, i + 1);
    }
}

pub proof fn lemma_scan_args_bounds(s: Seq<char>, i: int, line: int, col: int)
    requires
        0 <= i <= s.len(),
    ensures
        i <= spec_scan_args(s, i, line, col).end_i <= s.len(),
    decreases s.len() - i,
{
    if i < s.len() && s[i] != ')' {
        if s[i] == '\n' {
            lemma_scan_args_bounds(s, i + 1, line + 1, 0);
        } else if s[i] == ' ' || s[i] == '\t' || s[i] == '\r' {
            lemma_scan_args_bounds(s, i + 1, line, col + 1);
        } else if s[i] == '@' {
            lemma_ident_end_bounds(s, i + 1);
            let m = spec_ident_end(s, i + 1);
            if m > i + 1 {
                lemma_scan_args_bounds(s, m, line, col + (m - i));
            } else {
                lemma_scan_args_bounds(s, i + 1, line, col + 1);
            }
        } else if s[i] == '"' {
            lemma_string_end_bounds(s, i + 1);
            let m = spec_string_end(s, i + 1).0;
            assert(i + 1 <= m <= s.len());
            lemma_scan_args_bounds(s, m, line, col + (m - i));
        } else if spec_is_digit(s[i]) || spec_is_ident_start(s[i]) {
            lemma_ident_end_bounds(s, i + 1);
            let m = spec_ident_end(s, i);
            assert(m == spec_ident_end(s, i + 1));
            lemma_scan_args_bounds(s, m, line, col + (m - i));
        } else {
            lemma_scan_args_bounds(s, i + 1, line, col + 1);
        }
    }
}

/// The element sequence scanned from position `i` of `s`, with `depth`
/// open parens and `brackets` open alternations before it. This is the
/// meaning of the parse: `parse_elements` returns exactly this sequence,
/// element for element.
pub open spec fn spec_scan(
    s: Seq<char>,
    i: int,
    line: int,
    col: int,
    depth: int,
    brackets: int,
) -> Seq<QueryElemV>
    decreases s.len() - i,
        when 0 <= i <= s.len()
        via spec_scan_dec
{
    if i >= s.len() {
        if depth > 0 || brackets > 0 {
            seq![QueryElemV::MissingNode { range: spec_span(line, col, 0) }]
        } else {
            Seq::empty()
        }
    } else if s[i] == '\n' {
        spec_scan(s, i + 1, line + 1, 0, depth, brackets)
    } else if s[i] == ' ' || s[i] == '\t' || s[i] == '\r' {
        spec_scan(s, i + 1, line, col + 1, depth, brackets)
    } else if s[i] == ';' {
        let j = spec_line_end(s, i + 1);
        spec_scan(s, j, line, col + (j - i), depth, brackets)
    } else if s[i] == '(' {
        spec_scan(s, i + 1, line, col + 1, depth + 1, brackets)
    } else if s[i] == ')' {
        if depth > 0 {
            spec_scan(s, i + 1, line, col + 1, depth - 1, brackets)
        } else {
            seq![QueryElemV::ErrorNode { range: spec_span(line, col, 1) }] + spec_scan(
                s,
                i + 1,
                line,
                col + 1,
                depth,
                brackets,
            )
        }
    } else if s[i] == '[' {
        seq![QueryElemV::AlternationOpen { range: spec_span(line, col, 1) }] + spec_scan(
            s,
            i + 1,
            line,
            col + 1,
            depth,
            brackets + 1,
        )
    } else if s[i] == ']' {
        if brackets > 0 {
            seq![QueryElemV::AlternationClose { range: spec_span(line, col, 1) }] + spec_scan(
                s,
                i + 1,
                line,
                col + 1,
                depth,
                brackets - 1,
            )
        } else {
            seq![QueryElemV::ErrorNode { range: spec_span(line, col, 1) }] + spec_scan(
                s,
                i + 1,
                line,
                col + 1,
                depth,
                brackets,
            )
        }
    } else if s[i] == '.' {
        seq![QueryElemV::Anchor { range: spec_span(line, col, 1) }] + spec_scan(
            s,
            i + 1,
            line,
            col + 1,
            depth,
            brackets,
        )
    } else if s[i] == '?' || s[i] == '*' || s[i] == '+' {
        seq![QueryElemV::Quantifier { range: spec_span(line, col, 1) }] + spec_scan(
            s,
            i + 1,
            line,
            col + 1,
            depth,
            brackets,
        )
    } else if s[i] == '@' {
        let j = spec_ident_end(s, i + 1);
        if j > i + 1 {
            seq![
                QueryElemV::Capture {
                    name: s.subrange(i + 1, j),
                    range: spec_span(line, col, j - i),
                },
            ] + spec_scan(s, j, line, col + (j - i), depth, brackets)
        } else {
            seq![QueryElemV::ErrorNode { range: spec_span(line, col, 1) }] + spec_scan(
                s,
                i + 1,
                line,
                col + 1,
                depth,
                brackets,
            )
        }
    } else if s[i] == '"' {
        let m = spec_string_end(s, i + 1).0;
        let closed = spec_string_end(s, i + 1).1;
        (if closed {
            seq![
                QueryElemV::AnonymousNode {
                    value: s.subrange(i + 1, m - 1),
                    range: spec_span(line, col, m - i),
                },
            ]
        } else {
            seq![QueryElemV::ErrorNode { range: spec_span(line, col, m - i) }]
        }) + spec_scan(s, m, line, col + (m - i), depth, brackets)
    } else if s[i] == '#' {
        let j = spec_ident_end(s, i + 1);
        if j == i + 1 {
            seq![QueryElemV::ErrorNode { range: spec_span(line, col, 1) }] + spec_scan(
                s,
                i + 1,
                line,
                col + 1,
                depth,
                brackets,
            )
        } else {
            let is_predicate = j < s.len() && s[j] == '?';
            let k = if j < s.len() && (s[j] == '?' || s[j] == '!') {
                j + 1
            } else {
                j
            };
            let sa = spec_scan_args(s, k, line, col + (k - i));
            seq![
                QueryElemV::Predicate {
                    name: s.subrange(i + 1, j),
                    name_range: spec_span(line, col, k - i),
                    is_predicate: is_predicate,
                    args: sa.args,
                    range: Range {
                        start: Position { line: line as usize, character: col as usize },
                        end: Position {
                            line: sa.end_line as usize,
                            character: sa.end_col as usize,
                        },
                    },
                },
            ] + sa.errs + spec_scan(s, sa.end_i, sa.end_line, sa.end_col, depth, brackets)
        }
    } else if spec_is_ident_start(s[i]) {
        let j = spec_ident_end(s, i);
        let text = s.subrange(i, j);
        if j < s.len() && s[j] == ':' {
            seq![QueryElemV::FieldName { name: text, range: spec_span(line, col, j - i) }]
                + spec_scan(s, j + 1, line, col + (j - i) + 1, depth, brackets)
        } else if j < s.len() && s[j] == '/' {
            if j + 1 < s.len() && spec_is_ident_start(s[j + 1]) {
                let k = spec_ident_end(s, j + 1);
                seq![
                    QueryElemV::SupertypeNode {
                        supertype: text,
                        supertype_range: spec_span(line, col, j - i),
                        subtype: s.subrange(j + 1, k),
                        subtype_range: spec_span(line, col + (j - i) + 1, k - (j + 1)),
                    },
                ] + spec_scan(s, k, line, col + (k - i), depth, brackets)
            } else {
                seq![
                    QueryElemV::NamedNode { name: text, range: spec_span(line, col, j - i) },
                    QueryElemV::ErrorNode { range: spec_span(line, col + (j - i), 1) },
                ] + spec_scan(s, j + 1, line, col + (j - i) + 1, depth, brackets)
            }
        } else if text == "MISSING"@ {
            seq![QueryElemV::MissingKeyword { range: spec_span(line, col, j - i) }] + spec_scan(
                s,
                j,
                line,
                col + (j - i),
                depth,
                brackets,
            )
        } else if text == "_"@ {
            seq![QueryElemV::Wildcard { range: spec_span(line, col, j - i) }] + spec_scan(
                s,
                j,
                line,
                col + (j - i),
                depth,
                brackets,
            )
        } else {
            seq![QueryElemV::NamedNode { name: text, range: spec_span(line, col, j - i) }]
                + spec_scan(s, j, line, col + (j - i), depth, brackets)
        }
    } else if spec_is_digit(s[i]) {
        let j = spec_ident_end(s, i);
        seq![QueryElemV::ErrorNode { range: spec_span(line, col, j - i) }] + spec_scan(
            s,
            j,
            line,
            col + (j - i),
            depth,
            brackets,
        )
    } else {
        seq![QueryElemV::ErrorNode { range: spec_span(line, col, 1) }] + spec_scan(
            s,
            i + 1,
            line,
            col + 1,
            depth,
            brackets,
        )
    }
}

#[via_fn]
proof fn spec_scan_dec(s: Seq<char>, i: int, line: int, col: int, depth: int, brackets: int) {
    if 0 <= i < s.len() {
        lemma_ident_end_bounds(s, i);
        lemma_ident_end_bounds(s, i + 1);
        lemma_line_end_bounds(s, i + 1);
        lemma_string_end_bounds(s, i + 1);
        let j = spec_ident_end(s, i + 1);
        if j > i + 1 {
            if j < s.len() && (s[j] == '?' || s[j] == '!') {
                lemma_scan_args_bounds(s, j + 1, line, col + (j + 1 - i));
            } else {
                lemma_scan_args_bounds(s, j, line, col + (j - i));
            }
        }
        let j2 = spec_ident_end(s, i);
        if j2 < s.len() {
            lemma_ident_end_bounds(s, j2 + 1);
        }
    }
}

/// The meaning of parsing a whole source text: the scan from its start.
pub open spec fn spec_parse_elements(s: Seq<char>) -> Seq<QueryElemV> {
    spec_scan(s, 0, 0, 0, 0, 0)
}

/// The index one past the last identifier character of the run starting
/// at `start`.
fn scan_ident_end(s: &str, start: usize, n: usize) -> (j: usize)
    requires
        n == s@.len(),
        start <= n,
    ensures
        start <= j <= n,
        start < n && spec_is_ident_char(s@[start as int]) ==> j > start,
        j as int == spec_ident_end(s@, start as int),
{
    let mut j = start;
    while j < n && is_ident_char(s.get_char(j))
        invariant
            start <= j <= n,
            n == s@.len(),
            spec_ident_end(s@, start as int) == spec_ident_end(s@, j as int),
            j > start || j == start,
            start < n && spec_is_ident_char(s@[start as int]) && j == start ==> true,
        decreases n - j,
    {
        j = j + 1;
    }
    proof {
        if start < n && spec_is_ident_char(s@[start as int]) {
            assert(spec_ident_end(s@, start as int) >= start + 1) by {
                lemma_ident_end_bounds(s@, start as int + 1);
            }
        }
    }
    j
}

/// The index one past a string literal opened by the quote at `start`,
/// and whether the literal was closed before a line break or the end of
/// input. A backslash escapes the next character.
fn scan_string_end(s: &str, start: usize, n: usize) -> (res: (usize, bool))
    requires
        n == s@.len(),
        start < n,
    ensures
        start < res.0 <= n,
        res.1 ==> start + 2 <= res.0,
        res.0 as int == spec_string_end(s@, start as int + 1).0,
        res.1 == spec_string_end(s@, start as int + 1).1,
{
    let mut j = start + 1;
    let mut closed = false;
    let mut done = false;
    while j < n && !done
        invariant
            start + 1 <= j <= n,
            n == s@.len(),
            closed ==> start + 2 <= j,
            closed ==> done,
            done ==> spec_string_end(s@, start as int + 1) == (j as int, closed),
            !done ==> spec_string_end(s@, start as int + 1) == spec_string_end(s@, j as int),
        decreases n - j, (if done { 0int } else { 1int }),
    {
        let c = s.get_char(j);
        if c == '"' {
            j = j + 1;
            closed = true;
            done = true;
        } else if c == '\n' {
            done = true;
        } else if c == '\\' {
            if j + 1 < n {
                j = j + 2;
            } else {
                j = j + 1;
            }
        } else {
            j = j + 1;
        }
    }
    (j, closed)
}

/// The index of the next line break at or after `start`, or the end of
/// input.
fn scan_line_end(s: &str, start: usize, n: usize) -> (j: usize)
    requires
        n == s@.len(),
        start <= n,
    ensures
        start <= j <= n,
        j as int == spec_line_end(s@, start as int),
{
    let mut j = start;
    while j < n && s.get_char(j) != '\n'
        invariant
            start <= j <= n,
            n == s@.len(),
            spec_line_end(s@, start as int) == spec_line_end(s@, j as int),
        decreases n - j,
    {
        j = j + 1;
    }
    j
}

/// A single-line range starting at (`line`, `col`) and spanning `len`
/// characters.
fn span(line: usize, col: usize, len: usize) -> (r: Range)
    requires
        col + len <= usize::MAX,
    ensures
        r == (Range {
            start: Position { line, character: col },
            end: Position { line, character: (col + len) as usize },
        }),
        r == spec_span(line as int, col as int, len as int),
{
    Range {
        start: Position { line, character: col },
        end: Position { line, character: col + len },
    }
}

/// Append an element whose ranges are well-formed, keeping the whole
/// list well-formed.
fn push_elem(elems: &mut Vec<QueryElem>, e: QueryElem)
    requires
        spec_elem_wf(e@),
        forall|k: int|
            0 <= k < old(elems)@.len() ==> spec_elem_wf(#[trigger] elems_view(old(elems)@)[k]),
    ensures
        final(elems)@ == old(elems)@.push(e),
        elems_view(final(elems)@) == elems_view(old(elems)@).push(e@),
        forall|k: int|
            0 <= k < final(elems)@.len() ==> spec_elem_wf(#[trigger] elems_view(final(elems)@)[k]),
{
    let ghost ev = e@;
    let ghost prev = elems@;
    elems.push(e);
    proof {
        assert(elems_view(elems@) =~= elems_view(prev).push(ev));
        assert forall|k: int|
            0 <= k < elems@.len() implies spec_elem_wf(#[trigger] elems_view(elems@)[k]) by {
            if k < prev.len() {
                assert(elems_view(elems@)[k] == elems_view(prev)[k]);
            } else {
                assert(elems_view(elems@)[k] == ev);
            }
        }
    }
}

/// Append an argument whose range is well-formed, keeping the whole
/// list well-formed.
fn push_arg(args: &mut Vec<PredArg>, a: PredArg)
    requires
        spec_wf_range(spec_arg_range(a@)),
        forall|k: int|
            0 <= k < old(args)@.len() ==> spec_wf_range(spec_arg_range(#[trigger] old(args)@[k]@)),
    ensures
        final(args)@ == old(args)@.push(a),
        args_view(final(args)@) == args_view(old(args)@).push(a@),
        forall|k: int|
            0 <= k < final(args)@.len() ==> spec_wf_range(
                spec_arg_range(#[trigger] final(args)@[k]@),
            ),
{
    args.push(a);
    proof {
        assert(args_view(args@) =~= args_view(old(args)@).push(a@));
    }
}

/// Scan the arguments of one invocation from `i` up to the closing
/// paren or the end of input: the argument list, the error elements
/// found among the arguments, and the end position.
#[verifier::loop_isolation(false)]
#[verifier::rlimit(100)]
fn scan_invocation_args(s: &str, n: usize, i: usize, line: usize, col: usize) -> (r: (
    Vec<PredArg>,
    Vec<QueryElem>,
    usize,
    usize,
    usize,
))
    requires
        n == s@.len(),
        i <= n,
        col <= i,
        line <= i,
    ensures
        ({
            let sa = spec_scan_args(s@, i as int, line as int, col as int);
            &&& args_view(r.0@) == sa.args
            &&& elems_view(r.1@) == sa.errs
            &&& r.2 as int == sa.end_i
            &&& r.3 as int == sa.end_line
            &&& r.4 as int == sa.end_col
        }),
        i <= r.2 <= n,
        r.3 <= r.2,
        r.4 <= r.2,
        forall|t: int| 0 <= t < r.0@.len() ==> spec_wf_range(spec_arg_range(#[trigger] r.0@[t]@)),
        forall|t: int|
            0 <= t < r.1@.len() ==> spec_elem_wf(#[trigger] elems_view(r.1@)[t]),
        spec_pos_le(
            Position { line, character: col },
            Position { line: r.3, character: r.4 },
        ),
{
    let ghost i0 = i as int;
    let ghost sa0 = spec_scan_args(s@, i as int, line as int, col as int);
    let entry_line = line;
    let entry_col = col;
    let mut i = i;
    let mut line = line;
    let mut col = col;
    let mut args: Vec<PredArg> = Vec::new();
    let mut arg_errs: Vec<QueryElem> = Vec::new();
    proof {
        assert(args_view(args@) =~= Seq::<PredArgV>::empty());
        assert(elems_view(arg_errs@) =~= Seq::<QueryElemV>::empty());
        assert(Seq::<PredArgV>::empty() + sa0.args =~= sa0.args);
        assert(Seq::<QueryElemV>::empty() + sa0.errs =~= sa0.errs);
    }
    while i < n && s.get_char(i) != ')'
        invariant
            i0 <= i as int,
            i <= n,
            n == s@.len(),
            col <= i,
            line <= i,
            sa0.args == args_view(args@) + spec_scan_args(
                s@,
                i as int,
                line as int,
                col as int,
            ).args,
            sa0.errs == elems_view(arg_errs@) + spec_scan_args(
                s@,
                i as int,
                line as int,
                col as int,
            ).errs,
            sa0.end_i == spec_scan_args(s@, i as int, line as int, col as int).end_i,
            sa0.end_line == spec_scan_args(
                s@,
                i as int,
                line as int,
                col as int,
            ).end_line,
            sa0.end_col == spec_scan_args(
                s@,
                i as int,
                line as int,
                col as int,
            ).end_col,
            forall|t: int|
                0 <= t < args@.len() ==> spec_wf_range(
                    spec_arg_range(#[trigger] args@[t]@),
                ),
            forall|t: int|
                0 <= t < arg_errs@.len() ==> spec_elem_wf(
                    #[trigger] elems_view(arg_errs@)[t],
                ),
            spec_pos_le(
                Position { line: entry_line, character: entry_col },
                Position { line, character: col },
            ),
        decreases n - i,
    {
        let ghost ii0 = i as int;
        let ghost ll0 = line as int;
        let ghost cc0 = col as int;
        let ghost sac = spec_scan_args(s@, ii0, ll0, cc0);
        let ghost av0 = args_view(args@);
        let ghost ev0 = elems_view(arg_errs@);
        let a = s.get_char(i);
        if a == '\n' {
            i = i + 1;
            line = line + 1;
            col = 0;
        } else if a == ' ' || a == '\t' || a == '\r' {
            i = i + 1;
            col = col + 1;
        } else if a == '@' {
            let m = scan_ident_end(s, i + 1, n);
            if m > i + 1 {
                let cname = s.substring_char(i + 1, m).to_owned();
                let arg = PredArg::Capture {
                    name: cname,
                    range: span(line, col, m - i),
                };
                proof {
                    let rest = spec_scan_args(s@, m as int, ll0, cc0 + (m - ii0));
                    assert(sac.args == seq![arg@] + rest.args);
                    assert(av0.push(arg@) =~= av0 + seq![arg@]);
                    assert(av0 + (seq![arg@] + rest.args) =~= (av0 + seq![arg@])
                        + rest.args);
                }
                push_arg(&mut args, arg);
                col = col + (m - i);
                i = m;
            } else {
                let e = QueryElem::ErrorNode { range: span(line, col, 1) };
                proof {
                    let rest = spec_scan_args(s@, ii0 + 1, ll0, cc0 + 1);
                    assert(sac.errs == seq![e@] + rest.errs);
                    assert(ev0.push(e@) =~= ev0 + seq![e@]);
                    assert(ev0 + (seq![e@] + rest.errs) =~= (ev0 + seq![e@])
                        + rest.errs);
                }
                push_elem(&mut arg_errs, e);
                i = i + 1;
                col = col + 1;
            }
        } else if a == '"' {
            let (m, closed) = scan_string_end(s, i, n);
            if closed {
                let value = s.substring_char(i + 1, m - 1).to_owned();
                let arg = PredArg::Str { value, range: span(line, col, m - i) };
                proof {
                    let rest = spec_scan_args(s@, m as int, ll0, cc0 + (m - ii0));
                    assert(sac.args == seq![arg@] + rest.args);
                    assert(av0.push(arg@) =~= av0 + seq![arg@]);
                    assert(av0 + (seq![arg@] + rest.args) =~= (av0 + seq![arg@])
                        + rest.args);
                }
                push_arg(&mut args, arg);
            } else {
                let e = QueryElem::ErrorNode { range: span(line, col, m - i) };
                proof {
                    let rest = spec_scan_args(s@, m as int, ll0, cc0 + (m - ii0));
                    assert(sac.errs == seq![e@] + rest.errs);
                    assert(ev0.push(e@) =~= ev0 + seq![e@]);
                    assert(ev0 + (seq![e@] + rest.errs) =~= (ev0 + seq![e@])
                        + rest.errs);
                }
                push_elem(&mut arg_errs, e);
            }
            col = col + (m - i);
            i = m;
        } else if is_digit(a) || is_ident_start(a) {
            let m = scan_ident_end(s, i, n);
            let value = s.substring_char(i, m).to_owned();
            let arg = if is_digit(a) {
                PredArg::Num { value, range: span(line, col, m - i) }
            } else {
                PredArg::Ident { value, range: span(line, col, m - i) }
            };
            proof {
                let rest = spec_scan_args(s@, m as int, ll0, cc0 + (m - ii0));
                assert(sac.args == seq![arg@] + rest.args);
                assert(av0.push(arg@) =~= av0 + seq![arg@]);
                assert(av0 + (seq![arg@] + rest.args) =~= (av0 + seq![arg@])
                    + rest.args);
            }
            push_arg(&mut args, arg);
            col = col + (m - i);
            i = m;
        } else {
            let e = QueryElem::ErrorNode { range: span(line, col, 1) };
            proof {
                let rest = spec_scan_args(s@, ii0 + 1, ll0, cc0 + 1);
                assert(sac.errs == seq![e@] + rest.errs);
                assert(ev0.push(e@) =~= ev0 + seq![e@]);
                assert(ev0 + (seq![e@] + rest.errs) =~= (ev0 + seq![e@]) + rest.errs);
            }
            push_elem(&mut arg_errs, e);
            i = i + 1;
            col = col + 1;
        }
    }
    proof {
        let sac = spec_scan_args(s@, i as int, line as int, col as int);
        assert(sac.args =~= Seq::<PredArgV>::empty());
        assert(sac.errs =~= Seq::<QueryElemV>::empty());
        assert(args_view(args@) + Seq::<PredArgV>::empty() =~= args_view(args@));
        assert(elems_view(arg_errs@) + Seq::<QueryElemV>::empty() =~= elems_view(
            arg_errs@,
        ));
        assert(sa0.args == args_view(args@));
        assert(sa0.errs == elems_view(arg_errs@));
    }
    (args, arg_errs, i, line, col)
}


/// Scan one predicate or directive invocation beginning at the `#` at
/// position `i`, appending its elements, and return the position after
/// it (at the closing paren or the end of input).
#[verifier::loop_isolation(false)]
#[verifier::rlimit(100)]
fn scan_invocation(
    s: &str,
    n: usize,
    elems: &mut Vec<QueryElem>,
    i: usize,
    line: usize,
    col: usize,
    depth: usize,
    brackets: usize,
) -> (r: (usize, usize, usize))
    requires
        n == s@.len(),
        i < n,
        s@[i as int] == '#',
        col <= i,
        line <= i,
        forall|k: int|
            0 <= k < old(elems)@.len() ==> spec_elem_wf(#[trigger] elems_view(old(elems)@)[k]),
    ensures
        i < r.0 <= n,
        r.2 <= r.0,
        r.1 <= r.0,
        forall|k: int|
            0 <= k < final(elems)@.len() ==> spec_elem_wf(#[trigger] elems_view(final(elems)@)[k]),
        elems_view(old(elems)@) + spec_scan(
            s@,
            i as int,
            line as int,
            col as int,
            depth as int,
            brackets as int,
        ) == elems_view(final(elems)@) + spec_scan(
            s@,
            r.0 as int,
            r.1 as int,
            r.2 as int,
            depth as int,
            brackets as int,
        ),
{
    let ghost i0 = i as int;
    let ghost l0 = line as int;
    let ghost c0 = col as int;
    let ghost d0 = depth as int;
    let ghost b0 = brackets as int;
    let ghost e0 = elems_view(elems@);
    let ghost scan0 = spec_scan(s@, i0, l0, c0, d0, b0);
    let mut i = i;
    let mut line = line;
    let mut col = col;

    // predicate or directive invocation
    let name_start_line = line;
    let name_start_col = col;
    let j = scan_ident_end(s, i + 1, n);
    if j == i + 1 {
        let e = QueryElem::ErrorNode { range: span(line, col, 1) };
        proof {
            assert(scan0 == seq![e@] + spec_scan(s@, i0 + 1, l0, c0 + 1, d0, b0));
            assert(e0.push(e@) =~= e0 + seq![e@]);
            assert(e0 + (seq![e@] + spec_scan(s@, i0 + 1, l0, c0 + 1, d0, b0)) =~= (e0
                + seq![e@]) + spec_scan(s@, i0 + 1, l0, c0 + 1, d0, b0));
        }
        push_elem(elems, e);
        i = i + 1;
        col = col + 1;
    } else {
        let name = s.substring_char(i + 1, j).to_owned();
        let mut k = j;
        let mut is_predicate = false;
        if k < n && s.get_char(k) == '?' {
            is_predicate = true;
            k = k + 1;
        } else if k < n && s.get_char(k) == '!' {
            k = k + 1;
        }
        let name_range = span(name_start_line, name_start_col, k - i);
        let ghost k0 = k as int;
        let ghost sa0 = spec_scan_args(s@, k0, l0, c0 + (k0 - i0));
        proof {
            lemma_scan_args_bounds(s@, k0, l0, c0 + (k0 - i0));
        }
        col = col + (k - i);
        i = k;
        // arguments up to the closing paren; error elements found
        // among them are buffered so the invocation element can
        // come first, in document order
        let (args, mut arg_errs, ni, nl, nc) = scan_invocation_args(s, n, i, line, col);
        proof {
            assert(spec_pos_le(
                Position { line: name_start_line, character: name_start_col },
                Position { line: nl, character: nc },
            ));
        }
        i = ni;
        line = nl;
        col = nc;
        let range = Range {
            start: Position { line: name_start_line, character: name_start_col },
            end: Position { line, character: col },
        };
        let e = QueryElem::Predicate { name, name_range, is_predicate, args, range };
        let ghost errs_v = elems_view(arg_errs@);
        proof {
            assert(scan0 == (seq![e@] + sa0.errs) + spec_scan(
                s@,
                sa0.end_i,
                sa0.end_line,
                sa0.end_col,
                d0,
                b0,
            ));
        }
        push_elem(elems, e);
        let ghost mid = elems@;
        elems.append(&mut arg_errs);
        proof {
            assert(elems_view(elems@) =~= elems_view(mid) + errs_v);
            assert(elems_view(mid) == e0.push(e@));
            assert(e0.push(e@) + errs_v =~= e0 + (seq![e@] + errs_v));
            assert(e0 + ((seq![e@] + errs_v) + spec_scan(
                s@,
                sa0.end_i,
                sa0.end_line,
                sa0.end_col,
                d0,
                b0,
            )) =~= (e0 + (seq![e@] + errs_v)) + spec_scan(
                s@,
                sa0.end_i,
                sa0.end_line,
                sa0.end_col,
                d0,
                b0,
            ));
            assert forall|t: int|
                0 <= t < elems@.len() implies spec_elem_wf(
                #[trigger] elems_view(elems@)[t],
            ) by {
                if t < mid.len() {
                    assert(elems_view(elems@)[t] == elems_view(mid)[t]);
                } else {
                    assert(elems_view(elems@)[t] == errs_v[t - mid.len()]);
                }
            }
        }
    
    }
    (i, line, col)
}

/// Scan one identifier-led token (a node reference, supertype pair,
/// field name, `MISSING` keyword or wildcard) beginning at position `i`,
/// appending its elements, and return the position after it.
#[verifier::loop_isolation(false)]
#[verifier::rlimit(100)]
fn scan_name(
    s: &str,
    n: usize,
    elems: &mut Vec<QueryElem>,
    i: usize,
    line: usize,
    col: usize,
    depth: usize,
    brackets: usize,
    missing_kw: &String,
    wildcard_tok: &String,
) -> (r: (usize, usize, usize))
    requires
        n == s@.len(),
        i < n,
        spec_is_ident_start(s@[i as int]),
        !spec_is_digit(s@[i as int]),
        s@[i as int] != '#',
        missing_kw@ == "MISSING"@,
        wildcard_tok@ == "_"@,
        col <= i,
        line <= i,
        forall|k: int|
            0 <= k < old(elems)@.len() ==> spec_elem_wf(#[trigger] elems_view(old(elems)@)[k]),
    ensures
        i < r.0 <= n,
        r.2 <= r.0,
        r.1 <= r.0,
        forall|k: int|
            0 <= k < final(elems)@.len() ==> spec_elem_wf(#[trigger] elems_view(final(elems)@)[k]),
        elems_view(old(elems)@) + spec_scan(
            s@,
            i as int,
            line as int,
            col as int,
            depth as int,
            brackets as int,
        ) == elems_view(final(elems)@) + spec_scan(
            s@,
            r.0 as int,
            r.1 as int,
            r.2 as int,
            depth as int,
            brackets as int,
        ),
{
    let ghost i0 = i as int;
    let ghost l0 = line as int;
    let ghost c0 = col as int;
    let ghost d0 = depth as int;
    let ghost b0 = brackets as int;
    let ghost e0 = elems_view(elems@);
    let ghost scan0 = spec_scan(s@, i0, l0, c0, d0, b0);
    let mut i = i;
    let mut line = line;
    let mut col = col;

    let j = scan_ident_end(s, i, n);
    let text = s.substring_char(i, j).to_owned();
    let len = j - i;
    if j < n && s.get_char(j) == ':' {
        let e = QueryElem::FieldName { name: text, range: span(line, col, len) };
        proof {
            assert(scan0 == seq![e@] + spec_scan(
                s@,
                j + 1,
                l0,
                c0 + (j - i0) + 1,
                d0,
                b0,
            ));
            assert(e0.push(e@) =~= e0 + seq![e@]);
            assert(e0 + (seq![e@] + spec_scan(s@, j + 1, l0, c0 + (j - i0) + 1, d0, b0))
                =~= (e0 + seq![e@]) + spec_scan(s@, j + 1, l0, c0 + (j - i0) + 1, d0, b0));
        }
        push_elem(elems, e);
        col = col + len + 1;
        i = j + 1;
    } else if j < n && s.get_char(j) == '/' {
        if j + 1 < n && is_ident_start(s.get_char(j + 1)) {
            let k = scan_ident_end(s, j + 1, n);
            let sub = s.substring_char(j + 1, k).to_owned();
            let e = QueryElem::SupertypeNode {
                supertype: text,
                supertype_range: span(line, col, len),
                subtype: sub,
                subtype_range: span(line, col + len + 1, k - (j + 1)),
            };
            proof {
                assert(scan0 == seq![e@] + spec_scan(
                    s@,
                    k as int,
                    l0,
                    c0 + (k - i0),
                    d0,
                    b0,
                ));
                assert(e0.push(e@) =~= e0 + seq![e@]);
                assert(e0 + (seq![e@] + spec_scan(s@, k as int, l0, c0 + (k - i0), d0, b0))
                    =~= (e0 + seq![e@]) + spec_scan(
                    s@,
                    k as int,
                    l0,
                    c0 + (k - i0),
                    d0,
                    b0,
                ));
            }
            push_elem(elems, e);
            col = col + (k - i);
            i = k;
        } else {
            let e1 = QueryElem::NamedNode { name: text, range: span(line, col, len) };
            let e2 = QueryElem::ErrorNode { range: span(line, col + len, 1) };
            proof {
                assert(scan0 == seq![e1@, e2@] + spec_scan(
                    s@,
                    j + 1,
                    l0,
                    c0 + (j - i0) + 1,
                    d0,
                    b0,
                ));
                assert(e0.push(e1@).push(e2@) =~= e0 + seq![e1@, e2@]);
                assert(e0 + (seq![e1@, e2@] + spec_scan(
                    s@,
                    j + 1,
                    l0,
                    c0 + (j - i0) + 1,
                    d0,
                    b0,
                )) =~= (e0 + seq![e1@, e2@]) + spec_scan(
                    s@,
                    j + 1,
                    l0,
                    c0 + (j - i0) + 1,
                    d0,
                    b0,
                ));
            }
            push_elem(elems, e1);
            push_elem(elems, e2);
            col = col + len + 1;
            i = j + 1;
        }
    } else {
        let e = if text == *missing_kw {
            QueryElem::MissingKeyword { range: span(line, col, len) }
        } else if text == *wildcard_tok {
            QueryElem::Wildcard { range: span(line, col, len) }
        } else {
            QueryElem::NamedNode { name: text, range: span(line, col, len) }
        };
        proof {
            assert(scan0 == seq![e@] + spec_scan(s@, j as int, l0, c0 + (j - i0), d0, b0));
            assert(e0.push(e@) =~= e0 + seq![e@]);
            assert(e0 + (seq![e@] + spec_scan(s@, j as int, l0, c0 + (j - i0), d0, b0))
                =~= (e0 + seq![e@]) + spec_scan(s@, j as int, l0, c0 + (j - i0), d0, b0));
        }
        push_elem(elems, e);
        col = col + len;
        i = j;
    
    }
    (i, line, col)
}


/// Parse query source text into its element sequence: exactly the
/// sequence `spec_parse_elements` states, element for element.
///
/// The parse never fails: regions the query grammar does not accept
/// become `ErrorNode` elements covering the offending characters, and
/// input that ends with an unclosed paren, bracket or predicate becomes
/// a zero-width `MissingNode` element at the end of input, which
/// validation then reports — all "error" signaling flows through the
/// element sequence itself. Elements are emitted in document order of
/// their start positions; positions are zero-based line/character
/// counts. Every range an element carries is well-formed: its start
/// does not come after its end.
#[verifier::loop_isolation(false)]
#[verifier::rlimit(100)]
pub fn parse_elements(s: &str) -> (elems: Vec<QueryElem>)
    ensures
        elems_view(elems@) == spec_parse_elements(s@),
        forall|i: int|
            0 <= i < elems@.len() ==> spec_elem_wf(#[trigger] elems_view(elems@)[i]),
{
    let n = s.unicode_len();
    let missing_kw = String::from_str("MISSING");
    let wildcard_tok = String::from_str("_");
    let mut elems: Vec<QueryElem> = Vec::new();
    let mut i: usize = 0;
    let mut line: usize = 0;
    let mut col: usize = 0;
    let mut depth: usize = 0;
    let mut brackets: usize = 0;
    proof {
        assert(elems_view(elems@) =~= Seq::<QueryElemV>::empty());
        assert(elems_view(elems@) + spec_scan(s@, 0, 0, 0, 0, 0) =~= spec_scan(s@, 0, 0, 0, 0, 0));
    }
    while i < n
        invariant
            i <= n,
            n == s@.len(),
            col <= i,
            line <= i,
            depth <= i,
            brackets <= i,
            spec_parse_elements(s@) == elems_view(elems@) + spec_scan(
                s@,
                i as int,
                line as int,
                col as int,
                depth as int,
                brackets as int,
            ),
            forall|k: int|
                0 <= k < elems@.len() ==> spec_elem_wf(#[trigger] elems_view(elems@)[k]),
        decreases n - i,
    {
        let ghost i0 = i as int;
        let ghost l0 = line as int;
        let ghost c0 = col as int;
        let ghost d0 = depth as int;
        let ghost b0 = brackets as int;
        let ghost e0 = elems_view(elems@);
        let ghost scan0 = spec_scan(s@, i0, l0, c0, d0, b0);
        let c = s.get_char(i);
        if c == '\n' {
            i = i + 1;
            line = line + 1;
            col = 0;
        } else if c == ' ' || c == '\t' || c == '\r' {
            i = i + 1;
            col = col + 1;
        } else if c == ';' {
            // comment to end of line
            let j = scan_line_end(s, i + 1, n);
            proof {
                assert(scan0 == spec_scan(s@, j as int, l0, c0 + (j - i0), d0, b0));
            }
            col = col + (j - i);
            i = j;
        } else if c == '(' {
            depth = depth + 1;
            i = i + 1;
            col = col + 1;
        } else if c == ')' {
            if depth > 0 {
                depth = depth - 1;
            } else {
                let e = QueryElem::ErrorNode { range: span(line, col, 1) };
                proof {
                    assert(scan0 == seq![e@] + spec_scan(s@, i0 + 1, l0, c0 + 1, d0, b0));
                    assert(e0.push(e@) =~= e0 + seq![e@]);
                    assert(e0 + (seq![e@] + spec_scan(s@, i0 + 1, l0, c0 + 1, d0, b0)) =~= (e0
                        + seq![e@]) + spec_scan(s@, i0 + 1, l0, c0 + 1, d0, b0));
                }
                push_elem(&mut elems, e);
            }
            i = i + 1;
            col = col + 1;
        } else if c == '[' {
            let e = QueryElem::AlternationOpen { range: span(line, col, 1) };
            proof {
                assert(scan0 == seq![e@] + spec_scan(s@, i0 + 1, l0, c0 + 1, d0, b0 + 1));
                assert(e0.push(e@) =~= e0 + seq![e@]);
                assert(e0 + (seq![e@] + spec_scan(s@, i0 + 1, l0, c0 + 1, d0, b0 + 1)) =~= (e0
                    + seq![e@]) + spec_scan(s@, i0 + 1, l0, c0 + 1, d0, b0 + 1));
            }
            push_elem(&mut elems, e);
            brackets = brackets + 1;
            i = i + 1;
            col = col + 1;
        } else if c == ']' {
            let e = if brackets > 0 {
                QueryElem::AlternationClose { range: span(line, col, 1) }
            } else {
                QueryElem::ErrorNode { range: span(line, col, 1) }
            };
            let ghost b1 = if b0 > 0 { b0 - 1 } else { b0 };
            proof {
                assert(scan0 == seq![e@] + spec_scan(s@, i0 + 1, l0, c0 + 1, d0, b1));
                assert(e0.push(e@) =~= e0 + seq![e@]);
                assert(e0 + (seq![e@] + spec_scan(s@, i0 + 1, l0, c0 + 1, d0, b1)) =~= (e0
                    + seq![e@]) + spec_scan(s@, i0 + 1, l0, c0 + 1, d0, b1));
            }
            push_elem(&mut elems, e);
            if brackets > 0 {
                brackets = brackets - 1;
            }
            i = i + 1;
            col = col + 1;
        } else if c == '.' || c == '?' || c == '*' || c == '+' {
            let e = if c == '.' {
                QueryElem::Anchor { range: span(line, col, 1) }
            } else {
                QueryElem::Quantifier { range: span(line, col, 1) }
            };
            proof {
                assert(scan0 == seq![e@] + spec_scan(s@, i0 + 1, l0, c0 + 1, d0, b0));
                assert(e0.push(e@) =~= e0 + seq![e@]);
                assert(e0 + (seq![e@] + spec_scan(s@, i0 + 1, l0, c0 + 1, d0, b0)) =~= (e0
                    + seq![e@]) + spec_scan(s@, i0 + 1, l0, c0 + 1, d0, b0));
            }
            push_elem(&mut elems, e);
            i = i + 1;
            col = col + 1;
        } else if c == '@' {
            let j = scan_ident_end(s, i + 1, n);
            if j > i + 1 {
                let name = s.substring_char(i + 1, j).to_owned();
                let e = QueryElem::Capture { name, range: span(line, col, j - i) };
                proof {
                    assert(scan0 == seq![e@] + spec_scan(s@, j as int, l0, c0 + (j - i0), d0, b0));
                    assert(e0.push(e@) =~= e0 + seq![e@]);
                    assert(e0 + (seq![e@] + spec_scan(s@, j as int, l0, c0 + (j - i0), d0, b0))
                        =~= (e0 + seq![e@]) + spec_scan(s@, j as int, l0, c0 + (j - i0), d0, b0));
                }
                push_elem(&mut elems, e);
                col = col + (j - i);
                i = j;
            } else {
                let e = QueryElem::ErrorNode { range: span(line, col, 1) };
                proof {
                    assert(scan0 == seq![e@] + spec_scan(s@, i0 + 1, l0, c0 + 1, d0, b0));
                    assert(e0.push(e@) =~= e0 + seq![e@]);
                    assert(e0 + (seq![e@] + spec_scan(s@, i0 + 1, l0, c0 + 1, d0, b0)) =~= (e0
                        + seq![e@]) + spec_scan(s@, i0 + 1, l0, c0 + 1, d0, b0));
                }
                push_elem(&mut elems, e);
                i = i + 1;
                col = col + 1;
            }
        } else if c == '"' {
            let (j, closed) = scan_string_end(s, i, n);
            let e = if closed {
                let value = s.substring_char(i + 1, j - 1).to_owned();
                QueryElem::AnonymousNode { value, range: span(line, col, j - i) }
            } else {
                QueryElem::ErrorNode { range: span(line, col, j - i) }
            };
            proof {
                assert(scan0 == seq![e@] + spec_scan(s@, j as int, l0, c0 + (j - i0), d0, b0));
                assert(e0.push(e@) =~= e0 + seq![e@]);
                assert(e0 + (seq![e@] + spec_scan(s@, j as int, l0, c0 + (j - i0), d0, b0)) =~= (
                e0 + seq![e@]) + spec_scan(s@, j as int, l0, c0 + (j - i0), d0, b0));
            }
            push_elem(&mut elems, e);
            col = col + (j - i);
            i = j;
        } else if c == '#' {
            let (ni, nl, nc) = scan_invocation(s, n, &mut elems, i, line, col, depth, brackets);
            i = ni;
            line = nl;
            col = nc;
        } else if is_ident_start(c) {
            let (ni, nl, nc) = scan_name(
                s,
                n,
                &mut elems,
                i,
                line,
                col,
                depth,
                brackets,
                &missing_kw,
                &wildcard_tok,
            );
            i = ni;
            line = nl;
            col = nc;
        } else if is_digit(c) {
            let j = scan_ident_end(s, i, n);
            let e = QueryElem::ErrorNode { range: span(line, col, j - i) };
            proof {
                assert(scan0 == seq![e@] + spec_scan(s@, j as int, l0, c0 + (j - i0), d0, b0));
                assert(e0.push(e@) =~= e0 + seq![e@]);
                assert(e0 + (seq![e@] + spec_scan(s@, j as int, l0, c0 + (j - i0), d0, b0)) =~= (
                e0 + seq![e@]) + spec_scan(s@, j as int, l0, c0 + (j - i0), d0, b0));
            }
            push_elem(&mut elems, e);
            col = col + (j - i);
            i = j;
        } else {
            let e = QueryElem::ErrorNode { range: span(line, col, 1) };
            proof {
                assert(scan0 == seq![e@] + spec_scan(s@, i0 + 1, l0, c0 + 1, d0, b0));
                assert(e0.push(e@) =~= e0 + seq![e@]);
                assert(e0 + (seq![e@] + spec_scan(s@, i0 + 1, l0, c0 + 1, d0, b0)) =~= (e0
                    + seq![e@]) + spec_scan(s@, i0 + 1, l0, c0 + 1, d0, b0));
            }
            push_elem(&mut elems, e);
            i = i + 1;
            col = col + 1;
        }
    }
    if depth > 0 || brackets > 0 {
        // something was left unclosed: a required token is missing at
        // the end of input
        let here = Position { line, character: col };
        let e = QueryElem::MissingNode { range: Range { start: here, end: here } };
        let ghost e1 = elems_view(elems@);
        proof {
            assert(e@ == QueryElemV::MissingNode {
                range: spec_span(line as int, col as int, 0),
            });
            assert(spec_scan(s@, n as int, line as int, col as int, depth as int, brackets as int)
                == seq![e@]);
            assert(e1.push(e@) =~= e1 + seq![e@]);
        }
        push_elem(&mut elems, e);
    } else {
        proof {
            assert(elems_view(elems@) + Seq::<QueryElemV>::empty() =~= elems_view(elems@));
        }
    }
    elems
}

} // verus!
