//! Completing a snippet to a program. A snippet with an entry point of its
//! own is a program already. Of any other, the leading lines that are
//! comments, blank, declarations or imports pass through, and the rest becomes
//! the body of a fallible function that the entry point calls.

use vstd::prelude::*;
use vstd::string::StringExecFns;
use crate::analysis::{
    analysis_of, lemma_needed_imports, times, Analysis, AnalysisView, ParseError,
};
use crate::lines::{
    lemma_line_end, lemma_lines_hold_no_line_feed, line_end, line_spans, split_lines,
};
use crate::rules::{standard_rules, views, Rules, RulesView};
use crate::text::{
    contains, find, lemma_first_occurrence, matches_at, push_chars, skip_space, skip_spaces,
    starts_with, to_chars, trim_start,
};

verus! {

/// Whether a leading line passes through: without its leading white space it
/// is empty or begins with one of `prefixes`.
pub open spec fn passes_through(line: Seq<char>, prefixes: Seq<Seq<char>>) -> bool {
    trim_start(line).len() == 0 || exists|i: int|
        0 <= i < prefixes.len() && starts_with(trim_start(line), #[trigger] prefixes[i])
}

/// The number of lines at or after index `from` that pass through before the
/// first one that does not.
pub open spec fn head_len(lines: Seq<Seq<char>>, prefixes: Seq<Seq<char>>, from: int) -> int
    decreases lines.len() - from,
{
    if from < 0 || from >= lines.len() || !passes_through(lines[from], prefixes) {
        0
    } else {
        1 + head_len(lines, prefixes, from + 1)
    }
}

/// The lines one after another, each with `unit` in front and a line feed
/// behind.
pub open spec fn block(lines: Seq<Seq<char>>, unit: Seq<char>) -> Seq<char>
    decreases lines.len(),
{
    if lines.len() == 0 {
        Seq::empty()
    } else {
        block(lines.drop_last(), unit) + unit + lines.last() + seq!['\n']
    }
}

/// Those of the first `k` imports that do not stand in `head`.
pub open spec fn missing(imports: Seq<Seq<char>>, head: Seq<char>, k: int) -> Seq<Seq<char>>
    decreases k,
{
    if k <= 0 {
        Seq::empty()
    } else if contains(head, imports[k - 1]) {
        missing(imports, head, k - 1)
    } else {
        missing(imports, head, k - 1).push(imports[k - 1])
    }
}

/// The lines of `s` that pass through.
pub open spec fn head_lines(rules: RulesView, s: Seq<char>) -> Seq<Seq<char>> {
    split_lines(s).take(head_len(split_lines(s), rules.pass_through, 0))
}

/// The lines of `s` from the first one on that does not pass through.
pub open spec fn body_lines(rules: RulesView, s: Seq<char>) -> Seq<Seq<char>> {
    split_lines(s).skip(head_len(split_lines(s), rules.pass_through, 0))
}

/// What stands before the fallible function: the prelude, the needed imports
/// that the lines that pass through do not hold, and those lines.
pub open spec fn preamble(
    rules: RulesView,
    s: Seq<char>,
    a: AnalysisView,
    prelude: Seq<char>,
) -> Seq<char> {
    let head = block(head_lines(rules, s), Seq::empty());
    prelude + block(
        missing(a.needed_std_imports, head, a.needed_std_imports.len() as int),
        Seq::empty(),
    ) + head
}

/// The program made of the snippet `s`.
pub open spec fn program(
    rules: RulesView,
    s: Seq<char>,
    a: AnalysisView,
    prelude: Seq<char>,
) -> Seq<char> {
    if a.has_entry_point {
        s
    } else {
        preamble(rules, s, a, prelude) + rules.opening + block(body_lines(rules, s), rules.indent)
            + rules.closing
    }
}

/// The head is as long as the lines at most.
pub proof fn lemma_head_len(lines: Seq<Seq<char>>, prefixes: Seq<Seq<char>>, from: int)
    requires
        0 <= from <= lines.len(),
    ensures
        0 <= head_len(lines, prefixes, from) <= lines.len() - from,
        forall|i: int|
            from <= i < from + head_len(lines, prefixes, from) ==> passes_through(
                lines[i],
                prefixes,
            ),
        from + head_len(lines, prefixes, from) < lines.len() ==> !passes_through(
            lines[from + head_len(lines, prefixes, from)],
            prefixes,
        ),
    decreases lines.len() - from,
{
    if from < lines.len() && passes_through(lines[from], prefixes) {
        lemma_head_len(lines, prefixes, from + 1);
    }
}

/// The lines of a text in which every line ends with a line feed, each
/// without its line feed.
pub open spec fn records(text: Seq<char>) -> Seq<Seq<char>>
    decreases text.len(),
{
    if text.len() == 0 {
        Seq::empty()
    } else if line_end(text, 0) >= text.len() {
        seq![text]
    } else {
        proof {
            lemma_line_end(text, 0);
        }
        seq![text.take(line_end(text, 0))] + records(text.skip(line_end(text, 0) + 1))
    }
}

/// Each of `lines` with `unit` in front.
pub open spec fn indented(lines: Seq<Seq<char>>, unit: Seq<char>) -> Seq<Seq<char>> {
    Seq::new(lines.len(), |i: int| unit + lines[i])
}

/// Whether `s` holds no line feed.
pub open spec fn one_line(s: Seq<char>) -> bool {
    forall|j: int| 0 <= j < s.len() ==> s[j] != '\n'
}

/// The line that starts at `from` ends at the first line feed.
proof fn lemma_line_end_at(s: Seq<char>, from: int, e: int)
    requires
        0 <= from <= e < s.len(),
        s[e] == '\n',
        forall|j: int| from <= j < e ==> s[j] != '\n',
    ensures
        line_end(s, from) == e,
    decreases e - from,
{
    if from < e {
        lemma_line_end_at(s, from + 1, e);
    }
}

/// A block begins with its first line.
proof fn lemma_block_front(lines: Seq<Seq<char>>, unit: Seq<char>)
    requires
        lines.len() > 0,
    ensures
        block(lines, unit) == unit + lines[0] + seq!['\n'] + block(lines.drop_first(), unit),
    decreases lines.len(),
{
    if lines.len() == 1 {
        assert(lines.drop_last() == Seq::<Seq<char>>::empty());
        assert(lines.drop_first() == Seq::<Seq<char>>::empty());
        assert(block(lines.drop_last(), unit) == Seq::<char>::empty());
        assert(block(lines.drop_first(), unit) == Seq::<char>::empty());
        assert(lines.last() == lines[0]);
        assert(block(lines, unit) == unit + lines[0] + seq!['\n'] + Seq::<char>::empty());
    } else {
        lemma_block_front(lines.drop_last(), unit);
        assert(lines.drop_last().drop_first() == lines.drop_first().drop_last());
        assert(lines.drop_last()[0] == lines[0]);
        assert(lines.drop_first().last() == lines.last());
        assert(block(lines, unit) == unit + lines[0] + seq!['\n'] + (block(
            lines.drop_first().drop_last(),
            unit,
        ) + unit + lines.last() + seq!['\n']));
    }
}

/// Read line by line, a block gives back its lines, in their order, each
/// with exactly one `unit` in front.
pub proof fn lemma_records_of_block(lines: Seq<Seq<char>>, unit: Seq<char>)
    requires
        one_line(unit),
        forall|i: int| 0 <= i < lines.len() ==> one_line(#[trigger] lines[i]),
    ensures
        records(block(lines, unit)) == indented(lines, unit),
    decreases lines.len(),
{
    if lines.len() == 0 {
        assert(records(block(lines, unit)) == indented(lines, unit));
    } else {
        let first = unit + lines[0];
        let rest = lines.drop_first();
        let text = block(lines, unit);
        lemma_block_front(lines, unit);
        assert(one_line(lines[0]));
        assert(text == first + seq!['\n'] + block(rest, unit));
        assert(text[first.len() as int] == '\n');
        assert forall|j: int| 0 <= j < first.len() implies text[j] != '\n' by {
            if j < unit.len() {
                assert(text[j] == unit[j]);
            } else {
                assert(text[j] == lines[0][j - unit.len()]);
            }
        }
        lemma_line_end_at(text, 0, first.len() as int);
        assert(text.take(first.len() as int) == first);
        assert(text.skip(first.len() as int + 1) == block(rest, unit));
        assert forall|i: int| 0 <= i < rest.len() implies one_line(#[trigger] rest[i]) by {
            assert(rest[i] == lines[i + 1]);
        }
        lemma_records_of_block(rest, unit);
        assert(seq![first] + indented(rest, unit) == indented(lines, unit));
    }
}

/// A snippet that holds the entry marker is its own program.
pub proof fn lemma_entry_point_kept(
    rules: RulesView,
    s: Seq<char>,
    a: AnalysisView,
    prelude: Seq<char>,
)
    requires
        contains(s, rules.entry_marker),
        analysis_of(rules, s) == Ok::<AnalysisView, ParseError>(a),
    ensures
        program(rules, s, a, prelude) == s,
{
}

/// The program of a snippet that holds no entry marker ends with the rules'
/// closing; before it, behind the preamble and the rules' opening, stand the
/// snippet's body lines, in their order, each with exactly one indentation in
/// front, and nothing else.
pub proof fn lemma_body_kept(rules: RulesView, s: Seq<char>, a: AnalysisView, prelude: Seq<char>)
    requires
        !contains(s, rules.entry_marker),
        analysis_of(rules, s) == Ok::<AnalysisView, ParseError>(a),
        one_line(rules.indent),
    ensures
        ({
            let p = program(rules, s, a, prelude);
            let start = (preamble(rules, s, a, prelude).len() + rules.opening.len()) as int;
            let stop = p.len() - rules.closing.len();
            &&& start <= stop
            &&& p.subrange(0, start) == preamble(rules, s, a, prelude) + rules.opening
            &&& p.subrange(stop, p.len() as int) == rules.closing
            &&& records(p.subrange(start, stop)) == indented(body_lines(rules, s), rules.indent)
        }),
{
    let p = program(rules, s, a, prelude);
    let body = body_lines(rules, s);
    let wrapped = block(body, rules.indent);
    let front = preamble(rules, s, a, prelude) + rules.opening;
    let start = front.len();
    let stop = p.len() - rules.closing.len();
    assert(p == front + wrapped + rules.closing);
    assert(p.subrange(0, start as int) == front);
    assert(p.subrange(stop, p.len() as int) == rules.closing);
    assert(p.subrange(start as int, stop) == wrapped);
    lemma_lines_hold_no_line_feed(s, 0);
    lemma_head_len(split_lines(s), rules.pass_through, 0);
    assert forall|i: int| 0 <= i < body.len() implies one_line(#[trigger] body[i]) by {
        let n = head_len(split_lines(s), rules.pass_through, 0);
        assert(body[i] == split_lines(s)[n + i]);
    }
    lemma_records_of_block(body, rules.indent);
}

/// An import that the head holds is not among the missing ones; any other
/// stands among them as often as among the first `k` imports.
pub proof fn lemma_missing(imports: Seq<Seq<char>>, head: Seq<char>, k: int, x: Seq<char>)
    requires
        0 <= k <= imports.len(),
    ensures
        times(missing(imports, head, k), x) == if contains(head, x) {
            0
        } else {
            times(imports.take(k), x)
        },
    decreases k,
{
    if k > 0 {
        lemma_missing(imports, head, k - 1, x);
        assert(imports.take(k).drop_last() == imports.take(k - 1));
        assert(imports.take(k).last() == imports[k - 1]);
        if !contains(head, imports[k - 1]) {
            assert(missing(imports, head, k - 1).push(imports[k - 1]).drop_last() == missing(
                imports,
                head,
                k - 1,
            ));
        }
    } else {
        assert(imports.take(0).len() == 0);
    }
}

/// However often a token of the table stands in a snippet without an entry
/// point: its import line is put in front of the lines that pass through
/// exactly once where they do not hold it, and not at all where they do.
pub proof fn lemma_import_put_in_once(rules: RulesView, s: Seq<char>, a: AnalysisView, i: int)
    requires
        analysis_of(rules, s) == Ok::<AnalysisView, ParseError>(a),
        0 <= i < rules.triggers.len(),
        contains(s, rules.triggers[i].0),
    ensures
        ({
            let head = block(head_lines(rules, s), Seq::empty());
            let put_in = missing(a.needed_std_imports, head, a.needed_std_imports.len() as int);
            times(put_in, rules.triggers[i].1) == if contains(head, rules.triggers[i].1) {
                0nat
            } else {
                1nat
            }
        }),
{
    let head = block(head_lines(rules, s), Seq::empty());
    let x = rules.triggers[i].1;
    lemma_needed_imports(s, rules.triggers, rules.triggers.len() as int, x);
    lemma_missing(a.needed_std_imports, head, a.needed_std_imports.len() as int, x);
    assert(a.needed_std_imports.take(a.needed_std_imports.len() as int) == a.needed_std_imports);
}

/// The standard indentation holds no line feed.
pub proof fn lemma_standard_indent()
    ensures
        one_line(standard_rules().indent),
{
    reveal_strlit("    ");
}

/// The part of `s` from `from` up to `to`.
fn slice_subrange(s: &[char], from: usize, to: usize) -> (r: &[char])
    requires
        from <= to <= s@.len(),
    ensures
        r@ == s@.subrange(from as int, to as int),
{
    &s[from..to]
}

/// Whether `line` passes through.
pub fn line_passes(line: &[char], prefixes: &Vec<Vec<char>>) -> (b: bool)
    ensures
        b == passes_through(line@, Seq::new(prefixes@.len(), |i: int| prefixes@[i]@)),
{
    let ghost ps = Seq::new(prefixes@.len(), |i: int| prefixes@[i]@);
    let at = skip_spaces(line, 0);
    if at >= line.len() {
        return true;
    }
    let ghost t = trim_start(line@);
    let mut i: usize = 0;
    while i < prefixes.len()
        invariant
            i <= prefixes@.len(),
            at == skip_space(line@, 0),
            at < line@.len(),
            t == trim_start(line@),
            ps == Seq::new(prefixes@.len(), |i: int| prefixes@[i]@),
            forall|j: int| 0 <= j < i ==> !starts_with(t, #[trigger] ps[j]),
        decreases prefixes.len() - i,
    {
        let pat = prefixes[i].as_slice();
        proof {
            let p = pat@;
            assert(ps[i as int] == p);
            if at + p.len() <= line@.len() {
                assert(t.subrange(0, p.len() as int) == line@.subrange(at as int, at + p.len()));
            }
        }
        if matches_at(line, pat, at) {
            return true;
        }
        i += 1;
    }
    false
}

/// The characters of each string of `v`.
pub fn all_chars(v: &Vec<String>) -> (r: Vec<Vec<char>>)
    ensures
        Seq::new(r@.len(), |i: int| r@[i]@) == views(v@),
{
    let mut r: Vec<Vec<char>> = Vec::new();
    let mut i: usize = 0;
    while i < v.len()
        invariant
            i <= v@.len(),
            r@.len() == i,
            forall|j: int| 0 <= j < i ==> (#[trigger] r@[j])@ == v@[j]@,
        decreases v.len() - i,
    {
        r.push(to_chars(v[i].as_str()));
        i += 1;
    }
    assert(Seq::new(r@.len(), |i: int| r@[i]@) =~= views(v@));
    r
}

/// Completes `text` to a program by `rules`.
pub fn synthesize_with(rules: &Rules, text: &str, analysis: &Analysis, prelude: &str) -> (r: String)
    ensures
        r@ == program(rules@, text@, analysis@, prelude@),
{
    if analysis.has_entry_point {
        return text.to_owned();
    }
    let s = to_chars(text);
    let spans = line_spans(s.as_slice());
    let prefixes = all_chars(&rules.pass_through);
    let ghost lines = split_lines(s@);
    let ghost ps = rules@.pass_through;
    // The lines that pass through.
    let mut head: Vec<char> = Vec::new();
    let mut n: usize = 0;
    while n < spans.len()
        invariant
            n <= spans@.len() == lines.len(),
            lines == split_lines(s@),
            ps == Seq::new(prefixes@.len(), |i: int| prefixes@[i]@),
            forall|i: int|
                0 <= i < spans@.len() ==> (#[trigger] spans@[i]).0 <= spans@[i].1 <= s@.len()
                    && s@.subrange(spans@[i].0 as int, spans@[i].1 as int) == lines[i],
            head_len(lines, ps, 0) == n + head_len(lines, ps, n as int),
            head@ == block(lines.take(n as int), Seq::empty()),
        ensures
            head_len(lines, ps, 0) == n,
        decreases spans.len() - n,
    {
        let (from, to) = spans[n];
        let line = slice_subrange(s.as_slice(), from, to);
        assert(line@ == lines[n as int]);
        if !line_passes(line, &prefixes) {
            break;
        }
        let mut k: usize = from;
        while k < to
            invariant
                from <= k <= to <= s@.len(),
                head@ == block(lines.take(n as int), Seq::empty()) + s@.subrange(
                    from as int,
                    k as int,
                ),
            decreases to - k,
        {
            head.push(s[k]);
            k += 1;
        }
        head.push('\n');
        proof {
            assert(lines.take(n + 1).drop_last() == lines.take(n as int));
            assert(lines.take(n + 1).last() == lines[n as int]);
            assert(head@ == block(lines.take(n as int), Seq::empty()) + Seq::<char>::empty()
                + lines[n as int] + seq!['\n']);
        }
        n += 1;
    }
    let mut out = String::new();
    out.append(prelude);
    // The needed imports that the head does not hold.
    let ghost imports = views(analysis.needed_std_imports@);
    let mut k: usize = 0;
    while k < analysis.needed_std_imports.len()
        invariant
            k <= analysis.needed_std_imports@.len(),
            imports == views(analysis.needed_std_imports@),
            out@ == prelude@ + block(missing(imports, head@, k as int), Seq::empty()),
        decreases analysis.needed_std_imports.len() - k,
    {
        let import = to_chars(analysis.needed_std_imports[k].as_str());
        proof {
            lemma_first_occurrence(head@, import@, 0);
            assert(imports[k as int] == import@);
        }
        if find(head.as_slice(), import.as_slice(), 0).is_none() {
            let ghost before = missing(imports, head@, k as int);
            push_chars(&mut out, import.as_slice(), 0, import.len());
            out.push('\n');
            proof {
                assert(import@.subrange(0, import@.len() as int) == import@);
                assert(before.push(import@).drop_last() == before);
                assert(out@ == prelude@ + (block(before, Seq::empty()) + Seq::<char>::empty()
                    + import@ + seq!['\n']));
            }
        }
        k += 1;
    }
    push_chars(&mut out, head.as_slice(), 0, head.len());
    assert(head@.subrange(0, head@.len() as int) == head@);
    assert(out@ == preamble(rules@, text@, analysis@, prelude@));
    out.append(rules.opening.as_str());
    // The body, each line behind the indentation.
    let indent = to_chars(rules.indent.as_str());
    let mut i: usize = n;
    let ghost start = out@;
    while i < spans.len()
        invariant
            n <= i <= spans@.len() == lines.len(),
            indent@ == rules@.indent,
            forall|i: int|
                0 <= i < spans@.len() ==> (#[trigger] spans@[i]).0 <= spans@[i].1 <= s@.len()
                    && s@.subrange(spans@[i].0 as int, spans@[i].1 as int) == lines[i],
            out@ == start + block(lines.subrange(n as int, i as int), indent@),
        decreases spans.len() - i,
    {
        let (from, to) = spans[i];
        push_chars(&mut out, indent.as_slice(), 0, indent.len());
        push_chars(&mut out, s.as_slice(), from, to);
        out.push('\n');
        proof {
            assert(indent@.subrange(0, indent@.len() as int) == indent@);
            assert(lines.subrange(n as int, i + 1).drop_last() == lines.subrange(
                n as int,
                i as int,
            ));
            assert(lines.subrange(n as int, i + 1).last() == lines[i as int]);
            assert(out@ == start + (block(lines.subrange(n as int, i as int), indent@) + indent@
                + lines[i as int] + seq!['\n']));
        }
        i += 1;
    }
    assert(lines.subrange(n as int, lines.len() as int) == lines.skip(n as int));
    out.append(rules.closing.as_str());
    out
}

/// Completes `text` to a program by the standard rules.
pub fn synthesize(text: &str, analysis: &Analysis, prelude: &str) -> (r: String)
    ensures
        r@ == program(standard_rules(), text@, analysis@, prelude@),
{
    let rules = Rules::standard();
    synthesize_with(&rules, text, analysis, prelude)
}

} // verus!
