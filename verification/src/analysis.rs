//! What a snippet holds, found by searching its text: an entry point, tokens
//! that call for imports, and declarations of outside dependencies.

use vstd::prelude::*;
use crate::rules::{standard_rules, table, views, Rules, RulesView, Trigger};
use crate::text::{contains, find, first_occurrence, from_chars, lemma_first_occurrence, to_chars};

verus! {

/// A dependency declaration that names nothing.
#[derive(Debug, Clone, Copy, PartialEq, Eq, Structural)]
pub enum ParseError {
    /// No name follows the declaration keyword at index `at`.
    MissingName { at: usize },
    /// The name after the declaration keyword at index `at` runs to the end
    /// of the text.
    UnterminatedName { at: usize },
}

/// The facts about a snippet by which it is completed.
pub struct Analysis {
    /// Whether the snippet has an entry point of its own.
    pub has_entry_point: bool,
    /// The import lines that the snippet's tokens call for, each once.
    pub needed_std_imports: Vec<String>,
    /// The names of the declared dependencies, in the order of their
    /// declarations.
    pub declared_external_deps: Vec<String>,
}

/// An analysis as its strings read.
pub struct AnalysisView {
    pub has_entry_point: bool,
    pub needed_std_imports: Seq<Seq<char>>,
    pub declared_external_deps: Seq<Seq<char>>,
}

impl View for Analysis {
    type V = AnalysisView;

    open spec fn view(&self) -> AnalysisView {
        AnalysisView {
            has_entry_point: self.has_entry_point,
            needed_std_imports: views(self.needed_std_imports@),
            declared_external_deps: views(self.declared_external_deps@),
        }
    }
}

/// A character of a name: an ASCII letter or digit, or an underscore.
pub open spec fn is_name_char(c: char) -> bool {
    ('a' <= c <= 'z') || ('A' <= c <= 'Z') || ('0' <= c <= '9') || c == '_'
}

/// The index of the first name character of `s` at or after `from`, or the
/// length of `s`.
pub open spec fn name_start(s: Seq<char>, from: int) -> int
    decreases s.len() - from,
{
    if from < 0 || from >= s.len() {
        s.len() as int
    } else if is_name_char(s[from]) {
        from
    } else {
        name_start(s, from + 1)
    }
}

/// The index of the first character of `s` at or after `from` that is no name
/// character, or the length of `s`.
pub open spec fn name_end(s: Seq<char>, from: int) -> int
    decreases s.len() - from,
{
    if from < 0 || from >= s.len() {
        s.len() as int
    } else if !is_name_char(s[from]) {
        from
    } else {
        name_end(s, from + 1)
    }
}

/// The names declared in `s` from index `from` on. Each occurrence of the
/// keyword is followed by a name, which begins at the first name character
/// after the keyword and ends before the first character that is none; the
/// search for the next keyword goes on behind the name.
pub open spec fn declared_names(s: Seq<char>, keyword: Seq<char>, from: int) -> Result<
    Seq<Seq<char>>,
    ParseError,
>
    decreases s.len() - from,
{
    match first_occurrence(s, keyword, from) {
        None => Ok(Seq::empty()),
        Some(k) => {
            let a = name_start(s, k + keyword.len());
            let b = name_end(s, a);
            if a >= s.len() {
                Err(ParseError::MissingName { at: k as usize })
            } else if b >= s.len() {
                Err(ParseError::UnterminatedName { at: k as usize })
            } else {
                proof {
                    lemma_first_occurrence(s, keyword, from);
                    lemma_name_bounds(s, k + keyword.len());
                    lemma_name_bounds(s, a);
                }
                match declared_names(s, keyword, b) {
                    Ok(rest) => Ok(seq![s.subrange(a, b)] + rest),
                    Err(e) => Err(e),
                }
            }
        },
    }
}

/// The import lines that the first `k` rows of the table call for in `s`,
/// each line once, in the order of the rows.
pub open spec fn needed_imports(s: Seq<char>, rows: Seq<(Seq<char>, Seq<char>)>, k: int) -> Seq<
    Seq<char>,
>
    decreases k,
{
    if k <= 0 {
        Seq::empty()
    } else {
        let before = needed_imports(s, rows, k - 1);
        if contains(s, rows[k - 1].0) && !before.contains(rows[k - 1].1) {
            before.push(rows[k - 1].1)
        } else {
            before
        }
    }
}

/// The analysis of `s` by `rules`: it fails exactly when a dependency
/// declaration names nothing.
pub open spec fn analysis_of(rules: RulesView, s: Seq<char>) -> Result<AnalysisView, ParseError> {
    match declared_names(s, rules.declaration, 0) {
        Ok(names) => Ok(
            AnalysisView {
                has_entry_point: contains(s, rules.entry_marker),
                needed_std_imports: needed_imports(s, rules.triggers, rules.triggers.len() as int),
                declared_external_deps: names,
            },
        ),
        Err(e) => Err(e),
    }
}

/// Where a name begins and ends.
pub proof fn lemma_name_bounds(s: Seq<char>, from: int)
    requires
        0 <= from <= s.len(),
    ensures
        from <= name_start(s, from) <= s.len(),
        from <= name_end(s, from) <= s.len(),
        name_start(s, from) < s.len() ==> is_name_char(s[name_start(s, from)]),
        name_end(s, from) < s.len() ==> !is_name_char(s[name_end(s, from)]),
        forall|j: int| from <= j < name_start(s, from) ==> !is_name_char(s[j]),
        forall|j: int| from <= j < name_end(s, from) ==> is_name_char(s[j]),
        from < s.len() && is_name_char(s[from]) ==> name_end(s, from) > from,
    decreases s.len() - from,
{
    if from < s.len() {
        lemma_name_bounds(s, from + 1);
    }
}

/// Whether the search for declarations that starts at `from` comes to the
/// keyword at index `k`: it is the first one at or after `from`, or the first
/// one is followed by a name and the search behind that name comes to it.
pub open spec fn search_reaches(s: Seq<char>, keyword: Seq<char>, from: int, k: int) -> bool
    decreases s.len() - from,
{
    match first_occurrence(s, keyword, from) {
        None => false,
        Some(f) => {
            let a = name_start(s, f + keyword.len());
            let b = name_end(s, a);
            f == k || (a < s.len() && b < s.len() && {
                proof {
                    lemma_first_occurrence(s, keyword, from);
                    lemma_name_bounds(s, f + keyword.len());
                    lemma_name_bounds(s, a);
                }
                search_reaches(s, keyword, b, k)
            })
        },
    }
}

/// A declaration keyword that the search comes to and that no name follows,
/// or whose name runs to the end of the text, fails the search: it is never
/// passed over.
pub proof fn lemma_unnamed_declaration_fails(s: Seq<char>, keyword: Seq<char>, from: int, k: int)
    requires
        search_reaches(s, keyword, from, k),
        name_end(s, name_start(s, k + keyword.len())) >= s.len(),
    ensures
        declared_names(s, keyword, from) is Err,
    decreases s.len() - from,
{
    let f = first_occurrence(s, keyword, from)->0;
    let a = name_start(s, f + keyword.len());
    let b = name_end(s, a);
    lemma_first_occurrence(s, keyword, from);
    lemma_name_bounds(s, f + keyword.len());
    lemma_name_bounds(s, a);
    if f != k {
        lemma_unnamed_declaration_fails(s, keyword, b, k);
    }
}

/// The analysis of a text whose first declaration keyword is followed by no
/// name fails.
pub proof fn lemma_analysis_fails_without_name(rules: RulesView, s: Seq<char>, k: int)
    requires
        first_occurrence(s, rules.declaration, 0) == Some(k),
        name_start(s, k + rules.declaration.len()) >= s.len(),
    ensures
        analysis_of(rules, s) == Err::<AnalysisView, ParseError>(
            ParseError::MissingName { at: k as usize },
        ),
{
}

/// How often `x` stands in `v`.
pub open spec fn times(v: Seq<Seq<char>>, x: Seq<char>) -> nat
    decreases v.len(),
{
    if v.len() == 0 {
        0
    } else {
        times(v.drop_last(), x) + if v.last() == x {
            1nat
        } else {
            0nat
        }
    }
}

/// What is not in `v` stands in it no times.
pub proof fn lemma_times_absent(v: Seq<Seq<char>>, x: Seq<char>)
    ensures
        times(v, x) == 0 <==> !v.contains(x),
    decreases v.len(),
{
    if v.len() > 0 {
        lemma_times_absent(v.drop_last(), x);
        if v.contains(x) {
            let i = choose|i: int| 0 <= i < v.len() && v[i] == x;
            if i < v.len() - 1 {
                assert(v.drop_last()[i] == x);
            }
        } else {
            assert forall|i: int| 0 <= i < v.drop_last().len() implies v.drop_last()[i] != x by {
                assert(v[i] != x);
            }
        }
        if v.drop_last().contains(x) {
            let i = choose|i: int| 0 <= i < v.drop_last().len() && v.drop_last()[i] == x;
            assert(v[i] == x);
        }
    }
}

/// Among the needed imports every line stands at most once, and a line
/// stands there exactly when a row of the table holds it with a token that
/// stands in the text.
pub proof fn lemma_needed_imports(
    s: Seq<char>,
    rows: Seq<(Seq<char>, Seq<char>)>,
    k: int,
    x: Seq<char>,
)
    requires
        0 <= k <= rows.len(),
    ensures
        times(needed_imports(s, rows, k), x) <= 1,
        times(needed_imports(s, rows, k), x) == 1 <==> exists|i: int|
            0 <= i < k && contains(s, (#[trigger] rows[i]).0) && rows[i].1 == x,
    decreases k,
{
    if k > 0 {
        let before = needed_imports(s, rows, k - 1);
        lemma_needed_imports(s, rows, k - 1, x);
        lemma_times_absent(before, x);
        lemma_times_absent(before, rows[k - 1].1);
        if contains(s, rows[k - 1].0) && !before.contains(rows[k - 1].1) {
            assert(before.push(rows[k - 1].1).drop_last() == before);
        }
    }
}

/// However often a token of the table stands in the text, the analysis
/// holds its import line exactly once.
pub proof fn lemma_import_once(rules: RulesView, s: Seq<char>, i: int)
    requires
        0 <= i < rules.triggers.len(),
        contains(s, rules.triggers[i].0),
        analysis_of(rules, s) is Ok,
    ensures
        times(analysis_of(rules, s)->Ok_0.needed_std_imports, rules.triggers[i].1) == 1,
{
    lemma_needed_imports(s, rules.triggers, rules.triggers.len() as int, rules.triggers[i].1);
}

/// Whether `c` is a name character.
pub fn char_is_name(c: char) -> (b: bool)
    ensures
        b == is_name_char(c),
{
    ('a' <= c && c <= 'z') || ('A' <= c && c <= 'Z') || ('0' <= c && c <= '9') || c == '_'
}

fn find_name_start(s: &[char], from: usize) -> (a: usize)
    requires
        from <= s@.len(),
    ensures
        a == name_start(s@, from as int),
        from <= a <= s@.len(),
{
    let mut a: usize = from;
    while a < s.len() && !char_is_name(s[a])
        invariant
            from <= a <= s@.len(),
            name_start(s@, from as int) == name_start(s@, a as int),
        decreases s.len() - a,
    {
        a += 1;
    }
    a
}

fn find_name_end(s: &[char], from: usize) -> (b: usize)
    requires
        from <= s@.len(),
    ensures
        b == name_end(s@, from as int),
        from <= b <= s@.len(),
{
    let mut b: usize = from;
    while b < s.len() && char_is_name(s[b])
        invariant
            from <= b <= s@.len(),
            name_end(s@, from as int) == name_end(s@, b as int),
        decreases s.len() - b,
    {
        b += 1;
    }
    b
}

/// `done` followed by what is still to be found.
spec fn after(done: Seq<Seq<char>>, rest: Result<Seq<Seq<char>>, ParseError>) -> Result<
    Seq<Seq<char>>,
    ParseError,
> {
    match rest {
        Ok(r) => Ok(done + r),
        Err(e) => Err(e),
    }
}

/// The names of the dependencies declared in `s`.
pub fn scan_declarations(s: &[char], keyword: &[char]) -> (r: Result<Vec<String>, ParseError>)
    ensures
        match r {
            Ok(names) => declared_names(s@, keyword@, 0) == Ok::<Seq<Seq<char>>, ParseError>(
                views(names@),
            ),
            Err(e) => declared_names(s@, keyword@, 0) == Err::<Seq<Seq<char>>, ParseError>(e),
        },
{
    let mut names: Vec<String> = Vec::new();
    let mut from: usize = 0;
    let n: usize = s.len();
    loop
        invariant
            from <= s@.len() == n,
            declared_names(s@, keyword@, 0) == after(
                views(names@),
                declared_names(s@, keyword@, from as int),
            ),
        decreases s@.len() - from,
    {
        proof {
            lemma_first_occurrence(s@, keyword@, from as int);
        }
        match find(s, keyword, from) {
            None => {
                assert(views(names@) + Seq::<Seq<char>>::empty() == views(names@));
                return Ok(names);
            },
            Some(k) => {
                let a = find_name_start(s, k + keyword.len());
                if a >= s.len() {
                    return Err(ParseError::MissingName { at: k });
                }
                let b = find_name_end(s, a);
                if b >= s.len() {
                    return Err(ParseError::UnterminatedName { at: k });
                }
                proof {
                    lemma_name_bounds(s@, a as int);
                }
                let name = from_chars(s, a, b);
                let ghost before = views(names@);
                names.push(name);
                proof {
                    assert(views(names@) == before.push(s@.subrange(a as int, b as int)));
                    let rest = declared_names(s@, keyword@, b as int);
                    if rest is Ok {
                        assert(before + (seq![s@.subrange(a as int, b as int)] + rest->Ok_0)
                            == views(names@) + rest->Ok_0);
                    }
                }
                from = b;
            },
        }
    }
}

/// Whether one of the strings of `v` reads as `s` does.
pub fn holds(v: &Vec<String>, s: &String) -> (b: bool)
    ensures
        b == views(v@).contains(s@),
{
    let mut i: usize = 0;
    while i < v.len()
        invariant
            i <= v@.len(),
            forall|j: int| 0 <= j < i ==> views(v@)[j] != s@,
        decreases v.len() - i,
    {
        if v[i] == *s {
            assert(views(v@)[i as int] == s@);
            return true;
        }
        i += 1;
    }
    false
}

/// The import lines that the tokens in `s` call for.
pub fn scan_triggers(s: &[char], triggers: &Vec<Trigger>) -> (r: Vec<String>)
    ensures
        views(r@) == needed_imports(s@, table(triggers@), triggers@.len() as int),
{
    let mut imports: Vec<String> = Vec::new();
    let mut k: usize = 0;
    while k < triggers.len()
        invariant
            k <= triggers@.len(),
            views(imports@) == needed_imports(s@, table(triggers@), k as int),
        decreases triggers.len() - k,
    {
        let token = to_chars(triggers[k].token.as_str());
        proof {
            lemma_first_occurrence(s@, token@, 0);
        }
        if find(s, token.as_slice(), 0).is_some() && !holds(&imports, &triggers[k].import) {
            let ghost before = views(imports@);
            imports.push(triggers[k].import.clone());
            assert(views(imports@) == before.push(triggers@[k as int].import@));
        }
        k += 1;
    }
    imports
}

/// Analyses `text` by `rules`.
pub fn analyze_with(rules: &Rules, text: &str) -> (r: Result<Analysis, ParseError>)
    ensures
        match r {
            Ok(a) => analysis_of(rules@, text@) == Ok::<AnalysisView, ParseError>(a@),
            Err(e) => analysis_of(rules@, text@) == Err::<AnalysisView, ParseError>(e),
        },
{
    let s = to_chars(text);
    let marker = to_chars(rules.entry_marker.as_str());
    let keyword = to_chars(rules.declaration.as_str());
    proof {
        lemma_first_occurrence(s@, marker@, 0);
    }
    let has_entry_point = find(s.as_slice(), marker.as_slice(), 0).is_some();
    match scan_declarations(s.as_slice(), keyword.as_slice()) {
        Ok(names) => Ok(
            Analysis {
                has_entry_point,
                needed_std_imports: scan_triggers(s.as_slice(), &rules.triggers),
                declared_external_deps: names,
            },
        ),
        Err(e) => Err(e),
    }
}

/// Analyses `text` by the standard rules.
pub fn analyze(text: &str) -> (r: Result<Analysis, ParseError>)
    ensures
        match r {
            Ok(a) => analysis_of(standard_rules(), text@) == Ok::<AnalysisView, ParseError>(a@),
            Err(e) => analysis_of(standard_rules(), text@) == Err::<AnalysisView, ParseError>(e),
        },
{
    let rules = Rules::standard();
    analyze_with(&rules, text)
}

} // verus!
