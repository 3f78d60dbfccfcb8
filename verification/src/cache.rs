//! The cache that outlives a run: a directory with the prelude, a text that
//! is put in front of every synthesized program, and a directory for the
//! shared libraries of dependencies. The cache is made when it is first
//! missed and never repaired afterwards: a cache directory without a
//! readable prelude is an error. What is decided here is what to make and
//! what the prelude is; looking at the disk and writing to it is the caller's
//! part.

use vstd::prelude::*;
use vstd::string::StringExecFns;
use vstd::utf8::{
    decode_utf8, encode_utf8, encode_utf8_decode_utf8, encode_utf8_valid_utf8, valid_utf8,
};
use crate::files::string_from_utf8;
use crate::quit::{Error, ErrorView};

verus! {

/// Where the cache lies.
pub struct CacheLayout {
    /// The cache directory.
    pub root: String,
    /// The file that holds the prelude.
    pub prelude: String,
    /// The directory for the shared libraries of dependencies.
    pub artifacts: String,
}

/// A layout as its paths read.
pub struct CacheLayoutView {
    pub root: Seq<char>,
    pub prelude: Seq<char>,
    pub artifacts: Seq<char>,
}

impl View for CacheLayout {
    type V = CacheLayoutView;

    open spec fn view(&self) -> CacheLayoutView {
        CacheLayoutView { root: self.root@, prelude: self.prelude@, artifacts: self.artifacts@ }
    }
}

/// The layout of the cache below the configuration directory `config`.
pub open spec fn layout_below(config: Seq<char>) -> CacheLayoutView {
    CacheLayoutView {
        root: config + "/runner"@,
        prelude: config + "/runner"@ + "/prelude"@,
        artifacts: config + "/runner"@ + "/dy-cache"@,
    }
}

/// The layout of the cache below the configuration directory `config`.
pub fn cache_layout(config: &str) -> (layout: CacheLayout)
    ensures
        layout@ == layout_below(config@),
{
    let mut root = String::from_str(config);
    root.append("/runner");
    let mut prelude = root.clone();
    prelude.append("/prelude");
    let mut artifacts = root.clone();
    artifacts.append("/dy-cache");
    CacheLayout { root, prelude, artifacts }
}

/// The prelude that a new cache is given: what it allows, one import, and a
/// macro that prints an expression with its value.
pub const DEFAULT_PRELUDE: &'static str =
    "#![allow(unused_imports)]\n#![allow(dead_code)]\n#![allow(redundant_semicolons)]\n\
use std::io::prelude::*;\n\nmacro_rules! debug {\n    ($x:expr) => {\n        \
println!(\"{} = {:?}\",stringify!($x),$x);\n    }\n}\n\n";

/// The text of the default prelude.
pub open spec fn default_prelude() -> Seq<char> {
    DEFAULT_PRELUDE@
}

/// What there is at the place of the cache.
pub struct CacheSeen {
    /// Whether the cache directory is there.
    pub root_is_dir: bool,
    /// What the prelude file holds, if it can be read.
    pub prelude: Option<Vec<u8>>,
}

/// What there is at the place of the cache, the file as a sequence of bytes.
pub struct CacheSeenView {
    pub root_is_dir: bool,
    pub prelude: Option<Seq<u8>>,
}

impl View for CacheSeen {
    type V = CacheSeenView;

    open spec fn view(&self) -> CacheSeenView {
        CacheSeenView {
            root_is_dir: self.root_is_dir,
            prelude: match self.prelude {
                Some(bytes) => Some(bytes@),
                None => None,
            },
        }
    }
}

/// Something to do on disk. To create a directory that is there already is
/// no failure.
pub enum FsStep {
    CreateDir(String),
    WriteFile(String, String),
}

/// A step as its strings read.
pub enum FsStepView {
    CreateDir(Seq<char>),
    WriteFile(Seq<char>, Seq<char>),
}

impl View for FsStep {
    type V = FsStepView;

    open spec fn view(&self) -> FsStepView {
        match self {
            FsStep::CreateDir(path) => FsStepView::CreateDir(path@),
            FsStep::WriteFile(path, text) => FsStepView::WriteFile(path@, text@),
        }
    }
}

/// What is to be done for the cache, and the prelude.
pub struct CachePlan {
    pub steps: Vec<FsStep>,
    pub prelude: Result<String, Error>,
}

/// The views of a sequence of steps.
pub open spec fn step_views(steps: Seq<FsStep>) -> Seq<FsStepView> {
    Seq::new(steps.len(), |i: int| steps[i]@)
}

/// What is to be done where `seen` is found: nothing where the cache
/// directory is there; else the directory, the default prelude and the
/// directory for shared libraries are made.
pub open spec fn steps_for(layout: CacheLayoutView, seen: CacheSeenView) -> Seq<FsStepView> {
    if seen.root_is_dir {
        Seq::empty()
    } else {
        seq![
            FsStepView::CreateDir(layout.root),
            FsStepView::WriteFile(layout.prelude, default_prelude()),
            FsStepView::CreateDir(layout.artifacts),
        ]
    }
}

/// The prelude where `seen` is found: the default of a new cache, else what
/// the prelude file holds; a file that is missing or holds no text is an
/// error.
pub open spec fn prelude_for(seen: CacheSeenView) -> Result<Seq<char>, ErrorView> {
    if !seen.root_is_dir {
        Ok(default_prelude())
    } else {
        match seen.prelude {
            None => Err(ErrorView::FileSystem("cannot read the prelude of the cache"@)),
            Some(bytes) => if valid_utf8(bytes) {
                Ok(decode_utf8(bytes))
            } else {
                Err(ErrorView::FileSystem("the prelude of the cache is no UTF-8"@))
            },
        }
    }
}

/// What there is once `step` is done.
pub open spec fn after_step(
    layout: CacheLayoutView,
    seen: CacheSeenView,
    step: FsStepView,
) -> CacheSeenView {
    match step {
        FsStepView::CreateDir(path) => if path == layout.root {
            CacheSeenView { root_is_dir: true, prelude: seen.prelude }
        } else {
            seen
        },
        FsStepView::WriteFile(path, text) => if path == layout.prelude {
            CacheSeenView { root_is_dir: seen.root_is_dir, prelude: Some(encode_utf8(text)) }
        } else {
            seen
        },
    }
}

/// What there is once `steps` are done, one after another.
pub open spec fn after_steps(
    layout: CacheLayoutView,
    seen: CacheSeenView,
    steps: Seq<FsStepView>,
) -> CacheSeenView
    decreases steps.len(),
{
    if steps.len() == 0 {
        seen
    } else {
        after_step(layout, after_steps(layout, seen, steps.drop_last()), steps.last())
    }
}

/// Making sure of the cache twice gives the same prelude twice, and the
/// second time nothing is left to do and nothing fails: where no cache
/// directory is found, the prelude is the default; once the steps for it are
/// done, the prelude is the default again and no step is asked for.
pub proof fn lemma_ensure_cache_twice(layout: CacheLayoutView, seen: CacheSeenView)
    requires
        !seen.root_is_dir,
    ensures
        prelude_for(seen) == Ok::<Seq<char>, ErrorView>(default_prelude()),
        prelude_for(after_steps(layout, seen, steps_for(layout, seen))) == prelude_for(seen),
        steps_for(layout, after_steps(layout, seen, steps_for(layout, seen))) == Seq::<
            FsStepView,
        >::empty(),
{
    let steps = steps_for(layout, seen);
    let s0 = steps.drop_last().drop_last().drop_last();
    let s1 = steps.drop_last().drop_last();
    let s2 = steps.drop_last();
    assert(s0.len() == 0);
    assert(s1.last() == steps[0]);
    assert(s2.last() == steps[1]);
    assert(steps.last() == steps[2]);
    let a0 = after_steps(layout, seen, s0);
    let a1 = after_steps(layout, seen, s1);
    let a2 = after_steps(layout, seen, s2);
    let a3 = after_steps(layout, seen, steps);
    assert(a0 == seen);
    assert(a1 == after_step(layout, a0, steps[0]));
    assert(a2 == after_step(layout, a1, steps[1]));
    assert(a3 == after_step(layout, a2, steps[2]));
    assert(a1.root_is_dir);
    assert(a2.root_is_dir);
    assert(a3.root_is_dir);
    assert(a3.prelude == Some(encode_utf8(default_prelude())));
    encode_utf8_valid_utf8(default_prelude());
    encode_utf8_decode_utf8(default_prelude());
}

/// What is said where `step` could not be done for the reason `why`.
pub open spec fn failure_of(step: FsStepView, why: Seq<char>) -> ErrorView {
    match step {
        FsStepView::CreateDir(path) => ErrorView::FileSystem(
            "cannot create directory "@ + path + ": "@ + why,
        ),
        FsStepView::WriteFile(path, text) => ErrorView::FileSystem(
            "cannot write "@ + path + ": "@ + why,
        ),
    }
}

/// The error for a step that could not be done.
pub fn step_failed(step: &FsStep, why: &str) -> (e: Error)
    ensures
        e@ == failure_of(step@, why@),
{
    let (mut msg, path) = match step {
        FsStep::CreateDir(path) => (String::from_str("cannot create directory "), path),
        FsStep::WriteFile(path, _) => (String::from_str("cannot write "), path),
    };
    msg.append(path.as_str());
    msg.append(": ");
    msg.append(why);
    Error::FileSystem(msg)
}

/// Makes sure of the cache: says what is to be done on disk where `seen` is
/// found, and what the prelude is once that is done.
pub fn ensure_cache(layout: &CacheLayout, seen: CacheSeen) -> (plan: CachePlan)
    ensures
        step_views(plan.steps@) == steps_for(layout@, seen@),
        match plan.prelude {
            Ok(text) => prelude_for(seen@) == Ok::<Seq<char>, ErrorView>(text@),
            Err(e) => prelude_for(seen@) == Err::<Seq<char>, ErrorView>(e@),
        },
{
    let mut steps: Vec<FsStep> = Vec::new();
    if !seen.root_is_dir {
        let text = String::from_str(DEFAULT_PRELUDE);
        steps.push(FsStep::CreateDir(layout.root.clone()));
        steps.push(FsStep::WriteFile(layout.prelude.clone(), text.clone()));
        steps.push(FsStep::CreateDir(layout.artifacts.clone()));
        assert(step_views(steps@) == steps_for(layout@, seen@));
        return CachePlan { steps, prelude: Ok(text) };
    }
    assert(step_views(steps@) == steps_for(layout@, seen@));
    let prelude = match seen.prelude {
        None => Err(Error::FileSystem(String::from_str("cannot read the prelude of the cache"))),
        Some(bytes) => match string_from_utf8(bytes) {
            Some(text) => Ok(text),
            None => Err(
                Error::FileSystem(String::from_str("the prelude of the cache is no UTF-8")),
            ),
        },
    };
    CachePlan { steps, prelude }
}

} // verus!
