//! Which ripgrep the searches run.
use crate::lookup::{answer_views, first_find, misses, opt_view};
use crate::platform::{Arch, Os};
use crate::text::split::{trim, trimmed, views};
use vstd::prelude::*;

verus! {

/// The name of the ripgrep binary that is shipped for a system.
pub open spec fn sidecar_name(os: Os, arch: Arch) -> Seq<char> {
    match (os, arch) {
        (Os::Windows, _) => "rg-x86_64-pc-windows-msvc.exe"@,
        (Os::MacOs, Arch::Aarch64) => "rg-aarch64-apple-darwin"@,
        (Os::MacOs, _) => "rg-x86_64-apple-darwin"@,
        (Os::Linux, Arch::Aarch64) => "rg-aarch64-unknown-linux-gnu"@,
        (Os::Linux, Arch::Arm) => "rg-armv7-unknown-linux-gnueabihf"@,
        (Os::Linux, _) => "rg-x86_64-unknown-linux-musl"@,
        (Os::Other, _) => "rg"@,
    }
}

/// The name of the ripgrep binary that is shipped for a system.
pub fn rg_sidecar_name(os: Os, arch: Arch) -> (name: &'static str)
    ensures
        name@ == sidecar_name(os, arch),
{
    match (os, arch) {
        (Os::Windows, _) => "rg-x86_64-pc-windows-msvc.exe",
        (Os::MacOs, Arch::Aarch64) => "rg-aarch64-apple-darwin",
        (Os::MacOs, _) => "rg-x86_64-apple-darwin",
        (Os::Linux, Arch::Aarch64) => "rg-aarch64-unknown-linux-gnu",
        (Os::Linux, Arch::Arm) => "rg-armv7-unknown-linux-gnueabihf",
        (Os::Linux, _) => "rg-x86_64-unknown-linux-musl",
        (Os::Other, _) => "rg",
    }
}

/// Where a path begins.
#[derive(Debug, Clone, Copy, PartialEq, Eq, Structural)]
pub enum RgBase {
    WorkingDirectory,
    ExecutableDirectory,
}

/// A file that may be the ripgrep to run: the parts are joined to the base, one after the other.
#[derive(Debug, Clone)]
pub struct RgCandidate {
    pub base: RgBase,
    pub parts: Vec<String>,
}

/// The model of an [`RgCandidate`].
pub struct RgCandidateView {
    pub base: RgBase,
    pub parts: Seq<Seq<char>>,
}

impl View for RgCandidate {
    type V = RgCandidateView;

    open spec fn view(&self) -> RgCandidateView {
        RgCandidateView { base: self.base, parts: views(self.parts@) }
    }
}

/// The models of candidates.
pub open spec fn candidate_views(candidates: Seq<RgCandidate>) -> Seq<RgCandidateView> {
    candidates.map_values(|c: RgCandidate| c@)
}

/// What is known before any file is looked at.
#[derive(Debug, Clone)]
pub struct RgSetting {
    /// The path that the environment names, if it names one.
    pub env_path: Option<String>,
    /// That path is absolute.
    pub env_path_is_absolute: bool,
    /// The working directory is known.
    pub has_working_directory: bool,
    /// The directory of the running program is known.
    pub has_executable_directory: bool,
    pub os: Os,
    pub arch: Arch,
}

/// The path that the environment names: a blank one counts as none.
pub open spec fn named_path(env_path: Option<String>) -> Option<Seq<char>> {
    match env_path {
        Some(path) => if trimmed(path@).len() > 0 {
            Some(path@)
        } else {
            None
        },
        None => None,
    }
}

/// How ripgrep is looked for: the files to look at, in order, what to call the source of the first
/// one found, and what to run, from which source, where none is found.
pub struct RgPlanView {
    pub candidates: Seq<RgCandidateView>,
    pub source: Seq<char>,
    pub fallback: Seq<char>,
    pub fallback_source: Seq<char>,
}

/// How ripgrep is looked for. A path that the environment names wins: an absolute one as it stands,
/// a relative one below the working directory or its `src-tauri`, else as it stands. Without one,
/// the shipped binary is looked for around the working directory and around the program; where it
/// is not found, `rg` is left to the search path.
pub open spec fn rg_plan_of(setting: RgSetting) -> RgPlanView {
    let binary = sidecar_name(setting.os, setting.arch);
    match named_path(setting.env_path) {
        Some(path) => RgPlanView {
            candidates: if setting.env_path_is_absolute || !setting.has_working_directory {
                Seq::empty()
            } else {
                seq![
                    RgCandidateView { base: RgBase::WorkingDirectory, parts: seq![path] },
                    RgCandidateView {
                        base: RgBase::WorkingDirectory,
                        parts: seq!["src-tauri"@, path],
                    },
                ]
            },
            source: "env"@,
            fallback: path,
            fallback_source: "env"@,
        },
        None => RgPlanView {
            candidates: (if setting.has_working_directory {
                seq![
                    RgCandidateView {
                        base: RgBase::WorkingDirectory,
                        parts: seq!["src-tauri"@, "bin"@, binary],
                    },
                    RgCandidateView {
                        base: RgBase::WorkingDirectory,
                        parts: seq!["bin"@, binary],
                    },
                ]
            } else {
                Seq::empty()
            }) + (if setting.has_executable_directory {
                seq![
                    RgCandidateView { base: RgBase::ExecutableDirectory, parts: seq![binary] },
                    RgCandidateView {
                        base: RgBase::ExecutableDirectory,
                        parts: seq!["../Resources"@, binary],
                    },
                    RgCandidateView {
                        base: RgBase::ExecutableDirectory,
                        parts: seq!["../lib"@, binary],
                    },
                ]
            } else {
                Seq::empty()
            }),
            source: "sidecar"@,
            fallback: "rg"@,
            fallback_source: "path"@,
        },
    }
}

/// How ripgrep is looked for.
#[derive(Debug, Clone)]
pub struct RgPlan {
    pub candidates: Vec<RgCandidate>,
    pub source: String,
    pub fallback: String,
    pub fallback_source: String,
}

impl View for RgPlan {
    type V = RgPlanView;

    open spec fn view(&self) -> RgPlanView {
        RgPlanView {
            candidates: candidate_views(self.candidates@),
            source: self.source@,
            fallback: self.fallback@,
            fallback_source: self.fallback_source@,
        }
    }
}

fn candidate1(base: RgBase, a: &str) -> (c: RgCandidate)
    ensures
        c@ == (RgCandidateView { base, parts: seq![a@] }),
{
    let parts: Vec<String> = vec![a.to_owned()];
    assert(views(parts@) =~= seq![a@]);
    RgCandidate { base, parts }
}

fn candidate2(base: RgBase, a: &str, b: &str) -> (c: RgCandidate)
    ensures
        c@ == (RgCandidateView { base, parts: seq![a@, b@] }),
{
    let parts: Vec<String> = vec![a.to_owned(), b.to_owned()];
    assert(views(parts@) =~= seq![a@, b@]);
    RgCandidate { base, parts }
}

fn candidate3(base: RgBase, a: &str, b: &str, d: &str) -> (c: RgCandidate)
    ensures
        c@ == (RgCandidateView { base, parts: seq![a@, b@, d@] }),
{
    let parts: Vec<String> = vec![a.to_owned(), b.to_owned(), d.to_owned()];
    assert(views(parts@) =~= seq![a@, b@, d@]);
    RgCandidate { base, parts }
}

/// How ripgrep is looked for in a setting.
pub fn rg_plan(setting: &RgSetting) -> (plan: RgPlan)
    ensures
        plan@ == rg_plan_of(*setting),
{
    let mut candidates: Vec<RgCandidate> = Vec::new();
    match &setting.env_path {
        Some(path) => {
            if !trim(path.as_str()).as_str().is_empty() {
                if !setting.env_path_is_absolute && setting.has_working_directory {
                    candidates.push(candidate1(RgBase::WorkingDirectory, path.as_str()));
                    candidates.push(
                        candidate2(RgBase::WorkingDirectory, "src-tauri", path.as_str()),
                    );
                }
                let plan = RgPlan {
                    candidates,
                    source: "env".to_owned(),
                    fallback: path.clone(),
                    fallback_source: "env".to_owned(),
                };
                assert(plan@.candidates =~= rg_plan_of(*setting).candidates);
                return plan;
            }
        },
        None => {},
    }
    let binary = rg_sidecar_name(setting.os, setting.arch);
    if setting.has_working_directory {
        candidates.push(candidate3(RgBase::WorkingDirectory, "src-tauri", "bin", binary));
        candidates.push(candidate2(RgBase::WorkingDirectory, "bin", binary));
    }
    if setting.has_executable_directory {
        candidates.push(candidate1(RgBase::ExecutableDirectory, binary));
        candidates.push(candidate2(RgBase::ExecutableDirectory, "../Resources", binary));
        candidates.push(candidate2(RgBase::ExecutableDirectory, "../lib", binary));
    }
    let plan = RgPlan {
        candidates,
        source: "sidecar".to_owned(),
        fallback: "rg".to_owned(),
        fallback_source: "path".to_owned(),
    };
    assert(plan@.candidates =~= rg_plan_of(*setting).candidates);
    plan
}

/// The ripgrep to run and its source: the first candidate that was found, else the fallback.
pub open spec fn rg_choice(plan: RgPlanView, answers: Seq<Option<Seq<char>>>) -> (
    Seq<char>,
    Seq<char>,
) {
    let n = misses(answers);
    if n < answers.len() {
        (answers[n as int]->0, plan.source)
    } else {
        (plan.fallback, plan.fallback_source)
    }
}

/// The ripgrep to run and its source. The answers say, for the candidates in their order, under
/// which path the file was found; none are needed behind the first that was.
pub fn resolve_rg_path(plan: &RgPlan, answers: &Vec<Option<String>>) -> (found: (String, String))
    ensures
        (found.0@, found.1@) == rg_choice(plan@, answer_views(answers@)),
{
    match first_find(answers) {
        Some(i) => {
            assert(answer_views(answers@)[i as int] == opt_view(answers@[i as int]));
            match &answers[i] {
                Some(path) => (path.clone(), plan.source.clone()),
                None => (plan.fallback.clone(), plan.fallback_source.clone()),
            }
        },
        None => (plan.fallback.clone(), plan.fallback_source.clone()),
    }
}

/// The ripgrep to run, looked for once: what the cache holds stays, an empty one takes what is
/// found now.
pub fn detect_rg_path(
    cache: &mut Option<String>,
    plan: &RgPlan,
    answers: &Vec<Option<String>>,
) -> (path: String)
    ensures
        match *old(cache) {
            Some(known) => path@ == known@,
            None => path@ == rg_choice(plan@, answer_views(answers@)).0,
        },
        opt_view(*final(cache)) == Some(path@),
{
    match cache {
        Some(known) => known.clone(),
        None => {
            let (detected, _source) = resolve_rg_path(plan, answers);
            *cache = Some(detected.clone());
            detected
        },
    }
}

/// An absolute path that the environment names is run as it stands, whatever the disk holds.
pub proof fn law_absolute_env_path_wins(setting: RgSetting)
    requires
        named_path(setting.env_path) is Some,
        setting.env_path_is_absolute,
    ensures
        rg_plan_of(setting).candidates.len() == 0,
        rg_choice(rg_plan_of(setting), Seq::empty()) == (
            named_path(setting.env_path)->0,
            "env"@,
        ),
{
}

}
