//! Build orchestration decisions: what is persisted where, and how a build
//! subprocess's outcome is reported.
//!
//! The artifact is written to a fixed source path inside a fixed project
//! directory and the synthesized manifest to the project root; both are
//! overwritten in place on every run, with no versioning and no backup.
//! The subprocess itself runs elsewhere; its captured output, or its
//! failure to start, is turned into a `BuildResult` and a phase here.

use vstd::prelude::*;
use crate::manifest::manifest_of;
use crate::phase::Phase;

verus! {

/// The fixed project directory a run builds in.
pub open spec fn project_root_text() -> Seq<char> {
    "Rust_Project"@
}

/// The fixed path, inside the project, that the artifact is written to.
pub open spec fn source_path_text() -> Seq<char> {
    "Rust_Project/src/main.rs"@
}

/// The fixed path the synthesized manifest is written to.
pub open spec fn manifest_path_text() -> Seq<char> {
    "Rust_Project/Cargo.toml"@
}

/// The fixed project directory a run builds in.
pub fn project_root() -> (r: String)
    ensures
        r@ == project_root_text(),
{
    String::from_str("Rust_Project")
}

/// The fixed path the artifact is written to.
pub fn source_path() -> (r: String)
    ensures
        r@ == source_path_text(),
{
    String::from_str("Rust_Project/src/main.rs")
}

/// The fixed path the manifest is written to.
pub fn manifest_path() -> (r: String)
    ensures
        r@ == manifest_path_text(),
{
    String::from_str("Rust_Project/Cargo.toml")
}

/// What one build attempt came to.
pub enum BuildResult {
    /// The subprocess ran to completion: its captured output text and exit
    /// status.
    Finished { stdout: String, stderr: String, exit_code: i32 },
    /// The subprocess could not be started; the message says why.
    StartFailure { message: String },
}

/// Turns what the subprocess runner observed into a `BuildResult`: captured
/// output and status when the process ran, the failure text when it could
/// not be launched.  Neither case is ever dropped or crossed with the
/// other.
pub fn finish_build(outcome: Result<(String, String, i32), String>) -> (r: BuildResult)
    ensures
        outcome matches Ok(o) ==> r matches BuildResult::Finished { stdout, stderr, exit_code }
            && stdout@ == o.0@ && stderr@ == o.1@ && exit_code == o.2,
        outcome matches Err(e) ==> r matches BuildResult::StartFailure { message } && message@
            == e@,
{
    match outcome {
        Ok((out, err, code)) => BuildResult::Finished { stdout: out, stderr: err, exit_code: code },
        Err(e) => BuildResult::StartFailure { message: e },
    }
}

/// The surfaced terminal text of a build: captured standard output, a line
/// break, then captured standard error; or the failure notice when the
/// subprocess never started.
pub fn combined_output(r: &BuildResult) -> (s: String)
    ensures
        r matches BuildResult::Finished { stdout, stderr, .. } ==> s@ == stdout@ + "\n"@
            + stderr@,
        r matches BuildResult::StartFailure { message } ==> s@ == "Failed: "@ + message@,
{
    match r {
        BuildResult::Finished { stdout, stderr, .. } => {
            let mut s = stdout.clone();
            s.append("\n");
            s.append(stderr.as_str());
            s
        },
        BuildResult::StartFailure { message } => {
            let mut s = String::from_str("Failed: ");
            s.append(message.as_str());
            s
        },
    }
}

/// The phase a run reaches after its build: `Done` only for an exit status
/// of zero; a non-zero exit reports the captured standard error, and a
/// start failure its message, as a terminal `Error`.
pub fn phase_after_build(r: &BuildResult) -> (p: Phase)
    ensures
        r matches BuildResult::Finished { exit_code, .. } ==> (exit_code == 0 ==> p is Done),
        r matches BuildResult::Finished { stderr, exit_code, .. } ==> (exit_code != 0 ==> (p
            matches Phase::Error(m) && m@ == stderr@)),
        r matches BuildResult::StartFailure { message } ==> p matches Phase::Error(m) && m@
            == message@,
{
    match r {
        BuildResult::Finished { stderr, exit_code, .. } => {
            if *exit_code == 0 {
                Phase::Done
            } else {
                Phase::Error(stderr.clone())
            }
        },
        BuildResult::StartFailure { message } => Phase::Error(message.clone()),
    }
}

/// The persisted state of the fixed project location: what stands at the
/// source path and at the manifest path.
pub struct ProjectDir {
    /// The artifact text at the fixed source path, once one was written.
    pub source: Option<String>,
    /// The manifest text at the project root, once one was written.
    pub manifest: Option<String>,
}

/// The project location holds exactly the outcome of persisting artifact
/// `a`: that artifact at the source path and its synthesized manifest at
/// the manifest path, and nothing of any earlier run.
pub open spec fn persisted_state(d: ProjectDir, a: Seq<char>) -> bool {
    &&& d.source matches Some(s) && s@ == a
    &&& d.manifest matches Some(m) && m@ == manifest_of(a)
}

impl ProjectDir {
    /// The project location before any run has written to it.
    pub fn new() -> (r: ProjectDir)
        ensures
            r.source is None,
            r.manifest is None,
    {
        ProjectDir { source: None, manifest: None }
    }

    /// Persists one run's artifact: the artifact text replaces whatever
    /// stood at the source path, and its freshly synthesized manifest
    /// replaces whatever stood at the manifest path.  The outcome depends
    /// on the artifact alone, never on what was there before.
    pub fn persist(&mut self, artifact: &str)
        ensures
            persisted_state(*final(self), artifact@),
    {
        self.source = Some(artifact.to_owned());
        self.manifest = Some(crate::manifest::synthesize(artifact));
    }
}

/// Single-run overwrite: persisting leaves no residue.  Any two project
/// states that persisted the same artifact last hold identical content,
/// whatever stood in them before — so after two sequential persists only
/// the second one's artifact and manifest remain.
pub proof fn lemma_single_run_overwrite(d1: ProjectDir, d2: ProjectDir, a: Seq<char>)
    requires
        persisted_state(d1, a),
        persisted_state(d2, a),
    ensures
        d1.source.unwrap()@ == d2.source.unwrap()@,
        d1.manifest.unwrap()@ == d2.manifest.unwrap()@,
{
}

} // verus!
