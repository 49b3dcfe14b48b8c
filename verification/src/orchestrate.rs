use vstd::prelude::*;
use crate::Error;
use crate::codec::{toml_doc, toml_text, parse_toml, render_toml};
use crate::fingerprint::{fingerprint, script_stale};
use crate::locate::{root_steps, choose_root};
use crate::manifest::{registry_ok, reg_deps, reg_pargo, script_path_of, registry_of,
    script_path};
use crate::rewrite::{deps_key, rewrite_model, rewrite_deps, merge_model, merge, lemma_rewrite_wf};
use crate::value::{TomlValue, TomlTable, Model, tab_model, m_wf, tab_equiv, val_eq, tab_lookup,
    lemma_tab_model, lemma_m_wf_tab, lemma_midx_unique};

verus! {

/// What the orchestrator asks its surroundings to do next. Everything that
/// touches the filesystem or spawns a process stands here; the decisions
/// stay in `next`.
pub enum Action {
    /// Walk up from the working directory, noting for each directory
    /// whether it carries a build-description marker or a script-source
    /// file, until the first directory that carries neither.
    GatherMarks,
    /// Root the run `steps` directories above the walk's origin, then try
    /// to read the project manifest there.
    EnterRoot { steps: usize },
    /// No project manifest: hand the original arguments, unchanged, to the
    /// standard build command and propagate its exit status.
    Delegate { args: Vec<String> },
    /// Ask whether the nested build context directory exists.
    CheckInitDir,
    /// Create the nested build context and run the build tool's project
    /// initializer inside it.
    InitContext,
    /// Read the declared script and the copy held in the nested build
    /// context.
    ReadScript { path: String },
    /// Read the nested build description.
    ReadNestedManifest,
    /// Copy the declared script over the nested copy.
    CopyScript { from: String },
    /// Overwrite the nested build description with this text.
    WriteNestedManifest { text: String },
    /// Compile inside the nested build context; a failure is fatal.
    Compile,
    /// Run the compiled artifact with the original arguments.
    Execute { args: Vec<String> },
    /// End the run with this exit code: the spawned process's own.
    ExitWith { code: i32 },
    /// Abort the run with this error.
    Fail { error: Error },
}

/// What the surroundings report back after performing an action.
pub enum Event {
    /// The marker walk's annotations, origin first; the walk stops at the
    /// first unmarked directory, so the last annotation is false.
    Marks { marks: Vec<bool> },
    /// The project manifest's bytes.
    ManifestRead { bytes: Vec<u8> },
    /// No project manifest could be read.
    ManifestMissing,
    /// The nested build context directory exists.
    InitPresent,
    /// The nested build context directory is missing.
    InitMissing,
    /// Whether the initializer finished successfully.
    InitOutcome { ok: bool },
    /// The declared script's bytes and the nested copy's bytes.
    ScriptRead { declared: Vec<u8>, nested: Vec<u8> },
    /// The nested build description's bytes.
    NestedRead { bytes: Vec<u8> },
    /// Whether the script copy finished successfully.
    CopyOutcome { ok: bool },
    /// Whether the description write finished successfully.
    WriteOutcome { ok: bool },
    /// Whether the compile finished successfully.
    CompileOutcome { ok: bool },
    /// A read the run cannot recover from failed.
    ReadFailed,
    /// How spawning the build command or the artifact went: the exit code
    /// of the finished process, or nothing where it could not be spawned.
    SpawnOutcome { code: Option<i32> },
}

/// Where a run stands between two actions.
pub enum State {
    Locating { args: Vec<String> },
    CheckingProject { args: Vec<String> },
    CheckingInit { args: Vec<String>, deps: TomlTable, script: String },
    Initializing { args: Vec<String>, deps: TomlTable, script: String },
    ReadingScript { args: Vec<String>, deps: TomlTable, script: String },
    ReadingNested { args: Vec<String>, deps: TomlTable, script: String, stale_script: bool },
    Copying { args: Vec<String>, text: Option<String> },
    Writing { args: Vec<String> },
    Compiling { args: Vec<String> },
    Delegating,
    Running,
    Done,
}

/// Which events answer which states.
pub open spec fn input_ok(s: State, e: Event) -> bool {
    match (s, e) {
        (State::Locating { .. }, Event::Marks { marks }) => marks@.len() > 0 && !marks@[marks@.len()
            - 1],
        (State::CheckingProject { .. }, Event::ManifestRead { .. }) => true,
        (State::CheckingProject { .. }, Event::ManifestMissing) => true,
        (State::CheckingInit { .. }, Event::InitPresent) => true,
        (State::CheckingInit { .. }, Event::InitMissing) => true,
        (State::Initializing { .. }, Event::InitOutcome { .. }) => true,
        (State::ReadingScript { .. }, Event::ScriptRead { .. }) => true,
        (State::ReadingScript { .. }, Event::ReadFailed) => true,
        (State::ReadingNested { .. }, Event::NestedRead { .. }) => true,
        (State::ReadingNested { .. }, Event::ReadFailed) => true,
        (State::Copying { .. }, Event::CopyOutcome { .. }) => true,
        (State::Writing { .. }, Event::WriteOutcome { .. }) => true,
        (State::Compiling { .. }, Event::CompileOutcome { .. }) => true,
        (State::Delegating, Event::SpawnOutcome { .. }) => true,
        (State::Running, Event::SpawnOutcome { .. }) => true,
        _ => false,
    }
}

/// The dependency tables a state carries are well-formed.
pub open spec fn state_wf(s: State) -> bool {
    match s {
        State::CheckingInit { deps, .. } => m_wf(Model::Tab(deps@)),
        State::Initializing { deps, .. } => m_wf(Model::Tab(deps@)),
        State::ReadingScript { deps, .. } => m_wf(Model::Tab(deps@)),
        State::ReadingNested { deps, .. } => m_wf(Model::Tab(deps@)),
        _ => true,
    }
}

/// Whether an action changes anything on disk or in the build context.
pub open spec fn mutating(a: Action) -> bool {
    ||| a is InitContext
    ||| a is CopyScript
    ||| a is WriteNestedManifest
    ||| a is Compile
}

/// The orchestrator's transition relation: from state `s` under event `e`,
/// the run moves to state `s2` and asks for action `a`.
pub open spec fn transition(s: State, e: Event, s2: State, a: Action) -> bool {
    match (s, e) {
        (State::Locating { args }, Event::Marks { marks }) => {
            &&& s2 == (State::CheckingProject { args })
            &&& a matches Action::EnterRoot { steps } && steps == root_steps(marks@)
        },
        (State::CheckingProject { args }, Event::ManifestMissing) => {
            &&& s2 == State::Delegating
            &&& a == (Action::Delegate { args })
        },
        (State::CheckingProject { args }, Event::ManifestRead { bytes }) => {
            match toml_doc(bytes@) {
                None => s2 == State::Done && a == (Action::Fail { error: Error::Parse }),
                Some(d) => {
                    if registry_ok(d) && script_path_of(reg_pargo(d)) is Some {
                        &&& a == Action::CheckInitDir
                        &&& s2 matches State::CheckingInit { args: a2, deps, script }
                        &&& a2 == args
                        &&& deps@ == reg_deps(d)
                        &&& script@ == script_path_of(reg_pargo(d))->Some_0
                    } else {
                        s2 == State::Done && a == (Action::Fail { error: Error::Parse })
                    }
                },
            }
        },
        (State::CheckingInit { args, deps, script }, Event::InitPresent) => {
            &&& s2 == (State::ReadingScript { args, deps, script })
            &&& a matches Action::ReadScript { path } && path == script
        },
        (State::CheckingInit { args, deps, script }, Event::InitMissing) => {
            &&& s2 == (State::Initializing { args, deps, script })
            &&& a == Action::InitContext
        },
        (State::Initializing { args, deps, script }, Event::InitOutcome { ok }) => {
            if ok {
                &&& s2 == (State::ReadingScript { args, deps, script })
                &&& a matches Action::ReadScript { path } && path == script
            } else {
                s2 == State::Done && a == (Action::Fail { error: Error::Subprocess })
            }
        },
        (State::ReadingScript { args, deps, script }, Event::ScriptRead { declared, nested }) => {
            &&& s2 == (State::ReadingNested {
                args,
                deps,
                script,
                stale_script: fingerprint(declared@) != fingerprint(nested@),
            })
            &&& a == Action::ReadNestedManifest
        },
        (State::ReadingScript { .. }, Event::ReadFailed) => {
            s2 == State::Done && a == (Action::Fail { error: Error::Io })
        },
        (
            State::ReadingNested { args, deps, script, stale_script },
            Event::NestedRead { bytes },
        ) => {
            match toml_doc(bytes@) {
                None => s2 == State::Done && a == (Action::Fail { error: Error::Parse }),
                Some(n) => {
                    if !registry_ok(n) {
                        s2 == State::Done && a == (Action::Fail { error: Error::Parse })
                    } else {
                        let fresh = tab_equiv(rewrite_model(deps@), reg_deps(n));
                        if fresh && !stale_script {
                            s2 == State::Running && a == (Action::Execute { args })
                        } else if fresh {
                            &&& s2 == (State::Copying { args, text: None })
                            &&& a matches Action::CopyScript { from } && from == script
                        } else {
                            match toml_text(
                                Model::Tab(merge_model(n->Tab_0, rewrite_model(deps@))),
                            ) {
                                None => s2 == State::Done && a == (Action::Fail {
                                    error: Error::Parse,
                                }),
                                Some(txt) => {
                                    if stale_script {
                                        &&& s2 matches State::Copying { args: a2, text: Some(t) }
                                        &&& a2 == args
                                        &&& t@ == txt
                                        &&& a matches Action::CopyScript { from } && from == script
                                    } else {
                                        &&& s2 == (State::Writing { args })
                                        &&& a matches Action::WriteNestedManifest { text }
                                            && text@ == txt
                                    }
                                },
                            }
                        }
                    }
                },
            }
        },
        (State::ReadingNested { .. }, Event::ReadFailed) => {
            s2 == State::Done && a == (Action::Fail { error: Error::Io })
        },
        (State::Copying { args, text }, Event::CopyOutcome { ok }) => {
            if !ok {
                s2 == State::Done && a == (Action::Fail { error: Error::Io })
            } else {
                match text {
                    Some(t) => {
                        &&& s2 == (State::Writing { args })
                        &&& a == (Action::WriteNestedManifest { text: t })
                    },
                    None => {
                        &&& s2 == (State::Compiling { args })
                        &&& a == Action::Compile
                    },
                }
            }
        },
        (State::Writing { args }, Event::WriteOutcome { ok }) => {
            if ok {
                s2 == (State::Compiling { args }) && a == Action::Compile
            } else {
                s2 == State::Done && a == (Action::Fail { error: Error::Io })
            }
        },
        (State::Compiling { args }, Event::CompileOutcome { ok }) => {
            if ok {
                s2 == State::Running && a == (Action::Execute { args })
            } else {
                s2 == State::Done && a == (Action::Fail { error: Error::Subprocess })
            }
        },
        (State::Delegating, Event::SpawnOutcome { code }) => {
            match code {
                Some(c) => s2 == State::Done && a == (Action::ExitWith { code: c }),
                None => s2 == State::Done && a == (Action::Fail { error: Error::Spawn }),
            }
        },
        (State::Running, Event::SpawnOutcome { code }) => {
            match code {
                Some(c) => s2 == State::Done && a == (Action::ExitWith { code: c }),
                None => s2 == State::Done && a == (Action::Fail { error: Error::Spawn }),
            }
        },
        _ => false,
    }
}

/// Begins a run: remember the original arguments and ask for the marker
/// walk.
pub fn start(args: Vec<String>) -> (r: (State, Action))
    ensures
        r.0 == (State::Locating { args }),
        r.1 == Action::GatherMarks,
        state_wf(r.0),
{
    (State::Locating { args }, Action::GatherMarks)
}

/// One step of the orchestrator: takes what the surroundings reported and
/// decides the next action.
pub fn next(s: State, e: Event) -> (r: (State, Action))
    requires
        input_ok(s, e),
        state_wf(s),
    ensures
        transition(s, e, r.0, r.1),
        state_wf(r.0),
{
    match (s, e) {
        (State::Locating { args }, Event::Marks { marks }) => {
            let steps = choose_root(&marks);
            (State::CheckingProject { args }, Action::EnterRoot { steps })
        },
        (State::CheckingProject { args }, Event::ManifestMissing) => (
            State::Delegating,
            Action::Delegate { args },
        ),
        (State::CheckingProject { args }, Event::ManifestRead { bytes }) => {
            let doc = match parse_toml(bytes.as_slice()) {
                Some(d) => d,
                None => {
                    return (State::Done, Action::Fail { error: Error::Parse });
                },
            };
            let reg = match registry_of(doc) {
                Ok(reg) => reg,
                Err(_) => {
                    return (State::Done, Action::Fail { error: Error::Parse });
                },
            };
            let script = match script_path(&reg) {
                Ok(p) => p,
                Err(_) => {
                    return (State::Done, Action::Fail { error: Error::Parse });
                },
            };
            (
                State::CheckingInit { args, deps: reg.dependencies, script },
                Action::CheckInitDir,
            )
        },
        (State::CheckingInit { args, deps, script }, Event::InitPresent) => {
            let path = script.clone();
            (State::ReadingScript { args, deps, script }, Action::ReadScript { path })
        },
        (State::CheckingInit { args, deps, script }, Event::InitMissing) => (
            State::Initializing { args, deps, script },
            Action::InitContext,
        ),
        (State::Initializing { args, deps, script }, Event::InitOutcome { ok }) => {
            if ok {
                let path = script.clone();
                (State::ReadingScript { args, deps, script }, Action::ReadScript { path })
            } else {
                (State::Done, Action::Fail { error: Error::Subprocess })
            }
        },
        (State::ReadingScript { args, deps, script }, Event::ScriptRead { declared, nested }) => {
            let stale = script_stale(&declared, &nested);
            (
                State::ReadingNested { args, deps, script, stale_script: stale },
                Action::ReadNestedManifest,
            )
        },
        (State::ReadingScript { .. }, Event::ReadFailed) => (
            State::Done,
            Action::Fail { error: Error::Io },
        ),
        (
            State::ReadingNested { args, deps, script, stale_script },
            Event::NestedRead { bytes },
        ) => next_nested(args, deps, script, stale_script, bytes),
        (State::ReadingNested { .. }, Event::ReadFailed) => (
            State::Done,
            Action::Fail { error: Error::Io },
        ),
        (State::Copying { args, text }, Event::CopyOutcome { ok }) => {
            if !ok {
                (State::Done, Action::Fail { error: Error::Io })
            } else {
                match text {
                    Some(t) => (State::Writing { args }, Action::WriteNestedManifest { text: t }),
                    None => (State::Compiling { args }, Action::Compile),
                }
            }
        },
        (State::Writing { args }, Event::WriteOutcome { ok }) => {
            if ok {
                (State::Compiling { args }, Action::Compile)
            } else {
                (State::Done, Action::Fail { error: Error::Io })
            }
        },
        (State::Compiling { args }, Event::CompileOutcome { ok }) => {
            if ok {
                (State::Running, Action::Execute { args })
            } else {
                (State::Done, Action::Fail { error: Error::Subprocess })
            }
        },
        (State::Delegating, Event::SpawnOutcome { code }) => spawn_step(code),
        (State::Running, Event::SpawnOutcome { code }) => spawn_step(code),
        _ => {
            proof {
                assert(false);
            }
            (State::Done, Action::Fail { error: Error::Io })
        },
    }
}

/// The decision after the nested build description was read: compare the
/// rewritten dependency table with the nested one and order the copies,
/// writes and compile that staleness asks for.
fn next_nested(
    args: Vec<String>,
    deps: TomlTable,
    script: String,
    stale_script: bool,
    bytes: Vec<u8>,
) -> (r: (State, Action))
    requires
        m_wf(Model::Tab(deps@)),
    ensures
        transition(
            State::ReadingNested { args, deps, script, stale_script },
            Event::NestedRead { bytes },
            r.0,
            r.1,
        ),
        state_wf(r.0),
{
    let ghost dm = deps@;
    let nested_doc = match parse_toml(bytes.as_slice()) {
        Some(d) => d,
        None => {
            return (State::Done, Action::Fail { error: Error::Parse });
        },
    };
    let ntab = match nested_doc {
        TomlValue::Tab(t) => t,
        _ => {
            return (State::Done, Action::Fail { error: Error::Parse });
        },
    };
    let ghost nm = tab_model(ntab.entries@);
    proof {
        lemma_tab_model(ntab.entries@);
        reveal_strlit("dependencies");
        reveal_strlit("pargo");
        assert(deps_key().len() == 12);
        assert(crate::manifest::pargo_key().len() == 5);
    }
    let dk = "dependencies".to_owned();
    let pk = "pargo".to_owned();
    let jd = match tab_lookup(&ntab.entries, &dk) {
        Some(j) => j,
        None => {
            return (State::Done, Action::Fail { error: Error::Parse });
        },
    };
    proof {
        lemma_m_wf_tab(nm, jd as int);
        lemma_midx_unique(nm, jd as int);
    }
    match tab_lookup(&ntab.entries, &pk) {
        Some(jp) => {
            proof {
                lemma_m_wf_tab(nm, jp as int);
                lemma_midx_unique(nm, jp as int);
            }
            match &ntab.entries[jp].1 {
                TomlValue::Tab(_) => {},
                _ => {
                    return (State::Done, Action::Fail { error: Error::Parse });
                },
            }
        },
        None => {},
    }
    match &ntab.entries[jd].1 {
        TomlValue::Tab(_) => {},
        _ => {
            return (State::Done, Action::Fail { error: Error::Parse });
        },
    }
    proof {
        lemma_rewrite_wf(dm);
    }
    let rewritten = rewrite_deps(deps);
    let rw = TomlValue::Tab(rewritten);
    let fresh = val_eq(&rw, &ntab.entries[jd].1);
    if fresh && !stale_script {
        return (State::Running, Action::Execute { args });
    }
    if fresh {
        return (State::Copying { args, text: None }, Action::CopyScript { from: script });
    }
    let rwtab = match rw {
        TomlValue::Tab(t) => t,
        _ => {
            proof {
                assert(false);
            }
            return (State::Done, Action::Fail { error: Error::Io });
        },
    };
    let merged = merge(ntab, rwtab);
    let text = match render_toml(TomlValue::Tab(merged)) {
        Some(t) => t,
        None => {
            return (State::Done, Action::Fail { error: Error::Parse });
        },
    };
    if stale_script {
        (State::Copying { args, text: Some(text) }, Action::CopyScript { from: script })
    } else {
        (State::Writing { args }, Action::WriteNestedManifest { text })
    }
}

/// After a spawn: propagate the finished process's exit code verbatim, or
/// abort where nothing could be spawned.
fn spawn_step(code: Option<i32>) -> (r: (State, Action))
    ensures
        r.0 == State::Done,
        match code {
            Some(c) => r.1 == (Action::ExitWith { code: c }),
            None => r.1 == (Action::Fail { error: Error::Spawn }),
        },
{
    match code {
        Some(c) => (State::Done, Action::ExitWith { code: c }),
        None => (State::Done, Action::Fail { error: Error::Spawn }),
    }
}

/// Delegation: a run that finds no project manifest in the located root
/// hands the standard build command exactly the arguments it began with,
/// returns that command's exact exit code, and none of its steps changes
/// anything on disk.
pub proof fn lemma_delegation(
    args: Vec<String>,
    marks: Vec<bool>,
    code: i32,
    s1: State,
    a1: Action,
    s2: State,
    a2: Action,
    s3: State,
    a3: Action,
)
    requires
        transition(State::Locating { args }, Event::Marks { marks }, s1, a1),
        transition(s1, Event::ManifestMissing, s2, a2),
        transition(s2, Event::SpawnOutcome { code: Some(code) }, s3, a3),
    ensures
        !mutating(a1),
        !mutating(a2),
        !mutating(a3),
        a2 == (Action::Delegate { args }),
        a3 == (Action::ExitWith { code }),
        s3 == State::Done,
{
}

} // verus!
