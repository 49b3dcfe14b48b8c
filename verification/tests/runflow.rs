use pargo::orchestrate::{next, start, Action, Event, State};
use pargo::Error;

fn args() -> Vec<String> {
    vec!["--release".to_string(), "check".to_string()]
}

const MANIFEST: &[u8] = b"[dependencies]\nfoo = { path = \"libs/foo\" }\n\n[pargo]\npath = \"pargo.rs\"\n";
const FRESH_NESTED: &[u8] = b"[package]\nname = \"pargo\"\n\n[dependencies]\nfoo = { path = \"../../libs/foo\" }\n";
const EMPTY_NESTED: &[u8] = b"[package]\nname = \"pargo\"\nversion = \"0.1.0\"\n\n[dependencies]\n";

#[test]
fn delegation_forwards_the_original_arguments() {
    let (st, a) = start(args());
    assert!(matches!(a, Action::GatherMarks));
    let (st, a) = next(st, Event::Marks { marks: vec![false] });
    assert!(matches!(a, Action::EnterRoot { steps: 1 }));
    let (st, a) = next(st, Event::ManifestMissing);
    match a {
        Action::Delegate { args: forwarded } => assert_eq!(forwarded, args()),
        _ => panic!("expected delegation"),
    }
    let (st, a) = next(st, Event::SpawnOutcome { code: Some(7) });
    assert!(matches!(st, State::Done));
    assert!(matches!(a, Action::ExitWith { code: 7 }));
}

#[test]
fn a_failed_spawn_is_fatal() {
    let (st, _) = start(args());
    let (st, _) = next(st, Event::Marks { marks: vec![false] });
    let (st, _) = next(st, Event::ManifestMissing);
    let (st, a) = next(st, Event::SpawnOutcome { code: None });
    assert!(matches!(st, State::Done));
    assert!(matches!(a, Action::Fail { error: Error::Spawn }));
}

#[test]
fn first_run_initializes_copies_merges_and_compiles() {
    let (st, _) = start(args());
    let (st, a) = next(st, Event::Marks { marks: vec![true, false] });
    assert!(matches!(a, Action::EnterRoot { steps: 0 }));
    let (st, a) = next(st, Event::ManifestRead { bytes: MANIFEST.to_vec() });
    assert!(matches!(a, Action::CheckInitDir));
    let (st, a) = next(st, Event::InitMissing);
    assert!(matches!(a, Action::InitContext));
    let (st, a) = next(st, Event::InitOutcome { ok: true });
    match &a {
        Action::ReadScript { path } => assert_eq!(path, "pargo.rs"),
        _ => panic!("expected a script read"),
    }
    let (st, a) = next(
        st,
        Event::ScriptRead { declared: b"fn main() {}".to_vec(), nested: b"// stub\n".to_vec() },
    );
    assert!(matches!(a, Action::ReadNestedManifest));
    let (st, a) = next(st, Event::NestedRead { bytes: EMPTY_NESTED.to_vec() });
    match &a {
        Action::CopyScript { from } => assert_eq!(from, "pargo.rs"),
        _ => panic!("expected the script copy"),
    }
    let (st, a) = next(st, Event::CopyOutcome { ok: true });
    let text = match a {
        Action::WriteNestedManifest { text } => text,
        _ => panic!("expected the description write"),
    };
    assert!(text.contains("../../libs/foo"));
    assert!(text.contains("name = \"pargo\""));
    assert!(text.contains("version = \"0.1.0\""));
    let (st, a) = next(st, Event::WriteOutcome { ok: true });
    assert!(matches!(a, Action::Compile));
    let (st, a) = next(st, Event::CompileOutcome { ok: true });
    match a {
        Action::Execute { args: forwarded } => assert_eq!(forwarded, args()),
        _ => panic!("expected execution"),
    }
    let (st, a) = next(st, Event::SpawnOutcome { code: Some(0) });
    assert!(matches!(st, State::Done));
    assert!(matches!(a, Action::ExitWith { code: 0 }));
}

#[test]
fn unchanged_second_run_goes_straight_to_execution() {
    // first run, up to the written description
    let (st, _) = start(args());
    let (st, _) = next(st, Event::Marks { marks: vec![true, false] });
    let (st, _) = next(st, Event::ManifestRead { bytes: MANIFEST.to_vec() });
    let (st, _) = next(st, Event::InitMissing);
    let (st, _) = next(st, Event::InitOutcome { ok: true });
    let script = b"fn main() {}".to_vec();
    let (st, _) = next(
        st,
        Event::ScriptRead { declared: script.clone(), nested: b"// stub\n".to_vec() },
    );
    let (st, a) = next(st, Event::NestedRead { bytes: EMPTY_NESTED.to_vec() });
    assert!(matches!(a, Action::CopyScript { .. }));
    let (_, a) = next(st, Event::CopyOutcome { ok: true });
    let written = match a {
        Action::WriteNestedManifest { text } => text.into_bytes(),
        _ => panic!("expected the description write"),
    };

    // second run over the state the first one left behind
    let (st, _) = start(args());
    let (st, _) = next(st, Event::Marks { marks: vec![true, false] });
    let (st, a) = next(st, Event::ManifestRead { bytes: MANIFEST.to_vec() });
    assert!(matches!(a, Action::CheckInitDir));
    let (st, a) = next(st, Event::InitPresent);
    assert!(matches!(a, Action::ReadScript { .. }));
    let (st, a) = next(
        st,
        Event::ScriptRead { declared: script.clone(), nested: script.clone() },
    );
    assert!(matches!(a, Action::ReadNestedManifest));
    let (st, a) = next(st, Event::NestedRead { bytes: written });
    assert!(matches!(st, State::Running));
    match a {
        Action::Execute { args: forwarded } => assert_eq!(forwarded, args()),
        _ => panic!("expected execution without a rebuild"),
    }
    let (st, a) = next(st, Event::SpawnOutcome { code: Some(3) });
    assert!(matches!(st, State::Done));
    assert!(matches!(a, Action::ExitWith { code: 3 }));
}

#[test]
fn stale_script_alone_copies_and_compiles_without_a_write() {
    let (st, _) = start(args());
    let (st, _) = next(st, Event::Marks { marks: vec![true, false] });
    let (st, _) = next(st, Event::ManifestRead { bytes: MANIFEST.to_vec() });
    let (st, _) = next(st, Event::InitPresent);
    let (st, _) = next(
        st,
        Event::ScriptRead { declared: b"fn main() {}".to_vec(), nested: b"// old\n".to_vec() },
    );
    let (st, a) = next(st, Event::NestedRead { bytes: FRESH_NESTED.to_vec() });
    assert!(matches!(a, Action::CopyScript { .. }));
    let (st, a) = next(st, Event::CopyOutcome { ok: true });
    assert!(matches!(a, Action::Compile));
    let (_, a) = next(st, Event::CompileOutcome { ok: true });
    assert!(matches!(a, Action::Execute { .. }));
}

#[test]
fn stale_manifest_alone_writes_without_a_copy() {
    let (st, _) = start(args());
    let (st, _) = next(st, Event::Marks { marks: vec![true, false] });
    let (st, _) = next(st, Event::ManifestRead { bytes: MANIFEST.to_vec() });
    let (st, _) = next(st, Event::InitPresent);
    let script = b"fn main() {}".to_vec();
    let (st, _) = next(st, Event::ScriptRead { declared: script.clone(), nested: script });
    let (st, a) = next(st, Event::NestedRead { bytes: EMPTY_NESTED.to_vec() });
    assert!(matches!(a, Action::WriteNestedManifest { .. }));
    let (st, a) = next(st, Event::WriteOutcome { ok: true });
    assert!(matches!(a, Action::Compile));
    let (_, a) = next(st, Event::CompileOutcome { ok: true });
    assert!(matches!(a, Action::Execute { .. }));
}

#[test]
fn a_merge_keeps_float_and_datetime_fields_verbatim() {
    let nested = b"[package]\nname = \"pargo\"\nscale = 1.5\nstamp = 1979-05-27T07:32:00Z\n\n[dependencies]\n";
    let (st, _) = start(args());
    let (st, _) = next(st, Event::Marks { marks: vec![true, false] });
    let (st, _) = next(st, Event::ManifestRead { bytes: MANIFEST.to_vec() });
    let (st, _) = next(st, Event::InitPresent);
    let script = b"fn main() {}".to_vec();
    let (st, _) = next(st, Event::ScriptRead { declared: script.clone(), nested: script });
    let (_, a) = next(st, Event::NestedRead { bytes: nested.to_vec() });
    let text = match a {
        Action::WriteNestedManifest { text } => text,
        _ => panic!("expected the description write"),
    };
    assert!(text.contains("1.5"));
    assert!(text.contains("1979-05-27T07:32:00Z"));
    assert!(text.contains("../../libs/foo"));
}

#[test]
fn a_manifest_without_dependencies_is_fatal() {
    let (st, _) = start(args());
    let (st, _) = next(st, Event::Marks { marks: vec![true, false] });
    let (st, a) = next(
        st,
        Event::ManifestRead { bytes: b"[package]\nname = \"x\"\n".to_vec() },
    );
    assert!(matches!(st, State::Done));
    assert!(matches!(a, Action::Fail { error: Error::Parse }));
}

#[test]
fn a_script_section_without_a_string_path_is_fatal() {
    let (st, _) = start(args());
    let (st, _) = next(st, Event::Marks { marks: vec![true, false] });
    let (st, a) = next(
        st,
        Event::ManifestRead { bytes: b"[dependencies]\n\n[pargo]\nname = \"x\"\n".to_vec() },
    );
    assert!(matches!(st, State::Done));
    assert!(matches!(a, Action::Fail { error: Error::Parse }));
}

#[test]
fn unparsable_manifest_bytes_are_fatal() {
    let (st, _) = start(args());
    let (st, _) = next(st, Event::Marks { marks: vec![true, false] });
    let (_, a) = next(st, Event::ManifestRead { bytes: b"not = = toml".to_vec() });
    assert!(matches!(a, Action::Fail { error: Error::Parse }));
}

#[test]
fn a_failed_initializer_is_fatal() {
    let (st, _) = start(args());
    let (st, _) = next(st, Event::Marks { marks: vec![true, false] });
    let (st, _) = next(st, Event::ManifestRead { bytes: MANIFEST.to_vec() });
    let (st, _) = next(st, Event::InitMissing);
    let (st, a) = next(st, Event::InitOutcome { ok: false });
    assert!(matches!(st, State::Done));
    assert!(matches!(a, Action::Fail { error: Error::Subprocess }));
}

#[test]
fn a_failed_script_read_is_fatal() {
    let (st, _) = start(args());
    let (st, _) = next(st, Event::Marks { marks: vec![true, false] });
    let (st, _) = next(st, Event::ManifestRead { bytes: MANIFEST.to_vec() });
    let (st, _) = next(st, Event::InitPresent);
    let (_, a) = next(st, Event::ReadFailed);
    assert!(matches!(a, Action::Fail { error: Error::Io }));
}

#[test]
fn a_failed_compile_is_fatal() {
    let (st, _) = start(args());
    let (st, _) = next(st, Event::Marks { marks: vec![true, false] });
    let (st, _) = next(st, Event::ManifestRead { bytes: MANIFEST.to_vec() });
    let (st, _) = next(st, Event::InitPresent);
    let script = b"fn main() {}".to_vec();
    let (st, _) = next(st, Event::ScriptRead { declared: script.clone(), nested: script });
    let (st, _) = next(st, Event::NestedRead { bytes: EMPTY_NESTED.to_vec() });
    let (st, _) = next(st, Event::WriteOutcome { ok: true });
    let (st, a) = next(st, Event::CompileOutcome { ok: false });
    assert!(matches!(st, State::Done));
    assert!(matches!(a, Action::Fail { error: Error::Subprocess }));
}

#[test]
fn a_default_script_path_is_used_when_the_section_is_absent() {
    let (st, _) = start(args());
    let (st, _) = next(st, Event::Marks { marks: vec![true, false] });
    let (st, _) = next(
        st,
        Event::ManifestRead { bytes: b"[dependencies]\nserde = \"1.0\"\n".to_vec() },
    );
    let (_, a) = next(st, Event::InitPresent);
    match a {
        Action::ReadScript { path } => assert_eq!(path, "pargo.rs"),
        _ => panic!("expected a script read"),
    }
}
