use markflow::instance::{
    encode_instance_message, received_paths, run, InstanceMessage, LaunchEvent, LaunchStep,
    PendingOpenFiles, INSTANCE_PORT,
};
use markflow::platform::{
    file_mtime, open_directory_command, reveal_in_folder_command, spawn_failure, unix_parent_of,
    MtimeProbe, Platform,
};

fn files() -> Vec<String> {
    vec!["/home/u/a.md".to_string(), "/home/u/b.md".to_string()]
}

#[test]
fn first_instance_listens_with_its_files() {
    let (mut launch, step) = run(files());
    assert_eq!(step, LaunchStep::Listen { host: "127.0.0.1".to_string(), port: 48721 });
    assert_eq!(INSTANCE_PORT, 48721);
    assert_eq!(
        launch.resume(LaunchEvent::Bound(true)),
        LaunchStep::RunPrimary { files: files(), listening: true }
    );
    // settled: later events change nothing
    assert_eq!(
        launch.resume(LaunchEvent::Forwarded(true)),
        LaunchStep::RunPrimary { files: files(), listening: true }
    );
}

#[test]
fn later_instance_forwards_and_exits() {
    let (mut launch, _) = run(files());
    assert_eq!(
        launch.resume(LaunchEvent::Bound(false)),
        LaunchStep::Forward { host: "127.0.0.1".to_string(), port: INSTANCE_PORT, files: files() }
    );
    assert_eq!(launch.resume(LaunchEvent::Forwarded(true)), LaunchStep::Exit);
}

#[test]
fn failed_forward_runs_without_listener() {
    let (mut launch, _) = run(files());
    launch.resume(LaunchEvent::Bound(false));
    assert_eq!(
        launch.resume(LaunchEvent::Forwarded(false)),
        LaunchStep::RunPrimary { files: files(), listening: false }
    );
}

#[test]
fn instance_message_is_json() {
    let m = InstanceMessage { paths: vec!["C:\\x\\\"q\".md".to_string(), "b".to_string()] };
    let text = encode_instance_message(&m);
    let mut obj = serde_json::Map::new();
    obj.insert(
        "paths".to_string(),
        serde_json::Value::Array(m.paths.iter().map(|p| serde_json::Value::String(p.clone())).collect()),
    );
    assert_eq!(text, serde_json::to_string(&serde_json::Value::Object(obj)).unwrap());
    assert_eq!(encode_instance_message(&InstanceMessage { paths: vec![] }), "{\"paths\":[]}");
}

#[test]
fn unparsable_message_brings_no_files() {
    assert_eq!(received_paths(None), Vec::<String>::new());
    assert_eq!(received_paths(Some(InstanceMessage { paths: files() })), files());
}

#[test]
fn pending_files_come_out_in_order_once() {
    let mut pending = PendingOpenFiles::new(vec!["start.md".to_string()]);
    assert!(!pending.queue(vec![]));
    assert!(pending.queue(vec!["a.md".to_string()]));
    assert!(pending.queue(vec!["b.md".to_string(), "c.md".to_string()]));
    assert_eq!(pending.take(), vec!["start.md", "a.md", "b.md", "c.md"]);
    assert_eq!(pending.take(), Vec::<String>::new());
}

#[test]
fn reveal_commands_per_platform() {
    let c = reveal_in_folder_command(Platform::Windows, "C:\\d\\f.md", true).unwrap();
    assert_eq!(c.program, "explorer");
    assert_eq!(c.args, vec!["/select,C:\\d\\f.md"]);
    assert_eq!(spawn_failure(&c, "boom"), "Failed to reveal in Explorer: boom");
    let c = reveal_in_folder_command(Platform::MacOs, "/d/f.md", true).unwrap();
    assert_eq!(c.program, "open");
    assert_eq!(c.args, vec!["-R", "/d/f.md"]);
    assert_eq!(c.failure_prefix, "Failed to reveal in Finder: ");
    let c = reveal_in_folder_command(Platform::Unix, "/d/f.md", true).unwrap();
    assert_eq!(c.program, "xdg-open");
    assert_eq!(c.args, vec!["/d"]);
    assert_eq!(c.failure_prefix, "Failed to open containing folder: ");
    let c = reveal_in_folder_command(Platform::Unix, "/", true).unwrap();
    assert_eq!(c.args, vec!["/"]);
}

#[test]
fn reveal_of_missing_path_fails() {
    assert_eq!(
        reveal_in_folder_command(Platform::Unix, "/nope.md", false),
        Err("Path does not exist: /nope.md".to_string())
    );
}

#[test]
fn open_directory_commands() {
    let c = open_directory_command(Platform::Windows, "C:\\data");
    assert_eq!((c.program.as_str(), c.args.clone()), ("explorer", vec!["C:\\data".to_string()]));
    assert_eq!(spawn_failure(&c, "not found"), "not found");
    assert_eq!(open_directory_command(Platform::MacOs, "/d").program, "open");
    assert_eq!(open_directory_command(Platform::Unix, "/d").program, "xdg-open");
}

#[test]
fn mtime_results() {
    assert_eq!(file_mtime(MtimeProbe::NoMetadata), Ok(None));
    assert_eq!(file_mtime(MtimeProbe::NoModifiedTime), Ok(None));
    assert_eq!(file_mtime(MtimeProbe::BeforeEpoch("before".to_string())), Err("before".to_string()));
    assert_eq!(file_mtime(MtimeProbe::SinceEpoch(1_712_345_678_901)), Ok(Some(1_712_345_678_901)));
    assert_eq!(file_mtime(MtimeProbe::SinceEpoch(u64::MAX as u128 + 5)), Ok(Some(4)));
}

#[test]
fn unix_parent_matches_path_parent() {
    let samples = [
        "", "/", "//", "/a", "/a/", "/a//", "/a/b", "/home/u/notes/a.md", "/a/b/", "/a//b",
        "/a/./b", "/a/b/.", "/a/b/./", "a", "a/", "a/b", "a//b//", ".", "./", "./a", ".//a",
        "./a/", "..", "../a", "a/..", "/..", "/.", "/./a", "a/./.", "./.", ".a/b", "...", "a/../b",
        "//a//b", "/a/b/c.md", "x/./", "./././a", "/.a",
    ];
    for sample in samples {
        let expected = std::path::Path::new(sample).parent().map(|p| p.to_str().unwrap().to_string());
        assert_eq!(unix_parent_of(sample), expected, "{:?}", sample);
    }
    assert_eq!(unix_parent_of("/home/u/notes/a.md"), Some("/home/u/notes".to_string()));
}

#[test]
fn unix_reveal_opens_the_parent_directory() {
    let c = reveal_in_folder_command(Platform::Unix, "/home/u/notes/a.md", true).unwrap();
    assert_eq!(c.args, vec!["/home/u/notes"]);
    let c = reveal_in_folder_command(Platform::Unix, "/home/u/notes/", true).unwrap();
    assert_eq!(c.args, vec!["/home/u"]);
    let c = reveal_in_folder_command(Platform::Unix, "notes.md", true).unwrap();
    assert_eq!(c.args, vec![""]);
}

#[test]
fn messages_queue_in_arrival_order() {
    let mut pending = PendingOpenFiles::new(vec!["s.md".to_string()]);
    let batches = [vec!["p1.md".to_string()], vec![], vec!["p2.md".to_string(), "p3.md".to_string()]];
    for b in batches.iter() {
        pending.queue(b.clone());
    }
    assert_eq!(pending.take(), vec!["s.md", "p1.md", "p2.md", "p3.md"]);
}
