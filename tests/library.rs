use file_transfer::command::{plan_commands, quote_command, shell_invocation};
use file_transfer::destination::parse_destination_ssh;
use file_transfer::dispatch::{select_backend, Backend};
use file_transfer::encoding::unwrap_encoded;
use file_transfer::error::TransferError;
use file_transfer::oss::{oss_config_from_members, parse_destiontion_oss, JsonMember, OssConfig};
use file_transfer::paths::{base_name_of, effective_remote_path, relative_path, remote_path_of};
use file_transfer::progress::ProgressMeter;
use file_transfer::transfer::{
    get_files, plan_directory, plan_oss_transfer, plan_stream_transfer, plan_uploads, LocalEntry,
    RemoteAction,
    SourceKind,
};

fn entry(path: &str, is_dir: bool) -> LocalEntry {
    LocalEntry { path: path.to_string(), is_dir }
}

fn is_configuration<T>(r: &Result<T, TransferError>) -> bool {
    matches!(r, Err(TransferError::Configuration(_)))
}

fn is_serialization<T>(r: &Result<T, TransferError>) -> bool {
    matches!(r, Err(TransferError::Serialization(_)))
}

const RECORD: &str = r#"{"oss_bucket":"b","oss_endpoint":"e","key_secret":"s","key_id":"i","destionation":"/d"}"#;

#[test]
fn test_get_files() {
    let tree = vec![
        entry("src/lib.rs", false),
        entry("src/sub", true),
        entry("src/sub/mod.rs", false),
    ];
    let files = get_files("src", SourceKind::Directory, &tree).unwrap();
    assert_eq!(files, vec!["src/lib.rs".to_string(), "src/sub/mod.rs".to_string()]);
}

#[test]
fn test_handle_oss() {
    let config = OssConfig {
        destionation: "/test".into(),
        oss_bucket: "test".into(),
        oss_endpoint: "http://oss-cn-hangzhou.aliyuncs.com".into(),
        key_id: "test".into(),
        key_secret: "test".into(),
        override_existing: None,
    };
    let files = get_files("src", SourceKind::Directory, &vec![entry("src/oss.rs", false)]).unwrap();
    let ups = plan_uploads("src", &config.destionation, &files).unwrap();
    assert_eq!(ups.len(), 1);
    assert_eq!(ups[0].key, "/test/oss.rs");
    assert_eq!(ups[0].local, "src/oss.rs");
}

#[test]
fn get_files_single_file_and_errors() {
    assert_eq!(get_files("a.txt", SourceKind::File, &vec![]).unwrap(), vec!["a.txt".to_string()]);
    assert!(is_configuration(&get_files("nope", SourceKind::Missing, &vec![])));
    assert!(is_configuration(&get_files("dev", SourceKind::Other, &vec![])));
    assert!(get_files("empty", SourceKind::Directory, &vec![]).unwrap().is_empty());
}

#[test]
fn stream_destination_parses_four_parts() {
    let c = parse_destination_ssh("u:p@h:/path").unwrap();
    assert_eq!(c.username, "u");
    assert_eq!(c.password, "p");
    assert_eq!(c.host, "h");
    assert_eq!(c.remote_root, "/path");
}

#[test]
fn stream_destination_rejects_bad_shapes() {
    for bad in ["", "u:p", "u:p@h:/a@b", "up@h:/path", "u:p:x@h:/path", "u:p@h/path", "u:p@h:/a:b"] {
        assert!(is_configuration(&parse_destination_ssh(bad)), "{bad}");
    }
}

#[test]
fn encoded_stream_destination_resolves_alike() {
    let direct = parse_destination_ssh("u:p@h:/path").unwrap();
    let encoded = parse_destination_ssh("dTpwQGg6L3BhdGg=").unwrap();
    assert_eq!(direct.username, encoded.username);
    assert_eq!(direct.password, encoded.password);
    assert_eq!(direct.host, encoded.host);
    assert_eq!(direct.remote_root, encoded.remote_root);
}

#[test]
fn unwrap_decodes_once_and_keeps_non_text() {
    assert_eq!(unwrap_encoded("ZWNobyBieWU="), "echo bye");
    assert_eq!(unwrap_encoded("echo hi"), "echo hi");
    // decodes to bytes that are not UTF-8
    assert_eq!(unwrap_encoded("abcd"), "abcd");
    // "YWJjZA==" is the token of "abcd", which is not decoded a second time
    assert_eq!(unwrap_encoded("YWJjZA=="), "abcd");
}

#[test]
fn oss_record_parses() {
    let c = parse_destiontion_oss(RECORD).unwrap();
    assert_eq!(c.oss_bucket, "b");
    assert_eq!(c.oss_endpoint, "e");
    assert_eq!(c.key_secret, "s");
    assert_eq!(c.key_id, "i");
    assert_eq!(c.destionation, "/d");
    assert_eq!(c.override_existing, None);
}

#[test]
fn oss_record_encoded_and_flag() {
    let c = parse_destiontion_oss("eyJvc3NfYnVja2V0IjoiYiIsIm9zc19lbmRwb2ludCI6ImUiLCJrZXlfc2VjcmV0IjoicyIsImtleV9pZCI6ImkiLCJkZXN0aW9uYXRpb24iOiIvZCJ9").unwrap();
    assert_eq!(c.oss_bucket, "b");
    let with_flag = r#"{"oss_bucket":"b","oss_endpoint":"e","key_secret":"s","key_id":"i","destionation":"/d","override_existing":true}"#;
    assert_eq!(parse_destiontion_oss(with_flag).unwrap().override_existing, Some(true));
}

#[test]
fn oss_record_errors() {
    let no_bucket = r#"{"oss_endpoint":"e","key_secret":"s","key_id":"i","destionation":"/d"}"#;
    assert!(is_serialization(&parse_destiontion_oss(no_bucket)));
    assert!(is_serialization(&parse_destiontion_oss("{}")));
    assert!(is_serialization(&parse_destiontion_oss("not json")));
    let bad_flag = r#"{"oss_bucket":"b","oss_endpoint":"e","key_secret":"s","key_id":"i","destionation":"/d","override_existing":3}"#;
    assert!(is_serialization(&parse_destiontion_oss(bad_flag)));
    assert!(is_configuration(&parse_destiontion_oss("")));
}

#[test]
fn record_from_members() {
    let ms = vec![
        ("destionation".to_string(), JsonMember::Text("/d".into())),
        ("key_id".to_string(), JsonMember::Text("i".into())),
        ("key_secret".to_string(), JsonMember::Text("s".into())),
        ("oss_bucket".to_string(), JsonMember::Text("b".into())),
        ("oss_endpoint".to_string(), JsonMember::Text("e".into())),
        ("override_existing".to_string(), JsonMember::Null),
    ];
    let c = oss_config_from_members(&ms).unwrap();
    assert_eq!(c.oss_bucket, "b");
    assert_eq!(c.override_existing, None);
    let missing = vec![("oss_bucket".to_string(), JsonMember::Other)];
    assert!(is_serialization(&oss_config_from_members(&missing)));
}

#[test]
fn directory_plan_creates_parents_first() {
    let tree = vec![entry("/local/a.txt", false), entry("/local/sub", true), entry("/local/sub/b.txt", false)];
    let acts = plan_directory("/remote", "/local", &tree).unwrap();
    assert_eq!(acts.len(), 4);
    assert!(matches!(&acts[0], RemoteAction::MakeDir(d) if d == "/remote"));
    assert!(matches!(&acts[1], RemoteAction::Send { local, remote } if local == "/local/a.txt" && remote == "/remote/a.txt"));
    assert!(matches!(&acts[2], RemoteAction::MakeDir(d) if d == "/remote/sub"));
    assert!(matches!(&acts[3], RemoteAction::Send { local, remote } if local == "/local/sub/b.txt" && remote == "/remote/sub/b.txt"));
    assert!(is_configuration(&plan_directory("/remote", "/local", &vec![entry("/other/x", false)])));
}

#[test]
fn single_file_remote_path() {
    assert_eq!(effective_remote_path("/dest/", "/local/a.txt"), "/dest/a.txt");
    assert_eq!(effective_remote_path("/dest/file.bin", "/local/a.txt"), "/dest/file.bin");
    let acts = plan_stream_transfer("/dest/", "/local/a.txt", SourceKind::File, &vec![]).unwrap();
    assert!(matches!(&acts[0], RemoteAction::Send { remote, .. } if remote == "/dest/a.txt"));
    assert!(is_configuration(&plan_stream_transfer("/dest/", "/x", SourceKind::Missing, &vec![])));
}

#[test]
fn path_helpers() {
    assert_eq!(base_name_of("/local/a.txt"), "a.txt");
    assert_eq!(base_name_of("a.txt"), "a.txt");
    assert_eq!(remote_path_of("/d", "sub\\b.txt"), "/d/sub/b.txt");
    assert_eq!(remote_path_of("", "a"), "a");
    assert_eq!(remote_path_of("/d/", "a"), "/d/a");
    assert_eq!(relative_path("src", "src/a/b.rs"), Some("a/b.rs".to_string()));
    assert_eq!(relative_path("src/", "src/a"), Some("a".to_string()));
    assert_eq!(relative_path("src", "srcx/a"), None);
    assert_eq!(relative_path("src", "src"), Some(String::new()));
}

#[test]
fn command_list_skips_and_decodes() {
    let cmds = vec!["".to_string(), "echo hi".to_string(), "ZWNobyBieWU=".to_string()];
    assert_eq!(plan_commands(&cmds), vec!["bash -c echo hi".to_string(), "bash -c echo bye".to_string()]);
}

#[test]
fn command_quoting() {
    assert_eq!(quote_command("echo \"a b\""), "\"echo \\\"a b\\\"\"");
    assert_eq!(quote_command("a\\b"), "\"a\\\\b\"");
    assert_eq!(quote_command("ls -l"), "ls -l");
    assert_eq!(shell_invocation("say \"x\""), "bash -c \"say \\\"x\\\"\"");
}

#[test]
fn progress_is_throttled_and_bounded() {
    let mut m = ProgressMeter::new(1000, 0);
    assert!(m.record(400, 500).is_none());
    let s = m.record(400, 1000).unwrap();
    assert_eq!(s.bytes_transferred, 800);
    assert_eq!(s.percent, 80);
    assert_eq!(s.bytes_per_sec, 800);
    assert!(m.record(100, 1999).is_none());
    let s = m.record(100, 2000).unwrap();
    assert_eq!(s.percent, 100);
    let f = m.finish(2001);
    assert_eq!(f.bytes_transferred, 1000);
    assert_eq!(f.percent, 100);
    assert_eq!(ProgressMeter::new(0, 0).finish(0).percent, 100);
}

#[test]
fn backend_selection() {
    assert!(matches!(select_backend("u:p@h:/p", RECORD), Ok(Backend::Stream(_))));
    assert!(matches!(select_backend("", RECORD), Ok(Backend::ObjectStorage(_))));
    assert!(is_configuration(&select_backend("", "{}")));
}

#[test]
fn error_description() {
    let e = TransferError::Io("disk".to_string());
    assert_eq!(e.describe(), "io error: disk");
}

#[test]
fn oss_single_file_key_follows_remote_name_rule() {
    let ups = plan_oss_transfer("/dest/", "/local/a.txt", SourceKind::File, &vec![]).unwrap();
    assert_eq!(ups.len(), 1);
    assert_eq!(ups[0].key, "/dest/a.txt");
    assert_eq!(ups[0].local, "/local/a.txt");
    let ups = plan_oss_transfer("/dest/file.bin", "/local/a.txt", SourceKind::File, &vec![]).unwrap();
    assert_eq!(ups.len(), 1);
    assert_eq!(ups[0].key, "/dest/file.bin");
    assert!(is_configuration(&plan_oss_transfer("/dest/", "/x", SourceKind::Missing, &vec![])));
}

#[test]
fn oss_directory_keys() {
    let tree = vec![entry("src/a.txt", false), entry("src/sub", true), entry("src/sub/b.txt", false)];
    let ups = plan_oss_transfer("/test", "src", SourceKind::Directory, &tree).unwrap();
    assert_eq!(ups.len(), 2);
    assert_eq!((ups[0].key.as_str(), ups[0].local.as_str()), ("/test/a.txt", "src/a.txt"));
    assert_eq!((ups[1].key.as_str(), ups[1].local.as_str()), ("/test/sub/b.txt", "src/sub/b.txt"));
}

#[test]
fn error_description_each_kind() {
    assert_eq!(TransferError::Configuration("x".into()).describe(), "configuration error: x");
    assert_eq!(TransferError::Serialization("x".into()).describe(), "serialization error: x");
    assert_eq!(TransferError::Transport("x".into()).describe(), "transport error: x");
    assert_eq!(TransferError::ObjectStorage("x".into()).describe(), "object storage error: x");
}
