use std::collections::BTreeSet;

use conversation_catalog::backend::{
    get_conversations_dir, resolve_backend_root, Backend, TreeKind,
};
use conversation_catalog::conversation::{
    get_claude_conversation_meta, get_codex_conversation_meta, has_log_extension,
    list_claude_conversations, list_codex_conversations, parse_claude_message,
    parse_codex_message, read_claude_message, read_codex_message, record_matches,
    search_conversations, search_scope, selects_nothing, session_of_claude_entry,
    session_of_codex_entry,
    ConversationMeta, DayFolder, FileEntry, Folder, LogFile, MonthFolder, ProjectFolder,
    SearchScope, Tree, YearFolder,
};
use conversation_catalog::error::CatalogError;
use conversation_catalog::listing::Listing;
use conversation_catalog::recency::sort_by_recency;
use conversation_catalog::reclaim::{
    can_reclaim, can_remove, cleanup_empty_directories, delete_conversation, is_root,
    is_root_name, ReclaimAction, ReclaimEvent,
};

const PROJECT_TAG: &str = "assistant";
const SESSION_TAG: &str = "codex";

/// A first line of a log of the per-project backend that names `session`.
fn project_line(session: &str) -> String {
    format!(
        "{{\"uuid\":\"u-1\",\"parentUuid\":null,\"sessionId\":\"{}\",\"type\":\"user\",\
         \"timestamp\":\"2024-01-01T00:00:00Z\",\"message\":{{\"role\":\"user\"}}}}",
        session
    )
}

fn log(path: &str, modified: Option<i64>, content: &str) -> LogFile {
    LogFile {
        path: path.to_string(),
        size: content.len() as u64,
        modified,
        created: Some(5),
        content: content.to_string(),
    }
}

fn entry(name: &str, file: Option<LogFile>) -> Option<FileEntry> {
    Some(FileEntry { name: name.to_string(), file })
}

fn folder<T>(name: &str, entries: Vec<Option<T>>) -> Option<Folder<T>> {
    Some(Folder { name: name.to_string(), is_dir: true, listing: Listing::Entries(entries) })
}

fn project_record(dir: &str, id: &str, modified: i64) -> Option<FileEntry> {
    let name = format!("{}.jsonl", id);
    let path = format!("/r/projects/{}/{}", dir, name);
    entry(&name, Some(log(&path, Some(modified), &format!("{}\n", project_line("s")))))
}

fn dated_record(id: &str, modified: i64) -> Option<FileEntry> {
    let name = format!("{}.jsonl", id);
    let path = format!("/r/sessions/2024/01/02/{}", name);
    entry(&name, Some(log(&path, Some(modified), "{}\n")))
}

fn project_tree(root: Listing<ProjectFolder>) -> Tree<ProjectFolder> {
    Tree { tag: PROJECT_TAG.to_string(), root }
}

fn session_tree(root: Listing<YearFolder>) -> Tree<YearFolder> {
    Tree { tag: SESSION_TAG.to_string(), root }
}

fn dated(days: Vec<Option<DayFolder>>) -> Listing<YearFolder> {
    let month: Option<MonthFolder> = folder("01", days);
    Listing::Entries(vec![folder("2024", vec![month])])
}

fn ids(list: &[ConversationMeta]) -> Vec<String> {
    list.iter().map(|m| m.id.clone()).collect()
}

#[test]
fn log_extension_is_recognised() {
    assert!(has_log_extension("abc.jsonl"));
    assert!(has_log_extension("a.b.jsonl"));
    assert!(!has_log_extension("abc.json"));
    assert!(!has_log_extension(".jsonl"));
    assert!(!has_log_extension("jsonl"));
    assert!(!has_log_extension("abc.jsonl.bak"));
    assert!(!has_log_extension("abc.JSONL"));
}

#[test]
fn record_of_a_project_log() {
    let content = format!("{}\n{{}}\n{{}}", project_line("S1"));
    let file = log("/r/projects/proj-x/abc123.jsonl", Some(1700000000), &content);
    let meta = get_claude_conversation_meta(PROJECT_TAG, "abc123.jsonl", &file, "proj-x");
    assert_eq!(
        meta,
        ConversationMeta {
            id: "abc123".to_string(),
            app_type: PROJECT_TAG.to_string(),
            file_path: "/r/projects/proj-x/abc123.jsonl".to_string(),
            file_size: content.len() as u64,
            created_at: Some(5),
            modified_at: 1700000000,
            message_count: 3,
            project_name: Some("proj-x".to_string()),
            session_id: Some("S1".to_string()),
        }
    );
}

#[test]
fn record_of_a_dated_log() {
    let content = "{\"type\":\"session_meta\",\"payload\":{\"id\":\"S2\"}}\nb\n";
    let file = LogFile {
        path: "/r/sessions/2024/01/02/xyz.jsonl".to_string(),
        size: 4,
        modified: None,
        created: Some(5),
        content: content.to_string(),
    };
    let meta = get_codex_conversation_meta(SESSION_TAG, "xyz.jsonl", &file);
    assert_eq!(
        meta,
        ConversationMeta {
            id: "xyz".to_string(),
            app_type: SESSION_TAG.to_string(),
            file_path: "/r/sessions/2024/01/02/xyz.jsonl".to_string(),
            file_size: 4,
            created_at: Some(5),
            modified_at: 0,
            message_count: 2,
            project_name: None,
            session_id: Some("S2".to_string()),
        }
    );
}

#[test]
fn unknown_times_are_tolerated() {
    let file = LogFile {
        path: "/s/a.jsonl".to_string(),
        size: 0,
        modified: None,
        created: None,
        content: String::new(),
    };
    let meta = get_codex_conversation_meta(SESSION_TAG, "a.jsonl", &file);
    assert_eq!(meta.modified_at, 0);
    assert_eq!(meta.created_at, None);
    assert_eq!(meta.message_count, 0);
    assert_eq!(meta.session_id, None);
    let early = log("/s/b.jsonl", Some(-3), "x");
    assert_eq!(get_codex_conversation_meta(SESSION_TAG, "b.jsonl", &early).modified_at, -3);
}

fn project_session(content: &str) -> Option<String> {
    let file = log("/p/a.jsonl", Some(1), content);
    get_claude_conversation_meta(PROJECT_TAG, "a.jsonl", &file, "p").session_id
}

fn dated_session(content: &str) -> Option<String> {
    let file = log("/s/a.jsonl", Some(1), content);
    get_codex_conversation_meta(SESSION_TAG, "a.jsonl", &file).session_id
}

#[test]
fn session_of_a_project_log_is_that_of_its_first_entry() {
    assert_eq!(project_session(&project_line("S1")), Some("S1".to_string()));
    assert_eq!(
        project_session(&format!("{}\r\n{}\n", project_line("S1"), project_line("other"))),
        Some("S1".to_string())
    );
    assert_eq!(
        project_session(
            "{\"sessionId\":\"S1\",\"uuid\":\"u\",\"type\":\"assistant\",\"timestamp\":\"t\",\
             \"message\":null,\"parentUuid\":\"p\",\"extra\":[1,2]}"
        ),
        Some("S1".to_string())
    );
}

#[test]
fn a_first_line_that_is_no_entry_gives_no_session() {
    assert_eq!(project_session(""), None);
    assert_eq!(project_session("not json"), None);
    assert_eq!(project_session(&format!("\n{}", project_line("S1"))), None);
    assert_eq!(project_session(&format!("not json\n{}", project_line("S1"))), None);
    assert_eq!(project_session("{\"sessionId\":\"S1\"}"), None);
    assert_eq!(project_session("[\"sessionId\",\"S1\"]"), None);
    assert_eq!(project_session("\"S1\""), None);
    assert_eq!(dated_session(""), None);
    assert_eq!(dated_session("not json"), None);
    assert_eq!(dated_session("{\"type\":\"session_meta\",\"payload\":{\"id\":\"S2\"}"), None);
}

#[test]
fn entries_of_a_project_log() {
    let entry = parse_claude_message(&project_line("S1")).unwrap();
    assert_eq!(entry.uuid, "u-1");
    assert_eq!(entry.parent_uuid, None);
    assert_eq!(entry.session_id, "S1");
    assert_eq!(entry.msg_type, "user");
    assert_eq!(entry.timestamp, "2024-01-01T00:00:00Z");
    assert_eq!(entry.message["role"].as_str(), Some("user"));
    assert_eq!(session_of_claude_entry(&Some(entry)), Some("S1".to_string()));
    assert_eq!(session_of_claude_entry(&None), None);
    let full = "{\"uuid\":\"u\",\"parentUuid\":\"p\",\"sessionId\":\"s\",\"type\":\"t\",\
                \"timestamp\":\"ts\",\"message\":7}";
    assert_eq!(parse_claude_message(full).unwrap().parent_uuid, Some("p".to_string()));
    let without_parent =
        "{\"uuid\":\"u\",\"sessionId\":\"s\",\"type\":\"t\",\"timestamp\":\"ts\",\"message\":7}";
    assert_eq!(parse_claude_message(without_parent).unwrap().parent_uuid, None);
    for broken in [
        "{\"parentUuid\":null,\"sessionId\":\"s\",\"type\":\"t\",\"timestamp\":\"ts\",\"message\":7}",
        "{\"uuid\":\"u\",\"type\":\"t\",\"timestamp\":\"ts\",\"message\":7}",
        "{\"uuid\":\"u\",\"sessionId\":\"s\",\"timestamp\":\"ts\",\"message\":7}",
        "{\"uuid\":\"u\",\"sessionId\":\"s\",\"type\":\"t\",\"message\":7}",
        "{\"uuid\":\"u\",\"sessionId\":\"s\",\"type\":\"t\",\"timestamp\":\"ts\"}",
        "{\"uuid\":1,\"sessionId\":\"s\",\"type\":\"t\",\"timestamp\":\"ts\",\"message\":7}",
        "{\"uuid\":\"u\",\"sessionId\":null,\"type\":\"t\",\"timestamp\":\"ts\",\"message\":7}",
        "{\"uuid\":\"u\",\"parentUuid\":3,\"sessionId\":\"s\",\"type\":\"t\",\"timestamp\":\"ts\",\
          \"message\":7}",
        "{\"uuid\":\"u\",\"sessionId\":\"s\",\"type\":\"t\",\"timestamp\":\"ts\",\"message\":7} x",
        "",
    ] {
        assert!(parse_claude_message(broken).is_none(), "{}", broken);
    }
}

#[test]
fn entries_of_a_dated_log() {
    let entry = parse_codex_message(
        "{\"timestamp\":\"ts\",\"type\":\"session_meta\",\"payload\":{\"id\":\"S2\",\"cwd\":\"/x\"}}",
    )
    .unwrap();
    assert_eq!(entry.timestamp, "ts");
    assert_eq!(entry.msg_type, "session_meta");
    assert_eq!(entry.payload["cwd"].as_str(), Some("/x"));
    assert_eq!(session_of_codex_entry(&Some(entry)), Some("S2".to_string()));
    let bare = parse_codex_message("{\"type\":\"session_meta\",\"payload\":{\"id\":\"S2\"}}").unwrap();
    assert_eq!(bare.timestamp, "");
    assert_eq!(session_of_codex_entry(&Some(bare)), Some("S2".to_string()));
    for broken in [
        "{\"timestamp\":\"ts\",\"payload\":{}}",
        "{\"timestamp\":\"ts\",\"type\":\"session_meta\"}",
        "{\"timestamp\":\"ts\",\"type\":5,\"payload\":{}}",
        "{\"timestamp\":5,\"type\":\"session_meta\",\"payload\":{}}",
        "{\"timestamp\":null,\"type\":\"session_meta\",\"payload\":{}}",
        "[]",
        "null",
        "{",
    ] {
        assert!(parse_codex_message(broken).is_none(), "{}", broken);
    }
}

#[test]
fn entries_are_read_from_json_values() {
    let value = |text: &str| serde_json::from_str::<serde_json::Value>(text).unwrap();
    let entry = read_claude_message(&value(&project_line("S9"))).unwrap();
    assert_eq!(entry.session_id, "S9");
    assert!(read_claude_message(&value("{\"sessionId\":\"S9\"}")).is_none());
    assert!(read_claude_message(&value("[1,2]")).is_none());
    let entry = read_codex_message(&value("{\"type\":\"x\",\"payload\":null}")).unwrap();
    assert_eq!(entry.msg_type, "x");
    assert!(entry.payload.is_null());
    assert!(read_codex_message(&value("{\"type\":\"x\"}")).is_none());
    assert!(read_codex_message(&value("7")).is_none());
}

#[test]
fn directories_that_may_be_reclaimed() {
    assert!(can_reclaim("/r/projects/proj-x"));
    assert!(can_reclaim("/r/sessions/2024"));
    assert!(can_reclaim("/my-projects"));
    assert!(can_reclaim("rel"));
    assert!(!can_reclaim("/r/projects"));
    assert!(!can_reclaim("/r/sessions/"));
    assert!(!can_reclaim("sessions"));
    assert!(!can_reclaim("/"));
    assert!(!can_reclaim(""));
    assert!(!can_reclaim("/a/.."));
}

#[test]
fn names_of_the_roots() {
    assert!(is_root_name("projects"));
    assert!(is_root_name("sessions"));
    assert!(!is_root_name("Projects"));
    assert!(!is_root_name("my-projects"));
    assert!(!is_root_name(""));
}

#[test]
fn session_of_a_dated_log_needs_the_marker_and_a_text() {
    let line = |msg_type: &str, payload: &str| {
        format!("{{\"timestamp\":\"t\",\"type\":\"{}\",\"payload\":{}}}\nrest", msg_type, payload)
    };
    assert_eq!(dated_session(&line("session_meta", "{\"id\":\"S2\"}")), Some("S2".to_string()));
    assert_eq!(dated_session(&line("message", "{\"id\":\"S2\"}")), None);
    assert_eq!(dated_session(&line("SESSION_META", "{\"id\":\"S2\"}")), None);
    assert_eq!(dated_session(&line("session_meta", "{\"id\":7}")), None);
    assert_eq!(dated_session(&line("session_meta", "{\"id\":null}")), None);
    assert_eq!(dated_session(&line("session_meta", "{\"other\":\"S2\"}")), None);
    assert_eq!(dated_session(&line("session_meta", "[\"id\"]")), None);
    assert_eq!(dated_session(&line("session_meta", "\"id\"")), None);
    assert_eq!(dated_session(&line("session_meta", "null")), None);
    assert_eq!(session_of_codex_entry(&None), None);
}

#[test]
fn missing_or_empty_root_gives_no_records() {
    assert_eq!(list_claude_conversations(&project_tree(Listing::Missing)), Ok(vec![]));
    assert_eq!(list_claude_conversations(&project_tree(Listing::Entries(vec![]))), Ok(vec![]));
    assert_eq!(list_codex_conversations(&session_tree(Listing::Missing)), Ok(vec![]));
    assert_eq!(list_codex_conversations(&session_tree(Listing::Entries(vec![]))), Ok(vec![]));
}

#[test]
fn unreadable_root_is_a_failure() {
    assert_eq!(
        list_claude_conversations(&project_tree(Listing::Unreadable)),
        Err(CatalogError::Io)
    );
    assert_eq!(list_codex_conversations(&session_tree(Listing::Unreadable)), Err(CatalogError::Io));
}

#[test]
fn project_logs_are_listed_newest_first() {
    let root = Listing::Entries(vec![
        folder("proj-x", vec![project_record("proj-x", "old", 10), project_record("proj-x", "new", 30)]),
        folder("proj-y", vec![project_record("proj-y", "mid", 20)]),
    ]);
    let list = list_claude_conversations(&project_tree(root)).unwrap();
    assert_eq!(ids(&list), vec!["new", "mid", "old"]);
    assert_eq!(list[0].project_name, Some("proj-x".to_string()));
    assert_eq!(list[1].project_name, Some("proj-y".to_string()));
    assert_eq!(list[1].app_type, PROJECT_TAG);
    assert!(list.windows(2).all(|w| w[0].modified_at >= w[1].modified_at));
}

#[test]
fn records_of_the_same_time_keep_their_order() {
    let root = Listing::Entries(vec![folder(
        "p",
        vec![
            project_record("p", "a", 5),
            project_record("p", "b", 9),
            project_record("p", "c", 5),
            project_record("p", "d", 9),
            project_record("p", "e", 5),
        ],
    )]);
    let list = list_claude_conversations(&project_tree(root)).unwrap();
    assert_eq!(ids(&list), vec!["b", "d", "a", "c", "e"]);
}

#[test]
fn project_scan_passes_over_what_is_no_log() {
    let unread = entry("broken.jsonl", None);
    let not_a_dir: Option<ProjectFolder> = Some(Folder {
        name: "file.jsonl".to_string(),
        is_dir: false,
        listing: Listing::Entries(vec![project_record("x", "in-file", 99)]),
    });
    let unreadable_dir: Option<ProjectFolder> =
        Some(Folder { name: "locked".to_string(), is_dir: true, listing: Listing::Unreadable });
    let root = Listing::Entries(vec![
        folder(".timelines", vec![project_record(".timelines", "hidden", 50)]),
        None,
        not_a_dir,
        unreadable_dir,
        folder(
            "proj",
            vec![
                None,
                unread,
                entry("notes.txt", Some(log("/r/projects/proj/notes.txt", Some(70), "x"))),
                project_record("proj", "kept", 1),
            ],
        ),
    ]);
    let list = list_claude_conversations(&project_tree(root)).unwrap();
    assert_eq!(ids(&list), vec!["kept"]);
}

#[test]
fn dated_logs_are_found_three_directories_deep() {
    let day_one: Option<DayFolder> = folder("02", vec![dated_record("a", 10), dated_record("b", 40)]);
    let day_two: Option<DayFolder> = folder("03", vec![dated_record("c", 20)]);
    let january: Option<MonthFolder> = folder("01", vec![day_one, day_two]);
    let march: Option<MonthFolder> = folder("03", vec![folder("09", vec![dated_record("d", 30)])]);
    let root = Listing::Entries(vec![folder("2024", vec![january]), folder("2025", vec![march])]);
    let list = list_codex_conversations(&session_tree(root)).unwrap();
    assert_eq!(ids(&list), vec!["b", "d", "c", "a"]);
    assert!(list.iter().all(|m| m.project_name.is_none() && m.app_type == SESSION_TAG));
}

#[test]
fn dated_scan_passes_over_what_is_no_directory() {
    let stray_day: Option<DayFolder> = Some(Folder {
        name: "readme".to_string(),
        is_dir: false,
        listing: Listing::Entries(vec![dated_record("in-file", 1)]),
    });
    let locked_day: Option<DayFolder> =
        Some(Folder { name: "04".to_string(), is_dir: true, listing: Listing::Unreadable });
    let good_day: Option<DayFolder> = folder(
        "02",
        vec![dated_record("kept", 3), entry("skip.txt", Some(log("/x", Some(9), ""))), None],
    );
    let stray_month: Option<MonthFolder> =
        Some(Folder { name: "x".to_string(), is_dir: false, listing: Listing::Missing });
    let month: Option<MonthFolder> = folder("01", vec![stray_day, locked_day, None, good_day]);
    let stray_year: Option<YearFolder> =
        Some(Folder { name: "y".to_string(), is_dir: false, listing: Listing::Missing });
    let root = Listing::Entries(vec![stray_year, None, folder("2024", vec![stray_month, month])]);
    let list = list_codex_conversations(&session_tree(root)).unwrap();
    assert_eq!(ids(&list), vec!["kept"]);
}

#[test]
fn sorting_orders_by_time_of_change() {
    let meta = |id: &str, modified_at: i64| ConversationMeta {
        id: id.to_string(),
        app_type: SESSION_TAG.to_string(),
        file_path: String::new(),
        file_size: 0,
        created_at: None,
        modified_at,
        message_count: 0,
        project_name: None,
        session_id: None,
    };
    let sorted = sort_by_recency(vec![meta("a", -1), meta("b", 7), meta("c", 0), meta("d", 7)]);
    assert_eq!(ids(&sorted), vec!["b", "d", "c", "a"]);
    assert_eq!(sort_by_recency(vec![]), vec![]);
}

fn two_projects() -> Tree<ProjectFolder> {
    project_tree(Listing::Entries(vec![
        folder("proj-x", vec![project_record("proj-x", "abc123", 10)]),
        folder("proj-y", vec![project_record("proj-y", "xyz789", 20)]),
    ]))
}

#[test]
fn search_finds_by_identifier_whatever_the_case() {
    let none = session_tree(Listing::Missing);
    for keyword in ["ABC", "abc", "aBc"] {
        let found = search_conversations(None, keyword, &two_projects(), &none).unwrap();
        assert_eq!(ids(&found), vec!["abc123"], "{}", keyword);
    }
    let all = search_conversations(None, "", &two_projects(), &none).unwrap();
    assert_eq!(ids(&all), vec!["xyz789", "abc123"]);
}

#[test]
fn keywords_of_one_lower_case_form_find_the_same() {
    let sessions = session_tree(dated(vec![folder(
        "02",
        vec![dated_record("Straße-1", 3), dated_record("ΑΣ", 2), dated_record("plain", 1)],
    )]));
    for (first, second) in [("STRASSE", "strasse"), ("ΑΣ", "ας"), ("PLAIN", "pLaIn"), ("", "")] {
        assert_eq!(first.to_lowercase(), second.to_lowercase());
        assert_eq!(
            search_conversations(None, first, &two_projects(), &sessions),
            search_conversations(None, second, &two_projects(), &sessions),
            "{} {}",
            first,
            second
        );
    }
    let found = search_conversations(None, "ΑΣ", &two_projects(), &sessions).unwrap();
    assert_eq!(ids(&found), vec!["ΑΣ"]);
}

#[test]
fn only_the_empty_keyword_keeps_all() {
    assert!(selects_nothing(""));
    assert!(!selects_nothing(" "));
    assert!(!selects_nothing("a"));
    assert!(!selects_nothing("A"));
    assert!(!selects_nothing("\u{0}"));
}

#[test]
fn search_looks_at_project_name_and_session() {
    let none = session_tree(Listing::Missing);
    let by_project = search_conversations(None, "PROJ-Y", &two_projects(), &none).unwrap();
    assert_eq!(ids(&by_project), vec!["xyz789"]);
    let day: Option<DayFolder> = folder(
        "02",
        vec![
            entry(
                "one.jsonl",
                Some(log(
                    "/r/sessions/2024/01/02/one.jsonl",
                    Some(1),
                    "{\"type\":\"session_meta\",\"payload\":{\"id\":\"Sess-42\"}}\n{}\n",
                )),
            ),
            dated_record("two", 2),
        ],
    );
    let sessions = session_tree(dated(vec![day]));
    let by_session =
        search_conversations(None, "sess-4", &project_tree(Listing::Missing), &sessions).unwrap();
    assert_eq!(ids(&by_session), vec!["one"]);
    let nothing = search_conversations(None, "absent", &two_projects(), &sessions).unwrap();
    assert_eq!(ids(&nothing), Vec::<String>::new());
}

#[test]
fn search_scope_follows_the_filter() {
    assert_eq!(
        search_scope(&Some(PROJECT_TAG.to_string()), PROJECT_TAG, SESSION_TAG),
        SearchScope::Projects
    );
    assert_eq!(
        search_scope(&Some(SESSION_TAG.to_string()), PROJECT_TAG, SESSION_TAG),
        SearchScope::Sessions
    );
    assert_eq!(search_scope(&Some("other".to_string()), PROJECT_TAG, SESSION_TAG), SearchScope::Both);
    assert_eq!(search_scope(&None, PROJECT_TAG, SESSION_TAG), SearchScope::Both);
}

#[test]
fn search_joins_both_trees_without_sorting_again() {
    let sessions = session_tree(dated(vec![folder(
        "02",
        vec![dated_record("s-new", 100), dated_record("s-old", 1)],
    )]));
    let both = search_conversations(None, "", &two_projects(), &sessions).unwrap();
    assert_eq!(ids(&both), vec!["xyz789", "abc123", "s-new", "s-old"]);
    let only_projects =
        search_conversations(Some(PROJECT_TAG.to_string()), "", &two_projects(), &sessions).unwrap();
    assert_eq!(ids(&only_projects), vec!["xyz789", "abc123"]);
    let only_sessions =
        search_conversations(Some(SESSION_TAG.to_string()), "", &two_projects(), &sessions).unwrap();
    assert_eq!(ids(&only_sessions), vec!["s-new", "s-old"]);
    let unknown_filter =
        search_conversations(Some("other".to_string()), "s-", &two_projects(), &sessions).unwrap();
    assert_eq!(ids(&unknown_filter), vec!["s-new", "s-old"]);
}

#[test]
fn search_fails_only_for_a_tree_it_looks_at() {
    let broken = session_tree(Listing::Unreadable);
    assert_eq!(search_conversations(None, "", &two_projects(), &broken), Err(CatalogError::Io));
    assert_eq!(
        search_conversations(Some(SESSION_TAG.to_string()), "", &two_projects(), &broken),
        Err(CatalogError::Io)
    );
    let found =
        search_conversations(Some(PROJECT_TAG.to_string()), "abc", &two_projects(), &broken).unwrap();
    assert_eq!(ids(&found), vec!["abc123"]);
}

#[test]
fn a_record_matches_in_any_of_three_fields() {
    let meta = ConversationMeta {
        id: "Alpha".to_string(),
        app_type: SESSION_TAG.to_string(),
        file_path: "/zzz/needle".to_string(),
        file_size: 0,
        created_at: None,
        modified_at: 0,
        message_count: 0,
        project_name: Some("Beta".to_string()),
        session_id: Some("Gamma".to_string()),
    };
    assert!(record_matches(&meta, "LPH"));
    assert!(record_matches(&meta, "bet"));
    assert!(record_matches(&meta, "GAMMA"));
    assert!(!record_matches(&meta, "needle"));
    assert!(!record_matches(&meta, "codex"));
}

/// The roots of the two trees of the disks below.
fn roots() -> Vec<String> {
    vec!["/r/projects".to_string(), "/r/sessions".to_string()]
}

/// A file system in memory: the paths of its directories and files.
#[derive(Debug, Clone, PartialEq, Eq, Default)]
struct Disk {
    dirs: BTreeSet<String>,
    files: BTreeSet<String>,
    /// Directories that cannot be listed.
    unlistable: BTreeSet<String>,
    /// Directories that cannot be removed.
    pinned: BTreeSet<String>,
}

impl Disk {
    /// A disk with these files and every directory above them.
    fn with_files(files: &[&str]) -> Disk {
        let mut disk = Disk::default();
        for file in files {
            disk.files.insert(file.to_string());
            let mut dir = std::path::Path::new(file).parent();
            while let Some(d) = dir {
                disk.dirs.insert(d.to_string_lossy().into_owned());
                dir = d.parent();
            }
        }
        disk
    }

    fn entries(&self, dir: &str) -> usize {
        let inside = |p: &&String| {
            std::path::Path::new(p.as_str()).parent().map(|d| d.to_string_lossy() == dir)
                == Some(true)
        };
        self.dirs.iter().filter(inside).count() + self.files.iter().filter(inside).count()
    }

    /// Deletes a log as the library directs.
    fn delete(&mut self, path: &str) -> Result<(), CatalogError> {
        let roots = roots();
        let mut action = delete_conversation(path, self.files.contains(path), &roots)?;
        self.files.remove(path);
        loop {
            action = match action {
                ReclaimAction::Stop => return Ok(()),
                ReclaimAction::Inspect(dir) => {
                    assert!(!roots.contains(&dir), "{} is a root", dir);
                    let event = if self.unlistable.contains(&dir) || !self.dirs.contains(&dir) {
                        ReclaimEvent::Unlistable
                    } else {
                        ReclaimEvent::Listed(self.entries(&dir))
                    };
                    cleanup_empty_directories(&dir, event, &roots)
                }
                ReclaimAction::Remove(dir) => {
                    assert_eq!(self.entries(&dir), 0, "{} is not empty", dir);
                    assert!(!roots.contains(&dir), "{} is a root", dir);
                    let event = if self.pinned.contains(&dir) {
                        ReclaimEvent::NotRemoved
                    } else {
                        self.dirs.remove(&dir);
                        ReclaimEvent::Removed
                    };
                    cleanup_empty_directories(&dir, event, &roots)
                }
            };
        }
    }

    fn left(&self) -> Vec<&str> {
        self.dirs.iter().map(|d| d.as_str()).collect()
    }
}

#[test]
fn deleting_what_is_not_there_fails() {
    assert_eq!(
        delete_conversation("/r/projects/proj-x/abc.jsonl", false, &roots()),
        Err(CatalogError::NotFound)
    );
}

#[test]
fn deleting_twice_fails_the_second_time_and_changes_nothing() {
    let mut disk = Disk::with_files(&["/r/projects/p/a.jsonl", "/r/projects/p/b.jsonl"]);
    assert_eq!(disk.delete("/r/projects/p/a.jsonl"), Ok(()));
    let after_first = disk.clone();
    assert_eq!(disk.delete("/r/projects/p/a.jsonl"), Err(CatalogError::NotFound));
    assert_eq!(disk, after_first);
    assert!(disk.dirs.contains("/r/projects/p"));
    assert!(disk.files.contains("/r/projects/p/b.jsonl"));
}

#[test]
fn deleting_the_last_log_of_a_project_removes_the_project_and_keeps_the_root() {
    let mut disk = Disk::with_files(&["/r/projects/p/a.jsonl", "/r/projects/p/b.jsonl"]);
    assert_eq!(disk.delete("/r/projects/p/a.jsonl"), Ok(()));
    assert!(disk.dirs.contains("/r/projects/p"));
    assert_eq!(disk.delete("/r/projects/p/b.jsonl"), Ok(()));
    assert_eq!(disk.left(), vec!["/", "/r", "/r/projects"]);
}

#[test]
fn a_project_is_removed_whatever_its_name() {
    for project in ["sessions", "projects", ".hidden", "p q", "é"] {
        let file = format!("/r/projects/{}/a.jsonl", project);
        let mut disk = Disk::with_files(&[&file]);
        assert_eq!(disk.delete(&file), Ok(()), "{}", project);
        assert_eq!(disk.left(), vec!["/", "/r", "/r/projects"], "{}", project);
    }
    let mut disk = Disk::with_files(&["/r/sessions/projects/a.jsonl"]);
    assert_eq!(disk.delete("/r/sessions/projects/a.jsonl"), Ok(()));
    assert_eq!(disk.left(), vec!["/", "/r", "/r/sessions"]);
}

#[test]
fn deleting_the_last_dated_log_removes_day_month_and_year_and_keeps_the_root() {
    let mut disk = Disk::with_files(&["/r/sessions/2024/01/02/a.jsonl"]);
    assert_eq!(disk.delete("/r/sessions/2024/01/02/a.jsonl"), Ok(()));
    assert_eq!(disk.left(), vec!["/", "/r", "/r/sessions"]);
}

#[test]
fn reclaiming_ends_at_a_directory_that_holds_something() {
    let mut disk =
        Disk::with_files(&["/r/sessions/2024/01/02/a.jsonl", "/r/sessions/2024/03/09/b.jsonl"]);
    assert_eq!(disk.delete("/r/sessions/2024/01/02/a.jsonl"), Ok(()));
    assert!(!disk.dirs.contains("/r/sessions/2024/01/02"));
    assert!(!disk.dirs.contains("/r/sessions/2024/01"));
    assert!(disk.dirs.contains("/r/sessions/2024"));
    assert!(disk.dirs.contains("/r/sessions/2024/03/09"));
}

#[test]
fn reclaiming_ends_silently_at_what_cannot_be_listed_or_removed() {
    let mut disk = Disk::with_files(&["/r/sessions/2024/01/02/a.jsonl"]);
    disk.pinned.insert("/r/sessions/2024/01".to_string());
    assert_eq!(disk.delete("/r/sessions/2024/01/02/a.jsonl"), Ok(()));
    assert!(!disk.dirs.contains("/r/sessions/2024/01/02"));
    assert!(disk.dirs.contains("/r/sessions/2024/01"));
    assert!(disk.dirs.contains("/r/sessions/2024"));

    let mut disk = Disk::with_files(&["/r/sessions/2024/01/02/a.jsonl"]);
    disk.unlistable.insert("/r/sessions/2024/01/02".to_string());
    assert_eq!(disk.delete("/r/sessions/2024/01/02/a.jsonl"), Ok(()));
    assert!(disk.dirs.contains("/r/sessions/2024/01/02"));
}

#[test]
fn reclaiming_goes_up_to_the_top_where_no_root_is_met() {
    let mut disk = Disk::with_files(&["/a/b/c.jsonl"]);
    assert_eq!(disk.delete("/a/b/c.jsonl"), Ok(()));
    assert_eq!(disk.left(), vec!["/"]);
    let mut disk = Disk::with_files(&["/my-projects/x/c.jsonl"]);
    assert_eq!(disk.delete("/my-projects/x/c.jsonl"), Ok(()));
    assert!(!disk.dirs.contains("/my-projects"));
}

#[test]
fn a_root_that_becomes_empty_stays() {
    for file in ["/r/projects/a.jsonl", "/r/sessions/a.jsonl"] {
        let mut disk = Disk::with_files(&[file]);
        let dirs_before = disk.dirs.clone();
        assert_eq!(disk.delete(file), Ok(()), "{}", file);
        assert!(disk.files.is_empty());
        assert_eq!(disk.dirs, dirs_before, "{}", file);
    }
}

#[test]
fn reclaiming_does_not_go_on_to_a_directory_named_like_a_root() {
    let mut disk = Disk::with_files(&["/r/sessions/2024/projects/02/a.jsonl"]);
    assert_eq!(disk.delete("/r/sessions/2024/projects/02/a.jsonl"), Ok(()));
    assert!(!disk.dirs.contains("/r/sessions/2024/projects/02"));
    assert!(disk.dirs.contains("/r/sessions/2024/projects"));
    assert!(disk.dirs.contains("/r/sessions/2024"));
    let mut disk = Disk::with_files(&["/elsewhere/sessions/x/a.jsonl"]);
    assert_eq!(disk.delete("/elsewhere/sessions/x/a.jsonl"), Ok(()));
    assert_eq!(disk.left(), vec!["/", "/elsewhere", "/elsewhere/sessions"]);
}

#[test]
fn roots_are_known_by_their_path() {
    let none: Vec<String> = vec![];
    assert!(is_root("/r/projects", &roots()));
    assert!(is_root("/r/sessions", &roots()));
    assert!(!is_root("/r/projects/sessions", &roots()));
    assert!(!is_root("/other/projects", &roots()));
    assert!(!is_root("/r/projects", &none));
    assert!(can_remove("/r/projects/sessions", &roots()));
    assert!(can_remove("/r/projects/p", &roots()));
    assert!(can_remove("/other/projects", &roots()));
    assert!(!can_remove("/r/projects", &roots()));
    assert!(!can_remove("/r/sessions", &roots()));
    assert!(!can_remove("/", &roots()));
    assert!(!can_remove("", &roots()));
    assert!(!can_remove("/r/projects/..", &roots()));
}

#[test]
fn resolved_roots_protect_their_directories() {
    let projects = backend(TreeKind::Projects, PROJECT_TAG, ".assistant");
    let root = resolve_backend_root(&projects, Some("/custom/"), None).unwrap();
    let roots = vec![root.clone()];
    let in_root = format!("{}/a.jsonl", root);
    assert_eq!(delete_conversation(&in_root, true, &roots), Ok(ReclaimAction::Stop));
    let project = format!("{}/projects", root);
    let in_project = format!("{}/a.jsonl", project);
    assert_eq!(
        delete_conversation(&in_project, true, &roots),
        Ok(ReclaimAction::Inspect(project.clone()))
    );
    assert_eq!(
        cleanup_empty_directories(&project, ReclaimEvent::Listed(0), &roots),
        ReclaimAction::Remove(project.clone())
    );
    assert_eq!(
        cleanup_empty_directories(&project, ReclaimEvent::Removed, &roots),
        ReclaimAction::Stop
    );
}

#[test]
fn first_action_after_a_deletion() {
    let inspect = |d: &str| Ok(ReclaimAction::Inspect(d.to_string()));
    assert_eq!(delete_conversation("/r/projects/proj-x/abc.jsonl", true, &roots()), inspect("/r/projects/proj-x"));
    assert_eq!(delete_conversation("/r/projects/sessions/abc.jsonl", true, &roots()), inspect("/r/projects/sessions"));
    assert_eq!(delete_conversation("/r/projects/abc.jsonl", true, &roots()), Ok(ReclaimAction::Stop));
    assert_eq!(delete_conversation("/r/sessions/abc.jsonl", true, &roots()), Ok(ReclaimAction::Stop));
    assert_eq!(delete_conversation("abc.jsonl", true, &roots()), Ok(ReclaimAction::Stop));
    assert_eq!(delete_conversation("/abc.jsonl", true, &roots()), Ok(ReclaimAction::Stop));
    assert_eq!(delete_conversation("", true, &roots()), Ok(ReclaimAction::Stop));
    assert_eq!(delete_conversation("/", true, &roots()), Ok(ReclaimAction::Stop));
}

#[test]
fn steps_of_reclaiming() {
    let step = |dir: &str, event: ReclaimEvent| cleanup_empty_directories(dir, event, &roots());
    let inspect = |d: &str| ReclaimAction::Inspect(d.to_string());
    let remove = |d: &str| ReclaimAction::Remove(d.to_string());
    assert_eq!(step("/a/b", ReclaimEvent::Unlistable), ReclaimAction::Stop);
    assert_eq!(step("/a/b", ReclaimEvent::Listed(1)), ReclaimAction::Stop);
    assert_eq!(step("/a/b", ReclaimEvent::Listed(0)), remove("/a/b"));
    assert_eq!(step("/r/projects/sessions", ReclaimEvent::Listed(0)), remove("/r/projects/sessions"));
    assert_eq!(step("/r/sessions/projects", ReclaimEvent::Listed(0)), remove("/r/sessions/projects"));
    assert_eq!(step("/a/b", ReclaimEvent::NotRemoved), ReclaimAction::Stop);
    assert_eq!(step("/a/b", ReclaimEvent::Removed), inspect("/a"));
    assert_eq!(step("/a", ReclaimEvent::Removed), ReclaimAction::Stop);
    assert_eq!(step("rel/x", ReclaimEvent::Removed), inspect("rel"));
    assert_eq!(step("rel", ReclaimEvent::Removed), ReclaimAction::Stop);
    assert_eq!(step("/r/projects/b", ReclaimEvent::Removed), ReclaimAction::Stop);
    assert_eq!(step("/r/sessions/b", ReclaimEvent::Removed), ReclaimAction::Stop);
    assert_eq!(step("/a/projects/b", ReclaimEvent::Removed), ReclaimAction::Stop);
    assert_eq!(step("/r/sessions/b/c", ReclaimEvent::Removed), inspect("/r/sessions/b"));
    assert_eq!(step("/a/../b", ReclaimEvent::Removed), ReclaimAction::Stop);
}

#[test]
fn no_step_of_reclaiming_touches_a_root_or_a_directory_without_a_name() {
    let events = [
        ReclaimEvent::Unlistable,
        ReclaimEvent::Listed(0),
        ReclaimEvent::Listed(3),
        ReclaimEvent::NotRemoved,
        ReclaimEvent::Removed,
    ];
    for dir in ["/r/projects", "/r/sessions", "/", "", "/a/..", ".."] {
        for event in events {
            assert_eq!(
                cleanup_empty_directories(dir, event, &roots()),
                ReclaimAction::Stop,
                "{}",
                dir
            );
        }
    }
}

fn backend(kind: TreeKind, tag: &str, home_part: &str) -> Backend {
    Backend { kind, tag: tag.to_string(), home_part: home_part.to_string() }
}

#[test]
fn root_lies_under_the_override_or_the_home_directory() {
    let projects = backend(TreeKind::Projects, PROJECT_TAG, ".assistant");
    let sessions = backend(TreeKind::Sessions, SESSION_TAG, ".codex");
    assert_eq!(
        resolve_backend_root(&projects, Some("/custom"), Some("/home/u")),
        Ok("/custom/projects".to_string())
    );
    assert_eq!(
        resolve_backend_root(&projects, None, Some("/home/u")),
        Ok("/home/u/.assistant/projects".to_string())
    );
    assert_eq!(
        resolve_backend_root(&sessions, Some("/custom"), None),
        Ok("/custom/sessions".to_string())
    );
    assert_eq!(
        resolve_backend_root(&sessions, None, Some("/home/u")),
        Ok("/home/u/.codex/sessions".to_string())
    );
}

#[test]
fn root_is_unknown_without_override_and_home() {
    let sessions = backend(TreeKind::Sessions, SESSION_TAG, ".codex");
    assert_eq!(resolve_backend_root(&sessions, None, None), Err(CatalogError::Environment));
}

#[test]
fn root_with_an_override_asks_for_no_home() {
    let sessions = backend(TreeKind::Sessions, SESSION_TAG, ".codex");
    assert_eq!(get_conversations_dir(&sessions, Some("/o")), Ok("/o/sessions".to_string()));
    match get_conversations_dir(&sessions, None) {
        Ok(path) => assert!(path.ends_with("sessions")),
        Err(e) => assert_eq!(e, CatalogError::Environment),
    }
}

#[test]
fn root_names_of_the_two_shapes() {
    assert_eq!(TreeKind::Projects.root_name(), "projects");
    assert_eq!(TreeKind::Sessions.root_name(), "sessions");
}
