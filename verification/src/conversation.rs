//! Conversation logs of two backends: what is known of one log, and how the
//! logs of a directory tree are found, ordered and searched.

use vstd::prelude::*;
use crate::error::{fails_with, CatalogError};
use crate::json::{
    as_text, clone_json, json_model, member, member_of, optional_text_at, optional_text_member,
    parse_json, parsed_json, text_at, text_member, Json,
};
use crate::listing::Listing;
use crate::paths::{extension_of, file_extension, file_stem, stem_of};
use crate::recency::{by_recency, law_ordering_permutes, newest_first, sort_by_recency};
use crate::text::{
    contains, count_lines, first_line, first_line_of, is_substring, line_count, lowercase_of,
    same_text, starts_with_char, text_view, to_lowercase,
};

verus! {

/// What is known of one conversation log.
#[derive(Clone, Debug, PartialEq, Eq)]
pub struct ConversationMeta {
    /// The file's name without its extension.
    pub id: String,
    /// The tag of the backend the log belongs to.
    pub app_type: String,
    pub file_path: String,
    pub file_size: u64,
    /// Seconds since the epoch, where the platform knows the time of creation.
    pub created_at: Option<i64>,
    /// Seconds since the epoch; 0 where the time is not known.
    pub modified_at: i64,
    /// The number of lines of the file.
    pub message_count: usize,
    /// The directory that holds the log, for the backend that keeps one
    /// directory per project.
    pub project_name: Option<String>,
    pub session_id: Option<String>,
}

/// A `ConversationMeta` with its texts as sequences of characters.
pub struct MetaView {
    pub id: Seq<char>,
    pub app_type: Seq<char>,
    pub file_path: Seq<char>,
    pub file_size: u64,
    pub created_at: Option<i64>,
    pub modified_at: i64,
    pub message_count: usize,
    pub project_name: Option<Seq<char>>,
    pub session_id: Option<Seq<char>>,
}

impl View for ConversationMeta {
    type V = MetaView;

    open spec fn view(&self) -> MetaView {
        MetaView {
            id: self.id@,
            app_type: self.app_type@,
            file_path: self.file_path@,
            file_size: self.file_size,
            created_at: self.created_at,
            modified_at: self.modified_at,
            message_count: self.message_count,
            project_name: text_view(self.project_name),
            session_id: text_view(self.session_id),
        }
    }
}

/// The views of a sequence of records.
pub open spec fn views(s: Seq<ConversationMeta>) -> Seq<MetaView> {
    s.map_values(|m: ConversationMeta| m@)
}

/// The first entry of a log of the per-project backend.
#[derive(Debug)]
pub struct ClaudeMessage {
    pub uuid: String,
    pub parent_uuid: Option<String>,
    pub session_id: String,
    /// `user` or `assistant`.
    pub msg_type: String,
    pub timestamp: String,
    pub message: serde_json::Value,
}

/// A `ClaudeMessage` as a model.
pub struct ClaudeEntry {
    pub uuid: Seq<char>,
    pub parent_uuid: Option<Seq<char>>,
    pub session_id: Seq<char>,
    pub msg_type: Seq<char>,
    pub timestamp: Seq<char>,
    pub message: Json,
}

impl View for ClaudeMessage {
    type V = ClaudeEntry;

    open spec fn view(&self) -> ClaudeEntry {
        ClaudeEntry {
            uuid: self.uuid@,
            parent_uuid: text_view(self.parent_uuid),
            session_id: self.session_id@,
            msg_type: self.msg_type@,
            timestamp: self.timestamp@,
            message: json_model(self.message),
        }
    }
}

/// The first entry of a log of the dated backend.
#[derive(Debug)]
pub struct CodexMessage {
    /// The time of the entry; empty where the entry gives none.
    pub timestamp: String,
    pub msg_type: String,
    pub payload: serde_json::Value,
}

/// A `CodexMessage` as a model.
pub struct CodexEntry {
    pub timestamp: Seq<char>,
    pub msg_type: Seq<char>,
    pub payload: Json,
}

impl View for CodexMessage {
    type V = CodexEntry;

    open spec fn view(&self) -> CodexEntry {
        CodexEntry {
            timestamp: self.timestamp@,
            msg_type: self.msg_type@,
            payload: json_model(self.payload),
        }
    }
}

/// What the file system gave for one log file that could be read.
#[derive(Clone, Debug, PartialEq, Eq)]
pub struct LogFile {
    pub path: String,
    pub size: u64,
    /// Seconds since the epoch, where the time of the last change is known.
    pub modified: Option<i64>,
    /// Seconds since the epoch, where the time of creation is known.
    pub created: Option<i64>,
    /// The text of the file: one JSON value per line.
    pub content: String,
}

/// An entry of a directory that is expected to hold log files.
#[derive(Clone, Debug, PartialEq, Eq)]
pub struct FileEntry {
    /// The entry's name within its directory.
    pub name: String,
    /// What was read of the file; `None` where it could not be read.
    pub file: Option<LogFile>,
}

/// An entry of a directory that is expected to hold directories.
#[derive(Debug)]
pub struct Folder<T> {
    /// The entry's name within its directory.
    pub name: String,
    pub is_dir: bool,
    /// What listing the entry gave, where it is a directory.
    pub listing: Listing<T>,
}

/// What was read of the tree of one backend.
#[derive(Debug)]
pub struct Tree<T> {
    /// The tag of the backend, which its records carry in `app_type`.
    pub tag: String,
    /// What listing the root of the tree gave.
    pub root: Listing<T>,
}

/// A project directory of the per-project backend.
pub type ProjectFolder = Folder<FileEntry>;

/// A day directory of the dated backend.
pub type DayFolder = Folder<FileEntry>;

/// A month directory of the dated backend.
pub type MonthFolder = Folder<DayFolder>;

/// A year directory of the dated backend.
pub type YearFolder = Folder<MonthFolder>;

/// The extension that marks a conversation log.
pub open spec fn is_log_name(name: Seq<char>) -> bool {
    extension_of(name) == Some("jsonl"@)
}

/// Whether a file of this name is a conversation log.
pub fn has_log_extension(name: &str) -> (r: bool)
    ensures
        r == is_log_name(name@),
{
    match file_extension(name) {
        Some(ext) => same_text(ext.as_str(), "jsonl"),
        None => false,
    }
}

/// The entry of a log of the per-project backend that a JSON value stands
/// for: the value is an object that holds texts under `uuid`, `sessionId`,
/// `type` and `timestamp`, something under `message`, and under
/// `parentUuid` a text, null or nothing. `None` for any other value.
pub open spec fn claude_entry_of(v: Json) -> Option<ClaudeEntry> {
    match (
        text_at(v, "uuid"@),
        optional_text_at(v, "parentUuid"@),
        text_at(v, "sessionId"@),
        text_at(v, "type"@),
        text_at(v, "timestamp"@),
        member_of(v, "message"@),
    ) {
        (
            Some(uuid),
            Some(parent_uuid),
            Some(session_id),
            Some(msg_type),
            Some(timestamp),
            Some(message),
        ) => Some(ClaudeEntry { uuid, parent_uuid, session_id, msg_type, timestamp, message }),
        _ => None,
    }
}

/// The text that `v` holds under `key`, or the empty text where it has no
/// such member; `None` where it has something else than a text there.
pub open spec fn text_or_empty_at(v: Json, key: Seq<char>) -> Option<Seq<char>> {
    match member_of(v, key) {
        None => Some(Seq::empty()),
        Some(Json::Text(t)) => Some(t),
        Some(_) => None,
    }
}

/// The entry of a log of the dated backend that a JSON value stands for:
/// the value is an object that holds a text under `type`, something under
/// `payload`, and under `timestamp` a text or nothing. `None` for any
/// other value.
pub open spec fn codex_entry_of(v: Json) -> Option<CodexEntry> {
    match (text_or_empty_at(v, "timestamp"@), text_at(v, "type"@), member_of(v, "payload"@)) {
        (Some(timestamp), Some(msg_type), Some(payload)) => Some(
            CodexEntry { timestamp, msg_type, payload },
        ),
        _ => None,
    }
}

/// The entry that a line of a log of the per-project backend is read as:
/// the one that the line stands for as JSON. `None` where the line is no
/// JSON or stands for no entry.
pub open spec fn claude_entry(line: Seq<char>) -> Option<ClaudeEntry> {
    match parsed_json(line) {
        Some(v) => claude_entry_of(v),
        None => None,
    }
}

/// The entry that a line of a log of the dated backend is read as: the one
/// that the line stands for as JSON. `None` where the line is no JSON or
/// stands for no entry.
pub open spec fn codex_entry(line: Seq<char>) -> Option<CodexEntry> {
    match parsed_json(line) {
        Some(v) => codex_entry_of(v),
        None => None,
    }
}

/// Reads a JSON value as an entry of a log of the per-project backend.
pub fn read_claude_message(v: &serde_json::Value) -> (r: Option<ClaudeMessage>)
    ensures
        r.is_some() == claude_entry_of(json_model(*v)).is_some(),
        r matches Some(m) ==> claude_entry_of(json_model(*v)) == Some(m@),
{
    let uuid = match text_member(v, "uuid") {
        Some(t) => t,
        None => {
            return None;
        },
    };
    let parent_uuid = match optional_text_member(v, "parentUuid") {
        Some(t) => t,
        None => {
            return None;
        },
    };
    let session_id = match text_member(v, "sessionId") {
        Some(t) => t,
        None => {
            return None;
        },
    };
    let msg_type = match text_member(v, "type") {
        Some(t) => t,
        None => {
            return None;
        },
    };
    let timestamp = match text_member(v, "timestamp") {
        Some(t) => t,
        None => {
            return None;
        },
    };
    let message = match member(v, "message") {
        Some(m) => clone_json(m),
        None => {
            return None;
        },
    };
    Some(ClaudeMessage { uuid, parent_uuid, session_id, msg_type, timestamp, message })
}

/// Reads a JSON value as an entry of a log of the dated backend.
pub fn read_codex_message(v: &serde_json::Value) -> (r: Option<CodexMessage>)
    ensures
        r.is_some() == codex_entry_of(json_model(*v)).is_some(),
        r matches Some(m) ==> codex_entry_of(json_model(*v)) == Some(m@),
{
    let timestamp = match member(v, "timestamp") {
        Some(m) => match as_text(m) {
            Some(t) => t.to_owned(),
            None => {
                return None;
            },
        },
        None => String::new(),
    };
    let msg_type = match text_member(v, "type") {
        Some(t) => t,
        None => {
            return None;
        },
    };
    let payload = match member(v, "payload") {
        Some(m) => clone_json(m),
        None => {
            return None;
        },
    };
    Some(CodexMessage { timestamp, msg_type, payload })
}

/// Reads a line of a log of the per-project backend as an entry.
pub fn parse_claude_message(line: &str) -> (r: Option<ClaudeMessage>)
    ensures
        r.is_some() == claude_entry(line@).is_some(),
        r matches Some(m) ==> claude_entry(line@) == Some(m@),
{
    match parse_json(line) {
        Ok(v) => read_claude_message(&v),
        Err(_) => None,
    }
}

/// Reads a line of a log of the dated backend as an entry.
pub fn parse_codex_message(line: &str) -> (r: Option<CodexMessage>)
    ensures
        r.is_some() == codex_entry(line@).is_some(),
        r matches Some(m) ==> codex_entry(line@) == Some(m@),
{
    match parse_json(line) {
        Ok(v) => read_codex_message(&v),
        Err(_) => None,
    }
}

/// The session that the first entry of a log of the per-project backend
/// names: the one of the entry.
pub open spec fn claude_entry_session(first: Option<ClaudeEntry>) -> Option<Seq<char>> {
    match first {
        Some(entry) => Some(entry.session_id),
        None => None,
    }
}

/// The session that the first entry of a log of the dated backend names:
/// the text under `id` of its payload, where the entry is of the type
/// `session_meta`.
pub open spec fn codex_entry_session(first: Option<CodexEntry>) -> Option<Seq<char>> {
    match first {
        Some(entry) => if entry.msg_type == "session_meta"@ {
            text_at(entry.payload, "id"@)
        } else {
            None
        },
        None => None,
    }
}

/// The first entry of a log of the per-project backend: its first line
/// read as an entry. `None` where the log is empty or the line is no
/// entry.
pub open spec fn first_claude_entry(content: Seq<char>) -> Option<ClaudeEntry> {
    match first_line_of(content) {
        Some(line) => claude_entry(line),
        None => None,
    }
}

/// The first entry of a log of the dated backend: its first line read as
/// an entry. `None` where the log is empty or the line is no entry.
pub open spec fn first_codex_entry(content: Seq<char>) -> Option<CodexEntry> {
    match first_line_of(content) {
        Some(line) => codex_entry(line),
        None => None,
    }
}

/// The session that a log of the per-project backend belongs to.
pub open spec fn claude_session(content: Seq<char>) -> Option<Seq<char>> {
    claude_entry_session(first_claude_entry(content))
}

/// The session that a log of the dated backend belongs to.
pub open spec fn codex_session(content: Seq<char>) -> Option<Seq<char>> {
    codex_entry_session(first_codex_entry(content))
}

/// The session that the first entry of a log of the per-project backend
/// names.
pub fn session_of_claude_entry(first: &Option<ClaudeMessage>) -> (r: Option<String>)
    ensures
        text_view(r) == claude_entry_session(
            match first {
                Some(m) => Some(m@),
                None => None,
            },
        ),
{
    match first {
        Some(entry) => Some(entry.session_id.clone()),
        None => None,
    }
}

/// The session that the first entry of a log of the dated backend names.
pub fn session_of_codex_entry(first: &Option<CodexMessage>) -> (r: Option<String>)
    ensures
        text_view(r) == codex_entry_session(
            match first {
                Some(m) => Some(m@),
                None => None,
            },
        ),
{
    match first {
        Some(entry) => if same_text(entry.msg_type.as_str(), "session_meta") {
            text_member(&entry.payload, "id")
        } else {
            None
        },
        None => None,
    }
}

/// The time of the last change, or 0 where it is not known.
pub open spec fn modified_or_zero(t: Option<i64>) -> i64 {
    match t {
        Some(secs) => secs,
        None => 0,
    }
}

/// The record of a log of the dated backend, tagged `tag`, that is named
/// `name`.
pub open spec fn codex_meta(
    tag: Seq<char>,
    name: Seq<char>,
    file: LogFile,
) -> MetaView {
    MetaView {
        id: stem_of(name),
        app_type: tag,
        file_path: file.path@,
        file_size: file.size,
        created_at: file.created,
        modified_at: modified_or_zero(file.modified),
        message_count: line_count(file.content@) as usize,
        project_name: None,
        session_id: codex_session(file.content@),
    }
}

/// The record of a log of the per-project backend, tagged `tag`, that is
/// named `name` and lies in the project directory `project`.
pub open spec fn claude_meta(
    tag: Seq<char>,
    name: Seq<char>,
    file: LogFile,
    project: Seq<char>,
) -> MetaView {
    MetaView {
        id: stem_of(name),
        app_type: tag,
        file_path: file.path@,
        file_size: file.size,
        created_at: file.created,
        modified_at: modified_or_zero(file.modified),
        message_count: line_count(file.content@) as usize,
        project_name: Some(project),
        session_id: claude_session(file.content@),
    }
}

/// Derives the record of a log of the dated backend from the backend's
/// tag, the file's name and what was read of the file.
pub fn get_codex_conversation_meta(tag: &str, name: &str, file: &LogFile) -> (meta:
    ConversationMeta)
    ensures
        meta@ == codex_meta(tag@, name@, *file),
{
    let first = match first_line(file.content.as_str()) {
        Some(line) => parse_codex_message(line.as_str()),
        None => None,
    };
    let session_id = session_of_codex_entry(&first);
    let modified_at = match file.modified {
        Some(secs) => secs,
        None => 0,
    };
    ConversationMeta {
        id: file_stem(name),
        app_type: tag.to_owned(),
        file_path: file.path.clone(),
        file_size: file.size,
        created_at: file.created,
        modified_at,
        message_count: count_lines(file.content.as_str()),
        project_name: None,
        session_id,
    }
}

/// Derives the record of a log of the per-project backend from the
/// backend's tag, the file's name, what was read of the file and the name
/// of its project directory.
pub fn get_claude_conversation_meta(
    tag: &str,
    name: &str,
    file: &LogFile,
    project_name: &str,
) -> (meta: ConversationMeta)
    ensures
        meta@ == claude_meta(tag@, name@, *file, project_name@),
{
    let first = match first_line(file.content.as_str()) {
        Some(line) => parse_claude_message(line.as_str()),
        None => None,
    };
    let session_id = session_of_claude_entry(&first);
    let modified_at = match file.modified {
        Some(secs) => secs,
        None => 0,
    };
    ConversationMeta {
        id: file_stem(name),
        app_type: tag.to_owned(),
        file_path: file.path.clone(),
        file_size: file.size,
        created_at: file.created,
        modified_at,
        message_count: count_lines(file.content.as_str()),
        project_name: Some(project_name.to_owned()),
        session_id,
    }
}

/// The entries of a directory entry that is a directory and could be
/// listed; no entries otherwise.
pub open spec fn folder_entries<T>(entry: Option<Folder<T>>) -> Seq<Option<T>> {
    match entry {
        Some(d) => if d.is_dir {
            match d.listing {
                Listing::Entries(v) => v@,
                _ => Seq::empty(),
            }
        } else {
            Seq::empty()
        },
        None => Seq::empty(),
    }
}

/// The entries of a directory entry, where it is a directory that could be
/// listed.
fn entries_of<T>(entry: &Option<Folder<T>>) -> (r: Option<&Vec<Option<T>>>)
    ensures
        match r {
            Some(v) => v@ == folder_entries(*entry),
            None => folder_entries(*entry) == Seq::<Option<T>>::empty(),
        },
{
    match entry {
        Some(d) => if d.is_dir {
            match &d.listing {
                Listing::Entries(v) => Some(v),
                _ => None,
            }
        } else {
            None
        },
        None => None,
    }
}

/// The record that an entry of a day directory gives: one
/// where it has the extension of a log and could be read, none otherwise.
pub open spec fn codex_file_record(
    tag: Seq<char>,
    entry: Option<FileEntry>,
) -> Seq<MetaView> {
    match entry {
        Some(e) => match e.file {
            Some(f) => if is_log_name(e.name@) {
                seq![codex_meta(tag, e.name@, f)]
            } else {
                Seq::empty()
            },
            None => Seq::empty(),
        },
        None => Seq::empty(),
    }
}

/// The records of the entries of a day directory, in the order of the
/// entries.
pub open spec fn codex_file_records(
    tag: Seq<char>,
    files: Seq<Option<FileEntry>>,
) -> Seq<MetaView>
    decreases files.len(),
{
    if files.len() == 0 {
        Seq::empty()
    } else {
        codex_file_records(tag, files.drop_last()) + codex_file_record(tag, files.last())
    }
}

/// The records of all day directories among `days`.
pub open spec fn codex_day_records(tag: Seq<char>, days: Seq<Option<DayFolder>>) -> Seq<MetaView>
    decreases days.len(),
{
    if days.len() == 0 {
        Seq::empty()
    } else {
        codex_day_records(tag, days.drop_last()) + codex_file_records(
            tag,
            folder_entries(days.last()),
        )
    }
}

/// The records of all month directories among `months`.
pub open spec fn codex_month_records(
    tag: Seq<char>,
    months: Seq<Option<MonthFolder>>,
) -> Seq<MetaView>
    decreases months.len(),
{
    if months.len() == 0 {
        Seq::empty()
    } else {
        codex_month_records(tag, months.drop_last()) + codex_day_records(
            tag,
            folder_entries(months.last()),
        )
    }
}

/// The records of all year directories among `years`: those of the log
/// files that lie three directories deep.
pub open spec fn codex_year_records(tag: Seq<char>, years: Seq<Option<YearFolder>>) -> Seq<MetaView>
    decreases years.len(),
{
    if years.len() == 0 {
        Seq::empty()
    } else {
        codex_year_records(tag, years.drop_last()) + codex_month_records(
            tag,
            folder_entries(years.last()),
        )
    }
}

fn append_codex_files(
    out: &mut Vec<ConversationMeta>,
    tag: &str,
    files: &Vec<Option<FileEntry>>,
)
    ensures
        views(final(out)@) == views(old(out)@) + codex_file_records(tag@, files@),
{
    let ghost start = views(out@);
    let mut i: usize = 0;
    proof {
        assert(start + codex_file_records(tag@, files@.take(0)) =~= start);
    }
    while i < files.len()
        invariant
            i <= files.len(),
            views(out@) == start + codex_file_records(tag@, files@.take(i as int)),
        decreases files.len() - i,
    {
        let ghost before = out@;
        proof {
            assert(files@.take(i + 1).drop_last() == files@.take(i as int));
        }
        match &files[i] {
            Some(entry) => match &entry.file {
                Some(file) => if has_log_extension(entry.name.as_str()) {
                    let meta = get_codex_conversation_meta(tag, entry.name.as_str(), file);
                    out.push(meta);
                    proof {
                        assert(views(before.push(meta)) =~= views(before).push(meta@));
                    }
                },
                None => {},
            },
            None => {},
        }
        proof {
            assert(views(out@) =~= start + codex_file_records(tag@, files@.take(i + 1)));
        }
        i = i + 1;
    }
    proof {
        assert(files@.take(files.len() as int) == files@);
    }
}

fn append_codex_days(out: &mut Vec<ConversationMeta>, tag: &str, days: &Vec<Option<DayFolder>>)
    ensures
        views(final(out)@) == views(old(out)@) + codex_day_records(tag@, days@),
{
    let ghost start = views(out@);
    let mut i: usize = 0;
    proof {
        assert(start + codex_day_records(tag@, days@.take(0)) =~= start);
    }
    while i < days.len()
        invariant
            i <= days.len(),
            views(out@) == start + codex_day_records(tag@, days@.take(i as int)),
        decreases days.len() - i,
    {
        proof {
            assert(days@.take(i + 1).drop_last() == days@.take(i as int));
        }
        match entries_of(&days[i]) {
            Some(files) => {
                append_codex_files(out, tag, files);
            },
            None => {},
        }
        proof {
            assert(views(out@) =~= start + codex_day_records(tag@, days@.take(i + 1)));
        }
        i = i + 1;
    }
    proof {
        assert(days@.take(days.len() as int) == days@);
    }
}

fn append_codex_months(
    out: &mut Vec<ConversationMeta>,
    tag: &str,
    months: &Vec<Option<MonthFolder>>,
)
    ensures
        views(final(out)@) == views(old(out)@) + codex_month_records(tag@, months@),
{
    let ghost start = views(out@);
    let mut i: usize = 0;
    proof {
        assert(start + codex_month_records(tag@, months@.take(0)) =~= start);
    }
    while i < months.len()
        invariant
            i <= months.len(),
            views(out@) == start + codex_month_records(tag@, months@.take(i as int)),
        decreases months.len() - i,
    {
        proof {
            assert(months@.take(i + 1).drop_last() == months@.take(i as int));
        }
        match entries_of(&months[i]) {
            Some(days) => {
                append_codex_days(out, tag, days);
            },
            None => {},
        }
        proof {
            assert(views(out@) =~= start + codex_month_records(tag@, months@.take(i + 1)));
        }
        i = i + 1;
    }
    proof {
        assert(months@.take(months.len() as int) == months@);
    }
}

fn append_codex_years(out: &mut Vec<ConversationMeta>, tag: &str, years: &Vec<Option<YearFolder>>)
    ensures
        views(final(out)@) == views(old(out)@) + codex_year_records(tag@, years@),
{
    let ghost start = views(out@);
    let mut i: usize = 0;
    proof {
        assert(start + codex_year_records(tag@, years@.take(0)) =~= start);
    }
    while i < years.len()
        invariant
            i <= years.len(),
            views(out@) == start + codex_year_records(tag@, years@.take(i as int)),
        decreases years.len() - i,
    {
        proof {
            assert(years@.take(i + 1).drop_last() == years@.take(i as int));
        }
        match entries_of(&years[i]) {
            Some(months) => {
                append_codex_months(out, tag, months);
            },
            None => {},
        }
        proof {
            assert(views(out@) =~= start + codex_year_records(tag@, years@.take(i + 1)));
        }
        i = i + 1;
    }
    proof {
        assert(years@.take(years.len() as int) == years@);
    }
}

/// What a scan of the tree of the dated backend gives: nothing where the
/// root is missing, the records from the newest to the oldest where it
/// could be listed, and `None` where it could not.
pub open spec fn codex_scan(tree: Tree<YearFolder>) -> Option<Seq<MetaView>> {
    match tree.root {
        Listing::Missing => Some(Seq::empty()),
        Listing::Unreadable => None,
        Listing::Entries(years) => Some(by_recency(codex_year_records(tree.tag@, years@))),
    }
}

/// Whether the root of a tree is missing or has no entries.
pub open spec fn is_bare<T>(tree: Tree<T>) -> bool {
    match tree.root {
        Listing::Missing => true,
        Listing::Unreadable => false,
        Listing::Entries(entries) => entries@.len() == 0,
    }
}

/// Lists the conversations of the dated backend from what was read of its
/// tree: the logs that lie in a day directory of a month directory of a
/// year directory, the newest first. Whatever could not be read below the
/// root is passed over; a root that could not be listed is a failure. A
/// missing root, and one without entries, gives no conversations.
pub fn list_codex_conversations(tree: &Tree<YearFolder>) -> (r: Result<
    Vec<ConversationMeta>,
    CatalogError,
>)
    ensures
        match codex_scan(*tree) {
            Some(records) => r matches Ok(list) && views(list@) == records,
            None => fails_with(r, CatalogError::Io),
        },
        r matches Ok(list) ==> newest_first(views(list@)),
        is_bare(*tree) ==> (r matches Ok(list) && list@.len() == 0),
{
    match &tree.root {
        Listing::Missing => {
            let list: Vec<ConversationMeta> = Vec::new();
            proof {
                assert(views(list@) =~= Seq::empty());
            }
            Ok(list)
        },
        Listing::Unreadable => Err(CatalogError::Io),
        Listing::Entries(years) => {
            let mut found: Vec<ConversationMeta> = Vec::new();
            proof {
                assert(views(found@) =~= Seq::empty());
            }
            append_codex_years(&mut found, tree.tag.as_str(), years);
            proof {
                assert(views(found@) =~= codex_year_records(tree.tag@, years@));
            }
            let list = sort_by_recency(found);
            proof {
                law_ordering_permutes(codex_year_records(tree.tag@, years@));
            }
            Ok(list)
        },
    }
}

/// The record that a directory entry of a project gives: one where it has
/// the extension of a log and could be read, none otherwise.
pub open spec fn claude_file_record(
    tag: Seq<char>,
    project: Seq<char>,
    entry: Option<FileEntry>,
)
    -> Seq<MetaView> {
    match entry {
        Some(e) => match e.file {
            Some(f) => if is_log_name(e.name@) {
                seq![claude_meta(tag, e.name@, f, project)]
            } else {
                Seq::empty()
            },
            None => Seq::empty(),
        },
        None => Seq::empty(),
    }
}

/// The records of the entries of the project directory `project`, in the
/// order of the entries.
pub open spec fn claude_file_records(
    tag: Seq<char>,
    project: Seq<char>,
    files: Seq<Option<FileEntry>>,
) -> Seq<MetaView>
    decreases files.len(),
{
    if files.len() == 0 {
        Seq::empty()
    } else {
        claude_file_records(tag, project, files.drop_last()) + claude_file_record(
            tag,
            project,
            files.last(),
        )
    }
}

/// A name that begins with a dot: such a directory is no project.
pub open spec fn is_hidden(name: Seq<char>) -> bool {
    name.len() > 0 && name[0] == '.'
}

/// The records of one entry of the root: those of its log files where it
/// is a directory whose name does not begin with a dot.
pub open spec fn claude_folder_records(
    tag: Seq<char>,
    entry: Option<ProjectFolder>,
) -> Seq<MetaView> {
    match entry {
        Some(d) => if is_hidden(d.name@) {
            Seq::empty()
        } else {
            claude_file_records(tag, d.name@, folder_entries(entry))
        },
        None => Seq::empty(),
    }
}

/// The records of all project directories among `projects`.
pub open spec fn claude_project_records(
    tag: Seq<char>,
    projects: Seq<Option<ProjectFolder>>,
) -> Seq<MetaView>
    decreases projects.len(),
{
    if projects.len() == 0 {
        Seq::empty()
    } else {
        claude_project_records(tag, projects.drop_last()) + claude_folder_records(
            tag,
            projects.last(),
        )
    }
}

fn append_claude_files(
    out: &mut Vec<ConversationMeta>,
    tag: &str,
    project: &str,
    files: &Vec<Option<FileEntry>>,
)
    ensures
        views(final(out)@) == views(old(out)@) + claude_file_records(tag@, project@, files@),
{
    let ghost start = views(out@);
    let mut i: usize = 0;
    proof {
        assert(start + claude_file_records(tag@, project@, files@.take(0)) =~= start);
    }
    while i < files.len()
        invariant
            i <= files.len(),
            views(out@) == start + claude_file_records(tag@, project@, files@.take(i as int)),
        decreases files.len() - i,
    {
        let ghost before = out@;
        proof {
            assert(files@.take(i + 1).drop_last() == files@.take(i as int));
        }
        match &files[i] {
            Some(entry) => match &entry.file {
                Some(file) => if has_log_extension(entry.name.as_str()) {
                    let meta = get_claude_conversation_meta(
                        tag,
                        entry.name.as_str(),
                        file,
                        project,
                    );
                    out.push(meta);
                    proof {
                        assert(views(before.push(meta)) =~= views(before).push(meta@));
                    }
                },
                None => {},
            },
            None => {},
        }
        proof {
            assert(views(out@) =~= start + claude_file_records(tag@, project@, files@.take(i + 1)));
        }
        i = i + 1;
    }
    proof {
        assert(files@.take(files.len() as int) == files@);
    }
}

fn append_claude_projects(
    out: &mut Vec<ConversationMeta>,
    tag: &str,
    projects: &Vec<Option<ProjectFolder>>,
)
    ensures
        views(final(out)@) == views(old(out)@) + claude_project_records(tag@, projects@),
{
    let ghost start = views(out@);
    let mut i: usize = 0;
    proof {
        assert(start + claude_project_records(tag@, projects@.take(0)) =~= start);
    }
    while i < projects.len()
        invariant
            i <= projects.len(),
            views(out@) == start + claude_project_records(tag@, projects@.take(i as int)),
        decreases projects.len() - i,
    {
        proof {
            assert(projects@.take(i + 1).drop_last() == projects@.take(i as int));
        }
        match &projects[i] {
            Some(dir) => if !starts_with_char(dir.name.as_str(), '.') {
                match entries_of(&projects[i]) {
                    Some(files) => {
                        append_claude_files(out, tag, dir.name.as_str(), files);
                    },
                    None => {
                        proof {
                            assert(claude_file_records(tag@, dir.name@, Seq::empty())
                                =~= Seq::empty());
                        }
                    },
                }
            },
            None => {},
        }
        proof {
            assert(views(out@) =~= start + claude_project_records(tag@, projects@.take(i + 1)));
        }
        i = i + 1;
    }
    proof {
        assert(projects@.take(projects.len() as int) == projects@);
    }
}

/// What a scan of the tree of the per-project backend gives: nothing
/// where the root is missing, the records from the newest to the oldest
/// where it could be listed, and `None` where it could not.
pub open spec fn claude_scan(tree: Tree<ProjectFolder>) -> Option<Seq<MetaView>> {
    match tree.root {
        Listing::Missing => Some(Seq::empty()),
        Listing::Unreadable => None,
        Listing::Entries(projects) => Some(
            by_recency(claude_project_records(tree.tag@, projects@)),
        ),
    }
}

/// Lists the conversations of the per-project backend from what was read
/// of its tree: the logs that lie in a directory of the root whose name
/// does not begin with a dot, the newest first. Whatever could not be read
/// below the root is passed over; a root that could not be listed is a
/// failure. A missing root, and one without entries, gives no
/// conversations.
pub fn list_claude_conversations(tree: &Tree<ProjectFolder>) -> (r: Result<
    Vec<ConversationMeta>,
    CatalogError,
>)
    ensures
        match claude_scan(*tree) {
            Some(records) => r matches Ok(list) && views(list@) == records,
            None => fails_with(r, CatalogError::Io),
        },
        r matches Ok(list) ==> newest_first(views(list@)),
        is_bare(*tree) ==> (r matches Ok(list) && list@.len() == 0),
{
    match &tree.root {
        Listing::Missing => {
            let list: Vec<ConversationMeta> = Vec::new();
            proof {
                assert(views(list@) =~= Seq::empty());
            }
            Ok(list)
        },
        Listing::Unreadable => Err(CatalogError::Io),
        Listing::Entries(projects) => {
            let mut found: Vec<ConversationMeta> = Vec::new();
            proof {
                assert(views(found@) =~= Seq::empty());
            }
            append_claude_projects(&mut found, tree.tag.as_str(), projects);
            proof {
                assert(views(found@) =~= claude_project_records(tree.tag@, projects@));
            }
            let list = sort_by_recency(found);
            proof {
                law_ordering_permutes(claude_project_records(tree.tag@, projects@));
            }
            Ok(list)
        },
    }
}

/// Which trees a search looks at.
#[derive(Clone, Copy, Debug, PartialEq, Eq, Structural)]
pub enum SearchScope {
    /// The tree of the per-project backend.
    Projects,
    /// The tree of the dated backend.
    Sessions,
    Both,
}

/// The trees that a search with the filter `app_type` looks at: the tree
/// of the backend whose tag the filter is, and both trees where it is
/// neither tag or there is no filter.
pub open spec fn scope_of(
    app_type: Option<Seq<char>>,
    project_tag: Seq<char>,
    session_tag: Seq<char>,
) -> SearchScope {
    if app_type == Some(project_tag) {
        SearchScope::Projects
    } else if app_type == Some(session_tag) {
        SearchScope::Sessions
    } else {
        SearchScope::Both
    }
}

/// Which trees a search with the filter `app_type` looks at, where
/// `project_tag` and `session_tag` are the tags of the two backends.
pub fn search_scope(app_type: &Option<String>, project_tag: &str, session_tag: &str) -> (scope:
    SearchScope)
    ensures
        scope == scope_of(text_view(*app_type), project_tag@, session_tag@),
{
    match app_type {
        Some(name) => if same_text(name.as_str(), project_tag) {
            SearchScope::Projects
        } else if same_text(name.as_str(), session_tag) {
            SearchScope::Sessions
        } else {
            SearchScope::Both
        },
        None => SearchScope::Both,
    }
}

/// Whether a record matches a keyword: the keyword stands in its
/// identifier, in the name of its project or in its session, letter case
/// set aside.
pub open spec fn matches_keyword(m: MetaView, keyword: Seq<char>) -> bool {
    let k = lowercase_of(keyword);
    ||| is_substring(k, lowercase_of(m.id))
    ||| (m.project_name matches Some(p) && is_substring(k, lowercase_of(p)))
    ||| (m.session_id matches Some(s) && is_substring(k, lowercase_of(s)))
}

/// The records of `s` that match `keyword`, in their order.
pub open spec fn matching(s: Seq<MetaView>, keyword: Seq<char>) -> Seq<MetaView>
    decreases s.len(),
{
    if s.len() == 0 {
        Seq::empty()
    } else if matches_keyword(s.last(), keyword) {
        matching(s.drop_last(), keyword).push(s.last())
    } else {
        matching(s.drop_last(), keyword)
    }
}

/// Every record that a search keeps matches the keyword and is one of the
/// records that were searched.
pub proof fn law_kept_records_match(s: Seq<MetaView>, keyword: Seq<char>, i: int)
    requires
        0 <= i < matching(s, keyword).len(),
    ensures
        matches_keyword(matching(s, keyword)[i], keyword),
        s.contains(matching(s, keyword)[i]),
    decreases s.len(),
{
    if s.len() > 0 {
        let front = matching(s.drop_last(), keyword);
        if i < front.len() {
            law_kept_records_match(s.drop_last(), keyword, i);
            let j = choose|j: int| 0 <= j < s.drop_last().len() && s.drop_last()[j] == front[i];
            assert(s[j] == front[i]);
        } else {
            assert(matching(s, keyword)[i] == s.last());
            assert(s[s.len() - 1] == s.last());
        }
    }
}

/// Whether a keyword keeps every record: it is the empty keyword, or is
/// the same as the empty keyword once letter case is set aside.
pub open spec fn keeps_all(keyword: Seq<char>) -> bool {
    lowercase_of(keyword) == lowercase_of(Seq::empty())
}

/// What a search keeps of `s`: all of it for the empty keyword, and else
/// the records that match.
pub open spec fn searched(s: Seq<MetaView>, keyword: Seq<char>) -> Seq<MetaView> {
    if keeps_all(keyword) {
        s
    } else {
        matching(s, keyword)
    }
}

/// A search sets the letter case of the keyword aside: two keywords that
/// are the same in lower case keep the same records.
pub proof fn law_keyword_case_is_set_aside(s: Seq<MetaView>, first: Seq<char>, second: Seq<char>)
    requires
        lowercase_of(first) == lowercase_of(second),
    ensures
        matching(s, first) == matching(s, second),
        searched(s, first) == searched(s, second),
    decreases s.len(),
{
    if s.len() > 0 {
        law_keyword_case_is_set_aside(s.drop_last(), first, second);
    }
}

/// The empty keyword keeps every record.
pub proof fn law_empty_keyword_keeps_all(s: Seq<MetaView>)
    ensures
        searched(s, Seq::empty()) == s,
{
}

/// The records that a search looks through: those of the one backend
/// that the filter names, or those of the per-project backend followed by
/// those of the dated backend. `None` where a tree that the search looks
/// at could not be listed.
pub open spec fn search_pool(
    app_type: Option<Seq<char>>,
    projects: Tree<ProjectFolder>,
    sessions: Tree<YearFolder>,
) -> Option<Seq<MetaView>> {
    match scope_of(app_type, projects.tag@, sessions.tag@) {
        SearchScope::Projects => claude_scan(projects),
        SearchScope::Sessions => codex_scan(sessions),
        SearchScope::Both => match claude_scan(projects) {
            Some(first) => match codex_scan(sessions) {
                Some(second) => Some(first + second),
                None => None,
            },
            None => None,
        },
    }
}

/// Whether the lower-case keyword `needle` stands in `text`, letter case
/// of `text` set aside.
fn holds_keyword(text: &str, needle: &str) -> (r: bool)
    ensures
        r == is_substring(needle@, lowercase_of(text@)),
{
    let lower = to_lowercase(text);
    contains(lower.as_str(), needle)
}

/// Whether a keyword keeps every record.
pub fn selects_nothing(keyword: &str) -> (r: bool)
    ensures
        r == keeps_all(keyword@),
        keyword@.len() == 0 ==> r,
{
    let needle = to_lowercase(keyword);
    let none = to_lowercase("");
    proof {
        reveal_strlit("");
        assert(""@ =~= Seq::<char>::empty());
        if keyword@.len() == 0 {
            assert(keyword@ =~= Seq::<char>::empty());
        }
    }
    same_text(needle.as_str(), none.as_str())
}

/// Whether a record matches a keyword.
pub fn record_matches(m: &ConversationMeta, keyword: &str) -> (r: bool)
    ensures
        r == matches_keyword(m@, keyword@),
{
    let needle = to_lowercase(keyword);
    if holds_keyword(m.id.as_str(), needle.as_str()) {
        return true;
    }
    let in_project = match &m.project_name {
        Some(p) => holds_keyword(p.as_str(), needle.as_str()),
        None => false,
    };
    if in_project {
        return true;
    }
    match &m.session_id {
        Some(s) => holds_keyword(s.as_str(), needle.as_str()),
        None => false,
    }
}

/// The records of `list` that match `keyword`, in their order.
fn keep_matching(list: Vec<ConversationMeta>, keyword: &str) -> (out: Vec<ConversationMeta>)
    ensures
        views(out@) == matching(views(list@), keyword@),
{
    let mut out: Vec<ConversationMeta> = Vec::new();
    proof {
        assert(views(out@) =~= matching(views(list@).take(0), keyword@));
    }
    for m in it: list
        invariant
            it.seq() == list@,
            views(out@) == matching(views(list@).take(it.index() as int), keyword@),
    {
        let ghost before = out@;
        let ghost k = it.index() as int;
        proof {
            assert(views(list@).take(k + 1).drop_last() =~= views(list@).take(k));
            assert(views(list@).take(k + 1).last() == m@);
        }
        if record_matches(&m, keyword) {
            out.push(m);
            proof {
                assert(views(before.push(m)) =~= views(before).push(m@));
            }
        }
    }
    proof {
        assert(views(list@).take(list@.len() as int) =~= views(list@));
    }
    out
}

/// Searches the conversations. The filter `app_type` names by its tag the
/// one backend to look at; any other filter, and none, looks at both, the
/// per-project backend first. The empty keyword keeps every record;
/// another keyword keeps the records in whose identifier, project name or
/// session it stands, letter case set aside. Keywords that differ in
/// letter case only keep the same records. Fails where a tree that the
/// search looks at could not be listed.
pub fn search_conversations(
    app_type: Option<String>,
    keyword: &str,
    projects: &Tree<ProjectFolder>,
    sessions: &Tree<YearFolder>,
) -> (r: Result<Vec<ConversationMeta>, CatalogError>)
    ensures
        match search_pool(text_view(app_type), *projects, *sessions) {
            Some(pool) => r matches Ok(list) && views(list@) == searched(pool, keyword@),
            None => fails_with(r, CatalogError::Io),
        },
{
    let all = match search_scope(&app_type, projects.tag.as_str(), sessions.tag.as_str()) {
        SearchScope::Projects => match list_claude_conversations(projects) {
            Ok(list) => list,
            Err(e) => {
                return Err(e);
            },
        },
        SearchScope::Sessions => match list_codex_conversations(sessions) {
            Ok(list) => list,
            Err(e) => {
                return Err(e);
            },
        },
        SearchScope::Both => {
            let mut first = match list_claude_conversations(projects) {
                Ok(list) => list,
                Err(e) => {
                    return Err(e);
                },
            };
            let mut second = match list_codex_conversations(sessions) {
                Ok(list) => list,
                Err(e) => {
                    return Err(e);
                },
            };
            let ghost a = first@;
            let ghost b = second@;
            first.append(&mut second);
            proof {
                assert(views(a + b) =~= views(a) + views(b));
            }
            first
        },
    };
    if selects_nothing(keyword) {
        return Ok(all);
    }
    Ok(keep_matching(all, keyword))
}

} // verus!
