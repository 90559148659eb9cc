//! Rule files and their tags. The files lie in one directory; the tags of a
//! file lie in the configuration document, in the list `global` of the
//! table `rules`, in an entry whose `path` ends in the file's name.

use vstd::prelude::*;
use crate::document::{
    parse_document, parsed_document, render_document, rendered_document, table_model, table_new,
    Node,
};
use crate::error::{fails_with, CatalogError};
use crate::listing::Listing;
use crate::paths::{extension_of, file_extension, file_name, home_dir, join, joined_path};
use crate::rule_config::{
    listed_rules, remove_rule, removed, rules_of, tags_for, upsert_rule, upserted, RuleModel,
};
use crate::text::{is_blank, is_blank_text, same_text, str_view, texts};

verus! {

/// A rule file with its tags.
#[derive(Clone, Debug, PartialEq, Eq)]
pub struct CodexRuleFile {
    /// The file's name, extension included.
    pub name: String,
    pub path: String,
    pub tags: Vec<String>,
    pub content: String,
}

/// The entry of a rule file in the configuration document.
#[derive(Clone, Debug, PartialEq, Eq)]
pub struct CodexRuleConfig {
    /// The path of the rule file. Only its final component counts: it is
    /// the file's name, by which entry and file are joined.
    pub path: String,
    pub tags: Vec<String>,
}

impl View for CodexRuleConfig {
    type V = RuleModel;

    open spec fn view(&self) -> RuleModel {
        RuleModel { path: self.path@, tags: texts(self.tags@) }
    }
}

/// The document that a configuration text stands for: the empty one where
/// the text is blank, `None` where it is not well-formed.
pub open spec fn document_of(text: Seq<char>) -> Option<Map<Seq<char>, Node>> {
    if is_blank_text(text) {
        Some(Map::empty())
    } else {
        parsed_document(text)
    }
}

/// Reads a configuration text as a document. A blank text is the empty
/// document.
pub fn load_document(config_text: &str) -> (r: Result<toml::Table, CatalogError>)
    ensures
        match document_of(config_text@) {
            Some(doc) => r matches Ok(t) && table_model(t) == doc,
            None => fails_with(r, CatalogError::Config),
        },
{
    if is_blank(config_text) {
        Ok(table_new())
    } else {
        match parse_document(config_text) {
            Ok(doc) => Ok(doc),
            Err(_) => Err(CatalogError::Config),
        }
    }
}

/// Writes a document out as text.
pub fn save_document(doc: &toml::Table) -> (r: Result<String, CatalogError>)
    ensures
        match rendered_document(table_model(*doc)) {
            Some(text) => r matches Ok(t) && t@ == text,
            None => fails_with(r, CatalogError::Config),
        },
{
    match render_document(doc) {
        Ok(text) => Ok(text),
        Err(_) => Err(CatalogError::Config),
    }
}

/// The configuration text after the rule file at `path` was entered with
/// `tags`; `None` where the text cannot be read, has `rules` or `global`
/// in another shape, or the result cannot be written out.
pub open spec fn updated_config(text: Seq<char>, path: Seq<char>, tags: Seq<Seq<char>>) -> Option<
    Seq<char>,
> {
    match document_of(text) {
        Some(doc) => match upserted(doc, path, tags) {
            Some(after) => rendered_document(after),
            None => None,
        },
        None => None,
    }
}

/// Enters the rule file `filename` of the directory `rules_dir` with `tags`
/// into the configuration text, and gives the new text. The entry holds
/// the file's path, and its tags unless there are none.
pub fn update_codex_rules_config(
    config_text: &str,
    rules_dir: &str,
    filename: &str,
    tags: Vec<String>,
) -> (r: Result<String, CatalogError>)
    ensures
        match updated_config(config_text@, joined_path(rules_dir@, filename@), texts(tags@)) {
            Some(text) => r matches Ok(t) && t@ == text,
            None => fails_with(r, CatalogError::Config),
        },
{
    let mut doc = match load_document(config_text) {
        Ok(doc) => doc,
        Err(e) => {
            return Err(e);
        },
    };
    let rule_path = join(rules_dir, filename);
    match upsert_rule(&mut doc, rule_path.as_str(), &tags) {
        Ok(()) => save_document(&doc),
        Err(e) => Err(e),
    }
}

/// The views of a sequence of rules.
pub open spec fn rule_views(rules: Seq<CodexRuleConfig>) -> Seq<RuleModel> {
    rules.map_values(|r: CodexRuleConfig| r@)
}

/// No tags.
pub(crate) fn empty_tags() -> (r: Vec<String>)
    ensures
        texts(r@) == Seq::<Seq<char>>::empty(),
{
    let r: Vec<String> = Vec::new();
    proof {
        assert(texts(r@) =~= Seq::<Seq<char>>::empty());
    }
    r
}

/// What reading the rules of a configuration text gives: no rules for a
/// blank text, the rules of the document otherwise, and `None` where the
/// text is not well-formed or the document holds no rules in the expected
/// shape.
pub open spec fn config_rules(text: Seq<char>) -> Option<Seq<RuleModel>> {
    if is_blank_text(text) {
        Some(Seq::empty())
    } else {
        match parsed_document(text) {
            Some(doc) => listed_rules(doc),
            None => None,
        }
    }
}

/// Reads the rule entries of a configuration text.
pub fn read_codex_rules_config(config_text: &str) -> (r: Result<Vec<CodexRuleConfig>, CatalogError>)
    ensures
        match config_rules(config_text@) {
            Some(rules) => r matches Ok(list) && rule_views(list@) == rules,
            None => fails_with(r, CatalogError::Config),
        },
{
    if is_blank(config_text) {
        let list: Vec<CodexRuleConfig> = Vec::new();
        proof {
            assert(rule_views(list@) =~= Seq::empty());
        }
        return Ok(list);
    }
    match parse_document(config_text) {
        Ok(doc) => rules_of(&doc),
        Err(_) => Err(CatalogError::Config),
    }
}

/// An entry of the rules directory.
#[derive(Debug)]
pub struct RuleEntry {
    /// The entry's name within the directory.
    pub name: String,
    pub path: String,
    pub is_file: bool,
    /// The text of the file; `None` where it could not be read.
    pub content: Option<String>,
}

/// A `CodexRuleFile` with its texts as sequences of characters.
pub struct RuleFileModel {
    pub name: Seq<char>,
    pub path: Seq<char>,
    pub tags: Seq<Seq<char>>,
    pub content: Seq<char>,
}

impl View for CodexRuleFile {
    type V = RuleFileModel;

    open spec fn view(&self) -> RuleFileModel {
        RuleFileModel {
            name: self.name@,
            path: self.path@,
            tags: texts(self.tags@),
            content: self.content@,
        }
    }
}

/// The views of a sequence of rule files.
pub open spec fn rule_file_views(files: Seq<CodexRuleFile>) -> Seq<RuleFileModel> {
    files.map_values(|f: CodexRuleFile| f@)
}

/// The extension that marks a rule file.
pub open spec fn is_rule_name(name: Seq<char>) -> bool {
    extension_of(name) == Some("md"@)
}

/// Whether a directory entry is a rule file: a file with the extension of
/// one.
pub open spec fn is_rule_file(entry: RuleEntry) -> bool {
    entry.is_file && is_rule_name(entry.name@)
}

/// Whether an entry makes the listing fail: it could not be read, or it is
/// a rule file whose text could not be read.
pub open spec fn entry_fails(entry: Option<RuleEntry>) -> bool {
    match entry {
        Some(e) => is_rule_file(e) && e.content is None,
        None => true,
    }
}

/// The tags for the file `name` where the rules of the configuration are
/// known, and none where they are not.
pub open spec fn tags_from(config: Option<Seq<RuleModel>>, name: Seq<char>) -> Seq<Seq<char>> {
    match config {
        Some(rules) => tags_for(rules, name),
        None => Seq::empty(),
    }
}

/// The rule file that a directory entry gives: one where it is a rule
/// file, none otherwise.
pub open spec fn rule_file_of(entry: Option<RuleEntry>, config: Option<Seq<RuleModel>>) -> Seq<
    RuleFileModel,
> {
    match entry {
        Some(e) => match e.content {
            Some(text) => if is_rule_file(e) {
                seq![
                    RuleFileModel {
                        name: e.name@,
                        path: e.path@,
                        tags: tags_from(config, e.name@),
                        content: text@,
                    },
                ]
            } else {
                Seq::empty()
            },
            None => Seq::empty(),
        },
        None => Seq::empty(),
    }
}

/// The rule files among `entries`, in the order of the entries.
pub open spec fn rule_files(entries: Seq<Option<RuleEntry>>, config: Option<Seq<RuleModel>>) -> Seq<
    RuleFileModel,
>
    decreases entries.len(),
{
    if entries.len() == 0 {
        Seq::empty()
    } else {
        rule_files(entries.drop_last(), config) + rule_file_of(entries.last(), config)
    }
}

/// The rules of the configuration as far as they are known: none where the
/// text could not be had or read.
pub open spec fn known_rules(config_text: Option<Seq<char>>) -> Option<Seq<RuleModel>> {
    match config_text {
        Some(text) => config_rules(text),
        None => None,
    }
}

/// What listing the rule files gives: nothing where the directory is
/// missing, `None` where it or one of its entries could not be read, and
/// else its rule files, each with the tags that the configuration holds
/// for its name.
pub open spec fn rule_listing(listing: Listing<RuleEntry>, config_text: Option<Seq<char>>)
    -> Option<Seq<RuleFileModel>> {
    match listing {
        Listing::Missing => Some(Seq::empty()),
        Listing::Unreadable => None,
        Listing::Entries(entries) => if exists|i: int|
            0 <= i < entries@.len() && entry_fails(#[trigger] entries@[i]) {
            None
        } else {
            Some(rule_files(entries@, known_rules(config_text)))
        },
    }
}

/// Every rule file that is listed has the tags that the configuration
/// holds for its name.
pub proof fn law_listed_files_have_their_tags(
    entries: Seq<Option<RuleEntry>>,
    config: Option<Seq<RuleModel>>,
    i: int,
)
    requires
        0 <= i < rule_files(entries, config).len(),
    ensures
        rule_files(entries, config)[i].tags == tags_from(
            config,
            rule_files(entries, config)[i].name,
        ),
    decreases entries.len(),
{
    if entries.len() > 0 {
        let front = rule_files(entries.drop_last(), config);
        if i < front.len() {
            law_listed_files_have_their_tags(entries.drop_last(), config, i);
        }
    }
}

/// Every rule file of the directory whose text could be read is listed,
/// with its name, its path, its text and the tags that the configuration
/// holds for its name.
pub proof fn law_rule_files_are_listed(
    entries: Seq<Option<RuleEntry>>,
    config: Option<Seq<RuleModel>>,
    k: int,
)
    requires
        0 <= k < entries.len(),
        entries[k] matches Some(e) && is_rule_file(e) && e.content is Some,
    ensures
        rule_files(entries, config).contains(
            RuleFileModel {
                name: entries[k]->0.name@,
                path: entries[k]->0.path@,
                tags: tags_from(config, entries[k]->0.name@),
                content: entries[k]->0.content->0@,
            },
        ),
    decreases entries.len(),
{
    let e = entries[k]->0;
    let file = RuleFileModel {
        name: e.name@,
        path: e.path@,
        tags: tags_from(config, e.name@),
        content: e.content->0@,
    };
    let front = rule_files(entries.drop_last(), config);
    let all = rule_files(entries, config);
    if k < entries.len() - 1 {
        assert(entries.drop_last()[k] == entries[k]);
        law_rule_files_are_listed(entries.drop_last(), config, k);
        let i = choose|i: int| 0 <= i < front.len() && front[i] == file;
        assert(all[i] == file);
    } else {
        assert(entries.last() == entries[k]);
        assert(all[front.len() as int] == file);
    }
}

/// Whether the configuration text `written` holds the tags `tags` for the
/// file `filename`: they are what listing finds for that name.
pub open spec fn holds_tags(written: Seq<char>, filename: Seq<char>, tags: Seq<Seq<char>>) -> bool {
    tags_from(known_rules(Some(written)), filename) == tags
}

/// Writing a rule file and then listing gives the file back with the tags
/// it was written with: where the text that was written holds the tags
/// for the file's name, as `enter_rule_and_read_back` finds out, and the
/// directory holds the file, the listing holds it with its text and these
/// tags, and no listed file of its name has other tags.
pub proof fn law_written_rule_is_listed(
    written: Seq<char>,
    filename: Seq<char>,
    tags: Seq<Seq<char>>,
    entries: Seq<Option<RuleEntry>>,
    k: int,
)
    requires
        holds_tags(written, filename, tags),
        0 <= k < entries.len(),
        entries[k] matches Some(e) && is_rule_file(e) && e.content is Some && e.name@ == filename,
    ensures
        ({
            let files = rule_files(entries, known_rules(Some(written)));
            &&& files.contains(
                RuleFileModel {
                    name: filename,
                    path: entries[k]->0.path@,
                    tags: tags,
                    content: entries[k]->0.content->0@,
                },
            )
            &&& forall|i: int|
                0 <= i < files.len() && (#[trigger] files[i]).name == filename ==> files[i].tags
                    == tags
        }),
{
    let config = known_rules(Some(written));
    let files = rule_files(entries, config);
    law_rule_files_are_listed(entries, config, k);
    assert forall|i: int| 0 <= i < files.len() && (#[trigger] files[i]).name
        == filename implies files[i].tags == tags by {
        law_listed_files_have_their_tags(entries, config, i);
    }
}

/// A copy of `list`.
fn copy_texts(list: &Vec<String>) -> (r: Vec<String>)
    ensures
        r@ == list@,
{
    let mut out: Vec<String> = Vec::new();
    let mut i: usize = 0;
    while i < list.len()
        invariant
            i <= list.len(),
            out@ == list@.take(i as int),
        decreases list.len() - i,
    {
        out.push(list[i].clone());
        proof {
            assert(list@.take(i + 1) =~= list@.take(i as int).push(list@[i as int]));
        }
        i = i + 1;
    }
    proof {
        assert(list@.take(list.len() as int) == list@);
    }
    out
}

/// The tags that `rules` hold for the file `name`.
fn tags_of(rules: &Vec<CodexRuleConfig>, name: &str) -> (r: Vec<String>)
    ensures
        texts(r@) == tags_for(rule_views(rules@), name@),
{
    let mut i: usize = 0;
    proof {
        assert(rule_views(rules@).skip(0) =~= rule_views(rules@));
    }
    while i < rules.len()
        invariant
            i <= rules.len(),
            tags_for(rule_views(rules@), name@) == tags_for(
                rule_views(rules@).skip(i as int),
                name@,
            ),
        decreases rules.len() - i,
    {
        let ghost rest = rule_views(rules@).skip(i as int);
        proof {
            assert(rest[0] == rules@[i as int]@);
            assert(rest.drop_first() =~= rule_views(rules@).skip(i + 1));
        }
        let hit = match file_name(rules[i].path.as_str()) {
            Some(n) => same_text(n.as_str(), name),
            None => false,
        };
        if hit {
            return copy_texts(&rules[i].tags);
        }
        i = i + 1;
    }
    empty_tags()
}

/// Whether a file of this name is a rule file.
pub fn has_rule_extension(name: &str) -> (r: bool)
    ensures
        r == is_rule_name(name@),
{
    match file_extension(name) {
        Some(ext) => same_text(ext.as_str(), "md"),
        None => false,
    }
}

/// Lists the rule files from what was read of the rules directory, each
/// with the tags that the configuration text holds for its name. Where the
/// configuration could not be had (`None`) or read, every file has no
/// tags. A directory or an entry that could not be read, and a rule file
/// whose text could not be read, is a failure.
pub fn list_codex_rules(listing: &Listing<RuleEntry>, config_text: Option<&str>) -> (r: Result<
    Vec<CodexRuleFile>,
    CatalogError,
>)
    ensures
        match rule_listing(*listing, str_view(config_text)) {
            Some(files) => r matches Ok(list) && rule_file_views(list@) == files,
            None => fails_with(r, CatalogError::Io),
        },
{
    let entries = match listing {
        Listing::Missing => {
            let list: Vec<CodexRuleFile> = Vec::new();
            proof {
                assert(rule_file_views(list@) =~= Seq::empty());
            }
            return Ok(list);
        },
        Listing::Unreadable => {
            return Err(CatalogError::Io);
        },
        Listing::Entries(entries) => entries,
    };
    let mut k: usize = 0;
    while k < entries.len()
        invariant
            k <= entries.len(),
            *listing == Listing::Entries(*entries),
            forall|j: int| 0 <= j < k ==> !entry_fails(#[trigger] entries@[j]),
        decreases entries.len() - k,
    {
        match &entries[k] {
            Some(e) => {
                if e.is_file && has_rule_extension(e.name.as_str()) && e.content.is_none() {
                    return Err(CatalogError::Io);
                }
            },
            None => {
                return Err(CatalogError::Io);
            },
        }
        k = k + 1;
    }
    let config: Option<Vec<CodexRuleConfig>> = match config_text {
        Some(text) => match read_codex_rules_config(text) {
            Ok(rules) => Some(rules),
            Err(_) => None,
        },
        None => None,
    };
    let ghost known = known_rules(str_view(config_text));
    let mut out: Vec<CodexRuleFile> = Vec::new();
    let mut i: usize = 0;
    proof {
        assert(rule_file_views(out@) =~= rule_files(entries@.take(0), known));
    }
    while i < entries.len()
        invariant
            i <= entries.len(),
            match config {
                Some(rules) => known == Some(rule_views(rules@)),
                None => known is None,
            },
            rule_file_views(out@) == rule_files(entries@.take(i as int), known),
        decreases entries.len() - i,
    {
        let ghost before = out@;
        proof {
            assert(entries@.take(i + 1).drop_last() == entries@.take(i as int));
        }
        match &entries[i] {
            Some(e) => match &e.content {
                Some(text) => if e.is_file && has_rule_extension(e.name.as_str()) {
                    let tags = match &config {
                        Some(rules) => tags_of(rules, e.name.as_str()),
                        None => empty_tags(),
                    };
                    let file = CodexRuleFile {
                        name: e.name.clone(),
                        path: e.path.clone(),
                        tags,
                        content: text.clone(),
                    };
                    out.push(file);
                    proof {
                        assert(rule_file_views(before.push(file)) =~= rule_file_views(before).push(
                            file@,
                        ));
                    }
                },
                None => {},
            },
            None => {},
        }
        proof {
            assert(rule_file_views(out@) =~= rule_files(entries@.take(i + 1), known));
        }
        i = i + 1;
    }
    proof {
        assert(entries@.take(entries.len() as int) == entries@);
    }
    Ok(out)
}

/// What taking the file `name` out of a configuration text gives: nothing
/// to write for a blank text (`Some(None)`), the new text otherwise, and
/// `None` where the text is not well-formed or the result cannot be
/// written out.
pub open spec fn config_without(text: Seq<char>, name: Seq<char>) -> Option<Option<Seq<char>>> {
    if is_blank_text(text) {
        Some(None)
    } else {
        match parsed_document(text) {
            Some(doc) => match rendered_document(removed(doc, name)) {
                Some(after) => Some(Some(after)),
                None => None,
            },
            None => None,
        }
    }
}

/// Takes the entries of the rule file `filename` out of the configuration
/// text and gives the new text, or `None` where the text is blank and
/// nothing is to be written. A document without the table `rules` or its
/// list `global`, or without an entry of that file, is no failure.
pub fn remove_from_codex_rules_config(config_text: &str, filename: &str) -> (r: Result<
    Option<String>,
    CatalogError,
>)
    ensures
        match config_without(config_text@, filename@) {
            Some(Some(after)) => r matches Ok(Some(t)) && t@ == after,
            Some(None) => r matches Ok(None),
            None => fails_with(r, CatalogError::Config),
        },
{
    if is_blank(config_text) {
        return Ok(None);
    }
    let mut doc = match parse_document(config_text) {
        Ok(doc) => doc,
        Err(_) => {
            return Err(CatalogError::Config);
        },
    };
    remove_rule(&mut doc, filename);
    match save_document(&doc) {
        Ok(text) => Ok(Some(text)),
        Err(e) => Err(e),
    }
}

/// Whether two lists hold the same texts in the same order.
pub fn same_texts(a: &Vec<String>, b: &Vec<String>) -> (r: bool)
    ensures
        r == (texts(a@) == texts(b@)),
{
    if a.len() != b.len() {
        assert(texts(a@).len() != texts(b@).len());
        return false;
    }
    let mut i: usize = 0;
    while i < a.len()
        invariant
            a.len() == b.len(),
            i <= a.len(),
            forall|j: int| 0 <= j < i ==> texts(a@)[j] == texts(b@)[j],
        decreases a.len() - i,
    {
        if !same_text(a[i].as_str(), b[i].as_str()) {
            assert(texts(a@)[i as int] != texts(b@)[i as int]);
            return false;
        }
        i = i + 1;
    }
    assert(texts(a@) =~= texts(b@));
    true
}

/// What entering a rule file gave.
#[derive(Clone, Debug, PartialEq, Eq)]
pub struct EnteredRule {
    /// The new configuration text.
    pub text: String,
    /// Whether the new text, read back, holds for the file's name the tags
    /// that were entered.
    pub confirmed: bool,
}

/// Enters the rule file `filename` of the directory `rules_dir` with `tags`
/// into the configuration text as `update_codex_rules_config` does, then
/// reads the rules of the new text back and says whether the tags found
/// for the file's name are the tags that were entered.
pub fn enter_rule_and_read_back(
    config_text: &str,
    rules_dir: &str,
    filename: &str,
    tags: Vec<String>,
) -> (r: Result<EnteredRule, CatalogError>)
    ensures
        match updated_config(config_text@, joined_path(rules_dir@, filename@), texts(tags@)) {
            Some(text) => r matches Ok(entered) && entered.text@ == text && entered.confirmed
                == holds_tags(text, filename@, texts(tags@)),
            None => fails_with(r, CatalogError::Config),
        },
{
    let text = match update_codex_rules_config(config_text, rules_dir, filename, copy_texts(&tags)) {
        Ok(text) => text,
        Err(e) => {
            return Err(e);
        },
    };
    let found = match read_codex_rules_config(text.as_str()) {
        Ok(rules) => tags_of(&rules, filename),
        Err(_) => empty_tags(),
    };
    let confirmed = same_texts(&found, &tags);
    Ok(EnteredRule { text, confirmed })
}

/// The directory of the rule files: `rules` in the configuration
/// directory.
pub fn get_codex_rules_dir(config_dir: &str) -> (r: Result<String, CatalogError>)
    ensures
        r matches Ok(dir) && dir@ == joined_path(config_dir@, "rules"@),
{
    Ok(join(config_dir, "rules"))
}

/// The path of the rule file `filename` in the directory `rules_dir`.
pub fn codex_rule_path(rules_dir: &str, filename: &str) -> (r: String)
    ensures
        r@ == joined_path(rules_dir@, filename@),
{
    join(rules_dir, filename)
}

/// The path of the global rules file of the per-project backend: the
/// file `file_name` in the override directory, or in the backend's
/// directory `home_part` of the home directory where no override is given.
/// `None` where neither is known.
pub open spec fn global_rules_path(
    home_part: Seq<char>,
    file_name: Seq<char>,
    override_dir: Option<Seq<char>>,
    home: Option<Seq<char>>,
) -> Option<Seq<char>> {
    match override_dir {
        Some(dir) => Some(joined_path(dir, file_name)),
        None => match home {
            Some(h) => Some(joined_path(joined_path(h, home_part), file_name)),
            None => None,
        },
    }
}

/// The path of the global rules file of the per-project backend, from the
/// override directory and the home directory as far as they are known.
pub fn resolve_claude_rules_path(
    home_part: &str,
    file_name: &str,
    override_dir: Option<&str>,
    home: Option<&str>,
) -> (r: Result<String, CatalogError>)
    ensures
        match global_rules_path(home_part@, file_name@, str_view(override_dir), str_view(home)) {
            Some(path) => r matches Ok(p) && p@ == path,
            None => fails_with(r, CatalogError::Environment),
        },
{
    match override_dir {
        Some(dir) => Ok(join(dir, file_name)),
        None => match home {
            Some(h) => {
                let base = join(h, home_part);
                Ok(join(base.as_str(), file_name))
            },
            None => Err(CatalogError::Environment),
        },
    }
}

/// The path of the global rules file of the per-project backend. Without
/// an override directory the home directory of the user is asked for, and
/// the call fails where there is none.
pub fn get_claude_rules_path(home_part: &str, file_name: &str, override_dir: Option<&str>) -> (r:
    Result<String, CatalogError>)
    ensures
        override_dir matches Some(o) ==> (r matches Ok(p) && p@ == joined_path(o@, file_name@)),
        override_dir is None ==> match r {
            Ok(p) => exists|h: Seq<char>| #[trigger]
                global_rules_path(home_part@, file_name@, None, Some(h)) == Some(p@),
            Err(e) => e == CatalogError::Environment,
        },
{
    match override_dir {
        Some(dir) => resolve_claude_rules_path(home_part, file_name, Some(dir), None),
        None => {
            let home = home_dir();
            match &home {
                Some(h) => resolve_claude_rules_path(home_part, file_name, None, Some(h.as_str())),
                None => resolve_claude_rules_path(home_part, file_name, None, None),
            }
        },
    }
}

} // verus!
