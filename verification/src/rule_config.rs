//! The rule entries of the configuration document: how they are found,
//! read, entered and taken out, and what holds of these steps.

use vstd::prelude::*;
use crate::document::{
    clone_table, clone_value, list_model, list_value, section_value, table_get, table_insert,
    table_model, table_new, text_value, value_as_array, value_as_str, value_as_table, value_model,
    Node,
};
use crate::error::{fails_with, CatalogError};
use crate::global_rules::{empty_tags, rule_views, CodexRuleConfig};
use crate::paths::{file_name, file_name_of};
use crate::text::{same_text, text_view, texts};

verus! {

/// An entry of the list `global` as a model: a path and tags.
pub struct RuleModel {
    pub path: Seq<char>,
    pub tags: Seq<Seq<char>>,
}

/// The path of an entry: the text under `path` of a table.
pub open spec fn entry_path(entry: Node) -> Option<Seq<char>> {
    match entry {
        Node::Section(t) => if t.contains_key("path"@) {
            match t["path"@] {
                Node::Text(p) => Some(p),
                _ => None,
            }
        } else {
            None
        },
        _ => None,
    }
}

/// Whether an entry belongs to the file name `key`: it has a path, and the
/// final component of that path is `key`.
pub open spec fn keyed_by(entry: Node, key: Option<Seq<char>>) -> bool {
    match entry_path(entry) {
        Some(p) => file_name_of(p) == key,
        None => false,
    }
}

/// The place of the first entry of `items` that belongs to `key`.
pub open spec fn first_keyed(items: Seq<Node>, key: Option<Seq<char>>) -> Option<int>
    decreases items.len(),
{
    if items.len() == 0 {
        None
    } else if keyed_by(items[0], key) {
        Some(0)
    } else {
        match first_keyed(items.drop_first(), key) {
            Some(i) => Some(i + 1),
            None => None,
        }
    }
}

/// The texts `tags` as values of the document.
pub open spec fn text_nodes(tags: Seq<Seq<char>>) -> Seq<Node> {
    tags.map_values(|t: Seq<char>| Node::Text(t))
}

/// The entry that is written for a rule file: its path, and its tags
/// unless there are none.
pub open spec fn rule_entry(path: Seq<char>, tags: Seq<Seq<char>>) -> Node {
    if tags.len() == 0 {
        Node::Section(Map::empty().insert("path"@, Node::Text(path)))
    } else {
        Node::Section(
            Map::empty().insert("path"@, Node::Text(path)).insert(
                "tags"@,
                Node::List(text_nodes(tags)),
            ),
        )
    }
}

/// `items` with `entry` in the place of the first entry that belongs to
/// `key`, or at the end if none does.
pub open spec fn upserted_items(items: Seq<Node>, key: Option<Seq<char>>, entry: Node) -> Seq<
    Node,
> {
    match first_keyed(items, key) {
        Some(i) => items.update(i, entry),
        None => items.push(entry),
    }
}

/// The table `rules` of a document: empty where the document has none,
/// `None` where it holds something else under that key.
pub open spec fn rules_table(doc: Map<Seq<char>, Node>) -> Option<Map<Seq<char>, Node>> {
    if doc.contains_key("rules"@) {
        match doc["rules"@] {
            Node::Section(r) => Some(r),
            _ => None,
        }
    } else {
        Some(Map::empty())
    }
}

/// The list `global` of the table `rules`: empty where the table has none,
/// `None` where it holds something else under that key.
pub open spec fn global_list(rules: Map<Seq<char>, Node>) -> Option<Seq<Node>> {
    if rules.contains_key("global"@) {
        match rules["global"@] {
            Node::List(g) => Some(g),
            _ => None,
        }
    } else {
        Some(Seq::empty())
    }
}

/// The document with the list `global` of its table `rules` set to `items`.
pub open spec fn with_global(
    doc: Map<Seq<char>, Node>,
    rules: Map<Seq<char>, Node>,
    items: Seq<Node>,
) -> Map<Seq<char>, Node> {
    doc.insert("rules"@, Node::Section(rules.insert("global"@, Node::List(items))))
}

/// The document after the rule file at `path` was entered with `tags`:
/// its entry takes the place of the first one of the same file name, or
/// comes last. `None` where `rules` is no table or `global` no list.
pub open spec fn upserted(doc: Map<Seq<char>, Node>, path: Seq<char>, tags: Seq<Seq<char>>)
    -> Option<Map<Seq<char>, Node>> {
    match rules_table(doc) {
        Some(rules) => match global_list(rules) {
            Some(items) => Some(
                with_global(
                    doc,
                    rules,
                    upserted_items(items, file_name_of(path), rule_entry(path, tags)),
                ),
            ),
            None => None,
        },
        None => None,
    }
}

proof fn lemma_first_keyed(items: Seq<Node>, key: Option<Seq<char>>, k: int)
    requires
        0 <= k <= items.len(),
        forall|j: int| 0 <= j < k ==> !keyed_by(#[trigger] items[j], key),
        k < items.len() ==> keyed_by(items[k], key),
    ensures
        first_keyed(items, key) == if k < items.len() {
            Some(k)
        } else {
            None
        },
    decreases items.len(),
{
    if k > 0 {
        let t = items.drop_first();
        assert forall|j: int| 0 <= j < k - 1 implies !keyed_by(#[trigger] t[j], key) by {
            assert(t[j] == items[j + 1]);
        }
        lemma_first_keyed(t, key, k - 1);
    }
}

/// The path of an entry of the list `global`.
fn path_of_entry(entry: &toml::Value) -> (r: Option<&str>)
    ensures
        r.is_some() == entry_path(value_model(*entry)).is_some(),
        r matches Some(p) ==> entry_path(value_model(*entry)) == Some(p@),
{
    match value_as_table(entry) {
        Some(t) => match table_get(t, "path") {
            Some(v) => value_as_str(v),
            None => None,
        },
        None => None,
    }
}

/// Whether two optional texts are the same.
fn same_name(a: &Option<String>, b: &Option<String>) -> (r: bool)
    ensures
        r == (text_view(*a) == text_view(*b)),
{
    match a {
        Some(x) => match b {
            Some(y) => same_text(x.as_str(), y.as_str()),
            None => false,
        },
        None => b.is_none(),
    }
}

/// Whether an entry of the list `global` belongs to the file name `key`.
fn belongs_to(entry: &toml::Value, key: &Option<String>) -> (r: bool)
    ensures
        r == keyed_by(value_model(*entry), text_view(*key)),
{
    match path_of_entry(entry) {
        Some(p) => {
            let name = file_name(p);
            same_name(&name, key)
        },
        None => false,
    }
}

/// The tags as values of the document.
fn tag_values(tags: &Vec<String>) -> (r: Vec<toml::Value>)
    ensures
        list_model(r@) == text_nodes(texts(tags@)),
{
    let mut out: Vec<toml::Value> = Vec::new();
    let mut i: usize = 0;
    while i < tags.len()
        invariant
            i <= tags.len(),
            list_model(out@) == text_nodes(texts(tags@.take(i as int))),
        decreases tags.len() - i,
    {
        let ghost before = out@;
        let v = text_value(tags[i].clone());
        out.push(v);
        proof {
            assert(tags@.take(i + 1) == tags@.take(i as int).push(tags@[i as int]));
            assert(list_model(before.push(v)) =~= list_model(before).push(value_model(v)));
            assert(text_nodes(texts(tags@.take(i as int).push(tags@[i as int]))) =~= text_nodes(
                texts(tags@.take(i as int)),
            ).push(Node::Text(tags@[i as int]@)));
        }
        i = i + 1;
    }
    proof {
        assert(tags@.take(tags.len() as int) == tags@);
    }
    out
}

/// The entry for the rule file at `path` with `tags`.
fn make_entry(path: &str, tags: &Vec<String>) -> (r: toml::Value)
    ensures
        value_model(r) == rule_entry(path@, texts(tags@)),
{
    let mut entry = table_new();
    table_insert(&mut entry, "path".to_owned(), text_value(path.to_owned()));
    if tags.len() > 0 {
        table_insert(&mut entry, "tags".to_owned(), list_value(tag_values(tags)));
    }
    section_value(entry)
}

/// The place of the first entry of `items` that belongs to `key`.
fn find_entry(items: &Vec<toml::Value>, key: &Option<String>) -> (r: Option<usize>)
    ensures
        match r {
            Some(i) => i < items.len() && first_keyed(
                list_model(items@),
                text_view(*key),
            ) == Some(i as int),
            None => first_keyed(list_model(items@), text_view(*key)) is None,
        },
{
    let mut i: usize = 0;
    while i < items.len()
        invariant
            i <= items.len(),
            forall|j: int|
                0 <= j < i ==> !keyed_by(
                    #[trigger] list_model(items@)[j],
                    text_view(*key),
                ),
        decreases items.len() - i,
    {
        if belongs_to(&items[i], key) {
            proof {
                lemma_first_keyed(
                    list_model(items@),
                    text_view(*key),
                    i as int,
                );
            }
            return Some(i);
        }
        i = i + 1;
    }
    proof {
        lemma_first_keyed(list_model(items@), text_view(*key), i as int);
    }
    None
}

/// A copy of `items` with `entry` in the place `at`, or at the end where
/// `at` is `None`.
fn with_entry(items: &Vec<toml::Value>, at: Option<usize>, entry: toml::Value) -> (r: Vec<
    toml::Value,
>)
    requires
        at matches Some(i) ==> i < items.len(),
    ensures
        list_model(r@) == match at {
            Some(i) => list_model(items@).update(i as int, value_model(entry)),
            None => list_model(items@).push(value_model(entry)),
        },
{
    let mut out: Vec<toml::Value> = Vec::new();
    let mut i: usize = 0;
    while i < items.len()
        invariant
            i <= items.len(),
            at matches Some(k) ==> k < items.len(),
            out.len() == i,
            forall|j: int|
                0 <= j < i ==> #[trigger] list_model(out@)[j] == if at == Some(j as usize) {
                    value_model(entry)
                } else {
                    list_model(items@)[j]
                },
        decreases items.len() - i,
    {
        let ghost before = out@;
        let v = if at == Some(i) {
            clone_value(&entry)
        } else {
            clone_value(&items[i])
        };
        out.push(v);
        proof {
            assert(list_model(before.push(v)) =~= list_model(before).push(value_model(v)));
        }
        i = i + 1;
    }
    match at {
        Some(k) => {
            proof {
                assert(list_model(out@) =~= list_model(items@).update(
                    k as int,
                    value_model(entry),
                ));
            }
        },
        None => {
            let ghost before = out@;
            out.push(entry);
            proof {
                assert(list_model(before) =~= list_model(items@));
                assert(list_model(before.push(entry)) =~= list_model(before).push(
                    value_model(entry),
                ));
            }
        },
    }
    out
}

/// Enters the rule file at `rule_path` with `tags` into the document. The
/// table `rules` and its list `global` are made where they are missing;
/// the rest of the document stays as it is. Fails, and leaves the document
/// alone, where `rules` is no table or `global` no list.
pub fn upsert_rule(doc: &mut toml::Table, rule_path: &str, tags: &Vec<String>) -> (r: Result<
    (),
    CatalogError,
>)
    ensures
        match upserted(table_model(*old(doc)), rule_path@, texts(tags@)) {
            Some(after) => r is Ok && table_model(*final(doc)) == after,
            None => fails_with(r, CatalogError::Config) && table_model(*final(doc)) == table_model(
                *old(doc),
            ),
        },
{
    let mut rules = match table_get(doc, "rules") {
        Some(v) => match value_as_table(v) {
            Some(t) => clone_table(t),
            None => {
                return Err(CatalogError::Config);
            },
        },
        None => table_new(),
    };
    let key = file_name(rule_path);
    let entry = make_entry(rule_path, tags);
    let items = match table_get(&rules, "global") {
        Some(v) => match value_as_array(v) {
            Some(items) => {
                let at = find_entry(items, &key);
                with_entry(items, at, entry)
            },
            None => {
                return Err(CatalogError::Config);
            },
        },
        None => {
            let mut items: Vec<toml::Value> = Vec::new();
            proof {
                assert(list_model(items@) =~= Seq::<Node>::empty());
            }
            let ghost before = items@;
            items.push(entry);
            proof {
                assert(list_model(before.push(entry)) =~= list_model(before).push(
                    value_model(entry),
                ));
            }
            items
        },
    };
    table_insert(&mut rules, "global".to_owned(), list_value(items));
    table_insert(doc, "rules".to_owned(), section_value(rules));
    Ok(())
}

/// The texts among `items`, in order; what is no text is passed over.
pub open spec fn texts_in(items: Seq<Node>) -> Seq<Seq<char>>
    decreases items.len(),
{
    if items.len() == 0 {
        Seq::empty()
    } else {
        texts_in(items.drop_last()) + match items.last() {
            Node::Text(t) => seq![t],
            _ => Seq::empty(),
        }
    }
}

/// The tags of an entry: the texts of the list under `tags`, and none
/// where the entry has no such list.
pub open spec fn entry_tags(entry: Node) -> Seq<Seq<char>> {
    match entry {
        Node::Section(t) => if t.contains_key("tags"@) {
            match t["tags"@] {
                Node::List(items) => texts_in(items),
                _ => Seq::empty(),
            }
        } else {
            Seq::empty()
        },
        _ => Seq::empty(),
    }
}

/// The rule that an entry of the list `global` stands for; `None` where
/// the entry is no table or has no text under `path`.
pub open spec fn listed_rule(entry: Node) -> Option<RuleModel> {
    match entry_path(entry) {
        Some(p) => Some(RuleModel { path: p, tags: entry_tags(entry) }),
        None => None,
    }
}

/// The rules that the entries `items` stand for, in order; `None` where
/// one of them stands for none.
pub open spec fn listed_items(items: Seq<Node>) -> Option<Seq<RuleModel>>
    decreases items.len(),
{
    if items.len() == 0 {
        Some(Seq::empty())
    } else {
        match listed_items(items.drop_last()) {
            Some(front) => match listed_rule(items.last()) {
                Some(rule) => Some(front.push(rule)),
                None => None,
            },
            None => None,
        }
    }
}

/// The rules of a document: those of the list `global` of its table
/// `rules`. `None` where the document has no such table or the table no
/// such list, or where an entry of the list stands for no rule.
pub open spec fn listed_rules(doc: Map<Seq<char>, Node>) -> Option<Seq<RuleModel>> {
    if doc.contains_key("rules"@) {
        match doc["rules"@] {
            Node::Section(rules) => if rules.contains_key("global"@) {
                match rules["global"@] {
                    Node::List(items) => listed_items(items),
                    _ => None,
                }
            } else {
                None
            },
            _ => None,
        }
    } else {
        None
    }
}

/// The texts among the values `items`.
fn collect_texts(items: &Vec<toml::Value>) -> (r: Vec<String>)
    ensures
        texts(r@) == texts_in(list_model(items@)),
{
    let mut out: Vec<String> = Vec::new();
    let mut i: usize = 0;
    proof {
        assert(texts(out@) =~= texts_in(list_model(items@.take(0))));
    }
    while i < items.len()
        invariant
            i <= items.len(),
            texts(out@) == texts_in(list_model(items@.take(i as int))),
        decreases items.len() - i,
    {
        let ghost before = out@;
        proof {
            assert(list_model(items@.take(i + 1)).drop_last() =~= list_model(
                items@.take(i as int),
            ));
            assert(list_model(items@.take(i + 1)).last() == value_model(items@[i as int]));
        }
        match value_as_str(&items[i]) {
            Some(t) => {
                let tag = t.to_owned();
                out.push(tag);
                proof {
                    assert(texts(before.push(tag)) =~= texts(before).push(tag@));
                }
            },
            None => {},
        }
        proof {
            assert(texts(out@) =~= texts_in(list_model(items@.take(i + 1))));
        }
        i = i + 1;
    }
    proof {
        assert(items@.take(items.len() as int) == items@);
    }
    out
}

/// The rule that an entry of the list `global` stands for.
fn rule_of_entry(entry: &toml::Value) -> (r: Option<CodexRuleConfig>)
    ensures
        r.is_some() == listed_rule(value_model(*entry)).is_some(),
        r matches Some(rule) ==> listed_rule(value_model(*entry)) == Some(rule@),
{
    let table = match value_as_table(entry) {
        Some(t) => t,
        None => {
            return None;
        },
    };
    let path = match table_get(table, "path") {
        Some(v) => match value_as_str(v) {
            Some(p) => p.to_owned(),
            None => {
                return None;
            },
        },
        None => {
            return None;
        },
    };
    let tags = match table_get(table, "tags") {
        Some(v) => match value_as_array(v) {
            Some(items) => collect_texts(items),
            None => empty_tags(),
        },
        None => empty_tags(),
    };
    Some(CodexRuleConfig { path, tags })
}

/// The rules that a document holds, in the order of the list `global` of
/// its table `rules`. Fails where the document has no such table or list,
/// or where an entry of the list is no table with a text under `path`.
pub fn rules_of(doc: &toml::Table) -> (r: Result<Vec<CodexRuleConfig>, CatalogError>)
    ensures
        match listed_rules(table_model(*doc)) {
            Some(rules) => r matches Ok(list) && rule_views(list@) == rules,
            None => fails_with(r, CatalogError::Config),
        },
{
    let rules = match table_get(doc, "rules") {
        Some(v) => match value_as_table(v) {
            Some(t) => t,
            None => {
                return Err(CatalogError::Config);
            },
        },
        None => {
            return Err(CatalogError::Config);
        },
    };
    let items = match table_get(rules, "global") {
        Some(v) => match value_as_array(v) {
            Some(items) => items,
            None => {
                return Err(CatalogError::Config);
            },
        },
        None => {
            return Err(CatalogError::Config);
        },
    };
    let mut out: Vec<CodexRuleConfig> = Vec::new();
    let mut i: usize = 0;
    proof {
        assert(rule_views(out@) =~= Seq::empty());
        assert(list_model(items@).take(0) =~= Seq::empty());
    }
    while i < items.len()
        invariant
            i <= items.len(),
            listed_rules(table_model(*doc)) == listed_items(list_model(items@)),
            listed_items(list_model(items@).take(i as int)) == Some(rule_views(out@)),
        decreases items.len() - i,
    {
        let ghost before = out@;
        let ghost all = list_model(items@);
        proof {
            assert(all.take(i + 1).drop_last() =~= all.take(i as int));
            assert(all.take(i + 1).last() == value_model(items@[i as int]));
        }
        match rule_of_entry(&items[i]) {
            Some(rule) => {
                out.push(rule);
                proof {
                    assert(rule_views(before.push(rule)) =~= rule_views(before).push(rule@));
                }
            },
            None => {
                proof {
                    lemma_listed_items_prefix(all, i + 1);
                }
                return Err(CatalogError::Config);
            },
        }
        i = i + 1;
    }
    proof {
        assert(list_model(items@).take(items.len() as int) =~= list_model(items@));
    }
    Ok(out)
}

/// Where the first entries of a list stand for no rules, the whole list
/// stands for none.
proof fn lemma_listed_items_prefix(items: Seq<Node>, n: int)
    requires
        0 <= n <= items.len(),
        listed_items(items.take(n)) is None,
    ensures
        listed_items(items) is None,
    decreases items.len(),
{
    if n < items.len() {
        assert(items.drop_last().take(n) =~= items.take(n));
        lemma_listed_items_prefix(items.drop_last(), n);
    } else {
        assert(items.take(n) =~= items);
    }
}

/// The tags that `rules` hold for the file `name`: those of the first rule
/// whose path ends in that name, and none where there is no such rule.
pub open spec fn tags_for(rules: Seq<RuleModel>, name: Seq<char>) -> Seq<Seq<char>>
    decreases rules.len(),
{
    if rules.len() == 0 {
        Seq::empty()
    } else if file_name_of(rules[0].path) == Some(name) {
        rules[0].tags
    } else {
        tags_for(rules.drop_first(), name)
    }
}

/// `items` without the entries that belong to the file `name`.
pub open spec fn without_key(items: Seq<Node>, name: Seq<char>) -> Seq<Node>
    decreases items.len(),
{
    if items.len() == 0 {
        Seq::empty()
    } else if keyed_by(items.last(), Some(name)) {
        without_key(items.drop_last(), name)
    } else {
        without_key(items.drop_last(), name).push(items.last())
    }
}

/// The document without the entries of the file `name`. A document whose
/// `rules` is no table, or whose `global` is no list, stays as it is.
pub open spec fn removed(doc: Map<Seq<char>, Node>, name: Seq<char>) -> Map<Seq<char>, Node> {
    if doc.contains_key("rules"@) {
        match doc["rules"@] {
            Node::Section(rules) => if rules.contains_key("global"@) {
                match rules["global"@] {
                    Node::List(items) => with_global(doc, rules, without_key(items, name)),
                    _ => doc,
                }
            } else {
                doc
            },
            _ => doc,
        }
    } else {
        doc
    }
}

/// A copy of `items` without the entries that belong to the file `name`.
fn without_entries(items: &Vec<toml::Value>, name: &str) -> (r: Vec<toml::Value>)
    ensures
        list_model(r@) == without_key(list_model(items@), name@),
{
    let key = Some(name.to_owned());
    let mut out: Vec<toml::Value> = Vec::new();
    let mut i: usize = 0;
    proof {
        assert(list_model(out@) =~= without_key(list_model(items@).take(0), name@));
    }
    while i < items.len()
        invariant
            i <= items.len(),
            text_view(key) == Some(name@),
            list_model(out@) == without_key(list_model(items@).take(i as int), name@),
        decreases items.len() - i,
    {
        let ghost before = out@;
        let ghost all = list_model(items@);
        proof {
            assert(all.take(i + 1).drop_last() =~= all.take(i as int));
            assert(all.take(i + 1).last() == value_model(items@[i as int]));
        }
        if !belongs_to(&items[i], &key) {
            let v = clone_value(&items[i]);
            out.push(v);
            proof {
                assert(list_model(before.push(v)) =~= list_model(before).push(value_model(v)));
            }
        }
        i = i + 1;
    }
    proof {
        assert(list_model(items@).take(items.len() as int) =~= list_model(items@));
    }
    out
}

/// Takes the entries of the rule file `filename` out of the document. The
/// rest of the document stays as it is.
pub fn remove_rule(doc: &mut toml::Table, filename: &str)
    ensures
        table_model(*final(doc)) == removed(table_model(*old(doc)), filename@),
{
    let mut rules = match table_get(doc, "rules") {
        Some(v) => match value_as_table(v) {
            Some(t) => clone_table(t),
            None => {
                return ;
            },
        },
        None => {
            return ;
        },
    };
    let kept = match table_get(&rules, "global") {
        Some(v) => match value_as_array(v) {
            Some(items) => without_entries(items, filename),
            None => {
                return ;
            },
        },
        None => {
            return ;
        },
    };
    table_insert(&mut rules, "global".to_owned(), list_value(kept));
    table_insert(doc, "rules".to_owned(), section_value(rules));
}

/// What `first_keyed` finds is the first entry that belongs to the key.
proof fn lemma_first_keyed_is_first(items: Seq<Node>, key: Option<Seq<char>>)
    ensures
        match first_keyed(items, key) {
            Some(i) => 0 <= i < items.len() && keyed_by(items[i], key) && forall|j: int|
                0 <= j < i ==> !keyed_by(#[trigger] items[j], key),
            None => forall|j: int| 0 <= j < items.len() ==> !keyed_by(#[trigger] items[j], key),
        },
    decreases items.len(),
{
    if items.len() > 0 && !keyed_by(items[0], key) {
        let t = items.drop_first();
        lemma_first_keyed_is_first(t, key);
        match first_keyed(t, key) {
            Some(i) => {
                assert(t[i] == items[i + 1]);
                assert forall|j: int| 0 <= j < i + 1 implies !keyed_by(
                    #[trigger] items[j],
                    key,
                ) by {
                    if j > 0 {
                        assert(items[j] == t[j - 1]);
                    }
                }
            },
            None => {
                assert forall|j: int| 0 <= j < items.len() implies !keyed_by(
                    #[trigger] items[j],
                    key,
                ) by {
                    if j > 0 {
                        assert(items[j] == t[j - 1]);
                    }
                }
            },
        }
    }
}

/// The rules that a list stands for are those of its entries, one by one.
proof fn lemma_listed_items(items: Seq<Node>)
    requires
        listed_items(items) is Some,
    ensures
        listed_items(items)->0.len() == items.len(),
        forall|j: int|
            0 <= j < items.len() ==> listed_rule(#[trigger] items[j]) == Some(
                listed_items(items)->0[j],
            ),
    decreases items.len(),
{
    if items.len() > 0 {
        let front = items.drop_last();
        lemma_listed_items(front);
        assert forall|j: int| 0 <= j < items.len() implies listed_rule(#[trigger] items[j])
            == Some(listed_items(items)->0[j]) by {
            if j < items.len() - 1 {
                assert(items[j] == front[j]);
            }
        }
    }
}

/// The tags for a name are those of the first rule whose path ends in it.
proof fn lemma_tags_for(rules: Seq<RuleModel>, name: Seq<char>, k: int)
    requires
        0 <= k < rules.len(),
        file_name_of(rules[k].path) == Some(name),
        forall|j: int| 0 <= j < k ==> file_name_of(#[trigger] rules[j].path) != Some(name),
    ensures
        tags_for(rules, name) == rules[k].tags,
    decreases rules.len(),
{
    if k > 0 {
        let t = rules.drop_first();
        assert forall|j: int| 0 <= j < k - 1 implies file_name_of(#[trigger] t[j].path) != Some(
            name,
        ) by {
            assert(t[j] == rules[j + 1]);
        }
        assert(file_name_of(rules[0].path) != Some(name));
        lemma_tags_for(t, name, k - 1);
    }
}

/// Texts that were made values of the document are read back as they were.
proof fn lemma_texts_in_text_nodes(tags: Seq<Seq<char>>)
    ensures
        texts_in(text_nodes(tags)) == tags,
    decreases tags.len(),
{
    if tags.len() > 0 {
        lemma_texts_in_text_nodes(tags.drop_last());
        assert(text_nodes(tags).drop_last() =~= text_nodes(tags.drop_last()));
        assert(texts_in(text_nodes(tags)) =~= tags);
    } else {
        assert(texts_in(text_nodes(tags)) =~= tags);
    }
}

/// The entry that is written for a rule file holds its path and its tags,
/// and has nothing under `tags` where there are no tags.
proof fn lemma_rule_entry(path: Seq<char>, tags: Seq<Seq<char>>)
    ensures
        entry_path(rule_entry(path, tags)) == Some(path),
        entry_tags(rule_entry(path, tags)) == tags,
        tags.len() == 0 ==> (rule_entry(path, tags) matches Node::Section(t) && !t.contains_key(
            "tags"@,
        )),
{
    reveal_strlit("path");
    reveal_strlit("tags");
    assert("path"@ != "tags"@) by {
        assert("path"@[0] == 'p');
        assert("tags"@[0] == 't');
    }
    lemma_texts_in_text_nodes(tags);
    if tags.len() == 0 {
        assert(entry_tags(rule_entry(path, tags)) =~= tags);
    }
}

/// A rule file that was entered with tags is listed with those tags: in
/// the rules of the document after the entry, the tags for the file's name
/// are the ones it was entered with. This holds where the path ends in the
/// name, and where the document after the entry can be listed at all.
pub proof fn law_entered_tags_are_listed(
    doc: Map<Seq<char>, Node>,
    path: Seq<char>,
    name: Seq<char>,
    tags: Seq<Seq<char>>,
)
    requires
        file_name_of(path) == Some(name),
        upserted(doc, path, tags) is Some,
        listed_rules(upserted(doc, path, tags)->0) is Some,
    ensures
        tags_for(listed_rules(upserted(doc, path, tags)->0)->0, name) == tags,
{
    let rules = rules_table(doc)->0;
    let items = global_list(rules)->0;
    let key = Some(name);
    let entry = rule_entry(path, tags);
    let after_items = upserted_items(items, key, entry);
    let after = upserted(doc, path, tags)->0;
    assert(after == with_global(doc, rules, after_items));
    assert(after["rules"@] == Node::Section(rules.insert("global"@, Node::List(after_items))));
    assert(listed_rules(after) == listed_items(after_items));
    let listed = listed_items(after_items)->0;
    lemma_listed_items(after_items);
    lemma_first_keyed_is_first(items, key);
    lemma_rule_entry(path, tags);
    let k = match first_keyed(items, key) {
        Some(i) => i,
        None => items.len() as int,
    };
    assert(after_items[k] == entry);
    assert(listed_rule(after_items[k]) == Some(listed[k]));
    assert forall|j: int| 0 <= j < k implies file_name_of(#[trigger] listed[j].path) != Some(
        name,
    ) by {
        assert(after_items[j] == items[j]);
        assert(listed_rule(after_items[j]) == Some(listed[j]));
        assert(!keyed_by(items[j], key));
    }
    lemma_tags_for(listed, name, k);
}

/// A rule file that is entered without tags gets an entry that holds
/// nothing under `tags`: after the entry, the list `global` holds at some
/// place a table with the file's path and without that key.
pub proof fn law_no_tags_no_field(doc: Map<Seq<char>, Node>, path: Seq<char>)
    requires
        upserted(doc, path, Seq::empty()) is Some,
    ensures
        ({
            let after = upserted(doc, path, Seq::empty())->0;
            &&& rules_table(after) is Some
            &&& global_list(rules_table(after)->0) is Some
            &&& exists|i: int|
                0 <= i < global_list(rules_table(after)->0)->0.len() && (
                #[trigger] global_list(rules_table(after)->0)->0[i] matches Node::Section(t)
                    && t.contains_key("path"@) && t["path"@] == Node::Text(path)
                    && !t.contains_key("tags"@))
        }),
{
    let rules = rules_table(doc)->0;
    let items = global_list(rules)->0;
    let key = file_name_of(path);
    let entry = rule_entry(path, Seq::empty());
    let after_items = upserted_items(items, key, entry);
    let after = upserted(doc, path, Seq::empty())->0;
    assert(after == with_global(doc, rules, after_items));
    assert(after["rules"@] == Node::Section(rules.insert("global"@, Node::List(after_items))));
    assert(global_list(rules_table(after)->0)->0 == after_items);
    lemma_first_keyed_is_first(items, key);
    lemma_rule_entry(path, Seq::empty());
    let k = match first_keyed(items, key) {
        Some(i) => i,
        None => items.len() as int,
    };
    assert(after_items[k] == entry);
}

/// Entering a rule file changes nothing of the document outside the table
/// `rules`, and nothing of that table outside its list `global`.
pub proof fn law_entry_keeps_other_sections(
    doc: Map<Seq<char>, Node>,
    path: Seq<char>,
    tags: Seq<Seq<char>>,
    key: Seq<char>,
)
    requires
        upserted(doc, path, tags) is Some,
    ensures
        key != "rules"@ ==> upserted(doc, path, tags)->0.contains_key(key) == doc.contains_key(key),
        key != "rules"@ && doc.contains_key(key) ==> upserted(doc, path, tags)->0[key] == doc[key],
        key != "global"@ ==> rules_table(upserted(doc, path, tags)->0)->0.contains_key(key)
            == rules_table(doc)->0.contains_key(key),
        key != "global"@ && rules_table(doc)->0.contains_key(key) ==> rules_table(
            upserted(doc, path, tags)->0,
        )->0[key] == rules_table(doc)->0[key],
{
}

/// Taking a rule file out changes nothing of the document outside the
/// table `rules`, and nothing of that table outside its list `global`.
pub proof fn law_removal_keeps_other_sections(
    doc: Map<Seq<char>, Node>,
    name: Seq<char>,
    key: Seq<char>,
)
    ensures
        key != "rules"@ ==> removed(doc, name).contains_key(key) == doc.contains_key(key),
        key != "rules"@ && doc.contains_key(key) ==> removed(doc, name)[key] == doc[key],
        rules_table(removed(doc, name)) is Some == rules_table(doc) is Some,
        key != "global"@ && rules_table(doc) is Some ==> rules_table(
            removed(doc, name),
        )->0.contains_key(key) == rules_table(doc)->0.contains_key(key),
        key != "global"@ && rules_table(doc) is Some && rules_table(doc)->0.contains_key(key)
            ==> rules_table(removed(doc, name))->0[key] == rules_table(doc)->0[key],
{
}

/// Entering a rule file and taking one out again changes nothing of the
/// document outside the table `rules`.
pub proof fn law_cycle_keeps_other_sections(
    doc: Map<Seq<char>, Node>,
    path: Seq<char>,
    tags: Seq<Seq<char>>,
    name: Seq<char>,
    key: Seq<char>,
)
    requires
        upserted(doc, path, tags) is Some,
        key != "rules"@,
    ensures
        removed(upserted(doc, path, tags)->0, name).contains_key(key) == doc.contains_key(key),
        doc.contains_key(key) ==> removed(upserted(doc, path, tags)->0, name)[key] == doc[key],
{
    law_entry_keeps_other_sections(doc, path, tags, key);
    law_removal_keeps_other_sections(upserted(doc, path, tags)->0, name, key);
}

/// After a rule file was taken out, no entry of the list `global` belongs
/// to its name.
pub proof fn law_removed_is_gone(items: Seq<Node>, name: Seq<char>, i: int)
    requires
        0 <= i < without_key(items, name).len(),
    ensures
        !keyed_by(without_key(items, name)[i], Some(name)),
    decreases items.len(),
{
    if items.len() > 0 {
        let front = without_key(items.drop_last(), name);
        if i < front.len() {
            law_removed_is_gone(items.drop_last(), name, i);
        }
    }
}

} // verus!
