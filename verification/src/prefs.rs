//! chromium's Preferences file: the client sets a few preferences of its own in whatever the file
//! already holds, creating the objects on the way and leaving everything else as it was.
use crate::flags::texts;
use crate::json::{
    canonical_json, is_json_text, json_canonical, json_object_entries, json_parses, json_quote, json_string_literal, object_entries,
    pair_views,
};
use crate::text::{
    chars_of, contains, find, first_at, lemma_find_is_first, lemma_find_none, occurs_at, split_all, split_all_exec, string_from, views,
};
use vstd::prelude::*;

verus! {

broadcast use vstd::string::group_string_axioms;

/// A value of the Preferences file as the client reads it: an object with its entries in order,
/// or any other JSON value, kept as its JSON text.
#[derive(PartialEq, Eq, Debug)]
pub enum PrefValue {
    Object(Vec<(String, PrefValue)>),
    Other(String),
}

/// What a `PrefValue` stands for: an object's entries with their keys as character sequences, or
/// the text of any other value.
#[verifier::ext_equal]
pub enum PrefTree {
    Object(Seq<(Seq<char>, PrefTree)>),
    Other(Seq<char>),
}

/// The tree a value stands for.
pub open spec fn tree_of(value: PrefValue) -> PrefTree
    decreases value,
{
    match value {
        PrefValue::Object(entries) => PrefTree::Object(entry_trees(entries@)),
        PrefValue::Other(text) => PrefTree::Other(text@),
    }
}

/// The entries of an object, each key and value by what it stands for.
pub open spec fn entry_trees(entries: Seq<(String, PrefValue)>) -> Seq<(Seq<char>, PrefTree)>
    decreases entries,
{
    if entries.len() == 0 {
        Seq::empty()
    } else {
        let last = entries.last();
        entry_trees(entries.drop_last()).push((last.0@, tree_of(last.1)))
    }
}

/// `entry_trees` entry by entry.
pub proof fn lemma_entry_trees(entries: Seq<(String, PrefValue)>)
    ensures
        entry_trees(entries).len() == entries.len(),
        forall|i: int|
            0 <= i < entries.len() ==> #[trigger] entry_trees(entries)[i] == (entries[i].0@, tree_of(entries[i].1)),
    decreases entries.len(),
{
    if entries.len() > 0 {
        lemma_entry_trees(entries.drop_last());
    }
}

/// The keys of a dotted preference name ("profile.exit_type" is `profile`, then `exit_type`).
pub open spec fn pref_keys(name: Seq<char>) -> Seq<Seq<char>> {
    split_all(name, "."@)
}

/// The keys of a dotted preference name (see `pref_keys`).
pub fn pref_path(name: &str) -> (keys: Vec<String>)
    ensures
        keys@.map_values(|k: String| k@) == pref_keys(name@),
{
    let dot = chars_of(".");
    proof {
        reveal_strlit(".");
    }
    let pieces = split_all_exec(&chars_of(name), &dot);
    let ghost all = views(pieces@);
    let mut keys: Vec<String> = Vec::new();
    let mut i: usize = 0;
    while i < pieces.len()
        invariant
            all == views(pieces@),
            all == split_all(name@, "."@),
            i <= pieces.len(),
            keys@.map_values(|k: String| k@) == all.take(i as int),
        decreases pieces.len() - i,
    {
        let ghost before = keys@.map_values(|k: String| k@);
        keys.push(string_from(&pieces[i]));
        assert(keys@.map_values(|k: String| k@) =~= before.push(all[i as int]));
        assert(all.take(i + 1) =~= all.take(i as int).push(all[i as int]));
        i = i + 1;
    }
    assert(all.take(i as int) =~= all);
    keys
}

impl View for PrefValue {
    type V = PrefTree;

    open spec fn view(&self) -> PrefTree {
        tree_of(*self)
    }
}

// ---------------------------------------------------------------------------------------------
// Reading and setting a preference in the tree
// ---------------------------------------------------------------------------------------------

/// The entries of a tree: an object's, none for any other value.
pub open spec fn entries_of(tree: PrefTree) -> Seq<(Seq<char>, PrefTree)> {
    match tree {
        PrefTree::Object(entries) => entries,
        PrefTree::Other(_) => Seq::empty(),
    }
}

/// The key `key` first occurs among `entries` at `i`.
pub open spec fn key_first_at(entries: Seq<(Seq<char>, PrefTree)>, key: Seq<char>, i: int) -> bool {
    &&& 0 <= i < entries.len()
    &&& entries[i].0 == key
    &&& forall|j: int| 0 <= j < i ==> entries[j].0 != key
}

/// Where the key `key` first occurs among `entries`, if it does.
pub open spec fn key_index(entries: Seq<(Seq<char>, PrefTree)>, key: Seq<char>) -> Option<int> {
    if exists|i: int| key_first_at(entries, key, i) {
        Some(choose|i: int| key_first_at(entries, key, i))
    } else {
        None
    }
}

/// JSON's `null`: what a key the client adds holds until something is set in it.
pub open spec fn null_tree() -> PrefTree {
    PrefTree::Other("null"@)
}

/// `tree` with `value` set at the path `keys`: each key is looked up in the object on the way (a
/// value that is no object counts as an empty one and is replaced by an object); a key that is
/// missing is added at the end of its object.
pub open spec fn set_tree(tree: PrefTree, keys: Seq<Seq<char>>, value: PrefTree) -> PrefTree
    decreases keys.len(),
{
    if keys.len() == 0 {
        value
    } else {
        let entries = entries_of(tree);
        let key = keys[0];
        match key_index(entries, key) {
            Some(i) => PrefTree::Object(entries.update(i, (key, set_tree(entries[i].1, keys.drop_first(), value)))),
            None => PrefTree::Object(entries.push((key, set_tree(null_tree(), keys.drop_first(), value)))),
        }
    }
}

/// The value at the path `keys` of `tree`, if there is one.
pub open spec fn get_tree(tree: PrefTree, keys: Seq<Seq<char>>) -> Option<PrefTree>
    decreases keys.len(),
{
    if keys.len() == 0 {
        Some(tree)
    } else {
        match tree {
            PrefTree::Object(entries) => match key_index(entries, keys[0]) {
                Some(i) => get_tree(entries[i].1, keys.drop_first()),
                None => None,
            },
            PrefTree::Other(_) => None,
        }
    }
}

proof fn lemma_key_index_at(entries: Seq<(Seq<char>, PrefTree)>, key: Seq<char>, i: int)
    requires
        key_first_at(entries, key, i),
    ensures
        key_index(entries, key) == Some(i),
{
    let found = choose|j: int| key_first_at(entries, key, j);
    assert(key_first_at(entries, key, found));
    if found < i {
        assert(entries[found].0 != key);
    } else if found > i {
        assert(entries[i].0 != key);
    }
}

/// A key that occurs somewhere has a first occurrence.
proof fn lemma_key_occurs(entries: Seq<(Seq<char>, PrefTree)>, key: Seq<char>, j: int)
    requires
        0 <= j < entries.len(),
        entries[j].0 == key,
    ensures
        key_index(entries, key) is Some,
    decreases j,
{
    if exists|k: int| 0 <= k < j && entries[k].0 == key {
        let k = choose|k: int| 0 <= k < j && entries[k].0 == key;
        lemma_key_occurs(entries, key, k);
    } else {
        assert(key_first_at(entries, key, j));
    }
}

/// Where a key is found after `set_tree` changed or added the entry of `key`: the entries keep
/// their keys, and an added one comes last.
proof fn lemma_key_index_after_set(
    entries: Seq<(Seq<char>, PrefTree)>,
    key: Seq<char>,
    child: PrefTree,
    other: Seq<char>,
)
    ensures
        ({
            let changed = match key_index(entries, key) {
                Some(i) => entries.update(i, (key, child)),
                None => entries.push((key, child)),
            };
            let at = match key_index(entries, key) {
                Some(i) => i,
                None => entries.len() as int,
            };
            &&& key_index(changed, key) == Some(at)
            &&& other != key ==> key_index(changed, other) == key_index(entries, other)
        }),
{
    let changed = match key_index(entries, key) {
        Some(i) => entries.update(i, (key, child)),
        None => entries.push((key, child)),
    };
    match key_index(entries, key) {
        Some(i) => {
            assert(key_first_at(entries, key, i));
            assert(key_first_at(changed, key, i));
            lemma_key_index_at(changed, key, i);
        },
        None => {
            assert forall|j: int| 0 <= j < entries.len() implies entries[j].0 != key by {
                if entries[j].0 == key {
                    lemma_key_occurs(entries, key, j);
                }
            }
            assert(key_first_at(changed, key, entries.len() as int));
            lemma_key_index_at(changed, key, entries.len() as int);
        },
    }
    if other != key {
        match key_index(entries, other) {
            Some(i) => {
                assert(key_first_at(entries, other, i));
                assert(key_first_at(changed, other, i));
                lemma_key_index_at(changed, other, i);
            },
            None => {
                if exists|i: int| key_first_at(changed, other, i) {
                    let i = choose|i: int| key_first_at(changed, other, i);
                    assert(changed[i].0 == other);
                    assert(i < entries.len());
                    assert(entries[i].0 == other);
                    lemma_key_occurs(entries, other, i);
                }
            },
        }
    }
}

/// Where `key` first occurs among the entries.
fn find_key(entries: &Vec<(String, PrefValue)>, key: &String) -> (res: Option<usize>)
    ensures
        match res {
            Some(i) => key_index(entry_trees(entries@), key@) == Some(i as int),
            None => key_index(entry_trees(entries@), key@) is None,
        },
{
    let ghost trees = entry_trees(entries@);
    proof {
        lemma_entry_trees(entries@);
    }
    let mut i: usize = 0;
    while i < entries.len()
        invariant
            trees == entry_trees(entries@),
            trees.len() == entries@.len(),
            forall|k: int| 0 <= k < entries@.len() ==> #[trigger] trees[k] == (entries@[k].0@, tree_of(entries@[k].1)),
            i <= entries.len(),
            forall|j: int| 0 <= j < i ==> trees[j].0 != key@,
        decreases entries.len() - i,
    {
        if entries[i].0 == *key {
            proof {
                assert(trees[i as int].0 == key@);
                lemma_key_index_at(trees, key@, i as int);
            }
            return Some(i);
        }
        assert(trees[i as int].0 != key@);
        i = i + 1;
    }
    proof {
        assert forall|j: int| !key_first_at(trees, key@, j) by {
            if 0 <= j < trees.len() {
                assert(trees[j].0 != key@);
            }
        }
    }
    None
}

/// `node` with `value` set at the path `keys[from..]` (see `set_tree`).
fn set_in(node: PrefValue, keys: &Vec<String>, from: usize, value: PrefValue) -> (res: PrefValue)
    requires
        from <= keys.len(),
    ensures
        res@ == set_tree(node@, texts(keys@).subrange(from as int, keys@.len() as int), value@),
    decreases keys.len() - from,
{
    let ghost path = texts(keys@).subrange(from as int, keys@.len() as int);
    if from == keys.len() {
        assert(path.len() == 0);
        return value;
    }
    let ghost old_trees = entries_of(node@);
    let mut entries = match node {
        PrefValue::Object(entries) => entries,
        PrefValue::Other(_) => Vec::new(),
    };
    assert(entry_trees(entries@) == old_trees);
    let key = keys[from].clone();
    assert(path[0] == key@);
    assert(path.drop_first() =~= texts(keys@).subrange(from + 1, keys@.len() as int));
    proof {
        lemma_entry_trees(entries@);
    }
    match find_key(&entries, &key) {
        Some(i) => {
            let ghost before = entries@;
            let (k, child) = entries.remove(i);
            let new_child = set_in(child, keys, from + 1, value);
            entries.insert(i, (k, new_child));
            proof {
                lemma_entry_trees(entries@);
                assert(entries@ =~= before.update(i as int, (k, new_child)));
                assert(entry_trees(entries@) =~= old_trees.update(
                    i as int,
                    (key@, set_tree(old_trees[i as int].1, path.drop_first(), value@)),
                ));
            }
        },
        None => {
            let ghost before = entries@;
            let child = set_in(PrefValue::Other("null".to_owned()), keys, from + 1, value);
            proof {
                reveal_strlit("null");
            }
            entries.push((key, child));
            proof {
                lemma_entry_trees(entries@);
                assert(entry_trees(entries@) =~= old_trees.push(
                    (key@, set_tree(null_tree(), path.drop_first(), value@)),
                ));
            }
        },
    }
    PrefValue::Object(entries)
}

/// `prefs` with `value` set at the dotted preference name `name` ("profile.exit_type" is the key
/// `exit_type` of the object at `profile`), see `set_tree`.
pub fn set_pref(prefs: PrefValue, name: &str, value: PrefValue) -> (res: PrefValue)
    ensures
        res@ == set_tree(prefs@, pref_keys(name@), value@),
{
    let keys = pref_path(name);
    let res = set_in(prefs, &keys, 0, value);
    assert(texts(keys@).subrange(0, keys@.len() as int) =~= pref_keys(name@));
    res
}

/// Settings by what they stand for: each preference's name and value.
pub open spec fn setting_views(settings: Seq<(String, PrefValue)>) -> Seq<(Seq<char>, PrefTree)> {
    settings.map_values(|setting: (String, PrefValue)| (setting.0@, setting.1@))
}

/// `tree` with the settings set one after the other.
pub open spec fn set_all(tree: PrefTree, settings: Seq<(Seq<char>, PrefTree)>) -> PrefTree
    decreases settings.len(),
{
    if settings.len() == 0 {
        tree
    } else {
        let last = settings.last();
        set_tree(set_all(tree, settings.drop_last()), pref_keys(last.0), last.1)
    }
}

/// `prefs` with the settings set one after the other (see `set_all`).
pub fn apply_preferences(prefs: PrefValue, settings: Vec<(String, PrefValue)>) -> (res: PrefValue)
    ensures
        res@ == set_all(prefs@, setting_views(settings@)),
{
    let ghost all = setting_views(settings@);
    let ghost start = prefs@;
    let mut prefs = prefs;
    let mut rest = settings;
    let ghost mut done: int = 0;
    assert(all.take(0) =~= Seq::<(Seq<char>, PrefTree)>::empty());
    while rest.len() > 0
        invariant
            0 <= done <= all.len(),
            setting_views(rest@) == all.skip(done),
            prefs@ == set_all(start, all.take(done)),
        decreases rest.len(),
    {
        let ghost rest_before = rest@;
        let (name, value) = rest.remove(0);
        proof {
            assert(setting_views(rest_before).len() == rest_before.len());
            assert(all.skip(done).len() == all.len() - done);
            assert(setting_views(rest_before)[0] == (rest_before[0].0@, rest_before[0].1@));
            assert(all.skip(done)[0] == all[done]);
            assert(all[done] == (name@, value@));
            assert(setting_views(rest@) =~= all.skip(done + 1)) by {
                assert(rest@ =~= rest_before.subrange(1, rest_before.len() as int));
                assert forall|k: int| 0 <= k < rest@.len() implies #[trigger] setting_views(rest@)[k] == all.skip(done
                    + 1)[k] by {
                    assert(setting_views(rest_before)[k + 1] == all.skip(done)[k + 1]);
                }
            }
        }
        prefs = set_pref(prefs, name.as_str(), value);
        proof {
            assert(all.take(done + 1).drop_last() =~= all.take(done));
            done = done + 1;
        }
    }
    assert(all.take(done) =~= all);
    prefs
}

/// The preferences the client sets: no "restore pages?" prompt after a crash, no password manager,
/// no autofill, no translation bar.
pub open spec fn client_settings() -> Seq<(Seq<char>, PrefTree)> {
    seq![
        ("profile.exit_type"@, PrefTree::Other("\"Normal\""@)),
        ("credentials_enable_service"@, PrefTree::Other("false"@)),
        ("credentials_enable_autosignin"@, PrefTree::Other("false"@)),
        ("autofill.profile_enabled"@, PrefTree::Other("false"@)),
        ("autofill.credit_card_enabled"@, PrefTree::Other("false"@)),
        ("translate.enabled"@, PrefTree::Other("false"@)),
    ]
}

fn setting(name: &str, json: &str) -> (res: (String, PrefValue))
    ensures
        res.0@ == name@,
        res.1@ == PrefTree::Other(json@),
{
    (name.to_owned(), PrefValue::Other(json.to_owned()))
}

/// The preferences the client sets (see `client_settings`), their values as JSON text.
pub fn client_preferences() -> (settings: Vec<(String, PrefValue)>)
    ensures
        setting_views(settings@) == client_settings(),
{
    let mut settings: Vec<(String, PrefValue)> = Vec::new();
    settings.push(setting("profile.exit_type", "\"Normal\""));
    settings.push(setting("credentials_enable_service", "false"));
    settings.push(setting("credentials_enable_autosignin", "false"));
    settings.push(setting("autofill.profile_enabled", "false"));
    settings.push(setting("autofill.credit_card_enabled", "false"));
    settings.push(setting("translate.enabled", "false"));
    assert(setting_views(settings@) =~= client_settings());
    settings
}

// ---------------------------------------------------------------------------------------------
// What setting a preference does to the others
// ---------------------------------------------------------------------------------------------

/// A preference that was set reads back as the value it was set to.
pub proof fn lemma_set_then_get(tree: PrefTree, keys: Seq<Seq<char>>, value: PrefTree)
    ensures
        get_tree(set_tree(tree, keys, value), keys) == Some(value),
    decreases keys.len(),
{
    if keys.len() > 0 {
        let entries = entries_of(tree);
        let key = keys[0];
        let child = match key_index(entries, key) {
            Some(i) => entries[i].1,
            None => null_tree(),
        };
        lemma_key_index_after_set(entries, key, set_tree(child, keys.drop_first(), value), key);
        lemma_set_then_get(child, keys.drop_first(), value);
    }
}

/// Setting a preference leaves every preference that is neither on its path nor inside it as it
/// was: `other` is no prefix of `keys`, and `keys` is none of `other`.
pub proof fn lemma_set_keeps_others(tree: PrefTree, keys: Seq<Seq<char>>, value: PrefTree, other: Seq<Seq<char>>)
    requires
        !other.is_prefix_of(keys),
        !keys.is_prefix_of(other),
    ensures
        get_tree(set_tree(tree, keys, value), other) == get_tree(tree, other),
    decreases keys.len(),
{
    assert(keys.len() > 0 && other.len() > 0) by {
        if keys.len() == 0 {
            assert(keys.is_prefix_of(other));
        }
        if other.len() == 0 {
            assert(other.is_prefix_of(keys));
        }
    }
    let entries = entries_of(tree);
    let key = keys[0];
    let child = match key_index(entries, key) {
        Some(i) => entries[i].1,
        None => null_tree(),
    };
    let new_child = set_tree(child, keys.drop_first(), value);
    lemma_key_index_after_set(entries, key, new_child, other[0]);
    let changed = entries_of(set_tree(tree, keys, value));
    if other[0] == key {
        let rest = other.drop_first();
        assert(!rest.is_prefix_of(keys.drop_first())) by {
            if rest.is_prefix_of(keys.drop_first()) {
                assert(other.is_prefix_of(keys)) by {
                    assert forall|k: int| 0 <= k < other.len() implies other[k] == keys[k] by {
                        if k > 0 {
                            assert(rest[k - 1] == keys.drop_first()[k - 1]);
                        }
                    }
                }
            }
        }
        assert(!keys.drop_first().is_prefix_of(rest)) by {
            if keys.drop_first().is_prefix_of(rest) {
                assert(keys.is_prefix_of(other)) by {
                    assert forall|k: int| 0 <= k < keys.len() implies keys[k] == other[k] by {
                        if k > 0 {
                            assert(keys.drop_first()[k - 1] == rest[k - 1]);
                        }
                    }
                }
            }
        }
        lemma_set_keeps_others(child, keys.drop_first(), value, rest);
        match key_index(entries, key) {
            Some(i) => {},
            None => {
                assert(rest.len() > 0) by {
                    if rest.len() == 0 {
                        assert(rest.is_prefix_of(keys.drop_first()));
                    }
                }
            },
        }
    } else {
        match key_index(entries, other[0]) {
            Some(j) => {
                let i = match key_index(entries, key) {
                    Some(i) => i,
                    None => entries.len() as int,
                };
                assert(key_first_at(entries, other[0], j));
                assert(j != i);
                assert(changed[j] == entries[j]);
            },
            None => {},
        }
    }
}

/// Setting a preference to the value it already has changes nothing.
pub proof fn lemma_set_same_value(tree: PrefTree, keys: Seq<Seq<char>>, value: PrefTree)
    requires
        get_tree(tree, keys) == Some(value),
    ensures
        set_tree(tree, keys, value) == tree,
    decreases keys.len(),
{
    if keys.len() > 0 {
        let entries = entries_of(tree);
        let i = key_index(entries, keys[0])->Some_0;
        assert(key_first_at(entries, keys[0], i));
        lemma_set_same_value(entries[i].1, keys.drop_first(), value);
        assert(entries.update(i, (keys[0], set_tree(entries[i].1, keys.drop_first(), value))) =~= entries);
    }
}

/// No path among the settings lies on another one: none is a prefix of a different one.
pub open spec fn paths_apart(settings: Seq<(Seq<char>, PrefTree)>) -> bool {
    forall|i: int, j: int|
        0 <= i < settings.len() && 0 <= j < settings.len() && i != j ==> !(#[trigger] pref_keys(
            settings[i].0,
        )).is_prefix_of(#[trigger] pref_keys(settings[j].0))
}

/// After settings whose paths lie apart, each of them reads back as its value.
pub proof fn lemma_set_all_then_get(tree: PrefTree, settings: Seq<(Seq<char>, PrefTree)>, j: int)
    requires
        paths_apart(settings),
        0 <= j < settings.len(),
    ensures
        get_tree(set_all(tree, settings), pref_keys(settings[j].0)) == Some(settings[j].1),
    decreases settings.len(),
{
    let last = settings.len() - 1;
    let before = set_all(tree, settings.drop_last());
    if j == last {
        lemma_set_then_get(before, pref_keys(settings[last].0), settings[last].1);
    } else {
        assert(paths_apart(settings.drop_last())) by {
            assert forall|a: int, b: int|
                0 <= a < settings.drop_last().len() && 0 <= b < settings.drop_last().len() && a != b implies !(
            #[trigger] pref_keys(settings.drop_last()[a].0)).is_prefix_of(#[trigger] pref_keys(settings.drop_last()[b].0)) by {
                assert(settings.drop_last()[a] == settings[a]);
                assert(settings.drop_last()[b] == settings[b]);
            }
        }
        assert(settings.drop_last()[j] == settings[j]);
        lemma_set_all_then_get(tree, settings.drop_last(), j);
        let kj = pref_keys(settings[j].0);
        let kl = pref_keys(settings[last].0);
        assert(!kj.is_prefix_of(kl));
        assert(!kl.is_prefix_of(kj));
        lemma_set_keeps_others(before, kl, settings[last].1, kj);
    }
}

/// Settings that every path already holds change nothing.
proof fn lemma_set_all_held(tree: PrefTree, settings: Seq<(Seq<char>, PrefTree)>)
    requires
        forall|j: int| 0 <= j < settings.len() ==> get_tree(tree, pref_keys(#[trigger] settings[j].0)) == Some(
            settings[j].1,
        ),
    ensures
        set_all(tree, settings) == tree,
    decreases settings.len(),
{
    if settings.len() > 0 {
        let last = settings.len() - 1;
        assert forall|j: int| 0 <= j < settings.drop_last().len() implies get_tree(
            tree,
            pref_keys(#[trigger] settings.drop_last()[j].0),
        ) == Some(settings.drop_last()[j].1) by {
            assert(settings.drop_last()[j] == settings[j]);
            assert(get_tree(tree, pref_keys(settings[j].0)) == Some(settings[j].1));
        }
        lemma_set_all_held(tree, settings.drop_last());
        assert(get_tree(tree, pref_keys(settings[last].0)) == Some(settings[last].1));
        lemma_set_same_value(tree, pref_keys(settings[last].0), settings[last].1);
    }
}

/// Applying settings whose paths lie apart a second time changes nothing: a profile the client
/// already prepared is left as it is.
pub proof fn lemma_apply_twice(tree: PrefTree, settings: Seq<(Seq<char>, PrefTree)>)
    requires
        paths_apart(settings),
    ensures
        set_all(set_all(tree, settings), settings) == set_all(tree, settings),
{
    let once = set_all(tree, settings);
    assert forall|j: int| 0 <= j < settings.len() implies get_tree(once, pref_keys(#[trigger] settings[j].0)) == Some(
        settings[j].1,
    ) by {
        lemma_set_all_then_get(tree, settings, j);
    }
    lemma_set_all_held(once, settings);
}

/// A name without a dot is one key.
proof fn lemma_keys_no_dot(name: Seq<char>)
    requires
        forall|i: int| 0 <= i < name.len() ==> name[i] != '.',
    ensures
        pref_keys(name) == seq![name],
{
    reveal_strlit(".");
    lemma_find_none(name, "."@);
    if contains(name, "."@) {
        let i = choose|i: int| occurs_at(name, "."@, i);
        assert(name.subrange(i, i + 1)[0] == name[i]);
    }
    assert(find(name, "."@) is None);
}

/// A name with one dot is the key before it and the key after it.
proof fn lemma_keys_one_dot(name: Seq<char>, dot: int)
    requires
        0 <= dot < name.len(),
        name[dot] == '.',
        forall|i: int| 0 <= i < name.len() && i != dot ==> name[i] != '.',
    ensures
        pref_keys(name) == seq![name.subrange(0, dot), name.subrange(dot + 1, name.len() as int)],
{
    reveal_strlit(".");
    assert(name.subrange(dot, dot + 1) =~= "."@);
    assert forall|j: int| 0 <= j < dot implies !occurs_at(name, "."@, j) by {
        if occurs_at(name, "."@, j) {
            assert(name.subrange(j, j + 1)[0] == name[j]);
        }
    }
    assert(first_at(name, "."@, dot));
    lemma_find_is_first(name, "."@, dot);
    let rest = name.subrange(dot + 1, name.len() as int);
    lemma_keys_no_dot(rest);
    assert(split_all(rest, "."@) == seq![rest]);
    assert(pref_keys(name) =~= seq![name.subrange(0, dot)] + seq![rest]);
}

/// The paths of the client's preferences, key by key.
proof fn lemma_client_paths()
    ensures
        pref_keys(client_settings()[0].0) == seq!["profile"@, "exit_type"@],
        pref_keys(client_settings()[1].0) == seq!["credentials_enable_service"@],
        pref_keys(client_settings()[2].0) == seq!["credentials_enable_autosignin"@],
        pref_keys(client_settings()[3].0) == seq!["autofill"@, "profile_enabled"@],
        pref_keys(client_settings()[4].0) == seq!["autofill"@, "credit_card_enabled"@],
        pref_keys(client_settings()[5].0) == seq!["translate"@, "enabled"@],
{
    reveal_strlit("profile.exit_type");
    reveal_strlit("profile");
    reveal_strlit("exit_type");
    reveal_strlit("credentials_enable_service");
    reveal_strlit("credentials_enable_autosignin");
    reveal_strlit("autofill.profile_enabled");
    reveal_strlit("autofill");
    reveal_strlit("profile_enabled");
    reveal_strlit("autofill.credit_card_enabled");
    reveal_strlit("credit_card_enabled");
    reveal_strlit("translate.enabled");
    reveal_strlit("translate");
    reveal_strlit("enabled");
    let names = client_settings();
    lemma_keys_one_dot(names[0].0, 7);
    assert(names[0].0.subrange(0, 7) =~= "profile"@);
    assert(names[0].0.subrange(8, 17) =~= "exit_type"@);
    lemma_keys_no_dot(names[1].0);
    lemma_keys_no_dot(names[2].0);
    lemma_keys_one_dot(names[3].0, 8);
    assert(names[3].0.subrange(0, 8) =~= "autofill"@);
    assert(names[3].0.subrange(9, 24) =~= "profile_enabled"@);
    lemma_keys_one_dot(names[4].0, 8);
    assert(names[4].0.subrange(0, 8) =~= "autofill"@);
    assert(names[4].0.subrange(9, 28) =~= "credit_card_enabled"@);
    lemma_keys_one_dot(names[5].0, 9);
    assert(names[5].0.subrange(0, 9) =~= "translate"@);
    assert(names[5].0.subrange(10, 17) =~= "enabled"@);
}

/// The client's preferences, set at every start, change the file only the first time: on a profile
/// they were already applied to they change nothing.
pub proof fn lemma_client_preferences_settle(tree: PrefTree)
    ensures
        set_all(set_all(tree, client_settings()), client_settings()) == set_all(tree, client_settings()),
{
    lemma_client_paths();
    reveal_strlit("profile");
    reveal_strlit("credentials_enable_service");
    reveal_strlit("credentials_enable_autosignin");
    reveal_strlit("autofill");
    reveal_strlit("translate");
    reveal_strlit("profile_enabled");
    reveal_strlit("credit_card_enabled");
    let settings = client_settings();
    assert forall|i: int, j: int|
        0 <= i < settings.len() && 0 <= j < settings.len() && i != j implies !(#[trigger] pref_keys(
        settings[i].0,
    )).is_prefix_of(#[trigger] pref_keys(settings[j].0)) by {
        let a = pref_keys(settings[i].0);
        let b = pref_keys(settings[j].0);
        if a.is_prefix_of(b) {
            assert(a[0] == b[0]);
            if a[0] == "autofill"@ {
                assert(a[1] == b[1]);
                assert(a[1][0] != b[1][0]);
            } else {
                assert(a[0][0] != b[0][0] || a[0].len() != b[0].len() || a[0][11] != b[0][11]);
            }
        }
    }
    lemma_apply_twice(tree, settings);
}

// ---------------------------------------------------------------------------------------------
// The Preferences file as text
// ---------------------------------------------------------------------------------------------

/// How deep the file is read into objects; below that a value stays the JSON text it is written as
/// (serde_json itself reads no deeper than 128 levels).
pub const PREFS_DEPTH: usize = 128;

/// The tree of a JSON text read `depth` levels deep: an object's entries, each value read one level
/// less deep, or any other value (and anything at depth zero) as its text.
pub open spec fn text_tree(text: Seq<char>, depth: nat) -> PrefTree
    decreases depth, 0nat,
{
    if depth == 0 {
        PrefTree::Other(text)
    } else {
        match json_object_entries(text) {
            Some(entries) => PrefTree::Object(text_entry_trees(entries, (depth - 1) as nat)),
            None => PrefTree::Other(text),
        }
    }
}

/// The entries of an object, each value read `depth` levels deep.
pub open spec fn text_entry_trees(entries: Seq<(Seq<char>, Seq<char>)>, depth: nat) -> Seq<(Seq<char>, PrefTree)>
    decreases depth, entries.len() + 1,
{
    if entries.len() == 0 {
        Seq::empty()
    } else {
        text_entry_trees(entries.drop_last(), depth).push((entries.last().0, text_tree(entries.last().1, depth)))
    }
}

/// The value a JSON text holds, read `depth` levels deep (see `text_tree`).
fn text_value(text: &str, depth: usize) -> (value: PrefValue)
    ensures
        value@ == text_tree(text@, depth as nat),
    decreases depth,
{
    if depth == 0 {
        return PrefValue::Other(text.to_owned());
    }
    match object_entries(text) {
        Some(entries) => {
            let ghost all = pair_views(entries@);
            let mut out: Vec<(String, PrefValue)> = Vec::new();
            let mut i: usize = 0;
            while i < entries.len()
                invariant
                    all == pair_views(entries@),
                    depth > 0,
                    i <= entries.len(),
                    entry_trees(out@) == text_entry_trees(all.take(i as int), (depth - 1) as nat),
                decreases entries.len() - i,
            {
                let key = entries[i].0.clone();
                let child = text_value(entries[i].1.as_str(), depth - 1);
                let ghost before = out@;
                out.push((key, child));
                proof {
                    assert(out@.drop_last() =~= before);
                    assert(all.take(i + 1).drop_last() =~= all.take(i as int));
                    assert(all[i as int] == (entries@[i as int].0@, entries@[i as int].1@));
                }
                i = i + 1;
            }
            assert(all.take(i as int) =~= all);
            PrefValue::Object(out)
        },
        None => PrefValue::Other(text.to_owned()),
    }
}

/// The entries of an object as compact JSON, separated by commas.
pub open spec fn entries_text(entries: Seq<(Seq<char>, PrefTree)>) -> Seq<char>
    decreases entries,
{
    if entries.len() == 0 {
        Seq::empty()
    } else {
        let last = entries.last();
        let entry = json_string_literal(last.0) + seq![':'] + tree_text(last.1);
        if entries.len() == 1 {
            entry
        } else {
            entries_text(entries.drop_last()) + seq![','] + entry
        }
    }
}

/// A tree as compact JSON: an object as its entries between braces, in their order, any other
/// value as the text it holds.
pub open spec fn tree_text(tree: PrefTree) -> Seq<char>
    decreases tree,
{
    match tree {
        PrefTree::Object(entries) => seq!['{'] + entries_text(entries) + seq!['}'],
        PrefTree::Other(text) => text,
    }
}

/// A value as compact JSON (see `tree_text`).
fn value_text(value: &PrefValue) -> (text: String)
    ensures
        text@ == tree_text(value@),
    decreases value,
{
    match value {
        PrefValue::Object(entries) => {
            let ghost trees = entry_trees(entries@);
            proof {
                lemma_entry_trees(entries@);
            }
            let mut text = "{".to_owned();
            let mut i: usize = 0;
            proof {
                reveal_strlit("{");
                assert(trees.take(0) =~= Seq::<(Seq<char>, PrefTree)>::empty());
            }
            while i < entries.len()
                invariant
                    *value == PrefValue::Object(*entries),
                    trees == entry_trees(entries@),
                    trees.len() == entries@.len(),
                    forall|k: int| 0 <= k < entries@.len() ==> #[trigger] trees[k] == (entries@[k].0@, tree_of(entries@[k].1)),
                    i <= entries.len(),
                    text@ == seq!['{'] + entries_text(trees.take(i as int)),
                decreases entries.len() - i,
            {
                let ghost before = text@;
                if i > 0 {
                    text.append(",");
                }
                let literal = json_quote(entries[i].0.as_str());
                text.append(literal.as_str());
                text.append(":");
                proof {
                    assert((*value)->Object_0 == *entries);
                    assert(decreases_to!(*value => (*value)->Object_0));
                    assert(decreases_to!(*entries => entries[i as int])) by {
                        vstd::std_specs::vec::axiom_vec_index_decreases(*entries, i as int);
                    }
                    assert(decreases_to!(entries[i as int] => entries[i as int].1));
                }
                let inner = value_text(&entries[i].1);
                text.append(inner.as_str());
                proof {
                    reveal_strlit(",");
                    reveal_strlit(":");
                    assert(trees.take(i + 1).drop_last() =~= trees.take(i as int));
                    assert(trees.take(i + 1).last() == trees[i as int]);
                    if i == 0 {
                        assert(trees.take(0).len() == 0);
                    }
                    assert(text@ =~= seq!['{'] + entries_text(trees.take(i + 1)));
                }
                i = i + 1;
            }
            assert(trees.take(i as int) =~= trees);
            text.append("}");
            proof {
                reveal_strlit("}");
            }
            assert(text@ =~= tree_text(value@));
            text
        },
        PrefValue::Other(text) => text.clone(),
    }
}

/// The tree of chromium's Preferences file as the client starts from: the file's document where
/// there is a file holding JSON, an empty object otherwise.
pub open spec fn starting_tree(file: Option<Seq<char>>) -> PrefTree {
    match file {
        Some(text) => if is_json_text(text) {
            text_tree(text, PREFS_DEPTH as nat)
        } else {
            PrefTree::Object(Seq::empty())
        },
        None => PrefTree::Object(Seq::empty()),
    }
}

/// What the client writes to chromium's Preferences file, if anything: the file with the client's
/// preferences set (`client_settings`), as serde_json writes it back, when that differs from how
/// serde_json writes back the file as it was; nothing when it is the same.
pub open spec fn prepared_text(file: Option<Seq<char>>) -> Option<Seq<char>> {
    let start = starting_tree(file);
    let before = json_canonical(tree_text(start));
    match json_canonical(tree_text(set_all(start, client_settings()))) {
        Some(after) => if before != Some(after) {
            Some(after)
        } else {
            None
        },
        None => None,
    }
}

/// What the client writes to chromium's Preferences file (`file` is what it holds, if it could be
/// read), see `prepared_text`: `None` leaves the file as it is.
pub fn prepared_preferences(file: Option<&str>) -> (res: Option<String>)
    ensures
        match res {
            Some(text) => prepared_text(opt_view(file)) == Some(text@),
            None => prepared_text(opt_view(file)) is None,
        },
{
    let start = match file {
        Some(text) => if json_parses(text) {
            text_value(text, PREFS_DEPTH)
        } else {
            PrefValue::Object(Vec::new())
        },
        None => PrefValue::Object(Vec::new()),
    };
    assert(entry_trees(Seq::<(String, PrefValue)>::empty()) =~= Seq::<(Seq<char>, PrefTree)>::empty());
    assert(start@ == starting_tree(opt_view(file)));
    let start_text = value_text(&start);
    let before = canonical_json(start_text.as_str());
    let settings = client_preferences();
    let prepared = apply_preferences(start, settings);
    assert(prepared@ == set_all(starting_tree(opt_view(file)), client_settings()));
    let prepared_text = value_text(&prepared);
    match canonical_json(prepared_text.as_str()) {
        Some(after) => {
            let same = match &before {
                Some(b) => crate::text::eq_chars(&crate::text::chars_of(b.as_str()), &crate::text::chars_of(after.as_str())),
                None => false,
            };
            if same {
                None
            } else {
                Some(after)
            }
        },
        None => None,
    }
}

/// A file that already holds the client's preferences is not written: where setting them changes
/// nothing in the file's tree, there is nothing to write.
pub proof fn lemma_prepared_file_untouched(file: Option<Seq<char>>)
    requires
        set_all(starting_tree(file), client_settings()) == starting_tree(file),
    ensures
        prepared_text(file) is None,
{
}

/// An optional text by its characters.
pub open spec fn opt_view(text: Option<&str>) -> Option<Seq<char>> {
    match text {
        Some(t) => Some(t@),
        None => None,
    }
}

} // verus!
