//! The calls into serde_json that the decisions of the library depend on.
use vstd::prelude::*;

verus! {

/// The text is one JSON document, as `serde_json::from_str::<serde_json::Value>` reads it.
pub uninterp spec fn is_json_text(text: Seq<char>) -> bool;

/// The strings of the JSON array of strings that the text holds, as
/// `serde_json::from_str::<Vec<String>>` reads it; `None` where the text is no such array.
pub uninterp spec fn json_string_list(text: Seq<char>) -> Option<Seq<Seq<char>>>;

/// The entries of the JSON object the text holds, as `serde_json::from_str::<serde_json::Value>`
/// reads it: each key, and its value written back as compact JSON (the value's `Display`), in the
/// order of serde_json's map; `None` where the text is no JSON object.
pub uninterp spec fn json_object_entries(text: Seq<char>) -> Option<Seq<(Seq<char>, Seq<char>)>>;

/// The string the JSON text holds, as `serde_json::from_str::<String>` reads it; `None` where the
/// text is no JSON string.
pub uninterp spec fn json_string_value(text: Seq<char>) -> Option<Seq<char>>;

/// The text serde_json writes back for the JSON document the text holds
/// (`serde_json::from_str::<serde_json::Value>`, then the value's `to_string`): compact, with the
/// keys of each object in the order of serde_json's map; `None` where the text is no JSON.
pub uninterp spec fn json_canonical(text: Seq<char>) -> Option<Seq<char>>;

/// A digit of lower case hexadecimal.
pub open spec fn hex_digit(n: int) -> char {
    "0123456789abcdef"@[n]
}

/// How serde_json writes one character inside a string literal: a quote and a backslash behind a
/// backslash, backspace, tab, line feed, form feed and carriage return as `\b \t \n \f \r`, any
/// other character below 0x20 as `\u00` and two lower case hex digits, everything else as it is.
pub open spec fn escaped_char(c: char) -> Seq<char> {
    if c == '"' {
        seq!['\\', '"']
    } else if c == '\\' {
        seq!['\\', '\\']
    } else if c == '\u{8}' {
        seq!['\\', 'b']
    } else if c == '\t' {
        seq!['\\', 't']
    } else if c == '\n' {
        seq!['\\', 'n']
    } else if c == '\u{c}' {
        seq!['\\', 'f']
    } else if c == '\r' {
        seq!['\\', 'r']
    } else if (c as int) < 0x20 {
        seq!['\\', 'u', '0', '0', hex_digit((c as int) / 16), hex_digit((c as int) % 16)]
    } else {
        seq![c]
    }
}

/// The characters of the text, each as serde_json writes it inside a string literal.
pub open spec fn escaped(text: Seq<char>) -> Seq<char>
    decreases text.len(),
{
    if text.len() == 0 {
        Seq::empty()
    } else {
        escaped(text.drop_last()) + escaped_char(text.last())
    }
}

/// The JSON string literal that `serde_json::to_string` writes for the text: the escaped text
/// between double quotes.
pub open spec fn json_string_literal(text: Seq<char>) -> Seq<char> {
    seq!['"'] + escaped(text) + seq!['"']
}

/// Pairs of texts by their characters.
pub open spec fn pair_views(pairs: Seq<(String, String)>) -> Seq<(Seq<char>, Seq<char>)> {
    pairs.map_values(|pair: (String, String)| (pair.0@, pair.1@))
}

/// The value of the first entry with the key `key`.
pub open spec fn entry_value(entries: Seq<(Seq<char>, Seq<char>)>, key: Seq<char>) -> Option<Seq<char>>
    decreases entries.len(),
{
    if entries.len() == 0 {
        None
    } else if entries[0].0 == key {
        Some(entries[0].1)
    } else {
        entry_value(entries.drop_first(), key)
    }
}

/// The value of the first entry with the key `key` (see `entry_value`).
pub fn entry_value_of(entries: &Vec<(String, String)>, key: &str) -> (res: Option<String>)
    ensures
        match res {
            Some(value) => entry_value(pair_views(entries@), key@) == Some(value@),
            None => entry_value(pair_views(entries@), key@) is None,
        },
{
    let ghost all = pair_views(entries@);
    let wanted = key.to_owned();
    let mut i: usize = 0;
    assert(all.subrange(0, all.len() as int) =~= all);
    while i < entries.len()
        invariant
            all == pair_views(entries@),
            wanted@ == key@,
            i <= entries.len(),
            entry_value(all, key@) == entry_value(all.subrange(i as int, all.len() as int), key@),
        decreases entries.len() - i,
    {
        let ghost rest = all.subrange(i as int, all.len() as int);
        assert(rest[0] == (entries@[i as int].0@, entries@[i as int].1@));
        if entries[i].0 == wanted {
            return Some(entries[i].1.clone());
        }
        assert(rest.drop_first() =~= all.subrange(i + 1, all.len() as int));
        i = i + 1;
    }
    None
}

/// Calls `serde_json::from_str::<serde_json::Value>` and tells whether it succeeded. The contract
/// claims that the answer depends on the text alone; what serde_json accepts is not written out.
#[verifier::external_body]
pub(crate) fn json_parses(text: &str) -> (ok: bool)
    ensures
        ok == is_json_text(text@),
{
    serde_json::from_str::<serde_json::Value>(text).is_ok()
}

/// Calls `serde_json::from_str::<Vec<String>>`. The contract claims that the strings handed back are
/// the ones the text holds, and `None` exactly where serde_json refuses the text.
#[verifier::external_body]
pub(crate) fn parse_string_list(text: &str) -> (res: Option<Vec<String>>)
    ensures
        match res {
            Some(list) => json_string_list(text@) == Some(list@.map_values(|s: String| s@)),
            None => json_string_list(text@) is None,
        },
{
    serde_json::from_str::<Vec<String>>(text).ok()
}

/// Calls `serde_json::to_string` on a string. The contract claims that the result is the literal
/// `json_string_literal` spells out, which is serde_json's escape table for strings; serializing a
/// string into memory never fails, so the empty string of the error arm is never handed back.
#[verifier::external_body]
pub(crate) fn json_quote(text: &str) -> (literal: String)
    ensures
        literal@ == json_string_literal(text@),
{
    serde_json::to_string(text).unwrap_or_default()
}

/// Calls `serde_json::from_str::<serde_json::Value>` and, where that gives an object, hands out its
/// entries with each value written back by its `Display`. The contract claims the result is the one
/// `json_object_entries` names; which texts are objects, and the order of the entries, are not
/// written out.
#[verifier::external_body]
pub(crate) fn object_entries(text: &str) -> (res: Option<Vec<(String, String)>>)
    ensures
        match res {
            Some(entries) => json_object_entries(text@) == Some(pair_views(entries@)),
            None => json_object_entries(text@) is None,
        },
{
    match serde_json::from_str::<serde_json::Value>(text) {
        Ok(serde_json::Value::Object(map)) => Some(map.into_iter().map(|(key, value)| (key, value.to_string())).collect()),
        _ => None,
    }
}

/// Calls `serde_json::from_str::<String>`. The contract claims the result is the string
/// `json_string_value` names, and `None` exactly where serde_json refuses the text.
#[verifier::external_body]
pub(crate) fn string_value(text: &str) -> (res: Option<String>)
    ensures
        match res {
            Some(value) => json_string_value(text@) == Some(value@),
            None => json_string_value(text@) is None,
        },
{
    serde_json::from_str::<String>(text).ok()
}

/// Calls `serde_json::from_str::<serde_json::Value>` and writes the value back with `to_string`.
/// The contract claims the result is the one `json_canonical` names; how serde_json orders and
/// writes a document is not written out.
#[verifier::external_body]
pub(crate) fn canonical_json(text: &str) -> (res: Option<String>)
    ensures
        match res {
            Some(written) => json_canonical(text@) == Some(written@),
            None => json_canonical(text@) is None,
        },
{
    serde_json::from_str::<serde_json::Value>(text).ok().map(|value| value.to_string())
}

} // verus!
