//! The chromium flags of the client: the list that is handed to chromium, what it enables, and how
//! a flag goes onto chromium's command line.
use crate::text::{chars_of, eq_chars, find, has_prefix, occurs_at, has_prefix_exec, split_all, split_all_exec, split_once, split_once_exec, string_from, strip_prefix, strip_prefix_exec, sub_chars, views};
use vstd::prelude::*;

verus! {

broadcast use vstd::string::group_string_axioms;

/// The `--use-angle` value of an "angleBackend" setting, `None` for "Default" and unknown ones.
pub open spec fn angle_backend_value(option: Seq<char>) -> Option<Seq<char>> {
    if option == "D3D11"@ {
        Some("d3d11"@)
    } else if option == "D3D11on12"@ {
        Some("d3d11on12"@)
    } else if option == "OpenGL"@ {
        Some("gl"@)
    } else if option == "Vulkan"@ {
        Some("vulkan"@)
    } else {
        None
    }
}

/// The `--force-color-profile` value of a "colorProfile" setting, `None` for "Default" and unknown ones.
pub open spec fn color_profile_value(option: Seq<char>) -> Option<Seq<char>> {
    if option == "sRGB"@ {
        Some("srgb"@)
    } else if option == "Display P3 D65"@ {
        Some("display-p3-d65"@)
    } else if option == "Extended sRGB"@ {
        Some("extended-srgb"@)
    } else if option == "scRGB linear"@ {
        Some("scrgb-linear"@)
    } else if option == "HDR10"@ {
        Some("hdr10"@)
    } else {
        None
    }
}

fn same_text(a: &str, b: &str) -> (res: bool)
    ensures
        res == (a@ == b@),
{
    eq_chars(&chars_of(a), &chars_of(b))
}

/// The select options of cSettings.json mapped to what chromium accepts.
pub fn angle_backend_switch(option: &str) -> (res: Option<&'static str>)
    ensures
        match res {
            Some(value) => angle_backend_value(option@) == Some(value@),
            None => angle_backend_value(option@) is None,
        },
{
    if same_text(option, "D3D11") {
        Some("d3d11")
    } else if same_text(option, "D3D11on12") {
        Some("d3d11on12")
    } else if same_text(option, "OpenGL") {
        Some("gl")
    } else if same_text(option, "Vulkan") {
        Some("vulkan")
    } else {
        None
    }
}

/// The select options of cSettings.json mapped to what chromium accepts.
pub fn color_profile_switch(option: &str) -> (res: Option<&'static str>)
    ensures
        match res {
            Some(value) => color_profile_value(option@) == Some(value@),
            None => color_profile_value(option@) is None,
        },
{
    if same_text(option, "sRGB") {
        Some("srgb")
    } else if same_text(option, "Display P3 D65") {
        Some("display-p3-d65")
    } else if same_text(option, "Extended sRGB") {
        Some("extended-srgb")
    } else if same_text(option, "scRGB linear") {
        Some("scrgb-linear")
    } else if same_text(option, "HDR10") {
        Some("hdr10")
    } else {
        None
    }
}

/// The flags handed to chromium: the player's list, then the bench run's flags or, outside a bench
/// run, `--disable-frame-rate-limit` when the FPS are uncapped, then the graphics backend and color
/// profile switches where set, and last the raw input feature of the patched chromium.
pub open spec fn chromium_flag_list(
    base: Seq<Seq<char>>,
    bench: Option<Seq<Seq<char>>>,
    uncap_fps: bool,
    angle_backend: Seq<char>,
    color_profile: Seq<char>,
) -> Seq<Seq<char>> {
    let with_bench = match bench {
        Some(extra) => base + extra,
        None => if uncap_fps {
            base.push("--disable-frame-rate-limit"@)
        } else {
            base
        },
    };
    let with_angle = match angle_backend_value(angle_backend) {
        Some(backend) => with_bench.push("--use-angle="@ + backend),
        None => with_bench,
    };
    let with_color = match color_profile_value(color_profile) {
        Some(profile) => with_angle.push("--force-color-profile="@ + profile),
        None => with_angle,
    };
    with_color.push("--enable-features=KuteRawInputMovementOnly"@)
}

/// The texts held by a list of strings.
pub open spec fn texts(list: Seq<String>) -> Seq<Seq<char>> {
    list.map_values(|s: String| s@)
}

fn concat(a: &str, b: &str) -> (res: String)
    ensures
        res@ == a@ + b@,
{
    let mut res = a.to_owned();
    res.append(b);
    res
}

/// The flags handed to chromium (see `chromium_flag_list`).
pub fn chromium_flags(
    base: Vec<String>,
    bench: Option<Vec<String>>,
    uncap_fps: bool,
    angle_backend: &str,
    color_profile: &str,
) -> (flags: Vec<String>)
    ensures
        texts(flags@) == chromium_flag_list(
            texts(base@),
            match bench {
                Some(extra) => Some(texts(extra@)),
                None => None,
            },
            uncap_fps,
            angle_backend@,
            color_profile@,
        ),
{
    let mut flags = base;
    let ghost start = texts(flags@);
    match bench {
        Some(extra) => {
            let mut extra = extra;
            let ghost added = texts(extra@);
            flags.append(&mut extra);
            assert(texts(flags@) =~= start + added);
        },
        None => {
            if uncap_fps {
                flags.push("--disable-frame-rate-limit".to_owned());
                assert(texts(flags@) =~= start.push("--disable-frame-rate-limit"@));
            }
        },
    }
    let ghost after_bench = texts(flags@);
    if let Some(backend) = angle_backend_switch(angle_backend) {
        flags.push(concat("--use-angle=", backend));
        assert(texts(flags@) =~= after_bench.push("--use-angle="@ + backend@));
    }
    let ghost after_angle = texts(flags@);
    if let Some(profile) = color_profile_switch(color_profile) {
        flags.push(concat("--force-color-profile=", profile));
        assert(texts(flags@) =~= after_angle.push("--force-color-profile="@ + profile@));
    }
    let ghost after_color = texts(flags@);
    flags.push("--enable-features=KuteRawInputMovementOnly".to_owned());
    assert(texts(flags@) =~= after_color.push("--enable-features=KuteRawInputMovementOnly"@));
    flags
}

/// One of the flags is exactly `wanted`.
pub open spec fn flag_listed(flags: Seq<Seq<char>>, wanted: Seq<char>) -> bool {
    exists|i: int| 0 <= i < flags.len() && flags[i] == wanted
}

/// Whether one of the flags is exactly `wanted`.
pub fn has_flag(flags: &Vec<String>, wanted: &str) -> (res: bool)
    ensures
        res == flag_listed(texts(flags@), wanted@),
{
    let wanted_chars = chars_of(wanted);
    let mut i: usize = 0;
    while i < flags.len()
        invariant
            wanted_chars@ == wanted@,
            i <= flags.len(),
            forall|k: int| 0 <= k < i ==> texts(flags@)[k] != wanted@,
        decreases flags.len() - i,
    {
        if eq_chars(&chars_of(flags[i].as_str()), &wanted_chars) {
            assert(texts(flags@)[i as int] == wanted@);
            return true;
        }
        i = i + 1;
    }
    false
}

/// The part of a feature entry before its first `:` (its parameters follow the colon).
pub open spec fn feature_name(entry: Seq<char>) -> Seq<char> {
    match split_once(entry, ":"@) {
        Some((name, _)) => name,
        None => entry,
    }
}

/// The comma separated feature list names `name`.
pub open spec fn list_names(list: Seq<char>, name: Seq<char>) -> bool {
    exists|j: int|
        0 <= j < split_all(list, ","@).len() && feature_name(#[trigger] split_all(list, ","@)[j]) == name
}

/// Some flag `<switch><list>` names `name` in its list.
pub open spec fn switch_names(flags: Seq<Seq<char>>, switch: Seq<char>, name: Seq<char>) -> bool {
    exists|i: int|
        0 <= i < flags.len() && match strip_prefix(#[trigger] flags[i], switch) {
            Some(list) => list_names(list, name),
            None => false,
        }
}

/// A chromium feature ends up enabled: an `--enable-features=` flag names it and no
/// `--disable-features=` flag does (a disable entry wins, like in chromium).
pub open spec fn feature_on(flags: Seq<Seq<char>>, name: Seq<char>) -> bool {
    switch_names(flags, "--enable-features="@, name) && !switch_names(flags, "--disable-features="@, name)
}

fn entry_is(entry: &Vec<char>, name: &Vec<char>) -> (res: bool)
    ensures
        res == (feature_name(entry@) == name@),
{
    let colon = chars_of(":");
    match split_once_exec(entry, &colon) {
        Some((head, _)) => eq_chars(&head, name),
        None => eq_chars(entry, name),
    }
}

fn list_has(list: &Vec<char>, name: &Vec<char>) -> (res: bool)
    ensures
        res == list_names(list@, name@),
{
    let comma = chars_of(",");
    proof {
        reveal_strlit(",");
    }
    let entries = split_all_exec(list, &comma);
    let ghost all = views(entries@);
    let mut j: usize = 0;
    while j < entries.len()
        invariant
            all == views(entries@),
            all == split_all(list@, ","@),
            j <= entries.len(),
            forall|k: int| 0 <= k < j ==> feature_name(#[trigger] all[k]) != name@,
        decreases entries.len() - j,
    {
        if entry_is(&entries[j], name) {
            assert(feature_name(all[j as int]) == name@);
            return true;
        }
        j = j + 1;
    }
    false
}

fn switch_has(flags: &Vec<String>, switch: &str, name: &Vec<char>) -> (res: bool)
    ensures
        res == switch_names(texts(flags@), switch@, name@),
{
    let switch_chars = chars_of(switch);
    let ghost t = texts(flags@);
    let mut i: usize = 0;
    while i < flags.len()
        invariant
            t == texts(flags@),
            switch_chars@ == switch@,
            i <= flags.len(),
            forall|k: int|
                0 <= k < i ==> match strip_prefix(#[trigger] t[k], switch@) {
                    Some(list) => !list_names(list, name@),
                    None => true,
                },
        decreases flags.len() - i,
    {
        let flag = chars_of(flags[i].as_str());
        if let Some(list) = strip_prefix_exec(&flag, &switch_chars) {
            if list_has(&list, name) {
                assert(t[i as int] == flag@);
                return true;
            }
        }
        i = i + 1;
    }
    false
}

/// Whether a chromium feature ends up enabled by the flags (see `feature_on`).
pub fn feature_enabled(flags: &Vec<String>, name: &str) -> (res: bool)
    ensures
        res == feature_on(texts(flags@), name@),
{
    let name_chars = chars_of(name);
    switch_has(flags, "--enable-features=", &name_chars) && !switch_has(flags, "--disable-features=", &name_chars)
}

// ---------------------------------------------------------------------------------------------
// Feature lists on chromium's command line
// ---------------------------------------------------------------------------------------------

/// The pieces of `ps` that are not empty, in order.
pub open spec fn nonempty(ps: Seq<Seq<char>>) -> Seq<Seq<char>>
    decreases ps.len(),
{
    if ps.len() == 0 {
        ps
    } else if ps.last().len() > 0 {
        nonempty(ps.drop_last()).push(ps.last())
    } else {
        nonempty(ps.drop_last())
    }
}

/// `parts` with each of `vs` added at the end, left to right, unless it is already there.
pub open spec fn add_missing(parts: Seq<Seq<char>>, vs: Seq<Seq<char>>) -> Seq<Seq<char>>
    decreases vs.len(),
{
    if vs.len() == 0 {
        parts
    } else {
        let before = add_missing(parts, vs.drop_last());
        if before.contains(vs.last()) {
            before
        } else {
            before.push(vs.last())
        }
    }
}

/// The pieces joined with `sep` between them (`join`).
pub open spec fn join(ps: Seq<Seq<char>>, sep: Seq<char>) -> Seq<char>
    decreases ps.len(),
{
    if ps.len() == 0 {
        Seq::empty()
    } else if ps.len() == 1 {
        ps[0]
    } else {
        join(ps.drop_last(), sep) + sep + ps.last()
    }
}

/// The entries of a comma separated list, without the empty ones.
pub open spec fn list_entries(list: Seq<char>) -> Seq<Seq<char>> {
    nonempty(split_all(list, ","@))
}

/// The list chromium gets for `--enable-features` or `--disable-features`: what was set already,
/// then each of our entries that is not in it yet.
pub open spec fn merged_list(existing: Seq<char>, value: Seq<char>) -> Seq<char> {
    join(add_missing(list_entries(existing), list_entries(value)), ","@)
}

fn entries_of(list: &Vec<char>) -> (entries: Vec<Vec<char>>)
    ensures
        views(entries@) == list_entries(list@),
{
    let comma = chars_of(",");
    proof {
        reveal_strlit(",");
    }
    let pieces = split_all_exec(list, &comma);
    let ghost all = views(pieces@);
    let mut entries: Vec<Vec<char>> = Vec::new();
    let mut i: usize = 0;
    assert(all.take(0) =~= Seq::<Seq<char>>::empty());
    while i < pieces.len()
        invariant
            all == views(pieces@),
            all == split_all(list@, ","@),
            i <= pieces.len(),
            views(entries@) == nonempty(all.take(i as int)),
        decreases pieces.len() - i,
    {
        let ghost before = views(entries@);
        assert(all.take(i + 1).drop_last() =~= all.take(i as int));
        if pieces[i].len() > 0 {
            let piece = sub_chars(&pieces[i], 0, pieces[i].len());
            assert(piece@ =~= all[i as int]);
            entries.push(piece);
            assert(views(entries@) =~= before.push(all[i as int]));
        }
        i = i + 1;
    }
    assert(all.take(i as int) =~= all);
    entries
}

fn contains_entry(parts: &Vec<Vec<char>>, entry: &Vec<char>) -> (res: bool)
    ensures
        res == views(parts@).contains(entry@),
{
    let ghost all = views(parts@);
    let mut i: usize = 0;
    while i < parts.len()
        invariant
            all == views(parts@),
            i <= parts.len(),
            forall|k: int| 0 <= k < i ==> all[k] != entry@,
        decreases parts.len() - i,
    {
        if eq_chars(&parts[i], entry) {
            assert(all[i as int] == entry@);
            return true;
        }
        i = i + 1;
    }
    false
}

/// The pieces joined with commas.
fn join_commas(parts: &Vec<Vec<char>>) -> (joined: String)
    ensures
        joined@ == join(views(parts@), ","@),
{
    let ghost all = views(parts@);
    let mut joined = String::new();
    let mut i: usize = 0;
    assert(all.take(0) =~= Seq::<Seq<char>>::empty());
    while i < parts.len()
        invariant
            all == views(parts@),
            i <= parts.len(),
            joined@ == join(all.take(i as int), ","@),
        decreases parts.len() - i,
    {
        let ghost before = joined@;
        assert(all.take(i + 1).drop_last() =~= all.take(i as int));
        assert(all.take(i + 1).last() == all[i as int]);
        if i > 0 {
            joined.append(",");
        }
        let piece = string_from(&parts[i]);
        joined.append(piece.as_str());
        proof {
            reveal_strlit(",");
            if i == 0 {
                assert(all.take(1)[0] == all[0]);
                assert(joined@ =~= all[0]);
            } else {
                assert(joined@ =~= before + ","@ + all[i as int]);
            }
        }
        i = i + 1;
    }
    assert(all.take(i as int) =~= all);
    joined
}

/// `--disable-features` and `--enable-features` are merged with what CEF already set: the entries
/// of `existing`, then each entry of `value` that is not among them yet, joined with commas.
pub fn merge_feature_lists(existing: &str, value: &str) -> (merged: String)
    ensures
        merged@ == merged_list(existing@, value@),
{
    let mut parts = entries_of(&chars_of(existing));
    let values = entries_of(&chars_of(value));
    let ghost start = views(parts@);
    let ghost vs = views(values@);
    let mut i: usize = 0;
    assert(vs.take(0) =~= Seq::<Seq<char>>::empty());
    while i < values.len()
        invariant
            vs == views(values@),
            vs == list_entries(value@),
            start == list_entries(existing@),
            i <= values.len(),
            views(parts@) == add_missing(start, vs.take(i as int)),
        decreases values.len() - i,
    {
        let ghost before = views(parts@);
        assert(vs.take(i + 1).drop_last() =~= vs.take(i as int));
        assert(vs.take(i + 1).last() == vs[i as int]);
        if !contains_entry(&parts, &values[i]) {
            let entry = sub_chars(&values[i], 0, values[i].len());
            assert(entry@ =~= vs[i as int]);
            parts.push(entry);
            assert(views(parts@) =~= before.push(vs[i as int]));
        }
        i = i + 1;
    }
    assert(vs.take(i as int) =~= vs);
    join_commas(&parts)
}

/// Merging keeps what was there: the entries already set stay first and in their order.
pub proof fn lemma_add_missing_keeps(parts: Seq<Seq<char>>, vs: Seq<Seq<char>>)
    ensures
        add_missing(parts, vs).len() >= parts.len(),
        add_missing(parts, vs).subrange(0, parts.len() as int) == parts,
    decreases vs.len(),
{
    if vs.len() > 0 {
        lemma_add_missing_keeps(parts, vs.drop_last());
        let before = add_missing(parts, vs.drop_last());
        assert(before.push(vs.last()).subrange(0, parts.len() as int) =~= before.subrange(
            0,
            parts.len() as int,
        ));
    }
}

/// Merging adds ours: every entry of `vs` is in the result, and nothing else is added.
pub proof fn lemma_add_missing_contains(parts: Seq<Seq<char>>, vs: Seq<Seq<char>>)
    ensures
        forall|k: int| 0 <= k < vs.len() ==> add_missing(parts, vs).contains(#[trigger] vs[k]),
        forall|e: Seq<char>|
            add_missing(parts, vs).contains(e) ==> parts.contains(e) || vs.contains(e),
    decreases vs.len(),
{
    if vs.len() > 0 {
        let rest = vs.drop_last();
        lemma_add_missing_contains(parts, rest);
        let before = add_missing(parts, rest);
        assert forall|k: int| 0 <= k < vs.len() implies add_missing(parts, vs).contains(#[trigger] vs[k]) by {
            if k < vs.len() - 1 {
                assert(rest[k] == vs[k]);
                assert(before.contains(rest[k]));
                if !before.contains(vs.last()) {
                    let j = choose|j: int| 0 <= j < before.len() && before[j] == rest[k];
                    assert(before.push(vs.last())[j] == vs[k]);
                }
            } else {
                if !before.contains(vs.last()) {
                    assert(before.push(vs.last())[before.len() as int] == vs[k]);
                }
            }
        }
        assert forall|e: Seq<char>| add_missing(parts, vs).contains(e) implies parts.contains(e)
            || vs.contains(e) by {
            if before.contains(e) {
                if rest.contains(e) {
                    let j = choose|j: int| 0 <= j < rest.len() && rest[j] == e;
                    assert(vs[j] == e);
                }
            } else {
                assert(e == vs.last());
                assert(vs[vs.len() - 1] == e);
            }
        }
    }
}

/// Merging the same entries a second time changes nothing.
pub proof fn lemma_add_missing_idempotent(parts: Seq<Seq<char>>, vs: Seq<Seq<char>>)
    ensures
        add_missing(add_missing(parts, vs), vs) == add_missing(parts, vs),
{
    lemma_add_missing_contains(parts, vs);
    lemma_add_missing_present(add_missing(parts, vs), vs);
}

/// Adding entries that are all present already changes nothing.
proof fn lemma_add_missing_present(parts: Seq<Seq<char>>, vs: Seq<Seq<char>>)
    requires
        forall|k: int| 0 <= k < vs.len() ==> parts.contains(#[trigger] vs[k]),
    ensures
        add_missing(parts, vs) == parts,
    decreases vs.len(),
{
    if vs.len() > 0 {
        let rest = vs.drop_last();
        assert forall|k: int| 0 <= k < rest.len() implies parts.contains(#[trigger] rest[k]) by {
            assert(rest[k] == vs[k]);
        }
        lemma_add_missing_present(parts, rest);
        assert(parts.contains(vs[vs.len() - 1]));
    }
}

/// An entry of a feature list holds no comma.
pub open spec fn comma_free(entry: Seq<char>) -> bool {
    forall|i: int| 0 <= i < entry.len() ==> entry[i] != ','
}

/// The pieces of a text split at its commas hold no comma.
proof fn lemma_split_pieces_comma_free(s: Seq<char>)
    ensures
        forall|k: int| 0 <= k < split_all(s, ","@).len() ==> comma_free(#[trigger] split_all(s, ","@)[k]),
    decreases s.len(),
{
    reveal_strlit(",");
    let p = ","@;
    match find(s, p) {
        Some(i) => {
            crate::text::lemma_find_none(s, p);
            let c = choose|k: int| crate::text::first_at(s, p, k);
            assert(crate::text::first_at(s, p, c));
            assert(c == i);
            if 0 <= i && i + p.len() <= s.len() {
                let rest = s.subrange(i + p.len(), s.len() as int);
                lemma_split_pieces_comma_free(rest);
                assert forall|j: int| 0 <= j < i implies s.subrange(0, i)[j] != ',' by {
                    assert(!occurs_at(s, p, j));
                    if s[j] == ',' {
                        assert(s.subrange(j, j + 1) =~= p);
                    }
                }
                let pieces = split_all(s, p);
                assert forall|k: int| 0 <= k < pieces.len() implies comma_free(#[trigger] pieces[k]) by {
                    if k > 0 {
                        assert(pieces[k] == split_all(rest, p)[k - 1]);
                    }
                }
            }
        },
        None => {
            crate::text::lemma_find_none(s, p);
            assert forall|j: int| 0 <= j < s.len() implies s[j] != ',' by {
                if s[j] == ',' {
                    assert(s.subrange(j, j + 1) =~= p);
                    assert(occurs_at(s, p, j));
                }
            }
        },
    }
}

/// `nonempty` keeps the non-empty pieces and nothing else.
proof fn lemma_nonempty_pieces(ps: Seq<Seq<char>>)
    ensures
        forall|k: int| 0 <= k < nonempty(ps).len() ==> (#[trigger] nonempty(ps)[k]).len() > 0 && ps.contains(nonempty(ps)[k]),
    decreases ps.len(),
{
    if ps.len() > 0 {
        lemma_nonempty_pieces(ps.drop_last());
        let before = nonempty(ps.drop_last());
        assert forall|k: int| 0 <= k < nonempty(ps).len() implies (#[trigger] nonempty(ps)[k]).len() > 0 && ps.contains(
            nonempty(ps)[k],
        ) by {
            if k < before.len() {
                assert(nonempty(ps)[k] == before[k]);
                let j = choose|j: int| 0 <= j < ps.drop_last().len() && ps.drop_last()[j] == before[k];
                assert(ps[j] == before[k]);
            } else {
                assert(nonempty(ps)[k] == ps.last());
                assert(ps[ps.len() - 1] == ps.last());
            }
        }
    }
}

/// The entries of a list are not empty and hold no comma.
proof fn lemma_list_entries_clean(list: Seq<char>)
    ensures
        forall|k: int|
            0 <= k < list_entries(list).len() ==> (#[trigger] list_entries(list)[k]).len() > 0 && comma_free(
                list_entries(list)[k],
            ),
{
    lemma_split_pieces_comma_free(list);
    lemma_nonempty_pieces(split_all(list, ","@));
    assert forall|k: int| 0 <= k < list_entries(list).len() implies (#[trigger] list_entries(list)[k]).len() > 0
        && comma_free(list_entries(list)[k]) by {
        let pieces = split_all(list, ","@);
        let j = choose|j: int| 0 <= j < pieces.len() && pieces[j] == list_entries(list)[k];
        assert(comma_free(pieces[j]));
    }
}

/// `nonempty` of two pieces of a list is `nonempty` of each.
proof fn lemma_nonempty_concat(a: Seq<Seq<char>>, b: Seq<Seq<char>>)
    ensures
        nonempty(a + b) == nonempty(a) + nonempty(b),
    decreases b.len(),
{
    if b.len() == 0 {
        assert(a + b =~= a);
        assert(nonempty(a) + nonempty(b) =~= nonempty(a));
    } else {
        assert((a + b).drop_last() =~= a + b.drop_last());
        assert((a + b).last() == b.last());
        lemma_nonempty_concat(a, b.drop_last());
        if b.last().len() > 0 {
            assert(nonempty(a) + nonempty(b.drop_last()).push(b.last()) =~= (nonempty(a) + nonempty(b.drop_last())).push(
                b.last(),
            ));
        }
    }
}

/// `nonempty` of a single piece.
proof fn lemma_nonempty_single(x: Seq<char>)
    ensures
        nonempty(seq![x]) == if x.len() > 0 {
            seq![x]
        } else {
            Seq::<Seq<char>>::empty()
        },
{
    let empty = Seq::<Seq<char>>::empty();
    assert(seq![x].drop_last() =~= empty);
    assert(nonempty(empty) == empty);
    assert(seq![x].last() == x);
    if x.len() > 0 {
        assert(empty.push(x) =~= seq![x]);
    }
}

/// A join seen from its first piece.
proof fn lemma_join_first(xs: Seq<Seq<char>>, sep: Seq<char>)
    requires
        xs.len() >= 2,
    ensures
        join(xs, sep) == xs[0] + sep + join(xs.drop_first(), sep),
    decreases xs.len(),
{
    if xs.len() == 2 {
        assert(xs.drop_last().len() == 1);
        assert(xs.drop_first().len() == 1);
        assert(join(xs.drop_last(), sep) == xs[0]);
        assert(join(xs.drop_first(), sep) == xs[1]);
        assert(xs.last() == xs[1]);
    } else {
        lemma_join_first(xs.drop_last(), sep);
        assert(xs.drop_last().drop_first() =~= xs.drop_first().drop_last());
        assert(xs.drop_first().last() == xs.last());
        assert(xs.drop_last()[0] == xs[0]);
        assert(join(xs, sep) =~= xs[0] + sep + join(xs.drop_first(), sep));
    }
}

/// Splitting a list that was joined from clean entries gives the entries back.
proof fn lemma_entries_of_join(xs: Seq<Seq<char>>)
    requires
        forall|k: int| 0 <= k < xs.len() ==> (#[trigger] xs[k]).len() > 0 && comma_free(xs[k]),
    ensures
        list_entries(join(xs, ","@)) == xs,
    decreases xs.len(),
{
    reveal_strlit(",");
    let p = ","@;
    let s = join(xs, p);
    if xs.len() == 0 {
        crate::text::lemma_find_none(s, p);
        assert(s.len() == 0);
        lemma_nonempty_single(s);
    } else if xs.len() == 1 {
        crate::text::lemma_find_none(s, p);
        assert(s == xs[0]);
        if crate::text::contains(s, p) {
            let j = choose|j: int| occurs_at(s, p, j);
            assert(s.subrange(j, j + 1)[0] == s[j]);
        }
        lemma_nonempty_single(s);
        assert(xs =~= seq![s]);
    } else {
        let rest = xs.drop_first();
        lemma_join_first(xs, p);
        let x0 = xs[0];
        let tail = join(rest, p);
        assert(s == x0 + p + tail);
        let n = x0.len() as int;
        assert(s.subrange(n, n + 1) =~= p);
        assert forall|j: int| 0 <= j < n implies !occurs_at(s, p, j) by {
            if occurs_at(s, p, j) {
                assert(s.subrange(j, j + 1)[0] == s[j]);
                assert(s[j] == x0[j]);
            }
        }
        assert(crate::text::first_at(s, p, n));
        crate::text::lemma_find_is_first(s, p, n);
        assert(s.subrange(0, n) =~= x0);
        assert(s.subrange(n + 1, s.len() as int) =~= tail);
        assert(split_all(s, p) == seq![x0] + split_all(tail, p));
        assert forall|k: int| 0 <= k < rest.len() implies (#[trigger] rest[k]).len() > 0 && comma_free(rest[k]) by {
            assert(rest[k] == xs[k + 1]);
        }
        lemma_entries_of_join(rest);
        lemma_nonempty_concat(seq![x0], split_all(tail, p));
        lemma_nonempty_single(x0);
        assert(xs =~= seq![x0] + rest);
    }
}

/// Merging our entries into a list gives, read back, the entries that were set and then each of
/// ours that was missing: `merged_list` in terms of entries.
pub proof fn lemma_merged_entries(existing: Seq<char>, value: Seq<char>)
    ensures
        list_entries(merged_list(existing, value)) == add_missing(list_entries(existing), list_entries(value)),
{
    let parts = list_entries(existing);
    let vs = list_entries(value);
    let merged = add_missing(parts, vs);
    lemma_list_entries_clean(existing);
    lemma_list_entries_clean(value);
    lemma_add_missing_contains(parts, vs);
    assert forall|k: int| 0 <= k < merged.len() implies (#[trigger] merged[k]).len() > 0 && comma_free(merged[k]) by {
        assert(merged.contains(merged[k]));
        if parts.contains(merged[k]) {
            let j = choose|j: int| 0 <= j < parts.len() && parts[j] == merged[k];
            assert(parts[j].len() > 0 && comma_free(parts[j]));
        } else {
            let j = choose|j: int| 0 <= j < vs.len() && vs[j] == merged[k];
            assert(vs[j].len() > 0 && comma_free(vs[j]));
        }
    }
    lemma_entries_of_join(merged);
}

/// Merging the same list a second time into the merged one changes nothing.
pub proof fn lemma_merge_idempotent(existing: Seq<char>, value: Seq<char>)
    ensures
        merged_list(merged_list(existing, value), value) == merged_list(existing, value),
{
    lemma_merged_entries(existing, value);
    lemma_add_missing_idempotent(list_entries(existing), list_entries(value));
}

// ---------------------------------------------------------------------------------------------
// Flags on chromium's command line
// ---------------------------------------------------------------------------------------------

/// How one of our flags goes onto chromium's command line.
#[derive(PartialEq, Eq, Debug)]
pub enum SwitchAction {
    /// A feature list (`enable-features`, `disable-features`), merged with what CEF set.
    MergeList { key: String, value: String },
    /// `key=value`.
    WithValue { key: String, value: String },
    /// A switch without a value.
    Bare { name: String },
}

/// `SwitchAction` with its texts as character sequences.
pub enum SwitchRequest {
    MergeList { key: Seq<char>, value: Seq<char> },
    WithValue { key: Seq<char>, value: Seq<char> },
    Bare { name: Seq<char> },
}

impl View for SwitchAction {
    type V = SwitchRequest;

    open spec fn view(&self) -> SwitchRequest {
        match self {
            SwitchAction::MergeList { key, value } => SwitchRequest::MergeList { key: key@, value: value@ },
            SwitchAction::WithValue { key, value } => SwitchRequest::WithValue { key: key@, value: value@ },
            SwitchAction::Bare { name } => SwitchRequest::Bare { name: name@ },
        }
    }
}

/// `s` without every leading "--" (`str::trim_start_matches("--")`).
pub open spec fn trim_dashes(s: Seq<char>) -> Seq<char>
    decreases s.len(),
{
    if s.len() >= 2 && has_prefix(s, "--"@) {
        trim_dashes(s.subrange(2, s.len() as int))
    } else {
        s
    }
}

/// How a flag goes onto chromium's command line: without its leading dashes, split at the first
/// `=`, the feature lists merged, other `key=value` flags with their value, the rest bare.
pub open spec fn switch_request(flag: Seq<char>) -> SwitchRequest {
    let f = trim_dashes(flag);
    match split_once(f, "="@) {
        Some((key, value)) => if key == "disable-features"@ || key == "enable-features"@ {
            SwitchRequest::MergeList { key, value }
        } else {
            SwitchRequest::WithValue { key, value }
        },
        None => SwitchRequest::Bare { name: f },
    }
}

/// How a flag goes onto chromium's command line (see `switch_request`).
pub fn switch_action(flag: &str) -> (action: SwitchAction)
    ensures
        action@ == switch_request(flag@),
{
    let dashes = chars_of("--");
    proof {
        reveal_strlit("--");
    }
    let mut f = chars_of(flag);
    while f.len() >= 2 && has_prefix_exec(&f, &dashes)
        invariant
            dashes@ == "--"@,
            trim_dashes(f@) == trim_dashes(flag@),
        decreases f.len(),
    {
        f = sub_chars(&f, 2, f.len());
    }
    assert(trim_dashes(f@) == f@);
    let equals = chars_of("=");
    match split_once_exec(&f, &equals) {
        Some((key, value)) => {
            if eq_chars(&key, &chars_of("disable-features")) || eq_chars(&key, &chars_of("enable-features")) {
                SwitchAction::MergeList { key: string_from(&key), value: string_from(&value) }
            } else {
                SwitchAction::WithValue { key: string_from(&key), value: string_from(&value) }
            }
        },
        None => SwitchAction::Bare { name: string_from(&f) },
    }
}

// ---------------------------------------------------------------------------------------------
// The flags and the features they enable
// ---------------------------------------------------------------------------------------------

/// A text in which `c` does not stand splits into itself alone.
proof fn lemma_no_separator(s: Seq<char>, c: char)
    requires
        forall|i: int| 0 <= i < s.len() ==> s[i] != c,
    ensures
        find(s, seq![c]) is None,
        split_all(s, seq![c]) == seq![s],
        split_once(s, seq![c]) is None,
{
    assert forall|i: int| !occurs_at(s, seq![c], i) by {
        if occurs_at(s, seq![c], i) {
            assert(s.subrange(i, i + 1)[0] == s[i]);
        }
    }
    crate::text::lemma_find_none(s, seq![c]);
}

/// The patched chromium's raw input feature is on with the client's flags unless the player's own
/// list disables it: the client always appends `--enable-features=KuteRawInputMovementOnly`.
pub proof fn lemma_raw_input_feature_on(
    base: Seq<Seq<char>>,
    bench: Option<Seq<Seq<char>>>,
    uncap_fps: bool,
    angle_backend: Seq<char>,
    color_profile: Seq<char>,
)
    requires
        !switch_names(
            chromium_flag_list(base, bench, uncap_fps, angle_backend, color_profile),
            "--disable-features="@,
            "KuteRawInputMovementOnly"@,
        ),
    ensures
        feature_on(
            chromium_flag_list(base, bench, uncap_fps, angle_backend, color_profile),
            "KuteRawInputMovementOnly"@,
        ),
{
    let flags = chromium_flag_list(base, bench, uncap_fps, angle_backend, color_profile);
    let last = flags.len() - 1;
    let name = "KuteRawInputMovementOnly"@;
    reveal_strlit("--enable-features=KuteRawInputMovementOnly");
    reveal_strlit("--enable-features=");
    reveal_strlit("KuteRawInputMovementOnly");
    reveal_strlit(",");
    reveal_strlit(":");
    assert(flags[last] == "--enable-features=KuteRawInputMovementOnly"@);
    assert(flags[last].subrange(0, 18) =~= "--enable-features="@);
    assert(flags[last].subrange(18, flags[last].len() as int) =~= name);
    assert(strip_prefix(flags[last], "--enable-features="@) == Some(name));
    assert(","@ =~= seq![',']);
    assert(":"@ =~= seq![':']);
    lemma_no_separator(name, ',');
    lemma_no_separator(name, ':');
    assert(split_all(name, ","@)[0] == name);
    assert(feature_name(name) == name);
    assert(list_names(name, name));
}


/// The graphics backends and color profiles by their setting names; "Default" and any other name
/// set no switch.
pub proof fn lemma_backend_and_profile_names()
    ensures
        angle_backend_value("D3D11"@) == Some("d3d11"@),
        angle_backend_value("D3D11on12"@) == Some("d3d11on12"@),
        angle_backend_value("OpenGL"@) == Some("gl"@),
        angle_backend_value("Vulkan"@) == Some("vulkan"@),
        angle_backend_value("Default"@) is None,
        color_profile_value("sRGB"@) == Some("srgb"@),
        color_profile_value("Display P3 D65"@) == Some("display-p3-d65"@),
        color_profile_value("Extended sRGB"@) == Some("extended-srgb"@),
        color_profile_value("scRGB linear"@) == Some("scrgb-linear"@),
        color_profile_value("HDR10"@) == Some("hdr10"@),
        color_profile_value("Default"@) is None,
{
    reveal_strlit("D3D11");
    reveal_strlit("D3D11on12");
    reveal_strlit("OpenGL");
    reveal_strlit("Vulkan");
    reveal_strlit("Default");
    reveal_strlit("sRGB");
    reveal_strlit("Display P3 D65");
    reveal_strlit("Extended sRGB");
    reveal_strlit("scRGB linear");
    reveal_strlit("HDR10");
    assert("D3D11"@.len() == 5 && "D3D11on12"@.len() == 9 && "OpenGL"@.len() == 6 && "Vulkan"@.len() == 6);
    assert("OpenGL"@[0] != "Vulkan"@[0]);
    assert("Default"@.len() == 7 && "Default"@[0] != "D3D11"@[1]);
    assert("sRGB"@.len() == 4 && "Display P3 D65"@.len() == 14 && "Extended sRGB"@.len() == 13);
    assert("scRGB linear"@.len() == 12 && "HDR10"@.len() == 5);
}

/// The flags handed to chromium: the base list comes first and unchanged; then the bench flags of a
/// bench run, or `--disable-frame-rate-limit` when the FPS are uncapped; then the backend and the
/// color profile where one is set; the raw input feature always comes last.
pub proof fn lemma_flag_list(
    base: Seq<Seq<char>>,
    bench: Option<Seq<Seq<char>>>,
    uncap_fps: bool,
    angle_backend: Seq<char>,
    color_profile: Seq<char>,
)
    ensures
        ({
            let flags = chromium_flag_list(base, bench, uncap_fps, angle_backend, color_profile);
            let n = base.len() as int;
            &&& flags.subrange(0, n) == base
            &&& flags.last() == "--enable-features=KuteRawInputMovementOnly"@
            &&& (bench matches Some(extra) ==> flags.subrange(n, n + extra.len()) == extra)
            &&& (bench is None && uncap_fps ==> flags[n] == "--disable-frame-rate-limit"@)
            &&& (bench is None && !uncap_fps && angle_backend_value(angle_backend) is None && color_profile_value(
                color_profile,
            ) is None ==> flags.len() == n + 1)
            &&& (angle_backend_value(angle_backend) matches Some(v) ==> flag_listed(flags, "--use-angle="@ + v))
            &&& (color_profile_value(color_profile) matches Some(v) ==> flag_listed(
                flags,
                "--force-color-profile="@ + v,
            ))
        }),
{
    let flags = chromium_flag_list(base, bench, uncap_fps, angle_backend, color_profile);
    let n = base.len() as int;
    assert(flags.subrange(0, n) =~= base);
    if let Some(extra) = bench {
        assert(flags.subrange(n, n + extra.len()) =~= extra);
    }
    let with_bench = match bench {
        Some(extra) => base + extra,
        None => if uncap_fps {
            base.push("--disable-frame-rate-limit"@)
        } else {
            base
        },
    };
    let with_angle = match angle_backend_value(angle_backend) {
        Some(backend) => with_bench.push("--use-angle="@ + backend),
        None => with_bench,
    };
    if let Some(v) = angle_backend_value(angle_backend) {
        assert(flags[with_bench.len() as int] == "--use-angle="@ + v);
    }
    if let Some(v) = color_profile_value(color_profile) {
        assert(flags[with_angle.len() as int] == "--force-color-profile="@ + v);
    }
}


/// A name that does not start with a dash keeps all of itself behind its two dashes.
proof fn lemma_trim_two_dashes(name: Seq<char>)
    requires
        name.len() == 0 || name[0] != '-',
    ensures
        trim_dashes("--"@ + name) == name,
{
    reveal_strlit("--");
    let f = "--"@ + name;
    assert(f.subrange(0, 2) =~= "--"@);
    assert(f.subrange(2, f.len() as int) =~= name);
    assert("--"@.len() == 2);
    assert(has_prefix(f, "--"@));
    if name.len() >= 2 && has_prefix(name, "--"@) {
        assert(name.subrange(0, 2)[0] == name[0]);
        assert("--"@[0] == '-');
    }
    assert(trim_dashes(name) == name);
    assert(trim_dashes(f) == trim_dashes(f.subrange(2, f.len() as int)));
}

/// How a flag goes onto chromium's command line: "--<key>=<value>" is merged into chromium's own
/// list for `enable-features` and `disable-features` and set with its value otherwise; "--<name>"
/// without a value is a bare switch.
pub proof fn lemma_switch_requests(key: Seq<char>, value: Seq<char>)
    requires
        key.len() > 0,
        key[0] != '-',
        forall|i: int| 0 <= i < key.len() ==> key[i] != '=',
    ensures
        switch_request("--"@ + key + "="@ + value) == if key == "enable-features"@ || key == "disable-features"@ {
            SwitchRequest::MergeList { key, value }
        } else {
            SwitchRequest::WithValue { key, value }
        },
        switch_request("--"@ + key) == (SwitchRequest::Bare { name: key }),
{
    reveal_strlit("=");
    assert("--"@ + key + "="@ + value =~= "--"@ + (key + "="@ + value));
    lemma_trim_two_dashes(key + "="@ + value);
    crate::text::lemma_split_at_first(key, '=', value);
    assert("="@ =~= seq!['=']);
    assert(key + seq!['='] + value =~= key + "="@ + value);
    lemma_trim_two_dashes(key);
    crate::text::lemma_find_none(key, "="@);
    if crate::text::contains(key, "="@) {
        let i = choose|i: int| occurs_at(key, "="@, i);
        assert(key.subrange(i, i + 1)[0] == key[i]);
    }
}

} // verus!
