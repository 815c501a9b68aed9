//! The client's decisions about URLs: which page is a mod page, where F4 goes, which links open in the
//! player's browser, which requests signal a lobby change or are cancelled.
use crate::text::{
    chars_of, contains, contains_exec, eq_chars, has_prefix, has_prefix_exec, is_white_space, is_white_space_exec,
    split_all, split_all_exec, split_once, split_once_exec, strip_prefix, strip_prefix_exec, trim, trim_exec,
    views,
};
use vstd::prelude::*;

verus! {

broadcast use vstd::string::group_string_axioms;

/// What stands before the first `sep` in `s`, or all of `s` (`s.split(sep).next()`).
pub open spec fn first_field(s: Seq<char>, sep: Seq<char>) -> Seq<char> {
    match split_once(s, sep) {
        Some((head, _)) => head,
        None => s,
    }
}

fn first_field_exec(s: &Vec<char>, sep: &Vec<char>) -> (head: Vec<char>)
    ensures
        head@ == first_field(s@, sep@),
{
    match split_once_exec(s, sep) {
        Some((head, _)) => head,
        None => crate::text::sub_chars(s, 0, s.len()),
    }
}

/// The query of a Krunker game page URL: what follows "https://krunker.io/?" or "https://krunker.io?".
pub open spec fn krunker_query(url: Seq<char>) -> Option<Seq<char>> {
    match strip_prefix(url, "https://krunker.io"@) {
        Some(rest) => match strip_prefix(rest, "/?"@) {
            Some(query) => Some(query),
            None => strip_prefix(rest, "?"@),
        },
        None => None,
    }
}

/// The query, up to its fragment, has a parameter named "mod".
pub open spec fn query_has_mod(query: Seq<char>) -> bool {
    let pairs = split_all(first_field(query, "#"@), "&"@);
    exists|j: int| 0 <= j < pairs.len() && first_field(#[trigger] pairs[j], "="@) == "mod"@
}

/// Krunker's game page with a mod to load (krunker.io/?mod=<name>).
pub open spec fn mod_page(url: Seq<char>) -> bool {
    match krunker_query(url) {
        Some(query) => query_has_mod(query),
        None => false,
    }
}

/// Krunker's game page with a mod to load (krunker.io/?mod=<name>), what the "Use" button of a mod's
/// detail view opens.
pub fn is_mod_page(url: &str) -> (res: bool)
    ensures
        res == mod_page(url@),
{
    let chars = chars_of(url);
    let rest = match strip_prefix_exec(&chars, &chars_of("https://krunker.io")) {
        Some(rest) => rest,
        None => return false,
    };
    let query = match strip_prefix_exec(&rest, &chars_of("/?")) {
        Some(query) => query,
        None => match strip_prefix_exec(&rest, &chars_of("?")) {
            Some(query) => query,
            None => return false,
        },
    };
    let amp = chars_of("&");
    proof {
        reveal_strlit("&");
    }
    let before_fragment = first_field_exec(&query, &chars_of("#"));
    let pairs = split_all_exec(&before_fragment, &amp);
    let ghost all = views(pairs@);
    let name = chars_of("mod");
    let equals = chars_of("=");
    let mut j: usize = 0;
    while j < pairs.len()
        invariant
            all == views(pairs@),
            all == split_all(first_field(query@, "#"@), "&"@),
            krunker_query(url@) == Some(query@),
            name@ == "mod"@,
            equals@ == "="@,
            j <= pairs.len(),
            forall|k: int| 0 <= k < j ==> first_field(#[trigger] all[k], "="@) != "mod"@,
        decreases pairs.len() - j,
    {
        if eq_chars(&first_field_exec(&pairs[j], &equals), &name) {
            assert(first_field(all[j as int], "="@) == "mod"@);
            return true;
        }
        j = j + 1;
    }
    false
}

/// Where F4 (and F6 without the matchmaker) goes from the page at `url`: a new lobby that is not the
/// current game ("game=<id>" in the URL, trimmed), or Krunker's front page.
pub open spec fn next_lobby_url(url: Seq<char>) -> Seq<char> {
    match split_once(url, "game="@) {
        Some((_, after)) => if trim(after).len() > 0 {
            "https://krunker.io/?exclude="@ + trim(after)
        } else {
            "https://krunker.io/"@
        },
        None => "https://krunker.io/"@,
    }
}

/// Where F4 goes from the page at `current_url` (see `next_lobby_url`).
pub fn lobby_url(current_url: &str) -> (url: String)
    ensures
        url@ == next_lobby_url(current_url@),
{
    let chars = chars_of(current_url);
    match split_once_exec(&chars, &chars_of("game=")) {
        Some((_, after)) => {
            let id = trim_exec(&after);
            if id.len() > 0 {
                let mut url = "https://krunker.io/?exclude=".to_owned();
                let id_text = crate::text::string_from(&id);
                url.append(id_text.as_str());
                url
            } else {
                "https://krunker.io/".to_owned()
            }
        },
        None => "https://krunker.io/".to_owned(),
    }
}

/// `s` without every trailing '/' (`str::trim_end_matches('/')`).
pub open spec fn trim_slashes(s: Seq<char>) -> Seq<char>
    decreases s.len(),
{
    if s.len() > 0 && s.last() == '/' {
        trim_slashes(s.drop_last())
    } else {
        s
    }
}

/// The URL starts with one of the allowed prefixes or is one of them without its trailing slashes.
pub open spec fn url_allowed(url: Seq<char>, allowed: Seq<Seq<char>>) -> bool {
    exists|i: int| 0 <= i < allowed.len() && (has_prefix(url, #[trigger] allowed[i]) || url == trim_slashes(allowed[i]))
}

/// The URL holds white space or a '"'.
pub open spec fn url_has_unsafe_char(url: Seq<char>) -> bool {
    exists|i: int| 0 <= i < url.len() && (is_white_space(#[trigger] url[i]) || url[i] == '"')
}

/// A link of the about popup opens in the player's browser: it is allowed and holds no white space
/// and no '"'.
pub open spec fn url_opens(url: Seq<char>, allowed: Seq<Seq<char>>) -> bool {
    url_allowed(url, allowed) && !url_has_unsafe_char(url)
}

/// The texts of a list of strings.
pub open spec fn texts(list: Seq<String>) -> Seq<Seq<char>> {
    list.map_values(|s: String| s@)
}

fn trim_slashes_exec(s: &Vec<char>) -> (res: Vec<char>)
    ensures
        res@ == trim_slashes(s@),
{
    let mut end = s.len();
    assert(s@.subrange(0, s@.len() as int) =~= s@);
    while end > 0 && s[end - 1] == '/'
        invariant
            end <= s.len(),
            trim_slashes(s@.subrange(0, end as int)) == trim_slashes(s@),
        decreases end,
    {
        assert(s@.subrange(0, end as int).drop_last() =~= s@.subrange(0, end - 1));
        end = end - 1;
    }
    assert(s@.subrange(0, end as int).len() == 0 || s@.subrange(0, end as int).last() != '/');
    let res = crate::text::sub_chars(s, 0, end);
    proof {
        assert(s@.subrange(0, s@.len() as int) =~= s@);
    }
    res
}

fn is_allowed(chars: &Vec<char>, allowed: &Vec<String>) -> (res: bool)
    ensures
        res == url_allowed(chars@, texts(allowed@)),
{
    let ghost t = texts(allowed@);
    let mut i: usize = 0;
    while i < allowed.len()
        invariant
            t == texts(allowed@),
            i <= allowed.len(),
            forall|k: int| 0 <= k < i ==> !(has_prefix(chars@, #[trigger] t[k]) || chars@ == trim_slashes(t[k])),
        decreases allowed.len() - i,
    {
        let prefix = chars_of(allowed[i].as_str());
        if has_prefix_exec(chars, &prefix) || eq_chars(chars, &trim_slashes_exec(&prefix)) {
            assert(has_prefix(chars@, t[i as int]) || chars@ == trim_slashes(t[i as int]));
            return true;
        }
        i = i + 1;
    }
    false
}

/// Whether a link of the about popup opens in the player's browser (see `url_opens`).
pub fn url_may_open(url: &str, allowed: &Vec<String>) -> (res: bool)
    ensures
        res == url_opens(url@, texts(allowed@)),
{
    let chars = chars_of(url);
    if !is_allowed(&chars, allowed) {
        return false;
    }
    let mut j: usize = 0;
    while j < chars.len()
        invariant
            chars@ == url@,
            j <= chars.len(),
            forall|k: int| 0 <= k < j ==> !(is_white_space(#[trigger] url@[k]) || url@[k] == '"'),
        decreases chars.len() - j,
    {
        if is_white_space_exec(chars[j]) || chars[j] == '"' {
            assert(is_white_space(url@[j as int]) || url@[j as int] == '"');
            return false;
        }
        j = j + 1;
    }
    true
}

/// The page is Krunker itself: an https URL that Krunker's path can be read from.
pub open spec fn krunker_frame(url: Seq<char>, has_krunker_path: bool) -> bool {
    has_prefix(url, "https://"@) && has_krunker_path
}

/// Whether the manager commands are accepted from the frame at `url`; `has_krunker_path` tells
/// whether a Krunker path can be read from the URL.
pub fn is_krunker_frame_url(url: &str, has_krunker_path: bool) -> (res: bool)
    ensures
        res == krunker_frame(url@, has_krunker_path),
{
    has_prefix_exec(&chars_of(url), &chars_of("https://")) && has_krunker_path
}

/// What happens to a resource request.
#[derive(Clone, Copy, PartialEq, Eq, Structural, Debug)]
pub enum ResourceAction {
    /// A Krunker lobby request: tell the page the game changed, and let it through.
    SignalGameUpdated,
    /// On the blocklist: cancelled.
    Cancel,
    /// Let through.
    Continue,
}

/// What happens to a request for `url`: a Krunker game-info or ranked-lobby request signals a game
/// update and goes through; anything else on the blocklist is cancelled.
pub open spec fn resource_action_of(url: Seq<char>, blocked: bool) -> ResourceAction {
    if contains(url, "krunker.io"@) && (contains(url, "game-info"@) || contains(url, "lobby-ranked"@)) {
        ResourceAction::SignalGameUpdated
    } else if blocked {
        ResourceAction::Cancel
    } else {
        ResourceAction::Continue
    }
}

/// What happens to a request for `url` (see `resource_action_of`); `blocked` tells whether the
/// blocklist holds the URL.
pub fn resource_action(url: &str, blocked: bool) -> (action: ResourceAction)
    ensures
        action == resource_action_of(url@, blocked),
{
    let chars = chars_of(url);
    if contains_exec(&chars, &chars_of("krunker.io")) && (contains_exec(&chars, &chars_of("game-info"))
        || contains_exec(&chars, &chars_of("lobby-ranked"))) {
        ResourceAction::SignalGameUpdated
    } else if blocked {
        ResourceAction::Cancel
    } else {
        ResourceAction::Continue
    }
}

/// A popup asking for a mod page loads it in the main window instead, when there is one.
pub fn popup_goes_to_main(url: &str, has_main_browser: bool) -> (res: bool)
    ensures
        res == (mod_page(url@) && has_main_browser),
{
    is_mod_page(url) && has_main_browser
}

/// The file or folder of the settings folder that an "open" message shows in Explorer.
pub open spec fn documents_subpath(target: Seq<char>) -> Option<Seq<char>> {
    if target == "blocklist"@ {
        Some("user_blocklist.json"@)
    } else if target == "swapper"@ {
        Some("swapper"@)
    } else if target == "userscripts"@ {
        Some("scripts"@)
    } else {
        None
    }
}

/// The file or folder of the settings folder that an "open" message shows (see `documents_subpath`).
pub fn documents_subpath_of(target: &str) -> (res: Option<&'static str>)
    ensures
        match res {
            Some(path) => documents_subpath(target@) == Some(path@),
            None => documents_subpath(target@) is None,
        },
{
    let t = chars_of(target);
    if eq_chars(&t, &chars_of("blocklist")) {
        Some("user_blocklist.json")
    } else if eq_chars(&t, &chars_of("swapper")) {
        Some("swapper")
    } else if eq_chars(&t, &chars_of("userscripts")) {
        Some("scripts")
    } else {
        None
    }
}


/// What a request does: a lobby request (to krunker.io, for game-info or lobby-ranked) signals the
/// page whether or not it is blocked; any other request is cancelled exactly when it is blocked.
pub proof fn lemma_resource_actions(url: Seq<char>)
    ensures
        (resource_action_of(url, true) == ResourceAction::SignalGameUpdated) == (resource_action_of(url, false)
            == ResourceAction::SignalGameUpdated),
        resource_action_of(url, true) != ResourceAction::Continue,
        resource_action_of(url, false) != ResourceAction::Cancel,
        (contains(url, "krunker.io"@) && contains(url, "game-info"@)) ==> resource_action_of(url, true)
            == ResourceAction::SignalGameUpdated,
        (contains(url, "krunker.io"@) && contains(url, "lobby-ranked"@)) ==> resource_action_of(url, true)
            == ResourceAction::SignalGameUpdated,
        !contains(url, "krunker.io"@) ==> resource_action_of(url, true) == ResourceAction::Cancel
            && resource_action_of(url, false) == ResourceAction::Continue,
{
}

/// The documents folders the page may open, by their names; nothing else opens.
pub proof fn lemma_documents_subpaths(other: Seq<char>)
    ensures
        documents_subpath("blocklist"@) == Some("user_blocklist.json"@),
        documents_subpath("swapper"@) == Some("swapper"@),
        documents_subpath("userscripts"@) == Some("scripts"@),
        other != "blocklist"@ && other != "swapper"@ && other != "userscripts"@ ==> documents_subpath(other) is None,
{
    reveal_strlit("blocklist");
    reveal_strlit("swapper");
    reveal_strlit("userscripts");
    assert("blocklist"@.len() == 9 && "swapper"@.len() == 7 && "userscripts"@.len() == 11);
}

/// A link opens only when it starts with (or is, without its trailing slashes) an allowed prefix
/// and holds no white space and no '"'; every such link opens.
pub proof fn lemma_links_open(url: Seq<char>, allowed: Seq<Seq<char>>, i: int)
    ensures
        url_has_unsafe_char(url) ==> !url_opens(url, allowed),
        0 <= i < allowed.len() && has_prefix(url, allowed[i]) && !url_has_unsafe_char(url) ==> url_opens(url, allowed),
        0 <= i < allowed.len() && url == trim_slashes(allowed[i]) && !url_has_unsafe_char(url) ==> url_opens(url, allowed),
        (forall|k: int| 0 <= k < allowed.len() ==> !has_prefix(url, #[trigger] allowed[k]) && url != trim_slashes(allowed[k]))
            ==> !url_opens(url, allowed),
{
}

/// F4 always goes to Krunker: to its front page when the page's URL names no game, else to a new
/// lobby excluding a game id that is not empty.
pub proof fn lemma_lobby_urls(url: Seq<char>)
    ensures
        has_prefix(next_lobby_url(url), "https://krunker.io/"@),
        !contains(url, "game="@) ==> next_lobby_url(url) == "https://krunker.io/"@,
        next_lobby_url(url) != "https://krunker.io/"@ ==> exists|id: Seq<char>|
            id.len() > 0 && next_lobby_url(url) == "https://krunker.io/?exclude="@ + id,
{
    reveal_strlit("https://krunker.io/");
    reveal_strlit("https://krunker.io/?exclude=");
    crate::text::lemma_find_none(url, "game="@);
    let front = "https://krunker.io/"@;
    let exclude = "https://krunker.io/?exclude="@;
    assert(has_prefix(front, front)) by {
        assert(front.subrange(0, front.len() as int) =~= front);
    }
    match split_once(url, "game="@) {
        Some((_, after)) => {
            let id = trim(after);
            if id.len() > 0 {
                assert((exclude + id).subrange(0, front.len() as int) =~= front);
                assert(next_lobby_url(url) == exclude + id);
            }
        },
        None => {},
    }
}


/// A text without the character `c` does not hold it as a pattern.
proof fn lemma_char_absent(s: Seq<char>, c: char)
    requires
        forall|i: int| 0 <= i < s.len() ==> s[i] != c,
    ensures
        crate::text::find(s, seq![c]) is None,
{
    crate::text::lemma_find_none(s, seq![c]);
    if contains(s, seq![c]) {
        let i = choose|i: int| crate::text::occurs_at(s, seq![c], i);
        assert(s.subrange(i, i + 1)[0] == s[i]);
    }
}

/// The mod pages: Krunker's game page with a "mod" parameter ("https://krunker.io/?mod=<name>") is
/// one; a page that is not on https://krunker.io is none.
pub proof fn lemma_mod_pages(url: Seq<char>, name: Seq<char>)
    requires
        forall|i: int| 0 <= i < name.len() ==> name[i] != '#' && name[i] != '&',
    ensures
        mod_page("https://krunker.io/?mod="@ + name),
        !has_prefix(url, "https://krunker.io"@) ==> !mod_page(url),
{
    reveal_strlit("https://krunker.io/?mod=");
    reveal_strlit("https://krunker.io");
    reveal_strlit("/?");
    reveal_strlit("#");
    reveal_strlit("&");
    reveal_strlit("=");
    reveal_strlit("mod");
    let page = "https://krunker.io/?mod="@ + name;
    let rest = page.subrange(18, page.len() as int);
    assert(page.subrange(0, 18) =~= "https://krunker.io"@);
    assert(rest.subrange(0, 2) =~= "/?"@);
    let query = rest.subrange(2, rest.len() as int);
    assert(query =~= seq!['m', 'o', 'd'] + seq!['='] + name);
    assert(krunker_query(page) == Some(query));
    lemma_char_absent(query, '#');
    assert("#"@ =~= seq!['#']);
    assert(first_field(query, "#"@) == query);
    lemma_char_absent(query, '&');
    assert("&"@ =~= seq!['&']);
    assert(split_all(query, "&"@) == seq![query]);
    crate::text::lemma_split_at_first(seq!['m', 'o', 'd'], '=', name);
    assert("="@ =~= seq!['=']);
    assert(seq!['m', 'o', 'd'] =~= "mod"@);
    assert(first_field(split_all(query, "&"@)[0], "="@) == "mod"@);
}

} // verus!
