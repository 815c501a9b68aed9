//! The commands of the page's managers: accounts ("accounts-<command> <json>"), userscripts
//! ("scripts-<command> <json>") and the resource swapper ("swapper-<command> <json>"), and what each
//! answers.
use crate::json::{
    entry_value, entry_value_of, is_json_text, json_object_entries, json_parses, json_string_value, object_entries, string_value,
};
use crate::text::{
    byte_len, byte_len_exec, chars_of, eq_chars, first_at, lemma_find_is_first, occurs_at, split_once, split_once_exec, string_from,
};
use vstd::prelude::*;

verus! {

broadcast use vstd::string::group_string_axioms;

/// A manager message split at its first space; without a space the whole message is the command and
/// `default_payload` the payload.
pub open spec fn command_and_payload(message: Seq<char>, default_payload: Seq<char>) -> (Seq<char>, Seq<char>) {
    match split_once(message, " "@) {
        Some((command, payload)) => (command, payload),
        None => (message, default_payload),
    }
}

fn split_command(message: &str, default_payload: &str) -> (res: (Vec<char>, Vec<char>))
    ensures
        (res.0@, res.1@) == command_and_payload(message@, default_payload@),
{
    let chars = chars_of(message);
    match split_once_exec(&chars, &chars_of(" ")) {
        Some((command, payload)) => (command, payload),
        None => (chars, chars_of(default_payload)),
    }
}

// ---------------------------------------------------------------------------------------------
// Accounts
// ---------------------------------------------------------------------------------------------

/// What the account manager is asked to do. Every command it carries out answers with the list of
/// accounts.
#[derive(PartialEq, Eq, Debug)]
pub enum AccountsRequest {
    /// Nothing, and no answer: an unknown command or a payload above 64 KiB.
    Nothing,
    /// "list".
    List,
    /// "add <credentials>".
    Add { payload: String },
    /// "migrate <credentials array>".
    Migrate { payload: String },
    /// "remove <{username}>".
    Remove { payload: String },
    /// "login <{username}>".
    Login { payload: String },
}

/// `AccountsRequest` with its payload as a character sequence.
pub enum AccountsCommand {
    Nothing,
    List,
    Add { payload: Seq<char> },
    Migrate { payload: Seq<char> },
    Remove { payload: Seq<char> },
    Login { payload: Seq<char> },
}

impl View for AccountsRequest {
    type V = AccountsCommand;

    open spec fn view(&self) -> AccountsCommand {
        match self {
            AccountsRequest::Nothing => AccountsCommand::Nothing,
            AccountsRequest::List => AccountsCommand::List,
            AccountsRequest::Add { payload } => AccountsCommand::Add { payload: payload@ },
            AccountsRequest::Migrate { payload } => AccountsCommand::Migrate { payload: payload@ },
            AccountsRequest::Remove { payload } => AccountsCommand::Remove { payload: payload@ },
            AccountsRequest::Login { payload } => AccountsCommand::Login { payload: payload@ },
        }
    }
}

/// What "accounts-<message>" asks of the account manager: the message split at its first space
/// (no payload without one); a payload above 64 KiB is not looked at.
pub open spec fn accounts_command(message: Seq<char>) -> AccountsCommand {
    let (command, payload) = command_and_payload(message, ""@);
    if byte_len(payload) > 64 * 1024 {
        AccountsCommand::Nothing
    } else if command == "list"@ {
        AccountsCommand::List
    } else if command == "add"@ {
        AccountsCommand::Add { payload }
    } else if command == "migrate"@ {
        AccountsCommand::Migrate { payload }
    } else if command == "remove"@ {
        AccountsCommand::Remove { payload }
    } else if command == "login"@ {
        AccountsCommand::Login { payload }
    } else {
        AccountsCommand::Nothing
    }
}

/// What "accounts-<message>" asks of the account manager (see `accounts_command`).
pub fn accounts_request(message: &str) -> (request: AccountsRequest)
    ensures
        request@ == accounts_command(message@),
{
    let (command, payload) = split_command(message, "");
    if byte_len_exec(&payload) > 64 * 1024 {
        AccountsRequest::Nothing
    } else if eq_chars(&command, &chars_of("list")) {
        AccountsRequest::List
    } else if eq_chars(&command, &chars_of("add")) {
        AccountsRequest::Add { payload: string_from(&payload) }
    } else if eq_chars(&command, &chars_of("migrate")) {
        AccountsRequest::Migrate { payload: string_from(&payload) }
    } else if eq_chars(&command, &chars_of("remove")) {
        AccountsRequest::Remove { payload: string_from(&payload) }
    } else if eq_chars(&command, &chars_of("login")) {
        AccountsRequest::Login { payload: string_from(&payload) }
    } else {
        AccountsRequest::Nothing
    }
}

/// Whether the account manager answers a request with the list of accounts: every command it
/// knows answers, also one whose payload names no account or does not parse (it then changes
/// nothing); an unknown command or a payload above 64 KiB gets no answer.
pub open spec fn accounts_answered(request: AccountsCommand) -> bool {
    !(request is Nothing)
}

/// Whether the account manager answers the request with the list (see `accounts_answered`).
pub fn accounts_answers(request: &AccountsRequest) -> (res: bool)
    ensures
        res == accounts_answered(request@),
{
    match request {
        AccountsRequest::Nothing => false,
        _ => true,
    }
}

/// "accounts-<message>" is answered with the list exactly when its command is one of "list",
/// "add", "migrate", "remove" and "login" and its payload is at most 64 KiB.
pub proof fn lemma_accounts_answer(message: Seq<char>)
    ensures
        accounts_answered(accounts_command(message)) <==> ({
            let (command, payload) = command_and_payload(message, ""@);
            &&& byte_len(payload) <= 64 * 1024
            &&& (command == "list"@ || command == "add"@ || command == "migrate"@ || command == "remove"@
                || command == "login"@)
        }),
{
}

/// The account a "remove" or "login" payload names: the string of its "username" entry, where the
/// payload is a JSON object with one.
pub open spec fn payload_username(payload: Seq<char>) -> Option<Seq<char>> {
    match json_object_entries(payload) {
        Some(entries) => match entry_value(entries, "username"@) {
            Some(value) => json_string_value(value),
            None => None,
        },
        None => None,
    }
}

/// The account a "remove" or "login" payload names (see `payload_username`); without one the
/// command changes nothing.
pub fn account_username(payload: &str) -> (res: Option<String>)
    ensures
        match res {
            Some(name) => payload_username(payload@) == Some(name@),
            None => payload_username(payload@) is None,
        },
{
    match object_entries(payload) {
        Some(entries) => match entry_value_of(&entries, "username") {
            Some(value) => string_value(value.as_str()),
            None => None,
        },
        None => None,
    }
}

/// A text field of a manager's JSON payload: the string of its entry `key`, empty where the payload
/// is no object, has no such entry, or the entry holds no string.
pub open spec fn payload_text_of(payload: Seq<char>, key: Seq<char>) -> Seq<char> {
    match json_object_entries(payload) {
        Some(entries) => match entry_value(entries, key) {
            Some(value) => match json_string_value(value) {
                Some(text) => text,
                None => ""@,
            },
            None => ""@,
        },
        None => ""@,
    }
}

/// A text field of a manager's JSON payload (see `payload_text_of`).
pub fn payload_text(payload: &str, key: &str) -> (text: String)
    ensures
        text@ == payload_text_of(payload@, key@),
{
    proof {
        reveal_strlit("");
    }
    match object_entries(payload) {
        Some(entries) => match entry_value_of(&entries, key) {
            Some(value) => match string_value(value.as_str()) {
                Some(text) => text,
                None => String::new(),
            },
            None => String::new(),
        },
        None => String::new(),
    }
}

/// A flag of a manager's JSON payload: its entry `key` when that is `true` or `false` (an entry's
/// value is written back as compact JSON, where a flag is exactly one of these two words).
pub open spec fn payload_flag_of(payload: Seq<char>, key: Seq<char>) -> Option<bool> {
    match json_object_entries(payload) {
        Some(entries) => match entry_value(entries, key) {
            Some(value) => if value == "true"@ {
                Some(true)
            } else if value == "false"@ {
                Some(false)
            } else {
                None
            },
            None => None,
        },
        None => None,
    }
}

/// A flag of a manager's JSON payload (see `payload_flag_of`).
pub fn payload_flag(payload: &str, key: &str) -> (flag: Option<bool>)
    ensures
        flag == payload_flag_of(payload@, key@),
{
    match object_entries(payload) {
        Some(entries) => match entry_value_of(&entries, key) {
            Some(value) => {
                let chars = chars_of(value.as_str());
                if eq_chars(&chars, &chars_of("true")) {
                    Some(true)
                } else if eq_chars(&chars, &chars_of("false")) {
                    Some(false)
                } else {
                    None
                }
            },
            None => None,
        },
        None => None,
    }
}

// ---------------------------------------------------------------------------------------------
// The userscript and swapper managers
// ---------------------------------------------------------------------------------------------

/// The manager a queued message is for.
#[derive(Clone, Copy, PartialEq, Eq, Structural, Debug)]
pub enum Manager {
    Scripts,
    Swapper,
}

/// The manager of a queued message and the message for it: the message split at its first '-'.
pub open spec fn manager_of(message: Seq<char>) -> Option<(Manager, Seq<char>)> {
    match split_once(message, "-"@) {
        Some((name, rest)) => if name == "scripts"@ {
            Some((Manager::Scripts, rest))
        } else if name == "swapper"@ {
            Some((Manager::Swapper, rest))
        } else {
            None
        },
        None => None,
    }
}

/// The manager of a queued message and the message for it (see `manager_of`).
pub fn manager_target(message: &str) -> (res: Option<(Manager, String)>)
    ensures
        match res {
            Some((manager, rest)) => manager_of(message@) == Some((manager, rest@)),
            None => manager_of(message@) is None,
        },
{
    let chars = chars_of(message);
    match split_once_exec(&chars, &chars_of("-")) {
        Some((name, rest)) => if eq_chars(&name, &chars_of("scripts")) {
            Some((Manager::Scripts, string_from(&rest)))
        } else if eq_chars(&name, &chars_of("swapper")) {
            Some((Manager::Swapper, string_from(&rest)))
        } else {
            None
        },
        None => None,
    }
}

/// A command of the userscript manager.
#[derive(Clone, Copy, PartialEq, Eq, Structural, Debug)]
pub enum ScriptsCommand {
    List,
    Read,
    Write,
    Toggle,
    Prefs,
    Delete,
    Move,
    Reveal,
}

/// The userscript manager command a word names.
pub open spec fn scripts_command_of(word: Seq<char>) -> Option<ScriptsCommand> {
    if word == "list"@ {
        Some(ScriptsCommand::List)
    } else if word == "read"@ {
        Some(ScriptsCommand::Read)
    } else if word == "write"@ {
        Some(ScriptsCommand::Write)
    } else if word == "toggle"@ {
        Some(ScriptsCommand::Toggle)
    } else if word == "prefs"@ {
        Some(ScriptsCommand::Prefs)
    } else if word == "delete"@ {
        Some(ScriptsCommand::Delete)
    } else if word == "move"@ {
        Some(ScriptsCommand::Move)
    } else if word == "reveal"@ {
        Some(ScriptsCommand::Reveal)
    } else {
        None
    }
}

/// A command of the swapper manager.
#[derive(Clone, Copy, PartialEq, Eq, Structural, Debug)]
pub enum SwapperCommand {
    List,
    Mkdir,
    Delete,
    Move,
    Upload,
    Reveal,
}

/// The swapper manager command a word names.
pub open spec fn swapper_command_of(word: Seq<char>) -> Option<SwapperCommand> {
    if word == "list"@ {
        Some(SwapperCommand::List)
    } else if word == "mkdir"@ {
        Some(SwapperCommand::Mkdir)
    } else if word == "delete"@ {
        Some(SwapperCommand::Delete)
    } else if word == "move"@ {
        Some(SwapperCommand::Move)
    } else if word == "upload"@ {
        Some(SwapperCommand::Upload)
    } else if word == "reveal"@ {
        Some(SwapperCommand::Reveal)
    } else {
        None
    }
}

/// A manager message ("<command> <json>", "{}" without a payload) is carried out when its payload is
/// JSON and it names a command; otherwise nothing happens and nothing is answered.
pub open spec fn manager_request_of<C>(message: Seq<char>, command_of: spec_fn(Seq<char>) -> Option<C>) -> Option<(C, Seq<char>)> {
    let (command, payload) = command_and_payload(message, "{}"@);
    if !is_json_text(payload) {
        None
    } else {
        match command_of(command) {
            Some(c) => Some((c, payload)),
            None => None,
        }
    }
}

/// The userscript manager command of "scripts-<message>" and its JSON payload (see
/// `manager_request_of`).
pub fn scripts_request(message: &str) -> (res: Option<(ScriptsCommand, String)>)
    ensures
        match res {
            Some((command, payload)) => manager_request_of(message@, |w: Seq<char>| scripts_command_of(w))
                == Some((command, payload@)),
            None => manager_request_of(message@, |w: Seq<char>| scripts_command_of(w)) is None,
        },
{
    let (command, payload) = split_command(message, "{}");
    let payload_text = string_from(&payload);
    if !json_parses(payload_text.as_str()) {
        return None;
    }
    let command = if eq_chars(&command, &chars_of("list")) {
        ScriptsCommand::List
    } else if eq_chars(&command, &chars_of("read")) {
        ScriptsCommand::Read
    } else if eq_chars(&command, &chars_of("write")) {
        ScriptsCommand::Write
    } else if eq_chars(&command, &chars_of("toggle")) {
        ScriptsCommand::Toggle
    } else if eq_chars(&command, &chars_of("prefs")) {
        ScriptsCommand::Prefs
    } else if eq_chars(&command, &chars_of("delete")) {
        ScriptsCommand::Delete
    } else if eq_chars(&command, &chars_of("move")) {
        ScriptsCommand::Move
    } else if eq_chars(&command, &chars_of("reveal")) {
        ScriptsCommand::Reveal
    } else {
        return None;
    };
    Some((command, payload_text))
}

/// The swapper manager command of "swapper-<message>" and its JSON payload (see
/// `manager_request_of`).
pub fn swapper_request(message: &str) -> (res: Option<(SwapperCommand, String)>)
    ensures
        match res {
            Some((command, payload)) => manager_request_of(message@, |w: Seq<char>| swapper_command_of(w))
                == Some((command, payload@)),
            None => manager_request_of(message@, |w: Seq<char>| swapper_command_of(w)) is None,
        },
{
    let (command, payload) = split_command(message, "{}");
    let payload_text = string_from(&payload);
    if !json_parses(payload_text.as_str()) {
        return None;
    }
    let command = if eq_chars(&command, &chars_of("list")) {
        SwapperCommand::List
    } else if eq_chars(&command, &chars_of("mkdir")) {
        SwapperCommand::Mkdir
    } else if eq_chars(&command, &chars_of("delete")) {
        SwapperCommand::Delete
    } else if eq_chars(&command, &chars_of("move")) {
        SwapperCommand::Move
    } else if eq_chars(&command, &chars_of("upload")) {
        SwapperCommand::Upload
    } else if eq_chars(&command, &chars_of("reveal")) {
        SwapperCommand::Reveal
    } else {
        return None;
    };
    Some((command, payload_text))
}

/// What a manager answers once a command is carried out.
#[derive(Clone, Copy, PartialEq, Eq, Structural, Debug)]
pub enum ManagerReply {
    /// Nothing.
    Nothing,
    /// The fresh list, with {managerError} when something did not work.
    List,
    /// Only {managerError}, and only when something did not work.
    ProblemsOnly,
    /// The source of the script asked for.
    Source,
    /// The acknowledgement of one uploaded file.
    Uploaded,
}

/// What the userscript manager answers: the source for "read"; nothing for "prefs" (the page shows the
/// change already) and "reveal"; for a "write" of an import that asks for the list once at the end
/// (`no_list`) only the problems; the list for the rest.
pub open spec fn scripts_reply_of(command: ScriptsCommand, no_list: bool) -> ManagerReply {
    match command {
        ScriptsCommand::Read => ManagerReply::Source,
        ScriptsCommand::Prefs => ManagerReply::Nothing,
        ScriptsCommand::Reveal => ManagerReply::Nothing,
        ScriptsCommand::Write => if no_list {
            ManagerReply::ProblemsOnly
        } else {
            ManagerReply::List
        },
        _ => ManagerReply::List,
    }
}

/// What the userscript manager answers (see `scripts_reply_of`).
pub fn scripts_reply(command: ScriptsCommand, no_list: bool) -> (reply: ManagerReply)
    ensures
        reply == scripts_reply_of(command, no_list),
{
    match command {
        ScriptsCommand::Read => ManagerReply::Source,
        ScriptsCommand::Prefs => ManagerReply::Nothing,
        ScriptsCommand::Reveal => ManagerReply::Nothing,
        ScriptsCommand::Write => if no_list {
            ManagerReply::ProblemsOnly
        } else {
            ManagerReply::List
        },
        _ => ManagerReply::List,
    }
}

/// What the swapper manager answers: an acknowledgement per uploaded file (the page sends the next
/// one only then), nothing for "reveal", the list for the rest.
pub open spec fn swapper_reply_of(command: SwapperCommand) -> ManagerReply {
    match command {
        SwapperCommand::Upload => ManagerReply::Uploaded,
        SwapperCommand::Reveal => ManagerReply::Nothing,
        _ => ManagerReply::List,
    }
}

/// What the swapper manager answers (see `swapper_reply_of`).
pub fn swapper_reply(command: SwapperCommand) -> (reply: ManagerReply)
    ensures
        reply == swapper_reply_of(command),
{
    match command {
        SwapperCommand::Upload => ManagerReply::Uploaded,
        SwapperCommand::Reveal => ManagerReply::Nothing,
        _ => ManagerReply::List,
    }
}

/// The problems joined with line breaks.
pub open spec fn joined_lines(problems: Seq<Seq<char>>) -> Seq<char>
    decreases problems.len(),
{
    if problems.len() == 0 {
        Seq::empty()
    } else if problems.len() == 1 {
        problems[0]
    } else {
        joined_lines(problems.drop_last()) + "\n"@ + problems.last()
    }
}

/// The {managerError} text of a reply: the problems, one per line, when there are any.
pub open spec fn manager_error_of(problems: Seq<Seq<char>>) -> Option<Seq<char>> {
    if problems.len() == 0 {
        None
    } else {
        Some(joined_lines(problems))
    }
}

/// The {managerError} text of a reply (see `manager_error_of`).
pub fn manager_error(problems: &Vec<String>) -> (text: Option<String>)
    ensures
        match text {
            Some(t) => manager_error_of(problems@.map_values(|p: String| p@)) == Some(t@),
            None => manager_error_of(problems@.map_values(|p: String| p@)) is None,
        },
{
    let ghost all = problems@.map_values(|p: String| p@);
    if problems.len() == 0 {
        return None;
    }
    let mut joined = String::new();
    let mut i: usize = 0;
    assert(all.take(0) =~= Seq::<Seq<char>>::empty());
    while i < problems.len()
        invariant
            all == problems@.map_values(|p: String| p@),
            i <= problems.len(),
            joined@ == joined_lines(all.take(i as int)),
        decreases problems.len() - i,
    {
        let ghost before = joined@;
        assert(all.take(i + 1).drop_last() =~= all.take(i as int));
        assert(all.take(i + 1).last() == all[i as int]);
        if i > 0 {
            joined.append("\n");
        }
        joined.append(problems[i].as_str());
        proof {
            if i == 0 {
                assert(all.take(1)[0] == all[0]);
                assert(joined@ =~= all[0]);
            } else {
                assert(joined@ =~= before + "\n"@ + all[i as int]);
            }
        }
        i = i + 1;
    }
    assert(all.take(i as int) =~= all);
    Some(joined)
}

/// The error of one upload as the page shows it: "<path>: <error>".
pub fn upload_error(path: &str, error: &str) -> (text: String)
    ensures
        text@ == path@ + ": "@ + error@,
{
    let mut text = path.to_owned();
    text.append(": ");
    text.append(error);
    text
}

/// A message made of a word without spaces, a space and a payload splits into the two.
proof fn lemma_command_word(word: Seq<char>, payload: Seq<char>, default_payload: Seq<char>)
    requires
        forall|i: int| 0 <= i < word.len() ==> word[i] != ' ',
    ensures
        command_and_payload(word + " "@ + payload, default_payload) == (word, payload),
{
    reveal_strlit(" ");
    let message = word + " "@ + payload;
    let n = word.len() as int;
    assert(message.subrange(n, n + 1) =~= " "@);
    assert forall|j: int| 0 <= j < n implies !occurs_at(message, " "@, j) by {
        if occurs_at(message, " "@, j) {
            assert(message.subrange(j, j + 1)[0] == message[j]);
        }
    }
    assert(first_at(message, " "@, n));
    lemma_find_is_first(message, " "@, n);
    assert(message.subrange(0, n) =~= word);
    assert(message.subrange(n + 1, message.len() as int) =~= payload);
}

/// Each of the userscript manager's eight words names its own command, and the JSON payload after
/// the word goes with it: "<word> <payload>" is that command with that payload.
pub proof fn lemma_scripts_words(payload: Seq<char>)
    requires
        is_json_text(payload),
    ensures
        manager_request_of("list "@ + payload, |w: Seq<char>| scripts_command_of(w)) == Some((ScriptsCommand::List, payload)),
        manager_request_of("read "@ + payload, |w: Seq<char>| scripts_command_of(w)) == Some((ScriptsCommand::Read, payload)),
        manager_request_of("write "@ + payload, |w: Seq<char>| scripts_command_of(w)) == Some((ScriptsCommand::Write, payload)),
        manager_request_of("toggle "@ + payload, |w: Seq<char>| scripts_command_of(w)) == Some(
            (ScriptsCommand::Toggle, payload),
        ),
        manager_request_of("prefs "@ + payload, |w: Seq<char>| scripts_command_of(w)) == Some((ScriptsCommand::Prefs, payload)),
        manager_request_of("delete "@ + payload, |w: Seq<char>| scripts_command_of(w)) == Some(
            (ScriptsCommand::Delete, payload),
        ),
        manager_request_of("move "@ + payload, |w: Seq<char>| scripts_command_of(w)) == Some((ScriptsCommand::Move, payload)),
        manager_request_of("reveal "@ + payload, |w: Seq<char>| scripts_command_of(w)) == Some(
            (ScriptsCommand::Reveal, payload),
        ),
{
    reveal_strlit(" ");
    reveal_strlit("list");
    reveal_strlit("read");
    reveal_strlit("write");
    reveal_strlit("toggle");
    reveal_strlit("prefs");
    reveal_strlit("delete");
    reveal_strlit("move");
    reveal_strlit("reveal");
    reveal_strlit("list ");
    reveal_strlit("read ");
    reveal_strlit("write ");
    reveal_strlit("toggle ");
    reveal_strlit("prefs ");
    reveal_strlit("delete ");
    reveal_strlit("move ");
    reveal_strlit("reveal ");
    assert(seq!['l', 'i', 's', 't'] =~= "list"@);
    lemma_word(seq!['l', 'i', 's', 't'], "list "@, payload);
    assert(seq!['r', 'e', 'a', 'd'] =~= "read"@);
    lemma_word(seq!['r', 'e', 'a', 'd'], "read "@, payload);
    assert(seq!['w', 'r', 'i', 't', 'e'] =~= "write"@);
    lemma_word(seq!['w', 'r', 'i', 't', 'e'], "write "@, payload);
    assert(seq!['t', 'o', 'g', 'g', 'l', 'e'] =~= "toggle"@);
    lemma_word(seq!['t', 'o', 'g', 'g', 'l', 'e'], "toggle "@, payload);
    assert(seq!['p', 'r', 'e', 'f', 's'] =~= "prefs"@);
    lemma_word(seq!['p', 'r', 'e', 'f', 's'], "prefs "@, payload);
    assert(seq!['d', 'e', 'l', 'e', 't', 'e'] =~= "delete"@);
    lemma_word(seq!['d', 'e', 'l', 'e', 't', 'e'], "delete "@, payload);
    assert(seq!['m', 'o', 'v', 'e'] =~= "move"@);
    lemma_word(seq!['m', 'o', 'v', 'e'], "move "@, payload);
    assert(seq!['r', 'e', 'v', 'e', 'a', 'l'] =~= "reveal"@);
    lemma_word(seq!['r', 'e', 'v', 'e', 'a', 'l'], "reveal "@, payload);
}

/// `prefix` is the word and a space: the message splits into the word and the payload.
proof fn lemma_word(word: Seq<char>, prefix: Seq<char>, payload: Seq<char>)
    requires
        prefix =~= word + seq![' '],
        forall|i: int| 0 <= i < word.len() ==> word[i] != ' ',
    ensures
        command_and_payload(prefix + payload, "{}"@) == (word, payload),
{
    reveal_strlit(" ");
    assert(prefix + payload =~= word + " "@ + payload);
    lemma_command_word(word, payload, "{}"@);
}

/// Each of the swapper's six words names its own command, and the JSON payload after the word goes
/// with it: "<word> <payload>" is that command with that payload.
pub proof fn lemma_swapper_words(payload: Seq<char>)
    requires
        is_json_text(payload),
    ensures
        manager_request_of("list "@ + payload, |w: Seq<char>| swapper_command_of(w)) == Some((SwapperCommand::List, payload)),
        manager_request_of("mkdir "@ + payload, |w: Seq<char>| swapper_command_of(w)) == Some(
            (SwapperCommand::Mkdir, payload),
        ),
        manager_request_of("delete "@ + payload, |w: Seq<char>| swapper_command_of(w)) == Some(
            (SwapperCommand::Delete, payload),
        ),
        manager_request_of("move "@ + payload, |w: Seq<char>| swapper_command_of(w)) == Some((SwapperCommand::Move, payload)),
        manager_request_of("upload "@ + payload, |w: Seq<char>| swapper_command_of(w)) == Some(
            (SwapperCommand::Upload, payload),
        ),
        manager_request_of("reveal "@ + payload, |w: Seq<char>| swapper_command_of(w)) == Some(
            (SwapperCommand::Reveal, payload),
        ),
{
    reveal_strlit(" ");
    reveal_strlit("list");
    reveal_strlit("mkdir");
    reveal_strlit("delete");
    reveal_strlit("move");
    reveal_strlit("upload");
    reveal_strlit("reveal");
    reveal_strlit("list ");
    reveal_strlit("mkdir ");
    reveal_strlit("delete ");
    reveal_strlit("move ");
    reveal_strlit("upload ");
    reveal_strlit("reveal ");
    assert(seq!['l', 'i', 's', 't'] =~= "list"@);
    lemma_word(seq!['l', 'i', 's', 't'], "list "@, payload);
    assert(seq!['m', 'k', 'd', 'i', 'r'] =~= "mkdir"@);
    lemma_word(seq!['m', 'k', 'd', 'i', 'r'], "mkdir "@, payload);
    assert(seq!['d', 'e', 'l', 'e', 't', 'e'] =~= "delete"@);
    lemma_word(seq!['d', 'e', 'l', 'e', 't', 'e'], "delete "@, payload);
    assert(seq!['m', 'o', 'v', 'e'] =~= "move"@);
    lemma_word(seq!['m', 'o', 'v', 'e'], "move "@, payload);
    assert(seq!['u', 'p', 'l', 'o', 'a', 'd'] =~= "upload"@);
    lemma_word(seq!['u', 'p', 'l', 'o', 'a', 'd'], "upload "@, payload);
    assert(seq!['r', 'e', 'v', 'e', 'a', 'l'] =~= "reveal"@);
    lemma_word(seq!['r', 'e', 'v', 'e', 'a', 'l'], "reveal "@, payload);
}


/// What the managers answer: a userscript's source for "read", nothing for "prefs" and "reveal",
/// only the problems for a "write" that asks for no list, the list for everything else; the swapper
/// acknowledges an "upload" on its own, answers nothing to "reveal" and the list to the rest.
pub proof fn lemma_manager_replies(no_list: bool)
    ensures
        scripts_reply_of(ScriptsCommand::List, no_list) == ManagerReply::List,
        scripts_reply_of(ScriptsCommand::Read, no_list) == ManagerReply::Source,
        scripts_reply_of(ScriptsCommand::Write, no_list) == if no_list {
            ManagerReply::ProblemsOnly
        } else {
            ManagerReply::List
        },
        scripts_reply_of(ScriptsCommand::Toggle, no_list) == ManagerReply::List,
        scripts_reply_of(ScriptsCommand::Prefs, no_list) == ManagerReply::Nothing,
        scripts_reply_of(ScriptsCommand::Delete, no_list) == ManagerReply::List,
        scripts_reply_of(ScriptsCommand::Move, no_list) == ManagerReply::List,
        scripts_reply_of(ScriptsCommand::Reveal, no_list) == ManagerReply::Nothing,
        swapper_reply_of(SwapperCommand::List) == ManagerReply::List,
        swapper_reply_of(SwapperCommand::Mkdir) == ManagerReply::List,
        swapper_reply_of(SwapperCommand::Delete) == ManagerReply::List,
        swapper_reply_of(SwapperCommand::Move) == ManagerReply::List,
        swapper_reply_of(SwapperCommand::Upload) == ManagerReply::Uploaded,
        swapper_reply_of(SwapperCommand::Reveal) == ManagerReply::Nothing,
{
}

/// A queued "scripts-<rest>" goes to the userscript manager and "swapper-<rest>" to the swapper, each
/// with the rest of the message.
pub proof fn lemma_manager_targets(rest: Seq<char>)
    ensures
        manager_of("scripts-"@ + rest) == Some((Manager::Scripts, rest)),
        manager_of("swapper-"@ + rest) == Some((Manager::Swapper, rest)),
{
    reveal_strlit("scripts-");
    reveal_strlit("swapper-");
    reveal_strlit("-");
    assert("-"@ =~= seq!['-']);
    reveal_strlit("scripts");
    reveal_strlit("swapper");
    crate::text::lemma_split_at_first(seq!['s', 'c', 'r', 'i', 'p', 't', 's'], '-', rest);
    assert(seq!['s', 'c', 'r', 'i', 'p', 't', 's'] + seq!['-'] + rest =~= "scripts-"@ + rest);
    assert(seq!['s', 'c', 'r', 'i', 'p', 't', 's'] =~= "scripts"@);
    crate::text::lemma_split_at_first(seq!['s', 'w', 'a', 'p', 'p', 'e', 'r'], '-', rest);
    assert(seq!['s', 'w', 'a', 'p', 'p', 'e', 'r'] + seq!['-'] + rest =~= "swapper-"@ + rest);
    assert(seq!['s', 'w', 'a', 'p', 'p', 'e', 'r'] =~= "swapper"@);
    assert("scripts"@ != "swapper"@) by {
        assert("scripts"@[1] != "swapper"@[1]);
    }
}


/// The account manager's words: "list" alone lists; "add", "migrate", "remove" and "login" followed
/// by a payload of at most 64 KiB carry that payload to their own command.
pub proof fn lemma_accounts_words(payload: Seq<char>)
    requires
        byte_len(payload) <= 64 * 1024,
    ensures
        accounts_command("list"@) == AccountsCommand::List,
        accounts_command("add "@ + payload) == (AccountsCommand::Add { payload }),
        accounts_command("migrate "@ + payload) == (AccountsCommand::Migrate { payload }),
        accounts_command("remove "@ + payload) == (AccountsCommand::Remove { payload }),
        accounts_command("login "@ + payload) == (AccountsCommand::Login { payload }),
{
    reveal_strlit("");
    assert(""@.len() == 0);
    assert(byte_len(""@) == 0);
    assert(accounts_command("list"@) == AccountsCommand::List) by {
        reveal_strlit("list");
        reveal_strlit(" ");
        crate::text::lemma_find_none("list"@, " "@);
        if crate::text::contains("list"@, " "@) {
            let i = choose|i: int| occurs_at("list"@, " "@, i);
            assert("list"@.subrange(i, i + 1)[0] == "list"@[i]);
        }
    }
    assert(accounts_command("add "@ + payload) == (AccountsCommand::Add { payload })) by {
        reveal_strlit("add");
        reveal_strlit("add ");
        reveal_strlit(" ");
        reveal_strlit("list");
        assert("add "@ + payload =~= "add"@ + " "@ + payload);
        lemma_command_word("add"@, payload, ""@);
    }
    assert(accounts_command("migrate "@ + payload) == (AccountsCommand::Migrate { payload })) by {
        reveal_strlit("migrate");
        reveal_strlit("migrate ");
        reveal_strlit(" ");
        reveal_strlit("list");
        reveal_strlit("add");
        assert("migrate "@ + payload =~= "migrate"@ + " "@ + payload);
        lemma_command_word("migrate"@, payload, ""@);
    }
    assert(accounts_command("remove "@ + payload) == (AccountsCommand::Remove { payload })) by {
        reveal_strlit("remove");
        reveal_strlit("remove ");
        reveal_strlit(" ");
        reveal_strlit("list");
        reveal_strlit("add");
        reveal_strlit("migrate");
        assert("remove "@ + payload =~= "remove"@ + " "@ + payload);
        lemma_command_word("remove"@, payload, ""@);
    }
    assert(accounts_command("login "@ + payload) == (AccountsCommand::Login { payload })) by {
        reveal_strlit("login");
        reveal_strlit("login ");
        reveal_strlit(" ");
        reveal_strlit("list");
        reveal_strlit("add");
        reveal_strlit("migrate");
        reveal_strlit("remove");
        assert("login "@ + payload =~= "login"@ + " "@ + payload);
        lemma_command_word("login"@, payload, ""@);
        assert("login"@[0] != "list"@[0] || "login"@[1] != "list"@[1]);
    }
}

} // verus!
