//! Registration of the relay's hook command in a settings document.
//!
//! The settings document is an arbitrary JSON object that may hold a `hooks`
//! object mapping trigger names to arrays of hook groups. Registration adds
//! one group for each trigger that does not yet name the relay, and leaves
//! everything else as it was.

use crate::json::{
    find_member, items_view, key_index, lemma_items_view, lemma_items_view_push, lemma_key_index,
    lemma_members_view, lemma_members_view_push, members_view, parsed_text, pretty_text, stored,
    Json, JsonValue,
};
use crate::text::{blank, contains, is_blank, occurs_in, replace_char, replaced};
use vstd::prelude::*;
use vstd::string::StringExecFns;

verus! {

/// The flag that selects sender mode: a command line that carries it runs the
/// program as an event sender.
pub const HOOK_FLAG: &'static str = "--hook";

/// Why a registration did not happen. Each variant holds a message for the
/// log.
#[derive(Debug, PartialEq, Eq)]
pub enum RegisterError {
    /// The settings text is not JSON, or is not a JSON object.
    ConfigParseError(String),
    /// `hooks` is not an object, or a trigger's value is not an array.
    ConfigShapeError(String),
    /// The settings could not be written.
    ConfigWriteError(String),
}

/// A [`RegisterError`] as a mathematical value.
pub enum RegisterFailure {
    ConfigParseError(Seq<char>),
    ConfigShapeError(Seq<char>),
    ConfigWriteError(Seq<char>),
}

impl View for RegisterError {
    type V = RegisterFailure;

    open spec fn view(&self) -> RegisterFailure {
        match self {
            RegisterError::ConfigParseError(message) => RegisterFailure::ConfigParseError(message@),
            RegisterError::ConfigShapeError(message) => RegisterFailure::ConfigShapeError(message@),
            RegisterError::ConfigWriteError(message) => RegisterFailure::ConfigWriteError(message@),
        }
    }
}

impl RegisterFailure {
    /// The message that the failure carries.
    pub open spec fn message(self) -> Seq<char> {
        match self {
            RegisterFailure::ConfigParseError(message) => message,
            RegisterFailure::ConfigShapeError(message) => message,
            RegisterFailure::ConfigWriteError(message) => message,
        }
    }
}

impl RegisterError {
    /// The message for the log.
    pub fn message(&self) -> (text: String)
        ensures
            text@ == self@.message(),
    {
        match self {
            RegisterError::ConfigParseError(message) => message.clone(),
            RegisterError::ConfigShapeError(message) => message.clone(),
            RegisterError::ConfigWriteError(message) => message.clone(),
        }
    }
}

/// A command line is the relay's where it holds the program's name and the
/// flag that selects sender mode, each anywhere in it. Nothing more is asked
/// of the line: this is loose on purpose.
pub open spec fn is_relay_command(line: Seq<char>, program: Seq<char>) -> bool {
    occurs_in(program, line) && occurs_in("--hook"@, line)
}

/// A command entry is the relay's where its `command` is a string that is a
/// relay command.
pub open spec fn entry_is_relay(entry: JsonValue, program: Seq<char>) -> bool {
    match entry.member("command"@) {
        Some(JsonValue::String(line)) => is_relay_command(line, program),
        _ => false,
    }
}

/// One of the entries is the relay's.
pub open spec fn holds_relay_entry(entries: Seq<JsonValue>, program: Seq<char>) -> bool {
    exists|i: int| 0 <= i < entries.len() && entry_is_relay(#[trigger] entries[i], program)
}

/// A hook group names the relay where its `hooks` is an array that holds a
/// relay entry.
pub open spec fn group_is_relay(group: JsonValue, program: Seq<char>) -> bool {
    match group.member("hooks"@) {
        Some(JsonValue::Array(entries)) => holds_relay_entry(entries, program),
        _ => false,
    }
}

/// A trigger is registered where one of its groups names the relay.
pub open spec fn registered(groups: Seq<JsonValue>, program: Seq<char>) -> bool {
    exists|i: int| 0 <= i < groups.len() && group_is_relay(#[trigger] groups[i], program)
}

/// The command entry that registration writes: `{"type": "command",
/// "command": command}`.
pub open spec fn command_entry(command: Seq<char>) -> JsonValue {
    JsonValue::Object(
        seq![
            ("type"@, JsonValue::String("command"@)),
            ("command"@, JsonValue::String(command)),
        ],
    )
}

/// The hook group that registration writes: an empty matcher, which matches
/// everything, and the one command entry.
pub open spec fn hook_group(command: Seq<char>) -> JsonValue {
    JsonValue::Object(
        seq![
            ("matcher"@, JsonValue::String(Seq::empty())),
            ("hooks"@, JsonValue::Array(seq![command_entry(command)])),
        ],
    )
}

/// The names held by a vector of strings.
pub open spec fn names(strings: Seq<String>) -> Seq<Seq<char>> {
    Seq::new(strings.len(), |i: int| strings[i]@)
}

/// Registration of one trigger in the members of `hooks`: the new members,
/// and whether the trigger was added. A trigger without a member gets one, an
/// array of the one new group. A trigger whose array already names the relay
/// is skipped. Any other array gets the new group at its end. A member that
/// is no array is an error.
pub open spec fn register_trigger(
    hooks: Seq<(Seq<char>, JsonValue)>,
    trigger: Seq<char>,
    program: Seq<char>,
    command: Seq<char>,
) -> Result<(Seq<(Seq<char>, JsonValue)>, bool), RegisterFailure> {
    let at = key_index(hooks, trigger);
    if at < 0 {
        Ok((hooks.push((trigger, JsonValue::Array(seq![hook_group(command)]))), true))
    } else {
        match hooks[at].1 {
            JsonValue::Array(groups) => if registered(groups, program) {
                Ok((hooks, false))
            } else {
                Ok(
                    (
                        hooks.update(
                            at,
                            (trigger, JsonValue::Array(groups.push(hook_group(command)))),
                        ),
                        true,
                    ),
                )
            },
            _ => Err(RegisterFailure::ConfigShapeError(trigger + " is not an array"@)),
        }
    }
}

/// The state of a registration under way: the members of the `hooks` object
/// and the triggers added and skipped so far.
pub struct Progress {
    pub hooks: Seq<(Seq<char>, JsonValue)>,
    pub added: Seq<Seq<char>>,
    pub skipped: Seq<Seq<char>>,
}

/// Registration of the triggers in their order, starting from the given
/// members of `hooks`. The first error ends it.
pub open spec fn register_triggers(
    hooks: Seq<(Seq<char>, JsonValue)>,
    triggers: Seq<Seq<char>>,
    program: Seq<char>,
    command: Seq<char>,
) -> Result<Progress, RegisterFailure>
    decreases triggers.len(),
{
    if triggers.len() == 0 {
        Ok(Progress { hooks, added: Seq::empty(), skipped: Seq::empty() })
    } else {
        match register_triggers(hooks, triggers.drop_last(), program, command) {
            Ok(progress) => match register_trigger(
                progress.hooks,
                triggers.last(),
                program,
                command,
            ) {
                Ok((next, true)) => Ok(
                    Progress {
                        hooks: next,
                        added: progress.added.push(triggers.last()),
                        skipped: progress.skipped,
                    },
                ),
                Ok((next, false)) => Ok(
                    Progress {
                        hooks: next,
                        added: progress.added,
                        skipped: progress.skipped.push(triggers.last()),
                    },
                ),
                Err(failure) => Err(failure),
            },
            Err(failure) => Err(failure),
        }
    }
}

/// What a registration gives: the new document and the triggers added and
/// skipped, each in the order of the triggers.
pub struct MergedValue {
    pub document: JsonValue,
    pub added: Seq<Seq<char>>,
    pub skipped: Seq<Seq<char>>,
}

/// Registration in a settings document. The document must be an object; its
/// `hooks`, where it has one, must be an object and otherwise starts empty.
/// The triggers are registered in it, and the new `hooks` takes the place of
/// the old or becomes the last member.
pub open spec fn merged(
    document: JsonValue,
    program: Seq<char>,
    command: Seq<char>,
    triggers: Seq<Seq<char>>,
) -> Result<MergedValue, RegisterFailure> {
    match document {
        JsonValue::Object(members) => {
            let at = key_index(members, "hooks"@);
            if at >= 0 && !(members[at].1 is Object) {
                Err(RegisterFailure::ConfigShapeError("hooks is not an object"@))
            } else {
                let hooks = if at >= 0 {
                    members[at].1->Object_0
                } else {
                    Seq::empty()
                };
                match register_triggers(hooks, triggers, program, command) {
                    Ok(progress) => Ok(
                        MergedValue {
                            document: JsonValue::Object(
                                if at >= 0 {
                                    members.update(at, ("hooks"@, JsonValue::Object(progress.hooks)))
                                } else {
                                    members.push(("hooks"@, JsonValue::Object(progress.hooks)))
                                },
                            ),
                            added: progress.added,
                            skipped: progress.skipped,
                        },
                    ),
                    Err(failure) => Err(failure),
                }
            }
        },
        _ => Err(RegisterFailure::ConfigParseError("settings is not an object"@)),
    }
}

/// Whether a command line is the relay's.
pub fn line_is_relay(line: &str, program: &str) -> (r: bool)
    ensures
        r == is_relay_command(line@, program@),
{
    contains(line, program) && contains(line, HOOK_FLAG)
}

/// Whether a command entry is the relay's.
pub fn entry_names_relay(entry: &Json, program: &str) -> (r: bool)
    ensures
        r == entry_is_relay(entry@, program@),
{
    match entry.get("command") {
        Some(Json::String(line)) => line_is_relay(line.as_str(), program),
        _ => false,
    }
}

/// Whether a hook group names the relay.
pub fn group_names_relay(group: &Json, program: &str) -> (r: bool)
    ensures
        r == group_is_relay(group@, program@),
{
    match group.get("hooks") {
        Some(Json::Array(entries)) => {
            proof {
                lemma_items_view(entries@);
            }
            let mut i: usize = 0;
            while i < entries.len()
                invariant
                    group@.member("hooks"@) == Some(JsonValue::Array(items_view(entries@))),
                    i <= entries.len(),
                    items_view(entries@).len() == entries.len(),
                    forall|j: int|
                        0 <= j < entries.len() ==> (#[trigger] items_view(entries@)[j])
                            == entries@[j]@,
                    forall|j: int|
                        0 <= j < i ==> !entry_is_relay(
                            #[trigger] items_view(entries@)[j],
                            program@,
                        ),
                decreases entries.len() - i,
            {
                if entry_names_relay(&entries[i], program) {
                    assert(entry_is_relay(items_view(entries@)[i as int], program@));
                    return true;
                }
                i += 1;
            }
            false
        },
        _ => false,
    }
}

/// Whether one of the groups names the relay.
pub fn is_registered(groups: &Vec<Json>, program: &str) -> (r: bool)
    ensures
        r == registered(items_view(groups@), program@),
{
    proof {
        lemma_items_view(groups@);
    }
    let mut i: usize = 0;
    while i < groups.len()
        invariant
            i <= groups.len(),
            items_view(groups@).len() == groups.len(),
            forall|j: int|
                0 <= j < groups.len() ==> (#[trigger] items_view(groups@)[j]) == groups@[j]@,
            forall|j: int|
                0 <= j < i ==> !group_is_relay(#[trigger] items_view(groups@)[j], program@),
        decreases groups.len() - i,
    {
        if group_names_relay(&groups[i], program) {
            assert(group_is_relay(items_view(groups@)[i as int], program@));
            return true;
        }
        i += 1;
    }
    false
}

/// Once a prefix of the triggers has failed, the whole list fails in the
/// same way.
pub proof fn lemma_failure_stays(
    hooks: Seq<(Seq<char>, JsonValue)>,
    triggers: Seq<Seq<char>>,
    program: Seq<char>,
    command: Seq<char>,
    n: int,
)
    requires
        0 <= n <= triggers.len(),
        register_triggers(hooks, triggers.take(n), program, command) is Err,
    ensures
        register_triggers(hooks, triggers, program, command) == register_triggers(
            hooks,
            triggers.take(n),
            program,
            command,
        ),
    decreases triggers.len() - n,
{
    if n == triggers.len() {
        assert(triggers.take(n) =~= triggers);
    } else {
        assert(triggers.take(n + 1).drop_last() =~= triggers.take(n));
        lemma_failure_stays(hooks, triggers, program, command, n + 1);
    }
}

/// Builds the hook group that registration writes.
pub fn new_hook_group(command: &str) -> (group: Json)
    ensures
        group@ == hook_group(command@),
{
    let mut entry: Vec<(String, Json)> = Vec::new();
    entry.push((String::from_str("type"), Json::String(String::from_str("command"))));
    entry.push((String::from_str("command"), Json::String(String::from_str(command))));
    let mut entries: Vec<Json> = Vec::new();
    entries.push(Json::Object(entry));
    let mut group: Vec<(String, Json)> = Vec::new();
    group.push((String::from_str("matcher"), Json::String(String::new())));
    group.push((String::from_str("hooks"), Json::Array(entries)));
    proof {
        lemma_members_view(entry@);
        lemma_items_view(entries@);
        lemma_members_view(group@);
        assert(members_view(entry@) =~= command_entry(command@)->Object_0);
        assert(items_view(entries@) =~= seq![command_entry(command@)]);
        assert(members_view(group@) =~= hook_group(command@)->Object_0);
    }
    Json::Object(group)
}

/// Registers one trigger in the members of `hooks`, and says whether it was
/// added. Where this fails the members are as they were.
pub fn register_one(
    hooks: &mut Vec<(String, Json)>,
    trigger: &String,
    program: &str,
    command: &str,
) -> (r: Result<bool, RegisterError>)
    ensures
        (match register_trigger(members_view(old(hooks)@), trigger@, program@, command@) {
            Ok(next) => r == Ok::<bool, RegisterError>(next.1) && members_view(final(hooks)@)
                == next.0,
            Err(failure) => r matches Err(error) && error@ == failure && final(hooks)@ == old(
                hooks,
            )@,
        }),
{
    proof {
        lemma_members_view(hooks@);
        lemma_key_index(members_view(hooks@), trigger@);
    }
    match find_member(hooks, trigger) {
        None => {
            let mut groups: Vec<Json> = Vec::new();
            groups.push(new_hook_group(command));
            proof {
                lemma_items_view(groups@);
                assert(items_view(groups@) =~= seq![hook_group(command@)]);
                lemma_members_view_push(hooks@, (*trigger, Json::Array(groups)));
            }
            hooks.push((trigger.clone(), Json::Array(groups)));
            Ok(true)
        },
        Some(i) => {
            let state: Option<bool> = match &hooks[i].1 {
                Json::Array(groups) => Some(is_registered(groups, program)),
                _ => None,
            };
            match state {
                None => Err(
                    RegisterError::ConfigShapeError(trigger.clone().concat(" is not an array")),
                ),
                Some(true) => Ok(false),
                Some(false) => {
                    let ghost held = hooks@;
                    let old_member = hooks.remove(i);
                    let mut groups: Vec<Json> = Vec::new();
                    match old_member.1 {
                        Json::Array(found) => {
                            groups = found;
                        },
                        _ => {
                            assert(false);
                        },
                    }
                    let ghost earlier = groups@;
                    let group = new_hook_group(command);
                    groups.push(group);
                    hooks.insert(i, (old_member.0, Json::Array(groups)));
                    proof {
                        lemma_items_view_push(earlier, group);
                        lemma_members_view(held);
                        lemma_members_view(hooks@);
                        assert(members_view(hooks@) =~= members_view(held).update(
                            i as int,
                            (
                                trigger@,
                                JsonValue::Array(items_view(earlier).push(hook_group(command@))),
                            ),
                        ));
                    }
                    Ok(true)
                },
            }
        },
    }
}

/// Registers the triggers, in their order, in the members of `hooks`. The
/// first error ends it. The document of the result is the new `hooks` object.
pub fn register_all(
    members: Vec<(String, Json)>,
    program: &str,
    command: &str,
    triggers: &Vec<String>,
) -> (r: Result<Merged, RegisterError>)
    ensures
        (match register_triggers(members_view(members@), names(triggers@), program@, command@) {
            Ok(progress) => r matches Ok(out) && out@ == (MergedValue {
                document: JsonValue::Object(progress.hooks),
                added: progress.added,
                skipped: progress.skipped,
            }),
            Err(failure) => r matches Err(error) && error@ == failure,
        }),
{
    let ghost start = members_view(members@);
    let ghost wanted = names(triggers@);
    let mut hooks = members;
    let mut added: Vec<String> = Vec::new();
    let mut skipped: Vec<String> = Vec::new();
    assert(names(added@) =~= Seq::empty());
    let mut k: usize = 0;
    while k < triggers.len()
        invariant
            k <= triggers.len(),
            start == members_view(members@),
            wanted == names(triggers@),
            register_triggers(start, wanted.take(k as int), program@, command@) == Ok::<
                Progress,
                RegisterFailure,
            >(
                Progress {
                    hooks: members_view(hooks@),
                    added: names(added@),
                    skipped: names(skipped@),
                },
            ),
        decreases triggers.len() - k,
    {
        let trigger = &triggers[k];
        proof {
            assert(wanted.take(k + 1).drop_last() =~= wanted.take(k as int));
            assert(wanted.take(k + 1).last() == trigger@);
        }
        match register_one(&mut hooks, trigger, program, command) {
            Ok(true) => {
                proof {
                    assert(names(added@.push(*trigger)) =~= names(added@).push(trigger@));
                }
                added.push(trigger.clone());
            },
            Ok(false) => {
                proof {
                    assert(names(skipped@.push(*trigger)) =~= names(skipped@).push(trigger@));
                }
                skipped.push(trigger.clone());
            },
            Err(error) => {
                proof {
                    lemma_failure_stays(start, wanted, program@, command@, k + 1);
                }
                return Err(error);
            },
        }
        k += 1;
    }
    assert(wanted.take(k as int) =~= wanted);
    Ok(Merged { document: Json::Object(hooks), added, skipped })
}

/// What a registration in a document gives: the new document and the
/// triggers added and skipped, each in the order of the triggers.
#[derive(Debug, PartialEq, Eq)]
pub struct Merged {
    pub document: Json,
    pub added: Vec<String>,
    pub skipped: Vec<String>,
}

impl View for Merged {
    type V = MergedValue;

    open spec fn view(&self) -> MergedValue {
        MergedValue {
            document: self.document@,
            added: names(self.added@),
            skipped: names(self.skipped@),
        }
    }
}

/// Registers the triggers in a settings document.
///
/// Fails with `ConfigParseError` where the document is no object, and with
/// `ConfigShapeError` where its `hooks` is no object or the member of a
/// trigger is no array. Otherwise every trigger whose array does not yet name
/// the relay `program` gets one new hook group for `command`, and the rest of
/// the document stays as it was.
pub fn merge_hooks(document: Json, program: &str, command: &str, triggers: &Vec<String>) -> (r:
    Result<Merged, RegisterError>)
    ensures
        (match merged(document@, program@, command@, names(triggers@)) {
            Ok(value) => r matches Ok(out) && out@ == value,
            Err(failure) => r matches Err(error) && error@ == failure,
        }),
{
    let mut members = match document {
        Json::Object(members) => members,
        _ => {
            return Err(
                RegisterError::ConfigParseError(String::from_str("settings is not an object")),
            );
        },
    };
    let ghost given = members_view(members@);
    proof {
        lemma_members_view(members@);
        lemma_key_index(given, "hooks"@);
    }
    let hooks_key = String::from_str("hooks");
    let at = find_member(&members, &hooks_key);
    let mut hooks: Vec<(String, Json)> = Vec::new();
    match at {
        Some(i) => {
            let is_object = match &members[i].1 {
                Json::Object(_) => true,
                _ => false,
            };
            if !is_object {
                return Err(
                    RegisterError::ConfigShapeError(String::from_str("hooks is not an object")),
                );
            }
            let old_member = members.remove(i);
            match old_member.1 {
                Json::Object(held) => {
                    hooks = held;
                },
                _ => {
                    assert(false);
                },
            }
        },
        None => {},
    }
    let ghost shrunk = members@;
    let done = match register_all(hooks, program, command, triggers) {
        Ok(done) => done,
        Err(error) => {
            return Err(error);
        },
    };
    match at {
        Some(i) => {
            members.insert(i, (hooks_key, done.document));
            proof {
                lemma_members_view(shrunk);
                lemma_members_view(members@);
                assert(members_view(members@) =~= given.update(
                    i as int,
                    ("hooks"@, done.document@),
                ));
            }
        },
        None => {
            proof {
                lemma_members_view_push(members@, (hooks_key, done.document));
            }
            members.push((hooks_key, done.document));
        },
    }
    Ok(Merged { document: Json::Object(members), added: done.added, skipped: done.skipped })
}

/// The document that a registration starts from: the empty object where
/// there is no settings text or only a blank one, and otherwise what the text
/// holds, if it is JSON.
pub open spec fn starting_document(existing: Option<&str>) -> Option<JsonValue> {
    match existing {
        None => Some(JsonValue::Object(Seq::empty())),
        Some(text) => if blank(text@) {
            Some(JsonValue::Object(Seq::empty()))
        } else {
            parsed_text(text@)
        },
    }
}

/// The settings text for a document: its indented JSON text and one line
/// feed, or `None` where the document cannot be written as text.
pub open spec fn settings_text(document: JsonValue) -> Option<Seq<char>> {
    match pretty_text(stored(document)) {
        Some(text) => Some(text.push('\n')),
        None => None,
    }
}

/// What a registration gives: the settings text to write, and the triggers
/// added and skipped, each in the order of the triggers.
#[derive(Debug, PartialEq, Eq)]
pub struct Registration {
    pub text: String,
    pub added: Vec<String>,
    pub skipped: Vec<String>,
}

/// A [`Registration`] as a mathematical value.
pub struct RegistrationValue {
    pub text: Seq<char>,
    pub added: Seq<Seq<char>>,
    pub skipped: Seq<Seq<char>>,
}

impl View for Registration {
    type V = RegistrationValue;

    open spec fn view(&self) -> RegistrationValue {
        RegistrationValue {
            text: self.text@,
            added: names(self.added@),
            skipped: names(self.skipped@),
        }
    }
}

/// Reads the settings text that a registration starts from.
pub fn load_settings(existing: Option<&str>) -> (r: Result<Json, RegisterError>)
    ensures
        starting_document(existing) matches Some(document) ==> r matches Ok(json) && json@
            == document,
        starting_document(existing) is None ==> (r matches Err(
            RegisterError::ConfigParseError(message),
        ) && "parse settings: "@.is_prefix_of(message@)),
{
    let empty: Vec<(String, Json)> = Vec::new();
    match existing {
        None => Ok(Json::Object(empty)),
        Some(text) => {
            if is_blank(text) {
                Ok(Json::Object(empty))
            } else {
                match Json::parse(text) {
                    Ok(json) => Ok(json),
                    Err(detail) => Err(
                        RegisterError::ConfigParseError(
                            String::from_str("parse settings: ").concat(detail.as_str()),
                        ),
                    ),
                }
            }
        },
    }
}

/// Writes a settings document as the text of the settings file, which ends
/// in exactly one line feed.
pub fn write_settings(document: &Json) -> (r: Result<String, RegisterError>)
    ensures
        settings_text(document@) matches Some(text) ==> r matches Ok(out) && out@ == text,
        settings_text(document@) is None ==> (r matches Err(
            RegisterError::ConfigWriteError(message),
        ) && "serialize settings: "@.is_prefix_of(message@)),
        r matches Ok(out) ==> out@.len() >= 2 && out@.last() == '\n' && out@[out@.len() - 2]
            != '\n',
{
    match document.to_pretty() {
        Ok(text) => {
            proof {
                reveal_strlit("\n");
            }
            Ok(text.concat("\n"))
        },
        Err(detail) => Err(
            RegisterError::ConfigWriteError(
                String::from_str("serialize settings: ").concat(detail.as_str()),
            ),
        ),
    }
}

/// Registers the relay's hook command for the given triggers.
///
/// `existing` is the text of the settings file, or `None` where there is no
/// file. The result holds the text to write in its place. Nothing is to be
/// written where this fails:
/// - with `ConfigParseError`, where the text is neither blank nor the JSON
///   text of an object;
/// - with `ConfigShapeError`, where `hooks` is no object or the member of a
///   trigger is no array;
/// - with `ConfigWriteError`, where the new document cannot be written as
///   text.
pub fn register_hooks(
    existing: Option<&str>,
    program: &str,
    command: &str,
    triggers: &Vec<String>,
) -> (r: Result<Registration, RegisterError>)
    ensures
        (match starting_document(existing) {
            None => r matches Err(RegisterError::ConfigParseError(message))
                && "parse settings: "@.is_prefix_of(message@),
            Some(start) => match merged(start, program@, command@, names(triggers@)) {
                Err(failure) => r matches Err(error) && error@ == failure,
                Ok(value) => match settings_text(value.document) {
                    None => r matches Err(RegisterError::ConfigWriteError(message))
                        && "serialize settings: "@.is_prefix_of(message@),
                    Some(text) => r matches Ok(out) && out@ == (RegistrationValue {
                        text,
                        added: value.added,
                        skipped: value.skipped,
                    }),
                },
            },
        }),
        r matches Ok(out) ==> out.text@.len() >= 2 && out.text@.last() == '\n'
            && out.text@[out.text@.len() - 2] != '\n',
{
    let document = match load_settings(existing) {
        Ok(document) => document,
        Err(error) => {
            return Err(error);
        },
    };
    let merged = match merge_hooks(document, program, command, triggers) {
        Ok(merged) => merged,
        Err(error) => {
            return Err(error);
        },
    };
    match write_settings(&merged.document) {
        Ok(text) => Ok(Registration { text, added: merged.added, skipped: merged.skipped }),
        Err(error) => Err(error),
    }
}

/// The command line of a hook for the executable at `exe_path`: the path with
/// `/` for each `\`, a space, and the flag that selects sender mode.
pub open spec fn command_line(exe_path: Seq<char>) -> Seq<char> {
    replaced(exe_path, '\\', '/') + " --hook"@
}

/// Builds the command line of a hook for the executable at `exe_path`.
pub fn hook_command(exe_path: &str) -> (command: String)
    ensures
        command@ == command_line(exe_path@),
{
    proof {
        reveal_strlit("/");
    }
    replace_char(exe_path, '\\', "/").concat(" --hook")
}

/// The triggers for which the relay registers itself.
pub fn hook_events() -> (events: Vec<String>)
    ensures
        names(events@) == seq!["PreToolUse"@, "PostToolUse"@, "Notification"@, "Stop"@],
{
    let mut events: Vec<String> = Vec::new();
    events.push(String::from_str("PreToolUse"));
    events.push(String::from_str("PostToolUse"));
    events.push(String::from_str("Notification"));
    events.push(String::from_str("Stop"));
    events
}

} // verus!
