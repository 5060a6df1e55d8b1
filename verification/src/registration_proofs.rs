//! What registration guarantees: it is idempotent, it adds every trigger to a
//! document that has none of them, and it keeps what it finds.

use crate::hooks::{
    command_entry, command_line, entry_is_relay, group_is_relay, holds_relay_entry, hook_group,
    is_relay_command, merged, register_trigger, register_triggers, registered, MergedValue,
    Progress, RegisterFailure,
};
use crate::json::{key_index, lemma_key_index, JsonValue};
use crate::text::{occurs_at, occurs_in, replaced};
use vstd::prelude::*;

verus! {

/// A trigger is settled in the members of `hooks` where its member is an
/// array that names the relay.
pub open spec fn settled(
    hooks: Seq<(Seq<char>, JsonValue)>,
    trigger: Seq<char>,
    program: Seq<char>,
) -> bool {
    let at = key_index(hooks, trigger);
    at >= 0 && hooks[at].1 is Array && registered(hooks[at].1->Array_0, program)
}

/// No member has the key exactly where `key_index` is -1.
pub proof fn lemma_key_absent(members: Seq<(Seq<char>, JsonValue)>, key: Seq<char>)
    ensures
        key_index(members, key) < 0 <==> forall|j: int|
            0 <= j < members.len() ==> (#[trigger] members[j]).0 != key,
{
    lemma_key_index(members, key);
}

/// Members with the same keys in the same places are found at the same
/// index.
pub proof fn lemma_key_index_same_keys(
    first: Seq<(Seq<char>, JsonValue)>,
    second: Seq<(Seq<char>, JsonValue)>,
    key: Seq<char>,
)
    requires
        first.len() == second.len(),
        forall|j: int| 0 <= j < first.len() ==> (#[trigger] first[j]).0 == (#[trigger] second[j]).0,
    ensures
        key_index(first, key) == key_index(second, key),
    decreases first.len(),
{
    if first.len() > 0 && first.last().0 != key {
        lemma_key_index_same_keys(first.drop_last(), second.drop_last(), key);
    }
}

/// A member added at the end is found under its own key, and changes nothing
/// for another key.
pub proof fn lemma_key_index_push(
    members: Seq<(Seq<char>, JsonValue)>,
    member: (Seq<char>, JsonValue),
    key: Seq<char>,
)
    ensures
        key_index(members.push(member), key) == if member.0 == key {
            members.len() as int
        } else {
            key_index(members, key)
        },
{
    assert(members.push(member).drop_last() =~= members);
}

/// The group that registration writes names the relay, where the command is
/// the relay's.
pub proof fn lemma_new_group_is_relay(program: Seq<char>, command: Seq<char>)
    requires
        is_relay_command(command, program),
    ensures
        group_is_relay(hook_group(command), program),
{
    let entry = command_entry(command);
    assert(seq![entry][0] == entry);
}

/// Groups that name the relay still do so with one more group at the end.
pub proof fn lemma_registered_push(groups: Seq<JsonValue>, group: JsonValue, program: Seq<char>)
    ensures
        registered(groups, program) ==> registered(groups.push(group), program),
        group_is_relay(group, program) ==> registered(groups.push(group), program),
{
    if registered(groups, program) {
        let i = choose|i: int| 0 <= i < groups.len() && group_is_relay(#[trigger] groups[i], program);
        assert(groups.push(group)[i] == groups[i]);
    }
    if group_is_relay(group, program) {
        assert(groups.push(group)[groups.len() as int] == group);
    }
}

/// One step of registration settles its trigger and unsettles none.
pub proof fn lemma_step_settles(
    hooks: Seq<(Seq<char>, JsonValue)>,
    trigger: Seq<char>,
    program: Seq<char>,
    command: Seq<char>,
    other: Seq<char>,
)
    requires
        is_relay_command(command, program),
        register_trigger(hooks, trigger, program, command) is Ok,
    ensures
        settled(register_trigger(hooks, trigger, program, command)->Ok_0.0, trigger, program),
        settled(hooks, other, program) ==> settled(
            register_trigger(hooks, trigger, program, command)->Ok_0.0,
            other,
            program,
        ),
{
    let next = register_trigger(hooks, trigger, program, command)->Ok_0.0;
    let at = key_index(hooks, trigger);
    let group = hook_group(command);
    lemma_key_index(hooks, trigger);
    lemma_key_index(hooks, other);
    lemma_new_group_is_relay(program, command);
    if at < 0 {
        let member = (trigger, JsonValue::Array(seq![group]));
        lemma_key_index_push(hooks, member, trigger);
        lemma_key_index_push(hooks, member, other);
        assert(seq![group][0] == group);
    } else if !registered(hooks[at].1->Array_0, program) {
        lemma_key_index_same_keys(hooks, next, trigger);
        lemma_key_index_same_keys(hooks, next, other);
        lemma_registered_push(hooks[at].1->Array_0, group, program);
    }
}

/// After a registration every one of its triggers is settled.
pub proof fn lemma_all_settled(
    hooks: Seq<(Seq<char>, JsonValue)>,
    triggers: Seq<Seq<char>>,
    program: Seq<char>,
    command: Seq<char>,
)
    requires
        is_relay_command(command, program),
        register_triggers(hooks, triggers, program, command) is Ok,
    ensures
        forall|i: int|
            0 <= i < triggers.len() ==> settled(
                register_triggers(hooks, triggers, program, command)->Ok_0.hooks,
                #[trigger] triggers[i],
                program,
            ),
    decreases triggers.len(),
{
    if triggers.len() > 0 {
        lemma_all_settled(hooks, triggers.drop_last(), program, command);
        let middle = register_triggers(hooks, triggers.drop_last(), program, command)->Ok_0.hooks;
        let last = register_trigger(middle, triggers.last(), program, command)->Ok_0.0;
        assert forall|i: int| 0 <= i < triggers.len() implies settled(
            last,
            #[trigger] triggers[i],
            program,
        ) by {
            lemma_step_settles(middle, triggers.last(), program, command, triggers[i]);
            if i < triggers.len() - 1 {
                assert(triggers.drop_last()[i] == triggers[i]);
            }
        }
    }
}

/// Where every trigger is settled, a registration skips them all and leaves
/// the members as they are.
pub proof fn lemma_settled_triggers_are_skipped(
    hooks: Seq<(Seq<char>, JsonValue)>,
    triggers: Seq<Seq<char>>,
    program: Seq<char>,
    command: Seq<char>,
)
    requires
        forall|i: int| 0 <= i < triggers.len() ==> settled(hooks, #[trigger] triggers[i], program),
    ensures
        register_triggers(hooks, triggers, program, command) == Ok::<Progress, RegisterFailure>(
            Progress { hooks, added: Seq::empty(), skipped: triggers },
        ),
    decreases triggers.len(),
{
    if triggers.len() > 0 {
        lemma_settled_triggers_are_skipped(hooks, triggers.drop_last(), program, command);
        assert(triggers.drop_last().push(triggers.last()) =~= triggers);
    } else {
        assert(triggers =~= Seq::empty());
    }
}

/// The members of the `hooks` object of a settings document; none where the
/// document has no such object.
pub open spec fn hooks_members(document: JsonValue) -> Seq<(Seq<char>, JsonValue)> {
    match document.member("hooks"@) {
        Some(JsonValue::Object(hooks)) => hooks,
        _ => Seq::empty(),
    }
}

/// Registering in a document that is already registered is a no-op. Where
/// the document is an object whose `hooks` is an object in which every
/// trigger is settled, registration succeeds, adds nothing, skips every
/// trigger and gives the document as it was.
pub proof fn lemma_registered_document_is_unchanged(
    document: JsonValue,
    program: Seq<char>,
    command: Seq<char>,
    triggers: Seq<Seq<char>>,
)
    requires
        document.member("hooks"@) is Some,
        document.member("hooks"@)->0 is Object,
        forall|i: int|
            0 <= i < triggers.len() ==> settled(
                hooks_members(document),
                #[trigger] triggers[i],
                program,
            ),
    ensures
        merged(document, program, command, triggers) == Ok::<MergedValue, RegisterFailure>(
            MergedValue { document, added: Seq::empty(), skipped: triggers },
        ),
{
    let members = document->Object_0;
    let at = key_index(members, "hooks"@);
    let hooks = hooks_members(document);
    lemma_key_index(members, "hooks"@);
    lemma_settled_triggers_are_skipped(hooks, triggers, program, command);
    assert(members.update(at, ("hooks"@, JsonValue::Object(hooks))) =~= members);
}

/// Registration is idempotent. Where a registration of the relay's own
/// command has succeeded, registering again in the document that it gave, with
/// the same arguments, succeeds, adds nothing, skips every trigger, and gives
/// that same document.
pub proof fn lemma_registration_is_idempotent(
    document: JsonValue,
    program: Seq<char>,
    command: Seq<char>,
    triggers: Seq<Seq<char>>,
)
    requires
        is_relay_command(command, program),
        merged(document, program, command, triggers) is Ok,
    ensures
        merged(
            merged(document, program, command, triggers)->Ok_0.document,
            program,
            command,
            triggers,
        ) == Ok::<MergedValue, RegisterFailure>(
            MergedValue {
                document: merged(document, program, command, triggers)->Ok_0.document,
                added: Seq::empty(),
                skipped: triggers,
            },
        ),
{
    let members = document->Object_0;
    let at = key_index(members, "hooks"@);
    let hooks = if at >= 0 {
        members[at].1->Object_0
    } else {
        Seq::empty()
    };
    let progress = register_triggers(hooks, triggers, program, command)->Ok_0;
    let first = merged(document, program, command, triggers)->Ok_0;
    lemma_key_index(members, "hooks"@);
    lemma_all_settled(hooks, triggers, program, command);
    if at >= 0 {
        lemma_key_index_same_keys(members, first.document->Object_0, "hooks"@);
    } else {
        lemma_key_index_push(members, ("hooks"@, JsonValue::Object(progress.hooks)), "hooks"@);
    }
    lemma_registered_document_is_unchanged(first.document, program, command, triggers);
}

/// The members that registration writes for triggers that have none: for
/// each trigger, in order, an array of the one new group.
pub open spec fn fresh_members(triggers: Seq<Seq<char>>, command: Seq<char>) -> Seq<
    (Seq<char>, JsonValue),
> {
    Seq::new(triggers.len(), |i: int| (triggers[i], JsonValue::Array(seq![hook_group(command)])))
}

/// Triggers without a member are all added, each with a member of its own at
/// the end.
pub proof fn lemma_fresh_triggers_are_added(
    hooks: Seq<(Seq<char>, JsonValue)>,
    triggers: Seq<Seq<char>>,
    program: Seq<char>,
    command: Seq<char>,
)
    requires
        forall|i: int| 0 <= i < triggers.len() ==> key_index(hooks, #[trigger] triggers[i]) < 0,
        triggers.no_duplicates(),
    ensures
        register_triggers(hooks, triggers, program, command) == Ok::<Progress, RegisterFailure>(
            Progress {
                hooks: hooks + fresh_members(triggers, command),
                added: triggers,
                skipped: Seq::empty(),
            },
        ),
    decreases triggers.len(),
{
    if triggers.len() > 0 {
        let earlier = triggers.drop_last();
        let last = triggers.last();
        lemma_fresh_triggers_are_added(hooks, earlier, program, command);
        let before = hooks + fresh_members(earlier, command);
        lemma_key_absent(hooks, last);
        lemma_key_absent(before, last);
        assert(before.push((last, JsonValue::Array(seq![hook_group(command)]))) =~= hooks
            + fresh_members(triggers, command));
        assert(earlier.push(last) =~= triggers);
    } else {
        assert(triggers =~= Seq::empty());
    }
}

/// A first registration adds every trigger. In a settings object whose
/// `hooks`, if it has one, is an object without a member for any of the
/// triggers, registering triggers that are all different succeeds, adds them
/// all in their order and skips none; `hooks` then holds what it held, and
/// after it one array of one new group for each trigger.
pub proof fn lemma_first_registration_adds_all(
    document: JsonValue,
    program: Seq<char>,
    command: Seq<char>,
    triggers: Seq<Seq<char>>,
)
    requires
        document is Object,
        document.member("hooks"@) is Some ==> document.member("hooks"@)->0 is Object,
        forall|i: int|
            0 <= i < triggers.len() ==> key_index(hooks_members(document), #[trigger] triggers[i])
                < 0,
        triggers.no_duplicates(),
    ensures
        merged(document, program, command, triggers) is Ok,
        merged(document, program, command, triggers)->Ok_0.added == triggers,
        merged(document, program, command, triggers)->Ok_0.skipped == Seq::<Seq<char>>::empty(),
        hooks_members(merged(document, program, command, triggers)->Ok_0.document)
            == hooks_members(document) + fresh_members(triggers, command),
{
    let members = document->Object_0;
    let at = key_index(members, "hooks"@);
    let hooks = hooks_members(document);
    lemma_key_index(members, "hooks"@);
    lemma_fresh_triggers_are_added(hooks, triggers, program, command);
    let member = ("hooks"@, JsonValue::Object(hooks + fresh_members(triggers, command)));
    if at >= 0 {
        lemma_key_index_same_keys(
            members,
            merged(document, program, command, triggers)->Ok_0.document->Object_0,
            "hooks"@,
        );
    } else {
        lemma_key_index_push(members, member, "hooks"@);
    }
}

/// A value is kept where it is unchanged, or is an array that has only grown
/// at its end.
pub open spec fn kept(before: JsonValue, after: JsonValue) -> bool {
    before == after || (before is Array && after is Array && before->Array_0.len()
        <= after->Array_0.len() && after->Array_0.subrange(0, before->Array_0.len() as int)
        == before->Array_0)
}

/// A value is an array of groups that names the relay.
pub open spec fn names_relay(value: JsonValue, program: Seq<char>) -> bool {
    value is Array && registered(value->Array_0, program)
}

/// The members of `hooks` are kept: each is still in its place under its key,
/// with its value kept; it is unchanged where its key is none of the
/// triggers, and where its value already named the relay.
pub open spec fn members_kept(
    before: Seq<(Seq<char>, JsonValue)>,
    after: Seq<(Seq<char>, JsonValue)>,
    triggers: Seq<Seq<char>>,
    program: Seq<char>,
) -> bool {
    &&& before.len() <= after.len()
    &&& forall|j: int|
        0 <= j < before.len() ==> (#[trigger] after[j]).0 == before[j].0 && kept(
            before[j].1,
            after[j].1,
        )
    &&& forall|j: int|
        0 <= j < before.len() && !triggers.contains(before[j].0) ==> #[trigger] after[j]
            == before[j]
    &&& forall|j: int|
        0 <= j < before.len() && names_relay(before[j].1, program) ==> #[trigger] after[j]
            == before[j]
}

/// Registering the triggers keeps the members of `hooks`.
pub proof fn lemma_triggers_keep_members(
    hooks: Seq<(Seq<char>, JsonValue)>,
    triggers: Seq<Seq<char>>,
    program: Seq<char>,
    command: Seq<char>,
)
    requires
        register_triggers(hooks, triggers, program, command) is Ok,
    ensures
        members_kept(
            hooks,
            register_triggers(hooks, triggers, program, command)->Ok_0.hooks,
            triggers,
            program,
        ),
    decreases triggers.len(),
{
    if triggers.len() > 0 {
        let earlier = triggers.drop_last();
        let last = triggers.last();
        lemma_triggers_keep_members(hooks, earlier, program, command);
        let middle = register_triggers(hooks, earlier, program, command)->Ok_0.hooks;
        let after = register_trigger(middle, last, program, command)->Ok_0.0;
        let at = key_index(middle, last);
        lemma_key_index(middle, last);
        assert forall|j: int| 0 <= j < hooks.len() implies (#[trigger] after[j]).0 == hooks[j].0
            && kept(hooks[j].1, after[j].1) && (!triggers.contains(hooks[j].0) ==> after[j]
            == hooks[j]) && (names_relay(hooks[j].1, program) ==> after[j] == hooks[j]) by {
            if at >= 0 && j == at && middle[at].1 is Array && !registered(
                middle[at].1->Array_0,
                program,
            ) {
                let groups = middle[at].1->Array_0;
                let grown = groups.push(hook_group(command));
                assert(grown.subrange(0, groups.len() as int) =~= groups);
                if hooks[j].1 != middle[j].1 {
                    let first = hooks[j].1->Array_0;
                    assert(grown.subrange(0, first.len() as int) =~= groups.subrange(
                        0,
                        first.len() as int,
                    ));
                }
            }
        }
    }
}

/// Registration keeps what it finds. Where it succeeds, every member of the
/// settings object is still in its place under its key, and every member but
/// `hooks` is unchanged; within `hooks`, every member is still in its place
/// under its key, unchanged where its key is none of the triggers or its
/// groups already named the relay, and otherwise an array that still begins
/// with the groups it had.
pub proof fn lemma_registration_keeps_the_rest(
    document: JsonValue,
    program: Seq<char>,
    command: Seq<char>,
    triggers: Seq<Seq<char>>,
)
    requires
        merged(document, program, command, triggers) is Ok,
    ensures
        document is Object,
        merged(document, program, command, triggers)->Ok_0.document is Object,
        document->Object_0.len() <= merged(
            document,
            program,
            command,
            triggers,
        )->Ok_0.document->Object_0.len(),
        forall|i: int|
            0 <= i < document->Object_0.len() ==> (#[trigger] merged(
                document,
                program,
                command,
                triggers,
            )->Ok_0.document->Object_0[i]).0 == document->Object_0[i].0,
        forall|i: int|
            0 <= i < document->Object_0.len() && i != key_index(document->Object_0, "hooks"@)
                ==> #[trigger] merged(document, program, command, triggers)->Ok_0.document->Object_0[i]
                == document->Object_0[i],
        members_kept(
            hooks_members(document),
            hooks_members(merged(document, program, command, triggers)->Ok_0.document),
            triggers,
            program,
        ),
{
    let members = document->Object_0;
    let at = key_index(members, "hooks"@);
    let hooks = hooks_members(document);
    lemma_key_index(members, "hooks"@);
    lemma_triggers_keep_members(hooks, triggers, program, command);
    let progress = register_triggers(hooks, triggers, program, command)->Ok_0;
    if at >= 0 {
        lemma_key_index_same_keys(
            members,
            merged(document, program, command, triggers)->Ok_0.document->Object_0,
            "hooks"@,
        );
    } else {
        lemma_key_index_push(members, ("hooks"@, JsonValue::Object(progress.hooks)), "hooks"@);
    }
}

/// The command line built for an executable is the relay's own, where the
/// path of the executable holds the program's name and that name holds no
/// `\`: registering it is then idempotent.
pub proof fn lemma_command_line_is_relay(exe_path: Seq<char>, program: Seq<char>)
    requires
        occurs_in(program, exe_path),
        !program.contains('\\'),
    ensures
        is_relay_command(command_line(exe_path), program),
{
    let path = replaced(exe_path, '\\', '/');
    let line = command_line(exe_path);
    reveal_strlit(" --hook");
    reveal_strlit("--hook");
    let at = choose|at: int| occurs_at(program, exe_path, at);
    assert(line.subrange(at, at + program.len()) =~= program);
    assert(occurs_at(program, line, at));
    let flag_at = path.len() as int + 1;
    assert(line.subrange(flag_at, flag_at + 6) =~= "--hook"@);
    assert(occurs_at("--hook"@, line, flag_at));
}

} // verus!
