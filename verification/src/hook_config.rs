//! Codex's hook configuration (`hooks.json`) as a JSON tree, and registering
//! the island's hook command in it for every hook event.
use crate::discovery::first_index_from;
use crate::text::{owned, str_eq};
use vstd::prelude::*;
use vstd::string::*;

verus! {

broadcast use vstd::string::group_string_axioms;

/// A JSON value. Numbers are held as the text that writes them.
pub enum Json {
    Null,
    Bool(bool),
    Number(String),
    Text(String),
    Array(Vec<Json>),
    Object(Vec<(String, Json)>),
}

pub enum JsonView {
    Null,
    Bool(bool),
    Number(Seq<char>),
    Text(Seq<char>),
    Array(Seq<JsonView>),
    Object(Seq<(Seq<char>, JsonView)>),
}

pub open spec fn json_view(j: Json) -> JsonView
    decreases j,
{
    match j {
        Json::Null => JsonView::Null,
        Json::Bool(b) => JsonView::Bool(b),
        Json::Number(n) => JsonView::Number(n@),
        Json::Text(t) => JsonView::Text(t@),
        Json::Array(items) => JsonView::Array(items_view(items@)),
        Json::Object(fields) => JsonView::Object(fields_view(fields@)),
    }
}

pub open spec fn items_view(items: Seq<Json>) -> Seq<JsonView>
    decreases items,
{
    if items.len() == 0 {
        Seq::empty()
    } else {
        seq![json_view(items[0])] + items_view(items.subrange(1, items.len() as int))
    }
}

pub open spec fn fields_view(fields: Seq<(String, Json)>) -> Seq<(Seq<char>, JsonView)>
    decreases fields,
{
    if fields.len() == 0 {
        Seq::empty()
    } else {
        seq![(fields[0].0@, json_view(fields[0].1))] + fields_view(
            fields.subrange(1, fields.len() as int),
        )
    }
}

pub proof fn lemma_items_view(items: Seq<Json>)
    ensures
        items_view(items).len() == items.len(),
        forall|i: int| 0 <= i < items.len() ==> #[trigger] items_view(items)[i] == json_view(items[i]),
    decreases items.len(),
{
    if items.len() > 0 {
        let rest = items.subrange(1, items.len() as int);
        lemma_items_view(rest);
        assert forall|i: int| 0 <= i < items.len() implies #[trigger] items_view(items)[i] == json_view(
            items[i],
        ) by {
            if i > 0 {
                assert(items_view(items)[i] == items_view(rest)[i - 1]);
                assert(rest[i - 1] == items[i]);
            }
        }
    }
}

pub proof fn lemma_fields_view(fields: Seq<(String, Json)>)
    ensures
        fields_view(fields).len() == fields.len(),
        forall|i: int|
            0 <= i < fields.len() ==> #[trigger] fields_view(fields)[i] == (
                fields[i].0@,
                json_view(fields[i].1),
            ),
    decreases fields.len(),
{
    if fields.len() > 0 {
        let rest = fields.subrange(1, fields.len() as int);
        lemma_fields_view(rest);
        assert forall|i: int| 0 <= i < fields.len() implies #[trigger] fields_view(fields)[i] == (
            fields[i].0@,
            json_view(fields[i].1),
        ) by {
            if i > 0 {
                assert(fields_view(fields)[i] == fields_view(rest)[i - 1]);
                assert(rest[i - 1] == fields[i]);
            }
        }
    }
}

// ---------------------------------------------------------------------------
// Object members
// ---------------------------------------------------------------------------

pub open spec fn key_at(fields: Seq<(Seq<char>, JsonView)>, key: Seq<char>) -> spec_fn(int) -> bool {
    |i: int| fields[i].0 == key
}

/// Where `key` stands among an object's members (the first such member).
pub open spec fn field_index(fields: Seq<(Seq<char>, JsonView)>, key: Seq<char>) -> Option<int> {
    first_index_from(0, fields.len() as int, key_at(fields, key))
}

/// The member `key` of an object.
pub open spec fn get_field(fields: Seq<(Seq<char>, JsonView)>, key: Seq<char>) -> Option<JsonView> {
    match field_index(fields, key) {
        Some(i) => Some(fields[i].1),
        None => None,
    }
}

/// The object with member `key` set to `value`: replaced where it stands, or
/// added at the end.
pub open spec fn set_field(fields: Seq<(Seq<char>, JsonView)>, key: Seq<char>, value: JsonView) -> Seq<
    (Seq<char>, JsonView),
> {
    match field_index(fields, key) {
        Some(i) => fields.update(i, (key, value)),
        None => fields.push((key, value)),
    }
}

pub proof fn lemma_first_index_from_bounds(from: int, n: int, p: spec_fn(int) -> bool)
    ensures
        match first_index_from(from, n, p) {
            Some(k) => from <= k < n && p(k) && forall|j: int| from <= j < k ==> !#[trigger] p(j),
            None => forall|j: int| from <= j < n ==> !#[trigger] p(j),
        },
    decreases n - from,
{
    if from < n && !p(from) {
        lemma_first_index_from_bounds(from + 1, n, p);
    }
}

pub proof fn lemma_first_index_from_same(from: int, n: int, p: spec_fn(int) -> bool, q: spec_fn(int) -> bool)
    requires
        forall|j: int| from <= j < n ==> #[trigger] p(j) == q(j),
    ensures
        first_index_from(from, n, p) == first_index_from(from, n, q),
    decreases n - from,
{
    if from < n {
        lemma_first_index_from_same(from + 1, n, p, q);
    }
}

pub proof fn lemma_first_index_from_extend(from: int, n: int, p: spec_fn(int) -> bool, q: spec_fn(int) -> bool)
    requires
        0 <= from <= n,
        forall|j: int| from <= j < n ==> #[trigger] p(j) == q(j),
        !q(n),
    ensures
        first_index_from(from, n, p) == first_index_from(from, n + 1, q),
    decreases n - from,
{
    if from < n {
        assert(p(from) == q(from));
        lemma_first_index_from_extend(from + 1, n, p, q);
    } else {
        assert(first_index_from(n + 1, n + 1, q) is None);
    }
}

/// Setting one member leaves every other member as it was.
pub proof fn lemma_set_other_field(
    fields: Seq<(Seq<char>, JsonView)>,
    key: Seq<char>,
    value: JsonView,
    other: Seq<char>,
)
    requires
        key != other,
    ensures
        get_field(set_field(fields, key, value), other) == get_field(fields, other),
{
    let after = set_field(fields, key, value);
    lemma_first_index_from_bounds(0, fields.len() as int, key_at(fields, key));
    lemma_first_index_from_bounds(0, fields.len() as int, key_at(fields, other));
    match field_index(fields, key) {
        Some(i) => {
            assert forall|j: int| 0 <= j < fields.len() implies #[trigger] key_at(after, other)(j) == key_at(
                fields,
                other,
            )(j) by {
                if j == i {
                    assert(after[j].0 == key);
                    assert(fields[j].0 == key);
                } else {
                    assert(after[j] == fields[j]);
                }
            }
            lemma_first_index_from_same(
                0,
                fields.len() as int,
                key_at(after, other),
                key_at(fields, other),
            );
            lemma_first_index_from_bounds(0, after.len() as int, key_at(after, other));
            match field_index(fields, other) {
                Some(k) => {
                    assert(k != i);
                    assert(after[k] == fields[k]);
                },
                None => {},
            }
        },
        None => {
            assert(after.len() == fields.len() + 1);
            assert forall|j: int| 0 <= j < fields.len() implies #[trigger] key_at(fields, other)(j) == key_at(
                after,
                other,
            )(j) by {
                assert(after[j] == fields[j]);
            }
            assert(!key_at(after, other)(fields.len() as int));
            lemma_first_index_from_extend(
                0,
                fields.len() as int,
                key_at(fields, other),
                key_at(after, other),
            );
            match field_index(fields, other) {
                Some(k) => {
                    assert(after[k] == fields[k]);
                },
                None => {},
            }
        },
    }
}

fn field_position(fields: &Vec<(String, Json)>, key: &str) -> (r: Option<usize>)
    ensures
        match r {
            Some(i) => i < fields.len() && field_index(fields_view(fields@), key@) == Some(i as int),
            None => field_index(fields_view(fields@), key@) is None,
        },
{
    let ghost fv = fields_view(fields@);
    proof {
        lemma_fields_view(fields@);
    }
    let mut i: usize = 0;
    while i < fields.len()
        invariant
            i <= fields.len(),
            fv == fields_view(fields@),
            fv.len() == fields.len(),
            forall|j: int| 0 <= j < fields.len() ==> #[trigger] fv[j] == (fields@[j].0@, json_view(fields@[j].1)),
            field_index(fv, key@) == first_index_from(i as int, fv.len() as int, key_at(fv, key@)),
        decreases fields.len() - i,
    {
        assert(fv[i as int].0 == fields@[i as int].0@);
        if str_eq(fields[i].0.as_str(), key) {
            assert(key_at(fv, key@)(i as int));
            return Some(i);
        }
        assert(!key_at(fv, key@)(i as int));
        i += 1;
    }
    None
}

proof fn lemma_fields_update(fields: Seq<(String, Json)>, i: int, member: (String, Json))
    requires
        0 <= i < fields.len(),
    ensures
        fields_view(fields.update(i, member)) == fields_view(fields).update(
            i,
            (member.0@, json_view(member.1)),
        ),
{
    lemma_fields_view(fields);
    lemma_fields_view(fields.update(i, member));
    assert(fields_view(fields.update(i, member)) =~= fields_view(fields).update(
        i,
        (member.0@, json_view(member.1)),
    ));
}

proof fn lemma_fields_push(fields: Seq<(String, Json)>, member: (String, Json))
    ensures
        fields_view(fields.push(member)) == fields_view(fields).push((member.0@, json_view(member.1))),
{
    lemma_fields_view(fields);
    lemma_fields_view(fields.push(member));
    assert(fields_view(fields.push(member)) =~= fields_view(fields).push(
        (member.0@, json_view(member.1)),
    ));
}

proof fn lemma_items_update(items: Seq<Json>, i: int, item: Json)
    requires
        0 <= i < items.len(),
    ensures
        items_view(items.update(i, item)) == items_view(items).update(i, json_view(item)),
{
    lemma_items_view(items);
    lemma_items_view(items.update(i, item));
    assert(items_view(items.update(i, item)) =~= items_view(items).update(i, json_view(item)));
}

proof fn lemma_items_push(items: Seq<Json>, item: Json)
    ensures
        items_view(items.push(item)) == items_view(items).push(json_view(item)),
{
    lemma_items_view(items);
    lemma_items_view(items.push(item));
    assert(items_view(items.push(item)) =~= items_view(items).push(json_view(item)));
}

/// The object `fields` with member `key` set to `value`.
fn set_json_field(fields: Vec<(String, Json)>, key: &str, value: Json) -> (r: Vec<(String, Json)>)
    ensures
        fields_view(r@) == set_field(fields_view(fields@), key@, json_view(value)),
{
    let mut fields = fields;
    let ghost before = fields@;
    match field_position(&fields, key) {
        Some(i) => {
            let member = (owned(key), value);
            proof {
                lemma_fields_update(before, i as int, member);
            }
            fields.set(i, member);
            assert(fields@ == before.update(i as int, member));
        },
        None => {
            let member = (owned(key), value);
            proof {
                lemma_fields_push(before, member);
            }
            fields.push(member);
        },
    }
    fields
}

/// Member `key` taken out of the object (left as null in its place).
fn take_json_field(fields: &mut Vec<(String, Json)>, key: &str) -> (r: Option<Json>)
    ensures
        match field_index(fields_view(old(fields)@), key@) {
            Some(i) => r is Some && json_view(r.unwrap()) == fields_view(old(fields)@)[i].1
                && final(fields)@ == old(fields)@.update(i, (old(fields)@[i].0, Json::Null)),
            None => r is None && final(fields)@ == old(fields)@,
        },
{
    proof {
        lemma_fields_view(old(fields)@);
    }
    match field_position(fields, key) {
        Some(i) => {
            let (k, v) = fields.remove(i);
            fields.insert(i, (k, Json::Null));
            assert(fields@ =~= old(fields)@.update(i as int, (old(fields)@[i as int].0, Json::Null)));
            Some(v)
        },
        None => None,
    }
}

// ---------------------------------------------------------------------------
// Registering the hook command
// ---------------------------------------------------------------------------

/// The hook events that the island listens to.
pub open spec fn hook_events() -> Seq<Seq<char>> {
    seq!["SessionStart"@, "UserPromptSubmit"@, "PreToolUse"@, "PostToolUse"@, "Stop"@]
}

pub open spec fn empty_group() -> JsonView {
    JsonView::Object(seq![("hooks"@, JsonView::Array(Seq::empty()))])
}

/// The hook entry that runs `command`.
pub open spec fn command_hook(command: Seq<char>) -> JsonView {
    JsonView::Object(
        seq![
            ("type"@, JsonView::Text("command"@)),
            ("command"@, JsonView::Text(command)),
            ("timeout"@, JsonView::Number("30"@)),
        ],
    )
}

/// Whether a hook entry runs `command`.
pub open spec fn runs_command(hook: JsonView, command: Seq<char>) -> bool {
    match hook {
        JsonView::Object(f) => get_field(f, "command"@) == Some(JsonView::Text(command)),
        _ => false,
    }
}

/// The hook groups of `event`: its array, with an empty group when the array
/// is empty or missing.
pub open spec fn event_groups(hooks: Seq<(Seq<char>, JsonView)>, event: Seq<char>) -> Seq<JsonView> {
    match get_field(hooks, event) {
        Some(JsonView::Array(g)) => if g.len() == 0 {
            seq![empty_group()]
        } else {
            g
        },
        _ => seq![empty_group()],
    }
}

/// A group whose hook list can be extended: an object whose `hooks` is an array.
pub open spec fn group_ok(g: JsonView) -> bool {
    match g {
        JsonView::Object(f) => get_field(f, "hooks"@) matches Some(JsonView::Array(_)),
        _ => false,
    }
}

/// The hooks object with `command` in the first group of `event`, added at
/// the end of that group's list unless an entry there already runs it.
pub open spec fn with_command(hooks: Seq<(Seq<char>, JsonView)>, event: Seq<char>, command: Seq<char>) -> Seq<
    (Seq<char>, JsonView),
> {
    let groups = event_groups(hooks, event);
    let first = groups[0]->Object_0;
    let commands = get_field(first, "hooks"@)->Some_0->Array_0;
    let listed = if exists|i: int| 0 <= i < commands.len() && runs_command(#[trigger] commands[i], command) {
        commands
    } else {
        commands.push(command_hook(command))
    };
    set_field(
        hooks,
        event,
        JsonView::Array(groups.update(0, JsonView::Object(set_field(first, "hooks"@, JsonView::Array(listed))))),
    )
}

pub open spec fn root_fields(config: JsonView) -> Seq<(Seq<char>, JsonView)> {
    match config {
        JsonView::Object(f) => f,
        _ => Seq::empty(),
    }
}

pub open spec fn hooks_of(fields: Seq<(Seq<char>, JsonView)>) -> Seq<(Seq<char>, JsonView)> {
    match get_field(fields, "hooks"@) {
        Some(JsonView::Object(h)) => h,
        _ => Seq::empty(),
    }
}

/// The configuration with `command` registered for every hook event, keeping
/// everything else; a configuration that is not an object is replaced, and so
/// is a `hooks` member that is not an object.
pub open spec fn merged_config(config: JsonView, command: Seq<char>) -> JsonView {
    let f = root_fields(config);
    let h = hooks_of(f);
    let e = hook_events();
    JsonView::Object(
        set_field(
            f,
            "hooks"@,
            JsonView::Object(
                with_command(
                    with_command(
                        with_command(with_command(with_command(h, e[0], command), e[1], command), e[2], command),
                        e[3],
                        command,
                    ),
                    e[4],
                    command,
                ),
            ),
        ),
    )
}

/// Whether the command can be registered: for every hook event, the first
/// group already there (if any) is an object with a `hooks` array.
pub open spec fn mergeable(config: JsonView) -> bool {
    forall|k: int| 0 <= k < 5 ==> group_ok(#[trigger] event_groups(hooks_of(root_fields(config)), hook_events()[k])[0])
}

fn empty_group_value() -> (r: Json)
    ensures
        json_view(r) == empty_group(),
{
    let mut fields: Vec<(String, Json)> = Vec::new();
    let hooks: Vec<Json> = Vec::new();
    fields.push((owned("hooks"), Json::Array(hooks)));
    proof {
        lemma_fields_view(fields@);
        lemma_items_view(hooks@);
    }
    assert(fields_view(fields@) =~= seq![("hooks"@, JsonView::Array(Seq::empty()))]);
    Json::Object(fields)
}

fn command_hook_value(command: &str) -> (r: Json)
    ensures
        json_view(r) == command_hook(command@),
{
    let mut fields: Vec<(String, Json)> = Vec::new();
    fields.push((owned("type"), Json::Text(owned("command"))));
    fields.push((owned("command"), Json::Text(owned(command))));
    fields.push((owned("timeout"), Json::Number(owned("30"))));
    proof {
        lemma_fields_view(fields@);
    }
    assert(fields_view(fields@) =~= seq![
        ("type"@, JsonView::Text("command"@)),
        ("command"@, JsonView::Text(command@)),
        ("timeout"@, JsonView::Number("30"@)),
    ]);
    Json::Object(fields)
}

fn runs_command_value(hook: &Json, command: &str) -> (b: bool)
    ensures
        b == runs_command(json_view(*hook), command@),
{
    match hook {
        Json::Object(fields) => match field_position(fields, "command") {
            Some(i) => {
                proof {
                    lemma_fields_view(fields@);
                }
                match &fields[i].1 {
                    Json::Text(t) => str_eq(t.as_str(), command),
                    _ => false,
                }
            },
            None => false,
        },
        _ => false,
    }
}

fn groups_of_value(value: Option<Json>) -> (r: Vec<Json>)
    ensures
        items_view(r@) == (match value {
            Some(v) => match json_view(v) {
                JsonView::Array(g) => if g.len() == 0 {
                    seq![empty_group()]
                } else {
                    g
                },
                _ => seq![empty_group()],
            },
            None => seq![empty_group()],
        }),
{
    let mut fallback: Vec<Json> = Vec::new();
    fallback.push(empty_group_value());
    proof {
        lemma_items_view(fallback@);
    }
    assert(items_view(fallback@) =~= seq![empty_group()]);
    match value {
        Some(Json::Array(g)) => {
            proof {
                lemma_items_view(g@);
            }
            if g.len() == 0 {
                fallback
            } else {
                g
            }
        },
        _ => fallback,
    }
}

proof fn lemma_same_keys(a: Seq<(Seq<char>, JsonView)>, b: Seq<(Seq<char>, JsonView)>, key: Seq<char>)
    requires
        a.len() == b.len(),
        forall|j: int| 0 <= j < a.len() ==> a[j].0 == b[j].0,
    ensures
        field_index(a, key) == field_index(b, key),
{
    assert forall|j: int| 0 <= j < a.len() implies #[trigger] key_at(a, key)(j) == key_at(b, key)(j) by {
    }
    lemma_first_index_from_same(0, a.len() as int, key_at(a, key), key_at(b, key));
}

/// Blanking a member before setting it changes nothing.
proof fn lemma_set_after_blank(hv: Seq<(Seq<char>, JsonView)>, i: int, key: Seq<char>, v: JsonView)
    requires
        field_index(hv, key) == Some(i),
    ensures
        set_field(hv.update(i, (hv[i].0, JsonView::Null)), key, v) == set_field(hv, key, v),
{
    lemma_first_index_from_bounds(0, hv.len() as int, key_at(hv, key));
    let h1 = hv.update(i, (hv[i].0, JsonView::Null));
    lemma_same_keys(h1, hv, key);
    assert(h1.update(i, (key, v)) =~= hv.update(i, (key, v)));
}

/// `hooks` with `command` registered for `event`.
fn with_command_value(hooks: Vec<(String, Json)>, event: &str, command: &str) -> (r: Vec<(String, Json)>)
    requires
        group_ok(event_groups(fields_view(hooks@), event@)[0]),
    ensures
        fields_view(r@) == with_command(fields_view(hooks@), event@, command@),
{
    let ghost hv = fields_view(hooks@);
    proof {
        lemma_fields_view(hooks@);
        lemma_first_index_from_bounds(0, hv.len() as int, key_at(hv, event@));
    }
    let mut hooks = hooks;
    let ghost before = hooks@;
    let existing = take_json_field(&mut hooks, event);
    proof {
        match field_index(hv, event@) {
            Some(i) => {
                lemma_fields_update(before, i, (before[i].0, Json::Null));
            },
            None => {},
        }
    }
    let mut groups = groups_of_value(existing);
    let ghost gv = items_view(groups@);
    assert(gv == event_groups(hv, event@));
    proof {
        lemma_items_view(groups@);
    }
    let ghost groups_before = groups@;
    let first = groups.remove(0);
    assert(json_view(first) == gv[0]);
    assert(groups@.insert(0, first) =~= groups_before);
    let mut first_fields = match first {
        Json::Object(f) => f,
        _ => {
            proof {
                assert(false);
            }
            Vec::new()
        },
    };
    let ghost ff = fields_view(first_fields@);
    assert(JsonView::Object(ff) == gv[0]);
    proof {
        lemma_fields_view(first_fields@);
        lemma_first_index_from_bounds(0, ff.len() as int, key_at(ff, "hooks"@));
    }
    let ghost p = field_index(ff, "hooks"@)->Some_0;
    let ghost first_before = first_fields@;
    let listed_value = take_json_field(&mut first_fields, "hooks");
    let mut listed = match listed_value {
        Some(Json::Array(l)) => l,
        _ => {
            proof {
                assert(false);
            }
            Vec::new()
        },
    };
    let ghost commands = items_view(listed@);
    assert(JsonView::Array(commands) == ff[p].1);
    proof {
        lemma_items_view(listed@);
        lemma_fields_update(first_before, p, (first_before[p].0, Json::Null));
    }
    let mut present = false;
    let mut i: usize = 0;
    while i < listed.len()
        invariant
            i <= listed.len(),
            commands == items_view(listed@),
            commands.len() == listed.len(),
            forall|j: int| 0 <= j < listed.len() ==> #[trigger] commands[j] == json_view(listed@[j]),
            present == exists|j: int| 0 <= j < i && runs_command(#[trigger] commands[j], command@),
        decreases listed.len() - i,
    {
        if runs_command_value(&listed[i], command) {
            assert(runs_command(commands[i as int], command@));
            present = true;
        }
        i += 1;
    }
    if !present {
        let hook = command_hook_value(command);
        proof {
            lemma_items_push(listed@, hook);
        }
        listed.push(hook);
    }
    let ghost listed_view = items_view(listed@);
    assert(get_field(ff, "hooks"@) == Some(JsonView::Array(commands)));
    assert(listed_view == (if exists|j: int| 0 <= j < commands.len() && runs_command(
        #[trigger] commands[j],
        command@,
    ) {
        commands
    } else {
        commands.push(command_hook(command@))
    }));
    let ghost blanked = fields_view(first_fields@);
    assert(blanked == ff.update(p, (ff[p].0, JsonView::Null)));
    let new_first_fields = set_json_field(first_fields, "hooks", Json::Array(listed));
    proof {
        lemma_set_after_blank(ff, p, "hooks"@, JsonView::Array(listed_view));
    }
    let ghost new_first_view = fields_view(new_first_fields@);
    assert(new_first_view == set_field(ff, "hooks"@, JsonView::Array(listed_view)));
    let ghost rest = groups@;
    let ghost new_first = Json::Object(new_first_fields);
    groups.insert(0, Json::Object(new_first_fields));
    proof {
        let original = rest.insert(0, first);
        assert(groups@ =~= original.update(0, new_first));
        lemma_items_update(original, 0, new_first);
        assert(items_view(original) == gv);
    }
    let ghost groups_view = items_view(groups@);
    assert(groups_view == gv.update(0, JsonView::Object(new_first_view)));
    let ghost taken = fields_view(hooks@);
    let result = set_json_field(hooks, event, Json::Array(groups));
    proof {
        match field_index(hv, event@) {
            Some(i) => {
                assert(taken == hv.update(i, (hv[i].0, JsonView::Null)));
                lemma_set_after_blank(hv, i, event@, JsonView::Array(groups_view));
            },
            None => {
                assert(taken == hv);
            },
        }
    }
    result
}

/// Registering for one event leaves every other event's groups as they were.
proof fn lemma_other_event_untouched(
    hooks: Seq<(Seq<char>, JsonView)>,
    event: Seq<char>,
    command: Seq<char>,
    other: Seq<char>,
)
    requires
        event != other,
    ensures
        get_field(with_command(hooks, event, command), other) == get_field(hooks, other),
        event_groups(with_command(hooks, event, command), other) == event_groups(hooks, other),
{
    let groups = event_groups(hooks, event);
    let first = groups[0]->Object_0;
    let commands = get_field(first, "hooks"@)->Some_0->Array_0;
    let listed = if exists|i: int| 0 <= i < commands.len() && runs_command(#[trigger] commands[i], command) {
        commands
    } else {
        commands.push(command_hook(command))
    };
    lemma_set_other_field(
        hooks,
        event,
        JsonView::Array(groups.update(0, JsonView::Object(set_field(first, "hooks"@, JsonView::Array(listed))))),
        other,
    );
}

proof fn lemma_events_distinct()
    ensures
        forall|a: int, b: int| 0 <= a < 5 && 0 <= b < 5 && a != b ==> #[trigger] hook_events()[a] != #[trigger] hook_events()[b],
{
    reveal_strlit("SessionStart");
    reveal_strlit("UserPromptSubmit");
    reveal_strlit("PreToolUse");
    reveal_strlit("PostToolUse");
    reveal_strlit("Stop");
    assert forall|a: int, b: int| 0 <= a < 5 && 0 <= b < 5 && a != b implies #[trigger] hook_events()[a]
        != #[trigger] hook_events()[b] by {
        assert(hook_events()[a].len() != hook_events()[b].len());
    }
}

/// The hook list of the first group of `event`.
pub open spec fn first_commands(hooks: Seq<(Seq<char>, JsonView)>, event: Seq<char>) -> Seq<JsonView> {
    get_field(event_groups(hooks, event)[0]->Object_0, "hooks"@)->Some_0->Array_0
}

/// A hook list with `command` in it: unchanged when an entry already runs it,
/// else with the command's entry added at the end.
pub open spec fn registered(commands: Seq<JsonView>, command: Seq<char>) -> Seq<JsonView> {
    if exists|i: int| 0 <= i < commands.len() && runs_command(#[trigger] commands[i], command) {
        commands
    } else {
        commands.push(command_hook(command))
    }
}

/// The hooks object with `command` registered for the first `n` hook events.
pub open spec fn registered_through(hooks: Seq<(Seq<char>, JsonView)>, command: Seq<char>, n: nat) -> Seq<
    (Seq<char>, JsonView),
>
    decreases n,
{
    if n == 0 {
        hooks
    } else {
        with_command(registered_through(hooks, command, (n - 1) as nat), hook_events()[n - 1], command)
    }
}

proof fn lemma_get_set_same(fields: Seq<(Seq<char>, JsonView)>, key: Seq<char>, value: JsonView)
    ensures
        get_field(set_field(fields, key, value), key) == Some(value),
{
    lemma_first_index_from_bounds(0, fields.len() as int, key_at(fields, key));
    let after = set_field(fields, key, value);
    match field_index(fields, key) {
        Some(i) => {
            assert forall|j: int| 0 <= j < fields.len() implies #[trigger] key_at(after, key)(j) == key_at(
                fields,
                key,
            )(j) by {
                if j != i {
                    assert(after[j] == fields[j]);
                }
            }
            lemma_first_index_from_same(0, fields.len() as int, key_at(after, key), key_at(fields, key));
        },
        None => {
            lemma_first_index_from_bounds(0, after.len() as int, key_at(after, key));
            assert(key_at(after, key)(fields.len() as int));
            match field_index(after, key) {
                Some(k) => {
                    if k < fields.len() {
                        assert(after[k] == fields[k]);
                        assert(key_at(fields, key)(k));
                    }
                },
                None => {},
            }
        },
    }
}

proof fn lemma_set_existing(fields: Seq<(Seq<char>, JsonView)>, key: Seq<char>, value: JsonView)
    requires
        get_field(fields, key) == Some(value),
    ensures
        set_field(fields, key, value) == fields,
{
    lemma_first_index_from_bounds(0, fields.len() as int, key_at(fields, key));
    let i = field_index(fields, key)->Some_0;
    assert(key_at(fields, key)(i));
    assert(fields.update(i, (key, value)) =~= fields);
}

/// What registering for `event` does to that event's groups.
proof fn lemma_with_command_own(hooks: Seq<(Seq<char>, JsonView)>, event: Seq<char>, command: Seq<char>)
    requires
        group_ok(event_groups(hooks, event)[0]),
    ensures
        get_field(with_command(hooks, event, command), event) == Some(
            JsonView::Array(event_groups(with_command(hooks, event, command), event)),
        ),
        group_ok(event_groups(with_command(hooks, event, command), event)[0]),
        first_commands(with_command(hooks, event, command), event) == registered(
            first_commands(hooks, event),
            command,
        ),
{
    let groups = event_groups(hooks, event);
    let first = groups[0]->Object_0;
    let commands = get_field(first, "hooks"@)->Some_0->Array_0;
    let listed = registered(commands, command);
    let new_groups = groups.update(0, JsonView::Object(set_field(first, "hooks"@, JsonView::Array(listed))));
    assert(with_command(hooks, event, command) == set_field(hooks, event, JsonView::Array(new_groups)));
    lemma_get_set_same(hooks, event, JsonView::Array(new_groups));
    lemma_get_set_same(first, "hooks"@, JsonView::Array(listed));
}

/// Registering for an event whose first group already runs the command
/// changes nothing.
proof fn lemma_with_command_fixed(hooks: Seq<(Seq<char>, JsonView)>, event: Seq<char>, command: Seq<char>)
    requires
        get_field(hooks, event) == Some(JsonView::Array(event_groups(hooks, event))),
        group_ok(event_groups(hooks, event)[0]),
        exists|i: int|
            0 <= i < first_commands(hooks, event).len() && runs_command(
                #[trigger] first_commands(hooks, event)[i],
                command,
            ),
    ensures
        with_command(hooks, event, command) == hooks,
{
    let groups = event_groups(hooks, event);
    let first = groups[0]->Object_0;
    let commands = get_field(first, "hooks"@)->Some_0->Array_0;
    assert(registered(commands, command) == commands);
    lemma_set_existing(first, "hooks"@, JsonView::Array(commands));
    assert(groups.update(0, JsonView::Object(first)) =~= groups);
    lemma_set_existing(hooks, event, JsonView::Array(groups));
}

proof fn lemma_through_other(hooks: Seq<(Seq<char>, JsonView)>, command: Seq<char>, n: nat, k: int)
    requires
        n <= 5,
        0 <= k < 5,
    ensures
        n <= k ==> get_field(registered_through(hooks, command, n), hook_events()[k]) == get_field(
            hooks,
            hook_events()[k],
        ),
        k < n ==> get_field(registered_through(hooks, command, n), hook_events()[k]) == get_field(
            registered_through(hooks, command, (k + 1) as nat),
            hook_events()[k],
        ),
    decreases n,
{
    if n > 0 {
        lemma_through_other(hooks, command, (n - 1) as nat, k);
        if n - 1 != k {
            lemma_events_distinct();
            assert(hook_events()[n - 1] != hook_events()[k]);
            lemma_other_event_untouched(
                registered_through(hooks, command, (n - 1) as nat),
                hook_events()[n - 1],
                command,
                hook_events()[k],
            );
        }
    }
}

proof fn lemma_merged_through(config: JsonView, command: Seq<char>)
    ensures
        merged_config(config, command) == JsonView::Object(
            set_field(
                root_fields(config),
                "hooks"@,
                JsonView::Object(registered_through(hooks_of(root_fields(config)), command, 5)),
            ),
        ),
        hooks_of(root_fields(merged_config(config, command))) == registered_through(
            hooks_of(root_fields(config)),
            command,
            5,
        ),
{
    reveal_with_fuel(registered_through, 6);
    lemma_get_set_same(
        root_fields(config),
        "hooks"@,
        JsonView::Object(registered_through(hooks_of(root_fields(config)), command, 5)),
    );
}

proof fn lemma_command_hook_runs(command: Seq<char>)
    ensures
        runs_command(command_hook(command), command),
{
    let f = command_hook(command)->Object_0;
    reveal_strlit("type");
    reveal_strlit("command");
    assert("type"@.len() != "command"@.len());
    lemma_first_index_from_bounds(0, 3, key_at(f, "command"@));
    assert(key_at(f, "command"@)(1));
    assert(!key_at(f, "command"@)(0));
}

/// How event `k`'s first group reads once the command is registered for every
/// event.
proof fn lemma_merged_event(config: JsonView, command: Seq<char>, k: int)
    requires
        mergeable(config),
        0 <= k < 5,
    ensures
        ({
            let w = hooks_of(root_fields(merged_config(config, command)));
            let e = hook_events()[k];
            &&& get_field(w, e) == Some(JsonView::Array(event_groups(w, e)))
            &&& group_ok(event_groups(w, e)[0])
            &&& first_commands(w, e) == registered(first_commands(hooks_of(root_fields(config)), e), command)
            &&& exists|i: int| 0 <= i < first_commands(w, e).len() && runs_command(
                #[trigger] first_commands(w, e)[i],
                command,
            )
        }),
{
    let h = hooks_of(root_fields(config));
    let e = hook_events()[k];
    lemma_merged_through(config, command);
    lemma_through_other(h, command, 5, k);
    lemma_through_other(h, command, k as nat, k);
    let before = registered_through(h, command, k as nat);
    assert(registered_through(h, command, (k + 1) as nat) == with_command(before, e, command));
    assert(event_groups(before, e) == event_groups(h, e));
    assert(group_ok(event_groups(h, hook_events()[k])[0]));
    lemma_with_command_own(before, e, command);
    let w = registered_through(h, command, 5);
    assert(event_groups(w, e) == event_groups(with_command(before, e, command), e));
    let listed = first_commands(w, e);
    let commands = first_commands(h, e);
    if !(exists|i: int| 0 <= i < commands.len() && runs_command(#[trigger] commands[i], command)) {
        lemma_command_hook_runs(command);
        assert(runs_command(listed[commands.len() as int], command));
    } else {
        let i = choose|i: int| 0 <= i < commands.len() && runs_command(#[trigger] commands[i], command);
        assert(runs_command(listed[i], command));
    }
}

/// Registering the island's hook command keeps every hook entry already in
/// the first group of each hook event, in its place, and leaves an entry
/// there that runs the command: added at the end only when none did before.
pub proof fn lemma_merge_keeps_existing_hooks(config: JsonView, command: Seq<char>, k: int)
    requires
        mergeable(config),
        0 <= k < 5,
    ensures
        ({
            let before = first_commands(hooks_of(root_fields(config)), hook_events()[k]);
            let after = first_commands(hooks_of(root_fields(merged_config(config, command))), hook_events()[k]);
            &&& before.len() <= after.len() <= before.len() + 1
            &&& after.subrange(0, before.len() as int) == before
            &&& exists|i: int| 0 <= i < after.len() && runs_command(#[trigger] after[i], command)
            &&& (after.len() == before.len() + 1 <==> !exists|i: int|
                0 <= i < before.len() && runs_command(#[trigger] before[i], command))
        }),
{
    lemma_merged_event(config, command, k);
    let before = first_commands(hooks_of(root_fields(config)), hook_events()[k]);
    let after = first_commands(hooks_of(root_fields(merged_config(config, command))), hook_events()[k]);
    assert(after.subrange(0, before.len() as int) =~= before);
}

/// Registering the command a second time changes nothing: the merged
/// configuration can be merged again, and gives itself back.
pub proof fn lemma_merge_idempotent(config: JsonView, command: Seq<char>)
    requires
        mergeable(config),
    ensures
        mergeable(merged_config(config, command)),
        merged_config(merged_config(config, command), command) == merged_config(config, command),
{
    let m = merged_config(config, command);
    let w = hooks_of(root_fields(m));
    assert forall|k: int| 0 <= k < 5 implies group_ok(#[trigger] event_groups(w, hook_events()[k])[0]) by {
        lemma_merged_event(config, command, k);
    }
    assert forall|n: nat| n <= 5 implies #[trigger] registered_through(w, command, n) == w by {
        lemma_through_fixed(config, command, n);
    }
    lemma_merged_through(m, command);
    lemma_merged_through(config, command);
    assert(registered_through(w, command, 5) == w);
    lemma_get_set_same(
        root_fields(config),
        "hooks"@,
        JsonView::Object(registered_through(hooks_of(root_fields(config)), command, 5)),
    );
    lemma_set_existing(root_fields(m), "hooks"@, JsonView::Object(w));
}

proof fn lemma_through_fixed(config: JsonView, command: Seq<char>, n: nat)
    requires
        mergeable(config),
        n <= 5,
    ensures
        registered_through(hooks_of(root_fields(merged_config(config, command))), command, n) == hooks_of(
            root_fields(merged_config(config, command)),
        ),
    decreases n,
{
    if n > 0 {
        lemma_through_fixed(config, command, (n - 1) as nat);
        let w = hooks_of(root_fields(merged_config(config, command)));
        lemma_merged_event(config, command, n - 1);
        lemma_with_command_fixed(w, hook_events()[n - 1], command);
    }
}

fn group_ok_in(hooks: &Vec<(String, Json)>, event: &str) -> (b: bool)
    ensures
        b == group_ok(event_groups(fields_view(hooks@), event@)[0]),
{
    proof {
        lemma_fields_view(hooks@);
        reveal_strlit("hooks");
    }
    assert(group_ok(empty_group())) by {
        let f = seq![("hooks"@, JsonView::Array(Seq::<JsonView>::empty()))];
        assert(key_at(f, "hooks"@)(0));
        assert(field_index(f, "hooks"@) == Some(0int));
    }
    match field_position(hooks, event) {
        None => true,
        Some(i) => match &hooks[i].1 {
            Json::Array(groups) => {
                proof {
                    lemma_items_view(groups@);
                }
                if groups.len() == 0 {
                    true
                } else {
                    match &groups[0] {
                        Json::Object(fields) => {
                            proof {
                                lemma_fields_view(fields@);
                            }
                            match field_position(fields, "hooks") {
                                Some(k) => match &fields[k].1 {
                                    Json::Array(_) => true,
                                    _ => false,
                                },
                                None => false,
                            }
                        },
                        _ => false,
                    }
                }
            },
            _ => true,
        },
    }
}

/// Whether `config` lets the island's hook command be registered (see
/// `mergeable`).
pub fn hook_config_mergeable(config: &Json) -> (b: bool)
    ensures
        b == mergeable(json_view(*config)),
{
    let fields = match config {
        Json::Object(f) => f,
        _ => {
            proof {
                assert(hooks_of(root_fields(json_view(*config))) =~= Seq::<(Seq<char>, JsonView)>::empty());
                assert forall|k: int| 0 <= k < 5 implies group_ok(
                    #[trigger] event_groups(hooks_of(root_fields(json_view(*config))), hook_events()[k])[0],
                ) by {
                    let f = seq![("hooks"@, JsonView::Array(Seq::<JsonView>::empty()))];
                    reveal_strlit("hooks");
                    assert(key_at(f, "hooks"@)(0));
                    assert(field_index(f, "hooks"@) == Some(0int));
                }
            }
            return true;
        },
    };
    proof {
        lemma_fields_view(fields@);
    }
    let hooks = match field_position(fields, "hooks") {
        Some(i) => match &fields[i].1 {
            Json::Object(h) => h,
            _ => {
                proof {
                    assert(hooks_of(root_fields(json_view(*config))) =~= Seq::<(Seq<char>, JsonView)>::empty());
                    assert forall|k: int| 0 <= k < 5 implies group_ok(
                        #[trigger] event_groups(hooks_of(root_fields(json_view(*config))), hook_events()[k])[0],
                    ) by {
                        let f = seq![("hooks"@, JsonView::Array(Seq::<JsonView>::empty()))];
                        reveal_strlit("hooks");
                        assert(key_at(f, "hooks"@)(0));
                        assert(field_index(f, "hooks"@) == Some(0int));
                    }
                }
                return true;
            },
        },
        None => {
            proof {
                assert(hooks_of(root_fields(json_view(*config))) =~= Seq::<(Seq<char>, JsonView)>::empty());
                assert forall|k: int| 0 <= k < 5 implies group_ok(
                    #[trigger] event_groups(hooks_of(root_fields(json_view(*config))), hook_events()[k])[0],
                ) by {
                    let f = seq![("hooks"@, JsonView::Array(Seq::<JsonView>::empty()))];
                    reveal_strlit("hooks");
                    assert(key_at(f, "hooks"@)(0));
                    assert(field_index(f, "hooks"@) == Some(0int));
                }
            }
            return true;
        },
    };
    let ghost hv = hooks_of(root_fields(json_view(*config)));
    assert(hv == fields_view(hooks@));
    let a = group_ok_in(hooks, "SessionStart");
    let b = group_ok_in(hooks, "UserPromptSubmit");
    let c = group_ok_in(hooks, "PreToolUse");
    let d = group_ok_in(hooks, "PostToolUse");
    let e = group_ok_in(hooks, "Stop");
    proof {
        if a && b && c && d && e {
            assert forall|k: int| 0 <= k < 5 implies group_ok(#[trigger] event_groups(hv, hook_events()[k])[0]) by {
                if k == 0 {
                } else if k == 1 {
                } else if k == 2 {
                } else if k == 3 {
                } else {
                }
            }
        } else {
            if !a {
                assert(!group_ok(event_groups(hv, hook_events()[0])[0]));
            } else if !b {
                assert(!group_ok(event_groups(hv, hook_events()[1])[0]));
            } else if !c {
                assert(!group_ok(event_groups(hv, hook_events()[2])[0]));
            } else if !d {
                assert(!group_ok(event_groups(hv, hook_events()[3])[0]));
            } else {
                assert(!group_ok(event_groups(hv, hook_events()[4])[0]));
            }
        }
    }
    a && b && c && d && e
}

/// `config` with the island's hook `command` registered in the first group
/// of every hook event, keeping the hooks already there.
pub fn merge_managed_hook_command(config: Json, command: &str) -> (r: Json)
    requires
        mergeable(json_view(config)),
    ensures
        json_view(r) == merged_config(json_view(config), command@),
{
    let ghost cv = json_view(config);
    let mut fields = match config {
        Json::Object(f) => f,
        _ => Vec::new(),
    };
    let ghost f0 = fields_view(fields@);
    assert(f0 =~= root_fields(cv));
    proof {
        lemma_fields_view(fields@);
        lemma_first_index_from_bounds(0, f0.len() as int, key_at(f0, "hooks"@));
    }
    let ghost before = fields@;
    let existing = take_json_field(&mut fields, "hooks");
    proof {
        match field_index(f0, "hooks"@) {
            Some(i) => {
                lemma_fields_update(before, i, (before[i].0, Json::Null));
            },
            None => {},
        }
    }
    let hooks: Vec<(String, Json)> = match existing {
        Some(Json::Object(h)) => h,
        _ => Vec::new(),
    };
    let ghost h0 = fields_view(hooks@);
    assert(h0 =~= hooks_of(f0));
    let ghost e = hook_events();
    proof {
        lemma_events_distinct();
        assert(group_ok(event_groups(h0, e[0])[0]));
        assert(group_ok(event_groups(h0, e[1])[0]));
        assert(group_ok(event_groups(h0, e[2])[0]));
        assert(group_ok(event_groups(h0, e[3])[0]));
        assert(group_ok(event_groups(h0, e[4])[0]));
    }
    let hooks = with_command_value(hooks, "SessionStart", command);
    let ghost h1 = fields_view(hooks@);
    proof {
        lemma_other_event_untouched(h0, e[0], command@, e[1]);
        lemma_other_event_untouched(h0, e[0], command@, e[2]);
        lemma_other_event_untouched(h0, e[0], command@, e[3]);
        lemma_other_event_untouched(h0, e[0], command@, e[4]);
    }
    let hooks = with_command_value(hooks, "UserPromptSubmit", command);
    let ghost h2 = fields_view(hooks@);
    proof {
        lemma_other_event_untouched(h1, e[1], command@, e[2]);
        lemma_other_event_untouched(h1, e[1], command@, e[3]);
        lemma_other_event_untouched(h1, e[1], command@, e[4]);
    }
    let hooks = with_command_value(hooks, "PreToolUse", command);
    let ghost h3 = fields_view(hooks@);
    proof {
        lemma_other_event_untouched(h2, e[2], command@, e[3]);
        lemma_other_event_untouched(h2, e[2], command@, e[4]);
    }
    let hooks = with_command_value(hooks, "PostToolUse", command);
    let ghost h4 = fields_view(hooks@);
    proof {
        lemma_other_event_untouched(h3, e[3], command@, e[4]);
    }
    let hooks = with_command_value(hooks, "Stop", command);
    let ghost merged_hooks = fields_view(hooks@);
    let ghost blanked = fields_view(fields@);
    let result = set_json_field(fields, "hooks", Json::Object(hooks));
    proof {
        match field_index(f0, "hooks"@) {
            Some(i) => {
                assert(blanked == f0.update(i, (f0[i].0, JsonView::Null)));
                lemma_set_after_blank(f0, i, "hooks"@, JsonView::Object(merged_hooks));
            },
            None => {
                assert(blanked == f0);
            },
        }
    }
    Json::Object(result)
}

} // verus!
