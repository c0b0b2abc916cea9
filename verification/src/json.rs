//! JSON values as the bridge handles them, and their text.

use vstd::prelude::*;
use crate::foreign::{
    close_value, is_float, json_parse, json_text, number_from_u64, number_is_f64, open_value,
    parse_value, reads_back, u64_number, value_json, value_text, ValueParts,
};

verus! {

/// A JSON value.
#[derive(Debug, PartialEq)]
pub enum Json {
    Null,
    Bool(bool),
    /// A number. The bridge carries numbers along and does not reckon with them.
    Number(serde_json::Number),
    Str(String),
    Array(Vec<Json>),
    Object(JsonObject),
}

/// A JSON object: its members in the order in which they were put in, no key twice.
#[derive(Debug, PartialEq)]
pub struct JsonObject {
    entries: Vec<(String, Json)>,
}

/// What a JSON value says, apart from how it is stored.
pub enum JsonView {
    Null,
    Bool(bool),
    Number(serde_json::Number),
    Str(Seq<char>),
    Array(Seq<JsonView>),
    Object(Seq<(Seq<char>, JsonView)>),
}

/// Whether no two members share a key.
pub open spec fn keys_distinct(entries: Seq<(Seq<char>, JsonView)>) -> bool {
    forall|i: int, j: int|
        0 <= i < j < entries.len() ==> (#[trigger] entries[i]).0 != (#[trigger] entries[j]).0
}

/// The position of the first member with this key; the number of members if there is none.
pub open spec fn key_index(entries: Seq<(Seq<char>, JsonView)>, key: Seq<char>) -> nat
    decreases entries.len(),
{
    if entries.len() == 0 || entries[0].0 == key {
        0
    } else {
        1 + key_index(entries.skip(1), key)
    }
}

/// The value that an object has under a key.
pub open spec fn member(entries: Seq<(Seq<char>, JsonView)>, key: Seq<char>) -> Option<JsonView> {
    if key_index(entries, key) < entries.len() {
        Some(entries[key_index(entries, key) as int].1)
    } else {
        None
    }
}

/// An object's members after a value is put under a key: in the place of the value that was
/// there, or at the end.
pub open spec fn with_member(
    entries: Seq<(Seq<char>, JsonView)>,
    key: Seq<char>,
    value: JsonView,
) -> Seq<(Seq<char>, JsonView)> {
    if key_index(entries, key) < entries.len() {
        entries.update(key_index(entries, key) as int, (key, value))
    } else {
        entries.push((key, value))
    }
}

impl JsonView {
    /// The value under a key, if this is an object that has it.
    pub open spec fn field(self, key: Seq<char>) -> Option<JsonView> {
        match self {
            JsonView::Object(entries) => member(entries, key),
            _ => None,
        }
    }
}

/// The members of an object without any.
pub open spec fn no_members() -> Seq<(Seq<char>, JsonView)> {
    Seq::empty()
}

/// The position at which a key is first found.
pub proof fn lemma_key_index(entries: Seq<(Seq<char>, JsonView)>, key: Seq<char>, at: int)
    requires
        0 <= at <= entries.len(),
        forall|i: int| 0 <= i < at ==> (#[trigger] entries[i]).0 != key,
        at < entries.len() ==> entries[at].0 == key,
    ensures
        key_index(entries, key) == at,
    decreases at,
{
    if at > 0 {
        assert(entries[0].0 != key);
        lemma_key_index(entries.skip(1), key, at - 1);
    }
}

/// No member before the position of a key has the key, and the one at it does.
proof fn lemma_key_index_is_first(entries: Seq<(Seq<char>, JsonView)>, key: Seq<char>)
    ensures
        key_index(entries, key) <= entries.len(),
        forall|i: int| 0 <= i < key_index(entries, key) ==> (#[trigger] entries[i]).0 != key,
        key_index(entries, key) < entries.len() ==> entries[key_index(entries, key) as int].0
            == key,
    decreases entries.len(),
{
    if entries.len() > 0 && entries[0].0 != key {
        let rest = entries.skip(1);
        lemma_key_index_is_first(rest, key);
        assert forall|i: int| 0 <= i < key_index(entries, key) implies (
        #[trigger] entries[i]).0 != key by {
            if i > 0 {
                assert(rest[i - 1] == entries[i]);
            }
        }
    }
}

/// What is put under a key is found there, and what every other key had stays.
pub proof fn lemma_put_then_get(
    entries: Seq<(Seq<char>, JsonView)>,
    key: Seq<char>,
    value: JsonView,
    other: Seq<char>,
)
    ensures
        member(with_member(entries, key, value), key) == Some(value),
        other != key ==> member(with_member(entries, key, value), other) == member(entries, other),
        keys_distinct(entries) ==> keys_distinct(with_member(entries, key, value)),
{
    let after = with_member(entries, key, value);
    lemma_key_index_is_first(entries, key);
    lemma_key_index_is_first(entries, other);
    lemma_key_index(after, key, key_index(entries, key) as int);
    if other != key {
        let at = key_index(entries, other) as int;
        lemma_key_index(
            after,
            other,
            if at < entries.len() { at } else { after.len() as int },
        );
    }
}

/// A key that an object does not have goes to its end.
pub proof fn lemma_fresh_key(
    entries: Seq<(Seq<char>, JsonView)>,
    key: Seq<char>,
    value: JsonView,
)
    requires
        forall|i: int| 0 <= i < entries.len() ==> (#[trigger] entries[i]).0 != key,
    ensures
        with_member(entries, key, value) == entries.push((key, value)),
{
    lemma_key_index(entries, key, entries.len() as int);
}

/// A member of an object whose keys are distinct is found under its key, and nothing is found
/// under a key that no member has.
pub proof fn lemma_members_are_found(
    entries: Seq<(Seq<char>, JsonView)>,
    at: int,
    key: Seq<char>,
)
    ensures
        keys_distinct(entries) && 0 <= at < entries.len() ==> {
            &&& member(entries, entries[at].0) == Some(entries[at].1)
            &&& JsonView::Object(entries).field(entries[at].0) == Some(entries[at].1)
        },
        (forall|i: int| 0 <= i < entries.len() ==> (#[trigger] entries[i]).0 != key) ==> {
            &&& member(entries, key) is None
            &&& JsonView::Object(entries).field(key) is None
        },
{
    if keys_distinct(entries) && 0 <= at < entries.len() {
        lemma_key_index(entries, entries[at].0, at);
    }
    lemma_key_index_is_first(entries, key);
}

/// Putting a value under a key leaves every other member at its place; the value takes the place
/// of the one that was there, or goes to the end.
pub proof fn lemma_put_keeps_order(
    entries: Seq<(Seq<char>, JsonView)>,
    key: Seq<char>,
    value: JsonView,
)
    ensures
        ({
            let after = with_member(entries, key, value);
            let had = exists|i: int| 0 <= i < entries.len() && (#[trigger] entries[i]).0 == key;
            &&& after.len() == entries.len() + if had {
                0int
            } else {
                1
            }
            &&& forall|i: int|
                0 <= i < entries.len() ==> (#[trigger] after[i]).0 == entries[i].0 && (
                entries[i].0 != key ==> after[i].1 == entries[i].1)
            &&& !had ==> after.last() == (key, value)
        }),
{
    lemma_key_index_is_first(entries, key);
}

/// Only an object has fields.
pub proof fn lemma_only_objects_have_fields(json: JsonView, key: Seq<char>)
    ensures
        json.field(key) is Some ==> json is Object,
{
}

/// What a JSON value says.
pub open spec fn json_view(json: Json) -> JsonView
    decreases json,
{
    match json {
        Json::Null => JsonView::Null,
        Json::Bool(b) => JsonView::Bool(b),
        Json::Number(n) => JsonView::Number(n),
        Json::Str(s) => JsonView::Str(s@),
        Json::Array(items) => JsonView::Array(
            Seq::new(
                items@.len(),
                |i: int| if 0 <= i < items@.len() { json_view(items@[i]) } else { arbitrary() },
            ),
        ),
        Json::Object(object) => JsonView::Object(object_view(object)),
    }
}

/// What a JSON object says.
pub closed spec fn object_view(object: JsonObject) -> Seq<(Seq<char>, JsonView)>
    decreases object,
{
    Seq::new(
        object.entries@.len(),
        |i: int|
            if 0 <= i < object.entries@.len() {
                (object.entries@[i].0@, json_view(object.entries@[i].1))
            } else {
                arbitrary()
            },
    )
}

impl View for Json {
    type V = JsonView;

    open spec fn view(&self) -> JsonView {
        json_view(*self)
    }
}

impl View for JsonObject {
    type V = Seq<(Seq<char>, JsonView)>;

    open spec fn view(&self) -> Seq<(Seq<char>, JsonView)> {
        object_view(*self)
    }
}

impl JsonObject {
    #[verifier::type_invariant]
    spec fn well_formed(self) -> bool {
        keys_distinct(self@)
    }

    /// The object without members.
    pub fn new() -> (object: JsonObject)
        ensures
            object@ == no_members(),
            object@.len() == 0,
    {
        let entries: Vec<(String, Json)> = Vec::new();
        JsonObject { entries }
    }

    /// The position of a key; the number of members if the object does not have it.
    fn position(&self, key: &str) -> (at: usize)
        ensures
            at == key_index(self@, key@),
            at <= self@.len(),
            self@.len() == self.entries@.len(),
    {
        let key: String = key.to_owned();
        let mut at: usize = 0;
        while at < self.entries.len()
            invariant
                at <= self.entries@.len(),
                self@.len() == self.entries@.len(),
                forall|i: int| 0 <= i < at ==> (#[trigger] self@[i]).0 != key@,
            ensures
                at <= self.entries@.len(),
                forall|i: int| 0 <= i < at ==> (#[trigger] self@[i]).0 != key@,
                at < self.entries@.len() ==> self@[at as int].0 == key@,
            decreases self.entries@.len() - at,
        {
            if self.entries[at].0 == key {
                break;
            }
            at = at + 1;
        }
        proof {
            lemma_key_index(self@, key@, at as int);
        }
        at
    }

    /// The value under a key.
    pub fn get(&self, key: &str) -> (value: Option<&Json>)
        ensures
            match value {
                Some(json) => member(self@, key@) == Some(json@),
                None => member(self@, key@) is None,
            },
    {
        let at: usize = self.position(key);
        if at < self.entries.len() {
            Some(&self.entries[at].1)
        } else {
            None
        }
    }

    /// Takes the value under a key out of the object, which is given up.
    pub fn into_member(self, key: &str) -> (value: Option<Json>)
        ensures
            match value {
                Some(json) => member(self@, key@) == Some(json@),
                None => member(self@, key@) is None,
            },
    {
        let at: usize = self.position(key);
        let mut entries: Vec<(String, Json)> = self.entries;
        if at < entries.len() {
            let entry: (String, Json) = entries.swap_remove(at);
            Some(entry.1)
        } else {
            None
        }
    }

    /// The object with a value put under a key.
    pub fn with(self, key: &str, value: Json) -> (object: JsonObject)
        ensures
            object@ == with_member(self@, key@, value@),
    {
        proof {
            use_type_invariant(&self);
            lemma_put_then_get(self@, key@, value@, key@);
        }
        let at: usize = self.position(key);
        let ghost before = self@;
        let mut entries: Vec<(String, Json)> = self.entries;
        let key: String = key.to_owned();
        if at < entries.len() {
            entries.set(at, (key, value));
        } else {
            entries.push((key, value));
        }
        assert(object_view(JsonObject { entries }) =~= with_member(before, key@, value@));
        JsonObject { entries }
    }
}

/// What a value says is what it holds: the items of an array and the members of an object at
/// their places, and anything else as it is.
pub proof fn lemma_value_says_what_it_holds(json: Json)
    ensures
        match json {
            Json::Null => json@ == JsonView::Null,
            Json::Bool(b) => json@ == JsonView::Bool(b),
            Json::Number(n) => json@ == JsonView::Number(n),
            Json::Str(s) => json@ == JsonView::Str(s@),
            Json::Array(items) => {
                &&& json@ is Array
                &&& json@->Array_0.len() == items@.len()
                &&& forall|i: int|
                    0 <= i < items@.len() ==> #[trigger] json@->Array_0[i] == items@[i]@
            },
            Json::Object(object) => json@ == JsonView::Object(object@),
        },
{
}

/// Whether a value is nested at most `depth` arrays and objects deep, holds no number in floating
/// point, and holds no object that begins with the key by which `serde_json` marks raw text.
pub open spec fn is_plain(json: JsonView, depth: nat) -> bool
    decreases json,
{
    match json {
        JsonView::Number(n) => !is_float(n),
        JsonView::Array(items) => {
            &&& depth > 0
            &&& forall|i: int|
                0 <= i < items.len() ==> is_plain(#[trigger] items[i], (depth - 1) as nat)
        },
        JsonView::Object(entries) => {
            &&& depth > 0
            &&& entries.len() > 0 ==> entries[0].0 != "$serde_json::private::RawValue"@
            &&& forall|i: int|
                0 <= i < entries.len() ==> is_plain(
                    (#[trigger] entries[i]).1,
                    (depth - 1) as nat,
                )
        },
        _ => true,
    }
}

/// A value is plain if what it is made of is: anything but a number in floating point is where
/// it does not nest; an array or an object is if all in it are at one level less, but for an
/// object that begins with the key for raw text.
pub proof fn lemma_plain_values_are_built_up(
    b: bool,
    n: serde_json::Number,
    text: Seq<char>,
    items: Seq<JsonView>,
    entries: Seq<(Seq<char>, JsonView)>,
    depth: nat,
)
    ensures
        is_plain(JsonView::Null, depth),
        is_plain(JsonView::Bool(b), depth),
        is_plain(JsonView::Str(text), depth),
        is_plain(JsonView::Number(n), depth) <==> !is_float(n),
        !is_plain(JsonView::Array(items), 0),
        !is_plain(JsonView::Object(entries), 0),
        is_plain(JsonView::Array(items), depth + 1) <==> (forall|i: int|
            0 <= i < items.len() ==> is_plain(#[trigger] items[i], depth)),
        is_plain(JsonView::Object(entries), depth + 1) <==> {
            &&& entries.len() > 0 ==> entries[0].0 != "$serde_json::private::RawValue"@
            &&& forall|i: int| 0 <= i < entries.len() ==> is_plain((#[trigger] entries[i]).1, depth)
        },
{
    reveal_with_fuel(is_plain, 2);
    let array = JsonView::Array(items);
    if forall|i: int| 0 <= i < items.len() ==> is_plain(#[trigger] items[i], depth) {
        assert forall|i: int| 0 <= i < items.len() implies is_plain(
            #[trigger] items[i],
            (depth + 1 - 1) as nat,
        ) by {}
        assert(is_plain(array, depth + 1));
    }
    if is_plain(array, depth + 1) {
        assert forall|i: int| 0 <= i < items.len() implies is_plain(
            #[trigger] items[i],
            depth,
        ) by {
            assert(array->Array_0[i] == items[i]);
            assert((depth + 1 - 1) as nat == depth);
        }
    }
}

/// The outcome of a call that gives a JSON value or the message of an error.
pub open spec fn outcome_view(outcome: Result<Json, String>) -> Result<JsonView, Seq<char>> {
    match outcome {
        Ok(json) => Ok(json@),
        Err(message) => Err(message@),
    }
}

/// An outcome says what it holds.
pub proof fn lemma_outcome_says_what_it_holds(outcome: Result<Json, String>)
    ensures
        match outcome {
            Ok(json) => outcome_view(outcome) == Ok::<JsonView, Seq<char>>(json@),
            Err(message) => outcome_view(outcome) == Err::<JsonView, Seq<char>>(message@),
        },
{
}

impl Json {
    /// The number `n`.
    pub fn from_u64(n: u64) -> (json: Json)
        ensures
            json@ == JsonView::Number(u64_number(n)),
    {
        Json::Number(number_from_u64(n))
    }

    /// The string `text`.
    pub fn string(text: &str) -> (json: Json)
        ensures
            json@ == JsonView::Str(text@),
    {
        Json::Str(text.to_owned())
    }

    /// The JSON value that a `serde_json::Value` holds.
    pub fn from_value(value: serde_json::Value) -> (json: Json)
        ensures
            json@ == value_json(value),
        decreases value_json(value),
    {
        match open_value(value) {
            ValueParts::Null => Json::Null,
            ValueParts::Bool(b) => Json::Bool(b),
            ValueParts::Number(n) => Json::Number(n),
            ValueParts::Str(s) => Json::Str(s),
            ValueParts::Array(values) => {
                let ghost said = value_json(value);
                let ghost all = values@;
                let mut items: Vec<Json> = Vec::new();
                for item in it: values
                    invariant
                        it.seq() == all,
                        items@.len() == it.index(),
                        said == value_json(value),
                        said == JsonView::Array(Seq::new(all.len(), |i: int| value_json(all[i]))),
                        forall|i: int|
                            0 <= i < items@.len() ==> (#[trigger] items@[i])@ == value_json(
                                all[i],
                            ),
                {
                    assert(said->Array_0[it.index()] == value_json(item));
                    assert(decreases_to!(said => value_json(item)));
                    items.push(Json::from_value(item));
                }
                let json = Json::Array(items);
                assert(json@->Array_0 =~= said->Array_0);
                json
            },
            ValueParts::Object(values) => {
                let ghost said = value_json(value);
                let ghost all = values@;
                let mut entries: Vec<(String, Json)> = Vec::new();
                for entry in it: values
                    invariant
                        it.seq() == all,
                        entries@.len() == it.index(),
                        said == value_json(value),
                        said == JsonView::Object(
                            Seq::new(
                                all.len(),
                                |i: int| (all[i].0@, value_json(all[i].1)),
                            ),
                        ),
                        forall|i: int|
                            0 <= i < entries@.len() ==> (#[trigger] entries@[i]).0@ == all[i].0@
                                && entries@[i].1@ == value_json(all[i].1),
                {
                    assert(said->Object_0[it.index()].1 == value_json(entry.1));
                    assert(decreases_to!(said => said->Object_0[it.index()]));
                    assert(decreases_to!(said => value_json(entry.1)));
                    entries.push((entry.0, Json::from_value(entry.1)));
                }
                assert(object_view(JsonObject { entries }) =~= said->Object_0);
                Json::Object(JsonObject { entries })
            },
        }
    }

    /// The `serde_json::Value` that holds this JSON value.
    pub fn into_value(self) -> (value: serde_json::Value)
        ensures
            value_json(value) == self@,
        decreases self@,
    {
        match self {
            Json::Null => close_value(ValueParts::Null),
            Json::Bool(b) => close_value(ValueParts::Bool(b)),
            Json::Number(n) => close_value(ValueParts::Number(n)),
            Json::Str(s) => close_value(ValueParts::Str(s)),
            Json::Array(items) => {
                let ghost all = items@;
                let mut values: Vec<serde_json::Value> = Vec::new();
                for item in it: items
                    invariant
                        it.seq() == all,
                        all == items@,
                        self == Json::Array(items),
                        values@.len() == it.index(),
                        forall|i: int|
                            0 <= i < values@.len() ==> value_json(#[trigger] values@[i])
                                == all[i]@,
                {
                    assert(self@->Array_0[it.index()] == item@);
                    assert(decreases_to!(self@ => item@));
                    values.push(item.into_value());
                }
                let ghost parts = ValueParts::Array(values);
                assert(parts.json()->Array_0 =~= self@->Array_0);
                close_value(ValueParts::Array(values))
            },
            Json::Object(object) => {
                proof {
                    use_type_invariant(&object);
                }
                let entries: Vec<(String, Json)> = object.entries;
                let ghost all = entries@;
                let ghost said = object@;
                let mut values: Vec<(String, serde_json::Value)> = Vec::new();
                for entry in it: entries
                    invariant
                        it.seq() == all,
                        self@ == JsonView::Object(said),
                        said.len() == all.len(),
                        forall|i: int|
                            0 <= i < all.len() ==> #[trigger] said[i] == (all[i].0@, all[i].1@),
                        values@.len() == it.index(),
                        forall|i: int|
                            0 <= i < values@.len() ==> (#[trigger] values@[i]).0@ == all[i].0@
                                && value_json(values@[i].1) == all[i].1@,
                {
                    assert(said[it.index()].1 == entry.1@);
                    assert(decreases_to!(self@ => self@->Object_0[it.index()]));
                    assert(decreases_to!(self@ => entry.1@));
                    values.push((entry.0, entry.1.into_value()));
                }
                let ghost parts = ValueParts::Object(values);
                assert(parts.json()->Object_0 =~= said);
                close_value(ValueParts::Object(values))
            },
        }
    }

    /// Reads a JSON value from its text.
    ///
    /// The text that [`Json::into_text`] gives a value is read as that value again, if the
    /// value is one that [`reads_back`].
    pub fn parse(text: &str) -> (outcome: Result<Json, String>)
        ensures
            outcome_view(outcome) == json_parse(text@),
            match outcome {
                Ok(json) => json_parse(text@) == Ok::<JsonView, Seq<char>>(json@),
                Err(message) => json_parse(text@) == Err::<JsonView, Seq<char>>(message@),
            },
            forall|json: JsonView|
                #![trigger json_text(json)]
                reads_back(json, 127) && json_text(json) == text@ ==> outcome_view(outcome)
                    == Ok::<JsonView, Seq<char>>(json),
    {
        match parse_value(text) {
            Ok(value) => Ok(Json::from_value(value)),
            Err(message) => Err(message),
        }
    }

    /// The text of this value, on a single line. That of an object begins with a brace.
    pub fn into_text(self) -> (text: Result<String, String>)
        ensures
            text matches Ok(t) && t@ == json_text(self@) && !t@.contains('\n') && (self@ is Object
                ==> t@.len() > 0 && t@[0] == '{'),
    {
        let value: serde_json::Value = self.into_value();
        value_text(&value)
    }

    /// Whether this value is nested at most `depth` arrays and objects deep, holds no number in
    /// floating point, and holds no object that begins with the key by which `serde_json` marks
    /// raw text. Such a value survives being written as text and read again.
    pub fn is_plain(&self, depth: u64) -> (plain: bool)
        ensures
            plain == is_plain(self@, depth as nat),
            plain ==> reads_back(self@, depth as nat),
        decreases self@,
    {
        match self {
            Json::Null => true,
            Json::Bool(_) => true,
            Json::Number(n) => !number_is_f64(n),
            Json::Str(_) => true,
            Json::Array(items) => {
                if depth == 0 {
                    return false;
                }
                let mut at: usize = 0;
                while at < items.len()
                    invariant
                        depth > 0,
                        self@ is Array,
                        self@->Array_0.len() == items@.len(),
                        forall|i: int|
                            0 <= i < items@.len() ==> #[trigger] self@->Array_0[i] == items@[i]@,
                        at <= items@.len(),
                        forall|i: int|
                            0 <= i < at ==> is_plain(
                                #[trigger] self@->Array_0[i],
                                (depth - 1) as nat,
                            ) && reads_back(self@->Array_0[i], (depth - 1) as nat),
                    decreases items@.len() - at,
                {
                    assert(self@->Array_0[at as int] == items@[at as int]@);
                    assert(decreases_to!(self@ => self@->Array_0[at as int]));
                    if !items[at].is_plain(depth - 1) {
                        return false;
                    }
                    at = at + 1;
                }
                true
            },
            Json::Object(object) => {
                if depth == 0 {
                    return false;
                }
                proof {
                    use_type_invariant(object);
                }
                let entries: &Vec<(String, Json)> = &object.entries;
                let raw: String = "$serde_json::private::RawValue".to_owned();
                if entries.len() > 0 && entries[0].0 == raw {
                    assert(self@->Object_0[0].0 == raw@);
                    return false;
                }
                let mut at: usize = 0;
                while at < entries.len()
                    invariant
                        depth > 0,
                        self@ is Object,
                        self@->Object_0.len() == entries@.len(),
                        forall|i: int|
                            0 <= i < entries@.len() ==> #[trigger] self@->Object_0[i] == (
                                entries@[i].0@,
                                entries@[i].1@,
                            ),
                        at <= entries@.len(),
                        forall|i: int|
                            0 <= i < at ==> is_plain(
                                (#[trigger] self@->Object_0[i]).1,
                                (depth - 1) as nat,
                            ) && reads_back(self@->Object_0[i].1, (depth - 1) as nat),
                    decreases entries@.len() - at,
                {
                    assert(self@->Object_0[at as int].1 == entries@[at as int].1@);
                    assert(decreases_to!(self@ => self@->Object_0[at as int]));
                    assert(decreases_to!(self@ => self@->Object_0[at as int].1));
                    if !entries[at].1.is_plain(depth - 1) {
                        return false;
                    }
                    at = at + 1;
                }
                true
            },
        }
    }

    /// The value under a key, if this is an object that has it.
    pub fn get(&self, key: &str) -> (value: Option<&Json>)
        ensures
            match value {
                Some(json) => self@.field(key@) == Some(json@),
                None => self@.field(key@) is None,
            },
    {
        match self {
            Json::Object(object) => object.get(key),
            _ => None,
        }
    }

    /// Takes the value under a key, if this is an object that has it; the rest is given up.
    pub fn into_field(self, key: &str) -> (value: Option<Json>)
        ensures
            match value {
                Some(json) => self@.field(key@) == Some(json@),
                None => self@.field(key@) is None,
            },
    {
        match self {
            Json::Object(object) => object.into_member(key),
            _ => None,
        }
    }

    /// The truth value that this is, if it is one.
    pub fn as_bool(&self) -> (b: Option<bool>)
        ensures
            b == (match self@ {
                JsonView::Bool(value) => Some(value),
                _ => None,
            }),
    {
        match self {
            Json::Bool(value) => Some(*value),
            _ => None,
        }
    }

    /// The string that this is, if it is one.
    pub fn into_string(self) -> (text: Option<String>)
        ensures
            match text {
                Some(t) => self@ == JsonView::Str(t@),
                None => !(self@ is Str),
            },
    {
        match self {
            Json::Str(text) => Some(text),
            _ => None,
        }
    }
}

} // verus!
