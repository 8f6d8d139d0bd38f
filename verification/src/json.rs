//! JSON documents as the dashboard handles them: values with their
//! mathematical view, member lookup and member assignment.
use vstd::prelude::*;
use vstd::string::*;

verus! {

broadcast use vstd::std_specs::vec::group_vec_axioms;

/// The mathematical value of a JSON document. Object members keep their order.
pub enum JsonView {
    Null,
    Bool(bool),
    Int(i64),
    UInt(u64),
    Float(Seq<char>),
    Str(Seq<char>),
    Array(Seq<JsonView>),
    Object(Seq<(Seq<char>, JsonView)>),
}

/// A member of a JSON object.
#[derive(Debug, PartialEq)]
pub struct JsonMember {
    pub key: String,
    pub value: JsonValue,
}

/// A JSON document. Numbers that fit in `i64` are `Int`, other non-negative
/// integers `UInt`, and all other numbers `Float`, held as their decimal text.
#[derive(Debug, PartialEq)]
pub enum JsonValue {
    Null,
    Bool(bool),
    Int(i64),
    UInt(u64),
    Float(String),
    Str(String),
    Array(Vec<JsonValue>),
    Object(Vec<JsonMember>),
}

/// The views of a sequence of values.
pub open spec fn items_view(items: Seq<JsonValue>) -> Seq<JsonView>
    decreases items,
{
    if items.len() == 0 {
        Seq::empty()
    } else {
        items_view(items.drop_last()).push(value_view(items.last()))
    }
}

/// The views of a sequence of object members.
pub open spec fn members_view(members: Seq<JsonMember>) -> Seq<(Seq<char>, JsonView)>
    decreases members,
{
    if members.len() == 0 {
        Seq::empty()
    } else {
        members_view(members.drop_last()).push(
            (members.last().key@, value_view(members.last().value)),
        )
    }
}

/// The view of a value.
pub open spec fn value_view(v: JsonValue) -> JsonView
    decreases v,
{
    match v {
        JsonValue::Null => JsonView::Null,
        JsonValue::Bool(b) => JsonView::Bool(b),
        JsonValue::Int(i) => JsonView::Int(i),
        JsonValue::UInt(u) => JsonView::UInt(u),
        JsonValue::Float(s) => JsonView::Float(s@),
        JsonValue::Str(s) => JsonView::Str(s@),
        JsonValue::Array(items) => JsonView::Array(items_view(items@)),
        JsonValue::Object(members) => JsonView::Object(members_view(members@)),
    }
}

impl View for JsonValue {
    type V = JsonView;

    open spec fn view(&self) -> JsonView {
        value_view(*self)
    }
}

/// The views of a sequence of values, element by element.
pub proof fn lemma_items_view(items: Seq<JsonValue>)
    ensures
        items_view(items).len() == items.len(),
        forall|j: int| 0 <= j < items.len() ==> #[trigger] items_view(items)[j] == value_view(items[j]),
    decreases items.len(),
{
    if items.len() > 0 {
        lemma_items_view(items.drop_last());
    }
}

/// The views of a sequence of members, member by member.
pub proof fn lemma_members_view(members: Seq<JsonMember>)
    ensures
        members_view(members).len() == members.len(),
        forall|j: int|
            0 <= j < members.len() ==> #[trigger] members_view(members)[j] == (
                members[j].key@,
                value_view(members[j].value),
            ),
    decreases members.len(),
{
    if members.len() > 0 {
        lemma_members_view(members.drop_last());
    }
}

/// Index of the first member at or after `from` whose key is `key`.
pub open spec fn key_position_from(
    members: Seq<(Seq<char>, JsonView)>,
    key: Seq<char>,
    from: nat,
) -> Option<nat>
    decreases members.len() - from,
{
    if from >= members.len() {
        None
    } else if members[from as int].0 == key {
        Some(from)
    } else {
        key_position_from(members, key, from + 1)
    }
}

/// Index of the first member whose key is `key`.
pub open spec fn key_position(members: Seq<(Seq<char>, JsonView)>, key: Seq<char>) -> Option<nat> {
    key_position_from(members, key, 0)
}

/// The search from `from` finds the first member at or after `from` with the key.
pub proof fn lemma_key_position_from(
    members: Seq<(Seq<char>, JsonView)>,
    key: Seq<char>,
    from: nat,
)
    ensures
        match key_position_from(members, key, from) {
            Some(i) => from <= i < members.len() && members[i as int].0 == key && forall|j: int|
                from <= j < i ==> #[trigger] members[j].0 != key,
            None => forall|j: int| from <= j < members.len() ==> #[trigger] members[j].0 != key,
        },
    decreases members.len() - from,
{
    if from < members.len() && members[from as int].0 != key {
        lemma_key_position_from(members, key, from + 1);
    }
}

/// The first member with key `key` is at `i`.
pub proof fn lemma_key_position_is(members: Seq<(Seq<char>, JsonView)>, key: Seq<char>, i: int)
    requires
        0 <= i < members.len(),
        members[i].0 == key,
        forall|j: int| 0 <= j < i ==> #[trigger] members[j].0 != key,
    ensures
        key_position(members, key) == Some(i as nat),
{
    lemma_key_position_from(members, key, 0);
    match key_position(members, key) {
        Some(p) => {
            if p < i {
                assert(members[p as int].0 != key);
            }
            if p > i {
                assert(members[i].0 != key);
            }
        },
        None => {
            assert(members[i].0 != key);
        },
    }
}

/// No member has key `key`.
pub proof fn lemma_key_position_none(members: Seq<(Seq<char>, JsonView)>, key: Seq<char>)
    requires
        forall|j: int| 0 <= j < members.len() ==> #[trigger] members[j].0 != key,
    ensures
        key_position(members, key) is None,
{
    lemma_key_position_from(members, key, 0);
}

impl JsonView {
    /// The value of member `key` when this is an object that has one.
    pub open spec fn get(self, key: Seq<char>) -> Option<JsonView> {
        match self {
            JsonView::Object(members) => match key_position(members, key) {
                Some(i) => Some(members[i as int].1),
                None => None,
            },
            _ => None,
        }
    }

    /// This object with member `key` set to `value`: the first member with
    /// that key gets the new value, or a new member is appended when there is
    /// none. Values other than objects are left as they are.
    pub open spec fn with_member(self, key: Seq<char>, value: JsonView) -> JsonView {
        match self {
            JsonView::Object(members) => JsonView::Object(
                match key_position(members, key) {
                    Some(i) => members.update(i as int, (key, value)),
                    None => members.push((key, value)),
                },
            ),
            _ => self,
        }
    }

    /// No two members of this object share a key.
    pub open spec fn has_distinct_keys(self) -> bool {
        match self {
            JsonView::Object(members) => forall|i: int, j: int|
                0 <= i < j < members.len() ==> #[trigger] members[i].0 != #[trigger] members[j].0,
            _ => true,
        }
    }
}

/// Assigning a member and then reading it gives the assigned value; every other
/// member reads as before; distinct keys stay distinct.
pub proof fn law_member_read_after_write(
    doc: JsonView,
    key: Seq<char>,
    value: JsonView,
    other: Seq<char>,
)
    requires
        doc is Object,
    ensures
        doc.with_member(key, value).get(key) == Some(value),
        other != key ==> doc.with_member(key, value).get(other) == doc.get(other),
        doc.with_member(key, value) is Object,
        doc.has_distinct_keys() ==> doc.with_member(key, value).has_distinct_keys(),
{
    let members = doc->Object_0;
    lemma_key_position_from(members, key, 0);
    lemma_key_position_from(members, other, 0);
    let updated = doc.with_member(key, value)->Object_0;
    match key_position(members, key) {
        Some(i) => {
            lemma_key_position_is(updated, key, i as int);
            if other != key {
                match key_position(members, other) {
                    Some(p) => lemma_key_position_is(updated, other, p as int),
                    None => lemma_key_position_none(updated, other),
                }
            }
        },
        None => {
            lemma_key_position_is(updated, key, members.len() as int);
            if other != key {
                match key_position(members, other) {
                    Some(p) => lemma_key_position_is(updated, other, p as int),
                    None => lemma_key_position_none(updated, other),
                }
            }
        },
    }
}

impl JsonValue {
    /// Whether this value is an object.
    pub fn is_object(&self) -> (b: bool)
        ensures
            b == self@ is Object,
    {
        match self {
            JsonValue::Object(_) => true,
            _ => false,
        }
    }

    /// A text value.
    pub fn text(s: &str) -> (v: JsonValue)
        ensures
            v@ == JsonView::Str(s@),
    {
        JsonValue::Str(String::from_str(s))
    }

    /// An object with no members.
    pub fn empty_object() -> (v: JsonValue)
        ensures
            v@ == JsonView::Object(Seq::empty()),
    {
        let members: Vec<JsonMember> = Vec::new();
        proof {
            lemma_members_view(members@);
        }
        JsonValue::Object(members)
    }

    /// The value of member `key`, when this is an object that has one
    /// (`Value::get` with a key).
    pub fn get(&self, key: &str) -> (found: Option<&JsonValue>)
        ensures
            match self@.get(key@) {
                Some(v) => found matches Some(f) && f@ == v,
                None => found is None,
            },
    {
        match self {
            JsonValue::Object(members) => {
                proof {
                    lemma_members_view(members@);
                }
                let ghost ms = members_view(members@);
                let k = String::from_str(key);
                let mut i: usize = 0;
                while i < members.len()
                    invariant
                        self@ == JsonView::Object(ms),
                        ms == members_view(members@),
                        ms.len() == members@.len(),
                        forall|j: int|
                            0 <= j < members@.len() ==> #[trigger] ms[j] == (
                                members@[j].key@,
                                value_view(members@[j].value),
                            ),
                        k@ == key@,
                        i <= members.len(),
                        forall|j: int| 0 <= j < i ==> #[trigger] ms[j].0 != key@,
                    decreases members.len() - i,
                {
                    if members[i].key == k {
                        proof {
                            lemma_key_position_is(ms, key@, i as int);
                        }
                        return Some(&members[i].value);
                    }
                    i = i + 1;
                }
                proof {
                    lemma_key_position_none(ms, key@);
                }
                None
            },
            _ => None,
        }
    }

    /// A copy of this document.
    pub fn duplicate(&self) -> (r: JsonValue)
        ensures
            r@ == self@,
        decreases self,
    {
        match self {
            JsonValue::Null => JsonValue::Null,
            JsonValue::Bool(b) => JsonValue::Bool(*b),
            JsonValue::Int(i) => JsonValue::Int(*i),
            JsonValue::UInt(u) => JsonValue::UInt(*u),
            JsonValue::Float(s) => JsonValue::Float(s.clone()),
            JsonValue::Str(s) => JsonValue::Str(s.clone()),
            JsonValue::Array(items) => {
                proof {
                    lemma_items_view(items@);
                }
                let mut out: Vec<JsonValue> = Vec::new();
                let mut i: usize = 0;
                while i < items.len()
                    invariant
                        *self == JsonValue::Array(*items),
                        i <= items.len(),
                        out@.len() == i,
                        forall|j: int| 0 <= j < i ==> #[trigger] value_view(out@[j]) == value_view(items@[j]),
                    decreases items.len() - i,
                {
                    proof {
                        assert(decreases_to!(*self => self->Array_0));
                        assert(decreases_to!(*items => items@));
                        assert(decreases_to!(items@ => items@[i as int]));
                    }
                    let copy = items[i].duplicate();
                    out.push(copy);
                    i = i + 1;
                }
                proof {
                    lemma_items_view(out@);
                    assert(items_view(out@) =~= items_view(items@));
                }
                JsonValue::Array(out)
            },
            JsonValue::Object(members) => {
                proof {
                    lemma_members_view(members@);
                }
                let mut out: Vec<JsonMember> = Vec::new();
                let mut i: usize = 0;
                while i < members.len()
                    invariant
                        *self == JsonValue::Object(*members),
                        i <= members.len(),
                        out@.len() == i,
                        forall|j: int|
                            0 <= j < i ==> (#[trigger] out@[j]).key@ == members@[j].key@,
                        forall|j: int|
                            0 <= j < i ==> value_view((#[trigger] out@[j]).value) == value_view(
                                members@[j].value,
                            ),
                    decreases members.len() - i,
                {
                    proof {
                        assert(decreases_to!(*self => self->Object_0));
                        assert(decreases_to!(*members => members@));
                        assert(decreases_to!(members@ => members@[i as int]));
                        assert(decreases_to!(members@[i as int] => members@[i as int].value));
                    }
                    let copy = members[i].value.duplicate();
                    out.push(JsonMember { key: members[i].key.clone(), value: copy });
                    i = i + 1;
                }
                proof {
                    lemma_members_view(out@);
                    assert(members_view(out@) =~= members_view(members@));
                }
                JsonValue::Object(out)
            },
        }
    }

    /// Whether this is an object with member `key`.
    pub fn has_member(&self, key: &str) -> (b: bool)
        ensures
            b == self@.get(key@) is Some,
    {
        self.get(key).is_some()
    }

    /// This object with member `key` set to `value` (`doc[key] = value`).
    pub fn with_member(self, key: &str, value: JsonValue) -> (r: JsonValue)
        requires
            self@ is Object,
        ensures
            r@ == self@.with_member(key@, value@),
    {
        match self {
            JsonValue::Object(members) => {
                let mut members = members;
                proof {
                    lemma_members_view(members@);
                }
                let ghost old_members = members@;
                let ghost ms = members_view(members@);
                let ghost value_v = value@;
                let ghost start = JsonView::Object(ms);
                assert(start == self@);
                let k = String::from_str(key);
                let mut i: usize = 0;
                while i < members.len()
                    invariant
                        start == self@,
                        start == JsonView::Object(ms),
                        value_v == value@,
                        members@ == old_members,
                        ms == members_view(old_members),
                        ms.len() == old_members.len(),
                        forall|j: int|
                            0 <= j < old_members.len() ==> #[trigger] ms[j] == (
                                old_members[j].key@,
                                value_view(old_members[j].value),
                            ),
                        k@ == key@,
                        i <= members.len(),
                        forall|j: int| 0 <= j < i ==> #[trigger] ms[j].0 != key@,
                    decreases members.len() - i,
                {
                    if members[i].key == k {
                        proof {
                            lemma_key_position_is(ms, key@, i as int);
                        }
                        members.set(i, JsonMember { key: k, value });
                        proof {
                            lemma_members_view(members@);
                            assert(members_view(members@) =~= ms.update(i as int, (key@, value_v)));
                        }
                        return JsonValue::Object(members);
                    }
                    i = i + 1;
                }
                proof {
                    lemma_key_position_none(ms, key@);
                }
                members.push(JsonMember { key: k, value });
                proof {
                    lemma_members_view(members@);
                    assert(members_view(members@) =~= ms.push((key@, value_v)));
                }
                JsonValue::Object(members)
            },
            _ => self,
        }
    }
}

} // verus!
