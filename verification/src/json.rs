//! A JSON document as plain values, and its mathematical view.

use vstd::prelude::*;

verus! {

/// One `"key": value` entry of a JSON object.
#[derive(Debug, PartialEq, Eq)]
pub struct Member {
    pub key: String,
    pub value: JsonValue,
}

/// A JSON document.
///
/// Numbers keep the three node kinds a decoder tells apart: an unsigned
/// integer, a signed integer, and a floating-point number. A floating-point
/// number is held as its decimal text, so that no arithmetic is ever done on
/// it here.
#[derive(Debug, PartialEq, Eq)]
pub enum JsonValue {
    Null,
    Bool(bool),
    Unsigned(u64),
    Signed(i64),
    Float(String),
    Str(String),
    Array(Vec<JsonValue>),
    Object(Vec<Member>),
}

/// The mathematical value of a [`JsonValue`].
pub enum JsonView {
    Null,
    Bool(bool),
    Unsigned(u64),
    Signed(i64),
    Float(Seq<char>),
    Str(Seq<char>),
    Array(Seq<JsonView>),
    Object(Seq<(Seq<char>, JsonView)>),
}

impl View for Member {
    type V = (Seq<char>, JsonView);

    open spec fn view(&self) -> (Seq<char>, JsonView) {
        (self.key@, self.value@)
    }
}

/// The mathematical value of a document: each string by its characters,
/// each array and object by the values of its parts.
pub open spec fn view_of(value: JsonValue) -> JsonView
    decreases value,
{
    match value {
        JsonValue::Null => JsonView::Null,
        JsonValue::Bool(b) => JsonView::Bool(b),
        JsonValue::Unsigned(n) => JsonView::Unsigned(n),
        JsonValue::Signed(n) => JsonView::Signed(n),
        JsonValue::Float(text) => JsonView::Float(text@),
        JsonValue::Str(text) => JsonView::Str(text@),
        JsonValue::Array(items) => JsonView::Array(
            Seq::new(
                items@.len(),
                |i: int|
                    if 0 <= i < items@.len() {
                        view_of(items@[i])
                    } else {
                        JsonView::Null
                    },
            ),
        ),
        JsonValue::Object(members) => JsonView::Object(
            Seq::new(
                members@.len(),
                |i: int|
                    if 0 <= i < members@.len() {
                        (members@[i].key@, view_of(members@[i].value))
                    } else {
                        (Seq::empty(), JsonView::Null)
                    },
            ),
        ),
    }
}

impl View for JsonValue {
    type V = JsonView;

    open spec fn view(&self) -> JsonView {
        view_of(*self)
    }
}

/// The value under `key` in the members of an object: that of the first
/// member with this key, if there is one.
pub open spec fn field(members: Seq<(Seq<char>, JsonView)>, key: Seq<char>) -> Option<JsonView>
    decreases members.len(),
{
    if members.len() == 0 {
        None
    } else if members[0].0 == key {
        Some(members[0].1)
    } else {
        field(members.drop_first(), key)
    }
}

/// The members of an object whose key is neither `a` nor `b`, in order.
pub open spec fn without(members: Seq<(Seq<char>, JsonView)>, a: Seq<char>, b: Seq<char>) -> Seq<
    (Seq<char>, JsonView),
>
    decreases members.len(),
{
    if members.len() == 0 {
        Seq::empty()
    } else if members.last().0 == a || members.last().0 == b {
        without(members.drop_last(), a, b)
    } else {
        without(members.drop_last(), a, b).push(members.last())
    }
}

impl JsonView {
    /// The value under `key`, where this document is an object that has it.
    pub open spec fn get(self, key: Seq<char>) -> Option<JsonView> {
        match self {
            JsonView::Object(members) => field(members, key),
            _ => None,
        }
    }
}

/// The view of an object holds the views of its members, in order.
pub proof fn lemma_object_view(members: Vec<Member>)
    ensures
        JsonValue::Object(members)@ is Object,
        JsonValue::Object(members)@->Object_0.len() == members@.len(),
        forall|i: int|
            0 <= i < members@.len() ==> (#[trigger] JsonValue::Object(members)@->Object_0[i])
                == members@[i]@,
{
    reveal_with_fuel(view_of, 2);
}

impl JsonValue {
    /// A deep copy of this document.
    #[verifier::loop_isolation(false)]
    pub fn duplicate(&self) -> (copy: JsonValue)
        ensures
            copy@ == self@,
        decreases self,
    {
        match self {
            JsonValue::Null => JsonValue::Null,
            JsonValue::Bool(b) => JsonValue::Bool(*b),
            JsonValue::Unsigned(n) => JsonValue::Unsigned(*n),
            JsonValue::Signed(n) => JsonValue::Signed(*n),
            JsonValue::Float(text) => JsonValue::Float(text.clone()),
            JsonValue::Str(text) => JsonValue::Str(text.clone()),
            JsonValue::Array(items) => {
                let mut out: Vec<JsonValue> = Vec::new();
                let mut i: usize = 0;
                while i < items.len()
                    invariant
                        i <= items.len(),
                        out.len() == i,
                        forall|j: int| 0 <= j < i ==> out[j]@ == items[j]@,
                    decreases items.len() - i,
                {
                    let item = items[i].duplicate();
                    out.push(item);
                    i = i + 1;
                }
                let copy = JsonValue::Array(out);
                assert(copy@->Array_0 =~= self@->Array_0);
                copy
            },
            JsonValue::Object(members) => {
                let mut out: Vec<Member> = Vec::new();
                let mut i: usize = 0;
                while i < members.len()
                    invariant
                        i <= members.len(),
                        out.len() == i,
                        forall|j: int| 0 <= j < i ==> out[j]@ == members[j]@,
                    decreases members.len() - i,
                {
                    let value = members[i].value.duplicate();
                    out.push(Member { key: members[i].key.clone(), value });
                    i = i + 1;
                }
                let copy = JsonValue::Object(out);
                assert(copy@->Object_0 =~= self@->Object_0);
                copy
            },
        }
    }

    /// The value under `key`, where this document is an object that has it.
    pub fn get(&self, key: &str) -> (found: Option<&JsonValue>)
        ensures
            match found {
                Some(value) => self@.get(key@) == Some(value@),
                None => self@.get(key@) is None,
            },
    {
        match self {
            JsonValue::Object(members) => {
                let wanted = key.to_owned();
                let mut i: usize = 0;
                proof {
                    lemma_object_view(*members);
                    assert(self@->Object_0.skip(0) =~= self@->Object_0);
                }
                while i < members.len()
                    invariant
                        i <= members.len(),
                        wanted@ == key@,
                        self@ is Object,
                        self@->Object_0.len() == members.len(),
                        forall|j: int|
                            0 <= j < members.len() ==> (#[trigger] self@->Object_0[j]) == members[j]@,
                        field(self@->Object_0, key@) == field(self@->Object_0.skip(i as int), key@),
                    decreases members.len() - i,
                {
                    let ghost rest = self@->Object_0.skip(i as int);
                    assert(rest[0] == self@->Object_0[i as int]);
                    assert(rest.drop_first() =~= self@->Object_0.skip(i + 1));
                    if members[i].key == wanted {
                        return Some(&members[i].value);
                    }
                    i = i + 1;
                }
                None
            },
            _ => None,
        }
    }
}

} // verus!
