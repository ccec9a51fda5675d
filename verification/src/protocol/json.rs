//! JSON values as trees.

use crate::text::{opt_text, same};
use vstd::prelude::*;

verus! {

/// A JSON value as it was written: an object has all its members, in the order in
/// which they were written.
#[derive(Debug, PartialEq, Eq)]
pub enum Json {
    Null,
    Bool(bool),
    /// An integer that is not negative.
    Uint(u64),
    /// A negative integer.
    Int(i64),
    /// Any other number, by its text.
    Float(String),
    Str(String),
    Array(Vec<Json>),
    Object(Vec<(String, Json)>),
}

/// The contents of a [`Json`].
pub enum JsonView {
    Null,
    Bool(bool),
    Uint(u64),
    Int(i64),
    Float(Seq<char>),
    Str(Seq<char>),
    Array(Seq<JsonView>),
    Object(Seq<(Seq<char>, JsonView)>),
}

/// The contents of a list of values.
pub open spec fn views(values: Seq<Json>) -> Seq<JsonView>
    decreases values,
{
    Seq::new(
        values.len(),
        |i: int|
            if 0 <= i < values.len() {
                values[i]@
            } else {
                JsonView::Null
            },
    )
}

/// The contents of the members of an object.
pub open spec fn member_views(members: Seq<(String, Json)>) -> Seq<(Seq<char>, JsonView)>
    decreases members,
{
    Seq::new(
        members.len(),
        |i: int|
            if 0 <= i < members.len() {
                (members[i].0@, members[i].1@)
            } else {
                (Seq::empty(), JsonView::Null)
            },
    )
}

impl View for Json {
    type V = JsonView;

    open spec fn view(&self) -> JsonView
        decreases self,
    {
        match self {
            Json::Null => JsonView::Null,
            Json::Bool(b) => JsonView::Bool(*b),
            Json::Uint(n) => JsonView::Uint(*n),
            Json::Int(n) => JsonView::Int(*n),
            Json::Float(text) => JsonView::Float(text@),
            Json::Str(text) => JsonView::Str(text@),
            Json::Array(values) => JsonView::Array(views(values@)),
            Json::Object(members) => JsonView::Object(member_views(members@)),
        }
    }
}

impl Clone for Json {
    fn clone(&self) -> (r: Self)
        ensures
            r@ == self@,
        decreases self,
    {
        match self {
            Json::Null => Json::Null,
            Json::Bool(b) => Json::Bool(*b),
            Json::Uint(n) => Json::Uint(*n),
            Json::Int(n) => Json::Int(*n),
            Json::Float(text) => Json::Float(text.clone()),
            Json::Str(text) => Json::Str(text.clone()),
            Json::Array(values) => {
                let mut copy: Vec<Json> = Vec::new();
                let mut i: usize = 0;
                while i < values.len()
                    invariant
                        i <= values@.len(),
                        copy@.len() == i,
                        *self == Json::Array(*values),
                        forall|j: int| 0 <= j < i ==> (#[trigger] copy@[j])@ == values@[j]@,
                    decreases values@.len() - i,
                {
                    assert(decreases_to!(self => values@[i as int])) by {
                        assert(decreases_to!(*self => self->Array_0));
                        assert(decreases_to!(*values => values@));
                        assert(decreases_to!(values@ => values@[i as int]));
                    }
                    copy.push(values[i].clone());
                    i += 1;
                }
                assert(views(copy@) =~= views(values@));
                Json::Array(copy)
            },
            Json::Object(members) => {
                let mut copy: Vec<(String, Json)> = Vec::new();
                let mut i: usize = 0;
                while i < members.len()
                    invariant
                        i <= members@.len(),
                        copy@.len() == i,
                        *self == Json::Object(*members),
                        forall|j: int|
                            0 <= j < i ==> (#[trigger] copy@[j]).0@ == members@[j].0@ && copy@[j].1@
                                == members@[j].1@,
                    decreases members@.len() - i,
                {
                    let member = &members[i];
                    assert(decreases_to!(self => member.1)) by {
                        assert(decreases_to!(*self => self->Object_0));
                        assert(decreases_to!(*members => members@));
                        assert(decreases_to!(members@ => members@[i as int]));
                        assert(decreases_to!(members@[i as int] => members@[i as int].1));
                    }
                    copy.push((member.0.clone(), member.1.clone()));
                    i += 1;
                }
                assert(member_views(copy@) =~= member_views(members@));
                Json::Object(copy)
            },
        }
    }
}

/// The value of the last member called `name`.
pub open spec fn member(members: Seq<(Seq<char>, JsonView)>, name: Seq<char>) -> Option<JsonView>
    decreases members.len(),
{
    if members.len() == 0 {
        None
    } else if members.last().0 == name {
        Some(members.last().1)
    } else {
        member(members.drop_last(), name)
    }
}

/// How many members are called `name`.
pub open spec fn occurrences(members: Seq<(Seq<char>, JsonView)>, name: Seq<char>) -> nat
    decreases members.len(),
{
    if members.len() == 0 {
        0
    } else {
        occurrences(members.drop_last(), name) + if members.last().0 == name {
            1nat
        } else {
            0nat
        }
    }
}

/// The field of a record. A record is written as an object with named members,
/// or as an array with one value per field, in order.
pub open spec fn field(json: JsonView, name: Seq<char>, position: int) -> Option<JsonView> {
    match json {
        JsonView::Object(members) => member(members, name),
        JsonView::Array(values) => if 0 <= position < values.len() {
            Some(values[position])
        } else {
            None
        },
        _ => None,
    }
}

/// The value can be read as a record: it is an object, or an array with between
/// `least` and `most` values.
pub open spec fn is_record(json: JsonView, least: nat, most: nat) -> bool {
    match json {
        JsonView::Object(_) => true,
        JsonView::Array(values) => least <= values.len() <= most,
        _ => false,
    }
}

/// The record does not name the field twice.
pub open spec fn names_once(json: JsonView, name: Seq<char>) -> bool {
    match json {
        JsonView::Object(members) => occurrences(members, name) <= 1,
        _ => true,
    }
}

/// A field that has to be a text.
pub open spec fn as_text(field: Option<JsonView>) -> Option<Seq<char>> {
    match field {
        Some(JsonView::Str(text)) => Some(text),
        _ => None,
    }
}

/// A field that has to be an integer between 0 and `most`.
pub open spec fn as_uint(field: Option<JsonView>, most: nat) -> Option<u64> {
    match field {
        Some(JsonView::Uint(n)) => if n <= most {
            Some(n)
        } else {
            None
        },
        _ => None,
    }
}

/// A field that may be missing, with `null` as another way to leave it out.
pub open spec fn as_optional(field: Option<JsonView>) -> Option<JsonView> {
    match field {
        Some(JsonView::Null) => None,
        other => other,
    }
}

/// See [`member`].
pub fn find_member<'a>(members: &'a Vec<(String, Json)>, name: &str) -> (r: Option<&'a Json>)
    ensures
        r is Some <==> member(member_views(members@), name@) is Some,
        r matches Some(json) ==> member(member_views(members@), name@) == Some(json@),
{
    let ghost all = member_views(members@);
    let mut i: usize = members.len();
    assert(all.take(i as int) =~= all);
    while i > 0
        invariant
            i <= members@.len(),
            all == member_views(members@),
            member(all, name@) == member(all.take(i as int), name@),
        decreases i,
    {
        i -= 1;
        proof {
            assert(all.take(i + 1).drop_last() =~= all.take(i as int));
            assert(all.take(i + 1).last() == (members@[i as int].0@, members@[i as int].1@));
        }
        if same(members[i].0.as_str(), name) {
            return Some(&members[i].1);
        }
    }
    None
}

/// See [`occurrences`]; counting stops at two.
pub fn is_repeated(members: &Vec<(String, Json)>, name: &str) -> (r: bool)
    ensures
        r == (occurrences(member_views(members@), name@) > 1),
{
    let ghost all = member_views(members@);
    let mut seen = false;
    let mut i: usize = 0;
    while i < members.len()
        invariant
            i <= members@.len(),
            all == member_views(members@),
            occurrences(all.take(i as int), name@) == if seen {
                1nat
            } else {
                0nat
            },
        decreases members@.len() - i,
    {
        proof {
            assert(all.take(i + 1).drop_last() =~= all.take(i as int));
            assert(all.take(i + 1).last() == (members@[i as int].0@, members@[i as int].1@));
        }
        if same(members[i].0.as_str(), name) {
            if seen {
                proof {
                    lemma_occurrences_grow(all, i + 1, name@);
                }
                return true;
            }
            seen = true;
        }
        i += 1;
    }
    assert(all.take(i as int) =~= all);
    false
}

proof fn lemma_occurrences_grow(members: Seq<(Seq<char>, JsonView)>, n: int, name: Seq<char>)
    requires
        0 <= n <= members.len(),
    ensures
        occurrences(members.take(n), name) <= occurrences(members, name),
    decreases members.len() - n,
{
    if n == members.len() {
        assert(members.take(n) =~= members);
    } else {
        assert(members.take(n + 1).drop_last() =~= members.take(n));
        lemma_occurrences_grow(members, n + 1, name);
    }
}

impl Json {
    /// See [`is_record`].
    pub fn is_record(&self, least: usize, most: usize) -> (r: bool)
        ensures
            r == is_record(self@, least as nat, most as nat),
    {
        match self {
            Json::Object(members) => {
                assert(self@ == JsonView::Object(member_views(members@)));
                true
            },
            Json::Array(values) => {
                assert(self@ == JsonView::Array(views(values@)));
                least <= values.len() && values.len() <= most
            },
            _ => false,
        }
    }

    /// See [`names_once`].
    pub fn names_once(&self, name: &str) -> (r: bool)
        ensures
            r == names_once(self@, name@),
    {
        match self {
            Json::Object(members) => !is_repeated(members, name),
            _ => true,
        }
    }

    /// See [`field`].
    pub fn field(&self, name: &str, position: usize) -> (r: Option<&Json>)
        ensures
            r is Some <==> field(self@, name@, position as int) is Some,
            r matches Some(json) ==> field(self@, name@, position as int) == Some(json@),
    {
        match self {
            Json::Object(members) => {
                assert(self@ == JsonView::Object(member_views(members@)));
                find_member(members, name)
            },
            Json::Array(values) => {
                assert(self@ == JsonView::Array(views(values@)));
                if position < values.len() {
                    Some(&values[position])
                } else {
                    None
                }
            },
            _ => None,
        }
    }

    /// A text field; see [`as_text`].
    pub fn text_field(&self, name: &str, position: usize) -> (r: Option<String>)
        ensures
            opt_text(r) == as_text(field(self@, name@, position as int)),
    {
        match self.field(name, position) {
            Some(Json::Str(text)) => Some(text.clone()),
            _ => None,
        }
    }

    /// An integer field; see [`as_uint`].
    pub fn uint_field(&self, name: &str, position: usize, most: u64) -> (r: Option<u64>)
        ensures
            r == as_uint(field(self@, name@, position as int), most as nat),
    {
        match self.field(name, position) {
            Some(Json::Uint(n)) => {
                if *n <= most {
                    Some(*n)
                } else {
                    None
                }
            },
            _ => None,
        }
    }
}

/// The contents of a value that may be missing.
pub open spec fn opt_json(json: Option<Json>) -> Option<JsonView> {
    match json {
        Some(json) => Some(json@),
        None => None,
    }
}

/// The contents of a value have its shape: they are what stands in it, piece by piece and in
/// order.
pub proof fn law_contents_have_the_shape_of_the_value(json: Json)
    ensures
        json is Null <==> json@ is Null,
        json matches Json::Bool(b) ==> json@ == JsonView::Bool(b),
        json matches Json::Uint(n) ==> json@ == JsonView::Uint(n),
        json matches Json::Int(n) ==> json@ == JsonView::Int(n),
        json matches Json::Float(text) ==> json@ == JsonView::Float(text@),
        json matches Json::Str(text) ==> json@ == JsonView::Str(text@),
        json matches Json::Array(values) ==> (json@ matches JsonView::Array(kept) && kept.len()
            == values@.len() && forall|i: int|
            0 <= i < kept.len() ==> #[trigger] kept[i] == values@[i]@),
        json matches Json::Object(members) ==> (json@ matches JsonView::Object(kept) && kept.len()
            == members@.len() && forall|i: int|
            0 <= i < kept.len() ==> (#[trigger] kept[i]).0 == members@[i].0@ && kept[i].1
                == members@[i].1@),
        json@ is Bool ==> json is Bool,
        json@ is Uint ==> json is Uint,
        json@ is Int ==> json is Int,
        json@ is Float ==> json is Float,
        json@ is Str ==> json is Str,
        json@ is Array ==> json is Array,
        json@ is Object ==> json is Object,
        opt_json(Some(json)) == Some(json@),
        opt_json(None) is None,
{
    match json {
        Json::Array(values) => {
            assert(json@ == JsonView::Array(views(values@)));
        },
        Json::Object(members) => {
            assert(json@ == JsonView::Object(member_views(members@)));
        },
        _ => {},
    }
}

/// Whether one of the members is called `name`.
pub open spec fn names(members: Seq<(Seq<char>, JsonView)>, name: Seq<char>) -> bool {
    exists|i: int| 0 <= i < members.len() && (#[trigger] members[i]).0 == name
}

proof fn lemma_unnamed_members_add_nothing(
    before: Seq<(Seq<char>, JsonView)>,
    after: Seq<(Seq<char>, JsonView)>,
    name: Seq<char>,
)
    requires
        !names(after, name),
    ensures
        member(before + after, name) == member(before, name),
        occurrences(before + after, name) == occurrences(before, name),
    decreases after.len(),
{
    if after.len() == 0 {
        assert(before + after =~= before);
    } else {
        let rest = after.drop_last();
        assert(after[after.len() - 1].0 != name);
        assert(!names(rest, name)) by {
            if names(rest, name) {
                let i = choose|i: int| 0 <= i < rest.len() && (#[trigger] rest[i]).0 == name;
                assert(after[i].0 == name);
            }
        }
        lemma_unnamed_members_add_nothing(before, rest, name);
        assert((before + after).drop_last() =~= before + rest);
        assert((before + after).last() == after.last());
    }
}

/// A member is found under its name wherever it stands among others: the last of the name counts.
/// Where none has the name, none is found. A record must not name a field twice.
pub proof fn law_member_of_an_object(
    before: Seq<(Seq<char>, JsonView)>,
    name: Seq<char>,
    value: JsonView,
    after: Seq<(Seq<char>, JsonView)>,
)
    requires
        !names(after, name),
    ensures
        ({
            let members = before.push((name, value)) + after;
            &&& member(members, name) == Some(value)
            &&& forall|at: int| #[trigger] field(JsonView::Object(members), name, at) == Some(value)
            &&& names_once(JsonView::Object(members), name) <==> !names(before, name)
        }),
        !names(before, name) ==> member(before, name) is None && occurrences(before, name) == 0
            && names_once(JsonView::Object(before), name) && forall|at: int| #[trigger]
            field(JsonView::Object(before), name, at) is None,
{
    let head = before.push((name, value));
    lemma_unnamed_members_add_nothing(head, after, name);
    assert(head.drop_last() =~= before);
    assert(head.last() == (name, value));
    if !names(before, name) {
        let none = Seq::<(Seq<char>, JsonView)>::empty();
        lemma_unnamed_members_add_nothing(none, before, name);
        assert(none + before =~= before);
    } else {
        lemma_named_member_occurs(before, name);
    }
}

proof fn lemma_named_member_occurs(members: Seq<(Seq<char>, JsonView)>, name: Seq<char>)
    requires
        names(members, name),
    ensures
        occurrences(members, name) > 0,
    decreases members.len(),
{
    let i = choose|i: int| 0 <= i < members.len() && (#[trigger] members[i]).0 == name;
    if i < members.len() - 1 {
        assert(members.drop_last()[i].0 == name);
        lemma_named_member_occurs(members.drop_last(), name);
    }
}

/// A record may also be written as an array: its fields stand at their places, and there are
/// neither too few nor too many. Nothing else is a record.
pub proof fn law_record_as_an_array(json: JsonView, values: Seq<JsonView>, at: int, name: Seq<char>)
    ensures
        field(JsonView::Array(values), name, at) == if 0 <= at < values.len() {
            Some(values[at])
        } else {
            None
        },
        forall|least: nat, most: nat| #[trigger]
            is_record(JsonView::Array(values), least, most) <==> least <= values.len() <= most,
        names_once(JsonView::Array(values), name),
        !(json is Array) && !(json is Object) ==> field(json, name, at) is None && forall|
            least: nat,
            most: nat,
        | !#[trigger] is_record(json, least, most),
        json is Object ==> forall|least: nat, most: nat| #[trigger] is_record(json, least, most),
{
}

/// A field that has to be a text is one exactly where a text stands; one that has to be a small
/// number, where such a number stands; and `null` leaves a field out that may be missing.
pub proof fn law_fields_have_their_kind(json: JsonView, n: u64, most: nat)
    ensures
        as_text(Some(json)) == (match json {
            JsonView::Str(text) => Some(text),
            _ => None,
        }),
        as_text(None) is None,
        as_uint(Some(JsonView::Uint(n)), most) == if n <= most {
            Some(n)
        } else {
            None
        },
        !(json is Uint) ==> as_uint(Some(json), most) is None,
        as_uint(None, most) is None,
        json is Null ==> as_optional(Some(json)) is None,
        !(json is Null) ==> as_optional(Some(json)) == Some(json),
        as_optional(None) is None,
{
}

/// Values are looked into as the laws about records say.
pub proof fn law_values_are_looked_into(
    json: &Json,
    name: &str,
    position: usize,
    most: u64,
    bounds: (usize, usize),
    members: &Vec<(String, Json)>,
    answers: (bool, Option<String>, Option<u64>),
    found: Option<&Json>,
    copy: Json,
)
    ensures
        call_ensures(Json::is_record, (json, bounds.0, bounds.1), answers.0) ==> answers.0 == is_record(
            json@,
            bounds.0 as nat,
            bounds.1 as nat,
        ),
        call_ensures(Json::names_once, (json, name), answers.0) ==> answers.0 == names_once(json@, name@),
        call_ensures(Json::field, (json, name, position), found) ==> (match found {
            Some(value) => Some(value@),
            None => None,
        }) == field(json@, name@, position as int),
        call_ensures(Json::text_field, (json, name, position), answers.1) ==> opt_text(answers.1)
            == as_text(field(json@, name@, position as int)),
        call_ensures(Json::uint_field, (json, name, position, most), answers.2) ==> answers.2
            == as_uint(field(json@, name@, position as int), most as nat),
        call_ensures(find_member, (members, name), found) ==> (match found {
            Some(value) => Some(value@),
            None => None,
        }) == member(member_views(members@), name@),
        call_ensures(is_repeated, (members, name), answers.0) ==> answers.0 == (occurrences(
            member_views(members@),
            name@,
        ) > 1),
        call_ensures(Json::clone, (json,), copy) ==> copy@ == json@,
{
}

} // verus!
