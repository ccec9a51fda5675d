//! JSON values as they are kept: the members of an object by name, each name once.

use crate::protocol::json::{member, member_views, views, Json, JsonView};
use crate::text::{chars_of, same};
use vstd::prelude::*;

verus! {

/// Whether one text comes before another: by the first character in which they
/// differ, or because it ends first.
pub open spec fn comes_before(a: Seq<char>, b: Seq<char>) -> bool
    decreases a.len(),
{
    if b.len() == 0 {
        false
    } else if a.len() == 0 {
        true
    } else if a[0] == b[0] {
        comes_before(a.drop_first(), b.drop_first())
    } else {
        a[0] < b[0]
    }
}

/// Members that stand in order, with one more in its place. A member of the same
/// name gives way.
pub open spec fn put(
    members: Seq<(Seq<char>, JsonView)>,
    name: Seq<char>,
    value: JsonView,
) -> Seq<(Seq<char>, JsonView)>
    decreases members.len(),
{
    if members.len() == 0 {
        seq![(name, value)]
    } else if members.last().0 == name {
        members.drop_last().push((name, value))
    } else if comes_before(members.last().0, name) {
        members.push((name, value))
    } else {
        put(members.drop_last(), name, value).push(members.last())
    }
}

/// A value as it is kept: in every object, however deep, the members stand in the
/// order of their names, and of several members with one name only the last is
/// there.
pub open spec fn settled(json: JsonView) -> JsonView
    decreases json,
{
    match json {
        JsonView::Array(values) => JsonView::Array(settled_values(values)),
        JsonView::Object(members) => JsonView::Object(settled_members(members)),
        other => other,
    }
}

/// The values of an array as they are kept.
pub open spec fn settled_values(values: Seq<JsonView>) -> Seq<JsonView>
    decreases values,
{
    if values.len() == 0 {
        Seq::empty()
    } else {
        settled_values(values.drop_last()).push(settled(values.last()))
    }
}

/// The members of an object as they are kept.
pub open spec fn settled_members(members: Seq<(Seq<char>, JsonView)>) -> Seq<(Seq<char>, JsonView)>
    decreases members,
{
    if members.len() == 0 {
        Seq::empty()
    } else {
        put(settled_members(members.drop_last()), members.last().0, settled(members.last().1))
    }
}

/// A value that may be missing, as it is kept.
pub open spec fn opt_settled(json: Option<JsonView>) -> Option<JsonView> {
    match json {
        Some(json) => Some(settled(json)),
        None => None,
    }
}

/// See [`comes_before`].
fn text_comes_before(a: &str, b: &str) -> (r: bool)
    ensures
        r == comes_before(a@, b@),
{
    let left = chars_of(a);
    let right = chars_of(b);
    let mut i: usize = 0;
    assert(a@.skip(0) =~= a@ && b@.skip(0) =~= b@);
    while i < left.len() && i < right.len()
        invariant
            left@ == a@,
            right@ == b@,
            i <= a@.len(),
            i <= b@.len(),
            comes_before(a@, b@) == comes_before(a@.skip(i as int), b@.skip(i as int)),
        decreases left.len() - i,
    {
        assert(a@.skip(i as int).drop_first() =~= a@.skip(i + 1));
        assert(b@.skip(i as int).drop_first() =~= b@.skip(i + 1));
        if left[i] != right[i] {
            return left[i] < right[i];
        }
        i += 1;
    }
    i < right.len()
}

/// See [`put`].
fn put_member(members: &mut Vec<(String, Json)>, name: String, value: Json)
    ensures
        member_views(final(members)@) == put(member_views(old(members)@), name@, value@),
{
    let ghost all = member_views(members@);
    let mut i: usize = members.len();
    assert(all.take(i as int) =~= all);
    assert(put(all, name@, value@) + all.skip(i as int) =~= put(all, name@, value@));
    while i > 0
        invariant
            i <= members@.len(),
            members@ == old(members)@,
            all == member_views(members@),
            put(all, name@, value@) == put(all.take(i as int), name@, value@) + all.skip(i as int),
        decreases i,
    {
        let ghost head = all.take(i as int);
        assert(head.last() == (members@[i - 1].0@, members@[i - 1].1@));
        assert(head.drop_last() =~= all.take(i - 1));
        if same(members[i - 1].0.as_str(), name.as_str()) {
            members.set(i - 1, (name, value));
            assert(member_views(members@) =~= all.update(i - 1, (name@, value@)));
            assert(all.update(i - 1, (name@, value@)) =~= head.drop_last().push((name@, value@))
                + all.skip(i as int));
            return;
        }
        if text_comes_before(members[i - 1].0.as_str(), name.as_str()) {
            members.insert(i, (name, value));
            assert(member_views(members@) =~= head.push((name@, value@)) + all.skip(i as int));
            return;
        }
        i -= 1;
        assert(put(all.take(i as int), name@, value@).push(all[i as int]) + all.skip(i + 1) =~= put(
            all.take(i as int),
            name@,
            value@,
        ) + all.skip(i as int));
    }
    members.insert(0, (name, value));
    assert(all.take(0) =~= Seq::empty());
    assert(member_views(members@) =~= seq![(name@, value@)] + all.skip(0));
}

/// See [`settled`].
pub fn settle(json: &Json) -> (r: Json)
    ensures
        r@ == settled(json@),
    decreases json,
{
    match json {
        Json::Array(values) => {
            let ghost all = views(values@);
            assert(json@ == JsonView::Array(all));
            let mut kept: Vec<Json> = Vec::new();
            let mut i: usize = 0;
            assert(views(kept@) =~= settled_values(all.take(0)));
            while i < values.len()
                invariant
                    i <= values@.len(),
                    all == views(values@),
                    *json == Json::Array(*values),
                    views(kept@) == settled_values(all.take(i as int)),
                decreases values@.len() - i,
            {
                assert(decreases_to!(json => values@[i as int])) by {
                    assert(decreases_to!(*json => json->Array_0));
                    assert(decreases_to!(*values => values@));
                    assert(decreases_to!(values@ => values@[i as int]));
                }
                let value = settle(&values[i]);
                let ghost before = views(kept@);
                kept.push(value);
                assert(views(kept@) =~= before.push(value@));
                assert(all.take(i + 1).drop_last() =~= all.take(i as int));
                assert(all.take(i + 1).last() == values@[i as int]@);
                i += 1;
            }
            assert(all.take(i as int) =~= all);
            Json::Array(kept)
        },
        Json::Object(members) => {
            let ghost all = member_views(members@);
            assert(json@ == JsonView::Object(all));
            let mut kept: Vec<(String, Json)> = Vec::new();
            let mut i: usize = 0;
            assert(member_views(kept@) =~= settled_members(all.take(0)));
            while i < members.len()
                invariant
                    i <= members@.len(),
                    all == member_views(members@),
                    *json == Json::Object(*members),
                    member_views(kept@) == settled_members(all.take(i as int)),
                decreases members@.len() - i,
            {
                let member = &members[i];
                assert(decreases_to!(json => member.1)) by {
                    assert(decreases_to!(*json => json->Object_0));
                    assert(decreases_to!(*members => members@));
                    assert(decreases_to!(members@ => members@[i as int]));
                    assert(decreases_to!(members@[i as int] => members@[i as int].1));
                }
                let value = settle(&member.1);
                put_member(&mut kept, member.0.clone(), value);
                assert(all.take(i + 1).drop_last() =~= all.take(i as int));
                assert(all.take(i + 1).last() == (members@[i as int].0@, members@[i as int].1@));
                i += 1;
            }
            assert(all.take(i as int) =~= all);
            Json::Object(kept)
        },
        _ => json.clone(),
    }
}

/// The members stand in the order of their names, so that no name occurs twice.
pub open spec fn in_order(members: Seq<(Seq<char>, JsonView)>) -> bool {
    forall|i: int, j: int|
        0 <= i < j < members.len() ==> comes_before(
            (#[trigger] members[i]).0,
            (#[trigger] members[j]).0,
        )
}

proof fn lemma_order_is_strict(a: Seq<char>, b: Seq<char>)
    ensures
        comes_before(a, b) ==> a != b && !comes_before(b, a),
        comes_before(a, b) || comes_before(b, a) || a == b,
    decreases a.len(),
{
    if a.len() > 0 && b.len() > 0 && a[0] == b[0] {
        lemma_order_is_strict(a.drop_first(), b.drop_first());
        if a.drop_first() == b.drop_first() {
            assert(a =~= seq![a[0]] + a.drop_first());
            assert(b =~= seq![b[0]] + b.drop_first());
        }
    } else if a.len() == 0 && b.len() == 0 {
        assert(a =~= b);
    }
}

proof fn lemma_order_is_transitive(a: Seq<char>, b: Seq<char>, c: Seq<char>)
    requires
        comes_before(a, b),
        comes_before(b, c),
    ensures
        comes_before(a, c),
    decreases a.len(),
{
    if a.len() > 0 && a[0] == b[0] && b[0] == c[0] {
        lemma_order_is_transitive(a.drop_first(), b.drop_first(), c.drop_first());
    }
}

/// What `put` does to members that stand in order: they still do, the new member
/// is found under its name, and every other name finds what it did.
proof fn lemma_put(
    members: Seq<(Seq<char>, JsonView)>,
    name: Seq<char>,
    value: JsonView,
    bound: Seq<char>,
)
    requires
        in_order(members),
    ensures
        in_order(put(members, name, value)),
        forall|other: Seq<char>| #[trigger]
            member(put(members, name, value), other) == if other == name {
                Some(value)
            } else {
                member(members, other)
            },
        put(members, name, value).len() > 0,
        put(members, name, value).last().0 == name || (members.len() > 0 && put(
            members,
            name,
            value,
        ).last().0 == members.last().0),
        members.len() > 0 && comes_before(members.last().0, bound) && comes_before(name, bound)
            ==> comes_before(put(members, name, value).last().0, bound),
    decreases members.len(),
{
    let after = put(members, name, value);
    if members.len() == 0 {
        assert(after.drop_last() =~= members);
        assert(after.last() == (name, value));
    } else {
        let rest = members.drop_last();
        let last = members.last();
        assert(in_order(rest)) by {
            assert forall|i: int, j: int| 0 <= i < j < rest.len() implies comes_before(
                (#[trigger] rest[i]).0,
                (#[trigger] rest[j]).0,
            ) by {
                assert(rest[i] == members[i] && rest[j] == members[j]);
            }
        }
        if last.0 == name {
            assert(after.drop_last() =~= rest);
            assert(in_order(after)) by {
                assert forall|i: int, j: int| 0 <= i < j < after.len() implies comes_before(
                    (#[trigger] after[i]).0,
                    (#[trigger] after[j]).0,
                ) by {
                    assert(after[i].0 == members[i].0 && after[j].0 == members[j].0);
                }
            }
        } else if comes_before(last.0, name) {
            assert(after.drop_last() =~= members);
            assert(in_order(after)) by {
                assert forall|i: int, j: int| 0 <= i < j < after.len() implies comes_before(
                    (#[trigger] after[i]).0,
                    (#[trigger] after[j]).0,
                ) by {
                    assert(after[i] == members[i]);
                    if j < members.len() {
                        assert(after[j] == members[j]);
                    } else if i < members.len() - 1 {
                        assert(comes_before(members[i].0, members[members.len() - 1].0));
                        lemma_order_is_transitive(members[i].0, last.0, name);
                    }
                }
            }
        } else {
            lemma_order_is_strict(last.0, name);
            lemma_put(rest, name, value, last.0);
            let head = put(rest, name, value);
            assert(after.drop_last() =~= head);
            assert(after.last() == last);
            assert(comes_before(head.last().0, last.0)) by {
                if rest.len() > 0 {
                    assert(rest.last() == members[members.len() - 2]);
                    assert(comes_before(
                        members[members.len() - 2].0,
                        members[members.len() - 1].0,
                    ));
                }
            }
            assert(in_order(after)) by {
                assert forall|i: int, j: int| 0 <= i < j < after.len() implies comes_before(
                    (#[trigger] after[i]).0,
                    (#[trigger] after[j]).0,
                ) by {
                    assert(after[i] == head[i]);
                    if j < head.len() {
                        assert(after[j] == head[j]);
                    } else if i < head.len() - 1 {
                        assert(comes_before(head[i].0, head[head.len() - 1].0));
                        lemma_order_is_transitive(head[i].0, head.last().0, last.0);
                    }
                }
            }
            assert forall|other: Seq<char>| #[trigger] member(after, other) == if other == name {
                Some(value)
            } else {
                member(members, other)
            } by {
                assert(member(head, other) == if other == name {
                    Some(value)
                } else {
                    member(rest, other)
                });
            }
        }
    }
}

/// An object that is kept has its members in order, and under each name it holds
/// the last value that was given under that name.
pub proof fn law_last_member_of_a_name_is_kept(
    members: Seq<(Seq<char>, JsonView)>,
    name: Seq<char>,
)
    ensures
        in_order(settled_members(members)),
        member(settled_members(members), name) == opt_settled(member(members, name)),
    decreases members.len(),
{
    if members.len() > 0 {
        let rest = members.drop_last();
        law_last_member_of_a_name_is_kept(rest, name);
        lemma_put(
            settled_members(rest),
            members.last().0,
            settled(members.last().1),
            Seq::empty(),
        );
    }
}

/// All values are as they are kept.
spec fn are_settled(members: Seq<(Seq<char>, JsonView)>) -> bool {
    forall|i: int|
        0 <= i < members.len() ==> settled((#[trigger] members[i]).1) == members[i].1
}

proof fn lemma_put_settled(
    members: Seq<(Seq<char>, JsonView)>,
    name: Seq<char>,
    value: JsonView,
)
    requires
        are_settled(members),
        settled(value) == value,
    ensures
        are_settled(put(members, name, value)),
    decreases members.len(),
{
    if members.len() > 0 {
        let rest = members.drop_last();
        assert(are_settled(rest)) by {
            assert forall|i: int| 0 <= i < rest.len() implies settled((#[trigger] rest[i]).1)
                == rest[i].1 by {
                assert(rest[i] == members[i]);
            }
        }
        lemma_put_settled(rest, name, value);
        assert(members.last() == members[members.len() - 1]);
    }
}

proof fn lemma_ordered_members_stay(members: Seq<(Seq<char>, JsonView)>)
    requires
        in_order(members),
        are_settled(members),
    ensures
        settled_members(members) == members,
    decreases members.len(),
{
    if members.len() > 0 {
        let rest = members.drop_last();
        assert forall|i: int, j: int| 0 <= i < j < rest.len() implies comes_before(
            (#[trigger] rest[i]).0,
            (#[trigger] rest[j]).0,
        ) by {
            assert(rest[i] == members[i] && rest[j] == members[j]);
        }
        assert forall|i: int| 0 <= i < rest.len() implies settled((#[trigger] rest[i]).1)
            == rest[i].1 by {
            assert(rest[i] == members[i]);
        }
        lemma_ordered_members_stay(rest);
        assert(members.last() == members[members.len() - 1]);
        if rest.len() > 0 {
            assert(rest.last() == members[members.len() - 2]);
            lemma_order_is_strict(rest.last().0, members.last().0);
        }
        assert(rest.push(members.last()) =~= members);
    }
}

/// A value that is kept stays as it is when it is read or written again.
pub proof fn law_settled_stays_settled(json: JsonView)
    ensures
        settled(settled(json)) == settled(json),
    decreases json,
{
    match json {
        JsonView::Array(values) => {
            lemma_settled_values_stay(values);
        },
        JsonView::Object(members) => {
            lemma_members_become_settled(members);
            law_last_member_of_a_name_is_kept(members, Seq::empty());
            lemma_ordered_members_stay(settled_members(members));
        },
        _ => {},
    }
}

proof fn lemma_settled_values_stay(values: Seq<JsonView>)
    ensures
        settled_values(settled_values(values)) == settled_values(values),
    decreases values,
{
    if values.len() > 0 {
        lemma_settled_values_stay(values.drop_last());
        law_settled_stays_settled(values.last());
        let kept = settled_values(values);
        assert(kept.drop_last() =~= settled_values(values.drop_last()));
        assert(kept.last() == settled(values.last()));
    }
}

proof fn lemma_members_become_settled(members: Seq<(Seq<char>, JsonView)>)
    ensures
        are_settled(settled_members(members)),
    decreases members,
{
    if members.len() > 0 {
        lemma_members_become_settled(members.drop_last());
        law_settled_stays_settled(members.last().1);
        lemma_put_settled(
            settled_members(members.drop_last()),
            members.last().0,
            settled(members.last().1),
        );
    }
}

/// Texts are ordered by their first character that differs; a text that ends before comes first.
pub proof fn law_texts_are_ordered_by_their_first_difference(
    same: Seq<char>,
    a: Seq<char>,
    b: Seq<char>,
)
    ensures
        comes_before(same + a, same + b) == comes_before(a, b),
        b.len() == 0 ==> !comes_before(a, b),
        a.len() == 0 && b.len() > 0 ==> comes_before(a, b),
        a.len() > 0 && b.len() > 0 && a[0] != b[0] ==> (comes_before(a, b) <==> a[0] < b[0]),
    decreases same.len(),
{
    if same.len() == 0 {
        assert(same + a =~= a && same + b =~= b);
    } else {
        let rest = same.drop_first();
        assert((same + a).drop_first() =~= rest + a);
        assert((same + b).drop_first() =~= rest + b);
        law_texts_are_ordered_by_their_first_difference(rest, a, b);
    }
}

/// The values of an array are kept in their places, all of them; a value that is neither an array
/// nor an object is kept as it is.
pub proof fn law_values_are_kept_in_their_places(values: Seq<JsonView>, json: JsonView)
    ensures
        settled(JsonView::Array(values)) is Array,
        settled(JsonView::Array(values))->Array_0.len() == values.len(),
        forall|i: int|
            0 <= i < values.len() ==> #[trigger] settled(JsonView::Array(values))->Array_0[i]
                == settled(values[i]),
        !(json is Array) && !(json is Object) ==> settled(json) == json,
        opt_settled(Some(json)) == Some(settled(json)),
        opt_settled(None) is None,
    decreases values.len(),
{
    if values.len() > 0 {
        law_values_are_kept_in_their_places(values.drop_last(), json);
        let kept = settled_values(values.drop_last());
        assert(settled(JsonView::Array(values.drop_last()))->Array_0 == kept);
        assert forall|i: int| 0 <= i < values.len() implies #[trigger] settled(
            JsonView::Array(values),
        )->Array_0[i] == settled(values[i]) by {
            if i < values.len() - 1 {
                assert(settled(JsonView::Array(values.drop_last()))->Array_0[i] == settled(
                    values.drop_last()[i],
                ));
            }
        }
    }
}

/// An object is kept with its members in the order of their names, the last of each name.
pub proof fn law_members_are_kept_by_name(members: Seq<(Seq<char>, JsonView)>, name: Seq<char>, i: int, j: int)
    ensures
        settled(JsonView::Object(members)) is Object,
        ({
            let kept = settled(JsonView::Object(members))->Object_0;
            &&& member(kept, name) is Some <==> member(members, name) is Some
            &&& member(members, name) matches Some(value) ==> member(kept, name) == Some(settled(value))
            &&& 0 <= i < j < kept.len() ==> comes_before(kept[i].0, kept[j].0)
        }),
{
    law_last_member_of_a_name_is_kept(members, name);
}

/// Settling a value gives what is kept of it.
pub proof fn law_value_is_settled(json: &Json, r: Json)
    requires
        call_ensures(settle, (json,), r),
    ensures
        r@ == settled(json@),
{
}

} // verus!
