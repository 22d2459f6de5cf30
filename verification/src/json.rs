//! JSON documents: what a request or a reply holds.

use vstd::prelude::*;

verus! {

/// A JSON document as a mathematical value.
pub enum JsonView {
    Null,
    Bool(bool),
    Number(serde_json::Number),
    Text(Seq<char>),
    Array(Seq<JsonView>),
    Object(Map<Seq<char>, JsonView>),
}

/// A JSON document.
///
/// An object is a list of members. Where a name occurs twice, the later member counts.
#[derive(Debug, PartialEq, Eq)]
pub enum Json {
    Null,
    Bool(bool),
    Number(serde_json::Number),
    Text(String),
    Array(Vec<Json>),
    Object(Vec<(String, Json)>),
}

/// `serde_json::Number`, which is carried through unread.
#[verifier::external_type_specification]
#[verifier::external_body]
pub struct ExNumber(serde_json::Number);

/// `serde_json::Number::clone`, which gives the same number again.
pub assume_specification[ <serde_json::Number as Clone>::clone ](
    number: &serde_json::Number,
) -> (copy: serde_json::Number)
    ensures
        copy == *number,
;

/// The members of an object by name; of two members with one name the later one counts.
pub open spec fn by_name(members: Seq<(Seq<char>, JsonView)>) -> Map<Seq<char>, JsonView>
    decreases members.len(),
{
    if members.len() == 0 {
        Map::empty()
    } else {
        by_name(members.drop_last()).insert(members.last().0, members.last().1)
    }
}

/// No name occurs twice.
pub open spec fn distinct_names(members: Seq<(Seq<char>, JsonView)>) -> bool {
    forall|i: int, j: int|
        0 <= i < j < members.len() ==> (#[trigger] members[i]).0 != (#[trigger] members[j]).0
}

/// The document that `json` stands for.
pub open spec fn json_view(json: Json) -> JsonView
    decreases json,
{
    match json {
        Json::Null => JsonView::Null,
        Json::Bool(b) => JsonView::Bool(b),
        Json::Number(n) => JsonView::Number(n),
        Json::Text(s) => JsonView::Text(s@),
        Json::Array(items) => JsonView::Array(items_view(items@)),
        Json::Object(members) => JsonView::Object(by_name(members_view(members@))),
    }
}

/// The documents that `items` stand for, one by one.
pub open spec fn items_view(items: Seq<Json>) -> Seq<JsonView>
    decreases items,
{
    Seq::new(
        items.len(),
        |i: int|
            if 0 <= i < items.len() {
                json_view(items[i])
            } else {
                JsonView::Null
            },
    )
}

/// The members that `members` stand for, one by one.
pub open spec fn members_view(members: Seq<(String, Json)>) -> Seq<(Seq<char>, JsonView)>
    decreases members,
{
    Seq::new(
        members.len(),
        |i: int|
            if 0 <= i < members.len() {
                (members[i].0@, json_view(members[i].1))
            } else {
                (Seq::empty(), JsonView::Null)
            },
    )
}

impl View for Json {
    type V = JsonView;

    open spec fn view(&self) -> JsonView {
        json_view(*self)
    }
}

/// Every name in an object is that of a member, and there are finitely many.
pub(crate) proof fn lemma_by_name_names(members: Seq<(Seq<char>, JsonView)>, name: Seq<char>)
    ensures
        by_name(members).dom().finite(),
        by_name(members).contains_key(name) ==> exists|i: int|
            0 <= i < members.len() && (#[trigger] members[i]).0 == name,
    decreases members.len(),
{
    if members.len() > 0 {
        let front = members.drop_last();
        lemma_by_name_names(front, name);
        if members.last().0 == name {
            assert(members[members.len() - 1].0 == name);
        } else if by_name(front).contains_key(name) {
            let i = choose|i: int| 0 <= i < front.len() && (#[trigger] front[i]).0 == name;
            assert(members[i].0 == name);
        }
    }
}

/// A name is bound to the last member that has it.
pub(crate) proof fn lemma_by_name_last(members: Seq<(Seq<char>, JsonView)>, i: int)
    requires
        0 <= i < members.len(),
        forall|j: int| i < j < members.len() ==> (#[trigger] members[j]).0 != members[i].0,
    ensures
        by_name(members).contains_key(members[i].0),
        by_name(members)[members[i].0] == members[i].1,
    decreases members.len(),
{
    if i < members.len() - 1 {
        let front = members.drop_last();
        assert forall|j: int| i < j < front.len() implies (#[trigger] front[j]).0
            != front[i].0 by {
            assert(members[j].0 != members[i].0);
        }
        lemma_by_name_last(front, i);
        assert(members[members.len() - 1].0 != members[i].0);
    }
}

/// One more item at the end shows as one more document at the end.
pub(crate) proof fn lemma_items_view_push(items: Seq<Json>, item: Json)
    ensures
        items_view(items.push(item)) == items_view(items).push(item@),
{
    let longer = items.push(item);
    assert forall|i: int| 0 <= i < longer.len() implies items_view(longer)[i] == items_view(
        items,
    ).push(item@)[i] by {
        assert(items_view(longer)[i] == json_view(longer[i]));
        if i < items.len() {
            assert(items_view(items)[i] == json_view(items[i]));
        }
    }
    assert(items_view(longer) =~= items_view(items).push(item@));
}

/// One more member at the end shows as one more member at the end.
pub(crate) proof fn lemma_members_view_push(members: Seq<(String, Json)>, member: (String, Json))
    ensures
        members_view(members.push(member)) == members_view(members).push((member.0@, member.1@)),
{
    let longer = members.push(member);
    assert forall|i: int| 0 <= i < longer.len() implies members_view(longer)[i] == members_view(
        members,
    ).push((member.0@, member.1@))[i] by {
        assert(members_view(longer)[i] == (longer[i].0@, json_view(longer[i].1)));
        if i < members.len() {
            assert(members_view(members)[i] == (members[i].0@, json_view(members[i].1)));
        }
    }
    assert(members_view(longer) =~= members_view(members).push((member.0@, member.1@)));
}

/// Where names are distinct, a new value for one member is the same as a later member.
pub(crate) proof fn lemma_by_name_replace(members: Seq<(Seq<char>, JsonView)>, k: int, value: JsonView)
    requires
        0 <= k < members.len(),
        distinct_names(members),
    ensures
        distinct_names(members.update(k, (members[k].0, value))),
        by_name(members.update(k, (members[k].0, value))) == by_name(members).insert(
            members[k].0,
            value,
        ),
{
    let replaced = members.update(k, (members[k].0, value));
    let wanted = by_name(members).insert(members[k].0, value);
    assert forall|i: int, j: int| 0 <= i < j < replaced.len() implies (#[trigger] replaced[i]).0 != (
    #[trigger] replaced[j]).0 by {
        assert(members[i].0 != members[j].0);
    }
    assert forall|name: Seq<char>|
        #![trigger by_name(replaced).contains_key(name)]
        by_name(replaced).contains_key(name) == wanted.contains_key(name) && (
        wanted.contains_key(name) ==> by_name(replaced)[name] == wanted[name]) by {
        lemma_by_name_names(replaced, name);
        lemma_by_name_names(members, name);
        if by_name(replaced).contains_key(name) {
            let i = choose|i: int| 0 <= i < replaced.len() && (#[trigger] replaced[i]).0 == name;
            assert(members[i].0 == name);
            lemma_by_name_last(replaced, i);
            lemma_by_name_last(members, i);
            assert(i != k ==> members[i].0 != members[k].0);
        }
        if wanted.contains_key(name) {
            if name == members[k].0 {
                assert(replaced[k].0 == name);
                lemma_by_name_last(replaced, k);
            } else {
                let i = choose|i: int| 0 <= i < members.len() && (#[trigger] members[i]).0 == name;
                assert(replaced[i].0 == name);
                lemma_by_name_last(replaced, i);
            }
        }
    }
    assert(by_name(replaced) =~= wanted);
}

/// The member of `json` that is called `name`, if `json` is an object that has one.
pub open spec fn member(json: JsonView, name: Seq<char>) -> Option<JsonView> {
    match json {
        JsonView::Object(members) => if members.contains_key(name) {
            Some(members[name])
        } else {
            None
        },
        _ => None,
    }
}

impl Json {
    /// The member called `name`, if this is an object that has one.
    pub fn get(&self, name: &str) -> (found: Option<&Json>)
        ensures
            match found {
                Some(value) => member(self@, name@) == Some(value@),
                None => member(self@, name@) is None,
            },
    {
        match self {
            Json::Object(members) => {
                let wanted = name.to_owned();
                let ghost views = members_view(members@);
                let mut k: usize = members.len();
                while k > 0
                    invariant
                        k <= members@.len(),
                        wanted@ == name@,
                        views == members_view(members@),
                        self@ == JsonView::Object(by_name(views)),
                        forall|j: int| k <= j < views.len() ==> (#[trigger] views[j]).0 != name@,
                    decreases k,
                {
                    k = k - 1;
                    assert(views[k as int] == (members@[k as int].0@, members@[k as int].1@));
                    if members[k].0 == wanted {
                        proof {
                            lemma_by_name_last(views, k as int);
                        }
                        return Some(&members[k].1);
                    }
                }
                proof {
                    lemma_by_name_names(views, name@);
                }
                None
            },
            _ => None,
        }
    }

    /// The member called `name`, if this is an object that has one; the rest is dropped.
    pub fn into_member(self, name: &str) -> (found: Option<Json>)
        ensures
            match found {
                Some(value) => member(self@, name@) == Some(value@),
                None => member(self@, name@) is None,
            },
    {
        match self {
            Json::Object(all) => {
                let wanted = name.to_owned();
                let ghost views = members_view(all@);
                let mut members = all;
                while members.len() > 0
                    invariant
                        members@ == all@.take(members@.len() as int),
                        members@.len() <= all@.len(),
                        wanted@ == name@,
                        views == members_view(all@),
                        self@ == JsonView::Object(by_name(views)),
                        forall|j: int|
                            members@.len() <= j < views.len() ==> (#[trigger] views[j]).0 != name@,
                    decreases members@.len(),
                {
                    match members.pop() {
                        Some((n, value)) => {
                            let ghost k = members@.len() as int;
                            assert(members@ =~= all@.take(k));
                            assert(all@[k] == (n, value));
                            assert(views[k] == (all@[k].0@, all@[k].1@));
                            if n == wanted {
                                proof {
                                    lemma_by_name_last(views, k);
                                }
                                return Some(value);
                            }
                        },
                        None => {},
                    }
                }
                proof {
                    lemma_by_name_names(views, name@);
                }
                None
            },
            _ => None,
        }
    }
}

/// `serde_json::Number::from`, for a whole number that is not negative.
pub uninterp spec fn whole_number(n: u64) -> serde_json::Number;

/// `serde_json::Number::from`, for a whole number that is not negative: the same number always
/// gives the same result.
#[verifier::external_body]
pub(crate) fn number_from(n: u64) -> (number: serde_json::Number)
    ensures
        number == whole_number(n),
{
    serde_json::Number::from(n)
}

/// An object has a member called `name` exactly where one of its members is called so, and of
/// several it is the last.
pub proof fn law_last_member_counts(members: Seq<(Seq<char>, JsonView)>, name: Seq<char>)
    ensures
        by_name(members).contains_key(name) <==> exists|i: int|
            0 <= i < members.len() && (#[trigger] members[i]).0 == name,
        forall|i: int|
            0 <= i < members.len() && (#[trigger] members[i]).0 == name && (forall|j: int|
                i < j < members.len() ==> (#[trigger] members[j]).0 != name) ==> by_name(
                members,
            )[name] == members[i].1,
    decreases members.len(),
{
    lemma_by_name_names(members, name);
    if members.len() > 0 {
        let front = members.drop_last();
        law_last_member_counts(front, name);
        if members.last().0 != name {
            assert forall|i: int| 0 <= i < members.len() && (#[trigger] members[i]).0
                == name implies by_name(members).contains_key(name) by {
                assert(front[i].0 == name);
            }
        }
    }
    assert forall|i: int|
        0 <= i < members.len() && (#[trigger] members[i]).0 == name && (forall|j: int|
            i < j < members.len() ==> (#[trigger] members[j]).0 != name) implies by_name(
        members,
    )[name] == members[i].1 by {
        lemma_by_name_last(members, i);
    }
}

/// A document in memory stands for what it holds: each scalar for itself, an array for its items in
/// order, an object for its members by name.
pub proof fn law_json_stands_for_what_it_holds(json: Json)
    ensures
        match json {
            Json::Null => json@ == JsonView::Null,
            Json::Bool(b) => json@ == JsonView::Bool(b),
            Json::Number(n) => json@ == JsonView::Number(n),
            Json::Text(s) => json@ == JsonView::Text(s@),
            Json::Array(items) => json@ matches JsonView::Array(views) && views.len()
                == items@.len() && (forall|i: int|
                0 <= i < views.len() ==> #[trigger] views[i] == items@[i]@),
            Json::Object(members) => json@ matches JsonView::Object(map) && map == by_name(
                members@.map_values(|m: (String, Json)| (m.0@, m.1@)),
            ),
        },
{
    if let Json::Object(members) = json {
        assert(members_view(members@) =~= members@.map_values(
            |m: (String, Json)| (m.0@, m.1@),
        ));
    }
}

/// Only an object has members, and a member is what the object holds under its name, be it null.
pub proof fn law_member(json: JsonView, name: Seq<char>)
    ensures
        json matches JsonView::Object(map) ==> {
            &&& map.contains_key(name) ==> member(json, name) == Some(map[name])
            &&& !map.contains_key(name) ==> member(json, name) is None
        },
        !(json is Object) ==> member(json, name) is None,
{
}

} // verus!
