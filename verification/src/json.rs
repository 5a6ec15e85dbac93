//! JSON documents, as far as the gateway writes them.
use vstd::prelude::*;

verus! {

/// A JSON document. An integer is any that a JSON reader takes for one; a number with a
/// fraction is held by the bits of its binary64 form.
#[derive(Debug)]
pub enum Json {
    Null,
    Bool(bool),
    Int(i128),
    Double(u64),
    Text(String),
    Array(Vec<Json>),
    Object(Vec<(String, Json)>),
}

/// The model of a [`Json`].
pub enum JsonModel {
    Null,
    Bool(bool),
    Int(int),
    Double(u64),
    Text(Seq<char>),
    Array(Seq<JsonModel>),
    Object(Seq<(Seq<char>, JsonModel)>),
}

pub open spec fn json_model(value: Json) -> JsonModel
    decreases value,
{
    match value {
        Json::Null => JsonModel::Null,
        Json::Bool(b) => JsonModel::Bool(b),
        Json::Int(n) => JsonModel::Int(n as int),
        Json::Double(bits) => JsonModel::Double(bits),
        Json::Text(s) => JsonModel::Text(s@),
        Json::Array(items) => JsonModel::Array(item_models(items@)),
        Json::Object(members) => JsonModel::Object(member_models(members@)),
    }
}

pub open spec fn item_models(items: Seq<Json>) -> Seq<JsonModel>
    decreases items,
{
    if items.len() == 0 {
        Seq::empty()
    } else {
        item_models(items.drop_last()).push(json_model(items.last()))
    }
}

pub open spec fn member_models(members: Seq<(String, Json)>) -> Seq<(Seq<char>, JsonModel)>
    decreases members,
{
    if members.len() == 0 {
        Seq::empty()
    } else {
        member_models(members.drop_last()).push((members.last().0@, json_model(members.last().1)))
    }
}

impl View for Json {
    type V = JsonModel;

    open spec fn view(&self) -> JsonModel {
        json_model(*self)
    }
}

pub proof fn lemma_items_push(items: Seq<Json>, item: Json)
    ensures
        item_models(items.push(item)) == item_models(items).push(item@),
{
    assert(items.push(item).drop_last() =~= items);
}

/// The models of items are the models of the items, one for one.
pub proof fn lemma_item_models(items: Seq<Json>)
    ensures
        item_models(items).len() == items.len(),
        forall|i: int| 0 <= i < items.len() ==> item_models(items)[i] == (#[trigger] items[i])@,
    decreases items.len(),
{
    if items.len() > 0 {
        lemma_item_models(items.drop_last());
        assert forall|i: int| 0 <= i < items.len() implies item_models(items)[i]
            == (#[trigger] items[i])@ by {
            if i < items.len() - 1 {
                assert(items.drop_last()[i] == items[i]);
            }
        }
    }
}

proof fn lemma_members_push(members: Seq<(String, Json)>, member: (String, Json))
    ensures
        member_models(members.push(member)) == member_models(members).push(
            (member.0@, member.1@),
        ),
{
    assert(members.push(member).drop_last() =~= members);
}

/// The models of members are the models of the members, one for one.
pub proof fn lemma_member_models(members: Seq<(String, Json)>)
    ensures
        member_models(members).len() == members.len(),
        forall|i: int|
            0 <= i < members.len() ==> member_models(members)[i] == (
                (#[trigger] members[i]).0@,
                members[i].1@,
            ),
    decreases members.len(),
{
    if members.len() > 0 {
        lemma_member_models(members.drop_last());
        assert forall|i: int| 0 <= i < members.len() implies member_models(members)[i] == (
            (#[trigger] members[i]).0@,
            members[i].1@,
        ) by {
            if i < members.len() - 1 {
                assert(members.drop_last()[i] == members[i]);
            }
        }
    }
}

/// Where the first member of a name, from `from` on, stands: behind all members where there
/// is none.
pub open spec fn position(
    members: Seq<(Seq<char>, JsonModel)>,
    name: Seq<char>,
    from: int,
) -> int
    decreases members.len() - from,
{
    if from >= members.len() {
        members.len() as int
    } else if members[from].0 == name {
        from
    } else {
        position(members, name, from + 1)
    }
}

/// The members with one of a name: it takes the place of the one that had the name, or else
/// stands behind the others.
pub open spec fn with_member(
    members: Seq<(Seq<char>, JsonModel)>,
    name: Seq<char>,
    value: JsonModel,
) -> Seq<(Seq<char>, JsonModel)> {
    let place = position(members, name, 0);
    if place < members.len() {
        members.update(place, (name, value))
    } else {
        members.push((name, value))
    }
}

/// Whether no two members have one name.
pub open spec fn names_differ(members: Seq<(Seq<char>, JsonModel)>) -> bool {
    forall|i: int, j: int|
        0 <= i < j < members.len() ==> (#[trigger] members[i]).0 != (#[trigger] members[j]).0
}

/// Whether a document is an object that gives a name a value, and no other value.
pub open spec fn has_member(document: JsonModel, name: Seq<char>, value: JsonModel) -> bool {
    document matches JsonModel::Object(members) && members.contains((name, value)) && (forall|
        i: int,
    |
        0 <= i < members.len() && (#[trigger] members[i]).0 == name ==> members[i].1 == value)
}

/// How many members a document has.
pub open spec fn member_count(document: JsonModel) -> nat {
    match document {
        JsonModel::Object(members) => members.len(),
        _ => 0,
    }
}

/// Where no two members have one name, each of them is there with its value and no other.
pub proof fn lemma_member_is_there(members: Seq<(Seq<char>, JsonModel)>, i: int)
    requires
        names_differ(members),
        0 <= i < members.len(),
    ensures
        has_member(JsonModel::Object(members), members[i].0, members[i].1),
{
    assert(members.contains((members[i].0, members[i].1)));
    assert forall|k: int|
        0 <= k < members.len() && (#[trigger] members[k]).0 == members[i].0 implies members[k].1
        == members[i].1 by {
        if k < i {
            assert(members[k].0 != members[i].0);
        } else if i < k {
            assert(members[i].0 != members[k].0);
        }
    }
}

/// What `position` finds is the first member of the name.
pub proof fn lemma_position(members: Seq<(Seq<char>, JsonModel)>, name: Seq<char>, from: int)
    requires
        0 <= from <= members.len(),
    ensures
        from <= position(members, name, from) <= members.len(),
        position(members, name, from) < members.len() ==> members[position(
            members,
            name,
            from,
        )].0 == name,
        forall|i: int|
            from <= i < position(members, name, from) ==> (#[trigger] members[i]).0 != name,
    decreases members.len() - from,
{
    if from < members.len() && members[from].0 != name {
        lemma_position(members, name, from + 1);
    }
}

/// A member that is set is there with its value, no other member has its name where no two
/// had one name before, and every member of another name stays. It takes the place of the one
/// that had the name, and stands behind all members where none had it.
pub proof fn setting_a_member_replaces_it(
    members: Seq<(Seq<char>, JsonModel)>,
    name: Seq<char>,
    value: JsonModel,
)
    ensures
        with_member(members, name, value).contains((name, value)),
        names_differ(members) ==> names_differ(with_member(members, name, value)),
        forall|i: int|
            0 <= i < members.len() && (#[trigger] members[i]).0 != name ==> with_member(
                members,
                name,
                value,
            )[i] == members[i],
        (exists|i: int| 0 <= i < members.len() && (#[trigger] members[i]).0 == name)
            ==> with_member(members, name, value).len() == members.len(),
        (forall|i: int| 0 <= i < members.len() ==> (#[trigger] members[i]).0 != name)
            ==> with_member(members, name, value) == members.push((name, value)),
{
    lemma_position(members, name, 0);
    let place = position(members, name, 0);
    let after = with_member(members, name, value);
    assert(after[place] == (name, value));
    if names_differ(members) {
        assert forall|i: int, j: int| 0 <= i < j < after.len() implies (#[trigger] after[i]).0 != (
        #[trigger] after[j]).0 by {
            if i < members.len() {
                assert(after[i].0 == members[i].0);
            }
            if j < members.len() {
                assert(after[j].0 == members[j].0);
            }
        }
    }
}

/// A string.
pub fn text(value: &str) -> (r: Json)
    ensures
        r@ == JsonModel::Text(value@),
{
    Json::Text(value.to_owned())
}

/// The model of a string that may be absent, for which JSON has `null`.
pub open spec fn optional_text(value: Option<Seq<char>>) -> JsonModel {
    match value {
        Some(value) => JsonModel::Text(value),
        None => JsonModel::Null,
    }
}

/// A string, or `null` where there is none.
pub fn text_or_null(value: &Option<String>) -> (r: Json)
    ensures
        r@ == optional_text(crate::config::optional(*value)),
{
    match value {
        Some(value) => text(value.as_str()),
        None => Json::Null,
    }
}

/// The items of an array, put together one by one.
pub struct Items {
    list: Vec<Json>,
}

impl View for Items {
    type V = Seq<JsonModel>;

    closed spec fn view(&self) -> Seq<JsonModel> {
        item_models(self.list@)
    }
}

impl Items {
    pub fn new() -> (r: Items)
        ensures
            r@ == Seq::<JsonModel>::empty(),
    {
        Items { list: Vec::new() }
    }

    /// Puts an item behind the others.
    pub fn put(&mut self, item: Json)
        ensures
            final(self)@ == old(self)@.push(item@),
    {
        proof {
            lemma_items_push(self.list@, item);
        }
        self.list.push(item);
    }

    /// The array of the items.
    pub fn array(self) -> (r: Json)
        ensures
            r@ == JsonModel::Array(self@),
    {
        Json::Array(self.list)
    }
}

/// The members of an object, put together one by one.
pub struct Members {
    list: Vec<(String, Json)>,
}

impl View for Members {
    type V = Seq<(Seq<char>, JsonModel)>;

    closed spec fn view(&self) -> Seq<(Seq<char>, JsonModel)> {
        member_models(self.list@)
    }
}

impl Members {
    pub fn new() -> (r: Members)
        ensures
            r@ == Seq::<(Seq<char>, JsonModel)>::empty(),
    {
        Members { list: Vec::new() }
    }

    /// Copies of members.
    pub fn of(members: &Vec<(String, Json)>) -> (r: Members)
        ensures
            r@ == member_models(members@),
    {
        let mut r = Members::new();
        let mut i: usize = 0;
        while i < members.len()
            invariant
                i <= members@.len(),
                r@ == member_models(members@.take(i as int)),
            decreases members@.len() - i,
        {
            assert(members@.take(i + 1).drop_last() =~= members@.take(i as int));
            r.put(members[i].0.as_str(), members[i].1.clone());
            i += 1;
        }
        assert(members@.take(members@.len() as int) =~= members@);
        r
    }

    /// Puts a member behind the others, for a name that none of them has.
    pub fn put(&mut self, name: &str, value: Json)
        ensures
            final(self)@ == old(self)@.push((name@, value@)),
    {
        let member = (name.to_owned(), value);
        proof {
            lemma_members_push(self.list@, member);
        }
        self.list.push(member);
    }

    /// Gives a name its value: a member that had the name is replaced.
    pub fn set(&mut self, name: &str, value: Json)
        ensures
            final(self)@ == with_member(old(self)@, name@, value@),
    {
        let ghost before = self.list@;
        let ghost models = member_models(before);
        proof {
            lemma_member_models(before);
        }
        let mut i: usize = 0;
        while i < self.list.len()
            invariant
                i <= self.list@.len(),
                self.list@ == before,
                before == old(self).list@,
                models == member_models(before),
                models.len() == before.len(),
                forall|j: int|
                    0 <= j < before.len() ==> models[j] == (
                        (#[trigger] before[j]).0@,
                        before[j].1@,
                    ),
                position(models, name@, 0) == position(models, name@, i as int),
            decreases self.list@.len() - i,
        {
            assert(models[i as int] == (before[i as int].0@, before[i as int].1@));
            if crate::text::same_text(self.list[i].0.as_str(), name) {
                let member = (name.to_owned(), value);
                self.list.set(i, member);
                proof {
                    lemma_member_models(self.list@);
                    let after = models.update(i as int, (name@, value@));
                    assert forall|j: int| 0 <= j < after.len() implies member_models(self.list@)[j]
                        == #[trigger] after[j] by {
                        assert(self.list@[j] == if j == i {
                            member
                        } else {
                            before[j]
                        });
                    }
                    assert(member_models(self.list@) =~= after);
                }
                return;
            }
            i += 1;
        }
        let member = (name.to_owned(), value);
        proof {
            lemma_members_push(self.list@, member);
        }
        self.list.push(member);
    }

    /// The object of the members.
    pub fn object(self) -> (r: Json)
        ensures
            r@ == JsonModel::Object(self@),
    {
        Json::Object(self.list)
    }
}

// ---------------------------------------------------------------------------
// Copies
// ---------------------------------------------------------------------------

fn copy(document: &Json) -> (r: Json)
    ensures
        r@ == document@,
    decreases document,
{
    match document {
        Json::Null => Json::Null,
        Json::Bool(b) => Json::Bool(*b),
        Json::Int(n) => Json::Int(*n),
        Json::Double(bits) => Json::Double(*bits),
        Json::Text(s) => Json::Text(s.clone()),
        Json::Array(items) => array_of(items),
        Json::Object(members) => copy_object(members),
    }
}

/// The array of copies of the items.
pub fn array_of(items: &Vec<Json>) -> (r: Json)
    ensures
        r@ == JsonModel::Array(item_models(items@)),
    decreases items,
{
    let mut r = Items::new();
    let mut i: usize = 0;
    while i < items.len()
        invariant
            i <= items@.len(),
            r@ == item_models(items@.take(i as int)),
        decreases items@.len() - i,
    {
        assert(items@.take(i + 1).drop_last() =~= items@.take(i as int));
        r.put(copy(&items[i]));
        i += 1;
    }
    assert(items@.take(items@.len() as int) =~= items@);
    r.array()
}

fn copy_object(members: &Vec<(String, Json)>) -> (r: Json)
    ensures
        r@ == JsonModel::Object(member_models(members@)),
    decreases members,
{
    let mut r = Members::new();
    let mut i: usize = 0;
    while i < members.len()
        invariant
            i <= members@.len(),
            r@ == member_models(members@.take(i as int)),
        decreases members@.len() - i,
    {
        assert(members@.take(i + 1).drop_last() =~= members@.take(i as int));
        r.put(members[i].0.as_str(), copy(&members[i].1));
        i += 1;
    }
    assert(members@.take(members@.len() as int) =~= members@);
    r.object()
}

impl Clone for Json {
    fn clone(&self) -> (r: Self)
        ensures
            r@ == self@,
    {
        copy(self)
    }
}

// ---------------------------------------------------------------------------
// Laws
// ---------------------------------------------------------------------------

/// A document is seen as it is: two plain values are seen alike exactly where they are the same
/// value.
pub proof fn plain_values_are_seen_as_they_are(
    a: bool,
    b: bool,
    m: i128,
    n: i128,
    x: u64,
    y: u64,
    s: String,
    t: String,
)
    ensures
        Json::Null@ is Null,
        Json::Bool(a)@ == JsonModel::Bool(a),
        Json::Int(m)@ == JsonModel::Int(m as int),
        Json::Double(x)@ == JsonModel::Double(x),
        Json::Text(s)@ == JsonModel::Text(s@),
        Json::Bool(a)@ == Json::Bool(b)@ <==> a == b,
        Json::Int(m)@ == Json::Int(n)@ <==> m == n,
        Json::Double(x)@ == Json::Double(y)@ <==> x == y,
        Json::Text(s)@ == Json::Text(t)@ <==> s@ == t@,
{
}

/// An array is seen as its items, one for one, and an object as its members.
pub proof fn documents_are_seen_part_by_part(
    items: Vec<Json>,
    i: int,
    members: Vec<(String, Json)>,
    j: int,
)
    ensures
        Json::Array(items)@ matches JsonModel::Array(list) && list.len() == items@.len() && (0 <= i
            < items@.len() ==> list[i] == items@[i]@),
        Json::Object(members)@ matches JsonModel::Object(list) && list.len() == members@.len() && (0
            <= j < members@.len() ==> list[j].0 == members@[j].0@ && list[j].1
            == members@[j].1@),
{
    lemma_item_models(items@);
    lemma_member_models(members@);
}

/// A copy of a document is seen as the document is; text that is there is text, and text that is
/// not is `null`.
pub proof fn copies_and_texts_are_seen_as_given(
    document: &Json,
    copied: Json,
    value: &str,
    told: Json,
    given: &Option<String>,
    shown: Json,
    items: &Vec<Json>,
    array: Json,
    i: int,
)
    requires
        call_ensures(Json::clone, (document,), copied),
        call_ensures(text, (value,), told),
        call_ensures(text_or_null, (given,), shown),
        call_ensures(array_of, (items,), array),
    ensures
        copied@ == document@,
        told@ == JsonModel::Text(value@),
        given is None ==> shown@ is Null,
        given matches Some(inner) ==> shown@ == JsonModel::Text(inner@),
        array@ matches JsonModel::Array(list) && list.len() == items@.len() && (0 <= i
            < items@.len() ==> list[i] == items@[i]@),
{
    lemma_item_models(items@);
}

/// Members and items stand in the order in which they are put, and a member that is set replaces
/// the one that had its name.
pub proof fn parts_stand_in_the_order_they_are_put(
    items: &mut Items,
    item: Json,
    members: &mut Members,
    name: &str,
    value: Json,
)
    requires
        call_ensures(Items::put, (items, item), ()),
        call_ensures(Members::put, (members, name, value), ()),
    ensures
        final(items)@ == old(items)@ + seq![item@],
        final(members)@ == old(members)@ + seq![(name@, value@)],
{
    assert(final(items)@ =~= old(items)@ + seq![item@]);
    assert(final(members)@ =~= old(members)@ + seq![(name@, value@)]);
}

/// A member that is set has its value and no other, where no two members had one name, and every
/// member of another name stays in its place.
pub proof fn members_are_set_by_name(members: &mut Members, name: &str, value: Json, i: int)
    requires
        call_ensures(Members::set, (members, name, value), ()),
        names_differ(old(members)@),
    ensures
        has_member(JsonModel::Object(final(members)@), name@, value@),
        names_differ(final(members)@),
        0 <= i < old(members)@.len() && old(members)@[i].0 != name@ ==> final(members)@[i]
            == old(members)@[i],
{
    let after = final(members)@;
    setting_a_member_replaces_it(old(members)@, name@, value@);
    let k = choose|k: int| 0 <= k < after.len() && after[k] == (name@, value@);
    lemma_member_is_there(after, k);
}

} // verus!
