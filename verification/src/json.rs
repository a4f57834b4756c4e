//! The JSON documents that request bodies are made of.
//!
//! A body is an object whose members keep the order in which they were
//! written. Its leaves are text, unsigned integers and double-precision
//! numbers; there is no `null`, so a member that has no value is not there.

use vstd::prelude::*;

verus! {

/// A double-precision number, held by its IEEE 754 bit pattern.
///
/// The library stores such a number and hands it on; it never computes with
/// it.
#[derive(Debug, Clone, Copy, PartialEq, Eq, Hash)]
pub struct Number {
    pub bits: u64,
}

impl Number {
    /// The number with the given bit pattern.
    pub fn from_bits(bits: u64) -> (number: Number)
        ensures
            number.bits == bits,
    {
        Number { bits }
    }

    /// The bit pattern of the number.
    pub fn to_bits(self) -> (bits: u64)
        ensures
            bits == self.bits,
    {
        self.bits
    }
}

/// A JSON document.
#[derive(Debug, PartialEq, Eq)]
pub enum Json {
    /// A string.
    Text(String),
    /// A non-negative integer.
    Unsigned(u32),
    /// A double-precision number.
    Real(Number),
    /// An array.
    List(Vec<Json>),
    /// An object: its members, in the order in which they are written.
    Object(Vec<(String, Json)>),
}

/// What a [`Json`] document holds.
pub enum JsonView {
    Text(Seq<char>),
    Unsigned(u32),
    Real(Number),
    List(Seq<JsonView>),
    Object(Seq<(Seq<char>, JsonView)>),
}

impl JsonView {
    /// The value of the first member called `name`, if the document is an
    /// object that has such a member.
    pub open spec fn member(self, name: Seq<char>) -> Option<JsonView> {
        match self {
            JsonView::Object(members) => first_named(members, name),
            _ => None,
        }
    }
}

/// The value of the first of `members` that is called `name`.
pub open spec fn first_named(members: Seq<(Seq<char>, JsonView)>, name: Seq<char>) -> Option<
    JsonView,
>
    decreases members.len(),
{
    if members.len() == 0 {
        None
    } else if members[0].0 == name {
        Some(members[0].1)
    } else {
        first_named(members.drop_first(), name)
    }
}

/// The one member `name: value` if there is a value, no member if there is
/// none.
pub open spec fn optional_member(name: Seq<char>, value: Option<JsonView>) -> Seq<
    (Seq<char>, JsonView),
> {
    match value {
        Some(value) => seq![(name, value)],
        None => Seq::empty(),
    }
}

impl View for Json {
    type V = JsonView;

    open spec fn view(&self) -> JsonView
        decreases self,
    {
        match self {
            Json::Text(text) => JsonView::Text(text@),
            Json::Unsigned(n) => JsonView::Unsigned(*n),
            Json::Real(x) => JsonView::Real(*x),
            Json::List(items) => JsonView::List(items_view(items@)),
            Json::Object(members) => JsonView::Object(members_view(members@)),
        }
    }
}

/// What the items of an array hold, item by item.
pub open spec fn items_view(items: Seq<Json>) -> Seq<JsonView>
    decreases items,
{
    Seq::new(
        items.len(),
        |i: int|
            if 0 <= i < items.len() {
                items[i]@
            } else {
                arbitrary()
            },
    )
}

/// What the members of an object hold, member by member.
pub open spec fn members_view(members: Seq<(String, Json)>) -> Seq<(Seq<char>, JsonView)>
    decreases members,
{
    Seq::new(
        members.len(),
        |i: int|
            if 0 <= i < members.len() {
                (members[i].0@, members[i].1@)
            } else {
                arbitrary()
            },
    )
}

impl Json {
    /// The value of the first member called `name`, if the document is an
    /// object that has such a member.
    pub fn get(&self, name: &str) -> (value: Option<&Json>)
        ensures
            match value {
                Some(value) => self@.member(name@) == Some(value@),
                None => self@.member(name@) is None,
            },
    {
        match self {
            Json::Object(members) => {
                let wanted = name.to_owned();
                let mut i: usize = 0;
                while i < members.len()
                    invariant
                        i <= members@.len(),
                        wanted@ == name@,
                        self@ == JsonView::Object(members_view(members@)),
                        forall|j: int|
                            0 <= j < i ==> (#[trigger] members_view(members@)[j]).0 != name@,
                    decreases members@.len() - i,
                {
                    if members[i].0 == wanted {
                        proof {
                            assert(members_view(members@)[i as int] == (
                                members@[i as int].0@,
                                members@[i as int].1@,
                            ));
                            lemma_first_named_found(members_view(members@), name@, i as int);
                        }
                        return Some(&members[i].1);
                    }
                    assert(members_view(members@)[i as int].0 == members@[i as int].0@);
                    i += 1;
                }
                proof {
                    lemma_first_named_missing(members_view(members@), name@);
                }
                None
            },
            _ => None,
        }
    }
}

/// The first member called `name` is the one before which no member is
/// called so.
pub proof fn lemma_first_named_found(
    members: Seq<(Seq<char>, JsonView)>,
    name: Seq<char>,
    i: int,
)
    requires
        0 <= i < members.len(),
        members[i].0 == name,
        forall|j: int| 0 <= j < i ==> (#[trigger] members[j]).0 != name,
    ensures
        first_named(members, name) == Some(members[i].1),
    decreases i,
{
    if i > 0 {
        let rest = members.drop_first();
        assert(forall|j: int| 0 <= j < i - 1 ==> #[trigger] rest[j] == members[j + 1]);
        lemma_first_named_found(rest, name, i - 1);
    }
}

/// Where no member is called `name`, none is found.
pub proof fn lemma_first_named_missing(members: Seq<(Seq<char>, JsonView)>, name: Seq<char>)
    requires
        forall|j: int| 0 <= j < members.len() ==> (#[trigger] members[j]).0 != name,
    ensures
        first_named(members, name) is None,
    decreases members.len(),
{
    if members.len() > 0 {
        let rest = members.drop_first();
        assert(forall|j: int| 0 <= j < rest.len() ==> #[trigger] rest[j] == members[j + 1]);
        lemma_first_named_missing(rest, name);
    }
}

/// In members written one run after another, a name is looked for in the
/// first run, and in the second only where the first has none of that name.
pub proof fn lemma_first_named_concat(
    front: Seq<(Seq<char>, JsonView)>,
    back: Seq<(Seq<char>, JsonView)>,
    name: Seq<char>,
)
    ensures
        first_named(front + back, name) == match first_named(front, name) {
            Some(value) => Some(value),
            None => first_named(back, name),
        },
    decreases front.len(),
{
    if front.len() == 0 {
        assert(front + back =~= back);
    } else {
        assert((front + back).drop_first() =~= front.drop_first() + back);
        lemma_first_named_concat(front.drop_first(), back, name);
    }
}

/// An optional member is found under its own name, where it has a value, and
/// under no other.
pub proof fn lemma_first_named_optional(
    member: Seq<char>,
    value: Option<JsonView>,
    name: Seq<char>,
)
    ensures
        first_named(optional_member(member, value), name) == if name == member {
            value
        } else {
            None
        },
{
    if let Some(value) = value {
        let one = seq![(member, value)];
        assert(one.len() == 1 && one[0] == (member, value));
        assert(first_named(one.drop_first(), name) is None);
    }
}

/// Appending an item to an array appends what it holds.
pub proof fn lemma_items_view_push(items: Seq<Json>, item: Json)
    ensures
        items_view(items.push(item)) == items_view(items).push(item@),
{
    assert(items_view(items.push(item)) =~= items_view(items).push(item@));
}

/// Appending a member to an object appends its name and what it holds.
pub proof fn lemma_members_view_push(members: Seq<(String, Json)>, member: (String, Json))
    ensures
        members_view(members.push(member)) == members_view(members).push(
            (member.0@, member.1@),
        ),
{
    assert(members_view(members.push(member)) =~= members_view(members).push(
        (member.0@, member.1@),
    ));
}

} // verus!
