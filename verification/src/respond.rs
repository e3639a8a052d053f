//! Values as JSON text.
//!
//! Text is put between double quotes as it is, without escaping; numbers
//! and truth values are written out; a list gives its items, which are
//! taken to be JSON already, between square brackets; an object gives its
//! members between braces, in the order in which they were first set.

use crate::decimal::{decimal, decimal_string};
use vstd::prelude::*;
use vstd::string::*;

verus! {

/// `text` between double quotes.
pub open spec fn quoted(text: Seq<char>) -> Seq<char> {
    "\""@ + text + "\""@
}

/// The items with a comma between each two of them.
pub open spec fn joined(items: Seq<Seq<char>>) -> Seq<char>
    decreases items.len(),
{
    if items.len() == 0 {
        Seq::empty()
    } else if items.len() == 1 {
        items[0]
    } else {
        joined(items.drop_last()) + ","@ + items.last()
    }
}

/// The JSON text of a list of items.
pub open spec fn list_text(items: Seq<Seq<char>>) -> Seq<char> {
    "["@ + joined(items) + "]"@
}

/// The JSON text of a member: the key between quotes, a colon, the value.
pub open spec fn member_text(member: (Seq<char>, Seq<char>)) -> Seq<char> {
    quoted(member.0) + ":"@ + member.1
}

/// The JSON text of an object with the given members.
pub open spec fn object_text(members: Seq<(Seq<char>, Seq<char>)>) -> Seq<char> {
    "{"@ + joined(members.map_values(|member: (Seq<char>, Seq<char>)| member_text(member)))
        + "}"@
}

/// The views of a list of strings.
pub open spec fn texts(items: Seq<String>) -> Seq<Seq<char>> {
    items.map_values(|item: String| item@)
}

/// The position of the member with the key `key`, or the number of members
/// where there is none.
pub open spec fn position_of(members: Seq<(Seq<char>, Seq<char>)>, key: Seq<char>) -> int
    decreases members.len(),
{
    if members.len() == 0 {
        0
    } else if members[0].0 == key {
        0
    } else {
        1 + position_of(members.drop_first(), key)
    }
}

/// The members after `key` was set to `value`: the member of this key takes
/// the new value at its place; a new key goes to the end.
pub open spec fn with_member(
    members: Seq<(Seq<char>, Seq<char>)>,
    key: Seq<char>,
    value: Seq<char>,
) -> Seq<(Seq<char>, Seq<char>)> {
    let at = position_of(members, key);
    if 0 <= at < members.len() {
        members.update(at, (key, value))
    } else {
        members.push((key, value))
    }
}

/// Whether no two members have the same key.
pub open spec fn distinct_keys(members: Seq<(Seq<char>, Seq<char>)>) -> bool {
    forall|i: int, j: int|
        0 <= i < j < members.len() ==> (#[trigger] members[i]).0 != (#[trigger] members[j]).0
}

/// `position_of` stays within the members, points at the key unless it ran
/// off the end, and passes no member of that key on its way.
pub proof fn lemma_position_of(members: Seq<(Seq<char>, Seq<char>)>, key: Seq<char>)
    ensures
        0 <= position_of(members, key) <= members.len(),
        position_of(members, key) < members.len() ==> members[position_of(members, key)].0
            == key,
        forall|j: int| 0 <= j < position_of(members, key) ==> (#[trigger] members[j]).0 != key,
    decreases members.len(),
{
    if members.len() > 0 && members[0].0 != key {
        let rest = members.drop_first();
        lemma_position_of(rest, key);
        assert forall|j: int| 0 <= j < position_of(members, key) implies (
        #[trigger] members[j]).0 != key by {
            if j > 0 {
                assert(members[j] == rest[j - 1]);
            }
        }
        if position_of(members, key) < members.len() {
            assert(members[position_of(members, key)] == rest[position_of(rest, key)]);
        }
    }
}

/// Setting a member keeps the keys distinct.
pub proof fn lemma_with_member_distinct(
    members: Seq<(Seq<char>, Seq<char>)>,
    key: Seq<char>,
    value: Seq<char>,
)
    requires
        distinct_keys(members),
    ensures
        distinct_keys(with_member(members, key, value)),
{
    lemma_position_of(members, key);
    let at = position_of(members, key);
    let after = with_member(members, key, value);
    assert forall|i: int, j: int| 0 <= i < j < after.len() implies (#[trigger] after[i]).0 != (
    #[trigger] after[j]).0 by {
        if at < members.len() {
            assert(after[i].0 == members[i].0);
            assert(after[j].0 == members[j].0);
        } else if j == members.len() {
            assert(after[i] == members[i]);
        } else {
            assert(after[i] == members[i]);
            assert(after[j] == members[j]);
        }
    }
}

/// What can be written as JSON text.
pub trait Respond {
    /// The JSON text of this value.
    spec fn json(&self) -> Seq<char>;

    /// The JSON text of this value.
    fn get_json(&self) -> (text: String)
        ensures
            text@ == self.json(),
    ;
}

/// `text` between double quotes.
fn quote(text: &str) -> (out: String)
    ensures
        out@ == quoted(text@),
{
    let mut out = String::from_str("\"");
    out.append(text);
    out.append("\"");
    out
}

impl Respond for String {
    open spec fn json(&self) -> Seq<char> {
        quoted(self@)
    }

    fn get_json(&self) -> (text: String) {
        quote(self.as_str())
    }
}

impl Respond for &str {
    open spec fn json(&self) -> Seq<char> {
        quoted(self@)
    }

    fn get_json(&self) -> (text: String) {
        quote(self)
    }
}

impl Respond for bool {
    open spec fn json(&self) -> Seq<char> {
        if *self {
            "true"@
        } else {
            "false"@
        }
    }

    fn get_json(&self) -> (text: String) {
        if *self {
            String::from_str("true")
        } else {
            String::from_str("false")
        }
    }
}

impl Respond for u8 {
    open spec fn json(&self) -> Seq<char> {
        decimal(*self as nat)
    }

    fn get_json(&self) -> (text: String) {
        decimal_string(*self as u64)
    }
}

impl Respond for Vec<String> {
    open spec fn json(&self) -> Seq<char> {
        list_text(texts(self@))
    }

    fn get_json(&self) -> (text: String) {
        let mut text = String::from_str("[");
        let mut i: usize = 0;
        let ghost items = texts(self@);
        assert(items.take(0) =~= Seq::empty());
        while i < self.len()
            invariant
                i <= self@.len(),
                items == texts(self@),
                text@ == "["@ + joined(items.take(i as int)),
            decreases self@.len() - i,
        {
            proof {
                let before = items.take(i as int);
                let now = items.take(i + 1);
                assert(now.drop_last() =~= before);
                assert(now.last() == self@[i as int]@);
                if i == 0 {
                    assert("["@ + joined(before) + self@[i as int]@ =~= "["@ + joined(now));
                } else {
                    assert("["@ + joined(before) + ","@ + self@[i as int]@ =~= "["@ + joined(
                        now,
                    ));
                }
            }
            if i > 0 {
                text.append(",");
            }
            text.append(self[i].as_str());
            i += 1;
        }
        assert(items.take(i as int) =~= items);
        text.append("]");
        text
    }
}

/// A JSON object: members, each a key and the JSON text of its value, in
/// the order in which the keys were first set. An object that was made
/// empty and filled by `insert` has no key twice.
#[derive(Clone, Debug, PartialEq)]
pub struct JsonObject {
    members: Vec<(String, String)>,
}

impl View for JsonObject {
    type V = Seq<(Seq<char>, Seq<char>)>;

    closed spec fn view(&self) -> Seq<(Seq<char>, Seq<char>)> {
        self.members@.map_values(|member: (String, String)| (member.0@, member.1@))
    }
}

impl JsonObject {
    /// An object without members.
    pub fn new() -> (object: JsonObject)
        ensures
            object@ == Seq::<(Seq<char>, Seq<char>)>::empty(),
    {
        let object = JsonObject { members: Vec::new() };
        assert(object@ =~= Seq::empty());
        object
    }

    /// The number of members.
    pub fn len(&self) -> (n: usize)
        ensures
            n == self@.len(),
    {
        self.members.len()
    }

    /// Sets the member `key` to the JSON text `value`.
    pub fn insert_json(&mut self, key: &str, value: String)
        ensures
            final(self)@ == with_member(old(self)@, key@, value@),
            distinct_keys(old(self)@) ==> distinct_keys(final(self)@),
    {
        proof {
            lemma_position_of(self@, key@);
            if distinct_keys(self@) {
                lemma_with_member_distinct(self@, key@, value@);
            }
        }
        let wanted = String::from_str(key);
        let mut i: usize = 0;
        while i < self.members.len()
            invariant
                i <= self.members@.len(),
                wanted@ == key@,
                forall|j: int| 0 <= j < i ==> (#[trigger] self@[j]).0 != key@,
            ensures
                i <= self.members@.len(),
                i < self.members@.len() ==> self@[i as int].0 == key@,
                forall|j: int| 0 <= j < i ==> (#[trigger] self@[j]).0 != key@,
            decreases self.members@.len() - i,
        {
            if self.members[i].0 == wanted {
                break ;
            }
            i += 1;
        }
        proof {
            lemma_position_unique(self@, key@, i as int);
        }
        if i < self.members.len() {
            self.members.set(i, (wanted, value));
            assert(self@ =~= with_member(old(self)@, key@, value@));
        } else {
            self.members.push((wanted, value));
            assert(self@ =~= with_member(old(self)@, key@, value@));
        }
    }

    /// Sets the member `key` to `value`.
    pub fn insert<T: Respond>(&mut self, key: &str, value: &T)
        ensures
            final(self)@ == with_member(old(self)@, key@, value.json()),
            distinct_keys(old(self)@) ==> distinct_keys(final(self)@),
    {
        let text = value.get_json();
        self.insert_json(key, text);
    }

    /// The JSON text of the member `key`, if the object has it.
    pub fn get(&self, key: &str) -> (value: Option<&str>)
        ensures
            position_of(self@, key@) < self@.len() ==> value is Some && value->0@
                == self@[position_of(self@, key@)].1,
            position_of(self@, key@) >= self@.len() ==> value is None,
    {
        let wanted = String::from_str(key);
        let mut i: usize = 0;
        while i < self.members.len()
            invariant
                i <= self.members@.len(),
                wanted@ == key@,
                forall|j: int| 0 <= j < i ==> (#[trigger] self@[j]).0 != key@,
            decreases self.members@.len() - i,
        {
            if self.members[i].0 == wanted {
                proof {
                    lemma_position_unique(self@, key@, i as int);
                }
                return Some(self.members[i].1.as_str());
            }
            i += 1;
        }
        proof {
            lemma_position_unique(self@, key@, i as int);
        }
        None
    }
}

/// A position that holds the key and has no member of that key before it
/// is `position_of`.
pub proof fn lemma_position_unique(members: Seq<(Seq<char>, Seq<char>)>, key: Seq<char>, at: int)
    requires
        0 <= at <= members.len(),
        at < members.len() ==> members[at].0 == key,
        forall|j: int| 0 <= j < at ==> (#[trigger] members[j]).0 != key,
    ensures
        position_of(members, key) == at,
{
    lemma_position_of(members, key);
    let found = position_of(members, key);
    if found < at {
        assert(members[found].0 == key);
    } else if found > at {
        assert(members[at].0 != key);
    }
}

impl Respond for JsonObject {
    open spec fn json(&self) -> Seq<char> {
        object_text(self@)
    }

    fn get_json(&self) -> (text: String) {
        let mut text = String::from_str("{");
        let mut i: usize = 0;
        let ghost items = self@.map_values(|member: (Seq<char>, Seq<char>)| member_text(member));
        assert(items.take(0) =~= Seq::empty());
        while i < self.members.len()
            invariant
                i <= self.members@.len(),
                items == self@.map_values(|member: (Seq<char>, Seq<char>)| member_text(member)),
                text@ == "{"@ + joined(items.take(i as int)),
            decreases self.members@.len() - i,
        {
            let ghost piece = member_text(self@[i as int]);
            proof {
                let before = items.take(i as int);
                let now = items.take(i + 1);
                assert(now.drop_last() =~= before);
                assert(now.last() == piece);
                if i == 0 {
                    assert("{"@ + joined(before) + piece =~= "{"@ + joined(now));
                } else {
                    assert("{"@ + joined(before) + ","@ + piece =~= "{"@ + joined(now));
                }
            }
            let ghost start = text@;
            if i > 0 {
                text.append(",");
            }
            let ghost mid = text@;
            text.append("\"");
            text.append(self.members[i].0.as_str());
            text.append("\"");
            text.append(":");
            text.append(self.members[i].1.as_str());
            assert(text@ =~= mid + piece);
            i += 1;
        }
        assert(items.take(i as int) =~= items);
        text.append("}");
        text
    }
}

} // verus!
