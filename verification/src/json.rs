//! An owned JSON document model with a mathematical view.
use vstd::prelude::*;

verus! {

/// A JSON number as the decoder classifies it: a non-negative integer
/// (`PosInt`), a negative integer (`NegInt`, which the decoder only ever
/// fills with values below zero), or any other number kept in its decimal
/// text form.
#[derive(Debug, PartialEq, Eq)]
pub enum JsonNumber {
    PosInt(u64),
    NegInt(i64),
    Float(String),
}

/// A JSON value. Objects decoded by [`Json::parse`] or built by
/// `proto::json_object` hold their members as `serde_json`'s map does: keys
/// unique, in map key order (see [`key_less`]). An `Object` built by hand
/// holds its vector as given, and `==` compares members in order.
#[derive(Debug, PartialEq, Eq)]
pub enum Json {
    Null,
    Bool(bool),
    Number(JsonNumber),
    String(String),
    Array(Vec<Json>),
    Object(Vec<(String, Json)>),
}

/// Mathematical view of a [`JsonNumber`].
pub enum NumberView {
    PosInt(u64),
    NegInt(i64),
    Float(Seq<char>),
}

/// Mathematical view of a [`Json`] value.
pub enum JsonView {
    Null,
    Bool(bool),
    Number(NumberView),
    Str(Seq<char>),
    Array(Seq<JsonView>),
    Object(Seq<(Seq<char>, JsonView)>),
}

impl View for JsonNumber {
    type V = NumberView;

    open spec fn view(&self) -> NumberView {
        match self {
            JsonNumber::PosInt(n) => NumberView::PosInt(*n),
            JsonNumber::NegInt(n) => NumberView::NegInt(*n),
            JsonNumber::Float(t) => NumberView::Float(t@),
        }
    }
}

/// The view of a value, structurally.
pub open spec fn json_view(v: Json) -> JsonView
    decreases v,
{
    match v {
        Json::Null => JsonView::Null,
        Json::Bool(b) => JsonView::Bool(b),
        Json::Number(n) => JsonView::Number(n@),
        Json::String(s) => JsonView::Str(s@),
        Json::Array(items) => JsonView::Array(
            Seq::new(items@.len(), |i: int| if 0 <= i < items@.len() { json_view(items@[i]) } else { JsonView::Null }),
        ),
        Json::Object(members) => JsonView::Object(
            Seq::new(members@.len(), |i: int| if 0 <= i < members@.len() { (members@[i].0@, json_view(members@[i].1)) } else { (Seq::empty(), JsonView::Null) }),
        ),
    }
}

impl View for Json {
    type V = JsonView;

    open spec fn view(&self) -> JsonView {
        json_view(*self)
    }
}

/// The views of a sequence of values, in order.
pub open spec fn item_views(items: Seq<Json>) -> Seq<JsonView> {
    items.map_values(|x: Json| x@)
}

/// The views of a sequence of object members, in order.
pub open spec fn member_views(members: Seq<(String, Json)>) -> Seq<(Seq<char>, JsonView)> {
    members.map_values(|m: (String, Json)| (m.0@, m.1@))
}

/// The view of an array is the sequence of its items' views.
pub proof fn lemma_array_view(items: Vec<Json>)
    ensures
        Json::Array(items)@ == JsonView::Array(item_views(items@)),
{
    let v = Json::Array(items);
    let s = v@->Array_0;
    assert(s.len() == items@.len());
    assert forall|i: int| 0 <= i < s.len() implies s[i] == item_views(items@)[i] by {}
    assert(s =~= item_views(items@));
}

/// The view of an object is the sequence of its members' views.
pub proof fn lemma_object_view(members: Vec<(String, Json)>)
    ensures
        Json::Object(members)@ == JsonView::Object(member_views(members@)),
{
    let v = Json::Object(members);
    let s = v@->Object_0;
    assert(s.len() == members@.len());
    assert forall|i: int| 0 <= i < s.len() implies s[i] == member_views(members@)[i] by {}
    assert(s =~= member_views(members@));
}

/// The value of the first member of `members` named `key`.
pub open spec fn member_value(members: Seq<(Seq<char>, JsonView)>, key: Seq<char>) -> Option<
    JsonView,
>
    decreases members.len(),
{
    if members.len() == 0 {
        None
    } else if members[0].0 == key {
        Some(members[0].1)
    } else {
        member_value(members.drop_first(), key)
    }
}

/// Key order of an object as `serde_json`'s map keeps it (a
/// `BTreeMap<String, _>`, ordered by UTF-8 bytes): lexicographic by code
/// point, a proper prefix first.
pub open spec fn key_less(a: Seq<char>, b: Seq<char>) -> bool
    decreases a.len(),
{
    if b.len() == 0 {
        false
    } else if a.len() == 0 {
        true
    } else if a[0] != b[0] {
        (a[0] as u32) < (b[0] as u32)
    } else {
        key_less(a.drop_first(), b.drop_first())
    }
}

/// `members` after a map insertion of `key`: a member with that key met
/// first is replaced, else the member goes before the first key that sorts
/// after it.
pub open spec fn insert_member(members: Seq<(Seq<char>, JsonView)>, key: Seq<char>, value: JsonView) -> Seq<
    (Seq<char>, JsonView),
>
    decreases members.len(),
{
    if members.len() == 0 {
        seq![(key, value)]
    } else if members[0].0 == key {
        seq![(key, value)] + members.drop_first()
    } else if key_less(key, members[0].0) {
        seq![(key, value)] + members
    } else {
        seq![members[0]] + insert_member(members.drop_first(), key, value)
    }
}

/// The members of the map built by inserting `members` in order: keys in
/// map order, and the last member given for a key wins.
pub open spec fn map_members(members: Seq<(Seq<char>, JsonView)>) -> Seq<(Seq<char>, JsonView)>
    decreases members.len(),
{
    if members.len() == 0 {
        Seq::empty()
    } else {
        insert_member(map_members(members.drop_last()), members.last().0, members.last().1)
    }
}

/// The value of the last member of `members` named `key`.
pub open spec fn last_value(members: Seq<(Seq<char>, JsonView)>, key: Seq<char>) -> Option<JsonView>
    decreases members.len(),
{
    if members.len() == 0 {
        None
    } else if members.last().0 == key {
        Some(members.last().1)
    } else {
        last_value(members.drop_last(), key)
    }
}

/// Looking a key up after an insertion finds the inserted value, and any
/// other key as before.
pub proof fn lemma_insert_member_value(
    members: Seq<(Seq<char>, JsonView)>,
    key: Seq<char>,
    value: JsonView,
    probe: Seq<char>,
)
    ensures
        member_value(insert_member(members, key, value), probe) == if probe == key {
            Some(value)
        } else {
            member_value(members, probe)
        },
    decreases members.len(),
{
    let r = insert_member(members, key, value);
    if members.len() == 0 {
        assert(r[0] == (key, value));
        assert(r.drop_first() =~= Seq::<(Seq<char>, JsonView)>::empty());
        if probe != key {
            assert(member_value(r, probe) == member_value(r.drop_first(), probe));
        }
    } else if members[0].0 == key {
        assert(r[0] == (key, value));
        assert(r.drop_first() =~= members.drop_first());
        if probe != key {
            assert(member_value(r, probe) == member_value(r.drop_first(), probe));
            assert(member_value(members, probe) == member_value(members.drop_first(), probe));
        }
    } else if key_less(key, members[0].0) {
        assert(r[0] == (key, value));
        assert(r.drop_first() =~= members);
        if probe != key {
            assert(member_value(r, probe) == member_value(r.drop_first(), probe));
        }
    } else {
        lemma_insert_member_value(members.drop_first(), key, value, probe);
        assert(r[0] == members[0]);
        assert(r.drop_first() =~= insert_member(members.drop_first(), key, value));
        if members[0].0 != probe {
            assert(member_value(r, probe) == member_value(r.drop_first(), probe));
            assert(member_value(members, probe) == member_value(members.drop_first(), probe));
        }
    }
}

/// In an object built by map insertion, the last member given for a key is
/// the one found.
pub proof fn law_last_member_wins(members: Seq<(Seq<char>, JsonView)>, key: Seq<char>)
    ensures
        member_value(map_members(members), key) == last_value(members, key),
    decreases members.len(),
{
    if members.len() > 0 {
        law_last_member_wins(members.drop_last(), key);
        lemma_insert_member_value(
            map_members(members.drop_last()),
            members.last().0,
            members.last().1,
            key,
        );
    }
}

/// Whether `a` sorts before `b` in map key order.
pub fn chars_key_less(a: &[char], b: &[char]) -> (r: bool)
    ensures
        r == key_less(a@, b@),
{
    let mut i: usize = 0;
    assert(a@.skip(0) =~= a@);
    assert(b@.skip(0) =~= b@);
    loop
        invariant
            i <= a@.len(),
            i <= b@.len(),
            key_less(a@, b@) == key_less(a@.skip(i as int), b@.skip(i as int)),
        decreases a@.len() - i,
    {
        if i == b.len() {
            return false;
        }
        if i == a.len() {
            return true;
        }
        if a[i] != b[i] {
            return (a[i] as u32) < (b[i] as u32);
        }
        assert(a@.skip(i as int).drop_first() =~= a@.skip(i + 1));
        assert(b@.skip(i as int).drop_first() =~= b@.skip(i + 1));
        i = i + 1;
    }
}

/// Inserts a member into an object's members as a map insertion does.
pub fn insert_into_members(members: &mut Vec<(String, Json)>, key: String, value: Json)
    ensures
        member_views(final(members)@) == insert_member(member_views(old(members)@), key@, value@),
{
    let ghost mv = member_views(members@);
    let kc = crate::text::chars_of(key.as_str());
    let mut i: usize = 0;
    assert(mv.take(0) =~= Seq::<(Seq<char>, JsonView)>::empty());
    assert(mv.skip(0) =~= mv);
    while i < members.len()
        invariant
            i <= members@.len(),
            mv == member_views(members@),
            members@ == old(members)@,
            mv == member_views(old(members)@),
            kc@ == key@,
            insert_member(mv, key@, value@) == mv.take(i as int) + insert_member(
                mv.skip(i as int),
                key@,
                value@,
            ),
        decreases members@.len() - i,
    {
        assert(mv.skip(i as int)[0] == mv[i as int]);
        assert(mv.skip(i as int).drop_first() =~= mv.skip(i + 1));
        if crate::text::str_eq(members[i].0.as_str(), key.as_str()) {
            let ghost kv = key@;
            let ghost vv = value@;
            members.remove(i);
            members.insert(i, (key, value));
            assert(member_views(members@) =~= mv.take(i as int) + (seq![(kv, vv)] + mv.skip(i + 1)));
            return;
        }
        let oc = crate::text::chars_of(members[i].0.as_str());
        if chars_key_less(kc.as_slice(), oc.as_slice()) {
            let ghost kv = key@;
            let ghost vv = value@;
            members.insert(i, (key, value));
            assert(member_views(members@) =~= mv.take(i as int) + (seq![(kv, vv)] + mv.skip(i as int)));
            return;
        }
        assert(mv.take(i + 1) =~= mv.take(i as int) + seq![mv[i as int]]);
        i = i + 1;
    }
    let ghost kv = key@;
    let ghost vv = value@;
    members.push((key, value));
    assert(mv.skip(i as int) =~= Seq::<(Seq<char>, JsonView)>::empty());
    assert(mv.take(i as int) =~= mv);
    assert(member_views(members@) =~= mv + seq![(kv, vv)]);
}

impl JsonView {
    /// The member `key` of an object; nothing for any other kind of value.
    pub open spec fn field(self, key: Seq<char>) -> Option<JsonView> {
        match self {
            JsonView::Object(members) => member_value(members, key),
            _ => None,
        }
    }

    /// The boolean a value holds.
    pub open spec fn as_bool(self) -> Option<bool> {
        match self {
            JsonView::Bool(b) => Some(b),
            _ => None,
        }
    }

    /// The value as a `u64`: a non-negative integer.
    pub open spec fn as_u64(self) -> Option<u64> {
        match self {
            JsonView::Number(NumberView::PosInt(n)) => Some(n),
            _ => None,
        }
    }

    /// The value as an `i64`: an integer within the `i64` range.
    pub open spec fn as_i64(self) -> Option<i64> {
        match self {
            JsonView::Number(NumberView::PosInt(n)) => if n <= i64::MAX {
                Some(n as i64)
            } else {
                None
            },
            JsonView::Number(NumberView::NegInt(n)) => Some(n),
            _ => None,
        }
    }

    /// The characters of a string value.
    pub open spec fn as_str(self) -> Option<Seq<char>> {
        match self {
            JsonView::Str(s) => Some(s),
            _ => None,
        }
    }

    /// The items of an array value.
    pub open spec fn as_array(self) -> Option<Seq<JsonView>> {
        match self {
            JsonView::Array(items) => Some(items),
            _ => None,
        }
    }
}

impl JsonNumber {
    /// An independent copy with the same view.
    pub fn copy(&self) -> (r: JsonNumber)
        ensures
            r@ == self@,
    {
        match self {
            JsonNumber::PosInt(n) => JsonNumber::PosInt(*n),
            JsonNumber::NegInt(n) => JsonNumber::NegInt(*n),
            JsonNumber::Float(t) => JsonNumber::Float(t.clone()),
        }
    }
}

impl Json {
    /// An independent deep copy with the same view.
    pub fn copy(&self) -> (r: Json)
        ensures
            r@ == self@,
        decreases self,
    {
        match self {
            Json::Null => Json::Null,
            Json::Bool(b) => Json::Bool(*b),
            Json::Number(n) => Json::Number(n.copy()),
            Json::String(s) => Json::String(s.clone()),
            Json::Array(items) => {
                let mut out: Vec<Json> = Vec::new();
                let mut i: usize = 0;
                while i < items.len()
                    invariant
                        i <= items@.len(),
                        *self == Json::Array(*items),
                        out@.len() == i,
                        forall|j: int| 0 <= j < i ==> #[trigger] out@[j]@ == items@[j]@,
                    decreases items@.len() - i,
                {
                    assert(decreases_to!(*self => self->Array_0));
                    assert(decreases_to!(*items => items@));
                    assert(decreases_to!(items@ => items@[i as int]));
                    let item = items[i].copy();
                    out.push(item);
                    i = i + 1;
                }
                let r = Json::Array(out);
                proof {
                    lemma_array_view(out);
                    lemma_array_view(*items);
                    assert(item_views(out@) =~= item_views(items@));
                }
                r
            },
            Json::Object(members) => {
                let mut out: Vec<(String, Json)> = Vec::new();
                let mut i: usize = 0;
                while i < members.len()
                    invariant
                        i <= members@.len(),
                        *self == Json::Object(*members),
                        out@.len() == i,
                        forall|j: int| 0 <= j < i ==> #[trigger] out@[j].0@ == members@[j].0@ && out@[j].1@ == members@[j].1@,
                    decreases members@.len() - i,
                {
                    assert(decreases_to!(*self => self->Object_0));
                    assert(decreases_to!(*members => members@));
                    assert(decreases_to!(members@ => members@[i as int]));
                    assert(decreases_to!(members@[i as int] => members@[i as int].1));
                    let key = members[i].0.clone();
                    let value = members[i].1.copy();
                    out.push((key, value));
                    i = i + 1;
                }
                let r = Json::Object(out);
                proof {
                    lemma_object_view(out);
                    lemma_object_view(*members);
                    assert(member_views(out@) =~= member_views(members@));
                }
                r
            },
        }
    }
}

impl Json {
    /// The member `key` of an object value.
    pub fn get(&self, key: &str) -> (r: Option<&Json>)
        ensures
            match r {
                Some(v) => self@.field(key@) == Some(v@),
                None => self@.field(key@) is None,
            },
    {
        match self {
            Json::Object(members) => {
                let ghost ms = member_views(members@);
                proof {
                    lemma_object_view(*members);
                }
                let mut i: usize = 0;
                assert(ms.skip(0) =~= ms);
                while i < members.len()
                    invariant
                        i <= members@.len(),
                        ms == member_views(members@),
                        self@ == JsonView::Object(ms),
                        member_value(ms, key@) == member_value(ms.skip(i as int), key@),
                    decreases members@.len() - i,
                {
                    assert(ms.skip(i as int)[0] == ms[i as int]);
                    if crate::text::str_eq(members[i].0.as_str(), key) {
                        return Some(&members[i].1);
                    }
                    assert(ms.skip(i as int).drop_first() =~= ms.skip(i + 1));
                    i = i + 1;
                }
                None
            },
            _ => None,
        }
    }

    /// The boolean this value holds.
    pub fn as_bool(&self) -> (r: Option<bool>)
        ensures
            r == self@.as_bool(),
    {
        match self {
            Json::Bool(b) => Some(*b),
            _ => None,
        }
    }

    /// This value as a non-negative integer.
    pub fn as_u64(&self) -> (r: Option<u64>)
        ensures
            r == self@.as_u64(),
    {
        match self {
            Json::Number(JsonNumber::PosInt(n)) => Some(*n),
            _ => None,
        }
    }

    /// This value as an integer in the `i64` range.
    pub fn as_i64(&self) -> (r: Option<i64>)
        ensures
            r == self@.as_i64(),
    {
        match self {
            Json::Number(JsonNumber::PosInt(n)) => {
                if *n <= 9223372036854775807u64 {
                    Some(*n as i64)
                } else {
                    None
                }
            },
            Json::Number(JsonNumber::NegInt(n)) => Some(*n),
            _ => None,
        }
    }

    /// The text of a string value.
    pub fn as_str(&self) -> (r: Option<&str>)
        ensures
            match r {
                Some(s) => self@.as_str() == Some(s@),
                None => self@.as_str() is None,
            },
    {
        match self {
            Json::String(s) => Some(s.as_str()),
            _ => None,
        }
    }

    /// The items of an array value.
    pub fn as_array(&self) -> (r: Option<&Vec<Json>>)
        ensures
            match r {
                Some(items) => self@.as_array() == Some(item_views(items@)),
                None => self@.as_array() is None,
            },
    {
        match self {
            Json::Array(items) => {
                proof {
                    lemma_array_view(*items);
                }
                Some(items)
            },
            _ => None,
        }
    }
}

impl Clone for JsonNumber {
    fn clone(&self) -> (r: Self)
        ensures
            r@ == self@,
    {
        self.copy()
    }
}

impl Clone for Json {
    fn clone(&self) -> (r: Self)
        ensures
            r@ == self@,
    {
        self.copy()
    }
}

} // verus!
