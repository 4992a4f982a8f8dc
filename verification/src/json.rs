//! JSON documents, as the stores' web services answer with, and the ways
//! the crawlers read them.
use vstd::prelude::*;

verus! {

/// A JSON value. An object keeps its members in the order it was given
/// them, which is the order that "first member" goes by. Where a key occurs
/// more than once, looking it up finds its first member.
pub enum Json {
    Null,
    Bool(bool),
    /// A number, kept as its text.
    Number(String),
    Str(String),
    Array(Vec<Json>),
    Object(Vec<(String, Json)>),
}

/// The value of the first member named `key` among `members`.
pub open spec fn lookup(members: Seq<(String, Json)>, key: Seq<char>) -> Option<Json>
    decreases members.len(),
{
    if members.len() == 0 {
        None
    } else if members[0].0@ == key {
        Some(members[0].1)
    } else {
        lookup(members.drop_first(), key)
    }
}

/// An optional value read the way a missing JSON value reads: as `null`.
pub open spec fn or_null(v: Option<&Json>) -> Json {
    match v {
        Some(j) => *j,
        None => Json::Null,
    }
}

impl Json {
    /// The member named `key`, where `self` is an object that has one.
    pub open spec fn object_member(self, key: Seq<char>) -> Option<Json> {
        match self {
            Json::Object(members) => lookup(members@, key),
            _ => None,
        }
    }

    /// `self[key]`: the member named `key` of an object, `null` where
    /// `self` is no object or has no such member.
    pub open spec fn member(self, key: Seq<char>) -> Json {
        match self.object_member(key) {
            Some(v) => v,
            None => Json::Null,
        }
    }

    /// The text of a string.
    pub open spec fn text(self) -> Option<Seq<char>> {
        match self {
            Json::Str(s) => Some(s@),
            _ => None,
        }
    }

    /// The first element of a non-empty array.
    pub open spec fn first_element(self) -> Option<Json> {
        match self {
            Json::Array(items) => if items@.len() > 0 {
                Some(items@[0])
            } else {
                None
            },
            _ => None,
        }
    }

    /// The value of the first member of a non-empty object.
    pub open spec fn first_member_value(self) -> Option<Json> {
        match self {
            Json::Object(members) => if members@.len() > 0 {
                Some(members@[0].1)
            } else {
                None
            },
            _ => None,
        }
    }

    /// The member named `key`, where `self` is an object that has one.
    pub fn get(&self, key: &str) -> (r: Option<&Json>)
        ensures
            match r {
                Some(v) => self.object_member(key@) == Some(*v),
                None => self.object_member(key@) is None,
            },
    {
        match self {
            Json::Object(members) => {
                let k = key.to_owned();
                let mut i: usize = 0;
                assert(members@.skip(0) =~= members@);
                while i < members.len()
                    invariant
                        i <= members.len(),
                        k@ == key@,
                        self.object_member(key@) == lookup(members@, key@),
                        lookup(members@, key@) == lookup(members@.skip(i as int), key@),
                    decreases members.len() - i,
                {
                    let ghost rest = members@.skip(i as int);
                    assert(rest[0] == members@[i as int]);
                    if members[i].0 == k {
                        assert(members@[i as int].0@ == key@);
                        assert(lookup(rest, key@) == Some(rest[0].1));
                        return Some(&members[i].1);
                    }
                    assert(rest.drop_first() =~= members@.skip(i + 1));
                    i = i + 1;
                }
                assert(members@.skip(i as int) =~= Seq::<(String, Json)>::empty());
                None
            },
            _ => None,
        }
    }

    /// The text of a string.
    pub fn as_str(&self) -> (r: Option<&str>)
        ensures
            match r {
                Some(s) => self.text() == Some(s@),
                None => self.text() is None,
            },
    {
        match self {
            Json::Str(s) => Some(s.as_str()),
            _ => None,
        }
    }

    /// Whether `self` is an object.
    pub fn is_object(&self) -> (r: bool)
        ensures
            r == self is Object,
    {
        match self {
            Json::Object(_) => true,
            _ => false,
        }
    }

    /// The first element of a non-empty array.
    pub fn first_element_ref(&self) -> (r: Option<&Json>)
        ensures
            match r {
                Some(v) => self.first_element() == Some(*v),
                None => self.first_element() is None,
            },
    {
        match self {
            Json::Array(items) => if items.len() > 0 {
                Some(&items[0])
            } else {
                None
            },
            _ => None,
        }
    }

    /// The value of the first member of a non-empty object.
    pub fn first_member_value_ref(&self) -> (r: Option<&Json>)
        ensures
            match r {
                Some(v) => self.first_member_value() == Some(*v),
                None => self.first_member_value() is None,
            },
    {
        match self {
            Json::Object(members) => if members.len() > 0 {
                Some(&members[0].1)
            } else {
                None
            },
            _ => None,
        }
    }
}

/// `v[key]` for a value that may be missing, a missing value reading as
/// `null`.
pub fn member_of<'a>(v: Option<&'a Json>, key: &str) -> (r: Option<&'a Json>)
    ensures
        or_null(r) == or_null(v).member(key@),
{
    match v {
        Some(j) => j.get(key),
        None => None,
    }
}

} // verus!
