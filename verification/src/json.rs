//! A JSON document as the manager reads it: objects keep their members in
//! order, and numbers are kept when they fit an `i64`.

use vstd::prelude::*;
use vstd::string::*;
use crate::text::str_eq;

verus! {

/// A JSON value.
#[derive(Debug)]
pub enum Json {
    Null,
    Bool(bool),
    /// A number that fits an `i64`.
    Int(i64),
    /// Any other number.
    OtherNumber,
    Str(String),
    Array(Vec<Json>),
    Object(Vec<(String, Json)>),
}

/// Index of the first member of `members`, below `n`, whose name is `key`; -1 if none.
pub open spec fn first_member_below(members: Seq<(String, Json)>, key: Seq<char>, n: int) -> int
    decreases n,
{
    if n <= 0 {
        -1
    } else {
        let k = first_member_below(members, key, n - 1);
        if k >= 0 {
            k
        } else if members[n - 1].0@ == key {
            n - 1
        } else {
            -1
        }
    }
}

/// The value of the first member named `key` of an object; `None` for other values.
pub open spec fn member(j: Json, key: Seq<char>) -> Option<Json> {
    match j {
        Json::Object(members) => {
            let k = first_member_below(members@, key, members@.len() as int);
            if k >= 0 {
                Some(members@[k].1)
            } else {
                None
            }
        },
        _ => None,
    }
}

/// The text of a string value.
pub open spec fn str_of(j: Option<Json>) -> Option<Seq<char>> {
    match j {
        Some(Json::Str(s)) => Some(s@),
        _ => None,
    }
}

/// The value of an integer that fits an `i64`.
pub open spec fn int_of(j: Option<Json>) -> Option<i64> {
    match j {
        Some(Json::Int(n)) => Some(n),
        _ => None,
    }
}

/// The elements of an array.
pub open spec fn array_of(j: Option<Json>) -> Option<Seq<Json>> {
    match j {
        Some(Json::Array(items)) => Some(items@),
        _ => None,
    }
}

/// The string member `key` of `j`.
pub open spec fn str_member(j: Json, key: Seq<char>) -> Option<Seq<char>> {
    str_of(member(j, key))
}

proof fn lemma_first_member_bounds(members: Seq<(String, Json)>, key: Seq<char>, n: int)
    requires
        0 <= n <= members.len(),
    ensures
        -1 <= first_member_below(members, key, n) < n,
        first_member_below(members, key, n) >= 0 ==> members[first_member_below(members, key, n)].0@ == key,
        first_member_below(members, key, n) == -1 ==> forall|j: int| 0 <= j < n ==> #[trigger] members[j].0@ != key,
    decreases n,
{
    if n > 0 {
        lemma_first_member_bounds(members, key, n - 1);
    }
}

proof fn lemma_first_member_stable(members: Seq<(String, Json)>, key: Seq<char>, n: int, m: int)
    requires
        0 <= n <= m,
        first_member_below(members, key, n) >= 0,
    ensures
        first_member_below(members, key, m) == first_member_below(members, key, n),
    decreases m - n,
{
    if m > n {
        lemma_first_member_stable(members, key, n, m - 1);
    }
}

impl Json {
    /// The value of the first member named `key`, when this is an object.
    pub fn get(&self, key: &str) -> (r: Option<&Json>)
        ensures
            match r {
                Some(v) => member(*self, key@) == Some(*v),
                None => member(*self, key@) is None,
            },
    {
        match self {
            Json::Object(members) => {
                let mut i: usize = 0;
                while i < members.len()
                    invariant
                        i <= members@.len(),
                        *self == Json::Object(*members),
                        first_member_below(members@, key@, i as int) == -1,
                    decreases members@.len() - i,
                {
                    if str_eq(members[i].0.as_str(), key) {
                        proof {
                            assert(first_member_below(members@, key@, i + 1) == i);
                            lemma_first_member_stable(members@, key@, i + 1, members@.len() as int);
                        }
                        return Some(&members[i].1);
                    }
                    i = i + 1;
                }
                None
            },
            _ => None,
        }
    }

    /// The text of this value, when it is a string.
    pub fn as_str(&self) -> (r: Option<&String>)
        ensures
            match r {
                Some(s) => str_of(Some(*self)) == Some(s@),
                None => str_of(Some(*self)) is None,
            },
    {
        match self {
            Json::Str(s) => Some(s),
            _ => None,
        }
    }

    /// This value as an `i64`, when it is an integer that fits one.
    pub fn as_i64(&self) -> (r: Option<i64>)
        ensures
            r == int_of(Some(*self)),
    {
        match self {
            Json::Int(n) => Some(*n),
            _ => None,
        }
    }

    /// The elements of this value, when it is an array.
    pub fn as_array(&self) -> (r: Option<&Vec<Json>>)
        ensures
            match r {
                Some(v) => array_of(Some(*self)) == Some(v@),
                None => array_of(Some(*self)) is None,
            },
    {
        match self {
            Json::Array(items) => Some(items),
            _ => None,
        }
    }

    /// The string member `key` of this value.
    pub fn str_member(&self, key: &str) -> (r: Option<String>)
        ensures
            match r {
                Some(s) => str_member(*self, key@) == Some(s@),
                None => str_member(*self, key@) is None,
            },
    {
        match self.get(key) {
            Some(v) => match v.as_str() {
                Some(s) => Some(s.clone()),
                None => None,
            },
            None => None,
        }
    }

    /// The integer member `key` of this value.
    pub fn int_member(&self, key: &str) -> (r: Option<i64>)
        ensures
            r == int_of(member(*self, key@)),
    {
        match self.get(key) {
            Some(v) => v.as_i64(),
            None => None,
        }
    }
}

} // verus!
