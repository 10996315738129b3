//! A JSON value as the library reads it: payloads are decoded by the caller
//! and handed over in this form.
use vstd::prelude::*;

verus! {

/// A JSON value. Object members keep their order; their names are distinct.
#[derive(Debug)]
pub enum Json {
    Null,
    Bool(bool),
    /// A number, in its textual form.
    Number(String),
    Str(String),
    Array(Vec<Json>),
    Object(Vec<(String, Json)>),
}

/// The value of the first member named `k`.
pub open spec fn member(fields: Seq<(String, Json)>, k: Seq<char>) -> Option<Json>
    decreases fields.len(),
{
    if fields.len() == 0 {
        None
    } else if fields[0].0@ == k {
        Some(fields[0].1)
    } else {
        member(fields.drop_first(), k)
    }
}

impl Json {
    /// The member named `k`, when this is an object that has one.
    pub open spec fn field(self, k: Seq<char>) -> Option<Json> {
        match self {
            Json::Object(fs) => member(fs@, k),
            _ => None,
        }
    }

    /// The string this value holds, if it is a string.
    pub open spec fn string(self) -> Option<String> {
        match self {
            Json::Str(s) => Some(s),
            _ => None,
        }
    }

    /// The elements of this value, if it is an array.
    pub open spec fn elements(self) -> Option<Seq<Json>> {
        match self {
            Json::Array(v) => Some(v@),
            _ => None,
        }
    }

    /// The members of this value, if it is an object.
    pub open spec fn members(self) -> Option<Seq<(String, Json)>> {
        match self {
            Json::Object(fs) => Some(fs@),
            _ => None,
        }
    }

    /// The string held by member `k`, if there is one and it is a string.
    pub open spec fn string_at(self, k: Seq<char>) -> Option<String> {
        match self.field(k) {
            Some(v) => v.string(),
            None => None,
        }
    }

    /// The member named `key`, when this is an object that has one.
    pub fn get(&self, key: &str) -> (r: Option<&Json>)
        ensures
            match r {
                Some(v) => self.field(key@) == Some(*v),
                None => self.field(key@) is None,
            },
    {
        match self {
            Json::Object(fs) => {
                let k = String::from_str(key);
                let mut i: usize = 0;
                assert(fs@.skip(0) =~= fs@);
                while i < fs.len()
                    invariant
                        i <= fs@.len(),
                        k@ == key@,
                        self.field(key@) == member(fs@, key@),
                        member(fs@, key@) == member(fs@.skip(i as int), key@),
                    decreases fs@.len() - i,
                {
                    assert(fs@.skip(i as int).drop_first() =~= fs@.skip(i + 1));
                    assert(fs@.skip(i as int)[0] == fs@[i as int]);
                    if fs[i].0 == k {
                        return Some(&fs[i].1);
                    }
                    i = i + 1;
                }
                None
            },
            _ => None,
        }
    }

    /// The string this value holds, if it is a string.
    pub fn as_str(&self) -> (r: Option<&String>)
        ensures
            match r {
                Some(s) => self.string() == Some(*s),
                None => self.string() is None,
            },
    {
        match self {
            Json::Str(s) => Some(s),
            _ => None,
        }
    }

    /// The elements of this value, if it is an array.
    pub fn as_array(&self) -> (r: Option<&Vec<Json>>)
        ensures
            match r {
                Some(v) => self.elements() == Some(v@),
                None => self.elements() is None,
            },
    {
        match self {
            Json::Array(v) => Some(v),
            _ => None,
        }
    }

    /// The members of this value, if it is an object.
    pub fn as_object(&self) -> (r: Option<&Vec<(String, Json)>>)
        ensures
            match r {
                Some(v) => self.members() == Some(v@),
                None => self.members() is None,
            },
    {
        match self {
            Json::Object(fs) => Some(fs),
            _ => None,
        }
    }

    /// The string held by member `key`, if there is one and it is a string.
    pub fn str_at(&self, key: &str) -> (r: Option<&String>)
        ensures
            match r {
                Some(s) => self.string_at(key@) == Some(*s),
                None => self.string_at(key@) is None,
            },
    {
        match self.get(key) {
            Some(v) => v.as_str(),
            None => None,
        }
    }
}

} // verus!
