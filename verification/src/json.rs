//! The library's model of a parsed JSON request body: exactly what the
//! validation logic reads. A boundary layer turns a parsed JSON document
//! into this shape; string and integer field values are carried as plain
//! values, and every other value form is `Other`.

use vstd::prelude::*;

verus! {

/// A JSON field value, as far as the validation logic distinguishes values.
#[derive(Debug, Clone)]
pub enum JsonValue {
    /// A string value.
    Str(String),
    /// A number with an exact 64-bit integer value.
    Int(i64),
    /// Any other value: null, boolean, non-integer number, array or object.
    Other,
}

/// A JSON document handed to validation: a top-level object with its
/// fields in order, or any other document form.
#[derive(Debug, Clone)]
pub enum JsonData {
    /// A top-level object: its fields, in the order the document gives
    /// them.
    Object(Vec<(String, JsonValue)>),
    /// Any other top-level value.
    Other,
}

/// The value of the first field with the given name, if any.
pub open spec fn spec_lookup(fields: Seq<(String, JsonValue)>, key: Seq<char>) -> Option<JsonValue>
    decreases fields.len(),
{
    if fields.len() == 0 {
        None
    } else if fields[0].0@ == key {
        Some(fields[0].1)
    } else {
        spec_lookup(fields.drop_first(), key)
    }
}

/// The texts of a sequence of strings, in order.
pub open spec fn str_views(keys: Seq<String>) -> Seq<Seq<char>> {
    keys.map_values(|s: String| s@)
}

/// Whether the sequence holds the given text.
pub open spec fn seq_contains_str(keys: Seq<Seq<char>>, key: Seq<char>) -> bool {
    exists|i: int| 0 <= i < keys.len() && keys[i] == key
}

/// The names of the fields that are not in the allowed list, in field
/// order.
pub open spec fn spec_extra_keys(
    fields: Seq<(String, JsonValue)>,
    allowed: Seq<Seq<char>>,
) -> Seq<String>
    decreases fields.len(),
{
    if fields.len() == 0 {
        Seq::empty()
    } else {
        let rest = spec_extra_keys(fields.drop_last(), allowed);
        if seq_contains_str(allowed, fields.last().0@) {
            rest
        } else {
            rest.push(fields.last().0)
        }
    }
}

impl JsonData {
    /// The value of the first field with the given name, if this is an
    /// object that has one.
    #[verifier::loop_isolation(false)]
    pub fn get<'a>(&'a self, key: &String) -> (r: Option<&'a JsonValue>)
        ensures
            match self {
                JsonData::Object(fields) => match r {
                    Some(v) => spec_lookup(fields@, key@) == Some(*v),
                    None => spec_lookup(fields@, key@) is None,
                },
                JsonData::Other => r is None,
            },
    {
        match self {
            JsonData::Other => None,
            JsonData::Object(fields) => {
                proof {
                    assert(fields@.skip(0) =~= fields@);
                }
                let mut i: usize = 0;
                while i < fields.len()
                    invariant
                        0 <= i <= fields@.len(),
                        spec_lookup(fields@, key@) == spec_lookup(fields@.skip(i as int), key@),
                    decreases fields@.len() - i,
                {
                    proof {
                        assert(fields@.skip(i as int).drop_first() =~= fields@.skip(i + 1));
                        assert(fields@.skip(i as int)[0] == fields@[i as int]);
                    }
                    if fields[i].0 == *key {
                        proof {
                            assert(fields@.skip(i as int)[0].0@ == key@);
                            assert(spec_lookup(fields@.skip(i as int), key@) == Some(
                                fields@[i as int].1,
                            ));
                        }
                        return Some(&fields[i].1);
                    }
                    i = i + 1;
                }
                proof {
                    assert(fields@.skip(i as int) =~= Seq::empty());
                }
                None
            },
        }
    }
}

/// Whether any string in the vector reads as the given text.
fn contains_key(keys: &Vec<String>, key: &String) -> (r: bool)
    ensures
        r == seq_contains_str(str_views(keys@), key@),
{
    let mut i: usize = 0;
    while i < keys.len()
        invariant
            0 <= i <= keys@.len(),
            forall|j: int| 0 <= j < i ==> keys@[j]@ != key@,
        decreases keys@.len() - i,
    {
        if keys[i] == *key {
            proof {
                assert(str_views(keys@)[i as int] == key@);
            }
            return true;
        }
        i = i + 1;
    }
    proof {
        assert(forall|j: int|
            0 <= j < keys@.len() ==> #[trigger] str_views(keys@)[j] == keys@[j]@);
    }
    false
}

/// The names of an object's fields that are not in the allowed list, in
/// field order; `None` when there are none.
pub fn get_extra_fields_in_json(fields: &Vec<(String, JsonValue)>, allowed: &Vec<String>) -> (r:
    Option<Vec<String>>)
    ensures
        match r {
            Some(extra) => extra@ == spec_extra_keys(fields@, str_views(allowed@))
                && extra@.len() > 0,
            None => spec_extra_keys(fields@, str_views(allowed@)).len() == 0,
        },
{
    let mut extra: Vec<String> = Vec::new();
    let mut i: usize = 0;
    while i < fields.len()
        invariant
            0 <= i <= fields@.len(),
            extra@ == spec_extra_keys(fields@.take(i as int), str_views(allowed@)),
        decreases fields@.len() - i,
    {
        proof {
            let t = fields@.take(i + 1);
            assert(t.drop_last() =~= fields@.take(i as int));
            assert(t.last() == fields@[i as int]);
        }
        if !contains_key(allowed, &fields[i].0) {
            extra.push(fields[i].0.clone());
        }
        i = i + 1;
    }
    proof {
        assert(fields@.take(fields@.len() as int) =~= fields@);
    }
    if extra.len() == 0 {
        None
    } else {
        Some(extra)
    }
}

} // verus!
