//! Properties: names and values set with `-D`, read from property files or set
//! by a script's `set_env`; they are handed to the processes a script runs.
use vstd::prelude::*;
use crate::vars::StrMap;

verus! {

/// Sets the property `name` to `value`.
pub fn set_property(props: &mut StrMap, name: &String, value: &String)
    ensures
        final(props)@ == old(props)@.insert(name@, value@),
{
    let _ = props.insert(name.clone(), value.clone());
}

/// The value of the property `name`, if it is set.
pub fn get_property(props: &StrMap, name: &String) -> (r: Option<String>)
    ensures
        match r {
            Some(v) => props@.contains_key(name@) && v@ == props@[name@],
            None => !props@.contains_key(name@),
        },
{
    props.get(name.as_str())
}

/// All properties, each name once.
pub fn get_properties(props: &StrMap) -> (r: Vec<(String, String)>)
    ensures
        r@.len() == props@.dom().len(),
        forall|i: int| 0 <= i < r@.len() ==> #[trigger] props@.contains_key(r@[i].0@) && props@[r@[i].0@] == r@[i].1@,
        forall|k: Seq<char>| #[trigger] props@.contains_key(k) ==> exists|i: int| 0 <= i < r@.len() && r@[i].0@ == k,
{
    props.pairs()
}

/// Reading a property gives back what was last set under its name.
pub proof fn law_property_read_after_write(props: StrMap, after: StrMap, name: Seq<char>, value: Seq<char>, other: Seq<char>)
    requires
        after@ == props@.insert(name, value),
    ensures
        after@.contains_key(name) && after@[name] == value,
        other != name ==> (after@.contains_key(other) == props@.contains_key(other)
            && (props@.contains_key(other) ==> after@[other] == props@[other])),
{
}

} // verus!
