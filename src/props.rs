use vstd::prelude::*;

verus! {

/// The value of a requested node property: the node's property, or, when
/// that is empty, the node's attribute of the same name.
pub open spec fn prop_value(prop: Seq<char>, attr: Seq<char>) -> Seq<char> {
    if prop.len() == 0 {
        attr
    } else {
        prop
    }
}

/// Assembles the properties a component asked for. `prop_values[i]` and
/// `attr_values[i]` are what the node holds as property and as attribute
/// under `keys[i]`. Returns one `(name, value)` pair per key, in key order.
pub fn lookup_props(keys: &Vec<String>, prop_values: &Vec<String>, attr_values: &Vec<String>) -> (r: Vec<(String, String)>)
    requires
        prop_values@.len() == keys@.len(),
        attr_values@.len() == keys@.len(),
    ensures
        r@.len() == keys@.len(),
        forall|i: int| 0 <= i < keys@.len() ==> {
            &&& (#[trigger] r@[i]).0@ == keys@[i]@
            &&& r@[i].1@ == prop_value(prop_values@[i]@, attr_values@[i]@)
        },
{
    let mut r: Vec<(String, String)> = Vec::new();
    let mut i: usize = 0;
    while i < keys.len()
        invariant
            i <= keys@.len(),
            prop_values@.len() == keys@.len(),
            attr_values@.len() == keys@.len(),
            r@.len() == i,
            forall|j: int| 0 <= j < i ==> {
                &&& (#[trigger] r@[j]).0@ == keys@[j]@
                &&& r@[j].1@ == prop_value(prop_values@[j]@, attr_values@[j]@)
            },
        decreases keys@.len() - i,
    {
        let value = if prop_values[i].as_str().is_empty() {
            attr_values[i].clone()
        } else {
            prop_values[i].clone()
        };
        r.push((keys[i].clone(), value));
        i += 1;
    }
    r
}

} // verus!
