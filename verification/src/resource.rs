//! The resource: who it is that produces telemetry.

use opentelemetry::KeyValue;
use opentelemetry_sdk::Resource;
use vstd::prelude::*;

verus! {

/// The resource of `opentelemetry_sdk`. What it holds is told by
/// [`resource_attributes`].
#[verifier::external_type_specification]
#[verifier::external_body]
pub struct ExResource(Resource);

/// What a `Resource` holds: all its attributes, by their keys. The value is there where it
/// is text, and `None` where it is of another type.
pub uninterp spec fn resource_attributes(resource: Resource) -> Map<Seq<char>, Option<Seq<char>>>;

/// The attributes that a list of keys and values amounts to: of the values given for
/// one key the last.
pub open spec fn attributes_of(list: Seq<(String, String)>) -> Map<Seq<char>, Option<Seq<char>>>
    decreases list.len(),
{
    if list.len() == 0 {
        Map::empty()
    } else {
        attributes_of(list.drop_last()).insert(list.last().0@, Some(list.last().1@))
    }
}

/// `ResourceBuilder::with_attributes` of `opentelemetry_sdk`, on an empty builder: a
/// resource that holds the attributes given, with text for values, and no others.
#[verifier::external_body]
pub(crate) fn resource_with(attributes: Vec<(String, String)>) -> (resource: Resource)
    ensures
        resource_attributes(resource) == attributes_of(attributes@),
{
    let attributes = attributes.into_iter().map(|kv| KeyValue::new(kv.0, kv.1));
    Resource::builder_empty().with_attributes(attributes).build()
}

/// Every key on the list is there, and the last value given for it counts.
pub proof fn law_last_attribute_wins(list: Seq<(String, String)>, i: int)
    requires
        0 <= i < list.len(),
        forall|j: int| i < j < list.len() ==> (#[trigger] list[j]).0@ != list[i].0@,
    ensures
        attributes_of(list).contains_key(list[i].0@),
        attributes_of(list)[list[i].0@] == Some(list[i].1@),
    decreases list.len(),
{
    let init = list.drop_last();
    if i < init.len() {
        assert forall|j: int| i < j < init.len() implies (#[trigger] init[j]).0@
            != init[i].0@ by {
            assert(list[j].0@ != list[i].0@);
        }
        law_last_attribute_wins(init, i);
        assert(list[list.len() - 1].0@ != list[i].0@);
    }
}

/// No key is there that is not on the list.
pub proof fn law_no_other_attributes(list: Seq<(String, String)>, key: Seq<char>)
    requires
        attributes_of(list).contains_key(key),
    ensures
        exists|i: int| 0 <= i < list.len() && (#[trigger] list[i]).0@ == key,
    decreases list.len(),
{
    let last = list.len() - 1;
    if list[last].0@ != key {
        let init = list.drop_last();
        law_no_other_attributes(init, key);
        let i = choose|i: int| 0 <= i < init.len() && (#[trigger] init[i]).0@ == key;
        assert(list[i].0@ == key);
    }
}

} // verus!
