//! Objects: a property dictionary, an optional prototype link, and a payload
//! selecting the object's behaviour kind.

use vstd::prelude::*;

use crate::function::Function;
use crate::number::Number;
use crate::value::Value;

verus! {

/// One named property slot.
pub struct Property {
    pub value: Value,
    pub read_only: bool,
    pub dont_enum: bool,
    pub dont_delete: bool,
    pub internal: bool,
}

impl Property {
    /// A plain writable property.
    pub fn new(value: Value) -> (r: Self)
        ensures
            r.value == value,
            !r.read_only,
            !r.dont_enum,
            !r.dont_delete,
            !r.internal,
    {
        Property { value, read_only: false, dont_enum: false, dont_delete: false, internal: false }
    }
}

/// The payload of an object with no special behaviour.
pub struct Regular;

/// The behaviour kind of an object.
pub enum ObjectPayload {
    Number(Number),
    String(crate::string::String),
    Function(Function),
    Regular(Regular),
}

/// The hint handed to `[[DefaultValue]]`.
#[derive(Clone, Copy, PartialEq, Eq, Structural)]
pub enum PreferredType {
    Number,
    String,
}

impl Default for PreferredType {
    /// An absent hint means `Number`.
    fn default() -> (r: Self)
        ensures
            r == PreferredType::Number,
    {
        PreferredType::Number
    }
}

/// An object: prototype link, property dictionary, payload. The prototype is
/// an index into the heap; properties map a name to a slot, each name at most
/// once reached (lookups take the first entry for a name).
pub struct Object {
    pub __proto__: Option<usize>,
    pub payload: ObjectPayload,
    pub props: Vec<(String, Property)>,
}

/// The first property slot under a name, if any.
pub open spec fn assoc_find(s: Seq<(String, Property)>, key: Seq<char>) -> Option<Property>
    decreases s.len(),
{
    if s.len() == 0 {
        None
    } else if s[0].0@ == key {
        Some(s[0].1)
    } else {
        assoc_find(s.drop_first(), key)
    }
}

/// The object's own property slot under a name, if any.
pub open spec fn own_prop(o: Object, key: Seq<char>) -> Option<Property> {
    assoc_find(o.props@, key)
}

/// Appending an entry under a fresh name makes it the slot found under that
/// name and leaves every other name's slot unchanged.
pub proof fn lemma_assoc_find_push(s: Seq<(String, Property)>, name: String, p: Property)
    requires
        assoc_find(s, name@) is None,
    ensures
        assoc_find(s.push((name, p)), name@) == Some(p),
        forall|k: Seq<char>|
            k != name@ ==> #[trigger] assoc_find(s.push((name, p)), k) == assoc_find(s, k),
    decreases s.len(),
{
    if s.len() == 0 {
        assert forall|k: Seq<char>| k != name@ implies #[trigger] assoc_find(s.push((name, p)), k)
            == assoc_find(s, k) by {
            assert(s.push((name, p)).drop_first() =~= s);
        }
        assert(assoc_find(s.push((name, p)), name@) == Some(p));
    } else {
        lemma_assoc_find_push(s.drop_first(), name, p);
        assert(s.push((name, p)).drop_first() =~= s.drop_first().push((name, p)));
        assert(s.push((name, p))[0] == s[0]);
        assert(assoc_find(s.push((name, p)), name@) == Some(p));
        assert forall|k: Seq<char>| k != name@ implies #[trigger] assoc_find(s.push((name, p)), k)
            == assoc_find(s, k) by {
            if s[0].0@ != k {
                assert(assoc_find(s.push((name, p)), k) == assoc_find(
                    s.drop_first().push((name, p)),
                    k,
                ));
            }
        }
    }
}

/// Replacing the first slot found under a name updates that name's slot and
/// leaves every other name's slot unchanged.
pub proof fn lemma_assoc_find_update(
    s: Seq<(String, Property)>,
    j: int,
    name: String,
    p: Property,
)
    requires
        0 <= j < s.len(),
        s[j].0@ == name@,
        forall|m: int| 0 <= m < j ==> #[trigger] s[m].0@ != name@,
    ensures
        assoc_find(s.update(j, (name, p)), name@) == Some(p),
        forall|k: Seq<char>|
            k != name@ ==> #[trigger] assoc_find(s.update(j, (name, p)), k) == assoc_find(s, k),
    decreases j,
{
    if j == 0 {
        assert forall|k: Seq<char>| k != name@ implies #[trigger] assoc_find(
            s.update(0, (name, p)),
            k,
        ) == assoc_find(s, k) by {
            assert(s.update(0, (name, p)).drop_first() =~= s.drop_first());
        }
    } else {
        lemma_assoc_find_update(s.drop_first(), j - 1, name, p);
        assert(s.update(j, (name, p)).drop_first() =~= s.drop_first().update(j - 1, (name, p)));
        assert(s[0].0@ != name@);
        assert(s.update(j, (name, p))[0] == s[0]);
        assert(forall|m: int|
            0 <= m < j - 1 ==> #[trigger] s.drop_first()[m].0@ != name@);
        assert(assoc_find(s.update(j, (name, p)), name@) == Some(p));
        assert forall|k: Seq<char>| k != name@ implies #[trigger] assoc_find(
            s.update(j, (name, p)),
            k,
        ) == assoc_find(s, k) by {
            if s[0].0@ != k {
                assert(assoc_find(s.update(j, (name, p)), k) == assoc_find(
                    s.drop_first().update(j - 1, (name, p)),
                    k,
                ));
            }
        }
    }
}

} // verus!
