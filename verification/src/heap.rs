//! The object arena. An object reference is an index into it; an object's
//! prototype link always points at an earlier slot, so every prototype chain
//! is finite and walking it terminates.

use vstd::prelude::*;

use crate::code::code_wf;
use crate::function::{Function, FunctionPayload};
use crate::objects::{
    assoc_find, lemma_assoc_find_push, lemma_assoc_find_update, own_prop, Object, ObjectPayload,
    Property,
};
use crate::value::Value;

verus! {

/// Whether a function payload's references fit a heap of `len` objects, with
/// well-formed code behind user functions.
pub open spec fn fn_payload_ok(f: Function, len: int) -> bool {
    match f.payload {
        FunctionPayload::UserDefined(d) => d.prototype < len && code_wf(d.code),
        FunctionPayload::Primitive(d) => match d.constructor_metadata {
            Some(m) => m.prototype < len,
            None => true,
        },
    }
}

/// Whether the object that sits at slot `i` of a heap of `len` objects is
/// well formed: its prototype link points at an earlier slot, and a function
/// payload's references are in range.
pub open spec fn obj_refs_ok(o: Object, i: int, len: int) -> bool {
    &&& match o.__proto__ {
        Some(p) => p < i,
        None => true,
    }
    &&& match o.payload {
        ObjectPayload::Function(f) => fn_payload_ok(f, len),
        _ => true,
    }
}

/// Every object of the heap is well formed at its slot.
pub open spec fn heap_wf(h: Seq<Object>) -> bool {
    forall|i: int| 0 <= i < h.len() ==> obj_refs_ok(#[trigger] h[i], i, h.len() as int)
}

/// `[[Get]]`: the first slot under the name along the prototype chain, or
/// `undefined` when the chain ends without one.
pub open spec fn spec_get(h: Seq<Object>, i: int, key: Seq<char>) -> Value
    decreases i,
{
    if !(0 <= i < h.len()) {
        Value::Undefined
    } else {
        match own_prop(h[i], key) {
            Some(p) => p.value,
            None => match h[i].__proto__ {
                None => Value::Undefined,
                Some(q) => if q < i {
                    spec_get(h, q as int, key)
                } else {
                    Value::Undefined
                },
            },
        }
    }
}

/// `[[CanPut]]`: false exactly when some object along the prototype chain,
/// the object itself included, owns a read-only slot under the name.
pub open spec fn spec_can_put(h: Seq<Object>, i: int, key: Seq<char>) -> bool
    decreases i,
{
    if !(0 <= i < h.len()) {
        true
    } else {
        let own_ok = match own_prop(h[i], key) {
            Some(p) => !p.read_only,
            None => true,
        };
        own_ok && match h[i].__proto__ {
            None => true,
            Some(q) => if q < i {
                spec_can_put(h, q as int, key)
            } else {
                true
            },
        }
    }
}

/// `[[HasProperty]]`: whether some object along the prototype chain owns a
/// slot under the name.
pub open spec fn spec_has_property(h: Seq<Object>, i: int, key: Seq<char>) -> bool
    decreases i,
{
    if !(0 <= i < h.len()) {
        false
    } else {
        match own_prop(h[i], key) {
            Some(_) => true,
            None => match h[i].__proto__ {
                None => false,
                Some(q) => if q < i {
                    spec_has_property(h, q as int, key)
                } else {
                    false
                },
            },
        }
    }
}

/// The number of objects on the prototype chain that starts at slot `i`,
/// following links only while they point at earlier slots.
pub open spec fn proto_chain_len(h: Seq<Object>, i: int) -> nat
    decreases i,
{
    if !(0 <= i < h.len()) {
        0
    } else {
        match h[i].__proto__ {
            None => 1,
            Some(q) => if q < i {
                1 + proto_chain_len(h, q as int)
            } else {
                1
            },
        }
    }
}

/// Prototype chains are finite: on a well-formed heap the chain from slot `i`
/// holds at most `i + 1` objects, so `[[Get]]` and `[[CanPut]]` visit at most
/// that many slots and terminate.
pub proof fn lemma_prototype_chains_finite(h: Seq<Object>, i: int)
    requires
        heap_wf(h),
        0 <= i < h.len(),
    ensures
        proto_chain_len(h, i) <= i + 1,
    decreases i,
{
    assert(obj_refs_ok(h[i], i, h.len() as int));
    match h[i].__proto__ {
        None => {},
        Some(q) => {
            lemma_prototype_chains_finite(h, q as int);
        },
    }
}

/// The heap only grows, and settled objects never change.
pub open spec fn heap_extended(pre: Seq<Object>, cur: Seq<Object>) -> bool {
    &&& pre.len() <= cur.len()
    &&& forall|j: int| 0 <= j < pre.len() ==> cur[j] == pre[j]
}

/// The heap only grows, and the prototype link and payload of every settled
/// object never change (its properties may).
pub open spec fn heap_links_preserved(pre: Seq<Object>, cur: Seq<Object>) -> bool {
    &&& pre.len() <= cur.len()
    &&& forall|j: int|
        0 <= j < pre.len() ==> (#[trigger] cur[j]).__proto__ == pre[j].__proto__ && cur[j].payload
            == pre[j].payload
}

/// The object arena.
pub struct Heap {
    pub objects: Vec<Object>,
}

impl View for Heap {
    type V = Seq<Object>;

    open spec fn view(&self) -> Seq<Object> {
        self.objects@
    }
}

/// The index of the first own property under the name, if any.
fn find_own(o: &Object, key: &String) -> (r: Option<usize>)
    ensures
        match r {
            Some(j) => {
                &&& j < o.props@.len()
                &&& o.props@[j as int].0@ == key@
                &&& forall|m: int| 0 <= m < j ==> #[trigger] o.props@[m].0@ != key@
                &&& own_prop(*o, key@) == Some(o.props@[j as int].1)
            },
            None => own_prop(*o, key@) is None,
        },
{
    let mut j: usize = 0;
    proof {
        assert(o.props@.skip(0) =~= o.props@);
    }
    while j < o.props.len()
        invariant
            j <= o.props@.len(),
            forall|m: int| 0 <= m < j ==> #[trigger] o.props@[m].0@ != key@,
            assoc_find(o.props@, key@) == assoc_find(o.props@.skip(j as int), key@),
        decreases o.props@.len() - j,
    {
        if o.props[j].0.eq(key) {
            proof {
                assert(o.props@.skip(j as int)[0] == o.props@[j as int]);
            }
            return Some(j);
        }
        proof {
            assert(o.props@.skip(j as int).drop_first() =~= o.props@.skip(j as int + 1));
        }
        j = j + 1;
    }
    proof {
        assert(o.props@.skip(j as int).len() == 0);
    }
    None
}

impl Heap {
    pub fn new() -> (r: Self)
        ensures
            r@ == Seq::<Object>::empty(),
    {
        Heap { objects: Vec::new() }
    }

    pub fn len(&self) -> (r: usize)
        ensures
            r == self@.len(),
    {
        self.objects.len()
    }

    /// Appends an object whose references fit the present heap, and returns
    /// its slot.
    pub fn add_object(&mut self, o: Object) -> (r: usize)
        requires
            heap_wf(old(self)@),
            obj_refs_ok(o, old(self)@.len() as int, old(self)@.len() as int),
        ensures
            r == old(self)@.len(),
            final(self)@ == old(self)@.push(o),
            heap_wf(final(self)@),
    {
        let r = self.objects.len();
        self.objects.push(o);
        proof {
            assert forall|i: int| 0 <= i < self@.len() implies obj_refs_ok(
                #[trigger] self@[i],
                i,
                self@.len() as int,
            ) by {
                if i < self@.len() - 1 {
                    assert(obj_refs_ok(old(self)@[i], i, old(self)@.len() as int));
                }
            }
        }
        r
    }

    /// `[[Get]]`: walks the prototype chain; `undefined` when no slot holds
    /// the name. Terminates on every chain: each link points at an earlier
    /// slot.
    #[allow(non_snake_case)]
    pub fn Get(&self, i: usize, key: &String) -> (r: Value)
        requires
            heap_wf(self@),
            i < self@.len(),
        ensures
            r == spec_get(self@, i as int, key@),
        decreases i,
    {
        let o = &self.objects[i];
        match find_own(o, key) {
            Some(j) => o.props[j].1.value.clone(),
            None => {
                proof {
                    assert(obj_refs_ok(self@[i as int], i as int, self@.len() as int));
                }
                match o.__proto__ {
                    None => Value::Undefined,
                    Some(q) => self.Get(q, key),
                }
            },
        }
    }

    /// `[[Put]]`: writes a plain writable slot under the name into the
    /// object's own dictionary, replacing the slot found there when one
    /// exists. Every other name, every other object, the payload and the
    /// prototype link are untouched.
    #[allow(non_snake_case)]
    pub fn Put(&mut self, i: usize, key: String, value: Value)
        requires
            heap_wf(old(self)@),
            i < old(self)@.len(),
        ensures
            final(self)@.len() == old(self)@.len(),
            heap_wf(final(self)@),
            forall|j: int| 0 <= j < old(self)@.len() && j != i ==> final(self)@[j] == old(
                self,
            )@[j],
            final(self)@[i as int].__proto__ == old(self)@[i as int].__proto__,
            final(self)@[i as int].payload == old(self)@[i as int].payload,
            own_prop(final(self)@[i as int], key@) matches Some(p) && p.value == value
                && !p.read_only && !p.dont_enum && !p.dont_delete && !p.internal,
            spec_get(final(self)@, i as int, key@) == value,
            forall|k: Seq<char>|
                k != key@ ==> #[trigger] own_prop(final(self)@[i as int], k) == own_prop(
                    old(self)@[i as int],
                    k,
                ),
    {
        let ghost h0 = self@;
        let found = find_own(&self.objects[i], &key);
        let o = &mut self.objects[i];
        let prop = Property::new(value);
        match found {
            Some(j) => {
                proof {
                    lemma_assoc_find_update(o.props@, j as int, key, prop);
                }
                o.props[j] = (key, prop);
            },
            None => {
                proof {
                    lemma_assoc_find_push(o.props@, key, prop);
                }
                o.props.push((key, prop));
            },
        }
        proof {
            assert forall|j: int| 0 <= j < self@.len() implies obj_refs_ok(
                #[trigger] self@[j],
                j,
                self@.len() as int,
            ) by {
                assert(obj_refs_ok(h0[j], j, h0.len() as int));
            }
        }
    }

    /// `[[CanPut]]`: false exactly when some object along the prototype
    /// chain, the object itself included, owns a read-only slot under the
    /// name.
    #[allow(non_snake_case)]
    pub fn CanPut(&self, i: usize, key: &String) -> (r: bool)
        requires
            heap_wf(self@),
            i < self@.len(),
        ensures
            r == spec_can_put(self@, i as int, key@),
        decreases i,
    {
        let o = &self.objects[i];
        let own_ok = match find_own(o, key) {
            Some(j) => !o.props[j].1.read_only,
            None => true,
        };
        if !own_ok {
            return false;
        }
        proof {
            assert(obj_refs_ok(self@[i as int], i as int, self@.len() as int));
        }
        match o.__proto__ {
            None => true,
            Some(q) => self.CanPut(q, key),
        }
    }

    /// `[[HasProperty]]`: whether the name is found along the prototype
    /// chain.
    #[allow(non_snake_case)]
    pub fn HasProperty(&self, i: usize, key: &String) -> (r: bool)
        requires
            heap_wf(self@),
            i < self@.len(),
        ensures
            r == spec_has_property(self@, i as int, key@),
        decreases i,
    {
        let o = &self.objects[i];
        match find_own(o, key) {
            Some(_) => true,
            None => {
                proof {
                    assert(obj_refs_ok(self@[i as int], i as int, self@.len() as int));
                }
                match o.__proto__ {
                    None => false,
                    Some(q) => self.HasProperty(q, key),
                }
            },
        }
    }
}

} // verus!
