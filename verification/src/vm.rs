//! The stack virtual machine: a dispatch loop over frames, a thises stack for
//! receiver binding, name scopes, and the host-implemented primitives.
//!
//! Execution carries a fuel budget. Every instruction and every nested call
//! consumes fuel, and running out surfaces as a runtime error; within the
//! budget the machine is total: no instruction sequence, well formed or not,
//! can make a verified function panic.

#![allow(non_snake_case)]

use vstd::prelude::*;

use crate::code::{code_wf, instr_wf, Code, Instruction};
use crate::context::{ctx_in_range, Context};
use crate::function::{FunctionPayload, PrimKind};
use crate::heap::{heap_links_preserved, heap_wf, Heap};
use crate::numbits;
use crate::objects::{ObjectPayload, PreferredType};
use crate::value::Value;

verus! {

/// What a call either yields or throws: every error is itself a value,
/// conventionally a string describing the failure.
pub type JSResult = Result<Value, Value>;

/// One activation record: a data stack, the executing code, an instruction
/// pointer. Arguments sit at the bottom of the data stack.
pub struct Frame {
    pub datastack: Vec<Value>,
    pub code: Code,
    pub ip: usize,
}

impl Frame {
    pub fn new(code: Code) -> (r: Self)
        ensures
            r.datastack@ == Seq::<Value>::empty(),
            r.code == code,
            r.ip == 0,
    {
        Frame { datastack: Vec::new(), code, ip: 0 }
    }
}

/// The first binding under a name.
pub open spec fn assoc_val(s: Seq<(String, Value)>, key: Seq<char>) -> Option<Value>
    decreases s.len(),
{
    if s.len() == 0 {
        None
    } else if s[0].0@ == key {
        Some(s[0].1)
    } else {
        assoc_val(s.drop_first(), key)
    }
}

/// The index of the first binding under a name, if any.
fn find_val(s: &Vec<(String, Value)>, key: &String) -> (r: Option<usize>)
    ensures
        match r {
            Some(j) => {
                &&& j < s@.len()
                &&& s@[j as int].0@ == key@
                &&& forall|m: int| 0 <= m < j ==> #[trigger] s@[m].0@ != key@
                &&& assoc_val(s@, key@) == Some(s@[j as int].1)
            },
            None => assoc_val(s@, key@) is None,
        },
{
    let mut j: usize = 0;
    proof {
        assert(s@.skip(0) =~= s@);
    }
    while j < s.len()
        invariant
            j <= s@.len(),
            forall|m: int| 0 <= m < j ==> #[trigger] s@[m].0@ != key@,
            assoc_val(s@, key@) == assoc_val(s@.skip(j as int), key@),
        decreases s@.len() - j,
    {
        if s[j].0.eq(key) {
            proof {
                assert(s@.skip(j as int)[0] == s@[j as int]);
            }
            return Some(j);
        }
        proof {
            assert(s@.skip(j as int).drop_first() =~= s@.skip(j as int + 1));
        }
        j = j + 1;
    }
    proof {
        assert(s@.skip(j as int).len() == 0);
    }
    None
}

/// Appending a binding under a fresh name makes it the binding found under
/// that name and leaves every other name's binding unchanged.
proof fn lemma_assoc_val_push(s: Seq<(String, Value)>, name: String, v: Value)
    requires
        assoc_val(s, name@) is None,
    ensures
        assoc_val(s.push((name, v)), name@) == Some(v),
        forall|k: Seq<char>|
            k != name@ ==> #[trigger] assoc_val(s.push((name, v)), k) == assoc_val(s, k),
    decreases s.len(),
{
    if s.len() == 0 {
        assert forall|k: Seq<char>| k != name@ implies #[trigger] assoc_val(s.push((name, v)), k)
            == assoc_val(s, k) by {
            assert(s.push((name, v)).drop_first() =~= s);
        }
        assert(assoc_val(s.push((name, v)), name@) == Some(v));
    } else {
        lemma_assoc_val_push(s.drop_first(), name, v);
        assert(s.push((name, v)).drop_first() =~= s.drop_first().push((name, v)));
        assert(s.push((name, v))[0] == s[0]);
        assert(assoc_val(s.push((name, v)), name@) == Some(v));
        assert forall|k: Seq<char>| k != name@ implies #[trigger] assoc_val(s.push((name, v)), k)
            == assoc_val(s, k) by {
            if s[0].0@ != k {
                assert(assoc_val(s.push((name, v)), k) == assoc_val(
                    s.drop_first().push((name, v)),
                    k,
                ));
            }
        }
    }
}

/// Replacing the first binding under a name updates it and leaves every other
/// name's binding unchanged.
proof fn lemma_assoc_val_update(s: Seq<(String, Value)>, j: int, name: String, v: Value)
    requires
        0 <= j < s.len(),
        s[j].0@ == name@,
        forall|m: int| 0 <= m < j ==> #[trigger] s[m].0@ != name@,
    ensures
        assoc_val(s.update(j, (name, v)), name@) == Some(v),
        forall|k: Seq<char>|
            k != name@ ==> #[trigger] assoc_val(s.update(j, (name, v)), k) == assoc_val(s, k),
    decreases j,
{
    if j == 0 {
        assert forall|k: Seq<char>| k != name@ implies #[trigger] assoc_val(
            s.update(0, (name, v)),
            k,
        ) == assoc_val(s, k) by {
            assert(s.update(0, (name, v)).drop_first() =~= s.drop_first());
        }
    } else {
        lemma_assoc_val_update(s.drop_first(), j - 1, name, v);
        assert(s.update(j, (name, v)).drop_first() =~= s.drop_first().update(j - 1, (name, v)));
        assert(s[0].0@ != name@);
        assert(s.update(j, (name, v))[0] == s[0]);
        assert(assoc_val(s.update(j, (name, v)), name@) == Some(v));
        assert forall|k: Seq<char>| k != name@ implies #[trigger] assoc_val(
            s.update(j, (name, v)),
            k,
        ) == assoc_val(s, k) by {
            if s[0].0@ != k {
                assert(assoc_val(s.update(j, (name, v)), k) == assoc_val(
                    s.drop_first().update(j - 1, (name, v)),
                    k,
                ));
            }
        }
    }
}

/// Binds a name: replaces the first binding under it, or appends one.
fn scope_set(s: &mut Vec<(String, Value)>, name: String, v: Value)
    ensures
        assoc_val(final(s)@, name@) == Some(v),
        forall|k: Seq<char>|
            k != name@ ==> #[trigger] assoc_val(final(s)@, k) == assoc_val(old(s)@, k),
{
    let found = find_val(s, &name);
    match found {
        Some(j) => {
            proof {
                lemma_assoc_val_update(s@, j as int, name, v);
            }
            s[j] = (name, v);
        },
        None => {
            proof {
                lemma_assoc_val_push(s@, name, v);
            }
            s.push((name, v));
        },
    }
}

/// A string error value.
fn str_val(s: &str) -> (r: Value)
    ensures
        r matches Value::String(t) && t@ == s@,
{
    Value::String(s.to_owned())
}

/// The virtual machine.
pub struct VM {
    /// The compiled program the machine was built for.
    pub code: Code,
    /// The built-in prototype graph.
    pub ctx: Context,
    /// The object arena.
    pub heap: Heap,
    /// Global bindings, seeded with the built-ins and `print`.
    pub global_scope: Vec<(String, Value)>,
    /// Local scopes; this core opens none, so names fall through to the
    /// global scope and parameters resolve at compile time.
    pub scopes: Vec<Vec<(String, Value)>>,
    /// In-flight receivers; the top is the current `this`.
    pub thises: Vec<Value>,
    /// Values thrown and not caught.
    pub throw_stack: Vec<Value>,
    /// Everything `print` has written.
    pub output: String,
}

/// The machine's invariant: the heap is well formed, the context points into
/// it, and the program is well formed.
pub open spec fn vm_wf(vm: VM) -> bool {
    &&& heap_wf(vm.heap@)
    &&& ctx_in_range(vm.ctx, vm.heap@)
    &&& code_wf(vm.code)
}

/// The text only grows; what was written stays.
pub open spec fn text_extended(pre: Seq<char>, cur: Seq<char>) -> bool {
    &&& pre.len() <= cur.len()
    &&& forall|i: int| 0 <= i < pre.len() ==> cur[i] == pre[i]
}

/// The machine is untouched: every part is as it was, the receiver stack as
/// a sequence (a balanced stage and unstage leaves it equal).
pub open spec fn vm_untouched(pre: VM, post: VM) -> bool {
    &&& post.code == pre.code
    &&& post.ctx == pre.ctx
    &&& post.heap == pre.heap
    &&& post.global_scope == pre.global_scope
    &&& post.scopes == pre.scopes
    &&& post.thises@ == pre.thises@
    &&& post.throw_stack == pre.throw_stack
    &&& post.output == pre.output
}

/// What every execution step keeps: the invariant, the allocated objects and
/// their links, the output written so far, the context and the program.
pub open spec fn vm_frame(pre: VM, post: VM) -> bool {
    &&& vm_wf(post)
    &&& heap_links_preserved(pre.heap@, post.heap@)
    &&& text_extended(pre.output@, post.output@)
    &&& post.ctx == pre.ctx
    &&& post.code == pre.code
}

impl VM {
    /// A machine over a compiled program and a context, with the globals
    /// seeded.
    pub fn new(code: Code, ctx: Context, heap: Heap) -> (r: VM)
        requires
            code_wf(code),
            heap_wf(heap@),
            ctx_in_range(ctx, heap@),
        ensures
            vm_wf(r),
            r.ctx == ctx,
            r.code == code,
            heap_links_preserved(heap@, r.heap@),
            r.output@ == Seq::<char>::empty(),
            r.thises@ =~= seq![Value::Undefined],
            r.scopes@ == Seq::<Vec<(String, Value)>>::empty(),
            assoc_val(r.global_scope@, "Object"@) == Some(Value::Object(ctx.Object_function)),
            assoc_val(r.global_scope@, "Function"@) == Some(Value::Object(ctx.Function_function)),
            assoc_val(r.global_scope@, "Number"@) == Some(Value::Object(ctx.Number_function)),
            assoc_val(r.global_scope@, "String"@) == Some(Value::Object(ctx.String_function)),
            assoc_val(r.global_scope@, "print"@) matches Some(p) && (p matches Value::Object(i)
                && i == heap@.len() && crate::context::is_builtin_fn(
                r.heap@[i as int],
                PrimKind::Print,
            )),
            // Nothing has been thrown, and nothing else is bound.
            r.throw_stack@ == Seq::<Value>::empty(),
            forall|k: Seq<char>|
                k != "Object"@ && k != "Function"@ && k != "Number"@ && k != "String"@ && k
                    != "print"@ ==> #[trigger] assoc_val(r.global_scope@, k) is None,
    {
        let mut thises: Vec<Value> = Vec::new();
        thises.push(Value::Undefined);
        let vm = VM {
            code,
            ctx,
            heap,
            global_scope: Vec::new(),
            scopes: Vec::new(),
            thises,
            throw_stack: Vec::new(),
            output: String::new(),
        };
        Self::init_vm(vm)
    }

    /// Seeds the global scope with the built-in constructors and `print`.
    fn init_vm(vm: Self) -> (r: Self)
        requires
            heap_wf(vm.heap@),
            ctx_in_range(vm.ctx, vm.heap@),
            vm.global_scope@.len() == 0,
        ensures
            vm_wf(r) <== code_wf(vm.code),
            heap_links_preserved(vm.heap@, r.heap@),
            r.code == vm.code,
            r.ctx == vm.ctx,
            r.scopes == vm.scopes,
            r.thises == vm.thises,
            r.throw_stack == vm.throw_stack,
            r.output == vm.output,
            assoc_val(r.global_scope@, "Object"@) == Some(Value::Object(vm.ctx.Object_function)),
            assoc_val(r.global_scope@, "Function"@) == Some(
                Value::Object(vm.ctx.Function_function),
            ),
            assoc_val(r.global_scope@, "Number"@) == Some(Value::Object(vm.ctx.Number_function)),
            assoc_val(r.global_scope@, "String"@) == Some(Value::Object(vm.ctx.String_function)),
            assoc_val(r.global_scope@, "print"@) matches Some(p) && (p matches Value::Object(i)
                && i == vm.heap@.len() && crate::context::is_builtin_fn(
                r.heap@[i as int],
                PrimKind::Print,
            )),
            forall|k: Seq<char>|
                k != "Object"@ && k != "Function"@ && k != "Number"@ && k != "String"@ && k
                    != "print"@ ==> #[trigger] assoc_val(r.global_scope@, k) is None,
    {
        let ghost g0 = vm.global_scope@;
        proof {
            assert forall|k: Seq<char>| #[trigger] assoc_val(g0, k) is None by {
                assert(g0.len() == 0);
            }
        }
        let mut vm = vm;
        proof {
            reveal_strlit("Object");
            reveal_strlit("Function");
            reveal_strlit("Number");
            reveal_strlit("String");
            reveal_strlit("print");
            assert("Object"@[0] == 'O' && "Number"@[0] == 'N' && "String"@[0] == 'S');
            assert("Object"@.len() == 6 && "Function"@.len() == 8 && "Number"@.len() == 6
                && "String"@.len() == 6 && "print"@.len() == 5);
        }
        scope_set(
            &mut vm.global_scope,
            "Object".to_owned(),
            Value::Object(vm.ctx.Object_function),
        );
        scope_set(
            &mut vm.global_scope,
            "Function".to_owned(),
            Value::Object(vm.ctx.Function_function),
        );
        scope_set(
            &mut vm.global_scope,
            "Number".to_owned(),
            Value::Object(vm.ctx.Number_function),
        );
        scope_set(
            &mut vm.global_scope,
            "String".to_owned(),
            Value::Object(vm.ctx.String_function),
        );
        proof {
            assert(assoc_val(vm.global_scope@, "Object"@) == Some(
                Value::Object(vm.ctx.Object_function),
            ));
            assert(assoc_val(vm.global_scope@, "Function"@) == Some(
                Value::Object(vm.ctx.Function_function),
            ));
            assert(assoc_val(vm.global_scope@, "Number"@) == Some(
                Value::Object(vm.ctx.Number_function),
            ));
        }
        let print_obj = vm.ctx.new_BuiltinFunction(
            &mut vm.heap,
            "print".to_owned(),
            PrimKind::Print,
            0,
        );
        scope_set(&mut vm.global_scope, "print".to_owned(), Value::Object(print_obj));
        vm
    }

    /// Stages a receiver.
    pub fn push_this(&mut self, this: Value)
        ensures
            final(self).thises@ == old(self).thises@.push(this),
            final(self).heap == old(self).heap,
            final(self).ctx == old(self).ctx,
            final(self).code == old(self).code,
            final(self).output == old(self).output,
            final(self).global_scope == old(self).global_scope,
            final(self).scopes == old(self).scopes,
            final(self).throw_stack == old(self).throw_stack,
    {
        self.thises.push(this);
    }

    /// Unstages the current receiver; an error when none is staged.
    pub fn pop_this(&mut self) -> (r: Result<Value, Value>)
        ensures
            final(self).heap == old(self).heap,
            final(self).ctx == old(self).ctx,
            final(self).code == old(self).code,
            final(self).output == old(self).output,
            final(self).global_scope == old(self).global_scope,
            final(self).scopes == old(self).scopes,
            final(self).throw_stack == old(self).throw_stack,
            old(self).thises@.len() > 0 ==> r == Ok::<Value, Value>(old(self).thises@.last())
                && final(self).thises@ == old(self).thises@.drop_last(),
            old(self).thises@.len() == 0 ==> r is Err && final(self).thises@ == old(
                self,
            ).thises@,
    {
        proof {
            if old(self).thises@.len() > 0 {
                assert(old(self).thises@.subrange(0, old(self).thises@.len() - 1)
                    =~= old(self).thises@.drop_last());
            }
        }
        match self.thises.pop() {
            Some(v) => Ok(v),
            None => Err(str_val("'this' underflow")),
        }
    }

    /// The current receiver; an error when none is staged.
    pub fn get_this(&self) -> (r: Result<Value, Value>)
        ensures
            self.thises@.len() > 0 ==> (r matches Ok(v) && v == self.thises@.last()),
            self.thises@.len() == 0 ==> (r matches Err(e) && e matches Value::String(s) && s@
                == "Reference to 'this' does not exist"@),
    {
        if self.thises.len() > 0 {
            let v = self.thises[self.thises.len() - 1].clone();
            Ok(v)
        } else {
            Err(str_val("Reference to 'this' does not exist"))
        }
    }
}

impl VM {
    /// `ToObject`: an object reference stays itself; a number or a string is
    /// boxed into a fresh wrapper object; anything else is a runtime error.
    pub fn ToObject(&mut self, v: &Value) -> (r: Result<usize, Value>)
        requires
            vm_wf(*old(self)),
        ensures
            vm_frame(*old(self), *final(self)),
            final(self).thises == old(self).thises,
            final(self).output == old(self).output,
            r matches Ok(o) ==> o < final(self).heap@.len(),
            forall|i: usize|
                *v == Value::Object(i) && i < old(self).heap@.len() ==> r == Ok::<usize, Value>(i),
            v matches Value::Number(b) ==> (r matches Ok(o2) && o2 == old(self).heap@.len() && (
            final(self).heap@[o2 as int].payload matches ObjectPayload::Number(nb) && nb.value == b)
                && final(self).heap@[o2 as int].__proto__ == Some(old(self).ctx.Number_prototype)),
            v matches Value::String(s) ==> (r matches Ok(o2) && o2 == old(self).heap@.len() && (
            final(self).heap@[o2 as int].payload matches ObjectPayload::String(sb) && sb.value == s)
                && final(self).heap@[o2 as int].__proto__ == Some(old(self).ctx.String_prototype)),
            (v is Undefined || v is Null || v is Boolean) ==> r is Err,
            v matches Value::Object(i) && i >= old(self).heap@.len() ==> r is Err,
    {
        match v {
            Value::Object(o) => {
                if *o < self.heap.len() {
                    Ok(*o)
                } else {
                    Err(str_val("Not an object"))
                }
            },
            Value::Number(b) => {
                let i = self.ctx.new_Number(&mut self.heap, *b);
                Ok(i)
            },
            Value::String(s) => {
                let i = self.ctx.new_String(&mut self.heap, s.clone());
                Ok(i)
            },
            _ => Err(str_val("Not an object")),
        }
    }

    /// `toString` of an object, by payload: a boxed number renders in
    /// decimal, a boxed string unboxes, a function has none, and a regular
    /// object calls the `toString` found on its prototype chain with itself
    /// as receiver.
    pub fn toString(&mut self, o: usize, fuel: u64) -> (r: JSResult)
        requires
            vm_wf(*old(self)),
            o < old(self).heap@.len(),
        ensures
            vm_frame(*old(self), *final(self)),
            old(self).heap@[o as int].payload matches ObjectPayload::Number(nb) ==> (r matches Ok(
                v,
            ) && v matches Value::String(s) && s@ == numbits::spec_num_str(nb.value)),
            old(self).heap@[o as int].payload matches ObjectPayload::String(sb) ==> r == Ok::<
                Value,
                Value,
            >(Value::String(sb.value)),
            old(self).heap@[o as int].payload is Function ==> (r matches Err(e) && e
                matches Value::String(s) && s@ == "couldn't compute toString"@),
            // Only a regular object's lookup can run code or touch the
            // machine.
            !(old(self).heap@[o as int].payload is Regular) ==> *final(self) == *old(self),
            // A regular object without a callable `toString` on its chain is
            // an error.
            old(self).heap@[o as int].payload is Regular && (old(self).heap@[o as int].__proto__
                matches Some(p) && !(crate::heap::spec_get(old(self).heap@, p as int, "toString"@)
                is Object)) ==> r is Err,
            // A regular object whose chain yields the default `toString`
            // built-in renders as `[object Object]`, exactly, touching
            // nothing.
            (old(self).heap@[o as int].payload is Regular && (old(
                self,
            ).heap@[o as int].__proto__ matches Some(p2) && (crate::heap::spec_get(
                old(self).heap@,
                p2 as int,
                "toString"@,
            ) matches Value::Object(fi) && fi < old(self).heap@.len()
                && crate::context::is_builtin_fn(
                old(self).heap@[fi as int],
                PrimKind::ObjectToString,
            ))) && fuel > 0) ==> ((r matches Ok(v2) && v2 matches Value::String(s2) && s2@
                == "[object Object]"@) && vm_untouched(*old(self), *final(self))),
        decreases fuel, 2nat,
    {
        let payload_kind = match &self.heap.objects[o].payload {
            ObjectPayload::Number(nb) => Some(Ok(Value::String(numbits::num_to_string(nb.value)))),
            ObjectPayload::String(sb) => Some(Ok(Value::String(sb.value.clone()))),
            ObjectPayload::Function(_) => Some(Err(str_val("couldn't compute toString"))),
            ObjectPayload::Regular(_) => None,
        };
        match payload_kind {
            Some(r) => r,
            None => {
                let proto = self.heap.objects[o].__proto__;
                match proto {
                    None => Err(str_val("Fatal Error: toString not found")),
                    Some(p) => {
                        proof {
                            assert(crate::heap::obj_refs_ok(
                                self.heap@[o as int],
                                o as int,
                                self.heap@.len() as int,
                            ));
                        }
                        let m = self.heap.Get(p, &"toString".to_owned());
                        match m {
                            Value::Object(fi) => {
                                if fuel == 0 {
                                    return Err(str_val("execution budget exhausted"));
                                }
                                if fi < self.heap.len() {
                                    self.push_this(Value::Object(o));
                                    let res = self.Call(fi, Vec::new(), fuel - 1);
                                    let popped = self.pop_this();
                                    if let Err(e) = popped {
                                        return Err(e);
                                    }
                                    proof {
                                        assert(old(self).thises@.push(
                                            Value::Object(o),
                                        ).drop_last() =~= old(self).thises@);
                                    }
                                    res
                                } else {
                                    Err(str_val("Fatal Error: toString not found"))
                                }
                            },
                            _ => Err(str_val("Fatal Error: toString not found")),
                        }
                    },
                }
            },
        }
    }

    /// `valueOf` of an object, by payload: a boxed number or string unboxes,
    /// a function has none, and a regular object calls the `valueOf` found on
    /// its prototype chain with itself as receiver.
    pub fn valueOf(&mut self, o: usize, fuel: u64) -> (r: JSResult)
        requires
            vm_wf(*old(self)),
            o < old(self).heap@.len(),
        ensures
            vm_frame(*old(self), *final(self)),
            old(self).heap@[o as int].payload matches ObjectPayload::Number(nb) ==> r == Ok::<
                Value,
                Value,
            >(Value::Number(nb.value)),
            old(self).heap@[o as int].payload matches ObjectPayload::String(sb) ==> r == Ok::<
                Value,
                Value,
            >(Value::String(sb.value)),
            old(self).heap@[o as int].payload is Function ==> (r matches Err(e) && e
                matches Value::String(s) && s@ == "couldn't compute valueOf"@),
            // Only a regular object's lookup can run code or touch the
            // machine.
            !(old(self).heap@[o as int].payload is Regular) ==> *final(self) == *old(self),
            // A regular object without a callable `valueOf` on its chain is
            // an error.
            old(self).heap@[o as int].payload is Regular && (old(self).heap@[o as int].__proto__
                matches Some(p) && !(crate::heap::spec_get(old(self).heap@, p as int, "valueOf"@)
                is Object)) ==> r is Err,
            // A regular object whose chain yields the default `valueOf`
            // built-in answers with the object itself, touching nothing.
            (old(self).heap@[o as int].payload is Regular && (old(
                self,
            ).heap@[o as int].__proto__ matches Some(p2) && (crate::heap::spec_get(
                old(self).heap@,
                p2 as int,
                "valueOf"@,
            ) matches Value::Object(fi) && fi < old(self).heap@.len()
                && crate::context::is_builtin_fn(
                old(self).heap@[fi as int],
                PrimKind::ObjectValueOf,
            ))) && fuel > 0) ==> (r == Ok::<Value, Value>(Value::Object(o)) && vm_untouched(
                *old(self),
                *final(self),
            )),
        decreases fuel, 2nat,
    {
        let payload_kind = match &self.heap.objects[o].payload {
            ObjectPayload::Number(nb) => Some(Ok(Value::Number(nb.value))),
            ObjectPayload::String(sb) => Some(Ok(Value::String(sb.value.clone()))),
            ObjectPayload::Function(_) => Some(Err(str_val("couldn't compute valueOf"))),
            ObjectPayload::Regular(_) => None,
        };
        match payload_kind {
            Some(r) => r,
            None => {
                let proto = self.heap.objects[o].__proto__;
                match proto {
                    None => Err(str_val("Fatal Error: valueOf not found")),
                    Some(p) => {
                        proof {
                            assert(crate::heap::obj_refs_ok(
                                self.heap@[o as int],
                                o as int,
                                self.heap@.len() as int,
                            ));
                        }
                        let m = self.heap.Get(p, &"valueOf".to_owned());
                        match m {
                            Value::Object(fi) => {
                                if fuel == 0 {
                                    return Err(str_val("execution budget exhausted"));
                                }
                                if fi < self.heap.len() {
                                    self.push_this(Value::Object(o));
                                    let res = self.Call(fi, Vec::new(), fuel - 1);
                                    let popped = self.pop_this();
                                    if let Err(e) = popped {
                                        return Err(e);
                                    }
                                    proof {
                                        assert(old(self).thises@.push(
                                            Value::Object(o),
                                        ).drop_last() =~= old(self).thises@);
                                    }
                                    res
                                } else {
                                    Err(str_val("Fatal Error: valueOf not found"))
                                }
                            },
                            _ => Err(str_val("Fatal Error: valueOf not found")),
                        }
                    },
                }
            },
        }
    }

    /// `[[DefaultValue]]`: with hint `String`, `toString()` is tried first
    /// and `valueOf()` only when it yielded no primitive; with hint `Number`
    /// or no hint, the other order. When neither attempt yields a primitive
    /// the call is a runtime error, so a success is always a primitive.
    pub fn DefaultValue(&mut self, o: usize, hint: Option<PreferredType>, fuel: u64) -> (r:
        JSResult)
        requires
            vm_wf(*old(self)),
            o < old(self).heap@.len(),
        ensures
            vm_frame(*old(self), *final(self)),
            r matches Ok(v) ==> v.is_primitive(),
            // A number box yields its rendering under hint String and its
            // bits otherwise, whatever the attempt order.
            old(self).heap@[o as int].payload matches ObjectPayload::Number(nb) ==> ((hint
                == Some(PreferredType::String) ==> (r matches Ok(v) && v matches Value::String(s)
                && s@ == numbits::spec_num_str(nb.value))) && (hint != Some(PreferredType::String)
                ==> r == Ok::<Value, Value>(Value::Number(nb.value)))),
            // A string box yields its text under either hint.
            old(self).heap@[o as int].payload matches ObjectPayload::String(sb) ==> r == Ok::<
                Value,
                Value,
            >(Value::String(sb.value)),
            // A function object has neither method, so it always fails; and
            // every failure carries exactly this text.
            old(self).heap@[o as int].payload is Function ==> r is Err,
            r is Err ==> (r matches Err(e) && e matches Value::String(s) && s@
                == "runtime error"@),
            !(old(self).heap@[o as int].payload is Regular) ==> *final(self) == *old(self),
            // A regular object whose chain yields the two default built-ins
            // (as the initial context installs them) renders as
            // `[object Object]` under either hint: its `valueOf` answers the
            // object itself, no primitive, so `toString` decides.
            (old(self).heap@[o as int].payload is Regular && (old(
                self,
            ).heap@[o as int].__proto__ matches Some(p2) && (crate::heap::spec_get(
                old(self).heap@,
                p2 as int,
                "valueOf"@,
            ) matches Value::Object(fv) && fv < old(self).heap@.len()
                && crate::context::is_builtin_fn(
                old(self).heap@[fv as int],
                PrimKind::ObjectValueOf,
            )) && (crate::heap::spec_get(old(self).heap@, p2 as int, "toString"@)
                matches Value::Object(ft) && ft < old(self).heap@.len()
                && crate::context::is_builtin_fn(
                old(self).heap@[ft as int],
                PrimKind::ObjectToString,
            ))) && fuel > 0) ==> ((r matches Ok(v2) && v2 matches Value::String(s2) && s2@
                == "[object Object]"@) && vm_untouched(*old(self), *final(self))),
        decreases fuel, 3nat,
    {
        let hint = match hint {
            Some(h) => h,
            None => PreferredType::Number,
        };
        // The attempts run in order: the second only when the first yields no
        // primitive.
        if hint == PreferredType::String {
            match self.toString(o, fuel) {
                Ok(Value::Object(_)) => {},
                Err(_) => {},
                Ok(v) => {
                    return Ok(v);
                },
            }
            match self.valueOf(o, fuel) {
                Ok(Value::Object(_)) => Err(str_val("runtime error")),
                Err(_) => Err(str_val("runtime error")),
                Ok(v) => Ok(v),
            }
        } else {
            match self.valueOf(o, fuel) {
                Ok(Value::Object(_)) => {},
                Err(_) => {},
                Ok(v) => {
                    return Ok(v);
                },
            }
            match self.toString(o, fuel) {
                Ok(Value::Object(_)) => Err(str_val("runtime error")),
                Err(_) => Err(str_val("runtime error")),
                Ok(v) => Ok(v),
            }
        }
    }

    /// `ToPrimitive`: a non-object is itself; an object goes through
    /// `[[DefaultValue]]`.
    pub fn ToPrimitive(&mut self, v: &Value, hint: Option<PreferredType>, fuel: u64) -> (r:
        JSResult)
        requires
            vm_wf(*old(self)),
        ensures
            vm_frame(*old(self), *final(self)),
            r matches Ok(p) ==> p.is_primitive(),
            v.is_primitive() ==> r == Ok::<Value, Value>(*v),
            // Coercing a primitive touches nothing.
            v.is_primitive() ==> *final(self) == *old(self),
            v matches Value::Object(o) ==> (o < old(self).heap@.len() ==> ((old(
                self,
            ).heap@[o as int].payload matches ObjectPayload::Number(nb) ==> ((hint == Some(
                PreferredType::String,
            ) ==> (r matches Ok(p) && p matches Value::String(s) && s@ == numbits::spec_num_str(
                nb.value,
            ))) && (hint != Some(PreferredType::String) ==> r == Ok::<Value, Value>(
                Value::Number(nb.value),
            )))) && (old(self).heap@[o as int].payload matches ObjectPayload::String(sb) ==> r
                == Ok::<Value, Value>(Value::String(sb.value))))),
        decreases fuel, 4nat,
    {
        match v {
            Value::Object(o) => {
                if *o < self.heap.len() {
                    self.DefaultValue(*o, hint, fuel)
                } else {
                    Err(str_val("Not an object"))
                }
            },
            _ => Ok(v.clone()),
        }
    }

    /// `ToNumber`: total on non-objects (`undefined` is NaN, `null` and
    /// `false` are zero, `true` is one, a string parses as a numeric literal
    /// or is NaN); an object is first taken to a primitive with hint
    /// `Number`. A success is always a number.
    pub fn ToNumber(&mut self, v: &Value, fuel: u64) -> (r: JSResult)
        requires
            vm_wf(*old(self)),
        ensures
            vm_frame(*old(self), *final(self)),
            r matches Ok(n) ==> n is Number,
            v.is_primitive() ==> r == Ok::<Value, Value>(
                Value::Number(crate::value::spec_prim_to_num(*v)),
            ),
            // Coercing a primitive touches nothing.
            v.is_primitive() ==> *final(self) == *old(self),
            // A boxed number unboxes; a boxed string parses its text.
            v matches Value::Object(o) ==> (o < old(self).heap@.len() ==> ((old(
                self,
            ).heap@[o as int].payload matches ObjectPayload::Number(nb) ==> r == Ok::<Value, Value>(
                Value::Number(nb.value),
            )) && (old(self).heap@[o as int].payload matches ObjectPayload::String(sb) ==> r
                == Ok::<Value, Value>(
                Value::Number(crate::value::spec_prim_to_num(Value::String(sb.value))),
            )))),
        decreases fuel, 5nat,
    {
        match v {
            Value::Object(_) => {
                let p = self.ToPrimitive(v, Some(PreferredType::Number), fuel)?;
                Ok(Value::Number(crate::value::prim_to_number(&p)))
            },
            _ => Ok(Value::Number(crate::value::prim_to_number(v))),
        }
    }

    /// `ToString`: total on non-objects; an object is first taken to a
    /// primitive with hint `String`. A success is always a string.
    pub fn ToString(&mut self, v: &Value, fuel: u64) -> (r: JSResult)
        requires
            vm_wf(*old(self)),
        ensures
            vm_frame(*old(self), *final(self)),
            r matches Ok(s) ==> s is String,
            v.is_primitive() ==> (r matches Ok(s) && s matches Value::String(t) && t@
                == crate::value::spec_prim_to_str(*v)),
            // Coercing a primitive touches nothing.
            v.is_primitive() ==> *final(self) == *old(self),
            // A boxed string unboxes; a boxed number renders in decimal.
            v matches Value::Object(o) ==> (o < old(self).heap@.len() ==> ((old(
                self,
            ).heap@[o as int].payload matches ObjectPayload::String(sb) ==> (r matches Ok(s) && s
                matches Value::String(t) && t@ == sb.value@)) && (old(
                self,
            ).heap@[o as int].payload matches ObjectPayload::Number(nb) ==> (r matches Ok(s) && s
                matches Value::String(t) && t@ == numbits::spec_num_str(nb.value))))),
        decreases fuel, 5nat,
    {
        match v {
            Value::Object(o) => {
                if *o >= self.heap.len() {
                    return Err(str_val("Not an object"));
                }
                self.push_this(v.clone());
                let res = self.DefaultValue(*o, Some(PreferredType::String), fuel);
                let popped = self.pop_this();
                if let Err(e) = popped {
                    return Err(e);
                }
                let p = res?;
                Ok(Value::String(crate::value::prim_to_string(&p)))
            },
            _ => Ok(Value::String(crate::value::prim_to_string(v))),
        }
    }

    /// `+` with coercion: both operands go to primitives; when either is a
    /// string the result is the concatenation of their texts, otherwise the
    /// IEEE-754 sum of their numbers.
    pub fn bin_add(&mut self, lhs: &Value, rhs: &Value, fuel: u64) -> (r: JSResult)
        requires
            vm_wf(*old(self)),
        ensures
            vm_frame(*old(self), *final(self)),
            r matches Ok(v) ==> (v is Number || v is String),
            lhs.is_primitive() && rhs.is_primitive() && !(lhs is String || rhs is String) ==> r
                == Ok::<Value, Value>(
                Value::Number(
                    numbits::ieee_add(
                        crate::value::spec_prim_to_num(*lhs),
                        crate::value::spec_prim_to_num(*rhs),
                    ),
                ),
            ),
            lhs.is_primitive() && rhs.is_primitive() && (lhs is String || rhs is String) ==> (r
                matches Ok(v) && v matches Value::String(s) && s@ == crate::value::spec_prim_to_str(
                *lhs,
            ) + crate::value::spec_prim_to_str(*rhs)),
            // NaN contagion: a NaN operand makes a NaN sum.
            lhs.is_primitive() && rhs.is_primitive() && !(lhs is String || rhs is String) && (
            numbits::spec_is_nan(crate::value::spec_prim_to_num(*lhs)) || numbits::spec_is_nan(
                crate::value::spec_prim_to_num(*rhs),
            )) ==> (r matches Ok(v) && v matches Value::Number(n) && numbits::spec_is_nan(n)),
            // Adding primitives touches nothing.
            lhs.is_primitive() && rhs.is_primitive() ==> *final(self) == *old(self),
        decreases fuel, 6nat,
    {
        let v1 = self.ToPrimitive(lhs, None, fuel)?;
        let v2 = self.ToPrimitive(rhs, None, fuel)?;
        if !(v1.is_String() || v2.is_String()) {
            let n1 = crate::value::prim_to_number(&v1);
            let n2 = crate::value::prim_to_number(&v2);
            Ok(Value::Number(numbits::add_bits(n1, n2)))
        } else {
            let mut s = crate::value::prim_to_string(&v1);
            s.append(crate::value::prim_to_string(&v2).as_str());
            Ok(Value::String(s))
        }
    }

    /// `-`: both operands go to numbers; the result is their IEEE-754
    /// difference.
    pub fn bin_sub(&mut self, lhs: &Value, rhs: &Value, fuel: u64) -> (r: JSResult)
        requires
            vm_wf(*old(self)),
        ensures
            vm_frame(*old(self), *final(self)),
            r matches Ok(v) ==> v is Number,
            lhs.is_primitive() && rhs.is_primitive() ==> r == Ok::<Value, Value>(
                Value::Number(
                    numbits::ieee_sub(
                        crate::value::spec_prim_to_num(*lhs),
                        crate::value::spec_prim_to_num(*rhs),
                    ),
                ),
            ),
            // NaN contagion: a NaN operand makes a NaN difference.
            lhs.is_primitive() && rhs.is_primitive() && (numbits::spec_is_nan(
                crate::value::spec_prim_to_num(*lhs),
            ) || numbits::spec_is_nan(crate::value::spec_prim_to_num(*rhs))) ==> (r matches Ok(v)
                && v matches Value::Number(n) && numbits::spec_is_nan(n)),
            // Subtracting primitives touches nothing.
            lhs.is_primitive() && rhs.is_primitive() ==> *final(self) == *old(self),
        decreases fuel, 6nat,
    {
        let n1 = match self.ToNumber(lhs, fuel)? {
            Value::Number(n) => n,
            _ => {
                return Err(str_val("runtime error"));
            },
        };
        let n2 = match self.ToNumber(rhs, fuel)? {
            Value::Number(n) => n,
            _ => {
                return Err(str_val("runtime error"));
            },
        };
        Ok(Value::Number(numbits::sub_bits(n1, n2)))
    }
}

/// What `print` writes for a row of primitive arguments: each argument's
/// text followed by one space. (The trailing newline is written after the
/// row.)
pub open spec fn print_text(args: Seq<Value>) -> Seq<char>
    decreases args.len(),
{
    if args.len() == 0 {
        Seq::empty()
    } else {
        print_text(args.drop_last()) + crate::value::spec_prim_to_str(args.last()) + seq![' ']
    }
}

/// The top local scope, when one is open.
pub open spec fn spec_local_scope(vm: VM) -> Option<Seq<(String, Value)>> {
    if vm.scopes@.len() == 0 {
        None
    } else {
        Some(vm.scopes@.last()@)
    }
}

/// The current receiver, when one is staged.
pub open spec fn spec_this_top(vm: VM) -> Option<Value> {
    if vm.thises@.len() == 0 {
        None
    } else {
        Some(vm.thises@.last())
    }
}

/// The initial data stack of a call: the arguments in order, padded with
/// `undefined` up to the arity. Extra arguments are kept.
pub open spec fn spec_padded_args(args: Seq<Value>, arity: nat) -> Seq<Value> {
    if args.len() >= arity {
        args
    } else {
        args + Seq::new((arity - args.len()) as nat, |i: int| Value::Undefined)
    }
}

/// A spec-level interpreter over the pure fragment of the instruction set:
/// the instructions that read and write only the frame (the loads, the
/// jumps, `Return`), the reads of a name, the receiver, a constant or an
/// argument slot, and the three operators on primitive operands (`BinAdd`
/// only when neither operand is a string: concatenation builds a new string,
/// which a spec value cannot name). `Some(Ok(v))` and `Some(Err(text))`
/// settle the run; `None` means it leaves the fragment and says nothing.
/// Each step burns one unit of fuel, exactly as the dispatch loop does.
pub open spec fn pure_run(
    instrs: Seq<Instruction>,
    consts: Seq<Value>,
    names: Seq<String>,
    globals: Seq<(String, Value)>,
    locals: Option<Seq<(String, Value)>>,
    this: Option<Value>,
    stack: Seq<Value>,
    ip: nat,
    fuel: nat,
) -> Option<Result<Value, Seq<char>>>
    decreases fuel,
{
    if ip >= instrs.len() {
        Some(Ok(Value::Undefined))
    } else if fuel == 0 {
        Some(Err("execution budget exhausted"@))
    } else {
        let fl = (fuel - 1) as nat;
        match instrs[ip as int] {
            Instruction::LoadUndefined => pure_run(
                instrs,
                consts,
                names,
                globals,
                locals,
                this,
                stack.push(Value::Undefined),
                (ip + 1) as nat,
                fl,
            ),
            Instruction::LoadNull => pure_run(
                instrs,
                consts,
                names,
                globals,
                locals,
                this,
                stack.push(Value::Null),
                (ip + 1) as nat,
                fl,
            ),
            Instruction::LoadBool(b) => pure_run(
                instrs,
                consts,
                names,
                globals,
                locals,
                this,
                stack.push(Value::Boolean(b)),
                (ip + 1) as nat,
                fl,
            ),
            Instruction::LoadConst(k) => pure_run(
                instrs,
                consts,
                names,
                globals,
                locals,
                this,
                stack.push(consts[k as int]),
                (ip + 1) as nat,
                fl,
            ),
            Instruction::LoadName(n) => {
                let hit = match locals {
                    Some(sc) => assoc_val(sc, names[n as int]@),
                    None => None,
                };
                match hit {
                    Some(v) => pure_run(
                        instrs,
                        consts,
                        names,
                        globals,
                        locals,
                        this,
                        stack.push(v),
                        (ip + 1) as nat,
                        fl,
                    ),
                    None => match assoc_val(globals, names[n as int]@) {
                        Some(v) => pure_run(
                            instrs,
                            consts,
                            names,
                            globals,
                            locals,
                            this,
                            stack.push(v),
                            (ip + 1) as nat,
                            fl,
                        ),
                        None => Some(
                            Err("NameError: '"@ + names[n as int]@ + "' not found"@),
                        ),
                    },
                }
            },
            Instruction::LoadArg(i) => if (i as nat) < stack.len() {
                pure_run(
                    instrs,
                    consts,
                    names,
                    globals,
                    locals,
                    this,
                    stack.push(stack[i as int]),
                    (ip + 1) as nat,
                    fl,
                )
            } else {
                Some(Err("stack underflow"@))
            },
            Instruction::LoadThis => match this {
                Some(v) => pure_run(
                    instrs,
                    consts,
                    names,
                    globals,
                    locals,
                    this,
                    stack.push(v),
                    (ip + 1) as nat,
                    fl,
                ),
                None => Some(Err("Reference to 'this' does not exist"@)),
            },
            Instruction::Pop => if stack.len() > 0 {
                pure_run(
                    instrs,
                    consts,
                    names,
                    globals,
                    locals,
                    this,
                    stack.drop_last(),
                    (ip + 1) as nat,
                    fl,
                )
            } else {
                Some(Err("stack underflow"@))
            },
            Instruction::Jump(t) => pure_run(
                instrs,
                consts,
                names,
                globals,
                locals,
                this,
                stack,
                t as nat,
                fl,
            ),
            Instruction::PopJumpIfFalse(t) => if stack.len() == 0 {
                Some(Err("stack underflow"@))
            } else if !crate::value::spec_to_boolean(stack.last()) {
                pure_run(
                    instrs,
                    consts,
                    names,
                    globals,
                    locals,
                    this,
                    stack.drop_last(),
                    t as nat,
                    fl,
                )
            } else {
                pure_run(
                    instrs,
                    consts,
                    names,
                    globals,
                    locals,
                    this,
                    stack.drop_last(),
                    (ip + 1) as nat,
                    fl,
                )
            },
            Instruction::Return => if stack.len() > 0 {
                Some(Ok(stack.last()))
            } else {
                Some(Err("stack underflow"@))
            },
            Instruction::BinEq => if stack.len() < 2 {
                Some(Err("stack underflow"@))
            } else {
                pure_run(
                    instrs,
                    consts,
                    names,
                    globals,
                    locals,
                    this,
                    stack.drop_last().drop_last().push(
                        Value::Boolean(
                            crate::value::spec_value_eq(stack[stack.len() - 2], stack.last()),
                        ),
                    ),
                    (ip + 1) as nat,
                    fl,
                )
            },
            Instruction::BinAdd => if stack.len() < 2 {
                Some(Err("stack underflow"@))
            } else if stack[stack.len() - 2].is_primitive() && stack.last().is_primitive() && !(
            stack[stack.len() - 2] is String || stack.last() is String) {
                pure_run(
                    instrs,
                    consts,
                    names,
                    globals,
                    locals,
                    this,
                    stack.drop_last().drop_last().push(
                        Value::Number(
                            numbits::ieee_add(
                                crate::value::spec_prim_to_num(stack[stack.len() - 2]),
                                crate::value::spec_prim_to_num(stack.last()),
                            ),
                        ),
                    ),
                    (ip + 1) as nat,
                    fl,
                )
            } else {
                None
            },
            Instruction::BinSub => if stack.len() < 2 {
                Some(Err("stack underflow"@))
            } else if stack[stack.len() - 2].is_primitive() && stack.last().is_primitive() {
                pure_run(
                    instrs,
                    consts,
                    names,
                    globals,
                    locals,
                    this,
                    stack.drop_last().drop_last().push(
                        Value::Number(
                            numbits::ieee_sub(
                                crate::value::spec_prim_to_num(stack[stack.len() - 2]),
                                crate::value::spec_prim_to_num(stack.last()),
                            ),
                        ),
                    ),
                    (ip + 1) as nat,
                    fl,
                )
            } else {
                None
            },
            _ => None,
        }
    }
}

/// How a value can be invoked, read out of a function object's payload.
enum Callee {
    User(Code, usize),
    Prim(PrimKind),
    NotCallable,
}

/// How a value can be constructed, read out of a function object's payload.
enum Ctor {
    User(usize),
    Prim(PrimKind),
    PrimNoCtor,
    NotFunction,
}

/// The first binding under a name, cloned out.
fn scope_get(s: &Vec<(String, Value)>, key: &String) -> (r: Option<Value>)
    ensures
        r == assoc_val(s@, key@),
{
    match find_val(s, key) {
        Some(j) => Some(s[j].1.clone()),
        None => None,
    }
}

/// Pops the top of a frame's data stack; an error when it is empty.
fn pop_val(frm: &mut Frame) -> (r: Result<Value, Value>)
    ensures
        final(frm).code == old(frm).code,
        final(frm).ip == old(frm).ip,
        old(frm).datastack@.len() > 0 ==> r == Ok::<Value, Value>(old(frm).datastack@.last())
            && final(frm).datastack@ == old(frm).datastack@.drop_last(),
        old(frm).datastack@.len() == 0 ==> (r matches Err(e) && e matches Value::String(s) && s@
            == "stack underflow"@) && final(frm).datastack@ == old(frm).datastack@,
{
    proof {
        if old(frm).datastack@.len() > 0 {
            assert(old(frm).datastack@.subrange(0, old(frm).datastack@.len() - 1) =~= old(
                frm,
            ).datastack@.drop_last());
        }
    }
    match frm.datastack.pop() {
        Some(v) => Ok(v),
        None => Err(str_val("stack underflow")),
    }
}

/// A fresh frame over a code unit: the arguments in order at the bottom of
/// the data stack, padded with `undefined` up to the arity, instruction
/// pointer at the start.
fn args_frame(code: Code, arity: usize, args: Vec<Value>) -> (r: Frame)
    ensures
        r.code == code,
        r.ip == 0,
        r.datastack@.len() == if args@.len() >= arity {
            args@.len()
        } else {
            arity as nat
        },
        forall|i: int| 0 <= i < args@.len() ==> r.datastack@[i] == args@[i],
        forall|i: int|
            args@.len() <= i < r.datastack@.len() ==> r.datastack@[i] == Value::Undefined,
{
    let ghost args0 = args@;
    let ghost code0 = code;
    let mut frm = Frame { datastack: args, code, ip: 0 };
    while frm.datastack.len() < arity
        invariant
            frm.code == code0,
            frm.ip == 0,
            args0.len() <= frm.datastack@.len(),
            frm.datastack@.len() <= args0.len() || frm.datastack@.len() <= arity,
            forall|i: int| 0 <= i < args0.len() ==> frm.datastack@[i] == args0[i],
            forall|i: int|
                args0.len() <= i < frm.datastack@.len() ==> frm.datastack@[i]
                    == Value::Undefined,
        decreases arity - frm.datastack@.len(),
    {
        frm.datastack.push(Value::Undefined);
    }
    frm
}

impl VM {
    /// `[[Call]]`: a user function runs its code with the arguments padded to
    /// its arity; a primitive function runs its host routine; anything else
    /// is the `Object not callable` error, exactly.
    pub fn Call(&mut self, f: usize, args: Vec<Value>, fuel: u64) -> (r: JSResult)
        requires
            vm_wf(*old(self)),
            f < old(self).heap@.len(),
        ensures
            vm_frame(*old(self), *final(self)),
            !(old(self).heap@[f as int].payload is Function) ==> (r matches Err(v) && v
                matches Value::String(s) && s@ == "Object not callable"@),
            // `Number.prototype.valueOf`, reached through a call, unboxes the
            // current receiver exactly.
            old(self).heap@[f as int].payload matches ObjectPayload::Function(fun) ==> ((
            fun.payload matches FunctionPayload::Primitive(d) && d.func == PrimKind::NumberValueOf
                && old(self).thises@.len() > 0) ==> (old(self).thises@.last()
                matches Value::Object(o) ==> (o < old(self).heap@.len() ==> (old(
                self,
            ).heap@[o as int].payload matches ObjectPayload::Number(nb) ==> r == Ok::<Value, Value>(
                Value::Number(nb.value),
            ))))),
            // `Object.prototype.toString`, reached through a call with an
            // object receiver, yields exactly `[object Object]`.
            old(self).heap@[f as int].payload matches ObjectPayload::Function(fun2) ==> ((
            fun2.payload matches FunctionPayload::Primitive(d2) && d2.func
                == PrimKind::ObjectToString && old(self).thises@.len() > 0 && old(
                self,
            ).thises@.last() is Object) ==> (r matches Ok(v) && v matches Value::String(s2) && s2@
                == "[object Object]"@)),
            // The three receiver-reading built-ins touch nothing.
            old(self).heap@[f as int].payload matches ObjectPayload::Function(fun3) ==> ((
            fun3.payload matches FunctionPayload::Primitive(d3) && (d3.func
                == PrimKind::ObjectToString || d3.func == PrimKind::ObjectValueOf || d3.func
                == PrimKind::NumberValueOf)) ==> *final(self) == *old(self)),
            // `Object.prototype.valueOf`, reached through a call, yields
            // exactly the current receiver.
            old(self).heap@[f as int].payload matches ObjectPayload::Function(fun4) ==> ((
            fun4.payload matches FunctionPayload::Primitive(d4) && d4.func
                == PrimKind::ObjectValueOf && old(self).thises@.len() > 0) ==> r == Ok::<
                Value,
                Value,
            >(old(self).thises@.last())),
            // `print`, reached through a call with primitive arguments,
            // writes exactly its row and yields `undefined`.
            old(self).heap@[f as int].payload matches ObjectPayload::Function(fun5) ==> ((
            fun5.payload matches FunctionPayload::Primitive(d5) && d5.func == PrimKind::Print && (
            forall|i: int| 0 <= i < args@.len() ==> (#[trigger] args@[i]).is_primitive())) ==> (r
                == Ok::<Value, Value>(Value::Undefined) && final(self).output@ == old(
                self,
            ).output@ + print_text(args@) + "\n"@ && final(self).heap == old(self).heap
                && final(self).thises@ == old(self).thises@ && final(self).scopes == old(
                self,
            ).scopes && final(self).global_scope == old(self).global_scope
                && final(self).throw_stack == old(self).throw_stack)),
            // A user function runs its code on the arguments padded to its
            // arity, under the current receiver; within the pure fragment
            // the spec-level interpreter settles the run.
            old(self).heap@[f as int].payload matches ObjectPayload::Function(fun6) ==> (
            fun6.payload matches FunctionPayload::UserDefined(d6) ==> (fuel > 0 ==> (pure_run(
                d6.code.instrs@,
                d6.code.consts@,
                d6.code.names@,
                old(self).global_scope@,
                spec_local_scope(*old(self)),
                spec_this_top(*old(self)),
                spec_padded_args(args@, fun6.length as nat),
                0,
                (fuel - 1) as nat,
            ) matches Some(res6) ==> (*final(self) == *old(self) && (res6 matches Ok(v6) ==> r
                == Ok::<Value, Value>(v6)) && (res6 matches Err(t6) ==> (r matches Err(e6) && e6
                matches Value::String(s6) && s6@ == t6)))))),
        decreases fuel, 7nat,
    {
        let callee = match &self.heap.objects[f].payload {
            ObjectPayload::Function(fun) => match &fun.payload {
                FunctionPayload::UserDefined(d) => Callee::User(d.code.clone(), fun.length),
                FunctionPayload::Primitive(d) => Callee::Prim(d.func),
            },
            _ => Callee::NotCallable,
        };
        match callee {
            Callee::User(code, length) => {
                proof {
                    assert(crate::heap::obj_refs_ok(
                        self.heap@[f as int],
                        f as int,
                        self.heap@.len() as int,
                    ));
                }
                self.call_code(code, length, args, fuel)
            },
            Callee::Prim(kind) => self.call_primitive(kind, &args, fuel),
            Callee::NotCallable => Err(str_val("Object not callable")),
        }
    }

    /// `[[Construct]]`: a user function gets a fresh instance whose prototype
    /// link is the function's instance prototype; the instance is the
    /// receiver while the body runs and is the result whatever the body
    /// returned. A primitive with a constructor runs it; one without, and any
    /// non-function, is an error, exactly.
    pub fn Construct(&mut self, f: usize, args: Vec<Value>, fuel: u64) -> (r: JSResult)
        requires
            vm_wf(*old(self)),
            f < old(self).heap@.len(),
        ensures
            vm_frame(*old(self), *final(self)),
            // Constructor wiring: a user construction returns a fresh
            // instance whose prototype link is the callee's instance
            // prototype.
            old(self).heap@[f as int].payload matches ObjectPayload::Function(fun) ==> (fun.payload
                matches FunctionPayload::UserDefined(d) ==> (r matches Ok(v) ==> v == Value::Object(
                old(self).heap@.len() as usize,
            ) && final(self).heap@[old(self).heap@.len() as int].__proto__ == Some(d.prototype))),
            !(old(self).heap@[f as int].payload is Function) ==> (r matches Err(v) && v
                matches Value::String(s) && s@ == "Object not constructible"@),
            // A built-in without a constructor is refused, exactly, touching
            // nothing.
            old(self).heap@[f as int].payload matches ObjectPayload::Function(fun2) ==> ((
            fun2.payload matches FunctionPayload::Primitive(d2) && d2.constructor_metadata is None)
                ==> ((r matches Err(v) && v matches Value::String(s) && s@
                == "Object is not constructible"@) && *final(self) == *old(self))),
            // `new Number(v)` on a primitive argument yields a fresh wrapper
            // boxing exactly its numeric coercion; `new Number()` boxes `+0`.
            old(self).heap@[f as int].payload matches ObjectPayload::Function(fun3) ==> ((
            fun3.payload matches FunctionPayload::Primitive(d3) && (d3.constructor_metadata
                matches Some(m) && m.constructor == PrimKind::NumberConstructor) && (args@.len()
                == 0 || (args@.len() > 0 && args@[0].is_primitive()))) ==> (r == Ok::<Value, Value>(
                Value::Object(old(self).heap@.len() as usize),
            ) && final(self).heap@.len() == old(self).heap@.len() + 1 && (final(self).heap@[old(
                self,
            ).heap@.len() as int].payload matches ObjectPayload::Number(nb) && nb.value == (
            if args@.len() == 0 {
                numbits::ZERO_BITS
            } else {
                crate::value::spec_prim_to_num(args@[0])
            })) && final(self).heap@[old(self).heap@.len() as int].__proto__ == Some(
                old(self).ctx.Number_prototype,
            ) && final(self).thises@ == old(self).thises@ && final(self).output == old(
                self,
            ).output)),
            // `new String(v)` on a primitive argument yields the primitive
            // text itself, touching nothing.
            old(self).heap@[f as int].payload matches ObjectPayload::Function(fun5) ==> ((
            fun5.payload matches FunctionPayload::Primitive(d5) && (d5.constructor_metadata
                matches Some(m5) && m5.constructor == PrimKind::StringConstructor) && args@.len()
                > 0 && args@[0].is_primitive()) ==> ((r matches Ok(v5) && v5
                matches Value::String(s5) && s5@ == crate::value::spec_prim_to_str(args@[0]))
                && *final(self) == *old(self))),
            // A user construction allocates the instance, stages it as the
            // receiver, runs the body, and unstages it: within the pure
            // fragment the receiver stack comes back as it was, the heap has
            // grown by exactly the instance, and the instance is the result
            // whatever the body returned.
            old(self).heap@[f as int].payload matches ObjectPayload::Function(fun4) ==> (
            fun4.payload matches FunctionPayload::UserDefined(d4) ==> (fuel > 0 ==> (pure_run(
                d4.code.instrs@,
                d4.code.consts@,
                d4.code.names@,
                old(self).global_scope@,
                spec_local_scope(*old(self)),
                Some(Value::Object(old(self).heap@.len() as usize)),
                spec_padded_args(args@, fun4.length as nat),
                0,
                (fuel - 1) as nat,
            ) matches Some(res4) ==> (final(self).thises@ == old(self).thises@
                && final(self).heap@.len() == old(self).heap@.len() + 1
                && final(self).heap@[old(self).heap@.len() as int].__proto__ == Some(d4.prototype)
                && final(self).heap@[old(self).heap@.len() as int].payload is Regular
                && final(self).output == old(self).output && final(self).global_scope == old(
                self,
            ).global_scope && final(self).scopes == old(self).scopes && (res4 is Ok ==> r == Ok::<
                Value,
                Value,
            >(Value::Object(old(self).heap@.len() as usize))) && (res4 matches Err(t4) ==> (r
                matches Err(e4) && e4 matches Value::String(s4) && s4@ == t4)))))),
        decreases fuel, 8nat,
    {
        let ctor = match &self.heap.objects[f].payload {
            ObjectPayload::Function(fun) => match &fun.payload {
                FunctionPayload::UserDefined(d) => Ctor::User(d.prototype),
                FunctionPayload::Primitive(d) => match &d.constructor_metadata {
                    Some(m) => Ctor::Prim(m.constructor),
                    None => Ctor::PrimNoCtor,
                },
            },
            _ => Ctor::NotFunction,
        };
        match ctor {
            Ctor::User(prototype) => {
                proof {
                    assert(crate::heap::obj_refs_ok(
                        self.heap@[f as int],
                        f as int,
                        self.heap@.len() as int,
                    ));
                }
                let inst = self.ctx.new_Object(&mut self.heap, Some(prototype));
                self.push_this(Value::Object(inst));
                let res = self.Call(f, args, fuel);
                let popped = self.pop_this();
                if let Err(e) = popped {
                    return Err(e);
                }
                proof {
                    assert(old(self).thises@.push(Value::Object(inst)).drop_last() =~= old(
                        self,
                    ).thises@);
                }
                match res {
                    Ok(_) => Ok(Value::Object(inst)),
                    Err(e) => Err(e),
                }
            },
            Ctor::Prim(kind) => self.call_primitive(kind, &args, fuel),
            Ctor::PrimNoCtor => Err(str_val("Object is not constructible")),
            Ctor::NotFunction => Err(str_val("Object not constructible")),
        }
    }

    /// Runs a code unit in a fresh frame built by [`args_frame`]: the
    /// arguments sit at the bottom of the data stack in order, padded with
    /// `undefined` up to the arity.
    pub fn call_code(&mut self, code: Code, arity: usize, args: Vec<Value>, fuel: u64) -> (r:
        JSResult)
        requires
            vm_wf(*old(self)),
            code_wf(code),
        ensures
            vm_frame(*old(self), *final(self)),
            // No budget: the call is refused before a frame exists.
            fuel == 0 ==> (r matches Err(e) && e matches Value::String(s) && s@
                == "execution budget exhausted"@) && *final(self) == *old(self),
            // The frame starts on the arguments padded to the arity; within
            // the pure fragment the spec-level interpreter settles the run.
            fuel > 0 ==> (pure_run(
                code.instrs@,
                code.consts@,
                code.names@,
                old(self).global_scope@,
                spec_local_scope(*old(self)),
                spec_this_top(*old(self)),
                spec_padded_args(args@, arity as nat),
                0,
                (fuel - 1) as nat,
            ) matches Some(res) ==> (*final(self) == *old(self) && (res matches Ok(v) ==> r
                == Ok::<Value, Value>(v)) && (res matches Err(t) ==> (r matches Err(e2) && e2
                matches Value::String(s2) && s2@ == t)))),
        decreases fuel, 6nat,
    {
        if fuel == 0 {
            return Err(str_val("execution budget exhausted"));
        }
        let ghost args0 = args@;
        let mut frm = args_frame(code, arity, args);
        proof {
            assert(frm.datastack@ =~= spec_padded_args(args0, arity as nat));
        }
        self.exec_top_frame(&mut frm, fuel - 1)
    }

    /// One host routine.
    #[verifier::rlimit(60)]
    #[verifier::loop_isolation(false)]
    pub fn call_primitive(&mut self, kind: PrimKind, args: &Vec<Value>, fuel: u64) -> (r: JSResult)
        requires
            vm_wf(*old(self)),
        ensures
            vm_frame(*old(self), *final(self)),
            // `Number.prototype.valueOf` on a boxed number yields exactly the
            // boxed bits.
            kind == PrimKind::NumberValueOf && old(self).thises@.len() > 0 ==> (old(
                self,
            ).thises@.last() matches Value::Object(o) ==> (o < old(self).heap@.len() ==> (old(
                self,
            ).heap@[o as int].payload matches ObjectPayload::Number(nb) ==> r == Ok::<Value, Value>(
                Value::Number(nb.value),
            )))),
            // `Object.prototype.toString` with an object receiver yields
            // exactly `[object Object]`.
            kind == PrimKind::ObjectToString && old(self).thises@.len() > 0 && old(
                self,
            ).thises@.last() is Object ==> (r matches Ok(v) && v matches Value::String(s) && s@
                == "[object Object]"@),
            // The three receiver-reading routines touch nothing.
            kind == PrimKind::ObjectToString || kind == PrimKind::ObjectValueOf || kind
                == PrimKind::NumberValueOf ==> *final(self) == *old(self),
            // `Object.prototype.valueOf` yields exactly the current receiver.
            kind == PrimKind::ObjectValueOf && old(self).thises@.len() > 0 ==> r == Ok::<
                Value,
                Value,
            >(old(self).thises@.last()),
            // `new Number(v)` on a primitive argument boxes exactly its
            // numeric coercion, in a fresh wrapper off `Number.prototype`;
            // with no argument it boxes `+0`.
            kind == PrimKind::NumberConstructor && (args@.len() == 0 || (args@.len() > 0
                && args@[0].is_primitive())) ==> (r == Ok::<Value, Value>(
                Value::Object(old(self).heap@.len() as usize),
            ) && final(self).heap@.len() == old(self).heap@.len() + 1 && (final(self).heap@[old(
                self,
            ).heap@.len() as int].payload matches ObjectPayload::Number(nb) && nb.value == (
            if args@.len() == 0 {
                numbits::ZERO_BITS
            } else {
                crate::value::spec_prim_to_num(args@[0])
            })) && final(self).heap@[old(self).heap@.len() as int].__proto__ == Some(
                old(self).ctx.Number_prototype,
            ) && final(self).thises@ == old(self).thises@ && final(self).output == old(
                self,
            ).output),
            // `print` yields `undefined`; for primitive arguments it writes
            // exactly each argument's text followed by a space, then a
            // newline.
            kind == PrimKind::Print ==> (r is Ok ==> r == Ok::<Value, Value>(Value::Undefined)),
            kind == PrimKind::Print && (forall|i: int|
                0 <= i < args@.len() ==> (#[trigger] args@[i]).is_primitive()) ==> (r == Ok::<
                Value,
                Value,
            >(Value::Undefined) && final(self).output@ == old(self).output@ + print_text(args@)
                + "\n"@ && final(self).heap == old(self).heap && final(self).thises@ == old(
                self,
            ).thises@ && final(self).scopes == old(self).scopes && final(self).global_scope == old(
                self,
            ).global_scope && final(self).throw_stack == old(self).throw_stack),
            // `Number(v)` coerces a primitive argument exactly; with no
            // argument it is `+0`. Neither touches the machine.
            kind == PrimKind::NumberFunction && args@.len() == 0 ==> r == Ok::<Value, Value>(
                Value::Number(numbits::ZERO_BITS),
            ) && *final(self) == *old(self),
            kind == PrimKind::NumberFunction && args@.len() > 0 && args@[0].is_primitive() ==> r
                == Ok::<Value, Value>(Value::Number(crate::value::spec_prim_to_num(args@[0])))
                && *final(self) == *old(self),
            // `String(v)` and `new String(v)` both yield the primitive text
            // itself; `String()` is the empty string.
            kind == PrimKind::StringFunction && args@.len() == 0 ==> (r matches Ok(v) && v
                matches Value::String(s3) && s3@ == Seq::<char>::empty()) && *final(self) == *old(
                self,
            ),
            (kind == PrimKind::StringFunction || kind == PrimKind::StringConstructor)
                && args@.len() > 0 && args@[0].is_primitive() ==> (r matches Ok(v) && v
                matches Value::String(s4) && s4@ == crate::value::spec_prim_to_str(args@[0]))
                && *final(self) == *old(self),
        decreases fuel, 6nat,
    {
        match kind {
            PrimKind::Print => {
                // Each argument's text, each followed by one space, then a
                // newline.
                let ghost pre = *self;
                proof {
                    reveal_strlit(" ");
                    reveal_strlit("\n");
                    assert(args@.take(0) =~= Seq::<Value>::empty());
                    assert(self.output@ =~= pre.output@ + print_text(args@.take(0)));
                }
                let mut i: usize = 0;
                while i < args.len()
                    invariant
                        i <= args@.len(),
                        vm_wf(*self),
                        vm_frame(pre, *self),
                        (forall|m: int| 0 <= m < args@.len() ==> (#[trigger] args@[m]).is_primitive())
                            ==> self.output@ == pre.output@ + print_text(args@.take(i as int))
                            && self.heap == pre.heap && self.thises@ == pre.thises@ && self.scopes
                            == pre.scopes && self.global_scope == pre.global_scope
                            && self.throw_stack == pre.throw_stack,
                    decreases args@.len() - i,
                {
                    let ghost mid = *self;
                    let s = match self.ToString(&args[i], fuel) {
                        Ok(Value::String(s)) => s,
                        Ok(_) => {
                            return Err(str_val("runtime error"));
                        },
                        Err(e) => {
                            return Err(e);
                        },
                    };
                    self.output.append(s.as_str());
                    self.output.append(" ");
                    proof {
                        if forall|m: int|
                            0 <= m < args@.len() ==> (#[trigger] args@[m]).is_primitive() {
                            assert(args@.take(i + 1).drop_last() =~= args@.take(i as int));
                            assert(args@.take(i + 1).last() == args@[i as int]);
                            assert(self.output@ =~= pre.output@ + print_text(args@.take(i + 1)));
                        }
                    }
                    i = i + 1;
                }
                self.output.append("\n");
                proof {
                    assert(args@.take(args@.len() as int) =~= args@);
                    if forall|m: int|
                        0 <= m < args@.len() ==> (#[trigger] args@[m]).is_primitive() {
                        assert(self.output@ =~= pre.output@ + print_text(args@) + "\n"@);
                    }
                }
                Ok(Value::Undefined)
            },
            PrimKind::ObjectFunction => {
                if args.len() == 0 {
                    let i = self.ctx.new_Object(&mut self.heap, Some(self.ctx.Object_prototype));
                    Ok(Value::Object(i))
                } else {
                    match &args[0] {
                        Value::Null => {
                            let i = self.ctx.new_Object(
                                &mut self.heap,
                                Some(self.ctx.Object_prototype),
                            );
                            Ok(Value::Object(i))
                        },
                        Value::Undefined => {
                            let i = self.ctx.new_Object(
                                &mut self.heap,
                                Some(self.ctx.Object_prototype),
                            );
                            Ok(Value::Object(i))
                        },
                        _ => {
                            let o = self.ToObject(&args[0])?;
                            Ok(Value::Object(o))
                        },
                    }
                }
            },
            PrimKind::ObjectConstructor => Err(str_val("Not impl")),
            PrimKind::FunctionFunction => Err(str_val("Not impl")),
            PrimKind::FunctionConstructor => Err(str_val("Not impl")),
            PrimKind::NumberFunction => {
                if args.len() == 0 {
                    Ok(Value::Number(numbits::ZERO_BITS))
                } else {
                    self.ToNumber(&args[0], fuel)
                }
            },
            PrimKind::NumberConstructor => {
                if args.len() == 0 {
                    let i = self.ctx.new_Number(&mut self.heap, numbits::ZERO_BITS);
                    Ok(Value::Object(i))
                } else {
                    let v = self.ToNumber(&args[0], fuel)?;
                    match v {
                        Value::Number(n) => {
                            let i = self.ctx.new_Number(&mut self.heap, n);
                            Ok(Value::Object(i))
                        },
                        _ => Err(str_val("Fatal Error: ToNumber didn't return Value::Number")),
                    }
                }
            },
            PrimKind::StringFunction => {
                if args.len() == 0 {
                    Ok(Value::String(String::new()))
                } else {
                    self.ToString(&args[0], fuel)
                }
            },
            PrimKind::StringConstructor => {
                if args.len() == 0 {
                    let i = self.ctx.new_String(&mut self.heap, String::new());
                    Ok(Value::Object(i))
                } else {
                    // Construction of a string yields the primitive text
                    // itself rather than a wrapper object.
                    self.ToString(&args[0], fuel)
                }
            },
            PrimKind::ObjectToString => {
                let t = self.get_this()?;
                match t {
                    Value::Object(_) => Ok(Value::String("[object Object]".to_owned())),
                    _ => Err(str_val("Fatal Error: Expected Object")),
                }
            },
            PrimKind::ObjectValueOf => {
                let t = self.get_this()?;
                Ok(t)
            },
            PrimKind::NumberValueOf => {
                let t = self.get_this()?;
                match t {
                    Value::Object(o) => {
                        if o < self.heap.len() {
                            match &self.heap.objects[o].payload {
                                ObjectPayload::Number(nb) => Ok(Value::Number(nb.value)),
                                _ => Err(str_val("Expect number")),
                            }
                        } else {
                            Err(str_val("Expected object"))
                        }
                    },
                    _ => Err(str_val("Expected object")),
                }
            },
            PrimKind::NumberToString => {
                let t = self.get_this()?;
                match t {
                    Value::Object(o) => {
                        if o < self.heap.len() {
                            match &self.heap.objects[o].payload {
                                ObjectPayload::Number(nb) => Ok(
                                    Value::String(numbits::num_to_string(nb.value)),
                                ),
                                _ => Err(str_val("Expect number")),
                            }
                        } else {
                            Err(str_val("Expected object"))
                        }
                    },
                    _ => Err(str_val("Expected object")),
                }
            },
            PrimKind::StringToString => self.string_box_text(),
            PrimKind::StringValueOf => self.string_box_text(),
        }
    }

    /// The text boxed by the receiver: a string wrapper unboxes, a primitive
    /// string is already text, anything else is a runtime error.
    fn string_box_text(&mut self) -> (r: JSResult)
        requires
            vm_wf(*old(self)),
        ensures
            vm_frame(*old(self), *final(self)),
    {
        let t = self.get_this()?;
        match t {
            Value::Object(o) => {
                if o < self.heap.len() {
                    match &self.heap.objects[o].payload {
                        ObjectPayload::String(sb) => Ok(Value::String(sb.value.clone())),
                        _ => Err(str_val("RuntimeError: `this` is not a String object")),
                    }
                } else {
                    Err(str_val("Not an object"))
                }
            },
            Value::String(s) => Ok(Value::String(s)),
            _ => Err(str_val("RuntimeError: `this` is not a String object")),
        }
    }
}

impl VM {
    /// The dispatch loop: runs the frame's code from its instruction pointer
    /// until a `Return` or `Throw`, a runtime error, the end of the stream,
    /// or an exhausted budget. Falling off the end yields `undefined`.
    #[verifier::loop_isolation(false)]
    #[verifier::rlimit(100)]
    pub fn exec_top_frame(&mut self, frm: &mut Frame, fuel: u64) -> (r: JSResult)
        requires
            vm_wf(*old(self)),
            code_wf(old(frm).code),
        ensures
            vm_frame(*old(self), *final(self)),
            final(frm).code == old(frm).code,
            // A frame already past its code does nothing and yields
            // `undefined`.
            old(frm).ip >= old(frm).code.instrs@.len() ==> r == Ok::<Value, Value>(
                Value::Undefined,
            ) && *final(self) == *old(self) && *final(frm) == *old(frm),
            // Within the pure fragment the run is settled by the spec-level
            // interpreter: the call answers exactly its verdict and the
            // machine is untouched.
            pure_run(
                old(frm).code.instrs@,
                old(frm).code.consts@,
                old(frm).code.names@,
                old(self).global_scope@,
                spec_local_scope(*old(self)),
                spec_this_top(*old(self)),
                old(frm).datastack@,
                old(frm).ip as nat,
                fuel as nat,
            ) matches Some(res) ==> (*final(self) == *old(self) && (res matches Ok(v) ==> r
                == Ok::<Value, Value>(v)) && (res matches Err(t) ==> (r matches Err(e) && e
                matches Value::String(s) && s@ == t))),
        decreases fuel, 9nat,
    {
        let ghost pr = pure_run(
            old(frm).code.instrs@,
            old(frm).code.consts@,
            old(frm).code.names@,
            old(self).global_scope@,
            spec_local_scope(*old(self)),
            spec_this_top(*old(self)),
            old(frm).datastack@,
            old(frm).ip as nat,
            fuel as nat,
        );
        if frm.ip >= frm.code.instrs.len() {
            return Ok(Value::Undefined);
        }
        let mut gas: u64 = fuel;
        while frm.ip < frm.code.instrs.len()
            invariant
                vm_wf(*self),
                vm_frame(*old(self), *self),
                frm.code == old(frm).code,
                gas <= fuel,
                pr is Some ==> *self == *old(self) && pure_run(
                    old(frm).code.instrs@,
                    old(frm).code.consts@,
                    old(frm).code.names@,
                    old(self).global_scope@,
                    spec_local_scope(*old(self)),
                    spec_this_top(*old(self)),
                    frm.datastack@,
                    frm.ip as nat,
                    gas as nat,
                ) == pr,
            decreases gas,
        {
            if gas == 0 {
                return Err(str_val("execution budget exhausted"));
            }
            let ghost s_it = frm.datastack@;
            let ghost ip_it = frm.ip as nat;
            let ghost gas_it = gas as nat;
            gas = gas - 1;
            proof {
                assert(instr_wf(
                    frm.code.instrs@[frm.ip as int],
                    frm.code.instrs@.len() as int,
                    frm.code.consts@.len() as int,
                    frm.code.names@.len() as int,
                ));
            }
            let instr = frm.code.instrs[frm.ip].clone();
            frm.ip = frm.ip + 1;
            match instr {
                Instruction::LoadUndefined => {
                    frm.datastack.push(Value::Undefined);
                },
                Instruction::LoadNull => {
                    frm.datastack.push(Value::Null);
                },
                Instruction::LoadBool(b) => {
                    frm.datastack.push(Value::Boolean(b));
                },
                Instruction::LoadConst(k) => {
                    frm.datastack.push(frm.code.consts[k].clone());
                },
                Instruction::LoadName(n) => {
                    let name = frm.code.names[n].clone();
                    let mut found: Option<Value> = None;
                    if self.scopes.len() > 0 {
                        let li = self.scopes.len() - 1;
                        found = scope_get(&self.scopes[li], &name);
                    }
                    let v = match found {
                        Some(v) => v,
                        None => match scope_get(&self.global_scope, &name) {
                            Some(v) => v,
                            None => {
                                let mut m = "NameError: '".to_owned();
                                m.append(name.as_str());
                                m.append("' not found");
                                return Err(Value::String(m));
                            },
                        },
                    };
                    frm.datastack.push(v);
                },
                Instruction::StoreName(n) => {
                    let name = frm.code.names[n].clone();
                    let v = pop_val(frm)?;
                    if self.scopes.len() > 0 {
                        let li = self.scopes.len() - 1;
                        scope_set(&mut self.scopes[li], name, v);
                    } else {
                        scope_set(&mut self.global_scope, name, v);
                    }
                },
                Instruction::LoadArg(i) => {
                    if i < frm.datastack.len() {
                        let v = frm.datastack[i].clone();
                        frm.datastack.push(v);
                    } else {
                        return Err(str_val("stack underflow"));
                    }
                },
                Instruction::LoadThis => {
                    let v = self.get_this()?;
                    frm.datastack.push(v);
                },
                Instruction::PushThis => {
                    if frm.datastack.len() == 0 {
                        return Err(str_val("stack underflow"));
                    }
                    let top = frm.datastack[frm.datastack.len() - 1].clone();
                    let o = match self.ToObject(&top) {
                        Ok(o) => o,
                        Err(e) => {
                            return Err(e);
                        },
                    };
                    self.push_this(Value::Object(o));
                },
                Instruction::PopThis => {
                    let popped = self.pop_this();
                    if let Err(e) = popped {
                        return Err(e);
                    }
                },
                Instruction::LoadProperty => {
                    let key = pop_val(frm)?;
                    let key_str = match self.ToString(&key, gas) {
                        Ok(Value::String(s)) => s,
                        Ok(_) => {
                            return Err(str_val("runtime error"));
                        },
                        Err(e) => {
                            return Err(e);
                        },
                    };
                    let objv = pop_val(frm)?;
                    let o = match self.ToObject(&objv) {
                        Ok(o) => o,
                        Err(e) => {
                            return Err(e);
                        },
                    };
                    // Stage the receiver while the property is read.
                    self.push_this(Value::Object(o));
                    let v = self.heap.Get(o, &key_str);
                    let popped = self.pop_this();
                    if let Err(e) = popped {
                        return Err(e);
                    }
                    frm.datastack.push(v);
                },
                Instruction::StoreProperty => {
                    let key = pop_val(frm)?;
                    let key_str = match self.ToString(&key, gas) {
                        Ok(Value::String(s)) => s,
                        Ok(_) => {
                            return Err(str_val("runtime error"));
                        },
                        Err(e) => {
                            return Err(e);
                        },
                    };
                    let lhs = pop_val(frm)?;
                    let rhs = pop_val(frm)?;
                    let o = match self.ToObject(&lhs) {
                        Ok(o) => o,
                        Err(e) => {
                            return Err(e);
                        },
                    };
                    self.heap.Put(o, key_str, rhs);
                },
                Instruction::BinAdd => {
                    let v2 = pop_val(frm)?;
                    let v1 = pop_val(frm)?;
                    let res = self.bin_add(&v1, &v2, gas)?;
                    frm.datastack.push(res);
                },
                Instruction::BinSub => {
                    let v2 = pop_val(frm)?;
                    let v1 = pop_val(frm)?;
                    let res = self.bin_sub(&v1, &v2, gas)?;
                    frm.datastack.push(res);
                },
                Instruction::BinEq => {
                    let v2 = pop_val(frm)?;
                    let v1 = pop_val(frm)?;
                    frm.datastack.push(Value::Boolean(v1.loose_eq(&v2)));
                },
                Instruction::Call(n) => {
                    let callee = pop_val(frm)?;
                    if frm.datastack.len() < n {
                        return Err(str_val("stack underflow"));
                    }
                    let start = frm.datastack.len() - n;
                    let mut args: Vec<Value> = Vec::new();
                    let mut i: usize = start;
                    while i < frm.datastack.len()
                        invariant
                            start <= i <= frm.datastack@.len(),
                        decreases frm.datastack@.len() - i,
                    {
                        args.push(frm.datastack[i].clone());
                        i = i + 1;
                    }
                    frm.datastack.truncate(start);
                    let o = match self.ToObject(&callee) {
                        Ok(o) => o,
                        Err(e) => {
                            return Err(e);
                        },
                    };
                    let res = self.Call(o, args, gas)?;
                    frm.datastack.push(res);
                },
                Instruction::New(n) => {
                    let callee = pop_val(frm)?;
                    if frm.datastack.len() < n {
                        return Err(str_val("stack underflow"));
                    }
                    let start = frm.datastack.len() - n;
                    let mut args: Vec<Value> = Vec::new();
                    let mut i: usize = start;
                    while i < frm.datastack.len()
                        invariant
                            start <= i <= frm.datastack@.len(),
                        decreases frm.datastack@.len() - i,
                    {
                        args.push(frm.datastack[i].clone());
                        i = i + 1;
                    }
                    frm.datastack.truncate(start);
                    let o = match self.ToObject(&callee) {
                        Ok(o) => o,
                        Err(e) => {
                            return Err(e);
                        },
                    };
                    let res = self.Construct(o, args, gas)?;
                    frm.datastack.push(res);
                },
                Instruction::MakeArray(_) => {
                    return Err(str_val("Unimplemented"));
                },
                Instruction::Pop => {
                    let popped = pop_val(frm);
                    if let Err(e) = popped {
                        return Err(e);
                    }
                },
                Instruction::PopJumpIfFalse(t) => {
                    let cond = pop_val(frm)?;
                    if !cond.ToBoolean() {
                        frm.ip = t;
                    }
                },
                Instruction::Jump(t) => {
                    frm.ip = t;
                },
                Instruction::Return => {
                    let v = pop_val(frm)?;
                    return Ok(v);
                },
                Instruction::Throw => {
                    let v = pop_val(frm)?;
                    self.throw_stack.push(v.clone());
                    return Err(v);
                },
            }
        }
        // The frame fell off the end of its code.
        Ok(Value::Undefined)
    }

    /// Compiles nothing and decides nothing: runs the machine's program in a
    /// fresh frame, within the given budget.
    pub fn run(&mut self, fuel: u64) -> (r: JSResult)
        requires
            vm_wf(*old(self)),
        ensures
            vm_frame(*old(self), *final(self)),
            // An empty program yields `undefined` and touches nothing.
            old(self).code.instrs@.len() == 0 ==> r == Ok::<Value, Value>(Value::Undefined)
                && *final(self) == *old(self),
            // The program runs in a fresh frame on an empty stack; within
            // the pure fragment the spec-level interpreter settles the run.
            pure_run(
                old(self).code.instrs@,
                old(self).code.consts@,
                old(self).code.names@,
                old(self).global_scope@,
                spec_local_scope(*old(self)),
                spec_this_top(*old(self)),
                Seq::<Value>::empty(),
                0,
                fuel as nat,
            ) matches Some(res) ==> (*final(self) == *old(self) && (res matches Ok(v) ==> r
                == Ok::<Value, Value>(v)) && (res matches Err(t) ==> (r matches Err(e) && e
                matches Value::String(s) && s@ == t))),
    {
        let code = self.code.clone();
        let mut frm = Frame::new(code);
        proof {
            assert(code_wf(frm.code));
        }
        self.exec_top_frame(&mut frm, fuel)
    }
}

} // verus!
