//! The compiler: lowers a program to bytecode in a single pass, back-patching
//! jump targets once they are known.
//!
//! Two scope shapes exist: the script (the outer compiler) and a function
//! body (a fresh compiler per function, whose parameter names resolve to
//! argument slots). Every emitted operand is kept in range of its pool, and
//! every lowered statement leaves the data stack exactly as it found it: an
//! expression statement's value is discarded by an explicit `Pop`, and an
//! assignment's store consumes the assigned value.

use vstd::prelude::*;

use crate::ast::{BinaryOp, Expr, Program, Stmt};
use crate::code::{
    code_wf, instr_effect, instr_wf, lemma_seg_effect_push, lemma_seg_effect_split, seg_effect,
    Code, Instruction,
};
use crate::context::Context;
use crate::heap::{heap_extended, heap_wf, Heap};
use crate::numbits;
use crate::value::Value;

verus! {

/// Why the compiler rejects a program.
#[derive(Clone, Copy, Debug, PartialEq, Eq, Structural)]
pub enum CompileError {
    /// The left side of `=` does not lower to a name or property load.
    BadAssignmentTarget,
    /// `=` stands where a value is needed; an assignment produces none here.
    NestedAssignment,
}

/// A single-scope compiler.
pub struct CodeGen {
    pub instrs: Vec<Instruction>,
    pub consts: Vec<Value>,
    pub names: Vec<String>,
    pub index_of_name: Vec<(String, usize)>,
    pub index_of_param: Vec<(String, usize)>,
    pub is_func: bool,
    pub in_load_prop: bool,
    pub this_stack_len: usize,
    pub in_call_expr: bool,
}

/// The first slot index recorded under a name.
pub open spec fn assoc_idx(s: Seq<(String, usize)>, key: Seq<char>) -> Option<usize>
    decreases s.len(),
{
    if s.len() == 0 {
        None
    } else if s[0].0@ == key {
        Some(s[0].1)
    } else {
        assoc_idx(s.drop_first(), key)
    }
}

/// The compiler's invariant: every emitted operand is in range of its pool
/// (a jump target may equal the stream length), the name index maps into the
/// name pool, and the pending-receiver count never exceeds the emitted
/// instructions.
pub open spec fn cg_wf(cg: CodeGen) -> bool {
    &&& forall|i: int|
        0 <= i < cg.instrs@.len() ==> instr_wf(
            #[trigger] cg.instrs@[i],
            cg.instrs@.len() as int,
            cg.consts@.len() as int,
            cg.names@.len() as int,
        )
    &&& forall|i: int|
        0 <= i < cg.index_of_name@.len() ==> (#[trigger] cg.index_of_name@[i]).1
            < cg.names@.len() && cg.names@[cg.index_of_name@[i].1 as int]@
            == cg.index_of_name@[i].0@
    &&& cg.this_stack_len <= cg.instrs@.len()
}

/// What every compilation step keeps: the scope flags, and the pools, which
/// only grow (already-emitted instructions are rewritten only above the
/// caller's watermark).
pub open spec fn cg_preserved(pre: CodeGen, cur: CodeGen) -> bool {
    &&& cur.is_func == pre.is_func
    &&& cur.in_load_prop == pre.in_load_prop
    &&& cur.index_of_param@ == pre.index_of_param@
    &&& pre.instrs@.len() <= cur.instrs@.len()
    &&& forall|i: int| 0 <= i < pre.instrs@.len() ==> cur.instrs@[i] == pre.instrs@[i]
    &&& pre.consts@.len() <= cur.consts@.len()
    &&& forall|i: int| 0 <= i < pre.consts@.len() ==> cur.consts@[i] == pre.consts@[i]
    &&& pre.names@.len() <= cur.names@.len()
    &&& forall|i: int| 0 <= i < pre.names@.len() ==> cur.names@[i] == pre.names@[i]
}

/// The first slot index recorded under a name, by linear search.
fn find_idx(s: &Vec<(String, usize)>, key: &String) -> (r: Option<usize>)
    ensures
        r == assoc_idx(s@, key@),
{
    let mut j: usize = 0;
    proof {
        assert(s@.skip(0) =~= s@);
    }
    while j < s.len()
        invariant
            j <= s@.len(),
            assoc_idx(s@, key@) == assoc_idx(s@.skip(j as int), key@),
        decreases s@.len() - j,
    {
        if s[j].0.eq(key) {
            proof {
                assert(s@.skip(j as int)[0] == s@[j as int]);
            }
            return Some(s[j].1);
        }
        proof {
            assert(s@.skip(j as int).drop_first() =~= s@.skip(j as int + 1));
        }
        j = j + 1;
    }
    proof {
        assert(s@.skip(j as int).len() == 0);
    }
    None
}

/// A found index satisfies the map invariant of [`cg_wf`].
proof fn lemma_assoc_idx_in_map(s: Seq<(String, usize)>, key: Seq<char>)
    requires
        assoc_idx(s, key) is Some,
    ensures
        exists|i: int|
            0 <= i < s.len() && (#[trigger] s[i]).1 == assoc_idx(s, key)->Some_0 && s[i].0@ == key,
    decreases s.len(),
{
    if s.len() > 0 {
        if s[0].0@ == key {
            assert(s[0].1 == assoc_idx(s, key)->Some_0 && s[0].0@ == key);
        } else {
            lemma_assoc_idx_in_map(s.drop_first(), key);
            let i = choose|i: int|
                0 <= i < s.drop_first().len() && (#[trigger] s.drop_first()[i]).1 == assoc_idx(
                    s.drop_first(),
                    key,
                )->Some_0 && s.drop_first()[i].0@ == key;
            assert(s[i + 1].1 == assoc_idx(s, key)->Some_0 && s[i + 1].0@ == key);
        }
    }
}

/// The parameter map a function scope opens with: each declared name bound
/// to its argument slot, in order.
pub open spec fn params_map(ps: Seq<String>) -> Seq<(String, usize)> {
    Seq::new(ps.len(), |i: int| (ps[i], i as usize))
}

/// Whether `=` may stand against this target in the given scope: an
/// identifier that is not a parameter of a function scope (a parameter loads
/// as an argument slot, which no store can rewrite), or a member access.
/// Nothing else lowers to a rewritable load.
pub open spec fn assign_target_ok(t: Expr, is_func: bool, params: Seq<(String, usize)>) -> bool {
    match t {
        Expr::Ident(name) => !(is_func && assoc_idx(params, name@) is Some),
        Expr::Member(_, _) => true,
        _ => false,
    }
}

/// Whether an expression compiles: it holds no `=` anywhere (an assignment
/// produces no value, so it is refused in value position), and every
/// function expression's body compiles in its own scope.
pub open spec fn expr_compiles(e: Expr) -> bool
    decreases e,
{
    match e {
        Expr::Null => true,
        Expr::Boolean(_) => true,
        Expr::Number(_) => true,
        Expr::Str(_) => true,
        Expr::Ident(_) => true,
        Expr::This => true,
        Expr::Binary(_, l, r) => expr_compiles(*l) && expr_compiles(*r),
        Expr::Assign(_, _) => false,
        Expr::Member(o, p) => expr_compiles(*o) && expr_compiles(*p),
        Expr::Call(c, args) => expr_compiles(*c) && (forall|i: int|
            0 <= i < args.len() ==> expr_compiles(#[trigger] args[i])),
        Expr::New(c, args) => expr_compiles(*c) && (forall|i: int|
            0 <= i < args.len() ==> expr_compiles(#[trigger] args[i])),
        Expr::Func(_, ps, body) => forall|i: int|
            0 <= i < body.len() ==> stmt_compiles(#[trigger] body[i], true, params_map(ps@)),
        Expr::Array(els) => forall|i: int|
            0 <= i < els.len() ==> expr_compiles(#[trigger] els[i]),
    }
}

/// Whether a statement compiles in a scope: every expression in it
/// compiles, and every `=` stands as a statement against a workable target.
pub open spec fn stmt_compiles(s: Stmt, is_func: bool, params: Seq<(String, usize)>) -> bool
    decreases s,
{
    match s {
        Stmt::Empty => true,
        Stmt::Expr(e) => match e {
            Expr::Assign(t, v) => expr_compiles(*t) && expr_compiles(*v) && assign_target_ok(
                *t,
                is_func,
                params,
            ),
            _ => expr_compiles(e),
        },
        Stmt::Return(opt) => match opt {
            Some(e) => expr_compiles(e),
            None => true,
        },
        Stmt::If(test, cons, alt) => expr_compiles(test) && stmt_compiles(*cons, is_func, params)
            && (match alt {
            Some(a) => stmt_compiles(*a, is_func, params),
            None => true,
        }),
        Stmt::Block(ss) => forall|i: int|
            0 <= i < ss.len() ==> stmt_compiles(#[trigger] ss[i], is_func, params),
        Stmt::Var(ds) => forall|i: int|
            0 <= i < ds.len() ==> ((#[trigger] ds[i]).1 matches Some(init) ==> expr_compiles(
                init,
            )),
        Stmt::FuncDecl(_, ps, body) => forall|i: int|
            0 <= i < body.len() ==> stmt_compiles(#[trigger] body[i], true, params_map(ps@)),
    }
}

impl CodeGen {
    /// A fresh compiler for one scope.
    pub fn new(is_func: bool) -> (r: Self)
        ensures
            cg_wf(r),
            r.instrs@ == Seq::<Instruction>::empty(),
            r.consts@ == Seq::<Value>::empty(),
            r.names@ == Seq::<String>::empty(),
            r.index_of_name@ == Seq::<(String, usize)>::empty(),
            r.index_of_param@ == Seq::<(String, usize)>::empty(),
            r.is_func == is_func,
            !r.in_load_prop,
            !r.in_call_expr,
            r.this_stack_len == 0,
    {
        CodeGen {
            instrs: Vec::new(),
            consts: Vec::new(),
            names: Vec::new(),
            index_of_name: Vec::new(),
            index_of_param: Vec::new(),
            is_func,
            in_load_prop: false,
            this_stack_len: 0,
            in_call_expr: false,
        }
    }

    /// Appends one instruction whose operands are in range.
    fn emit(&mut self, x: Instruction)
        requires
            cg_wf(*old(self)),
            instr_wf(
                x,
                old(self).instrs@.len() as int + 1,
                old(self).consts@.len() as int,
                old(self).names@.len() as int,
            ),
        ensures
            cg_wf(*final(self)),
            final(self).instrs@ == old(self).instrs@.push(x),
            final(self).consts@ == old(self).consts@,
            final(self).names@ == old(self).names@,
            final(self).index_of_name@ == old(self).index_of_name@,
            final(self).index_of_param@ == old(self).index_of_param@,
            final(self).is_func == old(self).is_func,
            final(self).in_load_prop == old(self).in_load_prop,
            final(self).in_call_expr == old(self).in_call_expr,
            final(self).this_stack_len == old(self).this_stack_len,
    {
        self.instrs.push(x);
    }

    /// Interns a constant and returns its pool index.
    fn intern_const(&mut self, v: Value) -> (r: usize)
        requires
            cg_wf(*old(self)),
        ensures
            cg_wf(*final(self)),
            r == old(self).consts@.len(),
            final(self).consts@ == old(self).consts@.push(v),
            final(self).instrs@ == old(self).instrs@,
            final(self).names@ == old(self).names@,
            final(self).index_of_name@ == old(self).index_of_name@,
            final(self).index_of_param@ == old(self).index_of_param@,
            final(self).is_func == old(self).is_func,
            final(self).in_load_prop == old(self).in_load_prop,
            final(self).in_call_expr == old(self).in_call_expr,
            final(self).this_stack_len == old(self).this_stack_len,
    {
        let r = self.consts.len();
        self.consts.push(v);
        r
    }

    /// The pool index of a name, interning it on first sight so that one
    /// name has one index within a code unit.
    fn intern_name(&mut self, name: &String) -> (r: usize)
        requires
            cg_wf(*old(self)),
        ensures
            cg_wf(*final(self)),
            r < final(self).names@.len(),
            final(self).names@[r as int]@ == name@,
            // A name seen before reuses its index; the pools stay as they
            // are.
            assoc_idx(old(self).index_of_name@, name@) matches Some(idx) ==> r == idx
                && final(self).names@ == old(self).names@ && final(self).index_of_name@ == old(
                self,
            ).index_of_name@,
            // A fresh name takes the next slot of the pool.
            assoc_idx(old(self).index_of_name@, name@) is None ==> r == old(self).names@.len()
                && final(self).names@.len() == old(self).names@.len() + 1,
            old(self).names@.len() <= final(self).names@.len(),
            forall|i: int|
                0 <= i < old(self).names@.len() ==> final(self).names@[i] == old(self).names@[i],
            final(self).instrs@ == old(self).instrs@,
            final(self).consts@ == old(self).consts@,
            final(self).index_of_param@ == old(self).index_of_param@,
            final(self).is_func == old(self).is_func,
            final(self).in_load_prop == old(self).in_load_prop,
            final(self).in_call_expr == old(self).in_call_expr,
            final(self).this_stack_len == old(self).this_stack_len,
    {
        match find_idx(&self.index_of_name, name) {
            Some(idx) => {
                proof {
                    lemma_assoc_idx_in_map(self.index_of_name@, name@);
                }
                idx
            },
            None => {
                let idx = self.names.len();
                self.names.push(name.clone());
                self.index_of_name.push((name.clone(), idx));
                idx
            },
        }
    }
}

/// What every visiting step guarantees about the compiler state.
pub open spec fn cg_visit_frame(pre: CodeGen, post: CodeGen) -> bool {
    &&& cg_wf(post)
    &&& cg_preserved(pre, post)
    &&& (!pre.in_call_expr ==> !post.in_call_expr)
    &&& (!pre.in_call_expr ==> post.this_stack_len == pre.this_stack_len)
    &&& post.this_stack_len >= pre.this_stack_len
}

/// The bits a numeric literal denotes: parsed as an IEEE-754 double, NaN
/// when the text does not parse.
pub open spec fn num_literal_bits(text: Seq<char>) -> u64 {
    match numbits::spec_parse_number(text) {
        Some(b) => b,
        None => numbits::NAN_BITS,
    }
}

/// The instruction a binary operator lowers to.
pub open spec fn binop_instr(op: BinaryOp) -> Instruction {
    match op {
        BinaryOp::Plus => Instruction::BinAdd,
        BinaryOp::Minus => Instruction::BinSub,
        BinaryOp::Equal => Instruction::BinEq,
    }
}

/// How an identifier lowers, given the scope flags at the point of use: a
/// member key becomes a string constant, a parameter of a function scope
/// becomes its argument slot, and anything else a name lookup against the
/// interned pool.
pub open spec fn ident_lowering(pre: CodeGen, post: CodeGen, name: Seq<char>) -> bool {
    if pre.in_load_prop {
        &&& post.instrs@ == pre.instrs@.push(
            Instruction::LoadConst(pre.consts@.len() as usize),
        )
        &&& post.consts@.len() == pre.consts@.len() + 1
        &&& post.consts@.last() matches Value::String(s) && s@ == name
    } else if pre.is_func && assoc_idx(pre.index_of_param@, name) is Some {
        post.instrs@ == pre.instrs@.push(
            Instruction::LoadArg(assoc_idx(pre.index_of_param@, name)->Some_0),
        )
    } else {
        exists|idx: usize|
            idx < post.names@.len() && post.names@[idx as int]@ == name && post.instrs@
                == pre.instrs@.push(Instruction::LoadName(idx))
    }
}

/// A segment's sum survives any extension that keeps the settled prefix.
proof fn lemma_seg_preserved(pre: Seq<Instruction>, cur: Seq<Instruction>, a: int, b: int)
    requires
        0 <= a,
        b <= pre.len(),
        pre.len() <= cur.len(),
        forall|i: int| 0 <= i < pre.len() ==> cur[i] == pre[i],
    ensures
        seg_effect(cur, a, b) == seg_effect(pre, a, b),
{
    crate::code::lemma_seg_effect_agree(cur, pre, a, b);
}

impl CodeGen {
    /// Lowers one expression. The emitted segment leaves exactly one value on
    /// the data stack.
    #[verifier::loop_isolation(false)]
    pub fn visit_expr(&mut self, e: &Expr, ctx: &Context, heap: &mut Heap) -> (r: Result<
        (),
        CompileError,
    >)
        requires
            cg_wf(*old(self)),
            heap_wf(old(heap)@),
            ctx.Object_prototype < old(heap)@.len(),
            ctx.Function_prototype < old(heap)@.len(),
        ensures
            cg_visit_frame(*old(self), *final(self)),
            heap_wf(final(heap)@),
            heap_extended(old(heap)@, final(heap)@),
            r is Ok ==> seg_effect(
                final(self).instrs@,
                old(self).instrs@.len() as int,
                final(self).instrs@.len() as int,
            ) == 1,
            r is Ok && e is Null ==> final(self).instrs@ == old(self).instrs@.push(
                Instruction::LoadNull,
            ),
            r is Ok ==> (e matches Expr::Boolean(b) ==> final(self).instrs@ == old(self).instrs@.push(Instruction::LoadBool(*b))),
            r is Ok && e is This ==> final(self).instrs@ == old(self).instrs@.push(
                Instruction::LoadThis,
            ),
            r is Ok ==> (e matches Expr::Number(text) ==> final(self).instrs@ == old(self).instrs@.push(Instruction::LoadConst(old(self).consts@.len() as usize)) && final(self).consts@ == old(self).consts@.push(Value::Number(num_literal_bits(text@)))),
            r is Ok ==> (e matches Expr::Str(text) ==> final(self).instrs@ == old(self).instrs@.push(Instruction::LoadConst(old(self).consts@.len() as usize)) && final(self).consts@ == old(self).consts@.push(Value::String(*text))),
            r is Ok ==> (e matches Expr::Ident(name) ==> ident_lowering(
                *old(self),
                *final(self),
                name@,
            )),
            r is Ok ==> (e matches Expr::Binary(op, _, _) ==> final(self).instrs@.len() > old(self).instrs@.len() && final(self).instrs@.last() == binop_instr(*op)),
            r is Ok && e is Member ==> final(self).instrs@.len() > old(self).instrs@.len()
                && final(self).instrs@.last() == Instruction::LoadProperty,
            r is Ok ==> (e matches Expr::Call(_, args) ==> exists|j: int|
                old(self).instrs@.len() <= j < final(self).instrs@.len() && (#[trigger] final(self).instrs@[j] matches Instruction::Call(n) && n == args@.len()) && (forall|m: int|
                    j < m < final(self).instrs@.len() ==> final(self).instrs@[m]
                        == Instruction::PopThis)),
            r is Ok ==> (e matches Expr::New(_, args) ==> final(self).instrs@.len() > old(self).instrs@.len() && (final(self).instrs@.last() matches Instruction::New(n) && n
                == args@.len())),
            r is Ok ==> (e matches Expr::Array(els) ==> final(self).instrs@.len() > old(self).instrs@.len() && (final(self).instrs@.last() matches Instruction::MakeArray(n) && n
                == els@.len())),
            r is Ok && e is Func ==> final(self).instrs@.len() > old(self).instrs@.len() && (
            final(self).instrs@.last() matches Instruction::LoadConst(k) && k == old(self).consts@.len() && final(self).consts@.len() == old(self).consts@.len() + 1 && final(self).consts@.last() is Object),
            r is Ok ==> (e matches Expr::Func(_, ps, _) ==> (final(self).consts@.last()
                matches Value::Object(fi) && fi < final(heap)@.len() && (final(heap)@[fi as int].payload
                matches crate::objects::ObjectPayload::Function(fo) && fo.length == ps@.len()
                && fo.payload is UserDefined))),
            // An assignment never stands where a value is needed: it is
            // refused outright, emitting nothing.
            e is Assign ==> r == Err::<(), CompileError>(CompileError::NestedAssignment)
                && *final(self) == *old(self) && *final(heap) == *old(heap),
            // Lowering succeeds exactly on the expressions that compile.
            expr_compiles(*e) ==> r is Ok,
            r is Ok ==> expr_compiles(*e),
        decreases e, 1nat,
    {
        let ghost n0 = self.instrs@.len() as int;
        match e {
            Expr::Null => {
                let ghost s1 = self.instrs@;
                self.emit(Instruction::LoadNull);
                proof {
                    lemma_seg_effect_push(s1, Instruction::LoadNull, n0);
                }
                Ok(())
            },
            Expr::Boolean(b) => {
                let ghost s1 = self.instrs@;
                self.emit(Instruction::LoadBool(*b));
                proof {
                    lemma_seg_effect_push(s1, Instruction::LoadBool(*b), n0);
                }
                Ok(())
            },
            Expr::Number(text) => {
                let bits = match numbits::parse_number_text(text.as_str()) {
                    Some(b) => b,
                    None => numbits::NAN_BITS,
                };
                let k = self.intern_const(Value::Number(bits));
                let ghost s1 = self.instrs@;
                self.emit(Instruction::LoadConst(k));
                proof {
                    lemma_seg_effect_push(s1, Instruction::LoadConst(k), n0);
                }
                Ok(())
            },
            Expr::Str(text) => {
                let k = self.intern_const(Value::String(text.clone()));
                let ghost s1 = self.instrs@;
                self.emit(Instruction::LoadConst(k));
                proof {
                    lemma_seg_effect_push(s1, Instruction::LoadConst(k), n0);
                }
                Ok(())
            },
            Expr::This => {
                let ghost s1 = self.instrs@;
                self.emit(Instruction::LoadThis);
                proof {
                    lemma_seg_effect_push(s1, Instruction::LoadThis, n0);
                }
                Ok(())
            },
            Expr::Ident(name) => {
                if self.in_load_prop {
                    // A member key: interned as a string constant.
                    let k = self.intern_const(Value::String(name.clone()));
                    let ghost s1 = self.instrs@;
                    self.emit(Instruction::LoadConst(k));
                    proof {
                        lemma_seg_effect_push(s1, Instruction::LoadConst(k), n0);
                    }
                    return Ok(());
                }
                if self.is_func {
                    // Parameter names shadow everything else in a function.
                    match find_idx(&self.index_of_param, name) {
                        Some(slot) => {
                            let ghost s1 = self.instrs@;
                            self.emit(Instruction::LoadArg(slot));
                            proof {
                                lemma_seg_effect_push(s1, Instruction::LoadArg(slot), n0);
                            }
                            return Ok(());
                        },
                        None => {},
                    }
                }
                let n = self.intern_name(name);
                let ghost s1 = self.instrs@;
                self.emit(Instruction::LoadName(n));
                proof {
                    lemma_seg_effect_push(s1, Instruction::LoadName(n), n0);
                }
                Ok(())
            },
            Expr::Binary(op, l, rhs) => {
                self.visit_expr(l, ctx, heap)?;
                let ghost v1 = self.instrs@;
                self.visit_expr(rhs, ctx, heap)?;
                let ghost v2 = self.instrs@;
                let x = match op {
                    BinaryOp::Plus => Instruction::BinAdd,
                    BinaryOp::Minus => Instruction::BinSub,
                    BinaryOp::Equal => Instruction::BinEq,
                };
                self.emit(x);
                proof {
                    lemma_seg_effect_push(v2, x, n0);
                    lemma_seg_effect_split(v2, n0, v1.len() as int, v2.len() as int);
                    lemma_seg_preserved(v1, v2, n0, v1.len() as int);
                }
                Ok(())
            },
            Expr::Assign(_, _) => Err(CompileError::NestedAssignment),
            Expr::Member(_, _) => self.visit_member(e, ctx, heap),
            Expr::Call(_, _) => self.visit_call(e, ctx, heap),
            Expr::New(_, _) => self.visit_new(e, ctx, heap),
            Expr::Array(_) => self.visit_array(e, ctx, heap),
            Expr::Func(_, _, _) => self.visit_func(e, ctx, heap),
        }
    }

    /// Lowers a function expression: the body is compiled by a fresh
    /// function-scope compiler, the resulting function object is interned
    /// into the constant pool, and the constant is pushed. The optional name
    /// only names the function object; the expression's value stays on the
    /// stack.
    #[verifier::loop_isolation(false)]
    fn visit_func(&mut self, e: &Expr, ctx: &Context, heap: &mut Heap) -> (r: Result<
        (),
        CompileError,
    >)
        requires
            e is Func,
            cg_wf(*old(self)),
            heap_wf(old(heap)@),
            ctx.Object_prototype < old(heap)@.len(),
            ctx.Function_prototype < old(heap)@.len(),
        ensures
            cg_visit_frame(*old(self), *final(self)),
            heap_wf(final(heap)@),
            heap_extended(old(heap)@, final(heap)@),
            r is Ok ==> seg_effect(
                final(self).instrs@,
                old(self).instrs@.len() as int,
                final(self).instrs@.len() as int,
            ) == 1,
            r is Ok ==> final(self).instrs@.len() > old(self).instrs@.len() && (final(self).instrs@.last() matches Instruction::LoadConst(k) && k == old(self).consts@.len()
                && final(self).consts@.len() == old(self).consts@.len() + 1 && final(self).consts@.last() is Object),
            r is Ok ==> (e matches Expr::Func(_, ps, _) ==> (final(self).consts@.last()
                matches Value::Object(fi) && fi < final(heap)@.len() && (final(heap)@[fi as int].payload
                matches crate::objects::ObjectPayload::Function(fo) && fo.length == ps@.len()
                && fo.payload is UserDefined))),
            expr_compiles(*e) ==> r is Ok,
            r is Ok ==> expr_compiles(*e),
        decreases e, 0nat,
    {
        let ghost n0 = self.instrs@.len() as int;
        match e {
            Expr::Func(id, params, body) => {
                let fname = match id {
                    Some(nm) => nm.clone(),
                    None => String::new(),
                };
                let fidx = compile_function(params, body, fname, ctx, heap)?;
                let k = self.intern_const(Value::Object(fidx));
                let ghost s1 = self.instrs@;
                self.emit(Instruction::LoadConst(k));
                proof {
                    lemma_seg_effect_push(s1, Instruction::LoadConst(k), n0);
                }
                Ok(())
            },
            _ => Err(CompileError::NestedAssignment),
        }
    }

    /// Lowers a member access: the object, the receiver staging when the
    /// access is the callee of a call being built, then the key.
    #[verifier::loop_isolation(false)]
    fn visit_member(&mut self, e: &Expr, ctx: &Context, heap: &mut Heap) -> (r: Result<
        (),
        CompileError,
    >)
        requires
            e is Member,
            cg_wf(*old(self)),
            heap_wf(old(heap)@),
            ctx.Object_prototype < old(heap)@.len(),
            ctx.Function_prototype < old(heap)@.len(),
        ensures
            cg_visit_frame(*old(self), *final(self)),
            heap_wf(final(heap)@),
            heap_extended(old(heap)@, final(heap)@),
            r is Ok ==> seg_effect(
                final(self).instrs@,
                old(self).instrs@.len() as int,
                final(self).instrs@.len() as int,
            ) == 1,
            r is Ok ==> final(self).instrs@.len() > old(self).instrs@.len() && final(self).instrs@.last() == Instruction::LoadProperty,
            expr_compiles(*e) ==> r is Ok,
            r is Ok ==> expr_compiles(*e),
        decreases e, 0nat,
    {
        let ghost n0 = self.instrs@.len() as int;
        match e {
            Expr::Member(obj, prop) => {
                let prev_load = self.in_load_prop;
                self.in_load_prop = false;
                let r_obj = self.visit_expr(obj, ctx, heap);
                self.in_load_prop = prev_load;
                r_obj?;
                let ghost v1 = self.instrs@;
                if self.in_call_expr {
                    // The object is the receiver of the call being built.
                    self.emit(Instruction::PushThis);
                    proof {
                        lemma_seg_effect_push(v1, Instruction::PushThis, n0);
                    }
                    let cur = self.instrs.len();
                    proof {
                        assert(self.this_stack_len < cur);
                    }
                    self.this_stack_len = self.this_stack_len + 1;
                    self.in_call_expr = false;
                }
                let ghost v2 = self.instrs@;
                self.in_load_prop = true;
                let r_prop = self.visit_expr(prop, ctx, heap);
                self.in_load_prop = prev_load;
                r_prop?;
                let ghost v3 = self.instrs@;
                self.emit(Instruction::LoadProperty);
                proof {
                    lemma_seg_effect_push(v3, Instruction::LoadProperty, n0);
                    lemma_seg_effect_split(v3, n0, v2.len() as int, v3.len() as int);
                    lemma_seg_preserved(v2, v3, n0, v2.len() as int);
                    lemma_seg_effect_split(v2, n0, v1.len() as int, v2.len() as int);
                    lemma_seg_preserved(v1, v2, n0, v1.len() as int);
                }
                Ok(())
            },
            _ => Err(CompileError::NestedAssignment),
        }
    }

    /// Lowers a call: the arguments in order, the callee with receiver
    /// staging enabled, the call itself, and one `PopThis` for each receiver
    /// the callee staged.
    #[verifier::loop_isolation(false)]
    fn visit_call(&mut self, e: &Expr, ctx: &Context, heap: &mut Heap) -> (r: Result<
        (),
        CompileError,
    >)
        requires
            e is Call,
            cg_wf(*old(self)),
            heap_wf(old(heap)@),
            ctx.Object_prototype < old(heap)@.len(),
            ctx.Function_prototype < old(heap)@.len(),
        ensures
            cg_visit_frame(*old(self), *final(self)),
            heap_wf(final(heap)@),
            heap_extended(old(heap)@, final(heap)@),
            r is Ok ==> seg_effect(
                final(self).instrs@,
                old(self).instrs@.len() as int,
                final(self).instrs@.len() as int,
            ) == 1,
            r is Ok ==> (e matches Expr::Call(_, args) ==> exists|j: int|
                old(self).instrs@.len() <= j < final(self).instrs@.len() && (#[trigger] final(self).instrs@[j] matches Instruction::Call(n) && n == args@.len()) && (forall|m: int|
                    j < m < final(self).instrs@.len() ==> final(self).instrs@[m]
                        == Instruction::PopThis)),
            expr_compiles(*e) ==> r is Ok,
            r is Ok ==> expr_compiles(*e),
        decreases e, 0nat,
    {
        let ghost n0 = self.instrs@.len() as int;
        match e {
            Expr::Call(callee, args) => {
                let nargs = args.len();
                let saved_this = self.this_stack_len;
                let saved_call = self.in_call_expr;
                self.in_call_expr = false;
                let ghost pre_args = *self;
                let mut i: usize = 0;
                while i < args.len()
                    invariant
                        i <= args@.len(),
                        cg_wf(*self),
                        cg_preserved(pre_args, *self),
                        !self.in_call_expr,
                        self.this_stack_len == saved_this,
                        heap_wf(heap@),
                        heap_extended(old(heap)@, heap@),
                        seg_effect(self.instrs@, n0, self.instrs@.len() as int) == i as int,
                        forall|m: int| 0 <= m < i ==> expr_compiles(#[trigger] args[m]),
                    decreases args@.len() - i,
                {
                    proof {
                        vstd::std_specs::vec::axiom_vec_index_decreases(*args, i as int);
                    }
                    let ghost v1 = self.instrs@;
                    let r_arg = self.visit_expr(&args[i], ctx, heap);
                    if let Err(err) = r_arg {
                        self.in_call_expr = saved_call;
                        return Err(err);
                    }
                    proof {
                        lemma_seg_effect_split(
                            self.instrs@,
                            n0,
                            v1.len() as int,
                            self.instrs@.len() as int,
                        );
                        lemma_seg_preserved(v1, self.instrs@, n0, v1.len() as int);
                    }
                    i = i + 1;
                }
                self.in_call_expr = true;
                let ghost pre_callee = *self;
                let r_callee = self.visit_expr(callee, ctx, heap);
                if let Err(err) = r_callee {
                    self.this_stack_len = saved_this;
                    self.in_call_expr = saved_call;
                    return Err(err);
                }
                let ghost v2 = self.instrs@;
                self.emit(Instruction::Call(nargs));
                proof {
                    lemma_seg_effect_push(v2, Instruction::Call(nargs), n0);
                    lemma_seg_effect_split(
                        v2,
                        n0,
                        pre_callee.instrs@.len() as int,
                        v2.len() as int,
                    );
                    lemma_seg_preserved(
                        pre_callee.instrs@,
                        v2,
                        n0,
                        pre_callee.instrs@.len() as int,
                    );
                }
                // One PopThis for each receiver the callee staged.
                let d = self.this_stack_len - saved_this;
                let ghost after_call = self.instrs@;
                let ghost call_at = after_call.len() - 1;
                proof {
                    assert(after_call == v2.push(Instruction::Call(nargs)));
                    assert(after_call[call_at as int] == Instruction::Call(nargs));
                }
                let mut k: usize = 0;
                while k < d
                    invariant
                        k <= d,
                        cg_wf(*self),
                        cg_preserved(pre_args, *self),
                        self.this_stack_len >= saved_this,
                        heap_wf(heap@),
                        heap_extended(old(heap)@, heap@),
                        after_call.len() <= self.instrs@.len(),
                        forall|m: int|
                            0 <= m < after_call.len() ==> self.instrs@[m] == after_call[m],
                        forall|m: int|
                            call_at < m < self.instrs@.len() ==> self.instrs@[m]
                                == Instruction::PopThis,
                        seg_effect(self.instrs@, n0, self.instrs@.len() as int) == 1,
                    decreases d - k,
                {
                    let ghost v3 = self.instrs@;
                    self.emit(Instruction::PopThis);
                    proof {
                        lemma_seg_effect_push(v3, Instruction::PopThis, n0);
                    }
                    k = k + 1;
                }
                self.this_stack_len = saved_this;
                self.in_call_expr = saved_call;
                proof {
                    assert(self.instrs@[call_at as int] == Instruction::Call(nargs));
                }
                Ok(())
            },
            _ => Err(CompileError::NestedAssignment),
        }
    }

    /// Lowers a construction: the arguments in order, then the callee with no
    /// receiver staging, then `New`.
    #[verifier::loop_isolation(false)]
    fn visit_new(&mut self, e: &Expr, ctx: &Context, heap: &mut Heap) -> (r: Result<
        (),
        CompileError,
    >)
        requires
            e is New,
            cg_wf(*old(self)),
            heap_wf(old(heap)@),
            ctx.Object_prototype < old(heap)@.len(),
            ctx.Function_prototype < old(heap)@.len(),
        ensures
            cg_visit_frame(*old(self), *final(self)),
            heap_wf(final(heap)@),
            heap_extended(old(heap)@, final(heap)@),
            r is Ok ==> seg_effect(
                final(self).instrs@,
                old(self).instrs@.len() as int,
                final(self).instrs@.len() as int,
            ) == 1,
            r is Ok ==> (e matches Expr::New(_, args) ==> final(self).instrs@.len() > old(self).instrs@.len() && (final(self).instrs@.last() matches Instruction::New(n) && n
                == args@.len())),
            expr_compiles(*e) ==> r is Ok,
            r is Ok ==> expr_compiles(*e),
        decreases e, 0nat,
    {
        let ghost n0 = self.instrs@.len() as int;
        match e {
            Expr::New(callee, args) => {
                let nargs = args.len();
                let saved_call = self.in_call_expr;
                self.in_call_expr = false;
                let ghost pre_args = *self;
                let mut i: usize = 0;
                while i < args.len()
                    invariant
                        i <= args@.len(),
                        cg_wf(*self),
                        cg_preserved(pre_args, *self),
                        !self.in_call_expr,
                        self.this_stack_len == pre_args.this_stack_len,
                        heap_wf(heap@),
                        heap_extended(old(heap)@, heap@),
                        seg_effect(self.instrs@, n0, self.instrs@.len() as int) == i as int,
                        forall|m: int| 0 <= m < i ==> expr_compiles(#[trigger] args[m]),
                    decreases args@.len() - i,
                {
                    proof {
                        vstd::std_specs::vec::axiom_vec_index_decreases(*args, i as int);
                    }
                    let ghost v1 = self.instrs@;
                    let r_arg = self.visit_expr(&args[i], ctx, heap);
                    if let Err(err) = r_arg {
                        self.in_call_expr = saved_call;
                        return Err(err);
                    }
                    proof {
                        lemma_seg_effect_split(
                            self.instrs@,
                            n0,
                            v1.len() as int,
                            self.instrs@.len() as int,
                        );
                        lemma_seg_preserved(v1, self.instrs@, n0, v1.len() as int);
                    }
                    i = i + 1;
                }
                let ghost pre_callee = *self;
                let r_callee = self.visit_expr(callee, ctx, heap);
                if let Err(err) = r_callee {
                    self.in_call_expr = saved_call;
                    return Err(err);
                }
                let ghost v2 = self.instrs@;
                self.emit(Instruction::New(nargs));
                self.in_call_expr = saved_call;
                proof {
                    lemma_seg_effect_push(v2, Instruction::New(nargs), n0);
                    lemma_seg_effect_split(
                        v2,
                        n0,
                        pre_callee.instrs@.len() as int,
                        v2.len() as int,
                    );
                    lemma_seg_preserved(
                        pre_callee.instrs@,
                        v2,
                        n0,
                        pre_callee.instrs@.len() as int,
                    );
                }
                Ok(())
            },
            _ => Err(CompileError::NestedAssignment),
        }
    }

    /// Lowers an array literal: the elements in order, then `MakeArray`.
    #[verifier::loop_isolation(false)]
    fn visit_array(&mut self, e: &Expr, ctx: &Context, heap: &mut Heap) -> (r: Result<
        (),
        CompileError,
    >)
        requires
            e is Array,
            cg_wf(*old(self)),
            heap_wf(old(heap)@),
            ctx.Object_prototype < old(heap)@.len(),
            ctx.Function_prototype < old(heap)@.len(),
        ensures
            cg_visit_frame(*old(self), *final(self)),
            heap_wf(final(heap)@),
            heap_extended(old(heap)@, final(heap)@),
            r is Ok ==> seg_effect(
                final(self).instrs@,
                old(self).instrs@.len() as int,
                final(self).instrs@.len() as int,
            ) == 1,
            r is Ok ==> (e matches Expr::Array(els) ==> final(self).instrs@.len() > old(self).instrs@.len() && (final(self).instrs@.last() matches Instruction::MakeArray(n) && n
                == els@.len())),
            expr_compiles(*e) ==> r is Ok,
            r is Ok ==> expr_compiles(*e),
        decreases e, 0nat,
    {
        let ghost n0 = self.instrs@.len() as int;
        match e {
            Expr::Array(els) => {
                let n = els.len();
                let saved_call = self.in_call_expr;
                self.in_call_expr = false;
                let ghost pre_els = *self;
                let mut i: usize = 0;
                while i < els.len()
                    invariant
                        i <= els@.len(),
                        cg_wf(*self),
                        cg_preserved(pre_els, *self),
                        !self.in_call_expr,
                        self.this_stack_len == pre_els.this_stack_len,
                        heap_wf(heap@),
                        heap_extended(old(heap)@, heap@),
                        seg_effect(self.instrs@, n0, self.instrs@.len() as int) == i as int,
                        forall|m: int| 0 <= m < i ==> expr_compiles(#[trigger] els[m]),
                    decreases els@.len() - i,
                {
                    proof {
                        vstd::std_specs::vec::axiom_vec_index_decreases(*els, i as int);
                    }
                    let ghost v1 = self.instrs@;
                    let r_el = self.visit_expr(&els[i], ctx, heap);
                    if let Err(err) = r_el {
                        self.in_call_expr = saved_call;
                        return Err(err);
                    }
                    proof {
                        lemma_seg_effect_split(
                            self.instrs@,
                            n0,
                            v1.len() as int,
                            self.instrs@.len() as int,
                        );
                        lemma_seg_preserved(v1, self.instrs@, n0, v1.len() as int);
                    }
                    i = i + 1;
                }
                let ghost v2 = self.instrs@;
                self.emit(Instruction::MakeArray(n));
                self.in_call_expr = saved_call;
                proof {
                    lemma_seg_effect_push(v2, Instruction::MakeArray(n), n0);
                }
                Ok(())
            },
            _ => Err(CompileError::NestedAssignment),
        }
    }
}

/// Compiles a function body in a fresh function-scope compiler, wraps the
/// code into a user function object on the heap, and returns its slot.
#[verifier::loop_isolation(false)]
fn compile_function(
    params: &Vec<String>,
    body: &Vec<Stmt>,
    fname: String,
    ctx: &Context,
    heap: &mut Heap,
) -> (r: Result<usize, CompileError>)
    requires
        heap_wf(old(heap)@),
        ctx.Object_prototype < old(heap)@.len(),
        ctx.Function_prototype < old(heap)@.len(),
    ensures
        heap_wf(final(heap)@),
        heap_extended(old(heap)@, final(heap)@),
        // The slot holds a user function of the declared arity, its code
        // well formed, its instance prototype a fresh regular object.
        r matches Ok(f) ==> f < final(heap)@.len() && (final(heap)@[f as int].payload
            matches crate::objects::ObjectPayload::Function(fo) && fo.length == params@.len()
            && fo.payload is UserDefined),
        // The body compiles in its function scope exactly when every
        // statement of it does.
        (forall|i: int|
            0 <= i < body.len() ==> stmt_compiles(#[trigger] body[i], true, params_map(params@)))
            ==> r is Ok,
        r is Ok ==> (forall|i: int|
            0 <= i < body.len() ==> stmt_compiles(#[trigger] body[i], true, params_map(params@))),
    decreases body, 3nat,
{
    let mut cg = CodeGen::new(true);
    let mut i: usize = 0;
    proof {
        assert(cg.index_of_param@ =~= params_map(params@).subrange(0, 0));
    }
    while i < params.len()
        invariant
            i <= params@.len(),
            cg_wf(cg),
            cg.is_func,
            !cg.in_load_prop,
            !cg.in_call_expr,
            cg.instrs@.len() == 0,
            cg.index_of_param@ == params_map(params@).subrange(0, i as int),
        decreases params@.len() - i,
    {
        cg.index_of_param.push((params[i].clone(), i));
        i = i + 1;
        proof {
            assert(cg.index_of_param@ =~= params_map(params@).subrange(0, i as int));
        }
    }
    proof {
        assert(cg.index_of_param@ =~= params_map(params@));
    }
    cg.visit_fnbody(body, ctx, heap)?;
    let code = Code::new(cg.instrs, cg.consts, cg.names);
    proof {
        assert(code_wf(code));
    }
    let fidx = ctx.new_Function(heap, fname, code, params.len());
    Ok(fidx)
}

impl CodeGen {
    /// Lowers one statement. The emitted segment leaves the data stack as it
    /// found it.
    #[verifier::loop_isolation(false)]
    pub fn visit_stmt(&mut self, s: &Stmt, ctx: &Context, heap: &mut Heap) -> (r: Result<
        (),
        CompileError,
    >)
        requires
            cg_wf(*old(self)),
            !old(self).in_call_expr,
            !old(self).in_load_prop,
            heap_wf(old(heap)@),
            ctx.Object_prototype < old(heap)@.len(),
            ctx.Function_prototype < old(heap)@.len(),
        ensures
            cg_visit_frame(*old(self), *final(self)),
            !final(self).in_call_expr,
            final(self).this_stack_len == old(self).this_stack_len,
            heap_wf(final(heap)@),
            heap_extended(old(heap)@, final(heap)@),
            r is Ok ==> seg_effect(
                final(self).instrs@,
                old(self).instrs@.len() as int,
                final(self).instrs@.len() as int,
            ) == 0,
            r is Ok && s is Empty ==> final(self).instrs@ == old(self).instrs@,
            // A return statement always ends in `Return`; without an
            // expression it is exactly `LoadUndefined` then `Return`.
            r is Ok ==> (s matches Stmt::Return(opt) ==> final(self).instrs@.len() > old(self).instrs@.len()
                && final(self).instrs@.last() == Instruction::Return && (opt is None ==> final(self).instrs@
                == old(self).instrs@ + seq![Instruction::LoadUndefined, Instruction::Return])),
            // An expression statement discards its value; an assignment's
            // store already consumes it.
            r is Ok ==> (s matches Stmt::Expr(e2) ==> (!(e2 is Assign) ==> final(self).instrs@.len()
                > old(self).instrs@.len() && final(self).instrs@.last() == Instruction::Pop) && (
            e2 is Assign ==> final(self).instrs@.len() > old(self).instrs@.len() && (final(self).instrs@.last()
                is StoreProperty || final(self).instrs@.last() is StoreName))),
            // An `if` holds a conditional jump over its consequent to just
            // past the jump, and a jump over its alternate to the statement's
            // end.
            r is Ok && s is If ==> exists|j1: int, j2: int|
                old(self).instrs@.len() <= j1 < j2 < final(self).instrs@.len() && (#[trigger] final(self).instrs@[j1]
                    matches Instruction::PopJumpIfFalse(t1) && t1 == j2 + 1) && (#[trigger] final(self).instrs@[j2]
                    matches Instruction::Jump(t2) && t2 == final(self).instrs@.len()),
            // Lowering succeeds exactly on the statements that compile in
            // this scope.
            stmt_compiles(*s, old(self).is_func, old(self).index_of_param@) ==> r is Ok,
            r is Ok ==> stmt_compiles(*s, old(self).is_func, old(self).index_of_param@),
        decreases s, 1nat,
    {
        let ghost n0 = self.instrs@.len() as int;
        match s {
            Stmt::Empty => Ok(()),
            Stmt::Expr(e) => {
                match e {
                    Expr::Assign(_, _) => self.visit_assign(e, ctx, heap),
                    _ => {
                        self.visit_expr(e, ctx, heap)?;
                        let ghost v1 = self.instrs@;
                        // Discard the statement's value: the stack stays
                        // balanced between statements.
                        self.emit(Instruction::Pop);
                        proof {
                            lemma_seg_effect_push(v1, Instruction::Pop, n0);
                        }
                        Ok(())
                    },
                }
            },
            Stmt::Return(opt) => {
                match opt {
                    Some(e) => {
                        self.visit_expr(e, ctx, heap)?;
                    },
                    None => {
                        let ghost v0 = self.instrs@;
                        self.emit(Instruction::LoadUndefined);
                        proof {
                            lemma_seg_effect_push(v0, Instruction::LoadUndefined, n0);
                        }
                    },
                }
                let ghost v1 = self.instrs@;
                self.emit(Instruction::Return);
                proof {
                    lemma_seg_effect_push(v1, Instruction::Return, n0);
                }
                Ok(())
            },
            Stmt::If(test, cons, alt) => {
                self.visit_expr(test, ctx, heap)?;
                let idx1 = self.instrs.len();
                let ghost v1 = self.instrs@;
                self.emit(Instruction::PopJumpIfFalse(0));
                proof {
                    lemma_seg_effect_push(v1, Instruction::PopJumpIfFalse(0), n0);
                }
                self.visit_stmt(cons, ctx, heap)?;
                let idx2 = self.instrs.len();
                let ghost v2 = self.instrs@;
                self.emit(Instruction::Jump(0));
                proof {
                    lemma_seg_effect_push(v2, Instruction::Jump(0), n0);
                    lemma_seg_effect_split(v2, n0, v1.len() as int + 1, v2.len() as int);
                    lemma_seg_preserved(v1.push(Instruction::PopJumpIfFalse(0)), v2, n0, v1.len() as int + 1);
                }
                // The false branch continues after the jump over the
                // consequent.
                let t1 = self.instrs.len();
                let ghost v3 = self.instrs@;
                self.instrs[idx1] = Instruction::PopJumpIfFalse(t1);
                proof {
                    crate::code::lemma_seg_effect_update(
                        v3,
                        idx1 as int,
                        Instruction::PopJumpIfFalse(t1),
                        n0,
                        v3.len() as int,
                    );
                }
                match alt {
                    Some(a) => {
                        self.visit_stmt(a, ctx, heap)?;
                    },
                    None => {},
                }
                // The jump lands after the whole statement.
                let t2 = self.instrs.len();
                let ghost v4 = self.instrs@;
                self.instrs[idx2] = Instruction::Jump(t2);
                proof {
                    lemma_seg_effect_split(v4, n0, v3.len() as int, v4.len() as int);
                    lemma_seg_preserved(v3.update(idx1 as int, Instruction::PopJumpIfFalse(t1)), v4, n0, v3.len() as int);
                    crate::code::lemma_seg_effect_update(
                        v4,
                        idx2 as int,
                        Instruction::Jump(t2),
                        n0,
                        v4.len() as int,
                    );
                    assert(self.instrs@[idx1 as int] == Instruction::PopJumpIfFalse(t1));
                    assert(t1 == idx2 + 1);
                    assert(self.instrs@[idx2 as int] == Instruction::Jump(t2));
                    assert(t2 == self.instrs@.len());
                }
                Ok(())
            },
            Stmt::Block(stmts) => {
                let ghost pre = *self;
                let mut i: usize = 0;
                while i < stmts.len()
                    invariant
                        i <= stmts@.len(),
                        cg_wf(*self),
                        cg_preserved(pre, *self),
                        !self.in_call_expr,
                        !self.in_load_prop,
                        self.this_stack_len == pre.this_stack_len,
                        heap_wf(heap@),
                        heap_extended(old(heap)@, heap@),
                        seg_effect(self.instrs@, n0, self.instrs@.len() as int) == 0,
                        forall|m: int|
                            0 <= m < i ==> stmt_compiles(
                                #[trigger] stmts[m],
                                pre.is_func,
                                pre.index_of_param@,
                            ),
                    decreases stmts@.len() - i,
                {
                    proof {
                        vstd::std_specs::vec::axiom_vec_index_decreases(*stmts, i as int);
                    }
                    let ghost v1 = self.instrs@;
                    self.visit_stmt(&stmts[i], ctx, heap)?;
                    proof {
                        lemma_seg_effect_split(
                            self.instrs@,
                            n0,
                            v1.len() as int,
                            self.instrs@.len() as int,
                        );
                        lemma_seg_preserved(v1, self.instrs@, n0, v1.len() as int);
                    }
                    i = i + 1;
                }
                Ok(())
            },
            Stmt::Var(_) => self.visit_decl(s, ctx, heap),
            Stmt::FuncDecl(_, _, _) => self.visit_decl(s, ctx, heap),
        }
    }

    /// Lowers a declaration: a `var` list or a function declaration. Either
    /// stores a value under a name and leaves the data stack untouched.
    #[verifier::loop_isolation(false)]
    pub fn visit_decl(&mut self, s: &Stmt, ctx: &Context, heap: &mut Heap) -> (r: Result<
        (),
        CompileError,
    >)
        requires
            cg_wf(*old(self)),
            !old(self).in_call_expr,
            !old(self).in_load_prop,
            heap_wf(old(heap)@),
            ctx.Object_prototype < old(heap)@.len(),
            ctx.Function_prototype < old(heap)@.len(),
        ensures
            cg_visit_frame(*old(self), *final(self)),
            !final(self).in_call_expr,
            final(self).this_stack_len == old(self).this_stack_len,
            heap_wf(final(heap)@),
            heap_extended(old(heap)@, final(heap)@),
            r is Ok ==> seg_effect(
                final(self).instrs@,
                old(self).instrs@.len() as int,
                final(self).instrs@.len() as int,
            ) == 0,
            // Each declarator stores its value (or `undefined`) under its
            // name, so a nonempty list ends in a store under the last
            // declared name.
            r is Ok ==> (s matches Stmt::Var(ds) ==> (ds@.len() > 0 ==> final(self).instrs@.len()
                > old(self).instrs@.len() && (final(self).instrs@.last()
                matches Instruction::StoreName(n) && n < final(self).names@.len()
                && final(self).names@[n as int]@ == ds@[ds@.len() - 1].0@)) && (ds@.len() == 0
                ==> final(self).instrs@ == old(self).instrs@)),
            // A function declaration loads the interned function object --
            // built from the declared body, of the declared arity -- and
            // stores it under the declared name.
            r is Ok ==> (s matches Stmt::FuncDecl(name, ps, _) ==> final(self).instrs@.len()
                >= old(self).instrs@.len() + 2 && (final(self).instrs@.last()
                matches Instruction::StoreName(n) && n < final(self).names@.len()
                && final(self).names@[n as int]@ == name@) && (final(self).instrs@[final(self).instrs@.len()
                - 2] matches Instruction::LoadConst(k) && k < final(self).consts@.len()
                && (final(self).consts@[k as int] matches Value::Object(fi) && fi < final(heap)@.len()
                && (final(heap)@[fi as int].payload
                matches crate::objects::ObjectPayload::Function(fo) && fo.length == ps@.len()
                && fo.payload is UserDefined)))),
            stmt_compiles(*s, old(self).is_func, old(self).index_of_param@) ==> r is Ok,
            r is Ok ==> ((s is Var || s is FuncDecl) ==> stmt_compiles(
                *s,
                old(self).is_func,
                old(self).index_of_param@,
            )),
        decreases s, 0nat,
    {
        let ghost n0 = self.instrs@.len() as int;
        match s {
            Stmt::Var(decls) => {
                let ghost pre = *self;
                let mut i: usize = 0;
                while i < decls.len()
                    invariant
                        i <= decls@.len(),
                        cg_wf(*self),
                        cg_preserved(pre, *self),
                        !self.in_call_expr,
                        !self.in_load_prop,
                        self.this_stack_len == pre.this_stack_len,
                        heap_wf(heap@),
                        heap_extended(old(heap)@, heap@),
                        seg_effect(self.instrs@, n0, self.instrs@.len() as int) == 0,
                        i > 0 ==> self.instrs@.len() > pre.instrs@.len() && (self.instrs@.last()
                            matches Instruction::StoreName(n) && n < self.names@.len()
                            && self.names@[n as int]@ == decls[i - 1].0@),
                        i == 0 ==> self.instrs@ == pre.instrs@,
                        forall|m: int|
                            0 <= m < i ==> ((#[trigger] decls[m]).1 matches Some(init)
                                ==> expr_compiles(init)),
                    decreases decls@.len() - i,
                {
                    proof {
                        vstd::std_specs::vec::axiom_vec_index_decreases(*decls, i as int);
                    }
                    let ghost v1 = self.instrs@;
                    match &decls[i].1 {
                        Some(init) => {
                            self.visit_expr(init, ctx, heap)?;
                        },
                        None => {
                            self.emit(Instruction::LoadUndefined);
                            proof {
                                lemma_seg_effect_push(
                                    v1,
                                    Instruction::LoadUndefined,
                                    v1.len() as int,
                                );
                            }
                        },
                    }
                    let n = self.intern_name(&decls[i].0);
                    let ghost v2 = self.instrs@;
                    self.emit(Instruction::StoreName(n));
                    proof {
                        lemma_seg_effect_push(v2, Instruction::StoreName(n), n0);
                        lemma_seg_effect_split(v2, n0, v1.len() as int, v2.len() as int);
                        lemma_seg_preserved(v1, v2, n0, v1.len() as int);
                    }
                    i = i + 1;
                }
                Ok(())
            },
            Stmt::FuncDecl(name, params, body) => {
                let fidx = compile_function(params, body, name.clone(), ctx, heap)?;
                let k = self.intern_const(Value::Object(fidx));
                let ghost v1 = self.instrs@;
                self.emit(Instruction::LoadConst(k));
                proof {
                    lemma_seg_effect_push(v1, Instruction::LoadConst(k), n0);
                }
                let n = self.intern_name(name);
                let ghost v2 = self.instrs@;
                self.emit(Instruction::StoreName(n));
                proof {
                    lemma_seg_effect_push(v2, Instruction::StoreName(n), n0);
                }
                Ok(())
            },
            _ => Ok(()),
        }
    }

    /// Lowers a plain `=`: the value, then the target, whose final load is
    /// rewritten in place into the matching store. The store consumes the
    /// value, so the statement leaves the data stack untouched.
    #[verifier::loop_isolation(false)]
    pub fn visit_assign(&mut self, e: &Expr, ctx: &Context, heap: &mut Heap) -> (r: Result<
        (),
        CompileError,
    >)
        requires
            cg_wf(*old(self)),
            !old(self).in_call_expr,
            !old(self).in_load_prop,
            heap_wf(old(heap)@),
            ctx.Object_prototype < old(heap)@.len(),
            ctx.Function_prototype < old(heap)@.len(),
        ensures
            cg_visit_frame(*old(self), *final(self)),
            !final(self).in_call_expr,
            final(self).this_stack_len == old(self).this_stack_len,
            heap_wf(final(heap)@),
            heap_extended(old(heap)@, final(heap)@),
            r is Ok ==> seg_effect(
                final(self).instrs@,
                old(self).instrs@.len() as int,
                final(self).instrs@.len() as int,
            ) == 0,
            // The lowering ends in the store that the target's final load was
            // rewritten into: a member target in `StoreProperty`, an
            // identifier target in `StoreName`.
            r is Ok ==> final(self).instrs@.len() > old(self).instrs@.len() && (final(self).instrs@.last()
                is StoreProperty || final(self).instrs@.last() is StoreName),
            r is Ok ==> (e matches Expr::Assign(t, _) ==> (((**t) is Member ==> final(self).instrs@.last()
                is StoreProperty) && ((**t) is Ident ==> final(self).instrs@.last() is StoreName))),
            // The lowering succeeds exactly when both sides compile and the
            // target is one `=` can reach.
            e matches Expr::Assign(t3, v3) ==> ((expr_compiles(**t3) && expr_compiles(**v3)
                && assign_target_ok(**t3, old(self).is_func, old(self).index_of_param@)) ==> r
                is Ok),
            r is Ok ==> (e matches Expr::Assign(t4, v4) && expr_compiles(**t4) && expr_compiles(
                **v4,
            ) && assign_target_ok(**t4, old(self).is_func, old(self).index_of_param@)),
        decreases e, 0nat,
    {
        let ghost n0 = self.instrs@.len() as int;
        match e {
            Expr::Assign(target, value) => {
                self.visit_expr(value, ctx, heap)?;
                let ghost v1 = self.instrs@;
                self.visit_expr(target, ctx, heap)?;
                let ghost v2 = self.instrs@;
                proof {
                    lemma_seg_effect_split(v2, n0, v1.len() as int, v2.len() as int);
                    lemma_seg_preserved(v1, v2, n0, v1.len() as int);
                    // The target segment sums to one, so it is not empty.
                    assert(seg_effect(v2, v1.len() as int, v1.len() as int) == 0);
                    assert(v2.len() > v1.len());
                }
                let li = self.instrs.len() - 1;
                let last = self.instrs[li].clone();
                proof {
                    lemma_seg_effect_split(v2, n0, li as int, v2.len() as int);
                    assert(seg_effect(v2, li as int, v2.len() as int) == instr_effect(
                        v2[li as int],
                    ) + seg_effect(v2, li as int + 1, v2.len() as int));
                    assert(seg_effect(v2, li as int + 1, v2.len() as int) == 0);
                    assert(seg_effect(v2, n0, li as int) == 2 - instr_effect(v2[li as int]));
                }
                match last {
                    Instruction::LoadProperty => {
                        self.instrs[li] = Instruction::StoreProperty;
                        proof {
                            lemma_seg_effect_split(
                                self.instrs@,
                                n0,
                                li as int,
                                self.instrs@.len() as int,
                            );
                            crate::code::lemma_seg_effect_agree(
                                self.instrs@,
                                v2,
                                n0,
                                li as int,
                            );
                            assert(seg_effect(self.instrs@, li as int, self.instrs@.len() as int)
                                == instr_effect(self.instrs@[li as int]) + seg_effect(
                                self.instrs@,
                                li as int + 1,
                                self.instrs@.len() as int,
                            ));
                            assert(seg_effect(
                                self.instrs@,
                                li as int + 1,
                                self.instrs@.len() as int,
                            ) == 0);
                        }
                        Ok(())
                    },
                    Instruction::LoadName(n) => {
                        self.instrs[li] = Instruction::StoreName(n);
                        proof {
                            lemma_seg_effect_split(
                                self.instrs@,
                                n0,
                                li as int,
                                self.instrs@.len() as int,
                            );
                            crate::code::lemma_seg_effect_agree(
                                self.instrs@,
                                v2,
                                n0,
                                li as int,
                            );
                            assert(seg_effect(self.instrs@, li as int, self.instrs@.len() as int)
                                == instr_effect(self.instrs@[li as int]) + seg_effect(
                                self.instrs@,
                                li as int + 1,
                                self.instrs@.len() as int,
                            ));
                            assert(seg_effect(
                                self.instrs@,
                                li as int + 1,
                                self.instrs@.len() as int,
                            ) == 0);
                        }
                        Ok(())
                    },
                    _ => Err(CompileError::BadAssignmentTarget),
                }
            },
            _ => Err(CompileError::NestedAssignment),
        }
    }

    /// Lowers a function body: its statements in order.
    pub fn visit_fnbody(&mut self, body: &Vec<Stmt>, ctx: &Context, heap: &mut Heap) -> (r: Result<
        (),
        CompileError,
    >)
        requires
            cg_wf(*old(self)),
            !old(self).in_call_expr,
            !old(self).in_load_prop,
            heap_wf(old(heap)@),
            ctx.Object_prototype < old(heap)@.len(),
            ctx.Function_prototype < old(heap)@.len(),
        ensures
            cg_visit_frame(*old(self), *final(self)),
            heap_wf(final(heap)@),
            heap_extended(old(heap)@, final(heap)@),
            r is Ok ==> seg_effect(
                final(self).instrs@,
                old(self).instrs@.len() as int,
                final(self).instrs@.len() as int,
            ) == 0,
            (forall|i: int|
                0 <= i < body.len() ==> stmt_compiles(
                    #[trigger] body[i],
                    old(self).is_func,
                    old(self).index_of_param@,
                )) ==> r is Ok,
            r is Ok ==> (forall|i: int|
                0 <= i < body.len() ==> stmt_compiles(
                    #[trigger] body[i],
                    old(self).is_func,
                    old(self).index_of_param@,
                )),
        decreases body, 2nat,
    {
        self.code(body, ctx, heap)
    }

    /// Lowers a statement list in order.
    #[verifier::loop_isolation(false)]
    pub fn code(&mut self, parts: &Vec<Stmt>, ctx: &Context, heap: &mut Heap) -> (r: Result<
        (),
        CompileError,
    >)
        requires
            cg_wf(*old(self)),
            !old(self).in_call_expr,
            !old(self).in_load_prop,
            heap_wf(old(heap)@),
            ctx.Object_prototype < old(heap)@.len(),
            ctx.Function_prototype < old(heap)@.len(),
        ensures
            cg_visit_frame(*old(self), *final(self)),
            heap_wf(final(heap)@),
            heap_extended(old(heap)@, final(heap)@),
            r is Ok ==> seg_effect(
                final(self).instrs@,
                old(self).instrs@.len() as int,
                final(self).instrs@.len() as int,
            ) == 0,
            (forall|i: int|
                0 <= i < parts.len() ==> stmt_compiles(
                    #[trigger] parts[i],
                    old(self).is_func,
                    old(self).index_of_param@,
                )) ==> r is Ok,
            r is Ok ==> (forall|i: int|
                0 <= i < parts.len() ==> stmt_compiles(
                    #[trigger] parts[i],
                    old(self).is_func,
                    old(self).index_of_param@,
                )),
        decreases parts, 1nat,
    {
        let ghost n0 = self.instrs@.len() as int;
        let ghost pre = *self;
        let mut i: usize = 0;
        while i < parts.len()
            invariant
                i <= parts@.len(),
                cg_wf(*self),
                cg_preserved(pre, *self),
                !self.in_call_expr,
                !self.in_load_prop,
                self.this_stack_len == pre.this_stack_len,
                heap_wf(heap@),
                heap_extended(old(heap)@, heap@),
                seg_effect(self.instrs@, n0, self.instrs@.len() as int) == 0,
                forall|m: int|
                    0 <= m < i ==> stmt_compiles(
                        #[trigger] parts[m],
                        pre.is_func,
                        pre.index_of_param@,
                    ),
            decreases parts@.len() - i,
        {
            proof {
                vstd::std_specs::vec::axiom_vec_index_decreases(*parts, i as int);
            }
            let ghost v1 = self.instrs@;
            self.visit_stmt(&parts[i], ctx, heap)?;
            proof {
                lemma_seg_effect_split(self.instrs@, n0, v1.len() as int, self.instrs@.len() as int);
                lemma_seg_preserved(v1, self.instrs@, n0, v1.len() as int);
            }
            i = i + 1;
        }
        Ok(())
    }
}

/// Compiles a script program to a code unit. Every operand of the result is
/// in range of its pool, and the whole stream's data-stack effect sums to
/// zero: each statement leaves the stack as it found it. Function bodies are
/// compiled the same way and wrapped into function objects on the heap.
#[allow(unused_variables)]
pub fn gen_code(program: &Program, ctx: &Context, heap: &mut Heap) -> (r: Result<
    Code,
    CompileError,
>)
    requires
        heap_wf(old(heap)@),
        ctx.Object_prototype < old(heap)@.len(),
        ctx.Function_prototype < old(heap)@.len(),
    ensures
        heap_wf(final(heap)@),
        heap_extended(old(heap)@, final(heap)@),
        r matches Ok(code) ==> code_wf(code) && seg_effect(
            code.instrs@,
            0,
            code.instrs@.len() as int,
        ) == 0,
        // Compilation succeeds exactly when every statement of the script
        // compiles: an `=` may only stand as a statement, against a name
        // or a member access, and nothing else is refused.
        (forall|i: int|
            0 <= i < program.parts.len() ==> stmt_compiles(
                #[trigger] program.parts[i],
                false,
                Seq::<(String, usize)>::empty(),
            )) ==> r is Ok,
        r is Ok ==> (forall|i: int|
            0 <= i < program.parts.len() ==> stmt_compiles(
                #[trigger] program.parts[i],
                false,
                Seq::<(String, usize)>::empty(),
            )),
{
    let mut cg = CodeGen::new(false);
    cg.code(&program.parts, ctx, heap)?;
    let code = Code::new(cg.instrs, cg.consts, cg.names);
    Ok(code)
}

} // verus!
