//! Compiled units: a flat instruction stream with a constant pool and a name
//! pool. Operands that refer to a pool are indices into it; jump operands are
//! absolute indices into the instruction stream.

use vstd::prelude::*;

use crate::value::Value;

verus! {

/// One bytecode instruction.
pub enum Instruction {
    /// Push `undefined`.
    LoadUndefined,
    /// Push `null`.
    LoadNull,
    /// Push a boolean.
    LoadBool(bool),
    /// Push `consts[k]`.
    LoadConst(usize),
    /// Push the value bound to `names[n]` in the innermost scope holding it,
    /// else in the global scope.
    LoadName(usize),
    /// Pop a value and bind it to `names[n]` in the innermost scope if one is
    /// open, else in the global scope.
    StoreName(usize),
    /// Push argument slot `i` of the current frame.
    LoadArg(usize),
    /// Push the current receiver.
    LoadThis,
    /// Push the top of the data stack onto the thises stack, as an object.
    PushThis,
    /// Pop the thises stack.
    PopThis,
    /// Pop a key and an object, push the object's property.
    LoadProperty,
    /// Pop a key, an object and a value, write the property.
    StoreProperty,
    /// Pop two values, push their coerced sum or concatenation.
    BinAdd,
    /// Pop two values, push their numeric difference.
    BinSub,
    /// Pop two values, push their loose equality.
    BinEq,
    /// Pop the callee and `n` arguments, call, push the result.
    Call(usize),
    /// Pop the callee and `n` arguments, construct, push the instance.
    New(usize),
    /// Pop `n` values, push an array object holding them.
    MakeArray(usize),
    /// Discard the top of the data stack.
    Pop,
    /// Pop a value; jump to the target when it coerces to false.
    PopJumpIfFalse(usize),
    /// Jump to the target.
    Jump(usize),
    /// Pop a value, pop the frame, deliver the value to the caller.
    Return,
    /// Pop a value, record it as thrown, unwind.
    Throw,
}

impl Clone for Instruction {
    fn clone(&self) -> (r: Self)
        ensures
            r == *self,
    {
        match self {
            Instruction::LoadUndefined => Instruction::LoadUndefined,
            Instruction::LoadNull => Instruction::LoadNull,
            Instruction::LoadBool(b) => Instruction::LoadBool(*b),
            Instruction::LoadConst(k) => Instruction::LoadConst(*k),
            Instruction::LoadName(n) => Instruction::LoadName(*n),
            Instruction::StoreName(n) => Instruction::StoreName(*n),
            Instruction::LoadArg(i) => Instruction::LoadArg(*i),
            Instruction::LoadThis => Instruction::LoadThis,
            Instruction::PushThis => Instruction::PushThis,
            Instruction::PopThis => Instruction::PopThis,
            Instruction::LoadProperty => Instruction::LoadProperty,
            Instruction::StoreProperty => Instruction::StoreProperty,
            Instruction::BinAdd => Instruction::BinAdd,
            Instruction::BinSub => Instruction::BinSub,
            Instruction::BinEq => Instruction::BinEq,
            Instruction::Call(n) => Instruction::Call(*n),
            Instruction::New(n) => Instruction::New(*n),
            Instruction::MakeArray(n) => Instruction::MakeArray(*n),
            Instruction::Pop => Instruction::Pop,
            Instruction::PopJumpIfFalse(t) => Instruction::PopJumpIfFalse(*t),
            Instruction::Jump(t) => Instruction::Jump(*t),
            Instruction::Return => Instruction::Return,
            Instruction::Throw => Instruction::Throw,
        }
    }
}

/// Whether one instruction's operands fit a code unit with `n_instrs`
/// instructions, `n_consts` constants and `n_names` names. A jump target may
/// equal `n_instrs`: jumping there ends the frame.
pub open spec fn instr_wf(i: Instruction, n_instrs: int, n_consts: int, n_names: int) -> bool {
    match i {
        Instruction::LoadConst(k) => k < n_consts,
        Instruction::LoadName(n) => n < n_names,
        Instruction::StoreName(n) => n < n_names,
        Instruction::PopJumpIfFalse(t) => t <= n_instrs,
        Instruction::Jump(t) => t <= n_instrs,
        _ => true,
    }
}

/// The net effect of one instruction on the height of the data stack.
pub open spec fn instr_effect(i: Instruction) -> int {
    match i {
        Instruction::LoadUndefined => 1,
        Instruction::LoadNull => 1,
        Instruction::LoadBool(_) => 1,
        Instruction::LoadConst(_) => 1,
        Instruction::LoadName(_) => 1,
        Instruction::LoadArg(_) => 1,
        Instruction::LoadThis => 1,
        Instruction::StoreName(_) => -1,
        Instruction::PushThis => 0,
        Instruction::PopThis => 0,
        Instruction::LoadProperty => -1,
        Instruction::StoreProperty => -3,
        Instruction::BinAdd => -1,
        Instruction::BinSub => -1,
        Instruction::BinEq => -1,
        Instruction::Call(n) => -(n as int),
        Instruction::New(n) => -(n as int),
        Instruction::MakeArray(n) => 1 - (n as int),
        Instruction::Pop => -1,
        Instruction::PopJumpIfFalse(_) => -1,
        Instruction::Jump(_) => 0,
        Instruction::Return => -1,
        Instruction::Throw => -1,
    }
}

/// The sum of the data-stack effects of `instrs[from..to]`.
pub open spec fn seg_effect(instrs: Seq<Instruction>, from: int, to: int) -> int
    decreases to - from,
{
    if from >= to {
        0
    } else {
        instr_effect(instrs[from]) + seg_effect(instrs, from + 1, to)
    }
}

/// Splitting a segment splits its effect sum.
pub proof fn lemma_seg_effect_split(s: Seq<Instruction>, a: int, b: int, c: int)
    requires
        a <= b <= c,
    ensures
        seg_effect(s, a, c) == seg_effect(s, a, b) + seg_effect(s, b, c),
    decreases b - a,
{
    if a < b {
        lemma_seg_effect_split(s, a + 1, b, c);
    }
}

/// A segment's effect sum depends only on the instructions in it.
pub proof fn lemma_seg_effect_agree(s1: Seq<Instruction>, s2: Seq<Instruction>, a: int, b: int)
    requires
        0 <= a,
        b <= s1.len(),
        b <= s2.len(),
        forall|i: int| a <= i < b ==> s1[i] == s2[i],
    ensures
        seg_effect(s1, a, b) == seg_effect(s2, a, b),
    decreases b - a,
{
    if a < b {
        lemma_seg_effect_agree(s1, s2, a + 1, b);
    }
}

/// Replacing one instruction with one of equal effect keeps a segment's sum.
pub proof fn lemma_seg_effect_update(
    s: Seq<Instruction>,
    j: int,
    x: Instruction,
    a: int,
    b: int,
)
    requires
        0 <= a,
        b <= s.len(),
        0 <= j < s.len(),
        instr_effect(x) == instr_effect(s[j]),
    ensures
        seg_effect(s.update(j, x), a, b) == seg_effect(s, a, b),
    decreases b - a,
{
    if a < b {
        lemma_seg_effect_update(s, j, x, a + 1, b);
    }
}

/// Appending an instruction extends a segment's sum by its effect.
pub proof fn lemma_seg_effect_push(s: Seq<Instruction>, x: Instruction, a: int)
    requires
        0 <= a <= s.len(),
    ensures
        seg_effect(s.push(x), a, s.len() as int + 1) == seg_effect(s, a, s.len() as int) + instr_effect(
            x,
        ),
{
    let t = s.push(x);
    lemma_seg_effect_split(t, a, s.len() as int, s.len() as int + 1);
    lemma_seg_effect_agree(t, s, a, s.len() as int);
    assert(seg_effect(t, s.len() as int, s.len() as int + 1) == instr_effect(x) + seg_effect(
        t,
        s.len() as int + 1,
        s.len() as int + 1,
    ));
}

/// An immutable compiled unit.
pub struct Code {
    pub instrs: Vec<Instruction>,
    pub consts: Vec<Value>,
    pub names: Vec<String>,
}

/// Every operand of every instruction is in range of its pool or of the
/// instruction stream.
pub open spec fn code_wf(c: Code) -> bool {
    forall|i: int|
        0 <= i < c.instrs@.len() ==> instr_wf(
            #[trigger] c.instrs@[i],
            c.instrs@.len() as int,
            c.consts@.len() as int,
            c.names@.len() as int,
        )
}

impl Code {
    pub fn new(instrs: Vec<Instruction>, consts: Vec<Value>, names: Vec<String>) -> (r: Self)
        ensures
            r.instrs == instrs,
            r.consts == consts,
            r.names == names,
    {
        Code { instrs, consts, names }
    }
}

impl Clone for Code {
    fn clone(&self) -> (r: Self)
        ensures
            r.instrs@ == self.instrs@,
            r.consts@ == self.consts@,
            r.names@ == self.names@,
    {
        let mut instrs: Vec<Instruction> = Vec::new();
        let mut i: usize = 0;
        while i < self.instrs.len()
            invariant
                i <= self.instrs@.len(),
                instrs@ == self.instrs@.subrange(0, i as int),
            decreases self.instrs@.len() - i,
        {
            instrs.push(self.instrs[i].clone());
            i = i + 1;
            proof {
                assert(instrs@ =~= self.instrs@.subrange(0, i as int));
            }
        }
        let mut consts: Vec<Value> = Vec::new();
        let mut j: usize = 0;
        while j < self.consts.len()
            invariant
                j <= self.consts@.len(),
                consts@ == self.consts@.subrange(0, j as int),
            decreases self.consts@.len() - j,
        {
            consts.push(self.consts[j].clone());
            j = j + 1;
            proof {
                assert(consts@ =~= self.consts@.subrange(0, j as int));
            }
        }
        let mut names: Vec<String> = Vec::new();
        let mut k: usize = 0;
        while k < self.names.len()
            invariant
                k <= self.names@.len(),
                names@ == self.names@.subrange(0, k as int),
            decreases self.names@.len() - k,
        {
            names.push(self.names[k].clone());
            k = k + 1;
            proof {
                assert(names@ =~= self.names@.subrange(0, k as int));
            }
        }
        proof {
            assert(instrs@ =~= self.instrs@);
            assert(consts@ =~= self.consts@);
            assert(names@ =~= self.names@);
        }
        Code { instrs, consts, names }
    }
}

} // verus!
