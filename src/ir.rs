//! The instructions that lowering emits, and the module that holds the
//! declared functions with their bodies.
use vstd::prelude::*;
use crate::ast::{Prototype, SPrototype};
use crate::decimal::{Decimal, SDecimal};

verus! {

/// The floating-point operation of a binary operator; `Lt` compares and
/// widens the outcome to `1.0` or `0.0`.
#[derive(Clone, Copy, Debug, PartialEq, Eq, Structural)]
pub enum BinaryKind {
    Add,
    Sub,
    Mul,
    Div,
    Lt,
}

/// One instruction of a function body. An instruction's index in the body is
/// the handle of the value or stack slot that it produces.
#[derive(Debug, PartialEq)]
pub enum Instr {
    /// A floating-point constant.
    Const(Decimal),
    /// A named stack slot.
    Alloca(String),
    /// Stores the incoming parameter `param` into the slot `slot`.
    StoreParam { slot: usize, param: usize },
    /// Loads the value held in the slot `slot`, named after the variable.
    Load { slot: usize, name: String },
    /// An arithmetic or comparison operation on two values.
    Binary { op: BinaryKind, lhs: usize, rhs: usize },
    /// Calls the module's function `callee` with the values `args`.
    Call { callee: usize, args: Vec<usize> },
    /// Returns a value from the function.
    Return(usize),
}

pub enum SInstr {
    Const(SDecimal),
    Alloca(Seq<char>),
    StoreParam { slot: nat, param: nat },
    Load { slot: nat, name: Seq<char> },
    Binary { op: BinaryKind, lhs: nat, rhs: nat },
    Call { callee: nat, args: Seq<nat> },
    Return(nat),
}

pub open spec fn handles_view(v: Seq<usize>) -> Seq<nat> {
    v.map_values(|a: usize| a as nat)
}

impl View for Instr {
    type V = SInstr;

    open spec fn view(&self) -> SInstr {
        match self {
            Instr::Const(d) => SInstr::Const(d@),
            Instr::Alloca(n) => SInstr::Alloca(n@),
            Instr::StoreParam { slot, param } => SInstr::StoreParam {
                slot: *slot as nat,
                param: *param as nat,
            },
            Instr::Load { slot, name } => SInstr::Load { slot: *slot as nat, name: name@ },
            Instr::Binary { op, lhs, rhs } => SInstr::Binary {
                op: *op,
                lhs: *lhs as nat,
                rhs: *rhs as nat,
            },
            Instr::Call { callee, args } => SInstr::Call {
                callee: *callee as nat,
                args: handles_view(args@),
            },
            Instr::Return(v) => SInstr::Return(*v as nat),
        }
    }
}

pub open spec fn instrs_view(v: Seq<Instr>) -> Seq<SInstr> {
    v.map_values(|i: Instr| i@)
}

/// A function of the module: its prototype, and its body unless it is only declared.
#[derive(Debug, PartialEq)]
pub struct IrFunction {
    pub prototype: Prototype,
    pub body: Option<Vec<Instr>>,
}

pub struct SIrFunction {
    pub prototype: SPrototype,
    pub body: Option<Seq<SInstr>>,
}

impl View for IrFunction {
    type V = SIrFunction;

    open spec fn view(&self) -> SIrFunction {
        SIrFunction {
            prototype: self.prototype@,
            body: match self.body {
                Some(b) => Some(instrs_view(b@)),
                None => None,
            },
        }
    }
}

/// The first function from index `i` on whose name is `name`.
pub open spec fn find_from(fs: Seq<SIrFunction>, name: Seq<char>, i: int) -> Option<nat>
    decreases fs.len() - i,
{
    if i < 0 || i >= fs.len() {
        None
    } else if fs[i].prototype.name == name {
        Some(i as nat)
    } else {
        find_from(fs, name, i + 1)
    }
}

/// The handle of the first function of the module named `name`.
pub open spec fn find_function(fs: Seq<SIrFunction>, name: Seq<char>) -> Option<nat> {
    find_from(fs, name, 0)
}

/// Whether the instruction produces a floating-point value.
pub open spec fn produces_value(i: SInstr) -> bool {
    i is Const || i is Load || i is Binary || i is Call
}

/// `v` is a value produced before the instruction `k`.
pub open spec fn value_before(body: Seq<SInstr>, v: nat, k: int) -> bool {
    v < k && produces_value(body[v as int])
}

/// `slot` is a stack slot allocated before the instruction `k`.
pub open spec fn slot_before(body: Seq<SInstr>, slot: nat, k: int) -> bool {
    slot < k && body[slot as int] is Alloca
}

/// The instruction `k` refers only to what comes before it, calls functions
/// of the module with as many arguments as they have parameters, and returns
/// only as the last instruction.
pub open spec fn instr_ok(body: Seq<SInstr>, k: int, fs: Seq<SIrFunction>, n_params: nat) -> bool {
    match body[k] {
        SInstr::Const(_) => true,
        SInstr::Alloca(_) => true,
        SInstr::StoreParam { slot, param } => slot_before(body, slot, k) && param < n_params,
        SInstr::Load { slot, .. } => slot_before(body, slot, k),
        SInstr::Binary { lhs, rhs, .. } => value_before(body, lhs, k) && value_before(body, rhs, k),
        SInstr::Call { callee, args } => {
            &&& callee < fs.len()
            &&& args.len() == fs[callee as int].prototype.args.len()
            &&& forall|j: int| 0 <= j < args.len() ==> value_before(body, #[trigger] args[j], k)
        },
        SInstr::Return(v) => k == body.len() - 1 && value_before(body, v, k),
    }
}

/// A body that the backend accepts: every instruction is in order, and the
/// last one returns.
pub open spec fn well_formed(body: Seq<SInstr>, fs: Seq<SIrFunction>, n_params: nat) -> bool {
    &&& body.len() > 0
    &&& body.last() is Return
    &&& forall|k: int| 0 <= k < body.len() ==> instr_ok(body, k, fs, n_params)
}

/// The functions declared so far, in order of declaration; a function's index
/// is its handle.
pub struct Module {
    functions: Vec<IrFunction>,
}

impl View for Module {
    type V = Seq<SIrFunction>;

    closed spec fn view(&self) -> Seq<SIrFunction> {
        self.functions@.map_values(|f: IrFunction| f@)
    }
}

impl Module {
    pub fn new() -> (r: Module)
        ensures
            r@ == Seq::<SIrFunction>::empty(),
    {
        let r = Module { functions: Vec::new() };
        assert(r@ =~= Seq::<SIrFunction>::empty());
        r
    }

    pub fn len(&self) -> (r: usize)
        ensures
            r == self@.len(),
    {
        self.functions.len()
    }

    pub fn function(&self, handle: usize) -> (r: &IrFunction)
        requires
            handle < self@.len(),
        ensures
            r@ == self@[handle as int],
    {
        &self.functions[handle]
    }

    /// The handle of the first function named `name`.
    pub fn lookup_function(&self, name: &str) -> (r: Option<usize>)
        ensures
            r matches Some(h) ==> find_function(self@, name@) == Some(h as nat),
            r is None ==> find_function(self@, name@) is None,
    {
        let key = name.to_owned();
        let mut i: usize = 0;
        while i < self.functions.len()
            invariant
                key@ == name@,
                i <= self.functions.len(),
                find_from(self@, name@, i as int) == find_function(self@, name@),
            decreases self.functions.len() - i,
        {
            if self.functions[i].prototype.name == key {
                return Some(i);
            }
            i = i + 1;
        }
        None
    }

    /// Declares a function without a body; returns its handle.
    pub fn declare_function(&mut self, prototype: Prototype) -> (r: usize)
        ensures
            r == old(self)@.len(),
            final(self)@ == old(self)@.push(SIrFunction { prototype: prototype@, body: None }),
    {
        let ghost p = prototype@;
        self.functions.push(IrFunction { prototype, body: None });
        assert(self@ =~= old(self)@.push(SIrFunction { prototype: p, body: None }));
        self.functions.len() - 1
    }

    /// Gives the last declared function its body.
    pub(crate) fn define_last(&mut self, body: Vec<Instr>)
        requires
            old(self)@.len() > 0,
        ensures
            final(self)@ == old(self)@.update(
                old(self)@.len() - 1,
                SIrFunction {
                    prototype: old(self)@.last().prototype,
                    body: Some(instrs_view(body@)),
                },
            ),
    {
        let last = self.functions.len() - 1;
        let ghost b = instrs_view(body@);
        let f = self.functions.remove(last);
        let ghost shorter = self.functions@;
        self.functions.push(IrFunction { prototype: f.prototype, body: Some(body) });
        assert(self@ =~= old(self)@.update(
            old(self)@.len() - 1,
            SIrFunction { prototype: old(self)@.last().prototype, body: Some(b) },
        ));
    }

    /// Deletes the last declared function.
    pub(crate) fn remove_last(&mut self)
        requires
            old(self)@.len() > 0,
        ensures
            final(self)@ == old(self)@.drop_last(),
    {
        self.functions.pop();
        assert(self@ =~= old(self)@.drop_last());
    }

    /// Whether `v` is a value produced before the instruction `k` of `body`.
    fn value_before_exec(body: &Vec<Instr>, v: usize, k: usize) -> (r: bool)
        requires
            k <= body.len(),
        ensures
            r == value_before(instrs_view(body@), v as nat, k as int),
    {
        if v >= k {
            return false;
        }
        match &body[v] {
            Instr::Const(_) => true,
            Instr::Load { .. } => true,
            Instr::Binary { .. } => true,
            Instr::Call { .. } => true,
            _ => false,
        }
    }

    /// Whether `slot` is a stack slot allocated before the instruction `k` of `body`.
    fn slot_before_exec(body: &Vec<Instr>, slot: usize, k: usize) -> (r: bool)
        requires
            k <= body.len(),
        ensures
            r == slot_before(instrs_view(body@), slot as nat, k as int),
    {
        slot < k && matches!(body[slot], Instr::Alloca(_))
    }

    fn instr_ok_exec(&self, body: &Vec<Instr>, k: usize, n_params: usize) -> (r: bool)
        requires
            k < body.len(),
        ensures
            r == instr_ok(instrs_view(body@), k as int, self@, n_params as nat),
    {
        let ghost bv = instrs_view(body@);
        match &body[k] {
            Instr::Const(_) => true,
            Instr::Alloca(_) => true,
            Instr::StoreParam { slot, param } => Module::slot_before_exec(body, *slot, k) && *param
                < n_params,
            Instr::Load { slot, .. } => Module::slot_before_exec(body, *slot, k),
            Instr::Binary { lhs, rhs, .. } => Module::value_before_exec(body, *lhs, k)
                && Module::value_before_exec(body, *rhs, k),
            Instr::Call { callee, args } => {
                if *callee >= self.functions.len() {
                    return false;
                }
                if args.len() != self.functions[*callee].prototype.args.len() {
                    return false;
                }
                let ghost av = handles_view(args@);
                let mut j: usize = 0;
                while j < args.len()
                    invariant
                        k < body.len(),
                        bv == instrs_view(body@),
                        av == handles_view(args@),
                        bv[k as int] == (SInstr::Call { callee: *callee as nat, args: av }),
                        j <= args.len(),
                        forall|m: int| 0 <= m < j ==> value_before(bv, #[trigger] av[m], k as int),
                    decreases args.len() - j,
                {
                    if !Module::value_before_exec(body, args[j], k) {
                        assert(!value_before(bv, av[j as int], k as int));
                        return false;
                    }
                    j = j + 1;
                }
                true
            },
            Instr::Return(v) => k + 1 == body.len() && Module::value_before_exec(body, *v, k),
        }
    }

    /// The module's check of a function body with `n_params` parameters.
    pub fn verify_body(&self, body: &Vec<Instr>, n_params: usize) -> (r: bool)
        ensures
            r == well_formed(instrs_view(body@), self@, n_params as nat),
    {
        let ghost bv = instrs_view(body@);
        if body.len() == 0 {
            return false;
        }
        if !matches!(body[body.len() - 1], Instr::Return(_)) {
            return false;
        }
        let mut k: usize = 0;
        while k < body.len()
            invariant
                bv == instrs_view(body@),
                bv.len() == body.len(),
                k <= body.len(),
                forall|m: int| 0 <= m < k ==> instr_ok(bv, m, self@, n_params as nat),
            decreases body.len() - k,
        {
            if !self.instr_ok_exec(body, k, n_params) {
                return false;
            }
            k = k + 1;
        }
        true
    }
}

} // verus!
