//! Lowering of the syntax tree to the instructions of a module.
use vstd::prelude::*;
use crate::ast::{names_view, Expr, Function, Prototype, SExpr, SFunction, SPrototype};
use crate::ir::{
    find_function, handles_view, instrs_view, well_formed, BinaryKind, Instr, Module,
    SInstr, SIrFunction,
};
use crate::parser::exprs_view;

verus! {

/// Why lowering failed.
#[derive(Clone, Copy, Debug, PartialEq, Eq, Structural)]
pub enum CompileError {
    /// A variable that is not a parameter of the function being compiled.
    UndefinedVariable,
    /// A call of a name that the module does not declare.
    UndefinedFunction,
    /// A binary operator other than `+`, `-`, `*`, `/` and `<`.
    UnknownOperator,
    /// An `Empty` expression where a value is needed.
    EmptyExpression,
    /// The lowered body did not pass the module's check.
    VerificationFailure,
}

/// The operation that the operator `op` stands for.
pub open spec fn binary_kind(op: char) -> Option<BinaryKind> {
    if op == '+' {
        Some(BinaryKind::Add)
    } else if op == '-' {
        Some(BinaryKind::Sub)
    } else if op == '*' {
        Some(BinaryKind::Mul)
    } else if op == '/' {
        Some(BinaryKind::Div)
    } else if op == '<' {
        Some(BinaryKind::Lt)
    } else {
        None
    }
}

/// The slot of `name` among the first `n` bindings; a later binding hides an
/// earlier one.
pub open spec fn lookup_from(syms: Seq<(Seq<char>, nat)>, name: Seq<char>, n: int) -> Option<nat>
    decreases n,
{
    if n <= 0 || n > syms.len() {
        None
    } else if syms[n - 1].0 == name {
        Some(syms[n - 1].1)
    } else {
        lookup_from(syms, name, n - 1)
    }
}

/// The slot that the symbol table `syms` binds to `name`.
pub open spec fn lookup_symbol(syms: Seq<(Seq<char>, nat)>, name: Seq<char>) -> Option<nat> {
    lookup_from(syms, name, syms.len() as int)
}

/// The instructions that compute `e`, appended to a body of `base`
/// instructions: the value of `e` is the last of them. Operands are lowered
/// left to right, each exactly once.
pub open spec fn lower(
    e: SExpr,
    syms: Seq<(Seq<char>, nat)>,
    fs: Seq<SIrFunction>,
    base: nat,
) -> Result<Seq<SInstr>, CompileError>
    decreases e,
{
    match e {
        SExpr::Number(d) => Ok(seq![SInstr::Const(d)]),
        SExpr::Variable(name) => match lookup_symbol(syms, name) {
            Some(slot) => Ok(seq![SInstr::Load { slot, name }]),
            None => Err(CompileError::UndefinedVariable),
        },
        SExpr::BinOp { op, lhs, rhs } => match lower(*lhs, syms, fs, base) {
            Ok(li) => match lower(*rhs, syms, fs, base + li.len()) {
                Ok(ri) => match binary_kind(op) {
                    Some(k) => Ok(
                        li + ri + seq![
                            SInstr::Binary {
                                op: k,
                                lhs: (base + li.len() - 1) as nat,
                                rhs: (base + li.len() + ri.len() - 1) as nat,
                            },
                        ],
                    ),
                    None => Err(CompileError::UnknownOperator),
                },
                Err(x) => Err(x),
            },
            Err(x) => Err(x),
        },
        SExpr::Call { callee, args } => match find_function(fs, callee) {
            Some(f) => match lower_args(args, syms, fs, base) {
                Ok((is, ids)) => Ok(is + seq![SInstr::Call { callee: f, args: ids }]),
                Err(x) => Err(x),
            },
            None => Err(CompileError::UndefinedFunction),
        },
        SExpr::Empty => Err(CompileError::EmptyExpression),
    }
}

/// The instructions that compute the arguments `args` in order, after `base`
/// instructions, with the value of each.
pub open spec fn lower_args(
    args: Seq<SExpr>,
    syms: Seq<(Seq<char>, nat)>,
    fs: Seq<SIrFunction>,
    base: nat,
) -> Result<(Seq<SInstr>, Seq<nat>), CompileError>
    decreases args,
{
    if args.len() == 0 {
        Ok((Seq::empty(), Seq::empty()))
    } else {
        match lower(args[0], syms, fs, base) {
            Ok(is) => match lower_args(args.subrange(1, args.len() as int), syms, fs, base + is.len()) {
                Ok((js, ids)) => Ok((is + js, seq![(base + is.len() - 1) as nat] + ids)),
                Err(x) => Err(x),
            },
            Err(x) => Err(x),
        }
    }
}

/// The entry of a function with parameters `args`: for each parameter in
/// order, a stack slot named after it, then a store of the parameter into it.
/// The slot of parameter `i` is instruction `2 * i`.
pub open spec fn prologue(args: Seq<Seq<char>>) -> Seq<SInstr> {
    Seq::new(
        2 * args.len(),
        |k: int|
            if k % 2 == 0 {
                SInstr::Alloca(args[k / 2])
            } else {
                SInstr::StoreParam { slot: (k - 1) as nat, param: (k / 2) as nat }
            },
    )
}

/// The symbol table of a function with parameters `args`: each name bound to
/// its slot.
pub open spec fn param_slots(args: Seq<Seq<char>>) -> Seq<(Seq<char>, nat)> {
    Seq::new(args.len(), |i: int| (args[i], (2 * i) as nat))
}

/// The functions `fs` with `p` declared after them.
pub open spec fn declared(fs: Seq<SIrFunction>, p: SPrototype) -> Seq<SIrFunction> {
    fs.push(SIrFunction { prototype: p, body: None })
}

/// The body of the function `f` once declared after the functions `fs`: its
/// prologue, its lowered body expression, and a return of that value.
pub open spec fn lower_function(f: SFunction, fs: Seq<SIrFunction>) -> Result<
    Seq<SInstr>,
    CompileError,
> {
    let args = f.prototype.args;
    let n = args.len();
    match lower(f.body, param_slots(args), declared(fs, f.prototype), 2 * n) {
        Ok(is) => Ok(prologue(args) + is + seq![SInstr::Return((2 * n + is.len() - 1) as nat)]),
        Err(x) => Err(x),
    }
}

/// The functions after compiling `f` on top of `fs`: a declaration when its
/// body is `Empty`, else the declaration with its body if the body lowers and
/// passes the module's check.
pub open spec fn compile_outcome(f: SFunction, fs: Seq<SIrFunction>) -> Result<
    Seq<SIrFunction>,
    CompileError,
> {
    if f.body is Empty {
        Ok(declared(fs, f.prototype))
    } else {
        match lower_function(f, fs) {
            Ok(b) => if well_formed(b, declared(fs, f.prototype), f.prototype.args.len()) {
                Ok(fs.push(SIrFunction { prototype: f.prototype, body: Some(b) }))
            } else {
                Err(CompileError::VerificationFailure)
            },
            Err(x) => Err(x),
        }
    }
}

/// A copy of the prototype `p`.
fn copy_prototype(p: &Prototype) -> (r: Prototype)
    ensures
        r@ == p@,
{
    let mut args: Vec<String> = Vec::new();
    let mut i: usize = 0;
    while i < p.args.len()
        invariant
            i <= p.args.len(),
            names_view(args@) == names_view(p.args@).subrange(0, i as int),
        decreases p.args.len() - i,
    {
        let name = p.args[i].clone();
        assert(name@ == p.args@[i as int]@);
        let ghost before = args@;
        args.push(name);
        assert(args@ == before.push(name));
        assert(names_view(args@) =~= names_view(before).push(p.args@[i as int]@));
        assert(names_view(args@) =~= names_view(p.args@).subrange(0, i + 1));
        i = i + 1;
    }
    assert(names_view(p.args@).subrange(0, p.args.len() as int) =~= names_view(p.args@));
    Prototype { name: p.name.clone(), args }
}

/// Turns expressions into instructions, one function at a time, declaring
/// the functions in `module`.
pub struct Compiler {
    module: Module,
    variables: Vec<(String, usize)>,
    body: Vec<Instr>,
}

fn binary_kind_exec(op: char) -> (r: Option<BinaryKind>)
    ensures
        r == binary_kind(op),
{
    if op == '+' {
        Some(BinaryKind::Add)
    } else if op == '-' {
        Some(BinaryKind::Sub)
    } else if op == '*' {
        Some(BinaryKind::Mul)
    } else if op == '/' {
        Some(BinaryKind::Div)
    } else if op == '<' {
        Some(BinaryKind::Lt)
    } else {
        None
    }
}

impl Compiler {
    /// The symbol table: each parameter name with its stack slot.
    pub closed spec fn symbols(&self) -> Seq<(Seq<char>, nat)> {
        self.variables@.map_values(|b: (String, usize)| (b.0@, b.1 as nat))
    }

    /// The functions of the module.
    pub closed spec fn functions(&self) -> Seq<SIrFunction> {
        self.module@
    }

    /// The instructions emitted so far for the function being compiled.
    pub closed spec fn emitted(&self) -> Seq<SInstr> {
        instrs_view(self.body@)
    }

    pub fn new(module: Module) -> (r: Compiler)
        ensures
            r.functions() == module@,
            r.symbols() == Seq::<(Seq<char>, nat)>::empty(),
            r.emitted() == Seq::<SInstr>::empty(),
    {
        let r = Compiler { module, variables: Vec::new(), body: Vec::new() };
        assert(r.symbols() =~= Seq::<(Seq<char>, nat)>::empty());
        assert(r.emitted() =~= Seq::<SInstr>::empty());
        r
    }

    /// The module built so far.
    pub fn module(&self) -> (r: &Module)
        ensures
            r@ == self.functions(),
    {
        &self.module
    }

    /// The instructions emitted so far for the function being compiled.
    pub fn instructions(&self) -> (r: &Vec<Instr>)
        ensures
            instrs_view(r@) == self.emitted(),
    {
        &self.body
    }

    /// Ends compiling and hands over the module.
    pub fn into_module(self) -> (r: Module)
        ensures
            r@ == self.functions(),
    {
        self.module
    }

    fn emit(&mut self, i: Instr) -> (r: usize)
        ensures
            final(self).functions() == old(self).functions(),
            final(self).symbols() == old(self).symbols(),
            final(self).emitted() == old(self).emitted().push(i@),
            r == old(self).emitted().len(),
    {
        let ghost iv = i@;
        self.body.push(i);
        assert(self.emitted() =~= old(self).emitted().push(iv));
        self.body.len() - 1
    }

    /// Emits a load of the stack slot `slot`, named `name`; returns the loaded value.
    pub fn build_load(&mut self, slot: usize, name: &str) -> (r: usize)
        ensures
            final(self).functions() == old(self).functions(),
            final(self).symbols() == old(self).symbols(),
            final(self).emitted() == old(self).emitted().push(
                SInstr::Load { slot: slot as nat, name: name@ },
            ),
            r == old(self).emitted().len(),
    {
        self.emit(Instr::Load { slot, name: name.to_owned() })
    }

    /// The slot of the variable `name`, if the symbol table binds it.
    fn lookup_variable(&self, name: &String) -> (r: Option<usize>)
        ensures
            r matches Some(s) ==> lookup_symbol(self.symbols(), name@) == Some(s as nat),
            r is None ==> lookup_symbol(self.symbols(), name@) is None,
    {
        let mut i: usize = self.variables.len();
        while i > 0
            invariant
                i <= self.variables.len(),
                lookup_from(self.symbols(), name@, i as int) == lookup_symbol(
                    self.symbols(),
                    name@,
                ),
            decreases i,
        {
            if self.variables[i - 1].0 == *name {
                return Some(self.variables[i - 1].1);
            }
            i = i - 1;
        }
        None
    }

    fn compile_call(&mut self, expr: &Expr) -> (r: Result<usize, CompileError>)
        requires
            expr is Call,
        ensures
            final(self).functions() == old(self).functions(),
            final(self).symbols() == old(self).symbols(),
            lower(expr@, old(self).symbols(), old(self).functions(), old(self).emitted().len())
                matches Ok(is) ==> is.len() > 0 && r == Ok::<usize, CompileError>(
                (old(self).emitted().len() + is.len() - 1) as usize)
                && final(self).emitted() == old(self).emitted() + is,
            lower(expr@, old(self).symbols(), old(self).functions(), old(self).emitted().len())
                matches Err(x) ==> r == Err::<usize, CompileError>(x),
        decreases expr, 0nat,
    {
        let ghost syms = self.symbols();
        let ghost fs = self.module@;
        let ghost base = self.emitted().len();
        let (callee, args) = match expr {
            Expr::Call { callee, args } => (callee, args),
            _ => {
                return Err(CompileError::EmptyExpression);
            },
        };
        assert(*expr == (Expr::Call { callee: *callee, args: *args }));
        let f = match self.module.lookup_function(callee.as_str()) {
            Some(f) => f,
            None => {
                return Err(CompileError::UndefinedFunction);
            },
        };
        let ghost argv = exprs_view(args@);
        assert(expr@->args =~= argv);
        let mut ids: Vec<usize> = Vec::new();
        let mut i: usize = 0;
        assert(argv.subrange(0, argv.len() as int) =~= argv);
        assert(self.emitted().subrange(base as int, base as int) =~= Seq::<SInstr>::empty());
        assert(self.emitted().subrange(0, base as int) =~= self.emitted());
        assert(handles_view(ids@) =~= Seq::<nat>::empty());
        proof {
            match lower_args(argv, syms, fs, base) {
                Ok((js, ids2)) => {
                    assert(Seq::<SInstr>::empty() + js =~= js);
                    assert(Seq::<nat>::empty() + ids2 =~= ids2);
                },
                Err(_) => {},
            }
        }
        while i < args.len()
            invariant
                i <= args.len(),
                argv == exprs_view(args@),
                self.functions() == old(self).functions(),
                self.symbols() == syms,
                syms == old(self).symbols(),
                fs == old(self).functions(),
                base == old(self).emitted().len(),
                *expr == (Expr::Call { callee: *callee, args: *args }),
                expr@ is Call,
                expr@->args == argv,
                find_function(fs, expr@->callee) == Some(f as nat),
                fs == self.module@,
                base <= self.emitted().len(),
                self.emitted().subrange(0, base as int) == old(self).emitted(),
                lower_args(argv, syms, fs, base) == match lower_args(
                    argv.subrange(i as int, argv.len() as int),
                    syms,
                    fs,
                    self.emitted().len(),
                ) {
                    Ok((js, ids2)) => Ok(
                        (
                            self.emitted().subrange(base as int, self.emitted().len() as int)
                                + js,
                            handles_view(ids@) + ids2,
                        ),
                    ),
                    Err(x) => Err(x),
                },
            decreases args.len() - i,
        {
            let ghost before = self.emitted();
            let ghost ids_before = handles_view(ids@);
            let ghost rest = argv.subrange(i as int, argv.len() as int);
            assert(rest[0] == args@[i as int]@);
            assert(rest.subrange(1, rest.len() as int) =~= argv.subrange(i + 1, argv.len() as int));
            proof {
                assert(decreases_to!(*expr => expr->Call_args));
                assert(decreases_to!(*args => args[i as int]));
            }
            match self.compile_expr(&args[i]) {
                Ok(v) => {
                    ids.push(v);
                    let emitted_len = self.body.len();
                    proof {
                        let js0 = self.emitted().subrange(before.len() as int, self.emitted().len() as int);
                        assert(self.emitted() =~= before + js0);
                        let tail = argv.subrange(i + 1, argv.len() as int);
                        assert(rest.len() > 0);
                        assert(self.emitted().len() == emitted_len);
                        match lower(rest[0], syms, fs, before.len()) {
                            Ok(is) => {
                                assert(js0 =~= is);
                                assert(v as nat == (before.len() + is.len() - 1) as nat);
                                assert(rest.subrange(1, rest.len() as int) == tail);
                            },
                            Err(_) => {
                                assert(false);
                            },
                        }
                        assert(lower_args(rest, syms, fs, before.len()) == match lower_args(
                            tail,
                            syms,
                            fs,
                            self.emitted().len(),
                        ) {
                            Ok((js, ids2)) => Ok((js0 + js, seq![v as nat] + ids2)),
                            Err(x) => Err(x),
                        });
                        assert(handles_view(ids@) =~= ids_before.push(v as nat));
                        assert(self.emitted().subrange(0, base as int) =~= before.subrange(0, base as int));
                        let done = before.subrange(base as int, before.len() as int);
                        assert(self.emitted().subrange(base as int, self.emitted().len() as int) =~= done + js0);
                        match lower_args(argv.subrange(i + 1, argv.len() as int), syms, fs, self.emitted().len()) {
                            Ok((js, ids2)) => {
                                assert(done + (js0 + js) =~= (done + js0) + js);
                                assert(ids_before + (seq![v as nat] + ids2) =~= ids_before.push(v as nat) + ids2);
                            },
                            Err(_) => {},
                        }
                    }
                },
                Err(x) => {
                    return Err(x);
                },
            }
            i = i + 1;
        }
        let ghost done = self.emitted().subrange(base as int, self.emitted().len() as int);
        assert(argv.subrange(args.len() as int, argv.len() as int) =~= Seq::<SExpr>::empty());
        assert(done + Seq::<SInstr>::empty() =~= done);
        assert(handles_view(ids@) + Seq::<nat>::empty() =~= handles_view(ids@));
        let ghost idv = handles_view(ids@);
        let v = self.emit(Instr::Call { callee: f, args: ids });
        assert(self.emitted() =~= old(self).emitted() + (done + seq![SInstr::Call { callee: f as nat, args: idv }]));
        Ok(v)
    
    }

    /// Emits the instructions that compute `expr`; returns its value.
    pub fn compile_expr(&mut self, expr: &Expr) -> (r: Result<usize, CompileError>)
        ensures
            final(self).functions() == old(self).functions(),
            final(self).symbols() == old(self).symbols(),
            lower(expr@, old(self).symbols(), old(self).functions(), old(self).emitted().len())
                matches Ok(is) ==> is.len() > 0 && r == Ok::<usize, CompileError>(
                (old(self).emitted().len() + is.len() - 1) as usize)
                && final(self).emitted() == old(self).emitted() + is,
            lower(expr@, old(self).symbols(), old(self).functions(), old(self).emitted().len())
                matches Err(x) ==> r == Err::<usize, CompileError>(x),
        decreases expr, 1nat,
    {
        let ghost syms = self.symbols();
        let ghost fs = self.module@;
        let ghost base = self.emitted().len();
        match expr {
            Expr::Number(d) => {
                let v = self.emit(Instr::Const(d.duplicate()));
                assert(old(self).emitted() + seq![SInstr::Const(d@)] =~= self.emitted());
                Ok(v)
            },
            Expr::Variable(name) => match self.lookup_variable(name) {
                Some(slot) => {
                    let v = self.emit(Instr::Load { slot, name: name.clone() });
                    assert(old(self).emitted() + seq![SInstr::Load { slot: slot as nat, name: name@ }] =~= self.emitted());
                    Ok(v)
                },
                None => Err(CompileError::UndefinedVariable),
            },
            Expr::BinOp { op, lhs, rhs } => {
                let l = match self.compile_expr(lhs) {
                    Ok(v) => v,
                    Err(x) => {
                        return Err(x);
                    },
                };
                let ghost mid = self.emitted();
                let r = match self.compile_expr(rhs) {
                    Ok(v) => v,
                    Err(x) => {
                        return Err(x);
                    },
                };
                let ghost after = self.emitted();
                match binary_kind_exec(*op) {
                    Some(k) => {
                        let v = self.emit(Instr::Binary { op: k, lhs: l, rhs: r });
                        proof {
                            let li = mid.subrange(base as int, mid.len() as int);
                            let ri = after.subrange(mid.len() as int, after.len() as int);
                            assert(mid =~= old(self).emitted() + li);
                            assert(after =~= mid + ri);
                            assert(self.emitted() =~= old(self).emitted() + (li + ri + seq![
                                SInstr::Binary { op: k, lhs: l as nat, rhs: r as nat },
                            ]));
                        }
                        Ok(v)
                    },
                    None => Err(CompileError::UnknownOperator),
                }
            },
            Expr::Call { .. } => self.compile_call(expr),
            Expr::Empty => Err(CompileError::EmptyExpression),
        }
    }

    /// Allocates a stack slot named `name` in the entry of the function being
    /// compiled; returns the slot.
    fn create_entry_block_alloca(&mut self, name: &str) -> (r: usize)
        ensures
            final(self).functions() == old(self).functions(),
            final(self).symbols() == old(self).symbols(),
            final(self).emitted() == old(self).emitted().push(SInstr::Alloca(name@)),
            r == old(self).emitted().len(),
    {
        self.emit(Instr::Alloca(name.to_owned()))
    }

    /// Declares the prototype in the module; returns the function's handle.
    pub fn compile_prototype(&mut self, proto: &Prototype) -> (r: usize)
        ensures
            r == old(self).functions().len(),
            final(self).functions() == declared(old(self).functions(), proto@),
            final(self).symbols() == old(self).symbols(),
            final(self).emitted() == old(self).emitted(),
    {
        self.module.declare_function(copy_prototype(proto))
    }

    /// Forgets the symbol table and the emitted instructions.
    fn reset(&mut self)
        ensures
            final(self).functions() == old(self).functions(),
            final(self).symbols() == Seq::<(Seq<char>, nat)>::empty(),
            final(self).emitted() == Seq::<SInstr>::empty(),
    {
        self.variables = Vec::new();
        self.body = Vec::new();
        assert(self.symbols() =~= Seq::<(Seq<char>, nat)>::empty());
        assert(self.emitted() =~= Seq::<SInstr>::empty());
    }

    /// Compiles `function` into the module: declares it, and unless its body
    /// is `Empty`, lowers the body behind a stack slot per parameter and keeps
    /// it if it passes the module's check. On failure the module is left as it
    /// was. Returns the function's handle.
    pub fn compile_fn(&mut self, function: &Function) -> (r: Result<usize, CompileError>)
        ensures
            compile_outcome(function@, old(self).functions()) matches Ok(m) ==> r == Ok::<
                usize,
                CompileError,
            >(old(self).functions().len() as usize) && final(self).functions() == m,
            compile_outcome(function@, old(self).functions()) matches Err(x) ==> r == Err::<
                usize,
                CompileError,
            >(x) && final(self).functions() == old(self).functions(),
            final(self).symbols() == Seq::<(Seq<char>, nat)>::empty(),
            final(self).emitted() == Seq::<SInstr>::empty(),
    {
        self.reset();
        let h = self.compile_prototype(&function.prototype);
        if matches!(function.body, Expr::Empty) {
            return Ok(h);
        }
        let args = &function.prototype.args;
        let ghost names = names_view(args@);
        let ghost fs = self.functions();
        let mut i: usize = 0;
        while i < args.len()
            invariant
                i <= args.len(),
                names == names_view(args@),
                fs == self.functions(),
                fs == declared(old(self).functions(), function.prototype@),
                self.emitted() == prologue(names.subrange(0, i as int)),
                self.symbols() == param_slots(names.subrange(0, i as int)),
            decreases args.len() - i,
        {
            let slot = self.create_entry_block_alloca(args[i].as_str());
            self.emit(Instr::StoreParam { slot, param: i });
            let name = args[i].clone();
            assert(name@ == names[i as int]);
            let ghost before = self.variables@;
            let ghost syms0 = self.symbols();
            self.variables.push((name, slot));
            assert(self.variables@ == before.push((name, slot)));
            assert(self.symbols() =~= syms0.push((names[i as int], slot as nat)));
            assert(self.emitted() =~= prologue(names.subrange(0, i + 1)));
            assert(self.symbols() =~= param_slots(names.subrange(0, i + 1)));
            i = i + 1;
        }
        assert(names.subrange(0, args.len() as int) =~= names);
        let ghost pro = self.emitted();
        match self.compile_expr(&function.body) {
            Ok(v) => {
                self.emit(Instr::Return(v));
            },
            Err(x) => {
                self.module.remove_last();
                self.reset();
                assert(declared(old(self).functions(), function.prototype@).drop_last() =~= old(self).functions());
                return Err(x);
            },
        }
        let mut body: Vec<Instr> = Vec::new();
        std::mem::swap(&mut body, &mut self.body);
        assert(instrs_view(body@) == lower_function(function@, old(self).functions())->Ok_0) by {
            let is = lower(function.body@, param_slots(names), fs, 2 * names.len())->Ok_0;
            assert(instrs_view(body@) =~= prologue(names) + is + seq![SInstr::Return((2 * names.len() + is.len() - 1) as nat)]);
        }
        self.reset();
        if self.module.verify_body(&body, args.len()) {
            self.module.define_last(body);
            assert(self.functions() =~= old(self).functions().push(
                SIrFunction { prototype: function.prototype@, body: Some(lower_function(function@, old(self).functions())->Ok_0) },
            ));
            Ok(h)
        } else {
            self.module.remove_last();
            assert(declared(old(self).functions(), function.prototype@).drop_last() =~= old(self).functions());
            Err(CompileError::VerificationFailure)
        }
    }
}

} // verus!
