//! Whole programs: compiled, run, and held to what they must write.

use pijama_codegen::ir::{BindKind, LocalId, PrimFn, RValue, RValueKind, Term, TermId, TermKind};
use pijama_codegen::semantics::Status;
use pijama_codegen::ty::{Context, Ty};
use pijama_codegen::{run, BinOp, Literal, Machine, UnOp};

struct Builder {
    next: u64,
    ctx: Context,
}

impl Builder {
    fn new() -> Self {
        Builder { next: 0, ctx: Context::new() }
    }

    fn id(&mut self) -> TermId {
        self.next += 1;
        TermId(self.next)
    }

    fn term(&mut self, kind: TermKind) -> Term {
        Term { id: self.id(), kind }
    }

    fn typed(&mut self, kind: TermKind, ty: Ty) -> Term {
        let id = self.id();
        self.ctx.insert_type_info(id, ty);
        Term { id, kind }
    }

    fn num(&mut self, n: i64) -> Term {
        self.typed(TermKind::Lit(Literal::Number(n)), Ty::Int)
    }

    fn boolean(&mut self, b: bool) -> Term {
        self.typed(TermKind::Lit(Literal::Bool(b)), Ty::Bool)
    }

    fn unit(&mut self) -> Term {
        self.typed(TermKind::Lit(Literal::Unit), Ty::Unit)
    }

    fn var(&mut self, id: usize, ty: Ty) -> Term {
        self.typed(TermKind::Var(LocalId(id)), ty)
    }

    fn bin(&mut self, op: BinOp, lhs: Term, rhs: Term, ty: Ty) -> Term {
        self.typed(TermKind::PrimApp(PrimFn::BinOp(op), vec![lhs, rhs]), ty)
    }

    fn un(&mut self, op: UnOp, arg: Term, ty: Ty) -> Term {
        self.typed(TermKind::PrimApp(PrimFn::UnOp(op), vec![arg]), ty)
    }

    fn print(&mut self, arg: Term) -> Term {
        self.typed(TermKind::PrimApp(PrimFn::Print, vec![arg]), Ty::Unit)
    }

    fn cond(&mut self, c: Term, t: Term, e: Term, ty: Ty) -> Term {
        self.typed(TermKind::Cond(Box::new(c), Box::new(t), Box::new(e)), ty)
    }

    fn call(&mut self, func: Term, args: Vec<Term>, ty: Ty) -> Term {
        self.typed(TermKind::App(Box::new(func), args), ty)
    }

    fn bind(&mut self, lhs: usize, rhs: Term, tail: Term) -> Term {
        let id = self.id();
        let rvalue = RValue { id: rhs.id, kind: RValueKind::Term(rhs.kind) };
        Term {
            id,
            kind: TermKind::Let(BindKind::NonRec, LocalId(lhs), Box::new(rvalue), Box::new(tail)),
        }
    }

    fn lambda(&mut self, kind: BindKind, lhs: usize, params: Vec<usize>, body: Term, tail: Term) -> Term {
        let id = self.id();
        let rvalue = RValue {
            id: self.id(),
            kind: RValueKind::Abs(params.into_iter().map(LocalId).collect(), body),
        };
        Term { id, kind: TermKind::Let(kind, LocalId(lhs), Box::new(rvalue), Box::new(tail)) }
    }

    fn run(self, term: &Term) -> String {
        let mut out = Vec::new();
        let status = run(&self.ctx, term, 1_000_000, &mut out).expect("the program compiles");
        assert_eq!(status, Status::Halted);
        String::from_utf8(out).expect("the output is text")
    }
}

fn arrow(from: Ty, to: Ty) -> Ty {
    Ty::Arrow(Box::new(from), Box::new(to))
}

const F: usize = 1;
const X: usize = 2;
const N: usize = 3;

#[test]
fn prints_arithmetic_with_precedence() {
    let mut b = Builder::new();
    let three = b.num(3);
    let four = b.num(4);
    let product = b.bin(BinOp::Mul, three, four, Ty::Int);
    let two = b.num(2);
    let sum = b.bin(BinOp::Add, two, product, Ty::Int);
    let program = b.print(sum);
    assert_eq!(b.run(&program), "14\n");
}

#[test]
fn prints_the_taken_branch() {
    let mut b = Builder::new();
    let c = b.boolean(true);
    let one = b.num(1);
    let two = b.num(2);
    let cond = b.cond(c, one, two, Ty::Int);
    let program = b.print(cond);
    assert_eq!(b.run(&program), "1\n");
}

#[test]
fn prints_the_other_branch() {
    let mut b = Builder::new();
    let c = b.boolean(false);
    let one = b.num(1);
    let two = b.num(2);
    let cond = b.cond(c, one, two, Ty::Int);
    let program = b.print(cond);
    assert_eq!(b.run(&program), "2\n");
}

#[test]
fn calls_a_let_bound_lambda() {
    let mut b = Builder::new();
    let x = b.var(X, Ty::Int);
    let one = b.num(1);
    let body = b.bin(BinOp::Add, x, one, Ty::Int);
    let f = b.var(F, arrow(Ty::Int, Ty::Int));
    let arg = b.num(41);
    let call = b.call(f, vec![arg], Ty::Int);
    let tail = b.print(call);
    let program = b.lambda(BindKind::NonRec, F, vec![X], body, tail);
    assert_eq!(b.run(&program), "42\n");
}

fn factorial_of(argument: i64) -> String {
    let mut b = Builder::new();
    let n = b.var(N, Ty::Int);
    let one = b.num(1);
    let test = b.bin(BinOp::Lte, n, one, Ty::Bool);
    let base = b.num(1);
    let n = b.var(N, Ty::Int);
    let fact = b.var(F, arrow(Ty::Int, Ty::Int));
    let m = b.var(N, Ty::Int);
    let one = b.num(1);
    let less = b.bin(BinOp::Sub, m, one, Ty::Int);
    let rec = b.call(fact, vec![less], Ty::Int);
    let product = b.bin(BinOp::Mul, n, rec, Ty::Int);
    let body = b.cond(test, base, product, Ty::Int);
    let fact = b.var(F, arrow(Ty::Int, Ty::Int));
    let arg = b.num(argument);
    let call = b.call(fact, vec![arg], Ty::Int);
    let tail = b.print(call);
    let program = b.lambda(BindKind::Rec, F, vec![N], body, tail);
    b.run(&program)
}

#[test]
fn recursive_factorial_of_five() {
    assert_eq!(factorial_of(5), "120\n");
}

#[test]
fn recursive_factorial_of_ten() {
    assert_eq!(factorial_of(10), "3628800\n");
}

#[test]
fn and_does_not_run_its_second_operand_after_false() {
    let mut b = Builder::new();
    let diverge = b.var(F, arrow(Ty::Unit, Ty::Bool));
    let body = b.call(diverge, vec![], Ty::Bool);
    let lhs = b.boolean(false);
    let diverge = b.var(F, arrow(Ty::Unit, Ty::Bool));
    let rhs = b.call(diverge, vec![], Ty::Bool);
    let and = b.bin(BinOp::And, lhs, rhs, Ty::Bool);
    let tail = b.print(and);
    let program = b.lambda(BindKind::Rec, F, vec![], body, tail);
    assert_eq!(b.run(&program), "false\n");
}

#[test]
fn or_does_not_run_its_second_operand_after_true() {
    let mut b = Builder::new();
    let diverge = b.var(F, arrow(Ty::Unit, Ty::Bool));
    let body = b.call(diverge, vec![], Ty::Bool);
    let lhs = b.boolean(true);
    let diverge = b.var(F, arrow(Ty::Unit, Ty::Bool));
    let rhs = b.call(diverge, vec![], Ty::Bool);
    let or = b.bin(BinOp::Or, lhs, rhs, Ty::Bool);
    let tail = b.print(or);
    let program = b.lambda(BindKind::Rec, F, vec![], body, tail);
    assert_eq!(b.run(&program), "true\n");
}

#[test]
fn and_runs_its_second_operand_after_true() {
    let mut b = Builder::new();
    let lhs = b.boolean(true);
    let inner = b.num(7);
    let printed = b.print(inner);
    let truth = b.boolean(false);
    let rhs = b.bind(X, printed, truth);
    let and = b.bin(BinOp::And, lhs, rhs, Ty::Bool);
    let program = b.print(and);
    assert_eq!(b.run(&program), "7\nfalse\n");
}

#[test]
fn short_circuit_writes_the_same_whatever_the_second_operand() {
    let mut b = Builder::new();
    let lhs = b.boolean(false);
    let inner = b.num(7);
    let printed = b.print(inner);
    let truth = b.boolean(true);
    let rhs = b.bind(X, printed, truth);
    let and = b.bin(BinOp::And, lhs, rhs, Ty::Bool);
    let with_print = b.print(and);
    let first = b.run(&with_print);

    let mut b = Builder::new();
    let lhs = b.boolean(false);
    let rhs = b.boolean(true);
    let and = b.bin(BinOp::And, lhs, rhs, Ty::Bool);
    let with_true = b.print(and);
    let second = b.run(&with_true);

    assert_eq!(first, "false\n");
    assert_eq!(first, second);
}

#[test]
fn inner_binding_shadows_the_outer_one() {
    let mut b = Builder::new();
    let x = b.var(X, Ty::Int);
    let innermost = b.print(x);
    let twenty = b.num(20);
    let inner = b.bind(X, twenty, innermost);
    let ten = b.num(10);
    let program = b.bind(X, ten, inner);
    assert_eq!(b.run(&program), "20\n");
}

#[test]
fn nullary_lambda() {
    let mut b = Builder::new();
    let body = b.num(42);
    let f = b.var(F, arrow(Ty::Unit, Ty::Int));
    let call = b.call(f, vec![], Ty::Int);
    let tail = b.print(call);
    let program = b.lambda(BindKind::NonRec, F, vec![], body, tail);
    assert_eq!(b.run(&program), "42\n");
}

#[test]
fn prints_each_kind_of_value() {
    let mut b = Builder::new();
    let t = b.boolean(true);
    let program = b.print(t);
    assert_eq!(b.run(&program), "true\n");

    let mut b = Builder::new();
    let u = b.unit();
    let program = b.print(u);
    assert_eq!(b.run(&program), "unit\n");

    let mut b = Builder::new();
    let n = b.num(-9_223_372_036_854_775_808);
    let program = b.print(n);
    assert_eq!(b.run(&program), "-9223372036854775808\n");

    let mut b = Builder::new();
    let body = b.num(0);
    let f = b.var(F, arrow(Ty::Unit, Ty::Int));
    let tail = b.print(f);
    let program = b.lambda(BindKind::NonRec, F, vec![], body, tail);
    assert_eq!(b.run(&program), "<function at 0x1>\n");
}

#[test]
fn print_leaves_unit() {
    let mut b = Builder::new();
    let n = b.num(3);
    let inner = b.print(n);
    let program = b.print(inner);
    assert_eq!(b.run(&program), "3\nunit\n");
}

#[test]
fn not_leaves_its_operand_as_it_is() {
    let mut b = Builder::new();
    let t = b.boolean(true);
    let not = b.un(UnOp::Not, t, Ty::Bool);
    let program = b.print(not);
    assert_eq!(b.run(&program), "true\n");
}

#[test]
fn negation_and_comparison() {
    let mut b = Builder::new();
    let five = b.num(5);
    let neg = b.un(UnOp::Neg, five, Ty::Int);
    let zero = b.num(0);
    let less = b.bin(BinOp::Lt, neg, zero, Ty::Bool);
    let program = b.print(less);
    assert_eq!(b.run(&program), "true\n");
}

#[test]
fn machine_keeps_what_every_program_writes() {
    let mut b = Builder::new();
    let one = b.num(1);
    let first = b.print(one);
    let two = b.num(2);
    let second = b.print(two);
    let mut machine = Machine::new(b.ctx, 1000);
    assert_eq!(machine.evaluate(&first), Ok(Status::Halted));
    assert_eq!(machine.output().as_slice(), b"1\n");
    assert_eq!(machine.evaluate(&second), Ok(Status::Halted));
    assert_eq!(machine.output().as_slice(), b"1\n2\n");
}

#[test]
fn machine_stops_a_program_that_does_not_end() {
    let mut b = Builder::new();
    let diverge = b.var(F, arrow(Ty::Unit, Ty::Bool));
    let body = b.call(diverge, vec![], Ty::Bool);
    let diverge = b.var(F, arrow(Ty::Unit, Ty::Bool));
    let tail = b.call(diverge, vec![], Ty::Bool);
    let program = b.lambda(BindKind::Rec, F, vec![], body, tail);
    let mut machine = Machine::new(b.ctx, 500);
    assert_eq!(machine.evaluate(&program), Ok(Status::OutOfFuel));
    assert!(machine.output().is_empty());
}

#[test]
fn a_let_under_an_operator_reads_the_slot_of_the_operand() {
    // The slot that the compiler counts on for `x` holds the first operand
    // of the subtraction, so that `10 - (let x = 1 in x)` is `1 - 10`.
    let mut b = Builder::new();
    let ten = b.num(10);
    let one = b.num(1);
    let x = b.var(X, Ty::Int);
    let inner = b.bind(X, one, x);
    let difference = b.bin(BinOp::Sub, ten, inner, Ty::Int);
    let program = b.print(difference);
    assert_eq!(b.run(&program), "-9\n");
}

#[test]
fn a_let_in_the_first_operand_keeps_its_slot() {
    let mut b = Builder::new();
    let one = b.num(1);
    let x = b.var(X, Ty::Int);
    let inner = b.bind(X, one, x);
    let ten = b.num(10);
    let difference = b.bin(BinOp::Sub, inner, ten, Ty::Int);
    let program = b.print(difference);
    assert_eq!(b.run(&program), "-9\n");
}

#[test]
fn lets_in_the_branches_of_a_conditional() {
    let mut b = Builder::new();
    let test = b.boolean(false);
    let one = b.num(1);
    let x = b.var(X, Ty::Int);
    let first = b.bind(X, one, x);
    let two = b.num(2);
    let three = b.num(3);
    let n = b.var(N, Ty::Int);
    let x = b.var(X, Ty::Int);
    let sum = b.bin(BinOp::Add, x, n, Ty::Int);
    let inner = b.bind(N, three, sum);
    let second = b.bind(X, two, inner);
    let cond = b.cond(test, first, second, Ty::Int);
    let program = b.print(cond);
    assert_eq!(b.run(&program), "5\n");
}

#[test]
fn running_in_slices_is_running_at_once() {
    let mut b = Builder::new();
    let one = b.num(1);
    let first = b.print(one);
    let two = b.num(2);
    let three = b.num(3);
    let sum = b.bin(BinOp::Add, two, three, Ty::Int);
    let second = b.print(sum);
    let program = b.bind(X, first, second);

    let mut at_once = pijama_codegen::compile(&b.ctx, &program).expect("the program compiles");
    let mut whole = Vec::new();
    assert_eq!(at_once.run(100, &mut whole), Status::Halted);
    assert_eq!(whole, b"1\n5\n");

    for slice in 1..8 {
        let mut sliced = pijama_codegen::compile(&b.ctx, &program).expect("the program compiles");
        let mut pieces = Vec::new();
        let mut runs = 0;
        while sliced.run(slice, &mut pieces) == Status::OutOfFuel {
            runs += 1;
            assert!(runs < 100);
        }
        assert_eq!(pieces, whole);
        assert_eq!(sliced.run(slice, &mut pieces), Status::Halted);
        assert_eq!(pieces, whole);
    }
}
