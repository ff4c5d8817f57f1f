//! Number obfuscation: every number of the scripts is replaced by an
//! operation on two numbers whose exact value is the number it replaces.
//! The operation and its operands are drawn from a xorshift generator with a
//! fixed seed, so a project is always obfuscated the same way.
use vstd::prelude::*;

use crate::ast::{
    BinOp, Derivation, Event, Expr, FieldValue, Func, Kwarg, List, NamedSprite, Number, Proc,
    Project, Span, Sprite, Stmt, Value,
};
use crate::digits::{from_u32, nat_of, same_value, sum, times};

verus! {

/// The seed of the generator.
pub const SEED: u32 = 0x27182818;

/// One xorshift32 step.
pub open spec fn xorshift(s: u32) -> u32 {
    let a = s ^ (s << 13u32);
    let b = a ^ (a >> 17u32);
    b ^ (b << 5u32)
}

/// The state a generator starts in for a seed.
pub open spec fn initial_state(seed: u32) -> u32 {
    if seed == 0 {
        1
    } else {
        seed
    }
}

/// A xorshift step never reaches the state 0 from another state.
pub proof fn lemma_xorshift_nonzero(s: u32)
    requires
        s != 0,
    ensures
        xorshift(s) != 0,
{
    assert(s != 0 ==> ((s ^ (s << 13u32)) ^ ((s ^ (s << 13u32)) >> 17u32)) ^ (((s ^ (s
        << 13u32)) ^ ((s ^ (s << 13u32)) >> 17u32)) << 5u32) != 0) by (bit_vector);
}

struct Prng {
    state: u32,
}

impl Prng {
    /// The state of a xorshift generator is never 0, or it would stay 0.
    #[verifier::type_invariant]
    spec fn nonzero(self) -> bool {
        self.state != 0
    }

    spec fn state(self) -> u32 {
        self.state
    }

    fn new(seed: u32) -> (p: Prng)
        ensures
            p.state() == initial_state(seed),
    {
        Prng { state: if seed == 0 { 1 } else { seed } }
    }

    fn next_u32(&mut self) -> (r: u32)
        ensures
            r == xorshift(old(self).state()),
            final(self).state() == r,
    {
        proof {
            use_type_invariant(&*self);
            lemma_xorshift_nonzero(self.state);
        }
        let mut x = self.state;
        x ^= x << 13;
        x ^= x >> 17;
        x ^= x << 5;
        self.state = x;
        x
    }
}

/// How the pass treats a number, by its exact value. The compiler holds
/// numbers as f64, and this differs from it only at the limits of f64: a
/// literal too large for f64, which the compiler reads as infinite and leaves
/// as it is, is rewritten here by its exact value, and a non-zero value that
/// f64 rounds to zero is non-zero here.
pub enum NumClass {
    Zero,
    NonZero,
    /// A number without an exact value (a division by zero): like an
    /// infinite float, it is left as it is.
    Kept,
}

pub open spec fn number_class(n: Number) -> NumClass {
    match exact_value(n) {
        None => NumClass::Kept,
        Some(v) => if v.0 == 0 {
            NumClass::Zero
        } else {
            NumClass::NonZero
        },
    }
}

/// A value `(np - nn) / (dp - dn)` held as four digit lists, so that the
/// operations of derived numbers need only sums and products by a whole
/// number.
struct Quad {
    np: List<u16>,
    nn: List<u16>,
    dp: List<u16>,
    dn: List<u16>,
}

spec fn quad_num(q: Quad) -> int {
    nat_of(q.np) - nat_of(q.nn)
}

spec fn quad_den(q: Quad) -> int {
    nat_of(q.dp) - nat_of(q.dn)
}

/// The exact value of `n`, if it has one.
fn eval(n: &Number) -> (q: Option<Quad>)
    ensures
        q is None <==> exact_value(*n) is None,
        q matches Some(q) ==> quad_den(q) != 0 && rat_eq(
            exact_value(*n).unwrap(),
            (quad_num(q), quad_den(q)),
        ),
    decreases n,
{
    proof {
        lemma_exact_value_denominator(*n);
    }
    match n {
        Number::Literal { num, den, .. } => if same_value(den, &List::Nil) {
            None
        } else {
            let np = times(num, 1);
            let dp = times(den, 1);
            assert(nat_of(List::<u16>::Nil) == 0);
            assert(nat_of(*num) * 1 == nat_of(*num) && nat_of(*den) * 1 == nat_of(*den))
                by (nonlinear_arith);
            Some(Quad { np, nn: List::Nil, dp, dn: List::Nil })
        },
        Number::Int(k) => {
            assert(nat_of(List::<u16>::Nil) == 0);
            Some(Quad { np: from_u32(*k), nn: List::Nil, dp: from_u32(1), dn: List::Nil })
        },
        Number::Derived { kind, base, r } => {
            proof {
                lemma_exact_value_denominator(**base);
            }
            match eval(base) {
                None => None,
                Some(q) => {
                    let ghost v = exact_value(**base).unwrap();
                    let ghost (qn, qd) = (quad_num(q), quad_den(q));
                    let ghost ri = *r as int;
                    let rdp = times(&q.dp, *r);
                    let rdn = times(&q.dn, *r);
                    assert(nat_of(rdp) - nat_of(rdn) == ri * qd) by (nonlinear_arith)
                        requires
                            nat_of(rdp) == nat_of(q.dp) * ri,
                            nat_of(rdn) == nat_of(q.dn) * ri,
                            qd == nat_of(q.dp) - nat_of(q.dn),
                    ;
                    match kind {
                        Derivation::RDivN => if same_value(&q.np, &q.nn) {
                            assert(v.0 == 0) by (nonlinear_arith)
                                requires
                                    v.0 * qd == qn * v.1,
                                    qn == 0,
                                    qd != 0,
                            ;
                            None
                        } else {
                            assert(v.0 != 0 && rat_eq(rat_div((ri, 1int), v), (ri * qd, qn)))
                                by (nonlinear_arith)
                                requires
                                    v.0 * qd == qn * v.1,
                                    qn != 0,
                                    qd != 0,
                                    v.1 > 0,
                            ;
                            Some(Quad { np: rdp, nn: rdn, dp: q.np, dn: q.nn })
                        },
                        Derivation::RSubN => {
                            assert(rat_eq(rat_sub((ri, 1int), v), (ri * qd - qn, qd)))
                                by (nonlinear_arith)
                                requires
                                    v.0 * qd == qn * v.1,
                            ;
                            Some(
                                Quad {
                                    np: sum(&q.nn, &rdp, 0),
                                    nn: sum(&q.np, &rdn, 0),
                                    dp: q.dp,
                                    dn: q.dn,
                                },
                            )
                        },
                        Derivation::NSubR => {
                            assert(rat_eq(rat_sub(v, (ri, 1int)), (qn - ri * qd, qd)))
                                by (nonlinear_arith)
                                requires
                                    v.0 * qd == qn * v.1,
                            ;
                            Some(
                                Quad {
                                    np: sum(&q.np, &rdn, 0),
                                    nn: sum(&q.nn, &rdp, 0),
                                    dp: q.dp,
                                    dn: q.dn,
                                },
                            )
                        },
                        Derivation::NMulR => {
                            let np = times(&q.np, *r);
                            let nn = times(&q.nn, *r);
                            assert(rat_eq(rat_mul(v, (ri, 1int)), (qn * ri, qd)))
                                by (nonlinear_arith)
                                requires
                                    v.0 * qd == qn * v.1,
                            ;
                            assert(nat_of(np) - nat_of(nn) == qn * ri) by (nonlinear_arith)
                                requires
                                    nat_of(np) == nat_of(q.np) * ri,
                                    nat_of(nn) == nat_of(q.nn) * ri,
                                    qn == nat_of(q.np) - nat_of(q.nn),
                            ;
                            Some(Quad { np, nn, dp: q.dp, dn: q.dn })
                        },
                        Derivation::NAddR => {
                            assert(rat_eq(rat_add(v, (ri, 1int)), (qn + ri * qd, qd)))
                                by (nonlinear_arith)
                                requires
                                    v.0 * qd == qn * v.1,
                            ;
                            Some(
                                Quad {
                                    np: sum(&q.np, &rdp, 0),
                                    nn: sum(&q.nn, &rdn, 0),
                                    dp: q.dp,
                                    dn: q.dn,
                                },
                            )
                        },
                    }
                },
            }
        },
    }
}

/// The class of `n` by its exact value.
fn class_of(n: &Number) -> (c: NumClass)
    ensures
        c == number_class(*n),
{
    proof {
        lemma_exact_value_denominator(*n);
    }
    match eval(n) {
        None => NumClass::Kept,
        Some(q) => {
            let ghost v = exact_value(*n).unwrap();
            let ghost (qn, qd) = (quad_num(q), quad_den(q));
            if same_value(&q.np, &q.nn) {
                assert(v.0 == 0) by (nonlinear_arith)
                    requires
                        v.0 * qd == qn * v.1,
                        qn == 0,
                        qd != 0,
                ;
                NumClass::Zero
            } else {
                assert(v.0 != 0) by (nonlinear_arith)
                    requires
                        v.0 * qd == qn * v.1,
                        qn != 0,
                        v.1 > 0,
                ;
                NumClass::NonZero
            }
        },
    }
}

/// The operation that replaces the number `n`, given the two generator
/// outputs `x1` (which picks `r`) and `x2` (which picks the form).
pub open spec fn replacement(n: Number, x1: u32, x2: u32) -> (BinOp, Number, Number) {
    let r = (x1 % 10000 + 1) as u32;
    if number_class(n) is Zero {
        if x2 % 4 == 0 {
            (BinOp::Sub, Number::Int(r), Number::Int(r))
        } else if x2 % 4 == 1 {
            (BinOp::Div, Number::Int(0), Number::Int(r))
        } else if x2 % 4 == 2 {
            (BinOp::Mul, Number::Int(0), Number::Int(r))
        } else {
            (BinOp::Mul, Number::Int(r), Number::Int(0))
        }
    } else {
        let d = |kind: Derivation| Number::Derived { kind, base: Box::new(n), r };
        if x2 % 6 == 0 {
            (BinOp::Div, Number::Int(r), d(Derivation::RDivN))
        } else if x2 % 6 == 1 {
            (BinOp::Sub, Number::Int(r), d(Derivation::RSubN))
        } else if x2 % 6 == 2 {
            (BinOp::Add, d(Derivation::NSubR), Number::Int(r))
        } else if x2 % 6 == 3 {
            (BinOp::Div, d(Derivation::NMulR), Number::Int(r))
        } else if x2 % 6 == 4 {
            (BinOp::Sub, d(Derivation::NAddR), Number::Int(r))
        } else {
            (BinOp::Add, Number::Int(r), d(Derivation::NSubR))
        }
    }
}

pub open spec fn number_expr(n: Number, span: Span) -> Expr {
    Expr::Value { value: Value::Number(n), span }
}

/// The expression that replaces the number `n` written at `span` when the
/// generator is in state `s`, and the state after it.
pub open spec fn spec_obfuscate(n: Number, span: Span, s: u32) -> (Expr, u32) {
    let x1 = xorshift(s);
    let x2 = xorshift(x1);
    let (op, lhs, rhs) = replacement(n, x1, x2);
    (
        Expr::BinOp {
            op,
            span,
            lhs: Box::new(number_expr(lhs, span)),
            rhs: Box::new(number_expr(rhs, span)),
        },
        x2,
    )
}

pub open spec fn spec_visit_expr(e: Expr, s: u32) -> (Expr, u32)
    decreases e,
{
    match e {
        Expr::Value { value, span } => match value {
            Value::Number(n) => if number_class(n) is Kept {
                (e, s)
            } else {
                spec_obfuscate(n, span, s)
            },
            _ => (e, s),
        },
        Expr::Name(_) => (e, s),
        Expr::Arg(_) => (e, s),
        Expr::Dot { lhs, rhs, span } => {
            let (l, s1) = spec_visit_expr(*lhs, s);
            (Expr::Dot { lhs: Box::new(l), rhs, span }, s1)
        },
        Expr::Property { object, property, span } => {
            let (o, s1) = spec_visit_expr(*object, s);
            (Expr::Property { object: Box::new(o), property, span }, s1)
        },
        Expr::Repr { repr, args, span } => {
            let (a, s1) = spec_visit_exprs(*args, s);
            (Expr::Repr { repr, args: Box::new(a), span }, s1)
        },
        // Calls of functions have been folded or parsed by earlier stages.
        Expr::FuncCall { .. } => (e, s),
        Expr::UnOp { op, opr, span } => {
            let (o, s1) = spec_visit_expr(*opr, s);
            (Expr::UnOp { op, opr: Box::new(o), span }, s1)
        },
        Expr::BinOp { op, lhs, rhs, span } => {
            let (l, s1) = spec_visit_expr(*lhs, s);
            let (r, s2) = spec_visit_expr(*rhs, s1);
            (Expr::BinOp { op, lhs: Box::new(l), rhs: Box::new(r), span }, s2)
        },
        Expr::StructLiteral { name, fields, span } => {
            let (f, s1) = spec_visit_fields(*fields, s);
            (Expr::StructLiteral { name, fields: Box::new(f), span }, s1)
        },
    }
}

pub open spec fn spec_visit_exprs(l: List<Expr>, s: u32) -> (List<Expr>, u32)
    decreases l,
{
    match l {
        List::Nil => (List::Nil, s),
        List::Cons(e, rest) => {
            let (e1, s1) = spec_visit_expr(e, s);
            let (r1, s2) = spec_visit_exprs(*rest, s1);
            (List::Cons(e1, Box::new(r1)), s2)
        },
    }
}

pub open spec fn spec_visit_fields(l: List<FieldValue>, s: u32) -> (List<FieldValue>, u32)
    decreases l,
{
    match l {
        List::Nil => (List::Nil, s),
        List::Cons(f, rest) => {
            let (v, s1) = spec_visit_expr(f.value, s);
            let (r1, s2) = spec_visit_fields(*rest, s1);
            (List::Cons(FieldValue { name: f.name, value: v }, Box::new(r1)), s2)
        },
    }
}

pub open spec fn spec_visit_kwargs(l: List<Kwarg>, s: u32) -> (List<Kwarg>, u32)
    decreases l,
{
    match l {
        List::Nil => (List::Nil, s),
        List::Cons(k, rest) => {
            let (v, s1) = spec_visit_expr(k.value, s);
            let (r1, s2) = spec_visit_kwargs(*rest, s1);
            (List::Cons(Kwarg { name: k.name, value: v }, Box::new(r1)), s2)
        },
    }
}

pub open spec fn spec_visit_stmt(st: Stmt, s: u32) -> (Stmt, u32)
    decreases st,
{
    match st {
        Stmt::Repeat { times, body } => {
            let (t, s1) = spec_visit_expr(times, s);
            let (b, s2) = spec_visit_stmts(*body, s1);
            (Stmt::Repeat { times: t, body: Box::new(b) }, s2)
        },
        Stmt::Forever { body, span } => {
            let (b, s1) = spec_visit_stmts(*body, s);
            (Stmt::Forever { body: Box::new(b), span }, s1)
        },
        Stmt::Branch { cond, if_body, else_body } => {
            let (c, s1) = spec_visit_expr(cond, s);
            let (i, s2) = spec_visit_stmts(*if_body, s1);
            let (e, s3) = spec_visit_stmts(*else_body, s2);
            (Stmt::Branch { cond: c, if_body: Box::new(i), else_body: Box::new(e) }, s3)
        },
        Stmt::Until { cond, body } => {
            let (c, s1) = spec_visit_expr(cond, s);
            let (b, s2) = spec_visit_stmts(*body, s1);
            (Stmt::Until { cond: c, body: Box::new(b) }, s2)
        },
        Stmt::SetVar { name, value, ty, is_local } => {
            let (v, s1) = spec_visit_expr(value, s);
            (Stmt::SetVar { name, value: v, ty, is_local }, s1)
        },
        Stmt::ChangeVar { name, value } => {
            let (v, s1) = spec_visit_expr(value, s);
            (Stmt::ChangeVar { name, value: v }, s1)
        },
        Stmt::Show(_) => (st, s),
        Stmt::Hide(_) => (st, s),
        Stmt::AddToList { list, value } => {
            let (v, s1) = spec_visit_expr(value, s);
            (Stmt::AddToList { list, value: v }, s1)
        },
        Stmt::DeleteList(_) => (st, s),
        Stmt::DeleteListIndex { list, index } => {
            let (i, s1) = spec_visit_expr(index, s);
            (Stmt::DeleteListIndex { list, index: i }, s1)
        },
        Stmt::InsertAtList { list, index, value } => {
            let (i, s1) = spec_visit_expr(index, s);
            let (v, s2) = spec_visit_expr(value, s1);
            (Stmt::InsertAtList { list, index: i, value: v }, s2)
        },
        Stmt::SetListIndex { list, index, value } => {
            let (i, s1) = spec_visit_expr(index, s);
            let (v, s2) = spec_visit_expr(value, s1);
            (Stmt::SetListIndex { list, index: i, value: v }, s2)
        },
        Stmt::Block { block, args, kwargs, span } => {
            let (a, s1) = spec_visit_exprs(*args, s);
            let (k, s2) = spec_visit_kwargs(*kwargs, s1);
            (Stmt::Block { block, args: Box::new(a), kwargs: Box::new(k), span }, s2)
        },
        Stmt::ProcCall { name, args, kwargs, span } => {
            let (a, s1) = spec_visit_exprs(*args, s);
            let (k, s2) = spec_visit_kwargs(*kwargs, s1);
            (Stmt::ProcCall { name, args: Box::new(a), kwargs: Box::new(k), span }, s2)
        },
        Stmt::FuncCall { name, args, kwargs, span } => {
            let (a, s1) = spec_visit_exprs(*args, s);
            let (k, s2) = spec_visit_kwargs(*kwargs, s1);
            (Stmt::FuncCall { name, args: Box::new(a), kwargs: Box::new(k), span }, s2)
        },
        Stmt::Return { .. } => (st, s),
    }
}

pub open spec fn spec_visit_stmts(l: List<Stmt>, s: u32) -> (List<Stmt>, u32)
    decreases l,
{
    match l {
        List::Nil => (List::Nil, s),
        List::Cons(st, rest) => {
            let (st1, s1) = spec_visit_stmt(st, s);
            let (r1, s2) = spec_visit_stmts(*rest, s1);
            (List::Cons(st1, Box::new(r1)), s2)
        },
    }
}

/// Visiting statements one after the other is visiting the first part, then
/// the second part from the state the first part left.
pub proof fn lemma_visit_stmts_append(a: List<Stmt>, b: List<Stmt>, s: u32)
    ensures
        spec_visit_stmts(a.append(b), s) == ({
            let (va, s1) = spec_visit_stmts(a, s);
            let (vb, s2) = spec_visit_stmts(b, s1);
            (va.append(vb), s2)
        }),
    decreases a,
{
    match a {
        List::Nil => {},
        List::Cons(st, rest) => {
            lemma_visit_stmts_append(*rest, b, spec_visit_stmt(st, s).1);
        },
    }
}

pub open spec fn spec_visit_procs(l: List<Proc>, s: u32) -> (List<Proc>, u32)
    decreases l,
{
    match l {
        List::Nil => (List::Nil, s),
        List::Cons(p, rest) => {
            let (b, s1) = spec_visit_stmts(p.body, s);
            let (r1, s2) = spec_visit_procs(*rest, s1);
            (List::Cons(Proc { body: b, ..p }, Box::new(r1)), s2)
        },
    }
}

pub open spec fn spec_visit_funcs(l: List<Func>, s: u32) -> (List<Func>, u32)
    decreases l,
{
    match l {
        List::Nil => (List::Nil, s),
        List::Cons(f, rest) => {
            let (b, s1) = spec_visit_stmts(f.body, s);
            let (r1, s2) = spec_visit_funcs(*rest, s1);
            (List::Cons(Func { body: b, ..f }, Box::new(r1)), s2)
        },
    }
}

pub open spec fn spec_visit_events(l: List<Event>, s: u32) -> (List<Event>, u32)
    decreases l,
{
    match l {
        List::Nil => (List::Nil, s),
        List::Cons(ev, rest) => {
            let (b, s1) = spec_visit_stmts(ev.body, s);
            let (r1, s2) = spec_visit_events(*rest, s1);
            (List::Cons(Event { kind: ev.kind, body: b }, Box::new(r1)), s2)
        },
    }
}

/// The function bodies are visited first, then the functions with a return
/// type, then the event scripts.
pub open spec fn spec_visit_sprite(sp: Sprite, s: u32) -> (Sprite, u32) {
    let (p, s1) = spec_visit_procs(sp.procs, s);
    let (f, s2) = spec_visit_funcs(sp.funcs, s1);
    let (e, s3) = spec_visit_events(sp.events, s2);
    (Sprite { procs: p, funcs: f, events: e, ..sp }, s3)
}

pub open spec fn spec_visit_sprites(l: List<NamedSprite>, s: u32) -> (List<NamedSprite>, u32)
    decreases l,
{
    match l {
        List::Nil => (List::Nil, s),
        List::Cons(ns, rest) => {
            let (sp, s1) = spec_visit_sprite(ns.sprite, s);
            let (r1, s2) = spec_visit_sprites(*rest, s1);
            (List::Cons(NamedSprite { name: ns.name, sprite: sp }, Box::new(r1)), s2)
        },
    }
}

/// The project after the pass: the stage first, then the sprites in order,
/// with one generator seeded with `SEED`.
pub open spec fn spec_visit_project(p: Project) -> Project {
    let (stage, s1) = spec_visit_sprite(p.stage, initial_state(SEED));
    let (sprites, _) = spec_visit_sprites(p.sprites, s1);
    Project { stage, sprites }
}

fn obfuscate(n: Number, span: Span, prng: &mut Prng) -> (out: Expr)
    requires
        !(number_class(n) is Kept),
    ensures
        (out, final(prng).state()) == spec_obfuscate(n, span, old(prng).state()),
{
    let x1 = prng.next_u32();
    let r: u32 = x1 % 10000 + 1;
    let x2 = prng.next_u32();
    let zero = match class_of(&n) {
        NumClass::Zero => true,
        _ => false,
    };
    let (op, lhs, rhs) = if zero {
        if x2 % 4 == 0 {
            (BinOp::Sub, Number::Int(r), Number::Int(r))
        } else if x2 % 4 == 1 {
            (BinOp::Div, Number::Int(0), Number::Int(r))
        } else if x2 % 4 == 2 {
            (BinOp::Mul, Number::Int(0), Number::Int(r))
        } else {
            (BinOp::Mul, Number::Int(r), Number::Int(0))
        }
    } else {
        let base = Box::new(n);
        if x2 % 6 == 0 {
            (BinOp::Div, Number::Int(r), Number::Derived { kind: Derivation::RDivN, base, r })
        } else if x2 % 6 == 1 {
            (BinOp::Sub, Number::Int(r), Number::Derived { kind: Derivation::RSubN, base, r })
        } else if x2 % 6 == 2 {
            (BinOp::Add, Number::Derived { kind: Derivation::NSubR, base, r }, Number::Int(r))
        } else if x2 % 6 == 3 {
            (BinOp::Div, Number::Derived { kind: Derivation::NMulR, base, r }, Number::Int(r))
        } else if x2 % 6 == 4 {
            (BinOp::Sub, Number::Derived { kind: Derivation::NAddR, base, r }, Number::Int(r))
        } else {
            (BinOp::Add, Number::Int(r), Number::Derived { kind: Derivation::NSubR, base, r })
        }
    };
    Expr::BinOp {
        op,
        span,
        lhs: Box::new(Expr::Value { value: Value::Number(lhs), span }),
        rhs: Box::new(Expr::Value { value: Value::Number(rhs), span }),
    }
}

fn visit_expr(expr: Expr, prng: &mut Prng) -> (out: Expr)
    ensures
        (out, final(prng).state()) == spec_visit_expr(expr, old(prng).state()),
    decreases expr,
{
    match expr {
        Expr::Value { value, span } => match value {
            Value::Number(n) => {
                let kept = match class_of(&n) {
                    NumClass::Kept => true,
                    _ => false,
                };
                if kept {
                    Expr::Value { value: Value::Number(n), span }
                } else {
                    obfuscate(n, span, prng)
                }
            },
            _ => Expr::Value { value, span },
        },
        Expr::Name(n) => Expr::Name(n),
        Expr::Arg(a) => Expr::Arg(a),
        Expr::Dot { lhs, rhs, span } => {
            let l = visit_expr(*lhs, prng);
            Expr::Dot { lhs: Box::new(l), rhs, span }
        },
        Expr::Property { object, property, span } => {
            let o = visit_expr(*object, prng);
            Expr::Property { object: Box::new(o), property, span }
        },
        Expr::Repr { repr, args, span } => {
            let a = visit_exprs(*args, prng);
            Expr::Repr { repr, args: Box::new(a), span }
        },
        Expr::FuncCall { name, args, kwargs, span } => Expr::FuncCall { name, args, kwargs, span },
        Expr::UnOp { op, opr, span } => {
            let o = visit_expr(*opr, prng);
            Expr::UnOp { op, opr: Box::new(o), span }
        },
        Expr::BinOp { op, lhs, rhs, span } => {
            let l = visit_expr(*lhs, prng);
            let r = visit_expr(*rhs, prng);
            Expr::BinOp { op, lhs: Box::new(l), rhs: Box::new(r), span }
        },
        Expr::StructLiteral { name, fields, span } => {
            let f = visit_fields(*fields, prng);
            Expr::StructLiteral { name, fields: Box::new(f), span }
        },
    }
}

fn visit_exprs(l: List<Expr>, prng: &mut Prng) -> (out: List<Expr>)
    ensures
        (out, final(prng).state()) == spec_visit_exprs(l, old(prng).state()),
    decreases l,
{
    match l {
        List::Nil => List::Nil,
        List::Cons(e, rest) => {
            let e1 = visit_expr(e, prng);
            let r1 = visit_exprs(*rest, prng);
            List::Cons(e1, Box::new(r1))
        },
    }
}

fn visit_fields(l: List<FieldValue>, prng: &mut Prng) -> (out: List<FieldValue>)
    ensures
        (out, final(prng).state()) == spec_visit_fields(l, old(prng).state()),
    decreases l,
{
    match l {
        List::Nil => List::Nil,
        List::Cons(f, rest) => {
            let v = visit_expr(f.value, prng);
            let r1 = visit_fields(*rest, prng);
            List::Cons(FieldValue { name: f.name, value: v }, Box::new(r1))
        },
    }
}

fn visit_kwargs(l: List<Kwarg>, prng: &mut Prng) -> (out: List<Kwarg>)
    ensures
        (out, final(prng).state()) == spec_visit_kwargs(l, old(prng).state()),
    decreases l,
{
    match l {
        List::Nil => List::Nil,
        List::Cons(k, rest) => {
            let v = visit_expr(k.value, prng);
            let r1 = visit_kwargs(*rest, prng);
            List::Cons(Kwarg { name: k.name, value: v }, Box::new(r1))
        },
    }
}

fn visit_stmt(stmt: Stmt, prng: &mut Prng) -> (out: Stmt)
    ensures
        (out, final(prng).state()) == spec_visit_stmt(stmt, old(prng).state()),
    decreases stmt,
{
    match stmt {
        Stmt::Repeat { times, body } => {
            let t = visit_expr(times, prng);
            let b = visit_stmts(*body, prng);
            Stmt::Repeat { times: t, body: Box::new(b) }
        },
        Stmt::Forever { body, span } => {
            let b = visit_stmts(*body, prng);
            Stmt::Forever { body: Box::new(b), span }
        },
        Stmt::Branch { cond, if_body, else_body } => {
            let c = visit_expr(cond, prng);
            let i = visit_stmts(*if_body, prng);
            let e = visit_stmts(*else_body, prng);
            Stmt::Branch { cond: c, if_body: Box::new(i), else_body: Box::new(e) }
        },
        Stmt::Until { cond, body } => {
            let c = visit_expr(cond, prng);
            let b = visit_stmts(*body, prng);
            Stmt::Until { cond: c, body: Box::new(b) }
        },
        Stmt::SetVar { name, value, ty, is_local } => {
            let v = visit_expr(value, prng);
            Stmt::SetVar { name, value: v, ty, is_local }
        },
        Stmt::ChangeVar { name, value } => {
            let v = visit_expr(value, prng);
            Stmt::ChangeVar { name, value: v }
        },
        Stmt::Show(n) => Stmt::Show(n),
        Stmt::Hide(n) => Stmt::Hide(n),
        Stmt::AddToList { list, value } => {
            let v = visit_expr(value, prng);
            Stmt::AddToList { list, value: v }
        },
        Stmt::DeleteList(n) => Stmt::DeleteList(n),
        Stmt::DeleteListIndex { list, index } => {
            let i = visit_expr(index, prng);
            Stmt::DeleteListIndex { list, index: i }
        },
        Stmt::InsertAtList { list, index, value } => {
            let i = visit_expr(index, prng);
            let v = visit_expr(value, prng);
            Stmt::InsertAtList { list, index: i, value: v }
        },
        Stmt::SetListIndex { list, index, value } => {
            let i = visit_expr(index, prng);
            let v = visit_expr(value, prng);
            Stmt::SetListIndex { list, index: i, value: v }
        },
        Stmt::Block { block, args, kwargs, span } => {
            let a = visit_exprs(*args, prng);
            let k = visit_kwargs(*kwargs, prng);
            Stmt::Block { block, args: Box::new(a), kwargs: Box::new(k), span }
        },
        Stmt::ProcCall { name, args, kwargs, span } => {
            let a = visit_exprs(*args, prng);
            let k = visit_kwargs(*kwargs, prng);
            Stmt::ProcCall { name, args: Box::new(a), kwargs: Box::new(k), span }
        },
        Stmt::FuncCall { name, args, kwargs, span } => {
            let a = visit_exprs(*args, prng);
            let k = visit_kwargs(*kwargs, prng);
            Stmt::FuncCall { name, args: Box::new(a), kwargs: Box::new(k), span }
        },
        Stmt::Return { value, span } => Stmt::Return { value, span },
    }
}

fn visit_stmts(l: List<Stmt>, prng: &mut Prng) -> (out: List<Stmt>)
    ensures
        (out, final(prng).state()) == spec_visit_stmts(l, old(prng).state()),
    decreases l,
{
    match l {
        List::Nil => List::Nil,
        List::Cons(st, rest) => {
            let st1 = visit_stmt(st, prng);
            let r1 = visit_stmts(*rest, prng);
            List::Cons(st1, Box::new(r1))
        },
    }
}

fn visit_procs(l: List<Proc>, prng: &mut Prng) -> (out: List<Proc>)
    ensures
        (out, final(prng).state()) == spec_visit_procs(l, old(prng).state()),
    decreases l,
{
    match l {
        List::Nil => List::Nil,
        List::Cons(p, rest) => {
            let b = visit_stmts(p.body, prng);
            let r1 = visit_procs(*rest, prng);
            List::Cons(Proc { name: p.name, args: p.args, warp: p.warp, body: b }, Box::new(r1))
        },
    }
}

fn visit_funcs(l: List<Func>, prng: &mut Prng) -> (out: List<Func>)
    ensures
        (out, final(prng).state()) == spec_visit_funcs(l, old(prng).state()),
    decreases l,
{
    match l {
        List::Nil => List::Nil,
        List::Cons(f, rest) => {
            let b = visit_stmts(f.body, prng);
            let r1 = visit_funcs(*rest, prng);
            List::Cons(
                Func { name: f.name, args: f.args, warp: f.warp, ty: f.ty, body: b },
                Box::new(r1),
            )
        },
    }
}

fn visit_events(l: List<Event>, prng: &mut Prng) -> (out: List<Event>)
    ensures
        (out, final(prng).state()) == spec_visit_events(l, old(prng).state()),
    decreases l,
{
    match l {
        List::Nil => List::Nil,
        List::Cons(ev, rest) => {
            let b = visit_stmts(ev.body, prng);
            let r1 = visit_events(*rest, prng);
            List::Cons(Event { kind: ev.kind, body: b }, Box::new(r1))
        },
    }
}

fn visit_sprite(sprite: Sprite, prng: &mut Prng) -> (out: Sprite)
    ensures
        (out, final(prng).state()) == spec_visit_sprite(sprite, old(prng).state()),
{
    let Sprite { costumes, sounds, variables, lists, structs, enums, procs, funcs, events } =
        sprite;
    let procs = visit_procs(procs, prng);
    let funcs = visit_funcs(funcs, prng);
    let events = visit_events(events, prng);
    Sprite { costumes, sounds, variables, lists, structs, enums, procs, funcs, events }
}

fn visit_sprites(l: List<NamedSprite>, prng: &mut Prng) -> (out: List<NamedSprite>)
    ensures
        (out, final(prng).state()) == spec_visit_sprites(l, old(prng).state()),
    decreases l,
{
    match l {
        List::Nil => List::Nil,
        List::Cons(ns, rest) => {
            let sp = visit_sprite(ns.sprite, prng);
            let r1 = visit_sprites(*rest, prng);
            List::Cons(NamedSprite { name: ns.name, sprite: sp }, Box::new(r1))
        },
    }
}

/// Obfuscates every number of the scripts of the project: see
/// `spec_visit_project`.
pub fn visit_project(project: &mut Project)
    ensures
        *final(project) == spec_visit_project(*old(project)),
{
    let mut prng = Prng::new(SEED);
    let mut taken = Project { stage: Sprite::empty(), sprites: List::Nil };
    core::mem::swap(&mut taken, project);
    let stage = visit_sprite(taken.stage, &mut prng);
    let sprites = visit_sprites(taken.sprites, &mut prng);
    *project = Project { stage, sprites };
}

/// `num / den` as a pair of integers.
pub open spec fn rat_eq(a: (int, int), b: (int, int)) -> bool {
    a.0 * b.1 == b.0 * a.1
}

pub open spec fn rat_add(a: (int, int), b: (int, int)) -> (int, int) {
    (a.0 * b.1 + b.0 * a.1, a.1 * b.1)
}

pub open spec fn rat_sub(a: (int, int), b: (int, int)) -> (int, int) {
    (a.0 * b.1 - b.0 * a.1, a.1 * b.1)
}

pub open spec fn rat_mul(a: (int, int), b: (int, int)) -> (int, int) {
    (a.0 * b.0, a.1 * b.1)
}

/// Division, with the denominator kept positive; `b` must not be zero.
pub open spec fn rat_div(a: (int, int), b: (int, int)) -> (int, int) {
    if b.0 > 0 {
        (a.0 * b.1, a.1 * b.0)
    } else {
        (-(a.0 * b.1), -(a.1 * b.0))
    }
}

/// The exact value of a number: the value recorded on a literal, the whole
/// number itself, or the operation of a derived number on the value of its
/// base. There is none for a literal with denominator zero or for a
/// division by zero, which stand where a float would be infinite or not a
/// number.
pub open spec fn exact_value(n: Number) -> Option<(int, int)>
    decreases n,
{
    match n {
        Number::Literal { num, den, .. } => if nat_of(den) == 0 {
            None
        } else {
            Some((nat_of(num) as int, nat_of(den) as int))
        },
        Number::Int(k) => Some((k as int, 1int)),
        Number::Derived { kind, base, r } => match exact_value(*base) {
            None => None,
            Some(v) => {
                let r = (r as int, 1int);
                match kind {
                    Derivation::RDivN => if v.0 == 0 {
                        None
                    } else {
                        Some(rat_div(r, v))
                    },
                    Derivation::RSubN => Some(rat_sub(r, v)),
                    Derivation::NSubR => Some(rat_sub(v, r)),
                    Derivation::NMulR => Some(rat_mul(v, r)),
                    Derivation::NAddR => Some(rat_add(v, r)),
                }
            },
        },
    }
}

/// An exact value has a positive denominator.
pub proof fn lemma_exact_value_denominator(n: Number)
    ensures
        exact_value(n) matches Some(v) ==> v.1 > 0,
    decreases n,
{
    if let Number::Derived { base, .. } = n {
        lemma_exact_value_denominator(*base);
    }
}

/// The exact value of an expression made of numbers and the four
/// arithmetic operations, if it is one.
pub open spec fn arith_value(e: Expr) -> Option<(int, int)>
    decreases e,
{
    match e {
        Expr::Value { value: Value::Number(n), .. } => exact_value(n),
        Expr::BinOp { op, lhs, rhs, .. } => match (arith_value(*lhs), arith_value(*rhs)) {
            (Some(a), Some(b)) => match op {
                BinOp::Add => Some(rat_add(a, b)),
                BinOp::Sub => Some(rat_sub(a, b)),
                BinOp::Mul => Some(rat_mul(a, b)),
                BinOp::Div => if b.0 != 0 {
                    Some(rat_div(a, b))
                } else {
                    None
                },
                _ => None,
            },
            _ => None,
        },
        _ => None,
    }
}

/// The operation that replaces a number has the exact value of the number,
/// whatever the generator state: `r - r`, `0 / r`, `0 * r` and `r * 0` for
/// zero, and `r / (r / n)`, `r - (r - n)`, `(n - r) + r`, `(n * r) / r`,
/// `(n + r) - r` and `r + (n - r)` for any other `n`.
pub proof fn lemma_obfuscate_keeps_value(
    n: Number,
    span: Span,
    s: u32)
    requires
        !(number_class(n) is Kept),
    ensures
        replaces_number(spec_obfuscate(n, span, s).0, span),
        arith_value(spec_obfuscate(n, span, s).0) matches Some(v) && v.1 > 0 && rat_eq(
            v,
            exact_value(n).unwrap(),
        ),
{
    let x1 = xorshift(s);
    let x2 = xorshift(x1);
    let r = (x1 % 10000 + 1) as u32;
    let ri = r as int;
    lemma_exact_value_denominator(n);
    let nv = exact_value(n).unwrap();
    assert(nv.1 > 0);
    assert(number_class(n) is Zero <==> nv.0 == 0);
    let p = nv.0;
    let q = nv.1;
    assert(ri > 0);
    let e = spec_obfuscate(n, span, s).0;
    reveal_with_fuel(arith_value, 2);
    if number_class(n) is Zero {
        assert(p == 0);
        assert({
            let a = rat_sub((ri, 1int), (ri, 1int));
            let b = rat_div((0int, 1int), (ri, 1int));
            let c = rat_mul((0int, 1int), (ri, 1int));
            let d = rat_mul((ri, 1int), (0int, 1int));
            &&& a.1 > 0 && rat_eq(a, (p, q))
            &&& b.1 > 0 && rat_eq(b, (p, q))
            &&& c.1 > 0 && rat_eq(c, (p, q))
            &&& d.1 > 0 && rat_eq(d, (p, q))
        }) by (nonlinear_arith)
            requires
                p == 0,
                ri > 0,
                q > 0,
        ;
        if x2 % 4 == 0 {
            assert(arith_value(e) == Some(rat_sub((ri, 1int), (ri, 1int))));
        } else if x2 % 4 == 1 {
            assert(arith_value(e) == Some(rat_div((0int, 1int), (ri, 1int))));
        } else if x2 % 4 == 2 {
            assert(arith_value(e) == Some(rat_mul((0int, 1int), (ri, 1int))));
        } else {
            assert(arith_value(e) == Some(rat_mul((ri, 1int), (0int, 1int))));
        }
    } else {
        assert(p != 0);
        let d = |kind: Derivation| Number::Derived { kind, base: Box::new(n), r };
        if x2 % 6 == 0 {
            let rn = exact_value(d(Derivation::RDivN)).unwrap();
            assert(rn == rat_div((ri, 1int), (p, q)));
            assert(rn.0 != 0) by (nonlinear_arith)
                requires
                    rn == rat_div((ri, 1int), (p, q)),
                    ri > 0,
                    q > 0,
            ;
            let v = rat_div((ri, 1int), rn);
            assert(arith_value(e) == Some(v));
            assert(v.1 > 0 && rat_eq(v, (p, q))) by (nonlinear_arith)
                requires
                    rn == rat_div((ri, 1int), (p, q)),
                    v == rat_div((ri, 1int), rn),
                    rn.0 != 0,
                    ri > 0,
                    q > 0,
                    p != 0,
            ;
        } else if x2 % 6 == 1 {
            let v = rat_sub((ri, 1int), rat_sub((ri, 1int), (p, q)));
            assert(arith_value(e) == Some(v));
            assert(v.1 > 0 && rat_eq(v, (p, q))) by (nonlinear_arith)
                requires
                    v == rat_sub((ri, 1int), rat_sub((ri, 1int), (p, q))),
                    q > 0,
            ;
        } else if x2 % 6 == 2 || x2 % 6 == 5 {
            let v1 = rat_add(rat_sub((p, q), (ri, 1int)), (ri, 1int));
            let v2 = rat_add((ri, 1int), rat_sub((p, q), (ri, 1int)));
            assert(x2 % 6 == 2 ==> arith_value(e) == Some(v1));
            assert(x2 % 6 == 5 ==> arith_value(e) == Some(v2));
            assert(v1.1 > 0 && rat_eq(v1, (p, q)) && v2.1 > 0 && rat_eq(v2, (p, q)))
                by (nonlinear_arith)
                requires
                    v1 == rat_add(rat_sub((p, q), (ri, 1int)), (ri, 1int)),
                    v2 == rat_add((ri, 1int), rat_sub((p, q), (ri, 1int))),
                    q > 0,
            ;
        } else if x2 % 6 == 3 {
            let v = rat_div(rat_mul((p, q), (ri, 1int)), (ri, 1int));
            assert(arith_value(e) == Some(v));
            assert(v.1 > 0 && rat_eq(v, (p, q))) by (nonlinear_arith)
                requires
                    v == rat_div(rat_mul((p, q), (ri, 1int)), (ri, 1int)),
                    q > 0,
                    ri > 0,
            ;
        } else {
            let v = rat_sub(rat_add((p, q), (ri, 1int)), (ri, 1int));
            assert(arith_value(e) == Some(v));
            assert(v.1 > 0 && rat_eq(v, (p, q))) by (nonlinear_arith)
                requires
                    v == rat_sub(rat_add((p, q), (ri, 1int)), (ri, 1int)),
                    q > 0,
            ;
        }
    }
}


/// `e` is an operation on two numbers, written where the number it replaces
/// was written.
pub open spec fn replaces_number(e: Expr, span: Span) -> bool {
    match e {
        Expr::BinOp { lhs, rhs, span: s, .. } => s == span && (*lhs matches Expr::Value {
            value: Value::Number(_),
            span: s1,
        } && s1 == span) && (*rhs matches Expr::Value { value: Value::Number(_), span: s2 }
            && s2 == span),
        _ => false,
    }
}

/// `new` is `old` with each number that the pass rewrites replaced by an
/// operation of the same exact value, and with everything else unchanged.
pub open spec fn keeps_values(old: Expr, new: Expr) -> bool
    decreases old,
{
    match old {
        Expr::Value { value: Value::Number(n), span } => if number_class(n) is Kept {
            new == old
        } else {
            replaces_number(new, span) && (arith_value(new) matches Some(v) && rat_eq(
                v,
                exact_value(n).unwrap(),
            ))
        },
        Expr::Dot { lhs, rhs, span } => match new {
            Expr::Dot { lhs: l2, rhs: r2, span: s2 } => r2 == rhs && s2 == span && keeps_values(
                *lhs,
                *l2,
            ),
            _ => false,
        },
        Expr::Property { object, property, span } => match new {
            Expr::Property { object: o2, property: p2, span: s2 } => p2 == property && s2 == span
                && keeps_values(*object, *o2),
            _ => false,
        },
        Expr::Repr { repr, args, span } => match new {
            Expr::Repr { repr: r2, args: a2, span: s2 } => r2 == repr && s2 == span
                && keeps_values_list(*args, *a2),
            _ => false,
        },
        Expr::UnOp { op, opr, span } => match new {
            Expr::UnOp { op: o2, opr: e2, span: s2 } => o2 == op && s2 == span && keeps_values(
                *opr,
                *e2,
            ),
            _ => false,
        },
        Expr::BinOp { op, lhs, rhs, span } => match new {
            Expr::BinOp { op: o2, lhs: l2, rhs: r2, span: s2 } => o2 == op && s2 == span
                && keeps_values(*lhs, *l2) && keeps_values(*rhs, *r2),
            _ => false,
        },
        Expr::StructLiteral { name, fields, span } => match new {
            Expr::StructLiteral { name: n2, fields: f2, span: s2 } => n2 == name && s2 == span
                && keeps_values_fields(*fields, *f2),
            _ => false,
        },
        _ => new == old,
    }
}

pub open spec fn keeps_values_list(
    old: List<Expr>,
    new: List<Expr>) -> bool
    decreases old,
{
    match old {
        List::Nil => new == List::<Expr>::Nil,
        List::Cons(e, rest) => match new {
            List::Cons(e2, rest2) => keeps_values(e, e2) && keeps_values_list(
                *rest,
                *rest2,
            ),
            List::Nil => false,
        },
    }
}

pub open spec fn keeps_values_fields(
    old: List<FieldValue>,
    new: List<FieldValue>) -> bool
    decreases old,
{
    match old {
        List::Nil => new == List::<FieldValue>::Nil,
        List::Cons(f, rest) => match new {
            List::Cons(f2, rest2) => f2.name == f.name && keeps_values(f.value, f2.value)
                && keeps_values_fields(*rest, *rest2),
            List::Nil => false,
        },
    }
}

/// The pass keeps the exact value of every number of an expression, and
/// changes nothing else: calls of functions, names, strings and booleans stay
/// as they are, and every other node keeps its operator and its span.
pub proof fn lemma_visit_keeps_values(e: Expr, s: u32)
    ensures
        keeps_values(e, spec_visit_expr(e, s).0),
    decreases e,
{
    match e {
        Expr::Value { value: Value::Number(n), span } => {
            if !(number_class(n) is Kept) {
                lemma_obfuscate_keeps_value(n, span, s);
            }
        },
        Expr::Dot { lhs, .. } => {
            lemma_visit_keeps_values(*lhs, s);
        },
        Expr::Property { object, .. } => {
            lemma_visit_keeps_values(*object, s);
        },
        Expr::Repr { args, .. } => {
            lemma_visit_list_keeps_values(*args, s);
        },
        Expr::UnOp { opr, .. } => {
            lemma_visit_keeps_values(*opr, s);
        },
        Expr::BinOp { lhs, rhs, .. } => {
            lemma_visit_keeps_values(*lhs, s);
            let s1 = spec_visit_expr(*lhs, s).1;
            lemma_visit_keeps_values(*rhs, s1);
        },
        Expr::StructLiteral { fields, .. } => {
            lemma_visit_fields_keeps_values(*fields, s);
        },
        _ => {},
    }
}

pub proof fn lemma_visit_list_keeps_values(l: List<Expr>, s: u32)
    ensures
        keeps_values_list(l, spec_visit_exprs(l, s).0),
    decreases l,
{
    match l {
        List::Nil => {},
        List::Cons(e, rest) => {
            lemma_visit_keeps_values(e, s);
            let s1 = spec_visit_expr(e, s).1;
            lemma_visit_list_keeps_values(*rest, s1);
        },
    }
}

pub proof fn lemma_visit_fields_keeps_values(
    l: List<FieldValue>,
    s: u32)
    ensures
        keeps_values_fields(l, spec_visit_fields(l, s).0),
    decreases l,
{
    match l {
        List::Nil => {},
        List::Cons(f, rest) => {
            lemma_visit_keeps_values(f.value, s);
            let s1 = spec_visit_expr(f.value, s).1;
            lemma_visit_fields_keeps_values(*rest, s1);
        },
    }
}


pub open spec fn keeps_values_kwargs(
    old: List<Kwarg>,
    new: List<Kwarg>) -> bool
    decreases old,
{
    match old {
        List::Nil => new == List::<Kwarg>::Nil,
        List::Cons(k, rest) => match new {
            List::Cons(k2, rest2) => k2.name == k.name && keeps_values(k.value, k2.value)
                && keeps_values_kwargs(*rest, *rest2),
            List::Nil => false,
        },
    }
}

/// `new` is the statement `old` with the values of its numbers kept as
/// `keeps_values` says, and everything else unchanged.
pub open spec fn keeps_values_stmt(old: Stmt, new: Stmt) -> bool
    decreases old,
{
    match old {
        Stmt::Repeat { times, body } => match new {
            Stmt::Repeat { times: t2, body: b2 } => keeps_values(times, t2)
                && keeps_values_stmts(*body, *b2),
            _ => false,
        },
        Stmt::Forever { body, span } => match new {
            Stmt::Forever { body: b2, span: s2 } => s2 == span && keeps_values_stmts(
                *body,
                *b2,
            ),
            _ => false,
        },
        Stmt::Branch { cond, if_body, else_body } => match new {
            Stmt::Branch { cond: c2, if_body: i2, else_body: e2 } => keeps_values(cond, c2)
                && keeps_values_stmts(*if_body, *i2) && keeps_values_stmts(
                *else_body,
                *e2,
            ),
            _ => false,
        },
        Stmt::Until { cond, body } => match new {
            Stmt::Until { cond: c2, body: b2 } => keeps_values(cond, c2) && keeps_values_stmts(
                *body,
                *b2,
            ),
            _ => false,
        },
        Stmt::SetVar { name, value, ty, is_local } => match new {
            Stmt::SetVar { name: n2, value: v2, ty: t2, is_local: l2 } => n2 == name && t2 == ty
                && l2 == is_local && keeps_values(value, v2),
            _ => false,
        },
        Stmt::ChangeVar { name, value } => match new {
            Stmt::ChangeVar { name: n2, value: v2 } => n2 == name && keeps_values(value, v2),
            _ => false,
        },
        Stmt::AddToList { list, value } => match new {
            Stmt::AddToList { list: l2, value: v2 } => l2 == list && keeps_values(value, v2),
            _ => false,
        },
        Stmt::DeleteListIndex { list, index } => match new {
            Stmt::DeleteListIndex { list: l2, index: i2 } => l2 == list && keeps_values(
                index,
                i2,
            ),
            _ => false,
        },
        Stmt::InsertAtList { list, index, value } => match new {
            Stmt::InsertAtList { list: l2, index: i2, value: v2 } => l2 == list && keeps_values(
                index,
                i2,
            ) && keeps_values(value, v2),
            _ => false,
        },
        Stmt::SetListIndex { list, index, value } => match new {
            Stmt::SetListIndex { list: l2, index: i2, value: v2 } => l2 == list && keeps_values(
                index,
                i2,
            ) && keeps_values(value, v2),
            _ => false,
        },
        Stmt::Block { block, args, kwargs, span } => match new {
            Stmt::Block { block: b2, args: a2, kwargs: k2, span: s2 } => b2 == block && s2 == span
                && keeps_values_list(*args, *a2) && keeps_values_kwargs(*kwargs, *k2),
            _ => false,
        },
        Stmt::ProcCall { name, args, kwargs, span } => match new {
            Stmt::ProcCall { name: n2, args: a2, kwargs: k2, span: s2 } => n2 == name && s2
                == span && keeps_values_list(*args, *a2) && keeps_values_kwargs(
                *kwargs,
                *k2,
            ),
            _ => false,
        },
        Stmt::FuncCall { name, args, kwargs, span } => match new {
            Stmt::FuncCall { name: n2, args: a2, kwargs: k2, span: s2 } => n2 == name && s2
                == span && keeps_values_list(*args, *a2) && keeps_values_kwargs(
                *kwargs,
                *k2,
            ),
            _ => false,
        },
        _ => new == old,
    }
}

pub open spec fn keeps_values_stmts(
    old: List<Stmt>,
    new: List<Stmt>) -> bool
    decreases old,
{
    match old {
        List::Nil => new == List::<Stmt>::Nil,
        List::Cons(st, rest) => match new {
            List::Cons(st2, rest2) => keeps_values_stmt(st, st2) && keeps_values_stmts(
                *rest,
                *rest2,
            ),
            List::Nil => false,
        },
    }
}

pub proof fn lemma_visit_kwargs_keeps_values(l: List<Kwarg>, s: u32)
    ensures
        keeps_values_kwargs(l, spec_visit_kwargs(l, s).0),
    decreases l,
{
    match l {
        List::Nil => {},
        List::Cons(k, rest) => {
            lemma_visit_keeps_values(k.value, s);
            let s1 = spec_visit_expr(k.value, s).1;
            lemma_visit_kwargs_keeps_values(*rest, s1);
        },
    }
}

/// The pass keeps the exact value of every number of a statement and
/// changes nothing else in it.
pub proof fn lemma_visit_stmt_keeps_values(st: Stmt, s: u32)
    ensures
        keeps_values_stmt(st, spec_visit_stmt(st, s).0),
    decreases st,
{
    match st {
        Stmt::Repeat { times, body } => {
            lemma_visit_keeps_values(times, s);
            lemma_visit_stmts_keeps_values(*body, spec_visit_expr(times, s).1);
        },
        Stmt::Forever { body, .. } => {
            lemma_visit_stmts_keeps_values(*body, s);
        },
        Stmt::Branch { cond, if_body, else_body } => {
            lemma_visit_keeps_values(cond, s);
            let s1 = spec_visit_expr(cond, s).1;
            lemma_visit_stmts_keeps_values(*if_body, s1);
            let s2 = spec_visit_stmts(*if_body, s1).1;
            lemma_visit_stmts_keeps_values(*else_body, s2);
        },
        Stmt::Until { cond, body } => {
            lemma_visit_keeps_values(cond, s);
            lemma_visit_stmts_keeps_values(*body, spec_visit_expr(cond, s).1);
        },
        Stmt::SetVar { value, .. } => {
            lemma_visit_keeps_values(value, s);
        },
        Stmt::ChangeVar { value, .. } => {
            lemma_visit_keeps_values(value, s);
        },
        Stmt::AddToList { value, .. } => {
            lemma_visit_keeps_values(value, s);
        },
        Stmt::DeleteListIndex { index, .. } => {
            lemma_visit_keeps_values(index, s);
        },
        Stmt::InsertAtList { index, value, .. } => {
            lemma_visit_keeps_values(index, s);
            lemma_visit_keeps_values(value, spec_visit_expr(index, s).1);
        },
        Stmt::SetListIndex { index, value, .. } => {
            lemma_visit_keeps_values(index, s);
            lemma_visit_keeps_values(value, spec_visit_expr(index, s).1);
        },
        Stmt::Block { args, kwargs, .. } => {
            lemma_visit_list_keeps_values(*args, s);
            lemma_visit_kwargs_keeps_values(*kwargs, spec_visit_exprs(*args, s).1);
        },
        Stmt::ProcCall { args, kwargs, .. } => {
            lemma_visit_list_keeps_values(*args, s);
            lemma_visit_kwargs_keeps_values(*kwargs, spec_visit_exprs(*args, s).1);
        },
        Stmt::FuncCall { args, kwargs, .. } => {
            lemma_visit_list_keeps_values(*args, s);
            lemma_visit_kwargs_keeps_values(*kwargs, spec_visit_exprs(*args, s).1);
        },
        _ => {},
    }
}

pub proof fn lemma_visit_stmts_keeps_values(l: List<Stmt>, s: u32)
    ensures
        keeps_values_stmts(l, spec_visit_stmts(l, s).0),
    decreases l,
{
    match l {
        List::Nil => {},
        List::Cons(st, rest) => {
            lemma_visit_stmt_keeps_values(st, s);
            lemma_visit_stmts_keeps_values(*rest, spec_visit_stmt(st, s).1);
        },
    }
}


pub open spec fn keeps_values_procs(
    old: List<Proc>,
    new: List<Proc>) -> bool
    decreases old,
{
    match old {
        List::Nil => new == List::<Proc>::Nil,
        List::Cons(x, rest) => match new {
            List::Cons(x2, rest2) => x2.name == x.name && x2.args == x.args && x2.warp == x.warp && keeps_values_stmts(x.body, x2.body)
                && keeps_values_procs(*rest, *rest2),
            List::Nil => false,
        },
    }
}

proof fn lemma_visit_procs_keeps_values(l: List<Proc>, s: u32)
    ensures
        keeps_values_procs(l, spec_visit_procs(l, s).0),
    decreases l,
{
    match l {
        List::Nil => {},
        List::Cons(x, rest) => {
            lemma_visit_stmts_keeps_values(x.body, s);
            lemma_visit_procs_keeps_values(*rest, spec_visit_stmts(x.body, s).1);
        },
    }
}

pub open spec fn keeps_values_funcs(
    old: List<Func>,
    new: List<Func>) -> bool
    decreases old,
{
    match old {
        List::Nil => new == List::<Func>::Nil,
        List::Cons(x, rest) => match new {
            List::Cons(x2, rest2) => x2.name == x.name && x2.args == x.args && x2.warp == x.warp && x2.ty == x.ty && keeps_values_stmts(x.body, x2.body)
                && keeps_values_funcs(*rest, *rest2),
            List::Nil => false,
        },
    }
}

proof fn lemma_visit_funcs_keeps_values(l: List<Func>, s: u32)
    ensures
        keeps_values_funcs(l, spec_visit_funcs(l, s).0),
    decreases l,
{
    match l {
        List::Nil => {},
        List::Cons(x, rest) => {
            lemma_visit_stmts_keeps_values(x.body, s);
            lemma_visit_funcs_keeps_values(*rest, spec_visit_stmts(x.body, s).1);
        },
    }
}

pub open spec fn keeps_values_events(
    old: List<Event>,
    new: List<Event>) -> bool
    decreases old,
{
    match old {
        List::Nil => new == List::<Event>::Nil,
        List::Cons(x, rest) => match new {
            List::Cons(x2, rest2) => x2.kind == x.kind && keeps_values_stmts(x.body, x2.body)
                && keeps_values_events(*rest, *rest2),
            List::Nil => false,
        },
    }
}

proof fn lemma_visit_events_keeps_values(l: List<Event>, s: u32)
    ensures
        keeps_values_events(l, spec_visit_events(l, s).0),
    decreases l,
{
    match l {
        List::Nil => {},
        List::Cons(x, rest) => {
            lemma_visit_stmts_keeps_values(x.body, s);
            lemma_visit_events_keeps_values(*rest, spec_visit_stmts(x.body, s).1);
        },
    }
}

/// `new` is the sprite `old` with the values of the numbers of its scripts
/// kept, and everything else unchanged.
pub open spec fn keeps_values_sprite(old: Sprite, new: Sprite) -> bool {
    &&& new.costumes == old.costumes
    &&& new.sounds == old.sounds
    &&& new.variables == old.variables
    &&& new.lists == old.lists
    &&& new.structs == old.structs
    &&& new.enums == old.enums
    &&& keeps_values_procs(old.procs, new.procs)
    &&& keeps_values_funcs(old.funcs, new.funcs)
    &&& keeps_values_events(old.events, new.events)
}

pub open spec fn keeps_values_sprites(old: List<NamedSprite>, new: List<NamedSprite>) -> bool
    decreases old,
{
    match old {
        List::Nil => new == List::<NamedSprite>::Nil,
        List::Cons(x, rest) => match new {
            List::Cons(x2, rest2) => x2.name == x.name && keeps_values_sprite(x.sprite, x2.sprite)
                && keeps_values_sprites(*rest, *rest2),
            List::Nil => false,
        },
    }
}

/// Obfuscating a sprite, from any state of the generator, keeps the exact
/// value of every number of its scripts and changes nothing else.
pub proof fn lemma_visit_sprite_keeps_values(sp: Sprite, s: u32)
    ensures
        keeps_values_sprite(sp, spec_visit_sprite(sp, s).0),
{
    lemma_visit_procs_keeps_values(sp.procs, s);
    let s1 = spec_visit_procs(sp.procs, s).1;
    lemma_visit_funcs_keeps_values(sp.funcs, s1);
    let s2 = spec_visit_funcs(sp.funcs, s1).1;
    lemma_visit_events_keeps_values(sp.events, s2);
}

proof fn lemma_visit_sprites_keeps_values(l: List<NamedSprite>, s: u32)
    ensures
        keeps_values_sprites(l, spec_visit_sprites(l, s).0),
    decreases l,
{
    match l {
        List::Nil => {},
        List::Cons(x, rest) => {
            lemma_visit_sprite_keeps_values(x.sprite, s);
            lemma_visit_sprites_keeps_values(*rest, spec_visit_sprite(x.sprite, s).1);
        },
    }
}

/// The obfuscation of a project keeps the exact value of every number of
/// every script, and changes nothing else: the declarations, the names and
/// the order of the sprites, and every node of a script that is not a number
/// stay as they are.
pub proof fn lemma_visit_project_keeps_values(p: Project)
    ensures
        keeps_values_sprite(p.stage, spec_visit_project(p).stage),
        keeps_values_sprites(p.sprites, spec_visit_project(p).sprites),
{
    lemma_visit_sprite_keeps_values(p.stage, initial_state(SEED));
    lemma_visit_sprites_keeps_values(p.sprites, spec_visit_sprite(p.stage, initial_state(SEED)).1);
}

} // verus!
