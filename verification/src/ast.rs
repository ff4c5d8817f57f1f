//! The syntax tree of a goboscript sprite.
//!
//! Names, strings and number literals are kept as byte spans of the source
//! they were read from, so that every node is a plain value that specification
//! code can build and compare.  Sequences are immutable linked lists.
use vstd::prelude::*;

verus! {

/// A half-open byte range `start..end` of a source text.
#[derive(Clone, Copy, Debug, PartialEq, Eq)]
pub struct Span {
    pub start: usize,
    pub end: usize,
}

/// An immutable linked list, kept in source order.
#[derive(Debug)]
pub enum List<T> {
    Nil,
    Cons(T, Box<List<T>>),
}

impl<T> List<T> {
    /// The list followed by `other`.
    pub open spec fn append(self, other: List<T>) -> List<T>
        decreases self,
    {
        match self {
            List::Nil => other,
            List::Cons(x, rest) => List::Cons(x, Box::new(rest.append(other))),
        }
    }
}

/// A number as it stands in the tree.
#[derive(Debug)]
pub enum Number {
    /// A literal of the source, with its exact value `num / den` as digit
    /// lists (see `crate::digits`).
    Literal { span: Span, num: List<u16>, den: List<u16> },
    /// A whole number that has no text of its own (the `1` of `i++`, or a
    /// number chosen by the obfuscation pass).
    Int(u32),
    /// A number computed from `base` and the whole number `r`.
    Derived { kind: Derivation, base: Box<Number>, r: u32 },
}

/// How a derived number is computed from its base `n` and the whole number `r`.
#[derive(Clone, Copy, Debug, PartialEq, Eq)]
pub enum Derivation {
    /// `r / n`
    RDivN,
    /// `r - n`
    RSubN,
    /// `n - r`
    NSubR,
    /// `n * r`
    NMulR,
    /// `n + r`
    NAddR,
}

#[derive(Debug)]
pub enum Value {
    Number(Number),
    /// A string literal, quotes included; see `crate::lexer::string_value`.
    Str(Span),
    Bool(bool),
}

#[derive(Clone, Copy, Debug, PartialEq, Eq)]
pub enum UnOp {
    Not,
    Minus,
    Round,
    Abs,
    Floor,
    Ceil,
    Sqrt,
    Sin,
    Cos,
    Tan,
    Asin,
    Acos,
    Atan,
    Ln,
    Log,
    Antiln,
    Antilog,
    Length,
}

#[derive(Clone, Copy, Debug, PartialEq, Eq)]
pub enum BinOp {
    Add,
    Sub,
    Mul,
    Div,
    FloorDiv,
    Mod,
    Join,
    Eq,
    Ne,
    Lt,
    Le,
    Gt,
    Ge,
    And,
    Or,
    In,
}

/// A named argument `name: value` of a call.
#[derive(Debug)]
pub struct Kwarg {
    pub name: Span,
    pub value: Expr,
}

/// A field `name: value` of a struct literal.
#[derive(Debug)]
pub struct FieldValue {
    pub name: Span,
    pub value: Expr,
}

/// The reporters of the standard library, written as calls.
#[derive(Clone, Copy, Debug, PartialEq, Eq)]
pub enum Repr {
    Random,
    Timer,
    Answer,
    MouseX,
    MouseY,
    XPosition,
    YPosition,
    Direction,
}

#[derive(Debug)]
pub enum Expr {
    Value { value: Value, span: Span },
    /// A variable or list name.
    Name(Span),
    /// `lhs.rhs`: a struct field or an enum variant.
    Dot { lhs: Box<Expr>, rhs: Span, span: Span },
    /// `$name`: an argument of the enclosing function.
    Arg(Span),
    /// A reporter of the standard library.
    Repr { repr: Repr, args: Box<List<Expr>>, span: Span },
    /// A call of a function of the sprite.
    FuncCall { name: Span, args: Box<List<Expr>>, kwargs: Box<List<Kwarg>>, span: Span },
    UnOp { op: UnOp, opr: Box<Expr>, span: Span },
    BinOp { op: BinOp, lhs: Box<Expr>, rhs: Box<Expr>, span: Span },
    StructLiteral { name: Span, fields: Box<List<FieldValue>>, span: Span },
    /// A property `property` of the object `object`, such as a sprite's
    /// position; later stages of the compiler write it.
    Property { object: Box<Expr>, property: Span, span: Span },
}

/// The statement blocks of the standard library.
#[derive(Clone, Copy, Debug, PartialEq, Eq)]
pub enum Block {
    Say,
    Think,
    Wait,
    Broadcast,
    BroadcastAndWait,
    StopAll,
    StopThisScript,
    StopOtherScripts,
    Clone,
    DeleteThisClone,
    Move,
    TurnLeft,
    TurnRight,
    SetX,
    SetY,
    ChangeX,
    ChangeY,
}

#[derive(Debug)]
pub enum Stmt {
    Repeat { times: Expr, body: Box<List<Stmt>> },
    Forever { body: Box<List<Stmt>>, span: Span },
    Branch { cond: Expr, if_body: Box<List<Stmt>>, else_body: Box<List<Stmt>> },
    /// Runs `body` until `cond` holds; `while c { .. }` is `Until` with `!c`.
    Until { cond: Expr, body: Box<List<Stmt>> },
    /// `name = value;`, or `let name = value;` when `is_local`.
    SetVar { name: Span, value: Expr, ty: Option<Span>, is_local: bool },
    /// `name += value;`
    ChangeVar { name: Span, value: Expr },
    Show(Span),
    Hide(Span),
    /// `add value to list;`
    AddToList { list: Span, value: Expr },
    DeleteList(Span),
    DeleteListIndex { list: Span, index: Expr },
    InsertAtList { list: Span, index: Expr, value: Expr },
    SetListIndex { list: Span, index: Expr, value: Expr },
    Block { block: Block, args: Box<List<Expr>>, kwargs: Box<List<Kwarg>>, span: Span },
    ProcCall { name: Span, args: Box<List<Expr>>, kwargs: Box<List<Kwarg>>, span: Span },
    /// A call of a function of the sprite whose result is dropped; later
    /// stages of the compiler write it in place of a `ProcCall`.
    FuncCall { name: Span, args: Box<List<Expr>>, kwargs: Box<List<Kwarg>>, span: Span },
    Return { value: Expr, span: Span },
}

#[derive(Debug)]
pub struct VarDecl {
    pub name: Span,
    pub ty: Option<Span>,
    pub default: Option<Expr>,
}

#[derive(Debug)]
pub struct ListDecl {
    pub name: Span,
    pub ty: Option<Span>,
}

#[derive(Debug)]
pub struct StructDecl {
    pub name: Span,
    pub fields: List<Span>,
}

#[derive(Debug)]
pub struct EnumDecl {
    pub name: Span,
    pub variants: List<Span>,
}

/// A function without a return type.
#[derive(Debug)]
pub struct Proc {
    pub name: Span,
    pub args: List<Span>,
    pub warp: bool,
    pub body: List<Stmt>,
}

/// A function with a return type.
#[derive(Debug)]
pub struct Func {
    pub name: Span,
    pub args: List<Span>,
    pub warp: bool,
    pub ty: Span,
    pub body: List<Stmt>,
}

#[derive(Clone, Copy, Debug, PartialEq, Eq)]
pub enum EventKind {
    OnFlag,
    OnClick,
    OnClone,
    /// The key name, a string literal.
    OnKey(Span),
    /// The message name, a string literal.
    OnBroadcast(Span),
    /// The backdrop name, a string literal.
    OnBackdrop(Span),
}

#[derive(Debug)]
pub struct Event {
    pub kind: EventKind,
    pub body: List<Stmt>,
}

/// Everything declared in one source file, each kind in source order.
#[derive(Debug)]
pub struct Sprite {
    pub costumes: List<Span>,
    pub sounds: List<Span>,
    pub variables: List<VarDecl>,
    pub lists: List<ListDecl>,
    pub structs: List<StructDecl>,
    pub enums: List<EnumDecl>,
    pub procs: List<Proc>,
    pub funcs: List<Func>,
    pub events: List<Event>,
}

impl Sprite {
    pub open spec fn spec_empty() -> Sprite {
        Sprite {
            costumes: List::Nil,
            sounds: List::Nil,
            variables: List::Nil,
            lists: List::Nil,
            structs: List::Nil,
            enums: List::Nil,
            procs: List::Nil,
            funcs: List::Nil,
            events: List::Nil,
        }
    }

    /// A sprite that declares nothing.
    pub fn empty() -> (s: Sprite)
        ensures
            s == Sprite::spec_empty(),
    {
        Sprite {
            costumes: List::Nil,
            sounds: List::Nil,
            variables: List::Nil,
            lists: List::Nil,
            structs: List::Nil,
            enums: List::Nil,
            procs: List::Nil,
            funcs: List::Nil,
            events: List::Nil,
        }
    }
}

/// A sprite of a project with its name.
#[derive(Debug)]
pub struct NamedSprite {
    pub name: String,
    pub sprite: Sprite,
}

/// A whole project: the stage and the other sprites.
#[derive(Debug)]
pub struct Project {
    pub stage: Sprite,
    pub sprites: List<NamedSprite>,
}

} // verus!
