//! Kernel Erlang as a typed tree: the expressions that function bodies are
//! made of, and the module that holds the functions.

use vstd::prelude::*;
use crate::erl_types::{MFA, MfaV};
use crate::fterm::{FTerm, TermV};

pub mod laws;
pub mod lower;
pub mod parse;
pub mod registry;

verus! {

/// A node of Kernel Erlang. Where a node has an `anno` field, it holds the
/// annotation of the tuple that the node was read from, unchanged.
#[derive(Debug, PartialEq, Eq)]
pub enum Expr {
    // Logic and actions
    Match(Box<KMatch>),
    Sequence(Box<KSeq>),
    Alt(KAlt),
    Enter(Box<KEnter>),
    Return(KReturn),
    Select(Box<KSelect>),
    Guard(KGuard),
    GuardBreak { anno: FTerm, args: Vec<Expr> },
    MultipleExprs(Vec<Expr>),
    Bif(Box<KCall>),
    Call(Box<KCall>),
    Put { anno: FTerm, arg: Box<Expr>, ret: Box<Expr> },
    Protected { anno: FTerm, arg: Box<Expr>, ret: Box<Expr> },
    Test { anno: FTerm, op: Box<FunRef>, args: Vec<Expr>, inverted: bool },
    GuardMatch(Box<KMatch>),
    // Values, literals, constructors and constants
    Atom(String),
    Int64(i64),
    Variable(String),
    Nil,
    Tuple { anno: FTerm, elements: Vec<Expr> },
    Value { anno: FTerm, val: FTerm },
    Cons { anno: FTerm, hd: Box<Expr>, tl: Box<Expr> },
    ConstructBinary { anno: FTerm, segments: Option<Box<KBinarySegment>> },
}

/// One segment of a binary under construction, and the segments after it.
#[derive(Debug, PartialEq, Eq)]
pub struct KBinarySegment {
    pub anno: FTerm,
    pub size: Expr,
    pub unit: u32,
    pub seg_type: String,
    pub flags: Vec<String>,
    pub seg: Expr,
    pub next: Option<Box<KBinarySegment>>,
}

/// What a call or a tail call is made to.
#[derive(Debug, PartialEq, Eq)]
pub enum FunRef {
    MFArity { m: Expr, f: Expr, arity: Expr },
    FArity { f: Expr, arity: Expr },
    Bif(Box<KCall>),
    Internal(MFA),
}

/// A call: the function called, the arguments, and where the results
/// go.
#[derive(Debug, PartialEq, Eq)]
pub struct KCall {
    pub anno: FTerm,
    pub op: FunRef,
    pub args: Vec<Expr>,
    pub ret: Vec<Expr>,
}

/// A match: the variables it binds, the body, and what it returns.
#[derive(Debug, PartialEq, Eq)]
pub struct KMatch {
    pub anno: FTerm,
    pub vars: Vec<Expr>,
    pub body: Box<Expr>,
    pub ret: Expr,
}

/// Two ways to go on: `first`, and `then` where `first` fails.
#[derive(Debug, PartialEq, Eq)]
pub struct KAlt {
    pub anno: FTerm,
    pub first: Box<Expr>,
    pub then: Box<Expr>,
}

/// A tail call.
#[derive(Debug, PartialEq, Eq)]
pub struct KEnter {
    pub anno: FTerm,
    pub op: FunRef,
    pub args: Vec<Expr>,
}

/// The return of values from a function.
#[derive(Debug, PartialEq, Eq)]
pub struct KReturn {
    pub anno: FTerm,
    pub args: Vec<Expr>,
}

/// One value that a type clause of a `Select` matches, and what is
/// evaluated when it does.
#[derive(Debug, PartialEq, Eq)]
pub struct KValClause {
    pub anno: FTerm,
    pub val: Expr,
    pub body: Expr,
}

/// The clauses of a `Select` for the values of one type, in the order in
/// which they are tried.
#[derive(Debug, PartialEq, Eq)]
pub struct KTypeClause {
    pub anno: FTerm,
    pub type_tag: String,
    pub values: Vec<KValClause>,
}

/// Dispatch on the type, then on the value, of `var`. The type clauses
/// stand in the order in which they are tried.
#[derive(Debug, PartialEq, Eq)]
pub struct KSelect {
    pub anno: FTerm,
    pub var: Expr,
    pub types: Vec<KTypeClause>,
}

/// `arg`, and after it `body`.
#[derive(Debug, PartialEq, Eq)]
pub struct KSeq {
    pub anno: FTerm,
    pub arg: Expr,
    pub body: Expr,
}

/// One clause of a guard: the test, and what is evaluated where it holds.
#[derive(Debug, PartialEq, Eq)]
pub struct KGuardClause {
    pub anno: FTerm,
    pub guard: Expr,
    pub body: Expr,
}

/// A guard: its clauses in the order in which they are tried.
#[derive(Debug, PartialEq, Eq)]
pub struct KGuard {
    pub anno: FTerm,
    pub clauses: Vec<KGuardClause>,
}

/// Mathematical value of an [`Expr`].
pub enum ExprV {
    Match(Box<KMatchV>),
    Sequence(Box<KSeqV>),
    Alt(KAltV),
    Enter(Box<KEnterV>),
    Return(KReturnV),
    Select(Box<KSelectV>),
    Guard(KGuardV),
    GuardBreak { anno: TermV, args: Seq<ExprV> },
    MultipleExprs(Seq<ExprV>),
    Bif(Box<KCallV>),
    Call(Box<KCallV>),
    Put { anno: TermV, arg: Box<ExprV>, ret: Box<ExprV> },
    Protected { anno: TermV, arg: Box<ExprV>, ret: Box<ExprV> },
    Test { anno: TermV, op: Box<FunRefV>, args: Seq<ExprV>, inverted: bool },
    GuardMatch(Box<KMatchV>),
    Atom(Seq<char>),
    Int64(i64),
    Variable(Seq<char>),
    Nil,
    Tuple { anno: TermV, elements: Seq<ExprV> },
    Value { anno: TermV, val: TermV },
    Cons { anno: TermV, hd: Box<ExprV>, tl: Box<ExprV> },
    ConstructBinary { anno: TermV, segments: Option<Box<KBinarySegmentV>> },
}

/// Mathematical value of a [`KBinarySegment`].
pub struct KBinarySegmentV {
    pub anno: TermV,
    pub size: ExprV,
    pub unit: u32,
    pub seg_type: Seq<char>,
    pub flags: Seq<Seq<char>>,
    pub seg: ExprV,
    pub next: Option<Box<KBinarySegmentV>>,
}

/// Mathematical value of a [`FunRef`].
pub enum FunRefV {
    MFArity { m: ExprV, f: ExprV, arity: ExprV },
    FArity { f: ExprV, arity: ExprV },
    Bif(Box<KCallV>),
    Internal(MfaV),
}

/// Mathematical value of a [`KCall`].
pub struct KCallV {
    pub anno: TermV,
    pub op: FunRefV,
    pub args: Seq<ExprV>,
    pub ret: Seq<ExprV>,
}

/// Mathematical value of a [`KMatch`].
pub struct KMatchV {
    pub anno: TermV,
    pub vars: Seq<ExprV>,
    pub body: Box<ExprV>,
    pub ret: ExprV,
}

/// Mathematical value of a [`KAlt`].
pub struct KAltV {
    pub anno: TermV,
    pub first: Box<ExprV>,
    pub then: Box<ExprV>,
}

/// Mathematical value of a [`KEnter`].
pub struct KEnterV {
    pub anno: TermV,
    pub op: FunRefV,
    pub args: Seq<ExprV>,
}

/// Mathematical value of a [`KReturn`].
pub struct KReturnV {
    pub anno: TermV,
    pub args: Seq<ExprV>,
}

/// Mathematical value of a [`KValClause`].
pub struct KValClauseV {
    pub anno: TermV,
    pub val: ExprV,
    pub body: ExprV,
}

/// Mathematical value of a [`KTypeClause`].
pub struct KTypeClauseV {
    pub anno: TermV,
    pub type_tag: Seq<char>,
    pub values: Seq<KValClauseV>,
}

/// Mathematical value of a [`KSelect`].
pub struct KSelectV {
    pub anno: TermV,
    pub var: ExprV,
    pub types: Seq<KTypeClauseV>,
}

/// Mathematical value of a [`KSeq`].
pub struct KSeqV {
    pub anno: TermV,
    pub arg: ExprV,
    pub body: ExprV,
}

/// Mathematical value of a [`KGuardClause`].
pub struct KGuardClauseV {
    pub anno: TermV,
    pub guard: ExprV,
    pub body: ExprV,
}

/// Mathematical value of a [`KGuard`].
pub struct KGuardV {
    pub anno: TermV,
    pub clauses: Seq<KGuardClauseV>,
}

/// Values of a sequence of expressions, element by element.
pub open spec fn expr_views(s: Seq<Expr>) -> Seq<ExprV>
    decreases s,
{
    Seq::new(
        s.len(),
        |i: int|
            if 0 <= i < s.len() {
                expr_view(s[i])
            } else {
                ExprV::Nil
            },
    )
}

/// Values of a sequence of value clauses, element by element.
pub open spec fn val_clause_views(s: Seq<KValClause>) -> Seq<KValClauseV>
    decreases s,
{
    Seq::new(
        s.len(),
        |i: int|
            if 0 <= i < s.len() {
                KValClauseV {
                    anno: s[i].anno@,
                    val: expr_view(s[i].val),
                    body: expr_view(s[i].body),
                }
            } else {
                arbitrary()
            },
    )
}

/// Values of a sequence of type clauses, element by element.
pub open spec fn type_clause_views(s: Seq<KTypeClause>) -> Seq<KTypeClauseV>
    decreases s,
{
    Seq::new(
        s.len(),
        |i: int|
            if 0 <= i < s.len() {
                KTypeClauseV {
                    anno: s[i].anno@,
                    type_tag: s[i].type_tag@,
                    values: val_clause_views(s[i].values@),
                }
            } else {
                arbitrary()
            },
    )
}

/// Values of a sequence of guard clauses, element by element.
pub open spec fn guard_clause_views(s: Seq<KGuardClause>) -> Seq<KGuardClauseV>
    decreases s,
{
    Seq::new(
        s.len(),
        |i: int|
            if 0 <= i < s.len() {
                KGuardClauseV {
                    anno: s[i].anno@,
                    guard: expr_view(s[i].guard),
                    body: expr_view(s[i].body),
                }
            } else {
                arbitrary()
            },
    )
}

/// The character sequences of a sequence of strings.
pub open spec fn string_views(s: Seq<String>) -> Seq<Seq<char>> {
    Seq::new(s.len(), |i: int| s[i]@)
}

/// Value of a call.
pub open spec fn call_view(k: KCall) -> KCallV {
    KCallV {
        anno: k.anno@,
        op: funref_view(k.op),
        args: expr_views(k.args@),
        ret: expr_views(k.ret@),
    }
}

/// Value of a match.
pub open spec fn match_view(k: KMatch) -> KMatchV {
    KMatchV {
        anno: k.anno@,
        vars: expr_views(k.vars@),
        body: Box::new(expr_view(*k.body)),
        ret: expr_view(k.ret),
    }
}

/// Value of an expression.
pub open spec fn expr_view(e: Expr) -> ExprV
    decreases e,
{
    match e {
        Expr::Match(k) => ExprV::Match(
            Box::new(
                KMatchV {
                    anno: k.anno@,
                    vars: expr_views(k.vars@),
                    body: Box::new(expr_view(*k.body)),
                    ret: expr_view(k.ret),
                },
            ),
        ),
        Expr::Sequence(k) => ExprV::Sequence(
            Box::new(KSeqV { anno: k.anno@, arg: expr_view(k.arg), body: expr_view(k.body) }),
        ),
        Expr::Alt(KAlt { anno, first, then }) => ExprV::Alt(
            KAltV {
                anno: anno@,
                first: Box::new(expr_view(*first)),
                then: Box::new(expr_view(*then)),
            },
        ),
        Expr::Enter(k) => ExprV::Enter(
            Box::new(KEnterV { anno: k.anno@, op: funref_view(k.op), args: expr_views(k.args@) }),
        ),
        Expr::Return(k) => ExprV::Return(KReturnV { anno: k.anno@, args: expr_views(k.args@) }),
        Expr::Select(k) => ExprV::Select(
            Box::new(
                KSelectV {
                    anno: k.anno@,
                    var: expr_view(k.var),
                    types: type_clause_views(k.types@),
                },
            ),
        ),
        Expr::Guard(k) => ExprV::Guard(
            KGuardV { anno: k.anno@, clauses: guard_clause_views(k.clauses@) },
        ),
        Expr::GuardBreak { anno, args } => ExprV::GuardBreak {
            anno: anno@,
            args: expr_views(args@),
        },
        Expr::MultipleExprs(es) => ExprV::MultipleExprs(expr_views(es@)),
        Expr::Bif(k) => ExprV::Bif(
            Box::new(
                KCallV {
                    anno: k.anno@,
                    op: funref_view(k.op),
                    args: expr_views(k.args@),
                    ret: expr_views(k.ret@),
                },
            ),
        ),
        Expr::Call(k) => ExprV::Call(
            Box::new(
                KCallV {
                    anno: k.anno@,
                    op: funref_view(k.op),
                    args: expr_views(k.args@),
                    ret: expr_views(k.ret@),
                },
            ),
        ),
        Expr::Put { anno, arg, ret } => ExprV::Put {
            anno: anno@,
            arg: Box::new(expr_view(*arg)),
            ret: Box::new(expr_view(*ret)),
        },
        Expr::Protected { anno, arg, ret } => ExprV::Protected {
            anno: anno@,
            arg: Box::new(expr_view(*arg)),
            ret: Box::new(expr_view(*ret)),
        },
        Expr::Test { anno, op, args, inverted } => ExprV::Test {
            anno: anno@,
            op: Box::new(funref_view(*op)),
            args: expr_views(args@),
            inverted,
        },
        Expr::GuardMatch(k) => ExprV::GuardMatch(
            Box::new(
                KMatchV {
                    anno: k.anno@,
                    vars: expr_views(k.vars@),
                    body: Box::new(expr_view(*k.body)),
                    ret: expr_view(k.ret),
                },
            ),
        ),
        Expr::Atom(s) => ExprV::Atom(s@),
        Expr::Int64(i) => ExprV::Int64(i),
        Expr::Variable(s) => ExprV::Variable(s@),
        Expr::Nil => ExprV::Nil,
        Expr::Tuple { anno, elements } => ExprV::Tuple {
            anno: anno@,
            elements: expr_views(elements@),
        },
        Expr::Value { anno, val } => ExprV::Value { anno: anno@, val: val@ },
        Expr::Cons { anno, hd, tl } => ExprV::Cons {
            anno: anno@,
            hd: Box::new(expr_view(*hd)),
            tl: Box::new(expr_view(*tl)),
        },
        Expr::ConstructBinary { anno, segments } => ExprV::ConstructBinary {
            anno: anno@,
            segments: segments_view(segments),
        },
    }
}

/// Value of the segments of a binary.
pub open spec fn segments_view(s: Option<Box<KBinarySegment>>) -> Option<Box<KBinarySegmentV>>
    decreases s,
{
    match s {
        Some(seg) => Some(
            Box::new(
                KBinarySegmentV {
                    anno: seg.anno@,
                    size: expr_view(seg.size),
                    unit: seg.unit,
                    seg_type: seg.seg_type@,
                    flags: string_views(seg.flags@),
                    seg: expr_view(seg.seg),
                    next: segments_view(seg.next),
                },
            ),
        ),
        None => None,
    }
}

/// Value of a function reference.
pub open spec fn funref_view(f: FunRef) -> FunRefV
    decreases f,
{
    match f {
        FunRef::MFArity { m, f, arity } => FunRefV::MFArity {
            m: expr_view(m),
            f: expr_view(f),
            arity: expr_view(arity),
        },
        FunRef::FArity { f, arity } => FunRefV::FArity { f: expr_view(f), arity: expr_view(arity) },
        FunRef::Bif(k) => FunRefV::Bif(
            Box::new(
                KCallV {
                    anno: k.anno@,
                    op: funref_view(k.op),
                    args: expr_views(k.args@),
                    ret: expr_views(k.ret@),
                },
            ),
        ),
        FunRef::Internal(mfa) => FunRefV::Internal(mfa@),
    }
}

impl View for Expr {
    type V = ExprV;

    open spec fn view(&self) -> ExprV {
        expr_view(*self)
    }
}

impl View for FunRef {
    type V = FunRefV;

    open spec fn view(&self) -> FunRefV {
        funref_view(*self)
    }
}

impl View for KCall {
    type V = KCallV;

    open spec fn view(&self) -> KCallV {
        call_view(*self)
    }
}

impl View for KMatch {
    type V = KMatchV;

    open spec fn view(&self) -> KMatchV {
        match_view(*self)
    }
}

impl View for KValClause {
    type V = KValClauseV;

    open spec fn view(&self) -> KValClauseV {
        KValClauseV { anno: self.anno@, val: self.val@, body: self.body@ }
    }
}

impl View for KTypeClause {
    type V = KTypeClauseV;

    open spec fn view(&self) -> KTypeClauseV {
        KTypeClauseV {
            anno: self.anno@,
            type_tag: self.type_tag@,
            values: val_clause_views(self.values@),
        }
    }
}

impl View for KGuardClause {
    type V = KGuardClauseV;

    open spec fn view(&self) -> KGuardClauseV {
        KGuardClauseV { anno: self.anno@, guard: self.guard@, body: self.body@ }
    }
}

} // verus!
