//! Lowering of a Kernel module, given as a term, to the typed tree.
//!
//! Each function here computes what the spec function of
//! [`crate::kernel::lower`] named in its contract says, and fails as that
//! function says.

use vstd::prelude::*;
use crate::erl_types::{mfa_views, MFA, MfaV};
use crate::fterm::{elements, term_views, FTerm, TermV};
use crate::kernel::lower::{
    arity_of, atom_of, atom_outcomes, atoms_of, bool_of, collect, form_arity, form_outcomes,
    fun_outcomes, guard_clause_outcomes, has_tag, int_of, is_call_form, is_record,
    lemma_collect_failure,
    lemma_collect_values, lower_call, lower_expr, lower_expr_list, lower_fields, lower_form,
    lower_forms, lower_fun, lower_funref, lower_funs, lower_guard_clause, lower_internal,
    lower_mfa, lower_mfa_list, lower_module, lower_module_head, lower_ret, lower_segment,
    lower_type_clause, lower_type_clauses, lower_val_clause, lower_val_clauses, mfa_outcomes,
    outcome, tag_named, type_clause_outcomes, unit_of, val_clause_outcomes, LowerError,
    LowerErrorV, Shape, Tag,
};
use crate::kernel::registry::{with_funs, FunDef, FunDefV, Module, ModuleV};
use crate::kernel::{
    segments_view, expr_views, guard_clause_views, string_views, type_clause_views, val_clause_views, Expr, ExprV,
    FunRef, KAlt, KBinarySegment, KBinarySegmentV, KCall, KEnter, KGuard, KGuardClause,
    KGuardClauseV, KMatch, KReturn, KSelect, KSeq, KTypeClause, KTypeClauseV, KValClause,
    KValClauseV,
};
use crate::text::push_int;

verus! {

/// The outcome of lowering a sequence of expressions as a mathematical
/// value.
pub open spec fn exprs_outcome(r: Result<Vec<Expr>, LowerError>) -> Result<Seq<ExprV>, LowerErrorV> {
    match r {
        Ok(v) => Ok(expr_views(v@)),
        Err(e) => Err(e@),
    }
}

/// The outcome of lowering a sequence of value clauses as a mathematical
/// value.
pub open spec fn val_clauses_outcome(r: Result<Vec<KValClause>, LowerError>) -> Result<
    Seq<KValClauseV>,
    LowerErrorV,
> {
    match r {
        Ok(v) => Ok(val_clause_views(v@)),
        Err(e) => Err(e@),
    }
}

/// The outcome of lowering a sequence of type clauses as a mathematical
/// value.
pub open spec fn type_clauses_outcome(r: Result<Vec<KTypeClause>, LowerError>) -> Result<
    Seq<KTypeClauseV>,
    LowerErrorV,
> {
    match r {
        Ok(v) => Ok(type_clause_views(v@)),
        Err(e) => Err(e@),
    }
}

/// The outcome of lowering a sequence of guard clauses as a mathematical
/// value.
pub open spec fn guard_clauses_outcome(r: Result<Vec<KGuardClause>, LowerError>) -> Result<
    Seq<KGuardClauseV>,
    LowerErrorV,
> {
    match r {
        Ok(v) => Ok(guard_clause_views(v@)),
        Err(e) => Err(e@),
    }
}

/// The outcome of reading a list of atoms as a mathematical value.
pub open spec fn strings_outcome(r: Result<Vec<String>, LowerError>) -> Result<
    Seq<Seq<char>>,
    LowerErrorV,
> {
    match r {
        Ok(v) => Ok(string_views(v@)),
        Err(e) => Err(e@),
    }
}

/// The outcome of lowering a list of function references as a
/// mathematical value.
pub open spec fn mfas_outcome(r: Result<Vec<MFA>, LowerError>) -> Result<Seq<MfaV>, LowerErrorV> {
    match r {
        Ok(v) => Ok(mfa_views(v@)),
        Err(e) => Err(e@),
    }
}

/// The outcome of lowering the segments of a binary as a mathematical
/// value.
pub open spec fn segments_outcome(r: Result<Option<Box<KBinarySegment>>, LowerError>) -> Result<
    Option<Box<KBinarySegmentV>>,
    LowerErrorV,
> {
    match r {
        Ok(s) => Ok(segments_view(s)),
        Err(e) => Err(e@),
    }
}

/// The failure to find `shape` where `got` stands.
fn fail<T>(shape: Shape, got: &FTerm) -> (r: Result<T, LowerError>)
    ensures
        r is Err,
        r->Err_0@ == (LowerErrorV::Expected { shape, got: got@ }),
{
    Err(LowerError::Expected { shape, got: got.clone() })
}

/// The elements of a tuple.
fn fields(t: &FTerm) -> (v: &Vec<FTerm>)
    requires
        t@ is Tuple,
    ensures
        *t == FTerm::Tuple(*v),
        term_views(v@) == elements(t@),
        v@.len() == elements(t@).len(),
        forall|i: int| 0 <= i < v@.len() ==> #[trigger] elements(t@)[i] == v@[i]@,
{
    match t {
        FTerm::Tuple(v) => {
            assert(term_views(v@).len() == v@.len());
            v
        },
        _ => vstd::pervasive::unreached(),
    }
}

/// The text of an atom, or the failure to find one.
pub fn as_atom(t: &FTerm) -> (r: Result<String, LowerError>)
    ensures
        outcome(r) == atom_of(t@),
{
    match t {
        FTerm::Atom(s) => Ok(s.clone()),
        _ => fail(Shape::Atom, t),
    }
}

/// The number of an integer term, or the failure to find one.
pub fn as_int(t: &FTerm) -> (r: Result<i64, LowerError>)
    ensures
        outcome(r) == int_of(t@),
{
    match t {
        FTerm::Int64(i) => Ok(*i),
        _ => fail(Shape::Integer, t),
    }
}

/// The arity that an integer term holds, or the failure to find one.
pub fn as_arity(t: &FTerm) -> (r: Result<usize, LowerError>)
    ensures
        outcome(r) == arity_of(t@),
{
    match t {
        FTerm::Int64(i) => {
            if *i >= 0 && (*i as u64) <= (usize::MAX as u64) {
                Ok(*i as usize)
            } else {
                fail(Shape::Arity, t)
            }
        },
        _ => fail(Shape::Arity, t),
    }
}

/// The unit of a binary segment, or the failure to find one.
pub fn as_unit(t: &FTerm) -> (r: Result<u32, LowerError>)
    ensures
        outcome(r) == unit_of(t@),
{
    match t {
        FTerm::Int64(i) => {
            if *i >= 0 && *i <= 4294967295 {
                Ok(*i as u32)
            } else {
                fail(Shape::Unit, t)
            }
        },
        _ => fail(Shape::Unit, t),
    }
}

/// The truth value that `true` or `false` names, or the failure to find
/// one of the two.
pub fn as_bool(t: &FTerm) -> (r: Result<bool, LowerError>)
    ensures
        outcome(r) == bool_of(t@),
{
    if t.is_atom_of("true") {
        Ok(true)
    } else if t.is_atom_of("false") {
        Ok(false)
    } else {
        fail(Shape::Boolean, t)
    }
}

/// Whether `t` is a tuple of `n` elements whose first is the atom `name`.
fn is_tuple_record(t: &FTerm, name: &str, n: usize) -> (r: bool)
    ensures
        r == (t@ is Tuple && is_record(t@, name@, n as nat)),
{
    match t {
        FTerm::Tuple(v) => {
            assert(term_views(v@).len() == v@.len());
            n > 0 && v.len() == n && v[0].is_atom_of(name)
        },
        _ => false,
    }
}

/// Whether `t` is a list or a tuple of `n` elements whose first is the
/// atom `name`. Hands out the elements with the answer.
fn record_fields<'a>(t: &'a FTerm, name: &str, n: usize) -> (r: Option<&'a Vec<FTerm>>)
    ensures
        r is Some == is_record(t@, name@, n as nat),
        r is Some ==> term_views(r->Some_0@) == elements(t@) && r->Some_0@.len() == n && (*t
            == FTerm::Tuple(*r->Some_0) || *t == FTerm::List(*r->Some_0)),
        r is Some ==> forall|i: int|
            0 <= i < n ==> #[trigger] elements(t@)[i] == r->Some_0@[i]@,
{
    match t {
        FTerm::Tuple(v) => {
            assert(term_views(v@).len() == v@.len());
            if n > 0 && v.len() == n && v[0].is_atom_of(name) {
                Some(v)
            } else {
                None
            }
        },
        FTerm::List(v) => {
            assert(term_views(v@).len() == v@.len());
            if n > 0 && v.len() == n && v[0].is_atom_of(name) {
                Some(v)
            } else {
                None
            }
        },
        _ => None,
    }
}

/// The form that a tag stands for.
pub fn tag_of(name: &str) -> (tag: Tag)
    ensures
        tag == tag_named(name@),
{
    if name.eq("k_var") {
        Tag::Var
    } else if name.eq("k_bif") {
        Tag::Bif
    } else if name.eq("k_atom") {
        Tag::Atom
    } else if name.eq("k_int") {
        Tag::Int
    } else if name.eq("k_call") {
        Tag::Call
    } else if name.eq("k_literal") {
        Tag::Literal
    } else if name.eq("k_put") {
        Tag::Put
    } else if name.eq("k_cons") {
        Tag::Cons
    } else if name.eq("k_nil") {
        Tag::Nil
    } else if name.eq("k_protected") {
        Tag::Protected
    } else if name.eq("k_test") {
        Tag::Test
    } else if name.eq("k_guard_match") {
        Tag::GuardMatch
    } else if name.eq("k_tuple") {
        Tag::Tuple
    } else if name.eq("k_binary") {
        Tag::Binary
    } else if name.eq("k_match") {
        Tag::Match
    } else if name.eq("k_seq") {
        Tag::Sequence
    } else if name.eq("k_alt") {
        Tag::Alt
    } else if name.eq("k_enter") {
        Tag::Enter
    } else if name.eq("k_return") {
        Tag::Return
    } else if name.eq("k_select") {
        Tag::Select
    } else if name.eq("k_guard") {
        Tag::Guard
    } else if name.eq("k_guard_break") {
        Tag::GuardBreak
    } else if name.eq("k_try") || name.eq("k_try_enter") || name.eq("k_catch") || name.eq(
        "k_receive",
    ) || name.eq("k_receive_accept") || name.eq("k_receive_next") || name.eq("k_break") {
        Tag::Unsupported
    } else {
        Tag::Unknown
    }
}

/// The number of elements that the tuple of a form has.
pub fn arity_of_form(tag: Tag) -> (n: usize)
    ensures
        n == form_arity(tag),
{
    match tag {
        Tag::Nil => 2,
        Tag::Var | Tag::Atom | Tag::Int | Tag::Literal | Tag::Tuple | Tag::Binary | Tag::Return
        | Tag::Guard | Tag::GuardBreak => 3,
        Tag::Put | Tag::Cons | Tag::Protected | Tag::Sequence | Tag::Alt | Tag::Enter
        | Tag::Select => 4,
        Tag::Bif | Tag::Call | Tag::Test | Tag::GuardMatch | Tag::Match => 5,
        Tag::Unsupported | Tag::Unknown => 0,
    }
}

/// Lowers an expression.
pub fn parse_expr(expr: &FTerm) -> (r: Result<Expr, LowerError>)
    ensures
        outcome(r) == lower_expr(expr@),
    decreases expr, 4int,
{
    match expr {
        FTerm::Int64(i) => Ok(Expr::Int64(*i)),
        FTerm::Atom(s) => Ok(Expr::Atom(s.clone())),
        FTerm::List(_) | FTerm::EmptyList => {
            let es = parse_expr_list(expr)?;
            Ok(Expr::MultipleExprs(es))
        },
        _ => parse_form(expr),
    }
}

/// Lowers a list of forms.
pub fn parse_expr_list(vars: &FTerm) -> (r: Result<Vec<Expr>, LowerError>)
    ensures
        exprs_outcome(r) == lower_expr_list(vars@),
    decreases vars, 3int,
{
    match vars {
        FTerm::List(v) => parse_forms(v),
        FTerm::EmptyList => {
            let out: Vec<Expr> = Vec::new();
            assert(expr_views(out@) =~= Seq::<ExprV>::empty());
            Ok(out)
        },
        _ => fail(Shape::List, vars),
    }
}

/// Lowers each of the forms, in their order, up to the first that fails.
fn parse_forms(v: &Vec<FTerm>) -> (r: Result<Vec<Expr>, LowerError>)
    ensures
        exprs_outcome(r) == lower_forms(term_views(v@)),
    decreases v, 1int,
{
    let ghost rs = form_outcomes(term_views(v@));
    proof {
        assert(term_views(v@).len() == v@.len());
        assert(rs.len() == v@.len());
        assert forall|j: int| 0 <= j < v@.len() implies #[trigger] rs[j] == lower_form(v@[j]@) by {
            assert(term_views(v@)[j] == v@[j]@);
        }
    }
    let mut out: Vec<Expr> = Vec::new();
    let mut i: usize = 0;
    while i < v.len()
        invariant
            i <= v.len(),
            out.len() == i,
            rs == form_outcomes(term_views(v@)),
            rs.len() == v@.len(),
            forall|j: int| 0 <= j < v@.len() ==> #[trigger] rs[j] == lower_form(v@[j]@),
            forall|j: int| 0 <= j < i ==> #[trigger] rs[j] == Ok::<ExprV, LowerErrorV>(out@[j]@),
        decreases v.len() - i,
    {
        match parse_form(&v[i]) {
            Ok(e) => {
                out.push(e);
            },
            Err(e) => {
                proof {
                    assert(rs[i as int] == Err::<ExprV, LowerErrorV>(e@));
                    lemma_collect_failure(rs, i as int);
                }
                return Err(e);
            },
        }
        i += 1;
    }
    proof {
        let values = expr_views(out@);
        assert(values.len() == out@.len());
        assert forall|j: int| 0 <= j < rs.len() implies (#[trigger] rs[j]) is Ok && rs[j]->Ok_0
                == values[j] by {
            assert(values[j] == out@[j]@);
        }
        lemma_collect_values(rs, values);
    }
    Ok(out)
}

/// Lowers a form: a tuple that begins with the tag of the form and its
/// annotation.
pub fn parse_form(expr: &FTerm) -> (r: Result<Expr, LowerError>)
    ensures
        outcome(r) == lower_form(expr@),
    decreases expr, 2int,
{
    match expr {
        FTerm::Tuple(v) => {
            assert(term_views(v@).len() == v@.len());
            if v.len() == 0 {
                return fail(Shape::TaggedTuple, expr);
            }
            match &v[0] {
                FTerm::Atom(name) => {
                    let tag = tag_of(name.as_str());
                    match tag {
                        Tag::Unsupported => Err(LowerError::UnsupportedForm(name.clone())),
                        Tag::Unknown => Err(LowerError::UnknownTag(name.clone())),
                        _ => {
                            if v.len() != arity_of_form(tag) {
                                fail(Shape::Form, expr)
                            } else {
                                parse_fields(expr, tag)
                            }
                        },
                    }
                },
                other => fail(Shape::Atom, other),
            }
        },
        _ => fail(Shape::TaggedTuple, expr),
    }
}

/// Lowers the form `expr`, whose tag is `tag`.
fn parse_fields(expr: &FTerm, tag: Tag) -> (r: Result<Expr, LowerError>)
    requires
        has_tag(expr@, tag),
        elements(expr@).len() == form_arity(tag),
        tag != Tag::Unsupported,
        tag != Tag::Unknown,
    ensures
        outcome(r) == lower_fields(expr@, tag),
    decreases expr, 1int,
{
    let vvec = fields(expr);
    match tag {
        Tag::Var => {
            // {k_var, anno, name}
            match &vvec[2] {
                FTerm::Atom(s) => Ok(Expr::Variable(s.clone())),
                FTerm::Int64(i) => {
                    let mut name = String::new();
                    push_int(&mut name, *i);
                    assert(name@ =~= crate::text::int_text(*i as int));
                    Ok(Expr::Variable(name))
                },
                other => fail(Shape::VariableName, other),
            }
        },
        Tag::Bif => {
            let k = parse_kcall(expr)?;
            Ok(Expr::Bif(Box::new(k)))
        },
        Tag::Atom => {
            // {k_atom, anno, val}
            let s = as_atom(&vvec[2])?;
            Ok(Expr::Atom(s))
        },
        Tag::Int => {
            // {k_int, anno, val}
            let i = as_int(&vvec[2])?;
            Ok(Expr::Int64(i))
        },
        Tag::Call => {
            let k = parse_kcall(expr)?;
            Ok(Expr::Call(Box::new(k)))
        },
        Tag::Literal => {
            // {k_literal, anno, val}
            Ok(Expr::Value { anno: vvec[1].clone(), val: vvec[2].clone() })
        },
        Tag::Put => {
            // {k_put, anno, arg, ret}
            let arg = parse_expr(&vvec[2])?;
            let ret = parse_expr(&vvec[3])?;
            Ok(Expr::Put { anno: vvec[1].clone(), arg: Box::new(arg), ret: Box::new(ret) })
        },
        Tag::Cons => {
            // {k_cons, anno, hd, tl}
            let hd = parse_expr(&vvec[2])?;
            let tl = parse_expr(&vvec[3])?;
            Ok(Expr::Cons { anno: vvec[1].clone(), hd: Box::new(hd), tl: Box::new(tl) })
        },
        Tag::Nil => Ok(Expr::Nil),
        Tag::Protected => {
            // {k_protected, anno, arg, ret}
            let arg = parse_expr(&vvec[2])?;
            let ret = parse_expr(&vvec[3])?;
            Ok(Expr::Protected { anno: vvec[1].clone(), arg: Box::new(arg), ret: Box::new(ret) })
        },
        Tag::Test => {
            // {k_test, anno, op, args, inverted}
            let op = parse_funref(&vvec[2])?;
            let args = parse_expr_list(&vvec[3])?;
            let inverted = as_bool(&vvec[4])?;
            Ok(Expr::Test { anno: vvec[1].clone(), op: Box::new(op), args, inverted })
        },
        Tag::GuardMatch => {
            // {k_guard_match, anno, vars, body, ret}
            let vars = parse_expr_list(&vvec[2])?;
            let body = parse_expr(&vvec[3])?;
            let ret = parse_expr(&vvec[4])?;
            Ok(
                Expr::GuardMatch(
                    Box::new(KMatch { anno: vvec[1].clone(), vars, body: Box::new(body), ret }),
                ),
            )
        },
        Tag::Tuple => {
            // {k_tuple, anno, elements}
            let elements = parse_expr_list(&vvec[2])?;
            Ok(Expr::Tuple { anno: vvec[1].clone(), elements })
        },
        Tag::Binary => {
            // {k_binary, anno, segs}
            let segments = parse_segment(&vvec[2])?;
            Ok(Expr::ConstructBinary { anno: vvec[1].clone(), segments })
        },
        Tag::Match => parse_match(expr),
        Tag::Sequence => parse_seq(expr),
        Tag::Alt => parse_alt(expr),
        Tag::Enter => parse_enter(expr),
        Tag::Return => parse_return(expr),
        Tag::Select => parse_select(expr),
        Tag::Guard => parse_guard(expr),
        Tag::GuardBreak => parse_kguard_break(expr),
        Tag::Unsupported | Tag::Unknown => fail(Shape::Form, expr),
    }
}

/// Lowers what stands where a match returns.
fn parse_ret(ret: &FTerm) -> (r: Result<Expr, LowerError>)
    ensures
        outcome(r) == lower_ret(ret@),
{
    match ret {
        FTerm::EmptyList => Ok(Expr::Nil),
        _ => fail(Shape::NoReturnValue, ret),
    }
}

/// Lowers `{k_match, anno, vars, body, ret}`.
fn parse_match(kmatch: &FTerm) -> (r: Result<Expr, LowerError>)
    requires
        has_tag(kmatch@, Tag::Match),
        elements(kmatch@).len() == 5,
    ensures
        outcome(r) == lower_fields(kmatch@, Tag::Match),
    decreases kmatch, 0int,
{
    let match_vec = fields(kmatch);
    let body = parse_expr(&match_vec[3])?;
    let vars = parse_expr_list(&match_vec[2])?;
    let ret = parse_ret(&match_vec[4])?;
    let km = KMatch { anno: match_vec[1].clone(), vars, body: Box::new(body), ret };
    Ok(Expr::Match(Box::new(km)))
}

/// Lowers `{k_seq, anno, arg, body}`.
fn parse_seq(kseq: &FTerm) -> (r: Result<Expr, LowerError>)
    requires
        has_tag(kseq@, Tag::Sequence),
        elements(kseq@).len() == 4,
    ensures
        outcome(r) == lower_fields(kseq@, Tag::Sequence),
    decreases kseq, 0int,
{
    let seq_vec = fields(kseq);
    let arg = parse_expr(&seq_vec[2])?;
    let body = parse_expr(&seq_vec[3])?;
    let ks = KSeq { anno: seq_vec[1].clone(), arg, body };
    Ok(Expr::Sequence(Box::new(ks)))
}

/// Lowers `{k_enter, anno, op, args}`.
fn parse_enter(enter: &FTerm) -> (r: Result<Expr, LowerError>)
    requires
        has_tag(enter@, Tag::Enter),
        elements(enter@).len() == 4,
    ensures
        outcome(r) == lower_fields(enter@, Tag::Enter),
    decreases enter, 0int,
{
    let enter_vec = fields(enter);
    let op = parse_funref(&enter_vec[2])?;
    let args = parse_expr_list(&enter_vec[3])?;
    let ke = KEnter { anno: enter_vec[1].clone(), op, args };
    Ok(Expr::Enter(Box::new(ke)))
}

/// Lowers a function reference.
pub fn parse_funref(funref: &FTerm) -> (r: Result<FunRef, LowerError>)
    ensures
        outcome(r) == lower_funref(funref@),
    decreases funref, 1int,
{
    match funref {
        FTerm::Tuple(kvec) => {
            assert(term_views(kvec@).len() == kvec@.len());
            if kvec.len() == 0 {
                return fail(Shape::TaggedTuple, funref);
            }
            match &kvec[0] {
                FTerm::Atom(tag) => {
                    if tag.as_str().eq("k_local") {
                        // {k_local, anno, name, arity}
                        if kvec.len() != 4 {
                            return fail(Shape::Form, funref);
                        }
                        let f = parse_expr(&kvec[2])?;
                        let arity = parse_expr(&kvec[3])?;
                        Ok(FunRef::FArity { f, arity })
                    } else if tag.as_str().eq("k_remote") {
                        // {k_remote, anno, mod, name, arity}
                        if kvec.len() != 5 {
                            return fail(Shape::Form, funref);
                        }
                        let m = parse_expr(&kvec[2])?;
                        let f = parse_expr(&kvec[3])?;
                        let arity = parse_expr(&kvec[4])?;
                        Ok(FunRef::MFArity { m, f, arity })
                    } else if tag.as_str().eq("k_internal") {
                        // {k_internal, anno, name, arity}
                        if kvec.len() != 4 {
                            return fail(Shape::Form, funref);
                        }
                        let mfa = parse_kinternal(&kvec[2], &kvec[3])?;
                        Ok(FunRef::Internal(mfa))
                    } else if tag.as_str().eq("k_bif") {
                        // {k_bif, anno, op, args, ret}
                        if kvec.len() != 5 {
                            return fail(Shape::Form, funref);
                        }
                        let k = parse_kcall(funref)?;
                        Ok(FunRef::Bif(Box::new(k)))
                    } else {
                        Err(LowerError::UnknownFunRef(tag.clone()))
                    }
                },
                other => fail(Shape::Atom, other),
            }
        },
        _ => fail(Shape::TaggedTuple, funref),
    }
}

/// The function of the runtime system with this name and arity.
fn parse_kinternal(name: &FTerm, arity: &FTerm) -> (r: Result<MFA, LowerError>)
    ensures
        outcome(r) == lower_internal(name@, arity@),
{
    let f = as_atom(name)?;
    let a = as_arity(arity)?;
    Ok(MFA::new2(f, a))
}

/// Lowers a call: `{k_bif, anno, op, args, ret}` or
/// `{k_call, anno, op, args, ret}`.
fn parse_kcall(call: &FTerm) -> (r: Result<KCall, LowerError>)
    requires
        is_call_form(call@),
        elements(call@).len() == 5,
    ensures
        outcome(r) == lower_call(call@),
    decreases call, 0int,
{
    let kvec = fields(call);
    let op = parse_funref(&kvec[2])?;
    let args = parse_expr_list(&kvec[3])?;
    let ret = parse_expr_list(&kvec[4])?;
    Ok(KCall { anno: kvec[1].clone(), op, args, ret })
}

/// Lowers `{k_return, anno, args}`.
fn parse_return(ret: &FTerm) -> (r: Result<Expr, LowerError>)
    requires
        has_tag(ret@, Tag::Return),
        elements(ret@).len() == 3,
    ensures
        outcome(r) == lower_fields(ret@, Tag::Return),
    decreases ret, 0int,
{
    let ret_vec = fields(ret);
    let args = parse_expr_list(&ret_vec[2])?;
    let kret = KReturn { anno: ret_vec[1].clone(), args };
    Ok(Expr::Return(kret))
}

/// Lowers `{k_alt, anno, first, then}`.
fn parse_alt(alt: &FTerm) -> (r: Result<Expr, LowerError>)
    requires
        has_tag(alt@, Tag::Alt),
        elements(alt@).len() == 4,
    ensures
        outcome(r) == lower_fields(alt@, Tag::Alt),
    decreases alt, 0int,
{
    let alt_vec = fields(alt);
    let kfirst = parse_expr(&alt_vec[2])?;
    let kthen = parse_expr(&alt_vec[3])?;
    let ka = KAlt { anno: alt_vec[1].clone(), first: Box::new(kfirst), then: Box::new(kthen) };
    Ok(Expr::Alt(ka))
}

/// Lowers `{k_select, anno, var, types}`.
fn parse_select(sel: &FTerm) -> (r: Result<Expr, LowerError>)
    requires
        has_tag(sel@, Tag::Select),
        elements(sel@).len() == 4,
    ensures
        outcome(r) == lower_fields(sel@, Tag::Select),
    decreases sel, 0int,
{
    let sel_vec = fields(sel);
    let types = parse_ktype_clauses(&sel_vec[3])?;
    let var = parse_expr(&sel_vec[2])?;
    let ks = KSelect { anno: sel_vec[1].clone(), var, types };
    Ok(Expr::Select(Box::new(ks)))
}

/// Lowers the type clauses of a select, in their order.
fn parse_ktype_clauses(tclauses: &FTerm) -> (r: Result<Vec<KTypeClause>, LowerError>)
    ensures
        type_clauses_outcome(r) == lower_type_clauses(tclauses@),
    decreases tclauses, 1int,
{
    match tclauses {
        FTerm::List(v) => parse_ktype_clause_seq(v),
        FTerm::Tuple(v) => parse_ktype_clause_seq(v),
        FTerm::EmptyList | FTerm::EmptyTuple => {
            let out: Vec<KTypeClause> = Vec::new();
            assert(type_clause_views(out@) =~= Seq::<KTypeClauseV>::empty());
            Ok(out)
        },
        _ => fail(Shape::Sequence, tclauses),
    }
}

fn parse_ktype_clause_seq(v: &Vec<FTerm>) -> (r: Result<Vec<KTypeClause>, LowerError>)
    ensures
        type_clauses_outcome(r) == collect(type_clause_outcomes(term_views(v@))),
    decreases v, 1int,
{
    let ghost rs = type_clause_outcomes(term_views(v@));
    proof {
        assert(term_views(v@).len() == v@.len());
        assert(rs.len() == v@.len());
        assert forall|j: int| 0 <= j < v@.len() implies #[trigger] rs[j] == lower_type_clause(v@[j]@) by {
            assert(term_views(v@)[j] == v@[j]@);
        }
    }
    let mut out: Vec<KTypeClause> = Vec::new();
    let mut i: usize = 0;
    while i < v.len()
        invariant
            i <= v.len(),
            out.len() == i,
            rs == type_clause_outcomes(term_views(v@)),
            rs.len() == v@.len(),
            forall|j: int| 0 <= j < v@.len() ==> #[trigger] rs[j] == lower_type_clause(v@[j]@),
            forall|j: int|
                0 <= j < i ==> #[trigger] rs[j] == Ok::<KTypeClauseV, LowerErrorV>(out@[j]@),
        decreases v.len() - i,
    {
        match parse_ktype_clause(&v[i]) {
            Ok(c) => {
                out.push(c);
            },
            Err(e) => {
                proof {
                    assert(rs[i as int] == Err::<KTypeClauseV, LowerErrorV>(e@));
                    lemma_collect_failure(rs, i as int);
                }
                return Err(e);
            },
        }
        i += 1;
    }
    proof {
        let values = type_clause_views(out@);
        assert(values.len() == out@.len());
        assert forall|j: int| 0 <= j < rs.len() implies (#[trigger] rs[j]) is Ok && rs[j]->Ok_0
                == values[j] by {
            assert(values[j] == out@[j]@);
        }
        lemma_collect_values(rs, values);
    }
    Ok(out)
}

/// Lowers `{k_type_clause, anno, type, values}`.
fn parse_ktype_clause(tclause: &FTerm) -> (r: Result<KTypeClause, LowerError>)
    ensures
        outcome(r) == lower_type_clause(tclause@),
    decreases tclause, 0int,
{
    match record_fields(tclause, "k_type_clause", 4) {
        None => fail(Shape::TypeClause, tclause),
        Some(tclause_vec) => {
            let type_tag = as_atom(&tclause_vec[2])?;
            let values = parse_kval_clauses(&tclause_vec[3])?;
            Ok(KTypeClause { anno: tclause_vec[1].clone(), type_tag, values })
        },
    }
}

/// Lowers the value clauses of a type clause, in their order.
fn parse_kval_clauses(vclauses: &FTerm) -> (r: Result<Vec<KValClause>, LowerError>)
    ensures
        val_clauses_outcome(r) == lower_val_clauses(vclauses@),
    decreases vclauses, 1int,
{
    match vclauses {
        FTerm::List(v) => parse_kval_clause_seq(v),
        FTerm::Tuple(v) => parse_kval_clause_seq(v),
        FTerm::EmptyList | FTerm::EmptyTuple => {
            let out: Vec<KValClause> = Vec::new();
            assert(val_clause_views(out@) =~= Seq::<KValClauseV>::empty());
            Ok(out)
        },
        _ => fail(Shape::Sequence, vclauses),
    }
}

fn parse_kval_clause_seq(v: &Vec<FTerm>) -> (r: Result<Vec<KValClause>, LowerError>)
    ensures
        val_clauses_outcome(r) == collect(val_clause_outcomes(term_views(v@))),
    decreases v, 1int,
{
    let ghost rs = val_clause_outcomes(term_views(v@));
    proof {
        assert(term_views(v@).len() == v@.len());
        assert(rs.len() == v@.len());
        assert forall|j: int| 0 <= j < v@.len() implies #[trigger] rs[j] == lower_val_clause(v@[j]@) by {
            assert(term_views(v@)[j] == v@[j]@);
        }
    }
    let mut out: Vec<KValClause> = Vec::new();
    let mut i: usize = 0;
    while i < v.len()
        invariant
            i <= v.len(),
            out.len() == i,
            rs == val_clause_outcomes(term_views(v@)),
            rs.len() == v@.len(),
            forall|j: int| 0 <= j < v@.len() ==> #[trigger] rs[j] == lower_val_clause(v@[j]@),
            forall|j: int|
                0 <= j < i ==> #[trigger] rs[j] == Ok::<KValClauseV, LowerErrorV>(out@[j]@),
        decreases v.len() - i,
    {
        match parse_kval_clause(&v[i]) {
            Ok(c) => {
                out.push(c);
            },
            Err(e) => {
                proof {
                    assert(rs[i as int] == Err::<KValClauseV, LowerErrorV>(e@));
                    lemma_collect_failure(rs, i as int);
                }
                return Err(e);
            },
        }
        i += 1;
    }
    proof {
        let values = val_clause_views(out@);
        assert(values.len() == out@.len());
        assert forall|j: int| 0 <= j < rs.len() implies (#[trigger] rs[j]) is Ok && rs[j]->Ok_0
                == values[j] by {
            assert(values[j] == out@[j]@);
        }
        lemma_collect_values(rs, values);
    }
    Ok(out)
}

/// Lowers `{k_val_clause, anno, val, body}`.
fn parse_kval_clause(vc: &FTerm) -> (r: Result<KValClause, LowerError>)
    ensures
        outcome(r) == lower_val_clause(vc@),
    decreases vc, 0int,
{
    match record_fields(vc, "k_val_clause", 4) {
        None => fail(Shape::ValClause, vc),
        Some(vclause_vec) => {
            let val = parse_expr(&vclause_vec[2])?;
            let body = parse_expr(&vclause_vec[3])?;
            Ok(KValClause { anno: vclause_vec[1].clone(), val, body })
        },
    }
}

/// Lowers `{k_guard, anno, clauses}`.
fn parse_guard(guard: &FTerm) -> (r: Result<Expr, LowerError>)
    requires
        has_tag(guard@, Tag::Guard),
        elements(guard@).len() == 3,
    ensures
        outcome(r) == lower_fields(guard@, Tag::Guard),
    decreases guard, 0int,
{
    let guard_vec = fields(guard);
    let clauses = match &guard_vec[2] {
        FTerm::List(v) => parse_kguard_clause_seq(v)?,
        FTerm::EmptyList => {
            let out: Vec<KGuardClause> = Vec::new();
            assert(guard_clause_views(out@) =~= Seq::<KGuardClauseV>::empty());
            out
        },
        other => {
            return fail(Shape::List, other);
        },
    };
    let kg = KGuard { anno: guard_vec[1].clone(), clauses };
    Ok(Expr::Guard(kg))
}

fn parse_kguard_clause_seq(v: &Vec<FTerm>) -> (r: Result<Vec<KGuardClause>, LowerError>)
    ensures
        guard_clauses_outcome(r) == collect(guard_clause_outcomes(term_views(v@))),
    decreases v, 1int,
{
    let ghost rs = guard_clause_outcomes(term_views(v@));
    proof {
        assert(term_views(v@).len() == v@.len());
        assert(rs.len() == v@.len());
        assert forall|j: int| 0 <= j < v@.len() implies #[trigger] rs[j] == lower_guard_clause(v@[j]@) by {
            assert(term_views(v@)[j] == v@[j]@);
        }
    }
    let mut out: Vec<KGuardClause> = Vec::new();
    let mut i: usize = 0;
    while i < v.len()
        invariant
            i <= v.len(),
            out.len() == i,
            rs == guard_clause_outcomes(term_views(v@)),
            rs.len() == v@.len(),
            forall|j: int| 0 <= j < v@.len() ==> #[trigger] rs[j] == lower_guard_clause(v@[j]@),
            forall|j: int|
                0 <= j < i ==> #[trigger] rs[j] == Ok::<KGuardClauseV, LowerErrorV>(out@[j]@),
        decreases v.len() - i,
    {
        match parse_kguard_clauses(&v[i]) {
            Ok(c) => {
                out.push(c);
            },
            Err(e) => {
                proof {
                    assert(rs[i as int] == Err::<KGuardClauseV, LowerErrorV>(e@));
                    lemma_collect_failure(rs, i as int);
                }
                return Err(e);
            },
        }
        i += 1;
    }
    proof {
        let values = guard_clause_views(out@);
        assert(values.len() == out@.len());
        assert forall|j: int| 0 <= j < rs.len() implies (#[trigger] rs[j]) is Ok && rs[j]->Ok_0
                == values[j] by {
            assert(values[j] == out@[j]@);
        }
        lemma_collect_values(rs, values);
    }
    Ok(out)
}

/// Lowers `{k_guard_clause, anno, guard, body}`.
fn parse_kguard_clauses(kgc_tuple: &FTerm) -> (r: Result<KGuardClause, LowerError>)
    ensures
        outcome(r) == lower_guard_clause(kgc_tuple@),
    decreases kgc_tuple, 0int,
{
    if !is_tuple_record(kgc_tuple, "k_guard_clause", 4) {
        return fail(Shape::GuardClause, kgc_tuple);
    }
    let v = fields(kgc_tuple);
    let body = parse_expr(&v[3])?;
    let guard = parse_expr(&v[2])?;
    Ok(KGuardClause { anno: v[1].clone(), guard, body })
}

/// Lowers `{k_guard_break, anno, args}`.
fn parse_kguard_break(k_gb: &FTerm) -> (r: Result<Expr, LowerError>)
    requires
        has_tag(k_gb@, Tag::GuardBreak),
        elements(k_gb@).len() == 3,
    ensures
        outcome(r) == lower_fields(k_gb@, Tag::GuardBreak),
    decreases k_gb, 0int,
{
    let gbvec = fields(k_gb);
    let args = parse_expr_list(&gbvec[2])?;
    Ok(Expr::GuardBreak { anno: gbvec[1].clone(), args })
}

/// Reads a list of atoms.
fn parse_atom_list(t: &FTerm) -> (r: Result<Vec<String>, LowerError>)
    ensures
        strings_outcome(r) == atoms_of(t@),
{
    match t {
        FTerm::List(v) => {
            let ghost rs = atom_outcomes(term_views(v@));
            proof {
                assert(term_views(v@).len() == v@.len());
                assert(rs.len() == v@.len());
                assert forall|j: int| 0 <= j < v@.len() implies #[trigger] rs[j] == atom_of(v@[j]@) by {
                    assert(term_views(v@)[j] == v@[j]@);
                }
            }
            let mut out: Vec<String> = Vec::new();
            let mut i: usize = 0;
            while i < v.len()
                invariant
                    i <= v.len(),
                    out.len() == i,
                    t@ == TermV::List(term_views(v@)),
                    rs == atom_outcomes(term_views(v@)),
                    rs.len() == v@.len(),
                    forall|j: int| 0 <= j < v@.len() ==> #[trigger] rs[j] == atom_of(v@[j]@),
                    forall|j: int|
                        0 <= j < i ==> #[trigger] rs[j] == Ok::<Seq<char>, LowerErrorV>(out@[j]@),
                decreases v.len() - i,
            {
                match as_atom(&v[i]) {
                    Ok(s) => {
                        out.push(s);
                    },
                    Err(e) => {
                        proof {
                            assert(rs[i as int] == Err::<Seq<char>, LowerErrorV>(e@));
                            lemma_collect_failure(rs, i as int);
                        }
                        return Err(e);
                    },
                }
                i += 1;
            }
            proof {
                let values = string_views(out@);
                assert(values.len() == out@.len());
                assert forall|j: int| 0 <= j < rs.len() implies (#[trigger] rs[j]) is Ok && rs[j]->Ok_0
                == values[j] by {
                    assert(values[j] == out@[j]@);
                }
                lemma_collect_values(rs, values);
            }
            Ok(out)
        },
        FTerm::EmptyList => {
            let out: Vec<String> = Vec::new();
            proof {
                lemma_collect_values(atom_outcomes(Seq::<TermV>::empty()), string_views(out@));
            }
            Ok(out)
        },
        _ => fail(Shape::List, t),
    }
}

/// Lowers the segments of a binary, from the segment `t` on.
fn parse_segment(t: &FTerm) -> (r: Result<Option<Box<KBinarySegment>>, LowerError>)
    ensures
        segments_outcome(r) == lower_segment(t@),
    decreases t, 0int,
{
    if is_tuple_record(t, "k_bin_end", 2) {
        Ok(None)
    } else if is_tuple_record(t, "k_bin_seg", 8) {
        // {k_bin_seg, anno, size, unit, type, flags, seg, next}
        let v = fields(t);
        let size = parse_expr(&v[2])?;
        let unit = as_unit(&v[3])?;
        let seg_type = as_atom(&v[4])?;
        let flags = parse_atom_list(&v[5])?;
        let seg = parse_expr(&v[6])?;
        let next = parse_segment(&v[7])?;
        Ok(
            Some(
                Box::new(
                    KBinarySegment { anno: v[1].clone(), size, unit, seg_type, flags, seg, next },
                ),
            ),
        )
    } else {
        fail(Shape::BinarySegment, t)
    }
}

/// Lowers an element of a list of imports or exports.
fn parse_mfa(t: &FTerm) -> (r: Result<MFA, LowerError>)
    ensures
        outcome(r) == lower_mfa(t@),
{
    match t {
        FTerm::Tuple(tvec) => {
            assert(term_views(tvec@).len() == tvec@.len());
            if tvec.len() == 2 {
                let f = as_atom(&tvec[0])?;
                let a = as_arity(&tvec[1])?;
                Ok(MFA::new2(f, a))
            } else if tvec.len() == 3 {
                let m = as_atom(&tvec[0])?;
                let f = as_atom(&tvec[1])?;
                let a = as_arity(&tvec[2])?;
                Ok(MFA::new3(m, f, a))
            } else {
                fail(Shape::MfaTuple, t)
            }
        },
        _ => fail(Shape::MfaTuple, t),
    }
}

/// Lowers a list of imports or exports: each element is `{name, arity}`
/// or `{module, name, arity}`.
pub fn parse_mfa_list(lst: &FTerm) -> (r: Result<Vec<MFA>, LowerError>)
    ensures
        mfas_outcome(r) == lower_mfa_list(lst@),
{
    let mut outp: Vec<MFA> = Vec::new();
    match lst {
        FTerm::List(vec) => {
            let ghost rs = mfa_outcomes(term_views(vec@));
            proof {
                assert(term_views(vec@).len() == vec@.len());
                assert(rs.len() == vec@.len());
                assert forall|j: int| 0 <= j < vec@.len() implies #[trigger] rs[j] == lower_mfa(vec@[j]@) by {
                    assert(term_views(vec@)[j] == vec@[j]@);
                }
            }
            let mut i: usize = 0;
            while i < vec.len()
                invariant
                    i <= vec.len(),
                    outp.len() == i,
                    lst@ == TermV::List(term_views(vec@)),
                    rs == mfa_outcomes(term_views(vec@)),
                    rs.len() == vec@.len(),
                    forall|j: int| 0 <= j < vec@.len() ==> #[trigger] rs[j] == lower_mfa(vec@[j]@),
                    forall|j: int|
                        0 <= j < i ==> #[trigger] rs[j] == Ok::<MfaV, LowerErrorV>(outp@[j]@),
                decreases vec.len() - i,
            {
                match parse_mfa(&vec[i]) {
                    Ok(mfa) => {
                        outp.push(mfa);
                    },
                    Err(e) => {
                        proof {
                            assert(rs[i as int] == Err::<MfaV, LowerErrorV>(e@));
                            lemma_collect_failure(rs, i as int);
                        }
                        return Err(e);
                    },
                }
                i += 1;
            }
            proof {
                let values = mfa_views(outp@);
                assert(values.len() == outp@.len());
                assert forall|j: int| 0 <= j < rs.len() implies (#[trigger] rs[j]) is Ok && rs[j]->Ok_0
                == values[j] by {
                    assert(values[j] == outp@[j]@);
                }
                lemma_collect_values(rs, values);
            }
            Ok(outp)
        },
        FTerm::EmptyList => {
            assert(mfa_views(outp@) =~= Seq::<MfaV>::empty());
            Ok(outp)
        },
        _ => fail(Shape::MfaList, lst),
    }
}

/// Lowers a function definition,
/// `{k_fdef, anno, func, arity, attrs, body}`.
pub fn process_fun(fdef: &FTerm) -> (r: Result<FunDef, LowerError>)
    ensures
        outcome(r) == lower_fun(fdef@),
{
    if !is_tuple_record(fdef, "k_fdef", 6) {
        return fail(Shape::FunDef, fdef);
    }
    let fdef_vec = fields(fdef);
    let k_code = parse_expr(&fdef_vec[5])?;
    let fname = as_atom(&fdef_vec[2])?;
    let farity = as_arity(&fdef_vec[3])?;
    Ok(FunDef::new(fname, farity, k_code))
}

/// The module that the first five elements of a module definition
/// describe, still without functions, and the sixth element: the function
/// definitions.
pub fn create_kmod(mdef: &Vec<FTerm>) -> (r: Result<(Module, FTerm), LowerError>)
    requires
        mdef@.len() == 6,
    ensures
        match r {
            Ok((m, fdefs)) => lower_module_head(term_views(mdef@)) == Ok::<ModuleV, LowerErrorV>(m@)
                && m.wf() && fdefs@ == mdef@[5]@,
            Err(e) => lower_module_head(term_views(mdef@)) == Err::<ModuleV, LowerErrorV>(e@),
        },
{
    let m_name = as_atom(&mdef[2])?;
    let m_imports = parse_mfa_list(&mdef[1])?;
    let m_exports = parse_mfa_list(&mdef[3])?;
    let m = Module::new(m_name, m_imports, m_exports, mdef[4].clone());
    Ok((m, mdef[5].clone()))
}

/// Lowers the function definitions and puts each into `kmod`, in their
/// order. Where one of them fails, no module is handed out.
pub fn process_kmod_fdefs(kmod: Module, fdefs: &FTerm) -> (r: Result<Module, LowerError>)
    requires
        kmod.wf(),
    ensures
        match r {
            Ok(m) => m.wf() && match lower_funs(fdefs@) {
                Ok(funs) => m@ == (ModuleV { funs: with_funs(kmod@.funs, funs), ..kmod@ }),
                Err(_) => false,
            },
            Err(e) => lower_funs(fdefs@) == Err::<Seq<FunDefV>, LowerErrorV>(e@),
        },
{
    let mut kmod = kmod;
    match fdefs {
        FTerm::List(v) => {
            let ghost rs = fun_outcomes(term_views(v@));
            proof {
                assert(term_views(v@).len() == v@.len());
                assert(rs.len() == v@.len());
                assert forall|j: int| 0 <= j < v@.len() implies #[trigger] rs[j] == lower_fun(v@[j]@) by {
                    assert(term_views(v@)[j] == v@[j]@);
                }
            }
            let ghost head = kmod@;
            let ghost mut done: Seq<FunDefV> = Seq::empty();
            let mut i: usize = 0;
            while i < v.len()
                invariant
                    i <= v.len(),
                    kmod.wf(),
                    fdefs@ == TermV::List(term_views(v@)),
                    rs == fun_outcomes(term_views(v@)),
                    rs.len() == v@.len(),
                    forall|j: int| 0 <= j < v@.len() ==> #[trigger] rs[j] == lower_fun(v@[j]@),
                    done.len() == i,
                    forall|j: int|
                        0 <= j < i ==> #[trigger] rs[j] == Ok::<FunDefV, LowerErrorV>(done[j]),
                    kmod@ == (ModuleV { funs: with_funs(head.funs, done), ..head }),
                decreases v.len() - i,
            {
                match process_fun(&v[i]) {
                    Ok(kfun) => {
                        proof {
                            let next = done.push(kfun@);
                            assert(next.drop_last() =~= done);
                            done = next;
                        }
                        kmod.add_fun(kfun);
                    },
                    Err(e) => {
                        proof {
                            assert(rs[i as int] == Err::<FunDefV, LowerErrorV>(e@));
                            lemma_collect_failure(rs, i as int);
                        }
                        return Err(e);
                    },
                }
                i += 1;
            }
            proof {
                lemma_collect_values(rs, done);
            }
            Ok(kmod)
        },
        FTerm::EmptyList => Ok(kmod),
        _ => fail(Shape::FunDefList, fdefs),
    }
}

/// Lowers a Kernel module: the tuple of tag, imports, name, exports,
/// attributes and function definitions.
pub fn process_module(mroot: FTerm) -> (r: Result<Module, LowerError>)
    ensures
        outcome(r) == lower_module(mroot@),
        r is Ok ==> r->Ok_0.wf(),
{
    match &mroot {
        FTerm::Tuple(mdef) => {
            assert(term_views(mdef@).len() == mdef@.len());
            if mdef.len() != 6 {
                return fail(Shape::KernelModule, &mroot);
            }
            let (mod1, fdefs) = create_kmod(mdef)?;
            process_kmod_fdefs(mod1, &fdefs)
        },
        _ => fail(Shape::KernelModule, &mroot),
    }
}

} // verus!
