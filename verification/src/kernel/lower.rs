//! What a Kernel module, given as a term, lowers to: the meaning of each
//! form, and the failures.

use vstd::prelude::*;
use crate::erl_types::MfaV;
use crate::fterm::{elements, is_list_value, term_text, write_term, FTerm, TermV};
use crate::kernel::{
    ExprV, FunRefV, KAltV, KBinarySegmentV, KCallV, KEnterV, KGuardClauseV, KGuardV, KMatchV,
    KReturnV, KSelectV, KSeqV, KTypeClauseV, KValClauseV,
};
use crate::kernel::registry::{FunDefV, ModuleV, funs_map};
use crate::text::int_text;

verus! {

/// What a term had to be where it was found to be something else.
#[derive(Debug, Clone, Copy, PartialEq, Eq, Structural)]
pub enum Shape {
    /// A tuple of six elements: tag, imports, name, exports, attributes,
    /// function definitions.
    KernelModule,
    /// A list of function references.
    MfaList,
    /// A tuple of two elements (name, arity) or of three (module, name,
    /// arity).
    MfaTuple,
    /// A list of function definitions.
    FunDefList,
    /// A tuple of six elements whose first is the atom `k_fdef`.
    FunDef,
    Atom,
    Integer,
    /// An integer that is not negative and fits the machine word.
    Arity,
    /// An integer from 0 to 4294967295.
    Unit,
    /// One of the atoms `true` and `false`.
    Boolean,
    List,
    /// A list or a tuple.
    Sequence,
    /// A tuple with at least one element.
    TaggedTuple,
    /// A tuple with as many elements as its tag calls for.
    Form,
    /// The empty list, where a match returns nothing.
    NoReturnValue,
    /// An atom or an integer, as the name of a variable.
    VariableName,
    /// Four elements, the first being the atom `k_type_clause`.
    TypeClause,
    /// Four elements, the first being the atom `k_val_clause`.
    ValClause,
    /// A tuple of four elements, the first being the atom `k_guard_clause`.
    GuardClause,
    /// A tuple tagged `k_bin_seg`, of eight elements, or `k_bin_end`, of two.
    BinarySegment,
}

/// Why a term could not be lowered.
#[derive(Debug, PartialEq, Eq)]
pub enum LowerError {
    /// The term `got` stands where a term of the given shape is required.
    Expected { shape: Shape, got: FTerm },
    /// The form with this tag is known and not lowered.
    UnsupportedForm(String),
    /// No expression form has this tag.
    UnknownTag(String),
    /// No function reference has this tag.
    UnknownFunRef(String),
}

/// Mathematical value of a [`LowerError`].
pub enum LowerErrorV {
    Expected { shape: Shape, got: TermV },
    UnsupportedForm(Seq<char>),
    UnknownTag(Seq<char>),
    UnknownFunRef(Seq<char>),
}

impl View for LowerError {
    type V = LowerErrorV;

    open spec fn view(&self) -> LowerErrorV {
        match self {
            LowerError::Expected { shape, got } => LowerErrorV::Expected { shape: *shape, got: got@ },
            LowerError::UnsupportedForm(tag) => LowerErrorV::UnsupportedForm(tag@),
            LowerError::UnknownTag(tag) => LowerErrorV::UnknownTag(tag@),
            LowerError::UnknownFunRef(tag) => LowerErrorV::UnknownFunRef(tag@),
        }
    }
}

/// What an error says of the shape that was required.
pub open spec fn shape_text(shape: Shape) -> Seq<char> {
    match shape {
        Shape::KernelModule => "expected kernel module tuple"@,
        Shape::MfaList => "list of function references expected"@,
        Shape::MfaTuple => "tuple of 2 or 3 expected"@,
        Shape::FunDefList => "list of function definitions expected"@,
        Shape::FunDef => "function definition (k_fdef) of 6 elements expected"@,
        Shape::Atom => "atom expected"@,
        Shape::Integer => "integer expected"@,
        Shape::Arity => "arity expected"@,
        Shape::Unit => "unit of a binary segment expected"@,
        Shape::Boolean => "true or false expected"@,
        Shape::List => "list expected"@,
        Shape::Sequence => "list or tuple expected"@,
        Shape::TaggedTuple => "tagged tuple expected"@,
        Shape::Form => "form with the elements of its tag expected"@,
        Shape::NoReturnValue => "empty list of return values expected"@,
        Shape::VariableName => "atom or integer expected as variable name"@,
        Shape::TypeClause => "type clause (k_type_clause) of 4 elements expected"@,
        Shape::ValClause => "value clause (k_val_clause) of 4 elements expected"@,
        Shape::GuardClause => "guard clause (k_guard_clause) of 4 elements expected"@,
        Shape::BinarySegment => "binary segment (k_bin_seg, k_bin_end) expected"@,
    }
}

/// What an error says: the shape that was required and the term that
/// was found, in source syntax; or the tag that could not be lowered.
pub open spec fn error_text(e: LowerErrorV) -> Seq<char> {
    match e {
        LowerErrorV::Expected { shape, got } => shape_text(shape) + ", got "@ + term_text(got),
        LowerErrorV::UnsupportedForm(tag) => "unsupported form: "@ + tag,
        LowerErrorV::UnknownTag(tag) => "don't know how to lower tag "@ + tag,
        LowerErrorV::UnknownFunRef(tag) => "don't know how to lower function reference "@ + tag,
    }
}

impl Shape {
    /// What an error says of this shape.
    pub fn text(self) -> (r: &'static str)
        ensures
            r@ == shape_text(self),
    {
        match self {
            Shape::KernelModule => "expected kernel module tuple",
            Shape::MfaList => "list of function references expected",
            Shape::MfaTuple => "tuple of 2 or 3 expected",
            Shape::FunDefList => "list of function definitions expected",
            Shape::FunDef => "function definition (k_fdef) of 6 elements expected",
            Shape::Atom => "atom expected",
            Shape::Integer => "integer expected",
            Shape::Arity => "arity expected",
            Shape::Unit => "unit of a binary segment expected",
            Shape::Boolean => "true or false expected",
            Shape::List => "list expected",
            Shape::Sequence => "list or tuple expected",
            Shape::TaggedTuple => "tagged tuple expected",
            Shape::Form => "form with the elements of its tag expected",
            Shape::NoReturnValue => "empty list of return values expected",
            Shape::VariableName => "atom or integer expected as variable name",
            Shape::TypeClause => "type clause (k_type_clause) of 4 elements expected",
            Shape::ValClause => "value clause (k_val_clause) of 4 elements expected",
            Shape::GuardClause => "guard clause (k_guard_clause) of 4 elements expected",
            Shape::BinarySegment => "binary segment (k_bin_seg, k_bin_end) expected",
        }
    }
}

impl LowerError {
    /// What the error says.
    pub fn message(&self) -> (r: String)
        ensures
            r@ == error_text(self@),
    {
        match self {
            LowerError::Expected { shape, got } => {
                let mut out = String::from_str(shape.text());
                out.append(", got ");
                write_term(got, &mut out);
                out
            },
            LowerError::UnsupportedForm(tag) => {
                let mut out = String::from_str("unsupported form: ");
                out.append(tag.as_str());
                out
            },
            LowerError::UnknownTag(tag) => {
                let mut out = String::from_str("don't know how to lower tag ");
                out.append(tag.as_str());
                out
            },
            LowerError::UnknownFunRef(tag) => {
                let mut out = String::from_str("don't know how to lower function reference ");
                out.append(tag.as_str());
                out
            },
        }
    }
}

/// The outcome of lowering as a mathematical value.
pub open spec fn outcome<T: View>(r: Result<T, LowerError>) -> Result<T::V, LowerErrorV> {
    match r {
        Ok(x) => Ok(x@),
        Err(e) => Err(e@),
    }
}

/// The failure to find `shape` where `got` stands.
pub open spec fn expected<T>(shape: Shape, got: TermV) -> Result<T, LowerErrorV> {
    Err(LowerErrorV::Expected { shape, got })
}

/// Both values, or the first failure.
pub open spec fn both<A, B>(a: Result<A, LowerErrorV>, b: Result<B, LowerErrorV>) -> Result<
    (A, B),
    LowerErrorV,
> {
    match a {
        Err(e) => Err(e),
        Ok(x) => match b {
            Err(e) => Err(e),
            Ok(y) => Ok((x, y)),
        },
    }
}

/// All three values, or the first failure.
pub open spec fn all3<A, B, C>(
    a: Result<A, LowerErrorV>,
    b: Result<B, LowerErrorV>,
    c: Result<C, LowerErrorV>,
) -> Result<(A, B, C), LowerErrorV> {
    match a {
        Err(e) => Err(e),
        Ok(x) => match b {
            Err(e) => Err(e),
            Ok(y) => match c {
                Err(e) => Err(e),
                Ok(z) => Ok((x, y, z)),
            },
        },
    }
}

/// `k` is the place of the first failure in `rs`.
pub open spec fn first_failure_at<T>(rs: Seq<Result<T, LowerErrorV>>, k: int) -> bool {
    &&& 0 <= k < rs.len()
    &&& rs[k] is Err
    &&& forall|j: int| 0 <= j < k ==> (#[trigger] rs[j]) is Ok
}

/// The values of `rs` in their order, if every element is a value;
/// otherwise the first failure.
pub open spec fn collect<T>(rs: Seq<Result<T, LowerErrorV>>) -> Result<Seq<T>, LowerErrorV> {
    if forall|i: int| 0 <= i < rs.len() ==> (#[trigger] rs[i]) is Ok {
        Ok(Seq::new(rs.len(), |i: int| rs[i]->Ok_0))
    } else {
        Err(rs[choose|k: int| first_failure_at(rs, k)]->Err_0)
    }
}

/// A sequence of values collects to itself.
pub proof fn lemma_collect_values<T>(rs: Seq<Result<T, LowerErrorV>>, out: Seq<T>)
    requires
        out.len() == rs.len(),
        forall|i: int| 0 <= i < rs.len() ==> (#[trigger] rs[i]) is Ok && rs[i]->Ok_0 == out[i],
    ensures
        collect(rs) == Ok::<Seq<T>, LowerErrorV>(out),
{
    assert(Seq::new(rs.len(), |i: int| rs[i]->Ok_0) =~= out);
}

/// A sequence whose first failure is at `k` collects to that failure.
pub proof fn lemma_collect_failure<T>(rs: Seq<Result<T, LowerErrorV>>, k: int)
    requires
        first_failure_at(rs, k),
    ensures
        collect(rs) == Err::<Seq<T>, LowerErrorV>(rs[k]->Err_0),
{
    let c = choose|c: int| first_failure_at(rs, c);
    assert(first_failure_at(rs, c));
    assert(c == k) by {
        if c < k {
            assert(rs[c] is Ok);
        }
        if k < c {
            assert(rs[k] is Ok);
        }
    }
}

/// The text of an atom.
pub open spec fn atom_of(t: TermV) -> Result<Seq<char>, LowerErrorV> {
    match t {
        TermV::Atom(s) => Ok(s),
        _ => expected(Shape::Atom, t),
    }
}

/// The number that an integer term holds.
pub open spec fn int_of(t: TermV) -> Result<i64, LowerErrorV> {
    match t {
        TermV::Int(i) => Ok(i),
        _ => expected(Shape::Integer, t),
    }
}

/// The arity that an integer term holds.
pub open spec fn arity_of(t: TermV) -> Result<usize, LowerErrorV> {
    match t {
        TermV::Int(i) => if 0 <= i <= usize::MAX {
            Ok(i as usize)
        } else {
            expected(Shape::Arity, t)
        },
        _ => expected(Shape::Arity, t),
    }
}

/// The truth value that the atom `true` or `false` names.
pub open spec fn bool_of(t: TermV) -> Result<bool, LowerErrorV> {
    if t == TermV::Atom("true"@) {
        Ok(true)
    } else if t == TermV::Atom("false"@) {
        Ok(false)
    } else {
        expected(Shape::Boolean, t)
    }
}

/// The forms of Kernel Erlang by their tags.
#[derive(Debug, Clone, Copy, PartialEq, Eq, Structural)]
pub enum Tag {
    Var,
    Bif,
    Atom,
    Int,
    Call,
    Literal,
    Put,
    Cons,
    Nil,
    Protected,
    Test,
    GuardMatch,
    Tuple,
    Binary,
    Match,
    Sequence,
    Alt,
    Enter,
    Return,
    Select,
    Guard,
    GuardBreak,
    /// A form of Kernel Erlang that is not lowered: `k_try`, `k_try_enter`,
    /// `k_catch`, `k_receive`, `k_receive_accept`, `k_receive_next`,
    /// `k_break`.
    Unsupported,
    /// Not the tag of any form.
    Unknown,
}

/// The form that the tag `name` stands for.
pub open spec fn tag_named(name: Seq<char>) -> Tag {
    if name == "k_var"@ {
        Tag::Var
    } else if name == "k_bif"@ {
        Tag::Bif
    } else if name == "k_atom"@ {
        Tag::Atom
    } else if name == "k_int"@ {
        Tag::Int
    } else if name == "k_call"@ {
        Tag::Call
    } else if name == "k_literal"@ {
        Tag::Literal
    } else if name == "k_put"@ {
        Tag::Put
    } else if name == "k_cons"@ {
        Tag::Cons
    } else if name == "k_nil"@ {
        Tag::Nil
    } else if name == "k_protected"@ {
        Tag::Protected
    } else if name == "k_test"@ {
        Tag::Test
    } else if name == "k_guard_match"@ {
        Tag::GuardMatch
    } else if name == "k_tuple"@ {
        Tag::Tuple
    } else if name == "k_binary"@ {
        Tag::Binary
    } else if name == "k_match"@ {
        Tag::Match
    } else if name == "k_seq"@ {
        Tag::Sequence
    } else if name == "k_alt"@ {
        Tag::Alt
    } else if name == "k_enter"@ {
        Tag::Enter
    } else if name == "k_return"@ {
        Tag::Return
    } else if name == "k_select"@ {
        Tag::Select
    } else if name == "k_guard"@ {
        Tag::Guard
    } else if name == "k_guard_break"@ {
        Tag::GuardBreak
    } else if name == "k_try"@ || name == "k_try_enter"@ || name == "k_catch"@ || name
        == "k_receive"@ || name == "k_receive_accept"@ || name == "k_receive_next"@ || name
        == "k_break"@ {
        Tag::Unsupported
    } else {
        Tag::Unknown
    }
}

/// The number of elements of the tuple of a form, tag and annotation
/// included.
pub open spec fn form_arity(tag: Tag) -> nat {
    match tag {
        Tag::Nil => 2,
        Tag::Var | Tag::Atom | Tag::Int | Tag::Literal | Tag::Tuple | Tag::Binary | Tag::Return
        | Tag::Guard | Tag::GuardBreak => 3,
        Tag::Put | Tag::Cons | Tag::Protected | Tag::Sequence | Tag::Alt | Tag::Enter
        | Tag::Select => 4,
        Tag::Bif | Tag::Call | Tag::Test | Tag::GuardMatch | Tag::Match => 5,
        Tag::Unsupported | Tag::Unknown => 0,
    }
}

/// `t` is a tuple whose first element is an atom that names the form
/// `tag`.
pub open spec fn has_tag(t: TermV, tag: Tag) -> bool {
    &&& t is Tuple
    &&& elements(t).len() > 0
    &&& elements(t)[0] is Atom
    &&& tag_named(elements(t)[0]->Atom_0) == tag
}

/// `t` is a tuple whose first element is the atom `k_bif` or the atom
/// `k_call`.
pub open spec fn is_call_form(t: TermV) -> bool {
    &&& t is Tuple
    &&& elements(t).len() > 0
    &&& elements(t)[0] is Atom
    &&& (elements(t)[0]->Atom_0 == "k_bif"@ || tag_named(elements(t)[0]->Atom_0) == Tag::Call)
}

/// `t` is a list or a tuple of `n` elements, the first being the atom
/// `name`.
pub open spec fn is_record(t: TermV, name: Seq<char>, n: nat) -> bool {
    &&& t is List || t is Tuple
    &&& elements(t).len() == n
    &&& n > 0
    &&& elements(t)[0] == TermV::Atom(name)
}

/// The elements of a list.
pub open spec fn list_of(t: TermV) -> Result<Seq<TermV>, LowerErrorV> {
    if is_list_value(t) {
        Ok(elements(t))
    } else {
        expected(Shape::List, t)
    }
}

/// The outcome of reading each term as an atom, in their order.
pub open spec fn atom_outcomes(s: Seq<TermV>) -> Seq<Result<Seq<char>, LowerErrorV>> {
    Seq::new(s.len(), |i: int| atom_of(s[i]))
}

/// The texts of a list of atoms.
pub open spec fn atoms_of(t: TermV) -> Result<Seq<Seq<char>>, LowerErrorV> {
    match list_of(t) {
        Err(e) => Err(e),
        Ok(s) => collect(atom_outcomes(s)),
    }
}

/// The unit of a binary segment.
pub open spec fn unit_of(t: TermV) -> Result<u32, LowerErrorV> {
    match t {
        TermV::Int(i) => if 0 <= i <= u32::MAX {
            Ok(i as u32)
        } else {
            expected(Shape::Unit, t)
        },
        _ => expected(Shape::Unit, t),
    }
}

/// What an expression lowers to. An integer and an atom stand for
/// themselves, a list for the sequence of its forms; any other term has to
/// be a form.
pub open spec fn lower_expr(t: TermV) -> Result<ExprV, LowerErrorV>
    decreases t, 4int,
{
    match t {
        TermV::Int(i) => Ok(ExprV::Int64(i)),
        TermV::Atom(s) => Ok(ExprV::Atom(s)),
        TermV::List(_) | TermV::EmptyList => match lower_expr_list(t) {
            Err(e) => Err(e),
            Ok(es) => Ok(ExprV::MultipleExprs(es)),
        },
        _ => lower_form(t),
    }
}

/// What a list of forms lowers to: the forms in their order.
pub open spec fn lower_expr_list(t: TermV) -> Result<Seq<ExprV>, LowerErrorV>
    decreases t, 3int,
{
    match t {
        TermV::List(s) => lower_forms(s),
        TermV::EmptyList => Ok(Seq::empty()),
        _ => expected(Shape::List, t),
    }
}

/// What each of the forms lowers to, in their order, or the failure of the
/// first that does not lower.
pub open spec fn lower_forms(s: Seq<TermV>) -> Result<Seq<ExprV>, LowerErrorV>
    decreases s, 1int,
{
    collect(form_outcomes(s))
}

/// The outcome of lowering each of the forms, in their order.
pub open spec fn form_outcomes(s: Seq<TermV>) -> Seq<Result<ExprV, LowerErrorV>>
    decreases s, 0int,
{
    Seq::new(
        s.len(),
        |i: int|
            if 0 <= i < s.len() {
                lower_form(s[i])
            } else {
                Ok(ExprV::Nil)
            },
    )
}

/// What a form lowers to: a tuple whose first element is the atom that
/// names the form and whose second is the annotation.
pub open spec fn lower_form(t: TermV) -> Result<ExprV, LowerErrorV>
    decreases t, 2int,
{
    match t {
        TermV::Tuple(v) => if v.len() == 0 {
            expected(Shape::TaggedTuple, t)
        } else {
            match v[0] {
                TermV::Atom(name) => match tag_named(name) {
                    Tag::Unsupported => Err(LowerErrorV::UnsupportedForm(name)),
                    Tag::Unknown => Err(LowerErrorV::UnknownTag(name)),
                    tag => if v.len() != form_arity(tag) {
                        expected(Shape::Form, t)
                    } else {
                        lower_fields(t, tag)
                    },
                },
                _ => expected(Shape::Atom, v[0]),
            }
        },
        _ => expected(Shape::TaggedTuple, t),
    }
}

/// What the form `t` lowers to as the form `tag`: `t` has to bear that
/// tag and to have the elements that the tag calls for.
pub open spec fn lower_fields(t: TermV, tag: Tag) -> Result<ExprV, LowerErrorV>
    decreases t, 1int,
{
    let v = elements(t);
    if !has_tag(t, tag) || v.len() != form_arity(tag) {
        expected(Shape::Form, t)
    } else {
        match tag {
            Tag::Var => match v[2] {
                TermV::Atom(s) => Ok(ExprV::Variable(s)),
                TermV::Int(i) => Ok(ExprV::Variable(int_text(i as int))),
                _ => expected(Shape::VariableName, v[2]),
            },
            Tag::Bif => match lower_call(t) {
                Err(e) => Err(e),
                Ok(k) => Ok(ExprV::Bif(Box::new(k))),
            },
            Tag::Atom => match atom_of(v[2]) {
                Err(e) => Err(e),
                Ok(s) => Ok(ExprV::Atom(s)),
            },
            Tag::Int => match int_of(v[2]) {
                Err(e) => Err(e),
                Ok(i) => Ok(ExprV::Int64(i)),
            },
            Tag::Call => match lower_call(t) {
                Err(e) => Err(e),
                Ok(k) => Ok(ExprV::Call(Box::new(k))),
            },
            Tag::Literal => Ok(ExprV::Value { anno: v[1], val: v[2] }),
            Tag::Put => match both(lower_expr(v[2]), lower_expr(v[3])) {
                Err(e) => Err(e),
                Ok((arg, ret)) => Ok(
                    ExprV::Put { anno: v[1], arg: Box::new(arg), ret: Box::new(ret) },
                ),
            },
            Tag::Cons => match both(lower_expr(v[2]), lower_expr(v[3])) {
                Err(e) => Err(e),
                Ok((hd, tl)) => Ok(ExprV::Cons { anno: v[1], hd: Box::new(hd), tl: Box::new(tl) }),
            },
            Tag::Nil => Ok(ExprV::Nil),
            Tag::Protected => match both(lower_expr(v[2]), lower_expr(v[3])) {
                Err(e) => Err(e),
                Ok((arg, ret)) => Ok(
                    ExprV::Protected { anno: v[1], arg: Box::new(arg), ret: Box::new(ret) },
                ),
            },
            Tag::Test => match all3(lower_funref(v[2]), lower_expr_list(v[3]), bool_of(v[4])) {
                Err(e) => Err(e),
                Ok((op, args, inverted)) => Ok(
                    ExprV::Test { anno: v[1], op: Box::new(op), args, inverted },
                ),
            },
            Tag::GuardMatch => match all3(
                lower_expr_list(v[2]),
                lower_expr(v[3]),
                lower_expr(v[4]),
            ) {
                Err(e) => Err(e),
                Ok((vars, body, ret)) => Ok(
                    ExprV::GuardMatch(
                        Box::new(KMatchV { anno: v[1], vars, body: Box::new(body), ret }),
                    ),
                ),
            },
            Tag::Tuple => match lower_expr_list(v[2]) {
                Err(e) => Err(e),
                Ok(elements) => Ok(ExprV::Tuple { anno: v[1], elements }),
            },
            Tag::Binary => match lower_segment(v[2]) {
                Err(e) => Err(e),
                Ok(segments) => Ok(ExprV::ConstructBinary { anno: v[1], segments }),
            },
            Tag::Match => match all3(lower_expr(v[3]), lower_expr_list(v[2]), lower_ret(v[4])) {
                Err(e) => Err(e),
                Ok((body, vars, ret)) => Ok(
                    ExprV::Match(Box::new(KMatchV { anno: v[1], vars, body: Box::new(body), ret })),
                ),
            },
            Tag::Sequence => match both(lower_expr(v[2]), lower_expr(v[3])) {
                Err(e) => Err(e),
                Ok((arg, body)) => Ok(ExprV::Sequence(Box::new(KSeqV { anno: v[1], arg, body }))),
            },
            Tag::Alt => match both(lower_expr(v[2]), lower_expr(v[3])) {
                Err(e) => Err(e),
                Ok((first, then)) => Ok(
                    ExprV::Alt(KAltV { anno: v[1], first: Box::new(first), then: Box::new(then) }),
                ),
            },
            Tag::Enter => match both(lower_funref(v[2]), lower_expr_list(v[3])) {
                Err(e) => Err(e),
                Ok((op, args)) => Ok(ExprV::Enter(Box::new(KEnterV { anno: v[1], op, args }))),
            },
            Tag::Return => match lower_expr_list(v[2]) {
                Err(e) => Err(e),
                Ok(args) => Ok(ExprV::Return(KReturnV { anno: v[1], args })),
            },
            Tag::Select => match both(lower_type_clauses(v[3]), lower_expr(v[2])) {
                Err(e) => Err(e),
                Ok((types, var)) => Ok(ExprV::Select(Box::new(KSelectV { anno: v[1], var, types }))),
            },
            Tag::Guard => match lower_guard_clauses(v[2]) {
                Err(e) => Err(e),
                Ok(clauses) => Ok(ExprV::Guard(KGuardV { anno: v[1], clauses })),
            },
            Tag::GuardBreak => match lower_expr_list(v[2]) {
                Err(e) => Err(e),
                Ok(args) => Ok(ExprV::GuardBreak { anno: v[1], args }),
            },
            Tag::Unsupported | Tag::Unknown => expected(Shape::Form, t),
        }
    }
}

/// What stands where a match returns: nothing, written as the empty list.
pub open spec fn lower_ret(t: TermV) -> Result<ExprV, LowerErrorV> {
    match t {
        TermV::EmptyList => Ok(ExprV::Nil),
        _ => expected(Shape::NoReturnValue, t),
    }
}

/// What a call lowers to: the tag `k_bif` or `k_call`, annotation, the
/// function called, the list of arguments, the list of results.
pub open spec fn lower_call(t: TermV) -> Result<KCallV, LowerErrorV>
    decreases t, 0int,
{
    let v = elements(t);
    if !is_call_form(t) || v.len() != 5 {
        expected(Shape::Form, t)
    } else {
        match all3(lower_funref(v[2]), lower_expr_list(v[3]), lower_expr_list(v[4])) {
            Err(e) => Err(e),
            Ok((op, args, ret)) => Ok(KCallV { anno: v[1], op, args, ret }),
        }
    }
}

/// The function of the runtime system with this name and arity.
pub open spec fn lower_internal(name: TermV, arity: TermV) -> Result<MfaV, LowerErrorV> {
    match both(atom_of(name), arity_of(arity)) {
        Err(e) => Err(e),
        Ok((f, a)) => Ok(MfaV { m: Seq::empty(), f, a }),
    }
}

/// What a function reference lowers to: `k_local` with name and arity,
/// `k_remote` with module, name and arity, `k_internal` with the name and
/// arity of a function of the runtime system, or a `k_bif` call.
pub open spec fn lower_funref(t: TermV) -> Result<FunRefV, LowerErrorV>
    decreases t, 1int,
{
    match t {
        TermV::Tuple(v) => if v.len() == 0 {
            expected(Shape::TaggedTuple, t)
        } else {
            match v[0] {
                TermV::Atom(name) => if name == "k_local"@ {
                    if v.len() != 4 {
                        expected(Shape::Form, t)
                    } else {
                        match both(lower_expr(v[2]), lower_expr(v[3])) {
                            Err(e) => Err(e),
                            Ok((f, arity)) => Ok(FunRefV::FArity { f, arity }),
                        }
                    }
                } else if name == "k_remote"@ {
                    if v.len() != 5 {
                        expected(Shape::Form, t)
                    } else {
                        match all3(lower_expr(v[2]), lower_expr(v[3]), lower_expr(v[4])) {
                            Err(e) => Err(e),
                            Ok((m, f, arity)) => Ok(FunRefV::MFArity { m, f, arity }),
                        }
                    }
                } else if name == "k_internal"@ {
                    if v.len() != 4 {
                        expected(Shape::Form, t)
                    } else {
                        match lower_internal(v[2], v[3]) {
                            Err(e) => Err(e),
                            Ok(mfa) => Ok(FunRefV::Internal(mfa)),
                        }
                    }
                } else if name == "k_bif"@ {
                    match lower_call(t) {
                        Err(e) => Err(e),
                        Ok(k) => Ok(FunRefV::Bif(Box::new(k))),
                    }
                } else {
                    Err(LowerErrorV::UnknownFunRef(name))
                },
                _ => expected(Shape::Atom, v[0]),
            }
        },
        _ => expected(Shape::TaggedTuple, t),
    }
}

/// What the segments of a binary lower to, from the segment `t` on:
/// `{k_bin_seg, anno, size, unit, type, flags, seg, next}` is a segment,
/// `{k_bin_end, anno}` is the end.
pub open spec fn lower_segment(t: TermV) -> Result<Option<Box<KBinarySegmentV>>, LowerErrorV>
    decreases t, 0int,
{
    if t is Tuple && is_record(t, "k_bin_end"@, 2) {
        Ok(None)
    } else if t is Tuple && is_record(t, "k_bin_seg"@, 8) {
        let v = elements(t);
        match all3(
            both(lower_expr(v[2]), unit_of(v[3])),
            both(atom_of(v[4]), atoms_of(v[5])),
            both(lower_expr(v[6]), lower_segment(v[7])),
        ) {
            Err(e) => Err(e),
            Ok(((size, unit), (seg_type, flags), (seg, next))) => Ok(
                Some(
                    Box::new(
                        KBinarySegmentV { anno: v[1], size, unit, seg_type, flags, seg, next },
                    ),
                ),
            ),
        }
    } else {
        expected(Shape::BinarySegment, t)
    }
}

/// What a value clause lowers to: `k_val_clause`, annotation, the value
/// matched, the body.
pub open spec fn lower_val_clause(t: TermV) -> Result<KValClauseV, LowerErrorV>
    decreases t, 0int,
{
    if !is_record(t, "k_val_clause"@, 4) {
        expected(Shape::ValClause, t)
    } else {
        let v = elements(t);
        match both(lower_expr(v[2]), lower_expr(v[3])) {
            Err(e) => Err(e),
            Ok((val, body)) => Ok(KValClauseV { anno: v[1], val, body }),
        }
    }
}

/// What the value clauses of a type clause lower to, in their order.
pub open spec fn lower_val_clauses(t: TermV) -> Result<Seq<KValClauseV>, LowerErrorV>
    decreases t, 1int,
{
    match t {
        TermV::List(s) => collect(val_clause_outcomes(s)),
        TermV::Tuple(s) => collect(val_clause_outcomes(s)),
        TermV::EmptyList | TermV::EmptyTuple => Ok(Seq::empty()),
        _ => expected(Shape::Sequence, t),
    }
}

/// The outcome of lowering each of the value clauses, in their order.
pub open spec fn val_clause_outcomes(s: Seq<TermV>) -> Seq<Result<KValClauseV, LowerErrorV>>
    decreases s, 0int,
{
    Seq::new(
        s.len(),
        |i: int|
            if 0 <= i < s.len() {
                lower_val_clause(s[i])
            } else {
                expected(Shape::ValClause, TermV::EmptyList)
            },
    )
}

/// What a type clause lowers to: `k_type_clause`, annotation, the type,
/// the value clauses.
pub open spec fn lower_type_clause(t: TermV) -> Result<KTypeClauseV, LowerErrorV>
    decreases t, 0int,
{
    if !is_record(t, "k_type_clause"@, 4) {
        expected(Shape::TypeClause, t)
    } else {
        let v = elements(t);
        match both(atom_of(v[2]), lower_val_clauses(v[3])) {
            Err(e) => Err(e),
            Ok((type_tag, values)) => Ok(KTypeClauseV { anno: v[1], type_tag, values }),
        }
    }
}

/// What the type clauses of a select lower to, in their order.
pub open spec fn lower_type_clauses(t: TermV) -> Result<Seq<KTypeClauseV>, LowerErrorV>
    decreases t, 1int,
{
    match t {
        TermV::List(s) => collect(type_clause_outcomes(s)),
        TermV::Tuple(s) => collect(type_clause_outcomes(s)),
        TermV::EmptyList | TermV::EmptyTuple => Ok(Seq::empty()),
        _ => expected(Shape::Sequence, t),
    }
}

/// The outcome of lowering each of the type clauses, in their order.
pub open spec fn type_clause_outcomes(s: Seq<TermV>) -> Seq<Result<KTypeClauseV, LowerErrorV>>
    decreases s, 0int,
{
    Seq::new(
        s.len(),
        |i: int|
            if 0 <= i < s.len() {
                lower_type_clause(s[i])
            } else {
                expected(Shape::TypeClause, TermV::EmptyList)
            },
    )
}

/// What a guard clause lowers to: `k_guard_clause`, annotation, the
/// guard, the body.
pub open spec fn lower_guard_clause(t: TermV) -> Result<KGuardClauseV, LowerErrorV>
    decreases t, 0int,
{
    if !(t is Tuple && is_record(t, "k_guard_clause"@, 4)) {
        expected(Shape::GuardClause, t)
    } else {
        let v = elements(t);
        match both(lower_expr(v[3]), lower_expr(v[2])) {
            Err(e) => Err(e),
            Ok((body, guard)) => Ok(KGuardClauseV { anno: v[1], guard, body }),
        }
    }
}

/// What the clauses of a guard lower to, in their order.
pub open spec fn lower_guard_clauses(t: TermV) -> Result<Seq<KGuardClauseV>, LowerErrorV>
    decreases t, 1int,
{
    match t {
        TermV::List(s) => collect(guard_clause_outcomes(s)),
        TermV::EmptyList => Ok(Seq::empty()),
        _ => expected(Shape::List, t),
    }
}

/// The outcome of lowering each of the guard clauses, in their order.
pub open spec fn guard_clause_outcomes(s: Seq<TermV>) -> Seq<Result<KGuardClauseV, LowerErrorV>>
    decreases s, 0int,
{
    Seq::new(
        s.len(),
        |i: int|
            if 0 <= i < s.len() {
                lower_guard_clause(s[i])
            } else {
                expected(Shape::GuardClause, TermV::EmptyList)
            },
    )
}

/// What an element of a list of imports or exports lowers to.
pub open spec fn lower_mfa(t: TermV) -> Result<MfaV, LowerErrorV> {
    match t {
        TermV::Tuple(v) => if v.len() == 2 {
            match both(atom_of(v[0]), arity_of(v[1])) {
                Err(e) => Err(e),
                Ok((f, a)) => Ok(MfaV { m: Seq::empty(), f, a }),
            }
        } else if v.len() == 3 {
            match all3(atom_of(v[0]), atom_of(v[1]), arity_of(v[2])) {
                Err(e) => Err(e),
                Ok((m, f, a)) => Ok(MfaV { m, f, a }),
            }
        } else {
            expected(Shape::MfaTuple, t)
        },
        _ => expected(Shape::MfaTuple, t),
    }
}

/// The outcome of lowering each element of a list of imports or exports.
pub open spec fn mfa_outcomes(s: Seq<TermV>) -> Seq<Result<MfaV, LowerErrorV>> {
    Seq::new(s.len(), |i: int| lower_mfa(s[i]))
}

/// What a list of imports or exports lowers to: its elements in their
/// order.
pub open spec fn lower_mfa_list(t: TermV) -> Result<Seq<MfaV>, LowerErrorV> {
    match t {
        TermV::List(s) => collect(mfa_outcomes(s)),
        TermV::EmptyList => Ok(Seq::empty()),
        _ => expected(Shape::MfaList, t),
    }
}

/// What a function definition lowers to: `k_fdef`, annotation, name,
/// arity, attributes, body.
pub open spec fn lower_fun(t: TermV) -> Result<FunDefV, LowerErrorV> {
    if !(t is Tuple && is_record(t, "k_fdef"@, 6)) {
        expected(Shape::FunDef, t)
    } else {
        let v = elements(t);
        match all3(lower_expr(v[5]), atom_of(v[2]), arity_of(v[3])) {
            Err(e) => Err(e),
            Ok((k_code, f, a)) => Ok(FunDefV { funarity: MfaV { m: Seq::empty(), f, a }, k_code }),
        }
    }
}

/// The outcome of lowering each function definition, in their order.
pub open spec fn fun_outcomes(s: Seq<TermV>) -> Seq<Result<FunDefV, LowerErrorV>> {
    Seq::new(s.len(), |i: int| lower_fun(s[i]))
}

/// What a list of function definitions lowers to, in their order.
pub open spec fn lower_funs(t: TermV) -> Result<Seq<FunDefV>, LowerErrorV> {
    match t {
        TermV::List(s) => collect(fun_outcomes(s)),
        TermV::EmptyList => Ok(Seq::empty()),
        _ => expected(Shape::FunDefList, t),
    }
}

/// The module that the first five elements of a module definition
/// describe, without functions.
pub open spec fn lower_module_head(v: Seq<TermV>) -> Result<ModuleV, LowerErrorV>
    recommends
        v.len() == 6,
{
    match all3(atom_of(v[2]), lower_mfa_list(v[1]), lower_mfa_list(v[3])) {
        Err(e) => Err(e),
        Ok((name, imports, exports)) => Ok(
            ModuleV { name, imports, exports, attrs: v[4], funs: Map::empty() },
        ),
    }
}

/// What a module definition lowers to: a tuple of tag, imports, name,
/// exports, attributes and function definitions. Of two definitions of
/// one function the later stays.
pub open spec fn lower_module(t: TermV) -> Result<ModuleV, LowerErrorV> {
    match t {
        TermV::Tuple(v) => if v.len() != 6 {
            expected(Shape::KernelModule, t)
        } else {
            match both(lower_module_head(v), lower_funs(v[5])) {
                Err(e) => Err(e),
                Ok((head, funs)) => Ok(
                    ModuleV {
                        name: head.name,
                        imports: head.imports,
                        exports: head.exports,
                        attrs: head.attrs,
                        funs: funs_map(funs),
                    },
                ),
            }
        },
        _ => expected(Shape::KernelModule, t),
    }
}

} // verus!
