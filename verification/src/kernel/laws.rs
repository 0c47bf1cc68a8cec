//! What holds of lowering as [`crate::kernel::lower`] defines it.

use vstd::prelude::*;
use crate::erl_types::{mfa_text, MfaV};
use crate::fterm::{elements, FTerm, TermV};
use crate::kernel::lower::{
    collect, guard_clause_outcomes, lower_fields, lower_form, lower_funs, lower_guard_clause,
    lower_guard_clauses, lower_mfa, lower_mfa_list, lower_module, lower_type_clause,
    lower_type_clauses, lower_val_clause, lower_val_clauses, mfa_outcomes, outcome, tag_named,
    type_clause_outcomes, val_clause_outcomes, LowerError, LowerErrorV, Tag,
};
use crate::kernel::registry::{funs_map, Module, ModuleV};
use crate::kernel::{ExprV, KGuardClauseV, KGuardV, KSelectV, KTypeClauseV, KValClauseV};
use crate::text::decimal;

verus! {

/// Where a sequence of outcomes collects to values, there are as many
/// values as outcomes, and each value is the outcome at its place.
pub proof fn lemma_collect_elementwise<T>(rs: Seq<Result<T, LowerErrorV>>, out: Seq<T>)
    requires
        collect(rs) == Ok::<Seq<T>, LowerErrorV>(out),
    ensures
        out.len() == rs.len(),
        forall|i: int| 0 <= i < rs.len() ==> #[trigger] rs[i] == Ok::<T, LowerErrorV>(out[i]),
{
    if !(forall|i: int| 0 <= i < rs.len() ==> (#[trigger] rs[i]) is Ok) {
        assert(false);
    }
}

/// An element `{f, a}` of a list of imports or exports lowers to the
/// function `f/a` of the module at hand, and that is also its text.
pub proof fn lemma_mfa_of_pair(f: Seq<char>, a: i64)
    requires
        0 <= a <= usize::MAX,
    ensures
        lower_mfa(TermV::Tuple(seq![TermV::Atom(f), TermV::Int(a)])) == Ok::<MfaV, LowerErrorV>(
            MfaV { m: Seq::empty(), f, a: a as usize },
        ),
        mfa_text(MfaV { m: Seq::empty(), f, a: a as usize }) == f + seq!['/'] + decimal(a as nat),
{
}

/// An element `{m, f, a}` of a list of imports or exports lowers to the
/// function `f/a` of the module `m`; its text is `m:f/a`, where `m` is
/// not the empty atom.
pub proof fn lemma_mfa_of_triple(m: Seq<char>, f: Seq<char>, a: i64)
    requires
        0 <= a <= usize::MAX,
        m.len() > 0,
    ensures
        lower_mfa(TermV::Tuple(seq![TermV::Atom(m), TermV::Atom(f), TermV::Int(a)])) == Ok::<
            MfaV,
            LowerErrorV,
        >(MfaV { m, f, a: a as usize }),
        mfa_text(MfaV { m, f, a: a as usize }) == m + seq![':'] + f + seq!['/'] + decimal(
            a as nat,
        ),
{
}

/// A list of imports or exports lowers element by element, in the order
/// of the list.
pub proof fn lemma_mfa_list_elementwise(items: Seq<TermV>, out: Seq<MfaV>)
    requires
        lower_mfa_list(TermV::List(items)) == Ok::<Seq<MfaV>, LowerErrorV>(out),
    ensures
        out.len() == items.len(),
        forall|i: int|
            0 <= i < items.len() ==> lower_mfa(#[trigger] items[i]) == Ok::<MfaV, LowerErrorV>(
                out[i],
            ),
{
    lemma_collect_elementwise(mfa_outcomes(items), out);
    assert forall|i: int| 0 <= i < items.len() implies lower_mfa(#[trigger] items[i]) == Ok::<
        MfaV,
        LowerErrorV,
    >(out[i]) by {
        assert(mfa_outcomes(items)[i] == lower_mfa(items[i]));
    }
}

/// The parts of a lowered module are what the parts of its definition
/// lower to: the name is the third element, the imports are the second and
/// the exports the fourth, each lowered as a list of references; the
/// attributes are the fifth element as it stands; the functions are those
/// of the sixth.
pub proof fn lemma_module_parts(t: TermV, m: ModuleV)
    requires
        lower_module(t) == Ok::<ModuleV, LowerErrorV>(m),
    ensures
        t is Tuple,
        elements(t).len() == 6,
        elements(t)[2] == TermV::Atom(m.name),
        lower_mfa_list(elements(t)[1]) == Ok::<Seq<MfaV>, LowerErrorV>(m.imports),
        lower_mfa_list(elements(t)[3]) == Ok::<Seq<MfaV>, LowerErrorV>(m.exports),
        m.attrs == elements(t)[4],
        lower_funs(elements(t)[5]) is Ok,
        m.funs == funs_map(lower_funs(elements(t)[5])->Ok_0),
{
}

/// Lowering is a function of the term: two outcomes of lowering terms of
/// the same value are the same, module for module and failure for
/// failure.
pub proof fn lemma_lowering_is_a_function(
    t1: FTerm,
    t2: FTerm,
    r1: Result<Module, LowerError>,
    r2: Result<Module, LowerError>,
)
    requires
        t1@ == t2@,
        outcome(r1) == lower_module(t1@),
        outcome(r2) == lower_module(t2@),
    ensures
        outcome(r1) == outcome(r2),
        r1 is Ok ==> r2 is Ok && r1->Ok_0@ == r2->Ok_0@,
        r1 is Err ==> r2 is Err && r1->Err_0@ == r2->Err_0@,
{
}

/// The value clauses of a type clause lower one by one, in their order.
pub proof fn lemma_val_clauses_keep_order(t: TermV)
    requires
        lower_val_clauses(t) is Ok,
    ensures
        lower_val_clauses(t)->Ok_0.len() == elements(t).len(),
        forall|j: int|
            0 <= j < elements(t).len() ==> lower_val_clause(#[trigger] elements(t)[j]) == Ok::<
                KValClauseV,
                LowerErrorV,
            >(lower_val_clauses(t)->Ok_0[j]),
{
    let out = lower_val_clauses(t)->Ok_0;
    match t {
        TermV::List(s) => {
            lemma_collect_elementwise(val_clause_outcomes(s), out);
            assert forall|j: int| 0 <= j < s.len() implies lower_val_clause(#[trigger] s[j])
                == Ok::<KValClauseV, LowerErrorV>(out[j]) by {
                assert(val_clause_outcomes(s)[j] == lower_val_clause(s[j]));
            }
        },
        TermV::Tuple(s) => {
            lemma_collect_elementwise(val_clause_outcomes(s), out);
            assert forall|j: int| 0 <= j < s.len() implies lower_val_clause(#[trigger] s[j])
                == Ok::<KValClauseV, LowerErrorV>(out[j]) by {
                assert(val_clause_outcomes(s)[j] == lower_val_clause(s[j]));
            }
        },
        _ => {},
    }
}

/// The type clauses of a select lower one by one, in their order.
pub proof fn lemma_type_clauses_keep_order(t: TermV)
    requires
        lower_type_clauses(t) is Ok,
    ensures
        lower_type_clauses(t)->Ok_0.len() == elements(t).len(),
        forall|i: int|
            0 <= i < elements(t).len() ==> lower_type_clause(#[trigger] elements(t)[i]) == Ok::<
                KTypeClauseV,
                LowerErrorV,
            >(lower_type_clauses(t)->Ok_0[i]),
{
    let out = lower_type_clauses(t)->Ok_0;
    match t {
        TermV::List(s) => {
            lemma_collect_elementwise(type_clause_outcomes(s), out);
            assert forall|i: int| 0 <= i < s.len() implies lower_type_clause(#[trigger] s[i])
                == Ok::<KTypeClauseV, LowerErrorV>(out[i]) by {
                assert(type_clause_outcomes(s)[i] == lower_type_clause(s[i]));
            }
        },
        TermV::Tuple(s) => {
            lemma_collect_elementwise(type_clause_outcomes(s), out);
            assert forall|i: int| 0 <= i < s.len() implies lower_type_clause(#[trigger] s[i])
                == Ok::<KTypeClauseV, LowerErrorV>(out[i]) by {
                assert(type_clause_outcomes(s)[i] == lower_type_clause(s[i]));
            }
        },
        _ => {},
    }
}

/// A select keeps the order of its clauses: the lowered select has the
/// type clauses of the term `{k_select, anno, var, types}` in the order of
/// `types`, and each of them has its value clauses in the order in which
/// the term gives them.
pub proof fn lemma_select_keeps_order(t: TermV, k: KSelectV)
    requires
        lower_fields(t, Tag::Select) == Ok::<ExprV, LowerErrorV>(ExprV::Select(Box::new(k))),
    ensures
        k.types.len() == elements(elements(t)[3]).len(),
        forall|i: int|
            0 <= i < k.types.len() ==> {
                let clause = #[trigger] elements(elements(t)[3])[i];
                let values = elements(elements(clause)[3]);
                &&& lower_type_clause(clause) == Ok::<KTypeClauseV, LowerErrorV>(
                    k.types[i],
                )
                &&& k.types[i].values.len() == values.len()
                &&& forall|j: int|
                    0 <= j < values.len() ==> lower_val_clause(#[trigger] values[j]) == Ok::<
                        KValClauseV,
                        LowerErrorV,
                    >(k.types[i].values[j])
            },
{
    let v = elements(t);
    assert(lower_type_clauses(v[3]) == Ok::<Seq<KTypeClauseV>, LowerErrorV>(
        k.types,
    ));
    lemma_type_clauses_keep_order(v[3]);
    assert forall|i: int| 0 <= i < k.types.len() implies {
        let clause = #[trigger] elements(elements(t)[3])[i];
        let values = elements(elements(clause)[3]);
        &&& lower_type_clause(clause) == Ok::<KTypeClauseV, LowerErrorV>(
            k.types[i],
        )
        &&& k.types[i].values.len() == values.len()
        &&& forall|j: int|
            0 <= j < values.len() ==> lower_val_clause(#[trigger] values[j]) == Ok::<
                KValClauseV,
                LowerErrorV,
            >(k.types[i].values[j])
    } by {
        let clause = elements(v[3])[i];
        assert(lower_type_clause(clause) == Ok::<KTypeClauseV, LowerErrorV>(
            k.types[i],
        ));
        let fields = elements(clause);
        assert(lower_val_clauses(fields[3]) == Ok::<Seq<KValClauseV>, LowerErrorV>(
            k.types[i].values,
        ));
        lemma_val_clauses_keep_order(fields[3]);
    }
}

/// A guard keeps the order of its clauses: the lowered guard has the
/// clauses of the term `{k_guard, anno, clauses}` in the order of
/// `clauses`.
pub proof fn lemma_guard_keeps_order(t: TermV, k: KGuardV)
    requires
        lower_fields(t, Tag::Guard) == Ok::<ExprV, LowerErrorV>(ExprV::Guard(k)),
    ensures
        k.clauses.len() == elements(elements(t)[2]).len(),
        forall|i: int|
            0 <= i < k.clauses.len() ==> lower_guard_clause(
                #[trigger] elements(elements(t)[2])[i],
            ) == Ok::<KGuardClauseV, LowerErrorV>(k.clauses[i]),
{
    let v = elements(t);
    assert(lower_guard_clauses(v[2]) == Ok::<Seq<KGuardClauseV>, LowerErrorV>(
        k.clauses,
    ));
    match v[2] {
        TermV::List(s) => {
            lemma_collect_elementwise(guard_clause_outcomes(s), k.clauses);
            assert forall|i: int| 0 <= i < s.len() implies lower_guard_clause(#[trigger] s[i])
                == Ok::<KGuardClauseV, LowerErrorV>(k.clauses[i]) by {
                assert(guard_clause_outcomes(s)[i] == lower_guard_clause(s[i]));
            }
        },
        _ => {},
    }
}

/// A tuple of four elements whose first is the atom `k_select` is lowered
/// as a select.
pub proof fn lemma_select_by_tag(t: TermV)
    requires
        t is Tuple,
        elements(t).len() == 4,
        elements(t)[0] == TermV::Atom("k_select"@),
    ensures
        lower_form(t) == lower_fields(t, Tag::Select),
{
    reveal_strlit("k_select");
    reveal_strlit("k_var");
    reveal_strlit("k_bif");
    reveal_strlit("k_atom");
    reveal_strlit("k_int");
    reveal_strlit("k_call");
    reveal_strlit("k_literal");
    reveal_strlit("k_put");
    reveal_strlit("k_cons");
    reveal_strlit("k_nil");
    reveal_strlit("k_protected");
    reveal_strlit("k_test");
    reveal_strlit("k_guard_match");
    reveal_strlit("k_tuple");
    reveal_strlit("k_binary");
    reveal_strlit("k_match");
    reveal_strlit("k_seq");
    reveal_strlit("k_alt");
    reveal_strlit("k_enter");
    reveal_strlit("k_return");
    assert("k_select"@.len() == 8);
    assert("k_select"@[2] == 's');
    assert("k_var"@.len() == 5);
    assert("k_bif"@.len() == 5);
    assert("k_atom"@.len() == 6);
    assert("k_int"@.len() == 5);
    assert("k_call"@.len() == 6);
    assert("k_literal"@.len() == 9);
    assert("k_put"@.len() == 5);
    assert("k_cons"@.len() == 6);
    assert("k_nil"@.len() == 5);
    assert("k_protected"@.len() == 11);
    assert("k_test"@.len() == 6);
    assert("k_guard_match"@.len() == 13);
    assert("k_tuple"@.len() == 7);
    assert("k_binary"@[2] == 'b');
    assert("k_match"@.len() == 7);
    assert("k_seq"@.len() == 5);
    assert("k_alt"@.len() == 5);
    assert("k_enter"@.len() == 7);
    assert("k_return"@[2] == 'r');
    assert(tag_named("k_select"@) == Tag::Select);
}

} // verus!
