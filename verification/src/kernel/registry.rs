//! A module of lowered functions, kept by name and arity.

use vstd::prelude::*;
use crate::erl_types::{
    lemma_mfa_lt_irreflexive, lemma_mfa_lt_total, lemma_mfa_lt_transitive, mfa_lt, mfa_views, MFA,
    MfaV,
};
use crate::fterm::{FTerm, TermV};
use crate::kernel::{Expr, ExprV};

verus! {

/// Mathematical value of a [`FunDef`].
pub struct FunDefV {
    pub funarity: MfaV,
    pub k_code: ExprV,
}

/// Mathematical value of a [`Module`]: `funs` maps the name and arity of
/// each function of the module to its definition.
pub struct ModuleV {
    pub name: Seq<char>,
    pub imports: Seq<MfaV>,
    pub exports: Seq<MfaV>,
    pub attrs: TermV,
    pub funs: Map<MfaV, FunDefV>,
}

/// The map `base` after each definition of `fs` was put under its name
/// and arity, in the order of `fs`: a definition takes the place of an
/// earlier one of the same function.
pub open spec fn with_funs(base: Map<MfaV, FunDefV>, fs: Seq<FunDefV>) -> Map<MfaV, FunDefV>
    decreases fs.len(),
{
    if fs.len() == 0 {
        base
    } else {
        with_funs(base, fs.drop_last()).insert(fs.last().funarity, fs.last())
    }
}

/// The map that holds each definition of `fs` under its name and arity; of
/// two definitions of one function, the later.
pub open spec fn funs_map(fs: Seq<FunDefV>) -> Map<MfaV, FunDefV> {
    with_funs(Map::empty(), fs)
}

/// Each definition comes before the next in the order of [`mfa_lt`].
pub open spec fn strictly_ordered(fs: Seq<FunDefV>) -> bool {
    forall|i: int, j: int|
        0 <= i < j < fs.len() ==> mfa_lt((#[trigger] fs[i]).funarity, (#[trigger] fs[j]).funarity)
}

/// Every key of the map is the name and arity of one of the definitions.
pub proof fn lemma_funs_map_key(fs: Seq<FunDefV>, k: MfaV)
    requires
        funs_map(fs).contains_key(k),
    ensures
        exists|i: int| 0 <= i < fs.len() && (#[trigger] fs[i]).funarity == k,
    decreases fs.len(),
{
    if fs.len() > 0 {
        if fs.last().funarity == k {
            assert(fs[fs.len() - 1].funarity == k);
        } else {
            lemma_funs_map_key(fs.drop_last(), k);
            let i = choose|i: int|
                0 <= i < fs.drop_last().len() && (#[trigger] fs.drop_last()[i]).funarity == k;
            assert(fs[i].funarity == k);
        }
    }
}

/// In an ordered sequence, the map holds each definition under its own
/// name and arity.
pub proof fn lemma_funs_map_index(fs: Seq<FunDefV>, i: int)
    requires
        strictly_ordered(fs),
        0 <= i < fs.len(),
    ensures
        funs_map(fs).contains_key(fs[i].funarity),
        funs_map(fs)[fs[i].funarity] == fs[i],
    decreases fs.len(),
{
    if i < fs.len() - 1 {
        assert(mfa_lt(fs[i].funarity, fs[fs.len() - 1].funarity));
        lemma_mfa_lt_irreflexive(fs[i].funarity);
        assert(strictly_ordered(fs.drop_last())) by {
            assert forall|a: int, b: int| 0 <= a < b < fs.drop_last().len() implies mfa_lt(
                (#[trigger] fs.drop_last()[a]).funarity,
                (#[trigger] fs.drop_last()[b]).funarity,
            ) by {
                assert(mfa_lt(fs[a].funarity, fs[b].funarity));
            }
        }
        lemma_funs_map_index(fs.drop_last(), i);
    }
}

/// Putting a definition at its place in an ordered sequence, in place of
/// the definition of the same function if there is one, keeps the order
/// and adds the definition to the map.
pub proof fn lemma_put_in_order(
    before: Seq<FunDefV>,
    after: Seq<FunDefV>,
    i: int,
    value: FunDefV,
)
    requires
        strictly_ordered(before),
        0 <= i <= before.len(),
        forall|j: int| 0 <= j < i ==> mfa_lt((#[trigger] before[j]).funarity, value.funarity),
        i < before.len() ==> !mfa_lt(before[i].funarity, value.funarity),
        after == if i < before.len() && before[i].funarity == value.funarity {
            before.update(i, value)
        } else {
            before.insert(i, value)
        },
    ensures
        strictly_ordered(after),
        funs_map(after) == funs_map(before).insert(value.funarity, value),
{
    let key = value.funarity;
    let overwrite = i < before.len() && before[i].funarity == key;
    if !overwrite && i < before.len() {
        lemma_mfa_lt_total(key, before[i].funarity);
    }
    assert(strictly_ordered(after)) by {
        assert forall|a: int, b: int| 0 <= a < b < after.len() implies mfa_lt(
            (#[trigger] after[a]).funarity,
            (#[trigger] after[b]).funarity,
        ) by {
            if overwrite {
                assert(mfa_lt(before[a].funarity, before[b].funarity));
            } else if b < i {
                assert(mfa_lt(before[a].funarity, before[b].funarity));
            } else if b == i {
                assert(mfa_lt(before[a].funarity, key));
            } else if a < i {
                assert(mfa_lt(before[a].funarity, before[b - 1].funarity));
            } else if a == i {
                if b - 1 > i {
                    assert(mfa_lt(before[i].funarity, before[b - 1].funarity));
                    lemma_mfa_lt_transitive(key, before[i].funarity, before[b - 1].funarity);
                }
            } else {
                assert(mfa_lt(before[a - 1].funarity, before[b - 1].funarity));
            }
        }
    }
    let target = funs_map(before).insert(key, value);
    let got = funs_map(after);
    assert forall|q: MfaV| #[trigger] got.dom().contains(q) implies target.dom().contains(q)
        && target[q] == got[q] by {
        lemma_funs_map_key(after, q);
        let a = choose|a: int| 0 <= a < after.len() && (#[trigger] after[a]).funarity == q;
        lemma_funs_map_index(after, a);
        if a != i {
            let b = if overwrite || a < i {
                a
            } else {
                a - 1
            };
            assert(after[a] == before[b]);
            lemma_funs_map_index(before, b);
            if q == key {
                lemma_mfa_lt_irreflexive(key);
                if a < i {
                    assert(mfa_lt(after[a].funarity, after[i].funarity));
                } else {
                    assert(mfa_lt(after[i].funarity, after[a].funarity));
                }
            }
        }
    }
    assert forall|q: MfaV| #[trigger] target.dom().contains(q) implies got.dom().contains(q) by {
        if q == key {
            lemma_funs_map_index(after, i);
        } else {
            lemma_funs_map_key(before, q);
            let b = choose|b: int| 0 <= b < before.len() && (#[trigger] before[b]).funarity == q;
            let a = if overwrite || b < i {
                b
            } else {
                b + 1
            };
            assert(after[a] == before[b]);
            lemma_funs_map_index(after, a);
        }
    }
    assert(got.dom() =~= target.dom());
    assert(got =~= target);
}

/// One function of a module: its name and arity, and its body.
#[derive(Debug, PartialEq, Eq)]
pub struct FunDef {
    pub funarity: MFA,
    pub k_code: Expr,
}

impl View for FunDef {
    type V = FunDefV;

    open spec fn view(&self) -> FunDefV {
        FunDefV { funarity: self.funarity@, k_code: self.k_code@ }
    }
}

/// Values of a sequence of definitions, element by element.
pub open spec fn fundef_views(s: Seq<FunDef>) -> Seq<FunDefV> {
    Seq::new(s.len(), |i: int| s[i]@)
}

impl FunDef {
    /// The function `name/arity` of the module at hand, with the body
    /// `k_code`.
    pub fn new(name: String, arity: usize, k_code: Expr) -> (r: FunDef)
        ensures
            r@ == (FunDefV {
                funarity: MfaV { m: Seq::empty(), f: name@, a: arity },
                k_code: k_code@,
            }),
    {
        FunDef { funarity: MFA::new2(name, arity), k_code }
    }
}

/// A Kernel module: its name, what it imports and exports, its
/// attributes as they were read, and its functions in the order of their
/// names and arities.
#[derive(Debug, PartialEq, Eq)]
pub struct Module {
    name: String,
    imports: Vec<MFA>,
    exports: Vec<MFA>,
    attrs: FTerm,
    funs: Vec<FunDef>,
}

impl View for Module {
    type V = ModuleV;

    closed spec fn view(&self) -> ModuleV {
        ModuleV {
            name: self.name@,
            imports: mfa_views(self.imports@),
            exports: mfa_views(self.exports@),
            attrs: self.attrs@,
            funs: funs_map(fundef_views(self.funs@)),
        }
    }
}

impl Module {
    /// The functions of the module in the order in which [`Module::fun_at`]
    /// hands them out.
    pub closed spec fn ordered_funs(&self) -> Seq<FunDefV> {
        fundef_views(self.funs@)
    }

    /// The functions are held in the order of their names and arities, each
    /// once, and they are the functions of the module's value.
    pub open spec fn wf(&self) -> bool {
        &&& strictly_ordered(self.ordered_funs())
        &&& self@.funs == funs_map(self.ordered_funs())
    }

    /// A module without functions.
    pub fn new(name: String, imports: Vec<MFA>, exports: Vec<MFA>, attrs: FTerm) -> (r: Module)
        ensures
            r.wf(),
            r@ == (ModuleV {
                name: name@,
                imports: mfa_views(imports@),
                exports: mfa_views(exports@),
                attrs: attrs@,
                funs: Map::empty(),
            }),
            r.ordered_funs().len() == 0,
    {
        Module { name, imports, exports, attrs, funs: Vec::new() }
    }

    /// Puts `fdef` under its name and arity, in place of the function that
    /// was there, if any.
    pub fn add_fun(&mut self, fdef: FunDef)
        requires
            old(self).wf(),
        ensures
            final(self).wf(),
            final(self)@ == (ModuleV {
                funs: old(self)@.funs.insert(fdef@.funarity, fdef@),
                ..old(self)@
            }),
    {
        let ghost before = fundef_views(self.funs@);
        let ghost key = fdef@.funarity;
        let ghost value = fdef@;
        let mut i: usize = 0;
        loop
            invariant
                i <= self.funs.len(),
                *self == *old(self),
                before == fundef_views(self.funs@),
                key == fdef@.funarity,
                key == fdef.funarity@,
                forall|j: int| 0 <= j < i ==> mfa_lt((#[trigger] before[j]).funarity, key),
            ensures
                i <= self.funs.len(),
                i < self.funs.len() ==> !mfa_lt(before[i as int].funarity, key),
            decreases self.funs.len() - i,
        {
            if i >= self.funs.len() {
                break ;
            }
            if !self.funs[i].funarity.precedes(&fdef.funarity) {
                break ;
            }
            i += 1;
        }
        let overwrite = i < self.funs.len() && self.funs[i].funarity.same(&fdef.funarity);
        if overwrite {
            self.funs.set(i, fdef);
        } else {
            self.funs.insert(i, fdef);
        }
        proof {
            let after = fundef_views(self.funs@);
            if overwrite {
                assert(after =~= before.update(i as int, value));
            } else {
                assert(after =~= before.insert(i as int, value));
            }
            lemma_put_in_order(before, after, i as int, value);
        }
    }

    /// The name of the module.
    pub fn name(&self) -> (r: &String)
        ensures
            r@ == self@.name,
    {
        &self.name
    }

    /// What the module imports, as it was declared.
    pub fn imports(&self) -> (r: &Vec<MFA>)
        ensures
            mfa_views(r@) == self@.imports,
    {
        &self.imports
    }

    /// What the module exports, as it was declared.
    pub fn exports(&self) -> (r: &Vec<MFA>)
        ensures
            mfa_views(r@) == self@.exports,
    {
        &self.exports
    }

    /// The attributes of the module, as they were read.
    pub fn attrs(&self) -> (r: &FTerm)
        ensures
            r@ == self@.attrs,
    {
        &self.attrs
    }

    /// The number of functions of the module.
    pub fn fun_count(&self) -> (r: usize)
        ensures
            r == self.ordered_funs().len(),
    {
        self.funs.len()
    }

    /// The function at place `i` in the order of names and arities.
    pub fn fun_at(&self, i: usize) -> (r: &FunDef)
        requires
            i < self.ordered_funs().len(),
        ensures
            r@ == self.ordered_funs()[i as int],
    {
        &self.funs[i]
    }

    /// The function with this name and arity, if the module has one.
    pub fn get_fun(&self, mfa: &MFA) -> (r: Option<&FunDef>)
        requires
            self.wf(),
        ensures
            match r {
                Some(f) => self@.funs.contains_key(mfa@) && self@.funs[mfa@] == f@,
                None => !self@.funs.contains_key(mfa@),
            },
    {
        let mut i: usize = 0;
        while i < self.funs.len()
            invariant
                i <= self.funs.len(),
                self.wf(),
                forall|j: int|
                    0 <= j < i ==> (#[trigger] self.ordered_funs()[j]).funarity != mfa@,
            decreases self.funs.len() - i,
        {
            if self.funs[i].funarity.same(mfa) {
                proof {
                    lemma_funs_map_index(self.ordered_funs(), i as int);
                }
                return Some(&self.funs[i]);
            }
            i += 1;
        }
        proof {
            if self@.funs.contains_key(mfa@) {
                lemma_funs_map_key(self.ordered_funs(), mfa@);
            }
        }
        None
    }
}

} // verus!
