//! Module:function/arity references and their order.

use vstd::prelude::*;
use crate::text::{decimal, push_decimal};

verus! {

/// Mathematical value of an [`MFA`].
pub struct MfaV {
    pub m: Seq<char>,
    pub f: Seq<char>,
    pub a: usize,
}

/// A reference to a function: module, name and arity. An empty module
/// name stands for the module at hand.
#[derive(Debug, PartialEq, Eq, PartialOrd, Ord)]
pub struct MFA {
    pub m: String,
    pub f: String,
    pub a: usize,
}

impl View for MFA {
    type V = MfaV;

    open spec fn view(&self) -> MfaV {
        MfaV { m: self.m@, f: self.f@, a: self.a }
    }
}

impl Clone for MFA {
    fn clone(&self) -> (r: Self)
        ensures
            r@ == self@,
    {
        MFA { m: self.m.clone(), f: self.f.clone(), a: self.a }
    }
}

/// Values of a sequence of references, element by element.
pub open spec fn mfa_views(s: Seq<MFA>) -> Seq<MfaV> {
    Seq::new(s.len(), |i: int| s[i]@)
}

/// `a` comes before `b` in the dictionary order that compares character
/// by character, by code point, a proper prefix coming first.
pub open spec fn chars_lt(a: Seq<char>, b: Seq<char>) -> bool
    decreases a.len(),
{
    if b.len() == 0 {
        false
    } else if a.len() == 0 {
        true
    } else if a[0] != b[0] {
        a[0] < b[0]
    } else {
        chars_lt(a.drop_first(), b.drop_first())
    }
}

/// `a` comes before `b`: by module, then by function, then by arity.
pub open spec fn mfa_lt(a: MfaV, b: MfaV) -> bool {
    if a.m != b.m {
        chars_lt(a.m, b.m)
    } else if a.f != b.f {
        chars_lt(a.f, b.f)
    } else {
        a.a < b.a
    }
}

/// The text of a reference: `f/a`, or `m:f/a` where the module is named.
pub open spec fn mfa_text(x: MfaV) -> Seq<char> {
    if x.m.len() == 0 {
        x.f + seq!['/'] + decimal(x.a as nat)
    } else {
        x.m + seq![':'] + x.f + seq!['/'] + decimal(x.a as nat)
    }
}

/// No sequence comes before itself.
pub proof fn lemma_chars_lt_irreflexive(a: Seq<char>)
    ensures
        !chars_lt(a, a),
    decreases a.len(),
{
    if a.len() > 0 {
        lemma_chars_lt_irreflexive(a.drop_first());
    }
}

/// The dictionary order is transitive.
pub proof fn lemma_chars_lt_transitive(a: Seq<char>, b: Seq<char>, c: Seq<char>)
    requires
        chars_lt(a, b),
        chars_lt(b, c),
    ensures
        chars_lt(a, c),
    decreases a.len(),
{
    if a.len() > 0 && a[0] == b[0] && b[0] == c[0] {
        lemma_chars_lt_transitive(a.drop_first(), b.drop_first(), c.drop_first());
    }
}

/// Of two different sequences one comes before the other.
pub proof fn lemma_chars_lt_total(a: Seq<char>, b: Seq<char>)
    ensures
        chars_lt(a, b) || a == b || chars_lt(b, a),
    decreases a.len(),
{
    if a.len() == 0 || b.len() == 0 {
        if a.len() == 0 && b.len() == 0 {
            assert(a =~= b);
        }
    } else if a[0] == b[0] {
        lemma_chars_lt_total(a.drop_first(), b.drop_first());
        if a.drop_first() == b.drop_first() {
            assert(a =~= seq![a[0]] + a.drop_first());
            assert(b =~= seq![b[0]] + b.drop_first());
        }
    }
}

/// No reference comes before itself.
pub proof fn lemma_mfa_lt_irreflexive(a: MfaV)
    ensures
        !mfa_lt(a, a),
{
}

/// The order of references is transitive.
pub proof fn lemma_mfa_lt_transitive(a: MfaV, b: MfaV, c: MfaV)
    requires
        mfa_lt(a, b),
        mfa_lt(b, c),
    ensures
        mfa_lt(a, c),
{
    lemma_chars_lt_irreflexive(a.m);
    lemma_chars_lt_irreflexive(a.f);
    if a.m != b.m && b.m != c.m {
        lemma_chars_lt_transitive(a.m, b.m, c.m);
    } else if a.m == b.m && b.m == c.m {
        if a.f != b.f && b.f != c.f {
            lemma_chars_lt_transitive(a.f, b.f, c.f);
        }
    }
}

/// Of two different references one comes before the other.
pub proof fn lemma_mfa_lt_total(a: MfaV, b: MfaV)
    ensures
        mfa_lt(a, b) || a == b || mfa_lt(b, a),
{
    lemma_chars_lt_total(a.m, b.m);
    lemma_chars_lt_total(a.f, b.f);
}

/// Whether `a` comes before `b` in dictionary order.
pub fn str_lt(a: &str, b: &str) -> (r: bool)
    ensures
        r == chars_lt(a@, b@),
{
    let v = crate::text::str_chars(a);
    let w = crate::text::str_chars(b);
    let mut i: usize = 0;
    assert(a@.skip(0) =~= a@);
    assert(b@.skip(0) =~= b@);
    loop
        invariant
            v@ == a@,
            w@ == b@,
            i <= v.len(),
            i <= w.len(),
            chars_lt(a@, b@) == chars_lt(a@.skip(i as int), b@.skip(i as int)),
        decreases v.len() - i,
    {
        if i >= w.len() {
            return false;
        }
        if i >= v.len() {
            return true;
        }
        if v[i] != w[i] {
            return v[i] < w[i];
        }
        assert(a@.skip(i as int).drop_first() =~= a@.skip(i + 1));
        assert(b@.skip(i as int).drop_first() =~= b@.skip(i + 1));
        i += 1;
    }
}

impl MFA {
    /// A reference to a function of the module at hand.
    pub fn new2(f: String, a: usize) -> (r: MFA)
        ensures
            r@ == (MfaV { m: Seq::empty(), f: f@, a }),
    {
        MFA { m: String::new(), f, a }
    }

    /// A reference to a function of the module `m`.
    pub fn new3(m: String, f: String, a: usize) -> (r: MFA)
        ensures
            r@ == (MfaV { m: m@, f: f@, a }),
    {
        MFA { m, f, a }
    }

    /// Whether both name the same function.
    pub fn same(&self, other: &MFA) -> (r: bool)
        ensures
            r == (self@ == other@),
    {
        self.m.as_str().eq(other.m.as_str()) && self.f.as_str().eq(other.f.as_str()) && self.a
            == other.a
    }

    /// Whether `self` comes before `other`.
    pub fn precedes(&self, other: &MFA) -> (r: bool)
        ensures
            r == mfa_lt(self@, other@),
    {
        if !self.m.as_str().eq(other.m.as_str()) {
            str_lt(self.m.as_str(), other.m.as_str())
        } else if !self.f.as_str().eq(other.f.as_str()) {
            str_lt(self.f.as_str(), other.f.as_str())
        } else {
            self.a < other.a
        }
    }

    /// `f/a`, or `m:f/a` where the module is named.
    pub fn to_text(&self) -> (r: String)
        ensures
            r@ == mfa_text(self@),
    {
        let mut out = String::new();
        if !self.m.as_str().is_empty() {
            out.append(self.m.as_str());
            out.push(':');
        }
        out.append(self.f.as_str());
        out.push('/');
        push_decimal(&mut out, self.a as u64);
        assert(out@ =~= mfa_text(self@));
        out
    }
}

} // verus!
