//! The fact store: dotted names, type-fact bitsets, and the per-branch
//! condition facts with their merge operations.
//!
//! A `Name` is a non-empty dotted chain of interned symbols; it keys every
//! fact map. `CondFacts` holds the three maps of one branch; `Facts` pairs
//! the true branch with the false branch. Contracts speak through the
//! lookup functions `fm_get`, `vm_get` and `em_get`.

use vstd::prelude::*;
use crate::ty::Sym;
use crate::ty::Ty;
use crate::ty::TyV;
use crate::ty::lemma_tys_view;
use crate::ty::tys_view;
use crate::sym::SYM_BIGINT;
use crate::sym::SYM_BOOLEAN;
use crate::sym::SYM_FUNCTION;
use crate::sym::SYM_NUMBER;
use crate::sym::SYM_OBJECT;
use crate::sym::SYM_STRING;
use crate::sym::SYM_SYMBOL;
use crate::sym::SYM_UNDEFINED;

verus! {

// ------------------------------------------------------------------
// Names.
// ------------------------------------------------------------------

/// A dotted name `a.b.c`: a non-empty ordered chain of symbols.
pub struct Name {
    pub parts: Vec<Sym>,
}

impl View for Name {
    type V = Seq<Sym>;

    open spec fn view(&self) -> Seq<Sym> {
        self.parts@
    }
}

impl Name {
    /// Well-formed: at least one segment.
    pub open spec fn wf(&self) -> bool {
        self@.len() > 0
    }

    /// The name of a single identifier.
    pub fn ident(s: Sym) -> (r: Name)
        ensures r@ == seq![s], r.wf(),
    {
        let mut parts: Vec<Sym> = Vec::new();
        parts.push(s);
        proof {
            assert(parts@ =~= seq![s]);
        }
        Name { parts }
    }

    /// The number of segments.
    pub fn len(&self) -> (r: usize)
        ensures r == self@.len(),
    {
        self.parts.len()
    }

    /// The segment at `i`.
    pub fn segment(&self, i: usize) -> (r: Sym)
        requires i < self@.len(),
        ensures r == self@[i as int],
    {
        self.parts[i]
    }

    /// Append one segment, as member access does.
    pub fn push(&mut self, s: Sym)
        ensures final(self)@ == old(self)@.push(s),
    {
        self.parts.push(s);
    }

    /// Whether two names are the same chain.
    pub fn same(&self, other: &Name) -> (r: bool)
        ensures r == (self@ == other@),
    {
        if self.parts.len() != other.parts.len() {
            return false;
        }
        let mut i: usize = 0;
        while i < self.parts.len()
            invariant
                i <= self.parts.len(),
                self@.len() == other@.len(),
                forall|j: int| 0 <= j < i as int ==> self@[j] == other@[j],
            decreases self@.len() - i as int,
        {
            if self.parts[i] != other.parts[i] {
                return false;
            }
            i = i + 1;
        }
        proof {
            assert(self@ =~= other@);
        }
        true
    }
}

impl Clone for Name {
    /// Copy a name.
    fn clone(&self) -> (r: Self)
        ensures r@ == self@,
    {
        let mut parts: Vec<Sym> = Vec::new();
        let mut i: usize = 0;
        while i < self.parts.len()
            invariant
                i <= self.parts.len(),
                parts@.len() == i as int,
                forall|j: int| 0 <= j < i as int ==> parts@[j] == self@[j],
            decreases self@.len() - i as int,
        {
            parts.push(self.parts[i]);
            i = i + 1;
        }
        proof {
            assert(parts@ =~= self@);
        }
        Name { parts }
    }
}

// ------------------------------------------------------------------
// Type-fact bitsets.
// ------------------------------------------------------------------

/// The empty fact set.
pub const FACT_NONE: u32 = 0;

/// The value is truthy.
pub const FACT_TRUTHY: u32 = 1u32 << 0;

/// The value is falsy.
pub const FACT_FALSY: u32 = 1u32 << 1;

/// The value is not `undefined`.
pub const FACT_NE_UNDEFINED: u32 = 1u32 << 2;

/// The value is `undefined`.
pub const FACT_EQ_UNDEFINED: u32 = 1u32 << 3;

/// The value is not `null`.
pub const FACT_NE_NULL: u32 = 1u32 << 4;

/// The value is `null`.
pub const FACT_EQ_NULL: u32 = 1u32 << 5;

/// `typeof` the value is `"string"`.
pub const FACT_TYPEOF_EQ_STRING: u32 = 1u32 << 6;

/// `typeof` the value is `"number"`.
pub const FACT_TYPEOF_EQ_NUMBER: u32 = 1u32 << 7;

/// `typeof` the value is `"boolean"`.
pub const FACT_TYPEOF_EQ_BOOLEAN: u32 = 1u32 << 8;

/// `typeof` the value is `"object"`.
pub const FACT_TYPEOF_EQ_OBJECT: u32 = 1u32 << 9;

/// `typeof` the value is `"function"`.
pub const FACT_TYPEOF_EQ_FUNCTION: u32 = 1u32 << 10;

/// `typeof` the value is `"symbol"`.
pub const FACT_TYPEOF_EQ_SYMBOL: u32 = 1u32 << 11;

/// `typeof` the value is `"bigint"`.
pub const FACT_TYPEOF_EQ_BIGINT: u32 = 1u32 << 12;

/// `typeof` the value is not `"string"`.
pub const FACT_TYPEOF_NE_STRING: u32 = 1u32 << 13;

/// `typeof` the value is not `"number"`.
pub const FACT_TYPEOF_NE_NUMBER: u32 = 1u32 << 14;

/// `typeof` the value is not `"boolean"`.
pub const FACT_TYPEOF_NE_BOOLEAN: u32 = 1u32 << 15;

/// `typeof` the value is not `"object"`.
pub const FACT_TYPEOF_NE_OBJECT: u32 = 1u32 << 16;

/// `typeof` the value is not `"function"`.
pub const FACT_TYPEOF_NE_FUNCTION: u32 = 1u32 << 17;

/// `typeof` the value is not `"symbol"`.
pub const FACT_TYPEOF_NE_SYMBOL: u32 = 1u32 << 18;

/// `typeof` the value is not `"bigint"`.
pub const FACT_TYPEOF_NE_BIGINT: u32 = 1u32 << 19;

/// The facts established when `typeof x` equals the given string, or `None`
/// for a string that is no `typeof` result.
pub open spec fn typeof_eq_v(s: Sym) -> Option<u32> {
    if s == SYM_STRING {
        Some(FACT_TYPEOF_EQ_STRING)
    } else if s == SYM_NUMBER {
        Some(FACT_TYPEOF_EQ_NUMBER)
    } else if s == SYM_BOOLEAN {
        Some(FACT_TYPEOF_EQ_BOOLEAN)
    } else if s == SYM_OBJECT {
        Some(FACT_TYPEOF_EQ_OBJECT)
    } else if s == SYM_FUNCTION {
        Some(FACT_TYPEOF_EQ_FUNCTION)
    } else if s == SYM_SYMBOL {
        Some(FACT_TYPEOF_EQ_SYMBOL)
    } else if s == SYM_BIGINT {
        Some(FACT_TYPEOF_EQ_BIGINT)
    } else if s == SYM_UNDEFINED {
        Some(FACT_EQ_UNDEFINED)
    } else {
        None
    }
}

/// The facts established when `typeof x` differs from the given string.
pub open spec fn typeof_neq_v(s: Sym) -> Option<u32> {
    if s == SYM_STRING {
        Some(FACT_TYPEOF_NE_STRING)
    } else if s == SYM_NUMBER {
        Some(FACT_TYPEOF_NE_NUMBER)
    } else if s == SYM_BOOLEAN {
        Some(FACT_TYPEOF_NE_BOOLEAN)
    } else if s == SYM_OBJECT {
        Some(FACT_TYPEOF_NE_OBJECT)
    } else if s == SYM_FUNCTION {
        Some(FACT_TYPEOF_NE_FUNCTION)
    } else if s == SYM_SYMBOL {
        Some(FACT_TYPEOF_NE_SYMBOL)
    } else if s == SYM_BIGINT {
        Some(FACT_TYPEOF_NE_BIGINT)
    } else if s == SYM_UNDEFINED {
        Some(FACT_NE_UNDEFINED)
    } else {
        None
    }
}

/// The facts established when `typeof x` equals the given string.
pub fn typeof_eq(s: Sym) -> (r: Option<u32>)
    ensures r == typeof_eq_v(s),
{
    if s == SYM_STRING {
        Some(FACT_TYPEOF_EQ_STRING)
    } else if s == SYM_NUMBER {
        Some(FACT_TYPEOF_EQ_NUMBER)
    } else if s == SYM_BOOLEAN {
        Some(FACT_TYPEOF_EQ_BOOLEAN)
    } else if s == SYM_OBJECT {
        Some(FACT_TYPEOF_EQ_OBJECT)
    } else if s == SYM_FUNCTION {
        Some(FACT_TYPEOF_EQ_FUNCTION)
    } else if s == SYM_SYMBOL {
        Some(FACT_TYPEOF_EQ_SYMBOL)
    } else if s == SYM_BIGINT {
        Some(FACT_TYPEOF_EQ_BIGINT)
    } else if s == SYM_UNDEFINED {
        Some(FACT_EQ_UNDEFINED)
    } else {
        None
    }
}

/// The facts established when `typeof x` differs from the given string.
pub fn typeof_neq(s: Sym) -> (r: Option<u32>)
    ensures r == typeof_neq_v(s),
{
    if s == SYM_STRING {
        Some(FACT_TYPEOF_NE_STRING)
    } else if s == SYM_NUMBER {
        Some(FACT_TYPEOF_NE_NUMBER)
    } else if s == SYM_BOOLEAN {
        Some(FACT_TYPEOF_NE_BOOLEAN)
    } else if s == SYM_OBJECT {
        Some(FACT_TYPEOF_NE_OBJECT)
    } else if s == SYM_FUNCTION {
        Some(FACT_TYPEOF_NE_FUNCTION)
    } else if s == SYM_SYMBOL {
        Some(FACT_TYPEOF_NE_SYMBOL)
    } else if s == SYM_BIGINT {
        Some(FACT_TYPEOF_NE_BIGINT)
    } else if s == SYM_UNDEFINED {
        Some(FACT_NE_UNDEFINED)
    } else {
        None
    }
}


// ------------------------------------------------------------------
// The fact map: Name -> fact bitset.
// ------------------------------------------------------------------

/// Look a key up in an entry list; the latest entry wins.
pub open spec fn fm_get(s: Seq<(Name, u32)>, k: Seq<Sym>) -> Option<u32>
    decreases s,
{
    if s.len() == 0 {
        None
    } else if s.last().0@ == k {
        Some(s.last().1)
    } else {
        fm_get(s.drop_last(), k)
    }
}

/// No two entries share a key.
pub open spec fn fm_wf(s: Seq<(Name, u32)>) -> bool {
    forall|i: int, j: int| 0 <= i < j < s.len() ==> (#[trigger] s[i]).0@ != (#[trigger] s[j]).0@
}

/// Combine two optional fact sets by bitwise AND, a missing side giving way.
pub open spec fn and_combine(a: Option<u32>, b: Option<u32>) -> Option<u32> {
    match (a, b) {
        (Some(x), Some(y)) => Some(x & y),
        (Some(x), None) => Some(x),
        (None, Some(y)) => Some(y),
        (None, None) => None,
    }
}

proof fn lemma_fm_update(s: Seq<(Name, u32)>, i: int, e: (Name, u32), k2: Seq<Sym>)
    requires
        fm_wf(s),
        0 <= i < s.len(),
        s[i].0@ == e.0@,
    ensures
        fm_get(s.update(i, e), k2) == if k2 == e.0@ { Some(e.1) } else { fm_get(s, k2) },
    decreases s,
{
    let u = s.update(i, e);
    if i == s.len() - 1 {
        assert(u.last() == e);
        assert(u.drop_last() =~= s.drop_last());
        if k2 != e.0@ {
            assert(s.last().0@ == e.0@);
        }
    } else {
        assert(u.last() == s.last());
        assert(u.drop_last() =~= s.drop_last().update(i, e));
        assert(s.drop_last()[i] == s[i]);
        lemma_fm_update(s.drop_last(), i, e, k2);
        if k2 == e.0@ {
            assert(s.last().0@ != s[i].0@);
        }
    }
}

/// A map from names to fact bitsets, with unique keys.
pub struct FactMap {
    pub entries: Vec<(Name, u32)>,
}

impl FactMap {
    /// Well-formed: unique keys.
    pub open spec fn wf(&self) -> bool {
        fm_wf(self.entries@)
    }

    /// The fact set recorded for `k`.
    pub open spec fn spec_get(&self, k: Seq<Sym>) -> Option<u32> {
        fm_get(self.entries@, k)
    }

    /// The empty fact map.
    pub fn empty() -> (r: FactMap)
        ensures
            r.wf(),
            forall|k: Seq<Sym>| #[trigger] r.spec_get(k) is None,
            r.entries@.len() == 0,
    {
        FactMap { entries: Vec::new() }
    }

    /// Look up the fact set recorded for a name.
    #[verifier::loop_isolation(false)]
    pub fn get(&self, k: &Name) -> (r: Option<u32>)
        ensures r == self.spec_get(k@),
    {
        let ghost s = self.entries@;
        let mut i: usize = self.entries.len();
        proof {
            assert(s.take(i as int) =~= s);
        }
        while i > 0
            invariant
                i <= self.entries.len(),
                fm_get(s, k@) == fm_get(s.take(i as int), k@),
            decreases i,
        {
            i = i - 1;
            proof {
                assert(s.take(i as int + 1).drop_last() =~= s.take(i as int));
                assert(s.take(i as int + 1).last() == s[i as int]);
            }
            if self.entries[i].0.same(k) {
                return Some(self.entries[i].1);
            }
        }
        proof {
            assert(s.take(0) =~= Seq::<(Name, u32)>::empty());
        }
        None
    }

    /// Record `v` for `k`, replacing what was there.
    #[verifier::loop_isolation(false)]
    pub fn set(&mut self, k: Name, v: u32)
        requires old(self).wf(),
        ensures
            final(self).wf(),
            forall|k2: Seq<Sym>| #[trigger] final(self).spec_get(k2)
                == if k2 == k@ { Some(v) } else { old(self).spec_get(k2) },
    {
        let ghost s = self.entries@;
        let mut i: usize = 0;
        while i < self.entries.len()
            invariant
                i <= self.entries.len(),
                self.entries@ == s,
                forall|j: int| 0 <= j < i as int ==> (#[trigger] s[j]).0@ != k@,
            decreases s.len() - i as int,
        {
            if self.entries[i].0.same(&k) {
                self.entries[i] = (k, v);
                proof {
                    assert forall|k2: Seq<Sym>| #[trigger] fm_get(self.entries@, k2)
                        == if k2 == s[i as int].0@ { Some(v) } else { fm_get(s, k2) } by {
                        lemma_fm_update(s, i as int, (k, v), k2);
                    }
                }
                return;
            }
            i = i + 1;
        }
        self.entries.push((k, v));
        proof {
            assert(self.entries@.drop_last() =~= s);
            assert forall|i2: int, j2: int| 0 <= i2 < j2 < self.entries@.len()
                implies (#[trigger] self.entries@[i2]).0@ != (#[trigger] self.entries@[j2]).0@ by {
                if j2 == self.entries@.len() - 1 {
                    assert(self.entries@[i2] == s[i2]);
                } else {
                    assert(self.entries@[i2] == s[i2]);
                    assert(self.entries@[j2] == s[j2]);
                }
            }
        }
    }

    /// AND `v` into the entry for `k`; a vacant entry takes `v` whole.
    pub fn and_or_insert(&mut self, k: &Name, v: u32)
        requires old(self).wf(),
        ensures
            final(self).wf(),
            forall|k2: Seq<Sym>| #[trigger] final(self).spec_get(k2)
                == if k2 == k@ { and_combine(old(self).spec_get(k@), Some(v)) } else { old(self).spec_get(k2) },
    {
        let kc = k.clone();
        match self.get(k) {
            Some(x) => self.set(kc, x & v),
            None => self.set(kc, v),
        }
    }

    /// AND `v` into the entry for `k`; a vacant entry stays vacant.
    pub fn and_if_present(&mut self, k: &Name, v: u32)
        requires old(self).wf(),
        ensures
            final(self).wf(),
            forall|k2: Seq<Sym>| #[trigger] final(self).spec_get(k2)
                == if k2 == k@ && old(self).spec_get(k@) is Some {
                    Some(old(self).spec_get(k@)->0 & v)
                } else {
                    old(self).spec_get(k2)
                },
    {
        let kc = k.clone();
        match self.get(k) {
            Some(x) => self.set(kc, x & v),
            None => {},
        }
    }


    /// AND every entry of `other` into this map where the key is already
    /// present; keys absent here are dropped, not inherited. This is the
    /// merge the true branch of `||` uses.
    #[verifier::loop_isolation(false)]
    pub fn merge_and_present(&mut self, other: &FactMap)
        requires old(self).wf(), other.wf(),
        ensures
            final(self).wf(),
            forall|k: Seq<Sym>| #[trigger] final(self).spec_get(k)
                == match (old(self).spec_get(k), other.spec_get(k)) {
                    (Some(a), Some(b)) => Some(a & b),
                    _ => old(self).spec_get(k),
                },
    {
        let ghost o = other.entries@;
        let mut i: usize = 0;
        while i < other.entries.len()
            invariant
                i <= other.entries.len(),
                self.wf(),
                forall|k: Seq<Sym>| #[trigger] self.spec_get(k)
                    == match (old(self).spec_get(k), fm_get(o.take(i as int), k)) {
                        (Some(a), Some(b)) => Some(a & b),
                        _ => old(self).spec_get(k),
                    },
            decreases o.len() - i as int,
        {
            proof {
                assert(o.take(i as int + 1).drop_last() =~= o.take(i as int));
                assert(o.take(i as int + 1).last() == o[i as int]);
                assert(fm_get(o.take(i as int), o[i as int].0@) is None) by {
                    lemma_fm_prefix_absent(o, i as int);
                }
            }
            let nm = &other.entries[i].0;
            let v = other.entries[i].1;
            self.and_if_present(nm, v);
            i = i + 1;
        }
        proof {
            assert(o.take(o.len() as int) =~= o);
        }
    }

    /// AND every entry of `other` into this map; keys on one side only keep
    /// their facts whole. This is the merge the `+=` of `CondFacts` uses.
    #[verifier::loop_isolation(false)]
    pub fn merge_and(&mut self, other: &FactMap)
        requires old(self).wf(), other.wf(),
        ensures
            final(self).wf(),
            forall|k: Seq<Sym>| #[trigger] final(self).spec_get(k)
                == and_combine(old(self).spec_get(k), other.spec_get(k)),
    {
        let ghost o = other.entries@;
        let mut i: usize = 0;
        while i < other.entries.len()
            invariant
                i <= other.entries.len(),
                self.wf(),
                forall|k: Seq<Sym>| #[trigger] self.spec_get(k)
                    == and_combine(old(self).spec_get(k), fm_get(o.take(i as int), k)),
            decreases o.len() - i as int,
        {
            proof {
                assert(o.take(i as int + 1).drop_last() =~= o.take(i as int));
                assert(o.take(i as int + 1).last() == o[i as int]);
                assert forall|j: int| 0 <= j < i as int implies (#[trigger] o[j]).0@ != o[i as int].0@ by {}
                assert(fm_get(o.take(i as int), o[i as int].0@) is None) by {
                    lemma_fm_prefix_absent(o, i as int);
                }
            }
            let nm = &other.entries[i].0;
            let v = other.entries[i].1;
            self.and_or_insert(nm, v);
            i = i + 1;
        }
        proof {
            assert(o.take(o.len() as int) =~= o);
        }
    }
}

/// In a well-formed list, a key's entry is not in the strict prefix before it.
proof fn lemma_fm_prefix_absent(s: Seq<(Name, u32)>, i: int)
    requires fm_wf(s), 0 <= i < s.len(),
    ensures fm_get(s.take(i), s[i].0@) is None,
    decreases i,
{
    if i > 0 {
        assert(s.take(i).last() == s[i - 1]);
        assert(s[i - 1].0@ != s[i].0@);
        assert(s.take(i).drop_last() =~= s.take(i - 1));
        lemma_fm_prefix_absent_helper(s, i, i - 1);
    }
}

proof fn lemma_fm_prefix_absent_helper(s: Seq<(Name, u32)>, i: int, j: int)
    requires fm_wf(s), 0 <= i < s.len(), 0 <= j < i,
    ensures fm_get(s.take(j + 1), s[i].0@) is None,
    decreases j,
{
    assert(s.take(j + 1).last() == s[j]);
    assert(s[j].0@ != s[i].0@);
    assert(s.take(j + 1).drop_last() =~= s.take(j));
    if j > 0 {
        lemma_fm_prefix_absent_helper(s, i, j - 1);
    } else {
        assert(s.take(0) =~= Seq::<(Name, u32)>::empty());
        assert(fm_get(s.take(0), s[i].0@) is None);
    }
}


// ------------------------------------------------------------------
// The var map: Name -> replacement type.
// ------------------------------------------------------------------

/// Look a key up in a var entry list; the latest entry wins.
pub open spec fn vm_get(s: Seq<(Name, Ty)>, k: Seq<Sym>) -> Option<TyV>
    decreases s,
{
    if s.len() == 0 {
        None
    } else if s.last().0@ == k {
        Some(s.last().1@)
    } else {
        vm_get(s.drop_last(), k)
    }
}

/// No two entries share a key.
pub open spec fn vm_wf(s: Seq<(Name, Ty)>) -> bool {
    forall|i: int, j: int| 0 <= i < j < s.len() ==> (#[trigger] s[i]).0@ != (#[trigger] s[j]).0@
}

proof fn lemma_vm_update(s: Seq<(Name, Ty)>, i: int, e: (Name, Ty), k2: Seq<Sym>)
    requires
        vm_wf(s),
        0 <= i < s.len(),
        s[i].0@ == e.0@,
    ensures
        vm_get(s.update(i, e), k2) == if k2 == e.0@ { Some(e.1@) } else { vm_get(s, k2) },
    decreases s,
{
    let u = s.update(i, e);
    if i == s.len() - 1 {
        assert(u.last() == e);
        assert(u.drop_last() =~= s.drop_last());
        if k2 != e.0@ {
            assert(s.last().0@ == e.0@);
        }
    } else {
        assert(u.last() == s.last());
        assert(u.drop_last() =~= s.drop_last().update(i, e));
        assert(s.drop_last()[i] == s[i]);
        lemma_vm_update(s.drop_last(), i, e, k2);
        if k2 == e.0@ {
            assert(s.last().0@ != s[i].0@);
        }
    }
}

proof fn lemma_vm_prefix_absent(s: Seq<(Name, Ty)>, i: int, j: int)
    requires vm_wf(s), 0 <= i < s.len(), 0 <= j < i,
    ensures vm_get(s.take(j + 1), s[i].0@) is None,
    decreases j,
{
    assert(s.take(j + 1).last() == s[j]);
    assert(s[j].0@ != s[i].0@);
    assert(s.take(j + 1).drop_last() =~= s.take(j));
    if j > 0 {
        lemma_vm_prefix_absent(s, i, j - 1);
    } else {
        assert(s.take(0) =~= Seq::<(Name, Ty)>::empty());
        assert(vm_get(s.take(0), s[i].0@) is None);
    }
}

/// A map from names to wholesale replacement types, with unique keys.
pub struct VarMap {
    pub entries: Vec<(Name, Ty)>,
}

impl VarMap {
    /// Well-formed: unique keys.
    pub open spec fn wf(&self) -> bool {
        vm_wf(self.entries@)
    }

    /// The type recorded for `k`.
    pub open spec fn spec_get(&self, k: Seq<Sym>) -> Option<TyV> {
        vm_get(self.entries@, k)
    }

    /// The empty var map.
    pub fn empty() -> (r: VarMap)
        ensures
            r.wf(),
            forall|k: Seq<Sym>| #[trigger] r.spec_get(k) is None,
            r.entries@.len() == 0,
    {
        VarMap { entries: Vec::new() }
    }

    /// Look up, and copy, the type recorded for a name.
    #[verifier::loop_isolation(false)]
    pub fn get(&self, k: &Name) -> (r: Option<Ty>)
        ensures
            match r {
                Some(t) => self.spec_get(k@) == Some(t@),
                None => self.spec_get(k@) is None,
            },
    {
        let ghost s = self.entries@;
        let mut i: usize = self.entries.len();
        proof {
            assert(s.take(i as int) =~= s);
        }
        while i > 0
            invariant
                i <= self.entries.len(),
                vm_get(s, k@) == vm_get(s.take(i as int), k@),
            decreases i,
        {
            i = i - 1;
            proof {
                assert(s.take(i as int + 1).drop_last() =~= s.take(i as int));
                assert(s.take(i as int + 1).last() == s[i as int]);
            }
            if self.entries[i].0.same(k) {
                return Some(self.entries[i].1.clone());
            }
        }
        proof {
            assert(s.take(0) =~= Seq::<(Name, Ty)>::empty());
        }
        None
    }

    /// Record `v` for `k`, replacing what was there.
    #[verifier::loop_isolation(false)]
    pub fn set(&mut self, k: Name, v: Ty)
        requires old(self).wf(),
        ensures
            final(self).wf(),
            forall|k2: Seq<Sym>| #[trigger] final(self).spec_get(k2)
                == if k2 == k@ { Some(v@) } else { old(self).spec_get(k2) },
    {
        let ghost s = self.entries@;
        let ghost vv = v@;
        let mut i: usize = 0;
        while i < self.entries.len()
            invariant
                i <= self.entries.len(),
                self.entries@ == s,
                forall|j: int| 0 <= j < i as int ==> (#[trigger] s[j]).0@ != k@,
            decreases s.len() - i as int,
        {
            if self.entries[i].0.same(&k) {
                self.entries[i] = (k, v);
                proof {
                    assert forall|k2: Seq<Sym>| #[trigger] vm_get(self.entries@, k2)
                        == if k2 == s[i as int].0@ { Some(vv) } else { vm_get(s, k2) } by {
                        lemma_vm_update(s, i as int, self.entries@[i as int], k2);
                    }
                }
                return;
            }
            i = i + 1;
        }
        self.entries.push((k, v));
        proof {
            assert(self.entries@.drop_last() =~= s);
            assert forall|i2: int, j2: int| 0 <= i2 < j2 < self.entries@.len()
                implies (#[trigger] self.entries@[i2]).0@ != (#[trigger] self.entries@[j2]).0@ by {
                if j2 == self.entries@.len() - 1 {
                    assert(self.entries@[i2] == s[i2]);
                } else {
                    assert(self.entries@[i2] == s[i2]);
                    assert(self.entries@[j2] == s[j2]);
                }
            }
        }
    }

    /// Record every entry of `other` in this map; `other` wins on shared keys.
    #[verifier::loop_isolation(false)]
    pub fn merge_set(&mut self, other: &VarMap)
        requires old(self).wf(), other.wf(),
        ensures
            final(self).wf(),
            forall|k: Seq<Sym>| #[trigger] final(self).spec_get(k)
                == if other.spec_get(k) is Some { other.spec_get(k) } else { old(self).spec_get(k) },
    {
        let ghost o = other.entries@;
        let mut i: usize = 0;
        while i < other.entries.len()
            invariant
                i <= other.entries.len(),
                self.wf(),
                forall|k: Seq<Sym>| #[trigger] self.spec_get(k)
                    == if vm_get(o.take(i as int), k) is Some {
                        vm_get(o.take(i as int), k)
                    } else {
                        old(self).spec_get(k)
                    },
            decreases o.len() - i as int,
        {
            proof {
                assert(o.take(i as int + 1).drop_last() =~= o.take(i as int));
                assert(o.take(i as int + 1).last() == o[i as int]);
            }
            let nm = other.entries[i].0.clone();
            let v = other.entries[i].1.clone();
            self.set(nm, v);
            i = i + 1;
        }
        proof {
            assert(o.take(o.len() as int) =~= o);
        }
    }
}

// ------------------------------------------------------------------
// The excludes map: Name -> ordered types to subtract.
// ------------------------------------------------------------------

/// Look a key up in an excludes entry list; the latest entry wins.
pub open spec fn em_get(s: Seq<(Name, Vec<Ty>)>, k: Seq<Sym>) -> Option<Seq<TyV>>
    decreases s,
{
    if s.len() == 0 {
        None
    } else if s.last().0@ == k {
        Some(tys_view(s.last().1@))
    } else {
        em_get(s.drop_last(), k)
    }
}

/// No two entries share a key.
pub open spec fn em_wf(s: Seq<(Name, Vec<Ty>)>) -> bool {
    forall|i: int, j: int| 0 <= i < j < s.len() ==> (#[trigger] s[i]).0@ != (#[trigger] s[j]).0@
}

/// The recorded excludes for `k`, the empty sequence where none are.
pub open spec fn em_got(s: Seq<(Name, Vec<Ty>)>, k: Seq<Sym>) -> Seq<TyV> {
    match em_get(s, k) {
        Some(ts) => ts,
        None => Seq::empty(),
    }
}

proof fn lemma_em_update(s: Seq<(Name, Vec<Ty>)>, i: int, e: (Name, Vec<Ty>), k2: Seq<Sym>)
    requires
        em_wf(s),
        0 <= i < s.len(),
        s[i].0@ == e.0@,
    ensures
        em_get(s.update(i, e), k2) == if k2 == e.0@ { Some(tys_view(e.1@)) } else { em_get(s, k2) },
    decreases s,
{
    let u = s.update(i, e);
    if i == s.len() - 1 {
        assert(u.last() == e);
        assert(u.drop_last() =~= s.drop_last());
        if k2 != e.0@ {
            assert(s.last().0@ == e.0@);
        }
    } else {
        assert(u.last() == s.last());
        assert(u.drop_last() =~= s.drop_last().update(i, e));
        assert(s.drop_last()[i] == s[i]);
        lemma_em_update(s.drop_last(), i, e, k2);
        if k2 == e.0@ {
            assert(s.last().0@ != s[i].0@);
        }
    }
}

/// A map from names to the ordered types excluded from them.
pub struct ExcludeMap {
    pub entries: Vec<(Name, Vec<Ty>)>,
}

impl ExcludeMap {
    /// Well-formed: unique keys.
    pub open spec fn wf(&self) -> bool {
        em_wf(self.entries@)
    }

    /// The excludes recorded for `k`.
    pub open spec fn spec_get(&self, k: Seq<Sym>) -> Option<Seq<TyV>> {
        em_get(self.entries@, k)
    }

    /// The excludes recorded for `k`, empty where none are.
    pub open spec fn spec_got(&self, k: Seq<Sym>) -> Seq<TyV> {
        em_got(self.entries@, k)
    }

    /// The empty excludes map.
    pub fn empty() -> (r: ExcludeMap)
        ensures
            r.wf(),
            forall|k: Seq<Sym>| #[trigger] r.spec_get(k) is None,
            r.entries@.len() == 0,
    {
        ExcludeMap { entries: Vec::new() }
    }

    /// Look up, and copy, the excludes recorded for a name.
    #[verifier::loop_isolation(false)]
    pub fn get(&self, k: &Name) -> (r: Option<Vec<Ty>>)
        ensures
            match r {
                Some(ts) => self.spec_get(k@) == Some(tys_view(ts@)),
                None => self.spec_get(k@) is None,
            },
    {
        let ghost s = self.entries@;
        let mut i: usize = self.entries.len();
        proof {
            assert(s.take(i as int) =~= s);
        }
        while i > 0
            invariant
                i <= self.entries.len(),
                em_get(s, k@) == em_get(s.take(i as int), k@),
            decreases i,
        {
            i = i - 1;
            proof {
                assert(s.take(i as int + 1).drop_last() =~= s.take(i as int));
                assert(s.take(i as int + 1).last() == s[i as int]);
            }
            if self.entries[i].0.same(k) {
                let c = crate::structural::clone_tys(&self.entries[i].1);
                return Some(c);
            }
        }
        proof {
            assert(s.take(0) =~= Seq::<(Name, Vec<Ty>)>::empty());
        }
        None
    }

    /// Record `ts` for `k`, replacing what was there.
    #[verifier::loop_isolation(false)]
    pub fn set(&mut self, k: Name, ts: Vec<Ty>)
        requires old(self).wf(),
        ensures
            final(self).wf(),
            forall|k2: Seq<Sym>| #[trigger] final(self).spec_get(k2)
                == if k2 == k@ { Some(tys_view(ts@)) } else { old(self).spec_get(k2) },
    {
        let ghost s = self.entries@;
        let ghost vv = tys_view(ts@);
        let mut i: usize = 0;
        while i < self.entries.len()
            invariant
                i <= self.entries.len(),
                self.entries@ == s,
                forall|j: int| 0 <= j < i as int ==> (#[trigger] s[j]).0@ != k@,
            decreases s.len() - i as int,
        {
            if self.entries[i].0.same(&k) {
                self.entries[i] = (k, ts);
                proof {
                    assert forall|k2: Seq<Sym>| #[trigger] em_get(self.entries@, k2)
                        == if k2 == s[i as int].0@ { Some(vv) } else { em_get(s, k2) } by {
                        lemma_em_update(s, i as int, self.entries@[i as int], k2);
                    }
                }
                return;
            }
            i = i + 1;
        }
        self.entries.push((k, ts));
        proof {
            assert(self.entries@.drop_last() =~= s);
            assert forall|i2: int, j2: int| 0 <= i2 < j2 < self.entries@.len()
                implies (#[trigger] self.entries@[i2]).0@ != (#[trigger] self.entries@[j2]).0@ by {
                if j2 == self.entries@.len() - 1 {
                    assert(self.entries@[i2] == s[i2]);
                } else {
                    assert(self.entries@[i2] == s[i2]);
                    assert(self.entries@[j2] == s[j2]);
                }
            }
        }
    }

    /// Append `t` to the excludes of `k`, starting a list where none was.
    pub fn push_to(&mut self, k: &Name, t: Ty)
        requires old(self).wf(),
        ensures
            final(self).wf(),
            forall|k2: Seq<Sym>| #[trigger] final(self).spec_get(k2)
                == if k2 == k@ { Some(em_got(old(self).entries@, k@).push(t@)) } else { old(self).spec_get(k2) },
    {
        let kc = k.clone();
        match self.get(k) {
            Some(mut ts) => {
                let ghost before = ts@;
                proof {
                    lemma_tys_view(before);
                }
                ts.push(t);
                proof {
                    lemma_tys_view(ts@);
                    assert(tys_view(ts@) =~= tys_view(before).push(t@));
                }
                self.set(kc, ts);
            },
            None => {
                let mut ts: Vec<Ty> = Vec::new();
                ts.push(t);
                proof {
                    lemma_tys_view(ts@);
                    assert(tys_view(ts@) =~= Seq::<TyV>::empty().push(t@));
                }
                self.set(kc, ts);
            },
        }
    }

    /// Append every entry of `other` to this map, list after list.
    #[verifier::loop_isolation(false)]
    pub fn merge_append(&mut self, other: &ExcludeMap)
        requires old(self).wf(), other.wf(),
        ensures
            final(self).wf(),
            forall|k: Seq<Sym>| #[trigger] final(self).spec_get(k)
                == match (old(self).spec_get(k), other.spec_get(k)) {
                    (Some(a), Some(b)) => Some(a + b),
                    (Some(a), None) => Some(a),
                    (None, Some(b)) => Some(b),
                    (None, None) => None::<Seq<TyV>>,
                },
    {
        let ghost o = other.entries@;
        let mut i: usize = 0;
        while i < other.entries.len()
            invariant
                i <= other.entries.len(),
                self.wf(),
                forall|k: Seq<Sym>| #[trigger] self.spec_get(k)
                    == match (old(self).spec_get(k), em_get(o.take(i as int), k)) {
                        (Some(a), Some(b)) => Some(a + b),
                        (Some(a), None) => Some(a),
                        (None, Some(b)) => Some(b),
                        (None, None) => None::<Seq<TyV>>,
                    },
            decreases o.len() - i as int,
        {
            proof {
                assert(o.take(i as int + 1).drop_last() =~= o.take(i as int));
                assert(o.take(i as int + 1).last() == o[i as int]);
                assert(em_get(o.take(i as int), o[i as int].0@) is None) by {
                    if i > 0 {
                        lemma_em_prefix_absent(o, i as int, i as int - 1);
                    } else {
                        assert(o.take(0) =~= Seq::<(Name, Vec<Ty>)>::empty());
                    }
                }
            }
            let nm = other.entries[i].0.clone();
            match self.get(&nm) {
                Some(mut ts) => {
                    let ghost before = ts@;
                    proof {
                        lemma_tys_view(before);
                        lemma_tys_view(other.entries[i as int].1@);
                    }
                    let mut j: usize = 0;
                    let src = &other.entries[i].1;
                    while j < src.len()
                        invariant
                            j <= src.len(),
                            ts@.len() == before.len() + j as int,
                            forall|m: int| 0 <= m < before.len() ==> ts@[m]@ == before[m]@,
                            forall|m: int| 0 <= m < j as int ==> ts@[before.len() + m]@ == src@[m]@,
                        decreases src@.len() - j as int,
                    {
                        let c = src[j].clone();
                        ts.push(c);
                        j = j + 1;
                    }
                    proof {
                        lemma_tys_view(ts@);
                        lemma_tys_view(before);
                        lemma_tys_view(src@);
                        assert(tys_view(ts@) =~= tys_view(before) + tys_view(src@));
                    }
                    self.set(nm, ts);
                },
                None => {
                    let ts = crate::structural::clone_tys(&other.entries[i].1);
                    self.set(nm, ts);
                },
            }
            i = i + 1;
        }
        proof {
            assert(o.take(o.len() as int) =~= o);
        }
    }
}

proof fn lemma_em_prefix_absent(s: Seq<(Name, Vec<Ty>)>, i: int, j: int)
    requires em_wf(s), 0 <= i < s.len(), 0 <= j < i,
    ensures em_get(s.take(j + 1), s[i].0@) is None,
    decreases j,
{
    assert(s.take(j + 1).last() == s[j]);
    assert(s[j].0@ != s[i].0@);
    assert(s.take(j + 1).drop_last() =~= s.take(j));
    if j > 0 {
        lemma_em_prefix_absent(s, i, j - 1);
    } else {
        assert(s.take(0) =~= Seq::<(Name, Vec<Ty>)>::empty());
        assert(em_get(s.take(0), s[i].0@) is None);
    }
}


// ------------------------------------------------------------------
// Condition facts and the analyzer's fact pair.
// ------------------------------------------------------------------

proof fn lemma_fm_congruent(a: Seq<(Name, u32)>, b: Seq<(Name, u32)>, k: Seq<Sym>)
    requires
        a.len() == b.len(),
        forall|i: int| 0 <= i < a.len() ==> (#[trigger] a[i]).0@ == b[i].0@ && a[i].1 == b[i].1,
    ensures fm_get(a, k) == fm_get(b, k),
    decreases a,
{
    if a.len() > 0 {
        assert(a.last() == a[a.len() - 1]);
        assert(b.last() == b[a.len() - 1]);
        assert forall|i: int| 0 <= i < a.drop_last().len()
            implies (#[trigger] a.drop_last()[i]).0@ == b.drop_last()[i].0@
                && a.drop_last()[i].1 == b.drop_last()[i].1 by {
            assert(a.drop_last()[i] == a[i]);
            assert(b.drop_last()[i] == b[i]);
        }
        lemma_fm_congruent(a.drop_last(), b.drop_last(), k);
    }
}

proof fn lemma_vm_congruent(a: Seq<(Name, Ty)>, b: Seq<(Name, Ty)>, k: Seq<Sym>)
    requires
        a.len() == b.len(),
        forall|i: int| 0 <= i < a.len() ==> (#[trigger] a[i]).0@ == b[i].0@ && a[i].1@ == b[i].1@,
    ensures vm_get(a, k) == vm_get(b, k),
    decreases a,
{
    if a.len() > 0 {
        assert(a.last() == a[a.len() - 1]);
        assert(b.last() == b[a.len() - 1]);
        assert forall|i: int| 0 <= i < a.drop_last().len()
            implies (#[trigger] a.drop_last()[i]).0@ == b.drop_last()[i].0@
                && a.drop_last()[i].1@ == b.drop_last()[i].1@ by {
            assert(a.drop_last()[i] == a[i]);
            assert(b.drop_last()[i] == b[i]);
        }
        lemma_vm_congruent(a.drop_last(), b.drop_last(), k);
    }
}

proof fn lemma_em_congruent(a: Seq<(Name, Vec<Ty>)>, b: Seq<(Name, Vec<Ty>)>, k: Seq<Sym>)
    requires
        a.len() == b.len(),
        forall|i: int| 0 <= i < a.len() ==> (#[trigger] a[i]).0@ == b[i].0@
            && tys_view(a[i].1@) == tys_view(b[i].1@),
    ensures em_get(a, k) == em_get(b, k),
    decreases a,
{
    if a.len() > 0 {
        assert(a.last() == a[a.len() - 1]);
        assert(b.last() == b[a.len() - 1]);
        assert forall|i: int| 0 <= i < a.drop_last().len()
            implies (#[trigger] a.drop_last()[i]).0@ == b.drop_last()[i].0@
                && tys_view(a.drop_last()[i].1@) == tys_view(b.drop_last()[i].1@) by {
            assert(a.drop_last()[i] == a[i]);
            assert(b.drop_last()[i] == b[i]);
        }
        lemma_em_congruent(a.drop_last(), b.drop_last(), k);
    }
}

impl Clone for FactMap {
    /// Copy a fact map; every lookup is preserved.
    #[verifier::loop_isolation(false)]
    fn clone(&self) -> (r: Self)
        ensures
            r.entries@.len() == self.entries@.len(),
            forall|k: Seq<Sym>| #[trigger] r.spec_get(k) == self.spec_get(k),
            self.wf() ==> r.wf(),
    {
        let mut entries: Vec<(Name, u32)> = Vec::new();
        let mut i: usize = 0;
        while i < self.entries.len()
            invariant
                i <= self.entries.len(),
                entries@.len() == i as int,
                forall|j: int| 0 <= j < i as int ==> (#[trigger] entries@[j]).0@ == self.entries@[j].0@
                    && entries@[j].1 == self.entries@[j].1,
            decreases self.entries@.len() - i as int,
        {
            let nm = self.entries[i].0.clone();
            entries.push((nm, self.entries[i].1));
            i = i + 1;
        }
        proof {
            assert forall|k: Seq<Sym>| #[trigger] fm_get(entries@, k) == fm_get(self.entries@, k) by {
                lemma_fm_congruent(entries@, self.entries@, k);
            }
        }
        FactMap { entries }
    }
}

impl Clone for VarMap {
    /// Copy a var map; every lookup is preserved.
    #[verifier::loop_isolation(false)]
    fn clone(&self) -> (r: Self)
        ensures
            r.entries@.len() == self.entries@.len(),
            forall|k: Seq<Sym>| #[trigger] r.spec_get(k) == self.spec_get(k),
            self.wf() ==> r.wf(),
    {
        let mut entries: Vec<(Name, Ty)> = Vec::new();
        let mut i: usize = 0;
        while i < self.entries.len()
            invariant
                i <= self.entries.len(),
                entries@.len() == i as int,
                forall|j: int| 0 <= j < i as int ==> (#[trigger] entries@[j]).0@ == self.entries@[j].0@
                    && entries@[j].1@ == self.entries@[j].1@,
            decreases self.entries@.len() - i as int,
        {
            let nm = self.entries[i].0.clone();
            let t = self.entries[i].1.clone();
            entries.push((nm, t));
            i = i + 1;
        }
        proof {
            assert forall|k: Seq<Sym>| #[trigger] vm_get(entries@, k) == vm_get(self.entries@, k) by {
                lemma_vm_congruent(entries@, self.entries@, k);
            }
        }
        VarMap { entries }
    }
}

impl Clone for ExcludeMap {
    /// Copy an excludes map; every lookup is preserved.
    #[verifier::loop_isolation(false)]
    fn clone(&self) -> (r: Self)
        ensures
            r.entries@.len() == self.entries@.len(),
            forall|k: Seq<Sym>| #[trigger] r.spec_get(k) == self.spec_get(k),
            self.wf() ==> r.wf(),
    {
        let mut entries: Vec<(Name, Vec<Ty>)> = Vec::new();
        let mut i: usize = 0;
        while i < self.entries.len()
            invariant
                i <= self.entries.len(),
                entries@.len() == i as int,
                forall|j: int| 0 <= j < i as int ==> (#[trigger] entries@[j]).0@ == self.entries@[j].0@
                    && tys_view(entries@[j].1@) == tys_view(self.entries@[j].1@),
            decreases self.entries@.len() - i as int,
        {
            let nm = self.entries[i].0.clone();
            let ts = crate::structural::clone_tys(&self.entries[i].1);
            entries.push((nm, ts));
            i = i + 1;
        }
        proof {
            assert forall|k: Seq<Sym>| #[trigger] em_get(entries@, k) == em_get(self.entries@, k) by {
                lemma_em_congruent(entries@, self.entries@, k);
            }
        }
        ExcludeMap { entries }
    }
}

/// The facts of one branch: bit refinements, wholesale replacement types,
/// and excluded types, each keyed by a dotted name.
pub struct CondFacts {
    pub facts: FactMap,
    pub vars: VarMap,
    pub excludes: ExcludeMap,
}

impl CondFacts {
    /// Well-formed: the three maps have unique keys.
    pub open spec fn wf(&self) -> bool {
        self.facts.wf() && self.vars.wf() && self.excludes.wf()
    }

    /// Nothing is recorded.
    pub open spec fn is_empty(&self) -> bool {
        &&& forall|k: Seq<Sym>| #[trigger] self.facts.spec_get(k) is None
        &&& forall|k: Seq<Sym>| #[trigger] self.vars.spec_get(k) is None
        &&& forall|k: Seq<Sym>| #[trigger] self.excludes.spec_get(k) is None
    }

    /// The empty branch facts.
    pub fn empty() -> (r: CondFacts)
        ensures r.wf(), r.is_empty(),
    {
        CondFacts { facts: FactMap::empty(), vars: VarMap::empty(), excludes: ExcludeMap::empty() }
    }

    /// Take the current value out, leaving the empty one.
    pub fn take(&mut self) -> (r: CondFacts)
        ensures
            r == *old(self),
            final(self).wf(),
            final(self).is_empty(),
    {
        let mut out = CondFacts::empty();
        core::mem::swap(&mut out, self);
        out
    }

    /// The commutative-monoid merge: bitwise AND on `facts`, later
    /// assignment on `vars`, append on `excludes`. Keys on one side only
    /// keep their record whole.
    pub fn add(&mut self, other: &CondFacts)
        requires old(self).wf(), other.wf(),
        ensures
            final(self).wf(),
            forall|k: Seq<Sym>| #[trigger] final(self).facts.spec_get(k)
                == and_combine(old(self).facts.spec_get(k), other.facts.spec_get(k)),
            forall|k: Seq<Sym>| #[trigger] final(self).vars.spec_get(k)
                == if other.vars.spec_get(k) is Some { other.vars.spec_get(k) } else { old(self).vars.spec_get(k) },
            forall|k: Seq<Sym>| #[trigger] final(self).excludes.spec_get(k)
                == match (old(self).excludes.spec_get(k), other.excludes.spec_get(k)) {
                    (Some(a), Some(b)) => Some(a + b),
                    (Some(a), None) => Some(a),
                    (None, Some(b)) => Some(b),
                    (None, None) => None::<Seq<TyV>>,
                },
    {
        self.facts.merge_and(&other.facts);
        self.vars.merge_set(&other.vars);
        self.excludes.merge_append(&other.excludes);
    }
}

impl Clone for CondFacts {
    /// Copy the branch facts; every lookup is preserved.
    fn clone(&self) -> (r: Self)
        ensures
            forall|k: Seq<Sym>| #[trigger] r.facts.spec_get(k) == self.facts.spec_get(k),
            forall|k: Seq<Sym>| #[trigger] r.vars.spec_get(k) == self.vars.spec_get(k),
            forall|k: Seq<Sym>| #[trigger] r.excludes.spec_get(k) == self.excludes.spec_get(k),
            self.wf() ==> r.wf(),
    {
        CondFacts {
            facts: self.facts.clone(),
            vars: self.vars.clone(),
            excludes: self.excludes.clone(),
        }
    }
}

/// What holds if the latest condition was truthy, and what holds if it was
/// falsy.
pub struct Facts {
    pub true_facts: CondFacts,
    pub false_facts: CondFacts,
}

impl Facts {
    /// Well-formed: both branches are.
    pub open spec fn wf(&self) -> bool {
        self.true_facts.wf() && self.false_facts.wf()
    }

    /// Nothing is recorded on either branch.
    pub open spec fn is_empty(&self) -> bool {
        self.true_facts.is_empty() && self.false_facts.is_empty()
    }

    /// The empty fact pair.
    pub fn empty() -> (r: Facts)
        ensures r.wf(), r.is_empty(),
    {
        Facts { true_facts: CondFacts::empty(), false_facts: CondFacts::empty() }
    }

    /// Take the current value out, leaving the empty one.
    pub fn take(&mut self) -> (r: Facts)
        ensures
            r == *old(self),
            final(self).wf(),
            final(self).is_empty(),
    {
        let mut out = Facts::empty();
        core::mem::swap(&mut out, self);
        out
    }

    /// Merge branchwise, with the merge of `CondFacts`.
    pub fn add(&mut self, other: &Facts)
        requires old(self).wf(), other.wf(),
        ensures
            final(self).wf(),
            forall|k: Seq<Sym>| #[trigger] final(self).true_facts.facts.spec_get(k)
                == and_combine(old(self).true_facts.facts.spec_get(k), other.true_facts.facts.spec_get(k)),
            forall|k: Seq<Sym>| #[trigger] final(self).true_facts.vars.spec_get(k)
                == if other.true_facts.vars.spec_get(k) is Some {
                    other.true_facts.vars.spec_get(k)
                } else {
                    old(self).true_facts.vars.spec_get(k)
                },
            forall|k: Seq<Sym>| #[trigger] final(self).true_facts.excludes.spec_get(k)
                == match (old(self).true_facts.excludes.spec_get(k), other.true_facts.excludes.spec_get(k)) {
                    (Some(a), Some(b)) => Some(a + b),
                    (Some(a), None) => Some(a),
                    (None, Some(b)) => Some(b),
                    (None, None) => None::<Seq<TyV>>,
                },
            forall|k: Seq<Sym>| #[trigger] final(self).false_facts.facts.spec_get(k)
                == and_combine(old(self).false_facts.facts.spec_get(k), other.false_facts.facts.spec_get(k)),
            forall|k: Seq<Sym>| #[trigger] final(self).false_facts.vars.spec_get(k)
                == if other.false_facts.vars.spec_get(k) is Some {
                    other.false_facts.vars.spec_get(k)
                } else {
                    old(self).false_facts.vars.spec_get(k)
                },
            forall|k: Seq<Sym>| #[trigger] final(self).false_facts.excludes.spec_get(k)
                == match (old(self).false_facts.excludes.spec_get(k), other.false_facts.excludes.spec_get(k)) {
                    (Some(a), Some(b)) => Some(a + b),
                    (Some(a), None) => Some(a),
                    (None, Some(b)) => Some(b),
                    (None, None) => None::<Seq<TyV>>,
                },
    {
        self.true_facts.add(&other.true_facts);
        self.false_facts.add(&other.false_facts);
    }
}

impl Clone for Facts {
    /// Copy the fact pair; every lookup is preserved.
    fn clone(&self) -> (r: Self)
        ensures
            forall|k: Seq<Sym>| #[trigger] r.true_facts.facts.spec_get(k) == self.true_facts.facts.spec_get(k),
            forall|k: Seq<Sym>| #[trigger] r.true_facts.vars.spec_get(k) == self.true_facts.vars.spec_get(k),
            forall|k: Seq<Sym>| #[trigger] r.true_facts.excludes.spec_get(k) == self.true_facts.excludes.spec_get(k),
            forall|k: Seq<Sym>| #[trigger] r.false_facts.facts.spec_get(k) == self.false_facts.facts.spec_get(k),
            forall|k: Seq<Sym>| #[trigger] r.false_facts.vars.spec_get(k) == self.false_facts.vars.spec_get(k),
            forall|k: Seq<Sym>| #[trigger] r.false_facts.excludes.spec_get(k) == self.false_facts.excludes.spec_get(k),
            self.wf() ==> r.wf(),
    {
        Facts { true_facts: self.true_facts.clone(), false_facts: self.false_facts.clone() }
    }
}


// ------------------------------------------------------------------
// Map-level views of the fact stores.
// ------------------------------------------------------------------

/// Ghost mirror of one branch's facts: three maps from dotted names to
/// their records.
#[verifier::ext_equal]
pub struct CondFactsV {
    pub facts: Map<Seq<Sym>, u32>,
    pub vars: Map<Seq<Sym>, TyV>,
    pub excludes: Map<Seq<Sym>, Seq<TyV>>,
}

/// Ghost mirror of the analyzer's fact pair.
#[verifier::ext_equal]
pub struct FactsV {
    pub true_facts: CondFactsV,
    pub false_facts: CondFactsV,
}

impl View for FactMap {
    type V = Map<Seq<Sym>, u32>;

    open spec fn view(&self) -> Map<Seq<Sym>, u32> {
        Map::new(|k: Seq<Sym>| self.spec_get(k) is Some, |k: Seq<Sym>| self.spec_get(k)->0)
    }
}

impl View for VarMap {
    type V = Map<Seq<Sym>, TyV>;

    open spec fn view(&self) -> Map<Seq<Sym>, TyV> {
        Map::new(|k: Seq<Sym>| self.spec_get(k) is Some, |k: Seq<Sym>| self.spec_get(k)->0)
    }
}

impl View for ExcludeMap {
    type V = Map<Seq<Sym>, Seq<TyV>>;

    open spec fn view(&self) -> Map<Seq<Sym>, Seq<TyV>> {
        Map::new(|k: Seq<Sym>| self.spec_get(k) is Some, |k: Seq<Sym>| self.spec_get(k)->0)
    }
}

impl View for CondFacts {
    type V = CondFactsV;

    open spec fn view(&self) -> CondFactsV {
        CondFactsV { facts: self.facts@, vars: self.vars@, excludes: self.excludes@ }
    }
}

impl View for Facts {
    type V = FactsV;

    open spec fn view(&self) -> FactsV {
        FactsV { true_facts: self.true_facts@, false_facts: self.false_facts@ }
    }
}

/// The empty branch facts, at the map level.
pub open spec fn cf_empty_v() -> CondFactsV {
    CondFactsV { facts: Map::empty(), vars: Map::empty(), excludes: Map::empty() }
}

/// The empty fact pair, at the map level.
pub open spec fn facts_empty_v() -> FactsV {
    FactsV { true_facts: cf_empty_v(), false_facts: cf_empty_v() }
}

/// The AND-merge of two fact maps: shared keys AND, one-sided keys whole.
pub open spec fn fmap_and(a: Map<Seq<Sym>, u32>, b: Map<Seq<Sym>, u32>) -> Map<Seq<Sym>, u32> {
    Map::new(
        |k: Seq<Sym>| a.contains_key(k) || b.contains_key(k),
        |k: Seq<Sym>| if a.contains_key(k) && b.contains_key(k) {
            a[k] & b[k]
        } else if a.contains_key(k) {
            a[k]
        } else {
            b[k]
        },
    )
}

/// The drop-vacant AND-merge: keys of `a` only, ANDed with `b` where `b`
/// has them.
pub open spec fn fmap_and_present(a: Map<Seq<Sym>, u32>, b: Map<Seq<Sym>, u32>) -> Map<Seq<Sym>, u32> {
    Map::new(
        |k: Seq<Sym>| a.contains_key(k),
        |k: Seq<Sym>| if b.contains_key(k) {
            a[k] & b[k]
        } else {
            a[k]
        },
    )
}

/// The later-assignment merge of two var maps: `b` wins on shared keys.
pub open spec fn vmap_over(a: Map<Seq<Sym>, TyV>, b: Map<Seq<Sym>, TyV>) -> Map<Seq<Sym>, TyV> {
    Map::new(
        |k: Seq<Sym>| a.contains_key(k) || b.contains_key(k),
        |k: Seq<Sym>| if b.contains_key(k) {
            b[k]
        } else {
            a[k]
        },
    )
}

/// The append-merge of two excludes maps.
pub open spec fn emap_append(a: Map<Seq<Sym>, Seq<TyV>>, b: Map<Seq<Sym>, Seq<TyV>>) -> Map<Seq<Sym>, Seq<TyV>> {
    Map::new(
        |k: Seq<Sym>| a.contains_key(k) || b.contains_key(k),
        |k: Seq<Sym>| if a.contains_key(k) && b.contains_key(k) {
            a[k] + b[k]
        } else if a.contains_key(k) {
            a[k]
        } else {
            b[k]
        },
    )
}

/// The `+=` of branch facts, at the map level: AND on `facts`, later
/// assignment on `vars`, append on `excludes`.
pub open spec fn cf_add_v(a: CondFactsV, b: CondFactsV) -> CondFactsV {
    CondFactsV {
        facts: fmap_and(a.facts, b.facts),
        vars: vmap_over(a.vars, b.vars),
        excludes: emap_append(a.excludes, b.excludes),
    }
}

/// The recorded excludes of a name, the empty sequence where none are.
pub open spec fn emap_got(m: Map<Seq<Sym>, Seq<TyV>>, k: Seq<Sym>) -> Seq<TyV> {
    if m.contains_key(k) {
        m[k]
    } else {
        Seq::empty()
    }
}

// ------------------------------------------------------------------
// Bridges from the pointwise contracts to the map level.
// ------------------------------------------------------------------

/// A map whose every lookup is `None` is the empty map.
pub proof fn lemma_fm_empty_bridge(m: FactMap)
    requires forall|k: Seq<Sym>| #[trigger] m.spec_get(k) is None,
    ensures m@ == Map::<Seq<Sym>, u32>::empty(),
{
    assert(m@ =~= Map::<Seq<Sym>, u32>::empty());
}

/// Replacing one key is a map insert.
pub proof fn lemma_fm_set_bridge(pre: FactMap, post: FactMap, k: Seq<Sym>, v: u32)
    requires forall|k2: Seq<Sym>| #[trigger] post.spec_get(k2)
        == if k2 == k { Some(v) } else { pre.spec_get(k2) },
    ensures post@ == pre@.insert(k, v),
{
    assert(post@ =~= pre@.insert(k, v));
}

/// The AND-merge contract of `merge_and` at the map level.
pub proof fn lemma_fm_merge_and_bridge(pre: FactMap, other: FactMap, post: FactMap)
    requires forall|k: Seq<Sym>| #[trigger] post.spec_get(k)
        == and_combine(pre.spec_get(k), other.spec_get(k)),
    ensures post@ == fmap_and(pre@, other@),
{
    assert(post@ =~= fmap_and(pre@, other@));
}

/// The drop-vacant AND-merge contract of `merge_and_present` at the map
/// level.
pub proof fn lemma_fm_merge_and_present_bridge(pre: FactMap, other: FactMap, post: FactMap)
    requires forall|k: Seq<Sym>| #[trigger] post.spec_get(k)
        == match (pre.spec_get(k), other.spec_get(k)) {
            (Some(a), Some(b)) => Some(a & b),
            _ => pre.spec_get(k),
        },
    ensures post@ == fmap_and_present(pre@, other@),
{
    assert(post@ =~= fmap_and_present(pre@, other@));
}

/// A map whose every lookup is `None` is the empty map.
pub proof fn lemma_vm_empty_bridge(m: VarMap)
    requires forall|k: Seq<Sym>| #[trigger] m.spec_get(k) is None,
    ensures m@ == Map::<Seq<Sym>, TyV>::empty(),
{
    assert(m@ =~= Map::<Seq<Sym>, TyV>::empty());
}

/// Replacing one key is a map insert.
pub proof fn lemma_vm_set_bridge(pre: VarMap, post: VarMap, k: Seq<Sym>, v: TyV)
    requires forall|k2: Seq<Sym>| #[trigger] post.spec_get(k2)
        == if k2 == k { Some(v) } else { pre.spec_get(k2) },
    ensures post@ == pre@.insert(k, v),
{
    assert(post@ =~= pre@.insert(k, v));
}

/// A map whose every lookup is `None` is the empty map.
pub proof fn lemma_em_empty_bridge(m: ExcludeMap)
    requires forall|k: Seq<Sym>| #[trigger] m.spec_get(k) is None,
    ensures m@ == Map::<Seq<Sym>, Seq<TyV>>::empty(),
{
    assert(m@ =~= Map::<Seq<Sym>, Seq<TyV>>::empty());
}

/// Appending to one key's list is a map insert of the grown list.
pub proof fn lemma_em_push_bridge(pre: ExcludeMap, post: ExcludeMap, k: Seq<Sym>, t: TyV)
    requires forall|k2: Seq<Sym>| #[trigger] post.spec_get(k2)
        == if k2 == k { Some(em_got(pre.entries@, k).push(t)) } else { pre.spec_get(k2) },
    ensures post@ == pre@.insert(k, emap_got(pre@, k).push(t)),
{
    assert(em_got(pre.entries@, k) == emap_got(pre@, k));
    assert(post@ =~= pre@.insert(k, emap_got(pre@, k).push(t)));
}

/// Lookup-preserving maps have one view; the clones' contract at the map
/// level.
pub proof fn lemma_cf_same_bridge(a: CondFacts, b: CondFacts)
    requires
        forall|k: Seq<Sym>| #[trigger] a.facts.spec_get(k) == b.facts.spec_get(k),
        forall|k: Seq<Sym>| #[trigger] a.vars.spec_get(k) == b.vars.spec_get(k),
        forall|k: Seq<Sym>| #[trigger] a.excludes.spec_get(k) == b.excludes.spec_get(k),
    ensures a@ == b@,
{
    assert(a.facts@ =~= b.facts@);
    assert(a.vars@ =~= b.vars@);
    assert(a.excludes@ =~= b.excludes@);
    assert(a@ =~= b@);
}

/// Empty branch facts have the empty view.
pub proof fn lemma_cf_empty_bridge(a: CondFacts)
    requires a.is_empty(),
    ensures a@ == cf_empty_v(),
{
    lemma_fm_empty_bridge(a.facts);
    lemma_vm_empty_bridge(a.vars);
    lemma_em_empty_bridge(a.excludes);
    assert(a@ =~= cf_empty_v());
}

/// The `+=` contract of `CondFacts::add` at the map level.
pub proof fn lemma_cf_add_bridge(pre: CondFacts, other: CondFacts, post: CondFacts)
    requires
        forall|k: Seq<Sym>| #[trigger] post.facts.spec_get(k)
            == and_combine(pre.facts.spec_get(k), other.facts.spec_get(k)),
        forall|k: Seq<Sym>| #[trigger] post.vars.spec_get(k)
            == if other.vars.spec_get(k) is Some { other.vars.spec_get(k) } else { pre.vars.spec_get(k) },
        forall|k: Seq<Sym>| #[trigger] post.excludes.spec_get(k)
            == match (pre.excludes.spec_get(k), other.excludes.spec_get(k)) {
                (Some(a), Some(b)) => Some(a + b),
                (Some(a), None) => Some(a),
                (None, Some(b)) => Some(b),
                (None, None) => None::<Seq<TyV>>,
            },
    ensures post@ == cf_add_v(pre@, other@),
{
    assert(post.facts@ =~= fmap_and(pre.facts@, other.facts@));
    assert(post.vars@ =~= vmap_over(pre.vars@, other.vars@));
    assert(post.excludes@ =~= emap_append(pre.excludes@, other.excludes@));
    assert(post@ =~= cf_add_v(pre@, other@));
}

} // verus!
