//! The table of user-defined types: each type name with the type it names,
//! and the check that no type is defined in terms of itself.
use crate::ast::{stype_v, sname_v, type_v, Type, TypeV, SV};
use crate::diag::{SemanticDiag, SemanticError, SemanticWarning};
use crate::entity::{clone_sname, clone_stype};
use crate::eq::type_eq;
use crate::span::Spanned;
use vstd::prelude::*;

verus! {

/// The model of a table: its entries, each name at most once, in the
/// order the names were first inserted.
pub type TableV = Seq<(SV<Seq<char>>, SV<TypeV>)>;

/// The position of the entry named `n`, or -1.
pub open spec fn tt_pos(t: TableV, n: Seq<char>) -> int
    decreases t.len(),
{
    if t.len() == 0 {
        -1
    } else if t.last().0.value == n {
        t.len() - 1
    } else {
        tt_pos(t.drop_last(), n)
    }
}

/// No name occurs twice.
pub open spec fn tt_wf(t: TableV) -> bool {
    forall|i: int, j: int|
        0 <= i < j < t.len() ==> (#[trigger] t[i]).0.value != (#[trigger] t[j]).0.value
}

/// The table with `n` naming `ty`: a name already there keeps its entry,
/// with the span it was first inserted with, and gets the new type.
pub open spec fn tt_insert(t: TableV, n: SV<Seq<char>>, ty: SV<TypeV>) -> TableV {
    let p = tt_pos(t, n.value);
    if p >= 0 {
        t.update(p, (t[p].0, ty))
    } else {
        t.push((n, ty))
    }
}

/// Every user type that the table's types name is in the table.
pub open spec fn tt_closed(t: TableV) -> bool {
    forall|i: int|
        0 <= i < t.len() ==> match (#[trigger] t[i]).1.value {
            TypeV::User(n) => tt_pos(t, n) >= 0,
            _ => true,
        }
}

/// The types of the table, in order.
pub open spec fn tt_types(t: TableV) -> Seq<TypeV> {
    t.map_values(|e: (SV<Seq<char>>, SV<TypeV>)| e.1.value)
}

/// The position of the mark whose type is `ty`, or -1.
pub open spec fn mark_pos(marks: Seq<SV<TypeV>>, ty: TypeV) -> int
    decreases marks.len(),
{
    if marks.len() == 0 {
        -1
    } else if marks.last().value == ty {
        marks.len() - 1
    } else {
        mark_pos(marks.drop_last(), ty)
    }
}

/// Follows the chain of type definitions from `ty`, with `marks` the
/// types met on the way: a type met a second time is a recursive
/// definition, reported at the first meeting and at this one; a chain that
/// reaches a type that names no user type is fine. (A chain of distinct
/// types of the table is never longer than the table, so the first branch
/// is never taken by [`TypeTable::semantic_check`].)
pub open spec fn rec_check(t: TableV, ty: SV<TypeV>, marks: Seq<SV<TypeV>>) -> Option<SemanticError>
    decreases t.len() + 1 - marks.len(),
{
    if marks.len() > t.len() {
        None
    } else if mark_pos(marks, ty.value) >= 0 {
        Some(SemanticError::RecursiveTypeDef(marks[mark_pos(marks, ty.value)].span, ty.span))
    } else {
        match ty.value {
            TypeV::User(n) => if tt_pos(t, n) >= 0 {
                rec_check(t, t[tt_pos(t, n)].1, marks.push(ty))
            } else {
                None
            },
            _ => None,
        }
    }
}

/// The errors of the check of the first `k` types of the table, in order.
pub open spec fn rec_errors(t: TableV, k: int) -> Seq<SemanticError>
    decreases k,
{
    if k <= 0 || k > t.len() {
        Seq::empty()
    } else {
        rec_errors(t, k - 1) + match rec_check(t, t[k - 1].1, Seq::empty()) {
            Some(e) => seq![e],
            None => Seq::empty(),
        }
    }
}

/// The check of a type reports nothing but recursive definitions.
pub proof fn law_rec_check_recursive_only(t: TableV, ty: SV<TypeV>, marks: Seq<SV<TypeV>>)
    ensures
        rec_check(t, ty, marks) matches Some(e) ==> e is RecursiveTypeDef,
    decreases t.len() + 1 - marks.len(),
{
    if marks.len() <= t.len() && mark_pos(marks, ty.value) < 0 {
        if let TypeV::User(n) = ty.value {
            if tt_pos(t, n) >= 0 {
                law_rec_check_recursive_only(t, t[tt_pos(t, n)].1, marks.push(ty));
            }
        }
    }
}

/// A table whose types name no user type has no recursive definition.
pub proof fn law_no_user_types_no_errors(t: TableV, k: int)
    requires
        forall|i: int| 0 <= i < t.len() ==> !((#[trigger] t[i]).1.value is User),
    ensures
        rec_errors(t, k) == Seq::<SemanticError>::empty(),
    decreases k,
{
    if 0 < k <= t.len() {
        law_no_user_types_no_errors(t, k - 1);
        assert(!(t[k - 1].1.value is User));
        assert(rec_check(t, t[k - 1].1, Seq::empty()) is None);
    }
}

pub proof fn lemma_tt_pos(t: TableV, n: Seq<char>)
    ensures
        -1 <= tt_pos(t, n) < t.len(),
        tt_pos(t, n) >= 0 ==> t[tt_pos(t, n)].0.value == n,
        tt_pos(t, n) < 0 ==> forall|i: int| 0 <= i < t.len() ==> (#[trigger] t[i]).0.value != n,
    decreases t.len(),
{
    if t.len() > 0 {
        lemma_tt_pos(t.drop_last(), n);
        if t.last().0.value != n {
            assert forall|i: int| 0 <= i < t.len() && tt_pos(t, n) < 0 implies (#[trigger] t[i]).0.value != n by {
                if i < t.len() - 1 {
                    assert(t.drop_last()[i] == t[i]);
                }
            }
        }
    }
}

/// A name just inserted names the type inserted; the first span of an
/// existing name is kept; every other name keeps its entry; no name
/// occurs twice.
pub proof fn law_insert_then_get(t: TableV, n: SV<Seq<char>>, ty: SV<TypeV>, m: Seq<char>)
    requires
        tt_wf(t),
    ensures
        ({
            let t2 = tt_insert(t, n, ty);
            &&& tt_wf(t2)
            &&& tt_pos(t2, n.value) >= 0
            &&& t2[tt_pos(t2, n.value)].1 == ty
            &&& t2[tt_pos(t2, n.value)].0 == (if tt_pos(t, n.value) >= 0 {
                t[tt_pos(t, n.value)].0
            } else {
                n
            })
            &&& m != n.value ==> ((tt_pos(t2, m) >= 0) == (tt_pos(t, m) >= 0))
            &&& (m != n.value && tt_pos(t, m) >= 0) ==> t2[tt_pos(t2, m)] == t[tt_pos(t, m)]
        }),
{
    let t2 = tt_insert(t, n, ty);
    lemma_tt_pos(t, n.value);
    lemma_tt_pos(t, m);
    lemma_tt_pos(t2, n.value);
    lemma_tt_pos(t2, m);
    assert(tt_wf(t2));
    lemma_tt_pos_unique(t2, n.value);
    lemma_tt_pos_unique(t2, m);
    lemma_tt_pos_unique(t, m);
    if tt_pos(t, n.value) >= 0 {
        assert(t2[tt_pos(t, n.value)].0.value == n.value);
    } else {
        assert(t2[t.len() as int].0.value == n.value);
    }
    if m != n.value && tt_pos(t, m) >= 0 {
        assert(t2[tt_pos(t, m)] == t[tt_pos(t, m)]);
    }
}

/// In a table where no name occurs twice, the entry named `n` is the only
/// one with that name.
proof fn lemma_tt_pos_unique(t: TableV, n: Seq<char>)
    requires
        tt_wf(t),
    ensures
        forall|i: int| 0 <= i < t.len() && (#[trigger] t[i]).0.value == n ==> tt_pos(t, n) == i,
{
    lemma_tt_pos(t, n);
    assert forall|i: int| 0 <= i < t.len() && (#[trigger] t[i]).0.value == n implies tt_pos(t, n) == i by {
        if tt_pos(t, n) != i {
            let p = tt_pos(t, n);
            if p < i {
                assert(t[p].0.value != t[i].0.value);
            } else {
                assert(t[i].0.value != t[p].0.value);
            }
        }
    }
}

proof fn lemma_mark_pos(marks: Seq<SV<TypeV>>, ty: TypeV)
    ensures
        -1 <= mark_pos(marks, ty) < marks.len(),
        mark_pos(marks, ty) >= 0 ==> marks[mark_pos(marks, ty)].value == ty,
        mark_pos(marks, ty) < 0 ==> forall|i: int| 0 <= i < marks.len() ==> (#[trigger] marks[i]).value != ty,
    decreases marks.len(),
{
    if marks.len() > 0 {
        lemma_mark_pos(marks.drop_last(), ty);
        if marks.last().value != ty {
            assert forall|i: int| 0 <= i < marks.len() && mark_pos(marks, ty) < 0 implies (#[trigger] marks[i]).value != ty by {
                if i < marks.len() - 1 {
                    assert(marks.drop_last()[i] == marks[i]);
                }
            }
        }
    }
}

/// Marks of distinct types, all of them types of the table, are no more
/// than the entries of the table.
proof fn lemma_marks_bounded(t: TableV, marks: Seq<SV<TypeV>>)
    requires
        forall|i: int, j: int| 0 <= i < j < marks.len() ==> (#[trigger] marks[i]).value != (#[trigger] marks[j]).value,
        forall|i: int| 0 <= i < marks.len() ==> tt_types(t).contains(#[trigger] marks[i].value),
    ensures
        marks.len() <= t.len(),
{
    let vals = marks.map_values(|m: SV<TypeV>| m.value);
    assert(vals.no_duplicates()) by {
        assert forall|i: int, j: int| 0 <= i < vals.len() && 0 <= j < vals.len() && i != j implies vals[i] != vals[j] by {
            if i < j {
                assert(marks[i].value != marks[j].value);
            } else {
                assert(marks[j].value != marks[i].value);
            }
        }
    }
    vals.unique_seq_to_set();
    let all = tt_types(t);
    assert(vals.to_set().subset_of(all.to_set())) by {
        assert forall|x: TypeV| vals.to_set().contains(x) implies all.to_set().contains(x) by {
            let i = choose|i: int| 0 <= i < vals.len() && vals[i] == x;
            assert(tt_types(t).contains(marks[i].value));
        }
    }
    all.lemma_cardinality_of_set();
    vstd::seq_lib::seq_to_set_is_finite(all);
    vstd::set_lib::lemma_len_subset(vals.to_set(), all.to_set());
}

/// The position of the mark whose type is `ty`'s (see [`mark_pos`]).
fn find_mark(marks: &Vec<(Spanned<Type>, bool)>, ty: &Spanned<Type>) -> (r: Option<usize>)
    ensures
        ({
            let ms = marks@.map_values(|m: (Spanned<Type>, bool)| stype_v(m.0));
            match r {
                Some(p) => p == mark_pos(ms, stype_v(*ty).value),
                None => mark_pos(ms, stype_v(*ty).value) < 0,
            }
        }),
{
    let ghost ms = marks@.map_values(|m: (Spanned<Type>, bool)| stype_v(m.0));
    assert(ms.take(ms.len() as int) =~= ms);
    let mut k = marks.len();
    while k > 0
        invariant
            k <= marks.len(),
            ms == marks@.map_values(|m: (Spanned<Type>, bool)| stype_v(m.0)),
            mark_pos(ms, stype_v(*ty).value) == mark_pos(ms.take(k as int), stype_v(*ty).value),
        decreases k,
    {
        proof {
            assert(ms.take(k as int).drop_last() =~= ms.take(k - 1));
        }
        if type_eq(&marks[k - 1].0.value, &ty.value) {
            return Some(k - 1);
        }
        k = k - 1;
    }
    None
}

/// The table of user-defined types.
pub struct TypeTable {
    entries: Vec<(Spanned<String>, Spanned<Type>)>,
}

pub open spec fn entry_v(e: (Spanned<String>, Spanned<Type>)) -> (SV<Seq<char>>, SV<TypeV>) {
    (sname_v(e.0), stype_v(e.1))
}

impl View for TypeTable {
    type V = TableV;

    closed spec fn view(&self) -> TableV {
        self.entries@.map_values(|e: (Spanned<String>, Spanned<Type>)| entry_v(e))
    }
}

impl TypeTable {
    pub open spec fn wf(&self) -> bool {
        tt_wf(self@)
    }

    /// An empty table.
    pub fn new() -> (r: Self)
        ensures
            r@ == Seq::<(SV<Seq<char>>, SV<TypeV>)>::empty(),
            r.wf(),
    {
        let r = TypeTable { entries: Vec::new() };
        assert(r@ =~= Seq::<(SV<Seq<char>>, SV<TypeV>)>::empty());
        r
    }

    /// The position of the entry named `name`.
    fn position(&self, name: &String) -> (r: Option<usize>)
        ensures
            match r {
                Some(p) => p == tt_pos(self@, name@) && p < self@.len(),
                None => tt_pos(self@, name@) < 0,
            },
    {
        let ghost t = self@;
        proof {
            lemma_tt_pos(t, name@);
            assert(t.take(t.len() as int) =~= t);
        }
        let mut k = self.entries.len();
        while k > 0
            invariant
                k <= self.entries.len(),
                t == self@,
                t.len() == self.entries.len(),
                tt_pos(t, name@) == tt_pos(t.take(k as int), name@),
            decreases k,
        {
            let ghost pre = t.take(k as int);
            proof {
                assert(pre.drop_last() =~= t.take(k - 1));
                assert(pre.last() == entry_v(self.entries@[k - 1]));
            }
            let n: &String = &self.entries[k - 1].0.value;
            if *n == *name {
                return Some(k - 1);
            }
            k = k - 1;
        }
        None
    }

    /// Sets `name` to name `ty` (see [`tt_insert`]).
    pub fn insert(&mut self, name: Spanned<String>, ty: Spanned<Type>)
        requires
            old(self).wf(),
        ensures
            final(self)@ == tt_insert(old(self)@, sname_v(name), stype_v(ty)),
            final(self).wf(),
    {
        let ghost t = self@;
        proof {
            lemma_tt_pos(t, sname_v(name).value);
        }
        match self.position(&name.value) {
            Some(p) => {
                let key = clone_sname(&self.entries[p].0);
                self.entries.set(p, (key, ty));
                assert(self@ =~= tt_insert(t, sname_v(name), stype_v(ty)));
            },
            None => {
                self.entries.push((name, ty));
                assert(self@ =~= tt_insert(t, sname_v(name), stype_v(ty)));
            },
        }
    }

    /// The entry named `name`: the name as first inserted, and its type.
    pub fn get_key_value(&self, name: &String) -> (r: Option<(&Spanned<String>, &Spanned<Type>)>)
        ensures
            match r {
                Some((k, v)) => tt_pos(self@, name@) >= 0 && (sname_v(*k), stype_v(*v)) == self@[tt_pos(self@, name@)],
                None => tt_pos(self@, name@) < 0,
            },
    {
        match self.position(name) {
            Some(p) => {
                let e = &self.entries[p];
                Some((&e.0, &e.1))
            },
            None => None,
        }
    }

    /// The type `name` names.
    pub fn get(&self, name: &String) -> (r: Option<&Spanned<Type>>)
        ensures
            match r {
                Some(v) => tt_pos(self@, name@) >= 0 && stype_v(*v) == self@[tt_pos(self@, name@)].1,
                None => tt_pos(self@, name@) < 0,
            },
    {
        match self.get_key_value(name) {
            Some((_, v)) => Some(v),
            None => None,
        }
    }

    /// Whether the table has an entry named `name`.
    pub fn contains_key(&self, name: &String) -> (r: bool)
        ensures
            r == (tt_pos(self@, name@) >= 0),
    {
        self.position(name).is_some()
    }

    /// Checks each type of the table, in order, for a recursive definition
    /// (see [`rec_check`]).
    pub fn semantic_check(&self) -> (r: SemanticDiag)
        requires
            self.wf(),
            tt_closed(self@),
        ensures
            r.warnings@ == Seq::<SemanticWarning>::empty(),
            r.errors@ == rec_errors(self@, self@.len() as int),
    {
        let mut diag = SemanticDiag::new();
        let ghost t = self@;
        let mut k: usize = 0;
        while k < self.entries.len()
            invariant
                k <= self.entries.len(),
                t == self@,
                t.len() == self.entries.len(),
                tt_wf(t),
                tt_closed(t),
                diag.warnings@ == Seq::<SemanticWarning>::empty(),
                diag.errors@ == rec_errors(t, k as int),
            decreases self.entries.len() - k,
        {
            proof {
                assert(t[k as int] == entry_v(self.entries@[k as int]));
                assert(tt_types(t)[k as int] == t[k as int].1.value);
            }
            self.check_recursive_definition(&self.entries[k].1, &mut diag);
            k = k + 1;
        }
        diag
    }

    fn check_recursive_definition(&self, ty: &Spanned<Type>, diag: &mut SemanticDiag)
        requires
            tt_wf(self@),
            tt_closed(self@),
            tt_types(self@).contains(stype_v(*ty).value),
        ensures
            final(diag).warnings@ == old(diag).warnings@,
            final(diag).errors@ == old(diag).errors@ + match rec_check(
                self@,
                stype_v(*ty),
                Seq::empty(),
            ) {
                Some(e) => seq![e],
                None => Seq::<SemanticError>::empty(),
            },
    {
        let mut marks: Vec<(Spanned<Type>, bool)> = Vec::new();
        assert(marks@.map_values(|m: (Spanned<Type>, bool)| stype_v(m.0)) =~= Seq::<SV<TypeV>>::empty());
        self.check_recursive_definition_(ty, &mut marks, diag);
    }

    /// One step of the chain: `marks` holds the types met so far on this
    /// chain, each still being checked (a chain starts with no marks, so no
    /// other marks reach this step). A type met again is a recursive
    /// definition and leaves the marks as they are; otherwise the type is
    /// marked, the chain is followed, and the type is then marked checked.
    fn check_recursive_definition_(
        &self,
        ty: &Spanned<Type>,
        marks: &mut Vec<(Spanned<Type>, bool)>,
        diag: &mut SemanticDiag,
    )
        requires
            tt_wf(self@),
            tt_closed(self@),
            tt_types(self@).contains(stype_v(*ty).value),
            forall|i: int| 0 <= i < old(marks)@.len() ==> !(#[trigger] old(marks)@[i]).1,
            forall|i: int, j: int|
                0 <= i < j < old(marks)@.len() ==> type_v(*(#[trigger] old(marks)@[i]).0.value) != type_v(
                    *(#[trigger] old(marks)@[j]).0.value,
                ),
            forall|i: int|
                0 <= i < old(marks)@.len() ==> tt_types(self@).contains(
                    type_v(*(#[trigger] old(marks)@[i]).0.value),
                ),
        ensures
            final(diag).warnings@ == old(diag).warnings@,
            final(diag).errors@ == old(diag).errors@ + match rec_check(
                self@,
                stype_v(*ty),
                old(marks)@.map_values(|m: (Spanned<Type>, bool)| stype_v(m.0)),
            ) {
                Some(e) => seq![e],
                None => Seq::<SemanticError>::empty(),
            },
            final(marks)@.len() >= old(marks)@.len(),
            forall|i: int| 0 <= i < old(marks)@.len() ==> #[trigger] final(marks)@[i] == old(marks)@[i],
            mark_pos(
                old(marks)@.map_values(|m: (Spanned<Type>, bool)| stype_v(m.0)),
                stype_v(*ty).value,
            ) >= 0 ==> final(marks)@ == old(marks)@,
            mark_pos(
                old(marks)@.map_values(|m: (Spanned<Type>, bool)| stype_v(m.0)),
                stype_v(*ty).value,
            ) < 0 ==> final(marks)@.len() > old(marks)@.len() && final(marks)@[old(
                marks,
            )@.len() as int] == (*ty, true),
        decreases self@.len() + 1 - old(marks)@.len(),
    {
        let ghost t = self@;
        let ghost ms = marks@.map_values(|m: (Spanned<Type>, bool)| stype_v(m.0));
        let ghost old_marks = marks@;
        proof {
            assert forall|i: int, j: int| 0 <= i < j < ms.len() implies (#[trigger] ms[i]).value != (#[trigger] ms[j]).value by {
                assert(type_v(*old_marks[i].0.value) != type_v(*old_marks[j].0.value));
            }
            assert forall|i: int| 0 <= i < ms.len() implies tt_types(t).contains(#[trigger] ms[i].value) by {
                assert(tt_types(t).contains(type_v(*old_marks[i].0.value)));
            }
            lemma_marks_bounded(t, ms);
            lemma_mark_pos(ms, stype_v(*ty).value);
        }
        let found = find_mark(marks, ty);
        match found {
            Some(p) if !marks[p].1 => {
                diag.push_err(SemanticError::RecursiveTypeDef(marks[p].0.span, ty.span));
            },
            _ => {
                marks.push((clone_stype(ty), false));
                let idx = marks.len() - 1;
                if let Type::User(name) = &*ty.value {
                    let next = self.get(name);
                    match next {
                        Some(next) => {
                            proof {
                                let nm = ms.push(stype_v(*ty));
                                assert forall|i: int, j: int| 0 <= i < j < nm.len() implies (#[trigger] nm[i]).value != (#[trigger] nm[j]).value by {
                                    if j == ms.len() {
                                        assert(ms[i].value != stype_v(*ty).value);
                                    } else {
                                        assert(ms[i].value != ms[j].value);
                                    }
                                }
                                assert forall|i: int| 0 <= i < nm.len() implies tt_types(t).contains(#[trigger] nm[i].value) by {
                                    if i < ms.len() {
                                        assert(tt_types(t).contains(ms[i].value));
                                    }
                                }
                                assert forall|i: int, j: int| 0 <= i < j < marks@.len() implies type_v(*(#[trigger] marks@[i]).0.value) != type_v(*(#[trigger] marks@[j]).0.value) by {
                                    assert(nm[i].value != nm[j].value);
                                }
                                assert forall|i: int| 0 <= i < marks@.len() implies tt_types(t).contains(type_v(*(#[trigger] marks@[i]).0.value)) by {
                                    assert(tt_types(t).contains(nm[i].value));
                                }
                                lemma_marks_bounded(t, nm);
                                lemma_tt_pos(t, name@);
                                assert(tt_types(t)[tt_pos(t, name@)] == t[tt_pos(t, name@)].1.value);
                                assert(marks@.map_values(|m: (Spanned<Type>, bool)| stype_v(m.0))
                                    =~= ms.push(stype_v(*ty)));
                            }
                            self.check_recursive_definition_(next, marks, diag);
                        },
                        None => {
                            proof {
                                let i = choose|i: int| 0 <= i < t.len() && tt_types(t)[i] == stype_v(*ty).value;
                                assert(t[i].1.value == tt_types(t)[i]);
                            }
                        },
                    }
                }
                let key = clone_stype(&marks[idx].0);
                marks.set(idx, (key, true));
            },
        }
    }
}

} // verus!
