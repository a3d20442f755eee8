//! Scopes: a tree of them, each naming the entities defined in it, in the
//! order they were defined.
use crate::diag::{SemanticDiag, SemanticError, SemanticWarning};
use crate::entity::{entity_v, Entity, EntityV};
use crate::span::Span;
use linked_hash_map::LinkedHashMap;
use vstd::prelude::*;

verus! {

#[verifier::external_type_specification]
#[verifier::external_body]
#[verifier::reject_recursive_types(K)]
#[verifier::reject_recursive_types(V)]
#[verifier::reject_recursive_types(S)]
pub struct ExLinkedHashMap<K, V, S>(LinkedHashMap<K, V, S>);

/// What a map holds: its keys with their values, in the order the keys were
/// inserted, a key inserted again moving to the end.
pub uninterp spec fn lhm_entries(m: LinkedHashMap<String, usize>) -> Seq<(Seq<char>, usize)>;

/// The last position of `k` among the keys of `names`, or -1.
pub open spec fn key_pos(names: Seq<(Seq<char>, usize)>, k: Seq<char>) -> int
    decreases names.len(),
{
    if names.len() == 0 {
        -1
    } else if names.last().0 == k {
        names.len() - 1
    } else {
        key_pos(names.drop_last(), k)
    }
}

/// The value of `k` in `names`.
pub open spec fn map_get(names: Seq<(Seq<char>, usize)>, k: Seq<char>) -> Option<usize> {
    let i = key_pos(names, k);
    if i >= 0 {
        Some(names[i].1)
    } else {
        None
    }
}

/// `names` with `k` set to `v`: a key already there is moved to the end.
pub open spec fn map_insert(names: Seq<(Seq<char>, usize)>, k: Seq<char>, v: usize) -> Seq<
    (Seq<char>, usize),
> {
    let i = key_pos(names, k);
    if i >= 0 {
        names.remove(i).push((k, v))
    } else {
        names.push((k, v))
    }
}

pub proof fn lemma_key_pos(names: Seq<(Seq<char>, usize)>, k: Seq<char>)
    ensures
        -1 <= key_pos(names, k) < names.len(),
        key_pos(names, k) >= 0 ==> names[key_pos(names, k)].0 == k,
    decreases names.len(),
{
    if names.len() > 0 && names.last().0 != k {
        lemma_key_pos(names.drop_last(), k);
    }
}

/// Calls `LinkedHashMap::new`: an empty map.
#[verifier::external_body]
fn lhm_new() -> (r: LinkedHashMap<String, usize>)
    ensures
        lhm_entries(r) == Seq::<(Seq<char>, usize)>::empty(),
{
    LinkedHashMap::new()
}

/// Calls `LinkedHashMap::insert`: sets `k` to `v`, moving a key already
/// there to the end, and gives back the value it replaced.
#[verifier::external_body]
fn lhm_insert(m: &mut LinkedHashMap<String, usize>, k: String, v: usize) -> (r: Option<usize>)
    ensures
        r == map_get(lhm_entries(*old(m)), k@),
        lhm_entries(*final(m)) == map_insert(lhm_entries(*old(m)), k@, v),
{
    m.insert(k, v)
}

/// Calls `LinkedHashMap::get`: the value of `k`.
#[verifier::external_body]
fn lhm_get(m: &LinkedHashMap<String, usize>, k: &str) -> (r: Option<usize>)
    ensures
        r == map_get(lhm_entries(*m), k@),
{
    m.get(k).copied()
}

/// Calls `LinkedHashMap::values`: the values, in the order of the keys.
#[verifier::external_body]
fn lhm_values(m: &LinkedHashMap<String, usize>) -> (r: Vec<usize>)
    ensures
        r@ == lhm_entries(*m).map_values(|e: (Seq<char>, usize)| e.1),
{
    m.values().copied().collect()
}

/// A scope: its parent, the entities defined in it by name, and the scopes
/// nested in it.
#[derive(Debug)]
pub struct Scope {
    pub parent: Option<usize>,
    entities: LinkedHashMap<String, usize>,
    pub children: Vec<usize>,
}

/// The model of a scope; entities are positions in the tree's entities.
pub struct ScopeV {
    pub parent: Option<usize>,
    pub names: Seq<(Seq<char>, usize)>,
    pub children: Seq<usize>,
}

impl Scope {
    pub closed spec fn view_s(self) -> ScopeV {
        ScopeV { parent: self.parent, names: lhm_entries(self.entities), children: self.children@ }
    }
}

/// All scopes of a program, and all entities defined in them.
#[derive(Debug)]
pub struct ScopeTree {
    pub scopes: Vec<Scope>,
    pub entities: Vec<Entity>,
}

/// The model of a scope tree.
pub struct TreeV {
    pub scopes: Seq<ScopeV>,
    pub entities: Seq<EntityV>,
}

impl View for ScopeTree {
    type V = TreeV;

    closed spec fn view(&self) -> TreeV {
        TreeV {
            scopes: self.scopes@.map_values(|s: Scope| s.view_s()),
            entities: self.entities@.map_values(|e: Entity| entity_v(e)),
        }
    }
}

/// A parent comes before its children, and every scope and entity referred
/// to exists.
pub open spec fn tree_wf(t: TreeV) -> bool {
    forall|i: int|
        #![trigger t.scopes[i]]
        0 <= i < t.scopes.len() ==> {
            &&& (t.scopes[i].parent matches Some(p) ==> p < i)
            &&& forall|k: int|
                0 <= k < t.scopes[i].children.len() ==> i < #[trigger] t.scopes[i].children[k]
                    < t.scopes.len()
            &&& forall|k: int|
                0 <= k < t.scopes[i].names.len() ==> (#[trigger] t.scopes[i].names[k]).1
                    < t.entities.len()
        }
}

/// A new scope, with parent `parent`, added to the tree: it comes last, and
/// is the last child of its parent.
pub open spec fn new_scope(t: TreeV, parent: Option<usize>) -> TreeV {
    let idx = t.scopes.len() as usize;
    let fresh = ScopeV { parent, names: Seq::empty(), children: Seq::empty() };
    match parent {
        Some(p) => TreeV {
            scopes: t.scopes.update(
                p as int,
                ScopeV { children: t.scopes[p as int].children.push(idx), ..t.scopes[p as int] },
            ).push(fresh),
            entities: t.entities,
        },
        None => TreeV { scopes: t.scopes.push(fresh), entities: t.entities },
    }
}

/// Defines `e` in scope `i`: it is added to the entities, and its name now
/// names it in the scope; a name the scope already had is a duplicated
/// definition, with the span of the earlier one.
pub open spec fn define(t: TreeV, i: int, e: EntityV) -> (TreeV, Option<SemanticError>) {
    let n = t.entities.len() as usize;
    let names = t.scopes[i].names;
    let t2 = TreeV {
        scopes: t.scopes.update(i, ScopeV { names: map_insert(names, e.name.value, n), ..t.scopes[i] }),
        entities: t.entities.push(e),
    };
    match map_get(names, e.name.value) {
        Some(old) => (t2, Some(SemanticError::DuplicatedDef(t.entities[old as int].name.span, e.name.span))),
        None => (t2, None),
    }
}

/// One more reference to entity `e` (no more once at `usize::MAX`).
pub open spec fn count_ref(t: TreeV, e: int) -> TreeV {
    let ent = t.entities[e];
    TreeV {
        scopes: t.scopes,
        entities: t.entities.update(
            e,
            EntityV {
                n_referred: if ent.n_referred < usize::MAX {
                    (ent.n_referred + 1) as usize
                } else {
                    ent.n_referred
                },
                ..ent
            },
        ),
    }
}

/// Refers to `name` from scope `i`: the entity of that name in the nearest
/// scope that has one, from `i` up through its parents, gets one more
/// reference; if none has, the reference is unresolved.
pub open spec fn refer(t: TreeV, i: int, name: Seq<char>, span: Span) -> (TreeV, Option<SemanticError>)
    decreases i,
{
    if !(0 <= i < t.scopes.len()) {
        (t, Some(SemanticError::UnresolvedRef(span)))
    } else {
        match map_get(t.scopes[i].names, name) {
            Some(e) => (count_ref(t, e as int), None),
            None => match t.scopes[i].parent {
                Some(p) => if 0 <= p < i {
                    refer(t, p as int, name, span)
                } else {
                    (t, Some(SemanticError::UnresolvedRef(span)))
                },
                None => (t, Some(SemanticError::UnresolvedRef(span))),
            },
        }
    }
}

/// A warning for each entity, among the first `k` of a scope's, that
/// nothing refers to.
pub open spec fn unused(t: TreeV, names: Seq<(Seq<char>, usize)>, k: int) -> Seq<SemanticWarning>
    decreases k,
{
    if k <= 0 || k > names.len() {
        Seq::empty()
    } else {
        let e = t.entities[names[k - 1].1 as int];
        unused(t, names, k - 1) + if e.n_referred == 0 {
            seq![SemanticWarning::UnusedEntity(e.name.span)]
        } else {
            Seq::empty()
        }
    }
}

/// The warnings about scope `i` and what is nested in it: its entities
/// that nothing refers to, then, for each child in turn, the warnings of
/// that child's children, found the same way. Every level in between is
/// skipped: from the top level, the first one holds function parameters,
/// and deeper down the skipped levels are blocks too (a block directly in
/// a function body is checked, a block directly in that one is not).
pub open spec fn check_refs(t: TreeV, i: int) -> Seq<SemanticWarning>
    decreases t.scopes.len() - i, 2int, 0int,
{
    if !(0 <= i < t.scopes.len()) {
        Seq::empty()
    } else {
        unused(t, t.scopes[i].names, t.scopes[i].names.len() as int) + check_kids(
            t,
            i,
            t.scopes[i].children.len() as int,
        )
    }
}

/// The warnings of the grandchildren through the first `k` children of `i`.
pub open spec fn check_kids(t: TreeV, i: int, k: int) -> Seq<SemanticWarning>
    decreases t.scopes.len() - i, 1int, k,
{
    if !(0 <= i < t.scopes.len()) || k <= 0 || k > t.scopes[i].children.len() {
        Seq::empty()
    } else {
        let c = t.scopes[i].children[k - 1] as int;
        check_kids(t, i, k - 1) + if 0 <= c < t.scopes.len() {
            check_grand(t, i, c, t.scopes[c].children.len() as int)
        } else {
            Seq::empty()
        }
    }
}

/// The warnings of the first `m` children of `c`, a child of `i`.
pub open spec fn check_grand(t: TreeV, i: int, c: int, m: int) -> Seq<SemanticWarning>
    decreases t.scopes.len() - i, 0int, m,
{
    if !(0 <= c < t.scopes.len()) || m <= 0 || m > t.scopes[c].children.len() {
        Seq::empty()
    } else {
        let g = t.scopes[c].children[m - 1] as int;
        check_grand(t, i, c, m - 1) + if i < g < t.scopes.len() {
            check_refs(t, g)
        } else {
            Seq::empty()
        }
    }
}

/// After `k` is set in `names`, it maps to its new value.
proof fn lemma_insert_get(names: Seq<(Seq<char>, usize)>, k: Seq<char>, v: usize)
    ensures
        map_get(map_insert(names, k, v), k) == Some(v),
{
    lemma_key_pos(names, k);
    let r = map_insert(names, k, v);
    assert(r.len() > 0 && r.last() == (k, v));
    assert(key_pos(r, k) == r.len() - 1);
}

/// A name just defined in a scope resolves from that scope, to the entity
/// just defined, with no error.
pub proof fn law_define_then_refer(t: TreeV, i: int, e: EntityV, span: Span)
    requires
        tree_wf(t),
        0 <= i < t.scopes.len(),
        t.entities.len() < usize::MAX,
    ensures
        ({
            let t2 = define(t, i, e).0;
            let (t3, err) = refer(t2, i, e.name.value, span);
            &&& err is None
            &&& t3 == count_ref(t2, t.entities.len() as int)
            &&& t3.entities.len() == t.entities.len() + 1
            &&& t3.entities.last().name == e.name
        }),
{
    lemma_insert_get(t.scopes[i].names, e.name.value, t.entities.len() as usize);
}

/// A scope that does not define a name looks it up in its parent: the
/// reference resolves as it would from there.
pub proof fn law_refer_defers_to_parent(t: TreeV, j: int, name: Seq<char>, span: Span)
    requires
        tree_wf(t),
        0 <= j < t.scopes.len(),
        map_get(t.scopes[j].names, name) is None,
        t.scopes[j].parent is Some,
    ensures
        refer(t, j, name, span) == refer(t, t.scopes[j].parent->Some_0 as int, name, span),
{
    assert(t.scopes[j].parent->Some_0 < j);
}

/// Defining a name a second time in the same scope is a duplicated
/// definition, reported at the first definition and at the second.
pub proof fn law_define_twice(t: TreeV, i: int, e1: EntityV, e2: EntityV)
    requires
        tree_wf(t),
        0 <= i < t.scopes.len(),
        t.entities.len() < usize::MAX,
        e1.name.value == e2.name.value,
    ensures
        define(define(t, i, e1).0, i, e2).1 == Some(
            SemanticError::DuplicatedDef(e1.name.span, e2.name.span),
        ),
{
    lemma_insert_get(t.scopes[i].names, e1.name.value, t.entities.len() as usize);
}

impl ScopeTree {
    pub open spec fn wf(&self) -> bool {
        tree_wf(self@)
    }

    /// A tree with no scopes.
    pub fn new() -> (r: ScopeTree)
        ensures
            r@.scopes.len() == 0,
            r@.entities.len() == 0,
            r.wf(),
    {
        let r = ScopeTree { scopes: Vec::new(), entities: Vec::new() };
        assert(r@.scopes =~= Seq::<ScopeV>::empty());
        r
    }

    /// Adds a scope with parent `parent` (see [`new_scope`]); its position.
    pub fn new_scope(&mut self, parent: Option<usize>) -> (r: usize)
        requires
            old(self).wf(),
            parent matches Some(p) ==> p < old(self)@.scopes.len(),
        ensures
            final(self)@ == new_scope(old(self)@, parent),
            r == old(self)@.scopes.len(),
            final(self).wf(),
    {
        let idx = self.scopes.len();
        let ghost t = self@;
        let fresh = Scope { parent, entities: lhm_new(), children: Vec::new() };
        assert(fresh.view_s() == ScopeV { parent, names: Seq::empty(), children: Seq::empty() }) by {
            assert(fresh.children@ =~= Seq::<usize>::empty());
        }
        if let Some(p) = parent {
            self.scopes[p].children.push(idx);
        }
        self.scopes.push(fresh);
        proof {
            assert(self@.scopes =~= new_scope(t, parent).scopes);
            assert(self@.entities =~= new_scope(t, parent).entities);
        }
        idx
    }

    /// Defines `entity` in scope `i` (see [`define`]).
    pub fn define_entity(&mut self, i: usize, entity: Entity) -> (r: Result<(), SemanticError>)
        requires
            old(self).wf(),
            i < old(self)@.scopes.len(),
        ensures
            (final(self)@, match r {
                Ok(_) => None,
                Err(e) => Some(e),
            }) == define(old(self)@, i as int, entity_v(entity)),
            final(self).wf(),
            final(self)@.scopes.len() == old(self)@.scopes.len(),
    {
        let ghost t = self@;
        let n = self.entities.len();
        let key = entity.name.value.clone();
        let span = entity.name.span;
        self.entities.push(entity);
        let dup = lhm_insert(&mut self.scopes[i].entities, *key, n);
        proof {
            lemma_key_pos(t.scopes[i as int].names, key@);
            assert(self@.scopes =~= define(t, i as int, entity_v(entity)).0.scopes);
            assert(self@.entities =~= define(t, i as int, entity_v(entity)).0.entities);
        }
        match dup {
            Some(old) => Err(SemanticError::DuplicatedDef(self.entities[old].name.span, span)),
            None => Ok(()),
        }
    }

    /// Refers to `name` from scope `i` (see [`refer`]).
    pub fn refer(&mut self, i: usize, name: &str, span: Span) -> (r: Result<(), SemanticError>)
        requires
            old(self).wf(),
            i < old(self)@.scopes.len(),
        ensures
            (final(self)@, match r {
                Ok(_) => None,
                Err(e) => Some(e),
            }) == refer(old(self)@, i as int, name@, span),
            final(self).wf(),
            final(self)@.scopes == old(self)@.scopes,
    {
        let mut cur = i;
        loop
            invariant
                self.wf(),
                self@ == old(self)@,
                cur < self@.scopes.len(),
                refer(old(self)@, i as int, name@, span) == refer(self@, cur as int, name@, span),
            decreases cur,
        {
            match lhm_get(&self.scopes[cur].entities, name) {
                Some(e) => {
                    let ghost t = self@;
                    proof {
                        lemma_key_pos(t.scopes[cur as int].names, name@);
                    }
                    self.entities[e].referred();
                    proof {
                        assert(self@.entities =~= count_ref(t, e as int).entities);
                        assert(self@.scopes =~= t.scopes);
                    }
                    return Ok(());
                },
                None => match self.scopes[cur].parent {
                    Some(p) => {
                        cur = p;
                    },
                    None => {
                        return Err(SemanticError::UnresolvedRef(span));
                    },
                },
            }
        }
    }

    /// Warns about each entity that nothing refers to in scope `i` and in
    /// the scopes an even number of levels below it (see [`check_refs`]).
    pub fn check_references(&self, i: usize, diag: &mut SemanticDiag)
        requires
            self.wf(),
            i < self@.scopes.len(),
        ensures
            final(diag).warnings@ == old(diag).warnings@ + check_refs(self@, i as int),
            final(diag).errors@ == old(diag).errors@,
        decreases self@.scopes.len() - i,
    {
        let ghost t = self@;
        let ghost w0 = diag.warnings@;
        let values = lhm_values(&self.scopes[i].entities);
        let ghost names = t.scopes[i as int].names;
        let mut k: usize = 0;
        while k < values.len()
            invariant
                self.wf(),
                t == self@,
                i < t.scopes.len(),
                names == t.scopes[i as int].names,
                values@ == names.map_values(|e: (Seq<char>, usize)| e.1),
                k <= values.len(),
                diag.warnings@ == w0 + unused(t, names, k as int),
                diag.errors@ == old(diag).errors@,
            decreases values.len() - k,
        {
            let e = values[k];
            assert(names[k as int].1 == e);
            if !self.entities[e].is_referred() {
                diag.push_warn(SemanticWarning::UnusedEntity(self.entities[e].name.span));
            }
            k = k + 1;
            proof {
                assert(diag.warnings@ =~= w0 + unused(t, names, k as int));
            }
        }
        let children = &self.scopes[i].children;
        let mut c: usize = 0;
        proof {
            assert(diag.warnings@ =~= w0 + unused(t, names, names.len() as int) + check_kids(
                t,
                i as int,
                0,
            ));
        }
        while c < children.len()
            invariant
                self.wf(),
                t == self@,
                i < t.scopes.len(),
                children@ == t.scopes[i as int].children,
                c <= children.len(),
                diag.warnings@ == w0 + unused(t, names, names.len() as int) + check_kids(
                    t,
                    i as int,
                    c as int,
                ),
                names == t.scopes[i as int].names,
                diag.errors@ == old(diag).errors@,
            decreases children.len() - c,
        {
            let ch = children[c];
            let grand = &self.scopes[ch].children;
            let ghost before = diag.warnings@;
            let mut m: usize = 0;
            while m < grand.len()
                invariant
                    self.wf(),
                    t == self@,
                    i < t.scopes.len(),
                    i < ch < t.scopes.len(),
                    grand@ == t.scopes[ch as int].children,
                    m <= grand.len(),
                    diag.warnings@ == before + check_grand(t, i as int, ch as int, m as int),
                    diag.errors@ == old(diag).errors@,
                decreases grand.len() - m,
            {
                let g = grand[m];
                self.check_references(g, diag);
                m = m + 1;
                proof {
                    assert(diag.warnings@ =~= before + check_grand(t, i as int, ch as int, m as int));
                }
            }
            c = c + 1;
            proof {
                assert(diag.warnings@ =~= w0 + unused(t, names, names.len() as int) + check_kids(
                    t,
                    i as int,
                    c as int,
                ));
            }
        }
        proof {
            assert(diag.warnings@ =~= w0 + check_refs(t, i as int));
        }
    }
}

} // verus!
