use crate::interpreter::error::{ScopeError, SpecScopeError};
use crate::interpreter::value::{
    spec_value_type, type_eq, value_view, ItpValue, SpecValue,
};
use crate::tokens::string_eq;
use vstd::prelude::*;
use vstd::string::StringExecFns;

verus! {

/// One scope record in the tree: an optional parent and the bindings made
/// directly in this scope, in the order they were made.
#[derive(Debug, PartialEq)]
pub struct ScopeRecord {
    pub parent: Option<usize>,
    pub bindings: Vec<(String, ItpValue)>,
}

/// Mathematical model of a [`ScopeRecord`].
pub struct SpecScopeRecord {
    pub parent: Option<int>,
    pub bindings: Seq<(Seq<char>, SpecValue)>,
}

/// The model of one scope's binding list.
pub open spec fn binds_view(b: Seq<(String, ItpValue)>) -> Seq<(Seq<char>, SpecValue)>
    decreases b,
{
    if b.len() == 0 {
        Seq::empty()
    } else {
        binds_view(b.drop_last()).push((b[b.len() - 1].0@, value_view(b[b.len() - 1].1)))
    }
}

/// The model of one scope record.
pub open spec fn record_view(r: ScopeRecord) -> SpecScopeRecord {
    SpecScopeRecord {
        parent: match r.parent {
            Some(p) => Some(p as int),
            None => None,
        },
        bindings: binds_view(r.bindings@),
    }
}

/// The model of the whole arena of scope records.
pub open spec fn records_view(rs: Seq<ScopeRecord>) -> Seq<SpecScopeRecord>
    decreases rs,
{
    if rs.len() == 0 {
        Seq::empty()
    } else {
        records_view(rs.drop_last()).push(record_view(rs[rs.len() - 1]))
    }
}

pub broadcast proof fn lemma_binds_view_len(b: Seq<(String, ItpValue)>)
    ensures
        (#[trigger] binds_view(b)).len() == b.len(),
    decreases b,
{
    if b.len() > 0 {
        lemma_binds_view_len(b.drop_last());
    }
}

pub broadcast proof fn lemma_binds_view_index(b: Seq<(String, ItpValue)>, i: int)
    requires
        0 <= i < b.len(),
    ensures
        #[trigger] binds_view(b)[i] == (b[i].0@, value_view(b[i].1)),
    decreases b,
{
    lemma_binds_view_len(b);
    if b.len() > 0 && i < b.len() - 1 {
        lemma_binds_view_index(b.drop_last(), i);
    }
}

pub broadcast proof fn lemma_records_view_len(rs: Seq<ScopeRecord>)
    ensures
        (#[trigger] records_view(rs)).len() == rs.len(),
    decreases rs,
{
    if rs.len() > 0 {
        lemma_records_view_len(rs.drop_last());
    }
}

pub broadcast proof fn lemma_records_view_index(rs: Seq<ScopeRecord>, i: int)
    requires
        0 <= i < rs.len(),
    ensures
        #[trigger] records_view(rs)[i] == record_view(rs[i]),
    decreases rs,
{
    lemma_records_view_len(rs);
    if rs.len() > 0 && i < rs.len() - 1 {
        lemma_records_view_index(rs.drop_last(), i);
    }
}

proof fn lemma_records_view_update(rs: Seq<ScopeRecord>, i: int, r: ScopeRecord)
    requires
        0 <= i < rs.len(),
    ensures
        records_view(rs.update(i, r)) == records_view(rs).update(i, record_view(r)),
{
    lemma_records_view_len(rs);
    lemma_records_view_len(rs.update(i, r));
    assert forall|k: int| 0 <= k < rs.len() implies records_view(rs.update(i, r))[k]
        == records_view(rs).update(i, record_view(r))[k] by {
        lemma_records_view_index(rs.update(i, r), k);
        lemma_records_view_index(rs, k);
    }
    assert(records_view(rs.update(i, r)) =~= records_view(rs).update(i, record_view(r)));
}

/// The position of the first binding of `name`, if any.
pub open spec fn spec_find_index(b: Seq<(Seq<char>, SpecValue)>, name: Seq<char>) -> Option<int>
    decreases b,
{
    if b.len() == 0 {
        None
    } else if b[0].0 == name {
        Some(0)
    } else {
        match spec_find_index(b.drop_first(), name) {
            Some(i) => Some(i + 1),
            None => None,
        }
    }
}

/// The binding of `name` made directly in a scope, if any.
pub open spec fn spec_find(b: Seq<(Seq<char>, SpecValue)>, name: Seq<char>) -> Option<SpecValue> {
    match spec_find_index(b, name) {
        Some(i) => Some(b[i].1),
        None => None,
    }
}

/// What `spec_find_index` returns: the first matching position, or proof
/// that no position matches.
pub proof fn lemma_find_index_props(b: Seq<(Seq<char>, SpecValue)>, name: Seq<char>)
    ensures
        match spec_find_index(b, name) {
            Some(j) => 0 <= j < b.len() && b[j].0 == name && forall|k: int|
                0 <= k < j ==> b[k].0 != name,
            None => forall|k: int| 0 <= k < b.len() ==> b[k].0 != name,
        },
    decreases b,
{
    if b.len() > 0 && b[0].0 != name {
        let d = b.drop_first();
        lemma_find_index_props(d, name);
        assert(d.len() == b.len() - 1);
        assert forall|k: int| 0 <= k < d.len() implies d[k] == b[k + 1] by {}
        match spec_find_index(d, name) {
            Some(j) => {
                assert(spec_find_index(b, name) == Some(j + 1));
                assert(b[j + 1] == d[j]);
                assert forall|k: int| 0 <= k < j + 1 implies b[k].0 != name by {
                    if k > 0 {
                        assert(b[k] == d[k - 1]);
                    }
                }
            },
            None => {
                assert forall|k: int| 0 <= k < b.len() implies b[k].0 != name by {
                    if k > 0 {
                        assert(b[k] == d[k - 1]);
                    }
                }
            },
        }
    }
}

/// A first match at `j` pins `spec_find_index` to `j`.
pub proof fn lemma_find_index_present(b: Seq<(Seq<char>, SpecValue)>, name: Seq<char>, j: int)
    requires
        0 <= j < b.len(),
        b[j].0 == name,
        forall|k: int| 0 <= k < j ==> b[k].0 != name,
    ensures
        spec_find_index(b, name) == Some(j),
    decreases j,
{
    if b[0].0 == name {
        assert(j == 0);
    } else {
        assert forall|k: int| 0 <= k < b.drop_first().len() implies b.drop_first()[k] == b[k + 1]
            by {}
        lemma_find_index_present(b.drop_first(), name, j - 1);
    }
}

/// No match anywhere pins `spec_find_index` to `None`.
pub proof fn lemma_find_index_absent(b: Seq<(Seq<char>, SpecValue)>, name: Seq<char>)
    requires
        forall|k: int| 0 <= k < b.len() ==> b[k].0 != name,
    ensures
        spec_find_index(b, name) is None,
    decreases b,
{
    if b.len() > 0 {
        assert forall|k: int| 0 <= k < b.drop_first().len() implies b.drop_first()[k] == b[k + 1]
            by {}
        lemma_find_index_absent(b.drop_first(), name);
    }
}

/// Lookup with fallback to the parent: the nearest enclosing binding of
/// `name`, starting at scope `s`.
pub open spec fn spec_lookup(rs: Seq<SpecScopeRecord>, s: int, name: Seq<char>) -> Option<
    SpecValue,
>
    decreases s,
{
    if !(0 <= s < rs.len()) {
        None
    } else {
        match spec_find(rs[s].bindings, name) {
            Some(v) => Some(v),
            None => match rs[s].parent {
                Some(p) => if 0 <= p < s {
                    spec_lookup(rs, p, name)
                } else {
                    None
                },
                None => None,
            },
        }
    }
}

/// First-define of `name` in scope `s` alone: fails if the name is already
/// bound there, and never consults ancestors.
pub open spec fn spec_define(
    rs: Seq<SpecScopeRecord>,
    s: int,
    name: Seq<char>,
    v: SpecValue,
) -> Result<Seq<SpecScopeRecord>, SpecScopeError> {
    if !(0 <= s < rs.len()) {
        Err(SpecScopeError::NotDefined(name))
    } else if spec_find_index(rs[s].bindings, name) is Some {
        Err(SpecScopeError::AlreadyDefined(name))
    } else {
        Ok(
            rs.update(
                s,
                SpecScopeRecord { parent: rs[s].parent, bindings: rs[s].bindings.push((name, v)) },
            ),
        )
    }
}

/// Replace of `name` starting at scope `s`: overwrites the first scope up
/// the chain where the name is bound, requires the new binding's type to
/// equal the old one's, and fails if no scope in the chain binds the name.
pub open spec fn spec_replace(
    rs: Seq<SpecScopeRecord>,
    s: int,
    name: Seq<char>,
    v: SpecValue,
) -> Result<Seq<SpecScopeRecord>, SpecScopeError>
    decreases s,
{
    if !(0 <= s < rs.len()) {
        Err(SpecScopeError::NotDefined(name))
    } else {
        match spec_find_index(rs[s].bindings, name) {
            Some(j) => if spec_value_type(rs[s].bindings[j].1) == spec_value_type(v) {
                Ok(
                    rs.update(
                        s,
                        SpecScopeRecord {
                            parent: rs[s].parent,
                            bindings: rs[s].bindings.update(j, (name, v)),
                        },
                    ),
                )
            } else {
                Err(SpecScopeError::TypeMismatch(name))
            },
            None => match rs[s].parent {
                Some(p) => if 0 <= p < s {
                    spec_replace(rs, p, name, v)
                } else {
                    Err(SpecScopeError::NotDefined(name))
                },
                None => Err(SpecScopeError::NotDefined(name)),
            },
        }
    }
}

/// Replace `name` if some scope in the chain binds it, else define it in
/// scope `s` itself.
pub open spec fn spec_set_or_replace(
    rs: Seq<SpecScopeRecord>,
    s: int,
    name: Seq<char>,
    v: SpecValue,
) -> Result<Seq<SpecScopeRecord>, SpecScopeError> {
    match spec_replace(rs, s, name, v) {
        Ok(rs2) => Ok(rs2),
        Err(e) => if e is NotDefined {
            spec_define(rs, s, name, v)
        } else {
            Err(e)
        },
    }
}

/// Every scope's parent was created before it; lookup therefore always
/// terminates.
pub open spec fn scope_wf(rs: Seq<SpecScopeRecord>) -> bool {
    forall|i: int|
        0 <= i < rs.len() ==> match (#[trigger] rs[i]).parent {
            Some(p) => 0 <= p < i,
            None => true,
        }
}

/// The scope tree: an arena of records addressed by index, with the global
/// scope at index zero. Records are never removed; a scope identifier
/// stays valid for the life of the tree.
#[derive(Debug, PartialEq)]
pub struct Scope {
    pub records: Vec<ScopeRecord>,
}

impl View for Scope {
    type V = Seq<SpecScopeRecord>;

    open spec fn view(&self) -> Seq<SpecScopeRecord> {
        records_view(self.records@)
    }
}

/// Index of the global scope in every tree.
pub open spec fn spec_global_scope() -> int {
    0
}

impl Scope {
    /// A tree holding only the empty global scope.
    pub fn new() -> (r: Scope)
        ensures
            r@ =~= seq![SpecScopeRecord { parent: None, bindings: Seq::empty() }],
            scope_wf(r@),
    {
        let mut records: Vec<ScopeRecord> = Vec::new();
        records.push(ScopeRecord { parent: None, bindings: Vec::new() });
        proof {
            lemma_records_view_len(records@);
            lemma_records_view_index(records@, 0);
        }
        Scope { records }
    }

    /// The number of scopes in the tree.
    pub fn len(&self) -> (r: usize)
        ensures
            r == self@.len(),
    {
        proof {
            lemma_records_view_len(self.records@);
        }
        self.records.len()
    }

    /// A fresh empty scope whose parent is `parent`; its identifier is
    /// returned.
    pub fn new_child(&mut self, parent: usize) -> (r: usize)
        requires
            parent < old(self)@.len(),
        ensures
            r == old(self)@.len(),
            final(self)@ == old(self)@.push(
                SpecScopeRecord { parent: Some(parent as int), bindings: Seq::empty() },
            ),
            scope_wf(old(self)@) ==> scope_wf(final(self)@),
    {
        proof {
            lemma_records_view_len(self.records@);
        }
        let id = self.records.len();
        self.records.push(ScopeRecord { parent: Some(parent), bindings: Vec::new() });
        proof {
            assert(self.records@.drop_last() =~= old(self).records@);
            lemma_records_view_len(self.records@);
            assert(self.records@[self.records@.len() - 1].parent == Some(parent));
            assert(self@ =~= old(self)@.push(
                SpecScopeRecord { parent: Some(parent as int), bindings: Seq::empty() },
            )) by {
                lemma_records_view_len(old(self).records@);
                assert forall|k: int| 0 <= k < self.records@.len() implies records_view(
                    self.records@,
                )[k] == old(self)@.push(
                    SpecScopeRecord { parent: Some(parent as int), bindings: Seq::empty() },
                )[k] by {
                    lemma_records_view_index(self.records@, k);
                    if k < self.records@.len() - 1 {
                        lemma_records_view_index(old(self).records@, k);
                    }
                }
            }
            assert(scope_wf(old(self)@) ==> scope_wf(self@)) by {
                if scope_wf(old(self)@) {
                    assert forall|i: int| 0 <= i < self@.len() implies match (#[trigger] self@[i]).parent {
                        Some(p) => 0 <= p < i,
                        None => true,
                    } by {
                        if i < old(self)@.len() {
                            assert(self@[i] == old(self)@[i]);
                        }
                    }
                }
            }
        }
        id
    }

    /// The position of the first binding of `name` directly in scope `s`.
    fn find_index(&self, s: usize, name: &String) -> (r: Option<usize>)
        requires
            s < self@.len(),
        ensures
            match r {
                Some(j) => j < self@[s as int].bindings.len() && spec_find_index(
                    self@[s as int].bindings,
                    name@,
                ) == Some(j as int),
                None => spec_find_index(self@[s as int].bindings, name@) is None,
            },
    {
        proof {
            lemma_records_view_len(self.records@);
            lemma_records_view_index(self.records@, s as int);
            lemma_binds_view_len(self.records@[s as int].bindings@);
        }
        let bindings = &self.records[s].bindings;
        let ghost bv = self@[s as int].bindings;
        let mut i: usize = 0;
        while i < bindings.len()
            invariant
                i <= bindings.len(),
                s < self@.len(),
                self@[s as int].bindings == bv,
                bv == binds_view(bindings@),
                bv.len() == bindings@.len(),
                forall|k: int| 0 <= k < i ==> bv[k].0 != name@,
            decreases bindings.len() - i,
        {
            proof {
                lemma_binds_view_index(bindings@, i as int);
            }
            if string_eq(&bindings[i].0, name) {
                proof {
                    lemma_find_index_present(bv, name@, i as int);
                }
                return Some(i);
            }
            i = i + 1;
        }
        proof {
            lemma_find_index_absent(bv, name@);
        }
        None
    }

    /// Nearest enclosing binding of `name`, starting at scope `s`:
    /// this scope's own bindings first, then the parent chain.
    pub fn get(&self, s: usize, name: &String) -> (r: Option<&ItpValue>)
        requires
            s < self@.len(),
            scope_wf(self@),
        ensures
            match r {
                Some(v) => spec_lookup(self@, s as int, name@) == Some(value_view(*v)),
                None => spec_lookup(self@, s as int, name@) is None,
            },
    {
        let mut cur: usize = s;
        loop
            invariant
                cur < self@.len(),
                scope_wf(self@),
                spec_lookup(self@, s as int, name@) == spec_lookup(self@, cur as int, name@),
            decreases cur,
        {
            proof {
                lemma_records_view_len(self.records@);
                lemma_records_view_index(self.records@, cur as int);
            }
            match self.find_index(cur, name) {
                Some(j) => {
                    proof {
                        lemma_binds_view_len(self.records@[cur as int].bindings@);
                        lemma_binds_view_index(self.records@[cur as int].bindings@, j as int);
                    }
                    return Some(&self.records[cur].bindings[j].1);
                },
                None => {
                    match self.records[cur].parent {
                        Some(p) => {
                            cur = p;
                        },
                        None => {
                            return None;
                        },
                    }
                },
            }
        }
    }

    /// First-define of `name` in scope `s` alone: inserts only if `name`
    /// is absent from this scope's own bindings; never consults ancestors.
    pub fn set(&mut self, s: usize, name: String, value: ItpValue) -> (r: Result<(), ScopeError>)
        requires
            s < old(self)@.len(),
        ensures
            match r {
                Ok(()) => spec_define(old(self)@, s as int, name@, value@) == Ok::<
                    _,
                    SpecScopeError,
                >(final(self)@),
                Err(e) => spec_define(old(self)@, s as int, name@, value@) == Err::<
                    Seq<SpecScopeRecord>,
                    _,
                >(e@) && final(self)@ == old(self)@,
            },
            final(self)@.len() == old(self)@.len(),
            scope_wf(old(self)@) ==> scope_wf(final(self)@),
    {
        proof {
            lemma_records_view_len(self.records@);
            lemma_records_view_index(self.records@, s as int);
        }
        match self.find_index(s, &name) {
            Some(_) => Err(ScopeError::AlreadyDefined { name }),
            None => {
                let ghost oldrecs = self.records@;
                let ghost oldbinds = self.records@[s as int].bindings@;
                let rec = &mut self.records[s];
                rec.bindings.push((name, value));
                proof {
                    assert(self.records@ == oldrecs.update(s as int, self.records@[s as int]));
                    assert(self.records@[s as int].bindings@.drop_last() =~= oldbinds);
                    lemma_binds_view_len(self.records@[s as int].bindings@);
                    lemma_records_view_update(oldrecs, s as int, self.records@[s as int]);
                    assert(binds_view(self.records@[s as int].bindings@) =~= binds_view(
                        oldbinds,
                    ).push((name@, value@)));
                    assert(scope_wf(old(self)@) ==> scope_wf(self@)) by {
                        lemma_records_view_len(oldrecs);
                        if scope_wf(old(self)@) {
                            assert forall|i: int| 0 <= i < self@.len() implies match (#[trigger] self@[i]).parent {
                                Some(p) => 0 <= p < i,
                                None => true,
                            } by {
                                assert(old(self)@[i].parent == self@[i].parent);
                            }
                        }
                    }
                }
                Ok(())
            },
        }
    }

    /// Replace of `name`: overwrite the binding in the first scope up the
    /// chain from `s` that binds it, keeping its position; the new value's
    /// type must equal the old one's; fails if no scope binds `name`.
    pub fn replace(&mut self, s: usize, name: String, value: ItpValue) -> (r: Result<
        (),
        ScopeError,
    >)
        requires
            s < old(self)@.len(),
            scope_wf(old(self)@),
        ensures
            match r {
                Ok(()) => spec_replace(old(self)@, s as int, name@, value@) == Ok::<
                    _,
                    SpecScopeError,
                >(final(self)@),
                Err(e) => spec_replace(old(self)@, s as int, name@, value@) == Err::<
                    Seq<SpecScopeRecord>,
                    _,
                >(e@) && final(self)@ == old(self)@ && (e@ == SpecScopeError::NotDefined(name@)
                    || e@ == SpecScopeError::TypeMismatch(name@)),
            },
            final(self)@.len() == old(self)@.len(),
            scope_wf(final(self)@),
    {
        let ghost rs0 = self@;
        let mut cur: usize = s;
        loop
            invariant
                rs0 == old(self)@,
                cur < self@.len(),
                scope_wf(self@),
                self@ == rs0,
                s < self@.len(),
                spec_replace(rs0, s as int, name@, value@) == spec_replace(
                    rs0,
                    cur as int,
                    name@,
                    value@,
                ),
            decreases cur,
        {
            proof {
                lemma_records_view_len(self.records@);
                lemma_records_view_index(self.records@, cur as int);
            }
            match self.find_index(cur, &name) {
                Some(j) => {
                    proof {
                        lemma_binds_view_len(self.records@[cur as int].bindings@);
                        lemma_binds_view_index(self.records@[cur as int].bindings@, j as int);
                    }
                    let same = {
                        let old_t = self.records[cur].bindings[j].1.get_type();
                        let new_t = value.get_type();
                        match (&old_t, &new_t) {
                            (Some(a), Some(b)) => type_eq(a, b),
                            (None, None) => true,
                            _ => false,
                        }
                    };
                    if !same {
                        return Err(ScopeError::TypeMismatch { name });
                    }
                    let ghost oldrecs = self.records@;
                    let ghost oldbinds = self.records@[cur as int].bindings@;
                    let ghost namev = name@;
                    let ghost valuev = value_view(value);
                    let rec = &mut self.records[cur];
                    rec.bindings[j] = (name, value);
                    proof {
                        let newbinds = self.records@[cur as int].bindings@;
                        assert(self.records@ == oldrecs.update(
                            cur as int,
                            self.records@[cur as int],
                        ));
                        assert(newbinds == oldbinds.update(j as int, newbinds[j as int]));
                        assert(newbinds[j as int].0@ == namev);
                        assert(value_view(newbinds[j as int].1) == valuev);
                        lemma_records_view_update(oldrecs, cur as int, self.records@[cur as int]);
                        lemma_binds_view_len(newbinds);
                        lemma_binds_view_len(oldbinds);
                        assert forall|k: int| 0 <= k < oldbinds.len() implies binds_view(
                            newbinds,
                        )[k] == binds_view(oldbinds).update(j as int, (namev, valuev))[k] by {
                            lemma_binds_view_index(newbinds, k);
                            lemma_binds_view_index(oldbinds, k);
                        }
                        assert(binds_view(newbinds) =~= binds_view(oldbinds).update(
                            j as int,
                            (namev, valuev),
                        ));
                        assert(self@ == rs0.update(
                            cur as int,
                            SpecScopeRecord {
                                parent: rs0[cur as int].parent,
                                bindings: rs0[cur as int].bindings.update(j as int, (namev, valuev)),
                            },
                        ));
                        assert(scope_wf(self@)) by {
                            lemma_records_view_len(oldrecs);
                            assert forall|i: int| 0 <= i < self@.len() implies match (#[trigger] self@[i]).parent {
                                Some(p) => 0 <= p < i,
                                None => true,
                            } by {
                                assert(rs0[i].parent == self@[i].parent);
                            }
                        }
                    }
                    return Ok(());
                },
                None => {
                    match self.records[cur].parent {
                        Some(p) => {
                            cur = p;
                        },
                        None => {
                            return Err(ScopeError::NotDefined { name });
                        },
                    }
                },
            }
        }
    }
    /// Replace `name` if some scope in the chain from `s` binds it, else
    /// define it in scope `s` itself.
    pub fn set_or_replace(&mut self, s: usize, name: String, value: ItpValue) -> (r: Result<
        (),
        ScopeError,
    >)
        requires
            s < old(self)@.len(),
            scope_wf(old(self)@),
        ensures
            match r {
                Ok(()) => spec_set_or_replace(old(self)@, s as int, name@, value@) == Ok::<
                    _,
                    SpecScopeError,
                >(final(self)@),
                Err(e) => spec_set_or_replace(old(self)@, s as int, name@, value@) == Err::<
                    Seq<SpecScopeRecord>,
                    _,
                >(e@) && final(self)@ == old(self)@,
            },
            final(self)@.len() == old(self)@.len(),
            scope_wf(final(self)@),
    {
        let ghost rs0 = self@;
        let ghost namev = name@;
        let ghost valuev = value_view(value);
        let defined = match self.get(s, &name) {
            Some(_) => true,
            None => false,
        };
        proof {
            lemma_replace_absent_fails(rs0, s as int, namev, valuev);
        }
        if defined {
            match self.replace(s, name, value) {
                Ok(()) => Ok(()),
                Err(e) => Err(e),
            }
        } else {
            match self.set(s, name, value) {
                Ok(()) => Ok(()),
                Err(e) => Err(e),
            }
        }
    }
}

/// The placeholder binding a reserved synthetic name carries.
pub open spec fn spec_temp_binding(name: Seq<char>) -> SpecValue {
    SpecValue::Named(
        crate::tokens::IdentifierV { name, kind: crate::tokens::IdentifierKind::Variable },
        crate::interpreter::value::SpecType::Void,
    )
}

impl Scope {
    /// Generate a synthetic name (`temp`, `temp_1`, ...) that no binding
    /// of scope `s` itself uses, and reserve it there at once so that
    /// later calls in the same scope cannot collide with it.
    pub fn fresh_temp_name(&mut self, s: usize) -> (r: String)
        requires
            s < old(self)@.len(),
        ensures
            spec_find_index(old(self)@[s as int].bindings, r@) is None,
            spec_define(old(self)@, s as int, r@, spec_temp_binding(r@)) == Ok::<
                _,
                SpecScopeError,
            >(final(self)@),
            final(self)@.len() == old(self)@.len(),
            scope_wf(old(self)@) ==> scope_wf(final(self)@),
    {
        let mut probe: usize = 0;
        let limit = {
            proof {
                lemma_records_view_len(self.records@);
                lemma_records_view_index(self.records@, s as int);
                lemma_binds_view_len(self.records@[s as int].bindings@);
            }
            self.records[s].bindings.len()
        };
        loop
            invariant
                probe <= limit,
                s < self@.len(),
                self@ == old(self)@,
            decreases limit - probe,
        {
            let mut candidate = String::from_str("temp");
            if probe > 0 {
                candidate.append("_");
                candidate.append(uint_to_string(probe).as_str());
            }
            match self.find_index(s, &candidate) {
                None => {
                    return self.reserve(s, candidate);
                },
                Some(_) => {},
            }
            if probe == limit {
                break;
            }
            probe = probe + 1;
        }
        let mut candidate = String::from_str("temp");
        let ghost bv = self@[s as int].bindings;
        proof {
            lemma_records_view_len(self.records@);
            lemma_records_view_index(self.records@, s as int);
            lemma_binds_view_len(self.records@[s as int].bindings@);
            reveal_strlit("temp");
            assert(("temp")@.len() == 4);
        }
        let n = self.records[s].bindings.len();
        let mut i: usize = 0;
        while i < n
            invariant
                i <= n,
                s < self@.len(),
                s < self.records@.len(),
                self@ == old(self)@,
                bv == self@[s as int].bindings,
                bv == binds_view(self.records@[s as int].bindings@),
                bv.len() == self.records@[s as int].bindings@.len(),
                n == bv.len(),
                candidate@.len() >= 4,
                forall|k: int| 0 <= k < i ==> candidate@.len() > bv[k].0.len(),
            decreases n - i,
        {
            proof {
                lemma_binds_view_index(self.records@[s as int].bindings@, i as int);
            }
            candidate.append("_");
            let more = self.records[s].bindings[i].0.clone();
            candidate.append(more.as_str());
            i = i + 1;
        }
        proof {
            assert forall|k: int| 0 <= k < bv.len() implies bv[k].0 != candidate@ by {
                assert(candidate@.len() > bv[k].0.len());
            }
            lemma_find_index_absent(bv, candidate@);
        }
        self.reserve(s, candidate)
    }

    /// Reserve a name known to be free in scope `s` with a placeholder
    /// binding.
    fn reserve(&mut self, s: usize, candidate: String) -> (r: String)
        requires
            s < old(self)@.len(),
            spec_find_index(old(self)@[s as int].bindings, candidate@) is None,
        ensures
            r@ == candidate@,
            spec_find_index(old(self)@[s as int].bindings, r@) is None,
            spec_define(old(self)@, s as int, r@, spec_temp_binding(r@)) == Ok::<
                _,
                SpecScopeError,
            >(final(self)@),
            final(self)@.len() == old(self)@.len(),
            scope_wf(old(self)@) ==> scope_wf(final(self)@),
    {
        let value = ItpValue::Named(
            crate::tokens::Identifier {
                name: candidate.clone(),
                kind: crate::tokens::IdentifierKind::Variable,
            },
            crate::interpreter::value::ItpTypeValue::Void,
        );
        match self.set(s, candidate.clone(), value) {
            Ok(()) => candidate,
            Err(_) => {
                proof {
                    assert(false);
                }
                candidate
            },
        }
    }
}

/// The decimal spelling of a number, for synthesizing names.
fn uint_to_string(n: usize) -> (r: String)
    ensures
        r@.len() > 0,
{
    let mut digits: Vec<char> = Vec::new();
    let mut rest: usize = n;
    loop
        invariant_except_break
            true,
        ensures
            digits@.len() > 0,
        decreases rest,
    {
        let d = (rest % 10) as u8;
        digits.push((48 + d) as char);
        rest = rest / 10;
        if rest == 0 {
            break;
        }
    }
    let mut out = String::new();
    let mut i: usize = digits.len();
    while i > 0
        invariant
            i <= digits@.len(),
            digits@.len() > 0,
            out@.len() == digits@.len() - i,
        decreases i,
    {
        i = i - 1;
        crate::tokens::push_char(&mut out, digits[i]);
    }
    out
}

/// Law: `replace` of a name starting at scope `s` fails with `NotDefined`
/// exactly when no scope in the chain from `s` binds the name, that is,
/// when `lookup` from `s` finds nothing.
pub proof fn lemma_replace_absent_fails(
    rs: Seq<SpecScopeRecord>,
    s: int,
    name: Seq<char>,
    v: SpecValue,
)
    ensures
        (spec_replace(rs, s, name, v) == Err::<Seq<SpecScopeRecord>, _>(
            SpecScopeError::NotDefined(name),
        )) <==> spec_lookup(rs, s, name) is None,
    decreases s,
{
    if 0 <= s < rs.len() {
        match rs[s].parent {
            Some(p) => {
                if 0 <= p < s {
                    lemma_replace_absent_fails(rs, p, name, v);
                }
            },
            None => {},
        }
    }
}

/// Law: a first-define of a name, immediately followed by another
/// first-define of the same name in the same scope, always fails with
/// `AlreadyDefined`, whatever the two bindings are.
pub proof fn lemma_define_then_define_fails(
    rs: Seq<SpecScopeRecord>,
    s: int,
    name: Seq<char>,
    v1: SpecValue,
    v2: SpecValue,
)
    requires
        0 <= s < rs.len(),
        spec_define(rs, s, name, v1) is Ok,
    ensures
        spec_define(spec_define(rs, s, name, v1)->Ok_0, s, name, v2) == Err::<
            Seq<SpecScopeRecord>,
            _,
        >(SpecScopeError::AlreadyDefined(name)),
{
    let rs2 = spec_define(rs, s, name, v1)->Ok_0;
    let b = rs[s].bindings;
    lemma_find_index_props(b, name);
    assert(rs2[s].bindings == b.push((name, v1)));
    lemma_find_index_present(b.push((name, v1)), name, b.len() as int);
}

/// Whether `anc` lies on the parent chain of `d` (inclusively: a scope is
/// its own ancestor).
pub open spec fn spec_is_ancestor(rs: Seq<SpecScopeRecord>, anc: int, d: int) -> bool
    decreases d,
{
    if !(0 <= d < rs.len()) {
        false
    } else if d == anc {
        true
    } else {
        match rs[d].parent {
            Some(p) => 0 <= p < d && spec_is_ancestor(rs, anc, p),
            None => false,
        }
    }
}

/// Whether no scope on the chain from `d` up to, but not including, `anc`
/// binds `name`.
pub open spec fn spec_unshadowed(rs: Seq<SpecScopeRecord>, anc: int, d: int, name: Seq<char>) -> bool
    decreases d,
{
    if d == anc {
        true
    } else if !(0 <= d < rs.len()) {
        false
    } else {
        spec_find_index(rs[d].bindings, name) is None && match rs[d].parent {
            Some(p) => 0 <= p < d && spec_unshadowed(rs, anc, p, name),
            None => false,
        }
    }
}

/// Law: if `name` is defined in scope `anc`, then `lookup` from any
/// descendant `d` of `anc` returns that binding, unless a scope strictly
/// between `d` and `anc` shadows the name.
pub proof fn lemma_lookup_from_descendant(
    rs: Seq<SpecScopeRecord>,
    anc: int,
    d: int,
    name: Seq<char>,
)
    requires
        spec_is_ancestor(rs, anc, d),
        spec_unshadowed(rs, anc, d, name),
        spec_find(rs[anc].bindings, name) is Some,
    ensures
        spec_lookup(rs, d, name) == spec_find(rs[anc].bindings, name),
    decreases d,
{
    if d == anc {
    } else {
        match rs[d].parent {
            Some(p) => {
                lemma_lookup_from_descendant(rs, anc, p, name);
            },
            None => {},
        }
    }
}

} // verus!
