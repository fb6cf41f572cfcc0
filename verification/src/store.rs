//! A verified model of the key-value table the engine runs against.
//!
//! The table holds items under a composite key (partition key, sort
//! key); each item is a list of named attributes.  The model exposes
//! the primitive set the engine relies on — point reads, prefix
//! queries, attribute scans, unconditional puts and the atomic
//! multi-item commit — and its view is the finite map from keys to
//! attribute lists.  The atomic commit evaluates every precondition
//! against the state before the commit and then applies all operations
//! or none, which is the engine's sole concurrency-control mechanism.

use vstd::prelude::*;
use crate::text::str_eq;

verus! {

/// An attribute value: a string, a number rendered as its decimal
/// string, or a list of strings.
pub enum AttrVal {
    S(String),
    N(String),
    L(Vec<String>),
}

/// The mathematical value of an attribute.
pub enum AttrV {
    S(Seq<char>),
    N(Seq<char>),
    L(Seq<Seq<char>>),
}

impl View for AttrVal {
    type V = AttrV;

    open spec fn view(&self) -> AttrV {
        match self {
            AttrVal::S(s) => AttrV::S(s@),
            AttrVal::N(s) => AttrV::N(s@),
            AttrVal::L(v) => AttrV::L(v@.map_values(|s: String| s@)),
        }
    }
}

/// An attribute list as a mathematical value.
pub type AttrsV = Seq<(Seq<char>, AttrV)>;

/// The view of an attribute list.
pub open spec fn attrs_view(s: Seq<(String, AttrVal)>) -> AttrsV {
    s.map_values(|p: (String, AttrVal)| (p.0@, p.1@))
}

/// One stored item.
pub struct Row {
    pub pk: String,
    pub sk: String,
    pub attrs: Vec<(String, AttrVal)>,
}

pub struct RowV {
    pub pk: Seq<char>,
    pub sk: Seq<char>,
    pub attrs: AttrsV,
}

impl View for Row {
    type V = RowV;

    open spec fn view(&self) -> RowV {
        RowV { pk: self.pk@, sk: self.sk@, attrs: attrs_view(self.attrs@) }
    }
}

pub type KeyV = (Seq<char>, Seq<char>);

pub open spec fn row_key(r: RowV) -> KeyV {
    (r.pk, r.sk)
}

/// The map from keys to attribute lists denoted by a row sequence;
/// a later duplicate would win, but well-formed stores have none.
pub open spec fn map_of(rows: Seq<RowV>) -> Map<KeyV, AttrsV>
    decreases rows.len(),
{
    if rows.len() == 0 {
        Map::empty()
    } else {
        map_of(rows.drop_last()).insert(row_key(rows.last()), rows.last().attrs)
    }
}

pub open spec fn keys_distinct(rows: Seq<RowV>) -> bool {
    forall|i: int, j: int|
        0 <= i < j < rows.len() ==> row_key(rows[i]) != row_key(rows[j])
}

/// First attribute with the given name, scanning from the front.
pub open spec fn attr_of(attrs: AttrsV, name: Seq<char>) -> Option<AttrV>
    decreases attrs.len(),
{
    if attrs.len() == 0 {
        None
    } else if attrs[0].0 == name {
        Some(attrs[0].1)
    } else {
        attr_of(attrs.drop_first(), name)
    }
}

/// The table model.
pub struct Store {
    rows: Vec<Row>,
}

impl View for Store {
    type V = Map<KeyV, AttrsV>;

    closed spec fn view(&self) -> Map<KeyV, AttrsV> {
        map_of(self.rows@.map_values(|r: Row| r@))
    }
}

// ---------------------------------------------------------------------
// Lemmas relating the row sequence to its map
// ---------------------------------------------------------------------

pub proof fn lemma_map_of_dom(rows: Seq<RowV>, k: KeyV)
    ensures
        map_of(rows).dom().contains(k) <==> exists|i: int|
            0 <= i < rows.len() && row_key(#[trigger] rows[i]) == k,
    decreases rows.len(),
{
    if rows.len() > 0 {
        lemma_map_of_dom(rows.drop_last(), k);
        if row_key(rows.last()) == k {
            assert(row_key(rows[rows.len() - 1]) == k);
        } else {
            if exists|i: int| 0 <= i < rows.len() && row_key(#[trigger] rows[i]) == k {
                let i = choose|i: int| 0 <= i < rows.len() && row_key(#[trigger] rows[i]) == k;
                assert(i < rows.len() - 1);
                assert(rows.drop_last()[i] == rows[i]);
            }
        }
    }
}

pub proof fn lemma_map_of_get(rows: Seq<RowV>, i: int)
    requires
        keys_distinct(rows),
        0 <= i < rows.len(),
    ensures
        map_of(rows).dom().contains(row_key(rows[i])),
        map_of(rows)[row_key(rows[i])] == rows[i].attrs,
    decreases rows.len(),
{
    if i == rows.len() - 1 {
    } else {
        assert(keys_distinct(rows.drop_last()));
        assert(rows.drop_last()[i] == rows[i]);
        lemma_map_of_get(rows.drop_last(), i);
        assert(row_key(rows[i]) != row_key(rows[rows.len() - 1]));
    }
}

pub proof fn lemma_map_of_push(rows: Seq<RowV>, r: RowV)
    ensures
        map_of(rows.push(r)) == map_of(rows).insert(row_key(r), r.attrs),
{
    assert(rows.push(r).drop_last() =~= rows);
}

pub proof fn lemma_map_of_update(rows: Seq<RowV>, i: int, r: RowV)
    requires
        keys_distinct(rows),
        0 <= i < rows.len(),
        row_key(r) == row_key(rows[i]),
    ensures
        map_of(rows.update(i, r)) == map_of(rows).insert(row_key(r), r.attrs),
    decreases rows.len(),
{
    let rows2 = rows.update(i, r);
    if i == rows.len() - 1 {
        assert(rows2.drop_last() =~= rows.drop_last());
        assert(rows2.last() == r);
    } else {
        assert(keys_distinct(rows.drop_last()));
        assert(rows.drop_last()[i] == rows[i]);
        lemma_map_of_update(rows.drop_last(), i, r);
        assert(rows2.drop_last() =~= rows.drop_last().update(i, r));
        assert(rows2.last() == rows.last());
        assert(row_key(rows.last()) != row_key(r));
        assert(map_of(rows2) == map_of(rows.drop_last()).insert(row_key(r), r.attrs).insert(
            row_key(rows.last()),
            rows.last().attrs,
        ));
        assert(map_of(rows.drop_last()).insert(row_key(r), r.attrs).insert(
            row_key(rows.last()),
            rows.last().attrs,
        ) =~= map_of(rows.drop_last()).insert(row_key(rows.last()), rows.last().attrs).insert(
            row_key(r),
            r.attrs,
        ));
    }
}

pub proof fn lemma_map_of_remove(rows: Seq<RowV>, i: int)
    requires
        keys_distinct(rows),
        0 <= i < rows.len(),
    ensures
        map_of(rows.remove(i)) == map_of(rows).remove(row_key(rows[i])),
    decreases rows.len(),
{
    let k = row_key(rows[i]);
    if i == rows.len() - 1 {
        assert(rows.remove(i) =~= rows.drop_last());
        lemma_map_of_dom(rows.drop_last(), k);
        assert(forall|j: int|
            0 <= j < rows.drop_last().len() ==> row_key(#[trigger] rows.drop_last()[j])
                != k) by {
            assert(forall|j: int|
                0 <= j < rows.len() - 1 ==> rows.drop_last()[j] == rows[j]);
        }
        assert(!map_of(rows.drop_last()).dom().contains(k));
        assert(map_of(rows.drop_last()) =~= map_of(rows.drop_last()).insert(k,
            rows.last().attrs).remove(k));
    } else {
        assert(keys_distinct(rows.drop_last()));
        assert(rows.drop_last()[i] == rows[i]);
        lemma_map_of_remove(rows.drop_last(), i);
        assert(rows.remove(i).drop_last() =~= rows.drop_last().remove(i));
        assert(rows.remove(i).last() == rows.last());
        assert(row_key(rows.last()) != k);
        assert(map_of(rows.drop_last()).remove(k).insert(row_key(rows.last()),
            rows.last().attrs) =~= map_of(rows.drop_last()).insert(row_key(rows.last()),
            rows.last().attrs).remove(k));
    }
}

// ---------------------------------------------------------------------
// Cloning helpers (field-exact, fully verified)
// ---------------------------------------------------------------------

/// Copies a string vector element by element.
pub fn clone_string_vec(v: &Vec<String>) -> (r: Vec<String>)
    ensures
        r@.map_values(|s: String| s@) == v@.map_values(|s: String| s@),
        r@.len() == v@.len(),
{
    let mut r: Vec<String> = Vec::new();
    let mut i: usize = 0;
    while i < v.len()
        invariant
            i <= v.len(),
            r@.len() == i,
            forall|j: int| 0 <= j < i ==> r@[j]@ == v@[j]@,
        decreases v.len() - i,
    {
        r.push(v[i].clone());
        i += 1;
    }
    proof {
        assert(r@.map_values(|s: String| s@) =~= v@.map_values(|s: String| s@));
    }
    r
}

/// Copies an attribute value.
pub fn clone_attr(a: &AttrVal) -> (r: AttrVal)
    ensures
        r@ == a@,
{
    match a {
        AttrVal::S(s) => AttrVal::S(s.clone()),
        AttrVal::N(s) => AttrVal::N(s.clone()),
        AttrVal::L(v) => {
            let c = clone_string_vec(v);
            proof {
                assert(c@.map_values(|s: String| s@) == v@.map_values(|s: String| s@));
            }
            AttrVal::L(c)
        },
    }
}

/// Copies an attribute list.
pub fn clone_attrs(a: &Vec<(String, AttrVal)>) -> (r: Vec<(String, AttrVal)>)
    ensures
        attrs_view(r@) == attrs_view(a@),
        r@.len() == a@.len(),
{
    let mut r: Vec<(String, AttrVal)> = Vec::new();
    let mut i: usize = 0;
    while i < a.len()
        invariant
            i <= a.len(),
            r@.len() == i,
            forall|j: int| 0 <= j < i ==> #[trigger] attrs_view(r@)[j] == attrs_view(a@)[j],
        decreases a.len() - i,
    {
        let name = a[i].0.clone();
        let val = clone_attr(&a[i].1);
        let ghost prev = r@;
        r.push((name, val));
        proof {
            assert(forall|j: int|
                0 <= j < prev.len() ==> #[trigger] attrs_view(r@)[j] == attrs_view(prev)[j]);
            assert(attrs_view(r@)[i as int] == attrs_view(a@)[i as int]);
        }
        i += 1;
    }
    proof {
        assert(attrs_view(r@) =~= attrs_view(a@));
    }
    r
}

/// Copies a row.
pub fn clone_row(x: &Row) -> (r: Row)
    ensures
        r@ == x@,
{
    Row { pk: x.pk.clone(), sk: x.sk.clone(), attrs: clone_attrs(&x.attrs) }
}

// ---------------------------------------------------------------------
// Attribute lookup
// ---------------------------------------------------------------------

/// Finds the first attribute with the given name.
pub fn get_attr<'a>(attrs: &'a Vec<(String, AttrVal)>, name: &str) -> (r: Option<&'a AttrVal>)
    ensures
        match r {
            Some(v) => attr_of(attrs_view(attrs@), name@) == Some(v@),
            None => attr_of(attrs_view(attrs@), name@) is None,
        },
{
    let ghost av = attrs_view(attrs@);
    proof {
        assert(av.skip(0) =~= av);
    }
    let mut i: usize = 0;
    while i < attrs.len()
        invariant
            i <= attrs.len(),
            av == attrs_view(attrs@),
            av.len() == attrs@.len(),
            attr_of(av, name@) == attr_of(av.skip(i as int), name@),
        decreases attrs.len() - i,
    {
        proof {
            assert(av.skip(i as int).drop_first() =~= av.skip(i + 1));
            assert(av.skip(i as int)[0] == av[i as int]);
        }
        if str_eq(attrs[i].0.as_str(), name) {
            return Some(&attrs[i].1);
        }
        i += 1;
    }
    proof {
        assert(av.skip(attrs@.len() as int).len() == 0);
    }
    None
}

/// The string content of an attribute, when it is a string attribute.
pub open spec fn attr_s(attrs: AttrsV, name: Seq<char>) -> Option<Seq<char>> {
    match attr_of(attrs, name) {
        Some(AttrV::S(s)) => Some(s),
        _ => None,
    }
}

/// The numeric content of an attribute, when it is a number attribute.
pub open spec fn attr_n(attrs: AttrsV, name: Seq<char>) -> Option<Seq<char>> {
    match attr_of(attrs, name) {
        Some(AttrV::N(s)) => Some(s),
        _ => None,
    }
}

/// Reads a string attribute as an owned value.
pub fn get_attr_s(attrs: &Vec<(String, AttrVal)>, name: &str) -> (r: Option<String>)
    ensures
        match r {
            Some(s) => attr_s(attrs_view(attrs@), name@) == Some(s@),
            None => attr_s(attrs_view(attrs@), name@) is None,
        },
{
    match get_attr(attrs, name) {
        Some(AttrVal::S(s)) => Some(s.clone()),
        _ => None,
    }
}

/// Reads a number attribute's decimal string as an owned value.
pub fn get_attr_n(attrs: &Vec<(String, AttrVal)>, name: &str) -> (r: Option<String>)
    ensures
        match r {
            Some(s) => attr_n(attrs_view(attrs@), name@) == Some(s@),
            None => attr_n(attrs_view(attrs@), name@) is None,
        },
{
    match get_attr(attrs, name) {
        Some(AttrVal::N(s)) => Some(s.clone()),
        _ => None,
    }
}

// ---------------------------------------------------------------------
// Transactions
// ---------------------------------------------------------------------

/// A write precondition, evaluated against the state before the commit.
pub enum TxCond {
    /// No precondition.
    Always,
    /// The key must not exist.
    Absent,
    /// The item must exist and its `status` string attribute must
    /// differ from the given value.
    StatusNe(String),
}

pub enum TxCondV {
    Always,
    Absent,
    StatusNe(Seq<char>),
}

impl View for TxCond {
    type V = TxCondV;

    open spec fn view(&self) -> TxCondV {
        match self {
            TxCond::Always => TxCondV::Always,
            TxCond::Absent => TxCondV::Absent,
            TxCond::StatusNe(s) => TxCondV::StatusNe(s@),
        }
    }
}

/// One write in an atomic commit.
pub enum TxOp {
    /// Store a whole item under the key.
    Put { pk: String, sk: String, attrs: Vec<(String, AttrVal)>, cond: TxCond },
    /// Overwrite the listed attributes, keeping the others; creates the
    /// item if it is absent.
    Update { pk: String, sk: String, sets: Vec<(String, AttrVal)>, cond: TxCond },
    /// Remove the item under the key, if present.
    Delete { pk: String, sk: String },
}

pub enum TxOpV {
    Put { pk: Seq<char>, sk: Seq<char>, attrs: AttrsV, cond: TxCondV },
    Update { pk: Seq<char>, sk: Seq<char>, sets: AttrsV, cond: TxCondV },
    Delete { pk: Seq<char>, sk: Seq<char> },
}

impl View for TxOp {
    type V = TxOpV;

    open spec fn view(&self) -> TxOpV {
        match self {
            TxOp::Put { pk, sk, attrs, cond } => TxOpV::Put {
                pk: pk@,
                sk: sk@,
                attrs: attrs_view(attrs@),
                cond: cond@,
            },
            TxOp::Update { pk, sk, sets, cond } => TxOpV::Update {
                pk: pk@,
                sk: sk@,
                sets: attrs_view(sets@),
                cond: cond@,
            },
            TxOp::Delete { pk, sk } => TxOpV::Delete { pk: pk@, sk: sk@ },
        }
    }
}

pub open spec fn op_key(op: TxOpV) -> KeyV {
    match op {
        TxOpV::Put { pk, sk, .. } => (pk, sk),
        TxOpV::Update { pk, sk, .. } => (pk, sk),
        TxOpV::Delete { pk, sk } => (pk, sk),
    }
}

pub open spec fn op_cond(op: TxOpV) -> TxCondV {
    match op {
        TxOpV::Put { cond, .. } => cond,
        TxOpV::Update { cond, .. } => cond,
        TxOpV::Delete { .. } => TxCondV::Always,
    }
}

/// Whether a precondition holds of the key in the given state.
pub open spec fn cond_holds(m: Map<KeyV, AttrsV>, k: KeyV, c: TxCondV) -> bool {
    match c {
        TxCondV::Always => true,
        TxCondV::Absent => !m.dom().contains(k),
        TxCondV::StatusNe(v) => m.dom().contains(k) && match attr_s(m[k], "status"@) {
            Some(s) => s != v,
            None => false,
        },
    }
}

/// Looking an attribute up after `set_attr`: the set name reads back
/// the new value, every other name is untouched.
pub proof fn lemma_set_attr_get(a: AttrsV, n: Seq<char>, v: AttrV, q: Seq<char>)
    ensures
        attr_of(set_attr(a, n, v), q) == if q == n {
            Some(v)
        } else {
            attr_of(a, q)
        },
    decreases a.len(),
{
    if a.len() == 0 {
        assert(seq![(n, v)][0] == (n, v));
        assert(seq![(n, v)].drop_first() =~= Seq::<(Seq<char>, AttrV)>::empty());
        assert(attr_of(seq![(n, v)].drop_first(), q) is None);
    } else if a[0].0 == n {
        let u = a.update(0, (n, v));
        assert(u[0] == (n, v));
        assert(u.len() == a.len());
        assert(u.drop_first() =~= a.drop_first());
        if q == n {
            assert(attr_of(u, q) == Some(v));
        } else {
            assert(attr_of(u, q) == attr_of(u.drop_first(), q));
            assert(attr_of(a, q) == attr_of(a.drop_first(), q));
        }
    } else {
        let s = seq![a[0]] + set_attr(a.drop_first(), n, v);
        assert(s[0] == a[0]);
        assert(s.drop_first() =~= set_attr(a.drop_first(), n, v));
        lemma_set_attr_get(a.drop_first(), n, v, q);
    }
}

/// Looking an attribute up after `merge_attrs`, when the sets do not
/// touch the name.
pub proof fn lemma_merge_attrs_get_absent(a: AttrsV, sets: AttrsV, q: Seq<char>)
    requires
        forall|j: int| 0 <= j < sets.len() ==> (#[trigger] sets[j]).0 != q,
    ensures
        attr_of(merge_attrs(a, sets), q) == attr_of(a, q),
    decreases sets.len(),
{
    if sets.len() > 0 {
        lemma_set_attr_get(a, sets[0].0, sets[0].1, q);
        assert(forall|j: int|
            0 <= j < sets.drop_first().len() ==> (#[trigger] sets.drop_first()[j]).0 != q);
        lemma_merge_attrs_get_absent(set_attr(a, sets[0].0, sets[0].1), sets.drop_first(), q);
    }
}

/// Looking an attribute up after `merge_attrs`, when exactly one set
/// entry carries the name and none after it does.
pub proof fn lemma_merge_attrs_get_set(a: AttrsV, sets: AttrsV, i: int, q: Seq<char>)
    requires
        0 <= i < sets.len(),
        sets[i].0 == q,
        forall|j: int| i < j < sets.len() ==> (#[trigger] sets[j]).0 != q,
    ensures
        attr_of(merge_attrs(a, sets), q) == Some(sets[i].1),
    decreases sets.len(),
{
    lemma_set_attr_get(a, sets[0].0, sets[0].1, q);
    if i == 0 {
        assert(forall|j: int|
            0 <= j < sets.drop_first().len() ==> (#[trigger] sets.drop_first()[j]).0 != q);
        lemma_merge_attrs_get_absent(set_attr(a, sets[0].0, sets[0].1), sets.drop_first(), q);
    } else {
        assert(sets.drop_first()[i - 1] == sets[i]);
        assert(forall|j: int|
            i - 1 < j < sets.drop_first().len() ==> (#[trigger] sets.drop_first()[j]).0 != q);
        lemma_merge_attrs_get_set(set_attr(a, sets[0].0, sets[0].1), sets.drop_first(), i - 1, q);
    }
}

/// Replaces the first attribute with the given name, or appends.
pub open spec fn set_attr(attrs: AttrsV, name: Seq<char>, val: AttrV) -> AttrsV
    decreases attrs.len(),
{
    if attrs.len() == 0 {
        seq![(name, val)]
    } else if attrs[0].0 == name {
        attrs.update(0, (name, val))
    } else {
        seq![attrs[0]] + set_attr(attrs.drop_first(), name, val)
    }
}

/// Applies all the `sets` to `attrs`, in order.
pub open spec fn merge_attrs(attrs: AttrsV, sets: AttrsV) -> AttrsV
    decreases sets.len(),
{
    if sets.len() == 0 {
        attrs
    } else {
        merge_attrs(set_attr(attrs, sets[0].0, sets[0].1), sets.drop_first())
    }
}

/// The state after one write is applied.
pub open spec fn apply_op(m: Map<KeyV, AttrsV>, op: TxOpV) -> Map<KeyV, AttrsV> {
    match op {
        TxOpV::Put { pk, sk, attrs, .. } => m.insert((pk, sk), attrs),
        TxOpV::Update { pk, sk, sets, .. } => {
            let base = if m.dom().contains((pk, sk)) {
                m[(pk, sk)]
            } else {
                Seq::empty()
            };
            m.insert((pk, sk), merge_attrs(base, sets))
        },
        TxOpV::Delete { pk, sk } => m.remove((pk, sk)),
    }
}

/// The state after a whole commit is applied, front to back.
pub open spec fn apply_ops(m: Map<KeyV, AttrsV>, ops: Seq<TxOpV>) -> Map<KeyV, AttrsV>
    decreases ops.len(),
{
    if ops.len() == 0 {
        m
    } else {
        apply_ops(apply_op(m, ops[0]), ops.drop_first())
    }
}

/// Whether every precondition of the commit holds in state `m`.
pub open spec fn conds_hold(m: Map<KeyV, AttrsV>, ops: Seq<TxOpV>) -> bool {
    forall|i: int|
        0 <= i < ops.len() ==> cond_holds(m, op_key(#[trigger] ops[i]), op_cond(ops[i]))
}

/// Outcome of an atomic commit.
pub enum CommitResult {
    Committed,
    /// The index of the first operation whose precondition failed.
    Aborted(usize),
}

impl Store {
    /// Internal consistency: one row per key.
    pub closed spec fn wf(&self) -> bool {
        keys_distinct(self.rows@.map_values(|r: Row| r@))
    }

    /// The empty table.
    pub fn new() -> (s: Store)
        ensures
            s.wf(),
            s@ == Map::<KeyV, AttrsV>::empty(),
    {
        let s = Store { rows: Vec::new() };
        proof {
            assert(s.rows@.map_values(|r: Row| r@) =~= Seq::<RowV>::empty());
        }
        s
    }

    /// Index of the row under the key, if any.
    fn find_idx(&self, pk: &str, sk: &str) -> (r: Option<usize>)
        requires
            self.wf(),
        ensures
            match r {
                Some(i) => i < self.rows@.len() && row_key(self.rows@.map_values(|r: Row| r@)[i as int])
                    == (pk@, sk@) && self@.dom().contains((pk@, sk@)) && self@[(pk@, sk@)]
                    == self.rows@.map_values(|r: Row| r@)[i as int].attrs,
                None => !self@.dom().contains((pk@, sk@)),
            },
    {
        let ghost rv = self.rows@.map_values(|r: Row| r@);
        let mut i: usize = 0;
        while i < self.rows.len()
            invariant
                self.wf(),
                i <= self.rows@.len(),
                rv == self.rows@.map_values(|r: Row| r@),
                forall|j: int| 0 <= j < i ==> row_key(#[trigger] rv[j]) != (pk@, sk@),
            decreases self.rows@.len() - i,
        {
            if str_eq(self.rows[i].pk.as_str(), pk) && str_eq(self.rows[i].sk.as_str(), sk) {
                proof {
                    lemma_map_of_get(rv, i as int);
                }
                return Some(i);
            }
            i += 1;
        }
        proof {
            lemma_map_of_dom(rv, (pk@, sk@));
        }
        None
    }

    /// Point read.
    pub fn get<'a>(&'a self, pk: &str, sk: &str) -> (r: Option<&'a Vec<(String, AttrVal)>>)
        requires
            self.wf(),
        ensures
            match r {
                Some(a) => self@.dom().contains((pk@, sk@)) && self@[(pk@, sk@)] == attrs_view(a@),
                None => !self@.dom().contains((pk@, sk@)),
            },
    {
        match self.find_idx(pk, sk) {
            Some(i) => Some(&self.rows[i].attrs),
            None => None,
        }
    }

    /// Inserts or replaces the row, keeping the store well-formed.
    fn upsert_row(&mut self, row: Row)
        requires
            old(self).wf(),
        ensures
            final(self).wf(),
            final(self)@ == old(self)@.insert((row.pk@, row.sk@), attrs_view(row.attrs@)),
    {
        let ghost rv = self.rows@.map_values(|r: Row| r@);
        let ghost rowv = row@;
        match self.find_idx(row.pk.as_str(), row.sk.as_str()) {
            Some(i) => {
                proof {
                    lemma_map_of_update(rv, i as int, rowv);
                }
                self.rows.set(i, row);
                proof {
                    assert(self.rows@.map_values(|r: Row| r@) =~= rv.update(i as int, rowv));
                    assert(keys_distinct(rv.update(i as int, rowv)));
                }
            },
            None => {
                proof {
                    lemma_map_of_push(rv, rowv);
                    lemma_map_of_dom(rv, row_key(rowv));
                }
                self.rows.push(row);
                proof {
                    assert(self.rows@.map_values(|r: Row| r@) =~= rv.push(rowv));
                    assert(forall|j: int|
                        0 <= j < rv.len() ==> row_key(#[trigger] rv[j]) != row_key(rowv));
                    assert(keys_distinct(rv.push(rowv)));
                }
            },
        }
    }

    /// Removes the row under the key, if present.
    fn delete_row(&mut self, pk: &str, sk: &str)
        requires
            old(self).wf(),
        ensures
            final(self).wf(),
            final(self)@ == old(self)@.remove((pk@, sk@)),
    {
        let ghost rv = self.rows@.map_values(|r: Row| r@);
        match self.find_idx(pk, sk) {
            Some(i) => {
                proof {
                    lemma_map_of_remove(rv, i as int);
                }
                self.rows.remove(i);
                proof {
                    assert(self.rows@.map_values(|r: Row| r@) =~= rv.remove(i as int));
                    assert(keys_distinct(rv.remove(i as int))) by {
                        assert(forall|a: int|
                            0 <= a < rv.len() - 1 ==> #[trigger] rv.remove(i as int)[a] == if a
                                < i {
                                rv[a]
                            } else {
                                rv[a + 1]
                            });
                    }
                }
            },
            None => {
                proof {
                    assert(old(self)@ =~= old(self)@.remove((pk@, sk@)));
                }
            },
        }
    }

    /// Unconditional single-item put.
    /// Range read: every item under the partition key whose sort key
    /// starts with the prefix, each exactly once.
    #[verifier::rlimit(100)]
    pub fn query_prefix(&self, pk: &str, prefix: &str) -> (r: Vec<Row>)
        requires
            self.wf(),
        ensures
            forall|i: int|
                0 <= i < r@.len() ==> {
                    let rv = (#[trigger] r@[i])@;
                    &&& rv.pk == pk@
                    &&& prefix@.is_prefix_of(rv.sk)
                    &&& self@.dom().contains(row_key(rv))
                    &&& self@[row_key(rv)] == rv.attrs
                },
            forall|k: KeyV|
                #[trigger] self@.dom().contains(k) && k.0 == pk@ && prefix@.is_prefix_of(k.1)
                    ==> exists|i: int| 0 <= i < r@.len() && row_key((#[trigger] r@[i])@) == k,
            forall|i: int, j: int|
                0 <= i < j < r@.len() ==> row_key(r@[i]@) != row_key(r@[j]@),
    {
        let ghost rv = self.rows@.map_values(|x: Row| x@);
        let mut out: Vec<Row> = Vec::new();
        let mut i: usize = 0;
        while i < self.rows.len()
            invariant
                self.wf(),
                i <= self.rows@.len(),
                rv == self.rows@.map_values(|x: Row| x@),
                forall|a: int|
                    0 <= a < out@.len() ==> exists|j: int|
                        0 <= j < i && (#[trigger] out@[a])@ == rv[j],
                forall|a: int|
                    0 <= a < out@.len() ==> {
                        let ov = (#[trigger] out@[a])@;
                        &&& ov.pk == pk@
                        &&& prefix@.is_prefix_of(ov.sk)
                        &&& self@.dom().contains(row_key(ov))
                        &&& self@[row_key(ov)] == ov.attrs
                    },
                forall|j: int|
                    0 <= j < i && (#[trigger] rv[j]).pk == pk@ && prefix@.is_prefix_of(rv[j].sk)
                        ==> exists|a: int| 0 <= a < out@.len() && (#[trigger] out@[a])@ == rv[j],
                forall|a: int, b: int|
                    0 <= a < b < out@.len() ==> row_key(out@[a]@) != row_key(out@[b]@),
            decreases self.rows@.len() - i,
        {
            if str_eq(self.rows[i].pk.as_str(), pk)
                && crate::text::str_starts_with(self.rows[i].sk.as_str(), prefix) {
                proof {
                    lemma_map_of_get(rv, i as int);
                    assert forall|a: int| 0 <= a < out@.len() implies row_key((#[trigger] out@[a])@)
                        != row_key(rv[i as int]) by {
                        let j = choose|j: int| 0 <= j < i && (#[trigger] out@[a])@ == rv[j];
                        assert(row_key(rv[j]) != row_key(rv[i as int]));
                    }
                }
                let c = clone_row(&self.rows[i]);
                let ghost prev = out@;
                out.push(c);
                proof {
                    assert(rv[i as int] == self.rows@[i as int]@);
                    assert(out@[prev.len() as int]@ == rv[i as int]);
                    assert(forall|a: int| 0 <= a < prev.len() ==> out@[a] == prev[a]);
                }
            } else {
                proof {
                    assert(rv[i as int] == self.rows@[i as int]@);
                }
            }
            i += 1;
        }
        proof {
            assert forall|k: KeyV|
                #[trigger] self@.dom().contains(k) && k.0 == pk@ && prefix@.is_prefix_of(k.1)
                implies exists|i2: int| 0 <= i2 < out@.len() && row_key((#[trigger] out@[i2])@)
                == k by {
                lemma_map_of_dom(rv, k);
                let j = choose|j: int| 0 <= j < rv.len() && row_key(#[trigger] rv[j]) == k;
                assert(rv[j].pk == k.0 && rv[j].sk == k.1);
                let a = choose|a: int| 0 <= a < out@.len() && (#[trigger] out@[a])@ == rv[j];
                assert(row_key(out@[a]@) == k);
            }
        }
        out
    }

    /// Scan by one string attribute's value: models a query on a
    /// secondary index keyed by that attribute.
    #[verifier::rlimit(100)]
    pub fn scan_attr_eq(&self, name: &str, val: &str) -> (r: Vec<Row>)
        requires
            self.wf(),
        ensures
            forall|i: int|
                0 <= i < r@.len() ==> {
                    let rv = (#[trigger] r@[i])@;
                    &&& attr_s(rv.attrs, name@) == Some(val@)
                    &&& self@.dom().contains(row_key(rv))
                    &&& self@[row_key(rv)] == rv.attrs
                },
            forall|k: KeyV|
                #[trigger] self@.dom().contains(k) && attr_s(self@[k], name@) == Some(val@)
                    ==> exists|i: int| 0 <= i < r@.len() && row_key((#[trigger] r@[i])@) == k,
            forall|i: int, j: int|
                0 <= i < j < r@.len() ==> row_key(r@[i]@) != row_key(r@[j]@),
    {
        let ghost rv = self.rows@.map_values(|x: Row| x@);
        let mut out: Vec<Row> = Vec::new();
        let mut i: usize = 0;
        while i < self.rows.len()
            invariant
                self.wf(),
                i <= self.rows@.len(),
                rv == self.rows@.map_values(|x: Row| x@),
                forall|a: int|
                    0 <= a < out@.len() ==> exists|j: int|
                        0 <= j < i && (#[trigger] out@[a])@ == rv[j],
                forall|a: int|
                    0 <= a < out@.len() ==> {
                        let ov = (#[trigger] out@[a])@;
                        &&& attr_s(ov.attrs, name@) == Some(val@)
                        &&& self@.dom().contains(row_key(ov))
                        &&& self@[row_key(ov)] == ov.attrs
                    },
                forall|j: int|
                    0 <= j < i && attr_s((#[trigger] rv[j]).attrs, name@) == Some(val@)
                        ==> exists|a: int| 0 <= a < out@.len() && (#[trigger] out@[a])@ == rv[j],
                forall|a: int, b: int|
                    0 <= a < b < out@.len() ==> row_key(out@[a]@) != row_key(out@[b]@),
            decreases self.rows@.len() - i,
        {
            let matched = match get_attr(&self.rows[i].attrs, name) {
                Some(AttrVal::S(s)) => str_eq(s.as_str(), val),
                _ => false,
            };
            if matched {
                proof {
                    lemma_map_of_get(rv, i as int);
                    assert forall|a: int| 0 <= a < out@.len() implies row_key((#[trigger] out@[a])@)
                        != row_key(rv[i as int]) by {
                        let j = choose|j: int| 0 <= j < i && (#[trigger] out@[a])@ == rv[j];
                        assert(row_key(rv[j]) != row_key(rv[i as int]));
                    }
                }
                let c = clone_row(&self.rows[i]);
                let ghost prev = out@;
                out.push(c);
                proof {
                    assert(rv[i as int] == self.rows@[i as int]@);
                    assert(out@[prev.len() as int]@ == rv[i as int]);
                    assert(forall|a: int| 0 <= a < prev.len() ==> out@[a] == prev[a]);
                }
            } else {
                proof {
                    assert(rv[i as int] == self.rows@[i as int]@);
                    assert(attr_s(rv[i as int].attrs, name@) != Some(val@));
                }
            }
            i += 1;
        }
        proof {
            assert forall|k: KeyV|
                #[trigger] self@.dom().contains(k) && attr_s(self@[k], name@) == Some(val@)
                implies exists|i2: int| 0 <= i2 < out@.len() && row_key((#[trigger] out@[i2])@)
                == k by {
                lemma_map_of_dom(rv, k);
                let j = choose|j: int| 0 <= j < rv.len() && row_key(#[trigger] rv[j]) == k;
                lemma_map_of_get(rv, j);
                assert(attr_s(rv[j].attrs, name@) == Some(val@));
                let a = choose|a: int| 0 <= a < out@.len() && (#[trigger] out@[a])@ == rv[j];
                assert(row_key(out@[a]@) == k);
            }
        }
        out
    }

    pub fn put(&mut self, pk: String, sk: String, attrs: Vec<(String, AttrVal)>)
        requires
            old(self).wf(),
        ensures
            final(self).wf(),
            final(self)@ == old(self)@.insert((pk@, sk@), attrs_view(attrs@)),
    {
        self.upsert_row(Row { pk, sk, attrs });
    }

    /// Whether the precondition of one operation holds in the current
    /// state.
    fn check_cond(&self, op: &TxOp) -> (r: bool)
        requires
            self.wf(),
        ensures
            r == cond_holds(self@, op_key(op@), op_cond(op@)),
    {
        let (pk, sk, cond) = match op {
            TxOp::Put { pk, sk, cond, .. } => (pk, sk, cond),
            TxOp::Update { pk, sk, cond, .. } => (pk, sk, cond),
            TxOp::Delete { .. } => {
                return true;
            },
        };
        match cond {
            TxCond::Always => true,
            TxCond::Absent => {
                match self.get(pk.as_str(), sk.as_str()) {
                    Some(_) => false,
                    None => true,
                }
            },
            TxCond::StatusNe(v) => {
                match self.get(pk.as_str(), sk.as_str()) {
                    None => false,
                    Some(attrs) => {
                        match get_attr(attrs, "status") {
                            Some(AttrVal::S(s)) => !str_eq(s.as_str(), v.as_str()),
                            _ => false,
                        }
                    },
                }
            },
        }
    }

    /// Applies one operation, unconditionally.
    fn apply_one(&mut self, op: &TxOp)
        requires
            old(self).wf(),
        ensures
            final(self).wf(),
            final(self)@ == apply_op(old(self)@, op@),
    {
        match op {
            TxOp::Put { pk, sk, attrs, .. } => {
                self.upsert_row(Row { pk: pk.clone(), sk: sk.clone(), attrs: clone_attrs(attrs) });
            },
            TxOp::Update { pk, sk, sets, .. } => {
                let base: Vec<(String, AttrVal)> = match self.get(pk.as_str(), sk.as_str()) {
                    Some(a) => clone_attrs(a),
                    None => Vec::new(),
                };
                proof {
                    if !self@.dom().contains((pk@, sk@)) {
                        assert(attrs_view(Seq::<(String, AttrVal)>::empty()) =~= Seq::<(
                            Seq<char>,
                            AttrV,
                        )>::empty());
                    }
                }
                let merged = merge_attrs_x(base, sets);
                self.upsert_row(Row { pk: pk.clone(), sk: sk.clone(), attrs: merged });
            },
            TxOp::Delete { pk, sk } => {
                self.delete_row(pk.as_str(), sk.as_str());
            },
        }
    }

    /// The atomic multi-item commit: every precondition is evaluated
    /// against the state before the commit; if one fails, nothing is
    /// written and the index of the first failing operation is
    /// reported; otherwise all operations apply, in order.
    pub fn atomic_commit(&mut self, ops: &Vec<TxOp>) -> (r: CommitResult)
        requires
            old(self).wf(),
        ensures
            final(self).wf(),
            match r {
                CommitResult::Committed => conds_hold(old(self)@, ops_view(ops@)) && final(self)@
                    == apply_ops(old(self)@, ops_view(ops@)),
                CommitResult::Aborted(i) => i < ops@.len() && !cond_holds(
                    old(self)@,
                    op_key(ops_view(ops@)[i as int]),
                    op_cond(ops_view(ops@)[i as int]),
                ) && (forall|j: int|
                    0 <= j < i ==> cond_holds(
                        old(self)@,
                        op_key(#[trigger] ops_view(ops@)[j]),
                        op_cond(ops_view(ops@)[j]),
                    )) && final(self)@ == old(self)@,
            },
    {
        let ghost opsv = ops_view(ops@);
        let mut i: usize = 0;
        while i < ops.len()
            invariant
                self.wf(),
                self == old(self),
                i <= ops@.len(),
                opsv == ops_view(ops@),
                forall|j: int|
                    0 <= j < i ==> cond_holds(
                        self@,
                        op_key(#[trigger] opsv[j]),
                        op_cond(opsv[j]),
                    ),
            decreases ops@.len() - i,
        {
            if !self.check_cond(&ops[i]) {
                return CommitResult::Aborted(i);
            }
            i += 1;
        }
        let ghost m0 = self@;
        proof {
            assert(opsv.skip(0) =~= opsv);
        }
        let mut j: usize = 0;
        while j < ops.len()
            invariant
                self.wf(),
                j <= ops@.len(),
                opsv == ops_view(ops@),
                apply_ops(m0, opsv) == apply_ops(self@, opsv.skip(j as int)),
            decreases ops@.len() - j,
        {
            proof {
                assert(opsv.skip(j as int).drop_first() =~= opsv.skip(j + 1));
                assert(opsv.skip(j as int)[0] == opsv[j as int]);
            }
            self.apply_one(&ops[j]);
            j += 1;
        }
        proof {
            assert(opsv.skip(opsv.len() as int).len() == 0);
        }
        CommitResult::Committed
    }
}

/// The views of a list of operations.
pub open spec fn ops_view(ops: Seq<TxOp>) -> Seq<TxOpV> {
    ops.map_values(|o: TxOp| o@)
}

// ---------------------------------------------------------------------
// Attribute merging (executable, proved against the spec)
// ---------------------------------------------------------------------

proof fn lemma_set_attr_update(s: AttrsV, n: Seq<char>, v: AttrV, i: int)
    requires
        0 <= i < s.len(),
        s[i].0 == n,
        forall|j: int| 0 <= j < i ==> (#[trigger] s[j]).0 != n,
    ensures
        set_attr(s, n, v) == s.update(i, (n, v)),
    decreases i,
{
    if i == 0 {
        assert(s.update(0, (n, v)) =~= s.update(0, (n, v)));
    } else {
        assert(s[0].0 != n);
        assert(s.drop_first()[i - 1] == s[i]);
        assert(forall|j: int| 0 <= j < i - 1 ==> (#[trigger] s.drop_first()[j]).0 != n);
        lemma_set_attr_update(s.drop_first(), n, v, i - 1);
        assert(seq![s[0]] + s.drop_first().update(i - 1, (n, v)) =~= s.update(i, (n, v)));
    }
}

proof fn lemma_set_attr_push(s: AttrsV, n: Seq<char>, v: AttrV)
    requires
        forall|j: int| 0 <= j < s.len() ==> (#[trigger] s[j]).0 != n,
    ensures
        set_attr(s, n, v) == s.push((n, v)),
    decreases s.len(),
{
    if s.len() == 0 {
        assert(seq![(n, v)] =~= s.push((n, v)));
    } else {
        assert(forall|j: int|
            0 <= j < s.drop_first().len() ==> (#[trigger] s.drop_first()[j]).0 != n);
        lemma_set_attr_push(s.drop_first(), n, v);
        assert(seq![s[0]] + s.drop_first().push((n, v)) =~= s.push((n, v)));
    }
}

/// Index of the first attribute with the given name.
fn find_attr_idx(attrs: &Vec<(String, AttrVal)>, name: &str) -> (r: Option<usize>)
    ensures
        match r {
            Some(i) => i < attrs@.len() && attrs_view(attrs@)[i as int].0 == name@ && forall|
                j: int,
            | 0 <= j < i ==> (#[trigger] attrs_view(attrs@)[j]).0 != name@,
            None => forall|j: int|
                0 <= j < attrs@.len() ==> (#[trigger] attrs_view(attrs@)[j]).0 != name@,
        },
{
    let mut i: usize = 0;
    while i < attrs.len()
        invariant
            i <= attrs@.len(),
            forall|j: int| 0 <= j < i ==> (#[trigger] attrs_view(attrs@)[j]).0 != name@,
        decreases attrs@.len() - i,
    {
        if str_eq(attrs[i].0.as_str(), name) {
            return Some(i);
        }
        i += 1;
    }
    None
}

/// Replaces the first attribute with the given name, or appends one.
fn set_attr_x(attrs: Vec<(String, AttrVal)>, name: String, val: AttrVal) -> (r: Vec<
    (String, AttrVal),
>)
    ensures
        attrs_view(r@) == set_attr(attrs_view(attrs@), name@, val@),
{
    let ghost av = attrs_view(attrs@);
    let ghost gn = name@;
    let ghost gv = val@;
    let idx = find_attr_idx(&attrs, name.as_str());
    let mut attrs = attrs;
    match idx {
        Some(i) => {
            proof {
                lemma_set_attr_update(av, gn, gv, i as int);
            }
            attrs.set(i, (name, val));
            proof {
                assert(attrs_view(attrs@) =~= av.update(i as int, (gn, gv)));
            }
            attrs
        },
        None => {
            proof {
                lemma_set_attr_push(av, gn, gv);
            }
            attrs.push((name, val));
            proof {
                assert(attrs_view(attrs@) =~= av.push((gn, gv)));
            }
            attrs
        },
    }
}

/// Applies all the `sets` to `attrs`, in order.
fn merge_attrs_x(attrs: Vec<(String, AttrVal)>, sets: &Vec<(String, AttrVal)>) -> (r: Vec<
    (String, AttrVal),
>)
    ensures
        attrs_view(r@) == merge_attrs(attrs_view(attrs@), attrs_view(sets@)),
{
    let ghost a0 = attrs_view(attrs@);
    let ghost sv = attrs_view(sets@);
    proof {
        assert(sv.skip(0) =~= sv);
    }
    let mut attrs = attrs;
    let mut k: usize = 0;
    while k < sets.len()
        invariant
            k <= sets@.len(),
            sv == attrs_view(sets@),
            merge_attrs(a0, sv) == merge_attrs(attrs_view(attrs@), sv.skip(k as int)),
        decreases sets@.len() - k,
    {
        proof {
            assert(sv.skip(k as int).drop_first() =~= sv.skip(k + 1));
            assert(sv.skip(k as int)[0] == sv[k as int]);
        }
        let name = sets[k].0.clone();
        let val = clone_attr(&sets[k].1);
        attrs = set_attr_x(attrs, name, val);
        k += 1;
    }
    proof {
        assert(sv.skip(sv.len() as int).len() == 0);
    }
    attrs
}

} // verus!
