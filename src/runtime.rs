//! What a generated builder does, run over field values held as text: each
//! field's slot, the methods that fill it, duplication, and finalizing into
//! the record's field values. A `def` or fixed expression stands for the
//! value it denotes, held as its text. Each operation does what the emitted
//! code does: `new` what `builder()` does, `set` a field's setter (`f` or
//! `set_f`), `push` and `insert` an accumulator's accessor, `duplicate` the
//! `Clone` impl, and `build` the finalizer, field by field in declaration
//! order.
use vstd::prelude::*;
use crate::plan::{FieldPlan, Mutation, Resolution};
use crate::text::str_eq;

verus! {

/// The builder's storage for one field.
#[derive(Debug)]
pub enum Slot {
    /// A presence-wrapped or optional field: its value, if one was set.
    Single(Option<String>),
    /// A sequence accumulator's elements.
    Items(Vec<String>),
    /// A mapping accumulator's entries, keys distinct.
    Entries(Vec<(String, String)>),
    /// A fixed field, which the builder does not store.
    Unused,
}

/// A slot's contents.
pub enum SlotView {
    Single(Option<Seq<char>>),
    Items(Seq<Seq<char>>),
    Entries(Map<Seq<char>, Seq<char>>),
    Unused,
}

/// One field of a finalized record.
#[derive(Debug, PartialEq)]
pub enum Value {
    Plain(String),
    Optional(Option<String>),
    Items(Vec<String>),
    Entries(Vec<(String, String)>),
}

/// A record field's value.
pub enum ValueView {
    Plain(Seq<char>),
    Optional(Option<Seq<char>>),
    Items(Seq<Seq<char>>),
    Entries(Map<Seq<char>, Seq<char>>),
}

pub open spec fn opt_view(o: Option<String>) -> Option<Seq<char>> {
    match o {
        Some(s) => Some(s@),
        None => None,
    }
}

pub open spec fn strs_view(v: Seq<String>) -> Seq<Seq<char>> {
    v.map_values(|s: String| s@)
}

/// The mapping that a list of entries holds; a later entry for a key
/// replaces an earlier one.
pub open spec fn entries_map(s: Seq<(String, String)>) -> Map<Seq<char>, Seq<char>>
    decreases s.len(),
{
    if s.len() == 0 {
        Map::empty()
    } else {
        entries_map(s.drop_last()).insert(s.last().0@, s.last().1@)
    }
}

pub open spec fn keys_distinct(s: Seq<(String, String)>) -> bool {
    forall|i: int, j: int| 0 <= i < j < s.len() ==> (#[trigger] s[i]).0@ != (#[trigger] s[j]).0@
}

impl View for Slot {
    type V = SlotView;

    open spec fn view(&self) -> SlotView {
        match self {
            Slot::Single(o) => SlotView::Single(opt_view(*o)),
            Slot::Items(v) => SlotView::Items(strs_view(v@)),
            Slot::Entries(e) => SlotView::Entries(entries_map(e@)),
            Slot::Unused => SlotView::Unused,
        }
    }
}

impl View for Value {
    type V = ValueView;

    open spec fn view(&self) -> ValueView {
        match self {
            Value::Plain(s) => ValueView::Plain(s@),
            Value::Optional(o) => ValueView::Optional(opt_view(*o)),
            Value::Items(v) => ValueView::Items(strs_view(v@)),
            Value::Entries(e) => ValueView::Entries(entries_map(e@)),
        }
    }
}

/// The slot kind that a field's plan calls for.
pub open spec fn slot_fits(p: FieldPlan, s: SlotView) -> bool {
    match p.mutation {
        Mutation::Setter { .. } => s is Single,
        Mutation::Append { .. } => s is Items,
        Mutation::Insert { .. } => s is Entries,
        Mutation::Fixed => s is Unused,
    }
}

/// Slots that match the plans one for one.
pub open spec fn fits(plans: Seq<FieldPlan>, slots: Seq<SlotView>) -> bool {
    &&& plans.len() == slots.len()
    &&& forall|i: int| 0 <= i < plans.len() ==> (#[trigger] plans[i]).wf()
    &&& forall|i: int| 0 <= i < plans.len() ==> slot_fits(#[trigger] plans[i], slots[i])
}

/// A fresh builder's slot: nothing set, accumulators empty.
pub open spec fn empty_slot(p: FieldPlan) -> SlotView {
    match p.mutation {
        Mutation::Setter { .. } => SlotView::Single(None),
        Mutation::Append { .. } => SlotView::Items(Seq::empty()),
        Mutation::Insert { .. } => SlotView::Entries(Map::empty()),
        Mutation::Fixed => SlotView::Unused,
    }
}

pub open spec fn empty_slots(plans: Seq<FieldPlan>) -> Seq<SlotView> {
    Seq::new(plans.len(), |i: int| empty_slot(plans[i]))
}

/// The slots after setting field `i` to `v`.
pub open spec fn after_set(slots: Seq<SlotView>, i: int, v: Seq<char>) -> Seq<SlotView> {
    slots.update(i, SlotView::Single(Some(v)))
}

/// The slots after appending `v` to the sequence of field `i`.
pub open spec fn after_push(slots: Seq<SlotView>, i: int, v: Seq<char>) -> Seq<SlotView> {
    slots.update(i, SlotView::Items(slots[i]->Items_0.push(v)))
}

/// The slots after inserting `k` mapped to `v` into the mapping of field `i`.
pub open spec fn after_insert(slots: Seq<SlotView>, i: int, k: Seq<char>, v: Seq<char>) -> Seq<
    SlotView,
> {
    slots.update(i, SlotView::Entries(slots[i]->Entries_0.insert(k, v)))
}

/// A field's value at finalizing, or none where a required field is unset.
pub open spec fn resolve_one(p: FieldPlan, s: SlotView) -> Option<ValueView> {
    match p.resolution {
        Resolution::FixedLiteral(e) => Some(ValueView::Plain(e@)),
        Resolution::TakeAsIs => match s {
            SlotView::Single(o) => Some(ValueView::Optional(o)),
            SlotView::Items(v) => Some(ValueView::Items(v)),
            SlotView::Entries(m) => Some(ValueView::Entries(m)),
            SlotView::Unused => None,
        },
        Resolution::DefaultOnAbsent(e) => match s {
            SlotView::Single(Some(v)) => Some(ValueView::Plain(v)),
            _ => Some(ValueView::Plain(e@)),
        },
        Resolution::ErrorOnAbsent => match s {
            SlotView::Single(Some(v)) => Some(ValueView::Plain(v)),
            _ => None,
        },
    }
}

/// Finalizing: the record's field values in declaration order, or the name
/// of the first field, in declaration order, that is required and unset.
pub open spec fn finalize(plans: Seq<FieldPlan>, slots: Seq<SlotView>) -> Result<
    Seq<ValueView>,
    Seq<char>,
>
    decreases plans.len(),
{
    if plans.len() == 0 || slots.len() == 0 {
        Ok(Seq::empty())
    } else {
        match resolve_one(plans[0], slots[0]) {
            None => Err(plans[0].name@),
            Some(v) => prepend(seq![v], finalize(plans.drop_first(), slots.drop_first())),
        }
    }
}

/// `vs` before the values of `r`, or the error of `r`.
pub open spec fn prepend(vs: Seq<ValueView>, r: Result<Seq<ValueView>, Seq<char>>) -> Result<
    Seq<ValueView>,
    Seq<char>,
> {
    match r {
        Ok(ws) => Ok(vs + ws),
        Err(e) => Err(e),
    }
}

/// A builder's state, as the generated code holds it.
#[derive(Debug)]
pub struct DynBuilder {
    slots: Vec<Slot>,
}

impl View for DynBuilder {
    type V = Seq<SlotView>;

    closed spec fn view(&self) -> Seq<SlotView> {
        self.slots@.map_values(|s: Slot| s@)
    }
}

/// An entries slot's keys are distinct.
pub open spec fn slot_ok(s: Slot) -> bool {
    s matches Slot::Entries(e) ==> keys_distinct(e@)
}

impl DynBuilder {
    pub closed spec fn wf(&self) -> bool {
        forall|i: int| 0 <= i < self.slots@.len() ==> slot_ok(#[trigger] self.slots@[i])
    }
}

fn copy_strs(v: &Vec<String>) -> (r: Vec<String>)
    ensures
        r@ == v@,
{
    let mut r: Vec<String> = Vec::new();
    let mut i: usize = 0;
    while i < v.len()
        invariant
            i <= v@.len(),
            r@ == v@.subrange(0, i as int),
        decreases v@.len() - i,
    {
        r.push(v[i].clone());
        assert(r@ =~= v@.subrange(0, i + 1));
        i = i + 1;
    }
    assert(v@.subrange(0, v@.len() as int) =~= v@);
    r
}

fn copy_entries(v: &Vec<(String, String)>) -> (r: Vec<(String, String)>)
    ensures
        r@ == v@,
{
    let mut r: Vec<(String, String)> = Vec::new();
    let mut i: usize = 0;
    while i < v.len()
        invariant
            i <= v@.len(),
            r@ == v@.subrange(0, i as int),
        decreases v@.len() - i,
    {
        let e = (v[i].0.clone(), v[i].1.clone());
        r.push(e);
        assert(r@ =~= v@.subrange(0, i + 1));
        i = i + 1;
    }
    assert(v@.subrange(0, v@.len() as int) =~= v@);
    r
}

fn copy_opt(o: &Option<String>) -> (r: Option<String>)
    ensures
        r == *o,
{
    match o {
        Some(s) => Some(s.clone()),
        None => None,
    }
}

fn copy_slot(s: &Slot) -> (r: Slot)
    ensures
        r@ == s@,
        slot_ok(r) == slot_ok(*s),
{
    match s {
        Slot::Single(o) => Slot::Single(copy_opt(o)),
        Slot::Items(v) => Slot::Items(copy_strs(v)),
        Slot::Entries(e) => Slot::Entries(copy_entries(e)),
        Slot::Unused => Slot::Unused,
    }
}

} // verus!

verus! {

/// Replacing the entry of an existing key changes that key's value alone.
proof fn lemma_entries_replace(s: Seq<(String, String)>, j: int, e: (String, String))
    requires
        0 <= j < s.len(),
        keys_distinct(s),
        s[j].0@ == e.0@,
    ensures
        entries_map(s.update(j, e)) == entries_map(s).insert(e.0@, e.1@),
        keys_distinct(s.update(j, e)),
    decreases s.len(),
{
    let t = s.update(j, e);
    assert(keys_distinct(t)) by {
        assert forall|a: int, b: int| 0 <= a < b < t.len() implies (#[trigger] t[a]).0@ != (
        #[trigger] t[b]).0@ by {
            assert(s[a].0@ != s[b].0@);
        }
    }
    if j == s.len() - 1 {
        assert(t.drop_last() =~= s.drop_last());
        assert(entries_map(t) =~= entries_map(s).insert(e.0@, e.1@));
    } else {
        assert(t.drop_last() =~= s.drop_last().update(j, e));
        assert(keys_distinct(s.drop_last()));
        lemma_entries_replace(s.drop_last(), j, e);
        assert(s.last().0@ != e.0@) by {
            assert(s[j].0@ != s[s.len() - 1].0@);
        }
        assert(entries_map(t) =~= entries_map(s).insert(e.0@, e.1@));
    }
}

/// Where no entry has the key, adding one keeps the keys distinct.
proof fn lemma_entries_push(s: Seq<(String, String)>, e: (String, String))
    requires
        keys_distinct(s),
        forall|j: int| 0 <= j < s.len() ==> (#[trigger] s[j]).0@ != e.0@,
    ensures
        entries_map(s.push(e)) == entries_map(s).insert(e.0@, e.1@),
        keys_distinct(s.push(e)),
{
    assert(s.push(e).drop_last() =~= s);
    let t = s.push(e);
    assert forall|a: int, b: int| 0 <= a < b < t.len() implies (#[trigger] t[a]).0@ != (
    #[trigger] t[b]).0@ by {
        if b == s.len() {
            assert(t[a] == s[a]);
        } else {
            assert(t[a] == s[a] && t[b] == s[b]);
        }
    }
}

/// Sets `k` to `v` in a list of entries with distinct keys.
fn put_entry(e: &mut Vec<(String, String)>, k: String, v: String)
    requires
        keys_distinct(old(e)@),
    ensures
        keys_distinct(final(e)@),
        entries_map(final(e)@) == entries_map(old(e)@).insert(k@, v@),
{
    let mut j: usize = 0;
    while j < e.len()
        invariant
            j <= e@.len(),
            e@ == old(e)@,
            keys_distinct(e@),
            forall|a: int| 0 <= a < j ==> (#[trigger] e@[a]).0@ != k@,
        decreases e@.len() - j,
    {
        if str_eq(&e[j].0, k.as_str()) {
            proof { lemma_entries_replace(e@, j as int, (k, v)); }
            e[j] = (k, v);
            return;
        }
        j = j + 1;
    }
    proof { lemma_entries_push(e@, (k, v)); }
    e.push((k, v));
}

impl DynBuilder {
    /// A fresh builder: nothing set, every accumulator empty.
    pub fn new(plans: &Vec<FieldPlan>) -> (r: DynBuilder)
        ensures
            r.wf(),
            r@ == empty_slots(plans@),
            (forall|i: int| 0 <= i < plans@.len() ==> (#[trigger] plans@[i]).wf()) ==> fits(
                plans@,
                r@,
            ),
    {
        let mut slots: Vec<Slot> = Vec::new();
        let mut i: usize = 0;
        while i < plans.len()
            invariant
                i <= plans@.len(),
                slots@.len() == i,
                forall|a: int| 0 <= a < i ==> (#[trigger] slots@[a])@ == empty_slot(plans@[a]),
                forall|a: int| 0 <= a < i ==> slot_ok(#[trigger] slots@[a]),
            decreases plans@.len() - i,
        {
            let s = match &plans[i].mutation {
                Mutation::Setter { .. } => Slot::Single(None),
                Mutation::Append { .. } => Slot::Items(Vec::new()),
                Mutation::Insert { .. } => Slot::Entries(Vec::new()),
                Mutation::Fixed => Slot::Unused,
            };
            proof {
                if s is Items {
                    assert(strs_view(s->Items_0@) =~= Seq::empty());
                }
            }
            slots.push(s);
            i = i + 1;
        }
        let r = DynBuilder { slots };
        assert(r@ =~= empty_slots(plans@));
        r
    }

    /// Sets field `i`, as the field's setter does.
    pub fn set(&mut self, i: usize, v: String)
        requires
            old(self).wf(),
            i < old(self)@.len(),
            old(self)@[i as int] is Single,
        ensures
            final(self).wf(),
            final(self)@ == after_set(old(self)@, i as int, v@),
    {
        self.slots[i] = Slot::Single(Some(v));
        assert(self@ =~= after_set(old(self)@, i as int, v@));
    }

    /// Appends to the sequence of field `i`, as its accessor does.
    pub fn push(&mut self, i: usize, v: String)
        requires
            old(self).wf(),
            i < old(self)@.len(),
            old(self)@[i as int] is Items,
        ensures
            final(self).wf(),
            final(self)@ == after_push(old(self)@, i as int, v@),
    {
        let ghost o = self@;
        let s = self.slots.remove(i);
        let n = match s {
            Slot::Items(mut items) => {
                let ghost before = items@;
                items.push(v);
                assert(strs_view(items@) =~= strs_view(before).push(v@));
                Slot::Items(items)
            },
            other => other,
        };
        self.slots.insert(i, n);
        assert(self@ =~= after_push(o, i as int, v@));
    }

    /// Inserts into the mapping of field `i`, as its accessor does: the key's
    /// value is replaced where it already has one.
    pub fn insert(&mut self, i: usize, k: String, v: String)
        requires
            old(self).wf(),
            i < old(self)@.len(),
            old(self)@[i as int] is Entries,
        ensures
            final(self).wf(),
            final(self)@ == after_insert(old(self)@, i as int, k@, v@),
    {
        let ghost o = self@;
        let s = self.slots.remove(i);
        assert(slot_ok(s));
        let n = match s {
            Slot::Entries(mut e) => {
                put_entry(&mut e, k, v);
                Slot::Entries(e)
            },
            other => other,
        };
        self.slots.insert(i, n);
        assert(self@ =~= after_insert(o, i as int, k@, v@));
    }

    /// An independent copy of the builder's state.
    pub fn duplicate(&self) -> (r: DynBuilder)
        requires
            self.wf(),
        ensures
            r.wf(),
            r@ == self@,
    {
        let mut slots: Vec<Slot> = Vec::new();
        let mut i: usize = 0;
        while i < self.slots.len()
            invariant
                self.wf(),
                i <= self.slots@.len(),
                slots@.len() == i,
                forall|a: int| 0 <= a < i ==> (#[trigger] slots@[a])@ == self.slots@[a]@,
                forall|a: int| 0 <= a < i ==> slot_ok(#[trigger] slots@[a]),
            decreases self.slots@.len() - i,
        {
            let s = copy_slot(&self.slots[i]);
            assert(slot_ok(self.slots@[i as int]));
            slots.push(s);
            i = i + 1;
        }
        let r = DynBuilder { slots };
        assert(r@ =~= self@);
        r
    }
}

} // verus!

verus! {

pub open spec fn values_view(vs: Seq<Value>) -> Seq<ValueView> {
    vs.map_values(|v: Value| v@)
}

/// A field's value at finalizing, or none where a required field is unset.
fn resolve_slot(p: &FieldPlan, s: &Slot) -> (r: Option<Value>)
    requires
        p.wf(),
        slot_fits(*p, s@),
    ensures
        match r {
            Some(v) => resolve_one(*p, s@) == Some(v@),
            None => resolve_one(*p, s@) is None,
        },
{
    match &p.resolution {
        Resolution::FixedLiteral(e) => Some(Value::Plain(e.clone())),
        Resolution::TakeAsIs => match s {
            Slot::Single(o) => Some(Value::Optional(copy_opt(o))),
            Slot::Items(v) => Some(Value::Items(copy_strs(v))),
            Slot::Entries(e) => Some(Value::Entries(copy_entries(e))),
            Slot::Unused => None,
        },
        Resolution::DefaultOnAbsent(e) => match s {
            Slot::Single(Some(v)) => Some(Value::Plain(v.clone())),
            _ => Some(Value::Plain(e.clone())),
        },
        Resolution::ErrorOnAbsent => match s {
            Slot::Single(Some(v)) => Some(Value::Plain(v.clone())),
            _ => None,
        },
    }
}

impl DynBuilder {
    /// Finalizes: the record's field values in declaration order, or the
    /// name of the first required field, in declaration order, left unset.
    pub fn build(&self, plans: &Vec<FieldPlan>) -> (r: Result<Vec<Value>, String>)
        requires
            fits(plans@, self@),
        ensures
            match r {
                Ok(vs) => finalize(plans@, self@) == Ok::<Seq<ValueView>, Seq<char>>(
                    values_view(vs@),
                ),
                Err(n) => finalize(plans@, self@) == Err::<Seq<ValueView>, Seq<char>>(n@),
            },
    {
        let n = plans.len();
        let mut out: Vec<Value> = Vec::new();
        let mut i: usize = 0;
        assert(plans@.subrange(0, n as int) =~= plans@);
        assert(self@.subrange(0, n as int) =~= self@);
        assert(values_view(out@) =~= Seq::empty());
        while i < n
            invariant
                n == plans@.len(),
                fits(plans@, self@),
                i <= n,
                finalize(plans@, self@) == prepend(
                    values_view(out@),
                    finalize(plans@.subrange(i as int, n as int), self@.subrange(i as int, n as int)),
                ),
            decreases n - i,
        {
            let ghost ps = plans@.subrange(i as int, n as int);
            let ghost ss = self@.subrange(i as int, n as int);
            let ghost rest = finalize(plans@.subrange(i + 1, n as int), self@.subrange(i + 1, n as int));
            assert(ps.drop_first() =~= plans@.subrange(i + 1, n as int));
            assert(ss.drop_first() =~= self@.subrange(i + 1, n as int));
            assert(ps[0] == plans@[i as int] && ss[0] == self@[i as int]);
            assert(self@[i as int] == self.slots@[i as int]@);
            assert(plans@[i as int].wf() && slot_fits(plans@[i as int], self@[i as int]));
            match resolve_slot(&plans[i], &self.slots[i]) {
                None => {
                    return Err(plans[i].name.clone());
                },
                Some(v) => {
                    let ghost before = values_view(out@);
                    out.push(v);
                    assert(values_view(out@) =~= before + seq![v@]);
                    proof {
                        if rest is Ok {
                            let ws = rest->Ok_0;
                            assert(before + (seq![v@] + ws) =~= values_view(out@) + ws);
                        }
                    }
                },
            }
            i = i + 1;
        }
        assert(values_view(out@) + Seq::<ValueView>::empty() =~= values_view(out@));
        Ok(out)
    }
}

} // verus!
