//! Laws of a generated builder's behaviour, proved over the model in
//! `runtime`: first over field plans, then, under the `law_` names, over
//! a declaration's annotations and the plan that generation accepts for it.
use vstd::prelude::*;
use crate::model::{DeriveInput, Field};
use crate::plan::{
    accepted, is_disabled, is_each, is_optional, is_required, map_accessor, named_fields, plan_of,
    struct_plan_of, vec_accessor, FieldPlan, Mutation, StructPlan,
};
use crate::types::option_inner;
use crate::runtime::{
    after_insert, after_push, after_set, empty_slot, empty_slots, finalize, fits, resolve_one,
    slot_fits,
    SlotView, ValueView,
};

verus! {

/// Finalizing succeeds exactly where every field resolves, and then yields
/// each field's resolved value; otherwise it names the first field, in
/// declaration order, that does not resolve.
pub proof fn lemma_finalize(plans: Seq<FieldPlan>, slots: Seq<SlotView>)
    requires
        plans.len() == slots.len(),
    ensures
        finalize(plans, slots) is Ok <==> forall|i: int|
            0 <= i < plans.len() ==> resolve_one(plans[i], slots[i]) is Some,
        finalize(plans, slots) matches Ok(vs) ==> vs.len() == plans.len() && forall|i: int|
            0 <= i < plans.len() ==> resolve_one(plans[i], slots[i]) == Some(vs[i]),
        finalize(plans, slots) matches Err(n) ==> exists|i: int|
            0 <= i < plans.len() && resolve_one(plans[i], slots[i]) is None && n == plans[i].name@
                && forall|j: int| 0 <= j < i ==> resolve_one(plans[j], slots[j]) is Some,
    decreases plans.len(),
{
    if plans.len() > 0 {
        let (ps, ss) = (plans.drop_first(), slots.drop_first());
        lemma_finalize(ps, ss);
        assert forall|i: int| 0 < i < plans.len() implies plans[i] == ps[i - 1] && slots[i] == ss[i
            - 1] by {}
        if resolve_one(plans[0], slots[0]) is Some {
            let v = resolve_one(plans[0], slots[0])->0;
            if finalize(ps, ss) is Ok {
                let ws = finalize(ps, ss)->Ok_0;
                let vs = seq![v] + ws;
                assert forall|i: int| 0 <= i < plans.len() implies resolve_one(plans[i], slots[i])
                    == Some(vs[i]) by {
                    if i > 0 {
                        assert(vs[i] == ws[i - 1]);
                    }
                }
            } else {
                let n = finalize(ps, ss)->Err_0;
                let k = choose|k: int|
                    0 <= k < ps.len() && resolve_one(ps[k], ss[k]) is None && n == ps[k].name@
                        && forall|j: int| 0 <= j < k ==> resolve_one(ps[j], ss[j]) is Some;
                assert(resolve_one(plans[k + 1], slots[k + 1]) is None);
                assert forall|j: int| 0 <= j < k + 1 implies resolve_one(plans[j], slots[j]) is Some by {
                    if j > 0 {
                        assert(resolve_one(ps[j - 1], ss[j - 1]) is Some);
                    }
                }
            }
        }
    }
}

/// With only plain required fields, finalizing fails exactly where some
/// field was never set, and the error names the first such field in
/// declaration order.
pub proof fn lemma_plain_plans(plans: Seq<FieldPlan>, slots: Seq<SlotView>)
    requires
        fits(plans, slots),
        forall|i: int| 0 <= i < plans.len() ==> (#[trigger] plans[i]).resolution is ErrorOnAbsent,
    ensures
        finalize(plans, slots) is Err <==> exists|i: int|
            0 <= i < plans.len() && slots[i] == SlotView::Single(None),
        finalize(plans, slots) matches Err(n) ==> exists|i: int|
            0 <= i < plans.len() && slots[i] == SlotView::Single(None) && n == plans[i].name@
                && forall|j: int| 0 <= j < i ==> slots[j] != SlotView::Single(None),
{
    lemma_finalize(plans, slots);
    assert forall|i: int| 0 <= i < plans.len() implies (resolve_one(plans[i], slots[i]) is None
        <==> slots[i] == SlotView::Single(None)) by {
        assert(plans[i].wf() && slot_fits(plans[i], slots[i]));
    }
}

/// An optional field never makes finalizing fail, and resolves to what was
/// stored: absent where it was never set, the supplied value `v` once set.
pub proof fn lemma_optional_plan(plans: Seq<FieldPlan>, slots: Seq<SlotView>, i: int, v: Seq<char>)
    requires
        fits(plans, slots),
        0 <= i < plans.len(),
        plans[i].mutation is Setter,
        plans[i].resolution is TakeAsIs,
    ensures
        finalize(plans, slots) matches Ok(vs) ==> vs[i] == ValueView::Optional(slots[i]->Single_0),
        finalize(plans, slots) matches Err(n) ==> exists|j: int|
            0 <= j < plans.len() && j != i && resolve_one(plans[j], slots[j]) is None && n
                == plans[j].name@,
        finalize(plans, after_set(slots, i, v)) is Ok <==> finalize(plans, slots) is Ok,
        finalize(plans, after_set(slots, i, v)) matches Ok(vs) ==> vs[i] == ValueView::Optional(
            Some(v),
        ),
{
    lemma_finalize(plans, slots);
    assert(slot_fits(plans[i], slots[i]));
    let set = after_set(slots, i, v);
    lemma_finalize(plans, set);
    assert forall|j: int| 0 <= j < plans.len() implies (resolve_one(plans[j], set[j]) is Some
        <==> resolve_one(plans[j], slots[j]) is Some) by {
        if j == i {
            assert(set[j] == SlotView::Single(Some(v)));
        }
    }
}

/// The slots after appending each of `values` in turn to field `i`.
pub open spec fn push_all(slots: Seq<SlotView>, i: int, values: Seq<Seq<char>>) -> Seq<SlotView>
    decreases values.len(),
{
    if values.len() == 0 {
        slots
    } else {
        after_push(push_all(slots, i, values.drop_last()), i, values.last())
    }
}

/// A sequence accumulator starting from empty holds the appended values in
/// call order, and finalizing yields that sequence.
pub proof fn lemma_sequence_plan(
    plans: Seq<FieldPlan>,
    slots: Seq<SlotView>,
    i: int,
    values: Seq<Seq<char>>,
)
    requires
        fits(plans, slots),
        0 <= i < plans.len(),
        plans[i].mutation is Append,
        slots[i] == SlotView::Items(Seq::empty()),
    ensures
        push_all(slots, i, values)[i] == SlotView::Items(values),
        fits(plans, push_all(slots, i, values)),
        finalize(plans, push_all(slots, i, values)) matches Ok(vs) ==> vs[i] == ValueView::Items(
            values,
        ),
    decreases values.len(),
{
    if values.len() > 0 {
        lemma_sequence_plan(plans, slots, i, values.drop_last());
        let s = push_all(slots, i, values.drop_last());
        assert(values.drop_last().push(values.last()) =~= values);
        let t = push_all(slots, i, values);
        assert forall|j: int| 0 <= j < plans.len() implies slot_fits(#[trigger] plans[j], t[j]) by {
            assert(slot_fits(plans[j], s[j]));
        }
    } else {
        assert(values =~= Seq::<Seq<char>>::empty());
    }
    let t = push_all(slots, i, values);
    lemma_finalize(plans, t);
    assert(plans[i].wf());
}

/// A mapping accumulator keeps the last value given for a key: inserting
/// `k` twice is inserting it once with the second value, and finalizing
/// yields the resulting mapping.
pub proof fn lemma_mapping_plan(
    plans: Seq<FieldPlan>,
    slots: Seq<SlotView>,
    i: int,
    k: Seq<char>,
    v1: Seq<char>,
    v2: Seq<char>,
)
    requires
        fits(plans, slots),
        0 <= i < plans.len(),
        plans[i].mutation is Insert,
    ensures
        after_insert(after_insert(slots, i, k, v1), i, k, v2) == after_insert(slots, i, k, v2),
        after_insert(slots, i, k, v2)[i]->Entries_0[k] == v2,
        finalize(plans, after_insert(slots, i, k, v2)) matches Ok(vs) ==> vs[i]
            == ValueView::Entries(slots[i]->Entries_0.insert(k, v2)),
{
    let m = slots[i]->Entries_0;
    assert(m.insert(k, v1).insert(k, v2) =~= m.insert(k, v2));
    assert(after_insert(after_insert(slots, i, k, v1), i, k, v2) =~= after_insert(slots, i, k, v2));
    let t = after_insert(slots, i, k, v2);
    lemma_finalize(plans, t);
    assert(plans[i].wf());
}

/// The slots after setting field `j` to `values[j]` for each `j < n`.
pub open spec fn set_first(slots: Seq<SlotView>, values: Seq<Seq<char>>, n: int) -> Seq<SlotView>
    decreases n,
{
    if n <= 0 {
        slots
    } else {
        after_set(set_first(slots, values, n - 1), n - 1, values[n - 1])
    }
}

/// The record built directly from one value per field.
pub open spec fn direct(plans: Seq<FieldPlan>, values: Seq<Seq<char>>) -> Seq<ValueView> {
    Seq::new(
        plans.len(),
        |j: int|
            if plans[j].presence_wrapped {
                ValueView::Plain(values[j])
            } else {
                ValueView::Optional(Some(values[j]))
            },
    )
}

proof fn lemma_set_first(slots: Seq<SlotView>, values: Seq<Seq<char>>, n: int)
    requires
        0 <= n <= slots.len(),
    ensures
        set_first(slots, values, n).len() == slots.len(),
        forall|j: int| 0 <= j < n ==> set_first(slots, values, n)[j] == SlotView::Single(
            Some(values[j]),
        ),
        forall|j: int| n <= j < slots.len() ==> set_first(slots, values, n)[j] == slots[j],
    decreases n,
{
    if n > 0 {
        lemma_set_first(slots, values, n - 1);
    }
}

/// Round trip: setting every field of a fresh builder, in order, and
/// finalizing yields the record built directly from those values.
pub proof fn lemma_round_trip_plans(plans: Seq<FieldPlan>, values: Seq<Seq<char>>)
    requires
        fits(plans, empty_slots(plans)),
        forall|j: int| 0 <= j < plans.len() ==> (#[trigger] plans[j]).mutation is Setter,
        values.len() == plans.len(),
    ensures
        finalize(plans, set_first(empty_slots(plans), values, plans.len() as int)) == Ok::<
            Seq<ValueView>,
            Seq<char>,
        >(direct(plans, values)),
{
    let s = set_first(empty_slots(plans), values, plans.len() as int);
    lemma_set_first(empty_slots(plans), values, plans.len() as int);
    assert forall|j: int| 0 <= j < plans.len() implies resolve_one(plans[j], s[j]) == Some(
        direct(plans, values)[j],
    ) by {
        assert(plans[j].wf());
    }
    lemma_finalize(plans, s);
    let vs = finalize(plans, s)->Ok_0;
    assert(vs =~= direct(plans, values));
}

/// A duplicate finalizes to the same record as the builder it was copied
/// from; setting a field of the duplicate afterwards changes that field of
/// its record alone.
pub proof fn lemma_duplicate_plans(
    plans: Seq<FieldPlan>,
    base: Seq<SlotView>,
    duplicate: Seq<SlotView>,
    i: int,
    v: Seq<char>,
)
    requires
        fits(plans, base),
        duplicate == base,
        0 <= i < plans.len(),
        base[i] is Single,
    ensures
        finalize(plans, duplicate) == finalize(plans, base),
        forall|j: int|
            0 <= j < plans.len() && j != i ==> resolve_one(plans[j], after_set(duplicate, i, v)[j])
                == resolve_one(plans[j], base[j]),
        finalize(plans, after_set(duplicate, i, v)) matches Ok(vs) ==> vs[i] == if plans[i].presence_wrapped {
            ValueView::Plain(v)
        } else {
            ValueView::Optional(Some(v))
        },
{
    let t = after_set(duplicate, i, v);
    lemma_finalize(plans, t);
    assert(plans[i].wf() && slot_fits(plans[i], base[i]));
}

} // verus!

verus! {

/// `p` is the plan that generation accepts for the declaration `input`,
/// whose fields are `fs`: what `resolve_struct` returns, and what
/// `builder_derive` emits its text from.
pub open spec fn generated(input: DeriveInput, fs: Seq<Field>, p: StructPlan) -> bool {
    &&& named_fields(input) == Some(fs)
    &&& accepted(input, fs)
    &&& struct_plan_of(p, input, fs)
}

/// A fresh builder's slots fit the plans of an accepted declaration.
pub proof fn lemma_generated_fits_empty(input: DeriveInput, fs: Seq<Field>, p: StructPlan)
    requires
        generated(input, fs, p),
    ensures
        fits(p.fields@, empty_slots(p.fields@)),
{
    let ps = p.fields@;
    assert forall|i: int| 0 <= i < ps.len() implies slot_fits(#[trigger] ps[i], empty_slots(ps)[i]) by {
        assert(empty_slots(ps)[i] == empty_slot(ps[i]));
    }
}

/// For a declaration whose fields are all plain (no annotation that makes
/// them optional, accumulated, defaulted or fixed), finalizing fails
/// exactly where some field was never set, and the error names the first
/// such field in declaration order.
pub proof fn law_plain_fields(input: DeriveInput, fs: Seq<Field>, p: StructPlan, slots: Seq<SlotView>)
    requires
        generated(input, fs, p),
        fits(p.fields@, slots),
        forall|i: int| 0 <= i < fs.len() ==> is_required(#[trigger] fs[i]),
    ensures
        finalize(p.fields@, slots) is Err <==> exists|i: int|
            0 <= i < fs.len() && slots[i] == SlotView::Single(None),
        finalize(p.fields@, slots) matches Err(n) ==> exists|i: int|
            0 <= i < fs.len() && slots[i] == SlotView::Single(None) && n == fs[i].ident@
                && forall|j: int| 0 <= j < i ==> slots[j] != SlotView::Single(None),
{
    let ps = p.fields@;
    assert forall|i: int| 0 <= i < ps.len() implies (#[trigger] ps[i]).resolution is ErrorOnAbsent by {
        assert(plan_of(ps[i], fs[i]) && is_required(fs[i]));
    }
    lemma_plain_plans(ps, slots);
    assert forall|i: int| 0 <= i < ps.len() implies ps[i].name@ == fs[i].ident@ by {
        assert(plan_of(ps[i], fs[i]));
    }
}

/// A field marked `optional` gets a setter of the `Option`'s inner type,
/// never makes finalizing fail, and resolves to what was stored: absent
/// where it was never set, the supplied value `v` once set.
pub proof fn law_optional_field(
    input: DeriveInput,
    fs: Seq<Field>,
    p: StructPlan,
    slots: Seq<SlotView>,
    i: int,
    v: Seq<char>,
)
    requires
        generated(input, fs, p),
        fits(p.fields@, slots),
        0 <= i < fs.len(),
        is_optional(fs[i]),
        !is_disabled(fs[i]),
    ensures
        p.fields@[i].mutation matches Mutation::Setter { ty } && Some(ty@) == option_inner(fs[i].ty),
        finalize(p.fields@, slots) matches Ok(vs) ==> vs[i] == ValueView::Optional(
            slots[i]->Single_0,
        ),
        finalize(p.fields@, slots) matches Err(n) ==> exists|j: int|
            0 <= j < fs.len() && j != i && resolve_one(p.fields@[j], slots[j]) is None && n
                == fs[j].ident@,
        finalize(p.fields@, after_set(slots, i, v)) is Ok <==> finalize(p.fields@, slots) is Ok,
        finalize(p.fields@, after_set(slots, i, v)) matches Ok(vs) ==> vs[i] == ValueView::Optional(
            Some(v),
        ),
{
    let ps = p.fields@;
    assert(plan_of(ps[i], fs[i]));
    assert(!is_each(fs[i]));
    lemma_optional_plan(ps, slots, i, v);
    assert forall|j: int| 0 <= j < ps.len() implies ps[j].name@ == fs[j].ident@ by {
        assert(plan_of(ps[j], fs[j]));
    }
}

/// A field marked `vec = "..."`, starting from empty, holds the values
/// appended through its accessor in call order, and finalizing yields that
/// sequence.
pub proof fn law_sequence_accumulates(
    input: DeriveInput,
    fs: Seq<Field>,
    p: StructPlan,
    slots: Seq<SlotView>,
    i: int,
    values: Seq<Seq<char>>,
)
    requires
        generated(input, fs, p),
        fits(p.fields@, slots),
        0 <= i < fs.len(),
        vec_accessor(fs[i]) is Some,
        slots[i] == SlotView::Items(Seq::empty()),
    ensures
        p.fields@[i].mutation matches Mutation::Append { accessor, .. } && Some(accessor@)
            == vec_accessor(fs[i]),
        push_all(slots, i, values)[i] == SlotView::Items(values),
        finalize(p.fields@, push_all(slots, i, values)) matches Ok(vs) ==> vs[i]
            == ValueView::Items(values),
{
    assert(plan_of(p.fields@[i], fs[i]));
    lemma_sequence_plan(p.fields@, slots, i, values);
}

/// A field marked `map = "..."` keeps the last value given for a key:
/// inserting `k` twice is inserting it once with the second value, and
/// finalizing yields the resulting mapping.
pub proof fn law_mapping_overwrites(
    input: DeriveInput,
    fs: Seq<Field>,
    p: StructPlan,
    slots: Seq<SlotView>,
    i: int,
    k: Seq<char>,
    v1: Seq<char>,
    v2: Seq<char>,
)
    requires
        generated(input, fs, p),
        fits(p.fields@, slots),
        0 <= i < fs.len(),
        map_accessor(fs[i]) is Some,
    ensures
        p.fields@[i].mutation matches Mutation::Insert { accessor, .. } && Some(accessor@)
            == map_accessor(fs[i]),
        after_insert(after_insert(slots, i, k, v1), i, k, v2) == after_insert(slots, i, k, v2),
        after_insert(slots, i, k, v2)[i]->Entries_0[k] == v2,
        finalize(p.fields@, after_insert(slots, i, k, v2)) matches Ok(vs) ==> vs[i]
            == ValueView::Entries(slots[i]->Entries_0.insert(k, v2)),
{
    assert(plan_of(p.fields@[i], fs[i]));
    lemma_mapping_plan(p.fields@, slots, i, k, v1, v2);
}

/// Round trip: for a declaration without accumulated or fixed fields,
/// setting every field of a fresh builder and finalizing yields the record
/// built directly from those values.
pub proof fn law_round_trip(input: DeriveInput, fs: Seq<Field>, p: StructPlan, values: Seq<Seq<char>>)
    requires
        generated(input, fs, p),
        forall|j: int| 0 <= j < fs.len() ==> !is_disabled(#[trigger] fs[j]) && !is_each(fs[j]),
        values.len() == fs.len(),
    ensures
        finalize(p.fields@, set_first(empty_slots(p.fields@), values, fs.len() as int)) == Ok::<
            Seq<ValueView>,
            Seq<char>,
        >(direct(p.fields@, values)),
        forall|j: int|
            0 <= j < fs.len() ==> (#[trigger] direct(p.fields@, values)[j] == if is_optional(fs[j]) {
                ValueView::Optional(Some(values[j]))
            } else {
                ValueView::Plain(values[j])
            }),
{
    let ps = p.fields@;
    lemma_generated_fits_empty(input, fs, p);
    assert forall|j: int| 0 <= j < ps.len() implies (#[trigger] ps[j]).mutation is Setter && (
    ps[j].presence_wrapped <==> !is_optional(fs[j])) by {
        assert(plan_of(ps[j], fs[j]));
    }
    lemma_round_trip_plans(ps, values);
}

/// For a declaration marked `clone`, a duplicate of the builder finalizes to
/// the same record as the builder it was copied from; setting a field of
/// the duplicate afterwards changes that field of its record alone.
pub proof fn law_duplicate(
    input: DeriveInput,
    fs: Seq<Field>,
    p: StructPlan,
    base: Seq<SlotView>,
    duplicate: Seq<SlotView>,
    i: int,
    v: Seq<char>,
)
    requires
        generated(input, fs, p),
        p.cloneable,
        fits(p.fields@, base),
        duplicate == base,
        0 <= i < fs.len(),
        !is_disabled(fs[i]),
        !is_each(fs[i]),
    ensures
        finalize(p.fields@, duplicate) == finalize(p.fields@, base),
        forall|j: int|
            0 <= j < fs.len() && j != i ==> resolve_one(p.fields@[j], after_set(duplicate, i, v)[j])
                == resolve_one(p.fields@[j], base[j]),
        finalize(p.fields@, after_set(duplicate, i, v)) matches Ok(vs) ==> vs[i] == if is_optional(
            fs[i],
        ) {
            ValueView::Optional(Some(v))
        } else {
            ValueView::Plain(v)
        },
{
    let ps = p.fields@;
    assert(plan_of(ps[i], fs[i]));
    assert(slot_fits(ps[i], base[i]));
    lemma_duplicate_plans(ps, base, duplicate, i, v);
}

} // verus!
