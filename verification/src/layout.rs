//! The peripheral layout builder: orders a peripheral's registers by
//! address offset, inserts exactly the padding needed between them, and
//! drops registers that overlap an earlier one.
//!
//! Every register occupies one 4-byte slot. The builder walks the
//! registers in ascending offset order with a byte cursor that starts at
//! zero: a register behind the cursor overlaps a previous register and is
//! dropped from the layout; a register ahead of the cursor is preceded by
//! a padding slot covering the gap; every emitted slot advances the
//! cursor past its end. Declaration order in the resulting plan equals
//! ascending address order, which hardware layout leaves no freedom over.

use vstd::prelude::*;

use crate::model::Register;
use crate::names::{field_accessor_name, pascal_case_of, register_type_name, snake_case_of};

verus! {

/// One slot of a peripheral's layout plan: a named register slot, or a
/// padding slot covering the bytes between two registers.
#[derive(Debug, PartialEq)]
pub enum LayoutSlot {
    /// A register slot: the structure field name (snake_case), the
    /// register value type name (PascalCase), and the register's byte
    /// offset.
    Reg { field_name: String, ty_name: String, offset: u32 },
    /// A padding slot: its position among the plan's padding slots
    /// (used only to keep generated padding names unique), and the bytes
    /// it covers.
    Pad { index: usize, bytes: u32 },
}

/// The mathematical shape of one layout slot.
pub ghost enum SlotShape {
    Reg { field_name: Seq<char>, ty_name: Seq<char>, offset: u32 },
    Pad { index: int, bytes: u32 },
}

/// The shape of one built slot.
pub open spec fn slot_shape(s: LayoutSlot) -> SlotShape {
    match s {
        LayoutSlot::Reg { field_name, ty_name, offset } => SlotShape::Reg {
            field_name: field_name@,
            ty_name: ty_name@,
            offset,
        },
        LayoutSlot::Pad { index, bytes } => SlotShape::Pad { index: index as int, bytes },
    }
}

/// The shapes of a built plan.
pub open spec fn shapes_of(s: Seq<LayoutSlot>) -> Seq<SlotShape> {
    s.map_values(|x: LayoutSlot| slot_shape(x))
}

/// The registers behind a sequence of references.
pub open spec fn deref_seq(s: Seq<&Register>) -> Seq<Register> {
    s.map_values(|r: &Register| *r)
}

/// Whether a register sequence is ordered by ascending address offset.
pub open spec fn sorted_by_offset(s: Seq<Register>) -> bool {
    forall|i: int, j: int|
        0 <= i < j < s.len() ==> s[i].address_offset <= s[j].address_offset
}

/// Stable insertion of one register into an offset-ordered sequence: the
/// register lands behind every earlier register whose offset does not
/// exceed its own.
pub open spec fn insert_by_offset(s: Seq<Register>, r: Register) -> Seq<Register>
    decreases s.len(),
{
    if s.len() == 0 {
        seq![r]
    } else if s.last().address_offset > r.address_offset {
        insert_by_offset(s.drop_last(), r).push(s.last())
    } else {
        s.push(r)
    }
}

/// Stable sort of a register sequence by ascending address offset:
/// registers with equal offsets keep their input order.
pub open spec fn sort_by_offset_spec(s: Seq<Register>) -> Seq<Register>
    decreases s.len(),
{
    if s.len() == 0 {
        Seq::empty()
    } else {
        insert_by_offset(sort_by_offset_spec(s.drop_last()), s.last())
    }
}

/// The layout plan of an offset-ordered register sequence, walked with
/// the given byte cursor and padding counter.
pub open spec fn layout_shapes(regs: Seq<Register>, cursor: u64, pad_index: int) -> Seq<SlotShape>
    decreases regs.len(),
{
    if regs.len() == 0 {
        Seq::empty()
    } else {
        let r = regs[0];
        let rest = regs.skip(1);
        let reg_slot = SlotShape::Reg {
            field_name: snake_case_of(r.name@),
            ty_name: pascal_case_of(r.name@),
            offset: r.address_offset,
        };
        if (r.address_offset as u64) < cursor {
            layout_shapes(rest, cursor, pad_index)
        } else if (r.address_offset as u64) > cursor {
            seq![
                SlotShape::Pad {
                    index: pad_index,
                    bytes: (r.address_offset as u64 - cursor) as u32,
                },
                reg_slot,
            ] + layout_shapes(rest, (r.address_offset as u64 + 4) as u64, pad_index + 1)
        } else {
            seq![reg_slot] + layout_shapes(rest, (r.address_offset as u64 + 4) as u64, pad_index)
        }
    }
}

/// The layout plan of a peripheral's register list: the registers sorted
/// by ascending offset, walked from cursor zero.
pub open spec fn peripheral_layout_shapes(regs: Seq<Register>) -> Seq<SlotShape> {
    layout_shapes(sort_by_offset_spec(regs), 0, 0)
}

/// The bytes one layout slot covers: four for a register slot, the
/// padding bytes for a padding slot.
pub open spec fn slot_size(s: SlotShape) -> int {
    match s {
        SlotShape::Reg { .. } => 4,
        SlotShape::Pad { bytes, .. } => bytes as int,
    }
}

/// The bytes a sequence of layout slots covers in all.
pub open spec fn plan_span(shapes: Seq<SlotShape>) -> int
    decreases shapes.len(),
{
    if shapes.len() == 0 {
        0
    } else {
        slot_size(shapes[0]) + plan_span(shapes.skip(1))
    }
}

proof fn lemma_plan_span_singleton(s: SlotShape)
    ensures
        plan_span(seq![s]) == slot_size(s),
{
    reveal_with_fuel(plan_span, 2);
    assert(seq![s].skip(1) =~= Seq::<SlotShape>::empty());
}

proof fn lemma_plan_span_nonneg(shapes: Seq<SlotShape>)
    ensures
        plan_span(shapes) >= 0,
    decreases shapes.len(),
{
    if shapes.len() > 0 {
        lemma_plan_span_nonneg(shapes.skip(1));
    }
}

proof fn lemma_plan_span_append(a: Seq<SlotShape>, b: Seq<SlotShape>)
    ensures
        plan_span(a + b) == plan_span(a) + plan_span(b),
    decreases a.len(),
{
    if a.len() == 0 {
        assert(a + b =~= b);
    } else {
        lemma_plan_span_append(a.skip(1), b);
        assert((a + b).skip(1) =~= a.skip(1) + b);
    }
}

/// Law: in any layout plan, every register slot begins exactly at the
/// walk's start cursor plus the bytes of all slots before it — the
/// padding inserted is exactly what makes each register start at its
/// declared offset.
pub proof fn lemma_layout_no_gaps(regs: Seq<Register>, cursor: u64, pad_index: int, i: int)
    requires
        0 <= i < layout_shapes(regs, cursor, pad_index).len(),
    ensures
        layout_shapes(regs, cursor, pad_index)[i] matches SlotShape::Reg { offset, .. }
            ==> offset as int == cursor + plan_span(layout_shapes(regs, cursor, pad_index).take(i)),
    decreases regs.len(),
{
    let shapes = layout_shapes(regs, cursor, pad_index);
    assert(plan_span(Seq::<SlotShape>::empty()) == 0);
    assert(shapes.take(0) =~= Seq::<SlotShape>::empty());
    if regs.len() == 0 {
    } else {
        let r = regs[0];
        let rest = regs.skip(1);
        if (r.address_offset as u64) < cursor {
            lemma_layout_no_gaps(rest, cursor, pad_index, i);
            assert(shapes.take(i) == layout_shapes(rest, cursor, pad_index).take(i));
        } else if (r.address_offset as u64) > cursor {
            let delta = (r.address_offset as u64 - cursor) as u32;
            let next = (r.address_offset as u64 + 4) as u64;
            let tail = layout_shapes(rest, next, pad_index + 1);
            assert(delta as int == r.address_offset as u64 - cursor);
            assert(next == r.address_offset as u64 + 4);
            if i == 0 {
            } else if i == 1 {
                assert(shapes.take(1) =~= seq![shapes[0]]);
                lemma_plan_span_singleton(shapes[0]);
                assert(plan_span(seq![shapes[0]]) == delta as int);
            } else {
                lemma_layout_no_gaps(rest, next, pad_index + 1, i - 2);
                assert(shapes[i] == tail[i - 2]);
                assert(shapes.take(i) =~= seq![shapes[0], shapes[1]] + tail.take(i - 2));
                lemma_plan_span_append(seq![shapes[0], shapes[1]], tail.take(i - 2));
                assert(plan_span(seq![shapes[0], shapes[1]]) == delta as int + 4) by {
                    assert(seq![shapes[0], shapes[1]].skip(1) =~= seq![shapes[1]]);
                    lemma_plan_span_singleton(shapes[1]);
                }
            }
        } else {
            let next = (r.address_offset as u64 + 4) as u64;
            let tail = layout_shapes(rest, next, pad_index);
            assert(next == cursor + 4);
            if i == 0 {
            } else {
                lemma_layout_no_gaps(rest, next, pad_index, i - 1);
                assert(shapes[i] == tail[i - 1]);
                assert(shapes.take(i) =~= seq![shapes[0]] + tail.take(i - 1));
                lemma_plan_span_append(seq![shapes[0]], tail.take(i - 1));
                lemma_plan_span_singleton(shapes[0]);
            }
        }
    }
}

/// Law: two register slots of one layout plan never overlap — the later
/// one begins at or past the four-byte end of the earlier one.
pub proof fn lemma_layout_no_overlaps(
    regs: Seq<Register>,
    cursor: u64,
    pad_index: int,
    i: int,
    j: int,
)
    requires
        0 <= i < j < layout_shapes(regs, cursor, pad_index).len(),
        layout_shapes(regs, cursor, pad_index)[i] is Reg,
        layout_shapes(regs, cursor, pad_index)[j] is Reg,
    ensures
        (layout_shapes(regs, cursor, pad_index)[i] matches SlotShape::Reg { offset: oi, .. }
            && layout_shapes(regs, cursor, pad_index)[j] matches SlotShape::Reg {
            offset: oj,
            ..
        } ==> oi + 4 <= oj),
{
    let shapes = layout_shapes(regs, cursor, pad_index);
    lemma_layout_no_gaps(regs, cursor, pad_index, i);
    lemma_layout_no_gaps(regs, cursor, pad_index, j);
    assert(shapes.take(j) =~= shapes.take(i) + seq![shapes[i]] + shapes.take(j).skip(i + 1));
    lemma_plan_span_append(shapes.take(i) + seq![shapes[i]], shapes.take(j).skip(i + 1));
    lemma_plan_span_append(shapes.take(i), seq![shapes[i]]);
    lemma_plan_span_nonneg(shapes.take(j).skip(i + 1));
    lemma_plan_span_singleton(shapes[i]);
    assert(plan_span(seq![shapes[i]]) == 4);
}

proof fn lemma_insert_by_offset_len(s: Seq<Register>, r: Register)
    ensures
        insert_by_offset(s, r).len() == s.len() + 1,
    decreases s.len(),
{
    if s.len() > 0 && s.last().address_offset > r.address_offset {
        lemma_insert_by_offset_len(s.drop_last(), r);
    }
}

/// Inserting into an offset-ordered sequence at the position scanned from
/// the back — behind every element not exceeding the new register, before
/// every element exceeding it — is what stable insertion does.
proof fn lemma_insert_by_offset_at(s: Seq<Register>, r: Register, p: int)
    requires
        sorted_by_offset(s),
        0 <= p <= s.len(),
        forall|k: int| p <= k < s.len() ==> s[k].address_offset > r.address_offset,
        p > 0 ==> s[p - 1].address_offset <= r.address_offset,
    ensures
        insert_by_offset(s, r) == s.insert(p, r),
    decreases s.len(),
{
    if s.len() == 0 {
        assert(insert_by_offset(s, r) =~= s.insert(0, r));
    } else if s.last().address_offset > r.address_offset {
        assert(p < s.len());
        lemma_insert_by_offset_at(s.drop_last(), r, p);
        lemma_insert_by_offset_len(s.drop_last(), r);
        assert(insert_by_offset(s.drop_last(), r).push(s.last()) =~= s.insert(p, r));
    } else {
        assert(p == s.len()) by {
            if p < s.len() {
                assert(s[s.len() - 1].address_offset > r.address_offset);
            }
        }
        assert(s.push(r) =~= s.insert(p, r));
    }
}

proof fn lemma_sorted_drop_last(s: Seq<Register>)
    requires
        sorted_by_offset(s),
        s.len() > 0,
    ensures
        sorted_by_offset(s.drop_last()),
{
    assert forall|i: int, j: int|
        0 <= i < j < s.drop_last().len() implies s.drop_last()[i].address_offset
        <= s.drop_last()[j].address_offset by {
        assert(s.drop_last()[i] == s[i]);
        assert(s.drop_last()[j] == s[j]);
    }
}

proof fn lemma_insert_by_offset_sorted(s: Seq<Register>, r: Register)
    requires
        sorted_by_offset(s),
    ensures
        sorted_by_offset(insert_by_offset(s, r)),
    decreases s.len(),
{
    if s.len() == 0 {
    } else if s.last().address_offset > r.address_offset {
        lemma_sorted_drop_last(s);
        lemma_insert_by_offset_sorted(s.drop_last(), r);
        lemma_insert_by_offset_len(s.drop_last(), r);
        let t = insert_by_offset(s.drop_last(), r);
        let u = t.push(s.last());
        assert forall|i: int, j: int|
            0 <= i < j < u.len() implies u[i].address_offset <= u[j].address_offset by {
            if j < t.len() {
                assert(u[i] == t[i] && u[j] == t[j]);
            } else {
                assert(u[j] == s.last());
                assert(u[i] == t[i]);
                lemma_insert_max(s, r, i);
            }
        }
    } else {
        let u = s.push(r);
        assert forall|i: int, j: int|
            0 <= i < j < u.len() implies u[i].address_offset <= u[j].address_offset by {
            if j == s.len() {
                assert(u[j] == r);
                assert(u[i] == s[i]);
                if i < s.len() - 1 {
                    assert(s[i].address_offset <= s[s.len() - 1].address_offset);
                }
            } else {
                assert(u[i] == s[i] && u[j] == s[j]);
            }
        }
    }
}

/// Every element of a stable insertion is either the new register or an
/// element of the original sequence; elements do not exceed the larger of
/// the new register and the original maximum.
proof fn lemma_insert_max(s: Seq<Register>, r: Register, i: int)
    requires
        sorted_by_offset(s),
        s.len() > 0,
        s.last().address_offset > r.address_offset,
        0 <= i < s.len(),
    ensures
        insert_by_offset(s.drop_last(), r)[i].address_offset <= s.last().address_offset,
    decreases s.len(),
{
    let t = insert_by_offset(s.drop_last(), r);
    lemma_insert_by_offset_len(s.drop_last(), r);
    lemma_insert_membership(s.drop_last(), r, i);
    if t[i] == r {
    } else {
        let k = choose|k: int| 0 <= k < s.drop_last().len() && t[i] == s.drop_last()[k];
        assert(s.drop_last()[k] == s[k]);
        assert(s[k].address_offset <= s.last().address_offset);
    }
}

/// Every element of a stable insertion is the new register or one of the
/// original elements.
proof fn lemma_insert_membership(s: Seq<Register>, r: Register, i: int)
    requires
        0 <= i < s.len() + 1,
    ensures
        insert_by_offset(s, r)[i] == r || exists|k: int| 0 <= k < s.len() && insert_by_offset(
            s,
            r,
        )[i] == s[k],
    decreases s.len(),
{
    lemma_insert_by_offset_len(s, r);
    if s.len() == 0 {
    } else if s.last().address_offset > r.address_offset {
        lemma_insert_by_offset_len(s.drop_last(), r);
        if i < s.len() {
            lemma_insert_membership(s.drop_last(), r, i);
            if insert_by_offset(s.drop_last(), r)[i] != r {
                let k = choose|k: int|
                    0 <= k < s.drop_last().len() && insert_by_offset(s.drop_last(), r)[i]
                        == s.drop_last()[k];
                assert(s.drop_last()[k] == s[k]);
            }
        } else {
            assert(insert_by_offset(s, r)[i] == s.last());
        }
    } else {
        if i < s.len() {
            assert(insert_by_offset(s, r)[i] == s[i]);
        }
    }
}

proof fn lemma_insert_by_offset_multiset(s: Seq<Register>, r: Register)
    ensures
        insert_by_offset(s, r).to_multiset() == s.to_multiset().insert(r),
    decreases s.len(),
{
    broadcast use vstd::seq_lib::group_to_multiset_ensures;

    if s.len() == 0 {
        assert(seq![r] =~= Seq::<Register>::empty().push(r));
        assert(Seq::<Register>::empty().push(r).to_multiset() =~= Seq::<
            Register,
        >::empty().to_multiset().insert(r));
    } else if s.last().address_offset > r.address_offset {
        lemma_insert_by_offset_multiset(s.drop_last(), r);
        assert(s.drop_last().push(s.last()) =~= s);
        assert(insert_by_offset(s.drop_last(), r).push(s.last()).to_multiset()
            =~= insert_by_offset(s.drop_last(), r).to_multiset().insert(s.last()));
        assert(s.drop_last().push(s.last()).to_multiset() =~= s.drop_last().to_multiset().insert(
            s.last(),
        ));
        assert(s.drop_last().to_multiset().insert(r).insert(s.last())
            =~= s.drop_last().to_multiset().insert(s.last()).insert(r));
    } else {
        assert(s.push(r).to_multiset() =~= s.to_multiset().insert(r));
    }
}

/// Law: the offset-ordered sort is a permutation of its input — every
/// register of the model appears in the sorted sequence exactly as often
/// as it appears in the input.
pub proof fn lemma_sort_by_offset_permutes(s: Seq<Register>)
    ensures
        sort_by_offset_spec(s).to_multiset() == s.to_multiset(),
    decreases s.len(),
{
    broadcast use vstd::seq_lib::group_to_multiset_ensures;

    if s.len() > 0 {
        lemma_sort_by_offset_permutes(s.drop_last());
        lemma_insert_by_offset_multiset(sort_by_offset_spec(s.drop_last()), s.last());
        assert(s.drop_last().push(s.last()) =~= s);
        assert(s.drop_last().push(s.last()).to_multiset() =~= s.drop_last().to_multiset().insert(
            s.last(),
        ));
    }
}

/// The offset-ordered sort is a sorted sequence of the input's length.
pub proof fn lemma_sort_by_offset_sorted(s: Seq<Register>)
    ensures
        sorted_by_offset(sort_by_offset_spec(s)),
        sort_by_offset_spec(s).len() == s.len(),
    decreases s.len(),
{
    if s.len() > 0 {
        lemma_sort_by_offset_sorted(s.drop_last());
        lemma_insert_by_offset_sorted(sort_by_offset_spec(s.drop_last()), s.last());
        lemma_insert_by_offset_len(sort_by_offset_spec(s.drop_last()), s.last());
    }
}

/// Sorts register references by ascending address offset; registers with
/// equal offsets keep their input order.
pub fn sort_registers_by_offset<'a>(regs: Vec<&'a Register>) -> (r: Vec<&'a Register>)
    ensures
        deref_seq(r@) == sort_by_offset_spec(deref_seq(regs@)),
{
    let ghost input = deref_seq(regs@);
    let mut v = regs;
    let mut i: usize = 0;
    while i < v.len()
        invariant
            i <= v@.len(),
            v@.len() == input.len(),
            deref_seq(v@).take(i as int) == sort_by_offset_spec(input.take(i as int)),
            deref_seq(v@).skip(i as int) == input.skip(i as int),
        decreases v@.len() - i,
    {
        let x: &Register = v[i];
        proof {
            assert(deref_seq(v@)[i as int] == *x);
            assert(input.skip(i as int)[0] == deref_seq(v@).skip(i as int)[0]);
            assert(*x == input[i as int]);
            lemma_sort_by_offset_sorted(input.take(i as int));
        }
        let ghost sorted_prefix = sort_by_offset_spec(input.take(i as int));
        let mut p: usize = i;
        while p > 0 && v[p - 1].address_offset > x.address_offset
            invariant
                p <= i,
                i < v@.len(),
                deref_seq(v@).take(i as int) == sorted_prefix,
                forall|k: int|
                    p <= k < i ==> sorted_prefix[k].address_offset > x.address_offset,
            decreases p,
        {
            proof {
                assert(deref_seq(v@)[p - 1] == *v@[p - 1]);
                assert(sorted_prefix[p - 1] == deref_seq(v@).take(i as int)[p - 1]);
            }
            p = p - 1;
        }
        proof {
            if p > 0 {
                assert(sorted_prefix[p - 1] == deref_seq(v@)[p - 1]);
            }
            lemma_insert_by_offset_at(sorted_prefix, *x, p as int);
        }
        let ghost before = v@;
        v.remove(i);
        v.insert(p, x);
        proof {
            assert(v@ =~= before.take(i as int).insert(p as int, x) + before.skip(i + 1));
            assert(deref_seq(v@).take(i + 1) =~= sorted_prefix.insert(p as int, *x)) by {
                assert forall|k: int| 0 <= k < i + 1 implies deref_seq(v@).take(i + 1)[k]
                    == sorted_prefix.insert(p as int, *x)[k] by {
                    assert(deref_seq(v@)[k] == *v@[k]);
                    if k < p {
                        assert(v@[k] == before[k]);
                        assert(sorted_prefix[k] == deref_seq(before).take(i as int)[k]);
                    } else if k == p {
                    } else {
                        assert(v@[k] == before[k - 1]);
                        assert(sorted_prefix[k - 1] == deref_seq(before).take(i as int)[k - 1]);
                    }
                }
            }
            assert(input.take(i + 1).drop_last() =~= input.take(i as int));
            assert(input.take(i + 1).last() == input[i as int]);
            assert(deref_seq(v@).take(i + 1) == sort_by_offset_spec(input.take(i + 1)));
            assert(deref_seq(v@).skip(i + 1) =~= input.skip(i + 1)) by {
                assert forall|k: int|
                    0 <= k < input.len() - (i + 1) implies #[trigger] deref_seq(v@).skip(
                    i + 1,
                )[k] == input.skip(i + 1)[k] by {
                    assert(v@[k + i + 1] == before[k + i + 1]);
                    assert(deref_seq(before)[k + i + 1] == deref_seq(before).skip(i as int)[k + 1]);
                    assert(deref_seq(v@)[k + i + 1] == *v@[k + i + 1]);
                }
            }
        }
        i = i + 1;
    }
    proof {
        assert(deref_seq(v@) =~= deref_seq(v@).take(i as int));
        assert(input.take(i as int) =~= input);
    }
    v
}

/// Builds the layout plan of an offset-ordered register list: register
/// slots in declaration order, padding slots covering every gap, and
/// registers behind the cursor dropped as overlaps.
pub fn layout_from_sorted(regs: &Vec<&Register>) -> (r: Vec<LayoutSlot>)
    ensures
        shapes_of(r@) == layout_shapes(deref_seq(regs@), 0, 0),
{
    let mut out: Vec<LayoutSlot> = Vec::new();
    let mut cursor: u64 = 0;
    let mut pad_num: usize = 0;
    let mut i: usize = 0;
    proof {
        assert(deref_seq(regs@).skip(0) =~= deref_seq(regs@));
        assert(shapes_of(Seq::<LayoutSlot>::empty()) =~= Seq::<SlotShape>::empty());
    }
    while i < regs.len()
        invariant
            i <= regs@.len(),
            pad_num <= i,
            layout_shapes(deref_seq(regs@), 0, 0) == shapes_of(out@) + layout_shapes(
                deref_seq(regs@).skip(i as int),
                cursor,
                pad_num as int,
            ),
        decreases regs@.len() - i,
    {
        let reg: &Register = regs[i];
        let ghost rest = deref_seq(regs@).skip(i as int);
        proof {
            assert(deref_seq(regs@)[i as int] == *regs@[i as int]);
            assert(rest[0] == deref_seq(regs@)[i as int]);
            assert(rest.skip(1) =~= deref_seq(regs@).skip(i + 1));
        }
        let off = reg.address_offset as u64;
        if off < cursor {
            // overlaps a register already laid out: dropped from the plan
        } else {
            if off > cursor {
                let delta = (off - cursor) as u32;
                let slot = LayoutSlot::Pad { index: pad_num, bytes: delta };
                let ghost prev = out@;
                out.push(slot);
                proof {
                    assert(shapes_of(prev.push(slot)) =~= shapes_of(prev).push(slot_shape(slot)));
                }
                pad_num = pad_num + 1;
            }
            let slot = LayoutSlot::Reg {
                field_name: field_accessor_name(reg.name.as_str()),
                ty_name: register_type_name(reg.name.as_str()),
                offset: reg.address_offset,
            };
            let ghost prev = out@;
            out.push(slot);
            proof {
                assert(shapes_of(prev.push(slot)) =~= shapes_of(prev).push(slot_shape(slot)));
            }
            cursor = off + 4;
        }
        proof {
            assert(shapes_of(out@) + layout_shapes(
                deref_seq(regs@).skip(i + 1),
                cursor,
                pad_num as int,
            ) =~= layout_shapes(deref_seq(regs@), 0, 0));
        }
        i = i + 1;
    }
    proof {
        assert(deref_seq(regs@).skip(i as int) =~= Seq::<Register>::empty());
        assert(shapes_of(out@) + Seq::<SlotShape>::empty() =~= shapes_of(out@));
    }
    out
}

/// Builds the layout plan of a peripheral's register list: sorts the
/// registers by ascending address offset and walks them from cursor zero.
pub fn peripheral_layout(registers: &Vec<Register>) -> (r: Vec<LayoutSlot>)
    ensures
        shapes_of(r@) == peripheral_layout_shapes(registers@),
{
    let mut refs: Vec<&Register> = Vec::new();
    let mut i: usize = 0;
    while i < registers.len()
        invariant
            i <= registers@.len(),
            deref_seq(refs@) == registers@.take(i as int),
        decreases registers@.len() - i,
    {
        let ghost prev = refs@;
        refs.push(&registers[i]);
        proof {
            assert(deref_seq(prev.push(&registers@[i as int])) =~= deref_seq(prev).push(
                registers@[i as int],
            ));
            assert(registers@.take(i + 1) =~= registers@.take(i as int).push(
                registers@[i as int],
            ));
        }
        i = i + 1;
    }
    proof {
        assert(registers@.take(i as int) =~= registers@);
    }
    let sorted = sort_registers_by_offset(refs);
    layout_from_sorted(&sorted)
}

} // verus!
