//! Substituting one implementation value for another at every use: operation
//! operands, region captures, region-local capture operands and yields, and
//! outputs.

use crate::idmap::{sorted_kv, IdMap};
use crate::impl_ir::{ImplOperation, ImplOutput, ImplProgram, ImplRegion, ImplRegionOperation, ImplRegionValue, ImplValue};
use crate::text::str_eq;
use vstd::prelude::*;

verus! {

/// `to` in place of `from`.
pub open spec fn swap_id(x: Seq<char>, from: Seq<char>, to: Seq<char>) -> Seq<char> {
    if x == from {
        to
    } else {
        x
    }
}

/// A region reference with a capture of `from` turned into a capture of `to`.
pub open spec fn region_value_swapped(a: ImplRegionValue, b: ImplRegionValue, from: Seq<char>, to: Seq<char>) -> bool {
    if a matches ImplRegionValue::Capture(x) && x@ == from {
        b matches ImplRegionValue::Capture(y) && y@ == to
    } else {
        b == a
    }
}

/// A region-local operation with its capture operands substituted.
pub open spec fn local_swapped(a: ImplRegionOperation, b: ImplRegionOperation, from: Seq<char>, to: Seq<char>) -> bool {
    &&& b.result == a.result
    &&& b.opcode == a.opcode
    &&& b.attributes == a.attributes
    &&& b.result_type == a.result_type
    &&& b.operands@.len() == a.operands@.len()
    &&& forall|i: int| 0 <= i < a.operands@.len() ==> region_value_swapped(#[trigger] a.operands@[i], b.operands@[i], from, to)
}

/// Whether each element of `b` is the element of `a` at the same position,
/// with `to` in place of `from`.
pub open spec fn ids_swapped(a: Seq<String>, b: Seq<String>, from: Seq<char>, to: Seq<char>) -> bool {
    &&& b.len() == a.len()
    &&& forall|i: int| 0 <= i < a.len() ==> (#[trigger] b[i])@ == swap_id(a[i]@, from, to)
}

/// A region with its captures, capture operands and yield substituted.
pub open spec fn region_swapped(a: ImplRegion, b: ImplRegion, from: Seq<char>, to: Seq<char>) -> bool {
    &&& b.arguments == a.arguments
    &&& b.yield_type == a.yield_type
    &&& ids_swapped(a.captures@, b.captures@, from, to)
    &&& b.operations@.len() == a.operations@.len()
    &&& forall|i: int| 0 <= i < a.operations@.len() ==> local_swapped(#[trigger] a.operations@[i], b.operations@[i], from, to)
    &&& region_value_swapped(a.yield_value, b.yield_value, from, to)
}

/// An operation with its operands and region substituted.
pub open spec fn op_swapped(a: ImplOperation, b: ImplOperation, from: Seq<char>, to: Seq<char>) -> bool {
    &&& b.id == a.id
    &&& b.opcode == a.opcode
    &&& b.results == a.results
    &&& b.attributes == a.attributes
    &&& b.result_types == a.result_types
    &&& b.source_link == a.source_link
    &&& ids_swapped(a.operands@, b.operands@, from, to)
    &&& match (a.region, b.region) {
        (None, None) => true,
        (Some(x), Some(y)) => region_swapped(x, y, from, to),
        _ => false,
    }
}

/// An output returning `to` instead of `from`, with `to`'s type when `to` is a value.
pub open spec fn output_swapped(a: ImplOutput, b: ImplOutput, values: Map<Seq<char>, ImplValue>, from: Seq<char>, to: Seq<char>) -> bool {
    if a.value@ == from {
        &&& b.name == a.name
        &&& b.value@ == to
        &&& if values.contains_key(to) {
            b.ty@ == values[to].ty@
        } else {
            b.ty == a.ty
        }
    } else {
        b == a
    }
}

/// Whether `b` pairs the keys of `a` in order with related values.
pub open spec fn ops_swapped(a: Seq<(Seq<char>, ImplOperation)>, b: Seq<(Seq<char>, ImplOperation)>, from: Seq<char>, to: Seq<char>) -> bool {
    &&& b.len() == a.len()
    &&& forall|i: int| 0 <= i < a.len() ==> (#[trigger] b[i]).0 == a[i].0 && op_swapped(a[i].1, b[i].1, from, to)
}

/// Whether `b` pairs the keys of `a` in order with substituted outputs.
pub open spec fn outputs_swapped(
    a: Seq<(Seq<char>, ImplOutput)>,
    b: Seq<(Seq<char>, ImplOutput)>,
    values: Map<Seq<char>, ImplValue>,
    from: Seq<char>,
    to: Seq<char>,
) -> bool {
    &&& b.len() == a.len()
    &&& forall|i: int| 0 <= i < a.len() ==> (#[trigger] b[i]).0 == a[i].0 && output_swapped(a[i].1, b[i].1, values, from, to)
}

fn swap_ids(v: &mut Vec<String>, from: &str, to: &str)
    ensures
        ids_swapped(old(v)@, final(v)@, from@, to@),
{
    let ghost a = v@;
    let mut i: usize = 0;
    while i < v.len()
        invariant
            v@.len() == a.len(),
            i <= a.len(),
            forall|j: int| 0 <= j < i ==> (#[trigger] v@[j])@ == swap_id(a[j]@, from@, to@),
            forall|j: int| i <= j < a.len() ==> v@[j] == a[j],
            a == old(v)@,
        decreases a.len() - i,
    {
        if str_eq(v[i].as_str(), from) {
            v.set(i, String::from_str(to));
        }
        i = i + 1;
    }
}

fn swap_region_value(x: ImplRegionValue, from: &str, to: &str) -> (r: ImplRegionValue)
    ensures
        region_value_swapped(x, r, from@, to@),
{
    match x {
        ImplRegionValue::Capture(c) => {
            if str_eq(c.as_str(), from) {
                ImplRegionValue::Capture(String::from_str(to))
            } else {
                ImplRegionValue::Capture(c)
            }
        },
        other => other,
    }
}

fn swap_local(mut local: ImplRegionOperation, from: &str, to: &str) -> (r: ImplRegionOperation)
    ensures
        local_swapped(local, r, from@, to@),
{
    let ghost a = local;
    let mut operands: Vec<ImplRegionValue> = Vec::new();
    std::mem::swap(&mut operands, &mut local.operands);
    let ghost src = operands@;
    let n = operands.len();
    let mut out: Vec<ImplRegionValue> = Vec::new();
    let mut i: usize = 0;
    while operands.len() > 0
        invariant
            n == src.len(),
            src == a.operands@,
            i <= src.len(),
            operands@ == src.skip(i as int),
            out@.len() == i,
            forall|j: int| 0 <= j < i ==> region_value_swapped(src[j], #[trigger] out@[j], from@, to@),
        decreases operands@.len(),
    {
        let x = operands.remove(0);
        proof {
            assert(x == src[i as int]);
            assert(operands@ =~= src.skip(i + 1));
        }
        out.push(swap_region_value(x, from, to));
        i = i + 1;
    }
    ImplRegionOperation {
        result: local.result,
        opcode: local.opcode,
        operands: out,
        attributes: local.attributes,
        result_type: local.result_type,
    }
}

fn swap_region(region: ImplRegion, from: &str, to: &str) -> (r: ImplRegion)
    ensures
        region_swapped(region, r, from@, to@),
{
    let ghost a = region;
    let ImplRegion { arguments, mut captures, operations, yield_value, yield_type } = region;
    swap_ids(&mut captures, from, to);
    let mut ops = operations;
    let ghost src = ops@;
    let n = ops.len();
    let mut out: Vec<ImplRegionOperation> = Vec::new();
    let mut i: usize = 0;
    while ops.len() > 0
        invariant
            n == src.len(),
            src == a.operations@,
            i <= src.len(),
            ops@ == src.skip(i as int),
            out@.len() == i,
            forall|j: int| 0 <= j < i ==> local_swapped(src[j], #[trigger] out@[j], from@, to@),
        decreases ops@.len(),
    {
        let x = ops.remove(0);
        proof {
            assert(x == src[i as int]);
            assert(ops@ =~= src.skip(i + 1));
        }
        out.push(swap_local(x, from, to));
        i = i + 1;
    }
    ImplRegion {
        arguments,
        captures,
        operations: out,
        yield_value: swap_region_value(yield_value, from, to),
        yield_type,
    }
}

fn swap_op(op: ImplOperation, from: &str, to: &str) -> (r: ImplOperation)
    ensures
        op_swapped(op, r, from@, to@),
{
    let ImplOperation { id, opcode, mut operands, results, attributes, region, result_types, source_link } = op;
    swap_ids(&mut operands, from, to);
    let region = match region {
        Some(x) => Some(swap_region(x, from, to)),
        None => None,
    };
    ImplOperation { id, opcode, operands, results, attributes, region, result_types, source_link }
}

/// Substitutes value `to` for value `from` at every use: operation operands,
/// region captures, region-local capture operands and region yields, and
/// outputs, where an output's type becomes `to`'s type when `to` is a value.
pub fn replace_value(program: &mut ImplProgram, from: &str, to: &str)
    ensures
        ops_swapped(old(program).operations.kv(), final(program).operations.kv(), from@, to@),
        outputs_swapped(old(program).outputs.kv(), final(program).outputs.kv(), old(program).values@, from@, to@),
        final(program).operation_order == old(program).operation_order,
        final(program).values == old(program).values,
        final(program).constants == old(program).constants,
        final(program).parameters == old(program).parameters,
        final(program).dimensions == old(program).dimensions,
        final(program).constraints == old(program).constraints,
        final(program).numeric_contract == old(program).numeric_contract,
{
    let ghost p0 = *program;
    let mut ops: IdMap<ImplOperation> = IdMap::new();
    std::mem::swap(&mut ops, &mut program.operations);
    let ghost okv = ops.kv();
    let mut entries = ops.into_entries();
    let ghost all = entries@;
    let n = entries.len();
    let mut out: IdMap<ImplOperation> = IdMap::new();
    let mut i: usize = 0;
    while entries.len() > 0
        invariant
            n == all.len(),
            sorted_kv(okv),
            all.map_values(|e: (String, ImplOperation)| (e.0@, e.1)) == okv,
            i <= all.len(),
            entries@ == all.skip(i as int),
            out.kv().len() == i,
            forall|j: int| 0 <= j < i ==> (#[trigger] out.kv()[j]).0 == okv[j].0 && op_swapped(okv[j].1, out.kv()[j].1, from@, to@),
        decreases entries@.len(),
    {
        let (k, op) = entries.remove(0);
        proof {
            assert(all[i as int] == (k, op));
            assert(okv[i as int] == (k@, op));
            assert(entries@ =~= all.skip(i + 1));
            if i > 0 {
                assert(out.kv().last().0 == okv[i - 1].0);
                assert(crate::text::seq_less(okv[i - 1].0, okv[i as int].0));
            }
        }
        let ghost prev = out.kv();
        out.push_ordered(k, swap_op(op, from, to));
        proof {
            assert forall|j: int| 0 <= j < i + 1 implies (#[trigger] out.kv()[j]).0 == okv[j].0 && op_swapped(okv[j].1, out.kv()[j].1, from@, to@) by {
                if j < i {
                    assert(out.kv()[j] == prev[j]);
                }
            }
        }
        i = i + 1;
    }
    program.operations = out;
    let mut outs: IdMap<ImplOutput> = IdMap::new();
    std::mem::swap(&mut outs, &mut program.outputs);
    let ghost ukv = outs.kv();
    let mut oentries = outs.into_entries();
    let ghost oall = oentries@;
    let no = oentries.len();
    let mut oout: IdMap<ImplOutput> = IdMap::new();
    let mut t: usize = 0;
    while oentries.len() > 0
        invariant
            no == oall.len(),
            sorted_kv(ukv),
            oall.map_values(|e: (String, ImplOutput)| (e.0@, e.1)) == ukv,
            t <= oall.len(),
            oentries@ == oall.skip(t as int),
            oout.kv().len() == t,
            program.values == p0.values,
            forall|j: int|
                0 <= j < t ==> (#[trigger] oout.kv()[j]).0 == ukv[j].0 && output_swapped(ukv[j].1, oout.kv()[j].1, p0.values@, from@, to@),
        decreases oentries@.len(),
    {
        let (k, output) = oentries.remove(0);
        proof {
            assert(oall[t as int] == (k, output));
            assert(ukv[t as int] == (k@, output));
            assert(oentries@ =~= oall.skip(t + 1));
            if t > 0 {
                assert(oout.kv().last().0 == ukv[t - 1].0);
                assert(crate::text::seq_less(ukv[t - 1].0, ukv[t as int].0));
            }
        }
        let ghost a = output;
        let swapped = if str_eq(output.value.as_str(), from) {
            let ty = match program.values.get(to) {
                Some(v) => v.ty.copy(),
                None => output.ty,
            };
            ImplOutput { name: output.name, value: String::from_str(to), ty }
        } else {
            output
        };
        let ghost prev = oout.kv();
        oout.push_ordered(k, swapped);
        proof {
            assert forall|j: int| 0 <= j < t + 1 implies (#[trigger] oout.kv()[j]).0 == ukv[j].0 && output_swapped(
                ukv[j].1,
                oout.kv()[j].1,
                p0.values@,
                from@,
                to@,
            ) by {
                if j < t {
                    assert(oout.kv()[j] == prev[j]);
                }
            }
        }
        t = t + 1;
    }
    program.outputs = oout;
}

} // verus!
