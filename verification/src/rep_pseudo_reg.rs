//! Stack-slot assignment: every pseudo-register operand is replaced by a
//! stack slot.
//!
//! A single pass walks the instructions in order; the first time a pseudo
//! name is met it is assigned the next 4-byte slot below the frame base
//! (the first at -4, the second at -8, and so on), and later occurrences
//! reuse that slot.  The pass returns the magnitude of the final depth: the
//! number of bytes the function must reserve, four per distinct name.
//!
//! The mapping is modelled as the sequence of (name, offset) pairs in
//! first-encounter order; [`lemma_stack_slot_assignment`] proves the sizing
//! facts: the depth is minus four times the number of entries, the entry
//! names are distinct and are exactly the pseudo names of the instruction
//! sequence, and every offset is a distinct negative multiple of four.

use vstd::prelude::*;

use crate::codegen::AInstr;
use crate::codegen::AInstrV;
use crate::codegen::AOprnd;
use crate::codegen::AOprndV;
use crate::codegen::AssemFuncDef;
use crate::codegen::AssemFuncDefV;
use crate::codegen::view_ainstrs;
use crate::codegen::view_ainstrs_len;
use crate::codegen::view_ainstrs_push;

verus! {

/// The allocation map: (pseudo name, stack offset) pairs in
/// first-encounter order.
pub type AddrMapV = Seq<(Seq<char>, int)>;

/// The offset assigned to `key`, if it has one.
pub open spec fn spec_lookup_addr(m: AddrMapV, key: Seq<char>) -> Option<int>
    decreases m.len(),
{
    if m.len() == 0 {
        None
    } else if m[0].0 == key {
        Some(m[0].1)
    } else {
        spec_lookup_addr(m.drop_first(), key)
    }
}

/// Replacing one operand: a known pseudo becomes its slot, a new pseudo is
/// assigned the next slot four bytes deeper, anything else is untouched.
pub open spec fn spec_rep_operand(o: AOprndV, m: AddrMapV, depth: int) -> (
    AOprndV,
    AddrMapV,
    int,
) {
    match o {
        AOprndV::Pseudo(name) => match spec_lookup_addr(m, name) {
            Some(off) => (AOprndV::Stack(off), m, depth),
            None => (AOprndV::Stack(depth - 4), m.push((name, depth - 4)), depth - 4),
        },
        _ => (o, m, depth),
    }
}

/// Replacing the operands of one instruction, left to right.
pub open spec fn spec_rep_instr(i: AInstrV, m: AddrMapV, depth: int) -> (AInstrV, AddrMapV, int) {
    match i {
        AInstrV::Mov(a, b) => {
            let (a2, m1, d1) = spec_rep_operand(a, m, depth);
            let (b2, m2, d2) = spec_rep_operand(b, m1, d1);
            (AInstrV::Mov(a2, b2), m2, d2)
        },
        AInstrV::Unary(op, a) => {
            let (a2, m1, d1) = spec_rep_operand(a, m, depth);
            (AInstrV::Unary(op, a2), m1, d1)
        },
        AInstrV::Binary(op, a, b) => {
            let (a2, m1, d1) = spec_rep_operand(a, m, depth);
            let (b2, m2, d2) = spec_rep_operand(b, m1, d1);
            (AInstrV::Binary(op, a2, b2), m2, d2)
        },
        AInstrV::Cmp(a, b) => {
            let (a2, m1, d1) = spec_rep_operand(a, m, depth);
            let (b2, m2, d2) = spec_rep_operand(b, m1, d1);
            (AInstrV::Cmp(a2, b2), m2, d2)
        },
        AInstrV::Idiv(a) => {
            let (a2, m1, d1) = spec_rep_operand(a, m, depth);
            (AInstrV::Idiv(a2), m1, d1)
        },
        AInstrV::SetCC(c, a) => {
            let (a2, m1, d1) = spec_rep_operand(a, m, depth);
            (AInstrV::SetCC(c, a2), m1, d1)
        },
        _ => (i, m, depth),
    }
}

/// Replacing a whole instruction sequence, threading the map and depth.
pub open spec fn spec_rep_instrs(s: Seq<AInstrV>, m: AddrMapV, depth: int) -> (
    Seq<AInstrV>,
    AddrMapV,
    int,
)
    decreases s.len(),
{
    if s.len() == 0 {
        (Seq::empty(), m, depth)
    } else {
        let (i2, m1, d1) = spec_rep_instr(s[0], m, depth);
        let (rest, mf, df) = spec_rep_instrs(s.drop_first(), m1, d1);
        (seq![i2] + rest, mf, df)
    }
}

/// Replacement neither adds nor removes instructions.
pub proof fn lemma_rep_instrs_len(s: Seq<AInstrV>, m: AddrMapV, depth: int)
    ensures
        spec_rep_instrs(s, m, depth).0.len() == s.len(),
    decreases s.len(),
{
    if s.len() > 0 {
        let (i2, m1, d1) = spec_rep_instr(s[0], m, depth);
        lemma_rep_instrs_len(s.drop_first(), m1, d1);
    }
}

/// The depth always mirrors the number of slots handed out.
pub open spec fn addr_wf(m: AddrMapV, depth: int) -> bool {
    depth == -4 * m.len()
}

/// The entry at index `i` owns the slot `-4 * (i + 1)`: offsets are handed
/// out four bytes apart, in first-encounter order.
pub open spec fn offsets_wf(m: AddrMapV) -> bool {
    forall|i: int| 0 <= i < m.len() ==> (#[trigger] m[i]).1 == -4 * (i + 1)
}

/// No pseudo name owns two entries.
pub open spec fn keys_distinct(m: AddrMapV) -> bool {
    forall|i: int, j: int|
        0 <= i < j < m.len() ==> (#[trigger] m[i]).0 != (#[trigger] m[j]).0
}

/// The pseudo names an operand mentions.
pub open spec fn operand_pseudos(o: AOprndV) -> Set<Seq<char>> {
    match o {
        AOprndV::Pseudo(name) => set![name],
        _ => Set::empty(),
    }
}

/// The pseudo names an instruction mentions.
pub open spec fn instr_pseudos(i: AInstrV) -> Set<Seq<char>> {
    match i {
        AInstrV::Mov(a, b) => operand_pseudos(a) + operand_pseudos(b),
        AInstrV::Unary(_, a) => operand_pseudos(a),
        AInstrV::Binary(_, a, b) => operand_pseudos(a) + operand_pseudos(b),
        AInstrV::Cmp(a, b) => operand_pseudos(a) + operand_pseudos(b),
        AInstrV::Idiv(a) => operand_pseudos(a),
        AInstrV::SetCC(_, a) => operand_pseudos(a),
        _ => Set::empty(),
    }
}

/// The pseudo names a whole instruction sequence mentions.
pub open spec fn pseudos_of(s: Seq<AInstrV>) -> Set<Seq<char>>
    decreases s.len(),
{
    if s.len() == 0 {
        Set::empty()
    } else {
        instr_pseudos(s[0]) + pseudos_of(s.drop_first())
    }
}

/// The set of names that own a slot.
pub open spec fn key_set(m: AddrMapV) -> Set<Seq<char>> {
    Set::new(|k: Seq<char>| exists|i: int| 0 <= i < m.len() && (#[trigger] m[i]).0 == k)
}

/// A name owns a slot exactly when the lookup finds one.
proof fn lemma_lookup_addr_key(m: AddrMapV, k: Seq<char>)
    ensures
        (spec_lookup_addr(m, k) is Some) <==> key_set(m).contains(k),
    decreases m.len(),
{
    if m.len() == 0 {
        assert(!key_set(m).contains(k));
    } else {
        lemma_lookup_addr_key(m.drop_first(), k);
        if m[0].0 == k {
            assert(key_set(m).contains(k));
        } else {
            assert(key_set(m.drop_first()).contains(k) ==> key_set(m).contains(k)) by {
                if key_set(m.drop_first()).contains(k) {
                    let i = choose|i: int|
                        0 <= i < m.drop_first().len() && m.drop_first()[i].0 == k;
                    assert(m[i + 1].0 == k);
                }
            }
            assert(key_set(m).contains(k) ==> key_set(m.drop_first()).contains(k)) by {
                if key_set(m).contains(k) {
                    let i = choose|i: int| 0 <= i < m.len() && m[i].0 == k;
                    assert(m.drop_first()[i - 1].0 == k);
                }
            }
        }
    }
}

/// Replacing one operand preserves the map invariants and records exactly
/// the operand's pseudo names.
proof fn lemma_rep_operand_props(o: AOprndV, m: AddrMapV, depth: int)
    requires
        addr_wf(m, depth),
        offsets_wf(m),
        keys_distinct(m),
    ensures
        addr_wf(spec_rep_operand(o, m, depth).1, spec_rep_operand(o, m, depth).2),
        offsets_wf(spec_rep_operand(o, m, depth).1),
        keys_distinct(spec_rep_operand(o, m, depth).1),
        key_set(spec_rep_operand(o, m, depth).1) == key_set(m) + operand_pseudos(o),
{
    match o {
        AOprndV::Pseudo(name) => {
            lemma_lookup_addr_key(m, name);
            match spec_lookup_addr(m, name) {
                Some(_) => {
                    assert(key_set(m) + operand_pseudos(o) =~= key_set(m));
                },
                None => {
                    let m2 = m.push((name, depth - 4));
                    assert(keys_distinct(m2)) by {
                        assert(forall|i: int|
                            0 <= i < m.len() ==> (#[trigger] m2[i]).0 == m[i].0);
                        assert(!key_set(m).contains(name));
                    }
                    assert(key_set(m2) =~= key_set(m) + operand_pseudos(o)) by {
                        assert forall|k: Seq<char>| #[trigger]
                            key_set(m2).contains(k) implies (key_set(m)
                            + operand_pseudos(o)).contains(k) by {
                            let i = choose|i: int| 0 <= i < m2.len() && m2[i].0 == k;
                            if i < m.len() {
                                assert(m[i].0 == k);
                            }
                        }
                        assert forall|k: Seq<char>| (key_set(m) + operand_pseudos(o)).contains(
                            k,
                        ) implies #[trigger] key_set(m2).contains(k) by {
                            if key_set(m).contains(k) {
                                let i = choose|i: int| 0 <= i < m.len() && m[i].0 == k;
                                assert(m2[i].0 == k);
                            } else {
                                assert(m2[m.len() as int].0 == k);
                            }
                        }
                    }
                },
            }
        },
        _ => {
            assert(key_set(m) + operand_pseudos(o) =~= key_set(m));
        },
    }
}

/// Replacing one instruction preserves the map invariants and records
/// exactly its pseudo names.
proof fn lemma_rep_instr_props(i: AInstrV, m: AddrMapV, depth: int)
    requires
        addr_wf(m, depth),
        offsets_wf(m),
        keys_distinct(m),
    ensures
        addr_wf(spec_rep_instr(i, m, depth).1, spec_rep_instr(i, m, depth).2),
        offsets_wf(spec_rep_instr(i, m, depth).1),
        keys_distinct(spec_rep_instr(i, m, depth).1),
        key_set(spec_rep_instr(i, m, depth).1) == key_set(m) + instr_pseudos(i),
{
    match i {
        AInstrV::Mov(a, b) | AInstrV::Binary(_, a, b) | AInstrV::Cmp(a, b) => {
            let (a2, m1, d1) = spec_rep_operand(a, m, depth);
            lemma_rep_operand_props(a, m, depth);
            lemma_rep_operand_props(b, m1, d1);
            assert(key_set(m) + operand_pseudos(a) + operand_pseudos(b) =~= key_set(m)
                + instr_pseudos(i));
        },
        AInstrV::Unary(_, a) | AInstrV::Idiv(a) | AInstrV::SetCC(_, a) => {
            lemma_rep_operand_props(a, m, depth);
        },
        _ => {
            assert(key_set(m) + instr_pseudos(i) =~= key_set(m));
        },
    }
}

/// Replacing a whole sequence preserves the map invariants and records
/// exactly its pseudo names.
proof fn lemma_rep_instrs_props(s: Seq<AInstrV>, m: AddrMapV, depth: int)
    requires
        addr_wf(m, depth),
        offsets_wf(m),
        keys_distinct(m),
    ensures
        addr_wf(spec_rep_instrs(s, m, depth).1, spec_rep_instrs(s, m, depth).2),
        offsets_wf(spec_rep_instrs(s, m, depth).1),
        keys_distinct(spec_rep_instrs(s, m, depth).1),
        key_set(spec_rep_instrs(s, m, depth).1) == key_set(m) + pseudos_of(s),
    decreases s.len(),
{
    if s.len() == 0 {
        assert(key_set(m) + pseudos_of(s) =~= key_set(m));
    } else {
        let (i2, m1, d1) = spec_rep_instr(s[0], m, depth);
        lemma_rep_instr_props(s[0], m, depth);
        lemma_rep_instrs_props(s.drop_first(), m1, d1);
        assert(key_set(m) + instr_pseudos(s[0]) + pseudos_of(s.drop_first()) =~= key_set(m)
            + pseudos_of(s));
    }
}

/// Stack sizing: running the pass from an empty map assigns slots to
/// exactly the distinct pseudo names of the sequence, one entry each; the
/// final depth is minus four bytes per entry, and each entry's offset is a
/// distinct negative multiple of four, the entry at index `i` owning
/// `-4 * (i + 1)`.
pub proof fn lemma_stack_slot_assignment(s: Seq<AInstrV>)
    ensures
        ({
            let (s2, mf, df) = spec_rep_instrs(s, Seq::empty(), 0);
            &&& df == -4 * mf.len()
            &&& offsets_wf(mf)
            &&& keys_distinct(mf)
            &&& key_set(mf) == pseudos_of(s)
            &&& forall|i: int, j: int|
                0 <= i < j < mf.len() ==> (#[trigger] mf[i]).1 != (#[trigger] mf[j]).1
        }),
{
    lemma_rep_instrs_props(s, Seq::empty(), 0);
    let (s2, mf, df) = spec_rep_instrs(s, Seq::empty(), 0);
    assert(key_set(Seq::empty()) + pseudos_of(s) =~= pseudos_of(s));
}

/// The view of the executable allocation vector.
pub open spec fn view_addrs(m: Seq<(String, i32)>) -> AddrMapV {
    m.map(|i: int, p: (String, i32)| (p.0@, p.1 as int))
}

/// Looks a pseudo name up in the allocation map.
fn lookup_addr(var_addresses: &Vec<(String, i32)>, key: &String) -> (r: Option<i32>)
    ensures
        match r {
            Some(off) => spec_lookup_addr(view_addrs(var_addresses@), key@) == Some(off as int),
            None => spec_lookup_addr(view_addrs(var_addresses@), key@) is None,
        },
{
    proof {
        assert(view_addrs(var_addresses@).skip(0) =~= view_addrs(var_addresses@));
    }
    let mut i: usize = 0;
    while i < var_addresses.len()
        invariant
            i <= var_addresses@.len(),
            spec_lookup_addr(view_addrs(var_addresses@), key@) == spec_lookup_addr(
                view_addrs(var_addresses@).skip(i as int),
                key@,
            ),
        decreases var_addresses@.len() - i,
    {
        proof {
            assert(view_addrs(var_addresses@).skip(i as int).drop_first() =~= view_addrs(
                var_addresses@,
            ).skip(i as int + 1));
        }
        if var_addresses[i].0 == *key {
            return Some(var_addresses[i].1);
        }
        i = i + 1;
    }
    None
}

/// Replaces one operand, assigning a new slot on a first encounter.
fn check_operand(
    op: AOprnd,
    var_addresses: &mut Vec<(String, i32)>,
    depth: &mut i32,
) -> (r: AOprnd)
    requires
        addr_wf(view_addrs(old(var_addresses)@), *old(depth) as int),
        old(var_addresses)@.len() < 0x1000_0000,
    ensures
        addr_wf(view_addrs(final(var_addresses)@), *final(depth) as int),
        final(var_addresses)@.len() <= old(var_addresses)@.len() + 1,
        (r@, view_addrs(final(var_addresses)@), *final(depth) as int) == spec_rep_operand(
            op@,
            view_addrs(old(var_addresses)@),
            *old(depth) as int,
        ),
{
    match op {
        AOprnd::Pseudo(val) => {
            match lookup_addr(var_addresses, &val) {
                Some(off) => {
                    proof {
                        assert((
                            AOprndV::Stack(off as int),
                            view_addrs(var_addresses@),
                            *depth as int,
                        ) == spec_rep_operand(
                            AOprndV::Pseudo(val@),
                            view_addrs(old(var_addresses)@),
                            *old(depth) as int,
                        ));
                    }
                    AOprnd::Stack(off)
                },
                None => {
                    let ghost valv = val@;
                    *depth = *depth - 4;
                    let slot: i32 = *depth;
                    var_addresses.push((val, slot));
                    proof {
                        assert(view_addrs(var_addresses@) =~= view_addrs(old(var_addresses)@).push(
                            (valv, slot as int),
                        ));
                    }
                    AOprnd::Stack(slot)
                },
            }
        },
        _ => op,
    }
}

/// Replaces the operands of one instruction.
fn check_instruction(
    instr: AInstr,
    var_addresses: &mut Vec<(String, i32)>,
    depth: &mut i32,
) -> (r: AInstr)
    requires
        addr_wf(view_addrs(old(var_addresses)@), *old(depth) as int),
        old(var_addresses)@.len() + 2 < 0x1000_0000,
    ensures
        addr_wf(view_addrs(final(var_addresses)@), *final(depth) as int),
        final(var_addresses)@.len() <= old(var_addresses)@.len() + 2,
        (r@, view_addrs(final(var_addresses)@), *final(depth) as int) == spec_rep_instr(
            instr@,
            view_addrs(old(var_addresses)@),
            *old(depth) as int,
        ),
{
    match instr {
        AInstr::Mov(src, dst) => {
            let src2 = check_operand(src, var_addresses, depth);
            let dst2 = check_operand(dst, var_addresses, depth);
            AInstr::Mov(src2, dst2)
        },
        AInstr::Unary(op, a) => {
            let a2 = check_operand(a, var_addresses, depth);
            AInstr::Unary(op, a2)
        },
        AInstr::Binary(op, a, b) => {
            let a2 = check_operand(a, var_addresses, depth);
            let b2 = check_operand(b, var_addresses, depth);
            AInstr::Binary(op, a2, b2)
        },
        AInstr::Cmp(a, b) => {
            let a2 = check_operand(a, var_addresses, depth);
            let b2 = check_operand(b, var_addresses, depth);
            AInstr::Cmp(a2, b2)
        },
        AInstr::Idiv(a) => {
            let a2 = check_operand(a, var_addresses, depth);
            AInstr::Idiv(a2)
        },
        AInstr::SetCC(c, a) => {
            let a2 = check_operand(a, var_addresses, depth);
            AInstr::SetCC(c, a2)
        },
        other => other,
    }
}

/// Replaces the operands of every instruction, in order.
#[verifier::loop_isolation(false)]
fn check_instructions(
    instrs: &mut Vec<AInstr>,
    var_addresses: &mut Vec<(String, i32)>,
    depth: &mut i32,
)
    requires
        addr_wf(view_addrs(old(var_addresses)@), *old(depth) as int),
        old(var_addresses)@.len() + 2 * old(instrs)@.len() < 0x1000_0000,
    ensures
        addr_wf(view_addrs(final(var_addresses)@), *final(depth) as int),
        final(var_addresses)@.len() <= old(var_addresses)@.len() + 2 * old(instrs)@.len(),
        (
            view_ainstrs(final(instrs)@),
            view_addrs(final(var_addresses)@),
            *final(depth) as int,
        ) == spec_rep_instrs(
            view_ainstrs(old(instrs)@),
            view_addrs(old(var_addresses)@),
            *old(depth) as int,
        ),
{
    let ghost all = view_ainstrs(old(instrs)@);
    let ghost m0 = view_addrs(old(var_addresses)@);
    let ghost d0 = *old(depth) as int;
    proof {
        assert(all.skip(0) =~= all);
    }
    let mut i: usize = 0;
    while i < instrs.len()
        invariant
            i <= instrs@.len(),
            instrs@.len() == old(instrs)@.len(),
            forall|k: int| i <= k < instrs@.len() ==> instrs@[k] == old(instrs)@[k],
            addr_wf(view_addrs(var_addresses@), *depth as int),
            var_addresses@.len() <= m0.len() + 2 * i,
            ({
                let done = view_ainstrs(instrs@.take(i as int));
                let (rest, mf, df) = spec_rep_instrs(
                    all.skip(i as int),
                    view_addrs(var_addresses@),
                    *depth as int,
                );
                spec_rep_instrs(all, m0, d0) == (done + rest, mf, df)
            }),
        decreases instrs@.len() - i,
    {
        proof {
            assert(all.skip(i as int)[0] == old(instrs)@[i as int]@);
            assert(all.skip(i as int).drop_first() =~= all.skip(i as int + 1));
        }
        let ghost pre_instrs = instrs@;
        let current = instrs[i].clone();
        let replaced = check_instruction(current, var_addresses, depth);
        instrs.set(i, replaced);
        i = i + 1;
        proof {
            assert(view_ainstrs(instrs@.take(i as int)) =~= view_ainstrs(
                pre_instrs.take(i as int - 1),
            ).push(instrs@[i as int - 1]@));
            let (rest, mf, df) = spec_rep_instrs(
                all.skip(i as int),
                view_addrs(var_addresses@),
                *depth as int,
            );
            assert(view_ainstrs(pre_instrs.take(i as int - 1)) + (seq![
                instrs@[i as int - 1]@,
            ] + rest) =~= view_ainstrs(instrs@.take(i as int)) + rest);
        }
    }
    proof {
        assert(all.skip(instrs@.len() as int) =~= Seq::<AInstrV>::empty());
        assert(instrs@.take(instrs@.len() as int) =~= instrs@);
        assert(view_ainstrs(instrs@) + Seq::<AInstrV>::empty() =~= view_ainstrs(instrs@));
    }
}

/// Replaces the pseudo-registers of a whole function.
fn check_func(ast: &mut AssemFuncDef, var_addresses: &mut Vec<(String, i32)>, depth: &mut i32)
    requires
        addr_wf(view_addrs(old(var_addresses)@), *old(depth) as int),
        ({
            match old(ast)@ {
                AssemFuncDefV::Function(_, instrs) => old(var_addresses)@.len() + 2 * instrs.len()
                    < 0x1000_0000,
            }
        }),
    ensures
        addr_wf(view_addrs(final(var_addresses)@), *final(depth) as int),
        ({
            match old(ast)@ {
                AssemFuncDefV::Function(_, instrs) => final(var_addresses)@.len() <= old(
                    var_addresses,
                )@.len() + 2 * instrs.len(),
            }
        }),
        ({
            match old(ast)@ {
                AssemFuncDefV::Function(name, instrs) => {
                    let (rest, mf, df) = spec_rep_instrs(
                        instrs,
                        view_addrs(old(var_addresses)@),
                        *old(depth) as int,
                    );
                    final(ast)@ == AssemFuncDefV::Function(name, rest) && view_addrs(
                        final(var_addresses)@,
                    ) == mf && *final(depth) as int == df
                },
            }
        }),
{
    match ast {
        AssemFuncDef::Function(_, instrs) => check_instructions(instrs, var_addresses, depth),
    }
}

/// Assigns every pseudo-register its stack slot and returns the number of
/// bytes of stack the function needs: four for each distinct name, as
/// [`spec_rep_instrs`] from an empty map describes.
pub fn rep_pseudo_regs(ast: &mut AssemFuncDef) -> (r: i32)
    requires
        ({
            match old(ast)@ {
                AssemFuncDefV::Function(_, instrs) => instrs.len() < 0x0400_0000,
            }
        }),
    ensures
        ({
            match old(ast)@ {
                AssemFuncDefV::Function(name, instrs) => {
                    let (rest, mf, df) = spec_rep_instrs(instrs, Seq::empty(), 0);
                    final(ast)@ == AssemFuncDefV::Function(name, rest) && r as int == -df
                },
            }
        }),
{
    let mut var_addresses: Vec<(String, i32)> = Vec::new();
    let mut depth: i32 = 0;
    proof {
        assert(view_addrs(var_addresses@) =~= Seq::<(Seq<char>, int)>::empty());
    }
    check_func(ast, &mut var_addresses, &mut depth);
    proof {
        assert(depth as int == -4 * view_addrs(var_addresses@).len());
        assert(view_addrs(var_addresses@).len() <= 2 * 0x0400_0000);
    }
    if depth < 0 {
        -depth
    } else {
        depth
    }
}

} // verus!
