//! The translator's global guarantees: generated labels never collide
//! across a run, and the emitted push/pop templates leave the machine's
//! memory unchanged except for the transferred value.
use vstd::prelude::*;
use crate::instr::{run_instrs, run_from, step, lemma_run_append, MachState, InstrV};
use crate::prelude::{Direction, ExternalName, InternalName, Segment};
use crate::templates::{
    call_instrs, cmp_finish_label, cmp_true_label, declare_instrs, push_from_d, push_pop_body,
    push_pop_instrs, ret_label, return_instrs, sp_dec_load, static_sym,
};
use crate::text::{
    dec_digits, lemma_dec_digits_all_digits, lemma_dec_digits_injective, lemma_dec_digits_len,
    lemma_dot_split_unique,
};

verus! {

proof fn lemma_append_cancel_left(p: Seq<char>, d1: Seq<char>, d2: Seq<char>)
    requires
        p + d1 == p + d2,
    ensures
        d1 == d2,
{
    assert((p + d1).len() == p.len() + d1.len());
    assert((p + d2).len() == p.len() + d2.len());
    assert(d1.len() == d2.len());
    assert forall|i: int| 0 <= i < d1.len() implies d1[i] == d2[i] by {
        assert((p + d1)[p.len() + i] == d1[i]);
        assert((p + d2)[p.len() + i] == d2[i]);
    }
    assert(d1 =~= d2);
}

/// Law: two comparison instructions never share a branch label. The
/// emitter gives every comparison a fresh counter value, and distinct
/// counter values give pairwise distinct true and finish labels.
pub proof fn lemma_cmp_labels_distinct(c1: nat, c2: nat)
    requires
        c1 != c2,
    ensures
        cmp_true_label(c1) != cmp_true_label(c2),
        cmp_finish_label(c1) != cmp_finish_label(c2),
        cmp_true_label(c1) != cmp_finish_label(c2),
{
    reveal_strlit("CON_TRUE_");
    reveal_strlit("CON_FINISH_");
    if cmp_true_label(c1) == cmp_true_label(c2) {
        lemma_append_cancel_left("CON_TRUE_"@, dec_digits(c1), dec_digits(c2));
        lemma_dec_digits_injective(c1, c2);
    }
    if cmp_finish_label(c1) == cmp_finish_label(c2) {
        lemma_append_cancel_left("CON_FINISH_"@, dec_digits(c1), dec_digits(c2));
        lemma_dec_digits_injective(c1, c2);
    }
    if cmp_true_label(c1) == cmp_finish_label(c2) {
        assert(cmp_true_label(c1)[4] == 'T');
        assert(cmp_finish_label(c2)[4] == 'F');
    }
}

/// A true label and a finish label of any two comparison sites differ.
pub proof fn lemma_cmp_label_kinds_distinct(c1: nat, c2: nat)
    ensures
        cmp_true_label(c1) != cmp_finish_label(c2),
{
    reveal_strlit("CON_TRUE_");
    reveal_strlit("CON_FINISH_");
    assert(cmp_true_label(c1)[4] == 'T');
    assert(cmp_finish_label(c2)[4] == 'F');
}

/// Law: two call sites never share a return-address label. The emitter
/// gives every call a fresh counter value, and distinct counter values
/// give distinct return labels whatever the two callees are named.
pub proof fn lemma_ret_labels_distinct(f1: Seq<char>, k1: nat, f2: Seq<char>, k2: nat)
    requires
        k1 != k2,
    ensures
        ret_label(f1, k1) != ret_label(f2, k2),
{
    reveal_strlit(".ret.");
    reveal_strlit(".ret");
    reveal_strlit(".");
    if ret_label(f1, k1) == ret_label(f2, k2) {
        assert(f1 + ".ret."@ + dec_digits(k1) =~= (f1 + ".ret"@) + seq!['.'] + dec_digits(k1));
        assert(f2 + ".ret."@ + dec_digits(k2) =~= (f2 + ".ret"@) + seq!['.'] + dec_digits(k2));
        lemma_dec_digits_all_digits(k1);
        lemma_dec_digits_all_digits(k2);
        lemma_dec_digits_len(k1);
        lemma_dec_digits_len(k2);
        lemma_dot_split_unique(f1 + ".ret"@, dec_digits(k1), f2 + ".ret"@, dec_digits(k2));
        lemma_dec_digits_injective(k1, k2);
    }
}

/// Law: `static` cells from different translation units, or with
/// different indices, resolve to distinct qualified symbols, so statics
/// of one unit can never collide with statics of another.
pub proof fn lemma_static_syms_distinct(u1: Seq<char>, i1: u32, u2: Seq<char>, i2: u32)
    requires
        u1 != u2 || i1 != i2,
    ensures
        static_sym(u1, i1) != static_sym(u2, i2),
{
    reveal_strlit(".");
    if static_sym(u1, i1) == static_sym(u2, i2) {
        assert(u1 + "."@ + dec_digits(i1 as nat) =~= u1 + seq!['.'] + dec_digits(i1 as nat));
        assert(u2 + "."@ + dec_digits(i2 as nat) =~= u2 + seq!['.'] + dec_digits(i2 as nat));
        lemma_dec_digits_all_digits(i1 as nat);
        lemma_dec_digits_all_digits(i2 as nat);
        lemma_dec_digits_len(i1 as nat);
        lemma_dec_digits_len(i2 as nat);
        lemma_dot_split_unique(u1, dec_digits(i1 as nat), u2, dec_digits(i2 as nat));
        lemma_dec_digits_injective(i1 as nat, i2 as nat);
    }
}

// ------------------------------------------------------------------
// The push-then-pop law
// ------------------------------------------------------------------

/// The register cell holding an internal segment's base address.
pub open spec fn seg_ptr_addr(p: InternalName) -> int {
    match p {
        InternalName::Local => 1,
        InternalName::Argument => 2,
        InternalName::This => 3,
        InternalName::That => 4,
    }
}

/// The memory cell a push or pop instruction transfers to or from.
pub open spec fn pushpop_target(
    env: Map<Seq<char>, int>,
    s: MachState,
    seg: Segment,
    idx: u32,
    unit: Seq<char>,
) -> int {
    match seg {
        Segment::Internal(p) => s.ram[seg_ptr_addr(p)] + idx,
        Segment::External(ExternalName::Temp) => 5 + idx,
        Segment::External(ExternalName::Pointer) => if idx == 1 { 4 } else { 3 },
        Segment::External(ExternalName::Static) => env[static_sym(unit, idx)],
        Segment::External(ExternalName::Constant) => 0,
    }
}

/// The machine's memory holds a value at every address.
pub open spec fn ram_total(s: MachState) -> bool {
    forall|a: int| s.ram.dom().contains(a)
}

proof fn lemma_run_push_from_d(env: Map<Seq<char>, int>, s: MachState)
    requires
        ram_total(s),
        s.ram[0] != 0,
    ensures
        run_instrs(env, s, push_from_d()) == (MachState {
            a: 0,
            d: s.d,
            ram: s.ram.insert(s.ram[0], s.d).insert(0, s.ram[0] + 1),
        }),
{
    let q = push_from_d();
    let s1 = step(env, s, q[0]);
    let s2 = step(env, s1, q[1]);
    let s3 = step(env, s2, q[2]);
    let s4 = step(env, s3, q[3]);
    let s5 = step(env, s4, q[4]);
    assert(run_from(env, s, q, 0) == run_from(env, s1, q, 1));
    assert(run_from(env, s1, q, 1) == run_from(env, s2, q, 2));
    assert(run_from(env, s2, q, 2) == run_from(env, s3, q, 3));
    assert(run_from(env, s3, q, 3) == run_from(env, s4, q, 4));
    assert(run_from(env, s4, q, 4) == run_from(env, s5, q, 5));
    assert(run_from(env, s5, q, 5) == s5);
    assert(s5.ram =~= s.ram.insert(s.ram[0], s.d).insert(0, s.ram[0] + 1));
}

proof fn lemma_run_sp_dec_load(env: Map<Seq<char>, int>, s: MachState)
    requires
        ram_total(s),
        s.ram[0] != 1,
    ensures
        run_instrs(env, s, sp_dec_load()) == (MachState {
            a: s.ram[0] - 1,
            d: s.ram[s.ram[0] - 1],
            ram: s.ram.insert(0, s.ram[0] - 1),
        }),
{
    let q = sp_dec_load();
    let s1 = step(env, s, q[0]);
    let s2 = step(env, s1, q[1]);
    let s3 = step(env, s2, q[2]);
    let s4 = step(env, s3, q[3]);
    assert(run_from(env, s, q, 0) == run_from(env, s1, q, 1));
    assert(run_from(env, s1, q, 1) == run_from(env, s2, q, 2));
    assert(run_from(env, s2, q, 2) == run_from(env, s3, q, 3));
    assert(run_from(env, s3, q, 3) == run_from(env, s4, q, 4));
    assert(run_from(env, s4, q, 4) == s4);
}

/// The data effect of one whole emitted push block.
proof fn lemma_run_push(
    env: Map<Seq<char>, int>,
    s: MachState,
    seg: Segment,
    idx: u32,
    unit: Seq<char>,
)
    requires
        ram_total(s),
        seg != Segment::External(ExternalName::Constant),
        s.ram[0] != 0,
        pushpop_target(env, s, seg, idx, unit) != 0,
        s.ram[0] != pushpop_target(env, s, seg, idx, unit),
        seg matches Segment::Internal(p) ==> s.ram[0] != seg_ptr_addr(p)
            && pushpop_target(env, s, seg, idx, unit) != seg_ptr_addr(p),
    ensures
        run_instrs(env, s, push_pop_instrs(Direction::Push, seg, idx, unit)).ram =~= s.ram.insert(
            s.ram[0],
            s.ram[pushpop_target(env, s, seg, idx, unit)],
        ).insert(0, s.ram[0] + 1),
{
    let sp = s.ram[0];
    let t = pushpop_target(env, s, seg, idx, unit);
    let whole = push_pop_instrs(Direction::Push, seg, idx, unit);
    let body = push_pop_body(Direction::Push, seg, idx, unit);
    let cseq = seq![crate::templates::cmt(crate::templates::pushpop_comment(Direction::Push, seg, idx))];
    assert(whole == cseq + body);
    lemma_run_append(env, s, cseq, body);
    assert(run_from(env, s, cseq, 0) == run_from(env, step(env, s, cseq[0]), cseq, 1));
    assert(run_instrs(env, s, cseq) == s);
    match seg {
        Segment::Internal(p) => {
            let pa = seg_ptr_addr(p);
            let b = s.ram[pa];
            let h = seq![
                crate::templates::at_num(idx as int),
                crate::templates::asn(crate::instr::Dest::D, crate::instr::Comp::A),
                crate::templates::at(crate::templates::seg_ptr(p)),
                crate::templates::asn(crate::instr::Dest::M, crate::instr::Comp::MPlusD),
                crate::templates::asn(crate::instr::Dest::A, crate::instr::Comp::M),
                crate::templates::asn(crate::instr::Dest::D, crate::instr::Comp::M),
            ];
            let tl = seq![
                crate::templates::at_num(idx as int),
                crate::templates::asn(crate::instr::Dest::D, crate::instr::Comp::A),
                crate::templates::at(crate::templates::seg_ptr(p)),
                crate::templates::asn(crate::instr::Dest::M, crate::instr::Comp::MMinusD),
            ];
            assert(body == (h + push_from_d()) + tl);
            lemma_run_append(env, s, h + push_from_d(), tl);
            lemma_run_append(env, s, h, push_from_d());
            // the head: compute the effective address, read the cell
            let s1 = step(env, s, h[0]);
            let s2 = step(env, s1, h[1]);
            let s3 = step(env, s2, h[2]);
            let s4 = step(env, s3, h[3]);
            let s5 = step(env, s4, h[4]);
            let s6 = step(env, s5, h[5]);
            assert(run_from(env, s, h, 0) == run_from(env, s1, h, 1));
            assert(run_from(env, s1, h, 1) == run_from(env, s2, h, 2));
            assert(run_from(env, s2, h, 2) == run_from(env, s3, h, 3));
            assert(run_from(env, s3, h, 3) == run_from(env, s4, h, 4));
            assert(run_from(env, s4, h, 4) == run_from(env, s5, h, 5));
            assert(run_from(env, s5, h, 5) == run_from(env, s6, h, 6));
            assert(run_from(env, s6, h, 6) == s6);
            assert(at_addr_of(env, p) == pa);
            assert(s4.ram == s.ram.insert(pa, b + idx));
            assert(s6.a == b + idx);
            assert(s6.d == s.ram[t]);
            // the push of the data register
            lemma_run_push_from_d(env, s6);
            let s7 = run_instrs(env, s6, push_from_d());
            assert(s7.ram == s.ram.insert(pa, b + idx).insert(sp, s.ram[t]).insert(0, sp + 1));
            // the tail: restore the base pointer
            let r1 = step(env, s7, tl[0]);
            let r2 = step(env, r1, tl[1]);
            let r3 = step(env, r2, tl[2]);
            let r4 = step(env, r3, tl[3]);
            assert(run_from(env, s7, tl, 0) == run_from(env, r1, tl, 1));
            assert(run_from(env, r1, tl, 1) == run_from(env, r2, tl, 2));
            assert(run_from(env, r2, tl, 2) == run_from(env, r3, tl, 3));
            assert(run_from(env, r3, tl, 3) == run_from(env, r4, tl, 4));
            assert(run_from(env, r4, tl, 4) == r4);
            assert(s7.ram[pa] == b + idx);
            assert(r4.ram =~= s.ram.insert(sp, s.ram[t]).insert(0, sp + 1));
        },
        Segment::External(_) => {
            let h = body.take(2);
            assert(body == h + push_from_d());
            lemma_run_append(env, s, h, push_from_d());
            let s1 = step(env, s, h[0]);
            let s2 = step(env, s1, h[1]);
            assert(run_from(env, s, h, 0) == run_from(env, s1, h, 1));
            assert(run_from(env, s1, h, 1) == run_from(env, s2, h, 2));
            assert(run_from(env, s2, h, 2) == s2);
            assert(s2.ram == s.ram);
            assert(s2.d == s.ram[t]);
            assert(s2.ram[0] == sp);
            lemma_run_push_from_d(env, s2);
            assert(run_instrs(env, s2, push_from_d()).ram =~= s.ram.insert(sp, s.ram[t]).insert(
                0,
                sp + 1,
            ));
        },
    }
}

/// The register an internal-segment address load resolves to.
pub open spec fn at_addr_of(env: Map<Seq<char>, int>, p: InternalName) -> int {
    crate::instr::at_addr(env, crate::templates::seg_ptr(p))
}

/// The data effect of one whole emitted pop block.
proof fn lemma_run_pop(
    env: Map<Seq<char>, int>,
    s: MachState,
    seg: Segment,
    idx: u32,
    unit: Seq<char>,
)
    requires
        ram_total(s),
        seg != Segment::External(ExternalName::Constant),
        s.ram[0] != 1,
        pushpop_target(env, s, seg, idx, unit) != 0,
        s.ram[0] - 1 != pushpop_target(env, s, seg, idx, unit),
        s.ram[0] - 1 != 0,
        seg matches Segment::Internal(p) ==> s.ram[0] - 1 != seg_ptr_addr(p)
            && pushpop_target(env, s, seg, idx, unit) != seg_ptr_addr(p),
    ensures
        run_instrs(env, s, push_pop_instrs(Direction::Pop, seg, idx, unit)).ram =~= s.ram.insert(
            pushpop_target(env, s, seg, idx, unit),
            s.ram[s.ram[0] - 1],
        ).insert(0, s.ram[0] - 1),
{
    let sp = s.ram[0];
    let t = pushpop_target(env, s, seg, idx, unit);
    let v = s.ram[sp - 1];
    let whole = push_pop_instrs(Direction::Pop, seg, idx, unit);
    let body = push_pop_body(Direction::Pop, seg, idx, unit);
    let cseq = seq![crate::templates::cmt(crate::templates::pushpop_comment(Direction::Pop, seg, idx))];
    assert(whole == cseq + body);
    lemma_run_append(env, s, cseq, body);
    assert(run_from(env, s, cseq, 0) == run_from(env, step(env, s, cseq[0]), cseq, 1));
    assert(run_instrs(env, s, cseq) == s);
    match seg {
        Segment::Internal(p) => {
            let pa = seg_ptr_addr(p);
            let b = s.ram[pa];
            let h = seq![
                crate::templates::at_num(idx as int),
                crate::templates::asn(crate::instr::Dest::D, crate::instr::Comp::A),
                crate::templates::at(crate::templates::seg_ptr(p)),
                crate::templates::asn(crate::instr::Dest::M, crate::instr::Comp::MPlusD),
            ];
            let tl = seq![
                crate::templates::at(crate::templates::seg_ptr(p)),
                crate::templates::asn(crate::instr::Dest::A, crate::instr::Comp::M),
                crate::templates::asn(crate::instr::Dest::M, crate::instr::Comp::D),
                crate::templates::at_num(idx as int),
                crate::templates::asn(crate::instr::Dest::D, crate::instr::Comp::A),
                crate::templates::at(crate::templates::seg_ptr(p)),
                crate::templates::asn(crate::instr::Dest::M, crate::instr::Comp::MMinusD),
            ];
            assert(body == (h + sp_dec_load()) + tl);
            lemma_run_append(env, s, h + sp_dec_load(), tl);
            lemma_run_append(env, s, h, sp_dec_load());
            // the head: displace the base pointer by the index
            let s1 = step(env, s, h[0]);
            let s2 = step(env, s1, h[1]);
            let s3 = step(env, s2, h[2]);
            let s4 = step(env, s3, h[3]);
            assert(run_from(env, s, h, 0) == run_from(env, s1, h, 1));
            assert(run_from(env, s1, h, 1) == run_from(env, s2, h, 2));
            assert(run_from(env, s2, h, 2) == run_from(env, s3, h, 3));
            assert(run_from(env, s3, h, 3) == run_from(env, s4, h, 4));
            assert(run_from(env, s4, h, 4) == s4);
            assert(s4.ram == s.ram.insert(pa, b + idx));
            // pop the value into the data register
            assert(s4.ram[0] == sp);
            lemma_run_sp_dec_load(env, s4);
            let s5 = run_instrs(env, s4, sp_dec_load());
            assert(s5.d == v);
            assert(s5.ram == s.ram.insert(pa, b + idx).insert(0, sp - 1));
            // the tail: write through the displaced base, then restore it
            let r1 = step(env, s5, tl[0]);
            let r2 = step(env, r1, tl[1]);
            let r3 = step(env, r2, tl[2]);
            let r4 = step(env, r3, tl[3]);
            let r5 = step(env, r4, tl[4]);
            let r6 = step(env, r5, tl[5]);
            let r7 = step(env, r6, tl[6]);
            assert(run_from(env, s5, tl, 0) == run_from(env, r1, tl, 1));
            assert(run_from(env, r1, tl, 1) == run_from(env, r2, tl, 2));
            assert(run_from(env, r2, tl, 2) == run_from(env, r3, tl, 3));
            assert(run_from(env, r3, tl, 3) == run_from(env, r4, tl, 4));
            assert(run_from(env, r4, tl, 4) == run_from(env, r5, tl, 5));
            assert(run_from(env, r5, tl, 5) == run_from(env, r6, tl, 6));
            assert(run_from(env, r6, tl, 6) == run_from(env, r7, tl, 7));
            assert(run_from(env, r7, tl, 7) == r7);
            assert(r2.a == b + idx);
            assert(r3.ram == s.ram.insert(pa, b + idx).insert(0, sp - 1).insert(t, v));
            assert(r7.ram =~= s.ram.insert(t, v).insert(0, sp - 1));
        },
        Segment::External(_) => {
            let tl = body.skip(4);
            assert(body == sp_dec_load() + tl);
            lemma_run_append(env, s, sp_dec_load(), tl);
            lemma_run_sp_dec_load(env, s);
            let s1 = run_instrs(env, s, sp_dec_load());
            assert(s1.d == v);
            assert(s1.ram == s.ram.insert(0, sp - 1));
            let r1 = step(env, s1, tl[0]);
            let r2 = step(env, r1, tl[1]);
            assert(run_from(env, s1, tl, 0) == run_from(env, r1, tl, 1));
            assert(run_from(env, r1, tl, 1) == run_from(env, r2, tl, 2));
            assert(run_from(env, r2, tl, 2) == r2);
            assert(r1.a == t);
            assert(r2.ram =~= s.ram.insert(t, v).insert(0, sp - 1));
        },
    }
}

/// Law: emitting a push and then an immediate pop of the same segment and
/// index is a net no-op on every memory cell except the cell at the old
/// stack top, which ends holding the transferred value, while the
/// stack-top pointer itself returns to its original value. The
/// distinctness preconditions say that the stack top, the reserved
/// pointer registers and the transfer target are distinct cells, as they
/// are in the machine's real memory layout; `constant` is excluded
/// because it is an immediate, push-only segment.
pub proof fn lemma_push_then_pop_net_noop(
    env: Map<Seq<char>, int>,
    s: MachState,
    seg: Segment,
    idx: u32,
    unit: Seq<char>,
)
    requires
        ram_total(s),
        seg != Segment::External(ExternalName::Constant),
        s.ram[0] != 0,
        pushpop_target(env, s, seg, idx, unit) != 0,
        s.ram[0] != pushpop_target(env, s, seg, idx, unit),
        seg matches Segment::Internal(p) ==> s.ram[0] != seg_ptr_addr(p)
            && pushpop_target(env, s, seg, idx, unit) != seg_ptr_addr(p),
    ensures
        ({
            let s1 = run_instrs(env, s, push_pop_instrs(Direction::Push, seg, idx, unit));
            let s2 = run_instrs(env, s1, push_pop_instrs(Direction::Pop, seg, idx, unit));
            &&& s2.ram[0] == s.ram[0]
            &&& forall|a: int| a != s.ram[0] ==> s2.ram[a] == s.ram[a]
            &&& s2.ram[s.ram[0]] == s.ram[pushpop_target(env, s, seg, idx, unit)]
        }),
{
    let sp = s.ram[0];
    let t = pushpop_target(env, s, seg, idx, unit);
    lemma_run_push(env, s, seg, idx, unit);
    let s1 = run_instrs(env, s, push_pop_instrs(Direction::Push, seg, idx, unit));
    assert(s1.ram[0] == sp + 1);
    assert(s1.ram[sp] == s.ram[t]);
    assert(pushpop_target(env, s1, seg, idx, unit) == t) by {
        match seg {
            Segment::Internal(p) => {
                assert(s1.ram[seg_ptr_addr(p)] == s.ram[seg_ptr_addr(p)]);
            },
            _ => {},
        }
    }
    assert(ram_total(s1));
    lemma_run_pop(env, s1, seg, idx, unit);
    let s2 = run_instrs(env, s1, push_pop_instrs(Direction::Pop, seg, idx, unit));
    assert(s2.ram =~= s1.ram.insert(t, s1.ram[sp]).insert(0, sp));
    assert(s2.ram[0] == sp);
    assert(s2.ram[t] == s.ram[t]);
    assert(s2.ram[sp] == s.ram[t]);
    assert forall|a: int| a != sp implies s2.ram[a] == s.ram[a] by {
        if a != 0 && a != t {
            assert(s2.ram[a] == s1.ram[a]);
            assert(s1.ram[a] == s.ram[a]);
        }
    }
}


/// Law: a run never decreases either label counter, so values consumed
/// by later comparison and call sites are strictly above every value
/// consumed earlier, and no two sites in one run can share a label.
pub proof fn lemma_run_counters_monotone(
    lines: Seq<Seq<char>>,
    pos: int,
    logical: nat,
    call: nat,
    unit: Seq<char>,
    cur_fn: Seq<char>,
)
    ensures
        crate::code_writer::spec_run(lines, pos, logical, call, unit, cur_fn) matches Ok(r)
            ==> r.logical >= logical && r.call >= call,
    decreases lines.len() - pos,
{
    if 0 <= pos < lines.len() {
        match crate::parser::spec_classify(lines[pos]) {
            Err(_) => {},
            Ok(None) => {
                lemma_run_counters_monotone(lines, pos + 1, logical, call, unit, cur_fn);
            },
            Ok(Some(c)) => {
                if !crate::code_writer::is_pop_constant(c) {
                    lemma_run_counters_monotone(
                        lines,
                        pos + 1,
                        crate::code_writer::next_logical(c, logical),
                        crate::code_writer::next_call(c, call),
                        unit,
                        crate::code_writer::next_fn(c, cur_fn),
                    );
                }
            },
        }
    }
}


/// Every comparison site in a successful run consumes the counter value
/// `logical + i` for its position `i` among the run's comparisons: the
/// counter is threaded through the run and incremented exactly once per
/// comparison, never reset.
pub proof fn lemma_run_cmp_sites(
    lines: Seq<Seq<char>>,
    pos: int,
    logical: nat,
    call: nat,
    unit: Seq<char>,
    cur_fn: Seq<char>,
)
    ensures
        crate::code_writer::spec_run(lines, pos, logical, call, unit, cur_fn) matches Ok(r) ==> {
            &&& forall|i: int| 0 <= i < r.cmp_sites.len() ==> #[trigger] r.cmp_sites[i] == logical + i
            &&& r.logical == logical + r.cmp_sites.len()
        },
    decreases lines.len() - pos,
{
    if 0 <= pos < lines.len() {
        match crate::parser::spec_classify(lines[pos]) {
            Err(_) => {},
            Ok(None) => {
                lemma_run_cmp_sites(lines, pos + 1, logical, call, unit, cur_fn);
            },
            Ok(Some(c)) => {
                if !crate::code_writer::is_pop_constant(c) {
                    let l2 = crate::code_writer::next_logical(c, logical);
                    lemma_run_cmp_sites(
                        lines,
                        pos + 1,
                        l2,
                        crate::code_writer::next_call(c, call),
                        unit,
                        crate::code_writer::next_fn(c, cur_fn),
                    );
                }
            },
        }
    }
}

/// Every call site in a successful run consumes the counter value
/// `call + i` for its position `i` among the run's calls.
pub proof fn lemma_run_call_sites(
    lines: Seq<Seq<char>>,
    pos: int,
    logical: nat,
    call: nat,
    unit: Seq<char>,
    cur_fn: Seq<char>,
)
    ensures
        crate::code_writer::spec_run(lines, pos, logical, call, unit, cur_fn) matches Ok(r) ==> {
            &&& forall|i: int| 0 <= i < r.call_sites.len() ==> (#[trigger] r.call_sites[i]).1 == call + i
            &&& r.call == call + r.call_sites.len()
        },
    decreases lines.len() - pos,
{
    if 0 <= pos < lines.len() {
        match crate::parser::spec_classify(lines[pos]) {
            Err(_) => {},
            Ok(None) => {
                lemma_run_call_sites(lines, pos + 1, logical, call, unit, cur_fn);
            },
            Ok(Some(c)) => {
                if !crate::code_writer::is_pop_constant(c) {
                    lemma_run_call_sites(
                        lines,
                        pos + 1,
                        crate::code_writer::next_logical(c, logical),
                        crate::code_writer::next_call(c, call),
                        unit,
                        crate::code_writer::next_fn(c, cur_fn),
                    );
                }
            },
        }
    }
}

/// Law: within one run, any two comparison instructions get pairwise
/// distinct label pairs, whichever of the three comparison operations
/// each one is.
pub proof fn lemma_run_cmp_labels_distinct(
    lines: Seq<Seq<char>>,
    pos: int,
    logical: nat,
    call: nat,
    unit: Seq<char>,
    cur_fn: Seq<char>,
    i: int,
    j: int,
)
    requires
        crate::code_writer::spec_run(lines, pos, logical, call, unit, cur_fn) is Ok,
        ({
            let r = crate::code_writer::spec_run(lines, pos, logical, call, unit, cur_fn)->Ok_0;
            0 <= i < j < r.cmp_sites.len()
        }),
    ensures
        ({
            let r = crate::code_writer::spec_run(lines, pos, logical, call, unit, cur_fn)->Ok_0;
            &&& cmp_true_label(r.cmp_sites[i]) != cmp_true_label(r.cmp_sites[j])
            &&& cmp_finish_label(r.cmp_sites[i]) != cmp_finish_label(r.cmp_sites[j])
            &&& cmp_true_label(r.cmp_sites[i]) != cmp_finish_label(r.cmp_sites[j])
            &&& cmp_true_label(r.cmp_sites[j]) != cmp_finish_label(r.cmp_sites[i])
        }),
{
    let r = crate::code_writer::spec_run(lines, pos, logical, call, unit, cur_fn)->Ok_0;
    lemma_run_cmp_sites(lines, pos, logical, call, unit, cur_fn);
    assert(r.cmp_sites[i] == logical + i);
    assert(r.cmp_sites[j] == logical + j);
    lemma_cmp_labels_distinct(r.cmp_sites[i], r.cmp_sites[j]);
    lemma_cmp_label_kinds_distinct(r.cmp_sites[j], r.cmp_sites[i]);
}

/// Law: within one run, any two call instructions get distinct
/// return-address labels, whether or not they call the same function.
pub proof fn lemma_run_call_labels_distinct(
    lines: Seq<Seq<char>>,
    pos: int,
    logical: nat,
    call: nat,
    unit: Seq<char>,
    cur_fn: Seq<char>,
    i: int,
    j: int,
)
    requires
        crate::code_writer::spec_run(lines, pos, logical, call, unit, cur_fn) is Ok,
        ({
            let r = crate::code_writer::spec_run(lines, pos, logical, call, unit, cur_fn)->Ok_0;
            0 <= i < j < r.call_sites.len()
        }),
    ensures
        ({
            let r = crate::code_writer::spec_run(lines, pos, logical, call, unit, cur_fn)->Ok_0;
            ret_label(r.call_sites[i].0, r.call_sites[i].1) != ret_label(
                r.call_sites[j].0,
                r.call_sites[j].1,
            )
        }),
{
    let r = crate::code_writer::spec_run(lines, pos, logical, call, unit, cur_fn)->Ok_0;
    lemma_run_call_sites(lines, pos, logical, call, unit, cur_fn);
    assert(r.call_sites[i].1 == call + i);
    assert(r.call_sites[j].1 == call + j);
    lemma_ret_labels_distinct(
        r.call_sites[i].0,
        r.call_sites[i].1,
        r.call_sites[j].0,
        r.call_sites[j].1,
    );
}


/// Law: one internal-segment push or pop leaves the segment's base
/// pointer exactly as it found it: the template adds the offset to the
/// base around the dereference and subtracts it again, so the base
/// address never drifts from instruction to instruction.
pub proof fn lemma_push_pop_preserves_base(
    env: Map<Seq<char>, int>,
    s: MachState,
    dir: Direction,
    p: InternalName,
    idx: u32,
    unit: Seq<char>,
)
    requires
        ram_total(s),
        s.ram[0] != 0,
        dir == Direction::Pop ==> s.ram[0] != 1 && s.ram[0] - 1 != 0,
        pushpop_target(env, s, Segment::Internal(p), idx, unit) != 0,
        pushpop_target(env, s, Segment::Internal(p), idx, unit) != seg_ptr_addr(p),
        dir == Direction::Push ==> s.ram[0] != pushpop_target(env, s, Segment::Internal(p), idx, unit)
            && s.ram[0] != seg_ptr_addr(p),
        dir == Direction::Pop ==> s.ram[0] - 1 != pushpop_target(env, s, Segment::Internal(p), idx, unit)
            && s.ram[0] - 1 != seg_ptr_addr(p),
    ensures
        run_instrs(env, s, push_pop_instrs(dir, Segment::Internal(p), idx, unit)).ram[
            seg_ptr_addr(p)
        ] == s.ram[seg_ptr_addr(p)],
{
    match dir {
        Direction::Push => {
            lemma_run_push(env, s, Segment::Internal(p), idx, unit);
        },
        Direction::Pop => {
            lemma_run_pop(env, s, Segment::Internal(p), idx, unit);
        },
    }
}

// ------------------------------------------------------------------
// The call/return frame law
// ------------------------------------------------------------------

proof fn lemma_run_save_ptr(env: Map<Seq<char>, int>, s: MachState, t: crate::instr::AtTargetV)
    requires
        ram_total(s),
        s.ram[0] != 0,
        crate::instr::at_addr(env, t) != 0,
    ensures
        run_instrs(env, s, crate::templates::save_ptr(t)) == (MachState {
            a: 0,
            d: s.ram[crate::instr::at_addr(env, t)],
            ram: s.ram.insert(s.ram[0], s.ram[crate::instr::at_addr(env, t)]).insert(
                0,
                s.ram[0] + 1,
            ),
        }),
{
    let h = seq![crate::templates::at(t), crate::templates::asn(crate::instr::Dest::D, crate::instr::Comp::M)];
    assert(crate::templates::save_ptr(t) == h + push_from_d());
    lemma_run_append(env, s, h, push_from_d());
    let s1 = step(env, s, h[0]);
    let s2 = step(env, s1, h[1]);
    assert(run_from(env, s, h, 0) == run_from(env, s1, h, 1));
    assert(run_from(env, s1, h, 1) == run_from(env, s2, h, 2));
    assert(run_from(env, s2, h, 2) == s2);
    assert(s2.ram[0] == s.ram[0]);
    lemma_run_push_from_d(env, s2);
}

proof fn lemma_run_push_constant(env: Map<Seq<char>, int>, s: MachState, idx: u32, unit: Seq<char>)
    requires
        ram_total(s),
        s.ram[0] != 0,
    ensures
        run_instrs(
            env,
            s,
            push_pop_instrs(Direction::Push, Segment::External(ExternalName::Constant), idx, unit),
        ) == (MachState {
            a: 0,
            d: idx as int,
            ram: s.ram.insert(s.ram[0], idx as int).insert(0, s.ram[0] + 1),
        }),
{
    let whole = push_pop_instrs(Direction::Push, Segment::External(ExternalName::Constant), idx, unit);
    let h = seq![
        crate::templates::cmt(crate::templates::pushpop_comment(Direction::Push, Segment::External(ExternalName::Constant), idx)),
        crate::templates::at_num(idx as int),
        crate::templates::asn(crate::instr::Dest::D, crate::instr::Comp::A),
    ];
    assert(whole =~= h + push_from_d());
    lemma_run_append(env, s, h, push_from_d());
    let s1 = step(env, s, h[0]);
    let s2 = step(env, s1, h[1]);
    let s3 = step(env, s2, h[2]);
    assert(run_from(env, s, h, 0) == run_from(env, s1, h, 1));
    assert(run_from(env, s1, h, 1) == run_from(env, s2, h, 2));
    assert(run_from(env, s2, h, 2) == run_from(env, s3, h, 3));
    assert(run_from(env, s3, h, 3) == s3);
    assert(s3.ram[0] == s.ram[0]);
    lemma_run_push_from_d(env, s3);
}

/// The data effect of one whole emitted zero-argument call block: the
/// return address and the four caller pointers are pushed, the argument
/// base is set to the old stack top, and the local base to the new one.
proof fn lemma_run_call0(env: Map<Seq<char>, int>, s: MachState, f: Seq<char>, k: nat)
    requires
        ram_total(s),
        s.ram[0] >= 16,
    ensures
        run_instrs(env, s, call_instrs(f, 0, k)).ram =~= s.ram.insert(
            s.ram[0],
            env[crate::templates::ret_label(f, k)],
        ).insert(s.ram[0] + 1, s.ram[1]).insert(s.ram[0] + 2, s.ram[2]).insert(
            s.ram[0] + 3,
            s.ram[3],
        ).insert(s.ram[0] + 4, s.ram[4]).insert(2, s.ram[0]).insert(1, s.ram[0] + 5).insert(
            0,
            s.ram[0] + 5,
        ),
{
    let sp = s.ram[0];
    let ra = env[crate::templates::ret_label(f, k)];
    let h = seq![
        crate::templates::cmt("call "@ + f + " "@ + crate::text::dec_digits(0)),
        crate::templates::at_sym(crate::templates::ret_label(f, k)),
        crate::templates::asn(crate::instr::Dest::D, crate::instr::Comp::A),
    ];
    let tl = seq![
        crate::templates::at(crate::instr::AtTargetV::Sp),
        crate::templates::asn(crate::instr::Dest::D, crate::instr::Comp::M),
        crate::templates::at_num(5),
        crate::templates::asn(crate::instr::Dest::D, crate::instr::Comp::DMinusA),
        crate::templates::at_num(0),
        crate::templates::asn(crate::instr::Dest::D, crate::instr::Comp::DMinusA),
        crate::templates::at(crate::instr::AtTargetV::Arg),
        crate::templates::asn(crate::instr::Dest::M, crate::instr::Comp::D),
        crate::templates::at(crate::instr::AtTargetV::Sp),
        crate::templates::asn(crate::instr::Dest::D, crate::instr::Comp::M),
        crate::templates::at(crate::instr::AtTargetV::Lcl),
        crate::templates::asn(crate::instr::Dest::M, crate::instr::Comp::D),
        crate::templates::at_sym(f),
        crate::templates::jmp(crate::instr::Comp::Zero, crate::instr::JumpKind::Jmp),
        crate::templates::mark(crate::templates::ret_label(f, k)),
    ];
    let saves = crate::templates::save_ptr(crate::instr::AtTargetV::Lcl)
        + crate::templates::save_ptr(crate::instr::AtTargetV::Arg)
        + crate::templates::save_ptr(crate::instr::AtTargetV::This)
        + crate::templates::save_ptr(crate::instr::AtTargetV::That);
    assert(call_instrs(f, 0, k) =~= ((h + push_from_d()) + saves) + tl);
    lemma_run_append(env, s, (h + push_from_d()) + saves, tl);
    lemma_run_append(env, s, h + push_from_d(), saves);
    lemma_run_append(env, s, h, push_from_d());
    let s1 = step(env, s, h[0]);
    let s2 = step(env, s1, h[1]);
    let s3 = step(env, s2, h[2]);
    assert(run_from(env, s, h, 0) == run_from(env, s1, h, 1));
    assert(run_from(env, s1, h, 1) == run_from(env, s2, h, 2));
    assert(run_from(env, s2, h, 2) == run_from(env, s3, h, 3));
    assert(run_from(env, s3, h, 3) == s3);
    assert(s3.d == ra);
    lemma_run_push_from_d(env, s3);
    let p0 = run_instrs(env, s, h + push_from_d());
    assert(p0.ram == s.ram.insert(sp, ra).insert(0, sp + 1));
    // the four saved pointers, one save chunk at a time
    let sv1 = crate::templates::save_ptr(crate::instr::AtTargetV::Lcl);
    let sv2 = crate::templates::save_ptr(crate::instr::AtTargetV::Arg);
    let sv3 = crate::templates::save_ptr(crate::instr::AtTargetV::This);
    let sv4 = crate::templates::save_ptr(crate::instr::AtTargetV::That);
    assert(saves == ((sv1 + sv2) + sv3) + sv4);
    lemma_run_append(env, p0, (sv1 + sv2) + sv3, sv4);
    lemma_run_append(env, p0, sv1 + sv2, sv3);
    lemma_run_append(env, p0, sv1, sv2);
    lemma_run_save_ptr(env, p0, crate::instr::AtTargetV::Lcl);
    let p1 = run_instrs(env, p0, sv1);
    assert(p1.ram == p0.ram.insert(sp + 1, s.ram[1]).insert(0, sp + 2));
    lemma_run_save_ptr(env, p1, crate::instr::AtTargetV::Arg);
    let p2 = run_instrs(env, p1, sv2);
    assert(p2.ram == p1.ram.insert(sp + 2, s.ram[2]).insert(0, sp + 3));
    lemma_run_save_ptr(env, p2, crate::instr::AtTargetV::This);
    let p3 = run_instrs(env, p2, sv3);
    assert(p3.ram == p2.ram.insert(sp + 3, s.ram[3]).insert(0, sp + 4));
    lemma_run_save_ptr(env, p3, crate::instr::AtTargetV::That);
    let p4 = run_instrs(env, p3, sv4);
    assert(p4.ram == p3.ram.insert(sp + 4, s.ram[4]).insert(0, sp + 5));
    // the argument and local bases
    let r1 = step(env, p4, tl[0]);
    let r2 = step(env, r1, tl[1]);
    let r3 = step(env, r2, tl[2]);
    let r4 = step(env, r3, tl[3]);
    let r5 = step(env, r4, tl[4]);
    let r6 = step(env, r5, tl[5]);
    let r7 = step(env, r6, tl[6]);
    let r8 = step(env, r7, tl[7]);
    let r9 = step(env, r8, tl[8]);
    let r10 = step(env, r9, tl[9]);
    let r11 = step(env, r10, tl[10]);
    let r12 = step(env, r11, tl[11]);
    let r13 = step(env, r12, tl[12]);
    let r14 = step(env, r13, tl[13]);
    let r15 = step(env, r14, tl[14]);
    assert(run_from(env, p4, tl, 0) == run_from(env, r1, tl, 1));
    assert(run_from(env, r1, tl, 1) == run_from(env, r2, tl, 2));
    assert(run_from(env, r2, tl, 2) == run_from(env, r3, tl, 3));
    assert(run_from(env, r3, tl, 3) == run_from(env, r4, tl, 4));
    assert(run_from(env, r4, tl, 4) == run_from(env, r5, tl, 5));
    assert(run_from(env, r5, tl, 5) == run_from(env, r6, tl, 6));
    assert(run_from(env, r6, tl, 6) == run_from(env, r7, tl, 7));
    assert(run_from(env, r7, tl, 7) == run_from(env, r8, tl, 8));
    assert(run_from(env, r8, tl, 8) == run_from(env, r9, tl, 9));
    assert(run_from(env, r9, tl, 9) == run_from(env, r10, tl, 10));
    assert(run_from(env, r10, tl, 10) == run_from(env, r11, tl, 11));
    assert(run_from(env, r11, tl, 11) == run_from(env, r12, tl, 12));
    assert(run_from(env, r12, tl, 12) == run_from(env, r13, tl, 13));
    assert(run_from(env, r13, tl, 13) == run_from(env, r14, tl, 14));
    assert(run_from(env, r14, tl, 14) == run_from(env, r15, tl, 15));
    assert(run_from(env, r15, tl, 15) == r15);
    assert(r8.ram == p4.ram.insert(2, sp));
    assert(r12.ram == p4.ram.insert(2, sp).insert(1, sp + 5));
    assert(r15.ram =~= s.ram.insert(sp, ra).insert(sp + 1, s.ram[1]).insert(sp + 2, s.ram[2])
        .insert(sp + 3, s.ram[3]).insert(sp + 4, s.ram[4]).insert(2, sp).insert(1, sp + 5)
        .insert(0, sp + 5));
}

/// The data effect of one whole emitted return block, for a frame whose
/// local base sits well above the register area.
proof fn lemma_run_return(env: Map<Seq<char>, int>, s: MachState)
    requires
        ram_total(s),
        s.ram[1] >= 21,
        s.ram[0] > 15,
        s.ram[2] > 14,
        s.ram[2] != s.ram[1] - 1,
        s.ram[2] != s.ram[1] - 2,
        s.ram[2] != s.ram[1] - 3,
        s.ram[2] != s.ram[1] - 4,
    ensures
        run_instrs(env, s, return_instrs()).ram =~= s.ram.insert(13, s.ram[1]).insert(
            14,
            s.ram[s.ram[1] - 5],
        ).insert(s.ram[2], s.ram[s.ram[0] - 1]).insert(0, s.ram[2] + 1).insert(
            4,
            s.ram[s.ram[1] - 1],
        ).insert(3, s.ram[s.ram[1] - 2]).insert(2, s.ram[s.ram[1] - 3]).insert(
            1,
            s.ram[s.ram[1] - 4],
        ),
{
    let sp = s.ram[0];
    let lcl = s.ram[1];
    let arg = s.ram[2];
    let h = seq![
        crate::templates::cmt("return"@),
        crate::templates::at(crate::instr::AtTargetV::Lcl),
        crate::templates::asn(crate::instr::Dest::D, crate::instr::Comp::M),
        crate::templates::at(crate::instr::AtTargetV::R13),
        crate::templates::asn(crate::instr::Dest::M, crate::instr::Comp::D),
        crate::templates::at_num(5),
        crate::templates::asn(crate::instr::Dest::A, crate::instr::Comp::DMinusA),
        crate::templates::asn(crate::instr::Dest::D, crate::instr::Comp::M),
        crate::templates::at(crate::instr::AtTargetV::R14),
        crate::templates::asn(crate::instr::Dest::M, crate::instr::Comp::D),
    ];
    let tl = seq![
        crate::templates::at(crate::instr::AtTargetV::Arg),
        crate::templates::asn(crate::instr::Dest::A, crate::instr::Comp::M),
        crate::templates::asn(crate::instr::Dest::M, crate::instr::Comp::D),
        crate::templates::at(crate::instr::AtTargetV::Arg),
        crate::templates::asn(crate::instr::Dest::D, crate::instr::Comp::MPlusOne),
        crate::templates::at(crate::instr::AtTargetV::Sp),
        crate::templates::asn(crate::instr::Dest::M, crate::instr::Comp::D),
        crate::templates::at(crate::instr::AtTargetV::R13),
        crate::templates::asn(crate::instr::Dest::A, crate::instr::Comp::MMinusOne),
        crate::templates::asn(crate::instr::Dest::D, crate::instr::Comp::M),
        crate::templates::at(crate::instr::AtTargetV::That),
        crate::templates::asn(crate::instr::Dest::M, crate::instr::Comp::D),
        crate::templates::at_num(2),
        crate::templates::asn(crate::instr::Dest::D, crate::instr::Comp::A),
        crate::templates::at(crate::instr::AtTargetV::R13),
        crate::templates::asn(crate::instr::Dest::A, crate::instr::Comp::MMinusD),
        crate::templates::asn(crate::instr::Dest::D, crate::instr::Comp::M),
        crate::templates::at(crate::instr::AtTargetV::This),
        crate::templates::asn(crate::instr::Dest::M, crate::instr::Comp::D),
        crate::templates::at_num(3),
        crate::templates::asn(crate::instr::Dest::D, crate::instr::Comp::A),
        crate::templates::at(crate::instr::AtTargetV::R13),
        crate::templates::asn(crate::instr::Dest::A, crate::instr::Comp::MMinusD),
        crate::templates::asn(crate::instr::Dest::D, crate::instr::Comp::M),
        crate::templates::at(crate::instr::AtTargetV::Arg),
        crate::templates::asn(crate::instr::Dest::M, crate::instr::Comp::D),
        crate::templates::at_num(4),
        crate::templates::asn(crate::instr::Dest::D, crate::instr::Comp::A),
        crate::templates::at(crate::instr::AtTargetV::R13),
        crate::templates::asn(crate::instr::Dest::A, crate::instr::Comp::MMinusD),
        crate::templates::asn(crate::instr::Dest::D, crate::instr::Comp::M),
        crate::templates::at(crate::instr::AtTargetV::Lcl),
        crate::templates::asn(crate::instr::Dest::M, crate::instr::Comp::D),
        crate::templates::at(crate::instr::AtTargetV::R14),
        crate::templates::asn(crate::instr::Dest::A, crate::instr::Comp::M),
        crate::templates::jmp(crate::instr::Comp::Zero, crate::instr::JumpKind::Jmp),
    ];
    assert(return_instrs() =~= (h + sp_dec_load()) + tl);
    lemma_run_append(env, s, h + sp_dec_load(), tl);
    lemma_run_append(env, s, h, sp_dec_load());
    let q1 = step(env, s, h[0]);
    let q2 = step(env, q1, h[1]);
    let q3 = step(env, q2, h[2]);
    let q4 = step(env, q3, h[3]);
    let q5 = step(env, q4, h[4]);
    let q6 = step(env, q5, h[5]);
    let q7 = step(env, q6, h[6]);
    let q8 = step(env, q7, h[7]);
    let q9 = step(env, q8, h[8]);
    let q10 = step(env, q9, h[9]);
    assert(run_from(env, s, h, 0) == run_from(env, q1, h, 1));
    assert(run_from(env, q1, h, 1) == run_from(env, q2, h, 2));
    assert(run_from(env, q2, h, 2) == run_from(env, q3, h, 3));
    assert(run_from(env, q3, h, 3) == run_from(env, q4, h, 4));
    assert(run_from(env, q4, h, 4) == run_from(env, q5, h, 5));
    assert(run_from(env, q5, h, 5) == run_from(env, q6, h, 6));
    assert(run_from(env, q6, h, 6) == run_from(env, q7, h, 7));
    assert(run_from(env, q7, h, 7) == run_from(env, q8, h, 8));
    assert(run_from(env, q8, h, 8) == run_from(env, q9, h, 9));
    assert(run_from(env, q9, h, 9) == run_from(env, q10, h, 10));
    assert(run_from(env, q10, h, 10) == q10);
    assert(q10.ram == s.ram.insert(13, lcl).insert(14, s.ram[lcl - 5]));
    assert(q10.ram[0] == sp);
    lemma_run_sp_dec_load(env, q10);
    let m0 = run_instrs(env, q10, sp_dec_load());
    assert(m0.d == s.ram[sp - 1]);
    assert(m0.ram == q10.ram.insert(0, sp - 1));
    let r1 = step(env, m0, tl[0]);
    let r2 = step(env, r1, tl[1]);
    let r3 = step(env, r2, tl[2]);
    let r4 = step(env, r3, tl[3]);
    let r5 = step(env, r4, tl[4]);
    let r6 = step(env, r5, tl[5]);
    let r7 = step(env, r6, tl[6]);
    let r8 = step(env, r7, tl[7]);
    let r9 = step(env, r8, tl[8]);
    let r10 = step(env, r9, tl[9]);
    let r11 = step(env, r10, tl[10]);
    let r12 = step(env, r11, tl[11]);
    let r13 = step(env, r12, tl[12]);
    let r14 = step(env, r13, tl[13]);
    let r15 = step(env, r14, tl[14]);
    let r16 = step(env, r15, tl[15]);
    let r17 = step(env, r16, tl[16]);
    let r18 = step(env, r17, tl[17]);
    let r19 = step(env, r18, tl[18]);
    let r20 = step(env, r19, tl[19]);
    let r21 = step(env, r20, tl[20]);
    let r22 = step(env, r21, tl[21]);
    let r23 = step(env, r22, tl[22]);
    let r24 = step(env, r23, tl[23]);
    let r25 = step(env, r24, tl[24]);
    let r26 = step(env, r25, tl[25]);
    let r27 = step(env, r26, tl[26]);
    let r28 = step(env, r27, tl[27]);
    let r29 = step(env, r28, tl[28]);
    let r30 = step(env, r29, tl[29]);
    let r31 = step(env, r30, tl[30]);
    let r32 = step(env, r31, tl[31]);
    let r33 = step(env, r32, tl[32]);
    let r34 = step(env, r33, tl[33]);
    let r35 = step(env, r34, tl[34]);
    let r36 = step(env, r35, tl[35]);
    assert(run_from(env, m0, tl, 0) == run_from(env, r1, tl, 1));
    assert(run_from(env, r1, tl, 1) == run_from(env, r2, tl, 2));
    assert(run_from(env, r2, tl, 2) == run_from(env, r3, tl, 3));
    assert(run_from(env, r3, tl, 3) == run_from(env, r4, tl, 4));
    assert(run_from(env, r4, tl, 4) == run_from(env, r5, tl, 5));
    assert(run_from(env, r5, tl, 5) == run_from(env, r6, tl, 6));
    assert(run_from(env, r6, tl, 6) == run_from(env, r7, tl, 7));
    assert(run_from(env, r7, tl, 7) == run_from(env, r8, tl, 8));
    assert(run_from(env, r8, tl, 8) == run_from(env, r9, tl, 9));
    assert(run_from(env, r9, tl, 9) == run_from(env, r10, tl, 10));
    assert(run_from(env, r10, tl, 10) == run_from(env, r11, tl, 11));
    assert(run_from(env, r11, tl, 11) == run_from(env, r12, tl, 12));
    assert(run_from(env, r12, tl, 12) == run_from(env, r13, tl, 13));
    assert(run_from(env, r13, tl, 13) == run_from(env, r14, tl, 14));
    assert(run_from(env, r14, tl, 14) == run_from(env, r15, tl, 15));
    assert(run_from(env, r15, tl, 15) == run_from(env, r16, tl, 16));
    assert(run_from(env, r16, tl, 16) == run_from(env, r17, tl, 17));
    assert(run_from(env, r17, tl, 17) == run_from(env, r18, tl, 18));
    assert(run_from(env, r18, tl, 18) == run_from(env, r19, tl, 19));
    assert(run_from(env, r19, tl, 19) == run_from(env, r20, tl, 20));
    assert(run_from(env, r20, tl, 20) == run_from(env, r21, tl, 21));
    assert(run_from(env, r21, tl, 21) == run_from(env, r22, tl, 22));
    assert(run_from(env, r22, tl, 22) == run_from(env, r23, tl, 23));
    assert(run_from(env, r23, tl, 23) == run_from(env, r24, tl, 24));
    assert(run_from(env, r24, tl, 24) == run_from(env, r25, tl, 25));
    assert(run_from(env, r25, tl, 25) == run_from(env, r26, tl, 26));
    assert(run_from(env, r26, tl, 26) == run_from(env, r27, tl, 27));
    assert(run_from(env, r27, tl, 27) == run_from(env, r28, tl, 28));
    assert(run_from(env, r28, tl, 28) == run_from(env, r29, tl, 29));
    assert(run_from(env, r29, tl, 29) == run_from(env, r30, tl, 30));
    assert(run_from(env, r30, tl, 30) == run_from(env, r31, tl, 31));
    assert(run_from(env, r31, tl, 31) == run_from(env, r32, tl, 32));
    assert(run_from(env, r32, tl, 32) == run_from(env, r33, tl, 33));
    assert(run_from(env, r33, tl, 33) == run_from(env, r34, tl, 34));
    assert(run_from(env, r34, tl, 34) == run_from(env, r35, tl, 35));
    assert(run_from(env, r35, tl, 35) == run_from(env, r36, tl, 36));
    assert(run_from(env, r36, tl, 36) == r36);
    assert(r3.ram == m0.ram.insert(arg, s.ram[sp - 1]));
    assert(r7.ram == r3.ram.insert(0, arg + 1));
    assert(r12.ram == r7.ram.insert(4, s.ram[lcl - 1]));
    assert(r19.ram == r12.ram.insert(3, s.ram[lcl - 2]));
    assert(r26.ram == r19.ram.insert(2, s.ram[lcl - 3]));
    assert(r33.ram == r26.ram.insert(1, s.ram[lcl - 4]));
    assert(r36.ram =~= s.ram.insert(13, lcl).insert(14, s.ram[lcl - 5]).insert(
        arg,
        s.ram[sp - 1],
    ).insert(0, arg + 1).insert(4, s.ram[lcl - 1]).insert(3, s.ram[lcl - 2]).insert(
        2,
        s.ram[lcl - 3],
    ).insert(1, s.ram[lcl - 4]));
}

/// Law: a full call/return pair for a zero-argument, zero-local function
/// whose body pushes one return value restores all four caller pointers
/// to their pre-call values and leaves exactly that one value net-pushed
/// on the caller's stack. The instruction sequence below is what
/// executes dynamically for such a pair: the call block, the callee's
/// entry block, the body's push, and the return block. Only the
/// stack-pointer cell, the two scratch registers, and the scratch cells
/// at and above the old stack top are touched at all.
pub proof fn lemma_call_return_frame(
    env: Map<Seq<char>, int>,
    s: MachState,
    f: Seq<char>,
    k: nat,
    v: u32,
    unit: Seq<char>,
)
    requires
        ram_total(s),
        s.ram[0] >= 16,
    ensures
        ({
            let prog = call_instrs(f, 0, k) + declare_instrs(f, 0)
                + push_pop_instrs(Direction::Push, Segment::External(ExternalName::Constant), v, unit)
                + return_instrs();
            let s2 = run_instrs(env, s, prog);
            &&& s2.ram[1] == s.ram[1]
            &&& s2.ram[2] == s.ram[2]
            &&& s2.ram[3] == s.ram[3]
            &&& s2.ram[4] == s.ram[4]
            &&& s2.ram[0] == s.ram[0] + 1
            &&& s2.ram[s.ram[0]] == v
            &&& forall|a: int| !(s.ram[0] <= a <= s.ram[0] + 5) && a != 0 && a != 13 && a != 14
                ==> s2.ram[a] == s.ram[a]
        }),
{
    let sp = s.ram[0];
    let prog = call_instrs(f, 0, k) + declare_instrs(f, 0)
        + push_pop_instrs(Direction::Push, Segment::External(ExternalName::Constant), v, unit)
        + return_instrs();
    lemma_run_append(
        env,
        s,
        (call_instrs(f, 0, k) + declare_instrs(f, 0))
            + push_pop_instrs(Direction::Push, Segment::External(ExternalName::Constant), v, unit),
        return_instrs(),
    );
    lemma_run_append(
        env,
        s,
        call_instrs(f, 0, k) + declare_instrs(f, 0),
        push_pop_instrs(Direction::Push, Segment::External(ExternalName::Constant), v, unit),
    );
    lemma_run_append(env, s, call_instrs(f, 0, k), declare_instrs(f, 0));
    lemma_run_call0(env, s, f, k);
    let c = run_instrs(env, s, call_instrs(f, 0, k));
    assert(ram_total(c));
    // the callee's entry block for zero locals is a comment and a marker
    let dseq = declare_instrs(f, 0);
    assert(crate::templates::locals_init(0) =~= Seq::<InstrV>::empty());
    assert(dseq =~= seq![
        crate::templates::cmt("function "@ + f + " "@ + crate::text::dec_digits(0)),
        crate::templates::mark(f),
    ]);
    let d1 = step(env, c, dseq[0]);
    let d2 = step(env, d1, dseq[1]);
    assert(run_from(env, c, dseq, 0) == run_from(env, d1, dseq, 1));
    assert(run_from(env, d1, dseq, 1) == run_from(env, d2, dseq, 2));
    assert(run_from(env, d2, dseq, 2) == d2);
    assert(d2 == c);
    assert(c.ram[0] == sp + 5);
    lemma_run_push_constant(env, c, v, unit);
    let b = run_instrs(
        env,
        c,
        push_pop_instrs(Direction::Push, Segment::External(ExternalName::Constant), v, unit),
    );
    assert(b.ram == c.ram.insert(sp + 5, v as int).insert(0, sp + 6));
    assert(ram_total(b));
    assert(b.ram[0] == sp + 6);
    assert(b.ram[1] == sp + 5);
    assert(b.ram[2] == sp);
    lemma_run_return(env, b);
    let s2 = run_instrs(env, b, return_instrs());
    assert(b.ram[b.ram[0] - 1] == v);
    assert(b.ram[b.ram[1] - 5] == env[crate::templates::ret_label(f, k)]);
    assert(b.ram[b.ram[1] - 1] == s.ram[4]);
    assert(b.ram[b.ram[1] - 2] == s.ram[3]);
    assert(b.ram[b.ram[1] - 3] == s.ram[2]);
    assert(b.ram[b.ram[1] - 4] == s.ram[1]);
    assert(s2.ram[0] == sp + 1);
    assert(s2.ram[sp] == v);
    assert(s2.ram[1] == s.ram[1]);
    assert(s2.ram[2] == s.ram[2]);
    assert(s2.ram[3] == s.ram[3]);
    assert(s2.ram[4] == s.ram[4]);
    assert forall|a: int| !(sp <= a <= sp + 5) && a != 0 && a != 13 && a != 14
        implies s2.ram[a] == s.ram[a] by {
        if a != 1 && a != 2 && a != 3 && a != 4 {
            assert(s2.ram[a] == b.ram[a]);
            assert(b.ram[a] == c.ram[a]);
            assert(c.ram[a] == s.ram[a]);
        }
    }
}

} // verus!
