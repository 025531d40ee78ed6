//! The assembly templates: for every instruction kind, the exact sequence
//! of output lines, as a specification-level sequence and as an executable
//! builder proved equal to it. Label-generating templates take the counter
//! value they consume as an argument.
use vstd::prelude::*;
use crate::instr::{Instr, InstrV, AtTarget, AtTargetV, Dest, Comp, JumpKind};
use crate::prelude::{ArithOp, BranchKind, Direction, InternalName, ExternalName, Segment};
use crate::text::dec_digits;
use crate::text::u64_to_string;

verus! {

// ------------------------------------------------------------------
// Names of instructions and segments, as they appear in comments
// ------------------------------------------------------------------

pub open spec fn op_text(op: ArithOp) -> Seq<char> {
    match op {
        ArithOp::Add => "add"@,
        ArithOp::Sub => "sub"@,
        ArithOp::Neg => "neg"@,
        ArithOp::CmpEq => "eq"@,
        ArithOp::CmpGt => "gt"@,
        ArithOp::CmpLt => "lt"@,
        ArithOp::AndOp => "and"@,
        ArithOp::OrOp => "or"@,
        ArithOp::NotOp => "not"@,
    }
}

pub open spec fn dir_text(dir: Direction) -> Seq<char> {
    match dir {
        Direction::Push => "push"@,
        Direction::Pop => "pop"@,
    }
}

pub open spec fn seg_text(seg: Segment) -> Seq<char> {
    match seg {
        Segment::Internal(InternalName::Local) => "local"@,
        Segment::Internal(InternalName::Argument) => "argument"@,
        Segment::Internal(InternalName::This) => "this"@,
        Segment::Internal(InternalName::That) => "that"@,
        Segment::External(ExternalName::Constant) => "constant"@,
        Segment::External(ExternalName::Static) => "static"@,
        Segment::External(ExternalName::Temp) => "temp"@,
        Segment::External(ExternalName::Pointer) => "pointer"@,
    }
}

pub open spec fn branch_text(kind: BranchKind) -> Seq<char> {
    match kind {
        BranchKind::Label => "label"@,
        BranchKind::Goto => "goto"@,
        BranchKind::IfGoto => "if-goto"@,
    }
}

// ------------------------------------------------------------------
// Generated names
// ------------------------------------------------------------------

/// The branch target of a comparison whose outcome is true.
pub open spec fn cmp_true_label(c: nat) -> Seq<char> {
    "CON_TRUE_"@ + dec_digits(c)
}

/// The convergence point after a comparison.
pub open spec fn cmp_finish_label(c: nat) -> Seq<char> {
    "CON_FINISH_"@ + dec_digits(c)
}

/// The per-translation-unit symbol of a `static` cell.
pub open spec fn static_sym(unit: Seq<char>, idx: u32) -> Seq<char> {
    unit + "."@ + dec_digits(idx as nat)
}

/// The return-address marker of one call site.
pub open spec fn ret_label(name: Seq<char>, k: nat) -> Seq<char> {
    name + ".ret."@ + dec_digits(k)
}

/// A branch label qualified by its enclosing function, so that label
/// names from different functions cannot collide in the flat global
/// label space of the target assembly.
pub open spec fn scoped_label(cur_fn: Seq<char>, label: Seq<char>) -> Seq<char> {
    if cur_fn.len() == 0 {
        label
    } else {
        cur_fn + "$"@ + label
    }
}

// ------------------------------------------------------------------
// Specification-level templates
// ------------------------------------------------------------------

pub open spec fn cmt(t: Seq<char>) -> InstrV {
    InstrV::Comment(t)
}

pub open spec fn at(t: AtTargetV) -> InstrV {
    InstrV::At(t)
}

pub open spec fn at_num(n: int) -> InstrV {
    InstrV::At(AtTargetV::Num(n))
}

pub open spec fn at_sym(s: Seq<char>) -> InstrV {
    InstrV::At(AtTargetV::Sym(s))
}

pub open spec fn asn(d: Dest, c: Comp) -> InstrV {
    InstrV::Assign(d, c)
}

pub open spec fn jmp(c: Comp, j: JumpKind) -> InstrV {
    InstrV::Jump(c, j)
}

pub open spec fn mark(s: Seq<char>) -> InstrV {
    InstrV::Marker(s)
}

/// Pops the stack top into the data register.
pub open spec fn sp_dec_load() -> Seq<InstrV> {
    seq![
        at(AtTargetV::Sp),
        asn(Dest::M, Comp::MMinusOne),
        asn(Dest::A, Comp::M),
        asn(Dest::D, Comp::M),
    ]
}

/// Pushes the data register onto the stack.
pub open spec fn push_from_d() -> Seq<InstrV> {
    seq![
        at(AtTargetV::Sp),
        asn(Dest::A, Comp::M),
        asn(Dest::M, Comp::D),
        at(AtTargetV::Sp),
        asn(Dest::M, Comp::MPlusOne),
    ]
}

/// Rewrites the stack top in place with a computed value.
pub open spec fn modify_top(c: Comp) -> Seq<InstrV> {
    seq![
        at(AtTargetV::Sp),
        asn(Dest::M, Comp::MMinusOne),
        asn(Dest::A, Comp::M),
        asn(Dest::M, c),
        at(AtTargetV::Sp),
        asn(Dest::M, Comp::MPlusOne),
    ]
}

/// The comparison template: subtract the two operands, branch to a
/// site-unique true label, push false or true accordingly, converge at a
/// site-unique finish label.
pub open spec fn cmp_body(j: JumpKind, c: nat) -> Seq<InstrV> {
    sp_dec_load() + seq![
        at(AtTargetV::Sp),
        asn(Dest::M, Comp::MMinusOne),
        asn(Dest::A, Comp::M),
        asn(Dest::D, Comp::MMinusD),
        at_sym(cmp_true_label(c)),
        jmp(Comp::D, j),
        at(AtTargetV::Sp),
        asn(Dest::A, Comp::M),
        asn(Dest::M, Comp::Zero),
        at_sym(cmp_finish_label(c)),
        jmp(Comp::Zero, JumpKind::Jmp),
        mark(cmp_true_label(c)),
        at(AtTargetV::Sp),
        asn(Dest::A, Comp::M),
        asn(Dest::M, Comp::NegOne),
        mark(cmp_finish_label(c)),
        at(AtTargetV::Sp),
        asn(Dest::M, Comp::MPlusOne),
    ]
}

pub open spec fn arith_body(op: ArithOp, c: nat) -> Seq<InstrV> {
    match op {
        ArithOp::Add => sp_dec_load() + modify_top(Comp::MPlusD),
        ArithOp::Sub => sp_dec_load() + modify_top(Comp::MMinusD),
        ArithOp::AndOp => sp_dec_load() + modify_top(Comp::MAndD),
        ArithOp::OrOp => sp_dec_load() + modify_top(Comp::MOrD),
        ArithOp::Neg => modify_top(Comp::NegM),
        ArithOp::NotOp => modify_top(Comp::NotM),
        ArithOp::CmpEq => cmp_body(JumpKind::Jeq, c),
        ArithOp::CmpGt => cmp_body(JumpKind::Jgt, c),
        ArithOp::CmpLt => cmp_body(JumpKind::Jlt, c),
    }
}

/// The whole block of an arithmetic instruction; `c` is the logical-label
/// counter value a comparison consumes.
pub open spec fn arith_instrs(op: ArithOp, c: nat) -> Seq<InstrV> {
    seq![cmt(op_text(op))] + arith_body(op, c)
}

/// The base-pointer register of an internal segment.
pub open spec fn seg_ptr(p: InternalName) -> AtTargetV {
    match p {
        InternalName::Local => AtTargetV::Lcl,
        InternalName::Argument => AtTargetV::Arg,
        InternalName::This => AtTargetV::This,
        InternalName::That => AtTargetV::That,
    }
}

/// The pointer-segment cell: index 1 names the that-base, any other
/// index the this-base.
pub open spec fn pointer_cell(idx: u32) -> AtTargetV {
    if idx == 1 {
        AtTargetV::That
    } else {
        AtTargetV::This
    }
}

pub open spec fn pushpop_comment(dir: Direction, seg: Segment, idx: u32) -> Seq<char> {
    dir_text(dir) + " "@ + seg_text(seg) + " "@ + dec_digits(idx as nat)
}

pub open spec fn push_pop_body(dir: Direction, seg: Segment, idx: u32, unit: Seq<char>) -> Seq<InstrV> {
    match (dir, seg) {
        (Direction::Push, Segment::Internal(p)) => seq![
            at_num(idx as int),
            asn(Dest::D, Comp::A),
            at(seg_ptr(p)),
            asn(Dest::M, Comp::MPlusD),
            asn(Dest::A, Comp::M),
            asn(Dest::D, Comp::M),
        ] + push_from_d() + seq![
            at_num(idx as int),
            asn(Dest::D, Comp::A),
            at(seg_ptr(p)),
            asn(Dest::M, Comp::MMinusD),
        ],
        (Direction::Pop, Segment::Internal(p)) => seq![
            at_num(idx as int),
            asn(Dest::D, Comp::A),
            at(seg_ptr(p)),
            asn(Dest::M, Comp::MPlusD),
        ] + sp_dec_load() + seq![
            at(seg_ptr(p)),
            asn(Dest::A, Comp::M),
            asn(Dest::M, Comp::D),
            at_num(idx as int),
            asn(Dest::D, Comp::A),
            at(seg_ptr(p)),
            asn(Dest::M, Comp::MMinusD),
        ],
        (Direction::Push, Segment::External(ExternalName::Constant)) => seq![
            at_num(idx as int),
            asn(Dest::D, Comp::A),
        ] + push_from_d(),
        // a pop of the immediate-only segment is rejected before emission
        (Direction::Pop, Segment::External(ExternalName::Constant)) => Seq::empty(),
        (Direction::Push, Segment::External(ExternalName::Static)) => seq![
            at_sym(static_sym(unit, idx)),
            asn(Dest::D, Comp::M),
        ] + push_from_d(),
        (Direction::Pop, Segment::External(ExternalName::Static)) => sp_dec_load() + seq![
            at_sym(static_sym(unit, idx)),
            asn(Dest::M, Comp::D),
        ],
        (Direction::Push, Segment::External(ExternalName::Temp)) => seq![
            at_num(idx as int + 5),
            asn(Dest::D, Comp::M),
        ] + push_from_d(),
        (Direction::Pop, Segment::External(ExternalName::Temp)) => sp_dec_load() + seq![
            at_num(idx as int + 5),
            asn(Dest::M, Comp::D),
        ],
        (Direction::Push, Segment::External(ExternalName::Pointer)) => seq![
            at(pointer_cell(idx)),
            asn(Dest::D, Comp::M),
        ] + push_from_d(),
        (Direction::Pop, Segment::External(ExternalName::Pointer)) => sp_dec_load() + seq![
            at(pointer_cell(idx)),
            asn(Dest::M, Comp::D),
        ],
    }
}

/// The whole block of a push or pop instruction.
pub open spec fn push_pop_instrs(dir: Direction, seg: Segment, idx: u32, unit: Seq<char>) -> Seq<InstrV> {
    seq![cmt(pushpop_comment(dir, seg, idx))] + push_pop_body(dir, seg, idx, unit)
}

/// The whole block of a branching instruction; the marker or jump target
/// is the function-qualified label.
pub open spec fn branch_instrs(kind: BranchKind, scoped: Seq<char>, raw: Seq<char>) -> Seq<InstrV> {
    match kind {
        BranchKind::Label => seq![
            cmt(branch_text(BranchKind::Label) + " "@ + raw),
            mark(scoped),
        ],
        BranchKind::Goto => seq![
            cmt(branch_text(BranchKind::Goto) + " "@ + raw),
            at_sym(scoped),
            jmp(Comp::Zero, JumpKind::Jmp),
        ],
        BranchKind::IfGoto => seq![cmt(branch_text(BranchKind::IfGoto) + " "@ + raw)] + sp_dec_load() + seq![
            at_sym(scoped),
            jmp(Comp::D, JumpKind::Jne),
        ],
    }
}

/// One zero-initialization sequence of a declared local: writes zero to
/// the cell at the local base plus the index and advances the stack top.
pub open spec fn init_one(j: int) -> Seq<InstrV> {
    seq![
        at_num(j),
        asn(Dest::D, Comp::A),
        at(AtTargetV::Lcl),
        asn(Dest::A, Comp::MPlusD),
        asn(Dest::M, Comp::Zero),
        at(AtTargetV::Sp),
        asn(Dest::M, Comp::MPlusOne),
    ]
}

/// The zero-initialization sequences of the first `n` locals, in
/// ascending index order.
pub open spec fn locals_init(n: nat) -> Seq<InstrV>
    decreases n,
{
    if n == 0 {
        Seq::empty()
    } else {
        locals_init((n - 1) as nat) + init_one(n - 1)
    }
}

/// The whole block of a function declaration: the entry marker, then one
/// zero-initialization per declared local.
pub open spec fn declare_instrs(name: Seq<char>, n_vars: u32) -> Seq<InstrV> {
    seq![
        cmt("function "@ + name + " "@ + dec_digits(n_vars as nat)),
        mark(name),
    ] + locals_init(n_vars as nat)
}

/// Saves one caller pointer on the stack.
pub open spec fn save_ptr(t: AtTargetV) -> Seq<InstrV> {
    seq![at(t), asn(Dest::D, Comp::M)] + push_from_d()
}

/// The whole block of a call: push the site-unique return address and the
/// four caller pointers, reposition the argument and local bases, jump to
/// the callee, and define the return marker; `k` is the call-site counter
/// value this site consumes.
pub open spec fn call_instrs(name: Seq<char>, n_args: u32, k: nat) -> Seq<InstrV> {
    seq![
        cmt("call "@ + name + " "@ + dec_digits(n_args as nat)),
        at_sym(ret_label(name, k)),
        asn(Dest::D, Comp::A),
    ] + push_from_d()
      + save_ptr(AtTargetV::Lcl)
      + save_ptr(AtTargetV::Arg)
      + save_ptr(AtTargetV::This)
      + save_ptr(AtTargetV::That)
      + seq![
        at(AtTargetV::Sp),
        asn(Dest::D, Comp::M),
        at_num(5),
        asn(Dest::D, Comp::DMinusA),
        at_num(n_args as int),
        asn(Dest::D, Comp::DMinusA),
        at(AtTargetV::Arg),
        asn(Dest::M, Comp::D),
        at(AtTargetV::Sp),
        asn(Dest::D, Comp::M),
        at(AtTargetV::Lcl),
        asn(Dest::M, Comp::D),
        at_sym(name),
        jmp(Comp::Zero, JumpKind::Jmp),
        mark(ret_label(name, k)),
    ]
}

/// The whole block of a return: recover the return address from the
/// frame, plant the return value where the caller's arguments began,
/// reposition the stack top just past it, restore the four caller
/// pointers from fixed offsets below the frame, and jump back.
pub open spec fn return_instrs() -> Seq<InstrV> {
    seq![
        cmt("return"@),
        at(AtTargetV::Lcl),
        asn(Dest::D, Comp::M),
        at(AtTargetV::R13),
        asn(Dest::M, Comp::D),
        at_num(5),
        asn(Dest::A, Comp::DMinusA),
        asn(Dest::D, Comp::M),
        at(AtTargetV::R14),
        asn(Dest::M, Comp::D),
    ] + sp_dec_load() + seq![
        at(AtTargetV::Arg),
        asn(Dest::A, Comp::M),
        asn(Dest::M, Comp::D),
        at(AtTargetV::Arg),
        asn(Dest::D, Comp::MPlusOne),
        at(AtTargetV::Sp),
        asn(Dest::M, Comp::D),
        at(AtTargetV::R13),
        asn(Dest::A, Comp::MMinusOne),
        asn(Dest::D, Comp::M),
        at(AtTargetV::That),
        asn(Dest::M, Comp::D),
        at_num(2),
        asn(Dest::D, Comp::A),
        at(AtTargetV::R13),
        asn(Dest::A, Comp::MMinusD),
        asn(Dest::D, Comp::M),
        at(AtTargetV::This),
        asn(Dest::M, Comp::D),
        at_num(3),
        asn(Dest::D, Comp::A),
        at(AtTargetV::R13),
        asn(Dest::A, Comp::MMinusD),
        asn(Dest::D, Comp::M),
        at(AtTargetV::Arg),
        asn(Dest::M, Comp::D),
        at_num(4),
        asn(Dest::D, Comp::A),
        at(AtTargetV::R13),
        asn(Dest::A, Comp::MMinusD),
        asn(Dest::D, Comp::M),
        at(AtTargetV::Lcl),
        asn(Dest::M, Comp::D),
        at(AtTargetV::R14),
        asn(Dest::A, Comp::M),
        jmp(Comp::Zero, JumpKind::Jmp),
    ]
}

/// The bootstrap block, emitted once per run before anything else: set
/// the stack top to the reserved starting address, call the conventional
/// entry function with no arguments using call-site counter zero, and
/// halt in a self-jump should it ever return.
pub open spec fn bootstrap_instrs() -> Seq<InstrV> {
    seq![
        cmt("bootstrap"@),
        at_num(256),
        asn(Dest::D, Comp::A),
        at(AtTargetV::Sp),
        asn(Dest::M, Comp::D),
    ] + call_instrs("Sys.init"@, 0, 0) + seq![
        mark("HALT"@),
        at_sym("HALT"@),
        jmp(Comp::Zero, JumpKind::Jmp),
    ]
}

// ------------------------------------------------------------------
// Executable label construction
// ------------------------------------------------------------------

pub fn make_cmp_true_label(c: u64) -> (s: String)
    ensures
        s@ == cmp_true_label(c as nat),
{
    let mut s = String::from_str("CON_TRUE_");
    let digits = u64_to_string(c);
    s.append(digits.as_str());
    s
}

pub fn make_cmp_finish_label(c: u64) -> (s: String)
    ensures
        s@ == cmp_finish_label(c as nat),
{
    let mut s = String::from_str("CON_FINISH_");
    let digits = u64_to_string(c);
    s.append(digits.as_str());
    s
}

pub fn make_static_sym(unit: &str, idx: u32) -> (s: String)
    ensures
        s@ == static_sym(unit@, idx),
{
    let mut s = String::from_str(unit);
    s.append(".");
    let digits = u64_to_string(idx as u64);
    s.append(digits.as_str());
    proof {
        assert(s@ =~= static_sym(unit@, idx));
    }
    s
}

pub fn make_ret_label(name: &str, k: u64) -> (s: String)
    ensures
        s@ == ret_label(name@, k as nat),
{
    let mut s = String::from_str(name);
    s.append(".ret.");
    let digits = u64_to_string(k);
    s.append(digits.as_str());
    proof {
        assert(s@ =~= ret_label(name@, k as nat));
    }
    s
}

pub fn make_scoped_label(cur_fn: &str, label: &str) -> (s: String)
    ensures
        s@ == scoped_label(cur_fn@, label@),
{
    if cur_fn.unicode_len() == 0 {
        let s = String::from_str(label);
        proof {
            assert(s@ =~= scoped_label(cur_fn@, label@));
        }
        s
    } else {
        let mut s = String::from_str(cur_fn);
        s.append("$");
        s.append(label);
        proof {
            assert(s@ =~= scoped_label(cur_fn@, label@));
        }
        s
    }
}

// ------------------------------------------------------------------
// Executable template builders
// ------------------------------------------------------------------

fn put(v: &mut Vec<Instr>, i: Instr)
    ensures
        final(v).deep_view() == old(v).deep_view().push(i@),
{
    let ghost pre = v.deep_view();
    v.push(i);
    proof {
        assert(v.deep_view() =~= pre.push(i@));
    }
}

fn emit_sp_dec_load(v: &mut Vec<Instr>)
    ensures
        final(v).deep_view() == old(v).deep_view() + sp_dec_load(),
{
    let ghost pre = v.deep_view();
    put(v, Instr::At(AtTarget::Sp));
    put(v, Instr::Assign(Dest::M, Comp::MMinusOne));
    put(v, Instr::Assign(Dest::A, Comp::M));
    put(v, Instr::Assign(Dest::D, Comp::M));
    proof {
        assert(v.deep_view() =~= pre + sp_dec_load());
    }
}

fn emit_push_from_d(v: &mut Vec<Instr>)
    ensures
        final(v).deep_view() == old(v).deep_view() + push_from_d(),
{
    let ghost pre = v.deep_view();
    put(v, Instr::At(AtTarget::Sp));
    put(v, Instr::Assign(Dest::A, Comp::M));
    put(v, Instr::Assign(Dest::M, Comp::D));
    put(v, Instr::At(AtTarget::Sp));
    put(v, Instr::Assign(Dest::M, Comp::MPlusOne));
    proof {
        assert(v.deep_view() =~= pre + push_from_d());
    }
}

fn emit_modify_top(v: &mut Vec<Instr>, c: Comp)
    ensures
        final(v).deep_view() == old(v).deep_view() + modify_top(c),
{
    let ghost pre = v.deep_view();
    put(v, Instr::At(AtTarget::Sp));
    put(v, Instr::Assign(Dest::M, Comp::MMinusOne));
    put(v, Instr::Assign(Dest::A, Comp::M));
    put(v, Instr::Assign(Dest::M, c));
    put(v, Instr::At(AtTarget::Sp));
    put(v, Instr::Assign(Dest::M, Comp::MPlusOne));
    proof {
        assert(v.deep_view() =~= pre + modify_top(c));
    }
}

fn emit_cmp_body(v: &mut Vec<Instr>, j: JumpKind, c: u64)
    ensures
        final(v).deep_view() == old(v).deep_view() + cmp_body(j, c as nat),
{
    let ghost pre = v.deep_view();
    emit_sp_dec_load(v);
    let true_label = make_cmp_true_label(c);
    let finish_label = make_cmp_finish_label(c);
    put(v, Instr::At(AtTarget::Sp));
    put(v, Instr::Assign(Dest::M, Comp::MMinusOne));
    put(v, Instr::Assign(Dest::A, Comp::M));
    put(v, Instr::Assign(Dest::D, Comp::MMinusD));
    put(v, Instr::At(AtTarget::Sym(true_label.clone())));
    put(v, Instr::Jump(Comp::D, j));
    put(v, Instr::At(AtTarget::Sp));
    put(v, Instr::Assign(Dest::A, Comp::M));
    put(v, Instr::Assign(Dest::M, Comp::Zero));
    put(v, Instr::At(AtTarget::Sym(finish_label.clone())));
    put(v, Instr::Jump(Comp::Zero, JumpKind::Jmp));
    put(v, Instr::Marker(true_label));
    put(v, Instr::At(AtTarget::Sp));
    put(v, Instr::Assign(Dest::A, Comp::M));
    put(v, Instr::Assign(Dest::M, Comp::NegOne));
    put(v, Instr::Marker(finish_label));
    put(v, Instr::At(AtTarget::Sp));
    put(v, Instr::Assign(Dest::M, Comp::MPlusOne));
    proof {
        assert(v.deep_view() =~= pre + cmp_body(j, c as nat));
    }
}

fn op_name_str(op: ArithOp) -> (r: &'static str)
    ensures
        r@ == op_text(op),
{
    match op {
        ArithOp::Add => "add",
        ArithOp::Sub => "sub",
        ArithOp::Neg => "neg",
        ArithOp::CmpEq => "eq",
        ArithOp::CmpGt => "gt",
        ArithOp::CmpLt => "lt",
        ArithOp::AndOp => "and",
        ArithOp::OrOp => "or",
        ArithOp::NotOp => "not",
    }
}

fn dir_name_str(dir: Direction) -> (r: &'static str)
    ensures
        r@ == dir_text(dir),
{
    match dir {
        Direction::Push => "push",
        Direction::Pop => "pop",
    }
}

fn seg_name_str(seg: Segment) -> (r: &'static str)
    ensures
        r@ == seg_text(seg),
{
    match seg {
        Segment::Internal(InternalName::Local) => "local",
        Segment::Internal(InternalName::Argument) => "argument",
        Segment::Internal(InternalName::This) => "this",
        Segment::Internal(InternalName::That) => "that",
        Segment::External(ExternalName::Constant) => "constant",
        Segment::External(ExternalName::Static) => "static",
        Segment::External(ExternalName::Temp) => "temp",
        Segment::External(ExternalName::Pointer) => "pointer",
    }
}

/// Builds the instruction block of an arithmetic instruction; `c` is the
/// logical-label counter value a comparison consumes.
pub fn build_arith(op: ArithOp, c: u64) -> (v: Vec<Instr>)
    ensures
        v.deep_view() == arith_instrs(op, c as nat),
{
    let mut v: Vec<Instr> = Vec::new();
    proof {
        assert(v.deep_view() =~= Seq::<InstrV>::empty());
    }
    put(&mut v, Instr::Comment(String::from_str(op_name_str(op))));
    match op {
        ArithOp::Add => {
            emit_sp_dec_load(&mut v);
            emit_modify_top(&mut v, Comp::MPlusD);
        },
        ArithOp::Sub => {
            emit_sp_dec_load(&mut v);
            emit_modify_top(&mut v, Comp::MMinusD);
        },
        ArithOp::AndOp => {
            emit_sp_dec_load(&mut v);
            emit_modify_top(&mut v, Comp::MAndD);
        },
        ArithOp::OrOp => {
            emit_sp_dec_load(&mut v);
            emit_modify_top(&mut v, Comp::MOrD);
        },
        ArithOp::Neg => emit_modify_top(&mut v, Comp::NegM),
        ArithOp::NotOp => emit_modify_top(&mut v, Comp::NotM),
        ArithOp::CmpEq => emit_cmp_body(&mut v, JumpKind::Jeq, c),
        ArithOp::CmpGt => emit_cmp_body(&mut v, JumpKind::Jgt, c),
        ArithOp::CmpLt => emit_cmp_body(&mut v, JumpKind::Jlt, c),
    }
    proof {
        assert(v.deep_view() =~= arith_instrs(op, c as nat));
    }
    v
}

/// Builds the instruction block of a push or pop; pops of the
/// immediate-only segment are rejected before emission.
pub fn build_push_pop(dir: Direction, seg: Segment, idx: u32, unit: &str) -> (v: Vec<Instr>)
    requires
        !(dir == Direction::Pop && seg == Segment::External(ExternalName::Constant)),
    ensures
        v.deep_view() == push_pop_instrs(dir, seg, idx, unit@),
{
    let mut v: Vec<Instr> = Vec::new();
    proof {
        assert(v.deep_view() =~= Seq::<InstrV>::empty());
    }
    let mut comment = String::from_str(dir_name_str(dir));
    comment.append(" ");
    comment.append(seg_name_str(seg));
    comment.append(" ");
    let digits = u64_to_string(idx as u64);
    comment.append(digits.as_str());
    proof {
        assert(comment@ =~= pushpop_comment(dir, seg, idx));
    }
    put(&mut v, Instr::Comment(comment));
    match (dir, seg) {
        (Direction::Push, Segment::Internal(p)) => {
            let ptr = internal_at(p);
            put(&mut v, Instr::At(AtTarget::Num(idx as u64)));
            put(&mut v, Instr::Assign(Dest::D, Comp::A));
            put(&mut v, Instr::At(internal_at(p)));
            put(&mut v, Instr::Assign(Dest::M, Comp::MPlusD));
            put(&mut v, Instr::Assign(Dest::A, Comp::M));
            put(&mut v, Instr::Assign(Dest::D, Comp::M));
            emit_push_from_d(&mut v);
            put(&mut v, Instr::At(AtTarget::Num(idx as u64)));
            put(&mut v, Instr::Assign(Dest::D, Comp::A));
            put(&mut v, Instr::At(ptr));
            put(&mut v, Instr::Assign(Dest::M, Comp::MMinusD));
        },
        (Direction::Pop, Segment::Internal(p)) => {
            let ptr = internal_at(p);
            put(&mut v, Instr::At(AtTarget::Num(idx as u64)));
            put(&mut v, Instr::Assign(Dest::D, Comp::A));
            put(&mut v, Instr::At(internal_at(p)));
            put(&mut v, Instr::Assign(Dest::M, Comp::MPlusD));
            emit_sp_dec_load(&mut v);
            put(&mut v, Instr::At(internal_at(p)));
            put(&mut v, Instr::Assign(Dest::A, Comp::M));
            put(&mut v, Instr::Assign(Dest::M, Comp::D));
            put(&mut v, Instr::At(AtTarget::Num(idx as u64)));
            put(&mut v, Instr::Assign(Dest::D, Comp::A));
            put(&mut v, Instr::At(ptr));
            put(&mut v, Instr::Assign(Dest::M, Comp::MMinusD));
        },
        (Direction::Push, Segment::External(ExternalName::Constant)) => {
            put(&mut v, Instr::At(AtTarget::Num(idx as u64)));
            put(&mut v, Instr::Assign(Dest::D, Comp::A));
            emit_push_from_d(&mut v);
        },
        (Direction::Pop, Segment::External(ExternalName::Constant)) => {
            // excluded by the caller's obligation
        },
        (Direction::Push, Segment::External(ExternalName::Static)) => {
            put(&mut v, Instr::At(AtTarget::Sym(make_static_sym(unit, idx))));
            put(&mut v, Instr::Assign(Dest::D, Comp::M));
            emit_push_from_d(&mut v);
        },
        (Direction::Pop, Segment::External(ExternalName::Static)) => {
            emit_sp_dec_load(&mut v);
            put(&mut v, Instr::At(AtTarget::Sym(make_static_sym(unit, idx))));
            put(&mut v, Instr::Assign(Dest::M, Comp::D));
        },
        (Direction::Push, Segment::External(ExternalName::Temp)) => {
            put(&mut v, Instr::At(AtTarget::Num(idx as u64 + 5)));
            put(&mut v, Instr::Assign(Dest::D, Comp::M));
            emit_push_from_d(&mut v);
        },
        (Direction::Pop, Segment::External(ExternalName::Temp)) => {
            emit_sp_dec_load(&mut v);
            put(&mut v, Instr::At(AtTarget::Num(idx as u64 + 5)));
            put(&mut v, Instr::Assign(Dest::M, Comp::D));
        },
        (Direction::Push, Segment::External(ExternalName::Pointer)) => {
            put(&mut v, Instr::At(pointer_at(idx)));
            put(&mut v, Instr::Assign(Dest::D, Comp::M));
            emit_push_from_d(&mut v);
        },
        (Direction::Pop, Segment::External(ExternalName::Pointer)) => {
            emit_sp_dec_load(&mut v);
            put(&mut v, Instr::At(pointer_at(idx)));
            put(&mut v, Instr::Assign(Dest::M, Comp::D));
        },
    }
    proof {
        assert(v.deep_view() =~= push_pop_instrs(dir, seg, idx, unit@));
    }
    v
}

fn internal_at(p: InternalName) -> (r: AtTarget)
    ensures
        r@ == seg_ptr(p),
{
    match p {
        InternalName::Local => AtTarget::Lcl,
        InternalName::Argument => AtTarget::Arg,
        InternalName::This => AtTarget::This,
        InternalName::That => AtTarget::That,
    }
}

fn pointer_at(idx: u32) -> (r: AtTarget)
    ensures
        r@ == pointer_cell(idx),
{
    if idx == 1 {
        AtTarget::That
    } else {
        AtTarget::This
    }
}

fn branch_name_str(kind: BranchKind) -> (r: &'static str)
    ensures
        r@ == branch_text(kind),
{
    match kind {
        BranchKind::Label => "label",
        BranchKind::Goto => "goto",
        BranchKind::IfGoto => "if-goto",
    }
}

/// Builds the instruction block of a branching instruction; the emitted
/// target is the label qualified by the enclosing function.
pub fn build_branch(kind: BranchKind, cur_fn: &str, label: &str) -> (v: Vec<Instr>)
    ensures
        v.deep_view() == branch_instrs(kind, scoped_label(cur_fn@, label@), label@),
{
    let mut v: Vec<Instr> = Vec::new();
    proof {
        assert(v.deep_view() =~= Seq::<InstrV>::empty());
    }
    let mut comment = String::from_str(branch_name_str(kind));
    comment.append(" ");
    comment.append(label);
    proof {
        assert(comment@ =~= branch_text(kind) + " "@ + label@);
    }
    put(&mut v, Instr::Comment(comment));
    match kind {
        BranchKind::Label => {
            put(&mut v, Instr::Marker(make_scoped_label(cur_fn, label)));
        },
        BranchKind::Goto => {
            put(&mut v, Instr::At(AtTarget::Sym(make_scoped_label(cur_fn, label))));
            put(&mut v, Instr::Jump(Comp::Zero, JumpKind::Jmp));
        },
        BranchKind::IfGoto => {
            emit_sp_dec_load(&mut v);
            put(&mut v, Instr::At(AtTarget::Sym(make_scoped_label(cur_fn, label))));
            put(&mut v, Instr::Jump(Comp::D, JumpKind::Jne));
        },
    }
    proof {
        assert(v.deep_view() =~= branch_instrs(kind, scoped_label(cur_fn@, label@), label@));
    }
    v
}

/// Builds the instruction block of a function declaration.
pub fn build_declare(name: &str, n_vars: u32) -> (v: Vec<Instr>)
    ensures
        v.deep_view() == declare_instrs(name@, n_vars),
{
    let mut v: Vec<Instr> = Vec::new();
    proof {
        assert(v.deep_view() =~= Seq::<InstrV>::empty());
    }
    let mut comment = String::from_str("function ");
    comment.append(name);
    comment.append(" ");
    let digits = u64_to_string(n_vars as u64);
    comment.append(digits.as_str());
    proof {
        assert(comment@ =~= "function "@ + name@ + " "@ + dec_digits(n_vars as nat));
    }
    put(&mut v, Instr::Comment(comment));
    put(&mut v, Instr::Marker(String::from_str(name)));
    let ghost head = v.deep_view();
    let mut j: u32 = 0;
    while j < n_vars
        invariant
            0 <= j <= n_vars,
            v.deep_view() == head + locals_init(j as nat),
        decreases n_vars - j,
    {
        let ghost pre = v.deep_view();
        put(&mut v, Instr::At(AtTarget::Num(j as u64)));
        put(&mut v, Instr::Assign(Dest::D, Comp::A));
        put(&mut v, Instr::At(AtTarget::Lcl));
        put(&mut v, Instr::Assign(Dest::A, Comp::MPlusD));
        put(&mut v, Instr::Assign(Dest::M, Comp::Zero));
        put(&mut v, Instr::At(AtTarget::Sp));
        put(&mut v, Instr::Assign(Dest::M, Comp::MPlusOne));
        proof {
            assert(v.deep_view() =~= pre + init_one(j as int));
            assert(locals_init((j + 1) as nat) == locals_init(j as nat) + init_one(j as int));
            assert(v.deep_view() =~= head + locals_init((j + 1) as nat));
        }
        j = j + 1;
    }
    proof {
        assert(head + locals_init(0) =~= head);
        assert(v.deep_view() =~= declare_instrs(name@, n_vars));
    }
    v
}

fn emit_save_ptr(v: &mut Vec<Instr>, t: AtTarget)
    ensures
        final(v).deep_view() == old(v).deep_view() + save_ptr(t@),
{
    let ghost pre = v.deep_view();
    let ghost tv = t@;
    put(v, Instr::At(t));
    put(v, Instr::Assign(Dest::D, Comp::M));
    emit_push_from_d(v);
    proof {
        assert(v.deep_view() =~= pre + save_ptr(tv));
    }
}

/// Builds the instruction block of a call site; `k` is the call-site
/// counter value this site consumes.
pub fn build_call(name: &str, n_args: u32, k: u64) -> (v: Vec<Instr>)
    ensures
        v.deep_view() == call_instrs(name@, n_args, k as nat),
{
    let mut v: Vec<Instr> = Vec::new();
    proof {
        assert(v.deep_view() =~= Seq::<InstrV>::empty());
    }
    let mut comment = String::from_str("call ");
    comment.append(name);
    comment.append(" ");
    let digits = u64_to_string(n_args as u64);
    comment.append(digits.as_str());
    proof {
        assert(comment@ =~= "call "@ + name@ + " "@ + dec_digits(n_args as nat));
    }
    put(&mut v, Instr::Comment(comment));
    let ret = make_ret_label(name, k);
    put(&mut v, Instr::At(AtTarget::Sym(ret.clone())));
    put(&mut v, Instr::Assign(Dest::D, Comp::A));
    emit_push_from_d(&mut v);
    emit_save_ptr(&mut v, AtTarget::Lcl);
    emit_save_ptr(&mut v, AtTarget::Arg);
    emit_save_ptr(&mut v, AtTarget::This);
    emit_save_ptr(&mut v, AtTarget::That);
    put(&mut v, Instr::At(AtTarget::Sp));
    put(&mut v, Instr::Assign(Dest::D, Comp::M));
    put(&mut v, Instr::At(AtTarget::Num(5)));
    put(&mut v, Instr::Assign(Dest::D, Comp::DMinusA));
    put(&mut v, Instr::At(AtTarget::Num(n_args as u64)));
    put(&mut v, Instr::Assign(Dest::D, Comp::DMinusA));
    put(&mut v, Instr::At(AtTarget::Arg));
    put(&mut v, Instr::Assign(Dest::M, Comp::D));
    put(&mut v, Instr::At(AtTarget::Sp));
    put(&mut v, Instr::Assign(Dest::D, Comp::M));
    put(&mut v, Instr::At(AtTarget::Lcl));
    put(&mut v, Instr::Assign(Dest::M, Comp::D));
    put(&mut v, Instr::At(AtTarget::Sym(String::from_str(name))));
    put(&mut v, Instr::Jump(Comp::Zero, JumpKind::Jmp));
    put(&mut v, Instr::Marker(ret));
    proof {
        assert(v.deep_view() =~= call_instrs(name@, n_args, k as nat));
    }
    v
}

/// Builds the instruction block of a return.
#[verifier::rlimit(60)]
pub fn build_return() -> (v: Vec<Instr>)
    ensures
        v.deep_view() == return_instrs(),
{
    let mut v: Vec<Instr> = Vec::new();
    proof {
        assert(v.deep_view() =~= Seq::<InstrV>::empty());
    }
    put(&mut v, Instr::Comment(String::from_str("return")));
    put(&mut v, Instr::At(AtTarget::Lcl));
    put(&mut v, Instr::Assign(Dest::D, Comp::M));
    put(&mut v, Instr::At(AtTarget::R13));
    put(&mut v, Instr::Assign(Dest::M, Comp::D));
    put(&mut v, Instr::At(AtTarget::Num(5)));
    put(&mut v, Instr::Assign(Dest::A, Comp::DMinusA));
    put(&mut v, Instr::Assign(Dest::D, Comp::M));
    put(&mut v, Instr::At(AtTarget::R14));
    put(&mut v, Instr::Assign(Dest::M, Comp::D));
    emit_sp_dec_load(&mut v);
    put(&mut v, Instr::At(AtTarget::Arg));
    put(&mut v, Instr::Assign(Dest::A, Comp::M));
    put(&mut v, Instr::Assign(Dest::M, Comp::D));
    put(&mut v, Instr::At(AtTarget::Arg));
    put(&mut v, Instr::Assign(Dest::D, Comp::MPlusOne));
    put(&mut v, Instr::At(AtTarget::Sp));
    put(&mut v, Instr::Assign(Dest::M, Comp::D));
    put(&mut v, Instr::At(AtTarget::R13));
    put(&mut v, Instr::Assign(Dest::A, Comp::MMinusOne));
    put(&mut v, Instr::Assign(Dest::D, Comp::M));
    put(&mut v, Instr::At(AtTarget::That));
    put(&mut v, Instr::Assign(Dest::M, Comp::D));
    put(&mut v, Instr::At(AtTarget::Num(2)));
    put(&mut v, Instr::Assign(Dest::D, Comp::A));
    put(&mut v, Instr::At(AtTarget::R13));
    put(&mut v, Instr::Assign(Dest::A, Comp::MMinusD));
    put(&mut v, Instr::Assign(Dest::D, Comp::M));
    put(&mut v, Instr::At(AtTarget::This));
    put(&mut v, Instr::Assign(Dest::M, Comp::D));
    put(&mut v, Instr::At(AtTarget::Num(3)));
    put(&mut v, Instr::Assign(Dest::D, Comp::A));
    put(&mut v, Instr::At(AtTarget::R13));
    put(&mut v, Instr::Assign(Dest::A, Comp::MMinusD));
    put(&mut v, Instr::Assign(Dest::D, Comp::M));
    put(&mut v, Instr::At(AtTarget::Arg));
    put(&mut v, Instr::Assign(Dest::M, Comp::D));
    put(&mut v, Instr::At(AtTarget::Num(4)));
    put(&mut v, Instr::Assign(Dest::D, Comp::A));
    put(&mut v, Instr::At(AtTarget::R13));
    put(&mut v, Instr::Assign(Dest::A, Comp::MMinusD));
    put(&mut v, Instr::Assign(Dest::D, Comp::M));
    put(&mut v, Instr::At(AtTarget::Lcl));
    put(&mut v, Instr::Assign(Dest::M, Comp::D));
    put(&mut v, Instr::At(AtTarget::R14));
    put(&mut v, Instr::Assign(Dest::A, Comp::M));
    put(&mut v, Instr::Jump(Comp::Zero, JumpKind::Jmp));
    proof {
        assert(v.deep_view() =~= return_instrs());
    }
    v
}

/// Builds the bootstrap block.
pub fn build_bootstrap() -> (v: Vec<Instr>)
    ensures
        v.deep_view() == bootstrap_instrs(),
{
    let mut v: Vec<Instr> = Vec::new();
    proof {
        assert(v.deep_view() =~= Seq::<InstrV>::empty());
    }
    put(&mut v, Instr::Comment(String::from_str("bootstrap")));
    put(&mut v, Instr::At(AtTarget::Num(256)));
    put(&mut v, Instr::Assign(Dest::D, Comp::A));
    put(&mut v, Instr::At(AtTarget::Sp));
    put(&mut v, Instr::Assign(Dest::M, Comp::D));
    let ghost pre = v.deep_view();
    let mut call = build_call("Sys.init", 0, 0);
    v.append(&mut call);
    proof {
        assert(v.deep_view() =~= pre + call_instrs("Sys.init"@, 0, 0));
    }
    put(&mut v, Instr::Marker(String::from_str("HALT")));
    put(&mut v, Instr::At(AtTarget::Sym(String::from_str("HALT"))));
    put(&mut v, Instr::Jump(Comp::Zero, JumpKind::Jmp));
    proof {
        assert(v.deep_view() =~= bootstrap_instrs());
    }
    v
}

} // verus!
