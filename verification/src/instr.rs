//! The target machine's instruction forms as the emitter uses them, their
//! rendering to text, and a data-effect semantics for straight-line
//! instruction sequences. The semantics tracks the two registers and the
//! memory; jumps and location markers move only the program counter, which
//! this model does not follow, so they are data no-ops here.
use vstd::prelude::*;
use crate::text::dec_digits;
use crate::text::u64_to_string;

verus! {

/// The destination register of an assignment.
#[derive(Clone, Copy, Debug, PartialEq, Eq, Structural)]
pub enum Dest {
    A,
    D,
    M,
}

/// The computed operand forms the emitter's templates use.
#[derive(Clone, Copy, Debug, PartialEq, Eq, Structural)]
pub enum Comp {
    Zero,
    NegOne,
    A,
    D,
    M,
    MPlusOne,
    MMinusOne,
    MPlusD,
    MMinusD,
    DMinusA,
    MAndD,
    MOrD,
    NotM,
    NegM,
}

/// The jump conditions the emitter's templates use.
#[derive(Clone, Copy, Debug, PartialEq, Eq, Structural)]
pub enum JumpKind {
    Jmp,
    Jeq,
    Jgt,
    Jlt,
    Jne,
}

/// The target of an address-load instruction: a well-known register
/// symbol, a numeric cell, or a symbolic name left to the assembler.
#[derive(Debug)]
pub enum AtTarget {
    Sp,
    Lcl,
    Arg,
    This,
    That,
    R13,
    R14,
    Num(u64),
    Sym(String),
}

/// The mathematical shape of an `AtTarget`.
pub ghost enum AtTargetV {
    Sp,
    Lcl,
    Arg,
    This,
    That,
    R13,
    R14,
    Num(int),
    Sym(Seq<char>),
}

/// One output line: a comment, an address load, a location marker, an
/// assignment, or a conditional jump on a computed value.
#[derive(Debug)]
pub enum Instr {
    Comment(String),
    At(AtTarget),
    Marker(String),
    Assign(Dest, Comp),
    Jump(Comp, JumpKind),
}

/// The mathematical shape of an `Instr` line.
pub ghost enum InstrV {
    Comment(Seq<char>),
    At(AtTargetV),
    Marker(Seq<char>),
    Assign(Dest, Comp),
    Jump(Comp, JumpKind),
}

impl View for AtTarget {
    type V = AtTargetV;

    open spec fn view(&self) -> AtTargetV {
        match self {
            AtTarget::Sp => AtTargetV::Sp,
            AtTarget::Lcl => AtTargetV::Lcl,
            AtTarget::Arg => AtTargetV::Arg,
            AtTarget::This => AtTargetV::This,
            AtTarget::That => AtTargetV::That,
            AtTarget::R13 => AtTargetV::R13,
            AtTarget::R14 => AtTargetV::R14,
            AtTarget::Num(n) => AtTargetV::Num(*n as int),
            AtTarget::Sym(s) => AtTargetV::Sym(s@),
        }
    }
}

impl View for Instr {
    type V = InstrV;

    open spec fn view(&self) -> InstrV {
        match self {
            Instr::Comment(t) => InstrV::Comment(t@),
            Instr::At(t) => InstrV::At(t@),
            Instr::Marker(s) => InstrV::Marker(s@),
            Instr::Assign(d, c) => InstrV::Assign(*d, *c),
            Instr::Jump(c, j) => InstrV::Jump(*c, *j),
        }
    }
}

impl DeepView for Instr {
    type V = InstrV;

    open spec fn deep_view(&self) -> InstrV {
        self.view()
    }
}

// ------------------------------------------------------------------
// Rendering
// ------------------------------------------------------------------

pub open spec fn dest_text(d: Dest) -> Seq<char> {
    match d {
        Dest::A => "A"@,
        Dest::D => "D"@,
        Dest::M => "M"@,
    }
}

pub open spec fn comp_text(c: Comp) -> Seq<char> {
    match c {
        Comp::Zero => "0"@,
        Comp::NegOne => "-1"@,
        Comp::A => "A"@,
        Comp::D => "D"@,
        Comp::M => "M"@,
        Comp::MPlusOne => "M+1"@,
        Comp::MMinusOne => "M-1"@,
        Comp::MPlusD => "M+D"@,
        Comp::MMinusD => "M-D"@,
        Comp::DMinusA => "D-A"@,
        Comp::MAndD => "M&D"@,
        Comp::MOrD => "M|D"@,
        Comp::NotM => "!M"@,
        Comp::NegM => "-M"@,
    }
}

pub open spec fn jump_text(j: JumpKind) -> Seq<char> {
    match j {
        JumpKind::Jmp => "JMP"@,
        JumpKind::Jeq => "JEQ"@,
        JumpKind::Jgt => "JGT"@,
        JumpKind::Jlt => "JLT"@,
        JumpKind::Jne => "JNE"@,
    }
}

pub open spec fn at_text(t: AtTargetV) -> Seq<char> {
    match t {
        AtTargetV::Sp => "@SP"@,
        AtTargetV::Lcl => "@LCL"@,
        AtTargetV::Arg => "@ARG"@,
        AtTargetV::This => "@THIS"@,
        AtTargetV::That => "@THAT"@,
        AtTargetV::R13 => "@R13"@,
        AtTargetV::R14 => "@R14"@,
        AtTargetV::Num(n) => "@"@ + dec_digits(n as nat),
        AtTargetV::Sym(s) => "@"@ + s,
    }
}

/// The text of one output line, without its terminating line break.
pub open spec fn line_text(i: InstrV) -> Seq<char> {
    match i {
        InstrV::Comment(t) => "// "@ + t,
        InstrV::At(t) => at_text(t),
        InstrV::Marker(s) => "("@ + s + ")"@,
        InstrV::Assign(d, c) => dest_text(d) + "="@ + comp_text(c),
        InstrV::Jump(c, j) => comp_text(c) + ";"@ + jump_text(j),
    }
}

/// The text of a whole instruction block: each line followed by a line
/// break.
pub open spec fn block_text(prog: Seq<InstrV>) -> Seq<char>
    decreases prog.len(),
{
    if prog.len() == 0 {
        Seq::empty()
    } else {
        line_text(prog[0]) + "\n"@ + block_text(prog.drop_first())
    }
}

pub proof fn lemma_block_text_append(p: Seq<InstrV>, q: Seq<InstrV>)
    ensures
        block_text(p + q) == block_text(p) + block_text(q),
    decreases p.len(),
{
    if p.len() == 0 {
        assert(p + q =~= q);
        assert(block_text(p) =~= Seq::<char>::empty());
        assert(block_text(p) + block_text(q) =~= block_text(q));
    } else {
        assert((p + q).drop_first() =~= p.drop_first() + q);
        lemma_block_text_append(p.drop_first(), q);
        assert((p + q)[0] == p[0]);
        assert(line_text(p[0]) + "\n"@ + (block_text(p.drop_first()) + block_text(q))
            =~= (line_text(p[0]) + "\n"@ + block_text(p.drop_first())) + block_text(q));
    }
}

fn dest_str(d: Dest) -> (r: &'static str)
    ensures
        r@ == dest_text(d),
{
    match d {
        Dest::A => "A",
        Dest::D => "D",
        Dest::M => "M",
    }
}

fn comp_str(c: Comp) -> (r: &'static str)
    ensures
        r@ == comp_text(c),
{
    match c {
        Comp::Zero => "0",
        Comp::NegOne => "-1",
        Comp::A => "A",
        Comp::D => "D",
        Comp::M => "M",
        Comp::MPlusOne => "M+1",
        Comp::MMinusOne => "M-1",
        Comp::MPlusD => "M+D",
        Comp::MMinusD => "M-D",
        Comp::DMinusA => "D-A",
        Comp::MAndD => "M&D",
        Comp::MOrD => "M|D",
        Comp::NotM => "!M",
        Comp::NegM => "-M",
    }
}

fn jump_str(j: JumpKind) -> (r: &'static str)
    ensures
        r@ == jump_text(j),
{
    match j {
        JumpKind::Jmp => "JMP",
        JumpKind::Jeq => "JEQ",
        JumpKind::Jgt => "JGT",
        JumpKind::Jlt => "JLT",
        JumpKind::Jne => "JNE",
    }
}

fn render_line_into(out: &mut String, i: &Instr)
    ensures
        final(out)@ == old(out)@ + line_text(i@) + "\n"@,
{
    match i {
        Instr::Comment(t) => {
            out.append("// ");
            out.append(t.as_str());
        },
        Instr::At(t) => {
            match t {
                AtTarget::Sp => out.append("@SP"),
                AtTarget::Lcl => out.append("@LCL"),
                AtTarget::Arg => out.append("@ARG"),
                AtTarget::This => out.append("@THIS"),
                AtTarget::That => out.append("@THAT"),
                AtTarget::R13 => out.append("@R13"),
                AtTarget::R14 => out.append("@R14"),
                AtTarget::Num(n) => {
                    out.append("@");
                    let digits = u64_to_string(*n);
                    out.append(digits.as_str());
                },
                AtTarget::Sym(s) => {
                    out.append("@");
                    out.append(s.as_str());
                },
            }
        },
        Instr::Marker(s) => {
            out.append("(");
            out.append(s.as_str());
            out.append(")");
        },
        Instr::Assign(d, c) => {
            out.append(dest_str(*d));
            out.append("=");
            out.append(comp_str(*c));
        },
        Instr::Jump(c, j) => {
            out.append(comp_str(*c));
            out.append(";");
            out.append(jump_str(*j));
        },
    }
    out.append("\n");
}

/// Renders an instruction sequence as one text block, one line per
/// instruction.
pub fn render_block(prog: &Vec<Instr>) -> (s: String)
    ensures
        s@ == block_text(prog.deep_view()),
{
    let mut out = String::new();
    let n = prog.len();
    let mut i: usize = 0;
    proof {
        assert(prog.deep_view().take(0) =~= Seq::<InstrV>::empty());
    }
    while i < n
        invariant
            n == prog.len(),
            prog.deep_view().len() == n,
            0 <= i <= n,
            out@ == block_text(prog.deep_view().take(i as int)),
        decreases n - i,
    {
        render_line_into(&mut out, &prog[i]);
        proof {
            let dv = prog.deep_view();
            assert(dv.take(i + 1) =~= dv.take(i as int) + seq![dv[i as int]]);
            lemma_block_text_append(dv.take(i as int), seq![dv[i as int]]);
            assert(block_text(seq![dv[i as int]]) =~= line_text(dv[i as int]) + "\n"@) by {
                assert(seq![dv[i as int]].drop_first() =~= Seq::<InstrV>::empty());
                assert(block_text(Seq::<InstrV>::empty()) =~= Seq::<char>::empty());
            }
            assert(out@ =~= block_text(dv.take(i + 1)));
        }
        i = i + 1;
    }
    proof {
        assert(prog.deep_view().take(n as int) =~= prog.deep_view());
    }
    out
}

// ------------------------------------------------------------------
// Data-effect semantics
// ------------------------------------------------------------------

/// The data state of the target machine: the address register, the data
/// register, and the memory.
pub ghost struct MachState {
    pub a: int,
    pub d: int,
    pub ram: Map<int, int>,
}

/// The cell address an address-load names. Symbolic names are resolved by
/// the assembler; `env` stands for that assignment.
pub open spec fn at_addr(env: Map<Seq<char>, int>, t: AtTargetV) -> int {
    match t {
        AtTargetV::Sp => 0,
        AtTargetV::Lcl => 1,
        AtTargetV::Arg => 2,
        AtTargetV::This => 3,
        AtTargetV::That => 4,
        AtTargetV::R13 => 13,
        AtTargetV::R14 => 14,
        AtTargetV::Num(n) => n,
        AtTargetV::Sym(s) => env[s],
    }
}

/// The value a computed operand denotes in a state. Memory cells are
/// modelled as unbounded integers; the bitwise forms operate on the low
/// 16 bits, the machine's word.
pub open spec fn comp_val(s: MachState, c: Comp) -> int {
    match c {
        Comp::Zero => 0,
        Comp::NegOne => -1,
        Comp::A => s.a,
        Comp::D => s.d,
        Comp::M => s.ram[s.a],
        Comp::MPlusOne => s.ram[s.a] + 1,
        Comp::MMinusOne => s.ram[s.a] - 1,
        Comp::MPlusD => s.ram[s.a] + s.d,
        Comp::MMinusD => s.ram[s.a] - s.d,
        Comp::DMinusA => s.d - s.a,
        Comp::MAndD => ((s.ram[s.a] as u16) & (s.d as u16)) as int,
        Comp::MOrD => ((s.ram[s.a] as u16) | (s.d as u16)) as int,
        Comp::NotM => (!(s.ram[s.a] as u16)) as int,
        Comp::NegM => -s.ram[s.a],
    }
}

/// The data effect of one instruction. Comments, markers and jumps leave
/// the data state unchanged.
pub open spec fn step(env: Map<Seq<char>, int>, s: MachState, i: InstrV) -> MachState {
    match i {
        InstrV::Comment(_) => s,
        InstrV::Marker(_) => s,
        InstrV::Jump(_, _) => s,
        InstrV::At(t) => MachState { a: at_addr(env, t), ..s },
        InstrV::Assign(dest, c) => {
            let v = comp_val(s, c);
            match dest {
                Dest::A => MachState { a: v, ..s },
                Dest::D => MachState { d: v, ..s },
                Dest::M => MachState { ram: s.ram.insert(s.a, v), ..s },
            }
        },
    }
}

/// The data state after executing `prog` from position `i` on, one
/// instruction after the other.
pub open spec fn run_from(env: Map<Seq<char>, int>, s: MachState, prog: Seq<InstrV>, i: int) -> MachState
    decreases prog.len() - i,
{
    if i < 0 || i >= prog.len() {
        s
    } else {
        run_from(env, step(env, s, prog[i]), prog, i + 1)
    }
}

/// The data state after executing a whole instruction sequence.
pub open spec fn run_instrs(env: Map<Seq<char>, int>, s: MachState, prog: Seq<InstrV>) -> MachState {
    run_from(env, s, prog, 0)
}

proof fn lemma_run_from_shift(env: Map<Seq<char>, int>, s: MachState, p: Seq<InstrV>, q: Seq<InstrV>, j: int)
    requires
        0 <= j <= q.len(),
    ensures
        run_from(env, s, p + q, p.len() + j) == run_from(env, s, q, j),
    decreases q.len() - j,
{
    if j < q.len() {
        assert((p + q)[p.len() + j] == q[j]);
        lemma_run_from_shift(env, step(env, s, q[j]), p, q, j + 1);
    }
}

/// Executing a concatenation is executing the parts in order.
pub proof fn lemma_run_append(env: Map<Seq<char>, int>, s: MachState, p: Seq<InstrV>, q: Seq<InstrV>)
    ensures
        run_instrs(env, s, p + q) == run_instrs(env, run_instrs(env, s, p), q),
    decreases p.len(),
{
    if p.len() == 0 {
        assert(p + q =~= q);
    } else {
        assert((p + q)[0] == p[0]);
        let s1 = step(env, s, p[0]);
        assert(p.drop_first() + q =~= (p + q).drop_first());
        lemma_run_append(env, s1, p.drop_first(), q);
        lemma_run_from_one(env, s1, p + q);
        lemma_run_from_one(env, s1, p);
    }
}

proof fn lemma_run_from_one(env: Map<Seq<char>, int>, s: MachState, p: Seq<InstrV>)
    requires
        p.len() >= 1,
    ensures
        run_from(env, s, p, 1) == run_instrs(env, s, p.drop_first()),
    decreases p.len(),
{
    lemma_run_from_shift(env, s, p.take(1), p.drop_first(), 0);
    assert(p.take(1) + p.drop_first() =~= p);
}

} // verus!
