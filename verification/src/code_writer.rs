//! The assembly emitter: one method per command family, each appending
//! exactly one rendered template block to the output, plus the driver
//! loop that classifies a whole text source and dispatches every
//! instruction. The emitter owns the run-lifetime counters and the
//! current translation-unit name.
use vstd::prelude::*;
use crate::instr::block_text;
use crate::parser::{cleaned, line_tokens, spec_classify, ParserClass};
use crate::prelude::{
    ArithOp, Command, CommandV, Direction, ExternalName, FunctionKind, FunctionKindV, Segment,
    State, TranslateError, TranslateErrorV,
};
use crate::templates::{
    arith_instrs, bootstrap_instrs, branch_instrs, build_arith, build_bootstrap, build_branch,
    build_call, build_declare, build_push_pop, build_return, call_instrs, declare_instrs,
    push_pop_instrs, return_instrs, scoped_label,
};

verus! {

/// Translates classified instructions into assembly text blocks. One
/// instance lives for a whole translation run, so the label counters are
/// unique across all input files merged into one output.
pub struct CodeWriterClass {
    /// The current translation-unit name, used to qualify `static`
    /// cells; the driver updates it between input files.
    pub file_name: String,
    /// The enclosing function, used to qualify branch labels; set by
    /// each function declaration.
    pub current_function: String,
    /// The run-lifetime label counters.
    pub state: State,
    /// The emitted blocks, in instruction-arrival order.
    pub output: Vec<String>,
}

impl CodeWriterClass {
    /// A fresh emitter for the translation unit `file_name`, with both
    /// counters at their conventional starting values and nothing
    /// emitted.
    pub fn new(file_name: String) -> (w: CodeWriterClass)
        ensures
            w.file_name == file_name,
            w.current_function@ == Seq::<char>::empty(),
            w.state.logical == 0,
            w.state.call == 1,
            w.output.deep_view() == Seq::<Seq<char>>::empty(),
    {
        let w = CodeWriterClass {
            file_name,
            current_function: String::new(),
            state: State::new(),
            output: Vec::new(),
        };
        proof {
            assert(w.output.deep_view() =~= Seq::<Seq<char>>::empty());
        }
        w
    }

    /// Emits the block of an arithmetic instruction. A comparison
    /// consumes the current logical-label counter value and increments
    /// it; no other operation touches it.
    pub fn write_arithmetic(&mut self, cmd: &Command)
        requires
            cmd@ is Arithmetic,
            (cmd@->Arithmetic_0).is_comparison() ==> old(self).state.logical < u64::MAX,
        ensures
            final(self).file_name == old(self).file_name,
            final(self).current_function == old(self).current_function,
            final(self).state.call == old(self).state.call,
            final(self).output.deep_view() == old(self).output.deep_view().push(
                block_text(arith_instrs(cmd@->Arithmetic_0, old(self).state.logical as nat)),
            ),
            final(self).state.logical == if (cmd@->Arithmetic_0).is_comparison() {
                old(self).state.logical + 1
            } else {
                old(self).state.logical as int
            },
    {
        let op = match cmd {
            Command::Arithmetic(op) => *op,
            _ => unreached(),
        };
        let v = build_arith(op, self.state.logical);
        let block = crate::instr::render_block(&v);
        if op == ArithOp::CmpEq || op == ArithOp::CmpGt || op == ArithOp::CmpLt {
            self.state.inc_logical();
        }
        let ghost pre = self.output.deep_view();
        self.output.push(block);
        proof {
            assert(self.output.deep_view() =~= pre.push(
                block_text(arith_instrs(op, old(self).state.logical as nat)),
            ));
        }
    }

    /// Emits the block of a push or pop. The caller must not dispatch a
    /// pop of the immediate-only `constant` segment here.
    pub fn write_push_pop(&mut self, cmd: &Command)
        requires
            cmd@ is PushPop,
            !(cmd@->PushPop_0 == Direction::Pop && cmd@->PushPop_1 == Segment::External(
                ExternalName::Constant,
            )),
        ensures
            final(self).file_name == old(self).file_name,
            final(self).current_function == old(self).current_function,
            final(self).state == old(self).state,
            final(self).output.deep_view() == old(self).output.deep_view().push(
                block_text(
                    push_pop_instrs(
                        cmd@->PushPop_0,
                        cmd@->PushPop_1,
                        cmd@->PushPop_2,
                        old(self).file_name@,
                    ),
                ),
            ),
    {
        let (dir, seg, idx) = match cmd {
            Command::PushPop(dir, seg, idx) => (*dir, *seg, *idx),
            _ => unreached(),
        };
        let v = build_push_pop(dir, seg, idx, self.file_name.as_str());
        let block = crate::instr::render_block(&v);
        let ghost pre = self.output.deep_view();
        self.output.push(block);
        proof {
            assert(self.output.deep_view() =~= pre.push(
                block_text(push_pop_instrs(dir, seg, idx, old(self).file_name@)),
            ));
        }
    }

    /// Emits the block of a branching instruction; the emitted label is
    /// qualified by the enclosing function.
    pub fn write_branch(&mut self, cmd: &Command)
        requires
            cmd@ is Branch,
        ensures
            final(self).file_name == old(self).file_name,
            final(self).current_function == old(self).current_function,
            final(self).state == old(self).state,
            final(self).output.deep_view() == old(self).output.deep_view().push(
                block_text(
                    branch_instrs(
                        cmd@->Branch_0,
                        scoped_label(old(self).current_function@, cmd@->Branch_1),
                        cmd@->Branch_1,
                    ),
                ),
            ),
    {
        let (kind, label) = match cmd {
            Command::Branch(kind, label) => (*kind, label),
            _ => unreached(),
        };
        let v = build_branch(kind, self.current_function.as_str(), label.as_str());
        let block = crate::instr::render_block(&v);
        let ghost pre = self.output.deep_view();
        self.output.push(block);
        proof {
            assert(self.output.deep_view() =~= pre.push(
                block_text(
                    branch_instrs(
                        kind,
                        scoped_label(old(self).current_function@, label@),
                        label@,
                    ),
                ),
            ));
        }
    }

    /// Emits the block of a function-family instruction. A declaration
    /// becomes the new enclosing function; a call consumes the current
    /// call-site counter value and increments it; a return changes no
    /// emitter state.
    pub fn write_function(&mut self, cmd: &Command)
        requires
            cmd@ is Function,
            (cmd@->Function_0 is Call) ==> old(self).state.call < u64::MAX,
        ensures
            final(self).file_name == old(self).file_name,
            final(self).state.logical == old(self).state.logical,
            match cmd@->Function_0 {
                FunctionKindV::Declare(name, n_vars) => {
                    &&& final(self).output.deep_view() == old(self).output.deep_view().push(
                        block_text(declare_instrs(name, n_vars)),
                    )
                    &&& final(self).current_function@ == name
                    &&& final(self).state.call == old(self).state.call
                },
                FunctionKindV::Call(name, n_args) => {
                    &&& final(self).output.deep_view() == old(self).output.deep_view().push(
                        block_text(call_instrs(name, n_args, old(self).state.call as nat)),
                    )
                    &&& final(self).current_function == old(self).current_function
                    &&& final(self).state.call == old(self).state.call + 1
                },
                FunctionKindV::Return => {
                    &&& final(self).output.deep_view() == old(self).output.deep_view().push(
                        block_text(return_instrs()),
                    )
                    &&& final(self).current_function == old(self).current_function
                    &&& final(self).state.call == old(self).state.call
                },
            },
    {
        let f = match cmd {
            Command::Function(f) => f,
            _ => unreached(),
        };
        let ghost pre = self.output.deep_view();
        match f {
            FunctionKind::Declare(name, n_vars) => {
                let v = build_declare(name.as_str(), *n_vars);
                let block = crate::instr::render_block(&v);
                self.current_function = name.clone();
                self.output.push(block);
                proof {
                    assert(self.output.deep_view() =~= pre.push(
                        block_text(declare_instrs(name@, *n_vars)),
                    ));
                }
            },
            FunctionKind::Call(name, n_args) => {
                let v = build_call(name.as_str(), *n_args, self.state.call);
                let block = crate::instr::render_block(&v);
                self.state.inc_function();
                self.output.push(block);
                proof {
                    assert(self.output.deep_view() =~= pre.push(
                        block_text(call_instrs(name@, *n_args, old(self).state.call as nat)),
                    ));
                }
            },
            FunctionKind::Return => {
                let v = build_return();
                let block = crate::instr::render_block(&v);
                self.output.push(block);
                proof {
                    assert(self.output.deep_view() =~= pre.push(block_text(return_instrs())));
                }
            },
        }
    }

    /// Emits the bootstrap block. The driver calls this once per run,
    /// before any translated instruction.
    pub fn write_init(&mut self)
        ensures
            final(self).file_name == old(self).file_name,
            final(self).current_function == old(self).current_function,
            final(self).state == old(self).state,
            final(self).output.deep_view() == old(self).output.deep_view().push(
                block_text(bootstrap_instrs()),
            ),
    {
        let v = build_bootstrap();
        let block = crate::instr::render_block(&v);
        let ghost pre = self.output.deep_view();
        self.output.push(block);
        proof {
            assert(self.output.deep_view() =~= pre.push(block_text(bootstrap_instrs())));
        }
    }
}

// ------------------------------------------------------------------
// The whole-run specification and the driver loop
// ------------------------------------------------------------------

/// What a run leaves behind: the emitted blocks, the counter values the
/// comparison and call sites consumed (in source order), and the final
/// counter and function-context values.
pub ghost struct RunOutcome {
    pub blocks: Seq<Seq<char>>,
    pub cmp_sites: Seq<nat>,
    pub call_sites: Seq<(Seq<char>, nat)>,
    pub logical: nat,
    pub call: nat,
    pub cur_fn: Seq<char>,
}

/// The logical-counter value a comparison instruction consumes; other
/// instructions consume none.
pub open spec fn cmd_cmp_sites(c: CommandV, logical: nat) -> Seq<nat> {
    match c {
        CommandV::Arithmetic(op) => if op.is_comparison() {
            seq![logical]
        } else {
            Seq::empty()
        },
        _ => Seq::empty(),
    }
}

/// The callee name and call-counter value a call instruction consumes;
/// other instructions consume none.
pub open spec fn cmd_call_sites(c: CommandV, call: nat) -> Seq<(Seq<char>, nat)> {
    match c {
        CommandV::Function(FunctionKindV::Call(name, _)) => seq![(name, call)],
        _ => Seq::empty(),
    }
}

/// Whether a classified instruction is a pop of the immediate-only
/// segment, the one push/pop form that cannot be emitted.
pub open spec fn is_pop_constant(c: CommandV) -> bool {
    match c {
        CommandV::PushPop(dir, seg, _) => dir == Direction::Pop && seg == Segment::External(
            ExternalName::Constant,
        ),
        _ => false,
    }
}

/// The one block a classified instruction emits, given the counter and
/// context values current when it arrives.
pub open spec fn cmd_block(c: CommandV, logical: nat, call: nat, unit: Seq<char>, cur_fn: Seq<char>) -> Seq<
    char,
> {
    match c {
        CommandV::Arithmetic(op) => block_text(arith_instrs(op, logical)),
        CommandV::PushPop(dir, seg, idx) => block_text(push_pop_instrs(dir, seg, idx, unit)),
        CommandV::Branch(kind, label) => block_text(
            branch_instrs(kind, scoped_label(cur_fn, label), label),
        ),
        CommandV::Function(FunctionKindV::Declare(name, n)) => block_text(declare_instrs(name, n)),
        CommandV::Function(FunctionKindV::Call(name, n)) => block_text(call_instrs(name, n, call)),
        CommandV::Function(FunctionKindV::Return) => block_text(return_instrs()),
    }
}

pub open spec fn next_logical(c: CommandV, logical: nat) -> nat {
    match c {
        CommandV::Arithmetic(op) => if op.is_comparison() {
            logical + 1
        } else {
            logical
        },
        _ => logical,
    }
}

pub open spec fn next_call(c: CommandV, call: nat) -> nat {
    match c {
        CommandV::Function(FunctionKindV::Call(_, _)) => call + 1,
        _ => call,
    }
}

pub open spec fn next_fn(c: CommandV, cur_fn: Seq<char>) -> Seq<char> {
    match c {
        CommandV::Function(FunctionKindV::Declare(name, _)) => name,
        _ => cur_fn,
    }
}

/// What translating the lines from `pos` on yields: the blocks of every
/// recognized instruction in source order, with counters threaded
/// through, or the first fatal error.
pub open spec fn spec_run(
    lines: Seq<Seq<char>>,
    pos: int,
    logical: nat,
    call: nat,
    unit: Seq<char>,
    cur_fn: Seq<char>,
) -> Result<RunOutcome, TranslateErrorV>
    decreases lines.len() - pos,
{
    if pos < 0 || pos >= lines.len() {
        Ok(
            RunOutcome {
                blocks: Seq::empty(),
                cmp_sites: Seq::empty(),
                call_sites: Seq::empty(),
                logical,
                call,
                cur_fn,
            },
        )
    } else {
        match spec_classify(lines[pos]) {
            Err(e) => Err(e),
            Ok(None) => spec_run(lines, pos + 1, logical, call, unit, cur_fn),
            Ok(Some(c)) => {
                if is_pop_constant(c) {
                    Err(TranslateErrorV::PopConstant(cleaned(lines[pos])))
                } else {
                    match spec_run(
                        lines,
                        pos + 1,
                        next_logical(c, logical),
                        next_call(c, call),
                        unit,
                        next_fn(c, cur_fn),
                    ) {
                        Err(e) => Err(e),
                        Ok(rest) => Ok(
                            RunOutcome {
                                blocks: seq![cmd_block(c, logical, call, unit, cur_fn)]
                                    + rest.blocks,
                                cmp_sites: cmd_cmp_sites(c, logical) + rest.cmp_sites,
                                call_sites: cmd_call_sites(c, call) + rest.call_sites,
                                ..rest
                            },
                        ),
                    }
                }
            },
        }
    }
}

/// What the driver loop observes of a run outcome: the blocks and the
/// final counter and context values.
pub ghost struct RunView {
    pub blocks: Seq<Seq<char>>,
    pub logical: nat,
    pub call: nat,
    pub cur_fn: Seq<char>,
}

pub open spec fn run_view(r: Result<RunOutcome, TranslateErrorV>) -> Result<
    RunView,
    TranslateErrorV,
> {
    match r {
        Ok(o) => Ok(RunView { blocks: o.blocks, logical: o.logical, call: o.call, cur_fn: o.cur_fn }),
        Err(e) => Err(e),
    }
}

/// Prefixing already-emitted blocks onto an observed run outcome.
pub open spec fn prepend_run(done: Seq<Seq<char>>, r: Result<RunView, TranslateErrorV>) -> Result<
    RunView,
    TranslateErrorV,
> {
    match r {
        Ok(o) => Ok(RunView { blocks: done + o.blocks, ..o }),
        Err(e) => Err(e),
    }
}

proof fn lemma_spec_run_skip(
    lines: Seq<Seq<char>>,
    p: int,
    q: int,
    logical: nat,
    call: nat,
    unit: Seq<char>,
    cur_fn: Seq<char>,
)
    requires
        0 <= p <= q <= lines.len(),
        forall|m: int| p <= m < q ==> line_tokens(#[trigger] lines[m]).len() == 0,
    ensures
        spec_run(lines, p, logical, call, unit, cur_fn) == spec_run(
            lines,
            q,
            logical,
            call,
            unit,
            cur_fn,
        ),
    decreases q - p,
{
    if p < q {
        assert(spec_classify(lines[p]) == Ok::<Option<CommandV>, TranslateErrorV>(None));
        lemma_spec_run_skip(lines, p + 1, q, logical, call, unit, cur_fn);
    }
}

/// Translates every remaining instruction of the classifier's text
/// source, appending one block per recognized instruction to the
/// emitter's output, and stops at the first fatal error. The counter
/// bounds in the precondition only rule out overflowing the label
/// counters, which grow by at most one per source line.
#[verifier::loop_isolation(false)]
pub fn translate(parser: &mut ParserClass, writer: &mut CodeWriterClass) -> (r: Result<
    (),
    TranslateError,
>)
    requires
        old(parser).pos <= old(parser).lines@.len(),
        old(writer).state.logical + old(parser).lines@.len() - old(parser).pos <= u64::MAX,
        old(writer).state.call + old(parser).lines@.len() - old(parser).pos <= u64::MAX,
    ensures
        final(parser).lines == old(parser).lines,
        final(writer).file_name == old(writer).file_name,
        ({
            let res = spec_run(
                old(parser).lines.deep_view(),
                old(parser).pos as int,
                old(writer).state.logical as nat,
                old(writer).state.call as nat,
                old(writer).file_name@,
                old(writer).current_function@,
            );
            match r {
                Ok(_) => {
                    &&& res is Ok
                    &&& final(writer).output.deep_view() == old(writer).output.deep_view()
                        + res->Ok_0.blocks
                    &&& final(writer).state.logical as nat == res->Ok_0.logical
                    &&& final(writer).state.call as nat == res->Ok_0.call
                    &&& final(writer).current_function@ == res->Ok_0.cur_fn
                },
                Err(e) => {
                    &&& res == Err::<RunOutcome, TranslateErrorV>(e@)
                    &&& old(writer).output.deep_view().is_prefix_of(final(writer).output.deep_view())
                },
            }
        }),
{
    let ghost lines0 = old(parser).lines.deep_view();
    let ghost pos0 = old(parser).pos as int;
    let ghost l0 = old(writer).state.logical as nat;
    let ghost c0 = old(writer).state.call as nat;
    let ghost unit = old(writer).file_name@;
    let ghost f0 = old(writer).current_function@;
    let ghost out0 = old(writer).output.deep_view();
    loop
        invariant
            parser.lines == old(parser).lines,
            writer.file_name == old(writer).file_name,
            pos0 <= parser.pos <= parser.lines@.len(),
            writer.state.logical <= l0 + (parser.pos - pos0),
            writer.state.call <= c0 + (parser.pos - pos0),
            l0 + lines0.len() - pos0 <= u64::MAX,
            c0 + lines0.len() - pos0 <= u64::MAX,
            out0.is_prefix_of(writer.output.deep_view()),
            run_view(spec_run(lines0, pos0, l0, c0, unit, f0)) == prepend_run(
                writer.output.deep_view().skip(out0.len() as int),
                run_view(spec_run(
                    lines0,
                    parser.pos as int,
                    writer.state.logical as nat,
                    writer.state.call as nat,
                    unit,
                    writer.current_function@,
                )),
            ),
        decreases parser.lines@.len() - parser.pos,
    {
        let ghost pos_entry = parser.pos as int;
        let ghost l_entry = writer.state.logical as nat;
        let ghost c_entry = writer.state.call as nat;
        let ghost f_entry = writer.current_function@;
        let ghost done_entry = writer.output.deep_view().skip(out0.len() as int);
        let advanced = parser.has_more_commands();
        match advanced {
            Err(e) => {
                proof {
                    let j: int = parser.pos - 1;
                    lemma_spec_run_skip(lines0, pos_entry, j, l_entry, c_entry, unit, f_entry);
                    assert(spec_run(lines0, j, l_entry, c_entry, unit, f_entry)
                        == Err::<RunOutcome, TranslateErrorV>(e@));
                }
                return Err(e);
            },
            Ok(false) => {
                proof {
                    lemma_spec_run_skip(
                        lines0,
                        pos_entry,
                        lines0.len() as int,
                        l_entry,
                        c_entry,
                        unit,
                        f_entry,
                    );
                    let res = spec_run(lines0, pos0, l0, c0, unit, f0);
                    assert(res is Ok);
                    assert(done_entry + Seq::<Seq<char>>::empty() =~= done_entry);
                    assert(writer.output.deep_view() =~= out0 + done_entry);
                }
                return Ok(());
            },
            Ok(true) => {
                proof {
                    let j = parser.pos - 1;
                    lemma_spec_run_skip(lines0, pos_entry, j, l_entry, c_entry, unit, f_entry);
                }
                let ghost j: int = parser.pos - 1;
                match &parser.command {
                    None => {
                        proof {
                            assert(spec_run(lines0, j, l_entry, c_entry, unit, f_entry)
                                == spec_run(lines0, j + 1, l_entry, c_entry, unit, f_entry));
                        }
                    },
                    Some(cmd) => {
                        let ghost cdv = cmd.deep_view();
                        proof {
                            assert(spec_classify(lines0[j])
                                == Ok::<Option<CommandV>, TranslateErrorV>(Some(cdv)));
                        }
                        match cmd {
                            Command::PushPop(dir, seg, _) => {
                                if *dir == Direction::Pop && *seg == Segment::External(
                                    ExternalName::Constant,
                                ) {
                                    proof {
                                        assert(is_pop_constant(cdv));
                                        assert(spec_run(lines0, j, l_entry, c_entry, unit, f_entry)
                                            == Err::<RunOutcome, TranslateErrorV>(
                                            TranslateErrorV::PopConstant(cleaned(lines0[j])),
                                        ));
                                    }
                                    return Err(
                                        TranslateError::PopConstant(parser.current_command.clone()),
                                    );
                                }
                                writer.write_push_pop(cmd);
                            },
                            Command::Arithmetic(_) => {
                                writer.write_arithmetic(cmd);
                            },
                            Command::Branch(_, _) => {
                                writer.write_branch(cmd);
                            },
                            Command::Function(_) => {
                                writer.write_function(cmd);
                            },
                        }
                        proof {
                            let blk = cmd_block(cdv, l_entry, c_entry, unit, f_entry);
                            assert(writer.output.deep_view().skip(out0.len() as int)
                                =~= done_entry + seq![blk]);
                            assert(!is_pop_constant(cdv));
                            assert(writer.state.logical as nat == next_logical(cdv, l_entry));
                            assert(writer.state.call as nat == next_call(cdv, c_entry));
                            assert(writer.current_function@ == next_fn(cdv, f_entry));
                            let rest = spec_run(
                                lines0,
                                j + 1,
                                next_logical(cdv, l_entry),
                                next_call(cdv, c_entry),
                                unit,
                                next_fn(cdv, f_entry),
                            );
                            if rest is Ok {
                                assert(done_entry + (seq![blk] + rest->Ok_0.blocks)
                                    =~= (done_entry + seq![blk]) + rest->Ok_0.blocks);
                            }
                        }
                    },
                }
            },
        }
    }
}


} // verus!
