//! The translator's data model: typed commands and memory segments as the
//! classifier publishes them, the error taxonomy, and the small utility
//! containers (`List`, `CommandList`, `State`) shared by both components.
use vstd::prelude::*;
use crate::text::dec_digits;
use crate::text::u64_to_string;

verus! {

/// An arithmetic or logical stack operation.
#[derive(Clone, Copy, Debug, PartialEq, Eq, Structural)]
pub enum ArithOp {
    Add,
    Sub,
    Neg,
    CmpEq,
    CmpGt,
    CmpLt,
    AndOp,
    OrOp,
    NotOp,
}

impl ArithOp {
    /// The three comparison operations, the ones that consume a fresh
    /// logical-label counter value.
    pub open spec fn is_comparison(self) -> bool {
        self == ArithOp::CmpEq || self == ArithOp::CmpGt || self == ArithOp::CmpLt
    }
}

/// The direction of a stack transfer instruction.
#[derive(Clone, Copy, Debug, PartialEq, Eq, Structural)]
pub enum Direction {
    Push,
    Pop,
}

/// A segment addressed indirectly through a base-pointer cell.
#[derive(Clone, Copy, Debug, PartialEq, Eq, Structural)]
pub enum InternalName {
    Local,
    Argument,
    This,
    That,
}

/// A segment addressed directly: an immediate, a per-unit symbol, or a
/// fixed cell.
#[derive(Clone, Copy, Debug, PartialEq, Eq, Structural)]
pub enum ExternalName {
    Constant,
    Static,
    Temp,
    Pointer,
}

/// A memory segment named by a push/pop instruction.
#[derive(Clone, Copy, Debug, PartialEq, Eq, Structural)]
pub enum Segment {
    Internal(InternalName),
    External(ExternalName),
}

/// The kind of a branching instruction.
#[derive(Clone, Copy, Debug, PartialEq, Eq, Structural)]
pub enum BranchKind {
    Label,
    Goto,
    IfGoto,
}

/// A function-family instruction: a declaration, a call site, or a return.
#[derive(Debug)]
pub enum FunctionKind {
    Declare(String, u32),
    Call(String, u32),
    Return,
}

/// A classified instruction, carrying the already-tokenized fields the
/// emitter needs.
#[derive(Debug)]
pub enum Command {
    Arithmetic(ArithOp),
    PushPop(Direction, Segment, u32),
    Branch(BranchKind, String),
    Function(FunctionKind),
}

/// The mathematical shape of a `FunctionKind`, with name tokens as
/// character sequences.
pub ghost enum FunctionKindV {
    Declare(Seq<char>, u32),
    Call(Seq<char>, u32),
    Return,
}

/// The mathematical shape of a `Command`.
pub ghost enum CommandV {
    Arithmetic(ArithOp),
    PushPop(Direction, Segment, u32),
    Branch(BranchKind, Seq<char>),
    Function(FunctionKindV),
}

impl View for FunctionKind {
    type V = FunctionKindV;

    open spec fn view(&self) -> FunctionKindV {
        match self {
            FunctionKind::Declare(name, n) => FunctionKindV::Declare(name@, *n),
            FunctionKind::Call(name, n) => FunctionKindV::Call(name@, *n),
            FunctionKind::Return => FunctionKindV::Return,
        }
    }
}

impl DeepView for FunctionKind {
    type V = FunctionKindV;

    open spec fn deep_view(&self) -> FunctionKindV {
        self.view()
    }
}

impl View for Command {
    type V = CommandV;

    open spec fn view(&self) -> CommandV {
        match self {
            Command::Arithmetic(op) => CommandV::Arithmetic(*op),
            Command::PushPop(dir, seg, idx) => CommandV::PushPop(*dir, *seg, *idx),
            Command::Branch(kind, label) => CommandV::Branch(*kind, label@),
            Command::Function(f) => CommandV::Function(f@),
        }
    }
}

impl DeepView for Command {
    type V = CommandV;

    open spec fn deep_view(&self) -> CommandV {
        self.view()
    }
}

impl PartialEq for Command {
    /// Structural equality of classified instructions, payloads included.
    fn eq(&self, other: &Self) -> (r: bool) {
        match (self, other) {
            (Command::Arithmetic(a), Command::Arithmetic(b)) => *a == *b,
            (Command::PushPop(d1, s1, i1), Command::PushPop(d2, s2, i2)) => {
                *d1 == *d2 && *s1 == *s2 && *i1 == *i2
            },
            (Command::Branch(k1, l1), Command::Branch(k2, l2)) => *k1 == *k2 && *l1 == *l2,
            (Command::Function(f1), Command::Function(f2)) => {
                match (f1, f2) {
                    (FunctionKind::Declare(n1, c1), FunctionKind::Declare(n2, c2)) => {
                        *n1 == *n2 && *c1 == *c2
                    },
                    (FunctionKind::Call(n1, c1), FunctionKind::Call(n2, c2)) => {
                        *n1 == *n2 && *c1 == *c2
                    },
                    (FunctionKind::Return, FunctionKind::Return) => true,
                    _ => false,
                }
            },
            _ => false,
        }
    }
}

impl vstd::std_specs::cmp::PartialEqSpecImpl for Command {
    open spec fn obeys_eq_spec() -> bool {
        true
    }

    open spec fn eq_spec(&self, other: &Self) -> bool {
        self@ == other@
    }
}

/// Why a run was aborted: the offending (cleaned) source line travels with
/// the error.
#[derive(Debug)]
pub enum TranslateError {
    /// A structurally required token is absent.
    MissingField(String),
    /// A required numeric field is absent, non-numeric or out of range.
    BadNumber(String),
    /// A push/pop names no recognized segment.
    BadSegment(String),
    /// A pop addresses the immediate-only `constant` segment.
    PopConstant(String),
}

/// The mathematical shape of a `TranslateError`.
pub ghost enum TranslateErrorV {
    MissingField(Seq<char>),
    BadNumber(Seq<char>),
    BadSegment(Seq<char>),
    PopConstant(Seq<char>),
}

impl View for TranslateError {
    type V = TranslateErrorV;

    open spec fn view(&self) -> TranslateErrorV {
        match self {
            TranslateError::MissingField(l) => TranslateErrorV::MissingField(l@),
            TranslateError::BadNumber(l) => TranslateErrorV::BadNumber(l@),
            TranslateError::BadSegment(l) => TranslateErrorV::BadSegment(l@),
            TranslateError::PopConstant(l) => TranslateErrorV::PopConstant(l@),
        }
    }
}

impl DeepView for TranslateError {
    type V = TranslateErrorV;

    open spec fn deep_view(&self) -> TranslateErrorV {
        self.view()
    }
}

/// A plain keyword list.
#[derive(Debug)]
pub struct List(pub Vec<String>);

impl List {
    pub fn new(list: Vec<String>) -> (r: List)
        ensures
            r.0@ == list@,
    {
        List(list)
    }

    /// Whether `key` occurs in the list, by character-for-character
    /// equality.
    pub fn is_exist(&self, key: &String) -> (r: bool)
        ensures
            r == self.0.deep_view().contains(key@),
    {
        let n = self.0.len();
        let mut i: usize = 0;
        while i < n
            invariant
                n == self.0.len(),
                0 <= i <= n,
                forall|j: int| 0 <= j < i ==> self.0.deep_view()[j] != key@,
            decreases n - i,
        {
            if self.0[i] == *key {
                assert(self.0.deep_view()[i as int] == key@);
                return true;
            }
            i = i + 1;
        }
        false
    }
}

/// What a lookup in an association list yields: the value of the last
/// entry with the given key, as a map built front to back would hold it.
pub open spec fn assoc_find(entries: Seq<(String, String)>, key: Seq<char>) -> Option<Seq<char>>
    decreases entries.len(),
{
    if entries.len() == 0 {
        None
    } else if entries.last().0@ == key {
        Some(entries.last().1@)
    } else {
        assoc_find(entries.drop_last(), key)
    }
}

/// A keyed table of command templates, kept as an association list with
/// later entries shadowing earlier ones.
#[derive(Debug)]
pub struct CommandList(pub Vec<(String, String)>);

impl CommandList {
    pub fn new(list: Vec<(String, String)>) -> (r: CommandList)
        ensures
            r.0@ == list@,
    {
        CommandList(list)
    }

    /// Looks the key up; the key must be present.
    pub fn get(&self, key: &String) -> (r: &String)
        requires
            assoc_find(self.0@, key@) is Some,
        ensures
            Some(r@) == assoc_find(self.0@, key@),
    {
        let mut i: usize = self.0.len();
        proof {
            assert(self.0@.take(self.0.len() as int) =~= self.0@);
        }
        while i > 0
            invariant
                0 <= i <= self.0.len(),
                assoc_find(self.0@, key@) == assoc_find(self.0@.take(i as int), key@),
                assoc_find(self.0@, key@) is Some,
            decreases i,
        {
            proof {
                assert(self.0@.take(i as int).last() == self.0@[i - 1]);
                assert(self.0@.take(i as int).drop_last() =~= self.0@.take(i - 1));
            }
            if self.0[i - 1].0 == *key {
                return &self.0[i - 1].1;
            }
            i = i - 1;
        }
        proof {
            assert(self.0@.take(0) =~= Seq::<(String, String)>::empty());
        }
        unreached()
    }
}

/// The emitter's run-lifetime counters: `logical` disambiguates
/// comparison branch labels, `call` disambiguates call-return linkage
/// labels. Both only ever grow and are never reset mid-run.
#[derive(Debug)]
pub struct State {
    pub logical: u64,
    pub call: u64,
}

impl State {
    pub fn new() -> (r: State)
        ensures
            r.logical == 0,
            r.call == 1,
    {
        State { logical: 0, call: 1 }
    }

    /// The logical-label counter, rendered as its decimal numeral.
    pub fn get_logical(&self) -> (s: String)
        ensures
            s@ == dec_digits(self.logical as nat),
    {
        u64_to_string(self.logical)
    }

    /// The call-site counter, rendered as its decimal numeral.
    pub fn get_function(&self) -> (s: String)
        ensures
            s@ == dec_digits(self.call as nat),
    {
        u64_to_string(self.call)
    }

    pub fn inc_logical(&mut self)
        requires
            old(self).logical < u64::MAX,
        ensures
            final(self).logical == old(self).logical + 1,
            final(self).call == old(self).call,
    {
        self.logical = self.logical + 1;
    }

    pub fn inc_function(&mut self)
        requires
            old(self).call < u64::MAX,
        ensures
            final(self).call == old(self).call + 1,
            final(self).logical == old(self).logical,
    {
        self.call = self.call + 1;
    }
}

} // verus!
