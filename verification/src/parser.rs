//! The instruction classifier: comment stripping, whitespace
//! tokenization, and the pure classification of one source line into a
//! typed command. `ParserClass` walks a text source one logical line at a
//! time and publishes the classification of each content line.
use vstd::prelude::*;
use crate::prelude::{
    ArithOp, BranchKind, Command, CommandV, Direction, ExternalName, FunctionKind, FunctionKindV,
    InternalName, Segment, TranslateError, TranslateErrorV,
};
use crate::text::{is_space, lower_all, parse_index, parse_u32, eq_ignore_case};

verus! {

// ------------------------------------------------------------------
// Lines: comments, trimming, tokens
// ------------------------------------------------------------------

/// The line up to (and excluding) its first `//` comment marker.
pub open spec fn strip_comment(s: Seq<char>) -> Seq<char>
    decreases s.len(),
{
    if s.len() < 2 {
        s
    } else if s[0] == '/' && s[1] == '/' {
        Seq::empty()
    } else {
        seq![s[0]] + strip_comment(s.drop_first())
    }
}

/// The line with its leading whitespace removed.
pub open spec fn trim_front(s: Seq<char>) -> Seq<char>
    decreases s.len(),
{
    if s.len() > 0 && is_space(s[0]) {
        trim_front(s.drop_first())
    } else {
        s
    }
}

/// The line with its trailing whitespace removed.
pub open spec fn trim_back(s: Seq<char>) -> Seq<char>
    decreases s.len(),
{
    if s.len() > 0 && is_space(s.last()) {
        trim_back(s.drop_last())
    } else {
        s
    }
}

/// The line with surrounding whitespace removed.
pub open spec fn trimmed(s: Seq<char>) -> Seq<char> {
    trim_back(trim_front(s))
}

/// The longest whitespace-free prefix.
pub open spec fn token_at(s: Seq<char>) -> Seq<char>
    decreases s.len(),
{
    if s.len() == 0 || is_space(s[0]) {
        Seq::empty()
    } else {
        seq![s[0]] + token_at(s.drop_first())
    }
}

pub proof fn lemma_token_at_len(s: Seq<char>)
    ensures
        token_at(s).len() <= s.len(),
        s.len() > 0 && !is_space(s[0]) ==> token_at(s).len() >= 1,
    decreases s.len(),
{
    if s.len() > 0 && !is_space(s[0]) {
        lemma_token_at_len(s.drop_first());
    }
}

/// The whitespace-separated tokens of a line, in order.
pub open spec fn tokens(s: Seq<char>) -> Seq<Seq<char>>
    decreases s.len(),
    via tokens_dec
{
    if s.len() == 0 {
        Seq::empty()
    } else if is_space(s[0]) {
        tokens(s.drop_first())
    } else {
        seq![token_at(s)] + tokens(s.skip(token_at(s).len() as int))
    }
}

#[via_fn]
proof fn tokens_dec(s: Seq<char>) {
    if s.len() > 0 && !is_space(s[0]) {
        lemma_token_at_len(s);
    }
}

/// The tokens of a line once its comment is discarded.
pub open spec fn line_tokens(line: Seq<char>) -> Seq<Seq<char>> {
    tokens(strip_comment(line))
}

/// The line as it is shown back to the operator: comment discarded,
/// whitespace trimmed.
pub open spec fn cleaned(line: Seq<char>) -> Seq<char> {
    trimmed(strip_comment(line))
}

proof fn lemma_strip_comment_found(s: Seq<char>, k: int)
    requires
        0 <= k,
        k + 1 < s.len(),
        forall|m: int| 0 <= m < k ==> !(#[trigger] s[m] == '/' && s[m + 1] == '/'),
        s[k] == '/' && s[k + 1] == '/',
    ensures
        strip_comment(s) == s.take(k),
    decreases k,
{
    if k == 0 {
        assert(s.take(0) =~= Seq::<char>::empty());
    } else {
        let t = s.drop_first();
        assert(forall|m: int| 0 <= m < k - 1 ==> !(t[m] == '/' && #[trigger] t[m + 1] == '/'));
        assert(t[k - 1] == '/' && t[k] == '/');
        lemma_strip_comment_found(t, k - 1);
        assert(seq![s[0]] + t.take(k - 1) =~= s.take(k));
    }
}

proof fn lemma_strip_comment_absent(s: Seq<char>)
    requires
        forall|m: int| 0 <= m < s.len() - 1 ==> !(#[trigger] s[m] == '/' && s[m + 1] == '/'),
    ensures
        strip_comment(s) == s,
    decreases s.len(),
{
    if s.len() >= 2 {
        let t = s.drop_first();
        assert(forall|m: int| 0 <= m < t.len() - 1 ==> !(t[m] == '/' && #[trigger] t[m + 1] == '/'));
        lemma_strip_comment_absent(t);
        assert(seq![s[0]] + t =~= s);
    }
}

/// Removes the `//` comment suffix, if any.
pub fn strip_comment_exec(line: &str) -> (r: String)
    ensures
        r@ == strip_comment(line@),
{
    let n = line.unicode_len();
    let mut i: usize = 0;
    while i + 1 < n
        invariant
            n == line@.len(),
            0 <= i,
            n > 0 ==> i < n,
            n == 0 ==> i == 0,
            forall|m: int| 0 <= m < i ==> !(line@[m] == '/' && #[trigger] line@[m + 1] == '/'),
        decreases n - i,
    {
        if line.get_char(i) == '/' && line.get_char(i + 1) == '/' {
            proof {
                lemma_strip_comment_found(line@, i as int);
            }
            let kept = line.substring_char(0, i);
            let r = String::from_str(kept);
            proof {
                assert(line@.subrange(0, i as int) =~= line@.take(i as int));
            }
            return r;
        }
        i = i + 1;
    }
    proof {
        lemma_strip_comment_absent(line@);
    }
    String::from_str(line)
}

proof fn lemma_trim_front_skip(s: Seq<char>, a: int)
    requires
        0 <= a <= s.len(),
        forall|m: int| 0 <= m < a ==> is_space(#[trigger] s[m]),
        a == s.len() || !is_space(s[a]),
    ensures
        trim_front(s) == s.skip(a),
    decreases a,
{
    if a == 0 {
        assert(s.skip(0) =~= s);
    } else {
        let t = s.drop_first();
        assert(forall|m: int| 0 <= m < a - 1 ==> is_space(#[trigger] t[m]));
        lemma_trim_front_skip(t, a - 1);
        assert(t.skip(a - 1) =~= s.skip(a));
    }
}

proof fn lemma_trim_back_take(s: Seq<char>, b: int)
    requires
        0 <= b <= s.len(),
        forall|m: int| b <= m < s.len() ==> is_space(#[trigger] s[m]),
        b == 0 || !is_space(s[b - 1]),
    ensures
        trim_back(s) == s.take(b),
    decreases s.len() - b,
{
    if b == s.len() {
        if s.len() > 0 && is_space(s.last()) {
            assert(false);
        }
        assert(s.take(b) =~= s);
    } else {
        let t = s.drop_last();
        assert(is_space(s.last()));
        assert(forall|m: int| b <= m < t.len() ==> is_space(#[trigger] t[m]));
        lemma_trim_back_take(t, b);
        assert(t.take(b) =~= s.take(b));
    }
}

fn is_space_char(c: char) -> (r: bool)
    ensures
        r == is_space(c),
{
    c == ' ' || c == '\t' || c == '\r' || c == '\n'
}

/// Removes surrounding whitespace.
pub fn trim_exec(s: &str) -> (r: String)
    ensures
        r@ == trimmed(s@),
{
    let n = s.unicode_len();
    let mut a: usize = 0;
    while a < n && is_space_char(s.get_char(a))
        invariant
            n == s@.len(),
            0 <= a <= n,
            forall|m: int| 0 <= m < a ==> is_space(#[trigger] s@[m]),
        decreases n - a,
    {
        a = a + 1;
    }
    proof {
        lemma_trim_front_skip(s@, a as int);
    }
    let mut b: usize = n;
    while b > a && is_space_char(s.get_char(b - 1))
        invariant
            n == s@.len(),
            a <= b <= n,
            forall|m: int| b <= m < n ==> is_space(#[trigger] s@[m]),
        decreases b,
    {
        b = b - 1;
    }
    proof {
        let front = s@.skip(a as int);
        assert(forall|m: int| b - a <= m < front.len() ==> is_space(#[trigger] front[m]));
        if b > a {
            assert(front[b - a - 1] == s@[b - 1]);
        }
        lemma_trim_back_take(front, b - a);
        assert(front.take(b - a) =~= s@.subrange(a as int, b as int));
    }
    String::from_str(s.substring_char(a, b))
}

proof fn lemma_token_at_take(s: Seq<char>, k: int)
    requires
        0 <= k <= s.len(),
        forall|m: int| 0 <= m < k ==> !is_space(#[trigger] s[m]),
        k == s.len() || is_space(s[k]),
    ensures
        token_at(s) == s.take(k),
    decreases k,
{
    if k == 0 {
        assert(s.take(0) =~= Seq::<char>::empty());
    } else {
        let t = s.drop_first();
        assert(forall|m: int| 0 <= m < k - 1 ==> !is_space(#[trigger] t[m]));
        lemma_token_at_take(t, k - 1);
        assert(seq![s[0]] + t.take(k - 1) =~= s.take(k));
    }
}

/// Splits a line into its whitespace-separated tokens.
pub fn tokenize(line: &str) -> (v: Vec<String>)
    ensures
        v.deep_view() == tokens(line@),
{
    let n = line.unicode_len();
    let mut v: Vec<String> = Vec::new();
    let mut i: usize = 0;
    proof {
        assert(v.deep_view() =~= Seq::<Seq<char>>::empty());
        assert(line@.skip(0) =~= line@);
    }
    while i < n
        invariant
            n == line@.len(),
            0 <= i <= n,
            tokens(line@) == v.deep_view() + tokens(line@.skip(i as int)),
        decreases n - i,
    {
        let c = line.get_char(i);
        if is_space_char(c) {
            proof {
                let s = line@.skip(i as int);
                assert(s[0] == line@[i as int]);
                assert(s.drop_first() =~= line@.skip(i + 1));
            }
            i = i + 1;
        } else {
            let ghost pre = v.deep_view();
            let mut j: usize = i;
            while j < n && !is_space_char(line.get_char(j))
                invariant
                    n == line@.len(),
                    i <= j <= n,
                    forall|m: int| i <= m < j ==> !is_space(#[trigger] line@[m]),
                decreases n - j,
            {
                j = j + 1;
            }
            proof {
                let s = line@.skip(i as int);
                assert(forall|m: int| 0 <= m < j - i ==> !is_space(#[trigger] s[m]));
                if j < n {
                    assert(s[j - i] == line@[j as int]);
                }
                lemma_token_at_take(s, j - i);
                assert(s.take(j - i) =~= line@.subrange(i as int, j as int));
            }
            let tok = line.substring_char(i, j);
            v.push(String::from_str(tok));
            proof {
                let s = line@.skip(i as int);
                assert(!is_space(s[0]));
                assert(s.skip(j - i) =~= line@.skip(j as int));
                assert(v.deep_view() =~= pre.push(tok@));
                assert(pre + (seq![tok@] + tokens(line@.skip(j as int)))
                    =~= pre.push(tok@) + tokens(line@.skip(j as int)));
            }
            i = j;
        }
    }
    proof {
        assert(line@.skip(n as int) =~= Seq::<char>::empty());
        assert(tokens(Seq::<char>::empty()) =~= Seq::<Seq<char>>::empty());
        assert(v.deep_view() =~= tokens(line@));
    }
    v
}

// ------------------------------------------------------------------
// Classification
// ------------------------------------------------------------------

pub open spec fn arith_op_of(t: Seq<char>) -> Option<ArithOp> {
    if t == "add"@ { Some(ArithOp::Add) }
    else if t == "sub"@ { Some(ArithOp::Sub) }
    else if t == "neg"@ { Some(ArithOp::Neg) }
    else if t == "eq"@ { Some(ArithOp::CmpEq) }
    else if t == "gt"@ { Some(ArithOp::CmpGt) }
    else if t == "lt"@ { Some(ArithOp::CmpLt) }
    else if t == "and"@ { Some(ArithOp::AndOp) }
    else if t == "or"@ { Some(ArithOp::OrOp) }
    else if t == "not"@ { Some(ArithOp::NotOp) }
    else { None }
}

pub open spec fn direction_of(t: Seq<char>) -> Option<Direction> {
    if t == "push"@ { Some(Direction::Push) }
    else if t == "pop"@ { Some(Direction::Pop) }
    else { None }
}

pub open spec fn branch_of(t: Seq<char>) -> Option<BranchKind> {
    if t == "label"@ { Some(BranchKind::Label) }
    else if t == "goto"@ { Some(BranchKind::Goto) }
    else if t == "if-goto"@ { Some(BranchKind::IfGoto) }
    else { None }
}

pub open spec fn segment_of(t: Seq<char>) -> Option<Segment> {
    if t == "local"@ { Some(Segment::Internal(InternalName::Local)) }
    else if t == "argument"@ { Some(Segment::Internal(InternalName::Argument)) }
    else if t == "this"@ { Some(Segment::Internal(InternalName::This)) }
    else if t == "that"@ { Some(Segment::Internal(InternalName::That)) }
    else if t == "constant"@ { Some(Segment::External(ExternalName::Constant)) }
    else if t == "static"@ { Some(Segment::External(ExternalName::Static)) }
    else if t == "temp"@ { Some(Segment::External(ExternalName::Temp)) }
    else if t == "pointer"@ { Some(Segment::External(ExternalName::Pointer)) }
    else { None }
}

/// Classification of a tokenized line; `shown` is the cleaned line text
/// an error carries. Keywords are matched case-insensitively; name and
/// label tokens travel verbatim.
pub open spec fn classify_toks(toks: Seq<Seq<char>>, shown: Seq<char>) -> Result<
    Option<CommandV>,
    TranslateErrorV,
> {
    if toks.len() == 0 {
        Ok(None)
    } else {
        let t0 = lower_all(toks[0]);
        if direction_of(t0) is Some {
            if toks.len() < 3 {
                Err(TranslateErrorV::MissingField(shown))
            } else {
                let seg = segment_of(lower_all(toks[1]));
                if seg is None {
                    Err(TranslateErrorV::BadSegment(shown))
                } else {
                    match parse_index(toks[2]) {
                        Some(idx) => Ok(
                            Some(CommandV::PushPop(direction_of(t0).unwrap(), seg.unwrap(), idx)),
                        ),
                        None => Err(TranslateErrorV::BadNumber(shown)),
                    }
                }
            }
        } else if arith_op_of(t0) is Some {
            Ok(Some(CommandV::Arithmetic(arith_op_of(t0).unwrap())))
        } else if branch_of(t0) is Some {
            if toks.len() < 2 {
                Err(TranslateErrorV::MissingField(shown))
            } else {
                Ok(Some(CommandV::Branch(branch_of(t0).unwrap(), toks[1])))
            }
        } else if t0 == "function"@ || t0 == "call"@ {
            if toks.len() < 3 {
                Err(TranslateErrorV::MissingField(shown))
            } else {
                match parse_index(toks[2]) {
                    Some(n) => Ok(
                        Some(
                            CommandV::Function(
                                if t0 == "function"@ {
                                    FunctionKindV::Declare(toks[1], n)
                                } else {
                                    FunctionKindV::Call(toks[1], n)
                                },
                            ),
                        ),
                    ),
                    None => Err(TranslateErrorV::BadNumber(shown)),
                }
            }
        } else if t0 == "return"@ {
            Ok(Some(CommandV::Function(FunctionKindV::Return)))
        } else {
            Ok(None)
        }
    }
}

/// What classifying a source line yields: `Ok(None)` for blank, comment
/// and unrecognized lines, a typed command for recognized ones, and an
/// error for a structurally broken instruction.
pub open spec fn spec_classify(line: Seq<char>) -> Result<Option<CommandV>, TranslateErrorV> {
    classify_toks(line_tokens(line), cleaned(line))
}

/// The shape of an executable classification result.
pub open spec fn classify_view(r: Result<Option<Command>, TranslateError>) -> Result<
    Option<CommandV>,
    TranslateErrorV,
> {
    match r {
        Ok(o) => Ok(o.deep_view()),
        Err(e) => Err(e@),
    }
}

fn classify_tokens(toks: &Vec<String>, shown: String) -> (r: Result<Option<Command>, TranslateError>)
    ensures
        classify_view(r) == classify_toks(toks.deep_view(), shown@),
{
    if toks.len() == 0 {
        return Ok(None);
    }
    let t0 = &toks[0];
    let is_push = eq_ignore_case(t0.as_str(), "push");
    let is_pop = eq_ignore_case(t0.as_str(), "pop");
    if is_push || is_pop {
        let dir = if is_push { Direction::Push } else { Direction::Pop };
        proof {
            assert(direction_of(lower_all(toks.deep_view()[0])) == Some(dir));
        }
        if toks.len() < 3 {
            return Err(TranslateError::MissingField(shown));
        }
        let seg = match segment_of_exec(&toks[1]) {
            Some(seg) => seg,
            None => {
                return Err(TranslateError::BadSegment(shown));
            },
        };
        match parse_u32(toks[2].as_str()) {
            Some(idx) => Ok(Some(Command::PushPop(dir, seg, idx))),
            None => Err(TranslateError::BadNumber(shown)),
        }
    } else if let Some(op) = arith_op_of_exec(t0) {
        Ok(Some(Command::Arithmetic(op)))
    } else if let Some(kind) = branch_of_exec(t0) {
        if toks.len() < 2 {
            return Err(TranslateError::MissingField(shown));
        }
        Ok(Some(Command::Branch(kind, toks[1].clone())))
    } else if eq_ignore_case(t0.as_str(), "function") || eq_ignore_case(t0.as_str(), "call") {
        let declares = eq_ignore_case(t0.as_str(), "function");
        if toks.len() < 3 {
            return Err(TranslateError::MissingField(shown));
        }
        match parse_u32(toks[2].as_str()) {
            Some(n) => {
                if declares {
                    Ok(Some(Command::Function(FunctionKind::Declare(toks[1].clone(), n))))
                } else {
                    Ok(Some(Command::Function(FunctionKind::Call(toks[1].clone(), n))))
                }
            },
            None => Err(TranslateError::BadNumber(shown)),
        }
    } else if eq_ignore_case(t0.as_str(), "return") {
        Ok(Some(Command::Function(FunctionKind::Return)))
    } else {
        Ok(None)
    }
}

fn arith_op_of_exec(t: &String) -> (r: Option<ArithOp>)
    ensures
        r == arith_op_of(lower_all(t@)),
{
    if eq_ignore_case(t.as_str(), "add") { Some(ArithOp::Add) }
    else if eq_ignore_case(t.as_str(), "sub") { Some(ArithOp::Sub) }
    else if eq_ignore_case(t.as_str(), "neg") { Some(ArithOp::Neg) }
    else if eq_ignore_case(t.as_str(), "eq") { Some(ArithOp::CmpEq) }
    else if eq_ignore_case(t.as_str(), "gt") { Some(ArithOp::CmpGt) }
    else if eq_ignore_case(t.as_str(), "lt") { Some(ArithOp::CmpLt) }
    else if eq_ignore_case(t.as_str(), "and") { Some(ArithOp::AndOp) }
    else if eq_ignore_case(t.as_str(), "or") { Some(ArithOp::OrOp) }
    else if eq_ignore_case(t.as_str(), "not") { Some(ArithOp::NotOp) }
    else { None }
}

fn branch_of_exec(t: &String) -> (r: Option<BranchKind>)
    ensures
        r == branch_of(lower_all(t@)),
{
    if eq_ignore_case(t.as_str(), "label") { Some(BranchKind::Label) }
    else if eq_ignore_case(t.as_str(), "goto") { Some(BranchKind::Goto) }
    else if eq_ignore_case(t.as_str(), "if-goto") { Some(BranchKind::IfGoto) }
    else { None }
}

fn segment_of_exec(t: &String) -> (r: Option<Segment>)
    ensures
        r == segment_of(lower_all(t@)),
{
    if eq_ignore_case(t.as_str(), "local") { Some(Segment::Internal(InternalName::Local)) }
    else if eq_ignore_case(t.as_str(), "argument") { Some(Segment::Internal(InternalName::Argument)) }
    else if eq_ignore_case(t.as_str(), "this") { Some(Segment::Internal(InternalName::This)) }
    else if eq_ignore_case(t.as_str(), "that") { Some(Segment::Internal(InternalName::That)) }
    else if eq_ignore_case(t.as_str(), "constant") { Some(Segment::External(ExternalName::Constant)) }
    else if eq_ignore_case(t.as_str(), "static") { Some(Segment::External(ExternalName::Static)) }
    else if eq_ignore_case(t.as_str(), "temp") { Some(Segment::External(ExternalName::Temp)) }
    else if eq_ignore_case(t.as_str(), "pointer") { Some(Segment::External(ExternalName::Pointer)) }
    else { None }
}

/// Classifies one source line. The result is a function of the line text
/// alone: classifying the same text twice yields the same command.
pub fn classify_line(line: &str) -> (r: Result<Option<Command>, TranslateError>)
    ensures
        classify_view(r) == spec_classify(line@),
{
    let stripped = strip_comment_exec(line);
    let toks = tokenize(stripped.as_str());
    let shown = trim_exec(stripped.as_str());
    classify_tokens(&toks, shown)
}

// ------------------------------------------------------------------
// The classifier object
// ------------------------------------------------------------------

/// Reads a text source one line at a time, skipping blank and
/// comment-only lines, and publishes the classification of each content
/// line.
pub struct ParserClass {
    /// The text source, one line per entry, in source order.
    pub lines: Vec<String>,
    /// The read position: the index of the next line to consider.
    pub pos: usize,
    /// The current content line, comment discarded and trimmed.
    pub current_command: String,
    /// The published classification of the current content line.
    pub command: Option<Command>,
}

impl ParserClass {
    /// A classifier at the start of a text source.
    pub fn new(lines: Vec<String>) -> (p: ParserClass)
        ensures
            p.lines@ == lines@,
            p.pos == 0,
            p.command is None,
            p.current_command@ == Seq::<char>::empty(),
    {
        ParserClass { lines, pos: 0, current_command: String::new(), command: None }
    }

    /// Advances past blank and comment-only lines. On `Ok(true)` a
    /// content line was found, classified, and published in `command`
    /// and `current_command`; `Ok(false)` means the source is exhausted;
    /// an error reports the first structurally broken instruction.
    pub fn has_more_commands(&mut self) -> (r: Result<bool, TranslateError>)
        requires
            old(self).pos <= old(self).lines@.len(),
        ensures
            final(self).lines == old(self).lines,
            final(self).lines.deep_view() == old(self).lines.deep_view(),
            old(self).pos <= final(self).pos <= final(self).lines@.len(),
            match r {
                Ok(true) => {
                    let dv = old(self).lines.deep_view();
                    let j = final(self).pos - 1;
                    &&& old(self).pos <= j < dv.len()
                    &&& forall|m: int| old(self).pos <= m < j ==> line_tokens(#[trigger] dv[m]).len() == 0
                    &&& line_tokens(dv[j]).len() > 0
                    &&& spec_classify(dv[j]) == Ok::<Option<CommandV>, TranslateErrorV>(
                        final(self).command.deep_view(),
                    )
                    &&& final(self).current_command@ == cleaned(dv[j])
                },
                Ok(false) => {
                    let dv = old(self).lines.deep_view();
                    &&& final(self).pos == dv.len()
                    &&& forall|m: int| old(self).pos <= m < dv.len() ==> line_tokens(#[trigger] dv[m]).len() == 0
                    &&& final(self).command == old(self).command
                    &&& final(self).current_command == old(self).current_command
                },
                Err(e) => {
                    let dv = old(self).lines.deep_view();
                    let j = final(self).pos - 1;
                    &&& old(self).pos <= j < dv.len()
                    &&& forall|m: int| old(self).pos <= m < j ==> line_tokens(#[trigger] dv[m]).len() == 0
                    &&& line_tokens(dv[j]).len() > 0
                    &&& spec_classify(dv[j]) == Err::<Option<CommandV>, TranslateErrorV>(e@)
                },
            },
    {
        loop
            invariant
                self.lines == old(self).lines,
                old(self).pos <= self.pos <= self.lines@.len(),
                self.command == old(self).command,
                self.current_command == old(self).current_command,
                forall|m: int| old(self).pos <= m < self.pos
                    ==> line_tokens(#[trigger] old(self).lines.deep_view()[m]).len() == 0,
            decreases self.lines@.len() - self.pos,
        {
            if self.pos >= self.lines.len() {
                return Ok(false);
            }
            let stripped = strip_comment_exec(self.lines[self.pos].as_str());
            let toks = tokenize(stripped.as_str());
            proof {
                assert(old(self).lines.deep_view()[self.pos as int] == self.lines@[self.pos as int]@);
            }
            if toks.len() == 0 {
                self.pos = self.pos + 1;
            } else {
                let shown = trim_exec(stripped.as_str());
                self.pos = self.pos + 1;
                match classify_tokens(&toks, shown.clone()) {
                    Ok(cmd) => {
                        self.current_command = shown;
                        self.command = cmd;
                        return Ok(true);
                    },
                    Err(e) => {
                        return Err(e);
                    },
                }
            }
        }
    }

    /// Re-classifies the current line text. The result depends on that
    /// text alone.
    pub fn command_type(&self) -> (r: Result<Option<Command>, TranslateError>)
        ensures
            classify_view(r) == spec_classify(self.current_command@),
    {
        classify_line(self.current_command.as_str())
    }

    /// The segment of the published command, when it is a push or pop.
    pub fn segment_type(&self) -> (r: Option<Segment>)
        ensures
            r == (match self.command {
                Some(Command::PushPop(_, seg, _)) => Some(seg),
                _ => None,
            }),
    {
        match &self.command {
            Some(Command::PushPop(_, seg, _)) => Some(*seg),
            _ => None,
        }
    }

    /// The index operand of the published command, when it has one.
    pub fn index(&self) -> (r: Option<u32>)
        ensures
            r == (match self.command {
                Some(Command::PushPop(_, _, idx)) => Some(idx),
                _ => None,
            }),
    {
        match &self.command {
            Some(Command::PushPop(_, _, idx)) => Some(*idx),
            _ => None,
        }
    }

    /// The first argument of the published command: the operation token
    /// of an arithmetic instruction, the segment name of a push or pop,
    /// the label of a branch, or the name of a declared or called
    /// function.
    pub fn arg1(&self) -> (r: Option<String>)
        ensures
            match self.command.deep_view() {
                Some(CommandV::Arithmetic(op)) => r matches Some(s)
                    && s@ == crate::templates::op_text(op),
                Some(CommandV::PushPop(_, seg, _)) => r matches Some(s)
                    && s@ == crate::templates::seg_text(seg),
                Some(CommandV::Branch(_, label)) => r matches Some(s) && s@ == label,
                Some(CommandV::Function(FunctionKindV::Declare(name, _))) => r matches Some(s)
                    && s@ == name,
                Some(CommandV::Function(FunctionKindV::Call(name, _))) => r matches Some(s)
                    && s@ == name,
                Some(CommandV::Function(FunctionKindV::Return)) => r is None,
                None => r is None,
            },
    {
        match &self.command {
            Some(Command::Arithmetic(op)) => Some(
                String::from_str(
                    match op {
                        ArithOp::Add => "add",
                        ArithOp::Sub => "sub",
                        ArithOp::Neg => "neg",
                        ArithOp::CmpEq => "eq",
                        ArithOp::CmpGt => "gt",
                        ArithOp::CmpLt => "lt",
                        ArithOp::AndOp => "and",
                        ArithOp::OrOp => "or",
                        ArithOp::NotOp => "not",
                    },
                ),
            ),
            Some(Command::PushPop(_, seg, _)) => Some(
                String::from_str(
                    match seg {
                        Segment::Internal(InternalName::Local) => "local",
                        Segment::Internal(InternalName::Argument) => "argument",
                        Segment::Internal(InternalName::This) => "this",
                        Segment::Internal(InternalName::That) => "that",
                        Segment::External(ExternalName::Constant) => "constant",
                        Segment::External(ExternalName::Static) => "static",
                        Segment::External(ExternalName::Temp) => "temp",
                        Segment::External(ExternalName::Pointer) => "pointer",
                    },
                ),
            ),
            Some(Command::Branch(_, label)) => Some(label.clone()),
            Some(Command::Function(FunctionKind::Declare(name, _))) => Some(name.clone()),
            Some(Command::Function(FunctionKind::Call(name, _))) => Some(name.clone()),
            Some(Command::Function(FunctionKind::Return)) => None,
            None => None,
        }
    }

    /// The second numeric argument of the published command: the index of
    /// a push or pop, or the count of a function declaration or call.
    pub fn arg2(&self) -> (r: Option<u32>)
        ensures
            r == (match self.command.deep_view() {
                Some(CommandV::PushPop(_, _, idx)) => Some(idx),
                Some(CommandV::Function(FunctionKindV::Declare(_, n))) => Some(n),
                Some(CommandV::Function(FunctionKindV::Call(_, n))) => Some(n),
                _ => None::<u32>,
            }),
    {
        match &self.command {
            Some(Command::PushPop(_, _, idx)) => Some(*idx),
            Some(Command::Function(FunctionKind::Declare(_, n))) => Some(*n),
            Some(Command::Function(FunctionKind::Call(_, n))) => Some(*n),
            _ => None,
        }
    }
}

} // verus!
