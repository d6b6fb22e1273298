//! The executable macro expander, verified against the machine model.
//!
//! Every function here either mirrors one helper of the model exactly, or
//! performs one machine step; the driver then iterates steps under an
//! explicit budget, so that each of its answers is a reachability fact
//! about the model.

use vstd::prelude::*;
use vstd::string::StringExecFns;
use crate::token::{PreprocessingToken, Punctuator, HeaderKind, TokenModel, clone_token, toks_view};
use crate::token::{is_lparen, is_rparen, is_comma, is_newline, is_stringize_op, is_paste_op};
use crate::model::{
    HidTokenModel, UnitModel, FrameModel, StateModel, ErrorModel, StatusModel, punct_lexeme,
    lexeme, render, stringize, param_index, strip_newlines, join_variadic, paste_one, paste_puncts,
    paste_lists, SubstOutcome, paste_operand, subst, used_plainly, needed_args, skip_unneeded,
    emit, frame_progress, look_for_lparen, CollectModel, collect_args, normalize_args, arity_ok,
    bound_args, effective_params, variadic_param_name, plain_units, to_units, add_hides, step,
    wf_frame, wf_frames, lemma_skip_unneeded_len, plain_param, stringized_param, run, init_state,
};
use crate::table::{Macro, Macros, params_view};

verus! {

/// Relies on `String::push` of std: it appends exactly the one character.
pub assume_specification[ String::push ](s: &mut String, c: char)
    ensures
        final(s)@ == old(s)@.push(c),
;

/// Why an expansion failed.
#[derive(Debug, PartialEq, Eq)]
pub enum ExpandError {
    /// The stream ended while the named macro's arguments were collected.
    UnterminatedInvocation(String),
    /// The named macro was invoked with the wrong number of arguments.
    ArityMismatch(String),
    /// `##` concatenated two tokens that form no single valid token.
    InvalidPaste,
    /// The driver's step budget ran out before the machine came to rest.
    BudgetExhausted,
}

/// A token together with the names of the macros it must not be
/// re-expanded as.
pub struct HidToken {
    pub token: PreprocessingToken,
    pub hide: Vec<String>,
}

/// One unit of the pending queue.
pub enum ExpandingToken {
    Token(HidToken),
    EndScope(String),
    ArgumentEnd,
}

/// One function-macro invocation whose arguments are being expanded.
pub struct Frame {
    pub name: String,
    pub hide: Vec<String>,
    pub params: Vec<String>,
    pub body: Vec<PreprocessingToken>,
    pub raw_args: Vec<Vec<HidToken>>,
    pub needed: Vec<bool>,
    pub expanded: Vec<Vec<HidToken>>,
    pub current: Vec<HidToken>,
}

/// The whole expansion state.
pub struct Machine {
    pub pending: Vec<ExpandingToken>,
    pub frames: Vec<Frame>,
    pub produced: Vec<PreprocessingToken>,
}

/// The set of names a hide list denotes.
pub open spec fn hide_view(s: Seq<String>) -> Set<Seq<char>> {
    Set::new(|c: Seq<char>| exists|i: int| 0 <= i < s.len() && s[i]@ == c)
}

impl View for HidToken {
    type V = HidTokenModel;

    open spec fn view(&self) -> HidTokenModel {
        HidTokenModel { token: self.token@, hide: hide_view(self.hide@) }
    }
}

impl View for ExpandingToken {
    type V = UnitModel;

    open spec fn view(&self) -> UnitModel {
        match self {
            ExpandingToken::Token(h) => UnitModel::Token(h@),
            ExpandingToken::EndScope(n) => UnitModel::EndScope(n@),
            ExpandingToken::ArgumentEnd => UnitModel::ArgumentEnd,
        }
    }
}

pub open spec fn hts_view(s: Seq<HidToken>) -> Seq<HidTokenModel> {
    s.map_values(|h: HidToken| h@)
}

pub open spec fn units_view(s: Seq<ExpandingToken>) -> Seq<UnitModel> {
    s.map_values(|u: ExpandingToken| u@)
}

pub open spec fn args_view(s: Seq<Vec<HidToken>>) -> Seq<Seq<HidTokenModel>> {
    s.map_values(|v: Vec<HidToken>| hts_view(v@))
}

impl View for Frame {
    type V = FrameModel;

    open spec fn view(&self) -> FrameModel {
        FrameModel {
            name: self.name@,
            hide: hide_view(self.hide@),
            params: params_view(self.params@),
            body: toks_view(self.body@),
            raw_args: args_view(self.raw_args@),
            needed: self.needed@,
            expanded: args_view(self.expanded@),
            current: hts_view(self.current@),
        }
    }
}

pub open spec fn frames_view(s: Seq<Frame>) -> Seq<FrameModel> {
    s.map_values(|f: Frame| f@)
}

impl View for Machine {
    type V = StateModel;

    open spec fn view(&self) -> StateModel {
        StateModel {
            pending: units_view(self.pending@),
            frames: frames_view(self.frames@),
            produced: toks_view(self.produced@),
        }
    }
}

/// The names of a concatenation are the names of both parts.
pub(crate) proof fn lemma_hide_concat(a: Seq<String>, b: Seq<String>)
    ensures
        hide_view(a + b) == hide_view(a).union(hide_view(b)),
{
    assert forall|c: Seq<char>|
        hide_view(a + b).contains(c) <==> hide_view(a).union(hide_view(b)).contains(c) by {
        if hide_view(a + b).contains(c) {
            let i = choose|i: int| 0 <= i < (a + b).len() && (a + b)[i]@ == c;
            if i < a.len() {
                assert(a[i]@ == c);
            } else {
                assert(b[i - a.len()]@ == c);
            }
        }
        if hide_view(a).contains(c) {
            let i = choose|i: int| 0 <= i < a.len() && a[i]@ == c;
            assert((a + b)[i]@ == c);
        }
        if hide_view(b).contains(c) {
            let i = choose|i: int| 0 <= i < b.len() && b[i]@ == c;
            assert((a + b)[a.len() + i]@ == c);
        }
    }
    assert(hide_view(a + b) =~= hide_view(a).union(hide_view(b)));
}

/// A one-name list denotes the one-name set.
pub(crate) proof fn lemma_hide_single(n: String)
    ensures
        hide_view(seq![n]) == Set::<Seq<char>>::empty().insert(n@),
{
    assert forall|c: Seq<char>|
        hide_view(seq![n]).contains(c) <==> Set::<Seq<char>>::empty().insert(n@).contains(c) by {
        if hide_view(seq![n]).contains(c) {
            let i = choose|i: int| 0 <= i < seq![n].len() && seq![n][i]@ == c;
            assert(i == 0);
        }
        if c == n@ {
            assert(seq![n][0]@ == c);
        }
    }
    assert(hide_view(seq![n]) =~= Set::<Seq<char>>::empty().insert(n@));
}

/// Whether the hide list holds the name.
pub(crate) fn hide_contains(h: &Vec<String>, name: &String) -> (r: bool)
    ensures
        r == hide_view(h@).contains(name@),
{
    let n = h.len();
    let mut i: usize = 0;
    while i < n
        invariant
            i <= n,
            n == h@.len(),
            forall|k: int| 0 <= k < i ==> h@[k]@ != name@,
        decreases n - i,
    {
        if h[i] == *name {
            assert(hide_view(h@).contains(name@));
            return true;
        }
        i = i + 1;
    }
    false
}

/// An exact copy of a hide list.
pub(crate) fn clone_hides(h: &Vec<String>) -> (r: Vec<String>)
    ensures
        r@ == h@,
{
    let mut out: Vec<String> = Vec::new();
    let n = h.len();
    let mut i: usize = 0;
    while i < n
        invariant
            i <= n,
            n == h@.len(),
            out@ == h@.subrange(0, i as int),
        decreases n - i,
    {
        out.push(h[i].clone());
        assert(out@ =~= h@.subrange(0, i + 1));
        i = i + 1;
    }
    assert(out@ =~= h@);
    out
}

/// An exact copy of a token list.
pub(crate) fn clone_tokens(ts: &Vec<PreprocessingToken>) -> (r: Vec<PreprocessingToken>)
    ensures
        r@ == ts@,
{
    let mut out: Vec<PreprocessingToken> = Vec::new();
    let n = ts.len();
    let mut i: usize = 0;
    while i < n
        invariant
            i <= n,
            n == ts@.len(),
            out@ == ts@.subrange(0, i as int),
        decreases n - i,
    {
        out.push(clone_token(&ts[i]));
        assert(out@ =~= ts@.subrange(0, i + 1));
        i = i + 1;
    }
    assert(out@ =~= ts@);
    out
}

/// A copy of a hidden token, equal in the model.
pub(crate) fn clone_hidtok(h: &HidToken) -> (r: HidToken)
    ensures
        r@ == h@,
{
    HidToken { token: clone_token(&h.token), hide: clone_hides(&h.hide) }
}

/// A copy of a hidden-token list, equal in the model.
pub(crate) fn clone_hidtoks(ts: &Vec<HidToken>) -> (r: Vec<HidToken>)
    ensures
        hts_view(r@) == hts_view(ts@),
{
    let mut out: Vec<HidToken> = Vec::new();
    let n = ts.len();
    let mut i: usize = 0;
    while i < n
        invariant
            i <= n,
            n == ts@.len(),
            out@.len() == i,
            forall|k: int| 0 <= k < i ==> out@[k]@ == ts@[k]@,
        decreases n - i,
    {
        out.push(clone_hidtok(&ts[i]));
        i = i + 1;
    }
    assert forall|k: int| 0 <= k < out@.len() implies hts_view(out@)[k] == hts_view(ts@)[k] by {
        assert(out@[k]@ == ts@[k]@);
    }
    assert(hts_view(out@) =~= hts_view(ts@));
    out
}

/// No names hide an upstream token.
pub(crate) proof fn lemma_hide_empty()
    ensures
        hide_view(Seq::empty()) == Set::<Seq<char>>::empty(),
{
    assert(hide_view(Seq::empty()) =~= Set::<Seq<char>>::empty());
}

pub(crate) proof fn lemma_hts_push(s: Seq<HidToken>, x: HidToken)
    ensures
        hts_view(s.push(x)) == hts_view(s).push(x@),
{
    assert(hts_view(s.push(x)) =~= hts_view(s).push(x@));
}

pub(crate) proof fn lemma_hts_concat(a: Seq<HidToken>, b: Seq<HidToken>)
    ensures
        hts_view(a + b) == hts_view(a) + hts_view(b),
{
    assert(hts_view(a + b) =~= hts_view(a) + hts_view(b));
}

pub(crate) proof fn lemma_toks_push(s: Seq<PreprocessingToken>, x: PreprocessingToken)
    ensures
        toks_view(s.push(x)) == toks_view(s).push(x@),
{
    assert(toks_view(s.push(x)) =~= toks_view(s).push(x@));
}

pub(crate) proof fn lemma_args_push(s: Seq<Vec<HidToken>>, x: Vec<HidToken>)
    ensures
        args_view(s.push(x)) == args_view(s).push(hts_view(x@)),
{
    assert(args_view(s.push(x)) =~= args_view(s).push(hts_view(x@)));
}

pub(crate) fn tok_is_newline(t: &PreprocessingToken) -> (r: bool)
    ensures
        r == is_newline(t@),
{
    matches!(t, PreprocessingToken::Newline)
}

pub(crate) fn tok_is_lparen(t: &PreprocessingToken) -> (r: bool)
    ensures
        r == is_lparen(t@),
{
    matches!(t, PreprocessingToken::Punctuator(Punctuator::LeftParen(_)))
}

pub(crate) fn tok_is_rparen(t: &PreprocessingToken) -> (r: bool)
    ensures
        r == is_rparen(t@),
{
    matches!(t, PreprocessingToken::Punctuator(Punctuator::RightParen))
}

pub(crate) fn tok_is_comma(t: &PreprocessingToken) -> (r: bool)
    ensures
        r == is_comma(t@),
{
    matches!(t, PreprocessingToken::Punctuator(Punctuator::ParameterSeparator))
}

pub(crate) fn tok_is_stringize(t: &PreprocessingToken) -> (r: bool)
    ensures
        r == is_stringize_op(t@),
{
    matches!(
        t,
        PreprocessingToken::Punctuator(Punctuator::PreprocessingDirective)
            | PreprocessingToken::Punctuator(Punctuator::PreprocessingDirectiveDigraph)
    )
}

pub(crate) fn tok_is_paste(t: &PreprocessingToken) -> (r: bool)
    ensures
        r == is_paste_op(t@),
{
    matches!(
        t,
        PreprocessingToken::Punctuator(Punctuator::PreprocessingConcat)
            | PreprocessingToken::Punctuator(Punctuator::PreprocessingConcatDigraph)
    )
}

/// The spelling of a punctuator.
pub(crate) fn punct_str(p: &Punctuator) -> (r: &'static str)
    ensures
        r@ == punct_lexeme(*p),
{
    match p {
        Punctuator::ArrayIndexBegin => "[",
        Punctuator::ArrayIndexEnd => "]",
        Punctuator::LeftParen(_) => "(",
        Punctuator::RightParen => ")",
        Punctuator::BlockBegin => "{",
        Punctuator::BlockEnd => "}",
        Punctuator::Member => ".",
        Punctuator::DerefMember => "->",
        Punctuator::Increment => "++",
        Punctuator::Decrement => "--",
        Punctuator::AddressOf => "&",
        Punctuator::Deference => "*",
        Punctuator::Add => "+",
        Punctuator::Substract => "-",
        Punctuator::BitwiseNot => "~",
        Punctuator::LogicalNot => "!",
        Punctuator::Divide => "/",
        Punctuator::Modulus => "%",
        Punctuator::ShiftLeft => "<<",
        Punctuator::ShiftRight => ">>",
        Punctuator::LessThan => "<",
        Punctuator::GreaterThan => ">",
        Punctuator::LessThanOrEquals => "<=",
        Punctuator::GreaterThanOrEquals => ">=",
        Punctuator::Equals => "==",
        Punctuator::NotEquals => "!=",
        Punctuator::BitwiseXor => "^",
        Punctuator::BitwiseOr => "|",
        Punctuator::LogicalAnd => "&&",
        Punctuator::LogicalOr => "||",
        Punctuator::TernaryCondition => "?",
        Punctuator::TernarySeparator => ":",
        Punctuator::StatementEnd => ";",
        Punctuator::VariadicParameters => "...",
        Punctuator::Assignment => "=",
        Punctuator::MultiplyAndAssign => "*=",
        Punctuator::DivideAndAssign => "/=",
        Punctuator::ModulusAndAssign => "%=",
        Punctuator::AddAndAssign => "+=",
        Punctuator::SubstractAndAssign => "-=",
        Punctuator::ShiftLeftAndAssign => "<<=",
        Punctuator::ShiftRightAndAssign => ">>=",
        Punctuator::BitwiseAndAndAssign => "&=",
        Punctuator::BitwiseXorAndAssign => "^=",
        Punctuator::BitwiseOrAndAssign => "|=",
        Punctuator::ParameterSeparator => ",",
        Punctuator::PreprocessingDirective => "#",
        Punctuator::PreprocessingConcat => "##",
        Punctuator::ArrayIndexBeginDigraph => "<:",
        Punctuator::ArrayIndexEndDigraph => ":>",
        Punctuator::BlockBeginDigraph => "<%",
        Punctuator::BlockEndDigraph => "%>",
        Punctuator::PreprocessingDirectiveDigraph => "%:",
        Punctuator::PreprocessingConcatDigraph => "%:%:",
    }
}

/// The lexeme of a token, re-rendered as text.
pub(crate) fn token_text(t: &PreprocessingToken) -> (r: String)
    ensures
        r@ == lexeme(t@),
{
    match t {
        PreprocessingToken::HeaderName(HeaderKind::SystemPath, s) => {
            let mut r = String::from_str("<");
            r.append(s.as_str());
            r.append(">");
            r
        },
        PreprocessingToken::HeaderName(HeaderKind::UserPath, s) => {
            let mut r = String::from_str("\"");
            r.append(s.as_str());
            r.append("\"");
            r
        },
        PreprocessingToken::Identifier(s) => s.clone(),
        PreprocessingToken::PreprocessingNumber(s) => s.clone(),
        PreprocessingToken::CharacterConstant(c) => {
            let mut r = String::new();
            r.push('\'');
            r.push(*c);
            r.push('\'');
            assert(r@ =~= seq!['\'', *c, '\'']);
            r
        },
        PreprocessingToken::StringLiteral(s) => {
            let mut r = String::from_str("\"");
            r.append(s.as_str());
            r.append("\"");
            r
        },
        PreprocessingToken::Punctuator(p) => {
            let r = String::from_str(punct_str(p));
            r
        },
        PreprocessingToken::OtherCharacter(c) => {
            let mut r = String::new();
            r.push(*c);
            assert(r@ =~= seq![*c]);
            r
        },
        PreprocessingToken::Newline => {
            let mut r = String::new();
            r.push('\n');
            assert(r@ =~= seq!['\n']);
            r
        },
    }
}

/// The contents of the string literal `#` makes of an argument.
pub(crate) fn stringize_text(raw: &Vec<HidToken>) -> (r: String)
    ensures
        r@ == stringize(hts_view(raw@)),
{
    let ghost ts = hts_view(raw@).map_values(|h: HidTokenModel| h.token);
    let n = raw.len();
    let mut acc = String::new();
    let mut started = false;
    let mut gap = false;
    let mut i: usize = 0;
    while i < n
        invariant
            i <= n,
            n == raw@.len(),
            ts == hts_view(raw@).map_values(|h: HidTokenModel| h.token),
            render(ts, 0, Seq::empty(), false, false) == render(ts, i as int, acc@, started, gap),
        decreases n - i,
    {
        proof {
            assert(ts[i as int] == raw@[i as int]@.token);
        }
        if tok_is_newline(&raw[i].token) {
            gap = true;
        } else {
            let ghost before = acc@;
            let ghost sep: Seq<char> = if started && gap { " "@ } else { Seq::empty() };
            if started && gap {
                acc.append(" ");
            }
            let tx = token_text(&raw[i].token);
            acc.append(tx.as_str());
            proof {
                assert(before + Seq::<char>::empty() =~= before);
                assert(acc@ == before + sep + lexeme(ts[i as int]));
            }
            started = true;
            gap = false;
        }
        i = i + 1;
    }
    acc
}

/// The index of the parameter a name binds to, if any.
pub(crate) fn find_param(params: &Vec<String>, p: &String) -> (r: Option<usize>)
    ensures
        match r {
            Option::Some(k) => k < params@.len() && param_index(params_view(params@), p@, 0)
                == k as int,
            Option::None => param_index(params_view(params@), p@, 0) == -1,
        },
{
    let ghost pv = params_view(params@);
    let n = params.len();
    let mut i: usize = 0;
    while i < n
        invariant
            i <= n,
            n == params@.len(),
            pv == params_view(params@),
            param_index(pv, p@, 0) == param_index(pv, p@, i as int),
        decreases n - i,
    {
        proof {
            assert(pv[i as int] == params@[i as int]@);
        }
        if params[i] == *p {
            return Option::Some(i);
        }
        i = i + 1;
    }
    Option::None
}

/// The argument without its newline tokens.
pub(crate) fn strip_nl(ts: &Vec<HidToken>) -> (r: Vec<HidToken>)
    ensures
        hts_view(r@) == strip_newlines(hts_view(ts@), 0, Seq::empty()),
{
    let ghost tv = hts_view(ts@);
    let n = ts.len();
    let mut out: Vec<HidToken> = Vec::new();
    proof {
        assert(hts_view(out@) =~= Seq::<HidTokenModel>::empty());
    }
    let mut i: usize = 0;
    while i < n
        invariant
            i <= n,
            n == ts@.len(),
            tv == hts_view(ts@),
            strip_newlines(tv, 0, Seq::empty()) == strip_newlines(tv, i as int, hts_view(out@)),
        decreases n - i,
    {
        proof {
            assert(tv[i as int] == ts@[i as int]@);
        }
        if !tok_is_newline(&ts[i].token) {
            let c = clone_hidtok(&ts[i]);
            proof {
                lemma_hts_push(out@, c);
            }
            out.push(c);
        }
        i = i + 1;
    }
    out
}

/// The variadic remainder, re-joined with commas.
pub(crate) fn join_va(args: &Vec<Vec<HidToken>>, start: usize) -> (r: Vec<HidToken>)
    ensures
        hts_view(r@) == join_variadic(args_view(args@), start as int, Seq::empty(), true),
{
    let ghost av = args_view(args@);
    let n = args.len();
    let mut out: Vec<HidToken> = Vec::new();
    proof {
        assert(hts_view(out@) =~= Seq::<HidTokenModel>::empty());
    }
    let mut first = true;
    let mut i: usize = start;
    while i < n
        invariant
            start <= i,
            i <= n || (start > n && i == start),
            n == args@.len(),
            av == args_view(args@),
            join_variadic(av, start as int, Seq::empty(), true) == join_variadic(
                av,
                i as int,
                hts_view(out@),
                first,
            ),
        decreases n - i,
    {
        proof {
            assert(av[i as int] == hts_view(args@[i as int]@));
        }
        if first {
            let c = clone_hidtoks(&args[i]);
            out = c;
            first = false;
        } else {
            let comma = HidToken {
                token: PreprocessingToken::Punctuator(Punctuator::ParameterSeparator),
                hide: Vec::new(),
            };
            proof {
                lemma_hide_empty();
                lemma_hts_push(out@, comma);
            }
            let ghost mid = out@;
            out.push(comma);
            let mut c = clone_hidtoks(&args[i]);
            proof {
                lemma_hts_concat(out@, c@);
            }
            out.append(&mut c);
        }
        i = i + 1;
    }
    out
}

/// The pasted punctuator of two punctuators, if their spellings join.
pub(crate) fn join_puncts(p: &Punctuator, q: &Punctuator) -> (r: Option<Punctuator>)
    ensures
        r == paste_puncts(*p, *q),
{
    match (p, q) {
        (Punctuator::LessThan, Punctuator::LessThan) => Option::Some(Punctuator::ShiftLeft),
        (Punctuator::GreaterThan, Punctuator::GreaterThan) => Option::Some(Punctuator::ShiftRight),
        (Punctuator::LessThan, Punctuator::Assignment) => Option::Some(
            Punctuator::LessThanOrEquals,
        ),
        (Punctuator::GreaterThan, Punctuator::Assignment) => Option::Some(
            Punctuator::GreaterThanOrEquals,
        ),
        (Punctuator::Assignment, Punctuator::Assignment) => Option::Some(Punctuator::Equals),
        (Punctuator::LogicalNot, Punctuator::Assignment) => Option::Some(Punctuator::NotEquals),
        (Punctuator::AddressOf, Punctuator::AddressOf) => Option::Some(Punctuator::LogicalAnd),
        (Punctuator::BitwiseOr, Punctuator::BitwiseOr) => Option::Some(Punctuator::LogicalOr),
        (Punctuator::Add, Punctuator::Add) => Option::Some(Punctuator::Increment),
        (Punctuator::Substract, Punctuator::Substract) => Option::Some(Punctuator::Decrement),
        (Punctuator::Substract, Punctuator::GreaterThan) => Option::Some(Punctuator::DerefMember),
        (Punctuator::ShiftLeft, Punctuator::Assignment) => Option::Some(
            Punctuator::ShiftLeftAndAssign,
        ),
        (Punctuator::ShiftRight, Punctuator::Assignment) => Option::Some(
            Punctuator::ShiftRightAndAssign,
        ),
        (Punctuator::LessThan, Punctuator::LessThanOrEquals) => Option::Some(
            Punctuator::ShiftLeftAndAssign,
        ),
        (Punctuator::GreaterThan, Punctuator::GreaterThanOrEquals) => Option::Some(
            Punctuator::ShiftRightAndAssign,
        ),
        (Punctuator::Deference, Punctuator::Assignment) => Option::Some(
            Punctuator::MultiplyAndAssign,
        ),
        (Punctuator::Divide, Punctuator::Assignment) => Option::Some(Punctuator::DivideAndAssign),
        (Punctuator::Modulus, Punctuator::Assignment) => Option::Some(
            Punctuator::ModulusAndAssign,
        ),
        (Punctuator::Add, Punctuator::Assignment) => Option::Some(Punctuator::AddAndAssign),
        (Punctuator::Substract, Punctuator::Assignment) => Option::Some(
            Punctuator::SubstractAndAssign,
        ),
        (Punctuator::AddressOf, Punctuator::Assignment) => Option::Some(
            Punctuator::BitwiseAndAndAssign,
        ),
        (Punctuator::BitwiseXor, Punctuator::Assignment) => Option::Some(
            Punctuator::BitwiseXorAndAssign,
        ),
        (Punctuator::BitwiseOr, Punctuator::Assignment) => Option::Some(
            Punctuator::BitwiseOrAndAssign,
        ),
        (Punctuator::PreprocessingDirective, Punctuator::PreprocessingDirective) => Option::Some(
            Punctuator::PreprocessingConcat,
        ),
        (Punctuator::LessThan, Punctuator::TernarySeparator) => Option::Some(
            Punctuator::ArrayIndexBeginDigraph,
        ),
        (Punctuator::TernarySeparator, Punctuator::GreaterThan) => Option::Some(
            Punctuator::ArrayIndexEndDigraph,
        ),
        (Punctuator::LessThan, Punctuator::Modulus) => Option::Some(Punctuator::BlockBeginDigraph),
        (Punctuator::Modulus, Punctuator::GreaterThan) => Option::Some(
            Punctuator::BlockEndDigraph,
        ),
        (Punctuator::Modulus, Punctuator::TernarySeparator) => Option::Some(
            Punctuator::PreprocessingDirectiveDigraph,
        ),
        (Punctuator::PreprocessingDirectiveDigraph, Punctuator::PreprocessingDirectiveDigraph) =>
            Option::Some(Punctuator::PreprocessingConcatDigraph),
        _ => Option::None,
    }
}

/// The single token two pasted tokens form, if any.
pub(crate) fn paste_tokens(a: &PreprocessingToken, b: &PreprocessingToken) -> (r: Option<
    PreprocessingToken,
>)
    ensures
        match r {
            Option::Some(t) => paste_one(a@, b@) == Option::Some(t@),
            Option::None => paste_one(a@, b@) is None,
        },
{
    match (a, b) {
        (PreprocessingToken::Identifier(x), PreprocessingToken::Identifier(y)) => Option::Some(
            PreprocessingToken::Identifier(x.clone().concat(y.as_str())),
        ),
        (PreprocessingToken::Identifier(x), PreprocessingToken::PreprocessingNumber(y)) =>
            Option::Some(PreprocessingToken::Identifier(x.clone().concat(y.as_str()))),
        (
            PreprocessingToken::PreprocessingNumber(x),
            PreprocessingToken::PreprocessingNumber(y),
        ) => Option::Some(PreprocessingToken::PreprocessingNumber(x.clone().concat(y.as_str()))),
        (PreprocessingToken::PreprocessingNumber(x), PreprocessingToken::Identifier(y)) =>
            Option::Some(PreprocessingToken::PreprocessingNumber(x.clone().concat(y.as_str()))),
        (PreprocessingToken::Punctuator(p), PreprocessingToken::Punctuator(q)) => match join_puncts(
            p,
            q,
        ) {
            Option::Some(j) => Option::Some(PreprocessingToken::Punctuator(j)),
            Option::None => Option::None,
        },
        _ => Option::None,
    }
}

/// Whether the body uses the named parameter outside `#`/`##`.
pub(crate) fn param_used_plainly(body: &Vec<PreprocessingToken>, p: &String) -> (r: bool)
    ensures
        r == used_plainly(toks_view(body@), p@, 0),
{
    let ghost bv = toks_view(body@);
    let n = body.len();
    let mut i: usize = 0;
    while i < n
        invariant
            i <= n,
            n == body@.len(),
            bv == toks_view(body@),
            used_plainly(bv, p@, 0) == used_plainly(bv, p@, i as int),
        decreases n - i,
    {
        proof {
            assert(bv[i as int] == body@[i as int]@);
            if i > 0 {
                assert(bv[i - 1] == body@[i - 1]@);
            }
            if i + 1 < n {
                assert(bv[i + 1] == body@[i + 1]@);
            }
        }
        let name_here = match &body[i] {
            PreprocessingToken::Identifier(s) => *s == *p,
            _ => false,
        };
        if name_here {
            let prev_op = i > 0 && (tok_is_stringize(&body[i - 1]) || tok_is_paste(&body[i - 1]));
            let next_op = i + 1 < n && tok_is_paste(&body[i + 1]);
            if !prev_op && !next_op {
                assert(used_plainly(bv, p@, i as int));
                return true;
            }
        }
        i = i + 1;
    }
    false
}

/// For each parameter, whether its argument must be expanded before
/// substitution.
pub(crate) fn compute_needed(params: &Vec<String>, body: &Vec<PreprocessingToken>) -> (r: Vec<bool>)
    ensures
        r@ == needed_args(params_view(params@), toks_view(body@)),
{
    let n = params.len();
    let mut out: Vec<bool> = Vec::new();
    let mut i: usize = 0;
    while i < n
        invariant
            i <= n,
            n == params@.len(),
            out@.len() == i,
            forall|k: int|
                0 <= k < i ==> out@[k] == used_plainly(toks_view(body@), params_view(params@)[k], 0),
        decreases n - i,
    {
        proof {
            assert(params_view(params@)[i as int] == params@[i as int]@);
        }
        out.push(param_used_plainly(body, &params[i]));
        i = i + 1;
    }
    assert(out@ =~= needed_args(params_view(params@), toks_view(body@)));
    out
}


/// Tokens fresh from a macro body, with empty hide sets.
pub(crate) fn plain_list(ts: Vec<PreprocessingToken>) -> (r: Vec<HidToken>)
    ensures
        hts_view(r@) == plain_units(toks_view(ts@)),
{
    let ghost orig = ts@;
    let mut ts = ts;
    let mut out: Vec<HidToken> = Vec::new();
    let n = ts.len();
    let mut i: usize = 0;
    while i < n
        invariant
            i <= n,
            n == ts@.len(),
            ts@ == orig,
            out@.len() == i,
            forall|k: int| 0 <= k < i ==> out@[k]@ == (HidTokenModel {
                token: orig[k]@,
                hide: Set::empty(),
            }),
        decreases n - i,
    {
        let h: Vec<String> = Vec::new();
        proof {
            lemma_hide_empty();
            assert(hide_view(h@) =~= Set::<Seq<char>>::empty());
        }
        out.push(HidToken { token: clone_token(&ts[i]), hide: h });
        i = i + 1;
    }
    assert forall|k: int| 0 <= k < out@.len() implies hts_view(out@)[k] == plain_units(
        toks_view(ts@),
    )[k] by {
        assert(out@[k]@ == HidTokenModel { token: orig[k]@, hide: Set::empty() });
    }
    assert(hts_view(out@) =~= plain_units(toks_view(ts@)));
    out
}

/// Adds the invoker's hide set and the invoked name to every token.
pub(crate) fn mark_hides(ts: Vec<HidToken>, extra: &Vec<String>, name: &String) -> (r: Vec<HidToken>)
    ensures
        hts_view(r@) == add_hides(hts_view(ts@), hide_view(extra@).insert(name@)),
{
    let ghost orig = ts@;
    let ghost target = hide_view(extra@).insert(name@);
    let mut ts = ts;
    let mut out: Vec<HidToken> = Vec::new();
    let n = ts.len();
    let mut i: usize = 0;
    while i < n
        invariant
            i <= n,
            n == ts@.len(),
            ts@ == orig,
            target == hide_view(extra@).insert(name@),
            out@.len() == i,
            forall|k: int| 0 <= k < i ==> out@[k]@ == (HidTokenModel {
                token: orig[k]@.token,
                hide: orig[k]@.hide.union(target),
            }),
        decreases n - i,
    {
        let el = clone_hidtok(&ts[i]);
        let HidToken { token, hide } = el;
        let mut hv = hide;
        let mut e2 = clone_hides(extra);
        proof {
            lemma_hide_concat(hv@, e2@);
        }
        let ghost joined = hv@ + e2@;
        hv.append(&mut e2);
        let ghost before_name = hv@;
        hv.push(name.clone());
        proof {
            assert(hv@ =~= before_name + seq![*name]);
            lemma_hide_concat(before_name, seq![*name]);
            lemma_hide_single(*name);
            assert(hide_view(hv@) =~= orig[i as int]@.hide.union(target));
        }
        out.push(HidToken { token, hide: hv });
        i = i + 1;
    }
    assert forall|k: int| 0 <= k < out@.len() implies hts_view(out@)[k] == add_hides(
        hts_view(ts@),
        target,
    )[k] by {
        assert(out@[k]@ == HidTokenModel {
            token: orig[k]@.token,
            hide: orig[k]@.hide.union(target),
        });
        assert(hts_view(ts@)[k] == orig[k]@);
    }
    assert(hts_view(out@) =~= add_hides(hts_view(ts@), target));
    out
}

/// Pushes tokens onto the stack in reverse, so the first is processed
/// first.
#[verifier::spinoff_prover]
pub(crate) fn push_reversed(pending: &mut Vec<ExpandingToken>, toks: Vec<HidToken>)
    ensures
        units_view(final(pending)@) == units_view(old(pending)@) + to_units(
            hts_view(toks@),
        ).reverse(),
{
    let ghost orig = toks@;
    let ghost base = old(pending)@;
    let mut toks = toks;
    while toks.len() > 0
        invariant
            toks@.len() <= orig.len(),
            toks@ == orig.subrange(0, toks@.len() as int),
            units_view(pending@) =~= units_view(base) + to_units(hts_view(orig)).reverse().subrange(
                0,
                orig.len() - toks@.len(),
            ),
        decreases toks@.len(),
    {
        let ghost m = orig.len() - toks@.len();
        let ghost lbefore = toks@.len() as int;
        let h = match toks.pop() {
            Option::Some(h) => h,
            Option::None => vstd::pervasive::unreached(),
        };
        let ghost hm = h@;
        proof {
            assert(orig.subrange(0, lbefore)[lbefore - 1] == orig[lbefore - 1]);
            assert(hm == orig[lbefore - 1]@);
            assert(toks@ =~= orig.subrange(0, lbefore - 1));
        }
        let ghost prevp = pending@;
        pending.push(ExpandingToken::Token(h));
        proof {
            let ghost idx = orig.len() - 1 - m;
            assert(idx == lbefore - 1);
            assert(hts_view(orig)[idx] == orig[idx]@);
            assert(to_units(hts_view(orig))[idx] == UnitModel::Token(orig[idx]@));
            assert(to_units(hts_view(orig)).reverse()[m] == to_units(hts_view(orig))[idx]);
            let ghost rev = to_units(hts_view(orig)).reverse();
            let ghost target2 = units_view(base) + rev.subrange(0, m + 1);
            assert(pending@.last()@ == UnitModel::Token(hm));
            assert forall|k: int| 0 <= k < target2.len() implies units_view(pending@)[k]
                == target2[k] by {
                assert(units_view(prevp) == units_view(base) + rev.subrange(0, m));
                assert(units_view(prevp).len() == prevp.len());
                assert(prevp.len() == units_view(base).len() + m);
                if k < units_view(base).len() + m {
                    assert(pending@[k] == prevp[k]);
                    assert(units_view(pending@)[k] == pending@[k]@);
                    assert(units_view(prevp)[k] == prevp[k]@);
                } else {
                    assert(units_view(pending@)[k] == pending@.last()@);
                    assert(target2[k] == rev.subrange(0, m + 1)[m]);
                    assert(rev.subrange(0, m + 1)[m] == rev[m]);
                }
            }
            assert(units_view(pending@).len() == pending@.len());
            assert(pending@.len() == prevp.len() + 1);
            assert(units_view(prevp).len() == prevp.len());
            assert(rev.len() == orig.len());
            assert(m + 1 <= rev.len());
            assert(rev.subrange(0, m).len() == m);
            assert(units_view(prevp).len() == units_view(base).len() + m);
            assert(rev.subrange(0, m + 1).len() == m + 1);
            assert(target2.len() == units_view(base).len() + m + 1);
            assert(units_view(pending@).len() == target2.len());
            assert(units_view(pending@) =~= target2);
        }
    }
    proof {
        assert(to_units(hts_view(orig)).reverse().subrange(
            0,
            orig.len() as int,
        ) =~= to_units(hts_view(orig)).reverse());
        assert(units_view(pending@) =~= units_view(base) + to_units(hts_view(orig)).reverse());
    }
}

/// Yields a finished token: into the argument being expanded when a frame
/// is open, otherwise downstream.
pub(crate) fn do_emit(st: Machine, t: PreprocessingToken, h: Vec<String>) -> (r: Machine)
    ensures
        r@ == emit(st@, t@, hide_view(h@)),
        st@.frames.len() == r@.frames.len(),
        wf_frames(st@) ==> wf_frames(r@),
{
    let ghost old_st = st@;
    let mut st = st;
    if st.frames.len() > 0 {
        let mut f = match st.frames.pop() {
            Option::Some(f) => f,
            Option::None => vstd::pervasive::unreached(),
        };
        let ghost fm = f@;
        proof {
            lemma_hts_push(f.current@, HidToken { token: t, hide: h });
        }
        let ghost before = f.current@;
        f.current.push(HidToken { token: t, hide: h });
        proof {
            assert(hts_view(f.current@) =~= hts_view(before).push(
                HidTokenModel { token: t@, hide: hide_view(h@) },
            ));
            assert(f@ =~= FrameModel {
                current: fm.current.push(HidTokenModel { token: t@, hide: hide_view(h@) }),
                ..fm
            });
        }
        st.frames.push(f);
        proof {
            assert(frames_view(st.frames@) =~= old_st.frames.drop_last().push(
                FrameModel {
                    current: fm.current.push(HidTokenModel { token: t@, hide: hide_view(h@) }),
                    ..fm
                },
            ));
            assert(st@ =~= emit(old_st, t@, hide_view(h@)));
            assert forall|i: int| 0 <= i < st@.frames.len() && wf_frames(old_st) implies wf_frame(
                #[trigger] st@.frames[i],
            ) by {
                if i < st@.frames.len() - 1 {
                    assert(st@.frames[i] == old_st.frames[i]);
                } else {
                    assert(wf_frame(old_st.frames[old_st.frames.len() - 1]));
                }
            }
        }
        st
    } else {
        proof {
            lemma_toks_push(st.produced@, t);
        }
        st.produced.push(t);
        proof {
            assert(st@ =~= emit(old_st, t@, hide_view(h@)));
        }
        st
    }
}


/// Looks below the invoking identifier for the left parenthesis that
/// begins an argument list.
pub(crate) fn find_lparen(pending: &Vec<ExpandingToken>) -> (r: Option<usize>)
    ensures
        match r {
            Option::Some(j) => j < pending@.len() && look_for_lparen(
                units_view(pending@),
                pending@.len() - 1,
            ) == Option::Some(j as int),
            Option::None => look_for_lparen(units_view(pending@), pending@.len() - 1) is None,
        },
{
    let ghost pv = units_view(pending@);
    let n = pending.len();
    let mut j: usize = n;
    while j > 0
        invariant
            j <= n,
            n == pending@.len(),
            pv == units_view(pending@),
            look_for_lparen(pv, n - 1) == look_for_lparen(pv, j - 1),
        decreases j,
    {
        j = j - 1;
        proof {
            assert(pv[j as int] == pending@[j as int]@);
        }
        match &pending[j] {
            ExpandingToken::EndScope(_) => {},
            ExpandingToken::ArgumentEnd => {
                return Option::None;
            },
            ExpandingToken::Token(h) => {
                if tok_is_newline(&h.token) {
                } else if tok_is_lparen(&h.token) {
                    return Option::Some(j);
                } else {
                    return Option::None;
                }
            },
        }
    }
    Option::None
}

/// How argument collection ended.
pub enum Collected {
    Hit(Vec<Vec<HidToken>>, usize),
    NoClose,
}

/// Collects the arguments of an invocation whose left parenthesis stands
/// at stack index `lp`.
pub(crate) fn collect_invocation(pending: &Vec<ExpandingToken>, lp: usize) -> (r: Collected)
    requires
        lp < pending@.len(),
    ensures
        match r {
            Collected::Hit(args, rest) => rest <= lp && collect_args(
                units_view(pending@),
                lp - 1,
                1,
                Seq::empty(),
                Seq::empty(),
            ) == CollectModel::Split(args_view(args@), rest as int),
            Collected::NoClose => collect_args(
                units_view(pending@),
                lp - 1,
                1,
                Seq::empty(),
                Seq::empty(),
            ) == CollectModel::NoEnd,
        },
{
    let ghost pv = units_view(pending@);
    let n_total = pending.len();
    let mut args: Vec<Vec<HidToken>> = Vec::new();
    let mut cur: Vec<HidToken> = Vec::new();
    let mut depth: usize = 1;
    let mut j: usize = lp;
    proof {
        assert(hts_view(cur@) =~= Seq::<HidTokenModel>::empty());
        assert(args_view(args@) =~= Seq::<Seq<HidTokenModel>>::empty());
    }
    while j > 0
        invariant
            j <= lp,
            lp < n_total,
            n_total == pending@.len(),
            pv == units_view(pending@),
            1 <= depth,
            depth <= lp - j + 1,
            collect_args(pv, lp - 1, 1, Seq::empty(), Seq::empty()) == collect_args(
                pv,
                j - 1,
                depth as int,
                hts_view(cur@),
                args_view(args@),
            ),
        decreases j,
    {
        j = j - 1;
        proof {
            assert(pv[j as int] == pending@[j as int]@);
        }
        match &pending[j] {
            ExpandingToken::EndScope(_) => {},
            ExpandingToken::ArgumentEnd => {
                return Collected::NoClose;
            },
            ExpandingToken::Token(h) => {
                if tok_is_lparen(&h.token) {
                    let c = clone_hidtok(h);
                    proof {
                        lemma_hts_push(cur@, c);
                        assert(depth <= lp - j);
                        assert(lp < n_total);
                    }
                    cur.push(c);
                    depth = depth + 1;
                } else if tok_is_rparen(&h.token) {
                    if depth == 1 {
                        proof {
                            lemma_args_push(args@, cur);
                        }
                        args.push(cur);
                        return Collected::Hit(args, j);
                    } else {
                        depth = depth - 1;
                        let c = clone_hidtok(h);
                        proof {
                            lemma_hts_push(cur@, c);
                        }
                        cur.push(c);
                    }
                } else if tok_is_comma(&h.token) && depth == 1 {
                    proof {
                        lemma_args_push(args@, cur);
                    }
                    args.push(cur);
                    cur = Vec::new();
                    proof {
                        assert(hts_view(cur@) =~= Seq::<HidTokenModel>::empty());
                    }
                } else {
                    let c = clone_hidtok(h);
                    proof {
                        lemma_hts_push(cur@, c);
                    }
                    cur.push(c);
                }
            },
        }
    }
    Collected::NoClose
}

/// What stands for one `##` operand.
pub(crate) fn operand_list(
    t: &PreprocessingToken,
    params: &Vec<String>,
    raw_args: &Vec<Vec<HidToken>>,
) -> (r: Vec<HidToken>)
    requires
        raw_args@.len() == params@.len(),
    ensures
        hts_view(r@) == paste_operand(t@, params_view(params@), args_view(raw_args@)),
{
    let k = match t {
        PreprocessingToken::Identifier(s) => find_param(params, s),
        _ => Option::None,
    };
    match k {
        Option::Some(k) => {
            proof {
                assert(args_view(raw_args@)[k as int] == hts_view(raw_args@[k as int]@));
            }
            strip_nl(&raw_args[k])
        },
        Option::None => {
            let h: Vec<String> = Vec::new();
            proof {
                lemma_hide_empty();
            }
            let mut out: Vec<HidToken> = Vec::new();
            out.push(HidToken { token: clone_token(t), hide: h });
            proof {
                assert(hts_view(out@) =~= seq![
                    HidTokenModel { token: t@, hide: Set::empty() },
                ]);
            }
            out
        },
    }
}

/// Pastes the built list with a `##` operand in place.
#[verifier::rlimit(30)]
pub(crate) fn paste_append(acc: &mut Vec<HidToken>, rhs: Vec<HidToken>) -> (ok: bool)
    ensures
        match paste_lists(hts_view(old(acc)@), hts_view(rhs@)) {
            Option::Some(res) => ok && hts_view(final(acc)@) == res,
            Option::None => !ok,
        },
{
    let ghost lv = hts_view(old(acc)@);
    let ghost rv = hts_view(rhs@);
    if acc.len() == 0 {
        let mut r = rhs;
        proof {
            lemma_hts_concat(acc@, r@);
        }
        acc.append(&mut r);
        proof {
            assert(hts_view(acc@) =~= rv);
        }
        return true;
    }
    if rhs.len() == 0 {
        return true;
    }
    let la = acc.len();
    let lt = clone_hidtok(&acc[la - 1]);
    proof {
        assert(lt@ == lv.last());
        assert(rhs@[0]@ == rv.first());
    }
    match paste_tokens(&lt.token, &rhs[0].token) {
        Option::None => false,
        Option::Some(t) => {
            acc.truncate(la - 1);
            proof {
                assert forall|k: int| 0 <= k < la - 1 implies hts_view(acc@)[k]
                    == lv.drop_last()[k] by {
                    assert(acc@[k]@ == lv[k]);
                }
                assert(hts_view(acc@) =~= lv.drop_last());
            }
            let HidToken { token: _, hide: mut hv } = lt;
            let mut h2 = clone_hides(&rhs[0].hide);
            proof {
                lemma_hide_concat(hv@, h2@);
            }
            hv.append(&mut h2);
            let joined = HidToken { token: t, hide: hv };
            let ghost jm = joined@;
            proof {
                assert(jm == HidTokenModel {
                    token: jm.token,
                    hide: lv.last().hide.union(rv.first().hide),
                });
                lemma_hts_push(acc@, joined);
            }
            acc.push(joined);
            let ghost mid = hts_view(acc@);
            proof {
                assert(mid =~= lv.drop_last().push(jm));
            }
            let n = rhs.len();
            let mut j: usize = 1;
            while j < n
                invariant
                    1 <= j <= n,
                    n == rhs@.len(),
                    rv == hts_view(rhs@),
                    mid == lv.drop_last().push(jm),
                    hts_view(acc@) == mid + rv.subrange(1, j as int),
                decreases n - j,
            {
                let c = clone_hidtok(&rhs[j]);
                proof {
                    lemma_hts_push(acc@, c);
                    assert(c@ == rv[j as int]);
                    assert((mid + rv.subrange(1, j as int)).push(rv[j as int]) =~= mid
                        + rv.subrange(1, j + 1));
                }
                acc.push(c);
                j = j + 1;
            }
            proof {
                assert(rv.subrange(1, n as int) =~= rv.drop_first());
                match paste_lists(lv, rv) {
                    Option::Some(res) => {
                        assert(res =~= lv.drop_last() + seq![jm] + rv.drop_first());
                        assert(hts_view(acc@) =~= res);
                    },
                    Option::None => {
                        assert(false);
                    },
                }
            }
            true
        },
    }
}

/// Substitution over a replacement list.
#[verifier::rlimit(30)]
pub(crate) fn substitute(
    body: &Vec<PreprocessingToken>,
    params: &Vec<String>,
    raw_args: &Vec<Vec<HidToken>>,
    exp_args: &Vec<Vec<HidToken>>,
) -> (r: Option<Vec<HidToken>>)
    requires
        raw_args@.len() == params@.len(),
        exp_args@.len() == params@.len(),
    ensures
        match r {
            Option::Some(res) => subst(
                toks_view(body@),
                params_view(params@),
                args_view(raw_args@),
                args_view(exp_args@),
                0,
                Seq::empty(),
            ) == SubstOutcome::Built(hts_view(res@)),
            Option::None => subst(
                toks_view(body@),
                params_view(params@),
                args_view(raw_args@),
                args_view(exp_args@),
                0,
                Seq::empty(),
            ) == SubstOutcome::BadPaste,
        },
{
    let ghost bv = toks_view(body@);
    let ghost pv = params_view(params@);
    let ghost rv = args_view(raw_args@);
    let ghost ev = args_view(exp_args@);
    let n = body.len();
    let mut acc: Vec<HidToken> = Vec::new();
    proof {
        assert(hts_view(acc@) =~= Seq::<HidTokenModel>::empty());
    }
    let mut i: usize = 0;
    while i < n
        invariant
            i <= n,
            n == body@.len(),
            bv == toks_view(body@),
            pv == params_view(params@),
            rv == args_view(raw_args@),
            ev == args_view(exp_args@),
            rv.len() == pv.len(),
            ev.len() == pv.len(),
            raw_args@.len() == params@.len(),
            exp_args@.len() == params@.len(),
            subst(bv, pv, rv, ev, 0, Seq::empty()) == subst(
                bv,
                pv,
                rv,
                ev,
                i as int,
                hts_view(acc@),
            ),
        decreases n - i,
    {
        proof {
            assert(bv[i as int] == body@[i as int]@);
            if i + 1 < n {
                assert(bv[i + 1] == body@[i + 1]@);
            }
        }
        let next_param: Option<usize> = if i + 1 < n {
            match &body[i + 1] {
                PreprocessingToken::Identifier(s) => find_param(params, s),
                _ => Option::None,
            }
        } else {
            Option::None
        };
        proof {
            if i + 1 < n {
                match next_param {
                    Option::Some(k) => {
                        assert(stringized_param(bv[i + 1], pv) == k as int);
                    },
                    Option::None => {
                        assert(stringized_param(bv[i + 1], pv) == -1);
                    },
                }
            }
        }
        if tok_is_stringize(&body[i]) && next_param.is_some() {
            let k = match next_param {
                Option::Some(k) => k,
                Option::None => vstd::pervasive::unreached(),
            };
            proof {
                assert(rv[k as int] == hts_view(raw_args@[k as int]@));
            }
            let text = stringize_text(&raw_args[k]);
            let h: Vec<String> = Vec::new();
            proof {
                lemma_hide_empty();
            }
            let lit = HidToken { token: PreprocessingToken::StringLiteral(text), hide: h };
            proof {
                lemma_hts_push(acc@, lit);
            }
            acc.push(lit);
            i = i + 2;
        } else if tok_is_paste(&body[i]) && i + 1 < n {
            let rhs = operand_list(&body[i + 1], params, raw_args);
            let ghost accv = hts_view(acc@);
            let ok = paste_append(&mut acc, rhs);
            if !ok {
                return Option::None;
            }
            i = i + 2;
        } else {
            let here_param: Option<usize> = match &body[i] {
                PreprocessingToken::Identifier(s) => find_param(params, s),
                _ => Option::None,
            };
            proof {
                match here_param {
                    Option::Some(k) => {
                        assert(plain_param(bv[i as int], pv) == k as int);
                    },
                    Option::None => {
                        assert(plain_param(bv[i as int], pv) == -1);
                    },
                }
            }
            match here_param {
                Option::Some(k) => {
                    let next_paste = i + 1 < n && tok_is_paste(&body[i + 1]);
                    let mut piece = if next_paste {
                        proof {
                            assert(rv[k as int] == hts_view(raw_args@[k as int]@));
                        }
                        strip_nl(&raw_args[k])
                    } else {
                        proof {
                            assert(ev[k as int] == hts_view(exp_args@[k as int]@));
                        }
                        clone_hidtoks(&exp_args[k])
                    };
                    proof {
                        lemma_hts_concat(acc@, piece@);
                    }
                    acc.append(&mut piece);
                    i = i + 1;
                },
                Option::None => {
                    let h: Vec<String> = Vec::new();
                    proof {
                        lemma_hide_empty();
                    }
                    let plainv = HidToken { token: clone_token(&body[i]), hide: h };
                    proof {
                        lemma_hts_push(acc@, plainv);
                    }
                    acc.push(plainv);
                    i = i + 1;
                },
            }
        }
    }
    Option::Some(acc)
}

/// Records an empty expansion for each parameter that needs none, up to
/// the next one that does.
pub(crate) fn skip_args(needed: &Vec<bool>, exps: Vec<Vec<HidToken>>) -> (r: Vec<Vec<HidToken>>)
    requires
        exps@.len() <= needed@.len(),
    ensures
        args_view(r@) == skip_unneeded(needed@, args_view(exps@)),
        r@.len() <= needed@.len(),
{
    let ghost orig = args_view(exps@);
    let mut exps = exps;
    while exps.len() < needed.len() && !needed[exps.len()]
        invariant
            exps@.len() <= needed@.len(),
            skip_unneeded(needed@, orig) == skip_unneeded(needed@, args_view(exps@)),
        decreases needed@.len() - exps@.len(),
    {
        let e: Vec<HidToken> = Vec::new();
        proof {
            lemma_args_push(exps@, e);
            assert(hts_view(e@) =~= Seq::<HidTokenModel>::empty());
            assert(args_view(exps@).len() == exps@.len());
        }
        exps.push(e);
    }
    proof {
        assert(args_view(exps@).len() == exps@.len());
    }
    exps
}

/// The outcome of one executable machine step.
pub enum StepExec {
    Going(Machine),
    Out(Vec<PreprocessingToken>),
    Fail(ExpandError),
}

/// The model of an expansion error.  Budget exhaustion is the driver's
/// own condition, not one of the machine's failures, so it has no model.
pub open spec fn error_model(e: ExpandError) -> Option<ErrorModel> {
    match e {
        ExpandError::UnterminatedInvocation(n) => Option::Some(
            ErrorModel::UnterminatedInvocation(n@),
        ),
        ExpandError::ArityMismatch(n) => Option::Some(ErrorModel::ArityMismatch(n@)),
        ExpandError::InvalidPaste => Option::Some(ErrorModel::InvalidPaste),
        ExpandError::BudgetExhausted => Option::None,
    }
}


/// Moves the top frame forward: pushes the next argument that needs
/// expansion as its own sub-stream, or substitutes and queues the
/// replacement for rescanning with the end-of-scope marker beneath it.
#[verifier::rlimit(30)]
pub(crate) fn frame_step(st: Machine) -> (r: StepExec)
    requires
        st@.frames.len() > 0,
        wf_frames(st@),
    ensures
        match r {
            StepExec::Going(s2) => frame_progress(st@) == StatusModel::Running(s2@) && wf_frames(
                s2@,
            ),
            StepExec::Fail(e) => error_model(e) matches Option::Some(em) && frame_progress(st@)
                == StatusModel::Failed(em),
            StepExec::Out(_) => false,
        },
{
    let ghost sm = st@;
    let ghost fm = sm.frames.last();
    let mut st = st;
    let f = match st.frames.pop() {
        Option::Some(f) => f,
        Option::None => vstd::pervasive::unreached(),
    };
    proof {
        assert(f@ == fm);
        assert(frames_view(st.frames@) =~= sm.frames.drop_last());
        assert(wf_frame(fm));
    }
    let Frame { name, hide, params, body, raw_args, needed, expanded, current } = f;
    proof {
        assert(args_view(expanded@) == fm.expanded);
        assert(needed@ == fm.needed);
        assert(args_view(expanded@).len() == expanded@.len());
    }
    let exps = skip_args(&needed, expanded);
    let ghost exps_m = args_view(exps@);
    proof {
        assert(exps_m == skip_unneeded(fm.needed, fm.expanded));
        assert(exps_m.len() == exps@.len());
    }
    if exps.len() < needed.len() {
        let k = exps.len();
        proof {
            assert(k as int == exps_m.len() as int);
            assert(raw_args@.len() == params@.len());
            assert(params_view(params@).len() == params@.len());
            assert(fm.raw_args[k as int] == hts_view(raw_args@[k as int]@));
        }
        let sub = strip_nl(&raw_args[k]);
        let ghost base_p = units_view(st.pending@);
        st.pending.push(ExpandingToken::ArgumentEnd);
        proof {
            assert(units_view(st.pending@) =~= base_p.push(UnitModel::ArgumentEnd));
        }
        push_reversed(&mut st.pending, sub);
        let f2 = Frame {
            name,
            hide,
            params,
            body,
            raw_args,
            needed,
            expanded: exps,
            current: Vec::new(),
        };
        proof {
            assert(f2@ =~= FrameModel { expanded: exps_m, current: Seq::empty(), ..fm });
            assert(hts_view(f2.current@) =~= Seq::<HidTokenModel>::empty());
        }
        let ghost base_f = frames_view(st.frames@);
        st.frames.push(f2);
        proof {
            assert(frames_view(st.frames@) =~= base_f.push(f2@));
            match frame_progress(sm) {
                StatusModel::Running(target) => {
                    assert(st@.pending =~= target.pending);
                    assert(st@.frames =~= target.frames);
                    assert(st@ =~= target);
                    assert forall|i: int| 0 <= i < st@.frames.len() implies wf_frame(
                        #[trigger] st@.frames[i],
                    ) by {
                        if i < st@.frames.len() - 1 {
                            assert(st@.frames[i] == sm.frames[i]);
                        } else {
                            lemma_skip_unneeded_len(fm.needed, fm.expanded);
                            assert(st@.frames[i] == f2@);
                        }
                    }
                },
                _ => {
                    assert(false);
                },
            }
        }
        StepExec::Going(st)
    } else {
        proof {
            lemma_skip_unneeded_len(fm.needed, fm.expanded);
            assert(exps@.len() == needed@.len());
            assert(exps@.len() == params@.len());
        }
        match substitute(&body, &params, &raw_args, &exps) {
            Option::None => {
                proof {
                    assert(frame_progress(sm) == StatusModel::Failed(ErrorModel::InvalidPaste));
                }
                StepExec::Fail(ExpandError::InvalidPaste)
            },
            Option::Some(res) => {
                let marked = mark_hides(res, &hide, &name);
                let ghost base_p = units_view(st.pending@);
                st.pending.push(ExpandingToken::EndScope(name.clone()));
                proof {
                    assert(units_view(st.pending@) =~= base_p.push(UnitModel::EndScope(name@)));
                }
                push_reversed(&mut st.pending, marked);
                proof {
                    match frame_progress(sm) {
                        StatusModel::Running(target) => {
                            assert(st@.pending =~= target.pending);
                            assert(st@ =~= target);
                            assert forall|i: int| 0 <= i < st@.frames.len() implies wf_frame(
                                #[trigger] st@.frames[i],
                            ) by {
                                assert(st@.frames[i] == sm.frames[i]);
                            }
                        },
                        _ => {
                            assert(false);
                        },
                    }
                }
                StepExec::Going(st)
            },
        }
    }
}

/// One step of the expansion machine: processes the head of the pending
/// queue exactly as the model's `step` prescribes.
#[verifier::rlimit(30)]
pub(crate) fn machine_step(table: &Macros, st: Machine) -> (r: StepExec)
    requires
        wf_frames(st@),
    ensures
        match r {
            StepExec::Going(s2) => step(table@, st@) == StatusModel::Running(s2@) && wf_frames(
                s2@,
            ),
            StepExec::Out(v) => step(table@, st@) == StatusModel::Finished(toks_view(v@)),
            StepExec::Fail(e) => error_model(e) matches Option::Some(em) && step(table@, st@)
                == StatusModel::Failed(em),
        },
{
    let ghost sm = st@;
    let mut st = st;
    if st.pending.len() == 0 {
        return StepExec::Out(st.produced);
    }
    let u = match st.pending.pop() {
        Option::Some(u) => u,
        Option::None => vstd::pervasive::unreached(),
    };
    proof {
        assert(u@ == sm.pending.last());
        assert(units_view(st.pending@) =~= sm.pending.drop_last());
        assert(st@ =~= StateModel { pending: sm.pending.drop_last(), ..sm });
    }
    let ghost popped_m = st@;
    match u {
        ExpandingToken::EndScope(_) => StepExec::Going(st),
        ExpandingToken::ArgumentEnd => {
            if st.frames.len() == 0 {
                return StepExec::Going(st);
            }
            let fl = st.frames.len();
            if st.frames[fl - 1].expanded.len() >= st.frames[fl - 1].needed.len() {
                proof {
                    assert(popped_m.frames.last() == st.frames@[fl - 1]@);
                    assert(popped_m.frames.last().expanded.len() >= popped_m.frames.last().needed.len());
                }
                return StepExec::Going(st);
            }
            let mut f = match st.frames.pop() {
                Option::Some(f) => f,
                Option::None => vstd::pervasive::unreached(),
            };
            let ghost fm = f@;
            proof {
                assert(fm == popped_m.frames.last());
                assert(frames_view(st.frames@) =~= popped_m.frames.drop_last());
                assert(wf_frame(fm));
                lemma_args_push(f.expanded@, f.current);
            }
            let cur = f.current;
            f.current = Vec::new();
            f.expanded.push(cur);
            proof {
                assert(args_view(f.expanded@) =~= fm.expanded.push(fm.current));
                assert(hts_view(f.current@) =~= Seq::<HidTokenModel>::empty());
                assert(f@ =~= FrameModel {
                    expanded: fm.expanded.push(fm.current),
                    current: Seq::empty(),
                    ..fm
                });
            }
            let ghost base_f = frames_view(st.frames@);
            st.frames.push(f);
            proof {
                assert(frames_view(st.frames@) =~= base_f.push(
                    FrameModel {
                        expanded: fm.expanded.push(fm.current),
                        current: Seq::empty(),
                        ..fm
                    },
                ));
                assert forall|i: int| 0 <= i < st@.frames.len() implies wf_frame(
                    #[trigger] st@.frames[i],
                ) by {
                    if i < st@.frames.len() - 1 {
                        assert(st@.frames[i] == popped_m.frames[i]);
                    }
                }
                assert(st@.frames.len() > 0);
            }
            frame_step(st)
        },
        ExpandingToken::Token(ht) => {
            let HidToken { token, hide } = ht;
            let ghost tm = token@;
            let ghost hm = hide_view(hide@);
            let name_opt: Option<String> = match &token {
                PreprocessingToken::Identifier(s) => Option::Some(s.clone()),
                _ => Option::None,
            };
            match name_opt {
                Option::None => {
                    let r = do_emit(st, token, hide);
                    proof {
                        assert(step(table@, sm) == StatusModel::Running(r@));
                    }
                    StepExec::Going(r)
                },
                Option::Some(nm) => {
                    proof {
                        assert(tm == TokenModel::Identifier(nm@));
                    }
                    if hide_contains(&hide, &nm) {
                        let r = do_emit(st, token, hide);
                        proof {
                            assert(step(table@, sm) == StatusModel::Running(r@));
                        }
                        return StepExec::Going(r);
                    }
                    let looked = table.lookup(&nm);
                    match looked {
                        Option::None => {
                            let r = do_emit(st, token, hide);
                            proof {
                                assert(step(table@, sm) == StatusModel::Running(r@));
                            }
                            StepExec::Going(r)
                        },
                        Option::Some(mac) => match mac {
                            Macro::Object(mbody) => {
                                let bodyc = clone_tokens(mbody);
                                let plain = plain_list(bodyc);
                                let marked = mark_hides(plain, &hide, &nm);
                                let ghost base_p = units_view(st.pending@);
                                st.pending.push(ExpandingToken::EndScope(nm.clone()));
                                proof {
                                    assert(units_view(st.pending@) =~= base_p.push(
                                        UnitModel::EndScope(nm@),
                                    ));
                                }
                                push_reversed(&mut st.pending, marked);
                                proof {
                                    match step(table@, sm) {
                                        StatusModel::Running(target) => {
                                            assert(st@.pending =~= target.pending);
                                            assert(st@ =~= target);
                                        },
                                        _ => {
                                            assert(false);
                                        },
                                    }
                                }
                                StepExec::Going(st)
                            },
                            Macro::Function(mparams, variadic, mbody) => {
                                let ghost spec_params = params_view(mparams@);
                                let ghost spec_body = toks_view(mbody@);
                                match find_lparen(&st.pending) {
                                    Option::None => {
                                        let r = do_emit(st, token, hide);
                                        proof {
                                            assert(step(table@, sm) == StatusModel::Running(r@));
                                        }
                                        StepExec::Going(r)
                                    },
                                    Option::Some(lp) => {
                                        match collect_invocation(&st.pending, lp) {
                                            Collected::NoClose => {
                                                proof {
                                                    assert(step(table@, sm) == StatusModel::Failed(
                                                        ErrorModel::UnterminatedInvocation(nm@),
                                                    ));
                                                }
                                                StepExec::Fail(
                                                    ExpandError::UnterminatedInvocation(nm),
                                                )
                                            },
                                            Collected::Hit(raw_split, rest) => {
                                                let ghost split_m = args_view(raw_split@);
                                                let mut args = raw_split;
                                                let nparams = mparams.len();
                                                if args.len() == 1 && nparams == 0 && !*variadic {
                                                    let s0 = strip_nl(&args[0]);
                                                    proof {
                                                        assert(split_m[0] == hts_view(args@[0]@));
                                                    }
                                                    if s0.len() == 0 {
                                                        args = Vec::new();
                                                        proof {
                                                            assert(args_view(args@)
                                                                =~= Seq::<Seq<HidTokenModel>>::empty());
                                                        }
                                                    }
                                                }
                                                let ghost args_m = args_view(args@);
                                                proof {
                                                    assert(args_m == normalize_args(
                                                        split_m,
                                                        spec_params,
                                                        *variadic,
                                                    ));
                                                }
                                                let ok = if *variadic {
                                                    args.len() >= nparams
                                                } else {
                                                    args.len() == nparams
                                                };
                                                if !ok {
                                                    proof {
                                                        assert(step(table@, sm)
                                                            == StatusModel::Failed(
                                                            ErrorModel::ArityMismatch(nm@),
                                                        ));
                                                    }
                                                    return StepExec::Fail(
                                                        ExpandError::ArityMismatch(nm),
                                                    );
                                                }
                                                let mut pe = clone_hides(mparams);
                                                let raws: Vec<Vec<HidToken>> = if *variadic {
                                                    let mut head: Vec<Vec<HidToken>> = Vec::new();
                                                    let mut i: usize = 0;
                                                    while i < nparams
                                                        invariant
                                                            i <= nparams,
                                                            nparams <= args@.len(),
                                                            args_m == args_view(args@),
                                                            head@.len() == i,
                                                            forall|k: int|
                                                                0 <= k < i ==> args_view(head@)[k]
                                                                    == args_m[k],
                                                        decreases nparams - i,
                                                    {
                                                        let c = clone_hidtoks(&args[i]);
                                                        proof {
                                                            lemma_args_push(head@, c);
                                                            assert(args_m[i as int] == hts_view(
                                                                args@[i as int]@,
                                                            ));
                                                        }
                                                        head.push(c);
                                                        i = i + 1;
                                                    }
                                                    let va = join_va(&args, nparams);
                                                    proof {
                                                        lemma_args_push(head@, va);
                                                    }
                                                    head.push(va);
                                                    proof {
                                                        assert(args_view(head@) =~= args_m.take(
                                                            nparams as int,
                                                        ).push(
                                                            join_variadic(
                                                                args_m,
                                                                nparams as int,
                                                                Seq::empty(),
                                                                true,
                                                            ),
                                                        ));
                                                    }
                                                    head
                                                } else {
                                                    args
                                                };
                                                if *variadic {
                                                    pe.push(String::from_str("__VA_ARGS__"));
                                                    proof {
                                                        assert(params_view(pe@)
                                                            =~= spec_params.push(
                                                            variadic_param_name(),
                                                        ));
                                                    }
                                                }
                                                proof {
                                                    assert(params_view(pe@) == effective_params(
                                                        spec_params,
                                                        *variadic,
                                                    ));
                                                    assert(args_view(raws@) == bound_args(
                                                        args_m,
                                                        nparams as int,
                                                        *variadic,
                                                    ));
                                                }
                                                let needed = compute_needed(&pe, mbody);
                                                let bodyc = clone_tokens(mbody);
                                                let frame = Frame {
                                                    name: nm.clone(),
                                                    hide,
                                                    params: pe,
                                                    body: bodyc,
                                                    raw_args: raws,
                                                    needed,
                                                    expanded: Vec::new(),
                                                    current: Vec::new(),
                                                };
                                                let ghost frame_m = frame@;
                                                st.pending.truncate(rest);
                                                proof {
                                                    assert(units_view(st.pending@)
                                                        =~= popped_m.pending.take(rest as int));
                                                }
                                                let ghost base_f = frames_view(st.frames@);
                                                st.frames.push(frame);
                                                proof {
                                                    assert(frames_view(st.frames@) =~= base_f.push(
                                                        frame_m,
                                                    ));
                                                    assert(args_view(frame.expanded@)
                                                        =~= Seq::<Seq<HidTokenModel>>::empty());
                                                    assert(hts_view(frame.current@)
                                                        =~= Seq::<HidTokenModel>::empty());
                                                    match step(table@, sm) {
                                                        StatusModel::Running(_) => {},
                                                        StatusModel::Finished(_) => {},
                                                        StatusModel::Failed(_) => {},
                                                    }
                                                    assert(wf_frame(frame_m));
                                                    assert forall|i: int|
                                                        0 <= i < st@.frames.len() implies wf_frame(
                                                        #[trigger] st@.frames[i],
                                                    ) by {
                                                        if i < st@.frames.len() - 1 {
                                                            assert(st@.frames[i]
                                                                == popped_m.frames[i]);
                                                        }
                                                    }
                                                    assert(st@.frames.len() > 0);
                                                }
                                                let out = frame_step(st);
                                                proof {
                                                    assert(step(table@, sm) == frame_progress(
                                                        StateModel {
                                                            pending: popped_m.pending.take(
                                                                rest as int,
                                                            ),
                                                            frames: popped_m.frames.push(frame_m),
                                                            produced: popped_m.produced,
                                                        },
                                                    ));
                                                }
                                                out
                                            },
                                        }
                                    },
                                }
                            },
                        },
                    }
                },
            }
        },
    }
}


/// How a driven expansion ended.
pub enum Expansion {
    /// The machine came to rest; the fully expanded stream.
    Complete(Vec<PreprocessingToken>),
    /// The machine failed; one of the model's errors.
    Faulted(ExpandError),
    /// The step budget ran out first.
    OutOfBudget,
}

/// Drives the expansion machine on `input` for at most `budget` steps.
/// Whatever comes back is a reachability fact about the model: a complete
/// stream or an error is exactly what some run of at most `budget` steps
/// reaches, and `OutOfBudget` means the machine is still running after
/// exactly `budget` steps.
pub fn expand_with_budget(macros: &Macros, input: &Vec<PreprocessingToken>, budget: u64) -> (r:
    Expansion)
    ensures
        match r {
            Expansion::Complete(out) => exists|n: nat|
                n <= budget && run(macros@, init_state(toks_view(input@)), n)
                    == StatusModel::Finished(toks_view(out@)),
            Expansion::Faulted(e) => error_model(e) matches Option::Some(em) && exists|n: nat|
                n <= budget && run(macros@, init_state(toks_view(input@)), n)
                    == StatusModel::Failed(em),
            Expansion::OutOfBudget => run(
                macros@,
                init_state(toks_view(input@)),
                budget as nat,
            ) is Running,
        },
{
    let ghost s0 = init_state(toks_view(input@));
    let toksc = clone_tokens(input);
    let plain = plain_list(toksc);
    let mut pending: Vec<ExpandingToken> = Vec::new();
    proof {
        assert(units_view(pending@) =~= Seq::<UnitModel>::empty());
    }
    push_reversed(&mut pending, plain);
    let mut mach = Machine { pending, frames: Vec::new(), produced: Vec::new() };
    proof {
        assert(Seq::<UnitModel>::empty() + to_units(plain_units(toks_view(input@))).reverse()
            =~= to_units(plain_units(toks_view(input@))).reverse());
        assert(frames_view(mach.frames@) =~= Seq::<FrameModel>::empty());
        assert(toks_view(mach.produced@) =~= Seq::<TokenModel>::empty());
        assert(mach@ =~= s0);
        assert(wf_frames(mach@));
    }
    let mut used: u64 = 0;
    while used < budget
        invariant
            used <= budget,
            wf_frames(mach@),
            s0 == init_state(toks_view(input@)),
            run(macros@, s0, used as nat) == StatusModel::Running(mach@),
        decreases budget - used,
    {
        let step_r = machine_step(macros, mach);
        match step_r {
            StepExec::Going(s2) => {
                proof {
                    assert(run(macros@, s0, (used + 1) as nat) == StatusModel::Running(s2@));
                }
                mach = s2;
                used = used + 1;
            },
            StepExec::Out(v) => {
                proof {
                    assert(run(macros@, s0, (used + 1) as nat) == StatusModel::Finished(
                        toks_view(v@),
                    ));
                }
                return Expansion::Complete(v);
            },
            StepExec::Fail(e) => {
                proof {
                    assert(run(macros@, s0, (used + 1) as nat) == step(macros@, mach@));
                }
                return Expansion::Faulted(e);
            },
        }
    }
    Expansion::OutOfBudget
}

/// Fully macro-expands a token stream: the result the machine reaches, or
/// its error.  The rescanning loop runs under the largest step budget the
/// driver can count, so `OutOfBudget` is out of any practical reach.
pub fn expand_tokens(macros: &Macros, input: &Vec<PreprocessingToken>) -> (r: Expansion)
    ensures
        match r {
            Expansion::Complete(out) => exists|n: nat|
                run(macros@, init_state(toks_view(input@)), n) == StatusModel::Finished(
                    toks_view(out@),
                ),
            Expansion::Faulted(e) => error_model(e) matches Option::Some(em) && exists|n: nat|
                run(macros@, init_state(toks_view(input@)), n) == StatusModel::Failed(em),
            Expansion::OutOfBudget => run(
                macros@,
                init_state(toks_view(input@)),
                u64::MAX as nat,
            ) is Running,
        },
{
    expand_with_budget(macros, input, u64::MAX)
}

} // verus!
