//! The mathematical model of macro expansion: a deterministic small-step
//! machine over token streams.
//!
//! One machine step processes the head of a pending queue of expanding
//! units, exactly as the rescanning algorithm prescribes: a non-invocation
//! token is yielded; an object-macro invocation is replaced by its body with
//! the macro's name added to every hide set; a function-macro invocation
//! looks ahead for a left parenthesis, collects its arguments, expands the
//! arguments that are substituted outside `#`/`##`, and substitutes with
//! stringizing and pasting; an end-of-scope marker is a zero-width unit
//! consumed internally.  Every contract of the executable expander is stated
//! as reachability of a terminal status of this machine.
//!
//! The queue is kept as a stack: the *last* element is the next unit to be
//! processed, so pushing a replacement list means appending it reversed.

use vstd::prelude::*;
use crate::token::{TokenModel, Punctuator, HeaderKind};
use crate::token::{is_lparen, is_rparen, is_comma, is_newline, is_stringize_op, is_paste_op};

verus! {

/// The model of a macro: an object macro's replacement list, or a function
/// macro's parameter names, whether it is variadic, and its replacement list.
#[verifier::ext_equal]
pub enum MacroModel {
    Object(Seq<TokenModel>),
    Function(Seq<Seq<char>>, bool, Seq<TokenModel>),
}

/// The model of a macro table.
pub type TableModel = Map<Seq<char>, MacroModel>;

/// A token together with its hide set: the names of the macros whose
/// expansion produced it, which it must never be re-expanded as.
#[verifier::ext_equal]
pub struct HidTokenModel {
    pub token: TokenModel,
    pub hide: Set<Seq<char>>,
}

/// One unit of the pending queue: a token with its hide set, the
/// end-of-scope marker of a completed expansion, or the end of the
/// synthetic sub-stream in which one macro argument is being expanded.
#[verifier::ext_equal]
pub enum UnitModel {
    Token(HidTokenModel),
    EndScope(Seq<char>),
    ArgumentEnd,
}

/// The state of one function-macro invocation whose arguments are being
/// expanded: everything needed to substitute once they are ready.
#[verifier::ext_equal]
pub struct FrameModel {
    /// The invoked macro's name.
    pub name: Seq<char>,
    /// The hide set of the invoking identifier occurrence.
    pub hide: Set<Seq<char>>,
    /// Parameter names; with a variadic parameter appended when variadic.
    pub params: Seq<Seq<char>>,
    /// The replacement list.
    pub body: Seq<TokenModel>,
    /// The collected, unexpanded argument for each parameter.
    pub raw_args: Seq<Seq<HidTokenModel>>,
    /// For each parameter, whether it occurs in the body outside `#`/`##`,
    /// so that its argument must be expanded before substitution.
    pub needed: Seq<bool>,
    /// The expanded arguments produced so far, one per parameter already
    /// dealt with; empty for parameters that needed no expansion.
    pub expanded: Seq<Seq<HidTokenModel>>,
    /// The output collected for the argument currently being expanded.
    pub current: Seq<HidTokenModel>,
}

/// The whole machine state: the pending queue (a stack, last element
/// processed next), the stack of argument-expansion frames, and the tokens
/// already yielded downstream.
#[verifier::ext_equal]
pub struct StateModel {
    pub pending: Seq<UnitModel>,
    pub frames: Seq<FrameModel>,
    pub produced: Seq<TokenModel>,
}

/// Why an expansion failed.
#[verifier::ext_equal]
pub enum ErrorModel {
    /// The stream ended while the named macro's arguments were collected.
    UnterminatedInvocation(Seq<char>),
    /// The named macro was invoked with the wrong number of arguments.
    ArityMismatch(Seq<char>),
    /// `##` concatenated two tokens that form no single valid token.
    InvalidPaste,
}

/// The status of a machine run.
#[verifier::ext_equal]
pub enum StatusModel {
    Running(StateModel),
    Finished(Seq<TokenModel>),
    Failed(ErrorModel),
}

/// Tokens with empty hide sets, as they arrive from upstream.
pub open spec fn plain_units(ts: Seq<TokenModel>) -> Seq<HidTokenModel> {
    ts.map_values(|t: TokenModel| HidTokenModel { token: t, hide: Set::empty() })
}

/// Wraps hidden tokens as pending-queue units.
pub open spec fn to_units(ts: Seq<HidTokenModel>) -> Seq<UnitModel> {
    ts.map_values(|h: HidTokenModel| UnitModel::Token(h))
}

/// Adds a set of names to the hide set of every token.
pub open spec fn add_hides(ts: Seq<HidTokenModel>, extra: Set<Seq<char>>) -> Seq<HidTokenModel> {
    ts.map_values(|h: HidTokenModel| HidTokenModel { token: h.token, hide: h.hide.union(extra) })
}

/// The lexeme of a punctuator.
pub open spec fn punct_lexeme(p: Punctuator) -> Seq<char> {
    match p {
        Punctuator::ArrayIndexBegin => "["@,
        Punctuator::ArrayIndexEnd => "]"@,
        Punctuator::LeftParen(_) => "("@,
        Punctuator::RightParen => ")"@,
        Punctuator::BlockBegin => "{"@,
        Punctuator::BlockEnd => "}"@,
        Punctuator::Member => "."@,
        Punctuator::DerefMember => "->"@,
        Punctuator::Increment => "++"@,
        Punctuator::Decrement => "--"@,
        Punctuator::AddressOf => "&"@,
        Punctuator::Deference => "*"@,
        Punctuator::Add => "+"@,
        Punctuator::Substract => "-"@,
        Punctuator::BitwiseNot => "~"@,
        Punctuator::LogicalNot => "!"@,
        Punctuator::Divide => "/"@,
        Punctuator::Modulus => "%"@,
        Punctuator::ShiftLeft => "<<"@,
        Punctuator::ShiftRight => ">>"@,
        Punctuator::LessThan => "<"@,
        Punctuator::GreaterThan => ">"@,
        Punctuator::LessThanOrEquals => "<="@,
        Punctuator::GreaterThanOrEquals => ">="@,
        Punctuator::Equals => "=="@,
        Punctuator::NotEquals => "!="@,
        Punctuator::BitwiseXor => "^"@,
        Punctuator::BitwiseOr => "|"@,
        Punctuator::LogicalAnd => "&&"@,
        Punctuator::LogicalOr => "||"@,
        Punctuator::TernaryCondition => "?"@,
        Punctuator::TernarySeparator => ":"@,
        Punctuator::StatementEnd => ";"@,
        Punctuator::VariadicParameters => "..."@,
        Punctuator::Assignment => "="@,
        Punctuator::MultiplyAndAssign => "*="@,
        Punctuator::DivideAndAssign => "/="@,
        Punctuator::ModulusAndAssign => "%="@,
        Punctuator::AddAndAssign => "+="@,
        Punctuator::SubstractAndAssign => "-="@,
        Punctuator::ShiftLeftAndAssign => "<<="@,
        Punctuator::ShiftRightAndAssign => ">>="@,
        Punctuator::BitwiseAndAndAssign => "&="@,
        Punctuator::BitwiseXorAndAssign => "^="@,
        Punctuator::BitwiseOrAndAssign => "|="@,
        Punctuator::ParameterSeparator => ","@,
        Punctuator::PreprocessingDirective => "#"@,
        Punctuator::PreprocessingConcat => "##"@,
        Punctuator::ArrayIndexBeginDigraph => "<:"@,
        Punctuator::ArrayIndexEndDigraph => ":>"@,
        Punctuator::BlockBeginDigraph => "<%"@,
        Punctuator::BlockEndDigraph => "%>"@,
        Punctuator::PreprocessingDirectiveDigraph => "%:"@,
        Punctuator::PreprocessingConcatDigraph => "%:%:"@,
    }
}

/// The lexeme of a token, as stringizing re-renders it.
pub open spec fn lexeme(t: TokenModel) -> Seq<char> {
    match t {
        TokenModel::HeaderName(HeaderKind::SystemPath, s) => "<"@ + s + ">"@,
        TokenModel::HeaderName(HeaderKind::UserPath, s) => "\""@ + s + "\""@,
        TokenModel::Identifier(s) => s,
        TokenModel::PreprocessingNumber(s) => s,
        TokenModel::CharacterConstant(c) => seq!['\'', c, '\''],
        TokenModel::StringLiteral(s) => "\""@ + s + "\""@,
        TokenModel::Punctuator(p) => punct_lexeme(p),
        TokenModel::OtherCharacter(c) => seq![c],
        TokenModel::Newline => seq!['\n'],
    }
}

/// Renders a token sequence as the contents of a stringized literal:
/// lexemes in order, each maximal run of newlines between tokens a single
/// space, no leading or trailing whitespace.
pub open spec fn render(
    ts: Seq<TokenModel>,
    i: int,
    acc: Seq<char>,
    started: bool,
    gap: bool,
) -> Seq<char>
    decreases ts.len() - i,
{
    if i < 0 || i >= ts.len() {
        acc
    } else if is_newline(ts[i]) {
        render(ts, i + 1, acc, started, true)
    } else {
        let sep: Seq<char> = if started && gap { " "@ } else { Seq::empty() };
        render(ts, i + 1, acc + sep + lexeme(ts[i]), true, false)
    }
}

/// The text of the string literal that `#` makes of an argument.
pub open spec fn stringize(raw: Seq<HidTokenModel>) -> Seq<char> {
    render(raw.map_values(|h: HidTokenModel| h.token), 0, Seq::empty(), false, false)
}

/// The index of the first parameter with the given name, or -1.
pub open spec fn param_index(params: Seq<Seq<char>>, p: Seq<char>, i: int) -> int
    decreases params.len() - i,
{
    if i < 0 || i >= params.len() {
        -1
    } else if params[i] == p {
        i
    } else {
        param_index(params, p, i + 1)
    }
}

/// An argument with its newline tokens removed: inside an invocation they
/// are ordinary whitespace and do not take part in substitution.
pub open spec fn strip_newlines(ts: Seq<HidTokenModel>, i: int, acc: Seq<HidTokenModel>) -> Seq<
    HidTokenModel,
>
    decreases ts.len() - i,
{
    if i < 0 || i >= ts.len() {
        acc
    } else if is_newline(ts[i].token) {
        strip_newlines(ts, i + 1, acc)
    } else {
        strip_newlines(ts, i + 1, acc.push(ts[i]))
    }
}

/// The trailing arguments of a variadic invocation, joined back with commas.
pub open spec fn join_variadic(
    args: Seq<Seq<HidTokenModel>>,
    i: int,
    acc: Seq<HidTokenModel>,
    first: bool,
) -> Seq<HidTokenModel>
    decreases args.len() - i,
{
    if i < 0 || i >= args.len() {
        acc
    } else if first {
        join_variadic(args, i + 1, args[i], false)
    } else {
        let comma = HidTokenModel {
            token: TokenModel::Punctuator(Punctuator::ParameterSeparator),
            hide: Set::empty(),
        };
        join_variadic(args, i + 1, acc.push(comma) + args[i], false)
    }
}

/// The name the variadic remainder is bound to.
pub open spec fn variadic_param_name() -> Seq<char> {
    "__VA_ARGS__"@
}

/// The single token, if any, that pasting the lexemes of two tokens forms.
/// Identifier and number lexemes are opaque to this core (validating their
/// spelling is the lexer's concern), so pasting them concatenates under the
/// left operand's kind, except that an identifier absorbs what follows it.
/// Punctuators paste only where the concatenated spelling is again a C
/// punctuator.
pub open spec fn paste_one(a: TokenModel, b: TokenModel) -> Option<TokenModel> {
    match (a, b) {
        (TokenModel::Identifier(x), TokenModel::Identifier(y)) => Option::Some(
            TokenModel::Identifier(x + y),
        ),
        (TokenModel::Identifier(x), TokenModel::PreprocessingNumber(y)) => Option::Some(
            TokenModel::Identifier(x + y),
        ),
        (TokenModel::PreprocessingNumber(x), TokenModel::PreprocessingNumber(y)) => Option::Some(
            TokenModel::PreprocessingNumber(x + y),
        ),
        (TokenModel::PreprocessingNumber(x), TokenModel::Identifier(y)) => Option::Some(
            TokenModel::PreprocessingNumber(x + y),
        ),
        (TokenModel::Punctuator(p), TokenModel::Punctuator(q)) => match paste_puncts(p, q) {
            Option::Some(r) => Option::Some(TokenModel::Punctuator(r)),
            Option::None => Option::None,
        },
        _ => Option::None,
    }
}

/// The punctuator pairs whose concatenated lexemes form one C punctuator.
pub open spec fn paste_puncts(p: Punctuator, q: Punctuator) -> Option<Punctuator> {
    match (p, q) {
        (Punctuator::LessThan, Punctuator::LessThan) => Option::Some(Punctuator::ShiftLeft),
        (Punctuator::GreaterThan, Punctuator::GreaterThan) => Option::Some(Punctuator::ShiftRight),
        (Punctuator::LessThan, Punctuator::Assignment) => Option::Some(
            Punctuator::LessThanOrEquals,
        ),
        (Punctuator::GreaterThan, Punctuator::Assignment) => Option::Some(
            Punctuator::GreaterThanOrEquals,
        ),
        (Punctuator::Assignment, Punctuator::Assignment) => Option::Some(Punctuator::Equals),
        (Punctuator::LogicalNot, Punctuator::Assignment) => Option::Some(Punctuator::NotEquals),
        (Punctuator::AddressOf, Punctuator::AddressOf) => Option::Some(Punctuator::LogicalAnd),
        (Punctuator::BitwiseOr, Punctuator::BitwiseOr) => Option::Some(Punctuator::LogicalOr),
        (Punctuator::Add, Punctuator::Add) => Option::Some(Punctuator::Increment),
        (Punctuator::Substract, Punctuator::Substract) => Option::Some(Punctuator::Decrement),
        (Punctuator::Substract, Punctuator::GreaterThan) => Option::Some(Punctuator::DerefMember),
        (Punctuator::ShiftLeft, Punctuator::Assignment) => Option::Some(
            Punctuator::ShiftLeftAndAssign,
        ),
        (Punctuator::ShiftRight, Punctuator::Assignment) => Option::Some(
            Punctuator::ShiftRightAndAssign,
        ),
        (Punctuator::LessThan, Punctuator::LessThanOrEquals) => Option::Some(
            Punctuator::ShiftLeftAndAssign,
        ),
        (Punctuator::GreaterThan, Punctuator::GreaterThanOrEquals) => Option::Some(
            Punctuator::ShiftRightAndAssign,
        ),
        (Punctuator::Deference, Punctuator::Assignment) => Option::Some(
            Punctuator::MultiplyAndAssign,
        ),
        (Punctuator::Divide, Punctuator::Assignment) => Option::Some(Punctuator::DivideAndAssign),
        (Punctuator::Modulus, Punctuator::Assignment) => Option::Some(
            Punctuator::ModulusAndAssign,
        ),
        (Punctuator::Add, Punctuator::Assignment) => Option::Some(Punctuator::AddAndAssign),
        (Punctuator::Substract, Punctuator::Assignment) => Option::Some(
            Punctuator::SubstractAndAssign,
        ),
        (Punctuator::AddressOf, Punctuator::Assignment) => Option::Some(
            Punctuator::BitwiseAndAndAssign,
        ),
        (Punctuator::BitwiseXor, Punctuator::Assignment) => Option::Some(
            Punctuator::BitwiseXorAndAssign,
        ),
        (Punctuator::BitwiseOr, Punctuator::Assignment) => Option::Some(
            Punctuator::BitwiseOrAndAssign,
        ),
        (Punctuator::PreprocessingDirective, Punctuator::PreprocessingDirective) => Option::Some(
            Punctuator::PreprocessingConcat,
        ),
        (Punctuator::LessThan, Punctuator::TernarySeparator) => Option::Some(
            Punctuator::ArrayIndexBeginDigraph,
        ),
        (Punctuator::TernarySeparator, Punctuator::GreaterThan) => Option::Some(
            Punctuator::ArrayIndexEndDigraph,
        ),
        (Punctuator::LessThan, Punctuator::Modulus) => Option::Some(
            Punctuator::BlockBeginDigraph,
        ),
        (Punctuator::Modulus, Punctuator::GreaterThan) => Option::Some(
            Punctuator::BlockEndDigraph,
        ),
        (Punctuator::Modulus, Punctuator::TernarySeparator) => Option::Some(
            Punctuator::PreprocessingDirectiveDigraph,
        ),
        (Punctuator::PreprocessingDirectiveDigraph, Punctuator::PreprocessingDirectiveDigraph) =>
            Option::Some(Punctuator::PreprocessingConcatDigraph),
        _ => Option::None,
    }
}

/// Pastes the last token of `l` with the first of `r`; an empty side leaves
/// the other unchanged.  The pasted token's hide set joins both operands'.
pub open spec fn paste_lists(l: Seq<HidTokenModel>, r: Seq<HidTokenModel>) -> Option<
    Seq<HidTokenModel>,
> {
    if l.len() == 0 {
        Option::Some(r)
    } else if r.len() == 0 {
        Option::Some(l)
    } else {
        match paste_one(l.last().token, r.first().token) {
            Option::Some(t) => Option::Some(
                l.drop_last() + seq![
                    HidTokenModel { token: t, hide: l.last().hide.union(r.first().hide) },
                ] + r.drop_first(),
            ),
            Option::None => Option::None,
        }
    }
}

/// What substitution produced, or that a paste was invalid.
#[verifier::ext_equal]
pub enum SubstOutcome {
    Built(Seq<HidTokenModel>),
    BadPaste,
}

/// What stands for one `##` operand: a parameter's unexpanded argument, or
/// the body token itself.
pub open spec fn paste_operand(
    t: TokenModel,
    params: Seq<Seq<char>>,
    raw_args: Seq<Seq<HidTokenModel>>,
) -> Seq<HidTokenModel> {
    match t {
        TokenModel::Identifier(p) => {
            let k = param_index(params, p, 0);
            if k >= 0 {
                strip_newlines(raw_args[k], 0, Seq::empty())
            } else {
                seq![HidTokenModel { token: t, hide: Set::empty() }]
            }
        },
        _ => seq![HidTokenModel { token: t, hide: Set::empty() }],
    }
}

/// Substitution over a replacement list, left to right: `#` followed by a
/// parameter becomes one stringized literal; `##` pastes what is already
/// built with its right operand (unexpanded for parameters); a parameter
/// not adjacent to `#`/`##` becomes its expanded argument; anything else
/// stands as itself with an empty hide set.
pub open spec fn subst(
    body: Seq<TokenModel>,
    params: Seq<Seq<char>>,
    raw_args: Seq<Seq<HidTokenModel>>,
    exp_args: Seq<Seq<HidTokenModel>>,
    i: int,
    acc: Seq<HidTokenModel>,
) -> SubstOutcome
    decreases body.len() - i,
{
    if i < 0 || i >= body.len() {
        SubstOutcome::Built(acc)
    } else {
        let t = body[i];
        if is_stringize_op(t) && i + 1 < body.len() && stringized_param(body[i + 1], params)
            >= 0 {
            let k = stringized_param(body[i + 1], params);
            let lit = HidTokenModel {
                token: TokenModel::StringLiteral(stringize(raw_args[k])),
                hide: Set::empty(),
            };
            subst(body, params, raw_args, exp_args, i + 2, acc.push(lit))
        } else if is_paste_op(t) && i + 1 < body.len() {
            let rhs = paste_operand(body[i + 1], params, raw_args);
            match paste_lists(acc, rhs) {
                Option::Some(joined) => subst(body, params, raw_args, exp_args, i + 2, joined),
                Option::None => SubstOutcome::BadPaste,
            }
        } else {
            let k = plain_param(t, params);
            if k >= 0 {
                if i + 1 < body.len() && is_paste_op(body[i + 1]) {
                    let raw = strip_newlines(raw_args[k], 0, Seq::empty());
                    subst(body, params, raw_args, exp_args, i + 1, acc + raw)
                } else {
                    subst(body, params, raw_args, exp_args, i + 1, acc + exp_args[k])
                }
            } else {
                let plain = HidTokenModel { token: t, hide: Set::empty() };
                subst(body, params, raw_args, exp_args, i + 1, acc.push(plain))
            }
        }
    }
}

/// The parameter index a token names, or -1.
pub open spec fn plain_param(t: TokenModel, params: Seq<Seq<char>>) -> int {
    match t {
        TokenModel::Identifier(p) => param_index(params, p, 0),
        _ => -1,
    }
}

/// The parameter index of a stringize operand, or -1.
pub open spec fn stringized_param(t: TokenModel, params: Seq<Seq<char>>) -> int {
    plain_param(t, params)
}

/// Whether the body uses the parameter at `i` outside `#`/`##`, so that its
/// argument must be macro-expanded before substitution.
pub open spec fn used_plainly(body: Seq<TokenModel>, p: Seq<char>, i: int) -> bool
    decreases body.len() - i,
{
    if i < 0 || i >= body.len() {
        false
    } else {
        let here = body[i] == TokenModel::Identifier(p) && !(i > 0 && (is_stringize_op(
            body[i - 1],
        ) || is_paste_op(body[i - 1]))) && !(i + 1 < body.len() && is_paste_op(body[i + 1]));
        here || used_plainly(body, p, i + 1)
    }
}

/// For each parameter, whether its argument must be expanded.
pub open spec fn needed_args(params: Seq<Seq<char>>, body: Seq<TokenModel>) -> Seq<bool> {
    Seq::new(params.len(), |i: int| used_plainly(body, params[i], 0))
}

/// Skips over the parameters whose arguments need no expansion, recording
/// an empty expansion for each.
pub open spec fn skip_unneeded(needed: Seq<bool>, exps: Seq<Seq<HidTokenModel>>) -> Seq<
    Seq<HidTokenModel>,
>
    decreases needed.len() - exps.len(),
{
    if exps.len() >= needed.len() {
        exps
    } else if !needed[exps.len() as int] {
        skip_unneeded(needed, exps.push(Seq::empty()))
    } else {
        exps
    }
}

/// Yields a finished token: into the argument being expanded when a frame
/// is open, otherwise downstream.
pub open spec fn emit(st: StateModel, t: TokenModel, h: Set<Seq<char>>) -> StateModel {
    if st.frames.len() > 0 {
        let f = st.frames.last();
        let f2 = FrameModel { current: f.current.push(HidTokenModel { token: t, hide: h }), ..f };
        StateModel { frames: st.frames.drop_last().push(f2), ..st }
    } else {
        StateModel { produced: st.produced.push(t), ..st }
    }
}

/// Moves the top frame forward: pushes the next argument that needs
/// expansion as its own sub-stream, or, when all arguments are ready,
/// substitutes, adds the invoker's hide set and the macro's name to every
/// resulting token, queues the replacement for rescanning, and queues the
/// end-of-scope marker beneath it.
pub open spec fn frame_progress(st: StateModel) -> StatusModel
    recommends
        st.frames.len() > 0,
{
    let f = st.frames.last();
    let exps = skip_unneeded(f.needed, f.expanded);
    if exps.len() < f.needed.len() {
        let k = exps.len() as int;
        let f2 = FrameModel { expanded: exps, current: Seq::empty(), ..f };
        let sub = strip_newlines(f.raw_args[k], 0, Seq::empty());
        StatusModel::Running(
            StateModel {
                pending: st.pending.push(UnitModel::ArgumentEnd) + to_units(sub).reverse(),
                frames: st.frames.drop_last().push(f2),
                produced: st.produced,
            },
        )
    } else {
        match subst(f.body, f.params, f.raw_args, exps, 0, Seq::empty()) {
            SubstOutcome::Built(res) => {
                let marked = add_hides(res, f.hide.insert(f.name));
                StatusModel::Running(
                    StateModel {
                        pending: st.pending.push(UnitModel::EndScope(f.name)) + to_units(
                            marked,
                        ).reverse(),
                        frames: st.frames.drop_last(),
                        produced: st.produced,
                    },
                )
            },
            SubstOutcome::BadPaste => StatusModel::Failed(ErrorModel::InvalidPaste),
        }
    }
}

/// Looks below the invoking identifier for a left parenthesis, past
/// newlines and end-of-scope markers only, never across the end of an
/// argument sub-stream.  The result is the stack index of the parenthesis.
pub open spec fn look_for_lparen(pending: Seq<UnitModel>, j: int) -> Option<int>
    decreases j + 1,
{
    if j < 0 || j >= pending.len() {
        Option::None
    } else {
        match pending[j] {
            UnitModel::EndScope(_) => look_for_lparen(pending, j - 1),
            UnitModel::ArgumentEnd => Option::None,
            UnitModel::Token(h) => if is_newline(h.token) {
                look_for_lparen(pending, j - 1)
            } else if is_lparen(h.token) {
                Option::Some(j)
            } else {
                Option::None
            },
        }
    }
}

/// How argument collection ended.
#[verifier::ext_equal]
pub enum CollectModel {
    /// The stream ended before the matching right parenthesis.
    NoEnd,
    /// The arguments, split on top-level commas, and the length of the
    /// stack that remains below the matching right parenthesis.
    Split(Seq<Seq<HidTokenModel>>, int),
}

/// Collects the tokens between the outer parentheses, splitting on
/// top-level commas; nested parentheses keep their commas; end-of-scope
/// markers are zero-width and vanish; newlines stay (they matter to
/// stringizing).  `j` scans the stack downward from just below the left
/// parenthesis; `depth` counts unmatched left parentheses.
pub open spec fn collect_args(
    pending: Seq<UnitModel>,
    j: int,
    depth: int,
    cur: Seq<HidTokenModel>,
    args: Seq<Seq<HidTokenModel>>,
) -> CollectModel
    decreases j + 1,
{
    if j < 0 || j >= pending.len() {
        CollectModel::NoEnd
    } else {
        match pending[j] {
            UnitModel::EndScope(_) => collect_args(pending, j - 1, depth, cur, args),
            UnitModel::ArgumentEnd => CollectModel::NoEnd,
            UnitModel::Token(h) => if is_lparen(h.token) {
                collect_args(pending, j - 1, depth + 1, cur.push(h), args)
            } else if is_rparen(h.token) {
                if depth == 1 {
                    CollectModel::Split(args.push(cur), j)
                } else {
                    collect_args(pending, j - 1, depth - 1, cur.push(h), args)
                }
            } else if is_comma(h.token) && depth == 1 {
                collect_args(pending, j - 1, 1, Seq::empty(), args.push(cur))
            } else {
                collect_args(pending, j - 1, depth, cur.push(h), args)
            },
        }
    }
}

/// `()` passes no argument to a macro of no parameters; otherwise the split
/// stands as collected.
pub open spec fn normalize_args(
    args: Seq<Seq<HidTokenModel>>,
    params: Seq<Seq<char>>,
    variadic: bool,
) -> Seq<Seq<HidTokenModel>> {
    if args.len() == 1 && strip_newlines(args[0], 0, Seq::empty()).len() == 0 && params.len() == 0
        && !variadic {
        Seq::empty()
    } else {
        args
    }
}

/// The argument count a function-like macro accepts.
pub open spec fn arity_ok(n_args: nat, n_params: nat, variadic: bool) -> bool {
    if variadic {
        n_args >= n_params
    } else {
        n_args == n_params
    }
}

/// The per-parameter unexpanded arguments: the named parameters take the
/// leading arguments, and a variadic macro binds the remainder, re-joined
/// with commas, to the variadic parameter.
pub open spec fn bound_args(
    args: Seq<Seq<HidTokenModel>>,
    n_params: int,
    variadic: bool,
) -> Seq<Seq<HidTokenModel>> {
    if variadic {
        args.take(n_params).push(join_variadic(args, n_params, Seq::empty(), true))
    } else {
        args
    }
}

/// The effective parameter list: with the variadic name appended when the
/// macro is variadic.
pub open spec fn effective_params(params: Seq<Seq<char>>, variadic: bool) -> Seq<Seq<char>> {
    if variadic {
        params.push(variadic_param_name())
    } else {
        params
    }
}

/// One machine step.
pub open spec fn step(table: TableModel, st: StateModel) -> StatusModel {
    if st.pending.len() == 0 {
        StatusModel::Finished(st.produced)
    } else {
        let u = st.pending.last();
        let popped = StateModel { pending: st.pending.drop_last(), ..st };
        match u {
            UnitModel::EndScope(_) => StatusModel::Running(popped),
            UnitModel::ArgumentEnd => if popped.frames.len() == 0
                || popped.frames.last().expanded.len() >= popped.frames.last().needed.len() {
                StatusModel::Running(popped)
            } else {
                let f = popped.frames.last();
                let f2 = FrameModel {
                    expanded: f.expanded.push(f.current),
                    current: Seq::empty(),
                    ..f
                };
                frame_progress(StateModel { frames: popped.frames.drop_last().push(f2), ..popped })
            },
            UnitModel::Token(h) => match h.token {
                TokenModel::Identifier(name) => if h.hide.contains(name) || !table.contains_key(
                    name,
                ) {
                    StatusModel::Running(emit(popped, h.token, h.hide))
                } else {
                    match table[name] {
                        MacroModel::Object(body) => {
                            let marked = add_hides(plain_units(body), h.hide.insert(name));
                            StatusModel::Running(
                                StateModel {
                                    pending: popped.pending.push(UnitModel::EndScope(name))
                                        + to_units(marked).reverse(),
                                    ..popped
                                },
                            )
                        },
                        MacroModel::Function(params, variadic, body) => match look_for_lparen(
                            popped.pending,
                            popped.pending.len() - 1,
                        ) {
                            Option::None => StatusModel::Running(emit(popped, h.token, h.hide)),
                            Option::Some(j) => match collect_args(
                                popped.pending,
                                j - 1,
                                1,
                                Seq::empty(),
                                Seq::empty(),
                            ) {
                                CollectModel::NoEnd => StatusModel::Failed(
                                    ErrorModel::UnterminatedInvocation(name),
                                ),
                                CollectModel::Split(raw_split, rest) => {
                                    let args = normalize_args(raw_split, params, variadic);
                                    if arity_ok(args.len(), params.len(), variadic) {
                                        let pe = effective_params(params, variadic);
                                        let raws = bound_args(args, params.len() as int, variadic);
                                        let frame = FrameModel {
                                            name: name,
                                            hide: h.hide,
                                            params: pe,
                                            body: body,
                                            raw_args: raws,
                                            needed: needed_args(pe, body),
                                            expanded: Seq::empty(),
                                            current: Seq::empty(),
                                        };
                                        frame_progress(
                                            StateModel {
                                                pending: popped.pending.take(rest),
                                                frames: popped.frames.push(frame),
                                                produced: popped.produced,
                                            },
                                        )
                                    } else {
                                        StatusModel::Failed(ErrorModel::ArityMismatch(name))
                                    }
                                },
                            },
                        },
                    }
                },
                _ => StatusModel::Running(emit(popped, h.token, h.hide)),
            },
        }
    }
}

/// What every reachable frame satisfies: one unexpanded argument and one
/// need mark per parameter, and no more expansions than parameters.
pub open spec fn wf_frame(f: FrameModel) -> bool {
    f.raw_args.len() == f.params.len() && f.needed.len() == f.params.len() && f.expanded.len()
        <= f.needed.len()
}

pub open spec fn wf_frames(st: StateModel) -> bool {
    forall|i: int| 0 <= i < st.frames.len() ==> wf_frame(#[trigger] st.frames[i])
}

/// Skipping unneeded arguments never records more expansions than there
/// are parameters.
pub proof fn lemma_skip_unneeded_len(needed: Seq<bool>, exps: Seq<Seq<HidTokenModel>>)
    requires
        exps.len() <= needed.len(),
    ensures
        skip_unneeded(needed, exps).len() <= needed.len(),
    decreases needed.len() - exps.len(),
{
    if exps.len() < needed.len() && !needed[exps.len() as int] {
        lemma_skip_unneeded_len(needed, exps.push(Seq::empty()));
    }
}

/// The machine's start state on an upstream token sequence: every token
/// pending with an empty hide set, the first to arrive on top.
pub open spec fn init_state(input: Seq<TokenModel>) -> StateModel {
    StateModel {
        pending: to_units(plain_units(input)).reverse(),
        frames: Seq::empty(),
        produced: Seq::empty(),
    }
}

/// The status after `n` steps; a terminal status stays as it is.
pub open spec fn run(table: TableModel, st: StateModel, n: nat) -> StatusModel
    decreases n,
{
    if n == 0 {
        StatusModel::Running(st)
    } else {
        match run(table, st, (n - 1) as nat) {
            StatusModel::Running(s) => step(table, s),
            other => other,
        }
    }
}

/// The machine, started on `input` under `table`, reaches exactly the
/// output `out`.
pub open spec fn expands_to(table: TableModel, input: Seq<TokenModel>, out: Seq<TokenModel>) -> bool {
    exists|n: nat| run(table, init_state(input), n) == StatusModel::Finished(out)
}

/// The machine, started on `input` under `table`, fails with `e`.
pub open spec fn fails_with(table: TableModel, input: Seq<TokenModel>, e: ErrorModel) -> bool {
    exists|n: nat| run(table, init_state(input), n) == StatusModel::Failed(e)
}

} // verus!
