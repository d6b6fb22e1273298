use macro_expander::token::{Atom, PreprocessingToken, Punctuator, Separation};
use macro_expander::table::{Macro, Macros};
use macro_expander::expand::{expand_tokens, expand_with_budget, ExpandError, Expansion};
use macro_expander::source::{MacroExpandingTokenSource, VecTokenSource};

fn ident(s: &str) -> PreprocessingToken {
    PreprocessingToken::Identifier(String::from(s))
}

fn num(s: &str) -> PreprocessingToken {
    PreprocessingToken::PreprocessingNumber(String::from(s))
}

fn lparen() -> PreprocessingToken {
    PreprocessingToken::Punctuator(Punctuator::LeftParen(Separation::Adjacent))
}

fn rparen() -> PreprocessingToken {
    PreprocessingToken::Punctuator(Punctuator::RightParen)
}

fn comma() -> PreprocessingToken {
    PreprocessingToken::Punctuator(Punctuator::ParameterSeparator)
}

fn plus() -> PreprocessingToken {
    PreprocessingToken::Punctuator(Punctuator::Add)
}

fn hash() -> PreprocessingToken {
    PreprocessingToken::Punctuator(Punctuator::PreprocessingDirective)
}

fn concat_op() -> PreprocessingToken {
    PreprocessingToken::Punctuator(Punctuator::PreprocessingConcat)
}

fn semicolon() -> PreprocessingToken {
    PreprocessingToken::Punctuator(Punctuator::StatementEnd)
}

fn expand_ok(macros: &Macros, input: Vec<PreprocessingToken>) -> Vec<PreprocessingToken> {
    match expand_tokens(macros, &input) {
        Expansion::Complete(out) => out,
        Expansion::Faulted(e) => panic!("unexpected expansion error: {:?}", e),
        Expansion::OutOfBudget => panic!("unexpected budget exhaustion"),
    }
}

fn expand_err(macros: &Macros, input: Vec<PreprocessingToken>) -> ExpandError {
    match expand_tokens(macros, &input) {
        Expansion::Complete(out) => panic!("expected an error, got {:?}", out),
        Expansion::Faulted(e) => e,
        Expansion::OutOfBudget => panic!("unexpected budget exhaustion"),
    }
}

#[test]
fn pass_through() {
    let test_tokens = vec![
        ident("A"),
        ident("B"),
        num("1234"),
    ];
    let test_stream = VecTokenSource::new(test_tokens.clone());
    let macros = Macros::new();
    let mut expanding_stream = MacroExpandingTokenSource::new(macros, test_stream);
    let mut expansion_result = Vec::new();
    while let Atom::Datum(token) = expanding_stream.next() {
        expansion_result.push(token);
    }
    assert!(expansion_result == test_tokens);
}

#[test]
fn self_reference_terminates() {
    let mut macros = Macros::new();
    macros.define(String::from("A"), Macro::Object(vec![ident("A")]));
    let out = expand_ok(&macros, vec![ident("A")]);
    assert_eq!(out, vec![ident("A")]);
}

#[test]
fn mutual_recursion_terminates() {
    let mut macros = Macros::new();
    macros.define(String::from("A"), Macro::Object(vec![ident("B")]));
    macros.define(String::from("B"), Macro::Object(vec![ident("A")]));
    let out = expand_ok(&macros, vec![ident("A")]);
    assert_eq!(out, vec![ident("A")]);
}

#[test]
fn object_macro_substitution() {
    let mut macros = Macros::new();
    macros.define(
        String::from("FOO"),
        Macro::Object(vec![num("1"), plus(), num("2")]),
    );
    let out = expand_ok(&macros, vec![ident("FOO")]);
    assert_eq!(out, vec![num("1"), plus(), num("2")]);
}

#[test]
fn object_macro_rescans_replacement() {
    let mut macros = Macros::new();
    macros.define(String::from("A"), Macro::Object(vec![ident("B")]));
    macros.define(String::from("B"), Macro::Object(vec![num("1")]));
    let out = expand_ok(&macros, vec![ident("A")]);
    assert_eq!(out, vec![num("1")]);
}

#[test]
fn macro_name_usable_again_after_expansion() {
    let mut macros = Macros::new();
    macros.define(String::from("A"), Macro::Object(vec![num("7")]));
    let out = expand_ok(&macros, vec![ident("A"), ident("A")]);
    assert_eq!(out, vec![num("7"), num("7")]);
}

fn add_macro() -> Macros {
    let mut macros = Macros::new();
    macros.define(
        String::from("ADD"),
        Macro::Function(
            vec![String::from("a"), String::from("b")],
            false,
            vec![ident("a"), plus(), ident("b")],
        ),
    );
    macros
}

#[test]
fn function_macro_substitution() {
    let macros = add_macro();
    let input = vec![ident("ADD"), lparen(), num("1"), comma(), num("2"), rparen()];
    let out = expand_ok(&macros, input);
    assert_eq!(out, vec![num("1"), plus(), num("2")]);
}

#[test]
fn function_macro_arity_mismatch() {
    let macros = add_macro();
    let input = vec![ident("ADD"), lparen(), num("1"), rparen()];
    let err = expand_err(&macros, input);
    assert_eq!(err, ExpandError::ArityMismatch(String::from("ADD")));
}

#[test]
fn function_macro_arguments_expand_first() {
    let mut macros = add_macro();
    macros.define(String::from("ONE"), Macro::Object(vec![num("1")]));
    let input = vec![ident("ADD"), lparen(), ident("ONE"), comma(), num("2"), rparen()];
    let out = expand_ok(&macros, input);
    assert_eq!(out, vec![num("1"), plus(), num("2")]);
}

#[test]
fn invocation_spans_newlines() {
    let macros = add_macro();
    let input = vec![
        ident("ADD"),
        PreprocessingToken::Newline,
        lparen(),
        num("1"),
        comma(),
        PreprocessingToken::Newline,
        num("2"),
        rparen(),
    ];
    let out = expand_ok(&macros, input);
    assert_eq!(out, vec![num("1"), plus(), num("2")]);
}

#[test]
fn nested_parentheses_keep_inner_commas() {
    let macros = add_macro();
    let input = vec![
        ident("ADD"),
        lparen(),
        lparen(),
        num("1"),
        comma(),
        num("2"),
        rparen(),
        comma(),
        num("3"),
        rparen(),
    ];
    let out = expand_ok(&macros, input);
    assert_eq!(
        out,
        vec![lparen(), num("1"), comma(), num("2"), rparen(), plus(), num("3")]
    );
}

#[test]
fn stringize_renders_argument() {
    let mut macros = Macros::new();
    macros.define(
        String::from("STR"),
        Macro::Function(
            vec![String::from("x")],
            false,
            vec![hash(), ident("x")],
        ),
    );
    let input = vec![ident("STR"), lparen(), ident("a"), plus(), ident("b"), rparen()];
    let out = expand_ok(&macros, input);
    assert_eq!(out, vec![PreprocessingToken::StringLiteral(String::from("a+b"))]);
}

#[test]
fn stringize_normalizes_newlines_to_single_spaces() {
    let mut macros = Macros::new();
    macros.define(
        String::from("STR"),
        Macro::Function(
            vec![String::from("x")],
            false,
            vec![hash(), ident("x")],
        ),
    );
    let input = vec![
        ident("STR"),
        lparen(),
        ident("a"),
        PreprocessingToken::Newline,
        PreprocessingToken::Newline,
        ident("b"),
        rparen(),
    ];
    let out = expand_ok(&macros, input);
    assert_eq!(out, vec![PreprocessingToken::StringLiteral(String::from("a b"))]);
}

#[test]
fn stringize_renders_character_constant() {
    let mut macros = Macros::new();
    macros.define(
        String::from("STR"),
        Macro::Function(
            vec![String::from("x")],
            false,
            vec![hash(), ident("x")],
        ),
    );
    let input = vec![
        ident("STR"),
        lparen(),
        PreprocessingToken::CharacterConstant('q'),
        rparen(),
    ];
    let out = expand_ok(&macros, input);
    assert_eq!(out, vec![PreprocessingToken::StringLiteral(String::from("'q'"))]);
}

fn cat_macro() -> Macros {
    let mut macros = Macros::new();
    macros.define(
        String::from("CAT"),
        Macro::Function(
            vec![String::from("a"), String::from("b")],
            false,
            vec![ident("a"), concat_op(), ident("b")],
        ),
    );
    macros
}

#[test]
fn paste_forms_single_identifier() {
    let macros = cat_macro();
    let input = vec![ident("CAT"), lparen(), ident("fo"), comma(), ident("o"), rparen()];
    let out = expand_ok(&macros, input);
    assert_eq!(out, vec![ident("foo")]);
}

#[test]
fn paste_of_punctuators_forms_punctuator() {
    let macros = cat_macro();
    let input = vec![
        ident("CAT"),
        lparen(),
        PreprocessingToken::Punctuator(Punctuator::LessThan),
        comma(),
        PreprocessingToken::Punctuator(Punctuator::LessThan),
        rparen(),
    ];
    let out = expand_ok(&macros, input);
    assert_eq!(out, vec![PreprocessingToken::Punctuator(Punctuator::ShiftLeft)]);
}

#[test]
fn invalid_paste_is_an_error() {
    let macros = cat_macro();
    let input = vec![ident("CAT"), lparen(), plus(), comma(), semicolon(), rparen()];
    let err = expand_err(&macros, input);
    assert_eq!(err, ExpandError::InvalidPaste);
}

#[test]
fn bare_function_macro_name_is_not_an_invocation() {
    let mut macros = Macros::new();
    macros.define(
        String::from("F"),
        Macro::Function(vec![String::from("x")], false, vec![ident("x")]),
    );
    let out = expand_ok(&macros, vec![ident("F")]);
    assert_eq!(out, vec![ident("F")]);
}

#[test]
fn unterminated_invocation_is_an_error() {
    let mut macros = Macros::new();
    macros.define(
        String::from("F"),
        Macro::Function(vec![String::from("x")], false, vec![ident("x")]),
    );
    let input = vec![ident("F"), lparen(), num("1")];
    let err = expand_err(&macros, input);
    assert_eq!(err, ExpandError::UnterminatedInvocation(String::from("F")));
}

#[test]
fn empty_parentheses_invoke_nullary_macro() {
    let mut macros = Macros::new();
    macros.define(
        String::from("N"),
        Macro::Function(vec![], false, vec![num("42")]),
    );
    let input = vec![ident("N"), lparen(), rparen()];
    let out = expand_ok(&macros, input);
    assert_eq!(out, vec![num("42")]);
}

#[test]
fn variadic_remainder_binds_with_commas() {
    let mut macros = Macros::new();
    macros.define(
        String::from("V"),
        Macro::Function(
            vec![String::from("a")],
            true,
            vec![ident("a"), semicolon(), ident("__VA_ARGS__")],
        ),
    );
    let input = vec![
        ident("V"),
        lparen(),
        num("1"),
        comma(),
        num("2"),
        comma(),
        num("3"),
        rparen(),
    ];
    let out = expand_ok(&macros, input);
    assert_eq!(
        out,
        vec![num("1"), semicolon(), num("2"), comma(), num("3")]
    );
}

#[test]
fn redefinition_shadows_earlier_definition() {
    let mut macros = Macros::new();
    macros.define(String::from("X"), Macro::Object(vec![num("1")]));
    macros.define(String::from("X"), Macro::Object(vec![num("2")]));
    let out = expand_ok(&macros, vec![ident("X")]);
    assert_eq!(out, vec![num("2")]);
}

#[test]
fn expansion_is_idempotent_on_expanded_stream() {
    let mut macros = Macros::new();
    macros.define(
        String::from("FOO"),
        Macro::Object(vec![num("1"), plus(), num("2")]),
    );
    let once = expand_ok(&macros, vec![ident("FOO")]);
    let twice = expand_ok(&macros, once.clone());
    assert_eq!(twice, once);
}

#[test]
fn source_yields_error_once_then_empty() {
    let mut macros = Macros::new();
    macros.define(
        String::from("F"),
        Macro::Function(vec![String::from("x")], false, vec![ident("x")]),
    );
    let stream = VecTokenSource::new(vec![ident("F"), lparen()]);
    let mut expanding = MacroExpandingTokenSource::new(macros, stream);
    match expanding.next() {
        Atom::Error(e) => {
            assert_eq!(e, ExpandError::UnterminatedInvocation(String::from("F")))
        }
        other => panic!("expected an error atom, got {:?}", other),
    }
    assert!(matches!(expanding.next(), Atom::Empty));
    assert!(matches!(expanding.next(), Atom::Empty));
}

#[test]
fn function_macro_self_reference_terminates() {
    let mut macros = Macros::new();
    macros.define(
        String::from("G"),
        Macro::Function(
            vec![String::from("x")],
            false,
            vec![ident("G"), lparen(), ident("x"), rparen()],
        ),
    );
    let input = vec![ident("G"), lparen(), num("1"), rparen()];
    let out = expand_ok(&macros, input);
    assert_eq!(out, vec![ident("G"), lparen(), num("1"), rparen()]);
}

#[test]
fn zero_step_budget_reports_out_of_budget() {
    let macros = Macros::new();
    let input = vec![ident("A")];
    match expand_with_budget(&macros, &input, 0) {
        Expansion::OutOfBudget => {}
        other => panic!("expected budget exhaustion, got {:?}", match other {
            Expansion::Complete(v) => format!("{:?}", v),
            Expansion::Faulted(e) => format!("{:?}", e),
            Expansion::OutOfBudget => unreachable!(),
        }),
    }
}

#[test]
fn small_budget_suffices_for_small_expansion() {
    let mut macros = Macros::new();
    macros.define(
        String::from("FOO"),
        Macro::Object(vec![num("1"), plus(), num("2")]),
    );
    match expand_with_budget(&macros, &vec![ident("FOO")], 16) {
        Expansion::Complete(out) => assert_eq!(out, vec![num("1"), plus(), num("2")]),
        _ => panic!("expected a complete expansion"),
    }
}

#[test]
fn undefined_macro_no_longer_expands() {
    let mut macros = Macros::new();
    macros.define(String::from("X"), Macro::Object(vec![num("1")]));
    macros.undefine(&String::from("X"));
    let out = expand_ok(&macros, vec![ident("X")]);
    assert_eq!(out, vec![ident("X")]);
}

#[test]
fn undefine_removes_shadowed_definitions_too() {
    let mut macros = Macros::new();
    macros.define(String::from("X"), Macro::Object(vec![num("1")]));
    macros.define(String::from("X"), Macro::Object(vec![num("2")]));
    macros.define(String::from("Y"), Macro::Object(vec![num("3")]));
    macros.undefine(&String::from("X"));
    let out = expand_ok(&macros, vec![ident("X"), ident("Y")]);
    assert_eq!(out, vec![ident("X"), num("3")]);
}

#[test]
fn empty_stream_expands_to_empty_stream() {
    let mut macros = Macros::new();
    macros.define(String::from("A"), Macro::Object(vec![num("1")]));
    let out = expand_ok(&macros, vec![]);
    assert_eq!(out, Vec::<PreprocessingToken>::new());
}

#[test]
fn too_many_arguments_is_an_arity_mismatch() {
    let macros = add_macro();
    let input = vec![
        ident("ADD"),
        lparen(),
        num("1"),
        comma(),
        num("2"),
        comma(),
        num("3"),
        rparen(),
    ];
    let err = expand_err(&macros, input);
    assert_eq!(err, ExpandError::ArityMismatch(String::from("ADD")));
}
