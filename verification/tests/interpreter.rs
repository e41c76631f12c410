use polish::ErrorKind;
use polish::NumExpr;
use polish::VMState;
use polish::VMValue;
use polish::VmError;

/// Folds a symbolic number into a machine double, in the recorded
/// left-to-right order.
fn num_of(n: &NumExpr) -> f64 {
    match n {
        NumExpr::Lit(s) => s.parse::<f64>().unwrap(),
        NumExpr::Add(l, r) => num_of(l) + num_of(r),
        NumExpr::Sub(l, r) => num_of(l) - num_of(r),
        NumExpr::Mul(l, r) => num_of(l) * num_of(r),
        NumExpr::Div(l, r) => num_of(l) / num_of(r),
    }
}

fn eval_number(src: &str) -> f64 {
    let mut vm = VMState::new();
    match vm.eval(src) {
        Ok(VMValue::Number(n)) => num_of(&n),
        other => panic!("expected a number from {:?}, got {:?}", src, other),
    }
}

fn eval_value(src: &str) -> VMValue {
    let mut vm = VMState::new();
    vm.eval(src).unwrap()
}

fn eval_err(src: &str) -> VmError {
    let mut vm = VMState::new();
    match vm.eval(src) {
        Err(e) => e,
        Ok(v) => panic!("expected an error from {:?}, got {:?}", src, v),
    }
}

fn num(text: &str) -> VMValue {
    VMValue::Number(NumExpr::Lit(text.to_string()))
}

#[test]
fn grouped_addition() {
    assert_eq!(eval_number("(+ 2 11)"), 13.0);
}

#[test]
fn nested_grouping_then_subtraction() {
    assert_eq!(eval_number("- (+ 2 11) 1.5"), 11.5);
}

#[test]
fn operators_fold_left() {
    assert_eq!(eval_number("+ 1 2 3"), 6.0);
    assert_eq!(eval_number("- 10 1 2"), 7.0);
    assert_eq!(eval_number("* 2 3 4"), 24.0);
    assert_eq!(eval_number("/ 12 2 3"), 2.0);
}

#[test]
fn single_operand_is_itself() {
    assert_eq!(eval_number("+ 4"), 4.0);
    assert_eq!(eval_number("- 4"), 4.0);
}

#[test]
fn division_by_zero_follows_the_host_double() {
    assert!(eval_number("/ 1 0").is_infinite());
}

#[test]
fn fractional_numerals() {
    assert_eq!(eval_number("+ 12.5 0.5"), 13.0);
    assert_eq!(eval_number("12."), 12.0);
}

#[test]
fn string_auto_concatenation_at_statement_boundary() {
    assert_eq!(eval_value("\"a\" \"b\""), VMValue::Str("ab".to_string()));
}

#[test]
fn string_addition_concatenates() {
    assert_eq!(eval_value("+ \"ab\" \"cd\""), VMValue::Str("abcd".to_string()));
}

#[test]
fn assignment_returns_the_assigned_value() {
    let mut vm = VMState::new();
    assert_eq!(vm.eval("= x 5").unwrap(), num("5"));
    assert_eq!(vm.get("x"), num("5"));
}

#[test]
fn assignment_result_feeds_later_statements() {
    assert_eq!(eval_number("= x 5 + x 1"), 6.0);
}

#[test]
fn reassignment_overwrites() {
    let mut vm = VMState::new();
    vm.eval("= x 1").unwrap();
    vm.eval("= x 2").unwrap();
    assert_eq!(vm.get("x"), num("2"));
}

#[test]
fn lookup_miss_yields_nil() {
    let vm = VMState::new();
    assert_eq!(vm.get("unset_name"), VMValue::Nil);
}

#[test]
fn reserved_literals() {
    assert_eq!(eval_value("nil"), VMValue::Nil);
    assert_eq!(eval_value("true"), VMValue::Bool(true));
    assert_eq!(eval_value("false"), VMValue::Bool(false));
}

#[test]
fn unterminated_string_is_fatal() {
    let e = eval_err("\"unterminated");
    assert_eq!(e.kind, ErrorKind::UnterminatedString);
    assert_eq!((e.row, e.col), (1, 1));
}

#[test]
fn leading_close_paren_is_fatal() {
    let e = eval_err(")");
    assert_eq!(e.kind, ErrorKind::UnmatchedCloseParen);
}

#[test]
fn operator_without_operand_is_fatal() {
    let e = eval_err("+");
    assert_eq!(e.kind, ErrorKind::ExpectedExpression);
}

#[test]
fn assignment_without_target_is_fatal() {
    assert_eq!(eval_err("=").kind, ErrorKind::ExpectedIdentifier);
    assert_eq!(eval_err("= 5 3").kind, ErrorKind::ExpectedIdentifier);
    assert_eq!(eval_err("= x").kind, ErrorKind::ExpectedExpression);
}

#[test]
fn unknown_escape_is_fatal() {
    assert_eq!(eval_err("\"a\\qb\"").kind, ErrorKind::UnknownEscape('q'));
}

#[test]
fn unexpected_character_is_fatal_with_position() {
    let e = eval_err("\n @");
    assert_eq!(e.kind, ErrorKind::UnexpectedChar('@'));
    assert_eq!((e.row, e.col), (2, 2));
}

#[test]
fn evaluation_errors_point_at_the_active_token() {
    let e = eval_err("+ 1 true");
    assert_eq!(e.kind, ErrorKind::AddNumberMismatch);
    assert_eq!((e.row, e.col), (1, 5));
}

#[test]
fn type_mismatches_are_fatal() {
    assert_eq!(eval_err("+ \"a\" 1").kind, ErrorKind::AddStringMismatch);
    assert_eq!(eval_err("+ 1 \"a\"").kind, ErrorKind::AddNumberMismatch);
    assert_eq!(eval_err("+ true true").kind, ErrorKind::CannotAdd);
    assert_eq!(eval_err("- 1 \"a\"").kind, ErrorKind::SubNumberMismatch);
    assert_eq!(eval_err("- \"a\" \"b\"").kind, ErrorKind::CannotSub);
    assert_eq!(eval_err("* 1 nil").kind, ErrorKind::MulNumberMismatch);
    assert_eq!(eval_err("* nil 1").kind, ErrorKind::CannotMul);
    assert_eq!(eval_err("/ 1 nil").kind, ErrorKind::DivNumberMismatch);
    assert_eq!(eval_err("/ nil 1").kind, ErrorKind::CannotDiv);
}

#[test]
fn comments_run_to_end_of_line() {
    assert_eq!(eval_number("; a note\n7"), 7.0);
}

#[test]
fn empty_group_is_nil() {
    assert_eq!(eval_value("()"), VMValue::Nil);
}

#[test]
fn group_keeps_only_its_first_expression() {
    assert_eq!(eval_value("(1 2)"), num("1"));
}

#[test]
fn statements_keep_the_last_value() {
    assert_eq!(eval_value("1 ;\n2"), num("2"));
    assert_eq!(eval_value("true 5"), num("5"));
    assert_eq!(eval_value("\"a\" 5"), num("5"));
}

#[test]
fn separator_comments_out_the_rest_of_the_line() {
    assert_eq!(eval_value("1 ; 2"), num("1"));
}

#[test]
fn trailing_separator_ends_input() {
    assert_eq!(eval_value("5 ;"), num("5"));
}

#[test]
fn close_paren_inside_a_fold_is_fatal() {
    assert_eq!(eval_err("+ 1 ) 2").kind, ErrorKind::UnmatchedCloseParen);
}

#[test]
fn nested_groups_fold_through() {
    assert_eq!(eval_number("(+ 1 (+ 2 3) 4)"), 10.0);
    assert_eq!(eval_number("((5))"), 5.0);
}

#[test]
fn empty_statement_in_a_group_ends_the_input() {
    assert_eq!(eval_value("( ; )"), VMValue::Nil);
    assert_eq!(eval_value("( ; ) 5"), VMValue::Nil);
}

#[test]
fn empty_input_is_nil() {
    assert_eq!(eval_value(""), VMValue::Nil);
}

#[test]
fn string_escapes_decode() {
    assert_eq!(
        eval_value("\"a\\tb\\nc\\\\d\\r\\0\""),
        VMValue::Str("a\tb\nc\\d\r\0".to_string())
    );
}

#[test]
fn tokens_carry_their_positions() {
    let mut vm = VMState::new();
    let toks = polish::tokenize("+ 12 x", &mut vm).unwrap();
    let positions: Vec<(usize, usize)> = toks.iter().map(|t| (t.row, t.col)).collect();
    assert_eq!(positions, vec![(1, 1), (1, 3), (1, 6)]);
}

#[test]
fn print_echoes_and_logs_its_argument() {
    let mut vm = VMState::new();
    assert_eq!(vm.eval("print 5").unwrap(), num("5"));
    assert_eq!(vm.printed_entries(), &vec![vec![num("5")]]);
}

#[test]
fn exec_streams_each_statement() {
    let mut vm = VMState::new();
    vm.exec("1 ;\n2").unwrap();
    assert_eq!(vm.printed_entries(), &vec![vec![num("1")], vec![num("2")]]);
}

#[test]
fn identifier_characters() {
    assert!(polish::is_identifier_char(&'a'));
    assert!(polish::is_identifier_char(&'Z'));
    assert!(polish::is_identifier_char(&'0'));
    assert!(polish::is_identifier_char(&'_'));
    assert!(!polish::is_identifier_char(&'-'));
    assert!(!polish::is_identifier_char(&' '));
}
