use zanop::apps::calculator::{eval, evaluate, respond, CalcReply, Evaluation};

#[test]
fn evaluates_left_to_right_without_precedence() {
    assert_eq!(eval("2 + 3 * 4"), Some(20));
    assert_eq!(eval("12 + 4"), Some(16));
    assert_eq!(eval("10 - 2 - 3"), Some(5));
}

#[test]
fn division_truncates_toward_zero() {
    assert_eq!(eval("7 / 2"), Some(3));
    assert_eq!(eval("7 / -2"), Some(-3));
    assert_eq!(eval("-7 / 2"), Some(-3));
    assert_eq!(eval("10 / 0"), None);
}

#[test]
fn refuses_what_it_cannot_read() {
    assert_eq!(eval(""), None);
    assert_eq!(eval("abc"), None);
    assert_eq!(eval("1 % 2"), None);
    assert_eq!(eval("1 + x"), None);
    assert_eq!(eval("1 +2"), Some(1));
}

#[test]
fn trailing_operator_is_ignored() {
    assert_eq!(eval("5 +"), Some(5));
    assert_eq!(eval("-5"), Some(-5));
}

#[test]
fn overflow_is_reported() {
    assert_eq!(evaluate("9223372036854775807 + 1"), Evaluation::Overflow);
    assert_eq!(evaluate("-9223372036854775808 / -1"), Evaluation::Overflow);
    assert_eq!(evaluate("4611686018427387904 * 2"), Evaluation::Overflow);
    assert_eq!(evaluate("4611686018427387904 * -2"), Evaluation::Value(i64::MIN));
}

#[test]
fn calculator_replies() {
    assert_eq!(respond(" exit "), CalcReply::Close("Closing Calculator.".to_string()));
    assert_eq!(respond("quit"), CalcReply::Close("Closing Calculator.".to_string()));
    assert_eq!(respond(" 1 + 1 "), CalcReply::Show("= 2".to_string()));
    assert_eq!(respond("-3 - 4"), CalcReply::Show("= -7".to_string()));
    assert_eq!(respond("nope"), CalcReply::Show("Couldn't parse that. Try: 12 + 4".to_string()));
    assert_eq!(respond("9223372036854775807 + 1"), CalcReply::Overflow);
}
