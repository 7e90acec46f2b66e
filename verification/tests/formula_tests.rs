use qmm_syntax::formula::{
    Formula, FormulaError, FormulaErrorKind, FormulaToken, FormulaTokenKind, RangeItem,
    ToRangeValue,
};

#[test]
pub fn parse_open_parenthesis() {
    assert_eq!(
        Formula::parse("(").unwrap(),
        Formula {
            tokens: vec![FormulaToken {
                kind: FormulaTokenKind::OpenParenthesis,
                value: "(".to_string()
            }]
        }
    )
}

#[test]
pub fn parse_close_parenthesis() {
    assert_eq!(
        Formula::parse(")").unwrap(),
        Formula {
            tokens: vec![FormulaToken {
                kind: FormulaTokenKind::CloseParenthesis,
                value: ")".to_string()
            }]
        }
    )
}

#[test]
pub fn parse_substract() {
    assert_eq!(
        Formula::parse("-").unwrap(),
        Formula {
            tokens: vec![FormulaToken {
                kind: FormulaTokenKind::Substract,
                value: "-".to_string()
            }]
        }
    )
}

#[test]
pub fn parse_add() {
    assert_eq!(
        Formula::parse("+").unwrap(),
        Formula {
            tokens: vec![FormulaToken {
                kind: FormulaTokenKind::Add,
                value: "+".to_string()
            }]
        }
    )
}

#[test]
pub fn parse_multiply() {
    assert_eq!(
        Formula::parse("*").unwrap(),
        Formula {
            tokens: vec![FormulaToken {
                kind: FormulaTokenKind::Multiply,
                value: "*".to_string()
            }]
        }
    )
}

#[test]
pub fn parse_divide() {
    assert_eq!(
        Formula::parse("/").unwrap(),
        Formula {
            tokens: vec![FormulaToken {
                kind: FormulaTokenKind::Divide,
                value: "/".to_string()
            }]
        }
    )
}

#[test]
pub fn parse_divide_with_remain() {
    assert_eq!(
        Formula::parse("div").unwrap(),
        Formula {
            tokens: vec![FormulaToken {
                kind: FormulaTokenKind::DivideWithRemain,
                value: "div".to_string()
            }]
        }
    )
}

#[test]
pub fn parse_modulo() {
    assert_eq!(
        Formula::parse("mod").unwrap(),
        Formula {
            tokens: vec![FormulaToken {
                kind: FormulaTokenKind::Modulo,
                value: "mod".to_string()
            }]
        }
    )
}

#[test]
pub fn parse_in() {
    assert_eq!(
        Formula::parse("in").unwrap(),
        Formula {
            tokens: vec![FormulaToken {
                kind: FormulaTokenKind::In,
                value: "in".to_string()
            }]
        }
    )
}

#[test]
pub fn parse_and() {
    assert_eq!(
        Formula::parse("and").unwrap(),
        Formula {
            tokens: vec![FormulaToken {
                kind: FormulaTokenKind::And,
                value: "and".to_string()
            }]
        }
    )
}

#[test]
pub fn parse_or() {
    assert_eq!(
        Formula::parse("or").unwrap(),
        Formula {
            tokens: vec![FormulaToken {
                kind: FormulaTokenKind::Or,
                value: "or".to_string()
            }]
        }
    )
}

#[test]
pub fn parse_greater() {
    assert_eq!(
        Formula::parse(">").unwrap(),
        Formula {
            tokens: vec![FormulaToken {
                kind: FormulaTokenKind::Greater,
                value: ">".to_string()
            }]
        }
    )
}

#[test]
pub fn parse_greater_or_equal() {
    assert_eq!(
        Formula::parse(">=").unwrap(),
        Formula {
            tokens: vec![FormulaToken {
                kind: FormulaTokenKind::GreaterOrEqual,
                value: ">=".to_string()
            }]
        }
    )
}

#[test]
pub fn parse_lesser() {
    assert_eq!(
        Formula::parse("<").unwrap(),
        Formula {
            tokens: vec![FormulaToken {
                kind: FormulaTokenKind::Lesser,
                value: "<".to_string()
            }]
        }
    )
}

#[test]
pub fn parse_lesser_or_equal() {
    assert_eq!(
        Formula::parse("<=").unwrap(),
        Formula {
            tokens: vec![FormulaToken {
                kind: FormulaTokenKind::LesserOrEqual,
                value: "<=".to_string()
            }]
        }
    )
}

#[test]
pub fn parse_equal() {
    assert_eq!(
        Formula::parse("==").unwrap(),
        Formula {
            tokens: vec![FormulaToken {
                kind: FormulaTokenKind::Equal,
                value: "==".to_string()
            }]
        }
    )
}

#[test]
pub fn parse_not_equal() {
    assert_eq!(
        Formula::parse("<>").unwrap(),
        Formula {
            tokens: vec![FormulaToken {
                kind: FormulaTokenKind::NotEqual,
                value: "<>".to_string()
            }]
        }
    )
}

#[test]
pub fn parse_assignment() {
    assert_eq!(
        Formula::parse("=").unwrap(),
        Formula {
            tokens: vec![FormulaToken {
                kind: FormulaTokenKind::Assignment,
                value: "=".to_string()
            }]
        }
    )
}

#[test]
pub fn parse_int() {
    assert_eq!(
        Formula::parse("12345").unwrap(),
        Formula {
            tokens: vec![FormulaToken {
                kind: FormulaTokenKind::Integer { value: 12345 },
                value: "12345".to_string()
            }]
        }
    );

    assert_eq!(
        Formula::parse("-12345").unwrap(),
        Formula {
            tokens: vec![FormulaToken {
                kind: FormulaTokenKind::Integer { value: -12345 },
                value: "-12345".to_string()
            }]
        }
    )
}

#[test]
pub fn parse_double() {
    assert_eq!(
        Formula::parse("1.23456").unwrap(),
        Formula {
            tokens: vec![FormulaToken {
                kind: FormulaTokenKind::Double,
                value: "1.23456".to_string()
            }]
        }
    )
}

#[test]
pub fn formula_parse_parameter() {
    assert_eq!(
        Formula::parse("[p123]").unwrap(),
        Formula {
            tokens: vec![FormulaToken {
                kind: FormulaTokenKind::Parameter { value: 123 },
                value: "[p123]".to_string()
            }]
        }
    );

    assert_eq!(
        Formula::parse("[p123] [p321]").unwrap(),
        Formula {
            tokens: vec![
                FormulaToken {
                    kind: FormulaTokenKind::Parameter { value: 123 },
                    value: "[p123]".to_string()
                },
                FormulaToken {
                    kind: FormulaTokenKind::Parameter { value: 321 },
                    value: "[p321]".to_string()
                }
            ]
        }
    )
}

#[test]
pub fn parse_range() {
    assert_eq!(
        Formula::parse("[0..1]").unwrap(),
        Formula {
            tokens: vec![FormulaToken {
                kind: FormulaTokenKind::Range {
                    value: vec![RangeItem { start: 0, end: 1 }]
                },
                value: "[0..1]".to_string()
            }]
        }
    );

    assert_eq!(
        Formula::parse("[0..1;2;3..4]").unwrap(),
        Formula {
            tokens: vec![FormulaToken {
                kind: FormulaTokenKind::Range {
                    value: vec![
                        RangeItem { start: 0, end: 1 },
                        RangeItem { start: 2, end: 2 },
                        RangeItem { start: 3, end: 4 }
                    ]
                },
                value: "[0..1;2;3..4]".to_string()
            }]
        }
    )
}

#[test]
pub fn parse_to_range() {
    assert_eq!(
        Formula::parse("0 to 1").unwrap(),
        Formula {
            tokens: vec![FormulaToken {
                kind: FormulaTokenKind::ToRange {
                    start: ToRangeValue::Integer { value: 0 },
                    end: ToRangeValue::Integer { value: 1 }
                },
                value: "0 to 1".to_string()
            }]
        }
    );

    assert_eq!(
        Formula::parse("[p0] to [p1]").unwrap(),
        Formula {
            tokens: vec![FormulaToken {
                kind: FormulaTokenKind::ToRange {
                    start: ToRangeValue::Parameter { index: 0 },
                    end: ToRangeValue::Parameter { index: 1 }
                },
                value: "[p0] to [p1]".to_string()
            }]
        }
    );

    assert_eq!(
        Formula::parse("[p0] to 1 * 2 to [p1]").unwrap(),
        Formula {
            tokens: vec![
                FormulaToken {
                    kind: FormulaTokenKind::ToRange {
                        start: ToRangeValue::Parameter { index: 0 },
                        end: ToRangeValue::Integer { value: 1 }
                    },
                    value: "[p0] to 1".to_string()
                },
                FormulaToken {
                    kind: FormulaTokenKind::Multiply,
                    value: "*".to_string()
                },
                FormulaToken {
                    kind: FormulaTokenKind::ToRange {
                        start: ToRangeValue::Integer { value: 2 },
                        end: ToRangeValue::Parameter { index: 1 }
                    },
                    value: "2 to [p1]".to_string()
                }
            ]
        }
    )
}

#[test]
pub fn parse_expressions() {
    assert_eq!(
        Formula::parse("(([p8] div 2) mod 2)=0").unwrap(),
        Formula {
            tokens: vec![
                FormulaToken {
                    kind: FormulaTokenKind::OpenParenthesis,
                    value: "(".to_string()
                },
                FormulaToken {
                    kind: FormulaTokenKind::OpenParenthesis,
                    value: "(".to_string()
                },
                FormulaToken {
                    kind: FormulaTokenKind::Parameter { value: 8 },
                    value: "[p8]".to_string()
                },
                FormulaToken {
                    kind: FormulaTokenKind::DivideWithRemain,
                    value: "div".to_string()
                },
                FormulaToken {
                    kind: FormulaTokenKind::Integer { value: 2 },
                    value: "2".to_string()
                },
                FormulaToken {
                    kind: FormulaTokenKind::CloseParenthesis,
                    value: ")".to_string()
                },
                FormulaToken {
                    kind: FormulaTokenKind::Modulo,
                    value: "mod".to_string()
                },
                FormulaToken {
                    kind: FormulaTokenKind::Integer { value: 2 },
                    value: "2".to_string()
                },
                FormulaToken {
                    kind: FormulaTokenKind::CloseParenthesis,
                    value: ")".to_string()
                },
                FormulaToken {
                    kind: FormulaTokenKind::Assignment,
                    value: "=".to_string()
                },
                FormulaToken {
                    kind: FormulaTokenKind::Integer { value: 0 },
                    value: "0".to_string()
                }
            ]
        }
    );

    assert_eq!(
        Formula::parse("[p1] >= ([p2]+1) * [p15]/[p7]").unwrap(),
        Formula {
            tokens: vec![
                FormulaToken {
                    kind: FormulaTokenKind::Parameter { value: 1 },
                    value: "[p1]".to_string()
                },
                FormulaToken {
                    kind: FormulaTokenKind::GreaterOrEqual,
                    value: ">=".to_string()
                },
                FormulaToken {
                    kind: FormulaTokenKind::OpenParenthesis,
                    value: "(".to_string()
                },
                FormulaToken {
                    kind: FormulaTokenKind::Parameter { value: 2 },
                    value: "[p2]".to_string()
                },
                FormulaToken {
                    kind: FormulaTokenKind::Add,
                    value: "+".to_string()
                },
                FormulaToken {
                    kind: FormulaTokenKind::Integer { value: 1 },
                    value: "1".to_string()
                },
                FormulaToken {
                    kind: FormulaTokenKind::CloseParenthesis,
                    value: ")".to_string()
                },
                FormulaToken {
                    kind: FormulaTokenKind::Multiply,
                    value: "*".to_string()
                },
                FormulaToken {
                    kind: FormulaTokenKind::Parameter { value: 15 },
                    value: "[p15]".to_string()
                },
                FormulaToken {
                    kind: FormulaTokenKind::Divide,
                    value: "/".to_string()
                },
                FormulaToken {
                    kind: FormulaTokenKind::Parameter { value: 7 },
                    value: "[p7]".to_string()
                }
            ]
        }
    );

    assert_eq!(
        Formula::parse("2-([p8] mod 2)").unwrap(),
        Formula {
            tokens: vec![
                FormulaToken {
                    kind: FormulaTokenKind::Integer { value: 2 },
                    value: "2".to_string()
                },
                FormulaToken {
                    kind: FormulaTokenKind::Substract,
                    value: "-".to_string()
                },
                FormulaToken {
                    kind: FormulaTokenKind::OpenParenthesis,
                    value: "(".to_string()
                },
                FormulaToken {
                    kind: FormulaTokenKind::Parameter { value: 8 },
                    value: "[p8]".to_string()
                },
                FormulaToken {
                    kind: FormulaTokenKind::Modulo,
                    value: "mod".to_string()
                },
                FormulaToken {
                    kind: FormulaTokenKind::Integer { value: 2 },
                    value: "2".to_string()
                },
                FormulaToken {
                    kind: FormulaTokenKind::CloseParenthesis,
                    value: ")".to_string()
                }
            ]
        }
    )
}

#[test]
pub fn formula_errors_carry_positions() {
    assert_eq!(
        Formula::parse("x").unwrap_err(),
        FormulaError {
            position: 0,
            kind: FormulaErrorKind::UnexpectedToken {
                found: 'x',
                expected: None
            }
        }
    );
    assert_eq!(
        Formula::parse("1 + dav").unwrap_err(),
        FormulaError {
            position: 4,
            kind: FormulaErrorKind::UnexpectedToken {
                found: 'd',
                expected: Some("div".to_string())
            }
        }
    );
    assert_eq!(
        Formula::parse("1.2.3").unwrap_err(),
        FormulaError {
            position: 3,
            kind: FormulaErrorKind::UnexpectedToken {
                found: '.',
                expected: None
            }
        }
    );
    assert_eq!(
        Formula::parse("[]").unwrap_err(),
        FormulaError {
            position: 1,
            kind: FormulaErrorKind::ExpectedInteger
        }
    );
    assert_eq!(
        Formula::parse("[px]").unwrap_err(),
        FormulaError {
            position: 2,
            kind: FormulaErrorKind::ExpectedInteger
        }
    );
    assert_eq!(
        Formula::parse("1 to ").unwrap_err(),
        FormulaError {
            position: 5,
            kind: FormulaErrorKind::UnexpectedEOF
        }
    );
    assert_eq!(
        Formula::parse("[p1").unwrap_err(),
        FormulaError {
            position: 3,
            kind: FormulaErrorKind::UnexpectedEOF
        }
    );
    assert_eq!(
        Formula::parse("[1..2;3..]").unwrap_err(),
        FormulaError {
            position: 9,
            kind: FormulaErrorKind::ExpectedInteger
        }
    );
}

#[test]
pub fn formula_minus_binds_to_literal() {
    assert_eq!(
        Formula::parse("2-1").unwrap(),
        Formula {
            tokens: vec![
                FormulaToken {
                    kind: FormulaTokenKind::Integer { value: 2 },
                    value: "2".to_string()
                },
                FormulaToken {
                    kind: FormulaTokenKind::Integer { value: -1 },
                    value: "-1".to_string()
                },
            ]
        }
    );
}

#[test]
pub fn formula_integer_bounds() {
    assert_eq!(
        Formula::parse("2147483647").unwrap().tokens[0].kind,
        FormulaTokenKind::Integer { value: 2147483647 }
    );
    assert_eq!(
        Formula::parse("-2147483648").unwrap().tokens[0].kind,
        FormulaTokenKind::Integer {
            value: -2147483648
        }
    );
    // One past the top of the range is no integer literal; the whole
    // bracketless number then fails the scan.
    assert!(Formula::parse("2147483648").is_err());
}
