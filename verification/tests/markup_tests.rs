use qmm_syntax::markup::{FormattedText, TextElement, TextElementKind};

#[test]
pub fn parse_default_text() {
    let text = "lorem ipsum";
    let parsed = FormattedText::parse(text);

    assert_eq!(
        parsed,
        FormattedText {
            elements: vec![TextElement {
                kind: TextElementKind::Text,
                value: text.to_string(),
            }]
        }
    )
}

#[test]
pub fn parse_empty_text() {
    let parsed = FormattedText::parse("");

    assert_eq!(parsed, FormattedText { elements: vec![] })
}

#[test]
pub fn parse_not_enclosed_var() {
    let text = "lorem <ipsum";
    let parsed = FormattedText::parse(text);

    assert_eq!(
        parsed,
        FormattedText {
            elements: vec![TextElement {
                kind: TextElementKind::Text,
                value: text.to_string(),
            }]
        }
    )
}

#[test]
pub fn parse_invalid_var() {
    let text = "lorem <ipsum>";
    let parsed = FormattedText::parse(text);

    assert_eq!(
        parsed,
        FormattedText {
            elements: vec![TextElement {
                value: text.to_string(),
                kind: TextElementKind::Text,
            }]
        }
    )
}

#[test]
pub fn parse_parameter_placeholder() {
    let text = "lorem <>";
    let parsed = FormattedText::parse(text);

    assert_eq!(
        parsed,
        FormattedText {
            elements: vec![
                TextElement {
                    value: "lorem ".to_string(),
                    kind: TextElementKind::Text,
                },
                TextElement {
                    value: "<>".to_string(),
                    kind: TextElementKind::CurrentParameter
                }
            ]
        }
    )
}

#[test]
pub fn parse_var() {
    assert_eq!(
        FormattedText::parse("<ToStar> <Ranger>"),
        FormattedText {
            elements: vec![
                TextElement {
                    value: "<ToStar>".to_string(),
                    kind: TextElementKind::Variable {
                        name: "ToStar".to_string()
                    }
                },
                TextElement {
                    value: " ".to_string(),
                    kind: TextElementKind::Text
                },
                TextElement {
                    value: "<Ranger>".to_string(),
                    kind: TextElementKind::Variable {
                        name: "Ranger".to_string()
                    }
                }
            ]
        }
    );
}

#[test]
pub fn parse_var2() {
    assert_eq!(
        FormattedText::parse("lorem <ToStar> ipsum"),
        FormattedText {
            elements: vec![
                TextElement {
                    value: "lorem ".to_string(),
                    kind: TextElementKind::Text,
                },
                TextElement {
                    value: "<ToStar>".to_string(),
                    kind: TextElementKind::Variable {
                        name: "ToStar".to_string()
                    },
                },
                TextElement {
                    value: " ipsum".to_string(),
                    kind: TextElementKind::Text,
                }
            ]
        }
    );
}

#[test]
pub fn parse_empty_formula() {
    assert_eq!(
        FormattedText::parse("{} lorem ipsum"),
        FormattedText {
            elements: vec![
                TextElement {
                    value: "{}".to_string(),
                    kind: TextElementKind::Formula {
                        text: "".to_string()
                    }
                },
                TextElement {
                    value: " lorem ipsum".to_string(),
                    kind: TextElementKind::Text
                }
            ]
        }
    );

    assert_eq!(
        FormattedText::parse("lorem {} ipsum"),
        FormattedText {
            elements: vec![
                TextElement {
                    value: "lorem ".to_string(),
                    kind: TextElementKind::Text,
                },
                TextElement {
                    value: "{}".to_string(),
                    kind: TextElementKind::Formula {
                        text: "".to_string()
                    },
                },
                TextElement {
                    value: " ipsum".to_string(),
                    kind: TextElementKind::Text,
                }
            ]
        }
    );
}

#[test]
pub fn parse_formula() {
    assert_eq!(
        FormattedText::parse("lorem {[p1] mod x} ipsum"),
        FormattedText {
            elements: vec![
                TextElement {
                    value: "lorem ".to_string(),
                    kind: TextElementKind::Text,
                },
                TextElement {
                    value: "{[p1] mod x}".to_string(),
                    kind: TextElementKind::Formula {
                        text: "[p1] mod x".to_string()
                    },
                },
                TextElement {
                    value: " ipsum".to_string(),
                    kind: TextElementKind::Text,
                }
            ]
        }
    )
}

#[test]
pub fn parse_new_lines() {
    assert_eq!(
        FormattedText::parse("lorem\nipsum"),
        FormattedText {
            elements: vec![
                TextElement {
                    kind: TextElementKind::Text,
                    value: "lorem".to_string()
                },
                TextElement {
                    kind: TextElementKind::NewLine,
                    value: "\n".to_string()
                },
                TextElement {
                    kind: TextElementKind::Text,
                    value: "ipsum".to_string()
                }
            ]
        }
    )
}

#[test]
pub fn parse_text_selection() {
    assert_eq!(
        FormattedText::parse("<clr><clrEnd>"),
        FormattedText {
            elements: vec![TextElement {
                kind: TextElementKind::Selection {
                    text: String::new()
                },
                value: "<clr><clrEnd>".to_string()
            }]
        }
    );

    assert_eq!(
        FormattedText::parse("<clr>lorem<clrEnd>"),
        FormattedText {
            elements: vec![TextElement {
                kind: TextElementKind::Selection {
                    text: "lorem".to_string()
                },
                value: "<clr>lorem<clrEnd>".to_string()
            }]
        }
    )
}

#[test]
pub fn parse_invalid_text_selection() {
    assert_eq!(
        FormattedText::parse("<clr>"),
        FormattedText {
            elements: vec![TextElement {
                kind: TextElementKind::Text,
                value: "<clr>".to_string()
            }]
        }
    );

    assert_eq!(
        FormattedText::parse("<clr><clr>"),
        FormattedText {
            elements: vec![TextElement {
                kind: TextElementKind::Text,
                value: "<clr><clr>".to_string()
            }]
        }
    );

    assert_eq!(
        FormattedText::parse("<clr><endClr>"),
        FormattedText {
            elements: vec![TextElement {
                kind: TextElementKind::Text,
                value: "<clr><endClr>".to_string()
            }]
        }
    )
}

#[test]
pub fn formatted_text_parse_parameter() {
    assert_eq!(
        FormattedText::parse("[p0],[p11]"),
        FormattedText {
            elements: vec![
                TextElement {
                    kind: TextElementKind::Parameter { index: 0 },
                    value: "[p0]".to_string()
                },
                TextElement {
                    kind: TextElementKind::Text,
                    value: ",".to_string()
                },
                TextElement {
                    kind: TextElementKind::Parameter { index: 11 },
                    value: "[p11]".to_string()
                }
            ]
        }
    )
}

#[test]
pub fn parse_invalid_parameter() {
    assert_eq!(
        FormattedText::parse("[p] [p ] [] [pp] [p-]",),
        FormattedText {
            elements: vec![TextElement {
                kind: TextElementKind::Text,
                value: "[p] [p ] [] [pp] [p-]".to_string()
            }]
        }
    )
}

#[test]
pub fn markup_total_coverage_examples() {
    for text in [
        "plain",
        "a<b{c[d\re",
        "<ToStar>{f}[p1]\r\n<clr>x<clrEnd><>",
        "broken {unclosed and <clr> unfinished",
        "\r\r\n\n",
    ] {
        let parsed = FormattedText::parse(text);
        assert_eq!(parsed.text(), text);
    }
}

#[test]
pub fn markup_lone_carriage_return_is_text() {
    assert_eq!(
        FormattedText::parse("a\rb"),
        FormattedText {
            elements: vec![TextElement {
                kind: TextElementKind::Text,
                value: "a\rb".to_string()
            }]
        }
    );
}
