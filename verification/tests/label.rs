use typst_core::diag::{Error, SourceError, Span, Spanned};
use typst_core::label::parse_pattern;
use typst_core::model::{Content, Func, Label, ListKind, Value};
use typst_core::numbering::Numbering;
use typst_core::world::{Frame, GridNode, Regions, World};

/// A test environment: callbacks echo the item number as an integer,
/// optionally failing on one chosen number; grids come back as one frame.
struct TestWorld {
    fail_on: Option<usize>,
    calls: Vec<usize>,
    grids: usize,
}

impl TestWorld {
    fn new() -> TestWorld {
        TestWorld { fail_on: None, calls: Vec::new(), grids: 0 }
    }
}

impl World for TestWorld {
    fn call_func(&mut self, _func: Func, span: Span, number: usize) -> Result<Value, SourceError> {
        self.calls.push(number);
        if self.fail_on == Some(number) {
            Err(SourceError {
                span,
                error: Error::Eval { message: "callback raised an error".to_string() },
            })
        } else {
            Ok(Value::Int(number as i64))
        }
    }

    fn layout_grid(&mut self, grid: GridNode, _regions: &Regions) -> Result<Vec<Frame>, SourceError> {
        self.grids += 1;
        Ok(vec![Frame(grid.cells.len() as u64)])
    }
}

#[test]
fn pattern_decimal_with_suffix() {
    match parse_pattern("1.") {
        Ok(Label::Pattern(prefix, kind, upper, suffix)) => {
            assert_eq!(prefix.as_str(), "");
            assert_eq!(kind, Numbering::Arabic);
            assert!(!upper);
            assert_eq!(suffix.as_str(), ".");
        }
        other => panic!("expected a pattern, got {:?}", other),
    }
}

#[test]
fn pattern_parenthesized_letter() {
    match parse_pattern("(a)") {
        Ok(Label::Pattern(prefix, kind, upper, suffix)) => {
            assert_eq!(prefix.as_str(), "(");
            assert_eq!(kind, Numbering::Letter);
            assert!(!upper);
            assert_eq!(suffix.as_str(), ")");
        }
        other => panic!("expected a pattern, got {:?}", other),
    }
}

#[test]
fn pattern_uppercase_roman() {
    match parse_pattern("I.") {
        Ok(Label::Pattern(prefix, kind, upper, suffix)) => {
            assert_eq!(prefix.as_str(), "");
            assert_eq!(kind, Numbering::Roman);
            assert!(upper);
            assert_eq!(suffix.as_str(), ".");
        }
        other => panic!("expected a pattern, got {:?}", other),
    }
}

#[test]
fn pattern_first_kind_character_wins() {
    // 'a' at position 0 matches, so the prefix is empty and the rest is suffix.
    match parse_pattern("abc") {
        Ok(Label::Pattern(prefix, kind, upper, suffix)) => {
            assert_eq!(prefix.as_str(), "");
            assert_eq!(kind, Numbering::Letter);
            assert!(!upper);
            assert_eq!(suffix.as_str(), "bc");
        }
        other => panic!("expected a pattern, got {:?}", other),
    }
}

#[test]
fn pattern_without_kind_character_is_invalid() {
    match parse_pattern("") {
        Err(Error::InvalidPattern { pattern }) => assert_eq!(pattern.as_str(), ""),
        other => panic!("expected InvalidPattern, got {:?}", other),
    }
    match parse_pattern("->") {
        Err(Error::InvalidPattern { pattern }) => assert_eq!(pattern.as_str(), "->"),
        other => panic!("expected InvalidPattern, got {:?}", other),
    }
}

#[test]
fn is_accepts_content_and_functions_unconverted() {
    let span = Span(1);
    assert!(Label::is(&Spanned { v: Value::Content(Content::Empty), span }));
    assert!(Label::is(&Spanned { v: Value::Func(Func(2)), span }));
    assert!(!Label::is(&Spanned { v: Value::Str("1.".to_string()), span }));
    assert!(!Label::is(&Spanned { v: Value::NoneVal, span }));
}

#[test]
fn cast_accepts_none_string_content_function() {
    let span = Span(3);
    assert_eq!(
        Label::cast(Spanned { v: Value::NoneVal, span }),
        Ok(Label::Content(Content::Empty))
    );
    assert_eq!(
        Label::cast(Spanned { v: Value::Str("i)".to_string()), span }),
        Ok(Label::Pattern("".to_string(), Numbering::Roman, false, ")".to_string()))
    );
    assert_eq!(
        Label::cast(Spanned { v: Value::Func(Func(8)), span }),
        Ok(Label::Func(Func(8), span))
    );
    match Label::cast(Spanned { v: Value::Int(3), span }) {
        Err(Error::Cast { expected, found }) => {
            assert_eq!(expected.as_str(), "string, content or function");
            assert_eq!(found.as_str(), "integer");
        }
        other => panic!("expected a cast error, got {:?}", other),
    }
}

#[test]
fn resolve_default_labels() {
    let mut world = TestWorld::new();
    assert_eq!(
        Label::Default.resolve(&mut world, ListKind::List, 7),
        Ok(Content::Text("\u{2022}".to_string()))
    );
    assert_eq!(
        Label::Default.resolve(&mut world, ListKind::Enum, 3),
        Ok(Content::Text("3.".to_string()))
    );
}

#[test]
fn resolve_pattern_label() {
    let mut world = TestWorld::new();
    let label = Label::Pattern("(".to_string(), Numbering::Letter, false, ")".to_string());
    assert_eq!(
        label.resolve(&mut world, ListKind::Enum, 2),
        Ok(Content::Text("(b)".to_string()))
    );
}

#[test]
fn resolve_literal_label_ignores_number() {
    let mut world = TestWorld::new();
    let label = Label::Content(Content::Text("-".to_string()));
    assert_eq!(
        label.resolve(&mut world, ListKind::List, 1),
        Ok(Content::Text("-".to_string()))
    );
    assert_eq!(
        label.resolve(&mut world, ListKind::Enum, 99),
        Ok(Content::Text("-".to_string()))
    );
}

#[test]
fn resolve_callback_label_displays_result() {
    let mut world = TestWorld::new();
    let label = Label::Func(Func(1), Span(4));
    assert_eq!(
        label.resolve(&mut world, ListKind::Enum, 5),
        Ok(Content::Text("5".to_string()))
    );
    assert_eq!(world.calls, vec![5]);
}

#[test]
fn resolve_callback_failure_is_attributed_to_the_call_site() {
    let mut world = TestWorld::new();
    world.fail_on = Some(2);
    let label = Label::Func(Func(1), Span(11));
    match label.resolve(&mut world, ListKind::Enum, 2) {
        Err(SourceError { span, error: Error::LabelCallbackFailure { location, .. } }) => {
            assert_eq!(span, Span(11));
            assert_eq!(location, Span(11));
        }
        other => panic!("expected a callback failure, got {:?}", other),
    }
}

#[test]
fn display_coerces_values() {
    assert_eq!(Value::Int(-42).display(), Content::Text("-42".to_string()));
    assert_eq!(Value::Bool(true).display(), Content::Text("true".to_string()));
    assert_eq!(Value::NoneVal.display(), Content::Empty);
    assert_eq!(
        Value::Array(vec![Value::Int(1), Value::Str("x".to_string())]).display(),
        Content::Sequence(vec![
            Content::Text("1".to_string()),
            Content::Text("x".to_string())
        ])
    );
}
