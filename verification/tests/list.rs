use typst_core::diag::{Error, SourceError, Span};
use typst_core::list::{pairs_get, to_content};
use typst_core::model::{
    Args, Content, DescItem, Func, Label, Length, ListEntry, ListItem, ListKind, ListNode, Smart,
    StyleMap, Value,
};
use typst_core::styles::StyleChain;
use typst_core::world::{Frame, GridNode, Regions, TrackSizing, World};

/// A test environment: callbacks echo the item number, optionally failing on
/// one chosen number; grid layouts are counted and come back as one frame.
struct LayoutWorld {
    fail_on: Option<usize>,
    grid_fail: bool,
    calls: Vec<usize>,
    grids: usize,
}

impl LayoutWorld {
    fn new() -> LayoutWorld {
        LayoutWorld { fail_on: None, grid_fail: false, calls: Vec::new(), grids: 0 }
    }
}

impl World for LayoutWorld {
    fn call_func(&mut self, _func: Func, span: Span, number: usize) -> Result<Value, SourceError> {
        self.calls.push(number);
        if self.fail_on == Some(number) {
            Err(SourceError {
                span,
                error: Error::Eval { message: "callback raised an error".to_string() },
            })
        } else {
            Ok(Value::Int(number as i64))
        }
    }

    fn layout_grid(&mut self, grid: GridNode, _regions: &Regions) -> Result<Vec<Frame>, SourceError> {
        self.grids += 1;
        if self.grid_fail {
            Err(SourceError {
                span: Span(77),
                error: Error::Eval { message: "an item body did not fit".to_string() },
            })
        } else {
            Ok(vec![Frame(grid.cells.len() as u64)])
        }
    }
}

fn text(s: &str) -> Content {
    Content::Text(s.to_string())
}

fn entry(item: ListItem) -> ListEntry {
    ListEntry { item, map: StyleMap::new() }
}

fn label_text(cell: &Content) -> &str {
    match cell {
        Content::Styled(inner, _) => match inner.as_ref() {
            Content::Text(s) => s.as_str(),
            other => panic!("label cell is not text: {:?}", other),
        },
        other => panic!("cell is not styled: {:?}", other),
    }
}

fn enum_node(numbers: &[Option<usize>]) -> ListNode {
    ListNode {
        kind: ListKind::Enum,
        tight: true,
        items: numbers
            .iter()
            .map(|n| entry(ListItem::Enum(*n, Box::new(text("x")))))
            .collect(),
    }
}

#[test]
fn list_node_produces_four_cells_per_item() {
    let node = ListNode {
        kind: ListKind::List,
        tight: true,
        items: vec![
            entry(ListItem::List(Box::new(text("a")))),
            entry(ListItem::List(Box::new(text("b")))),
            entry(ListItem::List(Box::new(text("c")))),
        ],
    };
    let mut world = LayoutWorld::new();
    let styles = StyleChain::new(10_000);
    let grid = node.build_grid(&mut world, &styles).unwrap();
    assert_eq!(grid.cells.len(), 12);
    for row in 0..3 {
        assert_eq!(grid.cells[4 * row], Content::Empty);
        assert_eq!(grid.cells[4 * row + 2], Content::Empty);
    }
    assert_eq!(grid.tracks.len(), 4);
    assert_eq!(grid.tracks[0], TrackSizing::Fixed(0));
    assert_eq!(grid.tracks[1], TrackSizing::Auto);
    // Half an em at a 10 pt font size.
    assert_eq!(grid.tracks[2], TrackSizing::Fixed(5_000));
    assert_eq!(grid.tracks[3], TrackSizing::Auto);
}

#[test]
fn desc_node_produces_four_cells_per_item_with_empty_label_column() {
    let node = ListNode {
        kind: ListKind::Desc,
        tight: true,
        items: vec![
            entry(ListItem::Desc(Box::new(DescItem { term: text("t1"), body: text("b1") }))),
            entry(ListItem::Desc(Box::new(DescItem { term: text("t2"), body: text("b2") }))),
        ],
    };
    let mut world = LayoutWorld::new();
    let styles = StyleChain::new(10_000);
    let grid = node.build_grid(&mut world, &styles).unwrap();
    assert_eq!(grid.cells.len(), 8);
    for row in 0..2 {
        assert_eq!(grid.cells[4 * row], Content::Empty);
        assert_eq!(grid.cells[4 * row + 1], Content::Empty);
        assert_eq!(grid.cells[4 * row + 2], Content::Empty);
    }
}

#[test]
fn desc_body_hangs_the_term() {
    let node = ListNode {
        kind: ListKind::Desc,
        tight: true,
        items: vec![entry(ListItem::Desc(Box::new(DescItem {
            term: text("term"),
            body: text("body"),
        })))],
    };
    let mut world = LayoutWorld::new();
    let styles = StyleChain::new(10_000);
    let grid = node.build_grid(&mut world, &styles).unwrap();
    match &grid.cells[3] {
        Content::Styled(inner, _) => match inner.as_ref() {
            Content::Sequence(parts) => {
                assert_eq!(parts.len(), 4);
                // A full em at 10 pt, shifted leftwards.
                match &parts[0] {
                    Content::Shift(l) => {
                        assert_eq!(l.abs, -10_000);
                        assert_eq!(l.em, 0);
                    }
                    other => panic!("expected a shift, got {:?}", other),
                }
                match &parts[1] {
                    Content::Strong(strong) => match strong.as_ref() {
                        Content::Sequence(tc) => {
                            assert_eq!(tc[0], text("term"));
                            assert_eq!(tc[1], text(":"));
                        }
                        other => panic!("expected term and colon, got {:?}", other),
                    },
                    other => panic!("expected strong content, got {:?}", other),
                }
                assert_eq!(parts[2], Content::Space);
                assert_eq!(parts[3], text("body"));
            }
            other => panic!("expected a sequence, got {:?}", other),
        },
        other => panic!("expected a styled body, got {:?}", other),
    }
}

#[test]
fn enum_labels_count_from_one() {
    let node = enum_node(&[None, None]);
    let mut world = LayoutWorld::new();
    let styles = StyleChain::new(10_000);
    let grid = node.build_grid(&mut world, &styles).unwrap();
    assert_eq!(label_text(&grid.cells[1]), "1.");
    assert_eq!(label_text(&grid.cells[5]), "2.");
}

#[test]
fn enum_labels_honor_start() {
    let args = Args {
        span: Span(1),
        positional: vec![Value::Content(text("A")), Value::Content(text("B"))],
        named: vec![("start".to_string(), Value::Int(5))],
    };
    let packed = ListNode::construct(ListKind::Enum, args).unwrap();
    let node = match packed {
        Content::Listing(node) => *node,
        other => panic!("expected a packed list, got {:?}", other),
    };
    let mut world = LayoutWorld::new();
    let styles = StyleChain::new(10_000);
    let grid = node.build_grid(&mut world, &styles).unwrap();
    assert_eq!(label_text(&grid.cells[1]), "5.");
    assert_eq!(label_text(&grid.cells[5]), "6.");
}

#[test]
fn explicit_number_resets_the_counter() {
    let node = enum_node(&[None, Some(10), None]);
    let mut world = LayoutWorld::new();
    let styles = StyleChain::new(10_000);
    let grid = node.build_grid(&mut world, &styles).unwrap();
    assert_eq!(label_text(&grid.cells[1]), "1.");
    assert_eq!(label_text(&grid.cells[5]), "10.");
    assert_eq!(label_text(&grid.cells[9]), "11.");
}

#[test]
fn callback_failure_aborts_the_whole_list() {
    let node = enum_node(&[None, None, None]);
    let mut world = LayoutWorld::new();
    world.fail_on = Some(2);
    let mut map = StyleMap::new();
    map.label = Some(Label::Func(Func(1), Span(9)));
    let styles = StyleChain { maps: vec![map], base_font_size: 10_000 };
    let (result, _) = node.layout_block(&mut world, &Regions { width: 100, height: 100 }, &styles);
    match result {
        Err(SourceError { span, error: Error::LabelCallbackFailure { location, .. } }) => {
            assert_eq!(span, Span(9));
            assert_eq!(location, Span(9));
        }
        other => panic!("expected a callback failure, got {:?}", other),
    }
    // Items 1 and 2 were tried, item 3 never was, and no grid was laid out:
    // the failure produced no partial output.
    assert_eq!(world.calls, vec![1, 2]);
    assert_eq!(world.grids, 0);
}

#[test]
fn successful_layout_hands_one_grid_to_the_environment() {
    let node = enum_node(&[None]);
    let mut world = LayoutWorld::new();
    let styles = StyleChain::new(10_000);
    let (result, _) = node.layout_block(&mut world, &Regions { width: 100, height: 100 }, &styles);
    assert_eq!(result.unwrap(), vec![Frame(4)]);
    assert_eq!(world.grids, 1);
}

#[test]
fn grid_failure_is_reported_as_an_item_layout_failure() {
    let node = enum_node(&[None]);
    let mut world = LayoutWorld::new();
    world.grid_fail = true;
    let styles = StyleChain::new(10_000);
    let (result, _) = node.layout_block(&mut world, &Regions { width: 100, height: 100 }, &styles);
    match result {
        Err(SourceError { span, error: Error::ItemLayoutFailure { inner } }) => {
            assert_eq!(span, Span(77));
            assert_eq!(inner.span, Span(77));
        }
        other => panic!("expected an item layout failure, got {:?}", other),
    }
}

#[test]
fn encode_decode_round_trip_preserves_number_and_body() {
    let item = ListItem::Enum(Some(3), Box::new(text("payload")));
    let encoded = item.encode();
    match &encoded {
        Value::Dict(pairs) => {
            assert_eq!(pairs_get(pairs, "number"), Some(&Value::Int(3)));
            assert_eq!(pairs_get(pairs, "body"), Some(&Value::Content(text("payload"))));
        }
        other => panic!("expected a record, got {:?}", other),
    }
    let decoded = ListItem::decode(item.kind(), encoded).unwrap();
    assert_eq!(decoded, item);
}

#[test]
fn desc_round_trip_preserves_term_and_body() {
    let item = ListItem::Desc(Box::new(DescItem { term: text("t"), body: text("b") }));
    let decoded = ListItem::decode(item.kind(), item.encode()).unwrap();
    assert_eq!(decoded, item);
}

#[test]
fn fields_expose_tight_and_items() {
    let node = enum_node(&[Some(4)]);
    assert_eq!(node.field("tight"), Some(Value::Bool(true)));
    match node.field("items") {
        Some(Value::Array(items)) => assert_eq!(items.len(), 1),
        other => panic!("expected an array, got {:?}", other),
    }
    assert_eq!(node.field("kind"), None);
}

#[test]
fn construct_rejects_bad_options() {
    let args = Args {
        span: Span(2),
        positional: vec![Value::Content(text("A"))],
        named: vec![("tight".to_string(), Value::Int(1))],
    };
    match ListNode::construct(ListKind::List, args) {
        Err(SourceError { span, error: Error::Cast { expected, found } }) => {
            assert_eq!(span, Span(2));
            assert_eq!(expected.as_str(), "boolean");
            assert_eq!(found.as_str(), "integer");
        }
        other => panic!("expected a cast error, got {:?}", other),
    }
    let args = Args {
        span: Span(3),
        positional: vec![],
        named: vec![("start".to_string(), Value::Int(-1))],
    };
    match ListNode::construct(ListKind::Enum, args) {
        Err(SourceError { error: Error::Cast { expected, .. }, .. }) => {
            assert_eq!(expected.as_str(), "non-negative integer");
        }
        other => panic!("expected a cast error, got {:?}", other),
    }
}

#[test]
fn construct_coerces_strings_and_defaults_tight() {
    let args = Args {
        span: Span(4),
        positional: vec![Value::Str("hello".to_string())],
        named: vec![],
    };
    let packed = ListNode::construct(ListKind::List, args).unwrap();
    match packed {
        Content::Listing(node) => {
            assert!(node.tight);
            assert_eq!(node.items.len(), 1);
            assert_eq!(node.items[0].item, ListItem::List(Box::new(text("hello"))));
        }
        other => panic!("expected a packed list, got {:?}", other),
    }
}

#[test]
fn desc_cast_decodes_and_reports() {
    let good = Value::Dict(vec![
        ("term".to_string(), Value::Content(text("t"))),
        ("body".to_string(), Value::Str("b".to_string())),
    ]);
    assert_eq!(
        DescItem::cast(good),
        Ok(DescItem { term: text("t"), body: text("b") })
    );
    let missing = Value::Dict(vec![("term".to_string(), Value::Content(text("t")))]);
    match DescItem::cast(missing) {
        Err(Error::FieldMissing { ty, field }) => {
            assert_eq!(ty.as_str(), "dictionary");
            assert_eq!(field.as_str(), "body");
        }
        other => panic!("expected FieldMissing, got {:?}", other),
    }
    match DescItem::cast(Value::Int(1)) {
        Err(Error::Cast { expected, found }) => {
            assert_eq!(expected.as_str(), "dictionary with `term` and `body` keys");
            assert_eq!(found.as_str(), "integer");
        }
        other => panic!("expected a cast error, got {:?}", other),
    }
}

#[test]
fn to_content_rejects_other_kinds() {
    assert_eq!(to_content(Value::Content(text("x"))), Ok(text("x")));
    match to_content(Value::Bool(false)) {
        Err(Error::Cast { expected, found }) => {
            assert_eq!(expected.as_str(), "content");
            assert_eq!(found.as_str(), "boolean");
        }
        other => panic!("expected a cast error, got {:?}", other),
    }
}

#[test]
fn gutter_uses_leading_when_tight_and_spacing_when_wide() {
    let mut world = LayoutWorld::new();
    let styles = StyleChain::new(10_000);

    // Tight: the paragraph leading, 0.65 em at 10 pt.
    let mut node = enum_node(&[None]);
    node.tight = true;
    let grid = node.build_grid(&mut world, &styles).unwrap();
    assert_eq!(grid.gutter, 6_500);

    // Wide without an override: the space below a block, 1.2 em at 10 pt.
    node.tight = false;
    let grid = node.build_grid(&mut world, &styles).unwrap();
    assert_eq!(grid.gutter, 12_000);

    // Wide with an explicit spacing override.
    let mut map = StyleMap::new();
    map.spacing = Some(Smart::Custom(Length { abs: 2_000, em: 0 }));
    let styled = StyleChain { maps: vec![map], base_font_size: 10_000 };
    let grid = node.build_grid(&mut world, &styled).unwrap();
    assert_eq!(grid.gutter, 2_000);
}

#[test]
fn item_kinds_match_their_variants() {
    assert_eq!(ListItem::List(Box::new(text("a"))).kind(), ListKind::List);
    assert_eq!(ListItem::Enum(None, Box::new(text("a"))).kind(), ListKind::Enum);
    assert_eq!(
        ListItem::Desc(Box::new(DescItem { term: text("t"), body: text("b") })).kind(),
        ListKind::Desc
    );
}
