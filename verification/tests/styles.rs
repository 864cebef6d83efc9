use typst_core::model::{Label, Length, ListKind, Smart, StyleMap};
use typst_core::styles::{resolve_len, StyleChain};

fn map() -> StyleMap {
    StyleMap::new()
}

#[test]
fn resolution_scales_the_font_relative_part() {
    // 2 pt fixed plus half an em at a 10 pt font size is 7 pt.
    let l = Length { abs: 2_000, em: 500 };
    assert_eq!(resolve_len(l, 10_000), 7_000);
    assert_eq!(resolve_len(Length { abs: 0, em: 0 }, 10_000), 0);
}

#[test]
fn nearest_override_wins() {
    let mut inner = map();
    inner.indent = Some(Length { abs: 9_000, em: 0 });
    let mut outer = map();
    outer.indent = Some(Length { abs: 1_000, em: 0 });
    outer.label = Some(Label::Default);
    let chain = StyleChain { maps: vec![inner, outer], base_font_size: 10_000 };
    assert_eq!(chain.get_indent(), Length { abs: 9_000, em: 0 });
    // The label is only set in the outer map, so the cascade walks past the
    // inner one.
    assert_eq!(chain.get_label(), Label::Default);
}

#[test]
fn compiled_in_defaults_apply() {
    let chain = StyleChain::new(10_000);
    assert_eq!(chain.get_indent(), Length { abs: 0, em: 0 });
    assert_eq!(chain.get_body_indent(ListKind::List), Length { abs: 0, em: 500 });
    assert_eq!(chain.get_body_indent(ListKind::Enum), Length { abs: 0, em: 500 });
    assert_eq!(chain.get_body_indent(ListKind::Desc), Length { abs: 0, em: 1000 });
    assert_eq!(chain.get_spacing(), Smart::Auto);
    assert_eq!(chain.get_label(), Label::Default);
    assert_eq!(chain.font_size(), 10_000);
}

#[test]
fn font_size_override_applies_to_resolution() {
    let mut inner = map();
    inner.font_size = Some(20_000);
    let chain = StyleChain { maps: vec![inner], base_font_size: 10_000 };
    assert_eq!(chain.font_size(), 20_000);
    assert_eq!(resolve_len(chain.get_body_indent(ListKind::Desc), chain.font_size()), 20_000);
}
