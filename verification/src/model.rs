//! The value and content tree the core operates on, with its mathematical
//! models.
//!
//! Every executable type here views into a ghost counterpart (`...V`) over
//! `Seq` and plain values; all contracts speak about those views.
use vstd::prelude::*;

use crate::diag::Span;
use crate::numbering::Numbering;
use crate::registry::Type;

verus! {

broadcast use vstd::std_specs::vec::group_vec_axioms, vstd::seq::group_seq_axioms;

/// An opaque handle to a callable of the scripting layer. The surrounding
/// engine interprets it; the core only carries and compares it.
#[derive(Clone, Copy, PartialEq, Eq, Structural, Hash, Debug)]
pub struct Func(pub u64);

/// A length with an absolute part (thousandths of a point) and a
/// font-relative part (thousandths of an em).
#[derive(Clone, Copy, PartialEq, Eq, Structural, Hash, Debug)]
pub struct Length {
    pub abs: i64,
    pub em: i64,
}

impl Length {
    /// Magnitudes the resolution arithmetic stays overflow-free on.
    pub open spec fn wf(self) -> bool {
        -0x100_0000_0000 <= self.abs <= 0x100_0000_0000 && -0x100_0000_0000 <= self.em
            <= 0x100_0000_0000
    }

    /// The zero length.
    pub fn zero() -> (r: Length)
        ensures
            r == (Length { abs: 0, em: 0 }),
    {
        Length { abs: 0, em: 0 }
    }

    /// A purely font-relative length, in thousandths of an em.
    pub fn from_em(milli_em: i64) -> (r: Length)
        ensures
            r == (Length { abs: 0, em: milli_em }),
    {
        Length { abs: 0, em: milli_em }
    }

    /// The negated length.
    pub fn neg(&self) -> (r: Length)
        requires
            self.wf(),
        ensures
            r.abs == -self.abs,
            r.em == -self.em,
            r.wf(),
    {
        Length { abs: -self.abs, em: -self.em }
    }
}

/// Either an automatic choice or an explicit override.
#[derive(Clone, Copy, PartialEq, Eq, Structural, Hash, Debug)]
pub enum Smart {
    Auto,
    Custom(Length),
}

/// A per-node map of style-property overrides, together with the ambient
/// font size captured for resolving font-relative lengths.
#[derive(PartialEq, Debug)]
pub struct StyleMap {
    pub label: Option<Label>,
    pub indent: Option<Length>,
    pub body_indent: Option<Length>,
    pub spacing: Option<Smart>,
    pub leading: Option<Length>,
    pub below: Option<Length>,
    pub font_size: Option<i64>,
}

/// How to label a list or enumeration.
#[derive(PartialEq, Debug)]
pub enum Label {
    /// The kind-dependent default: a bullet for unordered lists, the decimal
    /// number followed by a dot for enumerations; invalid for description
    /// lists.
    Default,
    /// A pattern with prefix, counter system, case flag and suffix.
    Pattern(String, Numbering, bool, String),
    /// A fixed literal rendered for every item.
    Content(Content),
    /// A callback mapping an item number to a value, with its call site.
    Func(Func, Span),
}

/// An immutable packed node of document structure.
#[derive(PartialEq, Debug)]
pub enum Content {
    /// Nothing.
    Empty,
    /// A word space.
    Space,
    /// A text run.
    Text(String),
    /// Strongly emphasized content.
    Strong(Box<Content>),
    /// A horizontal shift by a (possibly negative) length.
    Shift(Length),
    /// A concatenation of parts.
    Sequence(Vec<Content>),
    /// Content with a map of style overrides pushed onto its chain.
    Styled(Box<Content>, Box<StyleMap>),
    /// A packed structured list.
    Listing(Box<ListNode>),
}

/// Which of the three structured list flavours a node or item belongs to.
#[derive(Clone, Copy, PartialEq, Eq, Structural, Hash, Debug)]
pub enum ListKind {
    /// An unordered (bulleted) list.
    List,
    /// An ordered (numbered) list.
    Enum,
    /// A description list of term/body pairs.
    Desc,
}

/// A description list item: a term and its description.
#[derive(PartialEq, Debug)]
pub struct DescItem {
    pub term: Content,
    pub body: Content,
}

/// An item in a structured list.
#[derive(PartialEq, Debug)]
pub enum ListItem {
    /// An item of an unordered list.
    List(Box<Content>),
    /// An item of an ordered list, optionally carrying an explicit number.
    Enum(Option<usize>, Box<Content>),
    /// An item of a description list.
    Desc(Box<DescItem>),
}

/// An item paired with its own style-override map.
#[derive(PartialEq, Debug)]
pub struct ListEntry {
    pub item: ListItem,
    pub map: StyleMap,
}

/// An unordered, ordered or description list node.
#[derive(PartialEq, Debug)]
pub struct ListNode {
    /// Which flavour of list this is.
    pub kind: ListKind,
    /// If true, items are separated by paragraph leading instead of list
    /// spacing.
    pub tight: bool,
    /// The items, each with its own style overrides.
    pub items: Vec<ListEntry>,
}

/// A tagged union over the scripting layer's representable kinds.
#[derive(PartialEq, Debug)]
pub enum Value {
    NoneVal,
    Bool(bool),
    Int(i64),
    Str(String),
    Content(Content),
    Func(Func),
    Array(Vec<Value>),
    Dict(Vec<(String, Value)>),
    Type(Type),
}

/// The arguments of a construction call: positional values and named options.
#[derive(Debug)]
pub struct Args {
    pub span: Span,
    pub positional: Vec<Value>,
    pub named: Vec<(String, Value)>,
}

// ------------------------------------------------------------------
// Ghost models.
// ------------------------------------------------------------------
pub struct StyleMapV {
    pub label: Option<LabelV>,
    pub indent: Option<Length>,
    pub body_indent: Option<Length>,
    pub spacing: Option<Smart>,
    pub leading: Option<Length>,
    pub below: Option<Length>,
    pub font_size: Option<i64>,
}

pub enum LabelV {
    Default,
    Pattern(Seq<char>, Numbering, bool, Seq<char>),
    Content(ContentV),
    Func(Func, Span),
}

pub enum ContentV {
    Empty,
    Space,
    Text(Seq<char>),
    Strong(Box<ContentV>),
    Shift(Length),
    Sequence(Seq<ContentV>),
    Styled(Box<ContentV>, Box<StyleMapV>),
    Listing(ListNodeV),
}

pub struct DescItemV {
    pub term: ContentV,
    pub body: ContentV,
}

pub enum ItemV {
    List(ContentV),
    Enum(Option<usize>, ContentV),
    Desc(DescItemV),
}

pub struct ListEntryV {
    pub item: ItemV,
    pub map: StyleMapV,
}

pub struct ListNodeV {
    pub kind: ListKind,
    pub tight: bool,
    pub items: Seq<ListEntryV>,
}

pub enum ValueV {
    NoneVal,
    Bool(bool),
    Int(i64),
    Str(Seq<char>),
    Content(ContentV),
    Func(Func),
    Array(Seq<ValueV>),
    Dict(Seq<(Seq<char>, ValueV)>),
    Type(Type),
}

pub struct ArgsV {
    pub span: Span,
    pub positional: Seq<ValueV>,
    pub named: Seq<(Seq<char>, ValueV)>,
}

/// The views of a sequence of content parts.
pub open spec fn centries_v(s: Seq<Content>) -> Seq<ContentV>
    decreases s,
{
    if s.len() == 0 {
        Seq::empty()
    } else {
        centries_v(s.drop_last()).push(s.last()@)
    }
}

/// Indexing the views of content parts indexes the parts.
pub broadcast proof fn lemma_centries_v(s: Seq<Content>)
    ensures
        (#[trigger] centries_v(s)).len() == s.len(),
        forall|i: int| 0 <= i < s.len() ==> #[trigger] centries_v(s)[i] == s[i]@,
    decreases s.len(),
{
    if s.len() == 0 {
        assert(centries_v(s) == Seq::<ContentV>::empty());
    } else {
        lemma_centries_v(s.drop_last());
        assert(centries_v(s) == centries_v(s.drop_last()).push(s.last()@));
        assert(centries_v(s).len() == s.len());
        assert forall|i: int| 0 <= i < s.len() implies #[trigger] centries_v(s)[i] == s[i]@ by {
            if i < s.len() - 1 {
                assert(s.drop_last()[i] == s[i]);
                assert(centries_v(s)[i] == centries_v(s.drop_last())[i]);
            } else {
                assert(centries_v(s)[i] == s.last()@);
            }
        }
    }
}

/// The views of a sequence of list entries.
pub open spec fn lentries_v(s: Seq<ListEntry>) -> Seq<ListEntryV>
    decreases s,
{
    if s.len() == 0 {
        Seq::empty()
    } else {
        lentries_v(s.drop_last()).push(s.last()@)
    }
}

/// Indexing the views of list entries indexes the entries.
pub broadcast proof fn lemma_lentries_v(s: Seq<ListEntry>)
    ensures
        (#[trigger] lentries_v(s)).len() == s.len(),
        forall|i: int| 0 <= i < s.len() ==> #[trigger] lentries_v(s)[i] == s[i]@,
    decreases s.len(),
{
    if s.len() == 0 {
    } else {
        lemma_lentries_v(s.drop_last());
        assert(lentries_v(s) == lentries_v(s.drop_last()).push(s.last()@));
        assert(lentries_v(s).len() == s.len());
        assert forall|i: int| 0 <= i < s.len() implies #[trigger] lentries_v(s)[i] == s[i]@ by {
            if i < s.len() - 1 {
                assert(s.drop_last()[i] == s[i]);
                assert(lentries_v(s)[i] == lentries_v(s.drop_last())[i]);
            } else {
                assert(lentries_v(s)[i] == s.last()@);
            }
        }
    }
}

/// The views of a sequence of values.
pub open spec fn varr_v(s: Seq<Value>) -> Seq<ValueV>
    decreases s,
{
    if s.len() == 0 {
        Seq::empty()
    } else {
        varr_v(s.drop_last()).push(s.last()@)
    }
}

/// Indexing the views of values indexes the values.
pub broadcast proof fn lemma_varr_v(s: Seq<Value>)
    ensures
        (#[trigger] varr_v(s)).len() == s.len(),
        forall|i: int| 0 <= i < s.len() ==> #[trigger] varr_v(s)[i] == s[i]@,
    decreases s.len(),
{
    if s.len() == 0 {
    } else {
        lemma_varr_v(s.drop_last());
        assert(varr_v(s) == varr_v(s.drop_last()).push(s.last()@));
        assert(varr_v(s).len() == s.len());
        assert forall|i: int| 0 <= i < s.len() implies #[trigger] varr_v(s)[i] == s[i]@ by {
            if i < s.len() - 1 {
                assert(s.drop_last()[i] == s[i]);
                assert(varr_v(s)[i] == varr_v(s.drop_last())[i]);
            } else {
                assert(varr_v(s)[i] == s.last()@);
            }
        }
    }
}

/// The views of a sequence of name/value pairs.
pub open spec fn vpairs_v(s: Seq<(String, Value)>) -> Seq<(Seq<char>, ValueV)>
    decreases s,
{
    if s.len() == 0 {
        Seq::empty()
    } else {
        vpairs_v(s.drop_last()).push((s.last().0@, s.last().1@))
    }
}

/// Indexing the views of name/value pairs indexes the pairs.
pub broadcast proof fn lemma_vpairs_v(s: Seq<(String, Value)>)
    ensures
        (#[trigger] vpairs_v(s)).len() == s.len(),
        forall|i: int|
            0 <= i < s.len() ==> #[trigger] vpairs_v(s)[i] == (s[i].0@, s[i].1@),
    decreases s.len(),
{
    if s.len() == 0 {
    } else {
        lemma_vpairs_v(s.drop_last());
        assert(vpairs_v(s) == vpairs_v(s.drop_last()).push((s.last().0@, s.last().1@)));
        assert(vpairs_v(s).len() == s.len());
        assert forall|i: int| 0 <= i < s.len() implies #[trigger] vpairs_v(s)[i] == (s[i].0@, s[i].1@) by {
            if i < s.len() - 1 {
                assert(s.drop_last()[i] == s[i]);
                assert(vpairs_v(s)[i] == vpairs_v(s.drop_last())[i]);
            } else {
                assert(vpairs_v(s)[i] == (s.last().0@, s.last().1@));
            }
        }
    }
}

impl View for StyleMap {
    type V = StyleMapV;

    open spec fn view(&self) -> StyleMapV
        decreases self,
    {
        StyleMapV {
            label: match &self.label {
                Option::Some(l) => Option::Some(l@),
                Option::None => Option::None,
            },
            indent: self.indent,
            body_indent: self.body_indent,
            spacing: self.spacing,
            leading: self.leading,
            below: self.below,
            font_size: self.font_size,
        }
    }
}

impl View for Label {
    type V = LabelV;

    open spec fn view(&self) -> LabelV
        decreases self,
    {
        match self {
            Label::Default => LabelV::Default,
            Label::Pattern(prefix, kind, upper, suffix) => LabelV::Pattern(
                prefix@,
                *kind,
                *upper,
                suffix@,
            ),
            Label::Content(c) => LabelV::Content(c@),
            Label::Func(f, span) => LabelV::Func(*f, *span),
        }
    }
}

impl View for Content {
    type V = ContentV;

    open spec fn view(&self) -> ContentV
        decreases self,
    {
        match self {
            Content::Empty => ContentV::Empty,
            Content::Space => ContentV::Space,
            Content::Text(s) => ContentV::Text(s@),
            Content::Strong(c) => ContentV::Strong(Box::new((**c)@)),
            Content::Shift(l) => ContentV::Shift(*l),
            Content::Sequence(v) => ContentV::Sequence(centries_v(v@)),
            Content::Styled(c, m) => ContentV::Styled(Box::new((**c)@), Box::new((**m)@)),
            Content::Listing(n) => ContentV::Listing((**n)@),
        }
    }
}

impl View for DescItem {
    type V = DescItemV;

    open spec fn view(&self) -> DescItemV
        decreases self,
    {
        DescItemV { term: self.term@, body: self.body@ }
    }
}

impl View for ListItem {
    type V = ItemV;

    open spec fn view(&self) -> ItemV
        decreases self,
    {
        match self {
            ListItem::List(c) => ItemV::List((**c)@),
            ListItem::Enum(n, c) => ItemV::Enum(*n, (**c)@),
            ListItem::Desc(d) => ItemV::Desc((**d)@),
        }
    }
}

impl View for ListEntry {
    type V = ListEntryV;

    open spec fn view(&self) -> ListEntryV
        decreases self,
    {
        ListEntryV { item: self.item@, map: self.map@ }
    }
}

impl View for ListNode {
    type V = ListNodeV;

    open spec fn view(&self) -> ListNodeV
        decreases self,
    {
        ListNodeV {
            kind: self.kind,
            tight: self.tight,
            items: lentries_v(self.items@),
        }
    }
}

impl View for Value {
    type V = ValueV;

    open spec fn view(&self) -> ValueV
        decreases self,
    {
        match self {
            Value::NoneVal => ValueV::NoneVal,
            Value::Bool(b) => ValueV::Bool(*b),
            Value::Int(i) => ValueV::Int(*i),
            Value::Str(s) => ValueV::Str(s@),
            Value::Content(c) => ValueV::Content(c@),
            Value::Func(f) => ValueV::Func(*f),
            Value::Array(v) => ValueV::Array(varr_v(v@)),
            Value::Dict(d) => ValueV::Dict(vpairs_v(d@)),
            Value::Type(t) => ValueV::Type(*t),
        }
    }
}

impl View for Args {
    type V = ArgsV;

    open spec fn view(&self) -> ArgsV
        decreases self,
    {
        ArgsV { span: self.span, positional: varr_v(self.positional@), named: vpairs_v(self.named@) }
    }
}

// ------------------------------------------------------------------
// Structure-preserving copies. The scripting layer shares content freely;
// a copy is observationally the same node.
// ------------------------------------------------------------------
impl StyleMap {
    /// An override map with nothing set.
    pub fn new() -> (r: StyleMap)
        ensures
            r@ == (StyleMapV {
                label: Option::<LabelV>::None,
                indent: Option::<Length>::None,
                body_indent: Option::<Length>::None,
                spacing: Option::<Smart>::None,
                leading: Option::<Length>::None,
                below: Option::<Length>::None,
                font_size: Option::<i64>::None,
            }),
    {
        StyleMap {
            label: Option::None,
            indent: Option::None,
            body_indent: Option::None,
            spacing: Option::None,
            leading: Option::None,
            below: Option::None,
            font_size: Option::None,
        }
    }

    /// A copy with the same view.
    pub fn dup(&self) -> (r: StyleMap)
        ensures
            r@ == self@,
        decreases *self,
    {
        StyleMap {
            label: match &self.label {
                Option::Some(l) => Option::Some(l.dup()),
                Option::None => Option::None,
            },
            indent: self.indent,
            body_indent: self.body_indent,
            spacing: self.spacing,
            leading: self.leading,
            below: self.below,
            font_size: self.font_size,
        }
    }
}

impl Label {
    /// A copy with the same view.
    pub fn dup(&self) -> (r: Label)
        ensures
            r@ == self@,
        decreases *self,
    {
        match self {
            Label::Default => Label::Default,
            Label::Pattern(prefix, kind, upper, suffix) => Label::Pattern(
                prefix.clone(),
                *kind,
                *upper,
                suffix.clone(),
            ),
            Label::Content(c) => Label::Content(c.dup()),
            Label::Func(f, span) => Label::Func(*f, *span),
        }
    }
}

impl Content {
    /// A copy with the same view.
    pub fn dup(&self) -> (r: Content)
        ensures
            r@ == self@,
        decreases *self,
    {
        match self {
            Content::Empty => Content::Empty,
            Content::Space => Content::Space,
            Content::Text(s) => Content::Text(s.clone()),
            Content::Strong(c) => Content::Strong(Box::new(c.dup())),
            Content::Shift(l) => Content::Shift(*l),
            Content::Sequence(v) => {
                let mut out: Vec<Content> = Vec::new();
                let mut i: usize = 0;
                #[verifier::loop_isolation(false)]
                while i < v.len()
                    invariant
                        i <= v.len(),
                        out@.len() == i as int,
                        forall|j: int| 0 <= j < i as int ==> out@[j]@ == v@[j]@,
                    decreases v.len() - i,
                {
                    let e = v[i].dup();
                    out.push(e);
                    i = i + 1;
                }
                let r = Content::Sequence(out);
                proof {
                    match (r@, self@) {
                        (ContentV::Sequence(a), ContentV::Sequence(b)) => {
                            lemma_centries_v(out@);
                            lemma_centries_v(v@);
                            assert(a == centries_v(out@));
                            assert(b == centries_v(v@));
                            assert(a =~= b);
                        },
                        _ => {},
                    }
                }
                r
            },
            Content::Styled(c, m) => Content::Styled(Box::new(c.dup()), Box::new(m.dup())),
            Content::Listing(n) => Content::Listing(Box::new(n.dup())),
        }
    }

    /// The empty content node.
    pub fn empty() -> (r: Content)
        ensures
            r@ == ContentV::Empty,
    {
        Content::Empty
    }

    /// A composite node of the given parts, in order.
    pub fn sequence(parts: Vec<Content>) -> (r: Content)
        ensures
            r@ matches ContentV::Sequence(s) && s.len() == parts@.len() && forall|i: int|
                0 <= i < parts@.len() ==> s[i] == #[trigger] parts@[i]@,
    {
        let ghost pv = parts@;
        let r = Content::Sequence(parts);
        proof {
            match r@ {
                ContentV::Sequence(s) => {
                    lemma_centries_v(pv);
                    assert(s == centries_v(pv));
                },
                _ => {},
            }
        }
        r
    }

    /// A text node.
    pub fn text(s: String) -> (r: Content)
        ensures
            r@ == ContentV::Text(s@),
    {
        Content::Text(s)
    }

    /// This content with the given override map pushed onto its style chain.
    /// The original is never mutated; the result is a new node.
    pub fn styled_with_map(self, map: StyleMap) -> (r: Content)
        ensures
            r@ == ContentV::Styled(Box::new(self@), Box::new(map@)),
    {
        Content::Styled(Box::new(self), Box::new(map))
    }
}

impl DescItem {
    /// A copy with the same view.
    pub fn dup(&self) -> (r: DescItem)
        ensures
            r@ == self@,
        decreases *self,
    {
        DescItem { term: self.term.dup(), body: self.body.dup() }
    }
}

impl ListItem {
    /// A copy with the same view.
    pub fn dup(&self) -> (r: ListItem)
        ensures
            r@ == self@,
        decreases *self,
    {
        match self {
            ListItem::List(c) => ListItem::List(Box::new(c.dup())),
            ListItem::Enum(n, c) => ListItem::Enum(*n, Box::new(c.dup())),
            ListItem::Desc(d) => ListItem::Desc(Box::new(d.dup())),
        }
    }
}

impl ListEntry {
    /// A copy with the same view.
    pub fn dup(&self) -> (r: ListEntry)
        ensures
            r@ == self@,
        decreases *self,
    {
        ListEntry { item: self.item.dup(), map: self.map.dup() }
    }
}

impl ListNode {
    /// A copy with the same view.
    pub fn dup(&self) -> (r: ListNode)
        ensures
            r@ == self@,
        decreases *self,
    {
        let mut out: Vec<ListEntry> = Vec::new();
        let mut i: usize = 0;
        #[verifier::loop_isolation(false)]
        while i < self.items.len()
            invariant
                i <= self.items.len(),
                out@.len() == i as int,
                forall|j: int| 0 <= j < i as int ==> out@[j]@ == self.items@[j]@,
            decreases self.items.len() - i,
        {
            let e = self.items[i].dup();
            out.push(e);
            i = i + 1;
        }
        let r = ListNode { kind: self.kind, tight: self.tight, items: out };
        proof {
            lemma_lentries_v(out@);
            lemma_lentries_v(self.items@);
            assert(r@.items == lentries_v(out@));
            assert(self@.items == lentries_v(self.items@));
            assert(r@.items =~= self@.items);
        }
        r
    }
}

impl Value {
    /// A copy with the same view.
    pub fn dup(&self) -> (r: Value)
        ensures
            r@ == self@,
        decreases *self,
    {
        match self {
            Value::NoneVal => Value::NoneVal,
            Value::Bool(b) => Value::Bool(*b),
            Value::Int(i) => Value::Int(*i),
            Value::Str(s) => Value::Str(s.clone()),
            Value::Content(c) => Value::Content(c.dup()),
            Value::Func(f) => Value::Func(*f),
            Value::Array(v) => {
                let mut out: Vec<Value> = Vec::new();
                let mut i: usize = 0;
                #[verifier::loop_isolation(false)]
                while i < v.len()
                    invariant
                        i <= v.len(),
                        out@.len() == i as int,
                        forall|j: int| 0 <= j < i as int ==> out@[j]@ == v@[j]@,
                    decreases v.len() - i,
                {
                    let e = v[i].dup();
                    out.push(e);
                    i = i + 1;
                }
                let r = Value::Array(out);
                proof {
                    lemma_varr_v(out@);
                    lemma_varr_v(v@);
                    match (r@, self@) {
                        (ValueV::Array(a), ValueV::Array(b)) => {
                            assert(a =~= b);
                        },
                        _ => {},
                    }
                }
                r
            },
            Value::Dict(d) => {
                let mut out: Vec<(String, Value)> = Vec::new();
                let mut i: usize = 0;
                #[verifier::loop_isolation(false)]
                while i < d.len()
                    invariant
                        i <= d.len(),
                        out@.len() == i as int,
                        forall|j: int|
                            0 <= j < i as int ==> (#[trigger] out@[j]).0@ == d@[j].0@ && out@[j].1@
                                == d@[j].1@,
                    decreases d.len() - i,
                {
                    let k = d[i].0.clone();
                    let e = d[i].1.dup();
                    out.push((k, e));
                    i = i + 1;
                }
                let r = Value::Dict(out);
                proof {
                    lemma_vpairs_v(out@);
                    lemma_vpairs_v(d@);
                    match (r@, self@) {
                        (ValueV::Dict(a), ValueV::Dict(b)) => {
                            assert(a =~= b);
                        },
                        _ => {},
                    }
                }
                r
            },
            Value::Type(t) => Value::Type(*t),
        }
    }

    /// The long name of the kind a value belongs to, as diagnostics print it.
    pub open spec fn spec_kind_name(v: ValueV) -> Seq<char> {
        match v {
            ValueV::NoneVal => "none"@,
            ValueV::Bool(_) => "boolean"@,
            ValueV::Int(_) => "integer"@,
            ValueV::Str(_) => "string"@,
            ValueV::Content(_) => "content"@,
            ValueV::Func(_) => "function"@,
            ValueV::Array(_) => "array"@,
            ValueV::Dict(_) => "dictionary"@,
            ValueV::Type(_) => "type"@,
        }
    }

    /// The long name of this value's kind.
    pub fn kind_name(&self) -> (r: &'static str)
        ensures
            r@ == Self::spec_kind_name(self@),
    {
        match self {
            Value::NoneVal => "none",
            Value::Bool(_) => "boolean",
            Value::Int(_) => "integer",
            Value::Str(_) => "string",
            Value::Content(_) => "content",
            Value::Func(_) => "function",
            Value::Array(_) => "array",
            Value::Dict(_) => "dictionary",
            Value::Type(_) => "type",
        }
    }
}

/// Spec-level lookup in a dictionary or named-argument list: the value of the
/// first pair whose key matches.
pub open spec fn spec_pairs_get(pairs: Seq<(Seq<char>, ValueV)>, key: Seq<char>) -> Option<ValueV>
    decreases pairs.len(),
{
    if pairs.len() == 0 {
        Option::None
    } else if pairs[0].0 == key {
        Option::Some(pairs[0].1)
    } else {
        spec_pairs_get(pairs.drop_first(), key)
    }
}

} // verus!
