//! The structured-list layout engine: construction from script arguments,
//! introspection, and translation of a list node into a grid layout request.
use vstd::prelude::*;

use crate::diag::{Error, ErrorV, SourceError};
use crate::styles::StyleChain;
use crate::model::{
    centries_v, lemma_centries_v, lemma_lentries_v, lemma_varr_v, lemma_vpairs_v, lentries_v,
    spec_pairs_get, varr_v, vpairs_v, Args, ArgsV, Content, ContentV, DescItem, DescItemV, ItemV,
    LabelV, Length, ListEntry, ListEntryV, ListItem, ListKind, ListNode, ListNodeV, StyleMap,
    StyleMapV, Value, ValueV,
};

verus! {

broadcast use vstd::std_specs::vec::group_vec_axioms, vstd::seq::group_seq_axioms;

use vstd::string::{StrSliceExecFns, StringExecFns};

/// The kind tag an item belongs to.
pub open spec fn item_kind(item: ItemV) -> ListKind {
    match item {
        ItemV::List(_) => ListKind::List,
        ItemV::Enum(_, _) => ListKind::Enum,
        ItemV::Desc(_) => ListKind::Desc,
    }
}

/// The construction-time invariant: every item's variant tag equals the
/// owning node's kind tag.
pub open spec fn node_wf(n: ListNodeV) -> bool {
    forall|i: int| 0 <= i < n.items.len() ==> item_kind((#[trigger] n.items[i]).item) == n.kind
}

impl ListItem {
    /// What kind of item this is.
    pub fn kind(&self) -> (k: ListKind)
        ensures
            k == item_kind(self@),
    {
        match self {
            ListItem::List(_) => ListKind::List,
            ListItem::Enum(_, _) => ListKind::Enum,
            ListItem::Desc(_) => ListKind::Desc,
        }
    }
}

// ------------------------------------------------------------------
// Dictionary lookups.
// ------------------------------------------------------------------
proof fn lemma_pairs_get_at(pairs: Seq<(Seq<char>, ValueV)>, key: Seq<char>, j: int)
    requires
        0 <= j < pairs.len(),
        forall|jj: int| 0 <= jj < j ==> (#[trigger] pairs[jj]).0 != key,
        pairs[j].0 == key,
    ensures
        spec_pairs_get(pairs, key) == Option::Some(pairs[j].1),
    decreases j,
{
    if j > 0 {
        lemma_pairs_get_at(pairs.drop_first(), key, j - 1);
    }
}

proof fn lemma_pairs_get_none(pairs: Seq<(Seq<char>, ValueV)>, key: Seq<char>)
    requires
        forall|jj: int| 0 <= jj < pairs.len() ==> (#[trigger] pairs[jj]).0 != key,
    ensures
        spec_pairs_get(pairs, key) == Option::<ValueV>::None,
    decreases pairs.len(),
{
    if pairs.len() > 0 {
        lemma_pairs_get_none(pairs.drop_first(), key);
    }
}

/// First-match lookup among name/value pairs.
pub fn pairs_get<'a>(pairs: &'a Vec<(String, Value)>, key: &str) -> (r: Option<&'a Value>)
    ensures
        match r {
            Option::Some(v) => spec_pairs_get(vpairs_v(pairs@), key@) == Option::Some(v@),
            Option::None => spec_pairs_get(vpairs_v(pairs@), key@) == Option::<ValueV>::None,
        },
{
    proof {
        lemma_vpairs_v(pairs@);
    }
    let mut i: usize = 0;
    #[verifier::loop_isolation(false)]
    while i < pairs.len()
        invariant
            i <= pairs.len(),
            forall|j: int| 0 <= j < i as int ==> (#[trigger] vpairs_v(pairs@)[j]).0 != key@,
        decreases pairs.len() - i,
    {
        if crate::registry::str_eq(pairs[i].0.as_str(), key) {
            proof {
                lemma_pairs_get_at(vpairs_v(pairs@), key@, i as int);
            }
            return Option::Some(&pairs[i].1);
        }
        i = i + 1;
    }
    proof {
        lemma_pairs_get_none(vpairs_v(pairs@), key@);
    }
    Option::None
}

// ------------------------------------------------------------------
// Coercions.
// ------------------------------------------------------------------
/// How a script value coerces to content: content stays itself, a string
/// becomes a text run, anything else is rejected.
pub open spec fn spec_to_content(v: ValueV) -> Result<ContentV, ErrorV> {
    match v {
        ValueV::Content(c) => Result::Ok(c),
        ValueV::Str(s) => Result::Ok(ContentV::Text(s)),
        _ => Result::Err(
            ErrorV::Cast { expected: "content"@, found: Value::spec_kind_name(v) },
        ),
    }
}

/// Coerce a script value to content.
pub fn to_content(v: Value) -> (r: Result<Content, Error>)
    ensures
        match r {
            Result::Ok(c) => spec_to_content(v@) == Result::<ContentV, ErrorV>::Ok(c@),
            Result::Err(e) => spec_to_content(v@) == Result::<ContentV, ErrorV>::Err(e@),
        },
{
    match v {
        Value::Content(c) => Result::Ok(c),
        Value::Str(s) => Result::Ok(Content::Text(s)),
        other => Result::Err(
            Error::Cast {
                expected: String::from_str("content"),
                found: other.kind_name().to_owned(),
            },
        ),
    }
}

/// How a script value decodes to a description item: a dictionary whose
/// `term` and `body` entries each coerce to content; a missing entry or a
/// non-dictionary is a descriptive decode error.
pub open spec fn spec_to_desc(v: ValueV) -> Result<DescItemV, ErrorV> {
    match v {
        ValueV::Dict(d) => match spec_pairs_get(d, "term"@) {
            Option::None => Result::Err(
                ErrorV::FieldMissing { ty: "dictionary"@, field: "term"@ },
            ),
            Option::Some(tv) => match spec_to_content(tv) {
                Result::Err(e) => Result::Err(e),
                Result::Ok(term) => match spec_pairs_get(d, "body"@) {
                    Option::None => Result::Err(
                        ErrorV::FieldMissing { ty: "dictionary"@, field: "body"@ },
                    ),
                    Option::Some(bv) => match spec_to_content(bv) {
                        Result::Err(e) => Result::Err(e),
                        Result::Ok(body) => Result::Ok(DescItemV { term, body }),
                    },
                },
            },
        },
        _ => Result::Err(
            ErrorV::Cast {
                expected: "dictionary with `term` and `body` keys"@,
                found: Value::spec_kind_name(v),
            },
        ),
    }
}

impl DescItem {
    /// Decode a description item from a script value by named-field
    /// extraction with per-field coercion.
    pub fn cast(v: Value) -> (r: Result<DescItem, Error>)
        ensures
            match r {
                Result::Ok(d) => spec_to_desc(v@) == Result::<DescItemV, ErrorV>::Ok(d@),
                Result::Err(e) => spec_to_desc(v@) == Result::<DescItemV, ErrorV>::Err(e@),
            },
    {
        match v {
            Value::Dict(d) => {
                let term_v = match pairs_get(&d, "term") {
                    Option::Some(t) => t.dup(),
                    Option::None => {
                        return Result::Err(
                            Error::FieldMissing {
                                ty: String::from_str("dictionary"),
                                field: String::from_str("term"),
                            },
                        );
                    },
                };
                let term = match to_content(term_v) {
                    Result::Ok(c) => c,
                    Result::Err(e) => {
                        return Result::Err(e);
                    },
                };
                let body_v = match pairs_get(&d, "body") {
                    Option::Some(b) => b.dup(),
                    Option::None => {
                        return Result::Err(
                            Error::FieldMissing {
                                ty: String::from_str("dictionary"),
                                field: String::from_str("body"),
                            },
                        );
                    },
                };
                let body = match to_content(body_v) {
                    Result::Ok(c) => c,
                    Result::Err(e) => {
                        return Result::Err(e);
                    },
                };
                Result::Ok(DescItem { term, body })
            },
            other => Result::Err(
                Error::Cast {
                    expected: String::from_str("dictionary with `term` and `body` keys"),
                    found: other.kind_name().to_owned(),
                },
            ),
        }
    }
}

// ------------------------------------------------------------------
// Encoding to and decoding from the introspection surface.
// ------------------------------------------------------------------
/// The displayable record of one item: plain content for a plain list item,
/// a `{number, body}` record for a numbered item, a `{term, body}` record
/// for a description item.
pub open spec fn spec_encode(item: ItemV) -> ValueV {
    match item {
        ItemV::List(body) => ValueV::Content(body),
        ItemV::Enum(number, body) => ValueV::Dict(
            seq![
                (
                    "number"@,
                    match number {
                        Option::Some(n) => ValueV::Int(n as i64),
                        Option::None => ValueV::NoneVal,
                    },
                ),
                ("body"@, ValueV::Content(body)),
            ],
        ),
        ItemV::Desc(d) => ValueV::Dict(
            seq![("term"@, ValueV::Content(d.term)), ("body"@, ValueV::Content(d.body))],
        ),
    }
}

/// What decoding an item's displayable record yields, for each kind.
pub open spec fn spec_decode(kind: ListKind, v: ValueV) -> Result<ItemV, ErrorV> {
    match kind {
        ListKind::List => match spec_to_content(v) {
            Result::Ok(c) => Result::Ok(ItemV::List(c)),
            Result::Err(e) => Result::Err(e),
        },
        ListKind::Enum => match v {
            ValueV::Dict(d) => match spec_pairs_get(d, "number"@) {
                Option::None => Result::Err(
                    ErrorV::FieldMissing { ty: "dictionary"@, field: "number"@ },
                ),
                Option::Some(nv) => {
                    let number = match nv {
                        ValueV::NoneVal => Result::<Option<usize>, ErrorV>::Ok(Option::None),
                        ValueV::Int(n) => if 0 <= n && n as int <= usize::MAX as int {
                            Result::Ok(Option::Some(n as usize))
                        } else {
                            Result::Err(
                                ErrorV::Cast {
                                    expected: "non-negative integer"@,
                                    found: "integer"@,
                                },
                            )
                        },
                        _ => Result::Err(
                            ErrorV::Cast {
                                expected: "integer or none"@,
                                found: Value::spec_kind_name(nv),
                            },
                        ),
                    };
                    match number {
                        Result::Err(e) => Result::Err(e),
                        Result::Ok(number) => match spec_pairs_get(d, "body"@) {
                            Option::None => Result::Err(
                                ErrorV::FieldMissing { ty: "dictionary"@, field: "body"@ },
                            ),
                            Option::Some(bv) => match spec_to_content(bv) {
                                Result::Err(e) => Result::Err(e),
                                Result::Ok(body) => Result::Ok(ItemV::Enum(number, body)),
                            },
                        },
                    }
                },
            },
            _ => Result::Err(
                ErrorV::Cast {
                    expected: "dictionary with `number` and `body` keys"@,
                    found: Value::spec_kind_name(v),
                },
            ),
        },
        ListKind::Desc => match spec_to_desc(v) {
            Result::Ok(d) => Result::Ok(ItemV::Desc(d)),
            Result::Err(e) => Result::Err(e),
        },
    }
}

impl ListItem {
    /// Encode the item into its displayable record.
    pub fn encode(&self) -> (r: Value)
        ensures
            r@ == spec_encode(self@),
    {
        match self {
            ListItem::List(body) => Value::Content(body.dup()),
            ListItem::Enum(number, body) => {
                let number_value = match number {
                    Option::Some(n) => Value::Int(*n as i64),
                    Option::None => Value::NoneVal,
                };
                let mut d: Vec<(String, Value)> = Vec::new();
                d.push((String::from_str("number"), number_value));
                d.push((String::from_str("body"), Value::Content(body.dup())));
                let r = Value::Dict(d);
                proof {
                    lemma_vpairs_v(d@);
                    match r@ {
                        ValueV::Dict(dv) => {
                            assert(dv =~= spec_encode(self@)->Dict_0);
                        },
                        _ => {},
                    }
                }
                r
            },
            ListItem::Desc(item) => {
                let mut d: Vec<(String, Value)> = Vec::new();
                d.push((String::from_str("term"), Value::Content(item.term.dup())));
                d.push((String::from_str("body"), Value::Content(item.body.dup())));
                let r = Value::Dict(d);
                proof {
                    lemma_vpairs_v(d@);
                    match r@ {
                        ValueV::Dict(dv) => {
                            assert(dv =~= spec_encode(self@)->Dict_0);
                        },
                        _ => {},
                    }
                }
                r
            },
        }
    }

    /// Decode an item of the given kind from its displayable record.
    pub fn decode(kind: ListKind, v: Value) -> (r: Result<ListItem, Error>)
        ensures
            match r {
                Result::Ok(item) => spec_decode(kind, v@) == Result::<ItemV, ErrorV>::Ok(item@),
                Result::Err(e) => spec_decode(kind, v@) == Result::<ItemV, ErrorV>::Err(e@),
            },
    {
        match kind {
            ListKind::List => match to_content(v) {
                Result::Ok(c) => Result::Ok(ListItem::List(Box::new(c))),
                Result::Err(e) => Result::Err(e),
            },
            ListKind::Enum => match v {
                Value::Dict(d) => {
                    let number: Option<usize> = match pairs_get(&d, "number") {
                        Option::None => {
                            return Result::Err(
                                Error::FieldMissing {
                                    ty: String::from_str("dictionary"),
                                    field: String::from_str("number"),
                                },
                            );
                        },
                        Option::Some(nv) => match nv {
                            Value::NoneVal => Option::None,
                            Value::Int(n) => {
                                if *n >= 0 && *n as u128 <= usize::MAX as u128 {
                                    Option::Some(*n as usize)
                                } else {
                                    return Result::Err(
                                        Error::Cast {
                                            expected: String::from_str("non-negative integer"),
                                            found: String::from_str("integer"),
                                        },
                                    );
                                }
                            },
                            other => {
                                return Result::Err(
                                    Error::Cast {
                                        expected: String::from_str("integer or none"),
                                        found: other.kind_name().to_owned(),
                                    },
                                );
                            },
                        },
                    };
                    let body = match pairs_get(&d, "body") {
                        Option::None => {
                            return Result::Err(
                                Error::FieldMissing {
                                    ty: String::from_str("dictionary"),
                                    field: String::from_str("body"),
                                },
                            );
                        },
                        Option::Some(bv) => match to_content(bv.dup()) {
                            Result::Ok(c) => c,
                            Result::Err(e) => {
                                return Result::Err(e);
                            },
                        },
                    };
                    Result::Ok(ListItem::Enum(number, Box::new(body)))
                },
                other => Result::Err(
                    Error::Cast {
                        expected: String::from_str("dictionary with `number` and `body` keys"),
                        found: other.kind_name().to_owned(),
                    },
                ),
            },
            ListKind::Desc => match DescItem::cast(v) {
                Result::Ok(d) => Result::Ok(ListItem::Desc(Box::new(d))),
                Result::Err(e) => Result::Err(e),
            },
        }
    }
}

/// Round trip: encoding an item to its displayable record and decoding it
/// back under the item's own kind preserves the explicit number and the
/// contents. The one excluded input is an explicit number too large for the
/// record's signed integer field.
pub proof fn lemma_encode_decode(item: ItemV)
    requires
        item matches ItemV::Enum(Option::Some(n), _) ==> n as int <= 0x7fff_ffff_ffff_ffff,
    ensures
        spec_decode(item_kind(item), spec_encode(item)) == Result::<ItemV, ErrorV>::Ok(item),
{
    reveal_strlit("number");
    reveal_strlit("body");
    reveal_strlit("term");
    match item {
        ItemV::List(_) => {},
        ItemV::Enum(number, body) => {
            let d = spec_encode(item)->Dict_0;
            assert(d.len() == 2);
            assert(d[0].0 == "number"@);
            assert("number"@ != "body"@);
            lemma_pairs_get_at(d, "number"@, 0);
            lemma_pairs_get_at(d, "body"@, 1);
        },
        ItemV::Desc(_) => {
            let d = spec_encode(item)->Dict_0;
            assert("term"@ != "body"@) by {
                assert("term"@[0] == 't');
                assert("body"@[0] == 'b');
            }
            lemma_pairs_get_at(d, "term"@, 0);
            lemma_pairs_get_at(d, "body"@, 1);
        },
    }
}


// ------------------------------------------------------------------
// Construction from script arguments.
// ------------------------------------------------------------------
/// A counter increment that sticks at the machine maximum instead of
/// wrapping.
pub open spec fn sat_inc(n: usize) -> usize {
    if n == usize::MAX {
        n
    } else {
        (n + 1) as usize
    }
}

/// An override map with nothing set, as construction attaches to each item.
pub open spec fn empty_map_v() -> StyleMapV {
    StyleMapV {
        label: Option::None,
        indent: Option::None,
        body_indent: Option::None,
        spacing: Option::None,
        leading: Option::None,
        below: Option::None,
        font_size: Option::None,
    }
}

/// The `tight` option: absent means true; a non-boolean is rejected.
pub open spec fn spec_tight(named: Seq<(Seq<char>, ValueV)>) -> Result<bool, ErrorV> {
    match spec_pairs_get(named, "tight"@) {
        Option::None => Result::Ok(true),
        Option::Some(v) => match v {
            ValueV::Bool(b) => Result::Ok(b),
            _ => Result::Err(
                ErrorV::Cast { expected: "boolean"@, found: Value::spec_kind_name(v) },
            ),
        },
    }
}

/// The `start` option: absent means 1; anything but a representable
/// non-negative integer is rejected.
pub open spec fn spec_start(named: Seq<(Seq<char>, ValueV)>) -> Result<usize, ErrorV> {
    match spec_pairs_get(named, "start"@) {
        Option::None => Result::Ok(1),
        Option::Some(v) => match v {
            ValueV::Int(i) => if 0 <= i && i as int <= usize::MAX as int {
                Result::Ok(i as usize)
            } else {
                Result::Err(
                    ErrorV::Cast { expected: "non-negative integer"@, found: "integer"@ },
                )
            },
            _ => Result::Err(
                ErrorV::Cast { expected: "integer"@, found: Value::spec_kind_name(v) },
            ),
        },
    }
}

/// One positional argument made into an entry of the given kind, numbered
/// for enumerations.
pub open spec fn spec_make_one(kind: ListKind, v: ValueV, number: usize) -> Result<
    ListEntryV,
    ErrorV,
> {
    match kind {
        ListKind::List => match spec_to_content(v) {
            Result::Ok(c) => Result::Ok(ListEntryV { item: ItemV::List(c), map: empty_map_v() }),
            Result::Err(e) => Result::Err(e),
        },
        ListKind::Enum => match spec_to_content(v) {
            Result::Ok(c) => Result::Ok(
                ListEntryV { item: ItemV::Enum(Option::Some(number), c), map: empty_map_v() },
            ),
            Result::Err(e) => Result::Err(e),
        },
        ListKind::Desc => match spec_to_desc(v) {
            Result::Ok(d) => Result::Ok(ListEntryV { item: ItemV::Desc(d), map: empty_map_v() }),
            Result::Err(e) => Result::Err(e),
        },
    }
}

/// The positional arguments made into entries in order, numbering upwards
/// from `number`; the first failing coercion is the result.
pub open spec fn spec_make_items(kind: ListKind, pos: Seq<ValueV>, number: usize) -> Result<
    Seq<ListEntryV>,
    ErrorV,
>
    decreases pos.len(),
{
    if pos.len() == 0 {
        Result::Ok(Seq::empty())
    } else {
        match spec_make_one(kind, pos[0], number) {
            Result::Err(e) => Result::Err(e),
            Result::Ok(entry) => match spec_make_items(kind, pos.drop_first(), sat_inc(number)) {
                Result::Err(e) => Result::Err(e),
                Result::Ok(rest) => Result::Ok(seq![entry] + rest),
            },
        }
    }
}

/// What constructing a node of the given kind from arguments yields: the
/// `start` option (enumerations only), then the items, then the `tight`
/// option; the first failure wins.
pub open spec fn spec_construct(kind: ListKind, a: ArgsV) -> Result<ContentV, ErrorV> {
    let start = if kind == ListKind::Enum {
        spec_start(a.named)
    } else {
        Result::Ok(1usize)
    };
    match start {
        Result::Err(e) => Result::Err(e),
        Result::Ok(start) => match spec_make_items(kind, a.positional, start) {
            Result::Err(e) => Result::Err(e),
            Result::Ok(items) => match spec_tight(a.named) {
                Result::Err(e) => Result::Err(e),
                Result::Ok(tight) => Result::Ok(
                    ContentV::Listing(ListNodeV { kind, tight, items }),
                ),
            },
        },
    }
}

impl ListNode {
    /// Construct a packed list node of the given kind from positional
    /// item bodies and the named options `start` (enumerations only,
    /// default 1) and `tight` (default true). Succeeds iff every coercion
    /// succeeds; any failure is reported at the arguments' span.
    #[verifier::rlimit(100)]
    pub fn construct(kind: ListKind, args: Args) -> (r: Result<Content, SourceError>)
        ensures
            match r {
                Result::Ok(c) => spec_construct(kind, args@) == Result::<ContentV, ErrorV>::Ok(c@)
                    && (c@ matches ContentV::Listing(n) && node_wf(n)),
                Result::Err(e) => spec_construct(kind, args@) == Result::<
                    ContentV,
                    ErrorV,
                >::Err(e@.error) && e@.span == args@.span,
            },
    {
        let span = args.span;
        let start: usize = if matches!(kind, ListKind::Enum) {
            match pairs_get(&args.named, "start") {
                Option::None => 1,
                Option::Some(v) => match v {
                    Value::Int(i) => {
                        if *i >= 0 && *i as u128 <= usize::MAX as u128 {
                            *i as usize
                        } else {
                            return Result::Err(
                                SourceError {
                                    span,
                                    error: Error::Cast {
                                        expected: String::from_str("non-negative integer"),
                                        found: String::from_str("integer"),
                                    },
                                },
                            );
                        }
                    },
                    other => {
                        return Result::Err(
                            SourceError {
                                span,
                                error: Error::Cast {
                                    expected: String::from_str("integer"),
                                    found: other.kind_name().to_owned(),
                                },
                            },
                        );
                    },
                },
            }
        } else {
            1
        };
        let ghost posv = varr_v(args.positional@);
        proof {
            lemma_varr_v(args.positional@);
            assert(posv.skip(0) =~= posv);
        }
        let mut entries: Vec<ListEntry> = Vec::new();
        let mut number: usize = start;
        let mut i: usize = 0;
        #[verifier::loop_isolation(false)]
        while i < args.positional.len()
            invariant
                i <= args.positional.len(),
                entries@.len() == i as int,
                forall|j: int|
                    0 <= j < i as int ==> item_kind((#[trigger] entries@[j]@).item) == kind,
                spec_make_items(kind, posv, start) == (match spec_make_items(
                    kind,
                    posv.skip(i as int),
                    number,
                ) {
                    Result::Ok(rest) => Result::<Seq<ListEntryV>, ErrorV>::Ok(
                        lentries_v(entries@) + rest,
                    ),
                    Result::Err(e) => Result::<Seq<ListEntryV>, ErrorV>::Err(e),
                }),
            decreases args.positional.len() - i,
        {
            proof {
                assert(posv.skip(i as int)[0] == posv[i as int]);
                assert(posv.skip(i as int).drop_first() =~= posv.skip(i as int + 1));
            }
            let v = args.positional[i].dup();
            let item: ListItem = match kind {
                ListKind::List => match to_content(v) {
                    Result::Ok(c) => ListItem::List(Box::new(c)),
                    Result::Err(e) => {
                        return Result::Err(SourceError { span, error: e });
                    },
                },
                ListKind::Enum => match to_content(v) {
                    Result::Ok(c) => ListItem::Enum(Option::Some(number), Box::new(c)),
                    Result::Err(e) => {
                        return Result::Err(SourceError { span, error: e });
                    },
                },
                ListKind::Desc => match DescItem::cast(v) {
                    Result::Ok(d) => ListItem::Desc(Box::new(d)),
                    Result::Err(e) => {
                        return Result::Err(SourceError { span, error: e });
                    },
                },
            };
            let entry = ListEntry { item, map: StyleMap::new() };
            let ghost pre_entries = entries@;
            entries.push(entry);
            proof {
                lemma_lentries_v(pre_entries);
                lemma_lentries_v(entries@);
                assert(lentries_v(entries@) =~= lentries_v(pre_entries) + seq![entry@]);
                assert(entry@ == spec_make_one(kind, posv[i as int], number)->Ok_0);
            }
            number = if number == usize::MAX {
                number
            } else {
                number + 1
            };
            i = i + 1;
            proof {
                match spec_make_items(kind, posv.skip(i as int), number) {
                    Result::Ok(rest) => {
                        assert((lentries_v(pre_entries) + (seq![entry@] + rest)) =~= (lentries_v(
                            entries@,
                        ) + rest));
                    },
                    Result::Err(e) => {},
                }
            }
        }
        proof {
            assert(posv.skip(i as int).len() == 0);
            assert(lentries_v(entries@) + Seq::<ListEntryV>::empty() =~= lentries_v(entries@));
        }
        let tight: bool = match pairs_get(&args.named, "tight") {
            Option::None => true,
            Option::Some(v) => match v {
                Value::Bool(b) => *b,
                other => {
                    return Result::Err(
                        SourceError {
                            span,
                            error: Error::Cast {
                                expected: String::from_str("boolean"),
                                found: other.kind_name().to_owned(),
                            },
                        },
                    );
                },
            },
        };
        let node = ListNode { kind, tight, items: entries };
        proof {
            assert(spec_make_items(kind, posv, start) == Result::<Seq<ListEntryV>, ErrorV>::Ok(
                lentries_v(entries@),
            ));
            assert(node@.items == lentries_v(entries@));
            lemma_lentries_v(entries@);
            assert(node_wf(node@));
        }
        Result::Ok(Content::Listing(Box::new(node)))
    }
}

// ------------------------------------------------------------------
// Introspection.
// ------------------------------------------------------------------
/// The displayable records of a node's items, in order.
pub open spec fn spec_encode_entries(entries: Seq<ListEntryV>) -> Seq<ValueV>
    decreases entries,
{
    if entries.len() == 0 {
        Seq::empty()
    } else {
        spec_encode_entries(entries.drop_last()).push(spec_encode(entries.last().item))
    }
}

proof fn lemma_encode_entries(entries: Seq<ListEntryV>)
    ensures
        spec_encode_entries(entries).len() == entries.len(),
        forall|i: int|
            0 <= i < entries.len() ==> #[trigger] spec_encode_entries(entries)[i] == spec_encode(
                entries[i].item,
            ),
    decreases entries.len(),
{
    if entries.len() == 0 {
    } else {
        lemma_encode_entries(entries.drop_last());
        assert(spec_encode_entries(entries) == spec_encode_entries(entries.drop_last()).push(
            spec_encode(entries.last().item),
        ));
        assert forall|i: int| 0 <= i < entries.len() implies #[trigger] spec_encode_entries(
            entries,
        )[i] == spec_encode(entries[i].item) by {
            if i < entries.len() - 1 {
                assert(entries.drop_last()[i] == entries[i]);
                assert(spec_encode_entries(entries)[i] == spec_encode_entries(
                    entries.drop_last(),
                )[i]);
            } else {
                assert(spec_encode_entries(entries)[i] == spec_encode(entries.last().item));
            }
        }
    }
}

/// The introspection surface of a node: its `tight` flag and its items as
/// displayable records; any other field is absent.
pub open spec fn spec_field(n: ListNodeV, name: Seq<char>) -> Option<ValueV> {
    if name == "tight"@ {
        Option::Some(ValueV::Bool(n.tight))
    } else if name == "items"@ {
        Option::Some(ValueV::Array(spec_encode_entries(n.items)))
    } else {
        Option::None
    }
}

impl ListNode {
    /// Expose a field of this node to the introspection surface.
    pub fn field(&self, name: &str) -> (r: Option<Value>)
        ensures
            match r {
                Option::Some(v) => spec_field(self@, name@) == Option::Some(v@),
                Option::None => spec_field(self@, name@) == Option::<ValueV>::None,
            },
    {
        if crate::registry::str_eq(name, "tight") {
            return Option::Some(Value::Bool(self.tight));
        }
        if crate::registry::str_eq(name, "items") {
            proof {
                lemma_lentries_v(self.items@);
            }
            let mut out: Vec<Value> = Vec::new();
            let mut i: usize = 0;
            #[verifier::loop_isolation(false)]
            while i < self.items.len()
                invariant
                    i <= self.items.len(),
                    out@.len() == i as int,
                    forall|j: int|
                        0 <= j < i as int ==> #[trigger] out@[j]@ == spec_encode(
                            self@.items[j].item,
                        ),
                decreases self.items.len() - i,
            {
                let v = self.items[i].item.encode();
                out.push(v);
                i = i + 1;
            }
            let r = Value::Array(out);
            proof {
                lemma_varr_v(out@);
                lemma_encode_entries(self@.items);
                match r@ {
                    ValueV::Array(a) => {
                        assert(a =~= spec_encode_entries(self@.items));
                    },
                    _ => {},
                }
            }
            return Option::Some(r);
        }
        Option::None
    }
}
// ------------------------------------------------------------------
// Layout: a list node becomes a four-column grid request.
// ------------------------------------------------------------------
/// A leftward horizontal shift by the given resolved amount.
pub open spec fn shift_of(amount: int) -> Length {
    Length { abs: (-amount) as i64, em: 0 }
}

/// The body cell of one item: the item's own body for plain and numbered
/// lists; for a description item, a hanging synthesis of a negative
/// body-indent shift, the term rendered strong with a literal colon, a
/// space, and the description body.
pub open spec fn spec_body_content(item: ItemV, shift: Length) -> ContentV {
    match item {
        ItemV::List(body) => body,
        ItemV::Enum(_, body) => body,
        ItemV::Desc(d) => ContentV::Sequence(
            seq![
                ContentV::Shift(shift),
                ContentV::Strong(
                    Box::new(ContentV::Sequence(seq![d.term, ContentV::Text(seq![':'])])),
                ),
                ContentV::Space,
                d.body,
            ],
        ),
    }
}

/// The label cell's content for a non-callback label strategy.
pub open spec fn spec_label_content(label: LabelV, kind: ListKind, number: usize) -> ContentV {
    match label {
        LabelV::Default => if kind == ListKind::List {
            ContentV::Text(seq!['\u{2022}'])
        } else {
            ContentV::Text(crate::numbering::spec_decimal(number as nat).push('.'))
        },
        LabelV::Pattern(p, n, u, s) => ContentV::Text(
            p + crate::numbering::spec_apply(n, u, number as nat) + s,
        ),
        LabelV::Content(c) => c,
        LabelV::Func(_, _) => ContentV::Empty,
    }
}

/// The inter-item gutter: the paragraph leading for a tight list, else the
/// explicit spacing override if set, else the ambient space below a block.
pub open spec fn spec_gutter(tight: bool, c: crate::styles::StyleChainV) -> int {
    let fs = crate::styles::spec_get_font_size(c) as int;
    if tight {
        crate::styles::spec_resolve(crate::styles::spec_get_leading(c.maps), fs)
    } else {
        match crate::styles::spec_get_spacing(c.maps) {
            crate::model::Smart::Custom(l) => crate::styles::spec_resolve(l, fs),
            crate::model::Smart::Auto => crate::styles::spec_resolve(
                crate::styles::spec_get_below(c.maps),
                fs,
            ),
        }
    }
}

/// The running counter's value at item `i`: an explicit number resets it,
/// otherwise it continues from the previous item, starting at 1 and
/// saturating at the machine maximum.
pub open spec fn spec_number_at(items: Seq<ListEntryV>, i: int) -> usize
    decreases i,
{
    if 0 <= i < items.len() && (items[i].item matches ItemV::Enum(Option::Some(n), _)) {
        items[i].item->Enum_0->Some_0
    } else if i <= 0 {
        1
    } else {
        sat_inc(spec_number_at(items, i - 1))
    }
}

/// Everything this core decides about a grid built from a list node: four
/// column tracks (fixed indent, automatic label, fixed body indent,
/// automatic body), a uniform row gutter, exactly four cells per item with
/// empty spacer columns, every body cell the item's synthesized body under
/// its own override map, and, whenever the label strategy is not a
/// callback, every label cell the resolved label under the item's map
/// (empty for description lists).
pub open spec fn grid_matches(
    g: crate::world::GridNodeV,
    node: ListNodeV,
    c: crate::styles::StyleChainV,
) -> bool {
    let fs = crate::styles::spec_get_font_size(c) as int;
    let indent = crate::styles::spec_resolve(crate::styles::spec_get_indent(c.maps), fs);
    let bi = crate::styles::spec_resolve(
        crate::styles::spec_get_body_indent(c.maps, node.kind),
        fs,
    );
    let label = crate::styles::spec_get_label(c.maps);
    let n = node.items.len() as int;
    &&& g.tracks == seq![
        crate::world::TrackSizing::Fixed(indent as i64),
        crate::world::TrackSizing::Auto,
        crate::world::TrackSizing::Fixed(bi as i64),
        crate::world::TrackSizing::Auto,
    ]
    &&& g.gutter as int == spec_gutter(node.tight, c)
    &&& g.cells.len() == 4 * n
    &&& forall|i: int| 0 <= i < n ==> #[trigger] g.cells[4 * i] == ContentV::Empty
    &&& forall|i: int| 0 <= i < n ==> #[trigger] g.cells[4 * i + 2] == ContentV::Empty
    &&& forall|i: int|
        0 <= i < n ==> #[trigger] g.cells[4 * i + 3] == ContentV::Styled(
            Box::new(spec_body_content(node.items[i].item, shift_of(bi))),
            Box::new(node.items[i].map),
        )
    &&& node.kind == ListKind::Desc ==> forall|i: int|
        0 <= i < n ==> #[trigger] g.cells[4 * i + 1] == ContentV::Empty
    &&& (node.kind != ListKind::Desc && !(label is Func)) ==> forall|i: int|
        0 <= i < n ==> #[trigger] g.cells[4 * i + 1] == ContentV::Styled(
            Box::new(spec_label_content(label, node.kind, spec_number_at(node.items, i))),
            Box::new(node.items[i].map),
        )
}

impl ListNode {
    /// Assemble this node's grid layout request: resolve the label
    /// strategy, indents and gutter once, then emit four cells per item in
    /// original order, maintaining the running counter. Fails only when a
    /// label callback fails, with that failure, and then produces nothing.
    pub fn build_grid<W: crate::world::World>(&self, world: &mut W, styles: &StyleChain) -> (r:
        Result<crate::world::GridNode, SourceError>)
        requires
            node_wf(self@),
            crate::styles::chain_wf(styles@),
        ensures
            r matches Result::Ok(g) ==> grid_matches(g@, self@, styles@),
            r matches Result::Err(e) ==> (crate::styles::spec_get_label(styles@.maps) is Func
                && e@.error is LabelCallbackFailure),
            !(crate::styles::spec_get_label(styles@.maps) is Func) ==> r is Ok,
    {
        let ghost itemsv = self@.items;
        proof {
            lemma_lentries_v(self.items@);
        }
        let label = styles.get_label();
        let fs = styles.font_size();
        let indent = crate::styles::resolve_len(styles.get_indent(), fs);
        let body_indent = crate::styles::resolve_len(styles.get_body_indent(self.kind), fs);
        let gutter: i64 = if self.tight {
            crate::styles::resolve_len(styles.get_leading(), fs)
        } else {
            match styles.get_spacing() {
                crate::model::Smart::Custom(l) => crate::styles::resolve_len(l, fs),
                crate::model::Smart::Auto => crate::styles::resolve_len(styles.get_below(), fs),
            }
        };
        let mut cells: Vec<Content> = Vec::new();
        let mut number: usize = 1;
        let mut i: usize = 0;
        #[verifier::loop_isolation(false)]
        while i < self.items.len()
            invariant
                i <= self.items.len(),
                cells@.len() == 4 * i as int,
                i as int == 0 ==> number == 1,
                i as int > 0 ==> number == sat_inc(spec_number_at(itemsv, i as int - 1)),
                forall|j: int| 0 <= j < i as int ==> #[trigger] cells@[4 * j]@ == ContentV::Empty,
                forall|j: int|
                    0 <= j < i as int ==> #[trigger] cells@[4 * j + 2]@ == ContentV::Empty,
                forall|j: int|
                    0 <= j < i as int ==> #[trigger] cells@[4 * j + 3]@ == ContentV::Styled(
                        Box::new(
                            spec_body_content(itemsv[j].item, shift_of(body_indent as int)),
                        ),
                        Box::new(itemsv[j].map),
                    ),
                self@.kind == ListKind::Desc ==> forall|j: int|
                    0 <= j < i as int ==> #[trigger] cells@[4 * j + 1]@ == ContentV::Empty,
                (self@.kind != ListKind::Desc && !(label@ is Func)) ==> forall|j: int|
                    0 <= j < i as int ==> #[trigger] cells@[4 * j + 1]@ == ContentV::Styled(
                        Box::new(
                            spec_label_content(label@, self@.kind, spec_number_at(itemsv, j)),
                        ),
                        Box::new(itemsv[j].map),
                    ),
            decreases self.items.len() - i,
        {
            let ghost iv = i as int;
            let entry = &self.items[i];
            match &entry.item {
                ListItem::Enum(n_opt, _) => {
                    match n_opt {
                        Option::Some(n) => {
                            number = *n;
                        },
                        Option::None => {},
                    }
                },
                _ => {},
            }
            proof {
                assert(entry@ == itemsv[iv]);
                assert(number == spec_number_at(itemsv, iv));
            }
            cells.push(Content::Empty);
            let label_cell: Content = if matches!(self.kind, ListKind::Desc) {
                Content::Empty
            } else {
                let resolved = match label.resolve(world, self.kind, number) {
                    Result::Ok(c) => c,
                    Result::Err(e) => {
                        return Result::Err(e);
                    },
                };
                proof {
                    if !(label@ is Func) {
                        assert(resolved@ == spec_label_content(label@, self@.kind, number));
                    }
                }
                resolved.styled_with_map(entry.map.dup())
            };
            cells.push(label_cell);
            cells.push(Content::Empty);
            let body: Content = match &entry.item {
                ListItem::List(b) => b.dup(),
                ListItem::Enum(_, b) => b.dup(),
                ListItem::Desc(d) => {
                    let mut inner: Vec<Content> = Vec::new();
                    inner.push(d.term.dup());
                    proof {
                        reveal_strlit(":");
                    }
                    let colon = String::from_str(":");
                    proof {
                        assert(colon@ =~= seq![':']);
                    }
                    inner.push(Content::Text(colon));
                    let ghost innerv = inner@;
                    let inner_content = Content::Sequence(inner);
                    let ghost icv = inner_content@;
                    proof {
                        assert(icv == ContentV::Sequence(centries_v(innerv)));
                    }
                    let strong = Content::Strong(Box::new(inner_content));
                    let ghost strongv = strong@;
                    proof {
                        assert(strongv == ContentV::Strong(Box::new(icv)));
                    }
                    let mut parts: Vec<Content> = Vec::new();
                    parts.push(Content::Shift(Length { abs: -body_indent, em: 0 }));
                    parts.push(strong);
                    parts.push(Content::Space);
                    parts.push(d.body.dup());
                    let ghost partsv = parts@;
                    let b = Content::Sequence(parts);
                    proof {
                        lemma_centries_v(partsv);
                        lemma_centries_v(innerv);
                        assert(centries_v(innerv) =~= seq![(**d)@.term, ContentV::Text(seq![':'])]);
                        assert(partsv.len() == 4);
                        assert(partsv[0]@ == ContentV::Shift(
                            Length { abs: (-body_indent) as i64, em: 0 },
                        ));
                        assert((Length { abs: (-body_indent) as i64, em: 0 }) == shift_of(
                            body_indent as int,
                        ));
                        assert(partsv[1]@ == strongv);
                        assert(strongv == ContentV::Strong(
                            Box::new(ContentV::Sequence(centries_v(innerv))),
                        ));
                        assert(partsv[2]@ == ContentV::Space);
                        assert(partsv[3]@ == (**d)@.body);
                        assert(centries_v(partsv) =~= seq![
                            ContentV::Shift(shift_of(body_indent as int)),
                            ContentV::Strong(
                                Box::new(
                                    ContentV::Sequence(
                                        seq![(**d)@.term, ContentV::Text(seq![':'])],
                                    ),
                                ),
                            ),
                            ContentV::Space,
                            (**d)@.body,
                        ]);
                        assert(b@ == spec_body_content(
                            itemsv[iv].item,
                            shift_of(body_indent as int),
                        ));
                    }
                    b
                },
            };
            cells.push(body.styled_with_map(entry.map.dup()));
            proof {
                assert(cells@[4 * iv]@ == ContentV::Empty);
                assert(cells@[4 * iv + 2]@ == ContentV::Empty);
                assert(cells@[4 * iv + 3]@ == ContentV::Styled(
                    Box::new(spec_body_content(itemsv[iv].item, shift_of(body_indent as int))),
                    Box::new(itemsv[iv].map),
                ));
            }
            number = if number == usize::MAX {
                number
            } else {
                number + 1
            };
            i = i + 1;
        }
        let mut tracks: Vec<crate::world::TrackSizing> = Vec::new();
        tracks.push(crate::world::TrackSizing::Fixed(indent));
        tracks.push(crate::world::TrackSizing::Auto);
        tracks.push(crate::world::TrackSizing::Fixed(body_indent));
        tracks.push(crate::world::TrackSizing::Auto);
        let ghost cellsv = cells@;
        let g = crate::world::GridNode { tracks, gutter, cells };
        proof {
            assert(g@.tracks =~= seq![
                crate::world::TrackSizing::Fixed(indent),
                crate::world::TrackSizing::Auto,
                crate::world::TrackSizing::Fixed(body_indent),
                crate::world::TrackSizing::Auto,
            ]);
            lemma_centries_v(cellsv);
            assert(g@.cells.len() == cellsv.len());
            assert forall|k: int| 0 <= k < cellsv.len() implies #[trigger] g@.cells[k]
                == cellsv[k]@ by {
                assert(centries_v(cellsv)[k] == cellsv[k]@);
            }
        }
        Result::Ok(g)
    }
}

impl ListNode {
    /// Lay this node out: build its grid request and hand it to the
    /// environment's grid primitive, which fragments it across the given
    /// regions. A label callback failure aborts the whole list with that
    /// failure and hands nothing to the grid primitive, so no partial
    /// output exists. Otherwise the grid handed over is exactly the one
    /// [`ListNode::build_grid`] pins down; a failure while laying any
    /// item's body out inside the grid primitive aborts the whole list as
    /// an item layout failure, and the frames of a success are whatever
    /// the environment returns. The ghost result records whether a grid
    /// was handed over.
    pub fn layout_block<W: crate::world::World>(
        &self,
        world: &mut W,
        regions: &crate::world::Regions,
        styles: &StyleChain,
    ) -> (r: (Result<Vec<crate::world::Frame>, SourceError>, Ghost<Option<crate::world::GridNodeV>>))
        requires
            node_wf(self@),
            crate::styles::chain_wf(styles@),
        ensures
            r.1@ matches Option::Some(g) ==> grid_matches(g, self@, styles@),
            r.1@ is None ==> (r.0 matches Result::Err(e) && e@.error is LabelCallbackFailure),
            r.1@ is Some ==> (r.0 matches Result::Err(e) ==> e@.error is ItemLayoutFailure),
            !(crate::styles::spec_get_label(styles@.maps) is Func) ==> r.1@ is Some,
    {
        let g = match self.build_grid(world, styles) {
            Result::Ok(g) => g,
            Result::Err(e) => {
                return (Result::Err(e), Ghost(Option::None));
            },
        };
        let ghost gv = g@;
        match world.layout_grid(g, regions) {
            Result::Ok(frames) => (Result::Ok(frames), Ghost(Option::Some(gv))),
            Result::Err(inner) => {
                let span = inner.span;
                let wrapped = SourceError {
                    span,
                    error: Error::ItemLayoutFailure { inner: Box::new(inner) },
                };
                (Result::Err(wrapped), Ghost(Option::Some(gv)))
            },
        }
    }
}

} // verus!
