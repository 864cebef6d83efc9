//! The native type registry: canonical, introspectable descriptors for the
//! value kinds the scripting layer works with.
//!
//! Exactly one descriptor exists per native kind for the registry's lifetime;
//! it is created lazily, on first access, and never changes afterwards. A
//! [`Type`] is a handle; two handles are equal iff they reference the same
//! descriptor instance, independently of the descriptor's name strings.
use vstd::prelude::*;

use crate::diag::{Error, ErrorV};
use crate::model::{Func, Value, ValueV};

verus! {

broadcast use vstd::std_specs::vec::group_vec_axioms;

use vstd::string::{StrSliceExecFns, StringExecFns};

/// A handle to one registered type descriptor. Equality and hashing go by
/// descriptor identity, never by name.
#[derive(Clone, Copy, PartialEq, Eq, Structural, Hash, Debug)]
pub struct Type {
    pub id: usize,
}

/// The native value kinds the registry describes.
#[derive(Clone, Copy, PartialEq, Eq, Structural, Hash, Debug)]
pub enum NativeKind {
    NoneVal,
    Bool,
    Int,
    Str,
    Content,
    Func,
    Array,
    Dict,
    Ty,
}

/// An order-irrelevant mapping from member names to values, attached to a
/// type to expose its static fields and methods.
#[derive(Debug)]
pub struct Scope {
    pub entries: Vec<(String, Value)>,
}

/// Mathematical model of a [`Scope`]: its name/value pairs in insertion
/// order.
pub type ScopeV = Seq<(Seq<char>, ValueV)>;

impl View for Scope {
    type V = ScopeV;

    open spec fn view(&self) -> ScopeV {
        Seq::new(
            self.entries@.len(),
            |i: int|
                if 0 <= i < self.entries@.len() {
                    (self.entries@[i].0@, self.entries@[i].1@)
                } else {
                    (Seq::empty(), ValueV::NoneVal)
                },
        )
    }
}

/// Spec-level first-match lookup among name/value pairs.
pub open spec fn spec_scope_get(pairs: ScopeV, key: Seq<char>) -> Option<ValueV>
    decreases pairs.len(),
{
    if pairs.len() == 0 {
        Option::None
    } else if pairs[0].0 == key {
        Option::Some(pairs[0].1)
    } else {
        spec_scope_get(pairs.drop_first(), key)
    }
}

proof fn lemma_scope_get_at(pairs: ScopeV, key: Seq<char>, j: int)
    requires
        0 <= j < pairs.len(),
        forall|jj: int| 0 <= jj < j ==> (#[trigger] pairs[jj]).0 != key,
        pairs[j].0 == key,
    ensures
        spec_scope_get(pairs, key) == Option::Some(pairs[j].1),
    decreases j,
{
    if j > 0 {
        lemma_scope_get_at(pairs.drop_first(), key, j - 1);
    }
}

proof fn lemma_scope_get_none(pairs: ScopeV, key: Seq<char>)
    requires
        forall|jj: int| 0 <= jj < pairs.len() ==> (#[trigger] pairs[jj]).0 != key,
    ensures
        spec_scope_get(pairs, key) == Option::<ValueV>::None,
    decreases pairs.len(),
{
    if pairs.len() > 0 {
        lemma_scope_get_none(pairs.drop_first(), key);
    }
}

/// Whether two string slices hold the same characters.
pub fn str_eq(a: &str, b: &str) -> (r: bool)
    ensures
        r == (a@ == b@),
{
    let la = a.unicode_len();
    let lb = b.unicode_len();
    if la != lb {
        proof {
            assert(a@.len() != b@.len());
        }
        return false;
    }
    let mut i: usize = 0;
    #[verifier::loop_isolation(false)]
    while i < la
        invariant
            i <= la,
            forall|j: int| 0 <= j < i as int ==> a@[j] == b@[j],
        decreases la - i,
    {
        if a.get_char(i) != b.get_char(i) {
            return false;
        }
        i = i + 1;
    }
    proof {
        assert(a@ =~= b@);
    }
    true
}

impl Scope {
    /// An empty scope.
    pub fn new() -> (r: Scope)
        ensures
            r@ == Seq::<(Seq<char>, ValueV)>::empty(),
    {
        let r = Scope { entries: Vec::new() };
        proof {
            assert(r@ =~= Seq::<(Seq<char>, ValueV)>::empty());
        }
        r
    }

    /// Add a member at the end of the scope.
    pub fn define(&mut self, name: String, value: Value)
        ensures
            final(self)@ == old(self)@.push((name@, value@)),
    {
        let ghost pre = self@;
        self.entries.push((name, value));
        proof {
            assert(self@ =~= pre.push((name@, value@)));
        }
    }

    /// Look a member up by name; absence is reported explicitly, never
    /// silently.
    pub fn get<'a>(&'a self, name: &str) -> (r: Option<&'a Value>)
        ensures
            match r {
                Option::Some(v) => spec_scope_get(self@, name@) == Option::Some(v@),
                Option::None => spec_scope_get(self@, name@) == Option::<ValueV>::None,
            },
    {
        let mut i: usize = 0;
        #[verifier::loop_isolation(false)]
        while i < self.entries.len()
            invariant
                i <= self.entries.len(),
                forall|j: int| 0 <= j < i as int ==> (#[trigger] self@[j]).0 != name@,
            decreases self.entries.len() - i,
        {
            if str_eq(self.entries[i].0.as_str(), name) {
                proof {
                    lemma_scope_get_at(self@, name@, i as int);
                }
                return Option::Some(&self.entries[i].1);
            }
            i = i + 1;
        }
        proof {
            lemma_scope_get_none(self@, name@);
        }
        Option::None
    }
}

/// One type's immutable descriptor.
#[derive(Debug)]
pub struct NativeTypeData {
    pub short_name: String,
    pub long_name: String,
    pub title: String,
    pub docs: String,
    pub keywords: Vec<String>,
    pub constructor: Option<Func>,
    pub scope: Scope,
}

/// Mathematical model of a [`NativeTypeData`].
pub struct NativeTypeDataV {
    pub short_name: Seq<char>,
    pub long_name: Seq<char>,
    pub title: Seq<char>,
    pub docs: Seq<char>,
    pub keywords: Seq<Seq<char>>,
    pub constructor: Option<Func>,
    pub scope: ScopeV,
}

/// The views of a sequence of strings.
pub open spec fn str_views(s: Seq<String>) -> Seq<Seq<char>> {
    Seq::new(
        s.len(),
        |i: int|
            if 0 <= i < s.len() {
                s[i]@
            } else {
                Seq::empty()
            },
    )
}

impl View for NativeTypeData {
    type V = NativeTypeDataV;

    open spec fn view(&self) -> NativeTypeDataV {
        NativeTypeDataV {
            short_name: self.short_name@,
            long_name: self.long_name@,
            title: self.title@,
            docs: self.docs@,
            keywords: str_views(self.keywords@),
            constructor: self.constructor,
            scope: self.scope@,
        }
    }
}

/// The process-wide registry of type descriptors. Descriptors are appended
/// on first access and never modified or removed.
#[derive(Debug)]
pub struct Registry {
    pub types: Vec<NativeTypeData>,
    pub natives: Vec<(NativeKind, usize)>,
}

/// Mathematical model of a [`Registry`].
pub struct RegistryV {
    pub types: Seq<NativeTypeDataV>,
    pub natives: Seq<(NativeKind, usize)>,
}

impl View for Registry {
    type V = RegistryV;

    open spec fn view(&self) -> RegistryV {
        RegistryV {
            types: Seq::new(
                self.types@.len(),
                |i: int|
                    if 0 <= i < self.types@.len() {
                        self.types@[i]@
                    } else {
                        NativeTypeDataV {
                            short_name: Seq::empty(),
                            long_name: Seq::empty(),
                            title: Seq::empty(),
                            docs: Seq::empty(),
                            keywords: Seq::empty(),
                            constructor: Option::None,
                            scope: Seq::empty(),
                        }
                    },
            ),
            natives: self.natives@,
        }
    }
}

/// Spec-level first-match lookup of a native kind's memoized descriptor.
pub open spec fn spec_native_lookup(natives: Seq<(NativeKind, usize)>, kind: NativeKind) -> Option<
    usize,
>
    decreases natives.len(),
{
    if natives.len() == 0 {
        Option::None
    } else if natives[0].0 == kind {
        Option::Some(natives[0].1)
    } else {
        spec_native_lookup(natives.drop_first(), kind)
    }
}

proof fn lemma_native_lookup_at(natives: Seq<(NativeKind, usize)>, kind: NativeKind, j: int)
    requires
        0 <= j < natives.len(),
        forall|jj: int| 0 <= jj < j ==> (#[trigger] natives[jj]).0 != kind,
        natives[j].0 == kind,
    ensures
        spec_native_lookup(natives, kind) == Option::Some(natives[j].1),
    decreases j,
{
    if j > 0 {
        lemma_native_lookup_at(natives.drop_first(), kind, j - 1);
    }
}

proof fn lemma_native_lookup_none(natives: Seq<(NativeKind, usize)>, kind: NativeKind)
    requires
        forall|jj: int| 0 <= jj < natives.len() ==> (#[trigger] natives[jj]).0 != kind,
    ensures
        spec_native_lookup(natives, kind) == Option::<usize>::None,
    decreases natives.len(),
{
    if natives.len() > 0 {
        lemma_native_lookup_none(natives.drop_first(), kind);
    }
}

/// The compiled-in descriptor of a native kind.
pub open spec fn spec_builtin(kind: NativeKind) -> NativeTypeDataV {
    match kind {
        NativeKind::NoneVal => NativeTypeDataV {
            short_name: "none"@,
            long_name: "none"@,
            title: "None"@,
            docs: "The absence of a value."@,
            keywords: Seq::empty(),
            constructor: Option::None,
            scope: Seq::empty(),
        },
        NativeKind::Bool => NativeTypeDataV {
            short_name: "bool"@,
            long_name: "boolean"@,
            title: "Boolean"@,
            docs: "Either true or false."@,
            keywords: Seq::empty(),
            constructor: Option::None,
            scope: Seq::empty(),
        },
        NativeKind::Int => NativeTypeDataV {
            short_name: "int"@,
            long_name: "integer"@,
            title: "Integer"@,
            docs: "A whole number."@,
            keywords: seq!["number"@],
            constructor: Option::Some(Func(1)),
            scope: seq![("max"@, ValueV::Int(9223372036854775807))],
        },
        NativeKind::Str => NativeTypeDataV {
            short_name: "str"@,
            long_name: "string"@,
            title: "String"@,
            docs: "A sequence of characters."@,
            keywords: seq!["text"@],
            constructor: Option::Some(Func(2)),
            scope: seq![("from-unicode"@, ValueV::Func(Func(20)))],
        },
        NativeKind::Content => NativeTypeDataV {
            short_name: "content"@,
            long_name: "content"@,
            title: "Content"@,
            docs: "A piece of document content."@,
            keywords: Seq::empty(),
            constructor: Option::None,
            scope: Seq::empty(),
        },
        NativeKind::Func => NativeTypeDataV {
            short_name: "func"@,
            long_name: "function"@,
            title: "Function"@,
            docs: "A mapping from arguments to a result."@,
            keywords: Seq::empty(),
            constructor: Option::None,
            scope: Seq::empty(),
        },
        NativeKind::Array => NativeTypeDataV {
            short_name: "array"@,
            long_name: "array"@,
            title: "Array"@,
            docs: "An ordered sequence of values."@,
            keywords: Seq::empty(),
            constructor: Option::Some(Func(3)),
            scope: Seq::empty(),
        },
        NativeKind::Dict => NativeTypeDataV {
            short_name: "dict"@,
            long_name: "dictionary"@,
            title: "Dictionary"@,
            docs: "A mapping from string keys to values."@,
            keywords: Seq::empty(),
            constructor: Option::Some(Func(4)),
            scope: Seq::empty(),
        },
        NativeKind::Ty => NativeTypeDataV {
            short_name: "type"@,
            long_name: "type"@,
            title: "Type"@,
            docs: "Describes a kind of value."@,
            keywords: Seq::empty(),
            constructor: Option::Some(Func(5)),
            scope: Seq::empty(),
        },
    }
}

fn builtin_data(kind: NativeKind) -> (d: NativeTypeData)
    ensures
        d@ == spec_builtin(kind),
{
    let (short_name, long_name, title, docs): (&'static str, &'static str, &'static str, &'static str) =
        match kind {
        NativeKind::NoneVal => ("none", "none", "None", "The absence of a value."),
        NativeKind::Bool => ("bool", "boolean", "Boolean", "Either true or false."),
        NativeKind::Int => ("int", "integer", "Integer", "A whole number."),
        NativeKind::Str => ("str", "string", "String", "A sequence of characters."),
        NativeKind::Content => ("content", "content", "Content", "A piece of document content."),
        NativeKind::Func => ("func", "function", "Function", "A mapping from arguments to a result."),
        NativeKind::Array => ("array", "array", "Array", "An ordered sequence of values."),
        NativeKind::Dict => ("dict", "dictionary", "Dictionary", "A mapping from string keys to values."),
        NativeKind::Ty => ("type", "type", "Type", "Describes a kind of value."),
    };
    let mut keywords: Vec<String> = Vec::new();
    match kind {
        NativeKind::Int => keywords.push(String::from_str("number")),
        NativeKind::Str => keywords.push(String::from_str("text")),
        _ => (),
    }
    let constructor: Option<Func> = match kind {
        NativeKind::Int => Option::Some(Func(1)),
        NativeKind::Str => Option::Some(Func(2)),
        NativeKind::Array => Option::Some(Func(3)),
        NativeKind::Dict => Option::Some(Func(4)),
        NativeKind::Ty => Option::Some(Func(5)),
        _ => Option::None,
    };
    let mut scope = Scope::new();
    match kind {
        NativeKind::Int => scope.define(
            String::from_str("max"),
            Value::Int(9223372036854775807),
        ),
        NativeKind::Str => scope.define(
            String::from_str("from-unicode"),
            Value::Func(Func(20)),
        ),
        _ => (),
    }
    let d = NativeTypeData {
        short_name: String::from_str(short_name),
        long_name: String::from_str(long_name),
        title: String::from_str(title),
        docs: String::from_str(docs),
        keywords,
        constructor,
        scope,
    };
    proof {
        assert(d@.keywords =~= spec_builtin(kind).keywords);
        assert(d@.scope =~= spec_builtin(kind).scope);
    }
    d
}

/// A registry is well formed when every memoized native kind points at a
/// descriptor slot holding exactly that kind's compiled-in data, and no kind
/// is memoized twice.
pub open spec fn reg_wf(r: RegistryV) -> bool {
    &&& forall|i: int|
        0 <= i < r.natives.len() ==> (#[trigger] r.natives[i]).1 < r.types.len() && r.types[
            r.natives[i].1 as int
        ] == spec_builtin(r.natives[i].0)
    &&& forall|i: int, j: int|
        0 <= i < j < r.natives.len() ==> (#[trigger] r.natives[i]).0 != (#[trigger] r.natives[j]).0
}

/// What looking a native kind's descriptor handle up does to the registry:
/// the memoized handle if there is one, otherwise the registry grown by the
/// kind's descriptor and the fresh handle.
pub open spec fn spec_of(r: RegistryV, kind: NativeKind) -> (RegistryV, Type) {
    match spec_native_lookup(r.natives, kind) {
        Option::Some(i) => (r, Type { id: i }),
        Option::None => (
            RegistryV {
                types: r.types.push(spec_builtin(kind)),
                natives: r.natives.push((kind, r.types.len() as usize)),
            },
            Type { id: r.types.len() as usize },
        ),
    }
}

impl Registry {
    /// An empty registry; descriptors appear on first access.
    pub fn new() -> (r: Registry)
        ensures
            r@.types.len() == 0,
            r@.natives.len() == 0,
            reg_wf(r@),
    {
        let r = Registry { types: Vec::new(), natives: Vec::new() };
        proof {
            assert(r@.types =~= Seq::<NativeTypeDataV>::empty());
        }
        r
    }

    /// How many descriptors exist so far.
    pub fn len(&self) -> (n: usize)
        ensures
            n == self@.types.len(),
    {
        self.types.len()
    }

    /// Register a library-defined type and hand out its fresh descriptor
    /// handle. Each call creates a new descriptor instance, even if an
    /// existing one coincidentally shares its names.
    pub fn register(&mut self, data: NativeTypeData) -> (t: Type)
        requires
            reg_wf(old(self)@),
        ensures
            reg_wf(final(self)@),
            final(self)@.natives == old(self)@.natives,
            final(self)@.types == old(self)@.types.push(data@),
            t.id == old(self)@.types.len(),
    {
        let ghost pre = self@;
        let id = self.types.len();
        self.types.push(data);
        proof {
            assert(self@.types =~= pre.types.push(data@));
        }
        Type { id }
    }
}

impl Type {
    /// Whether this handle points into the registry.
    pub open spec fn valid(self, r: RegistryV) -> bool {
        self.id < r.types.len()
    }

    /// The singleton descriptor handle for a native kind. Computed once,
    /// lazily, on first access; later calls return the memoized handle.
    pub fn of(kind: NativeKind, reg: &mut Registry) -> (t: Type)
        requires
            reg_wf(old(reg)@),
        ensures
            reg_wf(final(reg)@),
            (final(reg)@, t) == spec_of(old(reg)@, kind),
            t.valid(final(reg)@),
            final(reg)@.types[t.id as int] == spec_builtin(kind),
    {
        let ghost pre = reg@;
        let mut i: usize = 0;
        #[verifier::loop_isolation(false)]
        while i < reg.natives.len()
            invariant
                reg@ == pre,
                i <= reg.natives.len(),
                forall|j: int| 0 <= j < i as int ==> (#[trigger] pre.natives[j]).0 != kind,
            decreases reg.natives.len() - i,
        {
            if reg.natives[i].0 == kind {
                let t = Type { id: reg.natives[i].1 };
                proof {
                    lemma_native_lookup_at(pre.natives, kind, i as int);
                }
                return t;
            }
            i = i + 1;
        }
        proof {
            lemma_native_lookup_none(pre.natives, kind);
        }
        let data = builtin_data(kind);
        let id = reg.types.len();
        reg.types.push(data);
        reg.natives.push((kind, id));
        proof {
            assert(reg@.types =~= pre.types.push(spec_builtin(kind)));
            assert(reg@.natives =~= pre.natives.push((kind, pre.types.len() as usize)));
        }
        Type { id }
    }

    /// The type's short name, as used in code.
    pub fn short_name<'a>(&self, reg: &'a Registry) -> (r: &'a String)
        requires
            self.valid(reg@),
        ensures
            r@ == reg@.types[self.id as int].short_name,
    {
        &reg.types[self.id].short_name
    }

    /// The type's long name, as used in diagnostics.
    pub fn long_name<'a>(&self, reg: &'a Registry) -> (r: &'a String)
        requires
            self.valid(reg@),
        ensures
            r@ == reg@.types[self.id as int].long_name,
    {
        &reg.types[self.id].long_name
    }

    /// The type's title-case name, as used in documentation.
    pub fn title<'a>(&self, reg: &'a Registry) -> (r: &'a String)
        requires
            self.valid(reg@),
        ensures
            r@ == reg@.types[self.id as int].title,
    {
        &reg.types[self.id].title
    }

    /// The type's documentation.
    pub fn docs<'a>(&self, reg: &'a Registry) -> (r: &'a String)
        requires
            self.valid(reg@),
        ensures
            r@ == reg@.types[self.id as int].docs,
    {
        &reg.types[self.id].docs
    }

    /// The type's search keywords.
    pub fn keywords<'a>(&self, reg: &'a Registry) -> (r: &'a Vec<String>)
        requires
            self.valid(reg@),
        ensures
            str_views(r@) == reg@.types[self.id as int].keywords,
    {
        &reg.types[self.id].keywords
    }

    /// The type's associated scope of static members.
    pub fn scope<'a>(&self, reg: &'a Registry) -> (r: &'a Scope)
        requires
            self.valid(reg@),
        ensures
            r@ == reg@.types[self.id as int].scope,
    {
        &reg.types[self.id].scope
    }

    /// The registered constructor, or a `ConstructorMissing` error naming the
    /// type iff the kind declares none.
    pub fn constructor(&self, reg: &Registry) -> (r: Result<Func, Error>)
        requires
            self.valid(reg@),
        ensures
            match reg@.types[self.id as int].constructor {
                Option::Some(f) => r == Result::<Func, Error>::Ok(f),
                Option::None => r matches Result::Err(e) && e@ == (ErrorV::ConstructorMissing {
                    ty: reg@.types[self.id as int].long_name,
                }),
            },
    {
        match &reg.types[self.id].constructor {
            Option::Some(f) => Result::Ok(*f),
            Option::None => Result::Err(
                Error::ConstructorMissing { ty: self.long_name(reg).clone() },
            ),
        }
    }

    /// The named static member of this type's scope, or a `FieldMissing`
    /// error naming the type and the field iff the scope has no such member.
    pub fn field<'a>(&self, reg: &'a Registry, field: &str) -> (r: Result<&'a Value, Error>)
        requires
            self.valid(reg@),
        ensures
            match spec_scope_get(reg@.types[self.id as int].scope, field@) {
                Option::Some(v) => r matches Result::Ok(got) && got@ == v,
                Option::None => r matches Result::Err(e) && e@ == (ErrorV::FieldMissing {
                    ty: reg@.types[self.id as int].long_name,
                    field: field@,
                }),
            },
    {
        match self.scope(reg).get(field) {
            Option::Some(v) => Result::Ok(v),
            Option::None => Result::Err(
                Error::FieldMissing {
                    ty: self.long_name(reg).clone(),
                    field: String::from_str(field),
                },
            ),
        }
    }

    /// A descriptor reference converts to a type-object value.
    pub fn into_value(self) -> (r: Value)
        ensures
            r@ == ValueV::Type(self),
    {
        Value::Type(self)
    }

    /// Determine a value's type: the constructor of the type kind.
    pub fn construct(value: &Value, reg: &mut Registry) -> (t: Type)
        requires
            reg_wf(old(reg)@),
        ensures
            reg_wf(final(reg)@),
            (final(reg)@, t) == spec_of(old(reg)@, spec_kind_of(value@)),
    {
        value.ty(reg)
    }
}

/// The native kind a value belongs to.
pub open spec fn spec_kind_of(v: ValueV) -> NativeKind {
    match v {
        ValueV::NoneVal => NativeKind::NoneVal,
        ValueV::Bool(_) => NativeKind::Bool,
        ValueV::Int(_) => NativeKind::Int,
        ValueV::Str(_) => NativeKind::Str,
        ValueV::Content(_) => NativeKind::Content,
        ValueV::Func(_) => NativeKind::Func,
        ValueV::Array(_) => NativeKind::Array,
        ValueV::Dict(_) => NativeKind::Dict,
        ValueV::Type(_) => NativeKind::Ty,
    }
}

impl Value {
    /// The descriptor handle for this value's kind.
    pub fn ty(&self, reg: &mut Registry) -> (t: Type)
        requires
            reg_wf(old(reg)@),
        ensures
            reg_wf(final(reg)@),
            (final(reg)@, t) == spec_of(old(reg)@, spec_kind_of(self@)),
    {
        let kind = match self {
            Value::NoneVal => NativeKind::NoneVal,
            Value::Bool(_) => NativeKind::Bool,
            Value::Int(_) => NativeKind::Int,
            Value::Str(_) => NativeKind::Str,
            Value::Content(_) => NativeKind::Content,
            Value::Func(_) => NativeKind::Func,
            Value::Array(_) => NativeKind::Array,
            Value::Dict(_) => NativeKind::Dict,
            Value::Type(_) => NativeKind::Ty,
        };
        Type::of(kind, reg)
    }
}

// ------------------------------------------------------------------
// Ordering: two handles order by lexical comparison of their long names.
// Handles sharing a long name are order-equivalent without being equal.
// ------------------------------------------------------------------
/// The outcome of comparing two types.
#[derive(Clone, Copy, PartialEq, Eq, Structural, Hash, Debug)]
pub enum TypeOrder {
    Less,
    Equal,
    Greater,
}

/// Lexical comparison of two character sequences by code point.
pub open spec fn spec_lex_cmp(a: Seq<char>, b: Seq<char>) -> TypeOrder
    decreases a.len(),
{
    if a.len() == 0 && b.len() == 0 {
        TypeOrder::Equal
    } else if a.len() == 0 {
        TypeOrder::Less
    } else if b.len() == 0 {
        TypeOrder::Greater
    } else if (a[0] as int) < (b[0] as int) {
        TypeOrder::Less
    } else if (a[0] as int) > (b[0] as int) {
        TypeOrder::Greater
    } else {
        spec_lex_cmp(a.drop_first(), b.drop_first())
    }
}

/// Lexical comparison of two strings.
pub fn lex_cmp(a: &str, b: &str) -> (r: TypeOrder)
    ensures
        r == spec_lex_cmp(a@, b@),
{
    let la = a.unicode_len();
    let lb = b.unicode_len();
    let mut i: usize = 0;
    proof {
        assert(a@.skip(0) =~= a@);
        assert(b@.skip(0) =~= b@);
    }
    #[verifier::loop_isolation(false)]
    while i < la && i < lb
        invariant
            i <= la,
            i <= lb,
            spec_lex_cmp(a@, b@) == spec_lex_cmp(a@.skip(i as int), b@.skip(i as int)),
        decreases la - i,
    {
        let ca = a.get_char(i);
        let cb = b.get_char(i);
        proof {
            assert(a@.skip(i as int)[0] == a@[i as int]);
            assert(b@.skip(i as int)[0] == b@[i as int]);
            assert(a@.skip(i as int).drop_first() =~= a@.skip(i as int + 1));
            assert(b@.skip(i as int).drop_first() =~= b@.skip(i as int + 1));
        }
        if (ca as u32) < (cb as u32) {
            return TypeOrder::Less;
        }
        if (ca as u32) > (cb as u32) {
            return TypeOrder::Greater;
        }
        i = i + 1;
    }
    proof {
        assert(a@.skip(i as int).len() == a@.len() - i);
        assert(b@.skip(i as int).len() == b@.len() - i);
    }
    if la == lb {
        TypeOrder::Equal
    } else if la < lb {
        TypeOrder::Less
    } else {
        TypeOrder::Greater
    }
}

impl Type {
    /// Compare two types by the lexical order of their long names.
    pub fn cmp(&self, other: &Type, reg: &Registry) -> (r: TypeOrder)
        requires
            self.valid(reg@),
            other.valid(reg@),
        ensures
            r == spec_lex_cmp(
                reg@.types[self.id as int].long_name,
                reg@.types[other.id as int].long_name,
            ),
    {
        lex_cmp(self.long_name(reg).as_str(), other.long_name(reg).as_str())
    }

    /// The partial order agrees with [`Type::cmp`] everywhere.
    pub fn partial_cmp(&self, other: &Type, reg: &Registry) -> (r: Option<TypeOrder>)
        requires
            self.valid(reg@),
            other.valid(reg@),
        ensures
            r == Option::Some(
                spec_lex_cmp(
                    reg@.types[self.id as int].long_name,
                    reg@.types[other.id as int].long_name,
                ),
            ),
    {
        Option::Some(self.cmp(other, reg))
    }
}

/// Lexical comparison of a sequence with itself is `Equal`.
pub proof fn lemma_lex_cmp_refl(a: Seq<char>)
    ensures
        spec_lex_cmp(a, a) == TypeOrder::Equal,
    decreases a.len(),
{
    if a.len() > 0 {
        lemma_lex_cmp_refl(a.drop_first());
    }
}

/// Looking the same native kind up twice yields the same descriptor handle
/// and leaves the registry as it was: descriptors are created at most once,
/// and handles to one kind always compare equal.
pub proof fn lemma_type_of_memoized(r: RegistryV, kind: NativeKind)
    requires
        reg_wf(r),
    ensures
        ({
            let (r1, t1) = spec_of(r, kind);
            let (r2, t2) = spec_of(r1, kind);
            r2 == r1 && t2 == t1
        }),
{
    let (r1, t1) = spec_of(r, kind);
    match spec_native_lookup(r.natives, kind) {
        Option::Some(i) => {},
        Option::None => {
            assert forall|jj: int| 0 <= jj < r.natives.len() implies (#[trigger] r1.natives[jj]).0
                != kind by {
                lemma_native_lookup_none_inv(r.natives, kind, jj);
            }
            lemma_native_lookup_at(r1.natives, kind, r.natives.len() as int);
        },
    }
}

proof fn lemma_native_lookup_none_inv(natives: Seq<(NativeKind, usize)>, kind: NativeKind, j: int)
    requires
        spec_native_lookup(natives, kind) == Option::<usize>::None,
        0 <= j < natives.len(),
    ensures
        natives[j].0 != kind,
    decreases j,
{
    if j > 0 {
        lemma_native_lookup_none_inv(natives.drop_first(), kind, j - 1);
    }
}

/// Two types whose long names coincide are order-equivalent, whether or not
/// they are the same descriptor: ordering goes by name, identity does not.
pub proof fn lemma_order_equivalent_by_name(r: RegistryV, a: Type, b: Type)
    requires
        a.valid(r),
        b.valid(r),
        r.types[a.id as int].long_name == r.types[b.id as int].long_name,
    ensures
        spec_lex_cmp(r.types[a.id as int].long_name, r.types[b.id as int].long_name)
            == TypeOrder::Equal,
{
    lemma_lex_cmp_refl(r.types[a.id as int].long_name);
}

} // verus!
