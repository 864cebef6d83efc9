//! Label values: how a list marker is produced for an item number.
//!
//! A label is cast from a script value (nothing, a pattern string, a literal,
//! or a callback) and later resolved against a list kind and item number.
use vstd::prelude::*;

use crate::diag::{Error, ErrorV, SourceError, Span, Spanned};
use crate::model::{Content, ContentV, Label, LabelV, Value, ValueV};
use crate::numbering::{fmt_decimal, spec_apply, spec_decimal, Numbering};
use crate::world::World;

verus! {

broadcast use vstd::std_specs::vec::group_vec_axioms, vstd::seq::group_seq_axioms;

use vstd::string::{StrSliceExecFns, StringExecFns};

/// Whether a character selects a counter kind: one of `1`, `a`, `i`, `*`,
/// compared case-insensitively.
pub open spec fn is_kind_char(c: char) -> bool {
    c == '1' || c == 'a' || c == 'i' || c == '*' || c == 'A' || c == 'I'
}

/// The counter system a kind character selects.
pub open spec fn numbering_of(c: char) -> Numbering {
    if c == '1' {
        Numbering::Arabic
    } else if c == 'a' || c == 'A' {
        Numbering::Letter
    } else if c == 'i' || c == 'I' {
        Numbering::Roman
    } else {
        Numbering::Symbol
    }
}

/// Uppercase iff the matched character itself was uppercase.
pub open spec fn upper_of(c: char) -> bool {
    c == 'A' || c == 'I'
}

/// The position of the first kind character, or -1 if the string is
/// exhausted without one.
pub open spec fn spec_find_kind(s: Seq<char>) -> int
    decreases s.len(),
{
    if s.len() == 0 {
        -1
    } else if is_kind_char(s[0]) {
        0
    } else {
        let r = spec_find_kind(s.drop_first());
        if r < 0 {
            -1
        } else {
            r + 1
        }
    }
}

proof fn lemma_find_kind_at(s: Seq<char>, j: int)
    requires
        0 <= j < s.len(),
        forall|jj: int| 0 <= jj < j ==> !is_kind_char(#[trigger] s[jj]),
        is_kind_char(s[j]),
    ensures
        spec_find_kind(s) == j,
    decreases j,
{
    if j > 0 {
        lemma_find_kind_at(s.drop_first(), j - 1);
    }
}

proof fn lemma_find_kind_none(s: Seq<char>)
    requires
        forall|jj: int| 0 <= jj < s.len() ==> !is_kind_char(#[trigger] s[jj]),
    ensures
        spec_find_kind(s) == -1,
    decreases s.len(),
{
    if s.len() > 0 {
        lemma_find_kind_none(s.drop_first());
    }
}

/// What parsing a pattern string yields: the longest literal run before the
/// first kind character becomes the prefix, the character fixes the counter
/// system and the case flag, the rest becomes the suffix; a string without a
/// kind character is an invalid pattern.
pub open spec fn spec_parse(s: Seq<char>) -> Result<LabelV, ErrorV> {
    let idx = spec_find_kind(s);
    if idx < 0 {
        Result::Err(ErrorV::InvalidPattern { pattern: s })
    } else {
        Result::Ok(
            LabelV::Pattern(
                s.subrange(0, idx),
                numbering_of(s[idx]),
                upper_of(s[idx]),
                s.subrange(idx + 1, s.len() as int),
            ),
        )
    }
}

/// Parse a label pattern string.
pub fn parse_pattern(pattern: &str) -> (r: Result<Label, Error>)
    ensures
        match r {
            Result::Ok(l) => spec_parse(pattern@) == Result::<LabelV, ErrorV>::Ok(l@),
            Result::Err(e) => spec_parse(pattern@) == Result::<LabelV, ErrorV>::Err(e@),
        },
{
    let n = pattern.unicode_len();
    let mut i: usize = 0;
    #[verifier::loop_isolation(false)]
    while i < n
        invariant
            i <= n,
            forall|j: int| 0 <= j < i as int ==> !is_kind_char(#[trigger] pattern@[j]),
        decreases n - i,
    {
        let c = pattern.get_char(i);
        if c == '1' || c == 'a' || c == 'i' || c == '*' || c == 'A' || c == 'I' {
            proof {
                lemma_find_kind_at(pattern@, i as int);
            }
            let prefix = pattern.substring_char(0, i).to_owned();
            let suffix = pattern.substring_char(i + 1, n).to_owned();
            let numbering = if c == '1' {
                Numbering::Arabic
            } else if c == 'a' || c == 'A' {
                Numbering::Letter
            } else if c == 'i' || c == 'I' {
                Numbering::Roman
            } else {
                Numbering::Symbol
            };
            let upper = c == 'A' || c == 'I';
            return Result::Ok(Label::Pattern(prefix, numbering, upper, suffix));
        }
        i = i + 1;
    }
    proof {
        lemma_find_kind_none(pattern@);
    }
    Result::Err(Error::InvalidPattern { pattern: pattern.to_owned() })
}

/// Whether a script value is accepted as a label without conversion: literal
/// content or a callback.
impl Label {
    pub fn is(value: &Spanned<Value>) -> (r: bool)
        ensures
            r == (value.v@ is Content || value.v@ is Func),
    {
        matches!(value.v, Value::Content(_) | Value::Func(_))
    }

    /// Cast a spanned script value to a label: nothing becomes the empty
    /// label, a string is parsed as a pattern, literal content is used
    /// verbatim, and a callable is invoked per item; anything else is
    /// rejected with a cast error naming what was found.
    pub fn cast(value: Spanned<Value>) -> (r: Result<Label, Error>)
        ensures
            match r {
                Result::Ok(l) => spec_cast(value.v@, value.span) == Result::<
                    LabelV,
                    ErrorV,
                >::Ok(l@),
                Result::Err(e) => spec_cast(value.v@, value.span) == Result::<
                    LabelV,
                    ErrorV,
                >::Err(e@),
            },
    {
        match value.v {
            Value::NoneVal => Result::Ok(Label::Content(Content::Empty)),
            Value::Str(pattern) => parse_pattern(pattern.as_str()),
            Value::Content(v) => Result::Ok(Label::Content(v)),
            Value::Func(v) => Result::Ok(Label::Func(v, value.span)),
            v => Result::Err(
                Error::Cast {
                    expected: String::from_str("string, content or function"),
                    found: v.kind_name().to_owned(),
                },
            ),
        }
    }
}

/// What casting a script value to a label yields.
pub open spec fn spec_cast(v: ValueV, span: Span) -> Result<LabelV, ErrorV> {
    match v {
        ValueV::NoneVal => Result::Ok(LabelV::Content(ContentV::Empty)),
        ValueV::Str(s) => spec_parse(s),
        ValueV::Content(c) => Result::Ok(LabelV::Content(c)),
        ValueV::Func(f) => Result::Ok(LabelV::Func(f, span)),
        _ => Result::Err(
            ErrorV::Cast {
                expected: "string, content or function"@,
                found: crate::model::Value::spec_kind_name(v),
            },
        ),
    }
}

/// The decimal rendering of a signed number.
pub open spec fn spec_int_str(i: int) -> Seq<char> {
    if i >= 0 {
        spec_decimal(i as nat)
    } else {
        seq!['-'] + spec_decimal((-i) as nat)
    }
}

/// Render a signed number in decimal.
pub fn int_str(i: i64) -> (r: String)
    ensures
        r@ == spec_int_str(i as int),
{
    if i >= 0 {
        fmt_decimal(i as u64)
    } else {
        let m: u64 = ((-(i + 1)) as u64) + 1;
        proof {
            assert(m as nat == -(i as int));
        }
        let mut s = String::from_str("-");
        proof {
            reveal_strlit("-");
        }
        let d = fmt_decimal(m);
        s.append(d.as_str());
        proof {
            assert(s@ =~= spec_int_str(i as int));
        }
        s
    }
}

/// How a script value is coerced to displayable content: content stays
/// itself, text and numbers become text runs, nothing and the remaining
/// non-displayable kinds render as nothing, and an array displays its
/// elements in order.
pub open spec fn spec_display(v: ValueV) -> ContentV
    decreases v,
{
    match v {
        ValueV::NoneVal => ContentV::Empty,
        ValueV::Bool(b) => ContentV::Text(
            if b {
                "true"@
            } else {
                "false"@
            },
        ),
        ValueV::Int(i) => ContentV::Text(spec_int_str(i as int)),
        ValueV::Str(s) => ContentV::Text(s),
        ValueV::Content(c) => c,
        ValueV::Func(_) => ContentV::Empty,
        ValueV::Array(a) => ContentV::Sequence(spec_display_seq(a)),
        ValueV::Dict(_) => ContentV::Empty,
        ValueV::Type(_) => ContentV::Empty,
    }
}

/// The displays of a sequence of values, in order.
pub open spec fn spec_display_seq(a: Seq<ValueV>) -> Seq<ContentV>
    decreases a,
{
    if a.len() == 0 {
        Seq::empty()
    } else {
        spec_display_seq(a.drop_last()).push(spec_display(a.last()))
    }
}

proof fn lemma_display_seq(a: Seq<ValueV>)
    ensures
        spec_display_seq(a).len() == a.len(),
        forall|i: int| 0 <= i < a.len() ==> #[trigger] spec_display_seq(a)[i] == spec_display(a[i]),
    decreases a.len(),
{
    if a.len() == 0 {
    } else {
        lemma_display_seq(a.drop_last());
        assert(spec_display_seq(a) == spec_display_seq(a.drop_last()).push(spec_display(a.last())));
        assert forall|i: int| 0 <= i < a.len() implies #[trigger] spec_display_seq(a)[i]
            == spec_display(a[i]) by {
            if i < a.len() - 1 {
                assert(a.drop_last()[i] == a[i]);
                assert(spec_display_seq(a)[i] == spec_display_seq(a.drop_last())[i]);
            } else {
                assert(spec_display_seq(a)[i] == spec_display(a.last()));
            }
        }
    }
}

impl Value {
    /// Coerce this value to displayable content.
    pub fn display(&self) -> (r: Content)
        ensures
            r@ == spec_display(self@),
        decreases *self,
    {
        match self {
            Value::NoneVal => Content::Empty,
            Value::Bool(b) => {
                proof {
                    reveal_strlit("true");
                    reveal_strlit("false");
                }
                if *b {
                    let s = String::from_str("true");
                    Content::Text(s)
                } else {
                    let s = String::from_str("false");
                    Content::Text(s)
                }
            },
            Value::Int(i) => Content::Text(int_str(*i)),
            Value::Str(s) => Content::Text(s.clone()),
            Value::Content(c) => c.dup(),
            Value::Func(_) => Content::Empty,
            Value::Array(a) => {
                let mut out: Vec<Content> = Vec::new();
                let mut i: usize = 0;
                #[verifier::loop_isolation(false)]
                while i < a.len()
                    invariant
                        i <= a.len(),
                        out@.len() == i as int,
                        forall|j: int| 0 <= j < i as int ==> out@[j]@ == spec_display(a@[j]@),
                    decreases a.len() - i,
                {
                    let c = a[i].display();
                    out.push(c);
                    i = i + 1;
                }
                let r = Content::Sequence(out);
                proof {
                    crate::model::lemma_varr_v(a@);
                    lemma_display_seq(crate::model::varr_v(a@));
                    crate::model::lemma_centries_v(out@);
                    match r@ {
                        ContentV::Sequence(s) => {
                            assert(s == crate::model::centries_v(out@));
                            assert(s =~= spec_display_seq(crate::model::varr_v(a@)));
                        },
                        _ => {},
                    }
                }
                r
            },
            Value::Dict(_) => Content::Empty,
            Value::Type(_) => Content::Empty,
        }
    }
}

impl Label {
    /// Resolve this label for the nth item of a list of the given kind.
    ///
    /// The default labelling is a bullet for unordered lists and the decimal
    /// number followed by a dot for enumerations; description lists never
    /// read a label, so asking for their default is a construction-time bug
    /// and excluded outright. A pattern formats the number under its counter
    /// system between its prefix and suffix. Literal content is returned
    /// unchanged whatever the number. A callback is invoked through the
    /// environment; the environment decides its outcome, and any failure is
    /// wrapped as a callback failure attributed to the recorded call site.
    pub fn resolve<W: World>(&self, world: &mut W, kind: crate::model::ListKind, number: usize) -> (r:
        Result<Content, SourceError>)
        requires
            !(self@ is Default && kind == crate::model::ListKind::Desc),
        ensures
            self@ is Default && kind == crate::model::ListKind::List ==> (r matches Result::Ok(c)
                && c@ == ContentV::Text(seq!['\u{2022}'])),
            self@ is Default && kind == crate::model::ListKind::Enum ==> (r matches Result::Ok(c)
                && c@ == ContentV::Text(spec_decimal(number as nat).push('.'))),
            self@ matches LabelV::Pattern(p, n, u, s) ==> (r matches Result::Ok(c) && c@
                == ContentV::Text(p + spec_apply(n, u, number as nat) + s)),
            self@ matches LabelV::Content(cv) ==> (r matches Result::Ok(c) && c@ == cv),
            self@ matches LabelV::Func(f, span) ==> (r matches Result::Err(e)
                ==> (e@.error matches ErrorV::LabelCallbackFailure { location, .. } && location == span
                && e@.span == span)),
    {
        match self {
            Label::Default => {
                match kind {
                    crate::model::ListKind::List => {
                        proof {
                            reveal_strlit("\u{2022}");
                        }
                        let s = String::from_str("\u{2022}");
                        proof {
                            assert(s@ =~= seq!['\u{2022}']);
                        }
                        Result::Ok(Content::Text(s))
                    },
                    crate::model::ListKind::Enum => {
                        let mut s = fmt_decimal(number as u64);
                        proof {
                            reveal_strlit(".");
                        }
                        s.append(".");
                        proof {
                            assert(s@ =~= spec_decimal(number as nat).push('.'));
                        }
                        Result::Ok(Content::Text(s))
                    },
                    crate::model::ListKind::Desc => {
                        proof {
                            assert(false);
                        }
                        Result::Ok(Content::Empty)
                    },
                }
            },
            Label::Pattern(prefix, numbering, upper, suffix) => {
                let mid = numbering.apply(*upper, number as u64);
                let mut s = prefix.clone();
                s.append(mid.as_str());
                s.append(suffix.as_str());
                Result::Ok(Content::Text(s))
            },
            Label::Content(content) => Result::Ok(content.dup()),
            Label::Func(func, span) => {
                match world.call_func(*func, *span, number) {
                    Result::Ok(v) => Result::Ok(v.display()),
                    Result::Err(inner) => Result::Err(
                        SourceError {
                            span: *span,
                            error: Error::LabelCallbackFailure { inner: Box::new(inner), location: *span },
                        },
                    ),
                }
            },
        }
    }
}

} // verus!
