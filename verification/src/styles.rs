//! Cascading style resolution: a persistent chain of override maps walked
//! innermost-first, falling back to compiled-in defaults.
use vstd::prelude::*;

use crate::model::{Label, LabelV, Length, ListKind, Smart, StyleMap, StyleMapV};

verus! {

broadcast use vstd::std_specs::vec::group_vec_axioms, vstd::seq::group_seq_axioms;

/// A cascading chain of style maps, innermost (closest node) first, plus the
/// document's base font size (thousandths of a point) as ambient context.
pub struct StyleChain {
    pub maps: Vec<StyleMap>,
    pub base_font_size: i64,
}

/// Mathematical model of a [`StyleChain`].
pub struct StyleChainV {
    pub maps: Seq<StyleMapV>,
    pub base_font_size: i64,
}

/// The views of a sequence of style maps.
pub open spec fn smaps_v(s: Seq<StyleMap>) -> Seq<StyleMapV>
    decreases s,
{
    if s.len() == 0 {
        Seq::empty()
    } else {
        smaps_v(s.drop_last()).push(s.last()@)
    }
}

/// Indexing the views of style maps indexes the maps.
pub broadcast proof fn lemma_smaps_v(s: Seq<StyleMap>)
    ensures
        (#[trigger] smaps_v(s)).len() == s.len(),
        forall|i: int| 0 <= i < s.len() ==> #[trigger] smaps_v(s)[i] == s[i]@,
    decreases s.len(),
{
    if s.len() == 0 {
    } else {
        lemma_smaps_v(s.drop_last());
        assert(smaps_v(s) == smaps_v(s.drop_last()).push(s.last()@));
        assert forall|i: int| 0 <= i < s.len() implies #[trigger] smaps_v(s)[i] == s[i]@ by {
            if i < s.len() - 1 {
                assert(s.drop_last()[i] == s[i]);
                assert(smaps_v(s)[i] == smaps_v(s.drop_last())[i]);
            } else {
                assert(smaps_v(s)[i] == s.last()@);
            }
        }
    }
}

impl View for StyleChain {
    type V = StyleChainV;

    open spec fn view(&self) -> StyleChainV {
        StyleChainV { maps: smaps_v(self.maps@), base_font_size: self.base_font_size }
    }
}

/// A length whose parts are nonnegative and small enough for resolution
/// arithmetic.
pub open spec fn len_ok(l: Length) -> bool {
    0 <= l.abs <= 0x100_0000_0000 && 0 <= l.em <= 0x100_0000_0000
}

/// A style map whose set properties carry usable magnitudes.
pub open spec fn map_wf(m: StyleMapV) -> bool {
    &&& (m.indent matches Option::Some(l) ==> len_ok(l))
    &&& (m.body_indent matches Option::Some(l) ==> len_ok(l))
    &&& (m.spacing matches Option::Some(Smart::Custom(l)) ==> len_ok(l))
    &&& (m.leading matches Option::Some(l) ==> len_ok(l))
    &&& (m.below matches Option::Some(l) ==> len_ok(l))
    &&& (m.font_size matches Option::Some(f) ==> 0 < f <= 0x10_0000)
}

/// A chain whose maps are all usable and whose base font size is positive.
pub open spec fn chain_wf(c: StyleChainV) -> bool {
    &&& forall|i: int| 0 <= i < c.maps.len() ==> map_wf(#[trigger] c.maps[i])
    &&& 0 < c.base_font_size <= 0x10_0000
}

/// The label strategy: the innermost override, or the default labelling.
pub open spec fn spec_get_label(maps: Seq<StyleMapV>) -> LabelV
    decreases maps.len(),
{
    if maps.len() == 0 {
        LabelV::Default
    } else {
        match maps[0].label {
            Option::Some(l) => l,
            Option::None => spec_get_label(maps.drop_first()),
        }
    }
}

/// The label indent: the innermost override, or zero.
pub open spec fn spec_get_indent(maps: Seq<StyleMapV>) -> Length
    decreases maps.len(),
{
    if maps.len() == 0 {
        Length { abs: 0, em: 0 }
    } else {
        match maps[0].indent {
            Option::Some(l) => l,
            Option::None => spec_get_indent(maps.drop_first()),
        }
    }
}

/// The body indent: the innermost override, or the kind-dependent default of
/// half an em for plain and numbered lists and a full em for description
/// lists.
pub open spec fn spec_get_body_indent(maps: Seq<StyleMapV>, kind: ListKind) -> Length
    decreases maps.len(),
{
    if maps.len() == 0 {
        if kind == ListKind::Desc {
            Length { abs: 0, em: 1000 }
        } else {
            Length { abs: 0, em: 500 }
        }
    } else {
        match maps[0].body_indent {
            Option::Some(l) => l,
            Option::None => spec_get_body_indent(maps.drop_first(), kind),
        }
    }
}

/// The wide-list spacing override: the innermost override, or automatic.
pub open spec fn spec_get_spacing(maps: Seq<StyleMapV>) -> Smart
    decreases maps.len(),
{
    if maps.len() == 0 {
        Smart::Auto
    } else {
        match maps[0].spacing {
            Option::Some(l) => l,
            Option::None => spec_get_spacing(maps.drop_first()),
        }
    }
}

/// The paragraph leading: the innermost override, or 0.65 em.
pub open spec fn spec_get_leading(maps: Seq<StyleMapV>) -> Length
    decreases maps.len(),
{
    if maps.len() == 0 {
        Length { abs: 0, em: 650 }
    } else {
        match maps[0].leading {
            Option::Some(l) => l,
            Option::None => spec_get_leading(maps.drop_first()),
        }
    }
}

/// The space below a block: the innermost override, or 1.2 em.
pub open spec fn spec_get_below(maps: Seq<StyleMapV>) -> Length
    decreases maps.len(),
{
    if maps.len() == 0 {
        Length { abs: 0, em: 1200 }
    } else {
        match maps[0].below {
            Option::Some(l) => l,
            Option::None => spec_get_below(maps.drop_first()),
        }
    }
}

/// The ambient font size: the innermost override, or the base.
pub open spec fn spec_get_font_size(c: StyleChainV) -> i64
    decreases c.maps.len(),
{
    if c.maps.len() == 0 {
        c.base_font_size
    } else {
        match c.maps[0].font_size {
            Option::Some(f) => f,
            Option::None => spec_get_font_size(
                StyleChainV { maps: c.maps.drop_first(), base_font_size: c.base_font_size },
            ),
        }
    }
}

/// A context-relative length made absolute: its fixed part plus its
/// font-relative part scaled by the ambient font size.
pub open spec fn spec_resolve(l: Length, font_size: int) -> int {
    l.abs + l.em * font_size / 1000
}

/// Resolve a length against a font size.
pub fn resolve_len(l: Length, font_size: i64) -> (r: i64)
    requires
        len_ok(l),
        0 < font_size <= 0x10_0000,
    ensures
        r == spec_resolve(l, font_size as int),
        0 <= r,
{
    proof {
        assert(l.em * font_size <= 0x100_0000_0000 * 0x10_0000) by (nonlinear_arith)
            requires
                0 <= l.em <= 0x100_0000_0000,
                0 < font_size <= 0x10_0000,
        ;
        assert(l.em * font_size >= 0) by (nonlinear_arith)
            requires
                0 <= l.em,
                0 < font_size,
        ;
    }
    let scaled: i64 = l.em * font_size / 1000;
    l.abs + scaled
}

impl StyleChain {
    /// A chain with no overrides over the given base font size.
    pub fn new(base_font_size: i64) -> (r: StyleChain)
        requires
            0 < base_font_size <= 0x10_0000,
        ensures
            r@.maps.len() == 0,
            r@.base_font_size == base_font_size,
            chain_wf(r@),
    {
        let r = StyleChain { maps: Vec::new(), base_font_size };
        r
    }

    /// This chain with one more map pushed innermost.
    pub fn chained(self, map: StyleMap) -> (r: StyleChain)
        ensures
            r@.maps == seq![map@] + self@.maps,
            r@.base_font_size == self@.base_font_size,
    {
        let mut maps: Vec<StyleMap> = Vec::new();
        maps.push(map);
        let mut rest = self.maps;
        let ghost restv = rest@;
        let mut i: usize = 0;
        #[verifier::loop_isolation(false)]
        while i < rest.len()
            invariant
                i <= rest.len(),
                rest@ == restv,
                maps@.len() == i + 1,
                maps@[0]@ == map@,
                forall|j: int| 0 <= j < i as int ==> maps@[j + 1]@ == restv[j]@,
            decreases rest.len() - i,
        {
            let m = rest[i].dup();
            maps.push(m);
            i = i + 1;
        }
        let r = StyleChain { maps, base_font_size: self.base_font_size };
        proof {
            lemma_smaps_v(maps@);
            lemma_smaps_v(restv);
            assert(r@.maps =~= seq![map@] + smaps_v(restv));
        }
        r
    }

    /// The resolved label strategy.
    pub fn get_label(&self) -> (r: Label)
        ensures
            r@ == spec_get_label(self@.maps),
    {
        let ghost all = self@.maps;
        proof {
            lemma_smaps_v(self.maps@);
            assert(all.skip(0) =~= all);
        }
        let mut i: usize = 0;
        #[verifier::loop_isolation(false)]
        while i < self.maps.len()
            invariant
                i <= self.maps.len(),
                spec_get_label(all) == spec_get_label(all.skip(i as int)),
            decreases self.maps.len() - i,
        {
            proof {
                assert(all.skip(i as int)[0] == all[i as int]);
                assert(all.skip(i as int).drop_first() =~= all.skip(i as int + 1));
            }
            match &self.maps[i].label {
                Option::Some(l) => {
                    return l.dup();
                },
                Option::None => {},
            }
            i = i + 1;
        }
        proof {
            assert(all.skip(i as int).len() == 0);
        }
        Label::Default
    }

    /// The resolved ambient font size.
    pub fn font_size(&self) -> (r: i64)
        ensures
            r == spec_get_font_size(self@),
            chain_wf(self@) ==> 0 < r <= 0x10_0000,
    {
        let ghost all = self@;
        proof {
            lemma_smaps_v(self.maps@);
            assert(all.maps.skip(0) =~= all.maps);
        }
        let mut i: usize = 0;
        #[verifier::loop_isolation(false)]
        while i < self.maps.len()
            invariant
                i <= self.maps.len(),
                spec_get_font_size(all) == spec_get_font_size(
                    StyleChainV { maps: all.maps.skip(i as int), base_font_size: all.base_font_size },
                ),
            decreases self.maps.len() - i,
        {
            proof {
                assert(all.maps.skip(i as int)[0] == all.maps[i as int]);
                assert(all.maps.skip(i as int).drop_first() =~= all.maps.skip(i as int + 1));
            }
            match self.maps[i].font_size {
                Option::Some(f) => {
                    return f;
                },
                Option::None => {},
            }
            i = i + 1;
        }
        proof {
            assert(all.maps.skip(i as int).len() == 0);
        }
        self.base_font_size
    }

    /// The label indent, as stored in the chain.
    pub fn get_indent(&self) -> (r: Length)
        ensures
            r == spec_get_indent(self@.maps),
            chain_wf(self@) ==> len_ok(r),
    {
        let ghost all = self@.maps;
        proof {
            lemma_smaps_v(self.maps@);
            assert(all.skip(0) =~= all);
        }
        let mut i: usize = 0;
        #[verifier::loop_isolation(false)]
        while i < self.maps.len()
            invariant
                i <= self.maps.len(),
                spec_get_indent(all) == spec_get_indent(all.skip(i as int)),
            decreases self.maps.len() - i,
        {
            proof {
                assert(all.skip(i as int)[0] == all[i as int]);
                assert(all.skip(i as int).drop_first() =~= all.skip(i as int + 1));
            }
            match self.maps[i].indent {
                Option::Some(l) => {
                    return l;
                },
                Option::None => {},
            }
            i = i + 1;
        }
        proof {
            assert(all.skip(i as int).len() == 0);
        }
        Length::zero()
    }

    /// The body indent, as stored in the chain; the default depends on the
    /// list kind.
    pub fn get_body_indent(&self, kind: ListKind) -> (r: Length)
        ensures
            r == spec_get_body_indent(self@.maps, kind),
            chain_wf(self@) ==> len_ok(r),
    {
        let ghost all = self@.maps;
        proof {
            lemma_smaps_v(self.maps@);
            assert(all.skip(0) =~= all);
        }
        let mut i: usize = 0;
        #[verifier::loop_isolation(false)]
        while i < self.maps.len()
            invariant
                i <= self.maps.len(),
                spec_get_body_indent(all, kind) == spec_get_body_indent(all.skip(i as int), kind),
            decreases self.maps.len() - i,
        {
            proof {
                assert(all.skip(i as int)[0] == all[i as int]);
                assert(all.skip(i as int).drop_first() =~= all.skip(i as int + 1));
            }
            match self.maps[i].body_indent {
                Option::Some(l) => {
                    return l;
                },
                Option::None => {},
            }
            i = i + 1;
        }
        proof {
            assert(all.skip(i as int).len() == 0);
        }
        if matches!(kind, ListKind::Desc) {
            Length::from_em(1000)
        } else {
            Length::from_em(500)
        }
    }

    /// The wide-list spacing override, if any.
    pub fn get_spacing(&self) -> (r: Smart)
        ensures
            r == spec_get_spacing(self@.maps),
            chain_wf(self@) ==> (r matches Smart::Custom(l) ==> len_ok(l)),
    {
        let ghost all = self@.maps;
        proof {
            lemma_smaps_v(self.maps@);
            assert(all.skip(0) =~= all);
        }
        let mut i: usize = 0;
        #[verifier::loop_isolation(false)]
        while i < self.maps.len()
            invariant
                i <= self.maps.len(),
                spec_get_spacing(all) == spec_get_spacing(all.skip(i as int)),
            decreases self.maps.len() - i,
        {
            proof {
                assert(all.skip(i as int)[0] == all[i as int]);
                assert(all.skip(i as int).drop_first() =~= all.skip(i as int + 1));
            }
            match self.maps[i].spacing {
                Option::Some(l) => {
                    return l;
                },
                Option::None => {},
            }
            i = i + 1;
        }
        proof {
            assert(all.skip(i as int).len() == 0);
        }
        Smart::Auto
    }

    /// The paragraph leading, as stored in the chain.
    pub fn get_leading(&self) -> (r: Length)
        ensures
            r == spec_get_leading(self@.maps),
            chain_wf(self@) ==> len_ok(r),
    {
        let ghost all = self@.maps;
        proof {
            lemma_smaps_v(self.maps@);
            assert(all.skip(0) =~= all);
        }
        let mut i: usize = 0;
        #[verifier::loop_isolation(false)]
        while i < self.maps.len()
            invariant
                i <= self.maps.len(),
                spec_get_leading(all) == spec_get_leading(all.skip(i as int)),
            decreases self.maps.len() - i,
        {
            proof {
                assert(all.skip(i as int)[0] == all[i as int]);
                assert(all.skip(i as int).drop_first() =~= all.skip(i as int + 1));
            }
            match self.maps[i].leading {
                Option::Some(l) => {
                    return l;
                },
                Option::None => {},
            }
            i = i + 1;
        }
        proof {
            assert(all.skip(i as int).len() == 0);
        }
        Length::from_em(650)
    }

    /// The space below a block, as stored in the chain.
    pub fn get_below(&self) -> (r: Length)
        ensures
            r == spec_get_below(self@.maps),
            chain_wf(self@) ==> len_ok(r),
    {
        let ghost all = self@.maps;
        proof {
            lemma_smaps_v(self.maps@);
            assert(all.skip(0) =~= all);
        }
        let mut i: usize = 0;
        #[verifier::loop_isolation(false)]
        while i < self.maps.len()
            invariant
                i <= self.maps.len(),
                spec_get_below(all) == spec_get_below(all.skip(i as int)),
            decreases self.maps.len() - i,
        {
            proof {
                assert(all.skip(i as int)[0] == all[i as int]);
                assert(all.skip(i as int).drop_first() =~= all.skip(i as int + 1));
            }
            match self.maps[i].below {
                Option::Some(l) => {
                    return l;
                },
                Option::None => {},
            }
            i = i + 1;
        }
        proof {
            assert(all.skip(i as int).len() == 0);
        }
        Length::from_em(1200)
    }
}

} // verus!
