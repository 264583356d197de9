use vstd::prelude::*;
use crate::int_parse::{parse_i32, spec_parse_i32};
use crate::xml_node::{
    child_node, is_tagged, lemma_push_deep_view, spec_attr, spec_attr_or_empty, XmlChild, XmlNode,
};

verus! {

/// One facet of a restriction.
#[derive(Debug, PartialEq, PartialOrd, Clone)]
pub enum RestrictionContent {
    /// A single enumeration option. The item is the raw attribute value.
    Enumeration(String),
    /// Minimum value, parsed as a signed 32-bit integer.
    MinInclusive(i32),
    /// Maximum value, parsed as a signed 32-bit integer.
    MaxInclusive(i32),
    /// A pattern, kept as the raw string with no further interpretation.
    Pattern(String),
}

/// Mathematical image of `RestrictionContent`.
pub enum RestrictionContentView {
    Enumeration(Seq<char>),
    MinInclusive(i32),
    MaxInclusive(i32),
    Pattern(Seq<char>),
}

impl DeepView for RestrictionContent {
    type V = RestrictionContentView;

    open spec fn deep_view(&self) -> RestrictionContentView {
        match self {
            RestrictionContent::Enumeration(s) => RestrictionContentView::Enumeration(s@),
            RestrictionContent::MinInclusive(v) => RestrictionContentView::MinInclusive(*v),
            RestrictionContent::MaxInclusive(v) => RestrictionContentView::MaxInclusive(*v),
            RestrictionContent::Pattern(s) => RestrictionContentView::Pattern(s@),
        }
    }
}

/// A base type plus a list of facets in the fixed order enumeration,
/// minInclusive, maxInclusive, pattern.
#[derive(Debug, Default, Clone)]
pub struct Restriction {
    pub base: String,
    pub content: Vec<RestrictionContent>,
}

/// Mathematical image of `Restriction`.
pub struct RestrictionView {
    pub base: Seq<char>,
    pub content: Seq<RestrictionContentView>,
}

impl DeepView for Restriction {
    type V = RestrictionView;

    open spec fn deep_view(&self) -> RestrictionView {
        RestrictionView { base: self.base@, content: self.content.deep_view() }
    }
}

/// The enumeration facets among `cs`, in document order; an `enumeration`
/// child without a `value` attribute contributes nothing.
pub open spec fn spec_enumeration_entries(cs: Seq<XmlChild>) -> Seq<RestrictionContentView>
    decreases cs.len(),
{
    if cs.len() == 0 {
        Seq::empty()
    } else {
        let rest = spec_enumeration_entries(cs.drop_last());
        if is_tagged(cs.last(), "enumeration"@) {
            match spec_attr(child_node(cs.last()), "value"@) {
                Some(v) => rest.push(RestrictionContentView::Enumeration(v)),
                None => rest,
            }
        } else {
            rest
        }
    }
}

/// The minimum facets among `cs`, in document order; a `minInclusive`
/// child whose `value` is absent or not a signed 32-bit decimal integer
/// contributes nothing.
pub open spec fn spec_min_inclusive_entries(cs: Seq<XmlChild>) -> Seq<RestrictionContentView>
    decreases cs.len(),
{
    if cs.len() == 0 {
        Seq::empty()
    } else {
        let rest = spec_min_inclusive_entries(cs.drop_last());
        if is_tagged(cs.last(), "minInclusive"@) {
            match spec_attr(child_node(cs.last()), "value"@) {
                Some(v) => match spec_parse_i32(v) {
                    Some(x) => rest.push(RestrictionContentView::MinInclusive(x)),
                    None => rest,
                },
                None => rest,
            }
        } else {
            rest
        }
    }
}

/// The maximum facets among `cs`, under the same rule as the minimums.
pub open spec fn spec_max_inclusive_entries(cs: Seq<XmlChild>) -> Seq<RestrictionContentView>
    decreases cs.len(),
{
    if cs.len() == 0 {
        Seq::empty()
    } else {
        let rest = spec_max_inclusive_entries(cs.drop_last());
        if is_tagged(cs.last(), "maxInclusive"@) {
            match spec_attr(child_node(cs.last()), "value"@) {
                Some(v) => match spec_parse_i32(v) {
                    Some(x) => rest.push(RestrictionContentView::MaxInclusive(x)),
                    None => rest,
                },
                None => rest,
            }
        } else {
            rest
        }
    }
}

/// The pattern facets among `cs`, in document order; a `pattern` child
/// without a `value` attribute contributes nothing.
pub open spec fn spec_pattern_entries(cs: Seq<XmlChild>) -> Seq<RestrictionContentView>
    decreases cs.len(),
{
    if cs.len() == 0 {
        Seq::empty()
    } else {
        let rest = spec_pattern_entries(cs.drop_last());
        if is_tagged(cs.last(), "pattern"@) {
            match spec_attr(child_node(cs.last()), "value"@) {
                Some(v) => rest.push(RestrictionContentView::Pattern(v)),
                None => rest,
            }
        } else {
            rest
        }
    }
}

/// The facets of `n` in the fixed order enumeration, minInclusive,
/// maxInclusive, pattern, regardless of how they interleave in the source.
pub open spec fn spec_restriction_content(cs: Seq<XmlChild>) -> Seq<RestrictionContentView> {
    spec_enumeration_entries(cs) + spec_min_inclusive_entries(cs) + spec_max_inclusive_entries(cs)
        + spec_pattern_entries(cs)
}

/// The restriction read from `n`: its `base` attribute (empty when absent)
/// and its facets in the fixed tag order.
pub open spec fn spec_restriction(n: XmlNode) -> RestrictionView {
    RestrictionView {
        base: spec_attr_or_empty(n, "base"@),
        content: spec_restriction_content(n.children@),
    }
}

/// The position of a facet kind in the fixed output order.
pub open spec fn facet_rank(v: RestrictionContentView) -> int {
    match v {
        RestrictionContentView::Enumeration(_) => 0,
        RestrictionContentView::MinInclusive(_) => 1,
        RestrictionContentView::MaxInclusive(_) => 2,
        RestrictionContentView::Pattern(_) => 3,
    }
}

/// How many entries of `s` have the facet kind of rank `r`.
pub open spec fn count_of_rank(s: Seq<RestrictionContentView>, r: int) -> int
    decreases s.len(),
{
    if s.len() == 0 {
        0
    } else {
        count_of_rank(s.drop_last(), r) + if facet_rank(s.last()) == r {
            1int
        } else {
            0int
        }
    }
}

/// How many `tag` children of `cs` carry a `value` that parses as a
/// signed 32-bit integer.
pub open spec fn count_parsed_int_values(cs: Seq<XmlChild>, tag: Seq<char>) -> int
    decreases cs.len(),
{
    if cs.len() == 0 {
        0
    } else {
        count_parsed_int_values(cs.drop_last(), tag) + if is_tagged(cs.last(), tag) && (spec_attr(
            child_node(cs.last()),
            "value"@,
        ) matches Some(v) && spec_parse_i32(v) is Some) {
            1int
        } else {
            0int
        }
    }
}

proof fn lemma_count_of_rank_append(s1: Seq<RestrictionContentView>, s2: Seq<
    RestrictionContentView,
>, r: int)
    ensures
        count_of_rank(s1 + s2, r) == count_of_rank(s1, r) + count_of_rank(s2, r),
    decreases s2.len(),
{
    if s2.len() == 0 {
        assert(s1 + s2 =~= s1);
    } else {
        assert((s1 + s2).drop_last() =~= s1 + s2.drop_last());
        assert((s1 + s2).last() == s2.last());
        lemma_count_of_rank_append(s1, s2.drop_last(), r);
    }
}

proof fn lemma_count_of_rank_uniform(s: Seq<RestrictionContentView>, r: int, r2: int)
    requires
        forall|k: int| 0 <= k < s.len() ==> facet_rank(#[trigger] s[k]) == r,
    ensures
        count_of_rank(s, r2) == if r == r2 {
            s.len() as int
        } else {
            0int
        },
    decreases s.len(),
{
    if s.len() > 0 {
        assert(forall|k: int|
            0 <= k < s.len() - 1 ==> #[trigger] s.drop_last()[k] == s[k]);
        lemma_count_of_rank_uniform(s.drop_last(), r, r2);
        assert(facet_rank(s.last()) == r);
    }
}

proof fn lemma_enumeration_entries_rank(cs: Seq<XmlChild>)
    ensures
        forall|k: int|
            0 <= k < spec_enumeration_entries(cs).len() ==> facet_rank(
                #[trigger] spec_enumeration_entries(cs)[k],
            ) == 0,
    decreases cs.len(),
{
    if cs.len() > 0 {
        lemma_enumeration_entries_rank(cs.drop_last());
        let rest = spec_enumeration_entries(cs.drop_last());
        assert(forall|k: int| 0 <= k < rest.len() ==> #[trigger] spec_enumeration_entries(cs)[k] == rest[k]);
    }
}

proof fn lemma_min_inclusive_entries_rank(cs: Seq<XmlChild>)
    ensures
        forall|k: int|
            0 <= k < spec_min_inclusive_entries(cs).len() ==> facet_rank(
                #[trigger] spec_min_inclusive_entries(cs)[k],
            ) == 1,
    decreases cs.len(),
{
    if cs.len() > 0 {
        lemma_min_inclusive_entries_rank(cs.drop_last());
        let rest = spec_min_inclusive_entries(cs.drop_last());
        assert(forall|k: int| 0 <= k < rest.len() ==> #[trigger] spec_min_inclusive_entries(cs)[k] == rest[k]);
    }
}

proof fn lemma_max_inclusive_entries_rank(cs: Seq<XmlChild>)
    ensures
        forall|k: int|
            0 <= k < spec_max_inclusive_entries(cs).len() ==> facet_rank(
                #[trigger] spec_max_inclusive_entries(cs)[k],
            ) == 2,
    decreases cs.len(),
{
    if cs.len() > 0 {
        lemma_max_inclusive_entries_rank(cs.drop_last());
        let rest = spec_max_inclusive_entries(cs.drop_last());
        assert(forall|k: int| 0 <= k < rest.len() ==> #[trigger] spec_max_inclusive_entries(cs)[k] == rest[k]);
    }
}

proof fn lemma_pattern_entries_rank(cs: Seq<XmlChild>)
    ensures
        forall|k: int|
            0 <= k < spec_pattern_entries(cs).len() ==> facet_rank(
                #[trigger] spec_pattern_entries(cs)[k],
            ) == 3,
    decreases cs.len(),
{
    if cs.len() > 0 {
        lemma_pattern_entries_rank(cs.drop_last());
        let rest = spec_pattern_entries(cs.drop_last());
        assert(forall|k: int| 0 <= k < rest.len() ==> #[trigger] spec_pattern_entries(cs)[k] == rest[k]);
    }
}

proof fn lemma_min_inclusive_entries_count(cs: Seq<XmlChild>)
    ensures
        spec_min_inclusive_entries(cs).len() == count_parsed_int_values(cs, "minInclusive"@),
    decreases cs.len(),
{
    if cs.len() > 0 {
        lemma_min_inclusive_entries_count(cs.drop_last());
    }
}

proof fn lemma_max_inclusive_entries_count(cs: Seq<XmlChild>)
    ensures
        spec_max_inclusive_entries(cs).len() == count_parsed_int_values(cs, "maxInclusive"@),
    decreases cs.len(),
{
    if cs.len() > 0 {
        lemma_max_inclusive_entries_count(cs.drop_last());
    }
}

/// Law: in a restriction's facet list the kinds come in the fixed order
/// enumeration, minInclusive, maxInclusive, pattern: however the source
/// interleaves the facet children, a facet kind never precedes an
/// earlier-ranked one.
pub proof fn lemma_restriction_facet_order(n: XmlNode)
    ensures
        forall|a: int, b: int|
            0 <= a <= b < spec_restriction(n).content.len() ==> facet_rank(
                #[trigger] spec_restriction(n).content[a],
            ) <= facet_rank(#[trigger] spec_restriction(n).content[b]),
{
    let cs = n.children@;
    let e = spec_enumeration_entries(cs);
    let m = spec_min_inclusive_entries(cs);
    let x = spec_max_inclusive_entries(cs);
    let p = spec_pattern_entries(cs);
    let c = spec_restriction(n).content;
    lemma_enumeration_entries_rank(cs);
    lemma_min_inclusive_entries_rank(cs);
    lemma_max_inclusive_entries_rank(cs);
    lemma_pattern_entries_rank(cs);
    assert forall|k: int| 0 <= k < c.len() implies facet_rank(#[trigger] c[k]) == (if k < e.len() {
        0int
    } else if k < e.len() + m.len() {
        1int
    } else if k < e.len() + m.len() + x.len() {
        2int
    } else {
        3int
    }) by {
        if k < e.len() {
            assert(c[k] == e[k]);
        } else if k < e.len() + m.len() {
            assert(c[k] == m[k - e.len()]);
        } else if k < e.len() + m.len() + x.len() {
            assert(c[k] == x[k - e.len() - m.len()]);
        } else {
            assert(c[k] == p[k - e.len() - m.len() - x.len()]);
        }
    }
}

/// Law: a restriction's facet list holds exactly one MinInclusive entry
/// for each `minInclusive` child whose `value` attribute parses as a
/// signed 32-bit integer, and likewise one MaxInclusive entry per
/// parsable `maxInclusive` child: facets with missing or non-integer
/// values leave no entry of their kind.
pub proof fn lemma_restriction_integer_facets(n: XmlNode)
    ensures
        count_of_rank(spec_restriction(n).content, 1) == count_parsed_int_values(
            n.children@,
            "minInclusive"@,
        ),
        count_of_rank(spec_restriction(n).content, 2) == count_parsed_int_values(
            n.children@,
            "maxInclusive"@,
        ),
{
    let cs = n.children@;
    let e = spec_enumeration_entries(cs);
    let m = spec_min_inclusive_entries(cs);
    let x = spec_max_inclusive_entries(cs);
    let p = spec_pattern_entries(cs);
    lemma_enumeration_entries_rank(cs);
    lemma_min_inclusive_entries_rank(cs);
    lemma_max_inclusive_entries_rank(cs);
    lemma_pattern_entries_rank(cs);
    lemma_count_of_rank_append(e, m, 1);
    lemma_count_of_rank_append(e + m, x, 1);
    lemma_count_of_rank_append(e + m + x, p, 1);
    lemma_count_of_rank_append(e, m, 2);
    lemma_count_of_rank_append(e + m, x, 2);
    lemma_count_of_rank_append(e + m + x, p, 2);
    lemma_count_of_rank_uniform(e, 0, 1);
    lemma_count_of_rank_uniform(m, 1, 1);
    lemma_count_of_rank_uniform(x, 2, 1);
    lemma_count_of_rank_uniform(p, 3, 1);
    lemma_count_of_rank_uniform(e, 0, 2);
    lemma_count_of_rank_uniform(m, 1, 2);
    lemma_count_of_rank_uniform(x, 2, 2);
    lemma_count_of_rank_uniform(p, 3, 2);
    lemma_min_inclusive_entries_count(cs);
    lemma_max_inclusive_entries_count(cs);
}

/// The values of the `tag` children of `cs` whose `value` attribute
/// parses as a signed 32-bit integer, in document order.
pub open spec fn parsed_int_values(cs: Seq<XmlChild>, tag: Seq<char>) -> Seq<i32>
    decreases cs.len(),
{
    if cs.len() == 0 {
        Seq::empty()
    } else {
        let rest = parsed_int_values(cs.drop_last(), tag);
        if is_tagged(cs.last(), tag) && (spec_attr(child_node(cs.last()), "value"@) matches Some(v)
            && spec_parse_i32(v) is Some) {
            rest.push(spec_parse_i32(spec_attr(child_node(cs.last()), "value"@).unwrap()).unwrap())
        } else {
            rest
        }
    }
}

proof fn lemma_min_entries_are_parsed_values(cs: Seq<XmlChild>)
    ensures
        spec_min_inclusive_entries(cs) == parsed_int_values(cs, "minInclusive"@).map_values(
            (|x: i32| RestrictionContentView::MinInclusive(x)),
        ),
    decreases cs.len(),
{
    if cs.len() > 0 {
        lemma_min_entries_are_parsed_values(cs.drop_last());
    }
    assert(spec_min_inclusive_entries(cs) =~= parsed_int_values(cs, "minInclusive"@).map_values(
        (|x: i32| RestrictionContentView::MinInclusive(x)),
    ));
}

proof fn lemma_max_entries_are_parsed_values(cs: Seq<XmlChild>)
    ensures
        spec_max_inclusive_entries(cs) == parsed_int_values(cs, "maxInclusive"@).map_values(
            (|x: i32| RestrictionContentView::MaxInclusive(x)),
        ),
    decreases cs.len(),
{
    if cs.len() > 0 {
        lemma_max_entries_are_parsed_values(cs.drop_last());
    }
    assert(spec_max_inclusive_entries(cs) =~= parsed_int_values(cs, "maxInclusive"@).map_values(
        (|x: i32| RestrictionContentView::MaxInclusive(x)),
    ));
}

/// Law: the minimum facets of a restriction carry exactly the parsed
/// values of its parsable `minInclusive` children, in document order,
/// and the maximum facets likewise; children whose `value` is absent or
/// not a signed 32-bit decimal integer contribute no value.
pub proof fn lemma_restriction_facet_values(n: XmlNode)
    ensures
        spec_min_inclusive_entries(n.children@) == parsed_int_values(
            n.children@,
            "minInclusive"@,
        ).map_values((|x: i32| RestrictionContentView::MinInclusive(x))),
        spec_max_inclusive_entries(n.children@) == parsed_int_values(
            n.children@,
            "maxInclusive"@,
        ).map_values((|x: i32| RestrictionContentView::MaxInclusive(x))),
{
    lemma_min_entries_are_parsed_values(n.children@);
    lemma_max_entries_are_parsed_values(n.children@);
}

impl Restriction {
    /// Capture the `base` attribute of `node`, then gather its facets:
    /// all `enumeration` children first, then all `minInclusive`, then all
    /// `maxInclusive`, then all `pattern`, each group in document order.
    pub fn read(node: &XmlNode) -> (r: Self)
        ensures
            r.deep_view() == spec_restriction(*node),
    {
        let mut content: Vec<RestrictionContent> = Vec::new();
        let cn = node.children.len();
        let mut i: usize = 0;
        proof {
            assert(content.deep_view() =~= spec_enumeration_entries(node.children@.take(0)));
        }
        while i < cn
            invariant
                i <= cn,
                cn == node.children.len(),
                content.deep_view() == spec_enumeration_entries(node.children@.take(i as int)),
            decreases cn - i,
        {
            proof {
                assert(node.children@.take(i as int + 1).drop_last() =~= node.children@.take(
                    i as int,
                ));
                assert(node.children@.take(i as int + 1).last() == node.children@[i as int]);
            }
            match &node.children[i] {
                XmlChild::Node(c) => {
                    if c.name_is("enumeration") {
                        match c.attribute("value") {
                            Some(v) => {
                                let ghost pre = content;
                                let e = RestrictionContent::Enumeration(v);
                                let ghost ge = e;
                                content.push(e);
                                proof {
                                    lemma_push_deep_view(pre, ge, content);
                                }
                            },
                            None => {},
                        }
                    }
                },
                _ => {},
            }
            i += 1;
        }
        proof {
            assert(node.children@.take(cn as int) =~= node.children@);
            assert(content.deep_view() =~= spec_enumeration_entries(node.children@)
                + spec_min_inclusive_entries(node.children@.take(0)));
        }
        let mut i: usize = 0;
        while i < cn
            invariant
                i <= cn,
                cn == node.children.len(),
                content.deep_view() == spec_enumeration_entries(node.children@)
                    + spec_min_inclusive_entries(node.children@.take(i as int)),
            decreases cn - i,
        {
            proof {
                assert(node.children@.take(i as int + 1).drop_last() =~= node.children@.take(
                    i as int,
                ));
                assert(node.children@.take(i as int + 1).last() == node.children@[i as int]);
            }
            match &node.children[i] {
                XmlChild::Node(c) => {
                    if c.name_is("minInclusive") {
                        match c.attribute("value") {
                            Some(v) => match parse_i32(v.as_str()) {
                                Some(x) => {
                                    let ghost pre = content;
                                    let e = RestrictionContent::MinInclusive(x);
                                    let ghost ge = e;
                                    content.push(e);
                                    proof {
                                        lemma_push_deep_view(pre, ge, content);
                                        assert(content.deep_view()
                                            =~= spec_enumeration_entries(node.children@)
                                            + spec_min_inclusive_entries(
                                            node.children@.take(i as int),
                                        ).push(RestrictionContentView::MinInclusive(x)));
                                    }
                                },
                                None => {},
                            },
                            None => {},
                        }
                    }
                },
                _ => {},
            }
            i += 1;
        }
        proof {
            assert(node.children@.take(cn as int) =~= node.children@);
            assert(content.deep_view() =~= spec_enumeration_entries(node.children@)
                + spec_min_inclusive_entries(node.children@)
                + spec_max_inclusive_entries(node.children@.take(0)));
        }
        let mut i: usize = 0;
        while i < cn
            invariant
                i <= cn,
                cn == node.children.len(),
                content.deep_view() == spec_enumeration_entries(node.children@)
                    + spec_min_inclusive_entries(node.children@)
                    + spec_max_inclusive_entries(node.children@.take(i as int)),
            decreases cn - i,
        {
            proof {
                assert(node.children@.take(i as int + 1).drop_last() =~= node.children@.take(
                    i as int,
                ));
                assert(node.children@.take(i as int + 1).last() == node.children@[i as int]);
            }
            match &node.children[i] {
                XmlChild::Node(c) => {
                    if c.name_is("maxInclusive") {
                        match c.attribute("value") {
                            Some(v) => match parse_i32(v.as_str()) {
                                Some(x) => {
                                    let ghost pre = content;
                                    let e = RestrictionContent::MaxInclusive(x);
                                    let ghost ge = e;
                                    content.push(e);
                                    proof {
                                        lemma_push_deep_view(pre, ge, content);
                                        assert(content.deep_view()
                                            =~= spec_enumeration_entries(node.children@)
                                            + spec_min_inclusive_entries(node.children@)
                                            + spec_max_inclusive_entries(
                                            node.children@.take(i as int),
                                        ).push(RestrictionContentView::MaxInclusive(x)));
                                    }
                                },
                                None => {},
                            },
                            None => {},
                        }
                    }
                },
                _ => {},
            }
            i += 1;
        }
        proof {
            assert(node.children@.take(cn as int) =~= node.children@);
            assert(content.deep_view() =~= spec_enumeration_entries(node.children@)
                + spec_min_inclusive_entries(node.children@)
                + spec_max_inclusive_entries(node.children@)
                + spec_pattern_entries(node.children@.take(0)));
        }
        let mut i: usize = 0;
        while i < cn
            invariant
                i <= cn,
                cn == node.children.len(),
                content.deep_view() == spec_enumeration_entries(node.children@)
                    + spec_min_inclusive_entries(node.children@)
                    + spec_max_inclusive_entries(node.children@)
                    + spec_pattern_entries(node.children@.take(i as int)),
            decreases cn - i,
        {
            proof {
                assert(node.children@.take(i as int + 1).drop_last() =~= node.children@.take(
                    i as int,
                ));
                assert(node.children@.take(i as int + 1).last() == node.children@[i as int]);
            }
            match &node.children[i] {
                XmlChild::Node(c) => {
                    if c.name_is("pattern") {
                        match c.attribute("value") {
                            Some(v) => {
                                let ghost pre = content;
                                let ghost gv = v;
                                let e = RestrictionContent::Pattern(v);
                                let ghost ge = e;
                                content.push(e);
                                proof {
                                    lemma_push_deep_view(pre, ge, content);
                                    assert(content.deep_view() =~= spec_enumeration_entries(
                                        node.children@,
                                    ) + spec_min_inclusive_entries(node.children@)
                                        + spec_max_inclusive_entries(node.children@)
                                        + spec_pattern_entries(
                                        node.children@.take(i as int),
                                    ).push(RestrictionContentView::Pattern(gv@)));
                                }
                            },
                            None => {},
                        }
                    }
                },
                _ => {},
            }
            i += 1;
        }
        proof {
            assert(node.children@.take(cn as int) =~= node.children@);
        }
        Restriction { base: node.attribute_or_empty("base"), content }
    }
}

} // verus!
