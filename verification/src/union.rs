use vstd::prelude::*;
use vstd::string::StrSliceExecFns;
use crate::simple_type::{
    spec_simple_type_list, view_simple_type, view_simple_type_seq, SimpleType, SimpleTypeView,
};
use crate::xml_node::{lemma_push_deep_view, spec_attr, XmlChild, XmlNode};

verus! {

/// A list of member type names plus inline anonymous simple types. The
/// member names are unresolved identifiers.
#[derive(Debug, Default)]
pub struct Union {
    pub types: Vec<String>,
    pub simple_types: Vec<SimpleType>,
}

/// Mathematical image of `Union`.
pub struct UnionView {
    pub types: Seq<Seq<char>>,
    pub simple_types: Seq<SimpleTypeView>,
}

/// The deep view of a union, spelled out recursively.
pub open spec fn view_union(u: Union) -> UnionView
    decreases u,
{
    UnionView { types: u.types.deep_view(), simple_types: view_simple_type_seq(u.simple_types@) }
}

impl DeepView for Union {
    type V = UnionView;

    open spec fn deep_view(&self) -> UnionView {
        view_union(*self)
    }
}

/// The pieces of `s` cut at every single space, scanned left to right with
/// `acc` holding the piece begun so far; pieces may be empty.
pub open spec fn spec_split_state(s: Seq<char>, acc: Seq<char>) -> Seq<Seq<char>>
    decreases s.len(),
{
    if s.len() == 0 {
        seq![acc]
    } else if s.first() == ' ' {
        seq![acc] + spec_split_state(s.drop_first(), Seq::empty())
    } else {
        spec_split_state(s.drop_first(), acc.push(s.first()))
    }
}

/// The pieces of `s` cut at every single space: the empty string yields
/// one empty piece, and doubled spaces yield empty pieces between them.
pub open spec fn spec_split_spaces(s: Seq<char>) -> Seq<Seq<char>> {
    spec_split_state(s, Seq::empty())
}

/// The member type names of `n`: the `memberTypes` attribute split on
/// single spaces, or no names at all when the attribute is absent.
pub open spec fn spec_member_types(n: XmlNode) -> Seq<Seq<char>> {
    match spec_attr(n, "memberTypes"@) {
        Some(v) => spec_split_spaces(v),
        None => Seq::empty(),
    }
}

/// The union read from `n`: its member type names, then its inline
/// `simpleType` children in document order.
pub open spec fn spec_union(n: XmlNode) -> UnionView
    decreases n,
{
    UnionView { types: spec_member_types(n), simple_types: spec_simple_type_list(n.children@) }
}

/// Split `s` at every single space, keeping empty pieces.
pub fn split_spaces(s: &str) -> (r: Vec<String>)
    ensures
        r.deep_view() == spec_split_spaces(s@),
{
    let n = s.unicode_len();
    let mut r: Vec<String> = Vec::new();
    let mut t: usize = 0;
    let mut i: usize = 0;
    proof {
        assert(s@.skip(0) =~= s@);
        assert(s@.subrange(0, 0) =~= Seq::<char>::empty());
        assert(r.deep_view() =~= Seq::<Seq<char>>::empty());
    }
    while i < n
        invariant
            t <= i <= n,
            n == s@.len(),
            spec_split_spaces(s@) == r.deep_view() + spec_split_state(
                s@.skip(i as int),
                s@.subrange(t as int, i as int),
            ),
        decreases n - i,
    {
        proof {
            assert(s@.skip(i as int).first() == s@[i as int]);
            assert(s@.skip(i as int).drop_first() =~= s@.skip(i as int + 1));
        }
        let c = s.get_char(i);
        if c == ' ' {
            let tok = s.substring_char(t, i).to_owned();
            let ghost pre = r;
            let ghost gtok = tok;
            r.push(tok);
            proof {
                lemma_push_deep_view(pre, gtok, r);
                assert(s@.subrange(i as int + 1, i as int + 1) =~= Seq::<char>::empty());
                assert(pre.deep_view().push(gtok@) =~= pre.deep_view() + seq![
                    s@.subrange(t as int, i as int),
                ]);
                assert((pre.deep_view() + seq![s@.subrange(t as int, i as int)])
                    + spec_split_state(s@.skip(i as int + 1), Seq::empty()) =~= pre.deep_view() + (
                seq![s@.subrange(t as int, i as int)] + spec_split_state(
                    s@.skip(i as int + 1),
                    Seq::empty(),
                )));
            }
            t = i + 1;
        } else {
            proof {
                assert(s@.subrange(t as int, i as int).push(s@[i as int]) =~= s@.subrange(
                    t as int,
                    i as int + 1,
                ));
            }
        }
        i += 1;
    }
    let tok = s.substring_char(t, n).to_owned();
    let ghost pre = r;
    let ghost gtok = tok;
    r.push(tok);
    proof {
        lemma_push_deep_view(pre, gtok, r);
        assert(pre.deep_view().push(gtok@) =~= pre.deep_view() + seq![
            s@.subrange(t as int, n as int),
        ]);
    }
    r
}

impl Union {
    /// Split the `memberTypes` attribute of `node` on single spaces when
    /// present, then gather its inline `simpleType` children in document
    /// order.
    pub fn read(node: &XmlNode) -> (r: Self)
        ensures
            r.deep_view() == spec_union(*node),
        decreases *node,
    {
        let mut types: Vec<String> = Vec::new();
        match node.attribute("memberTypes") {
            Some(v) => {
                types = split_spaces(v.as_str());
            },
            None => {},
        }
        proof {
            assert(types.deep_view() =~= spec_member_types(*node));
        }
        let mut simple_types: Vec<SimpleType> = Vec::new();
        let mut i: usize = 0;
        proof {
            assert(view_simple_type_seq(simple_types@) =~= spec_simple_type_list(
                node.children@.take(0),
            ));
        }
        while i < node.children.len()
            invariant
                i <= node.children.len(),
                types.deep_view() == spec_member_types(*node),
                view_simple_type_seq(simple_types@) == spec_simple_type_list(
                    node.children@.take(i as int),
                ),
            decreases node.children.len() - i,
        {
            proof {
                assert(node.children@.take(i as int + 1).drop_last() =~= node.children@.take(
                    i as int,
                ));
                assert(node.children@.take(i as int + 1).last() == node.children@[i as int]);
            }
            match &node.children[i] {
                XmlChild::Node(c) => {
                    if c.name_is("simpleType") {
                        let ghost pre = simple_types@;
                        let e = SimpleType::read(c);
                        let ghost ge = e;
                        simple_types.push(e);
                        proof {
                            assert(pre.push(ge).drop_last() =~= pre);
                            assert(view_simple_type_seq(simple_types@) == view_simple_type_seq(
                                pre,
                            ).push(view_simple_type(ge)));
                        }
                    }
                },
                _ => {},
            }
            i += 1;
        }
        proof {
            assert(node.children@.take(node.children@.len() as int) =~= node.children@);
        }
        Union { types, simple_types }
    }
}

} // verus!
