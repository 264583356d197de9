use vstd::prelude::*;
use vstd::string::StringExecFns;

verus! {

/// One element of a parsed XML document: its tag name (local name, without
/// any namespace prefix), its attributes keyed by local name, and its
/// children in document order.
pub struct XmlNode {
    pub name: String,
    pub attributes: Vec<(String, String)>,
    pub children: Vec<XmlChild>,
}

/// One child of an element, in document order. Schema builders walk the
/// `Node` children by tag name and read text through `text_content`; the
/// remaining kinds are carried along untouched and never inspected.
pub enum XmlChild {
    Node(XmlNode),
    Text(String),
    CData(String),
    Comment(String),
    ProcessingInstruction(String, Option<String>),
}

/// The first value bound to `key` in an attribute list, if any.
pub open spec fn spec_lookup(attrs: Seq<(String, String)>, key: Seq<char>) -> Option<Seq<char>>
    decreases attrs.len(),
{
    if attrs.len() == 0 {
        None
    } else if attrs.first().0@ == key {
        Some(attrs.first().1@)
    } else {
        spec_lookup(attrs.drop_first(), key)
    }
}

/// The value of attribute `key` on `n`, if present.
pub open spec fn spec_attr(n: XmlNode, key: Seq<char>) -> Option<Seq<char>> {
    spec_lookup(n.attributes@, key)
}

/// The value of attribute `key` on `n`, or the empty string when absent.
pub open spec fn spec_attr_or_empty(n: XmlNode, key: Seq<char>) -> Seq<char> {
    match spec_attr(n, key) {
        Some(v) => v,
        None => Seq::empty(),
    }
}

/// Whether `c` is an element child carrying the tag name `tag`.
pub open spec fn is_tagged(c: XmlChild, tag: Seq<char>) -> bool {
    c matches XmlChild::Node(n) && n.name@ == tag
}

/// The element held by a `Node` child.
pub open spec fn child_node(c: XmlChild) -> XmlNode
    recommends
        c is Node,
{
    c->Node_0
}

/// The element children of `cs` carrying the tag name `tag`, in document
/// order.
pub open spec fn tagged_nodes(cs: Seq<XmlChild>, tag: Seq<char>) -> Seq<XmlNode>
    decreases cs.len(),
{
    if cs.len() == 0 {
        Seq::empty()
    } else {
        let rest = tagged_nodes(cs.drop_last(), tag);
        if is_tagged(cs.last(), tag) {
            rest.push(child_node(cs.last()))
        } else {
            rest
        }
    }
}

/// The text and character-data pieces among `cs`, in document order.
pub open spec fn spec_text_pieces(cs: Seq<XmlChild>) -> Seq<Seq<char>>
    decreases cs.len(),
{
    if cs.len() == 0 {
        Seq::empty()
    } else {
        let rest = spec_text_pieces(cs.drop_last());
        match cs.last() {
            XmlChild::Text(s) => rest.push(s@),
            XmlChild::CData(s) => rest.push(s@),
            _ => rest,
        }
    }
}

/// The concatenation of a list of strings.
pub open spec fn spec_concat(pieces: Seq<Seq<char>>) -> Seq<char>
    decreases pieces.len(),
{
    if pieces.len() == 0 {
        Seq::empty()
    } else {
        spec_concat(pieces.drop_last()) + pieces.last()
    }
}

/// The text of a node: the concatenation of its text and character-data
/// children, or nothing when it has none at all.
pub open spec fn spec_text(n: XmlNode) -> Option<Seq<char>> {
    if spec_text_pieces(n.children@).len() == 0 {
        None
    } else {
        Some(spec_concat(spec_text_pieces(n.children@)))
    }
}

impl XmlNode {
    /// Whether this element carries the tag name `tag`.
    pub fn name_is(&self, tag: &str) -> (r: bool)
        ensures
            r == (self.name@ == tag@),
    {
        let t: String = tag.to_owned();
        self.name == t
    }

    /// Non-destructive lookup of an attribute value by name.
    pub fn attribute(&self, key: &str) -> (r: Option<String>)
        ensures
            r.deep_view() == spec_attr(*self, key@),
    {
        let k: String = key.to_owned();
        let mut i: usize = 0;
        proof {
            assert(self.attributes@.skip(0) =~= self.attributes@);
        }
        while i < self.attributes.len()
            invariant
                i <= self.attributes.len(),
                k@ == key@,
                spec_lookup(self.attributes@.skip(i as int), key@) == spec_attr(*self, key@),
            decreases self.attributes.len() - i,
        {
            proof {
                assert(self.attributes@.skip(i as int).first() == self.attributes@[i as int]);
                assert(self.attributes@.skip(i as int).drop_first() =~= self.attributes@.skip(
                    i as int + 1,
                ));
            }
            if self.attributes[i].0 == k {
                return Some(self.attributes[i].1.clone());
            }
            i += 1;
        }
        None
    }

    /// The attribute value under `key`, or the empty string when absent.
    pub fn attribute_or_empty(&self, key: &str) -> (r: String)
        ensures
            r@ == spec_attr_or_empty(*self, key@),
    {
        match self.attribute(key) {
            Some(v) => v,
            None => String::new(),
        }
    }

    /// The node's text, or nothing if it has no text or character-data
    /// children.
    pub fn text_content(&self) -> (r: Option<String>)
        ensures
            r.deep_view() == spec_text(*self),
    {
        let mut acc = String::new();
        let mut found = false;
        let mut i: usize = 0;
        while i < self.children.len()
            invariant
                i <= self.children.len(),
                found == (spec_text_pieces(self.children@.take(i as int)).len() > 0),
                acc@ == spec_concat(spec_text_pieces(self.children@.take(i as int))),
            decreases self.children.len() - i,
        {
            proof {
                assert(self.children@.take(i as int + 1).drop_last() =~= self.children@.take(
                    i as int,
                ));
                assert(self.children@.take(i as int + 1).last() == self.children@[i as int]);
            }
            let ghost pieces = spec_text_pieces(self.children@.take(i as int));
            match &self.children[i] {
                XmlChild::Text(s) => {
                    proof {
                        assert(pieces.push(s@).drop_last() =~= pieces);
                    }
                    acc.append(s.as_str());
                    found = true;
                },
                XmlChild::CData(s) => {
                    proof {
                        assert(pieces.push(s@).drop_last() =~= pieces);
                    }
                    acc.append(s.as_str());
                    found = true;
                },
                _ => {},
            }
            i += 1;
        }
        proof {
            assert(self.children@.take(self.children@.len() as int) =~= self.children@);
        }
        if found {
            Some(acc)
        } else {
            None
        }
    }
}

/// Pushing onto a vector appends the element's deep view to the vector's.
pub proof fn lemma_push_deep_view<T: DeepView>(pre: Vec<T>, x: T, post: Vec<T>)
    requires
        post@ == pre@.push(x),
    ensures
        post.deep_view() == pre.deep_view().push(x.deep_view()),
{
    assert(post.deep_view() =~= pre.deep_view().push(x.deep_view()));
}

} // verus!
