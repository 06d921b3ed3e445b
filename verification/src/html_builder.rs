use vstd::prelude::*;

verus! {

/// A tag node: its name and its children in order.
#[derive(Debug, PartialEq)]
pub struct HtmlTag {
    pub tag: String,
    pub children: Vec<HtmlNode>,
}

/// A node of the document tree: a tag with children, or raw text.
#[derive(Debug, PartialEq)]
pub enum HtmlNode {
    Tag(HtmlTag),
    Text(String),
}

/// The rendered text of a node: its children between its opening and closing
/// tags, or the raw text itself.
pub open spec fn node_html(n: HtmlNode) -> Seq<char>
    decreases n,
{
    match n {
        HtmlNode::Tag(tag) => seq!['<'] + tag.tag@ + seq!['>'] + nodes_html(tag.children@) + seq![
            '<',
            '/',
        ] + tag.tag@ + seq!['>'],
        HtmlNode::Text(text) => text@,
    }
}

/// The concatenated rendered text of a sequence of nodes.
pub open spec fn nodes_html(s: Seq<HtmlNode>) -> Seq<char>
    decreases s,
{
    if s.len() == 0 {
        Seq::empty()
    } else {
        nodes_html(s.drop_last()) + node_html(s.last())
    }
}

impl HtmlTag {
    /// An empty tag with the given name.
    pub fn new(tag: &str) -> (r: Self)
        ensures
            r.tag@ == tag@,
            r.children@ == Seq::<HtmlNode>::empty(),
    {
        HtmlTag { tag: String::from_str(tag), children: Vec::new() }
    }

    /// Appends a child node.
    pub fn add_child(&mut self, child: HtmlNode)
        ensures
            final(self).tag == old(self).tag,
            final(self).children@ == old(self).children@.push(child),
    {
        self.children.push(child);
    }
}

impl HtmlNode {
    /// A division node.
    pub fn div() -> (r: Self)
        ensures
            r matches HtmlNode::Tag(t) && t.tag@ == "div"@ && t.children@ == Seq::<
                HtmlNode,
            >::empty(),
    {
        HtmlNode::new("div")
    }

    /// A span node.
    pub fn span() -> (r: Self)
        ensures
            r matches HtmlNode::Tag(t) && t.tag@ == "span"@ && t.children@ == Seq::<
                HtmlNode,
            >::empty(),
    {
        HtmlNode::new("span")
    }

    /// A strong node.
    pub fn strong() -> (r: Self)
        ensures
            r matches HtmlNode::Tag(t) && t.tag@ == "strong"@ && t.children@ == Seq::<
                HtmlNode,
            >::empty(),
    {
        HtmlNode::new("strong")
    }

    /// A raw text node.
    pub fn text(text: &str) -> (r: Self)
        ensures
            r matches HtmlNode::Text(t) && t@ == text@,
    {
        HtmlNode::Text(String::from_str(text))
    }

    /// An empty tag node with the given name.
    pub fn new(tag: &str) -> (r: Self)
        ensures
            r matches HtmlNode::Tag(t) && t.tag@ == tag@ && t.children@ == Seq::<
                HtmlNode,
            >::empty(),
    {
        HtmlNode::Tag(HtmlTag::new(tag))
    }

    /// Appends a child to a tag node; only tag nodes can hold children.
    pub fn add_child(&mut self, child: HtmlNode)
        requires
            *old(self) is Tag,
        ensures
            *final(self) matches HtmlNode::Tag(t) && *old(self) matches HtmlNode::Tag(ot)
                && t.tag == ot.tag && t.children@ == ot.children@.push(child),
    {
        match self {
            HtmlNode::Tag(tag) => tag.add_child(child),
            HtmlNode::Text(_) => {},
        }
    }

    /// Renders the node and everything below it.
    #[verifier::loop_isolation(false)]
    pub fn render(&self) -> (r: String)
        ensures
            r@ == node_html(*self),
        decreases *self,
    {
        match self {
            HtmlNode::Tag(tag) => {
                let mut r = String::from_str("<");
                r.append(tag.tag.as_str());
                r.append(">");
                let mut i: usize = 0;
                let ghost children = tag.children@;
                proof {
                    reveal_strlit("<");
                    reveal_strlit(">");
                    assert(r@ =~= seq!['<'] + tag.tag@ + seq!['>'] + nodes_html(
                        children.take(0),
                    ));
                }
                while i < tag.children.len()
                    invariant
                        i <= children.len(),
                        children == tag.children@,
                        r@ == seq!['<'] + tag.tag@ + seq!['>'] + nodes_html(
                            children.take(i as int),
                        ),
                    decreases children.len() - i,
                {
                    let child_html = tag.children[i].render();
                    r.append(child_html.as_str());
                    i = i + 1;
                    proof {
                        assert(children.take(i as int).drop_last() =~= children.take(i - 1));
                        assert(children.take(i as int).last() == children[i - 1]);
                        assert(r@ =~= seq!['<'] + tag.tag@ + seq!['>'] + nodes_html(
                            children.take(i as int),
                        ));
                    }
                }
                r.append("</");
                r.append(tag.tag.as_str());
                r.append(">");
                proof {
                    reveal_strlit("</");
                    reveal_strlit(">");
                    assert(children.take(children.len() as int) =~= children);
                    assert(r@ =~= node_html(*self));
                }
                r
            },
            HtmlNode::Text(text) => text.clone(),
        }
    }
}

} // verus!
