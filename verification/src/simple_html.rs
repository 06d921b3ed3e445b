use vstd::prelude::*;

use crate::escape::encode_minimal_text;
use crate::escape::encoded_text;

verus! {

/// Anything in the compact builder that renders itself to a page fragment.
pub trait ToHtml {
    spec fn html(&self) -> Seq<char>;

    fn to_html(&self) -> (r: String)
        ensures
            r@ == self.html(),
    ;
}

/// Plain or heading text; only the first two heading levels exist here.
pub struct Text {
    pub level: u8,
    pub content: String,
}

/// The fragment of a text run: a heading for levels one and two, the escaped
/// content bare otherwise.
pub open spec fn text_html(level: u8, content: Seq<char>) -> Seq<char> {
    if level == 1 {
        "<h1>"@ + encoded_text(content) + "</h1>"@
    } else if level == 2 {
        "<h2>"@ + encoded_text(content) + "</h2>"@
    } else {
        encoded_text(content)
    }
}

impl Text {
    pub fn new(content: &str) -> (r: Self)
        ensures
            r.level == 0,
            r.content@ == content@,
    {
        Text { level: 0, content: String::from_str(content) }
    }

    pub fn h1(content: &str) -> (r: Self)
        ensures
            r.level == 1,
            r.content@ == content@,
    {
        Text { level: 1, content: String::from_str(content) }
    }

    pub fn h2(content: &str) -> (r: Self)
        ensures
            r.level == 2,
            r.content@ == content@,
    {
        Text { level: 2, content: String::from_str(content) }
    }
}

impl ToHtml for Text {
    open spec fn html(&self) -> Seq<char> {
        text_html(self.level, self.content@)
    }

    fn to_html(&self) -> (r: String)
        ensures
            r@ == self.html(),
    {
        if self.level == 1 {
            let mut r = String::from_str("<h1>");
            r.append(encode_minimal_text(self.content.as_str()).as_str());
            r.append("</h1>");
            proof {
                reveal_strlit("<h1>");
                reveal_strlit("</h1>");
                assert(r@ =~= self.html());
            }
            r
        } else if self.level == 2 {
            let mut r = String::from_str("<h2>");
            r.append(encode_minimal_text(self.content.as_str()).as_str());
            r.append("</h2>");
            proof {
                reveal_strlit("<h2>");
                reveal_strlit("</h2>");
                assert(r@ =~= self.html());
            }
            r
        } else {
            encode_minimal_text(self.content.as_str())
        }
    }
}

/// A hyperlink with a raw target and an escaped label.
pub struct Link {
    pub href: String,
    pub text: String,
}

/// The fragment of a link.
pub open spec fn link_html(href: Seq<char>, text: Seq<char>) -> Seq<char> {
    "<a href=\""@ + href + "\">"@ + encoded_text(text) + "</a>"@
}

impl Link {
    pub fn new(href: &str, text: &str) -> (r: Self)
        ensures
            r.href@ == href@,
            r.text@ == text@,
    {
        Link { href: String::from_str(href), text: String::from_str(text) }
    }
}

impl ToHtml for Link {
    open spec fn html(&self) -> Seq<char> {
        link_html(self.href@, self.text@)
    }

    fn to_html(&self) -> (r: String)
        ensures
            r@ == self.html(),
    {
        let mut r = String::from_str("<a href=\"");
        r.append(self.href.as_str());
        r.append("\">");
        r.append(encode_minimal_text(self.text.as_str()).as_str());
        r.append("</a>");
        proof {
            reveal_strlit("<a href=\"");
            reveal_strlit("\">");
            reveal_strlit("</a>");
            assert(r@ =~= self.html());
        }
        r
    }
}

/// A division that renders self-closing when it has no child content.
pub struct Div {
    pub class_names: Vec<String>,
    pub children_html: String,
}

/// The fragment of a division: self-closing when the accumulated child
/// fragment is empty.
pub open spec fn div_html(classes: Seq<Seq<char>>, children: Seq<char>) -> Seq<char> {
    if children.len() == 0 {
        "<div"@ + crate::components::class_attr(classes) + " />"@
    } else {
        "<div"@ + crate::components::class_attr(classes) + ">"@ + children + "</div>"@
    }
}

impl Div {
    pub fn new() -> (r: Self)
        ensures
            r.class_names.deep_view() == Seq::<Seq<char>>::empty(),
            r.children_html@ == Seq::<char>::empty(),
    {
        let r = Div { class_names: Vec::new(), children_html: String::new() };
        proof {
            assert(r.class_names.deep_view() =~= Seq::<Seq<char>>::empty());
        }
        r
    }

    pub fn with_class(self, class: &str) -> (r: Self)
        ensures
            r.class_names.deep_view() == self.class_names.deep_view().push(class@),
            r.children_html == self.children_html,
    {
        let mut class_names = self.class_names;
        let ghost before = class_names.deep_view();
        class_names.push(String::from_str(class));
        proof {
            assert(class_names.deep_view() =~= before.push(class@));
        }
        Div { class_names, children_html: self.children_html }
    }

    pub fn with_child<C: ToHtml>(self, child: C) -> (r: Self)
        ensures
            r.class_names == self.class_names,
            r.children_html@ == self.children_html@ + child.html(),
    {
        let mut children_html = self.children_html;
        children_html.append(child.to_html().as_str());
        Div { class_names: self.class_names, children_html }
    }

    pub fn with_text(self, text: &str) -> (r: Self)
        ensures
            r.class_names == self.class_names,
            r.children_html@ == self.children_html@ + encoded_text(text@),
    {
        let t = Text::new(text);
        self.with_child(t)
    }

    /// Appends a sequence of child components in order.
    pub fn with_children<C: ToHtml>(self, children: Vec<C>) -> (r: Self)
        ensures
            r.class_names == self.class_names,
            r.children_html@ == self.children_html@ + simple_htmls_of(children.simple_htmls()),
    {
        let mut r = self;
        let ghost base = r.children_html@;
        let mut i: usize = 0;
        proof {
            assert(base + simple_htmls_of(children.simple_htmls().take(0)) =~= base);
        }
        while i < children.len()
            invariant
                i <= children@.len(),
                children.simple_htmls().len() == children@.len(),
                forall|j: int|
                    0 <= j < children@.len() ==> children.simple_htmls()[j] == (
                    #[trigger] children@[j]).html(),
                r.class_names == self.class_names,
                r.children_html@ == base + simple_htmls_of(
                    children.simple_htmls().take(i as int),
                ),
            decreases children@.len() - i,
        {
            let mut children_html = r.children_html;
            children_html.append(children[i].to_html().as_str());
            r = Div { class_names: r.class_names, children_html };
            i = i + 1;
            proof {
                let hs = children.simple_htmls();
                assert(hs.take(i as int).drop_last() =~= hs.take(i - 1));
                assert(hs.take(i as int).last() == hs[i - 1]);
                assert(r.children_html@ =~= base + simple_htmls_of(hs.take(i as int)));
            }
        }
        proof {
            assert(children.simple_htmls().take(children@.len() as int)
                =~= children.simple_htmls());
        }
        r
    }
}

/// The fragments of a vector of components.
pub trait SimpleSeqHtmls {
    spec fn simple_htmls(&self) -> Seq<Seq<char>>;
}

impl<C: ToHtml> SimpleSeqHtmls for Vec<C> {
    open spec fn simple_htmls(&self) -> Seq<Seq<char>> {
        Seq::new(self@.len(), |i: int| self@[i].html())
    }
}

/// The concatenation of already rendered child fragments.
pub open spec fn simple_htmls_of(htmls: Seq<Seq<char>>) -> Seq<char>
    decreases htmls.len(),
{
    if htmls.len() == 0 {
        Seq::empty()
    } else {
        simple_htmls_of(htmls.drop_last()) + htmls.last()
    }
}

impl ToHtml for Div {
    open spec fn html(&self) -> Seq<char> {
        div_html(self.class_names.deep_view(), self.children_html@)
    }

    fn to_html(&self) -> (r: String)
        ensures
            r@ == self.html(),
    {
        let mut r = String::from_str("<div");
        r.append(crate::components::render_class_attr(&self.class_names).as_str());
        if self.children_html.unicode_len() == 0 {
            r.append(" />");
            proof {
                reveal_strlit("<div");
                reveal_strlit(" />");
                assert(r@ =~= self.html());
            }
            r
        } else {
            r.append(">");
            r.append(self.children_html.as_str());
            r.append("</div>");
            proof {
                reveal_strlit("<div");
                reveal_strlit(">");
                reveal_strlit("</div>");
                assert(r@ =~= self.html());
            }
            r
        }
    }
}

} // verus!
