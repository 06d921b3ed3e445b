use vstd::prelude::*;

use crate::escape::encode_minimal_text;
use crate::escape::encoded_text;
use crate::text::dec_digit;

verus! {

/// Anything that renders itself to a page fragment; the fragment is pinned
/// exactly by `html`.
pub trait ToHtml {
    spec fn html(&self) -> Seq<char>;

    fn to_html(&self) -> (r: String)
        ensures
            r@ == self.html(),
    ;
}

/// The class attribute for a list of class names: nothing for an empty list,
/// otherwise the names joined with single spaces.
pub open spec fn class_attr(classes: Seq<Seq<char>>) -> Seq<char>
    decreases classes.len(),
{
    if classes.len() == 0 {
        Seq::empty()
    } else if classes.len() == 1 {
        " class=\""@ + classes[0] + "\""@
    } else {
        class_attr(classes.drop_last()).drop_last() + seq![' '] + classes.last() + "\""@
    }
}

/// The class names joined with single spaces.
pub open spec fn space_joined(classes: Seq<Seq<char>>) -> Seq<char>
    decreases classes.len(),
{
    if classes.len() == 0 {
        Seq::empty()
    } else if classes.len() == 1 {
        classes[0]
    } else {
        space_joined(classes.drop_last()) + seq![' '] + classes.last()
    }
}

pub proof fn lemma_class_attr(classes: Seq<Seq<char>>)
    ensures
        classes.len() > 0 ==> class_attr(classes) == " class=\""@ + space_joined(classes)
            + "\""@,
    decreases classes.len(),
{
    reveal_strlit(" class=\"");
    reveal_strlit("\"");
    if classes.len() > 1 {
        lemma_class_attr(classes.drop_last());
        assert((" class=\""@ + space_joined(classes.drop_last()) + "\""@).drop_last()
            =~= " class=\""@ + space_joined(classes.drop_last()));
        assert(class_attr(classes) =~= " class=\""@ + space_joined(classes) + "\""@);
    } else if classes.len() == 1 {
    }
}

/// Builds the class attribute text for the given names.
pub fn render_class_attr(classes: &Vec<String>) -> (r: String)
    ensures
        r@ == class_attr(classes.deep_view()),
{
    let mut r = String::new();
    if classes.len() == 0 {
        proof {
            assert(r@ =~= class_attr(classes.deep_view()));
        }
        return r;
    }
    r.append(" class=\"");
    let mut i: usize = 0;
    while i < classes.len()
        invariant
            classes@.len() > 0,
            i <= classes@.len(),
            classes.deep_view().len() == classes@.len(),
            i == 0 ==> r@ == " class=\""@,
            i > 0 ==> r@ == " class=\""@ + space_joined(classes.deep_view().take(i as int)),
        decreases classes@.len() - i,
    {
        if i > 0 {
            r.append(" ");
        }
        r.append(classes[i].as_str());
        proof {
            reveal_strlit(" class=\"");
            reveal_strlit(" ");
            let now = classes.deep_view().take(i + 1);
            assert(now.drop_last() =~= classes.deep_view().take(i as int));
            assert(now.last() == classes.deep_view()[i as int]);
            assert(r@ =~= " class=\""@ + space_joined(now));
        }
        i = i + 1;
    }
    r.append("\"");
    proof {
        reveal_strlit(" class=\"");
        reveal_strlit("\"");
        assert(classes.deep_view().take(classes.deep_view().len() as int)
            =~= classes.deep_view());
        lemma_class_attr(classes.deep_view());
        assert(r@ =~= class_attr(classes.deep_view()));
    }
    r
}

/// A run of plain or heading text with optional class names. Levels one to
/// six render as headings; any other level renders the escaped content bare.
pub struct Text {
    pub level: u8,
    pub content: String,
    pub class_names: Vec<String>,
}

/// The fragment of a text run.
pub open spec fn text_html(level: u8, content: Seq<char>, classes: Seq<Seq<char>>) -> Seq<char> {
    if 1 <= level <= 6 {
        seq!['<', 'h', dec_digit(level as nat)] + class_attr(classes) + seq!['>'] + encoded_text(
            content,
        ) + seq!['<', '/', 'h', dec_digit(level as nat), '>']
    } else {
        encoded_text(content)
    }
}

impl Text {
    /// Plain text.
    pub fn new(content: &str) -> (r: Self)
        ensures
            r.level == 0,
            r.content@ == content@,
            r.class_names.deep_view() == Seq::<Seq<char>>::empty(),
    {
        let r = Text { level: 0, content: String::from_str(content), class_names: Vec::new() };
        proof {
            assert(r.class_names.deep_view() =~= Seq::<Seq<char>>::empty());
        }
        r
    }

    /// A first-level heading.
    pub fn h1(content: &str) -> (r: Self)
        ensures
            r.level == 1,
            r.content@ == content@,
            r.class_names.deep_view() == Seq::<Seq<char>>::empty(),
    {
        Text { level: 1, ..Text::new(content) }
    }

    /// A second-level heading.
    pub fn h2(content: &str) -> (r: Self)
        ensures
            r.level == 2,
            r.content@ == content@,
            r.class_names.deep_view() == Seq::<Seq<char>>::empty(),
    {
        Text { level: 2, ..Text::new(content) }
    }

    /// Adds a class name.
    pub fn with_class(self, class: &str) -> (r: Self)
        ensures
            r.level == self.level,
            r.content == self.content,
            r.class_names.deep_view() == self.class_names.deep_view().push(class@),
    {
        let mut class_names = self.class_names;
        let ghost before = class_names.deep_view();
        class_names.push(String::from_str(class));
        proof {
            assert(class_names.deep_view() =~= before.push(class@));
        }
        Text { level: self.level, content: self.content, class_names }
    }
}

impl ToHtml for Text {
    open spec fn html(&self) -> Seq<char> {
        text_html(self.level, self.content@, self.class_names.deep_view())
    }

    fn to_html(&self) -> (r: String)
        ensures
            r@ == self.html(),
    {
        if 1 <= self.level && self.level <= 6 {
            let mut r = String::from_str("<h");
            r.append(crate::text::digit_to_str(self.level as u64));
            r.append(render_class_attr(&self.class_names).as_str());
            r.append(">");
            r.append(encode_minimal_text(self.content.as_str()).as_str());
            r.append("</h");
            r.append(crate::text::digit_to_str(self.level as u64));
            r.append(">");
            proof {
                reveal_strlit("<h");
                reveal_strlit(">");
                reveal_strlit("</h");
                assert(r@ =~= self.html());
            }
            r
        } else {
            encode_minimal_text(self.content.as_str())
        }
    }
}

/// A hyperlink around an already rendered child fragment; the target is taken
/// as given, the label was escaped when the child rendered itself.
pub struct Link {
    pub href: String,
    pub child_html: String,
}

/// The fragment of a link.
pub open spec fn link_html(href: Seq<char>, child: Seq<char>) -> Seq<char> {
    "<a href=\""@ + href + "\">"@ + child + "</a>"@
}

impl Link {
    /// A link around any component.
    pub fn from_child<C: ToHtml>(href: &str, child: &C) -> (r: Self)
        ensures
            r.href@ == href@,
            r.child_html@ == child.html(),
    {
        Link { href: String::from_str(href), child_html: child.to_html() }
    }

    /// A link around escaped plain text.
    pub fn from_text(href: &str, text: &str) -> (r: Self)
        ensures
            r.href@ == href@,
            r.child_html@ == encoded_text(text@),
    {
        let t = Text::new(text);
        Link { href: String::from_str(href), child_html: t.to_html() }
    }

    /// A link for a computed navigation payload.
    pub fn from_link_payload(payload: crate::links::LinkPayload) -> (r: Self)
        ensures
            r.href@ == payload.link@,
            r.child_html@ == encoded_text(payload.text@),
    {
        let t = Text::new(payload.text.as_str());
        Link { href: payload.link, child_html: t.to_html() }
    }
}

impl ToHtml for Link {
    open spec fn html(&self) -> Seq<char> {
        link_html(self.href@, self.child_html@)
    }

    fn to_html(&self) -> (r: String)
        ensures
            r@ == self.html(),
    {
        let mut r = String::from_str("<a href=\"");
        r.append(self.href.as_str());
        r.append("\">");
        r.append(self.child_html.as_str());
        r.append("</a>");
        proof {
            reveal_strlit("<a href=\"");
            reveal_strlit("\">");
            reveal_strlit("</a>");
            assert(r@ =~= self.html());
        }
        r
    }
}

/// An image with a source and escaped alternative text.
pub struct Img {
    pub src: String,
    pub alt: String,
}

/// The fragment of an image.
pub open spec fn img_html(src: Seq<char>, alt: Seq<char>) -> Seq<char> {
    "<img src=\""@ + src + "\" alt=\""@ + encoded_text(alt) + "\" />"@
}

impl Img {
    pub fn new(src: &str, alt: &str) -> (r: Self)
        ensures
            r.src@ == src@,
            r.alt@ == alt@,
    {
        Img { src: String::from_str(src), alt: String::from_str(alt) }
    }
}

impl ToHtml for Img {
    open spec fn html(&self) -> Seq<char> {
        img_html(self.src@, self.alt@)
    }

    fn to_html(&self) -> (r: String)
        ensures
            r@ == self.html(),
    {
        let mut r = String::from_str("<img src=\"");
        r.append(self.src.as_str());
        r.append("\" alt=\"");
        r.append(encode_minimal_text(self.alt.as_str()).as_str());
        r.append("\" />");
        proof {
            reveal_strlit("<img src=\"");
            reveal_strlit("\" alt=\"");
            reveal_strlit("\" />");
            assert(r@ =~= self.html());
        }
        r
    }
}

/// A block of escaped preformatted text.
pub struct Pre {
    pub content: String,
}

/// The fragment of a preformatted block.
pub open spec fn pre_html(content: Seq<char>) -> Seq<char> {
    "<pre>"@ + encoded_text(content) + "</pre>"@
}

impl Pre {
    pub fn new(content: &str) -> (r: Self)
        ensures
            r.content@ == content@,
    {
        Pre { content: String::from_str(content) }
    }
}

impl ToHtml for Pre {
    open spec fn html(&self) -> Seq<char> {
        pre_html(self.content@)
    }

    fn to_html(&self) -> (r: String)
        ensures
            r@ == self.html(),
    {
        let mut r = String::from_str("<pre>");
        r.append(encode_minimal_text(self.content.as_str()).as_str());
        r.append("</pre>");
        proof {
            reveal_strlit("<pre>");
            reveal_strlit("</pre>");
            assert(r@ =~= self.html());
        }
        r
    }
}

/// A division with class names and children; each child is rendered the
/// moment it is added, so the accumulated fragment pins the final page text.
pub struct Div {
    pub class_names: Vec<String>,
    pub children_html: String,
}

/// The fragment of a division.
pub open spec fn div_html(classes: Seq<Seq<char>>, children: Seq<char>) -> Seq<char> {
    "<div"@ + class_attr(classes) + ">"@ + children + "</div>"@
}

impl Div {
    pub fn new() -> (r: Self)
        ensures
            r.class_names.deep_view() == Seq::<Seq<char>>::empty(),
            r.children_html@ == Seq::<char>::empty(),
    {
        let r = Div { class_names: Vec::new(), children_html: String::new() };
        proof {
            assert(r.class_names.deep_view() =~= Seq::<Seq<char>>::empty());
        }
        r
    }

    /// Adds a class name.
    pub fn with_class(self, class: &str) -> (r: Self)
        ensures
            r.class_names.deep_view() == self.class_names.deep_view().push(class@),
            r.children_html == self.children_html,
    {
        let mut class_names = self.class_names;
        let ghost before = class_names.deep_view();
        class_names.push(String::from_str(class));
        proof {
            assert(class_names.deep_view() =~= before.push(class@));
        }
        Div { class_names, children_html: self.children_html }
    }

    /// Appends one child component.
    pub fn with_child<C: ToHtml>(self, child: C) -> (r: Self)
        ensures
            r.class_names == self.class_names,
            r.children_html@ == self.children_html@ + child.html(),
    {
        let mut children_html = self.children_html;
        children_html.append(child.to_html().as_str());
        Div { class_names: self.class_names, children_html }
    }

    /// Appends escaped plain text.
    pub fn with_text(self, text: &str) -> (r: Self)
        ensures
            r.class_names == self.class_names,
            r.children_html@ == self.children_html@ + encoded_text(text@),
    {
        let t = Text::new(text);
        self.with_child(t)
    }

    /// Appends a sequence of child components in order.
    pub fn with_children<C: ToHtml>(self, children: Vec<C>) -> (r: Self)
        ensures
            r.class_names == self.class_names,
            r.children_html@ == self.children_html@ + children_html_of(children.deep_view_htmls()),
    {
        let mut r = self;
        let ghost base = r.children_html@;
        let mut i: usize = 0;
        proof {
            assert(base + children_html_of(children.deep_view_htmls().take(0)) =~= base);
        }
        while i < children.len()
            invariant
                i <= children@.len(),
                children.deep_view_htmls().len() == children@.len(),
                forall|j: int|
                    0 <= j < children@.len() ==> children.deep_view_htmls()[j] == (
                    #[trigger] children@[j]).html(),
                r.class_names == self.class_names,
                r.children_html@ == base + children_html_of(
                    children.deep_view_htmls().take(i as int),
                ),
            decreases children@.len() - i,
        {
            let ghost before = r.children_html@;
            r = r.with_child_ref(&children[i]);
            i = i + 1;
            proof {
                let hs = children.deep_view_htmls();
                assert(hs.take(i as int).drop_last() =~= hs.take(i - 1));
                assert(hs.take(i as int).last() == hs[i - 1]);
                assert(r.children_html@ =~= base + children_html_of(hs.take(i as int)));
            }
        }
        proof {
            assert(children.deep_view_htmls().take(children@.len() as int)
                =~= children.deep_view_htmls());
        }
        r
    }

    /// Appends one child component by reference.
    pub fn with_child_ref<C: ToHtml>(self, child: &C) -> (r: Self)
        ensures
            r.class_names == self.class_names,
            r.children_html@ == self.children_html@ + child.html(),
    {
        let mut children_html = self.children_html;
        children_html.append(child.to_html().as_str());
        Div { class_names: self.class_names, children_html }
    }
}

/// The htmls of a vector of components.
pub trait ComponentSeqHtmls {
    spec fn deep_view_htmls(&self) -> Seq<Seq<char>>;
}

impl<C: ToHtml> ComponentSeqHtmls for Vec<C> {
    open spec fn deep_view_htmls(&self) -> Seq<Seq<char>> {
        Seq::new(self@.len(), |i: int| self@[i].html())
    }
}

/// The concatenation of already rendered child fragments.
pub open spec fn children_html_of(htmls: Seq<Seq<char>>) -> Seq<char>
    decreases htmls.len(),
{
    if htmls.len() == 0 {
        Seq::empty()
    } else {
        children_html_of(htmls.drop_last()) + htmls.last()
    }
}

impl ToHtml for Div {
    open spec fn html(&self) -> Seq<char> {
        div_html(self.class_names.deep_view(), self.children_html@)
    }

    fn to_html(&self) -> (r: String)
        ensures
            r@ == self.html(),
    {
        let mut r = String::from_str("<div");
        r.append(render_class_attr(&self.class_names).as_str());
        r.append(">");
        r.append(self.children_html.as_str());
        r.append("</div>");
        proof {
            reveal_strlit("<div");
            reveal_strlit(">");
            reveal_strlit("</div>");
            assert(r@ =~= self.html());
        }
        r
    }
}

/// One table row with class names and already rendered cells.
pub struct Row {
    pub class_names: Vec<String>,
    pub cells_html: String,
}

/// The fragment of a row.
pub open spec fn row_html(classes: Seq<Seq<char>>, cells: Seq<char>) -> Seq<char> {
    "<tr"@ + class_attr(classes) + ">"@ + cells + "</tr>"@
}

impl Row {
    pub fn new() -> (r: Self)
        ensures
            r.class_names.deep_view() == Seq::<Seq<char>>::empty(),
            r.cells_html@ == Seq::<char>::empty(),
    {
        let r = Row { class_names: Vec::new(), cells_html: String::new() };
        proof {
            assert(r.class_names.deep_view() =~= Seq::<Seq<char>>::empty());
        }
        r
    }

    /// Adds a class name.
    pub fn with_class(self, class: &str) -> (r: Self)
        ensures
            r.class_names.deep_view() == self.class_names.deep_view().push(class@),
            r.cells_html == self.cells_html,
    {
        let mut class_names = self.class_names;
        let ghost before = class_names.deep_view();
        class_names.push(String::from_str(class));
        proof {
            assert(class_names.deep_view() =~= before.push(class@));
        }
        Row { class_names, cells_html: self.cells_html }
    }

    /// Appends one cell holding the given component.
    pub fn with_cell<C: ToHtml>(self, cell: C) -> (r: Self)
        ensures
            r.class_names == self.class_names,
            r.cells_html@ == self.cells_html@ + "<td>"@ + cell.html() + "</td>"@,
    {
        let mut cells_html = self.cells_html;
        cells_html.append("<td>");
        cells_html.append(cell.to_html().as_str());
        cells_html.append("</td>");
        proof {
            reveal_strlit("<td>");
            reveal_strlit("</td>");
        }
        Row { class_names: self.class_names, cells_html }
    }
}

impl ToHtml for Row {
    open spec fn html(&self) -> Seq<char> {
        row_html(self.class_names.deep_view(), self.cells_html@)
    }

    fn to_html(&self) -> (r: String)
        ensures
            r@ == self.html(),
    {
        let mut r = String::from_str("<tr");
        r.append(render_class_attr(&self.class_names).as_str());
        r.append(">");
        r.append(self.cells_html.as_str());
        r.append("</tr>");
        proof {
            reveal_strlit("<tr");
            reveal_strlit(">");
            reveal_strlit("</tr>");
            assert(r@ =~= self.html());
        }
        r
    }
}

/// A table made of already rendered rows.
pub struct Table {
    pub rows_html: String,
}

/// The fragment of a table.
pub open spec fn table_html(rows: Seq<char>) -> Seq<char> {
    "<table>"@ + rows + "</table>"@
}

impl Table {
    pub fn new() -> (r: Self)
        ensures
            r.rows_html@ == Seq::<char>::empty(),
    {
        Table { rows_html: String::new() }
    }

    /// Appends one row.
    pub fn with_row(self, row: Row) -> (r: Self)
        ensures
            r.rows_html@ == self.rows_html@ + row.html(),
    {
        let mut rows_html = self.rows_html;
        rows_html.append(row.to_html().as_str());
        Table { rows_html }
    }

    /// Appends a sequence of rows in order.
    pub fn with_rows(self, rows: Vec<Row>) -> (r: Self)
        ensures
            r.rows_html@ == self.rows_html@ + children_html_of(rows.deep_view_htmls()),
    {
        let mut r = self;
        let ghost base = r.rows_html@;
        let mut i: usize = 0;
        proof {
            assert(base + children_html_of(rows.deep_view_htmls().take(0)) =~= base);
        }
        while i < rows.len()
            invariant
                i <= rows@.len(),
                rows.deep_view_htmls().len() == rows@.len(),
                forall|j: int|
                    0 <= j < rows@.len() ==> rows.deep_view_htmls()[j] == (
                    #[trigger] rows@[j]).html(),
                r.rows_html@ == base + children_html_of(rows.deep_view_htmls().take(i as int)),
            decreases rows@.len() - i,
        {
            let mut rows_html = r.rows_html;
            rows_html.append(rows[i].to_html().as_str());
            r = Table { rows_html };
            i = i + 1;
            proof {
                let hs = rows.deep_view_htmls();
                assert(hs.take(i as int).drop_last() =~= hs.take(i - 1));
                assert(hs.take(i as int).last() == hs[i - 1]);
                assert(r.rows_html@ =~= base + children_html_of(hs.take(i as int)));
            }
        }
        proof {
            assert(rows.deep_view_htmls().take(rows@.len() as int) =~= rows.deep_view_htmls());
        }
        r
    }
}

impl ToHtml for Table {
    open spec fn html(&self) -> Seq<char> {
        table_html(self.rows_html@)
    }

    fn to_html(&self) -> (r: String)
        ensures
            r@ == self.html(),
    {
        let mut r = String::from_str("<table>");
        r.append(self.rows_html.as_str());
        r.append("</table>");
        proof {
            reveal_strlit("<table>");
            reveal_strlit("</table>");
            assert(r@ =~= self.html());
        }
        r
    }
}

} // verus!
