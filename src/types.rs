use vstd::prelude::*;

use crate::dom::{anchors, attr_of, subtree_end, text_of, Document, NodeData, Predicate};
use crate::html::{escape, escaped};
use crate::number::{int_text, int_to_text};

verus! {

/// Why a part of an issue could not be read from its document.
#[derive(Debug, Clone, Copy, PartialEq, Eq, Structural)]
pub enum ExtractError {
    /// The node holds no anchor element.
    MissingAnchor,
    /// The anchor has no `href` attribute.
    MissingTarget,
    /// No node marks the section.
    MissingSection,
    /// The section lacks one of the parts it is made of.
    MalformedSection,
    /// The issue number is not a number.
    InvalidId,
}

/// The trailing marker that item rows carry after their text.
pub open spec fn discuss_marker() -> Seq<char> {
    ". [discuss]"@
}

/// `s` without the trailing marker, where it ends with it; `s` otherwise.
pub open spec fn strip_marker(s: Seq<char>) -> Seq<char> {
    let m = discuss_marker();
    if s.len() >= m.len() && s.subrange(s.len() - m.len(), s.len() as int) == m {
        s.subrange(0, s.len() - m.len())
    } else {
        s
    }
}

/// A link as plain values: the visible text and the target.
pub struct LinkView {
    pub text: Seq<char>,
    pub link: Seq<char>,
}

/// A link taken out of a document: its text and its target, both escaped.
#[derive(Debug)]
pub struct Link {
    pub link: String,
    pub text: String,
}

impl View for Link {
    type V = LinkView;

    open spec fn view(&self) -> LinkView {
        LinkView { text: self.text@, link: self.link@ }
    }
}

/// The link that node `i` of `nodes` stands for, or why there is none.
pub open spec fn link_of(nodes: Seq<NodeData>, i: int) -> Result<LinkView, ExtractError> {
    let a = anchors(nodes, i + 1, subtree_end(nodes, i));
    if a.len() == 0 {
        Err(ExtractError::MissingAnchor)
    } else {
        match attr_of(nodes[a[0] as int], "href"@) {
            None => Err(ExtractError::MissingTarget),
            Some(t) => Ok(LinkView { text: escaped(strip_marker(text_of(nodes, i))), link: escaped(t) }),
        }
    }
}

/// A link rendered as two lines: its text, then its target.
pub open spec fn render_link(l: LinkView) -> Seq<char> {
    l.text + "\n"@ + l.link + "\n"@
}

/// Links rendered one after another, with one empty line between two of them.
pub open spec fn render_links(s: Seq<LinkView>) -> Seq<char>
    decreases s.len(),
{
    if s.len() == 0 {
        Seq::empty()
    } else if s.len() == 1 {
        render_link(s[0])
    } else {
        render_links(s.drop_last()) + "\n"@ + render_link(s.last())
    }
}

/// The views of a sequence of links.
pub open spec fn link_views(s: Seq<Link>) -> Seq<LinkView> {
    s.map_values(|l: Link| l@)
}

/// Drops the trailing marker from `s`, where it ends with it.
pub fn strip_discuss(s: &str) -> (r: String)
    ensures
        r@ == strip_marker(s@),
{
    let m = ". [discuss]";
    proof {
        reveal_strlit(". [discuss]");
        assert(discuss_marker() == m@);
    }
    let n = s.unicode_len();
    let k = m.unicode_len();
    if n < k {
        return String::from_str(s);
    }
    let mut j: usize = 0;
    while j < k
        invariant
            n == s@.len(),
            k == m@.len(),
            m@ == discuss_marker(),
            k <= n,
            j <= k,
            forall|t: int| 0 <= t < j ==> s@[n - k + t] == m@[t],
        decreases k - j,
    {
        if s.get_char(n - k + j) != m.get_char(j) {
            proof {
                assert(s@.subrange(n - k, n as int)[j as int] != m@[j as int]);
                assert(s@.subrange(n - k, n as int) != m@);
            }
            return String::from_str(s);
        }
        j = j + 1;
    }
    proof {
        assert(s@.subrange(n - k, n as int) =~= m@);
    }
    String::from_str(s.substring_char(0, n - k))
}

impl Link {
    /// Reads the link that node `i` of `doc` stands for: the node's visible
    /// text without its trailing marker, and the `href` of its first anchor,
    /// both escaped.
    pub fn from_node(doc: &Document, i: usize) -> (r: Result<Link, ExtractError>)
        requires
            i < doc.nodes@.len(),
        ensures
            match r {
                Ok(l) => link_of(doc.nodes@, i as int) == Ok::<LinkView, ExtractError>(l@),
                Err(e) => link_of(doc.nodes@, i as int) == Err::<LinkView, ExtractError>(e),
            },
    {
        let anchor = Predicate::Name(String::from_str("a"));
        proof {
            reveal_strlit("a");
        }
        let found = doc.select_within(i, &anchor);
        proof {
            crate::dom::lemma_anchors(doc.nodes@, anchor, i + 1, subtree_end(doc.nodes@, i as int));
        }
        if found.len() == 0 {
            return Err(ExtractError::MissingAnchor);
        }
        let target = match doc.attr(found[0], "href") {
            Some(t) => t,
            None => {
                return Err(ExtractError::MissingTarget);
            },
        };
        let text = strip_discuss(doc.text(i).as_str());
        Ok(Link { link: escape(target.clone()), text: escape(text) })
    }

    /// The link as two lines: its text, then its target.
    pub fn render(&self) -> (r: String)
        ensures
            r@ == render_link(self@),
    {
        let mut out = self.text.clone();
        out.append("\n");
        out.append(self.link.as_str());
        out.append("\n");
        proof {
            reveal_strlit("\n");
        }
        out
    }
}

/// Rendering a list keeps exactly one empty line between two consecutive
/// links and none after the last: an empty list renders as nothing, a single
/// link as itself, and at every place where a list is cut in two, its
/// rendering is that of the first part, one newline, then that of the rest.
pub proof fn law_links_joined(s: Seq<LinkView>)
    ensures
        s.len() == 0 ==> render_links(s) == Seq::<char>::empty(),
        s.len() == 1 ==> render_links(s) == render_link(s[0]),
        forall|k: int|
            0 < k < s.len() ==> render_links(s) == render_links(#[trigger] s.subrange(0, k)) + "\n"@
                + render_links(s.subrange(k, s.len() as int)),
    decreases s.len(),
{
    if s.len() > 1 {
        law_links_joined(s.drop_last());
        assert forall|k: int| 0 < k < s.len() implies render_links(s) == render_links(
            #[trigger] s.subrange(0, k),
        ) + "\n"@ + render_links(s.subrange(k, s.len() as int)) by {
            let tail = s.subrange(k, s.len() as int);
            if k == s.len() - 1 {
                assert(s.subrange(0, k) =~= s.drop_last());
                assert(tail =~= seq![s.last()]);
            } else {
                let init = s.drop_last();
                assert(init.subrange(0, k) =~= s.subrange(0, k));
                assert(tail.drop_last() =~= init.subrange(k, init.len() as int));
                assert(tail.last() == s.last());
                assert(render_links(tail) == render_links(tail.drop_last()) + "\n"@ + render_link(
                    s.last(),
                ));
                assert(render_links(s) =~= render_links(s.subrange(0, k)) + "\n"@ + render_links(
                    tail,
                ));
            }
        }
    }
}

/// A node without an anchor among its descendants stands for no link: its
/// extraction fails with `MissingAnchor`.
pub proof fn law_missing_anchor(nodes: Seq<NodeData>, i: int)
    requires
        anchors(nodes, i + 1, subtree_end(nodes, i)).len() == 0,
    ensures
        link_of(nodes, i) == Err::<LinkView, ExtractError>(ExtractError::MissingAnchor),
{
}

/// Links in document order.
#[derive(Debug)]
pub struct LinksList(pub Vec<Link>);

impl View for LinksList {
    type V = Seq<LinkView>;

    open spec fn view(&self) -> Seq<LinkView> {
        link_views(self.0@)
    }
}

impl LinksList {
    /// The links one after another, with one empty line between two of them.
    pub fn render(&self) -> (r: String)
        ensures
            r@ == render_links(self@),
    {
        let mut out = String::new();
        let mut i: usize = 0;
        proof {
            reveal_strlit("\n");
        }
        while i < self.0.len()
            invariant
                i <= self.0@.len(),
                out@ == render_links(self@.subrange(0, i as int)),
            decreases self.0@.len() - i,
        {
            let ghost prev = self@.subrange(0, i as int);
            if i > 0 {
                out.append("\n");
            }
            let item = self.0[i].render();
            out.append(item.as_str());
            proof {
                let next = self@.subrange(0, i + 1);
                assert(next.drop_last() =~= prev);
                assert(next.last() == self.0@[i as int]@);
            }
            i = i + 1;
        }
        proof {
            assert(self@.subrange(0, self.0@.len() as int) =~= self@);
        }
        out
    }
}

/// A section rendered under a bold title line and an empty line.
pub open spec fn render_section(title: Seq<char>, items: Seq<LinkView>) -> Seq<char> {
    "<b>"@ + title + "</b>\n\n"@ + render_links(items)
}

/// Writes a section: a bold title line, an empty line, then its links.
fn render_titled(title: &str, list: &LinksList) -> (r: String)
    ensures
        r@ == render_section(title@, list@),
{
    let mut out = String::from_str("<b>");
    out.append(title);
    out.append("</b>\n\n");
    let body = list.render();
    out.append(body.as_str());
    proof {
        reveal_strlit("<b>");
        reveal_strlit("</b>\n\n");
    }
    out
}

/// The news items of an issue.
#[derive(Debug)]
pub struct News(pub LinksList);

impl News {
    /// News made of these links, in this order.
    pub fn new(list: Vec<Link>) -> (r: Self)
        ensures
            r.0.0@ == list@,
    {
        News(LinksList(list))
    }

    /// The news section: its title, then its links.
    pub fn render(&self) -> (r: String)
        ensures
            r@ == render_section("News"@, self.0@),
    {
        render_titled("News", &self.0)
    }
}

/// The updates from the core team of an issue.
#[derive(Debug)]
pub struct Updates(pub LinksList);

impl Updates {
    /// Updates made of these links, in this order.
    pub fn new(list: Vec<Link>) -> (r: Self)
        ensures
            r.0.0@ == list@,
    {
        Updates(LinksList(list))
    }

    /// The updates section: its title, then its links.
    pub fn render(&self) -> (r: String)
        ensures
            r@ == render_section("Updates from core"@, self.0@),
    {
        render_titled("Updates from core", &self.0)
    }
}

/// The crate featured in an issue: its name, what it does, and its link; all
/// escaped.
#[derive(Debug)]
pub struct CrateOfWeek {
    pub name: String,
    pub text: String,
    pub link: String,
}

/// The featured crate as a titled anchor, an empty line and its description.
pub open spec fn render_crate(name: Seq<char>, text: Seq<char>, link: Seq<char>) -> Seq<char> {
    "<b>Crate of the week:</b> <a href=\""@ + link + "\">"@ + name + "</a>\n\n"@ + text + "\n"@
}

impl CrateOfWeek {
    /// The featured crate as a titled anchor, an empty line and its
    /// description.
    pub fn render(&self) -> (r: String)
        ensures
            r@ == render_crate(self.name@, self.text@, self.link@),
    {
        let mut out = String::from_str("<b>Crate of the week:</b> <a href=\"");
        out.append(self.link.as_str());
        out.append("\">");
        out.append(self.name.as_str());
        out.append("</a>\n\n");
        out.append(self.text.as_str());
        out.append("\n");
        proof {
            reveal_strlit("<b>Crate of the week:</b> <a href=\"");
            reveal_strlit("\">");
            reveal_strlit("</a>\n\n");
            reveal_strlit("\n");
        }
        out
    }
}

/// The text that `str::to_lowercase` makes of `s`.
pub uninterp spec fn lowercase_of(s: Seq<char>) -> Seq<char>;

/// Relies on `str::to_lowercase`: its result depends on the characters of
/// `s` alone.
#[verifier::external_body]
fn lowercase(s: &str) -> (r: String)
    ensures
        r@ == lowercase_of(s@),
{
    s.to_lowercase()
}

/// The head of an issue: its number and date in bold, an empty line, then its
/// link.
pub open spec fn render_head(id: int, date: Seq<char>, link: Seq<char>) -> Seq<char> {
    "<b>This week in Rust #"@ + int_text(id) + "</b> — "@ + lowercase_of(date) + "\n\n"@ + link
}

/// One issue of the digest.
#[derive(Debug)]
pub struct Article {
    pub id: i32,
    pub date: String,
    pub link: String,
    pub news: News,
    pub crate_of_week: CrateOfWeek,
    pub updates: Updates,
}

impl Article {
    /// The head of the issue: its number and date in bold, an empty line,
    /// then its link.
    pub fn head(&self) -> (r: String)
        ensures
            r@ == render_head(self.id as int, self.date@, self.link@),
    {
        let mut out = String::from_str("<b>This week in Rust #");
        let id = int_to_text(self.id);
        out.append(id.as_str());
        out.append("</b> — ");
        let date = lowercase(self.date.as_str());
        out.append(date.as_str());
        out.append("\n\n");
        out.append(self.link.as_str());
        proof {
            reveal_strlit("<b>This week in Rust #");
            reveal_strlit("</b> — ");
            reveal_strlit("\n\n");
        }
        out
    }

    /// The news section of the issue.
    pub fn news(&self) -> (r: String)
        ensures
            r@ == render_section("News"@, self.news.0@),
    {
        self.news.render()
    }

    /// The featured crate of the issue.
    pub fn crate_of_week(&self) -> (r: String)
        ensures
            r@ == render_crate(
                self.crate_of_week.name@,
                self.crate_of_week.text@,
                self.crate_of_week.link@,
            ),
    {
        self.crate_of_week.render()
    }

    /// The section of updates from the core team of the issue.
    pub fn core_updates(&self) -> (r: String)
        ensures
            r@ == render_section("Updates from core"@, self.updates.0@),
    {
        self.updates.render()
    }
}


/// A featured crate as plain values.
pub struct CrateView {
    pub name: Seq<char>,
    pub text: Seq<char>,
    pub link: Seq<char>,
}

impl View for CrateOfWeek {
    type V = CrateView;

    open spec fn view(&self) -> CrateView {
        CrateView { name: self.name@, text: self.text@, link: self.link@ }
    }
}

/// An issue as plain values.
pub struct ArticleView {
    pub id: int,
    pub date: Seq<char>,
    pub link: Seq<char>,
    pub news: Seq<LinkView>,
    pub crate_of_week: CrateView,
    pub updates: Seq<LinkView>,
}

impl View for Article {
    type V = ArticleView;

    open spec fn view(&self) -> ArticleView {
        ArticleView {
            id: self.id as int,
            date: self.date@,
            link: self.link@,
            news: self.news.0@,
            crate_of_week: self.crate_of_week@,
            updates: self.updates.0@,
        }
    }
}

} // verus!
