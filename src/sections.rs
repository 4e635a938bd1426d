use vstd::prelude::*;

use crate::dom::{
    anchors, attr_of, lemma_anchors, matching, own_text, subtree_end, text_of, Document, NodeData,
    Predicate,
};
use crate::html::{escape, escaped};
use crate::number::{parse_decimal, parse_decimal_text};
use crate::types::{
    link_of, link_views, render_section, Article, ArticleView, CrateOfWeek, CrateView, ExtractError, Link,
    LinkView, LinksList, News, Updates,
};

verus! {

/// Where the parts of an issue stand in its document, each given by a
/// predicate; the first node that passes it is the one read.
pub struct IssueLayout {
    /// The node whose text is the issue number.
    pub id: Predicate,
    /// The node whose text is the date.
    pub date: Predicate,
    /// The element whose `href` is the issue's link.
    pub link: Predicate,
    /// The container of the news.
    pub news: Predicate,
    /// A news row within its container.
    pub news_item: Predicate,
    /// The container of the featured crate.
    pub crate_of_week: Predicate,
    /// The container of the updates from core.
    pub updates: Predicate,
    /// An update row within its container.
    pub updates_item: Predicate,
}

/// The first node of the document that passes `p`.
pub open spec fn first_of(nodes: Seq<NodeData>, p: Predicate) -> Option<int> {
    let m = matching(nodes, p, 0, nodes.len() as int);
    if m.len() == 0 {
        None
    } else {
        Some(m[0] as int)
    }
}

/// The links that the rows stand for, in their order; or the error of the
/// first row that stands for none.
pub open spec fn links_of(nodes: Seq<NodeData>, rows: Seq<usize>) -> Result<Seq<LinkView>, ExtractError>
    decreases rows.len(),
{
    if rows.len() == 0 {
        Ok(Seq::empty())
    } else {
        match links_of(nodes, rows.drop_last()) {
            Err(e) => Err(e),
            Ok(prev) => match link_of(nodes, rows.last() as int) {
                Err(e) => Err(e),
                Ok(l) => Ok(prev.push(l)),
            },
        }
    }
}

/// The links of a section: one for each row that passes `item` within the
/// first node that passes `container`.
pub open spec fn section_of(nodes: Seq<NodeData>, container: Predicate, item: Predicate) -> Result<
    Seq<LinkView>,
    ExtractError,
> {
    match first_of(nodes, container) {
        None => Err(ExtractError::MissingSection),
        Some(c) => links_of(nodes, matching(nodes, item, c + 1, subtree_end(nodes, c))),
    }
}

/// The featured crate in the first node that passes `container`: the text
/// and `href` of its first anchor, and the first text node after that anchor.
pub open spec fn crate_of(nodes: Seq<NodeData>, container: Predicate) -> Result<CrateView, ExtractError> {
    match first_of(nodes, container) {
        None => Err(ExtractError::MissingSection),
        Some(c) => {
            let end = subtree_end(nodes, c);
            let a = anchors(nodes, c + 1, end);
            if a.len() == 0 {
                Err(ExtractError::MalformedSection)
            } else {
                let ai = a[0] as int;
                match attr_of(nodes[ai], "href"@) {
                    None => Err(ExtractError::MalformedSection),
                    Some(t) => {
                        let ts = matching(nodes, Predicate::Text, subtree_end(nodes, ai), end);
                        if ts.len() == 0 {
                            Err(ExtractError::MalformedSection)
                        } else {
                            Ok(
                                CrateView {
                                    name: escaped(text_of(nodes, ai)),
                                    text: escaped(own_text(nodes[ts[0] as int])),
                                    link: escaped(t),
                                },
                            )
                        }
                    },
                }
            }
        },
    }
}

/// The issue that a document holds, read by `lay`; or the first error met,
/// reading the number, the date, the link, the news, the featured crate and
/// the updates in that order.
pub open spec fn issue_of(nodes: Seq<NodeData>, lay: IssueLayout) -> Result<ArticleView, ExtractError> {
    match first_of(nodes, lay.id) {
        None => Err(ExtractError::MissingSection),
        Some(i) => match parse_decimal(text_of(nodes, i)) {
            None => Err(ExtractError::InvalidId),
            Some(id) => match first_of(nodes, lay.date) {
                None => Err(ExtractError::MissingSection),
                Some(d) => match first_of(nodes, lay.link) {
                    None => Err(ExtractError::MissingSection),
                    Some(l) => match attr_of(nodes[l], "href"@) {
                        None => Err(ExtractError::MissingTarget),
                        Some(link) => match section_of(nodes, lay.news, lay.news_item) {
                            Err(e) => Err(e),
                            Ok(news) => match crate_of(nodes, lay.crate_of_week) {
                                Err(e) => Err(e),
                                Ok(cw) => match section_of(nodes, lay.updates, lay.updates_item) {
                                    Err(e) => Err(e),
                                    Ok(updates) => Ok(
                                        ArticleView {
                                            id,
                                            date: text_of(nodes, d),
                                            link,
                                            news,
                                            crate_of_week: cw,
                                            updates,
                                        },
                                    ),
                                },
                            },
                        },
                    },
                },
            },
        },
    }
}

/// A section whose container holds no item rows is an empty list, not a
/// failure, and renders as its title line and an empty line alone.
pub proof fn law_empty_section(
    nodes: Seq<NodeData>,
    container: Predicate,
    item: Predicate,
    title: Seq<char>,
)
    requires
        first_of(nodes, container) matches Some(c) && matching(
            nodes,
            item,
            c + 1,
            subtree_end(nodes, c),
        ).len() == 0,
    ensures
        section_of(nodes, container, item) == Ok::<Seq<LinkView>, ExtractError>(Seq::empty()),
        render_section(title, Seq::empty()) == "<b>"@ + title + "</b>\n\n"@,
{
    let c = first_of(nodes, container).unwrap();
    assert(matching(nodes, item, c + 1, subtree_end(nodes, c)) =~= Seq::<usize>::empty());
    assert(render_section(title, Seq::empty()) =~= "<b>"@ + title + "</b>\n\n"@);
}

proof fn lemma_links_err(nodes: Seq<NodeData>, rows: Seq<usize>, k: int)
    requires
        0 <= k <= rows.len(),
        links_of(nodes, rows.subrange(0, k)) is Err,
    ensures
        links_of(nodes, rows) == links_of(nodes, rows.subrange(0, k)),
    decreases rows.len() - k,
{
    if k < rows.len() {
        assert(rows.subrange(0, k + 1).drop_last() =~= rows.subrange(0, k));
        lemma_links_err(nodes, rows, k + 1);
    } else {
        assert(rows.subrange(0, k) =~= rows);
    }
}

/// The first node of the document that passes `p`.
pub fn first_match(doc: &Document, p: &Predicate) -> (r: Option<usize>)
    ensures
        match r {
            Some(k) => first_of(doc.nodes@, *p) == Some(k as int) && k < doc.nodes@.len(),
            None => first_of(doc.nodes@, *p) is None,
        },
{
    let all = doc.select(p);
    if all.len() == 0 {
        None
    } else {
        Some(all[0])
    }
}

/// The links that the rows stand for, in their order; the error of the first
/// row that stands for none.
pub fn links_from_rows(doc: &Document, rows: &Vec<usize>) -> (r: Result<Vec<Link>, ExtractError>)
    requires
        forall|j: int| 0 <= j < rows@.len() ==> #[trigger] rows@[j] < doc.nodes@.len(),
    ensures
        match r {
            Ok(v) => links_of(doc.nodes@, rows@) == Ok::<Seq<LinkView>, ExtractError>(link_views(v@)),
            Err(e) => links_of(doc.nodes@, rows@) == Err::<Seq<LinkView>, ExtractError>(e),
        },
{
    let mut out: Vec<Link> = Vec::new();
    let mut i: usize = 0;
    proof {
        assert(link_views(out@) =~= Seq::<LinkView>::empty());
        assert(rows@.subrange(0, 0) =~= Seq::<usize>::empty());
    }
    while i < rows.len()
        invariant
            i <= rows@.len(),
            forall|j: int| 0 <= j < rows@.len() ==> #[trigger] rows@[j] < doc.nodes@.len(),
            links_of(doc.nodes@, rows@.subrange(0, i as int)) == Ok::<Seq<LinkView>, ExtractError>(
                link_views(out@),
            ),
        decreases rows@.len() - i,
    {
        proof {
            assert(rows@.subrange(0, i + 1).drop_last() =~= rows@.subrange(0, i as int));
        }
        let ghost before = out@;
        match Link::from_node(doc, rows[i]) {
            Ok(l) => {
                out.push(l);
                proof {
                    assert(link_views(out@) =~= link_views(before).push(l@));
                }
            },
            Err(e) => {
                proof {
                    lemma_links_err(doc.nodes@, rows@, i + 1);
                }
                return Err(e);
            },
        }
        i = i + 1;
    }
    proof {
        assert(rows@.subrange(0, rows@.len() as int) =~= rows@);
    }
    Ok(out)
}

/// The links of a section: one for each row that passes `item` within the
/// first node that passes `container`, in document order.
pub fn section_links(doc: &Document, container: &Predicate, item: &Predicate) -> (r: Result<
    LinksList,
    ExtractError,
>)
    ensures
        match r {
            Ok(l) => section_of(doc.nodes@, *container, *item) == Ok::<Seq<LinkView>, ExtractError>(l@),
            Err(e) => section_of(doc.nodes@, *container, *item) == Err::<Seq<LinkView>, ExtractError>(e),
        },
{
    let c = match first_match(doc, container) {
        Some(c) => c,
        None => {
            return Err(ExtractError::MissingSection);
        },
    };
    let rows = doc.select_within(c, item);
    match links_from_rows(doc, &rows) {
        Ok(v) => Ok(LinksList(v)),
        Err(e) => Err(e),
    }
}

impl News {
    /// The news of a document: one link for each row that passes `item`
    /// within the first node that passes `container`.
    pub fn from_document(doc: &Document, container: &Predicate, item: &Predicate) -> (r: Result<
        News,
        ExtractError,
    >)
        ensures
            match r {
                Ok(n) => section_of(doc.nodes@, *container, *item) == Ok::<Seq<LinkView>, ExtractError>(n.0@),
                Err(e) => section_of(doc.nodes@, *container, *item) == Err::<Seq<LinkView>, ExtractError>(e),
            },
    {
        match section_links(doc, container, item) {
            Ok(l) => Ok(News(l)),
            Err(e) => Err(e),
        }
    }
}

impl Updates {
    /// The updates from core of a document: one link for each row that
    /// passes `item` within the first node that passes `container`.
    pub fn from_document(doc: &Document, container: &Predicate, item: &Predicate) -> (r: Result<
        Updates,
        ExtractError,
    >)
        ensures
            match r {
                Ok(u) => section_of(doc.nodes@, *container, *item) == Ok::<Seq<LinkView>, ExtractError>(u.0@),
                Err(e) => section_of(doc.nodes@, *container, *item) == Err::<Seq<LinkView>, ExtractError>(e),
            },
    {
        match section_links(doc, container, item) {
            Ok(l) => Ok(Updates(l)),
            Err(e) => Err(e),
        }
    }
}

impl CrateOfWeek {
    /// The featured crate in the first node that passes `container`: the
    /// text and `href` of its first anchor as name and link, and the first
    /// text node after that anchor as description; all escaped.
    pub fn from_document(doc: &Document, container: &Predicate) -> (r: Result<
        CrateOfWeek,
        ExtractError,
    >)
        ensures
            match r {
                Ok(c) => crate_of(doc.nodes@, *container) == Ok::<CrateView, ExtractError>(c@),
                Err(e) => crate_of(doc.nodes@, *container) == Err::<CrateView, ExtractError>(e),
            },
    {
        let c = match first_match(doc, container) {
            Some(c) => c,
            None => {
                return Err(ExtractError::MissingSection);
            },
        };
        let end = doc.subtree_end(c);
        let anchor = Predicate::Name(String::from_str("a"));
        proof {
            reveal_strlit("a");
            lemma_anchors(doc.nodes@, anchor, c + 1, end as int);
        }
        let found = doc.select_within(c, &anchor);
        if found.len() == 0 {
            return Err(ExtractError::MalformedSection);
        }
        let a = found[0];
        let link = match doc.attr(a, "href") {
            Some(t) => escape(t.clone()),
            None => {
                return Err(ExtractError::MalformedSection);
            },
        };
        let after = doc.subtree_end(a);
        let texts = if after <= end {
            doc.select_range(&Predicate::Text, after, end)
        } else {
            Vec::new()
        };
        if texts.len() == 0 {
            return Err(ExtractError::MalformedSection);
        }
        let text = escape(doc.own_text(texts[0]));
        let name = escape(doc.text(a));
        Ok(CrateOfWeek { name, text, link })
    }
}

impl Article {
    /// Reads an issue out of its document, where `lay` says where each part
    /// stands. Fails with the first error met; no part of an issue is
    /// returned then.
    pub fn from_document(doc: &Document, lay: &IssueLayout) -> (r: Result<Article, ExtractError>)
        ensures
            match r {
                Ok(a) => issue_of(doc.nodes@, *lay) == Ok::<ArticleView, ExtractError>(a@),
                Err(e) => issue_of(doc.nodes@, *lay) == Err::<ArticleView, ExtractError>(e),
            },
    {
        let i = match first_match(doc, &lay.id) {
            Some(i) => i,
            None => {
                return Err(ExtractError::MissingSection);
            },
        };
        let id = match parse_decimal_text(doc.text(i).as_str()) {
            Some(v) => v,
            None => {
                return Err(ExtractError::InvalidId);
            },
        };
        let d = match first_match(doc, &lay.date) {
            Some(d) => d,
            None => {
                return Err(ExtractError::MissingSection);
            },
        };
        let l = match first_match(doc, &lay.link) {
            Some(l) => l,
            None => {
                return Err(ExtractError::MissingSection);
            },
        };
        let link = match doc.attr(l, "href") {
            Some(t) => t.clone(),
            None => {
                return Err(ExtractError::MissingTarget);
            },
        };
        let news = News::from_document(doc, &lay.news, &lay.news_item)?;
        let crate_of_week = CrateOfWeek::from_document(doc, &lay.crate_of_week)?;
        let updates = Updates::from_document(doc, &lay.updates, &lay.updates_item)?;
        Ok(Article { id, date: doc.text(d), link, news, crate_of_week, updates })
    }
}

} // verus!
