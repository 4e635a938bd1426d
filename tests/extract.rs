use twir_digest::dom::{Attribute, Document, NodeData, NodeKind, Predicate};
use twir_digest::html::escape;
use twir_digest::number::parse_decimal_text;
use twir_digest::sections::{first_match, IssueLayout};
use twir_digest::types::{strip_discuss, Article, CrateOfWeek, ExtractError, Link, News, Updates};

fn el(depth: usize, name: &str, attrs: &[(&str, &str)]) -> NodeData {
    NodeData {
        depth,
        kind: NodeKind::Element {
            name: name.to_string(),
            attrs: attrs
                .iter()
                .map(|(n, v)| Attribute::new(n.to_string(), v.to_string()))
                .collect(),
        },
    }
}

fn tx(depth: usize, s: &str) -> NodeData {
    NodeData {
        depth,
        kind: NodeKind::Text { text: s.to_string() },
    }
}

fn name(s: &str) -> Predicate {
    Predicate::Name(s.to_string())
}

fn attr(a: &str, v: &str) -> Predicate {
    Predicate::Attr(a.to_string(), v.to_string())
}

fn layout() -> IssueLayout {
    IssueLayout {
        id: attr("class", "issue-id"),
        date: attr("class", "date"),
        link: Predicate::And(Box::new(name("a")), Box::new(attr("class", "canonical"))),
        news: attr("id", "news"),
        news_item: name("li"),
        crate_of_week: attr("id", "crate-of-the-week"),
        updates: attr("id", "updates"),
        updates_item: name("li"),
    }
}

/// An issue page with one news item, a featured crate and two updates.
fn issue_nodes() -> Vec<NodeData> {
    vec![
        el(0, "html", &[]),
        el(1, "span", &[("class", "issue-id")]),
        tx(2, "528"),
        el(1, "time", &[("class", "date")]),
        tx(2, "Jan 3, 2024"),
        el(1, "a", &[("class", "canonical"), ("href", "https://twir.example/528")]),
        tx(2, "permalink"),
        el(1, "ul", &[("id", "news")]),
        el(2, "li", &[]),
        el(3, "a", &[("href", "https://example.com/a")]),
        tx(4, "Rust 2.0 released"),
        tx(3, ". [discuss]"),
        el(1, "p", &[("id", "crate-of-the-week")]),
        tx(2, "This week's crate is "),
        el(2, "a", &[("href", "https://crates.io/crates/x<y")]),
        tx(3, "x&y"),
        tx(2, ", a crate for <things>."),
        el(1, "ul", &[("id", "updates")]),
        el(2, "li", &[]),
        el(3, "a", &[("href", "u1")]),
        tx(4, "first"),
        el(2, "li", &[]),
        el(3, "a", &[("href", "u2")]),
        tx(4, "second"),
    ]
}

#[test]
fn escape_replaces_markup_characters() {
    assert_eq!(escape("a<b>&c".to_string()), "a&lt;b&gt;&amp;c");
    assert_eq!(escape("".to_string()), "");
    assert_eq!(escape("plain".to_string()), "plain");
}

#[test]
fn escape_is_not_idempotent() {
    let once = escape("&".to_string());
    assert_eq!(once, "&amp;");
    assert_eq!(escape(once), "&amp;amp;");
}

#[test]
fn strip_only_trailing_marker() {
    assert_eq!(strip_discuss("Rust 2.0 released. [discuss]"), "Rust 2.0 released");
    assert_eq!(strip_discuss("a. [discuss] b"), "a. [discuss] b");
    assert_eq!(strip_discuss(". [discuss]"), "");
    assert_eq!(strip_discuss("short"), "short");
}

#[test]
fn parse_issue_number() {
    assert_eq!(parse_decimal_text("528"), Some(528));
    assert_eq!(parse_decimal_text("0"), Some(0));
    assert_eq!(parse_decimal_text("2147483647"), Some(i32::MAX));
    assert_eq!(parse_decimal_text("2147483648"), None);
    assert_eq!(parse_decimal_text(""), None);
    assert_eq!(parse_decimal_text("12a"), None);
    assert_eq!(parse_decimal_text("-1"), None);
}

#[test]
fn select_in_document_order() {
    let doc = Document { nodes: issue_nodes() };
    assert_eq!(doc.select(&name("li")), vec![8, 18, 21]);
    assert_eq!(doc.select_within(17, &name("li")), vec![18, 21]);
    assert_eq!(doc.select(&name("table")), Vec::<usize>::new());
    assert_eq!(doc.select(&Predicate::HasAttr("href".to_string())), vec![5, 9, 14, 19, 22]);
    assert_eq!(first_match(&doc, &attr("id", "updates")), Some(17));
}

#[test]
fn visible_text_joins_descendants() {
    let doc = Document { nodes: issue_nodes() };
    assert_eq!(doc.text(8), "Rust 2.0 released. [discuss]");
    assert_eq!(doc.subtree_end(7), 12);
}

#[test]
fn link_from_news_row() {
    let doc = Document { nodes: issue_nodes() };
    let l = Link::from_node(&doc, 8).unwrap();
    assert_eq!(l.text, "Rust 2.0 released");
    assert_eq!(l.link, "https://example.com/a");
    assert_eq!(l.render(), "Rust 2.0 released\nhttps://example.com/a\n");
}

#[test]
fn link_fields_are_escaped() {
    let doc = Document {
        nodes: vec![el(0, "li", &[]), el(1, "a", &[("href", "a?b=1&c=2")]), tx(2, "<T> & co")],
    };
    let l = Link::from_node(&doc, 0).unwrap();
    assert_eq!(l.text, "&lt;T&gt; &amp; co");
    assert_eq!(l.link, "a?b=1&amp;c=2");
}

#[test]
fn link_missing_anchor() {
    let doc = Document {
        nodes: vec![el(0, "li", &[]), el(1, "span", &[("href", "x")]), tx(2, "no link")],
    };
    assert!(matches!(Link::from_node(&doc, 0), Err(ExtractError::MissingAnchor)));
}

#[test]
fn link_anchor_outside_node_is_not_used() {
    let doc = Document {
        nodes: vec![el(0, "li", &[]), tx(1, "t"), el(0, "a", &[("href", "x")])],
    };
    assert!(matches!(Link::from_node(&doc, 0), Err(ExtractError::MissingAnchor)));
}

#[test]
fn link_missing_target() {
    let doc = Document {
        nodes: vec![el(0, "li", &[]), el(1, "a", &[("title", "x")]), tx(2, "t")],
    };
    assert!(matches!(Link::from_node(&doc, 0), Err(ExtractError::MissingTarget)));
}

#[test]
fn news_builder_end_to_end() {
    let doc = Document { nodes: issue_nodes() };
    let a = Article::from_document(&doc, &layout()).unwrap();
    assert_eq!(a.news(), "<b>News</b>\n\nRust 2.0 released\nhttps://example.com/a\n");
}

#[test]
fn whole_issue_is_read() {
    let doc = Document { nodes: issue_nodes() };
    let a = Article::from_document(&doc, &layout()).unwrap();
    assert_eq!(a.id, 528);
    assert_eq!(a.date, "Jan 3, 2024");
    assert_eq!(a.link, "https://twir.example/528");
    assert_eq!(a.head(), "<b>This week in Rust #528</b> — jan 3, 2024\n\nhttps://twir.example/528");
    assert_eq!(
        a.crate_of_week(),
        "<b>Crate of the week:</b> <a href=\"https://crates.io/crates/x&lt;y\">x&amp;y</a>\n\n, a crate for &lt;things&gt;.\n"
    );
    assert_eq!(a.core_updates(), "<b>Updates from core</b>\n\nfirst\nu1\n\nsecond\nu2\n");
}

#[test]
fn issue_link_is_not_escaped() {
    let mut nodes = issue_nodes();
    nodes[5] = el(1, "a", &[("class", "canonical"), ("href", "https://twir.example/?a=1&b=2")]);
    let a = Article::from_document(&Document { nodes }, &layout()).unwrap();
    assert_eq!(a.link, "https://twir.example/?a=1&b=2");
}

#[test]
fn section_without_rows_is_empty() {
    let doc = Document {
        nodes: vec![el(0, "body", &[]), el(1, "ul", &[("id", "news")]), tx(2, "nothing this week")],
    };
    let n = News::from_document(&doc, &attr("id", "news"), &name("li")).unwrap();
    assert_eq!(n.0 .0.len(), 0);
    assert_eq!(n.render(), "<b>News</b>\n\n");
    let u = Updates::from_document(&doc, &attr("id", "news"), &name("li")).unwrap();
    assert_eq!(u.render(), "<b>Updates from core</b>\n\n");
}

#[test]
fn section_missing_container() {
    let doc = Document { nodes: vec![el(0, "body", &[])] };
    assert!(matches!(
        News::from_document(&doc, &attr("id", "news"), &name("li")),
        Err(ExtractError::MissingSection)
    ));
}

#[test]
fn section_row_without_anchor_fails_whole_section() {
    let doc = Document {
        nodes: vec![
            el(0, "ul", &[("id", "news")]),
            el(1, "li", &[]),
            el(2, "a", &[("href", "ok")]),
            tx(3, "fine"),
            el(1, "li", &[]),
            tx(2, "broken"),
        ],
    };
    assert!(matches!(
        News::from_document(&doc, &attr("id", "news"), &name("li")),
        Err(ExtractError::MissingAnchor)
    ));
}

#[test]
fn crate_of_week_errors() {
    let missing = Document { nodes: vec![el(0, "body", &[])] };
    assert!(matches!(
        CrateOfWeek::from_document(&missing, &attr("id", "crate-of-the-week")),
        Err(ExtractError::MissingSection)
    ));
    let no_anchor = Document {
        nodes: vec![el(0, "p", &[("id", "crate-of-the-week")]), tx(1, "text only")],
    };
    assert!(matches!(
        CrateOfWeek::from_document(&no_anchor, &attr("id", "crate-of-the-week")),
        Err(ExtractError::MalformedSection)
    ));
    let no_text = Document {
        nodes: vec![
            el(0, "p", &[("id", "crate-of-the-week")]),
            el(1, "a", &[("href", "x")]),
            tx(2, "name"),
        ],
    };
    assert!(matches!(
        CrateOfWeek::from_document(&no_text, &attr("id", "crate-of-the-week")),
        Err(ExtractError::MalformedSection)
    ));
}

#[test]
fn article_invalid_id() {
    let mut nodes = issue_nodes();
    nodes[2] = tx(2, "five hundred");
    assert!(matches!(
        Article::from_document(&Document { nodes }, &layout()),
        Err(ExtractError::InvalidId)
    ));
}

#[test]
fn article_missing_link_target() {
    let mut nodes = issue_nodes();
    nodes[5] = el(1, "a", &[("class", "canonical")]);
    assert!(matches!(
        Article::from_document(&Document { nodes }, &layout()),
        Err(ExtractError::MissingTarget)
    ));
}

#[test]
fn article_missing_section() {
    let nodes: Vec<NodeData> = issue_nodes().into_iter().take(17).collect();
    assert!(matches!(
        Article::from_document(&Document { nodes }, &layout()),
        Err(ExtractError::MissingSection)
    ));
}
