use vstd::prelude::*;

verus! {

/// One attribute of an element: its name and its value.
pub struct Attribute {
    pub name: String,
    pub value: String,
}

/// What a node of the tree is: an element with a tag name and attributes,
/// or a run of text.
pub enum NodeKind {
    Element { name: String, attrs: Vec<Attribute> },
    Text { text: String },
}

/// A node of a document, stored in document (pre-)order together with its
/// depth: the nodes that follow it with a greater depth, up to the first one
/// that is not deeper, are its descendants.
pub struct NodeData {
    pub depth: usize,
    pub kind: NodeKind,
}

/// A parsed document: its nodes in document order.
pub struct Document {
    pub nodes: Vec<NodeData>,
}

/// A test on a single node, used to select nodes from a document.
pub enum Predicate {
    /// An element with this tag name.
    Name(String),
    /// An element that has an attribute of this name.
    HasAttr(String),
    /// An element whose attribute of this name has this value.
    Attr(String, String),
    /// A text node.
    Text,
    /// Both tests hold.
    And(Box<Predicate>, Box<Predicate>),
}

/// Value of the first attribute named `name` among `attrs[i..]`.
pub open spec fn attr_from(attrs: Seq<Attribute>, name: Seq<char>, i: int) -> Option<Seq<char>>
    decreases attrs.len() - i,
{
    if i < 0 || i >= attrs.len() {
        None
    } else if attrs[i].name@ == name {
        Some(attrs[i].value@)
    } else {
        attr_from(attrs, name, i + 1)
    }
}

/// Value of the first attribute named `name` of a node; none for a text node.
pub open spec fn attr_of(n: NodeData, name: Seq<char>) -> Option<Seq<char>> {
    match n.kind {
        NodeKind::Element { attrs, .. } => attr_from(attrs@, name, 0),
        NodeKind::Text { .. } => None,
    }
}

/// Whether a node passes a predicate.
pub open spec fn matches(p: Predicate, n: NodeData) -> bool
    decreases p,
{
    match p {
        Predicate::Name(s) => match n.kind {
            NodeKind::Element { name, .. } => name@ == s@,
            NodeKind::Text { .. } => false,
        },
        Predicate::HasAttr(a) => attr_of(n, a@) is Some,
        Predicate::Attr(a, v) => attr_of(n, a@) == Some(v@),
        Predicate::Text => n.kind is Text,
        Predicate::And(l, r) => matches(*l, n) && matches(*r, n),
    }
}

/// Index one past the last descendant of node `i`, scanning from `k`.
pub open spec fn scan_end(nodes: Seq<NodeData>, i: int, k: int) -> int
    decreases nodes.len() - k,
{
    if k >= nodes.len() || k < 0 {
        nodes.len() as int
    } else if nodes[k].depth <= nodes[i].depth {
        k
    } else {
        scan_end(nodes, i, k + 1)
    }
}

/// Index one past the last descendant of node `i`.
pub open spec fn subtree_end(nodes: Seq<NodeData>, i: int) -> int {
    scan_end(nodes, i, i + 1)
}

/// The indices in `lo..hi` of the nodes that pass `p`, in document order.
pub open spec fn matching(nodes: Seq<NodeData>, p: Predicate, lo: int, hi: int) -> Seq<usize>
    decreases hi - lo,
{
    if hi <= lo {
        Seq::empty()
    } else {
        let before = matching(nodes, p, lo, hi - 1);
        if matches(p, nodes[hi - 1]) {
            before.push((hi - 1) as usize)
        } else {
            before
        }
    }
}

/// Every index that a selection gives lies in the range it was made over.
pub proof fn lemma_matching_range(nodes: Seq<NodeData>, p: Predicate, lo: int, hi: int)
    requires
        0 <= lo,
        hi <= usize::MAX + 1,
    ensures
        forall|j: int|
            0 <= j < matching(nodes, p, lo, hi).len() ==> lo <= #[trigger] matching(
                nodes,
                p,
                lo,
                hi,
            )[j] < hi,
    decreases hi - lo,
{
    if hi > lo {
        lemma_matching_range(nodes, p, lo, hi - 1);
        let before = matching(nodes, p, lo, hi - 1);
        let all = matching(nodes, p, lo, hi);
        assert forall|j: int| 0 <= j < all.len() implies lo <= #[trigger] all[j] < hi by {
            if j < before.len() {
                assert(all[j] == before[j]);
            }
        }
    }
}

/// Whether a node is an anchor element.
pub open spec fn is_anchor(n: NodeData) -> bool {
    match n.kind {
        NodeKind::Element { name, .. } => name@ == "a"@,
        NodeKind::Text { .. } => false,
    }
}

/// The indices in `lo..hi` of the anchor elements, in document order.
pub open spec fn anchors(nodes: Seq<NodeData>, lo: int, hi: int) -> Seq<usize>
    decreases hi - lo,
{
    if hi <= lo {
        Seq::empty()
    } else {
        let before = anchors(nodes, lo, hi - 1);
        if is_anchor(nodes[hi - 1]) {
            before.push((hi - 1) as usize)
        } else {
            before
        }
    }
}

/// Selecting by the tag name `a` gives the anchors.
pub proof fn lemma_anchors(nodes: Seq<NodeData>, p: Predicate, lo: int, hi: int)
    requires
        p matches Predicate::Name(s) && s@ == "a"@,
    ensures
        matching(nodes, p, lo, hi) == anchors(nodes, lo, hi),
    decreases hi - lo,
{
    if hi > lo {
        lemma_anchors(nodes, p, lo, hi - 1);
    }
}

/// The text a node holds itself: its characters for a text node, nothing for
/// an element.
pub open spec fn own_text(n: NodeData) -> Seq<char> {
    match n.kind {
        NodeKind::Text { text } => text@,
        NodeKind::Element { .. } => Seq::empty(),
    }
}

/// The text of the nodes `lo..hi`, joined in document order.
pub open spec fn text_range(nodes: Seq<NodeData>, lo: int, hi: int) -> Seq<char>
    decreases hi - lo,
{
    if hi <= lo {
        Seq::empty()
    } else {
        text_range(nodes, lo, hi - 1) + own_text(nodes[hi - 1])
    }
}

/// The visible text of node `i`: its own text and that of all its descendants.
pub open spec fn text_of(nodes: Seq<NodeData>, i: int) -> Seq<char> {
    text_range(nodes, i, subtree_end(nodes, i))
}

proof fn lemma_scan_end_bounds(nodes: Seq<NodeData>, i: int, k: int)
    requires
        0 <= k <= nodes.len(),
    ensures
        k <= scan_end(nodes, i, k) <= nodes.len(),
    decreases nodes.len() - k,
{
    if k < nodes.len() && nodes[k].depth > nodes[i].depth {
        lemma_scan_end_bounds(nodes, i, k + 1);
    }
}

impl Attribute {
    /// An attribute of this name and value.
    pub fn new(name: String, value: String) -> (r: Attribute)
        ensures
            r.name@ == name@,
            r.value@ == value@,
    {
        Attribute { name, value }
    }
}

/// Whether two texts hold the same characters.
pub fn same_text(a: &str, b: &str) -> (r: bool)
    ensures
        r == (a@ == b@),
{
    let n = a.unicode_len();
    if n != b.unicode_len() {
        return false;
    }
    let mut i: usize = 0;
    while i < n
        invariant
            n == a@.len(),
            n == b@.len(),
            i <= n,
            forall|j: int| 0 <= j < i ==> a@[j] == b@[j],
        decreases n - i,
    {
        if a.get_char(i) != b.get_char(i) {
            return false;
        }
        i = i + 1;
    }
    proof {
        assert(a@ =~= b@);
    }
    true
}

/// Value of the first attribute named `name`, if any.
pub fn attr_value<'a>(attrs: &'a Vec<Attribute>, name: &str) -> (r: Option<&'a String>)
    ensures
        match r {
            Some(v) => attr_from(attrs@, name@, 0) == Some(v@),
            None => attr_from(attrs@, name@, 0) is None,
        },
{
    let mut i: usize = 0;
    while i < attrs.len()
        invariant
            i <= attrs@.len(),
            attr_from(attrs@, name@, 0) == attr_from(attrs@, name@, i as int),
        decreases attrs@.len() - i,
    {
        if same_text(attrs[i].name.as_str(), name) {
            return Some(&attrs[i].value);
        }
        i = i + 1;
    }
    None
}

impl Predicate {
    /// Whether `n` passes this predicate.
    pub fn matches_node(&self, n: &NodeData) -> (r: bool)
        ensures
            r == matches(*self, *n),
        decreases self,
    {
        match self {
            Predicate::Name(s) => match &n.kind {
                NodeKind::Element { name, .. } => same_text(name.as_str(), s.as_str()),
                NodeKind::Text { .. } => false,
            },
            Predicate::HasAttr(a) => match &n.kind {
                NodeKind::Element { attrs, .. } => attr_value(attrs, a.as_str()).is_some(),
                NodeKind::Text { .. } => false,
            },
            Predicate::Attr(a, v) => match &n.kind {
                NodeKind::Element { attrs, .. } => match attr_value(attrs, a.as_str()) {
                    Some(x) => same_text(x.as_str(), v.as_str()),
                    None => false,
                },
                NodeKind::Text { .. } => false,
            },
            Predicate::Text => match &n.kind {
                NodeKind::Element { .. } => false,
                NodeKind::Text { .. } => true,
            },
            Predicate::And(l, r) => l.matches_node(n) && r.matches_node(n),
        }
    }
}

impl Document {
    /// Index one past the last descendant of node `i`.
    pub fn subtree_end(&self, i: usize) -> (r: usize)
        requires
            i < self.nodes@.len(),
        ensures
            r == subtree_end(self.nodes@, i as int),
            i < r <= self.nodes@.len(),
    {
        let n = self.nodes.len();
        let mut k: usize = i + 1;
        while k < n && self.nodes[k].depth > self.nodes[i].depth
            invariant
                n == self.nodes@.len(),
                i < k <= self.nodes@.len(),
                scan_end(self.nodes@, i as int, i + 1) == scan_end(self.nodes@, i as int, k as int),
            decreases self.nodes@.len() - k,
        {
            k = k + 1;
        }
        k
    }

    /// The indices in `lo..hi` of the nodes that pass `p`, in document order.
    pub fn select_range(&self, p: &Predicate, lo: usize, hi: usize) -> (r: Vec<usize>)
        requires
            lo <= hi <= self.nodes@.len(),
        ensures
            r@ == matching(self.nodes@, *p, lo as int, hi as int),
            forall|j: int| 0 <= j < r@.len() ==> lo <= #[trigger] r@[j] < hi,
    {
        proof {
            lemma_matching_range(self.nodes@, *p, lo as int, hi as int);
        }
        let mut out: Vec<usize> = Vec::new();
        let mut k: usize = lo;
        while k < hi
            invariant
                lo <= k <= hi <= self.nodes@.len(),
                out@ == matching(self.nodes@, *p, lo as int, k as int),
            decreases hi - k,
        {
            if p.matches_node(&self.nodes[k]) {
                out.push(k);
            }
            k = k + 1;
        }
        out
    }

    /// Every node of the document that passes `p`, in document order.
    pub fn select(&self, p: &Predicate) -> (r: Vec<usize>)
        ensures
            r@ == matching(self.nodes@, *p, 0, self.nodes@.len() as int),
            forall|j: int| 0 <= j < r@.len() ==> #[trigger] r@[j] < self.nodes@.len(),
    {
        let n = self.nodes.len();
        proof {
            lemma_matching_range(self.nodes@, *p, 0, self.nodes@.len() as int);
        }
        self.select_range(p, 0, self.nodes.len())
    }

    /// Every descendant of node `i` that passes `p`, in document order.
    pub fn select_within(&self, i: usize, p: &Predicate) -> (r: Vec<usize>)
        requires
            i < self.nodes@.len(),
        ensures
            r@ == matching(self.nodes@, *p, i + 1, subtree_end(self.nodes@, i as int)),
            forall|j: int| 0 <= j < r@.len() ==> i < #[trigger] r@[j] < subtree_end(self.nodes@, i as int),
            subtree_end(self.nodes@, i as int) <= self.nodes@.len(),
    {
        let n = self.nodes.len();
        proof {
            lemma_scan_end_bounds(self.nodes@, i as int, i + 1);
            lemma_matching_range(self.nodes@, *p, i + 1, subtree_end(self.nodes@, i as int));
        }
        let end = self.subtree_end(i);
        self.select_range(p, i + 1, end)
    }

    /// The visible text of node `i`: its own and that of its descendants, in
    /// document order.
    pub fn text(&self, i: usize) -> (r: String)
        requires
            i < self.nodes@.len(),
        ensures
            r@ == text_of(self.nodes@, i as int),
    {
        let end = self.subtree_end(i);
        let mut out = String::new();
        let mut k: usize = i;
        while k < end
            invariant
                i <= k <= end <= self.nodes@.len(),
                end == subtree_end(self.nodes@, i as int),
                out@ == text_range(self.nodes@, i as int, k as int),
            decreases end - k,
        {
            match &self.nodes[k].kind {
                NodeKind::Text { text } => {
                    out.append(text.as_str());
                },
                NodeKind::Element { .. } => {
                    proof {
                        assert(text_range(self.nodes@, i as int, k + 1) =~= out@);
                    }
                },
            }
            k = k + 1;
        }
        out
    }

    /// The text that node `i` holds itself: its characters for a text node,
    /// nothing for an element.
    pub fn own_text(&self, i: usize) -> (r: String)
        requires
            i < self.nodes@.len(),
        ensures
            r@ == own_text(self.nodes@[i as int]),
    {
        match &self.nodes[i].kind {
            NodeKind::Text { text } => text.clone(),
            NodeKind::Element { .. } => String::new(),
        }
    }

    /// Value of the attribute `name` of node `i`; none for a text node or
    /// where the element has no such attribute.
    pub fn attr(&self, i: usize, name: &str) -> (r: Option<&String>)
        requires
            i < self.nodes@.len(),
        ensures
            match r {
                Some(v) => attr_of(self.nodes@[i as int], name@) == Some(v@),
                None => attr_of(self.nodes@[i as int], name@) is None,
            },
    {
        match &self.nodes[i].kind {
            NodeKind::Element { attrs, .. } => attr_value(attrs, name),
            NodeKind::Text { .. } => None,
        }
    }
}

} // verus!
