//! The document tree that the record builders walk: every node of a parsed
//! HTML fragment in document order, with its depth, and queries on it.

use vstd::prelude::*;
use crate::text::{chars_of, is_literal, join, lowercase, lowercase_of, seq_equal, string_of};

verus! {

/// What a node is.
#[derive(Clone, Debug)]
pub enum NodeKind {
    /// An element: its tag name and its attributes, which scraper keeps
    /// sorted by name.
    Element(String, Vec<(String, String)>),
    Text(String),
    /// The document itself, comments, doctypes and the like.
    Other,
}

pub enum KindView {
    Element(Seq<char>, Seq<(Seq<char>, Seq<char>)>),
    Text(Seq<char>),
    Other,
}

pub open spec fn attr_view(a: (String, String)) -> (Seq<char>, Seq<char>) {
    (a.0@, a.1@)
}

impl View for NodeKind {
    type V = KindView;

    open spec fn view(&self) -> KindView {
        match self {
            NodeKind::Element(n, a) => KindView::Element(n@, a@.map_values(|x: (String, String)| attr_view(x))),
            NodeKind::Text(t) => KindView::Text(t@),
            NodeKind::Other => KindView::Other,
        }
    }
}

pub open spec fn nodes_view(n: Seq<(NodeKind, usize)>) -> Seq<(KindView, usize)> {
    n.map_values(|x: (NodeKind, usize)| (x.0@, x.1))
}

/// The nodes that scraper's `Html::parse_fragment` gives a text, in document
/// order, each with its number of ancestors.
pub uninterp spec fn fragment_nodes_of(text: Seq<char>) -> Seq<(KindView, usize)>;

/// For each node of the parsed fragment, in document order, whether it is
/// an element that the CSS selector matches; none where the selector does
/// not parse.
pub uninterp spec fn selector_matches_of(text: Seq<char>, selector: Seq<char>) -> Option<Seq<bool>>;

/// Relies on scraper's `Html::parse_fragment`, on ego-tree's `descendants`
/// (document order) and `ancestors`, and on the name, attributes and text
/// that scraper's nodes hold.
#[verifier::external_body]
fn fragment_nodes(text: &str) -> (r: Vec<(NodeKind, usize)>)
    ensures
        nodes_view(r@) == fragment_nodes_of(text@),
{
    let html = scraper::Html::parse_fragment(text);
    let mut r = Vec::new();
    for n in html.tree.root().descendants() {
        let kind = match n.value() {
            scraper::Node::Element(e) => NodeKind::Element(
                e.name().to_string(),
                e.attrs().map(|(k, v)| (k.to_string(), v.to_string())).collect(),
            ),
            scraper::Node::Text(t) => NodeKind::Text(t.text.to_string()),
            _ => NodeKind::Other,
        };
        r.push((kind, n.ancestors().count()));
    }
    r
}

/// Relies on scraper's `Html::parse_fragment`, `Selector::parse` and
/// `Selector::matches`, over ego-tree's `descendants` (document order).
#[verifier::external_body]
fn selector_matches(text: &str, selector: &str) -> (r: Option<Vec<bool>>)
    ensures
        match r {
            Some(v) => selector_matches_of(text@, selector@) == Some(v@),
            None => selector_matches_of(text@, selector@) is None,
        },
{
    let html = scraper::Html::parse_fragment(text);
    let sel = scraper::Selector::parse(selector).ok()?;
    let mut r = Vec::new();
    for n in html.tree.root().descendants() {
        r.push(match scraper::ElementRef::wrap(n) {
            Some(e) => sel.matches(&e),
            None => false,
        });
    }
    Some(r)
}

/// A parsed document: its source text and its nodes in document order, each
/// with its depth; the parent and the end of each node are kept beside them.
pub struct Document {
    pub source: String,
    pub nodes: Vec<(NodeKind, usize)>,
    pub parents: Vec<Option<usize>>,
    pub ends: Vec<usize>,
}

pub struct DocView {
    pub source: Seq<char>,
    pub kinds: Seq<KindView>,
    pub depths: Seq<usize>,
}

impl View for Document {
    type V = DocView;

    open spec fn view(&self) -> DocView {
        DocView {
            source: self.source@,
            kinds: self.nodes@.map_values(|x: (NodeKind, usize)| x.0@),
            depths: self.nodes@.map_values(|x: (NodeKind, usize)| x.1),
        }
    }
}

/// The last node before `j + 1` that is shallower than node `i`.
pub open spec fn parent_from(d: DocView, i: int, j: int) -> Option<int>
    decreases j + 1,
{
    if j < 0 {
        None
    } else if d.depths[j] < d.depths[i] {
        Some(j)
    } else {
        parent_from(d, i, j - 1)
    }
}

/// The parent of node `i`: the last node before it that is shallower.
pub open spec fn parent(d: DocView, i: int) -> Option<int> {
    parent_from(d, i, i - 1)
}

/// The first node at `j` or later that is no deeper than node `i`.
pub open spec fn end_from(d: DocView, i: int, j: int) -> int
    decreases d.depths.len() - j,
{
    if j >= d.depths.len() || j < 0 {
        d.depths.len() as int
    } else if d.depths[j] <= d.depths[i] {
        j
    } else {
        end_from(d, i, j + 1)
    }
}

/// One past the last descendant of node `i`: its descendants are the nodes
/// strictly between `i` and this.
pub open spec fn end(d: DocView, i: int) -> int {
    end_from(d, i, i + 1)
}

/// The nodes of `t`, made a document of `t`.
pub open spec fn document_of(t: Seq<char>) -> DocView {
    DocView {
        source: t,
        kinds: fragment_nodes_of(t).map_values(|x: (KindView, usize)| x.0),
        depths: fragment_nodes_of(t).map_values(|x: (KindView, usize)| x.1),
    }
}

pub open spec fn is_element(d: DocView, i: int) -> bool {
    0 <= i < d.kinds.len() && d.kinds[i] is Element
}

/// The tag name of node `i`; empty for what is no element.
pub open spec fn name(d: DocView, i: int) -> Seq<char> {
    if is_element(d, i) {
        match d.kinds[i] {
            KindView::Element(n, _) => n,
            _ => Seq::empty(),
        }
    } else {
        Seq::empty()
    }
}

/// The attributes of node `i`; none for what is no element.
pub open spec fn attrs(d: DocView, i: int) -> Seq<(Seq<char>, Seq<char>)> {
    if is_element(d, i) {
        match d.kinds[i] {
            KindView::Element(_, a) => a,
            _ => Seq::empty(),
        }
    } else {
        Seq::empty()
    }
}

/// The texts of the text nodes among nodes `a` up to `b`, in order.
pub open spec fn texts_in(d: DocView, a: int, b: int) -> Seq<Seq<char>>
    decreases b - a,
{
    if b <= a || b > d.kinds.len() || a < 0 {
        Seq::empty()
    } else {
        let rest = texts_in(d, a, b - 1);
        match d.kinds[b - 1] {
            KindView::Text(t) => rest.push(t),
            _ => rest,
        }
    }
}

/// The texts of the descendants of node `i`, in document order.
pub open spec fn texts(d: DocView, i: int) -> Seq<Seq<char>> {
    texts_in(d, i + 1, end(d, i))
}

/// The texts of the descendants of node `i` joined with single spaces.
pub open spec fn joined_text(d: DocView, i: int) -> Seq<char> {
    join(texts(d, i), " "@)
}

/// Whether node `j` is an element child of node `i`.
pub open spec fn is_child_element(d: DocView, i: int, j: int) -> bool {
    i < j < end(d, i) && parent(d, j) == Some(i) && is_element(d, j)
}

/// The element children of node `i` among nodes `a` up to `b`, in order.
pub open spec fn child_elements_in(d: DocView, i: int, a: int, b: int) -> Seq<int>
    decreases b - a,
{
    if b <= a {
        Seq::empty()
    } else {
        let rest = child_elements_in(d, i, a, b - 1);
        if is_child_element(d, i, b - 1) {
            rest.push(b - 1)
        } else {
            rest
        }
    }
}

/// The element children of node `i`, in order.
pub open spec fn child_elements(d: DocView, i: int) -> Seq<int> {
    child_elements_in(d, i, i + 1, end(d, i))
}

/// Whether element `i` is a leaf as the label scan takes it: it has no
/// element children, or only one, a hyperlink.
pub open spec fn is_leaf_like(d: DocView, i: int) -> bool {
    is_element(d, i) && (child_elements(d, i).len() == 0 || (child_elements(d, i).len() == 1 && name(
        d,
        child_elements(d, i)[0],
    ) == "a"@))
}

/// The last element before node `i` that shares its parent.
pub open spec fn prev_element_from(d: DocView, i: int, j: int) -> Option<int>
    decreases j + 1,
{
    if j < 0 {
        None
    } else if parent(d, j) == parent(d, i) && is_element(d, j) {
        Some(j)
    } else {
        prev_element_from(d, i, j - 1)
    }
}

pub open spec fn prev_element(d: DocView, i: int) -> Option<int> {
    prev_element_from(d, i, i - 1)
}

/// The value that element `i` holds for `label`: its text, where the element
/// before it among its siblings is a header cell whose lowercased text is
/// `label`, `i` itself is a data cell or a hyperlink, and the text is not
/// empty.
pub open spec fn locate(d: DocView, i: int, label: Seq<char>) -> Option<Seq<char>> {
    match prev_element(d, i) {
        Some(p) => if lowercase_of(joined_text(d, p)) == label && name(d, p) == "th"@ && (name(d, i)
            == "td"@ || name(d, i) == "a"@) && joined_text(d, i).len() > 0 {
            Some(joined_text(d, i))
        } else {
            None
        },
        None => None,
    }
}

/// The nodes that a selector picks among nodes `a` up to `b`, in order.
pub open spec fn picked_in(m: Seq<bool>, a: int, b: int) -> Seq<int>
    decreases b - a,
{
    if b <= a || b > m.len() || a < 0 {
        Seq::empty()
    } else {
        let rest = picked_in(m, a, b - 1);
        if m[b - 1] {
            rest.push(b - 1)
        } else {
            rest
        }
    }
}

/// The elements that `selector` matches among nodes `a` up to `b` of the
/// document; none where the selector does not parse.
pub open spec fn select_in(d: DocView, selector: Seq<char>, a: int, b: int) -> Seq<int> {
    match selector_matches_of(d.source, selector) {
        Some(m) => picked_in(m, a, if b <= d.kinds.len() { b } else { d.kinds.len() as int }),
        None => Seq::empty(),
    }
}

/// The elements of the whole document that `selector` matches.
pub open spec fn select_all(d: DocView, selector: Seq<char>) -> Seq<int> {
    select_in(d, selector, 0, d.kinds.len() as int)
}

/// The descendants of node `i` that `selector` matches.
pub open spec fn select_below(d: DocView, i: int, selector: Seq<char>) -> Seq<int> {
    select_in(d, selector, i + 1, end(d, i))
}


/// The leaf-like elements among nodes `a` up to `b`, in order.
pub open spec fn leaves_in(d: DocView, a: int, b: int) -> Seq<int>
    decreases b - a,
{
    if b <= a {
        Seq::empty()
    } else {
        let rest = leaves_in(d, a, b - 1);
        if is_leaf_like(d, b - 1) {
            rest.push(b - 1)
        } else {
            rest
        }
    }
}

/// The leaf-like elements of the document in document order, from its root
/// element (the first element child of the document node) on.
pub open spec fn leaves(d: DocView) -> Seq<int> {
    if d.kinds.len() > 0 && child_elements(d, 0).len() > 0 {
        let r = child_elements(d, 0)[0];
        leaves_in(d, r, end(d, r))
    } else {
        Seq::empty()
    }
}

/// The value of the first attribute of node `i` named `key`, among its first
/// `k` attributes.
pub open spec fn attr_from(a: Seq<(Seq<char>, Seq<char>)>, key: Seq<char>, k: int) -> Option<Seq<char>>
    decreases k,
{
    if k <= 0 || k > a.len() {
        None
    } else if attr_from(a, key, k - 1) is Some {
        attr_from(a, key, k - 1)
    } else if a[k - 1].0 == key {
        Some(a[k - 1].1)
    } else {
        None
    }
}

/// The value of the attribute of node `i` named `key`.
pub open spec fn attr(d: DocView, i: int, key: Seq<char>) -> Option<Seq<char>> {
    attr_from(attrs(d, i), key, attrs(d, i).len() as int)
}

pub open spec fn indices_view(v: Seq<usize>) -> Seq<int> {
    v.map_values(|x: usize| x as int)
}

pub open spec fn opt_usize_view(o: Option<usize>) -> Option<int> {
    match o {
        Some(v) => Some(v as int),
        None => None,
    }
}

impl Document {
    /// The parents and ends kept beside the nodes are those of the tree.
    pub open spec fn wf(&self) -> bool {
        &&& self.parents@.len() == self.nodes@.len()
        &&& self.ends@.len() == self.nodes@.len()
        &&& forall|i: int|
            0 <= i < self.nodes@.len() ==> opt_usize_view(#[trigger] self.parents@[i]) == parent(
                self@,
                i,
            )
        &&& forall|i: int|
            0 <= i < self.nodes@.len() ==> #[trigger] self.ends@[i] as int == end(self@, i)
    }

    pub open spec fn len(&self) -> nat {
        self.nodes@.len()
    }

    /// Parses an HTML fragment.
    pub fn parse(text: &str) -> (d: Document)
        ensures
            d@ == document_of(text@),
            d.wf(),
    {
        let nodes = fragment_nodes(text);
        let n = nodes.len();
        let ghost dv = DocView {
            source: text@,
            kinds: nodes@.map_values(|x: (NodeKind, usize)| x.0@),
            depths: nodes@.map_values(|x: (NodeKind, usize)| x.1),
        };
        assert(dv.kinds =~= fragment_nodes_of(text@).map_values(|x: (KindView, usize)| x.0));
        assert(dv.depths =~= fragment_nodes_of(text@).map_values(|x: (KindView, usize)| x.1));
        let mut parents: Vec<Option<usize>> = Vec::new();
        let mut ends: Vec<usize> = Vec::new();
        let mut i: usize = 0;
        while i < n
            invariant
                n == nodes@.len(),
                dv.depths == nodes@.map_values(|x: (NodeKind, usize)| x.1),
                0 <= i <= n,
                parents@.len() == i,
                ends@.len() == i,
                forall|k: int| 0 <= k < i ==> opt_usize_view(#[trigger] parents@[k]) == parent(dv, k),
                forall|k: int| 0 <= k < i ==> #[trigger] ends@[k] as int == end(dv, k),
            decreases n - i,
        {
            let di = nodes[i].1;
            let mut j = i;
            while j > 0 && nodes[j - 1].1 >= di
                invariant
                    j <= i < n,
                    n == nodes@.len(),
                    dv.depths == nodes@.map_values(|x: (NodeKind, usize)| x.1),
                    di == dv.depths[i as int],
                    parent(dv, i as int) == parent_from(dv, i as int, j - 1),
                decreases j,
            {
                j -= 1;
            }
            let p: Option<usize> = if j > 0 {
                Some(j - 1)
            } else {
                assert(parent_from(dv, i as int, -1) is None);
                None
            };
            parents.push(p);
            let mut e = i + 1;
            while e < n && nodes[e].1 > di
                invariant
                    i < e <= n,
                    n == nodes@.len(),
                    dv.depths == nodes@.map_values(|x: (NodeKind, usize)| x.1),
                    di == dv.depths[i as int],
                    end(dv, i as int) == end_from(dv, i as int, e as int),
                decreases n - e,
            {
                e += 1;
            }
            ends.push(e);
            i += 1;
        }
        let d = Document { source: String::from_str(text), nodes, parents, ends };
        assert(d@.kinds =~= dv.kinds);
        assert(d@.depths =~= dv.depths);
        d
    }

    /// Whether node `i` is an element with the tag name `tag`.
    pub fn is_tag(&self, i: usize, tag: &str) -> (r: bool)
        requires
            i < self.len(),
        ensures
            r == (is_element(self@, i as int) && name(self@, i as int) == tag@),
    {
        match &self.nodes[i].0 {
            NodeKind::Element(n, _) => {
                let c = chars_of(n.as_str());
                is_literal(c.as_slice(), tag)
            },
            _ => false,
        }
    }

    pub fn is_element_exec(&self, i: usize) -> (r: bool)
        requires
            i < self.len(),
        ensures
            r == is_element(self@, i as int),
    {
        match &self.nodes[i].0 {
            NodeKind::Element(_, _) => true,
            _ => false,
        }
    }

    /// The texts of the descendants of node `i`, joined with single spaces.
    pub fn joined_text(&self, i: usize) -> (r: Vec<char>)
        requires
            self.wf(),
            i < self.len(),
        ensures
            r@ == joined_text(self@, i as int),
    {
        let e = self.ends[i];
        let n = self.nodes.len();
        assert(e as int == end(self@, i as int));
        proof {
            lemma_end_bounds(self@, i as int, i as int + 1);
        }
        let mut acc: Vec<char> = Vec::new();
        let mut any = false;
        let mut j = i + 1;
        while j < e
            invariant
                self.wf(),
                n == self.nodes@.len(),
                i < j <= e <= n,
                acc@ == join(texts_in(self@, i + 1, j as int), " "@),
                any == (texts_in(self@, i + 1, j as int).len() > 0),
            decreases e - j,
        {
            let ghost before = texts_in(self@, i + 1, j as int);
            match &self.nodes[j].0 {
                NodeKind::Text(t) => {
                    let c = chars_of(t.as_str());
                    assert(texts_in(self@, i + 1, j + 1) == before.push(c@));
                    assert(before.push(c@).drop_last() =~= before);
                    if any {
                        acc.push(' ');
                    }
                    any = true;
                    let mut k: usize = 0;
                    let ghost base = acc@;
                    while k < c.len()
                        invariant
                            k <= c@.len(),
                            acc@ == base + c@.subrange(0, k as int),
                        decreases c.len() - k,
                    {
                        acc.push(c[k]);
                        k += 1;
                        assert(acc@ =~= base + c@.subrange(0, k as int));
                    }
                    assert(c@.subrange(0, c@.len() as int) =~= c@);
                    proof {
                        reveal_strlit(" ");
                        if before.len() > 0 {
                            assert(acc@ =~= join(before, " "@) + " "@ + c@);
                        } else {
                            assert(acc@ =~= c@);
                        }
                    }
                },
                _ => {},
            }
            j += 1;
        }
        acc
    }

    /// The element children of node `i`, in order.
    pub fn child_elements(&self, i: usize) -> (r: Vec<usize>)
        requires
            self.wf(),
            i < self.len(),
        ensures
            indices_view(r@) == child_elements(self@, i as int),
            forall|k: int| 0 <= k < r@.len() ==> #[trigger] r@[k] < self.len(),
    {
        let e = self.ends[i];
        let n = self.nodes.len();
        proof {
            lemma_end_bounds(self@, i as int, i as int + 1);
        }
        let mut out: Vec<usize> = Vec::new();
        let mut j = i + 1;
        assert(indices_view(out@) =~= child_elements_in(self@, i as int, i + 1, j as int));
        while j < e
            invariant
                self.wf(),
                n == self.nodes@.len(),
                e as int == end(self@, i as int),
                i < j <= e <= n,
                indices_view(out@) == child_elements_in(self@, i as int, i + 1, j as int),
                forall|k: int| 0 <= k < out@.len() ==> #[trigger] out@[k] < n,
            decreases e - j,
        {
            let is_child = match self.parents[j] {
                Some(p) => p == i,
                None => false,
            } && self.is_element_exec(j);
            if is_child {
                out.push(j);
            }
            assert(indices_view(out@) =~= child_elements_in(self@, i as int, i + 1, j + 1));
            j += 1;
        }
        out
    }

    /// The last element before node `i` that shares its parent.
    pub fn prev_element(&self, i: usize) -> (r: Option<usize>)
        requires
            self.wf(),
            i < self.len(),
        ensures
            opt_usize_view(r) == prev_element(self@, i as int),
            r matches Some(p) ==> p < i,
    {
        let mut j = i;
        while j > 0
            invariant
                self.wf(),
                j <= i < self.len(),
                prev_element(self@, i as int) == prev_element_from(self@, i as int, j - 1),
            decreases j,
        {
            if self.parents[j - 1] == self.parents[i] && self.is_element_exec(j - 1) {
                proof {
                    assert(opt_usize_view(self.parents@[j - 1]) == parent(self@, j - 1));
                    assert(opt_usize_view(self.parents@[i as int]) == parent(self@, i as int));
                }
                return Some(j - 1);
            }
            proof {
                assert(opt_usize_view(self.parents@[j - 1]) == parent(self@, j - 1));
                assert(opt_usize_view(self.parents@[i as int]) == parent(self@, i as int));
                if parent(self@, j - 1) == parent(self@, i as int) {
                    assert(self.parents@[j - 1] == self.parents@[i as int]);
                }
            }
            j -= 1;
        }
        assert(prev_element_from(self@, i as int, -1) is None);
        None
    }

    /// The value that element `i` holds for `label`, as [`locate`] says.
    pub fn locate(&self, i: usize, label: &[char]) -> (r: Option<Vec<char>>)
        requires
            self.wf(),
            i < self.len(),
        ensures
            match r {
                Some(v) => locate(self@, i as int, label@) == Some(v@),
                None => locate(self@, i as int, label@) is None,
            },
    {
        let p = match self.prev_element(i) {
            Some(p) => p,
            None => return None,
        };
        proof {
            reveal_strlit("td");
            reveal_strlit("th");
            reveal_strlit("a");
            assert("td"@.len() == 2 && "th"@.len() == 2 && "a"@.len() == 1);
            assert(!is_element(self@, i as int) ==> name(self@, i as int).len() == 0);
            assert(!is_element(self@, p as int) ==> name(self@, p as int).len() == 0);
        }
        let pt = self.joined_text(p);
        let lower = lowercase(pt.as_slice());
        assert(prev_element(self@, i as int) == Some(p as int));
        if !seq_equal(lower.as_slice(), label) {
            return None;
        }
        if !self.is_tag(p, "th") {
            return None;
        }
        if !self.is_tag(i, "td") && !self.is_tag(i, "a") {
            assert("td"@.len() == 2);
            assert(!is_element(self@, i as int) ==> name(self@, i as int).len() == 0);
            assert(name(self@, i as int) != "td"@);
            assert(name(self@, i as int) != "a"@);
            return None;
        }
        let t = self.joined_text(i);
        if t.len() == 0 {
            return None;
        }
        Some(t)
    }

    /// Whether element `i` is leaf-like, as [`is_leaf_like`] says.
    pub fn is_leaf_like(&self, i: usize) -> (r: bool)
        requires
            self.wf(),
            i < self.len(),
        ensures
            r == is_leaf_like(self@, i as int),
    {
        if !self.is_element_exec(i) {
            return false;
        }
        let c = self.child_elements(i);
        assert(c@.len() == child_elements(self@, i as int).len());
        if c.len() == 0 {
            return true;
        }
        assert(indices_view(c@)[0] == c@[0] as int);
        proof {
            reveal_strlit("a");
            assert("a"@.len() == 1);
            assert(!is_element(self@, c@[0] as int) ==> name(self@, c@[0] as int).len() == 0);
        }
        c.len() == 1 && self.is_tag(c[0], "a")
    }

    /// The leaf-like elements of the document in document order.
    pub fn leaves(&self) -> (r: Vec<usize>)
        requires
            self.wf(),
        ensures
            indices_view(r@) == leaves(self@),
            forall|k: int| 0 <= k < r@.len() ==> #[trigger] r@[k] < self.len(),
    {
        let mut out: Vec<usize> = Vec::new();
        let n = self.nodes.len();
        if n == 0 {
            assert(indices_view(out@) =~= leaves(self@));
            return out;
        }
        let top = self.child_elements(0);
        if top.len() == 0 {
            assert(indices_view(out@) =~= leaves(self@));
            return out;
        }
        let r = top[0];
        assert(indices_view(top@)[0] == r as int);
        let e = self.ends[r];
        proof {
            lemma_end_bounds(self@, r as int, r as int + 1);
        }
        let mut j = r;
        assert(indices_view(out@) =~= leaves_in(self@, r as int, r as int));
        while j < e
            invariant
                self.wf(),
                n == self.nodes@.len(),
                r <= j <= e <= n,
                indices_view(out@) == leaves_in(self@, r as int, j as int),
                forall|k: int| 0 <= k < out@.len() ==> #[trigger] out@[k] < n,
            decreases e - j,
        {
            if self.is_leaf_like(j) {
                out.push(j);
            }
            assert(indices_view(out@) =~= leaves_in(self@, r as int, j + 1));
            j += 1;
        }
        out
    }

    /// The elements among nodes `a` up to `b` that `selector` matches.
    pub fn select_in(&self, selector: &str, a: usize, b: usize) -> (r: Vec<usize>)
        ensures
            indices_view(r@) == select_in(self@, selector@, a as int, b as int),
            forall|k: int| 0 <= k < r@.len() ==> #[trigger] r@[k] < self.len(),
    {
        let mut out: Vec<usize> = Vec::new();
        let m = match selector_matches(self.source.as_str(), selector) {
            Some(m) => m,
            None => {
                assert(indices_view(out@) =~= Seq::<int>::empty());
                return out;
            },
        };
        let n = self.nodes.len();
        let b = if b <= n { b } else { n };
        if b > m.len() || b <= a {
            assert(indices_view(out@) =~= picked_in(m@, a as int, b as int));
            return out;
        }
        let mut j = a;
        assert(indices_view(out@) =~= picked_in(m@, a as int, a as int));
        while j < b
            invariant
                a <= j <= b <= m@.len(),
                b <= n == self.nodes@.len(),
                indices_view(out@) == picked_in(m@, a as int, j as int),
                forall|k: int| 0 <= k < out@.len() ==> #[trigger] out@[k] < n,
            decreases b - j,
        {
            if m[j] {
                out.push(j);
            }
            assert(indices_view(out@) =~= picked_in(m@, a as int, j + 1));
            j += 1;
        }
        out
    }

    /// The value of the attribute of node `i` named `key`.
    pub fn attr(&self, i: usize, key: &str) -> (r: Option<String>)
        requires
            i < self.len(),
        ensures
            match r {
                Some(v) => attr(self@, i as int, key@) == Some(v@),
                None => attr(self@, i as int, key@) is None,
            },
    {
        match &self.nodes[i].0 {
            NodeKind::Element(_, a) => {
                let ghost av = a@.map_values(|x: (String, String)| attr_view(x));
                assert(attrs(self@, i as int) == av);
                let mut k: usize = 0;
                while k < a.len()
                    invariant
                        k <= a@.len(),
                        attrs(self@, i as int) == av,
                        av == a@.map_values(|x: (String, String)| attr_view(x)),
                        attr_from(av, key@, k as int) is None,
                    decreases a.len() - k,
                {
                    let c = chars_of(a[k].0.as_str());
                    if is_literal(c.as_slice(), key) {
                        assert(attr_from(av, key@, k + 1) == Some(a@[k as int].1@));
                        proof {
                            lemma_attr_found(av, key@, k as int + 1, a@.len() as int);
                        }
                        let v = chars_of(a[k].1.as_str());
                        let out = string_of(v.as_slice());
                        assert(av.len() == a@.len());
                        assert(attr(self@, i as int, key@) == attr_from(av, key@, av.len() as int));
                        assert(out@ == a@[k as int].1@);
                        return Some(out);
                    }
                    k += 1;
                }
                None
            },
            _ => None,
        }
    }

    /// The first text among the descendants of node `i`.
    pub fn first_text(&self, i: usize) -> (r: Option<String>)
        requires
            self.wf(),
            i < self.len(),
        ensures
            match r {
                Some(t) => texts(self@, i as int).len() > 0 && t@ == texts(self@, i as int)[0],
                None => texts(self@, i as int).len() == 0,
            },
    {
        let e = self.ends[i];
        let n = self.nodes.len();
        proof {
            lemma_end_bounds(self@, i as int, i as int + 1);
        }
        let mut j = i + 1;
        while j < e
            invariant
                self.wf(),
                n == self.nodes@.len(),
                i < j <= e <= n,
                e as int == end(self@, i as int),
                texts_in(self@, i + 1, j as int).len() == 0,
            decreases e - j,
        {
            match &self.nodes[j].0 {
                NodeKind::Text(t) => {
                    proof {
                        lemma_texts_first(self@, i + 1, j as int + 1, e as int);
                    }
                    let c = chars_of(t.as_str());
                    return Some(string_of(c.as_slice()));
                },
                _ => {},
            }
            j += 1;
        }
        None
    }

    /// How many attributes node `i` has.
    pub fn attr_count(&self, i: usize) -> (r: usize)
        requires
            i < self.len(),
        ensures
            r == attrs(self@, i as int).len(),
    {
        match &self.nodes[i].0 {
            NodeKind::Element(_, a) => a.len(),
            _ => 0,
        }
    }
}

proof fn lemma_texts_first(d: DocView, a: int, b: int, c: int)
    requires
        0 <= a < b <= c <= d.kinds.len(),
        texts_in(d, a, b).len() > 0,
    ensures
        texts_in(d, a, c).len() > 0,
        texts_in(d, a, c)[0] == texts_in(d, a, b)[0],
    decreases c - b,
{
    if c > b {
        lemma_texts_first(d, a, b, c - 1);
    }
}

proof fn lemma_parent_from_before(d: DocView, i: int, j: int)
    ensures
        parent_from(d, i, j) matches Some(p) ==> 0 <= p <= j,
    decreases j + 1,
{
    if j >= 0 && !(d.depths[j] < d.depths[i]) {
        lemma_parent_from_before(d, i, j - 1);
    }
}

/// A node's parent comes before it.
pub proof fn lemma_parent_before(d: DocView, i: int)
    ensures
        parent(d, i) matches Some(p) ==> 0 <= p < i,
{
    lemma_parent_from_before(d, i, i - 1);
}

proof fn lemma_end_bounds(d: DocView, i: int, j: int)
    requires
        0 <= i < j,
    ensures
        i < end_from(d, i, j) || j > d.depths.len(),
        end_from(d, i, j) <= d.depths.len(),
        j <= d.depths.len() ==> j <= end_from(d, i, j),
    decreases d.depths.len() - j,
{
    if j < d.depths.len() && d.depths[j] > d.depths[i] {
        lemma_end_bounds(d, i, j + 1);
    }
}

proof fn lemma_attr_found(a: Seq<(Seq<char>, Seq<char>)>, key: Seq<char>, k: int, m: int)
    requires
        1 <= k <= m <= a.len(),
        attr_from(a, key, k) is Some,
    ensures
        attr_from(a, key, m) == attr_from(a, key, k),
    decreases m - k,
{
    if m > k {
        lemma_attr_found(a, key, k, m - 1);
    }
}

} // verus!
