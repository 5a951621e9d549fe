//! The structural document model. A page is a tree of nodes; each node has a
//! tag name, an optional `id` attribute, a list of class names, and an ordered
//! list of kids, each either a text fragment or a child node. The extractors
//! read pages only through this model; turning real markup into it is the
//! caller's concern.

use vstd::prelude::*;

use crate::text::{contains_char, is_space_char, join_spaced, split_spaces, starts_with, str_eq,
    str_starts_with, trim_spec};

verus! {

/// One item in a node's ordered content: a raw text fragment or a child node.
pub enum Piece {
    Text(String),
    Elem(Node),
}

/// A markup element: tag name, optional id, class list, ordered content.
pub struct Node {
    pub tag: String,
    pub id: Option<String>,
    pub classes: Vec<String>,
    pub kids: Vec<Piece>,
}

/// The node values behind a sequence of references.
pub open spec fn deref_seq(s: Seq<&Node>) -> Seq<Node> {
    s.map_values(|x: &Node| *x)
}

/// The node carries the given class name.
pub open spec fn spec_has_class(n: Node, c: Seq<char>) -> bool {
    exists|i: int| 0 <= i < n.classes@.len() && n.classes@[i]@ == c
}

pub fn has_class(n: &Node, c: &str) -> (r: bool)
    ensures
        r == spec_has_class(*n, c@),
{
    let mut i: usize = 0;
    while i < n.classes.len()
        invariant
            0 <= i <= n.classes@.len(),
            forall|j: int| 0 <= j < i ==> n.classes@[j]@ != c@,
        decreases n.classes@.len() - i,
    {
        if str_eq(n.classes[i].as_str(), c) {
            assert(spec_has_class(*n, c@));
            return true;
        }
        i += 1;
    }
    false
}

/// The raw text fragments of the subtree below `n`, in document order,
/// starting with kid `i`.
pub open spec fn frags_from(n: Node, i: int) -> Seq<Seq<char>>
    decreases n, 0int, n.kids@.len() - i,
{
    if i < 0 || i >= n.kids@.len() {
        Seq::empty()
    } else {
        (match n.kids@[i] {
            Piece::Text(s) => seq![s@],
            Piece::Elem(m) => node_frags(m),
        }) + frags_from(n, i + 1)
    }
}

/// All raw text fragments of the subtree below `n`, in document order.
pub open spec fn node_frags(n: Node) -> Seq<Seq<char>>
    decreases n, 1int, 0int,
{
    frags_from(n, 0)
}

pub fn collect_frags(n: &Node) -> (r: Vec<String>)
    ensures
        r.deep_view() == node_frags(*n),
    decreases *n,
{
    let mut out: Vec<String> = Vec::new();
    proof {
        assert(out.deep_view() =~= Seq::<Seq<char>>::empty());
        assert(out.deep_view() + node_frags(*n) =~= node_frags(*n));
    }
    let mut i: usize = 0;
    while i < n.kids.len()
        invariant
            0 <= i <= n.kids@.len(),
            out.deep_view() + frags_from(*n, i as int) == node_frags(*n),
        decreases n.kids@.len() - i,
    {
        let ghost odv = out.deep_view();
        match &n.kids[i] {
            Piece::Text(s) => {
                out.push(s.clone());
                proof {
                    assert(out.deep_view() =~= odv.push(s@));
                    assert(odv.push(s@) + frags_from(*n, i + 1) =~= odv + (seq![s@] + frags_from(
                        *n,
                        i + 1,
                    )));
                }
            },
            Piece::Elem(m) => {
                let mut sub = collect_frags(m);
                let ghost sdv = sub.deep_view();
                out.append(&mut sub);
                proof {
                    assert(out.deep_view() =~= odv + sdv);
                    assert((odv + sdv) + frags_from(*n, i + 1) =~= odv + (sdv + frags_from(
                        *n,
                        i + 1,
                    )));
                }
            },
        }
        i += 1;
    }
    out
}

/// The concatenation of the fragments `fs[i..]`.
pub open spec fn concat_from(fs: Seq<Seq<char>>, i: int) -> Seq<char>
    decreases fs.len() - i,
{
    if i < 0 || i >= fs.len() {
        Seq::empty()
    } else {
        fs[i] + concat_from(fs, i + 1)
    }
}

/// The rendered text content of `n`: all fragments run together.
pub open spec fn node_text(n: Node) -> Seq<char> {
    concat_from(node_frags(n), 0)
}

pub fn collect_text(n: &Node) -> (r: String)
    ensures
        r@ == node_text(*n),
{
    let fs = collect_frags(n);
    let ghost dv = fs.deep_view();
    let mut r = String::new();
    proof {
        assert(r@ + concat_from(dv, 0) =~= concat_from(dv, 0));
    }
    let mut i: usize = 0;
    while i < fs.len()
        invariant
            0 <= i <= fs@.len(),
            dv == fs.deep_view(),
            dv.len() == fs@.len(),
            r@ + concat_from(dv, i as int) == concat_from(dv, 0),
        decreases fs@.len() - i,
    {
        let ghost rv = r@;
        r.append(fs[i].as_str());
        proof {
            assert(dv[i as int] == fs@[i as int]@);
            assert((rv + dv[i as int]) + concat_from(dv, i + 1) =~= rv + (dv[i as int]
                + concat_from(dv, i + 1)));
        }
        i += 1;
    }
    r
}

/// The element kids of `n` from position `i` on, in order.
pub open spec fn elem_kids_from(n: Node, i: int) -> Seq<Node>
    decreases n.kids@.len() - i,
{
    if i < 0 || i >= n.kids@.len() {
        Seq::empty()
    } else {
        (match n.kids@[i] {
            Piece::Text(_) => Seq::empty(),
            Piece::Elem(m) => seq![m],
        }) + elem_kids_from(n, i + 1)
    }
}

/// The element kids of `n` whose tag is `t`, from position `i` on.
pub open spec fn elem_kids_tag_from(n: Node, t: Seq<char>, i: int) -> Seq<Node>
    decreases n.kids@.len() - i,
{
    if i < 0 || i >= n.kids@.len() {
        Seq::empty()
    } else {
        (match n.kids@[i] {
            Piece::Text(_) => Seq::empty(),
            Piece::Elem(m) => if m.tag@ == t {
                seq![m]
            } else {
                Seq::empty()
            },
        }) + elem_kids_tag_from(n, t, i + 1)
    }
}

pub fn elem_kids<'a>(n: &'a Node) -> (r: Vec<&'a Node>)
    ensures
        deref_seq(r@) == elem_kids_from(*n, 0),
{
    let mut out: Vec<&'a Node> = Vec::new();
    proof {
        assert(deref_seq(out@) =~= Seq::<Node>::empty());
        assert(deref_seq(out@) + elem_kids_from(*n, 0) =~= elem_kids_from(*n, 0));
    }
    let mut i: usize = 0;
    while i < n.kids.len()
        invariant
            0 <= i <= n.kids@.len(),
            deref_seq(out@) + elem_kids_from(*n, i as int) == elem_kids_from(*n, 0),
        decreases n.kids@.len() - i,
    {
        let ghost odv = deref_seq(out@);
        match &n.kids[i] {
            Piece::Text(_) => {
            },
            Piece::Elem(m) => {
                out.push(m);
                proof {
                    assert(deref_seq(out@) =~= odv.push(*m));
                    assert(odv.push(*m) + elem_kids_from(*n, i + 1) =~= odv + (seq![*m]
                        + elem_kids_from(*n, i + 1)));
                }
            },
        }
        i += 1;
    }
    out
}

pub fn elem_kids_tagged<'a>(n: &'a Node, t: &str) -> (r: Vec<&'a Node>)
    ensures
        deref_seq(r@) == elem_kids_tag_from(*n, t@, 0),
{
    let mut out: Vec<&'a Node> = Vec::new();
    proof {
        assert(deref_seq(out@) =~= Seq::<Node>::empty());
        assert(deref_seq(out@) + elem_kids_tag_from(*n, t@, 0) =~= elem_kids_tag_from(*n, t@, 0));
    }
    let mut i: usize = 0;
    while i < n.kids.len()
        invariant
            0 <= i <= n.kids@.len(),
            deref_seq(out@) + elem_kids_tag_from(*n, t@, i as int) == elem_kids_tag_from(*n, t@, 0),
        decreases n.kids@.len() - i,
    {
        let ghost odv = deref_seq(out@);
        match &n.kids[i] {
            Piece::Text(_) => {
            },
            Piece::Elem(m) => {
                if str_eq(m.tag.as_str(), t) {
                    out.push(m);
                    proof {
                        assert(deref_seq(out@) =~= odv.push(*m));
                        assert(odv.push(*m) + elem_kids_tag_from(*n, t@, i + 1) =~= odv + (seq![*m]
                            + elem_kids_tag_from(*n, t@, i + 1)));
                    }
                }
            },
        }
        i += 1;
    }
    out
}

/// The heading patterns the extractors look for: plain `h3` or `h4`
/// headings, `h3` headings whose id carries a known prefix, and a heading
/// nested as `div.description > div > h4`.
#[derive(Debug, Clone, Copy)]
pub enum TitleSel {
    H3,
    H4,
    TypeH3,
    EventH3,
    MethodH3,
    DescDivH4,
}

/// The two sibling queries the extractors run: the argument bodies
/// `{title} ~ div.description > table > tbody` of a method subsection, and
/// the rows `h3[id^="type-"] ~ table > tbody > tr` of a type subsection.
#[derive(Debug, Clone, Copy)]
pub enum SibKind {
    MethodArgs(TitleSel),
    TypeRows,
}

/// The node is a `div` with class `description`.
pub open spec fn is_desc_div(n: Node) -> bool {
    n.tag@ == "div"@ && spec_has_class(n, "description"@)
}

pub fn desc_div(n: &Node) -> (r: bool)
    ensures
        r == is_desc_div(*n),
{
    str_eq(n.tag.as_str(), "div") && has_class(n, "description")
}

pub open spec fn title_matches(k: Node, par: Node, pd: bool, sel: TitleSel) -> bool {
    match sel {
        TitleSel::H3 => k.tag@ == "h3"@,
        TitleSel::H4 => k.tag@ == "h4"@,
        TitleSel::TypeH3 => k.tag@ == "h3"@ && (match k.id {
            Some(s) => starts_with(s@, "type-"@),
            None => false,
        }),
        TitleSel::EventH3 => k.tag@ == "h3"@ && (match k.id {
            Some(s) => starts_with(s@, "event-"@),
            None => false,
        }),
        TitleSel::MethodH3 => k.tag@ == "h3"@ && (match k.id {
            Some(s) => starts_with(s@, "method-"@),
            None => false,
        }),
        TitleSel::DescDivH4 => k.tag@ == "h4"@ && par.tag@ == "div"@ && pd,
    }
}

fn id_starts(k: &Node, p: &str) -> (r: bool)
    ensures
        r == (match k.id {
            Some(s) => starts_with(s@, p@),
            None => false,
        }),
{
    match &k.id {
        Some(idv) => str_starts_with(idv.as_str(), p),
        None => false,
    }
}

pub fn title_match(k: &Node, par: &Node, pd: bool, sel: TitleSel) -> (r: bool)
    ensures
        r == title_matches(*k, *par, pd, sel),
{
    match sel {
        TitleSel::H3 => str_eq(k.tag.as_str(), "h3"),
        TitleSel::H4 => str_eq(k.tag.as_str(), "h4"),
        TitleSel::TypeH3 => str_eq(k.tag.as_str(), "h3") && id_starts(k, "type-"),
        TitleSel::EventH3 => str_eq(k.tag.as_str(), "h3") && id_starts(k, "event-"),
        TitleSel::MethodH3 => str_eq(k.tag.as_str(), "h3") && id_starts(k, "method-"),
        TitleSel::DescDivH4 => {
            str_eq(k.tag.as_str(), "h4") && str_eq(par.tag.as_str(), "div") && pd
        },
    }
}

/// Heading matches among the descendants of `par`, scanning kids `i..`;
/// `pd` says whether the parent of `par` is a `div.description`.
pub open spec fn sel_title_kids(par: Node, i: int, pd: bool, sel: TitleSel) -> Seq<Node>
    decreases par, 0int, par.kids@.len() - i,
{
    if i < 0 || i >= par.kids@.len() {
        Seq::empty()
    } else {
        match par.kids@[i] {
            Piece::Text(_) => sel_title_kids(par, i + 1, pd, sel),
            Piece::Elem(k) => (if title_matches(k, par, pd, sel) {
                seq![k]
            } else {
                Seq::empty()
            }) + sel_title_in(k, is_desc_div(par), sel) + sel_title_kids(par, i + 1, pd, sel),
        }
    }
}

/// Heading matches among the strict descendants of `n`, in search order;
/// `nd` says whether the parent of `n` is a `div.description`.
pub open spec fn sel_title_in(n: Node, nd: bool, sel: TitleSel) -> Seq<Node>
    decreases n, 1int, 0int,
{
    sel_title_kids(n, 0, nd, sel)
}

pub fn select_title<'a>(n: &'a Node, nd: bool, sel: TitleSel) -> (r: Vec<&'a Node>)
    ensures
        deref_seq(r@) == sel_title_in(*n, nd, sel),
    decreases *n,
{
    let mut out: Vec<&'a Node> = Vec::new();
    proof {
        assert(deref_seq(out@) =~= Seq::<Node>::empty());
        assert(deref_seq(out@) + sel_title_in(*n, nd, sel) =~= sel_title_in(*n, nd, sel));
    }
    let mut i: usize = 0;
    while i < n.kids.len()
        invariant
            0 <= i <= n.kids@.len(),
            deref_seq(out@) + sel_title_kids(*n, i as int, nd, sel) == sel_title_in(*n, nd, sel),
        decreases n.kids@.len() - i,
    {
        let ghost odv = deref_seq(out@);
        match &n.kids[i] {
            Piece::Text(_) => {
            },
            Piece::Elem(k) => {
                let ghost mpart = if title_matches(*k, *n, nd, sel) {
                    seq![*k]
                } else {
                    Seq::<Node>::empty()
                };
                if title_match(k, n, nd, sel) {
                    out.push(k);
                    proof {
                        assert(deref_seq(out@) =~= odv + mpart);
                    }
                } else {
                    proof {
                        assert(deref_seq(out@) =~= odv + mpart);
                    }
                }
                let ghost odv2 = deref_seq(out@);
                let mut sub = select_title(k, desc_div(n), sel);
                let ghost sdv = deref_seq(sub@);
                out.append(&mut sub);
                proof {
                    assert(deref_seq(out@) =~= odv2 + sdv);
                    assert((odv + mpart + sdv) + sel_title_kids(*n, i + 1, nd, sel) =~= odv + (
                    mpart + sel_title_in(*k, is_desc_div(*n), sel) + sel_title_kids(
                        *n,
                        i + 1,
                        nd,
                        sel,
                    )));
                }
            },
        }
        i += 1;
    }
    out
}

/// The anchor heading of a sibling query.
pub open spec fn sib_anchor(q: SibKind) -> TitleSel {
    match q {
        SibKind::MethodArgs(t) => t,
        SibKind::TypeRows => TitleSel::TypeH3,
    }
}

/// The sibling element a query looks for after its anchor.
pub open spec fn mid_matches(k: Node, q: SibKind) -> bool {
    match q {
        SibKind::MethodArgs(_) => is_desc_div(k),
        SibKind::TypeRows => k.tag@ == "table"@,
    }
}

/// The tag of the query's first inner step.
pub open spec fn inner1_tag(q: SibKind) -> Seq<char> {
    match q {
        SibKind::MethodArgs(_) => "table"@,
        SibKind::TypeRows => "tbody"@,
    }
}

/// The tag of the query's second inner step.
pub open spec fn inner2_tag(q: SibKind) -> Seq<char> {
    match q {
        SibKind::MethodArgs(_) => "tbody"@,
        SibKind::TypeRows => "tr"@,
    }
}

/// The kids of `a` whose tag is the query's second inner step, from `i`.
pub open spec fn inner2_from(a: Node, q: SibKind, i: int) -> Seq<Node>
    decreases a.kids@.len() - i,
{
    if i < 0 || i >= a.kids@.len() {
        Seq::empty()
    } else {
        match a.kids@[i] {
            Piece::Text(_) => inner2_from(a, q, i + 1),
            Piece::Elem(b) => (if b.tag@ == inner2_tag(q) {
                seq![b]
            } else {
                Seq::empty()
            }) + inner2_from(a, q, i + 1),
        }
    }
}

/// For each kid of `k` on the query's first inner step, its kids on the
/// second inner step, in order, from `i`.
pub open spec fn inner1_from(k: Node, q: SibKind, i: int) -> Seq<Node>
    decreases k.kids@.len() - i,
{
    if i < 0 || i >= k.kids@.len() {
        Seq::empty()
    } else {
        match k.kids@[i] {
            Piece::Text(_) => inner1_from(k, q, i + 1),
            Piece::Elem(a) => (if a.tag@ == inner1_tag(q) {
                inner2_from(a, q, 0)
            } else {
                Seq::empty()
            }) + inner1_from(k, q, i + 1),
        }
    }
}

fn mid_match(k: &Node, q: SibKind) -> (r: bool)
    ensures
        r == mid_matches(*k, q),
{
    match q {
        SibKind::MethodArgs(_) => desc_div(k),
        SibKind::TypeRows => str_eq(k.tag.as_str(), "table"),
    }
}

fn inner1_tag_str(q: SibKind) -> (r: &'static str)
    ensures
        r@ == inner1_tag(q),
{
    match q {
        SibKind::MethodArgs(_) => "table",
        SibKind::TypeRows => "tbody",
    }
}

fn inner2_tag_str(q: SibKind) -> (r: &'static str)
    ensures
        r@ == inner2_tag(q),
{
    match q {
        SibKind::MethodArgs(_) => "tbody",
        SibKind::TypeRows => "tr",
    }
}

fn collect_inner2<'a>(a: &'a Node, q: SibKind) -> (r: Vec<&'a Node>)
    ensures
        deref_seq(r@) == inner2_from(*a, q, 0),
{
    let t2 = inner2_tag_str(q);
    let mut out: Vec<&'a Node> = Vec::new();
    proof {
        assert(deref_seq(out@) =~= Seq::<Node>::empty());
        assert(deref_seq(out@) + inner2_from(*a, q, 0) =~= inner2_from(*a, q, 0));
    }
    let mut i: usize = 0;
    while i < a.kids.len()
        invariant
            0 <= i <= a.kids@.len(),
            t2@ == inner2_tag(q),
            deref_seq(out@) + inner2_from(*a, q, i as int) == inner2_from(*a, q, 0),
        decreases a.kids@.len() - i,
    {
        let ghost odv = deref_seq(out@);
        match &a.kids[i] {
            Piece::Text(_) => {
            },
            Piece::Elem(b) => {
                if str_eq(b.tag.as_str(), t2) {
                    out.push(b);
                    proof {
                        assert(deref_seq(out@) =~= odv.push(*b));
                        assert(odv.push(*b) + inner2_from(*a, q, i + 1) =~= odv + (seq![*b]
                            + inner2_from(*a, q, i + 1)));
                    }
                }
            },
        }
        i += 1;
    }
    out
}

fn collect_inner1<'a>(k: &'a Node, q: SibKind) -> (r: Vec<&'a Node>)
    ensures
        deref_seq(r@) == inner1_from(*k, q, 0),
{
    let t1 = inner1_tag_str(q);
    let mut out: Vec<&'a Node> = Vec::new();
    proof {
        assert(deref_seq(out@) =~= Seq::<Node>::empty());
        assert(deref_seq(out@) + inner1_from(*k, q, 0) =~= inner1_from(*k, q, 0));
    }
    let mut i: usize = 0;
    while i < k.kids.len()
        invariant
            0 <= i <= k.kids@.len(),
            t1@ == inner1_tag(q),
            deref_seq(out@) + inner1_from(*k, q, i as int) == inner1_from(*k, q, 0),
        decreases k.kids@.len() - i,
    {
        let ghost odv = deref_seq(out@);
        match &k.kids[i] {
            Piece::Text(_) => {
            },
            Piece::Elem(a) => {
                if str_eq(a.tag.as_str(), t1) {
                    let mut sub = collect_inner2(a, q);
                    let ghost sdv = deref_seq(sub@);
                    out.append(&mut sub);
                    proof {
                        assert(deref_seq(out@) =~= odv + sdv);
                        assert((odv + sdv) + inner1_from(*k, q, i + 1) =~= odv + (sdv
                            + inner1_from(*k, q, i + 1)));
                    }
                }
            },
        }
        i += 1;
    }
    out
}

/// Sibling-query matches below `par`, scanning kids `i..`, where `seen` says
/// whether an anchor was already passed among the earlier kids.
pub open spec fn sib_kids(par: Node, i: int, seen: bool, pd: bool, q: SibKind) -> Seq<Node>
    decreases par, 0int, par.kids@.len() - i,
{
    if i < 0 || i >= par.kids@.len() {
        Seq::empty()
    } else {
        match par.kids@[i] {
            Piece::Text(_) => sib_kids(par, i + 1, seen, pd, q),
            Piece::Elem(k) => (if seen && mid_matches(k, q) {
                inner1_from(k, q, 0)
            } else {
                Seq::empty()
            }) + sib_in(k, is_desc_div(par), q) + sib_kids(
                par,
                i + 1,
                seen || title_matches(k, par, pd, sib_anchor(q)),
                pd,
                q,
            ),
        }
    }
}

/// Sibling-query matches among the strict descendants of `n`.
pub open spec fn sib_in(n: Node, nd: bool, q: SibKind) -> Seq<Node>
    decreases n, 1int, 0int,
{
    sib_kids(n, 0, false, nd, q)
}

pub fn select_sib<'a>(n: &'a Node, nd: bool, q: SibKind) -> (r: Vec<&'a Node>)
    ensures
        deref_seq(r@) == sib_in(*n, nd, q),
    decreases *n,
{
    let mut out: Vec<&'a Node> = Vec::new();
    proof {
        assert(deref_seq(out@) =~= Seq::<Node>::empty());
        assert(deref_seq(out@) + sib_in(*n, nd, q) =~= sib_in(*n, nd, q));
    }
    let mut seen: bool = false;
    let mut i: usize = 0;
    while i < n.kids.len()
        invariant
            0 <= i <= n.kids@.len(),
            deref_seq(out@) + sib_kids(*n, i as int, seen, nd, q) == sib_in(*n, nd, q),
        decreases n.kids@.len() - i,
    {
        let ghost odv = deref_seq(out@);
        match &n.kids[i] {
            Piece::Text(_) => {
            },
            Piece::Elem(k) => {
                let ghost mpart = if seen && mid_matches(*k, q) {
                    inner1_from(*k, q, 0)
                } else {
                    Seq::<Node>::empty()
                };
                if seen && mid_match(k, q) {
                    let mut found = collect_inner1(k, q);
                    let ghost fdv = deref_seq(found@);
                    out.append(&mut found);
                    proof {
                        assert(deref_seq(out@) =~= odv + fdv);
                    }
                } else {
                    proof {
                        assert(deref_seq(out@) =~= odv + mpart);
                    }
                }
                let ghost odv2 = deref_seq(out@);
                let mut sub = select_sib(k, desc_div(n), q);
                let ghost sdv = deref_seq(sub@);
                out.append(&mut sub);
                let anchor_here = title_match(k, n, nd, sib_anchor_sel(q));
                proof {
                    assert(deref_seq(out@) =~= odv2 + sdv);
                    assert((odv + mpart + sdv) + sib_kids(
                        *n,
                        i + 1,
                        seen || title_matches(*k, *n, nd, sib_anchor(q)),
                        nd,
                        q,
                    ) =~= odv + (mpart + sib_in(*k, is_desc_div(*n), q) + sib_kids(
                        *n,
                        i + 1,
                        seen || title_matches(*k, *n, nd, sib_anchor(q)),
                        nd,
                        q,
                    )));
                }
                if anchor_here {
                    seen = true;
                }
            },
        }
        i += 1;
    }
    out
}

fn sib_anchor_sel(q: SibKind) -> (r: TitleSel)
    ensures
        r == sib_anchor(q),
{
    match q {
        SibKind::MethodArgs(t) => t,
        SibKind::TypeRows => TitleSel::TypeH3,
    }
}

/// The node is a `span` with class `optional` (the optional-value marker).
pub open spec fn is_optional_span(n: Node) -> bool {
    n.tag@ == "span"@ && spec_has_class(n, "optional"@)
}

/// The number of optional-value markers among the strict descendants of
/// `par`, counting kids `i..`.
pub open spec fn opt_count_kids(par: Node, i: int) -> nat
    decreases par, 0int, par.kids@.len() - i,
{
    if i < 0 || i >= par.kids@.len() {
        0
    } else {
        match par.kids@[i] {
            Piece::Text(_) => opt_count_kids(par, i + 1),
            Piece::Elem(k) => (if is_optional_span(k) {
                1nat
            } else {
                0nat
            }) + opt_count_in(k) + opt_count_kids(par, i + 1),
        }
    }
}

pub open spec fn opt_count_in(n: Node) -> nat
    decreases n, 1int, 0int,
{
    opt_count_kids(n, 0)
}

fn add_capped(a: usize, b: usize) -> (r: usize)
    requires
        a <= 2,
        b <= 2,
    ensures
        r <= 2,
        r == if a + b >= 2 {
            2int
        } else {
            a + b
        },
{
    if a >= 2 || b >= 2 {
        2
    } else {
        let s = a + b;
        if s >= 2 {
            2
        } else {
            s
        }
    }
}

/// The number of optional-value markers below `n`, capped at two: the
/// extractors only ever ask whether it is exactly one.
pub fn count_optional_capped(n: &Node) -> (r: usize)
    ensures
        r <= 2,
        r < 2 ==> r == opt_count_in(*n),
        r == 2 ==> opt_count_in(*n) >= 2,
    decreases *n,
{
    let mut c: usize = 0;
    let mut i: usize = 0;
    while i < n.kids.len()
        invariant
            0 <= i <= n.kids@.len(),
            c <= 2,
            c < 2 ==> c + opt_count_kids(*n, i as int) == opt_count_in(*n),
            c == 2 ==> opt_count_in(*n) >= 2 + opt_count_kids(*n, i as int),
        decreases n.kids@.len() - i,
    {
        match &n.kids[i] {
            Piece::Text(_) => {
            },
            Piece::Elem(k) => {
                let own: usize = if str_eq(k.tag.as_str(), "span") && has_class(k, "optional") {
                    1
                } else {
                    0
                };
                let sub = count_optional_capped(k);
                c = add_capped(c, add_capped(own, sub));
            },
        }
        i += 1;
    }
    c
}

/// The node is a `div` with class `summary`.
pub open spec fn is_summary_div(n: Node) -> bool {
    n.tag@ == "div"@ && spec_has_class(n, "summary"@)
}

/// The node is a `code` with class `prettyprint`.
pub open spec fn is_pretty_code(n: Node) -> bool {
    n.tag@ == "code"@ && spec_has_class(n, "prettyprint"@)
}

/// The first `code.prettyprint` kid of a `div.summary` below `par`, in
/// search order, scanning kids `i..`.
pub open spec fn code_kids(par: Node, i: int) -> Option<Node>
    decreases par, 0int, par.kids@.len() - i,
{
    if i < 0 || i >= par.kids@.len() {
        None
    } else {
        match par.kids@[i] {
            Piece::Text(_) => code_kids(par, i + 1),
            Piece::Elem(k) => if is_summary_div(par) && is_pretty_code(k) {
                Some(k)
            } else {
                match code_in(k) {
                    Some(x) => Some(x),
                    None => code_kids(par, i + 1),
                }
            },
        }
    }
}

pub open spec fn code_in(n: Node) -> Option<Node>
    decreases n, 1int, 0int,
{
    code_kids(n, 0)
}

pub fn find_summary_code<'a>(n: &'a Node) -> (r: Option<&'a Node>)
    ensures
        match r {
            Some(x) => code_in(*n) == Some(*x),
            None => code_in(*n) is None,
        },
    decreases *n,
{
    let par_is_summary = str_eq(n.tag.as_str(), "div") && has_class(n, "summary");
    let mut i: usize = 0;
    while i < n.kids.len()
        invariant
            0 <= i <= n.kids@.len(),
            par_is_summary == is_summary_div(*n),
            code_kids(*n, i as int) == code_in(*n),
        decreases n.kids@.len() - i,
    {
        match &n.kids[i] {
            Piece::Text(_) => {
            },
            Piece::Elem(k) => {
                if par_is_summary && str_eq(k.tag.as_str(), "code") && has_class(k, "prettyprint") {
                    return Some(k);
                }
                let sub = find_summary_code(k);
                match sub {
                    Some(x) => {
                        return Some(x);
                    },
                    None => {
                    },
                }
            },
        }
        i += 1;
    }
    None
}

/// The node is a `div` with class `api-reference`.
pub open spec fn is_api_ref_div(n: Node) -> bool {
    n.tag@ == "div"@ && spec_has_class(n, "api-reference"@)
}

/// The element kids of every `div.api-reference` at or below `par`,
/// scanning kids `i..`.
pub open spec fn secs_kids(par: Node, i: int) -> Seq<Node>
    decreases par, 0int, par.kids@.len() - i,
{
    if i < 0 || i >= par.kids@.len() {
        Seq::empty()
    } else {
        match par.kids@[i] {
            Piece::Text(_) => secs_kids(par, i + 1),
            Piece::Elem(k) => secs_in(k) + secs_kids(par, i + 1),
        }
    }
}

/// The element kids of every `div.api-reference` at or below `n`.
pub open spec fn secs_in(n: Node) -> Seq<Node>
    decreases n, 1int, 0int,
{
    (if is_api_ref_div(n) {
        elem_kids_from(n, 0)
    } else {
        Seq::empty()
    }) + secs_kids(n, 0)
}

pub fn select_sections<'a>(n: &'a Node) -> (r: Vec<&'a Node>)
    ensures
        deref_seq(r@) == secs_in(*n),
    decreases *n,
{
    let mut out: Vec<&'a Node> = Vec::new();
    proof {
        assert(deref_seq(out@) =~= Seq::<Node>::empty());
    }
    if str_eq(n.tag.as_str(), "div") && has_class(n, "api-reference") {
        let mut own = elem_kids(n);
        let ghost edv = deref_seq(own@);
        out.append(&mut own);
        proof {
            assert(deref_seq(out@) =~= Seq::<Node>::empty() + edv);
        }
    }
    proof {
        assert(deref_seq(out@) =~= (if is_api_ref_div(*n) {
            elem_kids_from(*n, 0)
        } else {
            Seq::<Node>::empty()
        }));
        assert(deref_seq(out@) + secs_kids(*n, 0) =~= secs_in(*n));
    }
    let mut i: usize = 0;
    while i < n.kids.len()
        invariant
            0 <= i <= n.kids@.len(),
            deref_seq(out@) + secs_kids(*n, i as int) == secs_in(*n),
        decreases n.kids@.len() - i,
    {
        let ghost odv = deref_seq(out@);
        match &n.kids[i] {
            Piece::Text(_) => {
            },
            Piece::Elem(k) => {
                let mut sub = select_sections(k);
                let ghost sdv = deref_seq(sub@);
                out.append(&mut sub);
                proof {
                    assert(deref_seq(out@) =~= odv + sdv);
                    assert((odv + sdv) + secs_kids(*n, i + 1) =~= odv + (sdv + secs_kids(
                        *n,
                        i + 1,
                    )));
                }
            },
        }
        i += 1;
    }
    out
}

} // verus!
