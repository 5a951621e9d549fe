//! The extractors: element rows, headings, methods with recursive callback
//! arguments, types with grouped sections, events, top-level properties, and
//! the page-level builder that folds them into one namespace. Each extractor
//! is specified against a spec-level model of the same traversal.

use vstd::prelude::*;

use crate::api::{ApiType, ArgKindV, ArgV, Argument, Element, ElemV, Event, EventV, Method,
    MethodV, Namespace, NamespaceV, ParseError, PropKindV, PropV, Property, Type, TypeKindV,
    TypeV, args_v, elems_v, event_prop, events_v, fold_event_method, methods_v, props_v,
    spec_api_type, spec_new_element, types_v};
use crate::dom::{Node, Piece, TitleSel, SibKind, deref_seq, elem_kids, elem_kids_from,
    elem_kids_tag_from, elem_kids_tagged, node_frags,
    node_text, collect_frags, collect_text, count_optional_capped, opt_count_in, sel_title_in,
    select_title, sib_in, select_sib, code_in, find_summary_code, secs_in, select_sections};
use crate::text::{contains_char, has_char, join_spaced, join_with_spaces, prefix_before, str_eq,
    take_before, trim_spec, trim_str};
use crate::util::{TakeResult, take_one};

verus! {

/// The fragments trimmed, with the empty ones dropped, from `i` on.
pub open spec fn tidy_from(fs: Seq<Seq<char>>, i: int) -> Seq<Seq<char>>
    decreases fs.len() - i,
{
    if i < 0 || i >= fs.len() {
        Seq::empty()
    } else {
        (if trim_spec(fs[i]).len() > 0 {
            seq![trim_spec(fs[i])]
        } else {
            Seq::empty()
        }) + tidy_from(fs, i + 1)
    }
}

fn tidy_frags(fs: &Vec<String>) -> (r: Vec<String>)
    ensures
        r.deep_view() == tidy_from(fs.deep_view(), 0),
{
    let ghost dv = fs.deep_view();
    let mut out: Vec<String> = Vec::new();
    proof {
        assert(out.deep_view() =~= Seq::<Seq<char>>::empty());
        assert(out.deep_view() + tidy_from(dv, 0) =~= tidy_from(dv, 0));
    }
    let mut i: usize = 0;
    while i < fs.len()
        invariant
            0 <= i <= fs@.len(),
            dv == fs.deep_view(),
            dv.len() == fs@.len(),
            out.deep_view() + tidy_from(dv, i as int) == tidy_from(dv, 0),
        decreases fs@.len() - i,
    {
        let ghost odv = out.deep_view();
        let t = trim_str(fs[i].as_str());
        proof {
            assert(dv[i as int] == fs@[i as int]@);
        }
        if !t.as_str().is_empty() {
            out.push(t);
            proof {
                assert(out.deep_view() =~= odv.push(trim_spec(dv[i as int])));
                assert(odv.push(trim_spec(dv[i as int])) + tidy_from(dv, i + 1) =~= odv + (seq![
                    trim_spec(dv[i as int]),
                ] + tidy_from(dv, i + 1)));
            }
        }
        i += 1;
    }
    out
}

/// Ghost counterpart of `RawElem`: what one field row holds.
pub struct RawElemV {
    pub ty_text: Seq<char>,
    pub val_name: Seq<char>,
    pub optional: bool,
    pub desc: Option<Node>,
}

/// One extracted field row: the joined type text, the value name, the
/// optional-marker flag, and the description cell when the row has one.
pub struct RawElem<'a> {
    pub ty_text: String,
    pub val_name: String,
    pub optional: bool,
    pub desc: Option<&'a Node>,
}

/// The ghost view of an extracted row.
pub open spec fn raw_elem_v(re: RawElem<'_>) -> RawElemV {
    RawElemV {
        ty_text: re.ty_text@,
        val_name: re.val_name@,
        optional: re.optional,
        desc: match re.desc {
            Some(d) => Some(*d),
            None => None,
        },
    }
}

/// What reading one field row yields: the row must hold at least two cells;
/// the first cell's trimmed, non-empty fragments joined with single spaces
/// give the type text; the second cell names the value, reading the second
/// fragment when exactly one optional marker is present, the first
/// otherwise; a third cell is carried as the description cell.
pub open spec fn spec_parse_elem(tr: Node) -> Result<RawElemV, ParseError> {
    let tds = elem_kids_from(tr, 0);
    if tds.len() < 2 {
        Err(ParseError::TooFewCells)
    } else {
        let desc = if tds.len() == 3 {
            Some(tds[2])
        } else {
            None::<Node>
        };
        let ty_text = join_spaced(tidy_from(node_frags(tds[0]), 0));
        let optional = opt_count_in(tds[1]) == 1;
        let frags = node_frags(tds[1]);
        let idx: int = if optional {
            1
        } else {
            0
        };
        if frags.len() <= idx {
            Err(ParseError::MissingValueName)
        } else {
            Ok(
                RawElemV {
                    ty_text,
                    val_name: trim_spec(frags[idx]),
                    optional,
                    desc,
                },
            )
        }
    }
}

/// Reads one field row into its raw parts.
pub fn parse_elem<'a>(tr: &'a Node) -> (r: Result<RawElem<'a>, ParseError>)
    ensures
        match r {
            Ok(re) => spec_parse_elem(*tr) == Ok::<RawElemV, ParseError>(raw_elem_v(re)),
            Err(x) => spec_parse_elem(*tr) == Err::<RawElemV, ParseError>(x),
        },
{
    let tds = elem_kids(tr);
    proof {
        assert(deref_seq(tds@).len() == tds@.len());
    }
    if tds.len() < 2 {
        return Err(ParseError::TooFewCells);
    }
    let desc: Option<&'a Node> = if tds.len() == 3 {
        Some(tds[2])
    } else {
        None
    };
    proof {
        assert(deref_seq(tds@)[0] == *tds@[0]);
        assert(deref_seq(tds@)[1] == *tds@[1]);
        if tds@.len() == 3 {
            assert(deref_seq(tds@)[2] == *tds@[2]);
        }
    }
    let raw_frags = collect_frags(tds[0]);
    let tidied = tidy_frags(&raw_frags);
    let ty_text = join_with_spaces(&tidied);
    let cnt = count_optional_capped(tds[1]);
    let optional = cnt == 1;
    proof {
        assert(optional == (opt_count_in(deref_seq(tds@)[1]) == 1));
    }
    let frags = collect_frags(tds[1]);
    let idx: usize = if optional {
        1
    } else {
        0
    };
    if frags.len() <= idx {
        return Err(ParseError::MissingValueName);
    }
    let val_name = trim_str(frags[idx].as_str());
    proof {
        assert(frags.deep_view()[idx as int] == frags@[idx as int]@);
    }
    Ok(RawElem { ty_text, val_name, optional, desc })
}

/// What reading a heading yields: the trimmed text content of the unique
/// matching heading; no match or several is an error.
pub open spec fn spec_parse_name(div: Node, sel: TitleSel) -> Result<Seq<char>, ParseError> {
    let ms = sel_title_in(div, false, sel);
    if ms.len() == 0 {
        Err(ParseError::NoName)
    } else if ms.len() > 1 {
        Err(ParseError::MultipleNames)
    } else {
        Ok(trim_spec(node_text(ms[0])))
    }
}

/// Reads the unique heading matching the title pattern.
pub fn parse_name(div: &Node, sel: TitleSel) -> (r: Result<String, ParseError>)
    ensures
        match r {
            Ok(s) => spec_parse_name(*div, sel) == Ok::<Seq<char>, ParseError>(s@),
            Err(x) => spec_parse_name(*div, sel) == Err::<Seq<char>, ParseError>(x),
        },
{
    let ms = select_title(div, false, sel);
    proof {
        assert(deref_seq(ms@).len() == ms@.len());
    }
    let ghost msv = ms@;
    match take_one(ms) {
        TakeResult::Zero => Err(ParseError::NoName),
        TakeResult::More => Err(ParseError::MultipleNames),
        TakeResult::One(e) => {
            proof {
                assert(deref_seq(msv)[0] == *msv[0]);
            }
            let t = collect_text(e);
            Ok(trim_str(t.as_str()))
        },
    }
}

/// Every element kid is structurally below its parent.
pub proof fn lemma_elem_kids_from_smaller(n: Node, i: int, j: int)
    requires
        0 <= j < elem_kids_from(n, i).len(),
    ensures
        decreases_to!(n => elem_kids_from(n, i)[j]),
    decreases n.kids@.len() - i,
{
    if i < 0 || i >= n.kids@.len() {
    } else {
        match n.kids@[i] {
            Piece::Text(_) => {
                lemma_elem_kids_from_smaller(n, i + 1, j);
            },
            Piece::Elem(m) => {
                if j == 0 {
                    assert(decreases_to!(n => m));
                } else {
                    lemma_elem_kids_from_smaller(n, i + 1, j - 1);
                }
            },
        }
    }
}

/// Every tag-filtered element kid is structurally below its parent.
pub proof fn lemma_elem_kids_tag_from_smaller(n: Node, t: Seq<char>, i: int, j: int)
    requires
        0 <= j < elem_kids_tag_from(n, t, i).len(),
    ensures
        decreases_to!(n => elem_kids_tag_from(n, t, i)[j]),
    decreases n.kids@.len() - i,
{
    if i < 0 || i >= n.kids@.len() {
    } else {
        match n.kids@[i] {
            Piece::Text(_) => {
                lemma_elem_kids_tag_from_smaller(n, t, i + 1, j);
            },
            Piece::Elem(m) => {
                if m.tag@ == t && j == 0 {
                    assert(decreases_to!(n => m));
                } else if m.tag@ == t {
                    lemma_elem_kids_tag_from_smaller(n, t, i + 1, j - 1);
                } else {
                    lemma_elem_kids_tag_from_smaller(n, t, i + 1, j);
                }
            },
        }
    }
}

/// The description cell a row hands out is structurally below the row.
pub proof fn lemma_desc_smaller(tr: Node, d: Node)
    requires
        spec_parse_elem(tr) is Ok,
        spec_parse_elem(tr)->Ok_0.desc == Some(d),
    ensures
        decreases_to!(tr => d),
{
    lemma_elem_kids_from_smaller(tr, 0, 2);
}

/// For each `table` kid of `d`, its single `tbody` kid, scanning from `i`;
/// a table with no body or several is malformed.
pub open spec fn spec_cb_tbodies(d: Node, i: int) -> Result<Seq<Node>, ParseError>
    decreases d.kids@.len() - i,
{
    if i < 0 || i >= d.kids@.len() {
        Ok(Seq::empty())
    } else {
        match d.kids@[i] {
            Piece::Text(_) => spec_cb_tbodies(d, i + 1),
            Piece::Elem(t) => {
                if t.tag@ == "table"@ {
                    let tbs = elem_kids_tag_from(t, "tbody"@, 0);
                    if tbs.len() == 1 {
                        match spec_cb_tbodies(d, i + 1) {
                            Ok(rest) => Ok(seq![tbs[0]] + rest),
                            Err(x) => Err(x),
                        }
                    } else {
                        Err(ParseError::BadCallbackTable)
                    }
                } else {
                    spec_cb_tbodies(d, i + 1)
                }
            },
        }
    }
}

/// Every table body a description cell hands out is structurally below it.
pub proof fn lemma_cb_tbodies_smaller(d: Node, i: int, j: int)
    requires
        spec_cb_tbodies(d, i) is Ok,
        0 <= j < spec_cb_tbodies(d, i)->Ok_0.len(),
    ensures
        decreases_to!(d => spec_cb_tbodies(d, i)->Ok_0[j]),
    decreases d.kids@.len() - i,
{
    if i < 0 || i >= d.kids@.len() {
    } else {
        match d.kids@[i] {
            Piece::Text(_) => {
                lemma_cb_tbodies_smaller(d, i + 1, j);
            },
            Piece::Elem(t) => {
                if t.tag@ == "table"@ {
                    let tbs = elem_kids_tag_from(t, "tbody"@, 0);
                    if j == 0 {
                        lemma_elem_kids_tag_from_smaller(t, "tbody"@, 0, 0);
                        assert(decreases_to!(d => t));
                    } else {
                        lemma_cb_tbodies_smaller(d, i + 1, j - 1);
                    }
                } else {
                    lemma_cb_tbodies_smaller(d, i + 1, j);
                }
            },
        }
    }
}

/// The arguments the rows of `tbody` yield, scanning kids `i..`; a row is
/// an element kid that carries an id.
pub open spec fn spec_body_from(tbody: Node, i: int) -> Result<Seq<ArgV>, ParseError>
    decreases tbody, 0int, tbody.kids@.len() - i,
{
    if i < 0 || i >= tbody.kids@.len() {
        Ok(Seq::empty())
    } else {
        match tbody.kids@[i] {
            Piece::Text(_) => spec_body_from(tbody, i + 1),
            Piece::Elem(row) => {
                if row.id is Some {
                    match spec_row_arg(row) {
                        Ok(a) => match spec_body_from(tbody, i + 1) {
                            Ok(rest) => Ok(seq![a] + rest),
                            Err(x) => Err(x),
                        },
                        Err(x) => Err(x),
                    }
                } else {
                    spec_body_from(tbody, i + 1)
                }
            },
        }
    }
}

/// The argument one row yields: a field typed `function` becomes a callback
/// whose arguments come from the nested table in the description cell; any
/// other field is classified as a plain element.
pub open spec fn spec_row_arg(row: Node) -> Result<ArgV, ParseError>
    decreases row, 2int, 0int,
    via spec_row_arg_dec
{
    match spec_parse_elem(row) {
        Err(x) => Err(x),
        Ok(re) => {
            if re.ty_text == "function"@ {
                match re.desc {
                    None => Err(ParseError::NoCallbackInfo),
                    Some(d) => match spec_cb_args(d) {
                        Ok(args) => Ok(
                            ArgV {
                                kind: ArgKindV::Callback(MethodV { name: re.val_name, args }),
                                optioned: re.optional,
                            },
                        ),
                        Err(x) => Err(x),
                    },
                }
            } else {
                match spec_new_element(re.ty_text, re.val_name) {
                    Ok(ev) => Ok(ArgV { kind: ArgKindV::Element(ev), optioned: re.optional }),
                    Err(x) => Err(x),
                }
            }
        },
    }
}

#[via_fn]
proof fn spec_row_arg_dec(row: Node) {
    match spec_parse_elem(row) {
        Ok(re) => {
            if re.ty_text == "function"@ {
                match re.desc {
                    Some(d) => {
                        lemma_desc_smaller(row, d);
                    },
                    None => {
                    },
                }
            }
        },
        Err(_) => {
        },
    }
}

/// The callback arguments a description cell yields: no nested table means
/// no arguments; one means its rows; several is an error.
pub open spec fn spec_cb_args(d: Node) -> Result<Seq<ArgV>, ParseError>
    decreases d, 1int, 0int,
    via spec_cb_args_dec
{
    match spec_cb_tbodies(d, 0) {
        Err(x) => Err(x),
        Ok(tbs) => {
            if tbs.len() == 0 {
                Ok(Seq::empty())
            } else if tbs.len() == 1 {
                spec_body_from(tbs[0], 0)
            } else {
                Err(ParseError::MultipleCallbackTables)
            }
        },
    }
}

#[via_fn]
proof fn spec_cb_args_dec(d: Node) {
    match spec_cb_tbodies(d, 0) {
        Ok(tbs) => {
            if tbs.len() == 1 {
                lemma_cb_tbodies_smaller(d, 0, 0);
            }
        },
        Err(_) => {
        },
    }
}

/// What reading a whole method subsection yields: the heading names the
/// method; no associated argument table means no arguments; one gives the
/// rows; several is an error.
pub open spec fn spec_parse_method(div: Node, sel: TitleSel) -> Result<MethodV, ParseError> {
    match spec_parse_name(div, sel) {
        Err(x) => Err(x),
        Ok(nm) => {
            let tbs = sib_in(div, false, SibKind::MethodArgs(sel));
            if tbs.len() == 0 {
                Ok(MethodV { name: nm, args: Seq::empty() })
            } else if tbs.len() == 1 {
                match spec_body_from(tbs[0], 0) {
                    Ok(args) => Ok(MethodV { name: nm, args }),
                    Err(x) => Err(x),
                }
            } else {
                Err(ParseError::MultipleMethodTables)
            }
        },
    }
}

/// Reads the argument rows of one table body, recursing through
/// callback-typed fields into their nested tables.
pub fn parse_method_body(tbody: &Node) -> (r: Result<Vec<Argument>, ParseError>)
    ensures
        match r {
            Ok(args) => spec_body_from(*tbody, 0) == Ok::<Seq<ArgV>, ParseError>(args_v(args@)),
            Err(x) => spec_body_from(*tbody, 0) == Err::<Seq<ArgV>, ParseError>(x),
        },
    decreases *tbody,
{
    let mut result: Vec<Argument> = Vec::new();
    proof {
        assert(args_v(result@) =~= Seq::<ArgV>::empty());
        if spec_body_from(*tbody, 0) is Ok {
            assert(args_v(result@) + spec_body_from(*tbody, 0)->Ok_0 =~= spec_body_from(
                *tbody,
                0,
            )->Ok_0);
        }
    }
    let mut i: usize = 0;
    while i < tbody.kids.len()
        invariant
            0 <= i <= tbody.kids@.len(),
            spec_body_from(*tbody, 0) == (match spec_body_from(*tbody, i as int) {
                Ok(rest) => Ok::<Seq<ArgV>, ParseError>(args_v(result@) + rest),
                Err(x) => Err::<Seq<ArgV>, ParseError>(x),
            }),
        decreases tbody.kids@.len() - i,
    {
        let ghost rv = args_v(result@);
        match &tbody.kids[i] {
            Piece::Text(_) => {
            },
            Piece::Elem(row) => {
                let has_id = match &row.id {
                    Some(_) => true,
                    None => false,
                };
                if has_id {
                    match parse_row_arg(row) {
                        Err(x) => {
                            proof {
                                assert(spec_body_from(*tbody, i as int) == Err::<
                                    Seq<ArgV>,
                                    ParseError,
                                >(x));
                            }
                            return Err(x);
                        },
                        Ok(arg) => {
                            let ghost rs = result@;
                            let ghost av = arg@;
                            result.push(arg);
                            proof {
                                assert(result@.drop_last() =~= rs);
                                assert(args_v(result@) == args_v(rs).push(av));
                                if spec_body_from(*tbody, i + 1) is Ok {
                                    assert(rv.push(av) + spec_body_from(*tbody, i + 1)->Ok_0
                                        =~= rv + (seq![av] + spec_body_from(
                                        *tbody,
                                        i + 1,
                                    )->Ok_0));
                                }
                            }
                        },
                    }
                }
            },
        }
        i += 1;
    }
    proof {
        if spec_body_from(*tbody, 0) is Ok {
            assert(args_v(result@) + Seq::<ArgV>::empty() =~= args_v(result@));
        }
    }
    Ok(result)
}

/// The argument one row yields: a callback when the field is typed
/// `function`, a classified element otherwise.
fn parse_row_arg(row: &Node) -> (r: Result<Argument, ParseError>)
    ensures
        match r {
            Ok(a) => spec_row_arg(*row) == Ok::<ArgV, ParseError>(a@),
            Err(x) => spec_row_arg(*row) == Err::<ArgV, ParseError>(x),
        },
    decreases *row,
{
    match parse_elem(row) {
        Err(x) => Err(x),
        Ok(re) => {
            if str_eq(re.ty_text.as_str(), "function") {
                match re.desc {
                    None => Err(ParseError::NoCallbackInfo),
                    Some(d) => {
                        proof {
                            lemma_desc_smaller(*row, *d);
                        }
                        match parse_cb_args(d) {
                            Err(x) => Err(x),
                            Ok(cb_args) => {
                                let m = Method::new(re.val_name, cb_args);
                                Ok(Argument::new_callback(m, re.optional))
                            },
                        }
                    },
                }
            } else {
                match Element::new(re.ty_text, re.val_name) {
                    Err(x) => Err(x),
                    Ok(el) => Ok(Argument::new_element(el, re.optional)),
                }
            }
        },
    }
}

/// Resolves the nested argument table of a callback-typed field.
fn parse_cb_args(d: &Node) -> (r: Result<Vec<Argument>, ParseError>)
    ensures
        match r {
            Ok(args) => spec_cb_args(*d) == Ok::<Seq<ArgV>, ParseError>(args_v(args@)),
            Err(x) => spec_cb_args(*d) == Err::<Seq<ArgV>, ParseError>(x),
        },
    decreases *d,
{
    let mut tbs: Vec<&Node> = Vec::new();
    proof {
        assert(deref_seq(tbs@) =~= Seq::<Node>::empty());
        if spec_cb_tbodies(*d, 0) is Ok {
            assert(deref_seq(tbs@) + spec_cb_tbodies(*d, 0)->Ok_0 =~= spec_cb_tbodies(
                *d,
                0,
            )->Ok_0);
        }
    }
    let mut i: usize = 0;
    while i < d.kids.len()
        invariant
            0 <= i <= d.kids@.len(),
            spec_cb_tbodies(*d, 0) == (match spec_cb_tbodies(*d, i as int) {
                Ok(rest) => Ok::<Seq<Node>, ParseError>(deref_seq(tbs@) + rest),
                Err(x) => Err::<Seq<Node>, ParseError>(x),
            }),
        decreases d.kids@.len() - i,
    {
        let ghost tv = deref_seq(tbs@);
        match &d.kids[i] {
            Piece::Text(_) => {
            },
            Piece::Elem(t) => {
                if str_eq(t.tag.as_str(), "table") {
                    let inner = elem_kids_tagged(t, "tbody");
                    proof {
                        assert(deref_seq(inner@).len() == inner@.len());
                    }
                    if inner.len() == 1 {
                        proof {
                            assert(deref_seq(inner@)[0] == *inner@[0]);
                        }
                        tbs.push(inner[0]);
                        proof {
                            assert(deref_seq(tbs@) =~= tv.push(elem_kids_tag_from(
                                *t,
                                "tbody"@,
                                0,
                            )[0]));
                            if spec_cb_tbodies(*d, i + 1) is Ok {
                                assert(deref_seq(tbs@) + spec_cb_tbodies(*d, i + 1)->Ok_0 =~= tv
                                    + (seq![elem_kids_tag_from(*t, "tbody"@, 0)[0]]
                                    + spec_cb_tbodies(*d, i + 1)->Ok_0));
                            }
                        }
                    } else {
                        return Err(ParseError::BadCallbackTable);
                    }
                }
            },
        }
        i += 1;
    }
    proof {
        if spec_cb_tbodies(*d, 0) is Ok {
            assert(deref_seq(tbs@) + Seq::<Node>::empty() =~= deref_seq(tbs@));
        }
    }
    let ghost tbsv = tbs@;
    match take_one(tbs) {
        TakeResult::Zero => Ok(Vec::new()),
        TakeResult::More => Err(ParseError::MultipleCallbackTables),
        TakeResult::One(tb) => {
            proof {
                assert(deref_seq(tbsv)[0] == *tbsv[0]);
                lemma_cb_tbodies_smaller(*d, 0, 0);
            }
            parse_method_body(tb)
        },
    }
}

/// Reads one method subsection: its heading and its argument rows.
pub fn parse_method(div: &Node, sel: TitleSel) -> (r: Result<Method, ParseError>)
    ensures
        match r {
            Ok(m) => spec_parse_method(*div, sel) == Ok::<MethodV, ParseError>(m@),
            Err(x) => spec_parse_method(*div, sel) == Err::<MethodV, ParseError>(x),
        },
{
    let name = match parse_name(div, sel) {
        Ok(nm) => nm,
        Err(x) => {
            return Err(x);
        },
    };
    let tbs = select_sib(div, false, SibKind::MethodArgs(sel));
    proof {
        assert(deref_seq(tbs@).len() == tbs@.len());
    }
    let ghost tbsv = tbs@;
    let arguments = match take_one(tbs) {
        TakeResult::Zero => Vec::new(),
        TakeResult::More => {
            return Err(ParseError::MultipleMethodTables);
        },
        TakeResult::One(tb) => {
            proof {
                assert(deref_seq(tbsv)[0] == *tbsv[0]);
            }
            match parse_method_body(tb) {
                Ok(args) => args,
                Err(x) => {
                    return Err(x);
                },
            }
        },
    };
    proof {
        assert(args_v(Seq::<Argument>::empty()) =~= Seq::<ArgV>::empty());
    }
    Ok(Method::new(name, arguments))
}


/// What reading an event row nested in a type yields: the listener method
/// under an `h4` heading, and the event name read from the summary code
/// fragment, truncated at the first `.` separator.
pub open spec fn spec_parse_inner_event(div: Node) -> Result<EventV, ParseError> {
    match spec_parse_method(div, TitleSel::H4) {
        Err(x) => Err(x),
        Ok(m) => match code_in(div) {
            None => Err(ParseError::NoEventSummary),
            Some(c) => Ok(
                EventV {
                    event_name: prefix_before(trim_spec(node_text(c)), '.'),
                    add_listener: m,
                },
            ),
        },
    }
}

/// Reads one event row nested inside a type subsection.
pub fn parse_inner_event(div: &Node) -> (r: Result<Event, ParseError>)
    ensures
        match r {
            Ok(e) => spec_parse_inner_event(*div) == Ok::<EventV, ParseError>(e@),
            Err(x) => spec_parse_inner_event(*div) == Err::<EventV, ParseError>(x),
        },
{
    let m = match parse_method(div, TitleSel::H4) {
        Ok(m) => m,
        Err(x) => {
            return Err(x);
        },
    };
    match find_summary_code(div) {
        None => Err(ParseError::NoEventSummary),
        Some(c) => {
            let t = collect_text(c);
            let trimmed = trim_str(t.as_str());
            let nm = take_before(trimmed.as_str(), '.');
            Ok(Event::new(nm, m))
        },
    }
}

/// What reading a top-level event subsection yields: the listener method
/// under the nested heading, and the event name from the `h3` heading.
pub open spec fn spec_parse_event(div: Node) -> Result<EventV, ParseError> {
    match spec_parse_method(div, TitleSel::DescDivH4) {
        Err(x) => Err(x),
        Ok(m) => match spec_parse_name(div, TitleSel::EventH3) {
            Err(x) => Err(x),
            Ok(nm) => Ok(EventV { event_name: nm, add_listener: m }),
        },
    }
}

/// Reads one top-level event subsection.
pub fn parse_event(div: &Node) -> (r: Result<Event, ParseError>)
    ensures
        match r {
            Ok(e) => spec_parse_event(*div) == Ok::<EventV, ParseError>(e@),
            Err(x) => spec_parse_event(*div) == Err::<EventV, ParseError>(x),
        },
{
    let m = match parse_method(div, TitleSel::DescDivH4) {
        Ok(m) => m,
        Err(x) => {
            return Err(x);
        },
    };
    match parse_name(div, TitleSel::EventH3) {
        Err(x) => Err(x),
        Ok(nm) => Ok(Event::new(nm, m)),
    }
}

/// The row carries a header cell.
pub open spec fn has_th(r: Node) -> bool {
    elem_kids_tag_from(r, "th"@, 0).len() > 0
}

/// The index of the next header row at or after `j`, or the end of the rows.
pub open spec fn group_end(trs: Seq<Node>, j: int) -> int
    decreases trs.len() - j,
{
    if j >= trs.len() {
        trs.len() as int
    } else if has_th(trs[j]) {
        j
    } else {
        group_end(trs, j + 1)
    }
}

/// The next header row is never before `j` nor past the end.
pub proof fn lemma_group_end_bounds(trs: Seq<Node>, j: int)
    requires
        0 <= j <= trs.len(),
    ensures
        j <= group_end(trs, j) <= trs.len(),
    decreases trs.len() - j,
{
    if j >= trs.len() {
    } else if has_th(trs[j]) {
    } else {
        lemma_group_end_bounds(trs, j + 1);
    }
}

/// The required and optional fields the property rows `trs[j..end]` add to
/// the accumulated lists; every such row must carry a description cell.
pub open spec fn spec_group_props(
    trs: Seq<Node>,
    j: int,
    end: int,
    els: Seq<ElemV>,
    opts: Seq<ElemV>,
) -> Result<(Seq<ElemV>, Seq<ElemV>), ParseError>
    decreases end - j,
{
    if j >= end {
        Ok((els, opts))
    } else {
        match spec_parse_elem(trs[j]) {
            Err(x) => Err(x),
            Ok(re) => {
                if re.desc is None {
                    Err(ParseError::MissingDescription)
                } else {
                    match spec_new_element(re.ty_text, re.val_name) {
                        Err(x) => Err(x),
                        Ok(ev) => if re.optional {
                            spec_group_props(trs, j + 1, end, els, opts.push(ev))
                        } else {
                            spec_group_props(trs, j + 1, end, els.push(ev), opts)
                        },
                    }
                }
            },
        }
    }
}

/// The single container of a grouped row: its unique `td` kid's unique
/// `div` kid.
pub open spec fn spec_row_div(r: Node) -> Result<Node, ParseError> {
    let tds = elem_kids_tag_from(r, "td"@, 0);
    if tds.len() != 1 {
        Err(ParseError::TdNotFound)
    } else {
        let divs = elem_kids_tag_from(tds[0], "div"@, 0);
        if divs.len() != 1 {
            Err(ParseError::DivNotFound)
        } else {
            Ok(divs[0])
        }
    }
}

fn row_div<'a>(r: &'a Node) -> (res: Result<&'a Node, ParseError>)
    ensures
        match res {
            Ok(d) => spec_row_div(*r) == Ok::<Node, ParseError>(*d),
            Err(x) => spec_row_div(*r) == Err::<Node, ParseError>(x),
        },
{
    let tds = elem_kids_tagged(r, "td");
    proof {
        assert(deref_seq(tds@).len() == tds@.len());
    }
    let ghost tdsv = tds@;
    match take_one(tds) {
        TakeResult::Zero => Err(ParseError::TdNotFound),
        TakeResult::More => Err(ParseError::TdNotFound),
        TakeResult::One(td) => {
            proof {
                assert(deref_seq(tdsv)[0] == *tdsv[0]);
            }
            let divs = elem_kids_tagged(td, "div");
            proof {
                assert(deref_seq(divs@).len() == divs@.len());
            }
            let ghost divsv = divs@;
            match take_one(divs) {
                TakeResult::Zero => Err(ParseError::DivNotFound),
                TakeResult::More => Err(ParseError::DivNotFound),
                TakeResult::One(d) => {
                    proof {
                        assert(deref_seq(divsv)[0] == *divsv[0]);
                    }
                    Ok(d)
                },
            }
        },
    }
}

/// The methods the grouped rows `trs[j..end]` add to the accumulated list.
pub open spec fn spec_group_methods(trs: Seq<Node>, j: int, end: int, ms: Seq<MethodV>) -> Result<
    Seq<MethodV>,
    ParseError,
>
    decreases end - j,
{
    if j >= end {
        Ok(ms)
    } else {
        match spec_row_div(trs[j]) {
            Err(x) => Err(x),
            Ok(div) => match spec_parse_method(div, TitleSel::H4) {
                Err(x) => Err(x),
                Ok(m) => spec_group_methods(trs, j + 1, end, ms.push(m)),
            },
        }
    }
}

/// The events the grouped rows `trs[j..end]` add to the accumulated list.
pub open spec fn spec_group_events(trs: Seq<Node>, j: int, end: int, evs: Seq<EventV>) -> Result<
    Seq<EventV>,
    ParseError,
>
    decreases end - j,
{
    if j >= end {
        Ok(evs)
    } else {
        match spec_row_div(trs[j]) {
            Err(x) => Err(x),
            Ok(div) => match spec_parse_inner_event(div) {
                Err(x) => Err(x),
                Ok(e) => spec_group_events(trs, j + 1, end, evs.push(e)),
            },
        }
    }
}

/// What the rows of a type subsection build, scanning from row `i` with the
/// lists accumulated so far: each header row opens a group; `Enum`
/// short-circuits the whole type; `properties`, `methods` and `events`
/// route their grouped rows; any other header is an error. When the rows
/// are exhausted the type is a structured record, with each event folded
/// into a method named `<event>.<listener>`.
pub open spec fn spec_type_rows(
    nm: Seq<char>,
    trs: Seq<Node>,
    i: int,
    els: Seq<ElemV>,
    opts: Seq<ElemV>,
    ms: Seq<MethodV>,
    evs: Seq<EventV>,
) -> Result<TypeV, ParseError>
    decreases trs.len() - i,
    via spec_type_rows_dec
{
    if i < 0 || i >= trs.len() {
        Ok(
            TypeV {
                name: nm,
                kind: TypeKindV::Struct {
                    elements: els,
                    optional_elements: opts,
                    methods: ms + evs.map_values(|e: EventV| fold_event_method(e)),
                },
            },
        )
    } else {
        let ths = elem_kids_tag_from(trs[i], "th"@, 0);
        if ths.len() != 1 {
            Err(ParseError::BadTypeHeader)
        } else {
            let header = trim_spec(node_text(ths[0]));
            let end = group_end(trs, i + 1);
            if header == "Enum"@ {
                Ok(TypeV { name: nm, kind: TypeKindV::Enum })
            } else if header == "properties"@ {
                match spec_group_props(trs, i + 1, end, els, opts) {
                    Err(x) => Err(x),
                    Ok(p) => spec_type_rows(nm, trs, end, p.0, p.1, ms, evs),
                }
            } else if header == "methods"@ {
                match spec_group_methods(trs, i + 1, end, ms) {
                    Err(x) => Err(x),
                    Ok(ms2) => spec_type_rows(nm, trs, end, els, opts, ms2, evs),
                }
            } else if header == "events"@ {
                match spec_group_events(trs, i + 1, end, evs) {
                    Err(x) => Err(x),
                    Ok(evs2) => spec_type_rows(nm, trs, end, els, opts, ms, evs2),
                }
            } else {
                Err(ParseError::UnknownTypeSection)
            }
        }
    }
}

#[via_fn]
proof fn spec_type_rows_dec(
    nm: Seq<char>,
    trs: Seq<Node>,
    i: int,
    els: Seq<ElemV>,
    opts: Seq<ElemV>,
    ms: Seq<MethodV>,
    evs: Seq<EventV>,
) {
    if 0 <= i < trs.len() {
        lemma_group_end_bounds(trs, i + 1);
    }
}

/// What reading a type subsection yields: the heading names the type; no
/// rows at all make it opaque data; otherwise the rows decide its shape.
pub open spec fn spec_parse_type(div: Node) -> Result<TypeV, ParseError> {
    match spec_parse_name(div, TitleSel::TypeH3) {
        Err(x) => Err(x),
        Ok(nm) => {
            let trs = sib_in(div, false, SibKind::TypeRows);
            if trs.len() == 0 {
                Ok(TypeV { name: nm, kind: TypeKindV::Data })
            } else {
                spec_type_rows(
                    nm,
                    trs,
                    0,
                    Seq::empty(),
                    Seq::empty(),
                    Seq::empty(),
                    Seq::empty(),
                )
            }
        },
    }
}


fn row_has_th(r: &Node) -> (b: bool)
    ensures
        b == has_th(*r),
{
    let ths = elem_kids_tagged(r, "th");
    proof {
        assert(deref_seq(ths@).len() == ths@.len());
    }
    ths.len() > 0
}

/// Routes one group of property rows into the required and optional lists.
fn group_props(
    trs: &Vec<&Node>,
    start: usize,
    end: usize,
    elements: &mut Vec<Element>,
    optional_elements: &mut Vec<Element>,
) -> (r: Result<(), ParseError>)
    requires
        start <= end <= trs@.len(),
    ensures
        match r {
            Ok(_) => spec_group_props(
                deref_seq(trs@),
                start as int,
                end as int,
                elems_v(old(elements)@),
                elems_v(old(optional_elements)@),
            ) == Ok::<(Seq<ElemV>, Seq<ElemV>), ParseError>(
                (elems_v(final(elements)@), elems_v(final(optional_elements)@)),
            ),
            Err(x) => spec_group_props(
                deref_seq(trs@),
                start as int,
                end as int,
                elems_v(old(elements)@),
                elems_v(old(optional_elements)@),
            ) == Err::<(Seq<ElemV>, Seq<ElemV>), ParseError>(x),
        },
{
    let ghost trsv = deref_seq(trs@);
    let ghost e0 = elems_v(elements@);
    let ghost o0 = elems_v(optional_elements@);
    let mut k: usize = start;
    while k < end
        invariant
            start <= k <= end <= trs@.len(),
            trsv == deref_seq(trs@),
            trsv.len() == trs@.len(),
            e0 == elems_v(old(elements)@),
            o0 == elems_v(old(optional_elements)@),
            spec_group_props(trsv, start as int, end as int, e0, o0) == spec_group_props(
                trsv,
                k as int,
                end as int,
                elems_v(elements@),
                elems_v(optional_elements@),
            ),
        decreases end - k,
    {
        proof {
            assert(trsv[k as int] == *trs@[k as int]);
        }
        match parse_elem(trs[k]) {
            Err(x) => {
                return Err(x);
            },
            Ok(re) => {
                let has_desc = match re.desc {
                    Some(_) => true,
                    None => false,
                };
                if !has_desc {
                    return Err(ParseError::MissingDescription);
                }
                match Element::new(re.ty_text, re.val_name) {
                    Err(x) => {
                        return Err(x);
                    },
                    Ok(el) => {
                        let ghost ev = el@;
                        if re.optional {
                            let ghost os = optional_elements@;
                            optional_elements.push(el);
                            proof {
                                assert(elems_v(optional_elements@) =~= elems_v(os).push(ev));
                            }
                        } else {
                            let ghost es = elements@;
                            elements.push(el);
                            proof {
                                assert(elems_v(elements@) =~= elems_v(es).push(ev));
                            }
                        }
                    },
                }
            },
        }
        k += 1;
    }
    Ok(())
}

/// Routes one group of method rows into the accumulated method list.
fn group_methods(trs: &Vec<&Node>, start: usize, end: usize, methods: &mut Vec<Method>) -> (r:
    Result<(), ParseError>)
    requires
        start <= end <= trs@.len(),
    ensures
        match r {
            Ok(_) => spec_group_methods(
                deref_seq(trs@),
                start as int,
                end as int,
                methods_v(old(methods)@),
            ) == Ok::<Seq<MethodV>, ParseError>(methods_v(final(methods)@)),
            Err(x) => spec_group_methods(
                deref_seq(trs@),
                start as int,
                end as int,
                methods_v(old(methods)@),
            ) == Err::<Seq<MethodV>, ParseError>(x),
        },
{
    let ghost trsv = deref_seq(trs@);
    let ghost m0 = methods_v(methods@);
    let mut k: usize = start;
    while k < end
        invariant
            start <= k <= end <= trs@.len(),
            trsv == deref_seq(trs@),
            trsv.len() == trs@.len(),
            m0 == methods_v(old(methods)@),
            spec_group_methods(trsv, start as int, end as int, m0) == spec_group_methods(
                trsv,
                k as int,
                end as int,
                methods_v(methods@),
            ),
        decreases end - k,
    {
        proof {
            assert(trsv[k as int] == *trs@[k as int]);
        }
        match row_div(trs[k]) {
            Err(x) => {
                return Err(x);
            },
            Ok(d) => {
                match parse_method(d, TitleSel::H4) {
                    Err(x) => {
                        return Err(x);
                    },
                    Ok(m) => {
                        let ghost mv = m@;
                        let ghost ms = methods@;
                        methods.push(m);
                        proof {
                            assert(methods_v(methods@) =~= methods_v(ms).push(mv));
                        }
                    },
                }
            },
        }
        k += 1;
    }
    Ok(())
}

/// Routes one group of event rows into the accumulated event list.
fn group_events(trs: &Vec<&Node>, start: usize, end: usize, events: &mut Vec<Event>) -> (r: Result<
    (),
    ParseError,
>)
    requires
        start <= end <= trs@.len(),
    ensures
        match r {
            Ok(_) => spec_group_events(
                deref_seq(trs@),
                start as int,
                end as int,
                events_v(old(events)@),
            ) == Ok::<Seq<EventV>, ParseError>(events_v(final(events)@)),
            Err(x) => spec_group_events(
                deref_seq(trs@),
                start as int,
                end as int,
                events_v(old(events)@),
            ) == Err::<Seq<EventV>, ParseError>(x),
        },
{
    let ghost trsv = deref_seq(trs@);
    let ghost v0 = events_v(events@);
    let mut k: usize = start;
    while k < end
        invariant
            start <= k <= end <= trs@.len(),
            trsv == deref_seq(trs@),
            trsv.len() == trs@.len(),
            v0 == events_v(old(events)@),
            spec_group_events(trsv, start as int, end as int, v0) == spec_group_events(
                trsv,
                k as int,
                end as int,
                events_v(events@),
            ),
        decreases end - k,
    {
        proof {
            assert(trsv[k as int] == *trs@[k as int]);
        }
        match row_div(trs[k]) {
            Err(x) => {
                return Err(x);
            },
            Ok(d) => {
                match parse_inner_event(d) {
                    Err(x) => {
                        return Err(x);
                    },
                    Ok(e) => {
                        let ghost evv = e@;
                        let ghost es = events@;
                        events.push(e);
                        proof {
                            assert(events_v(events@) =~= events_v(es).push(evv));
                        }
                    },
                }
            },
        }
        k += 1;
    }
    Ok(())
}

/// Reads one type subsection into a full type descriptor.
pub fn parse_type(div: &Node) -> (r: Result<Type, ParseError>)
    ensures
        match r {
            Ok(t) => spec_parse_type(*div) == Ok::<TypeV, ParseError>(t@),
            Err(x) => spec_parse_type(*div) == Err::<TypeV, ParseError>(x),
        },
{
    let name = match parse_name(div, TitleSel::TypeH3) {
        Ok(nm) => nm,
        Err(x) => {
            return Err(x);
        },
    };
    let trs = select_sib(div, false, SibKind::TypeRows);
    let ghost trsv = deref_seq(trs@);
    proof {
        assert(trsv.len() == trs@.len());
    }
    if trs.len() == 0 {
        return Ok(Type::new_data(name));
    }
    let mut elements: Vec<Element> = Vec::new();
    let mut optional_elements: Vec<Element> = Vec::new();
    let mut methods: Vec<Method> = Vec::new();
    let mut events: Vec<Event> = Vec::new();
    proof {
        assert(elems_v(elements@) =~= Seq::<ElemV>::empty());
        assert(elems_v(optional_elements@) =~= Seq::<ElemV>::empty());
        assert(methods_v(methods@) =~= Seq::<MethodV>::empty());
        assert(events_v(events@) =~= Seq::<EventV>::empty());
    }
    let mut i: usize = 0;
    while i < trs.len()
        invariant
            0 <= i <= trsv.len(),
            trsv == deref_seq(trs@),
            trsv.len() == trs@.len(),
            spec_parse_type(*div) == spec_type_rows(
                name@,
                trsv,
                i as int,
                elems_v(elements@),
                elems_v(optional_elements@),
                methods_v(methods@),
                events_v(events@),
            ),
        decreases trsv.len() - i,
    {
        proof {
            assert(trsv[i as int] == *trs@[i as int]);
        }
        let ths = elem_kids_tagged(trs[i], "th");
        proof {
            assert(deref_seq(ths@).len() == ths@.len());
        }
        if ths.len() != 1 {
            return Err(ParseError::BadTypeHeader);
        }
        proof {
            assert(deref_seq(ths@)[0] == *ths@[0]);
        }
        let htext = collect_text(ths[0]);
        let header = trim_str(htext.as_str());
        let mut j: usize = i + 1;
        while j < trs.len() && !row_has_th(trs[j])
            invariant
                i + 1 <= j <= trsv.len(),
                trsv == deref_seq(trs@),
                trsv.len() == trs@.len(),
                group_end(trsv, i + 1) == group_end(trsv, j as int),
            decreases trsv.len() - j,
        {
            proof {
                assert(trsv[j as int] == *trs@[j as int]);
            }
            j += 1;
        }
        proof {
            assert(trsv[j as int - 1] == *trs@[j as int - 1]);
            if j < trs.len() {
                assert(trsv[j as int] == *trs@[j as int]);
            }
            assert(group_end(trsv, i + 1) == j as int);
        }
        if str_eq(header.as_str(), "Enum") {
            return Ok(Type::new_enum(name));
        } else if str_eq(header.as_str(), "properties") {
            match group_props(&trs, i + 1, j, &mut elements, &mut optional_elements) {
                Err(x) => {
                    return Err(x);
                },
                Ok(_) => {
                },
            }
        } else if str_eq(header.as_str(), "methods") {
            match group_methods(&trs, i + 1, j, &mut methods) {
                Err(x) => {
                    return Err(x);
                },
                Ok(_) => {
                },
            }
        } else if str_eq(header.as_str(), "events") {
            match group_events(&trs, i + 1, j, &mut events) {
                Err(x) => {
                    return Err(x);
                },
                Ok(_) => {
                },
            }
        } else {
            return Err(ParseError::UnknownTypeSection);
        }
        i = j;
    }
    proof {
        assert(methods_v(methods@) + events_v(events@).map_values(
            |e: EventV| fold_event_method(e),
        ) =~= methods_v(methods@) + crate::api::events_methods_v(events@));
    }
    Ok(Type::new_struct(name, elements, optional_elements, methods, events))
}


/// The character is an ASCII letter.
pub open spec fn is_ascii_alpha(c: char) -> bool {
    (97 <= c as u32 && c as u32 <= 122) || (65 <= c as u32 && c as u32 <= 90)
}

/// The type an immediate property resolves to: type text whose first
/// character is not a letter looks numeric and becomes `number` when it
/// holds a decimal point, `integer` otherwise; anything else stands.
pub open spec fn spec_immediate_ty(t: Seq<char>) -> Seq<char> {
    if t.len() > 0 && !is_ascii_alpha(t[0]) {
        if contains_char(t, '.') {
            "number"@
        } else {
            "integer"@
        }
    } else {
        t
    }
}

/// The `tbody` kids of every `table` kid of `td`, from `i`, run together.
pub open spec fn spec_flat_tbodies(td: Node, i: int) -> Seq<Node>
    decreases td.kids@.len() - i,
{
    if i < 0 || i >= td.kids@.len() {
        Seq::empty()
    } else {
        match td.kids@[i] {
            Piece::Text(_) => spec_flat_tbodies(td, i + 1),
            Piece::Elem(t) => (if t.tag@ == "table"@ {
                elem_kids_tag_from(t, "tbody"@, 0)
            } else {
                Seq::empty()
            }) + spec_flat_tbodies(td, i + 1),
        }
    }
}

/// The methods of an object-valued property's rows, or nothing when some
/// row fails to parse as a method (the documented fallback path).
pub open spec fn spec_prop_methods(tb: Node, i: int, acc: Seq<MethodV>) -> Option<Seq<MethodV>>
    decreases tb.kids@.len() - i,
{
    if i < 0 || i >= tb.kids@.len() {
        Some(acc)
    } else {
        match tb.kids@[i] {
            Piece::Text(_) => spec_prop_methods(tb, i + 1, acc),
            Piece::Elem(tr) => match spec_parse_method(tr, TitleSel::MethodH3) {
                Ok(m) => spec_prop_methods(tb, i + 1, acc.push(m)),
                Err(_) => None,
            },
        }
    }
}

/// The property one row yields: optional rows are rejected; a row not typed
/// `object` is an immediate property with the numeric normalization; an
/// `object` row reads its nested method table, degrading to an immediate
/// `object` property when one of its rows fails to parse as a method.
pub open spec fn spec_prop_row(tr: Node) -> Result<PropV, ParseError> {
    match spec_parse_elem(tr) {
        Err(x) => Err(x),
        Ok(re) => {
            if re.optional {
                Err(ParseError::OptionalProperty)
            } else if re.ty_text != "object"@ {
                Ok(
                    PropV {
                        name: re.val_name,
                        kind: PropKindV::Immediate(spec_immediate_ty(re.ty_text)),
                    },
                )
            } else {
                match re.desc {
                    None => Ok(
                        PropV { name: re.val_name, kind: PropKindV::Immediate(re.ty_text) },
                    ),
                    Some(td) => {
                        let tbs = spec_flat_tbodies(td, 0);
                        if tbs.len() == 0 {
                            Err(ParseError::NoMethodTable)
                        } else if tbs.len() > 1 {
                            Err(ParseError::TooManyMethodTables)
                        } else {
                            match spec_prop_methods(tbs[0], 0, Seq::empty()) {
                                Some(ms) => Ok(
                                    PropV { name: re.val_name, kind: PropKindV::Object(ms) },
                                ),
                                None => Ok(
                                    PropV {
                                        name: re.val_name,
                                        kind: PropKindV::Immediate(re.ty_text),
                                    },
                                ),
                            }
                        }
                    },
                }
            }
        },
    }
}

/// The properties the rows of the listing body yield, scanning kids `i..`.
pub open spec fn spec_props_rows(tb: Node, i: int, acc: Seq<PropV>) -> Result<
    Seq<PropV>,
    ParseError,
>
    decreases tb.kids@.len() - i,
{
    if i < 0 || i >= tb.kids@.len() {
        Ok(acc)
    } else {
        match tb.kids@[i] {
            Piece::Text(_) => spec_props_rows(tb, i + 1, acc),
            Piece::Elem(tr) => match spec_prop_row(tr) {
                Err(x) => Err(x),
                Ok(p) => spec_props_rows(tb, i + 1, acc.push(p)),
            },
        }
    }
}

/// What reading the top-level properties listing yields: its single body's
/// rows; no body or several is an error.
pub open spec fn spec_parse_properties(tbl: Node) -> Result<Seq<PropV>, ParseError> {
    let kids = elem_kids_from(tbl, 0);
    if kids.len() == 0 {
        Err(ParseError::NoPropsBody)
    } else if kids.len() > 1 {
        Err(ParseError::MultiplePropsBodies)
    } else {
        spec_props_rows(kids[0], 0, Seq::empty())
    }
}

fn flat_tbodies<'a>(td: &'a Node) -> (r: Vec<&'a Node>)
    ensures
        deref_seq(r@) == spec_flat_tbodies(*td, 0),
{
    let mut out: Vec<&'a Node> = Vec::new();
    proof {
        assert(deref_seq(out@) =~= Seq::<Node>::empty());
        assert(deref_seq(out@) + spec_flat_tbodies(*td, 0) =~= spec_flat_tbodies(*td, 0));
    }
    let mut i: usize = 0;
    while i < td.kids.len()
        invariant
            0 <= i <= td.kids@.len(),
            deref_seq(out@) + spec_flat_tbodies(*td, i as int) == spec_flat_tbodies(*td, 0),
        decreases td.kids@.len() - i,
    {
        let ghost odv = deref_seq(out@);
        match &td.kids[i] {
            Piece::Text(_) => {
            },
            Piece::Elem(t) => {
                if str_eq(t.tag.as_str(), "table") {
                    let mut inner = elem_kids_tagged(t, "tbody");
                    let ghost idv = deref_seq(inner@);
                    out.append(&mut inner);
                    proof {
                        assert(deref_seq(out@) =~= odv + idv);
                        assert((odv + idv) + spec_flat_tbodies(*td, i + 1) =~= odv + (idv
                            + spec_flat_tbodies(*td, i + 1)));
                    }
                }
            },
        }
        i += 1;
    }
    out
}

fn prop_methods(tb: &Node) -> (r: Option<Vec<Method>>)
    ensures
        match r {
            Some(ms) => spec_prop_methods(*tb, 0, Seq::empty()) == Some(methods_v(ms@)),
            None => spec_prop_methods(*tb, 0, Seq::empty()) is None,
        },
{
    let mut methods: Vec<Method> = Vec::new();
    proof {
        assert(methods_v(methods@) =~= Seq::<MethodV>::empty());
    }
    let mut i: usize = 0;
    while i < tb.kids.len()
        invariant
            0 <= i <= tb.kids@.len(),
            spec_prop_methods(*tb, 0, Seq::empty()) == spec_prop_methods(
                *tb,
                i as int,
                methods_v(methods@),
            ),
        decreases tb.kids@.len() - i,
    {
        match &tb.kids[i] {
            Piece::Text(_) => {
            },
            Piece::Elem(tr) => {
                match parse_method(tr, TitleSel::MethodH3) {
                    Err(_) => {
                        return None;
                    },
                    Ok(m) => {
                        let ghost mv = m@;
                        let ghost ms = methods@;
                        methods.push(m);
                        proof {
                            assert(methods_v(methods@) =~= methods_v(ms).push(mv));
                        }
                    },
                }
            },
        }
        i += 1;
    }
    Some(methods)
}

/// Reads one property row.
fn prop_row(tr: &Node) -> (r: Result<Property, ParseError>)
    ensures
        match r {
            Ok(p) => spec_prop_row(*tr) == Ok::<PropV, ParseError>(p@),
            Err(x) => spec_prop_row(*tr) == Err::<PropV, ParseError>(x),
        },
{
    match parse_elem(tr) {
        Err(x) => Err(x),
        Ok(re) => {
            if re.optional {
                return Err(ParseError::OptionalProperty);
            }
            if !str_eq(re.ty_text.as_str(), "object") {
                let first_is_alpha = if re.ty_text.as_str().unicode_len() > 0 {
                    let c = re.ty_text.as_str().get_char(0);
                    let u = c as u32;
                    (97 <= u && u <= 122) || (65 <= u && u <= 90)
                } else {
                    true
                };
                let ty: String = if !first_is_alpha {
                    if has_char(re.ty_text.as_str(), '.') {
                        "number".to_owned()
                    } else {
                        "integer".to_owned()
                    }
                } else {
                    re.ty_text
                };
                return Ok(Property::new_immediate(re.val_name, ty));
            }
            match re.desc {
                None => Ok(Property::new_immediate(re.val_name, re.ty_text)),
                Some(td) => {
                    let tbs = flat_tbodies(td);
                    proof {
                        assert(deref_seq(tbs@).len() == tbs@.len());
                    }
                    let ghost tbsv = tbs@;
                    match take_one(tbs) {
                        TakeResult::Zero => Err(ParseError::NoMethodTable),
                        TakeResult::More => Err(ParseError::TooManyMethodTables),
                        TakeResult::One(tb) => {
                            proof {
                                assert(deref_seq(tbsv)[0] == *tbsv[0]);
                            }
                            match prop_methods(tb) {
                                Some(ms) => Ok(Property::new_object(re.val_name, ms)),
                                None => Ok(Property::new_immediate(re.val_name, re.ty_text)),
                            }
                        },
                    }
                },
            }
        },
    }
}

/// Reads the top-level properties listing of a namespace.
pub fn parse_properties(tbl: &Node) -> (r: Result<Vec<Property>, ParseError>)
    ensures
        match r {
            Ok(ps) => spec_parse_properties(*tbl) == Ok::<Seq<PropV>, ParseError>(props_v(ps@)),
            Err(x) => spec_parse_properties(*tbl) == Err::<Seq<PropV>, ParseError>(x),
        },
{
    let kids = elem_kids(tbl);
    proof {
        assert(deref_seq(kids@).len() == kids@.len());
    }
    let ghost kidsv = kids@;
    let tb = match take_one(kids) {
        TakeResult::Zero => {
            return Err(ParseError::NoPropsBody);
        },
        TakeResult::More => {
            return Err(ParseError::MultiplePropsBodies);
        },
        TakeResult::One(tb) => tb,
    };
    proof {
        assert(deref_seq(kidsv)[0] == *kidsv[0]);
    }
    let mut result: Vec<Property> = Vec::new();
    proof {
        assert(props_v(result@) =~= Seq::<PropV>::empty());
    }
    let mut i: usize = 0;
    while i < tb.kids.len()
        invariant
            0 <= i <= tb.kids@.len(),
            spec_parse_properties(*tbl) == spec_props_rows(*tb, i as int, props_v(result@)),
        decreases tb.kids@.len() - i,
    {
        match &tb.kids[i] {
            Piece::Text(_) => {
            },
            Piece::Elem(tr) => {
                match prop_row(tr) {
                    Err(x) => {
                        return Err(x);
                    },
                    Ok(p) => {
                        let ghost pv = p@;
                        let ghost ps = result@;
                        result.push(p);
                        proof {
                            assert(props_v(result@) =~= props_v(ps).push(pv));
                        }
                    },
                }
            },
        }
        i += 1;
    }
    Ok(result)
}

/// The index of the next `h2` section marker at or after `j`, or the end.
pub open spec fn sec_end(infos: Seq<Node>, j: int) -> int
    decreases infos.len() - j,
{
    if j >= infos.len() {
        infos.len() as int
    } else if infos[j].tag@ == "h2"@ {
        j
    } else {
        sec_end(infos, j + 1)
    }
}

/// The next marker is never before `j` nor past the end.
pub proof fn lemma_sec_end_bounds(infos: Seq<Node>, j: int)
    requires
        0 <= j <= infos.len(),
    ensures
        j <= sec_end(infos, j) <= infos.len(),
    decreases infos.len() - j,
{
    if j >= infos.len() {
    } else if infos[j].tag@ == "h2"@ {
    } else {
        lemma_sec_end_bounds(infos, j + 1);
    }
}

/// What one section's children add to the accumulated lists: a failed
/// child inside a `types`, `methods` or `events` section is skipped; a
/// parsed `properties` listing replaces the accumulated properties, and a
/// failed one aborts the page.
pub open spec fn spec_section_children(
    at: ApiType,
    infos: Seq<Node>,
    j: int,
    end: int,
    ts: Seq<TypeV>,
    ps: Seq<PropV>,
    ms: Seq<MethodV>,
    evs: Seq<EventV>,
) -> Result<(Seq<TypeV>, Seq<PropV>, Seq<MethodV>, Seq<EventV>), ParseError>
    decreases end - j,
{
    if j >= end {
        Ok((ts, ps, ms, evs))
    } else {
        match at {
            ApiType::Types => match spec_parse_type(infos[j]) {
                Ok(t) => spec_section_children(at, infos, j + 1, end, ts.push(t), ps, ms, evs),
                Err(_) => spec_section_children(at, infos, j + 1, end, ts, ps, ms, evs),
            },
            ApiType::Methods => match spec_parse_method(infos[j], TitleSel::H3) {
                Ok(m) => spec_section_children(at, infos, j + 1, end, ts, ps, ms.push(m), evs),
                Err(_) => spec_section_children(at, infos, j + 1, end, ts, ps, ms, evs),
            },
            ApiType::Events => match spec_parse_event(infos[j]) {
                Ok(e) => spec_section_children(at, infos, j + 1, end, ts, ps, ms, evs.push(e)),
                Err(_) => spec_section_children(at, infos, j + 1, end, ts, ps, ms, evs),
            },
            ApiType::Properties => match spec_parse_properties(infos[j]) {
                Ok(ps2) => spec_section_children(at, infos, j + 1, end, ts, ps2, ms, evs),
                Err(x) => Err(x),
            },
        }
    }
}

/// The namespace the page's section markers build, scanning from marker
/// `i` with the lists accumulated so far. Each marker must carry an id
/// naming a section kind; its children run to the next `h2`. When the
/// markers are exhausted, each event folds into an object-valued property
/// appended after the declared properties.
pub open spec fn spec_sections(
    name: Seq<char>,
    infos: Seq<Node>,
    i: int,
    ts: Seq<TypeV>,
    ps: Seq<PropV>,
    ms: Seq<MethodV>,
    evs: Seq<EventV>,
) -> Result<NamespaceV, ParseError>
    decreases infos.len() - i,
    via spec_sections_dec
{
    if i < 0 || i >= infos.len() {
        Ok(
            NamespaceV {
                name,
                types: ts,
                properties: ps + evs.map_values(|e: EventV| event_prop(e)),
                methods: ms,
            },
        )
    } else {
        match infos[i].id {
            None => Err(ParseError::SectionWithoutId),
            Some(idv) => match spec_api_type(idv@) {
                Err(x) => Err(x),
                Ok(at) => {
                    let end = sec_end(infos, i + 1);
                    match spec_section_children(at, infos, i + 1, end, ts, ps, ms, evs) {
                        Err(x) => Err(x),
                        Ok(st) => spec_sections(name, infos, end, st.0, st.1, st.2, st.3),
                    }
                },
            },
        }
    }
}

#[via_fn]
proof fn spec_sections_dec(
    name: Seq<char>,
    infos: Seq<Node>,
    i: int,
    ts: Seq<TypeV>,
    ps: Seq<PropV>,
    ms: Seq<MethodV>,
    evs: Seq<EventV>,
) {
    if 0 <= i < infos.len() {
        lemma_sec_end_bounds(infos, i + 1);
    }
}

/// What building the schema for one page yields.
pub open spec fn spec_parse_apis(name: Seq<char>, doc: Node) -> Result<NamespaceV, ParseError> {
    spec_sections(
        name,
        secs_in(doc),
        0,
        Seq::empty(),
        Seq::empty(),
        Seq::empty(),
        Seq::empty(),
    )
}

fn section_children(
    at: ApiType,
    infos: &Vec<&Node>,
    start: usize,
    end: usize,
    types: &mut Vec<Type>,
    properties: &mut Vec<Property>,
    methods: &mut Vec<Method>,
    events: &mut Vec<Event>,
) -> (r: Result<(), ParseError>)
    requires
        start <= end <= infos@.len(),
    ensures
        match r {
            Ok(_) => spec_section_children(
                at,
                deref_seq(infos@),
                start as int,
                end as int,
                types_v(old(types)@),
                props_v(old(properties)@),
                methods_v(old(methods)@),
                events_v(old(events)@),
            ) == Ok::<(Seq<TypeV>, Seq<PropV>, Seq<MethodV>, Seq<EventV>), ParseError>(
                (
                    types_v(final(types)@),
                    props_v(final(properties)@),
                    methods_v(final(methods)@),
                    events_v(final(events)@),
                ),
            ),
            Err(x) => spec_section_children(
                at,
                deref_seq(infos@),
                start as int,
                end as int,
                types_v(old(types)@),
                props_v(old(properties)@),
                methods_v(old(methods)@),
                events_v(old(events)@),
            ) == Err::<(Seq<TypeV>, Seq<PropV>, Seq<MethodV>, Seq<EventV>), ParseError>(x),
        },
{
    let ghost iv = deref_seq(infos@);
    let ghost t0 = types_v(types@);
    let ghost p0 = props_v(properties@);
    let ghost m0 = methods_v(methods@);
    let ghost v0 = events_v(events@);
    let mut j: usize = start;
    while j < end
        invariant
            start <= j <= end <= infos@.len(),
            iv == deref_seq(infos@),
            iv.len() == infos@.len(),
            t0 == types_v(old(types)@),
            p0 == props_v(old(properties)@),
            m0 == methods_v(old(methods)@),
            v0 == events_v(old(events)@),
            spec_section_children(at, iv, start as int, end as int, t0, p0, m0, v0)
                == spec_section_children(
                at,
                iv,
                j as int,
                end as int,
                types_v(types@),
                props_v(properties@),
                methods_v(methods@),
                events_v(events@),
            ),
        decreases end - j,
    {
        proof {
            assert(iv[j as int] == *infos@[j as int]);
        }
        match at {
            ApiType::Types => {
                match parse_type(infos[j]) {
                    Ok(t) => {
                        let ghost tv = t@;
                        let ghost ts = types@;
                        types.push(t);
                        proof {
                            assert(types_v(types@) =~= types_v(ts).push(tv));
                        }
                    },
                    Err(_) => {
                    },
                }
            },
            ApiType::Methods => {
                match parse_method(infos[j], TitleSel::H3) {
                    Ok(m) => {
                        let ghost mv = m@;
                        let ghost ms = methods@;
                        methods.push(m);
                        proof {
                            assert(methods_v(methods@) =~= methods_v(ms).push(mv));
                        }
                    },
                    Err(_) => {
                    },
                }
            },
            ApiType::Events => {
                match parse_event(infos[j]) {
                    Ok(e) => {
                        let ghost evv = e@;
                        let ghost es = events@;
                        events.push(e);
                        proof {
                            assert(events_v(events@) =~= events_v(es).push(evv));
                        }
                    },
                    Err(_) => {
                    },
                }
            },
            ApiType::Properties => {
                match parse_properties(infos[j]) {
                    Ok(ps) => {
                        *properties = ps;
                    },
                    Err(x) => {
                        return Err(x);
                    },
                }
            },
        }
        j += 1;
    }
    Ok(())
}

/// Builds the whole schema for one page: walks the top-level section
/// markers, dispatches each section's children to the matching extractor,
/// and folds the results into one namespace.
pub fn parse_apis(name: String, doc: &Node) -> (r: Result<Namespace, ParseError>)
    ensures
        match r {
            Ok(ns) => spec_parse_apis(name@, *doc) == Ok::<NamespaceV, ParseError>(ns@),
            Err(x) => spec_parse_apis(name@, *doc) == Err::<NamespaceV, ParseError>(x),
        },
{
    let infos = select_sections(doc);
    let ghost iv = deref_seq(infos@);
    proof {
        assert(iv.len() == infos@.len());
    }
    let mut types: Vec<Type> = Vec::new();
    let mut properties: Vec<Property> = Vec::new();
    let mut methods: Vec<Method> = Vec::new();
    let mut events: Vec<Event> = Vec::new();
    proof {
        assert(types_v(types@) =~= Seq::<TypeV>::empty());
        assert(props_v(properties@) =~= Seq::<PropV>::empty());
        assert(methods_v(methods@) =~= Seq::<MethodV>::empty());
        assert(events_v(events@) =~= Seq::<EventV>::empty());
    }
    let mut i: usize = 0;
    while i < infos.len()
        invariant
            0 <= i <= iv.len(),
            iv == deref_seq(infos@),
            iv.len() == infos@.len(),
            spec_parse_apis(name@, *doc) == spec_sections(
                name@,
                iv,
                i as int,
                types_v(types@),
                props_v(properties@),
                methods_v(methods@),
                events_v(events@),
            ),
        decreases iv.len() - i,
    {
        proof {
            assert(iv[i as int] == *infos@[i as int]);
        }
        let at = match &infos[i].id {
            None => {
                return Err(ParseError::SectionWithoutId);
            },
            Some(idv) => match ApiType::try_from(idv.as_str()) {
                Ok(at) => at,
                Err(x) => {
                    return Err(x);
                },
            },
        };
        let mut j: usize = i + 1;
        proof {
            lemma_sec_end_bounds(iv, i + 1);
        }
        while j < infos.len() && !str_eq(infos[j].tag.as_str(), "h2")
            invariant
                i + 1 <= j <= iv.len(),
                iv == deref_seq(infos@),
                iv.len() == infos@.len(),
                sec_end(iv, i + 1) == sec_end(iv, j as int),
            decreases iv.len() - j,
        {
            proof {
                assert(iv[j as int] == *infos@[j as int]);
            }
            j += 1;
        }
        proof {
            if j < infos.len() {
                assert(iv[j as int] == *infos@[j as int]);
            }
            assert(sec_end(iv, i + 1) == j as int);
        }
        match section_children(
            at,
            &infos,
            i + 1,
            j,
            &mut types,
            &mut properties,
            &mut methods,
            &mut events,
        ) {
            Ok(_) => {
            },
            Err(x) => {
                return Err(x);
            },
        }
        i = j;
    }
    proof {
        assert(props_v(properties@) + events_v(events@).map_values(|e: EventV| event_prop(e))
            =~= props_v(properties@) + crate::api::events_props_v(events@));
    }
    Ok(Namespace::new(name, types, properties, methods, events))
}

} // verus!
