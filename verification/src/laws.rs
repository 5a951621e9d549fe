//! Laws the extractors obey, stated over the spec-level models and proved
//! once and for all: classification of the supported descriptor patterns,
//! rejection of invalid names, the shape a properties group builds, the
//! recursive callback rule, the documented object-property fallback, and
//! per-child failure isolation inside a `types` section.

use vstd::prelude::*;

use crate::api::{ApiType, ArgKindV, ArgV, ElemV, EventV, MethodV, ParseError, PropKindV, PropV,
    TypeKindV, TypeV, classify_type_text, spec_new_element};
use crate::dom::{Node, elem_kids_tag_from, node_text};
use crate::parse::{group_end, has_th, spec_body_from, spec_cb_tbodies, spec_flat_tbodies,
    spec_group_props, spec_parse_elem, spec_parse_type, spec_prop_methods, spec_prop_row,
    spec_row_arg, spec_section_children, spec_type_rows};
use crate::text::{contains_char, lemma_split_at_space, lemma_split_no_space, split_spaces,
    trim_spec};

verus! {

/// For every identifier `x` without spaces, the descriptor `array of x`
/// classifies as element type `x` with the array flag set.
pub proof fn lemma_classify_array_of(x: Seq<char>)
    requires
        !contains_char(x, ' '),
    ensures
        classify_type_text("array of "@ + x) == Some((x, true)),
{
    reveal_strlit("array of ");
    reveal_strlit("array");
    reveal_strlit("of");
    let t = "array of "@ + x;
    let tail = "of"@ + seq![' '] + x;
    assert(t =~= "array"@ + seq![' '] + tail);
    assert(!contains_char("array"@, ' '));
    assert(!contains_char("of"@, ' '));
    lemma_split_at_space("array"@, tail, Seq::empty());
    lemma_split_at_space("of"@, x, Seq::empty());
    lemma_split_no_space(x, Seq::empty());
    assert(Seq::empty() + "array"@ =~= "array"@);
    assert(Seq::empty() + "of"@ =~= "of"@);
    assert(Seq::empty() + x =~= x);
    assert(split_spaces(t) =~= seq!["array"@, "of"@, x]);
}

/// Every union written with `or` between two space-free sides classifies
/// as the opaque type `object`.
pub proof fn lemma_classify_union(a: Seq<char>, b: Seq<char>)
    requires
        !contains_char(a, ' '),
        !contains_char(b, ' '),
    ensures
        classify_type_text(a + " or "@ + b) == Some(("object"@, false)),
{
    reveal_strlit(" or ");
    reveal_strlit("or");
    reveal_strlit("of");
    let t = a + " or "@ + b;
    let tail = "or"@ + seq![' '] + b;
    assert(t =~= a + seq![' '] + tail);
    assert(!contains_char("or"@, ' '));
    lemma_split_at_space(a, tail, Seq::empty());
    lemma_split_at_space("or"@, b, Seq::empty());
    lemma_split_no_space(b, Seq::empty());
    assert(Seq::empty() + a =~= a);
    assert(Seq::empty() + "or"@ =~= "or"@);
    assert(Seq::empty() + b =~= b);
    let ws = split_spaces(t);
    assert(ws =~= seq![a, "or"@, b]);
    assert("or"@[1] == 'r');
    assert("of"@[1] == 'f');
    assert(exists|i: int| 1 <= i < ws.len() && ws[i] == "or"@);
}

/// Every descriptor of the form `enum of x`, with `x` space-free,
/// classifies as the opaque type `object`.
pub proof fn lemma_classify_enum_of(x: Seq<char>)
    requires
        !contains_char(x, ' '),
    ensures
        classify_type_text("enum of "@ + x) == Some(("object"@, false)),
{
    reveal_strlit("enum of ");
    reveal_strlit("enum");
    reveal_strlit("array");
    reveal_strlit("of");
    let t = "enum of "@ + x;
    let tail = "of"@ + seq![' '] + x;
    assert(t =~= "enum"@ + seq![' '] + tail);
    assert(!contains_char("enum"@, ' '));
    assert(!contains_char("of"@, ' '));
    lemma_split_at_space("enum"@, tail, Seq::empty());
    lemma_split_at_space("of"@, x, Seq::empty());
    lemma_split_no_space(x, Seq::empty());
    assert(Seq::empty() + "enum"@ =~= "enum"@);
    assert(Seq::empty() + "of"@ =~= "of"@);
    assert(Seq::empty() + x =~= x);
    assert(split_spaces(t) =~= seq!["enum"@, "of"@, x]);
}

/// A value name holding a space is rejected for every field, whatever the
/// type descriptor says.
pub proof fn lemma_name_with_space_rejected(t: Seq<char>, name: Seq<char>)
    requires
        contains_char(name, ' '),
    ensures
        spec_new_element(t, name) == Err::<ElemV, ParseError>(ParseError::InvalidName),
{
}

/// The row reads as a field that carries a description cell and a
/// supported, validly named descriptor.
pub open spec fn wf_prop_row(r: Node) -> bool {
    &&& spec_parse_elem(r) is Ok
    &&& spec_parse_elem(r)->Ok_0.desc is Some
    &&& spec_new_element(spec_parse_elem(r)->Ok_0.ty_text, spec_parse_elem(r)->Ok_0.val_name)
        is Ok
}

/// The field a well-formed property row contributes.
pub open spec fn row_field(r: Node) -> ElemV {
    spec_new_element(spec_parse_elem(r)->Ok_0.ty_text, spec_parse_elem(r)->Ok_0.val_name)->Ok_0
}

/// The row is marked optional.
pub open spec fn row_opt(r: Node) -> bool {
    spec_parse_elem(r)->Ok_0.optional
}

/// The fields of the rows `trs[j..end]` with the given optionality, in
/// original row order.
pub open spec fn group_fields(trs: Seq<Node>, j: int, end: int, want_opt: bool) -> Seq<ElemV>
    decreases end - j,
{
    if j >= end {
        Seq::empty()
    } else {
        (if row_opt(trs[j]) == want_opt {
            seq![row_field(trs[j])]
        } else {
            Seq::empty()
        }) + group_fields(trs, j + 1, end, want_opt)
    }
}

/// A properties group of well-formed rows always succeeds, and routes each
/// row's field into the required or optional list by its flag, keeping the
/// original row order in both lists.
pub proof fn lemma_props_round_trip(
    trs: Seq<Node>,
    j: int,
    end: int,
    els: Seq<ElemV>,
    opts: Seq<ElemV>,
)
    requires
        0 <= j <= end <= trs.len(),
        forall|k: int| j <= k < end ==> wf_prop_row(#[trigger] trs[k]),
    ensures
        spec_group_props(trs, j, end, els, opts) == Ok::<(Seq<ElemV>, Seq<ElemV>), ParseError>(
            (els + group_fields(trs, j, end, false), opts + group_fields(trs, j, end, true)),
        ),
    decreases end - j,
{
    if j >= end {
        assert(els + group_fields(trs, j, end, false) =~= els);
        assert(opts + group_fields(trs, j, end, true) =~= opts);
    } else {
        assert(wf_prop_row(trs[j]));
        let f = row_field(trs[j]);
        if row_opt(trs[j]) {
            lemma_props_round_trip(trs, j + 1, end, els, opts.push(f));
            assert(els + group_fields(trs, j + 1, end, false) =~= els + group_fields(
                trs,
                j,
                end,
                false,
            ));
            assert(opts.push(f) + group_fields(trs, j + 1, end, true) =~= opts + (seq![f]
                + group_fields(trs, j + 1, end, true)));
        } else {
            lemma_props_round_trip(trs, j + 1, end, els.push(f), opts);
            assert(opts + group_fields(trs, j + 1, end, true) =~= opts + group_fields(
                trs,
                j,
                end,
                true,
            ));
            assert(els.push(f) + group_fields(trs, j + 1, end, false) =~= els + (seq![f]
                + group_fields(trs, j + 1, end, false)));
        }
    }
}

proof fn lemma_group_end_all(trs: Seq<Node>, j: int)
    requires
        0 <= j <= trs.len(),
        forall|k: int| j <= k < trs.len() ==> !has_th(#[trigger] trs[k]),
    ensures
        group_end(trs, j) == trs.len(),
    decreases trs.len() - j,
{
    if j < trs.len() {
        lemma_group_end_all(trs, j + 1);
    }
}

/// A type subsection whose rows are one `properties` header followed by
/// well-formed field rows builds a structured record holding exactly those
/// rows' required and optional fields, in original row order, and no
/// methods.
pub proof fn lemma_properties_section_round_trip(nm: Seq<char>, trs: Seq<Node>)
    requires
        trs.len() >= 1,
        elem_kids_tag_from(trs[0], "th"@, 0).len() == 1,
        trim_spec(node_text(elem_kids_tag_from(trs[0], "th"@, 0)[0])) == "properties"@,
        forall|k: int| 1 <= k < trs.len() ==> wf_prop_row(#[trigger] trs[k]),
        forall|k: int| 1 <= k < trs.len() ==> !has_th(#[trigger] trs[k]),
    ensures
        spec_type_rows(nm, trs, 0, Seq::empty(), Seq::empty(), Seq::empty(), Seq::empty())
            == Ok::<TypeV, ParseError>(
            TypeV {
                name: nm,
                kind: TypeKindV::Struct {
                    elements: group_fields(trs, 1, trs.len() as int, false),
                    optional_elements: group_fields(trs, 1, trs.len() as int, true),
                    methods: Seq::empty(),
                },
            },
        ),
{
    reveal_strlit("properties");
    reveal_strlit("Enum");
    assert("properties"@.len() == 10);
    assert("Enum"@.len() == 4);
    reveal_with_fuel(spec_type_rows, 3);
    lemma_group_end_all(trs, 1);
    lemma_props_round_trip(trs, 1, trs.len() as int, Seq::empty(), Seq::empty());
    let reqs = group_fields(trs, 1, trs.len() as int, false);
    let opts = group_fields(trs, 1, trs.len() as int, true);
    assert(Seq::<ElemV>::empty() + reqs =~= reqs);
    assert(Seq::<ElemV>::empty() + opts =~= opts);
    assert(Seq::<MethodV>::empty() + Seq::<EventV>::empty().map_values(
        |e: EventV| crate::api::fold_event_method(e),
    ) =~= Seq::<MethodV>::empty());
}

/// A row typed `function`, whose description cell holds exactly one nested
/// table with one body, yields a callback argument: its inner method takes
/// the row's value name and exactly the nested body's rows as arguments.
/// The nested rows are read by the same rule, so this holds at any depth.
pub proof fn lemma_callback_row(row: Node, d: Node, tb: Node)
    requires
        spec_parse_elem(row) is Ok,
        spec_parse_elem(row)->Ok_0.ty_text == "function"@,
        spec_parse_elem(row)->Ok_0.desc == Some(d),
        spec_cb_tbodies(d, 0) == Ok::<Seq<Node>, ParseError>(seq![tb]),
        spec_body_from(tb, 0) is Ok,
    ensures
        spec_row_arg(row) == Ok::<ArgV, ParseError>(
            ArgV {
                kind: ArgKindV::Callback(
                    MethodV {
                        name: spec_parse_elem(row)->Ok_0.val_name,
                        args: spec_body_from(tb, 0)->Ok_0,
                    },
                ),
                optioned: spec_parse_elem(row)->Ok_0.optional,
            },
        ),
{
}

/// An `object`-typed, non-optional top-level property row whose nested
/// method rows fail to parse degrades to an immediate property of the
/// original opaque type instead of failing the page.
pub proof fn lemma_object_property_fallback(tr: Node, td: Node, tb: Node)
    requires
        spec_parse_elem(tr) is Ok,
        !spec_parse_elem(tr)->Ok_0.optional,
        spec_parse_elem(tr)->Ok_0.ty_text == "object"@,
        spec_parse_elem(tr)->Ok_0.desc == Some(td),
        spec_flat_tbodies(td, 0) == seq![tb],
        spec_prop_methods(tb, 0, Seq::empty()) is None,
    ensures
        spec_prop_row(tr) == Ok::<PropV, ParseError>(
            PropV {
                name: spec_parse_elem(tr)->Ok_0.val_name,
                kind: PropKindV::Immediate("object"@),
            },
        ),
{
}

/// The types the children of a `types` section contribute: each child that
/// parses, in order; a child that fails contributes nothing.
pub open spec fn ok_types(infos: Seq<Node>, j: int, end: int) -> Seq<TypeV>
    decreases end - j,
{
    if j >= end {
        Seq::empty()
    } else {
        (match spec_parse_type(infos[j]) {
            Ok(t) => seq![t],
            Err(_) => Seq::empty(),
        }) + ok_types(infos, j + 1, end)
    }
}

/// Inside a `types` section every malformed child is skipped in isolation:
/// processing the children always succeeds, and appends exactly the types
/// of the children that parse, in order — so a malformed child never
/// prevents a later well-formed child from being extracted.
pub proof fn lemma_types_section_isolation(
    infos: Seq<Node>,
    j: int,
    end: int,
    ts: Seq<TypeV>,
    ps: Seq<PropV>,
    ms: Seq<MethodV>,
    evs: Seq<EventV>,
)
    requires
        0 <= j <= end <= infos.len(),
    ensures
        spec_section_children(ApiType::Types, infos, j, end, ts, ps, ms, evs) == Ok::<
            (Seq<TypeV>, Seq<PropV>, Seq<MethodV>, Seq<EventV>),
            ParseError,
        >((ts + ok_types(infos, j, end), ps, ms, evs)),
    decreases end - j,
{
    if j >= end {
        assert(ts + ok_types(infos, j, end) =~= ts);
    } else {
        match spec_parse_type(infos[j]) {
            Ok(t) => {
                lemma_types_section_isolation(infos, j + 1, end, ts.push(t), ps, ms, evs);
                assert(ts.push(t) + ok_types(infos, j + 1, end) =~= ts + (seq![t] + ok_types(
                    infos,
                    j + 1,
                    end,
                )));
            },
            Err(_) => {
                lemma_types_section_isolation(infos, j + 1, end, ts, ps, ms, evs);
                assert(ts + ok_types(infos, j + 1, end) =~= ts + ok_types(infos, j, end));
            },
        }
    }
}

} // verus!
