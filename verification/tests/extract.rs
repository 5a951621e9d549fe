//! Extractor behaviour on synthetic documents.

use webext_parser::api::{ArgumentKind, Method, ParseError, PropertyKind, TypeKind};
use webext_parser::dom::{Node, Piece, TitleSel};
use webext_parser::parse::{parse_apis, parse_elem, parse_event, parse_inner_event, parse_method,
    parse_name, parse_properties, parse_type};
use webext_parser::util::{take_one, TakeResult};

fn node(tag: &str, id: Option<&str>, classes: &[&str], kids: Vec<Piece>) -> Node {
    Node {
        tag: tag.to_string(),
        id: id.map(|s| s.to_string()),
        classes: classes.iter().map(|s| s.to_string()).collect(),
        kids,
    }
}

fn el(tag: &str, kids: Vec<Piece>) -> Node {
    node(tag, None, &[], kids)
}

fn el_id(tag: &str, id: &str, kids: Vec<Piece>) -> Node {
    node(tag, Some(id), &[], kids)
}

fn el_cls(tag: &str, cls: &str, kids: Vec<Piece>) -> Node {
    node(tag, None, &[cls], kids)
}

fn txt(s: &str) -> Piece {
    Piece::Text(s.to_string())
}

fn pe(n: Node) -> Piece {
    Piece::Elem(n)
}

fn td(kids: Vec<Piece>) -> Node {
    el("td", kids)
}

fn span_opt() -> Node {
    el_cls("span", "optional", vec![txt("Optional")])
}

fn tbody_of(rows: Vec<Node>) -> Node {
    el("tbody", rows.into_iter().map(pe).collect())
}

fn method_div(heading_tag: &str, name: &str, rows: Vec<Node>) -> Node {
    el(
        "div",
        vec![
            pe(el(heading_tag, vec![txt(name)])),
            pe(el_cls("div", "description", vec![pe(el("table", vec![pe(tbody_of(rows))]))])),
        ],
    )
}

fn arg_row(id: &str, ty: &str, name: &str) -> Node {
    el_id("tr", id, vec![pe(td(vec![txt(ty)])), pe(td(vec![txt(name)]))])
}

fn cb_row(id: &str, name: &str, inner: Vec<Node>) -> Node {
    el_id(
        "tr",
        id,
        vec![
            pe(td(vec![txt("function")])),
            pe(td(vec![txt(name)])),
            pe(td(vec![pe(el("table", vec![pe(tbody_of(inner))]))])),
        ],
    )
}

fn type_div(name: &str, rows: Vec<Node>) -> Node {
    let id = format!("type-{}", name);
    el(
        "div",
        vec![
            pe(el_id("h3", &id, vec![txt(name)])),
            pe(el("table", vec![pe(tbody_of(rows))])),
        ],
    )
}

fn th_row(text: &str) -> Node {
    el("tr", vec![pe(el("th", vec![txt(text)]))])
}

fn field_row(ty: &str, name: &str, optional: bool) -> Node {
    let name_cell = if optional {
        td(vec![pe(span_opt()), txt(name)])
    } else {
        td(vec![txt(name)])
    };
    el("tr", vec![pe(td(vec![txt(ty)])), pe(name_cell), pe(td(vec![txt("about it")]))])
}

fn prop_table(rows: Vec<Node>) -> Node {
    el("table", vec![pe(tbody_of(rows))])
}

#[test]
fn elem_joins_trimmed_fragments_with_spaces() {
    let tr = el(
        "tr",
        vec![
            pe(td(vec![txt(" array "), pe(el("b", vec![txt("of")])), txt("  "), txt(" Tab ")])),
            pe(td(vec![txt("  tabs ")])),
            pe(td(vec![txt("whatever")])),
        ],
    );
    let re = parse_elem(&tr).unwrap();
    assert_eq!(re.ty_text, "array of Tab");
    assert_eq!(re.val_name, "tabs");
    assert!(!re.optional);
    assert!(re.desc.is_some());
}

#[test]
fn elem_reads_name_after_single_optional_marker() {
    let tr = el(
        "tr",
        vec![
            pe(td(vec![txt("integer")])),
            pe(td(vec![pe(span_opt()), txt("limit")])),
        ],
    );
    let re = parse_elem(&tr).unwrap();
    assert!(re.optional);
    assert_eq!(re.val_name, "limit");
    assert!(re.desc.is_none());
}

#[test]
fn elem_with_two_markers_is_not_optional() {
    let tr = el(
        "tr",
        vec![
            pe(td(vec![txt("integer")])),
            pe(td(vec![pe(span_opt()), pe(span_opt()), txt("limit")])),
        ],
    );
    let re = parse_elem(&tr).unwrap();
    assert!(!re.optional);
    assert_eq!(re.val_name, "Optional");
}

#[test]
fn elem_needs_two_cells() {
    let tr = el("tr", vec![pe(td(vec![txt("integer")]))]);
    assert!(matches!(parse_elem(&tr), Err(ParseError::TooFewCells)));
}

#[test]
fn elem_optional_without_second_fragment_fails() {
    let tr = el(
        "tr",
        vec![pe(td(vec![txt("integer")])), pe(td(vec![pe(span_opt())]))],
    );
    assert!(matches!(parse_elem(&tr), Err(ParseError::MissingValueName)));
}

#[test]
fn name_of_unique_heading_is_trimmed() {
    let div = el("div", vec![pe(el("h3", vec![txt("  getAll \n")]))]);
    assert_eq!(parse_name(&div, TitleSel::H3).unwrap(), "getAll");
}

#[test]
fn missing_heading_is_an_error() {
    let div = el("div", vec![]);
    assert!(matches!(parse_name(&div, TitleSel::H3), Err(ParseError::NoName)));
}

#[test]
fn duplicate_headings_are_an_error() {
    let div = el(
        "div",
        vec![pe(el("h3", vec![txt("a")])), pe(el("h3", vec![txt("b")]))],
    );
    assert!(matches!(parse_name(&div, TitleSel::H3), Err(ParseError::MultipleNames)));
}

#[test]
fn method_without_table_has_no_args() {
    let div = el("div", vec![pe(el("h3", vec![txt("getCurrent")]))]);
    let m = parse_method(&div, TitleSel::H3).unwrap();
    assert_eq!(m.name(), "getCurrent");
    assert!(m.args().is_empty());
}

#[test]
fn method_args_keep_row_order() {
    let div = method_div(
        "h3",
        "update",
        vec![arg_row("a1", "integer", "windowId"), arg_row("a2", "object", "updateInfo")],
    );
    let m = parse_method(&div, TitleSel::H3).unwrap();
    assert_eq!(m.name(), "update");
    assert_eq!(m.args().len(), 2);
    match m.args()[0].kind() {
        ArgumentKind::Element { element } => assert_eq!(element.name(), "windowId"),
        _ => panic!("expected a plain argument"),
    }
    match m.args()[1].kind() {
        ArgumentKind::Element { element } => assert_eq!(element.name(), "updateInfo"),
        _ => panic!("expected a plain argument"),
    }
}

#[test]
fn rows_without_id_are_not_arguments() {
    let div = method_div(
        "h3",
        "update",
        vec![
            arg_row("a1", "integer", "windowId"),
            el("tr", vec![pe(td(vec![txt("integer")])), pe(td(vec![txt("ghost")]))]),
        ],
    );
    let m = parse_method(&div, TitleSel::H3).unwrap();
    assert_eq!(m.args().len(), 1);
}

#[test]
fn two_argument_tables_are_an_error() {
    let div = el(
        "div",
        vec![
            pe(el("h3", vec![txt("update")])),
            pe(el_cls("div", "description", vec![pe(el("table", vec![pe(tbody_of(vec![]))]))])),
            pe(el_cls("div", "description", vec![pe(el("table", vec![pe(tbody_of(vec![]))]))])),
        ],
    );
    assert!(matches!(
        parse_method(&div, TitleSel::H3),
        Err(ParseError::MultipleMethodTables)
    ));
}

#[test]
fn callbacks_nest_to_two_levels() {
    let inner = cb_row("i1", "innerCb", vec![arg_row("i2", "Tab", "tab")]);
    let div = method_div("h3", "query", vec![cb_row("o1", "callback", vec![inner])]);
    let m = parse_method(&div, TitleSel::H3).unwrap();
    assert_eq!(m.args().len(), 1);
    let outer: &Method = match m.args()[0].kind() {
        ArgumentKind::Callback { callback } => callback,
        _ => panic!("expected a callback"),
    };
    assert_eq!(outer.name(), "callback");
    assert_eq!(outer.args().len(), 1);
    let nested: &Method = match outer.args()[0].kind() {
        ArgumentKind::Callback { callback } => callback,
        _ => panic!("expected a nested callback"),
    };
    assert_eq!(nested.name(), "innerCb");
    assert_eq!(nested.args().len(), 1);
    match nested.args()[0].kind() {
        ArgumentKind::Element { element } => {
            assert_eq!(element.name(), "tab");
            assert_eq!(element.rustify_type(), "Tab");
        },
        _ => panic!("expected a plain innermost argument"),
    }
}

#[test]
fn callback_without_description_cell_fails() {
    let row = el_id(
        "tr",
        "r1",
        vec![pe(td(vec![txt("function")])), pe(td(vec![txt("callback")]))],
    );
    let div = method_div("h3", "query", vec![row]);
    assert!(matches!(parse_method(&div, TitleSel::H3), Err(ParseError::NoCallbackInfo)));
}

#[test]
fn two_callback_tables_fail() {
    let row = el_id(
        "tr",
        "r1",
        vec![
            pe(td(vec![txt("function")])),
            pe(td(vec![txt("callback")])),
            pe(td(vec![
                pe(el("table", vec![pe(tbody_of(vec![]))])),
                pe(el("table", vec![pe(tbody_of(vec![]))])),
            ])),
        ],
    );
    let div = method_div("h3", "query", vec![row]);
    assert!(matches!(
        parse_method(&div, TitleSel::H3),
        Err(ParseError::MultipleCallbackTables)
    ));
}

#[test]
fn callback_table_without_single_body_fails() {
    let row = el_id(
        "tr",
        "r1",
        vec![
            pe(td(vec![txt("function")])),
            pe(td(vec![txt("callback")])),
            pe(td(vec![pe(el("table", vec![]))])),
        ],
    );
    let div = method_div("h3", "query", vec![row]);
    assert!(matches!(parse_method(&div, TitleSel::H3), Err(ParseError::BadCallbackTable)));
}

#[test]
fn event_name_is_truncated_at_first_dot() {
    let div = el(
        "div",
        vec![
            pe(el("h4", vec![txt("addListener")])),
            pe(el_cls(
                "div",
                "summary",
                vec![pe(el_cls("code", "prettyprint", vec![txt("onClicked.addListener")]))],
            )),
        ],
    );
    let ev = parse_inner_event(&div).unwrap();
    let expected = webext_parser::api::Event::new(
        "onClicked".to_string(),
        Method::new("addListener".to_string(), vec![]),
    );
    assert_eq!(ev, expected);
}

#[test]
fn inner_event_without_summary_fails() {
    let div = el("div", vec![pe(el("h4", vec![txt("addListener")]))]);
    assert!(matches!(parse_inner_event(&div), Err(ParseError::NoEventSummary)));
}

#[test]
fn top_level_event_reads_heading_name() {
    let div = el(
        "div",
        vec![
            pe(el_id("h3", "event-onFocusChanged", vec![txt("onFocusChanged")])),
            pe(el_cls("div", "description", vec![pe(el("div", vec![pe(el(
                "h4",
                vec![txt("addListener")],
            ))]))])),
        ],
    );
    let ev = parse_event(&div).unwrap();
    let expected = webext_parser::api::Event::new(
        "onFocusChanged".to_string(),
        Method::new("addListener".to_string(), vec![]),
    );
    assert_eq!(ev, expected);
}

#[test]
fn type_without_rows_is_data() {
    let div = el("div", vec![pe(el_id("h3", "type-Blob", vec![txt("Blob")]))]);
    let t = parse_type(&div).unwrap();
    assert_eq!(t.name(), "Blob");
    assert!(matches!(t.kind(), TypeKind::Data));
}

#[test]
fn type_enum_header_short_circuits() {
    let div = type_div("Mode", vec![th_row("Enum"), field_row("integer", "ignored", false)]);
    let t = parse_type(&div).unwrap();
    assert_eq!(t.name(), "Mode");
    assert!(matches!(t.kind(), TypeKind::Enum));
}

#[test]
fn type_properties_keep_rows_in_order() {
    let div = type_div(
        "Window",
        vec![
            th_row("properties"),
            field_row("integer", "id", false),
            field_row("boolean", "focused", true),
            field_row("array of Tab", "tabs", false),
        ],
    );
    let t = parse_type(&div).unwrap();
    match t.kind() {
        TypeKind::Struct { elements, optional_elements, methods } => {
            assert_eq!(elements.len(), 2);
            assert_eq!(elements[0].name(), "id");
            assert_eq!(elements[1].name(), "tabs");
            assert!(elements[1].is_array());
            assert_eq!(optional_elements.len(), 1);
            assert_eq!(optional_elements[0].name(), "focused");
            assert!(methods.is_empty());
        },
        _ => panic!("expected a structured record"),
    }
}

#[test]
fn type_property_row_needs_description_cell() {
    let bare = el(
        "tr",
        vec![pe(td(vec![txt("integer")])), pe(td(vec![txt("id")]))],
    );
    let div = type_div("Window", vec![th_row("properties"), bare]);
    assert!(matches!(parse_type(&div), Err(ParseError::MissingDescription)));
}

#[test]
fn type_with_unknown_header_fails() {
    let div = type_div("Window", vec![th_row("gadgets")]);
    assert!(matches!(parse_type(&div), Err(ParseError::UnknownTypeSection)));
}

#[test]
fn type_first_row_must_be_a_header() {
    let div = type_div("Window", vec![field_row("integer", "id", false)]);
    assert!(matches!(parse_type(&div), Err(ParseError::BadTypeHeader)));
}

#[test]
fn type_methods_group_is_collected() {
    let row = el("tr", vec![pe(td(vec![pe(method_div("h4", "focus", vec![]))]))]);
    let div = type_div("Window", vec![th_row("methods"), row]);
    let t = parse_type(&div).unwrap();
    match t.kind() {
        TypeKind::Struct { elements, optional_elements, methods } => {
            assert!(elements.is_empty());
            assert!(optional_elements.is_empty());
            assert_eq!(methods.len(), 1);
            assert_eq!(methods[0].name(), "focus");
        },
        _ => panic!("expected a structured record"),
    }
}

#[test]
fn type_events_fold_into_dotted_methods() {
    let inner_event = el(
        "div",
        vec![
            pe(el("h4", vec![txt("addListener")])),
            pe(el_cls(
                "div",
                "summary",
                vec![pe(el_cls("code", "prettyprint", vec![txt("onZap.addListener")]))],
            )),
        ],
    );
    let row = el("tr", vec![pe(td(vec![pe(inner_event)]))]);
    let div = type_div("Window", vec![th_row("events"), row]);
    let t = parse_type(&div).unwrap();
    match t.kind() {
        TypeKind::Struct { methods, .. } => {
            assert_eq!(methods.len(), 1);
            assert_eq!(methods[0].name(), "onZap.addListener");
        },
        _ => panic!("expected a structured record"),
    }
}

#[test]
fn type_method_row_needs_single_cell_and_container() {
    let empty_td = el("tr", vec![pe(td(vec![]))]);
    let div2 = type_div("Window", vec![th_row("methods"), empty_td]);
    assert!(matches!(parse_type(&div2), Err(ParseError::DivNotFound)));
    let plain = el("tr", vec![pe(el("span", vec![txt("x")]))]);
    let div3 = type_div("Window", vec![th_row("methods"), plain]);
    assert!(matches!(parse_type(&div3), Err(ParseError::TdNotFound)));
}

#[test]
fn properties_read_immediate_rows() {
    let table = prop_table(vec![field_row("string", "versionName", false)]);
    let ps = parse_properties(&table).unwrap();
    assert_eq!(ps.len(), 1);
    assert_eq!(ps[0].name(), "versionName");
    match ps[0].kind() {
        PropertyKind::Immediate { ty_name } => assert_eq!(ty_name, "string"),
        _ => panic!("expected an immediate property"),
    }
}

#[test]
fn properties_normalize_numeric_type_text() {
    let table = prop_table(vec![
        field_row("1.5", "ratio", false),
        field_row("42", "slots", false),
    ]);
    let ps = parse_properties(&table).unwrap();
    match ps[0].kind() {
        PropertyKind::Immediate { ty_name } => assert_eq!(ty_name, "number"),
        _ => panic!("expected an immediate property"),
    }
    match ps[1].kind() {
        PropertyKind::Immediate { ty_name } => assert_eq!(ty_name, "integer"),
        _ => panic!("expected an immediate property"),
    }
}

#[test]
fn optional_top_level_property_fails_the_listing() {
    let table = prop_table(vec![field_row("integer", "limit", true)]);
    assert!(matches!(parse_properties(&table), Err(ParseError::OptionalProperty)));
}

#[test]
fn object_property_collects_its_methods() {
    let method_tr = el("tr", vec![pe(el_id("h3", "method-get", vec![txt("get")]))]);
    let desc = td(vec![pe(el("table", vec![pe(tbody_of(vec![method_tr]))]))]);
    let row = el("tr", vec![pe(td(vec![txt("object")])), pe(td(vec![txt("local")])), pe(desc)]);
    let ps = parse_properties(&prop_table(vec![row])).unwrap();
    assert_eq!(ps[0].name(), "local");
    match ps[0].kind() {
        PropertyKind::Object { methods } => {
            assert_eq!(methods.len(), 1);
            assert_eq!(methods[0].name(), "get");
        },
        _ => panic!("expected an object property"),
    }
}

#[test]
fn object_property_with_bad_method_degrades_to_immediate() {
    let broken_tr = el("tr", vec![pe(el("p", vec![txt("not a heading")]))]);
    let desc = td(vec![pe(el("table", vec![pe(tbody_of(vec![broken_tr]))]))]);
    let row = el("tr", vec![pe(td(vec![txt("object")])), pe(td(vec![txt("local")])), pe(desc)]);
    let ps = parse_properties(&prop_table(vec![row])).unwrap();
    assert_eq!(ps[0].name(), "local");
    match ps[0].kind() {
        PropertyKind::Immediate { ty_name } => assert_eq!(ty_name, "object"),
        _ => panic!("expected the immediate fallback"),
    }
}

#[test]
fn object_property_without_description_is_immediate() {
    let row = el("tr", vec![pe(td(vec![txt("object")])), pe(td(vec![txt("local")]))]);
    let ps = parse_properties(&prop_table(vec![row])).unwrap();
    assert!(matches!(ps[0].kind(), PropertyKind::Immediate { .. }));
}

#[test]
fn object_property_without_method_table_fails() {
    let row = el(
        "tr",
        vec![
            pe(td(vec![txt("object")])),
            pe(td(vec![txt("local")])),
            pe(td(vec![txt("no table here")])),
        ],
    );
    assert!(matches!(
        parse_properties(&prop_table(vec![row])),
        Err(ParseError::NoMethodTable)
    ));
}

#[test]
fn object_property_with_two_method_tables_fails() {
    let desc = td(vec![
        pe(el("table", vec![pe(tbody_of(vec![]))])),
        pe(el("table", vec![pe(tbody_of(vec![]))])),
    ]);
    let row = el("tr", vec![pe(td(vec![txt("object")])), pe(td(vec![txt("local")])), pe(desc)]);
    assert!(matches!(
        parse_properties(&prop_table(vec![row])),
        Err(ParseError::TooManyMethodTables)
    ));
}

#[test]
fn properties_listing_needs_exactly_one_body() {
    let empty = el("table", vec![]);
    assert!(matches!(parse_properties(&empty), Err(ParseError::NoPropsBody)));
    let two = el("table", vec![pe(tbody_of(vec![])), pe(tbody_of(vec![]))]);
    assert!(matches!(parse_properties(&two), Err(ParseError::MultiplePropsBodies)));
}

fn page(sections: Vec<Piece>) -> Node {
    el("html", vec![pe(el("body", vec![pe(node(
        "div",
        None,
        &["api-reference"],
        sections,
    ))]))])
}

#[test]
fn whole_page_builds_one_namespace() {
    let doc = page(vec![
        pe(el_id("h2", "types", vec![txt("Types")])),
        pe(type_div("Window", vec![th_row("Enum")])),
        pe(el_id("h2", "methods", vec![txt("Methods")])),
        pe(method_div("h3", "getAll", vec![arg_row("a1", "integer", "windowId")])),
        pe(el_id("h2", "properties", vec![txt("Properties")])),
        pe(prop_table(vec![field_row("integer", "limit", false)])),
        pe(el_id("h2", "events", vec![txt("Events")])),
        pe(el(
            "div",
            vec![
                pe(el_id("h3", "event-onCreated", vec![txt("onCreated")])),
                pe(el_cls("div", "description", vec![pe(el("div", vec![pe(el(
                    "h4",
                    vec![txt("addListener")],
                ))]))])),
            ],
        )),
    ]);
    let ns = parse_apis("windows".to_string(), &doc).unwrap();
    assert_eq!(ns.name(), "windows");
    assert_eq!(ns.types().len(), 1);
    assert_eq!(ns.types()[0].name(), "Window");
    assert_eq!(ns.methods().len(), 1);
    assert_eq!(ns.methods()[0].name(), "getAll");
    let props = ns.properties();
    assert_eq!(props.len(), 2);
    assert_eq!(props[0].name(), "limit");
    assert_eq!(props[1].name(), "onCreated");
    assert!(matches!(props[1].kind(), PropertyKind::Object { .. }));
}

#[test]
fn malformed_type_is_skipped_but_later_types_survive() {
    let doc = page(vec![
        pe(el_id("h2", "types", vec![txt("Types")])),
        pe(el("div", vec![txt("nothing to see")])),
        pe(type_div("Port", vec![th_row("Enum")])),
    ]);
    let ns = parse_apis("runtime".to_string(), &doc).unwrap();
    assert_eq!(ns.types().len(), 1);
    assert_eq!(ns.types()[0].name(), "Port");
}

#[test]
fn later_properties_listing_replaces_the_earlier_one() {
    let doc = page(vec![
        pe(el_id("h2", "properties", vec![txt("Properties")])),
        pe(prop_table(vec![field_row("integer", "first", false)])),
        pe(prop_table(vec![field_row("integer", "second", false)])),
    ]);
    let ns = parse_apis("app".to_string(), &doc).unwrap();
    assert_eq!(ns.properties().len(), 1);
    assert_eq!(ns.properties()[0].name(), "second");
}

#[test]
fn section_marker_without_id_aborts_the_page() {
    let doc = page(vec![pe(el("h2", vec![txt("Types")]))]);
    assert!(matches!(
        parse_apis("x".to_string(), &doc),
        Err(ParseError::SectionWithoutId)
    ));
}

#[test]
fn unknown_section_kind_aborts_the_page() {
    let doc = page(vec![pe(el_id("h2", "gadgets", vec![txt("Gadgets")]))]);
    assert!(matches!(
        parse_apis("x".to_string(), &doc),
        Err(ParseError::UnknownSectionKind)
    ));
}

#[test]
fn failing_properties_listing_aborts_the_page() {
    let doc = page(vec![
        pe(el_id("h2", "properties", vec![txt("Properties")])),
        pe(prop_table(vec![field_row("integer", "limit", true)])),
        pe(el_id("h2", "types", vec![txt("Types")])),
        pe(type_div("Port", vec![th_row("Enum")])),
    ]);
    assert!(matches!(
        parse_apis("x".to_string(), &doc),
        Err(ParseError::OptionalProperty)
    ));
}

#[test]
fn take_one_classifies_by_length() {
    assert!(matches!(take_one(Vec::<u32>::new()), TakeResult::Zero));
    assert!(matches!(take_one(vec![7u32]), TakeResult::One(7)));
    assert!(matches!(take_one(vec![1u32, 2]), TakeResult::More));
}
