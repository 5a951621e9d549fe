//! The schema model: namespaces, types, fields, arguments, methods, events
//! and properties, together with the ghost counterparts their contracts are
//! stated over, and the classifier that turns free-text type descriptors
//! into the closed type-shape model.

use vstd::prelude::*;

use crate::text::{contains_char, has_char, split_on_space, split_spaces, str_eq};

verus! {

/// Why a value, section or page could not be extracted.
#[derive(Debug, Clone, Copy, PartialEq, Eq, Structural)]
pub enum ParseError {
    /// A field row held fewer than two cells.
    TooFewCells,
    /// The cell naming the value held too few text fragments.
    MissingValueName,
    /// The value name contains whitespace.
    InvalidName,
    /// The type descriptor fits none of the supported patterns.
    UnsupportedType,
    /// No heading matched the title pattern.
    NoName,
    /// Several headings matched the title pattern.
    MultipleNames,
    /// A top-level section marker carries no id.
    SectionWithoutId,
    /// A top-level section marker's id is not a known section kind.
    UnknownSectionKind,
    /// A type-table row does not hold exactly one header cell.
    BadTypeHeader,
    /// A type-table header names an unrecognized grouping.
    UnknownTypeSection,
    /// A grouped property row has no description cell.
    MissingDescription,
    /// A grouped row does not hold exactly one data cell.
    TdNotFound,
    /// A grouped row's data cell does not hold exactly one container.
    DivNotFound,
    /// Several argument tables were associated with one heading.
    MultipleMethodTables,
    /// A callback-typed field carries no description cell.
    NoCallbackInfo,
    /// A nested callback table does not hold exactly one body.
    BadCallbackTable,
    /// Several nested callback tables were found.
    MultipleCallbackTables,
    /// An event subsection carries no registration-call summary.
    NoEventSummary,
    /// The properties listing holds no body.
    NoPropsBody,
    /// The properties listing holds several bodies.
    MultiplePropsBodies,
    /// A top-level property is marked optional.
    OptionalProperty,
    /// An object-valued property's description holds no method table.
    NoMethodTable,
    /// An object-valued property's description holds several method tables.
    TooManyMethodTables,
}

/// The kind of a top-level page section.
#[derive(Debug, PartialEq, Eq, Structural)]
pub enum ApiType {
    Types,
    Properties,
    Methods,
    Events,
}

/// The section kind denoted by a marker id, when it is one of the four
/// recognized literals.
pub open spec fn spec_api_type(s: Seq<char>) -> Result<ApiType, ParseError> {
    if s == "types"@ {
        Ok(ApiType::Types)
    } else if s == "properties"@ {
        Ok(ApiType::Properties)
    } else if s == "methods"@ {
        Ok(ApiType::Methods)
    } else if s == "events"@ {
        Ok(ApiType::Events)
    } else {
        Err(ParseError::UnknownSectionKind)
    }
}

impl ApiType {
    pub fn try_from(value: &str) -> (r: Result<ApiType, ParseError>)
        ensures
            r == spec_api_type(value@),
    {
        if str_eq(value, "types") {
            Ok(ApiType::Types)
        } else if str_eq(value, "properties") {
            Ok(ApiType::Properties)
        } else if str_eq(value, "methods") {
            Ok(ApiType::Methods)
        } else if str_eq(value, "events") {
            Ok(ApiType::Events)
        } else {
            Err(ParseError::UnknownSectionKind)
        }
    }
}

/// Ghost counterpart of `Element`.
pub struct ElemV {
    pub ty_name: Seq<char>,
    pub is_array: bool,
    pub name: Seq<char>,
}

/// Ghost counterpart of `ArgumentKind`.
pub enum ArgKindV {
    Element(ElemV),
    Callback(MethodV),
}

/// Ghost counterpart of `Argument`.
pub struct ArgV {
    pub kind: ArgKindV,
    pub optioned: bool,
}

/// Ghost counterpart of `Method`.
pub struct MethodV {
    pub name: Seq<char>,
    pub args: Seq<ArgV>,
}

/// Ghost counterpart of `TypeKind`.
pub enum TypeKindV {
    Enum,
    Data,
    Struct { elements: Seq<ElemV>, optional_elements: Seq<ElemV>, methods: Seq<MethodV> },
}

/// Ghost counterpart of `Type`.
pub struct TypeV {
    pub name: Seq<char>,
    pub kind: TypeKindV,
}

/// Ghost counterpart of `Event`.
pub struct EventV {
    pub event_name: Seq<char>,
    pub add_listener: MethodV,
}

/// Ghost counterpart of `PropertyKind`.
pub enum PropKindV {
    Immediate(Seq<char>),
    Object(Seq<MethodV>),
}

/// Ghost counterpart of `Property`.
pub struct PropV {
    pub name: Seq<char>,
    pub kind: PropKindV,
}

/// Ghost counterpart of `Namespace`.
pub struct NamespaceV {
    pub name: Seq<char>,
    pub types: Seq<TypeV>,
    pub properties: Seq<PropV>,
    pub methods: Seq<MethodV>,
}

/// A named, typed field.
#[derive(Debug, PartialEq, Eq, Clone)]
pub struct Element {
    ty_name: String,
    is_array: bool,
    name: String,
}

/// Either a plain field or a callback, with an optionality flag.
#[derive(Debug, PartialEq, Eq)]
pub struct Argument {
    kind: ArgumentKind,
    optioned: bool,
}

#[derive(Debug, PartialEq, Eq)]
pub enum ArgumentKind {
    Element { element: Element },
    Callback { callback: Method },
}

/// A named method with its ordered argument list.
#[derive(Debug, PartialEq, Eq)]
pub struct Method {
    name: String,
    args: Vec<Argument>,
}

/// A named type: enum marker, opaque data, or structured record.
#[derive(Debug, PartialEq, Eq)]
pub struct Type {
    name: String,
    kind: TypeKind,
}

#[derive(Debug, PartialEq, Eq)]
pub enum TypeKind {
    Enum,
    Data,
    Struct { elements: Vec<Element>, optional_elements: Vec<Element>, methods: Vec<Method> },
}

/// An event together with its listener-registration method.
#[derive(Debug, PartialEq, Eq)]
pub struct Event {
    event_name: String,
    add_listener: Method,
}

/// A top-level property: an immediate typed value or a bundle of methods.
#[derive(Debug, PartialEq, Eq)]
pub struct Property {
    name: String,
    kind: PropertyKind,
}

#[derive(Debug, PartialEq, Eq)]
pub enum PropertyKind {
    Immediate { ty_name: String },
    Object { methods: Vec<Method> },
}

/// The whole schema extracted from one page.
#[derive(Debug, PartialEq, Eq)]
pub struct Namespace {
    name: String,
    types: Vec<Type>,
    properties: Vec<Property>,
    methods: Vec<Method>,
}

impl View for Element {
    type V = ElemV;

    closed spec fn view(&self) -> ElemV {
        ElemV { ty_name: self.ty_name@, is_array: self.is_array, name: self.name@ }
    }
}

impl View for Argument {
    type V = ArgV;

    closed spec fn view(&self) -> ArgV
        decreases self,
    {
        ArgV {
            kind: match self.kind {
                ArgumentKind::Element { element } => ArgKindV::Element(element@),
                ArgumentKind::Callback { callback } => ArgKindV::Callback(callback@),
            },
            optioned: self.optioned,
        }
    }
}

impl View for Method {
    type V = MethodV;

    closed spec fn view(&self) -> MethodV
        decreases self,
    {
        MethodV { name: self.name@, args: args_v(self.args@) }
    }
}

/// The views of a sequence of arguments, in order.
pub open spec fn args_v(s: Seq<Argument>) -> Seq<ArgV>
    decreases s,
{
    if s.len() == 0 {
        Seq::empty()
    } else {
        args_v(s.drop_last()).push(s.last()@)
    }
}

/// The views of a sequence of methods, in order.
pub open spec fn methods_v(s: Seq<Method>) -> Seq<MethodV> {
    s.map_values(|m: Method| m@)
}

/// The views of a sequence of fields, in order.
pub open spec fn elems_v(s: Seq<Element>) -> Seq<ElemV> {
    s.map_values(|e: Element| e@)
}

/// The views of a sequence of types, in order.
pub open spec fn types_v(s: Seq<Type>) -> Seq<TypeV> {
    s.map_values(|t: Type| t@)
}

/// The views of a sequence of properties, in order.
pub open spec fn props_v(s: Seq<Property>) -> Seq<PropV> {
    s.map_values(|p: Property| p@)
}

/// The views of a sequence of events, in order.
pub open spec fn events_v(s: Seq<Event>) -> Seq<EventV> {
    s.map_values(|e: Event| e@)
}

impl View for Type {
    type V = TypeV;

    closed spec fn view(&self) -> TypeV {
        TypeV {
            name: self.name@,
            kind: match self.kind {
                TypeKind::Enum => TypeKindV::Enum,
                TypeKind::Data => TypeKindV::Data,
                TypeKind::Struct { elements, optional_elements, methods } => TypeKindV::Struct {
                    elements: elems_v(elements@),
                    optional_elements: elems_v(optional_elements@),
                    methods: methods_v(methods@),
                },
            },
        }
    }
}

impl View for Event {
    type V = EventV;

    closed spec fn view(&self) -> EventV {
        EventV { event_name: self.event_name@, add_listener: self.add_listener@ }
    }
}

impl View for Property {
    type V = PropV;

    closed spec fn view(&self) -> PropV {
        PropV {
            name: self.name@,
            kind: match self.kind {
                PropertyKind::Immediate { ty_name } => PropKindV::Immediate(ty_name@),
                PropertyKind::Object { methods } => PropKindV::Object(methods_v(methods@)),
            },
        }
    }
}

impl View for Namespace {
    type V = NamespaceV;

    closed spec fn view(&self) -> NamespaceV {
        NamespaceV {
            name: self.name@,
            types: types_v(self.types@),
            properties: props_v(self.properties@),
            methods: methods_v(self.methods@),
        }
    }
}

/// The ghost view of a `TypeKind` value.
pub open spec fn kind_v(k: TypeKind) -> TypeKindV {
    match k {
        TypeKind::Enum => TypeKindV::Enum,
        TypeKind::Data => TypeKindV::Data,
        TypeKind::Struct { elements, optional_elements, methods } => TypeKindV::Struct {
            elements: elems_v(elements@),
            optional_elements: elems_v(optional_elements@),
            methods: methods_v(methods@),
        },
    }
}

/// The ghost view of an `ArgumentKind` value.
pub open spec fn arg_kind_v(k: ArgumentKind) -> ArgKindV {
    match k {
        ArgumentKind::Element { element } => ArgKindV::Element(element@),
        ArgumentKind::Callback { callback } => ArgKindV::Callback(callback@),
    }
}

/// The ghost view of a `PropertyKind` value.
pub open spec fn prop_kind_v(k: PropertyKind) -> PropKindV {
    match k {
        PropertyKind::Immediate { ty_name } => PropKindV::Immediate(ty_name@),
        PropertyKind::Object { methods } => PropKindV::Object(methods_v(methods@)),
    }
}

/// Classification of a free-text type descriptor, split on single spaces:
/// one word is a scalar type; `array of T` is an array of `T`; `enum of T`
/// and any union written with `or` collapse to the opaque `object`; every
/// other shape is unsupported.
pub open spec fn classify_type_text(t: Seq<char>) -> Option<(Seq<char>, bool)> {
    let ws = split_spaces(t);
    if ws.len() == 1 {
        Some((t, false))
    } else if ws.len() == 3 && ws[0] == "array"@ && ws[1] == "of"@ {
        Some((ws[2], true))
    } else if (ws.len() == 3 && ws[0] == "enum"@ && ws[1] == "of"@) || (exists|i: int|
        1 <= i < ws.len() && ws[i] == "or"@) {
        Some(("object"@, false))
    } else {
        None
    }
}

/// What building a field from a type descriptor and a value name yields: the
/// classified field, or the error rejecting it. A name with a space is
/// rejected whatever the type text says.
pub open spec fn spec_new_element(t: Seq<char>, name: Seq<char>) -> Result<ElemV, ParseError> {
    if contains_char(name, ' ') {
        Err(ParseError::InvalidName)
    } else {
        match classify_type_text(t) {
            Some((ty, arr)) => Ok(ElemV { ty_name: ty, is_array: arr, name: name }),
            None => Err(ParseError::UnsupportedType),
        }
    }
}

/// The host-language spelling of the four scalar type names; every other
/// name passes through as a named-type reference.
pub open spec fn rustify_spec(t: Seq<char>) -> Seq<char> {
    if t == "integer"@ {
        "isize"@
    } else if t == "number"@ {
        "f64"@
    } else if t == "boolean"@ {
        "bool"@
    } else if t == "string"@ {
        "&str"@
    } else {
        t
    }
}

impl Element {
    /// Classifies the type descriptor and pairs it with the value name,
    /// rejecting names with internal whitespace and unsupported descriptors.
    pub fn new(ty_name: String, name: String) -> (r: Result<Element, ParseError>)
        ensures
            match r {
                Ok(e) => spec_new_element(ty_name@, name@) == Ok::<ElemV, ParseError>(e@),
                Err(x) => spec_new_element(ty_name@, name@) == Err::<ElemV, ParseError>(x),
            },
    {
        if has_char(name.as_str(), ' ') {
            return Err(ParseError::InvalidName);
        }
        let parts = split_on_space(ty_name.as_str());
        let ghost ws = split_spaces(ty_name@);
        proof {
            crate::text::lemma_split_nonempty(ty_name@, Seq::empty());
            assert(parts.deep_view().len() == parts@.len());
            assert(parts@.len() >= 1);
        }
        if parts.len() == 1 {
            Ok(Element { ty_name, is_array: false, name })
        } else if parts.len() == 3 && str_eq(parts[0].as_str(), "array") && str_eq(
            parts[1].as_str(),
            "of",
        ) {
            let ty = parts[2].clone();
            proof {
                assert(ws[2] == parts@[2]@);
            }
            Ok(Element { ty_name: ty, is_array: true, name })
        } else {
            let enum_of = parts.len() == 3 && str_eq(parts[0].as_str(), "enum") && str_eq(
                parts[1].as_str(),
                "of",
            );
            let mut has_or = false;
            let mut i: usize = 1;
            while i < parts.len()
                invariant
                    1 <= i <= parts@.len(),
                    parts.deep_view().len() == parts@.len(),
                    ws == parts.deep_view(),
                    has_or == exists|j: int| 1 <= j < i && ws[j] == "or"@,
                decreases parts@.len() - i,
            {
                if str_eq(parts[i].as_str(), "or") {
                    proof {
                        assert(ws[i as int] == parts@[i as int]@);
                        assert(exists|j: int| 1 <= j < i + 1 && ws[j] == "or"@);
                    }
                    has_or = true;
                }
                i += 1;
            }
            if enum_of || has_or {
                Ok(Element { ty_name: "object".to_owned(), is_array: false, name })
            } else {
                Err(ParseError::UnsupportedType)
            }
        }
    }

    /// The field's resolved type, spelled as the host language spells it.
    pub fn rustify_type(&self) -> (r: &str)
        ensures
            r@ == rustify_spec(self@.ty_name),
    {
        if str_eq(self.ty_name.as_str(), "integer") {
            "isize"
        } else if str_eq(self.ty_name.as_str(), "number") {
            "f64"
        } else if str_eq(self.ty_name.as_str(), "boolean") {
            "bool"
        } else if str_eq(self.ty_name.as_str(), "string") {
            "&str"
        } else {
            self.ty_name.as_str()
        }
    }

    pub fn is_array(&self) -> (r: bool)
        ensures
            r == self@.is_array,
    {
        self.is_array
    }

    pub fn name(&self) -> (r: &str)
        ensures
            r@ == self@.name,
    {
        self.name.as_str()
    }
}

impl Argument {
    pub fn new_element(element: Element, optioned: bool) -> (r: Argument)
        ensures
            r@ == (ArgV { kind: ArgKindV::Element(element@), optioned }),
    {
        Argument { kind: ArgumentKind::Element { element }, optioned }
    }

    pub fn new_callback(callback: Method, optioned: bool) -> (r: Argument)
        ensures
            r@ == (ArgV { kind: ArgKindV::Callback(callback@), optioned }),
    {
        Argument { kind: ArgumentKind::Callback { callback }, optioned }
    }

    pub fn is_optional(&self) -> (r: bool)
        ensures
            r == self@.optioned,
    {
        self.optioned
    }

    pub fn kind(&self) -> (r: &ArgumentKind)
        ensures
            arg_kind_v(*r) == self@.kind,
    {
        &self.kind
    }
}

impl Method {
    pub fn new(name: String, args: Vec<Argument>) -> (r: Method)
        ensures
            r@ == (MethodV { name: name@, args: args_v(args@) }),
    {
        Method { name, args }
    }

    pub fn name(&self) -> (r: &str)
        ensures
            r@ == self@.name,
    {
        self.name.as_str()
    }

    pub fn args(&self) -> (r: &[Argument])
        ensures
            args_v(r@) == self@.args,
    {
        self.args.as_slice()
    }
}

/// The method a folded event contributes to its surrounding type: the
/// listener signature under the name `<event>.<listener>`.
pub open spec fn fold_event_method(e: EventV) -> MethodV {
    MethodV { name: e.event_name + "."@ + e.add_listener.name, args: e.add_listener.args }
}

/// The methods a sequence of events folds into, in order.
pub open spec fn events_methods_v(s: Seq<Event>) -> Seq<MethodV> {
    s.map_values(|e: Event| fold_event_method(e@))
}

impl Type {
    pub fn new_enum(name: String) -> (r: Type)
        ensures
            r@ == (TypeV { name: name@, kind: TypeKindV::Enum }),
    {
        Type { name, kind: TypeKind::Enum }
    }

    pub fn new_data(name: String) -> (r: Type)
        ensures
            r@ == (TypeV { name: name@, kind: TypeKindV::Data }),
    {
        Type { name, kind: TypeKind::Data }
    }

    /// Builds a structured record, folding each event into a method named
    /// `<event>.<listener>` appended after the declared methods.
    pub fn new_struct(
        name: String,
        elements: Vec<Element>,
        optional_elements: Vec<Element>,
        mut methods: Vec<Method>,
        mut events: Vec<Event>,
    ) -> (r: Type)
        ensures
            r@ == (TypeV {
                name: name@,
                kind: TypeKindV::Struct {
                    elements: elems_v(elements@),
                    optional_elements: elems_v(optional_elements@),
                    methods: methods_v(methods@) + events_methods_v(events@),
                },
            }),
    {
        let ghost mv0 = methods_v(methods@);
        let ghost ev0 = events@;
        proof {
            assert(events_v(ev0).subrange(0, 0) =~= Seq::<EventV>::empty());
            assert(methods_v(methods@) =~= mv0 + events_methods_v(ev0).subrange(0, 0));
        }
        while events.len() > 0
            invariant
                events@.len() <= ev0.len(),
                methods_v(methods@) == mv0 + events_methods_v(ev0).subrange(
                    0,
                    ev0.len() - events@.len(),
                ),
                events@ =~= ev0.subrange(ev0.len() - events@.len(), ev0.len() as int),
            decreases events@.len(),
        {
            let ghost k = ev0.len() - events@.len();
            let e = events.remove(0);
            proof {
                assert(e == ev0[k]);
            }
            let listener_name = e.add_listener.name;
            let nm = e.event_name.concat(".").concat(listener_name.as_str());
            let m = Method { name: nm, args: e.add_listener.args };
            proof {
                assert(m@ == fold_event_method(ev0[k]@));
            }
            let ghost mvs = methods_v(methods@);
            methods.push(m);
            proof {
                assert(methods_v(methods@) =~= mvs.push(m@));
                assert(events_methods_v(ev0).subrange(0, k + 1) =~= events_methods_v(
                    ev0,
                ).subrange(0, k).push(fold_event_method(ev0[k]@)));
                assert(mvs.push(m@) =~= mv0 + events_methods_v(ev0).subrange(0, k + 1));
                assert(events@ =~= ev0.subrange(k + 1, ev0.len() as int));
            }
        }
        proof {
            assert(events_methods_v(ev0).subrange(0, ev0.len() as int) =~= events_methods_v(ev0));
        }
        Type {
            name,
            kind: TypeKind::Struct { elements, optional_elements, methods },
        }
    }

    pub fn name(&self) -> (r: &str)
        ensures
            r@ == self@.name,
    {
        self.name.as_str()
    }

    pub fn kind(&self) -> (r: &TypeKind)
        ensures
            kind_v(*r) == self@.kind,
    {
        &self.kind
    }
}

impl Event {
    pub fn new(event_name: String, add_listener: Method) -> (r: Event)
        ensures
            r@ == (EventV { event_name: event_name@, add_listener: add_listener@ }),
    {
        Event { event_name, add_listener }
    }

    /// The property an event becomes in the public schema: an object-valued
    /// property whose sole method is the listener registration.
    pub fn into_property(self) -> (r: Property)
        ensures
            r@ == event_prop(self@),
    {
        let ms = vec![self.add_listener];
        proof {
            assert(methods_v(ms@) =~= seq![self.add_listener@]);
        }
        Property { name: self.event_name, kind: PropertyKind::Object { methods: ms } }
    }
}

/// The property an event folds into.
pub open spec fn event_prop(e: EventV) -> PropV {
    PropV { name: e.event_name, kind: PropKindV::Object(seq![e.add_listener]) }
}

/// The properties a sequence of events folds into, in order.
pub open spec fn events_props_v(s: Seq<Event>) -> Seq<PropV> {
    s.map_values(|e: Event| event_prop(e@))
}

impl Property {
    pub fn new_immediate(name: String, ty_name: String) -> (r: Property)
        ensures
            r@ == (PropV { name: name@, kind: PropKindV::Immediate(ty_name@) }),
    {
        Property { name, kind: PropertyKind::Immediate { ty_name } }
    }

    pub fn new_object(name: String, methods: Vec<Method>) -> (r: Property)
        ensures
            r@ == (PropV { name: name@, kind: PropKindV::Object(methods_v(methods@)) }),
    {
        Property { name, kind: PropertyKind::Object { methods } }
    }

    pub fn name(&self) -> (r: &str)
        ensures
            r@ == self@.name,
    {
        self.name.as_str()
    }

    pub fn kind(&self) -> (r: &PropertyKind)
        ensures
            prop_kind_v(*r) == self@.kind,
    {
        &self.kind
    }
}

impl Namespace {
    /// Assembles the schema for one page, folding each event into an
    /// object-valued property appended after the declared properties.
    pub fn new(
        name: String,
        types: Vec<Type>,
        mut properties: Vec<Property>,
        methods: Vec<Method>,
        mut events: Vec<Event>,
    ) -> (r: Namespace)
        ensures
            r@ == (NamespaceV {
                name: name@,
                types: types_v(types@),
                properties: props_v(properties@) + events_props_v(events@),
                methods: methods_v(methods@),
            }),
    {
        let ghost pv0 = props_v(properties@);
        let ghost ev0 = events@;
        proof {
            assert(props_v(properties@) =~= pv0 + events_props_v(ev0).subrange(0, 0));
        }
        while events.len() > 0
            invariant
                events@.len() <= ev0.len(),
                props_v(properties@) == pv0 + events_props_v(ev0).subrange(
                    0,
                    ev0.len() - events@.len(),
                ),
                events@ =~= ev0.subrange(ev0.len() - events@.len(), ev0.len() as int),
            decreases events@.len(),
        {
            let ghost k = ev0.len() - events@.len();
            let e = events.remove(0);
            proof {
                assert(e == ev0[k]);
            }
            let p = e.into_property();
            let ghost pvs = props_v(properties@);
            properties.push(p);
            proof {
                assert(props_v(properties@) =~= pvs.push(p@));
                assert(events_props_v(ev0).subrange(0, k + 1) =~= events_props_v(ev0).subrange(
                    0,
                    k,
                ).push(event_prop(ev0[k]@)));
                assert(pvs.push(p@) =~= pv0 + events_props_v(ev0).subrange(0, k + 1));
                assert(events@ =~= ev0.subrange(k + 1, ev0.len() as int));
            }
        }
        proof {
            assert(events_props_v(ev0).subrange(0, ev0.len() as int) =~= events_props_v(ev0));
        }
        Namespace { name, types, properties, methods }
    }

    pub fn name(&self) -> (r: &str)
        ensures
            r@ == self@.name,
    {
        self.name.as_str()
    }

    pub fn types(&self) -> (r: &[Type])
        ensures
            types_v(r@) == self@.types,
    {
        self.types.as_slice()
    }

    pub fn properties(&self) -> (r: &[Property])
        ensures
            props_v(r@) == self@.properties,
    {
        self.properties.as_slice()
    }

    pub fn methods(&self) -> (r: &[Method])
        ensures
            methods_v(r@) == self@.methods,
    {
        self.methods.as_slice()
    }
}

} // verus!
