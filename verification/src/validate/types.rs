//! Rules on the types that declarations name.

use vstd::prelude::*;
use crate::ast;
use crate::ast::{
    BuiltinType, ComplexContent, ComplexContentModel, ElementDecl, ElementDeclModel,
    GlobalElement, GlobalElementModel, GroupDecl, GroupDeclModel, Particle, ParticleModel,
    RestrictionBase, RestrictionBaseModel, SchemaDocument, SchemaDocumentModel, SimpleBase,
    SimpleBaseModel, TypeDef, TypeDefModel, TypeName,
};
use crate::error;
use crate::error::{cat2, cat3, invalid_property, Error, ErrorModel, SchemaError};
use crate::props;
use crate::qname;
use crate::qname::{get_global_element, opt_str, resolve_type_qname_in_schema, uri_in_scope};
use crate::strmap;
use crate::strmap::StrMap;
use crate::text;
use crate::text::{chars_of, contains, contains_char, eq, split_once, starts_with, string_of};
use crate::validate::peek::default_value_of;
use crate::validate::reach;
use crate::validate::reach::{
    content_particles, find_group, group_particles, lemma_inside, types_reachable_from_root,
};
use crate::values::owned;

verus! {

broadcast use vstd::string::group_string_axioms;

/// The outcome of a check.
pub open spec fn fault_of(r: Result<(), Error>) -> Option<ErrorModel> {
    match r {
        Ok(_) => None,
        Err(x) => Some(x@),
    }
}

/// The error of a schema that breaks a rule.
pub open spec fn broken_rule(message: Seq<char>) -> ErrorModel {
    ErrorModel::InvalidProperty(message)
}

/// The scope of the namespaces of a type's name.
pub fn opt_map<'a>(m: &'a Option<StrMap<String>>) -> (r: Option<&'a StrMap<String>>)
    ensures
        props::vars_view(r) == m.deep_view(),
{
    match m {
        Some(s) => Some(s),
        None => None,
    }
}

/// Whether the prefix of a type's name stands for the namespace of XML Schema.
pub open spec fn uses_xsd(
    schema: SchemaDocumentModel,
    q: Seq<char>,
    scope: Option<Seq<(Seq<char>, Seq<char>)>>,
) -> bool {
    match text::split_once_spec(q, ':') {
        None => false,
        Some((prefix, _)) => qname::scoped_uri(schema, scope, prefix) == Some(qname::XSD_NS@),
    }
}

/// Whether the prefix of a type's name stands for the namespace of XML Schema.
pub fn type_qname_uses_xsd_namespace(
    schema: &SchemaDocument,
    type_attr: &str,
    scope: Option<&StrMap<String>>,
) -> (r: bool)
    ensures
        r == uses_xsd(schema@, type_attr@, props::vars_view(scope)),
{
    let c = chars_of(type_attr);
    match split_once(c.as_slice(), ':') {
        None => false,
        Some((prefix, _)) => {
            let p = string_of(prefix);
            match uri_in_scope(schema, scope, p.as_str()) {
                Some(uri) => eq(uri.as_str(), qname::XSD_NS),
                None => false,
            }
        },
    }
}

/// Why a type's name that claims to be one of XML Schema is none.
pub open spec fn qname_fault(
    schema: SchemaDocumentModel,
    q: Option<Seq<char>>,
    scope: Option<Seq<(Seq<char>, Seq<char>)>>,
) -> Option<ErrorModel> {
    match q {
        Some(name) if uses_xsd(schema, name, scope) => match qname::type_of_qname(
            schema,
            name,
            scope,
        ) {
            Err(x) => Some(x),
            Ok(_) => None,
        },
        _ => None,
    }
}

pub fn check_qname(schema: &SchemaDocument, q: Option<&str>, scope: Option<&StrMap<String>>) -> (r:
    Result<(), Error>)
    ensures
        fault_of(r) == qname_fault(schema@, text::ref_opt(q), props::vars_view(scope)),
{
    if let Some(name) = q {
        if type_qname_uses_xsd_namespace(schema, name, scope) {
            if let Err(x) = resolve_type_qname_in_schema(schema, name, scope) {
                return Err(x);
            }
        }
    }
    Ok(())
}

/// The global element that an element refers to.
pub open spec fn referred(schema: SchemaDocumentModel, e: ElementDeclModel) -> Option<
    GlobalElementModel,
> {
    match e.element_ref {
        Some(r) => qname::global_element(schema, r),
        None => None,
    }
}

/// The global element that an element refers to.
pub fn find_referred<'a>(schema: &'a SchemaDocument, e: &ElementDecl) -> (r: Option<
    &'a GlobalElement,
>)
    ensures
        match r {
            Some(g) => referred(schema@, e@) == Some(g@),
            None => referred(schema@, e@) is None,
        },
{
    match &e.element_ref {
        Some(r) => get_global_element(schema, r.as_str()),
        None => None,
    }
}

/// Why the type's name of an element claims to be one of XML Schema and is none.
/// An element without one has that of the element it refers to.
pub open spec fn element_qname_fault(schema: SchemaDocumentModel, e: ElementDeclModel) -> Option<
    ErrorModel,
> {
    match e.type_xsd_qname {
        Some(q) => qname_fault(schema, Some(q), e.type_qname_scope),
        None => match referred(schema, e) {
            Some(g) => qname_fault(schema, g.type_xsd_qname, g.type_qname_scope),
            None => None,
        },
    }
}

fn check_element_qname(schema: &SchemaDocument, e: &ElementDecl) -> (r: Result<(), Error>)
    ensures
        fault_of(r) == element_qname_fault(schema@, e@),
{
    match &e.type_xsd_qname {
        Some(q) => check_qname(schema, Some(q.as_str()), opt_map(&e.type_qname_scope)),
        None => match find_referred(schema, e) {
            Some(g) => check_qname(
                schema,
                opt_str(&g.type_xsd_qname),
                opt_map(&g.type_qname_scope),
            ),
            None => Ok(()),
        },
    }
}

/// The first such element from `i` on, in sequences, choices and groups too.
pub open spec fn list_qname_fault(
    schema: SchemaDocumentModel,
    list: Seq<ParticleModel>,
    i: nat,
    depth: nat,
) -> Option<ErrorModel>
    decreases depth, list, list.len() - i,
{
    if i >= list.len() {
        None
    } else {
        let here = match list[i as int] {
            ParticleModel::Element(e) => element_qname_fault(schema, e),
            ParticleModel::Sequence(s) => list_qname_fault(schema, s.particles, 0, depth),
            ParticleModel::Choice(c) => list_qname_fault(schema, c.branches, 0, depth),
            ParticleModel::GroupRef(g) => match reach::group_named(schema, g.name) {
                Some(d) if depth > 0 => list_qname_fault(
                    schema,
                    reach::group_list(d),
                    0,
                    (depth - 1) as nat,
                ),
                _ => None,
            },
        };
        match here {
            Some(x) => Some(x),
            None => list_qname_fault(schema, list, i + 1, depth),
        }
    }
}

/// Checks the types' names of elements in a list.
pub fn check_list_qnames(schema: &SchemaDocument, list: &Vec<Particle>, depth: usize) -> (r: Result<
    (),
    Error,
>)
    ensures
        fault_of(r) == list_qname_fault(
            schema@,
            ast::particle_models(*list),
            0,
            depth as nat,
        ),
    decreases depth, ast::particle_models(*list),
{
    let ghost all = ast::particle_models(*list);
    let mut i: usize = 0;
    while i < list.len()
        invariant
            i <= list@.len(),
            all == ast::particle_models(*list),
            list_qname_fault(schema@, all, 0, depth as nat) == list_qname_fault(
                schema@,
                all,
                i as nat,
                depth as nat,
            ),
        decreases list@.len() - i,
    {
        proof {
            lemma_inside(*list, i as int);
        }
        match &list[i] {
            Particle::Element(e) => {
                check_element_qname(schema, e)?;
            },
            Particle::Sequence(s) => {
                check_list_qnames(schema, &s.particles, depth)?;
            },
            Particle::Choice(c) => {
                check_list_qnames(schema, &c.branches, depth)?;
            },
            Particle::GroupRef(g) => {
                if depth > 0 {
                    if let Some(d) = find_group(schema, g.name.as_str()) {
                        check_list_qnames(schema, group_particles(d), depth - 1)?;
                    }
                }
            },
        }
        i += 1;
    }
    Ok(())
}

// References to types.
/// Whether a schema declares elements without a prefix and names this type in one.
pub open spec fn names_unprefixed(source: Option<Seq<char>>, t: Seq<char>) -> bool {
    match source {
        Some(s) => text::contains_spec(s, "<element "@) && !text::contains_spec(s, "<xs:element"@)
            && text::contains_spec(s, "type=\""@ + t + "\""@),
        None => false,
    }
}

/// The error for a type that is not defined.
pub open spec fn unresolved(t: Seq<char>) -> ErrorModel {
    broken_rule("Schema Definition Error: Error resolving component '"@ + t + "'"@)
}

/// Whether a type's name leads to a type of the schema.
pub open spec fn leads_to_type(
    schema: SchemaDocumentModel,
    t: Seq<char>,
    scope: Option<Seq<(Seq<char>, Seq<char>)>>,
) -> bool {
    match qname::type_of_qname(schema, t, scope) {
        Ok(name) => reach::type_named(schema, name) is Some,
        Err(_) => false,
    }
}

/// Why the type of a global element is not defined.
pub open spec fn reference_fault(schema: SchemaDocumentModel, g: GlobalElementModel) -> Option<
    ErrorModel,
> {
    let t = g.type_ref;
    if g.type_qname_prefixed || t.contains(':') || text::has_prefix(t, "xs:"@) || text::has_prefix(
        t,
        "__inline_"@,
    ) {
        None
    } else if reach::type_named(schema, t) is Some {
        if names_unprefixed(schema.schema_source_text, t) {
            Some(unresolved(t))
        } else {
            None
        }
    } else if leads_to_type(schema, t, g.type_qname_scope) {
        None
    } else {
        Some(unresolved(t))
    }
}

fn names_type_unprefixed(schema: &SchemaDocument, t: &str) -> (r: bool)
    ensures
        r == names_unprefixed(schema@.schema_source_text, t@),
{
    reveal(crate::ast::document_model);
    match &schema.schema_source_text {
        Some(s) => {
            let c = chars_of(s.as_str());
            let attribute = cat3("type=\"", t, "\"");
            let prefixed = contains(c.as_slice(), "<xs:element");
            contains(c.as_slice(), "<element ") && !prefixed && contains(
                c.as_slice(),
                attribute.as_str(),
            )
        },
        None => false,
    }
}

fn check_reference(schema: &SchemaDocument, g: &GlobalElement) -> (r: Result<(), Error>)
    ensures
        fault_of(r) == reference_fault(schema@, g@),
{
    let t = g.type_ref.as_str();
    let c = chars_of(t);
    if g.type_qname_prefixed || contains_char(c.as_slice(), ':') || starts_with(c.as_slice(), "xs:")
        || starts_with(c.as_slice(), "__inline_") {
        return Ok(());
    }
    if schema.resolve_type(&g.type_ref).is_some() {
        if names_type_unprefixed(schema, t) {
            return Err(
                invalid_property(
                    cat3("Schema Definition Error: Error resolving component '", t, "'"),
                ),
            );
        }
        return Ok(());
    }
    if let Ok(name) = resolve_type_qname_in_schema(schema, t, opt_map(&g.type_qname_scope)) {
        if schema.resolve_type(&name).is_some() {
            return Ok(());
        }
    }
    Err(invalid_property(cat3("Schema Definition Error: Error resolving component '", t, "'")))
}

/// The first global element from `i` on whose type is not defined.
pub open spec fn references_fault_from(schema: SchemaDocumentModel, i: nat) -> Option<ErrorModel>
    decreases schema.global_elements.len() - i,
{
    if i >= schema.global_elements.len() {
        None
    } else {
        match reference_fault(schema, schema.global_elements[i as int].1) {
            Some(x) => Some(x),
            None => references_fault_from(schema, i + 1),
        }
    }
}

/// Why a schema with a target namespace names a type that is not defined.
pub open spec fn references_fault(schema: SchemaDocumentModel) -> Option<ErrorModel> {
    if schema.target_namespace is None {
        None
    } else {
        references_fault_from(schema, 0)
    }
}

/// The types of global elements are defined.
pub fn validate_type_references(schema: &SchemaDocument) -> (r: Result<(), Error>)
    ensures
        fault_of(r) == references_fault(schema@),
{
    reveal(crate::ast::document_model);
    if schema.target_namespace.is_none() {
        return Ok(());
    }
    let mut i: usize = 0;
    while i < schema.global_elements.entries.len()
        invariant
            i <= schema.global_elements.entries@.len(),
            schema@.target_namespace is Some,
            references_fault_from(schema@, 0) == references_fault_from(schema@, i as nat),
        decreases schema.global_elements.entries@.len() - i,
    {
        reveal(crate::ast::document_model);
        assert(schema@.global_elements[i as int]
            == schema.global_elements.entries@[i as int].deep_view());
        check_reference(schema, &schema.global_elements.entries[i].1)?;
        i += 1;
    }
    Ok(())
}

// The bases of restrictions.
/// The error for a base that XML Schema does not define, with the file of the type.
pub open spec fn base_error(message: Seq<char>, label: Option<Seq<char>>) -> Seq<char> {
    let m = if text::contains_spec(message, "Schema Definition Error:"@) {
        message
    } else {
        "Schema Definition Error: "@ + message
    };
    match label {
        Some(l) => m + "\n"@ + l,
        None => m,
    }
}

/// The name of a base with a prefix.
pub open spec fn prefixed_base(parent: Seq<char>) -> Seq<char> {
    if parent.contains(':') {
        parent
    } else {
        "xs:"@ + parent
    }
}

/// Why the base of a simple type that restricts is not defined.
pub open spec fn base_fault(schema: SchemaDocumentModel, name: Seq<char>, left: nat) -> Option<
    ErrorModel,
>
    decreases left,
{
    match reach::type_named(schema, name) {
        Some(
            TypeDefModel::Simple {
                base: SimpleBaseModel::Restriction { base: RestrictionBaseModel::Named(parent), .. },
                source_label,
                ..
            },
        ) => if reach::type_named(schema, parent) is Some {
            if left == 0 {
                None
            } else {
                base_fault(schema, parent, (left - 1) as nat)
            }
        } else if ast::builtin_spec(parent) is Some {
            None
        } else {
            let q = prefixed_base(parent);
            if !text::has_prefix(q, "xs:"@) {
                None
            } else {
                match qname::type_of_qname(schema, q, None) {
                    Ok(_) => None,
                    Err(ErrorModel::InvalidProperty(m)) => Some(
                        broken_rule(base_error(m, source_label)),
                    ),
                    Err(x) => Some(x),
                }
            }
        },
        _ => None,
    }
}

fn restriction_parent<'a>(t: &'a TypeDef) -> (r: Option<(&'a TypeName, &'a Option<String>)>)
    ensures
        match r {
            Some((p, l)) => t.deep_view() matches TypeDefModel::Simple {
                base: SimpleBaseModel::Restriction { base: RestrictionBaseModel::Named(parent), .. },
                source_label,
                ..
            } && parent == p@ && source_label == l.deep_view(),
            None => !(t.deep_view() matches TypeDefModel::Simple {
                base: SimpleBaseModel::Restriction { base: RestrictionBaseModel::Named(parent), .. },
                ..
            }),
        },
{
    match t {
        TypeDef::Simple { base, source_label, .. } => match base {
            SimpleBase::Restriction { base: RestrictionBase::Named(parent), .. } => Some(
                (parent, source_label),
            ),
            _ => None,
        },
        _ => None,
    }
}

fn explain_base(x: Error, label: &Option<String>) -> (r: Error)
    ensures
        r@ == (match x@ {
            ErrorModel::InvalidProperty(m) => broken_rule(base_error(m, label.deep_view())),
            y => y,
        }),
{
    match x {
        Error::Schema(SchemaError::InvalidProperty { message }) => {
            let c = chars_of(message.as_str());
            let m = if contains(c.as_slice(), "Schema Definition Error:") {
                message
            } else {
                cat2("Schema Definition Error: ", message.as_str())
            };
            match label {
                Some(l) => invalid_property(cat3(m.as_str(), "\n", l.as_str())),
                None => invalid_property(m),
            }
        },
        other => other,
    }
}

fn check_base(schema: &SchemaDocument, name: &TypeName, left: usize) -> (r: Result<(), Error>)
    ensures
        fault_of(r) == base_fault(schema@, name@, left as nat),
    decreases left,
{
    let t = match schema.resolve_type(name) {
        Some(t) => t,
        None => {
            return Ok(());
        },
    };
    let (parent, label) = match restriction_parent(t) {
        Some(p) => p,
        None => {
            return Ok(());
        },
    };
    if schema.resolve_type(parent).is_some() {
        if left == 0 {
            return Ok(());
        }
        return check_base(schema, parent, left - 1);
    }
    if BuiltinType::from_xsd(parent.as_str()).is_some() {
        return Ok(());
    }
    let c = chars_of(parent.as_str());
    let q = if contains_char(c.as_slice(), ':') {
        owned(parent.as_str())
    } else {
        cat2("xs:", parent.as_str())
    };
    let qc = chars_of(q.as_str());
    if !starts_with(qc.as_slice(), "xs:") {
        return Ok(());
    }
    match resolve_type_qname_in_schema(schema, q.as_str(), None) {
        Ok(_) => Ok(()),
        Err(x) => Err(explain_base(x, label)),
    }
}

/// The first of these types from `i` on whose base is not defined.
pub open spec fn bases_fault_from(
    schema: SchemaDocumentModel,
    names: Seq<(Seq<char>, bool)>,
    i: nat,
) -> Option<ErrorModel>
    decreases names.len() - i,
{
    if i >= names.len() {
        None
    } else {
        match base_fault(schema, names[i as int].0, schema.types.len()) {
            Some(x) => Some(x),
            None => bases_fault_from(schema, names, i + 1),
        }
    }
}

/// The bases of the simple types that are reached from the root are defined.
pub fn validate_simple_restriction_bases(schema: &SchemaDocument, root: &str) -> (r: Result<
    (),
    Error,
>)
    ensures
        fault_of(r) == bases_fault_from(schema@, reach::reachable(schema@, root@), 0),
{
    reveal(crate::ast::document_model);
    let names = types_reachable_from_root(schema, root);
    let ghost all = names@;
    let mut i: usize = 0;
    assert(schema@.types.len() == schema.types.entries@.len());
    while i < names.entries.len()
        invariant
            i <= names.entries@.len(),
            all == names@,
            all == reach::reachable(schema@, root@),
            schema@.types.len() == schema.types.entries@.len(),
            bases_fault_from(schema@, all, 0) == bases_fault_from(schema@, all, i as nat),
        decreases names.entries@.len() - i,
    {
        reveal(crate::ast::document_model);
        assert(all[i as int] == names.entries@[i as int].deep_view());
        let tn = TypeName::new(names.entries[i].0.as_str());
        check_base(schema, &tn, schema.types.len())?;
        i += 1;
    }
    Ok(())
}

// Elements in every list of particles.
/// The first element from `i` on that breaks one of two rules: it may not have a
/// name beside a reference, and its default must fit its type.
pub open spec fn elements_fault(list: Seq<ParticleModel>, i: nat, defaults: bool) -> Option<
    ErrorModel,
>
    decreases list.len() - i,
{
    if i >= list.len() {
        None
    } else {
        let here = match list[i as int] {
            ParticleModel::Element(e) => if defaults {
                default_fault(e.type_ref, e.props.occurs.default_value)
            } else {
                name_ref_fault(e)
            },
            _ => None,
        };
        match here {
            Some(x) => Some(x),
            None => elements_fault(list, i + 1, defaults),
        }
    }
}

/// Why an element has a name beside a reference.
pub open spec fn name_ref_fault(e: ElementDeclModel) -> Option<ErrorModel> {
    if e.element_ref is Some && e.has_element_name_attr {
        Some(
            broken_rule(
                "Schema Definition Error: name and type attributes cannot appear together with ref attribute"@,
            ),
        )
    } else {
        None
    }
}

/// Why a default does not fit its type.
pub open spec fn default_fault(t: Seq<char>, value: Option<Seq<char>>) -> Option<ErrorModel> {
    match value {
        Some(d) if (t == "xs:boolean"@ || t == "boolean"@) && d != "true"@ && d != "false"@ && d
            != "1"@ && d != "0"@ => Some(
            broken_rule(
                "Schema Definition Error: Invalid value constraint value '"@ + d
                    + "' for type xs:boolean"@,
            ),
        ),
        _ => None,
    }
}

fn check_default(t: &TypeName, value: Option<&str>) -> (r: Result<(), Error>)
    ensures
        fault_of(r) == default_fault(t@, text::ref_opt(value)),
{
    if let Some(d) = value {
        if eq(t.as_str(), "xs:boolean") || eq(t.as_str(), "boolean") {
            let known = eq(d, "true") || eq(d, "false") || eq(d, "1") || eq(d, "0");
            if !known {
                return Err(
                    invalid_property(
                        cat3(
                            "Schema Definition Error: Invalid value constraint value '",
                            d,
                            "' for type xs:boolean",
                        ),
                    ),
                );
            }
        }
    }
    Ok(())
}

fn check_elements(list: &Vec<Particle>, defaults: bool) -> (r: Result<(), Error>)
    ensures
        fault_of(r) == elements_fault(ast::particle_models(*list), 0, defaults),
{
    let ghost all = ast::particle_models(*list);
    let mut i: usize = 0;
    while i < list.len()
        invariant
            i <= list@.len(),
            all == ast::particle_models(*list),
            elements_fault(all, 0, defaults) == elements_fault(all, i as nat, defaults),
        decreases list@.len() - i,
    {
        assert(all[i as int] == list@[i as int].model());
        if let Particle::Element(e) = &list[i] {
            if defaults {
                check_default(&e.type_ref, default_value_of(&e.props))?;
            } else if e.element_ref.is_some() && e.has_element_name_attr {
                return Err(
                    invalid_property(
                        owned(
                            "Schema Definition Error: name and type attributes cannot appear together with ref attribute",
                        ),
                    ),
                );
            }
        }
        i += 1;
    }
    Ok(())
}

/// The first type from `i` on with an element that breaks one of the two rules.
pub open spec fn types_elements_fault(
    types: Seq<(Seq<char>, TypeDefModel)>,
    i: nat,
    defaults: bool,
) -> Option<ErrorModel>
    decreases types.len() - i,
{
    if i >= types.len() {
        None
    } else {
        let here = match types[i as int].1 {
            TypeDefModel::Complex { content, .. } => elements_fault(
                reach::content_list(content),
                0,
                defaults,
            ),
            _ => None,
        };
        match here {
            Some(x) => Some(x),
            None => types_elements_fault(types, i + 1, defaults),
        }
    }
}

/// The first group from `i` on with an element that breaks one of the two rules.
pub open spec fn groups_elements_fault(
    groups: Seq<(Seq<char>, GroupDeclModel)>,
    i: nat,
    defaults: bool,
) -> Option<ErrorModel>
    decreases groups.len() - i,
{
    if i >= groups.len() {
        None
    } else {
        match elements_fault(reach::group_list(groups[i as int].1), 0, defaults) {
            Some(x) => Some(x),
            None => groups_elements_fault(groups, i + 1, defaults),
        }
    }
}

/// Why an element of a type or of a group breaks one of the two rules.
pub open spec fn all_elements_fault(schema: SchemaDocumentModel, defaults: bool) -> Option<
    ErrorModel,
> {
    match types_elements_fault(schema.types, 0, defaults) {
        Some(x) => Some(x),
        None => groups_elements_fault(schema.groups, 0, defaults),
    }
}

fn check_all_elements(schema: &SchemaDocument, defaults: bool) -> (r: Result<(), Error>)
    ensures
        fault_of(r) == all_elements_fault(schema@, defaults),
{
    reveal(crate::ast::document_model);
    let mut i: usize = 0;
    while i < schema.types.entries.len()
        invariant
            i <= schema.types.entries@.len(),
            types_elements_fault(schema@.types, 0, defaults) == types_elements_fault(
                schema@.types,
                i as nat,
                defaults,
            ),
        decreases schema.types.entries@.len() - i,
    {
        reveal(crate::ast::document_model);
        assert(schema@.types[i as int] == schema.types.entries@[i as int].deep_view());
        if let TypeDef::Complex { content, .. } = &schema.types.entries[i].1 {
            if let Some(l) = content_particles(content) {
                check_elements(l, defaults)?;
            }
        }
        i += 1;
    }
    let mut k: usize = 0;
    while k < schema.groups.entries.len()
        invariant
            k <= schema.groups.entries@.len(),
            types_elements_fault(schema@.types, 0, defaults) is None,
            groups_elements_fault(schema@.groups, 0, defaults) == groups_elements_fault(
                schema@.groups,
                k as nat,
                defaults,
            ),
        decreases schema.groups.entries@.len() - k,
    {
        reveal(crate::ast::document_model);
        assert(schema@.groups[k as int] == schema.groups.entries@[k as int].deep_view());
        check_elements(group_particles(&schema.groups.entries[k].1), defaults)?;
        k += 1;
    }
    Ok(())
}

/// No element has a name beside a reference.
pub fn validate_name_and_ref(schema: &SchemaDocument) -> (r: Result<(), Error>)
    ensures
        fault_of(r) == all_elements_fault(schema@, false),
{
    check_all_elements(schema, false)
}

/// The first global element from `i` on whose default does not fit its type.
pub open spec fn globals_default_fault(
    globals: Seq<(Seq<char>, GlobalElementModel)>,
    i: nat,
) -> Option<ErrorModel>
    decreases globals.len() - i,
{
    if i >= globals.len() {
        None
    } else {
        let g = globals[i as int].1;
        match default_fault(g.type_ref, g.props.occurs.default_value) {
            Some(x) => Some(x),
            None => globals_default_fault(globals, i + 1),
        }
    }
}

/// Why a default does not fit the type of its element.
pub open spec fn defaults_fault(schema: SchemaDocumentModel) -> Option<ErrorModel> {
    match globals_default_fault(schema.global_elements, 0) {
        Some(x) => Some(x),
        None => all_elements_fault(schema, true),
    }
}

/// The defaults of elements fit their types.
pub fn validate_element_default_values(schema: &SchemaDocument) -> (r: Result<(), Error>)
    ensures
        fault_of(r) == defaults_fault(schema@),
{
    reveal(crate::ast::document_model);
    let mut i: usize = 0;
    while i < schema.global_elements.entries.len()
        invariant
            i <= schema.global_elements.entries@.len(),
            globals_default_fault(schema@.global_elements, 0) == globals_default_fault(
                schema@.global_elements,
                i as nat,
            ),
        decreases schema.global_elements.entries@.len() - i,
    {
        reveal(crate::ast::document_model);
        assert(schema@.global_elements[i as int]
            == schema.global_elements.entries@[i as int].deep_view());
        let g = &schema.global_elements.entries[i].1;
        check_default(&g.type_ref, default_value_of(&g.props))?;
        i += 1;
    }
    check_all_elements(schema, true)
}

} // verus!
