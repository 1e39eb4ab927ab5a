//! What a schema reader knows while it reads, and the rules that need only that.

use vstd::prelude::*;
use crate::ast::{
    DfdlProps, DfdlPropsModel, FormatDefaultsModel, GlobalElement, GlobalElementModel,
    OccursPropsModel, SchemaDocument, SchemaDocumentModel, StatementPropsModel, TextPropsModel,
};
use crate::attrs;
use crate::attrs::merge_occurs;
use crate::merge;
use crate::merge::merge_dfdl_props;
use crate::qname;
use crate::qname::{
    format_storage_key, lookup_named_format_in_document, normalize_qname, opt_str,
};
use crate::resolver::{SchemaResolver, SchemaResolverModel};
use crate::strmap;
use crate::strmap::StrMap;
use crate::text;
use crate::text::{chars_of, eq, is, split_once, string_of, words};
use crate::ast;
use crate::values;
use crate::values::{owned, Duplicate};

verus! {

/// A schema reader.
pub struct XsdParser {
    pub doc: SchemaDocument,
    pub resolver: SchemaResolver,
    /// Reading inside a format definition.
    pub in_define_format: bool,
    /// The warnings that the element being read wants left out.
    pub suppress_schema_definition_warnings: Option<String>,
    /// The global element being read, to which warnings belong.
    pub warning_scope: Option<String>,
    /// The prefixes in force in the annotations being read, the innermost last.
    pub annotation_prefix_overrides: Vec<StrMap<String>>,
}

/// What an [`XsdParser`] holds, its text as character sequences.
#[verifier::ext_equal]
pub struct XsdParserModel {
    pub doc: SchemaDocumentModel,
    pub resolver: SchemaResolverModel,
    pub in_define_format: bool,
    pub suppress: Option<Seq<char>>,
    pub scope: Option<Seq<char>>,
    pub overrides: Seq<Seq<(Seq<char>, Seq<char>)>>,
}

/// What a reader holds.
#[verifier::opaque]
pub open spec fn parser_model(p: XsdParser) -> XsdParserModel {
    XsdParserModel {
        doc: p.doc.deep_view(),
        resolver: p.resolver.deep_view(),
        in_define_format: p.in_define_format,
        suppress: p.suppress_schema_definition_warnings.deep_view(),
        scope: p.warning_scope.deep_view(),
        overrides: p.annotation_prefix_overrides.deep_view(),
    }
}

impl DeepView for XsdParser {
    type V = XsdParserModel;

    open spec fn deep_view(&self) -> XsdParserModel {
        parser_model(*self)
    }
}

impl View for XsdParser {
    type V = XsdParserModel;

    open spec fn view(&self) -> XsdParserModel {
        self.deep_view()
    }
}

/// A reader that has read nothing.
pub open spec fn fresh(resolver: SchemaResolverModel) -> XsdParserModel {
    XsdParserModel {
        doc: ast::no_document(),
        resolver,
        in_define_format: false,
        suppress: None,
        scope: None,
        overrides: Seq::empty(),
    }
}

/// The reader with these complaints added.
pub open spec fn complained(st: XsdParserModel, said: Seq<Seq<char>>) -> XsdParserModel {
    XsdParserModel {
        doc: SchemaDocumentModel {
            schema_diagnostics: st.doc.schema_diagnostics + said,
            ..st.doc
        },
        ..st
    }
}

/// What is said of an element that means nothing where it stands.
pub open spec fn unrecognized(local: Seq<char>) -> Seq<Seq<char>> {
    seq!["Schema Definition Error: unrecognized element `"@ + local + "`"@, local]
}

/// The warning with this name is to be left out.
pub open spec fn left_out(suppress: Option<Seq<char>>, id: Seq<char>) -> bool {
    suppress matches Some(s) && text::words_spec(s).contains(id)
}

/// The lines that are stored under a name, with these added.
pub open spec fn under(
    map: Seq<(Seq<char>, Seq<Seq<char>>)>,
    name: Seq<char>,
    lines: Seq<Seq<char>>,
) -> Seq<Seq<char>> {
    match strmap::lookup(map, name) {
        Some(earlier) => earlier + lines,
        None => lines,
    }
}

/// The reader with a warning of these lines, unless it is to be left out.
pub open spec fn warned(st: XsdParserModel, id: Seq<char>, lines: Seq<Seq<char>>) -> XsdParserModel {
    if left_out(st.suppress, id) {
        st
    } else {
        let doc = match st.scope {
            Some(scope) => SchemaDocumentModel {
                scoped_schema_warnings: strmap::with_entry(
                    st.doc.scoped_schema_warnings,
                    scope,
                    under(st.doc.scoped_schema_warnings, scope, lines),
                ),
                ..st.doc
            },
            None => SchemaDocumentModel {
                schema_warnings: st.doc.schema_warnings + lines,
                ..st.doc
            },
        };
        XsdParserModel { doc, ..st }
    }
}

/// The key under which the escape scheme of this name is stored.
pub open spec fn escape_scheme_key(st: XsdParserModel, qname: Seq<char>) -> Seq<char> {
    let prefixes = if st.overrides.len() > 0 {
        st.overrides.last()
    } else {
        st.doc.namespace_prefixes
    };
    let own = qname::storage_key(qname::local_spec(qname), st.doc.target_namespace);
    match text::split_once_spec(qname, ':') {
        Some((prefix, local)) => match strmap::lookup(prefixes, prefix) {
            Some(uri) => qname::storage_key(qname::local_spec(local), Some(uri)),
            None => own,
        },
        None => own,
    }
}

/// The properties with the reference to an escape scheme as a storage key.
#[verifier::opaque]
pub open spec fn escape_normalized(st: XsdParserModel, p: DfdlPropsModel) -> DfdlPropsModel {
    match p.text.escape_scheme_ref {
        Some(r) => if r.len() > 0 {
            DfdlPropsModel {
                text: TextPropsModel {
                    escape_scheme_ref: Some(escape_scheme_key(st, r)),
                    ..p.text
                },
                ..p
            }
        } else {
            p
        },
        None => p,
    }
}

/// The properties without an initiator that is empty.
#[verifier::opaque]
pub open spec fn initiator_stripped(p: DfdlPropsModel) -> DfdlPropsModel {
    match p.delimiters.initiator {
        Some(i) => if i.len() == 0 {
            DfdlPropsModel {
                delimiters: ast::DelimiterPropsModel { initiator: None, ..p.delimiters },
                ..p
            }
        } else {
            p
        },
        None => p,
    }
}

/// The properties without a reference to a format.
#[verifier::opaque]
pub open spec fn unreferenced(p: DfdlPropsModel) -> DfdlPropsModel {
    DfdlPropsModel { statements: StatementPropsModel { format_ref: None, ..p.statements }, ..p }
}

/// The properties with a terminator where they have none.
#[verifier::opaque]
pub open spec fn terminated(p: DfdlPropsModel, terminator: Option<Seq<char>>) -> DfdlPropsModel {
    if p.delimiters.terminator is None {
        DfdlPropsModel {
            delimiters: ast::DelimiterPropsModel { terminator, ..p.delimiters },
            ..p
        }
    } else {
        p
    }
}

/// The properties over the format that they refer to.
#[verifier::opaque]
pub open spec fn finalized(doc: SchemaDocumentModel, p: DfdlPropsModel) -> DfdlPropsModel {
    match p.statements.format_ref {
        Some(name) => {
            let own = unreferenced(p);
            let whole = match qname::stored_under(doc, doc.named_formats, name) {
                Some(base) => merge::merge_spec(base, initiator_stripped(own)),
                None => own,
            };
            terminated(whole, doc.format_defaults.props.delimiters.terminator)
        },
        None => p,
    }
}

/// The properties of an element declaration: those that its attributes state,
/// over the format that they refer to; at most one occurrence unless stated.
#[verifier::opaque]
pub open spec fn element_props(
    st: XsdParserModel,
    stated: DfdlPropsModel,
    plain: Seq<(Seq<char>, Seq<char>)>,
) -> DfdlPropsModel {
    let p = finalized(st.doc, merge::merge_spec(ast::no_props(), stated));
    let counted = attrs::with_occurs(p.occurs, plain);
    let limited = if counted.max_occurs_specified {
        counted
    } else {
        OccursPropsModel { max_occurs_specified: true, occurs_max: Some(1), ..counted }
    };
    let occurs = if strmap::lookup(plain, "nillable"@) == Some("true"@) {
        OccursPropsModel { nillable: Some(true), ..limited }
    } else {
        limited
    };
    let statements = match st.suppress {
        Some(s) => StatementPropsModel {
            suppress_schema_definition_warnings: Some(s),
            ..p.statements
        },
        None => p.statements,
    };
    DfdlPropsModel { occurs, statements, ..p }
}

/// The properties with a default value where they have none.
#[verifier::opaque]
pub open spec fn with_default(p: DfdlPropsModel, default: Option<Seq<char>>) -> DfdlPropsModel {
    if default is Some && p.occurs.default_value is None {
        DfdlPropsModel {
            occurs: OccursPropsModel { default_value: default, ..p.occurs },
            ..p
        }
    } else {
        p
    }
}

/// The reader with these default properties.
pub open spec fn with_defaults(st: XsdParserModel, p: DfdlPropsModel) -> XsdParserModel {
    XsdParserModel {
        doc: SchemaDocumentModel { format_defaults: FormatDefaultsModel { props: p }, ..st.doc },
        ..st
    }
}

/// The reader with the variable that these attributes define.
pub open spec fn with_variable(st: XsdParserModel, a: Seq<(Seq<char>, Seq<char>)>) -> XsdParserModel {
    match (attrs::by_local(a, "name"@), attrs::by_local(a, "defaultValue"@)) {
        (Some(name), Some(default)) => XsdParserModel {
            doc: SchemaDocumentModel {
                variables: strmap::with_entry(st.doc.variables, name, default),
                ..st.doc
            },
            ..st
        },
        _ => st,
    }
}

/// The reader with a global element.
pub open spec fn with_global(st: XsdParserModel, g: GlobalElementModel) -> XsdParserModel {
    XsdParserModel {
        doc: SchemaDocumentModel {
            global_elements: strmap::with_entry(
                st.doc.global_elements,
                qname::storage_key(g.name, st.doc.target_namespace),
                g,
            ),
            ..st.doc
        },
        ..st
    }
}

/// The prefixes in force at an element.
pub open spec fn scope_of(st: XsdParserModel, namespaces: Seq<(Seq<char>, Seq<char>)>) -> Seq<
    (Seq<char>, Seq<char>),
> {
    attrs::overlaid(st.doc.namespace_prefixes, namespaces)
}

/// Adds lines to a list.
pub fn add_lines(out: &mut Vec<String>, lines: &Vec<String>)
    ensures
        final(out).deep_view() == old(out).deep_view() + lines.deep_view(),
{
    let n: usize = lines.len();
    let mut i: usize = 0;
    let ghost start = out.deep_view();
    let ghost all = lines.deep_view();
    assert(start + all.take(0) =~= start);
    while i < n
        invariant
            i <= n,
            n == lines@.len(),
            all == lines.deep_view(),
            start == old(out).deep_view(),
            out.deep_view() == start + all.take(i as int),
        decreases n - i,
    {
        let ghost before = out.deep_view();
        let line = lines[i].copy();
        out.push(line);
        assert(out.deep_view() =~= before.push(line@));
        assert(all.take(i + 1) =~= all.take(i as int).push(line@));
        assert(start + all.take(i + 1) =~= (start + all.take(i as int)).push(line@));
        i += 1;
    }
    assert(all.take(i as int) =~= all);
}

/// The lines that are stored under a name, with these added.
pub fn lines_under(map: &StrMap<Vec<String>>, name: &str, lines: &Vec<String>) -> (r: Vec<String>)
    ensures
        r.deep_view() == under(map@, name@, lines.deep_view()),
{
    match map.get(name) {
        Some(earlier) => {
            let mut all = earlier.copy();
            add_lines(&mut all, lines);
            all
        },
        None => lines.copy(),
    }
}

/// Whether a list of words contains this one.
fn has_word(list: &str, word: &str) -> (r: bool)
    ensures
        r == text::words_spec(list@).contains(word@),
{
    let c = chars_of(list);
    let ws = words(c.as_slice());
    let ghost all = text::words_spec(list@);
    let n: usize = ws.len();
    let mut i: usize = 0;
    while i < n
        invariant
            i <= n,
            n == ws@.len(),
            text::view_all(ws@) == all,
            all == text::words_spec(list@),
            forall|j: int| 0 <= j < i ==> all[j] != word@,
        decreases n - i,
    {
        assert(all[i as int] == ws@[i as int]@);
        if is(ws[i], word) {
            assert(all.contains(word@));
            return true;
        }
        i += 1;
    }
    assert(!all.contains(word@));
    false
}

/// The format that the properties refer to.
pub fn format_ref_of(p: &DfdlProps) -> (r: Option<String>)
    ensures
        r.deep_view() == p@.statements.format_ref,
{
    reveal(ast::statement_props_model);
    p.statements.format_ref.copy()
}

/// Drops the reference to a format.
fn without_format_ref(p: DfdlProps) -> (r: DfdlProps)
    ensures
        values::agree(r@, unreferenced(p@)),
{
    reveal(ast::statement_props_model);
    reveal(unreferenced);
    let mut r = p;
    r.statements.format_ref = None;
    r
}

/// Adds a terminator where there is none.
fn with_terminator(p: DfdlProps, terminator: Option<String>) -> (r: DfdlProps)
    ensures
        values::agree(r@, terminated(p@, terminator.deep_view())),
{
    reveal(ast::delimiter_props_model);
    reveal(terminated);
    let mut r = p;
    if r.delimiters.terminator.is_none() {
        r.delimiters.terminator = terminator;
    }
    r
}

/// The terminator of the properties.
fn terminator_of(p: &DfdlProps) -> (r: Option<String>)
    ensures
        r.deep_view() == p@.delimiters.terminator,
{
    reveal(ast::delimiter_props_model);
    p.delimiters.terminator.copy()
}

/// Drops an initiator that is empty.
pub fn strip_empty_initiator_for_format_ref(p: DfdlProps) -> (r: DfdlProps)
    ensures
        values::agree(r@, initiator_stripped(p@)),
{
    reveal(ast::delimiter_props_model);
    reveal(initiator_stripped);
    let empty: bool = match &p.delimiters.initiator {
        Some(i) => i.as_str().is_empty(),
        None => false,
    };
    let mut r = p;
    if empty {
        r.delimiters.initiator = None;
    }
    r
}

/// The local name of the variable that a reference names.
pub fn variable_local_name_from_ref(qname: &str) -> (r: String)
    ensures
        r@ == qname::local_spec(qname@),
{
    proof {
        qname::law_local_idempotent(qname@);
    }
    normalize_qname(normalize_qname(qname).as_str())
}

impl XsdParser {
    /// A reader that has read nothing.
    pub(crate) fn new(resolver: SchemaResolver) -> (r: Self)
        ensures
            values::agree(r@, fresh(resolver@)),
    {
        proof {
            reveal(crate::xsd::state::parser_model);
        }
        let r = XsdParser {
            doc: SchemaDocument::default(),
            resolver,
            in_define_format: false,
            suppress_schema_definition_warnings: None,
            warning_scope: None,
            annotation_prefix_overrides: Vec::new(),
        };
        assert(r@.overrides =~= Seq::empty());
        r
    }

    /// Adds complaints.
    pub(crate) fn complain(&mut self, said: &Vec<String>)
        ensures
            values::agree(final(self)@, complained(old(self)@, said.deep_view())),
    {
        reveal(crate::ast::document_model);
        proof {
            reveal(crate::xsd::state::parser_model);
        }
        add_lines(&mut self.doc.schema_diagnostics, said);
    }

    /// Adds one complaint.
    pub(crate) fn complain_of(&mut self, said: String)
        ensures
            values::agree(final(self)@, complained(old(self)@, seq![said@])),
    {
        reveal(crate::ast::document_model);
        proof {
            reveal(crate::xsd::state::parser_model);
        }
        let ghost before = self.doc.schema_diagnostics.deep_view();
        self.doc.schema_diagnostics.push(said);
        assert(self.doc.schema_diagnostics.deep_view() =~= before + seq![said@]);
    }

    /// Complains of an element that means nothing where it stands.
    pub(crate) fn complain_of_element(&mut self, local: &str)
        ensures
            values::agree(final(self)@, complained(old(self)@, unrecognized(local@))),
    {
        reveal(crate::ast::document_model);
        proof {
            reveal(crate::xsd::state::parser_model);
        }
        let ghost before = self.doc.schema_diagnostics.deep_view();
        let first = crate::error::cat3(
            "Schema Definition Error: unrecognized element `",
            local,
            "`",
        );
        let second = owned(local);
        self.doc.schema_diagnostics.push(first);
        self.doc.schema_diagnostics.push(second);
        assert(self.doc.schema_diagnostics.deep_view() =~= before + unrecognized(local@));
    }

    /// Adds a warning, unless it is to be left out.
    pub(crate) fn push_schema_warning(&mut self, warn_id: &str, lines: &Vec<String>)
        ensures
            values::agree(final(self)@, warned(old(self)@, warn_id@, lines.deep_view())),
    {
        reveal(crate::ast::document_model);
        proof {
            reveal(crate::xsd::state::parser_model);
        }
        if self.leaves_out(warn_id) {
            return;
        }
        match self.warning_scope.copy() {
            Some(scope) => {
                let all = lines_under(&self.doc.scoped_schema_warnings, scope.as_str(), lines);
                self.doc.scoped_schema_warnings.insert(scope, all);
            },
            None => {
                add_lines(&mut self.doc.schema_warnings, lines);
            },
        }
    }

    /// Whether the warning with this name is to be left out.
    fn leaves_out(&self, warn_id: &str) -> (r: bool)
        ensures
            r == left_out(self@.suppress, warn_id@),
    {
        proof {
            reveal(crate::xsd::state::parser_model);
        }
        match &self.suppress_schema_definition_warnings {
            Some(s) => has_word(s.as_str(), warn_id),
            None => false,
        }
    }

    /// The key under which the escape scheme of this name is stored.
    pub(crate) fn escape_scheme_ref_storage_key(&self, qname: &str) -> (r: String)
        ensures
            r@ == escape_scheme_key(self@, qname@),
    {
        reveal(crate::ast::document_model);
        proof {
            reveal(crate::xsd::state::parser_model);
        }
        let n: usize = self.annotation_prefix_overrides.len();
        let prefixes: &StrMap<String> = if n > 0 {
            &self.annotation_prefix_overrides[n - 1]
        } else {
            &self.doc.namespace_prefixes
        };
        let q = chars_of(qname);
        if let Some((prefix, local)) = split_once(q.as_slice(), ':') {
            if let Some(uri) = prefixes.get(string_of(prefix).as_str()) {
                let l = normalize_qname(string_of(local).as_str());
                return format_storage_key(l.as_str(), Some(uri.as_str()));
            }
        }
        let l = normalize_qname(qname);
        format_storage_key(l.as_str(), opt_str(&self.doc.target_namespace))
    }

    /// Turns the reference to an escape scheme into a storage key.
    pub(crate) fn normalize_escape_scheme_ref(&self, p: DfdlProps) -> (r: DfdlProps)
        ensures
            values::agree(r@, escape_normalized(self@, p@)),
    {
        reveal(ast::text_props_model);
        reveal(escape_normalized);
        let key: Option<String> = match &p.text.escape_scheme_ref {
            Some(r) => if r.as_str().is_empty() {
                None
            } else {
                Some(self.escape_scheme_ref_storage_key(r.as_str()))
            },
            None => None,
        };
        let mut r = p;
        if key.is_some() {
            r.text.escape_scheme_ref = key;
        }
        r
    }

    /// Lays the properties over the format that they refer to.
    pub(crate) fn finalize_props(&self, p: DfdlProps) -> (r: DfdlProps)
        ensures
            values::agree(r@, finalized(self@.doc, p@)),
    {
        reveal(crate::ast::document_model);
        proof {
            reveal(crate::xsd::state::parser_model);
        }
        reveal(finalized);
        let name = match format_ref_of(&p) {
            Some(name) => name,
            None => {
                return p;
            },
        };
        let own = without_format_ref(p);
        let whole = match lookup_named_format_in_document(&self.doc, name.as_str()) {
            Some(base) => merge_dfdl_props(base, strip_empty_initiator_for_format_ref(own)),
            None => own,
        };
        with_terminator(whole, terminator_of(&self.doc.format_defaults.props))
    }

    /// The properties of an element declaration.
    pub(crate) fn declared_props(&self, stated: DfdlProps, plain: &StrMap<String>) -> (r: DfdlProps)
        ensures
            values::agree(r@, element_props(self@, stated@, plain@)),
    {
        proof {
            reveal(crate::xsd::state::parser_model);
        }
        reveal(ast::occurs_props_model);
        reveal(ast::statement_props_model);
        reveal(element_props);
        let mut p = self.finalize_props(merge_dfdl_props(DfdlProps::default(), stated));
        merge_occurs(&mut p.occurs, plain);
        if !p.occurs.max_occurs_specified {
            p.occurs.max_occurs_specified = true;
            p.occurs.occurs_max = Some(1);
        }
        if let Some(v) = plain.get("nillable") {
            if eq(v.as_str(), "true") {
                p.occurs.nillable = Some(true);
            }
        }
        if let Some(s) = &self.suppress_schema_definition_warnings {
            p.statements.suppress_schema_definition_warnings = Some(s.copy());
        }
        p
    }

    /// Defines the variable that these attributes define.
    pub(crate) fn define_variable(&mut self, a: &StrMap<String>)
        ensures
            values::agree(final(self)@, with_variable(old(self)@, a@)),
    {
        reveal(crate::ast::document_model);
        proof {
            reveal(crate::xsd::state::parser_model);
        }
        if let Some(name) = crate::attrs::attr_by_local(a, "name") {
            if let Some(default) = crate::attrs::attr_by_local(a, "defaultValue") {
                self.doc.variables.insert(name.copy(), default.copy());
            }
        }
    }

    /// Stores a global element.
    pub(crate) fn insert_global_element(&mut self, element: GlobalElement)
        ensures
            values::agree(final(self)@, with_global(old(self)@, element@)),
    {
        reveal(crate::ast::document_model);
        proof {
            reveal(crate::xsd::state::parser_model);
        }
        let key = format_storage_key(
            element.name.as_str(),
            opt_str(&self.doc.target_namespace),
        );
        self.doc.global_elements.insert(key, element);
    }
}

/// Gives the properties a default value where they have none.
pub fn set_default(p: DfdlProps, default: &Option<String>) -> (r: DfdlProps)
    ensures
        values::agree(r@, with_default(p@, default.deep_view())),
{
    reveal(ast::occurs_props_model);
    reveal(with_default);
    let mut r = p;
    if default.is_some() && r.occurs.default_value.is_none() {
        r.occurs.default_value = default.copy();
    }
    r
}

} // verus!
