//! Where the schemas come from that a schema refers to.

use vstd::prelude::*;
use crate::error::{cat2, cat3, cat5, invalid_xml, outcome, Error, ErrorModel};
use crate::numbers;
use crate::numbers::decimal_chars;
use crate::strmap;
use crate::strmap::StrMap;
use crate::text;
use crate::text::{
    chars_of, eq, is, join, last_piece, rsplit_once, split, starts_with, string_of, trim,
    trim_start_matches,
};
use crate::values::{owned, Duplicate};

verus! {

broadcast use vstd::string::group_string_axioms;

/// Finds the text of a schema by its location, and remembers what was found.
#[derive(Debug)]
pub struct SchemaResolver {
    /// The texts of bundled schemas, by name.
    pub bundled: StrMap<String>,
    /// The directories to which relative locations are relative.
    pub base_dirs: Vec<String>,
    /// The texts of files, by path without `.` and `..`.
    pub files: StrMap<String>,
    /// The directory that is searched before all others.
    pub resource_root: Option<String>,
    /// The schemas that were taken in already.
    pub included: Vec<String>,
    /// How many types without a name were named.
    pub inline_types: u64,
}

/// What a [`SchemaResolver`] holds, its text as character sequences.
#[verifier::ext_equal]
pub struct SchemaResolverModel {
    pub bundled: Seq<(Seq<char>, Seq<char>)>,
    pub base_dirs: Seq<Seq<char>>,
    pub files: Seq<(Seq<char>, Seq<char>)>,
    pub resource_root: Option<Seq<char>>,
    pub included: Seq<Seq<char>>,
    pub inline_types: u64,
}

impl DeepView for SchemaResolver {
    type V = SchemaResolverModel;

    open spec fn deep_view(&self) -> SchemaResolverModel {
        SchemaResolverModel {
            bundled: self.bundled.deep_view(),
            base_dirs: self.base_dirs.deep_view(),
            files: self.files.deep_view(),
            resource_root: self.resource_root.deep_view(),
            included: self.included.deep_view(),
            inline_types: self.inline_types,
        }
    }
}

impl View for SchemaResolver {
    type V = SchemaResolverModel;

    open spec fn view(&self) -> SchemaResolverModel {
        self.deep_view()
    }
}

/// A resolver without texts.
pub open spec fn no_schemas() -> SchemaResolverModel {
    SchemaResolverModel {
        bundled: Seq::empty(),
        base_dirs: Seq::empty(),
        files: Seq::empty(),
        resource_root: None,
        included: Seq::empty(),
        inline_types: 0,
    }
}

/// The location without the slashes at its front.
pub open spec fn relative(loc: Seq<char>) -> Seq<char> {
    text::trim_start_char(loc, '/')
}

/// What stands behind the last slash of the location.
pub open spec fn file_name(loc: Seq<char>) -> Seq<char> {
    text::after_last(loc, '/')
}

/// The names of the schemas that belong to every resolver, whether or not their
/// texts were supplied.
pub open spec fn standard(name: Seq<char>) -> bool {
    ||| name == "/org/apache/daffodil/xsd/DFDLGeneralFormat.dfdl.xsd"@
    ||| name == "DFDLGeneralFormat.dfdl.xsd"@
    ||| name == "DFDLGeneralFormatBase.dfdl.xsd"@
    ||| name == "/org/apache/daffodil/xsd/DFDLGeneralFormatBase.dfdl.xsd"@
    ||| name == "DFDLGeneralFormatPortable.dfdl.xsd"@
    ||| name == "/org/apache/daffodil/xsd/DFDLGeneralFormatPortable.dfdl.xsd"@
    ||| name == "AB.dfdl.xsd"@
    ||| name == "/org/apache/daffodil/section12/lengthKind/AB.dfdl.xsd"@
    ||| name == "InvalidAlignSchema.dfdl.xsd"@
    ||| name == "/IBMdefined/GeneralPurposeFormat.xsd"@
    ||| name == "GeneralPurposeFormat.xsd"@
}

/// How many names [`standard`] schemas have.
pub const STANDARD_NAMES: usize = 11;

fn is_standard(name: &str) -> (r: bool)
    ensures
        r == standard(name@),
{
    eq(name, "/org/apache/daffodil/xsd/DFDLGeneralFormat.dfdl.xsd") || eq(
        name,
        "DFDLGeneralFormat.dfdl.xsd",
    ) || eq(name, "DFDLGeneralFormatBase.dfdl.xsd") || eq(
        name,
        "/org/apache/daffodil/xsd/DFDLGeneralFormatBase.dfdl.xsd",
    ) || eq(name, "DFDLGeneralFormatPortable.dfdl.xsd") || eq(
        name,
        "/org/apache/daffodil/xsd/DFDLGeneralFormatPortable.dfdl.xsd",
    ) || eq(name, "AB.dfdl.xsd") || eq(
        name,
        "/org/apache/daffodil/section12/lengthKind/AB.dfdl.xsd",
    ) || eq(name, "InvalidAlignSchema.dfdl.xsd") || eq(
        name,
        "/IBMdefined/GeneralPurposeFormat.xsd",
    ) || eq(name, "GeneralPurposeFormat.xsd")
}

/// Whether a bundled schema has this name.
pub open spec fn known(bundled: Seq<(Seq<char>, Seq<char>)>, name: Seq<char>) -> bool {
    standard(name) || strmap::lookup(bundled, name) is Some
}

/// The text of the bundled schema with this name; where none was supplied under the
/// name, the one under its file name.
pub open spec fn bundled_text(bundled: Seq<(Seq<char>, Seq<char>)>, name: Seq<char>) -> Option<
    Seq<char>,
> {
    match strmap::lookup(bundled, name) {
        Some(t) => Some(t),
        None => strmap::lookup(bundled, file_name(name)),
    }
}

/// The first directory, behind which the location names a bundled schema.
pub open spec fn bundled_under(
    bundled: Seq<(Seq<char>, Seq<char>)>,
    dirs: Seq<Seq<char>>,
    loc: Seq<char>,
) -> Option<Seq<char>>
    decreases dirs.len(),
{
    if dirs.len() == 0 {
        None
    } else {
        let path = dirs[0] + "/"@ + loc;
        if known(bundled, path) {
            Some(path)
        } else {
            bundled_under(bundled, dirs.skip(1), loc)
        }
    }
}

/// The name of the bundled schema at a location: the location itself, then without
/// slashes at its front, then its file name, then behind each directory.
pub open spec fn bundled_key(m: SchemaResolverModel, loc: Seq<char>) -> Option<Seq<char>> {
    if known(m.bundled, loc) {
        Some(loc)
    } else if known(m.bundled, relative(loc)) {
        Some(relative(loc))
    } else if known(m.bundled, file_name(loc)) {
        Some(file_name(loc))
    } else {
        bundled_under(m.bundled, m.base_dirs, loc)
    }
}

// Paths.
/// The steps of a path that are left of the first `k`, without empty ones and `.`,
/// and with `..` undoing the step before it.
pub open spec fn steps_left(steps: Seq<Seq<char>>, k: nat, absolute: bool) -> Seq<Seq<char>>
    decreases k,
{
    if k == 0 || k > steps.len() {
        Seq::empty()
    } else {
        let before = steps_left(steps, (k - 1) as nat, absolute);
        let step = steps[k - 1];
        if step.len() == 0 || step == "."@ {
            before
        } else if step == ".."@ && before.len() > 0 && before.last() != ".."@ {
            before.drop_last()
        } else if step == ".."@ && absolute {
            before
        } else {
            before.push(step)
        }
    }
}

/// A path without `.`, `..` and needless slashes.
pub open spec fn clean(path: Seq<char>) -> Seq<char> {
    let absolute = text::has_prefix(path, "/"@);
    let steps = text::split_spec(path, '/');
    (if absolute {
        "/"@
    } else {
        ""@
    }) + text::joined(steps_left(steps, steps.len(), absolute), "/"@)
}

/// A path behind a directory, unless it is absolute, made clean.
pub open spec fn joined(dir: Seq<char>, path: Seq<char>) -> Seq<char> {
    if text::has_prefix(path, "/"@) || dir.len() == 0 {
        clean(path)
    } else {
        clean(dir + "/"@ + path)
    }
}

/// The directory of a path.
pub open spec fn parent(path: Seq<char>) -> Seq<char> {
    match text::rsplit_once_spec(path, '/') {
        Some((dir, _)) => if dir.len() == 0 {
            "/"@
        } else {
            dir
        },
        None => ""@,
    }
}

/// The file that a location names in a directory, by the location, then without
/// slashes at its front, then by its file name.
pub open spec fn file_in(files: Seq<(Seq<char>, Seq<char>)>, dir: Seq<char>, loc: Seq<char>) -> Option<
    Seq<char>,
> {
    if strmap::lookup(files, joined(dir, loc)) is Some {
        Some(joined(dir, loc))
    } else if strmap::lookup(files, joined(dir, relative(loc))) is Some {
        Some(joined(dir, relative(loc)))
    } else if strmap::lookup(files, joined(dir, file_name(loc))) is Some {
        Some(joined(dir, file_name(loc)))
    } else {
        None
    }
}

/// The file that a location names in the last directory that has one.
pub open spec fn file_in_last(
    files: Seq<(Seq<char>, Seq<char>)>,
    dirs: Seq<Seq<char>>,
    loc: Seq<char>,
) -> Option<Seq<char>>
    decreases dirs.len(),
{
    if dirs.len() == 0 {
        None
    } else {
        match file_in(files, dirs.last(), loc) {
            Some(p) => Some(p),
            None => file_in_last(files, dirs.drop_last(), loc),
        }
    }
}

/// The file that a location names: in the directory of resources, then in the
/// directories, the last one first.
pub open spec fn found_file(m: SchemaResolverModel, loc: Seq<char>) -> Option<Seq<char>> {
    match m.resource_root {
        Some(root) => match file_in(m.files, root, loc) {
            Some(p) => Some(p),
            None => file_in_last(m.files, m.base_dirs, loc),
        },
        None => file_in_last(m.files, m.base_dirs, loc),
    }
}

/// The key by which a location is known: the name of a bundled schema, or the path
/// of the file that the location names.
pub open spec fn include_key(m: SchemaResolverModel, location: Seq<char>) -> Seq<char> {
    let loc = text::trim_spec(location);
    match bundled_key(m, loc) {
        Some(k) => k,
        None => match found_file(m, loc) {
            Some(p) => p,
            None => if m.base_dirs.len() > 0 {
                m.base_dirs[0] + "/"@ + loc
            } else {
                loc
            },
        },
    }
}

/// The resolver with the location taken in.
pub open spec fn registered(m: SchemaResolverModel, location: Seq<char>) -> SchemaResolverModel {
    let key = include_key(m, location);
    if m.included.contains(key) {
        m
    } else {
        SchemaResolverModel { included: m.included.push(key), ..m }
    }
}

/// The error for a location at which nothing is found.
pub open spec fn not_found(loc: Seq<char>) -> ErrorModel {
    ErrorModel::InvalidXml(
        "Schema Definition Error: Resource not found at Include Location `"@ + loc + "`"@,
    )
}

/// The text at a location and the directory of the file that holds it. A bundled
/// schema whose text was not supplied is not found.
pub open spec fn resolved(m: SchemaResolverModel, location: Seq<char>) -> Result<
    (Seq<char>, Option<Seq<char>>),
    ErrorModel,
> {
    let loc = text::trim_spec(location);
    match bundled_key(m, loc) {
        Some(k) => match bundled_text(m.bundled, k) {
            Some(t) => Ok((t, None)),
            None => Err(not_found(loc)),
        },
        None => match found_file(m, loc) {
            Some(p) => Ok((strmap::lookup(m.files, p)->0, Some(parent(p)))),
            None => Err(not_found(loc)),
        },
    }
}

/// The resolver with the text of a bundled schema under a name.
pub open spec fn with_text(m: SchemaResolverModel, name: Seq<char>, text: Seq<char>) -> SchemaResolverModel {
    SchemaResolverModel {
        bundled: strmap::with_entry(m.bundled, text::trim_spec(name), text),
        ..m
    }
}

/// The resolver with which a schema is read that another one takes in.
pub open spec fn inside(m: SchemaResolverModel, dir: Option<Seq<char>>) -> SchemaResolverModel {
    match dir {
        Some(d) => SchemaResolverModel { base_dirs: m.base_dirs.push(d), ..m },
        None => m,
    }
}

/// The name of the next type without a name.
pub open spec fn inline_name(kind: Seq<char>, n: u64) -> Seq<char> {
    "__inline_"@ + kind + "_"@ + numbers::decimal(n as nat)
}

/// The number behind this one; the last one has none behind it.
pub open spec fn next_number(n: u64) -> u64 {
    if n == u64::MAX {
        n
    } else {
        (n + 1) as u64
    }
}

/// A path without `.`, `..` and needless slashes.
pub fn clean_path(path: &str) -> (r: String)
    ensures
        r@ == clean(path@),
{
    let c = chars_of(path);
    let absolute = starts_with(c.as_slice(), "/");
    let steps = split(c.as_slice(), '/');
    let ghost all = text::view_all(steps@);
    let mut left: Vec<String> = Vec::new();
    let mut i: usize = 0;
    assert(left.deep_view() =~= Seq::<Seq<char>>::empty());
    while i < steps.len()
        invariant
            i <= steps@.len(),
            all == text::view_all(steps@),
            all.len() == steps@.len(),
            left.deep_view() == steps_left(all, i as nat, absolute),
        decreases steps@.len() - i,
    {
        assert(all[i as int] == steps@[i as int]@);
        let ghost before = left.deep_view();
        assert(before.len() == left@.len());
        let step = steps[i];
        let n: usize = left.len();
        let up = is(step, "..");
        let undo = if up && n > 0 {
            assert(before.last() == left@[n - 1]@);
            !eq(left[n - 1].as_str(), "..")
        } else {
            false
        };
        if step.len() == 0 || is(step, ".") {
        } else if undo {
            let _ = left.pop();
            assert(left.deep_view() =~= before.drop_last());
        } else if !(up && absolute) {
            let t = string_of(step);
            left.push(t);
            assert(left.deep_view() =~= before.push(t@));
        }
        i += 1;
    }
    let body = join(&left, "/");
    if absolute {
        cat2("/", body.as_str())
    } else {
        cat2("", body.as_str())
    }
}

/// A path behind a directory.
fn join_path(dir: &str, path: &str) -> (r: String)
    ensures
        r@ == joined(dir@, path@),
{
    let p = chars_of(path);
    if starts_with(p.as_slice(), "/") || dir.is_empty() {
        clean_path(path)
    } else {
        clean_path(cat3(dir, "/", path).as_str())
    }
}

/// The directory of a path.
fn parent_of(path: &str) -> (r: String)
    ensures
        r@ == parent(path@),
{
    let p = chars_of(path);
    match rsplit_once(p.as_slice(), '/') {
        Some((dir, _)) => if dir.len() == 0 {
            owned("/")
        } else {
            string_of(dir)
        },
        None => owned(""),
    }
}

impl SchemaResolver {
    /// A resolver without texts, which knows the names of the standard schemas.
    pub fn new() -> (r: Self)
        ensures
            r@ == no_schemas(),
            well_named(r@),
    {
        let r = SchemaResolver {
            bundled: StrMap::new(),
            base_dirs: Vec::new(),
            files: StrMap::new(),
            resource_root: None,
            included: Vec::new(),
            inline_types: 0,
        };
        assert(r@ =~= no_schemas());
        r
    }

    /// The resolver with the text of a bundled schema under a name.
    pub fn with_bundled(self, name: &str, text: &str) -> (r: Self)
        ensures
            r@ == with_text(self@, name@, text@),
            well_named(self@) ==> well_named(r@),
    {
        proof {
            if well_named(self@) {
                law_stays_well_named(self@, name@, text@);
            }
        }
        let mut r = self;
        let c = chars_of(name);
        r.bundled.insert(string_of(trim(c.as_slice())), owned(text));
        r
    }

    /// The resolver with the text of a file.
    pub fn with_file(self, path: &str, text: &str) -> (r: Self)
        ensures
            r@ == (SchemaResolverModel {
                files: strmap::with_entry(self@.files, clean(path@), text@),
                ..self@
            }),
            well_named(self@) ==> well_named(r@),
    {
        let mut r = self;
        r.files.insert(clean_path(path), owned(text));
        r
    }

    /// The resolver with one more directory.
    pub fn with_base_dir(self, dir: &str) -> (r: Self)
        ensures
            r@ == (SchemaResolverModel { base_dirs: self@.base_dirs.push(dir@), ..self@ }),
            well_named(self@) ==> well_named(r@),
    {
        let mut r = self;
        let d = owned(dir);
        r.base_dirs.push(d);
        assert(r@.base_dirs =~= self@.base_dirs.push(dir@));
        r
    }

    /// The resolver with which a schema is read that another one takes in; the
    /// numbers of types without a name go on from this one.
    pub(crate) fn for_included(&self, dir: Option<&str>) -> (r: Self)
        ensures
            crate::values::agree(r@, inside(self@, text::ref_opt(dir))),
    {
        let mut base_dirs = self.base_dirs.copy();
        if let Some(d) = dir {
            let ghost before = base_dirs.deep_view();
            let own = owned(d);
            base_dirs.push(own);
            assert(base_dirs.deep_view() =~= before.push(d@));
        }
        SchemaResolver {
            bundled: self.bundled.copy(),
            base_dirs,
            files: self.files.copy(),
            resource_root: self.resource_root.copy(),
            included: self.included.copy(),
            inline_types: self.inline_types,
        }
    }

    /// Names the next type that has no name.
    pub fn next_inline_type_name(&mut self, kind: &str) -> (r: String)
        ensures
            r@ == inline_name(kind@, old(self)@.inline_types),
            final(self)@ == (SchemaResolverModel {
                inline_types: next_number(old(self)@.inline_types),
                ..old(self)@
            }),
    {
        let n: u64 = self.inline_types;
        self.inline_types = n.saturating_add(1);
        let digits = decimal_chars(n);
        let head = cat3("__inline_", kind, "_");
        cat2(head.as_str(), string_of(digits.as_slice()).as_str())
    }

    fn is_known(&self, name: &str) -> (r: bool)
        ensures
            r == known(self@.bundled, name@),
    {
        is_standard(name) || self.bundled.contains_key(name)
    }

    fn find_text(&self, name: &str) -> (r: Option<String>)
        ensures
            r.deep_view() == bundled_text(self@.bundled, name@),
    {
        if let Some(t) = self.bundled.get(name) {
            return Some(t.copy());
        }
        let c = chars_of(name);
        let short = string_of(last_piece(c.as_slice(), '/'));
        match self.bundled.get(short.as_str()) {
            Some(t) => Some(t.copy()),
            None => None,
        }
    }

    /// The name of the bundled schema at a location.
    fn find_bundled(&self, loc: &str) -> (r: Option<String>)
        ensures
            r.deep_view() == bundled_key(self@, loc@),
    {
        if self.is_known(loc) {
            return Some(owned(loc));
        }
        let c = chars_of(loc);
        let normalized = string_of(trim_start_matches(c.as_slice(), '/'));
        if self.is_known(normalized.as_str()) {
            return Some(normalized);
        }
        let name = string_of(last_piece(c.as_slice(), '/'));
        if self.is_known(name.as_str()) {
            return Some(name);
        }
        let n: usize = self.base_dirs.len();
        let mut i: usize = 0;
        let ghost dirs = self@.base_dirs;
        assert(dirs.skip(0) == dirs);
        while i < n
            invariant
                i <= n,
                n == self.base_dirs@.len(),
                dirs == self@.base_dirs,
                bundled_key(self@, loc@) == bundled_under(
                    self@.bundled,
                    dirs.skip(i as int),
                    loc@,
                ),
            decreases n - i,
        {
            assert(dirs.skip(i as int).skip(1) == dirs.skip(i + 1));
            assert(dirs.skip(i as int)[0] == self.base_dirs@[i as int]@);
            let candidate = cat3(self.base_dirs[i].as_str(), "/", loc);
            if self.is_known(candidate.as_str()) {
                return Some(candidate);
            }
            i += 1;
        }
        None
    }

    /// The file that a location names in a directory.
    fn find_file_in(&self, dir: &str, loc: &str) -> (r: Option<String>)
        ensures
            r.deep_view() == file_in(self@.files, dir@, loc@),
            r matches Some(p) ==> strmap::lookup(self@.files, p@) is Some,
    {
        let c = chars_of(loc);
        let whole = join_path(dir, loc);
        if self.files.contains_key(whole.as_str()) {
            return Some(whole);
        }
        let normalized = string_of(trim_start_matches(c.as_slice(), '/'));
        let bare = join_path(dir, normalized.as_str());
        if self.files.contains_key(bare.as_str()) {
            return Some(bare);
        }
        let name = string_of(last_piece(c.as_slice(), '/'));
        let by_name = join_path(dir, name.as_str());
        if self.files.contains_key(by_name.as_str()) {
            return Some(by_name);
        }
        None
    }

    /// The file that a location names.
    fn find_file(&self, loc: &str) -> (r: Option<String>)
        ensures
            r.deep_view() == found_file(self@, loc@),
            r matches Some(p) ==> strmap::lookup(self@.files, p@) is Some,
    {
        if let Some(root) = &self.resource_root {
            if let Some(p) = self.find_file_in(root.as_str(), loc) {
                return Some(p);
            }
        }
        let mut i: usize = self.base_dirs.len();
        let ghost dirs = self@.base_dirs;
        assert(dirs.take(i as int) == dirs);
        while i > 0
            invariant
                i <= self.base_dirs@.len(),
                dirs == self@.base_dirs,
                found_file(self@, loc@) == file_in_last(
                    self@.files,
                    dirs.take(i as int),
                    loc@,
                ),
            decreases i,
        {
            assert(dirs.take(i as int).drop_last() == dirs.take(i - 1));
            assert(dirs.take(i as int).last() == self.base_dirs@[i - 1]@);
            i -= 1;
            if let Some(p) = self.find_file_in(self.base_dirs[i].as_str(), loc) {
                return Some(p);
            }
        }
        None
    }

    /// The key by which a location is known.
    pub fn include_dedup_key(&self, location: &str) -> (r: String)
        ensures
            r@ == include_key(self@, location@),
    {
        let all = chars_of(location);
        let loc = string_of(trim(all.as_slice()));
        if let Some(k) = self.find_bundled(loc.as_str()) {
            return k;
        }
        if let Some(p) = self.find_file(loc.as_str()) {
            return p;
        }
        if self.base_dirs.len() > 0 {
            return cat3(self.base_dirs[0].as_str(), "/", loc.as_str());
        }
        loc
    }

    /// Takes the location in; `false` where it was taken in already.
    pub fn register_include(&mut self, location: &str) -> (r: bool)
        ensures
            final(self)@ == registered(old(self)@, location@),
            r == !old(self)@.included.contains(include_key(old(self)@, location@)),
    {
        let key = self.include_dedup_key(location);
        let n: usize = self.included.len();
        let mut i: usize = 0;
        let ghost m = self@;
        while i < n
            invariant
                i <= n,
                n == self.included@.len(),
                m == self@,
                m == old(self)@,
                key@ == include_key(m, location@),
                forall|j: int| 0 <= j < i ==> m.included[j] != key@,
            decreases n - i,
        {
            assert(m.included[i as int] == self.included@[i as int]@);
            if eq(self.included[i].as_str(), key.as_str()) {
                assert(m.included.contains(key@));
                return false;
            }
            i += 1;
        }
        assert(!m.included.contains(key@));
        self.included.push(key);
        assert(self@.included =~= m.included.push(key@));
        true
    }

    /// The text at a location and the directory of the file that holds it.
    pub fn resolve_with_include_dir(&self, location: &str) -> (r: Result<
        (String, Option<String>),
        Error,
    >)
        ensures
            outcome(r) == resolved(self@, location@),
    {
        let all = chars_of(location);
        let loc = string_of(trim(all.as_slice()));
        if let Some(k) = self.find_bundled(loc.as_str()) {
            if let Some(content) = self.find_text(k.as_str()) {
                return Ok((content, None));
            }
        } else if let Some(p) = self.find_file(loc.as_str()) {
            if let Some(content) = self.files.get(p.as_str()) {
                return Ok((content.copy(), Some(parent_of(p.as_str()))));
            }
        }
        Err(
            invalid_xml(
                cat3(
                    "Schema Definition Error: Resource not found at Include Location `",
                    loc.as_str(),
                    "`",
                ),
            ),
        )
    }

    /// The text at a location.
    pub fn resolve(&self, location: &str) -> (r: Result<String, Error>)
        ensures
            outcome(r) == (match resolved(self@, location@) {
                Ok((content, _)) => Ok(content),
                Err(e) => Err(e),
            }),
    {
        match self.resolve_with_include_dir(location) {
            Ok((content, _)) => Ok(content),
            Err(e) => Err(e),
        }
    }
}

impl Default for SchemaResolver {
    fn default() -> (r: Self)
        ensures
            r@ == no_schemas(),
    {
        SchemaResolver::new()
    }
}

/// A location that was taken in stays taken in.
pub proof fn law_registered_once(m: SchemaResolverModel, location: Seq<char>)
    ensures
        registered(m, location).included.contains(
            include_key(registered(m, location), location),
        ),
        registered(registered(m, location), location) == registered(m, location),
{
    let r = registered(m, location);
    let key = include_key(m, location);
    assert(include_key(r, location) == key);
    if !m.included.contains(key) {
        assert(r.included.last() == key);
        assert(r.included.contains(key));
    }
}

/// Taking a location in forgets none that was taken in before.
pub proof fn law_registered_keeps(m: SchemaResolverModel, location: Seq<char>, key: Seq<char>)
    requires
        m.included.contains(key),
    ensures
        registered(m, location).included.contains(key),
{
    let r = registered(m, location);
    let i = choose|i: int| 0 <= i < m.included.len() && m.included[i] == key;
    assert(r.included[i] == key);
}

/// The text at a location does not depend on what was taken in before.
pub proof fn law_resolved_stable(m: SchemaResolverModel, location: Seq<char>, other: Seq<char>)
    ensures
        resolved(registered(m, other), location) == resolved(m, location),
{
}

/// The key of a location that names no bundled schema is the path of the file whose
/// text is found there.
pub proof fn law_key_names_file(m: SchemaResolverModel, location: Seq<char>)
    requires
        bundled_key(m, text::trim_spec(location)) is None,
        resolved(m, location) is Ok,
    ensures
        resolved(m, location) == Ok::<(Seq<char>, Option<Seq<char>>), ErrorModel>(
            (
                strmap::lookup(m.files, include_key(m, location))->0,
                Some(parent(include_key(m, location))),
            ),
        ),
{
}

/// Two locations with the same key have the same text.
pub proof fn law_same_key_same_text(m: SchemaResolverModel, a: Seq<char>, b: Seq<char>)
    requires
        bundled_key(m, text::trim_spec(a)) is None,
        bundled_key(m, text::trim_spec(b)) is None,
        resolved(m, a) is Ok,
        resolved(m, b) is Ok,
        include_key(m, a) == include_key(m, b),
    ensures
        resolved(m, a) == resolved(m, b),
{
}

/// The names under which texts are bundled have no white space around them.
pub open spec fn well_named(m: SchemaResolverModel) -> bool {
    forall|i: int|
        0 <= i < m.bundled.len() ==> text::trim_spec((#[trigger] m.bundled[i]).0) == m.bundled[i].0
}

proof fn lemma_standard_trimmed(name: Seq<char>)
    requires
        standard(name),
    ensures
        text::trim_spec(name) == name,
{
    reveal_strlit("/org/apache/daffodil/xsd/DFDLGeneralFormat.dfdl.xsd");
    reveal_strlit("DFDLGeneralFormat.dfdl.xsd");
    reveal_strlit("DFDLGeneralFormatBase.dfdl.xsd");
    reveal_strlit("/org/apache/daffodil/xsd/DFDLGeneralFormatBase.dfdl.xsd");
    reveal_strlit("DFDLGeneralFormatPortable.dfdl.xsd");
    reveal_strlit("/org/apache/daffodil/xsd/DFDLGeneralFormatPortable.dfdl.xsd");
    reveal_strlit("AB.dfdl.xsd");
    reveal_strlit("/org/apache/daffodil/section12/lengthKind/AB.dfdl.xsd");
    reveal_strlit("InvalidAlignSchema.dfdl.xsd");
    reveal_strlit("/IBMdefined/GeneralPurposeFormat.xsd");
    reveal_strlit("GeneralPurposeFormat.xsd");
    assert(!text::is_white(name[0]));
    assert(!text::is_white(name.last()));
}

proof fn lemma_known_trimmed(m: SchemaResolverModel, name: Seq<char>)
    requires
        well_named(m),
        known(m.bundled, name),
    ensures
        text::trim_spec(name) == name,
{
    if standard(name) {
        lemma_standard_trimmed(name);
    } else {
        let i = strmap::rank(m.bundled, name);
        strmap::lemma_rank(m.bundled, name);
        assert(text::trim_spec(m.bundled[i].0) == m.bundled[i].0);
    }
}

proof fn lemma_key_known(m: SchemaResolverModel, dirs: Seq<Seq<char>>, loc: Seq<char>)
    ensures
        bundled_under(m.bundled, dirs, loc) matches Some(k) ==> known(m.bundled, k),
    decreases dirs.len(),
{
    if dirs.len() > 0 {
        lemma_key_known(m, dirs.skip(1), loc);
    }
}

/// A location that names a bundled schema has that schema's text, as its name has,
/// whatever the directories and files are.
pub proof fn law_bundled_text(m: SchemaResolverModel, location: Seq<char>, k: Seq<char>)
    requires
        well_named(m),
        bundled_key(m, text::trim_spec(location)) == Some(k),
        bundled_text(m.bundled, k) is Some,
    ensures
        resolved(m, location) == Ok::<(Seq<char>, Option<Seq<char>>), ErrorModel>(
            (bundled_text(m.bundled, k)->0, None),
        ),
        resolved(m, k) == resolved(m, location),
        include_key(m, k) == include_key(m, location),
{
    lemma_key_known(m, m.base_dirs, text::trim_spec(location));
    lemma_known_trimmed(m, k);
}

/// Resolvers are well named, and stay so when a text is added.
pub proof fn law_stays_well_named(m: SchemaResolverModel, name: Seq<char>, text: Seq<char>)
    requires
        well_named(m),
    ensures
        well_named(no_schemas()),
        well_named(with_text(m, name, text)),
{
    text::law_trim_twice(name);
    let r = with_text(m, name, text);
    let k = text::trim_spec(name);
    let n = strmap::rank(m.bundled, k);
    strmap::lemma_rank(m.bundled, k);
    assert forall|i: int| 0 <= i < r.bundled.len() implies text::trim_spec(
        (#[trigger] r.bundled[i]).0,
    ) == r.bundled[i].0 by {
        if i < n {
            assert(r.bundled[i] == m.bundled[i]);
        } else if i > n {
            assert(r.bundled[i] == m.bundled[i] || r.bundled[i] == m.bundled[i - 1]);
        }
    }
}

/// Locations that name one standard schema by its file name have one key: the second
/// is not taken in again.
pub proof fn law_standard_taken_once(m: SchemaResolverModel, a: Seq<char>, b: Seq<char>)
    requires
        bundled_key(m, text::trim_spec(a)) is Some,
        bundled_key(m, text::trim_spec(b)) == bundled_key(m, text::trim_spec(a)),
    ensures
        registered(m, a).included.contains(include_key(registered(m, a), b)),
        registered(registered(m, a), b) == registered(m, a),
{
    law_registered_once(m, a);
    let r = registered(m, a);
    assert(include_key(r, b) == include_key(r, a));
}

proof fn lemma_last_part(a: Seq<char>, n: nat)
    ensures
        text::after_last(a + "_"@ + numbers::decimal(n), '_') == numbers::decimal(n),
{
    reveal_strlit("_");
    let d = numbers::decimal(n);
    let s = a + "_"@ + d;
    numbers::law_decimal_digits(n);
    text::lemma_char_rpos(s, '_');
    assert(s[a.len() as int] == '_');
    assert forall|i: int| a.len() < i < s.len() implies s[i] != '_' by {
        assert(s[i] == d[i - a.len() - 1]);
        assert(numbers::is_digit(d[i - a.len() - 1]));
    }
    assert(text::char_rpos(s, '_') == Some(a.len() as int));
    assert(s.skip(a.len() as int + 1) =~= d);
}

/// Types without a name that have different numbers have different names.
pub proof fn law_inline_names_differ(a: Seq<char>, i: u64, b: Seq<char>, j: u64)
    requires
        i != j,
    ensures
        inline_name(a, i) != inline_name(b, j),
{
    lemma_last_part("__inline_"@ + a, i as nat);
    lemma_last_part("__inline_"@ + b, j as nat);
    numbers::law_decimal_digits(i as nat);
    numbers::law_decimal_digits(j as nat);
}

/// A location that names a bundled schema by itself or by its file name leads to
/// the same schema whatever the directories and files are.
pub proof fn law_bundled_first(m: SchemaResolverModel, n: SchemaResolverModel, location: Seq<char>)
    requires
        m.bundled == n.bundled,
        ({
            let loc = text::trim_spec(location);
            known(m.bundled, loc) || known(m.bundled, relative(loc)) || known(
                m.bundled,
                file_name(loc),
            )
        }),
    ensures
        resolved(m, location) == resolved(n, location),
        include_key(m, location) == include_key(n, location),
{
}

/// The resolver after it has named so many types.
pub open spec fn after_naming(m: SchemaResolverModel, n: nat) -> SchemaResolverModel
    decreases n,
{
    if n == 0 {
        m
    } else {
        let before = after_naming(m, (n - 1) as nat);
        SchemaResolverModel { inline_types: next_number(before.inline_types), ..before }
    }
}

/// After `n` names, counted from a new resolver, the next one has the number `n`.
pub proof fn law_names_are_numbered(n: nat, kind: Seq<char>)
    requires
        n <= u64::MAX,
    ensures
        after_naming(no_schemas(), n).inline_types == n,
        inline_name(kind, after_naming(no_schemas(), n).inline_types) == "__inline_"@ + kind + "_"@
            + numbers::decimal(n),
    decreases n,
{
    if n > 0 {
        law_names_are_numbered((n - 1) as nat, kind);
    }
}

/// No name is given twice, whatever the kinds are.
pub proof fn law_names_never_repeat(i: nat, a: Seq<char>, j: nat, b: Seq<char>)
    requires
        i < j <= u64::MAX,
    ensures
        inline_name(a, after_naming(no_schemas(), i).inline_types) != inline_name(
            b,
            after_naming(no_schemas(), j).inline_types,
        ),
{
    law_names_are_numbered(i, a);
    law_names_are_numbered(j, b);
    law_inline_names_differ(a, i as u64, b, j as u64);
}

/// No step of a path that was made clean is empty or a dot, and where the path begins at
/// the root none goes up.
pub proof fn law_clean_steps(steps: Seq<Seq<char>>, k: nat, absolute: bool)
    ensures
        forall|i: int|
            0 <= i < steps_left(steps, k, absolute).len() ==> (#[trigger] steps_left(
                steps,
                k,
                absolute,
            )[i]).len() > 0 && steps_left(steps, k, absolute)[i] != "."@ && (absolute
                ==> steps_left(steps, k, absolute)[i] != ".."@),
    decreases k,
{
    if k > 0 && k <= steps.len() {
        law_clean_steps(steps, (k - 1) as nat, absolute);
        let before = steps_left(steps, (k - 1) as nat, absolute);
        if before.len() > 0 {
            assert(before[before.len() - 1] == before.last());
        }
    }
}

/// A file that is found is there; it stands in the directory of resources if that has one,
/// and else in the last directory that has one.
pub proof fn law_found_file(m: SchemaResolverModel, loc: Seq<char>)
    ensures
        found_file(m, loc) matches Some(p) ==> strmap::lookup(m.files, p) is Some,
        m.resource_root matches Some(root) ==> (strmap::lookup(
            m.files,
            joined(root, loc),
        ) is Some ==> found_file(m, loc) == Some(joined(root, loc))),
        m.resource_root is None && m.base_dirs.len() > 0 && strmap::lookup(
            m.files,
            joined(m.base_dirs.last(), loc),
        ) is Some ==> found_file(m, loc) == Some(joined(m.base_dirs.last(), loc)),
{
    lemma_file_in_last(m.files, m.base_dirs, loc);
}

proof fn lemma_file_in_last(
    files: Seq<(Seq<char>, Seq<char>)>,
    dirs: Seq<Seq<char>>,
    loc: Seq<char>,
)
    ensures
        file_in_last(files, dirs, loc) matches Some(p) ==> strmap::lookup(files, p) is Some,
    decreases dirs.len(),
{
    if dirs.len() > 0 {
        lemma_file_in_last(files, dirs.drop_last(), loc);
    }
}

} // verus!
