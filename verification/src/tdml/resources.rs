//! The files that TDML tests name.

use vstd::prelude::*;
use crate::encoding;
use crate::encoding::text_from_utf8;
use crate::error::{cat2, cat3};
use crate::strmap;
use crate::tdml::suite;
use crate::tdml::suite::{TdmlResourceContext, TdmlResourceContextModel};
use crate::text;
use crate::text::{
    chars_of, find, part, replace, rfind_char, starts_with, string_of, trim, trim_start_matches,
};
use crate::values::Duplicate;

verus! {

broadcast use vstd::string::group_string_axioms;

/// A path with forward slashes only.
pub open spec fn slashed(path: Seq<char>) -> Seq<char> {
    text::replace_spec(path, "\\"@, "/"@)
}

fn slash(path: &str) -> (r: Vec<char>)
    ensures
        r@ == slashed(path@),
{
    let c = chars_of(path);
    proof {
        reveal_strlit("\\");
    }
    replace(c.as_slice(), "\\", "/")
}

/// The part of a path that names a resource.
pub open spec fn resource_path(path: Seq<char>) -> Option<Seq<char>> {
    let p = slashed(path);
    match text::find_spec(p, "org/apache/daffodil/"@) {
        Some(i) => Some(p.skip(i)),
        None => None,
    }
}

/// The part of a path that names a resource.
pub fn tdml_resource_path_from_fs_path(path: &str) -> (r: Option<String>)
    ensures
        text::str_opt(r) == resource_path(path@),
{
    let p = slash(path);
    match find(p.as_slice(), "org/apache/daffodil/") {
        Some(i) => {
            proof {
                text::lemma_find_from(p@, "org/apache/daffodil/"@, 0);
            }
            let rest = part(p.as_slice(), i, p.len());
            assert(rest@ =~= p@.skip(i as int));
            Some(string_of(rest))
        },
        None => None,
    }
}

/// The directory of a path.
pub open spec fn directory(path: Seq<char>) -> Option<Seq<char>> {
    match text::rsplit_once_spec(slashed(path), '/') {
        Some((dir, _)) => Some(dir),
        None => None,
    }
}

/// Where a suite at this path was loaded from.
pub open spec fn context_at(path: Seq<char>) -> TdmlResourceContextModel {
    TdmlResourceContextModel {
        tdml_dir: directory(path),
        tdml_resource_path: resource_path(slashed(path)),
        ..suite::no_resources()
    }
}

impl TdmlResourceContext {
    /// Where a suite at this path was loaded from.
    pub fn from_tdml_path(path: &str) -> (r: Self)
        ensures
            r@ == context_at(path@),
    {
        let p = slash(path);
        let mut r = TdmlResourceContext::default();
        r.tdml_dir = match text::rsplit_once(p.as_slice(), '/') {
            Some((dir, _)) => Some(string_of(dir)),
            None => None,
        };
        let s = string_of(p.as_slice());
        r.tdml_resource_path = tdml_resource_path_from_fs_path(s.as_str());
        r
    }
}

proof fn lemma_no_backslash(s: Seq<char>, at: int)
    requires
        0 <= at <= s.len(),
    ensures
        !text::replace_from(s, "\\"@, "/"@, at).contains('\\'),
    decreases s.len() - at,
{
    reveal_strlit("\\");
    reveal_strlit("/");
    let t = text::replace_from(s, "\\"@, "/"@, at);
    if at < s.len() {
        lemma_no_backslash(s, at + 1);
        let rest = text::replace_from(s, "\\"@, "/"@, at + 1);
        if s[at] == '\\' {
            assert(s.skip(at).take(1) =~= "\\"@);
            assert(text::has_prefix(s.skip(at), "\\"@));
            assert(t =~= seq!['/'] + rest);
        } else {
            assert(s.skip(at)[0] != "\\"@[0]);
            assert(!text::has_prefix(s.skip(at), "\\"@));
            assert(t =~= seq![s[at]] + rest);
        }
        assert forall|i: int| 0 <= i < t.len() implies t[i] != '\\' by {
            if i > 0 {
                assert(t[i] == rest[i - 1]);
            }
        }
    }
}

/// No backward slash is left in the directory of a suite.
pub proof fn law_directory_slashed(path: Seq<char>)
    ensures
        context_at(path).tdml_dir matches Some(d) ==> !d.contains('\\'),
{
    let p = slashed(path);
    lemma_no_backslash(path, 0);
    text::lemma_char_rpos(p, '/');
    match context_at(path).tdml_dir {
        Some(d) => {
            assert forall|i: int| 0 <= i < d.len() implies d[i] != '\\' by {
                assert(d[i] == p[i]);
            }
        },
        None => {},
    }
}

/// The paths at which a file is looked for.
pub open spec fn candidates(name: Seq<char>, ctx: TdmlResourceContextModel) -> Seq<Seq<char>> {
    let n = text::trim_spec(name);
    let under_root = ctx.resource_root + "/"@ + text::trim_start_char(n, '/');
    match ctx.tdml_dir {
        Some(dir) => seq![dir + "/"@ + n, under_root],
        None => seq![under_root],
    }
}

/// The first of these paths at which there is a file, and its bytes.
pub open spec fn first_file(paths: Seq<Seq<char>>, files: Seq<(Seq<char>, Seq<u8>)>) -> Option<
    Seq<u8>,
>
    decreases paths.len(),
{
    if paths.len() == 0 {
        None
    } else {
        match strmap::lookup(files, paths[0]) {
            Some(b) => Some(b),
            None => first_file(paths.skip(1), files),
        }
    }
}

/// The bytes of a file that a test names.
pub open spec fn resource_bytes(name: Seq<char>, ctx: TdmlResourceContextModel) -> Result<
    Seq<u8>,
    Seq<char>,
> {
    match first_file(candidates(name, ctx), ctx.files) {
        Some(b) => Ok(b),
        None => Err("TDMLRunner: data file '"@ + name + "' was not found"@),
    }
}

/// The bytes of a file that a test names.
pub fn load_tdml_resource(res_name: &str, ctx: &TdmlResourceContext) -> (r: Result<
    Vec<u8>,
    String,
>)
    ensures
        encoding::bytes_outcome(r) == resource_bytes(res_name@, ctx@),
{
    let c = chars_of(res_name);
    let n = trim(c.as_slice());
    let rest = string_of(trim_start_matches(n, '/'));
    let under_root = cat3(ctx.resource_root.as_str(), "/", rest.as_str());
    let ghost paths = candidates(res_name@, ctx@);
    let ghost last: Seq<Seq<char>> = seq![under_root@];
    proof {
        reveal_with_fuel(first_file, 3);
        assert(last.skip(1) =~= Seq::<Seq<char>>::empty());
        assert(first_file(last, ctx@.files) == strmap::lookup(ctx@.files, under_root@));
    }
    if let Some(dir) = &ctx.tdml_dir {
        let whole = string_of(n);
        let near = cat3(dir.as_str(), "/", whole.as_str());
        assert(paths.skip(1) =~= last);
        if let Some(b) = ctx.files.get(near.as_str()) {
            assert(b.deep_view() =~= b@);
            let copy = b.copy();
            assert(copy.deep_view() =~= copy@);
            return Ok(copy);
        }
    }
    match ctx.files.get(under_root.as_str()) {
        Some(b) => {
            assert(b.deep_view() =~= b@);
            let copy = b.copy();
            assert(copy.deep_view() =~= copy@);
            Ok(copy)
        },
        None => Err(cat3("TDMLRunner: data file '", res_name, "' was not found")),
    }
}

/// The text of a file that a test names.
pub open spec fn resource_text(name: Seq<char>, ctx: TdmlResourceContextModel) -> Result<
    Seq<char>,
    Seq<char>,
> {
    match resource_bytes(name, ctx) {
        Err(e) => Err(e),
        Ok(b) => encoding::utf8_text(b, "invalid UTF-8 in resource file: "@),
    }
}

/// The text of a file that a test names.
pub fn load_tdml_resource_string(res_name: &str, ctx: &TdmlResourceContext) -> (r: Result<
    String,
    String,
>)
    ensures
        encoding::text_outcome(r) == resource_text(res_name@, ctx@),
{
    let bytes = load_tdml_resource(res_name, ctx)?;
    match text_from_utf8(bytes.as_slice()) {
        Ok(s) => Ok(s),
        Err(e) => Err(cat2("invalid UTF-8 in resource file: ", e.as_str())),
    }
}

/// The path of a large object among the resources.
pub open spec fn blob_path(uri: Seq<char>, root: Seq<char>) -> Seq<char> {
    root + "/"@ + text::trim_start_char(uri, '/')
}

/// The path of a large object among the resources.
pub fn tdml_blob_reference_path(uri: &str, ctx: &TdmlResourceContext) -> (r: String)
    ensures
        r@ == blob_path(uri@, ctx@.resource_root),
{
    let c = chars_of(uri);
    let rest = string_of(trim_start_matches(c.as_slice(), '/'));
    cat3(ctx.resource_root.as_str(), "/", rest.as_str())
}

/// The bytes of a large object that an infoset names by its URI.
pub open spec fn blob_bytes(uri: Seq<char>, ctx: TdmlResourceContextModel) -> Result<
    Seq<u8>,
    Seq<char>,
> {
    let u = text::trim_spec(uri);
    if u.contains('\'') {
        Err("Illegal character"@)
    } else if text::contains_spec(u, "://"@) && !text::has_prefix(u, "file:"@) {
        Err("Blob URI must be a file: "@ + u)
    } else {
        let path = match text::after_prefix(u, "file:"@) {
            Some(rest) => rest,
            None => blob_path(u, ctx.resource_root),
        };
        match strmap::lookup(ctx.files, path) {
            Some(b) => Ok(b),
            None => Err("Unable to open blob for reading: "@ + u),
        }
    }
}

/// The bytes of a large object that an infoset names by its URI.
pub fn resolve_blob_uri_to_bytes(uri: &str, ctx: &TdmlResourceContext) -> (r: Result<
    Vec<u8>,
    String,
>)
    ensures
        encoding::bytes_outcome(r) == blob_bytes(uri@, ctx@),
{
    let c = chars_of(uri);
    let u = trim(c.as_slice());
    if text::contains_char(u, '\'') {
        return Err(crate::values::owned("Illegal character"));
    }
    let shown = string_of(u);
    if text::contains(u, "://") && !starts_with(u, "file:") {
        return Err(cat2("Blob URI must be a file: ", shown.as_str()));
    }
    let path = match text::strip_prefix(u, "file:") {
        Some(rest) => string_of(rest),
        None => tdml_blob_reference_path(shown.as_str(), ctx),
    };
    match ctx.files.get(path.as_str()) {
        Some(b) => {
            assert(b.deep_view() =~= b@);
            let copy = b.copy();
            assert(copy.deep_view() =~= copy@);
            Ok(copy)
        },
        None => Err(cat2("Unable to open blob for reading: ", shown.as_str())),
    }
}

/// A file that a test names is looked for beside the suite first, then among the
/// resources; it is found just where it is at one of these.
pub proof fn law_file_found(name: Seq<char>, ctx: TdmlResourceContextModel)
    ensures
        ({
            let n = text::trim_spec(name);
            let beside = match ctx.tdml_dir {
                Some(dir) => strmap::lookup(ctx.files, dir + "/"@ + n),
                None => None,
            };
            let among = strmap::lookup(
                ctx.files,
                ctx.resource_root + "/"@ + text::trim_start_char(n, '/'),
            );
            match resource_bytes(name, ctx) {
                Ok(b) => beside == Some(b) || (beside is None && among == Some(b)),
                Err(_) => beside is None && among is None,
            }
        }),
{
    reveal_with_fuel(first_file, 3);
}

/// A large object is read from the file that its URI names, or from among the resources; a
/// URI of another kind is an error.
pub proof fn law_blob_found(uri: Seq<char>, ctx: TdmlResourceContextModel)
    ensures
        ({
            let u = text::trim_spec(uri);
            &&& (u.contains('\'') ==> blob_bytes(uri, ctx) is Err)
            &&& (text::contains_spec(u, "://"@) && !text::has_prefix(u, "file:"@) ==> blob_bytes(
                uri,
                ctx,
            ) is Err)
            &&& (!u.contains('\'') && text::has_prefix(u, "file:"@) ==> match blob_bytes(uri, ctx) {
                Ok(b) => strmap::lookup(ctx.files, u.skip("file:"@.len() as int)) == Some(b),
                Err(_) => strmap::lookup(ctx.files, u.skip("file:"@.len() as int)) is None,
            })
        }),
{
}

} // verus!
