//! The workspace scanner and aggregator: from scanned package contents to
//! the registration source and the dependency manifest of the unified
//! output package.
//!
//! Reading the directory tree is the caller's part; this module holds the
//! logic: which functions count as UDFs, how their wrapper names are
//! derived, how packages are ordered, and the exact text that is emitted.

use vstd::prelude::*;
use vstd::string::StrSliceExecFns;
use vstd::string::StringExecFns;
use crate::text::{str_eq, str_lt, lex_lt, lemma_lex_trichotomy, lemma_lex_trans};
use crate::wrapper::{arrow_types_of, pc_name_spec, wrapper_fn_name};

verus! {

broadcast use vstd::string::group_string_axioms;

/// One function found in a scanned source file: its identifier, the names of
/// its single-segment attributes, and the printed types of its ordinary
/// parameters.
#[derive(Debug, PartialEq)]
pub struct SourceFn {
    pub ident: String,
    pub attrs: Vec<String>,
    pub param_types: Vec<String>,
}

/// What parsing a source text finds: the items of the file, in order;
/// absent when the text is not a well-formed source file.
pub uninterp spec fn items_of_source(text: Seq<char>) -> Option<Seq<syn::Item>>;

/// What one parsed item contributes: for a `fn` item its identifier, its
/// single-segment attribute names, and the printed types of its ordinary
/// parameters; absent for any other kind of item.
pub uninterp spec fn item_fn_info(item: syn::Item) -> Option<
    (Seq<char>, Seq<Seq<char>>, Seq<Seq<char>>),
>;

#[verifier::external_type_specification]
#[verifier::external_body]
pub struct ExSynItem(syn::Item);

/// Relies on `syn::parse_file`: the items of the parsed source file.
#[verifier::external_body]
fn parse_items(text: &str) -> (r: Option<Vec<syn::Item>>)
    ensures
        match r {
            Some(v) => items_of_source(text@) == Some(v@),
            None => items_of_source(text@) is None,
        },
{
    match syn::parse_file(text) {
        Ok(f) => Some(f.items),
        Err(_) => None,
    }
}

/// Relies on `syn`'s item model and the printed form of its types: a `fn`
/// item's identifier, single-segment attribute names, and printed parameter
/// types.
#[verifier::external_body]
fn item_to_fn_info(item: &syn::Item) -> (r: Option<SourceFn>)
    ensures
        match r {
            Some(f) => item_fn_info(*item) == Some(
                (f.ident@, f.attrs.deep_view(), f.param_types.deep_view()),
            ),
            None => item_fn_info(*item) is None,
        },
{
    let f = match item {
        syn::Item::Fn(f) => f,
        _ => return None,
    };
    let mut attrs: Vec<String> = Vec::new();
    for a in &f.attrs {
        if let Some(id) = a.path().get_ident() { attrs.push(id.to_string()); }
    }
    let mut tys: Vec<String> = Vec::new();
    for p in &f.sig.inputs {
        if let syn::FnArg::Typed(t) = p { tys.push(quote::ToTokens::to_token_stream(&t.ty).to_string()); }
    }
    Some(SourceFn { ident: f.sig.ident.to_string(), attrs, param_types: tys })
}

/// The function records of a sequence of parsed items.
pub open spec fn fn_infos_of(items: Seq<syn::Item>) -> Seq<
    (Seq<char>, Seq<Seq<char>>, Seq<Seq<char>>),
>
    decreases items.len(),
{
    if items.len() == 0 {
        Seq::empty()
    } else {
        fn_infos_of(items.drop_last()) + (match item_fn_info(items.last()) {
            Some(f) => seq![f],
            None => Seq::empty(),
        })
    }
}

/// What scanning a source text finds: one record for each top-level `fn`
/// item, in order; absent when the text is not a well-formed source file.
pub open spec fn source_fns(text: Seq<char>) -> Option<
    Seq<(Seq<char>, Seq<Seq<char>>, Seq<Seq<char>>)>,
> {
    match items_of_source(text) {
        Some(items) => Some(fn_infos_of(items)),
        None => None,
    }
}

/// The view of a scanned function list.
pub open spec fn source_fns_view(v: Seq<SourceFn>) -> Seq<
    (Seq<char>, Seq<Seq<char>>, Seq<Seq<char>>),
> {
    Seq::new(
        v.len(),
        |i: int| (v[i].ident@, v[i].attrs.deep_view(), v[i].param_types.deep_view()),
    )
}

/// Scan one source text for its top-level functions.
fn scan_source(text: &str) -> (r: Option<Vec<SourceFn>>)
    ensures
        match r {
            Some(v) => source_fns(text@) == Some(source_fns_view(v@)),
            None => source_fns(text@) is None,
        },
{
    let items = match parse_items(text) {
        Some(i) => i,
        None => {
            return None;
        },
    };
    let mut out: Vec<SourceFn> = Vec::new();
    let mut i: usize = 0;
    proof {
        assert(source_fns_view(out@) =~= fn_infos_of(items@.take(0)));
    }
    while i < items.len()
        invariant
            i <= items.len(),
            source_fns_view(out@) == fn_infos_of(items@.take(i as int)),
        decreases items.len() - i,
    {
        let ghost prev = source_fns_view(out@);
        match item_to_fn_info(&items[i]) {
            Some(f) => {
                out.push(f);
            },
            None => {},
        }
        i = i + 1;
        proof {
            assert(items@.take(i as int).drop_last() =~= items@.take(i as int - 1));
            assert(items@.take(i as int).last() == items@[i as int - 1]);
            assert(source_fns_view(out@) =~= fn_infos_of(items@.take(i as int)));
        }
    }
    proof {
        assert(items@.take(items@.len() as int) =~= items@);
    }
    Some(out)
}

/// Whether the manifest text is well-formed at all; a manifest that does
/// not parse is fatal for the invocation.
pub uninterp spec fn manifest_parses(text: Seq<char>) -> bool;

/// What a well-formed manifest text declares as its package name: the
/// string at `package.name`, absent when it holds none.
pub uninterp spec fn manifest_package_name(text: Seq<char>) -> Option<Seq<char>>;

/// Relies on the `toml` parser: whether the manifest text parses, and if so
/// the string at `package.name`.
#[verifier::external_body]
fn read_package_name(text: &str) -> (r: Result<Option<String>, ScanError>)
    ensures
        (r is Err) == !manifest_parses(text@),
        r matches Err(e) ==> e is UnparsableManifest,
        r matches Ok(o) ==> match o {
            Some(s) => manifest_package_name(text@) == Some(s@),
            None => manifest_package_name(text@) is None,
        },
{
    let value: toml::Value = match text.parse() {
        Ok(v) => v,
        Err(_) => return Err(ScanError::UnparsableManifest),
    };
    let pkg = match value.get("package") {
        Some(p) => p,
        None => return Ok(None),
    };
    match pkg.get("name") {
        Some(n) => Ok(n.as_str().map(|s| s.to_string())),
        None => Ok(None),
    }
}

/// A path with its trailing separators stripped.
pub open spec fn trim_slashes(s: Seq<char>) -> Seq<char>
    decreases s.len(),
{
    if s.len() > 0 && s.last() == '/' {
        trim_slashes(s.drop_last())
    } else {
        s
    }
}

/// The text after the last separator.
pub open spec fn after_last_slash(s: Seq<char>) -> Seq<char>
    decreases s.len(),
{
    if s.len() == 0 {
        s
    } else if s.last() == '/' {
        Seq::empty()
    } else {
        after_last_slash(s.drop_last()).push(s.last())
    }
}

/// The final component of a path: what follows the last separator once
/// trailing separators are stripped; absent for the root and for paths
/// ending in the current or parent directory.
pub open spec fn dir_name_spec(path: Seq<char>) -> Option<Seq<char>> {
    let b = after_last_slash(trim_slashes(path));
    if b.len() == 0 || b == "."@ || b == ".."@ {
        None
    } else {
        Some(b)
    }
}

proof fn lemma_trim(s: Seq<char>, end: int)
    requires
        0 <= end <= s.len(),
        forall|j: int| end <= j < s.len() ==> s[j] == '/',
        end == 0 || s[end - 1] != '/',
    ensures
        trim_slashes(s) == s.take(end),
    decreases s.len(),
{
    if s.len() > end {
        assert(s.last() == '/');
        lemma_trim(s.drop_last(), end);
        assert(s.drop_last().take(end) =~= s.take(end));
    } else {
        assert(trim_slashes(s) == s);
        assert(s.take(end) =~= s);
    }
}

proof fn lemma_after(t: Seq<char>, start: int)
    requires
        0 <= start <= t.len(),
        forall|i: int| start <= i < t.len() ==> t[i] != '/',
        start == 0 || t[start - 1] == '/',
    ensures
        after_last_slash(t) == t.skip(start),
    decreases t.len(),
{
    if t.len() == 0 {
        assert(t.skip(0) =~= t);
    } else if t.len() == start {
        assert(t.last() == t[start - 1]);
        assert(t.skip(start) =~= Seq::<char>::empty());
    } else {
        assert(t.last() != '/');
        lemma_after(t.drop_last(), start);
        assert(t.drop_last().skip(start).push(t.last()) =~= t.skip(start));
    }
}

/// The final path component of a directory, used as the package's directory
/// name in the emitted manifest.
pub fn _get_package_dir_name(path: &str) -> (r: Option<String>)
    ensures
        match r {
            Some(s) => dir_name_spec(path@) == Some(s@),
            None => dir_name_spec(path@) is None,
        },
{
    let n = path.unicode_len();
    let mut end: usize = n;
    loop
        invariant_except_break
            0 <= end <= n,
            n == path@.len(),
            forall|j: int| end <= j < n ==> path@[j] == '/',
        ensures
            0 <= end <= n,
            n == path@.len(),
            forall|j: int| end <= j < n ==> path@[j] == '/',
            end == 0 || path@[end - 1] != '/',
        decreases end,
    {
        if end == 0 {
            break;
        }
        if path.get_char(end - 1) != '/' {
            break;
        }
        end = end - 1;
    }
    let mut start: usize = end;
    loop
        invariant_except_break
            0 <= start <= end,
            end <= n,
            n == path@.len(),
            forall|i: int| start <= i < end ==> path@[i] != '/',
        ensures
            0 <= start <= end,
            end <= n,
            n == path@.len(),
            forall|i: int| start <= i < end ==> path@[i] != '/',
            start == 0 || path@[start - 1] == '/',
        decreases start,
    {
        if start == 0 {
            break;
        }
        if path.get_char(start - 1) == '/' {
            break;
        }
        start = start - 1;
    }
    proof {
        lemma_trim(path@, end as int);
        let t = path@.take(end as int);
        assert(forall|i: int| start <= i < t.len() ==> t[i] != '/');
        lemma_after(t, start as int);
        assert(after_last_slash(trim_slashes(path@)) =~= path@.subrange(
            start as int,
            end as int,
        ));
    }
    let b = path.substring_char(start, end);
    if b.is_empty() || str_eq(b, ".") || str_eq(b, "..") {
        None
    } else {
        Some(b.to_owned())
    }
}

/// The package name and directory name of a scanned directory whose
/// manifest parses: the name the manifest declares, paired with the
/// directory's own name.
pub open spec fn pkg_name_and_dir(manifest: Seq<char>, path: Seq<char>) -> Option<
    (Seq<char>, Seq<char>),
> {
    match manifest_package_name(manifest) {
        Some(n) => match dir_name_spec(path) {
            Some(d) => Some((n, d)),
            None => None,
        },
        None => None,
    }
}

/// The package name its manifest declares and the directory name of the
/// package's path; nothing when either is missing, and an error — fatal for
/// the invocation — when the manifest does not parse at all.
pub fn _get_cargo_package_name_and_dir(manifest_text: &str, path: &str) -> (r: Result<
    Option<(String, String)>,
    ScanError,
>)
    ensures
        (r is Err) == !manifest_parses(manifest_text@),
        r matches Err(e) ==> e is UnparsableManifest,
        r matches Ok(o) ==> match o {
            Some(p) => pkg_name_and_dir(manifest_text@, path@) == Some((p.0@, p.1@)),
            None => pkg_name_and_dir(manifest_text@, path@) is None,
        },
{
    match read_package_name(manifest_text) {
        Ok(Some(name)) => match _get_package_dir_name(path) {
            Some(dir) => Ok(Some((name, dir))),
            None => Ok(None),
        },
        Ok(None) => Ok(None),
        Err(e) => Err(e),
    }
}

/// A generation failure, fatal for the invocation: a scanned source file or
/// a package manifest that does not parse.
#[derive(Debug, PartialEq, Clone, Copy)]
pub enum ScanError {
    UnparsableSource,
    UnparsableManifest,
}

impl ScanError {
    /// The diagnostic text of the failure.
    pub fn message(&self) -> (r: String)
        ensures
            *self is UnparsableSource ==> r@ == "Failed to parse file"@,
            *self is UnparsableManifest ==> r@ == "Failed to parse Cargo.toml"@,
    {
        match self {
            ScanError::UnparsableSource => "Failed to parse file".to_owned(),
            ScanError::UnparsableManifest => "Failed to parse Cargo.toml".to_owned(),
        }
    }
}

/// The wrapper names of the annotated functions of a scanned file, in
/// source order.
pub open spec fn wrapper_names_of(
    fs: Seq<(Seq<char>, Seq<Seq<char>>, Seq<Seq<char>>)>,
) -> Seq<Seq<char>>
    decreases fs.len(),
{
    if fs.len() == 0 {
        Seq::empty()
    } else {
        let pre = wrapper_names_of(fs.drop_last());
        let f = fs.last();
        if f.1.contains("udf"@) {
            pre.push(pc_name_spec(f.0, arrow_types_of(f.2)))
        } else {
            pre
        }
    }
}

/// The wrapper names one source text contributes, absent when it does not
/// parse.
pub open spec fn source_wrapper_names(text: Seq<char>) -> Option<Seq<Seq<char>>> {
    match source_fns(text) {
        Some(fs) => Some(wrapper_names_of(fs)),
        None => None,
    }
}

/// The wrapper names of the first `i` sources of a package, concatenated in
/// order; absent as soon as one source does not parse.
pub open spec fn sources_upto(srcs: Seq<Seq<char>>, i: int) -> Option<Seq<Seq<char>>>
    decreases i,
{
    if i <= 0 {
        Some(Seq::empty())
    } else {
        match sources_upto(srcs, i - 1) {
            Some(pre) => match source_wrapper_names(srcs[i - 1]) {
                Some(ws) => Some(pre + ws),
                None => None,
            },
            None => None,
        }
    }
}

/// All wrapper names a package's sources contribute.
pub open spec fn package_wrapper_names(srcs: Seq<Seq<char>>) -> Option<Seq<Seq<char>>> {
    sources_upto(srcs, srcs.len() as int)
}

pub proof fn lemma_sources_none_sticks(srcs: Seq<Seq<char>>, i: int, k: int)
    requires
        0 <= i <= k,
        sources_upto(srcs, i) is None,
    ensures
        sources_upto(srcs, k) is None,
    decreases k - i,
{
    if i < k {
        lemma_sources_none_sticks(srcs, i + 1, k);
    }
}

/// Whether one of the attribute names is the UDF annotation.
fn has_udf_attr(attrs: &Vec<String>) -> (r: bool)
    ensures
        r == attrs.deep_view().contains("udf"@),
{
    let mut i: usize = 0;
    while i < attrs.len()
        invariant
            i <= attrs.len(),
            forall|j: int| 0 <= j < i ==> attrs.deep_view()[j] != "udf"@,
        decreases attrs.len() - i,
    {
        proof {
            assert(attrs.deep_view()[i as int] == attrs@[i as int]@);
        }
        if str_eq(attrs[i].as_str(), "udf") {
            proof {
                assert(attrs.deep_view().contains("udf"@));
            }
            return true;
        }
        i = i + 1;
    }
    proof {
        assert(!attrs.deep_view().contains("udf"@));
    }
    false
}

/// The wrapper names of the annotated functions in one scanned file.
fn wrappers_of_fns(fns: &Vec<SourceFn>) -> (r: Vec<String>)
    ensures
        r.deep_view() == wrapper_names_of(source_fns_view(fns@)),
{
    let mut out: Vec<String> = Vec::new();
    let mut i: usize = 0;
    while i < fns.len()
        invariant
            i <= fns.len(),
            out.deep_view() == wrapper_names_of(source_fns_view(fns@).take(i as int)),
        decreases fns.len() - i,
    {
        let ghost fv = source_fns_view(fns@);
        let ghost prev = out.deep_view();
        let f = &fns[i];
        if has_udf_attr(&f.attrs) {
            out.push(wrapper_fn_name(f.ident.as_str(), &f.param_types));
        }
        i = i + 1;
        proof {
            assert(fv.take(i as int).drop_last() =~= fv.take(i as int - 1));
            assert(fv.take(i as int).last() == fv[i as int - 1]);
            assert(fv[i as int - 1].1 == f.attrs.deep_view());
            if f.attrs.deep_view().contains("udf"@) {
                assert(out.deep_view() =~= prev.push(
                    pc_name_spec(fv[i as int - 1].0, arrow_types_of(fv[i as int - 1].2)),
                ));
            }
        }
    }
    proof {
        assert(source_fns_view(fns@).take(fns@.len() as int) =~= source_fns_view(fns@));
    }
    out
}

/// The wrapper names of every annotated function in the package's sources,
/// in source order; fails when a source file does not parse.
fn package_wrappers(sources: &Vec<String>) -> (r: Result<Vec<String>, ScanError>)
    ensures
        (r is Ok) == (package_wrapper_names(sources.deep_view()) is Some),
        r matches Ok(v) ==> package_wrapper_names(sources.deep_view()) == Some(v.deep_view()),
{
    let mut out: Vec<String> = Vec::new();
    let mut i: usize = 0;
    while i < sources.len()
        invariant
            i <= sources.len(),
            sources_upto(sources.deep_view(), i as int) matches Some(ws) && out.deep_view() == ws,
        decreases sources.len() - i,
    {
        let ghost sv = sources.deep_view();
        let ghost prev = out.deep_view();
        proof {
            assert(sv[i as int] == sources@[i as int]@);
        }
        match scan_source(sources[i].as_str()) {
            Some(fns) => {
                let mut add = wrappers_of_fns(&fns);
                let ghost addv = add.deep_view();
                let mut j: usize = 0;
                while j < add.len()
                    invariant
                        j <= add.len(),
                        addv == add.deep_view(),
                        out.deep_view() == prev + addv.take(j as int),
                    decreases add.len() - j,
                {
                    proof {
                        assert(add.deep_view()[j as int] == add@[j as int]@);
                    }
                    let ghost before = out.deep_view();
                    out.push(add[j].clone());
                    j = j + 1;
                    proof {
                        assert(out.deep_view() =~= before.push(addv[j as int - 1]));
                        assert(out.deep_view() =~= prev + addv.take(j as int));
                    }
                }
                proof {
                    assert(addv.take(add@.len() as int) =~= addv);
                }
            },
            None => {
                proof {
                    assert(sources_upto(sv, i as int + 1) is None);
                    lemma_sources_none_sticks(sv, i as int + 1, sv.len() as int);
                }
                return Err(ScanError::UnparsableSource);
            },
        }
        i = i + 1;
        proof {
            assert(sources_upto(sv, i as int) is Some);
        }
    }
    Ok(out)
}

/// A scanned package: the name its manifest declares, the name of its
/// directory, and the text of its source files in the order they were
/// found.
#[derive(Debug, PartialEq)]
pub struct PackageScan {
    pub name: String,
    pub dir: String,
    pub sources: Vec<String>,
}

/// A package's discovered UDFs: its wrapper names in source order.
#[derive(Debug, PartialEq)]
pub struct PackageUdfs {
    pub name: String,
    pub dir: String,
    pub wrapper_names: Vec<String>,
}

/// The contract-level view of a package entry: name, directory, wrapper
/// names.
pub open spec fn pkg_views(v: Seq<PackageUdfs>) -> Seq<(Seq<char>, Seq<char>, Seq<Seq<char>>)> {
    Seq::new(v.len(), |i: int| (v[i].name@, v[i].dir@, v[i].wrapper_names.deep_view()))
}

/// Insertion into a list ordered by package name: a smaller name goes in
/// front, an equal name replaces the old entry, a larger name moves on.
pub open spec fn insert_sorted(
    m: Seq<(Seq<char>, Seq<char>, Seq<Seq<char>>)>,
    e: (Seq<char>, Seq<char>, Seq<Seq<char>>),
) -> Seq<(Seq<char>, Seq<char>, Seq<Seq<char>>)>
    decreases m.len(),
{
    if m.len() == 0 {
        seq![e]
    } else if lex_lt(e.0, m[0].0) {
        seq![e] + m
    } else if e.0 == m[0].0 {
        seq![e] + m.drop_first()
    } else {
        seq![m[0]] + insert_sorted(m.drop_first(), e)
    }
}

proof fn lemma_insert_at(
    m: Seq<(Seq<char>, Seq<char>, Seq<Seq<char>>)>,
    e: (Seq<char>, Seq<char>, Seq<Seq<char>>),
    j: int,
)
    requires
        0 <= j <= m.len(),
        forall|x: int| 0 <= x < j ==> lex_lt(#[trigger] m[x].0, e.0),
        j < m.len() ==> !lex_lt(m[j].0, e.0),
    ensures
        insert_sorted(m, e) == if j < m.len() && m[j].0 == e.0 {
            m.update(j, e)
        } else {
            m.insert(j, e)
        },
    decreases m.len(),
{
    if j == 0 {
        if m.len() == 0 {
            assert(insert_sorted(m, e) =~= m.insert(0, e));
        } else {
            lemma_lex_trichotomy(e.0, m[0].0);
            if lex_lt(e.0, m[0].0) {
                assert(seq![e] + m =~= m.insert(0, e));
            } else {
                assert(e.0 == m[0].0);
                assert(seq![e] + m.drop_first() =~= m.update(0, e));
            }
        }
    } else {
        assert(lex_lt(m[0].0, e.0));
        lemma_lex_trichotomy(m[0].0, e.0);
        lemma_insert_at(m.drop_first(), e, j - 1);
        assert(forall|x: int|
            0 <= x < j - 1 ==> lex_lt(#[trigger] m.drop_first()[x].0, e.0)) by {
            assert(forall|x: int| 0 <= x < j - 1 ==> m.drop_first()[x] == m[x + 1]);
        }
        if j < m.len() && m[j].0 == e.0 {
            assert(seq![m[0]] + m.drop_first().update(j - 1, e) =~= m.update(j, e));
        } else {
            assert(seq![m[0]] + m.drop_first().insert(j - 1, e) =~= m.insert(j, e));
        }
    }
}

/// The packages of the first `i` scans, assembled: per package the wrapper
/// names of its sources; packages without UDFs are skipped, and each package
/// is placed by name, a later scan of the same name replacing the earlier.
pub open spec fn extract_upto(pkgs: Seq<PackageScan>, i: int) -> Option<
    Seq<(Seq<char>, Seq<char>, Seq<Seq<char>>)>,
>
    decreases i,
{
    if i <= 0 {
        Some(Seq::empty())
    } else {
        match extract_upto(pkgs, i - 1) {
            Some(m) => match package_wrapper_names(pkgs[i - 1].sources.deep_view()) {
                Some(ws) => if ws.len() == 0 {
                    Some(m)
                } else {
                    Some(insert_sorted(m, (pkgs[i - 1].name@, pkgs[i - 1].dir@, ws)))
                },
                None => None,
            },
            None => None,
        }
    }
}

/// The assembled package map of a whole scan.
pub open spec fn extract_spec(pkgs: Seq<PackageScan>) -> Option<
    Seq<(Seq<char>, Seq<char>, Seq<Seq<char>>)>,
> {
    extract_upto(pkgs, pkgs.len() as int)
}

pub proof fn lemma_extract_none_sticks(pkgs: Seq<PackageScan>, i: int, k: int)
    requires
        0 <= i <= k,
        extract_upto(pkgs, i) is None,
    ensures
        extract_upto(pkgs, k) is None,
    decreases k - i,
{
    if i < k {
        lemma_extract_none_sticks(pkgs, i + 1, k);
    }
}

/// Assemble the scanned packages: skip packages without UDFs, and order the
/// rest by package name, a later package replacing an earlier one of the
/// same name.
pub fn _extract_package_and_udfs(packages: &Vec<PackageScan>) -> (r: Result<
    Vec<PackageUdfs>,
    ScanError,
>)
    ensures
        (r is Ok) == (extract_spec(packages@) is Some),
        r matches Ok(v) ==> extract_spec(packages@) == Some(pkg_views(v@)),
{
    let mut out: Vec<PackageUdfs> = Vec::new();
    let mut i: usize = 0;
    proof {
        assert(pkg_views(out@) =~= Seq::<(Seq<char>, Seq<char>, Seq<Seq<char>>)>::empty());
    }
    while i < packages.len()
        invariant
            i <= packages.len(),
            extract_upto(packages@, i as int) matches Some(m) && pkg_views(out@) == m,
        decreases packages.len() - i,
    {
        let p = &packages[i];
        let ghost m0 = pkg_views(out@);
        match package_wrappers(&p.sources) {
            Ok(ws) => {
                if ws.len() > 0 {
                    let e = PackageUdfs {
                        name: p.name.clone(),
                        dir: p.dir.clone(),
                        wrapper_names: ws,
                    };
                    let ghost ev = (e.name@, e.dir@, e.wrapper_names.deep_view());
                    let n = out.len();
                    let mut j: usize = 0;
                    loop
                        invariant_except_break
                            j <= n,
                            n == out.len(),
                            pkg_views(out@) == m0,
                            ev == (e.name@, e.dir@, e.wrapper_names.deep_view()),
                            forall|x: int| 0 <= x < j ==> lex_lt(#[trigger] m0[x].0, ev.0),
                        ensures
                            j <= n,
                            n == out.len(),
                            pkg_views(out@) == m0,
                            forall|x: int| 0 <= x < j ==> lex_lt(#[trigger] m0[x].0, ev.0),
                            j < n ==> !lex_lt(m0[j as int].0, ev.0),
                        decreases n - j,
                    {
                        if j == n {
                            break;
                        }
                        proof {
                            assert(m0[j as int].0 == out@[j as int].name@);
                        }
                        if !str_lt(out[j].name.as_str(), e.name.as_str()) {
                            break;
                        }
                        j = j + 1;
                    }
                    proof {
                        lemma_insert_at(m0, ev, j as int);
                    }
                    if j < out.len() && str_eq(out[j].name.as_str(), e.name.as_str()) {
                        proof {
                            assert(m0[j as int].0 == out@[j as int].name@);
                        }
                        out.remove(j);
                        out.insert(j, e);
                        proof {
                            assert(pkg_views(out@) =~= m0.update(j as int, ev));
                        }
                    } else {
                        proof {
                            if j < out.len() {
                                assert(m0[j as int].0 == out@[j as int].name@);
                            }
                        }
                        out.insert(j, e);
                        proof {
                            assert(pkg_views(out@) =~= m0.insert(j as int, ev));
                        }
                    }
                }
            },
            Err(err) => {
                proof {
                    assert(extract_upto(packages@, i as int + 1) is None);
                    lemma_extract_none_sticks(packages@, i as int + 1, packages@.len() as int);
                }
                return Err(err);
            },
        }
        i = i + 1;
        proof {
            assert(extract_upto(packages@, i as int) is Some);
        }
    }
    Ok(out)
}

/// The package entries stand in strictly increasing name order.
pub open spec fn sorted_by_name(m: Seq<(Seq<char>, Seq<char>, Seq<Seq<char>>)>) -> bool {
    forall|i: int, j: int|
        #![trigger m[i], m[j]]
        0 <= i < j < m.len() ==> lex_lt(m[i].0, m[j].0)
}

proof fn lemma_insert_elems(
    m: Seq<(Seq<char>, Seq<char>, Seq<Seq<char>>)>,
    e: (Seq<char>, Seq<char>, Seq<Seq<char>>),
)
    ensures
        forall|x: int|
            0 <= x < insert_sorted(m, e).len() ==> #[trigger] insert_sorted(m, e)[x] == e
                || m.contains(insert_sorted(m, e)[x]),
    decreases m.len(),
{
    if m.len() > 0 && !lex_lt(e.0, m[0].0) && e.0 != m[0].0 {
        lemma_insert_elems(m.drop_first(), e);
        assert forall|x: int| 0 <= x < insert_sorted(m, e).len() implies #[trigger] insert_sorted(
            m,
            e,
        )[x] == e || m.contains(insert_sorted(m, e)[x]) by {
            if x > 0 {
                let v = insert_sorted(m, e)[x];
                assert(v == insert_sorted(m.drop_first(), e)[x - 1]);
                if v != e {
                    let k = choose|k: int|
                        0 <= k < m.drop_first().len() && m.drop_first()[k] == v;
                    assert(m[k + 1] == v);
                }
            }
        }
    }
}

proof fn lemma_insert_preserves_sorted(
    m: Seq<(Seq<char>, Seq<char>, Seq<Seq<char>>)>,
    e: (Seq<char>, Seq<char>, Seq<Seq<char>>),
)
    requires
        sorted_by_name(m),
    ensures
        sorted_by_name(insert_sorted(m, e)),
    decreases m.len(),
{
    if m.len() == 0 {
    } else if lex_lt(e.0, m[0].0) {
        let r = seq![e] + m;
        assert forall|i: int, j: int|
            #![trigger r[i], r[j]]
            0 <= i < j < r.len() implies lex_lt(r[i].0, r[j].0) by {
            if i == 0 {
                assert(r[j] == m[j - 1]);
                if j - 1 > 0 {
                    lemma_lex_trans(e.0, m[0].0, m[j - 1].0);
                }
            } else {
                assert(r[i] == m[i - 1] && r[j] == m[j - 1]);
            }
        }
    } else if e.0 == m[0].0 {
        let r = seq![e] + m.drop_first();
        assert forall|i: int, j: int|
            #![trigger r[i], r[j]]
            0 <= i < j < r.len() implies lex_lt(r[i].0, r[j].0) by {
            if i == 0 {
                assert(r[j] == m[j]);
            } else {
                assert(r[i] == m[i] && r[j] == m[j]);
            }
        }
    } else {
        lemma_lex_trichotomy(e.0, m[0].0);
        assert(lex_lt(m[0].0, e.0));
        assert(sorted_by_name(m.drop_first())) by {
            assert(forall|i: int, j: int|
                #![trigger m.drop_first()[i], m.drop_first()[j]]
                0 <= i < j < m.drop_first().len() ==> m.drop_first()[i] == m[i + 1]
                    && m.drop_first()[j] == m[j + 1]);
        }
        lemma_insert_preserves_sorted(m.drop_first(), e);
        lemma_insert_elems(m.drop_first(), e);
        let r = seq![m[0]] + insert_sorted(m.drop_first(), e);
        let ins = insert_sorted(m.drop_first(), e);
        assert forall|i: int, j: int|
            #![trigger r[i], r[j]]
            0 <= i < j < r.len() implies lex_lt(r[i].0, r[j].0) by {
            if i == 0 {
                let v = r[j];
                assert(v == ins[j - 1]);
                if v == e {
                } else {
                    let k = choose|k: int|
                        0 <= k < m.drop_first().len() && m.drop_first()[k] == v;
                    assert(m[k + 1] == v);
                }
            } else {
                assert(r[i] == ins[i - 1] && r[j] == ins[j - 1]);
            }
        }
    }
}

proof fn lemma_extract_sorted(pkgs: Seq<PackageScan>, i: int)
    ensures
        extract_upto(pkgs, i) matches Some(m) ==> sorted_by_name(m),
    decreases i,
{
    if i > 0 {
        lemma_extract_sorted(pkgs, i - 1);
        if extract_upto(pkgs, i) is Some {
            let m = extract_upto(pkgs, i - 1)->0;
            let ws = package_wrapper_names(pkgs[i - 1].sources.deep_view())->0;
            if ws.len() != 0 {
                lemma_insert_preserves_sorted(m, (pkgs[i - 1].name@, pkgs[i - 1].dir@, ws));
            }
        }
    } else {
        if extract_upto(pkgs, i) is Some {
            assert(sorted_by_name(Seq::<(Seq<char>, Seq<char>, Seq<Seq<char>>)>::empty()));
        }
    }
}

/// Scan-order independence of the emitted order: however the walk found the
/// packages, the assembled entries stand in strictly increasing
/// lexicographic order of package name.
pub proof fn lemma_packages_lexicographic(pkgs: Seq<PackageScan>)
    ensures
        extract_spec(pkgs) matches Some(m) ==> sorted_by_name(m),
{
    lemma_extract_sorted(pkgs, pkgs.len() as int);
}

/// One registration call of the aggregator body.
pub open spec fn reg_line(pkg: Seq<char>, w: Seq<char>) -> Seq<char> {
    "    "@ + pkg + "::register_"@ + w + "();\n"@
}

/// The registration calls one package contributes, in discovery order.
pub open spec fn pkg_reg_lines(pkg: Seq<char>, ws: Seq<Seq<char>>) -> Seq<char>
    decreases ws.len(),
{
    if ws.len() == 0 {
        Seq::empty()
    } else {
        pkg_reg_lines(pkg, ws.drop_last()) + reg_line(pkg, ws.last())
    }
}

/// The registration calls of all packages, in package order.
pub open spec fn regs_text(m: Seq<(Seq<char>, Seq<char>, Seq<Seq<char>>)>) -> Seq<char>
    decreases m.len(),
{
    if m.len() == 0 {
        Seq::empty()
    } else {
        regs_text(m.drop_last()) + pkg_reg_lines(m.last().0, m.last().2)
    }
}

/// One dependency line of the manifest.
pub open spec fn dep_line(name: Seq<char>, dir: Seq<char>) -> Seq<char> {
    name + " = { path = \"../"@ + dir + "\" }"@
}

/// The dependency lines of all packages, each preceded by a newline.
pub open spec fn deps_text(m: Seq<(Seq<char>, Seq<char>, Seq<Seq<char>>)>) -> Seq<char>
    decreases m.len(),
{
    if m.len() == 0 {
        Seq::empty()
    } else {
        deps_text(m.drop_last()) + "\n"@ + dep_line(m.last().0, m.last().1)
    }
}

fn reg_lines_for(name: &str, ws: &Vec<String>) -> (r: String)
    ensures
        r@ == pkg_reg_lines(name@, ws.deep_view()),
{
    let mut r = String::new();
    let mut i: usize = 0;
    while i < ws.len()
        invariant
            i <= ws.len(),
            r@ == pkg_reg_lines(name@, ws.deep_view().take(i as int)),
        decreases ws.len() - i,
    {
        proof {
            assert(ws.deep_view()[i as int] == ws@[i as int]@);
        }
        r.append("    ");
        r.append(name);
        r.append("::register_");
        r.append(ws[i].as_str());
        r.append("();\n");
        i = i + 1;
        proof {
            let wv = ws.deep_view();
            assert(wv.take(i as int).drop_last() =~= wv.take(i as int - 1));
            assert(wv.take(i as int).last() == wv[i as int - 1]);
            assert(r@ =~= pkg_reg_lines(name@, wv.take(i as int)));
        }
    }
    proof {
        assert(ws.deep_view().take(ws@.len() as int) =~= ws.deep_view());
    }
    r
}

/// The registration calls and the dependency lines of the assembled
/// packages, as the two texts the output package is built from.
pub fn _collect_udf_registration_funcs(package_udfs: &Vec<PackageUdfs>) -> (r: (String, String))
    ensures
        r.0@ == regs_text(pkg_views(package_udfs@)),
        r.1@ == deps_text(pkg_views(package_udfs@)),
{
    let mut regs = String::new();
    let mut deps = String::new();
    let mut i: usize = 0;
    while i < package_udfs.len()
        invariant
            i <= package_udfs.len(),
            regs@ == regs_text(pkg_views(package_udfs@).take(i as int)),
            deps@ == deps_text(pkg_views(package_udfs@).take(i as int)),
        decreases package_udfs.len() - i,
    {
        let p = &package_udfs[i];
        let lines = reg_lines_for(p.name.as_str(), &p.wrapper_names);
        regs.append(lines.as_str());
        deps.append("\n");
        deps.append(p.name.as_str());
        deps.append(" = { path = \"../");
        deps.append(p.dir.as_str());
        deps.append("\" }");
        i = i + 1;
        proof {
            let mv = pkg_views(package_udfs@);
            assert(mv.take(i as int).drop_last() =~= mv.take(i as int - 1));
            assert(mv.take(i as int).last() == mv[i as int - 1]);
            assert(mv[i as int - 1].0 == p.name@ && mv[i as int - 1].1 == p.dir@ && mv[i as int
                - 1].2 == p.wrapper_names.deep_view());
            assert(regs@ =~= regs_text(mv.take(i as int)));
            assert(deps@ =~= deps_text(mv.take(i as int)));
        }
    }
    proof {
        assert(pkg_views(package_udfs@).take(package_udfs@.len() as int) =~= pkg_views(
            package_udfs@,
        ));
    }
    (regs, deps)
}

/// The full aggregator item: the annotated `register_all_funcs` whose body
/// calls every discovered registrar.
pub open spec fn aggregator_text(m: Seq<(Seq<char>, Seq<char>, Seq<Seq<char>>)>) -> Seq<char> {
    "#[udf_registry]\npub fn register_all_funcs() {\n"@ + regs_text(m) + "}\n"@
}

/// From the scanned packages to the aggregator source and the dependency
/// lines. The result is a function of the scanned contents alone, with the
/// packages ordered by name, so repeated scans of one tree emit identical
/// text whatever order the walk delivered the packages in.
pub fn generate_udf_registry_and_dependencies(packages: &Vec<PackageScan>) -> (r: Result<
    (String, String),
    ScanError,
>)
    ensures
        (r is Ok) == (extract_spec(packages@) is Some),
        r matches Ok(p) ==> extract_spec(packages@) matches Some(m) && p.0@ == aggregator_text(m)
            && p.1@ == deps_text(m),
{
    let assembled = match _extract_package_and_udfs(packages) {
        Ok(v) => v,
        Err(e) => {
            return Err(e);
        },
    };
    let (regs, deps) = _collect_udf_registration_funcs(&assembled);
    let mut agg = "#[udf_registry]\npub fn register_all_funcs() {\n".to_owned();
    agg.append(regs.as_str());
    agg.append("}\n");
    Ok((agg, deps))
}

} // verus!
