//! Signature extraction for Rust sources.
//!
//! Parsing is done by the `syn` crate behind a small trusted boundary that
//! converts each parsed function item into a plain [`RawSig`] record; all
//! extraction rules — visibility filtering, name filtering, receiver and
//! placeholder sentinels, the reference marker, the missing-return sentinel,
//! path selection and deduplication — are verified code over those records.

use vstd::prelude::*;
use vstd::string::StrSliceExecFns;
use vstd::string::StringExecFns;

use quote::ToTokens;

use crate::config::Config;
use crate::config::spec_name_skipped;
use crate::models::FnModel;
use crate::models::FunctionInfo;
use crate::models::InternPool;
use crate::models::ParamInfo;
use crate::models::ParamModel;
use crate::models::ProjectInfo;
use crate::models::functions_view;
use crate::strutil::concat2;
use crate::strutil::contains;
use crate::strutil::ends_with;
use crate::strutil::spec_contains;
use crate::strutil::spec_ends_with;
use crate::strutil::spec_starts_with;
use crate::strutil::starts_with;
use crate::strutil::str_eq;

verus! {

#[verifier::external_type_specification]
#[verifier::external_body]
pub struct ExItemFn(syn::ItemFn);

#[verifier::external_type_specification]
#[verifier::external_body]
pub struct ExFnArg(syn::FnArg);

/// Spec-level model of one raw parameter read from a parsed signature.
#[verifier::ext_equal]
pub struct RawParamModel {
    pub is_receiver: bool,
    pub by_ref: bool,
    pub name: Option<Seq<char>>,
    pub typ: Seq<char>,
}

/// Spec-level model of one raw function signature read from a parse.
#[verifier::ext_equal]
pub struct RawSigModel {
    pub name: Seq<char>,
    pub is_public: bool,
    pub is_async: bool,
    pub params: Seq<RawParamModel>,
    pub ret: Option<Seq<char>>,
}

/// One parameter as read from the syntax tree, before extraction rules apply:
/// receiver flag, reference marker, the declared name when the pattern was a
/// plain identifier, and the referent type's printed tokens.
pub struct RawParam {
    pub is_receiver: bool,
    pub by_ref: bool,
    pub name: Option<String>,
    pub typ: String,
}

impl View for RawParam {
    type V = RawParamModel;

    open spec fn view(&self) -> RawParamModel {
        RawParamModel {
            is_receiver: self.is_receiver,
            by_ref: self.by_ref,
            name: match self.name {
                Some(ref n) => Some(n@),
                None => None,
            },
            typ: self.typ@,
        }
    }
}

/// One function signature as read from the syntax tree.
pub struct RawSig {
    pub name: String,
    pub is_public: bool,
    pub is_async: bool,
    pub params: Vec<RawParam>,
    pub ret: Option<String>,
}

pub open spec fn raw_params_view(v: Seq<RawParam>) -> Seq<RawParamModel> {
    v.map_values(|p: RawParam| p@)
}

impl View for RawSig {
    type V = RawSigModel;

    open spec fn view(&self) -> RawSigModel {
        RawSigModel {
            name: self.name@,
            is_public: self.is_public,
            is_async: self.is_async,
            params: raw_params_view(self.params@),
            ret: match self.ret {
                Some(ref t) => Some(t@),
                None => None,
            },
        }
    }
}

pub open spec fn raw_sigs_view(v: Seq<RawSig>) -> Seq<RawSigModel> {
    v.map_values(|s: RawSig| s@)
}

/// What parsing a source text yields: the signature records of its top-level
/// function items, in order, or nothing when the text does not parse. The
/// result depends on the text alone.
pub uninterp spec fn parsed_fn_sigs(content: Seq<char>) -> Option<Seq<RawSigModel>>;

/// Relies on `syn::FnArg`'s variants, `syn::Pat::Ident`, `syn::Type::Reference`
/// and quote's token printing: tells the receiver and typed variants apart and
/// moves the identifier and printed type text into a plain record.
#[verifier::external_body]
fn raw_param_of(a: &syn::FnArg) -> RawParam {
    let pt = match a {
        syn::FnArg::Receiver(_) => {
            return RawParam { is_receiver: true, by_ref: false, name: None, typ: String::new() };
        },
        syn::FnArg::Typed(pt) => pt,
    };
    let name = match &*pt.pat { syn::Pat::Ident(p) => Some(p.ident.to_string()), _ => None };
    let (by_ref, typ) = match &*pt.ty {
        syn::Type::Reference(rf) => (true, rf.elem.to_token_stream().to_string()),
        other => (false, other.to_token_stream().to_string()),
    };
    RawParam { is_receiver: false, by_ref, name, typ }
}

/// Relies on `syn::ItemFn`'s fields (`vis`, `sig.ident`, `sig.asyncness`,
/// `sig.inputs`, `sig.output`) and quote's token printing: moves one parsed
/// function item's signature into a plain record.
#[verifier::external_body]
fn raw_sig_of(f: &syn::ItemFn) -> RawSig {
    RawSig {
        name: f.sig.ident.to_string(),
        is_public: matches!(f.vis, syn::Visibility::Public(_)),
        is_async: f.sig.asyncness.is_some(),
        params: f.sig.inputs.iter().map(raw_param_of).collect(),
        ret: match &f.sig.output {
            syn::ReturnType::Default => None,
            syn::ReturnType::Type(_, t) => Some(t.to_token_stream().to_string()),
        },
    }
}

/// Relies on `syn::parse_file`: parsing is a function of the text alone, and
/// the records converted from its function items are named by
/// [`parsed_fn_sigs`]; a text that does not parse yields nothing.
#[verifier::external_body]
fn parse_fn_sigs(content: &str) -> (r: Option<Vec<RawSig>>)
    ensures
        match r {
            Some(sigs) => parsed_fn_sigs(content@) == Some(raw_sigs_view(sigs@)),
            None => parsed_fn_sigs(content@) is None,
        },
{
    let ast = match syn::parse_file(content) {
        Ok(a) => a,
        Err(_) => return None,
    };
    Some(
        ast.items.into_iter().filter_map(
            |item| match item {
                syn::Item::Fn(f) => Some(raw_sig_of(&f)),
                _ => None,
            },
        ).collect(),
    )
}

/// Whether the given glob pattern text compiles. Depends on the text alone.
pub uninterp spec fn glob_pattern_ok(pat: Seq<char>) -> bool;

/// Whether the given glob pattern matches the given path text. Depends on the
/// two texts alone.
pub uninterp spec fn glob_match(pat: Seq<char>, path: Seq<char>) -> bool;

/// Relies on `glob::Pattern::new` and `glob::Pattern::matches`: whether the
/// pattern compiles, and whether it matches a path, are functions of the
/// pattern and path texts, named by [`glob_pattern_ok`] and [`glob_match`].
#[verifier::external_body]
fn glob_pattern_match(pattern: &str, path: &str) -> (r: Option<bool>)
    ensures
        r is Some <==> glob_pattern_ok(pattern@),
        r is Some ==> r->0 == glob_match(pattern@, path@),
{
    glob::Pattern::new(pattern).ok().map(|p| p.matches(path))
}

/// The extraction of one raw parameter: a receiver becomes the sentinel
/// name/type pair, a missing pattern name becomes the placeholder, and a
/// reference-marked type keeps its leading `&`.
pub open spec fn spec_param_info(p: RawParamModel) -> ParamModel {
    if p.is_receiver {
        ParamModel { name: "self"@, typ: "Self"@ }
    } else {
        ParamModel {
            name: if p.name is Some {
                p.name->0
            } else {
                "_"@
            },
            typ: if p.by_ref {
                "&"@ + p.typ
            } else {
                p.typ
            },
        }
    }
}

pub open spec fn spec_params_of(ps: Seq<RawParamModel>) -> Seq<ParamModel> {
    ps.map_values(|p: RawParamModel| spec_param_info(p))
}

/// The function record extracted from one raw signature: a missing return
/// type becomes the unit sentinel.
pub open spec fn spec_fn_model(s: RawSigModel, file: Seq<char>) -> FnModel {
    FnModel {
        name: s.name,
        params: spec_params_of(s.params),
        returns: if s.ret is Some {
            s.ret->0
        } else {
            "()"@
        },
        file: file,
        is_async: s.is_async,
    }
}

/// A signature is extracted iff it is public or private functions are
/// included, and its name matches no configured skip substring.
pub open spec fn spec_keep_sig(s: RawSigModel, include_private: bool, skips: Seq<String>) -> bool {
    (s.is_public || include_private) && !spec_name_skipped(skips, s.name)
}

/// The functions extracted from a file's raw signatures, in order.
pub open spec fn spec_extract(
    sigs: Seq<RawSigModel>,
    file: Seq<char>,
    include_private: bool,
    skips: Seq<String>,
) -> Seq<FnModel>
    decreases sigs.len(),
{
    if sigs.len() == 0 {
        Seq::empty()
    } else if spec_keep_sig(sigs[0], include_private, skips) {
        seq![spec_fn_model(sigs[0], file)] + spec_extract(
            sigs.subrange(1, sigs.len() as int),
            file,
            include_private,
            skips,
        )
    } else {
        spec_extract(sigs.subrange(1, sigs.len() as int), file, include_private, skips)
    }
}

/// The functions extracted from one source text: none when it does not parse.
pub open spec fn spec_analyze_source(
    content: Seq<char>,
    file: Seq<char>,
    include_private: bool,
    skips: Seq<String>,
) -> Seq<FnModel> {
    match parsed_fn_sigs(content) {
        None => Seq::empty(),
        Some(sigs) => spec_extract(sigs, file, include_private, skips),
    }
}

/// Existing pool entries are unchanged and only appended to.
pub open spec fn pool_extended(before: InternPool, after: InternPool) -> bool {
    &&& after.entries@.len() >= before.entries@.len()
    &&& forall|j: int|
        0 <= j < before.entries@.len() ==> after.entries@[j] == before.entries@[j]
}

/// Convert one raw parameter into a parameter record, interning its type.
fn param_info_of(p: &RawParam, pool: &mut InternPool) -> (r: ParamInfo)
    ensures
        r@ == spec_param_info(p@),
        pool_extended(*old(pool), *final(pool)),
{
    if p.is_receiver {
        ParamInfo { name: String::from_str("self"), typ: pool.intern("Self") }
    } else {
        let name: String = match &p.name {
            Some(n) => n.clone(),
            None => String::from_str("_"),
        };
        let typ: crate::models::TypeIntern = if p.by_ref {
            let t = concat2("&", p.typ.as_str());
            pool.intern(t.as_str())
        } else {
            pool.intern(p.typ.as_str())
        };
        ParamInfo { name, typ }
    }
}

/// Extract the function records of one file from its raw signatures,
/// applying the visibility and name filters of the policy.
pub fn extract_functions_from_sigs(
    sigs: &Vec<RawSig>,
    file_path: &str,
    config: &Config,
    pool: &mut InternPool,
) -> (r: Vec<FunctionInfo>)
    ensures
        functions_view(r@) == spec_extract(
            raw_sigs_view(sigs@),
            file_path@,
            config.include_private,
            config.skip_functions@,
        ),
        pool_extended(*old(pool), *final(pool)),
{
    let ghost sv = raw_sigs_view(sigs@);
    let ghost skips = config.skip_functions@;
    let ghost pool0 = *pool;
    let mut out: Vec<FunctionInfo> = Vec::new();
    let mut i: usize = 0;
    proof {
        assert(sv.subrange(0, sv.len() as int) =~= sv);
        assert(functions_view(out@) + spec_extract(sv, file_path@, config.include_private, skips)
            =~= spec_extract(sv, file_path@, config.include_private, skips));
    }
    while i < sigs.len()
        invariant
            sv == raw_sigs_view(sigs@),
            skips == config.skip_functions@,
            sv.len() == sigs@.len(),
            i <= sv.len(),
            functions_view(out@) + spec_extract(
                sv.subrange(i as int, sv.len() as int),
                file_path@,
                config.include_private,
                skips,
            ) == spec_extract(sv, file_path@, config.include_private, skips),
            pool_extended(pool0, *pool),
        decreases sv.len() - i,
    {
        let ghost rest = sv.subrange(i as int, sv.len() as int);
        proof {
            assert(rest[0] == sv[i as int]);
            assert(rest.subrange(1, rest.len() as int) =~= sv.subrange(i + 1, sv.len() as int));
            assert(sv[i as int] == sigs@[i as int]@);
        }
        let sig = &sigs[i];
        let is_public = sig.is_public;
        if (is_public || config.include_private) && !config.should_skip_function(
            sig.name.as_str(),
        ) {
            let ghost pool_in = *pool;
            let mut params: Vec<ParamInfo> = Vec::new();
            let mut j: usize = 0;
            proof {
                assert(crate::models::params_view(params@)
                    =~= Seq::<ParamModel>::empty());
            }
            while j < sig.params.len()
                invariant
                    j <= sig.params@.len(),
                    crate::models::params_view(params@) == spec_params_of(
                        raw_params_view(sig.params@).subrange(0, j as int),
                    ),
                    pool_extended(pool_in, *pool),
                decreases sig.params@.len() - j,
            {
                let ghost pv = raw_params_view(sig.params@);
                let ghost prev = params@;
                let pi = param_info_of(&sig.params[j], pool);
                params.push(pi);
                proof {
                    assert(pv[j as int] == sig.params@[j as int]@);
                    assert(crate::models::params_view(params@)
                        =~= crate::models::params_view(prev).push(spec_param_info(pv[j as int])));
                    assert(spec_params_of(pv.subrange(0, j + 1)) =~= spec_params_of(
                        pv.subrange(0, j as int),
                    ).push(spec_param_info(pv[j as int])));
                }
                j += 1;
            }
            proof {
                assert(raw_params_view(sig.params@).subrange(
                    0,
                    raw_params_view(sig.params@).len() as int,
                ) =~= raw_params_view(sig.params@));
            }
            let ret_ty: crate::models::TypeIntern = match &sig.ret {
                Some(t) => pool.intern(t.as_str()),
                None => pool.intern("()"),
            };
            let ghost prev_out = out@;
            let f = FunctionInfo {
                name: sig.name.clone(),
                params,
                returns: ret_ty,
                file: String::from_str(file_path),
                is_async: sig.is_async,
            };
            proof {
                assert(f@ =~= spec_fn_model(sv[i as int], file_path@));
            }
            out.push(f);
            proof {
                assert(functions_view(out@) =~= functions_view(prev_out).push(
                    spec_fn_model(sv[i as int], file_path@),
                ));
                assert(functions_view(out@) + spec_extract(
                    sv.subrange(i + 1, sv.len() as int),
                    file_path@,
                    config.include_private,
                    skips,
                ) =~= spec_extract(sv, file_path@, config.include_private, skips));
            }
        }
        i += 1;
    }
    proof {
        assert(sv.subrange(sv.len() as int, sv.len() as int) =~= Seq::<RawSigModel>::empty());
        assert(functions_view(out@) + Seq::<FnModel>::empty() =~= functions_view(out@));
    }
    out
}

/// Analyze one source text under a policy: parse it and extract the function
/// records; a text that does not parse contributes nothing.
pub fn analyze_rust_source_filtered(
    content: &str,
    file_path: &str,
    config: &Config,
    pool: &mut InternPool,
) -> (r: Vec<FunctionInfo>)
    ensures
        functions_view(r@) == spec_analyze_source(
            content@,
            file_path@,
            config.include_private,
            config.skip_functions@,
        ),
        pool_extended(*old(pool), *final(pool)),
{
    match parse_fn_sigs(content) {
        Some(sigs) => extract_functions_from_sigs(&sigs, file_path, config, pool),
        None => {
            let out: Vec<FunctionInfo> = Vec::new();
            proof {
                assert(functions_view(out@) =~= Seq::<FnModel>::empty());
            }
            out
        },
    }
}

/// Whether a path lies in a standard ignored location (build output,
/// version-control metadata, dependency directories), judged on the path
/// text; a leading `./` or a bare `.` counts as the current directory.
pub open spec fn spec_standard_ignored(p: Seq<char>) -> bool {
    ||| spec_contains(p, "/target/"@)
    ||| spec_contains(p, "/.git/"@)
    ||| spec_contains(p, "/node_modules/"@)
    ||| p == "."@
    ||| spec_starts_with(p, "./"@)
    ||| spec_contains(p, "/build/"@)
    ||| spec_contains(p, "/dist/"@)
}

/// Check whether a path is in a standard ignored location.
pub fn is_standard_ignored_path(path_str: &str) -> (r: bool)
    ensures
        r == spec_standard_ignored(path_str@),
{
    contains(path_str, "/target/") || contains(path_str, "/.git/") || contains(
        path_str,
        "/node_modules/",
    ) || str_eq(path_str, ".") || starts_with(path_str, "./") || contains(path_str, "/build/")
        || contains(path_str, "/dist/")
}

/// A path is skipped when it lies in a standard ignored location or some
/// configured glob pattern that compiles matches it.
pub open spec fn spec_should_skip_file(p: Seq<char>, pats: Seq<String>) -> bool {
    spec_standard_ignored(p) || exists|i: int|
        0 <= i < pats.len() && glob_pattern_ok(#[trigger] pats[i]@) && glob_match(pats[i]@, p)
}

/// Check whether a file path should be skipped under the policy.
pub fn should_skip_file(path_str: &str, config: &Config) -> (r: bool)
    ensures
        r == spec_should_skip_file(path_str@, config.skip_patterns@),
{
    if is_standard_ignored_path(path_str) {
        return true;
    }
    let mut i: usize = 0;
    while i < config.skip_patterns.len()
        invariant
            i <= config.skip_patterns@.len(),
            forall|j: int|
                0 <= j < i ==> !(glob_pattern_ok(#[trigger] config.skip_patterns@[j]@)
                    && glob_match(config.skip_patterns@[j]@, path_str@)),
        decreases config.skip_patterns@.len() - i,
    {
        match glob_pattern_match(config.skip_patterns[i].as_str(), path_str) {
            Some(true) => {
                return true;
            },
            _ => {},
        }
        i += 1;
    }
    false
}

/// The texts of a list of owned strings.
pub open spec fn strings_view(v: Seq<String>) -> Seq<Seq<char>> {
    v.map_values(|s: String| s@)
}

fn vec_contains_str(v: &Vec<String>, s: &str) -> (r: bool)
    ensures
        r == strings_view(v@).contains(s@),
{
    let mut i: usize = 0;
    while i < v.len()
        invariant
            i <= v@.len(),
            forall|j: int| 0 <= j < i ==> strings_view(v@)[j] != s@,
        decreases v@.len() - i,
    {
        if str_eq(v[i].as_str(), s) {
            proof {
                assert(strings_view(v@)[i as int] == s@);
            }
            return true;
        }
        i += 1;
    }
    proof {
        if strings_view(v@).contains(s@) {
            let k = choose|k: int| 0 <= k < strings_view(v@).len() && strings_view(v@)[k] == s@;
            assert(strings_view(v@)[k] != s@);
        }
    }
    false
}

/// The candidate source paths kept from a walked list: those with the source
/// extension that are not skipped, each at most once, in first-seen order.
pub open spec fn spec_select_from(
    paths: Seq<String>,
    pats: Seq<String>,
    seen: Seq<Seq<char>>,
) -> Seq<Seq<char>>
    decreases paths.len(),
{
    if paths.len() == 0 {
        Seq::empty()
    } else {
        let p = paths[0]@;
        let rest = paths.subrange(1, paths.len() as int);
        if spec_ends_with(p, ".rs"@) && !spec_should_skip_file(p, pats) && !seen.contains(p) {
            seq![p] + spec_select_from(rest, pats, seen.push(p))
        } else {
            spec_select_from(rest, pats, seen)
        }
    }
}

/// Select the source files to process from a walked path list: keep paths
/// with the source extension, drop skipped ones, and drop duplicates so each
/// file is processed at most once.
pub fn select_source_files(paths: &Vec<String>, config: &Config) -> (r: Vec<String>)
    ensures
        strings_view(r@) == spec_select_from(paths@, config.skip_patterns@, Seq::empty()),
{
    let ghost pats = config.skip_patterns@;
    let mut out: Vec<String> = Vec::new();
    let mut i: usize = 0;
    proof {
        assert(paths@.subrange(0, paths@.len() as int) =~= paths@);
        assert(strings_view(out@) =~= Seq::<Seq<char>>::empty());
        assert(strings_view(out@) + spec_select_from(paths@, pats, strings_view(out@))
            =~= spec_select_from(paths@, pats, Seq::empty()));
    }
    while i < paths.len()
        invariant
            pats == config.skip_patterns@,
            i <= paths@.len(),
            strings_view(out@) + spec_select_from(
                paths@.subrange(i as int, paths@.len() as int),
                pats,
                strings_view(out@),
            ) == spec_select_from(paths@, pats, Seq::empty()),
        decreases paths@.len() - i,
    {
        let ghost rest = paths@.subrange(i as int, paths@.len() as int);
        proof {
            assert(rest[0] == paths@[i as int]);
            assert(rest.subrange(1, rest.len() as int) =~= paths@.subrange(
                i + 1,
                paths@.len() as int,
            ));
        }
        let p = &paths[i];
        if ends_with(p.as_str(), ".rs") && !should_skip_file(p.as_str(), config)
            && !vec_contains_str(&out, p.as_str()) {
            let ghost prev = out@;
            out.push(p.clone());
            proof {
                assert(strings_view(out@) =~= strings_view(prev).push(paths@[i as int]@));
                assert(strings_view(out@) + spec_select_from(
                    paths@.subrange(i + 1, paths@.len() as int),
                    pats,
                    strings_view(out@),
                ) =~= spec_select_from(paths@, pats, Seq::empty()));
            }
        }
        i += 1;
    }
    proof {
        assert(paths@.subrange(paths@.len() as int, paths@.len() as int)
            =~= Seq::<String>::empty());
        assert(strings_view(out@) + Seq::<Seq<char>>::empty() =~= strings_view(out@));
    }
    out
}

/// One source file handed to analysis: its path and its full text.
pub struct SourceFile {
    pub path: String,
    pub content: String,
}

/// Spec-level model of one source file.
#[verifier::ext_equal]
pub struct SourceFileModel {
    pub path: Seq<char>,
    pub content: Seq<char>,
}

impl View for SourceFile {
    type V = SourceFileModel;

    open spec fn view(&self) -> SourceFileModel {
        SourceFileModel { path: self.path@, content: self.content@ }
    }
}

pub open spec fn sources_view(v: Seq<SourceFile>) -> Seq<SourceFileModel> {
    v.map_values(|s: SourceFile| s@)
}

/// The functions of a whole run: each file's extraction in order, files that
/// fail to parse contributing nothing.
pub open spec fn spec_sources_functions(
    files: Seq<SourceFileModel>,
    include_private: bool,
    skips: Seq<String>,
) -> Seq<FnModel>
    decreases files.len(),
{
    if files.len() == 0 {
        Seq::empty()
    } else {
        spec_analyze_source(files[0].content, files[0].path, include_private, skips)
            + spec_sources_functions(
            files.subrange(1, files.len() as int),
            include_private,
            skips,
        )
    }
}

/// Analyze a list of already-read source files into one project record.
/// Every file is analyzed independently: one that fails to parse yields
/// nothing and never prevents extraction from its siblings.
pub fn analyze_sources(
    files: &Vec<SourceFile>,
    root: &str,
    config: &Config,
    pool: &mut InternPool,
) -> (r: ProjectInfo)
    ensures
        r@.language == "rust"@,
        r@.root == root@,
        r@.functions == spec_sources_functions(
            sources_view(files@),
            config.include_private,
            config.skip_functions@,
        ),
        pool_extended(*old(pool), *final(pool)),
{
    let ghost fv = sources_view(files@);
    let ghost skips = config.skip_functions@;
    let ghost pool0 = *pool;
    let mut all: Vec<FunctionInfo> = Vec::new();
    let mut i: usize = 0;
    proof {
        assert(fv.subrange(0, fv.len() as int) =~= fv);
        assert(functions_view(all@) + spec_sources_functions(fv, config.include_private, skips)
            =~= spec_sources_functions(fv, config.include_private, skips));
    }
    while i < files.len()
        invariant
            fv == sources_view(files@),
            skips == config.skip_functions@,
            fv.len() == files@.len(),
            i <= fv.len(),
            functions_view(all@) + spec_sources_functions(
                fv.subrange(i as int, fv.len() as int),
                config.include_private,
                skips,
            ) == spec_sources_functions(fv, config.include_private, skips),
            pool_extended(pool0, *pool),
        decreases fv.len() - i,
    {
        let ghost rest = fv.subrange(i as int, fv.len() as int);
        proof {
            assert(rest[0] == fv[i as int]);
            assert(rest.subrange(1, rest.len() as int) =~= fv.subrange(i + 1, fv.len() as int));
            assert(fv[i as int] == files@[i as int]@);
        }
        let file = &files[i];
        let funcs = analyze_rust_source_filtered(
            file.content.as_str(),
            file.path.as_str(),
            config,
            pool,
        );
        let ghost funcs_v = functions_view(funcs@);
        let ghost all0 = all@;
        let mut j: usize = 0;
        proof {
            assert(funcs_v.subrange(0, 0) =~= Seq::<FnModel>::empty());
            assert(functions_view(all@) + Seq::<FnModel>::empty() =~= functions_view(all@));
        }
        while j < funcs.len()
            invariant
                funcs_v == functions_view(funcs@),
                funcs_v.len() == funcs@.len(),
                j <= funcs_v.len(),
                functions_view(all@) == functions_view(all0) + funcs_v.subrange(0, j as int),
            decreases funcs_v.len() - j,
        {
            let ghost prev = all@;
            all.push(funcs[j].clone());
            proof {
                assert(funcs_v[j as int] == funcs@[j as int]@);
                assert(functions_view(all@) =~= functions_view(prev).push(funcs_v[j as int]));
                assert(funcs_v.subrange(0, j + 1) =~= funcs_v.subrange(0, j as int).push(
                    funcs_v[j as int],
                ));
                assert(functions_view(all@) =~= functions_view(all0) + funcs_v.subrange(
                    0,
                    j + 1,
                ));
            }
            j += 1;
        }
        proof {
            assert(funcs_v.subrange(0, funcs_v.len() as int) =~= funcs_v);
            assert(functions_view(all@) =~= functions_view(all0) + funcs_v);
            assert(functions_view(all@) + spec_sources_functions(
                fv.subrange(i + 1, fv.len() as int),
                config.include_private,
                skips,
            ) =~= spec_sources_functions(fv, config.include_private, skips));
        }
        i += 1;
    }
    proof {
        assert(fv.subrange(fv.len() as int, fv.len() as int) =~= Seq::<SourceFileModel>::empty());
        assert(functions_view(all@) + Seq::<FnModel>::empty() =~= functions_view(all@));
    }
    ProjectInfo { language: String::from_str("rust"), root: String::from_str(root), functions: all }
}

/// Visibility filter law: with private functions excluded, a file holding one
/// public and one non-public function (the public one not name-skipped)
/// yields exactly the record of the public one.
pub proof fn lemma_visibility_filter(
    pub_sig: RawSigModel,
    priv_sig: RawSigModel,
    file: Seq<char>,
    skips: Seq<String>,
)
    requires
        pub_sig.is_public,
        !priv_sig.is_public,
        !spec_name_skipped(skips, pub_sig.name),
    ensures
        spec_extract(seq![pub_sig, priv_sig], file, false, skips) == seq![
            spec_fn_model(pub_sig, file),
        ],
{
    let sigs = seq![pub_sig, priv_sig];
    assert(sigs[0] == pub_sig);
    let tail = sigs.subrange(1, 2);
    assert(tail[0] == priv_sig);
    assert(tail.subrange(1, 1) =~= Seq::<RawSigModel>::empty());
    assert(spec_extract(tail.subrange(1, 1), file, false, skips) =~= Seq::<FnModel>::empty());
    assert(spec_extract(tail, file, false, skips) =~= Seq::<FnModel>::empty());
    assert(spec_extract(sigs, file, false, skips) =~= seq![spec_fn_model(pub_sig, file)]);
}

/// Parse-failure isolation law: removing a file that does not parse from a
/// run leaves the run's functions unchanged — such a file contributes
/// nothing, and its siblings are analyzed exactly as without it.
pub proof fn lemma_parse_failure_isolated(
    files: Seq<SourceFileModel>,
    i: int,
    include_private: bool,
    skips: Seq<String>,
)
    requires
        0 <= i < files.len(),
        parsed_fn_sigs(files[i].content) is None,
    ensures
        spec_sources_functions(files, include_private, skips) == spec_sources_functions(
            files.remove(i),
            include_private,
            skips,
        ),
    decreases files.len(),
{
    let tail = files.subrange(1, files.len() as int);
    if i == 0 {
        assert(spec_analyze_source(files[0].content, files[0].path, include_private, skips)
            =~= Seq::<FnModel>::empty());
        assert(files.remove(0) =~= tail);
        assert(spec_sources_functions(files, include_private, skips) =~= spec_sources_functions(
            tail,
            include_private,
            skips,
        ));
    } else {
        assert(tail[i - 1] == files[i]);
        lemma_parse_failure_isolated(tail, i - 1, include_private, skips);
        assert(files.remove(i)[0] == files[0]);
        assert(files.remove(i).subrange(1, files.remove(i).len() as int) =~= tail.remove(i - 1));
        assert(spec_sources_functions(files, include_private, skips) =~= spec_sources_functions(
            files.remove(i),
            include_private,
            skips,
        ));
    }
}

} // verus!
