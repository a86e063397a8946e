//! Core data structures representing analyzed functions and projects.
//!
//! Every type here is a plain record of strings and flags; each one carries a
//! mathematical view so that the analyzer's and the generator's contracts can
//! speak about it as sequences of characters.

use vstd::prelude::*;
use vstd::string::StrSliceExecFns;
use vstd::string::StringExecFns;

use crate::strutil::str_eq;

verus! {

/// Mathematical view of a parameter: its name and type signature as text.
#[verifier::ext_equal]
pub struct ParamModel {
    pub name: Seq<char>,
    pub typ: Seq<char>,
}

/// Mathematical view of an analyzed function.
#[verifier::ext_equal]
pub struct FnModel {
    pub name: Seq<char>,
    pub params: Seq<ParamModel>,
    pub returns: Seq<char>,
    pub file: Seq<char>,
    pub is_async: bool,
}

/// Mathematical view of an analyzed project.
#[verifier::ext_equal]
pub struct ProjectModel {
    pub language: Seq<char>,
    pub root: Seq<char>,
    pub functions: Seq<FnModel>,
}

/// An interned type-signature string.
///
/// Interning is a cache, not a type system: the one property callers may rely
/// on is that the value equals the text it was created from. Deduplication of
/// identical signatures is handled by an explicit [`InternPool`] owned by the
/// analysis session, never by process-wide state.
#[derive(Debug)]
pub struct TypeIntern {
    text: String,
}

impl View for TypeIntern {
    type V = Seq<char>;

    closed spec fn view(&self) -> Seq<char> {
        self.text@
    }
}

impl Clone for TypeIntern {
    fn clone(&self) -> (r: Self)
        ensures
            r@ == self@,
    {
        TypeIntern { text: self.text.clone() }
    }
}

impl PartialEq for TypeIntern {
    fn eq(&self, other: &Self) -> (r: bool) {
        str_eq(self.text.as_str(), other.text.as_str())
    }
}

impl vstd::std_specs::cmp::PartialEqSpecImpl for TypeIntern {
    open spec fn obeys_eq_spec() -> bool {
        true
    }

    open spec fn eq_spec(&self, other: &Self) -> bool {
        self@ == other@
    }
}

impl Eq for TypeIntern {

}

impl TypeIntern {
    /// Create an interned type string holding exactly the given text.
    pub fn new(s: &str) -> (r: Self)
        ensures
            r@ == s@,
    {
        TypeIntern { text: String::from_str(s) }
    }

    /// The underlying string.
    pub fn as_str(&self) -> (r: &str)
        ensures
            r@ == self@,
    {
        self.text.as_str()
    }
}

/// The session-owned deduplication cache for type-signature strings.
///
/// Interning a signature returns a [`TypeIntern`] whose text equals the input,
/// and never disturbs entries already in the pool: repeated interning cannot
/// change anything previously produced from the pool.
pub struct InternPool {
    pub entries: Vec<String>,
}

impl InternPool {
    pub fn new() -> (r: Self)
        ensures
            r.entries@.len() == 0,
    {
        InternPool { entries: Vec::new() }
    }

    /// Intern one signature: the result holds exactly the given text, every
    /// entry already present is preserved, and at most one entry is added.
    pub fn intern(&mut self, s: &str) -> (r: TypeIntern)
        ensures
            r@ == s@,
            final(self).entries@.len() >= old(self).entries@.len(),
            final(self).entries@.len() <= old(self).entries@.len() + 1,
            forall|i: int|
                0 <= i < old(self).entries@.len() ==> final(self).entries@[i] == old(
                    self,
                ).entries@[i],
    {
        let mut i: usize = 0;
        while i < self.entries.len()
            invariant
                i <= self.entries@.len(),
            decreases self.entries@.len() - i,
        {
            if str_eq(self.entries[i].as_str(), s) {
                return TypeIntern { text: self.entries[i].clone() };
            }
            i += 1;
        }
        let owned = String::from_str(s);
        self.entries.push(owned);
        TypeIntern { text: String::from_str(s) }
    }
}

/// A function parameter with its name and type information.
#[derive(Debug)]
pub struct ParamInfo {
    /// The parameter name as written in the function signature.
    pub name: String,
    /// The parameter type's textual signature.
    pub typ: TypeIntern,
}

impl View for ParamInfo {
    type V = ParamModel;

    open spec fn view(&self) -> ParamModel {
        ParamModel { name: self.name@, typ: self.typ@ }
    }
}

impl Clone for ParamInfo {
    fn clone(&self) -> (r: Self)
        ensures
            r@ == self@,
    {
        ParamInfo { name: self.name.clone(), typ: self.typ.clone() }
    }
}

/// Information about a single analyzed function.
#[derive(Debug)]
pub struct FunctionInfo {
    /// The function name as written in the source.
    pub name: String,
    /// The parameters, in declaration order.
    pub params: Vec<ParamInfo>,
    /// The textual signature of the return type.
    pub returns: TypeIntern,
    /// Path of the source file the function was found in.
    pub file: String,
    /// Whether the function carries an `async` qualifier.
    pub is_async: bool,
}

pub open spec fn params_view(params: Seq<ParamInfo>) -> Seq<ParamModel> {
    params.map_values(|p: ParamInfo| p@)
}

impl View for FunctionInfo {
    type V = FnModel;

    open spec fn view(&self) -> FnModel {
        FnModel {
            name: self.name@,
            params: params_view(self.params@),
            returns: self.returns@,
            file: self.file@,
            is_async: self.is_async,
        }
    }
}

/// Copies a parameter list, preserving every parameter's view.
pub fn clone_params(v: &Vec<ParamInfo>) -> (r: Vec<ParamInfo>)
    ensures
        params_view(r@) == params_view(v@),
{
    let mut out: Vec<ParamInfo> = Vec::new();
    let mut i: usize = 0;
    while i < v.len()
        invariant
            i <= v@.len(),
            out@.len() == i,
            forall|j: int| 0 <= j < i ==> out@[j]@ == v@[j]@,
        decreases v@.len() - i,
    {
        out.push(v[i].clone());
        i += 1;
    }
    proof {
        assert(params_view(out@) =~= params_view(v@));
    }
    out
}

impl Clone for FunctionInfo {
    fn clone(&self) -> (r: Self)
        ensures
            r@ == self@,
    {
        let r = FunctionInfo {
            name: self.name.clone(),
            params: clone_params(&self.params),
            returns: self.returns.clone(),
            file: self.file.clone(),
            is_async: self.is_async,
        };
        proof {
            assert(r@ =~= self@);
        }
        r
    }
}

/// Character count of all text held by the parameters of one function.
pub open spec fn spec_params_chars(params: Seq<ParamModel>) -> int
    decreases params.len(),
{
    if params.len() == 0 {
        0
    } else {
        params[0].name.len() + params[0].typ.len() + spec_params_chars(
            params.subrange(1, params.len() as int),
        )
    }
}

/// Character count of all text held by one function record.
pub open spec fn spec_memory_estimate(f: FnModel) -> int {
    f.name.len() + f.file.len() + spec_params_chars(f.params) + f.returns.len()
}

proof fn lemma_params_chars_nonneg(params: Seq<ParamModel>)
    ensures
        spec_params_chars(params) >= 0,
    decreases params.len(),
{
    if params.len() > 0 {
        lemma_params_chars_nonneg(params.subrange(1, params.len() as int));
    }
}

proof fn lemma_params_chars_split(params: Seq<ParamModel>, i: int)
    requires
        0 <= i < params.len(),
    ensures
        spec_params_chars(params.subrange(i, params.len() as int)) == params[i].name.len()
            + params[i].typ.len() + spec_params_chars(params.subrange(i + 1, params.len() as int)),
{
    let rest = params.subrange(i, params.len() as int);
    assert(rest[0] == params[i]);
    assert(rest.subrange(1, rest.len() as int) =~= params.subrange(i + 1, params.len() as int));
}

impl FunctionInfo {
    /// Estimated memory impact: the total character count of all strings held
    /// by this record (name, file path, parameter names and types, return type).
    pub fn memory_estimate(&self) -> (r: usize)
        requires
            spec_memory_estimate(self@) <= usize::MAX,
        ensures
            r == spec_memory_estimate(self@),
    {
        let mut total: usize = 0;
        let mut i: usize = 0;
        proof {
            assert(self@.params.subrange(0, params_view(self.params@).len() as int) =~= self@.params);
            lemma_params_chars_nonneg(self@.params);
        }
        while i < self.params.len()
            invariant
                i <= self.params@.len(),
                self@.params.len() == self.params@.len(),
                total == spec_params_chars(self@.params) - spec_params_chars(
                    self@.params.subrange(i as int, self@.params.len() as int),
                ),
                spec_params_chars(self@.params.subrange(i as int, self@.params.len() as int)) >= 0,
                spec_memory_estimate(self@) <= usize::MAX,
            decreases self.params@.len() - i,
        {
            proof {
                lemma_params_chars_split(self@.params, i as int);
                lemma_params_chars_nonneg(
                    self@.params.subrange(i + 1, self@.params.len() as int),
                );
                assert(self@.params[i as int] == self.params@[i as int]@);
            }
            let p = &self.params[i];
            total = total + p.name.as_str().unicode_len();
            total = total + p.typ.as_str().unicode_len();
            i += 1;
        }
        proof {
            assert(self@.params.subrange(self@.params.len() as int, self@.params.len() as int)
                =~= Seq::<ParamModel>::empty());
        }
        total = total + self.name.as_str().unicode_len();
        total = total + self.file.as_str().unicode_len();
        total = total + self.returns.as_str().unicode_len();
        total
    }
}

/// A project-wide collection of analyzed functions.
#[derive(Debug, Clone)]
pub struct ProjectInfo {
    /// Language tag of the project.
    pub language: String,
    /// Root directory path of the project.
    pub root: String,
    /// All analyzed functions, in discovery order.
    pub functions: Vec<FunctionInfo>,
}

pub open spec fn functions_view(functions: Seq<FunctionInfo>) -> Seq<FnModel> {
    functions.map_values(|f: FunctionInfo| f@)
}

impl View for ProjectInfo {
    type V = ProjectModel;

    open spec fn view(&self) -> ProjectModel {
        ProjectModel {
            language: self.language@,
            root: self.root@,
            functions: functions_view(self.functions@),
        }
    }
}

/// Total parameter count across a project's functions.
pub open spec fn spec_total_params(functions: Seq<FnModel>) -> int
    decreases functions.len(),
{
    if functions.len() == 0 {
        0
    } else {
        functions[0].params.len() + spec_total_params(
            functions.subrange(1, functions.len() as int),
        )
    }
}

/// Total estimated memory across a project's functions.
pub open spec fn spec_total_memory(functions: Seq<FnModel>) -> int
    decreases functions.len(),
{
    if functions.len() == 0 {
        0
    } else {
        spec_memory_estimate(functions[0]) + spec_total_memory(
            functions.subrange(1, functions.len() as int),
        )
    }
}

proof fn lemma_totals_nonneg(functions: Seq<FnModel>)
    ensures
        spec_total_params(functions) >= 0,
        spec_total_memory(functions) >= 0,
    decreases functions.len(),
{
    if functions.len() > 0 {
        lemma_totals_nonneg(functions.subrange(1, functions.len() as int));
        lemma_params_chars_nonneg(functions[0].params);
    }
}

proof fn lemma_totals_split(functions: Seq<FnModel>, i: int)
    requires
        0 <= i < functions.len(),
    ensures
        spec_total_params(functions.subrange(i, functions.len() as int)) == functions[i].params.len()
            + spec_total_params(functions.subrange(i + 1, functions.len() as int)),
        spec_total_memory(functions.subrange(i, functions.len() as int)) == spec_memory_estimate(
            functions[i],
        ) + spec_total_memory(functions.subrange(i + 1, functions.len() as int)),
{
    let rest = functions.subrange(i, functions.len() as int);
    assert(rest[0] == functions[i]);
    assert(rest.subrange(1, rest.len() as int) =~= functions.subrange(i + 1, functions.len() as int));
}

/// Memory usage statistics for one analysis run.
#[derive(Debug)]
pub struct MemoryStats {
    /// Number of functions analyzed.
    pub total_functions: usize,
    /// Number of parameters across all functions.
    pub total_params: usize,
    /// Estimated memory usage in megabytes.
    pub estimated_memory_mb: usize,
}

impl ProjectInfo {
    /// Aggregated memory statistics: function count, parameter count, and the
    /// total estimated character memory scaled down to megabytes.
    pub fn memory_stats(&self) -> (r: MemoryStats)
        requires
            spec_total_params(self@.functions) <= usize::MAX,
            spec_total_memory(self@.functions) <= usize::MAX,
        ensures
            r.total_functions == self@.functions.len(),
            r.total_params == spec_total_params(self@.functions),
            r.estimated_memory_mb == spec_total_memory(self@.functions) / 1000000,
    {
        let total_functions = self.functions.len();
        let mut total_params: usize = 0;
        let mut total_memory: usize = 0;
        let mut i: usize = 0;
        proof {
            assert(self@.functions.subrange(0, self@.functions.len() as int) =~= self@.functions);
            lemma_totals_nonneg(self@.functions);
        }
        while i < self.functions.len()
            invariant
                i <= self.functions@.len(),
                self@.functions.len() == self.functions@.len(),
                total_params == spec_total_params(self@.functions) - spec_total_params(
                    self@.functions.subrange(i as int, self@.functions.len() as int),
                ),
                total_memory == spec_total_memory(self@.functions) - spec_total_memory(
                    self@.functions.subrange(i as int, self@.functions.len() as int),
                ),
                spec_total_params(
                    self@.functions.subrange(i as int, self@.functions.len() as int),
                ) >= 0,
                spec_total_memory(
                    self@.functions.subrange(i as int, self@.functions.len() as int),
                ) >= 0,
                spec_total_params(self@.functions) <= usize::MAX,
                spec_total_memory(self@.functions) <= usize::MAX,
            decreases self.functions@.len() - i,
        {
            proof {
                lemma_totals_split(self@.functions, i as int);
                lemma_totals_nonneg(self@.functions.subrange(i + 1, self@.functions.len() as int));
                lemma_params_chars_nonneg(self@.functions[i as int].params);
                assert(self@.functions[i as int] == self.functions@[i as int]@);
            }
            let f = &self.functions[i];
            total_params = total_params + f.params.len();
            total_memory = total_memory + f.memory_estimate();
            i += 1;
        }
        proof {
            assert(self@.functions.subrange(self@.functions.len() as int, self@.functions.len() as int)
                =~= Seq::<FnModel>::empty());
        }
        MemoryStats { total_functions, total_params, estimated_memory_mb: total_memory / 1000000 }
    }
}

/// A synthesized test file: where it should be written and its full contents.
#[derive(Debug)]
pub struct TestFile {
    /// The file system path where the test should be written.
    pub path: String,
    /// The complete test file content.
    pub content: String,
}

/// Mathematical view of a synthesized test file.
#[verifier::ext_equal]
pub struct TestFileModel {
    pub path: Seq<char>,
    pub content: Seq<char>,
}

impl View for TestFile {
    type V = TestFileModel;

    open spec fn view(&self) -> TestFileModel {
        TestFileModel { path: self.path@, content: self.content@ }
    }
}

impl Clone for TestFile {
    fn clone(&self) -> (r: Self)
        ensures
            r@ == self@,
    {
        TestFile { path: self.path.clone(), content: self.content.clone() }
    }
}

} // verus!
