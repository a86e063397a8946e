//! Configuration for one generation run.
//!
//! A hierarchical set of options (project, generation, types, performance,
//! filesystem) plus the flat legacy fields kept for backward compatibility.
//! Key/value tables are association lists searched front to back, so every
//! lookup has an exact specification.

use vstd::prelude::*;
use vstd::string::StrSliceExecFns;
use vstd::string::StringExecFns;

use crate::strutil::contains;
use crate::strutil::spec_contains;
use crate::strutil::str_eq;

verus! {

/// One key/value pair of a configuration table.
#[derive(Debug)]
pub struct MapEntry {
    pub key: String,
    pub value: String,
}

impl View for MapEntry {
    type V = (Seq<char>, Seq<char>);

    open spec fn view(&self) -> (Seq<char>, Seq<char>) {
        (self.key@, self.value@)
    }
}

impl Clone for MapEntry {
    fn clone(&self) -> (r: Self)
        ensures
            r == self,
    {
        MapEntry { key: self.key.clone(), value: self.value.clone() }
    }
}

/// First value bound to `key` in `entries`, if any.
pub open spec fn spec_map_get(entries: Seq<MapEntry>, key: Seq<char>) -> Option<Seq<char>>
    decreases entries.len(),
{
    if entries.len() == 0 {
        None
    } else if entries[0]@.0 == key {
        Some(entries[0]@.1)
    } else {
        spec_map_get(entries.subrange(1, entries.len() as int), key)
    }
}

/// Some name in `skips` occurs as a substring of `name`.
pub open spec fn spec_name_skipped(skips: Seq<String>, name: Seq<char>) -> bool {
    exists|i: int| 0 <= i < skips.len() && spec_contains(name, #[trigger] skips[i]@)
}

/// Copies a vector of strings, preserving the values.
pub fn clone_strings(v: &Vec<String>) -> (r: Vec<String>)
    ensures
        r@ == v@,
{
    let mut out: Vec<String> = Vec::new();
    let mut i: usize = 0;
    while i < v.len()
        invariant
            i <= v@.len(),
            out@ == v@.subrange(0, i as int),
        decreases v@.len() - i,
    {
        out.push(v[i].clone());
        proof {
            assert(out@ =~= v@.subrange(0, i + 1));
        }
        i += 1;
    }
    proof {
        assert(v@.subrange(0, v@.len() as int) =~= v@);
    }
    out
}

/// Copies a configuration table, preserving the entries.
pub fn clone_entries(v: &Vec<MapEntry>) -> (r: Vec<MapEntry>)
    ensures
        r@ == v@,
{
    let mut out: Vec<MapEntry> = Vec::new();
    let mut i: usize = 0;
    while i < v.len()
        invariant
            i <= v@.len(),
            out@ == v@.subrange(0, i as int),
        decreases v@.len() - i,
    {
        out.push(v[i].clone());
        proof {
            assert(out@ =~= v@.subrange(0, i + 1));
        }
        i += 1;
    }
    proof {
        assert(v@.subrange(0, v@.len() as int) =~= v@);
    }
    out
}

/// Project metadata.
#[derive(Debug)]
pub struct ProjectConfig {
    /// Project name, when one was configured.
    pub name: Option<String>,
    /// Baseline branch for incremental generation.
    pub baseline_branch: Option<String>,
    /// Version tag for compatibility checking.
    pub version: Option<String>,
}

pub open spec fn is_default_project_config(c: ProjectConfig) -> bool {
    &&& c.name is None
    &&& c.baseline_branch is Some
    &&& c.baseline_branch->0@ == "main"@
    &&& c.version is None
}

impl Default for ProjectConfig {
    fn default() -> (r: Self)
        ensures
            is_default_project_config(r),
    {
        ProjectConfig {
            name: None,
            baseline_branch: Some(String::from_str("main")),
            version: None,
        }
    }
}

/// Generation strategy and behavior.
#[derive(Debug)]
pub struct GenerationConfig {
    /// Test generation strategy tag.
    pub strategy: String,
    /// Directory where generated tests are written.
    pub output_dir: String,
    /// Name substrings of functions to skip.
    pub skip_functions: Vec<String>,
    /// Custom assertion text by type signature.
    pub custom_assertions: Vec<MapEntry>,
    /// Advisory per-operation timeout in seconds.
    pub timeout_seconds: u64,
    /// Whether private functions are extracted too.
    pub include_private: bool,
}

pub open spec fn is_default_generation_config(c: GenerationConfig) -> bool {
    &&& c.strategy@ == "integration"@
    &&& c.output_dir@ == "tests"@
    &&& c.skip_functions@.len() == 0
    &&& c.custom_assertions@.len() == 0
    &&& c.timeout_seconds == 300u64
    &&& c.include_private == false
}

impl Default for GenerationConfig {
    fn default() -> (r: Self)
        ensures
            is_default_generation_config(r),
    {
        GenerationConfig {
            strategy: String::from_str("integration"),
            output_dir: String::from_str("tests"),
            skip_functions: Vec::new(),
            custom_assertions: Vec::new(),
            timeout_seconds: 300,
            include_private: false,
        }
    }
}

/// Type-directed value generation options.
#[derive(Debug)]
pub struct TypeConfig {
    /// Explicit type-signature to literal-expression overrides.
    pub mappings: Vec<MapEntry>,
    /// Constructor inference toggle.
    pub constructor_inference: bool,
    /// Builder pattern detection toggle.
    pub builder_detection: bool,
}

pub open spec fn is_default_type_config(c: TypeConfig) -> bool {
    &&& c.mappings@.len() == 2
    &&& c.mappings@[0]@.0 == "PathBuf"@
    &&& c.mappings@[0]@.1 == "std::path::PathBuf::from(\".\")"@
    &&& c.mappings@[1]@.0 == "Uuid"@
    &&& c.mappings@[1]@.1 == "uuid::Uuid::new_v4()"@
    &&& c.constructor_inference == true
    &&& c.builder_detection == true
}

impl Default for TypeConfig {
    fn default() -> (r: Self)
        ensures
            is_default_type_config(r),
    {
        let mut mappings: Vec<MapEntry> = Vec::new();
        mappings.push(
            MapEntry {
                key: String::from_str("PathBuf"),
                value: String::from_str("std::path::PathBuf::from(\".\")"),
            },
        );
        mappings.push(
            MapEntry {
                key: String::from_str("Uuid"),
                value: String::from_str("uuid::Uuid::new_v4()"),
            },
        );
        TypeConfig { mappings, constructor_inference: true, builder_detection: true }
    }
}

/// Performance and execution control.
#[derive(Debug)]
pub struct PerformanceConfig {
    /// Parallel processing toggle.
    pub parallel: bool,
    /// Number of functions per parallel chunk.
    pub parallel_chunk_size: usize,
    /// Optional memory bound in megabytes.
    pub memory_limit_mb: Option<usize>,
    /// Result caching toggle.
    pub caching_enabled: bool,
}

pub open spec fn is_default_performance_config(c: PerformanceConfig) -> bool {
    &&& c.parallel == true
    &&& c.parallel_chunk_size == 25usize
    &&& c.memory_limit_mb is None
    &&& c.caching_enabled == false
}

impl Default for PerformanceConfig {
    fn default() -> (r: Self)
        ensures
            is_default_performance_config(r),
    {
        PerformanceConfig {
            parallel: true,
            parallel_chunk_size: 25,
            memory_limit_mb: None,
            caching_enabled: false,
        }
    }
}

/// File discovery and filtering.
#[derive(Debug)]
pub struct FilesystemConfig {
    /// Honor the version-control ignore hierarchy during the walk.
    pub respect_gitignore: bool,
    /// Extra glob patterns of paths to skip.
    pub skip_patterns: Vec<String>,
}

pub open spec fn default_skip_patterns(v: Seq<String>) -> bool {
    &&& v.len() == 3
    &&& v[0]@ == "**/target/**"@
    &&& v[1]@ == "**/.git/**"@
    &&& v[2]@ == "**/node_modules/**"@
}

impl Default for FilesystemConfig {
    fn default() -> (r: Self)
        ensures
            r.respect_gitignore == true,
            default_skip_patterns(r.skip_patterns@),
    {
        let mut skip_patterns: Vec<String> = Vec::new();
        skip_patterns.push(String::from_str("**/target/**"));
        skip_patterns.push(String::from_str("**/.git/**"));
        skip_patterns.push(String::from_str("**/node_modules/**"));
        FilesystemConfig { respect_gitignore: true, skip_patterns }
    }
}

/// The flat configuration format of earlier releases.
#[derive(Debug)]
pub struct LegacyConfig {
    pub output_dir: String,
    pub skip_functions: Vec<String>,
    pub type_mappings: Vec<MapEntry>,
    pub include_private: bool,
    pub parallel: bool,
    pub parallel_chunk_size: usize,
    pub respect_gitignore: bool,
    pub skip_patterns: Vec<String>,
    pub timeout_seconds: u64,
}

impl Default for LegacyConfig {
    fn default() -> (r: Self)
        ensures
            r.output_dir@ == "tests"@,
            r.skip_functions@.len() == 0,
            r.type_mappings@.len() == 0,
            r.include_private == false,
            r.parallel == true,
            r.parallel_chunk_size == 25usize,
            r.respect_gitignore == true,
            default_skip_patterns(r.skip_patterns@),
            r.timeout_seconds == 300u64,
    {
        let mut skip_patterns: Vec<String> = Vec::new();
        skip_patterns.push(String::from_str("**/target/**"));
        skip_patterns.push(String::from_str("**/.git/**"));
        skip_patterns.push(String::from_str("**/node_modules/**"));
        LegacyConfig {
            output_dir: String::from_str("tests"),
            skip_functions: Vec::new(),
            type_mappings: Vec::new(),
            include_private: false,
            parallel: true,
            parallel_chunk_size: 25,
            respect_gitignore: true,
            skip_patterns,
            timeout_seconds: 300,
        }
    }
}

/// Hierarchical configuration with the legacy flat fields mirrored alongside.
#[derive(Debug)]
pub struct Config {
    /// Project metadata.
    pub project: ProjectConfig,
    /// Generation strategy and behavior.
    pub generation: GenerationConfig,
    /// Type-directed value generation.
    pub types: TypeConfig,
    /// Performance and execution control.
    pub performance: PerformanceConfig,
    /// File discovery and filtering.
    pub filesystem: FilesystemConfig,
    /// Legacy mirror of `generation.output_dir`.
    pub output_dir: String,
    /// Legacy mirror of `generation.skip_functions`.
    pub skip_functions: Vec<String>,
    /// Legacy mirror of `types.mappings`.
    pub type_mappings: Vec<MapEntry>,
    /// Legacy mirror of `generation.include_private`.
    pub include_private: bool,
    /// Legacy mirror of `performance.parallel`.
    pub parallel: bool,
    /// Legacy mirror of `performance.parallel_chunk_size`.
    pub parallel_chunk_size: usize,
    /// Legacy mirror of `filesystem.respect_gitignore`.
    pub respect_gitignore: bool,
    /// Legacy mirror of `filesystem.skip_patterns`.
    pub skip_patterns: Vec<String>,
    /// Legacy mirror of `generation.timeout_seconds`.
    pub timeout_seconds: u64,
}

pub open spec fn is_default_config(c: Config) -> bool {
    &&& is_default_project_config(c.project)
    &&& is_default_generation_config(c.generation)
    &&& is_default_type_config(c.types)
    &&& is_default_performance_config(c.performance)
    &&& c.filesystem.respect_gitignore == true
    &&& default_skip_patterns(c.filesystem.skip_patterns@)
    &&& c.output_dir@ == "tests"@
    &&& c.skip_functions@.len() == 0
    &&& c.type_mappings@.len() == 0
    &&& c.include_private == false
    &&& c.parallel == true
    &&& c.parallel_chunk_size == 25usize
    &&& c.respect_gitignore == true
    &&& default_skip_patterns(c.skip_patterns@)
    &&& c.timeout_seconds == 300u64
}

impl Default for Config {
    fn default() -> (r: Self)
        ensures
            is_default_config(r),
    {
        let mut skip_patterns: Vec<String> = Vec::new();
        skip_patterns.push(String::from_str("**/target/**"));
        skip_patterns.push(String::from_str("**/.git/**"));
        skip_patterns.push(String::from_str("**/node_modules/**"));
        Config {
            project: ProjectConfig::default(),
            generation: GenerationConfig::default(),
            types: TypeConfig::default(),
            performance: PerformanceConfig::default(),
            filesystem: FilesystemConfig::default(),
            output_dir: String::from_str("tests"),
            skip_functions: Vec::new(),
            type_mappings: Vec::new(),
            include_private: false,
            parallel: true,
            parallel_chunk_size: 25,
            respect_gitignore: true,
            skip_patterns,
            timeout_seconds: 300,
        }
    }
}

impl Config {
    /// Upgrade a flat legacy configuration to the hierarchical form, keeping
    /// the flat fields mirrored as the legacy API expects.
    pub fn from_legacy(legacy: LegacyConfig) -> (r: Self)
        ensures
            is_default_project_config(r.project),
            r.generation.strategy@ == "integration"@,
            r.generation.output_dir@ == legacy.output_dir@,
            r.generation.skip_functions@ == legacy.skip_functions@,
            r.generation.custom_assertions@.len() == 0,
            r.generation.timeout_seconds == legacy.timeout_seconds,
            r.generation.include_private == legacy.include_private,
            r.types.mappings@ == legacy.type_mappings@,
            r.types.constructor_inference == true,
            r.types.builder_detection == true,
            r.performance.parallel == legacy.parallel,
            r.performance.parallel_chunk_size == legacy.parallel_chunk_size,
            r.performance.memory_limit_mb is None,
            r.performance.caching_enabled == false,
            r.filesystem.respect_gitignore == legacy.respect_gitignore,
            r.filesystem.skip_patterns@ == legacy.skip_patterns@,
            r.output_dir@ == legacy.output_dir@,
            r.skip_functions@ == legacy.skip_functions@,
            r.type_mappings@ == legacy.type_mappings@,
            r.include_private == legacy.include_private,
            r.parallel == legacy.parallel,
            r.parallel_chunk_size == legacy.parallel_chunk_size,
            r.respect_gitignore == legacy.respect_gitignore,
            r.skip_patterns@ == legacy.skip_patterns@,
            r.timeout_seconds == legacy.timeout_seconds,
    {
        Config {
            project: ProjectConfig::default(),
            generation: GenerationConfig {
                strategy: String::from_str("integration"),
                output_dir: legacy.output_dir.clone(),
                skip_functions: clone_strings(&legacy.skip_functions),
                custom_assertions: Vec::new(),
                timeout_seconds: legacy.timeout_seconds,
                include_private: legacy.include_private,
            },
            types: TypeConfig {
                mappings: clone_entries(&legacy.type_mappings),
                constructor_inference: true,
                builder_detection: true,
            },
            performance: PerformanceConfig {
                parallel: legacy.parallel,
                parallel_chunk_size: legacy.parallel_chunk_size,
                memory_limit_mb: None,
                caching_enabled: false,
            },
            filesystem: FilesystemConfig {
                respect_gitignore: legacy.respect_gitignore,
                skip_patterns: clone_strings(&legacy.skip_patterns),
            },
            output_dir: legacy.output_dir,
            skip_functions: legacy.skip_functions,
            type_mappings: legacy.type_mappings,
            include_private: legacy.include_private,
            parallel: legacy.parallel,
            parallel_chunk_size: legacy.parallel_chunk_size,
            respect_gitignore: legacy.respect_gitignore,
            skip_patterns: legacy.skip_patterns,
            timeout_seconds: legacy.timeout_seconds,
        }
    }

    /// Copy the hierarchical options into the flat legacy mirror fields.
    pub fn sync_legacy_fields(self) -> (r: Self)
        ensures
            r.project == self.project,
            r.generation == self.generation,
            r.types == self.types,
            r.performance == self.performance,
            r.filesystem == self.filesystem,
            r.output_dir@ == self.generation.output_dir@,
            r.skip_functions@ == self.generation.skip_functions@,
            r.type_mappings@ == self.types.mappings@,
            r.include_private == self.generation.include_private,
            r.parallel == self.performance.parallel,
            r.parallel_chunk_size == self.performance.parallel_chunk_size,
            r.respect_gitignore == self.filesystem.respect_gitignore,
            r.skip_patterns@ == self.filesystem.skip_patterns@,
            r.timeout_seconds == self.generation.timeout_seconds,
    {
        let mut c = self;
        c.output_dir = c.generation.output_dir.clone();
        c.skip_functions = clone_strings(&c.generation.skip_functions);
        c.type_mappings = clone_entries(&c.types.mappings);
        c.include_private = c.generation.include_private;
        c.parallel = c.performance.parallel;
        c.parallel_chunk_size = c.performance.parallel_chunk_size;
        c.respect_gitignore = c.filesystem.respect_gitignore;
        c.skip_patterns = clone_strings(&c.filesystem.skip_patterns);
        c.timeout_seconds = c.generation.timeout_seconds;
        c
    }

    /// First override bound to `tname` in the legacy type-mapping table.
    pub fn get_type_mapping(&self, tname: &str) -> (r: Option<&String>)
        ensures
            match r {
                Some(v) => spec_map_get(self.type_mappings@, tname@) == Some(v@),
                None => spec_map_get(self.type_mappings@, tname@) is None,
            },
    {
        let ghost entries = self.type_mappings@;
        let mut i: usize = 0;
        proof {
            assert(entries.subrange(0, entries.len() as int) =~= entries);
        }
        while i < self.type_mappings.len()
            invariant
                entries == self.type_mappings@,
                i <= entries.len(),
                spec_map_get(entries, tname@) == spec_map_get(
                    entries.subrange(i as int, entries.len() as int),
                    tname@,
                ),
            decreases entries.len() - i,
        {
            let ghost rest = entries.subrange(i as int, entries.len() as int);
            proof {
                assert(rest[0] == entries[i as int]);
                assert(rest.subrange(1, rest.len() as int) =~= entries.subrange(
                    i + 1,
                    entries.len() as int,
                ));
            }
            if str_eq(self.type_mappings[i].key.as_str(), tname) {
                return Some(&self.type_mappings[i].value);
            }
            i += 1;
        }
        proof {
            assert(entries.subrange(entries.len() as int, entries.len() as int)
                =~= Seq::<MapEntry>::empty());
        }
        None
    }

    /// Whether a function of this name is skipped: some configured skip
    /// substring occurs in the name.
    pub fn should_skip_function(&self, function_name: &str) -> (r: bool)
        ensures
            r == spec_name_skipped(self.skip_functions@, function_name@),
    {
        let mut i: usize = 0;
        while i < self.skip_functions.len()
            invariant
                i <= self.skip_functions@.len(),
                forall|j: int|
                    0 <= j < i ==> !spec_contains(function_name@, #[trigger] self.skip_functions@[j]@),
            decreases self.skip_functions@.len() - i,
        {
            if contains(function_name, self.skip_functions[i].as_str()) {
                return true;
            }
            i += 1;
        }
        false
    }
}

} // verus!
