//! Command-line options for the generation command, and how they override a
//! loaded configuration. Argument parsing itself and configuration-file I/O
//! live with the binary; only the merging rule is defined here.

use vstd::prelude::*;

use crate::config::Config;
use crate::config::clone_strings;

verus! {

/// The options of the generation command.
#[derive(Debug)]
pub struct GenerateArgs {
    /// Path to the project root.
    pub path: String,
    /// Path to an explicit configuration file, when one was given.
    pub config_path: Option<String>,
    /// Output directory override.
    pub output_dir: Option<String>,
    /// Include private functions.
    pub include_private: bool,
    /// Extra name substrings of functions to skip.
    pub skip_prefixes: Vec<String>,
    /// Disable parallel processing.
    pub no_parallel: bool,
    /// Do not honor version-control ignore files.
    pub no_gitignore: bool,
}

/// Apply the command-line overrides to a loaded configuration: an explicit
/// output directory replaces the configured one, the private-function and
/// skip-prefix options only ever widen what was configured, and the
/// parallelism and ignore-file switches only ever turn features off.
pub fn apply_generate_args(config: Config, args: &GenerateArgs) -> (r: Config)
    ensures
        r.output_dir@ == (match args.output_dir {
            Some(ref od) => od@,
            None => config.output_dir@,
        }),
        r.include_private == (config.include_private || args.include_private),
        r.skip_functions@ == config.skip_functions@ + args.skip_prefixes@,
        r.parallel == (config.parallel && !args.no_parallel),
        r.respect_gitignore == (config.respect_gitignore && !args.no_gitignore),
        r.project == config.project,
        r.generation == config.generation,
        r.types == config.types,
        r.performance == config.performance,
        r.filesystem == config.filesystem,
        r.type_mappings@ == config.type_mappings@,
        r.parallel_chunk_size == config.parallel_chunk_size,
        r.skip_patterns@ == config.skip_patterns@,
        r.timeout_seconds == config.timeout_seconds,
{
    let mut c = config;
    match &args.output_dir {
        Some(od) => {
            c.output_dir = od.clone();
        },
        None => {},
    }
    if args.include_private {
        c.include_private = true;
    }
    let mut extra = clone_strings(&args.skip_prefixes);
    c.skip_functions.append(&mut extra);
    if args.no_parallel {
        c.parallel = false;
    }
    if args.no_gitignore {
        c.respect_gitignore = false;
    }
    c
}

} // verus!
