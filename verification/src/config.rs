//! Settings of a run, and how command-line arguments override them.

use crate::schema::SchemaOutputTier;
use std::path::PathBuf;
use vstd::prelude::*;

verus! {

/// `std::path::PathBuf`, carried through as an opaque value: nothing here
/// reads a path.
#[verifier::external_type_specification]
#[verifier::external_body]
pub struct ExPathBuf(PathBuf);

/// Settings of a run.
#[derive(Debug, Clone)]
pub struct Config {
    pub default_tier: SchemaOutputTier,
    pub pretty_output: bool,
    pub validate_schema: bool,
    pub output_directory: Option<PathBuf>,
    pub file_extensions: Vec<String>,
}

impl Default for Config {
    /// The settings in force when nothing is configured: the `Standard` tier,
    /// compact output, no validation, output beside the input, and `json` as
    /// the one file extension.
    fn default() -> (config: Self)
        ensures
            config.default_tier == SchemaOutputTier::Standard,
            !config.pretty_output,
            !config.validate_schema,
            config.output_directory is None,
            config.file_extensions@.len() == 1,
            config.file_extensions@[0]@ == "json"@,
    {
        let mut file_extensions: Vec<String> = Vec::new();
        file_extensions.push("json".to_string());
        Config {
            default_tier: SchemaOutputTier::Standard,
            pretty_output: false,
            validate_schema: false,
            output_directory: None,
            file_extensions,
        }
    }
}

impl Config {
    /// Lets command-line arguments override the settings: a tier given on the
    /// command line replaces the configured one, and each of the two flags,
    /// when set, switches its setting on. Nothing is ever switched off, and
    /// the other settings stay as they are.
    pub fn merge_with_args(
        &mut self,
        tier: Option<SchemaOutputTier>,
        pretty: bool,
        validate: bool,
    )
        ensures
            final(self).default_tier == (match tier {
                Some(t) => t,
                None => old(self).default_tier,
            }),
            final(self).pretty_output == (old(self).pretty_output || pretty),
            final(self).validate_schema == (old(self).validate_schema || validate),
            final(self).output_directory == old(self).output_directory,
            final(self).file_extensions == old(self).file_extensions,
    {
        if let Some(t) = tier {
            self.default_tier = t;
        }
        if pretty {
            self.pretty_output = true;
        }
        if validate {
            self.validate_schema = true;
        }
    }
}

} // verus!
