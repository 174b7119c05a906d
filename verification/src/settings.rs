//! The settings record of the server, with its templates named by
//! directory, and the formats it can be written in.

use crate::store::{get_int, get_string, store_ints, store_strings};
use vstd::prelude::*;
use vstd::string::StringExecFns;

verus! {

/// The formats in which a settings record can be written out.
#[derive(Copy, Clone, Debug, PartialEq, Eq, PartialOrd, Ord, Structural)]
pub enum SettingsOutputFormat {
    JSON,
    TOML,
    YAML,
}

impl Default for SettingsOutputFormat {
    /// TOML, unless a format is asked for.
    fn default() -> (format: Self)
        ensures
            format == SettingsOutputFormat::TOML,
    {
        SettingsOutputFormat::TOML
    }
}

impl SettingsOutputFormat {
    /// Every format, in the order in which they are offered.
    pub fn value_variants() -> (all: Vec<SettingsOutputFormat>)
        ensures
            all@ == seq![SettingsOutputFormat::JSON, SettingsOutputFormat::TOML, SettingsOutputFormat::YAML],
    {
        vec![SettingsOutputFormat::JSON, SettingsOutputFormat::TOML, SettingsOutputFormat::YAML]
    }

    /// The word by which the format is chosen on the command line.
    pub fn name(&self) -> (word: &'static str)
        ensures
            word@ == match self {
                SettingsOutputFormat::JSON => "json"@,
                SettingsOutputFormat::TOML => "toml"@,
                SettingsOutputFormat::YAML => "yaml"@,
            },
    {
        match self {
            SettingsOutputFormat::JSON => "json",
            SettingsOutputFormat::TOML => "toml",
            SettingsOutputFormat::YAML => "yaml",
        }
    }

    /// The format's name as the help text shows it.
    pub fn help(&self) -> (word: &'static str)
        ensures
            word@ == match self {
                SettingsOutputFormat::JSON => "JSON"@,
                SettingsOutputFormat::TOML => "TOML"@,
                SettingsOutputFormat::YAML => "YAML"@,
            },
    {
        match self {
            SettingsOutputFormat::JSON => "JSON",
            SettingsOutputFormat::TOML => "TOML",
            SettingsOutputFormat::YAML => "YAML",
        }
    }
}

/// What the server is run with.
#[derive(Debug)]
pub struct Settings {
    pub verbose: String,
    pub address: String,
    pub port: u16,
    pub template_dir: String,
}

/// Where the templates that ship with the program lie, below the
/// directory `manifest_dir`.
pub fn default_template_path(manifest_dir: &str) -> (path: String)
    ensures
        path@ == manifest_dir@ + "/templates/**/*"@,
{
    manifest_dir.to_owned().concat("/templates/**/*")
}

impl Settings {
    /// The record that holds where nothing else is configured.
    pub fn with_defaults(manifest_dir: &str) -> (settings: Settings)
        ensures
            settings.verbose@ == "info"@,
            settings.address@ == "127.0.0.1"@,
            settings.port == 8080,
            settings.template_dir@ == manifest_dir@ + "/templates/**/*"@,
    {
        Settings {
            verbose: "info".to_owned(),
            address: "127.0.0.1".to_owned(),
            port: 8080,
            template_dir: default_template_path(manifest_dir),
        }
    }

    /// The defaults, each replaced by what `store` holds under the field's
    /// name. An integer port is cut to its low sixteen bits.
    pub fn from_store(store: &config::Config, manifest_dir: &str) -> (settings: Settings)
        ensures
            settings.verbose@ == (if store_strings(*store).contains_key("verbose"@) {
                store_strings(*store)["verbose"@]
            } else {
                "info"@
            }),
            settings.address@ == (if store_strings(*store).contains_key("address"@) {
                store_strings(*store)["address"@]
            } else {
                "127.0.0.1"@
            }),
            settings.port == (if store_ints(*store).contains_key("port"@) {
                store_ints(*store)["port"@] as u16
            } else {
                8080u16
            }),
            settings.template_dir@ == (if store_strings(*store).contains_key("template_dir"@) {
                store_strings(*store)["template_dir"@]
            } else {
                manifest_dir@ + "/templates/**/*"@
            }),
    {
        let mut settings = Settings::with_defaults(manifest_dir);
        proof {
            reveal_strlit("verbose");
            reveal_strlit("address");
            reveal_strlit("port");
            reveal_strlit("template_dir");
        }
        if let Ok(o) = get_string(store, "verbose") {
            settings.verbose = o;
        }
        if let Ok(o) = get_string(store, "address") {
            settings.address = o;
        }
        if let Ok(o) = get_int(store, "port") {
            settings.port = #[verifier::truncate]
            (o as u16);
        }
        if let Ok(o) = get_string(store, "template_dir") {
            settings.template_dir = o;
        }
        settings
    }
}

} // verus!
