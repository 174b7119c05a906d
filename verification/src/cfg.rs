//! The configuration record of the server, the formats it can be written
//! in, and where its defaults point.

use crate::store::{get_int, get_string, store_ints, store_strings};
use vstd::prelude::*;
use vstd::string::{StrSliceExecFns, StringExecFns};

verus! {

/// The formats in which a configuration record can be written out.
#[derive(Copy, Clone, Debug, PartialEq, Eq, PartialOrd, Ord, Structural)]
pub enum CfgOutputFormat {
    JSON,
    TOML,
    YAML,
}

impl Default for CfgOutputFormat {
    /// TOML, unless a format is asked for.
    fn default() -> (format: Self)
        ensures
            format == CfgOutputFormat::TOML,
    {
        CfgOutputFormat::TOML
    }
}

impl CfgOutputFormat {
    /// Every format, in the order in which they are offered.
    pub fn value_variants() -> (all: Vec<CfgOutputFormat>)
        ensures
            all@ == seq![CfgOutputFormat::JSON, CfgOutputFormat::TOML, CfgOutputFormat::YAML],
    {
        vec![CfgOutputFormat::JSON, CfgOutputFormat::TOML, CfgOutputFormat::YAML]
    }

    /// The word by which the format is chosen on the command line.
    pub fn name(&self) -> (word: &'static str)
        ensures
            word@ == match self {
                CfgOutputFormat::JSON => "json"@,
                CfgOutputFormat::TOML => "toml"@,
                CfgOutputFormat::YAML => "yaml"@,
            },
    {
        match self {
            CfgOutputFormat::JSON => "json",
            CfgOutputFormat::TOML => "toml",
            CfgOutputFormat::YAML => "yaml",
        }
    }

    /// The format's name as the help text shows it.
    pub fn help(&self) -> (word: &'static str)
        ensures
            word@ == match self {
                CfgOutputFormat::JSON => "JSON"@,
                CfgOutputFormat::TOML => "TOML"@,
                CfgOutputFormat::YAML => "YAML"@,
            },
    {
        match self {
            CfgOutputFormat::JSON => "JSON",
            CfgOutputFormat::TOML => "TOML",
            CfgOutputFormat::YAML => "YAML",
        }
    }
}

/// What the server is run with.
#[derive(Debug)]
pub struct Cfg {
    pub verbose: String,
    pub address: String,
    pub port: u16,
    pub template_glob: String,
}

/// The mathematical value of a [`Cfg`].
pub ghost struct CfgModel {
    pub verbose: Seq<char>,
    pub address: Seq<char>,
    pub port: u16,
    pub template_glob: Seq<char>,
}

impl View for Cfg {
    type V = CfgModel;

    open spec fn view(&self) -> CfgModel {
        CfgModel {
            verbose: self.verbose@,
            address: self.address@,
            port: self.port,
            template_glob: self.template_glob@,
        }
    }
}

/// The glob of the templates that ship with the program, below the
/// directory `manifest_dir`.
pub fn default_template_glob(manifest_dir: &str) -> (glob: String)
    ensures
        glob@ == manifest_dir@ + "/templates/**/*"@,
{
    manifest_dir.to_owned().concat("/templates/**/*")
}

/// The configuration file that is read when none is named, below the
/// user's home directory `home_dir`. A separator is put behind `home_dir`
/// unless it is empty or ends in one.
pub fn default_config_path(home_dir: &str) -> (path: String)
    ensures
        path@ == if home_dir@.len() == 0 || home_dir@.last() == '/' {
            home_dir@ + ".config/FIXME/default.yaml"@
        } else {
            home_dir@ + "/"@ + ".config/FIXME/default.yaml"@
        },
{
    let n = home_dir.unicode_len();
    if n == 0 || home_dir.get_char(n - 1) == '/' {
        home_dir.to_owned().concat(".config/FIXME/default.yaml")
    } else {
        home_dir.to_owned().concat("/").concat(".config/FIXME/default.yaml")
    }
}

impl Cfg {
    /// The record that holds where nothing else is configured.
    pub fn with_defaults(manifest_dir: &str) -> (cfg: Cfg)
        ensures
            cfg.verbose@ == "info"@,
            cfg.address@ == "127.0.0.1"@,
            cfg.port == 8080,
            cfg.template_glob@ == manifest_dir@ + "/templates/**/*"@,
    {
        Cfg {
            verbose: "info".to_owned(),
            address: "127.0.0.1".to_owned(),
            port: 8080,
            template_glob: default_template_glob(manifest_dir),
        }
    }

    /// The defaults, each replaced by what `store` holds under the field's
    /// name. An integer port is cut to its low sixteen bits.
    pub fn from_store(store: &config::Config, manifest_dir: &str) -> (cfg: Cfg)
        ensures
            cfg.verbose@ == (if store_strings(*store).contains_key("verbose"@) {
                store_strings(*store)["verbose"@]
            } else {
                "info"@
            }),
            cfg.address@ == (if store_strings(*store).contains_key("address"@) {
                store_strings(*store)["address"@]
            } else {
                "127.0.0.1"@
            }),
            cfg.port == (if store_ints(*store).contains_key("port"@) {
                store_ints(*store)["port"@] as u16
            } else {
                8080u16
            }),
            cfg.template_glob@ == (if store_strings(*store).contains_key("template_glob"@) {
                store_strings(*store)["template_glob"@]
            } else {
                manifest_dir@ + "/templates/**/*"@
            }),
    {
        let mut cfg = Cfg::with_defaults(manifest_dir);
        proof {
            reveal_strlit("verbose");
            reveal_strlit("address");
            reveal_strlit("port");
            reveal_strlit("template_glob");
        }
        if let Ok(o) = get_string(store, "verbose") {
            cfg.verbose = o;
        }
        if let Ok(o) = get_string(store, "address") {
            cfg.address = o;
        }
        if let Ok(o) = get_int(store, "port") {
            cfg.port = #[verifier::truncate]
            (o as u16);
        }
        if let Ok(o) = get_string(store, "template_glob") {
            cfg.template_glob = o;
        }
        cfg
    }
}

} // verus!
