use config_chain::cli::{resolve_with, Lookup};
use config_chain::command::{
    attribute_chain, config_path_chain, parse_port, resolve_cfg, verbosity_chain, RunError,
};
use config_chain::route::{is_image, upload_destination};

fn run_args(line: Vec<&str>) -> clap::ArgMatches {
    clap::Command::new("test_app")
        .arg(clap::Arg::new("config").long("config"))
        .arg(clap::Arg::new("address").long("address"))
        .arg(clap::Arg::new("verbose").long("verbose"))
        .get_matches_from(line)
}

fn nothing(_lookup: &Lookup) -> Option<String> {
    None
}

#[test]
fn config_path_comes_from_the_argument_first() {
    let matches = run_args(vec!["test_app", "--config", "/etc/app.yaml"]);
    let chain = config_path_chain(&matches, "APP_", "/home/u/.config/app.yaml");
    let actual = resolve_with(&chain, "config", |lookup: &Lookup| match lookup {
        Lookup::Env(_) => Some("/env/app.yaml".to_string()),
        Lookup::File(_) => None,
    });
    assert_eq!(actual, Some("/etc/app.yaml".to_string()));
}

#[test]
fn config_path_comes_from_the_prefixed_variable_next() {
    let matches = run_args(vec!["test_app"]);
    let chain = config_path_chain(&matches, "APP_", "/home/u/.config/app.yaml");
    let actual = resolve_with(&chain, "config", |lookup: &Lookup| match lookup {
        Lookup::Env(name) if name == "APP_config" => Some("/env/app.yaml".to_string()),
        _ => None,
    });
    assert_eq!(actual, Some("/env/app.yaml".to_string()));
}

#[test]
fn config_path_falls_back_to_the_default() {
    let matches = run_args(vec!["test_app"]);
    let chain = config_path_chain(&matches, "APP_", "/home/u/.config/app.yaml");
    assert_eq!(resolve_with(&chain, "config", nothing), Some("/home/u/.config/app.yaml".to_string()));
}

#[test]
fn attribute_is_read_in_order_of_precedence() {
    let read = |lookup: &Lookup| match lookup {
        Lookup::Env(name) if name == "APP_port" => Some("9001".to_string()),
        Lookup::File(path) if path == "/etc/app.toml" => {
            Some("address = \"10.0.0.1\"\nport = 9002\nverbose = \"warn\"\n".to_string())
        }
        _ => None,
    };
    let matches = run_args(vec!["test_app", "--address", "192.168.0.1"]);
    let chain = attribute_chain(&matches, "APP_", "/etc/app.toml", "127.0.0.1");
    assert_eq!(resolve_with(&chain, "address", read), Some("192.168.0.1".to_string()));

    let matches = run_args(vec!["test_app"]);
    let chain = attribute_chain(&matches, "APP_", "/etc/app.toml", "127.0.0.1");
    assert_eq!(resolve_with(&chain, "address", read), Some("10.0.0.1".to_string()));
    let chain = attribute_chain(&matches, "APP_", "/etc/app.toml", "8080");
    assert_eq!(resolve_with(&chain, "port", read), Some("9001".to_string()));
    let chain = attribute_chain(&matches, "APP_", "/etc/app.toml", "*");
    assert_eq!(resolve_with(&chain, "template_glob", read), Some("*".to_string()));
    let chain = attribute_chain(&matches, "APP_", "/etc/missing.toml", "127.0.0.1");
    assert_eq!(resolve_with(&chain, "address", read), Some("127.0.0.1".to_string()));
}

#[test]
fn verbosity_is_the_whole_text_of_its_file() {
    let matches = run_args(vec!["test_app"]);
    let chain = verbosity_chain(&matches, "APP_", "/etc/verbosity", "info");
    let actual = resolve_with(&chain, "VERBOSITY", |lookup: &Lookup| match lookup {
        Lookup::File(path) if path == "/etc/verbosity" => Some("debug\n".to_string()),
        _ => None,
    });
    assert_eq!(actual, Some("debug\n".to_string()));
    assert_eq!(resolve_with(&chain, "VERBOSITY", nothing), Some("info".to_string()));

    let matches = run_args(vec!["test_app", "--verbose", "trace"]);
    let chain = verbosity_chain(&matches, "APP_", "/etc/verbosity", "info");
    assert_eq!(resolve_with(&chain, "verbose", nothing), Some("trace".to_string()));
}

#[test]
fn firmware_images_are_told_by_extension() {
    assert!(is_image("firmware.cgi"));
    assert!(is_image("firmware.sgi"));
    assert!(is_image("firmware.v2.sgi"));
    assert!(!is_image("firmware.bin"));
    assert!(!is_image("firmware.CGI"));
    assert!(!is_image("cgi"));
    assert!(!is_image(".cgi"));
    assert!(!is_image("firmware.sgi.part"));
    assert!(!is_image(""));
}

#[test]
fn upload_is_stored_directly_below_the_directory() {
    assert_eq!(upload_destination("./uploads/", "firmware.sgi"), "./uploads/firmware.sgi");
    assert_eq!(upload_destination("", "firmware.sgi"), "firmware.sgi");
    assert_eq!(upload_destination("./uploads", "x"), "./uploadsx");
}

#[test]
fn port_is_decimal_digits_within_sixteen_bits() {
    assert_eq!(parse_port("8080"), Some(8080));
    assert_eq!(parse_port("0"), Some(0));
    assert_eq!(parse_port("+80"), Some(80));
    assert_eq!(parse_port("0080"), Some(80));
    assert_eq!(parse_port("65535"), Some(65535));
    assert_eq!(parse_port("65536"), None);
    assert_eq!(parse_port("99999999999999999999"), None);
    assert_eq!(parse_port(""), None);
    assert_eq!(parse_port("+"), None);
    assert_eq!(parse_port("-1"), None);
    assert_eq!(parse_port("-0"), None);
    assert_eq!(parse_port("++1"), None);
    assert_eq!(parse_port(" 80"), None);
    assert_eq!(parse_port("80 "), None);
    assert_eq!(parse_port("8_0"), None);
    assert_eq!(parse_port("0x50"), None);
    assert_eq!(parse_port("http"), None);
    assert_eq!(parse_port("\u{ff18}\u{ff10}"), None);
}

#[test]
fn run_configuration_without_any_source_is_the_defaults() {
    let matches = run_args(vec!["test_app"]);
    match resolve_cfg(&matches, "APP_", "/home/u/.config/app.yaml", "/srv/app", nothing) {
        Ok(cfg) => {
            assert_eq!(cfg.verbose, "info");
            assert_eq!(cfg.address, "127.0.0.1");
            assert_eq!(cfg.port, 8080);
            assert_eq!(cfg.template_glob, "/srv/app/templates/**/*");
        }
        Err(_) => panic!("the defaults are a configuration"),
    }
}

#[test]
fn run_configuration_reads_the_file_that_the_path_resolves_to() {
    let read = |lookup: &Lookup| match lookup {
        Lookup::Env(name) if name == "APP_config" => Some("/etc/app.yaml".to_string()),
        Lookup::Env(name) if name == "APP_port" => Some("+9001".to_string()),
        Lookup::File(path) if path == "/etc/app.yaml" => {
            Some("address: 10.0.0.1\nport: 9002\ntemplate_glob: /t/*\n".to_string())
        }
        Lookup::File(path) if path == "/home/u/.config/app.yaml" => {
            Some("address: 10.0.0.2\n".to_string())
        }
        _ => None,
    };
    let matches = run_args(vec!["test_app"]);
    match resolve_cfg(&matches, "APP_", "/home/u/.config/app.yaml", "/srv/app", read) {
        Ok(cfg) => {
            assert_eq!(cfg.verbose, "info");
            assert_eq!(cfg.address, "10.0.0.1");
            assert_eq!(cfg.port, 9001);
            assert_eq!(cfg.template_glob, "/t/*");
        }
        Err(_) => panic!("every source holds a valid value"),
    }
    let matches = run_args(vec!["test_app", "--address", "::1", "--config", "/nowhere.toml"]);
    match resolve_cfg(&matches, "APP_", "/home/u/.config/app.yaml", "/srv/app", read) {
        Ok(cfg) => {
            assert_eq!(cfg.address, "::1");
            assert_eq!(cfg.port, 9001);
            assert_eq!(cfg.template_glob, "/srv/app/templates/**/*");
        }
        Err(_) => panic!("every source holds a valid value"),
    }
}

#[test]
fn run_configuration_hands_back_what_is_no_port() {
    let read = |lookup: &Lookup| match lookup {
        Lookup::Env(name) if name == "APP_port" => Some("http".to_string()),
        _ => None,
    };
    let matches = run_args(vec!["test_app"]);
    match resolve_cfg(&matches, "APP_", "/home/u/.config/app.yaml", "/srv/app", read) {
        Err(RunError::Port(text)) => assert_eq!(text, "http"),
        Ok(_) => panic!("\"http\" is no port"),
    }
}
