use std::path::Path;

use clap::builder::RangedU64ValueParser;
use clap::{Arg, ArgAction, Command};
use tempdir::TempDir;
use tileserver_config::config::Args;

fn command() -> Command<'static> {
    Command::new("mbtileserver")
        .about("A simple mbtiles server")
        .arg(
            Arg::new("directory")
                .long("directory")
                .short('d')
                .action(ArgAction::Set)
                .default_value("./tiles"),
        )
        .arg(
            Arg::new("port")
                .long("port")
                .short('p')
                .action(ArgAction::Set)
                .value_parser(RangedU64ValueParser::<u16>::new())
                .default_value("3000"),
        )
        .arg(
            Arg::new("allowed_hosts")
                .long("allowed-hosts")
                .action(ArgAction::Append)
                .value_delimiter(',')
                .default_value("localhost,127.0.0.1,[::1]"),
        )
        .arg(
            Arg::new("header")
                .long("header")
                .short('H')
                .action(ArgAction::Append),
        )
        .arg(
            Arg::new("disable_preview")
                .long("disable-preview")
                .action(ArgAction::SetTrue),
        )
        .arg(
            Arg::new("allow_reload_api")
                .long("allow-reload-api")
                .action(ArgAction::SetTrue),
        )
        .arg(
            Arg::new("allow_reload_signal")
                .long("allow-reload-signal")
                .action(ArgAction::SetTrue),
        )
        .arg(
            Arg::new("reload_interval")
                .long("reload-interval")
                .action(ArgAction::Set),
        )
        .arg(
            Arg::new("disable_watcher")
                .long("disable-watcher")
                .action(ArgAction::SetTrue),
        )
}

fn try_parse_from(argv: &[&str]) -> Result<Args, clap::Error> {
    let matches = command().try_get_matches_from(argv)?;
    let texts = |id: &str| -> Vec<String> {
        matches
            .get_many::<String>(id)
            .map(|values| values.cloned().collect())
            .unwrap_or_default()
    };
    Ok(Args {
        directory: matches.get_one::<String>("directory").unwrap().clone(),
        tilesets: None,
        port: *matches.get_one::<u16>("port").unwrap(),
        allowed_hosts: texts("allowed_hosts"),
        header: texts("header"),
        headers: Vec::new(),
        disable_preview: matches.get_flag("disable_preview"),
        allow_reload_api: matches.get_flag("allow_reload_api"),
        allow_reload_signal: matches.get_flag("allow_reload_signal"),
        reload_interval: matches.get_one::<String>("reload_interval").cloned(),
        real_reload_interval: None,
        disable_watcher: matches.get_flag("disable_watcher"),
    })
}

#[test]
fn test_missing_directory() {
    let dir = TempDir::new("tiles").unwrap();
    let dir_name = dir.path().to_str().unwrap().to_string();
    dir.close().unwrap();
    let args = try_parse_from(&["", &format!("-d {dir_name}")]).unwrap();
    let is_dir = Path::new(&args.directory).is_dir();
    let args = args.post_parse(is_dir);
    match args {
        Ok(_) => (),
        Err(err) => {
            let err = err.to_string();
            assert!(format!("{err}").starts_with("Directory does not exists"));
        }
    };
}

#[test]
fn test_valid_headers() {
    let args = try_parse_from(&[
        "",
        "--header",
        "cache-control: public,max-age=14400",
        "--header",
        "access-control-allow-origin: *",
    ])
    .unwrap()
    .post_parse(true)
    .unwrap();
    println!("{:?}", args.headers);
    assert_eq!(
        args.headers,
        vec![
            (
                "cache-control".to_string(),
                "public,max-age=14400".to_string(),
            ),
            ("access-control-allow-origin".to_string(), "*".to_string(),)
        ]
    );
}

#[test]
fn test_invalid_headers() {
    let app = try_parse_from(&["", "-H"]);
    assert!(app.is_err());

    let args = try_parse_from(&["", "-H k:"])
        .unwrap()
        .post_parse(true)
        .unwrap();
    assert_eq!(args.headers, vec![]);

    let args = try_parse_from(&["", "-H :v"])
        .unwrap()
        .post_parse(true)
        .unwrap();
    assert_eq!(args.headers, vec![]);
}

#[test]
fn missing_directory_is_refused_with_its_name() {
    let dir = TempDir::new("tiles").unwrap();
    let dir_name = dir.path().to_str().unwrap().to_string();
    dir.close().unwrap();
    let args = try_parse_from(&["", "-d", &dir_name]).unwrap();
    let is_dir = Path::new(&args.directory).is_dir();
    assert!(!is_dir);
    let err = args.post_parse(is_dir).unwrap_err();
    assert_eq!(
        err.to_string(),
        format!("Directory does not exists: {dir_name}")
    );
}

#[test]
fn existing_directory_resolves() {
    let dir = TempDir::new("tiles").unwrap();
    let dir_name = dir.path().to_str().unwrap().to_string();
    let args = try_parse_from(&["", "-d", &dir_name]).unwrap();
    let is_dir = Path::new(&args.directory).is_dir();
    assert!(is_dir);
    let args = args.post_parse(is_dir).unwrap();
    let tilesets = args.tilesets.unwrap();
    assert_eq!(tilesets.name_prefix, "");
    assert_eq!(tilesets.root, dir_name);
    dir.close().unwrap();
}

#[test]
fn defaults_of_the_command_line_resolve() {
    let args = try_parse_from(&[""]).unwrap().post_parse(true).unwrap();
    assert_eq!(args.directory, "./tiles");
    assert_eq!(args.port, 3000);
    assert_eq!(args.allowed_hosts, vec!["localhost", "127.0.0.1", "[::1]"]);
    assert_eq!(args.headers, vec![]);
    assert_eq!(args.reload_interval, None);
    assert_eq!(args.real_reload_interval, None);
    assert!(!args.disable_preview);
    assert!(!args.allow_reload_api);
    assert!(!args.allow_reload_signal);
    assert!(!args.disable_watcher);
}

#[test]
fn reload_interval_of_the_command_line_is_counted() {
    let args = try_parse_from(&["", "--reload-interval", "1h30m", "--allow-reload-api"])
        .unwrap()
        .post_parse(true)
        .unwrap();
    assert_eq!(args.reload_interval, Some("1h30m".to_string()));
    assert_eq!(args.real_reload_interval, Some(5400));
    assert!(args.allow_reload_api);
}
