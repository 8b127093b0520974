use uosql::logger::{module_path_start, with_loglevel};

#[test]
fn a_builder_starts_with_stdout_and_without_a_file() {
    let (level, file, stdout) = with_loglevel(log::LevelFilter::Warn).into_parts();
    assert_eq!(level, log::LevelFilter::Warn);
    assert_eq!(file, None);
    assert!(stdout);
}

#[test]
fn a_builder_collects_the_settings() {
    let builder = with_loglevel(log::LevelFilter::Trace).with_logfile("server.log");
    let (level, file, stdout) = builder.into_parts();
    assert_eq!(level, log::LevelFilter::Trace);
    assert_eq!(file, Some("server.log"));
    assert!(stdout);

    let builder = with_loglevel(log::LevelFilter::Off).without_stdout().with_logfile("a");
    let (level, file, stdout) = builder.with_logfile("b").without_stdout().into_parts();
    assert_eq!(level, log::LevelFilter::Off);
    assert_eq!(file, Some("b"));
    assert!(!stdout);
}

#[test]
fn the_module_path_starts_at_the_first_two_colons() {
    assert_eq!(module_path_start(b"server::net::types"), Some(6));
    assert_eq!(module_path_start(b"::net"), Some(0));
    assert_eq!(module_path_start(b"a:b::"), Some(3));
    assert_eq!(module_path_start(b"server"), None);
    assert_eq!(module_path_start(b"a:b:c"), None);
    assert_eq!(module_path_start(b":"), None);
    assert_eq!(module_path_start(b""), None);
}
