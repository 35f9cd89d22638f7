use amoxide::config::LogVerbosity;
use amoxide::effects::Echo;


#[test]
fn echo_from_verbosity_off_returns_silent() {
    let echo = Echo::from_verbosity(
        &LogVerbosity::Off,
        || "short".to_string(),
        || "verbose".to_string(),
    );
    assert!(matches!(echo, Echo::Silent));
}


#[test]
fn echo_from_verbosity_short_returns_short_line() {
    let echo = Echo::from_verbosity(
        &LogVerbosity::Short,
        || "short msg".to_string(),
        || panic!("verbose closure should not be called"),
    );
    assert!(matches!(echo, Echo::Line(s) if s == "short msg"));
}


#[test]
fn echo_from_verbosity_verbose_returns_verbose_line() {
    let echo = Echo::from_verbosity(
        &LogVerbosity::Verbose,
        || panic!("short closure should not be called"),
        || "verbose msg".to_string(),
    );
    assert!(matches!(echo, Echo::Line(s) if s == "verbose msg"));
}


#[test]
fn echo_always_empty_is_silent() {
    assert!(matches!(Echo::always(String::new()), Echo::Silent));
}


#[test]
fn echo_always_non_empty_is_line() {
    assert!(matches!(Echo::always("hello".into()), Echo::Line(s) if s == "hello"));
}
