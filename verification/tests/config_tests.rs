//! Configuration guard and macro context behavior.

use librpm::config::{begin_configure, finish_configure, read_file, set_db_path, GlobalState};
use librpm::{Error, MacroContext};

#[test]
fn read_file_succeeds_exactly_once() {
    let mut state = GlobalState::new();
    assert!(!state.is_configured());
    assert_eq!(read_file(&mut state, None, false, 0), Ok(()));
    assert!(state.is_configured());
    assert_eq!(
        read_file(&mut state, None, false, 0),
        Err(Error::AlreadyConfigured)
    );
    assert_eq!(
        read_file(&mut state, None, false, 0),
        Err(Error::AlreadyConfigured)
    );
}

#[test]
fn read_file_missing_file_is_not_fatal() {
    let mut state = GlobalState::new();
    let path = b"/no/such/file".to_vec();
    assert_eq!(
        read_file(&mut state, Some(&path), false, 0),
        Err(Error::FileNotFound)
    );
    assert!(!state.is_configured());
    // The guard was not set, so a later valid attempt still succeeds.
    assert_eq!(read_file(&mut state, None, false, 0), Ok(()));
}

#[test]
fn read_file_rejects_interior_nul() {
    let mut state = GlobalState::new();
    let path = b"/tmp/\0oops".to_vec();
    assert_eq!(
        read_file(&mut state, Some(&path), true, 0),
        Err(Error::InvalidPath)
    );
    assert!(!state.is_configured());
}

#[test]
fn read_file_native_failure_still_sets_guard() {
    let mut state = GlobalState::new();
    assert_eq!(
        read_file(&mut state, None, false, -1),
        Err(Error::ReadFailed { path_given: false })
    );
    // The flag was set before the native call, so the attempt is never retried.
    assert!(state.is_configured());
    assert_eq!(
        read_file(&mut state, None, false, 0),
        Err(Error::AlreadyConfigured)
    );
}

#[test]
fn read_file_native_failure_reports_path_given() {
    let mut state = GlobalState::new();
    let path = b"/tmp/rpmrc".to_vec();
    assert_eq!(
        read_file(&mut state, Some(&path), true, 3),
        Err(Error::ReadFailed { path_given: true })
    );
}

#[test]
fn begin_and_finish_split_an_attempt() {
    let mut state = GlobalState::new();
    assert_eq!(begin_configure(&mut state, None, false), Ok(()));
    assert!(state.is_configured());
    assert_eq!(finish_configure(0, false), Ok(()));
    assert_eq!(
        finish_configure(1, true),
        Err(Error::ReadFailed { path_given: true })
    );
    assert_eq!(
        begin_configure(&mut state, None, false),
        Err(Error::AlreadyConfigured)
    );
}

#[test]
fn define_requires_whitespace() {
    let mut ctx = MacroContext::new();
    assert_eq!(ctx.define("nobody", 0), Err(Error::MalformedMacro));
    assert_eq!(ctx.define("", 0), Err(Error::MalformedMacro));
    assert_eq!(ctx.define(" leading", 0), Err(Error::MalformedMacro));
    assert_eq!(ctx.lookup_body(&String::from("nobody")), None);
}

#[test]
fn define_splits_on_first_whitespace_run() {
    let mut ctx = MacroContext::new();
    assert_eq!(ctx.define("greeting  hello  world", 2), Ok(()));
    assert_eq!(
        ctx.lookup_body(&String::from("greeting")),
        Some(String::from("hello  world"))
    );
    assert_eq!(ctx.define("tabbed\tbody", 1), Ok(()));
    assert_eq!(
        ctx.lookup_body(&String::from("tabbed")),
        Some(String::from("body"))
    );
}

#[test]
fn define_lower_level_wins() {
    let mut ctx = MacroContext::new();
    assert_eq!(ctx.define("x first", 5), Ok(()));
    // A higher numeric level has lower priority: it does not displace.
    assert_eq!(ctx.define("x second", 7), Ok(()));
    assert_eq!(ctx.lookup_body(&String::from("x")), Some(String::from("first")));
    // An equal level wins.
    assert_eq!(ctx.define("x third", 5), Ok(()));
    assert_eq!(ctx.lookup_body(&String::from("x")), Some(String::from("third")));
    // A lower numeric level wins.
    assert_eq!(ctx.define("x fourth", 0), Ok(()));
    assert_eq!(ctx.lookup_body(&String::from("x")), Some(String::from("fourth")));
}

#[test]
fn define_keeps_other_names_apart() {
    let mut ctx = MacroContext::new();
    assert_eq!(ctx.define("a one", 0), Ok(()));
    assert_eq!(ctx.define("b two", 0), Ok(()));
    assert_eq!(ctx.lookup_body(&String::from("a")), Some(String::from("one")));
    assert_eq!(ctx.lookup_body(&String::from("b")), Some(String::from("two")));
}

#[test]
fn set_db_path_defines_dbpath_at_base_level() {
    let mut ctx = MacroContext::new();
    assert_eq!(set_db_path(&mut ctx, "/tmp/testdb"), Ok(()));
    assert_eq!(
        ctx.lookup_body(&String::from("_dbpath")),
        Some(String::from("/tmp/testdb"))
    );
}

#[test]
fn set_db_path_does_not_displace_higher_priority() {
    let mut ctx = MacroContext::new();
    assert_eq!(ctx.define("_dbpath /var/lib/rpm", -1), Ok(()));
    assert_eq!(set_db_path(&mut ctx, "/tmp/testdb"), Ok(()));
    assert_eq!(
        ctx.lookup_body(&String::from("_dbpath")),
        Some(String::from("/var/lib/rpm"))
    );
}

#[test]
fn error_messages_name_each_failure() {
    assert_eq!(
        Error::AlreadyConfigured.message(),
        String::from("already configured")
    );
    assert_eq!(Error::FileNotFound.message(), String::from("no such file"));
    assert_eq!(Error::InvalidPath.message(), String::from("invalid path"));
    assert_eq!(
        Error::ReadFailed { path_given: true }.message(),
        String::from("error reading configuration from the given file")
    );
    assert_eq!(
        Error::ReadFailed { path_given: false }.message(),
        String::from("error reading configuration from the default location")
    );
    assert_eq!(
        Error::MalformedMacro.message(),
        String::from("malformed macro definition")
    );
    assert_eq!(
        Error::UndefinedMacro.message(),
        String::from("undefined macro")
    );
    assert_eq!(
        Error::ExpansionCycle.message(),
        String::from("macro expansion cycle")
    );
    assert_eq!(
        Error::InvalidKey.message(),
        String::from("invalid search key")
    );
}
