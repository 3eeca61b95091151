use tedana_core::environment::{resolve, Environment};
use tedana_core::error::Error;

#[test]
fn resolve_goes_two_levels_up() {
    let environment = resolve("/x/y/bin/python").unwrap();
    assert_eq!(environment.root, "/x/y");
    assert_eq!(environment.executable_dir, "/x/y/bin");
    assert_eq!(environment.tool_path, "/x/y/bin/tedana");
    assert_eq!(environment.activation.variable, "PATH");
    assert_eq!(environment.activation.entry, "/x/y/bin");
}

#[test]
fn resolve_rejects_path_with_one_ancestor() {
    assert_eq!(resolve("/bin/python").unwrap_err(), Error::InvalidEnvironmentLayout);
}

#[test]
fn resolve_rejects_paths_without_named_root() {
    assert_eq!(resolve("").unwrap_err(), Error::InvalidEnvironmentLayout);
    assert_eq!(resolve("python").unwrap_err(), Error::InvalidEnvironmentLayout);
    assert_eq!(resolve("bin/python").unwrap_err(), Error::InvalidEnvironmentLayout);
    assert_eq!(resolve("/").unwrap_err(), Error::InvalidEnvironmentLayout);
    assert_eq!(resolve("//bin//python").unwrap_err(), Error::InvalidEnvironmentLayout);
}

#[test]
fn resolve_accepts_shortest_layout() {
    assert_eq!(resolve("/y/bin/python").unwrap().root, "/y");
    assert_eq!(resolve("env/bin/python").unwrap().root, "env");
}

#[test]
fn resolve_ignores_repeated_and_trailing_separators() {
    assert_eq!(resolve("/x/y/bin/python/").unwrap().root, "/x/y");
    assert_eq!(resolve("/x/y//bin///python").unwrap().root, "/x/y");
}

#[test]
fn resolve_keeps_characters_beyond_ascii() {
    let environment = resolve("/home/zoë/café/bin/python3").unwrap();
    assert_eq!(environment.root, "/home/zoë/café");
    assert_eq!(environment.tool_path, "/home/zoë/café/bin/tedana");
}

#[test]
fn environment_at_root_names_its_parts() {
    let environment = Environment::at("/opt/env");
    assert_eq!(environment.root, "/opt/env");
    assert_eq!(environment.executable_dir, "/opt/env/bin");
    assert_eq!(environment.tool_path, "/opt/env/bin/tedana");
    assert_eq!(environment.activation.entry, "/opt/env/bin");
}

#[test]
fn search_path_puts_entry_first() {
    let environment = Environment::at("/opt/env");
    assert_eq!(environment.activation.search_path("/usr/bin:/bin"), "/opt/env/bin:/usr/bin:/bin");
}

#[test]
fn search_path_without_inherited_value_is_entry() {
    let environment = Environment::at("/opt/env");
    assert_eq!(environment.activation.search_path(""), "/opt/env/bin");
}

#[test]
fn error_messages() {
    assert_eq!(Error::AlreadyRunning.message(), "Tedana is already running");
    assert_eq!(Error::NotRunning.message(), "No Tedana process is currently running");
    assert_eq!(Error::ProcessFailure.message(), "Tedana execution failed");
    assert_eq!(Error::SpawnError.message(), "Failed to start process");
    assert_eq!(Error::Cancelled.message(), "Tedana execution was cancelled");
    assert_eq!(
        Error::InvalidEnvironmentLayout.message(),
        "Interpreter path has no environment root"
    );
}
