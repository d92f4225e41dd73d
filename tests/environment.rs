use std::path::Path;

use omiga::builder::FileContent;
use omiga::env::{is_default_profile, is_not_default_profile, StandardEnvironment};
use omiga::error::{ConfigError, ReadError};
use omiga::registry::ConfigReaderRegistry;
use omiga::toml_reader::TomlConfigReader;
use omiga::value::{OmigaValue as Value, Table};

// None of the candidate files exists here, and a path that does not exist
// is dropped before reading, so the builder is handed no file.
fn none_exist(paths: &[String]) -> Vec<(String, FileContent)> {
    paths.iter().filter(|_| false).map(|p| (p.clone(), FileContent::Missing)).collect()
}

#[test]
fn tests_test_file_path_os_unix() {
    let path = "/opt/ppp/configs/omiga";
    let file_path = Path::new(&path);
    let parent_path = file_path.parent().unwrap();
    let file_stem = file_path.file_stem().unwrap();

    assert_eq!("/opt/ppp/configs", parent_path.to_str().unwrap());
    assert_eq!("omiga", file_stem.to_str().unwrap());
    assert_eq!("omiga", file_stem.to_string_lossy())
}

#[test]
fn tests_test_file_os_unix() {
    let path = "/opt/ppp/configs/omiga.toml";
    let file_path = Path::new(&path);
    let parent_path = file_path.parent().unwrap();

    assert_eq!("/opt/ppp/configs", parent_path.to_str().unwrap());
    assert_eq!("omiga.toml", file_path.file_name().unwrap());
}

#[test]
fn tests_test_path_os_unix() {
    let file_path_absolute = Path::new("/opt/ppp/configs/omiga.toml");
    let file_path_relative = Path::new("omiga.toml");

    assert!(file_path_absolute.is_absolute());
    assert!(file_path_relative.is_relative());
}

#[test]
fn env_unix_tests_test_file_path_os_unix() {
    let path = "/opt/ppp/configs/omiga";
    let file_path = Path::new(&path);
    let parent_path = file_path.parent().unwrap();
    let file_stem = file_path.file_stem().unwrap();

    assert_eq!("/opt/ppp/configs", parent_path.to_str().unwrap());
    assert_eq!("omiga", file_stem.to_str().unwrap());
    assert_eq!("omiga", file_stem.to_string_lossy())
}

#[test]
fn env_unix_tests_test_file_os_unix() {
    let path = "/opt/ppp/configs/omiga.toml";
    let file_path = Path::new(&path);
    let parent_path = file_path.parent().unwrap();

    assert_eq!("/opt/ppp/configs", parent_path.to_str().unwrap());
    assert_eq!("omiga.toml", file_path.file_name().unwrap());
}

#[test]
fn env_unix_tests_test_path_os_unix() {
    let file_path_absolute = Path::new("/opt/ppp/configs/omiga.toml");
    let file_path_relative = Path::new("omiga.toml");

    assert!(file_path_absolute.is_absolute());
    assert!(file_path_relative.is_relative());
}

#[test]
fn test_is_default_profile_active() {
    assert!(is_default_profile("default"));
    assert!(!is_default_profile("dev"))
}

#[test]
fn test_is_not_default_profile_active() {
    assert!(is_not_default_profile("dev"));
    assert!(!is_not_default_profile("default"))
}

#[test]
fn env_unix_tests_test_hold_on_imports() {
    let mut builder = StandardEnvironment::builder()
        .with_table(Table::new())
        .with_registry(ConfigReaderRegistry::default())
        .with_reader(TomlConfigReader::default())
        .with_config("omiga".to_string())
        .with_profile("dev".to_string())
        .with_format("toml".to_string());
    builder.try_populate_defaults();
    let sources = none_exist(&builder.candidate_paths("/"));
    let rvt = builder.build(&sources);

    let mut environment = rvt.unwrap();
    environment
        .set("io.github.photowey", Value::String("omiga".to_string()))
        .expect("Set failed");

    assert_eq!(
        environment.get("io.github.photowey"),
        Ok(&Value::String("omiga".to_string()))
    );

    let file_path_relative = Path::new("omiga.toml");
    assert!(file_path_relative.is_relative());
}

#[test]
fn env_windows_test_test_hold_on_imports() {
    let mut builder = StandardEnvironment::builder()
        .with_table(Table::new())
        .with_registry(ConfigReaderRegistry::default())
        .with_reader(TomlConfigReader::default())
        .with_config("omiga".to_string())
        .with_profile("dev".to_string())
        .with_format("toml".to_string());
    builder.try_populate_defaults();
    let sources = none_exist(&builder.candidate_paths("\\"));
    let rvt = builder.build(&sources);

    let mut environment = rvt.unwrap();
    environment
        .set("io.github.photowey", Value::String("omiga".to_string()))
        .expect("Set failed");

    assert_eq!(
        environment.get("io.github.photowey"),
        Ok(&Value::String("omiga".to_string()))
    );
}

fn full_builder(path: &str, search: &str, data: &str, sep: &str) -> Result<StandardEnvironment, ReadError> {
    let mut builder = StandardEnvironment::builder()
        .with_table(Table::new())
        .with_registry(ConfigReaderRegistry::default())
        .with_reader(TomlConfigReader::default())
        .with_path(path.to_string())
        .with_paths(vec![format!(".{}configs", sep)])
        .with_config("omiga".to_string())
        .with_configs(vec!["application".to_string()])
        .with_profile("dev".to_string())
        .with_profiles(vec!["test".to_string()])
        .with_format("toml".to_string())
        .with_formats(vec!["toml".to_string()])
        .with_formats(vec!["toml".to_string(), "toml".to_string()])
        .with_search_path(search.to_string())
        .with_search_paths(vec![data.to_string()]);
    builder.try_populate_defaults();
    let candidates = builder.candidate_paths(sep);
    builder.build(&none_exist(&candidates))
}

#[test]
fn env_tests_test_standard_environment_builder_os_unix() {
    let rvt = full_builder("./testdata", "/opt/app/configs", "/data/configs", "/");
    assert!(rvt.is_ok());
}

#[test]
fn env_unix_tests_test_standard_environment_builder_os_unix() {
    let rvt = full_builder("./testdata", "/opt/app/configs", "/data/configs", "/");
    assert!(rvt.is_ok());
}

#[test]
fn test_standard_environment_builder() {
    let rvt = full_builder(".\\testdata", "C:\\rust\\app\\configs", "C:\\rust\\data\\configs", "\\");
    assert!(rvt.is_ok());
}

#[test]
fn test_standard_environment_builder_os_windows() {
    let rvt = full_builder(".\\testdata", "C:\\rust\\app\\configs", "C:\\rust\\data\\configs", "\\");
    assert!(rvt.is_ok());
}

fn simple_environment(search: &str, sep: &str) -> StandardEnvironment {
    let mut builder = StandardEnvironment::builder()
        .with_table(Table::new())
        .with_registry(ConfigReaderRegistry::default())
        .with_reader(TomlConfigReader::default())
        .with_config("omiga".to_string())
        .with_profile("dev".to_string())
        .with_format("toml".to_string())
        .with_search_path(search.to_string());
    builder.try_populate_defaults();
    let sources = none_exist(&builder.candidate_paths(sep));
    builder.build(&sources).unwrap()
}

#[test]
fn test_standard_environment_os_unix() {
    let mut environment = simple_environment("/opt/app/configs", "/");
    environment
        .set("io.github.photowey", Value::String("omiga".to_string()))
        .expect("Set failed");

    assert_eq!(
        environment.get("io.github.photowey"),
        Ok(&Value::String("omiga".to_string()))
    );
}

#[test]
fn test_standard_environment_os_windows() {
    let mut environment = simple_environment("C:\\rust\\app\\configs", "\\");
    environment
        .set("io.github.photowey", Value::String("omiga".to_string()))
        .expect("Set failed");

    assert_eq!(
        environment.get("io.github.photowey"),
        Ok(&Value::String("omiga".to_string()))
    );
}

#[test]
fn set_then_get_returns_the_value() {
    let mut environment = StandardEnvironment::new(None, ConfigReaderRegistry::new());
    environment.set("a.b.c", Value::Int64(7)).unwrap();
    assert_eq!(environment.get("a.b.c"), Ok(&Value::Int64(7)));
    environment.set("single", Value::Boolean(true)).unwrap();
    assert_eq!(environment.get("single"), Ok(&Value::Boolean(true)));
    assert!(matches!(environment.get("a.b"), Ok(Value::Nested(_))));
    assert_eq!(environment.get("a.x"), Err(ConfigError::NotFound));
    environment.set("a.b.c", Value::Int64(8)).unwrap();
    assert_eq!(environment.get("a.b.c"), Ok(&Value::Int64(8)));
}

#[test]
fn empty_key_fails_for_set_and_get() {
    let mut environment = StandardEnvironment::new(None, ConfigReaderRegistry::new());
    assert_eq!(environment.set("", Value::Int64(1)), Err(ConfigError::EmptyKey));
    assert_eq!(environment.get(""), Err(ConfigError::EmptyKey));
}

#[test]
fn set_through_a_scalar_is_non_nested() {
    let mut environment = StandardEnvironment::new(None, ConfigReaderRegistry::new());
    environment.set("a", Value::Int32(1)).unwrap();
    assert_eq!(environment.set("a.b", Value::Int32(2)), Err(ConfigError::NonNested));
    assert_eq!(environment.get("a"), Ok(&Value::Int32(1)));
    assert_eq!(environment.get("a.b"), Err(ConfigError::NonNested));
}

#[test]
fn reader_routing_by_suffix() {
    let mut registry: ConfigReaderRegistry<TomlConfigReader> = ConfigReaderRegistry::new();
    registry.register(TomlConfigReader::new());
    assert!(registry.try_acquire("toml").is_some());
    assert!(registry.try_acquire("yaml").is_none());
    assert_eq!(registry.try_acquires().len(), 1);
    registry.register_if_absent(TomlConfigReader::default());
    assert_eq!(registry.try_acquires().len(), 1);
}

#[test]
fn default_profile_gives_only_base_files() {
    let mut builder = StandardEnvironment::builder()
        .with_search_path("./testdata".to_string())
        .with_config("omiga".to_string());
    builder.try_populate_defaults();
    assert_eq!(builder.candidate_paths("/"), vec!["./testdata/omiga.toml".to_string()]);
}

fn scenario(base: FileContent, dev: FileContent) -> Result<StandardEnvironment, ReadError> {
    let mut builder = StandardEnvironment::builder()
        .with_config("omiga".to_string())
        .with_format("toml".to_string())
        .with_profile("dev".to_string())
        .with_search_path("./testdata".to_string());
    builder.try_populate_defaults();
    let candidates = builder.candidate_paths("/");
    assert_eq!(
        candidates,
        vec![
            "./testdata/omiga.toml".to_string(),
            "./testdata/omiga-dev.toml".to_string()
        ]
    );
    let sources = vec![(candidates[0].clone(), base), (candidates[1].clone(), dev)];
    builder.build(&sources)
}

#[test]
fn profile_file_overrides_base_file() {
    let environment = scenario(
        FileContent::Text("[server]\nport = 9320\nname = \"omiga\"\n".to_string()),
        FileContent::Text("[server]\nport = 8080\n".to_string()),
    )
    .unwrap();
    assert_eq!(environment.get("server.port"), Ok(&Value::Int64(8080)));
    assert_eq!(
        environment.get("server.name"),
        Ok(&Value::String("omiga".to_string()))
    );
    assert!(environment.try_acquire("toml").is_some());
}

#[test]
fn missing_file_contributes_nothing() {
    let environment = scenario(
        FileContent::Text("[server]\nport = 9320\n".to_string()),
        FileContent::Missing,
    )
    .unwrap();
    assert_eq!(environment.get("server.port"), Ok(&Value::Int64(9320)));
}

#[test]
fn unknown_suffix_fails_the_build() {
    let mut builder = StandardEnvironment::builder().with_format("yaml".to_string());
    builder.try_populate_defaults();
    let sources = vec![("/etc/omiga.yaml".to_string(), FileContent::Missing)];
    assert!(matches!(
        builder.build(&sources),
        Err(ReadError::ReaderNotFound(s)) if s == "yaml"
    ));
}

#[test]
fn path_without_extension_is_invalid() {
    let mut builder = StandardEnvironment::builder();
    let sources = vec![("/etc/omiga".to_string(), FileContent::Missing)];
    builder.try_populate_defaults();
    assert_eq!(
        builder.build(&sources).err(),
        Some(ReadError::InvalidPath("/etc/omiga".to_string()))
    );
}

#[test]
fn unreadable_file_fails_the_build() {
    let mut builder = StandardEnvironment::builder();
    let sources = vec![("/etc/omiga.toml".to_string(), FileContent::Unreadable)];
    assert_eq!(
        builder.build(&sources).err(),
        Some(ReadError::ReadFailed("/etc/omiga.toml".to_string()))
    );
}

#[test]
fn bad_toml_fails_the_build() {
    let mut builder = StandardEnvironment::builder();
    let sources = vec![(
        "/etc/omiga.toml".to_string(),
        FileContent::Text("port = = 1".to_string()),
    )];
    match builder.build(&sources) {
        Err(ReadError::ParseFailed(format, message)) => {
            assert_eq!(format, "TOML");
            assert!(!message.is_empty());
        }
        _ => panic!("expected a parse failure"),
    }
}

#[test]
fn layers_variables_table_and_files() {
    let mut initial = Table::new();
    initial.insert("from_table".to_string(), Value::Int64(1));
    initial.insert("PORT".to_string(), Value::Int64(2));
    let mut builder = StandardEnvironment::builder()
        .with_variables(vec![
            ("PORT".to_string(), "80".to_string()),
            ("HOME".to_string(), "/root".to_string()),
        ])
        .with_table(initial);
    let sources = vec![(
        "/etc/omiga.toml".to_string(),
        FileContent::Text("from_table = 3\n".to_string()),
    )];
    let environment = builder.build(&sources).unwrap();
    assert_eq!(environment.get("HOME"), Ok(&Value::String("/root".to_string())));
    assert_eq!(environment.get("PORT"), Ok(&Value::Int64(2)));
    assert_eq!(environment.get("from_table"), Ok(&Value::Int64(3)));
}

#[test]
fn new_environment_registers_the_toml_reader() {
    let environment = StandardEnvironment::new(None, ConfigReaderRegistry::new());
    assert!(environment.try_acquire("toml").is_some());
    assert_eq!(environment.try_acquires().len(), 1);
    assert_eq!(environment.get("x"), Err(ConfigError::NotFound));
}

#[test]
fn last_initial_table_wins() {
    let mut t1 = Table::new();
    t1.insert("only_first".to_string(), Value::Int64(1));
    let mut t2 = Table::new();
    t2.insert("second".to_string(), Value::Int64(2));
    let mut builder = StandardEnvironment::builder().with_table(t1).with_table(t2);
    let environment = builder.build(&Vec::new()).unwrap();
    assert_eq!(environment.get("second"), Ok(&Value::Int64(2)));
    assert_eq!(environment.get("only_first"), Err(ConfigError::NotFound));
    // The registry moved into the environment; a second build starts anew.
    let again = builder.build(&Vec::new()).unwrap();
    assert_eq!(again.get("second"), Err(ConfigError::NotFound));
    assert!(again.try_acquire("toml").is_some());
}
