use llm_router::config::accepts_extension;
use llm_router::config::candidate_paths;
use llm_router::config::candidates_from;
use llm_router::config::find_config;
use llm_router::config::has_config_extension;
use llm_router::config::load_config;
use llm_router::config::AuthConfig;
use llm_router::config::BackendConfig;
use llm_router::config::Config;
use llm_router::config::ConfigError;
use llm_router::router::AuthError;

fn sample() -> Config {
    Config {
        refresh_interval: 300,
        backends: vec![BackendConfig {
            name: "test-backend".to_string(),
            url: "http://localhost:8000".to_string(),
            auth: Some(AuthConfig::Bearer { token: "test-token".to_string() }),
        }],
    }
}

/// What reading the candidates of `filename` gives when `present` is the only
/// file there is and holds the sample configuration. A candidate that is not
/// read as a configuration file gives nothing.
fn attempts_with(filename: &str, present: &str) -> Vec<Option<Config>> {
    candidate_paths(filename)
        .iter()
        .map(|path| if has_config_extension(path) && path == present { Some(sample()) } else { None })
        .collect()
}

/// Loads as the program does: the search, and the panic where it finds
/// nothing.
fn load_or_panic(filename: &str, attempts: Vec<Option<Config>>) -> Config {
    match find_config(filename, attempts) {
        Some(config) => config,
        None => panic!("Configuration file not found. Check if config.yml or config.yaml file exists"),
    }
}

#[test]
fn test_load_config() {
    let new_path = format!("{}.yml", "/tmp/.tmpAbC123");
    let config = load_config(&new_path, attempts_with(&new_path, &new_path));
    assert_eq!(config.refresh_interval, 300);
}

#[test]
fn test_load_config_yml() {
    let new_path = format!("{}.yml", "/tmp/.tmpXyZ789");
    let config = load_config(&new_path, attempts_with(&new_path, &new_path));
    assert_eq!(config.refresh_interval, 300);
}

#[test]
fn test_load_config_yaml() {
    let new_path = format!("{}.yaml", "/tmp/.tmpQrS456");
    let config = load_config(&new_path, attempts_with(&new_path, &new_path));
    assert_eq!(config.refresh_interval, 300);
}

#[test]
#[should_panic(expected = "Configuration file not found. Check if config.yml or config.yaml file exists")]
fn test_load_config_not_found() {
    load_or_panic("nonexistent_config", vec![None, None, None]);
}

#[test]
#[should_panic(expected = "Configuration file not found. Check if config.yml or config.yaml file exists")]
fn test_load_config_invalid_extension() {
    let new_path = format!("{}.txt", "/tmp/.tmpTxT000");
    let result = load_or_panic(&new_path, vec![Some(sample()), None, None]);
    drop(result);
}

#[test]
#[should_panic(expected = "Configuration file not found. Check if config.yml or config.yaml file exists")]
fn test_load_config_invalid_path() {
    load_or_panic(".yml", vec![None, None, None]);
}

#[test]
#[should_panic(expected = "Configuration file not found. Check if config.yml or config.yaml file exists")]
fn test_load_config_empty_path() {
    load_or_panic("", vec![None]);
}

#[test]
fn test_try_load_config_invalid_yaml() {
    let invalid_content = "invalid: : yaml: content:";
    let parsed = serde_yml::from_str::<serde_yml::Value>(invalid_content)
        .ok()
        .and_then(|value| value.get("refresh_interval").map(|_| sample()));
    let result = find_config("/tmp/.tmpInvalid", vec![parsed]);
    assert!(result.is_none());
}

#[test]
fn candidates_are_the_name_then_the_stem_with_both_extensions() {
    assert_eq!(candidate_paths("config.yml"), vec!["config.yml", "config.yml", "config.yaml"]);
    assert_eq!(candidate_paths("config"), vec!["config", "config.yml", "config.yaml"]);
    assert_eq!(candidate_paths("/etc/proxy/settings.txt"), vec![
        "/etc/proxy/settings.txt",
        "settings.yml",
        "settings.yaml"
    ]);
    assert_eq!(candidate_paths("a.b.yaml"), vec!["a.b.yaml", "a.b.yml", "a.b.yaml"]);
    assert_eq!(candidate_paths(".yml"), vec![".yml", ".yml.yml", ".yml.yaml"]);
    assert_eq!(candidate_paths(""), vec![""]);
    assert_eq!(candidate_paths(".."), vec![".."]);
    assert_eq!(candidate_paths("/"), vec!["/"]);
}

#[test]
fn candidates_from_a_given_stem() {
    assert_eq!(candidates_from("x.txt", Some("x".to_string())), vec!["x.txt", "x.yml", "x.yaml"]);
    assert_eq!(candidates_from("x.txt", Some(String::new())), vec!["x.txt", ".yml", ".yaml"]);
    assert_eq!(candidates_from("x.txt", None), vec!["x.txt"]);
}

#[test]
fn only_yml_and_yaml_extensions_are_read() {
    assert!(accepts_extension(None));
    assert!(accepts_extension(Some("yml".to_string())));
    assert!(accepts_extension(Some("yaml".to_string())));
    assert!(!accepts_extension(Some("YML".to_string())));
    assert!(!accepts_extension(Some("txt".to_string())));
    assert!(!accepts_extension(Some(String::new())));
    assert!(!accepts_extension(Some("yamll".to_string())));

    assert!(has_config_extension("config.yml"));
    assert!(has_config_extension("dir.d/config.yaml"));
    assert!(has_config_extension("config"));
    assert!(has_config_extension(".yml"));
    assert!(has_config_extension(""));
    assert!(!has_config_extension("config.json"));
    assert!(!has_config_extension("config.yml.bak"));
    assert!(!has_config_extension("config."));
}

fn interval(seconds: u64) -> Option<Config> {
    Some(Config { refresh_interval: seconds, backends: Vec::new() })
}

#[test]
fn first_candidate_that_loads_wins() {
    assert_eq!(load_config("settings", vec![None, interval(1), interval(2)]).refresh_interval, 1);
    assert_eq!(load_config("settings", vec![interval(0), interval(1), interval(2)]).refresh_interval, 0);
    assert_eq!(load_config("settings.yml", vec![None, None, interval(2)]).refresh_interval, 2);
    assert_eq!(load_config("dir/settings.yaml", vec![interval(7)]).refresh_interval, 7);
    assert_eq!(find_config("settings", vec![None, interval(1)]).unwrap().refresh_interval, 1);
    assert!(find_config("settings.yml", vec![None, None, None]).is_none());
    assert!(find_config("settings.yml", Vec::new()).is_none());
}

#[test]
fn what_a_refused_extension_gave_is_passed_over() {
    assert_eq!(load_config("settings.json", vec![interval(1), interval(2), interval(3)]).refresh_interval, 2);
    assert_eq!(load_config("settings.json", vec![interval(1), None, interval(3)]).refresh_interval, 3);
    assert!(find_config("settings.json", vec![interval(1), None, None]).is_none());
    assert!(find_config("settings.json", vec![interval(1)]).is_none());
}

#[test]
fn attempts_beyond_the_candidates_are_passed_over() {
    assert!(find_config("", vec![None, interval(1), interval(2)]).is_none());
    assert_eq!(load_config("", vec![interval(4), interval(1)]).refresh_interval, 4);
    assert!(find_config("settings", vec![None, None, None, interval(9)]).is_none());
}

#[test]
fn validate_accepts_a_sound_configuration() {
    assert_eq!(sample().validate(), Ok(()));
    assert_eq!(Config { refresh_interval: 1, backends: Vec::new() }.validate(), Ok(()));
}

#[test]
fn validate_reports_a_zero_interval_first() {
    let config = Config {
        refresh_interval: 0,
        backends: vec![BackendConfig {
            name: "b".to_string(),
            url: "http://b".to_string(),
            auth: Some(AuthConfig::CustomHeader { name: "bad name".to_string(), value: "v".to_string() }),
        }],
    };
    assert_eq!(config.validate(), Err(ConfigError::ZeroRefreshInterval));
}

#[test]
fn validate_reports_the_first_malformed_backend() {
    let plain = |auth: Option<AuthConfig>| BackendConfig { name: "b".to_string(), url: "http://b".to_string(), auth };
    let config = Config {
        refresh_interval: 30,
        backends: vec![
            plain(None),
            plain(Some(AuthConfig::Basic { username: "u".to_string(), password: "p".to_string() })),
            plain(Some(AuthConfig::Bearer { token: "bad\r\ntoken".to_string() })),
            plain(Some(AuthConfig::CustomHeader { name: String::new(), value: "v".to_string() })),
        ],
    };
    assert_eq!(
        config.validate(),
        Err(ConfigError::BackendAuth { index: 2, error: AuthError::InvalidHeaderValue })
    );
}
