use banker::config::{banker_dir_in, default_api_base_url, ApplicationConfig, BankConfig, Config, ConfigError};
use banker::local::resolve_filter_bank;

fn config(apps: Vec<(&str, &str)>, banks: Vec<(&str, &str, &str)>) -> Config {
    Config {
        db_path: None,
        application: apps
            .into_iter()
            .map(|(k, id)| (k.to_string(), ApplicationConfig { id: id.into(), key_file: "key.pem".into() }))
            .collect(),
        bank: banks
            .into_iter()
            .map(|(k, n, c)| (k.to_string(), BankConfig { name: n.into(), country: c.into() }))
            .collect(),
        api_base_url: "https://api.enablebanking.com".into(),
        redirect_url: None,
    }
}

#[test]
fn validate_needs_an_application() {
    let empty = config(vec![], vec![]);
    let err = empty.validate().unwrap_err();
    assert!(matches!(err, ConfigError::NoApplications));
    assert_eq!(
        err.message(),
        "no applications configured \u{2013} add at least one [application.<name>] section to your config"
    );
    assert!(config(vec![("a", "1")], vec![]).validate().is_ok());
}

#[test]
fn resolve_app_by_name_or_single() {
    let one = config(vec![("personal", "id-1")], vec![]);
    let (k, a) = one.resolve_app(None).ok().unwrap();
    assert_eq!((k.as_str(), a.id.as_str()), ("personal", "id-1"));
    let two = config(vec![("a", "1"), ("b", "2")], vec![]);
    let (k, a) = two.resolve_app(Some("b")).ok().unwrap();
    assert_eq!((k.as_str(), a.id.as_str()), ("b", "2"));
    let err = two.resolve_app(None).err().unwrap();
    assert_eq!(err.message(), "multiple applications configured \u{2013} use --app <name> to select one");
    let err = two.resolve_app(Some("c")).err().unwrap();
    assert_eq!(err.message(), "application \"c\" not found in config \u{2013} available: a, b");
}

#[test]
fn resolve_bank_cases() {
    let none = config(vec![("a", "1")], vec![]);
    assert_eq!(
        none.resolve_bank(None).err().unwrap().message(),
        "no banks configured \u{2013} add at least one [bank.<name>] section to your config"
    );
    let two = config(vec![("a", "1")], vec![("x", "X Bank", "DE"), ("y", "Y Bank", "FI")]);
    assert_eq!(
        two.resolve_bank(None).err().unwrap().message(),
        "multiple banks configured \u{2013} use --bank <name> to select one"
    );
    let (k, b) = two.resolve_bank(Some("y")).ok().unwrap();
    assert_eq!((k.as_str(), b.name.as_str(), b.country.as_str()), ("y", "Y Bank", "FI"));
}

#[test]
fn find_app_by_id_takes_the_first() {
    let c = config(vec![("a", "1"), ("b", "2"), ("c", "2")], vec![]);
    assert_eq!(c.find_app_by_id("2").unwrap().0, "b");
    assert!(c.find_app_by_id("3").is_none());
}

#[test]
fn filter_bank_resolution() {
    let c = config(vec![("a", "1")], vec![("x", "X Bank", "DE")]);
    assert_eq!(resolve_filter_bank(&c, None).ok().unwrap(), None);
    assert_eq!(resolve_filter_bank(&c, Some("x")).ok().unwrap(), Some(("X Bank".to_string(), "DE".to_string())));
    let err = resolve_filter_bank(&c, Some("z")).err().unwrap();
    assert_eq!(err.message(), "bank \"z\" not found in config \u{2013} available: x");
}

#[test]
fn database_path_defaults_under_data_dir() {
    let mut c = config(vec![("a", "1")], vec![]);
    assert_eq!(c.db_path_in(Some("/home/u/.local/share".into())), "/home/u/.local/share/banker/data.db");
    assert_eq!(c.db_path_in(None), "./banker/data.db");
    c.db_path = Some("/tmp/x.db".into());
    assert_eq!(c.db_path_in(None), "/tmp/x.db");
    assert_eq!(banker_dir_in(Some("/etc".into())), "/etc/banker");
}

#[test]
fn default_base_url() {
    assert_eq!(default_api_base_url(), "https://api.enablebanking.com");
}
