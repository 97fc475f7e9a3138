//! The configuration file and its aliases.
use s3_get::config::{
    check_ca_bundle_size, check_config_size, check_permissions, config_path, config_path_in,
    resolve_path_style, McAlias, McConfig,
};
use s3_get::error::GetError;
use s3_get::path::FilePath;
use s3_get::system::System;
use secrecy::{ExposeSecret, SecretString};

fn alias(url: &str, path: Option<&str>) -> McAlias<SecretString> {
    McAlias {
        url: url.to_string(),
        access_key: SecretString::from("access"),
        secret_key: SecretString::from("hidden"),
        api: None,
        path: path.map(str::to_string),
    }
}

#[test]
fn a_given_configuration_path_is_used() {
    let given = FilePath::from_text("/etc/mc.json");
    let path = config_path(Some(&given), System::Unix).ok().unwrap();
    assert_eq!(path.as_bytes(), b"/etc/mc.json");
    let path = config_path_in(Some(&given), None, System::Unix).ok().unwrap();
    assert_eq!(path.as_bytes(), b"/etc/mc.json");
}

#[test]
fn the_usual_configuration_is_below_the_home_directory() {
    for home in ["/home/ann", "/home/ann/"] {
        let home = FilePath::from_text(home);
        let path = config_path_in(None, Some(home), System::Unix).ok().unwrap();
        assert_eq!(path.show(System::Unix), "/home/ann/.mc/config.json");
    }
    let odd = FilePath::from_bytes(vec![b'/', 0xff]);
    let path = config_path_in(None, Some(odd), System::Unix).ok().unwrap();
    assert_eq!(path.as_bytes(), b"/\xff/.mc/config.json");
    let home = FilePath::from_text("C:\\Users\\ann");
    let path = config_path_in(None, Some(home), System::Windows).ok().unwrap();
    assert_eq!(path.show(System::Unix), "C:\\Users\\ann\\.mc\\config.json");
}

#[test]
fn the_home_directory_of_this_user_is_asked_for() {
    let home = dirs::home_dir();
    let system = if std::path::MAIN_SEPARATOR == '\\' { System::Windows } else { System::Unix };
    match (config_path(None, system), home) {
        (Ok(path), Some(home)) => {
            let expected = home.join(".mc").join("config.json");
            assert_eq!(path.as_bytes(), expected.as_os_str().as_encoded_bytes());
        }
        (Err(error), None) => assert!(matches!(error, GetError::NoHomeDirectory)),
        _ => panic!("the two do not agree"),
    }
}

#[test]
fn without_a_home_directory_there_is_no_configuration() {
    let r = config_path_in(None, None, System::Unix);
    assert!(matches!(r, Err(GetError::NoHomeDirectory)));
    assert_eq!(r.err().unwrap().message(System::Unix), "cannot determine home directory");
}

#[test]
fn a_private_configuration_is_accepted() {
    let path = FilePath::from_text("config.json");
    for mode in [0o600, 0o400, 0o700, 0o100600, 0o104600] {
        assert!(check_permissions(&path, Some(mode)).is_ok());
    }
}

#[test]
fn a_system_without_modes_accepts_any_configuration() {
    assert!(check_permissions(&FilePath::from_text("config.json"), None).is_ok());
}

#[test]
fn an_open_configuration_is_refused() {
    let path = FilePath::from_text("/home/ann/.mc/config.json");
    for mode in [0o601, 0o602, 0o604, 0o610, 0o620, 0o640, 0o777] {
        match check_permissions(&path, Some(0o100000 | mode)) {
            Err(GetError::ConfigAccessible { path, mode: told }) => {
                assert_eq!(path.as_bytes(), b"/home/ann/.mc/config.json");
                assert_eq!(told, mode);
            }
            _ => panic!("{:o} was accepted", mode),
        }
    }
    assert_eq!(
        check_permissions(&path, Some(0o100644)).err().unwrap().message(System::Unix),
        "/home/ann/.mc/config.json is accessible by group/others (mode 644). \
         Expected 0600. Fix with: chmod 600 /home/ann/.mc/config.json"
    );
}

#[test]
fn the_configuration_may_have_one_mebibyte() {
    let path = FilePath::from_text("c.json");
    assert!(check_config_size(&path, 1_048_576).is_ok());
    assert_eq!(
        check_config_size(&path, 1_048_577).err().unwrap().message(System::Unix),
        "config file c.json exceeds maximum allowed size (1048576 bytes)"
    );
}

#[test]
fn a_ca_bundle_may_have_ten_mebibytes() {
    let path = FilePath::from_text("ca.pem");
    assert!(check_ca_bundle_size(&path, 10_485_760).is_ok());
    assert_eq!(
        check_ca_bundle_size(&path, 10_485_761).err().unwrap().message(System::Unix),
        "CA bundle ca.pem exceeds maximum allowed size (10485760 bytes)"
    );
}

#[test]
fn the_alias_says_whether_the_path_names_the_bucket() {
    let amazon = "https://s3.amazonaws.com";
    let other = "https://minio.example.com";
    assert!(resolve_path_style(&alias(amazon, Some("on"))));
    assert!(!resolve_path_style(&alias(other, Some("off"))));
}

#[test]
fn otherwise_the_address_decides_the_path_style() {
    for setting in [None, Some("auto"), Some("dns"), Some("ON"), Some("")] {
        assert!(!resolve_path_style(&alias("https://s3.amazonaws.com", setting)));
        assert!(!resolve_path_style(&alias("amazonaws.com", setting)));
        assert!(resolve_path_style(&alias("https://minio.example.com", setting)));
        assert!(resolve_path_style(&alias("amazonaws.co", setting)));
        assert!(resolve_path_style(&alias("", setting)));
    }
}

#[test]
fn an_alias_is_found_by_its_name() {
    let config = McConfig::new("10".to_string())
        .with("one".to_string(), alias("https://one", None))
        .with("two".to_string(), alias("https://two", None));
    assert_eq!(config.version(), "10");
    assert_eq!(config.get("one").unwrap().url, "https://one");
    assert_eq!(config.get("two").unwrap().url, "https://two");
    assert!(config.get("three").is_none());
    assert!(config.get("on").is_none());
    let taken = config.take("two").ok().unwrap();
    assert_eq!(taken.url, "https://two");
    assert_eq!(taken.secret_key.expose_secret(), "hidden");
}

#[test]
fn a_name_stands_for_what_it_was_last_given() {
    let config = McConfig::new("10".to_string())
        .with("one".to_string(), alias("https://old", None))
        .with("two".to_string(), alias("https://two", None))
        .with("one".to_string(), alias("https://new", None));
    assert_eq!(config.get("one").unwrap().url, "https://new");
    assert_eq!(config.get("two").unwrap().url, "https://two");
    assert_eq!(config.take("x").err().unwrap(), vec!["one".to_string(), "two".to_string()]);
}
