use rusoto::config::Config;
use rusoto::provider::{AwsCredentials, CredentialsError, ProfileProvider};

fn lines(text: &str) -> Vec<String> {
    text.lines().map(|l| l.to_string()).collect()
}

fn read(text: &str) -> Option<Result<Vec<String>, String>> {
    Some(Ok(lines(text)))
}

fn unreadable(cause: &str) -> Option<Result<Vec<String>, String>> {
    Some(Err(cause.to_string()))
}

const MULTIPLE: &str = "[foo]\naws_access_key_id = foo_access_key\naws_secret_access_key = foo_secret_key\n\n[bar]\naws_access_key_id = bar_access_key\naws_secret_access_key = bar_secret_key\n";

fn provider(profile: &str) -> ProfileProvider {
    ProfileProvider::with_configuration("creds".to_string(), profile.to_string())
}

fn value(config: &mut Config, profile: &str, key: &str) -> Option<String> {
    config.remove_profile(profile).and_then(|p| p.get(key).cloned())
}

#[test]
fn profile_provider_profile_name() {
    let mut provider =
        ProfileProvider::new(&None, &None, &None, &Some("/home/user".to_string())).unwrap();
    assert_eq!("default", provider.profile());
    provider.set_profile("foo".to_string());
    assert_eq!("foo", provider.profile());
}

#[test]
fn profile_provider_happy_path() {
    let result = provider("foo").credentials_from_files(read(MULTIPLE), None);
    assert!(result.is_ok());
    let creds = result.ok().unwrap();
    assert_eq!(creds.aws_access_key_id(), "foo_access_key");
    assert_eq!(creds.aws_secret_access_key(), "foo_secret_key");
}

#[test]
fn profile_provider_bad_profile() {
    let result = provider("not_a_profile").credentials_from_files(read(MULTIPLE), None);
    assert!(result.is_err());
    assert_eq!(
        result.err(),
        Some(CredentialsError::ProfileNotFound { profile: "not_a_profile".to_string() })
    );
}

#[test]
fn round_trip_default_profile() {
    let text = "[default]\naws_access_key_id=foo\naws_secret_access_key=bar\n";
    let creds = provider("default").credentials_from_files(read(text), None).unwrap();
    assert_eq!(creds, AwsCredentials::new("foo".to_string(), "bar".to_string(), None, None));
    assert_eq!(creds.token(), &None);
    assert_eq!(creds.expires_at(), None);
}

#[test]
fn session_token_from_security_token_property() {
    let text = "[default]\naws_access_key_id=foo\naws_secret_access_key=bar\naws_security_token=tok\n";
    let creds = provider("default").credentials_from_files(read(text), None).unwrap();
    assert_eq!(creds.token(), &Some("tok".to_string()));
}

#[test]
fn credentials_file_takes_precedence() {
    let creds = "[p]\naws_access_key_id=A1\n";
    let config = "[profile p]\naws_access_key_id=A2\naws_secret_access_key=S2\n";
    let mut p = provider("p");
    p.set_file_path("creds".to_string());
    let result = p.credentials_from_files(read(creds), read(config)).unwrap();
    assert_eq!(result.aws_access_key_id(), "A1");
    assert_eq!(result.aws_secret_access_key(), "S2");
}

#[test]
fn first_value_in_a_file_wins() {
    let mut config = Config::new();
    config.parse_credentials(&lines("[p]\nk=first\nk=second\n[p]\nk=third\n"));
    assert_eq!(value(&mut config, "p", "k"), Some("first".to_string()));
}

#[test]
fn continuation_appends_without_separator() {
    let mut config = Config::new();
    config.parse_credentials(&lines("[p]\nkey=part1\n part2\n\tpart3 \nother=x\n"));
    let props = config.remove_profile("p").unwrap();
    assert_eq!(props.get("key"), Some(&"part1part2part3".to_string()));
    assert_eq!(props.get("other"), Some(&"x".to_string()));
}

#[test]
fn comment_lines_change_nothing() {
    let mut config = Config::new();
    config.parse_credentials(&lines("# c\n; c\n\n \t\n"));
    assert!(config.remove_profile("default").is_none());
    let mut config = Config::new();
    config.parse_credentials(&lines("[p]\nk=v\n# k=w\n  \n; x\n"));
    let props = config.remove_profile("p").unwrap();
    assert_eq!(props.get("k"), Some(&"v".to_string()));
}

#[test]
fn invalid_header_recovery() {
    let mut config = Config::new();
    config.parse_credentials(&lines("[p]\na=1\n[bad header!]\nb=2\n continued\n[q]\nc=3\n"));
    let p = config.remove_profile("p").unwrap();
    assert_eq!(p.get("a"), Some(&"1".to_string()));
    assert_eq!(p.get("b"), None);
    assert!(config.remove_profile("bad header!").is_none());
    let q = config.remove_profile("q").unwrap();
    assert_eq!(q.get("c"), Some(&"3".to_string()));
    assert_eq!(q.get("b"), None);
}

#[test]
fn lines_before_any_header_are_ignored() {
    let mut config = Config::new();
    config.parse_credentials(&lines("a=1\n[p]\nb=2\n"));
    let p = config.remove_profile("p").unwrap();
    assert_eq!(p.get("a"), None);
    assert_eq!(p.get("b"), Some(&"2".to_string()));
}

#[test]
fn config_file_grammar_in_parse() {
    let mut config = Config::new();
    config.parse_config(&lines("[foo]\na=1\n[profile bar]\nb=2\n[default]\nc=3\n"));
    assert!(config.remove_profile("foo").is_none());
    assert_eq!(value(&mut config, "bar", "b"), Some("2".to_string()));
    assert_eq!(value(&mut config, "default", "c"), Some("3".to_string()));
}

#[test]
fn profile_without_properties_is_not_found() {
    let result = provider("empty").credentials_from_files(read("[empty]\n"), None);
    assert_eq!(
        result.err(),
        Some(CredentialsError::ProfileNotFound { profile: "empty".to_string() })
    );
}

#[test]
fn missing_key_errors() {
    let only_key = "[p]\naws_access_key_id=a\n";
    let only_secret = "[p]\naws_secret_access_key=s\n";
    let neither = "[p]\nregion=x\n";
    assert_eq!(
        provider("p").credentials_from_files(read(only_key), None).err(),
        Some(CredentialsError::MissingSecretKey { profile: "p".to_string() })
    );
    assert_eq!(
        provider("p").credentials_from_files(read(only_secret), None).err(),
        Some(CredentialsError::MissingAccessKey { profile: "p".to_string() })
    );
    assert_eq!(
        provider("p").credentials_from_files(read(neither), None).err(),
        Some(CredentialsError::MissingBothKeys { profile: "p".to_string() })
    );
}

#[test]
fn both_files_unreadable() {
    let p = {
        let mut q = ProfileProvider::new(&None, &Some("/a".to_string()), &Some("/b".to_string()), &None)
            .unwrap();
        q.set_profile("default".to_string());
        q
    };
    assert_eq!(
        p.credentials_from_files(unreadable("e1"), unreadable("e2")).err(),
        Some(CredentialsError::AggregateFileReadFailure {
            credentials_path: Some("/a".to_string()),
            credentials_cause: "e1".to_string(),
            config_path: Some("/b".to_string()),
            config_cause: "e2".to_string(),
        })
    );
}

#[test]
fn one_file_unreadable() {
    let text = "[default]\naws_access_key_id=foo\naws_secret_access_key=bar\n";
    let config = "[default]\naws_access_key_id=foo\naws_secret_access_key=bar\n";
    let p = provider("default");
    let creds = p.credentials_from_files(unreadable("gone"), read(config)).unwrap();
    assert_eq!(creds.aws_access_key_id(), "foo");
    let creds = p.credentials_from_files(read(text), unreadable("gone")).unwrap();
    assert_eq!(creds.aws_secret_access_key(), "bar");
}

#[test]
fn profile_not_found_ghost() {
    let text = "[default]\naws_access_key_id=foo\naws_secret_access_key=bar\n";
    assert_eq!(
        provider("ghost").credentials_from_files(read(text), None).err(),
        Some(CredentialsError::ProfileNotFound { profile: "ghost".to_string() })
    );
}

#[test]
fn default_profile_name_from_env_var() {
    assert_eq!("bar", ProfileProvider::default_profile_name(&Some("bar".to_string())));
}

#[test]
fn default_profile_name_from_empty_env_var() {
    assert_eq!("default", ProfileProvider::default_profile_name(&Some(String::new())));
}

#[test]
fn default_profile_name() {
    assert_eq!("default", ProfileProvider::default_profile_name(&None));
}

#[test]
fn default_profile_location_from_env_var() {
    let home = Some("/home/u".to_string());
    assert_eq!(
        Ok("bar".to_string()),
        ProfileProvider::default_credentials_location(&Some("bar".to_string()), &home)
    );
}

#[test]
fn default_profile_location_from_empty_env_var() {
    let home = Some("/home/u".to_string());
    assert_eq!(
        ProfileProvider::hardcoded_location_of(&home, "credentials"),
        ProfileProvider::default_credentials_location(&Some(String::new()), &home)
    );
}

#[test]
fn default_profile_location() {
    let home = Some("/home/u".to_string());
    assert_eq!(
        ProfileProvider::hardcoded_location_of(&home, "credentials"),
        ProfileProvider::default_credentials_location(&None, &home)
    );
    assert_eq!(
        Ok("/home/u/.aws/credentials".to_string()),
        ProfileProvider::default_credentials_location(&None, &home)
    );
    assert_eq!(
        Ok("/home/u/.aws/config".to_string()),
        ProfileProvider::default_config_location(&None, &Some("/home/u/".to_string()))
    );
    assert_eq!(
        Err(CredentialsError::HomeDirectoryUnavailable),
        ProfileProvider::default_config_location(&None, &None)
    );
}

#[test]
fn provider_profile_from_environment() {
    let home = Some("/h".to_string());
    let p = ProfileProvider::new(&Some("bar".to_string()), &None, &None, &home).unwrap();
    assert_eq!(p.profile(), "bar");
    assert_eq!(p.credentials_file_path(), Some("/h/.aws/credentials"));
    assert_eq!(p.config_file_path(), Some("/h/.aws/config"));
    let p = ProfileProvider::new(&Some(String::new()), &None, &None, &home).unwrap();
    assert_eq!(p.profile(), "default");
    assert_eq!(
        ProfileProvider::new(&None, &None, &None, &None).err(),
        Some(CredentialsError::HomeDirectoryUnavailable)
    );
}

#[test]
fn profile_provider_profile_name_via_environment_variable() {
    let p = ProfileProvider::new(
        &Some("bar".to_string()),
        &Some("multiple".to_string()),
        &None,
        &None,
    );
    assert!(p.is_err());
    let p = ProfileProvider::new(
        &Some("bar".to_string()),
        &Some("multiple".to_string()),
        &Some("cfg".to_string()),
        &None,
    )
    .unwrap();
    assert_eq!(p.credentials_file_path(), Some("multiple"));
    let creds = p.credentials_from_files(read(MULTIPLE), None);
    assert_eq!(creds.unwrap().aws_access_key_id(), "bar_access_key");
}

#[test]
fn only_configured_file_unreadable_is_an_io_error() {
    let p = provider("default");
    assert_eq!(
        p.credentials_from_files(unreadable("gone"), None).err(),
        Some(CredentialsError::IoError { path: Some("creds".to_string()), cause: "gone".to_string() })
    );
    let mut q = ProfileProvider::new(&None, &Some("/a".to_string()), &Some("/b".to_string()), &None)
        .unwrap();
    q.set_profile("default".to_string());
    assert_eq!(
        q.credentials_from_files(None, unreadable("gone")).err(),
        Some(CredentialsError::IoError { path: Some("/b".to_string()), cause: "gone".to_string() })
    );
    assert_eq!(
        q.credentials_from_files(None, None).err(),
        Some(CredentialsError::ProfileNotFound { profile: "default".to_string() })
    );
}

#[test]
fn empty_key_values_count_as_missing() {
    let empty_key = "[p]\naws_access_key_id=\naws_secret_access_key=s\n";
    let empty_secret = "[p]\naws_access_key_id=a\naws_secret_access_key= #comment\n";
    let both_empty = "[p]\naws_access_key_id=\naws_secret_access_key=\n";
    assert_eq!(
        provider("p").credentials_from_files(read(empty_key), None).err(),
        Some(CredentialsError::MissingAccessKey { profile: "p".to_string() })
    );
    assert_eq!(
        provider("p").credentials_from_files(read(empty_secret), None).err(),
        Some(CredentialsError::MissingSecretKey { profile: "p".to_string() })
    );
    assert_eq!(
        provider("p").credentials_from_files(read(both_empty), None).err(),
        Some(CredentialsError::MissingBothKeys { profile: "p".to_string() })
    );
}

#[test]
fn merged_store_unites_keys_and_profiles() {
    let mut config = Config::new();
    config.parse_credentials(&lines("[p]\na=1\nb=2\n[only_creds]\nx=1\n"));
    config.parse_config(&lines("[profile p]\nb=20\nc=30\n[profile only_config]\ny=2\n"));
    let p = config.remove_profile("p").unwrap();
    assert_eq!(p.get("a"), Some(&"1".to_string()));
    assert_eq!(p.get("b"), Some(&"2".to_string()));
    assert_eq!(p.get("c"), Some(&"30".to_string()));
    assert_eq!(value(&mut config, "only_creds", "x"), Some("1".to_string()));
    assert_eq!(value(&mut config, "only_config", "y"), Some("2".to_string()));
}

#[test]
fn indented_comment_is_not_a_continuation() {
    let mut config = Config::new();
    config.parse_credentials(&lines("[p]\nk=v\n  # note\n\t; note\n"));
    assert_eq!(value(&mut config, "p", "k"), Some("v".to_string()));
}

#[test]
fn set_credentials_file_path_chains() {
    let mut p = provider("a");
    p.set_credentials_file_path("/x".to_string()).set_profile("b".to_string());
    assert_eq!(p.credentials_file_path(), Some("/x"));
    assert_eq!(p.profile(), "b");
}

#[test]
fn absolute_name_replaces_the_directory() {
    assert_eq!(
        ProfileProvider::hardcoded_location_of(&Some("/home/u".to_string()), "/etc/creds"),
        Ok("/etc/creds".to_string())
    );
    assert_eq!(
        ProfileProvider::hardcoded_location_of(&Some(String::new()), "config"),
        Ok(".aws/config".to_string())
    );
}
