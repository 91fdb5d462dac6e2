//! Credentials from a profile of the shared credentials and config files.
use vstd::prelude::*;
use crate::config::{lemma_parse_no_lines, lemma_parse_shadows, lines_view, parse_lines, shadow, Config, Grammar};
use crate::store::Properties;

verus! {

/// A credential set as plain values.
pub struct CredentialsView {
    pub access_key: Seq<char>,
    pub secret_key: Seq<char>,
    pub token: Option<Seq<char>>,
    pub expires_at: Option<i64>,
}

/// Access key, secret key, optional session token and optional expiry
/// (seconds since the Unix epoch).
#[derive(Clone, Debug, PartialEq, Eq)]
pub struct AwsCredentials {
    key: String,
    secret: String,
    token: Option<String>,
    expires_at: Option<i64>,
}

pub open spec fn opt_view(o: Option<String>) -> Option<Seq<char>> {
    match o {
        Some(s) => Some(s@),
        None => None,
    }
}

impl View for AwsCredentials {
    type V = CredentialsView;

    closed spec fn view(&self) -> CredentialsView {
        CredentialsView {
            access_key: self.key@,
            secret_key: self.secret@,
            token: opt_view(self.token),
            expires_at: self.expires_at,
        }
    }
}

impl AwsCredentials {
    pub fn new(key: String, secret: String, token: Option<String>, expires_at: Option<i64>) -> (r:
        AwsCredentials)
        ensures
            r@ == (CredentialsView {
                access_key: key@,
                secret_key: secret@,
                token: opt_view(token),
                expires_at,
            }),
    {
        AwsCredentials { key, secret, token, expires_at }
    }

    pub fn aws_access_key_id(&self) -> (r: &str)
        ensures
            r@ == self@.access_key,
    {
        self.key.as_str()
    }

    pub fn aws_secret_access_key(&self) -> (r: &str)
        ensures
            r@ == self@.secret_key,
    {
        self.secret.as_str()
    }

    pub fn token(&self) -> (r: &Option<String>)
        ensures
            opt_view(*r) == self@.token,
    {
        &self.token
    }

    pub fn expires_at(&self) -> (r: Option<i64>)
        ensures
            r == self@.expires_at,
    {
        self.expires_at
    }
}

/// Why no credentials could be had.
#[derive(Clone, Debug, PartialEq, Eq)]
pub enum CredentialsError {
    /// No home directory, so no default file location.
    HomeDirectoryUnavailable,
    /// The profile is in neither file.
    ProfileNotFound { profile: String },
    /// The profile has a secret key and no access key.
    MissingAccessKey { profile: String },
    /// The profile has an access key and no secret key.
    MissingSecretKey { profile: String },
    /// The profile has neither key.
    MissingBothKeys { profile: String },
    /// The only configured file could not be read.
    IoError { path: Option<String>, cause: String },
    /// Both configured files could not be read.
    AggregateFileReadFailure {
        credentials_path: Option<String>,
        credentials_cause: String,
        config_path: Option<String>,
        config_cause: String,
    },
}

/// A `CredentialsError` as plain values.
pub enum ErrorView {
    HomeDirectoryUnavailable,
    ProfileNotFound(Seq<char>),
    MissingAccessKey(Seq<char>),
    MissingSecretKey(Seq<char>),
    MissingBothKeys(Seq<char>),
    IoError(Option<Seq<char>>, Seq<char>),
    AggregateFileReadFailure(Option<Seq<char>>, Seq<char>, Option<Seq<char>>, Seq<char>),
}

impl View for CredentialsError {
    type V = ErrorView;

    open spec fn view(&self) -> ErrorView {
        match self {
            CredentialsError::HomeDirectoryUnavailable => ErrorView::HomeDirectoryUnavailable,
            CredentialsError::ProfileNotFound { profile } => ErrorView::ProfileNotFound(profile@),
            CredentialsError::MissingAccessKey { profile } => ErrorView::MissingAccessKey(profile@),
            CredentialsError::MissingSecretKey { profile } => ErrorView::MissingSecretKey(profile@),
            CredentialsError::MissingBothKeys { profile } => ErrorView::MissingBothKeys(profile@),
            CredentialsError::IoError { path, cause } => ErrorView::IoError(
                opt_view(*path),
                cause@,
            ),
            CredentialsError::AggregateFileReadFailure {
                credentials_path,
                credentials_cause,
                config_path,
                config_cause,
            } => ErrorView::AggregateFileReadFailure(
                opt_view(*credentials_path),
                credentials_cause@,
                opt_view(*config_path),
                config_cause@,
            ),
        }
    }
}

/// The property that holds the access key.
pub open spec fn access_key_property() -> Seq<char> {
    "aws_access_key_id"@
}

/// The property that holds the secret key.
pub open spec fn secret_key_property() -> Seq<char> {
    "aws_secret_access_key"@
}

/// The property that holds the session token.
pub open spec fn session_token_property() -> Seq<char> {
    "aws_security_token"@
}

/// The properties give `key` a value that is not empty.
pub open spec fn has_nonempty(props: Map<Seq<char>, Seq<char>>, key: Seq<char>) -> bool {
    props.contains_key(key) && props[key].len() > 0
}

/// The credentials that the properties of `profile` give, or which keys
/// are missing (an empty value counts as missing).
pub open spec fn credentials_of(props: Map<Seq<char>, Seq<char>>, profile: Seq<char>) -> Result<
    CredentialsView,
    ErrorView,
> {
    let has_key = has_nonempty(props, access_key_property());
    let has_secret = has_nonempty(props, secret_key_property());
    if has_key && has_secret {
        Ok(
            CredentialsView {
                access_key: props[access_key_property()],
                secret_key: props[secret_key_property()],
                token: if props.contains_key(session_token_property()) {
                    Some(props[session_token_property()])
                } else {
                    None
                },
                expires_at: None,
            },
        )
    } else if has_key {
        Err(ErrorView::MissingSecretKey(profile))
    } else if has_secret {
        Err(ErrorView::MissingAccessKey(profile))
    } else {
        Err(ErrorView::MissingBothKeys(profile))
    }
}

/// The credentials of `profile` in a store.
pub open spec fn resolve(store: Map<Seq<char>, Map<Seq<char>, Seq<char>>>, profile: Seq<char>) -> Result<
    CredentialsView,
    ErrorView,
> {
    if store.contains_key(profile) {
        credentials_of(store[profile], profile)
    } else {
        Err(ErrorView::ProfileNotFound(profile))
    }
}

/// The lines a file gave: none where it is not configured or could not be
/// read.
pub open spec fn file_lines(f: Option<Result<Vec<String>, String>>) -> Seq<Seq<char>> {
    match f {
        Some(Ok(lines)) => lines_view(lines@),
        _ => Seq::empty(),
    }
}

/// A configured file that could not be read.
pub open spec fn read_failed(f: Option<Result<Vec<String>, String>>) -> bool {
    f matches Some(Err(_))
}

/// The store after the credentials file and then the config file.
pub open spec fn merged_store(
    credentials: Option<Result<Vec<String>, String>>,
    config: Option<Result<Vec<String>, String>>,
) -> Map<Seq<char>, Map<Seq<char>, Seq<char>>> {
    parse_lines(
        Grammar::Config,
        parse_lines(Grammar::Credentials, Map::empty(), file_lines(credentials)),
        file_lines(config),
    )
}

pub open spec fn result_view(r: Result<AwsCredentials, CredentialsError>) -> Result<
    CredentialsView,
    ErrorView,
> {
    match r {
        Ok(c) => Ok(c@),
        Err(e) => Err(e@),
    }
}

/// The error that reading the files ends in: both configured files could
/// not be read, or the only configured one could not.
pub open spec fn files_error(
    provider: ProviderView,
    credentials: Option<Result<Vec<String>, String>>,
    config: Option<Result<Vec<String>, String>>,
) -> Option<ErrorView> {
    if read_failed(credentials) && read_failed(config) {
        Some(
            ErrorView::AggregateFileReadFailure(
                provider.credentials_file_path,
                credentials->0->Err_0@,
                provider.config_file_path,
                config->0->Err_0@,
            ),
        )
    } else if read_failed(credentials) && config is None {
        Some(ErrorView::IoError(provider.credentials_file_path, credentials->0->Err_0@))
    } else if read_failed(config) && credentials is None {
        Some(ErrorView::IoError(provider.config_file_path, config->0->Err_0@))
    } else {
        None
    }
}

/// What the provider resolves: the profile of the merged store, unless
/// reading the files failed (see `files_error`).
pub open spec fn resolve_files(
    provider: ProviderView,
    credentials: Option<Result<Vec<String>, String>>,
    config: Option<Result<Vec<String>, String>>,
) -> Result<CredentialsView, ErrorView> {
    match files_error(provider, credentials, config) {
        Some(e) => Err(e),
        None => resolve(merged_store(credentials, config), provider.profile),
    }
}

/// The value of an environment variable, where it is set and not empty.
pub open spec fn non_empty(v: Option<Seq<char>>) -> Option<Seq<char>> {
    match v {
        Some(s) => if s.len() > 0 {
            Some(s)
        } else {
            None
        },
        None => None,
    }
}

/// `name` under the directory `dir`, with one `/` between them; an
/// absolute `name` stands alone.
pub open spec fn join_path(dir: Seq<char>, name: Seq<char>) -> Seq<char> {
    if name.len() > 0 && name[0] == '/' {
        name
    } else if dir.len() == 0 || dir.last() == '/' {
        dir + name
    } else {
        dir + seq!['/'] + name
    }
}

/// `<home>/.aws/<name>`.
pub open spec fn hardcoded_location(home: Option<Seq<char>>, name: Seq<char>) -> Result<
    Seq<char>,
    ErrorView,
> {
    match home {
        Some(h) => Ok(join_path(join_path(h, ".aws"@), name)),
        None => Err(ErrorView::HomeDirectoryUnavailable),
    }
}

/// The path an environment variable names, else `<home>/.aws/<name>`.
pub open spec fn default_location(env: Option<Seq<char>>, home: Option<Seq<char>>, name: Seq<char>) -> Result<
    Seq<char>,
    ErrorView,
> {
    match non_empty(env) {
        Some(p) => Ok(p),
        None => hardcoded_location(home, name),
    }
}

/// The profile an environment variable names, else `default`.
pub open spec fn default_profile(env: Option<Seq<char>>) -> Seq<char> {
    match non_empty(env) {
        Some(p) => p,
        None => "default"@,
    }
}

pub open spec fn path_view(r: Result<String, CredentialsError>) -> Result<Seq<char>, ErrorView> {
    match r {
        Ok(p) => Ok(p@),
        Err(e) => Err(e@),
    }
}

/// A provider's settings as plain values.
pub struct ProviderView {
    pub config_file_path: Option<Seq<char>>,
    pub credentials_file_path: Option<Seq<char>>,
    pub profile: Seq<char>,
}

/// Resolves credentials from one profile of the credentials and config files.
#[derive(Clone, Debug)]
pub struct ProfileProvider {
    config_file_path: Option<String>,
    credentials_file_path: Option<String>,
    profile: String,
}

impl View for ProfileProvider {
    type V = ProviderView;

    closed spec fn view(&self) -> ProviderView {
        ProviderView {
            config_file_path: opt_view(self.config_file_path),
            credentials_file_path: opt_view(self.credentials_file_path),
            profile: self.profile@,
        }
    }
}

fn clone_opt(o: &Option<String>) -> (r: Option<String>)
    ensures
        opt_view(r) == opt_view(*o),
{
    match o {
        Some(s) => Some(s.clone()),
        None => None,
    }
}

fn opt_str(o: &Option<String>) -> (r: Option<&str>)
    ensures
        r is Some == o is Some,
        r is Some ==> r->0@ == o->0@,
{
    match o {
        Some(s) => Some(s.as_str()),
        None => None,
    }
}

fn non_empty_value(v: Option<&String>) -> (r: Option<&String>)
    ensures
        r is Some <==> (v is Some && v->0@.len() > 0),
        r is Some ==> r->0 == v->0,
{
    match v {
        Some(s) => if s.as_str().unicode_len() > 0 {
            Some(s)
        } else {
            None
        },
        None => None,
    }
}

/// `name` under the directory `dir`, with one `/` between them; an
/// absolute `name` stands alone.
pub fn join_path_str(dir: &str, name: &str) -> (r: String)
    ensures
        r@ == join_path(dir@, name@),
{
    if name.unicode_len() > 0 && name.get_char(0) == '/' {
        return name.to_owned();
    }
    let n = dir.unicode_len();
    let mut r = dir.to_owned();
    if !(n == 0 || dir.get_char(n - 1) == '/') {
        r.append("/");
        proof {
            reveal_strlit("/");
        }
    }
    r.append(name);
    r
}

impl ProfileProvider {
    /// The default provider: the profile and both paths from the values of
    /// their environment variables, else `default` and the files under
    /// `<home>/.aws`.
    pub fn new(
        profile_var: &Option<String>,
        credentials_var: &Option<String>,
        config_var: &Option<String>,
        home: &Option<String>,
    ) -> (r: Result<ProfileProvider, CredentialsError>)
        ensures
            ({
                let creds = default_location(opt_view(*credentials_var), opt_view(*home), "credentials"@);
                let conf = default_location(opt_view(*config_var), opt_view(*home), "config"@);
                match (creds, conf) {
                    (Ok(c), Ok(k)) => r matches Ok(p) && p@ == (ProviderView {
                        config_file_path: Some(k),
                        credentials_file_path: Some(c),
                        profile: default_profile(opt_view(*profile_var)),
                    }),
                    (Err(e), _) => r matches Err(x) && x@ == e,
                    (_, Err(e)) => r matches Err(x) && x@ == e,
                }
            }),
    {
        let credentials_location = match Self::default_credentials_location(credentials_var, home) {
            Ok(p) => p,
            Err(e) => return Err(e),
        };
        let config_location = match Self::default_config_location(config_var, home) {
            Ok(p) => p,
            Err(e) => return Err(e),
        };
        Ok(
            ProfileProvider {
                config_file_path: Some(config_location),
                credentials_file_path: Some(credentials_location),
                profile: Self::default_profile_name(profile_var),
            },
        )
    }

    /// A provider of one credentials file and one profile, without config file.
    pub fn with_configuration(credentials_path: String, profile: String) -> (r: ProfileProvider)
        ensures
            r@ == (ProviderView {
                config_file_path: None,
                credentials_file_path: Some(credentials_path@),
                profile: profile@,
            }),
    {
        ProfileProvider { config_file_path: None, credentials_file_path: Some(credentials_path), profile }
    }

    /// Sets the credentials file path, and returns the provider for chaining.
    pub fn set_credentials_file_path(&mut self, path: String) -> (r: &mut Self)
        ensures
            r@ == (ProviderView { credentials_file_path: Some(path@), ..old(self)@ }),
            *final(self) == *final(r),
    {
        self.credentials_file_path = Some(path);
        self
    }

    /// The credentials file path.
    pub fn credentials_file_path(&self) -> (r: Option<&str>)
        ensures
            r is Some == self@.credentials_file_path is Some,
            r is Some ==> r->0@ == self@.credentials_file_path->0,
    {
        opt_str(&self.credentials_file_path)
    }

    /// The config file path.
    pub fn config_file_path(&self) -> (r: Option<&str>)
        ensures
            r is Some == self@.config_file_path is Some,
            r is Some ==> r->0@ == self@.config_file_path->0,
    {
        opt_str(&self.config_file_path)
    }

    /// The profile name.
    pub fn profile(&self) -> (r: &str)
        ensures
            r@ == self@.profile,
    {
        self.profile.as_str()
    }

    /// Sets the credentials file path.
    pub fn set_file_path(&mut self, file_path: String)
        ensures
            final(self)@ == (ProviderView { credentials_file_path: Some(file_path@), ..old(self)@ }),
    {
        self.credentials_file_path = Some(file_path);
    }

    /// Sets the profile name.
    pub fn set_profile(&mut self, profile: String)
        ensures
            final(self)@ == (ProviderView { profile: profile@, ..old(self)@ }),
    {
        self.profile = profile;
    }

    /// The config file path: the environment variable's value, else
    /// `<home>/.aws/config`.
    pub fn default_config_location(config_var: &Option<String>, home: &Option<String>) -> (r: Result<
        String,
        CredentialsError,
    >)
        ensures
            path_view(r) == default_location(opt_view(*config_var), opt_view(*home), "config"@),
    {
        Self::default_location_of(config_var, home, "config")
    }

    /// The credentials file path: the environment variable's value, else
    /// `<home>/.aws/credentials`.
    pub fn default_credentials_location(credentials_var: &Option<String>, home: &Option<String>) -> (r:
        Result<String, CredentialsError>)
        ensures
            path_view(r) == default_location(
                opt_view(*credentials_var),
                opt_view(*home),
                "credentials"@,
            ),
    {
        Self::default_location_of(credentials_var, home, "credentials")
    }

    /// The path a set, non-empty environment variable gives, else the file
    /// `name` under `<home>/.aws`.
    pub fn default_location_of(env: &Option<String>, home: &Option<String>, name: &str) -> (r: Result<
        String,
        CredentialsError,
    >)
        ensures
            path_view(r) == default_location(opt_view(*env), opt_view(*home), name@),
    {
        match env {
            Some(path) => {
                if path.as_str().unicode_len() > 0 {
                    return Ok(path.clone());
                }
            },
            None => {},
        }
        Self::hardcoded_location_of(home, name)
    }

    /// The file `name` under `<home>/.aws`.
    pub fn hardcoded_location_of(home: &Option<String>, name: &str) -> (r: Result<String, CredentialsError>)
        ensures
            path_view(r) == hardcoded_location(opt_view(*home), name@),
    {
        match home {
            Some(home_path) => {
                let dir = join_path_str(home_path.as_str(), ".aws");
                Ok(join_path_str(dir.as_str(), name))
            },
            None => Err(CredentialsError::HomeDirectoryUnavailable),
        }
    }

    /// The profile a set, non-empty environment variable names, else `default`.
    pub fn default_profile_name(profile_var: &Option<String>) -> (r: String)
        ensures
            r@ == default_profile(opt_view(*profile_var)),
    {
        match profile_var {
            Some(p) => {
                if p.as_str().unicode_len() > 0 {
                    return p.clone();
                }
            },
            None => {},
        }
        "default".to_owned()
    }

    /// Parses the credentials file, then the config file, into one store.
    /// Each is `None` where its path is not configured, or what reading it
    /// gave: its lines, or why it could not be read. A file that could not
    /// be read counts as empty where the other file was read; it is an
    /// error where the other is not configured or could not be read either.
    pub fn parse_config_files(
        &self,
        credentials: Option<Result<Vec<String>, String>>,
        config: Option<Result<Vec<String>, String>>,
    ) -> (r: Result<Config, CredentialsError>)
        ensures
            files_error(self@, credentials, config) matches Some(err) ==> (r matches Err(e) && e@
                == err),
            files_error(self@, credentials, config) is None ==> (r matches Ok(c) && c.wf() && c@
                == merged_store(credentials, config)),
    {
        let ghost c0 = credentials;
        let ghost k0 = config;
        let mut store = Config::new();
        let mut credentials_cause: Option<String> = None;
        let mut config_cause: Option<String> = None;
        let credentials_configured = credentials.is_some();
        let config_configured = config.is_some();
        match credentials {
            Some(Ok(lines)) => store.parse_credentials(&lines),
            Some(Err(e)) => credentials_cause = Some(e),
            None => {},
        }
        assert(store@ == parse_lines(Grammar::Credentials, Map::empty(), file_lines(c0)));
        let ghost s1 = store@;
        match config {
            Some(Ok(lines)) => store.parse_config(&lines),
            Some(Err(e)) => config_cause = Some(e),
            None => {},
        }
        assert(store@ == parse_lines(Grammar::Config, s1, file_lines(k0)));
        match (credentials_cause, config_cause) {
            (Some(a), Some(b)) => Err(
                CredentialsError::AggregateFileReadFailure {
                    credentials_path: clone_opt(&self.credentials_file_path),
                    credentials_cause: a,
                    config_path: clone_opt(&self.config_file_path),
                    config_cause: b,
                },
            ),
            (Some(a), None) => {
                if config_configured {
                    Ok(store)
                } else {
                    Err(CredentialsError::IoError { path: clone_opt(&self.credentials_file_path), cause: a })
                }
            },
            (None, Some(b)) => {
                if credentials_configured {
                    Ok(store)
                } else {
                    Err(CredentialsError::IoError { path: clone_opt(&self.config_file_path), cause: b })
                }
            },
            (None, None) => Ok(store),
        }
    }

    /// The credentials that a profile's properties give: both keys are
    /// needed; the session token is optional.
    pub fn credentials_from_config(&self, properties: Properties) -> (r: Result<
        AwsCredentials,
        CredentialsError,
    >)
        requires
            properties.wf(),
        ensures
            result_view(r) == credentials_of(properties@, self@.profile),
            r matches Ok(c) ==> c@.access_key.len() > 0 && c@.secret_key.len() > 0,
    {
        let key = non_empty_value(properties.get("aws_access_key_id"));
        let secret = non_empty_value(properties.get("aws_secret_access_key"));
        let token = properties.get("aws_security_token");
        match (key, secret) {
            (Some(k), Some(s)) => {
                let token = match token {
                    Some(t) => Some(t.clone()),
                    None => None,
                };
                Ok(AwsCredentials::new(k.clone(), s.clone(), token, None))
            },
            (Some(_), None) => Err(CredentialsError::MissingSecretKey { profile: self.profile.clone() }),
            (None, Some(_)) => Err(CredentialsError::MissingAccessKey { profile: self.profile.clone() }),
            (None, None) => Err(CredentialsError::MissingBothKeys { profile: self.profile.clone() }),
        }
    }

    /// Resolves the credentials of the provider's profile from what reading
    /// the two files gave (see `parse_config_files`).
    pub fn credentials_from_files(
        &self,
        credentials: Option<Result<Vec<String>, String>>,
        config: Option<Result<Vec<String>, String>>,
    ) -> (r: Result<AwsCredentials, CredentialsError>)
        ensures
            result_view(r) == resolve_files(self@, credentials, config),
            r matches Ok(c) ==> c@.access_key.len() > 0 && c@.secret_key.len() > 0,
    {
        match self.parse_config_files(credentials, config) {
            Err(e) => Err(e),
            Ok(mut store) => match store.remove_profile(self.profile.as_str()) {
                Some(properties) => self.credentials_from_config(properties),
                None => Err(CredentialsError::ProfileNotFound { profile: self.profile.clone() }),
            },
        }
    }
}

/// The credentials file takes precedence: the merged store holds the
/// profiles of both files, each with the keys it has in either file, and
/// where both files give a key a value, the credentials file's value.
pub proof fn lemma_credentials_file_takes_precedence(
    credentials: Option<Result<Vec<String>, String>>,
    config: Option<Result<Vec<String>, String>>,
)
    ensures
        merged_store(credentials, config) == shadow(
            parse_lines(Grammar::Credentials, Map::empty(), file_lines(credentials)),
            parse_lines(Grammar::Config, Map::empty(), file_lines(config)),
        ),
{
    lemma_parse_shadows(
        Grammar::Config,
        parse_lines(Grammar::Credentials, Map::empty(), file_lines(credentials)),
        file_lines(config),
    );
}

/// A credentials file that cannot be read counts as empty when the config
/// file can be read: the config file alone decides.
pub proof fn lemma_unreadable_credentials_file_ignored(
    provider: ProviderView,
    cause: String,
    config: Vec<String>,
)
    ensures
        resolve_files(provider, Some(Err(cause)), Some(Ok(config))) == resolve(
            parse_lines(Grammar::Config, Map::empty(), lines_view(config@)),
            provider.profile,
        ),
{
    lemma_parse_no_lines(Grammar::Credentials, Map::empty());
}

/// A config file that cannot be read counts as empty when the credentials
/// file can be read: the credentials file alone decides.
pub proof fn lemma_unreadable_config_file_ignored(
    provider: ProviderView,
    credentials: Vec<String>,
    cause: String,
)
    ensures
        resolve_files(provider, Some(Ok(credentials)), Some(Err(cause))) == resolve(
            parse_lines(Grammar::Credentials, Map::empty(), lines_view(credentials@)),
            provider.profile,
        ),
{
    lemma_parse_no_lines(
        Grammar::Config,
        parse_lines(Grammar::Credentials, Map::empty(), lines_view(credentials@)),
    );
}

} // verus!
