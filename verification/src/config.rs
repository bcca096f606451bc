//! The settings of a run, resolved from the values found in the environment.

use vstd::prelude::*;
use vstd::string::*;

verus! {

/// The environment variable that names the bucket.
pub const BUCKET_VARIABLE: &'static str = "AWS_BUCKET";

/// The environment variable that holds the key prefix.
pub const PREFIX_VARIABLE: &'static str = "PREFIX";

/// The environment variable that holds the access key id.
pub const ACCESS_KEY_VARIABLE: &'static str = "AWS_ACCESS_KEY_ID";

/// The environment variable that holds the secret key.
pub const SECRET_KEY_VARIABLE: &'static str = "AWS_SECRET_ACCESS_KEY";

/// The environment variable that names the region.
pub const REGION_VARIABLE: &'static str = "AWS_DEFAULT_REGION";

/// The prefix of a run that sets none.
pub const DEFAULT_PREFIX: &'static str = "test";

/// The region of a run that sets none.
pub const DEFAULT_REGION: &'static str = "eu-west-1";

/// The header that makes every object written readable by all.
pub const ACL_HEADER: &'static str = "x-amz-acl";

/// The value of `ACL_HEADER`.
pub const ACL_VALUE: &'static str = "public-read";

/// Everything a run needs to know from outside.
#[derive(Debug, Clone, PartialEq, Eq)]
pub struct Settings {
    pub bucket: String,
    pub prefix: String,
    pub access_key: String,
    pub secret_key: String,
    pub region: String,
}

/// `Settings` as characters.
pub struct SettingsView {
    pub bucket: Seq<char>,
    pub prefix: Seq<char>,
    pub access_key: Seq<char>,
    pub secret_key: Seq<char>,
    pub region: Seq<char>,
}

impl View for Settings {
    type V = SettingsView;

    open spec fn view(&self) -> SettingsView {
        SettingsView {
            bucket: self.bucket@,
            prefix: self.prefix@,
            access_key: self.access_key@,
            secret_key: self.secret_key@,
            region: self.region@,
        }
    }
}

/// A required setting that is unset or empty.
#[derive(Clone, Copy, Debug, PartialEq, Eq, Structural)]
pub enum ConfigurationError {
    /// No bucket is named.
    MissingBucket,
    /// No access key id is given.
    MissingAccessKey,
    /// No secret key is given.
    MissingSecretKey,
}

/// The characters of a variable's value; none for one that is unset.
pub open spec fn value_of(variable: Option<String>) -> Seq<char> {
    match variable {
        Some(value) => value@,
        None => Seq::empty(),
    }
}

/// The characters of a variable's value, or `fallback` for one that is
/// unset. A variable set to the empty string keeps it.
pub open spec fn value_or(variable: Option<String>, fallback: Seq<char>) -> Seq<char> {
    match variable {
        Some(value) => value@,
        None => fallback,
    }
}

/// The first required setting that is missing: bucket, access key and secret
/// key are looked at in this order.
pub open spec fn first_missing(
    bucket: Seq<char>,
    access_key: Seq<char>,
    secret_key: Seq<char>,
) -> Option<ConfigurationError> {
    if bucket.len() == 0 {
        Some(ConfigurationError::MissingBucket)
    } else if access_key.len() == 0 {
        Some(ConfigurationError::MissingAccessKey)
    } else if secret_key.len() == 0 {
        Some(ConfigurationError::MissingSecretKey)
    } else {
        None
    }
}

/// The first required variable that is unset or empty.
pub open spec fn missing_in(
    bucket: Option<String>,
    access_key: Option<String>,
    secret_key: Option<String>,
) -> Option<ConfigurationError> {
    first_missing(value_of(bucket), value_of(access_key), value_of(secret_key))
}

/// The settings that the five variables give: the values as they are, with
/// the defaults for an unset prefix or region.
pub open spec fn settings_of(
    bucket: Option<String>,
    prefix: Option<String>,
    access_key: Option<String>,
    secret_key: Option<String>,
    region: Option<String>,
) -> SettingsView {
    SettingsView {
        bucket: value_of(bucket),
        prefix: value_or(prefix, DEFAULT_PREFIX@),
        access_key: value_of(access_key),
        secret_key: value_of(secret_key),
        region: value_or(region, DEFAULT_REGION@),
    }
}

impl ConfigurationError {
    /// The name of the environment variable that is missing.
    pub open spec fn variable_of(self) -> Seq<char> {
        match self {
            ConfigurationError::MissingBucket => BUCKET_VARIABLE@,
            ConfigurationError::MissingAccessKey => ACCESS_KEY_VARIABLE@,
            ConfigurationError::MissingSecretKey => SECRET_KEY_VARIABLE@,
        }
    }

    /// The environment variable to set.
    pub fn variable(&self) -> (name: &'static str)
        ensures
            name@ == self.variable_of(),
    {
        match self {
            ConfigurationError::MissingBucket => BUCKET_VARIABLE,
            ConfigurationError::MissingAccessKey => ACCESS_KEY_VARIABLE,
            ConfigurationError::MissingSecretKey => SECRET_KEY_VARIABLE,
        }
    }

    /// A line for the log that names the variable.
    pub fn message(&self) -> (line: String)
        ensures
            line@ == "missing required setting: "@ + self.variable_of(),
    {
        let mut line = String::from_str("missing required setting: ");
        line.append(self.variable());
        line
    }
}

/// The value of a variable, empty for one that is unset.
fn or_empty(variable: Option<String>) -> (value: String)
    ensures
        value@ == value_of(variable),
{
    match variable {
        Some(value) => value,
        None => String::new(),
    }
}

/// The value of a variable, `fallback` for one that is unset.
fn or_default(variable: Option<String>, fallback: &str) -> (value: String)
    ensures
        value@ == value_or(variable, fallback@),
{
    match variable {
        Some(value) => value,
        None => String::from_str(fallback),
    }
}

/// Resolves the settings of a run from the values of the five variables,
/// each `None` where the variable is unset. Bucket, access key and secret key
/// are required and must not be empty; prefix and region fall back to their
/// defaults.
pub fn resolve(
    bucket: Option<String>,
    prefix: Option<String>,
    access_key: Option<String>,
    secret_key: Option<String>,
    region: Option<String>,
) -> (settings: Result<Settings, ConfigurationError>)
    ensures
        match settings {
            Ok(s) => missing_in(bucket, access_key, secret_key) is None && s@ == settings_of(
                bucket,
                prefix,
                access_key,
                secret_key,
                region,
            ),
            Err(e) => missing_in(bucket, access_key, secret_key) == Some(e),
        },
{
    let bucket = or_empty(bucket);
    let access_key = or_empty(access_key);
    let secret_key = or_empty(secret_key);
    if bucket.as_str().unicode_len() == 0 {
        return Err(ConfigurationError::MissingBucket);
    }
    if access_key.as_str().unicode_len() == 0 {
        return Err(ConfigurationError::MissingAccessKey);
    }
    if secret_key.as_str().unicode_len() == 0 {
        return Err(ConfigurationError::MissingSecretKey);
    }
    Ok(
        Settings {
            bucket,
            prefix: or_default(prefix, DEFAULT_PREFIX),
            access_key,
            secret_key,
            region: or_default(region, DEFAULT_REGION),
        },
    )
}

} // verus!
