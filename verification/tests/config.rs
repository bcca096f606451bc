use upload_wheels::config::{
    resolve, ConfigurationError, Settings, ACCESS_KEY_VARIABLE, ACL_HEADER, ACL_VALUE,
    BUCKET_VARIABLE, DEFAULT_PREFIX, DEFAULT_REGION, PREFIX_VARIABLE, REGION_VARIABLE,
    SECRET_KEY_VARIABLE,
};

fn set(value: &str) -> Option<String> {
    Some(value.to_string())
}

#[test]
fn variables_and_defaults_have_their_names() {
    assert_eq!(BUCKET_VARIABLE, "AWS_BUCKET");
    assert_eq!(PREFIX_VARIABLE, "PREFIX");
    assert_eq!(ACCESS_KEY_VARIABLE, "AWS_ACCESS_KEY_ID");
    assert_eq!(SECRET_KEY_VARIABLE, "AWS_SECRET_ACCESS_KEY");
    assert_eq!(REGION_VARIABLE, "AWS_DEFAULT_REGION");
    assert_eq!(DEFAULT_PREFIX, "test");
    assert_eq!(DEFAULT_REGION, "eu-west-1");
    assert_eq!(ACL_HEADER, "x-amz-acl");
    assert_eq!(ACL_VALUE, "public-read");
}

#[test]
fn all_values_set_are_taken_as_they_are() {
    let settings = resolve(set("wheels"), set("pkgs"), set("id"), set("key"), set("us-east-1"));
    assert_eq!(
        settings,
        Ok(Settings {
            bucket: "wheels".to_string(),
            prefix: "pkgs".to_string(),
            access_key: "id".to_string(),
            secret_key: "key".to_string(),
            region: "us-east-1".to_string(),
        })
    );
}

#[test]
fn prefix_and_region_fall_back_to_defaults() {
    let settings = resolve(set("wheels"), None, set("id"), set("key"), None);
    assert_eq!(
        settings,
        Ok(Settings {
            bucket: "wheels".to_string(),
            prefix: "test".to_string(),
            access_key: "id".to_string(),
            secret_key: "key".to_string(),
            region: "eu-west-1".to_string(),
        })
    );
}

#[test]
fn empty_prefix_and_region_are_kept() {
    let settings = resolve(set("wheels"), set(""), set("id"), set("key"), set("")).unwrap();
    assert_eq!(settings.prefix, "");
    assert_eq!(settings.region, "");
}

#[test]
fn unset_required_values_are_refused() {
    assert_eq!(
        resolve(None, set("p"), set("id"), set("key"), set("r")),
        Err(ConfigurationError::MissingBucket)
    );
    assert_eq!(
        resolve(set("wheels"), set("p"), None, set("key"), set("r")),
        Err(ConfigurationError::MissingAccessKey)
    );
    assert_eq!(
        resolve(set("wheels"), set("p"), set("id"), None, set("r")),
        Err(ConfigurationError::MissingSecretKey)
    );
}

#[test]
fn empty_required_values_are_refused() {
    assert_eq!(
        resolve(set(""), None, set("id"), set("key"), None),
        Err(ConfigurationError::MissingBucket)
    );
    assert_eq!(
        resolve(set("wheels"), None, set(""), set("key"), None),
        Err(ConfigurationError::MissingAccessKey)
    );
    assert_eq!(
        resolve(set("wheels"), None, set("id"), set(""), None),
        Err(ConfigurationError::MissingSecretKey)
    );
}

#[test]
fn the_first_missing_value_is_reported() {
    assert_eq!(resolve(None, None, None, None, None), Err(ConfigurationError::MissingBucket));
    assert_eq!(
        resolve(set("wheels"), None, None, None, None),
        Err(ConfigurationError::MissingAccessKey)
    );
}

#[test]
fn configuration_errors_name_the_variable() {
    assert_eq!(ConfigurationError::MissingBucket.variable(), "AWS_BUCKET");
    assert_eq!(ConfigurationError::MissingAccessKey.variable(), "AWS_ACCESS_KEY_ID");
    assert_eq!(ConfigurationError::MissingSecretKey.variable(), "AWS_SECRET_ACCESS_KEY");
    assert_eq!(
        ConfigurationError::MissingBucket.message(),
        "missing required setting: AWS_BUCKET"
    );
}
