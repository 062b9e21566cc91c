use code_index::credential::{api_key_from_profile, CredentialError};

#[test]
fn finds_quoted_key() {
    let profile = "alias ll='ls -l'\nexport ANTHROPIC_API_KEY=\"SECRET-REDACTED\"\nexport PATH=/bin\n";
    assert_eq!(api_key_from_profile(profile), Ok("SECRET-REDACTED".to_string()));
}

#[test]
fn first_key_line_wins() {
    let profile = "export ANTHROPIC_API_KEY=\"one\"\nexport ANTHROPIC_API_KEY=\"two\"";
    assert_eq!(api_key_from_profile(profile), Ok("one".to_string()));
}

#[test]
fn quoted_value_keeps_equals_signs() {
    let profile = "export ANTHROPIC_API_KEY=\"a=b\"";
    assert_eq!(api_key_from_profile(profile), Ok("a=b".to_string()));
}

#[test]
fn unquoted_value_is_malformed() {
    assert_eq!(
        api_key_from_profile("export ANTHROPIC_API_KEY=abc\n"),
        Err(CredentialError::MalformedLine)
    );
}

#[test]
fn carriage_return_is_dropped() {
    let profile = "export ANTHROPIC_API_KEY=\"k1\"\r\nexport X=1\r\n";
    assert_eq!(api_key_from_profile(profile), Ok("k1".to_string()));
}

#[test]
fn indented_line_does_not_count() {
    let profile = "  export ANTHROPIC_API_KEY=\"k\"\n";
    assert_eq!(api_key_from_profile(profile), Err(CredentialError::KeyNotFound));
}

#[test]
fn missing_key() {
    assert_eq!(api_key_from_profile(""), Err(CredentialError::KeyNotFound));
    assert_eq!(
        api_key_from_profile("export OTHER_KEY=\"x\"\n"),
        Err(CredentialError::KeyNotFound)
    );
}

#[test]
fn broken_quoting_is_malformed() {
    let broken = [
        "export ANTHROPIC_API_KEY=",
        "export ANTHROPIC_API_KEY=\"open\n",
        "export ANTHROPIC_API_KEY=\"ab\"c\n",
        "export ANTHROPIC_API_KEY=\"a\"\"b\"",
        "export ANTHROPIC_API_KEY=\"k\"\r",
    ];
    for profile in broken {
        assert_eq!(api_key_from_profile(profile), Err(CredentialError::MalformedLine), "{:?}", profile);
    }
}

#[test]
fn empty_quoted_value_is_returned() {
    assert_eq!(api_key_from_profile("export ANTHROPIC_API_KEY=\"\"\n"), Ok(String::new()));
}
