use lulu::cli::{parse_semver, parse_u64, split_tokens, AgentCli};

#[test]
fn unsupported_cli_version_is_rejected() {
    let result = AgentCli::validate_version_output("agent 0.8.9");
    assert!(result.is_err());
    let message = result.expect_err("unsupported versions should fail");
    assert!(message.contains("Unsupported agent CLI version"));
}

#[test]
fn unknown_cli_version_format_is_rejected() {
    let result = AgentCli::validate_version_output("agent version unknown");
    assert!(result.is_err());
    let message = result.expect_err("unknown format should fail");
    assert!(message.contains("Unsupported agent CLI version format"));
}

#[test]
fn version_floor_messages_are_exact() {
    assert_eq!(
        AgentCli::validate_version_output("agent 0.8.9").expect_err("below the floor"),
        "Unsupported agent CLI version 0.8.9. Require >=0.9.0 for session-event parsing"
    );
    assert_eq!(
        AgentCli::validate_version_output("nonsense").expect_err("unparsable"),
        "Unsupported agent CLI version format: 'nonsense'. Expected semantic version like 1.2.3"
    );
}

#[test]
fn supported_versions_pass_the_version_floor() {
    assert!(AgentCli::validate_version_output("agent 1.2.3").is_ok());
    assert!(AgentCli::validate_version_output("0.9.0").is_ok());
    assert!(AgentCli::validate_version_output("agent-cli v2.0.17 (release)").is_ok());
}

#[test]
fn parse_semver_reads_the_first_version_bearing_token() {
    assert_eq!(parse_semver("agent 1.2.3"), Some((1, 2, 3)));
    assert_eq!(parse_semver("v1.2.3"), Some((1, 2, 3)));
    assert_eq!(parse_semver("1.2.3-beta"), Some((1, 2, 3)));
    assert_eq!(parse_semver("release 10.20.30.40"), Some((10, 20, 30)));
    assert_eq!(parse_semver("one 1.2 two 4.5.6"), Some((4, 5, 6)));
    assert_eq!(parse_semver("1.2"), None);
    assert_eq!(parse_semver(""), None);
    assert_eq!(parse_semver("a.b.c"), None);
}

#[test]
fn parse_u64_accepts_digits_only_and_rejects_overflow() {
    assert_eq!(parse_u64("0"), Some(0));
    assert_eq!(parse_u64("18446744073709551615"), Some(u64::MAX));
    assert_eq!(parse_u64("18446744073709551616"), None);
    assert_eq!(parse_u64(""), None);
    assert_eq!(parse_u64("12a"), None);
}

#[test]
fn token_splitting_follows_unicode_whitespace() {
    let tokens = split_tokens("  agent\tversion\n1.2.3 ");
    assert_eq!(tokens, vec!["agent".to_string(), "version".to_string(), "1.2.3".to_string()]);
    assert!(split_tokens("   ").is_empty());
}

#[test]
fn spawn_arguments_follow_the_agent_contract() {
    let args = AgentCli::spawn_args("say hi");
    assert_eq!(
        args,
        vec![
            "-p".to_string(),
            "say hi".to_string(),
            "--verbose".to_string(),
            "--output-format".to_string(),
            "stream-json".to_string(),
        ]
    );
}

#[test]
fn fallback_locations_cover_the_documented_paths() {
    let locations = AgentCli::fallback_search_locations("/home/user", "agent");
    assert_eq!(
        locations,
        vec![
            "/home/user/.agent/bin/agent".to_string(),
            "/home/user/.local/bin/agent".to_string(),
            "/usr/local/bin/agent".to_string(),
        ]
    );
}
