//! Checks of observed releases, from the text of a manifest to the report.

use scribium_engine::watch::{
    check_observation, check_release, CheckResult, Status, UpstreamInfo, UpstreamManifest,
    WatchError,
};

const RELEASE: &str = "https://github.com/iamgio/quarkdown/releases/tag/v2.6.0";

fn manifest_text(baseline: &str) -> String {
    format!(
        r#"
schema_version = 1

[upstream]
id = "quarkdown"
repository = "iamgio/quarkdown"
release_channel = "stable"
supported_baseline = "{}"
"#,
        baseline
    )
}

fn text_field(table: &toml::Value, name: &str) -> Result<String, String> {
    match table.get(name).and_then(|value| value.as_str()) {
        Some(value) => Ok(value.to_string()),
        None => Err(format!("missing field `{name}`")),
    }
}

fn read_manifest(content: &str) -> Result<UpstreamManifest, String> {
    let manifest: toml::Value = match toml::from_str(content) {
        Ok(manifest) => manifest,
        Err(error) => return Err(error.to_string()),
    };
    let version = manifest.get("schema_version").and_then(|value| value.as_integer());
    let upstream = manifest.get("upstream");
    match (version, upstream) {
        (Some(version), Some(upstream)) => Ok(UpstreamManifest {
            schema_version: version as u32,
            upstream: UpstreamInfo {
                id: text_field(upstream, "id")?,
                repository: text_field(upstream, "repository")?,
                release_channel: text_field(upstream, "release_channel")?,
                supported_baseline: text_field(upstream, "supported_baseline")?,
            },
        }),
        _ => Err("missing field".to_string()),
    }
}

fn to_json(result: &CheckResult) -> String {
    let mut object = serde_json::Map::new();
    let text = |value: &str| serde_json::Value::String(value.to_string());
    object.insert("upstream".to_string(), text(&result.upstream));
    object.insert("supported_baseline".to_string(), text(&result.supported_baseline));
    object.insert("observed_tag".to_string(), text(&result.observed_tag));
    object.insert("status".to_string(), text(result.status.code()));
    object.insert(
        "issue_key".to_string(),
        match &result.issue_key {
            Some(key) => text(key),
            None => serde_json::Value::Null,
        },
    );
    serde_json::to_string_pretty(&serde_json::Value::Object(object)).unwrap()
}

fn run_check_release(content: &str, tag: &str, url: &str) -> Result<String, String> {
    let manifest = read_manifest(content)?;
    let result = match check_release(&manifest, tag) {
        Ok(result) => result,
        Err(error) => return Err(error.message()),
    };
    match check_observation(tag, url) {
        Ok(()) => Ok(to_json(&result)),
        Err(error) => Err(error.message()),
    }
}

#[test]
fn test_current_status() {
    let result = run_check_release(
        &manifest_text("v2.5.0"),
        "v2.5.0",
        "https://github.com/iamgio/quarkdown/releases/tag/v2.5.0",
    );
    assert!(result.is_ok());
    let output = result.unwrap();
    assert!(output.contains("\"status\": \"current\""));
    assert!(output.contains("\"issue_key\": null"));
}

#[test]
fn test_drift_status() {
    let result = run_check_release(&manifest_text("v2.5.0"), "v2.6.0", RELEASE);
    assert!(result.is_ok());
    let output = result.unwrap();
    assert!(output.contains("\"status\": \"drift\""));
    assert!(output.contains("\"issue_key\": \"quarkdown:v2.6.0\""));
}

#[test]
fn test_invalid_schema_version() {
    let content = r#"
schema_version = 2

[upstream]
id = "quarkdown"
repository = "iamgio/quarkdown"
release_channel = "stable"
supported_baseline = "v2.5.0"
"#;
    let result = run_check_release(content, "v2.5.0", "https://example.com");
    assert!(result.is_err());
    assert!(result.unwrap_err().contains("schema_version must be 1"));
}

#[test]
fn test_missing_baseline() {
    let content = r#"
schema_version = 1

[upstream]
id = "quarkdown"
repository = "iamgio/quarkdown"
release_channel = "stable"
"#;
    let result = run_check_release(content, "v2.5.0", "https://example.com");
    assert!(result.is_err());
}

#[test]
fn test_empty_observed_tag() {
    let result = run_check_release(&manifest_text("v2.5.0"), "", "https://example.com");
    assert!(result.is_err());
    assert!(result.unwrap_err().contains("Observed tag cannot be empty"));
}

#[test]
fn test_empty_observed_url() {
    let result = run_check_release(&manifest_text("v2.5.0"), "v2.6.0", "");
    assert!(result.is_err());
    assert!(result.unwrap_err().contains("Observed URL cannot be empty"));
}

#[test]
fn test_issue_key_deterministic() {
    let result1 = run_check_release(&manifest_text("v2.5.0"), "v2.6.0", RELEASE);
    let result2 = run_check_release(&manifest_text("v2.5.0"), "v2.6.0", RELEASE);
    assert!(result1.is_ok());
    assert!(result2.is_ok());
    let output1 = result1.unwrap();
    let output2 = result2.unwrap();
    assert_eq!(output1, output2);
    assert!(output1.contains("\"issue_key\": \"quarkdown:v2.6.0\""));
}

fn manifest(version: u32) -> UpstreamManifest {
    UpstreamManifest {
        schema_version: version,
        upstream: UpstreamInfo {
            id: "quarkdown".to_string(),
            repository: "iamgio/quarkdown".to_string(),
            release_channel: "stable".to_string(),
            supported_baseline: "v2.5.0".to_string(),
        },
    }
}

#[test]
fn blank_observations_are_refused_tag_first() {
    assert_eq!(check_observation(" \t", "\n"), Err(WatchError::EmptyObservedTag));
    assert_eq!(check_observation("v1", "\u{a0}"), Err(WatchError::EmptyObservedUrl));
    assert_eq!(check_observation(" v1 ", "u"), Ok(()));
}

#[test]
fn an_unknown_schema_names_its_version() {
    let error = check_release(&manifest(4_294_967_295), "v2.5.0").unwrap_err();
    assert_eq!(error, WatchError::InvalidSchemaVersion(4_294_967_295));
    assert_eq!(
        error.message(),
        "Invalid manifest: schema_version must be 1, got 4294967295"
    );
}

#[test]
fn a_report_has_a_key_line_only_for_a_drift() {
    let drift = check_release(&manifest(1), "v2.6.0").unwrap();
    assert_eq!(drift.status, Status::Drift);
    assert_eq!(
        drift.lines(),
        vec![
            "Upstream: quarkdown",
            "Supported baseline: v2.5.0",
            "Observed tag: v2.6.0",
            "Status: Drift",
            "Issue key: quarkdown:v2.6.0",
        ]
    );
    let current = check_release(&manifest(1), "v2.5.0").unwrap();
    assert_eq!(current.status, Status::Current);
    assert_eq!(current.lines().len(), 4);
    assert_eq!(current.lines()[3], "Status: Current");
}

#[test]
fn different_tags_have_different_issue_keys() {
    let first = check_release(&manifest(1), "v2.6.0").unwrap();
    let second = check_release(&manifest(1), "v2.6.0 ").unwrap();
    assert_ne!(first.issue_key, second.issue_key);
    assert_eq!(second.issue_key, Some("quarkdown:v2.6.0 ".to_string()));
}
