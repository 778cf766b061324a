//! Watching upstream releases: whether an observed release is the supported baseline.

use vstd::prelude::*;

use crate::text;
use crate::text::{decimal, join2, join3, same_text, trimmed};

verus! {

/// The manifest of a watched upstream.
#[derive(Debug)]
pub struct UpstreamManifest {
    pub schema_version: u32,
    pub upstream: UpstreamInfo,
}

/// A watched upstream.
#[derive(Debug)]
pub struct UpstreamInfo {
    pub id: String,
    pub repository: String,
    pub release_channel: String,
    pub supported_baseline: String,
}

/// How an observed release stands to the baseline.
#[derive(Debug, Clone, Copy, PartialEq, Eq, Structural)]
pub enum Status {
    Current,
    Drift,
}

/// What a check found.
#[derive(Debug)]
pub struct CheckResult {
    pub upstream: String,
    pub supported_baseline: String,
    pub observed_tag: String,
    pub status: Status,
    pub issue_key: Option<String>,
}

/// Why a check cannot be made.
#[derive(Debug, Clone, Copy, PartialEq, Eq, Structural)]
pub enum WatchError {
    InvalidSchemaVersion(u32),
    EmptyObservedTag,
    EmptyObservedUrl,
}

/// What an error says.
pub open spec fn watch_message(error: WatchError) -> Seq<char> {
    match error {
        WatchError::InvalidSchemaVersion(
            version,
        ) => "Invalid manifest: schema_version must be 1, got "@ + text::decimal_text(
            version as nat,
        ),
        WatchError::EmptyObservedTag => "Observed tag cannot be empty"@,
        WatchError::EmptyObservedUrl => "Observed URL cannot be empty"@,
    }
}

impl WatchError {
    /// What the error says.
    pub fn message(self) -> (r: String)
        ensures
            r@ == watch_message(self),
    {
        match self {
            WatchError::InvalidSchemaVersion(version) => {
                let number = decimal(version as u64);
                join2("Invalid manifest: schema_version must be 1, got ", number.as_str())
            },
            WatchError::EmptyObservedTag => "Observed tag cannot be empty".to_owned(),
            WatchError::EmptyObservedUrl => "Observed URL cannot be empty".to_owned(),
        }
    }
}

/// What is wrong with an observed release.
pub open spec fn observation_error(tag: Seq<char>, url: Seq<char>) -> Option<WatchError> {
    if text::trim(tag).len() == 0 {
        Some(WatchError::EmptyObservedTag)
    } else if text::trim(url).len() == 0 {
        Some(WatchError::EmptyObservedUrl)
    } else {
        None
    }
}

/// Checks that an observed release has a tag and a URL.
pub fn check_observation(observed_tag: &str, observed_url: &str) -> (r: Result<(), WatchError>)
    ensures
        r == (match observation_error(observed_tag@, observed_url@) {
            Some(error) => Err(error),
            None => Ok(()),
        }),
{
    if trimmed(observed_tag).as_str().is_empty() {
        return Err(WatchError::EmptyObservedTag);
    }
    if trimmed(observed_url).as_str().is_empty() {
        return Err(WatchError::EmptyObservedUrl);
    }
    Ok(())
}

/// How an observed tag stands to the baseline.
pub open spec fn status_of(baseline: Seq<char>, tag: Seq<char>) -> Status {
    if tag == baseline {
        Status::Current
    } else {
        Status::Drift
    }
}

/// The key of the issue that tracks a drift.
pub open spec fn key_of_issue(id: Seq<char>, baseline: Seq<char>, tag: Seq<char>) -> Option<
    Seq<char>,
> {
    match status_of(baseline, tag) {
        Status::Current => None,
        Status::Drift => Some(id + ":"@ + tag),
    }
}

/// Checks an observed tag against the baseline of a manifest.
pub fn check_release(manifest: &UpstreamManifest, observed_tag: &str) -> (r: Result<
    CheckResult,
    WatchError,
>)
    ensures
        match r {
            Err(error) => manifest.schema_version != 1 && error
                == WatchError::InvalidSchemaVersion(manifest.schema_version),
            Ok(result) => {
                &&& manifest.schema_version == 1
                &&& result.upstream@ == manifest.upstream.id@
                &&& result.supported_baseline@ == manifest.upstream.supported_baseline@
                &&& result.observed_tag@ == observed_tag@
                &&& result.status == status_of(
                    manifest.upstream.supported_baseline@,
                    observed_tag@,
                )
                &&& (match result.issue_key {
                    Some(key) => Some(key@),
                    None => None,
                }) == key_of_issue(
                    manifest.upstream.id@,
                    manifest.upstream.supported_baseline@,
                    observed_tag@,
                )
            },
        },
{
    if manifest.schema_version != 1 {
        return Err(WatchError::InvalidSchemaVersion(manifest.schema_version));
    }
    let upstream = &manifest.upstream;
    let status = if same_text(observed_tag, upstream.supported_baseline.as_str()) {
        Status::Current
    } else {
        Status::Drift
    };
    let issue_key = match status {
        Status::Current => None,
        Status::Drift => Some(join3(upstream.id.as_str(), ":", observed_tag)),
    };
    Ok(
        CheckResult {
            upstream: upstream.id.clone(),
            supported_baseline: upstream.supported_baseline.clone(),
            observed_tag: observed_tag.to_owned(),
            status,
            issue_key,
        },
    )
}

/// The code of a status in structured output.
pub open spec fn status_code(status: Status) -> Seq<char> {
    match status {
        Status::Current => "current"@,
        Status::Drift => "drift"@,
    }
}

impl Status {
    /// The code of the status in structured output.
    pub fn code(self) -> (r: &'static str)
        ensures
            r@ == status_code(self),
    {
        match self {
            Status::Current => "current",
            Status::Drift => "drift",
        }
    }
}

/// The name of a status in a report.
pub open spec fn status_name(status: Status) -> Seq<char> {
    match status {
        Status::Current => "Current"@,
        Status::Drift => "Drift"@,
    }
}

/// The lines of a report.
pub open spec fn report_lines(
    upstream: Seq<char>,
    baseline: Seq<char>,
    tag: Seq<char>,
    status: Status,
    key: Option<Seq<char>>,
) -> Seq<Seq<char>> {
    let lines = seq![
        "Upstream: "@ + upstream,
        "Supported baseline: "@ + baseline,
        "Observed tag: "@ + tag,
        "Status: "@ + status_name(status),
    ];
    match key {
        Some(key) => lines.push("Issue key: "@ + key),
        None => lines,
    }
}

impl CheckResult {
    /// The result as lines of text.
    pub fn lines(&self) -> (r: Vec<String>)
        ensures
            text::strings_view(r@) == report_lines(
                self.upstream@,
                self.supported_baseline@,
                self.observed_tag@,
                self.status,
                match self.issue_key {
                    Some(key) => Some(key@),
                    None => None,
                },
            ),
    {
        let name = match self.status {
            Status::Current => "Current",
            Status::Drift => "Drift",
        };
        let mut r: Vec<String> = Vec::new();
        r.push(join2("Upstream: ", self.upstream.as_str()));
        r.push(join2("Supported baseline: ", self.supported_baseline.as_str()));
        r.push(join2("Observed tag: ", self.observed_tag.as_str()));
        r.push(join2("Status: ", name));
        if let Some(key) = &self.issue_key {
            r.push(join2("Issue key: ", key.as_str()));
        }
        assert(text::strings_view(r@) =~= report_lines(
            self.upstream@,
            self.supported_baseline@,
            self.observed_tag@,
            self.status,
            match self.issue_key {
                Some(key) => Some(key@),
                None => None,
            },
        ));
        r
    }
}

/// A release drifts exactly where its tag is not the baseline, and exactly then it has an
/// issue key.
pub proof fn lemma_drift(id: Seq<char>, baseline: Seq<char>, tag: Seq<char>)
    ensures
        status_of(baseline, tag) == Status::Drift <==> tag != baseline,
        key_of_issue(id, baseline, tag) is Some <==> status_of(baseline, tag) == Status::Drift,
{
}

/// Two drifts of one upstream have the same issue key exactly where they have the same tag.
pub proof fn lemma_issue_key_injective(
    id: Seq<char>,
    baseline: Seq<char>,
    tag: Seq<char>,
    other: Seq<char>,
)
    requires
        status_of(baseline, tag) == Status::Drift,
        status_of(baseline, other) == Status::Drift,
    ensures
        key_of_issue(id, baseline, tag) == key_of_issue(id, baseline, other) <==> tag == other,
{
    let head = id + ":"@;
    if key_of_issue(id, baseline, tag) == key_of_issue(id, baseline, other) {
        assert((head + tag).skip(head.len() as int) =~= tag);
        assert((head + other).skip(head.len() as int) =~= other);
    }
}

} // verus!
