//! What can go wrong, with the message for each case.

use crate::encode::{decimal, decimal_text};
use vstd::prelude::*;
use vstd::string::*;

verus! {

/// A failure that the library itself detects.
#[derive(Debug)]
pub enum FetchError {
    /// Pull-request previews are offered for WHATWG specifications only.
    UnsupportedProvider { provider: String },
    /// A page could not be fetched; `status` is the status line.
    HttpStatus { url: String, status: String },
    /// The specification generator answered with an error report.
    GeneratorRejected { excerpt: String },
    /// The GitHub API answered a request with an error status.
    ApiRequest { url: String, code: u16 },
    /// The body of an API response is not JSON.
    ResponseBody { cause: serde_json::Error },
    /// An API response lacks a text at the path `field`.
    MissingField { field: String },
    /// The base URL of a TC39 specification is not a URL.
    InvalidBaseUrl { base_url: String, cause: url::ParseError },
    /// The base URL of a TC39 specification names no repository.
    NoPathSegment { base_url: String },
    /// A pull request could not be looked up.
    PrLookup { repo: String, pr_number: i64 },
    /// The merge base of a pull request could not be looked up.
    MergeBaseLookup { repo: String },
}

/// Why a run of the library failed.
#[derive(Debug)]
pub enum Failure<E> {
    /// The library detected it.
    Detected(FetchError),
    /// Something outside the library failed.
    Outside(E),
    /// Something outside the library failed while the library was at `context`.
    During { context: FetchError, cause: E },
}

/// Why a text is not a URL.
#[verifier::external_type_specification]
#[verifier::external_body]
pub struct ExParseError(url::ParseError);

impl FetchError {
    /// A response lacks the text at the path `path`.
    pub open spec fn is_missing_field(&self, path: Seq<char>) -> bool {
        self matches FetchError::MissingField { field } && field@ == path
    }

    /// The message for this error.
    pub open spec fn text(&self) -> Seq<char> {
        match self {
            FetchError::UnsupportedProvider { provider } => "PR previews are not supported for provider '"@
                + provider@ + "' — only WHATWG specs"@,
            FetchError::HttpStatus { url, status } => "Failed to fetch "@ + url@ + ": HTTP "@ + status@,
            FetchError::GeneratorRejected { excerpt } => "spec-generator returned error: "@ + excerpt@,
            FetchError::ApiRequest { url, .. } => "GitHub API request failed: "@ + url@,
            FetchError::ResponseBody { .. } => "error decoding response body"@,
            FetchError::MissingField { field } => "GitHub API response missing "@ + field@,
            FetchError::InvalidBaseUrl { base_url, .. } => "Invalid TC39 base URL: "@ + base_url@,
            FetchError::NoPathSegment { base_url } => "TC39 base URL has no path segment: "@ + base_url@,
            FetchError::PrLookup { repo, pr_number } => "Failed to fetch PR #"@ + decimal(
                *pr_number as int,
            ) + " from "@ + repo@,
            FetchError::MergeBaseLookup { repo } => "Failed to compute merge base for PR on "@ + repo@,
        }
    }

    /// The message for this error.
    pub fn message(&self) -> (text: String)
        ensures
            text@ == self.text(),
    {
        match self {
            FetchError::UnsupportedProvider { provider } => String::from_str(
                "PR previews are not supported for provider '",
            ).concat(provider.as_str()).concat("' — only WHATWG specs"),
            FetchError::HttpStatus { url, status } => String::from_str("Failed to fetch ").concat(
                url.as_str(),
            ).concat(": HTTP ").concat(status.as_str()),
            FetchError::GeneratorRejected { excerpt } => String::from_str(
                "spec-generator returned error: ",
            ).concat(excerpt.as_str()),
            FetchError::ApiRequest { url, .. } => String::from_str("GitHub API request failed: ").concat(
                url.as_str(),
            ),
            FetchError::ResponseBody { .. } => String::from_str("error decoding response body"),
            FetchError::MissingField { field } => String::from_str("GitHub API response missing ").concat(
                field.as_str(),
            ),
            FetchError::InvalidBaseUrl { base_url, .. } => String::from_str(
                "Invalid TC39 base URL: ",
            ).concat(base_url.as_str()),
            FetchError::NoPathSegment { base_url } => String::from_str(
                "TC39 base URL has no path segment: ",
            ).concat(base_url.as_str()),
            FetchError::PrLookup { repo, pr_number } => String::from_str("Failed to fetch PR #").concat(
                decimal_text(*pr_number).as_str(),
            ).concat(" from ").concat(repo.as_str()),
            FetchError::MergeBaseLookup { repo } => String::from_str(
                "Failed to compute merge base for PR on ",
            ).concat(repo.as_str()),
        }
    }
}

/// What each message says, around the texts of its error.
pub proof fn law_messages(error: FetchError)
    ensures
        error matches FetchError::UnsupportedProvider { provider } ==> error.text()
            == "PR previews are not supported for provider '"@ + provider@
            + "' — only WHATWG specs"@,
        error matches FetchError::HttpStatus { url, status } ==> error.text() == "Failed to fetch "@
            + url@ + ": HTTP "@ + status@,
        error matches FetchError::GeneratorRejected { excerpt } ==> error.text()
            == "spec-generator returned error: "@ + excerpt@,
        error matches FetchError::ApiRequest { url, .. } ==> error.text()
            == "GitHub API request failed: "@ + url@,
        error is ResponseBody ==> error.text() == "error decoding response body"@,
        error matches FetchError::MissingField { field } ==> error.text()
            == "GitHub API response missing "@ + field@,
        error matches FetchError::InvalidBaseUrl { base_url, .. } ==> error.text()
            == "Invalid TC39 base URL: "@ + base_url@,
        error matches FetchError::NoPathSegment { base_url } ==> error.text()
            == "TC39 base URL has no path segment: "@ + base_url@,
        error matches FetchError::PrLookup { repo, pr_number } ==> error.text()
            == "Failed to fetch PR #"@ + decimal(pr_number as int) + " from "@ + repo@,
        error matches FetchError::MergeBaseLookup { repo } ==> error.text()
            == "Failed to compute merge base for PR on "@ + repo@,
{
}

/// The message for a missing text names its path, whole: errors for two paths
/// have two messages.
pub proof fn law_missing_field_is_named(error: FetchError, path: Seq<char>, other: Seq<char>)
    requires
        error.is_missing_field(path),
    ensures
        error is MissingField,
        path.is_suffix_of(error.text()),
        error.text().len() == "GitHub API response missing "@.len() + path.len(),
        error.is_missing_field(other) ==> path == other,
{
    let text = error.text();
    assert(text.subrange(text.len() - path.len(), text.len() as int) =~= path);
}

} // verus!
