//! Requests to the GitHub API and what is read from its responses.

use crate::error::FetchError;
use vstd::prelude::*;
use vstd::string::*;

verus! {

/// A JSON value.
#[verifier::external_type_specification]
#[verifier::external_body]
pub struct ExValue(serde_json::Value);

/// Why bytes are not a JSON document.
#[verifier::external_type_specification]
#[verifier::external_body]
pub struct ExJsonError(serde_json::Error);

/// The texts inside a JSON value, each under the path of object keys that
/// leads to it. A value that is itself a text holds it under the empty path.
/// Elements of arrays are not among them.
pub uninterp spec fn json_texts(value: serde_json::Value) -> Map<Seq<Seq<char>>, Seq<char>>;

/// The texts of the JSON document that the bytes are, or why they are none.
pub uninterp spec fn json_document(body: Seq<u8>) -> Result<
    Map<Seq<Seq<char>>, Seq<char>>,
    serde_json::Error,
>;

/// What came of parsing a document, by the texts it holds.
pub open spec fn document_texts(parsed: Result<serde_json::Value, serde_json::Error>) -> Result<
    Map<Seq<Seq<char>>, Seq<char>>,
    serde_json::Error,
> {
    match parsed {
        Ok(value) => Ok(json_texts(value)),
        Err(e) => Err(e),
    }
}

/// The text at a path of object keys, if one stands there.
pub open spec fn text_at(value: serde_json::Value, path: Seq<Seq<char>>) -> Option<Seq<char>> {
    if json_texts(value).contains_key(path) {
        Some(json_texts(value)[path])
    } else {
        None
    }
}

/// The texts below one key of an object.
pub open spec fn below_key(
    texts: Map<Seq<Seq<char>>, Seq<char>>,
    key: Seq<char>,
) -> Map<Seq<Seq<char>>, Seq<char>> {
    Map::new(
        |path: Seq<Seq<char>>| texts.contains_key(seq![key] + path),
        |path: Seq<Seq<char>>| texts[seq![key] + path],
    )
}

/// What stands below a key at some path is what stands at the key and that path.
pub(crate) proof fn lemma_below_key(
    value: serde_json::Value,
    found: serde_json::Value,
    key: Seq<char>,
    path: Seq<Seq<char>>,
)
    requires
        json_texts(found) == below_key(json_texts(value), key),
    ensures
        text_at(found, path) == text_at(value, seq![key] + path),
{
}

/// Indexing a `serde_json::Value` with a key: the value under that key, or
/// null, which holds no text, where `value` is not an object with that key.
#[verifier::external_body]
pub(crate) fn member<'a>(value: &'a serde_json::Value, key: &str) -> (found: &'a serde_json::Value)
    ensures
        json_texts(*found) == below_key(json_texts(*value), key@),
{
    &value[key]
}

/// `serde_json::Value::as_str`: the text that a value is, if it is one.
#[verifier::external_body]
fn as_text(value: &serde_json::Value) -> (text: Option<&str>)
    ensures
        text is Some <==> json_texts(*value).contains_key(Seq::empty()),
        text matches Some(t) ==> t@ == json_texts(*value)[Seq::empty()],
{
    value.as_str()
}

/// `serde_json::from_slice` into a JSON value. The value and the error depend
/// on the bytes alone.
#[verifier::external_body]
fn parse_document(body: &[u8]) -> (parsed: Result<serde_json::Value, serde_json::Error>)
    ensures
        document_texts(parsed) == json_document(body@),
{
    serde_json::from_slice(body)
}

/// The text that `value` is. `field` names its place in the response, for the
/// error where there is none.
pub fn str_field(value: &serde_json::Value, field: &str) -> (text: Result<String, FetchError>)
    ensures
        match text {
            Ok(t) => text_at(*value, Seq::empty()) == Some(t@),
            Err(e) => text_at(*value, Seq::empty()) is None && e.is_missing_field(field@),
        },
{
    match as_text(value) {
        Some(text) => Ok(text.to_owned()),
        None => Err(FetchError::MissingField { field: field.to_owned() }),
    }
}

/// The document that an API response carries. An error status counts before
/// the body.
pub fn read_response(url: &str, status: u16, body: &[u8]) -> (document: Result<
    serde_json::Value,
    FetchError,
>)
    ensures
        match document {
            Ok(value) => !is_error_status(status) && json_document(body@) == document_texts(
                Ok(value),
            ),
            Err(FetchError::ApiRequest { url: u, code }) => is_error_status(status) && u@ == url@
                && code == status,
            Err(FetchError::ResponseBody { cause }) => !is_error_status(status) && json_document(
                body@,
            ) == document_texts(Err(cause)),
            Err(_) => false,
        },
{
    if status >= 400 && status < 600 {
        return Err(FetchError::ApiRequest { url: url.to_owned(), code: status });
    }
    match parse_document(body) {
        Ok(value) => Ok(value),
        Err(cause) => Err(FetchError::ResponseBody { cause }),
    }
}

/// The statuses that report an error of the client or of the server.
pub open spec fn is_error_status(status: u16) -> bool {
    400 <= status < 600
}

/// Where the API describes the commit `sha` of `repo`.
pub fn commit_url(repo: &str, sha: &str) -> (url: String)
    ensures
        url@ == "https://api.github.com/repos/"@ + repo@ + "/commits/"@ + sha@,
        ("https://api.github.com/repos/"@ + repo@).is_prefix_of(url@),
        ("/commits/"@ + sha@).is_suffix_of(url@),
{
    let ghost front = "https://api.github.com/repos/"@ + repo@;
    let ghost back = "/commits/"@ + sha@;
    let url = String::from_str("https://api.github.com/repos/").concat(repo).concat(
        "/commits/",
    ).concat(sha);
    assert(url@ =~= front + back);
    assert(url@.subrange(0, front.len() as int) =~= front);
    assert(url@.subrange(url@.len() - back.len(), url@.len() as int) =~= back);
    url
}

/// The full SHA in the description of a commit.
pub fn parse_full_sha(json: &serde_json::Value) -> (sha: Result<String, FetchError>)
    ensures
        match sha {
            Ok(s) => text_at(*json, seq!["sha"@]) == Some(s@),
            Err(e) => text_at(*json, seq!["sha"@]) is None && e.is_missing_field("sha"@),
        },
        sha matches Ok(s) ==> json_texts(*json).contains_pair(seq!["sha"@], s@),
        sha is Ok <==> json_texts(*json).dom().contains(seq!["sha"@]),
{
    let value = member(json, "sha");
    proof {
        lemma_below_key(*json, *value, "sha"@, Seq::empty());
        assert(seq!["sha"@] + Seq::empty() =~= seq!["sha"@]);
    }
    str_field(value, "sha")
}

/// An error status is one of the four hundreds or of the five hundreds.
pub proof fn law_error_statuses(status: u16)
    ensures
        is_error_status(status) <==> status / 100 == 4 || status / 100 == 5,
{
}

/// The text at a path is the one that the value holds under that very path, and
/// there is none exactly where the value holds none.
pub proof fn law_text_at_its_path(value: serde_json::Value, path: Seq<Seq<char>>, text: Seq<char>)
    ensures
        text_at(value, path) == Some(text) <==> json_texts(value).contains_pair(path, text),
        text_at(value, path) is None <==> !json_texts(value).dom().contains(path),
{
}

/// What stands below a key is what stands in the whole under paths that begin
/// with that key.
pub proof fn law_below_key(
    texts: Map<Seq<Seq<char>>, Seq<char>>,
    key: Seq<char>,
    path: Seq<Seq<char>>,
    text: Seq<char>,
)
    ensures
        below_key(texts, key).contains_pair(path, text) <==> texts.contains_pair(
            seq![key] + path,
            text,
        ),
{
}

/// A document is what was parsed: nothing of it, nor of the error where there
/// is none, is changed.
pub proof fn law_documents_are_kept(value: serde_json::Value, error: serde_json::Error)
    ensures
        document_texts(Ok(value)) == Ok::<_, serde_json::Error>(json_texts(value)),
        document_texts(Err(error)) == Err::<Map<Seq<Seq<char>>, Seq<char>>, _>(error),
{
}

} // verus!
