//! Previews of TC39 pull requests.
//!
//! A pull request is resolved through the GitHub API: the head repository and
//! SHA for its build, the `compare` endpoint for the merge base. The committed
//! specification file is then fetched on each side. Proposals commit their
//! built `index.html`; the standards commit only the source `spec.html`.

use crate::encode::{decimal, decimal_text, encode_ref, ref_in_path};
use crate::error::{Failure, FetchError};
use crate::github::{json_texts, lemma_below_key, member, str_field, text_at};
use crate::pr::{PrPage, ResolvedPr};
use crate::text::{
    after_last_slash, begins_with, last_segment, law_last_segment_follows_last_slash, texts,
};
use vstd::prelude::*;
use vstd::string::*;
use vstd::utf8::*;

verus! {

/// What is needed of a pull request to locate both builds.
#[derive(Debug)]
pub struct PrMeta {
    /// Head repository as `owner/name`, possibly a fork.
    pub head_repo: String,
    /// Full SHA of the head commit.
    pub head_sha: String,
    /// Login of the owner of the head repository.
    pub head_owner: String,
    /// Head branch.
    pub head_ref: String,
    /// Base branch.
    pub base_ref: String,
}

/// A URL.
#[verifier::external_type_specification]
#[verifier::external_body]
pub struct ExUrl(url::Url);

/// The segments of the path of a URL, or none where its path has no segments.
pub uninterp spec fn path_of(url: url::Url) -> Option<Seq<Seq<char>>>;

/// The segments of the path of the URL that a text is, or why it is none.
pub uninterp spec fn url_segments(text: Seq<char>) -> Result<
    Option<Seq<Seq<char>>>,
    url::ParseError,
>;

/// Segments that may be missing, by what they hold.
pub open spec fn optional_texts(segments: Option<Vec<String>>) -> Option<Seq<Seq<char>>> {
    match segments {
        Some(list) => Some(texts(list@)),
        None => None,
    }
}

/// The first of `segments` that is not empty.
pub open spec fn first_non_empty(segments: Seq<Seq<char>>) -> Option<Seq<char>>
    decreases segments.len(),
{
    if segments.len() == 0 {
        None
    } else if segments[0].len() > 0 {
        Some(segments[0])
    } else {
        first_non_empty(segments.drop_first())
    }
}

/// Segments by what they hold.
pub open spec fn segment_texts(segments: Result<Option<Vec<String>>, url::ParseError>) -> Result<
    Option<Seq<Seq<char>>>,
    url::ParseError,
> {
    match segments {
        Ok(found) => Ok(optional_texts(found)),
        Err(e) => Err(e),
    }
}

/// The repository of a specification, from the segments of its base URL.
pub open spec fn repo_of(
    base_url: Seq<char>,
    segments: Result<Option<Seq<Seq<char>>>, url::ParseError>,
    repo: Result<String, FetchError>,
) -> bool {
    match segments {
        Err(e) => repo matches Err(FetchError::InvalidBaseUrl { base_url: b, cause }) && b@ == base_url
            && cause == e,
        Ok(None) => repo matches Err(FetchError::NoPathSegment { base_url: b }) && b@ == base_url,
        Ok(Some(list)) => match first_non_empty(list) {
            Some(slug) => repo matches Ok(r) && r@ == "tc39/"@ + slug,
            None => repo matches Err(FetchError::NoPathSegment { base_url: b }) && b@ == base_url,
        },
    }
}

/// `url::Url::parse`. The path of the URL and the error depend on the text
/// alone.
#[verifier::external_body]
fn parse_url(text: &str) -> (parsed: Result<url::Url, url::ParseError>)
    ensures
        match parsed {
            Ok(url) => url_segments(text@) == Ok::<_, url::ParseError>(path_of(url)),
            Err(e) => url_segments(text@) == Err::<Option<Seq<Seq<char>>>, _>(e),
        },
{
    url::Url::parse(text)
}

/// `url::Url::path_segments`, each segment as a text of its own.
#[verifier::external_body]
fn path_segments(url: &url::Url) -> (segments: Option<Vec<String>>)
    ensures
        optional_texts(segments) == path_of(*url),
{
    url.path_segments().map(|list| list.map(str::to_string).collect())
}

/// What the segments of the path of `base_url` say of the repository: it is
/// `tc39/` and the first of them that is not empty.
pub fn repo_from_segments(
    base_url: &str,
    segments: Result<Option<Vec<String>>, url::ParseError>,
) -> (repo: Result<String, FetchError>)
    ensures
        repo_of(base_url@, segment_texts(segments), repo),
{
    let list = match segments {
        Ok(Some(list)) => list,
        Ok(None) => return Err(FetchError::NoPathSegment { base_url: base_url.to_owned() }),
        Err(cause) => return Err(
            FetchError::InvalidBaseUrl { base_url: base_url.to_owned(), cause },
        ),
    };
    let ghost all = texts(list@);
    let mut i: usize = 0;
    assert(all.skip(0) =~= all);
    while i < list.len()
        invariant
            i <= list@.len(),
            all == texts(list@),
            segment_texts(segments) == Ok::<Option<Seq<Seq<char>>>, url::ParseError>(Some(all)),
            first_non_empty(all) == first_non_empty(all.skip(i as int)),
        decreases list@.len() - i,
    {
        assert(all.skip(i as int).drop_first() =~= all.skip(i + 1));
        assert(all.skip(i as int)[0] == list@[i as int]@);
        if !list[i].as_str().is_empty() {
            return Ok(String::from_str("tc39/").concat(list[i].as_str()));
        }
        i += 1;
    }
    Err(FetchError::NoPathSegment { base_url: base_url.to_owned() })
}

/// The GitHub repository `tc39/<slug>` of a base URL such as
/// `https://tc39.es/proposal-defer-import-eval`.
pub fn repo_from_base_url(base_url: &str) -> (repo: Result<String, FetchError>)
    ensures
        repo_of(base_url@, url_segments(base_url@), repo),
{
    let segments = match parse_url(base_url) {
        Ok(url) => Ok(path_segments(&url)),
        Err(e) => Err(e),
    };
    repo_from_segments(base_url, segments)
}

/// The committed specification file of a repository: proposals commit the
/// built `index.html`, the standards only the source `spec.html`.
pub open spec fn spec_file(repo: Seq<char>) -> Seq<char> {
    if "proposal-"@.is_prefix_of(last_segment(repo)) {
        "index.html"@
    } else {
        "spec.html"@
    }
}

/// The committed specification file to fetch for a repository.
pub fn committed_spec_file(repo: &str) -> (file: &'static str)
    ensures
        file@ == spec_file(repo@),
{
    if begins_with(after_last_slash(repo), "proposal-") {
        "index.html"
    } else {
        "spec.html"
    }
}

/// Where the raw content of a committed file is served.
pub open spec fn raw_url(repo: Seq<char>, sha: Seq<char>, file: Seq<char>) -> Seq<char> {
    "https://raw.githubusercontent.com/"@ + repo + "/"@ + sha + "/"@ + file
}

/// The raw-content URL of a committed specification file at a commit.
pub fn raw_spec_url(repo: &str, sha: &str, file: &str) -> (url: String)
    ensures
        url@ == raw_url(repo@, sha@, file@),
{
    String::from_str("https://raw.githubusercontent.com/").concat(repo).concat("/").concat(
        sha,
    ).concat("/").concat(file)
}

/// Where the texts of a pull request stand in its description: the head
/// repository, the head SHA, the owner of the head repository, the head branch
/// and the base branch.
pub open spec fn head_repo_path() -> Seq<Seq<char>> {
    seq!["head"@, "repo"@, "full_name"@]
}

pub open spec fn head_sha_path() -> Seq<Seq<char>> {
    seq!["head"@, "sha"@]
}

pub open spec fn head_owner_path() -> Seq<Seq<char>> {
    seq!["head"@, "repo"@, "owner"@, "login"@]
}

pub open spec fn head_ref_path() -> Seq<Seq<char>> {
    seq!["head"@, "ref"@]
}

pub open spec fn base_ref_path() -> Seq<Seq<char>> {
    seq!["base"@, "ref"@]
}

/// `meta` holds the texts of a description, or names the first that it lacks.
pub open spec fn meta_of(json: serde_json::Value, meta: Result<PrMeta, FetchError>) -> bool {
    match meta {
        Ok(m) => {
            &&& text_at(json, head_repo_path()) == Some(m.head_repo@)
            &&& text_at(json, head_sha_path()) == Some(m.head_sha@)
            &&& text_at(json, head_owner_path()) == Some(m.head_owner@)
            &&& text_at(json, head_ref_path()) == Some(m.head_ref@)
            &&& text_at(json, base_ref_path()) == Some(m.base_ref@)
        },
        Err(e) => if text_at(json, head_repo_path()) is None {
            e.is_missing_field("head.repo.full_name"@)
        } else if text_at(json, head_sha_path()) is None {
            e.is_missing_field("head.sha"@)
        } else if text_at(json, head_owner_path()) is None {
            e.is_missing_field("head.repo.owner.login"@)
        } else if text_at(json, head_ref_path()) is None {
            e.is_missing_field("head.ref"@)
        } else {
            text_at(json, base_ref_path()) is None && e.is_missing_field("base.ref"@)
        },
    }
}

/// Reads what is needed of the description of a pull request.
pub fn parse_pr_meta(json: &serde_json::Value) -> (meta: Result<PrMeta, FetchError>)
    ensures
        meta_of(*json, meta),
        meta matches Ok(m) ==> json_texts(*json).contains_pair(
            seq!["head"@, "repo"@, "owner"@, "login"@],
            m.head_owner@,
        ),
{
    let head = member(json, "head");
    let repo = member(head, "repo");
    let full_name = member(repo, "full_name");
    let sha = member(head, "sha");
    let owner = member(repo, "owner");
    let login = member(owner, "login");
    let head_ref = member(head, "ref");
    let base = member(json, "base");
    let base_ref = member(base, "ref");
    proof {
        let none = Seq::<Seq<char>>::empty();
        lemma_below_key(*repo, *full_name, "full_name"@, none);
        lemma_below_key(*head, *repo, "repo"@, seq!["full_name"@] + none);
        lemma_below_key(*json, *head, "head"@, seq!["repo"@] + (seq!["full_name"@] + none));
        assert(seq!["head"@] + (seq!["repo"@] + (seq!["full_name"@] + none)) =~= head_repo_path());
        lemma_below_key(*head, *sha, "sha"@, none);
        lemma_below_key(*json, *head, "head"@, seq!["sha"@] + none);
        assert(seq!["head"@] + (seq!["sha"@] + none) =~= head_sha_path());
        lemma_below_key(*owner, *login, "login"@, none);
        lemma_below_key(*repo, *owner, "owner"@, seq!["login"@] + none);
        lemma_below_key(*head, *repo, "repo"@, seq!["owner"@] + (seq!["login"@] + none));
        lemma_below_key(
            *json,
            *head,
            "head"@,
            seq!["repo"@] + (seq!["owner"@] + (seq!["login"@] + none)),
        );
        assert(seq!["head"@] + (seq!["repo"@] + (seq!["owner"@] + (seq!["login"@] + none)))
            =~= head_owner_path());
        lemma_below_key(*head, *head_ref, "ref"@, none);
        lemma_below_key(*json, *head, "head"@, seq!["ref"@] + none);
        assert(seq!["head"@] + (seq!["ref"@] + none) =~= head_ref_path());
        lemma_below_key(*base, *base_ref, "ref"@, none);
        lemma_below_key(*json, *base, "base"@, seq!["ref"@] + none);
        assert(seq!["base"@] + (seq!["ref"@] + none) =~= base_ref_path());
    }
    let head_repo = match str_field(full_name, "head.repo.full_name") {
        Ok(text) => text,
        Err(e) => return Err(e),
    };
    let head_sha = match str_field(sha, "head.sha") {
        Ok(text) => text,
        Err(e) => return Err(e),
    };
    let head_owner = match str_field(login, "head.repo.owner.login") {
        Ok(text) => text,
        Err(e) => return Err(e),
    };
    let head_branch = match str_field(head_ref, "head.ref") {
        Ok(text) => text,
        Err(e) => return Err(e),
    };
    let base_branch = match str_field(base_ref, "base.ref") {
        Ok(text) => text,
        Err(e) => return Err(e),
    };
    Ok(
        PrMeta {
            head_repo,
            head_sha,
            head_owner,
            head_ref: head_branch,
            base_ref: base_branch,
        },
    )
}

/// Where the SHA of the merge base stands in a comparison.
pub open spec fn merge_base_path() -> Seq<Seq<char>> {
    seq!["merge_base_commit"@, "sha"@]
}

/// `sha` is the merge base in a comparison, or says that it lacks one.
pub open spec fn merge_base_of(json: serde_json::Value, sha: Result<String, FetchError>) -> bool {
    match sha {
        Ok(s) => text_at(json, merge_base_path()) == Some(s@),
        Err(e) => text_at(json, merge_base_path()) is None && e.is_missing_field(
            "merge_base_commit.sha"@,
        ),
    }
}

/// Reads the SHA of the merge base from a comparison.
pub fn parse_merge_base(json: &serde_json::Value) -> (sha: Result<String, FetchError>)
    ensures
        merge_base_of(*json, sha),
{
    let commit = member(json, "merge_base_commit");
    let value = member(commit, "sha");
    proof {
        let none = Seq::<Seq<char>>::empty();
        lemma_below_key(*commit, *value, "sha"@, none);
        lemma_below_key(*json, *commit, "merge_base_commit"@, seq!["sha"@] + none);
        assert(seq!["merge_base_commit"@] + (seq!["sha"@] + none) =~= merge_base_path());
    }
    str_field(value, "merge_base_commit.sha")
}

/// Where the API describes a pull request.
pub open spec fn pull_text(repo: Seq<char>, pr_number: int) -> Seq<char> {
    "https://api.github.com/repos/"@ + repo + "/pulls/"@ + decimal(pr_number)
}

/// The URL of the description of a pull request.
pub fn pull_url(repo: &str, pr_number: i64) -> (url: String)
    ensures
        url@ == pull_text(repo@, pr_number as int),
{
    String::from_str("https://api.github.com/repos/").concat(repo).concat("/pulls/").concat(
        decimal_text(pr_number).as_str(),
    )
}

/// Where the API compares a base branch with a branch of a fork. The refs are
/// escaped, each by itself; the `...` and the `:` between them are not.
pub open spec fn compare_text(
    repo: Seq<char>,
    base_ref: Seq<char>,
    head_owner: Seq<char>,
    head_ref: Seq<char>,
) -> Seq<char> {
    "https://api.github.com/repos/"@ + repo + "/compare/"@ + ref_in_path(encode_utf8(base_ref))
        + "..."@ + ref_in_path(encode_utf8(head_owner)) + ":"@ + ref_in_path(encode_utf8(head_ref))
}

/// The URL that compares a base branch with the head branch of a pull request.
pub fn compare_url(repo: &str, base_ref: &str, head_owner: &str, head_ref: &str) -> (url: String)
    ensures
        url@ == compare_text(repo@, base_ref@, head_owner@, head_ref@),
{
    String::from_str("https://api.github.com/repos/").concat(repo).concat("/compare/").concat(
        encode_ref(base_ref).as_str(),
    ).concat("...").concat(encode_ref(head_owner).as_str()).concat(":").concat(
        encode_ref(head_ref).as_str(),
    )
}

/// `resolved` is the preview of a pull request on `repo`: the head repository's
/// committed file for the pull request, the base repository's for the merge
/// base, under the file name that the base repository uses.
pub open spec fn resolved_from(
    repo: Seq<char>,
    meta: PrMeta,
    merge_base_sha: Seq<char>,
    resolved: ResolvedPr,
) -> bool {
    &&& resolved.head_sha@ == meta.head_sha@
    &&& resolved.merge_base_sha@ == merge_base_sha
    &&& resolved.base_html_url@ == raw_url(repo, merge_base_sha, spec_file(repo))
    &&& resolved.pages@.len() == 1
    &&& resolved.pages@[0].page_path@ == spec_file(repo)
    &&& resolved.pages@[0].url@ == raw_url(meta.head_repo@, meta.head_sha@, spec_file(repo))
    &&& resolved.pages@[0].diff_url is None
}

/// Builds the preview of a pull request.
pub fn build_resolved(repo: &str, meta: &PrMeta, merge_base_sha: String) -> (resolved: ResolvedPr)
    ensures
        resolved_from(repo@, *meta, merge_base_sha@, resolved),
{
    let file = committed_spec_file(repo);
    ResolvedPr {
        head_sha: meta.head_sha.clone(),
        base_html_url: raw_spec_url(repo, merge_base_sha.as_str(), file),
        merge_base_sha,
        pages: vec![
            PrPage {
                page_path: file.to_owned(),
                url: raw_spec_url(meta.head_repo.as_str(), meta.head_sha.as_str(), file),
                diff_url: None,
            },
        ],
    }
}

/// How resolving a pull request stands.
#[derive(Debug)]
pub enum Tc39Stage<E> {
    /// Waits for the description of the pull request.
    Lookup { repo: String },
    /// Waits for the comparison of its base with its head.
    Compare { repo: String, meta: PrMeta },
    /// Over, with the preview or the reason why there is none.
    Finished(Result<ResolvedPr, Failure<E>>),
}

/// The stage after `stage` where `reply` is the document that it waits for.
pub open spec fn tc39_step<E>(
    pr_number: i64,
    stage: Tc39Stage<E>,
    reply: Result<serde_json::Value, E>,
    next: Tc39Stage<E>,
) -> bool {
    match (stage, reply) {
        (Tc39Stage::Lookup { repo }, Ok(json)) => match next {
            Tc39Stage::Compare { repo: r, meta } => r == repo && meta_of(json, Ok(meta)),
            Tc39Stage::Finished(Err(Failure::Detected(e))) => meta_of(json, Err(e)),
            _ => false,
        },
        (Tc39Stage::Lookup { repo }, Err(e)) => next == Tc39Stage::<E>::Finished(
            Err(Failure::During { context: FetchError::PrLookup { repo, pr_number }, cause: e }),
        ),
        (Tc39Stage::Compare { repo, meta }, Ok(json)) => match next {
            Tc39Stage::Finished(Ok(resolved)) => {
                &&& text_at(json, merge_base_path()) is Some
                &&& resolved_from(repo@, meta, text_at(json, merge_base_path())->0, resolved)
            },
            Tc39Stage::Finished(Err(Failure::Detected(e))) => merge_base_of(json, Err(e)),
            _ => false,
        },
        (Tc39Stage::Compare { repo, .. }, Err(e)) => next == Tc39Stage::<E>::Finished(
            Err(Failure::During { context: FetchError::MergeBaseLookup { repo }, cause: e }),
        ),
        (Tc39Stage::Finished(_), _) => false,
    }
}

impl<E> Tc39Stage<E> {
    /// The API document that this stage waits for, if any.
    pub open spec fn pending(self, pr_number: i64) -> Option<Seq<char>> {
        match self {
            Tc39Stage::Lookup { repo } => Some(pull_text(repo@, pr_number as int)),
            Tc39Stage::Compare { repo, meta } => Some(
                compare_text(repo@, meta.base_ref@, meta.head_owner@, meta.head_ref@),
            ),
            Tc39Stage::Finished(_) => None,
        }
    }

    /// Begins to resolve a pull request of the specification at `base_url`.
    pub fn start(base_url: &str) -> (stage: Tc39Stage<E>)
        ensures
            match stage {
                Tc39Stage::Lookup { repo } => repo_of(
                    base_url@,
                    url_segments(base_url@),
                    Ok(repo),
                ),
                Tc39Stage::Finished(Err(Failure::Detected(e))) => repo_of(
                    base_url@,
                    url_segments(base_url@),
                    Err(e),
                ),
                _ => false,
            },
    {
        match repo_from_base_url(base_url) {
            Ok(repo) => Tc39Stage::Lookup { repo },
            Err(e) => Tc39Stage::Finished(Err(Failure::Detected(e))),
        }
    }

    /// The URL of the API document to get next, or none where resolving is
    /// over.
    pub fn request(&self, pr_number: i64) -> (url: Option<String>)
        ensures
            match url {
                Some(u) => self.pending(pr_number) == Some(u@),
                None => self.pending(pr_number) is None,
            },
    {
        match self {
            Tc39Stage::Lookup { repo } => Some(pull_url(repo.as_str(), pr_number)),
            Tc39Stage::Compare { repo, meta } => Some(
                compare_url(
                    repo.as_str(),
                    meta.base_ref.as_str(),
                    meta.head_owner.as_str(),
                    meta.head_ref.as_str(),
                ),
            ),
            Tc39Stage::Finished(_) => None,
        }
    }

    /// Goes on with the document that was asked for, or with the failure to
    /// get it.
    pub fn advance(self, pr_number: i64, reply: Result<serde_json::Value, E>) -> (next: Tc39Stage<
        E,
    >)
        requires
            !(self is Finished),
        ensures
            tc39_step(pr_number, self, reply, next),
    {
        match self {
            Tc39Stage::Lookup { repo } => match reply {
                Ok(json) => match parse_pr_meta(&json) {
                    Ok(meta) => Tc39Stage::Compare { repo, meta },
                    Err(e) => Tc39Stage::Finished(Err(Failure::Detected(e))),
                },
                Err(cause) => Tc39Stage::Finished(
                    Err(
                        Failure::During {
                            context: FetchError::PrLookup { repo, pr_number },
                            cause,
                        },
                    ),
                ),
            },
            Tc39Stage::Compare { repo, meta } => match reply {
                Ok(json) => match parse_merge_base(&json) {
                    Ok(sha) => Tc39Stage::Finished(Ok(build_resolved(repo.as_str(), &meta, sha))),
                    Err(e) => Tc39Stage::Finished(Err(Failure::Detected(e))),
                },
                Err(cause) => Tc39Stage::Finished(
                    Err(Failure::During { context: FetchError::MergeBaseLookup { repo }, cause }),
                ),
            },
            Tc39Stage::Finished(_) => self,
        }
    }
}

/// Both sides of a preview are the same file: the path of the page ends the
/// URL of the pull request's build and the URL of the merge base's build.
pub proof fn law_both_sides_are_the_same_file(
    repo: Seq<char>,
    meta: PrMeta,
    merge_base_sha: Seq<char>,
    resolved: ResolvedPr,
)
    requires
        resolved_from(repo, meta, merge_base_sha, resolved),
    ensures
        resolved.pages@[0].page_path@.is_suffix_of(resolved.pages@[0].url@),
        resolved.pages@[0].page_path@.is_suffix_of(resolved.base_html_url@),
{
    let file = resolved.pages@[0].page_path@;
    let head = resolved.pages@[0].url@;
    let base = resolved.base_html_url@;
    assert(head.subrange(head.len() - file.len(), head.len() as int) =~= file);
    assert(base.subrange(base.len() - file.len(), base.len() as int) =~= file);
}

/// A pull request that resolves does so with two documents: its description,
/// which the preview takes its head from, and a comparison that names the
/// merge base.
pub proof fn law_resolving_takes_two_documents<E>(
    pr_number: i64,
    first: Tc39Stage<E>,
    description: serde_json::Value,
    second: Tc39Stage<E>,
    comparison: serde_json::Value,
    third: Tc39Stage<E>,
)
    requires
        first is Lookup,
        tc39_step(pr_number, first, Ok(description), second),
        !(second is Finished),
        tc39_step(pr_number, second, Ok(comparison), third),
    ensures
        third is Finished,
        third matches Tc39Stage::Finished(Ok(resolved)) ==> {
            &&& text_at(description, head_sha_path()) == Some(resolved.head_sha@)
            &&& text_at(comparison, merge_base_path()) == Some(resolved.merge_base_sha@)
        },
{
}

/// The repository is named by the first segment that is not empty, whatever
/// comes after it; before it there may be empty ones only.
pub proof fn law_repo_is_the_first_segment(
    base_url: Seq<char>,
    empty: Seq<Seq<char>>,
    slug: Seq<char>,
    rest: Seq<Seq<char>>,
    repo: Result<String, FetchError>,
)
    requires
        forall|i: int| 0 <= i < empty.len() ==> (#[trigger] empty[i]).len() == 0,
        slug.len() > 0,
        repo_of(base_url, Ok(Some(empty + seq![slug] + rest)), repo),
    ensures
        repo is Ok,
        repo->Ok_0@ == "tc39/"@ + slug,
{
    lemma_first_non_empty(empty, slug, rest);
}

proof fn lemma_first_non_empty(empty: Seq<Seq<char>>, slug: Seq<char>, rest: Seq<Seq<char>>)
    requires
        forall|i: int| 0 <= i < empty.len() ==> (#[trigger] empty[i]).len() == 0,
        slug.len() > 0,
    ensures
        first_non_empty(empty + seq![slug] + rest) == Some(slug),
        first_non_empty(empty) is None,
    decreases empty.len(),
{
    let all = empty + seq![slug] + rest;
    if empty.len() > 0 {
        let fewer = empty.drop_first();
        assert forall|i: int| 0 <= i < fewer.len() implies (#[trigger] fewer[i]).len() == 0 by {
            assert(fewer[i] == empty[i + 1]);
        }
        lemma_first_non_empty(fewer, slug, rest);
        assert(empty[0].len() == 0);
        assert(all[0] == empty[0]);
        assert(all.drop_first() =~= fewer + seq![slug] + rest);
    } else {
        assert(all[0] == slug);
    }
}

/// A URL without segments, or with empty ones only, names no repository, and
/// the error quotes it. A text that is no URL gives the reason why it is none.
pub proof fn law_repo_needs_a_segment(
    base_url: Seq<char>,
    empty: Seq<Seq<char>>,
    cause: url::ParseError,
    repo: Result<String, FetchError>,
)
    requires
        forall|i: int| 0 <= i < empty.len() ==> (#[trigger] empty[i]).len() == 0,
    ensures
        repo_of(base_url, Ok(Some(empty)), repo) ==> (repo matches Err(
            FetchError::NoPathSegment { base_url: b },
        ) && b@ == base_url),
        repo_of(base_url, Ok(None), repo) ==> (repo matches Err(
            FetchError::NoPathSegment { base_url: b },
        ) && b@ == base_url),
        repo_of(base_url, Err(cause), repo) ==> (repo matches Err(
            FetchError::InvalidBaseUrl { base_url: b, cause: c },
        ) && b@ == base_url && c == cause),
{
    lemma_first_non_empty(empty, seq!['x'], Seq::empty());
}

/// Segments are taken as they are: each by its own characters, in their order.
pub proof fn law_segments_are_kept(list: Vec<String>, cause: url::ParseError)
    ensures
        segment_texts(Ok(Some(list))) is Ok,
        segment_texts(Ok(Some(list)))->Ok_0 is Some,
        segment_texts(Ok(Some(list)))->Ok_0->0.len() == list@.len(),
        forall|i: int|
            0 <= i < list@.len() ==> #[trigger] segment_texts(Ok(Some(list)))->Ok_0->0[i]
                == list@[i]@,
        segment_texts(Ok(None)) == Ok::<Option<Seq<Seq<char>>>, url::ParseError>(None),
        segment_texts(Err(cause)) == Err::<Option<Seq<Seq<char>>>, url::ParseError>(cause),
{
}

/// A repository whose name, whoever owns it, begins with `proposal-` commits
/// its built page; every other repository commits its source.
pub proof fn law_proposals_commit_their_build(owner: Seq<char>, name: Seq<char>)
    requires
        !name.contains('/'),
    ensures
        "proposal-"@.is_prefix_of(name) ==> spec_file(owner + seq!['/'] + name) == "index.html"@
            && spec_file(name) == "index.html"@,
        !"proposal-"@.is_prefix_of(name) ==> spec_file(owner + seq!['/'] + name) == "spec.html"@
            && spec_file(name) == "spec.html"@,
{
    law_last_segment_follows_last_slash(owner, name);
}

/// The texts that are read from the description of a pull request are the ones
/// at `head.repo.full_name`, `head.sha`, `head.repo.owner.login`, `head.ref`
/// and `base.ref`, whatever else the description holds.
pub proof fn law_meta_holds_the_named_texts(json: serde_json::Value, meta: PrMeta)
    requires
        meta_of(json, Ok(meta)),
    ensures
        json_texts(json).contains_pair(
            seq!["head"@, "repo"@, "full_name"@],
            meta.head_repo@,
        ),
        json_texts(json).contains_pair(seq!["head"@, "sha"@], meta.head_sha@),
        json_texts(json).contains_pair(
            seq!["head"@, "repo"@, "owner"@, "login"@],
            meta.head_owner@,
        ),
        json_texts(json).contains_pair(seq!["head"@, "ref"@], meta.head_ref@),
        json_texts(json).contains_pair(seq!["base"@, "ref"@], meta.base_ref@),
{
}

/// A description that holds all five texts is read; one that lacks some is
/// refused with the path of the first of them that it lacks.
pub proof fn law_meta_needs_the_named_texts(json: serde_json::Value, error: FetchError)
    requires
        meta_of(json, Err(error)),
    ensures
        ({
            let held = json_texts(json).dom();
            let repo = held.contains(seq!["head"@, "repo"@, "full_name"@]);
            let sha = held.contains(seq!["head"@, "sha"@]);
            let owner = held.contains(seq!["head"@, "repo"@, "owner"@, "login"@]);
            let head = held.contains(seq!["head"@, "ref"@]);
            let base = held.contains(seq!["base"@, "ref"@]);
            &&& !(repo && sha && owner && head && base)
            &&& error is MissingField
            &&& !repo ==> error->field@ == "head.repo.full_name"@
            &&& repo && !sha ==> error->field@ == "head.sha"@
            &&& repo && sha && !owner ==> error->field@ == "head.repo.owner.login"@
            &&& repo && sha && owner && !head ==> error->field@ == "head.ref"@
            &&& repo && sha && owner && head ==> error->field@ == "base.ref"@
        }),
{
}

/// Two descriptions that agree on the five texts say the same of a pull
/// request, whatever else differs between them.
pub proof fn law_meta_depends_on_nothing_else(
    json: serde_json::Value,
    meta: PrMeta,
    other: serde_json::Value,
    other_meta: PrMeta,
)
    requires
        meta_of(json, Ok(meta)),
        meta_of(other, Ok(other_meta)),
        forall|path: Seq<Seq<char>>|
            path == seq!["head"@, "repo"@, "full_name"@] || path == seq!["head"@, "sha"@] || path
                == seq!["head"@, "repo"@, "owner"@, "login"@] || path == seq!["head"@, "ref"@]
                || path == seq!["base"@, "ref"@] ==> (#[trigger] text_at(json, path)) == text_at(
                other,
                path,
            ),
    ensures
        meta.head_repo@ == other_meta.head_repo@,
        meta.head_sha@ == other_meta.head_sha@,
        meta.head_owner@ == other_meta.head_owner@,
        meta.head_ref@ == other_meta.head_ref@,
        meta.base_ref@ == other_meta.base_ref@,
{
    law_meta_holds_the_named_texts(json, meta);
    law_meta_holds_the_named_texts(other, other_meta);
    assert(text_at(json, head_repo_path()) == text_at(other, head_repo_path()));
    assert(text_at(json, head_sha_path()) == text_at(other, head_sha_path()));
    assert(text_at(json, head_owner_path()) == text_at(other, head_owner_path()));
    assert(text_at(json, head_ref_path()) == text_at(other, head_ref_path()));
    assert(text_at(json, base_ref_path()) == text_at(other, base_ref_path()));
}

/// The merge base that is read from a comparison is the text at
/// `merge_base_commit.sha`, and there is an error exactly where it has none.
pub proof fn law_merge_base_is_the_named_text(
    json: serde_json::Value,
    sha: Result<String, FetchError>,
)
    requires
        merge_base_of(json, sha),
    ensures
        sha matches Ok(s) ==> json_texts(json).contains_pair(
            seq!["merge_base_commit"@, "sha"@],
            s@,
        ),
        sha is Err <==> !json_texts(json).dom().contains(seq!["merge_base_commit"@, "sha"@]),
        sha matches Err(e) ==> e is MissingField && e->field@ == "merge_base_commit.sha"@,
{
}

/// The first document of a resolution is the description of the pull request,
/// on the repository that the base URL names.
pub proof fn law_description_is_asked_for_first<E>(repo: String, pr_number: i64)
    ensures
        (Tc39Stage::<E>::Lookup { repo }).pending(pr_number) == Some(
            "https://api.github.com/repos/"@ + repo@ + "/pulls/"@ + decimal(pr_number as int),
        ),
{
}

/// The comparison that is asked for next is on the same repository, from the
/// branch at `base.ref` to the branch at `head.ref` of the owner at
/// `head.repo.owner.login`, whatever else the description holds. Where the
/// description lacks a text, nothing more is asked for.
pub proof fn law_comparison_names_the_head<E>(
    pr_number: i64,
    repo: String,
    description: serde_json::Value,
    next: Tc39Stage<E>,
    base_ref: Seq<char>,
    head_owner: Seq<char>,
    head_ref: Seq<char>,
)
    requires
        tc39_step(pr_number, (Tc39Stage::<E>::Lookup { repo }), Ok(description), next),
    ensures
        next.pending(pr_number) is Some && json_texts(description).contains_pair(
            seq!["base"@, "ref"@],
            base_ref,
        ) && json_texts(description).contains_pair(
            seq!["head"@, "repo"@, "owner"@, "login"@],
            head_owner,
        ) && json_texts(description).contains_pair(seq!["head"@, "ref"@], head_ref)
            ==> next.pending(pr_number) == Some(
            "https://api.github.com/repos/"@ + repo@ + "/compare/"@ + ref_in_path(
                encode_utf8(base_ref),
            ) + "..."@ + ref_in_path(encode_utf8(head_owner)) + ":"@ + ref_in_path(
                encode_utf8(head_ref),
            ),
        ),
        next.pending(pr_number) is Some <==> {
            let held = json_texts(description).dom();
            &&& held.contains(seq!["head"@, "repo"@, "full_name"@])
            &&& held.contains(seq!["head"@, "sha"@])
            &&& held.contains(seq!["head"@, "repo"@, "owner"@, "login"@])
            &&& held.contains(seq!["head"@, "ref"@])
            &&& held.contains(seq!["base"@, "ref"@])
        },
        next.pending(pr_number) is None ==> (next matches Tc39Stage::Finished(
            Err(Failure::Detected(e)),
        ) && e is MissingField),
{
    match next {
        Tc39Stage::Compare { repo: r, meta } => {
            law_meta_holds_the_named_texts(description, meta);
        },
        Tc39Stage::Finished(Err(Failure::Detected(e))) => {
            law_meta_needs_the_named_texts(description, e);
        },
        _ => {},
    }
}

/// What a pull request resolves to, from its two documents: the head SHA of the
/// description, the merge base of the comparison, and the committed file of the
/// base repository, at the merge base in that repository and at the head in the
/// head repository.
pub proof fn law_preview_comes_from_both_documents<E>(
    pr_number: i64,
    repo: String,
    description: serde_json::Value,
    second: Tc39Stage<E>,
    comparison: serde_json::Value,
    resolved: ResolvedPr,
)
    requires
        tc39_step(pr_number, (Tc39Stage::<E>::Lookup { repo }), Ok(description), second),
        tc39_step(pr_number, second, Ok(comparison), Tc39Stage::<E>::Finished(Ok(resolved))),
    ensures
        ({
            let head_repo = json_texts(description)[seq!["head"@, "repo"@, "full_name"@]];
            let head_sha = json_texts(description)[seq!["head"@, "sha"@]];
            let base_sha = json_texts(comparison)[seq!["merge_base_commit"@, "sha"@]];
            let file = spec_file(repo@);
            &&& json_texts(comparison).dom().contains(seq!["merge_base_commit"@, "sha"@])
            &&& resolved.head_sha@ == head_sha
            &&& resolved.merge_base_sha@ == base_sha
            &&& resolved.base_html_url@ == "https://raw.githubusercontent.com/"@ + repo@ + "/"@
                + base_sha + "/"@ + file
            &&& resolved.pages@.len() == 1
            &&& resolved.pages@[0].page_path@ == file
            &&& resolved.pages@[0].url@ == "https://raw.githubusercontent.com/"@ + head_repo + "/"@
                + head_sha + "/"@ + file
            &&& resolved.pages@[0].diff_url is None
        }),
{
    law_meta_holds_the_named_texts(description, second->meta);
}

/// A comparison with a merge base resolves the pull request; one without is
/// refused with the path of what it lacks.
pub proof fn law_comparison_decides<E>(
    pr_number: i64,
    repo: String,
    meta: PrMeta,
    comparison: serde_json::Value,
    next: Tc39Stage<E>,
)
    requires
        tc39_step(pr_number, (Tc39Stage::<E>::Compare { repo, meta }), Ok(comparison), next),
    ensures
        json_texts(comparison).dom().contains(seq!["merge_base_commit"@, "sha"@])
            <==> next matches Tc39Stage::Finished(Ok(_)),
        !json_texts(comparison).dom().contains(seq!["merge_base_commit"@, "sha"@])
            ==> (next matches Tc39Stage::Finished(Err(Failure::Detected(e))) && e is MissingField
            && e->field@ == "merge_base_commit.sha"@),
{
}

/// A document that cannot be had ends the resolution with that failure and with
/// what was looked up.
pub proof fn law_failed_lookups_say_what_failed<E>(
    pr_number: i64,
    repo: String,
    meta: PrMeta,
    failure: E,
    after_lookup: Tc39Stage<E>,
    after_compare: Tc39Stage<E>,
)
    requires
        tc39_step(pr_number, (Tc39Stage::<E>::Lookup { repo }), Err(failure), after_lookup),
        tc39_step(pr_number, (Tc39Stage::<E>::Compare { repo, meta }), Err(failure), after_compare),
    ensures
        after_lookup matches Tc39Stage::Finished(Err(Failure::During { context, cause }))
            && cause == failure && context.text() == "Failed to fetch PR #"@ + decimal(
            pr_number as int,
        ) + " from "@ + repo@,
        after_compare matches Tc39Stage::Finished(Err(Failure::During { context, cause }))
            && cause == failure && context.text() == "Failed to compute merge base for PR on "@
            + repo@,
{
}

} // verus!
