//! Previews of pull requests, whatever provider they come from.

use crate::encode::{
    decimal, decimal_text, law_decimal_is_injective, law_decimal_reads_back, numeral_value,
};
use crate::error::FetchError;
use crate::model::INDEX_VERSION;
use crate::sync::{check_version, is_current_version};
use crate::text::same_text;
use vstd::prelude::*;
use vstd::string::*;

verus! {

/// A single preview page to fetch and index.
#[derive(Debug, Clone)]
pub struct PrPage {
    pub page_path: String,
    pub url: String,
    pub diff_url: Option<String>,
}

/// A preview resolved to the URLs to fetch.
#[derive(Debug, Clone)]
pub struct ResolvedPr {
    /// The provider's identifier of the head, stored in the key of the
    /// snapshot.
    pub head_sha: String,
    /// Full SHA of the merge base, the key of its snapshot.
    pub merge_base_sha: String,
    /// Where the build of the merge base is served.
    pub base_html_url: String,
    /// The pages of the build of the pull request.
    pub pages: Vec<PrPage>,
}

/// The providers whose pull requests can be previewed.
#[derive(Debug, Clone, Copy, PartialEq, Eq, Structural)]
pub enum PrProvider {
    Whatwg,
}

/// The provider that resolves pull requests for `provider`.
pub fn resolver_for(provider: &str) -> (resolver: Result<PrProvider, FetchError>)
    ensures
        match resolver {
            Ok(PrProvider::Whatwg) => provider@ == "whatwg"@,
            Err(FetchError::UnsupportedProvider { provider: p }) => provider@ != "whatwg"@ && p@
                == provider@,
            Err(_) => false,
        },
{
    if same_text(provider, "whatwg") {
        Ok(PrProvider::Whatwg)
    } else {
        Err(FetchError::UnsupportedProvider { provider: provider.to_owned() })
    }
}

/// A snapshot's index version could be read and is that of this build.
pub open spec fn snapshot_current<E>(index_version: Result<Option<String>, E>) -> bool {
    index_version matches Ok(version) && is_current_version(version)
}

/// Whether a snapshot was produced by this build, by what came of reading its
/// index version. One whose version is of another form, or cannot be read, is
/// stale.
pub fn snapshot_index_is_current<E>(index_version: &Result<Option<String>, E>) -> (current: bool)
    ensures
        current == snapshot_current(*index_version),
{
    match index_version {
        Ok(version) => check_version(version),
        Err(_) => false,
    }
}

/// The sections of a snapshot could be counted, and it has some.
pub open spec fn has_sections<E>(section_count: Result<i64, E>) -> bool {
    section_count matches Ok(count) && count > 0
}

pub(crate) fn counts_sections<E>(section_count: &Result<i64, E>) -> (some: bool)
    ensures
        some == has_sections(*section_count),
{
    match section_count {
        Ok(count) => *count > 0,
        Err(_) => false,
    }
}

/// Whether the snapshot of a pull request can be served, by what came of
/// reading its index version and of counting its sections: this build produced
/// it, and it is not empty.
pub fn is_pr_snapshot_valid<E>(
    index_version: &Result<Option<String>, E>,
    section_count: &Result<i64, E>,
) -> (valid: bool)
    ensures
        valid == (snapshot_current(*index_version) && has_sections(*section_count)),
{
    snapshot_index_is_current(index_version) && counts_sections(section_count)
}

/// The key of the snapshot of a pull request at a head.
pub open spec fn pr_key(pr_number: int, head_sha: Seq<char>) -> Seq<char> {
    "pr:"@ + decimal(pr_number) + ":"@ + head_sha
}

/// The key under which the snapshot of a pull request at a head is stored.
pub fn pr_snapshot_key(pr_number: i64, head_sha: &str) -> (key: String)
    ensures
        key@ == pr_key(pr_number as int, head_sha@),
{
    String::from_str("pr:").concat(decimal_text(pr_number).as_str()).concat(":").concat(head_sha)
}

/// The key of a snapshot ends with its head: while the head stays the same,
/// the snapshot is found to be that of the head.
pub proof fn law_key_ends_with_head(pr_number: int, head_sha: Seq<char>)
    ensures
        head_sha.is_suffix_of(pr_key(pr_number, head_sha)),
{
    let key = pr_key(pr_number, head_sha);
    assert(key.subrange(key.len() - head_sha.len(), key.len() as int) =~= head_sha);
}

/// A key tells the pull request and the head that it stands for.
pub proof fn law_keys_are_distinct(
    pr_number: int,
    head_sha: Seq<char>,
    other_number: int,
    other_sha: Seq<char>,
)
    requires
        pr_key(pr_number, head_sha) == pr_key(other_number, other_sha),
    ensures
        pr_number == other_number,
        head_sha == other_sha,
{
    let key = pr_key(pr_number, head_sha);
    let number = decimal(pr_number);
    let other = decimal(other_number);
    reveal_strlit("pr:");
    reveal_strlit(":");
    law_decimal_is_injective(pr_number, other_number);
    law_decimal_is_injective(other_number, pr_number);
    assert(key[3int + number.len()] == ':');
    assert(key[3int + other.len()] == ':');
    if number.len() < other.len() {
        assert(key[3int + number.len()] == other[number.len() as int]);
    }
    if other.len() < number.len() {
        assert(key[3int + other.len()] == number[other.len() as int]);
    }
    assert forall|i: int| 0 <= i < number.len() implies number[i] == other[i] by {
        assert(key[3 + i] == number[i]);
        assert(key[3 + i] == other[i]);
    }
    assert(number =~= other);
    assert(key.skip(4int + number.len()) =~= head_sha);
    assert(key.skip(4int + other.len()) =~= other_sha);
}

/// A snapshot is of this build exactly where a version could be read and is,
/// character for character, the index version of this build.
pub proof fn law_snapshot_version_must_match<E>(index_version: Result<Option<String>, E>)
    ensures
        snapshot_current(index_version) <==> index_version is Ok && index_version->Ok_0 is Some
            && index_version->Ok_0->0@ == INDEX_VERSION@,
{
}

/// A snapshot has sections exactly where they could be counted and are at least
/// one.
pub proof fn law_sections_must_be_counted<E>(section_count: Result<i64, E>)
    ensures
        has_sections(section_count) <==> section_count is Ok && section_count->Ok_0 >= 1,
{
}

/// A key begins with `pr:`, then holds the number of the pull request, from
/// which it can be read, then a colon and the head, whole.
pub proof fn law_key_holds_number_and_head(pr_number: int, head_sha: Seq<char>)
    ensures
        ({
            let key = pr_key(pr_number, head_sha);
            let number = key.subrange(3, key.len() - head_sha.len() - 1);
            &&& key.len() > 4 + head_sha.len()
            &&& key[0] == 'p' && key[1] == 'r' && key[2] == ':'
            &&& number == decimal(pr_number)
            &&& pr_number >= 0 ==> numeral_value(number) == pr_number
            &&& pr_number < 0 ==> number[0] == '-' && numeral_value(number.skip(1)) == -pr_number
            &&& key[key.len() - head_sha.len() - 1] == ':'
            &&& key.skip(key.len() - head_sha.len()) == head_sha
        }),
{
    let key = pr_key(pr_number, head_sha);
    reveal_strlit("pr:");
    reveal_strlit(":");
    law_decimal_reads_back(pr_number);
    law_decimal_is_injective(pr_number, pr_number);
    assert(decimal(pr_number).len() > 0);
    assert(key.subrange(3, key.len() - head_sha.len() - 1) =~= decimal(pr_number));
    assert(key.skip(key.len() - head_sha.len()) =~= head_sha);
}

} // verus!
