//! What a run asks of the database, the network, the parser and the clock, and
//! the answers.
//!
//! A run performs nothing itself. At each stage it has one command pending;
//! whoever drives it performs the command and hands the answer back.

use crate::model::{
    ParsedIdlDefinition, ParsedReference, ParsedSection, ParsedSpec, UpdateCheckState,
};
use crate::pr::{PrProvider, ResolvedPr};
use crate::text::texts;
use crate::time::Timestamp;
use vstd::prelude::*;

verus! {

/// Something to be done for a run. Of each command it says which answer
/// belongs to it, besides `Reply::Failed`.
#[derive(Debug)]
pub enum Command<'a> {
    /// Read the clock: `Reply::Clock`. It cannot fail.
    ReadClock,
    /// Insert the specification unless it is stored: `Reply::Id`.
    InsertOrGetSpec { name: &'a str, base_url: &'a str, provider: &'a str },
    /// Find the latest snapshot of a specification: `Reply::Found`.
    GetSnapshot { spec_name: &'a str },
    /// Find the state of the last check: `Reply::UpdateCheck`.
    GetUpdateCheck { spec_id: i64 },
    /// Store the state of a check: `Reply::Done`.
    RecordUpdateCheck {
        spec_id: i64,
        checked: &'a str,
        indexed: Option<&'a str>,
        content_hash: Option<&'a str>,
        index_version: Option<&'a str>,
    },
    /// Fetch the live page of a specification: `Reply::Html`.
    FetchLive { base_url: &'a str },
    /// Fetch the page at a URL: `Reply::Html`.
    FetchPage { url: &'a str },
    /// Parse a page: `Reply::Parsed`.
    ParseSpec { html: &'a str, spec_name: &'a str, base_url: &'a str },
    /// Delete all that is stored of a specification: `Reply::Done`.
    DeleteSpecData { spec_id: i64 },
    /// Insert a snapshot: `Reply::Id`.
    InsertSnapshot { spec_id: i64, sha: &'a str, commit_date: &'a str },
    /// Insert the sections of a snapshot: `Reply::Done`.
    InsertSections { snapshot_id: i64, sections: &'a Vec<ParsedSection> },
    /// Insert the references of a snapshot: `Reply::Done`.
    InsertReferences { snapshot_id: i64, references: &'a Vec<ParsedReference> },
    /// Insert the interface definitions of a snapshot: `Reply::Done`.
    InsertIdlDefinitions { snapshot_id: i64, idl_definitions: &'a Vec<ParsedIdlDefinition> },
    /// Find the snapshot of a pull request, with the SHA of its merge base:
    /// `Reply::PrSnapshot`.
    GetPrSnapshot { spec_name: &'a str, pr_number: i64 },
    /// Find the snapshot of a commit: `Reply::Found`.
    GetCommitSnapshot { spec_id: i64, sha: &'a str },
    /// Read the index version that produced a snapshot: `Reply::Version`.
    ReadIndexVersion { snapshot_id: i64 },
    /// Count the sections of a snapshot: `Reply::Count`.
    CountSections { snapshot_id: i64 },
    /// Read when a snapshot was indexed: `Reply::Text`.
    ReadIndexedAt { snapshot_id: i64 },
    /// Read the key of a snapshot: `Reply::Text`.
    ReadSha { snapshot_id: i64 },
    /// Resolve a pull request to the pages of its preview: `Reply::Resolved`.
    Resolve { resolver: PrProvider, spec_name: &'a str, base_url: &'a str, pr_number: i64 },
    /// Delete what is stored of a pull request: `Reply::Done`.
    DeletePrData { spec_id: i64, pr_number: i64 },
    /// Delete the snapshot of a commit: `Reply::Done`.
    DeleteCommitSnapshot { snapshot_id: i64 },
    /// Insert the snapshot of a pull request: `Reply::Id`.
    InsertPrSnapshot {
        spec_id: i64,
        sha: &'a str,
        commit_date: &'a str,
        pr_number: i64,
        merge_base_sha: &'a str,
        page_paths: &'a Vec<String>,
    },
}

/// The answer to a command.
#[derive(Debug)]
pub enum Reply<E> {
    Failed(E),
    Done,
    Id(i64),
    Found(Option<i64>),
    UpdateCheck(Option<UpdateCheckState>),
    Clock(Timestamp),
    Html(String),
    Parsed(ParsedSpec),
    PrSnapshot(Option<(i64, String)>),
    Version(Option<String>),
    Count(i64),
    Text(String),
    Resolved(ResolvedPr),
}

/// A command with its texts as sequences of characters.
pub enum Ask {
    ReadClock,
    InsertOrGetSpec { name: Seq<char>, base_url: Seq<char>, provider: Seq<char> },
    GetSnapshot { spec_name: Seq<char> },
    GetUpdateCheck { spec_id: i64 },
    RecordUpdateCheck {
        spec_id: i64,
        checked: Seq<char>,
        indexed: Option<Seq<char>>,
        content_hash: Option<Seq<char>>,
        index_version: Option<Seq<char>>,
    },
    FetchLive { base_url: Seq<char> },
    FetchPage { url: Seq<char> },
    ParseSpec { html: Seq<char>, spec_name: Seq<char>, base_url: Seq<char> },
    DeleteSpecData { spec_id: i64 },
    InsertSnapshot { spec_id: i64, sha: Seq<char>, commit_date: Seq<char> },
    InsertSections { snapshot_id: i64, sections: Seq<ParsedSection> },
    InsertReferences { snapshot_id: i64, references: Seq<ParsedReference> },
    InsertIdlDefinitions { snapshot_id: i64, idl_definitions: Seq<ParsedIdlDefinition> },
    GetPrSnapshot { spec_name: Seq<char>, pr_number: i64 },
    GetCommitSnapshot { spec_id: i64, sha: Seq<char> },
    ReadIndexVersion { snapshot_id: i64 },
    CountSections { snapshot_id: i64 },
    ReadIndexedAt { snapshot_id: i64 },
    ReadSha { snapshot_id: i64 },
    Resolve { resolver: PrProvider, spec_name: Seq<char>, base_url: Seq<char>, pr_number: i64 },
    DeletePrData { spec_id: i64, pr_number: i64 },
    DeleteCommitSnapshot { snapshot_id: i64 },
    InsertPrSnapshot {
        spec_id: i64,
        sha: Seq<char>,
        commit_date: Seq<char>,
        pr_number: i64,
        merge_base_sha: Seq<char>,
        page_paths: Seq<Seq<char>>,
    },
}

/// A text that may be missing, by its characters.
pub open spec fn optional_text(text: Option<&str>) -> Option<Seq<char>> {
    match text {
        Some(t) => Some(t@),
        None => None,
    }
}

impl<'a> View for Command<'a> {
    type V = Ask;

    open spec fn view(&self) -> Ask {
        match *self {
            Command::ReadClock => Ask::ReadClock,
            Command::InsertOrGetSpec { name, base_url, provider } => Ask::InsertOrGetSpec {
                name: name@,
                base_url: base_url@,
                provider: provider@,
            },
            Command::GetSnapshot { spec_name } => Ask::GetSnapshot { spec_name: spec_name@ },
            Command::GetUpdateCheck { spec_id } => Ask::GetUpdateCheck { spec_id },
            Command::RecordUpdateCheck {
                spec_id,
                checked,
                indexed,
                content_hash,
                index_version,
            } => Ask::RecordUpdateCheck {
                spec_id,
                checked: checked@,
                indexed: optional_text(indexed),
                content_hash: optional_text(content_hash),
                index_version: optional_text(index_version),
            },
            Command::FetchLive { base_url } => Ask::FetchLive { base_url: base_url@ },
            Command::FetchPage { url } => Ask::FetchPage { url: url@ },
            Command::ParseSpec { html, spec_name, base_url } => Ask::ParseSpec {
                html: html@,
                spec_name: spec_name@,
                base_url: base_url@,
            },
            Command::DeleteSpecData { spec_id } => Ask::DeleteSpecData { spec_id },
            Command::InsertSnapshot { spec_id, sha, commit_date } => Ask::InsertSnapshot {
                spec_id,
                sha: sha@,
                commit_date: commit_date@,
            },
            Command::InsertSections { snapshot_id, sections } => Ask::InsertSections {
                snapshot_id,
                sections: sections@,
            },
            Command::InsertReferences { snapshot_id, references } => Ask::InsertReferences {
                snapshot_id,
                references: references@,
            },
            Command::InsertIdlDefinitions {
                snapshot_id,
                idl_definitions,
            } => Ask::InsertIdlDefinitions { snapshot_id, idl_definitions: idl_definitions@ },
            Command::GetPrSnapshot { spec_name, pr_number } => Ask::GetPrSnapshot {
                spec_name: spec_name@,
                pr_number,
            },
            Command::GetCommitSnapshot { spec_id, sha } => Ask::GetCommitSnapshot {
                spec_id,
                sha: sha@,
            },
            Command::ReadIndexVersion { snapshot_id } => Ask::ReadIndexVersion { snapshot_id },
            Command::CountSections { snapshot_id } => Ask::CountSections { snapshot_id },
            Command::ReadIndexedAt { snapshot_id } => Ask::ReadIndexedAt { snapshot_id },
            Command::ReadSha { snapshot_id } => Ask::ReadSha { snapshot_id },
            Command::Resolve { resolver, spec_name, base_url, pr_number } => Ask::Resolve {
                resolver,
                spec_name: spec_name@,
                base_url: base_url@,
                pr_number,
            },
            Command::DeletePrData { spec_id, pr_number } => Ask::DeletePrData {
                spec_id,
                pr_number,
            },
            Command::DeleteCommitSnapshot { snapshot_id } => Ask::DeleteCommitSnapshot {
                snapshot_id,
            },
            Command::InsertPrSnapshot {
                spec_id,
                sha,
                commit_date,
                pr_number,
                merge_base_sha,
                page_paths,
            } => Ask::InsertPrSnapshot {
                spec_id,
                sha: sha@,
                commit_date: commit_date@,
                pr_number,
                merge_base_sha: merge_base_sha@,
                page_paths: texts(page_paths@),
            },
        }
    }
}

/// `reply` is of the kind that answers `ask`.
pub open spec fn answers<E>(ask: Ask, reply: Reply<E>) -> bool {
    match ask {
        Ask::ReadClock => reply is Clock,
        Ask::InsertOrGetSpec { .. } | Ask::InsertSnapshot { .. } | Ask::InsertPrSnapshot {
            ..
        } => reply is Id || reply is Failed,
        Ask::GetSnapshot { .. } | Ask::GetCommitSnapshot { .. } => reply is Found
            || reply is Failed,
        Ask::GetUpdateCheck { .. } => reply is UpdateCheck || reply is Failed,
        Ask::FetchLive { .. } | Ask::FetchPage { .. } => reply is Html || reply is Failed,
        Ask::ParseSpec { .. } => reply is Parsed || reply is Failed,
        Ask::GetPrSnapshot { .. } => reply is PrSnapshot || reply is Failed,
        Ask::ReadIndexVersion { .. } => reply is Version || reply is Failed,
        Ask::CountSections { .. } => reply is Count || reply is Failed,
        Ask::ReadIndexedAt { .. } | Ask::ReadSha { .. } => reply is Text || reply is Failed,
        Ask::Resolve { .. } => reply is Resolved || reply is Failed,
        _ => reply is Done || reply is Failed,
    }
}

/// A command that goes to the network.
pub open spec fn uses_network(ask: Ask) -> bool {
    ask is FetchLive || ask is FetchPage || ask is Resolve
}

/// A command that removes or adds indexed data.
pub open spec fn changes_index(ask: Ask) -> bool {
    ||| ask is DeleteSpecData
    ||| ask is DeletePrData
    ||| ask is DeleteCommitSnapshot
    ||| ask is InsertSnapshot
    ||| ask is InsertPrSnapshot
    ||| ask is InsertSections
    ||| ask is InsertReferences
    ||| ask is InsertIdlDefinitions
}

/// A text that may be missing is missing or there with all its characters.
pub proof fn law_optional_texts_are_kept(text: &str)
    ensures
        optional_text(None) == None::<Seq<char>>,
        optional_text(Some(text)) == Some(text@),
{
}

/// What a command that looks something up, or reads it, asks for is what its
/// fields hold.
pub proof fn law_lookups_ask_for_their_fields(command: Command<'_>)
    ensures
        command is ReadClock ==> command@ is ReadClock,
        command matches Command::GetSnapshot { spec_name } ==> command@ == (Ask::GetSnapshot {
            spec_name: spec_name@,
        }),
        command matches Command::GetUpdateCheck { spec_id } ==> command@ == (Ask::GetUpdateCheck {
            spec_id,
        }),
        command matches Command::FetchLive { base_url } ==> command@ == (Ask::FetchLive {
            base_url: base_url@,
        }),
        command matches Command::FetchPage { url } ==> command@ == (Ask::FetchPage { url: url@ }),
        command matches Command::ParseSpec { html, spec_name, base_url } ==> command@ == (
        Ask::ParseSpec { html: html@, spec_name: spec_name@, base_url: base_url@ }),
        command matches Command::GetPrSnapshot { spec_name, pr_number } ==> command@ == (
        Ask::GetPrSnapshot { spec_name: spec_name@, pr_number }),
        command matches Command::GetCommitSnapshot { spec_id, sha } ==> command@ == (
        Ask::GetCommitSnapshot { spec_id, sha: sha@ }),
        command matches Command::ReadIndexVersion { snapshot_id } ==> command@ == (
        Ask::ReadIndexVersion { snapshot_id }),
        command matches Command::CountSections { snapshot_id } ==> command@ == (
        Ask::CountSections { snapshot_id }),
        command matches Command::ReadIndexedAt { snapshot_id } ==> command@ == (
        Ask::ReadIndexedAt { snapshot_id }),
        command matches Command::ReadSha { snapshot_id } ==> command@ == (Ask::ReadSha {
            snapshot_id,
        }),
        command matches Command::Resolve { resolver, spec_name, base_url, pr_number }
            ==> command@ == (Ask::Resolve {
            resolver,
            spec_name: spec_name@,
            base_url: base_url@,
            pr_number,
        }),
{
}

/// What a command that stores or deletes something asks for is what its fields
/// hold.
pub proof fn law_changes_ask_for_their_fields(command: Command<'_>)
    ensures
        command matches Command::InsertOrGetSpec { name, base_url, provider } ==> command@ == (
        Ask::InsertOrGetSpec { name: name@, base_url: base_url@, provider: provider@ }),
        command matches Command::RecordUpdateCheck {
            spec_id,
            checked,
            indexed,
            content_hash,
            index_version,
        } ==> command@ == (Ask::RecordUpdateCheck {
            spec_id,
            checked: checked@,
            indexed: optional_text(indexed),
            content_hash: optional_text(content_hash),
            index_version: optional_text(index_version),
        }),
        command matches Command::DeleteSpecData { spec_id } ==> command@ == (Ask::DeleteSpecData {
            spec_id,
        }),
        command matches Command::InsertSnapshot { spec_id, sha, commit_date } ==> command@ == (
        Ask::InsertSnapshot { spec_id, sha: sha@, commit_date: commit_date@ }),
        command matches Command::InsertSections { snapshot_id, sections } ==> command@ == (
        Ask::InsertSections { snapshot_id, sections: sections@ }),
        command matches Command::InsertReferences { snapshot_id, references } ==> command@ == (
        Ask::InsertReferences { snapshot_id, references: references@ }),
        command matches Command::InsertIdlDefinitions { snapshot_id, idl_definitions }
            ==> command@ == (Ask::InsertIdlDefinitions {
            snapshot_id,
            idl_definitions: idl_definitions@,
        }),
        command matches Command::DeletePrData { spec_id, pr_number } ==> command@ == (
        Ask::DeletePrData { spec_id, pr_number }),
        command matches Command::DeleteCommitSnapshot { snapshot_id } ==> command@ == (
        Ask::DeleteCommitSnapshot { snapshot_id }),
        command matches Command::InsertPrSnapshot {
            spec_id,
            sha,
            commit_date,
            pr_number,
            merge_base_sha,
            page_paths,
        } ==> command@ == (Ask::InsertPrSnapshot {
            spec_id,
            sha: sha@,
            commit_date: commit_date@,
            pr_number,
            merge_base_sha: merge_base_sha@,
            page_paths: texts(page_paths@),
        }),
{
}

/// Every command but the one that reads the clock may fail, and a run takes the
/// failure. Besides it takes what the command is to find, whatever that is.
pub proof fn law_every_answer_is_taken<E>(
    ask: Ask,
    failure: E,
    id: i64,
    found: Option<i64>,
    check: Option<UpdateCheckState>,
    text: String,
    parsed: ParsedSpec,
    snapshot: Option<(i64, String)>,
    version: Option<String>,
    resolved: ResolvedPr,
    now: Timestamp,
)
    ensures
        answers(ask, Reply::Failed(failure)) <==> !(ask is ReadClock),
        answers(ask, Reply::<E>::Clock(now)) <==> ask is ReadClock,
        answers(ask, Reply::<E>::Id(id)) <==> ask is InsertOrGetSpec || ask is InsertSnapshot
            || ask is InsertPrSnapshot,
        answers(ask, Reply::<E>::Found(found)) <==> ask is GetSnapshot || ask is GetCommitSnapshot,
        answers(ask, Reply::<E>::UpdateCheck(check)) <==> ask is GetUpdateCheck,
        answers(ask, Reply::<E>::Html(text)) <==> ask is FetchLive || ask is FetchPage,
        answers(ask, Reply::<E>::Parsed(parsed)) <==> ask is ParseSpec,
        answers(ask, Reply::<E>::PrSnapshot(snapshot)) <==> ask is GetPrSnapshot,
        answers(ask, Reply::<E>::Version(version)) <==> ask is ReadIndexVersion,
        answers(ask, Reply::<E>::Count(id)) <==> ask is CountSections,
        answers(ask, Reply::<E>::Text(text)) <==> ask is ReadIndexedAt || ask is ReadSha,
        answers(ask, Reply::<E>::Resolved(resolved)) <==> ask is Resolve,
        answers(ask, Reply::<E>::Done) <==> ask is RecordUpdateCheck || changes_index(ask)
            && !(ask is InsertSnapshot) && !(ask is InsertPrSnapshot),
{
}

/// Only fetching pages and resolving pull requests needs the network; what
/// changes an index are its deletions and the insertions into it.
pub proof fn law_kinds_of_commands(ask: Ask)
    ensures
        uses_network(ask) <==> ask is FetchLive || ask is FetchPage || ask is Resolve,
        changes_index(ask) <==> ask is DeleteSpecData || ask is DeletePrData
            || ask is DeleteCommitSnapshot || ask is InsertSnapshot || ask is InsertPrSnapshot
            || ask is InsertSections || ask is InsertReferences || ask is InsertIdlDefinitions,
{
}

} // verus!
