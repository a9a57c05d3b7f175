//! Fetching the live page of a specification.

use crate::encode::{hex_value, law_escape_reads_back};
use crate::error::{Failure, FetchError};
use crate::text::{
    finishes_with, holds, law_all_trailing_slashes_are_cut, law_occurrence_parts_text,
    law_part_occurs, lemma_boundary_after, lemma_encoded_prefix, occurs_in, trim_trailing_slashes,
    without_trailing_slashes,
};
use vstd::prelude::*;
use vstd::string::*;
use vstd::utf8::*;

verus! {

/// The live page of a specification: a base URL that names a file is taken as
/// it is, any other is taken as a directory.
pub open spec fn live_page(base_url: Seq<char>) -> Seq<char> {
    if ".html"@.is_suffix_of(base_url) || ".txt"@.is_suffix_of(base_url) {
        base_url
    } else {
        without_trailing_slashes(base_url) + "/"@
    }
}

/// The URL of the live page of a specification.
pub fn live_url(base_url: &str) -> (url: String)
    ensures
        url@ == live_page(base_url@),
{
    if finishes_with(base_url, ".html") || finishes_with(base_url, ".txt") {
        base_url.to_owned()
    } else {
        trim_trailing_slashes(base_url).to_owned().concat("/")
    }
}

/// A page that ReSpec renders in the browser.
pub open spec fn respec_page(html: Seq<char>) -> bool {
    occurs_in(html, "respec-w3c"@) || occurs_in(html, "respec.js"@) || occurs_in(html, "/respec/"@)
}

/// Whether a page is the source of a ReSpec document.
pub fn is_respec_source(html: &str) -> (result: bool)
    ensures
        result == respec_page(html@),
{
    holds(html, "respec-w3c") || holds(html, "respec.js") || holds(html, "/respec/")
}

/// The characters that a byte becomes in a form-encoded value.
pub open spec fn form_piece(byte: u8) -> Seq<char> {
    if byte == 0x20 {
        seq!['+']
    } else if 0x30 <= byte <= 0x39 || 0x41 <= byte <= 0x5a || 0x61 <= byte <= 0x7a
        || "*-._"@.contains(byte as char) {
        seq![byte as char]
    } else {
        crate::encode::percent_escape(byte)
    }
}

/// A byte string as a form-encoded value.
pub open spec fn form_encoded(bytes: Seq<u8>) -> Seq<char>
    decreases bytes.len(),
{
    if bytes.len() == 0 {
        Seq::empty()
    } else {
        form_piece(bytes[0]) + form_encoded(bytes.drop_first())
    }
}

/// `url::form_urlencoded::byte_serialize`, all its pieces in one text: letters,
/// digits and `*-._` stand for themselves, a space becomes `+`, and any other
/// byte its percent escape.
#[verifier::external_body]
fn form_urlencode(bytes: &[u8]) -> (text: String)
    ensures
        text@ == form_encoded(bytes@),
{
    url::form_urlencoded::byte_serialize(bytes).collect()
}

/// Where the W3C generator renders the ReSpec document at a URL.
pub open spec fn generator_text(url: Seq<char>) -> Seq<char> {
    "https://www.w3.org/publications/spec-generator/?type=respec&url="@ + form_encoded(
        encode_utf8(url),
    )
}

/// The URL at which the W3C generator renders the ReSpec document at `url`.
pub fn spec_generator_url(url: &str) -> (api_url: String)
    ensures
        api_url@ == generator_text(url@),
{
    String::from_str("https://www.w3.org/publications/spec-generator/?type=respec&url=").concat(
        form_urlencode(url.as_bytes()).as_str(),
    )
}

/// The characters with the property `White_Space` of Unicode.
pub open spec fn white_space(c: char) -> bool {
    let code = c as u32;
    ||| 0x09 <= code <= 0x0d
    ||| 0x2000 <= code <= 0x200a
    ||| code == 0x20 || code == 0x85 || code == 0xa0 || code == 0x1680
    ||| code == 0x2028 || code == 0x2029 || code == 0x202f || code == 0x205f || code == 0x3000
}

/// `char::is_whitespace` is true of the characters that have the property
/// `White_Space` in the Unicode Character Database.
pub assume_specification[ char::is_whitespace ](c: char) -> (result: bool)
    ensures
        result == white_space(c),
;

/// The first character that is not white space.
pub open spec fn first_visible(text: Seq<char>) -> Option<char>
    decreases text.len(),
{
    if text.len() == 0 {
        None
    } else if white_space(text[0]) {
        first_visible(text.drop_first())
    } else {
        Some(text[0])
    }
}

/// The generator answers with a JSON object where it cannot render.
pub open spec fn generator_report(html: Seq<char>) -> bool {
    first_visible(html) == Some('{')
}

/// How many bytes of a report an error quotes.
pub open spec fn excerpt_len(html: Seq<char>) -> int {
    if encode_utf8(html).len() < 200 {
        encode_utf8(html).len() as int
    } else {
        200
    }
}

/// A report can be quoted where its excerpt does not end inside a character.
pub open spec fn quotable(html: Seq<char>) -> bool {
    generator_report(html) ==> is_char_boundary(encode_utf8(html), excerpt_len(html))
}

fn first_visible_char(text: &str) -> (found: Option<char>)
    ensures
        found == first_visible(text@),
{
    assert(text@.skip(0) =~= text@);
    for c in chars: text.chars()
        invariant
            chars.seq() == text@,
            first_visible(text@) == first_visible(text@.skip(chars.index() as int)),
    {
        let ghost rest = text@.skip(chars.index() as int);
        assert(rest[0] == c);
        assert(rest.drop_first() =~= text@.skip(chars.index() + 1));
        if !c.is_whitespace() {
            return Some(c);
        }
    }
    None
}

fn excerpt_end(html: &str) -> (n: usize)
    ensures
        n == excerpt_len(html@),
{
    if html.as_bytes().len() < 200 {
        html.as_bytes().len()
    } else {
        200
    }
}

/// Whether the generator's answer can be taken: it is not a report whose
/// excerpt would end inside a character.
pub fn is_quotable(html: &str) -> (result: bool)
    ensures
        result == quotable(html@),
{
    match first_visible_char(html) {
        Some('{') => html.is_char_boundary(excerpt_end(html)),
        _ => true,
    }
}

/// What the generator's answer is worth: the page that it rendered, or an
/// error that quotes its report.
pub open spec fn rendered(html: String, outcome: Result<String, FetchError>) -> bool {
    match outcome {
        Ok(page) => !generator_report(html@) && page == html,
        Err(FetchError::GeneratorRejected { excerpt }) => generator_report(html@) && encode_utf8(
            excerpt@,
        ) == encode_utf8(html@).take(excerpt_len(html@)),
        Err(_) => false,
    }
}

/// Takes the generator's answer: the page that it rendered, or an error that
/// quotes the start of its report.
pub fn check_rendered(html: String) -> (outcome: Result<String, FetchError>)
    requires
        quotable(html@),
    ensures
        rendered(html, outcome),
{
    let text = html.as_str();
    match first_visible_char(text) {
        Some('{') => {
            let (excerpt, _) = text.split_at(excerpt_end(text));
            Err(FetchError::GeneratorRejected { excerpt: excerpt.to_owned() })
        },
        _ => Ok(html),
    }
}

/// The statuses that report success.
pub open spec fn is_success_status(status: u16) -> bool {
    200 <= status < 300
}

/// Whether a page came: any status but one of success is an error, which
/// quotes `status_line`.
pub fn check_page_status(url: &str, status: u16, status_line: &str) -> (outcome: Result<
    (),
    FetchError,
>)
    ensures
        match outcome {
            Ok(()) => is_success_status(status),
            Err(FetchError::HttpStatus { url: u, status: s }) => !is_success_status(status) && u@
                == url@ && s@ == status_line@,
            Err(_) => false,
        },
{
    if status >= 200 && status < 300 {
        Ok(())
    } else {
        Err(FetchError::HttpStatus { url: url.to_owned(), status: status_line.to_owned() })
    }
}

/// How a live fetch stands. It asks for one page, and where that is the source
/// of a ReSpec document, for its rendering.
#[derive(Debug)]
pub enum LiveStage<E> {
    /// Waits for the page at `url`.
    Page { url: String },
    /// Waits for the rendering of `raw`, the page at `url`.
    Render { url: String, raw: String },
    /// Over, with the page or the failure to fetch it, and with what went
    /// wrong with the rendering where the page was taken as it came.
    Finished { page: Result<String, E>, warning: Option<Failure<E>> },
}

/// The stage after `stage` where `reply` is the answer to its request.
pub open spec fn live_step<E>(
    stage: LiveStage<E>,
    reply: Result<String, E>,
    next: LiveStage<E>,
) -> bool {
    match (stage, reply) {
        (LiveStage::Page { url }, Ok(html)) => if respec_page(html@) {
            next == (LiveStage::<E>::Render { url, raw: html })
        } else {
            next == (LiveStage::Finished { page: Ok::<String, E>(html), warning: None })
        },
        (LiveStage::Page { .. }, Err(e)) => next == (LiveStage::Finished {
            page: Err::<String, E>(e),
            warning: None,
        }),
        (LiveStage::Render { raw, .. }, Ok(html)) => {
            &&& next matches LiveStage::Finished { page, warning }
            &&& if generator_report(html@) {
                &&& page == Ok::<String, E>(raw)
                &&& warning matches Some(Failure::Detected(e))
                &&& rendered(html, Err(e))
            } else {
                page == Ok::<String, E>(html) && warning is None
            }
        },
        (LiveStage::Render { raw, .. }, Err(e)) => next == (LiveStage::Finished {
            page: Ok::<String, E>(raw),
            warning: Some(Failure::Outside(e)),
        }),
        (LiveStage::Finished { .. }, _) => false,
    }
}

impl<E> LiveStage<E> {
    /// The URL that this stage waits for, if any.
    pub open spec fn pending(&self) -> Option<Seq<char>> {
        match self {
            LiveStage::Page { url } => Some(url@),
            LiveStage::Render { url, .. } => Some(generator_text(url@)),
            LiveStage::Finished { .. } => None,
        }
    }

    /// Begins a live fetch of the specification at `base_url`.
    pub fn start(base_url: &str) -> (stage: LiveStage<E>)
        ensures
            stage matches LiveStage::Page { url } && url@ == live_page(base_url@),
    {
        LiveStage::Page { url: live_url(base_url) }
    }

    /// The URL to get next, or none where the fetch is over.
    pub fn request(&self) -> (url: Option<String>)
        ensures
            match url {
                Some(u) => self.pending() == Some(u@),
                None => self.pending() is None,
            },
    {
        match self {
            LiveStage::Page { url } => Some(url.clone()),
            LiveStage::Render { url, .. } => Some(spec_generator_url(url.as_str())),
            LiveStage::Finished { .. } => None,
        }
    }

    /// Goes on with the answer to the request of this stage.
    pub fn advance(self, reply: Result<String, E>) -> (next: LiveStage<E>)
        requires
            !(self is Finished),
            self is Render ==> (reply matches Ok(html) ==> quotable(html@)),
        ensures
            live_step(self, reply, next),
    {
        match self {
            LiveStage::Page { url } => match reply {
                Ok(html) => {
                    if is_respec_source(html.as_str()) {
                        LiveStage::Render { url, raw: html }
                    } else {
                        LiveStage::Finished { page: Ok(html), warning: None }
                    }
                },
                Err(e) => LiveStage::Finished { page: Err(e), warning: None },
            },
            LiveStage::Render { url: _, raw } => match reply {
                Ok(html) => match check_rendered(html) {
                    Ok(page) => LiveStage::Finished { page: Ok(page), warning: None },
                    Err(e) => LiveStage::Finished {
                        page: Ok(raw),
                        warning: Some(Failure::Detected(e)),
                    },
                },
                Err(e) => LiveStage::Finished { page: Ok(raw), warning: Some(Failure::Outside(e)) },
            },
            LiveStage::Finished { .. } => self,
        }
    }

    /// Goes on with the answer to the request of this stage, unless it is a
    /// report that cannot be quoted.
    pub fn try_advance(self, reply: Result<String, E>) -> (next: Option<LiveStage<E>>)
        requires
            !(self is Finished),
        ensures
            match next {
                Some(stage) => live_step(self, reply, stage),
                None => self is Render && (reply matches Ok(html) && !quotable(html@)),
            },
            self is Render && (reply matches Ok(html) && !quotable(html@)) ==> next is None,
    {
        if let LiveStage::Render { .. } = &self {
            if let Ok(html) = &reply {
                if !is_quotable(html.as_str()) {
                    return None;
                }
            }
        }
        Some(self.advance(reply))
    }
}

/// A live fetch fails only where its first page cannot be fetched, and with
/// that failure: once the page is there, no trouble with the rendering counts.
pub proof fn law_rendering_never_fails_a_live_fetch<E>(
    stage: LiveStage<E>,
    reply: Result<String, E>,
    next: LiveStage<E>,
)
    requires
        live_step(stage, reply, next),
    ensures
        next matches LiveStage::Finished { page: Err(e), .. } ==> stage is Page && reply
            == Err::<String, E>(e),
        stage is Render ==> (next matches LiveStage::Finished { page: Ok(page), .. } && (page
            == stage->raw || reply == Ok::<String, E>(page))),
{
}

/// A live fetch is over after two answers at most.
pub proof fn law_live_fetch_asks_at_most_twice<E>(
    first: LiveStage<E>,
    second: LiveStage<E>,
    third: LiveStage<E>,
    page: Result<String, E>,
    rendering: Result<String, E>,
)
    requires
        first is Page,
        live_step(first, page, second),
        !(second is Finished) ==> live_step(second, rendering, third),
    ensures
        second is Finished || third is Finished,
{
}

/// How to go on after a live fetch.
#[derive(Debug)]
pub enum FetchOutcome {
    /// A fresh page, to be indexed.
    Fresh(String),
    /// The fetch failed, but this cached snapshot can be served.
    ServeCached(i64),
}

/// Decides how to go on after a live fetch. A failed fetch falls back to the
/// cached snapshot only where `allow_fallback` is set and there is one;
/// otherwise its failure is handed on. A forced refresh disallows the fallback,
/// so that failures surface.
pub fn resolve_fetch<E>(
    fetched: Result<String, E>,
    previous_snapshot_id: Option<i64>,
    allow_fallback: bool,
) -> (outcome: Result<FetchOutcome, E>)
    ensures
        outcome == fetch_outcome(fetched, previous_snapshot_id, allow_fallback),
{
    match fetched {
        Ok(html) => Ok(FetchOutcome::Fresh(html)),
        Err(e) => match previous_snapshot_id {
            Some(snapshot_id) => if allow_fallback {
                Ok(FetchOutcome::ServeCached(snapshot_id))
            } else {
                Err(e)
            },
            None => Err(e),
        },
    }
}

/// How to go on after a live fetch.
pub open spec fn fetch_outcome<E>(
    fetched: Result<String, E>,
    previous_snapshot_id: Option<i64>,
    allow_fallback: bool,
) -> Result<FetchOutcome, E> {
    match fetched {
        Ok(html) => Ok(FetchOutcome::Fresh(html)),
        Err(e) => if allow_fallback && previous_snapshot_id is Some {
            Ok(FetchOutcome::ServeCached(previous_snapshot_id->0))
        } else {
            Err(e)
        },
    }
}

/// A base URL that names a page or a text file is the URL of the live page.
pub proof fn law_files_are_live_pages(base_url: Seq<char>)
    ensures
        live_page(base_url + ".html"@) == base_url + ".html"@,
        live_page(base_url + ".txt"@) == base_url + ".txt"@,
{
    let page = base_url + ".html"@;
    let file = base_url + ".txt"@;
    assert(page.subrange(page.len() - ".html"@.len(), page.len() as int) =~= ".html"@);
    assert(file.subrange(file.len() - ".txt"@.len(), file.len() as int) =~= ".txt"@);
}

/// Any other base URL is a directory: with or without slashes at its end, its
/// live page is the same one, with exactly one slash there.
pub proof fn law_directories_have_one_slash(directory: Seq<char>, slashes: Seq<char>)
    requires
        directory.len() == 0 || directory.last() != '/',
        forall|i: int| 0 <= i < slashes.len() ==> #[trigger] slashes[i] == '/',
        !".html"@.is_suffix_of(directory + slashes),
        !".txt"@.is_suffix_of(directory + slashes),
    ensures
        live_page(directory + slashes) == directory + "/"@,
{
    law_all_trailing_slashes_are_cut(directory, slashes);
}

/// A page in which one of three marks stands, whatever stands before and after
/// it, is the source of a ReSpec document.
pub proof fn law_marked_pages_are_respec(before: Seq<char>, after: Seq<char>)
    ensures
        respec_page(before + "respec-w3c"@ + after),
        respec_page(before + "respec.js"@ + after),
        respec_page(before + "/respec/"@ + after),
{
    law_part_occurs(before, "respec-w3c"@, after);
    law_part_occurs(before, "respec.js"@, after);
    law_part_occurs(before, "/respec/"@, after);
}

/// No other page is: one of the marks stands in every source of a ReSpec
/// document.
pub proof fn law_respec_pages_are_marked(html: Seq<char>) -> (parts: (Seq<char>, Seq<char>))
    requires
        respec_page(html),
    ensures
        html == parts.0 + "respec-w3c"@ + parts.1 || html == parts.0 + "respec.js"@ + parts.1
            || html == parts.0 + "/respec/"@ + parts.1,
{
    if occurs_in(html, "respec-w3c"@) {
        law_occurrence_parts_text(html, "respec-w3c"@)
    } else if occurs_in(html, "respec.js"@) {
        law_occurrence_parts_text(html, "respec.js"@)
    } else {
        law_occurrence_parts_text(html, "/respec/"@)
    }
}

/// A live fetch whose page has one of the marks asks the generator for the
/// rendering of that very page; any other page is taken as it came.
pub proof fn law_marked_pages_are_rendered<E>(
    url: String,
    html: String,
    next: LiveStage<E>,
    mark: Seq<char>,
    before: Seq<char>,
    after: Seq<char>,
)
    requires
        live_step((LiveStage::Page { url }), Ok(html), next),
        mark == "respec-w3c"@ || mark == "respec.js"@ || mark == "/respec/"@,
    ensures
        html@ == before + mark + after ==> next == (LiveStage::<E>::Render { url, raw: html })
            && next.pending() == Some(
            "https://www.w3.org/publications/spec-generator/?type=respec&url="@ + form_encoded(
                encode_utf8(url@),
            ),
        ),
        !(next is Finished) ==> occurs_in(html@, "respec-w3c"@) || occurs_in(html@, "respec.js"@)
            || occurs_in(html@, "/respec/"@),
        next is Finished ==> next == (LiveStage::Finished {
            page: Ok::<String, E>(html),
            warning: None,
        }) && next.pending() is None,
{
    law_marked_pages_are_respec(before, after);
    if !(next is Finished) {
        let parts = law_respec_pages_are_marked(html@);
        law_part_occurs(parts.0, "respec-w3c"@, parts.1);
        law_part_occurs(parts.0, "respec.js"@, parts.1);
        law_part_occurs(parts.0, "/respec/"@, parts.1);
    }
}

/// The first request of a live fetch is for its page, and where that fails the
/// fetch ends with the failure.
pub proof fn law_first_request_is_the_page<E>(url: String, failure: E, next: LiveStage<E>)
    requires
        live_step((LiveStage::Page { url }), Err(failure), next),
    ensures
        (LiveStage::<E>::Page { url }).pending() == Some(url@),
        next == (LiveStage::Finished { page: Err::<String, E>(failure), warning: None }),
{
}

/// What a live fetch makes of the generator's answer. A page, which does not
/// begin with a brace, is taken. For a report, which does, and for a failure,
/// the source is taken, and a warning says which it was.
pub proof fn law_renderings_are_taken<E>(
    url: String,
    raw: String,
    reply: Result<String, E>,
    next: LiveStage<E>,
    spaces: Seq<char>,
    first: char,
    rest: Seq<char>,
)
    requires
        live_step((LiveStage::Render { url, raw }), reply, next),
        forall|i: int| 0 <= i < spaces.len() ==> white_space(#[trigger] spaces[i]),
        !white_space(first),
    ensures
        next is Finished,
        reply matches Ok(html) ==> html@ == spaces + seq![first] + rest && first == '{'
            ==> next->page == Ok::<String, E>(raw) && next->warning is Some && next->warning->0
            is Detected && next->warning->0->Detected_0 is GeneratorRejected,
        reply matches Ok(html) ==> html@ == spaces + seq![first] + rest && first != '{'
            ==> next->page == Ok::<String, E>(html) && next->warning is None,
        reply matches Ok(html) ==> html@ == spaces ==> next->page == Ok::<String, E>(html)
            && next->warning is None,
        reply matches Err(e) ==> next->page == Ok::<String, E>(raw) && next->warning == Some(
            Failure::Outside(e),
        ),
{
    law_first_visible_character(spaces, first, rest);
}

/// The first visible character of a text is the one that follows its white
/// space, and there is none in white space alone.
pub proof fn law_first_visible_character(spaces: Seq<char>, first: char, rest: Seq<char>)
    requires
        forall|i: int| 0 <= i < spaces.len() ==> white_space(#[trigger] spaces[i]),
        !white_space(first),
    ensures
        first_visible(spaces + seq![first] + rest) == Some(first),
        first_visible(spaces) is None,
    decreases spaces.len(),
{
    let text = spaces + seq![first] + rest;
    if spaces.len() > 0 {
        let fewer = spaces.drop_first();
        assert forall|i: int| 0 <= i < fewer.len() implies white_space(#[trigger] fewer[i]) by {
            assert(fewer[i] == spaces[i + 1]);
        }
        law_first_visible_character(fewer, first, rest);
        assert(white_space(spaces[0]));
        assert(text.drop_first() =~= fewer + seq![first] + rest);
    } else {
        assert(text[0] == first);
    }
}

/// A report is quoted from its beginning: the excerpt is what the report begins
/// with, all of it up to 200 bytes, or else 200 bytes of it.
pub proof fn law_excerpt_begins_the_report(html: String, excerpt: String)
    requires
        rendered(html, Err(FetchError::GeneratorRejected { excerpt })),
    ensures
        excerpt@.is_prefix_of(html@),
        encode_utf8(html@).len() <= 200 ==> excerpt@ == html@,
        encode_utf8(html@).len() > 200 ==> encode_utf8(excerpt@).len() == 200,
{
    let n = excerpt_len(html@);
    assert(encode_utf8(html@).subrange(0, n) =~= encode_utf8(html@).take(n));
    lemma_encoded_prefix(html@, excerpt@);
    assert(excerpt@ =~= html@.subrange(0, excerpt@.len() as int));
    if encode_utf8(html@).len() <= 200 {
        assert(encode_utf8(html@).take(n) =~= encode_utf8(html@));
        assert(encode_utf8(excerpt@).subrange(0, n) =~= encode_utf8(html@));
        lemma_encoded_prefix(excerpt@, html@);
        assert(excerpt@ =~= html@);
    }
}

/// A page comes with a status of the two hundreds, and only with one of those.
pub proof fn law_success_statuses(status: u16)
    ensures
        is_success_status(status) <==> status / 100 == 2,
{
}

/// A form-encoded value is written piece by piece.
pub proof fn law_forms_are_written_piece_by_piece(a: Seq<u8>, b: Seq<u8>)
    ensures
        form_encoded(a + b) == form_encoded(a) + form_encoded(b),
        form_encoded(Seq::empty()) == Seq::<char>::empty(),
    decreases a.len(),
{
    if a.len() == 0 {
        assert(a + b =~= b);
        assert(form_encoded(a) + form_encoded(b) =~= form_encoded(b));
    } else {
        law_forms_are_written_piece_by_piece(a.drop_first(), b);
        assert((a + b).drop_first() =~= a.drop_first() + b);
        assert(form_encoded(a + b) =~= form_encoded(a) + form_encoded(b));
    }
}

/// One byte of a form-encoded value: digits, letters and four marks are written
/// as themselves, a space as a plus sign, and every other byte as the percent
/// sign and its two digits.
pub proof fn law_each_byte_of_a_form(byte: u8)
    ensures
        ({
            let text = form_encoded(seq![byte]);
            let plain = 48 <= byte <= 57 || 65 <= byte <= 90 || 97 <= byte <= 122 || byte == 42
                || byte == 45 || byte == 46 || byte == 95;
            if plain {
                text == seq![byte as char]
            } else if byte == 32 {
                text == seq!['+']
            } else {
                &&& text.len() == 3
                &&& text[0] == '%'
                &&& 16 * hex_value(text[1]) + hex_value(text[2]) == byte
                &&& text[1] <= 'F' && text[2] <= 'F'
            }
        }),
{
    law_escape_reads_back(byte);
    assert(seq![byte].drop_first() =~= Seq::empty());
    reveal_with_fuel(form_encoded, 2);
    assert(form_encoded(seq![byte]) =~= form_piece(byte));
    reveal_strlit("*-._");
    let marks = "*-._"@;
    assert(marks[0] == '*' && marks[1] == '-' && marks[2] == '.' && marks[3] == '_');
}

/// A page that came is indexed, whatever is cached. For one that did not, the
/// cached snapshot is served where there is one and that is allowed; otherwise
/// the failure is handed on as it is.
pub proof fn law_fallback_needs_a_cache_and_leave<E>(
    html: String,
    failure: E,
    snapshot_id: i64,
    previous: Option<i64>,
    allow_fallback: bool,
)
    ensures
        fetch_outcome(Ok::<String, E>(html), previous, allow_fallback) == Ok::<FetchOutcome, E>(
            FetchOutcome::Fresh(html),
        ),
        fetch_outcome(Err::<String, E>(failure), Some(snapshot_id), true) == Ok::<FetchOutcome, E>(
            FetchOutcome::ServeCached(snapshot_id),
        ),
        fetch_outcome(Err::<String, E>(failure), None, allow_fallback) == Err::<FetchOutcome, E>(
            failure,
        ),
        fetch_outcome(Err::<String, E>(failure), previous, false) == Err::<FetchOutcome, E>(
            failure,
        ),
{
}

/// A report is what begins, after white space, with a brace; what begins with
/// anything else, or is white space alone, is a page.
pub proof fn law_reports_begin_with_a_brace(spaces: Seq<char>, first: char, rest: Seq<char>)
    requires
        forall|i: int| 0 <= i < spaces.len() ==> white_space(#[trigger] spaces[i]),
        !white_space(first),
    ensures
        generator_report(spaces + seq![first] + rest) <==> first == '{',
        !generator_report(spaces),
{
    law_first_visible_character(spaces, first, rest);
}

/// Every page can be taken, and every report of at most 200 bytes. A longer one
/// can be exactly where its first 200 bytes are whole characters.
pub proof fn law_what_can_be_quoted(html: Seq<char>, excerpt: Seq<char>, rest: Seq<char>)
    ensures
        !generator_report(html) ==> quotable(html),
        encode_utf8(html).len() <= 200 ==> quotable(html),
        html == excerpt + rest && encode_utf8(excerpt).len() == 200 ==> quotable(html),
        generator_report(html) && encode_utf8(html).len() > 200 && quotable(html)
            ==> is_char_boundary(encode_utf8(html), 200),
{
    encode_utf8_valid_utf8(html);
    is_char_boundary_start_end_of_seq(encode_utf8(html));
    lemma_boundary_after(excerpt, rest);
}

} // verus!
