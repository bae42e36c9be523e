//! Extraction results and the response that gathers them, built in input
//! order with one result per input.

use vstd::prelude::*;
use crate::ids::{
    file_source, is_uuid_v4_text, make_result_id, result_id, url_source, uuid_v4_text,
};
use crate::error::UserError;
use crate::text::{decimal, is_plain_component, is_reserved_name, plain_file_name, push_decimal, sanitized};

verus! {

/// One metadata field reported by the extractor, with all its values.
#[derive(Debug)]
pub struct MetadataEntry {
    pub key: String,
    pub values: Vec<String>,
}

/// What the extractor gave back for one input.
#[derive(Debug)]
pub enum ExtractionOutcome {
    /// The text and metadata of the document.
    Extracted { text: String, metadata: Vec<MetadataEntry> },
    /// The extractor failed; `reason` is its error message.
    Failed { reason: String },
}

/// One extraction attempt together with the time it took.
#[derive(Debug)]
pub struct Attempt {
    pub outcome: ExtractionOutcome,
    pub processing_time_ms: u64,
}

/// The extracted content for a single URL or file.
#[derive(Debug)]
pub struct ExtractionResult {
    pub id: String,
    pub url: Option<String>,
    pub file_name: Option<String>,
    /// Position of the input in the request, counted from 0.
    pub input_index: usize,
    pub extracted_text: String,
    /// `None` stands for a JSON `null`: the extraction failed.
    pub metadata: Option<Vec<MetadataEntry>>,
    pub processing_time_ms: u64,
    pub error: Option<String>,
}

/// The overall response for one request.
#[derive(Debug)]
pub struct ExtractionResponse {
    pub request_id: String,
    pub results: Vec<ExtractionResult>,
    pub total_processing_time_ms: u64,
    pub total_files_processed: usize,
    pub successful_extractions: usize,
    pub failed_extractions: usize,
}

/// No two metadata entries share a key.
pub open spec fn keys_distinct(entries: Seq<MetadataEntry>) -> bool {
    forall|i: int, j: int|
        0 <= i < entries.len() && 0 <= j < entries.len() && i != j ==> #[trigger] entries[i].key@
            != #[trigger] entries[j].key@
}

/// An outcome as the extractor gives it: the metadata of a successful
/// extraction is a map, so its keys are distinct.
pub open spec fn outcome_well_formed(outcome: ExtractionOutcome) -> bool {
    match outcome {
        ExtractionOutcome::Extracted { metadata, .. } => keys_distinct(metadata@),
        ExtractionOutcome::Failed { .. } => true,
    }
}

/// The metadata of `r`, when it has any, has distinct keys.
pub open spec fn metadata_well_formed(r: ExtractionResult) -> bool {
    r.metadata matches Some(m) ==> keys_distinct(m@)
}

/// Whether the keys of `entries` are pairwise distinct.
pub fn metadata_keys_distinct(entries: &Vec<MetadataEntry>) -> (b: bool)
    ensures
        b == keys_distinct(entries@),
{
    let n = entries.len();
    let mut i: usize = 0;
    while i < n
        invariant
            n == entries@.len(),
            i <= n,
            forall|a: int, b: int|
                0 <= a < i && 0 <= b < n && a != b ==> #[trigger] entries@[a].key@
                    != #[trigger] entries@[b].key@,
        decreases n - i,
    {
        let mut j: usize = 0;
        while j < n
            invariant
                n == entries@.len(),
                i < n,
                j <= n,
                forall|a: int, b: int|
                    0 <= a < i && 0 <= b < n && a != b ==> #[trigger] entries@[a].key@
                        != #[trigger] entries@[b].key@,
                forall|b: int| 0 <= b < j && b != i ==> entries@[i as int].key@ != #[trigger] entries@[b].key@,
            decreases n - j,
        {
            if j != i && entries[i].key == entries[j].key {
                assert(entries@[i as int].key@ == entries@[j as int].key@);
                return false;
            }
            j = j + 1;
        }
        i = i + 1;
    }
    true
}

/// The prefix of the error text of a failed extraction.
pub open spec fn failure_prefix() -> Seq<char> {
    "Extraction failed: "@
}

/// `r` carries what `outcome` reports: on success the text, the metadata and
/// no error; on failure an empty text, `null` metadata and the error
/// `Extraction failed: <reason>`.
pub open spec fn reports_outcome(r: ExtractionResult, outcome: ExtractionOutcome) -> bool {
    match outcome {
        ExtractionOutcome::Extracted { text, metadata } => {
            &&& r.extracted_text == text
            &&& r.metadata == Some(metadata)
            &&& r.error is None
        },
        ExtractionOutcome::Failed { reason } => {
            &&& r.extracted_text@ == Seq::<char>::empty()
            &&& r.metadata is None
            &&& r.error matches Some(e) && e@ == failure_prefix() + reason@
        },
    }
}

/// The name under which a file without a name in its upload is reported:
/// `unknown_file_<n>`, with `n` counted from 1.
pub open spec fn unnamed_file(index: nat) -> Seq<char> {
    "unknown_file_"@ + decimal(index + 1)
}

/// The reported name of the file at `index`: the uploaded name as given, or
/// `unknown_file_<index + 1>` when the upload names none.
pub open spec fn display_name(index: nat, uploaded: Option<String>) -> Seq<char> {
    match uploaded {
        Some(name) => name@,
        None => unnamed_file(index),
    }
}

/// `r` is the result for the URL `url` at position `index` of the request.
pub open spec fn is_url_result(
    r: ExtractionResult,
    request_id: Seq<char>,
    index: nat,
    url: Seq<char>,
    attempt: Attempt,
) -> bool {
    &&& r.id@ == result_id(request_id, url_source(), index)
    &&& r.url matches Some(u) && u@ == url
    &&& r.file_name is None
    &&& r.input_index == index
    &&& r.processing_time_ms == attempt.processing_time_ms
    &&& reports_outcome(r, attempt.outcome)
}

/// `r` is the result for the uploaded file at position `index`, reported
/// under the name `name`.
pub open spec fn is_file_result(
    r: ExtractionResult,
    request_id: Seq<char>,
    index: nat,
    name: Seq<char>,
    attempt: Attempt,
) -> bool {
    &&& r.id@ == result_id(request_id, file_source(), index)
    &&& r.url is None
    &&& r.file_name matches Some(f) && f@ == name
    &&& r.input_index == index
    &&& r.processing_time_ms == attempt.processing_time_ms
    &&& reports_outcome(r, attempt.outcome)
}

/// `r` sits at `index` of the request `request_id`: its input index is its
/// position and its identifier is derived from both.
pub open spec fn is_indexed(r: ExtractionResult, request_id: Seq<char>, index: nat) -> bool {
    &&& r.input_index == index
    &&& {
        ||| r.url is Some && r.file_name is None && r.id@ == result_id(
            request_id,
            url_source(),
            index,
        )
        ||| r.url is None && r.file_name is Some && r.id@ == result_id(
            request_id,
            file_source(),
            index,
        )
    }
}

/// The number of results without an error.
pub open spec fn count_successful(rs: Seq<ExtractionResult>) -> nat
    decreases rs.len(),
{
    if rs.len() == 0 {
        0
    } else {
        count_successful(rs.drop_last()) + if rs.last().error is None {
            1nat
        } else {
            0nat
        }
    }
}

/// The totals of `resp` agree with its results: every result is counted
/// once, as a success when it carries no error and as a failure otherwise.
pub open spec fn totals_agree(resp: ExtractionResponse) -> bool {
    &&& resp.total_files_processed == resp.results.len()
    &&& resp.successful_extractions == count_successful(resp.results@)
    &&& resp.successful_extractions + resp.failed_extractions == resp.results.len()
}

/// Results that sit at their own positions of one request have pairwise
/// distinct identifiers.
pub proof fn lemma_ids_unique(results: Seq<ExtractionResult>, request_id: Seq<char>)
    requires
        forall|i: int|
            0 <= i < results.len() ==> is_indexed(#[trigger] results[i], request_id, i as nat),
    ensures
        forall|i: int, j: int|
            0 <= i < results.len() && 0 <= j < results.len() && i != j ==> #[trigger] results[i].id@
                != #[trigger] results[j].id@,
{
    assert forall|i: int, j: int|
        0 <= i < results.len() && 0 <= j < results.len() && i != j implies #[trigger] results[i].id@
        != #[trigger] results[j].id@ by {
        let ri = results[i];
        let rj = results[j];
        assert(is_indexed(ri, request_id, i as nat));
        assert(is_indexed(rj, request_id, j as nat));
        if ri.url is Some && rj.url is Some {
            crate::ids::lemma_result_ids_distinct(request_id, url_source(), i as nat, j as nat);
        } else if ri.url is None && rj.url is None {
            crate::ids::lemma_result_ids_distinct(request_id, file_source(), i as nat, j as nat);
        } else {
            reveal_strlit("-url-");
            reveal_strlit("-file-");
            let k = request_id.len() as int + 1;
            crate::text::lemma_decimal_nonempty(i as nat);
            crate::text::lemma_decimal_nonempty(j as nat);
            assert(result_id(request_id, url_source(), i as nat)[k] == 'u');
            assert(result_id(request_id, file_source(), j as nat)[k] == 'f');
            assert(result_id(request_id, url_source(), j as nat)[k] == 'u');
            assert(result_id(request_id, file_source(), i as nat)[k] == 'f');
        }
    }
}

/// A result that reports a successful extraction carries the extractor's
/// text and its metadata, every entry of it and nothing else, and no error.
pub proof fn law_success_keeps_text_and_metadata(
    r: ExtractionResult,
    text: String,
    metadata: Vec<MetadataEntry>,
)
    requires
        reports_outcome(r, ExtractionOutcome::Extracted { text, metadata }),
    ensures
        r.extracted_text == text,
        r.metadata == Some(metadata),
        r.metadata matches Some(m) && m@.len() == metadata@.len() && (forall|i: int|
            0 <= i < metadata@.len() ==> #[trigger] m@[i] == metadata@[i]),
        r.error is None,
{
}

/// A result that reports a failed extraction carries no text, `null`
/// metadata and the error `Extraction failed: <reason>`.
pub proof fn law_failure_reports_reason(r: ExtractionResult, reason: String)
    requires
        reports_outcome(r, ExtractionOutcome::Failed { reason }),
    ensures
        r.extracted_text@.len() == 0,
        r.metadata is None,
        r.error matches Some(e) && e@ == "Extraction failed: "@ + reason@,
{
}

/// No results count no successes.
pub proof fn law_count_empty()
    ensures
        count_successful(Seq::<ExtractionResult>::empty()) == 0,
{
}

/// Adding a result adds one success exactly when it carries no error,
/// whatever its text or metadata.
pub proof fn law_count_push(rs: Seq<ExtractionResult>, r: ExtractionResult)
    ensures
        count_successful(rs.push(r)) == count_successful(rs) + if r.error is None {
            1int
        } else {
            0int
        },
{
    assert(rs.push(r).drop_last() =~= rs);
}

/// When no result carries an error, every result is a success; when every
/// result carries one, none is.
pub proof fn law_count_extremes(rs: Seq<ExtractionResult>)
    ensures
        (forall|i: int| 0 <= i < rs.len() ==> (#[trigger] rs[i]).error is None)
            ==> count_successful(rs) == rs.len(),
        (forall|i: int| 0 <= i < rs.len() ==> (#[trigger] rs[i]).error is Some)
            ==> count_successful(rs) == 0,
    decreases rs.len(),
{
    if rs.len() > 0 {
        law_count_extremes(rs.drop_last());
        assert forall|i: int| 0 <= i < rs.drop_last().len() implies #[trigger] rs.drop_last()[i]
            == rs[i] by {}
    }
}

/// Builds the result of one attempt.
fn make_result(
    id: String,
    url: Option<String>,
    file_name: Option<String>,
    index: usize,
    attempt: Attempt,
) -> (r: ExtractionResult)
    ensures
        r.id == id,
        r.url == url,
        r.file_name == file_name,
        r.input_index == index,
        r.processing_time_ms == attempt.processing_time_ms,
        reports_outcome(r, attempt.outcome),
        attempt.outcome matches ExtractionOutcome::Extracted { text, metadata } ==> {
            &&& r.extracted_text == text
            &&& r.metadata == Some(metadata)
            &&& r.error is None
        },
        attempt.outcome matches ExtractionOutcome::Failed { reason } ==> {
            &&& r.extracted_text@.len() == 0
            &&& r.metadata is None
            &&& r.error matches Some(e) && e@ == "Extraction failed: "@ + reason@
        },
{
    let Attempt { outcome, processing_time_ms } = attempt;
    match outcome {
        ExtractionOutcome::Extracted { text, metadata } => ExtractionResult {
            id,
            url,
            file_name,
            input_index: index,
            extracted_text: text,
            metadata: Some(metadata),
            processing_time_ms,
            error: None,
        },
        ExtractionOutcome::Failed { reason } => {
            let error = String::from_str("Extraction failed: ").concat(reason.as_str());
            ExtractionResult {
                id,
                url,
                file_name,
                input_index: index,
                extracted_text: String::new(),
                metadata: None,
                processing_time_ms,
                error: Some(error),
            }
        },
    }
}

/// The results of one request, gathered in input order.
pub struct ExtractionBatch {
    request_id: String,
    results: Vec<ExtractionResult>,
}

impl ExtractionBatch {
    #[verifier::type_invariant]
    spec fn well_indexed(self) -> bool {
        forall|i: int|
            0 <= i < self.results@.len() ==> is_indexed(
                #[trigger] self.results@[i],
                self.request_id@,
                i as nat,
            ) && metadata_well_formed(self.results@[i])
    }

    /// The identifier of the request.
    pub closed spec fn spec_request_id(&self) -> Seq<char> {
        self.request_id@
    }

    /// The results recorded so far, in input order.
    pub closed spec fn spec_results(&self) -> Seq<ExtractionResult> {
        self.results@
    }

    /// Starts a request with a fresh random identifier and no results.
    pub fn new() -> (batch: ExtractionBatch)
        ensures
            is_uuid_v4_text(batch.spec_request_id()),
            batch.spec_results() == Seq::<ExtractionResult>::empty(),
    {
        ExtractionBatch { request_id: uuid_v4_text(), results: Vec::new() }
    }

    /// The identifier of the request.
    pub fn request_id(&self) -> (id: &String)
        ensures
            id@ == self.spec_request_id(),
    {
        &self.request_id
    }

    /// Records the result for the next input, a URL.
    pub fn record_url(&mut self, url: String, attempt: Attempt)
        requires
            outcome_well_formed(attempt.outcome),
        ensures
            final(self).spec_request_id() == old(self).spec_request_id(),
            final(self).spec_results().len() == old(self).spec_results().len() + 1,
            final(self).spec_results().drop_last() == old(self).spec_results(),
            is_url_result(
                final(self).spec_results().last(),
                old(self).spec_request_id(),
                old(self).spec_results().len(),
                url@,
                attempt,
            ),
    {
        proof {
            use_type_invariant(&*self);
        }
        let index = self.results.len();
        let id = make_result_id(self.request_id.as_str(), "-url-", index);
        let r = make_result(id, Some(url), None, index, attempt);
        let mut results: Vec<ExtractionResult> = Vec::new();
        std::mem::swap(&mut results, &mut self.results);
        results.push(r);
        proof {
            assert(results@.drop_last() =~= old(self).results@);
        }
        std::mem::swap(&mut results, &mut self.results);
    }

    /// The name under which the next file, uploaded as `uploaded`, is stored
    /// while it is processed: its reported name made ASCII-safe, which is
    /// always one plain entry of the upload directory. An upload named ``,
    /// `.` or `..` names no file there, and its temporary file cannot be
    /// created: that is an internal error.
    pub fn stored_file_name(&self, uploaded: &Option<String>) -> (r: Result<String, UserError>)
        ensures
            r is Ok <==> !is_reserved_name(display_name(self.spec_results().len() as nat, *uploaded)),
            r matches Ok(name) ==> name@ == sanitized(
                display_name(self.spec_results().len() as nat, *uploaded),
            ) && is_plain_component(name@),
            r matches Err(e) ==> (e matches UserError::InternalError(d) && d@
                == "Failed to create temp file "@ + display_name(
                self.spec_results().len() as nat,
                *uploaded,
            ) + ": not a file name"@),
    {
        let shown = self.next_file_name(uploaded);
        match plain_file_name(shown.as_str()) {
            Some(name) => Ok(name),
            None => Err(
                UserError::InternalError(
                    String::from_str("Failed to create temp file ").concat(shown.as_str()).concat(
                        ": not a file name",
                    ),
                ),
            ),
        }
    }

    fn next_file_name(&self, uploaded: &Option<String>) -> (name: String)
        ensures
            name@ == display_name(self.spec_results().len() as nat, *uploaded),
    {
        match uploaded {
            Some(n) => n.clone(),
            None => {
                let mut name = String::from_str("unknown_file_");
                push_decimal(&mut name, self.results.len() as u128 + 1);
                proof {
                    assert(name@ =~= unnamed_file(self.results@.len() as nat));
                }
                name
            },
        }
    }

    /// Records the result for the next input, a file uploaded as `uploaded`.
    pub fn record_file(&mut self, uploaded: Option<String>, attempt: Attempt)
        requires
            outcome_well_formed(attempt.outcome),
        ensures
            final(self).spec_request_id() == old(self).spec_request_id(),
            final(self).spec_results().len() == old(self).spec_results().len() + 1,
            final(self).spec_results().drop_last() == old(self).spec_results(),
            is_file_result(
                final(self).spec_results().last(),
                old(self).spec_request_id(),
                old(self).spec_results().len(),
                display_name(old(self).spec_results().len(), uploaded),
                attempt,
            ),
            attempt.outcome matches ExtractionOutcome::Extracted { text, metadata } ==> {
                &&& final(self).spec_results().last().extracted_text == text
                &&& final(self).spec_results().last().metadata == Some(metadata)
                &&& final(self).spec_results().last().error is None
            },
    {
        proof {
            use_type_invariant(&*self);
        }
        let index = self.results.len();
        let id = make_result_id(self.request_id.as_str(), "-file-", index);
        let name = self.next_file_name(&uploaded);
        let r = make_result(id, None, Some(name), index, attempt);
        let mut results: Vec<ExtractionResult> = Vec::new();
        std::mem::swap(&mut results, &mut self.results);
        results.push(r);
        proof {
            assert(results@.drop_last() =~= old(self).results@);
        }
        std::mem::swap(&mut results, &mut self.results);
    }

    /// Closes the request: the response holds the results in input order and
    /// counts them.
    pub fn finish(self, total_processing_time_ms: u64) -> (resp: ExtractionResponse)
        ensures
            resp.request_id@ == self.spec_request_id(),
            resp.results@ == self.spec_results(),
            resp.total_processing_time_ms == total_processing_time_ms,
            totals_agree(resp),
            forall|i: int|
                0 <= i < resp.results@.len() ==> is_indexed(
                    #[trigger] resp.results@[i],
                    resp.request_id@,
                    i as nat,
                ),
            forall|i: int, j: int|
                0 <= i < resp.results@.len() && 0 <= j < resp.results@.len() && i != j
                    ==> #[trigger] resp.results@[i].id@ != #[trigger] resp.results@[j].id@,
            forall|i: int|
                0 <= i < resp.results@.len() ==> metadata_well_formed(#[trigger] resp.results@[i]),
    {
        proof {
            use_type_invariant(&self);
            lemma_ids_unique(self.results@, self.request_id@);
        }
        let ExtractionBatch { request_id, results } = self;
        let n = results.len();
        let mut successful: usize = 0;
        let mut i: usize = 0;
        while i < n
            invariant
                n == results@.len(),
                i <= n,
                successful == count_successful(results@.take(i as int)),
                successful <= i,
            decreases n - i,
        {
            proof {
                assert(results@.take(i + 1).drop_last() =~= results@.take(i as int));
            }
            if results[i].error.is_none() {
                successful = successful + 1;
            }
            i = i + 1;
        }
        proof {
            assert(results@.take(n as int) =~= results@);
        }
        ExtractionResponse {
            request_id,
            results,
            total_processing_time_ms,
            total_files_processed: n,
            successful_extractions: successful,
            failed_extractions: n - successful,
        }
    }
}

} // verus!
