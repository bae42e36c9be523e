//! Requests that name documents by URL.

use vstd::prelude::*;
use crate::error::UserError;
use crate::ids::is_uuid_v4_text;
use crate::response::{
    is_indexed, is_url_result, metadata_well_formed, outcome_well_formed, totals_agree, Attempt,
    ExtractionBatch, ExtractionOutcome, ExtractionResponse,
};

verus! {

/// The largest number of URLs accepted in one request.
pub const MAX_URLS_PER_REQUEST: usize = 10;

/// Validates the size of a URL request: it must name at least one URL and at
/// most [`MAX_URLS_PER_REQUEST`].
pub fn validate_url_request(urls: &Vec<String>) -> (r: Result<(), UserError>)
    ensures
        r is Ok <==> 1 <= urls@.len() <= MAX_URLS_PER_REQUEST,
        urls@.len() == 0 ==> (r matches Err(UserError::BadRequest(d)) && d@
            == "No URLs provided"@),
        urls@.len() > MAX_URLS_PER_REQUEST ==> (r matches Err(UserError::BadRequest(d)) && d@
            == "Too many URLs (max 10 allowed)"@),
{
    if urls.len() == 0 {
        return Err(UserError::BadRequest(String::from_str("No URLs provided")));
    }
    if urls.len() > MAX_URLS_PER_REQUEST {
        return Err(UserError::BadRequest(String::from_str("Too many URLs (max 10 allowed)")));
    }
    Ok(())
}

/// The response to a URL request under a fresh request identifier:
/// `attempts[i]` is what extracting `urls[i]` gave, and the result at `i`
/// reports it for that URL.
pub fn url_response(urls: &Vec<String>, attempts: Vec<Attempt>, total_processing_time_ms: u64) -> (resp: ExtractionResponse)
    requires
        attempts@.len() == urls@.len(),
        forall|i: int| 0 <= i < attempts@.len() ==> outcome_well_formed(#[trigger] attempts@[i].outcome),
    ensures
        is_uuid_v4_text(resp.request_id@),
        resp.results@.len() == urls@.len(),
        forall|i: int|
            0 <= i < urls@.len() ==> is_url_result(
                #[trigger] resp.results@[i],
                resp.request_id@,
                i as nat,
                urls@[i]@,
                attempts@[i],
            ),
        forall|i: int|
            0 <= i < resp.results@.len() ==> is_indexed(
                #[trigger] resp.results@[i],
                resp.request_id@,
                i as nat,
            ),
        forall|i: int, j: int|
            0 <= i < resp.results@.len() && 0 <= j < resp.results@.len() && i != j
                ==> #[trigger] resp.results@[i].id@ != #[trigger] resp.results@[j].id@,
        forall|i: int|
            0 <= i < resp.results@.len() ==> metadata_well_formed(#[trigger] resp.results@[i]),
        forall|i: int|
            0 <= i < urls@.len() ==> (attempts@[i].outcome matches ExtractionOutcome::Extracted {
                text,
                metadata,
            } ==> {
                &&& (#[trigger] resp.results@[i]).extracted_text == text
                &&& resp.results@[i].metadata == Some(metadata)
                &&& resp.results@[i].error is None
            }),
        totals_agree(resp),
        resp.total_files_processed == urls@.len(),
        resp.total_processing_time_ms == total_processing_time_ms,
{
    let mut batch = ExtractionBatch::new();
    let ghost rid = batch.spec_request_id();
    let ghost all = attempts@;
    let n = urls.len();
    let mut i: usize = 0;
    for attempt in it: attempts.into_iter()
        invariant
            it.seq() == all,
            i == it.index(),
            i <= all.len(),
            n == urls@.len(),
            all.len() == urls@.len(),
            forall|k: int| 0 <= k < all.len() ==> outcome_well_formed(#[trigger] all[k].outcome),
            batch.spec_request_id() == rid,
            batch.spec_results().len() == i,
            forall|k: int|
                0 <= k < i ==> is_url_result(
                    #[trigger] batch.spec_results()[k],
                    rid,
                    k as nat,
                    urls@[k]@,
                    all[k],
                ),
    {
        batch.record_url(urls[i].clone(), attempt);
        proof {
            assert forall|k: int| 0 <= k < i + 1 implies is_url_result(
                #[trigger] batch.spec_results()[k],
                rid,
                k as nat,
                urls@[k]@,
                all[k],
            ) by {
                if k < i {
                    assert(batch.spec_results()[k] == batch.spec_results().drop_last()[k]);
                }
            }
        }
        i = i + 1;
    }
    batch.finish(total_processing_time_ms)
}

} // verus!
