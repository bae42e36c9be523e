//! The size limit on uploaded files.

use vstd::prelude::*;
use crate::error::UserError;

verus! {

/// The largest accepted size of one uploaded file, in bytes (50 MiB).
pub const MAX_FILE_SIZE: usize = 50 * 1024 * 1024;

/// The outcome of receiving a chunk of `chunk_len` bytes of a file of which
/// `received` bytes have arrived: the new size if the file is still within
/// the limit, `None` if it has gone over it.
pub open spec fn spec_accept(received: nat, chunk_len: nat) -> Option<nat> {
    if received + chunk_len <= MAX_FILE_SIZE {
        Some(received + chunk_len)
    } else {
        None
    }
}

/// Counts a newly received chunk of an uploaded file against the size limit.
pub fn accept_chunk(received: usize, chunk_len: usize) -> (r: Result<usize, UserError>)
    ensures
        r is Ok <==> spec_accept(received as nat, chunk_len as nat) is Some,
        r matches Ok(total) ==> total == received + chunk_len,
        r matches Err(e) ==> (e matches UserError::BadRequest(d) && d@
            == "File too large (max 50MB)"@),
{
    if received > MAX_FILE_SIZE || chunk_len > MAX_FILE_SIZE - received {
        Err(UserError::BadRequest(String::from_str("File too large (max 50MB)")))
    } else {
        Ok(received + chunk_len)
    }
}

/// The total length of a sequence of chunks.
pub open spec fn total_len(chunks: Seq<usize>) -> nat
    decreases chunks.len(),
{
    if chunks.len() == 0 {
        0
    } else {
        total_len(chunks.drop_last()) + chunks.last() as nat
    }
}

/// Receiving `chunks` one after another from an empty file: the final size,
/// or `None` as soon as a chunk takes the file over the limit.
pub open spec fn receive_all(chunks: Seq<usize>) -> Option<nat>
    decreases chunks.len(),
{
    if chunks.len() == 0 {
        Some(0)
    } else {
        match receive_all(chunks.drop_last()) {
            Some(received) => spec_accept(received, chunks.last() as nat),
            None => None,
        }
    }
}

/// A file is accepted exactly when its total size is within the limit, however
/// it is split into chunks; its accepted size is then that total.
pub proof fn lemma_upload_limit(chunks: Seq<usize>)
    ensures
        receive_all(chunks) == if total_len(chunks) <= MAX_FILE_SIZE {
            Some(total_len(chunks))
        } else {
            None::<nat>
        },
    decreases chunks.len(),
{
    if chunks.len() > 0 {
        lemma_upload_limit(chunks.drop_last());
    }
}

} // verus!
