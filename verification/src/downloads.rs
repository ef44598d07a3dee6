//! Remote downloads: progress accounting, size limits and the retry policy.
use crate::text;
use vstd::prelude::*;

verus! {

pub const REMOTE_DOWNLOAD_MAX_ATTEMPTS: u32 = 3;

pub const REMOTE_DOWNLOAD_RETRY_DELAY_MS: u64 = 750;

/// How much of a download has arrived, and how much was announced.
#[derive(Debug, Clone, Copy)]
pub struct ByteDownloadProgress {
    pub received_bytes: u64,
    pub total_bytes: Option<u64>,
}

/// The key under which the interface tracks a download: `{source}:{source_id}`.
pub fn remote_download_key(source: &str, source_id: &str) -> (r: String)
    ensures
        r@ == source@ + seq![':'] + source_id@,
{
    let mut out = text::chars_of(source);
    out.push(':');
    text::push_str(&mut out, source_id);
    text::string_from(out.as_slice())
}

/// The phrases (matched in lowercase) that mark a download error as passing.
pub open spec fn transient_error(lower: Seq<char>) -> bool {
    ||| text::contains_seq(lower, "download failed"@)
    ||| text::contains_seq(lower, "failed to read"@)
    ||| text::contains_seq(lower, "ended early"@)
    ||| text::contains_seq(lower, "timed out"@)
    ||| text::contains_seq(lower, "timeout"@)
    ||| text::contains_seq(lower, "http 408"@)
    ||| text::contains_seq(lower, "http 429"@)
    ||| text::contains_seq(lower, "http 500"@)
    ||| text::contains_seq(lower, "http 502"@)
    ||| text::contains_seq(lower, "http 503"@)
    ||| text::contains_seq(lower, "http 504"@)
}

/// Whether a failed download is worth another attempt: its message, in any ASCII case,
/// names a network failure, a timeout or an HTTP status that may pass.
pub fn should_retry_download_error(error: &str) -> (r: bool)
    ensures
        r == transient_error(text::lower_seq(error@)),
{
    let e = text::lower_vec(text::chars_of(error).as_slice());
    let s = e.as_slice();
    text::contains_str(s, "download failed") || text::contains_str(s, "failed to read")
        || text::contains_str(s, "ended early") || text::contains_str(s, "timed out")
        || text::contains_str(s, "timeout") || text::contains_str(s, "http 408")
        || text::contains_str(s, "http 429") || text::contains_str(s, "http 500")
        || text::contains_str(s, "http 502") || text::contains_str(s, "http 503")
        || text::contains_str(s, "http 504")
}

/// What follows a failed attempt.
#[derive(Debug, Clone, Copy, PartialEq, Eq, Structural)]
pub enum RetryDecision {
    /// Wait `delay_ms`, then make attempt `next_attempt`.
    Retry { next_attempt: u32, delay_ms: u64 },
    /// Give up and report the error.
    Fail,
}

/// After attempt `attempt` failed with `error`: retry while attempts remain and the
/// error may pass, waiting 750 ms times the attempt number.
pub fn retry_decision(attempt: u32, error: &str) -> (r: RetryDecision)
    requires
        attempt >= 1,
    ensures
        r == (if attempt < REMOTE_DOWNLOAD_MAX_ATTEMPTS && transient_error(text::lower_seq(error@)) {
            RetryDecision::Retry {
                next_attempt: (attempt + 1) as u32,
                delay_ms: (REMOTE_DOWNLOAD_RETRY_DELAY_MS * attempt) as u64,
            }
        } else {
            RetryDecision::Fail
        }),
{
    if attempt < REMOTE_DOWNLOAD_MAX_ATTEMPTS && should_retry_download_error(error) {
        RetryDecision::Retry {
            next_attempt: attempt + 1,
            delay_ms: REMOTE_DOWNLOAD_RETRY_DELAY_MS * (attempt as u64),
        }
    } else {
        RetryDecision::Fail
    }
}

/// No attempt is made after the last one, and attempt numbers only grow.
pub proof fn lemma_retry_bounded(attempt: u32, error: Seq<char>)
    requires
        attempt >= 1,
    ensures
        attempt >= REMOTE_DOWNLOAD_MAX_ATTEMPTS ==> !(attempt < REMOTE_DOWNLOAD_MAX_ATTEMPTS
            && transient_error(text::lower_seq(error))),
        attempt < REMOTE_DOWNLOAD_MAX_ATTEMPTS ==> attempt + 1 <= REMOTE_DOWNLOAD_MAX_ATTEMPTS,
{
}

/// The status line shown when attempt `attempt` starts.
pub fn attempt_message(attempt: u32) -> (r: String)
    ensures
        r@ == (if attempt == 1 {
            "Starting download"@
        } else {
            "Retrying download, attempt "@ + text::decimal(attempt as nat)
        }),
{
    if attempt == 1 {
        text::owned("Starting download")
    } else {
        let mut out = text::chars_of("Retrying download, attempt ");
        let digits = text::u64_text(attempt as u64);
        text::push_all(&mut out, digits.as_slice());
        text::string_from(out.as_slice())
    }
}

/// The status line shown before attempt `next_attempt`.
pub fn retry_message(next_attempt: u32) -> (r: String)
    ensures
        r@ == "Download failed; retrying attempt "@ + text::decimal(next_attempt as nat) + " of "@
            + text::decimal(REMOTE_DOWNLOAD_MAX_ATTEMPTS as nat),
{
    let mut out = text::chars_of("Download failed; retrying attempt ");
    text::push_all(&mut out, text::u64_text(next_attempt as u64).as_slice());
    text::push_str(&mut out, " of ");
    text::push_all(&mut out, text::u64_text(REMOTE_DOWNLOAD_MAX_ATTEMPTS as u64).as_slice());
    text::string_from(out.as_slice())
}

/// A byte count announced as a signed number, where it is positive.
pub fn positive_bytes(value: i64) -> (r: Option<u64>)
    ensures
        r == (if value > 0 {
            Some(value as u64)
        } else {
            None::<u64>
        }),
{
    if value > 0 {
        Some(value as u64)
    } else {
        None
    }
}

/// A body being received under a size limit.
#[derive(Debug, Clone, Copy)]
pub struct ByteDownload {
    pub received_bytes: u64,
    pub total_bytes: Option<u64>,
    pub max_bytes: u64,
}

impl ByteDownload {
    /// Whether what has arrived stays within the limit.
    pub open spec fn within_limit(&self) -> bool {
        self.received_bytes <= self.max_bytes
    }

    /// Starts a download whose announced length is `total_bytes`; `None` where the
    /// announcement already exceeds the limit.
    pub fn start(total_bytes: Option<u64>, max_bytes: u64) -> (r: Option<ByteDownload>)
        ensures
            match total_bytes {
                Some(t) if t > max_bytes => r is None,
                _ => r == Some(ByteDownload { received_bytes: 0, total_bytes, max_bytes }),
            },
            r matches Some(d) ==> d.within_limit(),
    {
        match total_bytes {
            Some(t) => if t > max_bytes {
                return None;
            },
            None => {},
        }
        Some(ByteDownload { received_bytes: 0, total_bytes, max_bytes })
    }

    pub fn progress(&self) -> (r: ByteDownloadProgress)
        ensures
            r.received_bytes == self.received_bytes,
            r.total_bytes == self.total_bytes,
    {
        ByteDownloadProgress { received_bytes: self.received_bytes, total_bytes: self.total_bytes }
    }

    /// Counts a chunk of `len` bytes; `false`, and nothing counted, when the total would
    /// pass the limit.
    pub fn receive(&mut self, len: u64) -> (accepted: bool)
        requires
            old(self).within_limit(),
        ensures
            accepted == (old(self).received_bytes + len <= old(self).max_bytes),
            accepted ==> final(self).received_bytes == old(self).received_bytes + len,
            !accepted ==> *final(self) == *old(self),
            final(self).total_bytes == old(self).total_bytes,
            final(self).max_bytes == old(self).max_bytes,
            final(self).within_limit(),
    {
        if len > self.max_bytes - self.received_bytes {
            false
        } else {
            self.received_bytes = self.received_bytes + len;
            true
        }
    }

    /// Whether a finished body of `len` bytes is whole: within the limit and, where a
    /// length was announced, of that length.
    pub fn is_complete(&self, len: u64) -> (r: bool)
        ensures
            r == (len <= self.max_bytes && match self.total_bytes {
                Some(t) => len == t,
                None => true,
            }),
    {
        if len > self.max_bytes {
            return false;
        }
        match self.total_bytes {
            Some(t) => len == t,
            None => true,
        }
    }
}

/// The message of a body that ended before its announced length.
pub fn ended_early_message(what: &str, received: u64, total: u64) -> (r: String)
    ensures
        r@ == what@ + " download ended early: received "@ + text::decimal(received as nat) + " of "@
            + text::decimal(total as nat) + " bytes"@,
{
    let mut out = text::chars_of(what);
    text::push_str(&mut out, " download ended early: received ");
    text::push_all(&mut out, text::u64_text(received).as_slice());
    text::push_str(&mut out, " of ");
    text::push_all(&mut out, text::u64_text(total).as_slice());
    text::push_str(&mut out, " bytes");
    text::string_from(out.as_slice())
}

} // verus!
