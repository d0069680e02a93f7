//! What downloading decides: whether fetched bytes are an image, and the
//! order of attempts (direct, then through the proxy) with its retries.
use vstd::prelude::*;
use crate::text::{numeral, opt_view, push_numeral, starts_with, trim, trim_str};

verus! {

/// Why downloaded bytes were refused.
#[derive(Clone, Copy, Debug, PartialEq, Eq, Structural)]
pub enum ImageError {
    /// "Downloaded data is too small to be a valid image"
    TooSmall,
    /// "Downloaded file is not a valid image"
    NotAnImage,
}

/// The bytes begin with `m`.
pub open spec fn has_magic(data: Seq<u8>, m: Seq<u8>) -> bool {
    m.len() <= data.len() && data.take(m.len() as int) == m
}

/// The bytes begin with the signature of a JPEG, PNG, GIF or WebP (RIFF) file.
pub open spec fn has_image_magic(data: Seq<u8>) -> bool {
    ||| has_magic(data, seq![0xFFu8, 0xD8u8, 0xFFu8])
    ||| has_magic(data, seq![0x89u8, 0x50u8, 0x4Eu8, 0x47u8])
    ||| has_magic(data, seq![0x47u8, 0x49u8, 0x46u8, 0x38u8])
    ||| has_magic(data, seq![0x52u8, 0x49u8, 0x46u8, 0x46u8])
}

/// The verdict on downloaded bytes, given whether the system `file`
/// command recognised them as an image.
pub open spec fn image_verdict(data: Seq<u8>, file_command_ok: bool) -> Result<(), ImageError> {
    if file_command_ok {
        Ok(())
    } else if data.len() < 4 {
        Err(ImageError::TooSmall)
    } else if has_image_magic(data) {
        Ok(())
    } else {
        Err(ImageError::NotAnImage)
    }
}

/// Validate that the downloaded bytes represent a valid image format.
///
/// Accepts them where the system `file` command recognised an image
/// (`file_command_ok`), otherwise checks the magic bytes at the start of the
/// data.
pub fn validate_image(data: &[u8], file_command_ok: bool) -> (r: Result<(), ImageError>)
    ensures
        r == image_verdict(data@, file_command_ok),
{
    if file_command_ok {
        return Ok(());
    }
    if data.len() < 4 {
        return Err(ImageError::TooSmall);
    }
    let b0 = data[0];
    let b1 = data[1];
    let b2 = data[2];
    let b3 = data[3];
    let jpeg = b0 == 0xFF && b1 == 0xD8 && b2 == 0xFF;
    let png = b0 == 0x89 && b1 == 0x50 && b2 == 0x4E && b3 == 0x47;
    let gif = b0 == 0x47 && b1 == 0x49 && b2 == 0x46 && b3 == 0x38;
    let webp = b0 == 0x52 && b1 == 0x49 && b2 == 0x46 && b3 == 0x46;
    proof {
        let d = data@;
        assert(jpeg == has_magic(d, seq![0xFFu8, 0xD8u8, 0xFFu8])) by {
            if jpeg {
                assert(d.take(3) =~= seq![0xFFu8, 0xD8u8, 0xFFu8]);
            }
            if has_magic(d, seq![0xFFu8, 0xD8u8, 0xFFu8]) {
                assert(d.take(3)[0] == d[0] && d.take(3)[1] == d[1] && d.take(3)[2] == d[2]);
            }
        }
        assert(png == has_magic(d, seq![0x89u8, 0x50u8, 0x4Eu8, 0x47u8])) by {
            if png {
                assert(d.take(4) =~= seq![0x89u8, 0x50u8, 0x4Eu8, 0x47u8]);
            }
            if has_magic(d, seq![0x89u8, 0x50u8, 0x4Eu8, 0x47u8]) {
                assert(d.take(4)[0] == d[0] && d.take(4)[1] == d[1] && d.take(4)[2] == d[2]
                    && d.take(4)[3] == d[3]);
            }
        }
        assert(gif == has_magic(d, seq![0x47u8, 0x49u8, 0x46u8, 0x38u8])) by {
            if gif {
                assert(d.take(4) =~= seq![0x47u8, 0x49u8, 0x46u8, 0x38u8]);
            }
            if has_magic(d, seq![0x47u8, 0x49u8, 0x46u8, 0x38u8]) {
                assert(d.take(4)[0] == d[0] && d.take(4)[1] == d[1] && d.take(4)[2] == d[2]
                    && d.take(4)[3] == d[3]);
            }
        }
        assert(webp == has_magic(d, seq![0x52u8, 0x49u8, 0x46u8, 0x46u8])) by {
            if webp {
                assert(d.take(4) =~= seq![0x52u8, 0x49u8, 0x46u8, 0x46u8]);
            }
            if has_magic(d, seq![0x52u8, 0x49u8, 0x46u8, 0x46u8]) {
                assert(d.take(4)[0] == d[0] && d.take(4)[1] == d[1] && d.take(4)[2] == d[2]
                    && d.take(4)[3] == d[3]);
            }
        }
    }
    if jpeg || png || gif || webp {
        Ok(())
    } else {
        Err(ImageError::NotAnImage)
    }
}

/// The output of `file --brief --mime-type` names an image type.
pub open spec fn mime_is_image(output: Seq<char>) -> bool {
    starts_with(trim(output), seq!['i', 'm', 'a', 'g', 'e', '/'])
}

/// Whether the (lossily decoded) output of `file --brief --mime-type`
/// names an image type: after trimming it starts with `image/`.
pub fn is_image_mime(output: &str) -> (b: bool)
    ensures
        b == mime_is_image(output@),
{
    let t = trim_str(output);
    let tv = crate::text::chars_of(t.as_str());
    let mut p: Vec<char> = Vec::new();
    p.push('i');
    p.push('m');
    p.push('a');
    p.push('g');
    p.push('e');
    p.push('/');
    assert(p@ =~= seq!['i', 'm', 'a', 'g', 'e', '/']);
    crate::text::has_prefix(&tv, &p)
}

// ───────────────────────── retries ─────────────────────────

/// Where a download with retries stands.
#[derive(Clone, Copy, Debug, PartialEq, Eq, Structural)]
pub enum RetryPhase {
    /// Waiting for the result of the direct attempt of the current round.
    Direct,
    /// Waiting for the result of the proxy attempt of the current round.
    Proxy,
    /// Waiting for the pause between rounds to end.
    Pausing,
    /// Done.
    Finished,
}

/// What the caller does next.
pub enum RetryAction {
    /// Download without the proxy.
    DownloadDirect,
    /// Download through the proxy.
    DownloadProxy,
    /// Wait half a second.
    Pause,
    /// The download succeeded.
    Succeeded,
    /// All attempts failed; the message says so.
    Failed(String),
}

/// What happened to the last action.
pub enum RetryEvent {
    /// The direct download succeeded or not.
    DirectDone(bool),
    /// The proxy download succeeded, or failed with the given message.
    ProxyDone(Result<(), String>),
    /// The pause ended.
    Paused,
}

/// Download with retry logic: try direct first, then with proxy, up to
/// `max_retries` rounds with a pause after each failed round.
pub struct Retry {
    pub max_retries: u32,
    pub round: u32,
    pub phase: RetryPhase,
    pub last_error: Option<String>,
}

/// "All {max} download attempts failed. Last error: {last or unknown}".
pub open spec fn failure_text(max_retries: u32, last_error: Option<Seq<char>>) -> Seq<char> {
    "All "@ + numeral(max_retries as nat, 10) + " download attempts failed. Last error: "@
        + match last_error {
        Some(e) => e,
        None => "unknown"@,
    }
}

/// The failure message of a download that gave up.
pub fn failure_message(max_retries: u32, last_error: &Option<String>) -> (m: String)
    ensures
        m@ == failure_text(max_retries, opt_view(*last_error)),
{
    let mut m = String::from_str("All ");
    push_numeral(&mut m, max_retries as u128, 10);
    m.append(" download attempts failed. Last error: ");
    match last_error {
        Some(e) => m.append(e.as_str()),
        None => m.append("unknown"),
    }
    m
}

impl Retry {
    /// The machine's own invariant: at most `max_retries` rounds.
    pub open spec fn inv(&self) -> bool {
        &&& self.round <= self.max_retries
        &&& self.phase != RetryPhase::Finished ==> self.round < self.max_retries
    }

    /// Starts a download with at most `max_retries` rounds; with none, it
    /// fails at once.
    pub fn start(max_retries: u32) -> (r: (Retry, RetryAction))
        ensures
            r.0.inv(),
            r.0.max_retries == max_retries,
            r.0.round == 0,
            opt_view(r.0.last_error) is None,
            max_retries > 0 ==> r.0.phase == RetryPhase::Direct && r.1 is DownloadDirect,
            max_retries == 0 ==> r.0.phase == RetryPhase::Finished && (r.1 matches RetryAction::Failed(
                m,
            ) && m@ == failure_text(0, None)),
    {
        if max_retries == 0 {
            let m = failure_message(0, &None);
            (Retry { max_retries, round: 0, phase: RetryPhase::Finished, last_error: None }, RetryAction::Failed(m))
        } else {
            (Retry { max_retries, round: 0, phase: RetryPhase::Direct, last_error: None }, RetryAction::DownloadDirect)
        }
    }

    /// Takes the outcome of the last action and says what to do next. A
    /// direct failure goes on to the proxy; a proxy failure is remembered and
    /// followed by a pause; after the pause the next round starts, or, after
    /// the last round, the download fails with the remembered error. An
    /// event that does not answer the pending action changes nothing.
    pub fn step(&mut self, event: RetryEvent) -> (a: RetryAction)
        requires
            old(self).inv(),
        ensures
            final(self).inv(),
            final(self).max_retries == old(self).max_retries,
            a is Failed ==> final(self).round == final(self).max_retries,
            a is Succeeded ==> final(self).round < final(self).max_retries,
            match (old(self).phase, event) {
                (RetryPhase::Direct, RetryEvent::DirectDone(true)) => final(self).phase
                    == RetryPhase::Finished && a is Succeeded && final(self).round == old(self).round,
                (RetryPhase::Direct, RetryEvent::DirectDone(false)) => final(self).phase
                    == RetryPhase::Proxy && a is DownloadProxy && final(self).round == old(self).round
                    && opt_view(final(self).last_error) == opt_view(old(self).last_error),
                (RetryPhase::Proxy, RetryEvent::ProxyDone(Ok(()))) => final(self).phase
                    == RetryPhase::Finished && a is Succeeded && final(self).round == old(self).round,
                (RetryPhase::Proxy, RetryEvent::ProxyDone(Err(e))) => final(self).phase
                    == RetryPhase::Pausing && a is Pause && final(self).round == old(self).round
                    && opt_view(final(self).last_error) == Some(e@),
                (RetryPhase::Pausing, RetryEvent::Paused) => final(self).round == old(self).round
                    + 1 && opt_view(final(self).last_error) == opt_view(old(self).last_error) && if old(
                    self,
                ).round + 1 == old(self).max_retries {
                    final(self).phase == RetryPhase::Finished && (a matches RetryAction::Failed(m)
                        && m@ == failure_text(old(self).max_retries, opt_view(old(self).last_error)))
                } else {
                    final(self).phase == RetryPhase::Direct && a is DownloadDirect
                },
                _ => final(self).phase == old(self).phase && final(self).round == old(self).round,
            },
    {
        match (self.phase, event) {
            (RetryPhase::Direct, RetryEvent::DirectDone(ok)) => {
                if ok {
                    self.phase = RetryPhase::Finished;
                    RetryAction::Succeeded
                } else {
                    self.phase = RetryPhase::Proxy;
                    RetryAction::DownloadProxy
                }
            },
            (RetryPhase::Proxy, RetryEvent::ProxyDone(res)) => match res {
                Ok(()) => {
                    self.phase = RetryPhase::Finished;
                    RetryAction::Succeeded
                },
                Err(e) => {
                    self.last_error = Some(e);
                    self.phase = RetryPhase::Pausing;
                    RetryAction::Pause
                },
            },
            (RetryPhase::Pausing, RetryEvent::Paused) => {
                self.round = self.round + 1;
                if self.round == self.max_retries {
                    self.phase = RetryPhase::Finished;
                    RetryAction::Failed(failure_message(self.max_retries, &self.last_error))
                } else {
                    self.phase = RetryPhase::Direct;
                    RetryAction::DownloadDirect
                }
            },
            (RetryPhase::Direct, _) => RetryAction::DownloadDirect,
            (RetryPhase::Proxy, _) => RetryAction::DownloadProxy,
            (RetryPhase::Pausing, _) => RetryAction::Pause,
            (RetryPhase::Finished, _) => {
                if self.round == self.max_retries {
                    RetryAction::Failed(failure_message(self.max_retries, &self.last_error))
                } else {
                    RetryAction::Succeeded
                }
            },
        }
    }
}

} // verus!
