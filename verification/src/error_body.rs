//! Reading at most a bounded prefix of a failed response's body, and the
//! error message that reports it.

use vstd::prelude::*;
use vstd::utf8::*;
use crate::error::OmnihookError;

verus! {

/// The largest number of body bytes that an error message reports.
pub const MAX_ERROR_BODY: usize = 4096;

/// What `String::from_utf8_lossy` makes of `bytes`.
pub uninterp spec fn utf8_lossy(bytes: Seq<u8>) -> Seq<char>;

/// `String::from_utf8_lossy(bytes)`, as an owned string. Its documentation
/// states that valid UTF-8 is decoded unchanged; what it makes of invalid
/// sequences is left to the name `utf8_lossy`.
#[verifier::external_body]
fn from_utf8_lossy(bytes: &[u8]) -> (res: String)
    ensures
        res@ == utf8_lossy(bytes@),
        valid_utf8(bytes@) ==> res@ == decode_utf8(bytes@),
{
    String::from_utf8_lossy(bytes).into_owned()
}

/// `collected` after receiving `chunk`: the chunk is appended, cut so that
/// no more than `MAX_ERROR_BODY + 1` bytes are held (the extra byte marks
/// that the body went on).
pub open spec fn absorb(collected: Seq<u8>, chunk: Seq<u8>) -> Seq<u8> {
    let room = if collected.len() <= MAX_ERROR_BODY + 1 {
        MAX_ERROR_BODY + 1 - collected.len()
    } else {
        0
    };
    collected + chunk.take(if chunk.len() <= room { chunk.len() as int } else { room as int })
}

/// The first `n` bytes of `s`, or all of it when it is shorter.
pub open spec fn prefix(s: Seq<u8>, n: int) -> Seq<u8> {
    if s.len() <= n {
        s
    } else {
        s.take(n)
    }
}

/// The body text that an error message reports, from the bytes collected,
/// the read error, if reading stopped on one, and `decoded`, the text of the
/// reported bytes (the first `MAX_ERROR_BODY` of those collected).
pub open spec fn body_text_from(
    decoded: Seq<char>,
    collected: Seq<u8>,
    read_error: Option<Seq<char>>,
) -> Seq<char> {
    let kept = prefix(collected, MAX_ERROR_BODY as int);
    match read_error {
        Some(e) => if kept.len() == 0 {
            "<failed to read response body: "@ + e + ">"@
        } else {
            decoded + " <read error: "@ + e + ">"@
        },
        None => if kept.len() == 0 {
            "No error body"@
        } else if collected.len() > MAX_ERROR_BODY {
            decoded + " [truncated]"@
        } else {
            decoded
        },
    }
}

/// The body text that an error message reports, from the bytes collected
/// and the read error, if reading stopped on one; the reported bytes are
/// decoded as `String::from_utf8_lossy` decodes them.
pub open spec fn error_body_text(collected: Seq<u8>, read_error: Option<Seq<char>>) -> Seq<char> {
    body_text_from(utf8_lossy(prefix(collected, MAX_ERROR_BODY as int)), collected, read_error)
}

/// The message for a response with a failure status, without its body.
pub open spec fn status_failure_message(status: Seq<char>) -> Seq<char> {
    "Webhook request failed with status: "@ + status
}

/// The message for a response with a failure status, with its body.
pub open spec fn status_failure_with_body_message(status: Seq<char>, body: Seq<char>) -> Seq<char> {
    "Webhook request failed with status: "@ + status + ". Body: "@ + body
}

/// Receiving chunk after chunk collects what receiving them all at once
/// would: the prefix of the stream, cut at `MAX_ERROR_BODY + 1` bytes.
pub proof fn lemma_absorb_concat(collected: Seq<u8>, first: Seq<u8>, second: Seq<u8>)
    requires
        collected.len() <= MAX_ERROR_BODY + 1,
    ensures
        absorb(absorb(collected, first), second) == absorb(collected, first + second),
        absorb(collected, first).len() <= MAX_ERROR_BODY + 1,
{
    assert(absorb(absorb(collected, first), second) =~= absorb(collected, first + second));
}

/// From an empty start, the collected bytes are the stream's first
/// `MAX_ERROR_BODY + 1` bytes.
pub proof fn lemma_absorb_from_empty(stream: Seq<u8>)
    ensures
        absorb(Seq::empty(), stream) == prefix(stream, MAX_ERROR_BODY + 1),
{
    assert(absorb(Seq::empty(), stream) =~= prefix(stream, MAX_ERROR_BODY + 1));
}

/// The body reported for a stream read to its end without error: its first
/// `MAX_ERROR_BODY` bytes, marked ` [truncated]` exactly when the stream was
/// longer than that.
pub proof fn lemma_reported_body(stream: Seq<u8>)
    requires
        stream.len() > 0,
    ensures
        error_body_text(absorb(Seq::empty(), stream), None) == utf8_lossy(
            prefix(stream, MAX_ERROR_BODY as int),
        ) + if stream.len() > MAX_ERROR_BODY {
            " [truncated]"@
        } else {
            Seq::<char>::empty()
        },
{
    lemma_absorb_from_empty(stream);
    let collected = prefix(stream, MAX_ERROR_BODY + 1);
    assert(prefix(collected, MAX_ERROR_BODY as int) =~= prefix(stream, MAX_ERROR_BODY as int));
    if stream.len() <= MAX_ERROR_BODY {
        assert(utf8_lossy(prefix(stream, MAX_ERROR_BODY as int)) + Seq::<char>::empty()
            =~= utf8_lossy(prefix(stream, MAX_ERROR_BODY as int)));
    }
}

/// The body of a failed response, collected chunk by chunk up to
/// `MAX_ERROR_BODY + 1` bytes, and the read error that stopped it, if any.
#[derive(Debug)]
pub struct ErrorBodyCollector {
    collected: Vec<u8>,
    read_error: Option<String>,
}

/// The mathematical state of an [`ErrorBodyCollector`].
pub ghost struct ErrorBodyState {
    /// The bytes kept so far.
    pub collected: Seq<u8>,
    /// The read error, once one has occurred.
    pub read_error: Option<Seq<char>>,
}

impl View for ErrorBodyCollector {
    type V = ErrorBodyState;

    closed spec fn view(&self) -> ErrorBodyState {
        ErrorBodyState {
            collected: self.collected@,
            read_error: match self.read_error {
                Some(e) => Some(e@),
                None => None,
            },
        }
    }
}

impl ErrorBodyCollector {
    /// At most `MAX_ERROR_BODY + 1` bytes are held (the type's invariant).
    #[verifier::type_invariant]
    spec fn bounded(&self) -> bool {
        self@.collected.len() <= MAX_ERROR_BODY + 1
    }

    /// A collector that has received nothing.
    pub fn new() -> (res: Self)
        ensures
            res@.collected == Seq::<u8>::empty(),
            res@.read_error is None,
    {
        ErrorBodyCollector { collected: Vec::new(), read_error: None }
    }

    /// Whether another chunk should be read: no read error yet and no more
    /// than `MAX_ERROR_BODY` bytes held.
    pub fn wants_more(&self) -> (b: bool)
        ensures
            b == (self@.read_error is None && self@.collected.len() <= MAX_ERROR_BODY),
    {
        self.read_error.is_none() && self.collected.len() <= MAX_ERROR_BODY
    }

    /// Receives the next chunk of the body.
    pub fn absorb_chunk(&mut self, chunk: &[u8])
        ensures
            final(self)@.collected == absorb(old(self)@.collected, chunk@),
            final(self)@.read_error == old(self)@.read_error,
    {
        proof {
            use_type_invariant(&*self);
        }
        let room = (MAX_ERROR_BODY + 1) - self.collected.len();
        let take = if chunk.len() <= room { chunk.len() } else { room };
        let mut collected: Vec<u8> = Vec::new();
        std::mem::swap(&mut collected, &mut self.collected);
        let ghost before = collected@;
        let mut i: usize = 0;
        while i < take
            invariant
                i <= take <= chunk@.len(),
                collected@ == before + chunk@.take(i as int),
            decreases take - i,
        {
            collected.push(chunk[i]);
            assert(chunk@.take(i + 1) =~= chunk@.take(i as int).push(chunk@[i as int]));
            i += 1;
        }
        assert(collected@ =~= absorb(before, chunk@));
        self.collected = collected;
    }

    /// Records that reading the body failed with `message`.
    pub fn record_read_error(&mut self, message: String)
        ensures
            final(self)@.collected == old(self)@.collected,
            final(self)@.read_error == Some(message@),
    {
        proof {
            use_type_invariant(&*self);
        }
        self.read_error = Some(message);
    }

    /// The body text that the error message reports.
    pub fn body_text(&self) -> (res: String)
        ensures
            res@ == error_body_text(self@.collected, self@.read_error),
            valid_utf8(prefix(self@.collected, MAX_ERROR_BODY as int)) ==> res@ == body_text_from(
                decode_utf8(prefix(self@.collected, MAX_ERROR_BODY as int)),
                self@.collected,
                self@.read_error,
            ),
    {
        proof {
            use_type_invariant(self);
        }
        let total = self.collected.len();
        let keep = if total <= MAX_ERROR_BODY { total } else { MAX_ERROR_BODY };
        let kept = &self.collected.as_slice()[0..keep];
        let ghost kept_view = prefix(self@.collected, MAX_ERROR_BODY as int);
        assert(kept@ =~= kept_view);
        let mut out = String::new();
        match &self.read_error {
            Some(e) => {
                if keep == 0 {
                    out.append("<failed to read response body: ");
                    out.append(e.as_str());
                    out.append(">");
                } else {
                    let text = from_utf8_lossy(kept);
                    out.append(text.as_str());
                    out.append(" <read error: ");
                    out.append(e.as_str());
                    out.append(">");
                }
            },
            None => {
                if keep == 0 {
                    out.append("No error body");
                } else {
                    let text = from_utf8_lossy(kept);
                    out.append(text.as_str());
                    if total > MAX_ERROR_BODY {
                        out.append(" [truncated]");
                    }
                }
            },
        }
        assert(out@ =~= error_body_text(self@.collected, self@.read_error));
        out
    }

    /// The error reported for a response with the failure status `status`
    /// (its text, such as "400 Bad Request") and the body collected here.
    pub fn into_error(self, status: &str) -> (res: OmnihookError)
        ensures
            res matches OmnihookError::NotifyFailed(m) && m@ == status_failure_with_body_message(
                status@,
                error_body_text(self@.collected, self@.read_error),
            ),
            valid_utf8(prefix(self@.collected, MAX_ERROR_BODY as int)) ==> (res matches OmnihookError::NotifyFailed(m) && m@ == status_failure_with_body_message(
                status@,
                body_text_from(
                    decode_utf8(prefix(self@.collected, MAX_ERROR_BODY as int)),
                    self@.collected,
                    self@.read_error,
                ),
            )),
    {
        let body = self.body_text();
        let mut m = String::new();
        m.append("Webhook request failed with status: ");
        m.append(status);
        m.append(". Body: ");
        m.append(body.as_str());
        assert(m@ =~= status_failure_with_body_message(status@, body@));
        OmnihookError::NotifyFailed(m)
    }
}

/// The error reported for a response with the failure status `status`,
/// when the body is not to be reported.
pub fn status_failure(status: &str) -> (res: OmnihookError)
    ensures
        res matches OmnihookError::NotifyFailed(m) && m@ == status_failure_message(status@),
{
    let mut m = String::new();
    m.append("Webhook request failed with status: ");
    m.append(status);
    OmnihookError::NotifyFailed(m)
}

} // verus!
