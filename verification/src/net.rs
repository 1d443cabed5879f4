//! Bounds on a conversation with an untrusted peer.
//!
//! A hostile endpoint can answer with an arbitrarily large body, or accept the
//! connection and then never finish sending. Two guards make such a peer
//! harmless: a client with deadlines (`build_client`), and a body reader that
//! refuses to hold more than a fixed number of bytes (`CappedBody`).

use crate::error::SentinelError;
use crate::json::{
    digits_countable, has_countable_digits, json_outcome, parse_json, Json, JsonTree,
};
use crate::text::{decimal, law_number_is_read_back, push_decimal};
use std::time::Duration;
use vstd::prelude::*;
use vstd::string::StringExecFns;

verus! {

/// Deadline, in seconds, for a single request from connect through body read.
pub const DEFAULT_REQUEST_TIMEOUT_SECS: u64 = 10;

/// Deadline, in seconds, for establishing the connection alone.
pub const DEFAULT_CONNECT_TIMEOUT_SECS: u64 = 5;

/// Upper bound on a response body, for every peer. The replies that are read are
/// well under a kilobyte; anything near this bound is a peer trying to exhaust
/// memory.
pub const MAX_RESPONSE_BYTES: usize = 64 * 1024;

/// Declares `reqwest::Client`, a pool of connections. Nothing inside it is looked at.
#[verifier::external_type_specification]
#[verifier::external_body]
pub struct ExClient(reqwest::Client);

/// The deadlines that a client was built with: for a whole request, and for
/// connecting.
pub uninterp spec fn client_deadlines(client: reqwest::Client) -> (Duration, Duration);

/// How long a `Duration` is, in nanoseconds: what `Duration::as_nanos` counts.
pub uninterp spec fn duration_nanos(duration: Duration) -> nat;

/// `Duration::from_secs` makes a duration of that many whole seconds.
pub assume_specification[ Duration::from_secs ](secs: u64) -> (duration: Duration)
    ensures
        duration_nanos(duration) == secs * 1_000_000_000,
;

/// Calls `reqwest::ClientBuilder` with `timeout`, `connect_timeout` and `build`.
/// A client that comes back holds the two deadlines it was asked for. Whether one
/// comes back depends on the machine's TLS and resolver setup, and is left open.
#[verifier::external_body]
fn client_with_deadlines(request_timeout: Duration, connect_timeout: Duration) -> (built: Result<
    reqwest::Client,
    reqwest::Error,
>)
    ensures
        built matches Ok(client) ==> client_deadlines(client) == (request_timeout, connect_timeout),
{
    reqwest::Client::builder().timeout(request_timeout).connect_timeout(connect_timeout).build()
}

/// Builds an HTTP client whose requests cannot hang indefinitely.
///
/// The only error is `SentinelError::Http`: the TLS or resolver backend failed to
/// start.
pub fn build_client(request_timeout: Duration, connect_timeout: Duration) -> (built: Result<
    reqwest::Client,
    SentinelError,
>)
    ensures
        match built {
            Ok(client) => client_deadlines(client) == (request_timeout, connect_timeout),
            Err(error) => error is Http,
        },
{
    client_or_error(client_with_deadlines(request_timeout, connect_timeout))
}

/// The client that was built, or the reason it was not as `SentinelError::Http`.
pub fn client_or_error(built: Result<reqwest::Client, reqwest::Error>) -> (outcome: Result<
    reqwest::Client,
    SentinelError,
>)
    ensures
        match built {
            Ok(client) => outcome == Ok::<reqwest::Client, SentinelError>(client),
            Err(cause) => outcome == Err::<reqwest::Client, SentinelError>(
                SentinelError::Http(cause),
            ),
        },
{
    match built {
        Ok(client) => Ok(client),
        Err(cause) => Err(SentinelError::from(cause)),
    }
}

/// What is said of a body that outgrows `max_bytes`.
pub open spec fn over_cap_text(max_bytes: nat) -> Seq<char> {
    "response body exceeds the "@ + decimal(max_bytes) + "-byte cap"@
}

/// What is said of a response that declares more than `max_bytes`.
pub open spec fn declared_over_cap_text(declared: nat, max_bytes: nat) -> Seq<char> {
    "response declares "@ + decimal(declared) + " bytes, over the "@ + decimal(max_bytes)
        + "-byte cap"@
}

/// What is said of a body that does not parse, given what the parser said.
pub open spec fn not_json_text(fault: Seq<char>) -> Seq<char> {
    "body is not valid JSON: "@ + fault
}

/// Rejects the next chunk if accepting it would push the buffered body past
/// `max_bytes`.
///
/// The exact sum decides: the bound itself neither wraps nor saturates.
pub fn check_budget(buffered: usize, incoming: usize, max_bytes: usize) -> (verdict: Result<
    (),
    SentinelError,
>)
    ensures
        verdict is Err <==> buffered + incoming > max_bytes,
        verdict matches Err(error) ==> error.is_malformed(over_cap_text(max_bytes as nat)),
        verdict matches Err(error) ==> error is MalformedResponse,
{
    if incoming > max_bytes || buffered > max_bytes - incoming {
        let mut text = "response body exceeds the ".to_string();
        push_decimal(&mut text, max_bytes as u64);
        text.append("-byte cap");
        return Err(SentinelError::MalformedResponse(text));
    }
    Ok(())
}

/// What is held after `chunk` arrives behind `held` under a cap of `max_bytes`:
/// both, or nothing if they do not fit.
pub open spec fn joined(held: Seq<u8>, chunk: Seq<u8>, max_bytes: nat) -> Option<Seq<u8>> {
    if held.len() + chunk.len() <= max_bytes {
        Some(held + chunk)
    } else {
        None
    }
}

/// A response declares a length that is over the cap.
pub open spec fn declares_too_much(declared: Option<u64>, max_bytes: nat) -> bool {
    declared matches Some(length) && length > max_bytes
}

/// A response body while it is being read, never larger than its cap.
///
/// The reader is opened with the declared length, handed each chunk as it
/// arrives, and finished at the end of the body.
#[derive(Debug)]
pub struct CappedBody {
    buf: Vec<u8>,
    max_bytes: usize,
}

impl CappedBody {
    #[verifier::type_invariant]
    spec fn within_cap(&self) -> bool {
        self.buf@.len() <= self.max_bytes
    }

    /// The bytes held so far.
    pub closed spec fn held(&self) -> Seq<u8> {
        self.buf@
    }

    /// The largest number of bytes that may be held.
    pub closed spec fn cap(&self) -> nat {
        self.max_bytes as nat
    }

    /// Starts reading a body, unless the response declares a length over the cap.
    pub fn open(declared: Option<u64>, max_bytes: usize) -> (opened: Result<Self, SentinelError>)
        ensures
            opened is Err <==> declares_too_much(declared, max_bytes as nat),
            opened matches Ok(body) ==> body.held() == Seq::<u8>::empty() && body.cap()
                == max_bytes,
            opened matches Err(error) ==> error.is_malformed(
                declared_over_cap_text(declared->0 as nat, max_bytes as nat),
            ),
            opened is Ok <==> (declared matches Some(length) ==> length <= max_bytes),
            opened matches Err(error) ==> error is MalformedResponse,
    {
        if let Some(length) = declared {
            if length > max_bytes as u64 {
                let mut text = "response declares ".to_string();
                push_decimal(&mut text, length);
                text.append(" bytes, over the ");
                push_decimal(&mut text, max_bytes as u64);
                text.append("-byte cap");
                return Err(SentinelError::MalformedResponse(text));
            }
        }
        Ok(CappedBody { buf: Vec::new(), max_bytes })
    }

    /// Takes the next chunk, unless it would push the body past the cap. A refused
    /// chunk leaves the body as it was.
    pub fn accept(&mut self, chunk: &[u8]) -> (verdict: Result<(), SentinelError>)
        ensures
            final(self).cap() == old(self).cap(),
            final(self).held().len() <= final(self).cap(),
            match joined(old(self).held(), chunk@, old(self).cap()) {
                Some(held) => verdict is Ok && final(self).held() == held,
                None => {
                    &&& verdict matches Err(error) && error.is_malformed(
                        over_cap_text(old(self).cap()),
                    )
                    &&& final(self).held() == old(self).held()
                },
            },
            verdict is Ok <==> old(self).held().len() + chunk@.len() <= old(self).cap(),
            verdict is Ok ==> final(self).held() == old(self).held() + chunk@,
            verdict matches Err(error) ==> error is MalformedResponse,
    {
        proof {
            use_type_invariant(&*self);
        }
        check_budget(self.buf.len(), chunk.len(), self.max_bytes)?;
        let mut buf: Vec<u8> = Vec::new();
        std::mem::swap(&mut buf, &mut self.buf);
        buf.extend_from_slice(chunk);
        assert(buf@ =~= old(self).buf@ + chunk@);
        self.buf = buf;
        Ok(())
    }

    /// Tells whether the body can be finished: no run of digits in it is longer
    /// than the parser can count. Under a cap of at most `i32::MAX` it always can.
    pub fn has_countable_digits(&self) -> (countable: bool)
        ensures
            countable == digits_countable(self.held()),
            self.cap() <= i32::MAX ==> countable,
    {
        proof {
            use_type_invariant(self);
        }
        has_countable_digits(self.buf.as_slice())
    }

    /// Parses the body that was read.
    pub fn finish(self) -> (reply: Result<Json, SentinelError>)
        requires
            self.cap() <= i32::MAX || digits_countable(self.held()),
        ensures
            match json_outcome(self.held()) {
                Ok(tree) => reply matches Ok(json) && json@ == tree,
                Err(fault) => reply matches Err(error) && error.is_malformed(not_json_text(fault)),
            },
    {
        proof {
            use_type_invariant(&self);
        }
        reply_of(parse_json(self.buf.as_slice()))
    }
}

/// The reply that a parsed body gives: the document, or `MalformedResponse` with
/// what the parser said.
pub fn reply_of(parsed: Result<Json, String>) -> (reply: Result<Json, SentinelError>)
    ensures
        match parsed {
            Ok(json) => reply == Ok::<Json, SentinelError>(json),
            Err(fault) => reply matches Err(error) && error.is_malformed(not_json_text(fault@)),
        },
{
    match parsed {
        Ok(json) => Ok(json),
        Err(fault) => {
            let mut text = "body is not valid JSON: ".to_string();
            text.append(fault.as_str());
            Err(SentinelError::MalformedResponse(text))
        },
    }
}

/// One thing that a transport hands over: a chunk of the body, or its failure.
pub type Arrival = Result<Vec<u8>, reqwest::Error>;

/// How far a body has come.
pub enum Progress {
    /// Everything so far fits and is held.
    Held(Seq<u8>),
    /// A chunk did not fit.
    OverCap,
    /// The transport failed.
    Broken(reqwest::Error),
}

/// How far a body has come after `arrivals` under a cap of `max_bytes`. The first
/// chunk that does not fit, or the first failure, ends it.
pub open spec fn progress(arrivals: Seq<Arrival>, max_bytes: nat) -> Progress
    decreases arrivals.len(),
{
    if arrivals.len() == 0 {
        Progress::Held(Seq::empty())
    } else {
        match progress(arrivals.drop_last(), max_bytes) {
            Progress::Held(held) => match arrivals.last() {
                Ok(chunk) => match joined(held, chunk@, max_bytes) {
                    Some(both) => Progress::Held(both),
                    None => Progress::OverCap,
                },
                Err(error) => Progress::Broken(error),
            },
            ended => ended,
        }
    }
}

/// All the bytes that arrived, whether or not they fit.
pub open spec fn sent(arrivals: Seq<Arrival>) -> Seq<u8>
    decreases arrivals.len(),
{
    if arrivals.len() == 0 {
        Seq::empty()
    } else {
        match arrivals.last() {
            Ok(chunk) => sent(arrivals.drop_last()) + chunk@,
            Err(_) => sent(arrivals.drop_last()),
        }
    }
}

/// `reply` is what a response gives that declares `declared` and delivers
/// `arrivals`, read under a cap of `max_bytes`.
pub open spec fn is_capped_reply(
    reply: Result<Json, SentinelError>,
    declared: Option<u64>,
    arrivals: Seq<Arrival>,
    max_bytes: nat,
) -> bool {
    if declares_too_much(declared, max_bytes) {
        reply matches Err(error) && error.is_malformed(
            declared_over_cap_text(declared->0 as nat, max_bytes),
        )
    } else {
        match progress(arrivals, max_bytes) {
            Progress::Held(body) => match json_outcome(body) {
                Ok(tree) => reply matches Ok(json) && json@ == tree,
                Err(fault) => reply matches Err(error) && error.is_malformed(not_json_text(fault)),
            },
            Progress::OverCap => reply matches Err(error) && error.is_malformed(
                over_cap_text(max_bytes),
            ),
            Progress::Broken(cause) => reply == Err::<Json, SentinelError>(
                SentinelError::Http(cause),
            ),
        }
    }
}

/// A body that is read to its end has no run of digits longer than the parser can
/// count. Under a cap of at most `i32::MAX` no body has.
pub open spec fn reads_countable(
    declared: Option<u64>,
    arrivals: Seq<Arrival>,
    max_bytes: nat,
) -> bool {
    !declares_too_much(declared, max_bytes) ==> (progress(arrivals, max_bytes) matches
        Progress::Held(body) ==> digits_countable(body))
}

/// Reads a response body into JSON, refusing to hold more than `max_bytes`.
///
/// A declared length over the cap is rejected before any of the body is looked
/// at; a peer that understates or omits its length is stopped at the first chunk
/// that does not fit. This is for a transport whose arrivals are at hand; one that
/// is still receiving drives `CappedBody` with each chunk as it comes, and takes
/// the same steps.
pub fn read_json_capped(
    declared: Option<u64>,
    arrivals: Vec<Arrival>,
    max_bytes: usize,
) -> (reply: Result<Json, SentinelError>)
    requires
        max_bytes <= i32::MAX || reads_countable(declared, arrivals@, max_bytes as nat),
    ensures
        is_capped_reply(reply, declared, arrivals@, max_bytes as nat),
{
    let mut body = CappedBody::open(declared, max_bytes)?;
    let ghost all = arrivals@;
    for arrival in it: arrivals
        invariant
            it.seq() == all,
            body.cap() == max_bytes,
            progress(all.take(it.index()), max_bytes as nat) == Progress::Held(body.held()),
            !declares_too_much(declared, max_bytes as nat),
            max_bytes <= i32::MAX || reads_countable(declared, all, max_bytes as nat),
    {
        proof {
            let next = all.take(it.index() + 1);
            assert(next.drop_last() =~= all.take(it.index()));
            assert(next.last() == arrival);
            lemma_ended_for_good(all, it.index() + 1, max_bytes as nat);
        }
        match arrival {
            Ok(chunk) => body.accept(chunk.as_slice())?,
            Err(error) => return Err(SentinelError::from(error)),
        }
    }
    assert(all.take(all.len() as int) =~= all);
    body.finish()
}

proof fn lemma_ended_for_good(arrivals: Seq<Arrival>, n: int, max_bytes: nat)
    requires
        0 <= n <= arrivals.len(),
    ensures
        progress(arrivals.take(n), max_bytes) is Held || progress(arrivals, max_bytes) == progress(
            arrivals.take(n),
            max_bytes,
        ),
    decreases arrivals.len(),
{
    if n == arrivals.len() {
        assert(arrivals.take(n) =~= arrivals);
    } else {
        assert(arrivals.drop_last().take(n) =~= arrivals.take(n));
        lemma_ended_for_good(arrivals.drop_last(), n, max_bytes);
    }
}

/// Every arrival is a chunk: the transport did not fail.
pub open spec fn unbroken(arrivals: Seq<Arrival>) -> bool {
    forall|i: int| 0 <= i < arrivals.len() ==> #[trigger] arrivals[i] is Ok
}

/// A body is held exactly when the transport did not fail and everything it sent
/// fits under the cap, and then all of it is held.
pub proof fn law_held_when_it_fits(arrivals: Seq<Arrival>, max_bytes: nat)
    ensures
        progress(arrivals, max_bytes) is Held <==> unbroken(arrivals) && sent(arrivals).len()
            <= max_bytes,
        progress(arrivals, max_bytes) matches Progress::Held(held) ==> held == sent(arrivals),
        progress(arrivals, max_bytes) is OverCap ==> sent(arrivals).len() > max_bytes,
    decreases arrivals.len(),
{
    if arrivals.len() > 0 {
        let before = arrivals.drop_last();
        law_held_when_it_fits(before, max_bytes);
        assert(unbroken(arrivals) <==> unbroken(before) && arrivals.last() is Ok) by {
            if unbroken(arrivals) {
                assert forall|i: int| 0 <= i < before.len() implies #[trigger] before[i] is Ok by {
                    assert(before[i] == arrivals[i]);
                }
            }
            if unbroken(before) && arrivals.last() is Ok {
                assert forall|i: int| 0 <= i < arrivals.len() implies #[trigger] arrivals[i] is Ok by {
                    if i < before.len() {
                        assert(arrivals[i] == before[i]);
                    }
                }
            }
        }
    }
}

/// Handing each chunk to a `CappedBody` as it comes takes the same steps as
/// reading all of them at once.
pub proof fn law_chunk_by_chunk(arrivals: Seq<Arrival>, chunk: Vec<u8>, max_bytes: nat)
    requires
        progress(arrivals, max_bytes) is Held,
    ensures
        progress(arrivals.push(Ok(chunk)), max_bytes) == match joined(
            progress(arrivals, max_bytes)->Held_0,
            chunk@,
            max_bytes,
        ) {
            Some(held) => Progress::Held(held),
            None => Progress::OverCap,
        },
{
    assert(arrivals.push(Ok(chunk)).drop_last() =~= arrivals);
}

/// A cap of at most `i32::MAX` is enough for every response to be read.
pub proof fn law_small_cap_reads_everything(
    declared: Option<u64>,
    arrivals: Seq<Arrival>,
    max_bytes: nat,
)
    requires
        max_bytes <= i32::MAX,
    ensures
        reads_countable(declared, arrivals, max_bytes),
{
    law_held_when_it_fits(arrivals, max_bytes);
}

/// A peer that sends more than the cap is refused, whatever length it declares
/// and however it cuts the body up. Unless its transport fails, it is refused as
/// malformed.
pub proof fn law_oversize_body_is_refused(
    reply: Result<Json, SentinelError>,
    declared: Option<u64>,
    arrivals: Seq<Arrival>,
    max_bytes: nat,
)
    requires
        is_capped_reply(reply, declared, arrivals, max_bytes),
        sent(arrivals).len() > max_bytes,
    ensures
        reply is Err,
        unbroken(arrivals) ==> reply->Err_0 is MalformedResponse,
{
    law_held_when_it_fits(arrivals, max_bytes);
    if unbroken(arrivals) {
        lemma_unbroken_is_not_broken(arrivals, max_bytes);
    }
}

/// A document that is handed out was read from the whole body, and the body is
/// within the cap.
pub proof fn law_reply_is_the_whole_body(
    reply: Result<Json, SentinelError>,
    declared: Option<u64>,
    arrivals: Seq<Arrival>,
    max_bytes: nat,
)
    requires
        is_capped_reply(reply, declared, arrivals, max_bytes),
        reply is Ok,
    ensures
        unbroken(arrivals),
        sent(arrivals).len() <= max_bytes,
        json_outcome(sent(arrivals)) == Ok::<JsonTree, Seq<char>>(reply->Ok_0@),
{
    law_held_when_it_fits(arrivals, max_bytes);
}

/// How a body is cut into chunks makes no difference to the reply.
pub proof fn law_chunking_is_irrelevant(
    one: Result<Json, SentinelError>,
    other: Result<Json, SentinelError>,
    declared: Option<u64>,
    arrivals: Seq<Arrival>,
    rearranged: Seq<Arrival>,
    max_bytes: nat,
)
    requires
        unbroken(arrivals),
        unbroken(rearranged),
        sent(arrivals) == sent(rearranged),
        is_capped_reply(one, declared, arrivals, max_bytes),
        is_capped_reply(other, declared, rearranged, max_bytes),
    ensures
        one is Ok <==> other is Ok,
        one is Ok ==> one->Ok_0@ == other->Ok_0@,
        one is Err ==> one->Err_0.text() == other->Err_0.text(),
{
    law_held_when_it_fits(arrivals, max_bytes);
    law_held_when_it_fits(rearranged, max_bytes);
    lemma_unbroken_is_not_broken(arrivals, max_bytes);
    lemma_unbroken_is_not_broken(rearranged, max_bytes);
}

proof fn lemma_unbroken_is_not_broken(arrivals: Seq<Arrival>, max_bytes: nat)
    requires
        unbroken(arrivals),
    ensures
        progress(arrivals, max_bytes) !is Broken,
    decreases arrivals.len(),
{
    if arrivals.len() > 0 {
        let before = arrivals.drop_last();
        assert forall|i: int| 0 <= i < before.len() implies #[trigger] before[i] is Ok by {
            assert(before[i] == arrivals[i]);
        }
        lemma_unbroken_is_not_broken(before, max_bytes);
        assert(arrivals[arrivals.len() - 1] is Ok);
    }
}

/// A truthful declaration is refused exactly when the body itself would be.
pub proof fn law_truthful_length(declared: u64, arrivals: Seq<Arrival>, max_bytes: nat)
    requires
        unbroken(arrivals),
        declared == sent(arrivals).len(),
    ensures
        declares_too_much(Some(declared), max_bytes) <==> progress(arrivals, max_bytes) is OverCap,
{
    law_held_when_it_fits(arrivals, max_bytes);
    lemma_unbroken_is_not_broken(arrivals, max_bytes);
}

/// What is read under one cap is read the same under any larger one.
pub proof fn law_larger_cap_reads_the_same(
    reply: Result<Json, SentinelError>,
    again: Result<Json, SentinelError>,
    declared: Option<u64>,
    arrivals: Seq<Arrival>,
    max_bytes: nat,
    larger: nat,
)
    requires
        max_bytes <= larger,
        is_capped_reply(reply, declared, arrivals, max_bytes),
        is_capped_reply(again, declared, arrivals, larger),
        reply is Ok,
    ensures
        again is Ok,
        again->Ok_0@ == reply->Ok_0@,
{
    law_held_when_it_fits(arrivals, max_bytes);
    law_held_when_it_fits(arrivals, larger);
}

/// What was sent is the chunks, one behind the other, and nothing else.
pub proof fn law_sent_is_the_chunks_in_order(
    arrivals: Seq<Arrival>,
    later: Seq<Arrival>,
    chunk: Vec<u8>,
    cause: reqwest::Error,
)
    ensures
        sent(Seq::<Arrival>::empty()) == Seq::<u8>::empty(),
        sent(seq![Ok::<Vec<u8>, reqwest::Error>(chunk)]) == chunk@,
        sent(seq![Err::<Vec<u8>, reqwest::Error>(cause)]) == Seq::<u8>::empty(),
        sent(arrivals + later) == sent(arrivals) + sent(later),
    decreases later.len(),
{
    reveal_with_fuel(sent, 2);
    assert(seq![Ok::<Vec<u8>, reqwest::Error>(chunk)].drop_last() =~= Seq::<Arrival>::empty());
    assert(seq![Err::<Vec<u8>, reqwest::Error>(cause)].drop_last() =~= Seq::<Arrival>::empty());
    assert(sent(seq![Ok::<Vec<u8>, reqwest::Error>(chunk)]) =~= chunk@);
    if later.len() == 0 {
        assert(arrivals + later =~= arrivals);
    } else {
        law_sent_is_the_chunks_in_order(arrivals, later.drop_last(), chunk, cause);
        assert((arrivals + later).drop_last() =~= arrivals + later.drop_last());
        assert((arrivals + later).last() == later.last());
    }
    assert(sent(arrivals + later) =~= sent(arrivals) + sent(later));
}

/// A chunk joins what is held exactly when both together are no longer than the cap,
/// and a declared length is too much exactly when it is longer.
pub proof fn law_the_cap_is_inclusive(
    held: Seq<u8>,
    chunk: Seq<u8>,
    declared: Option<u64>,
    max_bytes: nat,
)
    ensures
        held.len() + chunk.len() <= max_bytes ==> joined(held, chunk, max_bytes) == Some(
            held + chunk,
        ),
        held.len() + chunk.len() > max_bytes ==> joined(held, chunk, max_bytes) is None,
        match declared {
            Some(length) => declares_too_much(declared, max_bytes) <==> length > max_bytes,
            None => !declares_too_much(declared, max_bytes),
        },
{
}

/// A body that fits is read: if no length over the cap is declared, the transport
/// does not fail and all that is sent fits, then the reply is the document that was
/// sent, or says that it is none. The declared length, or its absence, makes no
/// difference.
pub proof fn law_body_that_fits_is_read(
    reply: Result<Json, SentinelError>,
    declared: Option<u64>,
    arrivals: Seq<Arrival>,
    max_bytes: nat,
)
    requires
        is_capped_reply(reply, declared, arrivals, max_bytes),
        declared matches Some(length) ==> length <= max_bytes,
        forall|i: int| 0 <= i < arrivals.len() ==> #[trigger] arrivals[i] is Ok,
        sent(arrivals).len() <= max_bytes,
    ensures
        match json_outcome(sent(arrivals)) {
            Ok(tree) => reply matches Ok(json) && json@ == tree,
            Err(fault) => reply matches Err(SentinelError::MalformedResponse(said)) && said@
                == "body is not valid JSON: "@ + fault,
        },
{
    law_held_when_it_fits(arrivals, max_bytes);
    assert(unbroken(arrivals));
}

/// A body of one chunk that fits is read, whether its length is declared or not.
pub proof fn law_single_chunk_is_read(
    reply: Result<Json, SentinelError>,
    declared: Option<u64>,
    chunk: Vec<u8>,
    max_bytes: nat,
)
    requires
        is_capped_reply(reply, declared, seq![Ok::<Vec<u8>, reqwest::Error>(chunk)], max_bytes),
        declared matches Some(length) ==> length == chunk@.len(),
        chunk@.len() <= max_bytes,
        json_outcome(chunk@) is Ok,
    ensures
        reply matches Ok(json) && Ok::<JsonTree, Seq<char>>(json@) == json_outcome(chunk@),
{
    let arrivals = seq![Ok::<Vec<u8>, reqwest::Error>(chunk)];
    reveal_with_fuel(sent, 2);
    assert(arrivals.drop_last() =~= Seq::<Arrival>::empty());
    assert(sent(arrivals) =~= chunk@);
    law_body_that_fits_is_read(reply, declared, arrivals, max_bytes);
}

/// A declared length over the cap is refused whatever arrives, and the refusal names
/// the length and the cap.
pub proof fn law_declared_oversize_is_refused(
    reply: Result<Json, SentinelError>,
    length: u64,
    arrivals: Seq<Arrival>,
    max_bytes: nat,
)
    requires
        is_capped_reply(reply, Some(length), arrivals, max_bytes),
        length > max_bytes,
    ensures
        reply matches Err(SentinelError::MalformedResponse(said)) && said@ == "response declares "@
            + decimal(length as nat) + " bytes, over the "@ + decimal(max_bytes) + "-byte cap"@,
{
}

/// As soon as the chunks that came are longer than the cap, the body is refused with
/// the cap named, whatever comes behind them.
pub proof fn law_stops_at_the_chunk_that_crosses(
    reply: Result<Json, SentinelError>,
    declared: Option<u64>,
    arrivals: Seq<Arrival>,
    n: int,
    max_bytes: nat,
)
    requires
        is_capped_reply(reply, declared, arrivals, max_bytes),
        declared matches Some(length) ==> length <= max_bytes,
        0 <= n <= arrivals.len(),
        forall|i: int| 0 <= i < n ==> #[trigger] arrivals[i] is Ok,
        sent(arrivals.take(n)).len() > max_bytes,
    ensures
        reply matches Err(SentinelError::MalformedResponse(said)) && said@
            == "response body exceeds the "@ + decimal(max_bytes) + "-byte cap"@,
{
    let come = arrivals.take(n);
    assert forall|i: int| 0 <= i < come.len() implies #[trigger] come[i] is Ok by {
        assert(come[i] == arrivals[i]);
    }
    assert(unbroken(come));
    law_held_when_it_fits(come, max_bytes);
    lemma_unbroken_is_not_broken(come, max_bytes);
    lemma_ended_for_good(arrivals, n, max_bytes);
}

/// The first failure of the transport, behind chunks that fit, is what is reported.
pub proof fn law_transport_failure_is_reported(
    reply: Result<Json, SentinelError>,
    declared: Option<u64>,
    arrivals: Seq<Arrival>,
    n: int,
    max_bytes: nat,
)
    requires
        is_capped_reply(reply, declared, arrivals, max_bytes),
        declared matches Some(length) ==> length <= max_bytes,
        0 <= n < arrivals.len(),
        forall|i: int| 0 <= i < n ==> #[trigger] arrivals[i] is Ok,
        sent(arrivals.take(n)).len() <= max_bytes,
        arrivals[n] is Err,
    ensures
        reply == Err::<Json, SentinelError>(SentinelError::Http(arrivals[n]->Err_0)),
{
    let come = arrivals.take(n);
    assert forall|i: int| 0 <= i < come.len() implies #[trigger] come[i] is Ok by {
        assert(come[i] == arrivals[i]);
    }
    assert(unbroken(come));
    law_held_when_it_fits(come, max_bytes);
    let next = arrivals.take(n + 1);
    assert(next.drop_last() =~= come);
    assert(next.last() == arrivals[n]);
    lemma_ended_for_good(arrivals, n + 1, max_bytes);
}

/// What is asked of a body that is to be read is no more than that the bytes sent
/// have no run of digits that the parser cannot count.
pub proof fn law_countable_bytes_can_be_read(
    declared: Option<u64>,
    arrivals: Seq<Arrival>,
    max_bytes: nat,
)
    requires
        digits_countable(sent(arrivals)),
    ensures
        reads_countable(declared, arrivals, max_bytes),
{
    law_held_when_it_fits(arrivals, max_bytes);
}

/// Each refusal names the numbers that led to it, and different numbers never give
/// the same text.
pub proof fn law_refusals_name_their_numbers(
    declared: nat,
    max_bytes: nat,
    other_declared: nat,
    other_max: nat,
    fault: Seq<char>,
)
    ensures
        over_cap_text(max_bytes) == "response body exceeds the "@ + decimal(max_bytes)
            + "-byte cap"@,
        declared_over_cap_text(declared, max_bytes) == "response declares "@ + decimal(declared)
            + " bytes, over the "@ + decimal(max_bytes) + "-byte cap"@,
        not_json_text(fault) == "body is not valid JSON: "@ + fault,
        over_cap_text(max_bytes) == over_cap_text(other_max) ==> max_bytes == other_max,
        declared_over_cap_text(declared, max_bytes) == declared_over_cap_text(
            other_declared,
            other_max,
        ) ==> declared == other_declared && max_bytes == other_max,
{
    reveal_strlit("-byte cap");
    reveal_strlit(" bytes, over the ");
    let end = "-byte cap"@;
    let mid = " bytes, over the "@;
    if over_cap_text(max_bytes) == over_cap_text(other_max) {
        let start = "response body exceeds the "@;
        assert(over_cap_text(max_bytes).skip(start.len() as int) =~= decimal(max_bytes) + end);
        assert(over_cap_text(other_max).skip(start.len() as int) =~= decimal(other_max) + end);
        law_number_is_read_back(max_bytes, other_max, end, end);
    }
    let one = declared_over_cap_text(declared, max_bytes);
    let other = declared_over_cap_text(other_declared, other_max);
    if one == other {
        let start = "response declares "@;
        let after_one = mid + (decimal(max_bytes) + end);
        let after_other = mid + (decimal(other_max) + end);
        assert(one.skip(start.len() as int) =~= decimal(declared) + after_one);
        assert(other.skip(start.len() as int) =~= decimal(other_declared) + after_other);
        law_number_is_read_back(declared, other_declared, after_one, after_other);
        assert(after_one.skip(mid.len() as int) =~= decimal(max_bytes) + end);
        assert(after_other.skip(mid.len() as int) =~= decimal(other_max) + end);
        law_number_is_read_back(max_bytes, other_max, end, end);
    }
}

/// A client gives up: connecting has a deadline, and it is no later than the
/// deadline of the whole request. No response is read past 64 KiB.
pub proof fn law_default_bounds()
    ensures
        0 < DEFAULT_CONNECT_TIMEOUT_SECS <= DEFAULT_REQUEST_TIMEOUT_SECS,
        DEFAULT_REQUEST_TIMEOUT_SECS == 10,
        DEFAULT_CONNECT_TIMEOUT_SECS == 5,
        MAX_RESPONSE_BYTES == 65536,
{
}

} // verus!
