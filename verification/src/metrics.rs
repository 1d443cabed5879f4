//! Probing a Solana node: the `getSlot` request, its reply, and what one probe
//! found.

use crate::error::SentinelError;
use crate::json::{first_named, Json, JsonNumber, JsonTree};
use crate::net::{
    build_client, client_deadlines, duration_nanos, DEFAULT_CONNECT_TIMEOUT_SECS,
    DEFAULT_REQUEST_TIMEOUT_SECS, MAX_RESPONSE_BYTES,
};
use crate::text::{
    decimal, is_digit, law_decimal_is_digits, law_decimal_is_injective, law_unsigned_value,
    unsigned_value,
};
use std::time::Duration;
use vstd::prelude::*;
use vstd::string::StringExecFns;

verus! {

/// Commitment level that a slot is asked for at.
pub const COMMITMENT: &'static str = "finalized";

/// Upper bound on an RPC response body. A `getSlot` reply is a few dozen bytes.
pub const MAX_RPC_RESPONSE_BYTES: usize = MAX_RESPONSE_BYTES;

/// How often a node is asked before a probe of it fails.
pub const PROBE_ATTEMPTS: u32 = 3;

/// What a single probe of a single node found.
#[derive(Debug)]
pub struct NodeMetrics {
    /// Slot of the node at the time of the probe.
    pub slot: u64,
    /// Response time of the node in milliseconds.
    pub rtt_ms: u64,
    /// URL of the node.
    pub node_url: String,
}

/// What one probe of both nodes found.
#[derive(Debug)]
pub struct ProbeResult {
    /// The watched (target) node.
    pub target: NodeMetrics,
    /// The reference node.
    pub reference: NodeMetrics,
}

impl Clone for NodeMetrics {
    fn clone(&self) -> (copy: Self)
        ensures
            copy == *self,
    {
        NodeMetrics { slot: self.slot, rtt_ms: self.rtt_ms, node_url: self.node_url.clone() }
    }
}

impl Clone for ProbeResult {
    fn clone(&self) -> (copy: Self)
        ensures
            copy == *self,
    {
        ProbeResult { target: self.target.clone(), reference: self.reference.clone() }
    }
}

/// Issues `getSlot` probes over a client with deadlines. One client serves every
/// probe, so that its connections are reused.
pub struct RpcProbe {
    /// The client that requests go through.
    pub http: reqwest::Client,
}

impl RpcProbe {
    /// Builds a prober, once at startup.
    ///
    /// The only error is `SentinelError::Http`: the TLS or resolver backend failed
    /// to start.
    pub fn new() -> (built: Result<Self, SentinelError>)
        ensures
            match built {
                Ok(probe) => {
                    &&& duration_nanos(client_deadlines(probe.http).0)
                        == DEFAULT_REQUEST_TIMEOUT_SECS * 1_000_000_000
                    &&& duration_nanos(client_deadlines(probe.http).1)
                        == DEFAULT_CONNECT_TIMEOUT_SECS * 1_000_000_000
                },
                Err(error) => error is Http,
            },
    {
        RpcProbe::over(
            build_client(
                Duration::from_secs(DEFAULT_REQUEST_TIMEOUT_SECS),
                Duration::from_secs(DEFAULT_CONNECT_TIMEOUT_SECS),
            ),
        )
    }

    /// A prober over the client that was built, or the reason there is none.
    pub fn over(built: Result<reqwest::Client, SentinelError>) -> (probe: Result<
        Self,
        SentinelError,
    >)
        ensures
            match built {
                Ok(http) => probe == Ok::<Self, SentinelError>(RpcProbe { http }),
                Err(error) => probe == Err::<Self, SentinelError>(error),
            },
    {
        match built {
            Ok(http) => Ok(RpcProbe { http }),
            Err(error) => Err(error),
        }
    }
}

/// What is said when a node answers with a JSON-RPC error.
pub open spec fn refused_text(url: Seq<char>, message: Seq<char>) -> Seq<char> {
    url + ": getSlot failed: "@ + message
}

/// What is said when a node answers without a slot number.
pub open spec fn no_slot_text(url: Seq<char>) -> Seq<char> {
    url + ": getSlot returned no usable slot number"@
}

/// The slot in a `getSlot` reply, or what is wrong with the reply.
pub open spec fn slot_outcome(reply: JsonTree, url: Seq<char>) -> Result<u64, Seq<char>> {
    match reply.get("error"@) {
        Some(error) => {
            let message = match error.get("message"@) {
                Some(field) => field.as_str(),
                None => None,
            };
            Err(
                refused_text(
                    url,
                    match message {
                        Some(chars) => chars,
                        None => "unknown error"@,
                    },
                ),
            )
        },
        None => match reply.get("result"@) {
            Some(field) => match field.as_u64() {
                Some(slot) => Ok(slot),
                None => Err(no_slot_text(url)),
            },
            None => Err(no_slot_text(url)),
        },
    }
}

/// Extracts the slot number from a `getSlot` reply.
///
/// The node is untrusted, so every shape other than a success that carries an
/// unsigned integer `result` is an error. The error names the node by its `url`.
pub fn parse_slot(body: &Json, url: &str) -> (outcome: Result<u64, SentinelError>)
    ensures
        match slot_outcome(body@, url@) {
            Ok(slot) => outcome == Ok::<u64, SentinelError>(slot),
            Err(text) => outcome matches Err(error) && error.is_rpc(text),
        },
{
    if let Some(error) = body.get("error") {
        let message = match error.get("message") {
            Some(field) => match field.as_str() {
                Some(chars) => chars,
                None => "unknown error",
            },
            None => "unknown error",
        };
        let mut text = url.to_string();
        text.append(": getSlot failed: ");
        text.append(message);
        return Err(SentinelError::Rpc(text));
    }
    if let Some(field) = body.get("result") {
        if let Some(slot) = field.as_u64() {
            return Ok(slot);
        }
    }
    let mut text = url.to_string();
    text.append(": getSlot returned no usable slot number");
    Err(SentinelError::Rpc(text))
}

/// `outcome` is what a probe of the node at `url` found that took `elapsed_ms` and
/// got `reply`.
pub open spec fn is_probe_outcome(
    outcome: Result<NodeMetrics, SentinelError>,
    reply: JsonTree,
    url: Seq<char>,
    elapsed_ms: u128,
) -> bool {
    match slot_outcome(reply, url) {
        Ok(slot) => outcome matches Ok(metrics) && metrics.slot == slot && metrics.node_url@ == url
            && metrics.rtt_ms == elapsed_ms % 0x1_0000_0000_0000_0000,
        Err(text) => outcome matches Err(error) && error.is_rpc(text),
    }
}

/// What a probe of the node at `url` found, given its reply and the time until
/// the reply was read, in milliseconds. A time past `u64::MAX` milliseconds wraps.
pub fn node_metrics(body: &Json, url: &str, elapsed_ms: u128) -> (outcome: Result<
    NodeMetrics,
    SentinelError,
>)
    ensures
        is_probe_outcome(outcome, body@, url@, elapsed_ms),
        match slot_outcome(body@, url@) {
            Ok(slot) => outcome matches Ok(metrics) && metrics.slot == slot && metrics.node_url@
                == url@ && metrics.rtt_ms == elapsed_ms % 0x1_0000_0000_0000_0000,
            Err(text) => outcome matches Err(error) && error.is_rpc(text),
        },
{
    let slot = parse_slot(body, url)?;
    let rtt_ms: u64 = #[verifier::truncate] (elapsed_ms as u64);
    assert(rtt_ms == elapsed_ms % 0x1_0000_0000_0000_0000) by (bit_vector)
        requires
            rtt_ms == elapsed_ms as u64,
    ;
    Ok(NodeMetrics { slot, rtt_ms, node_url: url.to_string() })
}

/// The JSON-RPC call of `getSlot`, at the commitment level that is asked for.
pub open spec fn slot_request_tree() -> JsonTree {
    JsonTree::Object(
        seq![
            ("id"@, JsonTree::Number(decimal(1))),
            ("jsonrpc"@, JsonTree::Text("2.0"@)),
            ("method"@, JsonTree::Text("getSlot"@)),
            (
                "params"@,
                JsonTree::Array(
                    seq![JsonTree::Object(seq![("commitment"@, JsonTree::Text(COMMITMENT@))])],
                ),
            ),
        ],
    )
}

/// The body of the request that asks a node for its slot.
pub fn slot_request() -> (request: Json)
    ensures
        request@ == slot_request_tree(),
{
    let level = Json::Object(vec![("commitment".to_string(), text_of(COMMITMENT))]);
    assert(level->Object_0@[0].0@ == "commitment"@);
    assert(level@->Object_0 =~= seq![("commitment"@, JsonTree::Text(COMMITMENT@))]);
    let params = Json::Array(vec![level]);
    assert(params->Array_0@[0]@ == level@);
    assert(params@->Array_0 =~= seq![level@]);
    let id = Json::Number(JsonNumber::from_u64(1));
    let request = Json::Object(
        vec![
            ("id".to_string(), id),
            ("jsonrpc".to_string(), text_of("2.0")),
            ("method".to_string(), text_of("getSlot")),
            ("params".to_string(), params),
        ],
    );
    assert(request->Object_0@[0].1@ == id@);
    assert(request->Object_0@[1].1@ == JsonTree::Text("2.0"@));
    assert(request->Object_0@[2].1@ == JsonTree::Text("getSlot"@));
    assert(request->Object_0@[3].1@ == params@);
    assert(request@->Object_0 =~= slot_request_tree()->Object_0);
    request
}

fn text_of(chars: &str) -> (json: Json)
    ensures
        json@ == JsonTree::Text(chars@),
{
    Json::Text(chars.to_string())
}

/// A slot comes only out of a reply without an `error` field whose `result` is a
/// number, and the number is the slot in base ten.
pub proof fn law_slot_is_the_result(reply: JsonTree, url: Seq<char>, slot: u64)
    ensures
        slot_outcome(reply, url) == Ok::<u64, Seq<char>>(slot) <==> {
            &&& reply.get("error"@) is None
            &&& reply.get("result"@) matches Some(JsonTree::Number(text)) && text == decimal(
                slot as nat,
            )
        },
{
    if let Some(JsonTree::Number(text)) = reply.get("result"@) {
        law_unsigned_value(text, slot);
    }
}

/// A number with a sign, a point or an exponent in it is no slot, and neither is an
/// integer past `u64::MAX`.
pub proof fn law_other_numbers_are_no_slot(
    reply: JsonTree,
    url: Seq<char>,
    text: Seq<char>,
    too_large: nat,
)
    requires
        reply.get("result"@) == Some(JsonTree::Number(text)),
        ({
            ||| exists|i: int| 0 <= i < text.len() && !is_digit(#[trigger] text[i])
            ||| text == decimal(too_large) && too_large > u64::MAX
        }),
    ensures
        slot_outcome(reply, url) is Err,
{
    if let Some(slot) = unsigned_value(text) {
        law_unsigned_value(text, slot);
        law_decimal_is_digits(slot as nat);
        law_decimal_is_injective(too_large, slot as nat);
    }
}

/// Every failure of a reply names the node that sent it.
pub proof fn law_failure_names_the_node(reply: JsonTree, url: Seq<char>)
    ensures
        slot_outcome(reply, url) matches Err(text) ==> url.is_prefix_of(text),
{
    if let Err(text) = slot_outcome(reply, url) {
        assert(text.subrange(0, url.len() as int) =~= url);
    }
}

/// A JSON-RPC error is surfaced with its message, even beside a usable `result`.
pub proof fn law_rpc_error_wins(reply: JsonTree, url: Seq<char>, error: JsonTree)
    requires
        reply.get("error"@) == Some(error),
    ensures
        slot_outcome(reply, url) is Err,
        error.get("message"@) matches Some(JsonTree::Text(message)) ==> slot_outcome(reply, url)
            == Err::<u64, Seq<char>>(refused_text(url, message)),
{
}

/// The request is an object with the four fields of a JSON-RPC call, each once:
/// version 2.0, a number as id, the method `getSlot`, and one parameter, an object
/// whose only field asks for a finalized slot.
pub proof fn law_request_asks_for_the_finalized_slot()
    ensures
        slot_request_tree() is Object,
        ({
            let request = slot_request_tree();
            let fields = request->Object_0;
            &&& fields.len() == 4
            &&& forall|i: int, j: int|
                0 <= i < j < fields.len() ==> (#[trigger] fields[i]).0 != (#[trigger] fields[j]).0
            &&& forall|i: int|
                0 <= i < fields.len() ==> {
                    ||| (#[trigger] fields[i]) == ("id"@, JsonTree::Number("1"@))
                    ||| fields[i] == ("jsonrpc"@, JsonTree::Text("2.0"@))
                    ||| fields[i] == ("method"@, JsonTree::Text("getSlot"@))
                    ||| fields[i].0 == "params"@
                }
            &&& request.get("id"@) == Some(JsonTree::Number("1"@))
            &&& request.get("jsonrpc"@) == Some(JsonTree::Text("2.0"@))
            &&& request.get("method"@) == Some(JsonTree::Text("getSlot"@))
            &&& request.get("params"@) matches Some(JsonTree::Array(params)) && params.len() == 1
                && params[0] == JsonTree::Object(
                seq![("commitment"@, JsonTree::Text("finalized"@))],
            )
        }),
{
    reveal_strlit("id");
    reveal_strlit("jsonrpc");
    reveal_strlit("method");
    reveal_strlit("params");
    reveal_strlit("1");
    assert("1"@ =~= decimal(1));
    assert("id"@.len() == 2 && "jsonrpc"@.len() == 7 && "method"@.len() == 6);
    assert("method"@[0] == 'm' && "params"@[0] == 'p');
    let fields = slot_request_tree()->Object_0;
    reveal_with_fuel(first_named, 5);
    assert(fields.skip(1)[0] == fields[1]);
    assert(fields.skip(1).skip(1)[0] == fields[2]);
    assert(fields.skip(1).skip(1).skip(1)[0] == fields[3]);
}

/// A reply with an `error` field fails with the node, the failure and the message in
/// the field, or `unknown error` where there is no message that is text.
pub proof fn law_error_reply_is_spelled_out(reply: JsonTree, url: Seq<char>, error: JsonTree)
    requires
        reply.get("error"@) == Some(error),
    ensures
        match error.get("message"@) {
            Some(JsonTree::Text(message)) => slot_outcome(reply, url) == Err::<u64, Seq<char>>(
                url + ": getSlot failed: "@ + message,
            ),
            _ => slot_outcome(reply, url) == Err::<u64, Seq<char>>(
                url + ": getSlot failed: "@ + "unknown error"@,
            ),
        },
{
}

/// A reply without an `error` field gives its slot or fails with the node and the
/// words that no slot number came; there is no third way.
pub proof fn law_reply_without_a_slot_is_spelled_out(reply: JsonTree, url: Seq<char>)
    requires
        reply.get("error"@) is None,
        forall|n: u64|
            reply.get("result"@) != Some(JsonTree::Number(#[trigger] decimal(n as nat))),
    ensures
        slot_outcome(reply, url) == Err::<u64, Seq<char>>(
            url + ": getSlot returned no usable slot number"@,
        ),
{
    if let Some(JsonTree::Number(text)) = reply.get("result"@) {
        if let Some(slot) = unsigned_value(text) {
            law_unsigned_value(text, slot);
        }
    }
}

/// Which node was asked changes the name in a failure and nothing else.
pub proof fn law_url_only_names_the_node(reply: JsonTree, one: Seq<char>, other: Seq<char>)
    ensures
        match (slot_outcome(reply, one), slot_outcome(reply, other)) {
            (Ok(slot), Ok(same)) => slot == same,
            (Err(text), Err(same)) => text.len() >= one.len() && same.len() >= other.len()
                && text.skip(one.len() as int) == same.skip(other.len() as int),
            _ => false,
        },
{
    if let Err(text) = slot_outcome(reply, one) {
        if let Err(same) = slot_outcome(reply, other) {
            assert(text.skip(one.len() as int) =~= same.skip(other.len() as int));
        }
    }
}

/// A node is asked three times at most, and its reply is held to the bound of every
/// peer.
pub proof fn law_probe_bounds()
    ensures
        PROBE_ATTEMPTS == 3,
        MAX_RPC_RESPONSE_BYTES == MAX_RESPONSE_BYTES,
{
}

/// A probe of a node that gives a slot always succeeds, with that slot, the node's
/// own URL and the time that was measured, whatever the time and the URL are. Only a
/// time past `u64::MAX` milliseconds is not kept.
pub proof fn law_probe_keeps_slot_time_and_url(
    outcome: Result<NodeMetrics, SentinelError>,
    reply: JsonTree,
    url: Seq<char>,
    elapsed_ms: u128,
    slot: u64,
)
    requires
        is_probe_outcome(outcome, reply, url, elapsed_ms),
        reply.get("error"@) is None,
        reply.get("result"@) == Some(JsonTree::Number(decimal(slot as nat))),
    ensures
        outcome is Ok,
        outcome->Ok_0.slot == slot,
        outcome->Ok_0.node_url@ == url,
        elapsed_ms <= u64::MAX ==> outcome->Ok_0.rtt_ms == elapsed_ms,
        (elapsed_ms - outcome->Ok_0.rtt_ms) % 0x1_0000_0000_0000_0000 == 0,
{
    law_slot_is_the_result(reply, url, slot);
}

/// A probe of a node that gives no slot fails as an RPC error that starts with the
/// node's URL.
pub proof fn law_probe_without_a_slot_fails(
    outcome: Result<NodeMetrics, SentinelError>,
    reply: JsonTree,
    url: Seq<char>,
    elapsed_ms: u128,
)
    requires
        is_probe_outcome(outcome, reply, url, elapsed_ms),
        reply.get("error"@) is Some || forall|n: u64|
            reply.get("result"@) != Some(JsonTree::Number(#[trigger] decimal(n as nat))),
    ensures
        outcome matches Err(SentinelError::Rpc(said)) && url.is_prefix_of(said@),
{
    law_failure_names_the_node(reply, url);
    if reply.get("error"@) is None {
        law_reply_without_a_slot_is_spelled_out(reply, url);
    }
}

} // verus!
