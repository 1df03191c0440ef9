use vstd::prelude::*;

use crate::error::ConnectorError;
use crate::json::json_wf;
use crate::normalize::{NormalizedRecord, opt_str_view};
use crate::session::{HeartbeatPolicy, NANOS_PER_SEC};
use crate::text::{SymbolMemo, lower_of, spec_last_segment};

verus! {

/// The heartbeat strategy of this exchange: echo server pings, and send an
/// own ping control message every thirty seconds, with no inbound
/// staleness watchdog.
pub fn policy() -> (r: HeartbeatPolicy)
    ensures
        r.echo_pings,
        r.watchdog_ns is None,
        r.ping_message matches Some(m) && m@ == "{\"req_id\": \"ping\", \"op\": \"ping\"}"@,
        r.tick_ns == 30 * NANOS_PER_SEC,
{
    HeartbeatPolicy {
        echo_pings: true,
        watchdog_ns: None,
        ping_message: Some(String::from_str("{\"req_id\": \"ping\", \"op\": \"ping\"}")),
        tick_ns: 30 * NANOS_PER_SEC,
    }
}

/// The fields the normalizer reads from one envelope: the control-message
/// op, and the topic of a data message.
pub struct BybitEnvelope {
    pub op: Option<String>,
    pub topic: Option<String>,
}

/// The envelope's "op" field of a well-formed payload, a function of the
/// bytes alone.
pub uninterp spec fn bybit_op_field(data: Seq<u8>) -> Option<Seq<char>>;

/// The envelope's "topic" field of a well-formed payload.
pub uninterp spec fn bybit_topic_field(data: Seq<u8>) -> Option<Seq<char>>;

/// Relies on serde_json_borrow: OwnedValue::from_slice succeeds exactly on
/// valid UTF-8 that is well-formed JSON, and Value::get / as_str read each
/// named field as a function of the bytes alone.
#[verifier::external_body]
fn read_envelope(data: &Vec<u8>) -> (r: Result<BybitEnvelope, ConnectorError>)
    ensures
        r.is_ok() <==> json_wf(data@),
        (r matches Err(e) ==> e == ConnectorError::SerdeError),
        (r matches Ok(env) ==> {
            &&& opt_str_view(env.op) == bybit_op_field(data@)
            &&& opt_str_view(env.topic) == bybit_topic_field(data@)
        }),
{
    let j = match serde_json_borrow::OwnedValue::from_slice(data) {
        Ok(j) => j,
        Err(_) => return Err(ConnectorError::SerdeError),
    };
    Ok(BybitEnvelope {
        op: j.get("op").as_str().map(|s| s.to_string()),
        topic: j.get("topic").as_str().map(|s| s.to_string()),
    })
}

/// What normalizing one envelope must produce, given its field values:
/// any envelope with an `op` (subscribe acknowledgements and other control
/// messages) yields no record; a data message's record carries the final
/// dot-delimited segment of its topic, lower-cased; an envelope with
/// neither field yields no record.
pub open spec fn spec_bybit_step(
    recv_time: i64,
    payload: Seq<u8>,
    op: Option<Seq<char>>,
    topic: Option<Seq<char>>,
    r: Option<NormalizedRecord>,
) -> bool {
    match op {
        Option::Some(_) => r is None,
        Option::None => match topic {
            Option::Some(t) => match r {
                Option::Some(rec) => rec.symbol@ == lower_of(spec_last_segment(t))
                    && rec.recv_time == recv_time && rec.payload@ == payload,
                Option::None => false,
            },
            Option::None => r is None,
        },
    }
}

/// Normalize one envelope, exactly as `spec_bybit_step` prescribes for its
/// field values.
pub fn handle_envelope(
    memo: &mut SymbolMemo,
    recv_time: i64,
    payload: Vec<u8>,
    env: &BybitEnvelope,
) -> (r: Option<NormalizedRecord>)
    requires
        old(memo).wf(),
    ensures
        final(memo).wf(),
        spec_bybit_step(recv_time, payload@, opt_str_view(env.op), opt_str_view(env.topic), r),
{
    if env.op.is_some() {
        return None;
    }
    match &env.topic {
        Some(t) => {
            let raw = crate::text::last_dot_segment(t.as_str());
            let symbol = memo.canonical(raw.as_str());
            Some(NormalizedRecord { recv_time, symbol, payload })
        },
        None => None,
    }
}

/// Normalize one raw payload.  Fails with `SerdeError` exactly on
/// malformed JSON; on well-formed JSON the outcome is exactly
/// `spec_bybit_step` of the payload's named envelope fields: control
/// messages ignored, and a data message's record owed under the
/// lower-cased last topic segment.
pub fn handle_message(memo: &mut SymbolMemo, recv_time: i64, data: Vec<u8>) -> (r: Result<
    Option<NormalizedRecord>,
    ConnectorError,
>)
    requires
        old(memo).wf(),
    ensures
        final(memo).wf(),
        r is Err <==> !json_wf(data@),
        (r matches Err(e) ==> e == ConnectorError::SerdeError),
        json_wf(data@) ==> (r matches Ok(o) && spec_bybit_step(
            recv_time,
            data@,
            bybit_op_field(data@),
            bybit_topic_field(data@),
            o,
        )),
{
    let env = match read_envelope(&data) {
        Ok(env) => env,
        Err(e) => {
            return Err(e);
        },
    };
    Ok(handle_envelope(memo, recv_time, data, &env))
}

} // verus!
