use vstd::prelude::*;

use crate::error::ConnectorError;
use crate::gap::{CursorMap, spec_gap};
use crate::json::json_wf;
use crate::normalize::{NormalizedRecord, opt_str_view};
use crate::session::{HeartbeatPolicy, NANOS_PER_SEC};
use crate::text::{SymbolMemo, lower_of, str_eq};

verus! {

/// The heartbeat strategy of this exchange: echo server pings, and fail
/// the session when no ping arrived for twenty seconds.
pub fn policy() -> (r: HeartbeatPolicy)
    ensures
        r.echo_pings,
        r.watchdog_ns matches Some(w) && w == 20 * NANOS_PER_SEC,
        r.ping_message is None,
        r.tick_ns == 5 * NANOS_PER_SEC,
{
    HeartbeatPolicy {
        echo_pings: true,
        watchdog_ns: Some(20 * NANOS_PER_SEC),
        ping_message: None,
        tick_ns: 5 * NANOS_PER_SEC,
    }
}

/// The depth-snapshot endpoint for one symbol, at the fixed depth limit.
pub fn snapshot_url(symbol: &str) -> (r: String)
    ensures
        r@ == "https://api.binance.com/api/v3/depth?symbol="@ + symbol@ + "&limit=1000"@,
{
    let mut r = String::from_str("https://api.binance.com/api/v3/depth?symbol=");
    r.append(symbol);
    r.append("&limit=1000");
    proof {
        assert(r@ =~= "https://api.binance.com/api/v3/depth?symbol="@ + symbol@
            + "&limit=1000"@);
    }
    r
}

/// The fields the normalizer reads from one envelope: the embedded data
/// object's symbol, event type, and first/final update ids.
pub struct BinanceEnvelope {
    pub symbol: Option<String>,
    pub event: Option<String>,
    pub first_id: Option<i64>,
    pub last_id: Option<i64>,
}

/// What one envelope asks of the pipeline: an optional record to persist,
/// and optionally a raw symbol whose book needs a snapshot refetch.
#[derive(Debug)]
pub struct BinanceOutcome {
    pub record: Option<NormalizedRecord>,
    pub resync: Option<String>,
}

/// The data object's "s" field of a well-formed payload, a function of the
/// bytes alone.
pub uninterp spec fn binance_symbol_field(data: Seq<u8>) -> Option<Seq<char>>;

/// The data object's "e" field of a well-formed payload.
pub uninterp spec fn binance_event_field(data: Seq<u8>) -> Option<Seq<char>>;

/// The data object's "U" (first update id) field of a well-formed payload.
pub uninterp spec fn binance_first_id_field(data: Seq<u8>) -> Option<i64>;

/// The data object's "u" (final update id) field of a well-formed payload.
pub uninterp spec fn binance_last_id_field(data: Seq<u8>) -> Option<i64>;

/// Relies on serde_json_borrow: OwnedValue::from_slice succeeds exactly on
/// valid UTF-8 that is well-formed JSON, and Value::get / as_str / as_i64
/// read each named field as a function of the bytes alone.
#[verifier::external_body]
fn read_envelope(data: &Vec<u8>) -> (r: Result<BinanceEnvelope, ConnectorError>)
    ensures
        r.is_ok() <==> json_wf(data@),
        (r matches Err(e) ==> e == ConnectorError::SerdeError),
        (r matches Ok(env) ==> {
            &&& opt_str_view(env.symbol) == binance_symbol_field(data@)
            &&& opt_str_view(env.event) == binance_event_field(data@)
            &&& env.first_id == binance_first_id_field(data@)
            &&& env.last_id == binance_last_id_field(data@)
        }),
{
    let j = match serde_json_borrow::OwnedValue::from_slice(data) {
        Ok(j) => j,
        Err(_) => return Err(ConnectorError::SerdeError),
    };
    let d = j.get("data");
    Ok(BinanceEnvelope {
        symbol: d.get("s").as_str().map(|s| s.to_string()),
        event: d.get("e").as_str().map(|s| s.to_string()),
        first_id: d.get("U").as_i64(),
        last_id: d.get("u").as_i64(),
    })
}

pub open spec fn is_depth_event(event: Option<Seq<char>>) -> bool {
    event matches Some(e) && e == "depthUpdate"@
}

/// What normalizing one envelope must do, given its field values: control
/// messages without a symbol are ignored; a depth update advances the
/// cursor to its final id whatever the gap outcome and requests a resync
/// exactly on a gap; the payload is always forwarded under the canonical
/// lower-case symbol, gap or not; a depth update lacking an id is a format
/// error.
pub open spec fn spec_binance_step(
    old_cursors: Map<Seq<char>, i64>,
    new_cursors: Map<Seq<char>, i64>,
    recv_time: i64,
    payload: Seq<u8>,
    symbol: Option<Seq<char>>,
    event: Option<Seq<char>>,
    first_id: Option<i64>,
    last_id: Option<i64>,
    r: Result<BinanceOutcome, ConnectorError>,
) -> bool {
    match symbol {
        Option::None => {
            &&& r matches Ok(o) && o.record is None && o.resync is None
            &&& new_cursors == old_cursors
        },
        Option::Some(s) => {
            if is_depth_event(event) {
                match (first_id, last_id) {
                    (Option::Some(f), Option::Some(u)) => {
                        &&& new_cursors == old_cursors.insert(s, u)
                        &&& match r {
                            Ok(o) => {
                                &&& (o.resync is Some) == spec_gap(old_cursors, s, f)
                                &&& match o.resync {
                                    Option::Some(sym) => sym@ == s,
                                    Option::None => true,
                                }
                                &&& match o.record {
                                    Option::Some(rec) => rec.symbol@ == lower_of(s)
                                        && rec.recv_time == recv_time && rec.payload@ == payload,
                                    Option::None => false,
                                }
                            },
                            Err(_) => false,
                        }
                    },
                    _ => {
                        &&& r matches Err(e) && e == ConnectorError::FormatError
                        &&& new_cursors == old_cursors
                    },
                }
            } else {
                &&& new_cursors == old_cursors
                &&& match r {
                    Ok(o) => {
                        &&& o.resync is None
                        &&& match o.record {
                            Option::Some(rec) => rec.symbol@ == lower_of(s) && rec.recv_time
                                == recv_time && rec.payload@ == payload,
                            Option::None => false,
                        }
                    },
                    Err(_) => false,
                }
            }
        },
    }
}

/// Normalize one envelope, exactly as `spec_binance_step` prescribes for
/// its field values.
pub fn handle_envelope(
    cursors: &mut CursorMap,
    memo: &mut SymbolMemo,
    recv_time: i64,
    payload: Vec<u8>,
    env: &BinanceEnvelope,
) -> (r: Result<BinanceOutcome, ConnectorError>)
    requires
        old(cursors).wf(),
        old(memo).wf(),
    ensures
        final(cursors).wf(),
        final(memo).wf(),
        spec_binance_step(
            old(cursors)@,
            final(cursors)@,
            recv_time,
            payload@,
            opt_str_view(env.symbol),
            opt_str_view(env.event),
            env.first_id,
            env.last_id,
            r,
        ),
{
    match &env.symbol {
        None => Ok(BinanceOutcome { record: None, resync: None }),
        Some(s) => {
            let is_depth = match &env.event {
                Some(e) => str_eq(e.as_str(), "depthUpdate"),
                None => false,
            };
            if is_depth {
                match (env.first_id, env.last_id) {
                    (Some(f), Some(u)) => {
                        let gap = cursors.observe(s.as_str(), f, u);
                        let resync = if gap {
                            Some(s.clone())
                        } else {
                            None
                        };
                        let symbol = memo.canonical(s.as_str());
                        Ok(BinanceOutcome {
                            record: Some(NormalizedRecord { recv_time, symbol, payload }),
                            resync,
                        })
                    },
                    _ => Err(ConnectorError::FormatError),
                }
            } else {
                let symbol = memo.canonical(s.as_str());
                Ok(BinanceOutcome {
                    record: Some(NormalizedRecord { recv_time, symbol, payload }),
                    resync: None,
                })
            }
        },
    }
}

/// Normalize one raw payload.  Fails with `SerdeError` exactly on
/// malformed JSON, leaving the cursors untouched; on well-formed JSON the
/// outcome is exactly `spec_binance_step` of the payload's named envelope
/// fields: the record owed, the cursor advance, the resync decision, and
/// the format-error case.
pub fn handle_message(
    cursors: &mut CursorMap,
    memo: &mut SymbolMemo,
    recv_time: i64,
    data: Vec<u8>,
) -> (r: Result<BinanceOutcome, ConnectorError>)
    requires
        old(cursors).wf(),
        old(memo).wf(),
    ensures
        final(cursors).wf(),
        final(memo).wf(),
        (r matches Err(e) && e == ConnectorError::SerdeError) <==> !json_wf(data@),
        !json_wf(data@) ==> final(cursors)@ == old(cursors)@,
        json_wf(data@) ==> spec_binance_step(
            old(cursors)@,
            final(cursors)@,
            recv_time,
            data@,
            binance_symbol_field(data@),
            binance_event_field(data@),
            binance_first_id_field(data@),
            binance_last_id_field(data@),
            r,
        ),
{
    let env = match read_envelope(&data) {
        Ok(env) => env,
        Err(e) => {
            return Err(e);
        },
    };
    handle_envelope(cursors, memo, recv_time, data, &env)
}

} // verus!
