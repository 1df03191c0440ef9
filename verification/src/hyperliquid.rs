use vstd::prelude::*;

use crate::error::ConnectorError;
use crate::json::json_wf;
use crate::normalize::{NormalizedRecord, opt_str_view};
use crate::session::{HeartbeatPolicy, NANOS_PER_SEC};
use crate::text::{SymbolMemo, lower_of};

verus! {

/// The heartbeat strategy of this exchange: no ping echo and no staleness
/// watchdog; send an own ping control message every thirty seconds.
pub fn policy() -> (r: HeartbeatPolicy)
    ensures
        !r.echo_pings,
        r.watchdog_ns is None,
        r.ping_message matches Some(m) && m@ == "{\"method\":\"ping\"}"@,
        r.tick_ns == 30 * NANOS_PER_SEC,
{
    HeartbeatPolicy {
        echo_pings: false,
        watchdog_ns: None,
        ping_message: Some(String::from_str("{\"method\":\"ping\"}")),
        tick_ns: 30 * NANOS_PER_SEC,
    }
}

/// What the data array of a trades message offers: it is no array at all,
/// it is empty, or its first element carries an optional coin field.
pub enum ArrayCoin {
    NotArray,
    Empty,
    First(Option<String>),
}

pub open spec fn trades_is_array(t: ArrayCoin) -> bool {
    !(t is NotArray)
}

pub open spec fn trades_empty(t: ArrayCoin) -> bool {
    t is Empty
}

pub open spec fn trades_first_coin(t: ArrayCoin) -> Option<Seq<char>> {
    match t {
        ArrayCoin::First(c) => opt_str_view(c),
        _ => Option::None,
    }
}

/// The fields the normalizer reads from one envelope: the channel, whether
/// the data object is null, the coin of the first trade, and the data
/// object's own coin field.
pub struct HyperliquidEnvelope {
    pub channel: Option<String>,
    pub data_null: bool,
    pub trades: ArrayCoin,
    pub data_coin: Option<String>,
}

/// The envelope's "channel" field of a well-formed payload, a function of
/// the bytes alone.
pub uninterp spec fn hl_channel_field(data: Seq<u8>) -> Option<Seq<char>>;

/// Whether the envelope's "data" value of a well-formed payload is null.
pub uninterp spec fn hl_data_null_field(data: Seq<u8>) -> bool;

/// Whether the envelope's "data" value of a well-formed payload is an
/// array.
pub uninterp spec fn hl_data_is_array_field(data: Seq<u8>) -> bool;

/// Whether that array is empty; false when "data" is no array.
pub uninterp spec fn hl_array_empty_field(data: Seq<u8>) -> bool;

/// The "coin" field of the array's first element; None when "data" is no
/// array, is empty, or its first element has no string coin.
pub uninterp spec fn hl_first_coin_field(data: Seq<u8>) -> Option<Seq<char>>;

/// The "coin" field of the data object of a well-formed payload.
pub uninterp spec fn hl_data_coin_field(data: Seq<u8>) -> Option<Seq<char>>;

/// Relies on serde_json_borrow: OwnedValue::from_slice succeeds exactly on
/// valid UTF-8 that is well-formed JSON, and Value::get / as_str /
/// is_null / as_array (with the slice's first element) read each named
/// field as a function of the bytes alone.
#[verifier::external_body]
fn read_envelope(data: &Vec<u8>) -> (r: Result<HyperliquidEnvelope, ConnectorError>)
    ensures
        r.is_ok() <==> json_wf(data@),
        (r matches Err(e) ==> e == ConnectorError::SerdeError),
        (r matches Ok(env) ==> {
            &&& opt_str_view(env.channel) == hl_channel_field(data@)
            &&& env.data_null == hl_data_null_field(data@)
            &&& trades_is_array(env.trades) == hl_data_is_array_field(data@)
            &&& trades_empty(env.trades) == hl_array_empty_field(data@)
            &&& trades_first_coin(env.trades) == hl_first_coin_field(data@)
            &&& opt_str_view(env.data_coin) == hl_data_coin_field(data@)
        }),
{
    let j = match serde_json_borrow::OwnedValue::from_slice(data) {
        Ok(j) => j,
        Err(_) => return Err(ConnectorError::SerdeError),
    };
    let d = j.get("data");
    let trades = match d.as_array().map(|a| a.first()) {
        None => ArrayCoin::NotArray,
        Some(None) => ArrayCoin::Empty,
        Some(Some(v)) => ArrayCoin::First(v.get("coin").as_str().map(|s| s.to_string())),
    };
    let channel = j.get("channel").as_str().map(|s| s.to_string());
    let data_coin = d.get("coin").as_str().map(|s| s.to_string());
    Ok(HyperliquidEnvelope { channel, data_null: d.is_null(), trades, data_coin })
}

pub open spec fn is_control_channel(c: Seq<char>) -> bool {
    c == "heartbeat"@ || c == "subscriptionResponse"@ || c == "pong"@
}

/// What normalizing one envelope must produce, given its field values.  A
/// missing channel is a format error; heartbeat, subscription-
/// acknowledgement and pong channels are ignored, as is a null data
/// object.  A trades channel owes a record under the first trade's coin
/// (an empty array is ignored, no array at all or a coinless first trade
/// is a format error); the book and best-bid-offer channels owe a record
/// under data.coin or fail without it; any other channel owes a record
/// exactly when an optional coin is present.
pub open spec fn spec_hl_step(
    recv_time: i64,
    payload: Seq<u8>,
    channel: Option<Seq<char>>,
    data_null: bool,
    data_is_array: bool,
    array_empty: bool,
    first_coin: Option<Seq<char>>,
    data_coin: Option<Seq<char>>,
    r: Result<Option<NormalizedRecord>, ConnectorError>,
) -> bool {
    match channel {
        Option::None => r matches Err(e) && e == ConnectorError::FormatError,
        Option::Some(c) => {
            if is_control_channel(c) {
                r matches Ok(o) && o is None
            } else if data_null {
                r matches Ok(o) && o is None
            } else if c == "trades"@ {
                if !data_is_array {
                    r matches Err(e) && e == ConnectorError::FormatError
                } else if array_empty {
                    r matches Ok(o) && o is None
                } else {
                    match first_coin {
                        Option::None => r matches Err(e) && e == ConnectorError::FormatError,
                        Option::Some(coin) => match r {
                            Ok(o) => match o {
                                Option::Some(rec) => rec.symbol@ == lower_of(coin)
                                    && rec.recv_time == recv_time && rec.payload@ == payload,
                                Option::None => false,
                            },
                            Err(_) => false,
                        },
                    }
                }
            } else if c == "l2Book"@ || c == "bbo"@ {
                match data_coin {
                    Option::None => r matches Err(e) && e == ConnectorError::FormatError,
                    Option::Some(coin) => match r {
                        Ok(o) => match o {
                            Option::Some(rec) => rec.symbol@ == lower_of(coin) && rec.recv_time
                                == recv_time && rec.payload@ == payload,
                            Option::None => false,
                        },
                        Err(_) => false,
                    },
                }
            } else {
                match data_coin {
                    Option::None => r matches Ok(o) && o is None,
                    Option::Some(coin) => match r {
                        Ok(o) => match o {
                            Option::Some(rec) => rec.symbol@ == lower_of(coin) && rec.recv_time
                                == recv_time && rec.payload@ == payload,
                            Option::None => false,
                        },
                        Err(_) => false,
                    },
                }
            }
        },
    }
}

/// Normalize one envelope, exactly as `spec_hl_step` prescribes for its
/// field values.
pub fn handle_envelope(
    memo: &mut SymbolMemo,
    recv_time: i64,
    payload: Vec<u8>,
    env: &HyperliquidEnvelope,
) -> (r: Result<Option<NormalizedRecord>, ConnectorError>)
    requires
        old(memo).wf(),
    ensures
        final(memo).wf(),
        spec_hl_step(
            recv_time,
            payload@,
            opt_str_view(env.channel),
            env.data_null,
            trades_is_array(env.trades),
            trades_empty(env.trades),
            trades_first_coin(env.trades),
            opt_str_view(env.data_coin),
            r,
        ),
{
    let c = match &env.channel {
        Some(c) => c,
        None => {
            return Err(ConnectorError::FormatError);
        },
    };
    let cs = c.as_str();
    if crate::text::str_eq(cs, "heartbeat") || crate::text::str_eq(cs, "subscriptionResponse")
        || crate::text::str_eq(cs, "pong") {
        return Ok(None);
    }
    if env.data_null {
        return Ok(None);
    }
    if crate::text::str_eq(cs, "trades") {
        match &env.trades {
            ArrayCoin::NotArray => Err(ConnectorError::FormatError),
            ArrayCoin::Empty => Ok(None),
            ArrayCoin::First(coin_opt) => match coin_opt {
                None => Err(ConnectorError::FormatError),
                Some(coin) => {
                    let symbol = memo.canonical(coin.as_str());
                    Ok(Some(NormalizedRecord { recv_time, symbol, payload }))
                },
            },
        }
    } else if crate::text::str_eq(cs, "l2Book") || crate::text::str_eq(cs, "bbo") {
        match &env.data_coin {
            None => Err(ConnectorError::FormatError),
            Some(coin) => {
                let symbol = memo.canonical(coin.as_str());
                Ok(Some(NormalizedRecord { recv_time, symbol, payload }))
            },
        }
    } else {
        match &env.data_coin {
            None => Ok(None),
            Some(coin) => {
                let symbol = memo.canonical(coin.as_str());
                Ok(Some(NormalizedRecord { recv_time, symbol, payload }))
            },
        }
    }
}

/// Normalize one raw payload.  Fails with `SerdeError` exactly on
/// malformed JSON; on well-formed JSON the outcome is exactly
/// `spec_hl_step` of the payload's named envelope fields: the channels
/// ignored, the records owed under their lower-cased coins, and every
/// format-error case.
pub fn handle_message(memo: &mut SymbolMemo, recv_time: i64, data: Vec<u8>) -> (r: Result<
    Option<NormalizedRecord>,
    ConnectorError,
>)
    requires
        old(memo).wf(),
    ensures
        final(memo).wf(),
        (r matches Err(e) && e == ConnectorError::SerdeError) <==> !json_wf(data@),
        json_wf(data@) ==> spec_hl_step(
            recv_time,
            data@,
            hl_channel_field(data@),
            hl_data_null_field(data@),
            hl_data_is_array_field(data@),
            hl_array_empty_field(data@),
            hl_first_coin_field(data@),
            hl_data_coin_field(data@),
            r,
        ),
{
    let env = match read_envelope(&data) {
        Ok(env) => env,
        Err(e) => {
            return Err(e);
        },
    };
    handle_envelope(memo, recv_time, data, &env)
}

} // verus!
