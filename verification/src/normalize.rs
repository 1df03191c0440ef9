use vstd::prelude::*;

verus! {

/// One normalized record bound for the writer: receipt timestamp,
/// canonical lower-case symbol, raw payload bytes.
#[derive(Debug)]
pub struct NormalizedRecord {
    pub recv_time: i64,
    pub symbol: String,
    pub payload: Vec<u8>,
}

/// The view of an optional string: the character sequence it holds, if any.
pub open spec fn opt_str_view(o: Option<String>) -> Option<Seq<char>> {
    match o {
        Option::Some(s) => Option::Some(s@),
        Option::None => Option::None,
    }
}

} // verus!
