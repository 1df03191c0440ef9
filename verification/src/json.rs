use vstd::prelude::*;

verus! {

/// Whether the bytes are valid UTF-8 and parse as a JSON document.  This
/// names the success of serde_json_borrow::OwnedValue::from_slice, a
/// function of the bytes alone; each exchange's trusted envelope reader
/// applies it.
pub uninterp spec fn json_wf(data: Seq<u8>) -> bool;

} // verus!
