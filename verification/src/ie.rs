//! Information-element parsing.
//!
//! A scan result carries its metadata as a blob of information elements:
//! a 1-byte element id, a 1-byte length and that many data bytes, repeated
//! until the blob runs out. A declared length that overruns the remaining
//! bytes ends the walk cleanly, with no error. The element with id 0
//! carries the SSID.

use vstd::prelude::*;

use crate::codec::copy_range;

verus! {

/// Element id of the SSID information element.
pub const IE_ID_SSID: u8 = 0;

/// The data of the first element with id [`IE_ID_SSID`] at or after `pos`,
/// if the walk reaches one before the blob runs out.
pub open spec fn spec_find_ssid(b: Seq<u8>, pos: int) -> Option<Seq<u8>>
    decreases b.len() - pos,
{
    if pos < 0 || pos + 2 > b.len() {
        None
    } else {
        let eid = b[pos];
        let elen = b[pos + 1] as int;
        if pos + 2 + elen > b.len() {
            None
        } else if eid == IE_ID_SSID {
            Some(b.subrange(pos + 2, pos + 2 + elen))
        } else {
            spec_find_ssid(b, pos + 2 + elen)
        }
    }
}

/// Read the information element at `*pos` and advance past it. Returns
/// its id and data, or `None` when fewer than two header bytes remain or
/// the declared length overruns the blob.
pub fn extract_element(b: &Vec<u8>, pos: &mut usize) -> (r: Option<(u8, Vec<u8>)>)
    ensures
        match r {
            Some(e) => {
                let start = *old(pos) as int;
                &&& start + 2 <= b@.len()
                &&& start + 2 + b@[start + 1] <= b@.len()
                &&& e.0 == b@[start]
                &&& e.1@ == b@.subrange(start + 2, start + 2 + b@[start + 1])
                &&& *final(pos) == start + 2 + b@[start + 1]
            },
            None => {
                let start = *old(pos) as int;
                &&& (start + 2 > b@.len() || start + 2 + b@[start + 1] > b@.len())
                &&& *final(pos) == start
            },
        },
{
    if *pos >= b.len() || b.len() - *pos < 2 {
        return None;
    }
    let eid = b[*pos];
    let elen = b[*pos + 1] as usize;
    if elen > b.len() - *pos - 2 {
        return None;
    }
    let data = copy_range(b, *pos + 2, *pos + 2 + elen);
    *pos = *pos + 2 + elen;
    Some((eid, data))
}

/// Walk the information elements of `b` and return the data of the first
/// SSID element, or an empty vector when the walk ends without one.
pub fn extract_ssid(b: &Vec<u8>) -> (r: Vec<u8>)
    ensures
        r@ == match spec_find_ssid(b@, 0) {
            Some(s) => s,
            None => Seq::<u8>::empty(),
        },
{
    let mut pos: usize = 0;
    loop
        invariant
            pos <= b.len(),
            spec_find_ssid(b@, 0) == spec_find_ssid(b@, pos as int),
        decreases b@.len() - pos,
    {
        let mut cursor = pos;
        match extract_element(b, &mut cursor) {
            Some(e) => {
                if e.0 == IE_ID_SSID {
                    return e.1;
                }
                pos = cursor;
            },
            None => {
                return Vec::new();
            },
        }
    }
}

} // verus!
