//! Selection of the created and updated timestamps from a file's change
//! history, given newest-first: the first entry is the created
//! timestamp; the last entry is the updated timestamp, kept only when
//! it differs from the created one.

use vstd::prelude::*;

use crate::bytes::{bytes_eq, push_all};

verus! {

/// The created timestamp and, when known and distinct, the updated one.
#[derive(Debug, Clone, PartialEq, Eq)]
pub struct TimestampRecord {
    pub created: Vec<u8>,
    pub updated: Option<Vec<u8>>,
}

/// What a history of change timestamps yields: nothing for an empty
/// history; otherwise the first entry, and the last entry only when
/// the history has more than one entry and the last differs from the
/// first.
pub open spec fn select_spec(lines: Seq<Seq<u8>>) -> Option<(Seq<u8>, Option<Seq<u8>>)> {
    if lines.len() == 0 {
        None
    } else if lines.len() > 1 && lines.last() != lines[0] {
        Some((lines[0], Some(lines.last())))
    } else {
        Some((lines[0], None))
    }
}

/// Selects the created and updated timestamps, as `select_spec` says.
pub fn select_timestamps(lines: &Vec<Vec<u8>>) -> (r: Option<TimestampRecord>)
    ensures
        match r {
            Some(t) => select_spec(lines@.map_values(|l: Vec<u8>| l@)) == Some(
                (t.created@, crate::transform::opt_view(t.updated)),
            ),
            None => select_spec(lines@.map_values(|l: Vec<u8>| l@)) is None,
        },
{
    let ghost lv = lines@.map_values(|l: Vec<u8>| l@);
    let n = lines.len();
    if n == 0 {
        return None;
    }
    let mut created: Vec<u8> = Vec::new();
    push_all(&mut created, lines[0].as_slice());
    if n > 1 && !bytes_eq(lines[n - 1].as_slice(), lines[0].as_slice()) {
        let mut updated: Vec<u8> = Vec::new();
        push_all(&mut updated, lines[n - 1].as_slice());
        proof {
            assert(lv.last() == lv[n - 1]);
        }
        Some(TimestampRecord { created, updated: Some(updated) })
    } else {
        proof {
            if n > 1 {
                assert(lv.last() == lv[n - 1]);
            }
        }
        Some(TimestampRecord { created, updated: None })
    }
}

} // verus!
