//! Laws of sequences: when the length of a run is a mismatch.

use vstd::prelude::*;
use crate::error::ErrorView;
use crate::model;

verus! {

/// A sequence without a fixed size takes a run of any length; one of fixed
/// size fails with a length mismatch exactly where the run ended with
/// another number of items or goes on behind them.
pub proof fn lemma_length_check(len: Option<usize>, count: nat, more: bool)
    ensures
        len is None ==> model::length_check(len, count, more) is None,
        len matches Some(n) ==> (model::length_check(len, count, more) is None <==> count == n
            && !more),
        len matches Some(n) ==> (count != n || more ==> model::length_check(len, count, more)
            == Some(ErrorView::LengthMismatch { size: n as nat, items: count })),
{
}

} // verus!
