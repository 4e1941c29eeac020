//! Arranging the discovered tracks into playback order.

use rand::seq::SliceRandom;
use vstd::prelude::*;

verus! {

/// Relies on `rand::seq::SliceRandom::shuffle`: a Fisher–Yates pass of
/// in-place swaps driven by the thread-local generator, so the list after
/// the call holds exactly the tracks it held before, in some order.
#[verifier::external_body]
fn shuffle_in_place(tracks: &mut Vec<String>)
    ensures
        final(tracks).deep_view().to_multiset() == old(tracks).deep_view().to_multiset(),
        final(tracks).deep_view().len() == old(tracks).deep_view().len(),
{
    tracks.shuffle(&mut rand::thread_rng());
}

/// Put the discovered tracks into playback order: shuffled when asked
/// for, unchanged otherwise; either way the same tracks remain, each as
/// often as before.
pub fn arrange_tracks(tracks: &mut Vec<String>, shuffle: bool)
    ensures
        final(tracks).deep_view().to_multiset() == old(tracks).deep_view().to_multiset(),
        final(tracks).deep_view().len() == old(tracks).deep_view().len(),
        !shuffle ==> final(tracks).deep_view() == old(tracks).deep_view(),
{
    if shuffle {
        shuffle_in_place(tracks);
    }
}

} // verus!
