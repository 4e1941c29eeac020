//! The playback handle's state: the queue of track paths, the paused flag,
//! and the playback speed and volume in milli-units.
//!
//! The handle mirrors the audio sink the surrounding binary drives: every
//! transition here states exactly what the matching sink call does to the
//! queue and the transport controls.

use crate::numeric::{clamp_rate_milli, spec_clamp_rate, MAX_RATE_MILLI, MIN_RATE_MILLI};
use vstd::prelude::*;

verus! {

/// The mathematical state of the playback handle.
pub ghost struct PlayerView {
    pub queue: Seq<Seq<char>>,
    pub paused: bool,
    pub speed_milli: int,
    pub volume_milli: int,
}

impl PlayerView {
    /// Both rates stay inside the supported band.
    pub open spec fn wf(self) -> bool {
        &&& MIN_RATE_MILLI as int <= self.speed_milli <= MAX_RATE_MILLI as int
        &&& MIN_RATE_MILLI as int <= self.volume_milli <= MAX_RATE_MILLI as int
    }

    /// The state a fresh handle starts in: empty queue, playing, both
    /// rates at 1.0.
    pub open spec fn initial() -> PlayerView {
        PlayerView { queue: Seq::empty(), paused: false, speed_milli: 1000, volume_milli: 1000 }
    }

    /// Suspend playback.
    pub open spec fn pause_t(self) -> PlayerView {
        PlayerView { paused: true, ..self }
    }

    /// Resume playback.
    pub open spec fn resume_t(self) -> PlayerView {
        PlayerView { paused: false, ..self }
    }

    /// Discard the current track and advance, or do nothing when no track
    /// remains.
    pub open spec fn skip_t(self) -> PlayerView {
        if self.queue.len() > 0 {
            PlayerView { queue: self.queue.drop_first(), ..self }
        } else {
            self
        }
    }

    /// Apply a requested speed, clamped into the supported band.
    pub open spec fn set_speed_t(self, v: int) -> PlayerView {
        PlayerView { speed_milli: spec_clamp_rate(v), ..self }
    }

    /// Apply a requested volume, clamped into the supported band.
    pub open spec fn set_volume_t(self, v: int) -> PlayerView {
        PlayerView { volume_milli: spec_clamp_rate(v), ..self }
    }

    /// Empty the queue and halt playback.
    pub open spec fn stop_clear_t(self) -> PlayerView {
        PlayerView { queue: Seq::empty(), paused: true, ..self }
    }

    /// Append one track at the back of the queue.
    pub open spec fn enqueue_t(self, track: Seq<char>) -> PlayerView {
        PlayerView { queue: self.queue.push(track), ..self }
    }
}

/// The playback handle.
pub struct Player {
    queue: Vec<String>,
    paused: bool,
    speed_milli: i64,
    volume_milli: i64,
}

impl View for Player {
    type V = PlayerView;

    closed spec fn view(&self) -> PlayerView {
        PlayerView {
            queue: self.queue.deep_view(),
            paused: self.paused,
            speed_milli: self.speed_milli as int,
            volume_milli: self.volume_milli as int,
        }
    }
}

impl Player {
    /// A fresh handle: empty queue, playing, both rates at 1.0.
    pub fn new() -> (r: Player)
        ensures
            r@ == PlayerView::initial(),
            r@.wf(),
    {
        let r = Player { queue: Vec::new(), paused: false, speed_milli: 1000, volume_milli: 1000 };
        proof {
            assert(r@.queue =~= Seq::<Seq<char>>::empty());
        }
        r
    }

    /// Suspend playback; pausing an already paused handle changes nothing.
    pub fn pause(&mut self)
        ensures
            final(self)@ == old(self)@.pause_t(),
    {
        self.paused = true;
    }

    /// Resume playback; resuming a playing handle changes nothing.
    pub fn resume(&mut self)
        ensures
            final(self)@ == old(self)@.resume_t(),
    {
        self.paused = false;
    }

    /// Discard the current track and advance to the next, or do nothing
    /// when the queue is empty.
    pub fn skip_current(&mut self)
        ensures
            final(self)@ == old(self)@.skip_t(),
    {
        if self.queue.len() > 0 {
            self.queue.remove(0);
            proof {
                assert(self.queue.deep_view() =~= old(self).queue.deep_view().drop_first());
            }
        }
    }

    /// Apply a requested speed, clamped into the supported band.
    pub fn set_speed_milli(&mut self, v: i64)
        ensures
            final(self)@ == old(self)@.set_speed_t(v as int),
    {
        self.speed_milli = clamp_rate_milli(v);
    }

    /// Apply a requested volume, clamped into the supported band.
    pub fn set_volume_milli(&mut self, v: i64)
        ensures
            final(self)@ == old(self)@.set_volume_t(v as int),
    {
        self.volume_milli = clamp_rate_milli(v);
    }

    /// Empty the queue and halt playback.
    pub fn stop_and_clear(&mut self)
        ensures
            final(self)@ == old(self)@.stop_clear_t(),
    {
        self.queue.clear();
        self.paused = true;
        proof {
            assert(self.queue.deep_view() =~= Seq::<Seq<char>>::empty());
        }
    }

    /// Append one track at the back of the queue.
    pub fn enqueue(&mut self, track: String)
        ensures
            final(self)@ == old(self)@.enqueue_t(track@),
    {
        let ghost t = track@;
        self.queue.push(track);
        proof {
            assert(self.queue.deep_view() =~= old(self).queue.deep_view().push(t));
        }
    }

    /// Append every track of `tracks`, in order.
    #[verifier::loop_isolation(false)]
    pub fn enqueue_all(&mut self, tracks: &Vec<String>)
        ensures
            final(self)@.queue == old(self)@.queue + tracks.deep_view(),
            final(self)@.paused == old(self)@.paused,
            final(self)@.speed_milli == old(self)@.speed_milli,
            final(self)@.volume_milli == old(self)@.volume_milli,
    {
        let n = tracks.len();
        let mut i: usize = 0;
        while i < n
            invariant
                n == tracks@.len(),
                0 <= i <= n,
                self@.queue == old(self)@.queue + tracks.deep_view().take(i as int),
                self@.paused == old(self)@.paused,
                self@.speed_milli == old(self)@.speed_milli,
                self@.volume_milli == old(self)@.volume_milli,
            decreases n - i,
        {
            self.enqueue(tracks[i].clone());
            proof {
                assert(self@.queue =~= old(self)@.queue + tracks.deep_view().take((i + 1) as int));
            }
            i = i + 1;
        }
        proof {
            assert(tracks.deep_view().take(n as int) =~= tracks.deep_view());
        }
    }

    /// Whether nothing remains queued or playing.
    pub fn is_empty(&self) -> (r: bool)
        ensures
            r == (self@.queue.len() == 0),
    {
        self.queue.len() == 0
    }

    /// How many tracks remain, the current one included.
    pub fn queue_len(&self) -> (r: usize)
        ensures
            r == self@.queue.len(),
    {
        self.queue.len()
    }

    /// Whether playback is suspended.
    pub fn is_paused(&self) -> (r: bool)
        ensures
            r == self@.paused,
    {
        self.paused
    }

    /// The applied speed, in milli-units.
    pub fn speed_milli(&self) -> (r: i64)
        ensures
            r as int == self@.speed_milli,
    {
        self.speed_milli
    }

    /// The applied volume, in milli-units.
    pub fn volume_milli(&self) -> (r: i64)
        ensures
            r as int == self@.volume_milli,
    {
        self.volume_milli
    }
}

/// Pausing twice leaves the state pausing once leaves.
pub proof fn lemma_pause_idempotent(v: PlayerView)
    ensures
        v.pause_t().pause_t() == v.pause_t(),
{
}

/// Resuming twice leaves the state resuming once leaves.
pub proof fn lemma_resume_idempotent(v: PlayerView)
    ensures
        v.resume_t().resume_t() == v.resume_t(),
{
}

/// Every transition keeps the rates inside the supported band.
pub proof fn lemma_transitions_preserve_wf(v: PlayerView, track: Seq<char>, rate: int)
    requires
        v.wf(),
    ensures
        v.pause_t().wf(),
        v.resume_t().wf(),
        v.skip_t().wf(),
        v.set_speed_t(rate).wf(),
        v.set_volume_t(rate).wf(),
        v.stop_clear_t().wf(),
        v.enqueue_t(track).wf(),
{
}

/// Stopping and clearing leaves an empty queue: the completion poll then
/// reports the handle drained.
pub proof fn lemma_stop_clear_drains(v: PlayerView)
    ensures
        v.stop_clear_t().queue.len() == 0,
{
}

} // verus!
