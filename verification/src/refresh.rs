//! The refresh loop's decisions: what to do next after each step of a
//! cycle of fetching once and showing a number of sub-frames.

use crate::board::{notes_view, rotation_in_bounds};
use crate::model::WienerLinienTrafficInfo;
use vstd::prelude::*;

verus! {

/// What the loop is set up with.
#[derive(Clone, Debug)]
pub struct Config {
    /// The stops whose departures are asked for.
    pub stop_ids: Vec<i32>,
    /// Seconds between two sub-frames, and before a fetch is tried again.
    pub refresh_interval_s: u64,
    /// Sub-frames shown from one fetch.
    pub subframes_per_fetch: u32,
}

/// The stops around the town hall.
pub open spec fn default_stop_ids() -> Seq<i32> {
    seq![
        252i32, 269, 4205, 4210, 1346, 1212, 1303, 3701, 5568, 17, 48, 16, 1401, 1440, 4908, 4909,
        1376, 5691,
    ]
}

impl Default for Config {
    fn default() -> (config: Config)
        ensures
            config.stop_ids@ == default_stop_ids(),
            config.refresh_interval_s == 1,
            config.subframes_per_fetch == 10,
    {
        let mut stop_ids: Vec<i32> = Vec::new();
        stop_ids.push(252);
        stop_ids.push(269);
        stop_ids.push(4205);
        stop_ids.push(4210);
        stop_ids.push(1346);
        stop_ids.push(1212);
        stop_ids.push(1303);
        stop_ids.push(3701);
        stop_ids.push(5568);
        stop_ids.push(17);
        stop_ids.push(48);
        stop_ids.push(16);
        stop_ids.push(1401);
        stop_ids.push(1440);
        stop_ids.push(4908);
        stop_ids.push(4909);
        stop_ids.push(1376);
        stop_ids.push(5691);
        assert(stop_ids@ =~= default_stop_ids());
        Config { stop_ids, refresh_interval_s: 1, subframes_per_fetch: 10 }
    }
}

/// Where the loop stands.
#[derive(Clone, Copy, Debug, PartialEq, Eq, Structural)]
pub enum LoopState {
    /// No data is at hand: the feed is to be asked.
    Fetching,
    /// Data is at hand and the sub-frame of this number is on show.
    Displaying { subframe: u32 },
}

/// What has just happened.
#[derive(Clone, Copy, Debug, PartialEq, Eq, Structural)]
pub enum LoopEvent {
    /// The loop starts.
    Started,
    /// The feed was fetched and normalised.
    FetchSucceeded,
    /// Fetching or normalising failed.
    FetchFailed,
    /// A sub-frame was shown and the interval is over.
    FrameShown,
    /// The interval after a failure is over.
    Waited,
}

/// What is to be done next.
#[derive(Clone, Copy, Debug, PartialEq, Eq, Structural)]
pub enum LoopAction {
    /// Fetch and normalise the feed.
    Fetch,
    /// Format and show the sub-frame of this number, then sleep the interval.
    Draw { subframe: u32 },
    /// Sleep the interval.
    Wait,
}

impl LoopState {
    /// A sub-frame on show is one of the cycle's.
    pub open spec fn is_valid(self, subframes: u32) -> bool {
        match self {
            LoopState::Fetching => true,
            LoopState::Displaying { subframe } => subframe < subframes,
        }
    }

    /// The action that belongs to a state by itself.
    pub open spec fn own_action(self) -> LoopAction {
        match self {
            LoopState::Fetching => LoopAction::Fetch,
            LoopState::Displaying { subframe } => LoopAction::Draw { subframe },
        }
    }
}

/// The loop's rule. After a fetch the sub-frames are shown from number 0
/// on; after the last one the feed is fetched again. A failed fetch is
/// tried again after the interval. An event that does not belong to the
/// state changes nothing.
pub open spec fn next_step(state: LoopState, event: LoopEvent, subframes: u32) -> (
    LoopState,
    LoopAction,
) {
    match (state, event) {
        (LoopState::Fetching, LoopEvent::FetchSucceeded) => if subframes > 0 {
            (LoopState::Displaying { subframe: 0 }, LoopAction::Draw { subframe: 0 })
        } else {
            (LoopState::Fetching, LoopAction::Wait)
        },
        (LoopState::Fetching, LoopEvent::FetchFailed) => (LoopState::Fetching, LoopAction::Wait),
        (LoopState::Displaying { subframe }, LoopEvent::FrameShown) => if subframe + 1 < subframes {
            (
                LoopState::Displaying { subframe: (subframe + 1) as u32 },
                LoopAction::Draw { subframe: (subframe + 1) as u32 },
            )
        } else {
            (LoopState::Fetching, LoopAction::Fetch)
        },
        _ => (state, state.own_action()),
    }
}

/// The state after an event and the action to take in it.
pub fn step(state: LoopState, event: LoopEvent, subframes: u32) -> (r: (LoopState, LoopAction))
    ensures
        r == next_step(state, event, subframes),
        state.is_valid(subframes) ==> r.0.is_valid(subframes),
{
    match state {
        LoopState::Fetching => match event {
            LoopEvent::FetchSucceeded => {
                if subframes > 0 {
                    (LoopState::Displaying { subframe: 0 }, LoopAction::Draw { subframe: 0 })
                } else {
                    (LoopState::Fetching, LoopAction::Wait)
                }
            },
            LoopEvent::FetchFailed => (LoopState::Fetching, LoopAction::Wait),
            _ => (LoopState::Fetching, LoopAction::Fetch),
        },
        LoopState::Displaying { subframe } => match event {
            LoopEvent::FrameShown => {
                if subframe < subframes && subframe + 1 < subframes {
                    (
                        LoopState::Displaying { subframe: subframe + 1 },
                        LoopAction::Draw { subframe: subframe + 1 },
                    )
                } else {
                    (LoopState::Fetching, LoopAction::Fetch)
                }
            },
            _ => (state, LoopAction::Draw { subframe }),
        },
    }
}

/// The number of the note to show in a sub-frame: the notes in turn, and
/// none where there are no notes.
pub open spec fn rotation(subframe: nat, notes: Option<nat>) -> Option<nat> {
    match notes {
        Some(n) => if n > 0 {
            Some(subframe % n)
        } else {
            None
        },
        None => None,
    }
}

/// The notes come round: after as many sub-frames as there are notes the
/// same note is shown again, and every index that comes out has a note.
pub proof fn lemma_rotation_comes_round(subframe: nat, notes: nat)
    requires
        notes > 0,
    ensures
        rotation(subframe + notes, Some(notes)) == rotation(subframe, Some(notes)),
        rotation(subframe, Some(notes)) matches Some(i) && i < notes,
{
    vstd::arithmetic::div_mod::lemma_mod_add_multiples_vanish(subframe as int, notes as int);
    assert((notes + subframe) % notes == (subframe + notes) % notes);
}

/// The number of notes at hand, where there are notes.
pub open spec fn note_count(trafficinfo: Option<Vec<WienerLinienTrafficInfo>>) -> Option<nat> {
    match trafficinfo {
        Some(notes) => Some(notes@.len()),
        None => None,
    }
}

/// The rotation index for a sub-frame: the sub-frame's number modulo the
/// number of notes, or none where the notes are absent or empty. An index
/// that comes out has a note standing at it.
pub fn rotation_index(subframe: u32, trafficinfo: &Option<Vec<WienerLinienTrafficInfo>>) -> (r:
    Option<usize>)
    ensures
        match r {
            Some(i) => rotation(subframe as nat, note_count(*trafficinfo)) == Some(i as nat),
            None => rotation(subframe as nat, note_count(*trafficinfo)) is None,
        },
        rotation_in_bounds(notes_view(*trafficinfo), r),
{
    match trafficinfo {
        Some(notes) => {
            if notes.len() > 0 {
                Some(subframe as usize % notes.len())
            } else {
                None
            }
        },
        None => None,
    }
}

} // verus!
