//! A single-touch touchscreen.

use vstd::prelude::*;
use std::collections::VecDeque;
use crate::input::device::{InputError, InputEvent, ReadInputStream};
use crate::{ABSOLUTE_X_POS, ABSOLUTE_Y_POS, EV_KEY, EV_SYN, TOUCHES_BEGAN, TOUCHES_ENDED};

verus! {

/// What a touchscreen knows of the touch that is going on.
pub struct TouchState {
    /// The points of the current touch, the most recent first.
    pub trail: Seq<(usize, usize)>,
    /// The x of the next point, once an event has brought it.
    pub next_x: Option<usize>,
    /// The y of the next point, once an event has brought it.
    pub next_y: Option<usize>,
    /// Whether the finger has been lifted.
    pub touches_ended: bool,
}

impl TouchState {
    /// The state after one event. A synchronisation event puts the next
    /// point in front of the trail once both its coordinates are there; a
    /// position event brings one coordinate; the two touch events say
    /// whether the finger is down. Any other event changes nothing.
    pub open spec fn after_event(self, event: InputEvent) -> TouchState {
        if event.kind == EV_SYN {
            if self.next_x is Some && self.next_y is Some {
                TouchState {
                    trail: seq![(self.next_x->Some_0, self.next_y->Some_0)] + self.trail,
                    next_x: None,
                    next_y: None,
                    ..self
                }
            } else {
                self
            }
        } else if event.kind == EV_KEY && event.code == ABSOLUTE_X_POS {
            TouchState { next_x: Some(event.value as usize), ..self }
        } else if event.kind == EV_KEY && event.code == ABSOLUTE_Y_POS {
            TouchState { next_y: Some(event.value as usize), ..self }
        } else if event.kind == EV_KEY && event.code == TOUCHES_BEGAN {
            TouchState { touches_ended: false, ..self }
        } else if event.kind == EV_KEY && event.code == TOUCHES_ENDED {
            TouchState { touches_ended: true, ..self }
        } else {
            self
        }
    }

    /// The state after a run of events, taken in their order.
    pub open spec fn after_events(self, events: Seq<InputEvent>) -> TouchState
        decreases events.len(),
    {
        if events.len() == 0 {
            self
        } else {
            self.after_events(events.drop_last()).after_event(events.last())
        }
    }
}

/// Represents a touchscreen interface.
pub struct Touchscreen {
    /// A ring buffer for the current touch's points. Acts as a stack where
    /// the first position is the most recently touched.
    trail: VecDeque<(usize, usize)>,
    /// Since each event only comes with one part of the coordinate pair, we
    /// need to buffer one until the other is received. When both values are
    /// `Some`, we push to the trail and reset these values to None.
    next_x: Option<usize>,
    /// See: `next_x`.
    next_y: Option<usize>,
    /// Indicates to the user that the user has lifted their finger, and that
    /// they should stop dragging, process a tap, or stop connecting lines.
    touches_ended: bool,
}

impl View for Touchscreen {
    type V = TouchState;

    closed spec fn view(&self) -> TouchState {
        TouchState {
            trail: self.trail@,
            next_x: self.next_x,
            next_y: self.next_y,
            touches_ended: self.touches_ended,
        }
    }
}

impl Default for Touchscreen {
    /// A touchscreen with no trail, no coordinate waiting and the finger
    /// down.
    fn default() -> (made: Self)
        ensures
            made@ == (TouchState {
                trail: Seq::empty(),
                next_x: None,
                next_y: None,
                touches_ended: false,
            }),
    {
        Touchscreen { trail: VecDeque::new(), next_x: None, next_y: None, touches_ended: false }
    }
}

impl ReadInputStream for Touchscreen {
    /// A touchscreen takes in every event and always has something to
    /// process.
    open spec fn reads(
        &self,
        events: Seq<InputEvent>,
        after: Self,
        outcome: Result<bool, InputError>,
    ) -> bool {
        after@ == self@.after_events(events) && outcome == Ok::<bool, InputError>(true)
    }

    fn read_events(&mut self, events: &Vec<InputEvent>) -> (outcome: Result<bool, InputError>) {
        let ghost start: TouchState = self@;
        let mut i: usize = 0;
        proof {
            assert(events@.take(0) =~= Seq::<InputEvent>::empty());
        }
        while i < events.len()
            invariant
                0 <= i <= events@.len(),
                self@ == start.after_events(events@.take(i as int)),
            decreases events@.len() - i,
        {
            let event = events[i];
            proof {
                assert(events@.take(i + 1).drop_last() =~= events@.take(i as int));
            }
            if event.kind == EV_SYN {
                if let (Some(x), Some(y)) = (self.next_x, self.next_y) {
                    self.trail.push_front((x, y));
                    self.next_x = None;
                    self.next_y = None;
                }
            } else if event.kind == EV_KEY {
                if event.code == ABSOLUTE_X_POS {
                    self.next_x = Some(#[verifier::truncate] (event.value as usize));
                } else if event.code == ABSOLUTE_Y_POS {
                    self.next_y = Some(#[verifier::truncate] (event.value as usize));
                } else if event.code == TOUCHES_BEGAN {
                    self.touches_ended = false;
                } else if event.code == TOUCHES_ENDED {
                    self.touches_ended = true;
                }
            }
            i += 1;
        }
        proof {
            assert(events@.take(i as int) =~= events@);
        }
        // We assume if this was called, we can signal the user to process
        // events.
        Ok(true)
    }
}

/// Represents a single-touch touchscreen device.
impl Touchscreen {
    /// Returns `Some((x, y))` if the user clicked/tapped on the screen. No
    /// touch counts as a tap so far.
    pub fn get_tap(&mut self) -> (tap: Option<(usize, usize)>)
        ensures
            tap is None,
            final(self)@ == old(self)@,
    {
        match self.touches_ended {
            false => None,
            true => None,
        }
    }

    /// Hands out the points of the current touch, the most recent first, and
    /// forgets them.
    pub fn trail(&mut self) -> (points: Vec<(usize, usize)>)
        ensures
            points@ == old(self)@.trail,
            final(self)@ == (TouchState { trail: Seq::empty(), ..old(self)@ }),
    {
        let mut res: Vec<(usize, usize)> = Vec::new();
        let mut i: usize = 0;
        while i < self.trail.len()
            invariant
                0 <= i <= self.trail@.len(),
                self@ == old(self)@,
                res@ == self.trail@.take(i as int),
            decreases self.trail@.len() - i,
        {
            res.push(self.trail[i]);
            proof {
                assert(self.trail@.take(i + 1) =~= self.trail@.take(i as int).push(
                    self.trail@[i as int],
                ));
            }
            i += 1;
        }
        proof {
            assert(self.trail@.take(i as int) =~= self.trail@);
        }
        self.trail.truncate(0);
        proof {
            assert(self.trail@ =~= Seq::<(usize, usize)>::empty());
        }
        res
    }

    /// Returns whether or not the user has lifted their finger. If `poll`
    /// returns true on this device you can safely assume that touches have
    /// begun.
    pub fn touches_ended(&self) -> (ended: bool)
        ensures
            ended == self@.touches_ended,
    {
        self.touches_ended
    }
}

} // verus!
