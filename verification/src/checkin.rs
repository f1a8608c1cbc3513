//! Check-ins: at most one award per user and window.
//!
//! A window opens with the event that arrives a full cooldown or more after
//! the window before it opened, and that event's time becomes the start of
//! the new window.

use std::collections::HashSet;
use vstd::prelude::*;
use vstd::std_specs::hash::*;

verus! {

broadcast use vstd::std_specs::hash::group_hash_axioms;

/// A window as the contracts see it.
pub struct Window {
    /// When the window opened.
    pub last_timestamp: u64,
    /// The users that have checked in since.
    pub seen: Set<u64>,
}

/// The window before any event.
pub open spec fn first_window() -> Window {
    Window { last_timestamp: 0, seen: Set::empty() }
}

/// An event at `timestamp` opens a new window.
pub open spec fn rolls_over(window: Window, timestamp: u64, cooldown: u64) -> bool {
    timestamp >= window.last_timestamp + cooldown
}

/// The window in which an event at `timestamp` is judged.
pub open spec fn window_at(window: Window, timestamp: u64, cooldown: u64) -> Window {
    if rolls_over(window, timestamp, cooldown) {
        Window { last_timestamp: timestamp, seen: Set::empty() }
    } else {
        window
    }
}

/// Whether a check-in of `user_id` at `timestamp` is its first in the window
/// it falls in.
pub open spec fn is_new(window: Window, user_id: u64, timestamp: u64, cooldown: u64) -> bool {
    !window_at(window, timestamp, cooldown).seen.contains(user_id)
}

/// The window after a check-in of `user_id` at `timestamp`.
pub open spec fn checked_in(window: Window, user_id: u64, timestamp: u64, cooldown: u64) -> Window {
    let judged = window_at(window, timestamp, cooldown);
    Window { seen: judged.seen.insert(user_id), ..judged }
}

/// The running window: when it opened, and who has checked in since.
#[derive(Debug)]
pub struct CheckinNoteInner {
    last_timestamp: u64,
    notes: HashSet<u64>,
}

impl View for CheckinNoteInner {
    type V = Window;

    closed spec fn view(&self) -> Window {
        Window { last_timestamp: self.last_timestamp, seen: self.notes@ }
    }
}

impl Default for CheckinNoteInner {
    fn default() -> (inner: CheckinNoteInner)
        ensures
            inner@ == first_window(),
    {
        CheckinNoteInner { last_timestamp: 0, notes: HashSet::new() }
    }
}

/// The record of check-ins.
#[derive(Debug)]
pub struct CheckinNote {
    inner: CheckinNoteInner,
}

impl View for CheckinNote {
    type V = Window;

    closed spec fn view(&self) -> Window {
        self.inner@
    }
}

impl CheckinNote {
    /// A record that has seen no event.
    pub fn new() -> (note: CheckinNote)
        ensures
            note@ == first_window(),
    {
        CheckinNote { inner: CheckinNoteInner::default() }
    }

    /// Records a check-in of `user_id` at `timestamp` and says whether it is
    /// the user's first in its window. `cooldown` is the length of a window
    /// as configured at the time of the call.
    pub fn checkin(&mut self, user_id: u64, timestamp: u64, cooldown: u64) -> (fresh: bool)
        ensures
            fresh == is_new(old(self)@, user_id, timestamp, cooldown),
            final(self)@ == checked_in(old(self)@, user_id, timestamp, cooldown),
    {
        let opens = match self.inner.last_timestamp.checked_add(cooldown) {
            Some(end) => timestamp >= end,
            None => false,
        };
        if opens {
            self.inner.notes.clear();
            self.inner.last_timestamp = timestamp;
        }
        self.inner.notes.insert(user_id)
    }
}

/// After a user has checked in, a second check-in of the same user in the
/// same window is not new, whereas the first check-in of any other user in
/// that window is.
pub proof fn lemma_one_award_per_window(
    window: Window,
    user_id: u64,
    first: u64,
    second: u64,
    cooldown: u64,
    other: u64,
)
    requires
        !rolls_over(checked_in(window, user_id, first, cooldown), second, cooldown),
    ensures
        is_new(window, user_id, first, cooldown) == (rolls_over(window, first, cooldown)
            || !window.seen.contains(user_id)),
        !is_new(checked_in(window, user_id, first, cooldown), user_id, second, cooldown),
        other != user_id && !window_at(window, first, cooldown).seen.contains(other) ==> is_new(
            checked_in(window, user_id, first, cooldown),
            other,
            second,
            cooldown,
        ),
{
}

/// The check-in that opens a window is new, and so is the first check-in of
/// every other user for as long as that window lasts.
pub proof fn lemma_window_opens_empty(
    window: Window,
    user_id: u64,
    first: u64,
    second: u64,
    cooldown: u64,
    other: u64,
)
    requires
        rolls_over(window, first, cooldown),
        !rolls_over(checked_in(window, user_id, first, cooldown), second, cooldown),
    ensures
        is_new(window, user_id, first, cooldown),
        checked_in(window, user_id, first, cooldown).last_timestamp == first,
        checked_in(window, user_id, first, cooldown).seen == Set::<u64>::empty().insert(user_id),
        other != user_id ==> is_new(
            checked_in(window, user_id, first, cooldown),
            other,
            second,
            cooldown,
        ),
{
}

} // verus!
