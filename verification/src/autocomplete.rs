//! Debounced path-bar autocompletion: typing fast never starts one lookup per key,
//! a lookup starts only after the user paused, and a result for a buffer that is no
//! longer the latest request is dropped.
//!
//! The lookup itself (a directory listing) runs elsewhere: `drive` says when to start
//! one and for which buffer, `poll` takes what the lookup answered.
use vstd::prelude::*;

verus! {

/// Quiet time, in milliseconds, that must pass after the last keystroke before a
/// lookup starts.
pub const AUTOCOMPLETE_DEBOUNCE_MS: u64 = 120;

/// What a non-blocking look at the running lookup found.
#[derive(Clone, Debug, PartialEq, Eq)]
pub enum WorkerReply {
    /// The lookup has not answered yet.
    Pending,
    /// The lookup ended without answering.
    Gone,
    /// The lookup answered: the buffer it completed and its suggestions.
    Done(String, Vec<String>),
}

/// What a tick of the UI timer has to do.
#[derive(Clone, Debug, PartialEq, Eq)]
pub struct DriveStep {
    /// Work is still pending (debounce running or a lookup in flight): keep the timer alive.
    pub busy: bool,
    /// Start a lookup for this buffer now.
    pub launch: Option<String>,
}

/// Path-bar autocompletion state.
pub struct AutocompleteState {
    /// Latest request: typed buffer and when (milliseconds on a monotonic clock).
    requested: Option<(String, u64)>,
    /// Buffer for which a lookup was already started.
    launched: Option<String>,
    /// A lookup is running and has not answered yet.
    in_flight: bool,
}

/// The state as values: latest request, last launched buffer, lookup in flight.
pub struct AutocompleteView {
    pub requested: Option<(Seq<char>, u64)>,
    pub launched: Option<Seq<char>>,
    pub in_flight: bool,
}

impl View for AutocompleteState {
    type V = AutocompleteView;

    closed spec fn view(&self) -> AutocompleteView {
        AutocompleteView {
            requested: match self.requested {
                Some((b, t)) => Some((b@, t)),
                None => None,
            },
            launched: match self.launched {
                Some(l) => Some(l@),
                None => None,
            },
            in_flight: self.in_flight,
        }
    }
}

/// Nothing requested, nothing launched, nothing running.
pub open spec fn idle_view() -> AutocompleteView {
    AutocompleteView { requested: None, launched: None, in_flight: false }
}

/// Milliseconds from `since` to `now`; zero when `now` is earlier.
pub open spec fn elapsed_ms(now: u64, since: u64) -> int {
    if now >= since {
        now - since
    } else {
        0
    }
}

/// A new request replaces the previous one and restarts the debounce.
pub open spec fn request_spec(s: AutocompleteView, buffer: Seq<char>, now: u64) -> AutocompleteView {
    AutocompleteView { requested: Some((buffer, now)), ..s }
}

/// The state after a tick at `now`.
pub open spec fn drive_state(s: AutocompleteView, now: u64) -> AutocompleteView {
    match drive_launch(s, now) {
        Some(b) => AutocompleteView { launched: Some(b), in_flight: true, ..s },
        None => s,
    }
}

/// The buffer for which a tick at `now` starts a lookup: the latest request, once it is
/// not already launched, the debounce has run out and no older lookup is still running.
pub open spec fn drive_launch(s: AutocompleteView, now: u64) -> Option<Seq<char>> {
    match s.requested {
        Some((b, since)) => {
            if s.launched == Some(b) || elapsed_ms(now, since) < AUTOCOMPLETE_DEBOUNCE_MS
                || s.in_flight {
                None
            } else {
                Some(b)
            }
        },
        None => None,
    }
}

/// Whether work remains pending after a tick at `now`.
pub open spec fn drive_busy(s: AutocompleteView, now: u64) -> bool {
    match s.requested {
        Some((b, since)) => {
            if s.launched == Some(b) {
                s.in_flight
            } else {
                true
            }
        },
        None => s.in_flight,
    }
}

/// Whether the lookup answered (or ended) in `reply`.
pub open spec fn reply_ends(reply: WorkerReply) -> bool {
    !(reply is Pending)
}

/// The state after taking `reply`.
pub open spec fn poll_state(s: AutocompleteView, reply: WorkerReply) -> AutocompleteView {
    if s.in_flight && reply_ends(reply) {
        AutocompleteView { in_flight: false, ..s }
    } else {
        s
    }
}

/// Whether `buffer` is the latest request.
pub open spec fn is_latest(s: AutocompleteView, buffer: Seq<char>) -> bool {
    match s.requested {
        Some((b, _)) => b == buffer,
        None => false,
    }
}

/// What taking `reply` hands to the path-bar: the answer, only while a lookup runs and only
/// when it completed the latest request.
pub open spec fn poll_result(s: AutocompleteView, reply: WorkerReply) -> Option<(String, Vec<String>)> {
    match reply {
        WorkerReply::Done(b, sugg) => {
            if s.in_flight && is_latest(s, b@) {
                Some((b, sugg))
            } else {
                None
            }
        },
        _ => None,
    }
}

/// A lookup starts only for the latest request, only once the user paused for the
/// debounce time since typing it, and never while an older lookup still runs.
pub proof fn lemma_launch_only_after_pause(s: AutocompleteView, now: u64)
    ensures
        drive_launch(s, now) is Some ==> {
            &&& s.requested matches Some((b, since))
            &&& drive_launch(s, now) == Some(b)
            &&& elapsed_ms(now, since) >= AUTOCOMPLETE_DEBOUNCE_MS
            &&& !s.in_flight
            &&& s.launched != Some(b)
        },
{
}

/// One request starts at most one lookup: once it was launched, later ticks start none
/// and stay busy until the lookup answers.
pub proof fn lemma_launch_once(s: AutocompleteView, t1: u64, t2: u64)
    requires
        drive_launch(s, t1) is Some,
    ensures
        drive_launch(drive_state(s, t1), t2) is None,
        drive_busy(drive_state(s, t1), t2),
{
}

/// An answer reaches the path-bar only when it completes the latest request.
pub proof fn lemma_stale_answer_dropped(s: AutocompleteView, reply: WorkerReply)
    ensures
        poll_result(s, reply) is Some ==> reply is Done && is_latest(s, reply->0@),
        reply is Done && !is_latest(s, reply->0@) ==> poll_result(s, reply) is None,
{
}

/// Typing a buffer and pausing starts its lookup, and the lookup's answer for that buffer
/// is handed back whole.
pub proof fn lemma_pause_then_answer(
    s: AutocompleteView,
    buffer: Seq<char>,
    typed_at: u64,
    now: u64,
    answer: String,
    suggestions: Vec<String>,
)
    requires
        !s.in_flight,
        s.launched != Some(buffer),
        now >= typed_at + AUTOCOMPLETE_DEBOUNCE_MS,
        answer@ == buffer,
    ensures
        ({
            let s1 = request_spec(s, buffer, typed_at);
            let s2 = drive_state(s1, now);
            let reply = WorkerReply::Done(answer, suggestions);
            &&& drive_launch(s1, now) == Some(buffer)
            &&& poll_result(s2, reply) == Some((answer, suggestions))
            &&& !poll_state(s2, reply).in_flight
        }),
{
}

/// When the user types on while a lookup runs, that lookup's answer is dropped, and the
/// new buffer gets its own lookup after the pause.
pub proof fn lemma_typing_on_makes_answer_stale(
    s: AutocompleteView,
    first: Seq<char>,
    second: Seq<char>,
    t1: u64,
    t2: u64,
    t3: u64,
    answer: String,
    suggestions: Vec<String>,
)
    requires
        drive_launch(request_spec(s, first, t1), t2) is Some,
        second != first,
        answer@ == first,
        t3 >= t2 + AUTOCOMPLETE_DEBOUNCE_MS,
    ensures
        ({
            let s2 = drive_state(request_spec(s, first, t1), t2);
            let s3 = request_spec(s2, second, t2);
            let reply = WorkerReply::Done(answer, suggestions);
            &&& poll_result(s3, reply) is None
            &&& drive_launch(poll_state(s3, reply), t3) == Some(second)
        }),
{
}

/// After `cancel` nothing is pending: no tick starts a lookup or asks to keep the timer,
/// and no answer reaches the path-bar.
pub proof fn lemma_cancel_drops_everything(now: u64, reply: WorkerReply)
    ensures
        drive_launch(idle_view(), now) is None,
        !drive_busy(idle_view(), now),
        poll_result(idle_view(), reply) is None,
        poll_state(idle_view(), reply) == idle_view(),
{
}

impl AutocompleteState {
    /// An idle state.
    pub fn new() -> (r: Self)
        ensures
            r@ == idle_view(),
    {
        AutocompleteState { requested: None, launched: None, in_flight: false }
    }

    /// Records the typed buffer and restarts the debounce; starts nothing.
    pub fn request(&mut self, buffer: String, now: u64)
        ensures
            final(self)@ == request_spec(old(self)@, buffer@, now),
    {
        self.requested = Some((buffer, now));
    }

    /// A tick of the UI timer at `now`: says whether to start a lookup, and for which
    /// buffer, and whether work remains pending.
    pub fn drive(&mut self, now: u64) -> (step: DriveStep)
        ensures
            final(self)@ == drive_state(old(self)@, now),
            step.busy == drive_busy(old(self)@, now),
            match step.launch {
                Some(b) => drive_launch(old(self)@, now) == Some(b@),
                None => drive_launch(old(self)@, now) is None,
            },
    {
        let (buffer, since) = match &self.requested {
            Some((b, t)) => (b, *t),
            None => {
                return DriveStep { busy: self.in_flight, launch: None };
            },
        };
        let same = match &self.launched {
            Some(l) => *l == *buffer,
            None => false,
        };
        if same {
            return DriveStep { busy: self.in_flight, launch: None };
        }
        let elapsed: u64 = if now >= since {
            now - since
        } else {
            0
        };
        if elapsed < AUTOCOMPLETE_DEBOUNCE_MS || self.in_flight {
            return DriveStep { busy: true, launch: None };
        }
        let b = buffer.clone();
        self.launched = Some(b.clone());
        self.in_flight = true;
        DriveStep { busy: true, launch: Some(b) }
    }

    /// Takes what a non-blocking look at the running lookup found. The answer is handed
    /// on only when it completed the latest request; an answer for an older buffer (the
    /// user kept typing) is dropped.
    pub fn poll(&mut self, reply: WorkerReply) -> (r: Option<(String, Vec<String>)>)
        ensures
            final(self)@ == poll_state(old(self)@, reply),
            r == poll_result(old(self)@, reply),
    {
        if !self.in_flight {
            return None;
        }
        match reply {
            WorkerReply::Pending => None,
            WorkerReply::Gone => {
                self.in_flight = false;
                None
            },
            WorkerReply::Done(buffer, sugg) => {
                self.in_flight = false;
                let latest = match &self.requested {
                    Some((b, _)) => *b == buffer,
                    None => false,
                };
                if latest {
                    Some((buffer, sugg))
                } else {
                    None
                }
            },
        }
    }

    /// Drops everything pending: nothing of it applies once the editor closes.
    pub fn cancel(&mut self)
        ensures
            final(self)@ == idle_view(),
    {
        self.requested = None;
        self.launched = None;
        self.in_flight = false;
    }
}

} // verus!
