//! The background jobs of a pane — folder size, recursive search, deep listing — as seen by
//! the interface: each message a worker sends moves the job's state one step. The interface
//! drains the messages on its timer and stops reading a deep listing at its end.
use vstd::prelude::*;

verus! {

/// A message of the folder-size worker.
#[derive(Clone, Copy, Debug, PartialEq, Eq)]
pub enum SizeMsg {
    Progress { bytes: u64 },
    Done { total: u64, partial: bool },
    Cancelled { bytes: u64 },
}

/// The folder-size computation: bytes counted so far and how it ended.
#[derive(Clone, Copy, Debug, PartialEq, Eq)]
pub struct SizeJob {
    pub bytes: u64,
    pub partial: bool,
    pub cancelled: bool,
    pub done: bool,
}

impl SizeJob {
    /// A computation that just started.
    pub fn new() -> (r: Self)
        ensures
            r == (SizeJob { bytes: 0, partial: false, cancelled: false, done: false }),
    {
        SizeJob { bytes: 0, partial: false, cancelled: false, done: false }
    }

    /// The state after a message of the worker.
    pub open spec fn after(self, msg: SizeMsg) -> SizeJob {
        match msg {
            SizeMsg::Progress { bytes } => SizeJob { bytes, ..self },
            SizeMsg::Done { total, partial } => SizeJob { bytes: total, partial, done: true, ..self },
            SizeMsg::Cancelled { bytes } => SizeJob { bytes, cancelled: true, done: true, ..self },
        }
    }

    /// Takes in a message of the worker (see `after`).
    pub fn receive(&mut self, msg: SizeMsg)
        ensures
            *final(self) == old(self).after(msg),
    {
        match msg {
            SizeMsg::Progress { bytes } => self.bytes = bytes,
            SizeMsg::Done { total, partial } => {
                self.bytes = total;
                self.partial = partial;
                self.done = true;
            },
            SizeMsg::Cancelled { bytes } => {
                self.bytes = bytes;
                self.cancelled = true;
                self.done = true;
            },
        }
    }
}

/// A message of the search worker.
#[derive(Clone, Debug, PartialEq, Eq)]
pub enum SearchMsg<T> {
    Hit(T),
    Progress { dirs_scanned: u64 },
    Done { partial: bool, hit_cap: bool },
    Cancelled,
}

/// A recursive search: the hits in the order found, and how it ended.
pub struct SearchJob<T> {
    pub hits: Vec<T>,
    pub dirs_scanned: u64,
    pub partial: bool,
    pub hit_cap: bool,
    pub cancelled: bool,
    pub done: bool,
}

impl<T> SearchJob<T> {
    /// A search that just started.
    pub fn new() -> (r: Self)
        ensures
            r.hits@.len() == 0,
            r.dirs_scanned == 0,
            !r.partial && !r.hit_cap && !r.cancelled && !r.done,
    {
        SearchJob { hits: Vec::new(), dirs_scanned: 0, partial: false, hit_cap: false, cancelled: false, done: false }
    }

    /// Takes in a message of the worker: a hit is appended, progress counts the folders
    /// scanned, the end records whether it was partial or hit the cap, a cancel ends it too.
    pub fn receive(&mut self, msg: SearchMsg<T>)
        ensures
            final(self).hits@ == (match msg {
                SearchMsg::Hit(h) => old(self).hits@.push(h),
                _ => old(self).hits@,
            }),
            final(self).dirs_scanned == (match msg {
                SearchMsg::Progress { dirs_scanned } => dirs_scanned,
                _ => old(self).dirs_scanned,
            }),
            final(self).partial == (match msg {
                SearchMsg::Done { partial, .. } => partial,
                _ => old(self).partial,
            }),
            final(self).hit_cap == (match msg {
                SearchMsg::Done { hit_cap, .. } => hit_cap,
                _ => old(self).hit_cap,
            }),
            final(self).cancelled == (old(self).cancelled || msg is Cancelled),
            final(self).done == (old(self).done || msg is Done || msg is Cancelled),
    {
        match msg {
            SearchMsg::Hit(h) => self.hits.push(h),
            SearchMsg::Progress { dirs_scanned } => self.dirs_scanned = dirs_scanned,
            SearchMsg::Done { partial, hit_cap } => {
                self.partial = partial;
                self.hit_cap = hit_cap;
                self.done = true;
            },
            SearchMsg::Cancelled => {
                self.cancelled = true;
                self.done = true;
            },
        }
    }

    /// The worker's channel closed without an end message: the search is over, and reported
    /// partial rather than left running for ever.
    pub fn disconnected(&mut self)
        ensures
            final(self).hits@ == old(self).hits@,
            final(self).dirs_scanned == old(self).dirs_scanned,
            final(self).partial,
            final(self).hit_cap == old(self).hit_cap,
            final(self).cancelled == old(self).cancelled,
            final(self).done,
    {
        self.partial = true;
        self.done = true;
    }
}

/// What the deep-listing worker's channel gave: a message, nothing for now, or the end of the
/// channel.
#[derive(Clone, Debug, PartialEq, Eq)]
pub enum DeepRecv<T> {
    Entry(T, u32),
    Progress { dirs_scanned: u64 },
    Done { partial: bool },
    Cancelled,
    Empty,
    Disconnected,
}

/// A deep listing: the entries with their depth, in the order found, and how it ended.
pub struct DeepJob<T> {
    pub items: Vec<(T, u32)>,
    pub dirs_scanned: u64,
    pub done: bool,
    pub partial: bool,
    pub cancelled: bool,
}

/// What one read of the deep listing's channel did.
#[derive(Clone, Copy, Debug, PartialEq, Eq)]
pub struct DeepStep {
    /// The rows shown changed (an entry came, or the listing ended).
    pub changed: bool,
    /// Keep reading the channel in this tick.
    pub more: bool,
}

impl<T> DeepJob<T> {
    /// A deep listing that just started.
    pub fn new() -> (r: Self)
        ensures
            r.items@.len() == 0,
            r.dirs_scanned == 0,
            !r.done && !r.partial && !r.cancelled,
    {
        DeepJob { items: Vec::new(), dirs_scanned: 0, done: false, partial: false, cancelled: false }
    }

    /// Takes in what the channel gave: an entry is appended and changes the rows; progress
    /// counts folders; the end marks the listing done (partial or not) and changes the rows; a
    /// cancel marks it cancelled; a closed channel marks it done. Reading stops at the end, at
    /// a cancel, when nothing is waiting and when the channel is closed.
    pub fn receive(&mut self, msg: DeepRecv<T>) -> (r: DeepStep)
        ensures
            final(self).items@ == (match msg {
                DeepRecv::Entry(e, depth) => old(self).items@.push((e, depth)),
                _ => old(self).items@,
            }),
            final(self).dirs_scanned == (match msg {
                DeepRecv::Progress { dirs_scanned } => dirs_scanned,
                _ => old(self).dirs_scanned,
            }),
            final(self).done == (old(self).done || msg is Done || msg is Disconnected),
            final(self).partial == (match msg {
                DeepRecv::Done { partial } => partial,
                _ => old(self).partial,
            }),
            final(self).cancelled == (old(self).cancelled || msg is Cancelled),
            r.changed == (msg is Entry || msg is Done),
            r.more == (msg is Entry || msg is Progress),
    {
        match msg {
            DeepRecv::Entry(e, depth) => {
                self.items.push((e, depth));
                DeepStep { changed: true, more: true }
            },
            DeepRecv::Progress { dirs_scanned } => {
                self.dirs_scanned = dirs_scanned;
                DeepStep { changed: false, more: true }
            },
            DeepRecv::Done { partial } => {
                self.done = true;
                self.partial = partial;
                DeepStep { changed: true, more: false }
            },
            DeepRecv::Cancelled => {
                self.cancelled = true;
                DeepStep { changed: false, more: false }
            },
            DeepRecv::Empty => DeepStep { changed: false, more: false },
            DeepRecv::Disconnected => {
                self.done = true;
                DeepStep { changed: false, more: false }
            },
        }
    }
}

/// A finished folder-size computation stays finished whatever message comes after.
pub proof fn lemma_size_done_stays(job: SizeJob, msg: SizeMsg)
    requires
        job.done,
    ensures
        job.after(msg).done,
{
}

/// A cancelled computation reports the bytes counted when it stopped, and is finished.
pub proof fn lemma_size_cancel_ends(job: SizeJob, bytes: u64)
    ensures
        job.after(SizeMsg::Cancelled { bytes }).done,
        job.after(SizeMsg::Cancelled { bytes }).cancelled,
        job.after(SizeMsg::Cancelled { bytes }).bytes == bytes,
{
}

} // verus!
