//! The recursive size of a workspace entry.
//!
//! The walk is depth first and sequential. It is driven by the caller, which
//! reads the file system: [`SizeWalk::next_path`] names the next path to look
//! at, and [`SizeWalk::record`] takes what was found there. A file counts its
//! length; a directory counts its children; an entry whose metadata cannot be
//! read, or that is neither a file nor a directory, counts zero and never
//! stops the walk.

use crate::retention::total_size;
use vstd::prelude::*;

verus! {

/// What the caller found at a path.
#[derive(Debug)]
pub enum Probe<P> {
    /// A file of this many bytes.
    File(u64),
    /// A directory with these children.
    Dir(Vec<P>),
    /// Nothing could be read there.
    Unreadable,
    /// Something that is neither a file nor a directory.
    Other,
}

/// `n`, capped at the largest `u64`.
pub open spec fn capped(n: nat) -> u64 {
    if n > u64::MAX {
        u64::MAX
    } else {
        n as u64
    }
}

/// A walk under one root that sums the lengths of the files found.
pub struct SizeWalk<P> {
    pending: Vec<P>,
    total: u64,
    files: Ghost<Seq<nat>>,
}

impl<P> SizeWalk<P> {
    /// The paths still to be looked at; the last one is next.
    pub closed spec fn pending(&self) -> Seq<P> {
        self.pending@
    }

    /// The lengths of the files found so far.
    pub closed spec fn files(&self) -> Seq<nat> {
        self.files@
    }

    /// The running total is the sum of the lengths found, capped.
    pub closed spec fn wf(&self) -> bool {
        self.total == capped(total_size(self.files@))
    }

    /// A walk that starts at `root`.
    pub fn new(root: P) -> (w: SizeWalk<P>)
        ensures
            w.wf(),
            w.pending() == seq![root],
            w.files() == Seq::<nat>::empty(),
    {
        let mut pending: Vec<P> = Vec::new();
        pending.push(root);
        SizeWalk { pending, total: 0, files: Ghost(Seq::empty()) }
    }

    /// The next path to look at, or `None` once the walk is over.
    pub fn next_path(&mut self) -> (r: Option<P>)
        requires
            old(self).wf(),
        ensures
            final(self).wf(),
            final(self).files() == old(self).files(),
            old(self).pending().len() == 0 ==> r is None && final(self).pending() == old(
                self,
            ).pending(),
            old(self).pending().len() > 0 ==> r == Some(old(self).pending().last())
                && final(self).pending() == old(self).pending().drop_last(),
    {
        self.pending.pop()
    }

    /// Takes what was found at the path last handed out.
    pub fn record(&mut self, probe: Probe<P>)
        requires
            old(self).wf(),
        ensures
            final(self).wf(),
            match probe {
                Probe::File(len) => final(self).files() == old(self).files().push(len as nat)
                    && final(self).pending() == old(self).pending(),
                Probe::Dir(children) => final(self).files() == old(self).files()
                    && final(self).pending() == old(self).pending() + children@,
                _ => final(self).files() == old(self).files() && final(self).pending() == old(
                    self,
                ).pending(),
            },
    {
        match probe {
            Probe::File(len) => {
                let ghost files = self.files@.push(len as nat);
                self.total = self.total.saturating_add(len);
                self.files = Ghost(files);
                proof {
                    assert(files.drop_last() =~= old(self).files@);
                }
            },
            Probe::Dir(children) => {
                let mut children = children;
                self.pending.append(&mut children);
            },
            Probe::Unreadable => {},
            Probe::Other => {},
        }
    }

    /// The total so far: the sum of the lengths of the files found, capped at
    /// the largest `u64`.
    pub fn total(&self) -> (r: u64)
        requires
            self.wf(),
        ensures
            r == capped(total_size(self.files())),
    {
        self.total
    }
}

} // verus!
