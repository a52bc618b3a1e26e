//! The CBZ writer's queue of pending pages.
//!
//! Every submitted image becomes a job: an AVIF image is copied into the
//! archive as it is, any other image is first converted to AVIF by an outside
//! encoder. Jobs finish in the order they were submitted, and at most as many
//! jobs are pending as conversions may run at once: before a new job is
//! queued, the oldest ones are completed until there is room. The caller does
//! the outside work (running the encoder, writing the archive) for the jobs
//! this queue hands out; `P` is what it keeps with each job for that.

use vstd::prelude::*;
use crate::names::{entry_file_name, entry_name};

verus! {

/// What has to be done with a submitted image.
#[derive(Clone, Copy, Debug, PartialEq, Eq, Structural)]
pub enum JobKind {
    /// The image is already AVIF: store it as it is.
    Copy,
    /// The image is converted to AVIF first, and the result stored.
    Convert,
}

/// A submitted image, with the number of the archive entry it becomes.
pub struct Job<P> {
    pub kind: JobKind,
    pub index: usize,
    pub payload: P,
}

/// ASCII lower case of a byte; other bytes are unchanged.
pub open spec fn ascii_lower(b: u8) -> u8 {
    if 0x41 <= b <= 0x5A {
        (b + 32) as u8
    } else {
        b
    }
}

/// `ext` equals `avif`, ignoring ASCII case.
pub open spec fn is_avif_extension(ext: Seq<u8>) -> bool {
    &&& ext.len() == 4
    &&& ascii_lower(ext[0]) == 0x61u8
    &&& ascii_lower(ext[1]) == 0x76u8
    &&& ascii_lower(ext[2]) == 0x69u8
    &&& ascii_lower(ext[3]) == 0x66u8
}

/// The job kind for an image whose file name has extension `ext` (`None`
/// when it has none).
pub open spec fn kind_for(ext: Option<Seq<u8>>) -> JobKind {
    match ext {
        Some(e) => if is_avif_extension(e) {
            JobKind::Copy
        } else {
            JobKind::Convert
        },
        None => JobKind::Convert,
    }
}

fn lower(b: u8) -> (r: u8)
    ensures
        r == ascii_lower(b),
{
    if 0x41 <= b && b <= 0x5A {
        b + 32
    } else {
        b
    }
}

/// Decides what to do with an image from the extension of its file name.
pub fn job_kind(extension: Option<&[u8]>) -> (kind: JobKind)
    ensures
        kind == kind_for(
            match extension {
                Some(e) => Some(e@),
                None => None,
            },
        ),
{
    match extension {
        Some(e) => {
            if e.len() == 4 && lower(e[0]) == 0x61 && lower(e[1]) == 0x76 && lower(e[2]) == 0x69
                && lower(e[3]) == 0x66 {
                JobKind::Copy
            } else {
                JobKind::Convert
            }
        },
        None => JobKind::Convert,
    }
}

/// The pending jobs of a CBZ writer.
pub struct CbzWriter<P> {
    jobs: std::collections::VecDeque<Job<P>>,
    index: usize,
    padding: usize,
    processes: usize,
}

impl<P> CbzWriter<P> {
    /// The jobs submitted and not yet handed out for completion, oldest first.
    pub closed spec fn pending(&self) -> Seq<Job<P>> {
        self.jobs@
    }

    /// The entry number the next submitted image gets.
    pub closed spec fn upcoming_index(&self) -> usize {
        self.index
    }

    /// The number of digits entry numbers are padded to.
    pub closed spec fn padding_width(&self) -> usize {
        self.padding
    }

    /// How many jobs may be pending at once.
    pub closed spec fn parallelism(&self) -> usize {
        self.processes
    }

    /// Entry numbers start at 1, the pending jobs carry consecutive numbers
    /// ending just before the upcoming one, and there are no more of them than
    /// the parallelism allows.
    pub open spec fn wf(&self) -> bool {
        &&& self.parallelism() > 0
        &&& self.upcoming_index() >= 1
        &&& self.pending().len() <= self.parallelism()
        &&& self.pending().len() < self.upcoming_index()
        &&& forall|k: int|
            0 <= k < self.pending().len() ==> (#[trigger] self.pending()[k]).index
                == self.upcoming_index() - self.pending().len() + k
    }

    /// A writer with no jobs, whose entries are numbered from 1 and padded to
    /// `padding` digits, with at most `processes` jobs pending.
    pub fn new(padding: usize, processes: usize) -> (w: Self)
        requires
            processes > 0,
        ensures
            w.wf(),
            w.pending() == Seq::<Job<P>>::empty(),
            w.upcoming_index() == 1,
            w.padding_width() == padding,
            w.parallelism() == processes,
    {
        CbzWriter {
            jobs: std::collections::VecDeque::with_capacity(processes),
            index: 1,
            padding,
            processes,
        }
    }

    /// The entry number the next submitted image gets.
    pub fn next_index(&self) -> (i: usize)
        ensures
            i == self.upcoming_index(),
    {
        self.index
    }

    /// The number of jobs pending.
    pub fn pending_count(&self) -> (n: usize)
        ensures
            n == self.pending().len(),
    {
        self.jobs.len()
    }

    /// The archive entry name of entry number `index`.
    pub fn entry_name(&self, index: usize) -> (name: Vec<u8>)
        ensures
            name@ == entry_file_name(index as nat, self.padding_width() as nat),
    {
        entry_name(index, self.padding)
    }

    /// Hands out the oldest pending job for completion if the queue is full;
    /// otherwise hands out nothing, and there is room for one more job.
    pub fn pop_due(&mut self) -> (job: Option<Job<P>>)
        requires
            old(self).wf(),
        ensures
            final(self).wf(),
            final(self).upcoming_index() == old(self).upcoming_index(),
            final(self).padding_width() == old(self).padding_width(),
            final(self).parallelism() == old(self).parallelism(),
            old(self).pending().len() >= old(self).parallelism() ==> {
                &&& job == Some(old(self).pending()[0])
                &&& final(self).pending() == old(self).pending().drop_first()
            },
            old(self).pending().len() < old(self).parallelism() ==> {
                &&& job.is_none()
                &&& final(self).pending() == old(self).pending()
            },
    {
        if self.jobs.len() >= self.processes {
            let job = self.jobs.pop_front();
            proof {
                assert(self.jobs@ =~= old(self).jobs@.drop_first());
                assert forall|k: int| 0 <= k < self.jobs@.len() implies (
                #[trigger] self.jobs@[k]).index == self.index - self.jobs@.len() + k by {
                    assert(self.jobs@[k] == old(self).jobs@[k + 1]);
                }
            }
            job
        } else {
            None
        }
    }

    /// Hands out the oldest pending job, if there is one.
    pub fn pop_pending(&mut self) -> (job: Option<Job<P>>)
        requires
            old(self).wf(),
        ensures
            final(self).wf(),
            final(self).upcoming_index() == old(self).upcoming_index(),
            final(self).padding_width() == old(self).padding_width(),
            final(self).parallelism() == old(self).parallelism(),
            old(self).pending().len() > 0 ==> {
                &&& job == Some(old(self).pending()[0])
                &&& final(self).pending() == old(self).pending().drop_first()
            },
            old(self).pending().len() == 0 ==> job.is_none() && final(self).pending() == old(
                self,
            ).pending(),
    {
        let job = self.jobs.pop_front();
        proof {
            if old(self).jobs@.len() > 0 {
                assert(self.jobs@ =~= old(self).jobs@.drop_first());
                assert forall|k: int| 0 <= k < self.jobs@.len() implies (
                #[trigger] self.jobs@[k]).index == self.index - self.jobs@.len() + k by {
                    assert(self.jobs@[k] == old(self).jobs@[k + 1]);
                }
            }
        }
        job
    }

    /// Queues a job of `kind` for the upcoming entry number, and moves on to
    /// the next number. There must be room: [`CbzWriter::pop_due`] hands out
    /// nothing when there is.
    pub fn push(&mut self, kind: JobKind, payload: P)
        requires
            old(self).wf(),
            old(self).pending().len() < old(self).parallelism(),
            old(self).upcoming_index() < usize::MAX,
        ensures
            final(self).wf(),
            final(self).pending() == old(self).pending().push(
                Job { kind, index: old(self).upcoming_index(), payload },
            ),
            final(self).upcoming_index() == old(self).upcoming_index() + 1,
            final(self).padding_width() == old(self).padding_width(),
            final(self).parallelism() == old(self).parallelism(),
    {
        let job = Job { kind, index: self.index, payload };
        self.jobs.push_back(job);
        self.index = self.index + 1;
        proof {
            assert forall|k: int| 0 <= k < self.jobs@.len() implies (
            #[trigger] self.jobs@[k]).index == self.index - self.jobs@.len() + k by {
                if k < old(self).jobs@.len() {
                    assert(self.jobs@[k] == old(self).jobs@[k]);
                }
            }
        }
    }
}

} // verus!
