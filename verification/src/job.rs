//! Rendering jobs and the work partitions issued against them.

use vstd::prelude::*;

verus! {

/// A contiguous partition of a job's workload: the half-open range
/// `begin..end` of pixel or sample indices, sized for `workers` worker slots.
/// Immutable once created; a job accumulates a sequence of these as
/// partitions are issued.
#[derive(Copy, Clone, Debug, PartialEq, Eq, Structural)]
pub struct Work {
    pub begin: u64,
    pub end: u64,
    pub workers: u64,
}

impl Work {
    /// A partition describes a non-empty range.
    pub open spec fn wf(self) -> bool {
        self.begin < self.end
    }
}

/// The ranges of two partitions do not overlap.  The external partitioning
/// operation is obliged to issue only ranges disjoint from everything already
/// issued for the same job; the core records them and states its guarantees
/// under that obligation.
pub open spec fn disjoint_ranges(a: Work, b: Work) -> bool {
    a.end <= b.begin || b.end <= a.begin
}

/// Camera parameters of a job.  They are opaque to the coordination core and
/// forwarded verbatim to workers; each field carries the IEEE-754 bit pattern
/// of the corresponding single-precision setting, so that the core never
/// computes on them.
#[derive(Copy, Clone, Debug, PartialEq, Eq, Structural)]
pub struct Camera {
    pub pos_x: u32,
    pub pos_y: u32,
    pub pos_z: u32,
    pub rot_x: u32,
    pub rot_y: u32,
    pub rot_z: u32,
    pub fov: u32,
    pub focus: u32,
    pub blur: u32,
}

/// One rendering task.  The `id` is assigned by the core from a monotonically
/// increasing counter and never reused; `work` is the ordered ledger of
/// partitions issued so far.
pub struct Job {
    pub id: u64,
    pub width: u64,
    pub height: u64,
    pub camera: Camera,
    pub scene: String,
    pub key: String,
    pub render_mode: u64,
    pub batch_size: u64,
    pub trace_batch_size: u64,
    pub work: Vec<Work>,
}

/// Everything a caller supplies when submitting a job: all of a job's fields
/// except the id, which the core assigns, and the work ledger, which starts
/// empty.
pub struct JobRequest {
    pub width: u64,
    pub height: u64,
    pub camera: Camera,
    pub scene: String,
    pub key: String,
    pub render_mode: u64,
    pub batch_size: u64,
    pub trace_batch_size: u64,
}

/// The two jobs agree on every field except, possibly, the work ledger.
pub open spec fn same_meta(a: Job, b: Job) -> bool {
    &&& a.id == b.id
    &&& a.width == b.width
    &&& a.height == b.height
    &&& a.camera == b.camera
    &&& a.scene@ == b.scene@
    &&& a.key@ == b.key@
    &&& a.render_mode == b.render_mode
    &&& a.batch_size == b.batch_size
    &&& a.trace_batch_size == b.trace_batch_size
}

/// The job carries exactly the submitted fields under the given id.
pub open spec fn job_matches_request(j: Job, req: JobRequest, id: u64) -> bool {
    &&& j.id == id
    &&& j.width == req.width
    &&& j.height == req.height
    &&& j.camera == req.camera
    &&& j.scene@ == req.scene@
    &&& j.key@ == req.key@
    &&& j.render_mode == req.render_mode
    &&& j.batch_size == req.batch_size
    &&& j.trace_batch_size == req.trace_batch_size
}

} // verus!
