//! Storing the bootstrap snapshot: the document is written to a temporary
//! file beside the snapshot, which then replaces it.
use vstd::prelude::*;

verus! {

/// The next thing to do while storing a snapshot.
#[derive(Clone, Copy, Debug)]
pub enum SnapshotWriteStep {
    /// Create the directory that holds the snapshot (and its parents).
    CreateDir,
    /// Turn the document into JSON bytes.
    Serialize,
    /// Write the bytes to the temporary file.
    WriteTemp,
    /// Rename the temporary file onto the snapshot.
    Rename,
    /// Remove the old snapshot (whatever comes of it).
    RemoveOld,
    /// Rename the temporary file onto the snapshot once more.
    RetryRename,
    /// Stop: whether the snapshot now holds the document.
    Done(bool),
}

/// The first step: create the directory when the snapshot path has one.
pub open spec fn snapshot_write_first(has_parent_dir: bool) -> SnapshotWriteStep {
    if has_parent_dir {
        SnapshotWriteStep::CreateDir
    } else {
        SnapshotWriteStep::Serialize
    }
}

/// How storing a snapshot moves on once a step has succeeded or failed: any
/// failure up to writing the temporary file gives up; a failed rename removes
/// the old snapshot and renames again; only a successful rename succeeds.
pub open spec fn snapshot_write_next(step: SnapshotWriteStep, succeeded: bool) -> SnapshotWriteStep {
    match step {
        SnapshotWriteStep::CreateDir => if succeeded {
            SnapshotWriteStep::Serialize
        } else {
            SnapshotWriteStep::Done(false)
        },
        SnapshotWriteStep::Serialize => if succeeded {
            SnapshotWriteStep::WriteTemp
        } else {
            SnapshotWriteStep::Done(false)
        },
        SnapshotWriteStep::WriteTemp => if succeeded {
            SnapshotWriteStep::Rename
        } else {
            SnapshotWriteStep::Done(false)
        },
        SnapshotWriteStep::Rename => if succeeded {
            SnapshotWriteStep::Done(true)
        } else {
            SnapshotWriteStep::RemoveOld
        },
        SnapshotWriteStep::RemoveOld => SnapshotWriteStep::RetryRename,
        SnapshotWriteStep::RetryRename => SnapshotWriteStep::Done(succeeded),
        SnapshotWriteStep::Done(ok) => SnapshotWriteStep::Done(ok),
    }
}

/// Starts storing a snapshot.
pub fn begin_snapshot_write(has_parent_dir: bool) -> (step: SnapshotWriteStep)
    ensures
        step == snapshot_write_first(has_parent_dir),
{
    if has_parent_dir {
        SnapshotWriteStep::CreateDir
    } else {
        SnapshotWriteStep::Serialize
    }
}

/// Moves on after `step` succeeded or failed.
pub fn advance_snapshot_write(step: SnapshotWriteStep, succeeded: bool) -> (next: SnapshotWriteStep)
    requires
        !(step is Done),
    ensures
        next == snapshot_write_next(step, succeeded),
{
    match step {
        SnapshotWriteStep::CreateDir => if succeeded {
            SnapshotWriteStep::Serialize
        } else {
            SnapshotWriteStep::Done(false)
        },
        SnapshotWriteStep::Serialize => if succeeded {
            SnapshotWriteStep::WriteTemp
        } else {
            SnapshotWriteStep::Done(false)
        },
        SnapshotWriteStep::WriteTemp => if succeeded {
            SnapshotWriteStep::Rename
        } else {
            SnapshotWriteStep::Done(false)
        },
        SnapshotWriteStep::Rename => if succeeded {
            SnapshotWriteStep::Done(true)
        } else {
            SnapshotWriteStep::RemoveOld
        },
        SnapshotWriteStep::RemoveOld => SnapshotWriteStep::RetryRename,
        SnapshotWriteStep::RetryRename => SnapshotWriteStep::Done(succeeded),
        SnapshotWriteStep::Done(ok) => SnapshotWriteStep::Done(ok),
    }
}

/// How many steps are left at most.
pub open spec fn steps_left(step: SnapshotWriteStep) -> nat {
    match step {
        SnapshotWriteStep::CreateDir => 6,
        SnapshotWriteStep::Serialize => 5,
        SnapshotWriteStep::WriteTemp => 4,
        SnapshotWriteStep::Rename => 3,
        SnapshotWriteStep::RemoveOld => 2,
        SnapshotWriteStep::RetryRename => 1,
        SnapshotWriteStep::Done(_) => 0,
    }
}

/// Storing a snapshot ends after at most six steps, and it reports success
/// only right after a rename of the temporary file succeeded.
pub proof fn law_snapshot_write_ends_and_reports_rename(step: SnapshotWriteStep, succeeded: bool)
    requires
        !(step is Done),
    ensures
        steps_left(snapshot_write_next(step, succeeded)) < steps_left(step),
        snapshot_write_next(step, succeeded) == SnapshotWriteStep::Done(true) ==> succeeded && (
        step is Rename || step is RetryRename),
{
}

} // verus!
