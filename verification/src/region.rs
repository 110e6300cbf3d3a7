//! The handle of an open region.

use vstd::prelude::*;
use crate::name_map::str_eq;
use crate::profiler::ProfilerError;
use crate::report::began;
use crate::report::ended;
use crate::reporter::Reporter;
use crate::thread_storage::end_region;
use crate::thread_storage::is_kind;
use crate::thread_storage::start_region;
use crate::thread_storage::ThreadState;
use crate::thread_storage::ThreadStorage;

verus! {

/// What the code that began a region holds until the region ends: the kind
/// of the region's stack, the id of its call site, and the number of regions
/// that were open on the stack when it began.
pub struct Region {
    pub reporter_id: usize,
    pub id: &'static str,
    pub depth: usize,
}

impl Region {
    /// The handle is that of the innermost open region of its stack: the
    /// stack is one that the thread keeps, the region sits where the handle
    /// says, and it has the handle's id.
    pub open spec fn is_innermost(self, state: ThreadState) -> bool {
        &&& is_kind(self.reporter_id)
        &&& state.kinds[self.reporter_id].depth == self.depth + 1
        &&& state.kinds[self.reporter_id].innermost().id == self.id@
    }

    /// Begins a region on the stack of `reporter_id`, as `start_region`
    /// does, and hands out its handle.
    pub fn new(
        storage: &mut ThreadStorage,
        name: &str,
        id: &'static str,
        reporter: Reporter,
        reporter_id: usize,
    ) -> (region: Region)
        requires
            is_kind(reporter_id),
        ensures
            region.reporter_id == reporter_id,
            region.id == id,
            region.depth == old(storage)@.kinds[reporter_id].depth,
            region.is_innermost(final(storage)@),
            began(
                old(storage)@.kinds[reporter_id],
                final(storage)@.kinds[reporter_id],
                name@,
                id@,
                reporter@,
            ),
            final(storage)@ == (ThreadState {
                kinds: old(storage)@.kinds.insert(reporter_id, final(storage)@.kinds[reporter_id]),
                ..old(storage)@
            }),
    {
        let depth = storage.depth(reporter_id);
        start_region(storage, name, id, reporter, reporter_id);
        Region { reporter_id, id, depth }
    }

    /// Ends the region, as `end_region` does, if it is the innermost open
    /// region of its stack. If it is not (no region is open there, another
    /// region was begun inside it and has not ended, or the handle belongs
    /// to another thread's storage) nothing is changed and the call fails
    /// with `StackDiscipline`.
    pub fn end(self, storage: &mut ThreadStorage) -> (result: Result<(), ProfilerError>)
        ensures
            self.is_innermost(old(storage)@) ==> {
                &&& result == Ok::<(), ProfilerError>(())
                &&& ended(
                    old(storage)@.kinds[self.reporter_id],
                    final(storage)@.kinds[self.reporter_id],
                )
                &&& final(storage)@ == (ThreadState {
                    kinds: old(storage)@.kinds.insert(
                        self.reporter_id,
                        final(storage)@.kinds[self.reporter_id],
                    ),
                    ..old(storage)@
                })
            },
            !self.is_innermost(old(storage)@) ==> {
                &&& result == Err::<(), ProfilerError>(ProfilerError::StackDiscipline)
                &&& final(storage)@ == old(storage)@
            },
    {
        if self.reporter_id != crate::reporter::SYSTEM_CLOCK && self.reporter_id
            != crate::reporter::CUSTOM {
            return Err(ProfilerError::StackDiscipline);
        }
        let depth = storage.depth(self.reporter_id);
        if depth == 0 || depth - 1 != self.depth {
            return Err(ProfilerError::StackDiscipline);
        }
        match storage.active_id(self.reporter_id) {
            Some(id) => {
                if str_eq(id, self.id) {
                    end_region(storage, self.reporter_id);
                    Ok(())
                } else {
                    Err(ProfilerError::StackDiscipline)
                }
            },
            None => Err(ProfilerError::StackDiscipline),
        }
    }
}

} // verus!
