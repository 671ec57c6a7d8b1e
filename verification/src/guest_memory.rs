//! The memory decisions of the guest's Wasm runtime: which page faults it
//! serves, which protections it accepts, and how the pages of a range are
//! shared copy-on-write into a memory image.
use vstd::prelude::*;

verus! {

/// The size of each virtual region handed out, and where the first one
/// starts: faults at or above it are served by mapping a fresh page.
pub const REGION_SIZE: u64 = 0x100_0000_0000;

/// A page mapped as is.
#[derive(PartialEq, Eq, Structural, Debug, Clone, Copy)]
pub struct BasicMapping {
    pub readable: bool,
    pub writable: bool,
    pub executable: bool,
}

/// A page mapped copy-on-write.
#[derive(PartialEq, Eq, Structural, Debug, Clone, Copy)]
pub struct CowMapping {
    pub readable: bool,
    pub executable: bool,
}

/// How a virtual page is mapped.
#[derive(PartialEq, Eq, Structural, Debug, Clone, Copy)]
pub enum MappingKind {
    Unmapped,
    Basic(BasicMapping),
    Cow(CowMapping),
}

/// What sharing a page does: the kind both copies get, and whether the
/// original has to be downgraded to it; an unmapped page is skipped.
#[derive(PartialEq, Eq, Structural, Debug, Clone, Copy)]
pub struct PageStep {
    pub new_kind: MappingKind,
    pub downgrade_original: bool,
}

/// The kind a shared page gets and whether it was writable: a writable
/// page becomes copy-on-write, a read-only one stays read-only, and a
/// copy-on-write one stays as it is.
pub open spec fn shared_kind(k: MappingKind) -> Option<(MappingKind, bool)> {
    match k {
        MappingKind::Unmapped => None,
        MappingKind::Basic(bm) => if bm.writable {
            Some(
                (
                    MappingKind::Cow(CowMapping { readable: bm.readable, executable: bm.executable }),
                    true,
                ),
            )
        } else {
            Some(
                (
                    MappingKind::Basic(
                        BasicMapping {
                            readable: bm.readable,
                            writable: false,
                            executable: bm.executable,
                        },
                    ),
                    false,
                ),
            )
        },
        MappingKind::Cow(cm) => Some((MappingKind::Cow(cm), false)),
    }
}

/// The step for one page: the original is downgraded only when asked to
/// remap it and it was writable.
pub open spec fn page_step(k: MappingKind, remap_original: bool) -> Option<PageStep> {
    match shared_kind(k) {
        None => None,
        Some((new_kind, was_writable)) => Some(
            PageStep { new_kind, downgrade_original: remap_original && was_writable },
        ),
    }
}

/// A final barrier is owed when the last page mapped was not downgraded,
/// since only a downgrade's TLB flush already serialises.
pub open spec fn needs_barrier(ks: Seq<MappingKind>, remap_original: bool) -> bool
    decreases ks.len(),
{
    if ks.len() == 0 {
        false
    } else {
        match page_step(ks.last(), remap_original) {
            None => needs_barrier(ks.drop_last(), remap_original),
            Some(step) => !step.downgrade_original,
        }
    }
}

/// The step for one page of a range being shared.
pub fn plan_page(kind: MappingKind, remap_original: bool) -> (r: Option<PageStep>)
    ensures
        r == page_step(kind, remap_original),
{
    let (new_kind, was_writable) = match kind {
        MappingKind::Unmapped => return None,
        MappingKind::Basic(bm) => if bm.writable {
            (
                MappingKind::Cow(CowMapping { readable: bm.readable, executable: bm.executable }),
                true,
            )
        } else {
            (
                MappingKind::Basic(
                    BasicMapping { readable: bm.readable, writable: false, executable: bm.executable },
                ),
                false,
            )
        },
        MappingKind::Cow(cm) => (MappingKind::Cow(cm), false),
    };
    Some(PageStep { new_kind, downgrade_original: remap_original && was_writable })
}

/// The steps for the pages of a range, in order, and whether a final
/// barrier is owed.
pub fn plan_copy(kinds: &Vec<MappingKind>, remap_original: bool) -> (r: (Vec<Option<PageStep>>, bool))
    ensures
        r.0@.len() == kinds@.len(),
        forall|i: int| 0 <= i < kinds@.len() ==> #[trigger] r.0@[i] == page_step(kinds@[i], remap_original),
        r.1 == needs_barrier(kinds@, remap_original),
{
    let mut steps: Vec<Option<PageStep>> = Vec::new();
    let mut barrier = false;
    let mut i: usize = 0;
    while i < kinds.len()
        invariant
            i <= kinds@.len(),
            steps@.len() == i,
            forall|j: int| 0 <= j < i ==> #[trigger] steps@[j] == page_step(kinds@[j], remap_original),
            barrier == needs_barrier(kinds@.take(i as int), remap_original),
        decreases kinds.len() - i,
    {
        let step = plan_page(kinds[i], remap_original);
        proof {
            assert(kinds@.take(i + 1).drop_last() =~= kinds@.take(i as int));
            assert(kinds@.take(i + 1).last() == kinds@[i as int]);
        }
        match step {
            Some(s) => {
                barrier = !s.downgrade_original;
            },
            None => {},
        }
        steps.push(step);
        i = i + 1;
    }
    assert(kinds@.take(kinds@.len() as int) =~= kinds@);
    (steps, barrier)
}

/// The page a fault is served with, if it is served: a fault on a page
/// that is not present, in the regions handed out, gets a fresh page at
/// the fault's page base.
pub fn page_fault_page(error_code: u64, fault_address: u64) -> (r: Option<u64>)
    ensures
        r == (if error_code & 1 == 0 && fault_address >= REGION_SIZE {
            Some(fault_address & !0xFFFu64)
        } else {
            None::<u64>
        }),
{
    if error_code & 1 == 0 && fault_address >= REGION_SIZE {
        Some(fault_address & !0xFFFu64)
    } else {
        None
    }
}

/// The result of a protection change: read-only, read-write and
/// read-execute succeed (all memory is already readable, writable and
/// executable); any other protection fails.
pub fn mprotect_result(prot_flags: u32) -> (r: i32)
    ensures
        r == (if prot_flags == 1 || prot_flags == 3 || prot_flags == 5 {
            0i32
        } else {
            -1i32
        }),
{
    if prot_flags == 1 || prot_flags == 3 || prot_flags == 5 {
        return 0;
    }
    -1
}

/// A mapping or remapping of `size` bytes fits in one region.
pub fn mapping_fits(size: usize) -> (b: bool)
    ensures
        b == (size <= REGION_SIZE),
{
    size as u64 <= REGION_SIZE
}

/// Sharing a page never gives it more than it had and never takes away
/// more than writing: a mapped page stays mapped with the same read and
/// execute permissions, the copy is never directly writable, a writable
/// page becomes copy-on-write, and the original is downgraded exactly when
/// asked to remap it and it was writable.
pub proof fn lemma_sharing_keeps_permissions(k: MappingKind, remap_original: bool)
    ensures
        k is Unmapped <==> page_step(k, remap_original) is None,
        k matches MappingKind::Basic(bm) ==> page_step(k, remap_original) matches Some(step) && (
        match step.new_kind {
            MappingKind::Basic(nb) => !bm.writable && !nb.writable && nb.readable == bm.readable
                && nb.executable == bm.executable,
            MappingKind::Cow(nc) => bm.writable && nc.readable == bm.readable && nc.executable
                == bm.executable,
            MappingKind::Unmapped => false,
        }) && step.downgrade_original == (remap_original && bm.writable),
        k matches MappingKind::Cow(cm) ==> page_step(k, remap_original) == Some(
            PageStep { new_kind: MappingKind::Cow(cm), downgrade_original: false },
        ),
{
}

} // verus!
