use hyperlight_sandbox::guest_memory::{
    mapping_fits, mprotect_result, page_fault_page, plan_copy, plan_page, BasicMapping,
    CowMapping, MappingKind, PageStep, REGION_SIZE,
};

fn basic(writable: bool) -> MappingKind {
    MappingKind::Basic(BasicMapping { readable: true, writable, executable: false })
}

#[test]
fn writable_pages_become_copy_on_write() {
    let cow = MappingKind::Cow(CowMapping { readable: true, executable: false });
    assert_eq!(
        plan_page(basic(true), true),
        Some(PageStep { new_kind: cow, downgrade_original: true })
    );
    assert_eq!(
        plan_page(basic(true), false),
        Some(PageStep { new_kind: cow, downgrade_original: false })
    );
    assert_eq!(
        plan_page(basic(false), true),
        Some(PageStep { new_kind: basic(false), downgrade_original: false })
    );
    assert_eq!(plan_page(cow, true), Some(PageStep { new_kind: cow, downgrade_original: false }));
    assert_eq!(plan_page(MappingKind::Unmapped, true), None);
}

#[test]
fn barrier_follows_the_last_mapped_page() {
    let (steps, barrier) = plan_copy(&vec![basic(false), basic(true), MappingKind::Unmapped], true);
    assert_eq!(steps.len(), 3);
    assert!(steps[2].is_none());
    assert!(!barrier);
    let (_, barrier) = plan_copy(&vec![basic(true), basic(false)], true);
    assert!(barrier);
    let (_, barrier) = plan_copy(&vec![basic(true)], false);
    assert!(barrier);
    let (steps, barrier) = plan_copy(&Vec::new(), true);
    assert!(steps.is_empty() && !barrier);
}

#[test]
fn page_faults_in_the_regions_get_a_page() {
    assert_eq!(page_fault_page(0, REGION_SIZE + 0x1234), Some(REGION_SIZE + 0x1000));
    assert_eq!(page_fault_page(1, REGION_SIZE + 0x1234), None);
    assert_eq!(page_fault_page(2, REGION_SIZE - 1), None);
    assert_eq!(REGION_SIZE, 0x100_0000_0000);
}

#[test]
fn protections_and_sizes() {
    assert_eq!(mprotect_result(1), 0);
    assert_eq!(mprotect_result(3), 0);
    assert_eq!(mprotect_result(5), 0);
    assert_eq!(mprotect_result(7), -1);
    assert_eq!(mprotect_result(0), -1);
    assert!(mapping_fits(0x100_0000_0000));
    assert!(!mapping_fits(0x100_0000_0001));
}
