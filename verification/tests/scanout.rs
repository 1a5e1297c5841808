//! Which buffers can be flipped straight to a display.
use suede::projection::scanout::{
    fourcc_name, scanout_modifiers, scanout_verdict, PresentModifiers, ScanoutVerdict,
    FOURCC_XB24, FOURCC_XR24,
};

#[test]
fn the_scanout_subset_is_what_the_device_and_the_scanout_tranche_share() {
    assert_eq!(scanout_modifiers(&[1, 2, 3], &[3, 1]), vec![1, 3]);
}

#[test]
fn the_scanout_subset_keeps_the_advertised_order_not_the_tranche_s() {
    assert_eq!(
        scanout_modifiers(
            &[0x0100_0000_0000_0001, 0, 7],
            &[7, 0, 0x0100_0000_0000_0001]
        ),
        vec![0x0100_0000_0000_0001, 0, 7]
    );
}

#[test]
fn nothing_in_common_means_an_empty_subset_and_the_caller_falls_back() {
    assert!(scanout_modifiers(&[1, 2], &[3, 4]).is_empty());
    assert!(scanout_modifiers(&[1, 2], &[]).is_empty());
}

fn modifiers(all: &[u64], scanout: &[u64]) -> PresentModifiers {
    PresentModifiers {
        all: all.to_vec(),
        scanout: scanout.to_vec(),
    }
}
fn verdict_reason(verdict: &ScanoutVerdict) -> String {
    match verdict {
        ScanoutVerdict::Yes { .. } => panic!("expected a reason, got a yes"),
        ScanoutVerdict::No(reason) | ScanoutVerdict::Unconfirmed(reason) => reason.clone(),
    }
}

#[test]
fn a_pixel_exact_buffer_on_a_flagged_modifier_is_a_candidate() {
    assert_eq!(
        scanout_verdict(
            (1920, 1080),
            Some((1920, 1080)),
            FOURCC_XR24,
            &modifiers(&[0, 7], &[7]),
            true,
            7,
        ),
        ScanoutVerdict::Yes {
            fourcc: FOURCC_XR24,
            modifier: 7
        }
    );
}

#[test]
fn an_unknown_output_mode_does_not_disqualify_a_buffer() {
    assert_eq!(
        scanout_verdict(
            (1920, 1080),
            None,
            FOURCC_XR24,
            &modifiers(&[7], &[7]),
            true,
            7,
        ),
        ScanoutVerdict::Yes {
            fourcc: FOURCC_XR24,
            modifier: 7
        }
    );
}

#[test]
fn a_scaled_output_is_disqualified_whatever_modifier_it_got() {
    let found = scanout_verdict(
        (1920, 1080),
        Some((3840, 2160)),
        FOURCC_XR24,
        &modifiers(&[7], &[7]),
        true,
        7,
    );
    assert!(
        matches!(found, ScanoutVerdict::No(_)),
        "a buffer that is not the output's pixel grid is a definite no, got {found:?}"
    );
    let reason = verdict_reason(&found);
    assert!(
        reason.contains("1920x1080") && reason.contains("3840x2160"),
        "the reason must name both sizes, got {reason:?}"
    );
    assert!(reason.contains("scale 1"), "got {reason:?}");
}

#[test]
fn a_compositor_that_flagged_no_scanout_tranche_is_unconfirmed_not_a_no() {
    let found = scanout_verdict(
        (1920, 1080),
        Some((1920, 1080)),
        FOURCC_XR24,
        &modifiers(&[0, 7], &[]),
        false,
        7,
    );
    assert!(
        matches!(found, ScanoutVerdict::Unconfirmed(_)),
        "an absent tranche is not evidence of a negative, got {found:?}"
    );
    let reason = verdict_reason(&found);
    assert!(
        reason.contains("no scanout tranche"),
        "the reason must still name what was missing, got {reason:?}"
    );
    assert!(
        reason.contains("zeroCopyPresented"),
        "the reason must point at the authoritative stat, got {reason:?}"
    );
}

#[test]
fn a_flagged_tranche_the_device_cannot_use_says_no_common_modifier() {
    assert_eq!(
        scanout_verdict(
            (1920, 1080),
            Some((1920, 1080)),
            FOURCC_XR24,
            &modifiers(&[0], &[]),
            true,
            0,
        ),
        ScanoutVerdict::No("no common modifier".to_string())
    );
}

#[test]
fn a_driver_that_picked_outside_the_scanout_subset_is_not_a_candidate() {
    let found = scanout_verdict(
        (1920, 1080),
        Some((1920, 1080)),
        FOURCC_XR24,
        &modifiers(&[0, 7], &[7]),
        true,
        0,
    );
    assert!(
        matches!(found, ScanoutVerdict::No(_)),
        "the compositor named a tranche and this modifier is not in it, got {found:?}"
    );
    assert!(verdict_reason(&found).contains("0x0"), "got {found:?}");
}

#[test]
fn a_fourcc_prints_as_the_four_characters_it_spells() {
    assert_eq!(fourcc_name(FOURCC_XR24), "XR24");
    assert_eq!(fourcc_name(FOURCC_XB24), "XB24");
    assert_eq!(fourcc_name(0), "????");
}
