use rusticle::adaptive_ir::BoundingBox;
use rusticle::candidate_gen::CandidateRepresentation;
use rusticle::lut_policy::{candidate_to_family, CandidateFamily};




#[test]
fn test_candidate_family_opaque_bbox_lut_preserving() {
    let family = CandidateFamily::OpaqueBbox;
    assert!(family.is_lut_preserving());
    assert!(!family.is_lut_breaking());
}

#[test]
fn test_candidate_family_transparent_sparse_lut_breaking() {
    let family = CandidateFamily::TransparentSparse;
    assert!(!family.is_lut_preserving());
    assert!(family.is_lut_breaking());
}

#[test]
fn test_candidate_family_full_frame_lut_breaking() {
    let family = CandidateFamily::FullFrame;
    assert!(!family.is_lut_preserving());
    assert!(family.is_lut_breaking());
}

#[test]
fn test_candidate_family_minimal_noop_lut_preserving() {
    let family = CandidateFamily::MinimalNoOp;
    assert!(family.is_lut_preserving());
    assert!(!family.is_lut_breaking());
}

#[test]
fn test_candidate_to_family_full_frame() {
    let candidate = CandidateRepresentation::FullFrame;
    let family = candidate_to_family(&candidate);
    assert_eq!(family, CandidateFamily::FullFrame);
}

#[test]
fn test_candidate_to_family_opaque_bbox() {
    let candidate = CandidateRepresentation::ExactOpaqueBbox {
        bbox: BoundingBox::new(0, 0, 100, 100),
    };
    let family = candidate_to_family(&candidate);
    assert_eq!(family, CandidateFamily::OpaqueBbox);
}

#[test]
fn test_candidate_to_family_transparent_sparse() {
    let candidate = CandidateRepresentation::TransparentSparsePatch {
        bbox: BoundingBox::new(0, 0, 50, 50),
        is_risky: true,
    };
    let family = candidate_to_family(&candidate);
    assert_eq!(family, CandidateFamily::TransparentSparse);
}

#[test]
fn test_candidate_to_family_minimal_noop() {
    let candidate = CandidateRepresentation::MinimalNoOp;
    let family = candidate_to_family(&candidate);
    assert_eq!(family, CandidateFamily::MinimalNoOp);
}
