use mimu::register::{name_to_index, FP, NAMES, RA, SP, T0, ZERO};

#[test]
fn names_match_indices() {
    // Guards against the alias constants drifting out of sync with NAMES.
    assert_eq!(NAMES[ZERO], "zero");
    assert_eq!(NAMES[T0], "t0");
    assert_eq!(NAMES[SP], "sp");
    assert_eq!(NAMES[FP], "fp");
    assert_eq!(NAMES[RA], "ra");
}

#[test]
fn s8_aliases_fp() {
    assert_eq!(name_to_index("s8"), Some(FP));
    assert_eq!(name_to_index("fp"), Some(FP));
}

#[test]
fn unknown_name_is_none() {
    assert_eq!(name_to_index("nope"), None);
}

#[test]
fn every_name_maps_to_its_index() {
    for (i, name) in NAMES.iter().enumerate() {
        assert_eq!(name_to_index(name), Some(i));
    }
    assert_eq!(name_to_index(""), None);
    assert_eq!(name_to_index("T0"), None);
    assert_eq!(name_to_index("t0 "), None);
}
