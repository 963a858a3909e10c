use account_manager::skin::{
    active_skin, check_skin_image, variant_is_known, SkinError, MAX_SKIN_BYTES,
};

#[test]
fn only_classic_and_slim_are_variants() {
    assert!(variant_is_known("classic"));
    assert!(variant_is_known("slim"));
    for other in ["", "Classic", "SLIM", "slim ", "default", "classicslim"] {
        assert!(!variant_is_known(other), "{:?}", other);
    }
}

#[test]
fn skin_may_have_one_mebibyte_and_no_more() {
    assert_eq!(MAX_SKIN_BYTES, 1024 * 1024);
    assert_eq!(check_skin_image(0, None, None), Ok(()));
    assert_eq!(check_skin_image(MAX_SKIN_BYTES, None, None), Ok(()));
    assert_eq!(check_skin_image(MAX_SKIN_BYTES + 1, None, None), Err(SkinError::TooLarge));
    assert_eq!(check_skin_image(usize::MAX, Some(true), Some((64, 64))), Err(SkinError::TooLarge));
}

#[test]
fn skin_must_be_a_png() {
    assert_eq!(check_skin_image(100, Some(true), None), Ok(()));
    assert_eq!(check_skin_image(100, Some(false), None), Err(SkinError::NotPng));
    assert_eq!(check_skin_image(100, Some(false), Some((64, 64))), Err(SkinError::NotPng));
}

#[test]
fn skin_must_be_64_by_64_or_64_by_32() {
    assert_eq!(check_skin_image(100, Some(true), Some((64, 64))), Ok(()));
    assert_eq!(check_skin_image(100, Some(true), Some((64, 32))), Ok(()));
    for (width, height) in [(32, 64), (64, 0), (64, 33), (63, 64), (128, 128), (0, 0), (32, 32)] {
        assert_eq!(
            check_skin_image(100, Some(true), Some((width, height))),
            Err(SkinError::WrongDimensions { width, height })
        );
    }
}

#[test]
fn skin_is_judged_by_size_then_format_then_dimensions() {
    let big = MAX_SKIN_BYTES + 1;
    assert_eq!(check_skin_image(big, Some(false), Some((1, 1))), Err(SkinError::TooLarge));
    assert_eq!(check_skin_image(1, Some(false), Some((1, 1))), Err(SkinError::NotPng));
    assert_eq!(
        check_skin_image(1, None, Some((1, 1))),
        Err(SkinError::WrongDimensions { width: 1, height: 1 })
    );
}

#[test]
fn worn_skin_is_the_first_that_is_active() {
    let states = |names: &[&str]| names.iter().map(|s| s.to_string()).collect::<Vec<String>>();
    assert_eq!(active_skin(&states(&[])), None);
    assert_eq!(active_skin(&states(&["INACTIVE", "active", "ACTIVE "])), None);
    assert_eq!(active_skin(&states(&["ACTIVE"])), Some(0));
    assert_eq!(active_skin(&states(&["INACTIVE", "ACTIVE", "ACTIVE"])), Some(1));
    assert_eq!(active_skin(&states(&["", "INACTIVE", "ACTIVE"])), Some(2));
}
