use versioned_structs::{ErrorKind, VersionRange};

#[test]
fn closed_range_covers_its_bounds_and_what_lies_between() {
    let range = VersionRange::new(1, Some(3));
    assert_eq!(range.contains(0), Ok(false));
    assert_eq!(range.contains(1), Ok(true));
    assert_eq!(range.contains(2), Ok(true));
    assert_eq!(range.contains(3), Ok(true));
    assert_eq!(range.contains(4), Ok(false));
}

#[test]
fn single_version_range_covers_one_version() {
    let range = VersionRange::new(2, Some(2));
    assert_eq!(range.contains(1), Ok(false));
    assert_eq!(range.contains(2), Ok(true));
    assert_eq!(range.contains(3), Ok(false));
}

#[test]
fn open_range_covers_everything_from_its_start() {
    let range = VersionRange::new(3, None);
    assert_eq!(range.contains(1), Ok(false));
    assert_eq!(range.contains(2), Ok(false));
    assert_eq!(range.contains(3), Ok(true));
    assert_eq!(range.contains(usize::MAX), Ok(true));
}

#[test]
fn range_that_ends_before_it_starts_is_built_but_rejects_every_test() {
    let range = VersionRange::new(3, Some(1));
    assert_eq!(range.from, 3);
    assert_eq!(range.to, Some(1));
    assert_eq!(range.contains(0), Err(ErrorKind::InvalidRange));
    assert_eq!(range.contains(1), Err(ErrorKind::InvalidRange));
    assert_eq!(range.contains(2), Err(ErrorKind::InvalidRange));
    assert_eq!(range.contains(3), Err(ErrorKind::InvalidRange));
    assert_eq!(range.contains(4), Err(ErrorKind::InvalidRange));
}

#[test]
fn range_may_start_at_zero() {
    let range = VersionRange::new(0, Some(0));
    assert_eq!(range.contains(0), Ok(true));
    assert_eq!(range.contains(1), Ok(false));
    let open = VersionRange::new(0, None);
    assert_eq!(open.contains(1), Ok(true));
}

#[test]
fn highest_is_the_larger_bound() {
    assert_eq!(VersionRange::new(1, Some(3)).highest(), 3);
    assert_eq!(VersionRange::new(3, Some(1)).highest(), 3);
    assert_eq!(VersionRange::new(2, Some(2)).highest(), 2);
    assert_eq!(VersionRange::new(7, None).highest(), 7);
    assert_eq!(VersionRange::new(0, None).highest(), 0);
}

#[test]
fn range_from_two_numbers() {
    assert_eq!(
        VersionRange::from_parsed(Some(1), Some(Some(3))),
        Ok(VersionRange { from: 1, to: Some(3) })
    );
}

#[test]
fn range_from_one_number_is_open() {
    assert_eq!(VersionRange::from_parsed(Some(4), None), Ok(VersionRange { from: 4, to: None }));
}

#[test]
fn range_is_not_validated_when_built_from_numbers() {
    assert_eq!(
        VersionRange::from_parsed(Some(3), Some(Some(1))),
        Ok(VersionRange { from: 3, to: Some(1) })
    );
}

#[test]
fn unreadable_lower_bound_is_malformed() {
    assert_eq!(VersionRange::from_parsed(None, None), Err(ErrorKind::MalformedAnnotation));
    assert_eq!(VersionRange::from_parsed(None, Some(Some(3))), Err(ErrorKind::MalformedAnnotation));
    assert_eq!(VersionRange::from_parsed(None, Some(None)), Err(ErrorKind::MalformedAnnotation));
}

#[test]
fn unreadable_upper_bound_is_malformed() {
    assert_eq!(VersionRange::from_parsed(Some(1), Some(None)), Err(ErrorKind::MalformedAnnotation));
}

#[test]
fn every_error_kind_has_its_own_message() {
    let malformed = ErrorKind::MalformedAnnotation.message();
    let duplicate = ErrorKind::DuplicateAnnotation.message();
    let invalid = ErrorKind::InvalidRange.message();
    assert_eq!(malformed, "a version bound is not a version number");
    assert_eq!(duplicate, "`versioned_field` attribute encountered multiple times for one field");
    assert_eq!(invalid, "`from` value must not be greater than `to`");
}
