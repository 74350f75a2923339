use skip::offset::get_offset;
use skip::offset::offset_representable;
use skip::request::TransferRequest;

#[test]
fn no_options_resolve_to_zero() {
    assert_eq!(get_offset(None, None), 0);
}

#[test]
fn explicit_offset_is_taken_as_it_is() {
    assert_eq!(get_offset(Some(8716234), None), 8716234);
    assert_eq!(get_offset(Some(0), None), 0);
    assert_eq!(get_offset(Some(u64::MAX), None), u64::MAX);
}

#[test]
fn explicit_offset_wins_over_sector() {
    assert_eq!(get_offset(Some(8716234), Some(123)), 8716234);
    assert_eq!(get_offset(Some(0), Some(5)), 0);
    assert_eq!(get_offset(Some(7), Some(u64::MAX)), 7);
}

#[test]
fn sector_number_counts_payload_bytes_only() {
    assert_eq!(get_offset(None, Some(0)), 0);
    assert_eq!(get_offset(None, Some(1)), 512);
    assert_eq!(get_offset(None, Some(123)), 62976);
}

#[test]
fn largest_sector_that_fits() {
    let last = u64::MAX / 512;
    assert_eq!(last, 36028797018963967);
    assert!(offset_representable(None, Some(last)));
    assert_eq!(get_offset(None, Some(last)), 18446744073709551104);
    assert!(!offset_representable(None, Some(last + 1)));
    assert!(!offset_representable(None, Some(u64::MAX)));
}

#[test]
fn explicit_offset_is_always_representable() {
    assert!(offset_representable(None, None));
    assert!(offset_representable(Some(u64::MAX), None));
    assert!(offset_representable(Some(u64::MAX), Some(u64::MAX)));
}

#[test]
fn request_keeps_what_it_is_given() {
    let request = TransferRequest::new(String::from("file.in"), String::from("dumped.bin"), 3, 9);
    assert_eq!(request.name_in, "file.in");
    assert_eq!(request.name_out, "dumped.bin");
    assert_eq!(request.read_offset, 3);
    assert_eq!(request.write_offset, 9);
}

#[test]
fn request_resolves_each_side_on_its_own() {
    let request = TransferRequest::from_options(
        String::from("file.in"),
        String::from("dumped.bin"),
        None,
        Some(123),
        Some(8716234),
        None,
    )
    .unwrap();
    assert_eq!(request.name_in, "file.in");
    assert_eq!(request.name_out, "dumped.bin");
    assert_eq!(request.read_offset, 62976);
    assert_eq!(request.write_offset, 8716234);

    let swapped = TransferRequest::from_options(
        String::from("a"),
        String::from("b"),
        Some(8716234),
        None,
        None,
        Some(123),
    )
    .unwrap();
    assert_eq!(swapped.read_offset, 8716234);
    assert_eq!(swapped.write_offset, 62976);
}

#[test]
fn request_without_options_starts_both_sides_at_zero() {
    let request =
        TransferRequest::from_options(String::from("a"), String::from("b"), None, None, None, None)
            .unwrap();
    assert_eq!(request.read_offset, 0);
    assert_eq!(request.write_offset, 0);
}

#[test]
fn request_with_offset_and_sector_on_both_sides() {
    let request = TransferRequest::from_options(
        String::from("a"),
        String::from("b"),
        Some(10),
        Some(1),
        Some(20),
        Some(2),
    )
    .unwrap();
    assert_eq!(request.read_offset, 10);
    assert_eq!(request.write_offset, 20);
}

#[test]
fn request_needs_both_positions_to_fit() {
    let too_far = u64::MAX / 512 + 1;
    assert!(TransferRequest::from_options(
        String::from("a"),
        String::from("b"),
        None,
        Some(too_far),
        None,
        None
    )
    .is_none());
    assert!(TransferRequest::from_options(
        String::from("a"),
        String::from("b"),
        None,
        None,
        None,
        Some(too_far)
    )
    .is_none());
    assert!(TransferRequest::from_options(
        String::from("a"),
        String::from("b"),
        Some(1),
        Some(too_far),
        Some(2),
        Some(too_far)
    )
    .is_some());
}
