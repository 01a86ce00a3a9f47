use txkv::uuid::make_random_numbers;
use txkv::uuid::uuid;
use txkv::uuid::uuid_from_numbers;

#[test]
fn test_uuid() {
    let uuid = uuid_from_numbers(&[0u8; 36]);
    assert_eq!(uuid, "00000000-0000-4000-8000-000000000000");
    let re = regex::Regex::new(r"^[0-9:A-z]{8}-[0-9:A-z]{4}-4[0-9:A-z]{3}-[0-9:A-z]{4}-[0-9:A-z]{12}$")
        .unwrap();

    assert!(re.is_match(&uuid));
}

#[test]
fn uuid_formats_each_position() {
    let mut numbers = [0u8; 36];
    for (i, n) in numbers.iter_mut().enumerate() {
        *n = i as u8;
    }
    let text = uuid_from_numbers(&numbers);
    // The low nibble of each position's byte, hyphens at the group breaks,
    // the version digit, and at the variant position eight plus the low two
    // bits of byte nineteen.
    assert_eq!(text, "01234567-9abc-4f01-b456-89abcdef0123");
}

#[test]
fn generated_uuid_is_well_formed() {
    let id = uuid().unwrap();
    assert_eq!(36, id.len());
    let re = regex::Regex::new(
        r"^[0-9a-f]{8}-[0-9a-f]{4}-4[0-9a-f]{3}-[89ab][0-9a-f]{3}-[0-9a-f]{12}$",
    )
    .unwrap();
    assert!(re.is_match(&id));
}

#[test]
fn make_random_numbers_keeps_length() {
    let mut numbers = vec![0u8; 36];
    make_random_numbers(&mut numbers).unwrap();
    assert_eq!(36, numbers.len());
}
