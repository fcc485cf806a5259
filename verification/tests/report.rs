use bringup::report::whole_degrees;

#[test]
fn temperature_is_reported_in_whole_degrees() {
    assert_eq!(whole_degrees(0), 0);
    assert_eq!(whole_degrees(999), 0);
    assert_eq!(whole_degrees(1000), 1);
    assert_eq!(whole_degrees(47_774), 47);
    assert_eq!(whole_degrees(u32::MAX), 4_294_967);
}
