use atc::msfs_integration::GenRequestID;

#[test]
fn test_gen_request_id() {
    let mut gen = GenRequestID::new();
    assert_eq!(0, gen.unique());
    assert_eq!(1, gen.unique());
}

#[test]
fn request_ids_wrap_after_the_largest() {
    let mut gen = GenRequestID { counter: u32::MAX };
    assert_eq!(u32::MAX, gen.unique());
    assert_eq!(0, gen.unique());
}
