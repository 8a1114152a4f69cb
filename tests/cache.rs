use tile_server::cache::{cache_file_name, push_decimal};

#[test]
fn cache_name_spells_the_key() {
    let name = cache_file_name(&b"world.tif".to_vec(), 3, 10, 250);
    assert_eq!(name, b"world.tif_3_10_250.png".to_vec());
}

#[test]
fn decimal_digits_cover_zero_and_large_values() {
    let mut out = b"x".to_vec();
    push_decimal(&mut out, 0);
    push_decimal(&mut out, 4294967295);
    assert_eq!(out, b"x04294967295".to_vec());
}
