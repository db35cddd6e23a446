use supplier_api::data_structs::{DBTableStruct, DbFieldStruct, Value};
use supplier_api::document::Json;
use supplier_api::ieee::float_bits_of;
use supplier_api::post_processing::extract_json_to_table;

fn bits_of_i64(i: i64) -> u64 {
    let m = if i >= 0 { i as u64 } else { i.unsigned_abs() };
    float_bits_of(i < 0, m)
}

#[test]
fn whole_numbers_convert_as_rust_does() {
    let samples: [i64; 14] = [
        0,
        1,
        -1,
        3,
        1 << 52,
        (1 << 53) + 1,
        (1 << 53) + 3,
        (1 << 54) + 2,
        (1 << 54) + 6,
        123_456_789_012_345_678,
        -987_654_321_987_654_321,
        i64::MAX,
        i64::MIN,
        i64::MIN + 1,
    ];
    for i in samples {
        assert_eq!(bits_of_i64(i), (i as f64).to_bits(), "{}", i);
    }
    for u in [u64::MAX, u64::MAX - 1024, 1u64 << 63, (1u64 << 63) + 1024, 9_007_199_254_740_993] {
        assert_eq!(float_bits_of(false, u), (u as f64).to_bits(), "{}", u);
    }
}

#[test]
fn float_column_accepts_a_whole_number() {
    let mut layout = DBTableStruct::new();
    layout.fields.push(DbFieldStruct::new(0, "price", Value::Float(0), true));
    let mut body = Json::new_object();
    body.set("price", Json::Integer(5));
    let values = extract_json_to_table(&body, layout).unwrap();
    assert!(matches!(values[0].1, Value::Float(b) if b == 5f64.to_bits()));
}
