use diesel_rds::error::{DecodeError, RdsError};
use diesel_rds::types::{
    bool_from_sql, bool_to_field, bytes_from_sql, bytes_to_blob_field, f64_bits_from_sql,
    f64_bits_to_field, i16_from_sql, i32_from_sql, i64_from_sql, i64_to_field, string_from_sql,
    string_to_field, widen_float_bits, Field, RdsTypes,
};

#[test]
fn round_trip_every_scalar() {
    for b in [true, false] {
        assert_eq!(bool_from_sql(Some(&bool_to_field(b))), Ok(b));
    }
    for x in [i16::MIN, -1, 0, 7, i16::MAX] {
        assert_eq!(i16_from_sql(Some(&i64_to_field(x as i64))), Ok(x));
    }
    for x in [i32::MIN, -5, 0, 123456, i32::MAX] {
        assert_eq!(i32_from_sql(Some(&i64_to_field(x as i64))), Ok(x));
    }
    for x in [i64::MIN, -9, 0, 1 << 40, i64::MAX] {
        assert_eq!(i64_from_sql(Some(&i64_to_field(x))), Ok(x));
    }
    for d in [0.0f64, -1.5, 3.25e10, f64::MAX] {
        let back = f64_bits_from_sql(Some(&f64_bits_to_field(d.to_bits()))).unwrap();
        assert_eq!(f64::from_bits(back), d);
    }
    for f in [0.5f32, -2.75, 1.0e-3] {
        let back = f64_bits_from_sql(Some(&f64_bits_to_field((f as f64).to_bits()))).unwrap();
        assert_eq!(f64::from_bits(back) as f32, f);
    }
    let s = String::from("héllo \"world\"");
    assert_eq!(string_from_sql(Some(&string_to_field(s.clone()))), Ok(s));
    let bytes = vec![0u8, 255, 7, 128];
    assert_eq!(bytes_from_sql(Some(&bytes_to_blob_field(bytes.clone()))), Ok(bytes));
}

#[test]
fn absent_scalars_read_as_defaults() {
    assert_eq!(bool_from_sql(Some(&Field::Null)), Ok(false));
    assert_eq!(i64_from_sql(Some(&Field::Text(String::from("3")))), Ok(0));
    assert_eq!(i16_from_sql(Some(&Field::Boolean(true))), Ok(0));
    assert_eq!(f64_bits_from_sql(Some(&Field::Long(4))), Ok(0));
}

#[test]
fn narrowing_keeps_low_bits() {
    assert_eq!(i16_from_sql(Some(&Field::Long(65537))), Ok(1));
    assert_eq!(i32_from_sql(Some(&Field::Long((1i64 << 32) + 5))), Ok(5));
    assert_eq!(i16_from_sql(Some(&Field::Long(-1))), Ok(-1));
}

#[test]
fn text_and_blob_do_not_coerce() {
    assert_eq!(string_from_sql(Some(&Field::Long(5))), Err(DecodeError::UnexpectedVariant));
    assert_eq!(string_from_sql(Some(&Field::Null)), Err(DecodeError::UnexpectedVariant));
    assert_eq!(bytes_from_sql(Some(&Field::Text(String::from("ab")))), Err(DecodeError::UnexpectedVariant));
    assert_eq!(string_from_sql(None), Err(DecodeError::NoValue));
    assert_eq!(bool_from_sql(None), Err(DecodeError::NoValue));
}

#[test]
fn read_bytes_decodes_big_endian_integers() {
    match RdsTypes::Long.read_bytes(vec![0x01, 0x02]) {
        Ok(Field::Long(v)) => assert_eq!(v, 258),
        other => panic!("unexpected {:?}", other),
    }
    match RdsTypes::Long.read_bytes(vec![0xff, 0xff, 0xff, 0xfe]) {
        Ok(Field::Long(v)) => assert_eq!(v, -2),
        other => panic!("unexpected {:?}", other),
    }
    match RdsTypes::Long.read_bytes((-5i64).to_be_bytes().to_vec()) {
        Ok(Field::Long(v)) => assert_eq!(v, -5),
        other => panic!("unexpected {:?}", other),
    }
    match RdsTypes::Long.read_bytes(vec![]) {
        Ok(Field::Long(v)) => assert_eq!(v, 0),
        other => panic!("unexpected {:?}", other),
    }
}

#[test]
fn read_bytes_decodes_other_types() {
    match RdsTypes::Double.read_bytes(2.5f64.to_be_bytes().to_vec()) {
        Ok(Field::Double(bits)) => assert_eq!(f64::from_bits(bits), 2.5),
        other => panic!("unexpected {:?}", other),
    }
    match RdsTypes::Boolean.read_bytes(vec![1]) {
        Ok(Field::Boolean(b)) => assert!(b),
        other => panic!("unexpected {:?}", other),
    }
    match RdsTypes::String.read_bytes("größe".as_bytes().to_vec()) {
        Ok(Field::Text(s)) => assert_eq!(s, "größe"),
        other => panic!("unexpected {:?}", other),
    }
    match RdsTypes::Date.read_bytes("2020-02-29".as_bytes().to_vec()) {
        Ok(Field::Text(s)) => assert_eq!(s, "2020-02-29"),
        other => panic!("unexpected {:?}", other),
    }
    match RdsTypes::Blob.read_bytes(vec![9, 8]) {
        Ok(Field::Blob(b)) => assert_eq!(b, vec![9, 8]),
        other => panic!("unexpected {:?}", other),
    }
    assert!(matches!(RdsTypes::Null.read_bytes(vec![1, 2]), Ok(Field::Null)));
}

#[test]
fn read_bytes_rejects_malformed_encodings() {
    assert_eq!(RdsTypes::Long.read_bytes(vec![1, 2, 3]).unwrap_err(), RdsError::MalformedBind);
    assert_eq!(RdsTypes::Double.read_bytes(vec![1, 2, 3]).unwrap_err(), RdsError::MalformedBind);
    assert_eq!(RdsTypes::Double.read_bytes(vec![1, 2, 3, 4, 5]).unwrap_err(), RdsError::MalformedBind);
    assert_eq!(RdsTypes::Boolean.read_bytes(vec![1, 0]).unwrap_err(), RdsError::MalformedBind);
    assert_eq!(RdsTypes::String.read_bytes(vec![0xff, 0xfe]).unwrap_err(), RdsError::MalformedBind);
}

#[test]
fn single_precision_bind_becomes_the_same_double() {
    let values = [
        0.0f32,
        -0.0,
        1.0,
        -2.5,
        0.1,
        f32::MAX,
        f32::MIN_POSITIVE,
        f32::from_bits(1),
        f32::from_bits(0x0040_0001),
        -f32::from_bits(0x007f_ffff),
        f32::INFINITY,
        f32::NEG_INFINITY,
    ];
    for v in values {
        let cell = RdsTypes::Double.read_bytes(v.to_be_bytes().to_vec()).unwrap();
        let bits = match cell {
            Field::Double(bits) => bits,
            other => panic!("unexpected {:?}", other),
        };
        assert_eq!(bits, (v as f64).to_bits());
        let back = f64_bits_from_sql(Some(&Field::Double(bits))).unwrap();
        assert_eq!((f64::from_bits(back) as f32).to_bits(), v.to_bits());
    }
}

#[test]
fn widening_covers_every_exponent_class() {
    for bits in [0u32, 0x8000_0000, 1, 0x8000_0001, 0x0012_3456, 0x3f80_0000, 0x7f7f_ffff, 0x7f80_0000, 0xff80_0000] {
        assert_eq!(widen_float_bits(bits), (f32::from_bits(bits) as f64).to_bits());
    }
    let nan = widen_float_bits(0x7fc0_0000);
    assert!(f64::from_bits(nan).is_nan());
}
