use aprz::row_reader::RowReader;
use aprz::row_writer::{RowError, RowWriter};

#[test]
fn fields_round_trip() {
    let mut w = RowWriter::new();
    w.write_u64(300).unwrap();
    w.write_str("héllo").unwrap();
    w.write_bool(true);
    w.write_optional_u64(None).unwrap();
    w.write_optional_u64(Some(5)).unwrap();
    w.write_str_as_u64("18446744073709551615").unwrap();
    w.write_optional_str("").unwrap();
    w.write_optional_str("x").unwrap();
    w.write_pg_array_as_str_vec("{a,b,}").unwrap();
    w.write_byte(9);
    w.row_done().unwrap();
    let bytes = w.output().clone();
    let mut r = RowReader::new(&bytes);
    assert_eq!(r.read_u64(), 300);
    assert_eq!(r.read_str(), "héllo");
    assert!(r.read_bool());
    assert_eq!(r.read_optional_u64(), None);
    assert_eq!(r.read_optional_u64(), Some(5));
    assert_eq!(r.read_u64(), u64::MAX);
    assert_eq!(r.read_optional_str(), None);
    assert_eq!(r.read_optional_str(), Some("x"));
    assert_eq!(r.read_str_vec(), vec!["a", "b", ""]);
    assert_eq!(r.read_byte(), 9);
    assert_eq!(r.position(), bytes.len());
}

#[test]
fn text_cells_are_checked() {
    let mut w = RowWriter::new();
    assert_eq!(w.write_str_as_u64("12a"), Err(RowError::InvalidInteger("12a".to_string())));
    assert_eq!(w.write_str_as_u64("18446744073709551616"), Err(RowError::InvalidInteger("18446744073709551616".to_string())));
    assert_eq!(w.write_str_as_byte("256"), Err(RowError::InvalidByte("256".to_string())));
    assert_eq!(w.write_str_as_datetime("yesterday"), Err(RowError::InvalidTimestamp("yesterday".to_string())));
    assert_eq!(w.write_str_as_date("2024-13-01"), Err(RowError::InvalidDate("2024-13-01".to_string())));
    assert_eq!(w.write_str_as_bool("maybe"), Err(RowError::InvalidBool("maybe".to_string())));
    assert_eq!(w.write_pg_array_as_str_vec("a,b"), Err(RowError::InvalidArray("a,b".to_string())));
    assert_eq!(w.write_str_as_url("a b"), Err(RowError::InvalidUrl("a b".to_string())));
    w.row_done().unwrap();
    assert!(w.output().is_empty());
}

#[test]
fn datetime_and_date_cells() {
    let mut w = RowWriter::new();
    w.write_str_as_datetime("1970-01-01 00:01:40+00").unwrap();
    w.write_str_as_date("1970-01-11").unwrap();
    w.write_str_as_byte("255").unwrap();
    w.write_optional_str_as_u64("").unwrap();
    w.write_optional_bool(Some(false));
    w.row_done().unwrap();
    let bytes = w.output().clone();
    let mut r = RowReader::new(&bytes);
    assert_eq!(r.read_datetime(), 100);
    assert_eq!(r.read_date(), 10);
    assert_eq!(r.read_byte(), 255);
    assert_eq!(r.read_optional_u64(), None);
    assert_eq!(r.read_byte(), 1);
    assert_eq!(r.position(), bytes.len());
}

#[test]
fn error_messages_name_the_text() {
    let mut w = RowWriter::new();
    assert_eq!(w.write_str_as_u64("-1").unwrap_err().message(), "unable to parse u64 from '-1'");
    assert_eq!(w.write_str_as_u64("1.5").unwrap_err().message(), "unable to parse u64 from '1.5'");
    assert_eq!(w.write_str_as_byte("256").unwrap_err().message(), "unable to parse u8 from '256'");
    assert_eq!(w.write_str_as_datetime("2024-01-15").unwrap_err().message(), "unable to parse timestamp '2024-01-15'");
    assert_eq!(w.write_str_as_date("2024-13-01").unwrap_err().message(), "unable to parse date '2024-13-01'");
    assert_eq!(w.write_str_as_date("15/01/2024").unwrap_err().message(), "unable to parse date '15/01/2024'");
    assert_eq!(
        w.write_str_as_bool("yes").unwrap_err().message(),
        "invalid boolean value: expected 't', 'true', 'f', 'false', or empty, got 'yes'"
    );
    assert_eq!(w.write_str_as_version("x").unwrap_err().message(), "unable to parse version 'x'");
    assert_eq!(RowError::InvalidUrl("::".to_string()).message(), "unable to parse URL from '::'");
    assert_eq!(
        RowError::InvalidArray("a,b".to_string()).message(),
        "invalid PostgreSQL array format: expected '{...}', got 'a,b'"
    );
    assert_eq!(RowError::InvalidFeatures("[]".to_string()).message(), "invalid feature map");
    assert_eq!(w.output().len(), 0);
}

#[test]
fn several_strings_read_back_in_order() {
    let items = ["serde", "", "tokio, async", "ünïcödé", "last"];
    let mut w = RowWriter::new();
    for s in items {
        w.write_str(s).unwrap();
    }
    w.row_done().unwrap();
    let bytes = w.output().clone();
    let mut r = RowReader::new(&bytes);
    for s in items {
        assert_eq!(r.read_str(), s);
    }
    assert_eq!(r.position(), bytes.len());
}

#[test]
fn versions_read_back() {
    let mut w = RowWriter::new();
    w.write_str_as_version("1.2.3-beta.1+build.5").unwrap();
    w.write_str_as_version("0.1.0").unwrap();
    w.row_done().unwrap();
    let bytes = w.output().clone();
    let mut r = RowReader::new(&bytes);
    let v = r.read_version();
    assert_eq!((v.major, v.minor, v.patch, v.pre.as_str(), v.build.as_str()), (1, 2, 3, "beta.1", "build.5"));
    let v = r.read_version();
    assert_eq!((v.major, v.minor, v.patch, v.pre.as_str(), v.build.as_str()), (0, 1, 0, "", ""));
    assert_eq!(r.position(), bytes.len());
}
