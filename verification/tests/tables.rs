use aprz::row_reader::RowReader;
use aprz::row_writer::{RowError, RowWriter};
use aprz::tables::{
    read_version_download_row, read_version_row, write_version_download_row, write_version_row, CsvVersionDownloadRow,
    CsvVersionRow, RustEdition,
};

fn csv_row<'a>(num: &'a str, edition: &'a str, features: &'a str, homepage: &'a str) -> CsvVersionRow<'a> {
    CsvVersionRow {
        id: "42",
        crate_id: "7",
        num,
        downloads: "1234",
        edition,
        created_at: "2024-01-15 10:30:00.123456+00",
        updated_at: "2024-02-01T00:00:00Z",
        description: "A crate",
        features,
        license: "MIT",
        rust_version: "1.70",
        yanked: "f",
        documentation: "docs.rs/x",
        homepage,
    }
}

#[test]
fn version_row_round_trip() {
    let mut writer = RowWriter::new();
    write_version_row(&csv_row("1.2.3-beta.1+build", "2021", "{\"std\":[]}", "not a url at all"), &mut writer).unwrap();
    writer.row_done().unwrap();
    assert_eq!(writer.row_count(), 1);
    let bytes = writer.output().clone();
    let mut reader = RowReader::new(&bytes);
    let row = read_version_row(&mut reader);
    assert_eq!(reader.position(), bytes.len());
    assert_eq!(row.id.0, 42);
    assert_eq!(row.crate_id.0, 7);
    assert_eq!((row.num.major, row.num.minor, row.num.patch), (1, 2, 3));
    assert_eq!(row.num.pre, "beta.1");
    assert_eq!(row.num.build, "build");
    assert_eq!(row.downloads, 1234);
    assert_eq!(row.edition(), Some(RustEdition::Edition2021));
    assert_eq!(row.created_at, 1_705_314_600);
    assert_eq!(row.updated_at, 1_706_745_600);
    assert_eq!(row.description, "A crate");
    assert_eq!(row.features, "{\"std\":[]}");
    assert_eq!(row.license, "MIT");
    assert_eq!(row.rust_version, "1.70");
    assert!(!row.yanked);
    assert_eq!(row.documentation, "https://docs.rs/x");
    assert_eq!(row.homepage, "");
}

#[test]
fn version_row_without_edition() {
    let mut writer = RowWriter::new();
    write_version_row(&csv_row("0.1.0", "", "{}", ""), &mut writer).unwrap();
    writer.row_done().unwrap();
    let bytes = writer.output().clone();
    let mut reader = RowReader::new(&bytes);
    let row = read_version_row(&mut reader);
    assert_eq!(row.edition(), None);
    assert_eq!(row.edition_year, None);
}

#[test]
fn invalid_features_are_rejected_before_writing() {
    let mut writer = RowWriter::new();
    let err = write_version_row(&csv_row("0.1.0", "", "not json", ""), &mut writer).unwrap_err();
    assert_eq!(err, RowError::InvalidFeatures("not json".to_string()));
    writer.row_done().unwrap();
    assert!(writer.output().is_empty());
}

#[test]
fn invalid_version_is_rejected() {
    let mut writer = RowWriter::new();
    let err = write_version_row(&csv_row("one.two", "", "{}", ""), &mut writer).unwrap_err();
    assert_eq!(err, RowError::InvalidVersion("one.two".to_string()));
}

#[test]
fn unknown_edition_year() {
    let mut writer = RowWriter::new();
    write_version_row(&csv_row("0.1.0", "2030", "{}", ""), &mut writer).unwrap();
    writer.row_done().unwrap();
    let bytes = writer.output().clone();
    let row = read_version_row(&mut RowReader::new(&bytes));
    assert_eq!(row.edition(), Some(RustEdition::Unknown));
}

#[test]
fn version_download_rows_round_trip() {
    let mut writer = RowWriter::new();
    for (id, downloads, date) in [("1", "10", "2024-01-15"), ("2", "0", "1970-01-01")] {
        write_version_download_row(&CsvVersionDownloadRow { version_id: id, downloads, date }, &mut writer).unwrap();
        writer.row_done().unwrap();
    }
    let bytes = writer.output().clone();
    let mut reader = RowReader::new(&bytes);
    let first = read_version_download_row(&mut reader);
    assert_eq!((first.version_id.0, first.downloads, first.date), (1, 10, 19_737));
    let second = read_version_download_row(&mut reader);
    assert_eq!((second.version_id.0, second.downloads, second.date), (2, 0, 0));
    assert_eq!(reader.position(), bytes.len());
}

#[test]
fn bad_date_is_rejected() {
    let mut writer = RowWriter::new();
    let err = write_version_download_row(
        &CsvVersionDownloadRow { version_id: "1", downloads: "x", date: "2024-01-15" },
        &mut writer,
    )
    .unwrap_err();
    assert_eq!(err, RowError::InvalidInteger("x".to_string()));
}

#[test]
fn features_of_a_stored_row() {
    let mut writer = RowWriter::new();
    let features = "{\"std\":[],\"default\":[\"std\",\"alloc\"],\"alloc\":[]}";
    write_version_row(&csv_row("1.0.0", "2021", features, ""), &mut writer).unwrap();
    writer.row_done().unwrap();
    let bytes = writer.output().clone();
    let row = read_version_row(&mut RowReader::new(&bytes));
    let f = row.features();
    assert_eq!(
        f,
        vec![
            ("alloc".to_string(), vec![]),
            ("default".to_string(), vec!["std".to_string(), "alloc".to_string()]),
            ("std".to_string(), vec![]),
        ]
    );
    assert_eq!(row.checked_features(), Some(f));
}

#[test]
fn malformed_features_are_not_read() {
    let mut row_bytes = RowWriter::new();
    write_version_row(&csv_row("1.0.0", "2021", "{}", ""), &mut row_bytes).unwrap();
    row_bytes.row_done().unwrap();
    let bytes = row_bytes.output().clone();
    let mut row = read_version_row(&mut RowReader::new(&bytes));
    row.features = "[1, 2]";
    assert_eq!(row.checked_features(), None);
}

#[test]
fn url_fields_of_a_row() {
    let mut writer = RowWriter::new();
    write_version_row(&csv_row("1.0.0", "2021", "{}", "example.org/home"), &mut writer).unwrap();
    writer.row_done().unwrap();
    let bytes = writer.output().clone();
    let mut reader = RowReader::new(&bytes);
    let mut row = read_version_row(&mut reader);
    assert_eq!(row.documentation(), Some("https://docs.rs/x"));
    assert_eq!(row.homepage(), Some("https://example.org/home"));
    assert_eq!(row.checked_homepage(), Some(Some("https://example.org/home")));
    row.homepage = "";
    assert_eq!(row.homepage(), None);
    assert_eq!(row.checked_homepage(), Some(None));
    row.documentation = "not a url";
    assert_eq!(row.checked_documentation(), None);
}
