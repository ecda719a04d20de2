use etl_table::etl_stream::{Category, DataSource, EtlError, Protocol};
use etl_table::file_protocol::{build_table, CsvParam, EolMarker, File};
use etl_table::table::{TableError, Value};

fn csv_file(param: CsvParam) -> File {
    File::new(
        "test1.csv".to_string(),
        "./sample_data".to_string(),
        Category::Csv(param),
    )
}

fn crlf_semicolon() -> CsvParam {
    CsvParam { field_separator: b';', eol_marker: EolMarker::Crlf, has_header: true }
}

#[test]
fn full_path_joins_with_one_separator() {
    let f = csv_file(crlf_semicolon());
    assert_eq!(f.full_path(), "./sample_data/test1.csv");
}

#[test]
fn load_well_formed_csv() {
    let f = csv_file(crlf_semicolon());
    let content = b"a;b;c\r\n1;2;3\r\n4;5;6\r\n".to_vec();
    let t = f.load(Some(content)).unwrap();
    assert_eq!(t.num_cols(), 3);
    assert_eq!(t.cols[0].header.canonical, "a");
    assert_eq!(t.cols[1].header.canonical, "b");
    assert_eq!(t.cols[2].header.canonical, "c");
    assert_eq!(t.rows.len(), 2);
    assert_eq!(t.rows[0].cells[0], Value::Text("1".to_string()));
    assert_eq!(t.rows[0].cells[1], Value::Text("2".to_string()));
    assert_eq!(t.rows[0].cells[2], Value::Text("3".to_string()));
    assert_eq!(t.rows[1].cells[0], Value::Text("4".to_string()));
    assert_eq!(t.rows[1].cells[2], Value::Text("6".to_string()));
}

#[test]
fn load_trims_surrounding_whitespace() {
    let f = csv_file(crlf_semicolon());
    let content = b" a ; b ; c \r\n 1 ;2; 3\r\n".to_vec();
    let t = f.load(Some(content)).unwrap();
    assert_eq!(t.cols[0].header.canonical, "a");
    assert_eq!(t.cols[1].header.canonical, "b");
    assert_eq!(t.rows[0].cells[0], Value::Text("1".to_string()));
    assert_eq!(t.rows[0].cells[2], Value::Text("3".to_string()));
}

#[test]
fn load_with_lf_terminator_and_comma() {
    let f = csv_file(CsvParam {
        field_separator: b',',
        eol_marker: EolMarker::Lf,
        has_header: true,
    });
    let content = b"x,y\n7,8\n".to_vec();
    let t = f.load(Some(content)).unwrap();
    assert_eq!(t.num_cols(), 2);
    assert_eq!(t.rows.len(), 1);
    assert_eq!(t.rows[0].cells[1], Value::Text("8".to_string()));
}

#[test]
fn load_with_custom_terminator_byte() {
    let f = csv_file(CsvParam {
        field_separator: b',',
        eol_marker: EolMarker::Byte(b'|'),
        has_header: true,
    });
    let content = b"x,y|1,2|3,4|".to_vec();
    let t = f.load(Some(content)).unwrap();
    assert_eq!(t.num_cols(), 2);
    assert_eq!(t.rows.len(), 2);
    assert_eq!(t.rows[1].cells[0], Value::Text("3".to_string()));
}

#[test]
fn load_width_mismatch_fails_whole_load() {
    let mut ds = DataSource::new(Protocol::File(csv_file(crlf_semicolon())));
    let content = b"a;b;c\r\n1;2\r\n".to_vec();
    let r = ds.load(Some(content));
    match r {
        Err(EtlError::ParsingError { name, .. }) => {
            assert_eq!(name, "./sample_data/test1.csv");
        }
        other => panic!("expected a parsing error, got {:?}", other.is_ok()),
    }
    assert!(ds.data.is_none());
}

#[test]
fn load_malformed_record_fails_whole_load() {
    let f = csv_file(crlf_semicolon());
    let mut content = b"a;b\r\n".to_vec();
    content.extend_from_slice(&[0xff, 0xfe]);
    content.extend_from_slice(b";2\r\n");
    match f.load(Some(content)) {
        Err(EtlError::ParsingError { name, msg }) => {
            assert_eq!(name, "./sample_data/test1.csv");
            assert!(msg.starts_with("CSV error: "));
        }
        other => panic!("expected a parsing error, got {:?}", other),
    }
}

#[test]
fn load_without_content_is_an_io_error() {
    let mut ds = DataSource::new(Protocol::File(csv_file(crlf_semicolon())));
    let r = ds.load(None);
    assert_eq!(
        r,
        Err(EtlError::IOError { name: "./sample_data/test1.csv".to_string() })
    );
    assert!(ds.data.is_none());
}

#[test]
fn load_non_file_protocols_not_supported() {
    let cases = [
        (Protocol::Ftp, "Ftp"),
        (Protocol::Http, "Http"),
        (Protocol::Bdd, "Bdd"),
        (Protocol::StdIO, "StdIO"),
        (Protocol::Clipboard, "Clipboard"),
    ];
    for (protocol, expected) in cases {
        let mut ds = DataSource::new(protocol);
        assert_eq!(ds.csv_source_path(), None);
        let r = ds.load(None);
        assert_eq!(r, Err(EtlError::NotSupported { name: expected.to_string() }));
        assert!(ds.data.is_none());
    }
}

#[test]
fn load_unsupported_categories_not_supported() {
    for (category, expected) in [(Category::Delimited, "Delimited"), (Category::Json, "Json")] {
        let f = File::new("d.txt".to_string(), ".".to_string(), category);
        let mut ds = DataSource::new(Protocol::File(f));
        assert_eq!(ds.csv_source_path(), None);
        let r = ds.load(None);
        assert_eq!(r, Err(EtlError::NotSupported { name: expected.to_string() }));
        assert!(ds.data.is_none());
    }
}

#[test]
fn successful_load_stores_the_table() {
    let mut ds = DataSource::new(Protocol::File(csv_file(crlf_semicolon())));
    assert_eq!(
        ds.csv_source_path(),
        Some("./sample_data/test1.csv".to_string())
    );
    let content = b"a;b\r\n1;2\r\n".to_vec();
    ds.load(Some(content)).unwrap();
    let t = ds.data.as_ref().expect("table should be stored");
    assert_eq!(t.num_cols(), 2);
    assert_eq!(t.rows.len(), 1);
}

#[test]
fn build_table_accepts_uniform_records() {
    let headers = vec!["a".to_string(), "b".to_string()];
    let records = vec![
        vec!["1".to_string(), "2".to_string()],
        vec!["3".to_string(), "4".to_string()],
    ];
    let t = build_table(headers, records).unwrap();
    assert_eq!(t.num_cols(), 2);
    assert_eq!(t.rows.len(), 2);
    assert_eq!(t.rows[1].cells[1], Value::Text("4".to_string()));
}

#[test]
fn build_table_reports_first_mismatch() {
    let headers = vec!["a".to_string(), "b".to_string()];
    let records = vec![
        vec!["1".to_string(), "2".to_string()],
        vec!["3".to_string()],
        Vec::new(),
    ];
    let r = build_table(headers, records);
    assert_eq!(r, Err(TableError::ColumnCountMismatch { expected: 2, got: 1 }));
}

#[test]
fn error_messages_render_as_expected() {
    let io = EtlError::IOError { name: "f.csv".to_string() };
    assert_eq!(io.message(), "IO Error with f.csv");
    let ns = EtlError::NotSupported { name: "Http".to_string() };
    assert_eq!(ns.message(), "Protocol not supported Http");
    let se = EtlError::StdError { msg: "boom".to_string() };
    assert_eq!(se.message(), "boom");
    let pe = EtlError::ParsingError { name: "f.csv".to_string(), msg: "bad".to_string() };
    assert_eq!(pe.message(), "Parsing error with f.csv \n bad");
}
