//! The file source descriptor and the CSV format loader: turns the raw
//! bytes of one delimited file into a populated `Table`, given dialect
//! configuration.  The byte-level record parsing is done by the `csv`
//! crate behind trusted wrappers; everything that decides what the table
//! holds is verified.

use vstd::prelude::*;
use vstd::string::StringExecFns;

use crate::etl_stream::Category;
use crate::etl_stream::EtlError;
use crate::table::header_map;
use crate::table::text_cells;
use crate::table::ColType;
use crate::table::Table;
use crate::table::TableError;
use crate::table::Value;

verus! {

/// End-of-record marker of a CSV dialect: carriage-return+linefeed,
/// linefeed only, or one custom byte.
#[derive(Clone, Copy, Debug, PartialEq, Eq)]
pub enum EolMarker {
    Crlf,
    Lf,
    Byte(u8),
}

/// CSV dialect parameters.  Fields are always trimmed of surrounding
/// whitespace on read; that is fixed, not configurable here.
#[derive(Clone, Copy, Debug)]
pub struct CsvParam {
    pub field_separator: u8,
    pub eol_marker: EolMarker,
    pub has_header: bool,
}

/// A concrete file source: its name, the directory path holding it
/// (without a trailing separator), and its structural format.
#[derive(Clone, Debug)]
pub struct File {
    pub name: String,
    pub path: String,
    pub category: Category,
}

/// The type `csv::Error`, the csv crate's parse/read failure; opaque here,
/// rendered only through `csv_error_text`.
#[verifier::external_type_specification]
#[verifier::external_body]
pub struct ExCsvError(csv::Error);

/// The character sequences of a list of strings.
pub open spec fn view_of_strings(v: Seq<String>) -> Seq<Seq<char>> {
    v.map_values(|s: String| s@)
}

/// The character sequences of a list of records of strings.
pub open spec fn views_of_records(rs: Seq<Vec<String>>) -> Seq<Seq<Seq<char>>> {
    rs.map_values(|v: Vec<String>| view_of_strings(v@))
}

/// What the csv crate's parse of the given bytes under the given dialect
/// yields: `None` when some record is malformed (so reading it reports an
/// error), otherwise the header row's fields and the data records' fields,
/// in input order, trimmed.  Parsing in-memory bytes under a fixed dialect
/// depends on these arguments alone, so the result can be named; only
/// `csv_parse_all` below says anything about this name.
pub uninterp spec fn csv_parse_of(
    bytes: Seq<u8>,
    separator: u8,
    eol: EolMarker,
    has_header: bool,
) -> Option<(Seq<Seq<char>>, Seq<Seq<Seq<char>>>)>;

/// Relies on csv::ReaderBuilder (delimiter, terminator, has_headers, trim,
/// from_reader) and csv::Reader::{headers, records}: parses the whole
/// input, yielding the header row and every data record, or the first
/// error the parser reports.  The outcome is the named parse of the bytes:
/// it fails exactly when the named parse is `None`, and on success hands
/// back exactly the named fields.
#[verifier::external_body]
fn csv_parse_all(content: &Vec<u8>, separator: u8, eol: &EolMarker, has_header: bool) -> (r:
    Result<(Vec<String>, Vec<Vec<String>>), csv::Error>)
    ensures
        r matches Ok(hr) ==> csv_parse_of(content@, separator, *eol, has_header) matches Some(p)
            && view_of_strings(hr.0@) == p.0 && views_of_records(hr.1@) == p.1,
        r is Err <==> csv_parse_of(content@, separator, *eol, has_header) is None,
{
    let terminator = match eol {
        EolMarker::Crlf => csv::Terminator::CRLF,
        EolMarker::Lf => csv::Terminator::Any(b'\n'),
        EolMarker::Byte(b) => csv::Terminator::Any(*b),
    };
    let mut rdr = csv::ReaderBuilder::new().delimiter(separator).terminator(terminator)
        .has_headers(has_header).trim(csv::Trim::All).from_reader(content.as_slice());
    let headers: Vec<String> = rdr.headers()?.iter().map(|s| s.to_string()).collect();
    let mut records: Vec<Vec<String>> = Vec::new();
    for rec in rdr.records() {
        records.push(rec?.iter().map(|s| s.to_string()).collect());
    }
    Ok((headers, records))
}

/// Relies on the Display impl of csv::Error for the diagnostic text.
#[verifier::external_body]
fn csv_error_text(e: &csv::Error) -> String {
    format!("{}", e)
}

/// What a table produced by the CSV loader looks like: well-formed, every
/// column untyped with an empty alias set, and every cell a `Text` value
/// (no type inference is performed yet).
pub open spec fn csv_table_ok(t: Table) -> bool {
    &&& t.wf()
    &&& forall|i: int|
        0 <= i < t.cols@.len() ==> (#[trigger] t.cols@[i]).header.aliases@.len() == 0
            && t.cols@[i].kind == ColType::Any
    &&& forall|i: int, j: int|
        0 <= i < t.rows@.len() && 0 <= j < t.rows@[i].cells@.len()
            ==> (#[trigger] t.rows@[i].cells@[j]) is Text
}

/// Whether every parsed data record is exactly as wide as the parsed
/// header row.
pub open spec fn records_fit(headers: Seq<Seq<char>>, records: Seq<Seq<Seq<char>>>) -> bool {
    forall|i: int| 0 <= i < records.len() ==> (#[trigger] records[i]).len() == headers.len()
}

/// Whether table `t` is exactly the table the parsed input describes: one
/// column per header field, in order, and one row per record, in order,
/// each cell the `Text` wrapping of its field.
pub open spec fn loaded_table_matches(
    t: Table,
    headers: Seq<Seq<char>>,
    records: Seq<Seq<Seq<char>>>,
) -> bool {
    &&& t.cols@.len() == headers.len()
    &&& forall|i: int|
        0 <= i < headers.len() ==> (#[trigger] t.cols@[i]).header.canonical@ == headers[i]
    &&& t.rows@.len() == records.len()
    &&& forall|i: int|
        0 <= i < records.len() ==> (#[trigger] t.rows@[i]).cells@.len() == records[i].len()
    &&& forall|i: int, j: int|
        0 <= i < records.len() && 0 <= j < records[i].len() ==> ((#[trigger] t.rows@[i].cells@[j])
            matches Value::Text(s) && s@ == records[i][j])
}

/// Which error `File::load` may report, by category and by whether the
/// caller could supply the file's content.
pub open spec fn file_load_err(f: File, had_content: bool, e: EtlError) -> bool {
    match f.category {
        Category::Csv(_) => {
            if had_content {
                e matches EtlError::ParsingError { name, msg } && name@ == f.full_path_spec()
            } else {
                e matches EtlError::IOError { name } && name@ == f.full_path_spec()
            }
        },
        Category::Delimited => e matches EtlError::NotSupported { name } && name@
            == "Delimited"@,
        Category::Json => e matches EtlError::NotSupported { name } && name@ == "Json"@,
    }
}

/// Builds a table from a header row and the data records that followed
/// it: the schema comes from the headers, and each record is appended
/// through the validated row append.  Succeeds exactly when every record
/// is as wide as the header row; the first record of a different width
/// fails the whole build with a width mismatch reporting both widths, and
/// no table is returned.
pub fn build_table(headers: Vec<String>, records: Vec<Vec<String>>) -> (r: Result<
    Table,
    TableError,
>)
    ensures
        r is Ok <==> (forall|i: int|
            0 <= i < records@.len() ==> (#[trigger] records@[i])@.len() == headers@.len()),
        r matches Ok(t) ==> {
            &&& t.wf()
            &&& t.cols@.len() == headers@.len()
            &&& t.rows@.len() == records@.len()
            &&& forall|i: int|
                0 <= i < headers@.len() ==> (#[trigger] t.cols@[i]).header.canonical
                    == headers@[i] && t.cols@[i].header.aliases@.len() == 0 && t.cols@[i].kind
                    == ColType::Any
            &&& t.alias_map() == header_map(headers@)
            &&& forall|i: int|
                0 <= i < records@.len() ==> (#[trigger] t.rows@[i]).cells@ == text_cells(
                    records@[i]@,
                )
        },
        r matches Err(e) ==> exists|i: int|
            #![auto]
            {
                &&& 0 <= i < records@.len()
                &&& records@[i]@.len() != headers@.len()
                &&& forall|j: int|
                    0 <= j < i ==> (#[trigger] records@[j])@.len() == headers@.len()
                &&& e matches TableError::ColumnCountMismatch { expected, got } && expected
                    == headers@.len() && got == records@[i]@.len()
            },
{
    let ghost hs = headers@;
    let hn = headers.len();
    let mut t = Table::from_headers(headers);
    let n = records.len();
    let mut i: usize = 0;
    while i < n
        invariant
            n == records@.len(),
            i <= n,
            t.wf(),
            t.cols@.len() == hs.len(),
            hs == headers@,
            hs.len() == hn,
            t.rows@.len() == i,
            forall|k: int|
                0 <= k < hs.len() ==> (#[trigger] t.cols@[k]).header.canonical == hs[k]
                    && t.cols@[k].header.aliases@.len() == 0 && t.cols@[k].kind == ColType::Any,
            t.alias_map() == header_map(hs),
            forall|j: int|
                0 <= j < i ==> (#[trigger] records@[j])@.len() == hs.len()
                    && t.rows@[j].cells@ == text_cells(records@[j]@),
        decreases n - i,
    {
        let m = records[i].len();
        let mut row: Vec<String> = Vec::new();
        let mut j: usize = 0;
        while j < m
            invariant
                0 <= i < records@.len(),
                m == records@[i as int]@.len(),
                j <= m,
                row@.len() == j,
                forall|k: int| 0 <= k < j ==> (#[trigger] row@[k]) == records@[i as int]@[k],
            decreases m - j,
        {
            row.push(records[i][j].clone());
            j = j + 1;
        }
        proof {
            assert(row@ =~= records@[i as int]@);
        }
        match t.push_row_from_strings(row) {
            Ok(_idx) => {},
            Err(e) => {
                proof {
                    assert(records@[i as int]@.len() != hs.len());
                    assert(hs.len() <= usize::MAX);
                    assert(e matches TableError::ColumnCountMismatch { expected, got }
                        && expected == hs.len() && got == records@[i as int]@.len());
                    assert(exists|k: int|
                        #![auto]
                        {
                            &&& 0 <= k < records@.len()
                            &&& records@[k]@.len() != hs.len()
                            &&& forall|j: int|
                                0 <= j < k ==> (#[trigger] records@[j])@.len() == hs.len()
                            &&& e matches TableError::ColumnCountMismatch { expected, got }
                                && expected == hs.len() && got == records@[k]@.len()
                        }) by {
                        assert((i as int) < records@.len() && records@[i as int]@.len()
                            != hs.len() && (forall|j: int|
                            0 <= j < i as int ==> (#[trigger] records@[j])@.len() == hs.len())
                            && (e matches TableError::ColumnCountMismatch { expected, got }
                            && expected == hs.len() && got == records@[i as int]@.len()));
                    }
                }
                return Err(e);
            },
        }
        i = i + 1;
    }
    Ok(t)
}

/// Pointwise consequences of the view equations `csv_parse_all` states:
/// lengths and fields of the parsed values correspond to the handed-back
/// strings, so the width check means the same on either side.
proof fn lemma_parse_views(
    headers: Seq<String>,
    records: Seq<Vec<String>>,
    ph: Seq<Seq<char>>,
    pr: Seq<Seq<Seq<char>>>,
)
    requires
        view_of_strings(headers) == ph,
        views_of_records(records) == pr,
    ensures
        ph.len() == headers.len(),
        pr.len() == records.len(),
        forall|i: int| 0 <= i < headers.len() ==> #[trigger] ph[i] == headers[i]@,
        forall|i: int| 0 <= i < records.len() ==> (#[trigger] pr[i]).len() == records[i]@.len(),
        forall|i: int, j: int|
            0 <= i < records.len() && 0 <= j < records[i]@.len() ==> (#[trigger] pr[i][j])
                == records[i]@[j]@,
        records_fit(ph, pr) <==> (forall|i: int|
            0 <= i < records.len() ==> (#[trigger] records[i])@.len() == headers.len()),
{
    assert forall|i: int| 0 <= i < records.len() implies (#[trigger] pr[i]).len()
        == records[i]@.len() by {
        assert(pr[i] == view_of_strings(records[i]@));
    }
    assert forall|i: int, j: int|
        0 <= i < records.len() && 0 <= j < records[i]@.len() implies (#[trigger] pr[i][j])
        == records[i]@[j]@ by {
        assert(pr[i] == view_of_strings(records[i]@));
    }
    assert forall|i: int|
        #![trigger pr[i]]
        #![trigger records[i]]
        0 <= i < records.len() implies (pr[i].len() == ph.len() <==> records[i]@.len()
        == headers.len()) by {
        assert(pr[i] == view_of_strings(records[i]@));
    }
}

/// A table that `build_table` accepted is exactly the table the parsed
/// input describes, restated over the parsed views.
proof fn lemma_built_table_matches(
    t: Table,
    headers: Seq<String>,
    records: Seq<Vec<String>>,
    ph: Seq<Seq<char>>,
    pr: Seq<Seq<Seq<char>>>,
)
    requires
        view_of_strings(headers) == ph,
        views_of_records(records) == pr,
        t.cols@.len() == headers.len(),
        forall|i: int|
            0 <= i < headers.len() ==> (#[trigger] t.cols@[i]).header.canonical == headers[i],
        t.rows@.len() == records.len(),
        forall|i: int|
            0 <= i < records.len() ==> (#[trigger] t.rows@[i]).cells@ == text_cells(records[i]@),
    ensures
        loaded_table_matches(t, ph, pr),
{
    lemma_parse_views(headers, records, ph, pr);
    assert forall|i: int| 0 <= i < records.len() implies (#[trigger] t.rows@[i]).cells@.len()
        == pr[i].len() by {
        assert(t.rows@[i].cells@ == text_cells(records[i]@));
    }
    assert forall|i: int, j: int|
        0 <= i < pr.len() && 0 <= j < pr[i].len() implies (#[trigger] t.rows@[i].cells@[j])
        matches Value::Text(s) && s@ == pr[i][j] by {
        assert(t.rows@[i].cells@[j] == text_cells(records[i]@)[j]);
        assert(text_cells(records[i]@)[j] == Value::Text(records[i]@[j]));
    }
}

impl File {
    /// The resolved source location: the directory path and the file name
    /// joined by a single path separator, with no normalization.
    pub open spec fn full_path_spec(self) -> Seq<char> {
        self.path@ + "/"@ + self.name@
    }

    /// Wraps a source descriptor.
    pub fn new(name: String, path: String, category: Category) -> (f: File)
        ensures
            f.name == name,
            f.path == path,
            f.category == category,
    {
        File { name, path, category }
    }

    /// Joins the directory path and the file name with a single path
    /// separator.
    pub fn full_path(&self) -> (r: String)
        ensures
            r@ == self.full_path_spec(),
    {
        let mut s = self.path.clone();
        s.append("/");
        s.append(self.name.as_str());
        s
    }

    /// Loads this file into a table.  `content` holds the file's raw
    /// bytes, or `None` when the backing store could not be opened; the
    /// caller performs the read, so no handle is held here.
    ///
    /// A CSV file's first record always provides the column headers (also
    /// when `has_header` is false, in which case the csv crate yields that
    /// record as data as well — header-less ingestion has no dedicated
    /// path yet).  The load succeeds exactly when the input parses and
    /// every record is as wide as the header row, and the table is then
    /// exactly what the parsed input describes; any malformed record,
    /// header-extraction failure or width mismatch aborts the whole load
    /// with a parsing error carrying the resolved location.  The
    /// `Delimited` and `Json` categories are recognized but unsupported,
    /// and fail naming the category before any content is consulted.
    pub fn load(&self, content: Option<Vec<u8>>) -> (r: Result<Table, EtlError>)
        ensures
            (self.category is Delimited || self.category is Json || (self.category is Csv
                && content is None)) ==> r is Err,
            r matches Err(e) ==> file_load_err(*self, content is Some, e),
            r matches Ok(t) ==> self.category is Csv && content is Some && csv_table_ok(t),
            self.category matches Category::Csv(param) ==> content matches Some(bytes) ==> {
                let parse = csv_parse_of(
                    bytes@,
                    param.field_separator,
                    param.eol_marker,
                    param.has_header,
                );
                &&& (r is Ok <==> (parse matches Some(p) && records_fit(p.0, p.1)))
                &&& (r matches Ok(t) ==> parse matches Some(p) && loaded_table_matches(
                    t,
                    p.0,
                    p.1,
                ))
            },
    {
        let full_path = self.full_path();
        match &self.category {
            Category::Csv(param) => {
                let bytes = match content {
                    Some(b) => b,
                    None => {
                        return Err(EtlError::IOError { name: full_path });
                    },
                };
                let parsed = csv_parse_all(
                    &bytes,
                    param.field_separator,
                    &param.eol_marker,
                    param.has_header,
                );
                let (headers, records) = match parsed {
                    Ok(hr) => hr,
                    Err(e) => {
                        let text = csv_error_text(&e);
                        let mut msg = "CSV error: ".to_owned();
                        msg.append(text.as_str());
                        return Err(EtlError::ParsingError { name: full_path, msg });
                    },
                };
                let ghost p = csv_parse_of(
                    bytes@,
                    param.field_separator,
                    param.eol_marker,
                    param.has_header,
                )->0;
                proof {
                    lemma_parse_views(headers@, records@, p.0, p.1);
                }
                match build_table(headers, records) {
                    Ok(t) => {
                        proof {
                            lemma_built_table_matches(t, headers@, records@, p.0, p.1);
                        }
                        Ok(t)
                    },
                    Err(mismatch) => {
                        let msg = match mismatch {
                            TableError::ColumnCountMismatch { expected, got } => {
                                let expected_text = expected.to_string();
                                let got_text = got.to_string();
                                let mut m = "column count mismatch: expected ".to_owned();
                                m.append(expected_text.as_str());
                                m.append(", got ");
                                m.append(got_text.as_str());
                                m
                            },
                        };
                        Err(EtlError::ParsingError { name: full_path, msg })
                    },
                }
            },
            Category::Delimited => Err(
                EtlError::NotSupported { name: "Delimited".to_owned() },
            ),
            Category::Json => Err(EtlError::NotSupported { name: "Json".to_owned() }),
        }
    }
}

} // verus!
