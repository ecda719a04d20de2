//! The protocol dispatch layer: a `DataSource` wraps one logical source
//! descriptor (`Protocol`) and routes `load()` to the matching format
//! loader, normalizing every failure into one error vocabulary.

use vstd::prelude::*;
use vstd::string::StringExecFns;

use crate::file_protocol::csv_parse_of;
use crate::file_protocol::csv_table_ok;
use crate::file_protocol::file_load_err;
use crate::file_protocol::loaded_table_matches;
use crate::file_protocol::records_fit;
use crate::file_protocol::CsvParam;
use crate::file_protocol::File;
use crate::table::Table;

verus! {

/// Text encoding of a delimited source.
#[derive(Clone, Copy, Debug)]
pub enum Encoding {
    Utf8,
    Ascii,
}

/// Candidate dialect parameters for delimited sources.
#[derive(Debug)]
pub struct CsvConfig {
    pub encoding: Encoding,
    pub eol_markers: Vec<String>,
    pub separators: Vec<String>,
}

/// A named indicator with a level.
#[derive(Debug)]
pub struct Indicator {
    pub name: String,
    pub level: usize,
}

/// Structural format of a `File` source, selecting the loader.  `Delimited`
/// and `Json` are recognized but not supported yet.
#[derive(Clone, Debug)]
pub enum Category {
    Csv(CsvParam),
    Delimited,
    Json,
}

/// How to reach a source.  Only `File` is supported; the other variants are
/// recognized placeholders that `load()` rejects without attempting any
/// I/O.
#[derive(Clone, Debug)]
pub enum Protocol {
    File(File),
    Ftp,
    Http,
    Bdd,
    StdIO,
    Clipboard,
}

/// Closed error taxonomy of the loading pipeline.
#[derive(Clone, Debug, PartialEq, Eq)]
pub enum EtlError {
    /// The backing store could not be opened or read; carries the resolved
    /// source location.
    IOError { name: String },
    /// The requested protocol or category is recognized but unimplemented;
    /// carries its name.
    NotSupported { name: String },
    /// An underlying failure that fits no other variant.
    StdError { msg: String },
    /// A malformed record, header-extraction failure, or schema-width
    /// mismatch; carries the resolved location and a diagnostic message.
    ParsingError { name: String, msg: String },
}

/// The name `load()` reports for a recognized-but-unimplemented protocol.
pub open spec fn protocol_name(p: Protocol) -> Seq<char> {
    match p {
        Protocol::File(_) => Seq::<char>::empty(),
        Protocol::Ftp => "Ftp"@,
        Protocol::Http => "Http"@,
        Protocol::Bdd => "Bdd"@,
        Protocol::StdIO => "StdIO"@,
        Protocol::Clipboard => "Clipboard"@,
    }
}

impl EtlError {
    /// The human-readable rendering of this error.
    pub open spec fn message_spec(self) -> Seq<char> {
        match self {
            EtlError::IOError { name } => "IO Error with "@ + name@,
            EtlError::NotSupported { name } => "Protocol not supported "@ + name@,
            EtlError::StdError { msg } => msg@,
            EtlError::ParsingError { name, msg } => "Parsing error with "@ + name@ + " \n "@
                + msg@,
        }
    }

    /// Renders the error for a diagnostic channel.
    pub fn message(&self) -> (r: String)
        ensures
            r@ == self.message_spec(),
    {
        match self {
            EtlError::IOError { name } => {
                let mut s = "IO Error with ".to_owned();
                s.append(name.as_str());
                s
            },
            EtlError::NotSupported { name } => {
                let mut s = "Protocol not supported ".to_owned();
                s.append(name.as_str());
                s
            },
            EtlError::StdError { msg } => msg.clone(),
            EtlError::ParsingError { name, msg } => {
                let mut s = "Parsing error with ".to_owned();
                s.append(name.as_str());
                s.append(" \n ");
                s.append(msg.as_str());
                s
            },
        }
    }
}

/// Owns one `Protocol` and, after a successful load, the loaded table.
/// `data` starts empty and is populated exactly by a successful `load()`;
/// a failed load leaves it unchanged.
pub struct DataSource {
    pub protocol: Protocol,
    pub data: Option<Table>,
}

impl DataSource {
    /// Whether `load()` will need the backing file's content: exactly when
    /// the wrapped protocol is a file with the CSV category.
    pub open spec fn needs_content(self) -> bool {
        self.protocol matches Protocol::File(f) && f.category is Csv
    }

    /// Wraps a protocol; no data is loaded yet.
    pub fn new(protocol: Protocol) -> (ds: DataSource)
        ensures
            ds.protocol == protocol,
            ds.data is None,
    {
        DataSource { protocol, data: None }
    }

    /// The resolved location whose content `load()` expects, when the
    /// wrapped protocol is a file with the CSV category; `None` otherwise
    /// (no read should be attempted then).
    pub fn csv_source_path(&self) -> (r: Option<String>)
        ensures
            r is Some <==> self.needs_content(),
            r matches Some(p) ==> self.protocol matches Protocol::File(f) && p@
                == f.full_path_spec(),
    {
        match &self.protocol {
            Protocol::File(f) => match &f.category {
                Category::Csv(_) => Some(f.full_path()),
                Category::Delimited => None,
                Category::Json => None,
            },
            Protocol::Ftp => None,
            Protocol::Http => None,
            Protocol::Bdd => None,
            Protocol::StdIO => None,
            Protocol::Clipboard => None,
        }
    }

    /// Routes the load to the loader matching the wrapped protocol.
    /// `content` is the backing file's raw bytes, read by the caller only
    /// when `csv_source_path` asked for them, or `None` when the backing
    /// store could not be opened.  Every recognized-but-unimplemented
    /// protocol fails immediately with `NotSupported` naming it, before any
    /// content is consulted; a file source delegates to the file loader.
    /// On success the loaded table is stored; on failure `data` is left
    /// unchanged (no partial table is retained).
    pub fn load(&mut self, content: Option<Vec<u8>>) -> (r: Result<(), EtlError>)
        ensures
            final(self).protocol == old(self).protocol,
            !(old(self).protocol is File) ==> {
                &&& r matches Err(e) && e matches EtlError::NotSupported { name } && name@
                    == protocol_name(old(self).protocol)
                &&& final(self).data == old(self).data
            },
            old(self).protocol matches Protocol::File(f) ==> {
                &&& (r matches Ok(u) ==> final(self).data matches Some(t) && csv_table_ok(t)
                    && f.category is Csv && content is Some)
                &&& (r matches Err(e) ==> file_load_err(f, content is Some, e)
                    && final(self).data == old(self).data)
                &&& ((f.category is Delimited || f.category is Json || content is None)
                    ==> r is Err)
            },
            old(self).protocol matches Protocol::File(f) ==> f.category matches Category::Csv(
                param,
            ) ==> content matches Some(bytes) ==> {
                let parse = csv_parse_of(
                    bytes@,
                    param.field_separator,
                    param.eol_marker,
                    param.has_header,
                );
                &&& (r is Ok <==> (parse matches Some(p) && records_fit(p.0, p.1)))
                &&& (r is Ok ==> (final(self).data matches Some(t) && parse matches Some(p)
                    && loaded_table_matches(t, p.0, p.1)))
            },
    {
        let loaded: Result<Table, EtlError> = match &self.protocol {
            Protocol::File(f) => f.load(content),
            Protocol::Ftp => Err(EtlError::NotSupported { name: "Ftp".to_owned() }),
            Protocol::Http => Err(EtlError::NotSupported { name: "Http".to_owned() }),
            Protocol::Bdd => Err(EtlError::NotSupported { name: "Bdd".to_owned() }),
            Protocol::StdIO => Err(EtlError::NotSupported { name: "StdIO".to_owned() }),
            Protocol::Clipboard => Err(EtlError::NotSupported { name: "Clipboard".to_owned() }),
        };
        match loaded {
            Ok(t) => {
                self.data = Some(t);
                Ok(())
            },
            Err(e) => Err(e),
        }
    }
}

/// Pairs an input and an output source for a future transform/export
/// stage; currently a pass-through placeholder.
pub struct Stream {
    pub input: DataSource,
    pub output: DataSource,
}

impl Stream {
    /// Pairs the two sources.
    pub fn new(input: DataSource, output: DataSource) -> (s: Stream)
        ensures
            s.input == input,
            s.output == output,
    {
        Stream { input, output }
    }

    /// Placeholder for the future transform/export pass: changes nothing.
    pub fn load(&mut self)
        ensures
            *final(self) == *old(self),
    {
    }
}

} // verus!
