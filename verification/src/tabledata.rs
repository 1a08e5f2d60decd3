use crate::archive::{data_at_spec, is_first_match, no_match, Archive};
use crate::source::ByteSource;
use crate::toc::TocEntry;
use crate::types::{ArchiveError, Section};
use vstd::prelude::*;

verus! {

/// The rows of a table as the archive stores them, with the names of the
/// columns.
#[derive(Debug, PartialEq)]
pub struct TableData {
    /// Names of the columns, in the order of the fields of a row.
    pub columns: Vec<String>,
    /// The rows: one line for each, its fields separated by tabs.
    pub data: Vec<u8>,
}

/// `std::io::Cursor`, which lets a `csv::Reader` read from bytes in memory.
#[verifier::external_type_specification]
#[verifier::external_body]
#[verifier::reject_recursive_types(T)]
pub struct ExCursor<T>(std::io::Cursor<T>);

/// `csv::Reader`, the reader of rows that `table_data_reader` hands out.
#[verifier::external_type_specification]
#[verifier::external_body]
#[verifier::reject_recursive_types(R)]
pub struct ExReader<R>(csv::Reader<R>);

/// Makes a `csv::Reader` over the rows of a table with
/// `csv::ReaderBuilder::from_reader`: fields are separated by tabs, nothing
/// is quoted, and every row must have as many fields as there are columns.
/// The names of the columns are set with `csv::Reader::set_headers`, so that
/// the first row is read as a row. Nothing is claimed of what the reader
/// gives.
#[verifier::external_body]
fn tab_separated_reader(table_data: TableData) -> csv::Reader<std::io::Cursor<Vec<u8>>> {
    let mut rdr = csv::ReaderBuilder::new()
        .delimiter(b'\t')
        .quoting(false)
        .flexible(false)
        .from_reader(std::io::Cursor::new(table_data.data));
    rdr.set_headers(table_data.columns.into());
    rdr
}

/// A SQL statement as a parser gives it, reduced to what the names of the
/// columns of a table are read from.
#[derive(Debug, PartialEq)]
pub enum Statement {
    /// A statement that creates a table, with its elements in their order:
    /// the name of the column for an element that defines a column, and
    /// `None` for any other element, such as a constraint.
    CreateTable(Vec<Option<String>>),
    /// Any other statement.
    Other,
}

/// The names of the columns among the elements of a statement that creates
/// a table, in their order.
pub open spec fn column_names_of(elements: Seq<Option<String>>) -> Seq<String>
    decreases elements.len(),
{
    if elements.len() == 0 {
        Seq::empty()
    } else {
        match elements.last() {
            Some(name) => column_names_of(elements.drop_last()).push(name),
            None => column_names_of(elements.drop_last()),
        }
    }
}

/// Gives the names of the columns of the table that a statement creates;
/// `None` where the statement creates no table.
pub fn column_names(statement: &Statement) -> (r: Option<Vec<String>>)
    ensures
        match statement {
            Statement::CreateTable(elements) => r is Some && r->Some_0@ == column_names_of(
                elements@,
            ),
            Statement::Other => r is None,
        },
{
    match statement {
        Statement::Other => None,
        Statement::CreateTable(elements) => {
            let mut names: Vec<String> = Vec::new();
            let mut i: usize = 0;
            while i < elements.len()
                invariant
                    i <= elements@.len(),
                    names@ == column_names_of(elements@.subrange(0, i as int)),
                decreases elements@.len() - i,
            {
                assert(elements@.subrange(0, i + 1).drop_last() =~= elements@.subrange(
                    0,
                    i as int,
                ));
                match &elements[i] {
                    Some(name) => {
                        names.push(name.clone());
                    },
                    None => {},
                }
                i += 1;
            }
            assert(elements@.subrange(0, i as int) =~= elements@);
            Some(names)
        },
    }
}

/// Finds the entry that creates a table: the first entry of kind `TABLE`
/// with this tag among those that are processed before the data. Its
/// definition is the `CREATE TABLE` statement that names the columns.
pub fn table_definition<'a>(archive: &'a Archive, table: &str) -> (r: Result<
    &'a TocEntry,
    ArchiveError,
>)
    ensures
        match r {
            Ok(entry) => exists|index: int|
                is_first_match(archive@.toc_entries, index, Section::PreData, "TABLE"@, table@)
                    && archive.toc_entries@[index] == *entry,
            Err(e) => e == ArchiveError::NoDataPresent && no_match(
                archive@.toc_entries,
                Section::PreData,
                "TABLE"@,
                table@,
            ),
        },
{
    match archive.find_toc_entry(Section::PreData, "TABLE", table) {
        Some(entry) => Ok(entry),
        None => Err(ArchiveError::NoDataPresent),
    }
}

/// How reading the data of a table ends: with `failure`, or with the cursor
/// moved from where `before` has it to where `after` has it.
///
/// A table without a definition or without data in the archive gives
/// `NoDataPresent`, a definition in which no columns were found
/// `InvalidTableDefinition`, in this order. Else the read ends as
/// `Archive::read_data` does for the first entry of kind `TABLE DATA` with
/// this tag. A failure leaves the cursor where it was.
pub open spec fn table_read_ends(
    archive: &Archive,
    before: ByteSource,
    after: ByteSource,
    table: Seq<char>,
    columns_found: bool,
    failure: Option<ArchiveError>,
) -> bool {
    let entries = archive@.toc_entries;
    let defined = !no_match(entries, Section::PreData, "TABLE"@, table);
    &&& after.data == before.data
    &&& failure is Some ==> after.pos == before.pos
    &&& !defined ==> failure == Some(ArchiveError::NoDataPresent)
    &&& defined && !columns_found ==> failure == Some(ArchiveError::InvalidTableDefinition)
    &&& defined && columns_found && no_match(entries, Section::Data, "TABLE DATA"@, table)
        ==> failure == Some(ArchiveError::NoDataPresent)
    &&& forall|index: int|
        defined && columns_found && #[trigger] is_first_match(
            entries,
            index,
            Section::Data,
            "TABLE DATA"@,
            table,
        ) ==> match data_at_spec(
            before.data@,
            before.pos,
            archive.io_config,
            archive.compression_method,
            entries[index].offset,
        ) {
            Ok((_, end)) => failure is None && after.pos == end,
            Err(e) => failure == Some(e),
        }
}

/// The data of a read, without the position where it ended.
pub open spec fn data_of(outcome: Result<(Seq<u8>, usize), ArchiveError>) -> Result<
    Seq<u8>,
    ArchiveError,
> {
    match outcome {
        Ok((bytes, _)) => Ok(bytes),
        Err(e) => Err(e),
    }
}

/// The error of a result, if it is one.
pub open spec fn failure_of<T>(r: Result<T, ArchiveError>) -> Option<ArchiveError> {
    match r {
        Ok(_) => None,
        Err(e) => Some(e),
    }
}

/// Reads the data of a table, given the names of the columns that were
/// found in its definition, or `None` where the definition is no statement
/// that creates a table. Gives the names as they were given, and the data
/// that `Archive::read_data` gives for the first entry of kind `TABLE DATA`
/// with the tag of the table.
pub fn table_data(
    archive: &Archive,
    f: &mut ByteSource,
    table: &str,
    columns: Option<Vec<String>>,
) -> (r: Result<TableData, ArchiveError>)
    ensures
        table_read_ends(archive, *old(f), *final(f), table@, columns is Some, failure_of(r)),
        forall|index: int|
            r is Ok && #[trigger] is_first_match(
                archive@.toc_entries,
                index,
                Section::Data,
                "TABLE DATA"@,
                table@,
            ) ==> r->Ok_0.columns == columns->Some_0 && Ok::<Seq<u8>, ArchiveError>(
                r->Ok_0.data@,
            ) == data_of(
                data_at_spec(
                    old(f).data@,
                    old(f).pos,
                    archive.io_config,
                    archive.compression_method,
                    archive@.toc_entries[index].offset,
                ),
            ),
{
    if archive.find_toc_index(Section::PreData, "TABLE", table).is_none() {
        return Err(ArchiveError::NoDataPresent);
    }
    let columns = match columns {
        None => {
            return Err(ArchiveError::InvalidTableDefinition);
        },
        Some(columns) => columns,
    };
    let found = match archive.find_toc_index(Section::Data, "TABLE DATA", table) {
        None => {
            return Err(ArchiveError::NoDataPresent);
        },
        Some(found) => found,
    };
    match archive.read_data(f, &archive.toc_entries[found]) {
        Err(e) => Err(e),
        Ok(data) => Ok(TableData { columns, data }),
    }
}

/// Gives a reader of the rows of a table, with the names of the columns of
/// the table as its headers. The names are those that were found in the
/// definition of the table, or `None` where the definition is no statement
/// that creates a table. The reader is made from what `table_data` gives.
pub fn table_data_reader(
    archive: &Archive,
    f: &mut ByteSource,
    table: &str,
    columns: Option<Vec<String>>,
) -> (r: Result<csv::Reader<std::io::Cursor<Vec<u8>>>, ArchiveError>)
    ensures
        table_read_ends(archive, *old(f), *final(f), table@, columns is Some, failure_of(r)),
{
    match table_data(archive, f, table, columns) {
        Err(e) => Err(e),
        Ok(data) => Ok(tab_separated_reader(data)),
    }
}

} // verus!
