use crate::codec::{
    decimal_value, int_at, int_at_spec, number_at, number_at_spec, offset_at, offset_at_spec,
    parse_decimal, string_at, string_at_spec, text_at_spec,
};
use crate::io::{int_bool_at, int_bool_at_spec, string_bool_at, string_bool_at_spec, ReadConfig};
use crate::source::{gives, reads_as, ByteSource};
use crate::types::{section_of, ArchiveError, DecodeError, Field, Offset, Oid, Section, ID};
use vstd::prelude::*;

verus! {

/// Object containing the data for a TOC entry.
///
/// All that an archive holds is listed in its table of contents. An entry
/// carries the metadata of one object, with the SQL statements that create
/// and destroy it.
#[derive(Debug, PartialEq)]
pub struct TocEntry {
    pub id: ID,
    pub had_dumper: bool,
    pub table_oid: u64,
    pub oid: Oid,
    /// Name of object that is created or modified.
    pub tag: String,
    /// Type of object that is created or modified.
    ///
    /// For example `DATABASE`, `SEQUENCE` or `TABLE DATA`.
    pub desc: String,
    pub section: Section,
    /// SQL statement to create the database object or change a setting.
    pub defn: String,
    /// SQL statement to destroy the database object.
    pub drop_stmt: String,
    pub copy_stmt: String,
    /// PostgreSQL schema in which the object is located.
    pub namespace: String,
    pub tablespace: String,
    pub table_access_method: String,
    /// PostgreSQL user that owns the object.
    pub owner: String,
    /// List of TOC entries that must be created first.
    pub dependencies: Vec<ID>,
    /// File offset where data or blob content is stored.
    pub offset: Offset,
}

/// An entry with its strings as character sequences and its dependencies as
/// a sequence.
pub struct TocEntryView {
    pub id: ID,
    pub had_dumper: bool,
    pub table_oid: u64,
    pub oid: Oid,
    pub tag: Seq<char>,
    pub desc: Seq<char>,
    pub section: Section,
    pub defn: Seq<char>,
    pub drop_stmt: Seq<char>,
    pub copy_stmt: Seq<char>,
    pub namespace: Seq<char>,
    pub tablespace: Seq<char>,
    pub table_access_method: Seq<char>,
    pub owner: Seq<char>,
    pub dependencies: Seq<ID>,
    pub offset: Offset,
}

impl View for TocEntry {
    type V = TocEntryView;

    open spec fn view(&self) -> TocEntryView {
        TocEntryView {
            id: self.id,
            had_dumper: self.had_dumper,
            table_oid: self.table_oid,
            oid: self.oid,
            tag: self.tag@,
            desc: self.desc@,
            section: self.section,
            defn: self.defn@,
            drop_stmt: self.drop_stmt@,
            copy_stmt: self.copy_stmt@,
            namespace: self.namespace@,
            tablespace: self.tablespace@,
            table_access_method: self.table_access_method@,
            owner: self.owner@,
            dependencies: self.dependencies@,
            offset: self.offset,
        }
    }
}

/// The section of an entry of `data` at `pos`: an integer code from 1 to 4.
pub open spec fn section_at_spec(data: Seq<u8>, pos: usize, int_size: usize) -> Result<
    (Section, usize),
    DecodeError,
> {
    match int_at_spec(data, pos, int_size) {
        Err(e) => Err(e),
        Ok((code, next)) => match section_of(code) {
            None => Err(DecodeError::InvalidTag),
            Some(section) => Ok((section, next)),
        },
    }
}

/// Decodes the section of an entry at `pos`.
pub fn section_at(data: &[u8], pos: usize, int_size: usize) -> (r: Result<
    (Section, usize),
    DecodeError,
>)
    ensures
        r == section_at_spec(data@, pos, int_size),
{
    match int_at(data, pos, int_size) {
        Err(e) => Err(e),
        Ok((code, next)) => match Section::try_from(code) {
            Err(_) => Err(DecodeError::InvalidTag),
            Ok(section) => Ok((section, next)),
        },
    }
}

/// The reserved field of an entry of `data` at `pos`: a boolean stored as a
/// string, which must read as false.
pub open spec fn reserved_at_spec(data: Seq<u8>, pos: usize, int_size: usize) -> Result<
    (bool, usize),
    DecodeError,
> {
    match string_bool_at_spec(data, pos, int_size) {
        Err(e) => Err(e),
        Ok((set, next)) => if set {
            Err(DecodeError::ReservedFlagSet)
        } else {
            Ok((false, next))
        },
    }
}

/// Decodes the reserved field of an entry at `pos`.
pub fn reserved_at(data: &[u8], pos: usize, int_size: usize) -> (r: Result<
    (bool, usize),
    DecodeError,
>)
    ensures
        r == reserved_at_spec(data@, pos, int_size),
{
    match string_bool_at(data, pos, int_size) {
        Err(e) => Err(e),
        Ok((set, next)) => if set {
            Err(DecodeError::ReservedFlagSet)
        } else {
            Ok((false, next))
        },
    }
}

/// `first` put before the ids of an outcome.
pub open spec fn prepend_ids(first: Seq<ID>, outcome: Result<(Seq<ID>, usize), DecodeError>) -> Result<
    (Seq<ID>, usize),
    DecodeError,
> {
    match outcome {
        Ok((rest, end)) => Ok((first + rest, end)),
        Err(e) => Err(e),
    }
}

/// The dependencies of an entry of `data` at `pos`: strings that each hold
/// the decimal id of another entry, up to an empty string, which ends the
/// list and is no part of it.
pub open spec fn dependencies_at_spec(data: Seq<u8>, pos: usize, int_size: usize) -> Result<
    (Seq<ID>, usize),
    DecodeError,
>
    decreases data.len() - pos,
    when data.len() <= usize::MAX
{
    match text_at_spec(data, pos, int_size) {
        Err(e) => Err(e),
        Ok((text, next)) => {
            if text.len() == 0 {
                Ok((Seq::empty(), next))
            } else {
                match decimal_value(text, 0x7fff_ffff_ffff_ffffu64) {
                    None => Err(DecodeError::InvalidId),
                    Some(v) => prepend_ids(
                        seq![v as i64],
                        dependencies_at_spec(data, next, int_size),
                    ),
                }
            }
        },
    }
}

/// Decodes the dependencies of an entry at `pos`; gives the ids and the
/// position behind the empty string that ends them.
pub fn dependencies_at(data: &[u8], pos: usize, int_size: usize) -> (r: Result<
    (Vec<ID>, usize),
    DecodeError,
>)
    ensures
        match dependencies_at_spec(data@, pos, int_size) {
            Ok((ids, next)) => r is Ok && r->Ok_0.0@ == ids && r->Ok_0.1 == next,
            Err(e) => r is Err && r->Err_0 == e,
        },
{
    let mut dependencies: Vec<ID> = Vec::new();
    let mut at: usize = pos;
    let len: usize = data.len();
    let ghost goal = dependencies_at_spec(data@, pos, int_size);
    assert(Seq::<ID>::empty() + Seq::<ID>::empty() =~= Seq::<ID>::empty());
    loop
        invariant
            len == data@.len(),
            goal == dependencies_at_spec(data@, pos, int_size),
            goal == prepend_ids(dependencies@, dependencies_at_spec(data@, at, int_size)),
        decreases len - at,
    {
        let (text, next) = match string_at(data, at, int_size) {
            Err(e) => {
                return Err(e);
            },
            Ok(v) => v,
        };
        let bytes = text.as_str().as_bytes();
        if bytes.len() == 0 {
            assert(dependencies@ + Seq::<ID>::empty() =~= dependencies@);
            return Ok((dependencies, next));
        }
        match parse_decimal(bytes, 0x7fff_ffff_ffff_ffffu64) {
            None => {
                return Err(DecodeError::InvalidId);
            },
            Some(v) => {
                let ghost before = dependencies@;
                dependencies.push(v as i64);
                proof {
                    let rest = dependencies_at_spec(data@, next, int_size);
                    if rest is Ok {
                        assert((before + seq![v as i64]) + rest->Ok_0.0 =~= before + (seq![
                            v as i64,
                        ] + rest->Ok_0.0));
                    }
                    assert(dependencies@ =~= before + seq![v as i64]);
                }
                at = next;
            },
        }
    }
}

/// The entry of `data` at `pos`: its fields in the order of the fields of
/// `TocEntry`, with the reserved field before the dependencies. The id must
/// not be negative. A field that cannot be decoded gives an error that names
/// the field and, once the id is known, the id.
pub open spec fn entry_at_spec(data: Seq<u8>, pos: usize, cfg: ReadConfig) -> Result<
    (TocEntryView, usize),
    ArchiveError,
> {
    match int_at_spec(data, pos, cfg.int_size) {
        Err(e) => Err(ArchiveError::InvalidData(Field::Id, e)),
        Ok((id, after_id)) => {
            if id < 0 {
                Err(ArchiveError::InvalidData(Field::Id, DecodeError::InvalidId))
            } else {
                entry_fields_at_spec(data, after_id, cfg, id)
            }
        },
    }
}

/// The fields of the entry `id` that follow the id, from `after_id`. Each
/// field is decoded where the one before it ends; the first that cannot be
/// decoded gives the error.
#[verifier::opaque]
pub open spec fn entry_fields_at_spec(
    data: Seq<u8>,
    after_id: usize,
    cfg: ReadConfig,
    id: ID,
) -> Result<(TocEntryView, usize), ArchiveError> {
    let had_dumper = int_bool_at_spec(data, after_id, cfg.int_size);
    let table_oid = number_at_spec(data, had_dumper->Ok_0.1, cfg.int_size, u64::MAX);
    let oid = number_at_spec(data, table_oid->Ok_0.1, cfg.int_size, u64::MAX);
    let tag = string_at_spec(data, oid->Ok_0.1, cfg.int_size);
    let desc = string_at_spec(data, tag->Ok_0.1, cfg.int_size);
    let section = section_at_spec(data, desc->Ok_0.1, cfg.int_size);
    let defn = string_at_spec(data, section->Ok_0.1, cfg.int_size);
    let drop_stmt = string_at_spec(data, defn->Ok_0.1, cfg.int_size);
    let copy_stmt = string_at_spec(data, drop_stmt->Ok_0.1, cfg.int_size);
    let namespace = string_at_spec(data, copy_stmt->Ok_0.1, cfg.int_size);
    let tablespace = string_at_spec(data, namespace->Ok_0.1, cfg.int_size);
    let table_access_method = string_at_spec(data, tablespace->Ok_0.1, cfg.int_size);
    let owner = string_at_spec(data, table_access_method->Ok_0.1, cfg.int_size);
    let reserved = reserved_at_spec(data, owner->Ok_0.1, cfg.int_size);
    let dependencies = dependencies_at_spec(data, reserved->Ok_0.1, cfg.int_size);
    let offset = offset_at_spec(data, dependencies->Ok_0.1, cfg.offset_size);
    if had_dumper is Err {
        Err(ArchiveError::InvalidEntryData(id, Field::HadDumper, had_dumper->Err_0))
    } else if table_oid is Err {
        Err(ArchiveError::InvalidEntryData(id, Field::TableOid, table_oid->Err_0))
    } else if oid is Err {
        Err(ArchiveError::InvalidEntryData(id, Field::Oid, oid->Err_0))
    } else if tag is Err {
        Err(ArchiveError::InvalidEntryData(id, Field::Tag, tag->Err_0))
    } else if desc is Err {
        Err(ArchiveError::InvalidEntryData(id, Field::Desc, desc->Err_0))
    } else if section is Err {
        Err(ArchiveError::InvalidEntryData(id, Field::Section, section->Err_0))
    } else if defn is Err {
        Err(ArchiveError::InvalidEntryData(id, Field::Defn, defn->Err_0))
    } else if drop_stmt is Err {
        Err(ArchiveError::InvalidEntryData(id, Field::DropStmt, drop_stmt->Err_0))
    } else if copy_stmt is Err {
        Err(ArchiveError::InvalidEntryData(id, Field::CopyStmt, copy_stmt->Err_0))
    } else if namespace is Err {
        Err(ArchiveError::InvalidEntryData(id, Field::Namespace, namespace->Err_0))
    } else if tablespace is Err {
        Err(ArchiveError::InvalidEntryData(id, Field::Tablespace, tablespace->Err_0))
    } else if table_access_method is Err {
        Err(ArchiveError::InvalidEntryData(id, Field::TableAccessMethod, table_access_method->Err_0))
    } else if owner is Err {
        Err(ArchiveError::InvalidEntryData(id, Field::Owner, owner->Err_0))
    } else if reserved is Err {
        Err(ArchiveError::InvalidEntryData(id, Field::Reserved, reserved->Err_0))
    } else if dependencies is Err {
        Err(ArchiveError::InvalidEntryData(id, Field::Dependencies, dependencies->Err_0))
    } else if offset is Err {
        Err(ArchiveError::InvalidEntryData(id, Field::Offset, offset->Err_0))
    } else {
        Ok(
            (
                TocEntryView {
                    id,
                    had_dumper: had_dumper->Ok_0.0,
                    table_oid: table_oid->Ok_0.0,
                    oid: oid->Ok_0.0,
                    tag: tag->Ok_0.0,
                    desc: desc->Ok_0.0,
                    section: section->Ok_0.0,
                    defn: defn->Ok_0.0,
                    drop_stmt: drop_stmt->Ok_0.0,
                    copy_stmt: copy_stmt->Ok_0.0,
                    namespace: namespace->Ok_0.0,
                    tablespace: tablespace->Ok_0.0,
                    table_access_method: table_access_method->Ok_0.0,
                    owner: owner->Ok_0.0,
                    dependencies: dependencies->Ok_0.0,
                    offset: offset->Ok_0.0,
                },
                offset->Ok_0.1,
            ),
        )
    }
}

/// Decodes the fields of the entry `id` that follow the id.
fn entry_fields_at(data: &[u8], after_id: usize, cfg: &ReadConfig, id: ID) -> (r: Result<
    (TocEntry, usize),
    ArchiveError,
>)
    ensures
        gives(r, entry_fields_at_spec(data@, after_id, *cfg, id)),
{
    reveal(entry_fields_at_spec);
    let (had_dumper, after_had_dumper) = match int_bool_at(data, after_id, cfg.int_size) {
        Err(e) => {
            return Err(ArchiveError::InvalidEntryData(id, Field::HadDumper, e));
        },
        Ok(v) => v,
    };
    let (table_oid, after_table_oid) = match number_at(data, after_had_dumper, cfg.int_size, u64::MAX) {
        Err(e) => {
            return Err(ArchiveError::InvalidEntryData(id, Field::TableOid, e));
        },
        Ok(v) => v,
    };
    let (oid, after_oid) = match number_at(data, after_table_oid, cfg.int_size, u64::MAX) {
        Err(e) => {
            return Err(ArchiveError::InvalidEntryData(id, Field::Oid, e));
        },
        Ok(v) => v,
    };
    let (tag, after_tag) = match string_at(data, after_oid, cfg.int_size) {
        Err(e) => {
            return Err(ArchiveError::InvalidEntryData(id, Field::Tag, e));
        },
        Ok(v) => v,
    };
    let (desc, after_desc) = match string_at(data, after_tag, cfg.int_size) {
        Err(e) => {
            return Err(ArchiveError::InvalidEntryData(id, Field::Desc, e));
        },
        Ok(v) => v,
    };
    let (section, after_section) = match section_at(data, after_desc, cfg.int_size) {
        Err(e) => {
            return Err(ArchiveError::InvalidEntryData(id, Field::Section, e));
        },
        Ok(v) => v,
    };
    let (defn, after_defn) = match string_at(data, after_section, cfg.int_size) {
        Err(e) => {
            return Err(ArchiveError::InvalidEntryData(id, Field::Defn, e));
        },
        Ok(v) => v,
    };
    let (drop_stmt, after_drop_stmt) = match string_at(data, after_defn, cfg.int_size) {
        Err(e) => {
            return Err(ArchiveError::InvalidEntryData(id, Field::DropStmt, e));
        },
        Ok(v) => v,
    };
    let (copy_stmt, after_copy_stmt) = match string_at(data, after_drop_stmt, cfg.int_size) {
        Err(e) => {
            return Err(ArchiveError::InvalidEntryData(id, Field::CopyStmt, e));
        },
        Ok(v) => v,
    };
    let (namespace, after_namespace) = match string_at(data, after_copy_stmt, cfg.int_size) {
        Err(e) => {
            return Err(ArchiveError::InvalidEntryData(id, Field::Namespace, e));
        },
        Ok(v) => v,
    };
    let (tablespace, after_tablespace) = match string_at(data, after_namespace, cfg.int_size) {
        Err(e) => {
            return Err(ArchiveError::InvalidEntryData(id, Field::Tablespace, e));
        },
        Ok(v) => v,
    };
    let (table_access_method, after_table_access_method) = match string_at(data, after_tablespace, cfg.int_size) {
        Err(e) => {
            return Err(ArchiveError::InvalidEntryData(id, Field::TableAccessMethod, e));
        },
        Ok(v) => v,
    };
    let (owner, after_owner) = match string_at(data, after_table_access_method, cfg.int_size) {
        Err(e) => {
            return Err(ArchiveError::InvalidEntryData(id, Field::Owner, e));
        },
        Ok(v) => v,
    };
    let (_, after_reserved) = match reserved_at(data, after_owner, cfg.int_size) {
        Err(e) => {
            return Err(ArchiveError::InvalidEntryData(id, Field::Reserved, e));
        },
        Ok(v) => v,
    };
    let (dependencies, after_dependencies) = match dependencies_at(data, after_reserved, cfg.int_size) {
        Err(e) => {
            return Err(ArchiveError::InvalidEntryData(id, Field::Dependencies, e));
        },
        Ok(v) => v,
    };
    let (offset, after_offset) = match offset_at(data, after_dependencies, cfg.offset_size) {
        Err(e) => {
            return Err(ArchiveError::InvalidEntryData(id, Field::Offset, e));
        },
        Ok(v) => v,
    };
    Ok(
        (
            TocEntry {
                id,
                had_dumper,
                table_oid,
                oid,
                tag,
                desc,
                section,
                defn,
                drop_stmt,
                copy_stmt,
                namespace,
                tablespace,
                table_access_method,
                owner,
                dependencies,
                offset,
            },
            after_offset,
        ),
    )
}

/// Decodes the entry of `data` at `pos`; gives the entry and the position
/// behind it.
pub fn entry_at(data: &[u8], pos: usize, cfg: &ReadConfig) -> (r: Result<
    (TocEntry, usize),
    ArchiveError,
>)
    ensures
        gives(r, entry_at_spec(data@, pos, *cfg)),
{
    match int_at(data, pos, cfg.int_size) {
        Err(e) => Err(ArchiveError::InvalidData(Field::Id, e)),
        Ok((id, after_id)) => {
            if id < 0 {
                Err(ArchiveError::InvalidData(Field::Id, DecodeError::InvalidId))
            } else {
                entry_fields_at(data, after_id, cfg, id)
            }
        },
    }
}

impl TocEntry {
    /// Reads and decodes one entry of the table of contents. A failure
    /// leaves the cursor where it was.
    pub fn parse(f: &mut ByteSource, cfg: &ReadConfig) -> (r: Result<TocEntry, ArchiveError>)
        ensures
            reads_as(*old(f), *final(f), r, entry_at_spec(old(f).data@, old(f).pos, *cfg)),
    {
        match entry_at(f.data.as_slice(), f.pos, cfg) {
            Err(e) => Err(e),
            Ok((entry, next)) => {
                f.pos = next;
                Ok(entry)
            },
        }
    }
}

/// The views of a sequence of entries.
pub open spec fn entry_views(entries: Seq<TocEntry>) -> Seq<TocEntryView> {
    entries.map_values(|e: TocEntry| e@)
}

/// The first `count` entries of `data` from `pos`, and the position behind
/// them; the error of the first that cannot be decoded.
pub open spec fn entries_at(data: Seq<u8>, pos: usize, cfg: ReadConfig, count: nat) -> Result<
    (Seq<TocEntryView>, usize),
    ArchiveError,
>
    decreases count,
{
    if count == 0 {
        Ok((Seq::empty(), pos))
    } else {
        match entries_at(data, pos, cfg, (count - 1) as nat) {
            Err(e) => Err(e),
            Ok((earlier, at)) => match entry_at_spec(data, at, cfg) {
                Err(e) => Err(e),
                Ok((entry, next)) => Ok((earlier.push(entry), next)),
            },
        }
    }
}

/// Once one entry cannot be decoded, no longer run of entries can.
pub proof fn entries_at_keeps_failing(data: Seq<u8>, pos: usize, cfg: ReadConfig, n: nat, m: nat)
    requires
        n <= m,
        entries_at(data, pos, cfg, n) is Err,
    ensures
        entries_at(data, pos, cfg, m) == entries_at(data, pos, cfg, n),
    decreases m,
{
    if n < m {
        entries_at_keeps_failing(data, pos, cfg, n, (m - 1) as nat);
    }
}

/// The table of contents of `data` at `pos`: an integer count, which must
/// not be negative, and that many entries.
pub open spec fn toc_at_spec(data: Seq<u8>, pos: usize, cfg: ReadConfig) -> Result<
    (Seq<TocEntryView>, usize),
    ArchiveError,
> {
    match int_at_spec(data, pos, cfg.int_size) {
        Err(e) => Err(ArchiveError::InvalidData(Field::TocCount, e)),
        Ok((count, first)) => {
            if count < 0 {
                Err(ArchiveError::InvalidData(Field::TocCount, DecodeError::InvalidLength))
            } else {
                entries_at(data, first, cfg, count as nat)
            }
        },
    }
}

/// A table of contents whose count reads as zero has no entries and ends
/// where its count ends.
pub proof fn empty_toc_has_no_entries(data: Seq<u8>, pos: usize, cfg: ReadConfig)
    requires
        int_at_spec(data, pos, cfg.int_size) is Ok,
        int_at_spec(data, pos, cfg.int_size)->Ok_0.0 == 0,
    ensures
        toc_at_spec(data, pos, cfg) == Ok::<(Seq<TocEntryView>, usize), ArchiveError>(
            (Seq::empty(), int_at_spec(data, pos, cfg.int_size)->Ok_0.1),
        ),
{
}

/// Decodes the table of contents of `data` at `pos`; gives the entries in
/// the order of the archive and the position behind the last.
pub fn toc_at(data: &[u8], pos: usize, cfg: &ReadConfig) -> (r: Result<
    (Vec<TocEntry>, usize),
    ArchiveError,
>)
    ensures
        match toc_at_spec(data@, pos, *cfg) {
            Ok((entries, next)) => r is Ok && entry_views(r->Ok_0.0@) == entries && r->Ok_0.1
                == next,
            Err(e) => r is Err && r->Err_0 == e,
        },
{
    let (count, first) = match int_at(data, pos, cfg.int_size) {
        Err(e) => {
            return Err(ArchiveError::InvalidData(Field::TocCount, e));
        },
        Ok(v) => v,
    };
    if count < 0 {
        return Err(ArchiveError::InvalidData(Field::TocCount, DecodeError::InvalidLength));
    }
    let mut entries: Vec<TocEntry> = Vec::new();
    let mut at: usize = first;
    let mut i: i64 = 0;
    assert(entry_views(entries@) =~= Seq::<TocEntryView>::empty());
    while i < count
        invariant
            0 <= i <= count,
            toc_at_spec(data@, pos, *cfg) == entries_at(data@, first, *cfg, count as nat),
            entries_at(data@, first, *cfg, i as nat) == Ok::<(Seq<TocEntryView>, usize), ArchiveError>(
                (entry_views(entries@), at),
            ),
        decreases count - i,
    {
        match entry_at(data, at, cfg) {
            Err(e) => {
                proof {
                    assert(entries_at(data@, first, *cfg, (i + 1) as nat) == Err::<
                        (Seq<TocEntryView>, usize),
                        ArchiveError,
                    >(e));
                    entries_at_keeps_failing(data@, first, *cfg, (i + 1) as nat, count as nat);
                }
                return Err(e);
            },
            Ok((entry, next)) => {
                let ghost before = entries@;
                entries.push(entry);
                assert(entry_views(entries@) =~= entry_views(before).push(entry@));
                at = next;
            },
        }
        i += 1;
    }
    Ok((entries, at))
}

/// Reads and decodes the table of contents. A failure leaves the cursor
/// where it was.
pub fn read_toc(f: &mut ByteSource, cfg: &ReadConfig) -> (r: Result<Vec<TocEntry>, ArchiveError>)
    ensures
        final(f).data == old(f).data,
        match toc_at_spec(old(f).data@, old(f).pos, *cfg) {
            Ok((entries, next)) => r is Ok && entry_views(r->Ok_0@) == entries && final(f).pos
                == next,
            Err(e) => r is Err && r->Err_0 == e && final(f).pos == old(f).pos,
        },
{
    match toc_at(f.data.as_slice(), f.pos, cfg) {
        Err(e) => Err(e),
        Ok((entries, next)) => {
            f.pos = next;
            Ok(entries)
        },
    }
}

} // verus!
