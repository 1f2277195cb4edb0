//! Sector-addressed archive container.
//!
//! An archive is a flat table of 8-byte `(start_sector, end_sector)`
//! pairs starting at offset 0, terminated by the first all-zero pair
//! after at least one real entry, followed by sector-aligned payload.
//! Sizes are in 2048-byte sectors and `end_sector` is exclusive.

use vstd::prelude::*;

use crate::bytes::{le32, read_le32};
use crate::PsxError;

verus! {

/// Sector size used by the archive layout.
pub const SECTOR_SIZE: usize = 2048;

/// Hard cap on the number of table entries.
pub const MAX_ENTRIES: usize = 10000;

/// Archive file-table entry: a file's sector range.
#[derive(Debug, Clone, Copy, PartialEq, Eq, Structural)]
pub struct DatEntry {
    /// Starting sector number (multiply by 2048 for the byte offset).
    pub start_sector: u32,
    /// Ending sector number, exclusive.
    pub end_sector: u32,
}

/// Byte offset of an entry's data in the archive.
pub open spec fn spec_byte_offset(e: DatEntry) -> int {
    e.start_sector * 2048
}

/// Byte size of an entry's data (zero for an empty or inverted range).
pub open spec fn spec_byte_size(e: DatEntry) -> int {
    if e.end_sector > e.start_sector {
        (e.end_sector - e.start_sector) * 2048
    } else {
        0
    }
}

impl DatEntry {
    /// Byte offset of this entry's data in the archive.
    pub fn byte_offset(&self) -> (r: usize)
        requires
            spec_byte_offset(*self) <= usize::MAX,
        ensures
            r == spec_byte_offset(*self),
    {
        self.start_sector as usize * SECTOR_SIZE
    }

    /// Size of this entry's data in bytes.
    pub fn byte_size(&self) -> (r: usize)
        requires
            spec_byte_size(*self) <= usize::MAX,
        ensures
            r == spec_byte_size(*self),
    {
        if self.end_sector > self.start_sector {
            (self.end_sector - self.start_sector) as usize * SECTOR_SIZE
        } else {
            0
        }
    }

    /// Byte range of this entry's data as `(offset, size)`.
    pub fn byte_range(&self) -> (r: (usize, usize))
        requires
            spec_byte_offset(*self) <= usize::MAX,
            spec_byte_size(*self) <= usize::MAX,
        ensures
            r.0 == spec_byte_offset(*self),
            r.1 == spec_byte_size(*self),
    {
        (self.byte_offset(), self.byte_size())
    }

    /// Number of sectors this entry covers.
    pub fn sector_count(&self) -> (r: u32)
        ensures
            self.end_sector > self.start_sector ==> r == self.end_sector - self.start_sector,
            self.end_sector <= self.start_sector ==> r == 0,
    {
        if self.end_sector > self.start_sector {
            self.end_sector - self.start_sector
        } else {
            0
        }
    }
}

/// The file table read from `d` starting at `o` with `count` entries
/// already taken: the remaining entries plus the table's end offset.
///
/// The table ends at the end of input, at an entry whose byte range
/// exceeds double the buffer length (corruption guard), or at an
/// all-zero pair after the first entry; more than `MAX_ENTRIES`
/// entries is an error.
pub open spec fn spec_dat_table(d: Seq<u8>, o: int, count: int) -> Result<
    (Seq<DatEntry>, int),
    PsxError,
>
    decreases d.len() - o when 0 <= o
{
    if o < 0 || o + 8 > d.len() {
        Result::Ok((Seq::empty(), o))
    } else {
        let e = DatEntry { start_sector: le32(d, o), end_sector: le32(d, o + 4) };
        if spec_byte_offset(e) + spec_byte_size(e) > 2 * d.len() {
            Result::Ok((Seq::empty(), o))
        } else if count > 0 && e.start_sector == 0 && e.end_sector == 0 {
            Result::Ok((Seq::empty(), o))
        } else if count + 1 > 10000 {
            Result::Err(PsxError::InvalidField)
        } else {
            match spec_dat_table(d, o + 8, count + 1) {
                Result::Ok((rest, ts)) => Result::Ok((seq![e] + rest, ts)),
                Result::Err(x) => Result::Err(x),
            }
        }
    }
}

/// What parsing archive bytes `d` yields: the entry list and table
/// size, or the error.
pub open spec fn spec_parse_dat(d: Seq<u8>) -> Result<(Seq<DatEntry>, int), PsxError> {
    if d.len() < 16 {
        Result::Err(PsxError::Truncated)
    } else {
        match spec_dat_table(d, 0, 0) {
            Result::Err(x) => Result::Err(x),
            Result::Ok((es, ts)) => if es.len() == 0 {
                Result::Err(PsxError::InvalidField)
            } else {
                Result::Ok((es, ts))
            },
        }
    }
}

/// Parsed archive: the source bytes plus the decoded file table.
pub struct DatArchive<'a> {
    data: &'a [u8],
    entries: Vec<DatEntry>,
    table_size: usize,
}

impl<'a> DatArchive<'a> {
    /// The archive's source bytes.
    pub closed spec fn spec_data(&self) -> Seq<u8> {
        self.data@
    }

    /// The decoded file table.
    pub closed spec fn spec_entries(&self) -> Seq<DatEntry> {
        self.entries@
    }

    /// The size of the file table in bytes.
    pub closed spec fn spec_table_size(&self) -> int {
        self.table_size as int
    }

    /// The table is the one the source bytes describe.
    pub closed spec fn wf(&self) -> bool {
        spec_parse_dat(self.data@) == Result::<(Seq<DatEntry>, int), PsxError>::Ok(
            (self.entries@, self.table_size as int),
        )
    }

    /// Parse an archive's file table.
    ///
    /// Succeeds exactly when the input holds at least 16 bytes, the
    /// table stays within the entry cap, and at least one entry
    /// precedes the terminator.
    pub fn parse(data: &'a [u8]) -> (r: Result<Self, PsxError>)
        ensures
            r is Ok <==> spec_parse_dat(data@) is Ok,
            r matches Ok(a) ==> a.wf() && spec_parse_dat(data@) == Result::<
                (Seq<DatEntry>, int),
                PsxError,
            >::Ok((a.spec_entries(), a.spec_table_size())) && a.spec_data() == data@,
            r matches Err(e) ==> spec_parse_dat(data@) == Result::<
                (Seq<DatEntry>, int),
                PsxError,
            >::Err(e),
    {
        let n = data.len();
        if n < 16 {
            return Err(PsxError::Truncated);
        }
        let mut entries: Vec<DatEntry> = Vec::new();
        let mut offset: usize = 0;
        loop
            invariant
                0 <= offset <= n,
                16 <= n == data@.len(),
                entries@.len() <= 10000,
                spec_dat_table(data@, 0, 0) == match spec_dat_table(
                    data@,
                    offset as int,
                    entries@.len() as int,
                ) {
                    Result::Ok((rest, ts)) => Result::<(Seq<DatEntry>, int), PsxError>::Ok(
                        (entries@ + rest, ts),
                    ),
                    Result::Err(x) => Result::<(Seq<DatEntry>, int), PsxError>::Err(x),
                },
            ensures
                spec_dat_table(data@, 0, 0) == Result::<(Seq<DatEntry>, int), PsxError>::Ok(
                    (entries@, offset as int),
                ),
            decreases data@.len() - offset,
        {
            if offset > n - 8 {
                assert(spec_dat_table(data@, offset as int, entries@.len() as int) == Result::<
                    (Seq<DatEntry>, int),
                    PsxError,
                >::Ok((Seq::empty(), offset as int)));
                assert(entries@ + Seq::<DatEntry>::empty() =~= entries@);
                break ;
            }
            let start_sector = read_le32(data, offset);
            let end_sector = read_le32(data, offset + 4);
            let entry = DatEntry { start_sector, end_sector };
            let byte_end: u64 = byte_end_u64(&entry);
            if (byte_end as u128) > 2 * (n as u128) {
                assert(entries@ + Seq::<DatEntry>::empty() =~= entries@);
                break ;
            }
            if entries.len() > 0 && start_sector == 0 && end_sector == 0 {
                assert(entries@ + Seq::<DatEntry>::empty() =~= entries@);
                break ;
            }
            if entries.len() + 1 > MAX_ENTRIES {
                assert(spec_dat_table(data@, 0, 0) is Err);
                return Err(PsxError::InvalidField);
            }
            let ghost e0 = entries@;
            entries.push(entry);
            proof {
                let next = spec_dat_table(data@, offset as int + 8, e0.len() as int + 1);
                if let Result::Ok((rest, ts)) = next {
                    assert(e0 + (seq![entry] + rest) =~= entries@ + rest);
                }
            }
            offset = offset + 8;
        }
        if entries.len() == 0 {
            return Err(PsxError::InvalidField);
        }
        Ok(DatArchive { data, entries, table_size: offset })
    }

    /// Number of files in the archive.
    pub fn entry_count(&self) -> (r: usize)
        ensures
            r == self.spec_entries().len(),
    {
        self.entries.len()
    }

    /// The entry at `index`, if the table has one.
    pub fn get_entry(&self, index: usize) -> (r: Option<&DatEntry>)
        ensures
            r is Some <==> index < self.spec_entries().len(),
            r matches Some(e) ==> *e == self.spec_entries()[index as int],
    {
        if index < self.entries.len() {
            Some(&self.entries[index])
        } else {
            None
        }
    }

    /// All table entries.
    pub fn entries(&self) -> (r: &Vec<DatEntry>)
        ensures
            r@ == self.spec_entries(),
    {
        &self.entries
    }

    /// Size of the file table in bytes.
    pub fn table_size(&self) -> (r: usize)
        ensures
            r == self.spec_table_size(),
    {
        self.table_size
    }

    /// Slice out the data of entry `index`.
    ///
    /// Fails with `OutOfBounds` when the index is past the table or
    /// the entry's byte range runs past the archive's end.
    pub fn extract_file(&self, index: usize) -> (r: Result<&'a [u8], PsxError>)
        ensures
            r is Ok <==> index < self.spec_entries().len() && spec_byte_offset(
                self.spec_entries()[index as int],
            ) + spec_byte_size(self.spec_entries()[index as int]) <= self.spec_data().len(),
            r matches Ok(v) ==> v@ == self.spec_data().subrange(
                spec_byte_offset(self.spec_entries()[index as int]),
                spec_byte_offset(self.spec_entries()[index as int]) + spec_byte_size(
                    self.spec_entries()[index as int],
                ),
            ),
            r matches Err(e) ==> e == PsxError::OutOfBounds,
    {
        if index >= self.entries.len() {
            return Err(PsxError::OutOfBounds);
        }
        let entry = self.entries[index];
        let end: u64 = byte_end_u64(&entry);
        if end > self.data.len() as u64 {
            return Err(PsxError::OutOfBounds);
        }
        let offset = entry.start_sector as usize * SECTOR_SIZE;
        let size = if entry.end_sector > entry.start_sector {
            (entry.end_sector - entry.start_sector) as usize * SECTOR_SIZE
        } else {
            0
        };
        Ok(&self.data[offset..offset + size])
    }

    /// Copy out the data of entry `index`.
    pub fn extract_file_owned(&self, index: usize) -> (r: Result<Vec<u8>, PsxError>)
        ensures
            r is Ok <==> index < self.spec_entries().len() && spec_byte_offset(
                self.spec_entries()[index as int],
            ) + spec_byte_size(self.spec_entries()[index as int]) <= self.spec_data().len(),
            r matches Ok(v) ==> v@ == self.spec_data().subrange(
                spec_byte_offset(self.spec_entries()[index as int]),
                spec_byte_offset(self.spec_entries()[index as int]) + spec_byte_size(
                    self.spec_entries()[index as int],
                ),
            ),
            r matches Err(e) ==> e == PsxError::OutOfBounds,
    {
        match self.extract_file(index) {
            Ok(slice) => {
                let mut out: Vec<u8> = Vec::new();
                let mut i: usize = 0;
                while i < slice.len()
                    invariant
                        0 <= i <= slice@.len(),
                        out@ =~= slice@.take(i as int),
                    decreases slice@.len() - i,
                {
                    out.push(slice[i]);
                    i += 1;
                }
                assert(out@ =~= slice@);
                Ok(out)
            },
            Err(e) => Err(e),
        }
    }
}

/// The exclusive byte end of an entry's range, computed without
/// overflow.
fn byte_end_u64(e: &DatEntry) -> (r: u64)
    ensures
        r == spec_byte_offset(*e) + spec_byte_size(*e),
{
    let off = e.start_sector as u64 * 2048;
    let size = if e.end_sector > e.start_sector {
        (e.end_sector - e.start_sector) as u64 * 2048
    } else {
        0
    };
    off + size
}

} // verus!
