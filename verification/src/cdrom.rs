//! CD-ROM ISO 9660 / CD-XA filesystem reader.
//!
//! A disc image is a run of raw 2352-byte sectors; the 2048-byte data
//! window of each sector starts 24 bytes in.  The primary volume
//! descriptor at sector 16 carries the root directory's extent, and
//! directory byte runs are walked record by record to resolve paths.

pub mod streaming;

use vstd::prelude::*;
use vstd::string::StringSliceAdditionalSpecFns;

use crate::bytes::{le32, read_le32};
use crate::PsxError;

verus! {

/// Raw CD-ROM sector size (Mode 2).
pub const SECTOR_SIZE: usize = 2352;

/// Data bytes per sector (Mode 2 Form 1).
pub const DATA_SIZE: usize = 2048;

/// The primary volume descriptor lives at this sector.
pub const PVD_SECTOR: u32 = 16;

/// Directory entry in the ISO 9660 filesystem.
///
/// `name` holds the file identifier bytes with any `;version` suffix
/// stripped; identifiers on a disc are byte strings, not guaranteed to
/// be valid UTF-8.
#[derive(Debug, Clone)]
pub struct DirectoryEntry {
    /// File identifier bytes (version suffix stripped).
    pub name: Vec<u8>,
    /// File size in bytes.
    pub size: u32,
    /// Starting sector (logical block address).
    pub lba: u32,
    /// Whether the entry is a directory.
    pub is_dir: bool,
}

/// Ghost model of a directory entry.
pub struct EntryModel {
    /// File identifier bytes (version suffix stripped).
    pub name: Seq<u8>,
    /// File size in bytes.
    pub size: u32,
    /// Starting sector.
    pub lba: u32,
    /// Whether the entry is a directory.
    pub is_dir: bool,
}

impl View for DirectoryEntry {
    type V = EntryModel;

    open spec fn view(&self) -> EntryModel {
        EntryModel { name: self.name@, size: self.size, lba: self.lba, is_dir: self.is_dir }
    }
}

impl DeepView for DirectoryEntry {
    type V = EntryModel;

    open spec fn deep_view(&self) -> EntryModel {
        self@
    }
}

/// Sector `lba` lies entirely inside the image.
pub open spec fn sector_in_image(image: Seq<u8>, lba: int) -> bool {
    lba * 2352 + 2352 <= image.len()
}

/// The data window of sector `lba`.
pub open spec fn sector_data(image: Seq<u8>, lba: int) -> Seq<u8> {
    image.subrange(lba * 2352 + 24, lba * 2352 + 24 + 2048)
}

/// Byte `k` of the data stored from sector `lba` onward.
pub open spec fn data_byte(image: Seq<u8>, lba: int, k: int) -> u8 {
    image[(lba + k / 2048) * 2352 + 24 + k % 2048]
}

/// All sectors covering `size` bytes starting at `lba` lie in the image.
pub open spec fn extent_in_image(image: Seq<u8>, lba: int, size: int) -> bool {
    forall|s: int| 0 <= s < (size + 2047) / 2048 ==> #[trigger] sector_in_image(image, lba + s)
}

/// The `size` bytes of data stored from sector `lba` onward.
pub open spec fn extent_bytes(image: Seq<u8>, lba: int, size: int) -> Seq<u8> {
    Seq::new(size as nat, |k: int| data_byte(image, lba, k))
}

/// The image holds a well-formed primary volume descriptor: the type
/// byte is 1 and the `CD001` signature follows it.
pub open spec fn pvd_valid(image: Seq<u8>) -> bool {
    &&& sector_in_image(image, 16)
    &&& sector_data(image, 16)[0] == 1u8
    &&& sector_data(image, 16)[1] == 0x43u8  // 'C'
    &&& sector_data(image, 16)[2] == 0x44u8  // 'D'
    &&& sector_data(image, 16)[3] == 0x30u8  // '0'
    &&& sector_data(image, 16)[4] == 0x30u8  // '0'
    &&& sector_data(image, 16)[5] == 0x31u8  // '1'
}

/// Root directory extent recorded in the volume descriptor: the root
/// record starts at offset 156 of the descriptor's data window, with
/// the LBA at +2 and the byte size at +10, both little-endian.
pub open spec fn spec_root_lba(image: Seq<u8>) -> u32 {
    le32(sector_data(image, 16), 158)
}

/// Root directory size recorded in the volume descriptor.
pub open spec fn spec_root_size(image: Seq<u8>) -> u32 {
    le32(sector_data(image, 16), 166)
}

/// Index of the first `;` in `name` at or after `i`, or `name.len()`
/// if none occurs.
pub open spec fn first_semi_from(name: Seq<u8>, i: int) -> int
    decreases name.len() - i,
{
    if i < 0 || i >= name.len() {
        name.len() as int
    } else if name[i] == 0x3bu8 {
        i
    } else {
        first_semi_from(name, i + 1)
    }
}

/// The identifier bytes with any `;version` suffix removed.
pub open spec fn strip_version(name: Seq<u8>) -> Seq<u8> {
    name.take(first_semi_from(name, 0))
}

/// ASCII lower-casing of one byte.
pub open spec fn lower_byte(b: u8) -> u8 {
    if 0x41u8 <= b && b <= 0x5au8 {
        (b + 0x20) as u8
    } else {
        b
    }
}

/// Case-insensitive (ASCII) equality of two identifier byte strings.
pub open spec fn names_equal_ci(a: Seq<u8>, b: Seq<u8>) -> bool {
    a.len() == b.len() && (forall|i: int| 0 <= i < a.len() ==> lower_byte(a[i]) == lower_byte(b[i]))
}

/// The record starting at offset `o` of directory data `d` is complete:
/// its self-described length holds the fixed 33-byte prefix plus the
/// identifier, and lies inside the byte run.
pub open spec fn record_wf(d: Seq<u8>, o: int) -> bool {
    &&& d[o] >= 33
    &&& o + d[o] <= d.len()
    &&& 33 + d[o + 32] <= d[o]
}

/// The identifier bytes of the record at `o`, version suffix stripped.
pub open spec fn record_name(d: Seq<u8>, o: int) -> Seq<u8> {
    strip_version(d.subrange(o + 33, o + 33 + d[o + 32]))
}

/// A record is a `self`/`parent` pseudo-entry or has an empty stripped
/// name; such records produce no directory entry.
pub open spec fn record_skipped(d: Seq<u8>, o: int) -> bool {
    record_name(d, o).len() == 0 || record_name(d, o) == seq![0u8] || record_name(d, o) == seq![
        1u8,
    ]
}

/// The entry described by the record at `o`: LBA at +2 and size at +10
/// (both little-endian), flags at +25 (bit 1 marks a directory), name
/// length at +32 and name bytes from +33.
pub open spec fn record_entry(d: Seq<u8>, o: int) -> EntryModel {
    EntryModel {
        name: record_name(d, o),
        size: le32(d, o + 10),
        lba: le32(d, o + 2),
        is_dir: d[o + 25] & 0x02u8 != 0,
    }
}

/// The entries listed by directory data `d` from offset `o` on.
///
/// A record length of zero skips to the next 2048-byte boundary
/// (directories are sector-padded); a malformed record ends the
/// listing; pseudo-entries are dropped.
pub open spec fn spec_dir_entries(d: Seq<u8>, o: int) -> Seq<EntryModel>
    decreases d.len() - o when 0 <= o
{
    if o < 0 || o >= d.len() {
        Seq::empty()
    } else if d[o] == 0 {
        let next = (o / 2048 + 1) * 2048;
        if next >= d.len() {
            Seq::empty()
        } else {
            spec_dir_entries(d, next)
        }
    } else if !record_wf(d, o) {
        Seq::empty()
    } else if record_skipped(d, o) {
        spec_dir_entries(d, o + d[o])
    } else {
        seq![record_entry(d, o)] + spec_dir_entries(d, o + d[o])
    }
}

/// First entry among `es` whose name matches `name` case-insensitively,
/// restricted to directories when `dirs_only` is set.
pub open spec fn spec_find_entry(es: Seq<EntryModel>, name: Seq<u8>, dirs_only: bool) -> Option<
    EntryModel,
>
    decreases es.len(),
{
    if es.len() == 0 {
        Option::None
    } else if (es[0].is_dir || !dirs_only) && names_equal_ci(es[0].name, name) {
        Option::Some(es[0])
    } else {
        spec_find_entry(es.drop_first(), name, dirs_only)
    }
}

/// Path components of `p`: maximal runs of non-`/` bytes, empty runs
/// dropped.  `cur` accumulates the run in progress.
pub open spec fn spec_components_from(p: Seq<u8>, i: int, cur: Seq<u8>) -> Seq<Seq<u8>>
    decreases p.len() - i,
{
    if i < 0 || i >= p.len() {
        if cur.len() > 0 {
            seq![cur]
        } else {
            Seq::empty()
        }
    } else if p[i] == 0x2fu8 {
        (if cur.len() > 0 {
            seq![cur]
        } else {
            Seq::empty()
        }) + spec_components_from(p, i + 1, Seq::empty())
    } else {
        spec_components_from(p, i + 1, cur.push(p[i]))
    }
}

/// Path components of `p` (split on `/`, empty components dropped).
pub open spec fn spec_components(p: Seq<u8>) -> Seq<Seq<u8>> {
    spec_components_from(p, 0, Seq::empty())
}

/// Resolve components `comps[i..]` starting from the directory extent
/// `(lba, size)`: each step lists the directory and looks the next
/// component up among its subdirectories.
pub open spec fn spec_resolve(
    image: Seq<u8>,
    lba: u32,
    size: u32,
    comps: Seq<Seq<u8>>,
    i: int,
) -> Result<(u32, u32), PsxError>
    decreases comps.len() - i,
{
    if i < 0 || i >= comps.len() {
        Result::Ok((lba, size))
    } else if !extent_in_image(image, lba as int, size as int) {
        Result::Err(PsxError::OutOfBounds)
    } else {
        match spec_find_entry(
            spec_dir_entries(extent_bytes(image, lba as int, size as int), 0),
            comps[i],
            true,
        ) {
            Option::None => Result::Err(PsxError::NotFound),
            Option::Some(e) => spec_resolve(image, e.lba, e.size, comps, i + 1),
        }
    }
}

/// What listing directory `path` over `image` yields, given the root
/// extent from the volume descriptor.
pub open spec fn spec_read_dir(image: Seq<u8>, pb: Seq<u8>) -> Result<Seq<EntryModel>, PsxError> {
    match spec_resolve(
        image,
        spec_root_lba(image),
        spec_root_size(image),
        spec_components(pb),
        0,
    ) {
        Result::Err(e) => Result::Err(e),
        Result::Ok((lba, size)) => if !extent_in_image(image, lba as int, size as int) {
            Result::Err(PsxError::OutOfBounds)
        } else {
            Result::Ok(spec_dir_entries(extent_bytes(image, lba as int, size as int), 0))
        },
    }
}

/// What reading file `path` over `image` yields: resolve the directory
/// part, look the file name up, reject directories, read its extent.
pub open spec fn spec_read_file(image: Seq<u8>, pb: Seq<u8>) -> Result<Seq<u8>, PsxError> {
    let comps = spec_components(pb);
    if comps.len() == 0 {
        Result::Err(PsxError::NotFound)
    } else {
        match spec_resolve(
            image,
            spec_root_lba(image),
            spec_root_size(image),
            comps.drop_last(),
            0,
        ) {
            Result::Err(e) => Result::Err(e),
            Result::Ok((lba, size)) => if !extent_in_image(image, lba as int, size as int) {
                Result::Err(PsxError::OutOfBounds)
            } else {
                match spec_find_entry(
                    spec_dir_entries(extent_bytes(image, lba as int, size as int), 0),
                    comps.last(),
                    false,
                ) {
                    Option::None => Result::Err(PsxError::NotFound),
                    Option::Some(e) => if e.is_dir {
                        Result::Err(PsxError::InvalidField)
                    } else if !extent_in_image(image, e.lba as int, e.size as int) {
                        Result::Err(PsxError::OutOfBounds)
                    } else {
                        Result::Ok(extent_bytes(image, e.lba as int, e.size as int))
                    },
                }
            },
        }
    }
}

/// PlayStation CD-ROM disc image, held in memory.
pub struct CdRom {
    data: Vec<u8>,
    root_dir_lba: u32,
    root_dir_size: u32,
}

impl View for CdRom {
    type V = Seq<u8>;

    closed spec fn view(&self) -> Seq<u8> {
        self.data@
    }
}

impl CdRom {
    /// The cached root extent matches the volume descriptor.
    pub closed spec fn wf(&self) -> bool {
        &&& pvd_valid(self@)
        &&& self.root_dir_lba == spec_root_lba(self@)
        &&& self.root_dir_size == spec_root_size(self@)
    }

    /// Build a reader from raw image bytes, validating the primary
    /// volume descriptor and caching the root directory extent.
    ///
    /// Fails with `OutOfBounds` when the image cannot hold sector 16,
    /// and with `InvalidSignature` when the descriptor is not a valid
    /// primary volume descriptor.
    pub fn from_image(data: Vec<u8>) -> (r: Result<Self, PsxError>)
        ensures
            r is Ok <==> pvd_valid(data@),
            r matches Ok(c) ==> c@ == data@ && c.wf(),
            r matches Err(e) ==> e == PsxError::OutOfBounds || e == PsxError::InvalidSignature,
            r matches Err(e) && e == PsxError::OutOfBounds ==> !sector_in_image(data@, 16),
    {
        if data.len() < 16 * SECTOR_SIZE + SECTOR_SIZE {
            return Err(PsxError::OutOfBounds);
        }
        let base = 16 * SECTOR_SIZE + 24;
        let ghost win = sector_data(data@, 16);
        assert(forall|k: int| 0 <= k < 2048 ==> win[k] == data@[16 * 2352 + 24 + k]);
        let type_byte = data[base];
        let c0 = data[base + 1];
        let c1 = data[base + 2];
        let c2 = data[base + 3];
        let c3 = data[base + 4];
        let c4 = data[base + 5];
        if type_byte != 1 || c0 != 0x43 || c1 != 0x44 || c2 != 0x30 || c3 != 0x30 || c4 != 0x31 {
            return Err(PsxError::InvalidSignature);
        }
        let root_dir_lba = read_le32(&data, base + 158);
        let root_dir_size = read_le32(&data, base + 166);
        assert(root_dir_lba == spec_root_lba(data@));
        assert(root_dir_size == spec_root_size(data@));
        Ok(CdRom { data, root_dir_lba, root_dir_size })
    }

    /// Total number of whole raw sectors in the image.
    pub fn sector_count(&self) -> (r: usize)
        ensures
            r == self@.len() / 2352,
    {
        self.data.len() / SECTOR_SIZE
    }

    /// Read the 2048-byte data window of the sector at `lba`.
    ///
    /// Fails with `OutOfBounds` exactly when the sector does not lie
    /// entirely inside the image.
    pub fn read_sector(&self, lba: u32) -> (r: Result<Vec<u8>, PsxError>)
        ensures
            r is Ok <==> sector_in_image(self@, lba as int),
            r matches Ok(v) ==> v@ == sector_data(self@, lba as int),
            r matches Err(e) ==> e == PsxError::OutOfBounds,
    {
        let n = self.data.len();
        if (lba as u64) * (SECTOR_SIZE as u64) + (SECTOR_SIZE as u64) > n as u64 {
            return Err(PsxError::OutOfBounds);
        }
        let offset = (lba as u64 * SECTOR_SIZE as u64) as usize + 24;
        let mut out: Vec<u8> = Vec::new();
        let mut j: usize = 0;
        while j < DATA_SIZE
            invariant
                0 <= j <= 2048,
                offset == lba * 2352 + 24,
                n == self@.len(),
                offset + 2048 <= n,
                out@.len() == j,
                forall|k: int| 0 <= k < j ==> out@[k] == self@[offset + k],
            decreases 2048 - j,
        {
            out.push(self.data[offset + j]);
            j += 1;
        }
        assert(out@ =~= sector_data(self@, lba as int));
        Ok(out)
    }

    /// Read `size` bytes of data starting at sector `start_lba`,
    /// concatenating consecutive data windows and trimming the final
    /// sector to the requested length.
    ///
    /// Fails with `OutOfBounds` exactly when some covered sector lies
    /// outside the image.
    pub fn read_data(&self, start_lba: u32, size: u32) -> (r: Result<Vec<u8>, PsxError>)
        ensures
            r is Ok <==> extent_in_image(self@, start_lba as int, size as int),
            r matches Ok(v) ==> v@ == extent_bytes(self@, start_lba as int, size as int),
            r matches Err(e) ==> e == PsxError::OutOfBounds,
    {
        let n = self.data.len();
        let sector_count = (size as u64 + 2047) / 2048;
        let mut out: Vec<u8> = Vec::new();
        let mut s: u64 = 0;
        while s < sector_count
            invariant
                n == self@.len(),
                0 <= s <= sector_count,
                sector_count == (size as int + 2047) / 2048,
                forall|t: int| 0 <= t < s ==> #[trigger] sector_in_image(self@, start_lba as int + t),
                out@.len() == if s * 2048 <= size as int {
                    s * 2048 as int
                } else {
                    size as int
                },
                forall|k: int|
                    0 <= k < out@.len() ==> out@[k] == data_byte(self@, start_lba as int, k),
            decreases sector_count - s,
        {
            assert(s * 2048 < size as int) by (nonlinear_arith)
                requires
                    0 <= s < sector_count,
                    sector_count == (size as int + 2047) / 2048,
                    0 <= size,
            ;
            let lba64 = start_lba as u64 + s;
            if lba64 * 2352 + 2352 > n as u64 {
                assert(!sector_in_image(self@, start_lba as int + s as int));
                assert(!extent_in_image(self@, start_lba as int, size as int));
                return Err(PsxError::OutOfBounds);
            }
            let base = (lba64 * 2352) as usize + 24;
            let remaining = size as u64 - s * 2048;
            let to_copy: usize = if remaining < 2048 {
                remaining as usize
            } else {
                2048
            };
            let mut j: usize = 0;
            while j < to_copy
                invariant
                    n == self@.len(),
                    0 <= j <= to_copy,
                    to_copy <= 2048,
                    base == (start_lba as int + s as int) * 2352 + 24,
                    base + 2048 <= n,
                    s * 2048 + to_copy <= size as int,
                    out@.len() == s * 2048 + j,
                    forall|k: int|
                        0 <= k < out@.len() ==> out@[k] == data_byte(self@, start_lba as int, k),
                decreases to_copy - j,
            {
                let ghost k = s as int * 2048 + j as int;
                assert(k / 2048 == s as int && k % 2048 == j as int) by (nonlinear_arith)
                    requires
                        k == s as int * 2048 + j as int,
                        0 <= j < 2048,
                        0 <= s,
                ;
                out.push(self.data[base + j]);
                j += 1;
            }
            s += 1;
        }
        assert(out@.len() == size as int) by {
            assert(sector_count * 2048 >= size as int) by (nonlinear_arith)
                requires
                    sector_count == (size as int + 2047) / 2048,
                    0 <= size as int,
            ;
        }
        assert(out@ =~= extent_bytes(self@, start_lba as int, size as int));
        Ok(out)
    }

    /// Parse the directory entries in byte run `d`.
    ///
    /// Walks self-describing records; a record length of zero skips to
    /// the next 2048-byte boundary, a malformed record ends the
    /// listing, and `self`/`parent` pseudo-entries are dropped.
    pub fn parse_directory_entries(d: &[u8]) -> (r: Vec<DirectoryEntry>)
        ensures
            r.deep_view() == spec_dir_entries(d@, 0),
    {
        let mut entries: Vec<DirectoryEntry> = Vec::new();
        let mut offset: usize = 0;
        loop
            invariant
                spec_dir_entries(d@, 0) == entries.deep_view() + spec_dir_entries(
                    d@,
                    offset as int,
                ),
            ensures
                spec_dir_entries(d@, 0) == entries.deep_view() + spec_dir_entries(
                    d@,
                    offset as int,
                ),
                spec_dir_entries(d@, offset as int) == Seq::<EntryModel>::empty(),
            decreases d@.len() - offset,
        {
            if offset >= d.len() {
                assert(spec_dir_entries(d@, offset as int) =~= Seq::<EntryModel>::empty());
                break ;
            }
            let record_len = d[offset] as usize;
            if record_len == 0 {
                let rem = DATA_SIZE - offset % DATA_SIZE;
                assert(offset + rem == (offset as int / 2048 + 1) * 2048);
                if rem >= d.len() - offset {
                    assert(spec_dir_entries(d@, offset as int) =~= Seq::<EntryModel>::empty());
                    break ;
                }
                offset = offset + rem;
            } else if record_len < 33 || record_len > d.len() || offset > d.len() - record_len {
                assert(!record_wf(d@, offset as int));
                assert(spec_dir_entries(d@, offset as int) =~= Seq::<EntryModel>::empty());
                break ;
            } else {
                let name_len = d[offset + 32] as usize;
                if 33 + name_len > record_len {
                    assert(!record_wf(d@, offset as int));
                    assert(spec_dir_entries(d@, offset as int) =~= Seq::<EntryModel>::empty());
                    break ;
                }
                let ghost dv0 = entries.deep_view();
                match Self::parse_directory_record(d, offset) {
                    Some(entry) => {
                        let ghost ev = entry@;
                        entries.push(entry);
                        assert(entries.deep_view() =~= dv0 + seq![ev]);
                        assert(spec_dir_entries(d@, offset as int) == seq![
                            record_entry(d@, offset as int),
                        ] + spec_dir_entries(d@, offset as int + record_len as int));
                    },
                    None => {
                        assert(spec_dir_entries(d@, offset as int) == spec_dir_entries(
                            d@,
                            offset as int + record_len as int,
                        ));
                    },
                }
                offset += record_len;
            }
        }
        assert(entries.deep_view() =~= spec_dir_entries(d@, 0));
        entries
    }

    /// Parse the single well-formed directory record at `o`, returning
    /// `None` for pseudo-entries and empty names.
    fn parse_directory_record(d: &[u8], o: usize) -> (r: Option<DirectoryEntry>)
        requires
            0 <= o < d@.len(),
            d@[o as int] != 0,
            record_wf(d@, o as int),
        ensures
            r is None <==> record_skipped(d@, o as int),
            r matches Some(e) ==> e@ == record_entry(d@, o as int),
    {
        let n = d.len();
        assert(o + d@[o as int] <= n && d@[o as int] >= 33);
        let lba = read_le32(d, o + 2);
        let size = read_le32(d, o + 10);
        let flags = d[o + 25];
        let is_dir = (flags & 0x02) != 0;
        let name_len = d[o + 32] as usize;
        assert(o + 33 + name_len <= n);
        let ghost raw = d@.subrange(o + 33, o + 33 + name_len);
        let mut name: Vec<u8> = Vec::new();
        let mut i: usize = 0;
        while i < name_len
            invariant_except_break
                0 <= i <= name_len,
                o + 33 + name_len <= d@.len(),
                d@.len() <= usize::MAX,
                raw == d@.subrange(o as int + 33, o as int + 33 + name_len as int),
                name@ =~= raw.take(i as int),
                first_semi_from(raw, 0) == first_semi_from(raw, i as int),
            ensures
                name@ =~= raw.take(first_semi_from(raw, 0)),
            decreases name_len - i,
        {
            let b = d[o + 33 + i];
            assert(b == raw[i as int]);
            if b == 0x3b {
                assert(first_semi_from(raw, i as int) == i);
                break ;
            }
            name.push(b);
            i += 1;
        }
        assert(name@ =~= record_name(d@, o as int));
        if name.len() == 0 {
            return None;
        }
        if name.len() == 1 && (name[0] == 0 || name[0] == 1) {
            assert(record_skipped(d@, o as int)) by {
                if name@[0] == 0u8 {
                    assert(name@ =~= seq![0u8]);
                } else {
                    assert(name@ =~= seq![1u8]);
                }
            }
            return None;
        }
        assert(!record_skipped(d@, o as int)) by {
            if record_name(d@, o as int) == seq![0u8] {
                assert(name@[0] == 0u8);
            }
            if record_name(d@, o as int) == seq![1u8] {
                assert(name@[0] == 1u8);
            }
        }
        Some(DirectoryEntry { name, size, lba, is_dir })
    }

    /// Find the first entry of `entries` matching `name`
    /// case-insensitively, restricted to directories when `dirs_only`
    /// is set; returns its `(lba, size, is_dir)`.
    fn find_entry(entries: &Vec<DirectoryEntry>, name: &[u8], dirs_only: bool) -> (r: Option<
        (u32, u32, bool),
    >)
        ensures
            r is Some <==> spec_find_entry(entries.deep_view(), name@, dirs_only) is Some,
            r matches Some(t) ==> spec_find_entry(entries.deep_view(), name@, dirs_only) matches Some(
                e,
            ) && t.0 == e.lba && t.1 == e.size && t.2 == e.is_dir,
    {
        let ghost dv = entries.deep_view();
        assert(dv.skip(0) =~= dv);
        let mut i: usize = 0;
        while i < entries.len()
            invariant
                0 <= i <= dv.len(),
                dv == entries.deep_view(),
                dv.len() == entries@.len(),
                spec_find_entry(dv, name@, dirs_only) == spec_find_entry(
                    dv.skip(i as int),
                    name@,
                    dirs_only,
                ),
            decreases dv.len() - i,
        {
            let ghost pre = dv.skip(i as int);
            assert(pre[0] == dv[i as int]);
            let e = &entries[i];
            if (e.is_dir || !dirs_only) && Self::names_match(&e.name, name) {
                assert(spec_find_entry(pre, name@, dirs_only) == Option::Some(dv[i as int]));
                return Some((e.lba, e.size, e.is_dir));
            }
            assert(pre.drop_first() =~= dv.skip(i as int + 1));
            i += 1;
        }
        assert(dv.skip(dv.len() as int) =~= Seq::<EntryModel>::empty());
        None
    }

    /// ASCII case-insensitive equality of two identifier byte strings.
    fn names_match(a: &Vec<u8>, b: &[u8]) -> (r: bool)
        ensures
            r == names_equal_ci(a@, b@),
    {
        if a.len() != b.len() {
            return false;
        }
        let mut i: usize = 0;
        while i < a.len()
            invariant
                0 <= i <= a@.len(),
                a@.len() == b@.len(),
                forall|j: int| 0 <= j < i ==> lower_byte(a@[j]) == lower_byte(b@[j]),
            decreases a@.len() - i,
        {
            let mut x = a[i];
            let mut y = b[i];
            if 0x41 <= x && x <= 0x5a {
                x = x + 0x20;
            }
            if 0x41 <= y && y <= 0x5a {
                y = y + 0x20;
            }
            if x != y {
                return false;
            }
            i += 1;
        }
        true
    }

    /// Split a path into its non-empty `/`-separated components.
    fn split_path(path: &[u8]) -> (r: Vec<Vec<u8>>)
        ensures
            r.deep_view() == spec_components(path@),
    {
        let mut acc: Vec<Vec<u8>> = Vec::new();
        let mut cur: Vec<u8> = Vec::new();
        let mut i: usize = 0;
        while i < path.len()
            invariant
                0 <= i <= path@.len(),
                spec_components(path@) == acc.deep_view() + spec_components_from(
                    path@,
                    i as int,
                    cur@,
                ),
            decreases path@.len() - i,
        {
            let b = path[i];
            if b == 0x2f {
                if cur.len() > 0 {
                    let ghost a0 = acc.deep_view();
                    let ghost c0 = cur@;
                    acc.push(cur);
                    assert(acc.deep_view() =~~= a0 + seq![c0]);
                    cur = Vec::new();
                } else {
                    cur = Vec::new();
                }
            } else {
                cur.push(b);
            }
            i += 1;
        }
        if cur.len() > 0 {
            let ghost a0 = acc.deep_view();
            let ghost c0 = cur@;
            acc.push(cur);
            assert(acc.deep_view() =~~= a0 + seq![c0]);
        }
        assert(acc.deep_view() =~= spec_components(path@));
        acc
    }

    /// Resolve `comps` from the root directory down to a directory
    /// extent.
    fn find_directory(&self, comps: &Vec<Vec<u8>>) -> (r: Result<(u32, u32), PsxError>)
        requires
            self.wf(),
        ensures
            r == spec_resolve(
                self@,
                spec_root_lba(self@),
                spec_root_size(self@),
                comps.deep_view(),
                0,
            ),
    {
        let ghost cv = comps.deep_view();
        let mut lba = self.root_dir_lba;
        let mut size = self.root_dir_size;
        let mut i: usize = 0;
        while i < comps.len()
            invariant
                0 <= i <= cv.len(),
                cv == comps.deep_view(),
                cv.len() == comps@.len(),
                self.wf(),
                spec_resolve(self@, spec_root_lba(self@), spec_root_size(self@), cv, 0)
                    == spec_resolve(self@, lba, size, cv, i as int),
            decreases cv.len() - i,
        {
            let data = match self.read_data(lba, size) {
                Ok(v) => v,
                Err(_) => {
                    return Err(PsxError::OutOfBounds);
                },
            };
            let entries = Self::parse_directory_entries(&data);
            assert(comps@[i as int].deep_view() =~= comps@[i as int]@);
            assert(comps@[i as int]@ == cv[i as int]);
            match Self::find_entry(&entries, &comps[i], true) {
                Some(t) => {
                    lba = t.0;
                    size = t.1;
                },
                None => {
                    return Err(PsxError::NotFound);
                },
            }
            i += 1;
        }
        Ok((lba, size))
    }

    /// List the directory at `path`.
    ///
    /// `path` components are separated by `/`; empty components are
    /// ignored, so `"/"` and `""` both name the root.  The result is
    /// `Ok` exactly when every traversed directory extent lies in the
    /// image and every component resolves to a subdirectory.
    pub fn read_dir(&self, path: &str) -> (r: Result<Vec<DirectoryEntry>, PsxError>)
        requires
            self.wf(),
        ensures
            r is Ok <==> spec_read_dir(self@, path.spec_bytes()) is Ok,
            r matches Ok(v) ==> spec_read_dir(self@, path.spec_bytes()) matches Ok(s)
                && v.deep_view() == s,
            r matches Err(e) ==> spec_read_dir(self@, path.spec_bytes()) == Result::<
                Seq<EntryModel>,
                PsxError,
            >::Err(e),
    {
        let pb = path.as_bytes();
        let comps = Self::split_path(pb);
        let (lba, size) = match self.find_directory(&comps) {
            Ok(t) => t,
            Err(e) => {
                return Err(e);
            },
        };
        let data = match self.read_data(lba, size) {
            Ok(v) => v,
            Err(e) => {
                return Err(e);
            },
        };
        Ok(Self::parse_directory_entries(&data))
    }

    /// Read the file at `path` into memory.
    ///
    /// The final path component is looked up case-insensitively in its
    /// directory; a directory entry of the same name is rejected with
    /// `InvalidField`, an absent one with `NotFound`.
    pub fn read_file(&self, path: &str) -> (r: Result<Vec<u8>, PsxError>)
        requires
            self.wf(),
        ensures
            r is Ok <==> spec_read_file(self@, path.spec_bytes()) is Ok,
            r matches Ok(v) ==> spec_read_file(self@, path.spec_bytes()) matches Ok(s) && v@ == s,
            r matches Err(e) ==> spec_read_file(self@, path.spec_bytes()) == Result::<
                Seq<u8>,
                PsxError,
            >::Err(e),
    {
        let pb = path.as_bytes();
        let mut comps = Self::split_path(pb);
        if comps.len() == 0 {
            return Err(PsxError::NotFound);
        }
        let ghost cv = comps.deep_view();
        let filename = comps.pop().unwrap();
        assert(comps.deep_view() =~= cv.drop_last());
        assert(filename.deep_view() =~= filename@);
        assert(filename@ == cv.last());
        let (lba, size) = match self.find_directory(&comps) {
            Ok(t) => t,
            Err(e) => {
                return Err(e);
            },
        };
        let data = match self.read_data(lba, size) {
            Ok(v) => v,
            Err(e) => {
                return Err(e);
            },
        };
        let entries = Self::parse_directory_entries(&data);
        let (flba, fsize, fdir) = match Self::find_entry(&entries, &filename, false) {
            Some(t) => t,
            None => {
                return Err(PsxError::NotFound);
            },
        };
        if fdir {
            return Err(PsxError::InvalidField);
        }
        match self.read_data(flba, fsize) {
            Ok(v) => Ok(v),
            Err(e) => Err(e),
        }
    }
}

/// Resolving the same path over the same image twice yields identical
/// extents: resolution is a function of the image and the path alone.
pub proof fn lemma_resolve_idempotent(
    image: Seq<u8>,
    comps: Seq<Seq<u8>>,
    r1: Result<(u32, u32), PsxError>,
    r2: Result<(u32, u32), PsxError>,
)
    requires
        r1 == spec_resolve(image, spec_root_lba(image), spec_root_size(image), comps, 0),
        r2 == spec_resolve(image, spec_root_lba(image), spec_root_size(image), comps, 0),
    ensures
        r1 == r2,
{
}

} // verus!
