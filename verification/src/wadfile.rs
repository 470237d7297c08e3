//! The directory of a WAD, the archive that is nested in one entry of a
//! pack file.

use crate::binary::{
    field_name, le_u32, lemma_index_of_first, lemma_index_of_first_none, parse_name, read_byte,
    read_u32_le, same_text,
};
use crate::error::ReadError;
use crate::utils::{LengthLimitedReader, SeekFrom};
use vstd::prelude::*;
use vstd::slice::slice_subrange;

verus! {

/// The length of the header of a WAD: magic, number of entries, place of the directory.
pub const WAD_HEADER_LEN: usize = 12;

/// The length of one record of the directory of a WAD.
pub const WAD_RECORD_LEN: usize = 32;

/// What kind of data an entry of a WAD holds.
#[derive(Debug, Clone, Copy, PartialEq, Eq, Structural)]
pub enum WadFileType {
    /// Any tag that is none of the four below.
    Unknown,
    /// 0x40, '@': color palette.
    ColorPalette,
    /// 0x42, 'B': pictures for the status bar.
    Picture,
    /// 0x44, 'D': used to be mip texture.
    MipTexture,
    /// 0x45, 'E': console picture (flat).
    ConsolePicture,
}

/// The kind that a type tag stands for.
pub open spec fn wad_file_type(tag: u8) -> WadFileType {
    if tag == 0x40 {
        WadFileType::ColorPalette
    } else if tag == 0x42 {
        WadFileType::Picture
    } else if tag == 0x44 {
        WadFileType::MipTexture
    } else if tag == 0x45 {
        WadFileType::ConsolePicture
    } else {
        WadFileType::Unknown
    }
}

/// One entry of a WAD as a value: its name, where its bytes start in the
/// physical file, how many they are, and what they hold.
pub struct WadEntry {
    pub name: Seq<char>,
    pub offset: int,
    pub length: int,
    pub kind: WadFileType,
}

/// Contains information about each file inside a wad file.
pub struct WadFileInfo {
    /// The name of the entry.
    pub name: String,
    /// Where the entry starts, counted from the start of the physical file.
    pub filepos: u32,
    /// The number of bytes of the entry.
    pub filelen: u32,
    /// What the entry holds.
    pub filetype: WadFileType,
}

impl View for WadFileInfo {
    type V = WadEntry;

    open spec fn view(&self) -> WadEntry {
        WadEntry {
            name: self.name@,
            offset: self.filepos as int,
            length: self.filelen as int,
            kind: self.filetype,
        }
    }
}

/// The four bytes that a WAD starts with: "WAD2".
pub open spec fn wad_magic() -> Seq<u8> {
    seq![0x57u8, 0x41u8, 0x44u8, 0x32u8]
}

/// The entry that one 32-byte record of the directory describes, for a WAD
/// whose first byte lies at `base` in the physical file. `None` where the
/// record is malformed: its two sizes differ, it is marked as compressed,
/// its name has no end or is not UTF-8, or its place does not fit 32 bits
/// once `base` is added.
pub open spec fn wad_record(record: Seq<u8>, base: int) -> Option<WadEntry>
    recommends
        record.len() == 32,
{
    let offset = le_u32(record.subrange(0, 4));
    let packed_size = le_u32(record.subrange(4, 8));
    let size = le_u32(record.subrange(8, 12));
    if size != packed_size || record[13] != 0 || base + offset > u32::MAX {
        None
    } else {
        match field_name(record.subrange(16, 32)) {
            Some(name) => Some(
                WadEntry {
                    name,
                    offset: base + offset,
                    length: size,
                    kind: wad_file_type(record[12]),
                },
            ),
            None => None,
        }
    }
}

/// The number of entries that the header of a WAD announces.
pub open spec fn wad_entry_count(region: Seq<u8>) -> int
    recommends
        region.len() >= 12,
{
    le_u32(region.subrange(4, 8))
}

/// Where the directory of a WAD starts, counted from its first byte.
pub open spec fn wad_directory_offset(region: Seq<u8>) -> int
    recommends
        region.len() >= 12,
{
    le_u32(region.subrange(8, 12))
}

/// The bytes of record `i` of the directory of a WAD.
pub open spec fn wad_record_bytes(region: Seq<u8>, i: int) -> Seq<u8> {
    region.subrange(
        wad_directory_offset(region) + 32 * i,
        wad_directory_offset(region) + 32 * i + 32,
    )
}

/// Whether record `i` of the directory stops the reading: it cannot be read
/// in full, or it describes no entry.
pub open spec fn wad_record_fails(region: Seq<u8>, base: int, i: int) -> bool {
    ||| wad_directory_offset(region) + 32 * i + 32 > region.len()
    ||| wad_record(wad_record_bytes(region, i), base) is None
}

/// Whether `i` is the first record of the directory that stops the reading.
pub open spec fn wad_first_failure(region: Seq<u8>, base: int, i: int) -> bool {
    &&& 0 <= i < wad_entry_count(region)
    &&& wad_record_fails(region, base, i)
    &&& forall|j: int| 0 <= j < i ==> !wad_record_fails(region, base, j)
}

/// Whether the bytes of a WAD are well formed. `region` holds what can be
/// read from the first byte of the WAD on, `room` is the length of the range
/// that the reader may move in, and `base` is the place of the first byte in
/// the physical file. Well formed means: the header is complete and starts
/// with the magic, the directory starts inside the range, and each of its
/// records can be read and describes an entry.
pub open spec fn wad_well_formed(region: Seq<u8>, room: int, base: int) -> bool {
    &&& region.len() >= 12
    &&& region.subrange(0, 4) == wad_magic()
    &&& wad_directory_offset(region) <= room
    &&& forall|i: int| 0 <= i < wad_entry_count(region) ==> !wad_record_fails(region, base, i)
}

/// The number of bytes by which reading a WAD moves the reader on. For a
/// WAD that is well formed that is to the end of its directory. For one that
/// is not, it is to where the reading stops: behind the header where that
/// is wrong or the directory lies outside the range, behind the first
/// record that describes no entry, and as far as bytes could be read where
/// the header or a record is cut short.
pub open spec fn wad_consumed(region: Seq<u8>, room: int, base: int) -> int {
    let directory = wad_directory_offset(region);
    if region.len() < 12 {
        region.len() as int
    } else if region.subrange(0, 4) != wad_magic() || directory > room {
        12
    } else if exists|i: int| wad_first_failure(region, base, i) {
        let i = choose|i: int| wad_first_failure(region, base, i);
        if directory + 32 * i + 32 <= region.len() {
            directory + 32 * i + 32
        } else if directory + 32 * i < region.len() {
            region.len() as int
        } else {
            directory + 32 * i
        }
    } else {
        directory + 32 * wad_entry_count(region)
    }
}

/// There is one first record that stops the reading, or none.
pub proof fn lemma_wad_first_failure_is_unique(region: Seq<u8>, base: int, i: int, j: int)
    requires
        wad_first_failure(region, base, i),
        wad_first_failure(region, base, j),
    ensures
        i == j,
{
}

/// The directory of a WAD: its entries in the order of their records, or
/// `None` where the WAD is not well formed.
pub open spec fn decode_wad(region: Seq<u8>, room: int, base: int) -> Option<Seq<WadEntry>> {
    if wad_well_formed(region, room, base) {
        Some(
            Seq::new(
                wad_entry_count(region) as nat,
                |i: int| wad_record(wad_record_bytes(region, i), base).unwrap(),
            ),
        )
    } else {
        None
    }
}

/// The names of a directory, in its order.
pub open spec fn wad_names(entries: Seq<WadEntry>) -> Seq<Seq<char>> {
    entries.map_values(|e: WadEntry| e.name)
}

/// Contains the list of files inside a wad file.
/// WadFile doesn't own a file handle, that is owned by PackFile.
pub struct WadFile {
    wadfiles: Vec<WadFileInfo>,
}

impl View for WadFile {
    type V = Seq<WadEntry>;

    closed spec fn view(&self) -> Seq<WadEntry> {
        self.wadfiles@.map_values(|info: WadFileInfo| info@)
    }
}

/// Decodes one record of the directory.
fn read_record(record: &[u8], start_offset: u64) -> (r: Option<WadFileInfo>)
    requires
        record@.len() == 32,
    ensures
        match r {
            Some(info) => wad_record(record@, start_offset as int) == Some(info@),
            None => wad_record(record@, start_offset as int) is None,
        },
{
    let offset: u32 = match read_u32_le(slice_subrange(record, 0, 4)) {
        Some(value) => value,
        None => {
            return None;
        },
    };
    let dsize: u32 = match read_u32_le(slice_subrange(record, 4, 8)) {
        Some(value) => value,
        None => {
            return None;
        },
    };
    let size: u32 = match read_u32_le(slice_subrange(record, 8, 12)) {
        Some(value) => value,
        None => {
            return None;
        },
    };
    if size != dsize {
        return None;
    }
    let filetype: u8 = match read_byte(slice_subrange(record, 12, 13)) {
        Some(value) => value,
        None => {
            return None;
        },
    };
    let compression: u8 = match read_byte(slice_subrange(record, 13, 14)) {
        Some(value) => value,
        None => {
            return None;
        },
    };
    if compression != 0u8 {
        return None;
    }
    // the two reserved bytes at 14 and 15 are skipped

    let name: String = match parse_name(slice_subrange(record, 16, 32)) {
        Some(text) => text,
        None => {
            return None;
        },
    };
    let filepos: u32 = match start_offset.checked_add(offset as u64) {
        Some(sum) => if sum <= u32::MAX as u64 {
            sum as u32
        } else {
            return None;
        },
        None => {
            return None;
        },
    };
    Some(
        WadFileInfo {
            name,
            filepos,
            filelen: size,
            filetype: if filetype == 0x40 {
                WadFileType::ColorPalette
            } else if filetype == 0x42 {
                WadFileType::Picture
            } else if filetype == 0x44 {
                WadFileType::MipTexture
            } else if filetype == 0x45 {
                WadFileType::ConsolePicture
            } else {
                WadFileType::Unknown
            },
        },
    )
}

impl WadFile {
    /// The number of entries of the directory.
    pub fn len(&self) -> (n: usize)
        ensures
            n == self@.len(),
    {
        self.wadfiles.len()
    }

    /// Entry `index` of the directory, or nothing where it has no such entry.
    pub fn entry(&self, index: usize) -> (r: Option<&WadFileInfo>)
        ensures
            match r {
                Some(info) => index < self@.len() && info@ == self@[index as int],
                None => index >= self@.len(),
            },
    {
        if index < self.wadfiles.len() {
            Some(&self.wadfiles[index])
        } else {
            None
        }
    }

    /// Reads the file list in a wad file. The reader must point to the
    /// beginning of the wad file; the places in the list are counted from the
    /// start of the physical file.
    #[verifier::loop_isolation(false)]
    pub fn read(reader: &mut LengthLimitedReader) -> (r: Result<WadFile, ReadError>)
        ensures
            old(reader).moved_to(
                final(reader),
                old(reader).cursor() + wad_consumed(
                    old(reader).rest(),
                    old(reader).end() - old(reader).cursor(),
                    old(reader).cursor(),
                ),
            ),
            match r {
                Ok(wad) => {
                    &&& decode_wad(
                        old(reader).rest(),
                        old(reader).end() - old(reader).cursor(),
                        old(reader).cursor(),
                    ) == Some(wad@)
                },
                Err(e) => {
                    &&& e is ParseError
                    &&& decode_wad(
                        old(reader).rest(),
                        old(reader).end() - old(reader).cursor(),
                        old(reader).cursor(),
                    ) is None
                },
            },
    {
        let ghost region = reader.rest();
        let ghost entry = *reader;
        // will be added to filepos of WAD entries
        let start_offset: u64 = reader.position();
        let header = reader.read(WAD_HEADER_LEN);
        if header.len() < WAD_HEADER_LEN {
            return Err(ReadError::ParseError);
        }
        assert(header@ == region.subrange(0, 12));
        assert(header@.subrange(0, 4) == region.subrange(0, 4));
        assert(header@.subrange(4, 8) == region.subrange(4, 8));
        assert(header@.subrange(8, 12) == region.subrange(8, 12));
        if header[0] != 0x57 || header[1] != 0x41 || header[2] != 0x44 || header[3] != 0x32 {
            assert(region.subrange(0, 4)[0] == header@[0] && region.subrange(0, 4)[1] == header@[1]
                && region.subrange(0, 4)[2] == header@[2] && region.subrange(0, 4)[3]
                == header@[3]);
            return Err(ReadError::ParseError);
        }
        assert(region.subrange(0, 4) =~= wad_magic());
        let numentries: u32 = match read_u32_le(slice_subrange(header, 4, 8)) {
            Some(value) => value,
            None => {
                return Err(ReadError::ParseError);
            },
        };
        let diroffset: u32 = match read_u32_le(slice_subrange(header, 8, 12)) {
            Some(value) => value,
            None => {
                return Err(ReadError::ParseError);
            },
        };
        let directory: u64 = match start_offset.checked_add(diroffset as u64) {
            Some(place) => place,
            None => {
                return Err(ReadError::ParseError);
            },
        };
        match reader.seek(SeekFrom::Start(directory)) {
            Ok(_) => {},
            Err(_) => {
                return Err(ReadError::ParseError);
            },
        }
        proof {
            entry.lemma_rest_after(&*reader);
        }
        let mut wadfiles: Vec<WadFileInfo> = Vec::new();
        let mut i: u32 = 0;
        while i < numentries
            invariant
                i <= numentries,
                entry.same_source(&*reader),
                reader.cursor() == start_offset + diroffset + 32 * i,
                wadfiles@.len() == i,
                forall|k: int| 0 <= k < i ==> !wad_record_fails(region, start_offset as int, k),
                forall|k: int|
                    0 <= k < i ==> (#[trigger] wad_record(
                        wad_record_bytes(region, k),
                        start_offset as int,
                    )) == Some(wadfiles@[k]@),
            decreases numentries - i,
        {
            let ghost before = *reader;
            proof {
                entry.lemma_rest_after(&before);
            }
            let record = reader.read(WAD_RECORD_LEN);
            if record.len() < WAD_RECORD_LEN {
                proof {
                    assert(wad_first_failure(region, start_offset as int, i as int));
                    lemma_wad_first_failure_is_unique(
                        region,
                        start_offset as int,
                        i as int,
                        choose|f: int| wad_first_failure(region, start_offset as int, f),
                    );
                }
                return Err(ReadError::ParseError);
            }
            assert(record@ == wad_record_bytes(region, i as int));
            match read_record(record, start_offset) {
                Some(info) => {
                    wadfiles.push(info);
                },
                None => {
                    proof {
                        assert(wad_first_failure(region, start_offset as int, i as int));
                        lemma_wad_first_failure_is_unique(
                            region,
                            start_offset as int,
                            i as int,
                            choose|f: int| wad_first_failure(region, start_offset as int, f),
                        );
                    }
                    return Err(ReadError::ParseError);
                },
            }
            i = i + 1;
        }
        let wad = WadFile { wadfiles };
        assert(wad_well_formed(region, entry.end() - entry.cursor(), entry.cursor()));
        assert(forall|f: int| !wad_first_failure(region, start_offset as int, f));
        assert(wad@ =~= decode_wad(region, entry.end() - entry.cursor(), entry.cursor()).unwrap());
        Ok(wad)
    }

    /// Where a seek to the entry called `filename` lands: at the place of
    /// the first entry of that name, if there is one and its place lies in
    /// the range of the reader.
    pub open spec fn seek_place(entries: Seq<WadEntry>, start: int, end: int, filename: Seq<char>)
        -> Option<int> {
        match wad_names(entries).index_of_first(filename) {
            Some(k) => if start <= entries[k].offset <= end {
                Some(entries[k].offset)
            } else {
                None
            },
            None => None,
        }
    }

    /// Seeks to the position of a file inside a WAD file. Returns whether
    /// the reader now stands there; where it does not, it has not moved.
    #[verifier::loop_isolation(false)]
    pub fn seek_to_file(&self, wadfile: &mut LengthLimitedReader, filename: &str) -> (found: bool)
        ensures
            match Self::seek_place(self@, old(wadfile).start(), old(wadfile).end(), filename@) {
                Some(place) => found && old(wadfile).moved_to(final(wadfile), place),
                None => !found && old(wadfile).moved_to(final(wadfile), old(wadfile).cursor()),
            },
    {
        let mut i: usize = 0;
        while i < self.wadfiles.len()
            invariant
                i <= self.wadfiles@.len(),
                *wadfile == *old(wadfile),
                forall|k: int| 0 <= k < i ==> wad_names(self@)[k] != filename@,
            decreases self.wadfiles@.len() - i,
        {
            assert(wad_names(self@)[i as int] == self.wadfiles@[i as int].name@);
            if same_text(self.wadfiles[i].name.as_str(), filename) {
                proof {
                    lemma_index_of_first(wad_names(self@), filename@, i as int);
                }
                let filepos: u64 = self.wadfiles[i].filepos as u64;
                assert(self@[i as int].offset == filepos);
                return match wadfile.seek(SeekFrom::Start(filepos)) {
                    Ok(_) => true,
                    Err(_) => false,
                };
            }
            i = i + 1;
        }
        proof {
            lemma_index_of_first_none(wad_names(self@), filename@);
        }
        false
    }
}

/// The place that a directory of a WAD records for an entry is the place of
/// the WAD in the physical file plus the place that the record holds, which
/// is counted from the first byte of the WAD.
pub proof fn lemma_wad_places_are_absolute(region: Seq<u8>, room: int, base: int, i: int)
    requires
        decode_wad(region, room, base) is Some,
        0 <= i < decode_wad(region, room, base).unwrap().len(),
    ensures
        decode_wad(region, room, base).unwrap()[i].offset == base + le_u32(
            wad_record_bytes(region, i).subrange(0, 4),
        ),
        decode_wad(region, room, base).unwrap()[i].length == le_u32(
            wad_record_bytes(region, i).subrange(8, 12),
        ),
{
    assert(!wad_record_fails(region, base, i));
}

/// A WAD with a record whose two sizes differ, or which is marked as
/// compressed, has no directory: no entry of it is handed out.
pub proof fn lemma_wad_rejects_packed_record(region: Seq<u8>, room: int, base: int, i: int)
    requires
        0 <= i < wad_entry_count(region),
        le_u32(wad_record_bytes(region, i).subrange(8, 12)) != le_u32(
            wad_record_bytes(region, i).subrange(4, 8),
        ) || wad_record_bytes(region, i)[13] != 0,
    ensures
        decode_wad(region, room, base) is None,
{
    assert(wad_record_fails(region, base, i));
}

} // verus!
