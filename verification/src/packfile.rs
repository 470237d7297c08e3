//! Handling of PAK?.pak files.

use crate::binary::{
    field_name, le_u32, lemma_boundary_at_ascii, lemma_index_of_first, lemma_index_of_first_none,
    lemma_index_of_last, lemma_index_of_last_none, parse_name, read_u32_le, same_text,
};
use crate::error::ReadError;
use crate::lump::{decode_palette, decode_picture, Palette, Picture};
use crate::utils::{ByteCursor, LengthLimitedReader, SeekFrom};
use crate::wadfile::{decode_wad, WadFile};
use crate::wavefile::{wave_decode, Sound};
use vstd::prelude::*;
use vstd::slice::slice_subrange;
use vstd::utf8::{
    decode_utf8, encode_utf8, encode_utf8_decode_utf8, encode_utf8_valid_utf8,
    is_char_boundary_start_end_of_seq,
};

verus! {

/// The largest number of entries that a pack file may announce.
pub const MAX_FILES_IN_PACK: u32 = 2048;

/// The length of one record of the directory of a pack file.
pub const PACKFILE_INFO_LEN: u32 = 64;

/// The length of the header of a pack file: magic, place and length of the directory.
pub const PACK_HEADER_LEN: usize = 12;

/// One entry of a pack file as a value: its name, where its bytes start in
/// the file and how many they are.
pub struct PackEntry {
    pub name: Seq<char>,
    pub offset: int,
    pub length: int,
}

/// Contains information about each file inside a pack file.
pub struct PackFileInfo {
    /// The name of the entry, a path with forward slashes.
    pub name: String,
    /// Where the entry starts, counted from the start of the file.
    pub filepos: u32,
    /// The number of bytes of the entry.
    pub filelen: u32,
}

impl View for PackFileInfo {
    type V = PackEntry;

    open spec fn view(&self) -> PackEntry {
        PackEntry { name: self.name@, offset: self.filepos as int, length: self.filelen as int }
    }
}

/// The four bytes that a pack file starts with: "PACK".
pub open spec fn pack_magic() -> Seq<u8> {
    seq![0x50u8, 0x41u8, 0x43u8, 0x4Bu8]
}

/// Where the directory of a pack file starts.
pub open spec fn pack_directory_offset(data: Seq<u8>) -> int
    recommends
        data.len() >= 12,
{
    le_u32(data.subrange(4, 8))
}

/// The number of bytes of the directory of a pack file.
pub open spec fn pack_directory_length(data: Seq<u8>) -> int
    recommends
        data.len() >= 12,
{
    le_u32(data.subrange(8, 12))
}

/// The number of entries of a pack file: one for each 64 bytes of its directory.
pub open spec fn pack_entry_count(data: Seq<u8>) -> int
    recommends
        data.len() >= 12,
{
    pack_directory_length(data) / 64
}

/// The bytes of record `i` of the directory of a pack file.
pub open spec fn pack_record_bytes(data: Seq<u8>, i: int) -> Seq<u8> {
    data.subrange(pack_directory_offset(data) + 64 * i, pack_directory_offset(data) + 64 * i + 64)
}

/// The entry that one 64-byte record of the directory describes: a name of
/// 56 bytes, then place and length. `None` where the name has no end or is
/// not UTF-8.
pub open spec fn pack_record(record: Seq<u8>) -> Option<PackEntry>
    recommends
        record.len() == 64,
{
    match field_name(record.subrange(0, 56)) {
        Some(name) => Some(
            PackEntry {
                name,
                offset: le_u32(record.subrange(56, 60)),
                length: le_u32(record.subrange(60, 64)),
            },
        ),
        None => None,
    }
}

/// Whether the bytes of a file are a well-formed pack file: the header is
/// complete and starts with the magic, the directory has at most 2048
/// entries, all its records lie in the file, and each of them describes an
/// entry.
pub open spec fn pack_well_formed(data: Seq<u8>) -> bool {
    &&& data.len() >= 12
    &&& data.subrange(0, 4) == pack_magic()
    &&& pack_entry_count(data) <= 2048
    &&& pack_entry_count(data) > 0 ==> pack_directory_offset(data) + 64 * pack_entry_count(data)
        <= data.len()
    &&& forall|i: int|
        0 <= i < pack_entry_count(data) ==> (#[trigger] pack_record(pack_record_bytes(data, i)))
            is Some
}

/// The directory of a pack file: its entries in the order of their records,
/// or `None` where the file is not well formed.
pub open spec fn decode_pack(data: Seq<u8>) -> Option<Seq<PackEntry>> {
    if pack_well_formed(data) {
        Some(
            Seq::new(
                pack_entry_count(data) as nat,
                |i: int| pack_record(pack_record_bytes(data, i)).unwrap(),
            ),
        )
    } else {
        None
    }
}

/// The names of a directory, in its order.
pub open spec fn pack_names(entries: Seq<PackEntry>) -> Seq<Seq<char>> {
    entries.map_values(|e: PackEntry| e.name)
}

/// The entry that a name resolves to: the first one of exactly that name.
pub open spec fn pack_lookup(entries: Seq<PackEntry>, name: Seq<char>) -> Option<PackEntry> {
    match pack_names(entries).index_of_first(name) {
        Some(k) => Some(entries[k]),
        None => None,
    }
}

/// The bytes of an entry that a decoder gets to see: those from its place to
/// its length further on, as far as the file holds them.
pub open spec fn entry_region(data: Seq<u8>, entry: PackEntry) -> Seq<u8> {
    if entry.offset + entry.length <= data.len() {
        data.subrange(entry.offset, entry.offset + entry.length)
    } else if entry.offset < data.len() {
        data.subrange(entry.offset, data.len() as int)
    } else {
        Seq::<u8>::empty()
    }
}

/// The name under which a pack file holds the default palette.
pub open spec fn palette_name() -> Seq<char> {
    "gfx/palette.lmp"@
}

/// Whether a name, given as its UTF-8 bytes, ends with the extension of
/// picture lumps, ".lmp".
pub open spec fn has_lump_extension(name: Seq<u8>) -> bool {
    name.len() >= 4 && name.subrange(name.len() - 4, name.len() as int) == seq![
        0x2Eu8,
        0x6Cu8,
        0x6Du8,
        0x70u8,
    ]
}

/// The bytes of one pack file and its directory.
pub struct PackFile {
    data: Vec<u8>,
    packfiles: Vec<PackFileInfo>,
}

/// Decodes one record of the directory.
fn read_record(record: &[u8]) -> (r: Option<PackFileInfo>)
    requires
        record@.len() == 64,
    ensures
        match r {
            Some(info) => pack_record(record@) == Some(info@),
            None => pack_record(record@) is None,
        },
{
    let name: String = match parse_name(slice_subrange(record, 0, 56)) {
        Some(text) => text,
        None => {
            return None;
        },
    };
    let filepos: u32 = match read_u32_le(slice_subrange(record, 56, 60)) {
        Some(value) => value,
        None => {
            return None;
        },
    };
    let filelen: u32 = match read_u32_le(slice_subrange(record, 60, 64)) {
        Some(value) => value,
        None => {
            return None;
        },
    };
    Some(PackFileInfo { name, filepos, filelen })
}

impl PackFile {
    /// The bytes of the whole file.
    pub closed spec fn bytes(&self) -> Seq<u8> {
        self.data@
    }

    /// The directory, in the order of the file.
    pub closed spec fn entries(&self) -> Seq<PackEntry> {
        self.packfiles@.map_values(|info: PackFileInfo| info@)
    }

    /// The number of entries of the directory.
    pub fn len(&self) -> (n: usize)
        ensures
            n == self.entries().len(),
    {
        self.packfiles.len()
    }

    /// Entry `index` of the directory, or nothing where it has no such entry.
    pub fn entry(&self, index: usize) -> (r: Option<&PackFileInfo>)
        ensures
            match r {
                Some(info) => {
                    &&& index < self.entries().len()
                    &&& info@ == self.entries()[index as int]
                },
                None => index >= self.entries().len(),
            },
    {
        if index < self.packfiles.len() {
            Some(&self.packfiles[index])
        } else {
            None
        }
    }

    /// Takes the bytes of a .pak file and reads the file list inside it.
    #[verifier::loop_isolation(false)]
    pub fn open(data: Vec<u8>) -> (r: Result<PackFile, ReadError>)
        ensures
            match r {
                Ok(pack) => {
                    &&& decode_pack(data@) == Some(pack.entries())
                    &&& pack.bytes() == data@
                },
                Err(e) => {
                    &&& e is ParseError
                    &&& decode_pack(data@) is None
                },
            },
    {
        let mut file = ByteCursor::new(data.as_slice());
        let header = file.read(PACK_HEADER_LEN);
        if header.len() < PACK_HEADER_LEN {
            return Err(ReadError::ParseError);
        }
        assert(header@ == data@.subrange(0, 12));
        assert(header@.subrange(0, 4) == data@.subrange(0, 4));
        assert(header@.subrange(4, 8) == data@.subrange(4, 8));
        assert(header@.subrange(8, 12) == data@.subrange(8, 12));
        if header[0] != 0x50 || header[1] != 0x41 || header[2] != 0x43 || header[3] != 0x4B {
            assert(data@.subrange(0, 4)[0] == header@[0] && data@.subrange(0, 4)[1] == header@[1]
                && data@.subrange(0, 4)[2] == header@[2] && data@.subrange(0, 4)[3] == header@[3]);
            return Err(ReadError::ParseError);
        }
        assert(data@.subrange(0, 4) =~= pack_magic());
        let diroffset: u32 = match read_u32_le(slice_subrange(header, 4, 8)) {
            Some(value) => value,
            None => {
                return Err(ReadError::ParseError);
            },
        };
        let dirlen: u32 = match read_u32_le(slice_subrange(header, 8, 12)) {
            Some(value) => value,
            None => {
                return Err(ReadError::ParseError);
            },
        };
        let numfiles: u32 = dirlen / PACKFILE_INFO_LEN;
        if numfiles > MAX_FILES_IN_PACK {
            return Err(ReadError::ParseError);
        }
        match file.seek(SeekFrom::Start(diroffset as u64)) {
            Ok(_) => {},
            Err(_) => {
                return Err(ReadError::ParseError);
            },
        }
        let mut packfiles: Vec<PackFileInfo> = Vec::with_capacity(numfiles as usize);
        let mut i: u32 = 0;
        while i < numfiles
            invariant
                i <= numfiles,
                file.bytes() == data@,
                file.cursor() == diroffset + 64 * i,
                i > 0 ==> diroffset + 64 * i <= data@.len(),
                packfiles@.len() == i,
                forall|k: int|
                    0 <= k < i ==> (#[trigger] pack_record(pack_record_bytes(data@, k))) == Some(
                        packfiles@[k]@,
                    ),
            decreases numfiles - i,
        {
            let record = file.read(PACKFILE_INFO_LEN as usize);
            if record.len() < PACKFILE_INFO_LEN as usize {
                return Err(ReadError::ParseError);
            }
            assert(record@ == pack_record_bytes(data@, i as int));
            match read_record(record) {
                Some(info) => {
                    packfiles.push(info);
                },
                None => {
                    return Err(ReadError::ParseError);
                },
            }
            i = i + 1;
        }
        let pack = PackFile { data, packfiles };
        assert(pack_well_formed(pack.data@));
        assert(pack.entries() =~= decode_pack(pack.data@).unwrap());
        Ok(pack)
    }

    /// A reader over the bytes of the entry called `name`, at its first
    /// byte, or nothing where the directory has no entry of that name.
    #[verifier::loop_isolation(false)]
    fn seek_to_file(&self, name: &str) -> (r: Option<LengthLimitedReader<'_>>)
        ensures
            match r {
                Some(reader) => {
                    &&& pack_lookup(self.entries(), name@) matches Some(entry)
                    &&& reader.bytes() == self.bytes()
                    &&& reader.start() == entry.offset
                    &&& reader.cursor() == entry.offset
                    &&& reader.end() == entry.offset + entry.length
                    &&& reader.rest() == entry_region(self.bytes(), entry)
                },
                None => pack_lookup(self.entries(), name@) is None,
            },
    {
        let mut i: usize = 0;
        while i < self.packfiles.len()
            invariant
                i <= self.packfiles@.len(),
                forall|k: int| 0 <= k < i ==> pack_names(self.entries())[k] != name@,
            decreases self.packfiles@.len() - i,
        {
            assert(pack_names(self.entries())[i as int] == self.packfiles@[i as int].name@);
            if same_text(self.packfiles[i].name.as_str(), name) {
                proof {
                    lemma_index_of_first(pack_names(self.entries()), name@, i as int);
                }
                let mut file = ByteCursor::new(self.data.as_slice());
                // a place of 32 bits is never out of the reach of a seek
                match file.seek(SeekFrom::Start(self.packfiles[i].filepos as u64)) {
                    Ok(_) => {},
                    Err(_) => {
                        return None;
                    },
                }
                let reader = LengthLimitedReader::new(file, self.packfiles[i].filelen as u64);
                assert(reader.rest() =~= entry_region(self.bytes(), self.entries()[i as int]));
                return Some(reader);
            }
            i = i + 1;
        }
        proof {
            lemma_index_of_first_none(pack_names(self.entries()), name@);
        }
        None
    }

    /// Reads a lmp (lump) file and converts it to RGBA. The name must end
    /// with ".lmp".
    pub fn read_lmp(&self, name: &str, pal: &Palette) -> (r: Result<Picture, ReadError>)
        ensures
            !has_lump_extension(encode_utf8(name@)) ==> r matches Err(ReadError::ParseError),
            has_lump_extension(encode_utf8(name@)) ==> match pack_lookup(self.entries(), name@) {
                None => r matches Err(ReadError::FileNotFound),
                Some(entry) => match decode_picture(
                    entry_region(self.bytes(), entry),
                    pal.colors(),
                ) {
                    None => r matches Err(ReadError::ParseError),
                    Some(decoded) => r matches Ok(pic) && decoded == (
                        pic.width as int,
                        pic.height as int,
                        pic.bitmap@,
                    ),
                },
            },
    {
        let text = name.as_bytes();
        let n: usize = text.len();
        if n < 4 || text[n - 4] != 0x2E || text[n - 3] != 0x6C || text[n - 2] != 0x6D || text[n
            - 1] != 0x70 {
            assert(has_lump_extension(text@) ==> text@.subrange(n - 4, n as int)[0] == text@[n - 4]
                && text@.subrange(n - 4, n as int)[1] == text@[n - 3] && text@.subrange(
                n - 4,
                n as int,
            )[2] == text@[n - 2] && text@.subrange(n - 4, n as int)[3] == text@[n - 1]);
            return Err(ReadError::ParseError);
        }
        assert(text@.subrange(n - 4, n as int) =~= seq![0x2Eu8, 0x6Cu8, 0x6Du8, 0x70u8]);
        match self.seek_to_file(name) {
            None => Err(ReadError::FileNotFound),
            Some(mut reader) => Picture::read(&mut reader, pal),
        }
    }

    /// Reads the default palette, the entry "gfx/palette.lmp".
    pub fn read_palette(&self) -> (r: Result<Palette, ReadError>)
        ensures
            match pack_lookup(self.entries(), palette_name()) {
                None => r matches Err(ReadError::FileNotFound),
                Some(entry) => if entry_region(self.bytes(), entry).len() >= 768 {
                    r matches Ok(pal) && pal.colors() == decode_palette(
                        entry_region(self.bytes(), entry),
                    )
                } else {
                    r matches Err(ReadError::ParseError)
                },
            },
    {
        match self.seek_to_file("gfx/palette.lmp") {
            None => Err(ReadError::FileNotFound),
            Some(mut reader) => Palette::read(&mut reader),
        }
    }

    /// Reads the directory structure of a wad file. The places in it are
    /// counted from the start of the pack file.
    pub fn read_wad(&self, name: &str) -> (r: Result<WadFile, ReadError>)
        ensures
            match pack_lookup(self.entries(), name@) {
                None => r matches Err(ReadError::FileNotFound),
                Some(entry) => match decode_wad(
                    entry_region(self.bytes(), entry),
                    entry.length,
                    entry.offset,
                ) {
                    None => r matches Err(ReadError::ParseError),
                    Some(directory) => r matches Ok(wad) && wad@ == directory,
                },
            },
    {
        match self.seek_to_file(name) {
            None => Err(ReadError::FileNotFound),
            Some(mut reader) => WadFile::read(&mut reader),
        }
    }

    /// Reads a wave file.
    pub fn read_wave(&self, name: &str) -> (r: Result<Sound, ReadError>)
        ensures
            match pack_lookup(self.entries(), name@) {
                None => r matches Err(ReadError::FileNotFound),
                Some(entry) => match wave_decode(entry_region(self.bytes(), entry)) {
                    Ok(samples) => r matches Ok(sound) && sound.samples@ == samples,
                    Err(e) => r matches Err(ReadError::Wave(w)) && w == e,
                },
            },
    {
        match self.seek_to_file(name) {
            None => Err(ReadError::FileNotFound),
            Some(mut reader) => Sound::read(&mut reader),
        }
    }
}

/// A name resolves to the first entry of exactly that name, and to nothing
/// where no entry has it.
pub proof fn lemma_pack_lookup_is_exact(entries: Seq<PackEntry>, name: Seq<char>)
    ensures
        match pack_lookup(entries, name) {
            Some(entry) => exists|k: int|
                {
                    &&& 0 <= k < entries.len()
                    &&& #[trigger] entries[k] == entry
                    &&& entry.name == name
                    &&& forall|j: int| 0 <= j < k ==> entries[j].name != name
                },
            None => forall|k: int| 0 <= k < entries.len() ==> entries[k].name != name,
        },
{
    let names = pack_names(entries);
    names.index_of_first_ensures(name);
    match names.index_of_first(name) {
        Some(k) => {
            assert(entries[k].name == names[k]);
            assert forall|j: int| 0 <= j < k implies entries[j].name != name by {
                assert(names[j] != name);
            }
        },
        None => {
            assert forall|k: int| 0 <= k < entries.len() implies entries[k].name != name by {
                assert(names[k] == entries[k].name);
                assert(names.contains(names[k]));
            }
        },
    }
}

/// A directory that announces more than 2048 entries makes the file
/// malformed, whatever stands where its records should be.
pub proof fn lemma_oversized_directory_is_rejected(data: Seq<u8>)
    requires
        pack_entry_count(data) > 2048,
    ensures
        decode_pack(data) is None,
{
}

/// A file that does not start with the four bytes "PACK" is malformed,
/// whatever follows.
pub proof fn lemma_wrong_magic_is_rejected(data: Seq<u8>)
    requires
        data.len() < 4 || data.subrange(0, 4) != pack_magic(),
    ensures
        decode_pack(data) is None,
{
}

/// The palette of a pack file has exactly 256 colours, and colour `i` is
/// made of the three bytes at `3 * i` in the entry "gfx/palette.lmp": the
/// first of them is the highest of the three channels, the last the lowest.
/// This holds of every well-formed pack file that holds 768 bytes for that
/// entry.
pub proof fn lemma_palette_of_pack(data: Seq<u8>, i: int)
    requires
        decode_pack(data) is Some,
        pack_lookup(decode_pack(data).unwrap(), palette_name()) is Some,
        entry_region(
            data,
            pack_lookup(decode_pack(data).unwrap(), palette_name()).unwrap(),
        ).len() >= 768,
        0 <= i < 256,
    ensures
        ({
            let entry = pack_lookup(decode_pack(data).unwrap(), palette_name()).unwrap();
            let colors = decode_palette(entry_region(data, entry));
            &&& colors.len() == 256
            &&& 0 <= entry.offset
            &&& entry.offset + 768 <= data.len()
            &&& colors[i] == 65536 * data[entry.offset + 3 * i] + 256 * data[entry.offset + 3 * i
                + 1] + data[entry.offset + 3 * i + 2]
            &&& colors[i] <= 0xFF_FFFF
        }),
{
    let entries = decode_pack(data).unwrap();
    let names = pack_names(entries);
    names.index_of_first_ensures(palette_name());
    let k = names.index_of_first(palette_name()).unwrap();
    let entry = entries[k];
    assert(entry == pack_record(pack_record_bytes(data, k)).unwrap());
}

/// Where the base name starts in the bytes of a name: behind its last
/// slash, or at its first byte where it has no slash.
pub open spec fn base_start(name: Seq<u8>) -> int {
    match name.index_of_last(0x2Fu8) {
        Some(slash) => slash + 1,
        None => 0,
    }
}

/// Where the base name ends in the bytes of a name: at its last dot, or at
/// its end where it has no dot.
pub open spec fn base_end(name: Seq<u8>) -> int {
    match name.index_of_last(0x2Eu8) {
        Some(dot) => dot,
        None => name.len() as int,
    }
}

/// The base name of a name, both as UTF-8 bytes: what stands between the
/// last slash and the last dot where that is two bytes or more, and
/// "?model?" where it is less, or where the last dot comes before the last
/// slash.
pub open spec fn filebase_bytes(name: Seq<u8>) -> Seq<u8> {
    if base_end(name) - base_start(name) >= 2 {
        name.subrange(base_start(name), base_end(name))
    } else {
        encode_utf8("?model?"@)
    }
}

/// The base name of a name, as text.
pub open spec fn filebase_text(name: Seq<char>) -> Seq<char> {
    decode_utf8(filebase_bytes(encode_utf8(name)))
}

/// Returns the file name without path and extension.
#[verifier::loop_isolation(false)]
pub fn filebase(name: &str) -> (base: &str)
    ensures
        encode_utf8(base@) == filebase_bytes(encode_utf8(name@)),
        base@ == filebase_text(name@),
{
    let bytes = name.as_bytes();
    proof {
        encode_utf8_valid_utf8(name@);
    }
    let mut start: usize = bytes.len();
    while start > 0 && bytes[start - 1] != 0x2F
        invariant
            start <= bytes@.len(),
            forall|j: int| start <= j < bytes@.len() ==> bytes@[j] != 0x2F,
        decreases start,
    {
        start = start - 1;
    }
    proof {
        if start > 0 {
            lemma_index_of_last(bytes@, 0x2Fu8, start - 1);
            lemma_boundary_at_ascii(bytes@, start - 1);
        } else {
            lemma_index_of_last_none(bytes@, 0x2Fu8);
        }
    }
    let mut end: usize = bytes.len();
    while end > 0 && bytes[end - 1] != 0x2E
        invariant
            end <= bytes@.len(),
            forall|j: int| end <= j < bytes@.len() ==> bytes@[j] != 0x2E,
        decreases end,
    {
        end = end - 1;
    }
    if end > 0 {
        proof {
            lemma_index_of_last(bytes@, 0x2Eu8, end - 1);
            lemma_boundary_at_ascii(bytes@, end - 1);
        }
        end = end - 1;
    } else {
        proof {
            lemma_index_of_last_none(bytes@, 0x2Eu8);
            is_char_boundary_start_end_of_seq(bytes@);
        }
        end = bytes.len();
    }
    assert(start == base_start(bytes@));
    assert(end == base_end(bytes@));
    if end >= start && end - start >= 2 {
        proof {
            is_char_boundary_start_end_of_seq(bytes@);
        }
        let (head, _) = name.split_at(end);
        proof {
            encode_utf8_valid_utf8(head@);
            if start > 0 {
                lemma_boundary_at_ascii(encode_utf8(head@), start - 1);
            } else {
                is_char_boundary_start_end_of_seq(encode_utf8(head@));
            }
        }
        let (_, base) = head.split_at(start);
        assert(encode_utf8(base@) =~= bytes@.subrange(start as int, end as int));
        proof {
            encode_utf8_decode_utf8(base@);
        }
        base
    } else {
        let base = "?model?";
        proof {
            encode_utf8_decode_utf8(base@);
        }
        base
    }
}

} // verus!
