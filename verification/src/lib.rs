//! A read-only virtual file system for the game's asset archives: the pack
//! container, the WAD directory nested in it, and the picture, palette and
//! sound decoders that read through them. Around it stand the interfaces
//! that the engine shares with its platform layer, and the host that starts
//! the engine up and shuts it down.

mod binary;
mod error;
mod host;
mod lump;
mod packfile;
mod resources;
mod snd;
mod system;
mod types;
mod utils;
mod wadfile;
mod wavefile;

pub use binary::{field_name, le_i32, le_u32, terminated_prefix};
pub use error::{ReadError, WaveError};
pub use host::{base_directory, Host};
pub use lump::{
    decode_palette, decode_picture, pack_rgb, picture_consumed, Palette, Picture, PALETTE_BYTES,
};
pub use packfile::{
    base_end, base_start, decode_pack, entry_region, filebase, filebase_bytes, filebase_text,
    has_lump_extension, lemma_oversized_directory_is_rejected, lemma_pack_lookup_is_exact,
    lemma_palette_of_pack, lemma_wrong_magic_is_rejected, pack_directory_length,
    pack_directory_offset, pack_entry_count, pack_lookup, pack_magic, pack_names, pack_record,
    pack_record_bytes, pack_well_formed, palette_name, PackEntry, PackFile, PackFileInfo,
    MAX_FILES_IN_PACK, PACKFILE_INFO_LEN, PACK_HEADER_LEN,
};
pub use resources::{
    decimal_text, digit_text, pack_path_text, GameResources, GameResourcesImpl, PackScan,
};
pub use snd::SoundEngine;
pub use system::{BackBuffer, NativeSoundEngine, ToggleFullscreen, Window};
pub use types::EventAction;
pub use utils::{read_span, read_stop, seek_target, ByteCursor, LengthLimitedReader, SeekFrom};
pub use wadfile::{
    decode_wad, lemma_wad_first_failure_is_unique, lemma_wad_places_are_absolute,
    lemma_wad_rejects_packed_record, wad_consumed, wad_directory_offset, wad_entry_count,
    wad_file_type, wad_first_failure, wad_magic, wad_names, wad_record, wad_record_bytes,
    wad_record_fails, wad_well_formed, WadEntry, WadFile, WadFileInfo, WadFileType,
    WAD_HEADER_LEN, WAD_RECORD_LEN,
};
pub use wavefile::{pending_samples, wave_decode, SampleRead, SampleStream, Sound};
