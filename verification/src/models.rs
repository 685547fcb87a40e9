//! The map record that the upstream serves and the cache keeps. The cache
//! reads two things of it: the record's id, which is hexadecimal text, and
//! the content hash of each of its versions. Everything else is carried
//! through untouched.
//!
//! A fractional number is held as the bit pattern of its IEEE 754 encoding,
//! and an instant as seconds and nanoseconds since the Unix epoch, so that a
//! record is made of exact values only.

use crate::hex::{parse_hex, parse_hex_u32};
use vstd::prelude::*;

verus! {

/// An instant in UTC.
#[derive(Clone, Copy, Debug, PartialEq, Eq)]
pub struct Timestamp {
    /// Whole seconds since the Unix epoch.
    pub seconds: i64,
    /// Nanoseconds past the second.
    pub nanoseconds: u32,
}

/// One map as the upstream describes it.
#[derive(Clone, Debug, PartialEq, Eq)]
pub struct BeatSaverMap {
    /// The map's numeric id in hexadecimal.
    pub id: String,
    pub name: String,
    pub description: String,
    pub metadata: MapMetadata,
    pub automapper: bool,
    pub ranked: bool,
    pub qualified: bool,
    /// The published versions of the map, in the upstream's order.
    pub versions: Vec<MapVersion>,
    pub created_at: Timestamp,
    pub updated_at: Timestamp,
    pub last_published_at: Timestamp,
}

/// What a map says of its song.
#[derive(Clone, Debug, PartialEq, Eq)]
pub struct MapMetadata {
    /// Beats per minute, as the bits of a 32-bit float.
    pub bpm_bits: u32,
    pub duration: u32,
    pub song_name: String,
    pub song_sub_name: String,
    pub song_author_name: String,
    pub level_author_name: String,
}

/// One version of a map.
#[derive(Clone, Debug, PartialEq, Eq)]
pub struct MapVersion {
    /// The content hash by which this version is looked up.
    pub hash: String,
    pub key: String,
    pub state: MapVersionState,
    pub created_at: Timestamp,
    pub diffs: Vec<MapDifficulty>,
    pub download_url: String,
    pub cover_url: String,
    pub preview_url: String,
}

/// How far a version has come towards publication.
#[derive(Clone, Copy, Debug, PartialEq, Eq)]
pub enum MapVersionState {
    Published,
    Uploaded,
    Testplay,
    Feedback,
}

/// One difficulty of a version.
#[derive(Clone, Debug, PartialEq, Eq)]
pub struct MapDifficulty {
    pub bombs: u32,
    pub characteristic: DifficultyCharacteristic,
    pub chroma: bool,
    pub cinema: bool,
    pub difficulty: DifficultyType,
    pub events: u32,
    pub me: bool,
    pub ne: bool,
    /// Note jump speed, as the bits of a 32-bit float.
    pub njs_bits: u32,
    pub notes: u32,
    /// Notes per second, as the bits of a 64-bit float.
    pub nps_bits: u64,
    pub obstacles: u32,
    /// Start offset, as the bits of a 32-bit float.
    pub offset_bits: u32,
    /// Length in seconds, as the bits of a 64-bit float.
    pub seconds_bits: u64,
    /// Star rating where the map has one, as the bits of a 32-bit float.
    pub stars_bits: Option<u32>,
    pub parity_summary: ParitySummary,
}

/// The play style that a difficulty is made for.
#[derive(Clone, Copy, Debug, PartialEq, Eq)]
pub enum DifficultyCharacteristic {
    Standard,
    OneSaber,
    NoArrows,
    NinetyDegree,
    ThreeSixtyDegree,
    Lightshow,
    Lawless,
}

/// The grade of a difficulty.
#[derive(Clone, Copy, Debug, PartialEq, Eq)]
pub enum DifficultyType {
    Easy,
    Normal,
    Hard,
    Expert,
    ExpertPlus,
}

/// What the parity check found in a difficulty.
#[derive(Clone, Copy, Debug, PartialEq, Eq)]
pub struct ParitySummary {
    pub errors: u32,
    pub warns: u32,
    pub resets: u32,
}

impl BeatSaverMap {
    /// The content hashes of the record's versions, in their order.
    pub open spec fn hashes(&self) -> Seq<Seq<char>> {
        Seq::new(self.versions@.len(), |i: int| self.versions@[i].hash@)
    }

    /// The key of the record in the id keyspace: its id read as a
    /// hexadecimal 32-bit number, and zero where the id is no such text.
    pub open spec fn numeric_id(&self) -> u32 {
        match parse_hex_u32(self.id@) {
            Some(id) => id,
            None => 0,
        }
    }

    /// The key of the record in the id keyspace.
    pub fn cache_id(&self) -> (id: u32)
        ensures
            id == self.numeric_id(),
    {
        match parse_hex(self.id.as_str()) {
            Some(id) => id,
            None => 0,
        }
    }
}

} // verus!
