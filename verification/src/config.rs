//! The settings that last from one run to the next: the preferred room and
//! the time of the last refresh.

use vstd::prelude::*;
use crate::room::{parse_room, RoomId};

verus! {

/// The seconds after which a cache counts as stale: one day.
pub const MAX_AGE_SECONDS: i64 = 86_400;

/// A moment in UTC: the whole seconds since the start of 1970 and the
/// nanoseconds since that second.
#[derive(Clone, Copy, Debug, PartialEq, Eq, Structural)]
pub struct Timestamp {
    pub seconds: i64,
    pub nanos: u32,
}

/// The preferred room and the time of the last refresh.
#[derive(Clone, Copy, Debug, PartialEq, Eq, Structural)]
pub struct Config {
    pub room: RoomId,
    pub last_updated: Timestamp,
}

/// What loading the settings comes to: the settings to go on with, `None`
/// where the room asked for is no room code, and the settings to write to
/// disk before that, if any.
#[derive(Clone, Copy, Debug, PartialEq, Eq, Structural)]
pub struct LoadedConfig {
    pub config: Option<Config>,
    pub to_save: Option<Config>,
}

/// The room of the settings that are written when none were stored yet.
pub open spec fn first_saved_room() -> RoomId {
    RoomId { block: 'A', floor: 2, number: 66 }
}

/// The room to go on with where none is stored and none is asked for.
pub open spec fn fallback_room() -> RoomId {
    RoomId { block: 'C', floor: 0, number: 0 }
}

/// Whether the moment `a` lies more than `seconds` seconds before `b`.
pub open spec fn older_by(a: Timestamp, b: Timestamp, seconds: i64) -> bool {
    a.seconds + seconds < b.seconds || (a.seconds + seconds == b.seconds && a.nanos < b.nanos)
}

/// What loading the settings comes to, from the settings `stored` on disk,
/// the room code `room` asked for and the current time `now`.
///
/// Stored settings are kept; a room asked for replaces theirs, and the
/// changed settings are saved. Without stored settings the time of the last
/// refresh is `now`; the room is the one asked for, and settings with
/// `first_saved_room` are saved, or it is `fallback_room` and nothing is
/// saved. A room asked for that is no room code gives no settings.
pub open spec fn loaded(stored: Option<Config>, room: Option<Seq<char>>, now: Timestamp) -> LoadedConfig {
    match (stored, room) {
        (Some(config), Some(code)) => match parse_room(code) {
            Some(id) => {
                let changed = Config { room: id, ..config };
                LoadedConfig { config: Some(changed), to_save: Some(changed) }
            },
            None => LoadedConfig { config: None, to_save: None },
        },
        (Some(config), None) => LoadedConfig { config: Some(config), to_save: None },
        (None, Some(code)) => LoadedConfig {
            config: match parse_room(code) {
                Some(id) => Some(Config { room: id, last_updated: now }),
                None => None,
            },
            to_save: Some(Config { room: first_saved_room(), last_updated: now }),
        },
        (None, None) => LoadedConfig {
            config: Some(Config { room: fallback_room(), last_updated: now }),
            to_save: None,
        },
    }
}

impl Config {
    /// Works out the settings to go on with and the settings to save, from
    /// the settings stored on disk, the room code asked for and the current
    /// time.
    pub fn get_config(stored: Option<Config>, room: Option<&str>, now: Timestamp) -> (res:
        LoadedConfig)
        ensures
            res == loaded(
                stored,
                match room {
                    Some(code) => Some(code@),
                    None => None,
                },
                now,
            ),
    {
        match (stored, room) {
            (Some(config), Some(code)) => match RoomId::from_str(code) {
                Some(id) => {
                    let changed = Config { room: id, last_updated: config.last_updated };
                    LoadedConfig { config: Some(changed), to_save: Some(changed) }
                },
                None => LoadedConfig { config: None, to_save: None },
            },
            (Some(config), None) => LoadedConfig { config: Some(config), to_save: None },
            (None, Some(code)) => {
                let first = Config {
                    room: RoomId { block: 'A', floor: 2, number: 66 },
                    last_updated: now,
                };
                let config = match RoomId::from_str(code) {
                    Some(id) => Some(Config { room: id, last_updated: now }),
                    None => None,
                };
                LoadedConfig { config, to_save: Some(first) }
            },
            (None, None) => LoadedConfig {
                config: Some(
                    Config { room: RoomId { block: 'C', floor: 0, number: 0 }, last_updated: now },
                ),
                to_save: None,
            },
        }
    }

    /// Whether the last refresh lies more than `max_age_seconds` seconds
    /// before `now`.
    pub fn is_stale(&self, now: Timestamp, max_age_seconds: i64) -> (stale: bool)
        ensures
            stale == older_by(self.last_updated, now, max_age_seconds),
    {
        let limit: i128 = self.last_updated.seconds as i128 + max_age_seconds as i128;
        let current: i128 = now.seconds as i128;
        limit < current || (limit == current && self.last_updated.nanos < now.nanos)
    }

    /// The settings with the last refresh at `now`.
    pub fn refreshed_at(&self, now: Timestamp) -> (res: Config)
        ensures
            res == (Config { room: self.room, last_updated: now }),
    {
        Config { room: self.room, last_updated: now }
    }
}

/// Settings that have just been refreshed are not stale, whatever age is
/// allowed.
pub proof fn lemma_fresh_is_not_stale(config: Config, max_age_seconds: i64)
    requires
        max_age_seconds >= 0,
    ensures
        !older_by(config.last_updated, config.last_updated, max_age_seconds),
{
}

/// Settings that are stale for one allowed age are stale for every smaller
/// one.
pub proof fn lemma_stale_for_smaller_age(a: Timestamp, b: Timestamp, age: i64, smaller: i64)
    requires
        older_by(a, b, age),
        smaller <= age,
    ensures
        older_by(a, b, smaller),
{
}

} // verus!
