//! The search for free rooms: scoring each room, ranking the candidates, and
//! the order of the steps that a search goes through.

use vstd::prelude::*;
use crate::acquire::{needs_refresh, refresh_due, AcquisitionError};
use crate::calendar::{CalendarEvent, Window};
use crate::free::{free_in, is_free};
use crate::ical::{document_events, load_events};
use crate::rank::{lemma_ranking_len, rank, ranking, Candidate};
use crate::room::{calc_distance, distance_to_code, parse_room, RoomId, NO_CANDIDATE};

verus! {

/// Why a search gave no result.
#[derive(Clone, Copy, Debug, PartialEq, Eq, Structural)]
pub enum SearchError {
    /// The destination is no room code.
    InvalidRoomIdentifier,
    /// A refresh left the cache without any room.
    NoCalendarData,
    /// The rooms of the cache could not be listed.
    CacheUnavailable,
    /// The refresh could not go on.
    Acquisition(AcquisitionError),
}

/// A room of the cache: its name and its calendar document, `None` where the
/// document could not be loaded.
#[derive(Clone, Debug)]
pub struct CachedRoom {
    pub name: String,
    pub document: Option<String>,
}

/// The score of the room `name` with the calendar `events`, `None` standing
/// for a calendar that could not be loaded or read: the distance of the room
/// to `destination` where the room is free for `window`, and `NO_CANDIDATE`
/// where it is busy, where its calendar is missing, and where its name is no
/// room code.
pub open spec fn score(
    destination: RoomId,
    name: Seq<char>,
    events: Option<Seq<CalendarEvent>>,
    window: Window,
) -> int {
    match events {
        Some(events) => if free_in(events, window) {
            distance_to_code(destination, name)
        } else {
            NO_CANDIDATE as int
        },
        None => NO_CANDIDATE as int,
    }
}

/// The events of a calendar document that may be missing.
pub open spec fn events_in(document: Option<Seq<char>>) -> Option<Seq<CalendarEvent>> {
    match document {
        Some(text) => document_events(text),
        None => None,
    }
}

/// The text of a document that may be missing.
pub open spec fn text_of(document: Option<String>) -> Option<Seq<char>> {
    match document {
        Some(text) => Some(text@),
        None => None,
    }
}

/// The candidate that the cached room `room` makes.
pub open spec fn candidate_of(destination: RoomId, room: CachedRoom, window: Window) -> Candidate {
    (room.name, score(destination, room.name@, events_in(text_of(room.document)), window) as u128)
}

/// The candidates that the cached rooms make, in the order of the rooms.
pub open spec fn candidates_of(
    destination: RoomId,
    rooms: Seq<CachedRoom>,
    window: Window,
) -> Seq<Candidate> {
    Seq::new(rooms.len(), |i: int| candidate_of(destination, rooms[i], window))
}

/// Scores a room whose calendar has been read: `events` is `None` where
/// reading it failed.
pub fn score_room(
    destination: &RoomId,
    name: &str,
    events: Option<&Vec<CalendarEvent>>,
    window: &Window,
) -> (d: u128)
    ensures
        d == score(
            *destination,
            name@,
            match events {
                Some(events) => Some(events@),
                None => None,
            },
            *window,
        ),
{
    match events {
        Some(events) => {
            if is_free(events, window) {
                calc_distance(destination, name)
            } else {
                NO_CANDIDATE
            }
        },
        None => NO_CANDIDATE,
    }
}

/// Scores a room from its calendar document: `document` is `None` where the
/// document could not be loaded. A document for which the parser reports an
/// error counts as missing; a text in which the parser finds no event is the
/// calendar of a room without events.
pub fn evaluate_room(
    destination: &RoomId,
    name: &str,
    document: Option<&str>,
    window: &Window,
) -> (d: u128)
    ensures
        d == score(
            *destination,
            name@,
            events_in(
                match document {
                    Some(text) => Some(text@),
                    None => None,
                },
            ),
            *window,
        ),
{
    let events = match document {
        Some(text) => load_events(text),
        None => None,
    };
    score_room(destination, name, events.as_ref(), window)
}

/// Finds the `room_count` free rooms closest to the room `roomname` among
/// the cached `rooms`, closest first and rooms at the same distance in the
/// order of `rooms`. A room that is busy at the start of `window`, or whose
/// calendar is missing or unreadable, stays a candidate at the distance
/// `NO_CANDIDATE`. Where there are fewer rooms than `room_count`, all of them
/// are returned. Fails where `roomname` is no room code.
pub fn get_rooms(
    roomname: &str,
    rooms: &Vec<CachedRoom>,
    room_count: usize,
    window: &Window,
) -> (res: Result<Vec<Candidate>, SearchError>)
    ensures
        match parse_room(roomname@) {
            Some(destination) => res matches Ok(found) && found@ == ranking(
                candidates_of(destination, rooms@, *window),
                room_count as int,
            ),
            None => res matches Err(e) && e == SearchError::InvalidRoomIdentifier,
        },
        res matches Ok(found) ==> found.len() == (if room_count < rooms.len() {
            room_count
        } else {
            rooms.len()
        }),
{
    let destination = match RoomId::from_str(roomname) {
        Some(destination) => destination,
        None => {
            return Err(SearchError::InvalidRoomIdentifier);
        },
    };
    let mut candidates: Vec<Candidate> = Vec::new();
    let mut i: usize = 0;
    while i < rooms.len()
        invariant
            i <= rooms.len(),
            candidates@ == candidates_of(destination, rooms@.take(i as int), *window),
        decreases rooms.len() - i,
    {
        let room = &rooms[i];
        let distance = match &room.document {
            Some(text) => evaluate_room(&destination, room.name.as_str(), Some(text.as_str()), window),
            None => evaluate_room(&destination, room.name.as_str(), None, window),
        };
        candidates.push((room.name.clone(), distance));
        proof {
            let next = candidates_of(destination, rooms@.take(i + 1), *window);
            assert(rooms@.take(i + 1)[i as int] == *room);
            assert(candidates@ == next);
        }
        i = i + 1;
    }
    assert(rooms@.take(rooms.len() as int) == rooms@);
    proof {
        lemma_ranking_len(candidates@, room_count as int);
    }
    Ok(rank(candidates, room_count))
}

/// Where a search stands.
#[derive(Clone, Copy, Debug, PartialEq, Eq, Structural)]
pub enum SearchState {
    /// Nothing has been asked yet.
    Idle,
    /// The destination is known. The cache is being looked at, or, where
    /// `refreshing` says so, being refreshed.
    RefreshIfStale { destination: RoomId, refreshing: bool },
    /// The rooms of the cache are being listed.
    Enumerating { destination: RoomId, refreshed: bool },
    /// The rooms are being scored.
    Evaluating { destination: RoomId },
    /// The candidates are being ranked and cut to size.
    Ranked,
    /// The result has been handed over.
    Done,
    /// The search has failed.
    Failed(SearchError),
}

/// What the surroundings report to a search.
#[derive(Clone, Debug)]
pub enum SearchEvent {
    /// A search for the rooms closest to this room is asked for.
    Requested { destination_code: String },
    /// The cache has been looked at: whether it is there, whether it is
    /// stale, and whether a refresh is asked for in any case.
    CacheChecked { cache_present: bool, stale: bool, force: bool },
    /// The refresh has run to its end, whatever became of single sources.
    Refreshed,
    /// The refresh could not go on.
    RefreshFailed(AcquisitionError),
    /// The cache lists this many rooms.
    Listed { rooms: usize },
    /// The cache could not be listed.
    ListingFailed,
    /// Every room has its score.
    Evaluated,
    /// The ranked rooms have been handed to the caller.
    Delivered,
}

/// What a search asks of its surroundings next.
#[derive(Clone, Copy, Debug, PartialEq, Eq, Structural)]
pub enum SearchAction {
    /// Look whether the cache is there and how old it is.
    CheckCache,
    /// Refresh the cache.
    Refresh,
    /// List the rooms of the cache.
    ListRooms,
    /// Score every room of the cache for this destination.
    EvaluateRooms { destination: RoomId },
    /// Rank the candidates and hand them to the caller.
    RankAndDeliver,
    /// Report this error to the caller.
    Fail(SearchError),
    /// Nothing: the search is over, or the event does not belong here.
    Nothing,
}

/// The step of a search that fails with `error`.
pub open spec fn failure(error: SearchError) -> (SearchState, SearchAction) {
    (SearchState::Failed(error), SearchAction::Fail(error))
}

/// The step that a search in `state` takes on `event`: its next state and
/// what it asks for. An event that the state does not wait for changes
/// nothing.
pub open spec fn next_step(state: SearchState, event: SearchEvent) -> (SearchState, SearchAction) {
    match (state, event) {
        (SearchState::Idle, SearchEvent::Requested { destination_code }) => {
            match parse_room(destination_code@) {
                None => failure(SearchError::InvalidRoomIdentifier),
                Some(destination) => (
                    SearchState::RefreshIfStale { destination, refreshing: false },
                    SearchAction::CheckCache,
                ),
            }
        },
        (
            SearchState::RefreshIfStale { destination, refreshing: false },
            SearchEvent::CacheChecked { cache_present, stale, force },
        ) => {
            if refresh_due(cache_present, stale, force) {
                (SearchState::RefreshIfStale { destination, refreshing: true }, SearchAction::Refresh)
            } else {
                (
                    SearchState::Enumerating { destination, refreshed: false },
                    SearchAction::ListRooms,
                )
            }
        },
        (SearchState::RefreshIfStale { destination, refreshing: true }, SearchEvent::Refreshed) => (
            SearchState::Enumerating { destination, refreshed: true },
            SearchAction::ListRooms,
        ),
        (
            SearchState::RefreshIfStale { refreshing: true, .. },
            SearchEvent::RefreshFailed(error),
        ) => failure(SearchError::Acquisition(error)),
        (SearchState::Enumerating { destination, refreshed }, SearchEvent::Listed { rooms }) => {
            if refreshed && rooms == 0 {
                failure(SearchError::NoCalendarData)
            } else {
                (SearchState::Evaluating { destination }, SearchAction::EvaluateRooms { destination })
            }
        },
        (SearchState::Enumerating { .. }, SearchEvent::ListingFailed) => failure(
            SearchError::CacheUnavailable,
        ),
        (SearchState::Evaluating { .. }, SearchEvent::Evaluated) => (
            SearchState::Ranked,
            SearchAction::RankAndDeliver,
        ),
        (SearchState::Ranked, SearchEvent::Delivered) => (SearchState::Done, SearchAction::Nothing),
        _ => (state, SearchAction::Nothing),
    }
}

/// How far a search has come: the states in their order, the two final
/// states last.
pub open spec fn progress(state: SearchState) -> int {
    match state {
        SearchState::Idle => 0,
        SearchState::RefreshIfStale { refreshing: false, .. } => 1,
        SearchState::RefreshIfStale { refreshing: true, .. } => 2,
        SearchState::Enumerating { .. } => 3,
        SearchState::Evaluating { .. } => 4,
        SearchState::Ranked => 5,
        SearchState::Done => 6,
        SearchState::Failed(_) => 6,
    }
}

/// Takes the step of a search in `state` on `event`.
pub fn step(state: SearchState, event: &SearchEvent) -> (res: (SearchState, SearchAction))
    ensures
        res == next_step(state, *event),
{
    match (state, event) {
        (SearchState::Idle, SearchEvent::Requested { destination_code }) => {
            match RoomId::from_str(destination_code.as_str()) {
                None => fail(SearchError::InvalidRoomIdentifier),
                Some(destination) => (
                    SearchState::RefreshIfStale { destination, refreshing: false },
                    SearchAction::CheckCache,
                ),
            }
        },
        (
            SearchState::RefreshIfStale { destination, refreshing: false },
            SearchEvent::CacheChecked { cache_present, stale, force },
        ) => {
            if needs_refresh(*cache_present, *stale, *force) {
                (SearchState::RefreshIfStale { destination, refreshing: true }, SearchAction::Refresh)
            } else {
                (
                    SearchState::Enumerating { destination, refreshed: false },
                    SearchAction::ListRooms,
                )
            }
        },
        (SearchState::RefreshIfStale { destination, refreshing: true }, SearchEvent::Refreshed) => (
            SearchState::Enumerating { destination, refreshed: true },
            SearchAction::ListRooms,
        ),
        (
            SearchState::RefreshIfStale { refreshing: true, .. },
            SearchEvent::RefreshFailed(error),
        ) => fail(SearchError::Acquisition(*error)),
        (SearchState::Enumerating { destination, refreshed }, SearchEvent::Listed { rooms }) => {
            if refreshed && *rooms == 0 {
                fail(SearchError::NoCalendarData)
            } else {
                (SearchState::Evaluating { destination }, SearchAction::EvaluateRooms { destination })
            }
        },
        (SearchState::Enumerating { .. }, SearchEvent::ListingFailed) => fail(
            SearchError::CacheUnavailable,
        ),
        (SearchState::Evaluating { .. }, SearchEvent::Evaluated) => (
            SearchState::Ranked,
            SearchAction::RankAndDeliver,
        ),
        (SearchState::Ranked, SearchEvent::Delivered) => (SearchState::Done, SearchAction::Nothing),
        _ => (state, SearchAction::Nothing),
    }
}

/// Computes `failure`.
fn fail(error: SearchError) -> (res: (SearchState, SearchAction))
    ensures
        res == failure(error),
{
    (SearchState::Failed(error), SearchAction::Fail(error))
}

/// A search whose destination is no room code fails at once. Nothing is asked
/// of the cache before the destination has been read: the one thing that a
/// search which has not begun can ask for is a look at the cache, and it asks
/// for it only when it is asked for a destination that is a room code.
pub proof fn lemma_invalid_destination_fails_first(event: SearchEvent)
    ensures
        event matches SearchEvent::Requested { destination_code } ==> (parse_room(
            destination_code@,
        ) is None <==> next_step(SearchState::Idle, event) == failure(
            SearchError::InvalidRoomIdentifier,
        )),
        event matches SearchEvent::Requested { destination_code } ==> (parse_room(
            destination_code@,
        ) is Some <==> next_step(SearchState::Idle, event).1 == SearchAction::CheckCache),
        !(event is Requested) ==> next_step(SearchState::Idle, event) == (
            SearchState::Idle,
            SearchAction::Nothing,
        ),
{
}

/// A search never goes back: a step either leaves the state as it is and asks
/// for nothing, or moves it forward. A finished or failed search stays as it
/// is whatever is reported to it.
pub proof fn lemma_search_moves_forward(state: SearchState, event: SearchEvent)
    ensures
        next_step(state, event).0 == state && next_step(state, event).1 == SearchAction::Nothing
            || progress(next_step(state, event).0) > progress(state),
        progress(state) == 6 ==> next_step(state, event) == (state, SearchAction::Nothing),
{
}

/// A search fails in four ways only: on a destination that is no room code
/// when it is asked for, on a refresh that could not go on, on a cache that a
/// refresh left empty, and on a cache that cannot be listed.
pub proof fn lemma_search_failures(state: SearchState, event: SearchEvent, error: SearchError)
    requires
        next_step(state, event).0 == SearchState::Failed(error),
        state != SearchState::Failed(error),
    ensures
        match error {
            SearchError::InvalidRoomIdentifier => state == SearchState::Idle && (
            event matches SearchEvent::Requested { destination_code } && parse_room(
                destination_code@,
            ) is None),
            SearchError::Acquisition(e) => (state matches SearchState::RefreshIfStale {
                refreshing: true,
                ..
            }) && event == SearchEvent::RefreshFailed(e),
            SearchError::NoCalendarData => (state matches SearchState::Enumerating {
                refreshed: true,
                ..
            }) && (event matches SearchEvent::Listed { rooms: 0 }),
            SearchError::CacheUnavailable => state is Enumerating && event is ListingFailed,
        },
{
}

/// A refresh that could not go on ends the search: the error is reported,
/// and nothing is listed, scored or ranked after it, whatever is reported.
pub proof fn lemma_failed_refresh_ends_the_search(
    destination: RoomId,
    error: AcquisitionError,
    later: SearchEvent,
)
    ensures
        next_step(
            SearchState::RefreshIfStale { destination, refreshing: true },
            SearchEvent::RefreshFailed(error),
        ) == failure(SearchError::Acquisition(error)),
        next_step(SearchState::Failed(SearchError::Acquisition(error)), later) == (
            SearchState::Failed(SearchError::Acquisition(error)),
            SearchAction::Nothing,
        ),
{
}

/// A refresh runs exactly where the cache is missing, stale, or to be
/// refreshed in any case.
pub proof fn lemma_refresh_when_due(
    destination: RoomId,
    cache_present: bool,
    stale: bool,
    force: bool,
)
    ensures
        next_step(
            SearchState::RefreshIfStale { destination, refreshing: false },
            SearchEvent::CacheChecked { cache_present, stale, force },
        ).1 == (if !cache_present || stale || force {
            SearchAction::Refresh
        } else {
            SearchAction::ListRooms
        }),
{
}

/// Every room is scored by itself: its candidate depends on its own name and
/// calendar only, so a room whose calendar is missing or unreadable changes
/// the score of no other room.
pub proof fn lemma_rooms_scored_one_by_one(
    destination: RoomId,
    rooms: Seq<CachedRoom>,
    others: Seq<CachedRoom>,
    i: int,
    window: Window,
)
    requires
        0 <= i < rooms.len(),
        i < others.len(),
        others[i] == rooms[i],
    ensures
        candidates_of(destination, rooms, window).len() == rooms.len(),
        candidates_of(destination, rooms, window)[i] == candidate_of(destination, rooms[i], window),
        candidates_of(destination, rooms, window)[i] == candidates_of(
            destination,
            others,
            window,
        )[i],
{
}

/// A room that is busy, or whose calendar is missing, scores `NO_CANDIDATE`;
/// a free room with a room code for its name scores less.
pub proof fn lemma_score(
    destination: RoomId,
    name: Seq<char>,
    events: Option<Seq<CalendarEvent>>,
    window: Window,
)
    ensures
        0 <= score(destination, name, events, window) <= NO_CANDIDATE,
        score(destination, name, events, window) < NO_CANDIDATE <==> (events matches Some(e)
            && free_in(e, window) && parse_room(name) is Some),
{
}

} // verus!
