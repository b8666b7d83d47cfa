//! What the library knows of the media player: the playing track, its
//! textual rendering, and the cache that answers repeated queries.

use vstd::prelude::*;
use crate::text::{padded2, join, push_char, push_padded2, push_str, string_of};

verus! {

/// Playback state of a player.
#[derive(Debug, Clone, Copy, PartialEq, Eq, Structural)]
pub enum PlaybackStatus {
    /// A track is currently playing.
    Playing,
    /// A track is currently paused.
    Paused,
    /// There is no track currently playing.
    Stopped,
}

/// The name of a playback state, as the player reports it.
pub open spec fn status_name(s: PlaybackStatus) -> Seq<char> {
    match s {
        PlaybackStatus::Playing => seq!['P', 'l', 'a', 'y', 'i', 'n', 'g'],
        PlaybackStatus::Paused => seq!['P', 'a', 'u', 's', 'e', 'd'],
        PlaybackStatus::Stopped => seq!['S', 't', 'o', 'p', 'p', 'e', 'd'],
    }
}

impl PlaybackStatus {
    /// The name of the state.
    pub fn name(&self) -> (r: &'static str)
        ensures
            r@ == status_name(*self),
    {
        match self {
            PlaybackStatus::Playing => {
                proof {
                    reveal_strlit("Playing");
                }
                "Playing"
            },
            PlaybackStatus::Paused => {
                proof {
                    reveal_strlit("Paused");
                }
                "Paused"
            },
            PlaybackStatus::Stopped => {
                proof {
                    reveal_strlit("Stopped");
                }
                "Stopped"
            },
        }
    }
}

/// Information about the currently playing track.
#[derive(Debug, Clone)]
pub struct PlayingInfo {
    /// Current position, in microseconds.
    pub position_us: u64,
    /// Total length, in microseconds.
    pub length_us: u64,
    /// Playback state (e.g., Playing, Paused).
    pub state: String,
    /// Title of the track.
    pub title: String,
    /// Artist of the track.
    pub artist: String,
}

/// The title shown when the player reports none.
pub open spec fn unknown_title() -> Seq<char> {
    seq!['U', 'n', 'k', 'n', 'o', 'w', 'n', ' ', 'T', 'i', 't', 'l', 'e']
}

/// The artist shown when the player reports none.
pub open spec fn unknown_artist() -> Seq<char> {
    seq!['U', 'n', 'k', 'n', 'o', 'w', 'n', ' ', 'A', 'r', 't', 'i', 's', 't']
}

/// The separator between several artists.
pub open spec fn artist_separator() -> Seq<char> {
    seq![',', ' ']
}

/// `[h:]mm:ss` for a whole number of seconds: hours only when there are any,
/// every field at least two digits wide.
pub open spec fn duration_text(total: nat) -> Seq<char> {
    let minutes = total / 60;
    let seconds = total % 60;
    let hours = minutes / 60;
    let head = if hours > 0 {
        padded2(hours).push(':')
    } else {
        Seq::empty()
    };
    head + padded2(minutes % 60).push(':') + padded2(seconds)
}

/// Whole seconds of a duration in microseconds, saturated to the `u32` range.
pub open spec fn whole_seconds(us: nat) -> nat {
    let s = us / 1_000_000;
    if s > u32::MAX {
        u32::MAX as nat
    } else {
        s
    }
}

/// `artist - title [position / length]`.
pub open spec fn info_text(info: PlayingInfo) -> Seq<char> {
    info.artist@ + seq![' ', '-', ' '] + info.title@ + seq![' ', '['] + duration_text(
        whole_seconds(info.position_us as nat),
    ) + seq![' ', '/', ' '] + duration_text(whole_seconds(info.length_us as nat)) + seq![']']
}

/// Formats a whole number of seconds as `[hh:]mm:ss`.
pub fn format_duration(total_seconds: u32) -> (r: String)
    ensures
        r@ == duration_text(total_seconds as nat),
{
    let minutes = total_seconds / 60;
    let seconds = total_seconds % 60;
    let hours = minutes / 60;
    let mut s = String::new();
    if hours > 0 {
        push_padded2(&mut s, hours as u64);
        push_char(&mut s, ':');
    }
    let ghost head = s@;
    push_padded2(&mut s, (minutes % 60) as u64);
    push_char(&mut s, ':');
    push_padded2(&mut s, seconds as u64);
    proof {
        let h = if hours > 0 {
            padded2(hours as nat).push(':')
        } else {
            Seq::empty()
        };
        assert(head =~= h);
        assert(s@ =~= h + padded2((minutes % 60) as nat).push(':') + padded2(seconds as nat));
    }
    s
}

/// Whole seconds of a duration in microseconds, saturated to `u32`.
fn seconds_of(us: u64) -> (r: u32)
    ensures
        r == whole_seconds(us as nat),
{
    let s = us / 1_000_000;
    if s > u32::MAX as u64 {
        u32::MAX
    } else {
        s as u32
    }
}

/// Merges the artists into one string, with `, ` between them.
fn join_artists(artists: &Vec<String>) -> (r: String)
    ensures
        r@ == join(artists@.map_values(|a: String| a@), artist_separator()),
{
    let ghost parts = artists@.map_values(|a: String| a@);
    let mut out = String::new();
    let mut i: usize = 0;
    while i < artists.len()
        invariant
            i <= artists.len(),
            parts == artists@.map_values(|a: String| a@),
            out@ == join(parts.take(i as int), artist_separator()),
        decreases artists.len() - i,
    {
        if i > 0 {
            push_char(&mut out, ',');
            push_char(&mut out, ' ');
        }
        push_str(&mut out, artists[i].as_str());
        proof {
            let next = parts.take(i + 1);
            assert(next.drop_last() =~= parts.take(i as int));
            assert(out@ =~= join(next, artist_separator()));
        }
        i = i + 1;
    }
    assert(parts.take(artists.len() as int) =~= parts);
    out
}

/// The copy of an optional track that a reply hands out.
pub fn copy_info(info: &Option<PlayingInfo>) -> (r: Option<PlayingInfo>)
    ensures
        r == *info,
{
    match info {
        Some(i) => Some(
            PlayingInfo {
                position_us: i.position_us,
                length_us: i.length_us,
                state: i.state.clone(),
                title: i.title.clone(),
                artist: i.artist.clone(),
            },
        ),
        None => None,
    }
}

impl PlayingInfo {
    /// Builds the track information from what the player reports: a missing
    /// title or artist list becomes `Unknown Title` / `Unknown Artist`,
    /// several artists are joined with `, `, a missing length counts as zero
    /// and a missing playback state as `Stopped`.
    pub fn from_metadata(
        title: Option<String>,
        artists: Option<Vec<String>>,
        length_us: Option<u64>,
        position_us: u64,
        status: Option<PlaybackStatus>,
    ) -> (r: PlayingInfo)
        ensures
            r.title@ == match title {
                Some(t) => t@,
                None => unknown_title(),
            },
            r.artist@ == match artists {
                Some(a) => join(a@.map_values(|x: String| x@), artist_separator()),
                None => unknown_artist(),
            },
            r.length_us == match length_us {
                Some(l) => l,
                None => 0,
            },
            r.position_us == position_us,
            r.state@ == status_name(
                match status {
                    Some(s) => s,
                    None => PlaybackStatus::Stopped,
                },
            ),
    {
        let title = match title {
            Some(t) => t,
            None => {
                let v: Vec<char> = vec!['U', 'n', 'k', 'n', 'o', 'w', 'n', ' ', 'T', 'i', 't', 'l', 'e'];
                let s = string_of(v.as_slice());
                assert(s@ =~= unknown_title());
                s
            },
        };
        let artist = match &artists {
            Some(a) => join_artists(a),
            None => {
                let v: Vec<char> = vec!['U', 'n', 'k', 'n', 'o', 'w', 'n', ' ', 'A', 'r', 't', 'i', 's', 't'];
                let s = string_of(v.as_slice());
                assert(s@ =~= unknown_artist());
                s
            },
        };
        let length = match length_us {
            Some(l) => l,
            None => 0,
        };
        let st = match status {
            Some(s) => s,
            None => PlaybackStatus::Stopped,
        };
        let mut state = String::new();
        push_str(&mut state, st.name());
        assert(state@ =~= status_name(st));
        PlayingInfo { position_us, length_us: length, state, title, artist }
    }

    /// `artist - title [position / length]`, with the times as `[hh:]mm:ss`.
    pub fn describe(&self) -> (r: String)
        ensures
            r@ == info_text(*self),
    {
        let mut s = String::new();
        push_str(&mut s, self.artist.as_str());
        push_char(&mut s, ' ');
        push_char(&mut s, '-');
        push_char(&mut s, ' ');
        push_str(&mut s, self.title.as_str());
        push_char(&mut s, ' ');
        push_char(&mut s, '[');
        let pos = format_duration(seconds_of(self.position_us));
        push_str(&mut s, pos.as_str());
        push_char(&mut s, ' ');
        push_char(&mut s, '/');
        push_char(&mut s, ' ');
        let len = format_duration(seconds_of(self.length_us));
        push_str(&mut s, len.as_str());
        push_char(&mut s, ']');
        assert(s@ =~= info_text(*self));
        s
    }
}

/// What the cache answers to a request for the playing track.
#[derive(Debug)]
pub enum CacheAnswer {
    /// The last fetched information is still fresh: reply with it.
    Cached(Option<PlayingInfo>),
    /// The information must be fetched from the player again.
    Refresh,
}

/// The state of the player server between requests: the last fetched track
/// information, when it was fetched, and how long it stays fresh. Times are
/// nanoseconds on a monotonic clock.
pub struct InfoCache {
    ttl_ns: u64,
    info: Option<PlayingInfo>,
    fetched_at: Option<u64>,
}

impl InfoCache {
    /// How long fetched information stays fresh.
    pub closed spec fn ttl(&self) -> nat {
        self.ttl_ns as nat
    }

    /// The last fetched information.
    pub closed spec fn cached(&self) -> Option<PlayingInfo> {
        self.info
    }

    /// When the information was last fetched, if ever.
    pub closed spec fn fetched_at(&self) -> Option<nat> {
        match self.fetched_at {
            Some(t) => Some(t as nat),
            None => None,
        }
    }

    /// Whether information fetched at `fetched_at` is still fresh at `now`:
    /// the fetch time plus the time to live lies after `now`.
    pub open spec fn is_fresh(&self, now: nat) -> bool {
        match self.fetched_at() {
            Some(t) => t + self.ttl() > now,
            None => false,
        }
    }

    /// What a request at `now` is answered.
    pub open spec fn answer(&self, now: nat) -> CacheAnswer {
        if self.is_fresh(now) {
            CacheAnswer::Cached(self.cached())
        } else {
            CacheAnswer::Refresh
        }
    }

    /// An empty cache whose entries stay fresh for `ttl_ns` nanoseconds.
    pub fn new(ttl_ns: u64) -> (r: InfoCache)
        ensures
            r.ttl() == ttl_ns,
            r.cached() is None,
            r.fetched_at() is None,
    {
        InfoCache { ttl_ns, info: None, fetched_at: None }
    }

    /// Answers a request for the playing track made at `now`: the cached
    /// information while it is fresh, otherwise a request to refresh.
    pub fn lookup(&self, now: u64) -> (r: CacheAnswer)
        ensures
            r == self.answer(now as nat),
    {
        match self.fetched_at {
            Some(t) => {
                let fresh = if now < t {
                    true
                } else {
                    now - t < self.ttl_ns
                };
                if fresh {
                    CacheAnswer::Cached(copy_info(&self.info))
                } else {
                    CacheAnswer::Refresh
                }
            },
            None => CacheAnswer::Refresh,
        }
    }

    /// Completes a refresh finished at `now`. `fetched` is `None` when no
    /// active player was found: the reply is empty and the cache stays as it
    /// was. Otherwise it holds what the player reported (itself `None` when
    /// the player's metadata could not be read): that is stored and is the
    /// reply.
    pub fn refresh(&mut self, fetched: Option<Option<PlayingInfo>>, now: u64) -> (r: Option<PlayingInfo>)
        ensures
            match fetched {
                None => r is None && *final(self) == *old(self),
                Some(info) => {
                    &&& r == info
                    &&& final(self).ttl() == old(self).ttl()
                    &&& final(self).cached() == info
                    &&& final(self).fetched_at() == Some(now as nat)
                },
            },
    {
        match fetched {
            None => None,
            Some(info) => {
                let reply = copy_info(&info);
                self.store(info, now);
                reply
            },
        }
    }

    /// Records information fetched from the player at `now`.
    pub fn store(&mut self, info: Option<PlayingInfo>, now: u64)
        ensures
            final(self).ttl() == old(self).ttl(),
            final(self).cached() == info,
            final(self).fetched_at() == Some(now as nat),
    {
        self.info = info;
        self.fetched_at = Some(now);
    }
}

/// What is stored is what is answered: once information was stored at time
/// `t` (the state `store` leaves), every request before `t` plus the time to
/// live is answered with that information, and every later request asks for
/// a refresh.
pub proof fn lemma_read_after_store(c: InfoCache, info: Option<PlayingInfo>, t: nat, now: nat)
    requires
        c.cached() == info,
        c.fetched_at() == Some(t),
    ensures
        now < t + c.ttl() ==> c.answer(now) == CacheAnswer::Cached(info),
        now >= t + c.ttl() ==> c.answer(now) == CacheAnswer::Refresh,
{
}

/// A cache that was never filled always asks for a refresh, and so does one
/// whose entries live for no time, at any request made no earlier than the
/// last fetch.
pub proof fn lemma_refresh_without_fresh_entry(c: InfoCache, now: nat)
    requires
        c.fetched_at() is None || (c.ttl() == 0 && c.fetched_at().unwrap() <= now),
    ensures
        c.answer(now) == CacheAnswer::Refresh,
{
}

} // verus!
