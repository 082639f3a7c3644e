use vstd::prelude::*;

use crate::client::{ClientError, NotificationHandler, Outgoing, PokerClient};
use crate::models::{
    card_text, CardValue, GamePhase, LogEntry, LogLevel, LogRecord, LogSource, Player, Room,
    UserType, Vote, VoteData,
};
use crate::text::{eq_ignore_ascii_case, parse_u8, parse_u8_spec, same_ignoring_ascii_case, trim, trimmed};

verus! {

/// Milliseconds between the moment the own vote is found to be the last one missing and the
/// notification.
pub const NOTIFY_DELAY_MS: u64 = 8000;

/// Milliseconds between the last vote and the automatic reveal.
pub const AUTO_REVEAL_DELAY_MS: u64 = 3000;

/// The terminal window gained or lost the input focus.
#[derive(Debug, Clone, Copy, PartialEq, Eq, Structural)]
pub enum FocusChange {
    Gained,
    Lost,
}

/// The settings that the session reads.
#[derive(Debug, Clone, PartialEq, Eq)]
pub struct Config {
    pub name: String,
    pub room: String,
    pub server: String,
    pub skip_update_check: bool,
    pub disable_notifications: bool,
    pub disable_auto_reveal: bool,
    pub keep_backup_on_update: bool,
}

/// The mean of the revealed numeric votes, as the exact fraction `sum / count`.
#[derive(Debug, Clone, Copy, PartialEq, Eq, Structural)]
pub struct VoteAverage {
    pub sum: u128,
    pub count: usize,
}

/// A finished round, recorded when its cards were revealed.
#[derive(Debug)]
pub struct HistoryEntry {
    pub round_number: u32,
    /// `None` when no numeric card was revealed.
    pub average: Option<VoteAverage>,
    /// Milliseconds from the start of the round to the reveal.
    pub length: u64,
    pub votes: Vec<Player>,
    pub deck: Vec<String>,
    pub own_vote: Option<VoteData>,
}

/// A finished round as a mathematical value.
pub struct RoundRecord {
    pub round_number: u32,
    pub average: Option<VoteAverage>,
    pub length: u64,
    pub votes: Seq<Player>,
    pub deck: Seq<String>,
    pub own_vote: Option<CardValue>,
}

pub open spec fn card_view(v: Option<VoteData>) -> Option<CardValue> {
    match v {
        Some(d) => Some(d@),
        None => None,
    }
}

impl View for HistoryEntry {
    type V = RoundRecord;

    open spec fn view(&self) -> RoundRecord {
        RoundRecord {
            round_number: self.round_number,
            average: self.average,
            length: self.length,
            votes: self.votes@,
            deck: self.deck@,
            own_vote: card_view(self.own_vote),
        }
    }
}

/// The session's state, without the transport and the notifier.
pub struct Session {
    pub running: bool,
    pub vote: Option<CardValue>,
    pub name: Seq<char>,
    pub room: Room,
    pub log: Seq<LogRecord>,
    pub round_number: u32,
    pub round_start: u64,
    pub config: Config,
    pub has_focus: bool,
    pub notify_vote_at: Option<u64>,
    pub is_notified: bool,
    pub has_updates: bool,
    pub auto_reveal_at: Option<u64>,
    pub history: Seq<RoundRecord>,
    /// Every request handed to the transport, oldest first.
    pub sent: Seq<Outgoing>,
    /// How many notifications were delivered.
    pub alerts: nat,
}

/// A session with a poker room: the last room snapshot, the own vote, round bookkeeping,
/// timers for the missing-vote notification and the automatic reveal, the log and the
/// history of finished rounds. Times are milliseconds on one clock that the caller reads.
pub struct App<C: PokerClient, N: NotificationHandler> {
    pub running: bool,
    pub vote: Option<VoteData>,
    pub name: String,
    pub room: Room,
    pub client: C,
    pub log: Vec<LogEntry>,
    pub round_number: u32,
    pub round_start: u64,
    pub config: Config,
    pub has_focus: bool,
    pub notify_vote_at: Option<u64>,
    pub is_notified: bool,
    pub has_updates: bool,
    pub auto_reveal_at: Option<u64>,
    pub history: Vec<HistoryEntry>,
    pub notification_handler: N,
    pub sent: Ghost<Seq<Outgoing>>,
    pub alerts: Ghost<nat>,
}

impl<C: PokerClient, N: NotificationHandler> View for App<C, N> {
    type V = Session;

    open spec fn view(&self) -> Session {
        Session {
            running: self.running,
            vote: card_view(self.vote),
            name: self.name@,
            room: self.room,
            log: self.log@.map_values(|e: LogEntry| e@),
            round_number: self.round_number,
            round_start: self.round_start,
            config: self.config,
            has_focus: self.has_focus,
            notify_vote_at: self.notify_vote_at,
            is_notified: self.is_notified,
            has_updates: self.has_updates,
            auto_reveal_at: self.auto_reveal_at,
            history: self.history@.map_values(|h: HistoryEntry| h@),
            sent: self.sent@,
            alerts: self.alerts@,
        }
    }
}

// ---------------------------------------------------------------------------------------
// The model of the session
// ---------------------------------------------------------------------------------------

/// `now + delay`, held at the largest time.
pub open spec fn later(now: u64, delay: u64) -> u64 {
    if now + delay > u64::MAX {
        u64::MAX
    } else {
        (now + delay) as u64
    }
}

/// The time from `start` to `now`, or 0 if the clock went back.
pub open spec fn elapsed(start: u64, now: u64) -> u64 {
    if now >= start {
        (now - start) as u64
    } else {
        0
    }
}

/// The next round number, held at the largest number.
pub open spec fn next_round(n: u32) -> u32 {
    if n < u32::MAX {
        (n + 1) as u32
    } else {
        n
    }
}

/// A voter whose card is still missing: spectators never count.
pub open spec fn is_missing_voter(p: Player) -> bool {
    p.user_type == UserType::Player && p.vote is Missing
}

pub open spec fn missing_count(s: Seq<Player>) -> nat
    decreases s.len(),
{
    if s.len() == 0 {
        0
    } else {
        missing_count(s.drop_last()) + if is_missing_voter(s.last()) {
            1nat
        } else {
            0nat
        }
    }
}

/// The own vote is the only one missing in a round of more than one player.
pub open spec fn my_vote_last_missing(room: Room) -> bool {
    &&& room.players@.len() > 1
    &&& room.phase == GamePhase::Playing
    &&& missing_count(room.players@) == 1
    &&& exists|i: int|
        0 <= i < room.players@.len() && is_missing_voter(#[trigger] room.players@[i])
            && room.players@[i].is_you
}

/// An automatic reveal cannot go ahead: the round is over, or a voter's card is missing.
pub open spec fn auto_reveal_blocked(room: Room) -> bool {
    room.phase != GamePhase::Playing || exists|i: int|
        0 <= i < room.players@.len() && is_missing_voter(#[trigger] room.players@[i])
}

/// The revealed numeric cards, in player order.
pub open spec fn revealed_numbers(s: Seq<Player>) -> Seq<u8>
    decreases s.len(),
{
    if s.len() == 0 {
        Seq::empty()
    } else {
        let rest = revealed_numbers(s.drop_last());
        match s.last().vote {
            Vote::Revealed(VoteData::Number(n)) => rest.push(n),
            _ => rest,
        }
    }
}

pub open spec fn sum_of(s: Seq<u8>) -> nat
    decreases s.len(),
{
    if s.len() == 0 {
        0
    } else {
        sum_of(s.drop_last()) + s.last() as nat
    }
}

/// The mean of the revealed numeric cards; special, hidden and missing cards do not count.
pub open spec fn average_of(players: Seq<Player>) -> Option<VoteAverage> {
    let nums = revealed_numbers(players);
    if nums.len() == 0 {
        None
    } else {
        Some(VoteAverage { sum: sum_of(nums) as u128, count: nums.len() as usize })
    }
}

pub open spec fn client_record(now: u64, level: LogLevel, message: Seq<char>) -> LogRecord {
    LogRecord {
        timestamp: now,
        level,
        message,
        source: LogSource::Client,
        server_index: None,
    }
}

pub open spec fn last_missing_text() -> Seq<char> {
    "Your vote is the last one missing."@
}

pub open spec fn not_in_deck_text(card: Seq<char>) -> Seq<char> {
    "Card is not in the deck: "@ + card
}

/// The record of the round that ends now in `s`, whose room has just been revealed.
pub open spec fn round_record(s: Session, now: u64) -> RoundRecord {
    RoundRecord {
        round_number: s.round_number,
        average: average_of(s.room.players@),
        length: elapsed(s.round_start, now),
        votes: s.room.players@,
        deck: s.room.deck@,
        own_vote: s.vote,
    }
}

/// What happens when the phase of the room in `s` is new: a new round starts, or the round
/// that ends goes into the history.
pub open spec fn entered_phase(s: Session, now: u64) -> Session {
    let s1 = if s.room.phase == GamePhase::Playing {
        Session {
            vote: None,
            round_number: next_round(s.round_number),
            is_notified: false,
            notify_vote_at: None,
            round_start: now,
            ..s
        }
    } else {
        s
    };
    let s2 = Session { has_updates: true, ..s1 };
    if s.room.phase == GamePhase::Revealed {
        Session { history: s2.history.push(round_record(s2, now)), ..s2 }
    } else {
        s2
    }
}

/// Schedules the missing-vote notification once, or drops it when it no longer applies.
pub open spec fn checked_last_missing(s: Session, now: u64) -> Session {
    if my_vote_last_missing(s.room) {
        if !s.is_notified && s.notify_vote_at is None {
            Session {
                log: s.log.push(client_record(now, LogLevel::Info, last_missing_text())),
                notify_vote_at: Some(later(now, NOTIFY_DELAY_MS)),
                has_updates: true,
                ..s
            }
        } else {
            s
        }
    } else {
        Session { notify_vote_at: None, ..s }
    }
}

/// Drops a pending automatic reveal that can no longer go ahead.
pub open spec fn checked_auto_reveal_cancel(s: Session) -> Session {
    if s.auto_reveal_at is Some && auto_reveal_blocked(s.room) {
        Session { auto_reveal_at: None, ..s }
    } else {
        s
    }
}

/// The session after the room snapshot `update` arrived at `now`.
pub open spec fn merged(s: Session, update: Room, now: u64) -> Session {
    let s1 = Session { room: update, ..s };
    let s2 = if s.room.phase != update.phase {
        entered_phase(s1, now)
    } else {
        s1
    };
    checked_auto_reveal_cancel(checked_last_missing(s2, now))
}

/// The session after the snapshots `updates` arrived at `now`, in order.
pub open spec fn merged_all(s: Session, updates: Seq<Room>, now: u64) -> Session
    decreases updates.len(),
{
    if updates.len() == 0 {
        s
    } else {
        merged(merged_all(s, updates.drop_last(), now), updates.last(), now)
    }
}

pub open spec fn has_index(log: Seq<LogRecord>, k: u32) -> bool {
    exists|i: int| 0 <= i < log.len() && (#[trigger] log[i]).server_index == Some(k)
}

/// Adds a server log entry unless an entry with its index is already there; entries
/// without an index are always added.
pub open spec fn with_server_entry(log: Seq<LogRecord>, e: LogRecord) -> Seq<LogRecord> {
    match e.server_index {
        Some(k) => if has_index(log, k) {
            log
        } else {
            log.push(e)
        },
        None => log.push(e),
    }
}

pub open spec fn merged_log(log: Seq<LogRecord>, batch: Seq<LogRecord>) -> Seq<LogRecord>
    decreases batch.len(),
{
    if batch.len() == 0 {
        log
    } else {
        with_server_entry(merged_log(log, batch.drop_last()), batch.last())
    }
}

pub open spec fn records(entries: Seq<LogEntry>) -> Seq<LogRecord> {
    entries.map_values(|e: LogEntry| e@)
}

/// The session after the room snapshots and then the log entries of one poll.
pub open spec fn polled(s: Session, rooms: Seq<Room>, entries: Seq<LogEntry>, now: u64) -> Session {
    let s1 = merged_all(s, rooms, now);
    Session { log: merged_log(s1.log, records(entries)), ..s1 }
}

/// What a vote for the text `input` comes to in a room with `deck`.
pub enum VotePlan {
    /// "-": take the played card back.
    Retract,
    /// The card is not in the deck.
    Reject(Seq<char>),
    /// Play this card.
    Cast(CardValue),
}

pub open spec fn deck_has(deck: Seq<String>, card: Seq<char>) -> bool {
    exists|i: int| 0 <= i < deck.len() && same_ignoring_ascii_case(#[trigger] deck[i]@, card)
}

pub open spec fn vote_plan(deck: Seq<String>, input: Seq<char>) -> VotePlan {
    let card = trimmed(input);
    if card == "-"@ {
        VotePlan::Retract
    } else if !deck_has(deck, card) {
        VotePlan::Reject(card)
    } else {
        match parse_u8_spec(card) {
            Some(n) => VotePlan::Cast(CardValue::Number(n)),
            None => VotePlan::Cast(CardValue::Special(card)),
        }
    }
}

/// The session once the transport accepted the card `v`, voted at `now` in `s`.
pub open spec fn cast(s: Session, v: CardValue, now: u64) -> Session {
    Session {
        vote: Some(v),
        auto_reveal_at: if !s.config.disable_auto_reveal && my_vote_last_missing(s.room) {
            Some(later(now, AUTO_REVEAL_DELAY_MS))
        } else {
            s.auto_reveal_at
        },
        ..s
    }
}

/// The session after a vote for the text `input` at `now`; `accepted` says whether the
/// transport took the request.
pub open spec fn voted(s: Session, input: Seq<char>, now: u64, accepted: bool) -> Session {
    match vote_plan(s.room.deck@, input) {
        VotePlan::Retract => Session {
            vote: None,
            sent: s.sent.push(Outgoing::PlayCard(None)),
            ..s
        },
        VotePlan::Reject(card) => Session {
            log: s.log.push(client_record(now, LogLevel::Error, not_in_deck_text(card))),
            ..s
        },
        VotePlan::Cast(v) => {
            let s1 = Session { sent: s.sent.push(Outgoing::PlayCard(Some(card_text(v)))), ..s };
            if accepted {
                cast(s1, v, now)
            } else {
                s1
            }
        },
    }
}

/// The session after a reveal was asked for: the automatic reveal is off, and the request
/// goes out unless the cards are already revealed.
pub open spec fn revealed(s: Session) -> Session {
    let s1 = Session { auto_reveal_at: None, ..s };
    if s.room.phase != GamePhase::Revealed {
        Session { sent: s1.sent.push(Outgoing::RevealCards), ..s1 }
    } else {
        s1
    }
}

/// The missing-vote notification fires once its time has passed: it alerts the user unless
/// the window has focus or notifications are off, and is then done.
pub open spec fn checked_notification(s: Session, now: u64) -> Session {
    match s.notify_vote_at {
        Some(at) => if at < now && !s.is_notified {
            Session {
                alerts: if !s.has_focus && !s.config.disable_notifications {
                    s.alerts + 1
                } else {
                    s.alerts
                },
                is_notified: true,
                notify_vote_at: None,
                ..s
            }
        } else {
            s
        },
        None => s,
    }
}

pub open spec fn auto_reveal_due(s: Session, now: u64) -> bool {
    match s.auto_reveal_at {
        Some(at) => at < now,
        None => false,
    }
}

pub open spec fn ticked(s: Session, now: u64) -> Session {
    let s1 = checked_notification(s, now);
    if auto_reveal_due(s1, now) {
        revealed(s1)
    } else {
        s1
    }
}

// ---------------------------------------------------------------------------------------
// Executable parts
// ---------------------------------------------------------------------------------------

fn later_exec(now: u64, delay: u64) -> (r: u64)
    ensures
        r == later(now, delay),
{
    if now > u64::MAX - delay {
        u64::MAX
    } else {
        now + delay
    }
}

/// Whether `log` holds an entry with the server index `k`.
fn log_has_index(log: &Vec<LogEntry>, k: u32) -> (r: bool)
    ensures
        r == has_index(records(log@), k),
{
    let mut i: usize = 0;
    while i < log.len()
        invariant
            i <= log.len(),
            forall|j: int| 0 <= j < i ==> log@[j].server_index != Some(k),
        decreases log.len() - i,
    {
        if log[i].server_index == Some(k) {
            assert(records(log@)[i as int].server_index == Some(k));
            return true;
        }
        i = i + 1;
    }
    proof {
        if has_index(records(log@), k) {
            let j = choose|j: int|
                0 <= j < records(log@).len() && (#[trigger] records(log@)[j]).server_index
                    == Some(k);
            assert(log@[j].server_index == Some(k));
        }
    }
    false
}

/// Appends the server entries of `batch` in order, each unless its index is already there.
fn merge_server_log(log: &mut Vec<LogEntry>, batch: Vec<LogEntry>)
    ensures
        records(final(log)@) == merged_log(records(old(log)@), records(batch@)),
{
    let ghost start = records(log@);
    let mut i: usize = 0;
    assert(records(batch@).take(0) =~= Seq::<LogRecord>::empty());
    while i < batch.len()
        invariant
            i <= batch.len(),
            records(log@) == merged_log(start, records(batch@).take(i as int)),
        decreases batch.len() - i,
    {
        let e = batch[i].clone();
        let ghost before = records(log@);
        let add = match e.server_index {
            Some(k) => !log_has_index(log, k),
            None => true,
        };
        if add {
            log.push(e);
            assert(records(log@) =~= before.push(e@));
        }
        assert(records(batch@).take(i + 1).drop_last() =~= records(batch@).take(i as int));
        i = i + 1;
    }
    assert(records(batch@).take(batch.len() as int) =~= records(batch@));
}

impl<C: PokerClient, N: NotificationHandler> App<C, N> {
    /// Starts a session in `room`, with the server's log so far, at time `now`.
    pub fn new(
        config: Config,
        client: C,
        room: Room,
        log: Vec<LogEntry>,
        notification_handler: N,
        now: u64,
    ) -> (r: Self)
        ensures
            r@ == (Session {
                running: true,
                vote: None,
                name: config.name@,
                room,
                log: merged_log(Seq::empty(), records(log@)),
                round_number: 1,
                round_start: now,
                config,
                has_focus: true,
                notify_vote_at: None,
                is_notified: false,
                has_updates: false,
                auto_reveal_at: None,
                history: Seq::empty(),
                sent: Seq::empty(),
                alerts: 0,
            }),
            r.client == client,
            r.notification_handler == notification_handler,
    {
        let name = config.name.clone();
        let mut result = App {
            running: true,
            vote: None,
            name,
            room,
            client,
            log: Vec::new(),
            round_number: 1,
            round_start: now,
            config,
            has_focus: true,
            notify_vote_at: None,
            is_notified: false,
            has_updates: false,
            auto_reveal_at: None,
            history: Vec::new(),
            notification_handler,
            sent: Ghost(Seq::empty()),
            alerts: Ghost(0),
        };
        assert(records(result.log@) =~= Seq::<LogRecord>::empty());
        merge_server_log(&mut result.log, log);
        assert(result@.history =~= Seq::<RoundRecord>::empty());
        result
    }

    /// Whether the own vote is the only one missing (see `my_vote_last_missing`).
    pub fn is_my_vote_last_missing(&self) -> (r: bool)
        ensures
            r == my_vote_last_missing(self.room),
    {
        let players = &self.room.players;
        let mut count: usize = 0;
        let mut mine = false;
        let mut i: usize = 0;
        assert(players@.take(0) =~= Seq::<Player>::empty());
        while i < players.len()
            invariant
                players == &self.room.players,
                i <= players.len(),
                count <= i,
                count == missing_count(players@.take(i as int)),
                mine == exists|j: int|
                    0 <= j < i && is_missing_voter(#[trigger] players@[j]) && players@[j].is_you,
            decreases players.len() - i,
        {
            let p = &players[i];
            let missing = p.user_type == UserType::Player && matches!(p.vote, Vote::Missing);
            assert(players@.take(i + 1).drop_last() =~= players@.take(i as int));
            if missing {
                count = count + 1;
                if p.is_you {
                    mine = true;
                }
            }
            i = i + 1;
        }
        assert(players@.take(players.len() as int) =~= players@);
        players.len() > 1 && count == 1 && mine && self.room.phase == GamePhase::Playing
    }

    /// Whether a voter's card is still missing.
    fn any_vote_missing(&self) -> (r: bool)
        ensures
            r == exists|i: int|
                0 <= i < self.room.players@.len() && is_missing_voter(
                    #[trigger] self.room.players@[i],
                ),
    {
        let players = &self.room.players;
        let mut i: usize = 0;
        while i < players.len()
            invariant
                players == &self.room.players,
                i <= players.len(),
                forall|j: int| 0 <= j < i ==> !is_missing_voter(#[trigger] players@[j]),
            decreases players.len() - i,
        {
            let p = &players[i];
            if p.user_type == UserType::Player && matches!(p.vote, Vote::Missing) {
                return true;
            }
            i = i + 1;
        }
        false
    }

    /// Whether the deck holds `card`, ASCII case aside.
    pub fn deck_has_value(&self, card: &str) -> (r: bool)
        ensures
            r == deck_has(self.room.deck@, card@),
    {
        let deck = &self.room.deck;
        let mut i: usize = 0;
        while i < deck.len()
            invariant
                deck == &self.room.deck,
                i <= deck.len(),
                forall|j: int| 0 <= j < i ==> !same_ignoring_ascii_case(#[trigger] deck@[j]@, card@),
            decreases deck.len() - i,
        {
            if eq_ignore_ascii_case(deck[i].as_str(), card) {
                return true;
            }
            i = i + 1;
        }
        false
    }

    /// The mean of the revealed numeric cards in the room, `None` when there is none.
    pub fn average_votes(&self) -> (r: Option<VoteAverage>)
        ensures
            r == average_of(self.room.players@),
    {
        let players = &self.room.players;
        let mut sum: u128 = 0;
        let mut count: usize = 0;
        let mut i: usize = 0;
        assert(players@.take(0) =~= Seq::<Player>::empty());
        while i < players.len()
            invariant
                players == &self.room.players,
                i <= players.len(),
                count <= i,
                count == revealed_numbers(players@.take(i as int)).len(),
                sum == sum_of(revealed_numbers(players@.take(i as int))),
                sum <= 255 * count,
            decreases players.len() - i,
        {
            assert(players@.take(i + 1).drop_last() =~= players@.take(i as int));
            match &players[i].vote {
                Vote::Revealed(VoteData::Number(n)) => {
                    let ghost nums = revealed_numbers(players@.take(i as int));
                    assert(nums.push(*n).drop_last() =~= nums);
                    sum = sum + *n as u128;
                    count = count + 1;
                },
                _ => {},
            }
            i = i + 1;
        }
        assert(players@.take(players.len() as int) =~= players@);
        if count == 0 {
            None
        } else {
            Some(VoteAverage { sum, count })
        }
    }

    /// Adds a local entry to the log.
    pub fn log_message(&mut self, level: LogLevel, message: String, now: u64)
        ensures
            final(self)@ == (Session {
                log: old(self)@.log.push(client_record(now, level, message@)),
                ..old(self)@
            }),
            final(self).client == old(self).client,
            final(self).notification_handler == old(self).notification_handler,
    {
        let entry = LogEntry {
            timestamp: now,
            level,
            message,
            source: LogSource::Client,
            server_index: None,
        };
        let ghost before = records(self.log@);
        self.log.push(entry);
        assert(records(self.log@) =~= before.push(entry@));
    }

    /// Starts a new round or records the round that ended, after the room's phase changed.
    pub fn new_phase(&mut self, _old: &Room, now: u64)
        ensures
            final(self)@ == entered_phase(old(self)@, now),
            final(self).client == old(self).client,
            final(self).notification_handler == old(self).notification_handler,
    {
        if self.room.phase == GamePhase::Playing {
            self.vote = None;
            if self.round_number < u32::MAX {
                self.round_number = self.round_number + 1;
            }
            self.is_notified = false;
            self.notify_vote_at = None;
            self.round_start = now;
        }
        self.has_updates = true;
        if self.room.phase == GamePhase::Revealed {
            let length = if now >= self.round_start {
                now - self.round_start
            } else {
                0
            };
            let votes = self.room.players.clone();
            let deck = self.room.deck.clone();
            assert(votes@ =~= self.room.players@);
            assert(deck@ =~= self.room.deck@);
            let own_vote = match &self.vote {
                Some(d) => Some(d.clone()),
                None => None,
            };
            let entry = HistoryEntry {
                round_number: self.round_number,
                average: self.average_votes(),
                length,
                votes,
                deck,
                own_vote,
            };
            let ghost before = self.history@.map_values(|h: HistoryEntry| h@);
            self.history.push(entry);
            assert(self.history@.map_values(|h: HistoryEntry| h@) =~= before.push(entry@));
        }
    }

    fn check_auto_reveal_cancel(&mut self)
        ensures
            final(self)@ == checked_auto_reveal_cancel(old(self)@),
            final(self).client == old(self).client,
            final(self).notification_handler == old(self).notification_handler,
    {
        if self.auto_reveal_at.is_some() && (self.room.phase != GamePhase::Playing
            || self.any_vote_missing()) {
            self.auto_reveal_at = None;
        }
    }

    /// Takes in a room snapshot that arrived at `now`; see `merged`.
    pub fn merge_update(&mut self, update: Room, now: u64)
        ensures
            final(self)@ == merged(old(self)@, update, now),
            final(self).client == old(self).client,
            final(self).notification_handler == old(self).notification_handler,
    {
        let mut previous = update;
        core::mem::swap(&mut self.room, &mut previous);
        if previous.phase != self.room.phase {
            self.new_phase(&previous, now);
        }
        let ghost s2 = self@;
        if self.is_my_vote_last_missing() {
            if !self.is_notified && self.notify_vote_at.is_none() {
                self.log_message(
                    LogLevel::Info,
                    String::from_str("Your vote is the last one missing."),
                    now,
                );
                self.notify_vote_at = Some(later_exec(now, NOTIFY_DELAY_MS));
                self.has_updates = true;
            }
        } else {
            self.notify_vote_at = None;
        }
        assert(self@ == checked_last_missing(s2, now));
        self.check_auto_reveal_cancel();
    }

    /// Appends the server log entries of a poll; see `merged_log`.
    pub fn update_server_log(&mut self, log_updates: Vec<LogEntry>)
        ensures
            final(self)@ == (Session {
                log: merged_log(old(self)@.log, records(log_updates@)),
                ..old(self)@
            }),
            final(self).client == old(self).client,
            final(self).notification_handler == old(self).notification_handler,
    {
        merge_server_log(&mut self.log, log_updates);
    }

    /// Takes in what one poll of the transport brought: the room snapshots in order, then the
    /// log entries.
    pub fn apply_updates(&mut self, room_updates: Vec<Room>, log_updates: Vec<LogEntry>, now: u64)
        ensures
            final(self)@ == polled(old(self)@, room_updates@, log_updates@, now),
            final(self).client == old(self).client,
            final(self).notification_handler == old(self).notification_handler,
    {
        let ghost s0 = self@;
        let ghost all = room_updates@;
        let mut rooms = room_updates;
        let total = rooms.len();
        let mut i: usize = 0;
        assert(all.take(0) =~= Seq::<Room>::empty());
        while rooms.len() > 0
            invariant
                total == all.len(),
                i + rooms@.len() == all.len(),
                rooms@ == all.skip(i as int),
                self@ == merged_all(s0, all.take(i as int), now),
                self.client == old(self).client,
                self.notification_handler == old(self).notification_handler,
            decreases rooms.len(),
        {
            let update = rooms.remove(0);
            assert(update == all[i as int]);
            self.merge_update(update, now);
            assert(all.take(i + 1).drop_last() =~= all.take(i as int));
            assert(rooms@ =~= all.skip(i + 1));
            i = i + 1;
        }
        assert(all.take(i as int) =~= all);
        self.update_server_log(log_updates);
    }

    /// Polls the transport and takes in what it brought. A transport error is passed on and
    /// changes nothing.
    pub fn update(&mut self, now: u64) -> (r: Result<(), ClientError>)
        ensures
            r is Err ==> final(self)@ == old(self)@,
            r is Ok ==> exists|rooms: Seq<Room>, entries: Seq<LogEntry>|
                final(self)@ == polled(old(self)@, rooms, entries, now),
            final(self).notification_handler == old(self).notification_handler,
    {
        match self.client.get_updates() {
            Ok((rooms, logs)) => {
                let ghost rs = rooms@;
                let ghost ls = logs@;
                self.apply_updates(rooms, logs, now);
                assert(self@ == polled(old(self)@, rs, ls, now));
                Ok(())
            },
            Err(e) => Err(e),
        }
    }

    /// Casts the own vote from the text typed by the user; see `vote_plan`. "-" takes the
    /// card back; a card that is not in the deck is refused with an error in the log and
    /// nothing sent. A transport error is passed on.
    pub fn vote(&mut self, data: &str, now: u64) -> (r: Result<(), ClientError>)
        ensures
            final(self)@ == voted(old(self)@, data@, now, r is Ok),
            vote_plan(old(self)@.room.deck@, data@) is Reject ==> r is Ok && final(self).client
                == old(self).client,
            final(self).notification_handler == old(self).notification_handler,
    {
        let data = trim(data);
        proof {
            reveal_strlit("-");
        }
        if data.unicode_len() == 1 && data.get_char(0) == '-' {
            assert(data@ =~= "-"@);
            self.vote = None;
            let r = self.client.vote(None);
            self.sent = Ghost(self.sent@.push(Outgoing::PlayCard(None)));
            return r;
        }
        assert(data@ != "-"@);
        let was_last_missing = self.is_my_vote_last_missing();
        if self.deck_has_value(data) {
            let (vote, r) = match parse_u8(data) {
                Some(n) => {
                    let vote = VoteData::Number(n);
                    let text = vote.to_string();
                    let r = self.client.vote(Some(text.as_str()));
                    (vote, r)
                },
                None => {
                    let r = self.client.vote(Some(data));
                    (VoteData::Special(String::from_str(data)), r)
                },
            };
            self.sent = Ghost(self.sent@.push(Outgoing::PlayCard(Some(card_text(vote@)))));
            match r {
                Ok(()) => {
                    self.vote = Some(vote);
                    if !self.config.disable_auto_reveal && was_last_missing {
                        self.auto_reveal_at = Some(later_exec(now, AUTO_REVEAL_DELAY_MS));
                    }
                    Ok(())
                },
                Err(e) => Err(e),
            }
        } else {
            let mut message = String::from_str("Card is not in the deck: ");
            message.append(data);
            self.log_message(LogLevel::Error, message, now);
            Ok(())
        }
    }

    /// Changes the own name and tells the server.
    pub fn rename(&mut self, data: String) -> (r: Result<(), ClientError>)
        ensures
            final(self)@ == (Session {
                name: data@,
                sent: old(self)@.sent.push(Outgoing::ChangeName(data@)),
                ..old(self)@
            }),
            final(self).notification_handler == old(self).notification_handler,
    {
        self.name = data;
        let r = self.client.change_name(self.name.as_str());
        self.sent = Ghost(self.sent@.push(Outgoing::ChangeName(self.name@)));
        r
    }

    /// Asks the server to reveal the cards, unless they already are; a pending automatic
    /// reveal is dropped either way.
    pub fn reveal_cards(&mut self) -> (r: Result<(), ClientError>)
        ensures
            final(self)@ == revealed(old(self)@),
            old(self).room.phase == GamePhase::Revealed ==> r is Ok,
            final(self).notification_handler == old(self).notification_handler,
    {
        self.cancel_auto_reveal();
        if self.room.phase != GamePhase::Revealed {
            let r = self.client.reveal_cards();
            self.sent = Ghost(self.sent@.push(Outgoing::RevealCards));
            r
        } else {
            Ok(())
        }
    }

    /// Sends a chat message as it is; the server echoes it into the log.
    pub fn chat(&mut self, message: String) -> (r: Result<(), ClientError>)
        ensures
            final(self)@ == (Session {
                sent: old(self)@.sent.push(Outgoing::ChatMessage(message@)),
                ..old(self)@
            }),
            final(self).notification_handler == old(self).notification_handler,
    {
        let r = self.client.chat(message.as_str());
        self.sent = Ghost(self.sent@.push(Outgoing::ChatMessage(message@)));
        r
    }

    /// Drops the own vote and asks for a new round, unless one is already being played.
    pub fn restart(&mut self) -> (r: Result<(), ClientError>)
        ensures
            final(self)@ == (Session {
                vote: None,
                sent: if old(self)@.room.phase != GamePhase::Playing {
                    old(self)@.sent.push(Outgoing::StartNewRound)
                } else {
                    old(self)@.sent
                },
                ..old(self)@
            }),
            old(self).room.phase == GamePhase::Playing ==> r is Ok,
            final(self).notification_handler == old(self).notification_handler,
    {
        self.vote = None;
        if self.room.phase != GamePhase::Playing {
            let r = self.client.reset();
            self.sent = Ghost(self.sent@.push(Outgoing::StartNewRound));
            r
        } else {
            Ok(())
        }
    }

    /// Notes whether the window has the focus; a focused window gets no missing-vote
    /// notification.
    pub fn focus_changed(&mut self, change: FocusChange)
        ensures
            final(self)@ == (Session { has_focus: change == FocusChange::Gained, ..old(self)@ }),
            final(self).client == old(self).client,
            final(self).notification_handler == old(self).notification_handler,
    {
        self.has_focus = match change {
            FocusChange::Gained => true,
            FocusChange::Lost => false,
        };
    }

    /// Drops a pending automatic reveal.
    pub fn cancel_auto_reveal(&mut self)
        ensures
            final(self)@ == (Session { auto_reveal_at: None, ..old(self)@ }),
            final(self).client == old(self).client,
            final(self).notification_handler == old(self).notification_handler,
    {
        self.auto_reveal_at = None;
    }

    fn check_notification(&mut self, now: u64)
        ensures
            final(self)@ == checked_notification(old(self)@, now),
            final(self).client == old(self).client,
            final(self).notification_handler == old(self).notification_handler,
    {
        if let Some(notify_at) = self.notify_vote_at {
            if notify_at < now && !self.is_notified {
                if !self.has_focus && !self.config.disable_notifications {
                    self.notification_handler.notify_with_bell(
                        "Planning Poker",
                        "Your vote is the last one missing.",
                    );
                    self.alerts = Ghost(self.alerts@ + 1);
                }
                self.is_notified = true;
                self.notify_vote_at = None;
            }
        }
    }

    /// Reveals the cards once the automatic reveal is due.
    pub fn check_auto_reveal(&mut self, now: u64) -> (r: Result<(), ClientError>)
        ensures
            final(self)@ == if auto_reveal_due(old(self)@, now) {
                revealed(old(self)@)
            } else {
                old(self)@
            },
            !auto_reveal_due(old(self)@, now) ==> r is Ok,
            final(self).notification_handler == old(self).notification_handler,
    {
        if let Some(at) = self.auto_reveal_at {
            if at < now {
                return self.reveal_cards();
            }
        }
        Ok(())
    }

    /// Time-driven housekeeping at `now`: the missing-vote notification, then the automatic
    /// reveal; see `ticked`.
    pub fn tick(&mut self, now: u64) -> (r: Result<(), ClientError>)
        ensures
            final(self)@ == ticked(old(self)@, now),
            !auto_reveal_due(checked_notification(old(self)@, now), now) ==> r is Ok,
            final(self).notification_handler == old(self).notification_handler,
    {
        self.check_notification(now);
        self.check_auto_reveal(now)
    }
}

} // verus!
