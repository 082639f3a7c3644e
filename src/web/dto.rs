use vstd::prelude::*;

use crate::client::ClientError;
use crate::models;
use crate::models::{CardValue, Player, Vote, VoteData};
use crate::text::{parse_u8, parse_u8_spec};

verus! {

/// The kind of a user as the server names it.
#[derive(Debug, Clone, Copy, PartialEq, Eq, Structural)]
pub enum UserType {
    Participant,
    Spectator,
    /// Any kind this client does not know.
    Unknown,
}

/// A user of a room as the server sends it.
#[derive(Debug, PartialEq, Eq)]
pub struct User {
    pub username: String,
    pub user_type: UserType,
    pub your_user: bool,
    /// "✅" for a hidden card, "❌" or "" for none, else the card.
    pub card_value: String,
}

#[derive(Debug, Clone, Copy, PartialEq, Eq, Structural)]
pub enum GamePhase {
    Playing,
    CardsRevealed,
    Unknown,
}

#[derive(Debug, Clone, Copy, PartialEq, Eq, Structural)]
pub enum LogLevel {
    Chat,
    Info,
    Error,
    Unknown,
}

#[derive(Debug, PartialEq, Eq)]
pub struct LogEntry {
    pub level: LogLevel,
    pub message: String,
}

/// A room snapshot as the server sends it.
#[derive(Debug, PartialEq, Eq)]
pub struct Room {
    pub room_id: String,
    pub deck: Vec<String>,
    pub game_phase: GamePhase,
    pub users: Vec<User>,
    pub average: String,
    pub log: Vec<LogEntry>,
}

/// A request to the server.
#[derive(Debug, PartialEq, Eq)]
pub enum UserRequest {
    PlayCard { card_value: Option<String> },
    ChangeName { name: String },
    ChatMessage { message: String },
    RevealCards,
    StartNewRound,
}

/// A vote as a mathematical value.
pub enum VoteState {
    Missing,
    Hidden,
    Revealed(CardValue),
}

pub open spec fn vote_state(v: Vote) -> VoteState {
    match v {
        Vote::Missing => VoteState::Missing,
        Vote::Hidden => VoteState::Hidden,
        Vote::Revealed(d) => VoteState::Revealed(d@),
    }
}

/// What a user's card value says of the vote: a check mark hides a card, a cross or nothing
/// means no card, a spectator has none, and anything else is the card itself.
pub open spec fn vote_of_user(u: User) -> VoteState {
    let c = u.card_value@;
    if c == "✅"@ {
        VoteState::Hidden
    } else if c == "❌"@ || c.len() == 0 {
        VoteState::Missing
    } else if u.user_type == UserType::Spectator {
        VoteState::Missing
    } else {
        match parse_u8_spec(c) {
            Some(n) => VoteState::Revealed(CardValue::Number(n)),
            None => VoteState::Revealed(CardValue::Special(c)),
        }
    }
}

fn same_text(a: &str, b: &str) -> (r: bool)
    ensures
        r == (a@ == b@),
{
    let n = a.unicode_len();
    if n != b.unicode_len() {
        return false;
    }
    let mut i: usize = 0;
    while i < n
        invariant
            n == a@.len(),
            n == b@.len(),
            i <= n,
            forall|k: int| 0 <= k < i ==> a@[k] == b@[k],
        decreases n - i,
    {
        if a.get_char(i) != b.get_char(i) {
            return false;
        }
        i = i + 1;
    }
    assert(a@ =~= b@);
    true
}

/// Reads the vote of a user; see `vote_of_user`.
pub fn parse_vote(user: &User) -> (r: Vote)
    ensures
        vote_state(r) == vote_of_user(*user),
{
    let card = user.card_value.as_str();
    if same_text(card, "✅") {
        return Vote::Hidden;
    }
    if same_text(card, "❌") || card.is_empty() {
        return Vote::Missing;
    }
    if user.user_type == UserType::Spectator {
        return Vote::Missing;
    }
    match parse_u8(card) {
        Some(n) => Vote::Revealed(VoteData::Number(n)),
        None => Vote::Revealed(VoteData::Special(user.card_value.clone())),
    }
}

/// The user kind in the model; a kind this client does not know counts as a spectator, who
/// never blocks a round.
pub open spec fn user_type_of(t: UserType) -> models::UserType {
    match t {
        UserType::Participant => models::UserType::Player,
        UserType::Spectator => models::UserType::Spectator,
        UserType::Unknown => models::UserType::Spectator,
    }
}

impl UserType {
    pub fn to_model(self) -> (r: models::UserType)
        ensures
            r == user_type_of(self),
    {
        match self {
            UserType::Participant => models::UserType::Player,
            UserType::Spectator => models::UserType::Spectator,
            UserType::Unknown => models::UserType::Spectator,
        }
    }
}

/// The phase in the model, `None` for a phase this client does not know.
pub open spec fn phase_of(p: GamePhase) -> Option<models::GamePhase> {
    match p {
        GamePhase::Playing => Some(models::GamePhase::Playing),
        GamePhase::CardsRevealed => Some(models::GamePhase::Revealed),
        GamePhase::Unknown => None,
    }
}

impl GamePhase {
    pub fn to_model(self) -> (r: Option<models::GamePhase>)
        ensures
            r == phase_of(self),
    {
        match self {
            GamePhase::Playing => Some(models::GamePhase::Playing),
            GamePhase::CardsRevealed => Some(models::GamePhase::Revealed),
            GamePhase::Unknown => None,
        }
    }
}

/// The player that a user stands for. The own user without a card has no vote.
pub open spec fn player_of(u: User, p: Player) -> bool {
    &&& p.name@ == u.username@
    &&& p.is_you == u.your_user
    &&& p.user_type == user_type_of(u.user_type)
    &&& vote_state(p.vote) == if u.your_user && u.card_value@.len() == 0 {
        VoteState::Missing
    } else {
        vote_of_user(u)
    }
}

impl User {
    pub fn to_player(&self) -> (r: Player)
        ensures
            player_of(*self, r),
    {
        let vote = if self.your_user && self.card_value.as_str().is_empty() {
            Vote::Missing
        } else {
            parse_vote(self)
        };
        Player {
            vote,
            name: self.username.clone(),
            is_you: self.your_user,
            user_type: self.user_type.to_model(),
        }
    }
}

/// The room of the model that a server snapshot stands for.
pub open spec fn room_of(room: Room, m: models::Room) -> bool {
    &&& m.name@ == room.room_id@
    &&& m.deck@ == room.deck@
    &&& Some(m.phase) == phase_of(room.game_phase)
    &&& m.players@.len() == room.users@.len()
    &&& forall|i: int| 0 <= i < room.users@.len() ==> player_of(#[trigger] room.users@[i], m.players@[i])
}

impl Room {
    /// The room in the model, `None` when its phase is unknown to this client.
    pub fn to_model(&self) -> (r: Option<models::Room>)
        ensures
            phase_of(self.game_phase) is None ==> r is None,
            phase_of(self.game_phase) is Some ==> r is Some && room_of(*self, r->Some_0),
    {
        let phase = match self.game_phase.to_model() {
            Some(p) => p,
            None => {
                return None;
            },
        };
        let mut players: Vec<Player> = Vec::new();
        let mut i: usize = 0;
        while i < self.users.len()
            invariant
                i <= self.users.len(),
                players@.len() == i,
                forall|j: int| 0 <= j < i ==> player_of(#[trigger] self.users@[j], players@[j]),
            decreases self.users.len() - i,
        {
            players.push(self.users[i].to_player());
            i = i + 1;
        }
        let deck = self.deck.clone();
        assert(deck@ =~= self.deck@);
        Some(models::Room { name: self.room_id.clone(), deck, phase, players })
    }
}

/// The level in the model, `None` for a level this client does not know.
pub open spec fn level_of(l: LogLevel) -> Option<models::LogLevel> {
    match l {
        LogLevel::Chat => Some(models::LogLevel::Chat),
        LogLevel::Info => Some(models::LogLevel::Info),
        LogLevel::Error => Some(models::LogLevel::Error),
        LogLevel::Unknown => None,
    }
}

impl LogEntry {
    /// The server entry as a log entry received at `now`, without an index yet; `None` when
    /// its level is unknown.
    pub fn to_model(&self, now: u64) -> (r: Option<models::LogEntry>)
        ensures
            level_of(self.level) is None ==> r is None,
            level_of(self.level) is Some ==> r is Some && r->Some_0@ == (models::LogRecord {
                timestamp: now,
                level: level_of(self.level)->Some_0,
                message: self.message@,
                source: models::LogSource::Server,
                server_index: None,
            }),
    {
        let level = match self.level {
            LogLevel::Chat => models::LogLevel::Chat,
            LogLevel::Info => models::LogLevel::Info,
            LogLevel::Error => models::LogLevel::Error,
            LogLevel::Unknown => {
                return None;
            },
        };
        Some(
            models::LogEntry {
                timestamp: now,
                level,
                message: self.message.clone(),
                source: models::LogSource::Server,
                server_index: None,
            },
        )
    }
}

/// The entries of a server log whose level is known, in order.
pub open spec fn known_entries(log: Seq<LogEntry>, now: u64) -> Seq<models::LogRecord>
    decreases log.len(),
{
    if log.len() == 0 {
        Seq::empty()
    } else {
        let rest = known_entries(log.drop_last(), now);
        let e = log.last();
        match level_of(e.level) {
            Some(level) => rest.push(
                models::LogRecord {
                    timestamp: now,
                    level,
                    message: e.message@,
                    source: models::LogSource::Server,
                    server_index: None,
                },
            ),
            None => rest,
        }
    }
}

/// `entries` numbered by their position: entry `i` gets the server index `i`.
pub open spec fn indexed(entries: Seq<models::LogRecord>, from: int) -> Seq<models::LogRecord> {
    Seq::new(
        (entries.len() - from) as nat,
        |i: int| models::LogRecord { server_index: Some((from + i) as u32), ..entries[from + i] },
    )
}

/// `collected` with the entries of the full server log `log` that it does not hold yet.
pub open spec fn grown_log(collected: Seq<models::LogRecord>, log: Seq<LogEntry>, now: u64) -> Seq<
    models::LogRecord,
> {
    let k = known_entries(log, now);
    if collected.len() >= k.len() {
        collected
    } else {
        collected + indexed(k, collected.len() as int)
    }
}

/// The server log gathered from the snapshots among `messages`, onto `acc`.
pub open spec fn updates_log(acc: Seq<models::LogRecord>, messages: Seq<IncomingMessage>, now: u64) -> Seq<
    models::LogRecord,
>
    decreases messages.len(),
{
    if messages.len() == 0 {
        acc
    } else {
        let a = updates_log(acc, messages.drop_last(), now);
        match messages.last() {
            IncomingMessage::RoomUpdate(room) => if room.log@.len() <= u32::MAX {
                grown_log(a, room.log@, now)
            } else {
                a
            },
            IncomingMessage::Close => a,
        }
    }
}

/// The snapshots among `messages` whose phase this client knows, in order.
pub open spec fn known_rooms(messages: Seq<IncomingMessage>) -> Seq<Room>
    decreases messages.len(),
{
    if messages.len() == 0 {
        Seq::empty()
    } else {
        let rest = known_rooms(messages.drop_last());
        match messages.last() {
            IncomingMessage::RoomUpdate(room) => if phase_of(room.game_phase) is Some {
                rest.push(room)
            } else {
                rest
            },
            IncomingMessage::Close => rest,
        }
    }
}

/// Adds to `collected` the entries of a full server log that it does not hold yet: the
/// server log only grows, so entry `i` of it is new when `collected` holds fewer than `i + 1`
/// entries. Each entry gets its position as its server index.
pub fn collect_server_log(collected: &mut Vec<models::LogEntry>, log: &Vec<LogEntry>, now: u64)
    requires
        known_entries(log@, now).len() <= u32::MAX,
    ensures
        final(collected)@.map_values(|e: models::LogEntry| e@) == grown_log(
            old(collected)@.map_values(|e: models::LogEntry| e@),
            log@,
            now,
        ),
{
    let ghost start = collected@;
    let ghost known = known_entries(log@, now);
    let mut known_so_far: usize = 0;
    let mut i: usize = 0;
    assert(log@.take(0) =~= Seq::<LogEntry>::empty());
    while i < log.len()
        invariant
            i <= log.len(),
            known == known_entries(log@, now),
            known.len() <= u32::MAX,
            known_so_far == known_entries(log@.take(i as int), now).len(),
            known_entries(log@.take(i as int), now) == known.take(known_so_far as int),
            known_so_far <= known.len(),
            start.len() >= known_so_far ==> collected@ == start,
            start.len() < known_so_far ==> collected@.map_values(|e: models::LogEntry| e@)
                == start.map_values(|e: models::LogEntry| e@) + indexed(
                known.take(known_so_far as int),
                start.len() as int,
            ),
        decreases log.len() - i,
    {
        assert(log@.take(i + 1).drop_last() =~= log@.take(i as int));
        assert(log@.take(i + 1).last() == log@[i as int]);
        proof {
            lemma_known_prefix(log@, i + 1, now);
        }
        match log[i].to_model(now) {
            Some(entry) => {
                let mut entry = entry;
                let ghost before = collected@.map_values(|e: models::LogEntry| e@);
                assert(known_entries(log@.take(i + 1), now) == known_entries(
                    log@.take(i as int),
                    now,
                ).push(entry@));
                assert(known.take(known_so_far + 1)[known_so_far as int] == entry@);
                assert(known[known_so_far as int] == entry@);
                if collected.len() == known_so_far {
                    entry.server_index = Some(known_so_far as u32);
                    collected.push(entry);
                    assert(collected@.map_values(|e: models::LogEntry| e@) =~= before.push(
                        entry@,
                    ));
                }
                proof {
                    let s = start.len() as int;
                    let k = known_so_far as int;
                    if s <= k {
                        assert(indexed(known.take(k + 1), s) =~= indexed(known.take(k), s).push(
                            models::LogRecord { server_index: Some(k as u32), ..known[k] },
                        ));
                        if s == k {
                            assert(indexed(known.take(k), s) =~= Seq::<models::LogRecord>::empty());
                            assert(start.map_values(|e: models::LogEntry| e@) + Seq::<
                                models::LogRecord,
                            >::empty() =~= start.map_values(|e: models::LogEntry| e@));
                        }
                    }
                }
                known_so_far = known_so_far + 1;
            },
            None => {},
        }
        i = i + 1;
    }
    assert(log@.take(log.len() as int) =~= log@);
    assert(known.take(known.len() as int) =~= known);
    proof {
        if start.len() >= known.len() {
            assert(collected@ == start);
        }
    }
}

proof fn lemma_known_prefix(log: Seq<LogEntry>, i: int, now: u64)
    requires
        0 <= i <= log.len(),
    ensures
        known_entries(log.take(i), now).len() <= known_entries(log, now).len(),
        known_entries(log, now).take(known_entries(log.take(i), now).len() as int)
            == known_entries(log.take(i), now),
    decreases log.len(),
{
    if i == log.len() {
        assert(log.take(i) =~= log);
        assert(known_entries(log, now).take(known_entries(log, now).len() as int) =~= known_entries(log, now));
    } else {
        lemma_known_prefix(log.drop_last(), i, now);
        assert(log.drop_last().take(i) =~= log.take(i));
        let a = known_entries(log.drop_last(), now);
        let n = known_entries(log.take(i), now).len() as int;
        assert(a.take(n) == known_entries(log.take(i), now));
        match level_of(log.last().level) {
            Some(level) => {
                let b = known_entries(log, now);
                assert(b.take(n) =~= a.take(n));
            },
            None => {},
        }
    }
}

/// Takes in the messages of one poll: the room snapshots whose phase is known, in order, and
/// the server log entries not yet seen among them. A closed connection ends the session.
pub fn collect_updates(messages: Vec<IncomingMessage>, now: u64) -> (r: Result<
    (Vec<models::Room>, Vec<models::LogEntry>),
    ClientError,
>)
    ensures
        (exists|i: int| 0 <= i < messages@.len() && messages@[i] is Close) <==> r
            == Err::<(Vec<models::Room>, Vec<models::LogEntry>), ClientError>(
            ClientError::ServerClosedConnection,
        ),
        r is Ok ==> ({
            let (rooms, log) = r->Ok_0;
            &&& rooms@.len() == known_rooms(messages@).len()
            &&& forall|i: int|
                0 <= i < rooms@.len() ==> room_of(known_rooms(messages@)[i], #[trigger] rooms@[i])
            &&& log@.map_values(|e: models::LogEntry| e@) == updates_log(
                Seq::empty(),
                messages@,
                now,
            )
        }),
{
    let mut rooms: Vec<models::Room> = Vec::new();
    let mut log: Vec<models::LogEntry> = Vec::new();
    let mut i: usize = 0;
    assert(messages@.take(0) =~= Seq::<IncomingMessage>::empty());
    assert(log@.map_values(|e: models::LogEntry| e@) =~= Seq::<models::LogRecord>::empty());
    while i < messages.len()
        invariant
            i <= messages.len(),
            forall|j: int| 0 <= j < i ==> !(#[trigger] messages@[j] is Close),
            rooms@.len() == known_rooms(messages@.take(i as int)).len(),
            forall|j: int|
                0 <= j < rooms@.len() ==> room_of(
                    known_rooms(messages@.take(i as int))[j],
                    #[trigger] rooms@[j],
                ),
            log@.map_values(|e: models::LogEntry| e@) == updates_log(
                Seq::empty(),
                messages@.take(i as int),
                now,
            ),
        decreases messages.len() - i,
    {
        assert(messages@.take(i + 1).drop_last() =~= messages@.take(i as int));
        assert(messages@.take(i + 1).last() == messages@[i as int]);
        match &messages[i] {
            IncomingMessage::Close => {
                return Err(ClientError::ServerClosedConnection);
            },
            IncomingMessage::RoomUpdate(room) => {
                if room.log.len() <= u32::MAX as usize {
                    proof {
                        lemma_known_entries_len(room.log@, now);
                    }
                    collect_server_log(&mut log, &room.log, now);
                }
                match room.to_model() {
                    Some(m) => rooms.push(m),
                    None => {},
                }
            },
        }
        i = i + 1;
    }
    assert(messages@.take(messages.len() as int) =~= messages@);
    Ok((rooms, log))
}

proof fn lemma_known_entries_len(log: Seq<LogEntry>, now: u64)
    ensures
        known_entries(log, now).len() <= log.len(),
    decreases log.len(),
{
    if log.len() > 0 {
        lemma_known_entries_len(log.drop_last(), now);
    }
}

/// What the socket delivers.
#[derive(Debug)]
pub enum IncomingMessage {
    Close,
    RoomUpdate(Room),
}

} // verus!
