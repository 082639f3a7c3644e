use vstd::prelude::*;

use crate::text::decimal_u64;

verus! {

/// The value of a card: a number, or a special card such as "?" or "☕".
#[derive(Debug, PartialEq, Eq)]
pub enum VoteData {
    Number(u8),
    Special(String),
}

/// A card value as a mathematical value.
pub enum CardValue {
    Number(u8),
    Special(Seq<char>),
}

impl View for VoteData {
    type V = CardValue;

    open spec fn view(&self) -> CardValue {
        match self {
            VoteData::Number(n) => CardValue::Number(*n),
            VoteData::Special(s) => CardValue::Special(s@),
        }
    }
}

impl Clone for VoteData {
    fn clone(&self) -> (r: Self)
        ensures
            r == *self,
    {
        match self {
            VoteData::Number(n) => VoteData::Number(*n),
            VoteData::Special(s) => VoteData::Special(s.clone()),
        }
    }
}

impl VoteData {
    /// The text shown for a card: the decimal digits of a number, or a special card as it is.
    pub fn to_string(&self) -> (r: String)
        ensures
            r@ == card_text(self@),
    {
        match self {
            VoteData::Number(n) => decimal_u64(*n as u64),
            VoteData::Special(s) => s.clone(),
        }
    }
}

/// The decimal digits of `n`, most significant first, without leading zeros.
pub open spec fn decimal_digits(n: nat) -> Seq<char>
    decreases n,
{
    if n < 10 {
        seq![digit_char(n)]
    } else {
        decimal_digits(n / 10).push(digit_char(n % 10))
    }
}

pub open spec fn digit_char(d: nat) -> char {
    ((d + '0' as nat) as u32) as char
}

pub open spec fn card_text(v: CardValue) -> Seq<char> {
    match v {
        CardValue::Number(n) => decimal_digits(n as nat),
        CardValue::Special(s) => s,
    }
}

/// What is known of a player's vote.
#[derive(Debug, PartialEq, Eq)]
pub enum Vote {
    Missing,
    Hidden,
    Revealed(VoteData),
}

impl Clone for Vote {
    fn clone(&self) -> (r: Self)
        ensures
            r == *self,
    {
        match self {
            Vote::Missing => Vote::Missing,
            Vote::Hidden => Vote::Hidden,
            Vote::Revealed(d) => Vote::Revealed(d.clone()),
        }
    }
}

impl Vote {
    /// "Missing", "Hidden", or the text of a revealed card.
    pub fn to_string(&self) -> (r: String)
        ensures
            r@ == match self {
                Vote::Missing => "Missing"@,
                Vote::Hidden => "Hidden"@,
                Vote::Revealed(d) => card_text(d@),
            },
    {
        match self {
            Vote::Missing => String::from_str("Missing"),
            Vote::Hidden => String::from_str("Hidden"),
            Vote::Revealed(d) => d.to_string(),
        }
    }

    /// Orders votes by rank: numbers ascending, then special cards, then hidden and missing votes.
    pub fn compare(&self, other: &Vote) -> (r: core::cmp::Ordering)
        ensures
            r == compare_ints(vote_rank_spec(*self) as int, vote_rank_spec(*other) as int),
    {
        let a = vote_rank(self);
        let b = vote_rank(other);
        if a < b {
            core::cmp::Ordering::Less
        } else if a > b {
            core::cmp::Ordering::Greater
        } else {
            core::cmp::Ordering::Equal
        }
    }
}

pub open spec fn compare_ints(a: int, b: int) -> core::cmp::Ordering {
    if a < b {
        core::cmp::Ordering::Less
    } else if a > b {
        core::cmp::Ordering::Greater
    } else {
        core::cmp::Ordering::Equal
    }
}

pub open spec fn vote_rank_spec(vote: Vote) -> i32 {
    match vote {
        Vote::Missing => 9999,
        Vote::Hidden => 9999,
        Vote::Revealed(VoteData::Number(n)) => n as i32,
        Vote::Revealed(VoteData::Special(_)) => 999,
    }
}

/// The sort key of a vote.
pub fn vote_rank(vote: &Vote) -> (r: i32)
    ensures
        r == vote_rank_spec(*vote),
{
    match vote {
        Vote::Missing => 9999,
        Vote::Hidden => 9999,
        Vote::Revealed(VoteData::Number(n)) => *n as i32,
        Vote::Revealed(VoteData::Special(_)) => 999,
    }
}

#[derive(Debug, Clone, Copy, PartialEq, Eq, Structural)]
pub enum UserType {
    Player,
    Spectator,
}

/// A participant of a room, as the server reports it.
#[derive(Debug, PartialEq, Eq)]
pub struct Player {
    pub name: String,
    pub vote: Vote,
    pub is_you: bool,
    pub user_type: UserType,
}

impl Clone for Player {
    fn clone(&self) -> (r: Self)
        ensures
            r == *self,
    {
        Player {
            name: self.name.clone(),
            vote: self.vote.clone(),
            is_you: self.is_you,
            user_type: self.user_type,
        }
    }
}

/// Lexicographic order on (rank, name), with names compared character by character.
pub open spec fn player_order(a: Player, b: Player) -> core::cmp::Ordering {
    let by_vote = compare_ints(vote_rank_spec(a.vote) as int, vote_rank_spec(b.vote) as int);
    if by_vote == core::cmp::Ordering::Equal {
        text_order(a.name@, b.name@)
    } else {
        by_vote
    }
}

/// Lexicographic order of two texts by code point.
pub open spec fn text_order(a: Seq<char>, b: Seq<char>) -> core::cmp::Ordering
    decreases a.len(),
{
    if a.len() == 0 && b.len() == 0 {
        core::cmp::Ordering::Equal
    } else if a.len() == 0 {
        core::cmp::Ordering::Less
    } else if b.len() == 0 {
        core::cmp::Ordering::Greater
    } else if (a[0] as u32) < (b[0] as u32) {
        core::cmp::Ordering::Less
    } else if (a[0] as u32) > (b[0] as u32) {
        core::cmp::Ordering::Greater
    } else {
        text_order(a.drop_first(), b.drop_first())
    }
}

impl Player {
    /// Orders players by vote, ties broken by name.
    pub fn compare(&self, other: &Player) -> (r: core::cmp::Ordering)
        ensures
            r == player_order(*self, *other),
    {
        let by_vote = self.vote.compare(&other.vote);
        match by_vote {
            core::cmp::Ordering::Equal => compare_text(self.name.as_str(), other.name.as_str()),
            _ => by_vote,
        }
    }
}

/// Compares two texts code point by code point.
pub fn compare_text(a: &str, b: &str) -> (r: core::cmp::Ordering)
    ensures
        r == text_order(a@, b@),
{
    let la = a.unicode_len();
    let lb = b.unicode_len();
    let mut i: usize = 0;
    assert(a@.skip(0) =~= a@);
    assert(b@.skip(0) =~= b@);
    while i < la && i < lb
        invariant
            la == a@.len(),
            lb == b@.len(),
            i <= la,
            i <= lb,
            text_order(a@, b@) == text_order(a@.skip(i as int), b@.skip(i as int)),
        decreases la - i,
    {
        let ca = a.get_char(i);
        let cb = b.get_char(i);
        if (ca as u32) < (cb as u32) {
            return core::cmp::Ordering::Less;
        } else if (ca as u32) > (cb as u32) {
            return core::cmp::Ordering::Greater;
        }
        assert(a@.skip(i as int).drop_first() =~= a@.skip(i + 1));
        assert(b@.skip(i as int).drop_first() =~= b@.skip(i + 1));
        i = i + 1;
    }
    if i < la {
        core::cmp::Ordering::Greater
    } else if i < lb {
        core::cmp::Ordering::Less
    } else {
        core::cmp::Ordering::Equal
    }
}

/// Whether `s` is ordered by `player_order` without descents.
pub open spec fn players_sorted(s: Seq<Player>) -> bool {
    forall|i: int, j: int|
        0 <= i < j < s.len() ==> player_order(s[i], s[j]) != core::cmp::Ordering::Greater
}

proof fn lemma_text_order_flip(a: Seq<char>, b: Seq<char>)
    ensures
        text_order(a, b) == core::cmp::Ordering::Greater <==> text_order(b, a)
            == core::cmp::Ordering::Less,
    decreases a.len(),
{
    if a.len() > 0 && b.len() > 0 && (a[0] as u32) == (b[0] as u32) {
        lemma_text_order_flip(a.drop_first(), b.drop_first());
    }
}

proof fn lemma_text_order_trans(a: Seq<char>, b: Seq<char>, c: Seq<char>)
    requires
        text_order(a, b) != core::cmp::Ordering::Greater,
        text_order(b, c) != core::cmp::Ordering::Greater,
    ensures
        text_order(a, c) != core::cmp::Ordering::Greater,
    decreases a.len(),
{
    if a.len() > 0 && b.len() > 0 && c.len() > 0 && (a[0] as u32) == (b[0] as u32) && (b[0]
        as u32) == (c[0] as u32) {
        lemma_text_order_trans(a.drop_first(), b.drop_first(), c.drop_first());
    }
}

proof fn lemma_player_order_flip(a: Player, b: Player)
    ensures
        player_order(a, b) == core::cmp::Ordering::Greater ==> player_order(b, a)
            != core::cmp::Ordering::Greater,
{
    lemma_text_order_flip(a.name@, b.name@);
}

proof fn lemma_player_order_trans(a: Player, b: Player, c: Player)
    requires
        player_order(a, b) != core::cmp::Ordering::Greater,
        player_order(b, c) != core::cmp::Ordering::Greater,
    ensures
        player_order(a, c) != core::cmp::Ordering::Greater,
{
    if vote_rank_spec(a.vote) == vote_rank_spec(b.vote) && vote_rank_spec(b.vote)
        == vote_rank_spec(c.vote) {
        lemma_text_order_trans(a.name@, b.name@, c.name@);
    }
}

/// Sorts players by vote, then by name.
pub fn sort_players(players: &mut Vec<Player>)
    ensures
        final(players)@.to_multiset() == old(players)@.to_multiset(),
        players_sorted(final(players)@),
{
    let mut sorted: Vec<Player> = Vec::new();
    let n = players.len();
    assert(sorted@ =~= players@.subrange(0, 0));
    for i in 0..n
        invariant
            n == players.len(),
            sorted@.to_multiset() == players@.subrange(0, i as int).to_multiset(),
            players_sorted(sorted@),
    {
        let p = players[i].clone();
        let mut k: usize = sorted.len();
        while k > 0 && matches!(sorted[k - 1].compare(&p), core::cmp::Ordering::Greater)
            invariant
                k <= sorted.len(),
                players_sorted(sorted@),
                forall|j: int|
                    k <= j < sorted.len() ==> player_order(sorted@[j], p)
                        == core::cmp::Ordering::Greater,
            decreases k,
        {
            k = k - 1;
        }
        let ghost before = sorted@;
        proof {
            if k > 0 {
                assert(player_order(before[k - 1], p) != core::cmp::Ordering::Greater);
            }
        }
        sorted.insert(k, p);
        proof {
            assert(players@.subrange(0, i + 1) =~= players@.subrange(0, i as int).push(p));
            vstd::seq_lib::to_multiset_insert(before, k as int, p);
            vstd::seq_lib::to_multiset_build(players@.subrange(0, i as int), p);
            assert forall|a: int, b: int| 0 <= a < b < sorted@.len() implies player_order(
                sorted@[a],
                sorted@[b],
            ) != core::cmp::Ordering::Greater by {
                if b < k {
                } else if a < k && b == k {
                    if a < k - 1 {
                        lemma_player_order_trans(before[a], before[k - 1], p);
                    }
                } else if a < k {
                    lemma_player_order_flip(before[b - 1], p);
                    if a < k - 1 {
                        lemma_player_order_trans(before[a], before[k - 1], p);
                    }
                    lemma_player_order_trans(before[a], p, before[b - 1]);
                } else if a == k {
                    lemma_player_order_flip(before[b - 1], p);
                } else {
                }
            }
        }
    }
    proof {
        assert(players@.subrange(0, n as int) =~= players@);
    }
    *players = sorted;
}

/// The phase of a round, decided by the server.
#[derive(Debug, Clone, Copy, PartialEq, Eq, Structural)]
pub enum GamePhase {
    Playing,
    Revealed,
}

impl GamePhase {
    /// The label shown for the phase: "Playing", or "Waiting" once cards are revealed.
    pub fn to_string(&self) -> (r: String)
        ensures
            r@ == match self {
                GamePhase::Playing => "Playing"@,
                GamePhase::Revealed => "Waiting"@,
            },
    {
        match self {
            GamePhase::Playing => String::from_str("Playing"),
            GamePhase::Revealed => String::from_str("Waiting"),
        }
    }
}

#[derive(Debug, Clone, Copy, PartialEq, Eq, Structural)]
pub enum LogLevel {
    Chat,
    Info,
    Error,
}

#[derive(Debug, Clone, Copy, PartialEq, Eq, Structural)]
pub enum LogSource {
    Server,
    Client,
}

/// A line of the session log. `timestamp` is in milliseconds on the caller's clock;
/// `server_index` is the entry's position in the server's log, `None` for local entries.
#[derive(Debug, PartialEq, Eq)]
pub struct LogEntry {
    pub timestamp: u64,
    pub level: LogLevel,
    pub message: String,
    pub source: LogSource,
    pub server_index: Option<u32>,
}

/// A log line as a mathematical value.
pub struct LogRecord {
    pub timestamp: u64,
    pub level: LogLevel,
    pub message: Seq<char>,
    pub source: LogSource,
    pub server_index: Option<u32>,
}

impl View for LogEntry {
    type V = LogRecord;

    open spec fn view(&self) -> LogRecord {
        LogRecord {
            timestamp: self.timestamp,
            level: self.level,
            message: self.message@,
            source: self.source,
            server_index: self.server_index,
        }
    }
}

impl Clone for LogEntry {
    fn clone(&self) -> (r: Self)
        ensures
            r == *self,
    {
        LogEntry {
            timestamp: self.timestamp,
            level: self.level,
            message: self.message.clone(),
            source: self.source,
            server_index: self.server_index,
        }
    }
}

/// A snapshot of a room as the server sends it: it replaces the previous one whole.
#[derive(Debug, PartialEq, Eq)]
pub struct Room {
    pub name: String,
    pub deck: Vec<String>,
    pub phase: GamePhase,
    pub players: Vec<Player>,
}

impl Clone for Room {
    fn clone(&self) -> (r: Self)
        ensures
            r.name == self.name,
            r.deck@ == self.deck@,
            r.phase == self.phase,
            r.players@ == self.players@,
    {
        let r = Room {
            name: self.name.clone(),
            deck: self.deck.clone(),
            phase: self.phase,
            players: self.players.clone(),
        };
        assert(r.deck@ =~= self.deck@);
        assert(r.players@ =~= self.players@);
        r
    }
}

} // verus!
