use vstd::prelude::*;

use crate::app::{
    auto_reveal_blocked, client_record, deck_has, has_index, is_missing_voter, later, merged,
    merged_log, missing_count, my_vote_last_missing, next_round, not_in_deck_text, round_record,
    vote_plan, voted, with_server_entry, Session, AUTO_REVEAL_DELAY_MS,
};
use crate::models::{CardValue, GamePhase, LogLevel, LogRecord, Player, Room, UserType};
use crate::text::{
    all_digits, digits_value, end_non_space, first_non_space, is_white_space, parse_u8_spec,
    trimmed, unsigned_digits,
};

verus! {

/// A card that is not in the deck (and is not "-") changes nothing but the log, which gains
/// exactly one error entry; nothing is sent, whatever the transport would have said.
pub proof fn lemma_vote_outside_deck(s: Session, input: Seq<char>, now: u64, accepted: bool)
    requires
        !deck_has(s.room.deck@, trimmed(input)),
        trimmed(input) != "-"@,
    ensures
        voted(s, input, now, accepted) == (Session {
            log: s.log.push(
                client_record(now, LogLevel::Error, not_in_deck_text(trimmed(input))),
            ),
            ..s
        }),
        voted(s, input, now, accepted).vote == s.vote,
        voted(s, input, now, accepted).sent == s.sent,
        voted(s, input, now, accepted).log.len() == s.log.len() + 1,
        voted(s, input, now, accepted).log.last().level == LogLevel::Error,
{
}

proof fn lemma_trimmed_plain(t: Seq<char>)
    requires
        forall|i: int| 0 <= i < t.len() ==> !is_white_space(#[trigger] t[i]),
        t.len() > 0,
    ensures
        trimmed(t) == t,
{
    assert(first_non_space(t, 0) == 0);
    assert(end_non_space(t, t.len() as int) == t.len());
    assert(t.subrange(0, t.len() as int) =~= t);
}

/// "5" in the deck is played as the number 5, "coffee" in the deck as a special card, and "-"
/// takes the own card back whatever the deck holds.
pub proof fn lemma_vote_classification(s: Session, now: u64)
    ensures
        deck_has(s.room.deck@, "5"@) ==> voted(s, "5"@, now, true).vote == Some(
            CardValue::Number(5),
        ),
        deck_has(s.room.deck@, "coffee"@) ==> voted(s, "coffee"@, now, true).vote == Some(
            CardValue::Special("coffee"@),
        ),
        forall|accepted: bool| (#[trigger] voted(s, "-"@, now, accepted)).vote is None,
{
    reveal_strlit("5");
    reveal_strlit("coffee");
    reveal_strlit("-");
    lemma_trimmed_plain("5"@);
    lemma_trimmed_plain("coffee"@);
    lemma_trimmed_plain("-"@);
    let five = "5"@;
    assert(unsigned_digits(five) == five);
    assert(all_digits(five));
    assert(five.drop_last() =~= Seq::<char>::empty());
    assert(five.last() == '5');
    assert(digits_value(five.drop_last()) == 0);
    assert(digits_value(five) == 5);
    assert(parse_u8_spec(five) == Some(5u8));
    let coffee = "coffee"@;
    assert(unsigned_digits(coffee) == coffee);
    assert(!all_digits(coffee)) by {
        assert(coffee[0] == 'c');
    }
    assert(parse_u8_spec(coffee) is None);
    assert(coffee != "-"@);
    assert(five != "-"@);
}

/// Revealing a round records it once, under the number of the round that ends; the next
/// round then gets the next number and starts without an own vote.
pub proof fn lemma_round_transition(
    s: Session,
    reveal: Room,
    next: Room,
    now1: u64,
    now2: u64,
)
    requires
        s.room.phase == GamePhase::Playing,
        reveal.phase == GamePhase::Revealed,
        next.phase == GamePhase::Playing,
    ensures
        merged(s, reveal, now1).history.len() == s.history.len() + 1,
        merged(s, reveal, now1).history.last().round_number == s.round_number,
        merged(s, reveal, now1).history.drop_last() == s.history,
        merged(merged(s, reveal, now1), next, now2).round_number == next_round(s.round_number),
        merged(merged(s, reveal, now1), next, now2).vote is None,
        merged(merged(s, reveal, now1), next, now2).history == merged(
            s,
            reveal,
            now1,
        ).history,
{
    let s1 = Session { room: reveal, ..s };
    let s2 = Session { has_updates: true, ..s1 };
    assert(s2.history.push(round_record(s2, now1)).drop_last() =~= s.history);
}

/// Once the missing-vote notification is scheduled or has fired, taking in the same room
/// again neither schedules it anew nor logs again.
pub proof fn lemma_last_missing_idempotent(s: Session, update: Room, now1: u64, now2: u64)
    ensures
        merged(merged(s, update, now1), update, now2).notify_vote_at == merged(
            s,
            update,
            now1,
        ).notify_vote_at,
        merged(merged(s, update, now1), update, now2).log == merged(s, update, now1).log,
        merged(merged(s, update, now1), update, now2).is_notified == merged(
            s,
            update,
            now1,
        ).is_notified,
{
}

/// A vote that the transport takes arms the automatic reveal when it was the last one missing
/// and the setting allows it; in a room of one player it never arms it.
pub proof fn lemma_auto_reveal_arming(s: Session, input: Seq<char>, now: u64, accepted: bool)
    requires
        vote_plan(s.room.deck@, input) is Cast,
    ensures
        accepted && my_vote_last_missing(s.room) && !s.config.disable_auto_reveal ==> voted(
            s,
            input,
            now,
            accepted,
        ).auto_reveal_at == Some(later(now, AUTO_REVEAL_DELAY_MS)),
        s.room.players@.len() <= 1 ==> voted(s, input, now, accepted).auto_reveal_at
            == s.auto_reveal_at,
        s.config.disable_auto_reveal ==> voted(s, input, now, accepted).auto_reveal_at
            == s.auto_reveal_at,
{
}

/// A snapshot in which a voter's card is missing drops a pending automatic reveal.
pub proof fn lemma_auto_reveal_cancelled(s: Session, update: Room, now: u64)
    requires
        exists|i: int|
            0 <= i < update.players@.len() && is_missing_voter(#[trigger] update.players@[i]),
    ensures
        merged(s, update, now).auto_reveal_at is None,
{
}

proof fn lemma_missing_count_push(players: Seq<Player>, p: Player)
    ensures
        missing_count(players.push(p)) == missing_count(players) + if is_missing_voter(p) {
            1nat
        } else {
            0nat
        },
{
    assert(players.push(p).drop_last() =~= players);
}

/// A spectator, even one without a card, changes neither whether the own vote is the last one
/// missing (in a room of more than one player) nor whether an automatic reveal is blocked.
pub proof fn lemma_spectator_excluded(room: Room, spectator: Player, with: Room)
    requires
        spectator.user_type == UserType::Spectator,
        with.phase == room.phase,
        with.players@ == room.players@.push(spectator),
    ensures
        missing_count(with.players@) == missing_count(room.players@),
        room.players@.len() > 1 ==> (my_vote_last_missing(with) <==> my_vote_last_missing(room)),
        auto_reveal_blocked(with) <==> auto_reveal_blocked(room),
{
    lemma_missing_count_push(room.players@, spectator);
    let n = room.players@.len();
    assert forall|i: int| 0 <= i < n implies #[trigger] with.players@[i] == room.players@[i] by {}
    assert(with.players@[n as int] == spectator);
    if exists|i: int|
        0 <= i < with.players@.len() && is_missing_voter(#[trigger] with.players@[i])
            && with.players@[i].is_you {
        let i = choose|i: int|
            0 <= i < with.players@.len() && is_missing_voter(#[trigger] with.players@[i])
                && with.players@[i].is_you;
        assert(i < n);
        assert(is_missing_voter(room.players@[i]));
    }
    if exists|i: int| 0 <= i < with.players@.len() && is_missing_voter(#[trigger] with.players@[i]) {
        let i = choose|i: int|
            0 <= i < with.players@.len() && is_missing_voter(#[trigger] with.players@[i]);
        assert(i < n);
        assert(is_missing_voter(room.players@[i]));
    }
    if exists|i: int| 0 <= i < room.players@.len() && is_missing_voter(#[trigger] room.players@[i]) {
        let i = choose|i: int|
            0 <= i < room.players@.len() && is_missing_voter(#[trigger] room.players@[i]);
        assert(is_missing_voter(with.players@[i]));
    }
    if exists|i: int|
        0 <= i < room.players@.len() && is_missing_voter(#[trigger] room.players@[i])
            && room.players@[i].is_you {
        let i = choose|i: int|
            0 <= i < room.players@.len() && is_missing_voter(#[trigger] room.players@[i])
                && room.players@[i].is_you;
        assert(is_missing_voter(with.players@[i]));
    }
}

/// No two entries of `log` carry the same server index.
pub open spec fn unique_indices(log: Seq<LogRecord>) -> bool {
    forall|i: int, j: int|
        0 <= i < log.len() && 0 <= j < log.len() && i != j && (#[trigger] log[i]).server_index
            is Some ==> log[i].server_index != (#[trigger] log[j]).server_index
}

proof fn lemma_with_entry(log: Seq<LogRecord>, e: LogRecord)
    requires
        unique_indices(log),
    ensures
        unique_indices(with_server_entry(log, e)),
        forall|k: u32|
            has_index(with_server_entry(log, e), k) <==> (has_index(log, k) || e.server_index
                == Some(k)),
{
    let r = with_server_entry(log, e);
    assert forall|k: u32| has_index(r, k) <==> (has_index(log, k) || e.server_index == Some(k)) by {
        if r != log {
            assert(r == log.push(e));
            if has_index(r, k) {
                let i = choose|i: int| 0 <= i < r.len() && (#[trigger] r[i]).server_index == Some(k);
                if i < log.len() {
                    assert(log[i] == r[i]);
                }
            }
            if has_index(log, k) {
                let i = choose|i: int|
                    0 <= i < log.len() && (#[trigger] log[i]).server_index == Some(k);
                assert(r[i] == log[i]);
            }
            if e.server_index == Some(k) {
                assert(r[log.len() as int] == e);
            }
        }
    }
    if r != log {
        assert(r == log.push(e));
        assert forall|i: int, j: int|
            0 <= i < r.len() && 0 <= j < r.len() && i != j && (#[trigger] r[i]).server_index
                is Some implies r[i].server_index != (#[trigger] r[j]).server_index by {
            if i == log.len() {
                assert(r[j] == log[j]);
                assert(!has_index(log, r[i].server_index->Some_0));
            } else if j == log.len() {
                assert(r[i] == log[i]);
                if e.server_index is Some {
                    assert(!has_index(log, e.server_index->Some_0));
                }
            } else {
                assert(r[i] == log[i]);
                assert(r[j] == log[j]);
            }
        }
    }
}

proof fn lemma_merged_log(log: Seq<LogRecord>, batch: Seq<LogRecord>)
    requires
        unique_indices(log),
    ensures
        unique_indices(merged_log(log, batch)),
        forall|k: u32|
            has_index(merged_log(log, batch), k) <==> (has_index(log, k) || has_index(batch, k)),
    decreases batch.len(),
{
    if batch.len() > 0 {
        let front = batch.drop_last();
        lemma_merged_log(log, front);
        lemma_with_entry(merged_log(log, front), batch.last());
        assert forall|k: u32| has_index(batch, k) <==> (has_index(front, k) || batch.last().server_index == Some(k)) by {
            if has_index(batch, k) {
                let i = choose|i: int|
                    0 <= i < batch.len() && (#[trigger] batch[i]).server_index == Some(k);
                if i < front.len() {
                    assert(front[i] == batch[i]);
                }
            }
            if has_index(front, k) {
                let i = choose|i: int|
                    0 <= i < front.len() && (#[trigger] front[i]).server_index == Some(k);
                assert(batch[i] == front[i]);
            }
        }
    }
}

/// Taking in the same server log entries twice leaves each server index exactly once in the
/// log: the indices stay unique, and those present are the ones of the log and of the batch.
pub proof fn lemma_log_dedup(log: Seq<LogRecord>, batch: Seq<LogRecord>)
    requires
        unique_indices(log),
    ensures
        unique_indices(merged_log(merged_log(log, batch), batch)),
        forall|k: u32|
            has_index(merged_log(merged_log(log, batch), batch), k) <==> (has_index(log, k)
                || has_index(batch, k)),
{
    lemma_merged_log(log, batch);
    lemma_merged_log(merged_log(log, batch), batch);
}

/// Taking in a snapshot only ever appends to the history, at most one round, and only when the
/// cards were just revealed; the round number only moves when a new round starts.
pub proof fn lemma_history_append_only(s: Session, update: Room, now: u64)
    ensures
        s.history.is_prefix_of(merged(s, update, now).history),
        merged(s, update, now).history.len() <= s.history.len() + 1,
        merged(s, update, now).history.len() == s.history.len() + 1 <==> (s.room.phase
            != update.phase && update.phase == GamePhase::Revealed),
        merged(s, update, now).round_number != s.round_number ==> (s.room.phase
            == GamePhase::Revealed && update.phase == GamePhase::Playing),
{
    let s1 = Session { room: update, ..s };
    let s2 = Session { has_updates: true, ..s1 };
    assert(s.history.is_prefix_of(s2.history.push(round_record(s2, now))));
    assert(s.history.is_prefix_of(s.history));
}

} // verus!
