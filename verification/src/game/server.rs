//! The decisions of the quiz server's per-player loop: judging a reply to a
//! question and crediting the player.

use vstd::prelude::*;

use crate::game::state::{lookup, names_distinct, with_points_added, without_entry, AppState};
use crate::game::types::check_answer;
use crate::text::{parse_usize, parsed_usize, trim, trimmed};

verus! {

broadcast use vstd::string::group_string_axioms;

/// How a player's reply to a question was judged.
#[derive(Debug, Clone, Copy, PartialEq, Eq, Structural)]
pub enum AnswerOutcome {
    /// The right option; the player now has this many points.
    Correct(u16),
    /// A valid index, but not the right option.
    Wrong,
    /// The reply is not an option index.
    Invalid,
}

/// The index a reply names: its trimmed text read as a `usize`.
pub open spec fn reply_index(reply: Seq<char>) -> Option<usize> {
    parsed_usize(trimmed(reply))
}

/// What judging a reply does: the points table afterwards and the
/// outcome. A reply naming the correct index credits the player one point
/// and reports their new total; a wrong index or an invalid reply leaves
/// the table as it was.
pub open spec fn answer_effect(
    points: Seq<(Seq<char>, u16)>,
    username: Seq<char>,
    reply: Seq<char>,
    correct_index: usize,
) -> (Seq<(Seq<char>, u16)>, AnswerOutcome) {
    match reply_index(reply) {
        None => (points, AnswerOutcome::Invalid),
        Some(i) => if i == correct_index {
            let credited = with_points_added(points, username, 1);
            (credited, AnswerOutcome::Correct(lookup(credited, username)->0))
        } else {
            (points, AnswerOutcome::Wrong)
        },
    }
}

/// Law of judging: a reply that names no index is invalid and a reply that
/// names an index other than the correct one is wrong, and neither changes
/// the points table; a reply that names the correct index is correct,
/// reports the player's previous points (0 for a new player) plus one,
/// saturating at `u16::MAX`, as their new total, and changes nobody else's
/// points.
pub proof fn lemma_judging(points: Seq<(Seq<char>, u16)>, username: Seq<char>, reply: Seq<char>, correct_index: usize, other: Seq<char>)
    requires
        names_distinct(points),
    ensures
        reply_index(reply) is None ==> answer_effect(points, username, reply, correct_index) == (
            points,
            AnswerOutcome::Invalid,
        ),
        reply_index(reply) is Some && reply_index(reply)->0 != correct_index ==> answer_effect(
            points,
            username,
            reply,
            correct_index,
        ) == (points, AnswerOutcome::Wrong),
        reply_index(reply) == Some(correct_index) ==> {
            let (after, outcome) = answer_effect(points, username, reply, correct_index);
            let before = match lookup(points, username) {
                Some(p) => p as int,
                None => 0int,
            };
            &&& names_distinct(after)
            &&& outcome is Correct
            &&& outcome->0 as int == if before < u16::MAX {
                before + 1
            } else {
                u16::MAX as int
            }
            &&& lookup(after, username) == Some(outcome->0)
            &&& other != username ==> lookup(after, other) == lookup(points, other)
        },
{
    crate::game::state::lemma_points_credit(points, username, 1, username);
    crate::game::state::lemma_points_credit(points, username, 1, other);
}

/// What a player's connection delivers while a question is open.
#[derive(Debug, Clone, PartialEq, Eq)]
pub enum PlayerEvent {
    /// A text frame: the player's reply.
    Text(String),
    /// The player closed the connection.
    Close,
    /// Reading from the connection failed.
    Error,
    /// Any other frame (binary, ping, pong, ...).
    Other,
}

/// What the server does after a player's event.
#[derive(Debug, Clone, Copy, PartialEq, Eq, Structural)]
pub enum PlayerAction {
    /// Send the outcome's code to the player, and, for a correct answer,
    /// broadcast the player's new total; then ask the next question.
    Answered(AnswerOutcome),
    /// The player left: the client has been dropped; stop serving it.
    Disconnected,
    /// The connection failed: the client has been dropped; stop serving it.
    ConnectionLost,
    /// Nothing to do; ask the next question.
    Ignored,
}

/// The user name a connection announces with its first event: a text
/// frame names the player; anything else ends the connection (`None`).
pub fn first_message_username(event: PlayerEvent) -> (username: Option<String>)
    ensures
        username == match event {
            PlayerEvent::Text(name) => Some(name),
            _ => None,
        },
{
    match event {
        PlayerEvent::Text(name) => Some(name),
        _ => None,
    }
}

impl AnswerOutcome {
    /// The code sent back to the player: `0` for a correct answer, `1` for a
    /// wrong one, `2` for an invalid reply.
    pub fn reply_code(&self) -> (code: String)
        ensures
            code@ == match *self {
                AnswerOutcome::Correct(_) => "0"@,
                AnswerOutcome::Wrong => "1"@,
                AnswerOutcome::Invalid => "2"@,
            },
    {
        match self {
            AnswerOutcome::Correct(_) => "0".to_owned(),
            AnswerOutcome::Wrong => "1".to_owned(),
            AnswerOutcome::Invalid => "2".to_owned(),
        }
    }
}

impl<S> AppState<S> {
    /// Judges a player's reply to the current question: a reply that names
    /// the correct index credits the player one point and reports their new
    /// total; a wrong index or an invalid reply changes nothing.
    pub fn judge_answer(&mut self, username: &str, reply: &str, correct_index: usize) -> (outcome: AnswerOutcome)
        requires
            old(self).wf(),
        ensures
            final(self).wf(),
            final(self).clients_view() == old(self).clients_view(),
            (final(self).points_view(), outcome) == answer_effect(
                old(self).points_view(),
                username@,
                reply@,
                correct_index,
            ),
            reply_index(reply@) is None ==> outcome == AnswerOutcome::Invalid && final(self).points_view()
                == old(self).points_view(),
            reply_index(reply@) is Some && reply_index(reply@)->0 != correct_index ==> outcome
                == AnswerOutcome::Wrong && final(self).points_view() == old(self).points_view(),
            reply_index(reply@) == Some(correct_index) ==> {
                let before = match lookup(old(self).points_view(), username@) {
                    Some(p) => p as int,
                    None => 0int,
                };
                &&& outcome is Correct
                &&& outcome->0 as int == if before < u16::MAX {
                    before + 1
                } else {
                    u16::MAX as int
                }
                &&& lookup(final(self).points_view(), username@) == Some(outcome->0)
                &&& forall|other: Seq<char>|
                    other != username@ ==> #[trigger] lookup(final(self).points_view(), other) == lookup(
                        old(self).points_view(),
                        other,
                    )
            },
    {
        match parse_usize(trim(reply)) {
            Some(selected) => {
                if check_answer(selected, correct_index) {
                    self.add_or_update_points(username, 1);
                    proof {
                        crate::game::state::lemma_points_credit(old(self).points_view(), username@, 1, username@);
                        assert forall|other: Seq<char>| other != username@ implies #[trigger] lookup(
                            self.points_view(),
                            other,
                        ) == lookup(old(self).points_view(), other) by {
                            crate::game::state::lemma_points_credit(old(self).points_view(), username@, 1, other);
                        }
                    }
                    let points = self.points_of(username);
                    AnswerOutcome::Correct(points)
                } else {
                    AnswerOutcome::Wrong
                }
            },
            None => AnswerOutcome::Invalid,
        }
    }

    /// The server's step for one event of a player's connection while a
    /// question is open: a text reply is judged; a close or a read error
    /// drops the player's client and ends the connection; any other frame
    /// is ignored.
    pub fn handle_player_event(&mut self, username: &str, event: PlayerEvent, correct_index: usize) -> (action: PlayerAction)
        requires
            old(self).wf(),
        ensures
            final(self).wf(),
            match event {
                PlayerEvent::Text(reply) => {
                    let (points, outcome) = answer_effect(old(self).points_view(), username@, reply@, correct_index);
                    &&& action == PlayerAction::Answered(outcome)
                    &&& final(self).points_view() == points
                    &&& final(self).clients_view() == old(self).clients_view()
                },
                PlayerEvent::Close => {
                    &&& action == PlayerAction::Disconnected
                    &&& final(self).clients_view() == without_entry(old(self).clients_view(), username@)
                    &&& final(self).points_view() == old(self).points_view()
                },
                PlayerEvent::Error => {
                    &&& action == PlayerAction::ConnectionLost
                    &&& final(self).clients_view() == without_entry(old(self).clients_view(), username@)
                    &&& final(self).points_view() == old(self).points_view()
                },
                PlayerEvent::Other => {
                    &&& action == PlayerAction::Ignored
                    &&& final(self).clients_view() == old(self).clients_view()
                    &&& final(self).points_view() == old(self).points_view()
                },
            },
    {
        match event {
            PlayerEvent::Text(reply) => PlayerAction::Answered(self.judge_answer(username, reply.as_str(), correct_index)),
            PlayerEvent::Close => {
                self.remove_client(username);
                PlayerAction::Disconnected
            },
            PlayerEvent::Error => {
                self.remove_client(username);
                PlayerAction::ConnectionLost
            },
            PlayerEvent::Other => PlayerAction::Ignored,
        }
    }
}

} // verus!
