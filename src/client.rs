use vstd::prelude::*;

use crate::models::{LogEntry, Room};

verus! {

/// Why the transport failed.
#[derive(Debug, Clone, PartialEq, Eq)]
pub enum ClientError {
    /// The server sent no room snapshot in time after connecting.
    ServerUpdateMissing,
    /// The server closed the connection; the session cannot go on.
    ServerClosedConnection,
    /// Sending or receiving failed, or the server sent something unreadable.
    Transport(String),
}

impl ClientError {
    /// A sentence that describes the error.
    pub fn to_string(&self) -> (r: String)
        ensures
            r@ == match self {
                ClientError::ServerUpdateMissing => "Server did not send room update in time."@,
                ClientError::ServerClosedConnection => "Server closed connection."@,
                ClientError::Transport(m) => m@,
            },
    {
        match self {
            ClientError::ServerUpdateMissing => String::from_str(
                "Server did not send room update in time.",
            ),
            ClientError::ServerClosedConnection => String::from_str("Server closed connection."),
            ClientError::Transport(m) => m.clone(),
        }
    }
}

/// The connection to the poker server.
///
/// The server owns the room; a client only pulls what arrived and sends requests.
pub trait PokerClient {
    /// The room snapshots and the server log received since the last call, in arrival order.
    fn get_updates(&mut self) -> Result<(Vec<Room>, Vec<LogEntry>), ClientError>;

    /// Plays a card, or takes the played card back with `None`.
    fn vote(&mut self, card_value: Option<&str>) -> Result<(), ClientError>;

    fn change_name(&mut self, name: &str) -> Result<(), ClientError>;

    fn chat(&mut self, message: &str) -> Result<(), ClientError>;

    /// Asks the server to reveal all cards.
    fn reveal_cards(&mut self) -> Result<(), ClientError>;

    /// Asks the server to start a new round.
    fn reset(&mut self) -> Result<(), ClientError>;
}

/// Delivers desktop notifications.
pub trait NotificationHandler {
    fn notify(&self, summary: &str, body: &str);

    /// Rings the terminal bell, then shows the notification.
    fn notify_with_bell(&self, summary: &str, body: &str);
}

/// A request handed to the transport, as a mathematical value.
pub enum Outgoing {
    PlayCard(Option<Seq<char>>),
    ChangeName(Seq<char>),
    ChatMessage(Seq<char>),
    RevealCards,
    StartNewRound,
}

} // verus!
