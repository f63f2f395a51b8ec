//! The lifecycle of a running server, as its log tells it: the state it is
//! in and the players that are online.

use vstd::prelude::*;
use crate::error::{ServerError, ServerErrorView};
use crate::log_line::written::{
    free_of,
    free_of_space,
    is_event_head,
    is_stamp,
    lemma_error_line,
    lemma_event_line,
    lemma_first_word,
    lemma_state_line,
};
use crate::log_line::{classify, LogLine, LogLineView};
use crate::text::{
    chars_of,
    equals,
    first_word,
    first_word_of,
    is_space,
    no_newline,
    strings_view,
};

pub mod message;
pub mod supervisor;

verus! {

/// The phases of a server's life.
#[derive(Debug, Clone, Copy, PartialEq, Eq, Structural)]
pub enum RunningServerState {
    Start,
    Ready,
    PreparedToHostGame,
    CreatingGame,
    InitializationFailed,
    InGame,
    InGameSavingMap,
    DisconnectingScheduled,
    Disconnecting,
    Disconnected,
    Closed,
    Failed,
}

impl RunningServerState {
    /// The name of the state in the server's log.
    pub open spec fn name(self) -> Seq<char> {
        match self {
            RunningServerState::Start => "Start"@,
            RunningServerState::Ready => "Ready"@,
            RunningServerState::PreparedToHostGame => "PreparedToHostGame"@,
            RunningServerState::CreatingGame => "CreatingGame"@,
            RunningServerState::InitializationFailed => "InitializationFailed"@,
            RunningServerState::InGame => "InGame"@,
            RunningServerState::InGameSavingMap => "InGameSavingMap"@,
            RunningServerState::DisconnectingScheduled => "DisconnectingScheduled"@,
            RunningServerState::Disconnecting => "Disconnecting"@,
            RunningServerState::Disconnected => "Disconnected"@,
            RunningServerState::Closed => "Closed"@,
            RunningServerState::Failed => "Failed"@,
        }
    }

    /// The state with the given name, if there is one.
    pub open spec fn named(name: Seq<char>) -> Option<RunningServerState> {
        if name == "Start"@ {
            Some(RunningServerState::Start)
        } else if name == "Ready"@ {
            Some(RunningServerState::Ready)
        } else if name == "PreparedToHostGame"@ {
            Some(RunningServerState::PreparedToHostGame)
        } else if name == "CreatingGame"@ {
            Some(RunningServerState::CreatingGame)
        } else if name == "InitializationFailed"@ {
            Some(RunningServerState::InitializationFailed)
        } else if name == "InGame"@ {
            Some(RunningServerState::InGame)
        } else if name == "InGameSavingMap"@ {
            Some(RunningServerState::InGameSavingMap)
        } else if name == "DisconnectingScheduled"@ {
            Some(RunningServerState::DisconnectingScheduled)
        } else if name == "Disconnecting"@ {
            Some(RunningServerState::Disconnecting)
        } else if name == "Disconnected"@ {
            Some(RunningServerState::Disconnected)
        } else if name == "Closed"@ {
            Some(RunningServerState::Closed)
        } else if name == "Failed"@ {
            Some(RunningServerState::Failed)
        } else {
            None
        }
    }

    /// Every state is found again by its name, and a name that finds a state
    /// is that state's name.
    pub proof fn lemma_named(self)
        ensures
            Self::named(self.name()) == Some(self),
            forall|n: Seq<char>| Self::named(n) == Some(self) ==> n == self.name(),
    {
        reveal_strlit("Start");
        reveal_strlit("Ready");
        reveal_strlit("PreparedToHostGame");
        reveal_strlit("CreatingGame");
        reveal_strlit("InitializationFailed");
        reveal_strlit("InGame");
        reveal_strlit("InGameSavingMap");
        reveal_strlit("DisconnectingScheduled");
        reveal_strlit("Disconnecting");
        reveal_strlit("Disconnected");
        reveal_strlit("Closed");
        reveal_strlit("Failed");
        assert("Start"@.len() == 5 && "Start"@[0] == 'S');
        assert("Ready"@.len() == 5 && "Ready"@[0] == 'R');
        assert("PreparedToHostGame"@.len() == 18 && "PreparedToHostGame"@[0] == 'P');
        assert("CreatingGame"@.len() == 12 && "CreatingGame"@[0] == 'C');
        assert("InitializationFailed"@.len() == 20 && "InitializationFailed"@[0] == 'I');
        assert("InGame"@.len() == 6 && "InGame"@[0] == 'I');
        assert("InGameSavingMap"@.len() == 15 && "InGameSavingMap"@[0] == 'I');
        assert("DisconnectingScheduled"@.len() == 22 && "DisconnectingScheduled"@[0] == 'D');
        assert("Disconnecting"@.len() == 13 && "Disconnecting"@[0] == 'D');
        assert("Disconnected"@.len() == 12 && "Disconnected"@[0] == 'D');
        assert("Closed"@.len() == 6 && "Closed"@[0] == 'C');
        assert("Failed"@.len() == 6 && "Failed"@[0] == 'F');
    }

    /// The state with the given name.
    pub fn from_name(name: &str) -> (r: Option<RunningServerState>)
        ensures
            r == Self::named(name@),
    {
        let v = chars_of(name);
        if equals(&v, "Start") {
            Some(RunningServerState::Start)
        } else if equals(&v, "Ready") {
            Some(RunningServerState::Ready)
        } else if equals(&v, "PreparedToHostGame") {
            Some(RunningServerState::PreparedToHostGame)
        } else if equals(&v, "CreatingGame") {
            Some(RunningServerState::CreatingGame)
        } else if equals(&v, "InitializationFailed") {
            Some(RunningServerState::InitializationFailed)
        } else if equals(&v, "InGame") {
            Some(RunningServerState::InGame)
        } else if equals(&v, "InGameSavingMap") {
            Some(RunningServerState::InGameSavingMap)
        } else if equals(&v, "DisconnectingScheduled") {
            Some(RunningServerState::DisconnectingScheduled)
        } else if equals(&v, "Disconnecting") {
            Some(RunningServerState::Disconnecting)
        } else if equals(&v, "Disconnected") {
            Some(RunningServerState::Disconnected)
        } else if equals(&v, "Closed") {
            Some(RunningServerState::Closed)
        } else if equals(&v, "Failed") {
            Some(RunningServerState::Failed)
        } else {
            None
        }
    }
}

impl Default for RunningServerState {
    fn default() -> (r: Self)
        ensures
            r == RunningServerState::Start,
    {
        RunningServerState::Start
    }
}

/// The message of the one fatal error that is known: the server's port is
/// taken.
pub open spec fn port_in_use_message() -> Seq<char> {
    "MultiplayerManager failed: Host address is already in use."@
}

/// What is known of a running server: its state and who is online.
pub struct RunningServerView {
    pub state: RunningServerState,
    pub players_online: Set<Seq<char>>,
}

impl RunningServerView {
    /// A server that has just been started.
    pub open spec fn initial() -> RunningServerView {
        RunningServerView { state: RunningServerState::Start, players_online: Set::empty() }
    }

    /// What a line of the log makes of the server, and the fault it reports
    /// if it reports one.
    ///
    /// A fatal error is a fault: the known one if its message is
    /// `port_in_use_message`, an unknown one else. A change of state sets the
    /// state that is named, whatever the state was; an unknown name is a
    /// fault. The event `JOIN` puts the first word of its message among the
    /// players, `LEAVE` takes it from them, and a message without a word is
    /// a fault. Other events and lines change nothing. A fault changes
    /// nothing.
    pub open spec fn apply(self, line: LogLineView) -> (
        RunningServerView,
        Result<(), ServerErrorView>,
    ) {
        match line {
            LogLineView::Error(message) => if message == port_in_use_message() {
                (self, Err(ServerErrorView::PortUnavailable))
            } else {
                (self, Err(ServerErrorView::UnknownError(message)))
            },
            LogLineView::Transition(name) => match RunningServerState::named(name) {
                Some(state) => (
                    RunningServerView { state, players_online: self.players_online },
                    Ok(()),
                ),
                None => (self, Err(ServerErrorView::UnknownState(name))),
            },
            LogLineView::Event(tag, message) => if tag == "JOIN"@ {
                match first_word(message) {
                    Some(player) => (
                        RunningServerView {
                            state: self.state,
                            players_online: self.players_online.insert(player),
                        },
                        Ok(()),
                    ),
                    None => (self, Err(ServerErrorView::MissingPlayerName)),
                }
            } else if tag == "LEAVE"@ {
                match first_word(message) {
                    Some(player) => (
                        RunningServerView {
                            state: self.state,
                            players_online: self.players_online.remove(player),
                        },
                        Ok(()),
                    ),
                    None => (self, Err(ServerErrorView::MissingPlayerName)),
                }
            } else {
                (self, Ok(()))
            },
            LogLineView::Other => (self, Ok(())),
        }
    }
}

/// A line that names a known state as the new one sets that state, whatever
/// the state was and whatever the line names as the old one; nothing else
/// changes, and no fault is reported.
pub proof fn lemma_transition_sets_state(
    server: RunningServerView,
    line: Seq<char>,
    state: RunningServerState,
)
    requires
        classify(line) == LogLineView::Transition(state.name()),
    ensures
        server.apply(classify(line)) == (
            RunningServerView { state, players_online: server.players_online },
            Ok::<(), ServerErrorView>(()),
        ),
{
    state.lemma_named();
}

/// A player who joins and then leaves is not online afterwards, and the
/// others are as before: where nobody was online, nobody is.
pub proof fn lemma_join_then_leave(
    server: RunningServerView,
    joined: Seq<char>,
    left: Seq<char>,
    player: Seq<char>,
)
    requires
        first_word(joined) == Some(player),
        first_word(left) == Some(player),
    ensures
        ({
            let (after_join, join) = server.apply(LogLineView::Event("JOIN"@, joined));
            let (after_leave, leave) = after_join.apply(LogLineView::Event("LEAVE"@, left));
            &&& join is Ok && leave is Ok
            &&& after_join.players_online == server.players_online.insert(player)
            &&& after_leave.players_online == server.players_online.remove(player)
            &&& after_leave.state == server.state
            &&& server.players_online == Set::<Seq<char>>::empty() ==> after_leave.players_online
                == Set::<Seq<char>>::empty()
        }),
{
    reveal_strlit("JOIN");
    reveal_strlit("LEAVE");
    assert("JOIN"@ != "LEAVE"@) by {
        assert("JOIN"@.len() == 4 && "LEAVE"@.len() == 5);
    }
    let after_join = server.apply(LogLineView::Event("JOIN"@, joined)).0;
    let after_leave = after_join.apply(LogLineView::Event("LEAVE"@, left)).0;
    assert(after_leave.players_online =~= server.players_online.remove(player));
    if server.players_online == Set::<Seq<char>>::empty() {
        assert(after_leave.players_online =~= Set::<Seq<char>>::empty());
    }
}

/// That a player leaves who is not online changes nothing, and is no fault.
pub proof fn lemma_leave_of_absent(server: RunningServerView, left: Seq<char>, player: Seq<char>)
    requires
        first_word(left) == Some(player),
        !server.players_online.contains(player),
    ensures
        server.apply(LogLineView::Event("LEAVE"@, left)) == (server, Ok::<(), ServerErrorView>(())),
{
    reveal_strlit("JOIN");
    reveal_strlit("LEAVE");
    assert("JOIN"@ != "LEAVE"@) by {
        assert("JOIN"@.len() == 4 && "LEAVE"@.len() == 5);
    }
    assert(server.players_online.remove(player) =~= server.players_online);
}

/// A fatal error changes nothing of the server. It is reported as the
/// port being taken if its message says so, and as unknown else.
pub proof fn lemma_error_changes_nothing(server: RunningServerView, message: Seq<char>)
    ensures
        server.apply(LogLineView::Error(message)).0 == server,
        server.apply(LogLineView::Error(message)).1 == Err::<(), ServerErrorView>(
            if message == port_in_use_message() {
                ServerErrorView::PortUnavailable
            } else {
                ServerErrorView::UnknownError(message)
            },
        ),
{
}

/// A state line, as the server writes it, that names a known state as the
/// new one sets that state, whatever the state was and whatever the line
/// names as the old one.
pub proof fn lemma_state_line_sets_state(
    server: RunningServerView,
    stamp: Seq<char>,
    free: Seq<char>,
    old: Seq<char>,
    state: RunningServerState,
)
    requires
        is_stamp(stamp),
        free.len() > 0,
        no_newline(free, 0, free.len() as int),
        free_of(free, '('),
        old.len() > 0,
        no_newline(old, 0, old.len() as int),
        free_of(old, ')'),
    ensures
        server.apply(
            classify(
                stamp + "Info"@ + free + "changing state from("@ + old + ") to("@ + state.name()
                    + ")"@,
            ),
        ) == (
            RunningServerView { state, players_online: server.players_online },
            Ok::<(), ServerErrorView>(()),
        ),
{
    let name = state.name();
    assert(name.len() > 0 && no_newline(name, 0, name.len() as int)) by {
        reveal_strlit("Start");
        reveal_strlit("Ready");
        reveal_strlit("PreparedToHostGame");
        reveal_strlit("CreatingGame");
        reveal_strlit("InitializationFailed");
        reveal_strlit("InGame");
        reveal_strlit("InGameSavingMap");
        reveal_strlit("DisconnectingScheduled");
        reveal_strlit("Disconnecting");
        reveal_strlit("Disconnected");
        reveal_strlit("Closed");
        reveal_strlit("Failed");
    }
    lemma_state_line(stamp, free, old, name);
    lemma_transition_sets_state(
        server,
        stamp + "Info"@ + free + "changing state from("@ + old + ") to("@ + name + ")"@,
        state,
    );
}

/// An event line tagged `JOIN`, as the server writes it, puts the player
/// that it begins with among the players, and one tagged `LEAVE` takes the
/// player from them.
pub proof fn lemma_event_line_joins_and_leaves(
    server: RunningServerView,
    head: Seq<char>,
    player: Seq<char>,
    rest: Seq<char>,
)
    requires
        is_event_head(head),
        player.len() > 0,
        free_of_space(player),
        rest.len() > 0 ==> is_space(rest[0]),
        no_newline(rest, 0, rest.len() as int),
    ensures
        server.apply(classify(head + "JOIN"@ + "] "@ + (player + rest))) == (
            RunningServerView {
                state: server.state,
                players_online: server.players_online.insert(player),
            },
            Ok::<(), ServerErrorView>(()),
        ),
        server.apply(classify(head + "LEAVE"@ + "] "@ + (player + rest))) == (
            RunningServerView {
                state: server.state,
                players_online: server.players_online.remove(player),
            },
            Ok::<(), ServerErrorView>(()),
        ),
{
    reveal_strlit("JOIN");
    reveal_strlit("LEAVE");
    let message = player + rest;
    lemma_first_word(player, rest);
    assert(no_newline(message, 0, message.len() as int)) by {
        assert forall|k: int| 0 <= k < message.len() implies message[k] != '\n' by {
            if k < player.len() {
                assert(message[k] == player[k]);
                assert(!is_space(player[k]));
            } else {
                assert(message[k] == rest[k - player.len()]);
            }
        }
    }
    assert("JOIN"@ != "LEAVE"@) by {
        assert("JOIN"@.len() == 4 && "LEAVE"@.len() == 5);
    }
    lemma_event_line(head, "JOIN"@, message);
    lemma_event_line(head, "LEAVE"@, message);
}

/// An error line, as the server writes it, that says that the port is
/// taken is reported as that, and changes nothing of the server.
pub proof fn lemma_error_line_reports_port(
    server: RunningServerView,
    stamp: Seq<char>,
    component: Seq<char>,
)
    requires
        is_stamp(stamp),
        component.len() > 0,
        free_of_space(component),
    ensures
        server.apply(classify(stamp + "Error "@ + component + " "@ + port_in_use_message())) == (
            server,
            Err::<(), ServerErrorView>(ServerErrorView::PortUnavailable),
        ),
{
    reveal_strlit("MultiplayerManager failed: Host address is already in use.");
    reveal_strlit(" ");
    let message = port_in_use_message();
    let line = stamp + "Error "@ + component + " "@ + message;
    assert(line =~= stamp + "Error "@ + component + " "@ + message + Seq::<char>::empty());
    lemma_error_line(stamp, component, " "@, message, Seq::<char>::empty());
}

/// The view of a result that may hold a fault.
pub open spec fn outcome(r: Result<(), ServerError>) -> Result<(), ServerErrorView> {
    match r {
        Ok(()) => Ok(()),
        Err(e) => Err(e@),
    }
}

/// A running server as its log tells it. No player is listed twice.
#[derive(Debug)]
pub struct RunningServer {
    state: RunningServerState,
    players_online: Vec<String>,
}

impl View for RunningServer {
    type V = RunningServerView;

    closed spec fn view(&self) -> RunningServerView {
        RunningServerView {
            state: self.state,
            players_online: Set::new(|name: Seq<char>| self.lists(name)),
        }
    }
}

impl Clone for RunningServer {
    /// A copy of the server: the snapshot that a query is answered with.
    fn clone(&self) -> (r: RunningServer)
        ensures
            r@ == self@,
    {
        proof {
            use_type_invariant(self);
        }
        let players_online = self.players_online.clone();
        proof {
            assert forall|i: int| 0 <= i < players_online.len() implies players_online[i]
                == self.players_online[i] by {
                assert(cloned::<String>(self.players_online[i], players_online[i]));
            }
            assert(players_online@ =~= self.players_online@);
        }
        let r = RunningServer { state: self.state, players_online };
        proof {
            assert forall|n: Seq<char>| r.lists(n) == self.lists(n) by {
                if r.lists(n) {
                    let i = choose|i: int|
                        0 <= i < r.players_online.len() && #[trigger] r.players_online[i]@ == n;
                    assert(self.players_online[i]@ == n);
                }
                if self.lists(n) {
                    let i = choose|i: int|
                        0 <= i < self.players_online.len() && #[trigger] self.players_online[i]@
                            == n;
                    assert(r.players_online[i]@ == n);
                }
            }
            assert(r@.players_online =~= self@.players_online);
        }
        r
    }
}

impl Default for RunningServer {
    fn default() -> (r: RunningServer)
        ensures
            r@ == RunningServerView::initial(),
    {
        RunningServer::new()
    }
}

impl RunningServer {
    /// Whether `name` is in the list of players.
    closed spec fn lists(self, name: Seq<char>) -> bool {
        exists|i: int| 0 <= i < self.players_online.len() && #[trigger] self.players_online[i]@
            == name
    }

    #[verifier::type_invariant]
    spec fn no_player_twice(self) -> bool {
        forall|i: int, j: int|
            0 <= i < j < self.players_online.len() ==> #[trigger] self.players_online[i]@
                != #[trigger] self.players_online[j]@
    }

    /// A server that has just been started: in state `Start`, with nobody
    /// online.
    pub fn new() -> (r: RunningServer)
        ensures
            r@ == RunningServerView::initial(),
    {
        let r = RunningServer { state: RunningServerState::Start, players_online: Vec::new() };
        assert(r@.players_online =~= Set::empty());
        r
    }

    /// The state that the server is in.
    pub fn state(&self) -> (r: RunningServerState)
        ensures
            r == self@.state,
    {
        self.state
    }

    /// Where `name` stands in the list of players.
    fn position(&self, name: &String) -> (r: Option<usize>)
        ensures
            match r {
                Some(i) => i < self.players_online.len() && self.players_online[i as int]@
                    == name@,
                None => !self.lists(name@),
            },
    {
        let mut i: usize = 0;
        while i < self.players_online.len()
            invariant
                i <= self.players_online.len(),
                forall|k: int| 0 <= k < i ==> self.players_online[k]@ != name@,
            decreases self.players_online.len() - i,
        {
            if self.players_online[i] == *name {
                return Some(i);
            }
            i += 1;
        }
        None
    }

    /// Whether the player `name` is online.
    pub fn is_online(&self, name: &str) -> (r: bool)
        ensures
            r == self@.players_online.contains(name@),
    {
        let name = name.to_owned();
        self.position(&name).is_some()
    }

    /// Whether nobody is online.
    pub fn is_empty(&self) -> (r: bool)
        ensures
            r == (self@.players_online == Set::<Seq<char>>::empty()),
    {
        let r = self.players_online.len() == 0;
        proof {
            if r {
                assert(self@.players_online =~= Set::empty());
            } else {
                assert(self.lists(self.players_online[0]@));
                assert(self@.players_online.contains(self.players_online[0]@));
            }
        }
        r
    }

    /// The players that are online, each once, in no order that means
    /// anything.
    pub fn players_online(&self) -> (r: Vec<String>)
        ensures
            strings_view(r@).to_set() == self@.players_online,
            strings_view(r@).no_duplicates(),
    {
        proof {
            use_type_invariant(self);
        }
        let players = self.players_online.clone();
        proof {
            assert forall|i: int| 0 <= i < players.len() implies players[i]
                == self.players_online[i] by {
                assert(cloned::<String>(self.players_online[i], players[i]));
            }
            let names = strings_view(players@);
            assert forall|n: Seq<char>| names.to_set().contains(n) == self.lists(n) by {
                if names.contains(n) {
                    let i = choose|i: int| 0 <= i < names.len() && names[i] == n;
                    assert(self.players_online[i]@ == n);
                }
                if self.lists(n) {
                    let i = choose|i: int|
                        0 <= i < self.players_online.len() && #[trigger] self.players_online[i]@
                            == n;
                    assert(names[i] == n);
                }
            }
            assert(names.to_set() =~= self@.players_online);
            assert forall|i: int, j: int|
                0 <= i < names.len() && 0 <= j < names.len() && i != j implies names[i]
                != names[j] by {
                assert(names[i] == self.players_online[i]@);
                assert(names[j] == self.players_online[j]@);
            }
        }
        players
    }

    /// Puts `name` among the players.
    fn join(&mut self, name: String)
        ensures
            final(self)@.state == old(self)@.state,
            final(self)@.players_online == old(self)@.players_online.insert(name@),
    {
        proof {
            use_type_invariant(&*self);
        }
        if self.position(&name).is_none() {
            let ghost before = self.players_online@;
            let mut players: Vec<String> = Vec::new();
            std::mem::swap(&mut players, &mut self.players_online);
            players.push(name);
            proof {
                assert forall|i: int, j: int| 0 <= i < j < players.len() implies #[trigger] players[i]@
                    != #[trigger] players[j]@ by {
                    if j == before.len() {
                        assert(before[i]@ == players[i]@);
                    } else {
                        assert(before[i]@ == players[i]@);
                        assert(before[j]@ == players[j]@);
                    }
                }
            }
            self.players_online = players;
            proof {
                assert forall|i: int, j: int|
                    0 <= i < j < self.players_online.len() implies #[trigger] self.players_online[i]@
                    != #[trigger] self.players_online[j]@ by {
                    if j == before.len() {
                        assert(before[i]@ == self.players_online[i]@);
                    } else {
                        assert(before[i]@ == self.players_online[i]@);
                        assert(before[j]@ == self.players_online[j]@);
                    }
                }
                assert forall|n: Seq<char>| self.lists(n) == (old(self).lists(n) || n
                    == name@) by {
                    if old(self).lists(n) {
                        let i = choose|i: int|
                            0 <= i < before.len() && #[trigger] before[i]@ == n;
                        assert(self.players_online[i]@ == n);
                    }
                    if n == name@ {
                        assert(self.players_online[before.len() as int]@ == n);
                    }
                    if self.lists(n) {
                        let i = choose|i: int|
                            0 <= i < self.players_online.len() && #[trigger] self.players_online[i]@
                                == n;
                        if i < before.len() {
                            assert(before[i]@ == n);
                        }
                    }
                }
            }
        }
        assert(self@.players_online =~= old(self)@.players_online.insert(name@));
    }

    /// Takes `name` from the players.
    fn leave(&mut self, name: String)
        ensures
            final(self)@.state == old(self)@.state,
            final(self)@.players_online == old(self)@.players_online.remove(name@),
    {
        proof {
            use_type_invariant(&*self);
        }
        match self.position(&name) {
            Some(at) => {
                let ghost before = self.players_online@;
                let mut players: Vec<String> = Vec::new();
                std::mem::swap(&mut players, &mut self.players_online);
                players.remove(at);
                proof {
                    assert forall|i: int, j: int| 0 <= i < j < players.len() implies #[trigger] players[i]@
                        != #[trigger] players[j]@ by {
                        let i0 = if i < at { i } else { i + 1 };
                        let j0 = if j < at { j } else { j + 1 };
                        assert(before[i0]@ == players[i]@);
                        assert(before[j0]@ == players[j]@);
                    }
                }
                self.players_online = players;
                proof {
                    assert forall|n: Seq<char>| self.lists(n) == (old(self).lists(n) && n
                        != name@) by {
                        if old(self).lists(n) && n != name@ {
                            let i = choose|i: int|
                                0 <= i < before.len() && #[trigger] before[i]@ == n;
                            if i < at {
                                assert(self.players_online[i]@ == n);
                            } else {
                                assert(self.players_online[i - 1]@ == n);
                            }
                        }
                        if self.lists(n) {
                            let i = choose|i: int|
                                0 <= i < self.players_online.len()
                                    && #[trigger] self.players_online[i]@ == n;
                            if i < at {
                                assert(before[i]@ == n);
                            } else {
                                assert(before[i + 1]@ == n);
                            }
                        }
                    }
                }
            },
            None => {},
        }
        assert(self@.players_online =~= old(self)@.players_online.remove(name@));
    }

    /// Takes one line of the server's log: `apply` of what the line says.
    pub fn new_line(&mut self, line: &str) -> (r: Result<(), ServerError>)
        ensures
            (final(self)@, outcome(r)) == old(self)@.apply(classify(line@)),
    {
        let ghost before = self@;
        proof {
            use_type_invariant(&*self);
        }
        match LogLine::classify(line) {
            LogLine::Error(message) => {
                let v = chars_of(message.as_str());
                if equals(&v, "MultiplayerManager failed: Host address is already in use.") {
                    Err(ServerError::PortUnavailable)
                } else {
                    Err(ServerError::UnknownError(message))
                }
            },
            LogLine::Transition(name) => {
                match RunningServerState::from_name(name.as_str()) {
                    Some(state) => {
                        self.state = state;
                        assert(self@.players_online =~= before.players_online);
                        Ok(())
                    },
                    None => Err(ServerError::UnknownState(name)),
                }
            },
            LogLine::Event(tag, message) => {
                let t = chars_of(tag.as_str());
                if equals(&t, "JOIN") {
                    match first_word_of(message.as_str()) {
                        Some(player) => {
                            self.join(player);
                            Ok(())
                        },
                        None => Err(ServerError::MissingPlayerName),
                    }
                } else if equals(&t, "LEAVE") {
                    match first_word_of(message.as_str()) {
                        Some(player) => {
                            self.leave(player);
                            Ok(())
                        },
                        None => Err(ServerError::MissingPlayerName),
                    }
                } else {
                    Ok(())
                }
            },
            LogLine::Other => Ok(()),
        }
    }
}

} // verus!
