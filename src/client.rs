use vstd::prelude::*;
use crate::error::{SCError, SCResult};
use crate::game::{move_tree, spec_current_team, state_matches, Move, State, Team};
use crate::protocol::{
    result_matches, spec_event_kind, Event, EventKind, EventPayload, GameResult, PayloadKind,
    Request, RequestPayload,
};
use crate::xml::{child_lookup, feed, leaf, toks, tokens_of, Element, Tok, Token, Tree, TreeBuilder};

verus! {

broadcast use {vstd::seq::group_seq_axioms, vstd::std_specs::vec::group_vec_axioms};

/// A handler that implements the game player's behavior, usually employing some custom
/// move selection strategy.
pub trait SCClientDelegate {
    /// Invoked whenever the game state updates.
    fn on_update_state(&mut self, state: &State) {
    }

    /// Invoked when the game ends, with the team of this player where it is known.
    fn on_game_end(&mut self, result: &GameResult, my_team: Option<Team>) {
    }

    /// Invoked when the welcome message is received with the player's team.
    fn on_welcome(&mut self, team: Team) {
    }

    /// Requests a move from the delegate. This method should implement the "main" game
    /// logic.
    fn request_move(&mut self, state: &State, my_team: Team) -> Move;
}

/// A configuration that determines whether the reader and/or the writer of a stream
/// should be swapped by stdio to ease debugging.
#[derive(Debug, Clone, Copy, PartialEq, Eq, Structural)]
pub struct DebugMode {
    pub debug_reader: bool,
    pub debug_writer: bool,
}

/// Where a session stands.
#[derive(Debug, Clone, Copy, PartialEq, Eq, Structural)]
pub enum Phase {
    /// The join request is sent; the server's envelope tag has not been seen yet.
    Handshaking,
    /// Messages are read and handled.
    Active,
    /// The server left the room and the close notice is sent.
    Closed,
}

/// What the session hands back for one token: the tokens to send, in order, and a
/// message that was dropped, for the log.
#[derive(Debug)]
pub struct Step {
    pub output: Vec<Token>,
    pub diagnostic: Option<SCError>,
}

/// The tag name of the envelope.
pub open spec fn envelope() -> Seq<char> {
    "protocol"@
}

/// The tokens that close a session: the close notice and the end of the envelope.
pub open spec fn closing_tokens() -> Seq<Tok> {
    seq![Tok::Empty("sc.protocol.CloseConnection"@, Seq::empty()), Tok::Close("protocol"@)]
}

/// The node that answers a move request of room `id` with the move `m`.
pub open spec fn room_move_tree(id: Seq<char>, m: Move) -> Tree {
    Tree {
        name: "room"@,
        content: Seq::empty(),
        attributes: seq![("roomId"@, id)],
        childs: seq![move_tree(m)],
    }
}

/// The node that asks to join: `joinPrepared` with the reservation code, or `join`.
pub open spec fn join_tree(code: Option<Seq<char>>) -> Tree {
    match code {
        Some(c) => Tree {
            name: "joinPrepared"@,
            content: Seq::empty(),
            attributes: seq![("reservationCode"@, c)],
            childs: Seq::empty(),
        },
        None => leaf("join"@, Seq::empty()),
    }
}

impl Step {
    /// A step that sends nothing and drops nothing.
    pub fn quiet() -> (r: Step)
        ensures
            r.output@.len() == 0,
            r.diagnostic is None,
    {
        Step { output: Vec::new(), diagnostic: None }
    }
}

/// Whether the two sessions agree on everything but the message being read.
pub open spec fn same_session<D: SCClientDelegate>(a: SCClient<D>, b: SCClient<D>) -> bool {
    same_but_phase(a, b) && a.phase_of() == b.phase_of()
}

/// Whether the two sessions agree on everything but the message being read and the phase.
pub open spec fn same_but_phase<D: SCClientDelegate>(a: SCClient<D>, b: SCClient<D>) -> bool {
    &&& a.delegate_of() == b.delegate_of()
    &&& a.debug_mode_of() == b.debug_mode_of()
    &&& a.reservation_of() == b.reservation_of()
    &&& a.team_of() == b.team_of()
    &&& a.state_of() == b.state_of()
    &&& a.result_of() == b.result_of()
}

/// Whether the two sessions agree on all but the delegate, the team, the state and the
/// result.
pub open spec fn same_frame<D: SCClientDelegate>(a: SCClient<D>, b: SCClient<D>) -> bool {
    &&& a.debug_mode_of() == b.debug_mode_of()
    &&& a.reservation_of() == b.reservation_of()
    &&& a.phase_of() == b.phase_of()
}

/// A step that sends nothing and drops nothing.
pub open spec fn is_quiet(r: SCResult<Step>) -> bool {
    r is Ok && r->Ok_0.output@.len() == 0 && r->Ok_0.diagnostic is None
}

/// A step that sends nothing and drops the message, for the log.
pub open spec fn is_dropped(r: SCResult<Step>) -> bool {
    r is Ok && r->Ok_0.output@.len() == 0 && r->Ok_0.diagnostic is Some
}

/// Whether handling the complete message `t` took the session from `a` to `b` with the
/// result `r`. A move request without a state, or without a team to move, is an
/// `InvalidState` error that leaves the delegate untouched; a message that cannot be read
/// is dropped and the session goes on.
pub open spec fn handled<D: SCClientDelegate>(
    a: SCClient<D>,
    b: SCClient<D>,
    t: Tree,
    r: SCResult<Step>,
) -> bool {
    let d = child_lookup(t.childs, "data"@)->Some_0;
    match spec_event_kind(t) {
        EventKind::Joined(_) => is_quiet(r) && same_session(a, b),
        EventKind::Left(_) => {
            &&& r is Ok
            &&& toks(r->Ok_0.output@) == closing_tokens()
            &&& r->Ok_0.diagnostic is None
            &&& b.phase_of() == Phase::Closed
            &&& same_but_phase(a, b)
        },
        EventKind::Room(id, k) => match k {
            PayloadKind::Welcome(team) => {
                &&& is_quiet(r)
                &&& same_frame(a, b)
                &&& b.team_of() == Some(team)
                &&& b.state_of() == a.state_of()
                &&& b.result_of() == a.result_of()
            },
            PayloadKind::Memento => {
                &&& is_quiet(r)
                &&& same_frame(a, b)
                &&& b.state_of() is Some
                &&& state_matches(child_lookup(d.childs, "state"@)->Some_0, b.state_of()->Some_0)
                &&& b.team_of() == a.team_of()
                &&& b.result_of() == a.result_of()
            },
            PayloadKind::MoveRequest => match a.state_of() {
                Some(st) if spec_current_team(st.turn, st.start_team) is Some => {
                    &&& r is Ok
                    &&& r->Ok_0.diagnostic is None
                    &&& exists|m: Move| toks(#[trigger] r->Ok_0.output@) == tokens_of(
                        room_move_tree(id, m),
                    )
                    &&& same_frame(a, b)
                    &&& b.team_of() == a.team_of()
                    &&& b.state_of() == a.state_of()
                    &&& b.result_of() == a.result_of()
                },
                _ => r is Err && r->Err_0 is InvalidState && same_session(a, b),
            },
            PayloadKind::Result => {
                &&& is_quiet(r)
                &&& same_frame(a, b)
                &&& b.result_of() is Some
                &&& result_matches(d, b.result_of()->Some_0)
                &&& b.team_of() == a.team_of()
                &&& b.state_of() == a.state_of()
            },
            _ => is_dropped(r) && same_session(a, b),
        },
        _ => is_dropped(r) && same_session(a, b),
    }
}

/// A move request that arrives before any state fails with `InvalidState`, and the
/// delegate is left as it was: it is not asked for a move.
pub proof fn lemma_move_request_needs_state<D: SCClientDelegate>(
    a: SCClient<D>,
    b: SCClient<D>,
    t: Tree,
    r: SCResult<Step>,
)
    requires
        handled(a, b, t, r),
        spec_event_kind(t) matches EventKind::Room(_, PayloadKind::MoveRequest),
        a.state_of() is None,
    ensures
        r is Err,
        r->Err_0 is InvalidState,
        b.delegate_of() == a.delegate_of(),
{
}

/// A room message with a discriminator that is not known is dropped for the log, sends
/// nothing, and leaves the session where it was, so that the next message is handled.
pub proof fn lemma_unknown_payload_is_dropped<D: SCClientDelegate>(
    a: SCClient<D>,
    b: SCClient<D>,
    t: Tree,
    r: SCResult<Step>,
)
    requires
        handled(a, b, t, r),
        spec_event_kind(t) matches EventKind::Room(_, PayloadKind::Unknown),
    ensures
        r is Ok,
        r->Ok_0.output@.len() == 0,
        r->Ok_0.diagnostic is Some,
        same_session(a, b),
{
}

/// The client which handles XML requests, manages the game state and invokes the
/// delegate.
pub struct SCClient<D: SCClientDelegate> {
    delegate: D,
    debug_mode: DebugMode,
    reservation_code: Option<String>,
    client_team: Option<Team>,
    state: Option<State>,
    game_result: Option<GameResult>,
    phase: Phase,
    builder: TreeBuilder,
}

impl<D: SCClientDelegate> SCClient<D> {
    pub closed spec fn delegate_of(&self) -> D {
        self.delegate
    }

    pub closed spec fn debug_mode_of(&self) -> DebugMode {
        self.debug_mode
    }

    pub closed spec fn phase_of(&self) -> Phase {
        self.phase
    }

    pub closed spec fn team_of(&self) -> Option<Team> {
        self.client_team
    }

    pub closed spec fn state_of(&self) -> Option<State> {
        self.state
    }

    pub closed spec fn result_of(&self) -> Option<GameResult> {
        self.game_result
    }

    pub closed spec fn reservation_of(&self) -> Option<Seq<char>> {
        match self.reservation_code {
            Some(c) => Some(c@),
            None => None,
        }
    }

    /// The nodes of the message being read, outermost first.
    pub closed spec fn frames_of(&self) -> Seq<Tree> {
        self.builder.frames()
    }

    /// Creates a new client using the specified delegate.
    pub fn new(delegate: D, debug_mode: DebugMode, reservation_code: Option<String>) -> (r: Self)
        ensures
            r.delegate_of() == delegate,
            r.debug_mode_of() == debug_mode,
            r.phase_of() == Phase::Handshaking,
            r.team_of() is None,
            r.state_of() is None,
            r.result_of() is None,
            r.frames_of().len() == 0,
            r.reservation_of() == match reservation_code {
                Some(c) => Some(c@),
                None => None::<Seq<char>>,
            },
    {
        Self {
            delegate,
            debug_mode,
            reservation_code,
            client_team: None,
            state: None,
            game_result: None,
            phase: Phase::Handshaking,
            builder: TreeBuilder::new(),
        }
    }

    /// Where the session stands.
    pub fn phase(&self) -> (r: Phase)
        ensures
            r == self.phase_of(),
    {
        self.phase
    }

    /// The delegate.
    pub fn delegate(&self) -> (r: &D)
        ensures
            *r == self.delegate_of(),
    {
        &self.delegate
    }

    /// Return team of the client
    pub fn team(&self) -> (r: Option<Team>)
        ensures
            r == self.team_of(),
    {
        self.client_team
    }

    /// Return reservation code, if any
    pub fn reservation(&self) -> (r: Option<String>)
        ensures
            match r {
                Some(c) => self.reservation_of() == Some(c@),
                None => self.reservation_of() is None,
            },
    {
        match &self.reservation_code {
            Some(c) => Some(c.clone()),
            None => None,
        }
    }

    /// The debugging configuration.
    pub fn debug_mode(&self) -> (r: DebugMode)
        ensures
            r == self.debug_mode_of(),
    {
        self.debug_mode
    }

    /// The tokens that open a session: the envelope's opening tag, left open, and the join
    /// request.
    pub fn start(&self) -> (r: Vec<Token>)
        ensures
            toks(r@) == seq![Tok::Open(envelope(), Seq::empty())] + tokens_of(
                join_tree(self.reservation_of()),
            ),
    {
        let mut out: Vec<Token> = Vec::new();
        let no_attrs: Vec<(String, String)> = Vec::new();
        assert(crate::xml::attrs_view(no_attrs@) =~= Seq::<(Seq<char>, Seq<char>)>::empty());
        out.push(Token::Open("protocol".to_owned(), no_attrs));
        let request = match &self.reservation_code {
            Some(code) => Request::JoinPrepared { reservation_code: code.clone() },
            None => Request::Join,
        };
        let e = request.to_element();
        proof {
            reveal_strlit("protocol");
            assert(e@.content =~= Seq::<char>::empty());
            assert(e@.childs =~= Seq::<Tree>::empty());
            if self.reservation_of() is None {
                assert(e@.attributes =~= Seq::<(Seq<char>, Seq<char>)>::empty());
            }
            assert(e@ == join_tree(self.reservation_of()));
        }
        let ghost o1 = toks(out@);
        assert(o1 =~= seq![Tok::Open(envelope(), Seq::empty())]);
        e.write_to(&mut out);
        out
    }

    /// Takes one token from the server and returns what to send. While handshaking,
    /// everything up to the server's envelope tag is skipped; then tokens are built into
    /// messages and each complete message is handled; once closed, nothing more is done.
    /// The end of the stream before the session is closed is an `Eof` error.
    pub fn feed(&mut self, token: Token) -> (r: SCResult<Step>)
        ensures
            match old(self).phase_of() {
                Phase::Handshaking => match token@ {
                    Tok::Eof => r is Err && r->Err_0 is Eof,
                    Tok::Open(n, _) => is_quiet(r) && if n == envelope() {
                        same_but_phase(*old(self), *final(self)) && final(self).phase_of()
                            == Phase::Active && final(self).frames_of() == old(self).frames_of()
                    } else {
                        *final(self) == *old(self)
                    },
                    _ => is_quiet(r) && *final(self) == *old(self),
                },
                Phase::Active => if token@ is Eof {
                    r is Err && r->Err_0 is Eof
                } else {
                    let (s2, done) = feed(old(self).frames_of(), token@);
                    final(self).frames_of() == s2 && match done {
                        None => is_quiet(r) && same_session(*old(self), *final(self)),
                        Some(t) => handled(*old(self), *final(self), t, r),
                    }
                },
                Phase::Closed => is_quiet(r) && *final(self) == *old(self),
            },
    {
        match self.phase {
            Phase::Handshaking => match token {
                Token::Open(n, _) => {
                    proof {
                        reveal_strlit("protocol");
                    }
                    if crate::parse::str_is(n.as_str(), "protocol") {
                        self.phase = Phase::Active;
                    }
                    Ok(Step::quiet())
                },
                Token::Eof => Err(SCError::Eof),
                _ => Ok(Step::quiet()),
            },
            Phase::Active => {
                if let Token::Eof = token {
                    return Err(SCError::Eof);
                }
                match self.builder.feed(token) {
                    None => Ok(Step::quiet()),
                    Some(e) => self.handle(e),
                }
            },
            Phase::Closed => Ok(Step::quiet()),
        }
    }

    fn handle(&mut self, elem: Element) -> (r: SCResult<Step>)
        ensures
            handled(*old(self), *final(self), elem@, r),
            final(self).frames_of() == old(self).frames_of(),
    {
        match Event::try_from(&elem) {
            Ok(Event::Joined { .. }) => Ok(Step::quiet()),
            Ok(Event::Left { .. }) => {
                self.phase = Phase::Closed;
                let mut out: Vec<Token> = Vec::new();
                let no_attrs: Vec<(String, String)> = Vec::new();
                assert(crate::xml::attrs_view(no_attrs@) =~= Seq::<(Seq<char>, Seq<char>)>::empty());
                out.push(Token::Empty("sc.protocol.CloseConnection".to_owned(), no_attrs));
                out.push(Token::Close("protocol".to_owned()));
                assert(toks(out@) =~= closing_tokens());
                Ok(Step { output: out, diagnostic: None })
            },
            Ok(Event::Room { room_id, payload }) => match payload {
                EventPayload::Welcome(team) => {
                    self.delegate.on_welcome(team);
                    self.client_team = Some(team);
                    Ok(Step::quiet())
                },
                EventPayload::GameResult(result) => {
                    self.delegate.on_game_end(&result, self.client_team);
                    self.game_result = Some(result);
                    Ok(Step::quiet())
                },
                EventPayload::Memento(state) => {
                    self.delegate.on_update_state(&state);
                    self.state = Some(state);
                    Ok(Step::quiet())
                },
                EventPayload::MoveRequest => {
                    let team = match &self.state {
                        None => {
                            return Err(SCError::InvalidState("No state available at move request!".to_owned()));
                        },
                        Some(state) => state.current_team(),
                    };
                    let team = match team {
                        None => {
                            return Err(SCError::InvalidState("No team available at move request!".to_owned()));
                        },
                        Some(team) => team,
                    };
                    let m = match &self.state {
                        Some(state) => self.delegate.request_move(state, team),
                        None => {
                            return Err(SCError::InvalidState("No state available at move request!".to_owned()));
                        },
                    };
                    let ghost id = room_id@;
                    let request = Request::Room { room_id, payload: RequestPayload::Move(m) };
                    let e = request.to_element();
                    proof {
                        assert(e@.content =~= Seq::<char>::empty());
                        assert(e@.childs =~= seq![move_tree(m)]);
                        assert(e@ == room_move_tree(id, m));
                    }
                    let mut out: Vec<Token> = Vec::new();
                    e.write_to(&mut out);
                    assert(toks(out@) =~= tokens_of(room_move_tree(id, m)));
                    Ok(Step { output: out, diagnostic: None })
                },
            },
            Err(x) => Ok(Step { output: Vec::new(), diagnostic: Some(x) }),
        }
    }

    /// The result of the session, once it is over: the game result that was recorded, or
    /// an error where none was.
    pub fn finish(self) -> (r: SCResult<GameResult>)
        ensures
            match self.result_of() {
                Some(g) => r is Ok && r->Ok_0 == g,
                None => r is Err && r->Err_0 is InvalidState,
            },
    {
        match self.game_result {
            Some(g) => Ok(g),
            None => Err(SCError::InvalidState("Failed to receive game_result".to_owned())),
        }
    }
}

} // verus!
