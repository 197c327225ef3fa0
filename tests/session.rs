use socha::client::{DebugMode, Phase, SCClient, SCClientDelegate, Step};
use socha::error::SCError;
use socha::game::{Board, Coords, Move, Piece, PieceType, State, Team};
use socha::logic::OwnGameLogic;
use socha::protocol::GameResult;
use socha::text::render;
use socha::xml::{Element, Token};

#[derive(Default)]
struct Recorder {
    welcomes: Vec<Team>,
    turns: Vec<usize>,
    move_calls: Vec<Team>,
    ends: Vec<Option<Team>>,
}

impl SCClientDelegate for Recorder {
    fn on_update_state(&mut self, state: &State) {
        self.turns.push(state.turn());
    }

    fn on_game_end(&mut self, _result: &GameResult, my_team: Option<Team>) {
        self.ends.push(my_team);
    }

    fn on_welcome(&mut self, team: Team) {
        self.welcomes.push(team);
    }

    fn request_move(&mut self, _state: &State, my_team: Team) -> Move {
        self.move_calls.push(my_team);
        Move::new(Coords::new(1, 2), Coords::new(3, 4))
    }
}

fn client() -> SCClient<Recorder> {
    SCClient::new(Recorder::default(), DebugMode { debug_reader: false, debug_writer: false }, None)
}

fn tokens(xml: &str) -> Vec<Token> {
    let mut v = Vec::new();
    Element::from_str(xml).unwrap().write_to(&mut v);
    v
}

fn feed_all(c: &mut SCClient<Recorder>, ts: Vec<Token>) -> Vec<Step> {
    ts.into_iter().map(|t| c.feed(t).unwrap()).collect()
}

fn output(steps: &[Step]) -> String {
    let mut all = Vec::new();
    for s in steps {
        for t in &s.output {
            all.push(t.clone());
        }
    }
    render(&all)
}

fn handshake(c: &mut SCClient<Recorder>) {
    c.feed(Token::Open("protocol".to_owned(), vec![])).unwrap();
}

const WELCOME: &str = r#"<room roomId="r1"><data class="welcomeMessage" color="ONE"/></room>"#;
const MEMENTO: &str = r#"<room roomId="r1"><data class="memento"><state turn="0"><startTeam>ONE</startTeam><board><pieces/></board><ambers/></state></data></room>"#;
const MOVE_REQUEST: &str = r#"<room roomId="r1"><data class="moveRequest"/></room>"#;
const RESULT: &str = r#"<room roomId="r1"><data class="result"><definition/><scores/><winner team="ONE"/></data></room>"#;

#[test]
fn start_sends_envelope_and_join() {
    let c = client();
    assert_eq!(render(&c.start()), "<protocol><join/>");
    let p = SCClient::new(Recorder::default(), DebugMode { debug_reader: false, debug_writer: true }, Some("abc".to_owned()));
    assert_eq!(render(&p.start()), "<protocol><joinPrepared reservationCode=\"abc\"/>");
    assert_eq!(p.reservation(), Some("abc".to_owned()));
}

#[test]
fn handshake_skips_text_before_the_envelope() {
    let mut c = client();
    let s = c.feed(Token::Text("<?garbage?> hello".to_owned())).unwrap();
    assert!(s.output.is_empty());
    // A game message before the envelope is not handled.
    for t in tokens(WELCOME) {
        assert!(c.feed(t).unwrap().output.is_empty());
    }
    assert_eq!(c.team(), None);
    assert!(c.delegate().welcomes.is_empty());
    handshake(&mut c);
    feed_all(&mut c, tokens(WELCOME));
    assert_eq!(c.team(), Some(Team::One));
    assert_eq!(c.delegate().welcomes, vec![Team::One]);
}

#[test]
fn end_of_stream_while_handshaking_is_fatal() {
    let mut c = client();
    assert!(matches!(c.feed(Token::Eof), Err(SCError::Eof)));
}

#[test]
fn move_request_without_state_is_an_invariant_violation() {
    let mut c = client();
    handshake(&mut c);
    let ts = tokens(MOVE_REQUEST);
    let n = ts.len();
    let mut last = None;
    for (i, t) in ts.into_iter().enumerate() {
        let r = c.feed(t);
        if i + 1 == n {
            last = Some(r);
        } else {
            assert!(r.unwrap().output.is_empty());
        }
    }
    assert!(matches!(last, Some(Err(SCError::InvalidState(_)))));
    assert!(c.delegate().move_calls.is_empty());
}

#[test]
fn unknown_payload_is_dropped_and_session_goes_on() {
    let mut c = client();
    handshake(&mut c);
    let steps = feed_all(&mut c, tokens(r#"<room roomId="r1"><data class="brandNew"/></room>"#));
    assert!(matches!(steps.last().unwrap().diagnostic, Some(SCError::UnknownElement(_))));
    assert!(output(&steps).is_empty());
    feed_all(&mut c, tokens(WELCOME));
    assert_eq!(c.team(), Some(Team::One));
}

#[test]
fn server_error_is_dropped_and_session_goes_on() {
    let mut c = client();
    handshake(&mut c);
    let steps = feed_all(&mut c, tokens(r#"<room roomId="r1"><data class="error" message="oops"/></room>"#));
    assert!(matches!(&steps.last().unwrap().diagnostic, Some(SCError::ServerError(m)) if m == "oops"));
    feed_all(&mut c, tokens(r#"<joined roomId="r1"/>"#));
    feed_all(&mut c, tokens(WELCOME));
    assert_eq!(c.team(), Some(Team::One));
}

#[test]
fn welcome_memento_move_request_scenario() {
    let mut c = client();
    handshake(&mut c);
    feed_all(&mut c, tokens(WELCOME));
    feed_all(&mut c, tokens(MEMENTO));
    let steps = feed_all(&mut c, tokens(MOVE_REQUEST));
    assert_eq!(c.delegate().welcomes, vec![Team::One]);
    assert_eq!(c.delegate().turns, vec![0]);
    assert_eq!(c.delegate().move_calls, vec![Team::One]);
    assert_eq!(
        output(&steps),
        "<room roomId=\"r1\"><data class=\"move\"><from x=\"1\" y=\"2\"/><to x=\"3\" y=\"4\"/></data></room>"
    );
}

#[test]
fn game_result_then_left_ends_the_session() {
    let mut c = client();
    handshake(&mut c);
    feed_all(&mut c, tokens(WELCOME));
    feed_all(&mut c, tokens(RESULT));
    let steps = feed_all(&mut c, tokens(r#"<left roomId="r1"/>"#));
    assert_eq!(output(&steps), "<sc.protocol.CloseConnection/></protocol>");
    assert_eq!(c.delegate().ends, vec![Some(Team::One)]);
    assert!(c.feed(Token::Eof).unwrap().output.is_empty());
    let result = c.finish().unwrap();
    assert_eq!(result.winner().as_ref().unwrap().team(), Team::One);
}

#[test]
fn session_without_result_fails() {
    let mut c = client();
    handshake(&mut c);
    feed_all(&mut c, tokens(r#"<left roomId="r1"/>"#));
    assert!(matches!(c.finish(), Err(SCError::InvalidState(_))));
}

#[test]
fn own_logic_moves_an_own_piece_one_field() {
    let state = State {
        board: Board { pieces: vec![
            (Coords::new(0, 0), Piece { piece_type: PieceType::Moewe, team: Team::One, count: 1 }),
            (Coords::new(5, 5), Piece { piece_type: PieceType::Robbe, team: Team::Two, count: 1 }),
        ] },
        ambers: vec![],
        turn: 0,
        last_move: None,
        start_team: Some(Team::One),
    };
    let mut logic = OwnGameLogic;
    for _ in 0..20 {
        let m = logic.request_move(&state, Team::One);
        assert_eq!(m.from, Coords::new(0, 0));
        assert!(m.to == Coords::new(1, 0) || m.to == Coords::new(0, 1));
    }
}
