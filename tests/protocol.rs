use std::str::FromStr;

use socha::error::SCError;
use socha::game::{Board, Coords, Move, Piece, PieceType, State, Team};
use socha::protocol::{
    Event, EventPayload, GameResult, Player, Request, RequestPayload, Score, ScoreAggregation,
    ScoreCause, ScoreDefinition, ScoreDefinitionFragment,
};
use socha::xml::Element;

#[test]
fn coords_test_parsing() {
    assert_eq!(Coords::try_from(&Element::from_str(r#"
            <coords x="23" y="0" />
        "#).unwrap()).unwrap(), Coords::new(23, 0));
}

#[test]
fn piece_test_parsing() {
    assert_eq!(Piece::try_from(&Element::from_str(r#"
            <piece type="Herzmuschel" team="TWO" count="1" />
        "#).unwrap()).unwrap(), Piece {
        piece_type: PieceType::Herzmuschel,
        team: Team::Two,
        count: 1,
    });
}

#[test]
fn state_test_parsing() {
    assert_eq!(State::try_from(&Element::from_str(r#"
            <state turn="3">
                <board>
                    <pieces></pieces>
                </board>
                <ambers>
                    <entry>
                        <team>ONE</team>
                        <int>1</int>
                    </entry>
                    <entry>
                        <team>TWO</team>
                        <int>0</int>
                    </entry>
                </ambers>
            </state>
        "#).unwrap()).unwrap(), State {
        board: Board::empty(),
        ambers: vec![
            (Team::One, 1usize),
            (Team::Two, 0usize)
        ],
        last_move: None,
        start_team: None,
        turn: 3,
    });
}

#[test]
fn game_result_test_parsing() {
    assert_eq!(
        GameResult::try_from(
            &Element::from_str(
                r#"
            <data class="result">
                <definition>
                    <fragment name="Siegpunkte">
                        <aggregation>SUM</aggregation>
                        <relevantForRanking>true</relevantForRanking>
                    </fragment>
                    <fragment name="∅ Punkte">
                        <aggregation>AVERAGE</aggregation>
                        <relevantForRanking>true</relevantForRanking>
                    </fragment>
                </definition>
                <scores>
                    <entry>
                        <player name="rad" team="ONE"/>
                        <score cause="REGULAR" reason="">
                            <part>2</part>
                            <part>27</part>
                        </score>
                    </entry>
                    <entry>
                        <player name="blues" team="TWO"/>
                        <score cause="LEFT" reason="Player left">
                            <part>0</part>
                            <part>15</part>
                        </score>
                    </entry>
                </scores>
                <winner team="ONE"/>
            </data>
        "#
            )
            .unwrap()
        )
        .unwrap(),
        GameResult::new(
            ScoreDefinition::new(vec![
                ScoreDefinitionFragment::new("Siegpunkte", ScoreAggregation::Sum, true),
                ScoreDefinitionFragment::new("∅ Punkte", ScoreAggregation::Average, true),
            ]),
            vec![
                (Player::new(Some("rad"), Team::One), Score::new(ScoreCause::Regular, "", vec![2, 27])),
                (Player::new(Some("blues"), Team::Two), Score::new(ScoreCause::Left, "Player left", vec![0, 15]))
            ],
            Some(Player::new(None, Team::One))
        )
    );
}

#[test]
fn player_test_parsing() {
    assert_eq!(
        Player::try_from(
            &Element::from_str(
                r#"
            <player name="Alice" team="ONE" />
        "#
            )
            .unwrap()
        )
        .unwrap(),
        Player::new(Some("Alice"), Team::One)
    );

    assert_eq!(
        Player::try_from(
            &Element::from_str(
                r#"
            <player team="TWO" />
        "#
            )
            .unwrap()
        )
        .unwrap(),
        Player::new(None, Team::Two)
    );
}

#[test]
fn score_definition_test_parsing() {
    assert_eq!(
        ScoreDefinition::try_from(
            &Element::from_str(
                r#"
            <definition>
                <fragment name="Siegpunkte">
                    <aggregation>SUM</aggregation>
                    <relevantForRanking>true</relevantForRanking>
                </fragment>
                <fragment name="∅ Punkte">
                    <aggregation>AVERAGE</aggregation>
                    <relevantForRanking>true</relevantForRanking>
                </fragment>
            </definition>
        "#
            )
            .unwrap()
        )
        .unwrap(),
        ScoreDefinition::new(vec![
            ScoreDefinitionFragment::new("Siegpunkte", ScoreAggregation::Sum, true),
            ScoreDefinitionFragment::new("∅ Punkte", ScoreAggregation::Average, true),
        ])
    );
}

#[test]
fn state_reads_last_move_and_start_team() {
    let s = State::try_from(&Element::from_str(r#"<state turn="5"><board><pieces><entry><coordinates x="1" y="2"/><piece type="Robbe" team="ONE" count="2"/></entry></pieces></board><ambers/><lastMove><from x="0" y="0"/><to x="1" y="0"/></lastMove><startTeam>ONE</startTeam></state>"#).unwrap()).unwrap();
    assert_eq!(s.turn(), 5);
    assert_eq!(s.board.pieces, vec![(Coords::new(1, 2), Piece { piece_type: PieceType::Robbe, team: Team::One, count: 2 })]);
    assert_eq!(s.last_move, Some(Move::new(Coords::new(0, 0), Coords::new(1, 0))));
    assert_eq!(s.start_team, Some(Team::One));
    assert_eq!(s.current_team(), Some(Team::Two));
}

#[test]
fn state_without_turn_is_an_error() {
    let r = State::try_from(&Element::from_str(r#"<state><board><pieces/></board><ambers/></state>"#).unwrap());
    assert!(matches!(r, Err(SCError::MissingAttribute(k)) if k == "turn"));
}

#[test]
fn invalid_values_are_reported() {
    assert!(matches!(Team::from_str("THREE"), Err(SCError::InvalidValue(_))));
    assert!(matches!(Coords::try_from(&Element::from_str(r#"<c x="-1" y="0"/>"#).unwrap()), Err(SCError::InvalidValue(_))));
    assert!(matches!(Coords::try_from(&Element::from_str(r#"<c x="99999999999999999999999" y="0"/>"#).unwrap()), Err(SCError::InvalidValue(_))));
    assert_eq!(Coords::try_from(&Element::from_str(r#"<c x="+7" y="007"/>"#).unwrap()).unwrap(), Coords::new(7, 7));
}

#[test]
fn payload_kinds_are_read_by_class() {
    let w = EventPayload::try_from(&Element::from_str(r#"<data class="welcomeMessage" color="TWO"/>"#).unwrap());
    assert!(matches!(w, Ok(EventPayload::Welcome(Team::Two))));
    let m = EventPayload::try_from(&Element::from_str(r#"<data class="moveRequest"/>"#).unwrap());
    assert!(matches!(m, Ok(EventPayload::MoveRequest)));
    let e = EventPayload::try_from(&Element::from_str(r#"<data class="error" message="bad move"/>"#).unwrap());
    assert!(matches!(e, Err(SCError::ServerError(m)) if m == "bad move"));
    let u = EventPayload::try_from(&Element::from_str(r#"<data class="somethingNew"/>"#).unwrap());
    match u {
        Err(SCError::UnknownElement(el)) => assert_eq!(el.to_string(), "<data class=\"somethingNew\"/>"),
        _ => panic!("expected an unknown element"),
    }
    let bad = EventPayload::try_from(&Element::from_str(r#"<data class="memento"/>"#).unwrap());
    assert!(matches!(bad, Err(SCError::MissingChild(_))));
}

#[test]
fn events_are_read_by_tag() {
    let j = Event::try_from(&Element::from_str(r#"<joined roomId="r7"/>"#).unwrap());
    assert!(matches!(j, Ok(Event::Joined { room_id }) if room_id == "r7"));
    let l = Event::try_from(&Element::from_str(r#"<left roomId="r7"/>"#).unwrap());
    assert!(matches!(l, Ok(Event::Left { room_id }) if room_id == "r7"));
    let u = Event::try_from(&Element::from_str(r#"<other/>"#).unwrap());
    assert!(matches!(u, Err(SCError::UnknownElement(_))));
    let r = Event::try_from(&Element::from_str(r#"<room roomId="r7"><data class="moveRequest"/></room>"#).unwrap());
    assert!(matches!(r, Ok(Event::Room { room_id, payload: EventPayload::MoveRequest }) if room_id == "r7"));
}

#[test]
fn requests_are_written() {
    assert_eq!(Request::Join.to_element().to_string(), "<join/>");
    assert_eq!(
        Request::JoinPrepared { reservation_code: "abc".to_owned() }.to_element().to_string(),
        "<joinPrepared reservationCode=\"abc\"/>"
    );
    let m = Move::new(Coords::new(23, 0), Coords::new(3, 10));
    assert_eq!(
        Request::Room { room_id: "r1".to_owned(), payload: RequestPayload::Move(m) }.to_element().to_string(),
        "<room roomId=\"r1\"><data class=\"move\"><from x=\"23\" y=\"0\"/><to x=\"3\" y=\"10\"/></data></room>"
    );
}

#[test]
fn move_element_reads_back() {
    let m = Move::new(Coords::new(12, 345), Coords::new(0, 7));
    let e = Element::from_str(&m.to_element().to_string()).unwrap();
    assert_eq!(Move::try_from(&e).unwrap(), m);
}

#[test]
fn payload_descriptions() {
    assert_eq!(EventPayload::Welcome(Team::One).to_string(), "Welcome (team: ONE)");
    assert_eq!(EventPayload::MoveRequest.to_string(), "MoveRequest");
    let s = State { board: Board::empty(), ambers: vec![], turn: 42, last_move: None, start_team: None };
    assert_eq!(EventPayload::Memento(s).to_string(), "Memento (turn: 42)");
    let g = GameResult::new(ScoreDefinition::new(vec![]), vec![], None);
    assert_eq!(EventPayload::GameResult(g).to_string(), "GameResult (winner: none)");
    let w = GameResult::new(ScoreDefinition::new(vec![]), vec![], Some(Player::new(None, Team::Two)));
    assert_eq!(EventPayload::GameResult(w).to_string(), "GameResult (winner: TWO)");
}

#[test]
fn default_builder_has_empty_name() {
    let e = socha::xml::ElementBuilder::default().name("n").build();
    assert_eq!(e.to_string(), "<n/>");
    assert_eq!(socha::xml::ElementBuilder::default().build().name(), "");
}

#[test]
fn later_ambers_entry_replaces_earlier_one() {
    let s = State::try_from(&Element::from_str(r#"<state turn="0"><board><pieces/></board><ambers><entry><team>TWO</team><int>4</int></entry><entry><team>ONE</team><int>1</int></entry><entry><team>TWO</team><int>5</int></entry></ambers></state>"#).unwrap()).unwrap();
    assert_eq!(s.ambers, vec![(Team::Two, 5), (Team::One, 1)]);
}

#[test]
fn later_score_of_same_player_replaces_earlier_one() {
    let g = GameResult::try_from(&Element::from_str(r#"<data class="result"><definition/><scores><entry><player name="a" team="ONE"/><score cause="REGULAR" reason=""><part>1</part></score></entry><entry><player name="b" team="TWO"/><score cause="REGULAR" reason=""><part>2</part></score></entry><entry><player name="a" team="ONE"/><score cause="LEFT" reason="gone"><part>3</part></score></entry></scores></data>"#).unwrap()).unwrap();
    assert_eq!(g.scores().len(), 2);
    assert_eq!(g.scores()[0], (Player::new(Some("a"), Team::One), Score::new(ScoreCause::Left, "gone", vec![3])));
    assert_eq!(g.scores()[1].0, Player::new(Some("b"), Team::Two));
    assert!(g.winner().is_none());
}
