use vstd::prelude::*;
use crate::error::{SCError, SCResult};
use crate::parse::{parse_usize, spec_usize, str_is};
use crate::xml::{
    attr_lookup, child_lookup, decode_all, lemma_decode_all_none, lemma_decode_all_step,
    named_children, Element, ElementBuilder, Tree,
};

verus! {

broadcast use {vstd::seq::group_seq_axioms, vstd::std_specs::vec::group_vec_axioms};

/// One of the two teams.
#[derive(Clone, Copy, Debug, PartialEq, Eq, Structural, Hash)]
pub enum Team {
    One,
    Two,
}

/// The team that a text names: `ONE` or `TWO`.
pub open spec fn spec_team(s: Seq<char>) -> Option<Team> {
    if s == "ONE"@ {
        Some(Team::One)
    } else if s == "TWO"@ {
        Some(Team::Two)
    } else {
        None
    }
}

impl Team {
    /// The other team.
    pub open spec fn spec_opponent(self) -> Team {
        match self {
            Team::One => Team::Two,
            Team::Two => Team::One,
        }
    }

    /// The other team.
    pub fn opponent(self) -> (r: Team)
        ensures
            r == self.spec_opponent(),
    {
        match self {
            Team::One => Team::Two,
            Team::Two => Team::One,
        }
    }

    /// The name of the team.
    pub open spec fn spec_name(self) -> Seq<char> {
        match self {
            Team::One => "ONE"@,
            Team::Two => "TWO"@,
        }
    }

    /// The name of the team, as the protocol writes it.
    pub fn as_str(&self) -> (r: &'static str)
        ensures
            r@ == self.spec_name(),
    {
        match self {
            Team::One => "ONE",
            Team::Two => "TWO",
        }
    }

    /// Parses a team from its name.
    pub fn from_str(s: &str) -> (r: SCResult<Team>)
        ensures
            match spec_team(s@) {
                Some(t) => r is Ok && r->Ok_0 == t,
                None => r is Err && r->Err_0 is InvalidValue,
            },
    {
        if str_is(s, "ONE") {
            Ok(Team::One)
        } else if str_is(s, "TWO") {
            Ok(Team::Two)
        } else {
            Err(SCError::InvalidValue(s.to_owned()))
        }
    }
}

/// The kind of a piece.
#[derive(Clone, Copy, Debug, PartialEq, Eq, Structural, Hash)]
pub enum PieceType {
    Herzmuschel,
    Moewe,
    Seestern,
    Robbe,
}

/// The kind of piece that a text names.
pub open spec fn spec_piece_type(s: Seq<char>) -> Option<PieceType> {
    if s == "Herzmuschel"@ {
        Some(PieceType::Herzmuschel)
    } else if s == "Moewe"@ {
        Some(PieceType::Moewe)
    } else if s == "Seestern"@ {
        Some(PieceType::Seestern)
    } else if s == "Robbe"@ {
        Some(PieceType::Robbe)
    } else {
        None
    }
}

impl PieceType {
    /// Parses a kind of piece from its name.
    pub fn from_str(s: &str) -> (r: SCResult<PieceType>)
        ensures
            match spec_piece_type(s@) {
                Some(t) => r is Ok && r->Ok_0 == t,
                None => r is Err && r->Err_0 is InvalidValue,
            },
    {
        if str_is(s, "Herzmuschel") {
            Ok(PieceType::Herzmuschel)
        } else if str_is(s, "Moewe") {
            Ok(PieceType::Moewe)
        } else if str_is(s, "Seestern") {
            Ok(PieceType::Seestern)
        } else if str_is(s, "Robbe") {
            Ok(PieceType::Robbe)
        } else {
            Err(SCError::InvalidValue(s.to_owned()))
        }
    }
}

/// The value of attribute `key` of `t`, parsed by `f`.
pub open spec fn attr_parsed<T>(t: Tree, key: Seq<char>, f: spec_fn(Seq<char>) -> Option<T>) -> Option<T> {
    match attr_lookup(t.attributes, key) {
        Some(v) => f(v),
        None => None,
    }
}

/// Reads attribute `key` of `elem` as an unsigned integer.
pub fn usize_attribute(elem: &Element, key: &str) -> (r: SCResult<usize>)
    ensures
        match attr_parsed(elem@, key@, |s: Seq<char>| spec_usize(s)) {
            Some(v) => r is Ok && r->Ok_0 == v,
            None => r is Err,
        },
{
    let s = elem.attribute(key)?;
    match parse_usize(s) {
        Some(v) => Ok(v),
        None => Err(SCError::InvalidValue(s.to_owned())),
    }
}

/// Reads attribute `key` of `elem` as a team.
pub fn team_attribute(elem: &Element, key: &str) -> (r: SCResult<Team>)
    ensures
        match attr_parsed(elem@, key@, |s: Seq<char>| spec_team(s)) {
            Some(v) => r is Ok && r->Ok_0 == v,
            None => r is Err,
        },
{
    let s = elem.attribute(key)?;
    Team::from_str(s)
}

/// A position on the board.
#[derive(Debug, Clone, Copy, PartialEq, Eq, Structural, Hash)]
pub struct Coords {
    pub x: usize,
    pub y: usize,
}

/// The coordinates that a node holds in its attributes `x` and `y`.
pub open spec fn spec_coords(t: Tree) -> Option<Coords> {
    match (attr_parsed(t, "x"@, |s: Seq<char>| spec_usize(s)), attr_parsed(t, "y"@, |s: Seq<char>| spec_usize(s))) {
        (Some(x), Some(y)) => Some(Coords { x, y }),
        _ => None,
    }
}

impl Coords {
    pub fn new(x: usize, y: usize) -> (r: Self)
        ensures
            r.x == x && r.y == y,
    {
        Self { x, y }
    }

    pub fn x(&self) -> (r: usize)
        ensures
            r == self.x,
    {
        self.x
    }

    pub fn y(&self) -> (r: usize)
        ensures
            r == self.y,
    {
        self.y
    }

    /// Reads coordinates from the attributes `x` and `y` of a node.
    pub fn try_from(elem: &Element) -> (r: SCResult<Coords>)
        ensures
            match spec_coords(elem@) {
                Some(c) => r is Ok && r->Ok_0 == c,
                None => r is Err,
            },
    {
        let x = usize_attribute(elem, "x")?;
        let y = usize_attribute(elem, "y")?;
        Ok(Coords { x, y })
    }

    /// A node with the given tag name that holds the coordinates in its attributes.
    pub fn to_element(&self, name: &str) -> (r: Element)
        ensures
            r@ == coords_tree(name@, *self),
    {
        let x = usize_text(self.x);
        let y = usize_text(self.y);
        proof {
            reveal_strlit("x");
            reveal_strlit("y");
        }
        let b0 = ElementBuilder::new(name);
        let b1 = b0.attribute("x", x.as_str());
        assert(b1@.attributes =~= seq![("x"@, x@)]);
        assert("x"@ != "y"@) by {
            assert("x"@[0] != "y"@[0]);
        }
        assert(crate::xml::attr_index_from(b1@.attributes, "y"@, 1) == 1);
        let b2 = b1.attribute("y", y.as_str());
        assert(b2@.attributes =~= seq![("x"@, x@), ("y"@, y@)]);
        let r = b2.build();
        assert(r@.childs =~= Seq::<Tree>::empty());
        assert(r@.content =~= Seq::<char>::empty());
        r
    }
}

/// The node with tag name `name` that holds the coordinates `c`.
pub open spec fn coords_tree(name: Seq<char>, c: Coords) -> Tree {
    Tree {
        name,
        content: Seq::empty(),
        attributes: seq![("x"@, decimal_text(c.x as nat)), ("y"@, decimal_text(c.y as nat))],
        childs: Seq::empty(),
    }
}

/// The node that sends the move `m`.
pub open spec fn move_tree(m: Move) -> Tree {
    Tree {
        name: "data"@,
        content: Seq::empty(),
        attributes: seq![("class"@, "move"@)],
        childs: seq![coords_tree("from"@, m.from), coords_tree("to"@, m.to)],
    }
}

/// The decimal digits of `n`, most significant first.
pub open spec fn decimal_text(n: nat) -> Seq<char>
    decreases n,
{
    if n < 10 {
        seq![(n + 48) as char]
    } else {
        decimal_text(n / 10) + seq![((n % 10) + 48) as char]
    }
}

/// Relies on the `Display` impl of `usize` (through `ToString`): the decimal digits of
/// the value, without sign or padding.
#[verifier::external_body]
pub(crate) fn usize_text(n: usize) -> (r: String)
    ensures
        r@ == decimal_text(n as nat),
{
    n.to_string()
}

/// A placeable figure on the board.
#[derive(Debug, Clone, Copy, PartialEq, Eq, Structural, Hash)]
pub struct Piece {
    /// Type of the (topmost) piece.
    pub piece_type: PieceType,
    /// Which team this piece belongs to.
    pub team: Team,
    /// Number of pieces in this castle.
    pub count: usize,
}

/// The piece that a node holds in its attributes `type`, `team` and `count`.
pub open spec fn spec_piece(t: Tree) -> Option<Piece> {
    match (
        attr_parsed(t, "type"@, |s: Seq<char>| spec_piece_type(s)),
        attr_parsed(t, "team"@, |s: Seq<char>| spec_team(s)),
        attr_parsed(t, "count"@, |s: Seq<char>| spec_usize(s)),
    ) {
        (Some(piece_type), Some(team), Some(count)) => Some(Piece { piece_type, team, count }),
        _ => None,
    }
}

impl Piece {
    /// The type of the (topmost) piece.
    pub fn piece_type(&self) -> (r: PieceType)
        ensures
            r == self.piece_type,
    {
        self.piece_type
    }

    /// Which team this piece belongs to.
    pub fn team(&self) -> (r: Team)
        ensures
            r == self.team,
    {
        self.team
    }

    /// Number of pieces in this castle.
    pub fn count(&self) -> (r: usize)
        ensures
            r == self.count,
    {
        self.count
    }

    /// Reads a piece from the attributes of a node.
    pub fn try_from(elem: &Element) -> (r: SCResult<Piece>)
        ensures
            match spec_piece(elem@) {
                Some(p) => r is Ok && r->Ok_0 == p,
                None => r is Err,
            },
    {
        let s = elem.attribute("type")?;
        let piece_type = PieceType::from_str(s)?;
        let team = team_attribute(elem, "team")?;
        let count = usize_attribute(elem, "count")?;
        Ok(Piece { piece_type, team, count })
    }
}

/// The board entry that a node holds: a `coordinates` child and a `piece` child.
pub open spec fn spec_board_entry(t: Tree) -> Option<(Coords, Piece)> {
    match (child_lookup(t.childs, "coordinates"@), child_lookup(t.childs, "piece"@)) {
        (Some(c), Some(p)) => match (spec_coords(c), spec_piece(p)) {
            (Some(a), Some(b)) => Some((a, b)),
            _ => None,
        },
        _ => None,
    }
}

/// Reads a board entry.
pub open spec fn board_entry_reader() -> spec_fn(Tree) -> Option<(Coords, Piece)> {
    |e: Tree| spec_board_entry(e)
}

/// The children of `t` named `name`, in order.
pub open spec fn children_named(t: Tree, name: Seq<char>) -> Seq<Tree> {
    named_children(t.childs, name, t.childs.len() as int)
}

/// The pieces that a `board` node holds: the `entry` children of its `pieces` child.
pub open spec fn spec_board(t: Tree) -> Option<Seq<(Coords, Piece)>> {
    match child_lookup(t.childs, "pieces"@) {
        Some(p) => decode_all(children_named(p, "entry"@), board_entry_reader()),
        None => None,
    }
}

fn read_board_entry(e: &Element) -> (r: SCResult<(Coords, Piece)>)
    ensures
        match spec_board_entry(e@) {
            Some(p) => r is Ok && r->Ok_0 == p,
            None => r is Err,
        },
{
    let c = Coords::try_from(e.child_by_name("coordinates")?)?;
    let q = Piece::try_from(e.child_by_name("piece")?)?;
    Ok((c, q))
}

/// The game board: the occupied fields, each with its piece.
#[derive(Debug, Clone, PartialEq, Eq)]
pub struct Board {
    pub pieces: Vec<(Coords, Piece)>,
}

impl Board {
    /// A board without pieces.
    pub fn empty() -> (r: Board)
        ensures
            r.pieces@.len() == 0,
    {
        Board { pieces: Vec::new() }
    }

    /// Reads a board from a `board` node.
    #[verifier::rlimit(50)]
    pub fn try_from(elem: &Element) -> (r: SCResult<Board>)
        ensures
            match spec_board(elem@) {
                Some(v) => r is Ok && r->Ok_0.pieces@ == v,
                None => r is Err,
            },
    {
        let p = elem.child_by_name("pieces")?;
        let es = p.childs_by_name("entry");
        let ghost ts = es@.map_values(|e: &Element| e@);
        let ghost f = board_entry_reader();
        let mut pieces: Vec<(Coords, Piece)> = Vec::new();
        let mut i: usize = 0;
        while i < es.len()
            invariant
                i <= es@.len(),
                ts == es@.map_values(|e: &Element| e@),
                f == board_entry_reader(),
                ts == children_named(p@, "entry"@),
                child_lookup(elem@.childs, "pieces"@) == Some(p@),
                decode_all(ts.take(i as int), f) == Some(pieces@),
            decreases es@.len() - i,
        {
            let e = es[i];
            proof {
                lemma_decode_all_step(ts, f, i as int);
            }
            match read_board_entry(e) {
                Ok(p) => {
                    pieces.push(p);
                },
                Err(x) => {
                    proof {
                        assert(ts[i as int] == e@);
                        assert(f(e@) is None);
                        lemma_decode_all_none(ts, f, i + 1);
                    }
                    return Err(x);
                },
            }
            i = i + 1;
        }
        assert(ts.take(es@.len() as int) =~= ts);
        Ok(Board { pieces })
    }
}

/// A move of the piece on one field to another.
#[derive(Debug, Clone, Copy, PartialEq, Eq, Structural, Hash)]
pub struct Move {
    pub from: Coords,
    pub to: Coords,
}

/// The move that a node holds in its children `from` and `to`.
pub open spec fn spec_move(t: Tree) -> Option<Move> {
    match (child_lookup(t.childs, "from"@), child_lookup(t.childs, "to"@)) {
        (Some(f), Some(o)) => match (spec_coords(f), spec_coords(o)) {
            (Some(from), Some(to)) => Some(Move { from, to }),
            _ => None,
        },
        _ => None,
    }
}

impl Move {
    pub fn new(from: Coords, to: Coords) -> (r: Move)
        ensures
            r.from == from && r.to == to,
    {
        Move { from, to }
    }

    /// Reads a move from the children `from` and `to` of a node.
    pub fn try_from(elem: &Element) -> (r: SCResult<Move>)
        ensures
            match spec_move(elem@) {
                Some(m) => r is Ok && r->Ok_0 == m,
                None => r is Err,
            },
    {
        let from = Coords::try_from(elem.child_by_name("from")?)?;
        let to = Coords::try_from(elem.child_by_name("to")?)?;
        Ok(Move { from, to })
    }

    /// The node that sends the move: `<data class="move">` with the children `from` and
    /// `to`.
    pub fn to_element(&self) -> (r: Element)
        ensures
            r@ == move_tree(*self),
    {
        let f = self.from.to_element("from");
        let t = self.to.to_element("to");
        let b = ElementBuilder::new("data").attribute("class", "move");
        assert(b@.attributes =~= seq![("class"@, "move"@)]);
        let r = b.child(f).child(t).build();
        assert(r@.childs =~= seq![f@, t@]);
        assert(r@.content =~= Seq::<char>::empty());
        r
    }
}

/// The ambers entry that a node holds: a `team` child and an `int` child, by their text.
pub open spec fn spec_amber_entry(t: Tree) -> Option<(Team, usize)> {
    match (child_lookup(t.childs, "team"@), child_lookup(t.childs, "int"@)) {
        (Some(a), Some(b)) => match (spec_team(a.content), spec_usize(b.content)) {
            (Some(x), Some(y)) => Some((x, y)),
            _ => None,
        },
        _ => None,
    }
}

/// Reads an ambers entry.
pub open spec fn amber_reader() -> spec_fn(Tree) -> Option<(Team, usize)> {
    |e: Tree| spec_amber_entry(e)
}

/// The index of the first entry for team `t` in `a` at or after `i`, or the length where
/// there is none.
pub open spec fn team_index_from(a: Seq<(Team, usize)>, t: Team, i: int) -> int
    decreases a.len() - i,
{
    if i < 0 || i >= a.len() {
        a.len() as int
    } else if a[i].0 == t {
        i
    } else {
        team_index_from(a, t, i + 1)
    }
}

/// `a` with the count `n` for team `t`: an entry for `t` is replaced, else one is added.
pub open spec fn team_insert(a: Seq<(Team, usize)>, t: Team, n: usize) -> Seq<(Team, usize)> {
    let i = team_index_from(a, t, 0);
    if 0 <= i < a.len() {
        a.update(i, (t, n))
    } else {
        a.push((t, n))
    }
}

/// The entries `es` inserted in turn into an empty list: one entry per team, the last one
/// read for it.
pub open spec fn team_insert_all(es: Seq<(Team, usize)>) -> Seq<(Team, usize)>
    decreases es.len(),
{
    if es.len() == 0 {
        Seq::empty()
    } else {
        team_insert(team_insert_all(es.drop_last()), es.last().0, es.last().1)
    }
}

/// The ambers entries of a `state` node, in order: the `entry` children of its `ambers`
/// child.
pub open spec fn spec_amber_entries(t: Tree) -> Option<Seq<(Team, usize)>> {
    match child_lookup(t.childs, "ambers"@) {
        Some(a) => decode_all(children_named(a, "entry"@), amber_reader()),
        None => None,
    }
}

/// The ambers of a `state` node: one count per team, the last entry read for it.
pub open spec fn spec_ambers(t: Tree) -> Option<Seq<(Team, usize)>> {
    match spec_amber_entries(t) {
        Some(es) => Some(team_insert_all(es)),
        None => None,
    }
}

fn insert_team(a: &mut Vec<(Team, usize)>, t: Team, n: usize)
    ensures
        final(a)@ == team_insert(old(a)@, t, n),
{
    let mut i: usize = 0;
    while i < a.len()
        invariant
            i <= a@.len(),
            a@ == old(a)@,
            team_index_from(a@, t, 0) == team_index_from(a@, t, i as int),
        decreases a@.len() - i,
    {
        if a[i].0 == t {
            a.set(i, (t, n));
            return;
        }
        i = i + 1;
    }
    a.push((t, n));
}

fn unique_by_team(es: &Vec<(Team, usize)>) -> (r: Vec<(Team, usize)>)
    ensures
        r@ == team_insert_all(es@),
{
    let mut r: Vec<(Team, usize)> = Vec::new();
    let mut i: usize = 0;
    while i < es.len()
        invariant
            i <= es@.len(),
            r@ == team_insert_all(es@.take(i as int)),
        decreases es@.len() - i,
    {
        assert(es@.take(i + 1).drop_last() =~= es@.take(i as int));
        insert_team(&mut r, es[i].0, es[i].1);
        i = i + 1;
    }
    assert(es@.take(es@.len() as int) =~= es@);
    r
}

/// The board of a `state` node.
pub open spec fn spec_state_board(t: Tree) -> Option<Seq<(Coords, Piece)>> {
    match child_lookup(t.childs, "board"@) {
        Some(b) => spec_board(b),
        None => None,
    }
}

/// The last move of a `state` node: its `lastMove` child, where that holds a move.
pub open spec fn spec_last_move(t: Tree) -> Option<Move> {
    match child_lookup(t.childs, "lastMove"@) {
        Some(m) => spec_move(m),
        None => None,
    }
}

/// The starting team of a `state` node: the text of its `startTeam` child, where that
/// names a team.
pub open spec fn spec_start_team(t: Tree) -> Option<Team> {
    match child_lookup(t.childs, "startTeam"@) {
        Some(s) => spec_team(s.content),
        None => None,
    }
}

/// The state of the game at a point in time.
#[derive(Debug, Clone, PartialEq, Eq)]
pub struct State {
    /// The game board.
    pub board: Board,
    /// The ambers per team, at most one entry for each.
    pub ambers: Vec<(Team, usize)>,
    /// The turn of the game.
    pub turn: usize,
    /// The most recent move.
    pub last_move: Option<Move>,
    /// The starting team.
    pub start_team: Option<Team>,
}

/// The team to move in a turn: the starting team on even turns, the other one on odd
/// turns; none without a starting team.
pub open spec fn spec_current_team(turn: usize, start_team: Option<Team>) -> Option<Team> {
    match start_team {
        Some(t) => if turn % 2 == 0 {
            Some(t)
        } else {
            Some(t.spec_opponent())
        },
        None => None,
    }
}

/// Whether a `state` node holds a state: a board, ambers and a turn.
pub open spec fn spec_state_ok(t: Tree) -> bool {
    spec_state_board(t) is Some && spec_ambers(t) is Some && attr_parsed(
        t,
        "turn"@,
        |s: Seq<char>| spec_usize(s),
    ) is Some
}

/// Whether `s` is the state that the node `t` holds.
pub open spec fn state_matches(t: Tree, s: State) -> bool {
    &&& Some(s.board.pieces@) == spec_state_board(t)
    &&& Some(s.ambers@) == spec_ambers(t)
    &&& Some(s.turn) == attr_parsed(t, "turn"@, |s: Seq<char>| spec_usize(s))
    &&& s.last_move == spec_last_move(t)
    &&& s.start_team == spec_start_team(t)
}

fn read_ambers(elem: &Element) -> (r: SCResult<Vec<(Team, usize)>>)
    ensures
        match spec_amber_entries(elem@) {
            Some(v) => r is Ok && r->Ok_0@ == v,
            None => r is Err,
        },
{
    let a = elem.child_by_name("ambers")?;
    let es = a.childs_by_name("entry");
    let ghost ts = es@.map_values(|e: &Element| e@);
    let ghost f = amber_reader();
    let mut out: Vec<(Team, usize)> = Vec::new();
    let mut i: usize = 0;
    while i < es.len()
        invariant
            i <= es@.len(),
            ts == es@.map_values(|e: &Element| e@),
            f == amber_reader(),
            ts == children_named(a@, "entry"@),
            child_lookup(elem@.childs, "ambers"@) == Some(a@),
            decode_all(ts.take(i as int), f) == Some(out@),
        decreases es@.len() - i,
    {
        let e = es[i];
        proof {
            lemma_decode_all_step(ts, f, i as int);
        }
        let t = match e.child_by_name("team") {
            Ok(t) => Team::from_str(t.content()),
            Err(x) => Err(x),
        };
        let n = match e.child_by_name("int") {
            Ok(n) => match parse_usize(n.content()) {
                Some(v) => Ok(v),
                None => Err(SCError::InvalidValue(n.content().to_owned())),
            },
            Err(x) => Err(x),
        };
        match (t, n) {
            (Ok(t), Ok(n)) => {
                out.push((t, n));
            },
            (Err(x), _) | (_, Err(x)) => {
                proof {
                    assert(ts[i as int] == e@);
                    assert(f(e@) is None);
                    lemma_decode_all_none(ts, f, i + 1);
                }
                return Err(x);
            },
        }
        i = i + 1;
    }
    assert(ts.take(es@.len() as int) =~= ts);
    Ok(out)
}

impl State {
    /// The turn of the game.
    pub fn turn(&self) -> (r: usize)
        ensures
            r == self.turn,
    {
        self.turn
    }

    /// The team whose turn it is, where the starting team is known.
    pub fn current_team(&self) -> (r: Option<Team>)
        ensures
            r == spec_current_team(self.turn, self.start_team),
    {
        match self.start_team {
            Some(t) => if self.turn % 2 == 0 {
                Some(t)
            } else {
                Some(t.opponent())
            },
            None => None,
        }
    }

    /// Reads a state from a `state` node: the `board` and `ambers` children and the `turn`
    /// attribute are required; `lastMove` and `startTeam` are taken where they can be read.
    pub fn try_from(elem: &Element) -> (r: SCResult<State>)
        ensures
            r is Ok <==> spec_state_ok(elem@),
            r is Ok ==> state_matches(elem@, r->Ok_0),
    {
        let board = match elem.child_by_name("board") {
            Ok(b) => Board::try_from(b),
            Err(x) => Err(x),
        };
        let ambers = match read_ambers(elem) {
            Ok(es) => Ok(unique_by_team(&es)),
            Err(x) => Err(x),
        };
        let turn = usize_attribute(elem, "turn");
        let (board, ambers, turn) = match (board, ambers, turn) {
            (Ok(b), Ok(a), Ok(t)) => (b, a, t),
            (Err(x), _, _) | (_, Err(x), _) | (_, _, Err(x)) => {
                return Err(x);
            },
        };
        let last_move = match elem.child_by_name("lastMove") {
            Ok(m) => match Move::try_from(m) {
                Ok(m) => Some(m),
                Err(_) => None,
            },
            Err(_) => None,
        };
        let start_team = match elem.child_by_name("startTeam") {
            Ok(t) => match Team::from_str(t.content()) {
                Ok(t) => Some(t),
                Err(_) => None,
            },
            Err(_) => None,
        };
        Ok(State { board, ambers, turn, last_move, start_team })
    }
}

} // verus!
