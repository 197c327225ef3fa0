use vstd::prelude::*;
use vstd::string::StringExecFns;
use crate::error::{SCError, SCResult};
use crate::game::{
    attr_parsed, children_named, decimal_text, move_tree, usize_text, spec_state_ok, spec_team, state_matches, team_attribute, Move,
    State, Team,
};
use crate::parse::{parse_usize, spec_usize, str_is};
use crate::xml::{
    attr_lookup, child_lookup, decode_all, lemma_decode_all_none, lemma_decode_all_step, Element,
    ElementBuilder, Tree,
};

verus! {

broadcast use {vstd::seq::group_seq_axioms, vstd::std_specs::vec::group_vec_axioms};

/// A player: an optional name and a team.
#[derive(Debug, Clone, PartialEq, Eq, Hash)]
pub struct Player {
    name: Option<String>,
    team: Team,
}

/// The view of an optional text.
pub open spec fn opt_view(s: Option<String>) -> Option<Seq<char>> {
    match s {
        Some(v) => Some(v@),
        None => None,
    }
}

impl View for Player {
    type V = (Option<Seq<char>>, Team);

    closed spec fn view(&self) -> (Option<Seq<char>>, Team) {
        (opt_view(self.name), self.team)
    }
}

/// The player that a node holds: the attribute `team`, required, and `name`, optional.
pub open spec fn spec_player(t: Tree) -> Option<(Option<Seq<char>>, Team)> {
    match attr_parsed(t, "team"@, |s: Seq<char>| spec_team(s)) {
        Some(team) => Some((attr_lookup(t.attributes, "name"@), team)),
        None => None,
    }
}

impl Player {
    pub fn new(name: Option<&str>, team: Team) -> (r: Self)
        ensures
            r@ == (match name {
                Some(n) => Some(n@),
                None => None::<Seq<char>>,
            }, team),
    {
        let name = match name {
            Some(n) => Some(n.to_owned()),
            None => None,
        };
        Self { name, team }
    }

    pub fn name(&self) -> (r: Option<&str>)
        ensures
            match r {
                Some(n) => self@.0 == Some(n@),
                None => self@.0 is None,
            },
    {
        match &self.name {
            Some(n) => Some(n.as_str()),
            None => None,
        }
    }

    pub fn team(&self) -> (r: Team)
        ensures
            r == self@.1,
    {
        self.team
    }

    /// Reads a player from the attributes of a node.
    pub fn try_from(elem: &Element) -> (r: SCResult<Player>)
        ensures
            match spec_player(elem@) {
                Some(p) => r is Ok && r->Ok_0@ == p,
                None => r is Err,
            },
    {
        let team = Team::from_str(elem.attribute("team")?)?;
        let name = match elem.attribute("name") {
            Ok(n) => Some(n.to_owned()),
            Err(_) => None,
        };
        Ok(Player { name, team })
    }
}

/// Why a score came about.
#[derive(Debug, Clone, Copy, PartialEq, Eq, Structural, Hash)]
pub enum ScoreCause {
    Regular,
    Left,
    RuleViolation,
    SoftTimeout,
    HardTimeout,
    Unknown,
}

/// The cause that a text names.
pub open spec fn spec_score_cause(s: Seq<char>) -> Option<ScoreCause> {
    if s == "REGULAR"@ {
        Some(ScoreCause::Regular)
    } else if s == "LEFT"@ {
        Some(ScoreCause::Left)
    } else if s == "RULE_VIOLATION"@ {
        Some(ScoreCause::RuleViolation)
    } else if s == "SOFT_TIMEOUT"@ {
        Some(ScoreCause::SoftTimeout)
    } else if s == "HARD_TIMEOUT"@ {
        Some(ScoreCause::HardTimeout)
    } else if s == "UNKNOWN"@ {
        Some(ScoreCause::Unknown)
    } else {
        None
    }
}

impl ScoreCause {
    /// Parses a cause from its name.
    pub fn from_str(s: &str) -> (r: SCResult<ScoreCause>)
        ensures
            match spec_score_cause(s@) {
                Some(c) => r is Ok && r->Ok_0 == c,
                None => r is Err,
            },
    {
        if str_is(s, "REGULAR") {
            Ok(ScoreCause::Regular)
        } else if str_is(s, "LEFT") {
            Ok(ScoreCause::Left)
        } else if str_is(s, "RULE_VIOLATION") {
            Ok(ScoreCause::RuleViolation)
        } else if str_is(s, "SOFT_TIMEOUT") {
            Ok(ScoreCause::SoftTimeout)
        } else if str_is(s, "HARD_TIMEOUT") {
            Ok(ScoreCause::HardTimeout)
        } else if str_is(s, "UNKNOWN") {
            Ok(ScoreCause::Unknown)
        } else {
            Err(SCError::InvalidValue(s.to_owned()))
        }
    }
}

/// How the values of one score fragment are combined over games.
#[derive(Debug, Clone, Copy, PartialEq, Eq, Structural, Hash)]
pub enum ScoreAggregation {
    Sum,
    Average,
}

/// The aggregation that a text names.
pub open spec fn spec_aggregation(s: Seq<char>) -> Option<ScoreAggregation> {
    if s == "SUM"@ {
        Some(ScoreAggregation::Sum)
    } else if s == "AVERAGE"@ {
        Some(ScoreAggregation::Average)
    } else {
        None
    }
}

/// The truth value that a text names.
pub open spec fn spec_bool(s: Seq<char>) -> Option<bool> {
    if s == "true"@ {
        Some(true)
    } else if s == "false"@ {
        Some(false)
    } else {
        None
    }
}

/// The score of one player: its cause, a reason and the values of the fragments.
#[derive(Debug, Clone, PartialEq, Eq)]
pub struct Score {
    cause: ScoreCause,
    reason: String,
    parts: Vec<usize>,
}

impl View for Score {
    type V = (ScoreCause, Seq<char>, Seq<usize>);

    closed spec fn view(&self) -> (ScoreCause, Seq<char>, Seq<usize>) {
        (self.cause, self.reason@, self.parts@)
    }
}

/// The value of a `part` node: its text as an unsigned integer.
pub open spec fn part_reader() -> spec_fn(Tree) -> Option<usize> {
    |t: Tree| spec_usize(t.content)
}

/// The score that a node holds: the attributes `cause` and `reason` and the `part`
/// children.
pub open spec fn spec_score(t: Tree) -> Option<(ScoreCause, Seq<char>, Seq<usize>)> {
    match (
        attr_parsed(t, "cause"@, |s: Seq<char>| spec_score_cause(s)),
        attr_lookup(t.attributes, "reason"@),
        decode_all(children_named(t, "part"@), part_reader()),
    ) {
        (Some(c), Some(r), Some(p)) => Some((c, r, p)),
        _ => None,
    }
}

fn read_parts(elem: &Element) -> (r: SCResult<Vec<usize>>)
    ensures
        match decode_all(children_named(elem@, "part"@), part_reader()) {
            Some(v) => r is Ok && r->Ok_0@ == v,
            None => r is Err,
        },
{
    let es = elem.childs_by_name("part");
    let ghost ts = es@.map_values(|e: &Element| e@);
    let ghost f = part_reader();
    let mut parts: Vec<usize> = Vec::new();
    let mut i: usize = 0;
    while i < es.len()
        invariant
            i <= es@.len(),
            ts == es@.map_values(|e: &Element| e@),
            f == part_reader(),
            ts == children_named(elem@, "part"@),
            decode_all(ts.take(i as int), f) == Some(parts@),
        decreases es@.len() - i,
    {
        let e = es[i];
        proof {
            lemma_decode_all_step(ts, f, i as int);
            assert(ts[i as int] == e@);
        }
        match parse_usize(e.content()) {
            Some(v) => parts.push(v),
            None => {
                proof {
                    lemma_decode_all_none(ts, f, i + 1);
                }
                return Err(SCError::InvalidValue(e.content().to_owned()));
            },
        }
        i = i + 1;
    }
    assert(ts.take(es@.len() as int) =~= ts);
    Ok(parts)
}

impl Score {
    pub fn new(cause: ScoreCause, reason: &str, parts: Vec<usize>) -> (r: Self)
        ensures
            r@ == (cause, reason@, parts@),
    {
        Score { cause, reason: reason.to_owned(), parts }
    }

    /// Reads a score from a node.
    pub fn try_from(elem: &Element) -> (r: SCResult<Score>)
        ensures
            match spec_score(elem@) {
                Some(s) => r is Ok && r->Ok_0@ == s,
                None => r is Err,
            },
    {
        let cause = match elem.attribute("cause") {
            Ok(c) => ScoreCause::from_str(c),
            Err(x) => Err(x),
        };
        let reason = elem.attribute("reason");
        let parts = read_parts(elem);
        match (cause, reason, parts) {
            (Ok(cause), Ok(reason), Ok(parts)) => Ok(Score { cause, reason: reason.to_owned(), parts }),
            (Err(x), _, _) | (_, Err(x), _) | (_, _, Err(x)) => Err(x),
        }
    }
}
/// One fragment of a score definition: its name, its aggregation and whether it counts
/// for the ranking.
#[derive(Debug, Clone, PartialEq, Eq)]
pub struct ScoreDefinitionFragment {
    name: String,
    aggregation: ScoreAggregation,
    relevant_for_ranking: bool,
}

impl View for ScoreDefinitionFragment {
    type V = (Seq<char>, ScoreAggregation, bool);

    closed spec fn view(&self) -> (Seq<char>, ScoreAggregation, bool) {
        (self.name@, self.aggregation, self.relevant_for_ranking)
    }
}

/// The fragment that a node holds: the attribute `name` and the text of the children
/// `aggregation` and `relevantForRanking`.
pub open spec fn spec_fragment(t: Tree) -> Option<(Seq<char>, ScoreAggregation, bool)> {
    match (
        attr_lookup(t.attributes, "name"@),
        child_lookup(t.childs, "aggregation"@),
        child_lookup(t.childs, "relevantForRanking"@),
    ) {
        (Some(n), Some(a), Some(r)) => match (spec_aggregation(a.content), spec_bool(r.content)) {
            (Some(a), Some(r)) => Some((n, a, r)),
            _ => None,
        },
        _ => None,
    }
}

/// Reads a fragment.
pub open spec fn fragment_reader() -> spec_fn(Tree) -> Option<(Seq<char>, ScoreAggregation, bool)> {
    |t: Tree| spec_fragment(t)
}

impl ScoreDefinitionFragment {
    pub fn new(name: &str, aggregation: ScoreAggregation, relevant_for_ranking: bool) -> (r: Self)
        ensures
            r@ == (name@, aggregation, relevant_for_ranking),
    {
        ScoreDefinitionFragment { name: name.to_owned(), aggregation, relevant_for_ranking }
    }

    /// Reads a fragment from a node.
    pub fn try_from(elem: &Element) -> (r: SCResult<Self>)
        ensures
            match spec_fragment(elem@) {
                Some(f) => r is Ok && r->Ok_0@ == f,
                None => r is Err,
            },
    {
        let name = elem.attribute("name")?;
        let a = elem.child_by_name("aggregation")?.content();
        let aggregation = if str_is(a, "SUM") {
            ScoreAggregation::Sum
        } else if str_is(a, "AVERAGE") {
            ScoreAggregation::Average
        } else {
            return Err(SCError::InvalidValue(a.to_owned()));
        };
        let b = elem.child_by_name("relevantForRanking")?.content();
        let relevant_for_ranking = if str_is(b, "true") {
            true
        } else if str_is(b, "false") {
            false
        } else {
            return Err(SCError::InvalidValue(b.to_owned()));
        };
        Ok(ScoreDefinitionFragment { name: name.to_owned(), aggregation, relevant_for_ranking })
    }
}

/// The views of a list of fragments.
pub open spec fn fragment_views(v: Seq<ScoreDefinitionFragment>) -> Seq<(Seq<char>, ScoreAggregation, bool)> {
    v.map_values(|f: ScoreDefinitionFragment| f@)
}

/// The definition of the scores: its fragments, in order.
#[derive(Debug, Clone, PartialEq, Eq)]
pub struct ScoreDefinition {
    fragments: Vec<ScoreDefinitionFragment>,
}

impl View for ScoreDefinition {
    type V = Seq<(Seq<char>, ScoreAggregation, bool)>;

    closed spec fn view(&self) -> Seq<(Seq<char>, ScoreAggregation, bool)> {
        fragment_views(self.fragments@)
    }
}

/// The definition that a node holds: its `fragment` children.
pub open spec fn spec_definition(t: Tree) -> Option<Seq<(Seq<char>, ScoreAggregation, bool)>> {
    decode_all(children_named(t, "fragment"@), fragment_reader())
}

impl ScoreDefinition {
    pub fn new(fragments: Vec<ScoreDefinitionFragment>) -> (r: Self)
        ensures
            r@ == fragment_views(fragments@),
    {
        ScoreDefinition { fragments }
    }

    pub fn fragments(&self) -> (r: &Vec<ScoreDefinitionFragment>)
        ensures
            fragment_views(r@) == self@,
    {
        &self.fragments
    }

    /// Reads a definition from a node.
    pub fn try_from(elem: &Element) -> (r: SCResult<Self>)
        ensures
            match spec_definition(elem@) {
                Some(d) => r is Ok && r->Ok_0@ == d,
                None => r is Err,
            },
    {
        let es = elem.childs_by_name("fragment");
        let ghost ts = es@.map_values(|e: &Element| e@);
        let ghost f = fragment_reader();
        let mut out: Vec<ScoreDefinitionFragment> = Vec::new();
        let mut i: usize = 0;
        while i < es.len()
            invariant
                i <= es@.len(),
                ts == es@.map_values(|e: &Element| e@),
                f == fragment_reader(),
                ts == children_named(elem@, "fragment"@),
                decode_all(ts.take(i as int), f) == Some(fragment_views(out@)),
            decreases es@.len() - i,
        {
            let e = es[i];
            proof {
                lemma_decode_all_step(ts, f, i as int);
                assert(ts[i as int] == e@);
            }
            match ScoreDefinitionFragment::try_from(e) {
                Ok(x) => {
                    let ghost before = out@;
                    out.push(x);
                    assert(fragment_views(out@) =~= fragment_views(before).push(x@));
                },
                Err(x) => {
                    proof {
                        lemma_decode_all_none(ts, f, i + 1);
                    }
                    return Err(x);
                },
            }
            i = i + 1;
        }
        assert(ts.take(es@.len() as int) =~= ts);
        Ok(ScoreDefinition { fragments: out })
    }
}

/// The views of the score entries.
pub open spec fn score_views(v: Seq<(Player, Score)>) -> Seq<((Option<Seq<char>>, Team), (ScoreCause, Seq<char>, Seq<usize>))> {
    v.map_values(|p: (Player, Score)| (p.0@, p.1@))
}

/// A score entry: a `player` child and a `score` child.
pub open spec fn spec_score_entry(t: Tree) -> Option<((Option<Seq<char>>, Team), (ScoreCause, Seq<char>, Seq<usize>))> {
    match (child_lookup(t.childs, "player"@), child_lookup(t.childs, "score"@)) {
        (Some(p), Some(s)) => match (spec_player(p), spec_score(s)) {
            (Some(p), Some(s)) => Some((p, s)),
            _ => None,
        },
        _ => None,
    }
}

/// Reads a score entry.
pub open spec fn score_entry_reader() -> spec_fn(Tree) -> Option<((Option<Seq<char>>, Team), (ScoreCause, Seq<char>, Seq<usize>))> {
    |t: Tree| spec_score_entry(t)
}

/// The score entries of a `result` node, in order: the `entry` children of its `scores`
/// child.
pub open spec fn spec_score_entries(t: Tree) -> Option<Seq<((Option<Seq<char>>, Team), (ScoreCause, Seq<char>, Seq<usize>))>> {
    match child_lookup(t.childs, "scores"@) {
        Some(s) => decode_all(children_named(s, "entry"@), score_entry_reader()),
        None => None,
    }
}

/// The index of the first entry for player `p` in `a` at or after `i`, or the length
/// where there is none.
pub open spec fn player_index_from(a: Seq<((Option<Seq<char>>, Team), (ScoreCause, Seq<char>, Seq<usize>))>, p: (Option<Seq<char>>, Team), i: int) -> int
    decreases a.len() - i,
{
    if i < 0 || i >= a.len() {
        a.len() as int
    } else if a[i].0 == p {
        i
    } else {
        player_index_from(a, p, i + 1)
    }
}

/// `a` with the entry `e`: an entry for the same player is replaced, else `e` is added.
pub open spec fn score_insert(a: Seq<((Option<Seq<char>>, Team), (ScoreCause, Seq<char>, Seq<usize>))>, e: ((Option<Seq<char>>, Team), (ScoreCause, Seq<char>, Seq<usize>))) -> Seq<((Option<Seq<char>>, Team), (ScoreCause, Seq<char>, Seq<usize>))> {
    let i = player_index_from(a, e.0, 0);
    if 0 <= i < a.len() {
        a.update(i, e)
    } else {
        a.push(e)
    }
}

/// The entries `es` inserted in turn into an empty list: one entry per player, the last
/// one read for it.
pub open spec fn score_insert_all(es: Seq<((Option<Seq<char>>, Team), (ScoreCause, Seq<char>, Seq<usize>))>) -> Seq<((Option<Seq<char>>, Team), (ScoreCause, Seq<char>, Seq<usize>))>
    decreases es.len(),
{
    if es.len() == 0 {
        Seq::empty()
    } else {
        score_insert(score_insert_all(es.drop_last()), es.last())
    }
}

/// The scores of a `result` node: one per player, the last entry read for it.
pub open spec fn spec_scores(t: Tree) -> Option<Seq<((Option<Seq<char>>, Team), (ScoreCause, Seq<char>, Seq<usize>))>> {
    match spec_score_entries(t) {
        Some(es) => Some(score_insert_all(es)),
        None => None,
    }
}

impl Player {
    /// Whether two players are the same: the same name, or both without one, and the same
    /// team.
    pub fn same_as(&self, other: &Player) -> (r: bool)
        ensures
            r == (self@ == other@),
    {
        let names = match &self.name {
            Some(a) => match &other.name {
                Some(b) => *a == *b,
                None => false,
            },
            None => other.name.is_none(),
        };
        assert(names == (opt_view(self.name) == opt_view(other.name)));
        let teams = self.team == other.team;
        names && teams
    }
}

fn insert_score(a: &mut Vec<(Player, Score)>, p: Player, q: Score)
    ensures
        score_views(final(a)@) == score_insert(score_views(old(a)@), (p@, q@)),
{
    let ghost v = score_views(a@);
    let mut i: usize = 0;
    while i < a.len()
        invariant
            i <= a@.len(),
            a@ == old(a)@,
            v == score_views(a@),
            player_index_from(v, p@, 0) == player_index_from(v, p@, i as int),
        decreases a@.len() - i,
    {
        if a[i].0.same_as(&p) {
            let ghost e = (p@, q@);
            a.set(i, (p, q));
            assert(score_views(a@) =~= v.update(i as int, e));
            return;
        }
        i = i + 1;
    }
    let ghost e = (p@, q@);
    a.push((p, q));
    assert(score_views(a@) =~= v.push(e));
}

fn unique_by_player(es: Vec<(Player, Score)>) -> (r: Vec<(Player, Score)>)
    ensures
        score_views(r@) == score_insert_all(score_views(es@)),
{
    let ghost all = score_views(es@);
    let mut rest = es;
    let mut r: Vec<(Player, Score)> = Vec::new();
    while rest.len() > 0
        invariant
            rest@.len() <= all.len(),
            score_views(rest@) == all.skip(all.len() - rest@.len()),
            score_views(r@) == score_insert_all(all.take(all.len() - rest@.len())),
        decreases rest@.len(),
    {
        let ghost k = all.len() - rest@.len();
        let ghost before = rest@;
        let (p, q) = rest.remove(0);
        proof {
            assert(before[0] == (p, q));
            assert(score_views(before)[0] == all[k]);
            assert(score_views(rest@) =~= score_views(before).drop_first());
            assert(all.skip(k).drop_first() =~= all.skip(k + 1));
            assert(all.take(k + 1).drop_last() =~= all.take(k));
        }
        insert_score(&mut r, p, q);
    }
    assert(all.take(all.len() as int) =~= all);
    r
}

fn read_scores(elem: &Element) -> (r: SCResult<Vec<(Player, Score)>>)
    ensures
        match spec_score_entries(elem@) {
            Some(v) => r is Ok && score_views(r->Ok_0@) == v,
            None => r is Err,
        },
{
    let sc = elem.child_by_name("scores")?;
    let es = sc.childs_by_name("entry");
    let ghost ts = es@.map_values(|e: &Element| e@);
    let ghost f = score_entry_reader();
    let mut out: Vec<(Player, Score)> = Vec::new();
    let mut i: usize = 0;
    while i < es.len()
        invariant
            i <= es@.len(),
            ts == es@.map_values(|e: &Element| e@),
            f == score_entry_reader(),
            ts == children_named(sc@, "entry"@),
            child_lookup(elem@.childs, "scores"@) == Some(sc@),
            decode_all(ts.take(i as int), f) == Some(score_views(out@)),
        decreases es@.len() - i,
    {
        let e = es[i];
        proof {
            lemma_decode_all_step(ts, f, i as int);
            assert(ts[i as int] == e@);
        }
        let p = match e.child_by_name("player") {
            Ok(p) => Player::try_from(p),
            Err(x) => Err(x),
        };
        let q = match e.child_by_name("score") {
            Ok(q) => Score::try_from(q),
            Err(x) => Err(x),
        };
        match (p, q) {
            (Ok(p), Ok(q)) => {
                let ghost before = out@;
                let ghost pair = (p@, q@);
                out.push((p, q));
                assert(score_views(out@) =~= score_views(before).push(pair));
            },
            (Err(x), _) | (_, Err(x)) => {
                proof {
                    lemma_decode_all_none(ts, f, i + 1);
                }
                return Err(x);
            },
        }
        i = i + 1;
    }
    assert(ts.take(es@.len() as int) =~= ts);
    Ok(out)
}

/// The outcome of a game: the score definition, each player's score and the winner.
#[derive(Debug, Clone, PartialEq, Eq)]
pub struct GameResult {
    definition: ScoreDefinition,
    scores: Vec<(Player, Score)>,
    winner: Option<Player>,
}

/// The view of an optional player.
pub open spec fn opt_player(p: Option<Player>) -> Option<(Option<Seq<char>>, Team)> {
    match p {
        Some(p) => Some(p@),
        None => None,
    }
}

/// The winner of a `result` node: its `winner` child, where that holds a player.
pub open spec fn spec_winner(t: Tree) -> Option<(Option<Seq<char>>, Team)> {
    match child_lookup(t.childs, "winner"@) {
        Some(w) => spec_player(w),
        None => None,
    }
}

/// The definition of a `result` node: its `definition` child.
pub open spec fn spec_result_definition(t: Tree) -> Option<Seq<(Seq<char>, ScoreAggregation, bool)>> {
    match child_lookup(t.childs, "definition"@) {
        Some(d) => spec_definition(d),
        None => None,
    }
}

/// Whether a `result` node holds a game result: a definition and scores.
pub open spec fn spec_result_ok(t: Tree) -> bool {
    spec_result_definition(t) is Some && spec_scores(t) is Some
}

/// Whether `g` is the game result that the node `t` holds.
pub open spec fn result_matches(t: Tree, g: GameResult) -> bool {
    &&& Some(g.definition_view()) == spec_result_definition(t)
    &&& Some(g.score_list()) == spec_scores(t)
    &&& g.winner_view() == spec_winner(t)
}

impl GameResult {
    pub fn new(definition: ScoreDefinition, scores: Vec<(Player, Score)>, winner: Option<Player>) -> (r: Self)
        ensures
            r.definition_view() == definition@,
            r.score_list() == score_views(scores@),
            r.winner_view() == opt_player(winner),
    {
        Self { definition, scores, winner }
    }

    /// The view of the definition.
    pub closed spec fn definition_view(&self) -> Seq<(Seq<char>, ScoreAggregation, bool)> {
        self.definition@
    }

    /// The view of the scores, in order.
    pub closed spec fn score_list(&self) -> Seq<((Option<Seq<char>>, Team), (ScoreCause, Seq<char>, Seq<usize>))> {
        score_views(self.scores@)
    }

    /// The view of the winner.
    pub closed spec fn winner_view(&self) -> Option<(Option<Seq<char>>, Team)> {
        opt_player(self.winner)
    }

    pub fn definition(&self) -> (r: &ScoreDefinition)
        ensures
            r@ == self.definition_view(),
    {
        &self.definition
    }

    pub fn scores(&self) -> (r: &Vec<(Player, Score)>)
        ensures
            score_views(r@) == self.score_list(),
    {
        &self.scores
    }

    pub fn winner(&self) -> (r: &Option<Player>)
        ensures
            opt_player(*r) == self.winner_view(),
    {
        &self.winner
    }

    /// Reads a game result from a `result` node: `definition` and `scores` are required,
    /// `winner` is taken where it can be read.
    pub fn try_from(elem: &Element) -> (r: SCResult<Self>)
        ensures
            r is Ok <==> spec_result_ok(elem@),
            r is Ok ==> result_matches(elem@, r->Ok_0),
    {
        let definition = match elem.child_by_name("definition") {
            Ok(d) => ScoreDefinition::try_from(d),
            Err(x) => Err(x),
        };
        let scores = match read_scores(elem) {
            Ok(es) => Ok(unique_by_player(es)),
            Err(x) => Err(x),
        };
        let (definition, scores) = match (definition, scores) {
            (Ok(d), Ok(s)) => (d, s),
            (Err(x), _) | (_, Err(x)) => {
                return Err(x);
            },
        };
        let winner = match elem.child_by_name("winner") {
            Ok(w) => match Player::try_from(w) {
                Ok(p) => Some(p),
                Err(_) => None,
            },
            Err(_) => None,
        };
        Ok(GameResult { definition, scores, winner })
    }
}

/// The data of a room message from the server.
#[derive(Debug, Clone)]
pub enum EventPayload {
    /// A welcome message by the server.
    Welcome(Team),
    /// A game state.
    Memento(State),
    /// A request by the server to perform a move.
    MoveRequest,
    /// A game result.
    GameResult(GameResult),
}

/// A one-line description of a payload, for the log.
pub open spec fn spec_description(p: EventPayload) -> Seq<char> {
    match p {
        EventPayload::Welcome(t) => "Welcome (team: "@ + t.spec_name() + ")"@,
        EventPayload::Memento(s) => "Memento (turn: "@ + decimal_text(s.turn as nat) + ")"@,
        EventPayload::MoveRequest => "MoveRequest"@,
        EventPayload::GameResult(g) => "GameResult (winner: "@ + match g.winner_view() {
            Some(w) => w.1.spec_name(),
            None => "none"@,
        } + ")"@,
    }
}

impl EventPayload {
    /// A one-line description of the payload, for the log.
    pub fn to_string(&self) -> (r: String)
        ensures
            r@ == spec_description(*self),
    {
        match self {
            EventPayload::Welcome(t) => {
                let mut r = "Welcome (team: ".to_owned();
                r.append(t.as_str());
                r.append(")");
                r
            },
            EventPayload::Memento(s) => {
                let mut r = "Memento (turn: ".to_owned();
                let n = usize_text(s.turn);
                r.append(n.as_str());
                r.append(")");
                r
            },
            EventPayload::MoveRequest => "MoveRequest".to_owned(),
            EventPayload::GameResult(g) => {
                let mut r = "GameResult (winner: ".to_owned();
                match g.winner() {
                    Some(w) => r.append(w.team().as_str()),
                    None => r.append("none"),
                }
                r.append(")");
                r
            },
        }
    }
}

/// What a payload node stands for, by its discriminator `class`.
pub enum PayloadKind {
    Welcome(Team),
    Memento,
    MoveRequest,
    Result,
    ServerError(Seq<char>),
    Unknown,
    Malformed,
}

/// What the payload node `t` stands for: `welcomeMessage`, `memento`, `moveRequest` and
/// `result` select a payload, `error` a message of the server, any other value is
/// unknown; a required field that is absent or unreadable makes it malformed.
pub open spec fn spec_payload_kind(t: Tree) -> PayloadKind {
    match attr_lookup(t.attributes, "class"@) {
        None => PayloadKind::Malformed,
        Some(c) => if c == "welcomeMessage"@ {
            match attr_parsed(t, "color"@, |s: Seq<char>| spec_team(s)) {
                Some(team) => PayloadKind::Welcome(team),
                None => PayloadKind::Malformed,
            }
        } else if c == "memento"@ {
            match child_lookup(t.childs, "state"@) {
                Some(s) => if spec_state_ok(s) {
                    PayloadKind::Memento
                } else {
                    PayloadKind::Malformed
                },
                None => PayloadKind::Malformed,
            }
        } else if c == "moveRequest"@ {
            PayloadKind::MoveRequest
        } else if c == "result"@ {
            if spec_result_ok(t) {
                PayloadKind::Result
            } else {
                PayloadKind::Malformed
            }
        } else if c == "error"@ {
            match attr_lookup(t.attributes, "message"@) {
                Some(m) => PayloadKind::ServerError(m),
                None => PayloadKind::Malformed,
            }
        } else {
            PayloadKind::Unknown
        },
    }
}

/// Whether `r` is what reading the payload node `t` gives.
pub open spec fn payload_read(t: Tree, r: SCResult<EventPayload>) -> bool {
    match spec_payload_kind(t) {
        PayloadKind::Welcome(team) => r is Ok && r->Ok_0 == EventPayload::Welcome(team),
        PayloadKind::Memento => r is Ok && r->Ok_0 is Memento && state_matches(
            child_lookup(t.childs, "state"@)->Some_0,
            r->Ok_0->Memento_0,
        ),
        PayloadKind::MoveRequest => r is Ok && r->Ok_0 is MoveRequest,
        PayloadKind::Result => r is Ok && r->Ok_0 is GameResult && result_matches(
            t,
            r->Ok_0->GameResult_0,
        ),
        PayloadKind::ServerError(m) => r is Err && r->Err_0 is ServerError
            && r->Err_0->ServerError_0@ == m,
        PayloadKind::Unknown => r is Err && r->Err_0 is UnknownElement
            && r->Err_0->UnknownElement_0@ == t,
        PayloadKind::Malformed => r is Err && !(r->Err_0 is UnknownElement),
    }
}

impl EventPayload {
    /// Reads a payload from a `data` node, by its discriminator.
    pub fn try_from(elem: &Element) -> (r: SCResult<EventPayload>)
        ensures
            payload_read(elem@, r),
    {
        let c = match elem.attribute("class") {
            Ok(c) => c,
            Err(_) => {
                return Err(SCError::MissingAttribute("class".to_owned()));
            },
        };
        if str_is(c, "welcomeMessage") {
            match team_attribute(elem, "color") {
                Ok(t) => Ok(EventPayload::Welcome(t)),
                Err(_) => Err(SCError::InvalidValue("color".to_owned())),
            }
        } else if str_is(c, "memento") {
            match elem.child_by_name("state") {
                Ok(s) => match State::try_from(s) {
                    Ok(s) => Ok(EventPayload::Memento(s)),
                    Err(_) => Err(SCError::InvalidValue("state".to_owned())),
                },
                Err(_) => Err(SCError::MissingChild("state".to_owned())),
            }
        } else if str_is(c, "moveRequest") {
            Ok(EventPayload::MoveRequest)
        } else if str_is(c, "result") {
            match GameResult::try_from(elem) {
                Ok(g) => Ok(EventPayload::GameResult(g)),
                Err(_) => Err(SCError::InvalidValue("result".to_owned())),
            }
        } else if str_is(c, "error") {
            match elem.attribute("message") {
                Ok(m) => Err(SCError::ServerError(m.to_owned())),
                Err(_) => Err(SCError::MissingAttribute("message".to_owned())),
            }
        } else {
            Err(SCError::UnknownElement(elem.duplicate()))
        }
    }
}

/// A message from the server.
#[derive(Debug, Clone)]
pub enum Event {
    /// The client joined a room.
    Joined { room_id: String },
    /// The client left a room.
    Left { room_id: String },
    /// A message within a room.
    Room { room_id: String, payload: EventPayload },
}

/// What an event node stands for, by its tag name.
pub enum EventKind {
    Joined(Seq<char>),
    Left(Seq<char>),
    Room(Seq<char>, PayloadKind),
    Unknown,
    Malformed,
}

/// What the event node `t` stands for: `joined`, `left` and `room` with their attribute
/// `roomId`, a `room` with the payload of its `data` child; any other tag is unknown.
pub open spec fn spec_event_kind(t: Tree) -> EventKind {
    if t.name == "joined"@ {
        match attr_lookup(t.attributes, "roomId"@) {
            Some(id) => EventKind::Joined(id),
            None => EventKind::Malformed,
        }
    } else if t.name == "left"@ {
        match attr_lookup(t.attributes, "roomId"@) {
            Some(id) => EventKind::Left(id),
            None => EventKind::Malformed,
        }
    } else if t.name == "room"@ {
        match (attr_lookup(t.attributes, "roomId"@), child_lookup(t.childs, "data"@)) {
            (Some(id), Some(d)) => EventKind::Room(id, spec_payload_kind(d)),
            _ => EventKind::Malformed,
        }
    } else {
        EventKind::Unknown
    }
}

impl Event {
    /// Reads an event from a node, by its tag name.
    pub fn try_from(elem: &Element) -> (r: SCResult<Event>)
        ensures
            match spec_event_kind(elem@) {
                EventKind::Joined(id) => r is Ok && r->Ok_0 is Joined
                    && r->Ok_0->Joined_room_id@ == id,
                EventKind::Left(id) => r is Ok && r->Ok_0 is Left && r->Ok_0->Left_room_id@ == id,
                EventKind::Room(id, _) => {
                    let d = child_lookup(elem@.childs, "data"@)->Some_0;
                    match r {
                        Ok(Event::Room { room_id, payload }) => room_id@ == id && payload_read(
                            d,
                            Ok(payload),
                        ),
                        Ok(_) => false,
                        Err(e) => payload_read(d, Err(e)),
                    }
                },
                EventKind::Unknown => r is Err && r->Err_0 is UnknownElement
                    && r->Err_0->UnknownElement_0@ == elem@,
                EventKind::Malformed => r is Err && !(r->Err_0 is UnknownElement),
            },
    {
        let n = elem.name();
        if str_is(n, "joined") || str_is(n, "left") || str_is(n, "room") {
            let id = match elem.attribute("roomId") {
                Ok(id) => id.to_owned(),
                Err(_) => {
                    return Err(SCError::MissingAttribute("roomId".to_owned()));
                },
            };
            if str_is(n, "joined") {
                Ok(Event::Joined { room_id: id })
            } else if str_is(n, "left") {
                Ok(Event::Left { room_id: id })
            } else {
                let d = match elem.child_by_name("data") {
                    Ok(d) => d,
                    Err(_) => {
                        return Err(SCError::MissingChild("data".to_owned()));
                    },
                };
                match EventPayload::try_from(d) {
                    Ok(payload) => Ok(Event::Room { room_id: id, payload }),
                    Err(e) => Err(e),
                }
            }
        } else {
            Err(SCError::UnknownElement(elem.duplicate()))
        }
    }
}

/// The data of a room message to the server.
#[derive(Debug, Clone)]
pub enum RequestPayload {
    /// A move.
    Move(Move),
}

/// A message to the server.
#[derive(Debug, Clone)]
pub enum Request {
    /// Join any game.
    Join,
    /// Join the game that a reservation code names.
    JoinPrepared { reservation_code: String },
    /// A message within a room.
    Room { room_id: String, payload: RequestPayload },
}

impl Request {
    /// The node that sends the request: `<join/>`, `<joinPrepared reservationCode=".."/>`
    /// or `<room roomId="..">` around the move.
    pub fn to_element(&self) -> (r: Element)
        ensures
            match self {
                Request::Join => r@.name == "join"@ && r@.attributes.len() == 0
                    && r@.childs.len() == 0 && r@.content.len() == 0,
                Request::JoinPrepared { reservation_code } => r@.name == "joinPrepared"@
                    && r@.attributes == seq![("reservationCode"@, reservation_code@)]
                    && r@.childs.len() == 0 && r@.content.len() == 0,
                Request::Room { room_id, payload: RequestPayload::Move(m) } => r@.name == "room"@
                    && r@.attributes == seq![("roomId"@, room_id@)] && r@.content.len() == 0
                    && r@.childs.len() == 1 && r@.childs[0] == move_tree(*m),
            },
    {
        match self {
            Request::Join => Element::new("join").build(),
            Request::JoinPrepared { reservation_code } => {
                let b = Element::new("joinPrepared").attribute("reservationCode", reservation_code.as_str());
                assert(b@.attributes =~= seq![("reservationCode"@, reservation_code@)]);
                b.build()
            },
            Request::Room { room_id, payload: RequestPayload::Move(m) } => {
                let b = Element::new("room").attribute("roomId", room_id.as_str());
                assert(b@.attributes =~= seq![("roomId"@, room_id@)]);
                let c = m.to_element();
                let r = b.child(c).build();
                assert(r@.childs =~= seq![c@]);
                r
            },
        }
    }
}

} // verus!
