//! The desktop client's decisions: which champion the player picked, how
//! the watch over the League Client moves from state to state, and what
//! the windows show.
use vstd::prelude::*;

use crate::cmd::CommandLineOutput;
use crate::error::owned;
use crate::text::{chars_eq, chars_of, extend_chars, push_decimal, signed_decimal, string_of, decimal, push_signed_decimal};
use crate::models::{json_parse_error, parse_json};
use crate::web::ChampInfo;

verus! {

/// A member of the player's team in champion select.
#[derive(Debug, Clone)]
pub struct TeamMember {
    pub cell_id: Option<i64>,
    pub champion_id: Option<i64>,
}

/// An action of champion select (a pick, a ban, ...).
#[derive(Debug, Clone)]
pub struct SessionAction {
    pub actor_cell_id: Option<i64>,
    pub action_type: Option<String>,
    pub champion_id: Option<i64>,
}

/// The parts of a champion-select session that tell the player's
/// champion; a field is `None` where the session lacks it or it has
/// another JSON type, and a row of `actions` is `None` where it is not an
/// array.
#[derive(Debug, Clone)]
pub struct ChampSelectSession {
    pub local_player_cell_id: Option<i64>,
    pub my_team: Option<Vec<TeamMember>>,
    pub actions: Option<Vec<Option<Vec<SessionAction>>>>,
}

/// The champion that a team member with the player's cell holds, if any.
pub open spec fn member_pick(m: TeamMember, cell: i64) -> Option<i64> {
    if m.cell_id == Some(cell) && (m.champion_id matches Some(c) && c > 0) {
        m.champion_id
    } else {
        None
    }
}

/// The first positive champion of a team member in the player's cell, or 0.
pub open spec fn team_pick(team: Seq<TeamMember>, cell: i64) -> i64
    decreases team.len(),
{
    if team.len() == 0 {
        0
    } else {
        match member_pick(team[0], cell) {
            Some(c) => c,
            None => team_pick(team.drop_first(), cell),
        }
    }
}

/// Whether an action is a ban.
pub open spec fn is_ban(a: SessionAction) -> bool {
    a.action_type matches Some(t) && t@ == "ban"@
}

/// The champion of a non-ban action by the player's cell, if positive.
pub open spec fn action_pick(a: SessionAction, cell: i64) -> Option<i64> {
    if a.actor_cell_id == Some(cell) && !is_ban(a) && (a.champion_id matches Some(c) && c > 0) {
        a.champion_id
    } else {
        None
    }
}

/// The first such champion in a row of actions, or 0.
pub open spec fn row_pick(row: Seq<SessionAction>, cell: i64) -> i64
    decreases row.len(),
{
    if row.len() == 0 {
        0
    } else {
        match action_pick(row[0], cell) {
            Some(c) => c,
            None => row_pick(row.drop_first(), cell),
        }
    }
}

/// The first such champion in the rows of actions, in order, or 0.
pub open spec fn actions_pick(rows: Seq<Option<Vec<SessionAction>>>, cell: i64) -> i64
    decreases rows.len(),
{
    if rows.len() == 0 {
        0
    } else {
        let here = match rows[0] {
            Some(row) => row_pick(row@, cell),
            None => 0,
        };
        if here > 0 {
            here
        } else {
            actions_pick(rows.drop_first(), cell)
        }
    }
}

/// The champion that the local player holds in a session: the team's
/// entry for the player's cell first, then the player's non-ban actions;
/// 0 where neither names a positive champion.
pub open spec fn session_champion(session: Option<ChampSelectSession>) -> i64 {
    match session {
        None => 0,
        Some(s) => match s.local_player_cell_id {
            None => 0,
            Some(cell) => {
                let from_team = match s.my_team {
                    Some(team) => team_pick(team@, cell),
                    None => 0,
                };
                if from_team > 0 {
                    from_team
                } else {
                    match s.actions {
                        Some(rows) => actions_pick(rows@, cell),
                        None => 0,
                    }
                }
            },
        },
    }
}

proof fn lemma_team_pick_nonneg(team: Seq<TeamMember>, cell: i64)
    ensures
        team_pick(team, cell) >= 0,
    decreases team.len(),
{
    if team.len() > 0 {
        lemma_team_pick_nonneg(team.drop_first(), cell);
    }
}

proof fn lemma_row_pick_nonneg(row: Seq<SessionAction>, cell: i64)
    ensures
        row_pick(row, cell) >= 0,
    decreases row.len(),
{
    if row.len() > 0 {
        lemma_row_pick_nonneg(row.drop_first(), cell);
    }
}

proof fn lemma_actions_pick_nonneg(rows: Seq<Option<Vec<SessionAction>>>, cell: i64)
    ensures
        actions_pick(rows, cell) >= 0,
    decreases rows.len(),
{
    if rows.len() > 0 {
        lemma_actions_pick_nonneg(rows.drop_first(), cell);
    }
}

/// The champion found in a session is never negative: 0 stands for "none".
pub proof fn lemma_session_champion_nonneg(session: Option<ChampSelectSession>)
    ensures
        session_champion(session) >= 0,
{
    if let Some(s) = session {
        if let Some(cell) = s.local_player_cell_id {
            if let Some(team) = s.my_team {
                lemma_team_pick_nonneg(team@, cell);
            }
            if let Some(rows) = s.actions {
                lemma_actions_pick_nonneg(rows@, cell);
            }
        }
    }
}

proof fn lemma_row_pick_first(row: Seq<SessionAction>, cell: i64, k: int)
    requires
        0 <= k < row.len(),
        row[k].actor_cell_id == Some(cell),
        !(row[k].action_type matches Some(t) && t@ == "ban"@),
        row[k].champion_id matches Some(c) && c > 0,
        forall|j: int|
            0 <= j < k ==> !(#[trigger] row[j].actor_cell_id == Some(cell) && !(row[j].action_type matches Some(
                t,
            ) && t@ == "ban"@) && (row[j].champion_id matches Some(c) && c > 0)),
    ensures
        row_pick(row, cell) == row[k].champion_id->Some_0,
    decreases k,
{
    if k > 0 {
        assert(!(row[0].actor_cell_id == Some(cell) && !(row[0].action_type matches Some(t) && t@ == "ban"@)
            && (row[0].champion_id matches Some(c) && c > 0)));
        lemma_row_pick_first(row.drop_first(), cell, k - 1);
    }
}

proof fn lemma_row_pick_none(row: Seq<SessionAction>, cell: i64)
    requires
        forall|j: int|
            0 <= j < row.len() ==> !(#[trigger] row[j].actor_cell_id == Some(cell) && !(
            row[j].action_type matches Some(t) && t@ == "ban"@) && (row[j].champion_id matches Some(c)
                && c > 0)),
    ensures
        row_pick(row, cell) == 0,
    decreases row.len(),
{
    if row.len() > 0 {
        assert(!(row[0].actor_cell_id == Some(cell) && !(row[0].action_type matches Some(t) && t@ == "ban"@)
            && (row[0].champion_id matches Some(c) && c > 0)));
        lemma_row_pick_none(row.drop_first(), cell);
    }
}

/// Whether an action is the player's (`cell`) non-ban action on a positive
/// champion.
pub open spec fn player_pick_action(a: SessionAction, cell: i64) -> bool {
    &&& a.actor_cell_id == Some(cell)
    &&& !(a.action_type matches Some(t) && t@ == "ban"@)
    &&& a.champion_id matches Some(c) && c > 0
}

/// The player's champion in the actions is that of the first of the
/// player's non-ban actions on a positive champion, over all rows in order
/// and then within the row: where such an action stands at row `r`,
/// position `k`, and none comes before it, that action's champion is the
/// answer, whichever row it stands in.
pub proof fn lemma_actions_pick_first(rows: Seq<Option<Vec<SessionAction>>>, cell: i64, r: int, k: int)
    requires
        0 <= r < rows.len(),
        rows[r] is Some,
        0 <= k < rows[r]->Some_0@.len(),
        player_pick_action(rows[r]->Some_0@[k], cell),
        forall|j: int| 0 <= j < k ==> !player_pick_action(#[trigger] rows[r]->Some_0@[j], cell),
        forall|q: int, j: int|
            0 <= q < r && rows[q] is Some && 0 <= j < rows[q]->Some_0@.len() ==> !player_pick_action(
                #[trigger] rows[q]->Some_0@[j],
                cell,
            ),
    ensures
        actions_pick(rows, cell) == rows[r]->Some_0@[k].champion_id->Some_0,
    decreases r,
{
    if r == 0 {
        let row = rows[0]->Some_0@;
        assert forall|j: int| 0 <= j < k implies !(#[trigger] row[j].actor_cell_id == Some(cell) && !(
        row[j].action_type matches Some(t) && t@ == "ban"@) && (row[j].champion_id matches Some(c) && c
            > 0)) by {
            assert(!player_pick_action(row[j], cell));
        }
        lemma_row_pick_first(row, cell, k);
    } else {
        if let Some(row0) = rows[0] {
            let row = row0@;
            assert forall|j: int| 0 <= j < row.len() implies !(#[trigger] row[j].actor_cell_id == Some(
                cell,
            ) && !(row[j].action_type matches Some(t) && t@ == "ban"@) && (row[j].champion_id matches Some(
                c,
            ) && c > 0)) by {
                assert(!player_pick_action(rows[0]->Some_0@[j], cell));
            }
            lemma_row_pick_none(row, cell);
        }
        let rest = rows.drop_first();
        assert forall|q: int, j: int|
            0 <= q < r - 1 && rest[q] is Some && 0 <= j < rest[q]->Some_0@.len() implies !player_pick_action(
            #[trigger] rest[q]->Some_0@[j],
            cell,
        ) by {
            assert(rest[q] == rows[q + 1]);
            assert(!player_pick_action(rows[q + 1]->Some_0@[j], cell));
        }
        assert(rest[r - 1] == rows[r]);
        lemma_actions_pick_first(rest, cell, r - 1, k);
    }
}

/// Where no row holds a non-ban action of the player on a positive
/// champion, the actions name no champion (0).
pub proof fn lemma_actions_pick_none(rows: Seq<Option<Vec<SessionAction>>>, cell: i64)
    requires
        forall|q: int, j: int|
            0 <= q < rows.len() && rows[q] is Some && 0 <= j < rows[q]->Some_0@.len() ==> !player_pick_action(
                #[trigger] rows[q]->Some_0@[j],
                cell,
            ),
    ensures
        actions_pick(rows, cell) == 0,
    decreases rows.len(),
{
    if rows.len() > 0 {
        if let Some(row0) = rows[0] {
            let row = row0@;
            assert forall|j: int| 0 <= j < row.len() implies !(#[trigger] row[j].actor_cell_id == Some(
                cell,
            ) && !(row[j].action_type matches Some(t) && t@ == "ban"@) && (row[j].champion_id matches Some(
                c,
            ) && c > 0)) by {
                assert(!player_pick_action(rows[0]->Some_0@[j], cell));
            }
            lemma_row_pick_none(row, cell);
        }
        let rest = rows.drop_first();
        assert forall|q: int, j: int|
            0 <= q < rest.len() && rest[q] is Some && 0 <= j < rest[q]->Some_0@.len() implies !player_pick_action(
            #[trigger] rest[q]->Some_0@[j],
            cell,
        ) by {
            assert(rest[q] == rows[q + 1]);
            assert(!player_pick_action(rows[q + 1]->Some_0@[j], cell));
        }
        lemma_actions_pick_none(rest, cell);
    }
}

proof fn lemma_team_pick_none(team: Seq<TeamMember>, cell: i64)
    requires
        forall|i: int|
            0 <= i < team.len() ==> !(#[trigger] team[i].cell_id == Some(cell) && (
            team[i].champion_id matches Some(c) && c > 0)),
    ensures
        team_pick(team, cell) == 0,
    decreases team.len(),
{
    if team.len() > 0 {
        assert(!(team[0].cell_id == Some(cell) && (team[0].champion_id matches Some(c) && c > 0)));
        lemma_team_pick_none(team.drop_first(), cell);
    }
}

/// Where the team gives the player (`cell`) no positive champion, the
/// session's champion is that of the player's first non-ban action on a
/// positive champion, over all rows of actions in order.
pub proof fn lemma_session_champion_from_actions(s: ChampSelectSession, cell: i64, r: int, k: int)
    requires
        s.local_player_cell_id == Some(cell),
        s.my_team is Some ==> forall|i: int|
            0 <= i < s.my_team->Some_0@.len() ==> !(#[trigger] s.my_team->Some_0@[i].cell_id == Some(cell)
                && (s.my_team->Some_0@[i].champion_id matches Some(c) && c > 0)),
        s.actions is Some,
        0 <= r < s.actions->Some_0@.len(),
        s.actions->Some_0@[r] is Some,
        0 <= k < s.actions->Some_0@[r]->Some_0@.len(),
        player_pick_action(s.actions->Some_0@[r]->Some_0@[k], cell),
        forall|j: int|
            0 <= j < k ==> !player_pick_action(#[trigger] s.actions->Some_0@[r]->Some_0@[j], cell),
        forall|q: int, j: int|
            0 <= q < r && s.actions->Some_0@[q] is Some && 0 <= j < s.actions->Some_0@[q]->Some_0@.len()
                ==> !player_pick_action(#[trigger] s.actions->Some_0@[q]->Some_0@[j], cell),
    ensures
        session_champion(Some(s)) == s.actions->Some_0@[r]->Some_0@[k].champion_id->Some_0,
{
    if let Some(team) = s.my_team {
        lemma_team_pick_none(team@, cell);
    }
    lemma_actions_pick_first(s.actions->Some_0@, cell, r, k);
}

fn is_ban_action(a: &SessionAction) -> (r: bool)
    ensures
        r == is_ban(*a),
{
    match &a.action_type {
        Some(t) => chars_eq(&chars_of(t.as_str()), &chars_of("ban")),
        None => false,
    }
}

fn team_pick_exec(team: &Vec<TeamMember>, cell: i64) -> (r: i64)
    ensures
        r == team_pick(team@, cell),
{
    let mut i: usize = 0;
    assert(team@.skip(0) == team@);
    while i < team.len()
        invariant
            i <= team.len(),
            team_pick(team@, cell) == team_pick(team@.skip(i as int), cell),
        decreases team.len() - i,
    {
        let ghost rest = team@.skip(i as int);
        assert(rest[0] == team@[i as int]);
        assert(rest.drop_first() == team@.skip(i + 1));
        let m = &team[i];
        if m.cell_id == Some(cell) {
            if let Some(c) = m.champion_id {
                if c > 0 {
                    return c;
                }
            }
        }
        i = i + 1;
    }
    0
}

fn row_pick_exec(row: &Vec<SessionAction>, cell: i64) -> (r: i64)
    ensures
        r == row_pick(row@, cell),
{
    let mut i: usize = 0;
    assert(row@.skip(0) == row@);
    while i < row.len()
        invariant
            i <= row.len(),
            row_pick(row@, cell) == row_pick(row@.skip(i as int), cell),
        decreases row.len() - i,
    {
        let ghost rest = row@.skip(i as int);
        assert(rest[0] == row@[i as int]);
        assert(rest.drop_first() == row@.skip(i + 1));
        let a = &row[i];
        if a.actor_cell_id == Some(cell) && !is_ban_action(a) {
            if let Some(c) = a.champion_id {
                if c > 0 {
                    return c;
                }
            }
        }
        i = i + 1;
    }
    0
}

fn actions_pick_exec(rows: &Vec<Option<Vec<SessionAction>>>, cell: i64) -> (r: i64)
    ensures
        r == actions_pick(rows@, cell),
{
    let mut i: usize = 0;
    assert(rows@.skip(0) == rows@);
    while i < rows.len()
        invariant
            i <= rows.len(),
            actions_pick(rows@, cell) == actions_pick(rows@.skip(i as int), cell),
        decreases rows.len() - i,
    {
        let ghost rest = rows@.skip(i as int);
        assert(rest[0] == rows@[i as int]);
        assert(rest.drop_first() == rows@.skip(i + 1));
        if let Some(row) = &rows[i] {
            let c = row_pick_exec(row, cell);
            if c > 0 {
                return c;
            }
        }
        i = i + 1;
    }
    0
}

/// The champion that the local player holds in a champion-select session,
/// or 0.
pub fn extract_champion_id_from_session(session: Option<&ChampSelectSession>) -> (r: i64)
    ensures
        r == session_champion(
            match session {
                Some(s) => Some(*s),
                None => None,
            },
        ),
        r >= 0,
{
    proof {
        lemma_session_champion_nonneg(
            match session {
                Some(s) => Some(*s),
                None => None,
            },
        );
    }
    let s = match session {
        Some(s) => s,
        None => return 0,
    };
    let cell = match s.local_player_cell_id {
        Some(c) => c,
        None => return 0,
    };
    if let Some(team) = &s.my_team {
        let c = team_pick_exec(team, cell);
        if c > 0 {
            return c;
        }
    }
    if let Some(rows) = &s.actions {
        let c = actions_pick_exec(rows, cell);
        if c > 0 {
            return c;
        }
    }
    0
}

// ---------------------------------------------------------------------
// Watching the League Client
// ---------------------------------------------------------------------

/// What the watch remembers: the client it is connected to (empty for
/// none) and the champion shown (0 for none).
#[derive(Debug, Clone)]
pub struct MonitorState {
    pub current_auth_url: String,
    pub current_champion_id: i64,
}

/// A message of the client's event socket, reduced to what the watch
/// reads: its URI, its event type and its data as a session.
#[derive(Debug, Clone)]
pub struct ChampSelectMessage {
    pub uri: Option<String>,
    pub event_type: Option<String>,
    pub session: Option<ChampSelectSession>,
}

/// What happens to the watch.
#[derive(Debug, Clone)]
pub enum MonitorEvent {
    /// A reading of the command line: the output where the reading
    /// succeeded, else `None`. An output whose authentication URL is empty
    /// names no client.
    Poll(Option<CommandLineOutput>),
    /// A text message arrived on the event socket.
    Message(ChampSelectMessage),
    /// The event socket closed or failed while reading.
    SocketClosed,
    /// The event socket could not be opened or subscribed.
    ConnectFailed,
}

/// What the watch asks the application to do.
#[derive(Debug, Clone)]
pub enum MonitorAction {
    /// Sleep, then read the command line again.
    Wait,
    /// The client went away: forget its directory and region, show it as
    /// disconnected, hide the runes window; then sleep.
    ClientLost,
    /// A new client: remember its authentication URL, directory and region,
    /// show the summoner; then open the event socket.
    ClientFound { auth_url: String, lol_dir: String, is_tencent: bool },
    /// The same client: open the event socket.
    Connect,
    /// Champion select ended: hide the runes window.
    HideRunes,
    /// The player picked this champion: show its runes.
    ShowChampion(i64),
    /// Nothing to do: read the next message.
    Ignore,
}

pub open spec fn session_uri() -> Seq<char> {
    "/lol-champ-select/v1/session"@
}

/// The state the watch starts in: no client, no champion.
pub open spec fn initial_state(s: MonitorState) -> bool {
    s.current_auth_url@.len() == 0 && s.current_champion_id == 0
}

/// The state of the watch never holds a negative champion.
pub open spec fn monitor_wf(s: MonitorState) -> bool {
    s.current_champion_id >= 0
}

/// Whether a reading of the command line names a client: it succeeded and
/// found an authentication URL.
pub open spec fn polled_client(o: Option<CommandLineOutput>) -> bool {
    o matches Some(out) && out.auth_url@.len() > 0
}

/// Whether a message is about the champion-select session.
pub open spec fn is_session_message(m: ChampSelectMessage) -> bool {
    m.uri matches Some(u) && u@ == session_uri()
}

/// Whether a message ends the session.
pub open spec fn is_delete_message(m: ChampSelectMessage) -> bool {
    m.event_type matches Some(t) && t@ == "Delete"@
}

/// How the watch moves: the next champion and whether the client is kept,
/// with the action, for each event.
pub open spec fn step_spec(old: MonitorState, new: MonitorState, event: MonitorEvent, action: MonitorAction) -> bool {
    match event {
        MonitorEvent::Poll(o) => if !polled_client(o) {
            if old.current_auth_url@.len() > 0 {
                &&& new.current_auth_url@.len() == 0
                &&& new.current_champion_id == 0
                &&& action is ClientLost
            } else {
                &&& new.current_auth_url@ == old.current_auth_url@
                &&& new.current_champion_id == old.current_champion_id
                &&& action is Wait
            }
        } else if o->Some_0.auth_url@ != old.current_auth_url@ {
            let out = o->Some_0;
            &&& new.current_auth_url@ == out.auth_url@
            &&& new.current_champion_id == 0
            &&& action matches MonitorAction::ClientFound { auth_url, lol_dir, is_tencent }
            &&& auth_url@ == out.auth_url@
            &&& lol_dir@ == out.dir@
            &&& is_tencent == out.is_tencent
        } else {
            &&& new.current_auth_url@ == old.current_auth_url@
            &&& new.current_champion_id == old.current_champion_id
            &&& action is Connect
        },
        MonitorEvent::Message(m) => {
            &&& new.current_auth_url@ == old.current_auth_url@
            &&& if !is_session_message(m) {
                new.current_champion_id == old.current_champion_id && action is Ignore
            } else if is_delete_message(m) {
                if old.current_champion_id != 0 {
                    new.current_champion_id == 0 && action is HideRunes
                } else {
                    new.current_champion_id == old.current_champion_id && action is Ignore
                }
            } else {
                let cid = session_champion(m.session);
                if cid != old.current_champion_id && cid > 0 {
                    new.current_champion_id == cid && action == MonitorAction::ShowChampion(cid)
                } else {
                    new.current_champion_id == old.current_champion_id && action is Ignore
                }
            }
        },
        MonitorEvent::SocketClosed => {
            &&& new.current_auth_url@.len() == 0
            &&& new.current_champion_id == old.current_champion_id
            &&& action is Wait
        },
        MonitorEvent::ConnectFailed => {
            &&& new.current_auth_url@ == old.current_auth_url@
            &&& new.current_champion_id == old.current_champion_id
            &&& action is Wait
        },
    }
}

impl MonitorState {
    /// The watch before it has seen a client.
    pub fn new() -> (s: MonitorState)
        ensures
            initial_state(s),
            monitor_wf(s),
    {
        MonitorState { current_auth_url: String::new(), current_champion_id: 0 }
    }

    /// Moves the watch on an event and tells what to do.
    pub fn step(&mut self, event: MonitorEvent) -> (action: MonitorAction)
        requires
            monitor_wf(*old(self)),
        ensures
            step_spec(*old(self), *final(self), event, action),
            monitor_wf(*final(self)),
    {
        match event {
            MonitorEvent::Poll(o) => {
                let found = match o {
                    Some(out) => if out.auth_url.as_str().unicode_len() > 0 {
                        Some(out)
                    } else {
                        None
                    },
                    None => None,
                };
                let out = match found {
                    Some(out) => out,
                    None => {
                        if self.current_auth_url.as_str().unicode_len() > 0 {
                            self.current_auth_url = String::new();
                            self.current_champion_id = 0;
                            return MonitorAction::ClientLost;
                        }
                        return MonitorAction::Wait;
                    },
                };
                if !chars_eq(
                    &chars_of(out.auth_url.as_str()),
                    &chars_of(self.current_auth_url.as_str()),
                ) {
                    self.current_auth_url = out.auth_url.clone();
                    self.current_champion_id = 0;
                    MonitorAction::ClientFound {
                        auth_url: out.auth_url,
                        lol_dir: out.dir,
                        is_tencent: out.is_tencent,
                    }
                } else {
                    MonitorAction::Connect
                }
            },
            MonitorEvent::Message(m) => {
                let is_session = match &m.uri {
                    Some(u) => chars_eq(
                        &chars_of(u.as_str()),
                        &chars_of("/lol-champ-select/v1/session"),
                    ),
                    None => false,
                };
                if !is_session {
                    return MonitorAction::Ignore;
                }
                let is_delete = match &m.event_type {
                    Some(t) => chars_eq(&chars_of(t.as_str()), &chars_of("Delete")),
                    None => false,
                };
                if is_delete {
                    if self.current_champion_id != 0 {
                        self.current_champion_id = 0;
                        return MonitorAction::HideRunes;
                    }
                    return MonitorAction::Ignore;
                }
                let cid = match &m.session {
                    Some(s) => extract_champion_id_from_session(Some(s)),
                    None => extract_champion_id_from_session(None),
                };
                if cid != self.current_champion_id && cid > 0 {
                    self.current_champion_id = cid;
                    MonitorAction::ShowChampion(cid)
                } else {
                    MonitorAction::Ignore
                }
            },
            MonitorEvent::SocketClosed => {
                self.current_auth_url = String::new();
                MonitorAction::Wait
            },
            MonitorEvent::ConnectFailed => MonitorAction::Wait,
        }
    }
}

/// A lost client resets the watch to its starting state, and a champion is
/// shown only when it is new and positive: what the watch shows follows
/// the player's pick and nothing else.
pub proof fn lemma_step_shows_only_new_picks(
    old: MonitorState,
    new: MonitorState,
    event: MonitorEvent,
    action: MonitorAction,
)
    requires
        monitor_wf(old),
        step_spec(old, new, event, action),
    ensures
        action is ClientLost ==> initial_state(new),
        action matches MonitorAction::ShowChampion(c) ==> (c > 0 && c != old.current_champion_id
            && new.current_champion_id == c && (event matches MonitorEvent::Message(m) && c
            == session_champion(m.session))),
        new.current_champion_id != old.current_champion_id ==> (new.current_champion_id == 0
            || action is ShowChampion),
{
}

/// A new pick is always shown: on a champion-select session message that
/// does not end the session, whose session gives the player a positive
/// champion other than the one shown, the watch shows that champion and
/// remembers it, whatever champion it showed before, and keeps its client.
pub proof fn lemma_step_shows_every_new_pick(
    old: MonitorState,
    new: MonitorState,
    m: ChampSelectMessage,
    action: MonitorAction,
)
    requires
        monitor_wf(old),
        step_spec(old, new, MonitorEvent::Message(m), action),
        m.uri matches Some(u) && u@ == "/lol-champ-select/v1/session"@,
        !(m.event_type matches Some(t) && t@ == "Delete"@),
        session_champion(m.session) > 0,
        session_champion(m.session) != old.current_champion_id,
    ensures
        action == MonitorAction::ShowChampion(session_champion(m.session)),
        new.current_champion_id == session_champion(m.session),
        new.current_auth_url@ == old.current_auth_url@,
{
}

/// The end of champion select hides a shown champion: on a session message
/// of type `Delete`, a watch that showed a champion hides the runes and
/// forgets the champion.
pub proof fn lemma_step_hides_on_session_end(
    old: MonitorState,
    new: MonitorState,
    m: ChampSelectMessage,
    action: MonitorAction,
)
    requires
        monitor_wf(old),
        step_spec(old, new, MonitorEvent::Message(m), action),
        m.uri matches Some(u) && u@ == "/lol-champ-select/v1/session"@,
        m.event_type matches Some(t) && t@ == "Delete"@,
        old.current_champion_id != 0,
    ensures
        action is HideRunes,
        new.current_champion_id == 0,
{
}

// ---------------------------------------------------------------------
// What the windows show
// ---------------------------------------------------------------------

/// `s` without any element equal to `v`.
pub open spec fn remove_value(s: Seq<Seq<char>>, v: Seq<char>) -> Seq<Seq<char>>
    decreases s.len(),
{
    if s.len() == 0 {
        s
    } else if s[0] == v {
        remove_value(s.drop_first(), v)
    } else {
        seq![s[0]] + remove_value(s.drop_first(), v)
    }
}

/// The selected sources after (un)ticking a source: a ticked source is
/// added once, an unticked one removed.
pub open spec fn toggle_spec(selected: Seq<Seq<char>>, value: Seq<char>, checked: bool) -> Seq<Seq<char>> {
    if checked {
        if selected.contains(value) {
            selected
        } else {
            selected.push(value)
        }
    } else {
        remove_value(selected, value)
    }
}

pub open spec fn string_views(v: Seq<String>) -> Seq<Seq<char>> {
    v.map_values(|s: String| s@)
}

fn string_eq(a: &String, b: &String) -> (r: bool)
    ensures
        r == (a@ == b@),
{
    chars_eq(&chars_of(a.as_str()), &chars_of(b.as_str()))
}

/// Ticks or unticks a source in the list of selected sources.
pub fn toggle_source(selected: &mut Vec<String>, value: &String, checked: bool)
    ensures
        string_views(final(selected)@) == toggle_spec(string_views(old(selected)@), value@, checked),
{
    let ghost start = string_views(selected@);
    if checked {
        let mut found = false;
        let mut j: usize = 0;
        while j < selected.len()
            invariant
                j <= selected.len(),
                string_views(selected@) == start,
                found <==> exists|k: int| 0 <= k < j && selected@[k]@ == value@,
            decreases selected.len() - j,
        {
            if string_eq(&selected[j], value) {
                found = true;
            }
            j = j + 1;
        }
        proof {
            if found {
                let k = choose|k: int| 0 <= k < j && selected@[k]@ == value@;
                assert(start[k] == value@);
            } else {
                assert forall|k: int| 0 <= k < start.len() implies start[k] != value@ by {
                    assert(start[k] == selected@[k]@);
                }
            }
        }
        if !found {
            let ghost before = selected@;
            selected.push(value.clone());
            assert(string_views(selected@) =~= string_views(before).push(value@));
        }
    } else {
        let mut kept: Vec<String> = Vec::new();
        let mut i: usize = 0;
        assert(start.skip(0) == start);
        while i < selected.len()
            invariant
                i <= selected.len(),
                string_views(selected@) == start,
                remove_value(start, value@) == string_views(kept@) + remove_value(
                    start.skip(i as int),
                    value@,
                ),
            decreases selected.len() - i,
        {
            let ghost rest = start.skip(i as int);
            assert(rest[0] == selected@[i as int]@);
            assert(rest.drop_first() == start.skip(i + 1));
            if !string_eq(&selected[i], value) {
                let ghost before = kept@;
                kept.push(selected[i].clone());
                assert(string_views(kept@) =~= string_views(before).push(selected@[i as int]@));
                assert(string_views(kept@) + remove_value(start.skip(i + 1), value@)
                    =~= string_views(before) + remove_value(rest, value@));
            }
            i = i + 1;
        }
        assert(start.skip(i as int) =~= Seq::<Seq<char>>::empty());
        assert(string_views(kept@) + Seq::<Seq<char>>::empty() =~= string_views(kept@));
        *selected = kept;
    }
}

proof fn lemma_remove_value(s: Seq<Seq<char>>, v: Seq<char>)
    ensures
        !remove_value(s, v).contains(v),
        forall|x: Seq<char>| x != v && s.contains(x) ==> remove_value(s, v).contains(x),
        forall|x: Seq<char>| #[trigger] remove_value(s, v).contains(x) ==> s.contains(x),
        s.no_duplicates() ==> remove_value(s, v).no_duplicates(),
    decreases s.len(),
{
    if s.len() > 0 {
        let rest = s.drop_first();
        lemma_remove_value(rest, v);
        let r = remove_value(s, v);
        if s[0] != v {
            assert(r == seq![s[0]] + remove_value(rest, v));
        } else {
            assert(r == remove_value(rest, v));
        }
        assert forall|x: Seq<char>| x != v && s.contains(x) implies r.contains(x) by {
            let k = choose|k: int| 0 <= k < s.len() && s[k] == x;
            if k > 0 {
                assert(rest[k - 1] == x);
                assert(rest.contains(x));
                assert(remove_value(rest, v).contains(x));
            }
            if s[0] != v {
                if k == 0 {
                    assert(r[0] == x);
                } else {
                    let j = choose|j: int| 0 <= j < remove_value(rest, v).len() && remove_value(
                        rest,
                        v,
                    )[j] == x;
                    assert(r[j + 1] == x);
                }
            }
        }
        assert forall|x: Seq<char>| #[trigger] r.contains(x) implies s.contains(x) by {
            let k = choose|k: int| 0 <= k < r.len() && r[k] == x;
            if s[0] != v && k == 0 {
                assert(s[0] == x);
            } else {
                let j = if s[0] != v {
                    k - 1
                } else {
                    k
                };
                assert(remove_value(rest, v)[j] == x);
                assert(remove_value(rest, v).contains(x));
                let m = choose|m: int| 0 <= m < rest.len() && rest[m] == x;
                assert(s[m + 1] == x);
            }
        }
        assert(!r.contains(v)) by {
            if r.contains(v) {
                let k = choose|k: int| 0 <= k < r.len() && r[k] == v;
                if s[0] != v && k == 0 {
                } else {
                    let j = if s[0] != v {
                        k - 1
                    } else {
                        k
                    };
                    assert(remove_value(rest, v)[j] == v);
                }
            }
        }
        if s.no_duplicates() {
            assert(rest.no_duplicates());
            if s[0] != v {
                assert(!rest.contains(s[0]));
                assert(!remove_value(rest, v).contains(s[0]));
                assert forall|i: int, j: int| 0 <= i < r.len() && 0 <= j < r.len() && i != j implies r[i]
                    != r[j] by {
                    if i == 0 && j > 0 {
                        assert(r[j] == remove_value(rest, v)[j - 1]);
                    } else if j == 0 && i > 0 {
                        assert(r[i] == remove_value(rest, v)[i - 1]);
                    } else if i > 0 && j > 0 {
                        assert(r[i] == remove_value(rest, v)[i - 1]);
                        assert(r[j] == remove_value(rest, v)[j - 1]);
                    }
                }
            }
        }
    }
}

/// Ticking a source makes it selected and unticking it unselects it; the
/// other selected sources stay, and a list without repeats keeps none.
pub proof fn lemma_toggle(selected: Seq<Seq<char>>, value: Seq<char>, checked: bool)
    ensures
        toggle_spec(selected, value, checked).contains(value) == checked,
        forall|x: Seq<char>| x != value ==> (toggle_spec(selected, value, checked).contains(x)
            <==> selected.contains(x)),
        selected.no_duplicates() ==> toggle_spec(selected, value, checked).no_duplicates(),
{
    lemma_remove_value(selected, value);
    if checked && !selected.contains(value) {
        let r = selected.push(value);
        assert(r[selected.len() as int] == value);
        assert forall|x: Seq<char>| x != value implies (r.contains(x) <==> selected.contains(x)) by {
            if r.contains(x) {
                let k = choose|k: int| 0 <= k < r.len() && r[k] == x;
                assert(selected[k] == x);
            }
            if selected.contains(x) {
                let k = choose|k: int| 0 <= k < selected.len() && selected[k] == x;
                assert(r[k] == x);
            }
        }
        if selected.no_duplicates() {
            assert forall|i: int, j: int| 0 <= i < r.len() && 0 <= j < r.len() && i != j implies r[i]
                != r[j] by {
                if i == selected.len() {
                    assert(r[j] == selected[j]);
                } else if j == selected.len() {
                    assert(r[i] == selected[i]);
                }
            }
        }
    }
    if !checked {
        assert forall|x: Seq<char>| x != value implies (remove_value(selected, value).contains(x)
            <==> selected.contains(x)) by {
        }
    }
}

/// The position of the first `v` in `s`, or `s.len()` where there is none.
pub open spec fn first_position(s: Seq<Seq<char>>, v: Seq<char>) -> int
    decreases s.len(),
{
    if s.len() == 0 {
        0
    } else if s[0] == v {
        0
    } else {
        1 + first_position(s.drop_first(), v)
    }
}

/// Which source the runes window starts with: the first occurrence of the
/// saved rune source, else the first source; its value, or empty without
/// sources.
pub open spec fn rune_source_spec(sources: Seq<Seq<char>>, rune_source: Seq<char>) -> (int, Seq<char>) {
    let p = first_position(sources, rune_source);
    let idx = if p < sources.len() {
        p
    } else {
        0
    };
    (
        idx,
        if idx < sources.len() {
            sources[idx]
        } else {
            Seq::empty()
        },
    )
}

/// Chooses the source that the runes window shows first.
pub fn choose_rune_source(sources: &Vec<String>, rune_source: &String) -> (r: (usize, String))
    ensures
        (r.0 as int, r.1@) == rune_source_spec(string_views(sources@), rune_source@),
{
    let ghost sv = string_views(sources@);
    let mut i: usize = 0;
    assert(sv.skip(0) == sv);
    while i < sources.len()
        invariant
            i <= sources.len(),
            sv == string_views(sources@),
            first_position(sv, rune_source@) == i + first_position(sv.skip(i as int), rune_source@),
        decreases sources.len() - i,
    {
        let ghost rest = sv.skip(i as int);
        assert(rest[0] == sources@[i as int]@);
        assert(rest.drop_first() == sv.skip(i + 1));
        if string_eq(&sources[i], rune_source) {
            return (i, sources[i].clone());
        }
        i = i + 1;
    }
    assert(sv.skip(i as int).len() == 0);
    if sources.len() > 0 {
        (0, sources[0].clone())
    } else {
        (0, String::new())
    }
}

/// The name of the first champion, in the order given, whose key is the
/// champion id in decimal; empty where none has it.
pub open spec fn champion_name_spec(champions: Seq<ChampInfo>, champion_id: int) -> Seq<char>
    decreases champions.len(),
{
    if champions.len() == 0 {
        Seq::empty()
    } else if champions[0].key@ == signed_decimal(champion_id) {
        champions[0].name@
    } else {
        champion_name_spec(champions.drop_first(), champion_id)
    }
}

/// The name of the champion with the given id among the known champions.
pub fn champion_name_for_id(champions: &Vec<ChampInfo>, champion_id: i64) -> (r: String)
    ensures
        r@ == champion_name_spec(champions@, champion_id as int),
{
    let mut key = Vec::new();
    push_signed_decimal(&mut key, champion_id);
    let mut i: usize = 0;
    assert(champions@.skip(0) == champions@);
    while i < champions.len()
        invariant
            i <= champions.len(),
            key@ == signed_decimal(champion_id as int),
            champion_name_spec(champions@, champion_id as int) == champion_name_spec(
                champions@.skip(i as int),
                champion_id as int,
            ),
        decreases champions.len() - i,
    {
        let ghost rest = champions@.skip(i as int);
        assert(rest[0] == champions@[i as int]);
        assert(rest.drop_first() == champions@.skip(i + 1));
        if chars_eq(&chars_of(champions[i].key.as_str()), &key) {
            return champions[i].name.clone();
        }
        i = i + 1;
    }
    String::new()
}

/// For each source value, whether it was saved as selected.
pub fn selection_flags(saved: &Vec<String>, values: &Vec<String>) -> (r: Vec<bool>)
    ensures
        r@.len() == values@.len(),
        forall|i: int| 0 <= i < values@.len() ==> r@[i] == string_views(saved@).contains(
            #[trigger] values@[i]@,
        ),
{
    let ghost sv = string_views(saved@);
    let mut r: Vec<bool> = Vec::new();
    let mut i: usize = 0;
    while i < values.len()
        invariant
            i <= values.len(),
            sv == string_views(saved@),
            r@.len() == i,
            forall|k: int| 0 <= k < i ==> r@[k] == sv.contains(#[trigger] values@[k]@),
        decreases values.len() - i,
    {
        let mut found = false;
        let mut j: usize = 0;
        while j < saved.len()
            invariant
                j <= saved.len(),
                i < values.len(),
                sv == string_views(saved@),
                found <==> exists|k: int| 0 <= k < j && sv[k] == values@[i as int]@,
            decreases saved.len() - j,
        {
            assert(sv[j as int] == saved@[j as int]@);
            if string_eq(&saved[j], &values[i]) {
                found = true;
            }
            j = j + 1;
        }
        proof {
            if found {
                let k = choose|k: int| 0 <= k < j && sv[k] == values@[i as int]@;
                assert(sv.contains(values@[i as int]@));
            } else {
                assert forall|k: int| 0 <= k < sv.len() implies sv[k] != values@[i as int]@ by {
                }
            }
        }
        r.push(found);
        i = i + 1;
    }
    r
}

/// Why builds cannot be applied yet, if so: no source is selected, or the
/// client's directory is not known.
pub fn apply_builds_blocker(selected_count: usize, lol_dir: &str) -> (r: Option<String>)
    ensures
        match r {
            Some(m) => (selected_count == 0 && m@ == "Select at least one source"@) || (
            selected_count > 0 && lol_dir@.len() == 0 && m@ == "League Client directory not found"@),
            None => selected_count > 0 && lol_dir@.len() > 0,
        },
{
    if selected_count == 0 {
        Some(owned("Select at least one source"))
    } else if lol_dir.unicode_len() == 0 {
        Some(owned("League Client directory not found"))
    } else {
        None
    }
}

/// The message after applying builds.
pub fn apply_result_message(succeeded: bool, applied_count: usize) -> (r: String)
    ensures
        r@ == if succeeded {
            "Done! Applied builds for "@ + decimal(applied_count as nat) + " champions"@
        } else {
            "Error applying builds"@
        },
{
    if succeeded {
        let mut v = chars_of("Done! Applied builds for ");
        push_decimal(&mut v, applied_count as u64);
        extend_chars(&mut v, &chars_of(" champions"));
        string_of(&v)
    } else {
        owned("Error applying builds")
    }
}

/// How the connected summoner is shown: `name#tag` where the Riot name is
/// known, else the display name; `Connected` where the summoner could not
/// be read.
pub fn summoner_label(summoner: Option<(String, String, String)>) -> (r: String)
    ensures
        r@ == match summoner {
            Some((game_name, tag_line, display_name)) => if game_name@.len() > 0 {
                game_name@ + "#"@ + tag_line@
            } else {
                display_name@
            },
            None => "Connected"@,
        },
{
    match summoner {
        Some((game_name, tag_line, display_name)) => {
            if game_name.as_str().unicode_len() > 0 {
                let mut v = chars_of(game_name.as_str());
                extend_chars(&mut v, &chars_of("#"));
                extend_chars(&mut v, &chars_of(tag_line.as_str()));
                string_of(&v)
            } else {
                display_name
            }
        },
        None => owned("Connected"),
    }
}

/// Reads a text message of the client's event socket as JSON: nothing for
/// an empty message or one that is not JSON.
pub fn socket_message_json(text: &str) -> (r: Option<serde_json::Value>)
    ensures
        r is Some <==> (text@.len() > 0 && json_parse_error(text@) is None),
{
    if text.unicode_len() == 0 {
        return None;
    }
    match parse_json(text) {
        Ok(v) => Some(v),
        Err(_) => None,
    }
}

} // verus!
