//! Title screen: picking a walker and a champion, joining, and coming back.

use vstd::prelude::*;
use vstd::string::StringExecFns;

use crate::json::{list_field, parse_json, parsed_tree, text_field, trees, unsigned_field, Json, JsonTree};
use crate::session::GameSession;
use crate::text::same_text;

verus! {

/// Seed of the first adventure, for servers that do not name one.
pub const DEFAULT_SEED: u64 = 12345;

/// What the server answered to a login.
#[derive(Debug)]
pub struct LoginResult {
    pub player_id: String,
    pub name: String,
    pub champion: String,
    /// Kept for rejoining when the page is next loaded.
    pub walker_uuid: String,
    /// World seed of the player's adventure.
    pub map_seed: u64,
}

/// A text field of an answer, or what stands in for it.
pub open spec fn text_or(tree: JsonTree, key: Seq<char>, other: Seq<char>) -> Seq<char> {
    match text_field(tree, key) {
        Some(text) => text,
        None => other,
    }
}

/// The login that an answer grants: none unless it names the player.
pub open spec fn is_login(
    tree: JsonTree,
    name: Seq<char>,
    champion: Seq<char>,
    walker_uuid: Seq<char>,
    login: LoginResult,
) -> bool {
    &&& text_field(tree, "player_id"@) == Some(login.player_id@)
    &&& login.name@ == text_or(tree, "name"@, name)
    &&& login.champion@ == text_or(tree, "champion"@, champion)
    &&& login.walker_uuid@ == walker_uuid
    &&& login.map_seed == (match unsigned_field(tree, "map_seed"@) {
        Some(seed) => seed,
        None => DEFAULT_SEED,
    })
}

fn text_or_else(data: &Json, key: &str, other: &str) -> (text: String)
    ensures
        text@ == text_or(data.tree(), key@, other@),
{
    match data.get_text(key) {
        Some(text) => text.clone(),
        None => String::from_str(other),
    }
}

/// Reads the server's answer to a login. What it leaves out is taken from what
/// was asked for.
pub fn login_of(data: &Json, name: &str, champion: &str, walker_uuid: &str) -> (login: Option<
    LoginResult,
>)
    ensures
        login is Some <==> text_field(data.tree(), "player_id"@) is Some,
        login matches Some(l) ==> is_login(data.tree(), name@, champion@, walker_uuid@, l),
{
    match data.get_text("player_id") {
        Some(player_id) => {
            let map_seed: u64 = match data.get_u64("map_seed") {
                Some(seed) => seed,
                None => DEFAULT_SEED,
            };
            Some(
                LoginResult {
                    player_id: player_id.clone(),
                    name: text_or_else(data, "name", name),
                    champion: text_or_else(data, "champion", champion),
                    walker_uuid: String::from_str(walker_uuid),
                    map_seed,
                },
            )
        },
        None => None,
    }
}

/// Reads the text of the server's answer to a login.
pub fn read_login(text: &str, name: &str, champion: &str, walker_uuid: &str) -> (login: Option<
    LoginResult,
>)
    ensures
        login is Some <==> (parsed_tree(text@) matches Some(tree) && text_field(
            tree,
            "player_id"@,
        ) is Some),
        login matches Some(l) ==> is_login(
            parsed_tree(text@)->0,
            name@,
            champion@,
            walker_uuid@,
            l,
        ),
{
    match parse_json(text) {
        Some(data) => login_of(&data, name, champion, walker_uuid),
        None => None,
    }
}

/// Session that the browser remembers.
#[derive(Debug)]
pub struct SavedSession {
    pub player_id: String,
    pub name: String,
    pub champion: String,
    pub walker_uuid: String,
}

/// The text is there and is not empty.
pub open spec fn is_given(text: Option<String>) -> bool {
    text matches Some(t) && t@.len() > 0
}

/// Restores a remembered session; all four of its parts must be there.
pub fn load_session(
    player_id: Option<String>,
    name: Option<String>,
    champion: Option<String>,
    walker_uuid: Option<String>,
) -> (session: Option<SavedSession>)
    ensures
        session is Some <==> is_given(player_id) && is_given(name) && is_given(champion)
            && is_given(walker_uuid),
        session matches Some(s) ==> Some(s.player_id) == player_id && Some(s.name) == name && Some(
            s.champion,
        ) == champion && Some(s.walker_uuid) == walker_uuid,
{
    match (player_id, name, champion, walker_uuid) {
        (Some(player_id), Some(name), Some(champion), Some(walker_uuid)) => {
            if player_id.as_str().is_empty() || name.as_str().is_empty()
                || champion.as_str().is_empty() || walker_uuid.as_str().is_empty() {
                return None;
            }
            Some(SavedSession { player_id, name, champion, walker_uuid })
        },
        _ => None,
    }
}

/// What the title screen shows first.
#[derive(Debug)]
pub enum TitleScreen {
    /// A remembered session is resumed.
    Reconnecting { welcome: String, champion_line: String },
    /// The player picks a walker.
    PickWalker,
}

/// Opens the title screen: with a remembered session the login goes out at
/// once and the pickers are skipped.
pub fn spawn_title(saved: &Option<SavedSession>, waiting: &mut bool) -> (screen: TitleScreen)
    ensures
        match *saved {
            Some(session) => {
                &&& *final(waiting)
                &&& screen matches TitleScreen::Reconnecting { welcome, champion_line } && welcome@
                    == "Welcome back, "@ + session.name@ && champion_line@ == "("@
                    + session.champion@ + ")"@
            },
            None => *final(waiting) == *old(waiting) && screen is PickWalker,
        },
{
    match saved {
        Some(session) => {
            *waiting = true;
            let mut welcome = String::from_str("Welcome back, ");
            welcome.append(session.name.as_str());
            let mut champion_line = String::from_str("(");
            champion_line.append(session.champion.as_str());
            champion_line.append(")");
            TitleScreen::Reconnecting { welcome, champion_line }
        },
        None => TitleScreen::PickWalker,
    }
}

/// A walker of the leaderboard, and the entry it was read from: the number of
/// the period (today, this week, all time) and the place in its list.
#[derive(Debug)]
pub struct WalkerPlayer {
    pub id: String,
    pub name: String,
    pub status: String,
    pub period: u32,
    pub index: usize,
}

/// An entry of the leaderboard with the place it stands at.
pub struct Entry {
    pub period: u32,
    pub index: int,
    pub tree: JsonTree,
}

/// The entries that a leaderboard has for a period.
pub open spec fn period_entries(data: JsonTree, key: Seq<char>, period: u32) -> Seq<Entry> {
    match list_field(data, key) {
        Some(list) => Seq::new(
            list.len(),
            |i: int| Entry { period, index: i, tree: list[i] },
        ),
        None => Seq::empty(),
    }
}

/// All entries of a leaderboard: those of today, of the week, of all time.
pub open spec fn all_entries(data: JsonTree) -> Seq<Entry> {
    period_entries(data, "today"@, 0) + period_entries(data, "weekly"@, 1) + period_entries(
        data,
        "all_time"@,
        2,
    )
}

/// Id of an entry, empty where it has none.
pub open spec fn entry_id(entry: Entry) -> Seq<char> {
    text_or(entry.tree, "id"@, ""@)
}

/// No entry before has the id.
pub open spec fn is_new_id(entries: Seq<Entry>, id: Seq<char>) -> bool {
    forall|j: int| 0 <= j < entries.len() ==> entry_id(#[trigger] entries[j]) != id
}

/// The entries whose id no earlier entry has.
pub open spec fn distinct_entries(entries: Seq<Entry>) -> Seq<Entry>
    decreases entries.len(),
{
    if entries.len() == 0 {
        Seq::empty()
    } else {
        let before = distinct_entries(entries.drop_last());
        if is_new_id(entries.drop_last(), entry_id(entries.last())) {
            before.push(entries.last())
        } else {
            before
        }
    }
}

/// The walker is what the entry says.
pub open spec fn is_walker(walker: WalkerPlayer, entry: Entry) -> bool {
    &&& walker.id@ == entry_id(entry)
    &&& walker.name@ == text_or(entry.tree, "name"@, "?"@)
    &&& walker.status@ == text_or(entry.tree, "status"@, "offline"@)
    &&& walker.period == entry.period
    &&& walker.index == entry.index
}

/// Each walker of the first list is what the entry of the same place says.
pub open spec fn are_walkers(walkers: Seq<WalkerPlayer>, entries: Seq<Entry>) -> bool {
    &&& walkers.len() == entries.len()
    &&& forall|k: int| 0 <= k < walkers.len() ==> is_walker(#[trigger] walkers[k], entries[k])
}

/// An id is new among some entries if none of the distinct ones has it.
proof fn lemma_distinct_ids(entries: Seq<Entry>, id: Seq<char>)
    ensures
        is_new_id(entries, id) == is_new_id(distinct_entries(entries), id),
    decreases entries.len(),
{
    if entries.len() > 0 {
        let init = entries.drop_last();
        lemma_distinct_ids(init, id);
        lemma_distinct_ids(init, entry_id(entries.last()));
        let before = distinct_entries(init);
        let after = distinct_entries(entries);
        if is_new_id(entries, id) {
            assert forall|j: int| 0 <= j < init.len() implies entry_id(#[trigger] init[j]) != id by {
                assert(init[j] == entries[j]);
            }
            assert(entry_id(entries[entries.len() - 1]) != id);
            assert forall|j: int| 0 <= j < after.len() implies entry_id(#[trigger] after[j])
                != id by {
                if j < before.len() {
                    assert(after[j] == before[j]);
                }
            }
        }
        if is_new_id(after, id) {
            assert forall|j: int| 0 <= j < before.len() implies entry_id(#[trigger] before[j])
                != id by {
                assert(after[j] == before[j]);
            }
            if entry_id(entries.last()) == id {
                if is_new_id(init, id) {
                    assert(after[after.len() - 1] == entries.last());
                }
            }
            assert forall|j: int| 0 <= j < entries.len() implies entry_id(#[trigger] entries[j])
                != id by {
                if j < init.len() {
                    assert(init[j] == entries[j]);
                }
            }
        }
    }
}

fn is_listed(walkers: &Vec<WalkerPlayer>, id: &str, Ghost(entries): Ghost<Seq<Entry>>) -> (listed:
    bool)
    requires
        are_walkers(walkers@, distinct_entries(entries)),
    ensures
        listed == !is_new_id(entries, id@),
{
    proof {
        lemma_distinct_ids(entries, id@);
    }
    let ghost distinct = distinct_entries(entries);
    let mut k: usize = 0;
    while k < walkers.len()
        invariant
            k <= walkers.len(),
            are_walkers(walkers@, distinct),
            is_new_id(entries, id@) == is_new_id(distinct, id@),
            forall|j: int| 0 <= j < k ==> entry_id(#[trigger] distinct[j]) != id@,
        decreases walkers.len() - k,
    {
        assert(is_walker(walkers@[k as int], distinct[k as int]));
        if same_text(walkers[k].id.as_str(), id) {
            return true;
        }
        k = k + 1;
    }
    false
}

fn add_walker(
    walkers: &mut Vec<WalkerPlayer>,
    entry: &Json,
    period: u32,
    index: usize,
    Ghost(entries): Ghost<Seq<Entry>>,
)
    requires
        are_walkers(old(walkers)@, distinct_entries(entries)),
    ensures
        are_walkers(
            final(walkers)@,
            distinct_entries(
                entries.push(Entry { period, index: index as int, tree: entry.tree() }),
            ),
        ),
{
    let ghost this = Entry { period, index: index as int, tree: entry.tree() };
    let id = text_or_else(entry, "id", "");
    assert(entries.push(this).drop_last() =~= entries);
    if is_listed(walkers, id.as_str(), Ghost(entries)) {
        return ;
    }
    let name = text_or_else(entry, "name", "?");
    let status = text_or_else(entry, "status", "offline");
    let ghost before = walkers@;
    walkers.push(WalkerPlayer { id, name, status, period, index });
    proof {
        let distinct = distinct_entries(entries.push(this));
        assert(distinct =~= distinct_entries(entries).push(this));
        assert forall|k: int| 0 <= k < walkers.len() implies is_walker(
            #[trigger] walkers@[k],
            distinct[k],
        ) by {
            if k < before.len() {
                assert(walkers@[k] == before[k]);
            }
        }
    }
}

fn add_period(
    walkers: &mut Vec<WalkerPlayer>,
    data: &Json,
    key: &str,
    period: u32,
    Ghost(entries): Ghost<Seq<Entry>>,
)
    requires
        are_walkers(old(walkers)@, distinct_entries(entries)),
    ensures
        are_walkers(
            final(walkers)@,
            distinct_entries(entries + period_entries(data.tree(), key@, period)),
        ),
{
    let ghost more = period_entries(data.tree(), key@, period);
    match data.get_list(key) {
        Some(list) => {
            let mut i: usize = 0;
            assert(entries + more.take(0) =~= entries);
            while i < list.len()
                invariant
                    i <= list.len(),
                    more == period_entries(data.tree(), key@, period),
                    list_field(data.tree(), key@) == Some(trees(list@)),
                    are_walkers(walkers@, distinct_entries(entries + more.take(i as int))),
                decreases list.len() - i,
            {
                let ghost so_far = entries + more.take(i as int);
                add_walker(walkers, &list[i], period, i, Ghost(so_far));
                assert(entries + more.take(i + 1) =~= so_far.push(
                    Entry { period, index: i as int, tree: list@[i as int].tree() },
                ));
                i = i + 1;
            }
            assert(more.take(i as int) =~= more);
        },
        None => {
            assert(entries + more =~= entries);
        },
    }
}

/// The walkers of a leaderboard, each id once, in the order in which they come
/// up in the lists of today, of the week and of all time.
pub fn leaderboard_walkers(data: &Json) -> (walkers: Vec<WalkerPlayer>)
    ensures
        are_walkers(walkers@, distinct_entries(all_entries(data.tree()))),
{
    let mut walkers: Vec<WalkerPlayer> = Vec::new();
    let ghost none: Seq<Entry> = Seq::empty();
    let ghost today = period_entries(data.tree(), "today"@, 0);
    let ghost weekly = period_entries(data.tree(), "weekly"@, 1);
    add_period(&mut walkers, data, "today", 0, Ghost(none));
    add_period(&mut walkers, data, "weekly", 1, Ghost(none + today));
    add_period(&mut walkers, data, "all_time", 2, Ghost(none + today + weekly));
    assert(none + today + weekly =~= today + weekly);
    walkers
}

/// Reads the text of a leaderboard; `None` where it is not JSON.
pub fn fetch_walker_players(text: &str) -> (walkers: Option<Vec<WalkerPlayer>>)
    ensures
        match walkers {
            Some(list) => {
                &&& parsed_tree(text@) is Some
                &&& are_walkers(list@, distinct_entries(all_entries(parsed_tree(text@)->0)))
            },
            None => parsed_tree(text@) is None,
        },
{
    match parse_json(text) {
        Some(data) => Some(leaderboard_walkers(&data)),
        None => None,
    }
}

/// Nobody is listed twice, and everybody on the leaderboard is listed.
pub proof fn walkers_are_listed_once(entries: Seq<Entry>)
    ensures
        forall|i: int, j: int|
            0 <= i < j < distinct_entries(entries).len() ==> entry_id(
                #[trigger] distinct_entries(entries)[i],
            ) != entry_id(#[trigger] distinct_entries(entries)[j]),
        forall|i: int|
            0 <= i < entries.len() ==> !is_new_id(
                distinct_entries(entries),
                entry_id(#[trigger] entries[i]),
            ),
    decreases entries.len(),
{
    if entries.len() > 0 {
        let init = entries.drop_last();
        let before = distinct_entries(init);
        let after = distinct_entries(entries);
        walkers_are_listed_once(init);
        lemma_distinct_ids(init, entry_id(entries.last()));
        assert forall|i: int, j: int| 0 <= i < j < after.len() implies entry_id(#[trigger] after[i])
            != entry_id(#[trigger] after[j]) by {
            assert(after[i] == before[i]);
            if j < before.len() {
                assert(after[j] == before[j]);
            }
        }
    }
    assert forall|i: int| 0 <= i < entries.len() implies !is_new_id(
        distinct_entries(entries),
        entry_id(#[trigger] entries[i]),
    ) by {
        lemma_distinct_ids(entries, entry_id(entries[i]));
    }
}

/// A walker's row in the picker.
#[derive(Debug)]
pub struct WalkerRow {
    pub text: String,
    pub is_walking: bool,
}

/// A walker of that status is walking.
pub open spec fn is_walking(status: Seq<char>) -> bool {
    status == "walking"@
}

/// What the row of a walker says.
pub open spec fn row_text(name: Seq<char>, walking: bool, speed: Seq<char>) -> Seq<char> {
    if walking {
        "* "@ + name + (" ("@ + speed + " km/h)"@)
    } else {
        "  "@ + name
    }
}

/// The row of a walker: a star marks who is walking, with their speed, which
/// comes in decimal notation.
pub fn walker_row(walker: &WalkerPlayer, speed: &str) -> (row: WalkerRow)
    ensures
        row.is_walking == is_walking(walker.status@),
        row.text@ == row_text(walker.name@, is_walking(walker.status@), speed@),
{
    let is_walking: bool = same_text(walker.status.as_str(), "walking");
    let mut text = String::from_str(
        if is_walking {
            "* "
        } else {
            "  "
        },
    );
    text.append(walker.name.as_str());
    if is_walking {
        text.append(" (");
        text.append(speed);
        text.append(" km/h)");
        assert(text@ =~= "* "@ + walker.name@ + (" ("@ + speed@ + " km/h)"@));
    }
    WalkerRow { text, is_walking }
}

/// Two-stage title flow: pick a walker, then a champion.
#[derive(Debug)]
pub struct TitleStage {
    /// Id and name of the walker; once set, the champion picker shows.
    pub selected_walker: Option<(String, String)>,
    pub champion_ui_built: bool,
}

/// The flow after a click on a walker.
pub open spec fn stage_after(stage: TitleStage, clicked: Option<(String, String)>) -> TitleStage {
    if stage.selected_walker is None && clicked is Some {
        TitleStage { selected_walker: clicked, champion_ui_built: true }
    } else {
        stage
    }
}

/// Selects the walker that was clicked, if none is selected yet. Tells whether
/// the champion picker is to be built.
pub fn handle_walker_click(stage: &mut TitleStage, clicked: Option<(String, String)>) -> (build:
    bool)
    ensures
        build == (old(stage).selected_walker is None && clicked is Some),
        *final(stage) == stage_after(*old(stage), clicked),
{
    if stage.selected_walker.is_some() {
        return false;
    }
    match clicked {
        Some(walker) => {
            stage.selected_walker = Some(walker);
            stage.champion_ui_built = true;
            true
        },
        None => false,
    }
}

/// The greeting over the champion picker.
pub fn champion_greeting(player_name: &str) -> (text: String)
    ensures
        text@ == "Welcome, "@ + player_name@,
{
    let mut text = String::from_str("Welcome, ");
    text.append(player_name);
    text
}

/// Whether a click on a champion sends the login: once a walker is selected,
/// and only while no login is on its way.
pub fn handle_champion_click(stage: &TitleStage, clicked: bool, waiting: &mut bool) -> (join: bool)
    ensures
        join == (clicked && !*old(waiting) && stage.selected_walker is Some),
        *final(waiting) == (*old(waiting) || join),
{
    if clicked && !*waiting && stage.selected_walker.is_some() {
        *waiting = true;
        true
    } else {
        false
    }
}

/// The session that a login leads to.
pub open spec fn joined(session: GameSession, login: LoginResult) -> GameSession {
    GameSession {
        player_id: login.player_id,
        player_name: login.name,
        champion: login.champion,
        map_seed: login.map_seed,
        ..session
    }
}

/// Takes over the result of a login that was waited for. Tells whether the
/// game starts.
pub fn check_login_result(
    waiting: &mut bool,
    session: &mut GameSession,
    result: Option<LoginResult>,
) -> (start: bool)
    ensures
        start == (*old(waiting) && result is Some),
        *final(waiting) == (*old(waiting) && !start),
        *final(session) == (if start {
            joined(*old(session), result->0)
        } else {
            *old(session)
        }),
{
    if !*waiting {
        return false;
    }
    match result {
        Some(login) => {
            *waiting = false;
            session.player_id = login.player_id;
            session.player_name = login.name;
            session.champion = login.champion;
            session.map_seed = login.map_seed;
            true
        },
        None => false,
    }
}

/// What the answer says of a login counts; where it is silent, what was asked
/// for, and the seed of the first adventure.
pub proof fn logins_follow_the_answer(
    tree: JsonTree,
    name: Seq<char>,
    champion: Seq<char>,
    walker_uuid: Seq<char>,
    login: LoginResult,
)
    requires
        is_login(tree, name, champion, walker_uuid, login),
    ensures
        text_field(tree, "player_id"@) == Some(login.player_id@),
        text_field(tree, "name"@) matches Some(text) ==> login.name@ == text,
        text_field(tree, "name"@) is None ==> login.name@ == name,
        text_field(tree, "champion"@) matches Some(text) ==> login.champion@ == text,
        text_field(tree, "champion"@) is None ==> login.champion@ == champion,
        login.walker_uuid@ == walker_uuid,
        unsigned_field(tree, "map_seed"@) matches Some(seed) ==> login.map_seed == seed,
        unsigned_field(tree, "map_seed"@) is None ==> login.map_seed == 12345,
{
}

/// The entries of today come first, then those of the week, then those of all
/// time, each list in its own order and each entry with its place.
pub proof fn entries_come_period_by_period(
    data: JsonTree,
    today: Seq<JsonTree>,
    weekly: Seq<JsonTree>,
    ever: Seq<JsonTree>,
    i: int,
)
    requires
        list_field(data, "today"@) == Some(today),
        list_field(data, "weekly"@) == Some(weekly),
        list_field(data, "all_time"@) == Some(ever),
    ensures
        ({
            let all = all_entries(data);
            let (a, b) = (today.len() as int, today.len() + weekly.len());
            &&& all.len() == today.len() + weekly.len() + ever.len()
            &&& 0 <= i < a ==> all[i] == (Entry { period: 0, index: i, tree: today[i] })
            &&& a <= i < b ==> all[i] == (Entry { period: 1, index: i - a, tree: weekly[i - a] })
            &&& b <= i < all.len() ==> all[i] == (Entry {
                period: 2,
                index: i - b,
                tree: ever[i - b],
            })
        }),
{
}

/// A period that is no list has no entries.
pub proof fn missing_periods_have_no_entries(data: JsonTree, key: Seq<char>, period: u32)
    requires
        list_field(data, key) is None,
    ensures
        period_entries(data, key, period).len() == 0,
{
}

/// An entry is listed unless one of the same id came before it.
pub proof fn first_entries_are_listed(entries: Seq<Entry>, entry: Entry)
    ensures
        distinct_entries(Seq::empty()).len() == 0,
        (exists|j: int|
            0 <= j < entries.len() && entry_id(#[trigger] entries[j]) == entry_id(entry))
            ==> distinct_entries(entries.push(entry)) == distinct_entries(entries),
        (forall|j: int|
            0 <= j < entries.len() ==> entry_id(#[trigger] entries[j]) != entry_id(entry))
            ==> distinct_entries(entries.push(entry)) == distinct_entries(entries).push(entry),
{
    assert(entries.push(entry).drop_last() =~= entries);
    assert(entries.push(entry).last() == entry);
}

/// What an entry leaves out of a walker is made up: no id, a question mark for
/// a name, and being offline.
pub proof fn walkers_are_what_their_entry_says(walker: WalkerPlayer, entry: Entry)
    requires
        is_walker(walker, entry),
    ensures
        text_field(entry.tree, "id"@) matches Some(text) ==> walker.id@ == text,
        text_field(entry.tree, "id"@) is None ==> walker.id@.len() == 0,
        text_field(entry.tree, "name"@) matches Some(text) ==> walker.name@ == text,
        text_field(entry.tree, "name"@) is None ==> walker.name@ == "?"@,
        text_field(entry.tree, "status"@) matches Some(text) ==> walker.status@ == text,
        text_field(entry.tree, "status"@) is None ==> walker.status@ == "offline"@
            && !is_walking(walker.status@),
        walker.period == entry.period,
        walker.index == entry.index,
{
    reveal_strlit("");
    reveal_strlit("offline");
    reveal_strlit("walking");
    assert("offline"@[0] == 'o' && "walking"@[0] == 'w');
}

/// A star and the speed mark who is walking; the name of one who is not is
/// only set in.
pub proof fn walking_walkers_are_marked(name: Seq<char>, speed: Seq<char>)
    ensures
        is_walking("walking"@),
        row_text(name, true, speed) == "* "@ + name + " ("@ + speed + " km/h)"@,
        row_text(name, false, speed) == "  "@ + name,
        row_text(name, true, speed)[0] == '*',
        row_text(name, false, speed)[0] == ' ',
{
    reveal_strlit("* ");
    reveal_strlit("  ");
    assert("* "@ + name + " ("@ + speed + " km/h)"@ =~= "* "@ + name + (" ("@ + speed
        + " km/h)"@));
}

/// The first walker that is clicked stays selected, and the champion picker
/// with them.
pub proof fn the_first_walker_stays_selected(
    stage: TitleStage,
    first: (String, String),
    clicked: Option<(String, String)>,
)
    ensures
        stage.selected_walker is None ==> stage_after(stage, Some(first)).selected_walker == Some(
            first,
        ) && stage_after(stage, Some(first)).champion_ui_built,
        stage_after(stage, None) == stage,
        stage.selected_walker is Some ==> stage_after(stage, clicked) == stage,
        stage_after(stage_after(stage, Some(first)), clicked) == stage_after(stage, Some(first)),
{
}

/// The session is that of the login; what it knew of the server stays.
pub proof fn the_session_follows_the_login(session: GameSession, login: LoginResult)
    ensures
        joined(session, login).player_id == login.player_id,
        joined(session, login).player_name == login.name,
        joined(session, login).champion == login.champion,
        joined(session, login).map_seed == login.map_seed,
        joined(joined(session, login), login) == joined(session, login),
{
}

/// A part of a remembered session counts when it is there and not empty.
pub proof fn empty_parts_do_not_count(text: String)
    ensures
        !is_given(None),
        is_given(Some(text)) <==> text@.len() > 0,
{
}

/// The walkers stand in the order of their entries, one for each.
pub proof fn walkers_stand_in_order(walkers: Seq<WalkerPlayer>, entries: Seq<Entry>, i: int)
    requires
        are_walkers(walkers, entries),
    ensures
        walkers.len() == entries.len(),
        0 <= i < entries.len() ==> walkers[i].id@ == entry_id(entries[i]) && walkers[i].period
            == entries[i].period && walkers[i].index == entries[i].index,
{
}

} // verus!
