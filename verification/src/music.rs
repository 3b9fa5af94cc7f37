//! Music that follows what happens, with crossfading between two channels.

use vstd::prelude::*;
use vstd::string::StringExecFns;

use crate::combat::CombatUiState;
use crate::terrain::world_map::{Biome, PoiType};
use crate::text::{append_decimal, decimal_text, is_text, option_text, same_text, to_chars};

verus! {

/// A piece of music.
#[derive(Debug)]
pub struct TrackDef {
    pub id: String,
    pub file: String,
    pub context: String,
    pub looped: bool,
}

#[derive(Debug, Clone, Copy, PartialEq, Eq, Structural)]
pub enum MusicContext {
    Title,
    Village,
    Grassland,
    Forest,
    Mountain,
    Swamp,
    /// Inside any interior, whatever biome its entrance lies in.
    Interior,
    Combat,
    Boss,
    Victory,
    Silent,
}

/// Name under which tracks are filed for a context; empty for silence.
pub open spec fn context_name(context: MusicContext) -> Seq<char> {
    match context {
        MusicContext::Title => "title"@,
        MusicContext::Village => "village"@,
        MusicContext::Grassland => "grassland"@,
        MusicContext::Forest => "forest"@,
        MusicContext::Mountain => "mountain"@,
        MusicContext::Swamp => "swamp"@,
        MusicContext::Interior => "interior"@,
        MusicContext::Combat => "combat"@,
        MusicContext::Boss => "boss"@,
        MusicContext::Victory => "victory"@,
        MusicContext::Silent => ""@,
    }
}

impl MusicContext {
    pub fn as_str(&self) -> (name: &'static str)
        ensures
            name@ == context_name(*self),
    {
        match self {
            MusicContext::Title => "title",
            MusicContext::Village => "village",
            MusicContext::Grassland => "grassland",
            MusicContext::Forest => "forest",
            MusicContext::Mountain => "mountain",
            MusicContext::Swamp => "swamp",
            MusicContext::Interior => "interior",
            MusicContext::Combat => "combat",
            MusicContext::Boss => "boss",
            MusicContext::Victory => "victory",
            MusicContext::Silent => "",
        }
    }
}

/// Where the player stands: the landmark there, if any, and the biome.
#[derive(Debug, Clone, Copy, PartialEq, Eq, Structural)]
pub struct Place {
    pub poi_type: Option<PoiType>,
    pub biome: Biome,
}

/// The music of a place on the overworld.
pub open spec fn place_context(place: Place) -> MusicContext {
    if place.poi_type == Some(PoiType::Town) || place.poi_type == Some(PoiType::Village) {
        MusicContext::Village
    } else {
        match place.biome {
            Biome::Grassland | Biome::Desert => MusicContext::Grassland,
            Biome::Forest | Biome::DenseForest => MusicContext::Forest,
            Biome::Mountain | Biome::Snow => MusicContext::Mountain,
            Biome::Swamp => MusicContext::Swamp,
            _ => MusicContext::Grassland,
        }
    }
}

/// A fight is on.
pub open spec fn in_combat(combat: Option<&CombatUiState>) -> bool {
    combat matches Some(c) && c.active && c.state is Some
}

/// The music that fits: a fight comes before everything but the title screen,
/// an interior before the overworld.
pub open spec fn desired_context(
    on_title: bool,
    combat: Option<&CombatUiState>,
    player_inside: Option<bool>,
    place: Option<Place>,
) -> MusicContext {
    if on_title {
        MusicContext::Title
    } else if in_combat(combat) {
        if combat->0.state->0.difficulty >= 6 {
            MusicContext::Boss
        } else {
            MusicContext::Combat
        }
    } else {
        match player_inside {
            None => MusicContext::Silent,
            Some(true) => MusicContext::Interior,
            Some(false) => match place {
                Some(p) => place_context(p),
                None => MusicContext::Silent,
            },
        }
    }
}

/// Determines the music that fits. `player_inside` tells whether the player is
/// in an interior, once they are known; `place` is where they stand, once the
/// world is known.
pub fn determine_context(
    on_title: bool,
    combat: Option<&CombatUiState>,
    player_inside: Option<bool>,
    place: Option<Place>,
) -> (context: MusicContext)
    ensures
        context == desired_context(on_title, combat, player_inside, place),
{
    if on_title {
        return MusicContext::Title;
    }
    if let Some(c) = combat {
        if c.active {
            if let Some(fight) = &c.state {
                return if fight.difficulty >= 6 {
                    MusicContext::Boss
                } else {
                    MusicContext::Combat
                };
            }
        }
    }
    match player_inside {
        None => MusicContext::Silent,
        Some(true) => MusicContext::Interior,
        Some(false) => match place {
            None => MusicContext::Silent,
            Some(p) => {
                match p.poi_type {
                    Some(PoiType::Town) | Some(PoiType::Village) => MusicContext::Village,
                    _ => match p.biome {
                        Biome::Grassland | Biome::Desert => MusicContext::Grassland,
                        Biome::Forest | Biome::DenseForest => MusicContext::Forest,
                        Biome::Mountain | Biome::Snow => MusicContext::Mountain,
                        Biome::Swamp => MusicContext::Swamp,
                        _ => MusicContext::Grassland,
                    },
                }
            },
        },
    }
}

/// Places in the catalog of the tracks filed under a name, in order.
pub open spec fn filed_under(tracks: Seq<TrackDef>, name: Seq<char>) -> Seq<usize>
    decreases tracks.len(),
{
    if tracks.len() == 0 {
        Seq::empty()
    } else {
        let before = filed_under(tracks.drop_last(), name);
        if tracks.last().context@ == name {
            before.push((tracks.len() - 1) as usize)
        } else {
            before
        }
    }
}

/// Tracks that may play in a context. A context without its own borrows those
/// of the grassland, so that the music does not stop there.
pub open spec fn candidates(tracks: Seq<TrackDef>, context: MusicContext) -> Seq<usize> {
    let own = filed_under(tracks, context_name(context));
    if own.len() == 0 {
        filed_under(tracks, "grassland"@)
    } else {
        own
    }
}

/// The tracks of a list whose recommended speed is near the player's.
pub open spec fn near_speed(list: Seq<usize>, in_band: Seq<bool>) -> Seq<usize>
    decreases list.len(),
{
    if list.len() == 0 {
        Seq::empty()
    } else {
        let before = near_speed(list.drop_last(), in_band);
        if list.last() < in_band.len() && in_band[list.last() as int] {
            before.push(list.last())
        } else {
            before
        }
    }
}

/// The tracks of a list other than the one with that id.
pub open spec fn without(tracks: Seq<TrackDef>, list: Seq<usize>, id: Seq<char>) -> Seq<usize>
    decreases list.len(),
{
    if list.len() == 0 {
        Seq::empty()
    } else {
        let before = without(tracks, list.drop_last(), id);
        if tracks[list.last() as int].id@ != id {
            before.push(list.last())
        } else {
            before
        }
    }
}

/// Tracks to choose from: those near the player's speed where there are at
/// least three of them, else all that may play; not the current one where
/// there is another.
pub open spec fn track_pool(
    tracks: Seq<TrackDef>,
    context: MusicContext,
    in_band: Seq<bool>,
    current: Option<Seq<char>>,
) -> Seq<usize> {
    let all = candidates(tracks, context);
    let near = near_speed(all, in_band);
    let pool = if near.len() >= 3 {
        near
    } else {
        all
    };
    match current {
        Some(id) => {
            let others = without(tracks, pool, id);
            if others.len() == 0 {
                pool
            } else {
                others
            }
        },
        None => pool,
    }
}

/// The current track may go on playing in the context.
pub open spec fn still_fits(
    tracks: Seq<TrackDef>,
    context: MusicContext,
    current: Option<Seq<char>>,
) -> bool {
    current matches Some(id) && exists|k: int|
        0 <= k < candidates(tracks, context).len() && tracks[#[trigger] candidates(
            tracks,
            context,
        )[k] as int].id@ == id
}

/// The first track of a list that has the id.
pub open spec fn is_first_with_id(
    tracks: Seq<TrackDef>,
    list: Seq<usize>,
    id: Seq<char>,
    track: usize,
) -> bool {
    exists|k: int|
        0 <= k < list.len() && #[trigger] list[k] == track && tracks[track as int].id@ == id
            && forall|j: int| 0 <= j < k ==> tracks[#[trigger] list[j] as int].id@ != id
}

/// What to play.
#[derive(Debug)]
pub enum TrackChoice {
    /// Nothing.
    Silence,
    /// Go on with the current track, at that place of the catalog.
    Stay(usize),
    /// One of these, by chance.
    OneOf(Vec<usize>),
}

proof fn lemma_filed(tracks: Seq<TrackDef>, name: Seq<char>)
    requires
        tracks.len() <= usize::MAX,
    ensures
        forall|k: int|
            0 <= k < filed_under(tracks, name).len() ==> (#[trigger] filed_under(tracks, name)[k])
                < tracks.len() && tracks[filed_under(tracks, name)[k] as int].context@ == name,
    decreases tracks.len(),
{
    if tracks.len() > 0 {
        let init = tracks.drop_last();
        lemma_filed(init, name);
        let before = filed_under(init, name);
        let after = filed_under(tracks, name);
        assert forall|k: int| 0 <= k < after.len() implies (#[trigger] after[k]) < tracks.len()
            && tracks[after[k] as int].context@ == name by {
            if k < before.len() {
                assert(after[k] == before[k]);
                assert(init[before[k] as int] == tracks[before[k] as int]);
            }
        }
    }
}

fn find_filed(tracks: &Vec<TrackDef>, name: &str) -> (list: Vec<usize>)
    ensures
        list@ == filed_under(tracks@, name@),
{
    let mut list: Vec<usize> = Vec::new();
    let mut i: usize = 0;
    while i < tracks.len()
        invariant
            i <= tracks.len(),
            list@ == filed_under(tracks@.take(i as int), name@),
        decreases tracks.len() - i,
    {
        proof {
            assert(tracks@.take(i + 1).drop_last() =~= tracks@.take(i as int));
            assert(tracks@.take(i + 1).last() == tracks@[i as int]);
        }
        if same_text(tracks[i].context.as_str(), name) {
            list.push(i);
        }
        i = i + 1;
    }
    assert(tracks@.take(i as int) =~= tracks@);
    list
}

fn keep_near(list: &Vec<usize>, in_band: &Vec<bool>) -> (near: Vec<usize>)
    ensures
        near@ == near_speed(list@, in_band@),
{
    let mut near: Vec<usize> = Vec::new();
    let mut i: usize = 0;
    while i < list.len()
        invariant
            i <= list.len(),
            near@ == near_speed(list@.take(i as int), in_band@),
        decreases list.len() - i,
    {
        proof {
            assert(list@.take(i + 1).drop_last() =~= list@.take(i as int));
            assert(list@.take(i + 1).last() == list@[i as int]);
        }
        if list[i] < in_band.len() && in_band[list[i]] {
            near.push(list[i]);
        }
        i = i + 1;
    }
    assert(list@.take(i as int) =~= list@);
    near
}

fn keep_others(tracks: &Vec<TrackDef>, list: &Vec<usize>, id: &str) -> (others: Vec<usize>)
    requires
        forall|k: int| 0 <= k < list.len() ==> #[trigger] list@[k] < tracks.len(),
    ensures
        others@ == without(tracks@, list@, id@),
{
    let mut others: Vec<usize> = Vec::new();
    let mut i: usize = 0;
    while i < list.len()
        invariant
            i <= list.len(),
            forall|k: int| 0 <= k < list.len() ==> #[trigger] list@[k] < tracks.len(),
            others@ == without(tracks@, list@.take(i as int), id@),
        decreases list.len() - i,
    {
        proof {
            assert(list@.take(i + 1).drop_last() =~= list@.take(i as int));
            assert(list@.take(i + 1).last() == list@[i as int]);
        }
        if !same_text(tracks[list[i]].id.as_str(), id) {
            others.push(list[i]);
        }
        i = i + 1;
    }
    assert(list@.take(i as int) =~= list@);
    others
}

proof fn lemma_near_is_within(list: Seq<usize>, in_band: Seq<bool>, bound: int)
    requires
        forall|k: int| 0 <= k < list.len() ==> #[trigger] list[k] < bound,
    ensures
        forall|k: int|
            0 <= k < near_speed(list, in_band).len() ==> #[trigger] near_speed(list, in_band)[k]
                < bound,
    decreases list.len(),
{
    if list.len() > 0 {
        let init = list.drop_last();
        assert forall|k: int| 0 <= k < init.len() implies #[trigger] init[k] < bound by {
            assert(init[k] == list[k]);
        }
        lemma_near_is_within(init, in_band, bound);
        assert(list[list.len() - 1] < bound);
        let before = near_speed(init, in_band);
        let after = near_speed(list, in_band);
        assert forall|k: int| 0 <= k < after.len() implies #[trigger] after[k] < bound by {
            if k < before.len() {
                assert(after[k] == before[k]);
            }
        }
    }
}

fn find_current(tracks: &Vec<TrackDef>, list: &Vec<usize>, id: &str) -> (found: Option<usize>)
    requires
        forall|k: int| 0 <= k < list.len() ==> #[trigger] list@[k] < tracks.len(),
    ensures
        match found {
            Some(t) => {
                &&& t < tracks.len()
                &&& tracks@[t as int].id@ == id@
                &&& is_first_with_id(tracks@, list@, id@, t)
            },
            None => forall|k: int|
                0 <= k < list.len() ==> tracks@[#[trigger] list@[k] as int].id@ != id@,
        },
{
    let mut k: usize = 0;
    while k < list.len()
        invariant
            k <= list.len(),
            forall|k: int| 0 <= k < list.len() ==> #[trigger] list@[k] < tracks.len(),
            forall|j: int| 0 <= j < k ==> tracks@[#[trigger] list@[j] as int].id@ != id@,
        decreases list.len() - k,
    {
        if same_text(tracks[list[k]].id.as_str(), id) {
            return Some(list[k]);
        }
        k = k + 1;
    }
    None
}

/// Picks the music for a context. A track that still fits goes on playing
/// while `stability` is asked for; else one is drawn from a pool, in which
/// speed is a soft preference. `in_band` tells for each track of the catalog
/// whether its recommended speed is near the player's.
pub fn pick_track(
    tracks: &Vec<TrackDef>,
    context: MusicContext,
    in_band: &Vec<bool>,
    current: &Option<String>,
    stability: bool,
) -> (choice: TrackChoice)
    ensures
        context == MusicContext::Silent || candidates(tracks@, context).len() == 0 <==> choice
            is Silence,
        choice matches TrackChoice::Stay(t) ==> {
            &&& stability
            &&& t < tracks.len()
            &&& option_text(*current) == Some(tracks@[t as int].id@)
            &&& is_first_with_id(tracks@, candidates(tracks@, context), tracks@[t as int].id@, t)
        },
        choice matches TrackChoice::OneOf(pool) ==> {
            &&& !(stability && still_fits(tracks@, context, option_text(*current)))
            &&& pool@ == track_pool(tracks@, context, in_band@, option_text(*current))
            &&& pool.len() > 0
        },
{
    proof {
        assert(tracks@.len() == tracks.len());
        lemma_context_names(context);
        lemma_filed(tracks@, context_name(context));
        lemma_filed(tracks@, "grassland"@);
    }
    let name = context.as_str();
    if context == MusicContext::Silent {
        return TrackChoice::Silence;
    }
    let own = find_filed(tracks, name);
    let list: Vec<usize> = if own.len() == 0 && !same_text(name, "grassland") {
        find_filed(tracks, "grassland")
    } else {
        own
    };
    assert(list@ =~= candidates(tracks@, context));
    if list.len() == 0 {
        return TrackChoice::Silence;
    }
    if stability {
        if let Some(id) = current {
            if let Some(t) = find_current(tracks, &list, id.as_str()) {
                return TrackChoice::Stay(t);
            }
        }
    }
    let near = keep_near(&list, in_band);
    proof {
        lemma_near_is_within(list@, in_band@, tracks@.len() as int);
    }
    let pool: Vec<usize> = if near.len() >= 3 {
        near
    } else {
        list
    };
    let filtered: Vec<usize> = match current {
        Some(id) => {
            let others = keep_others(tracks, &pool, id.as_str());
            if others.len() == 0 {
                pool
            } else {
                others
            }
        },
        None => pool,
    };
    TrackChoice::OneOf(filtered)
}

/// Only silence has an empty name.
proof fn lemma_context_names(context: MusicContext)
    ensures
        context_name(context).len() == 0 <==> context == MusicContext::Silent,
{
    reveal_strlit("title");
    reveal_strlit("village");
    reveal_strlit("grassland");
    reveal_strlit("forest");
    reveal_strlit("mountain");
    reveal_strlit("swamp");
    reveal_strlit("interior");
    reveal_strlit("combat");
    reveal_strlit("boss");
    reveal_strlit("victory");
    reveal_strlit("");
}

impl TrackChoice {
    /// The track to play, given the place in the pool that chance drew.
    pub fn draw(&self, drawn: usize) -> (track: Option<usize>)
        ensures
            track == (match *self {
                TrackChoice::Silence => None,
                TrackChoice::Stay(t) => Some(t),
                TrackChoice::OneOf(pool) => if drawn < pool@.len() {
                    Some(pool@[drawn as int])
                } else {
                    None
                },
            }),
    {
        match self {
            TrackChoice::Silence => None,
            TrackChoice::Stay(t) => Some(*t),
            TrackChoice::OneOf(pool) => if drawn < pool.len() {
                Some(pool[drawn])
            } else {
                None
            },
        }
    }
}

/// Every track of the pool may play in the context, and the current one is
/// only drawn again where there is no other.
pub proof fn pool_offers_variety(
    tracks: Seq<TrackDef>,
    context: MusicContext,
    in_band: Seq<bool>,
    current: Seq<char>,
    k: int,
)
    requires
        0 <= k < track_pool(tracks, context, in_band, Some(current)).len(),
        tracks[track_pool(tracks, context, in_band, Some(current))[k] as int].id@ == current,
    ensures
        forall|j: int|
            0 <= j < track_pool(tracks, context, in_band, Some(current)).len()
                ==> tracks[#[trigger] track_pool(tracks, context, in_band, Some(current))[j]
                as int].id@ == current,
{
    let all = candidates(tracks, context);
    let near = near_speed(all, in_band);
    let pool = if near.len() >= 3 {
        near
    } else {
        all
    };
    lemma_without(tracks, pool, current);
}

proof fn lemma_without(tracks: Seq<TrackDef>, list: Seq<usize>, id: Seq<char>)
    ensures
        forall|k: int|
            0 <= k < without(tracks, list, id).len() ==> tracks[#[trigger] without(
                tracks,
                list,
                id,
            )[k] as int].id@ != id,
        without(tracks, list, id).len() == 0 ==> forall|k: int|
            0 <= k < list.len() ==> tracks[#[trigger] list[k] as int].id@ == id,
    decreases list.len(),
{
    if list.len() > 0 {
        let init = list.drop_last();
        lemma_without(tracks, init, id);
        if without(tracks, list, id).len() == 0 {
            assert forall|k: int| 0 <= k < list.len() implies tracks[#[trigger] list[k] as int].id@
                == id by {
                if k < init.len() {
                    assert(init[k] == list[k]);
                }
            }
        }
    }
}

/// What plays, on which of the two channels, and whether the player wants it.
#[derive(Debug)]
pub struct MusicState {
    /// Id of the track that plays.
    pub current_track: Option<String>,
    pub current_context: MusicContext,
    /// Which channel is active (true = A, false = B).
    pub active_is_a: bool,
    /// Whether one channel is being faded over into the other.
    pub fading: bool,
    /// Music enabled by the player.
    pub enabled: bool,
    /// The player has started the music: browsers play nothing before.
    pub user_activated: bool,
}

impl Default for MusicState {
    fn default() -> (music: MusicState)
        ensures
            music.current_track is None,
            music.current_context == MusicContext::Silent,
            music.active_is_a,
            !music.fading,
            music.enabled,
            !music.user_activated,
    {
        MusicState {
            current_track: None,
            current_context: MusicContext::Silent,
            active_is_a: true,
            fading: false,
            enabled: true,
            user_activated: false,
        }
    }
}

/// What to do about the music.
#[derive(Debug, Clone, Copy, PartialEq, Eq, Structural)]
pub enum MusicStep {
    Keep,
    /// Start the track at that place of the catalog, on channel A or B.
    Start { track: usize, on_a: bool },
    /// Fade to silence.
    FadeOut,
}

/// Id of the track that is wanted.
pub open spec fn wanted_id(tracks: Seq<TrackDef>, desired: Option<usize>) -> Option<Seq<char>> {
    match desired {
        Some(t) => Some(tracks[t as int].id@),
        None => None,
    }
}

/// The change of music that is due: to another track than the one that plays,
/// and not before the last change has lasted a while. A new track starts on
/// the channel that is not active.
pub open spec fn next_step(
    music: MusicState,
    tracks: Seq<TrackDef>,
    desired: Option<usize>,
    cooldown_over: bool,
) -> MusicStep {
    if !cooldown_over || wanted_id(tracks, desired) == option_text(music.current_track) {
        MusicStep::Keep
    } else {
        match desired {
            Some(t) => MusicStep::Start { track: t, on_a: !music.active_is_a },
            None => MusicStep::FadeOut,
        }
    }
}

/// The state after the key or the button for music.
pub open spec fn after_toggle(music: MusicState) -> MusicState {
    MusicState {
        enabled: !music.user_activated || !music.enabled,
        user_activated: true,
        ..music
    }
}

/// What the music button says.
pub open spec fn button_text(music: MusicState) -> Seq<char> {
    if !music.user_activated {
        "[M]usic"@
    } else if music.enabled {
        "[M] On"@
    } else {
        "[M] Off"@
    }
}

/// What the volume indicator says.
pub open spec fn volume_text(music: MusicState, percent: nat) -> Seq<char> {
    if !music.enabled {
        "Music: OFF"@
    } else {
        "Vol: "@ + decimal_text(percent) + "%"@
    }
}

/// The state once a fade is complete: the other channel is active.
pub open spec fn after_fade(music: MusicState) -> MusicState {
    MusicState { fading: false, active_is_a: !music.active_is_a, ..music }
}

impl MusicState {
    /// Whether music plays at all.
    pub fn is_on(&self, tracks: &Vec<TrackDef>) -> (on: bool)
        ensures
            on == (self.enabled && self.user_activated && tracks@.len() > 0),
    {
        self.enabled && self.user_activated && tracks.len() > 0
    }

    /// Decides whether to change the music.
    pub fn update_music(
        &self,
        tracks: &Vec<TrackDef>,
        desired: Option<usize>,
        cooldown_over: bool,
    ) -> (step: MusicStep)
        requires
            desired matches Some(t) ==> t < tracks.len(),
        ensures
            step == next_step(*self, tracks@, desired, cooldown_over),
    {
        let same: bool = match desired {
            Some(t) => is_text(&self.current_track, tracks[t].id.as_str()),
            None => self.current_track.is_none(),
        };
        if same || !cooldown_over {
            return MusicStep::Keep;
        }
        match desired {
            Some(t) => MusicStep::Start { track: t, on_a: !self.active_is_a },
            None => MusicStep::FadeOut,
        }
    }

    /// A new track has started and is faded in.
    pub fn started(&mut self, track_id: &str, context: MusicContext)
        ensures
            final(self).fading,
            option_text(final(self).current_track) == Some(track_id@),
            final(self).current_context == context,
            final(self).active_is_a == old(self).active_is_a,
            final(self).enabled == old(self).enabled,
            final(self).user_activated == old(self).user_activated,
    {
        self.fading = true;
        self.current_track = Some(String::from_str(track_id));
        self.current_context = context;
    }

    /// The music is faded to silence.
    pub fn fade_out(&mut self)
        ensures
            *final(self) == (MusicState {
                fading: true,
                current_track: None,
                current_context: MusicContext::Silent,
                ..*old(self)
            }),
    {
        self.fading = true;
        self.current_track = None;
        self.current_context = MusicContext::Silent;
    }

    /// The fade is complete: the other channel is active now. Tells whether
    /// the old channel, which is stopped, is A.
    pub fn fade_complete(&mut self) -> (stop_a: bool)
        ensures
            *final(self) == after_fade(*old(self)),
            stop_a == old(self).active_is_a,
    {
        self.fading = false;
        self.active_is_a = !self.active_is_a;
        !self.active_is_a
    }

    /// The key or the button for music was pressed: the first time starts it,
    /// then it is switched off and on. Tells whether both channels go silent.
    pub fn toggle(&mut self) -> (mute: bool)
        ensures
            *final(self) == after_toggle(*old(self)),
            mute == !final(self).enabled,
    {
        if !self.user_activated {
            self.user_activated = true;
            self.enabled = true;
        } else {
            self.enabled = !self.enabled;
        }
        !self.enabled
    }

    /// What the music button says.
    pub fn button_label(&self) -> (label: &'static str)
        ensures
            label@ == button_text(*self),
    {
        if !self.user_activated {
            "[M]usic"
        } else if self.enabled {
            "[M] On"
        } else {
            "[M] Off"
        }
    }

    /// What the volume indicator says.
    pub fn volume_label(&self, percent: u32) -> (label: String)
        ensures
            label@ == volume_text(*self, percent as nat),
    {
        if !self.enabled {
            return String::from_str("Music: OFF");
        }
        let mut label = String::from_str("Vol: ");
        append_decimal(&mut label, percent as u64);
        label.append("%");
        label
    }
}

/// A track starts on the channel that is active once the fade is over, never
/// on the one that plays until then and is stopped.
pub proof fn started_channel_becomes_active(
    music: MusicState,
    tracks: Seq<TrackDef>,
    desired: Option<usize>,
    cooldown_over: bool,
)
    requires
        next_step(music, tracks, desired, cooldown_over) is Start,
    ensures
        after_fade(music).active_is_a == next_step(music, tracks, desired, cooldown_over)->on_a,
        music.active_is_a != next_step(music, tracks, desired, cooldown_over)->on_a,
{
}

/// While the track that is wanted plays, the music is left alone.
pub proof fn wanted_track_plays_on(
    music: MusicState,
    tracks: Seq<TrackDef>,
    desired: Option<usize>,
    cooldown_over: bool,
)
    requires
        wanted_id(tracks, desired) == option_text(music.current_track),
    ensures
        next_step(music, tracks, desired, cooldown_over) == MusicStep::Keep,
{
}

/// Place of the last slash of a text.
pub open spec fn last_slash(text: Seq<char>) -> Option<int>
    decreases text.len(),
{
    if text.len() == 0 {
        None
    } else if text.last() == '/' {
        Some(text.len() - 1)
    } else {
        last_slash(text.drop_last())
    }
}

/// The directory of the music files, for a page of that address.
pub open spec fn base_of(href: Option<Seq<char>>) -> Seq<char> {
    match href {
        Some(page) => match last_slash(page) {
            Some(at) => page.take(at) + "/assets/music/"@,
            None => "assets/music/"@,
        },
        None => "assets/music/"@,
    }
}

/// Where the music files are: beside the page, else relative to it.
pub fn music_base_url(href: Option<&str>) -> (url: String)
    ensures
        url@ == base_of(match href {
            Some(page) => Some(page@),
            None => None,
        }),
{
    if let Some(page) = href {
        let chars = to_chars(page);
        let mut end: usize = chars.len();
        assert(page@.take(end as int) =~= page@);
        while end > 0
            invariant
                end <= chars.len(),
                chars@ == page@,
                href == Some(page),
                last_slash(page@) == last_slash(page@.take(end as int)),
            decreases end,
        {
            assert(page@.take(end as int).last() == page@[end - 1]);
            assert(page@.take(end as int).drop_last() =~= page@.take(end - 1));
            if chars[end - 1] == '/' {
                let mut url = crate::text::take_chars(page, end - 1);
                url.append("/assets/music/");
                return url;
            }
            end = end - 1;
        }
    }
    String::from_str("assets/music/")
}

/// Address of a track's file.
pub fn track_url(base: &str, track: &TrackDef) -> (url: String)
    ensures
        url@ == base@ + track.file@,
{
    let mut url = String::from_str(base);
    url.append(track.file.as_str());
    url
}

/// The name under which the tracks of each context are filed.
pub proof fn names_of_the_contexts(context: MusicContext)
    ensures
        context == MusicContext::Title ==> context_name(context) == "title"@,
        context == MusicContext::Village ==> context_name(context) == "village"@,
        context == MusicContext::Grassland ==> context_name(context) == "grassland"@,
        context == MusicContext::Forest ==> context_name(context) == "forest"@,
        context == MusicContext::Mountain ==> context_name(context) == "mountain"@,
        context == MusicContext::Swamp ==> context_name(context) == "swamp"@,
        context == MusicContext::Interior ==> context_name(context) == "interior"@,
        context == MusicContext::Combat ==> context_name(context) == "combat"@,
        context == MusicContext::Boss ==> context_name(context) == "boss"@,
        context == MusicContext::Victory ==> context_name(context) == "victory"@,
        context_name(context).len() == 0 <==> context == MusicContext::Silent,
{
    lemma_context_names(context);
}

/// Towns and villages have music of their own whatever lies around them;
/// elsewhere the biome decides, and deserts and all other open land sound like
/// grassland.
pub proof fn music_of_a_place(place: Place)
    ensures
        ({
            let context = place_context(place);
            let settled = place.poi_type == Some(PoiType::Town) || place.poi_type == Some(
                PoiType::Village,
            );
            &&& context == MusicContext::Village <==> settled
            &&& context == MusicContext::Forest <==> !settled && (place.biome == Biome::Forest
                || place.biome == Biome::DenseForest)
            &&& context == MusicContext::Mountain <==> !settled && (place.biome == Biome::Mountain
                || place.biome == Biome::Snow)
            &&& context == MusicContext::Swamp <==> !settled && place.biome == Biome::Swamp
            &&& !settled && context != MusicContext::Forest && context != MusicContext::Mountain
                && context != MusicContext::Swamp ==> context == MusicContext::Grassland
        }),
{
}

/// The title screen comes first, then a fight, then an interior, then the
/// place; nothing plays while the player or the world is not known.
pub proof fn what_sets_the_music(
    combat: Option<&CombatUiState>,
    inside: Option<bool>,
    place: Option<Place>,
)
    ensures
        desired_context(true, combat, inside, place) == MusicContext::Title,
        combat matches Some(c) && c.active && (c.state matches Some(cs) && cs.difficulty >= 6)
            ==> desired_context(false, combat, inside, place) == MusicContext::Boss,
        combat matches Some(c) && c.active && (c.state matches Some(cs) && cs.difficulty < 6)
            ==> desired_context(false, combat, inside, place) == MusicContext::Combat,
        combat is None || (combat matches Some(c) && (!c.active || c.state is None)) ==> {
            let context = desired_context(false, combat, inside, place);
            &&& inside is None ==> context == MusicContext::Silent
            &&& inside == Some(true) ==> context == MusicContext::Interior
            &&& inside == Some(false) && place is None ==> context == MusicContext::Silent
            &&& inside == Some(false) ==> (place matches Some(p) ==> context == place_context(p))
        },
{
}

/// One more track of the catalog is added to those filed under its own context
/// and to no others.
pub proof fn tracks_are_filed_by_context(tracks: Seq<TrackDef>, track: TrackDef, name: Seq<char>)
    requires
        tracks.len() <= usize::MAX,
    ensures
        filed_under(Seq::empty(), name).len() == 0,
        track.context@ == name ==> filed_under(tracks.push(track), name) == filed_under(
            tracks,
            name,
        ).push(tracks.len() as usize),
        track.context@ != name ==> filed_under(tracks.push(track), name) == filed_under(
            tracks,
            name,
        ),
{
    assert(tracks.push(track).drop_last() =~= tracks);
    assert(tracks.push(track).last() == track);
}

/// What may play in a context is filed under it; only where nothing is, the
/// music of the grassland plays.
pub proof fn contexts_play_their_own(tracks: Seq<TrackDef>, context: MusicContext, k: int)
    requires
        tracks.len() <= usize::MAX,
        0 <= k < candidates(tracks, context).len(),
    ensures
        ({
            let t = candidates(tracks, context)[k] as int;
            let own = filed_under(tracks, context_name(context)).len() > 0;
            &&& 0 <= t < tracks.len()
            &&& own ==> tracks[t].context@ == context_name(context)
            &&& !own ==> tracks[t].context@ == "grassland"@
        }),
{
    lemma_filed(tracks, context_name(context));
    lemma_filed(tracks, "grassland"@);
}

/// The tracks near the player's speed are those of the list that are marked,
/// in the same order; the tracks besides one are all the others.
pub proof fn tracks_are_left_out_one_by_one(
    tracks: Seq<TrackDef>,
    list: Seq<usize>,
    track: usize,
    in_band: Seq<bool>,
    id: Seq<char>,
)
    ensures
        near_speed(Seq::empty(), in_band).len() == 0,
        track < in_band.len() && in_band[track as int] ==> near_speed(list.push(track), in_band)
            == near_speed(list, in_band).push(track),
        !(track < in_band.len() && in_band[track as int]) ==> near_speed(list.push(track), in_band)
            == near_speed(list, in_band),
        without(tracks, Seq::empty(), id).len() == 0,
        tracks[track as int].id@ == id ==> without(tracks, list.push(track), id) == without(
            tracks,
            list,
            id,
        ),
        tracks[track as int].id@ != id ==> without(tracks, list.push(track), id) == without(
            tracks,
            list,
            id,
        ).push(track),
{
    assert(list.push(track).drop_last() =~= list);
    assert(list.push(track).last() == track);
}

/// The speed only counts where three tracks or more are near it, and the track
/// that plays is left out where another one is left.
pub proof fn speed_is_a_soft_preference(
    tracks: Seq<TrackDef>,
    context: MusicContext,
    in_band: Seq<bool>,
    id: Seq<char>,
)
    ensures
        ({
            let all = candidates(tracks, context);
            let near = near_speed(all, in_band);
            &&& near.len() < 3 ==> track_pool(tracks, context, in_band, None) == all
            &&& near.len() >= 3 ==> track_pool(tracks, context, in_band, None) == near
            &&& ({
                let pool = track_pool(tracks, context, in_band, None);
                let others = without(tracks, pool, id);
                let drawn = track_pool(tracks, context, in_band, Some(id));
                &&& others.len() > 0 ==> drawn == others
                &&& others.len() == 0 ==> drawn == pool
            })
        }),
{
}

/// The music changes when another track is wanted than the one that plays, and
/// only once the last change has lasted a while.
pub proof fn when_the_music_changes(
    music: MusicState,
    tracks: Seq<TrackDef>,
    desired: Option<usize>,
)
    ensures
        next_step(music, tracks, desired, false) == MusicStep::Keep,
        desired is None && music.current_track is None ==> next_step(music, tracks, desired, true)
            == MusicStep::Keep,
        desired is None && music.current_track is Some ==> next_step(music, tracks, desired, true)
            == MusicStep::FadeOut,
        desired matches Some(t) ==> {
            let same = music.current_track matches Some(id) && id@ == tracks[t as int].id@;
            &&& same ==> next_step(music, tracks, desired, true) == MusicStep::Keep
            &&& !same ==> next_step(music, tracks, desired, true) == (MusicStep::Start {
                track: t,
                on_a: !music.active_is_a,
            })
        },
{
}

/// The first press starts the music, every further one switches it; nothing
/// else of what plays is touched, and neither by the end of a fade but for the
/// active channel.
pub proof fn presses_switch_the_music(music: MusicState)
    ensures
        ({
            let after = after_toggle(music);
            &&& after.user_activated
            &&& !music.user_activated ==> after.enabled
            &&& music.user_activated ==> after.enabled == !music.enabled
            &&& after.current_track == music.current_track && after.current_context
                == music.current_context && after.active_is_a == music.active_is_a && after.fading
                == music.fading
            &&& music.user_activated ==> after_toggle(after) == music
        }),
        ({
            let after = after_fade(music);
            &&& !after.fading && after.active_is_a == !music.active_is_a
            &&& after.current_track == music.current_track && after.current_context
                == music.current_context && after.enabled == music.enabled && after.user_activated
                == music.user_activated
        }),
{
}

/// The button tells whether the music was started and whether it is on; the
/// indicator shows the volume only while it is on.
pub proof fn labels_of_the_music(music: MusicState, percent: nat)
    ensures
        !music.user_activated ==> button_text(music) == "[M]usic"@,
        music.user_activated && music.enabled ==> button_text(music) == "[M] On"@,
        music.user_activated && !music.enabled ==> button_text(music) == "[M] Off"@,
        music.enabled ==> volume_text(music, percent) == "Vol: "@ + decimal_text(percent) + "%"@,
        !music.enabled ==> volume_text(music, percent) == "Music: OFF"@,
{
}

/// The music lies beside the page: whatever follows the last slash of the
/// page's address is replaced.
pub proof fn music_lies_beside_the_page(directory: Seq<char>, file: Seq<char>)
    requires
        !file.contains('/'),
    ensures
        base_of(Some(directory + seq!['/'] + file)) == directory + "/assets/music/"@,
        base_of(Some(file)) == "assets/music/"@,
        base_of(None) == "assets/music/"@,
{
    lemma_last_slash(directory, file);
    lemma_no_slash(file);
    assert((directory + seq!['/'] + file).take(directory.len() as int) =~= directory);
}

proof fn lemma_no_slash(text: Seq<char>)
    requires
        !text.contains('/'),
    ensures
        last_slash(text) is None,
    decreases text.len(),
{
    if text.len() > 0 {
        assert(text[text.len() - 1] == text.last());
        assert forall|i: int| 0 <= i < text.drop_last().len() implies text.drop_last()[i]
            != '/' by {
            assert(text.contains(text[i]));
        }
        lemma_no_slash(text.drop_last());
    }
}

proof fn lemma_last_slash(directory: Seq<char>, file: Seq<char>)
    requires
        !file.contains('/'),
    ensures
        last_slash(directory + seq!['/'] + file) == Some(directory.len() as int),
    decreases file.len(),
{
    let whole = directory + seq!['/'] + file;
    if file.len() > 0 {
        assert(file.contains(file.last()));
        assert(whole.last() == file.last());
        assert(whole.drop_last() =~= directory + seq!['/'] + file.drop_last());
        assert forall|i: int| 0 <= i < file.drop_last().len() implies file.drop_last()[i]
            != '/' by {
            assert(file.contains(file[i]));
        }
        lemma_last_slash(directory, file.drop_last());
    } else {
        assert(whole.last() == '/');
    }
}

proof fn lemma_is_filed(tracks: Seq<TrackDef>, name: Seq<char>, t: int)
    requires
        tracks.len() <= usize::MAX,
        0 <= t < tracks.len(),
        tracks[t].context@ == name,
    ensures
        exists|k: int|
            0 <= k < filed_under(tracks, name).len() && #[trigger] filed_under(tracks, name)[k]
                == t,
    decreases tracks.len(),
{
    let before = filed_under(tracks.drop_last(), name);
    let all = filed_under(tracks, name);
    if t == tracks.len() - 1 {
        assert(all[all.len() - 1] == t);
    } else {
        assert(tracks.drop_last()[t] == tracks[t]);
        lemma_is_filed(tracks.drop_last(), name, t);
        let k = choose|k: int| 0 <= k < before.len() && #[trigger] before[k] == t;
        assert(all[k] == before[k]);
    }
}

/// A track of the context may go on playing, and nothing that is not among the
/// candidates may.
pub proof fn tracks_of_the_context_go_on(
    tracks: Seq<TrackDef>,
    context: MusicContext,
    t: int,
    current: Option<Seq<char>>,
)
    requires
        tracks.len() <= usize::MAX,
        0 <= t < tracks.len(),
        tracks[t].context@ == context_name(context),
    ensures
        still_fits(tracks, context, Some(tracks[t].id@)),
        !still_fits(tracks, context, None),
        still_fits(tracks, context, current) ==> exists|k: int|
            0 <= k < candidates(tracks, context).len() && current == Some(
                tracks[#[trigger] candidates(tracks, context)[k] as int].id@,
            ),
        filed_under(tracks, context_name(context)).contains(t as usize),
{
    lemma_is_filed(tracks, context_name(context), t);
    let filed = filed_under(tracks, context_name(context));
    let k = choose|k: int| 0 <= k < filed.len() && #[trigger] filed[k] == t;
    assert(candidates(tracks, context)[k] == t);
}

/// The track that goes on is one of the list and has the id, and no track
/// before it in the list has.
pub proof fn first_tracks_go_on(
    tracks: Seq<TrackDef>,
    list: Seq<usize>,
    id: Seq<char>,
    track: usize,
)
    requires
        is_first_with_id(tracks, list, id, track),
    ensures
        tracks[track as int].id@ == id,
        list.contains(track),
        exists|k: int|
            0 <= k < list.len() && #[trigger] list[k] == track && forall|j: int|
                0 <= j < k ==> tracks[#[trigger] list[j] as int].id@ != id,
{
}

} // verus!
