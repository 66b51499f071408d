//! Level flow: which level is selected, the level card shown between levels, the level select
//! menu and pausing.
use crate::event_scheduler::EventScheduler;
use crate::nine_slice::{
    generate_nineslice_image, nine_slice_data, nine_slice_fits, nine_slice_height,
    nine_slice_rects, nine_slice_width, picked_slices, texture_atlas_from_nine_slice, ImageData,
    NineSliceImage, NineSliceIndex, NineSliceSize, URect, UVec2,
};
use crate::timer::{fresh_timer, FrameTimer};
use crate::GameState;
use vstd::prelude::*;

verus! {

/// Which level of the project is (or should be) loaded.
#[derive(Debug, PartialEq, Eq)]
pub enum LevelSelection {
    /// The level with this identifier.
    Identifier(String),
    /// The level at this index, counting from zero.
    Index(usize),
}

impl Clone for LevelSelection {
    fn clone(&self) -> (r: LevelSelection)
        ensures
            r == *self,
    {
        match self {
            LevelSelection::Identifier(s) => LevelSelection::Identifier(s.clone()),
            LevelSelection::Index(i) => LevelSelection::Index(*i),
        }
    }
}

impl LevelSelection {
    /// The level at index `i`, counting from zero.
    pub fn index(i: usize) -> (s: LevelSelection)
        ensures
            s == LevelSelection::Index(i),
    {
        LevelSelection::Index(i)
    }
}

/// The level a level transition goes to.
#[derive(Debug, PartialEq, Eq)]
pub struct TransitionTo(pub LevelSelection);

/// Stages of the level card's rise and fall between levels.
#[derive(Copy, Clone, Debug, PartialEq, Eq, Hash, Structural)]
pub enum LevelCardEvent {
    /// The card covers the screen: the next level can be loaded behind it.
    Block,
    /// The card starts falling away.
    Fall,
    /// The card is off screen and goes away.
    Despawn,
}

/// When the level card covers the screen, in nanoseconds after it appears.
pub const LEVEL_CARD_BLOCK_AT: u64 = 1_500_000_000;

/// When the level card starts falling, in nanoseconds after it appears.
pub const LEVEL_CARD_FALL_AT: u64 = 3_000_000_000;

/// When the level card goes away, in nanoseconds after it appears.
pub const LEVEL_CARD_DESPAWN_AT: u64 = 4_500_000_000;

/// How long a level select card takes to fall off screen, in nanoseconds.
pub const LEVEL_SELECT_FALL_TIME: u64 = 1_000_000_000;

/// Schedules the stages of the level card: it blocks the screen after 1.5 s, falls after 3 s
/// and goes away after 4.5 s.
pub fn schedule_level_card(level_card_events: &mut EventScheduler<LevelCardEvent>)
    ensures
        final(level_card_events).events@ == old(level_card_events).events@ + seq![
            (LevelCardEvent::Block, fresh_timer(LEVEL_CARD_BLOCK_AT, false)),
            (LevelCardEvent::Fall, fresh_timer(LEVEL_CARD_FALL_AT, false)),
            (LevelCardEvent::Despawn, fresh_timer(LEVEL_CARD_DESPAWN_AT, false)),
        ],
{
    level_card_events.schedule(LevelCardEvent::Block, LEVEL_CARD_BLOCK_AT);
    level_card_events.schedule(LevelCardEvent::Fall, LEVEL_CARD_FALL_AT);
    level_card_events.schedule(LevelCardEvent::Despawn, LEVEL_CARD_DESPAWN_AT);
    assert(level_card_events.events@ =~= old(level_card_events).events@ + seq![
        (LevelCardEvent::Block, fresh_timer(LEVEL_CARD_BLOCK_AT, false)),
        (LevelCardEvent::Fall, fresh_timer(LEVEL_CARD_FALL_AT, false)),
        (LevelCardEvent::Despawn, fresh_timer(LEVEL_CARD_DESPAWN_AT, false)),
    ]);
}

/// What the level card shows of the level being entered: its number and its title.
#[derive(Clone, Debug, PartialEq, Eq)]
pub struct LevelInfo {
    pub number: usize,
    pub title: String,
}

/// The level card: its nine-slice texture, the level's number (none after the last level) and
/// the title.
#[derive(Clone, Debug, PartialEq, Eq)]
pub struct LevelCard {
    pub texture: NineSliceImage,
    pub number: Option<usize>,
    pub title: String,
}

/// The title shown when there is no level left.
pub open spec fn credits_title() -> Seq<char> {
    "Thank you for playing!\n\nMade by Trevor Lovell and Gabe Machado\n\nWayfarer's Toy Box font by Chequered Ink"@
}

/// Size in pixels of the tarot card sprite the level card is cut from.
pub const TAROT_SIZE: u32 = 64;

/// Width in pixels of the tarot card's border.
pub const TAROT_BORDER: u32 = 16;

/// The nine slices of the tarot card sprite.
pub open spec fn tarot_slices() -> Seq<URect> {
    nine_slice_rects(
        UVec2 { x: TAROT_SIZE, y: TAROT_SIZE },
        TAROT_BORDER,
        TAROT_BORDER,
        TAROT_BORDER,
        TAROT_BORDER,
    )
}

/// The level card's size in inner tiles.
pub open spec fn level_card_size() -> NineSliceSize {
    NineSliceSize { inner_width: 8, inner_height: 4 }
}

/// Builds the level card shown while entering `level` (none after the last level): the tarot
/// card sprite reassembled at eight by four inner tiles, the level's number and title, or the
/// credits. The card's stages are scheduled only when there is a level to enter.
pub fn spawn_level_card(
    level: Option<LevelInfo>,
    tarot_sheet: &ImageData,
    level_card_events: &mut EventScheduler<LevelCardEvent>,
) -> (card: LevelCard)
    requires
        nine_slice_fits(level_card_size(), tarot_slices(), *tarot_sheet),
    ensures
        card.texture.width == nine_slice_width(level_card_size(), tarot_slices()),
        card.texture.height == nine_slice_height(level_card_size(), tarot_slices()),
        card.texture.data@ == nine_slice_data(level_card_size(), tarot_slices(), *tarot_sheet),
        card.number == (match level {
            Some(l) => Some(l.number),
            None => None,
        }),
        card.title@ == (match level {
            Some(l) => l.title@,
            None => credits_title(),
        }),
        level is Some ==> final(level_card_events).events@ == old(level_card_events).events@ + seq![
            (LevelCardEvent::Block, fresh_timer(LEVEL_CARD_BLOCK_AT, false)),
            (LevelCardEvent::Fall, fresh_timer(LEVEL_CARD_FALL_AT, false)),
            (LevelCardEvent::Despawn, fresh_timer(LEVEL_CARD_DESPAWN_AT, false)),
        ],
        level is None ==> final(level_card_events).events@ == old(level_card_events).events@,
{
    let level_card_atlas = texture_atlas_from_nine_slice(
        UVec2::splat(TAROT_SIZE),
        TAROT_BORDER,
        TAROT_BORDER,
        TAROT_BORDER,
        TAROT_BORDER,
    );
    let index = NineSliceIndex::default();
    assert(picked_slices(level_card_atlas.textures@, index) =~= tarot_slices());
    let texture = match generate_nineslice_image(
        NineSliceSize { inner_width: 8, inner_height: 4 },
        index,
        &level_card_atlas,
        Some(tarot_sheet),
    ) {
        Ok(texture) => texture,
        Err(_) => {
            assert(false);
            NineSliceImage { width: 0, height: 0, format: 0, pixel_size: 0, data: Vec::new() }
        },
    };
    let (number, title) = match level {
        Some(l) => (Some(l.number), l.title),
        None => {
            proof {
                reveal_strlit(
                    "Thank you for playing!\n\nMade by Trevor Lovell and Gabe Machado\n\nWayfarer's Toy Box font by Chequered Ink",
                );
            }
            (
                None,
                "Thank you for playing!\n\nMade by Trevor Lovell and Gabe Machado\n\nWayfarer's Toy Box font by Chequered Ink".to_owned(),
            )
        },
    };
    if number.is_some() {
        schedule_level_card(level_card_events);
    }
    LevelCard { texture, number, title }
}

/// What entering a level card stage does to the level being played.
///
/// On the first `Block` the level world is spawned behind the card; on later ones the level
/// selection moves on to `transition_to`. Returns whether the world is to be spawned.
pub fn load_next_level(
    events: &Vec<LevelCardEvent>,
    first_card_skipped: &mut bool,
    level_selection: &mut LevelSelection,
    transition_to: &TransitionTo,
) -> (spawn_world: bool)
    ensures
        spawn_world == spawns_world(*old(first_card_skipped), events@),
        *final(first_card_skipped) == card_skipped_after(*old(first_card_skipped), events@),
        *final(level_selection) == (if block_after_skip(*old(first_card_skipped), events@) {
            transition_to.0
        } else {
            *old(level_selection)
        }),
{
    let mut spawn_world = false;
    let mut i: usize = 0;
    let ghost skipped0 = *first_card_skipped;
    let ghost selection0 = *level_selection;
    while i < events.len()
        invariant
            0 <= i <= events.len(),
            spawn_world == (!skipped0 && events@.subrange(0, i as int).contains(
                LevelCardEvent::Block,
            )),
            *first_card_skipped == (skipped0 || events@.subrange(0, i as int).contains(
                LevelCardEvent::Block,
            )),
            *level_selection == (if block_after_skip(skipped0, events@.subrange(0, i as int)) {
                transition_to.0
            } else {
                selection0
            }),
        decreases events.len() - i,
    {
        proof {
            let pre = events@.subrange(0, i + 1);
            assert(pre.drop_last() =~= events@.subrange(0, i as int));
            assert(pre.last() == events@[i as int]);
            assert(pre.contains(LevelCardEvent::Block) == (events@.subrange(0, i as int).contains(
                LevelCardEvent::Block,
            ) || events@[i as int] == LevelCardEvent::Block)) by {
                if events@[i as int] == LevelCardEvent::Block {
                    assert(pre[i as int] == LevelCardEvent::Block);
                }
                if events@.subrange(0, i as int).contains(LevelCardEvent::Block) {
                    let j = choose|j: int|
                        0 <= j < i && events@.subrange(0, i as int)[j] == LevelCardEvent::Block;
                    assert(pre[j] == LevelCardEvent::Block);
                }
            }
        }
        if let LevelCardEvent::Block = events[i] {
            if *first_card_skipped {
                *level_selection = transition_to.0.clone();
            } else {
                spawn_world = true;
                *first_card_skipped = true;
            }
        }
        i = i + 1;
    }
    assert(events@.subrange(0, i as int) =~= events@);
    spawn_world
}

/// Whether some `Block` of `events` comes when the first card was already skipped: after an
/// earlier `Block`, or at all when `skipped` already holds.
pub open spec fn block_after_skip(skipped: bool, events: Seq<LevelCardEvent>) -> bool
    decreases events.len(),
{
    if events.len() == 0 {
        false
    } else {
        let rest = events.drop_last();
        block_after_skip(skipped, rest) || (events.last() == LevelCardEvent::Block && (skipped
            || rest.contains(LevelCardEvent::Block)))
    }
}

/// What a level card stage does to the cards on screen.
#[derive(Clone, Debug, PartialEq, Eq)]
pub struct LevelCardUpdate {
    /// Cards that start falling away.
    pub falling: Vec<u64>,
    /// Cards that go away.
    pub despawned: Vec<u64>,
    /// The state the game goes to.
    pub next_state: Option<GameState>,
}

/// On `Fall` every card falls away and the game goes to the graveyard; on `Despawn` every card
/// goes away; `Block` changes nothing.
pub fn level_card_update(event: LevelCardEvent, cards: &Vec<u64>) -> (r: LevelCardUpdate)
    ensures
        r.falling@ == (if event == LevelCardEvent::Fall {
            cards@
        } else {
            Seq::<u64>::empty()
        }),
        r.despawned@ == (if event == LevelCardEvent::Despawn {
            cards@
        } else {
            Seq::<u64>::empty()
        }),
        r.next_state == (if event == LevelCardEvent::Fall && cards.len() > 0 {
            Some(GameState::Graveyard)
        } else {
            None
        }),
{
    match event {
        LevelCardEvent::Fall => {
            let next_state = if cards.len() > 0 {
                Some(GameState::Graveyard)
            } else {
                None
            };
            LevelCardUpdate { falling: cards.clone(), despawned: Vec::new(), next_state }
        },
        LevelCardEvent::Despawn => LevelCardUpdate {
            falling: Vec::new(),
            despawned: cards.clone(),
            next_state: None,
        },
        LevelCardEvent::Block => LevelCardUpdate {
            falling: Vec::new(),
            despawned: Vec::new(),
            next_state: None,
        },
    }
}

/// Stages of the level select card.
#[derive(Copy, Clone, Debug, PartialEq, Eq, Hash, Structural)]
pub enum LevelSelectCardEvent {
    /// The card entity was spawned.
    Spawned(u64),
    /// The card entity started falling away.
    Falling(u64),
    /// The card entity fell off screen and goes away.
    Offscreen(u64),
}

/// What a level select button does.
#[derive(Clone, Debug, PartialEq, Eq)]
pub enum LevelSelectAction {
    GoToLevel(LevelSelection),
}

/// The level select card's buttons: one per level after the first, numbered by the level's
/// index, each going to its level.
pub fn level_select_buttons(level_count: usize) -> (buttons: Vec<(usize, LevelSelectAction)>)
    ensures
        buttons.len() == (if level_count > 0 {
            level_count - 1
        } else {
            0
        }),
        forall|k: int|
            0 <= k < buttons.len() ==> #[trigger] buttons[k] == (
                (k + 1) as usize,
                LevelSelectAction::GoToLevel(LevelSelection::Index((k + 1) as usize)),
            ),
{
    let mut buttons: Vec<(usize, LevelSelectAction)> = Vec::new();
    let mut i: usize = 1;
    while i < level_count
        invariant
            1 <= i,
            level_count > 0 ==> i <= level_count,
            level_count == 0 ==> i == 1,
            buttons.len() == i - 1,
            forall|k: int|
                0 <= k < buttons.len() ==> #[trigger] buttons[k] == (
                    (k + 1) as usize,
                    LevelSelectAction::GoToLevel(LevelSelection::Index((k + 1) as usize)),
                ),
        decreases level_count - i,
    {
        buttons.push((i, LevelSelectAction::GoToLevel(LevelSelection::index(i))));
        i = i + 1;
    }
    buttons
}

/// Pausing during the graveyard: pressing pause opens the level select menu.
pub fn pause(pause_just_pressed: bool) -> (next: Option<GameState>)
    ensures
        next == (if pause_just_pressed {
            Some(GameState::LevelSelect)
        } else {
            None
        }),
{
    if pause_just_pressed {
        Some(GameState::LevelSelect)
    } else {
        None
    }
}

/// Unpausing in the level select menu: pressing pause goes back to the graveyard.
pub fn unpause(pause_just_pressed: bool) -> (next: Option<GameState>)
    ensures
        next == (if pause_just_pressed {
            Some(GameState::Graveyard)
        } else {
            None
        }),
{
    if pause_just_pressed {
        Some(GameState::Graveyard)
    } else {
        None
    }
}

/// Choosing levels in the level select menu: the last chosen level is the one to go to, with a
/// level transition.
pub fn select_level(actions: &Vec<LevelSelectAction>) -> (r: Option<(TransitionTo, GameState)>)
    ensures
        actions.len() == 0 ==> r is None,
        actions.len() > 0 ==> r == Some(
            (
                TransitionTo(
                    match actions@.last() {
                        LevelSelectAction::GoToLevel(l) => l,
                    },
                ),
                GameState::LevelTransition,
            ),
        ),
{
    let n = actions.len();
    if n == 0 {
        None
    } else {
        let LevelSelectAction::GoToLevel(level) = &actions[n - 1];
        Some((TransitionTo(level.clone()), GameState::LevelTransition))
    }
}

/// Entry pair `j` after position `base` of `events` lets `card` fall: it starts falling at once
/// and is off screen after the fall time.
pub open spec fn falls_at(
    events: Seq<(LevelSelectCardEvent, FrameTimer)>,
    base: int,
    j: int,
    card: u64,
) -> bool {
    &&& events[base + 2 * j] == (LevelSelectCardEvent::Falling(card), fresh_timer(0, false))
    &&& events[base + 2 * j + 1] == (
        LevelSelectCardEvent::Offscreen(card),
        fresh_timer(LEVEL_SELECT_FALL_TIME, false),
    )
}

/// Lets every level select card fall away: it starts falling at once and is off screen after
/// one second.
pub fn drop_level_select_card(cards: &Vec<u64>, card_events: &mut EventScheduler<LevelSelectCardEvent>)
    ensures
        final(card_events).events@.len() == old(card_events).events@.len() + 2 * cards.len(),
        forall|i: int|
            0 <= i < old(card_events).events@.len() ==> #[trigger] final(card_events).events@[i]
                == old(card_events).events@[i],
        forall|k: int|
            0 <= k < cards.len() ==> #[trigger] falls_at(
                final(card_events).events@,
                old(card_events).events@.len() as int,
                k,
                cards[k],
            ),
{
    let ghost start = card_events.events@;
    let mut k: usize = 0;
    while k < cards.len()
        invariant
            0 <= k <= cards.len(),
            card_events.events@.len() == start.len() + 2 * k,
            forall|i: int| 0 <= i < start.len() ==> #[trigger] card_events.events@[i] == start[i],
            forall|j: int|
                0 <= j < k ==> #[trigger] falls_at(
                    card_events.events@,
                    start.len() as int,
                    j,
                    cards[j],
                ),
        decreases cards.len() - k,
    {
        let entity = cards[k];
        let ghost before = card_events.events@;
        card_events.schedule(LevelSelectCardEvent::Falling(entity), 0);
        card_events.schedule(LevelSelectCardEvent::Offscreen(entity), LEVEL_SELECT_FALL_TIME);
        proof {
            let after = card_events.events@;
            assert forall|j: int| 0 <= j <= k implies #[trigger] falls_at(
                after,
                start.len() as int,
                j,
                cards[j],
            ) by {
                if j < k {
                    assert(falls_at(before, start.len() as int, j, cards[j]));
                }
            }
        }
        k = k + 1;
    }
}

/// The card a level select card stage despawns: the one that fell off screen.
pub fn despawn_level_select_card(event: LevelSelectCardEvent) -> (r: Option<u64>)
    ensures
        r == (match event {
            LevelSelectCardEvent::Offscreen(e) => Some(e),
            _ => None,
        }),
{
    match event {
        LevelSelectCardEvent::Offscreen(e) => Some(e),
        _ => None,
    }
}

/// The level select card: its nine-slice texture, its title and its level buttons.
#[derive(Clone, Debug, PartialEq, Eq)]
pub struct LevelSelectCard {
    pub texture: NineSliceImage,
    pub title: String,
    pub buttons: Vec<(usize, LevelSelectAction)>,
}

/// The title of the level select card.
pub open spec fn level_select_title() -> Seq<char> {
    "Level Select"@
}

/// Builds the level select card: the tarot card sprite reassembled at eight by four inner tiles,
/// titled "Level Select", with a button for every level after the first of the `level_count` levels, when the levels
/// are known.
pub fn spawn_level_select_card(level_count: Option<usize>, tarot_sheet: &ImageData) -> (card:
    LevelSelectCard)
    requires
        nine_slice_fits(level_card_size(), tarot_slices(), *tarot_sheet),
    ensures
        card.texture.width == nine_slice_width(level_card_size(), tarot_slices()),
        card.texture.height == nine_slice_height(level_card_size(), tarot_slices()),
        card.texture.data@ == nine_slice_data(level_card_size(), tarot_slices(), *tarot_sheet),
        card.title@ == level_select_title(),
        level_count is None ==> card.buttons.len() == 0,
        level_count matches Some(n) ==> card.buttons.len() == (if n > 0 {
            n - 1
        } else {
            0
        }),
        forall|k: int|
            0 <= k < card.buttons.len() ==> #[trigger] card.buttons[k] == (
                (k + 1) as usize,
                LevelSelectAction::GoToLevel(LevelSelection::Index((k + 1) as usize)),
            ),
{
    let level_card_atlas = texture_atlas_from_nine_slice(
        UVec2::splat(TAROT_SIZE),
        TAROT_BORDER,
        TAROT_BORDER,
        TAROT_BORDER,
        TAROT_BORDER,
    );
    let index = NineSliceIndex::default();
    assert(picked_slices(level_card_atlas.textures@, index) =~= tarot_slices());
    let texture = match generate_nineslice_image(
        NineSliceSize { inner_width: 8, inner_height: 4 },
        index,
        &level_card_atlas,
        Some(tarot_sheet),
    ) {
        Ok(texture) => texture,
        Err(_) => {
            assert(false);
            NineSliceImage { width: 0, height: 0, format: 0, pixel_size: 0, data: Vec::new() }
        },
    };
    let buttons = match level_count {
        Some(n) => level_select_buttons(n),
        None => Vec::new(),
    };
    proof {
        reveal_strlit("Level Select");
    }
    LevelSelectCard { texture, title: "Level Select".to_owned(), buttons }
}

/// Whether the level card stages `events` spawn the world behind the card.
pub open spec fn spawns_world(first_card_skipped: bool, events: Seq<LevelCardEvent>) -> bool {
    !first_card_skipped && events.contains(LevelCardEvent::Block)
}

/// Whether the first card was skipped after the level card stages `events`.
pub open spec fn card_skipped_after(first_card_skipped: bool, events: Seq<LevelCardEvent>) -> bool {
    first_card_skipped || events.contains(LevelCardEvent::Block)
}

/// The level world is spawned at most once: once stages spawned it, no later stages do.
pub proof fn lemma_world_spawns_once(
    first_card_skipped: bool,
    earlier: Seq<LevelCardEvent>,
    later: Seq<LevelCardEvent>,
)
    requires
        spawns_world(first_card_skipped, earlier),
    ensures
        !spawns_world(card_skipped_after(first_card_skipped, earlier), later),
{
}

} // verus!
