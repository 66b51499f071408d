use willos_graveyard::event_scheduler::EventScheduler;
use willos_graveyard::level::{
    despawn_level_select_card, drop_level_select_card, level_card_update, level_select_buttons,
    load_next_level, pause, schedule_level_card, select_level, spawn_level_card,
    spawn_level_select_card, unpause, LevelCardEvent, LevelInfo, LevelSelectAction,
    LevelSelectCardEvent, LevelSelection, TransitionTo,
};
use willos_graveyard::nine_slice::ImageData;
use willos_graveyard::timer::FrameTimer;
use willos_graveyard::GameState;

const MS: u64 = 1_000_000;

fn tarot_sheet() -> ImageData {
    let data: Vec<u8> = (0..64u32 * 64).map(|i| (i % 251) as u8).collect();
    ImageData { width: 64, height: 64, format: 0, pixel_size: 1, data: Some(data) }
}

#[test]
fn level_card_stages_fire_in_order() {
    let mut scheduler = EventScheduler::new();
    schedule_level_card(&mut scheduler);
    assert_eq!(scheduler.fire_scheduled_events(1400 * MS), vec![]);
    assert_eq!(scheduler.fire_scheduled_events(100 * MS), vec![LevelCardEvent::Block]);
    assert_eq!(scheduler.fire_scheduled_events(1500 * MS), vec![LevelCardEvent::Fall]);
    assert_eq!(scheduler.fire_scheduled_events(1500 * MS), vec![LevelCardEvent::Despawn]);
}

#[test]
fn level_card_shows_the_level_or_the_credits() {
    let sheet = tarot_sheet();

    let mut scheduler = EventScheduler::new();
    let card = spawn_level_card(
        Some(LevelInfo { number: 3, title: "Crossroads".to_string() }),
        &sheet,
        &mut scheduler,
    );
    assert_eq!(card.number, Some(3));
    assert_eq!(card.title, "Crossroads");
    // sixteen pixel borders around eight by four center tiles of thirty-two pixels
    assert_eq!((card.texture.width, card.texture.height), (16 + 8 * 32 + 16, 16 + 4 * 32 + 16));
    assert_eq!(card.texture.data.len(), (288 * 160) as usize);
    assert_eq!(scheduler.events.len(), 3);

    let mut scheduler = EventScheduler::new();
    let credits = spawn_level_card(None, &sheet, &mut scheduler);
    assert_eq!(credits.number, None);
    assert!(credits.title.starts_with("Thank you for playing!"));
    assert_eq!(scheduler.events.len(), 0);
}

#[test]
fn first_block_spawns_the_world_later_ones_move_on() {
    let mut skipped = false;
    let mut selection = LevelSelection::Index(0);
    let transition_to = TransitionTo(LevelSelection::Index(2));

    assert!(!load_next_level(&vec![LevelCardEvent::Fall], &mut skipped, &mut selection, &transition_to));
    assert!(!skipped);

    assert!(load_next_level(&vec![LevelCardEvent::Block], &mut skipped, &mut selection, &transition_to));
    assert!(skipped);
    assert_eq!(selection, LevelSelection::Index(0));

    assert!(!load_next_level(&vec![LevelCardEvent::Block], &mut skipped, &mut selection, &transition_to));
    assert_eq!(selection, LevelSelection::Index(2));
}

#[test]
fn level_card_falls_then_goes_away() {
    let cards = vec![7];
    let fall = level_card_update(LevelCardEvent::Fall, &cards);
    assert_eq!(fall.falling, vec![7]);
    assert_eq!(fall.next_state, Some(GameState::Graveyard));
    let gone = level_card_update(LevelCardEvent::Despawn, &cards);
    assert_eq!(gone.despawned, vec![7]);
    assert_eq!(gone.next_state, None);
    let block = level_card_update(LevelCardEvent::Block, &cards);
    assert!(block.falling.is_empty() && block.despawned.is_empty());
    assert_eq!(level_card_update(LevelCardEvent::Fall, &vec![]).next_state, None);
}

#[test]
fn level_select_lists_every_level_after_the_first() {
    let buttons = level_select_buttons(4);
    assert_eq!(
        buttons,
        vec![
            (1, LevelSelectAction::GoToLevel(LevelSelection::Index(1))),
            (2, LevelSelectAction::GoToLevel(LevelSelection::Index(2))),
            (3, LevelSelectAction::GoToLevel(LevelSelection::Index(3))),
        ]
    );
    assert!(level_select_buttons(0).is_empty());
    assert!(level_select_buttons(1).is_empty());

    let card = spawn_level_select_card(Some(3), &tarot_sheet());
    assert_eq!(card.title, "Level Select");
    assert_eq!(card.buttons.len(), 2);
    assert!(spawn_level_select_card(None, &tarot_sheet()).buttons.is_empty());
}

#[test]
fn pausing_toggles_the_level_select_menu() {
    assert_eq!(pause(true), Some(GameState::LevelSelect));
    assert_eq!(pause(false), None);
    assert_eq!(unpause(true), Some(GameState::Graveyard));
    assert_eq!(unpause(false), None);
}

#[test]
fn the_last_chosen_level_is_entered() {
    let actions = vec![
        LevelSelectAction::GoToLevel(LevelSelection::Index(1)),
        LevelSelectAction::GoToLevel(LevelSelection::Identifier("Level_5".to_string())),
    ];
    assert_eq!(
        select_level(&actions),
        Some((
            TransitionTo(LevelSelection::Identifier("Level_5".to_string())),
            GameState::LevelTransition
        ))
    );
    assert_eq!(select_level(&vec![]), None);
}

#[test]
fn dropped_cards_fall_then_leave() {
    let mut scheduler = EventScheduler::new();
    drop_level_select_card(&vec![3, 4], &mut scheduler);
    assert_eq!(scheduler.events.len(), 4);
    assert_eq!(scheduler.events[1], (LevelSelectCardEvent::Offscreen(3), FrameTimer::new(1000 * MS, false)));
    let fired = scheduler.fire_scheduled_events(1);
    assert_eq!(fired, vec![LevelSelectCardEvent::Falling(3), LevelSelectCardEvent::Falling(4)]);
    let fired = scheduler.fire_scheduled_events(1000 * MS);
    assert_eq!(fired, vec![LevelSelectCardEvent::Offscreen(3), LevelSelectCardEvent::Offscreen(4)]);
    assert_eq!(fired.iter().filter_map(|e| despawn_level_select_card(*e)).collect::<Vec<_>>(), vec![3, 4]);
    assert_eq!(despawn_level_select_card(LevelSelectCardEvent::Spawned(3)), None);
}
