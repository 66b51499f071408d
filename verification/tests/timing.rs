use willos_graveyard::animation::{
    set_initial_sprite_index, sprite_sheet_animation, AnimationEvent, SpriteSheetAnimation,
};
use willos_graveyard::event_scheduler::EventScheduler;
use willos_graveyard::timer::FrameTimer;

const MS: u64 = 1_000_000;

#[test]
fn one_shot_timer_finishes_once_due() {
    let mut t = FrameTimer::new(100 * MS, false);
    t.tick(60 * MS);
    assert!(!t.finished());
    assert_eq!(t.elapsed, 60 * MS);
    t.tick(60 * MS);
    assert!(t.finished());
    assert!(t.just_finished());
    assert_eq!(t.elapsed, 100 * MS);
    // a finished one-shot timer stays finished and counts no more periods
    t.tick(60 * MS);
    assert!(t.finished());
    assert!(!t.just_finished());
    assert_eq!(t.elapsed, 100 * MS);
}

#[test]
fn repeating_timer_wraps_and_counts_periods() {
    let mut t = FrameTimer::new(100 * MS, true);
    t.tick(250 * MS);
    assert!(t.finished());
    assert_eq!(t.times_finished_this_tick, 2);
    assert_eq!(t.elapsed, 50 * MS);
    t.tick(10 * MS);
    assert!(!t.finished());
    assert_eq!(t.times_finished_this_tick, 0);
    assert_eq!(t.elapsed, 60 * MS);
}

#[test]
fn zero_duration_repeating_timer_finishes_every_tick() {
    let mut t = FrameTimer::new(0, true);
    t.tick(5);
    assert!(t.finished());
    assert_eq!(t.times_finished_this_tick, u32::MAX);
    assert_eq!(t.elapsed, 0);
}

#[test]
fn scheduled_events_fire_in_order_when_due() {
    let mut scheduler: EventScheduler<&'static str> = EventScheduler::new();
    scheduler.schedule("late", 300 * MS);
    scheduler.schedule("early", 100 * MS);
    scheduler.schedule("middle", 200 * MS);

    assert_eq!(scheduler.fire_scheduled_events(50 * MS), Vec::<&str>::new());
    assert_eq!(scheduler.fire_scheduled_events(60 * MS), vec!["early"]);
    assert_eq!(scheduler.events.len(), 2);
    assert_eq!(scheduler.fire_scheduled_events(500 * MS), vec!["late", "middle"]);
    assert_eq!(scheduler.events.len(), 0);
    assert_eq!(scheduler.fire_scheduled_events(500 * MS), Vec::<&str>::new());
}

#[test]
fn default_scheduler_is_empty() {
    let mut scheduler: EventScheduler<u8> = EventScheduler::default();
    assert_eq!(scheduler.fire_scheduled_events(1), Vec::<u8>::new());
}

fn animation(start: usize, end: usize, repeat: bool) -> SpriteSheetAnimation {
    SpriteSheetAnimation { start, end, frame_timer: FrameTimer::new(150 * MS, true), repeat }
}

#[test]
fn animation_advances_on_frame_period() {
    let mut a = animation(10, 13, false);
    let mut index = Some(10);
    assert_eq!(sprite_sheet_animation(7, &mut index, &mut a, 100 * MS), None);
    assert_eq!(index, Some(10));
    assert_eq!(sprite_sheet_animation(7, &mut index, &mut a, 100 * MS), None);
    assert_eq!(index, Some(11));
    sprite_sheet_animation(7, &mut index, &mut a, 150 * MS);
    assert_eq!(index, Some(12));
    // the last frame ends a non-looping animation, which stays on its last frame
    assert_eq!(
        sprite_sheet_animation(7, &mut index, &mut a, 150 * MS),
        Some(AnimationEvent::Finished(7))
    );
    assert_eq!(index, Some(12));
}

#[test]
fn looping_animation_starts_over() {
    let mut a = animation(4, 6, true);
    let mut index = Some(5);
    assert_eq!(sprite_sheet_animation(1, &mut index, &mut a, 150 * MS), None);
    assert_eq!(index, Some(4));
}

#[test]
fn sprite_without_atlas_only_ticks() {
    let mut a = animation(4, 6, true);
    let mut index = None;
    assert_eq!(sprite_sheet_animation(1, &mut index, &mut a, 150 * MS), None);
    assert_eq!(index, None);
    assert!(a.frame_timer.finished());
}

#[test]
fn initial_sprite_index_is_clamped_to_the_animation() {
    let a = animation(10, 13, false);
    assert_eq!(set_initial_sprite_index(3, &a), 10);
    assert_eq!(set_initial_sprite_index(12, &a), 12);
    assert_eq!(set_initial_sprite_index(13, &a), 13);
    assert_eq!(set_initial_sprite_index(14, &a), 10);
    assert_eq!(SpriteSheetAnimation::default().end, 0);
}
