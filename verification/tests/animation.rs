use city_builder::{AnimationClock, SimError, SpriteCycle, TileGrid};

#[test]
fn a_cycle_without_states_is_refused() {
    assert!(matches!(SpriteCycle::new(Vec::new()), Err(SimError::EmptyCycle)));
}

#[test]
fn a_cycle_starts_at_its_first_sprite() {
    let cycle = SpriteCycle::new(vec![5, 6, 7, 8, 9]).unwrap();
    assert_eq!(cycle.len(), 5);
    assert_eq!(cycle.current_sprite(), 5);
}

#[test]
fn a_cycle_walks_forward_and_wraps() {
    let mut cycle = SpriteCycle::new(vec![5, 6, 7, 8, 9]).unwrap();
    let mut seen = Vec::new();
    for _ in 0..11 {
        cycle.advance();
        seen.push(cycle.current_sprite());
    }
    assert_eq!(seen, vec![6, 7, 8, 9, 5, 6, 7, 8, 9, 5, 6]);
    assert_eq!(cycle.len(), 5);
}

#[test]
fn a_two_state_cycle_toggles() {
    let mut cycle = SpriteCycle::new(vec![1, 2]).unwrap();
    assert_eq!(cycle.current_sprite(), 1);
    cycle.advance();
    assert_eq!(cycle.current_sprite(), 2);
    cycle.advance();
    assert_eq!(cycle.current_sprite(), 1);
}

#[test]
fn a_cycle_of_one_state_stays() {
    let mut cycle = SpriteCycle::new(vec![4]).unwrap();
    cycle.advance();
    assert_eq!(cycle.current_sprite(), 4);
}

#[test]
fn a_new_clock_has_no_animations() {
    let clock = AnimationClock::new(100, 0);
    assert_eq!(clock.len(), 0);
    assert_eq!(clock.showing(0), None);
    assert!(!clock.animates(0));
}

#[test]
fn animations_are_kept_in_the_order_of_registration() {
    let mut clock = AnimationClock::new(100, 0);
    assert_eq!(clock.register(5, SpriteCycle::new(vec![1, 2]).unwrap()), Ok(()));
    assert_eq!(clock.register(38, SpriteCycle::new(vec![5, 6, 7, 8, 9]).unwrap()), Ok(()));
    assert_eq!(clock.len(), 2);
    assert_eq!(clock.showing(0), Some((5, 1)));
    assert_eq!(clock.showing(1), Some((38, 5)));
    assert_eq!(clock.showing(2), None);
    assert!(clock.animates(5));
    assert!(clock.animates(38));
    assert!(!clock.animates(6));
}

#[test]
fn a_tile_keeps_its_first_animation() {
    let mut clock = AnimationClock::new(100, 0);
    assert_eq!(clock.register(5, SpriteCycle::new(vec![1, 2]).unwrap()), Ok(()));
    assert_eq!(
        clock.register(5, SpriteCycle::new(vec![7, 8, 9]).unwrap()),
        Err(SimError::DuplicateAnimation)
    );
    assert_eq!(clock.len(), 1);
    assert_eq!(clock.showing(0), Some((5, 1)));
}

#[test]
fn the_clock_advances_only_after_more_than_the_interval() {
    let mut clock = AnimationClock::new(100, 1000);
    clock.register(5, SpriteCycle::new(vec![1, 2]).unwrap()).unwrap();
    assert!(!clock.is_due(1000));
    assert!(!clock.is_due(1100));
    assert!(clock.is_due(1101));
    assert!(!clock.tick(1100));
    assert_eq!(clock.showing(0), Some((5, 1)));
    assert!(clock.tick(1101));
    assert_eq!(clock.showing(0), Some((5, 2)));
    assert!(!clock.is_due(1201));
    assert!(!clock.tick(1201));
    assert_eq!(clock.showing(0), Some((5, 2)));
    assert!(clock.tick(1202));
    assert_eq!(clock.showing(0), Some((5, 1)));
}

#[test]
fn the_clock_advances_once_however_often_it_is_checked() {
    let mut clock = AnimationClock::new(100, 0);
    clock.register(38, SpriteCycle::new(vec![5, 6, 7, 8, 9]).unwrap()).unwrap();
    let mut advances = 0;
    for check in 0..1000u64 {
        if clock.tick(150 + check / 10) {
            advances += 1;
        }
    }
    assert_eq!(advances, 1);
    assert_eq!(clock.showing(0), Some((38, 6)));
}

#[test]
fn the_clock_never_skips_a_due_advance() {
    let mut clock = AnimationClock::new(100, 0);
    clock.register(38, SpriteCycle::new(vec![5, 6, 7, 8, 9]).unwrap()).unwrap();
    let mut now = 0;
    for step in 1..=12usize {
        now += 101;
        assert!(clock.tick(now));
        assert_eq!(clock.showing(0), Some((38, 5 + step % 5)));
    }
}

#[test]
fn all_animations_advance_together() {
    let mut clock = AnimationClock::new(100, 0);
    clock.register(5, SpriteCycle::new(vec![1, 2]).unwrap()).unwrap();
    clock.register(38, SpriteCycle::new(vec![5, 6, 7, 8, 9]).unwrap()).unwrap();
    assert!(clock.tick(500));
    assert_eq!(clock.showing(0), Some((5, 2)));
    assert_eq!(clock.showing(1), Some((38, 6)));
    assert!(clock.tick(1000));
    assert_eq!(clock.showing(0), Some((5, 1)));
    assert_eq!(clock.showing(1), Some((38, 7)));
}

#[test]
fn a_clock_that_reads_earlier_does_not_advance() {
    let mut clock = AnimationClock::new(100, 1000);
    clock.register(5, SpriteCycle::new(vec![1, 2]).unwrap()).unwrap();
    assert!(!clock.tick(0));
    assert!(!clock.tick(999));
    assert_eq!(clock.showing(0), Some((5, 1)));
}

#[test]
fn paint_shows_the_current_sprites_and_nothing_else() {
    let mut grid = TileGrid::new(330, 11, 0).unwrap();
    let mut clock = AnimationClock::new(100, 0);
    clock.register(5, SpriteCycle::new(vec![1, 2]).unwrap()).unwrap();
    clock.register(38, SpriteCycle::new(vec![5, 6, 7, 8, 9]).unwrap()).unwrap();
    assert_eq!(clock.paint(&mut grid), Ok(()));
    for index in 0..330 {
        let expected = match index {
            5 => 1,
            38 => 5,
            _ => 0,
        };
        assert_eq!(grid.get(index).unwrap().get_sprite(), expected);
    }
    assert!(clock.tick(101));
    assert_eq!(clock.paint(&mut grid), Ok(()));
    assert_eq!(grid.get(5).unwrap().get_sprite(), 2);
    assert_eq!(grid.get(38).unwrap().get_sprite(), 6);
    assert_eq!(grid.get(0).unwrap().get_sprite(), 0);
}

#[test]
fn paint_past_the_end_of_the_grid_paints_nothing() {
    let mut grid = TileGrid::new(10, 5, 0).unwrap();
    let mut clock = AnimationClock::new(100, 0);
    clock.register(3, SpriteCycle::new(vec![1, 2]).unwrap()).unwrap();
    clock.register(10, SpriteCycle::new(vec![7, 8]).unwrap()).unwrap();
    assert_eq!(clock.paint(&mut grid), Err(SimError::IndexOutOfRange));
    for index in 0..10 {
        assert_eq!(grid.get(index).unwrap().get_sprite(), 0);
    }
}

#[test]
fn departure_sequence_returns_after_five_ticks() {
    let mut grid = TileGrid::new(330, 11, 0).unwrap();
    let mut clock = AnimationClock::new(100, 0);
    clock.register(38, SpriteCycle::new(vec![5, 6, 7, 8, 9]).unwrap()).unwrap();
    clock.paint(&mut grid).unwrap();
    assert_eq!(grid.get(38).unwrap().get_sprite(), 5);
    let mut now = 0;
    let mut seen = Vec::new();
    for _ in 0..5 {
        now += 101;
        assert!(clock.tick(now));
        clock.paint(&mut grid).unwrap();
        seen.push(grid.get(38).unwrap().get_sprite());
    }
    assert_eq!(seen, vec![6, 7, 8, 9, 5]);
    assert_eq!(grid.get(38).unwrap().get_sprite(), 5);
}
