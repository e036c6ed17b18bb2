use hle_render::view::ViewMode;

#[test]
fn cycle_from_game() {
    assert_eq!(ViewMode::Game.cycle(2, 1), ViewMode::Color(0));
    assert_eq!(ViewMode::Game.cycle(0, 1), ViewMode::Depth(0));
    assert_eq!(ViewMode::Game.cycle(0, 0), ViewMode::Game);
}

#[test]
fn cycle_from_color() {
    assert_eq!(ViewMode::Color(0).cycle(2, 1), ViewMode::Color(1));
    assert_eq!(ViewMode::Color(1).cycle(2, 1), ViewMode::Depth(0));
    assert_eq!(ViewMode::Color(1).cycle(2, 0), ViewMode::Game);
}

#[test]
fn cycle_from_depth() {
    assert_eq!(ViewMode::Depth(0).cycle(2, 2), ViewMode::Depth(1));
    assert_eq!(ViewMode::Depth(1).cycle(2, 2), ViewMode::Game);
    assert_eq!(ViewMode::Depth(0).cycle(0, 1), ViewMode::Game);
}

#[test]
fn cycle_from_stale_or_extreme_index() {
    assert_eq!(ViewMode::Color(7).cycle(2, 1), ViewMode::Depth(0));
    assert_eq!(ViewMode::Color(7).cycle(2, 0), ViewMode::Game);
    assert_eq!(ViewMode::Depth(7).cycle(2, 1), ViewMode::Game);
    assert_eq!(ViewMode::Color(usize::MAX).cycle(usize::MAX, 3), ViewMode::Depth(0));
    assert_eq!(ViewMode::Depth(usize::MAX).cycle(1, usize::MAX), ViewMode::Game);
}

#[test]
fn cycle_goes_once_round_the_ring() {
    let colors = 3;
    let depths = 2;
    let mut mode = ViewMode::Game;
    let mut seen = vec![mode];
    for _ in 0..(colors + depths) {
        mode = mode.cycle(colors, depths);
        seen.push(mode);
    }
    assert_eq!(
        seen,
        vec![
            ViewMode::Game,
            ViewMode::Color(0),
            ViewMode::Color(1),
            ViewMode::Color(2),
            ViewMode::Depth(0),
            ViewMode::Depth(1),
        ]
    );
    assert_eq!(mode.cycle(colors, depths), ViewMode::Game);
}

#[test]
fn cycle_reaches_targets_created_meanwhile() {
    let mode = ViewMode::Color(0).cycle(1, 0);
    assert_eq!(mode, ViewMode::Game);
    assert_eq!(ViewMode::Color(0).cycle(2, 0), ViewMode::Color(1));
}
