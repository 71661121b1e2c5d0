use necrophage::ending::{check_ending, ending_step, narration, EndingPhase};
use necrophage::menu::{
    main_menu_action, pause_menu_action, pause_toggle, state_after, GameState, MainMenuButton, MenuOutcome,
    PauseMenuButton, PauseScreen,
};
use necrophage::minimap::{build_minimap_pixels, minimap_cells, paint_tile, MINIMAP_VIEW, TILE_PX};
use necrophage::movement::GridPos;
use necrophage::population::PopulationDensity;
use necrophage::world::map::TileMap;
use necrophage::world::tile::TileType;

#[test]
fn paint_tile_writes_correct_pixels() {
    let img_width = 6u32;
    let mut data = vec![0u8; (img_width * 6 * 4) as usize];
    paint_tile(&mut data, img_width, 0, 0, [255, 0, 128, 255]);
    assert_eq!(&data[0..4], &[255, 0, 128, 255]);
}

#[test]
fn paint_tile_leaves_other_pixels() {
    let img_width = 6u32;
    let mut data = vec![0u8; (img_width * 6 * 4) as usize];
    paint_tile(&mut data, img_width, 1, 1, [1, 2, 3, 4]);
    // Pixel (3, 3) is in the block, pixel (2, 3) is not.
    let i = ((3 * img_width + 3) * 4) as usize;
    assert_eq!(&data[i..i + 4], &[1, 2, 3, 4]);
    let j = ((3 * img_width + 2) * 4) as usize;
    assert_eq!(&data[j..j + 4], &[0, 0, 0, 0]);
}

#[test]
fn build_image_dimensions_are_fixed() {
    let map = TileMap::new(10, 8, TileType::Floor);
    let img = build_minimap_pixels(&map, None, &vec![]);
    let expected = (2 * MINIMAP_VIEW as u32 + 1) * TILE_PX;
    assert_eq!(img.len() as u32, expected * expected * 4);
}

#[test]
fn build_image_player_at_center() {
    let size = 2 * MINIMAP_VIEW + 10;
    let map = TileMap::new(size, size, TileType::Floor);
    let player = GridPos { x: size / 2, y: size / 2 };
    let img = build_minimap_pixels(&map, Some(player), &vec![]);
    let cx = MINIMAP_VIEW as u32 * TILE_PX;
    let cy = MINIMAP_VIEW as u32 * TILE_PX;
    let w = (2 * MINIMAP_VIEW as u32 + 1) * TILE_PX;
    let i = ((cy * w + cx) * 4) as usize;
    assert_eq!(&img[i..i + 4], &[50, 255, 80, 255]);
}

#[test]
fn minimap_cells_show_enemies_and_void() {
    let map = TileMap::new(10, 10, TileType::Wall);
    let cells = minimap_cells(&map, Some(GridPos { x: 0, y: 0 }), &vec![GridPos { x: 1, y: 0 }]);
    assert_eq!(cells.len(), 61 * 61);
    assert_eq!(cells[30 * 61 + 30], [50, 255, 80, 255]);
    assert_eq!(cells[30 * 61 + 31], [220, 50, 50, 255]);
    assert_eq!(cells[30 * 61 + 32], [20, 20, 20, 220]);
    assert_eq!(cells[0], [10, 10, 10, 220]);
}

#[test]
fn density_decrements_to_zero() {
    let mut d = PopulationDensity::for_level(3);
    for _ in 0..3 {
        d.record_death(false);
    }
    assert_eq!(d.current, 0);
}

#[test]
fn density_does_not_go_negative() {
    let mut d = PopulationDensity::for_level(0);
    d.max = 1;
    d.record_death(false);
    assert_eq!(d.current, 0);
}

#[test]
fn boss_deaths_do_not_count() {
    let mut d = PopulationDensity::for_level(5);
    d.record_death(true);
    assert_eq!(d.current, 5);
    let mut empty = PopulationDensity::default();
    empty.record_death(false);
    assert_eq!(empty.current, 0);
}

#[test]
fn ending_requires_boss_defeated() {
    let mut phase = EndingPhase::default();
    assert!(!check_ending(&mut phase, false));
    assert_eq!(phase, EndingPhase::Inactive);
    assert!(check_ending(&mut phase, true));
    assert_eq!(phase, EndingPhase::FadingIn);
    assert!(!check_ending(&mut phase, true));
}

#[test]
fn ending_pages_turn_to_done() {
    let mut p = ending_step(EndingPhase::FadingIn, false, true);
    assert_eq!(p, EndingPhase::FadingIn);
    p = ending_step(p, true, false);
    assert_eq!(p, EndingPhase::Narration(0));
    p = ending_step(p, false, true);
    p = ending_step(p, false, true);
    assert_eq!(p, EndingPhase::Narration(2));
    p = ending_step(p, false, true);
    assert_eq!(p, EndingPhase::Done);
    assert!(narration(2).is_some());
    assert!(narration(3).is_none());
    assert_eq!(
        narration(2),
        Some("The world will call this a plague.\n\nIt is not a plague.\nIt is an arrival.\n\nYou have barely begun.")
    );
    assert!(narration(0).unwrap().starts_with("The parasite spreads."));
    assert!(narration(1).unwrap().ends_with("Everyone who touched you is now part of you."));
}

#[test]
fn escape_toggles_pause_and_menus_route() {
    assert_eq!(pause_toggle(GameState::Playing), Some(GameState::Paused));
    assert_eq!(pause_toggle(GameState::Paused), Some(GameState::Playing));
    assert_eq!(pause_toggle(GameState::MainMenu), None);
    assert_eq!(main_menu_action(MainMenuButton::LoadSlot(2), false), MenuOutcome::Nothing);
    assert_eq!(main_menu_action(MainMenuButton::LoadSlot(2), true), MenuOutcome::Load(2));
    assert_eq!(
        pause_menu_action(PauseMenuButton::OpenSave, PauseScreen::Main, false),
        (MenuOutcome::Nothing, PauseScreen::Save)
    );
    assert_eq!(state_after(MenuOutcome::ToMainMenu, GameState::Paused), GameState::MainMenu);
    assert_eq!(state_after(MenuOutcome::Save(1), GameState::Paused), GameState::Paused);
}
