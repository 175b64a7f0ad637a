use dungeon_core::control::{handle_command, Command};
use dungeon_core::fov::{apply_visibility, FovTracker};
use dungeon_core::geometry::Rect;
use dungeon_core::grid::{wall_grid, Game};
use dungeon_core::mapgen::create_room;
use dungeon_core::object::Object;
use dungeon_core::render::{tile_color, tile_draw_color, vis_state, ColorRgb, VisState};
use dungeon_core::tile::Tile;

fn small_game() -> Game {
    let mut map = wall_grid(10, 10);
    create_room(Rect::new(1, 1, 7, 7), &mut map);
    Game { map }
}

fn field(w: usize, h: usize, lit: &[(usize, usize)]) -> Vec<Vec<bool>> {
    let mut f = vec![vec![false; h]; w];
    for &(x, y) in lit {
        f[x][y] = true;
    }
    f
}

#[test]
fn explored_is_set_by_visibility_and_sticks() {
    let mut map = wall_grid(4, 3);
    let f1 = field(4, 3, &[(1, 2), (0, 0)]);
    apply_visibility(&mut map, &f1);
    assert!(map[1][2].explored);
    assert!(map[0][0].explored);
    assert!(!map[2][2].explored);
    // The tile's other flags are untouched.
    assert!(map[1][2].blocked && map[1][2].block_sight);
    // A later tick that no longer sees those tiles leaves them explored.
    let f2 = field(4, 3, &[(2, 2)]);
    apply_visibility(&mut map, &f2);
    assert!(map[1][2].explored);
    assert!(map[0][0].explored);
    assert!(map[2][2].explored);
    // And one more all-dark tick clears nothing.
    let f3 = field(4, 3, &[]);
    apply_visibility(&mut map, &f3);
    assert!(map[1][2].explored && map[0][0].explored && map[2][2].explored);
}

#[test]
fn recompute_skipped_exactly_when_viewer_unmoved() {
    let mut tracker = FovTracker::new();
    // The sentinel never matches a real position: the first tick recomputes.
    assert!(tracker.tick(3, 4));
    // Unmoved: skipped.
    assert!(!tracker.tick(3, 4));
    assert!(!tracker.tick(3, 4));
    // The tick where the position first changes recomputes again.
    assert!(tracker.tick(4, 4));
    assert!(!tracker.tick(4, 4));
}

#[test]
fn move_by_respects_blocking_and_bounds() {
    let game = small_game();
    let mut o = Object::new(4, 4, '@', "player", ColorRgb { r: 255, g: 255, b: 255 }, true);
    o.move_by(1, 0, &game);
    assert_eq!(o.pos(), (5, 4));
    o.move_by(0, -1, &game);
    assert_eq!(o.pos(), (5, 3));
    // Into the border wall: stays put.
    let mut w = Object::new(2, 2, '@', "player", ColorRgb { r: 255, g: 255, b: 255 }, true);
    w.move_by(-1, 0, &game);
    assert_eq!(w.pos(), (2, 2));
    // Off the grid entirely: out of bounds counts as blocked.
    let mut e = Object::new(0, 0, '@', "player", ColorRgb { r: 255, g: 255, b: 255 }, true);
    e.move_by(-1, 0, &game);
    assert_eq!(e.pos(), (0, 0));
    e.move_by(0, -1, &game);
    assert_eq!(e.pos(), (0, 0));
}

#[test]
fn handle_command_moves_and_exits() {
    let game = small_game();
    let mut p = Object::new(4, 4, '@', "player", ColorRgb { r: 255, g: 255, b: 255 }, true);
    assert!(!handle_command(Command::MoveDown, &game, &mut p));
    assert_eq!(p.pos(), (4, 5));
    assert!(!handle_command(Command::MoveRight, &game, &mut p));
    assert_eq!(p.pos(), (5, 5));
    assert!(!handle_command(Command::Nothing, &game, &mut p));
    assert_eq!(p.pos(), (5, 5));
    assert!(!handle_command(Command::ToggleFullscreen, &game, &mut p));
    assert_eq!(p.pos(), (5, 5));
    assert!(handle_command(Command::Exit, &game, &mut p));
    assert_eq!(p.pos(), (5, 5));
}

#[test]
fn tile_constructors() {
    let e = Tile::empty();
    assert!(!e.blocked && !e.block_sight && !e.explored);
    let w = Tile::wall();
    assert!(w.blocked && w.block_sight && !w.explored);
}

#[test]
fn tile_colors_match_the_four_fixed_colors() {
    assert_eq!(tile_color(false, true), ColorRgb { r: 0, g: 0, b: 100 });
    assert_eq!(tile_color(false, false), ColorRgb { r: 50, g: 50, b: 150 });
    assert_eq!(tile_color(true, true), ColorRgb { r: 130, g: 110, b: 50 });
    assert_eq!(tile_color(true, false), ColorRgb { r: 200, g: 180, b: 50 });
}

#[test]
fn three_state_visibility_model() {
    assert_eq!(vis_state(false, false), VisState::Unknown);
    assert_eq!(vis_state(true, false), VisState::Remembered);
    assert_eq!(vis_state(true, true), VisState::Visible);
    assert_eq!(vis_state(false, true), VisState::Visible);

    let unseen = Tile::wall();
    assert_eq!(tile_draw_color(&unseen, false), None);
    assert_eq!(
        tile_draw_color(&unseen, true),
        Some(ColorRgb { r: 130, g: 110, b: 50 })
    );
    let mut remembered = Tile::empty();
    remembered.explored = true;
    assert_eq!(
        tile_draw_color(&remembered, false),
        Some(ColorRgb { r: 50, g: 50, b: 150 })
    );
}

#[test]
fn object_new_fields() {
    let o = Object::new(2, 9, 'T', "troll", ColorRgb { r: 0, g: 127, b: 0 }, true);
    assert_eq!(o.pos(), (2, 9));
    assert_eq!(o.char, 'T');
    assert_eq!(o.name, "troll");
    assert_eq!(o.color, ColorRgb { r: 0, g: 127, b: 0 });
    assert!(o.blocks);
    assert!(!o.alive);
    let mut moved = o;
    moved.set_pos(1, 1);
    assert_eq!(moved.pos(), (1, 1));
}
