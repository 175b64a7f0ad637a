use dungeon_core::geometry::Rect;
use dungeon_core::grid::wall_grid;
use dungeon_core::mapgen::{create_h_tunnel, create_room, create_v_tunnel, make_map};
use dungeon_core::object::Object;
use dungeon_core::render::ColorRgb;
use dungeon_core::tile::Tile;

fn seeded(seed: u64) -> rand::rngs::StdRng {
    rand::SeedableRng::seed_from_u64(seed)
}

fn player() -> Object {
    Object::new(0, 0, '@', "player", ColorRgb { r: 255, g: 255, b: 255 }, true)
}

fn generate(seed: u64) -> (Vec<Vec<Tile>>, Vec<Rect>, Vec<Object>) {
    let mut objects = vec![player()];
    let mut rng = seeded(seed);
    let (map, rooms, _) = make_map(80, 45, 6, 10, 30, &mut objects, &mut rng);
    (map, rooms, objects)
}

#[test]
fn generation_scenario_80x45() {
    let (map, rooms, objects) = generate(7);
    assert!(rooms.len() > 0);
    assert_eq!(map.len(), 80);
    for col in &map {
        assert_eq!(col.len(), 45);
    }
    // The viewer starts at the first accepted room's center.
    assert_eq!(objects[0].pos(), rooms[0].center());
    // No two accepted rooms intersect, even under the closed-interval test.
    for i in 0..rooms.len() {
        for j in 0..rooms.len() {
            if i != j {
                assert!(!rooms[i].intersects_with(&rooms[j]));
            }
        }
    }
    // Every accepted room was sampled within the requested bounds and fits
    // strictly inside the grid.
    for r in &rooms {
        assert!(r.x2 - r.x1 >= 6 && r.x2 - r.x1 <= 10);
        assert!(r.y2 - r.y1 >= 6 && r.y2 - r.y1 <= 10);
        assert!(r.x1 >= 0 && r.x2 < 80);
        assert!(r.y1 >= 0 && r.y2 < 45);
    }
}

#[test]
fn generation_room_interiors_are_floor() {
    let (map, rooms, _) = generate(11);
    for r in &rooms {
        for x in (r.x1 + 1)..r.x2 {
            for y in (r.y1 + 1)..r.y2 {
                let t = map[x as usize][y as usize];
                assert!(!t.blocked);
                assert!(!t.block_sight);
                assert!(!t.explored);
            }
        }
    }
}

#[test]
fn generation_deterministic_for_equal_seeds() {
    let (map_a, rooms_a, objects_a) = generate(99);
    let (map_b, rooms_b, objects_b) = generate(99);
    assert_eq!(map_a, map_b);
    assert_eq!(rooms_a, rooms_b);
    assert_eq!(objects_a[0].pos(), objects_b[0].pos());
    assert_eq!(objects_a.len(), objects_b.len());
}

#[test]
fn generation_monsters_are_orcs_or_trolls_inside_rooms() {
    let (_, rooms, objects) = generate(3);
    for o in objects.iter().skip(1) {
        assert!(o.blocks);
        assert!(!o.alive);
        let orc = o.char == 'o' && o.name == "orc"
            && o.color == (ColorRgb { r: 63, g: 127, b: 63 });
        let troll = o.char == 'T' && o.name == "troll"
            && o.color == (ColorRgb { r: 0, g: 127, b: 0 });
        assert!(orc || troll);
        // Spawned inside some accepted room: x strictly inside, y allowed
        // flush against the top/bottom walls.
        let housed = rooms
            .iter()
            .any(|r| r.x1 + 1 <= o.x && o.x < r.x2 && r.y1 <= o.y && o.y < r.y2);
        assert!(housed);
    }
}

#[test]
fn zero_attempts_leaves_all_wall_and_viewer_untouched() {
    let mut objects = vec![player()];
    objects[0].set_pos(13, 17);
    let mut rng = seeded(5);
    let (map, rooms, _) = make_map(80, 45, 6, 10, 0, &mut objects, &mut rng);
    assert_eq!(rooms.len(), 0);
    assert_eq!(objects.len(), 1);
    assert_eq!(objects[0].pos(), (13, 17));
    for col in &map {
        for t in col {
            assert!(t.blocked);
            assert!(t.block_sight);
            assert!(!t.explored);
        }
    }
}

#[test]
fn single_room_interior_floor_border_wall() {
    // The rectangle (2, 2) .. (8, 8) placed alone, no corridor.
    let mut map = wall_grid(80, 45);
    let room = Rect::new(2, 2, 6, 6);
    assert_eq!((room.x1, room.y1, room.x2, room.y2), (2, 2, 8, 8));
    create_room(room, &mut map);
    for x in 3..8 {
        for y in 3..8 {
            assert!(!map[x as usize][y as usize].blocked);
        }
    }
    for v in 2..9usize {
        assert!(map[2][v].blocked);
        assert!(map[8][v].blocked);
        assert!(map[v][2].blocked);
        assert!(map[v][8].blocked);
    }
}

#[test]
fn h_tunnel_carves_exactly_its_line() {
    let mut map = wall_grid(20, 10);
    // Endpoints arrive in either order.
    create_h_tunnel(12, 3, 5, &mut map);
    for x in 0..20usize {
        for y in 0..10usize {
            let on_path = y == 5 && (3..=12).contains(&x);
            assert_eq!(map[x][y].blocked, !on_path);
            assert_eq!(map[x][y].block_sight, !on_path);
        }
    }
}

#[test]
fn v_tunnel_carves_exactly_its_line() {
    let mut map = wall_grid(20, 10);
    create_v_tunnel(8, 1, 4, &mut map);
    for x in 0..20usize {
        for y in 0..10usize {
            let on_path = x == 4 && (1..=8).contains(&y);
            assert_eq!(map[x][y].blocked, !on_path);
            assert_eq!(map[x][y].block_sight, !on_path);
        }
    }
}

#[test]
fn rect_center_uses_truncating_division() {
    // Odd extents bias the center toward the lower corner.
    let r = Rect::new(0, 0, 7, 5);
    assert_eq!(r.center(), (3, 2));
    let r2 = Rect::new(2, 2, 6, 6);
    assert_eq!(r2.center(), (5, 5));
}

#[test]
fn rect_intersection_is_closed_interval() {
    let a = Rect::new(0, 0, 2, 2);
    // Sharing only the corner (2, 2) still counts as intersecting.
    let b = Rect::new(2, 2, 2, 2);
    assert!(a.intersects_with(&b));
    assert!(b.intersects_with(&a));
    // One tile of separation on an axis does not.
    let c = Rect::new(3, 0, 2, 2);
    assert!(!a.intersects_with(&c));
    let d = Rect::new(0, 3, 2, 2);
    assert!(!a.intersects_with(&d));
}
