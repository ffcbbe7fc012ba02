use crossy_road::constants::{MAP_MAX_Z, MAP_MIN_X, MAP_MIN_Z};
use crossy_road::random::RandomStream;
use crossy_road::world::{Chunk, WorldMap};

fn map_with_chunks(count: i32) -> WorldMap {
    let mut map = WorldMap::new();
    for i in 0..count {
        map.push_chunk(Chunk { position_x: MAP_MIN_X + i, entities: vec![i as u64] });
    }
    map
}

#[test]
fn a_new_map_is_empty_and_seeded() {
    let map = WorldMap::new();
    assert_eq!(map.len(), 0);
    assert!(map.is_empty());
    assert!(map.front().is_none());
    assert!(map.back().is_none());
    assert!(map.chunk(0).is_none());
    assert_eq!(map.next_chunk_x(), MAP_MIN_X as i64);
    assert_eq!(map.random_generator().state(), RandomStream::new(0).state());
    assert!(!map.is_occupied(0, 1));

    let map = WorldMap::default();
    assert!(map.is_empty());
    assert_eq!(map.random_generator().state(), RandomStream::new(0).state());
}

#[test]
fn chunks_are_pushed_at_consecutive_coordinates() {
    let map = map_with_chunks(5);
    assert_eq!(map.len(), 5);
    for i in 0..5usize {
        let chunk = map.chunk(i).unwrap();
        assert_eq!(chunk.position_x, MAP_MIN_X + i as i32);
        assert_eq!(chunk.entities, vec![i as u64]);
    }
    assert_eq!(map.front().unwrap().position_x, -8);
    assert_eq!(map.back().unwrap().position_x, -4);
    assert_eq!(map.next_chunk_x(), -3);
    assert!(map.chunk(5).is_none());
}

#[test]
fn the_oldest_chunk_is_popped_first() {
    let mut map = map_with_chunks(3);
    let popped = map.pop_front_chunk().unwrap();
    assert_eq!(popped.position_x, -8);
    assert_eq!(popped.entities, vec![0]);
    assert_eq!(map.len(), 2);
    assert_eq!(map.front().unwrap().position_x, -7);
    assert_eq!(map.back().unwrap().position_x, -6);
    assert_eq!(map.next_chunk_x(), -5);
    assert_eq!(map.pop_front_chunk().unwrap().position_x, -7);
    assert_eq!(map.pop_front_chunk().unwrap().position_x, -6);
    assert!(map.pop_front_chunk().is_none());
    assert!(map.is_empty());
    assert_eq!(map.next_chunk_x(), MAP_MIN_X as i64);
}

#[test]
fn registered_obstacles_occupy_their_cells() {
    let mut map = map_with_chunks(3);
    assert!(!map.is_occupied(-7, 3));
    map.register_obstacle(-7, 3, 100);
    map.register_obstacle(-7, -10, 101);
    map.register_obstacle(-6, 9, 102);
    assert!(map.is_occupied(-7, 3));
    assert!(map.is_occupied(-7, -10));
    assert!(map.is_occupied(-6, 9));
    assert!(!map.is_occupied(3, -7));
    assert!(!map.is_occupied(-7, 4));
    assert!(!map.is_occupied(-8, 3));
    assert_eq!(map.obstacle_at(-7, 3), Some(100));
    assert_eq!(map.obstacle_at(-6, 9), Some(102));
    assert_eq!(map.obstacle_at(-6, 8), None);
    assert_eq!(map.len(), 3);
}

#[test]
fn registering_a_cell_again_replaces_its_obstacle() {
    let mut map = map_with_chunks(1);
    map.register_obstacle(-8, 2, 7);
    map.register_obstacle(-8, 2, 9);
    assert_eq!(map.obstacle_at(-8, 2), Some(9));
    assert_eq!(map.unregister_range(-8), vec![9]);
}

#[test]
fn unregistering_a_range_returns_its_obstacles_in_lane_order() {
    let mut map = map_with_chunks(2);
    map.register_obstacle(-8, 5, 50);
    map.register_obstacle(-8, -10, 51);
    map.register_obstacle(-8, 9, 52);
    map.register_obstacle(-8, -1, 53);
    map.register_obstacle(-7, 5, 60);
    assert_eq!(map.unregister_range(-8), vec![51, 53, 50, 52]);
    for z in MAP_MIN_Z..MAP_MAX_Z {
        assert!(!map.is_occupied(-8, z));
    }
    assert!(map.is_occupied(-7, 5));
    assert_eq!(map.unregister_range(-8), Vec::<u64>::new());
    assert_eq!(map.unregister_range(42), Vec::<u64>::new());
    assert_eq!(map.len(), 2);
    assert_eq!(map.pop_front_chunk().unwrap().position_x, -8);
}

#[test]
fn clearing_forgets_chunks_and_obstacles_but_not_the_stream() {
    let mut map = map_with_chunks(4);
    map.register_obstacle(-5, 1, 1);
    let _ = map.rand_range(0, 101);
    let stream = map.random_generator().state();
    map.clear();
    assert!(map.is_empty());
    assert!(!map.is_occupied(-5, 1));
    assert_eq!(map.next_chunk_x(), MAP_MIN_X as i64);
    assert_eq!(map.random_generator().state(), stream);
}

#[test]
fn the_maps_stream_draws_and_reseeds() {
    let mut map = WorldMap::new();
    let mut reference = RandomStream::new(0);
    for _ in 0..5 {
        assert_eq!(map.rand_range(0, 101), reference.rand_range(0, 101));
    }
    assert_eq!(map.random_generator().state(), reference.state());
    map.reseed(0);
    assert_eq!(map.random_generator().state(), RandomStream::new(0).state());
    assert_eq!(map.rand_range(0, 101), 20);
    map.reseed(12345);
    assert_eq!(map.random_generator().state(), RandomStream::new(12345).state());
    map.set_random_generator(reference);
    assert_eq!(map.random_generator().state(), reference.state());
}
