use crossy_road::random::RandomStream;
use crossy_road::resources::obstacles::{ObstacleModel, TreeObstacles};

#[test]
fn seeding_gives_the_generators_state_words() {
    assert_eq!(RandomStream::new(0).state(), (10116158231463745938, 2885390081777926815));
    assert_eq!(RandomStream::new(12345).state(), (10694831691143060119, 2885390081777926815));
    assert_eq!(RandomStream::new(u64::MAX).state(), (3752022007616952933, 2885390081777926815));
}

#[test]
fn draws_follow_the_generators_sequence() {
    let mut stream = RandomStream::new(0);
    let mut rolls = Vec::new();
    for _ in 0..8 {
        rolls.push(stream.rand_range(0, 101));
    }
    assert_eq!(rolls, vec![20, 31, 16, 50, 48, 72, 21, 68]);

    let mut stream = RandomStream::new(0);
    let mut turns = Vec::new();
    for _ in 0..6 {
        turns.push(stream.rand_range(1, 3));
    }
    assert_eq!(turns, vec![1, 1, 1, 2, 1, 2]);
}

#[test]
fn a_draw_advances_the_stream() {
    let mut stream = RandomStream::new(7);
    let before = stream.state();
    let mut draws = Vec::new();
    for _ in 0..6 {
        draws.push(stream.rand_range(0, 4));
    }
    assert_eq!(draws, vec![1, 3, 2, 2, 2, 1]);
    assert_ne!(stream.state(), before);
    assert_eq!(stream.state(), (11795308910380885515, 2885390081777926815));
}

#[test]
fn a_stream_resumes_from_saved_state_words() {
    let mut saved = RandomStream::new(42);
    let _ = saved.rand_range(0, 101);
    let mut resumed = RandomStream::from_state(saved.state()).unwrap();
    for _ in 0..32 {
        assert_eq!(resumed.rand_range(0, 101), saved.rand_range(0, 101));
    }
    assert_eq!(resumed.state(), saved.state());
}

#[test]
fn draws_stay_inside_their_range() {
    let mut stream = RandomStream::new(3);
    for _ in 0..1000 {
        let roll = stream.rand_range(0, 101);
        assert!(roll < 101);
        let half_turns = stream.rand_range(1, 3);
        assert!(half_turns == 1 || half_turns == 2);
    }
}

#[test]
fn equal_seeds_give_equal_streams() {
    let mut first = RandomStream::new(99);
    let mut second = RandomStream::new(99);
    for _ in 0..64 {
        assert_eq!(first.rand_range(0, 1000), second.rand_range(0, 1000));
    }
}

#[test]
fn tree_index_selects_the_model() {
    assert_eq!(TreeObstacles::from_index(0), ObstacleModel::SmallTree);
    assert_eq!(TreeObstacles::from_index(1), ObstacleModel::MediumTree);
    assert_eq!(TreeObstacles::from_index(2), ObstacleModel::LargeTree);
    assert_eq!(TreeObstacles::from_index(3), ObstacleModel::XlTree);
    assert_eq!(TreeObstacles::from_index(4), ObstacleModel::XlTree);
    assert_eq!(TreeObstacles::from_index(u32::MAX), ObstacleModel::XlTree);
}

#[test]
fn a_random_tree_takes_one_draw_from_four() {
    let mut stream = RandomStream::new(7);
    let mut reference = RandomStream::new(7);
    for _ in 0..6 {
        let model = TreeObstacles::get_random(&mut stream);
        assert_eq!(model, TreeObstacles::from_index(reference.rand_range(0, 4)));
        assert_eq!(stream.state(), reference.state());
    }
}

#[test]
fn state_words_with_an_even_increment_are_no_stream() {
    assert!(RandomStream::from_state((0, 0)).is_none());
    assert!(RandomStream::from_state((10116158231463745938, 2885390081777926814)).is_none());
    let resumed = RandomStream::from_state((5, 7)).unwrap();
    assert_eq!(resumed.state(), (5, 7));
    let mut odd = RandomStream::from_state((0, 1)).unwrap();
    for _ in 0..100 {
        assert!(odd.rand_range(0, 101) < 101);
    }
    assert_eq!(odd.state().1, 1);
}
