use adventure_sim::component::animation::directional_animation::{
    DirectionalAnimation, DirectionalFrame,
};
use adventure_sim::component::animation::simple_animation::{SimpleAnimation, SimpleFrame};
use adventure_sim::component::animation::Reel;
use adventure_sim::component::{Animation, Direction, Frame};

fn frame(first: usize, duration: Option<u32>) -> Frame {
    Frame { up: first, down: first + 1, left: first + 2, right: first + 3, duration }
}

#[test]
fn animation_shows_each_frame_for_its_duration() {
    let mut animation = Animation::new(vec![frame(0, Some(2)), frame(10, Some(1)), frame(20, Some(3))]);
    animation.set_direction(Direction::Down);
    let mut shown: Vec<usize> = Vec::new();
    for _ in 0..13 {
        shown.push(animation.current_sprite_render());
        animation.advance();
    }
    assert_eq!(shown, vec![1, 1, 11, 21, 21, 21, 1, 1, 11, 21, 21, 21, 1]);
}

#[test]
fn animation_stops_on_a_frame_without_duration() {
    let mut animation = Animation::new(vec![frame(0, Some(1)), frame(10, None), frame(20, Some(1))]);
    assert_eq!(animation.current_sprite_render(), 0);
    animation.advance();
    for _ in 0..10 {
        assert_eq!(animation.current_sprite_render(), 10);
        animation.advance();
    }
}

#[test]
fn animation_faces_where_it_is_told() {
    let mut animation = Animation::new(vec![frame(4, None)]);
    // An animation faces up at first.
    assert_eq!(animation.current_sprite_render(), 4);
    animation.set_direction(Direction::Down);
    assert_eq!(animation.current_sprite_render(), 5);
    animation.set_direction(Direction::Left);
    assert_eq!(animation.current_sprite_render(), 6);
    animation.set_direction(Direction::Right);
    assert_eq!(animation.current_sprite_render(), 7);
    animation.advance();
    assert_eq!(animation.current_sprite_render(), 7);
    assert_eq!(frame(4, None).sprite_number(Direction::Left), 6);
}

#[test]
fn single_frame_follows_itself() {
    let mut animation = Animation::new(vec![frame(4, Some(1))]);
    for _ in 0..5 {
        assert_eq!(animation.current_sprite_render(), 4);
        animation.advance();
    }
}

#[test]
fn directional_animation_cycles_and_turns() {
    let frames = vec![
        DirectionalFrame { up: 0, down: 1, left: 2, right: 3, duration: Some(2) },
        DirectionalFrame { up: 4, down: 5, left: 6, right: 7, duration: Some(2) },
    ];
    assert_eq!(frames[1].sprite_number(Direction::Right), 7);
    let mut animation = DirectionalAnimation::new(frames);
    let mut shown: Vec<usize> = Vec::new();
    for tick in 0..8 {
        if tick == 3 {
            animation.set_direction(Direction::Left);
        }
        shown.push(animation.current_sprite_render());
        animation.advance();
    }
    assert_eq!(shown, vec![0, 0, 4, 6, 2, 2, 6, 6]);
    // The sprite of an attack does not change with time.
    let mut attack = DirectionalAnimation::new(vec![DirectionalFrame {
        up: 0,
        down: 1,
        left: 2,
        right: 3,
        duration: None,
    }]);
    attack.set_direction(Direction::Down);
    for _ in 0..4 {
        attack.advance();
        assert_eq!(attack.current_sprite_render(), 1);
    }
}

#[test]
fn simple_animation_cycles() {
    let mut animation = SimpleAnimation::new(vec![
        SimpleFrame { sprite_number: 7, duration: Some(1) },
        SimpleFrame { sprite_number: 8, duration: Some(2) },
    ]);
    let mut shown: Vec<usize> = Vec::new();
    for _ in 0..7 {
        shown.push(animation.current_sprite_render());
        animation.advance();
    }
    assert_eq!(shown, vec![7, 8, 8, 7, 8, 8, 7]);
    let mut still = SimpleAnimation::new(vec![SimpleFrame { sprite_number: 3, duration: None }]);
    still.advance();
    assert_eq!(still.current_sprite_render(), 3);
}

#[test]
fn reel_counts_the_ticks_of_a_frame() {
    let mut reel = Reel { frame_number: 1, frame_progress: 0 };
    reel.advance(2, Some(u32::MAX));
    assert_eq!(reel, Reel { frame_number: 1, frame_progress: 1 });
    let mut reel = Reel { frame_number: 1, frame_progress: u32::MAX - 1 };
    reel.advance(2, Some(u32::MAX));
    assert_eq!(reel, Reel { frame_number: 0, frame_progress: 0 });
    let mut reel = Reel { frame_number: usize::MAX - 1, frame_progress: 6 };
    reel.advance(usize::MAX, None);
    assert_eq!(reel, Reel { frame_number: usize::MAX - 1, frame_progress: 6 });
    reel.advance(usize::MAX, Some(7));
    assert_eq!(reel, Reel { frame_number: 0, frame_progress: 0 });
}
