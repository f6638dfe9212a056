use kbm::x11::key::{InputEvent, MouseCode, SpecialCode};
use kbm::x11::{
    approach, clamp, Pointer, Received, Request, XConnection, KEY_TIME, MOUSE_DELTA,
};

const ROOT: u32 = 0x1d7;

fn press(detail: u8) -> Request {
    Request::FakeInput { event: InputEvent::KeyPress, detail, root: ROOT }
}

fn release(detail: u8) -> Request {
    Request::FakeInput { event: InputEvent::KeyRelease, detail, root: ROOT }
}

fn settle() -> Request {
    Request::Sleep { millis: 50 }
}

fn warp(x: i16, y: i16) -> Vec<Request> {
    vec![Request::WarpPointer { root: ROOT, x, y }, Request::Flush]
}

#[test]
fn constants() {
    assert_eq!(MOUSE_DELTA, 1);
    assert_eq!(KEY_TIME, 50);
}

#[test]
fn clamp_keeps_what_is_in_range() {
    assert_eq!(clamp(50, 0, 100), 50);
    assert_eq!(clamp(0, 0, 100), 0);
    assert_eq!(clamp(100, 0, 100), 100);
    assert_eq!(clamp(-10, 0, 100), 0);
    assert_eq!(clamp(200, 0, 100), 100);
    assert_eq!(clamp(i16::MIN, 0, 100), 0);
    assert_eq!(clamp(i16::MAX, 0, 100), 100);
    assert_eq!(clamp(5, 5, 5), 5);
    assert_eq!(clamp(-3, -5, -1), -3);
}

#[test]
fn clamp_with_crossed_bounds() {
    assert_eq!(clamp(50, 100, 0), 0);
    assert_eq!(clamp(-1, 100, 0), 100);
    assert_eq!(clamp(0, 100, 0), 100);
}

#[test]
fn approach_moves_one_step() {
    assert_eq!(approach(10, 0), 1);
    assert_eq!(approach(0, 10), 9);
    assert_eq!(approach(5, 5), 5);
    assert_eq!(approach(6, 5), 6);
    assert_eq!(approach(4, 5), 4);
    assert_eq!(approach(7, 5), 6);
    assert_eq!(approach(3, 5), 4);
}

#[test]
fn approach_at_the_ends_of_the_range() {
    assert_eq!(approach(i16::MAX, i16::MIN), i16::MIN + 1);
    assert_eq!(approach(i16::MIN, i16::MAX), i16::MAX - 1);
    assert_eq!(approach(i16::MAX, i16::MAX), i16::MAX);
    assert_eq!(approach(i16::MIN, i16::MIN), i16::MIN);
    assert_eq!(approach(i16::MAX, i16::MAX - 1), i16::MAX);
    assert_eq!(approach(i16::MIN, i16::MIN + 1), i16::MIN);
}

#[test]
fn approach_covers_n_steps_then_holds() {
    for (target, start) in [(10i16, 0i16), (0, 10), (-7, 3), (3, 3), (100, -100)] {
        let mut current = start;
        let distance = (target as i32 - start as i32).abs();
        for n in 1..=(distance + 5) {
            current = approach(target, current);
            let covered = n.min(distance);
            let expected = start as i32 + (target as i32 - start as i32).signum() * covered;
            assert_eq!(current as i32, expected);
        }
        assert_eq!(current, target);
    }
}

#[test]
fn the_pointer_walks_to_its_target_and_holds() {
    let conn = XConnection::new(ROOT);
    let mut pointer = Pointer { current: (0, 0), target: (0, 0) };
    let tick = conn.mouse_loop(&mut pointer, &[(10, 0)], false);
    assert_eq!(tick.requests, warp(1, 0));
    assert_eq!(pointer.current, (1, 0));
    for x in 2..=10 {
        let tick = conn.mouse_loop(&mut pointer, &[], false);
        assert!(!tick.stop);
        assert_eq!(tick.requests, warp(x, 0));
        assert_eq!(pointer.current, (x, 0));
    }
    for _ in 0..5 {
        let tick = conn.mouse_loop(&mut pointer, &[], false);
        assert_eq!(tick.requests, warp(10, 0));
        assert_eq!(pointer.current, (10, 0));
        assert_eq!(pointer.target, (10, 0));
    }
}

#[test]
fn a_new_target_is_followed_from_where_the_pointer_is() {
    let conn = XConnection::new(ROOT);
    let mut pointer = Pointer { current: (0, 0), target: (0, 0) };
    conn.mouse_loop(&mut pointer, &[(10, 0)], false);
    for _ in 0..4 {
        conn.mouse_loop(&mut pointer, &[], false);
    }
    assert_eq!(pointer.current, (5, 0));
    let tick = conn.mouse_loop(&mut pointer, &[(0, 0)], false);
    assert_eq!(tick.requests, warp(4, 0));
    for x in (0..=3).rev() {
        let tick = conn.mouse_loop(&mut pointer, &[], false);
        assert_eq!(tick.requests, warp(x, 0));
        assert_eq!(pointer.current, (x, 0));
    }
    let tick = conn.mouse_loop(&mut pointer, &[], false);
    assert_eq!(tick.requests, warp(0, 0));
}

#[test]
fn the_same_target_twice_moves_nothing_more() {
    let conn = XConnection::new(ROOT);
    let mut pointer = Pointer { current: (3, 4), target: (3, 4) };
    conn.mouse_loop(&mut pointer, &[(3, 4)], false);
    assert_eq!(pointer, Pointer { current: (3, 4), target: (3, 4) });
    conn.mouse_loop(&mut pointer, &[(3, 4), (3, 4)], false);
    assert_eq!(pointer, Pointer { current: (3, 4), target: (3, 4) });
}

#[test]
fn of_many_targets_the_newest_counts() {
    let conn = XConnection::new(ROOT);
    let mut pointer = Pointer { current: (50, 50), target: (50, 50) };
    conn.mouse_loop(&mut pointer, &[(0, 0), (100, 0), (60, 40)], false);
    assert_eq!(pointer.target, (60, 40));
    assert_eq!(pointer.current, (51, 49));
}

#[test]
fn the_pointer_loop_ends_without_senders() {
    let conn = XConnection::new(ROOT);
    let mut pointer = Pointer { current: (5, 5), target: (9, 9) };
    let tick = conn.mouse_loop(&mut pointer, &[(1, 1)], true);
    assert!(tick.stop);
    assert!(tick.requests.is_empty());
    assert_eq!(pointer, Pointer { current: (5, 5), target: (9, 9) });
}

#[test]
fn both_axes_move_at_once() {
    let conn = XConnection::new(ROOT);
    let (position, requests) = conn.mouse_approach((10, -10), (0, 0));
    assert_eq!(position, (1, -1));
    // what is sent is brought into the screen, what is kept is not
    assert_eq!(requests, warp(1, 0));
    let (position, _) = conn.mouse_approach((0, 7), (0, 0));
    assert_eq!(position, (0, 1));
}

#[test]
fn warps_are_brought_into_the_screen() {
    let conn = XConnection::new(ROOT);
    assert_eq!(conn.screen_root(), ROOT);
    assert_eq!(conn.mouse_to(50, 50), warp(50, 50));
    assert_eq!(conn.mouse_to(-10, 200), warp(0, 100));
    assert_eq!(conn.mouse_to(0, 100), warp(0, 100));
    assert_eq!(conn.mouse_to(101, -1), warp(100, 0));
    assert_eq!(conn.mouse_to(i16::MIN, i16::MAX), warp(0, 100));
}

#[test]
fn a_key_event_settles() {
    let conn = XConnection::new(ROOT);
    assert_eq!(conn.trigger_key(38, InputEvent::KeyPress), vec![press(38), settle()]);
    assert_eq!(
        conn.trigger_key(1, InputEvent::MouseRelease),
        vec![Request::FakeInput { event: InputEvent::MouseRelease, detail: 1, root: ROOT }, settle()]
    );
    assert_eq!(conn.set_upper(), press(50));
    assert_eq!(conn.release_upper(), release(50));
}

#[test]
fn a_lower_character_is_tapped() {
    let conn = XConnection::new(ROOT);
    assert_eq!(
        conn.enter_character('a'),
        Some(vec![press(38), settle(), release(38), settle(), Request::Flush])
    );
}

#[test]
fn an_upper_character_is_tapped_with_shift() {
    let conn = XConnection::new(ROOT);
    assert_eq!(
        conn.enter_character('A'),
        Some(vec![
            press(50),
            press(38),
            settle(),
            release(38),
            settle(),
            Request::Flush,
            release(50),
            Request::Flush,
        ])
    );
    assert_eq!(
        conn.enter_character('?'),
        Some(vec![
            press(50),
            press(61),
            settle(),
            release(61),
            settle(),
            Request::Flush,
            release(50),
            Request::Flush,
        ])
    );
}

#[test]
fn an_unknown_character_is_not_typed() {
    let conn = XConnection::new(ROOT);
    assert_eq!(conn.enter_character(' '), None);
    assert_eq!(conn.enter_character('\u{e9}'), None);
}

#[test]
fn a_special_key_is_tapped() {
    let conn = XConnection::new(ROOT);
    assert_eq!(
        conn.enter_special(SpecialCode::Return),
        vec![press(36), settle(), release(36), settle(), Request::Flush]
    );
    assert_eq!(
        conn.enter_special(SpecialCode::Space),
        vec![press(65), settle(), release(65), settle(), Request::Flush]
    );
}

#[test]
fn a_mouse_button_is_tapped() {
    let conn = XConnection::new(ROOT);
    assert_eq!(
        conn.tap_mouse_button(MouseCode::Right),
        vec![
            Request::FakeInput { event: InputEvent::MousePress, detail: 3, root: ROOT },
            settle(),
            Request::FakeInput { event: InputEvent::MouseRelease, detail: 3, root: ROOT },
            settle(),
            Request::Flush,
        ]
    );
}

#[test]
fn an_idle_round_asks_for_nothing() {
    let conn = XConnection::new(ROOT);
    let tick = conn.button_loop(Received::Empty, Received::Empty, Received::Empty);
    assert!(tick.requests.is_empty());
    assert!(!tick.stop);
}

#[test]
fn a_round_serves_each_channel_in_turn() {
    let conn = XConnection::new(ROOT);
    let tick = conn.button_loop(
        Received::Item('a'),
        Received::Item(MouseCode::Left),
        Received::Item(SpecialCode::Tab),
    );
    let mut expected = conn.enter_character('a').unwrap();
    expected.extend(conn.tap_mouse_button(MouseCode::Left));
    expected.extend(conn.enter_special(SpecialCode::Tab));
    assert_eq!(expected.len(), 15);
    assert_eq!(tick.requests, expected);
    assert!(!tick.stop);

    let tick = conn.button_loop(Received::Empty, Received::Item(MouseCode::ScrollDown), Received::Empty);
    assert_eq!(tick.requests, conn.tap_mouse_button(MouseCode::ScrollDown));

    let tick = conn.button_loop(Received::Item(' '), Received::Empty, Received::Empty);
    assert!(tick.requests.is_empty());
    assert!(!tick.stop);
}

#[test]
fn the_button_loop_ends_without_senders() {
    let conn = XConnection::new(ROOT);
    assert!(conn.button_loop(Received::Disconnected, Received::Empty, Received::Empty).stop);
    assert!(conn.button_loop(Received::Empty, Received::Disconnected, Received::Empty).stop);
    assert!(conn.button_loop(Received::Empty, Received::Empty, Received::Disconnected).stop);
    // what the other channels gave in that round is still served
    let tick = conn.button_loop(Received::Item('a'), Received::Disconnected, Received::Empty);
    assert!(tick.stop);
    assert_eq!(tick.requests, conn.enter_character('a').unwrap());
}
