use disco_display::{touch_point_from_raw, Interaction, Point, TouchHandler};

fn pt(x: i32, y: i32) -> Point {
    Point { x, y }
}

#[test]
fn press_is_confirmed_on_second_frame() {
    let mut h = TouchHandler::new();
    assert!(!h.was_touching);
    assert_eq!(h.update(true, Some((10, 20))), Interaction::Nothing);
    assert!(!h.was_touching);
    assert_eq!(h.update(true, Some((11, 21))), Interaction::Click(pt(11, 21)));
    assert!(h.was_touching);
}

#[test]
fn held_touch_drags() {
    let mut h = TouchHandler::new();
    h.update(true, Some((1, 1)));
    h.update(true, Some((2, 2)));
    assert_eq!(h.update(true, Some((3, 4))), Interaction::Drag(pt(3, 4)));
    // without a new sample the last point is reported
    assert_eq!(h.update(true, None), Interaction::Drag(pt(3, 4)));
}

#[test]
fn release_is_confirmed_on_third_frame() {
    let mut h = TouchHandler::new();
    h.update(true, Some((1, 1)));
    h.update(true, Some((7, 8)));
    assert_eq!(h.update(false, None), Interaction::Nothing);
    assert!(h.was_touching);
    assert_eq!(h.update(false, None), Interaction::Nothing);
    assert!(h.was_touching);
    assert_eq!(h.update(false, None), Interaction::Release(pt(7, 8)));
    assert!(!h.was_touching);
    assert_eq!(h.update(false, None), Interaction::Nothing);
}

#[test]
fn single_frame_blip_is_ignored() {
    let mut h = TouchHandler::new();
    assert_eq!(h.update(true, Some((5, 5))), Interaction::Nothing);
    assert_eq!(h.update(false, None), Interaction::Nothing);
    assert_eq!(h.update(true, Some((5, 5))), Interaction::Nothing);
    assert!(!h.was_touching);
}

#[test]
fn short_gap_continues_as_drag() {
    let mut h = TouchHandler::new();
    h.update(true, Some((1, 1)));
    h.update(true, Some((1, 1)));
    assert_eq!(h.update(false, None), Interaction::Nothing);
    assert_eq!(h.update(false, None), Interaction::Nothing);
    assert_eq!(h.update(true, Some((9, 9))), Interaction::Drag(pt(9, 9)));
    // the release count starts over
    assert_eq!(h.update(false, None), Interaction::Nothing);
    assert_eq!(h.update(false, None), Interaction::Nothing);
    assert_eq!(h.update(false, None), Interaction::Release(pt(9, 9)));
}

#[test]
fn clicks_and_releases_alternate() {
    let mut h = TouchHandler::new();
    let frames = [true, true, true, false, true, false, false, false, false, true, true, false, false, false];
    let mut touching = false;
    for (i, &d) in frames.iter().enumerate() {
        let e = h.update(d, Some((i as i32, 0)));
        match e {
            Interaction::Click(_) => {
                assert!(!touching);
                touching = true;
            }
            Interaction::Drag(_) => assert!(touching),
            Interaction::Release(_) => {
                assert!(touching);
                touching = false;
            }
            Interaction::Nothing => {}
        }
        assert_eq!(touching, h.was_touching);
    }
}

#[test]
fn raw_reading_axes_are_swapped() {
    assert_eq!(touch_point_from_raw(3, 4), (4, 3));
    assert_eq!(touch_point_from_raw(271, 479), (479, 271));
    assert_eq!(touch_point_from_raw(u16::MAX, 0), (0, 65535));
}

#[test]
fn poll_sends_only_interactions() {
    let mut h = TouchHandler::new();
    assert_eq!(h.poll(false, None), None);
    assert_eq!(h.poll(true, Some((5, 7))), None);
    assert_eq!(h.poll(true, Some((6, 8))), Some(Interaction::Click(pt(8, 6))));
    assert_eq!(h.poll(true, Some((6, 9))), Some(Interaction::Drag(pt(9, 6))));
    assert_eq!(h.poll(false, None), None);
    assert_eq!(h.poll(false, None), None);
    assert_eq!(h.poll(false, None), Some(Interaction::Release(pt(9, 6))));
}

#[test]
fn was_touching_getter_follows_the_flag() {
    let mut h = TouchHandler::new();
    assert!(!h.was_touching());
    h.update(true, Some((1, 2)));
    h.update(true, Some((1, 2)));
    assert!(h.was_touching());
    assert_eq!(h.was_touching(), h.was_touching);
}

#[test]
fn points_do_not_change_kinds() {
    let flags = [true, true, false, true, false, false, false, true, false, true, true];
    let mut a = TouchHandler::new();
    let mut b = TouchHandler::new();
    for (k, &d) in flags.iter().enumerate() {
        let ea = a.update(d, Some((k as i32, 2 * k as i32)));
        let eb = b.update(d, if k % 2 == 0 { None } else { Some((-1, 500)) });
        assert_eq!(std::mem::discriminant(&ea), std::mem::discriminant(&eb));
        assert_eq!(a.was_touching(), b.was_touching());
    }
}
