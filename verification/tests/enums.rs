use hyprviz::hyprland::above_lock::AboveLock;
use hyprviz::hyprland::animation_name::AnimationName;
use hyprviz::hyprland::cm::Cm;
use hyprviz::hyprland::content_type::ContentType;
use hyprviz::hyprland::content_type_int::ContentTypeInt;
use hyprviz::hyprland::cursor_corner::CursorCorner;
use hyprviz::hyprland::direction::Direction;
use hyprviz::hyprland::dispatcher_fullscreen_state::DispatcherFullscreenState;
use hyprviz::hyprland::dispatcher_fullscreen_state_action::DispatcherFullscreenStateAction;
use hyprviz::hyprland::fullscreen_action::FullscreenAction;
use hyprviz::hyprland::fullscreen_mode::FullscreenMode;
use hyprviz::hyprland::fullscreen_state::FullscreenState;
use hyprviz::hyprland::gesture_direction::GestureDirection;
use hyprviz::hyprland::gesture_floating::GestureFloating;
use hyprviz::hyprland::gesture_fullscreen::GestureFullscreen;
use hyprviz::hyprland::group_lock_action::GroupLockAction;
use hyprviz::hyprland::hypr_layout::HyprLayout;

#[test]
fn direction_reads_short_and_long_names() {
    assert_eq!(Direction::from_str("l"), Ok(Direction::Left));
    assert_eq!(Direction::from_str(" RIGHT "), Ok(Direction::Right));
    assert_eq!(Direction::from_str("u"), Ok(Direction::Up));
    assert_eq!(Direction::from_str("Down"), Ok(Direction::Down));
    assert_eq!(Direction::from_str("x"), Err(()));
    assert_eq!(Direction::from_str(""), Err(()));
}

#[test]
fn direction_writes_long_names_that_read_back() {
    for d in [Direction::Left, Direction::Right, Direction::Up, Direction::Down] {
        assert_eq!(Direction::from_str(&d.to_string()), Ok(d));
    }
    assert_eq!(Direction::Up.to_string(), "up");
    assert_eq!(Direction::default(), Direction::Left);
}

#[test]
fn fullscreen_actions_read_and_write() {
    assert_eq!(FullscreenAction::from_str(" Toggle"), Ok(FullscreenAction::Toggle));
    assert_eq!(FullscreenAction::from_str("set"), Ok(FullscreenAction::SetTo));
    assert_eq!(FullscreenAction::from_str("UNSET"), Ok(FullscreenAction::Unset));
    assert_eq!(FullscreenAction::from_str("on"), Err(()));
    assert_eq!(FullscreenAction::SetTo.to_string(), "set");
    assert_eq!(FullscreenAction::default(), FullscreenAction::Toggle);
    assert_eq!(DispatcherFullscreenStateAction::from_str("set"), Ok(DispatcherFullscreenStateAction::SetTo));
    assert_eq!(DispatcherFullscreenStateAction::from_str("toggle"), Ok(DispatcherFullscreenStateAction::Toggle));
    assert_eq!(DispatcherFullscreenStateAction::from_str("unset"), Err(()));
    assert_eq!(DispatcherFullscreenStateAction::Toggle.to_string(), "toggle");
}

#[test]
fn gesture_direction_round_trip() {
    let all = [
        GestureDirection::Swipe,
        GestureDirection::Horizontal,
        GestureDirection::Vertical,
        GestureDirection::Left,
        GestureDirection::Right,
        GestureDirection::Up,
        GestureDirection::Down,
        GestureDirection::Pinch,
        GestureDirection::PinchIn,
        GestureDirection::PinchOut,
    ];
    for d in all {
        assert_eq!(GestureDirection::from_str(&d.to_string()), Ok(d));
    }
    assert_eq!(GestureDirection::from_str("PinchIn"), Ok(GestureDirection::PinchIn));
    assert_eq!(GestureDirection::PinchOut.to_string(), "pinchout");
    assert_eq!(GestureDirection::from_str("pinch in"), Err(()));
}

#[test]
fn gesture_floating_and_fullscreen_default_to_empty() {
    assert_eq!(GestureFloating::from_str(""), Ok(GestureFloating::Toggle));
    assert_eq!(GestureFloating::from_str("toggle"), Ok(GestureFloating::Toggle));
    assert_eq!(GestureFloating::from_str("Float"), Ok(GestureFloating::Float));
    assert_eq!(GestureFloating::from_str("tile"), Ok(GestureFloating::Tile));
    assert_eq!(GestureFloating::from_str("tiled"), Err(()));
    assert_eq!(GestureFloating::Toggle.to_string(), "");
    assert_eq!(GestureFloating::Tile.to_string(), "tile");
    assert_eq!(GestureFullscreen::from_str("  "), Ok(GestureFullscreen::Fullscreen));
    assert_eq!(GestureFullscreen::from_str("maximize"), Ok(GestureFullscreen::Maximize));
    assert_eq!(GestureFullscreen::from_str("max"), Err(()));
    assert_eq!(GestureFullscreen::Fullscreen.to_string(), "");
    assert_eq!(GestureFullscreen::Maximize.to_string(), "maximize");
}

#[test]
fn group_lock_action_reads_and_writes() {
    assert_eq!(GroupLockAction::from_str("lock"), Ok(GroupLockAction::Lock));
    assert_eq!(GroupLockAction::from_str("Unlock"), Ok(GroupLockAction::Unlock));
    assert_eq!(GroupLockAction::from_str("toggle "), Ok(GroupLockAction::Toggle));
    assert_eq!(GroupLockAction::from_str("locked"), Err(()));
    assert_eq!(GroupLockAction::default(), GroupLockAction::Toggle);
    assert_eq!(GroupLockAction::Unlock.to_string(), "unlock");
}

#[test]
fn hypr_layout_is_case_sensitive_and_quotes_bad_input() {
    assert!(matches!(HyprLayout::from_str(" master "), Ok(HyprLayout::Master)));
    assert!(matches!(HyprLayout::from_str("monocle"), Ok(HyprLayout::Monocle)));
    assert!(matches!(HyprLayout::from_str("scrolling"), Ok(HyprLayout::Scrolling)));
    match HyprLayout::from_str("Dwindle") {
        Err(e) => assert_eq!(e, "Invalid orientation: Dwindle"),
        Ok(_) => panic!("a capitalised name is no layout"),
    }
    assert_eq!(HyprLayout::Dwindle.to_string(), "dwindle");
    assert!(matches!(HyprLayout::default(), HyprLayout::Dwindle));
}

#[test]
fn cm_names_ids_and_fancy_list() {
    assert!(matches!(Cm::from_str("SRGB"), Ok(Cm::Srgb)));
    assert!(matches!(Cm::from_str(" hdredid "), Ok(Cm::Hdredid)));
    assert!(Cm::from_str("p3").is_err());
    assert_eq!(Cm::Dcip3.to_string(), "dcip3");
    assert!(matches!(Cm::from_id(3), Cm::Dp3));
    assert!(matches!(Cm::from_id(8), Cm::Hdredid));
    assert!(matches!(Cm::from_id(9), Cm::Auto));
    let fancy = Cm::get_fancy_list();
    assert_eq!(fancy[0], "Auto");
    assert_eq!(fancy[2], "CDI-P3");
    assert_eq!(fancy[8], "HDR-EDID");
    for id in 0u32..9 {
        let c = Cm::from_id(id);
        assert!(matches!(Cm::from_str(&c.to_string()), Ok(_)));
    }
}

#[test]
fn above_lock_numbers() {
    assert_eq!(AboveLock::try_from(0), Ok(AboveLock::BelowLock));
    assert_eq!(AboveLock::try_from(2), Ok(AboveLock::AboveLockInteractable));
    assert_eq!(AboveLock::try_from(3), Err(()));
    assert_eq!(AboveLock::from_str(" 1 "), Ok(AboveLock::AboveLock));
    assert_eq!(AboveLock::from_str("+2"), Ok(AboveLock::AboveLockInteractable));
    assert_eq!(AboveLock::from_str("3"), Err(()));
    assert_eq!(AboveLock::from_str("one"), Err(()));
    assert_eq!(AboveLock::from_str(""), Err(()));
    assert_eq!(AboveLock::AboveLockInteractable.to_string(), "2");
    assert_eq!(u8::from(AboveLock::AboveLock), 1);
    assert_eq!(AboveLock::default(), AboveLock::BelowLock);
}

#[test]
fn content_types_read_names_and_numbers() {
    assert_eq!(ContentType::from_str("3"), Ok(ContentType::Game));
    assert_eq!(ContentType::from_str("photo"), Ok(ContentType::Photo));
    assert_eq!(ContentType::from_str("none"), Ok(ContentType::NoContent));
    assert_eq!(ContentType::from_str("4"), Err(()));
    assert_eq!(ContentType::from_str("Video"), Err(()));
    assert_eq!(ContentType::Video.to_string(), "video");
    assert_eq!(u8::from(ContentType::Game), 3);
    assert_eq!(ContentType::try_from(1), Ok(ContentType::Photo));
    assert_eq!(ContentTypeInt::from_str("game"), Ok(ContentTypeInt::Game));
    assert_eq!(ContentTypeInt::from_str("0"), Ok(ContentTypeInt::NoContent));
    assert_eq!(ContentTypeInt::from_str(""), Err(()));
    assert_eq!(ContentTypeInt::Video.to_string(), "2");
    assert_eq!(u8::from(ContentTypeInt::Photo), 1);
    assert_eq!(ContentTypeInt::try_from(9), Err(()));
}

#[test]
fn cursor_corner_numbers() {
    assert_eq!(CursorCorner::from_num(2), CursorCorner::BottomLeft);
    assert_eq!(CursorCorner::from_num(7), CursorCorner::TopLeft);
    assert_eq!(CursorCorner::BottomRight.to_num(), 3);
    assert_eq!(CursorCorner::from_str("1"), Ok(CursorCorner::TopRight));
    assert_eq!(CursorCorner::from_str(" 1"), Ok(CursorCorner::TopLeft));
    assert_eq!(CursorCorner::from_str("corner"), Ok(CursorCorner::TopLeft));
    assert_eq!(CursorCorner::BottomLeft.to_string(), "2");
    for n in 0u8..4 {
        assert_eq!(CursorCorner::from_num(n).to_num(), n);
    }
}

#[test]
fn dispatcher_fullscreen_state_numbers() {
    assert_eq!(DispatcherFullscreenState::from_num(-1), DispatcherFullscreenState::Current);
    assert_eq!(DispatcherFullscreenState::from_num(0), DispatcherFullscreenState::Windowed);
    assert_eq!(DispatcherFullscreenState::from_num(3), DispatcherFullscreenState::MaximizeAndFullscreen);
    assert_eq!(DispatcherFullscreenState::from_num(4), DispatcherFullscreenState::Current);
    assert_eq!(DispatcherFullscreenState::Current.to_num(), -1);
    assert_eq!(DispatcherFullscreenState::from_str(" 2 "), Ok(DispatcherFullscreenState::Fullscreen));
    assert_eq!(DispatcherFullscreenState::from_str("x"), Ok(DispatcherFullscreenState::Current));
    assert_eq!(DispatcherFullscreenState::Current.to_string(), "-1");
    assert_eq!(DispatcherFullscreenState::Maximize.to_string(), "1");
    assert_eq!(DispatcherFullscreenState::default(), DispatcherFullscreenState::Windowed);
    for n in -1i8..4 {
        assert_eq!(DispatcherFullscreenState::from_num(n).to_num(), n);
    }
}

#[test]
fn fullscreen_mode_and_state_numbers() {
    assert_eq!(FullscreenMode::from_num(1), FullscreenMode::Maximize);
    assert_eq!(FullscreenMode::from_num(5), FullscreenMode::Fullscreen);
    assert_eq!(FullscreenMode::Maximize.to_num(), 1);
    assert_eq!(FullscreenMode::from_str(" 1"), Ok(FullscreenMode::Maximize));
    assert_eq!(FullscreenMode::from_str("9"), Ok(FullscreenMode::Fullscreen));
    assert_eq!(FullscreenMode::from_str(""), Err(()));
    assert_eq!(FullscreenMode::from_str("-1"), Err(()));
    assert_eq!(FullscreenMode::Maximize.to_string(), "1");
    assert_eq!(FullscreenState::from_num(3), FullscreenState::MaximizeAndFullscreen);
    assert_eq!(FullscreenState::from_num(200), FullscreenState::Windowed);
    assert_eq!(FullscreenState::Fullscreen.to_num(), 2);
    assert_eq!(FullscreenState::from_str("2"), Ok(FullscreenState::Fullscreen));
    assert_eq!(FullscreenState::from_str("two"), Err(()));
    assert_eq!(FullscreenState::Maximize.to_string(), "1");
    for n in 0u8..4 {
        assert_eq!(FullscreenState::from_num(n).to_num(), n);
    }
}

#[test]
fn animation_names_list_and_round_trip() {
    let list = AnimationName::get_list();
    assert_eq!(list.len(), 31);
    assert_eq!(list[0], "global");
    assert_eq!(list[22], "borderangle");
    assert_eq!(list[30], "monitorAdded");
    for name in list {
        let a = AnimationName::from_str(name).unwrap();
        assert_eq!(a.to_string(), name);
    }
    assert_eq!(AnimationName::from_str(" fadeDpms "), Ok(AnimationName::FadeDpms));
    assert_eq!(AnimationName::from_str("unknown"), Ok(AnimationName::Global));
    assert_eq!(AnimationName::from_str("FADEIN"), Ok(AnimationName::Global));
}
