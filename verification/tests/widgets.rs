use fusion::anchor::Anchor;
use fusion::batch::{CommandBuffer, DrawKind};
use fusion::button::{Alignment, ButtonFsm, ButtonStyles, Placement};
use fusion::color::{Argb8888, AsColor, Border, Color, NoColor};

#[test]
fn button_styles_name_their_keys() {
    let styles = ButtonStyles::new("button");
    assert_eq!(styles.normal.background, "button:normal:background");
    assert_eq!(styles.hover.border, "button:hover:border");
    assert_eq!(styles.pressed.corners, "button:pressed:corners");
    assert_eq!(styles.style_for(ButtonFsm::PressedOutside).background, "button:pressed:background");
    assert_eq!(styles.style_for(ButtonFsm::Hovered).background, "button:hover:background");
    assert_eq!(styles.style_for(ButtonFsm::Normal).corners, "button:normal:corners");
}

#[test]
fn button_click_sequence() {
    let mut s = ButtonFsm::default();
    assert_eq!(s, ButtonFsm::Normal);
    s = s.next(true, false);
    assert_eq!(s, ButtonFsm::Hovered);
    s = s.next(true, true);
    assert_eq!(s, ButtonFsm::Pressed);
    s = s.next(false, true);
    assert_eq!(s, ButtonFsm::PressedOutside);
    s = s.next(true, true);
    assert_eq!(s, ButtonFsm::PressedOutside);
    s = s.next(true, false);
    assert_eq!(s, ButtonFsm::Normal);
}

#[test]
fn law_press_starts_from_hover_example() {
    assert_eq!(ButtonFsm::Normal.next(true, true), ButtonFsm::Hovered);
    assert_eq!(ButtonFsm::Hovered.next(true, true), ButtonFsm::Pressed);
}

#[test]
fn law_release_ends_press_example() {
    assert_eq!(ButtonFsm::Pressed.next(false, false), ButtonFsm::Hovered);
    assert_eq!(ButtonFsm::PressedOutside.next(false, false), ButtonFsm::Normal);
}

#[test]
fn law_idle_returns_to_normal_example() {
    for s in [ButtonFsm::Normal, ButtonFsm::Hovered, ButtonFsm::Pressed, ButtonFsm::PressedOutside] {
        assert_eq!(s.next(false, false).next(false, false), ButtonFsm::Normal);
    }
}

#[test]
fn alignment_placements() {
    assert_eq!(Alignment::default(), Alignment::TopLeft);
    assert_eq!(Alignment::Center.horizontal(), Placement::Middle);
    assert_eq!(Alignment::BottomRight.vertical(), Placement::End);
    assert_eq!(Alignment::CenterLeft.horizontal(), Placement::Start);
    assert_eq!(Alignment::CenterLeft.vertical(), Placement::Middle);
}

#[test]
fn anchors_as_flags() {
    let a = Anchor::left().union(&Anchor::bottom()).union(&Anchor::center());
    assert!(a.contains(&Anchor::left()));
    assert!(!a.contains(&Anchor::right()));
    let flags: Vec<u8> = a.iter().iter().map(|f| f.bits()).collect();
    assert_eq!(flags, vec![1, 8, 16]);
    assert_eq!(Anchor::from_bits_truncate(0xff).bits(), 0x7f);
    assert_eq!(Anchor::default().iter().len(), 0);
    assert_eq!(Anchor::empty().bits(), 0);
}

#[test]
fn law_union_contains_both_example() {
    let a = Anchor::top().union(&Anchor::horizontal_center());
    assert!(a.contains(&Anchor::top()) && a.contains(&Anchor::horizontal_center()));
}

#[test]
fn border_sides() {
    let mut b: Border<Argb8888, NoColor, Argb8888, NoColor> = Border::default();
    let red = Argb8888::new(255, 0, 0, 255);
    b.set_left(red);
    b.set_top(Argb8888::new(0, 0, 255, 255));
    assert_eq!(b.get_left(), red);
    assert_eq!(b.get_top(), Argb8888::new(0, 0, 255, 255));
    let colors = b.as_color_array();
    assert_eq!(colors[0], Color::Simple(red));
    assert_eq!(colors[1], Color::Simple(Argb8888::transparent()));
    assert_eq!(colors[3], NoColor.as_color());
    let mut all: Border<NoColor, Argb8888, NoColor, Argb8888> = Border::default();
    all.set_right(red);
    all.set_bottom(red);
    assert_eq!(all.get_right(), red);
    assert_eq!(all.get_bottom(), red);
}

#[test]
fn commands_batch_by_kind() {
    let mut buf: CommandBuffer<u32> = CommandBuffer::new();
    buf.push(DrawKind::Rect, 1);
    buf.push(DrawKind::Rect, 2);
    buf.push(DrawKind::Text(Some("Ubuntu".to_string())), 3);
    buf.push(DrawKind::Text(Some("Ubuntu".to_string())), 4);
    buf.push(DrawKind::Text(Some("Mono".to_string())), 5);
    buf.push(DrawKind::Texture, 6);
    buf.pack_active_group();
    let groups: Vec<Vec<u32>> = buf
        .packed_groups()
        .iter()
        .map(|g| g.commands().iter().map(|c| c.command).collect())
        .collect();
    assert_eq!(groups, vec![vec![1, 2], vec![3, 4], vec![5], vec![6]]);
    assert!(DrawKind::Text(None).same_batch(&DrawKind::Text(None)));
    assert!(!DrawKind::Rect.same_batch(&DrawKind::Texture));
}

#[test]
fn law_dragged_press_stays_outside_example() {
    assert_eq!(ButtonFsm::PressedOutside.next(true, true), ButtonFsm::PressedOutside);
    assert_eq!(ButtonFsm::PressedOutside.next(false, true), ButtonFsm::PressedOutside);
}

#[test]
fn law_alignment_determined_by_placements_example() {
    let all = [
        Alignment::TopLeft,
        Alignment::TopCenter,
        Alignment::TopRight,
        Alignment::CenterLeft,
        Alignment::Center,
        Alignment::CenterRight,
        Alignment::BottomLeft,
        Alignment::BottomCenter,
        Alignment::BottomRight,
    ];
    for a in all {
        for b in all {
            let same = a.horizontal() == b.horizontal() && a.vertical() == b.vertical();
            assert_eq!(same, a == b);
        }
    }
}

#[test]
fn law_batching_example() {
    let mut buf: CommandBuffer<u32> = CommandBuffer::new();
    let kinds = [
        DrawKind::Rect,
        DrawKind::Texture,
        DrawKind::Texture,
        DrawKind::Rect,
        DrawKind::Rect,
        DrawKind::Rect,
        DrawKind::Texture,
    ];
    for (i, kind) in kinds.into_iter().enumerate() {
        buf.push(kind, i as u32);
    }
    let groups: Vec<Vec<u32>> = buf
        .packed_groups()
        .iter()
        .map(|g| g.commands().iter().map(|c| c.command).collect())
        .collect();
    assert_eq!(groups, vec![vec![0], vec![1, 2], vec![3, 4, 5]]);
    for g in buf.packed_groups() {
        assert!(!g.commands().is_empty());
    }
    let packed = buf.packed_groups();
    for w in packed.windows(2) {
        let last = &w[0].commands().last().unwrap().kind;
        let first = &w[1].commands()[0].kind;
        assert!(!last.same_batch(first));
    }
}

#[test]
fn border_built_from_sides() {
    let red = Argb8888::new(255, 0, 0, 255);
    let b = Border::new(red, NoColor, red, NoColor);
    assert_eq!(b.get_left(), red);
    assert_eq!(b.get_top(), red);
    let colors = b.as_color_array();
    assert_eq!(colors[0], Color::Simple(red));
    assert_eq!(colors[1], Color::Simple(Argb8888::transparent()));
}
