use hyprviz::hyprland::angle::Angle;
use hyprviz::hyprland::bind_flags::BindFlags;
use hyprviz::hyprland::bind_flags_enum::BindFlagsEnum;
use hyprviz::hyprland::bind_left::BindLeft;
use hyprviz::hyprland::change_group_active::{ChangeGroupActive, ChangeGroupActiveDiscriminant};
use hyprviz::hyprland::css_gaps::{CssGaps, CssGapsDiscriminant};
use hyprviz::hyprland::cycle_next::CycleNext;
use hyprviz::hyprland::font_weight::{FontWeight, FontWeightDiscriminant};

#[test]
fn angle_reads_degrees() {
    assert_eq!(Angle::from_str("45deg"), Ok(Angle::Degrees(45)));
    assert_eq!(Angle::from_str(" 360deg "), Ok(Angle::Degrees(360)));
    assert_eq!(Angle::from_str("deg"), Ok(Angle::Degrees(0)));
    assert_eq!(Angle::from_str("xdeg"), Ok(Angle::Degrees(0)));
    assert_eq!(Angle::from_str("70000deg"), Ok(Angle::Degrees(0)));
    assert_eq!(Angle::from_str("45"), Err(()));
    assert_eq!(Angle::from_str(""), Err(()));
    assert_eq!(Angle::Degrees(90).to_string(), "90deg");
    assert_eq!(Angle::default(), Angle::Degrees(0));
    for d in [0u16, 7, 180, 65535] {
        assert_eq!(Angle::from_str(&Angle::Degrees(d).to_string()), Ok(Angle::Degrees(d)));
    }
}

#[test]
fn bind_flags_read_letters() {
    let f = BindFlags::from_str(" lre ").unwrap();
    assert!(f.locked && f.release && f.repeat);
    assert!(!f.click && !f.mouse && !f.bypass);
    let all = BindFlags::from_str("lrcgoenmtisdp").unwrap();
    assert_eq!(all.to_string(), "lrcgoenmtisdp");
    let shuffled = BindFlags::from_str("pdl?xz").unwrap();
    assert_eq!(shuffled.to_string(), "ldp");
    assert_eq!(BindFlags::from_str("").unwrap(), BindFlags::default());
    assert_eq!(BindFlags::default().to_string(), "");
}

#[test]
fn bind_flags_write_and_read_back() {
    let mut f = BindFlags::default();
    f.mouse = true;
    f.transparent = true;
    f.has_description = true;
    assert_eq!(f.to_string(), "mtd");
    assert_eq!(BindFlags::from_str(&f.to_string()), Ok(f));
    let v: Vec<char> = "gm".chars().collect();
    let g = BindFlags::from_letters(&v);
    assert!(g.drag && g.mouse);
    let mut out = String::from("bind");
    g.push_letters(&mut out);
    assert_eq!(out, "bindgm");
}

#[test]
fn bind_flags_enum_lists_each_flag_once() {
    let all = BindFlagsEnum::get_all();
    assert_eq!(all.len(), 13);
    assert_eq!(all[0], BindFlagsEnum::Locked);
    assert_eq!(all[4], BindFlagsEnum::LongPress);
    assert_eq!(all[12], BindFlagsEnum::Bypass);
    for i in 0..13 {
        for j in 0..13 {
            assert_eq!(all[i] == all[j], i == j);
        }
    }
}

#[test]
fn bind_left_reads_bind_and_unbind() {
    assert_eq!(BindLeft::from_str("bind"), Ok(BindLeft::Bind(BindFlags::default())));
    assert_eq!(BindLeft::from_str(" unbind "), Ok(BindLeft::Unbind));
    let mut f = BindFlags::default();
    f.locked = true;
    f.separate = true;
    assert_eq!(BindLeft::from_str("bindls"), Ok(BindLeft::Bind(f)));
    assert_eq!(BindLeft::from_str("bindzz"), Ok(BindLeft::Bind(BindFlags::default())));
    assert_eq!(BindLeft::from_str("bin"), Err(()));
    assert_eq!(BindLeft::from_str("Bind"), Err(()));
    assert_eq!(BindLeft::Bind(f).to_string(), "bindls");
    assert_eq!(BindLeft::Bind(BindFlags::default()).to_string(), "bind");
    assert_eq!(BindLeft::Unbind.to_string(), "unbind");
}

#[test]
fn change_group_active_reads_one_based_indices() {
    assert_eq!(ChangeGroupActive::from_str("b"), Ok(ChangeGroupActive::Back));
    assert_eq!(ChangeGroupActive::from_str(" f "), Ok(ChangeGroupActive::Forward));
    assert_eq!(ChangeGroupActive::from_str("3"), Ok(ChangeGroupActive::Index(2)));
    assert_eq!(ChangeGroupActive::from_str("0"), Ok(ChangeGroupActive::Index(0)));
    assert_eq!(ChangeGroupActive::from_str("x"), Ok(ChangeGroupActive::Index(0)));
    assert_eq!(ChangeGroupActive::from_str("B"), Ok(ChangeGroupActive::Index(0)));
    assert_eq!(ChangeGroupActive::from_str(""), Err(()));
    assert_eq!(ChangeGroupActive::Index(2).to_string(), "3");
    assert_eq!(ChangeGroupActive::Index(u32::MAX).to_string(), "4294967295");
    assert_eq!(
        ChangeGroupActive::from_str(&ChangeGroupActive::Index(u32::MAX).to_string()),
        Ok(ChangeGroupActive::Index(u32::MAX - 1))
    );
    assert_eq!(ChangeGroupActive::Back.to_string(), "b");
    assert_eq!(ChangeGroupActive::default(), ChangeGroupActive::Forward);
}

#[test]
fn change_group_active_discriminants() {
    assert_eq!(ChangeGroupActive::Index(5).to_discriminant(), ChangeGroupActiveDiscriminant::Index);
    assert_eq!(ChangeGroupActive::from_discriminant(ChangeGroupActiveDiscriminant::Index), ChangeGroupActive::Index(0));
    assert_eq!(
        ChangeGroupActive::from_discriminant_and_str(ChangeGroupActiveDiscriminant::Index, "7"),
        ChangeGroupActive::Index(7)
    );
    assert_eq!(
        ChangeGroupActive::from_discriminant_and_str(ChangeGroupActiveDiscriminant::Index, "seven"),
        ChangeGroupActive::Index(0)
    );
    assert_eq!(
        ChangeGroupActive::from_discriminant_and_str(ChangeGroupActiveDiscriminant::Back, "7"),
        ChangeGroupActive::Back
    );
    assert_eq!(ChangeGroupActive::Index(7).to_str_without_discriminant(), Some("7".to_string()));
    assert_eq!(ChangeGroupActive::Forward.to_str_without_discriminant(), None);
}

#[test]
fn css_gaps_read_one_to_four_numbers() {
    assert_eq!(CssGaps::from_str("5"), Ok(CssGaps::All(5)));
    assert_eq!(CssGaps::from_str("5, 10"), Ok(CssGaps::VerticalHorizontal(5, 10)));
    assert_eq!(CssGaps::from_str("1,2,3"), Ok(CssGaps::TopSidesBottom(1, 2, 3)));
    assert_eq!(CssGaps::from_str("1,2,3,4,5"), Ok(CssGaps::TopRightBottomLeft(1, 2, 3, 4)));
    assert_eq!(CssGaps::from_str("a,,7"), Ok(CssGaps::TopSidesBottom(0, 0, 7)));
    assert_eq!(CssGaps::from_str(""), Ok(CssGaps::All(0)));
    assert_eq!(CssGaps::TopRightBottomLeft(1, 2, 3, 4).to_string(), "1,2,3,4");
    assert_eq!(CssGaps::VerticalHorizontal(0, 20).to_string(), "0,20");
    assert_eq!(CssGaps::default(), CssGaps::All(0));
    for g in [CssGaps::All(9), CssGaps::VerticalHorizontal(1, 2), CssGaps::TopSidesBottom(3, 4, 5)] {
        assert_eq!(CssGaps::from_str(&g.to_string()), Ok(g));
    }
}

#[test]
fn css_gaps_discriminants() {
    assert_eq!(CssGaps::TopSidesBottom(1, 2, 3).to_discriminant(), CssGapsDiscriminant::TopSidesBottom);
    assert_eq!(CssGaps::from_discriminant(CssGapsDiscriminant::VerticalHorizontal), CssGaps::VerticalHorizontal(0, 0));
    assert_eq!(
        CssGaps::from_discriminant_and_str(CssGapsDiscriminant::TopRightBottomLeft, "1, 2"),
        CssGaps::TopRightBottomLeft(1, 2, 0, 0)
    );
    assert_eq!(CssGaps::from_discriminant_and_str(CssGapsDiscriminant::All, "4,5"), CssGaps::All(4));
    let g = CssGaps::TopSidesBottom(7, 8, 9);
    let s = g.to_str_without_discriminant().unwrap();
    assert_eq!(s, "7,8,9");
    assert_eq!(CssGaps::from_discriminant_and_str(g.to_discriminant(), &s), g);
}

#[test]
fn cycle_next_reads_first_choices() {
    let c = CycleNext::from_str("prev next floating tiled hist").unwrap();
    assert!(c.is_prev && c.is_floating && !c.is_tiled && c.is_hist && !c.is_visible);
    assert_eq!(c.to_string(), "prev floating hist");
    let d = CycleNext::from_str("  visible  tiled ").unwrap();
    assert!(!d.is_prev && d.is_tiled && d.is_visible);
    assert_eq!(d.to_string(), "visible next tiled");
    assert_eq!(CycleNext::from_str("bogus").unwrap(), CycleNext::default());
    assert_eq!(CycleNext::from_str("   "), Err(()));
    assert_eq!(CycleNext::default().to_string(), "next");
    assert_eq!(CycleNext::from_str(&d.to_string()), Ok(d));
}

#[test]
fn font_weight_names_and_numbers() {
    assert_eq!(FontWeight::from_str("Bold"), Ok(FontWeight::Bold));
    assert_eq!(FontWeight::from_str(" ultraheavy "), Ok(FontWeight::UltraHeavy));
    assert_eq!(FontWeight::from_str("400"), Ok(FontWeight::Integer(400)));
    assert_eq!(FontWeight::from_str("1000"), Ok(FontWeight::Integer(1000)));
    assert_eq!(FontWeight::from_str("99"), Err(()));
    assert_eq!(FontWeight::from_str("1001"), Err(()));
    assert_eq!(FontWeight::from_str("heavyish"), Err(()));
    assert_eq!(FontWeight::SemiBold.to_string(), "semibold");
    assert_eq!(FontWeight::Integer(650).to_string(), "650");
    assert_eq!(FontWeight::default(), FontWeight::Normal);
    assert_eq!(FontWeight::from_str(&FontWeight::Integer(650).to_string()), Ok(FontWeight::Integer(650)));
}

#[test]
fn font_weight_discriminants() {
    assert_eq!(FontWeight::Integer(3).to_discriminant(), FontWeightDiscriminant::Integer);
    assert_eq!(FontWeight::Light.to_discriminant(), FontWeightDiscriminant::Light);
    assert_eq!(FontWeight::from_discriminant(FontWeightDiscriminant::Integer), FontWeight::Integer(500));
    assert_eq!(FontWeight::from_discriminant_and_str(FontWeightDiscriminant::Integer, "300"), FontWeight::Integer(300));
    assert_eq!(FontWeight::from_discriminant_and_str(FontWeightDiscriminant::Integer, "x"), FontWeight::Integer(500));
    assert_eq!(FontWeight::from_discriminant_and_str(FontWeightDiscriminant::Book, "300"), FontWeight::Book);
    assert_eq!(FontWeight::Integer(300).to_str_without_discriminant(), Some("300".to_string()));
    assert_eq!(FontWeight::Bold.to_str_without_discriminant(), None);
}
