use hyprviz::hyprland::angle::Angle;
use hyprviz::hyprland::border_color::BorderColor;
use hyprviz::hyprland::hypr_color::{HyprColor, HyprColorDiscriminant, ParsedColor};
use hyprviz::hyprland::hypr_gradient::HyprGradient;

fn texts(v: &[&str]) -> Vec<String> {
    v.iter().map(|s| s.to_string()).collect()
}

#[test]
fn color_reads_every_form() {
    assert_eq!(HyprColor::parse("rgb(255,0,10)"), Ok(ParsedColor::Color(HyprColor::Rgb(255, 0, 10))));
    assert_eq!(HyprColor::parse(" rgb(ff000a) "), Ok(ParsedColor::Color(HyprColor::Rgb(255, 0, 10))));
    assert_eq!(HyprColor::parse("rgba(ff000a80)"), Ok(ParsedColor::Color(HyprColor::Rgba(255, 0, 10, 128))));
    assert_eq!(HyprColor::parse("0x80ff000a"), Ok(ParsedColor::Color(HyprColor::Rgba(255, 0, 10, 128))));
    assert_eq!(HyprColor::parse("#ff000a"), Ok(ParsedColor::Color(HyprColor::Rgb(255, 0, 10))));
    assert_eq!(HyprColor::parse("#FF000A80"), Ok(ParsedColor::Color(HyprColor::Rgba(255, 0, 10, 128))));
    assert_eq!(
        HyprColor::parse("rgba(1,2,3,0.5)"),
        Ok(ParsedColor::DecimalAlpha(1, 2, 3, "0.5".to_string()))
    );
}

#[test]
fn color_reads_bad_parts_as_zero() {
    assert_eq!(HyprColor::parse("rgb(300, 2,x)"), Ok(ParsedColor::Color(HyprColor::Rgb(0, 0, 0))));
    assert_eq!(HyprColor::parse("rgb(zz0000)"), Ok(ParsedColor::Color(HyprColor::Rgb(0, 0, 0))));
    assert_eq!(HyprColor::parse("#gg0000"), Ok(ParsedColor::Color(HyprColor::Rgb(0, 0, 0))));
}

#[test]
fn color_rejects_other_text() {
    assert_eq!(HyprColor::parse(""), Err(()));
    assert_eq!(HyprColor::parse("rgb(1,2)"), Err(()));
    assert_eq!(HyprColor::parse("rgba(1,2,3)"), Err(()));
    assert_eq!(HyprColor::parse("#fff"), Err(()));
    assert_eq!(HyprColor::parse("red"), Err(()));
    assert_eq!(HyprColor::parse("rgb(1,2,3"), Err(()));
    assert_eq!(HyprColor::parse("rgb(1,2,3)é"), Err(()));
}

#[test]
fn color_takes_the_given_alpha_for_a_fraction() {
    assert_eq!(HyprColor::from_str_with_alpha("rgba(1,2,3,0.5)", 128), Ok(HyprColor::Rgba(1, 2, 3, 128)));
    assert_eq!(HyprColor::from_str_with_alpha("rgb(1,2,3)", 128), Ok(HyprColor::Rgb(1, 2, 3)));
    assert_eq!(HyprColor::from_str_with_alpha("#01020304", 9), Ok(HyprColor::Rgba(1, 2, 3, 4)));
    assert_eq!(HyprColor::from_str_with_alpha("nothing", 9), Err(()));
}

#[test]
fn color_writes_and_reads_back() {
    assert_eq!(HyprColor::Rgb(255, 0, 10).to_string_with_alpha("ignored"), "rgb(255,0,10)");
    assert_eq!(HyprColor::Rgba(1, 2, 3, 64).to_string_with_alpha("0.25"), "rgba(1,2,3,0.25)");
    let c = HyprColor::Rgba(9, 8, 7, 200);
    let written = c.to_string_with_alpha("0.78");
    assert_eq!(
        HyprColor::parse(&written),
        Ok(ParsedColor::DecimalAlpha(9, 8, 7, "0.78".to_string()))
    );
    assert_eq!(HyprColor::from_str_with_alpha(&written, 200), Ok(c));
    let d = HyprColor::Rgb(0, 128, 255);
    assert_eq!(HyprColor::parse(&d.to_string_with_alpha("")), Ok(ParsedColor::Color(d)));
    assert_eq!(HyprColor::default(), HyprColor::Rgb(0, 0, 0));
}

#[test]
fn color_hex_forms() {
    assert_eq!(HyprColor::Rgb(255, 0, 10).to_rgb_hex(), "#FF000A");
    assert_eq!(HyprColor::Rgba(255, 0, 10, 1).to_rgb_hex(), "#FF000A");
    assert_eq!(HyprColor::Rgb(255, 0, 10).to_rgba_hex(), "#FF000AFF");
    assert_eq!(HyprColor::Rgba(1, 2, 3, 4).to_rgba_hex(), "#01020304");
    let c = HyprColor::Rgba(171, 205, 239, 18);
    assert_eq!(HyprColor::parse(&c.to_rgba_hex()), Ok(ParsedColor::Color(c)));
    assert_eq!(
        HyprColor::parse(&c.to_rgb_hex()),
        Ok(ParsedColor::Color(HyprColor::Rgb(171, 205, 239)))
    );
}

#[test]
fn color_discriminants() {
    assert_eq!(HyprColor::Rgb(1, 2, 3).to_discriminant(), HyprColorDiscriminant::Rgb);
    assert_eq!(HyprColor::from_discriminant(HyprColorDiscriminant::Rgba), HyprColor::Rgba(0, 0, 0, 255));
    assert_eq!(
        HyprColor::from_discriminant_and_str(HyprColorDiscriminant::Rgba, "1,2,3"),
        HyprColor::Rgba(1, 2, 3, 255)
    );
    assert_eq!(
        HyprColor::from_discriminant_and_str(HyprColorDiscriminant::Rgba, "1,2,3,x"),
        HyprColor::Rgba(1, 2, 3, 255)
    );
    assert_eq!(
        HyprColor::from_discriminant_and_str(HyprColorDiscriminant::Rgb, "1,2"),
        HyprColor::Rgb(0, 0, 0)
    );
    assert_eq!(
        HyprColor::from_discriminant_and_str(HyprColorDiscriminant::Rgba, "1"),
        HyprColor::Rgba(0, 0, 0, 255)
    );
    let c = HyprColor::Rgba(10, 20, 30, 40);
    let s = c.to_str_without_discriminant().unwrap();
    assert_eq!(s, "10,20,30,40");
    assert_eq!(HyprColor::from_discriminant_and_str(c.to_discriminant(), &s), c);
}

#[test]
fn gradient_reads_colors_up_to_the_angle() {
    let g = HyprGradient::from_str_with_alphas("rgb(255,0,0) #0000ff 45deg rgb(1,1,1)", &vec![]).unwrap();
    assert_eq!(g.colors, vec![HyprColor::Rgb(255, 0, 0), HyprColor::Rgb(0, 0, 255)]);
    assert_eq!(g.angle, Some(Angle::Degrees(45)));
    let one = HyprGradient::from_str_with_alphas("  #010203  ", &vec![]).unwrap();
    assert_eq!(one.colors, vec![HyprColor::Rgb(1, 2, 3), HyprColor::Rgb(1, 2, 3)]);
    assert_eq!(one.angle, None);
    let none = HyprGradient::from_str_with_alphas("junk words", &vec![]).unwrap();
    assert_eq!(none.colors, vec![HyprColor::Rgb(0, 0, 0), HyprColor::Rgb(0, 0, 0)]);
    let early = HyprGradient::from_str_with_alphas("90deg", &vec![]).unwrap();
    assert_eq!(early.colors, Vec::<HyprColor>::new());
    assert_eq!(early.angle, Some(Angle::Degrees(90)));
    assert_eq!(HyprGradient::from_str_with_alphas(" \t ", &vec![]), Err(()));
}

#[test]
fn gradient_takes_alphas_by_word() {
    let g = HyprGradient::from_str_with_alphas("rgb(1,2,3) rgba(4,5,6,0.5)", &vec![0, 128]).unwrap();
    assert_eq!(g.colors, vec![HyprColor::Rgb(1, 2, 3), HyprColor::Rgba(4, 5, 6, 128)]);
    let h = HyprGradient::from_str_with_alphas("rgba(4,5,6,0.5) rgb(1,2,3)", &vec![]).unwrap();
    assert_eq!(h.colors, vec![HyprColor::Rgba(4, 5, 6, 0), HyprColor::Rgb(1, 2, 3)]);
}

#[test]
fn gradient_writes_and_reads_back() {
    let g = HyprGradient {
        colors: vec![HyprColor::Rgb(255, 0, 0), HyprColor::Rgba(0, 0, 255, 51)],
        angle: Some(Angle::Degrees(30)),
    };
    let written = g.to_string_with_alphas(&texts(&["", "0.2"]));
    assert_eq!(written, "rgb(255,0,0) rgba(0,0,255,0.2) 30deg");
    let back = HyprGradient::from_str_with_alphas(&written, &vec![0, 51]).unwrap();
    assert_eq!(back, g);
    let d = HyprGradient::default();
    assert_eq!(d.to_string_with_alphas(&texts(&["", ""])), "rgb(0,0,0) rgb(0,0,0)");
    let bare = HyprGradient { colors: vec![], angle: Some(Angle::Degrees(5)) };
    assert_eq!(bare.to_string_with_alphas(&vec![]), " 5deg");
    assert_eq!(HyprGradient::from_str_with_alphas(" 5deg", &vec![]).unwrap(), bare);
}

#[test]
fn border_color_reads_each_shape() {
    assert_eq!(BorderColor::from_str_with_alphas("rgb(1,2,3)", &vec![]), Ok(BorderColor::Color(HyprColor::Rgb(1, 2, 3))));
    assert_eq!(BorderColor::from_str_with_alphas("nonsense", &vec![]), Ok(BorderColor::Color(HyprColor::Rgb(0, 0, 0))));
    assert_eq!(
        BorderColor::from_str_with_alphas("rgb(1,2,3) 45deg", &vec![]),
        Ok(BorderColor::Gradient(vec![HyprColor::Rgb(1, 2, 3), HyprColor::Rgb(1, 2, 3)], Angle::Degrees(45)))
    );
    assert_eq!(
        BorderColor::from_str_with_alphas("rgb(1,2,3) #040506", &vec![]),
        Ok(BorderColor::DoubleColor(HyprColor::Rgb(1, 2, 3), HyprColor::Rgb(4, 5, 6)))
    );
    assert_eq!(
        BorderColor::from_str_with_alphas("rgb(1,2,3) #040506 10deg", &vec![]),
        Ok(BorderColor::Gradient(vec![HyprColor::Rgb(1, 2, 3), HyprColor::Rgb(4, 5, 6)], Angle::Degrees(10)))
    );
    assert_eq!(BorderColor::from_str_with_alphas("   ", &vec![]), Err(()));
}

#[test]
fn border_color_reads_double_gradients() {
    let r = BorderColor::from_str_with_alphas("#010101 #020202 10deg #030303 #040404 20deg", &vec![]);
    assert_eq!(
        r,
        Ok(BorderColor::DoubleGradient(
            vec![HyprColor::Rgb(1, 1, 1), HyprColor::Rgb(2, 2, 2)],
            Angle::Degrees(10),
            vec![HyprColor::Rgb(3, 3, 3), HyprColor::Rgb(4, 4, 4)],
            Some(Angle::Degrees(20)),
        ))
    );
    let single = BorderColor::from_str_with_alphas("#010101 10deg #030303", &vec![]);
    assert_eq!(
        single,
        Ok(BorderColor::DoubleGradient(
            vec![HyprColor::Rgb(1, 1, 1), HyprColor::Rgb(1, 1, 1)],
            Angle::Degrees(10),
            vec![HyprColor::Rgb(3, 3, 3), HyprColor::Rgb(3, 3, 3)],
            None,
        ))
    );
}

#[test]
fn border_color_without_angle_scans_again_from_the_second_part() {
    let r = BorderColor::from_str_with_alphas("#010101 #020202 #030303", &vec![]);
    assert_eq!(
        r,
        Ok(BorderColor::DoubleGradient(
            vec![HyprColor::Rgb(1, 1, 1), HyprColor::Rgb(2, 2, 2), HyprColor::Rgb(3, 3, 3)],
            Angle::Degrees(0),
            vec![HyprColor::Rgb(2, 2, 2), HyprColor::Rgb(3, 3, 3)],
            None,
        ))
    );
}

#[test]
fn border_color_takes_alphas_by_part() {
    let r = BorderColor::from_str_with_alphas("rgb(1,2,3)  rgba(4,5,6,0.5)", &vec![0, 0, 77]);
    assert_eq!(
        r,
        Ok(BorderColor::DoubleGradient(
            vec![HyprColor::Rgb(1, 2, 3), HyprColor::Rgba(4, 5, 6, 77)],
            Angle::Degrees(0),
            vec![HyprColor::Rgba(4, 5, 6, 77), HyprColor::Rgba(4, 5, 6, 77)],
            None,
        ))
    );
}

#[test]
fn border_color_writes_and_reads_back() {
    let c = BorderColor::DoubleGradient(
        vec![HyprColor::Rgb(1, 1, 1), HyprColor::Rgba(2, 2, 2, 128)],
        Angle::Degrees(15),
        vec![],
        Some(Angle::Degrees(25)),
    );
    let written = c.to_string_with_alphas(&texts(&["", "0.5"]));
    assert_eq!(written, "rgb(1,1,1) rgba(2,2,2,0.5) 15deg  25deg");
    assert_eq!(BorderColor::from_str_with_alphas(&written, &vec![0, 128]), Ok(c));
    let d = BorderColor::DoubleColor(HyprColor::Rgb(1, 2, 3), HyprColor::Rgba(4, 5, 6, 7));
    let w = d.to_string_with_alphas(&texts(&["", "0.03"]));
    assert_eq!(w, "rgb(1,2,3) rgba(4,5,6,0.03)");
    assert_eq!(BorderColor::from_str_with_alphas(&w, &vec![0, 7]), Ok(d));
    let g = BorderColor::Gradient(vec![HyprColor::Rgb(9, 9, 9), HyprColor::Rgb(8, 8, 8)], Angle::Degrees(0));
    let wg = g.to_string_with_alphas(&texts(&["", ""]));
    assert_eq!(wg, "rgb(9,9,9) rgb(8,8,8) 0deg");
    assert_eq!(BorderColor::from_str_with_alphas(&wg, &vec![]), Ok(g));
    assert_eq!(BorderColor::default(), BorderColor::Color(HyprColor::Rgb(0, 0, 0)));
    assert_eq!(BorderColor::SEPARATOR, ' ');
}
