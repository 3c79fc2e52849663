use homie_values::{
    Color, ColorFormat, ColorHSV, ColorRGB, Datatype, ParseColorError, Value, ValueError,
};

fn wrong_format(format: &str) -> ValueError {
    ValueError::WrongFormat { format: format.to_owned() }
}

#[test]
fn color_format_names() {
    assert_eq!(ColorFormat::RGB.as_str(), "rgb");
    assert_eq!(ColorFormat::HSV.as_str(), "hsv");
    assert_eq!(ColorFormat::RGB.to_string(), "rgb");
    assert_eq!(ColorFormat::HSV.to_string(), "hsv");
}

#[test]
fn color_format_parses_its_names() {
    assert_eq!(ColorFormat::from_str("rgb"), Ok(ColorFormat::RGB));
    assert_eq!(ColorFormat::from_str("hsv"), Ok(ColorFormat::HSV));
    for format in [ColorFormat::RGB, ColorFormat::HSV] {
        assert_eq!(ColorFormat::from_str(format.as_str()), Ok(format));
    }
}

#[test]
fn color_format_is_exact() {
    for text in ["", "RGB", "Rgb", "HSV", "rgb ", " rgb", "rgba", "rg", "hsl", "rgb,hsv", "r,g,b"] {
        assert_eq!(ColorFormat::from_str(text), Err(wrong_format(text)));
    }
}

#[test]
fn colors_have_the_color_datatype() {
    assert_eq!(<ColorRGB as Value>::datatype(), Datatype::Color);
    assert_eq!(<ColorHSV as Value>::datatype(), Datatype::Color);
    assert_eq!(ColorRGB::format(), ColorFormat::RGB);
    assert_eq!(ColorHSV::format(), ColorFormat::HSV);
}

#[test]
fn rgb_new_keeps_its_channels() {
    let c = ColorRGB::new(17, 42, 203);
    assert_eq!(c.r, 17);
    assert_eq!(c.g, 42);
    assert_eq!(c.b, 203);
    assert_eq!(c, ColorRGB { r: 17, g: 42, b: 203 });
    assert_eq!(ColorRGB::new(0, 0, 0), ColorRGB { r: 0, g: 0, b: 0 });
    assert_eq!(ColorRGB::new(255, 255, 255), ColorRGB { r: 255, g: 255, b: 255 });
}

#[test]
fn rgb_parses_three_bytes() {
    assert_eq!(ColorRGB::from_str("17,42,203"), Ok(ColorRGB::new(17, 42, 203)));
    assert_eq!(ColorRGB::from_str("0,0,0"), Ok(ColorRGB::new(0, 0, 0)));
    assert_eq!(ColorRGB::from_str("255,255,255"), Ok(ColorRGB::new(255, 255, 255)));
    assert_eq!(ColorRGB::from_str("1,2,3"), Ok(ColorRGB::new(1, 2, 3)));
    assert_eq!(ColorRGB::from_str("+1,002,0000255"), Ok(ColorRGB::new(1, 2, 255)));
}

#[test]
fn rgb_needs_three_fields() {
    for text in ["", "1", "1,2", "1,2,3,4", ",", ",,", ",,,", "1,2,", ",1,2", "1,,2", "1,2,3,"] {
        assert_eq!(ColorRGB::from_str(text), Err(ParseColorError()));
    }
}

#[test]
fn rgb_needs_bytes() {
    for text in [
        "256,0,0", "0,256,0", "0,0,256", "1000,0,0", "-1,2,3", "1,-2,3", "a,b,c", "1,2,x",
        "1.0,2,3", "1, 2,3", " 1,2,3", "1,2,3 ", "1 ,2,3", "0x10,0,0", "1,2,٣",
        "99999999999999999999999,0,0",
    ] {
        assert_eq!(ColorRGB::from_str(text), Err(ParseColorError()));
    }
}

#[test]
fn rgb_serializes_with_commas() {
    assert_eq!(ColorRGB::new(17, 42, 203).to_string(), "17,42,203");
    assert_eq!(ColorRGB::new(0, 0, 0).to_string(), "0,0,0");
    assert_eq!(ColorRGB::new(255, 255, 255).to_string(), "255,255,255");
    assert_eq!(ColorRGB::new(1, 20, 100).serialize(), "1,20,100");
}

#[test]
fn rgb_round_trips() {
    let channels = [0u8, 1, 9, 10, 11, 99, 100, 101, 127, 128, 199, 200, 254, 255];
    for r in channels {
        for g in channels {
            for b in channels {
                let c = ColorRGB::new(r, g, b);
                assert_eq!(c.to_string(), format!("{},{},{}", r, g, b));
                assert_eq!(ColorRGB::from_str(&c.to_string()), Ok(c));
                assert_eq!(<ColorRGB as Value>::parse(&c.serialize()), Ok(c));
            }
        }
    }
}

#[test]
fn rgb_round_trips_every_channel_value() {
    for x in 0..=255u8 {
        let c = ColorRGB::new(x, 255 - x, x / 2);
        assert_eq!(ColorRGB::from_str(&c.to_string()), Ok(c));
    }
}

#[test]
fn rgb_accepts_only_its_own_format() {
    assert_eq!(<ColorRGB as Value>::valid_for_format("rgb"), Ok(()));
    assert_eq!(<ColorRGB as Value>::valid_for_format("hsv"), Err(wrong_format("hsv")));
    for format in ["", "RGB", "rgb ", "rgb,hsv", "0:10"] {
        assert_eq!(<ColorRGB as Value>::valid_for_format(format), Err(wrong_format(format)));
    }
}

#[test]
fn hsv_accepts_only_its_own_format() {
    assert_eq!(<ColorHSV as Value>::valid_for_format("hsv"), Ok(()));
    assert_eq!(<ColorHSV as Value>::valid_for_format("rgb"), Err(wrong_format("rgb")));
    for format in ["", "HSV", " hsv", "hsb"] {
        assert_eq!(<ColorHSV as Value>::valid_for_format(format), Err(wrong_format(format)));
    }
}

#[test]
fn color_format_string_parses_whichever_type_asks() {
    assert_eq!(<ColorRGB as Value>::parse_format("rgb"), Ok(ColorFormat::RGB));
    assert_eq!(<ColorRGB as Value>::parse_format("hsv"), Ok(ColorFormat::HSV));
    assert_eq!(<ColorHSV as Value>::parse_format("rgb"), Ok(ColorFormat::RGB));
    assert_eq!(<ColorHSV as Value>::parse_format("hsv"), Ok(ColorFormat::HSV));
    assert_eq!(<ColorRGB as Value>::parse_format("cmyk"), Err(wrong_format("cmyk")));
    assert_eq!(<ColorHSV as Value>::parse_format(""), Err(wrong_format("")));
}

#[test]
fn color_valid_for_checks_datatype_then_format() {
    let rgb = Some("rgb".to_owned());
    let hsv = Some("hsv".to_owned());
    assert_eq!(<ColorRGB as Value>::valid_for(Some(Datatype::Color), &rgb), Ok(()));
    assert_eq!(<ColorRGB as Value>::valid_for(None, &rgb), Ok(()));
    assert_eq!(<ColorRGB as Value>::valid_for(Some(Datatype::Color), &None), Ok(()));
    assert_eq!(<ColorRGB as Value>::valid_for(None, &None), Ok(()));
    assert_eq!(<ColorRGB as Value>::valid_for(Some(Datatype::Color), &hsv), Err(wrong_format("hsv")));
    assert_eq!(<ColorHSV as Value>::valid_for(Some(Datatype::Color), &hsv), Ok(()));
    assert_eq!(<ColorHSV as Value>::valid_for(None, &rgb), Err(wrong_format("rgb")));
    assert_eq!(
        <ColorRGB as Value>::valid_for(Some(Datatype::Integer), &hsv),
        Err(ValueError::WrongDatatype { expected: Datatype::Color, actual: Datatype::Integer })
    );
    assert_eq!(
        <ColorHSV as Value>::valid_for(Some(Datatype::String), &None),
        Err(ValueError::WrongDatatype { expected: Datatype::Color, actual: Datatype::String })
    );
}

#[test]
fn color_payload_that_fails_is_kept_in_the_error() {
    assert_eq!(
        <ColorRGB as Value>::parse("256,0,0"),
        Err(ValueError::ParseFailed { value: "256,0,0".to_owned(), datatype: Datatype::Color })
    );
    assert_eq!(
        <ColorHSV as Value>::parse("400,50,50"),
        Err(ValueError::ParseFailed { value: "400,50,50".to_owned(), datatype: Datatype::Color })
    );
    assert_eq!(<ColorRGB as Value>::parse("1,2,3"), Ok(ColorRGB::new(1, 2, 3)));
    assert_eq!(<ColorHSV as Value>::parse("1,2,3"), Ok(ColorHSV::new(1, 2, 3)));
}

#[test]
fn hsv_new_keeps_its_channels() {
    let c = ColorHSV::new(300, 50, 75);
    assert_eq!(c.h, 300);
    assert_eq!(c.s, 50);
    assert_eq!(c.v, 75);
    assert_eq!(ColorHSV::new(0, 0, 0), ColorHSV { h: 0, s: 0, v: 0 });
    assert_eq!(ColorHSV::new(360, 100, 100), ColorHSV { h: 360, s: 100, v: 100 });
}

#[test]
fn hsv_parses_channels_in_range() {
    assert_eq!(ColorHSV::from_str("300,50,75"), Ok(ColorHSV::new(300, 50, 75)));
    assert_eq!(ColorHSV::from_str("0,0,0"), Ok(ColorHSV::new(0, 0, 0)));
    assert_eq!(ColorHSV::from_str("360,100,100"), Ok(ColorHSV::new(360, 100, 100)));
    assert_eq!(ColorHSV::from_str("+360,0100,+100"), Ok(ColorHSV::new(360, 100, 100)));
}

#[test]
fn hsv_refuses_a_channel_out_of_range() {
    for text in
        ["400,50,50", "361,0,0", "0,101,0", "0,0,101", "361,101,101", "65535,0,0", "0,255,0", "0,0,255"]
    {
        assert_eq!(ColorHSV::from_str(text), Err(ParseColorError()));
    }
}

#[test]
fn hsv_refuses_what_does_not_fit_its_fields() {
    for text in ["65536,0,0", "0,256,0", "0,0,256", "-1,0,0", "h,s,v", "1.5,2,3", "1, 2,3"] {
        assert_eq!(ColorHSV::from_str(text), Err(ParseColorError()));
    }
}

#[test]
fn hsv_needs_three_fields() {
    for text in ["", "1", "1,2", "1,2,3,4", ",,", "1,2,", "1,2,3,"] {
        assert_eq!(ColorHSV::from_str(text), Err(ParseColorError()));
    }
}

#[test]
fn hsv_serializes_with_commas() {
    assert_eq!(ColorHSV::new(300, 50, 75).to_string(), "300,50,75");
    assert_eq!(ColorHSV::new(0, 0, 0).to_string(), "0,0,0");
    assert_eq!(ColorHSV::new(360, 100, 100).serialize(), "360,100,100");
}

#[test]
fn hsv_round_trips_every_channel_value() {
    for h in 0..=360u16 {
        let c = ColorHSV::new(h, (h % 101) as u8, ((h / 3) % 101) as u8);
        assert_eq!(ColorHSV::from_str(&c.to_string()), Ok(c));
    }
    for s in 0..=100u8 {
        for v in 0..=100u8 {
            let c = ColorHSV::new(180, s, v);
            assert_eq!(c.to_string(), format!("180,{},{}", s, v));
            assert_eq!(<ColorHSV as Value>::parse(&c.serialize()), Ok(c));
        }
    }
}

#[test]
fn hsv_range_decides_for_written_triples() {
    for (h, s, v) in [(361u16, 0u8, 0u8), (0, 101, 0), (0, 0, 101), (400, 50, 50), (65535, 255, 255)] {
        let written = ColorHSV { h, s, v }.to_string();
        assert_eq!(written, format!("{},{},{}", h, s, v));
        assert_eq!(ColorHSV::from_str(&written), Err(ParseColorError()));
    }
}

#[test]
fn colors_copy_and_compare() {
    let c = ColorRGB::new(1, 2, 3);
    let d = c;
    assert_eq!(c, d.clone());
    assert_ne!(c, ColorRGB::new(1, 2, 4));
    assert_ne!(ColorHSV::new(1, 2, 3), ColorHSV::new(2, 2, 3));
    assert_ne!(ColorFormat::RGB, ColorFormat::HSV);
    assert_eq!(ParseColorError(), ParseColorError().clone());
}
