use loose_odb::color::{attr_token_at, name_token_at, Attribute, Color, Name};

fn name_of(s: &[u8]) -> Option<Name> {
    name_token_at(s, 0, s.len())
}

fn attr_of(s: &[u8]) -> Option<Attribute> {
    attr_token_at(s, 0, s.len())
}

fn parse(s: &[u8]) -> Result<Color, loose_odb::color::ValueError> {
    Color::from_bytes(s)
}

fn text(c: &Color) -> String {
    String::from_utf8(c.to_text_bytes()).unwrap()
}

#[test]
fn color_name_keywords() {
    assert_eq!(name_of(b"normal"), Some(Name::Normal));
    assert_eq!(name_of(b"-1"), Some(Name::Normal));
    assert_eq!(name_of(b"default"), Some(Name::Default));
    assert_eq!(name_of(b"black"), Some(Name::Black));
    assert_eq!(name_of(b"red"), Some(Name::Red));
    assert_eq!(name_of(b"green"), Some(Name::Green));
    assert_eq!(name_of(b"yellow"), Some(Name::Yellow));
    assert_eq!(name_of(b"blue"), Some(Name::Blue));
    assert_eq!(name_of(b"magenta"), Some(Name::Magenta));
    assert_eq!(name_of(b"cyan"), Some(Name::Cyan));
    assert_eq!(name_of(b"white"), Some(Name::White));
}

#[test]
fn color_name_bright_variants() {
    assert_eq!(name_of(b"brightblack"), Some(Name::BrightBlack));
    assert_eq!(name_of(b"brightred"), Some(Name::BrightRed));
    assert_eq!(name_of(b"brightgreen"), Some(Name::BrightGreen));
    assert_eq!(name_of(b"brightyellow"), Some(Name::BrightYellow));
    assert_eq!(name_of(b"brightblue"), Some(Name::BrightBlue));
    assert_eq!(name_of(b"brightmagenta"), Some(Name::BrightMagenta));
    assert_eq!(name_of(b"brightcyan"), Some(Name::BrightCyan));
    assert_eq!(name_of(b"brightwhite"), Some(Name::BrightWhite));
    assert_eq!(name_of(b"brightnormal"), None);
    assert_eq!(name_of(b"brightdefault"), None);
    assert_eq!(name_of(b"bright"), None);
    assert_eq!(name_of(b"bright-1"), None);
}

#[test]
fn color_name_ansi_codes() {
    assert_eq!(name_of(b"0"), Some(Name::Ansi(0)));
    assert_eq!(name_of(b"255"), Some(Name::Ansi(255)));
    assert_eq!(name_of(b"256"), None);
    assert_eq!(name_of(b"+12"), Some(Name::Ansi(12)));
    assert_eq!(name_of(b"bright12"), Some(Name::Ansi(12)));
    assert_eq!(name_of(b"-2"), None);
    assert_eq!(name_of(b"+"), None);
}

#[test]
fn color_name_hex_values() {
    assert_eq!(name_of(b"#aabbcc"), Some(Name::Rgb(0xaa, 0xbb, 0xcc)));
    assert_eq!(name_of(b"#AABBCC"), Some(Name::Rgb(0xaa, 0xbb, 0xcc)));
    assert_eq!(name_of(b"#000000"), Some(Name::Rgb(0, 0, 0)));
    assert_eq!(name_of(b"#ggaabb"), None);
    assert_eq!(name_of(b"#aabbc"), None);
    assert_eq!(name_of(b"#aabbccd"), None);
    assert_eq!(name_of(b"#+a+b+c"), Some(Name::Rgb(10, 11, 12)));
}

#[test]
fn attribute_keywords_and_negations() {
    assert_eq!(attr_of(b"reset"), Some(Attribute::Reset));
    assert_eq!(attr_of(b"noreset"), None);
    assert_eq!(attr_of(b"bold"), Some(Attribute::Bold));
    assert_eq!(attr_of(b"nobold"), Some(Attribute::NoBold));
    assert_eq!(attr_of(b"no-bold"), Some(Attribute::NoBold));
    assert_eq!(attr_of(b"dim"), Some(Attribute::Dim));
    assert_eq!(attr_of(b"no-dim"), Some(Attribute::NoDim));
    assert_eq!(attr_of(b"ul"), Some(Attribute::Ul));
    assert_eq!(attr_of(b"noul"), Some(Attribute::NoUl));
    assert_eq!(attr_of(b"blink"), Some(Attribute::Blink));
    assert_eq!(attr_of(b"noblink"), Some(Attribute::NoBlink));
    assert_eq!(attr_of(b"reverse"), Some(Attribute::Reverse));
    assert_eq!(attr_of(b"no-reverse"), Some(Attribute::NoReverse));
    assert_eq!(attr_of(b"italic"), Some(Attribute::Italic));
    assert_eq!(attr_of(b"noitalic"), Some(Attribute::NoItalic));
    assert_eq!(attr_of(b"strike"), Some(Attribute::Strike));
    assert_eq!(attr_of(b"no-strike"), Some(Attribute::NoStrike));
    assert_eq!(attr_of(b"no"), None);
    assert_eq!(attr_of(b"no-"), None);
    assert_eq!(attr_of(b"shiny"), None);
}

#[test]
fn parse_full_color_values() {
    let c = parse(b"bold red dim ul blue").unwrap();
    assert_eq!(c.foreground, Some(Name::Red));
    assert_eq!(c.background, Some(Name::Blue));
    assert_eq!(c.attributes, vec![Attribute::Bold, Attribute::Dim, Attribute::Ul]);

    let c = parse(b"brightyellow").unwrap();
    assert_eq!(c.foreground, Some(Name::BrightYellow));
    assert_eq!(c.background, None);
    assert!(c.attributes.is_empty());

    let c = parse(b"  #aabbcc\t255  ").unwrap();
    assert_eq!(c.foreground, Some(Name::Rgb(0xaa, 0xbb, 0xcc)));
    assert_eq!(c.background, Some(Name::Ansi(255)));
}

#[test]
fn parse_empty_is_empty_color() {
    let c = parse(b"").unwrap();
    assert!(c == Color::default());
}

#[test]
fn parse_rejects_bad_values() {
    let e = parse(b"red green blue").unwrap_err();
    assert_eq!(e.input, b"red green blue".to_vec());
    assert!(parse(b"shiny").is_err());
    assert!(parse(b"red nope").is_err());
    assert!(e.message().contains("Colors are specific color values"));
}

#[test]
fn color_text_rendering() {
    let c = Color {
        foreground: Some(Name::BrightRed),
        background: None,
        attributes: vec![Attribute::NoBold],
    };
    assert_eq!(text(&c), "brightred nobold");

    let c = Color {
        foreground: Some(Name::Ansi(12)),
        background: Some(Name::Rgb(1, 2, 255)),
        attributes: vec![],
    };
    assert_eq!(text(&c), "12 #0102ff");

    assert_eq!(text(&Color::default()), "");

    let c = Color {
        foreground: None,
        background: None,
        attributes: vec![Attribute::Reset, Attribute::NoStrike],
    };
    assert_eq!(text(&c), "reset nostrike");
}

#[test]
fn color_text_round_trips_through_parse() {
    let c = Color {
        foreground: Some(Name::BrightCyan),
        background: Some(Name::Ansi(7)),
        attributes: vec![Attribute::Italic, Attribute::NoBlink],
    };
    let again = parse(&c.to_text_bytes()).unwrap();
    assert!(again == c);
}

#[test]
fn single_token_parsers_reject_with_the_input() {
    assert_eq!(Name::parse_bytes(b"brightblue").unwrap(), Name::BrightBlue);
    let e = Name::parse_bytes(b"shiny").unwrap_err();
    assert_eq!(e.input, b"shiny".to_vec());
    assert_eq!(Attribute::parse_bytes(b"no-italic").unwrap(), Attribute::NoItalic);
    let e = Attribute::parse_bytes(b"loud").unwrap_err();
    assert_eq!(e.input, b"loud".to_vec());
}

#[test]
fn parse_splits_on_unicode_whitespace() {
    let c = parse("ul\u{00A0}ul".as_bytes()).unwrap();
    assert_eq!(c.attributes, vec![Attribute::Ul, Attribute::Ul]);

    let c = parse("red\u{2003}blue".as_bytes()).unwrap();
    assert_eq!(c.foreground, Some(Name::Red));
    assert_eq!(c.background, Some(Name::Blue));

    let c = parse("\u{3000}bold\u{2028}\u{0085}dim\u{1680}".as_bytes()).unwrap();
    assert_eq!(c.foreground, None);
    assert_eq!(c.attributes, vec![Attribute::Bold, Attribute::Dim]);

    // A stray continuation or prefix byte is no separator: the token it
    // lands in fails to parse.
    assert!(parse(&[b'u', b'l', 0xC2, b'u', b'l']).is_err());
    assert!(parse(&[b'u', b'l', 0x85, b'u', b'l']).is_err());
}
