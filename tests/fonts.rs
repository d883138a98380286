use pdf_render::error::Error;
use pdf_render::font::{FontSources, Fonts};
use pdf_render::{new_font_sources, new_fonts};

const GARBAGE: &[u8] = b"not a font at all";

#[test]
fn unknown_font_is_reported() {
    let mut fonts = new_fonts(new_font_sources());
    assert!(matches!(fonts.get("LatoReg"), Err(Error::UnknownFont(n)) if n == "LatoReg"));
}

#[test]
fn source_lookup_reports_unknown_font() {
    let sources = FontSources::new();
    assert!(matches!(sources.get("LatoReg"), Err(Error::UnknownFont(n)) if n == "LatoReg"));
}

#[test]
fn add_keeps_the_first_source() {
    let mut sources = new_font_sources();
    sources.add("a", b"first").unwrap();
    sources.add("a", b"second").unwrap();
    sources.add_owned("a", b"third".to_vec()).unwrap();
    assert_eq!(sources.get("a").unwrap(), b"first");
}

#[test]
fn add_owned_registers_a_buffer() {
    let mut sources = new_font_sources();
    sources.add_owned("b", vec![1, 2, 3]).unwrap();
    assert_eq!(sources.get("b").unwrap(), &[1, 2, 3]);
}

#[test]
fn replace_overwrites_the_source() {
    let mut sources = new_font_sources();
    sources.add("a", b"first").unwrap();
    sources.replace("a", b"second".to_vec()).unwrap();
    assert_eq!(sources.get("a").unwrap(), b"second");
}

#[test]
fn malformed_font_is_reported() {
    let mut sources = new_font_sources();
    sources.add("bad", GARBAGE).unwrap();
    let mut fonts = Fonts::new(sources);
    assert!(matches!(fonts.get("bad"), Err(Error::MalformedFont(n)) if n == "bad"));
}

#[test]
fn replacing_a_malformed_font_is_read_again() {
    let mut sources = new_font_sources();
    sources.add("bad", GARBAGE).unwrap();
    let mut fonts = Fonts::new(sources);
    assert!(fonts.get("bad").is_err());
    fonts.replace("bad", vec![0, 1, 0, 0]).unwrap();
    assert!(matches!(fonts.get("bad"), Err(Error::MalformedFont(_))));
    fonts.add("other", GARBAGE).unwrap();
    assert!(matches!(fonts.get("other"), Err(Error::MalformedFont(_))));
}

#[test]
fn error_messages_name_the_font() {
    assert_eq!(Error::UnknownFont("x".to_string()).message(), "x");
    assert_eq!(Error::FontFinalized("y".to_string()).message(), "y");
}
