use hecto::highlight::{decimal_string, Tag};
use hecto::highlighting::{Rgb, Type};
use hecto::terminal::Size;

#[test]
fn size_keeps_two_rows_for_bars() {
    assert_eq!(Size::from((80, 24)), Size { height: 22, width: 80 });
    assert_eq!(Size::from((80, 1)), Size { height: 0, width: 80 });
    assert_eq!(Size::default(), Size { height: 0, width: 0 });
}

#[test]
fn value_types_have_colours() {
    assert_eq!(Type::Number.to_color(), Rgb { r: 220, g: 60, b: 60 });
    assert_eq!(Type::String.to_color(), Rgb { r: 60, g: 220, b: 60 });
    assert_eq!(Type::Plain.to_color(), Rgb { r: 255, g: 255, b: 255 });
}

#[test]
fn tag_names_map_to_categories() {
    assert_eq!(Tag::from_name("keyword"), Tag::Keyword);
    assert_eq!(Tag::from_name("string"), Tag::Str);
    assert_eq!(Tag::from_name("reference"), Tag::Reference);
    assert_eq!(Tag::from_name("comment"), Tag::Plain);
    assert_eq!(Tag::Keyword.ansi(), Some(1));
    assert_eq!(Tag::Operator.ansi(), Some(15));
    assert_eq!(Tag::Plain.ansi(), None);
}

#[test]
fn decimal_strings() {
    assert_eq!(decimal_string(0), "0");
    assert_eq!(decimal_string(907), "907");
}
