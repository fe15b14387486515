use plinth::{ClassMapper, Color, ColorProperty, CssClass};

#[test]
fn upsert_then_resolve_color() {
    let c = Color::from_rgba(1, 2, 3, 255);
    let mut registry = ClassMapper::new();
    registry.add_class(CssClass::new("a".to_string()).with_color(c));
    assert_eq!(registry.get_color_for_class("a", ColorProperty::Color), Some(c));
    assert_eq!(registry.get_color_for_class("a", ColorProperty::BackgroundColor), None);
    assert_eq!(registry.get_color_for_class("a", ColorProperty::BorderColor), None);
}

#[test]
fn upsert_replaces_whole_class() {
    let c = Color::from_rgba(1, 2, 3, 255);
    let d = Color::from_rgba(9, 8, 7, 6);
    let mut registry = ClassMapper::new();
    registry.add_class(CssClass::new("a".to_string()).with_color(c));
    registry.add_class(CssClass::new("a".to_string()).with_background_color(d));
    assert_eq!(registry.get_color_for_class("a", ColorProperty::Color), None);
    assert_eq!(registry.get_color_for_class("a", ColorProperty::BackgroundColor), Some(d));
}

#[test]
fn unknown_class_resolves_to_none() {
    let registry = ClassMapper::new();
    assert_eq!(registry.get_color_for_class("missing", ColorProperty::Color), None);
    assert!(registry.get_class("missing").is_none());
}

#[test]
fn classes_are_kept_apart() {
    let mut registry = ClassMapper::new();
    registry.add_class(CssClass::new("primary".to_string()).with_color(Color::red()));
    registry.add_class(CssClass::new("secondary".to_string()).with_border_color(Color::blue()));
    registry.add_class(CssClass::new("primary".to_string()).with_color(Color::green()));
    assert_eq!(registry.get_color_for_class("primary", ColorProperty::Color), Some(Color::green()));
    assert_eq!(registry.get_color_for_class("secondary", ColorProperty::BorderColor), Some(Color::blue()));
    assert_eq!(registry.get_color_for_class("secondar", ColorProperty::BorderColor), None);
    let class = registry.get_class("secondary").unwrap();
    assert_eq!(class.name, "secondary");
    assert_eq!(class.color, None);
}

#[test]
fn class_builders_fill_slots() {
    let class = CssClass::new("x".to_string())
        .with_color(Color::red())
        .with_background_color(Color::green())
        .with_border_color(Color::blue());
    assert_eq!(class.name, "x");
    assert_eq!(class.color, Some(Color::red()));
    assert_eq!(class.background_color, Some(Color::green()));
    assert_eq!(class.border_color, Some(Color::blue()));
}

#[test]
fn load_from_dom_leaves_registry() {
    let mut registry = ClassMapper::new();
    registry.add_class(CssClass::new("a".to_string()).with_color(Color::red()));
    assert!(registry.load_from_dom().is_ok());
    assert_eq!(registry.get_color_for_class("a", ColorProperty::Color), Some(Color::red()));
}

#[test]
fn update_css_colors_installs_parsed_colours() {
    let mut registry = ClassMapper::new();
    registry.add_class(CssClass::new("accent-button".to_string()).with_color(Color::red()).with_border_color(Color::blue()));
    plinth::update_css_colors(&mut registry, "#ff6b35", "4ECDC4", "not-hex");
    assert_eq!(registry.get_color_for_class("primary-button", ColorProperty::Color), Some(Color::from_rgba(255, 107, 53, 255)));
    assert_eq!(registry.get_color_for_class("secondary-button", ColorProperty::Color), Some(Color::from_rgba(0x4e, 0xcd, 0xc4, 255)));
    assert_eq!(registry.get_color_for_class("accent-button", ColorProperty::Color), Some(Color::red()));
    assert_eq!(registry.get_color_for_class("accent-button", ColorProperty::BorderColor), Some(Color::blue()));
}
