use plinth::{ClassMapper, Color, ColorProperty, CssClass, CssWatcher, ElementSample, StyleError};

fn sample(class: &str, id: u64, raw: &str) -> ElementSample {
    ElementSample { class_name: class.to_string(), element_id: id, raw_value: raw.to_string() }
}

#[test]
fn rescan_reports_a_change_once() {
    let mut registry = ClassMapper::new();
    let mut watcher = CssWatcher::new();
    watcher.watch_class("primary");
    let mut listener_calls = 0;
    let samples = vec![sample("primary", 1, "#ff6b35")];
    if watcher.rescan(&mut registry, &samples) {
        listener_calls += 1;
    }
    assert_eq!(listener_calls, 1);
    assert_eq!(registry.get_color_for_class("primary", ColorProperty::Color), Some(Color::from_rgba(255, 107, 53, 255)));
    if watcher.rescan(&mut registry, &samples) {
        listener_calls += 1;
    }
    assert_eq!(listener_calls, 1);
}

#[test]
fn several_changes_coalesce() {
    let mut registry = ClassMapper::new();
    let mut watcher = CssWatcher::new();
    watcher.watch_class("a");
    watcher.watch_class("b");
    let samples = vec![sample("a", 1, "rgb(1,2,3)"), sample("b", 2, "rgb(4,5,6)"), sample("a", 3, "rgb(7,8,9)")];
    assert!(watcher.rescan(&mut registry, &samples));
    // The last element of a class wins.
    assert_eq!(registry.get_color_for_class("a", ColorProperty::Color), Some(Color::from_rgba(7, 8, 9, 255)));
    assert_eq!(registry.get_color_for_class("b", ColorProperty::Color), Some(Color::from_rgba(4, 5, 6, 255)));
    assert!(!watcher.rescan(&mut registry, &samples));
    let changed = vec![sample("a", 1, "rgb(1,2,3)"), sample("b", 2, "rgb(4,5,60)"), sample("a", 3, "rgb(7,8,9)")];
    assert!(watcher.rescan(&mut registry, &changed));
    assert_eq!(registry.get_color_for_class("b", ColorProperty::Color), Some(Color::from_rgba(4, 5, 60, 255)));
}

#[test]
fn unparseable_value_leaves_registry() {
    let mut registry = ClassMapper::new();
    registry.add_class(CssClass::new("a".to_string()).with_color(Color::red()).with_border_color(Color::blue()));
    let mut watcher = CssWatcher::new();
    watcher.watch_class("a");
    assert!(!watcher.rescan(&mut registry, &vec![sample("a", 1, "not-a-color")]));
    assert_eq!(registry.get_color_for_class("a", ColorProperty::Color), Some(Color::red()));
    assert_eq!(registry.get_color_for_class("a", ColorProperty::BorderColor), Some(Color::blue()));
    // The value was cached: the same text is not retried.
    assert!(!watcher.rescan(&mut registry, &vec![sample("a", 1, "not-a-color")]));
    assert!(watcher.rescan(&mut registry, &vec![sample("a", 1, "#000000")]));
    // A change installs a class holding the colour alone.
    assert_eq!(registry.get_color_for_class("a", ColorProperty::BorderColor), None);
}

#[test]
fn unwatched_and_empty_values_are_skipped() {
    let mut registry = ClassMapper::new();
    let mut watcher = CssWatcher::new();
    watcher.watch_class("a");
    assert!(!watcher.rescan(&mut registry, &vec![sample("b", 1, "#ffffff"), sample("a", 2, "")]));
    assert!(registry.get_class("b").is_none());
    assert!(registry.get_class("a").is_none());
}

#[test]
fn start_seeds_and_stop_keeps_cache() {
    let mut registry = ClassMapper::new();
    let mut watcher = CssWatcher::new();
    watcher.watch_class("a");
    assert_eq!(watcher.watched_classes().len(), 1);
    assert!(!watcher.is_watching());
    let samples = vec![sample("a", 7, "rgba(0, 0, 0, 0.5)")];
    assert!(matches!(watcher.start(&mut registry, Some(&samples)), Ok(true)));
    assert!(watcher.is_watching());
    assert_eq!(registry.get_color_for_class("a", ColorProperty::Color), Some(Color::from_rgba(0, 0, 0, 128)));
    watcher.stop();
    assert!(!watcher.is_watching());
    assert!(matches!(watcher.start(&mut registry, Some(&samples)), Ok(false)));
}

#[test]
fn start_without_document_fails() {
    let mut registry = ClassMapper::new();
    let mut watcher = CssWatcher::new();
    assert!(matches!(watcher.start(&mut registry, None), Err(StyleError::DomAccessFailed)));
    assert!(!watcher.is_watching());
}
