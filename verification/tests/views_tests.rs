use glim::views::{str_lt, InvolvementFilter, ViewConfig, ViewsFile};

fn view(name: &str, key: &str) -> ViewConfig {
    ViewConfig { name: name.to_string(), key: key.to_string(), search_filter: None, recent_days: None, involvement: None }
}

#[test]
fn default_views_are_held_by_slug() {
    let f = ViewsFile::default();
    let slugs: Vec<&str> = f.views.iter().map(|(s, _)| s.as_str()).collect();
    assert_eq!(slugs, vec!["all", "mywork", "reviewing"]);
    let (_, mywork) = &f.views[1];
    assert_eq!(mywork.name, "My Work");
    assert_eq!(mywork.key, "1");
    assert_eq!(mywork.recent_days, Some(14));
    assert_eq!(mywork.involvement, Some(InvolvementFilter::Contributor));
    assert!(mywork.search_filter.is_none());
    let (_, reviewing) = &f.views[2];
    assert_eq!(reviewing.involvement, Some(InvolvementFilter::Reviewer));
    assert_eq!(reviewing.recent_days, None);
}

#[test]
fn default_views_sort_by_key() {
    let sorted = ViewsFile::default().sorted_views();
    let names: Vec<&str> = sorted.iter().map(|v| v.name.as_str()).collect();
    assert_eq!(names, vec!["My Work", "Reviewing", "All"]);
    let keys: Vec<&str> = sorted.iter().map(|v| v.key.as_str()).collect();
    assert_eq!(keys, vec!["1", "2", "3"]);
}

#[test]
fn keys_sort_as_text_and_ties_keep_slug_order() {
    let f = ViewsFile {
        views: vec![
            ("a".to_string(), view("ten", "10")),
            ("b".to_string(), view("two", "2")),
            ("c".to_string(), view("one", "1")),
            ("d".to_string(), view("other one", "1")),
            ("e".to_string(), view("empty", "")),
        ],
    };
    let names: Vec<String> = f.sorted_views().into_iter().map(|v| v.name).collect();
    assert_eq!(names, vec!["empty", "one", "other one", "ten", "two"]);
}

#[test]
fn no_views_sort_to_nothing() {
    let f = ViewsFile { views: vec![] };
    assert!(f.sorted_views().is_empty());
}

#[test]
fn text_order_is_by_character() {
    assert!(str_lt("1", "2"));
    assert!(str_lt("1", "10"));
    assert!(str_lt("", "a"));
    assert!(!str_lt("a", "a"));
    assert!(str_lt("Z", "a"));
    assert!(!str_lt("b", "ab"));
    assert!(str_lt("\u{e9}", "\u{1f600}"));
}
