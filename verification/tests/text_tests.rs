use glim::event::AtlantisAction;
use glim::id::{JobId, MrIid, PipelineId, ProjectId};
use glim::text::{contains, decimal_text, first_lines, is_blank, text_eq};

#[test]
fn ids_keep_their_number() {
    assert_eq!(ProjectId::new(5).value(), 5);
    assert_eq!(PipelineId::new(6).value(), 6);
    assert_eq!(JobId::new(7).value(), 7);
    assert_eq!(MrIid::new(8).value(), 8);
    assert_eq!(ProjectId::new(5), ProjectId::new(5));
    assert_ne!(ProjectId::new(5), ProjectId::new(6));
    assert!(JobId::new(1) < JobId::new(2));
}

#[test]
fn decimal_numbers() {
    assert_eq!(decimal_text(0), "0");
    assert_eq!(decimal_text(9), "9");
    assert_eq!(decimal_text(10), "10");
    assert_eq!(decimal_text(1234567890), "1234567890");
    assert_eq!(decimal_text(u64::MAX), "18446744073709551615");
}

#[test]
fn lines_like_str_lines() {
    for s in ["", "a", "a\n", "a\r\nb", "\n\n", "a\rb\n", "x\r", "one\ntwo\r\n\r\nthree"] {
        let expected: Vec<&str> = s.lines().collect();
        let got = first_lines(s, 100);
        assert_eq!(got, expected, "lines of {:?}", s);
    }
    assert_eq!(first_lines("a\nb\nc", 2), vec!["a", "b"]);
    assert!(first_lines("a\nb", 0).is_empty());
}

#[test]
fn text_search() {
    assert!(contains("group/project", "proj"));
    assert!(contains("abc", ""));
    assert!(!contains("abc", "abcd"));
    assert!(!contains("abc", "cb"));
    assert!(is_blank(""));
    assert!(is_blank(" \t\n"));
    assert!(!is_blank(" x "));
    assert!(text_eq("same", "same"));
    assert!(!text_eq("same", "Same"));
}

#[test]
fn atlantis_command_bodies() {
    assert_eq!(AtlantisAction::Plan.comment_body(), "atlantis plan");
    assert_eq!(AtlantisAction::Apply.comment_body(), "atlantis apply");
}

#[test]
fn default_ids_are_zero() {
    assert_eq!(ProjectId::default(), ProjectId::new(0));
    assert_eq!(PipelineId::default(), PipelineId::new(0));
    assert_eq!(JobId::default(), JobId::new(0));
    assert_eq!(MrIid::default(), MrIid::new(0));
}

#[test]
fn white_space_is_unicode_white_space() {
    assert!(is_blank("\u{a0}\u{3000}\u{2028}\u{85}"));
    assert!(!is_blank("\u{200b}"));
}
