use livestack_shared::systems::text::copy_opt_text;
use livestack_shared::systems::text::has_prefix;
use livestack_shared::systems::text::join2;
use livestack_shared::systems::text::join3;
use livestack_shared::systems::text::join4;
use livestack_shared::systems::text::opt_text_is;
use livestack_shared::systems::text::same_opt_text;
use livestack_shared::systems::text::same_text;

#[test]
fn a_prefix_is_found_at_the_start_only() {
    assert!(has_prefix("Spec_a", "Spec_"));
    assert!(has_prefix("Spec_", "Spec_"));
    assert!(has_prefix("anything", ""));
    assert!(!has_prefix("Spec", "Spec_"));
    assert!(!has_prefix("aSpec_", "Spec_"));
    assert!(!has_prefix("Spfc_a", "Spec_"));
    assert!(has_prefix("\u{e9}t\u{e9}", "\u{e9}t"));
    assert!(!has_prefix("\u{e9}t\u{e9}", "et"));
}

#[test]
fn texts_are_compared_by_their_characters() {
    assert!(same_text("a", "a"));
    assert!(!same_text("a", "b"));
    assert!(!same_text("a", "ab"));
    assert!(same_opt_text(&None, &None));
    assert!(same_opt_text(&Some("a".to_string()), &Some("a".to_string())));
    assert!(!same_opt_text(&Some("a".to_string()), &None));
    assert!(!same_opt_text(&None, &Some("a".to_string())));
    assert!(!same_opt_text(&Some("a".to_string()), &Some("b".to_string())));
    assert!(opt_text_is(&Some("a".to_string()), "a"));
    assert!(!opt_text_is(&Some("a".to_string()), "b"));
    assert!(!opt_text_is(&None, ""));
    assert_eq!(copy_opt_text(&Some("a".to_string())), Some("a".to_string()));
    assert_eq!(copy_opt_text(&None), None);
}

#[test]
fn texts_are_joined_in_their_order() {
    assert_eq!(join2("a", "b"), "ab");
    assert_eq!(join3("a", "/", "b"), "a/b");
    assert_eq!(join4("[", "c", "]", "n"), "[c]n");
    assert_eq!(join2("", ""), "");
}
