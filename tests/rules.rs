use magicbot::rules::{
    clean_keywords, first_auto_reply, hit_any_rule, hit_any_rule_ban, is_ban_command,
    keywords_match, KeywordGroupBan, KeywordGroupReply,
    KeywordGroupWarn,
};
use magicbot::target::{extract_target_from_text, resolve_ban_target};
use magicbot::text::non_blank;

fn words(ws: &[&str]) -> Vec<String> {
    ws.iter().map(|w| w.to_string()).collect()
}

#[test]
fn keyword_match_is_case_insensitive_substring() {
    assert!(keywords_match(&words(&["Spam"]), "this is SPAM indeed"));
    assert!(keywords_match(&words(&["x", "buy now"]), "Please BUY NOW!"));
    assert!(!keywords_match(&words(&["spam"]), "clean message"));
}

#[test]
fn keyword_is_trimmed_before_matching() {
    assert!(keywords_match(&words(&["  hello\t"]), "say hello there"));
    assert!(!keywords_match(&words(&[" hello world "]), "hello  world"));
}

#[test]
fn keyword_lowercasing_covers_non_ascii() {
    assert!(keywords_match(&words(&["ÄRGER"]), "so viel ärger"));
}

#[test]
fn empty_keyword_list_never_matches() {
    assert!(!keywords_match(&[], "anything at all"));
    assert!(!keywords_match(&[], ""));
}

#[test]
fn blank_keywords_never_match() {
    assert!(!keywords_match(&words(&["", "   "]), "some text"));
    assert!(!keywords_match(&words(&[""]), ""));
}

#[test]
fn warn_and_ban_rules_match_any_rule() {
    let warn = vec![
        KeywordGroupWarn { keywords: words(&["foo"]) },
        KeywordGroupWarn { keywords: words(&["bar"]) },
    ];
    assert!(hit_any_rule(&warn, "a BAR here"));
    assert!(!hit_any_rule(&warn, "baz"));
    assert!(!hit_any_rule(&[], "foo"));
    let ban = vec![KeywordGroupBan { keywords: words(&["casino"]) }];
    assert!(hit_any_rule_ban(&ban, "Best Casino deals"));
    assert!(!hit_any_rule_ban(&ban, "hello"));
}

#[test]
fn first_matching_auto_reply_wins() {
    let rules = vec![
        KeywordGroupReply { keywords: words(&["price"]), reply: "see pinned".to_string() },
        KeywordGroupReply { keywords: words(&["price", "cost"]), reply: "second".to_string() },
        KeywordGroupReply { keywords: words(&["cost"]), reply: "third".to_string() },
    ];
    assert_eq!(first_auto_reply(&rules, "what is the PRICE and cost"), Some(0));
    assert_eq!(first_auto_reply(&rules, "the cost?"), Some(1));
    assert_eq!(first_auto_reply(&rules, "nothing"), None);
}

#[test]
fn ban_command_forms() {
    assert!(is_ban_command("/ban"));
    assert!(is_ban_command("  /ban@someone"));
    assert!(is_ban_command("/banana"));
    assert!(is_ban_command("please /ban@magicbot now"));
    assert!(!is_ban_command("ban him"));
    assert!(!is_ban_command("x /ban@other"));
}

#[test]
fn target_from_text_prefers_uuid() {
    let t = "/ban@magicbot +15550001111 0f1e2d3c-4b5a-6978-8796-a5b4c3d2e1f0";
    assert_eq!(
        extract_target_from_text(t),
        Some("0f1e2d3c-4b5a-6978-8796-a5b4c3d2e1f0".to_string())
    );
}

#[test]
fn target_from_text_phone_number() {
    assert_eq!(extract_target_from_text("/ban +8613800001111"), Some("+8613800001111".to_string()));
    assert_eq!(extract_target_from_text("/ban +12345"), None);
    assert_eq!(extract_target_from_text("/ban nobody"), None);
    let long = "/ban +1234567890123456789012345";
    assert_eq!(extract_target_from_text(long), Some("+12345678901234567890".to_string()));
}

#[test]
fn target_uuid_must_be_lower_case() {
    assert_eq!(extract_target_from_text("/ban 0F1E2D3C-4B5A-6978-8796-A5B4C3D2E1F0"), None);
}

#[test]
fn quoted_author_outranks_text_target() {
    let u1 = "11111111-1111-4111-8111-111111111111".to_string();
    let text = "/ban@magicbot 22222222-2222-4222-8222-222222222222";
    assert_eq!(resolve_ban_target(&Some(u1.clone()), text), Some(u1));
}

#[test]
fn blank_quoted_author_falls_back_to_text() {
    let text = "/ban@magicbot 22222222-2222-4222-8222-222222222222";
    assert_eq!(
        resolve_ban_target(&Some("   ".to_string()), text),
        Some("22222222-2222-4222-8222-222222222222".to_string())
    );
    assert_eq!(resolve_ban_target(&None, "/ban"), None);
}

#[test]
fn keywords_as_typed_are_cleaned() {
    assert_eq!(clean_keywords(&words(&[" a ", "", "  ", "b"])), words(&["a", "b"]));
    assert_eq!(clean_keywords(&vec![]), Vec::<String>::new());
}

#[test]
fn blank_input_means_nothing() {
    assert_eq!(non_blank("  ".to_string()), None);
    assert_eq!(non_blank(String::new()), None);
    assert_eq!(non_blank("hi ##{@user}##".to_string()), Some("hi ##{@user}##".to_string()));
}
