use philosophy_ai::character_ai::Character;

#[test]
fn style_sets_traits_and_patterns() {
    let c = Character::new("カエル", "🐸", "Rust");
    assert_eq!(c.name, "カエル");
    assert_eq!(c.personality.language_style, "Rust");
    assert_eq!(c.personality.traits.len(), 4);
    assert_eq!(c.personality.traits[0], "安全性重視");
    assert_eq!(c.personality.response_patterns[2], "コンパイル時にエラーを捕まえよう");
}

#[test]
fn unknown_style_is_generic() {
    let c = Character::new("誰か", "🙂", "COBOL");
    assert_eq!(c.personality.traits, vec!["汎用的".to_string()]);
    assert_eq!(c.personality.response_patterns, vec!["一緒に考えよう".to_string()]);
}

#[test]
fn sentiment_selects_the_pattern() {
    let c = Character::new("ゴー", "🐹", "Go");
    assert_eq!(c.respond_to("最高", None), "🐹 シンプルに考えよう！");
    assert_eq!(c.respond_to("エラー", Some("ctx")), "🐹 並行して処理すれば効率的だね");
    assert_eq!(c.respond_to("こんにちは", None), "🐹 実用性を重視しよう");
}

#[test]
fn empty_patterns_fall_back() {
    let mut c = Character::new("ゴー", "🐹", "Go");
    c.personality.response_patterns.clear();
    assert_eq!(c.respond_to("最高", None), "🐹 一緒に考えよう");
}

#[test]
fn exclamations_do_not_move_persona_sentiment() {
    let c = Character::new("パイ", "🐍", "Python");
    assert_eq!(c.respond_to("!!!", None), "🐍 データから学ぼう");
}
