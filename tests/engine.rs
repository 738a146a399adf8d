use philosophy_ai::ai_engine::AIEngine;

#[test]
fn unknown_persona_is_confused() {
    let engine = AIEngine::new();
    let r = engine.chat_with_character("nobody", "こんにちは", None);
    assert_eq!(r.character, "unknown");
    assert_eq!(r.emotion, "confused");
    assert_eq!(r.confidence, 0);
    assert_eq!(r.response, "そのキャラクターは見つからないっぺ...🤖");
}

#[test]
fn chat_reply_uses_a_pattern_and_a_confidence_in_range() {
    let engine = AIEngine::new();
    let patterns = [
        "効率よりも心の温かさが大切だよ！",
        "シンプルが一番だね☃️",
        "みんなで一緒に頑張ろう！",
    ];
    for _ in 0..20 {
        let r = engine.chat_with_character("snowman", "楽しい", None);
        assert_eq!(r.character, "snowman");
        assert_eq!(r.emotion, "happy");
        assert!(r.confidence >= 8500 && r.confidence < 9500);
        assert!(r.timestamp > 0);
        assert!(patterns
            .iter()
            .any(|p| r.response == format!("☃️ 素晴らしい考えだね！ {}", p)));
    }
}

#[test]
fn composed_reply_is_fixed_by_its_inputs() {
    let engine = AIEngine::new();
    let a = engine.compose_reply("frog", "悲しい", 1, 42, 7);
    let b = engine.compose_reply("frog", "悲しい", 1, 42, 7);
    assert_eq!(a.response, b.response);
    assert_eq!(a.emotion, b.emotion);
    assert_eq!(a.confidence, b.confidence);
    assert_eq!(a.response, "🐸 大丈夫、一緒に考えよう 安全で確実な方法を考えよう🐸");
    assert_eq!(a.emotion, "contemplative");
    assert_eq!(a.confidence, 8542);
    assert_eq!(a.timestamp, 7);
}

#[test]
fn other_personas_are_concerned() {
    let engine = AIEngine::new();
    let r = engine.compose_reply("fugu", "失敗した", 0, 0, 0);
    assert_eq!(r.emotion, "concerned");
    assert_eq!(r.response, "🐡 大丈夫、一緒に考えよう バグったら爆発するけど、それも愛嬌だっぺ！💥");
    let n = engine.compose_reply("snowman", "こんにちは", 2, 999, 0);
    assert_eq!(n.emotion, "neutral");
    assert_eq!(n.confidence, 9499);
    assert_eq!(n.response, "☃️ なるほど、面白いね みんなで一緒に頑張ろう！");
}

#[test]
fn empty_text_analysis() {
    let engine = AIEngine::new();
    let a = engine.analyze_philosophy("");
    assert_eq!(a.complexity, 0);
    assert_eq!(a.themes, vec!["general".to_string()]);
    assert_eq!(a.sentiment, "neutral");
    assert_eq!(a.word_count, 0);
    assert_eq!(a.sentence_count, 1);
    assert_eq!(a.recommendations, vec!["この考えをさらに深めてみよう".to_string()]);
    assert_eq!(a.id.len(), 36);
}

#[test]
fn complexity_is_words_per_sentence_over_twenty() {
    let engine = AIEngine::new();
    let a = engine.analyze_philosophy("a b c d. e f");
    assert_eq!(a.word_count, 6);
    assert_eq!(a.sentence_count, 2);
    assert_eq!(a.complexity, 150);
    let long = "w ".repeat(45);
    assert_eq!(engine.analyze_philosophy(&long).complexity, 1000);
}

#[test]
fn negative_text_gets_extra_advice() {
    let engine = AIEngine::new();
    let a = engine.analyze_philosophy("技術の問題と人生");
    assert_eq!(a.themes, vec!["technology".to_string(), "life".to_string()]);
    assert_eq!(a.sentiment, "negative");
    assert_eq!(
        a.recommendations,
        vec![
            "技術は人間のためのツールとして使おう".to_string(),
            "今この瞬間を大切にしよう".to_string(),
            "ポジティブな視点からも考えてみよう".to_string(),
        ]
    );
}

#[test]
fn ids_differ_between_analyses() {
    let engine = AIEngine::new();
    assert_ne!(engine.analyze_philosophy("x").id, engine.analyze_philosophy("x").id);
}

#[test]
fn wisdom_is_never_empty() {
    let engine = AIEngine::new();
    for theme in ["", "zzz", "life", "成長", "LIFE"] {
        assert!(!engine.generate_wisdom(theme).is_empty());
    }
}

#[test]
fn wisdom_pool_filters_by_theme() {
    let engine = AIEngine::new();
    assert_eq!(
        engine.wisdom_pool("成長"),
        vec!["困難は、成長のための贈り物である".to_string()]
    );
    assert_eq!(engine.relevant_wisdom("zzz").len(), 0);
    assert_eq!(engine.wisdom_pool("zzz").len(), 8);
    assert_eq!(engine.wisdom_pool("Life").len(), 8);
    assert_eq!(engine.wisdom_pool("人生の意味").len(), 8);
    assert_eq!(engine.generate_wisdom("成長"), "困難は、成長のための贈り物である");
}

#[test]
fn personalities_are_listed_in_order() {
    let engine = AIEngine::new();
    let list = engine.get_character_personalities();
    let ids: Vec<&str> = list.iter().map(|(k, _)| k.as_str()).collect();
    assert_eq!(ids, vec!["snowman", "frog", "fugu"]);
    assert_eq!(list[1].1.language_style, "Rust");
    assert_eq!(list[2].1.traits[0], "爆発的");
}
