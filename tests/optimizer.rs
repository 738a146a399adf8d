use philosophy_ai::perfection::{decimal_string, SnowmanCharacter};

#[test]
fn speed_task_from_low_efficiency() {
    let mut s = SnowmanCharacter::new();
    let r = s.optimize_task("速度を改善したい", 3);
    assert_eq!(r.efficiency_improvement, 14);
    assert_eq!(
        r.optimized_solution,
        "☃️ Rustの所有権システムでメモリ安全性を保ちながら最高速度を実現！"
    );
    assert_eq!(s.current_mood, "delighted");
    assert_eq!(r.original_task, "速度を改善したい");
}

#[test]
fn categories_in_order() {
    let mut s = SnowmanCharacter::new();
    assert_eq!(
        s.optimize_task("SAFETY and performance", 5).optimized_solution,
        "☃️ Rustの所有権システムでメモリ安全性を保ちながら最高速度を実現！"
    );
    assert_eq!(
        s.optimize_task("Safety first", 5).optimized_solution,
        "☃️ コンパイル時エラーチェックで実行時の不安を完全に排除！"
    );
    assert_eq!(
        s.optimize_task("並行処理", 5).optimized_solution,
        "☃️ Tokioの非同期処理で効率的な並行プログラミングを実現！"
    );
    assert_eq!(
        s.optimize_task("something", 5).optimized_solution,
        "☃️ Rustの型システムでバグを未然に防ぎ、完璧なコードを作りましょう！"
    );
}

#[test]
fn improvement_and_mood_table() {
    let mut s = SnowmanCharacter::new();
    let cases = [(0u8, 20u8, "delighted"), (4, 12, "delighted"), (5, 5, "satisfied"), (7, 3, "satisfied"), (8, 2, "contemplative"), (10, 0, "contemplative")];
    for (e, imp, mood) in cases {
        let r = s.optimize_task("x", e);
        assert_eq!(r.efficiency_improvement, imp);
        assert_eq!(s.current_mood, mood);
    }
    assert_eq!(s.perfection_level, 8);
    assert_eq!(s.warmth_factor, 9);
    assert_eq!(s.efficiency_score, 7);
}

#[test]
fn last_call_decides_mood() {
    let mut s = SnowmanCharacter::new();
    s.optimize_task("a", 0);
    s.optimize_task("b", 9);
    assert_eq!(s.current_mood, "contemplative");
    s.optimize_task("c", 6);
    assert_eq!(s.current_mood, "satisfied");
}

#[test]
fn advice_and_comment_text() {
    let mut s = SnowmanCharacter::new();
    let r = s.optimize_task("x", 3);
    assert_eq!(r.warmth_advice, "効率性は大切だけど、人との繋がりも忘れずに。温かい心で技術を使いましょう☃️");
    assert_eq!(r.snowman_comment, "☃️ 完璧度80%で最適化完了！でも100%を目指すより、90%の温かさも大切だよ！");
    s.warmth_factor = 7;
    s.perfection_level = 10;
    let r = s.optimize_task("x", 3);
    assert_eq!(r.warmth_advice, "効率性は大切だけど、思いやりも忘れずに。温かい心で技術を使いましょう☃️");
    assert_eq!(r.snowman_comment, "☃️ 完璧度100%で最適化完了！でも100%を目指すより、70%の温かさも大切だよ！");
    s.warmth_factor = 0;
    let r = s.optimize_task("x", 3);
    assert!(r.warmth_advice.contains("笑顔"));
    assert!(r.snowman_comment.contains("、0%の"));
}

#[test]
fn initial_state_and_wisdom() {
    let s = SnowmanCharacter::new();
    assert_eq!(s.name, "雪だるまチャン");
    assert_eq!(s.current_mood, "optimistic");
    assert_eq!(s.get_rust_wisdom().len(), 5);
}

#[test]
fn decimal_numerals() {
    assert_eq!(decimal_string(0), "0");
    assert_eq!(decimal_string(7), "7");
    assert_eq!(decimal_string(250), "250");
    assert_eq!(decimal_string(4294967295), "4294967295");
}
