//! A single persona that suggests how to optimize a task and keeps a mood
//! that each suggestion updates.
use vstd::prelude::*;
use vstd::string::*;
use crate::nlp::texts;
use crate::text::{is_substring, str_contains};
use crate::trusted::{lower_of, lowercase};

verus! {

/// The decimal digit of `d`.
pub open spec fn digit(d: nat) -> char {
    if d == 0 {
        '0'
    } else if d == 1 {
        '1'
    } else if d == 2 {
        '2'
    } else if d == 3 {
        '3'
    } else if d == 4 {
        '4'
    } else if d == 5 {
        '5'
    } else if d == 6 {
        '6'
    } else if d == 7 {
        '7'
    } else if d == 8 {
        '8'
    } else {
        '9'
    }
}

/// The decimal numeral of `n`, without leading zeros.
pub open spec fn decimal(n: nat) -> Seq<char>
    decreases n,
{
    if n < 10 {
        seq![digit(n)]
    } else {
        decimal(n / 10).push(digit(n % 10))
    }
}

fn digit_str(d: u32) -> (r: &'static str)
    requires
        d < 10,
    ensures
        r@ == seq![digit(d as nat)],
{
    if d == 0 {
        proof {
            reveal_strlit("0");
        }
        "0"
    } else if d == 1 {
        proof {
            reveal_strlit("1");
        }
        "1"
    } else if d == 2 {
        proof {
            reveal_strlit("2");
        }
        "2"
    } else if d == 3 {
        proof {
            reveal_strlit("3");
        }
        "3"
    } else if d == 4 {
        proof {
            reveal_strlit("4");
        }
        "4"
    } else if d == 5 {
        proof {
            reveal_strlit("5");
        }
        "5"
    } else if d == 6 {
        proof {
            reveal_strlit("6");
        }
        "6"
    } else if d == 7 {
        proof {
            reveal_strlit("7");
        }
        "7"
    } else if d == 8 {
        proof {
            reveal_strlit("8");
        }
        "8"
    } else {
        proof {
            reveal_strlit("9");
        }
        "9"
    }
}

/// The decimal numeral of `n`.
pub fn decimal_string(n: u32) -> (r: String)
    ensures
        r@ == decimal(n as nat),
    decreases n,
{
    if n < 10 {
        String::from_str(digit_str(n))
    } else {
        let mut r = decimal_string(n / 10);
        r.append(digit_str(n % 10));
        r
    }
}

/// The improvement that an optimization promises from an efficiency `e` out of
/// ten: twice the gap to ten below five, the gap itself from five on.
pub open spec fn improvement(e: int) -> int {
    if e < 5 {
        (10 - e) * 2
    } else {
        10 - e
    }
}

/// The mood after an optimization with the given improvement.
pub open spec fn mood_for(improvement: int) -> Seq<char> {
    if improvement > 5 {
        "delighted"@
    } else if improvement > 2 {
        "satisfied"@
    } else {
        "contemplative"@
    }
}

/// The suggestion for a lowercased task: the first of performance, safety and
/// concurrency whose words it holds, else a general one.
pub open spec fn solution_for(lt: Seq<char>) -> Seq<char> {
    if is_substring("速度"@, lt) || is_substring("performance"@, lt) {
        "☃️ Rustの所有権システムでメモリ安全性を保ちながら最高速度を実現！"@
    } else if is_substring("安全"@, lt) || is_substring("safety"@, lt) {
        "☃️ コンパイル時エラーチェックで実行時の不安を完全に排除！"@
    } else if is_substring("並行"@, lt) || is_substring("concurrent"@, lt) {
        "☃️ Tokioの非同期処理で効率的な並行プログラミングを実現！"@
    } else {
        "☃️ Rustの型システムでバグを未然に防ぎ、完璧なコードを作りましょう！"@
    }
}

/// The value named in the advice for a warmth factor.
pub open spec fn warmth_phrase(w: u8) -> Seq<char> {
    if 9 <= w <= 10 {
        "人との繋がり"@
    } else if 7 <= w <= 8 {
        "思いやり"@
    } else {
        "笑顔"@
    }
}

/// The advice for a warmth factor.
pub open spec fn warmth_advice_for(w: u8) -> Seq<char> {
    "効率性は大切だけど、"@ + warmth_phrase(w) + "も忘れずに。温かい心で技術を使いましょう☃️"@
}

/// The comment naming the perfection and warmth levels as percentages.
pub open spec fn comment_for(p: u8, w: u8) -> Seq<char> {
    "☃️ 完璧度"@ + decimal(p as nat * 10) + "%で最適化完了！でも100%を目指すより、"@ + decimal(
        w as nat * 10,
    ) + "%の温かさも大切だよ！"@
}

/// The persona's state as values.
pub struct SnowmanState {
    pub name: Seq<char>,
    pub perfection_level: u8,
    pub warmth_factor: u8,
    pub efficiency_score: u8,
    pub mood: Seq<char>,
}

/// The state after an optimization from efficiency `e`: only the mood changes.
pub open spec fn after_optimize(s: SnowmanState, e: u8) -> SnowmanState {
    SnowmanState { mood: mood_for(improvement(e as int)), ..s }
}

/// The state after optimizations from the efficiencies `calls`, in order.
pub open spec fn run(s: SnowmanState, calls: Seq<u8>) -> SnowmanState
    decreases calls.len(),
{
    if calls.len() == 0 {
        s
    } else {
        after_optimize(run(s, calls.drop_last()), calls.last())
    }
}

/// The aphorisms of the persona.
pub open spec fn rust_wisdom() -> Seq<Seq<char>> {
    seq![
        "☃️ 所有権システムは最初は難しいけど、慣れると安心感がすごいよ！"@,
        "☃️ `unwrap()`より`match`や`if let`を使おう。エラーハンドリングは愛情表現だよ！"@,
        "☃️ パフォーマンスと安全性の両立、それがRustの魅力だよ！"@,
        "☃️ クレートエコシステムはとても豊富。みんなで作り上げる温かいコミュニティ！"@,
        "☃️ ゼロコスト抽象化で、高レベルなコードでも高パフォーマンス！"@,
    ]
}

/// The persona: its name, fixed perfection and warmth levels, an efficiency
/// score and a mood.
#[derive(Debug, Clone)]
pub struct SnowmanCharacter {
    pub name: String,
    pub perfection_level: u8,
    pub warmth_factor: u8,
    pub efficiency_score: u8,
    pub current_mood: String,
}

/// A suggestion for a task.
#[derive(Debug, Clone)]
pub struct OptimizationResponse {
    pub original_task: String,
    pub optimized_solution: String,
    pub efficiency_improvement: u8,
    pub warmth_advice: String,
    pub snowman_comment: String,
}

impl View for SnowmanCharacter {
    type V = SnowmanState;

    open spec fn view(&self) -> SnowmanState {
        SnowmanState {
            name: self.name@,
            perfection_level: self.perfection_level,
            warmth_factor: self.warmth_factor,
            efficiency_score: self.efficiency_score,
            mood: self.current_mood@,
        }
    }
}

impl SnowmanCharacter {
    /// The persona in its initial state: perfection 8, warmth 9, efficiency 7,
    /// mood `optimistic`.
    pub fn new() -> (r: Self)
        ensures
            r@ == (SnowmanState {
                name: "雪だるまチャン"@,
                perfection_level: 8,
                warmth_factor: 9,
                efficiency_score: 7,
                mood: "optimistic"@,
            }),
    {
        SnowmanCharacter {
            name: "雪だるまチャン".to_string(),
            perfection_level: 8,
            warmth_factor: 9,
            efficiency_score: 7,
            current_mood: "optimistic".to_string(),
        }
    }

    /// A suggestion for `task` from an efficiency out of ten; the mood becomes
    /// the one for the improvement, and nothing else changes.
    pub fn optimize_task(&mut self, task: &str, current_efficiency: u8) -> (r: OptimizationResponse)
        requires
            current_efficiency <= 10,
        ensures
            final(self)@ == after_optimize(old(self)@, current_efficiency),
            r.original_task@ == task@,
            r.optimized_solution@ == solution_for(lower_of(task@)),
            r.efficiency_improvement as int == improvement(current_efficiency as int),
            r.warmth_advice@ == warmth_advice_for(old(self).warmth_factor),
            r.snowman_comment@ == comment_for(old(self).perfection_level, old(self).warmth_factor),
    {
        let efficiency_improvement: u8 = if current_efficiency < 5 {
            (10 - current_efficiency) * 2
        } else {
            10 - current_efficiency
        };
        let lt = lowercase(task);
        let l = lt.as_str();
        let optimized_solution = if str_contains(l, "速度") || str_contains(l, "performance") {
            "☃️ Rustの所有権システムでメモリ安全性を保ちながら最高速度を実現！".to_string()
        } else if str_contains(l, "安全") || str_contains(l, "safety") {
            "☃️ コンパイル時エラーチェックで実行時の不安を完全に排除！".to_string()
        } else if str_contains(l, "並行") || str_contains(l, "concurrent") {
            "☃️ Tokioの非同期処理で効率的な並行プログラミングを実現！".to_string()
        } else {
            "☃️ Rustの型システムでバグを未然に防ぎ、完璧なコードを作りましょう！".to_string()
        };
        let w = self.warmth_factor;
        let phrase = if 9 <= w && w <= 10 {
            "人との繋がり"
        } else if 7 <= w && w <= 8 {
            "思いやり"
        } else {
            "笑顔"
        };
        let mut warmth_advice = String::from_str("効率性は大切だけど、");
        warmth_advice.append(phrase);
        warmth_advice.append("も忘れずに。温かい心で技術を使いましょう☃️");
        let mut snowman_comment = String::from_str("☃️ 完璧度");
        let p = decimal_string(self.perfection_level as u32 * 10);
        snowman_comment.append(p.as_str());
        snowman_comment.append("%で最適化完了！でも100%を目指すより、");
        let q = decimal_string(w as u32 * 10);
        snowman_comment.append(q.as_str());
        snowman_comment.append("%の温かさも大切だよ！");
        self.current_mood = if efficiency_improvement > 5 {
            "delighted".to_string()
        } else if efficiency_improvement > 2 {
            "satisfied".to_string()
        } else {
            "contemplative".to_string()
        };
        proof {
            assert(warmth_advice@ =~= warmth_advice_for(w));
            assert(snowman_comment@ =~= comment_for(old(self).perfection_level, w));
        }
        OptimizationResponse {
            original_task: String::from_str(task),
            optimized_solution,
            efficiency_improvement,
            warmth_advice,
            snowman_comment,
        }
    }

    /// The persona's aphorisms.
    pub fn get_rust_wisdom(&self) -> (r: Vec<String>)
        ensures
            texts(r@) == rust_wisdom(),
    {
        let r = vec![
            "☃️ 所有権システムは最初は難しいけど、慣れると安心感がすごいよ！".to_string(),
            "☃️ `unwrap()`より`match`や`if let`を使おう。エラーハンドリングは愛情表現だよ！".to_string(),
            "☃️ パフォーマンスと安全性の両立、それがRustの魅力だよ！".to_string(),
            "☃️ クレートエコシステムはとても豊富。みんなで作り上げる温かいコミュニティ！".to_string(),
            "☃️ ゼロコスト抽象化で、高レベルなコードでも高パフォーマンス！".to_string(),
        ];
        assert(texts(r@) =~= rust_wisdom());
        r
    }
}

/// Optimizations applied one at a time: after any non-empty sequence of them,
/// the mood is the one that the last call's efficiency gives, and every other
/// field is as it was before the first.
pub proof fn lemma_last_call_sets_mood(s: SnowmanState, calls: Seq<u8>)
    requires
        calls.len() > 0,
    ensures
        run(s, calls).mood == mood_for(improvement(calls.last() as int)),
        run(s, calls).name == s.name,
        run(s, calls).perfection_level == s.perfection_level,
        run(s, calls).warmth_factor == s.warmth_factor,
        run(s, calls).efficiency_score == s.efficiency_score,
    decreases calls.len(),
{
    if calls.len() > 1 {
        lemma_last_call_sets_mood(s, calls.drop_last());
    } else {
        assert(run(s, calls.drop_last()) == s);
    }
}

} // verus!
