//! Character personas: traits, a language style and canned response
//! patterns, with a sentiment-indexed choice among the patterns.
use vstd::prelude::*;
use vstd::string::*;
use crate::nlp::{count_hits, decide, hits, texts, Sentiment};
use crate::text::{same_text, spaced};
use crate::trusted::{lower_of, lowercase};

verus! {

/// The traits of a persona of the given language style.
pub open spec fn style_traits(style: Seq<char>) -> Seq<Seq<char>> {
    if style == "Go"@ {
        seq!["効率的"@, "シンプル"@, "並行処理好き"@, "実用的"@]
    } else if style == "Rust"@ {
        seq!["安全性重視"@, "完璧主義"@, "メモリ効率"@, "ゼロコスト抽象化"@]
    } else if style == "JavaScript"@ {
        seq!["柔軟"@, "動的"@, "プロトタイプベース"@, "イベント駆動"@]
    } else if style == "Python"@ {
        seq!["読みやすい"@, "多目的"@, "ライブラリ豊富"@, "AI・データサイエンス"@]
    } else if style == "Haskell"@ {
        seq!["純粋関数型"@, "遅延評価"@, "型安全"@, "数学的"@]
    } else {
        seq!["汎用的"@]
    }
}

/// The response patterns of a persona of the given language style.
pub open spec fn style_patterns(style: Seq<char>) -> Seq<Seq<char>> {
    if style == "Go"@ {
        seq!["シンプルに考えよう！"@, "並行して処理すれば効率的だね"@, "実用性を重視しよう"@]
    } else if style == "Rust"@ {
        seq!["安全第一で行こう"@, "メモリリークは許さない"@, "コンパイル時にエラーを捕まえよう"@]
    } else if style == "JavaScript"@ {
        seq!["柔軟に対応しよう！"@, "イベントで繋がろう"@, "動的に変化しよう"@]
    } else if style == "Python"@ {
        seq!["シンプルでエレガントに"@, "ライブラリを活用しよう"@, "データから学ぼう"@]
    } else if style == "Haskell"@ {
        seq!["純粋に考えよう"@, "型が教えてくれる"@, "数学的に美しく"@]
    } else {
        seq![fallback_pattern()]
    }
}

/// The pattern used where a persona has none.
pub open spec fn fallback_pattern() -> Seq<char> {
    "一緒に考えよう"@
}

/// The positive words that a persona listens for.
pub open spec fn message_positive_words() -> Seq<Seq<char>> {
    seq!["好き"@, "素晴らしい"@, "最高"@, "楽しい"@, "嬉しい"@, "感動"@]
}

/// The negative words that a persona listens for.
pub open spec fn message_negative_words() -> Seq<Seq<char>> {
    seq!["嫌い"@, "悲しい"@, "困った"@, "問題"@, "エラー"@, "失敗"@]
}

/// The sentiment a persona reads in a message: positive against negative
/// words found in the lowercased message.
pub open spec fn message_sentiment(message: Seq<char>) -> Sentiment {
    let t = lower_of(message);
    decide(hits(message_positive_words(), t) as int, hits(message_negative_words(), t) as int)
}

/// The index of the pattern chosen for a sentiment among `n` patterns: the
/// first for positive, the middle for negative, the last otherwise.
pub open spec fn pattern_index(s: Sentiment, n: int) -> int {
    match s {
        Sentiment::Positive => 0,
        Sentiment::Negative => n / 2,
        Sentiment::Neutral => n - 1,
    }
}

/// The pattern chosen for a sentiment; the fallback pattern where there is none.
pub open spec fn chosen_pattern(patterns: Seq<Seq<char>>, s: Sentiment) -> Seq<char> {
    if patterns.len() == 0 {
        fallback_pattern()
    } else {
        patterns[pattern_index(s, patterns.len() as int)]
    }
}

/// What a personality holds, as texts.
pub struct PersonalityView {
    pub traits: Seq<Seq<char>>,
    pub language_style: Seq<char>,
    pub response_patterns: Seq<Seq<char>>,
}

/// What a character holds, as texts.
pub struct CharacterView {
    pub name: Seq<char>,
    pub emoji: Seq<char>,
    pub personality: PersonalityView,
}

/// The personality of a character.
#[derive(Debug, Clone)]
pub struct CharacterPersonality {
    pub traits: Vec<String>,
    pub language_style: String,
    pub response_patterns: Vec<String>,
}

/// A character: a name, a glyph and a personality.
#[derive(Debug, Clone)]
pub struct Character {
    pub name: String,
    pub emoji: String,
    pub personality: CharacterPersonality,
}

impl View for CharacterPersonality {
    type V = PersonalityView;

    open spec fn view(&self) -> PersonalityView {
        PersonalityView {
            traits: texts(self.traits@),
            language_style: self.language_style@,
            response_patterns: texts(self.response_patterns@),
        }
    }
}

impl View for Character {
    type V = CharacterView;

    open spec fn view(&self) -> CharacterView {
        CharacterView { name: self.name@, emoji: self.emoji@, personality: self.personality@ }
    }
}

/// A copy of a list of strings.
pub fn copy_texts(v: &Vec<String>) -> (r: Vec<String>)
    ensures
        texts(r@) == texts(v@),
{
    let mut r: Vec<String> = Vec::new();
    let mut i: usize = 0;
    while i < v.len()
        invariant
            i <= v@.len(),
            texts(r@) == texts(v@.subrange(0, i as int)),
        decreases v@.len() - i,
    {
        let item = String::from_str(v[i].as_str());
        let ghost before = r@;
        r.push(item);
        assert(v@.subrange(0, i + 1) =~= v@.subrange(0, i as int).push(v@[i as int]));
        assert(texts(r@) =~= texts(before).push(v@[i as int]@));
        assert(texts(r@) =~= texts(v@.subrange(0, i + 1)));
        i = i + 1;
    }
    assert(v@.subrange(0, v@.len() as int) =~= v@);
    r
}

impl CharacterPersonality {
    /// A copy of this personality.
    pub fn copy(&self) -> (r: Self)
        ensures
            r@ == self@,
    {
        CharacterPersonality {
            traits: copy_texts(&self.traits),
            language_style: String::from_str(self.language_style.as_str()),
            response_patterns: copy_texts(&self.response_patterns),
        }
    }
}

impl Character {
    /// A character whose traits and patterns follow its language style; an
    /// unknown style gives a generic personality.
    pub fn new(name: &str, emoji: &str, language_style: &str) -> (r: Self)
        ensures
            r.name@ == name@,
            r.emoji@ == emoji@,
            r.personality.language_style@ == language_style@,
            texts(r.personality.traits@) == style_traits(language_style@),
            texts(r.personality.response_patterns@) == style_patterns(language_style@),
    {
        let (traits, response_patterns) =         if same_text(language_style, "Go") {
            let traits = vec!["効率的".to_string(), "シンプル".to_string(), "並行処理好き".to_string(), "実用的".to_string()];
            let patterns = vec!["シンプルに考えよう！".to_string(), "並行して処理すれば効率的だね".to_string(), "実用性を重視しよう".to_string()];
            proof {
                assert(texts(traits@) =~= style_traits(language_style@));
                assert(texts(patterns@) =~= style_patterns(language_style@));
            }
            (traits, patterns)
        }         else if same_text(language_style, "Rust") {
            let traits = vec!["安全性重視".to_string(), "完璧主義".to_string(), "メモリ効率".to_string(), "ゼロコスト抽象化".to_string()];
            let patterns = vec!["安全第一で行こう".to_string(), "メモリリークは許さない".to_string(), "コンパイル時にエラーを捕まえよう".to_string()];
            proof {
                assert(texts(traits@) =~= style_traits(language_style@));
                assert(texts(patterns@) =~= style_patterns(language_style@));
            }
            (traits, patterns)
        }         else if same_text(language_style, "JavaScript") {
            let traits = vec!["柔軟".to_string(), "動的".to_string(), "プロトタイプベース".to_string(), "イベント駆動".to_string()];
            let patterns = vec!["柔軟に対応しよう！".to_string(), "イベントで繋がろう".to_string(), "動的に変化しよう".to_string()];
            proof {
                assert(texts(traits@) =~= style_traits(language_style@));
                assert(texts(patterns@) =~= style_patterns(language_style@));
            }
            (traits, patterns)
        }         else if same_text(language_style, "Python") {
            let traits = vec!["読みやすい".to_string(), "多目的".to_string(), "ライブラリ豊富".to_string(), "AI・データサイエンス".to_string()];
            let patterns = vec!["シンプルでエレガントに".to_string(), "ライブラリを活用しよう".to_string(), "データから学ぼう".to_string()];
            proof {
                assert(texts(traits@) =~= style_traits(language_style@));
                assert(texts(patterns@) =~= style_patterns(language_style@));
            }
            (traits, patterns)
        }         else if same_text(language_style, "Haskell") {
            let traits = vec!["純粋関数型".to_string(), "遅延評価".to_string(), "型安全".to_string(), "数学的".to_string()];
            let patterns = vec!["純粋に考えよう".to_string(), "型が教えてくれる".to_string(), "数学的に美しく".to_string()];
            proof {
                assert(texts(traits@) =~= style_traits(language_style@));
                assert(texts(patterns@) =~= style_patterns(language_style@));
            }
            (traits, patterns)
        } else {
            let traits = vec!["汎用的".to_string()];
            let patterns = vec!["一緒に考えよう".to_string()];
            proof {
                assert(texts(traits@) =~= style_traits(language_style@));
                assert(texts(patterns@) =~= style_patterns(language_style@));
            }
            (traits, patterns)
        };
        Character {
            name: name.to_string(),
            emoji: emoji.to_string(),
            personality: CharacterPersonality {
                traits,
                language_style: language_style.to_string(),
                response_patterns,
            },
        }
    }

    /// The reply to `message`: the glyph, a space and the pattern chosen for the
    /// message's sentiment. The context is not read.
    pub fn respond_to(&self, message: &str, context: Option<&str>) -> (r: String)
        ensures
            r@ == self.emoji@ + " "@ + chosen_pattern(
                texts(self.personality.response_patterns@),
                message_sentiment(message@),
            ),
    {
        let sentiment = self.analyze_message_sentiment(message);
        let base = self.select_response_pattern(sentiment);
        spaced(self.emoji.as_str(), base.as_str())
    }

    fn analyze_message_sentiment(&self, message: &str) -> (r: Sentiment)
        ensures
            r == message_sentiment(message@),
    {
        let positive = vec![
            "好き".to_string(), "素晴らしい".to_string(), "最高".to_string(),
            "楽しい".to_string(), "嬉しい".to_string(), "感動".to_string(),
        ];
        let negative = vec![
            "嫌い".to_string(), "悲しい".to_string(), "困った".to_string(),
            "問題".to_string(), "エラー".to_string(), "失敗".to_string(),
        ];
        proof {
            assert(texts(positive@) =~= message_positive_words());
            assert(texts(negative@) =~= message_negative_words());
        }
        let lowered = lowercase(message);
        let p = count_hits(&positive, lowered.as_str());
        let n = count_hits(&negative, lowered.as_str());
        if p > n {
            Sentiment::Positive
        } else if n > p {
            Sentiment::Negative
        } else {
            Sentiment::Neutral
        }
    }

    fn select_response_pattern(&self, sentiment: Sentiment) -> (r: String)
        ensures
            r@ == chosen_pattern(texts(self.personality.response_patterns@), sentiment),
    {
        let patterns = &self.personality.response_patterns;
        let n = patterns.len();
        if n == 0 {
            return "一緒に考えよう".to_string();
        }
        let index = match sentiment {
            Sentiment::Positive => 0,
            Sentiment::Negative => n / 2,
            Sentiment::Neutral => n - 1,
        };
        patterns[index].clone()
    }
}

} // verus!
