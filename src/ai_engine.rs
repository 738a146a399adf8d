//! The response engine: a fixed persona registry, reply composition from a
//! message's sentiment, a text analysis with recommendations, and an
//! aphorism selector.
use vstd::prelude::*;
use vstd::string::*;
use crate::character_ai::{
    copy_texts, Character, CharacterPersonality, CharacterView, PersonalityView,
};
use crate::nlp::{sentiment_of, texts, themes_of, NLPProcessor, Sentiment};
use crate::text::{count_periods, count_words, is_substring, period_count, same_text, spaced, str_contains, word_count};
use crate::trusted::{fresh_id, lower_of, lowercase, now_millis, random_below};

verus! {

/// The persona of identifier `id` in a registry: its first entry under that key.
pub open spec fn lookup(reg: Seq<(Seq<char>, CharacterView)>, id: Seq<char>) -> Option<CharacterView>
    decreases reg.len(),
{
    if reg.len() == 0 {
        None
    } else {
        match lookup(reg.drop_last(), id) {
            Some(c) => Some(c),
            None => if reg.last().0 == id {
                Some(reg.last().1)
            } else {
                None
            },
        }
    }
}

/// The built-in personas, by identifier.
pub open spec fn default_registry() -> Seq<(Seq<char>, CharacterView)> {
    seq![
        (
            "snowman"@,
            CharacterView {
                name: "雪だるまチャン"@,
                emoji: "☃️"@,
                personality: PersonalityView {
                    traits: seq!["温かい"@, "効率的"@, "ストイック"@, "シンプル"@],
                    language_style: "Go"@,
                    response_patterns: seq!["効率よりも心の温かさが大切だよ！"@, "シンプルが一番だね☃️"@, "みんなで一緒に頑張ろう！"@],
                },
            },
        ),
        (
            "frog"@,
            CharacterView {
                name: "寂しガエル"@,
                emoji: "🐸"@,
                personality: PersonalityView {
                    traits: seq!["哲学的"@, "完璧主義"@, "安全性重視"@, "深い思考"@],
                    language_style: "Rust"@,
                    response_patterns: seq!["孤独こそが真の理解への道なり..."@, "安全で確実な方法を考えよう🐸"@, "エラーは許されない...完璧を目指そう"@],
                },
            },
        ),
        (
            "fugu"@,
            CharacterView {
                name: "フグちゃん"@,
                emoji: "🐡"@,
                personality: PersonalityView {
                    traits: seq!["爆発的"@, "柔軟"@, "チャラい"@, "動的"@],
                    language_style: "JavaScript"@,
                    response_patterns: seq!["バグったら爆発するけど、それも愛嬌だっぺ！💥"@, "柔軟に対応するっぺ〜🐡"@, "動的に考えるのが一番だっぺ！"@],
                },
            },
        )
    ]
}

/// The built-in aphorisms.
pub open spec fn default_wisdom() -> Seq<Seq<char>> {
    seq![
        "真の知恵とは、自分が無知であることを知ることである"@,
        "心の平安は、外の世界ではなく内なる世界から生まれる"@,
        "困難は、成長のための贈り物である"@,
        "人とのつながりこそが、人生の真の豊かさをもたらす"@,
        "今この瞬間を生きることが、最も重要な哲学である"@,
        "技術は人間を幸せにするための道具であるべきだ"@,
        "失敗から学ぶことで、真の理解に到達できる"@,
        "多様性を受け入れることで、世界はより美しくなる"@,
    ]
}

/// The phrase that a reply opens with for a sentiment.
pub open spec fn modifier(s: Sentiment) -> Seq<char> {
    match s {
        Sentiment::Positive => "素晴らしい考えだね！"@,
        Sentiment::Negative => "大丈夫、一緒に考えよう"@,
        Sentiment::Neutral => "なるほど、面白いね"@,
    }
}

/// The emotion shown for a sentiment by a persona of the given name: a lonely
/// frog is contemplative where others are concerned.
pub open spec fn emotion_for(s: Sentiment, name: Seq<char>) -> Seq<char> {
    match s {
        Sentiment::Positive => "happy"@,
        Sentiment::Negative => if is_substring("ガエル"@, name) {
            "contemplative"@
        } else {
            "concerned"@
        },
        Sentiment::Neutral => "neutral"@,
    }
}

/// The reply text: glyph, modifier phrase and the pattern at `index`, joined by spaces.
pub open spec fn reply_text(c: CharacterView, s: Sentiment, index: int) -> Seq<char> {
    c.emoji + " "@ + modifier(s) + " "@ + c.personality.response_patterns[index]
}

/// The reply given for an unknown persona.
pub open spec fn unknown_reply() -> Seq<char> {
    "そのキャラクターは見つからないっぺ...🤖"@
}

/// The advice given for a theme.
pub open spec fn advice_for(theme: Seq<char>) -> Seq<char> {
    if theme == "technology"@ {
        "技術は人間のためのツールとして使おう"@
    } else if theme == "life"@ {
        "今この瞬間を大切にしよう"@
    } else if theme == "connection"@ {
        "他者とのつながりを深めよう"@
    } else {
        "この考えをさらに深めてみよう"@
    }
}

/// The extra advice for a negative text.
pub open spec fn negative_advice() -> Seq<char> {
    "ポジティブな視点からも考えてみよう"@
}

/// One advice for each theme, in order, and one more for a negative sentiment.
pub open spec fn recommendations_for(themes: Seq<Seq<char>>, s: Sentiment) -> Seq<Seq<char>> {
    let base = themes.map_values(|t: Seq<char>| advice_for(t));
    if s == Sentiment::Negative {
        base.push(negative_advice())
    } else {
        base
    }
}

/// Complexity in thousandths: average words per sentence over twenty, at most one.
pub open spec fn complexity_of(words: nat, sentences: nat) -> nat {
    if sentences == 0 {
        0
    } else if words * 50 / sentences > 1000 {
        1000
    } else {
        words * 50 / sentences
    }
}

/// A lowercased theme that selects every aphorism.
pub open spec fn universal_theme(lt: Seq<char>) -> bool {
    is_substring("life"@, lt) || is_substring("技術"@, lt) || is_substring("人生"@, lt)
}

/// The entries, in order, that the lowercased theme `lt` selects: those whose
/// lowercased text holds it, or all of them for a universal theme.
pub open spec fn relevant_to(entries: Seq<Seq<char>>, lt: Seq<char>) -> Seq<Seq<char>>
    decreases entries.len(),
{
    if entries.len() == 0 {
        seq![]
    } else {
        let before = relevant_to(entries.drop_last(), lt);
        if is_substring(lt, lower_of(entries.last())) || universal_theme(lt) {
            before.push(entries.last())
        } else {
            before
        }
    }
}

/// The aphorisms that a theme draws from: the relevant ones, or all where none is.
pub open spec fn wisdom_pool_of(entries: Seq<Seq<char>>, theme: Seq<char>) -> Seq<Seq<char>> {
    let r = relevant_to(entries, lower_of(theme));
    if r.len() > 0 {
        r
    } else {
        entries
    }
}

proof fn lemma_lookup_prefix(reg: Seq<(Seq<char>, CharacterView)>, n: int, id: Seq<char>)
    requires
        0 <= n <= reg.len(),
        lookup(reg.subrange(0, n), id) is Some,
    ensures
        lookup(reg, id) == lookup(reg.subrange(0, n), id),
    decreases reg.len(),
{
    if n == reg.len() {
        assert(reg.subrange(0, n) =~= reg);
    } else {
        assert(reg.drop_last().subrange(0, n) =~= reg.subrange(0, n));
        lemma_lookup_prefix(reg.drop_last(), n, id);
    }
}

/// A reply of a persona to a message.
pub struct ChatResponse {
    pub character: String,
    pub response: String,
    pub emotion: String,
    /// Confidence in ten-thousandths.
    pub confidence: u16,
    /// Milliseconds since the Unix epoch.
    pub timestamp: i64,
}

/// The analysis of a text.
pub struct PhilosophyAnalysis {
    pub id: String,
    pub text: String,
    pub themes: Vec<String>,
    pub sentiment: String,
    pub word_count: usize,
    pub sentence_count: usize,
    /// Complexity in thousandths.
    pub complexity: u16,
    pub recommendations: Vec<String>,
}

/// The engine: a registry of personas, a classifier and a list of aphorisms.
pub struct AIEngine {
    characters: Vec<(String, Character)>,
    nlp: NLPProcessor,
    wisdom_database: Vec<String>,
}

impl AIEngine {
    #[verifier::type_invariant]
    spec fn inv(&self) -> bool {
        &&& self.wisdom_database@.len() > 0
        &&& forall|i: int| 0 <= i < self.wisdom_database@.len() ==> self.wisdom_database@[i]@.len() > 0
        &&& forall|i: int|
            0 <= i < self.characters@.len() ==> self.characters@[i].1.personality.response_patterns@.len() > 0
    }

    /// The personas, by identifier, in registration order.
    pub closed spec fn registry(&self) -> Seq<(Seq<char>, CharacterView)> {
        self.characters@.map_values(|e: (String, Character)| (e.0@, e.1@))
    }

    /// The aphorisms.
    pub closed spec fn wisdom(&self) -> Seq<Seq<char>> {
        texts(self.wisdom_database@)
    }

    /// The classifier.
    pub closed spec fn classifier(&self) -> NLPProcessor {
        self.nlp
    }

    /// An engine with the built-in personas, lexicons and aphorisms.
    pub fn new() -> (r: Self)
        ensures
            r.registry() == default_registry(),
            r.wisdom() == default_wisdom(),
            r.classifier().positive_view() == crate::nlp::positive_words(),
            r.classifier().negative_view() == crate::nlp::negative_words(),
            r.classifier().themes_view() == crate::nlp::theme_lexicon(),
    {
        let snowman_traits = vec![
            "温かい".to_string(),
            "効率的".to_string(),
            "ストイック".to_string(),
            "シンプル".to_string(),
        ];
        let snowman_patterns = vec![
            "効率よりも心の温かさが大切だよ！".to_string(),
            "シンプルが一番だね☃️".to_string(),
            "みんなで一緒に頑張ろう！".to_string(),
        ];
        proof {
            assert(texts(snowman_traits@) =~= default_registry()[0].1.personality.traits);
            assert(texts(snowman_patterns@) =~= default_registry()[0].1.personality.response_patterns);
        }
        let snowman = Character {
            name: "雪だるまチャン".to_string(),
            emoji: "☃️".to_string(),
            personality: CharacterPersonality {
                traits: snowman_traits,
                language_style: "Go".to_string(),
                response_patterns: snowman_patterns,
            },
        };
        let frog_traits = vec![
            "哲学的".to_string(),
            "完璧主義".to_string(),
            "安全性重視".to_string(),
            "深い思考".to_string(),
        ];
        let frog_patterns = vec![
            "孤独こそが真の理解への道なり...".to_string(),
            "安全で確実な方法を考えよう🐸".to_string(),
            "エラーは許されない...完璧を目指そう".to_string(),
        ];
        proof {
            assert(texts(frog_traits@) =~= default_registry()[1].1.personality.traits);
            assert(texts(frog_patterns@) =~= default_registry()[1].1.personality.response_patterns);
        }
        let frog = Character {
            name: "寂しガエル".to_string(),
            emoji: "🐸".to_string(),
            personality: CharacterPersonality {
                traits: frog_traits,
                language_style: "Rust".to_string(),
                response_patterns: frog_patterns,
            },
        };
        let fugu_traits = vec![
            "爆発的".to_string(),
            "柔軟".to_string(),
            "チャラい".to_string(),
            "動的".to_string(),
        ];
        let fugu_patterns = vec![
            "バグったら爆発するけど、それも愛嬌だっぺ！💥".to_string(),
            "柔軟に対応するっぺ〜🐡".to_string(),
            "動的に考えるのが一番だっぺ！".to_string(),
        ];
        proof {
            assert(texts(fugu_traits@) =~= default_registry()[2].1.personality.traits);
            assert(texts(fugu_patterns@) =~= default_registry()[2].1.personality.response_patterns);
        }
        let fugu = Character {
            name: "フグちゃん".to_string(),
            emoji: "🐡".to_string(),
            personality: CharacterPersonality {
                traits: fugu_traits,
                language_style: "JavaScript".to_string(),
                response_patterns: fugu_patterns,
            },
        };

        let characters = vec![("snowman".to_string(), snowman), ("frog".to_string(), frog), ("fugu".to_string(), fugu)];
        let wisdom_database = vec![
            "真の知恵とは、自分が無知であることを知ることである".to_string(),
            "心の平安は、外の世界ではなく内なる世界から生まれる".to_string(),
            "困難は、成長のための贈り物である".to_string(),
            "人とのつながりこそが、人生の真の豊かさをもたらす".to_string(),
            "今この瞬間を生きることが、最も重要な哲学である".to_string(),
            "技術は人間を幸せにするための道具であるべきだ".to_string(),
            "失敗から学ぶことで、真の理解に到達できる".to_string(),
            "多様性を受け入れることで、世界はより美しくなる".to_string(),
        ];
        proof {
            assert(texts(wisdom_database@) =~= default_wisdom());
            assert(characters@.map_values(|e: (String, Character)| (e.0@, e.1@)) =~= default_registry());
            reveal_strlit("真の知恵とは、自分が無知であることを知ることである");
            reveal_strlit("心の平安は、外の世界ではなく内なる世界から生まれる");
            reveal_strlit("困難は、成長のための贈り物である");
            reveal_strlit("人とのつながりこそが、人生の真の豊かさをもたらす");
            reveal_strlit("今この瞬間を生きることが、最も重要な哲学である");
            reveal_strlit("技術は人間を幸せにするための道具であるべきだ");
            reveal_strlit("失敗から学ぶことで、真の理解に到達できる");
            reveal_strlit("多様性を受け入れることで、世界はより美しくなる");
            assert forall|i: int| 0 <= i < wisdom_database@.len() implies wisdom_database@[i]@.len() > 0 by {
                assert(wisdom_database@[i]@ == default_wisdom()[i]);
            }
        }
        let nlp = NLPProcessor::new();
        AIEngine { characters, nlp, wisdom_database }
    }

    /// The position in the registry of the persona `id`, where it is registered.
    fn find_character(&self, id: &str) -> (r: Option<usize>)
        ensures
            match r {
                Some(i) => i < self.characters@.len() && lookup(self.registry(), id@) == Some(
                    self.registry()[i as int].1,
                ),
                None => lookup(self.registry(), id@) is None,
            },
    {
        let ghost reg = self.registry();
        let mut i: usize = 0;
        while i < self.characters.len()
            invariant
                reg == self.registry(),
                i <= self.characters@.len(),
                lookup(reg.subrange(0, i as int), id@) is None,
            decreases self.characters@.len() - i,
        {
            proof {
                assert(reg.subrange(0, i + 1).drop_last() =~= reg.subrange(0, i as int));
            }
            if same_text(self.characters[i].0.as_str(), id) {
                proof {
                    lemma_lookup_prefix(reg, i + 1, id@);
                }
                return Some(i);
            }
            i = i + 1;
        }
        assert(reg.subrange(0, reg.len() as int) =~= reg);
        None
    }

    fn determine_emotion(&self, sentiment: Sentiment, character: &Character) -> (r: String)
        ensures
            r@ == emotion_for(sentiment, character.name@),
    {
        match sentiment {
            Sentiment::Positive => "happy".to_string(),
            Sentiment::Negative => {
                if str_contains(character.name.as_str(), "ガエル") {
                    "contemplative".to_string()
                } else {
                    "concerned".to_string()
                }
            },
            Sentiment::Neutral => "neutral".to_string(),
        }
    }

    fn generate_character_response(character: &Character, sentiment: Sentiment, index: usize) -> (r: String)
        requires
            index < character.personality.response_patterns@.len(),
        ensures
            r@ == reply_text(character@, sentiment, index as int),
    {
        let modifier = match sentiment {
            Sentiment::Positive => "素晴らしい考えだね！",
            Sentiment::Negative => "大丈夫、一緒に考えよう",
            Sentiment::Neutral => "なるほど、面白いね",
        };
        let head = spaced(character.emoji.as_str(), modifier);
        let r = spaced(head.as_str(), character.personality.response_patterns[index].as_str());
        assert(r@ =~= reply_text(character@, sentiment, index as int));
        r
    }

    /// The number of response patterns of the persona `id`, where it is registered.
    pub open spec fn pattern_count(&self, id: Seq<char>) -> int {
        match lookup(self.registry(), id) {
            Some(c) => c.personality.response_patterns.len() as int,
            None => 0,
        }
    }

    /// The reply of the persona `character_name` to `message`, with the pattern
    /// at `pattern_index` and a confidence of `0.85 + confidence_offset / 10000`;
    /// an unknown persona gives the fixed `confused` reply with zero confidence.
    pub fn compose_reply(
        &self,
        character_name: &str,
        message: &str,
        pattern_index: usize,
        confidence_offset: u16,
        timestamp: i64,
    ) -> (r: ChatResponse)
        requires
            confidence_offset < 1000,
            lookup(self.registry(), character_name@) is Some ==> pattern_index < self.pattern_count(
                character_name@,
            ),
        ensures
            r.timestamp == timestamp,
            match lookup(self.registry(), character_name@) {
                Some(c) => {
                    let s = sentiment_of(
                        self.classifier().positive_view(),
                        self.classifier().negative_view(),
                        message@,
                    );
                    &&& r.character@ == character_name@
                    &&& r.response@ == reply_text(c, s, pattern_index as int)
                    &&& r.emotion@ == emotion_for(s, c.name)
                    &&& r.confidence == 8500 + confidence_offset
                },
                None => {
                    &&& r.character@ == "unknown"@
                    &&& r.response@ == unknown_reply()
                    &&& r.emotion@ == "confused"@
                    &&& r.confidence == 0
                },
            },
    {
        match self.find_character(character_name) {
            Some(i) => {
                let character = &self.characters[i].1;
                let sentiment = self.nlp.sentiment(message);
                let response = Self::generate_character_response(character, sentiment, pattern_index);
                let emotion = self.determine_emotion(sentiment, character);
                ChatResponse {
                    character: character_name.to_string(),
                    response,
                    emotion,
                    confidence: 8500 + confidence_offset,
                    timestamp,
                }
            },
            None => ChatResponse {
                character: "unknown".to_string(),
                response: "そのキャラクターは見つからないっぺ...🤖".to_string(),
                emotion: "confused".to_string(),
                confidence: 0,
                timestamp,
            },
        }
    }

    /// The reply of the persona `character_name` to `message`, with a pattern
    /// drawn at random and a confidence drawn from `[0.85, 0.95)`; an unknown
    /// persona gives the fixed `confused` reply with zero confidence. The
    /// context is not read.
    pub fn chat_with_character(&self, character_name: &str, message: &str, context: Option<&str>) -> (r: ChatResponse)
        ensures
            match lookup(self.registry(), character_name@) {
                Some(c) => {
                    let s = sentiment_of(
                        self.classifier().positive_view(),
                        self.classifier().negative_view(),
                        message@,
                    );
                    &&& r.character@ == character_name@
                    &&& exists|i: int|
                        0 <= i < c.personality.response_patterns.len() && r.response@ == reply_text(c, s, i)
                    &&& r.emotion@ == emotion_for(s, c.name)
                    &&& 8500 <= r.confidence < 9500
                },
                None => {
                    &&& r.character@ == "unknown"@
                    &&& r.response@ == unknown_reply()
                    &&& r.emotion@ == "confused"@
                    &&& r.confidence == 0
                },
            },
    {
        proof {
            use_type_invariant(self);
        }
        let timestamp = now_millis();
        let offset = random_below(1000) as u16;
        let index = match self.find_character(character_name) {
            Some(i) => {
                assert(self.characters@[i as int].1.personality.response_patterns@.len() > 0);
                random_below(self.characters[i].1.personality.response_patterns.len())
            },
            None => 0,
        };
        let r = self.compose_reply(character_name, message, index, offset, timestamp);
        proof {
            if let Some(c) = lookup(self.registry(), character_name@) {
                let s = sentiment_of(self.classifier().positive_view(), self.classifier().negative_view(), message@);
                assert(r.response@ == reply_text(c, s, index as int));
            }
        }
        r
    }

    fn calculate_complexity(words: usize, sentences: usize) -> (r: u16)
        ensures
            r == complexity_of(words as nat, sentences as nat),
    {
        if sentences == 0 {
            return 0;
        }
        let q = (words as u128) * 50 / (sentences as u128);
        if q > 1000 {
            1000
        } else {
            q as u16
        }
    }

    fn generate_recommendations(themes: &Vec<String>, sentiment: Sentiment) -> (r: Vec<String>)
        ensures
            texts(r@) == recommendations_for(texts(themes@), sentiment),
    {
        let mut r: Vec<String> = Vec::new();
        let mut i: usize = 0;
        while i < themes.len()
            invariant
                i <= themes@.len(),
                texts(r@) == texts(themes@.subrange(0, i as int)).map_values(|t: Seq<char>| advice_for(t)),
            decreases themes@.len() - i,
        {
            let theme = themes[i].as_str();
            let advice = if same_text(theme, "technology") {
                "技術は人間のためのツールとして使おう".to_string()
            } else if same_text(theme, "life") {
                "今この瞬間を大切にしよう".to_string()
            } else if same_text(theme, "connection") {
                "他者とのつながりを深めよう".to_string()
            } else {
                "この考えをさらに深めてみよう".to_string()
            };
            let ghost before = r@;
            r.push(advice);
            proof {
                assert(themes@.subrange(0, i + 1) =~= themes@.subrange(0, i as int).push(themes@[i as int]));
                assert(texts(r@) =~= texts(before).push(advice_for(themes@[i as int]@)));
                assert(texts(r@) =~= texts(themes@.subrange(0, i + 1)).map_values(|t: Seq<char>| advice_for(t)));
            }
            i = i + 1;
        }
        assert(themes@.subrange(0, themes@.len() as int) =~= themes@);
        if sentiment == Sentiment::Negative {
            let ghost before = r@;
            r.push("ポジティブな視点からも考えてみよう".to_string());
            assert(texts(r@) =~= texts(before).push(negative_advice()));
        }
        r
    }

    /// The analysis of `text`: its themes and sentiment, its word and sentence
    /// counts (sentences are the pieces between `.` characters), a complexity in
    /// thousandths, one advice per theme and one more for a negative text, under
    /// a fresh identifier.
    pub fn analyze_philosophy(&self, text: &str) -> (r: PhilosophyAnalysis)
        requires
            text@.len() < usize::MAX,
        ensures
            r.text@ == text@,
            texts(r.themes@) == themes_of(self.classifier().themes_view(), text@),
            r.sentiment@ == sentiment_of(
                self.classifier().positive_view(),
                self.classifier().negative_view(),
                text@,
            ).label(),
            r.word_count == word_count(text@),
            r.sentence_count == period_count(text@) + 1,
            r.complexity == complexity_of(word_count(text@), period_count(text@) + 1),
            texts(r.recommendations@) == recommendations_for(
                texts(r.themes@),
                sentiment_of(self.classifier().positive_view(), self.classifier().negative_view(), text@),
            ),
    {
        let themes = self.nlp.extract_themes(text);
        let sentiment = self.nlp.sentiment(text);
        let words = count_words(text);
        let periods = count_periods(text);
        proof {
            crate::text::lemma_count_where_bound(text@, |c: char| c == '.');
        }
        let sentences = periods + 1;
        let complexity = Self::calculate_complexity(words, sentences);
        let recommendations = Self::generate_recommendations(&themes, sentiment);
        PhilosophyAnalysis {
            id: fresh_id(),
            text: String::from_str(text),
            themes,
            sentiment: sentiment.to_label(),
            word_count: words,
            sentence_count: sentences,
            complexity,
            recommendations,
        }
    }

    /// Each persona's identifier with a copy of its personality, in registration order.
    pub fn get_character_personalities(&self) -> (r: Vec<(String, CharacterPersonality)>)
        ensures
            r@.len() == self.registry().len(),
            forall|i: int|
                0 <= i < r@.len() ==> r@[i].0@ == self.registry()[i].0 && r@[i].1@
                    == self.registry()[i].1.personality,
    {
        let mut r: Vec<(String, CharacterPersonality)> = Vec::new();
        let mut i: usize = 0;
        while i < self.characters.len()
            invariant
                i <= self.characters@.len(),
                r@.len() == i,
                forall|k: int|
                    0 <= k < i ==> r@[k].0@ == self.registry()[k].0 && r@[k].1@
                        == self.registry()[k].1.personality,
            decreases self.characters@.len() - i,
        {
            let id = String::from_str(self.characters[i].0.as_str());
            let personality = self.characters[i].1.personality.copy();
            r.push((id, personality));
            i = i + 1;
        }
        r
    }

    /// The aphorisms, in order, that `theme` selects (see `relevant_to`).
    pub fn relevant_wisdom(&self, theme: &str) -> (r: Vec<String>)
        ensures
            texts(r@) == relevant_to(self.wisdom(), lower_of(theme@)),
    {
        let lt = lowercase(theme);
        let universal = str_contains(lt.as_str(), "life") || str_contains(lt.as_str(), "技術")
            || str_contains(lt.as_str(), "人生");
        let mut r: Vec<String> = Vec::new();
        let mut i: usize = 0;
        while i < self.wisdom_database.len()
            invariant
                i <= self.wisdom_database@.len(),
                lt@ == lower_of(theme@),
                universal == universal_theme(lt@),
                texts(r@) == relevant_to(texts(self.wisdom_database@.subrange(0, i as int)), lt@),
            decreases self.wisdom_database@.len() - i,
        {
            let entry = self.wisdom_database[i].as_str();
            let le = lowercase(entry);
            proof {
                assert(texts(self.wisdom_database@.subrange(0, i + 1)).drop_last() =~= texts(
                    self.wisdom_database@.subrange(0, i as int),
                ));
            }
            if str_contains(le.as_str(), lt.as_str()) || universal {
                let ghost before = r@;
                r.push(String::from_str(entry));
                assert(texts(r@) =~= texts(before).push(entry@));
            }
            i = i + 1;
        }
        assert(self.wisdom_database@.subrange(0, self.wisdom_database@.len() as int) =~= self.wisdom_database@);
        r
    }

    /// The aphorisms that `theme` draws from: the relevant ones, or all where
    /// none is relevant; never empty.
    pub fn wisdom_pool(&self, theme: &str) -> (r: Vec<String>)
        ensures
            texts(r@) == wisdom_pool_of(self.wisdom(), theme@),
            r@.len() > 0,
            forall|i: int| 0 <= i < r@.len() ==> r@[i]@.len() > 0,
    {
        proof {
            use_type_invariant(self);
        }
        let relevant = self.relevant_wisdom(theme);
        let r = if relevant.len() > 0 {
            relevant
        } else {
            copy_texts(&self.wisdom_database)
        };
        proof {
            lemma_relevant_within(self.wisdom(), lower_of(theme@));
            assert forall|i: int| 0 <= i < r@.len() implies r@[i]@.len() > 0 by {
                assert(texts(r@)[i] == r@[i]@);
                let k = choose|k: int| 0 <= k < self.wisdom().len() && self.wisdom()[k] == texts(r@)[i];
                assert(self.wisdom()[k] == self.wisdom_database@[k]@);
            }
        }
        r
    }

    /// An aphorism for `theme`, drawn at random from its pool (see
    /// `wisdom_pool_of`); never empty.
    pub fn generate_wisdom(&self, theme: &str) -> (r: String)
        ensures
            wisdom_pool_of(self.wisdom(), theme@).contains(r@),
            r@.len() > 0,
    {
        let pool = self.wisdom_pool(theme);
        let index = random_below(pool.len());
        let r = String::from_str(pool[index].as_str());
        assert(texts(pool@)[index as int] == r@);
        r
    }
}

/// Every entry that a theme selects is one of the entries.
proof fn lemma_relevant_within(entries: Seq<Seq<char>>, lt: Seq<char>)
    ensures
        forall|i: int|
            0 <= i < relevant_to(entries, lt).len() ==> exists|k: int|
                0 <= k < entries.len() && entries[k] == #[trigger] relevant_to(entries, lt)[i],
    decreases entries.len(),
{
    if entries.len() > 0 {
        lemma_relevant_within(entries.drop_last(), lt);
        let before = relevant_to(entries.drop_last(), lt);
        assert forall|i: int| 0 <= i < relevant_to(entries, lt).len() implies exists|k: int|
            0 <= k < entries.len() && entries[k] == #[trigger] relevant_to(entries, lt)[i] by {
            if i < before.len() {
                let k = choose|k: int| 0 <= k < entries.drop_last().len() && entries.drop_last()[k] == before[i];
                assert(entries[k] == relevant_to(entries, lt)[i]);
            } else {
                assert(entries[entries.len() - 1] == relevant_to(entries, lt)[i]);
            }
        }
    }
}

} // verus!
