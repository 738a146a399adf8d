//! Keyword-based text classification: a sentiment from two lexicons and a set
//! of themes from a labelled lexicon and a technology-term pattern.
use vstd::prelude::*;
use vstd::string::*;
use crate::ordered::{insert_bounded, smallest_of};
use crate::text::{
    chars_of, count_exclamations, exclamation_count, is_space, is_space_char, is_substring, lemma_word_start_unique,
    str_contains, trim_bounds, trimmed, utf8_len, utf8_len_of, word_at,
};
use crate::trusted::{lower_of, lowercase, regex_finds, regex_search};

verus! {

/// The texts held by a list of strings.
pub open spec fn texts(v: Seq<String>) -> Seq<Seq<char>> {
    v.map_values(|s: String| s@)
}

/// How many of `words`, each lowercased, occur in the (lowercased) text `t`.
pub open spec fn hits(words: Seq<Seq<char>>, t: Seq<char>) -> nat
    decreases words.len(),
{
    if words.len() == 0 {
        0
    } else {
        hits(words.drop_last(), t) + if is_substring(lower_of(words.last()), t) {
            1nat
        } else {
            0nat
        }
    }
}

/// A three-valued polarity.
#[derive(Clone, Copy, Debug, PartialEq, Eq, Structural)]
pub enum Sentiment {
    Positive,
    Negative,
    Neutral,
}

/// The polarity of a positive and a negative score: the larger wins, a tie is neutral.
pub open spec fn decide(pos: int, neg: int) -> Sentiment {
    if pos > neg {
        Sentiment::Positive
    } else if neg > pos {
        Sentiment::Negative
    } else {
        Sentiment::Neutral
    }
}

impl Sentiment {
    /// The label that callers see.
    pub open spec fn label(self) -> Seq<char> {
        match self {
            Sentiment::Positive => "positive"@,
            Sentiment::Negative => "negative"@,
            Sentiment::Neutral => "neutral"@,
        }
    }

    /// The label as a string.
    pub fn to_label(&self) -> (r: String)
        ensures
            r@ == self.label(),
    {
        match self {
            Sentiment::Positive => "positive".to_string(),
            Sentiment::Negative => "negative".to_string(),
            Sentiment::Neutral => "neutral".to_string(),
        }
    }
}

/// The sentiment of `text` under the given lexicons: one point for each
/// positive keyword found in the lowercased text and one for each exclamation
/// mark in the text as given, against one point for each negative keyword found.
pub open spec fn sentiment_of(pos: Seq<Seq<char>>, neg: Seq<Seq<char>>, text: Seq<char>) -> Sentiment {
    let t = lower_of(text);
    decide((hits(pos, t) + exclamation_count(text)) as int, hits(neg, t) as int)
}

/// A text with more positive points (keywords found and exclamation marks)
/// than negative keywords found is positive; with fewer, negative; with as
/// many, zero included, neutral.
pub proof fn lemma_sentiment_by_points(pos: Seq<Seq<char>>, neg: Seq<Seq<char>>, text: Seq<char>)
    ensures
        ({
            let p = hits(pos, lower_of(text)) + exclamation_count(text);
            let n = hits(neg, lower_of(text));
            &&& p > n <==> sentiment_of(pos, neg, text) == Sentiment::Positive
            &&& n > p <==> sentiment_of(pos, neg, text) == Sentiment::Negative
            &&& p == n <==> sentiment_of(pos, neg, text) == Sentiment::Neutral
        }),
{
}

/// How many of `words`, lowercased, occur in `lowered`.
pub fn count_hits(words: &Vec<String>, lowered: &str) -> (r: usize)
    ensures
        r == hits(texts(words@), lowered@),
        r <= words@.len(),
{
    let mut r: usize = 0;
    let mut i: usize = 0;
    while i < words.len()
        invariant
            i <= words@.len(),
            r <= i,
            r == hits(texts(words@.subrange(0, i as int)), lowered@),
        decreases words@.len() - i,
    {
        let w = lowercase(words[i].as_str());
        proof {
            assert(texts(words@.subrange(0, i + 1)).drop_last() =~= texts(words@.subrange(0, i as int)));
        }
        if str_contains(lowered, w.as_str()) {
            r = r + 1;
        }
        i = i + 1;
    }
    assert(words@.subrange(0, words@.len() as int) =~= words@);
    r
}

/// The polarity of a score `pos + bonus` against `neg`, without forming the sum.
fn decide_exec(pos: usize, bonus: usize, neg: usize) -> (r: Sentiment)
    ensures
        r == decide(pos + bonus, neg as int),
{
    if neg >= pos {
        let gap = neg - pos;
        if bonus > gap {
            Sentiment::Positive
        } else if bonus < gap {
            Sentiment::Negative
        } else {
            Sentiment::Neutral
        }
    } else {
        Sentiment::Positive
    }
}

/// The sentiment of `text` under the lexicons `pos` and `neg` (see `sentiment_of`).
pub fn classify_sentiment(pos: &Vec<String>, neg: &Vec<String>, text: &str) -> (r: Sentiment)
    ensures
        r == sentiment_of(texts(pos@), texts(neg@), text@),
{
    let lowered = lowercase(text);
    let p = count_hits(pos, lowered.as_str());
    let n = count_hits(neg, lowered.as_str());
    let e = count_exclamations(text);
    decide_exec(p, e, n)
}

/// A theme lexicon as labels, each with its keywords.
pub open spec fn lexicon_view(v: Seq<(String, Vec<String>)>) -> Seq<(Seq<char>, Seq<Seq<char>>)> {
    v.map_values(|e: (String, Vec<String>)| (e.0@, texts(e.1@)))
}

/// The labels of the themes, in lexicon order, of which at least one keyword
/// (lowercased) occurs in the lowercased text `t`.
pub open spec fn matched_themes(lex: Seq<(Seq<char>, Seq<Seq<char>>)>, t: Seq<char>) -> Seq<Seq<char>>
    decreases lex.len(),
{
    if lex.len() == 0 {
        seq![]
    } else {
        let before = matched_themes(lex.drop_last(), t);
        if hits(lex.last().1, t) > 0 {
            before.push(lex.last().0)
        } else {
            before
        }
    }
}

/// The pattern of programming-ecosystem names that marks a technology text.
pub open spec fn tech_pattern() -> Seq<char> {
    "(rust|go|javascript|python|haskell|programming|code)"@
}

/// The technology-term pattern finds a match in the text `t`.
pub open spec fn mentions_tech(t: Seq<char>) -> bool {
    regex_finds(tech_pattern(), t) == Some(true)
}

/// The themes of `text`: the matched themes in lexicon order, then
/// `technology` if the pattern matches and it is not there yet; `general` alone
/// if there is none.
pub open spec fn themes_of(lex: Seq<(Seq<char>, Seq<Seq<char>>)>, text: Seq<char>) -> Seq<Seq<char>> {
    let t = lower_of(text);
    let found = matched_themes(lex, t);
    let all = if mentions_tech(t) && !found.contains("technology"@) {
        found.push("technology"@)
    } else {
        found
    };
    if all.len() == 0 {
        seq!["general"@]
    } else {
        all
    }
}

/// No theme matches where no keyword of any theme occurs.
pub proof fn lemma_no_hits_no_themes(lex: Seq<(Seq<char>, Seq<Seq<char>>)>, t: Seq<char>)
    requires
        forall|i: int| 0 <= i < lex.len() ==> hits(#[trigger] lex[i].1, t) == 0,
    ensures
        matched_themes(lex, t) == Seq::<Seq<char>>::empty(),
    decreases lex.len(),
{
    if lex.len() > 0 {
        assert forall|i: int| 0 <= i < lex.drop_last().len() implies hits(#[trigger] lex.drop_last()[i].1, t) == 0 by {
            assert(lex.drop_last()[i] == lex[i]);
        }
        lemma_no_hits_no_themes(lex.drop_last(), t);
        assert(hits(lex[lex.len() - 1].1, t) == 0);
    }
}

/// A text in which no theme keyword occurs (after lowercasing) and which the
/// technology-term pattern does not match has the single theme `general`.
pub proof fn lemma_unmatched_text_is_general(lex: Seq<(Seq<char>, Seq<Seq<char>>)>, text: Seq<char>)
    requires
        forall|i: int| 0 <= i < lex.len() ==> hits(#[trigger] lex[i].1, lower_of(text)) == 0,
        !mentions_tech(lower_of(text)),
    ensures
        themes_of(lex, text) == seq!["general"@],
{
    lemma_no_hits_no_themes(lex, lower_of(text));
}

/// Whether `v` holds a string with the text of `s`.
pub fn holds_text(v: &Vec<String>, s: &String) -> (r: bool)
    ensures
        r == texts(v@).contains(s@),
{
    let mut i: usize = 0;
    while i < v.len()
        invariant
            i <= v@.len(),
            forall|k: int| 0 <= k < i ==> v@[k]@ != s@,
        decreases v@.len() - i,
    {
        if v[i] == *s {
            assert(texts(v@)[i as int] == s@);
            return true;
        }
        i = i + 1;
    }
    assert forall|k: int| 0 <= k < texts(v@).len() implies texts(v@)[k] != s@ by {
        assert(v@[k]@ != s@);
    }
    false
}

/// The themes of `text` under the lexicon `lex` (see `themes_of`).
pub fn classify_themes(lex: &Vec<(String, Vec<String>)>, text: &str) -> (r: Vec<String>)
    ensures
        texts(r@) == themes_of(lexicon_view(lex@), text@),
        r@.len() > 0,
{
    let lowered = lowercase(text);
    let ghost t = lowered@;
    let mut themes: Vec<String> = Vec::new();
    let mut i: usize = 0;
    while i < lex.len()
        invariant
            t == lower_of(text@),
            t == lowered@,
            i <= lex@.len(),
            texts(themes@) == matched_themes(lexicon_view(lex@.subrange(0, i as int)), t),
        decreases lex@.len() - i,
    {
        let n = count_hits(&lex[i].1, lowered.as_str());
        proof {
            assert(lexicon_view(lex@.subrange(0, i + 1)).drop_last() =~= lexicon_view(lex@.subrange(0, i as int)));
        }
        if n > 0 {
            let ghost before = themes@;
            themes.push(lex[i].0.clone());
            assert(texts(themes@) =~= texts(before).push(lex@[i as int].0@));
        }
        i = i + 1;
    }
    assert(lex@.subrange(0, lex@.len() as int) =~= lex@);
    let found = regex_search("(rust|go|javascript|python|haskell|programming|code)", lowered.as_str());
    let tech = match found {
        Some(b) => b,
        None => false,
    };
    let technology = "technology".to_string();
    if tech && !holds_text(&themes, &technology) {
        let ghost before = themes@;
        themes.push(technology);
        assert(texts(themes@) =~= texts(before).push("technology"@));
    }
    if themes.len() == 0 {
        themes.push("general".to_string());
        assert(texts(themes@) =~= seq!["general"@]);
    }
    themes
}

/// The built-in positive keywords.
pub open spec fn positive_words() -> Seq<Seq<char>> {
    seq!["好き"@, "素晴らしい"@, "最高"@, "楽しい"@, "嬉しい"@, "感動"@, "幸せ"@, "喜び"@, "満足"@, "愛"@, "希望"@, "成功"@]
}

/// The built-in negative keywords.
pub open spec fn negative_words() -> Seq<Seq<char>> {
    seq!["嫌い"@, "悲しい"@, "困った"@, "問題"@, "エラー"@, "失敗"@, "不安"@, "心配"@, "怒り"@, "絶望"@, "孤独"@, "疲れ"@]
}

/// The built-in theme lexicon, in its fixed order.
pub open spec fn theme_lexicon() -> Seq<(Seq<char>, Seq<Seq<char>>)> {
    seq![
        ("technology"@, seq!["技術"@, "AI"@, "プログラミング"@, "コンピュータ"@, "ソフトウェア"@, "アルゴリズム"@, "データ"@, "ネットワーク"@, "システム"@]),
        ("philosophy"@, seq!["哲学"@, "思想"@, "存在"@, "真理"@, "知識"@, "意味"@, "価値"@, "倫理"@, "道徳"@]),
        ("life"@, seq!["人生"@, "生きる"@, "経験"@, "成長"@, "学び"@, "変化"@, "時間"@, "未来"@, "過去"@]),
        ("connection"@, seq!["人間関係"@, "コミュニティ"@, "友情"@, "愛情"@, "家族"@, "社会"@, "つながり"@, "絆"@, "協力"@])
    ]
}

/// The words that keyword extraction passes over.
pub open spec fn stop_words() -> Seq<Seq<char>> {
    seq![
        "の"@,
        "は"@,
        "が"@,
        "を"@,
        "に"@,
        "で"@,
        "と"@,
        "から"@,
        "まで"@,
        "です"@,
        "である"@,
        "ます"@,
        "した"@,
        "する"@,
        "される"@,
        "この"@,
        "その"@,
        "あの"@,
        "どの"@,
        "これ"@,
        "それ"@,
        "あれ"@,
        "どれ"@,
        "the"@,
        "is"@,
        "at"@,
        "which"@,
        "on"@,
        "and"@,
        "a"@,
        "an"@,
        "as"@,
        "are"@,
        "was"@,
        "were"@,
        "been"@,
        "be"@,
        "have"@,
        "has"@,
        "had"@,
        "do"@,
        "does"@,
        "did"@
    ]
}

/// A trimmed word that counts as a keyword: at least three bytes in UTF-8 and
/// not a stop word.
pub open spec fn keeps(c: Seq<char>) -> bool {
    utf8_len(c) >= 3 && !stop_words().contains(c)
}

/// The keywords of the lowercased text `t` among its words that end at or
/// before position `n`: each word with non-alphanumeric characters trimmed
/// from its ends, where that counts as a keyword.
pub open spec fn keywords_before(t: Seq<char>, n: int) -> Set<Seq<char>> {
    Set::new(
        |c: Seq<char>|
            keeps(c) && exists|i: int, j: int| j <= n && word_at(t, i, j) && trimmed(t.subrange(i, j)) == c,
    )
}

/// The keywords of `text`, taken from its lowercased form.
pub open spec fn keyword_set(text: Seq<char>) -> Set<Seq<char>> {
    keywords_before(lower_of(text), lower_of(text).len() as int)
}

/// The most keywords that extraction returns.
pub const MAX_KEYWORDS: usize = 10;

/// A keyword classifier over a sentiment lexicon and a theme lexicon.
#[derive(Clone)]
pub struct NLPProcessor {
    positive: Vec<String>,
    negative: Vec<String>,
    theme_keywords: Vec<(String, Vec<String>)>,
}

impl NLPProcessor {
    /// The positive keywords.
    pub closed spec fn positive_view(&self) -> Seq<Seq<char>> {
        texts(self.positive@)
    }

    /// The negative keywords.
    pub closed spec fn negative_view(&self) -> Seq<Seq<char>> {
        texts(self.negative@)
    }

    /// The theme lexicon: labels with their keywords, in order.
    pub closed spec fn themes_view(&self) -> Seq<(Seq<char>, Seq<Seq<char>>)> {
        lexicon_view(self.theme_keywords@)
    }

    /// A classifier over the built-in lexicons.
    pub fn new() -> (r: Self)
        ensures
            r.positive_view() == positive_words(),
            r.negative_view() == negative_words(),
            r.themes_view() == theme_lexicon(),
    {
        let positive = vec![
            "好き".to_string(),
            "素晴らしい".to_string(),
            "最高".to_string(),
            "楽しい".to_string(),
            "嬉しい".to_string(),
            "感動".to_string(),
            "幸せ".to_string(),
            "喜び".to_string(),
            "満足".to_string(),
            "愛".to_string(),
            "希望".to_string(),
            "成功".to_string(),
        ];
        let negative = vec![
            "嫌い".to_string(),
            "悲しい".to_string(),
            "困った".to_string(),
            "問題".to_string(),
            "エラー".to_string(),
            "失敗".to_string(),
            "不安".to_string(),
            "心配".to_string(),
            "怒り".to_string(),
            "絶望".to_string(),
            "孤独".to_string(),
            "疲れ".to_string(),
        ];
        let technology_words = vec![
            "技術".to_string(),
            "AI".to_string(),
            "プログラミング".to_string(),
            "コンピュータ".to_string(),
            "ソフトウェア".to_string(),
            "アルゴリズム".to_string(),
            "データ".to_string(),
            "ネットワーク".to_string(),
            "システム".to_string(),
        ];
        let philosophy_words = vec![
            "哲学".to_string(),
            "思想".to_string(),
            "存在".to_string(),
            "真理".to_string(),
            "知識".to_string(),
            "意味".to_string(),
            "価値".to_string(),
            "倫理".to_string(),
            "道徳".to_string(),
        ];
        let life_words = vec![
            "人生".to_string(),
            "生きる".to_string(),
            "経験".to_string(),
            "成長".to_string(),
            "学び".to_string(),
            "変化".to_string(),
            "時間".to_string(),
            "未来".to_string(),
            "過去".to_string(),
        ];
        let connection_words = vec![
            "人間関係".to_string(),
            "コミュニティ".to_string(),
            "友情".to_string(),
            "愛情".to_string(),
            "家族".to_string(),
            "社会".to_string(),
            "つながり".to_string(),
            "絆".to_string(),
            "協力".to_string(),
        ];

        let theme_keywords = vec![("technology".to_string(), technology_words), ("philosophy".to_string(), philosophy_words), ("life".to_string(), life_words), ("connection".to_string(), connection_words)];
        proof {
            assert(texts(positive@) =~= positive_words());
            assert(texts(negative@) =~= negative_words());
            assert(texts(technology_words@) =~= theme_lexicon()[0].1);
            assert(texts(philosophy_words@) =~= theme_lexicon()[1].1);
            assert(texts(life_words@) =~= theme_lexicon()[2].1);
            assert(texts(connection_words@) =~= theme_lexicon()[3].1);

            assert(lexicon_view(theme_keywords@) =~= theme_lexicon());
        }
        NLPProcessor { positive, negative, theme_keywords }
    }

    /// The sentiment label of `text`: `positive`, `negative` or `neutral` (see
    /// `sentiment_of`).
    pub fn analyze_sentiment(&self, text: &str) -> (r: String)
        ensures
            r@ == sentiment_of(self.positive_view(), self.negative_view(), text@).label(),
    {
        classify_sentiment(&self.positive, &self.negative, text).to_label()
    }

    /// The sentiment of `text` as a value (see `sentiment_of`).
    pub fn sentiment(&self, text: &str) -> (r: Sentiment)
        ensures
            r == sentiment_of(self.positive_view(), self.negative_view(), text@),
    {
        classify_sentiment(&self.positive, &self.negative, text)
    }

    /// The theme labels of `text`, never empty (see `themes_of`).
    pub fn extract_themes(&self, text: &str) -> (r: Vec<String>)
        ensures
            texts(r@) == themes_of(self.themes_view(), text@),
            r@.len() > 0,
    {
        classify_themes(&self.theme_keywords, text)
    }

    /// The distinct keywords of `text` in increasing order, at most ten: the
    /// smallest of `keyword_set`.
    pub fn extract_keywords(&self, text: &str) -> (r: Vec<String>)
        ensures
            smallest_of(texts(r@), keyword_set(text@), MAX_KEYWORDS as nat),
    {
        let lowered = lowercase(text);
        let t = chars_of(lowered.as_str());
        let n = t.len();
        let mut keywords: Vec<String> = Vec::new();
        let ghost mut seen: Set<Seq<char>> = Set::empty();
        assert(keywords_before(t@, 0) =~= seen) by {
            assert forall|c: Seq<char>| !keywords_before(t@, 0).contains(c) by {
                if keywords_before(t@, 0).contains(c) {
                    let (i, j) = choose|i: int, j: int| j <= 0 && word_at(t@, i, j) && trimmed(t@.subrange(i, j)) == c;
                }
            }
        }
        let mut k: usize = 0;
        while k < n
            invariant
                n == t@.len(),
                t@ == lowered@,
                lowered@ == lower_of(text@),
                k <= n,
                seen == keywords_before(t@, k as int),
                smallest_of(texts(keywords@), seen, MAX_KEYWORDS as nat),
            decreases n - k,
        {
            let j = k + 1;
            if !is_space_char(t[k]) && (j == n || is_space_char(t[j])) {
                let mut a = k;
                while a > 0 && !is_space_char(t[a - 1])
                    invariant
                        a <= k < n == t@.len(),
                        forall|m: int| a <= m <= k ==> !is_space(#[trigger] t@[m]),
                    decreases a,
                {
                    a = a - 1;
                }
                assert(word_at(t@, a as int, j as int));
                let (x, y) = trim_bounds(&t, a, j);
                let w = lowered.as_str().substring_char(x, y);
                let ghost word = trimmed(t@.subrange(a as int, j as int));
                assert(w@ == word);
                let big = utf8_len_of(&t, x, y) >= 3;
                if big && !self.is_stop_word(w) {
                    insert_bounded(&mut keywords, w, MAX_KEYWORDS, Ghost(seen));
                    proof {
                        assert(keywords_before(t@, j as int) =~= seen.insert(word)) by {
                            assert forall|c: Seq<char>| keywords_before(t@, j as int).contains(c) implies seen.insert(
                                word,
                            ).contains(c) by {
                                let (i2, j2) = choose|i2: int, j2: int|
                                    j2 <= j && word_at(t@, i2, j2) && trimmed(t@.subrange(i2, j2)) == c;
                                if j2 == j {
                                    lemma_word_start_unique(t@, a as int, i2, j as int);
                                } else {
                                    assert(keywords_before(t@, k as int).contains(c));
                                }
                            }
                            assert forall|c: Seq<char>| seen.insert(word).contains(c) implies keywords_before(
                                t@,
                                j as int,
                            ).contains(c) by {
                                if c == word {
                                    assert(word_at(t@, a as int, j as int) && trimmed(t@.subrange(a as int, j as int)) == c);
                                } else {
                                    let (i2, j2) = choose|i2: int, j2: int|
                                        j2 <= k && word_at(t@, i2, j2) && trimmed(t@.subrange(i2, j2)) == c;
                                }
                            }
                        }
                        seen = seen.insert(word);
                    }
                } else {
                    proof {
                        assert(keywords_before(t@, j as int) =~= seen) by {
                            assert forall|c: Seq<char>| keywords_before(t@, j as int).contains(c) implies seen.contains(c) by {
                                let (i2, j2) = choose|i2: int, j2: int|
                                    j2 <= j && word_at(t@, i2, j2) && trimmed(t@.subrange(i2, j2)) == c;
                                if j2 == j {
                                    lemma_word_start_unique(t@, a as int, i2, j as int);
                                } else {
                                    assert(keywords_before(t@, k as int).contains(c));
                                }
                            }
                            assert forall|c: Seq<char>| seen.contains(c) implies keywords_before(t@, j as int).contains(c) by {
                                let (i2, j2) = choose|i2: int, j2: int|
                                    j2 <= k && word_at(t@, i2, j2) && trimmed(t@.subrange(i2, j2)) == c;
                            }
                        }
                    }
                }
            } else {
                proof {
                    assert(keywords_before(t@, j as int) =~= seen) by {
                        assert forall|c: Seq<char>| keywords_before(t@, j as int).contains(c) implies seen.contains(c) by {
                            let (i2, j2) = choose|i2: int, j2: int|
                                j2 <= j && word_at(t@, i2, j2) && trimmed(t@.subrange(i2, j2)) == c;
                            if j2 == j {
                                assert(!is_space(t@[k as int]));
                            } else {
                                assert(keywords_before(t@, k as int).contains(c));
                            }
                        }
                        assert forall|c: Seq<char>| seen.contains(c) implies keywords_before(t@, j as int).contains(c) by {
                            let (i2, j2) = choose|i2: int, j2: int|
                                j2 <= k && word_at(t@, i2, j2) && trimmed(t@.subrange(i2, j2)) == c;
                        }
                    }
                }
            }
            k = j;
        }
        keywords
    }

    /// Whether `word` is one of the stop words.
    fn is_stop_word(&self, word: &str) -> (r: bool)
        ensures
            r == stop_words().contains(word@),
    {
        let list = vec![
            "の".to_string(),
            "は".to_string(),
            "が".to_string(),
            "を".to_string(),
            "に".to_string(),
            "で".to_string(),
            "と".to_string(),
            "から".to_string(),
            "まで".to_string(),
            "です".to_string(),
            "である".to_string(),
            "ます".to_string(),
            "した".to_string(),
            "する".to_string(),
            "される".to_string(),
            "この".to_string(),
            "その".to_string(),
            "あの".to_string(),
            "どの".to_string(),
            "これ".to_string(),
            "それ".to_string(),
            "あれ".to_string(),
            "どれ".to_string(),
            "the".to_string(),
            "is".to_string(),
            "at".to_string(),
            "which".to_string(),
            "on".to_string(),
            "and".to_string(),
            "a".to_string(),
            "an".to_string(),
            "as".to_string(),
            "are".to_string(),
            "was".to_string(),
            "were".to_string(),
            "been".to_string(),
            "be".to_string(),
            "have".to_string(),
            "has".to_string(),
            "had".to_string(),
            "do".to_string(),
            "does".to_string(),
            "did".to_string()
        ];
        assert(texts(list@) =~= stop_words());
        holds_text(&list, &String::from_str(word))
    }
}

} // verus!
