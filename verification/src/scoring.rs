use vstd::prelude::*;

use vstd::utf8::is_ascii_chars;

use crate::text::{
    ascii_lowercase, char_is_alphanumeric, char_is_whitespace, chars_of, is_white_space, string_of,
    to_lowercase,
    unicode_alphanumeric, unicode_lowercase,
};

verus! {

/// Reading `s` from left to right: the words completed so far, and the word
/// still being read.  Words are maximal runs of characters that are not
/// white space.
pub open spec fn scan_words(s: Seq<char>) -> (Seq<Seq<char>>, Seq<char>)
    decreases s.len(),
{
    if s.len() == 0 {
        (Seq::empty(), Seq::empty())
    } else {
        let (done, cur) = scan_words(s.drop_last());
        let c = s.last();
        if is_white_space(c) {
            if cur.len() > 0 {
                (done.push(cur), Seq::empty())
            } else {
                (done, cur)
            }
        } else {
            (done, cur.push(c))
        }
    }
}

/// The pieces that `str::split_whitespace` yields for `s`: its non-empty runs
/// of non-white-space characters, in order.
pub open spec fn split_whitespace(s: Seq<char>) -> Seq<Seq<char>> {
    let (done, cur) = scan_words(s);
    if cur.len() > 0 {
        done.push(cur)
    } else {
        done
    }
}

/// `w` with its leading characters that are not alphanumeric removed.
pub open spec fn trim_start_symbols(w: Seq<char>) -> Seq<char>
    decreases w.len(),
{
    if w.len() > 0 && !unicode_alphanumeric(w[0]) {
        trim_start_symbols(w.drop_first())
    } else {
        w
    }
}

/// `w` with its trailing characters that are not alphanumeric removed.
pub open spec fn trim_end_symbols(w: Seq<char>) -> Seq<char>
    decreases w.len(),
{
    if w.len() > 0 && !unicode_alphanumeric(w.last()) {
        trim_end_symbols(w.drop_last())
    } else {
        w
    }
}

/// `w` with every leading and trailing character that is not alphanumeric
/// removed, as `trim_matches(|c| !c.is_alphanumeric())` does.
pub open spec fn trim_symbols(w: Seq<char>) -> Seq<char> {
    trim_end_symbols(trim_start_symbols(w))
}

/// The words of a resume: its lowercase text split at white space, each piece
/// stripped of surrounding punctuation.
pub open spec fn resume_words(text: Seq<char>) -> Seq<Seq<char>> {
    split_whitespace(unicode_lowercase(text)).map_values(|w: Seq<char>| trim_symbols(w))
}

/// How many of `tags` occur among `words` once lowercased.
pub open spec fn count_matches(words: Seq<Seq<char>>, tags: Seq<Seq<char>>) -> nat
    decreases tags.len(),
{
    if tags.len() == 0 {
        0
    } else {
        count_matches(words, tags.drop_last()) + if words.contains(
            unicode_lowercase(tags.last()),
        ) {
            1nat
        } else {
            0nat
        }
    }
}

/// How well a resume matches a job: `matched` of the job's `total` tags occur
/// among the resume's words.  As a percentage this is `matched * 100 / total`,
/// and 0 when there are no tags.
#[derive(Clone, Copy, Debug, PartialEq, Eq)]
pub struct MatchScore {
    pub matched: usize,
    pub total: usize,
}

impl MatchScore {
    /// No tags, none matched.
    pub open spec fn zero_spec() -> MatchScore {
        MatchScore { matched: 0, total: 0 }
    }

    /// The score of a resume against no tags at all.
    pub fn zero() -> (s: MatchScore)
        ensures
            s == MatchScore::zero_spec(),
    {
        MatchScore { matched: 0, total: 0 }
    }
}

proof fn lemma_trim_start_step(w: Seq<char>, i: int)
    requires
        0 <= i < w.len(),
        !unicode_alphanumeric(w[i]),
    ensures
        trim_start_symbols(w.subrange(i, w.len() as int)) == trim_start_symbols(
            w.subrange(i + 1, w.len() as int),
        ),
{
    let s = w.subrange(i, w.len() as int);
    assert(s.drop_first() =~= w.subrange(i + 1, w.len() as int));
}

proof fn lemma_trim_end_step(w: Seq<char>, j: int)
    requires
        0 < j <= w.len(),
        !unicode_alphanumeric(w[j - 1]),
    ensures
        trim_end_symbols(w.subrange(0, j)) == trim_end_symbols(w.subrange(0, j - 1)),
{
    let s = w.subrange(0, j);
    assert(s.drop_last() =~= w.subrange(0, j - 1));
}

/// The characters of `w` without their leading and trailing non-alphanumeric ones.
pub fn trim_symbols_of(w: &Vec<char>) -> (r: String)
    ensures
        r@ == trim_symbols(w@),
{
    let n = w.len();
    let mut i: usize = 0;
    assert(w@.subrange(0, n as int) =~= w@);
    while i < n && !char_is_alphanumeric(w[i])
        invariant
            i <= n == w@.len(),
            trim_start_symbols(w@) == trim_start_symbols(w@.subrange(i as int, n as int)),
        decreases n - i,
    {
        proof {
            lemma_trim_start_step(w@, i as int);
        }
        i = i + 1;
    }
    let ghost rest = w@.subrange(i as int, n as int);
    assert(trim_start_symbols(rest) == rest);
    let mut j: usize = n;
    assert(rest.subrange(0, (j - i) as int) =~= rest);
    while j > i && !char_is_alphanumeric(w[j - 1])
        invariant
            i <= j <= n == w@.len(),
            rest == w@.subrange(i as int, n as int),
            trim_end_symbols(rest) == trim_end_symbols(rest.subrange(0, (j - i) as int)),
        decreases j - i,
    {
        proof {
            assert(rest[(j - i) - 1] == w@[j - 1]);
            lemma_trim_end_step(rest, (j - i) as int);
        }
        j = j - 1;
    }
    let ghost kept = rest.subrange(0, (j - i) as int);
    assert(trim_end_symbols(kept) == kept);
    assert(kept =~= w@.subrange(i as int, j as int));
    string_of(w, i, j)
}

proof fn lemma_push_word(
    before: Seq<String>,
    after: Seq<String>,
    done: Seq<Seq<char>>,
    cur: Seq<char>,
)
    requires
        before.map_values(|w: String| w@) == done.map_values(|w: Seq<char>| trim_symbols(w)),
        after.len() == before.len() + 1,
        forall|i: int| 0 <= i < before.len() ==> after[i] == before[i],
        after.last()@ == trim_symbols(cur),
    ensures
        after.map_values(|w: String| w@) == done.push(cur).map_values(
            |w: Seq<char>| trim_symbols(w),
        ),
{
    let l = after.map_values(|w: String| w@);
    let r = done.push(cur).map_values(|w: Seq<char>| trim_symbols(w));
    assert(before.map_values(|w: String| w@).len() == before.len());
    assert forall|i: int| 0 <= i < l.len() implies l[i] == r[i] by {
        if i < before.len() {
            assert(before.map_values(|w: String| w@)[i] == done.map_values(
                |w: Seq<char>| trim_symbols(w),
            )[i]);
        }
    }
    assert(l =~= r);
}

/// The words of a resume, as `resume_words` describes them.
pub fn resume_word_list(resume_text: &str) -> (words: Vec<String>)
    ensures
        words@.map_values(|w: String| w@) == resume_words(resume_text@),
        is_ascii_chars(resume_text@) ==> unicode_lowercase(resume_text@) == ascii_lowercase(
            resume_text@,
        ),
{
    let lower = to_lowercase(resume_text);
    let cs = chars_of(lower.as_str());
    let ghost text = cs@;
    let n = cs.len();
    let mut words: Vec<String> = Vec::new();
    let mut cur: Vec<char> = Vec::new();
    let mut k: usize = 0;
    while k < n
        invariant
            k <= n == text.len(),
            cs@ == text,
            scan_words(text.take(k as int)).1 == cur@,
            words@.map_values(|w: String| w@) == scan_words(text.take(k as int)).0.map_values(
                |w: Seq<char>| trim_symbols(w),
            ),
        decreases n - k,
    {
        let c = cs[k];
        proof {
            assert(text.take(k + 1).drop_last() =~= text.take(k as int));
            assert(text.take(k + 1).last() == c);
        }
        let ghost done = scan_words(text.take(k as int)).0;
        if char_is_whitespace(c) {
            if cur.len() > 0 {
                let ghost before = words@;
                let w = trim_symbols_of(&cur);
                words.push(w);
                proof {
                    lemma_push_word(before, words@, done, cur@);
                }
                cur = Vec::new();
            }
        } else {
            cur.push(c);
        }
        k = k + 1;
    }
    assert(text.take(n as int) =~= text);
    let ghost done = scan_words(text).0;
    if cur.len() > 0 {
        let ghost before = words@;
        let w = trim_symbols_of(&cur);
        words.push(w);
        proof {
            lemma_push_word(before, words@, done, cur@);
        }
    }
    words
}

/// A score never counts more matched tags than there are tags: as a
/// percentage it lies between 0 and 100.
pub proof fn lemma_matched_within_total(words: Seq<Seq<char>>, tags: Seq<Seq<char>>)
    ensures
        count_matches(words, tags) <= tags.len(),
    decreases tags.len(),
{
    if tags.len() > 0 {
        lemma_matched_within_total(words, tags.drop_last());
    }
}

/// Whether the tag `tag` counts as matched against `words`: 1 or 0.
pub open spec fn tag_matched(words: Seq<Seq<char>>, tag: Seq<char>) -> nat {
    if words.contains(unicode_lowercase(tag)) {
        1
    } else {
        0
    }
}

proof fn lemma_count_without(words: Seq<Seq<char>>, tags: Seq<Seq<char>>, j: int)
    requires
        0 <= j < tags.len(),
    ensures
        count_matches(words, tags) == count_matches(words, tags.remove(j)) + tag_matched(
            words,
            tags[j],
        ),
    decreases tags.len(),
{
    if j == tags.len() - 1 {
        assert(tags.remove(j) =~= tags.drop_last());
    } else {
        let rest = tags.drop_last();
        lemma_count_without(words, rest, j);
        assert(tags.remove(j).drop_last() =~= rest.remove(j));
        assert(tags.remove(j).last() == tags.last());
        assert(rest[j] == tags[j]);
    }
}

/// The score does not depend on the order of the tags: two lists holding the
/// same tags, each as often, match equally many.
pub proof fn lemma_count_ignores_tag_order(
    words: Seq<Seq<char>>,
    tags1: Seq<Seq<char>>,
    tags2: Seq<Seq<char>>,
)
    requires
        tags1.to_multiset() == tags2.to_multiset(),
    ensures
        count_matches(words, tags1) == count_matches(words, tags2),
    decreases tags1.len(),
{
    broadcast use vstd::seq_lib::group_to_multiset_ensures, vstd::multiset::group_multiset_axioms;

    if tags1.len() == 0 {
        assert(tags2.to_multiset().len() == 0);
        assert(tags2.len() == 0);
    } else {
        let x = tags1.last();
        let rest = tags1.drop_last();
        assert(tags1 =~= rest.push(x));
        assert(tags1.to_multiset() == rest.to_multiset().insert(x));
        assert(tags2.to_multiset().count(x) > 0);
        assert(tags2.contains(x));
        let j = choose|j: int| 0 <= j < tags2.len() && tags2[j] == x;
        assert(tags2.remove(j).to_multiset() == tags2.to_multiset().remove(x));
        assert(rest.to_multiset().insert(x).remove(x) =~= rest.to_multiset());
        lemma_count_ignores_tag_order(words, rest, tags2.remove(j));
        lemma_count_without(words, tags2, j);
    }
}

/// Matching against more words never matches fewer tags.
pub proof fn lemma_count_grows_with_words(
    words1: Seq<Seq<char>>,
    words2: Seq<Seq<char>>,
    tags: Seq<Seq<char>>,
)
    requires
        forall|w: Seq<char>| words1.contains(w) ==> words2.contains(w),
    ensures
        count_matches(words1, tags) <= count_matches(words2, tags),
    decreases tags.len(),
{
    if tags.len() > 0 {
        lemma_count_grows_with_words(words1, words2, tags.drop_last());
    }
}

proof fn lemma_scan_after_space(a: Seq<char>)
    ensures
        scan_words(a.push(' ')) == (split_whitespace(a), Seq::<char>::empty()),
{
    assert(a.push(' ').drop_last() =~= a);
    assert(is_white_space(' '));
}

proof fn lemma_scan_append(x: Seq<char>, b: Seq<char>)
    requires
        scan_words(x).1.len() == 0,
    ensures
        scan_words(x + b) == (scan_words(x).0 + scan_words(b).0, scan_words(b).1),
    decreases b.len(),
{
    if b.len() == 0 {
        assert(x + b =~= x);
        assert(scan_words(x).0 + Seq::<Seq<char>>::empty() =~= scan_words(x).0);
        assert(scan_words(x).1 =~= Seq::<char>::empty());
    } else {
        lemma_scan_append(x, b.drop_last());
        assert((x + b).drop_last() =~= x + b.drop_last());
        assert((x + b).last() == b.last());
        let d = scan_words(x).0;
        let (db, cb) = scan_words(b.drop_last());
        assert((d + db).push(cb) =~= d + db.push(cb));
    }
}

/// Splitting at white space two texts joined by a space gives the words of
/// the first and then those of the second.
pub proof fn lemma_split_joined(a: Seq<char>, b: Seq<char>)
    ensures
        split_whitespace(a + seq![' '] + b) == split_whitespace(a) + split_whitespace(b),
{
    lemma_scan_after_space(a);
    assert(a + seq![' '] =~= a.push(' '));
    lemma_scan_append(a.push(' '), b);
    let (db, cb) = scan_words(b);
    assert((split_whitespace(a) + db).push(cb) =~= split_whitespace(a) + db.push(cb));
    assert(split_whitespace(a) + db =~= split_whitespace(a) + db);
}

/// The pieces of `s` split at white space, each stripped of surrounding
/// punctuation.
pub open spec fn trimmed_words(s: Seq<char>) -> Seq<Seq<char>> {
    split_whitespace(s).map_values(|w: Seq<char>| trim_symbols(w))
}

/// The words of two lowercased texts joined by a space include all the
/// words of the first.
proof fn lemma_joined_words_include_first(la: Seq<char>, lb: Seq<char>)
    ensures
        forall|w: Seq<char>|
            #[trigger] trimmed_words(la).contains(w) ==> trimmed_words(
                la + seq![' '] + lb,
            ).contains(w),
{
    lemma_split_joined(la, lb);
    let w1 = split_whitespace(la);
    let w2 = split_whitespace(lb);
    let f = |w: Seq<char>| trim_symbols(w);
    assert((w1 + w2).map_values(f) =~= w1.map_values(f) + w2.map_values(f));
    let short = w1.map_values(f);
    let long = split_whitespace(la + seq![' '] + lb).map_values(f);
    assert(long == (w1 + w2).map_values(f));
    assert forall|w: Seq<char>| short.contains(w) implies long.contains(w) by {
        let i = choose|i: int| 0 <= i < short.len() && short[i] == w;
        assert(long[i] == w);
    }
}

/// Appending text, after a space, to a resume never lowers its score, where
/// lowercasing the joined text lowercases each side on its own (no
/// context-dependent case mapping reaches across the space; std documents
/// no such fact, so it stands as the premise).
pub proof fn lemma_appended_text_never_lowers_score(
    resume: Seq<char>,
    more: Seq<char>,
    tags: Seq<Seq<char>>,
)
    requires
        unicode_lowercase(resume + seq![' '] + more) == unicode_lowercase(resume) + seq![' ']
            + unicode_lowercase(more),
    ensures
        count_matches(resume_words(resume), tags) <= count_matches(
            resume_words(resume + seq![' '] + more),
            tags,
        ),
{
    let la = unicode_lowercase(resume);
    let lb = unicode_lowercase(more);
    lemma_joined_words_include_first(la, lb);
    assert(resume_words(resume) == trimmed_words(la));
    assert(resume_words(resume + seq![' '] + more) == trimmed_words(la + seq![' '] + lb));
    assert forall|w: Seq<char>| resume_words(resume).contains(w) implies resume_words(
        resume + seq![' '] + more,
    ).contains(w) by {
        assert(trimmed_words(la).contains(w));
    }
    lemma_count_grows_with_words(
        resume_words(resume),
        resume_words(resume + seq![' '] + more),
        tags,
    );
}

/// Appending ASCII text, after a space, to an ASCII resume never lowers its
/// score: of the scores `match_counts` gives for the resume and for the
/// joined text, against the same tags, the second is at least the first.
pub proof fn lemma_appended_ascii_text_never_lowers_score(
    resume: Seq<char>,
    more: Seq<char>,
    tags: Seq<Seq<char>>,
    before: MatchScore,
    after: MatchScore,
)
    requires
        is_ascii_chars(resume),
        is_ascii_chars(more),
        scored(resume, tags, before),
        scored(resume + seq![' '] + more, tags, after),
    ensures
        before.matched <= after.matched,
        before.total == after.total,
{
    let joined = resume + seq![' '] + more;
    assert(is_ascii_chars(joined)) by {
        assert forall|i: int| 0 <= i < joined.len() implies '\0' <= #[trigger] joined[i] <= '\u{7f}' by {
            if i < resume.len() {
                assert(joined[i] == resume[i]);
            } else if i > resume.len() {
                assert(joined[i] == more[i - resume.len() - 1]);
            }
        }
    }
    let la = ascii_lowercase(resume);
    let lb = ascii_lowercase(more);
    assert(ascii_lowercase(joined) =~= la + seq![' '] + lb);
    lemma_joined_words_include_first(la, lb);
    assert(resume_words(resume) == trimmed_words(la));
    assert(resume_words(joined) == trimmed_words(la + seq![' '] + lb));
    assert forall|w: Seq<char>| resume_words(resume).contains(w) implies resume_words(
        joined,
    ).contains(w) by {
        assert(trimmed_words(la).contains(w));
    }
    lemma_count_grows_with_words(resume_words(resume), resume_words(joined), tags);
}

/// What `match_counts` gives for the text `text` and the tags `tags`: the
/// count of tags found among the text's words, out of all of them.  (For
/// ASCII text, the lowercasing it scores on is ASCII lowercasing.)
pub open spec fn scored(text: Seq<char>, tags: Seq<Seq<char>>, score: MatchScore) -> bool {
    &&& score.total == tags.len()
    &&& score.matched == count_matches(resume_words(text), tags)
    &&& is_ascii_chars(text) ==> unicode_lowercase(text) == ascii_lowercase(text)
}

/// Whether `word` occurs in `words`.
fn contains_word(words: &Vec<String>, word: &String) -> (found: bool)
    ensures
        found == words@.map_values(|w: String| w@).contains(word@),
{
    let ghost views = words@.map_values(|w: String| w@);
    let mut i: usize = 0;
    while i < words.len()
        invariant
            i <= words@.len() == views.len(),
            views == words@.map_values(|w: String| w@),
            forall|j: int| 0 <= j < i ==> views[j] != word@,
        decreases words.len() - i,
    {
        if words[i] == *word {
            assert(views[i as int] == word@);
            return true;
        }
        i = i + 1;
    }
    proof {
        if views.contains(word@) {
            let j = choose|j: int| 0 <= j < views.len() && views[j] == word@;
            assert(views[j] != word@);
        }
    }
    false
}

/// How many of `tags` occur, lowercased, among the words of `resume_text`
/// (`matched`), out of how many tags there are (`total`).  Without tags the
/// score is zero out of zero.
pub fn match_counts(resume_text: &str, tags: Option<Vec<String>>) -> (score: MatchScore)
    ensures
        score.matched <= score.total,
        match tags {
            None => score == MatchScore::zero_spec(),
            Some(t) => scored(resume_text@, t@.map_values(|s: String| s@), score),
        },
{
    let words = resume_word_list(resume_text);
    match tags {
        None => MatchScore::zero(),
        Some(tags) => {
            let ghost ws = resume_words(resume_text@);
            let ghost tv = tags@.map_values(|s: String| s@);
            let mut matched: usize = 0;
            let mut i: usize = 0;
            while i < tags.len()
                invariant
                    i <= tags@.len() == tv.len(),
                    tv == tags@.map_values(|s: String| s@),
                    ws == words@.map_values(|w: String| w@),
                    matched == count_matches(ws, tv.take(i as int)),
                decreases tags.len() - i,
            {
                proof {
                    assert(tv.take(i + 1).drop_last() =~= tv.take(i as int));
                    assert(tv.take(i + 1).last() == tags@[i as int]@);
                }
                proof {
                    lemma_matched_within_total(ws, tv.take(i as int));
                }
                let lowered = to_lowercase(tags[i].as_str());
                if contains_word(&words, &lowered) {
                    matched = matched + 1;
                }
                i = i + 1;
            }
            assert(tv.take(tags.len() as int) =~= tv);
            proof {
                lemma_matched_within_total(ws, tv);
            }
            MatchScore { matched, total: tags.len() }
        },
    }
}

} // verus!
