//! Keyword filtering of the Wikimedia recent-changes stream: an event
//! matches when one of the keywords, ignoring case, is a whole word of its
//! title, comment, parsed comment or wiki name.

use crate::json::{deref_opt, Json};
use crate::text::{char_is_alphanumeric, chars_of, lowercase, to_lowercase, word_char};
use vstd::prelude::*;

verus! {

/// Scanning a text from the left: the words completed so far and the word
/// being read. Words are maximal runs of alphanumeric characters.
pub open spec fn scan_words(s: Seq<char>) -> (Seq<Seq<char>>, Seq<char>)
    decreases s.len(),
{
    if s.len() == 0 {
        (Seq::empty(), Seq::empty())
    } else {
        let (done, cur) = scan_words(s.drop_last());
        let c = s.last();
        if word_char(c) {
            (done, cur.push(c))
        } else if cur.len() > 0 {
            (done.push(cur), Seq::empty())
        } else {
            (done, Seq::empty())
        }
    }
}

/// The words of a text, in order: the maximal runs of alphanumeric
/// characters.
pub open spec fn words(s: Seq<char>) -> Seq<Seq<char>> {
    let (done, cur) = scan_words(s);
    if cur.len() > 0 {
        done.push(cur)
    } else {
        done
    }
}

/// The tokens of a text: its words, each in lower case.
pub open spec fn tokens(s: Seq<char>) -> Seq<Seq<char>> {
    words(s).map_values(|w: Seq<char>| lowercase(w))
}

/// The text views of a list of strings.
pub open spec fn texts(v: Seq<String>) -> Seq<Seq<char>> {
    v.map_values(|s: String| s@)
}

/// Splits a text into lower-case words: the maximal runs of alphanumeric
/// characters, each lower-cased.
pub fn text_tokens(text: &str) -> (r: Vec<String>)
    ensures
        texts(r@) == tokens(text@),
{
    let chars = chars_of(text);
    let mut result: Vec<String> = Vec::new();
    let mut start: usize = 0;
    let mut i: usize = 0;
    assert(chars@.take(0) =~= Seq::<char>::empty());
    while i < chars.len()
        invariant
            start <= i <= chars@.len(),
            chars@ == text@,
            texts(result@) == scan_words(chars@.take(i as int)).0.map_values(
                |w: Seq<char>| lowercase(w),
            ),
            scan_words(chars@.take(i as int)).1 == chars@.subrange(start as int, i as int),
        decreases chars.len() - i,
    {
        let c = chars[i];
        assert(chars@.take(i + 1).drop_last() =~= chars@.take(i as int));
        assert(chars@.take(i + 1).last() == c);
        if char_is_alphanumeric(c) {
            assert(chars@.subrange(start as int, i as int).push(c) =~= chars@.subrange(
                start as int,
                i + 1,
            ));
        } else {
            if start < i {
                let token = to_lowercase(text.substring_char(start, i));
                let ghost before = result@;
                result.push(token);
                assert(texts(result@) =~= texts(before).push(token@));
            }
            start = i + 1;
            assert(chars@.subrange(start as int, start as int) =~= Seq::<char>::empty());
        }
        i += 1;
    }
    assert(chars@.take(i as int) =~= chars@);
    if start < i {
        let token = to_lowercase(text.substring_char(start, i));
        let ghost before = result@;
        result.push(token);
        assert(texts(result@) =~= texts(before).push(token@));
    }
    proof {
        let (done, cur) = scan_words(text@);
        if cur.len() > 0 {
            assert(done.push(cur).map_values(|w: Seq<char>| lowercase(w)) =~= done.map_values(
                |w: Seq<char>| lowercase(w),
            ).push(lowercase(cur)));
        }
    }
    result
}

/// The text searched for keywords: for a JSON event, its `title`,
/// `comment`, `parsedcomment` and `wiki` strings joined by spaces (a missing
/// one counts as empty); for anything else, the raw message.
pub open spec fn searchable_text(payload: Seq<char>, doc: Option<Json>) -> Seq<char> {
    match doc {
        Some(v) => v.member_text("title"@) + " "@ + v.member_text("comment"@) + " "@
            + v.member_text("parsedcomment"@) + " "@ + v.member_text("wiki"@),
        None => payload,
    }
}

/// Some keyword, lower-cased, is one of the tokens.
pub open spec fn any_keyword_in(keywords: Seq<Seq<char>>, toks: Seq<Seq<char>>) -> bool {
    exists|i: int| 0 <= i < keywords.len() && toks.contains(lowercase(#[trigger] keywords[i]))
}

/// The text of a message to search (`doc` is the message parsed as JSON,
/// `None` when it is not JSON).
fn searchable(payload: &str, doc: Option<&Json>) -> (r: String)
    ensures
        r@ == searchable_text(payload@, deref_opt(doc)),
{
    match doc {
        Some(v) => {
            let mut text = String::from_str(v.member_str_or_empty("title"));
            text.append(" ");
            text.append(v.member_str_or_empty("comment"));
            text.append(" ");
            text.append(v.member_str_or_empty("parsedcomment"));
            text.append(" ");
            text.append(v.member_str_or_empty("wiki"));
            text
        },
        None => String::from_str(payload),
    }
}

/// Whether some keyword, ignoring case, is a whole word of the message's
/// searchable text (see `searchable_text`).
pub fn contains_keyword(payload: &str, doc: Option<&Json>, keywords: &[String]) -> (r: bool)
    ensures
        r == any_keyword_in(texts(keywords@), tokens(searchable_text(payload@, deref_opt(doc)))),
{
    let text = searchable(payload, doc);
    let toks = text_tokens(text.as_str());
    let ghost kw = texts(keywords@);
    let ghost tk = tokens(text@);
    let mut i: usize = 0;
    while i < keywords.len()
        invariant
            i <= keywords@.len(),
            kw == texts(keywords@),
            tk == texts(toks@),
            tk == tokens(searchable_text(payload@, deref_opt(doc))),
            forall|j: int| 0 <= j < i ==> !tk.contains(lowercase(#[trigger] kw[j])),
        decreases keywords.len() - i,
    {
        let keyword = to_lowercase(keywords[i].as_str());
        let mut j: usize = 0;
        while j < toks.len()
            invariant
                j <= toks@.len(),
                i < keywords@.len(),
                kw == texts(keywords@),
                tk == texts(toks@),
                tk == tokens(searchable_text(payload@, deref_opt(doc))),
                keyword@ == lowercase(kw[i as int]),
                forall|k: int| 0 <= k < j ==> tk[k] != keyword@,
            decreases toks.len() - j,
        {
            if toks[j] == keyword {
                assert(tk[j as int] == keyword@);
                assert(tk.contains(lowercase(kw[i as int])));
                assert(any_keyword_in(kw, tk));
                return true;
            }
            j += 1;
        }
        assert(!tk.contains(lowercase(kw[i as int])));
        i += 1;
    }
    false
}

/// Whether an event passes the keyword filter: every event passes when there
/// are no keywords, else an event containing one of them.
pub fn matches_filter(payload: &str, doc: Option<&Json>, keywords: &[String]) -> (r: bool)
    ensures
        r == (keywords@.len() == 0 || any_keyword_in(
            texts(keywords@),
            tokens(searchable_text(payload@, deref_opt(doc))),
        )),
{
    keywords.len() == 0 || contains_keyword(payload, doc, keywords)
}

/// A nonempty run of alphanumeric characters.
pub open spec fn is_word(w: Seq<char>) -> bool {
    w.len() > 0 && forall|j: int| 0 <= j < w.len() ==> word_char(#[trigger] w[j])
}

proof fn lemma_scan_words(s: Seq<char>)
    ensures
        forall|i: int| 0 <= i < scan_words(s).0.len() ==> is_word(#[trigger] scan_words(s).0[i]),
        forall|j: int|
            0 <= j < scan_words(s).1.len() ==> word_char(#[trigger] scan_words(s).1[j]),
    decreases s.len(),
{
    if s.len() > 0 {
        lemma_scan_words(s.drop_last());
        let (done, cur) = scan_words(s.drop_last());
        let c = s.last();
        if word_char(c) {
            assert forall|j: int| 0 <= j < cur.push(c).len() implies word_char(
                #[trigger] cur.push(c)[j],
            ) by {
                if j < cur.len() {
                    assert(cur.push(c)[j] == cur[j]);
                }
            }
        } else if cur.len() > 0 {
            assert(is_word(cur));
            assert forall|i: int| 0 <= i < done.push(cur).len() implies is_word(
                #[trigger] done.push(cur)[i],
            ) by {
                if i < done.len() {
                    assert(done.push(cur)[i] == done[i]);
                }
            }
        }
    }
}

/// Every word of a text is a nonempty run of alphanumeric characters.
pub proof fn lemma_words_are_alphanumeric(s: Seq<char>)
    ensures
        forall|i: int| 0 <= i < words(s).len() ==> is_word(#[trigger] words(s)[i]),
{
    lemma_scan_words(s);
    let (done, cur) = scan_words(s);
    if cur.len() > 0 {
        assert(is_word(cur));
        assert forall|i: int| 0 <= i < done.push(cur).len() implies is_word(
            #[trigger] done.push(cur)[i],
        ) by {
            if i < done.len() {
                assert(done.push(cur)[i] == done[i]);
            }
        }
    }
}

/// A character that ends a word (it is not a word character) leaves no word
/// being read.
proof fn lemma_scan_after_separator(x: Seq<char>, c: char)
    requires
        !word_char(c),
    ensures
        scan_words(x.push(c)) == (words(x), Seq::<char>::empty()),
{
    assert(x.push(c).drop_last() =~= x);
}

/// Scanning on from a point where no word is being read: the words found
/// later are appended.
proof fn lemma_scan_concat(x: Seq<char>, y: Seq<char>)
    requires
        scan_words(x).1.len() == 0,
    ensures
        scan_words(x + y) == (scan_words(x).0 + scan_words(y).0, scan_words(y).1),
    decreases y.len(),
{
    if y.len() == 0 {
        assert(x + y =~= x);
        assert(scan_words(x).0 + scan_words(y).0 =~= scan_words(x).0);
        assert(scan_words(x).1 =~= scan_words(y).1);
    } else {
        let y2 = y.drop_last();
        lemma_scan_concat(x, y2);
        assert((x + y).drop_last() =~= x + y2);
        assert((x + y).last() == y.last());
        let d = scan_words(x).0;
        let (a, cur) = scan_words(y2);
        if !word_char(y.last()) && cur.len() > 0 {
            assert((d + a).push(cur) =~= d + a.push(cur));
        }
    }
}

/// The words of two texts joined by a space are the words of the first
/// followed by the words of the second.
pub proof fn lemma_words_of_spaced_join(a: Seq<char>, b: Seq<char>)
    ensures
        words(a + seq![' '] + b) == words(a) + words(b),
{
    assert(!word_char(' '));
    assert(a + seq![' '] =~= a.push(' '));
    lemma_scan_after_separator(a, ' ');
    lemma_scan_concat(a + seq![' '], b);
    let (d, cur) = scan_words(b);
    if cur.len() > 0 {
        assert((words(a) + d).push(cur) =~= words(a) + d.push(cur));
    } else {
        assert(words(a) + d =~= words(a) + words(b));
    }
}

/// The words searched in a JSON event are the words of its title, comment,
/// parsed comment and wiki name, in that order.
pub proof fn lemma_event_words(payload: Seq<char>, v: Json)
    ensures
        words(searchable_text(payload, Some(v))) == words(v.member_text("title"@)) + words(
            v.member_text("comment"@),
        ) + words(v.member_text("parsedcomment"@)) + words(v.member_text("wiki"@)),
{
    reveal_strlit(" ");
    let t = v.member_text("title"@);
    let c = v.member_text("comment"@);
    let p = v.member_text("parsedcomment"@);
    let w = v.member_text("wiki"@);
    let sp = seq![' '];
    assert(" "@ == sp);
    lemma_words_of_spaced_join(t, c);
    lemma_words_of_spaced_join(t + sp + c, p);
    lemma_words_of_spaced_join(t + sp + c + sp + p, w);
    assert(searchable_text(payload, Some(v)) =~= t + sp + c + sp + p + sp + w);
}

/// A keyword that, ignoring case, is a word of a JSON event's title,
/// comment, parsed comment or wiki name makes the event match, whatever its
/// other fields hold.
pub proof fn lemma_event_field_word_matches(
    payload: Seq<char>,
    v: Json,
    keywords: Seq<String>,
    k: int,
    w: Seq<char>,
)
    requires
        0 <= k < keywords.len(),
        lowercase(w) == lowercase(keywords[k]@),
        words(v.member_text("title"@)).contains(w) || words(v.member_text("comment"@)).contains(w)
            || words(v.member_text("parsedcomment"@)).contains(w) || words(
            v.member_text("wiki"@),
        ).contains(w),
    ensures
        any_keyword_in(texts(keywords), tokens(searchable_text(payload, Some(v)))),
{
    lemma_event_words(payload, v);
    let all = words(searchable_text(payload, Some(v)));
    let t = words(v.member_text("title"@));
    let c = words(v.member_text("comment"@));
    let p = words(v.member_text("parsedcomment"@));
    let wk = words(v.member_text("wiki"@));
    assert(all == t + c + p + wk);
    let j: int = if t.contains(w) {
        t.index_of(w)
    } else if c.contains(w) {
        t.len() + c.index_of(w)
    } else if p.contains(w) {
        t.len() + c.len() + p.index_of(w)
    } else {
        t.len() + c.len() + p.len() + wk.index_of(w)
    };
    assert(all[j] == w);
    let toks = tokens(searchable_text(payload, Some(v)));
    assert(toks[j] == lowercase(w));
    assert(toks.contains(lowercase(texts(keywords)[k])));
}

} // verus!
