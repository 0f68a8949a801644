//! Human-readable task-title cleanup and the deterministic fallback title.
//!
//! A title is built from the first line of the input that holds a non-whitespace
//! character: its words, which whitespace and control characters separate (so no control
//! character is kept), each stripped of leading and trailing
//! non-alphanumeric characters, the empty ones dropped, at most six of them, joined by
//! single spaces. A title longer than sixty characters is cut to fifty-nine, stripped of
//! trailing whitespace and ended with an ellipsis.

use vstd::prelude::*;
use crate::text::{
    char_alphanumeric, char_white_space, chars_of, is_alphanumeric, is_white_space,
    is_word_separator, string_from_chars, word_separator, char_control,
};

verus! {

pub const MAX_WORDS: usize = 6;

pub const MAX_LEN: usize = 60;

/// The ellipsis that ends a shortened title.
pub open spec fn ellipsis() -> char {
    '\u{2026}'
}

/// Length of the line that starts `s`: the characters before the first line feed.
pub open spec fn line_len(s: Seq<char>) -> nat
    decreases s.len(),
{
    if s.len() == 0 || s[0] == '\n' {
        0
    } else {
        1 + line_len(s.skip(1))
    }
}

/// Whether `line` holds a character that is not whitespace.
pub open spec fn has_content(line: Seq<char>) -> bool {
    exists|i: int| 0 <= i < line.len() && !char_white_space(#[trigger] line[i])
}

/// The first line of `s` (lines end at a line feed) that has content, or the empty
/// sequence when there is none.
pub open spec fn first_content_line(s: Seq<char>) -> Seq<char>
    decreases s.len(),
{
    let k = line_len(s);
    if k >= s.len() {
        if has_content(s) { s } else { Seq::empty() }
    } else if has_content(s.take(k as int)) {
        s.take(k as int)
    } else {
        first_content_line(s.skip((k + 1) as int))
    }
}

/// Length of the run of word characters (neither whitespace nor control characters) that
/// starts `s`.
pub open spec fn word_len(s: Seq<char>) -> nat
    decreases s.len(),
{
    if s.len() == 0 || word_separator(s[0]) {
        0
    } else {
        1 + word_len(s.skip(1))
    }
}

pub proof fn lemma_word_len_bound(s: Seq<char>)
    ensures
        word_len(s) <= s.len(),
        s.len() > 0 && !word_separator(s[0]) ==> word_len(s) >= 1,
    decreases s.len(),
{
    if s.len() > 0 && !word_separator(s[0]) {
        lemma_word_len_bound(s.skip(1));
    }
}

/// The maximal runs of word characters of `s`, in order.
pub open spec fn words(s: Seq<char>) -> Seq<Seq<char>>
    decreases s.len(),
{
    if s.len() == 0 {
        Seq::empty()
    } else if word_separator(s[0]) {
        words(s.skip(1))
    } else {
        let k = word_len(s);
        proof {
            lemma_word_len_bound(s);
        }
        seq![s.take(k as int)] + words(s.skip(k as int))
    }
}

/// `w` without its leading non-alphanumeric characters.
pub open spec fn trim_start_non_alnum(w: Seq<char>) -> Seq<char>
    decreases w.len(),
{
    if w.len() > 0 && !char_alphanumeric(w[0]) {
        trim_start_non_alnum(w.skip(1))
    } else {
        w
    }
}

/// `w` without its trailing non-alphanumeric characters.
pub open spec fn trim_end_non_alnum(w: Seq<char>) -> Seq<char>
    decreases w.len(),
{
    if w.len() > 0 && !char_alphanumeric(w.last()) {
        trim_end_non_alnum(w.drop_last())
    } else {
        w
    }
}

/// `w` without its leading and trailing non-alphanumeric characters.
pub open spec fn trim_non_alnum(w: Seq<char>) -> Seq<char> {
    trim_end_non_alnum(trim_start_non_alnum(w))
}

/// `w` without its trailing whitespace.
pub open spec fn trim_end_white_space(w: Seq<char>) -> Seq<char>
    decreases w.len(),
{
    if w.len() > 0 && char_white_space(w.last()) {
        trim_end_white_space(w.drop_last())
    } else {
        w
    }
}

/// Each word trimmed of its leading and trailing non-alphanumeric characters, the ones
/// left empty dropped.
pub open spec fn kept_words(ws: Seq<Seq<char>>) -> Seq<Seq<char>> {
    ws.map_values(|w: Seq<char>| trim_non_alnum(w)).filter(|t: Seq<char>| t.len() > 0)
}

/// At most the first six of the kept words.
pub open spec fn capped_words(ws: Seq<Seq<char>>) -> Seq<Seq<char>> {
    let k = kept_words(ws);
    if k.len() <= MAX_WORDS {
        k
    } else {
        k.take(MAX_WORDS as int)
    }
}

/// The words that make up the title of `raw`.
pub open spec fn title_words(raw: Seq<char>) -> Seq<Seq<char>> {
    capped_words(words(first_content_line(raw)))
}

/// The words joined by single spaces.
pub open spec fn join_words(ws: Seq<Seq<char>>) -> Seq<char>
    decreases ws.len(),
{
    if ws.len() == 0 {
        Seq::empty()
    } else if ws.len() == 1 {
        ws[0]
    } else {
        join_words(ws.drop_last()).push(' ') + ws.last()
    }
}

/// The title before any shortening.
pub open spec fn full_title(raw: Seq<char>) -> Seq<char> {
    join_words(title_words(raw))
}

/// The title `sanitize_title` gives for `raw`.
pub open spec fn spec_sanitize_title(raw: Seq<char>) -> Seq<char> {
    let title = full_title(raw);
    if title.len() <= MAX_LEN {
        title
    } else {
        trim_end_white_space(title.take(MAX_LEN - 1)).push(ellipsis())
    }
}

} // verus!

verus! {

proof fn lemma_kept_words_push(ws: Seq<Seq<char>>, w: Seq<char>)
    ensures
        kept_words(ws.push(w)) == if trim_non_alnum(w).len() > 0 {
            kept_words(ws).push(trim_non_alnum(w))
        } else {
            kept_words(ws)
        },
{
    let f = |w: Seq<char>| trim_non_alnum(w);
    let m = ws.push(w).map_values(f);
    assert(m.drop_last() =~= ws.map_values(f));
    reveal_with_fuel(Seq::filter, 1);
}

proof fn lemma_capped_words_push(ws: Seq<Seq<char>>, w: Seq<char>)
    ensures
        capped_words(ws.push(w)) == if trim_non_alnum(w).len() > 0 && capped_words(ws).len()
            < MAX_WORDS {
            capped_words(ws).push(trim_non_alnum(w))
        } else {
            capped_words(ws)
        },
{
    lemma_kept_words_push(ws, w);
    let k = kept_words(ws);
    let t = trim_non_alnum(w);
    if k.len() >= MAX_WORDS {
        assert(k.push(t).take(MAX_WORDS as int) =~= k.take(MAX_WORDS as int));
    }
}

proof fn lemma_join_push(ws: Seq<Seq<char>>, w: Seq<char>)
    ensures
        join_words(ws.push(w)) == if ws.len() == 0 {
            w
        } else {
            join_words(ws).push(' ') + w
        },
{
    assert(ws.push(w).drop_last() =~= ws);
}

/// Bounds `(start, end)` of the first line of `v` that has content; `start == end` when
/// there is none.
fn first_content_line_bounds(v: &Vec<char>) -> (r: (usize, usize))
    ensures
        r.0 <= r.1 <= v.len(),
        v@.subrange(r.0 as int, r.1 as int) == first_content_line(v@),
{
    let len = v.len();
    let mut start: usize = 0;
    assert(v@.skip(0) =~= v@);
    loop
        invariant
            len == v.len(),
            start <= len,
            first_content_line(v@) == first_content_line(v@.skip(start as int)),
        decreases len - start,
    {
        let ghost s = v@.skip(start as int);
        let mut j: usize = start;
        while j < len && v[j] != '\n'
            invariant
                len == v.len(),
                start <= j <= len,
                s == v@.skip(start as int),
                line_len(s) == (j - start) + line_len(v@.skip(j as int)),
            decreases len - j,
        {
            assert(v@.skip(j as int).skip(1) =~= v@.skip(j + 1));
            j = j + 1;
        }
        let k: usize = j - start;
        assert(line_len(s) == k);
        let mut m: usize = start;
        while m < j && is_white_space(v[m])
            invariant
                len == v.len(),
                start <= m <= j <= len,
                forall|x: int| start <= x < m ==> char_white_space(#[trigger] v@[x]),
            decreases j - m,
        {
            m = m + 1;
        }
        let found = m < j;
        let ghost line = s.take(k as int);
        assert(line =~= v@.subrange(start as int, j as int));
        if found {
            assert(line[m - start] == v@[m as int]);
            assert(has_content(line));
        } else {
            assert forall|x: int| 0 <= x < line.len() implies char_white_space(#[trigger] line[x]) by {
                assert(line[x] == v@[start + x]);
            }
            assert(!has_content(line));
        }
        if j >= len {
            assert(s.take(k as int) =~= s);
            if found {
                return (start, len);
            } else {
                return (start, start);
            }
        }
        if found {
            return (start, j);
        }
        assert(s.skip((k + 1) as int) =~= v@.skip(j + 1));
        start = j + 1;
    }
}

} // verus!

verus! {

/// Bounds of `v[i..j]` with its leading and trailing non-alphanumeric characters removed.
fn trim_bounds(v: &Vec<char>, i: usize, j: usize) -> (r: (usize, usize))
    requires
        i <= j <= v.len(),
    ensures
        i <= r.0 <= r.1 <= j,
        v@.subrange(r.0 as int, r.1 as int) == trim_non_alnum(v@.subrange(i as int, j as int)),
{
    let mut p: usize = i;
    while p < j && !is_alphanumeric(v[p])
        invariant
            i <= p <= j <= v.len(),
            trim_start_non_alnum(v@.subrange(i as int, j as int)) == trim_start_non_alnum(
                v@.subrange(p as int, j as int),
            ),
        decreases j - p,
    {
        assert(v@.subrange(p as int, j as int).skip(1) =~= v@.subrange(p + 1, j as int));
        p = p + 1;
    }
    let mut q: usize = j;
    while q > p && !is_alphanumeric(v[q - 1])
        invariant
            i <= p <= q <= j <= v.len(),
            trim_end_non_alnum(v@.subrange(p as int, j as int)) == trim_end_non_alnum(
                v@.subrange(p as int, q as int),
            ),
        decreases q - p,
    {
        assert(v@.subrange(p as int, q as int).drop_last() =~= v@.subrange(p as int, q - 1));
        q = q - 1;
    }
    (p, q)
}

/// Appends `v[p..q]` to `out`.
fn append_range(out: &mut Vec<char>, v: &Vec<char>, p: usize, q: usize)
    requires
        p <= q <= v.len(),
    ensures
        final(out)@ == old(out)@ + v@.subrange(p as int, q as int),
{
    let mut t: usize = p;
    while t < q
        invariant
            p <= t <= q <= v.len(),
            out@ == old(out)@ + v@.subrange(p as int, t as int),
        decreases q - t,
    {
        out.push(v[t]);
        t = t + 1;
        assert(v@.subrange(p as int, t as int) =~= v@.subrange(p as int, t - 1).push(v@[t - 1]));
    }
}

/// The title words of the line `v[a..b]`, joined by spaces.
fn title_chars(v: &Vec<char>, a: usize, b: usize) -> (r: Vec<char>)
    requires
        a <= b <= v.len(),
    ensures
        r@ == join_words(capped_words(words(v@.subrange(a as int, b as int)))),
{
    let mut out: Vec<char> = Vec::new();
    let mut count: usize = 0;
    let ghost mut done: Seq<Seq<char>> = Seq::empty();
    let mut i: usize = a;
    assert(done + words(v@.subrange(a as int, b as int)) =~= words(
        v@.subrange(a as int, b as int),
    ));
    proof {
        reveal_with_fuel(Seq::filter, 1);
        assert(capped_words(done) =~= Seq::<Seq<char>>::empty());
    }
    while i < b
        invariant
            a <= i <= b <= v.len(),
            words(v@.subrange(a as int, b as int)) == done + words(v@.subrange(i as int, b as int)),
            out@ == join_words(capped_words(done)),
            count == capped_words(done).len(),
            count <= MAX_WORDS,
        decreases b - i,
    {
        if is_word_separator(v[i]) {
            assert(v@.subrange(i as int, b as int).skip(1) =~= v@.subrange(i + 1, b as int));
            i = i + 1;
        } else {
            let mut j: usize = i + 1;
            assert(v@.subrange(i as int, b as int).skip(1) =~= v@.subrange(i + 1, b as int));
            while j < b && !is_word_separator(v[j])
                invariant
                    a <= i < j <= b <= v.len(),
                    word_len(v@.subrange(i as int, b as int)) == (j - i) + word_len(
                        v@.subrange(j as int, b as int),
                    ),
                decreases b - j,
            {
                assert(v@.subrange(j as int, b as int).skip(1) =~= v@.subrange(j + 1, b as int));
                j = j + 1;
            }
            let ghost w = v@.subrange(i as int, j as int);
            proof {
                let s = v@.subrange(i as int, b as int);
                assert(word_len(s) == j - i);
                assert(s.take(j - i) =~= w);
                assert(s.skip(j - i) =~= v@.subrange(j as int, b as int));
                assert(done + words(s) =~= done.push(w) + words(v@.subrange(j as int, b as int)));
            }
            let (p, q) = trim_bounds(v, i, j);
            proof {
                lemma_capped_words_push(done, w);
                lemma_join_push(capped_words(done), v@.subrange(p as int, q as int));
            }
            if p < q && count < MAX_WORDS {
                if count > 0 {
                    out.push(' ');
                }
                append_range(&mut out, v, p, q);
                count = count + 1;
            }
            proof {
                done = done.push(w);
            }
            i = j;
        }
    }
    assert(done + words(v@.subrange(b as int, b as int)) =~= done);
    out
}

/// Cleans a raw title: keeps the first line with content, splits it into words at
/// whitespace and control characters, strips each word of leading and trailing
/// non-alphanumeric characters, drops the words left empty, keeps at most six
/// words joined by single spaces, and shortens a result longer than sixty characters to
/// fifty-nine characters without trailing whitespace, followed by an ellipsis.
pub fn sanitize_title(raw: &str) -> (r: String)
    ensures
        r@ == spec_sanitize_title(raw@),
        r@.len() <= MAX_LEN,
        full_title(raw@).len() <= MAX_LEN ==> is_stable_title(r@),
        forall|i: int| 0 <= i < r@.len() ==> !char_control(#[trigger] r@[i]),
{
    proof {
        lemma_sanitized_title_has_no_control(raw@);
        if full_title(raw@).len() <= MAX_LEN {
            lemma_unshortened_title_is_stable(raw@);
        }
    }
    let v = chars_of(raw);
    let (a, b) = first_content_line_bounds(&v);
    let title = title_chars(&v, a, b);
    assert(title@ == full_title(raw@));
    if title.len() <= MAX_LEN {
        return string_from_chars(&title);
    }
    let mut k: usize = MAX_LEN - 1;
    while k > 0 && is_white_space(title[k - 1])
        invariant
            k <= MAX_LEN - 1 < title.len(),
            trim_end_white_space(title@.take(MAX_LEN - 1)) == trim_end_white_space(
                title@.take(k as int),
            ),
        decreases k,
    {
        assert(title@.take(k as int).drop_last() =~= title@.take(k - 1));
        k = k - 1;
    }
    let mut out: Vec<char> = Vec::new();
    append_range(&mut out, &title, 0, k);
    assert(title@.subrange(0, k as int) =~= title@.take(k as int));
    out.push('\u{2026}');
    assert(out@ =~= spec_sanitize_title(raw@));
    assert forall|i: int| 0 <= i < out@.len() implies !char_control(#[trigger] out@[i]) by {
        assert(out@[i] == spec_sanitize_title(raw@)[i]);
    }
    string_from_chars(&out)
}

} // verus!

verus! {

/// A line with no line feed has itself as its length.
proof fn lemma_line_len_no_newline(s: Seq<char>)
    requires
        forall|i: int| 0 <= i < s.len() ==> #[trigger] s[i] != '\n',
    ensures
        line_len(s) == s.len(),
    decreases s.len(),
{
    if s.len() > 0 {
        assert forall|i: int| 0 <= i < s.skip(1).len() implies #[trigger] s.skip(1)[i] != '\n' by {
            assert(s.skip(1)[i] == s[i + 1]);
        }
        lemma_line_len_no_newline(s.skip(1));
    }
}

/// The first line of `s` is at most `s.len()` long, and its characters are no line feeds.
proof fn lemma_line_len_prefix(s: Seq<char>)
    ensures
        line_len(s) <= s.len(),
        forall|i: int| 0 <= i < line_len(s) ==> #[trigger] s[i] != '\n',
        line_len(s) < s.len() ==> s[line_len(s) as int] == '\n',
    decreases s.len(),
{
    if s.len() > 0 && s[0] != '\n' {
        lemma_line_len_prefix(s.skip(1));
        assert forall|i: int| 0 <= i < line_len(s) implies #[trigger] s[i] != '\n' by {
            if i > 0 {
                assert(s[i] == s.skip(1)[i - 1]);
            }
        }
    }
}

/// The first line with content is empty, or has content and holds no line feed.
proof fn lemma_first_content_line_shape(s: Seq<char>)
    ensures
        first_content_line(s).len() == 0 || (has_content(first_content_line(s)) && forall|i: int|
            0 <= i < first_content_line(s).len() ==> #[trigger] first_content_line(s)[i] != '\n'),
    decreases s.len(),
{
    lemma_line_len_prefix(s);
    let k = line_len(s);
    if k >= s.len() {
    } else if has_content(s.take(k as int)) {
    } else {
        lemma_first_content_line_shape(s.skip((k + 1) as int));
    }
}

/// Taking the first line with content twice is the same as taking it once.
pub proof fn lemma_first_content_line_idempotent(s: Seq<char>)
    ensures
        first_content_line(first_content_line(s)) == first_content_line(s),
{
    let l = first_content_line(s);
    lemma_first_content_line_shape(s);
    if l.len() == 0 {
        assert(!has_content(l));
    } else {
        lemma_line_len_no_newline(l);
    }
}

/// Law: sanitizing the first line with content of a text gives the title of the whole
/// text. (`fallback_title_from_prompt` rests on it: its title is that of the prompt.)
pub proof fn lemma_sanitize_first_content_line(s: Seq<char>)
    ensures
        spec_sanitize_title(first_content_line(s)) == spec_sanitize_title(s),
{
    lemma_first_content_line_idempotent(s);
}

/// The title `fallback_title_from_prompt` gives for `prompt`.
pub open spec fn spec_fallback_title(prompt: Seq<char>) -> Seq<char> {
    let title = spec_sanitize_title(prompt);
    if title.len() == 0 {
        "Agent task"@
    } else {
        title
    }
}

/// A readable emergency title from the first line with content of the prompt: its
/// sanitized title, or "Agent task" when that is empty. Never empty.
pub fn fallback_title_from_prompt(prompt: &str) -> (r: String)
    ensures
        r@ == spec_fallback_title(prompt@),
        r@.len() > 0,
{
    let v = chars_of(prompt);
    let (a, b) = first_content_line_bounds(&v);
    let mut line: Vec<char> = Vec::new();
    append_range(&mut line, &v, a, b);
    let first_line = string_from_chars(&line);
    let title = sanitize_title(first_line.as_str());
    proof {
        lemma_sanitize_first_content_line(prompt@);
        reveal_strlit("Agent task");
    }
    if title.as_str().is_empty() {
        "Agent task".to_owned()
    } else {
        title
    }
}

} // verus!

verus! {

/// Words as a title keeps them: non-empty, without whitespace or control characters,
/// starting and ending with an alphanumeric character.
pub open spec fn is_title_word(w: Seq<char>) -> bool {
    &&& w.len() > 0
    &&& forall|i: int| 0 <= i < w.len() ==> !word_separator(#[trigger] w[i])
    &&& char_alphanumeric(w[0])
    &&& char_alphanumeric(w.last())
}

/// A title that sanitizing leaves as it is: at most six title words joined by spaces,
/// no longer than sixty characters.
pub open spec fn is_stable_title(t: Seq<char>) -> bool {
    exists|ws: Seq<Seq<char>>|
        {
            &&& ws.len() <= MAX_WORDS
            &&& forall|i: int| 0 <= i < ws.len() ==> is_title_word(#[trigger] ws[i])
            &&& join_words(ws) == t
            &&& t.len() <= MAX_LEN
        }
}

proof fn lemma_word_len_append(x: Seq<char>, y: Seq<char>)
    ensures
        word_len(x + y) == if word_len(x) < x.len() {
            word_len(x)
        } else {
            x.len() + word_len(y)
        },
    decreases x.len(),
{
    lemma_word_len_bound(x);
    if x.len() == 0 {
        assert(x + y =~= y);
    } else if word_separator(x[0]) {
    } else {
        assert((x + y).skip(1) =~= x.skip(1) + y);
        lemma_word_len_append(x.skip(1), y);
    }
}

proof fn lemma_words_split(x: Seq<char>, c: char, y: Seq<char>)
    requires
        word_separator(c),
    ensures
        words(x + seq![c] + y) == words(x) + words(y),
    decreases x.len(),
{
    let s = x + seq![c] + y;
    if x.len() == 0 {
        assert(s.skip(1) =~= y);
        assert(words(x) =~= Seq::<Seq<char>>::empty());
        assert(words(x) + words(y) =~= words(y));
    } else if word_separator(x[0]) {
        assert(s.skip(1) =~= x.skip(1) + seq![c] + y);
        lemma_words_split(x.skip(1), c, y);
    } else {
        lemma_word_len_bound(x);
        lemma_word_len_append(x, seq![c] + y);
        assert(s =~= x + (seq![c] + y));
        let k = word_len(x);
        assert(word_len(seq![c] + y) == 0);
        assert(word_len(s) == k);
        assert(s.take(k as int) =~= x.take(k as int));
        assert(s.skip(k as int) =~= x.skip(k as int) + seq![c] + y);
        lemma_words_split(x.skip(k as int), c, y);
        assert(words(s) =~= seq![x.take(k as int)] + (words(x.skip(k as int)) + words(y)));
    }
}

proof fn lemma_word_len_all(w: Seq<char>)
    requires
        forall|i: int| 0 <= i < w.len() ==> !word_separator(#[trigger] w[i]),
    ensures
        word_len(w) == w.len(),
    decreases w.len(),
{
    if w.len() > 0 {
        assert forall|i: int| 0 <= i < w.skip(1).len() implies !word_separator(
            #[trigger] w.skip(1)[i],
        ) by {
            assert(w.skip(1)[i] == w[i + 1]);
        }
        lemma_word_len_all(w.skip(1));
    }
}

proof fn lemma_words_single(w: Seq<char>)
    requires
        w.len() > 0,
        forall|i: int| 0 <= i < w.len() ==> !word_separator(#[trigger] w[i]),
    ensures
        words(w) == seq![w],
{
    lemma_word_len_all(w);
    assert(w.take(w.len() as int) =~= w);
    assert(w.skip(w.len() as int) =~= Seq::<char>::empty());
    assert(words(w.skip(w.len() as int)) =~= Seq::<Seq<char>>::empty());
    assert(seq![w] + Seq::<Seq<char>>::empty() =~= seq![w]);
}

proof fn lemma_words_join(ws: Seq<Seq<char>>)
    requires
        forall|i: int| 0 <= i < ws.len() ==> is_title_word(#[trigger] ws[i]),
    ensures
        words(join_words(ws)) == ws,
    decreases ws.len(),
{
    if ws.len() == 0 {
        assert(words(Seq::<char>::empty()) =~= ws);
    } else if ws.len() == 1 {
        assert(is_title_word(ws[0]));
        lemma_words_single(ws[0]);
        assert(seq![ws[0]] =~= ws);
    } else {
        let init = ws.drop_last();
        assert forall|i: int| 0 <= i < init.len() implies is_title_word(#[trigger] init[i]) by {
            assert(init[i] == ws[i]);
        }
        lemma_words_join(init);
        assert(is_title_word(ws[ws.len() - 1]));
        lemma_words_single(ws.last());
        assert(join_words(ws) =~= join_words(init) + seq![' '] + ws.last());
        lemma_words_split(join_words(init), ' ', ws.last());
        assert(init + seq![ws.last()] =~= ws);
    }
}

proof fn lemma_join_no_newline(ws: Seq<Seq<char>>)
    requires
        forall|i: int| 0 <= i < ws.len() ==> is_title_word(#[trigger] ws[i]),
    ensures
        forall|i: int| 0 <= i < join_words(ws).len() ==> #[trigger] join_words(ws)[i] != '\n',
        ws.len() > 0 ==> has_content(join_words(ws)),
    decreases ws.len(),
{
    if ws.len() == 0 {
    } else if ws.len() == 1 {
        assert(is_title_word(ws[0]));
        assert(!char_white_space(join_words(ws)[0]));
    } else {
        let init = ws.drop_last();
        assert forall|i: int| 0 <= i < init.len() implies is_title_word(#[trigger] init[i]) by {
            assert(init[i] == ws[i]);
        }
        lemma_join_no_newline(init);
        let j = join_words(ws);
        let ji = join_words(init);
        assert(is_title_word(ws[ws.len() - 1]));
        assert(j =~= ji.push(' ') + ws.last());
        assert forall|i: int| 0 <= i < j.len() implies #[trigger] j[i] != '\n' by {
            if i < ji.len() {
                assert(j[i] == ji[i]);
            } else if i > ji.len() {
                assert(j[i] == ws.last()[i - ji.len() - 1]);
            }
        }
        assert(!char_white_space(j[(ji.len() + 1) as int]));
    }
}

proof fn lemma_kept_words_identity(ws: Seq<Seq<char>>)
    requires
        forall|i: int| 0 <= i < ws.len() ==> is_title_word(#[trigger] ws[i]),
    ensures
        kept_words(ws) == ws,
    decreases ws.len(),
{
    if ws.len() == 0 {
        reveal_with_fuel(Seq::filter, 1);
        assert(kept_words(ws) =~= ws);
    } else {
        let init = ws.drop_last();
        assert forall|i: int| 0 <= i < init.len() implies is_title_word(#[trigger] init[i]) by {
            assert(init[i] == ws[i]);
        }
        lemma_kept_words_identity(init);
        let w = ws.last();
        assert(is_title_word(ws[ws.len() - 1]));
        assert(trim_start_non_alnum(w) == w);
        assert(trim_end_non_alnum(w) == w);
        lemma_kept_words_push(init, w);
        assert(init.push(w) =~= ws);
    }
}

/// The characters of the words of `s` are characters of `s` and no whitespace.
proof fn lemma_words_chars(s: Seq<char>)
    ensures
        forall|i: int, j: int|
            0 <= i < words(s).len() && 0 <= j < words(s)[i].len() ==> !word_separator(
                #[trigger] words(s)[i][j],
            ),
        forall|i: int| 0 <= i < words(s).len() ==> #[trigger] words(s)[i].len() > 0,
    decreases s.len(),
{
    if s.len() == 0 {
    } else if word_separator(s[0]) {
        lemma_words_chars(s.skip(1));
        assert(words(s) == words(s.skip(1)));
    } else {
        let k = word_len(s);
        lemma_word_len_bound(s);
        lemma_words_chars(s.skip(k as int));
        lemma_word_len_prefix_chars(s);
        let ws = words(s);
        assert(ws =~= seq![s.take(k as int)] + words(s.skip(k as int)));
        assert forall|i: int, j: int|
            0 <= i < ws.len() && 0 <= j < ws[i].len() implies !word_separator(
            #[trigger] ws[i][j],
        ) by {
            if i == 0 {
                assert(ws[0][j] == s[j]);
            } else {
                assert(ws[i] == words(s.skip(k as int))[i - 1]);
            }
        }
        assert forall|i: int| 0 <= i < ws.len() implies #[trigger] ws[i].len() > 0 by {
            if i > 0 {
                assert(ws[i] == words(s.skip(k as int))[i - 1]);
            }
        }
    }
}

proof fn lemma_word_len_prefix_chars(s: Seq<char>)
    ensures
        forall|i: int| 0 <= i < word_len(s) ==> !word_separator(#[trigger] s[i]),
    decreases s.len(),
{
    lemma_word_len_bound(s);
    if s.len() > 0 && !word_separator(s[0]) {
        lemma_word_len_prefix_chars(s.skip(1));
        assert forall|i: int| 0 <= i < word_len(s) implies !word_separator(#[trigger] s[i]) by {
            if i > 0 {
                assert(s[i] == s.skip(1)[i - 1]);
            }
        }
    }
}

proof fn lemma_trim_start_shape(w: Seq<char>)
    ensures
        exists|a: int| 0 <= a <= w.len() && trim_start_non_alnum(w) == w.skip(a),
        trim_start_non_alnum(w).len() > 0 ==> char_alphanumeric(trim_start_non_alnum(w)[0]),
    decreases w.len(),
{
    if w.len() > 0 && !char_alphanumeric(w[0]) {
        lemma_trim_start_shape(w.skip(1));
        let a = choose|a: int| 0 <= a <= w.skip(1).len() && trim_start_non_alnum(w.skip(1)) == w.skip(1).skip(a);
        assert(w.skip(1).skip(a) =~= w.skip(a + 1));
    } else {
        assert(w.skip(0) =~= w);
    }
}

proof fn lemma_trim_end_shape(w: Seq<char>)
    ensures
        exists|b: int| 0 <= b <= w.len() && trim_end_non_alnum(w) == w.take(b),
        trim_end_non_alnum(w).len() > 0 ==> char_alphanumeric(trim_end_non_alnum(w).last()),
    decreases w.len(),
{
    if w.len() > 0 && !char_alphanumeric(w.last()) {
        lemma_trim_end_shape(w.drop_last());
        let b = choose|b: int| 0 <= b <= w.drop_last().len() && trim_end_non_alnum(w.drop_last()) == w.drop_last().take(b);
        assert(w.drop_last().take(b) =~= w.take(b));
    } else {
        assert(w.take(w.len() as int) =~= w);
    }
}

/// A non-empty trimmed word of a word is a title word.
proof fn lemma_trim_title_word(w: Seq<char>)
    requires
        forall|i: int| 0 <= i < w.len() ==> !word_separator(#[trigger] w[i]),
        trim_non_alnum(w).len() > 0,
    ensures
        is_title_word(trim_non_alnum(w)),
{
    let u = trim_start_non_alnum(w);
    lemma_trim_start_shape(w);
    lemma_trim_end_shape(u);
    let a = choose|a: int| 0 <= a <= w.len() && u == w.skip(a);
    let b = choose|b: int| 0 <= b <= u.len() && trim_end_non_alnum(u) == u.take(b);
    let t = trim_non_alnum(w);
    assert(t == u.take(b));
    assert forall|i: int| 0 <= i < t.len() implies !word_separator(#[trigger] t[i]) by {
        assert(t[i] == w[a + i]);
    }
    assert(u.len() > 0);
    assert(t[0] == u[0]);
}

proof fn lemma_kept_words_title_words(ws: Seq<Seq<char>>)
    requires
        forall|i: int, j: int|
            0 <= i < ws.len() && 0 <= j < ws[i].len() ==> !word_separator(#[trigger] ws[i][j]),
    ensures
        forall|i: int| 0 <= i < kept_words(ws).len() ==> is_title_word(#[trigger] kept_words(ws)[i]),
    decreases ws.len(),
{
    if ws.len() == 0 {
        reveal_with_fuel(Seq::filter, 1);
    } else {
        let init = ws.drop_last();
        assert forall|i: int, j: int|
            0 <= i < init.len() && 0 <= j < init[i].len() implies !word_separator(
            #[trigger] init[i][j],
        ) by {
            assert(init[i] == ws[i]);
        }
        lemma_kept_words_title_words(init);
        let w = ws.last();
        lemma_kept_words_push(init, w);
        assert(init.push(w) =~= ws);
        if trim_non_alnum(w).len() > 0 {
            assert forall|j: int| 0 <= j < w.len() implies !word_separator(#[trigger] w[j]) by {
                assert(w[j] == ws[ws.len() - 1][j]);
            }
            lemma_trim_title_word(w);
        }
    }
}

/// A title that needed no shortening is stable.
pub proof fn lemma_unshortened_title_is_stable(raw: Seq<char>)
    requires
        full_title(raw).len() <= MAX_LEN,
    ensures
        is_stable_title(spec_sanitize_title(raw)),
{
    let s = first_content_line(raw);
    lemma_words_chars(s);
    lemma_kept_words_title_words(words(s));
    let ws = title_words(raw);
    let k = kept_words(words(s));
    assert forall|i: int| 0 <= i < ws.len() implies is_title_word(#[trigger] ws[i]) by {
        assert(ws[i] == k[i]);
    }
}

/// Law: a stable title followed by a line feed, as the title cache holds it, sanitizes
/// back to itself.
pub proof fn lemma_stable_title_round_trip(t: Seq<char>)
    requires
        is_stable_title(t),
    ensures
        spec_sanitize_title(t.push('\n')) == t,
{
    let ws = choose|ws: Seq<Seq<char>>|
        {
            &&& ws.len() <= MAX_WORDS
            &&& forall|i: int| 0 <= i < ws.len() ==> is_title_word(#[trigger] ws[i])
            &&& join_words(ws) == t
            &&& t.len() <= MAX_LEN
        };
    lemma_join_no_newline(ws);
    let s = t.push('\n');
    lemma_line_len_prefix(s);
    assert forall|i: int| 0 <= i < t.len() implies #[trigger] s[i] != '\n' by {
        assert(s[i] == t[i]);
    }
    assert(s[t.len() as int] == '\n');
    if line_len(s) < t.len() {
        assert(s[line_len(s) as int] == t[line_len(s) as int]);
    }
    assert(line_len(s) == t.len());
    assert(s.take(t.len() as int) =~= t);
    if ws.len() > 0 {
        assert(first_content_line(s) == t);
    } else {
        assert(t.len() == 0);
        assert(!has_content(t));
        assert(s.skip(1) =~= Seq::<char>::empty());
        assert(s.take(0) =~= Seq::<char>::empty());
        assert(!has_content(s.take(0)));
        assert(first_content_line(Seq::<char>::empty()) =~= Seq::<char>::empty());
        assert(first_content_line(s) =~= Seq::<char>::empty());
    }
    lemma_words_join(ws);
    lemma_kept_words_identity(ws);
}

} // verus!

verus! {

proof fn lemma_join_chars(ws: Seq<Seq<char>>)
    requires
        forall|i: int| 0 <= i < ws.len() ==> is_title_word(#[trigger] ws[i]),
    ensures
        forall|i: int|
            0 <= i < join_words(ws).len() ==> #[trigger] join_words(ws)[i] == ' ' || !word_separator(
                join_words(ws)[i],
            ),
    decreases ws.len(),
{
    if ws.len() == 1 {
        assert(is_title_word(ws[0]));
    } else if ws.len() > 1 {
        let init = ws.drop_last();
        assert forall|i: int| 0 <= i < init.len() implies is_title_word(#[trigger] init[i]) by {
            assert(init[i] == ws[i]);
        }
        lemma_join_chars(init);
        let j = join_words(ws);
        let ji = join_words(init);
        assert(is_title_word(ws[ws.len() - 1]));
        assert(j =~= ji.push(' ') + ws.last());
        assert forall|i: int| 0 <= i < j.len() implies #[trigger] j[i] == ' ' || !word_separator(
            j[i],
        ) by {
            if i < ji.len() {
                assert(j[i] == ji[i]);
            } else if i > ji.len() {
                assert(j[i] == ws.last()[i - ji.len() - 1]);
            }
        }
    }
}

proof fn lemma_trim_end_white_space_prefix(w: Seq<char>)
    ensures
        exists|b: int| 0 <= b <= w.len() && trim_end_white_space(w) == w.take(b),
    decreases w.len(),
{
    if w.len() > 0 && char_white_space(w.last()) {
        lemma_trim_end_white_space_prefix(w.drop_last());
        let b = choose|b: int|
            0 <= b <= w.drop_last().len() && trim_end_white_space(w.drop_last())
                == w.drop_last().take(b);
        assert(w.drop_last().take(b) =~= w.take(b));
    } else {
        assert(w.take(w.len() as int) =~= w);
    }
}

/// Law: a sanitized title holds no control character.
pub proof fn lemma_sanitized_title_has_no_control(raw: Seq<char>)
    ensures
        forall|i: int|
            0 <= i < spec_sanitize_title(raw).len() ==> !char_control(
                #[trigger] spec_sanitize_title(raw)[i],
            ),
{
    let s = first_content_line(raw);
    lemma_words_chars(s);
    lemma_kept_words_title_words(words(s));
    let ws = title_words(raw);
    let k = kept_words(words(s));
    assert forall|i: int| 0 <= i < ws.len() implies is_title_word(#[trigger] ws[i]) by {
        assert(ws[i] == k[i]);
    }
    lemma_join_chars(ws);
    let title = full_title(raw);
    assert(!char_control(' '));
    if title.len() > MAX_LEN {
        let cut = title.take(MAX_LEN - 1);
        lemma_trim_end_white_space_prefix(cut);
        let b = choose|b: int| 0 <= b <= cut.len() && trim_end_white_space(cut) == cut.take(b);
        let r = spec_sanitize_title(raw);
        assert(!char_control(ellipsis()));
        assert forall|i: int| 0 <= i < r.len() implies !char_control(#[trigger] r[i]) by {
            if i < b {
                assert(r[i] == title[i]);
            }
        }
    }
}

} // verus!

verus! {

/// The first line ends at the first line feed, or at the end.
proof fn lemma_line_len_at(s: Seq<char>, k: int)
    requires
        0 <= k <= s.len(),
        forall|i: int| 0 <= i < k ==> #[trigger] s[i] != '\n',
        k == s.len() || s[k] == '\n',
    ensures
        line_len(s) == k,
    decreases k,
{
    if k > 0 {
        assert forall|i: int| 0 <= i < k - 1 implies #[trigger] s.skip(1)[i] != '\n' by {
            assert(s.skip(1)[i] == s[i + 1]);
        }
        if k < s.len() {
            assert(s.skip(1)[k - 1] == s[k]);
        }
        lemma_line_len_at(s.skip(1), k - 1);
    }
}

proof fn lemma_first_content_line_push_newline(s: Seq<char>)
    ensures
        first_content_line(s.push('\n')) == first_content_line(s),
    decreases s.len(),
{
    let t = s.push('\n');
    lemma_line_len_prefix(s);
    let k = line_len(s);
    assert forall|i: int| 0 <= i < k implies #[trigger] t[i] != '\n' by {
        assert(t[i] == s[i]);
    }
    if k < s.len() {
        assert(t[k as int] == s[k as int]);
        lemma_line_len_at(t, k as int);
        assert(t.take(k as int) =~= s.take(k as int));
        assert(t.skip((k + 1) as int) =~= s.skip((k + 1) as int).push('\n'));
        lemma_first_content_line_push_newline(s.skip((k + 1) as int));
    } else {
        lemma_line_len_at(t, s.len() as int);
        assert(t.take(s.len() as int) =~= s);
        assert(t.skip((s.len() + 1) as int) =~= Seq::<char>::empty());
        assert(Seq::<char>::empty().take(0) =~= Seq::<char>::empty());
        assert(first_content_line(Seq::<char>::empty()) =~= Seq::<char>::empty());
    }
}

/// Law: a line feed at the end of a text does not change its title.
pub proof fn lemma_sanitize_ignores_final_line_feed(raw: Seq<char>)
    ensures
        spec_sanitize_title(raw.push('\n')) == spec_sanitize_title(raw),
{
    lemma_first_content_line_push_newline(raw);
}

/// Law: a stable title sanitizes to itself, with or without a final line feed.
pub proof fn lemma_stable_title_is_fixed(t: Seq<char>)
    requires
        is_stable_title(t),
    ensures
        spec_sanitize_title(t) == t,
        spec_sanitize_title(t.push('\n')) == t,
{
    lemma_stable_title_round_trip(t);
    lemma_sanitize_ignores_final_line_feed(t);
}

} // verus!
