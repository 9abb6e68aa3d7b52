use vstd::prelude::*;

verus! {

/// The characters that `char::is_whitespace` accepts: Unicode's White_Space.
pub open spec fn is_space(c: char) -> bool {
    ('\u{9}' <= c && c <= '\u{d}') || c == ' ' || c == '\u{85}' || c == '\u{a0}' || c == '\u{1680}'
        || ('\u{2000}' <= c && c <= '\u{200a}') || c == '\u{2028}' || c == '\u{2029}' || c
        == '\u{202f}' || c == '\u{205f}' || c == '\u{3000}'
}

/// The words of `s`: its maximal runs of characters that are not white space.
pub open spec fn words(s: Seq<char>) -> Seq<Seq<char>>
    decreases s.len(),
{
    if s.len() == 0 {
        seq![]
    } else {
        let p = s.drop_last();
        let c = s.last();
        let w = words(p);
        if is_space(c) {
            w
        } else if p.len() > 0 && !is_space(p.last()) {
            w.update(w.len() - 1, w.last().push(c))
        } else {
            w.push(seq![c])
        }
    }
}

/// Greedy packing of `ws` into lines of at most `max` characters, words
/// separated by one space; a word that does not fit after the current line
/// starts a new one, even where it is longer than `max` on its own.
pub open spec fn pack(ws: Seq<Seq<char>>, max: int) -> Seq<Seq<char>>
    decreases ws.len(),
{
    if ws.len() == 0 {
        seq![]
    } else {
        let w = ws.last();
        let lines = pack(ws.drop_last(), max);
        if lines.len() == 0 {
            seq![w]
        } else if lines.last().len() + 1 + w.len() <= max {
            lines.update(lines.len() - 1, lines.last() + seq![' '] + w)
        } else {
            lines.push(w)
        }
    }
}

/// `lines` joined by single newlines.
pub open spec fn join_lines(lines: Seq<Seq<char>>) -> Seq<char>
    decreases lines.len(),
{
    if lines.len() == 0 {
        seq![]
    } else if lines.len() == 1 {
        lines[0]
    } else {
        join_lines(lines.drop_last()) + seq!['\n'] + lines.last()
    }
}

/// The text `text` wrapped at `max` characters a line.
pub open spec fn wrapped(text: Seq<char>, max: int) -> Seq<char> {
    join_lines(pack(words(text), max))
}

/// A word: not empty, and free of white space.
pub open spec fn is_word(w: Seq<char>) -> bool {
    w.len() > 0 && forall|i: int| 0 <= i < w.len() ==> !is_space(#[trigger] w[i])
}

proof fn lemma_pack_len(ws: Seq<Seq<char>>, max: int)
    ensures
        (pack(ws, max).len() == 0) == (ws.len() == 0),
    decreases ws.len(),
{
    if ws.len() > 0 {
        lemma_pack_len(ws.drop_last(), max);
    }
}

/// Joining after the last line grew by `tail` is joining, then `tail`.
proof fn lemma_join_extend_last(lines: Seq<Seq<char>>, tail: Seq<char>)
    requires
        lines.len() > 0,
    ensures
        join_lines(lines.update(lines.len() - 1, lines.last() + tail)) == join_lines(lines) + tail,
{
    let n = lines.update(lines.len() - 1, lines.last() + tail);
    if lines.len() > 1 {
        assert(n.drop_last() =~= lines.drop_last());
    }
    assert(join_lines(n) =~= join_lines(lines) + tail);
}

proof fn lemma_join_push(lines: Seq<Seq<char>>, l: Seq<char>)
    requires
        lines.len() > 0,
    ensures
        join_lines(lines.push(l)) == join_lines(lines) + seq!['\n'] + l,
{
    assert(lines.push(l).drop_last() =~= lines);
}

} // verus!

verus! {

/// The words of `s` but the last where `s` ends inside a word.
spec fn finished_words(s: Seq<char>, in_word: bool) -> Seq<Seq<char>> {
    if in_word {
        words(s).drop_last()
    } else {
        words(s)
    }
}

/// Whether `c` is white space, as `char::is_whitespace` decides it.
fn is_whitespace(c: char) -> (r: bool)
    ensures
        r == is_space(c),
{
    ('\u{9}' <= c && c <= '\u{d}') || c == ' ' || c == '\u{85}' || c == '\u{a0}' || c == '\u{1680}'
        || ('\u{2000}' <= c && c <= '\u{200a}') || c == '\u{2028}' || c == '\u{2029}' || c
        == '\u{202f}' || c == '\u{205f}' || c == '\u{3000}'
}

/// Adds `word` to the wrapped text of the words `ws`: after a space on the
/// last line where it fits, else on a line of its own.
fn push_word(
    out: &mut String,
    line_len: &mut usize,
    started: bool,
    word: &str,
    word_len: usize,
    max: usize,
    Ghost(ws): Ghost<Seq<Seq<char>>>,
)
    requires
        old(out)@ == join_lines(pack(ws, max as int)),
        started == (ws.len() > 0),
        started ==> *old(line_len) == pack(ws, max as int).last().len(),
        word_len == word@.len(),
    ensures
        final(out)@ == join_lines(pack(ws.push(word@), max as int)),
        *final(line_len) == pack(ws.push(word@), max as int).last().len(),
{
    let ghost lines = pack(ws, max as int);
    proof {
        lemma_pack_len(ws, max as int);
        assert(ws.push(word@).drop_last() =~= ws);
        reveal_strlit(" ");
        reveal_strlit("\n");
    }
    if !started {
        out.append(word);
        *line_len = word_len;
        assert(out@ =~= join_lines(pack(ws.push(word@), max as int)));
    } else if *line_len < max && word_len <= max - *line_len - 1 {
        out.append(" ");
        out.append(word);
        *line_len = *line_len + 1 + word_len;
        proof {
            lemma_join_extend_last(lines, seq![' '] + word@);
            assert(lines.last() + seq![' '] + word@ =~= lines.last() + (seq![' '] + word@));
            assert(out@ =~= join_lines(lines) + (seq![' '] + word@));
        }
    } else {
        out.append("\n");
        out.append(word);
        *line_len = word_len;
        proof {
            lemma_join_push(lines, word@);
        }
    }
}

/// Wraps `text` into lines of at most `max_line_length` characters, breaking
/// only between words; a word longer than that stands alone on its line.
/// Words are the runs between white space; a line holds its words separated
/// by single spaces, and lines are joined by newlines.
pub fn wrap_textbetter(text: &str, max_line_length: usize) -> (r: String)
    ensures
        r@ == wrapped(text@, max_line_length as int),
{
    let n = text.unicode_len();
    let mut out = String::new();
    let mut line_len: usize = 0;
    let mut started = false;
    let mut start: usize = 0;
    let mut in_word = false;
    let mut i: usize = 0;
    while i < n
        invariant
            i <= n,
            n == text@.len(),
            in_word ==> start < i,
            in_word == (i > 0 && !is_space(text@[i - 1])),
            in_word ==> words(text@.take(i as int)).len() > 0 && words(text@.take(i as int)).last()
                == text@.subrange(start as int, i as int),
            out@ == join_lines(pack(finished_words(text@.take(i as int), in_word), max_line_length as int)),
            started == (finished_words(text@.take(i as int), in_word).len() > 0),
            started ==> line_len == pack(finished_words(text@.take(i as int), in_word), max_line_length as int).last().len(),
        decreases n - i,
    {
        let ghost ws = words(text@.take(i as int));
        proof {
            assert(text@.take(i + 1).drop_last() =~= text@.take(i as int));
            assert(text@.take(i + 1).last() == text@[i as int]);
        }
        let c = text.get_char(i);
        if is_whitespace(c) {
            if in_word {
                let w = text.substring_char(start, i);
                push_word(&mut out, &mut line_len, started, w, i - start, max_line_length, Ghost(ws.drop_last()));
                started = true;
                in_word = false;
                assert(ws.drop_last().push(ws.last()) =~= ws);
            }
        } else if !in_word {
            start = i;
            in_word = true;
            assert(words(text@.take(i + 1)) == ws.push(seq![c]));
            assert(ws.push(seq![c]).drop_last() =~= ws);
            assert(text@.subrange(i as int, i + 1) =~= seq![c]);
        } else {
            assert(words(text@.take(i + 1)) == ws.update(ws.len() - 1, ws.last().push(c)));
            assert(ws.update(ws.len() - 1, ws.last().push(c)).drop_last() =~= ws.drop_last());
            assert(text@.subrange(start as int, i + 1) =~= text@.subrange(start as int, i as int).push(c));
        }
        i = i + 1;
    }
    proof {
        assert(text@.take(n as int) =~= text@);
    }
    if in_word {
        let ghost ws = words(text@);
        let w = text.substring_char(start, n);
        push_word(&mut out, &mut line_len, started, w, n - start, max_line_length, Ghost(ws.drop_last()));
        assert(ws.drop_last().push(ws.last()) =~= ws);
    }
    out
}

} // verus!

verus! {

proof fn lemma_words_nonempty(s: Seq<char>)
    requires
        s.len() > 0,
        !is_space(s.last()),
    ensures
        words(s).len() > 0,
    decreases s.len(),
{
    let p = s.drop_last();
    if p.len() > 0 && !is_space(p.last()) {
        lemma_words_nonempty(p);
    }
}

proof fn lemma_words_of_word(w: Seq<char>)
    requires
        is_word(w),
    ensures
        words(w) == seq![w],
    decreases w.len(),
{
    let p = w.drop_last();
    assert(!is_space(w[w.len() - 1]));
    if p.len() == 0 {
        assert(w =~= seq![w.last()]);
        assert(words(p) =~= seq![]);
        assert(words(w) =~= seq![w]);
    } else {
        assert(is_word(p)) by {
            assert forall|i: int| 0 <= i < p.len() implies !is_space(#[trigger] p[i]) by {
                assert(p[i] == w[i]);
            }
        }
        lemma_words_of_word(p);
        assert(!is_space(p[p.len() - 1]));
        assert(p.push(w.last()) =~= w);
        assert(words(w) =~= seq![w]);
    }
}

/// Words on either side of a white space character are counted apart.
proof fn lemma_words_split(a: Seq<char>, sep: char, b: Seq<char>)
    requires
        is_space(sep),
    ensures
        words(a + seq![sep] + b) == words(a) + words(b),
    decreases b.len(),
{
    let x = a + seq![sep] + b;
    if b.len() == 0 {
        assert(x.drop_last() =~= a);
        assert(words(b) =~= seq![]);
        assert(words(a) + words(b) =~= words(a));
    } else {
        let bp = b.drop_last();
        let c = b.last();
        let xp = a + seq![sep] + bp;
        assert(x.drop_last() =~= xp);
        lemma_words_split(a, sep, bp);
        if is_space(c) {
        } else if xp.len() > 0 && !is_space(xp.last()) {
            if bp.len() == 0 {
                assert(xp.last() == sep);
            }
            assert(bp.len() > 0);
            assert(xp.last() == bp.last());
            lemma_words_nonempty(bp);
            let wa = words(a);
            let wb = words(bp);
            assert((wa + wb).update((wa + wb).len() - 1, (wa + wb).last().push(c)) =~= wa + wb.update(
                wb.len() - 1,
                wb.last().push(c),
            ));
        } else {
            if bp.len() > 0 {
                assert(xp.last() == bp.last());
            }
            assert((words(a) + words(bp)).push(seq![c]) =~= words(a) + words(bp).push(seq![c]));
        }
    }
}

proof fn lemma_words_are_words(s: Seq<char>)
    ensures
        forall|i: int| 0 <= i < words(s).len() ==> is_word(#[trigger] words(s)[i]),
    decreases s.len(),
{
    if s.len() > 0 {
        let p = s.drop_last();
        let c = s.last();
        lemma_words_are_words(p);
        let w = words(p);
        if !is_space(c) && p.len() > 0 && !is_space(p.last()) {
            lemma_words_nonempty(p);
            let g = w.last().push(c);
            assert(is_word(w[w.len() - 1]));
            assert(is_word(g)) by {
                assert forall|i: int| 0 <= i < g.len() implies !is_space(#[trigger] g[i]) by {
                    if i < g.len() - 1 {
                        assert(!is_space(w[w.len() - 1][i]));
                    }
                }
            }
        } else if !is_space(c) {
            assert(is_word(seq![c])) by {
                assert forall|i: int| 0 <= i < 1 implies !is_space(#[trigger] seq![c][i]) by {}
            }
        }
    }
}

/// Reading the words back out of packed, joined lines gives the words again.
proof fn lemma_words_of_packed(ws: Seq<Seq<char>>, max: int)
    requires
        forall|i: int| 0 <= i < ws.len() ==> is_word(#[trigger] ws[i]),
    ensures
        words(join_lines(pack(ws, max))) == ws,
    decreases ws.len(),
{
    if ws.len() > 0 {
        let wp = ws.drop_last();
        let w = ws.last();
        let lines = pack(wp, max);
        assert(is_word(ws[ws.len() - 1]));
        lemma_pack_len(wp, max);
        lemma_words_of_word(w);
        if lines.len() == 0 {
            assert(ws =~= seq![w]);
        } else {
            assert forall|i: int| 0 <= i < wp.len() implies is_word(#[trigger] wp[i]) by {
                assert(wp[i] == ws[i]);
            }
            lemma_words_of_packed(wp, max);
            let sep = if lines.last().len() + 1 + w.len() <= max {
                lemma_join_extend_last(lines, seq![' '] + w);
                assert(lines.last() + seq![' '] + w =~= lines.last() + (seq![' '] + w));
                ' '
            } else {
                lemma_join_push(lines, w);
                '\n'
            };
            assert(join_lines(pack(ws, max)) =~= join_lines(lines) + seq![sep] + w);
            lemma_words_split(join_lines(lines), sep, w);
            assert(wp.push(w) =~= ws);
        }
    }
}

/// Wrapping is idempotent: wrapping wrapped text again at the same width
/// changes nothing.
pub proof fn lemma_wrap_idempotent(text: Seq<char>, max: int)
    ensures
        wrapped(wrapped(text, max), max) == wrapped(text, max),
{
    lemma_words_are_words(text);
    lemma_words_of_packed(words(text), max);
}

/// Each packed line is at most `max` characters long, or is one word alone.
pub proof fn lemma_lines_fit(ws: Seq<Seq<char>>, max: int)
    ensures
        forall|i: int|
            0 <= i < pack(ws, max).len() ==> (#[trigger] pack(ws, max)[i]).len() <= max || ws.contains(
                pack(ws, max)[i],
            ),
    decreases ws.len(),
{
    if ws.len() > 0 {
        let wp = ws.drop_last();
        let w = ws.last();
        lemma_lines_fit(wp, max);
        let lines = pack(wp, max);
        let r = pack(ws, max);
        assert(ws[ws.len() - 1] == w);
        assert forall|i: int| 0 <= i < r.len() implies (#[trigger] r[i]).len() <= max || ws.contains(r[i]) by {
            if i < lines.len() && r[i] == lines[i] && lines[i].len() > max {
                let j = choose|j: int| 0 <= j < wp.len() && wp[j] == lines[i];
                assert(ws[j] == wp[j]);
            }
        }
    }
}

} // verus!
