//! The small Markdown subset that the AI analysis is rendered from:
//! `##`/`###` headings, `-`/`*` list items, paragraphs, and `**bold**`.
use vstd::prelude::*;
use crate::text::{chars_of, chars_from, has_prefix, push_chars, push_text, starts_with, string_of, trim, trim_chars};

verus! {

// ---------------------------------------------------------------------
// Lines (`str::lines`)
// ---------------------------------------------------------------------

/// The texts held by a vector of character vectors.
pub open spec fn texts_view(v: Seq<Vec<char>>) -> Seq<Seq<char>> {
    v.map_values(|x: Vec<char>| x@)
}

/// A line that ended in "\r\n" loses its carriage return.
pub open spec fn strip_cr(line: Seq<char>) -> Seq<char> {
    if line.len() > 0 && line.last() == '\r' {
        line.drop_last()
    } else {
        line
    }
}

/// The lines finished so far and the unfinished line, after reading `s`.
pub open spec fn line_state(s: Seq<char>) -> (Seq<Seq<char>>, Seq<char>)
    decreases s.len(),
{
    if s.len() == 0 {
        (seq![], seq![])
    } else {
        let (done, cur) = line_state(s.drop_last());
        if s.last() == '\n' {
            (done.push(strip_cr(cur)), seq![])
        } else {
            (done, cur.push(s.last()))
        }
    }
}

/// The lines of a text as `str::lines` yields them: split at "\n" or
/// "\r\n", with no empty line after a final line ending.
pub open spec fn text_lines(s: Seq<char>) -> Seq<Seq<char>> {
    let (done, cur) = line_state(s);
    if cur.len() > 0 {
        done.push(cur)
    } else {
        done
    }
}

fn strip_cr_exec(line: Vec<char>) -> (r: Vec<char>)
    ensures
        r@ == strip_cr(line@),
{
    let ghost original = line@;
    let mut line = line;
    if line.len() > 0 && line[line.len() - 1] == '\r' {
        line.pop();
        assert(line@ =~= strip_cr(original));
    }
    line
}

/// The lines of a text (`str::lines`).
pub fn lines_of(s: &Vec<char>) -> (lines: Vec<Vec<char>>)
    ensures
        texts_view(lines@) == text_lines(s@),
{
    let mut done: Vec<Vec<char>> = Vec::new();
    let mut cur: Vec<char> = Vec::new();
    let mut i: usize = 0;
    assert(s@.take(0) =~= Seq::<char>::empty());
    while i < s.len()
        invariant
            i <= s.len(),
            (texts_view(done@), cur@) == line_state(s@.take(i as int)),
        decreases s.len() - i,
    {
        let c = s[i];
        assert(s@.take(i + 1).drop_last() =~= s@.take(i as int));
        if c == '\n' {
            let finished = strip_cr_exec(cur);
            let ghost prev = texts_view(done@);
            let ghost fin = finished@;
            done.push(finished);
            assert(texts_view(done@) =~= prev.push(fin));
            cur = Vec::new();
        } else {
            cur.push(c);
        }
        i = i + 1;
        assert(cur@ == line_state(s@.take(i as int)).1);
    }
    assert(s@.take(s.len() as int) =~= s@);
    if cur.len() > 0 {
        let ghost prev = texts_view(done@);
        let ghost last = cur@;
        done.push(cur);
        assert(texts_view(done@) =~= prev.push(last));
    }
    done
}

// ---------------------------------------------------------------------
// Inline markup
// ---------------------------------------------------------------------

/// Whether `t` holds "**" at position `k`.
pub open spec fn star_pair_at(t: Seq<char>, k: int) -> bool {
    0 <= k && k + 1 < t.len() && t[k] == '*' && t[k + 1] == '*'
}

/// The first position at or after `k` that holds "**", or -1 if none does.
pub open spec fn star_pair_from(t: Seq<char>, k: int) -> int
    decreases t.len() - k,
{
    if k < 0 || k + 1 >= t.len() {
        -1
    } else if star_pair_at(t, k) {
        k
    } else {
        star_pair_from(t, k + 1)
    }
}

/// Where `star_pair_from` lands: on a "**", with none before it.
pub proof fn lemma_star_pair_from(t: Seq<char>, k: int)
    requires
        0 <= k,
    ensures
        star_pair_from(t, k) == -1 || (k <= star_pair_from(t, k) && star_pair_at(
            t,
            star_pair_from(t, k),
        )),
        forall|j: int|
            k <= j && (star_pair_from(t, k) == -1 || j < star_pair_from(t, k)) ==> !star_pair_at(
                t,
                j,
            ),
    decreases t.len() - k,
{
    if k + 1 < t.len() && !star_pair_at(t, k) {
        lemma_star_pair_from(t, k + 1);
    }
}

/// The HTML of `t` from position `i` on: every "**" opens a bold span that
/// the next "**" closes, or the end of the text if none follows; all other
/// characters are copied.
pub open spec fn inline_from(t: Seq<char>, i: int) -> Seq<char>
    decreases t.len() - i,
{
    if i < 0 || i >= t.len() {
        seq![]
    } else if star_pair_at(t, i) {
        let j = star_pair_from(t, i + 2);
        if j < 0 {
            "<strong>"@ + t.subrange(i + 2, t.len() as int) + "</strong>"@
        } else {
            proof {
                lemma_star_pair_from(t, i + 2);
            }
            "<strong>"@ + t.subrange(i + 2, j) + "</strong>"@ + inline_from(t, j + 2)
        }
    } else {
        seq![t[i]] + inline_from(t, i + 1)
    }
}

/// The HTML of a line's inline markup.
pub open spec fn inline_html(t: Seq<char>) -> Seq<char> {
    inline_from(t, 0)
}

fn star_pair_exec(t: &Vec<char>, k: usize) -> (b: bool)
    ensures
        b == star_pair_at(t@, k as int),
{
    k < t.len() && k + 1 < t.len() && t[k] == '*' && t[k + 1] == '*'
}

/// The inline HTML of the characters `t`.
pub fn inline_chars(t: &Vec<char>) -> (out: Vec<char>)
    ensures
        out@ == inline_html(t@),
{
    let open_tag = chars_of("<strong>");
    let close_tag = chars_of("</strong>");
    let mut out: Vec<char> = Vec::new();
    let mut i: usize = 0;
    while i < t.len()
        invariant
            i <= t.len(),
            open_tag@ == "<strong>"@,
            close_tag@ == "</strong>"@,
            out@ + inline_from(t@, i as int) == inline_html(t@),
        decreases t.len() - i,
    {
        let ghost before = out@;
        if star_pair_exec(t, i) {
            // Find the closing "**".
            let mut j: usize = i + 2;
            let mut found = false;
            while j < t.len() && !found
                invariant
                    i + 2 <= j <= t.len(),
                    star_pair_at(t@, i as int),
                    found ==> (star_pair_at(t@, j as int) && star_pair_from(t@, (i + 2) as int)
                        == j),
                    !found ==> star_pair_from(t@, (i + 2) as int) == star_pair_from(
                        t@,
                        j as int,
                    ),
                decreases t.len() - j + (if found { 0int } else { 1int }),
            {
                if star_pair_exec(t, j) {
                    found = true;
                } else {
                    j = j + 1;
                }
            }
            for k in 0..open_tag.len()
                invariant
                    out@ == before + open_tag@.take(k as int),
            {
                out.push(open_tag[k]);
                assert(out@ =~= before + open_tag@.take(k + 1));
            }
            let ghost mid = out@;
            for k in (i + 2)..j
                invariant
                    i + 2 <= j <= t.len(),
                    out@ == mid + t@.subrange(i + 2, k as int),
            {
                out.push(t[k]);
                assert(out@ =~= mid + t@.subrange(i + 2, k + 1));
            }
            let ghost mid2 = out@;
            for k in 0..close_tag.len()
                invariant
                    out@ == mid2 + close_tag@.take(k as int),
            {
                out.push(close_tag[k]);
                assert(out@ =~= mid2 + close_tag@.take(k + 1));
            }
            assert(open_tag@.take(open_tag@.len() as int) =~= open_tag@);
            assert(close_tag@.take(close_tag@.len() as int) =~= close_tag@);
            if found {
                proof {
                    lemma_star_pair_from(t@, (i + 2) as int);
                }
                assert(out@ =~= before + ("<strong>"@ + t@.subrange(i + 2, j as int)
                    + "</strong>"@));
                i = j + 2;
            } else {
                assert(star_pair_from(t@, j as int) == -1);
                assert(j == t.len());
                assert(out@ =~= before + ("<strong>"@ + t@.subrange(i + 2, t.len() as int)
                    + "</strong>"@));
                i = t.len();
                assert(inline_from(t@, i as int) =~= Seq::<char>::empty());
            }
        } else {
            out.push(t[i]);
            assert(out@ =~= before + seq![t@[i as int]]);
            i = i + 1;
        }
    }
    assert(out@ + inline_from(t@, i as int) =~= out@);
    out
}

/// The inline HTML of a line: `**text**` becomes `<strong>text</strong>`
/// (an unclosed `**` runs to the end of the line); every other character
/// is kept.
pub fn process_inline(text: &str) -> (html: String)
    ensures
        html@ == inline_html(text@),
{
    let t = chars_of(text);
    let out = inline_chars(&t);
    string_of(&out)
}

// ---------------------------------------------------------------------
// Blocks
// ---------------------------------------------------------------------

/// `t` with the prefix `p` removed.
pub open spec fn after(t: Seq<char>, p: Seq<char>) -> Seq<char> {
    t.skip(p.len() as int)
}

/// The HTML that a list in progress is closed with.
pub open spec fn list_close(in_list: bool) -> Seq<char> {
    if in_list {
        "</ul>\n"@
    } else {
        seq![]
    }
}

/// Reading one line: the HTML so far and whether a list is open, before
/// and after. Headings of level 2 and 3 become `<h3>`, lines starting with
/// "- " or "* " become list items, blank lines close a list, and any other
/// line becomes a paragraph; a list is closed before any non-item line.
pub open spec fn block_step(state: (Seq<char>, bool), line: Seq<char>) -> (Seq<char>, bool) {
    let t = trim(line);
    let html = state.0;
    let in_list = state.1;
    if has_prefix(t, "### "@) {
        (html + list_close(in_list) + "<h3>"@ + after(t, "### "@) + "</h3>\n"@, false)
    } else if has_prefix(t, "## "@) {
        (html + list_close(in_list) + "<h3>"@ + after(t, "## "@) + "</h3>\n"@, false)
    } else if has_prefix(t, "- "@) || has_prefix(t, "* "@) {
        (
            html + (if in_list {
                Seq::<char>::empty()
            } else {
                "<ul>\n"@
            }) + "  <li>"@ + inline_html(after(t, "- "@)) + "</li>\n"@,
            true,
        )
    } else if t.len() == 0 {
        (html + list_close(in_list), false)
    } else {
        (html + list_close(in_list) + "<p>"@ + inline_html(t) + "</p>\n"@, false)
    }
}

/// The state after reading all of `lines`.
pub open spec fn block_fold(lines: Seq<Seq<char>>) -> (Seq<char>, bool)
    decreases lines.len(),
{
    if lines.len() == 0 {
        (seq![], false)
    } else {
        block_step(block_fold(lines.drop_last()), lines.last())
    }
}

/// The HTML of a Markdown text: its lines read in order, and a list still
/// open at the end closed.
pub open spec fn markdown_html(md: Seq<char>) -> Seq<char> {
    let (html, in_list) = block_fold(text_lines(md));
    html + list_close(in_list)
}

/// Reading one character after another: a text whose reading ended on a
/// line break is followed by the lines of the next text as read alone.
pub proof fn lemma_line_state_append(p: Seq<char>, s: Seq<char>)
    requires
        line_state(p).1 == Seq::<char>::empty(),
    ensures
        line_state(p + s) == (line_state(p).0 + line_state(s).0, line_state(s).1),
    decreases s.len(),
{
    if s.len() == 0 {
        assert(p + s =~= p);
        assert(line_state(p).0 + line_state(s).0 =~= line_state(p).0);
    } else {
        assert((p + s).drop_last() =~= p + s.drop_last());
        assert((p + s).last() == s.last());
        lemma_line_state_append(p, s.drop_last());
        let d = line_state(p).0;
        let ds = line_state(s.drop_last()).0;
        assert((d + ds).push(strip_cr(line_state(s.drop_last()).1)) =~= d + ds.push(
            strip_cr(line_state(s.drop_last()).1),
        ));
    }
}

/// The state after reading `lines` from `state` on.
pub open spec fn block_fold_from(state: (Seq<char>, bool), lines: Seq<Seq<char>>) -> (Seq<char>, bool)
    decreases lines.len(),
{
    if lines.len() == 0 {
        state
    } else {
        block_step(block_fold_from(state, lines.drop_last()), lines.last())
    }
}

/// Reading from the start is reading from the empty state.
pub proof fn lemma_block_fold_from_start(lines: Seq<Seq<char>>)
    ensures
        block_fold(lines) == block_fold_from((Seq::<char>::empty(), false), lines),
    decreases lines.len(),
{
    if lines.len() > 0 {
        lemma_block_fold_from_start(lines.drop_last());
    }
}

/// Reading two runs of lines is reading the first and then the second.
pub proof fn lemma_block_fold_from_append(state: (Seq<char>, bool), l1: Seq<Seq<char>>, l2: Seq<Seq<char>>)
    ensures
        block_fold_from(state, l1 + l2) == block_fold_from(block_fold_from(state, l1), l2),
    decreases l2.len(),
{
    if l2.len() == 0 {
        assert(l1 + l2 =~= l1);
    } else {
        assert((l1 + l2).drop_last() =~= l1 + l2.drop_last());
        assert((l1 + l2).last() == l2.last());
        lemma_block_fold_from_append(state, l1, l2.drop_last());
    }
}

/// One line read after HTML `x + h` appends what it appends after `h`.
pub proof fn lemma_block_step_shift(x: Seq<char>, h: Seq<char>, open: bool, line: Seq<char>)
    ensures
        block_step((x + h, open), line) == (x + block_step((h, open), line).0, block_step((h, open), line).1),
{
    let t = trim(line);
    let r = block_step((h, open), line);
    let q = block_step((x + h, open), line);
    assert(r.0.len() >= h.len());
    assert(q.0 =~= x + r.0);
}

/// Lines read after HTML `x + h` append what they append after `h`.
pub proof fn lemma_block_fold_from_shift(x: Seq<char>, h: Seq<char>, open: bool, lines: Seq<Seq<char>>)
    ensures
        block_fold_from((x + h, open), lines) == (
            x + block_fold_from((h, open), lines).0,
            block_fold_from((h, open), lines).1,
        ),
    decreases lines.len(),
{
    if lines.len() > 0 {
        lemma_block_fold_from_shift(x, h, open, lines.drop_last());
        let r = block_fold_from((h, open), lines.drop_last());
        lemma_block_step_shift(x, r.0, r.1, lines.last());
    }
}

/// Converts the Markdown subset used by the AI analysis to HTML.
pub fn markdown_to_html(md: &str) -> (html: String)
    ensures
        html@ == markdown_html(md@),
{
    let md_chars = chars_of(md);
    let lines = lines_of(&md_chars);
    let h3 = chars_of("### ");
    let h2 = chars_of("## ");
    let dash = chars_of("- ");
    let star = chars_of("* ");
    proof {
        reveal_strlit("- ");
        reveal_strlit("* ");
    }
    let mut html = String::new();
    let mut in_list = false;
    let mut i: usize = 0;
    let ghost all = texts_view(lines@);
    assert(all.take(0) =~= Seq::<Seq<char>>::empty());
    while i < lines.len()
        invariant
            i <= lines.len(),
            all == texts_view(lines@),
            all == text_lines(md@),
            h3@ == "### "@,
            h2@ == "## "@,
            dash@ == "- "@,
            star@ == "* "@,
            dash@.len() == 2,
            star@.len() == 2,
            (html@, in_list) == block_fold(all.take(i as int)),
        decreases lines.len() - i,
    {
        assert(all.take(i + 1).drop_last() =~= all.take(i as int));
        assert(all[i as int] == lines[i as int]@);
        let t = trim_chars(&lines[i]);
        if starts_with(&t, &h3) {
            if in_list {
                push_text(&mut html, "</ul>\n");
                in_list = false;
            }
            push_text(&mut html, "<h3>");
            push_chars(&mut html, &chars_from(&t, h3.len()));
            push_text(&mut html, "</h3>\n");
        } else if starts_with(&t, &h2) {
            if in_list {
                push_text(&mut html, "</ul>\n");
                in_list = false;
            }
            push_text(&mut html, "<h3>");
            push_chars(&mut html, &chars_from(&t, h2.len()));
            push_text(&mut html, "</h3>\n");
        } else if starts_with(&t, &dash) || starts_with(&t, &star) {
            if !in_list {
                push_text(&mut html, "<ul>\n");
                in_list = true;
            }
            push_text(&mut html, "  <li>");
            let item = inline_chars(&chars_from(&t, 2));
            push_chars(&mut html, &item);
            push_text(&mut html, "</li>\n");
        } else if t.len() == 0 {
            if in_list {
                push_text(&mut html, "</ul>\n");
                in_list = false;
            }
        } else {
            if in_list {
                push_text(&mut html, "</ul>\n");
                in_list = false;
            }
            push_text(&mut html, "<p>");
            let para = inline_chars(&t);
            push_chars(&mut html, &para);
            push_text(&mut html, "</p>\n");
        }
        i = i + 1;
        assert((html@, in_list) == block_fold(all.take(i as int)));
    }
    assert(all.take(lines.len() as int) =~= all);
    if in_list {
        push_text(&mut html, "</ul>\n");
    }
    html
}

} // verus!
