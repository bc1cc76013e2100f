//! The Line Serializer: turns one highlight event stream into an HTML table,
//! one row per source line.
//!
//! Every byte range tagged with an attribute index is wrapped in a `<span>`
//! carrying that index's decoration; bytes outside any highlighted range are
//! emitted undecorated, and an index without a decoration gets a bare
//! `<span>` (fail-open).  The markup characters `<`, `>`, `&`, `'` and `"`
//! are escaped, carriage returns are dropped, and at every line feed the open
//! spans are closed and reopened so each table row is self-contained.  Rows
//! are numbered from zero and their content is emitted with trailing
//! whitespace trimmed.  A source that ends in a line feed gets no extra empty
//! row for the text after it; an empty source still renders one (empty) row.
//!
//! The whole output is pinned down, byte for byte, by [`table_bytes`].

use vstd::prelude::*;
use vstd::utf8::{decode_utf8, encode_utf8, encode_utf8_decode_utf8, is_ascii_chars_encode_utf8};
use crate::events::HighlightEvent;

verus! {

/// The serializer's intermediate state: the finished lines, the line being
/// accumulated, and the stack of open attribute indices.
pub struct SerState {
    pub done: Seq<Seq<u8>>,
    pub cur: Seq<u8>,
    pub stack: Seq<usize>,
}

/// The finished lines of `done`, each as a byte sequence.
pub open spec fn lines_view(done: Seq<Vec<u8>>) -> Seq<Seq<u8>> {
    done.map_values(|v: Vec<u8>| v@)
}

/// The decoration table as plain sequences.
pub open spec fn decor_view(d: Seq<Option<String>>) -> Seq<Option<Seq<char>>> {
    d.map_values(
        |o: Option<String>|
            match o {
                Some(s) => Some(s@),
                None => None,
            },
    )
}

/// The decoration of attribute `i`: none when the table has no entry for it.
pub open spec fn decoration_at(decor: Seq<Option<Seq<char>>>, i: usize) -> Option<Seq<char>> {
    if i < decor.len() {
        decor[i as int]
    } else {
        None
    }
}

/// The opening tag for a span with decoration `d`: a bare `<span>` when
/// there is no decoration.
pub open spec fn open_tag(d: Option<Seq<char>>) -> Seq<u8> {
    match d {
        Some(a) => encode_utf8("<span "@) + encode_utf8(a) + encode_utf8(">"@),
        None => encode_utf8("<span>"@),
    }
}

/// The closing tag of a span.
pub open spec fn close_tag() -> Seq<u8> {
    encode_utf8("</span>"@)
}

/// `n` closing tags.
pub open spec fn closes(n: nat) -> Seq<u8>
    decreases n,
{
    if n == 0 {
        Seq::empty()
    } else {
        closes((n - 1) as nat) + close_tag()
    }
}

/// The opening tags of every index on `stack`, outermost first.
pub open spec fn opens(stack: Seq<usize>, decor: Seq<Option<Seq<char>>>) -> Seq<u8>
    decreases stack.len(),
{
    if stack.len() == 0 {
        Seq::empty()
    } else {
        opens(stack.drop_last(), decor) + open_tag(decoration_at(decor, stack.last()))
    }
}

/// How one source byte is emitted: the HTML escape of the five markup
/// characters, the byte itself otherwise.  Line feeds and carriage returns
/// never reach this function.
pub open spec fn esc_byte(b: u8) -> Seq<u8> {
    if b == 60 {  // '<'
        encode_utf8("&lt;"@)
    } else if b == 62 {  // '>'
        encode_utf8("&gt;"@)
    } else if b == 38 {  // '&'
        encode_utf8("&amp;"@)
    } else if b == 39 {  // '\''
        encode_utf8("&#39;"@)
    } else if b == 34 {  // '"'
        encode_utf8("&quot;"@)
    } else {
        seq![b]
    }
}

/// One source byte applied to the serializer state: carriage returns are
/// dropped; a line feed finishes the current line (closing the open spans)
/// and starts the next one (reopening them); every other byte is emitted,
/// escaped, into the current line.
pub open spec fn step_byte(st: SerState, decor: Seq<Option<Seq<char>>>, b: u8) -> SerState {
    if b == 13 {  // '\r'
        st
    } else if b == 10 {  // '\n'
        SerState {
            done: st.done.push(st.cur + closes(st.stack.len())),
            cur: opens(st.stack, decor),
            stack: st.stack,
        }
    } else {
        SerState { done: st.done, cur: st.cur + esc_byte(b), stack: st.stack }
    }
}

/// A run of source bytes applied to the state, in order.
pub open spec fn step_text(st: SerState, decor: Seq<Option<Seq<char>>>, bytes: Seq<u8>) -> SerState
    decreases bytes.len(),
{
    if bytes.len() == 0 {
        st
    } else {
        step_byte(step_text(st, decor, bytes.drop_last()), decor, bytes.last())
    }
}

/// The byte range `start..end` of `source`, clamped to the source bounds;
/// empty when the range is reversed.
pub open spec fn clamped(source: Seq<u8>, start: usize, end: usize) -> Seq<u8> {
    let lo = if start as int <= source.len() {
        start as int
    } else {
        source.len() as int
    };
    let hi = if end as int <= source.len() {
        end as int
    } else {
        source.len() as int
    };
    if lo <= hi {
        source.subrange(lo, hi)
    } else {
        Seq::empty()
    }
}

/// One event applied to the state.  A start event opens a span and pushes
/// its index; an end event emits a closing tag and pops the innermost index
/// (and is tolerated, though never produced by a well-formed stream, on an
/// empty stack); a source event emits its bytes.
pub open spec fn step_event(
    st: SerState,
    decor: Seq<Option<Seq<char>>>,
    source: Seq<u8>,
    ev: HighlightEvent,
) -> SerState {
    match ev {
        HighlightEvent::Source { start, end } => step_text(st, decor, clamped(source, start, end)),
        HighlightEvent::HighlightStart { index } => SerState {
            done: st.done,
            cur: st.cur + open_tag(decoration_at(decor, index)),
            stack: st.stack.push(index),
        },
        HighlightEvent::HighlightEnd => SerState {
            done: st.done,
            cur: st.cur + close_tag(),
            stack: if st.stack.len() > 0 {
                st.stack.drop_last()
            } else {
                st.stack
            },
        },
    }
}

/// The serializer's starting state: nothing emitted, no open spans.
pub open spec fn init_state() -> SerState {
    SerState { done: Seq::empty(), cur: Seq::empty(), stack: Seq::empty() }
}

/// The state after the whole event stream.
pub open spec fn run_events(
    decor: Seq<Option<Seq<char>>>,
    source: Seq<u8>,
    events: Seq<HighlightEvent>,
) -> SerState
    decreases events.len(),
{
    if events.len() == 0 {
        init_state()
    } else {
        step_event(run_events(decor, source, events.drop_last()), decor, source, events.last())
    }
}

/// The rows of the table: the finished lines, plus the line still being
/// accumulated when it is non-empty — or when there is no line at all, so
/// that an empty document still renders one empty row.
pub open spec fn final_lines(
    decor: Seq<Option<Seq<char>>>,
    source: Seq<u8>,
    events: Seq<HighlightEvent>,
) -> Seq<Seq<u8>> {
    let st = run_events(decor, source, events);
    if st.cur.len() > 0 || st.done.len() == 0 {
        st.done.push(st.cur)
    } else {
        st.done
    }
}

/// Whether `b` counts as trailing whitespace of a row's content.
pub open spec fn is_trim_ws(b: u8) -> bool {
    b == 32 || b == 9 || b == 10 || b == 13
}

/// `s` without its trailing whitespace.
pub open spec fn trim_end_bytes(s: Seq<u8>) -> Seq<u8>
    decreases s.len(),
{
    if s.len() > 0 && is_trim_ws(s.last()) {
        trim_end_bytes(s.drop_last())
    } else {
        s
    }
}

/// The decimal digits of `n`.
pub open spec fn dec_digits(n: nat) -> Seq<u8>
    decreases n,
{
    if n < 10 {
        seq![(48 + n) as u8]
    } else {
        dec_digits(n / 10) + seq![(48 + n % 10) as u8]
    }
}

/// Table row `i` holding `line`: a line-number cell and a content cell with
/// the trailing whitespace trimmed.
pub open spec fn row_bytes(i: nat, line: Seq<u8>) -> Seq<u8> {
    encode_utf8("           <tr><td class=line-number>"@) + dec_digits(i) + encode_utf8(
        "</td><td class=tsc-line>"@,
    ) + trim_end_bytes(line) + encode_utf8("</td></tr>\n"@)
}

/// The rows for `lines`, numbered from zero.
pub open spec fn rows_bytes(lines: Seq<Seq<u8>>) -> Seq<u8>
    decreases lines.len(),
{
    if lines.len() == 0 {
        Seq::empty()
    } else {
        rows_bytes(lines.drop_last()) + row_bytes((lines.len() - 1) as nat, lines.last())
    }
}

/// The markup opening the table.
pub open spec fn table_header() -> Seq<u8> {
    encode_utf8("\n<div class=\"tsc-table-bg\">\n    <table class=\"tsc-table\">\n        <tbody>\n"@)
}

/// The markup closing the table.
pub open spec fn table_footer() -> Seq<u8> {
    encode_utf8("        </tbody>\n    </table>\n</div>\n"@)
}

/// The whole table for one render: header, one row per line, footer.
pub open spec fn table_bytes(
    decor: Seq<Option<Seq<char>>>,
    source: Seq<u8>,
    events: Seq<HighlightEvent>,
) -> Seq<u8> {
    table_header() + rows_bytes(final_lines(decor, source, events)) + table_footer()
}

/// Append the bytes of `s` to `out`.
fn push_lit(out: &mut Vec<u8>, s: &str)
    ensures
        final(out)@ == old(out)@ + encode_utf8(s@),
{
    out.extend_from_slice(s.as_bytes());
}

/// Append the opening tag for attribute `index` under `decor`.
fn push_open_tag(out: &mut Vec<u8>, decor: &Vec<Option<String>>, index: usize)
    ensures
        final(out)@ == old(out)@ + open_tag(decoration_at(decor_view(decor@), index)),
{
    if index < decor.len() {
        match &decor[index] {
            Some(a) => {
                push_lit(out, "<span ");
                push_lit(out, a.as_str());
                push_lit(out, ">");
            },
            None => {
                push_lit(out, "<span>");
            },
        }
    } else {
        push_lit(out, "<span>");
    }
}

/// Append `k` closing tags.
fn push_closes(out: &mut Vec<u8>, k: usize)
    ensures
        final(out)@ == old(out)@ + closes(k as nat),
{
    let mut t: usize = 0;
    while t < k
        invariant
            t <= k,
            out@ == old(out)@ + closes(t as nat),
        decreases k - t,
    {
        push_lit(out, "</span>");
        t = t + 1;
    }
}

/// Append the opening tags of every index on `stack`, outermost first.
fn push_opens(out: &mut Vec<u8>, stack: &Vec<usize>, decor: &Vec<Option<String>>)
    ensures
        final(out)@ == old(out)@ + opens(stack@, decor_view(decor@)),
{
    let n = stack.len();
    let mut t: usize = 0;
    while t < n
        invariant
            t <= n,
            n == stack@.len(),
            out@ == old(out)@ + opens(stack@.take(t as int), decor_view(decor@)),
        decreases n - t,
    {
        push_open_tag(out, decor, stack[t]);
        proof {
            let k = t as int;
            assert(stack@.take(k + 1).drop_last() =~= stack@.take(k));
            assert(stack@.take(k + 1).last() == stack@[k]);
        }
        t = t + 1;
    }
    proof {
        assert(stack@.take(n as int) =~= stack@);
    }
}

/// Append the decimal digits of `n`.
fn push_line_number(out: &mut Vec<u8>, n: usize)
    ensures
        final(out)@ == old(out)@ + dec_digits(n as nat),
{
    let mut tmp: Vec<u8> = Vec::new();
    let mut m: usize = n;
    while m >= 10
        invariant
            dec_digits(n as nat) == dec_digits(m as nat) + rev_bytes(tmp@),
        decreases m,
    {
        let ghost pre = tmp@;
        let d: u8 = (48 + (m % 10) as u8) as u8;
        tmp.push(d);
        proof {
            assert(tmp@.drop_last() =~= pre);
            assert(rev_bytes(tmp@) == seq![d] + rev_bytes(pre));
        }
        m = m / 10;
    }
    out.push((48 + (m % 10) as u8) as u8);
    proof {
        assert(m < 10);
        assert(dec_digits(m as nat) =~= seq![(48 + m) as u8]);
        assert((48 + (m % 10)) as u8 == (48 + m) as u8);
    }
    while tmp.len() > 0
        invariant
            out@ + rev_bytes(tmp@) == old(out)@ + dec_digits(n as nat),
        decreases tmp.len(),
    {
        let ghost pre = tmp@;
        let d = tmp.pop().unwrap();
        out.push(d);
        proof {
            assert(rev_bytes(pre) == seq![pre.last()] + rev_bytes(pre.drop_last()));
        }
    }
    proof {
        assert(rev_bytes(tmp@) =~= Seq::empty());
        assert(out@ =~= old(out)@ + dec_digits(n as nat));
    }
}

/// `s` reversed.
pub open spec fn rev_bytes(s: Seq<u8>) -> Seq<u8>
    decreases s.len(),
{
    if s.len() == 0 {
        Seq::empty()
    } else {
        seq![s.last()] + rev_bytes(s.drop_last())
    }
}

/// Finish the current line: close the open spans, move the line to `done`
/// and start the next line by reopening the spans.
fn line_break(done: &mut Vec<Vec<u8>>, cur: &mut Vec<u8>, stack: &Vec<usize>, decor: &Vec<
    Option<String>,
>)
    ensures
        lines_view(final(done)@) == lines_view(old(done)@).push(
            old(cur)@ + closes(stack@.len()),
        ),
        final(cur)@ == opens(stack@, decor_view(decor@)),
{
    push_closes(cur, stack.len());
    let mut finished: Vec<u8> = Vec::new();
    core::mem::swap(&mut finished, cur);
    done.push(finished);
    push_opens(cur, stack, decor);
    proof {
        assert(lines_view(done@) =~= lines_view(old(done)@).push(
            old(cur)@ + closes(stack@.len()),
        ));
    }
}

/// Apply one event to the working buffers; exactly [`step_event`].
fn apply_event(
    done: &mut Vec<Vec<u8>>,
    cur: &mut Vec<u8>,
    stack: &mut Vec<usize>,
    decor: &Vec<Option<String>>,
    source: &[u8],
    ev: &HighlightEvent,
)
    ensures
        ({
            let st = step_event(
                SerState { done: lines_view(old(done)@), cur: old(cur)@, stack: old(stack)@ },
                decor_view(decor@),
                source@,
                *ev,
            );
            lines_view(final(done)@) == st.done && final(cur)@ == st.cur && final(stack)@
                == st.stack
        }),
{
    match *ev {
        HighlightEvent::HighlightStart { index } => {
            push_open_tag(cur, decor, index);
            stack.push(index);
        },
        HighlightEvent::HighlightEnd => {
            push_lit(cur, "</span>");
            if stack.len() > 0 {
                stack.pop();
            }
        },
        HighlightEvent::Source { start, end } => {
            let len = source.len();
            let lo = if start <= len {
                start
            } else {
                len
            };
            let hi0 = if end <= len {
                end
            } else {
                len
            };
            let hi = if lo <= hi0 {
                hi0
            } else {
                lo
            };
            let ghost st0 = SerState { done: lines_view(done@), cur: cur@, stack: stack@ };
            let ghost dv = decor_view(decor@);
            proof {
                assert(clamped(source@, start, end) =~= source@.subrange(lo as int, hi as int));
            }
            let mut j: usize = lo;
            while j < hi
                invariant
                    lo <= j <= hi <= source@.len(),
                    ({
                        let st = step_text(st0, dv, source@.subrange(lo as int, j as int));
                        lines_view(done@) == st.done && cur@ == st.cur && stack@ == st.stack
                    }),
                    dv == decor_view(decor@),
                decreases hi - j,
            {
                let ghost prefix = source@.subrange(lo as int, j as int);
                let b = source[j];
                if b == 13 {
                    // carriage returns are dropped
                } else if b == 10 {
                    line_break(done, cur, stack, decor);
                } else if b == 60 {
                    push_lit(cur, "&lt;");
                } else if b == 62 {
                    push_lit(cur, "&gt;");
                } else if b == 38 {
                    push_lit(cur, "&amp;");
                } else if b == 39 {
                    push_lit(cur, "&#39;");
                } else if b == 34 {
                    push_lit(cur, "&quot;");
                } else {
                    cur.push(b);
                }
                proof {
                    let next = source@.subrange(lo as int, j + 1);
                    assert(next.drop_last() =~= prefix);
                    assert(next.last() == source@[j as int]);
                    assert(cur@ =~= step_text(st0, dv, next).cur);
                }
                j = j + 1;
            }
        },
    }
}

/// Append `line` with its trailing whitespace trimmed.
fn push_trimmed(out: &mut Vec<u8>, line: &Vec<u8>)
    ensures
        final(out)@ == old(out)@ + trim_end_bytes(line@),
{
    let mut endx: usize = line.len();
    proof {
        assert(line@.take(endx as int) =~= line@);
    }
    let mut stop = false;
    while endx > 0 && !stop
        invariant
            endx <= line@.len(),
            trim_end_bytes(line@) == trim_end_bytes(line@.take(endx as int)),
            stop ==> !is_trim_ws(line@.take(endx as int).last()),
        decreases 2 * endx + (if stop {
            0int
        } else {
            1int
        }),
    {
        let b = line[endx - 1];
        if b == 32 || b == 9 || b == 10 || b == 13 {
            proof {
                assert(line@.take(endx as int).drop_last() =~= line@.take(endx - 1));
            }
            endx = endx - 1;
        } else {
            stop = true;
        }
    }
    proof {
        let t = line@.take(endx as int);
        assert(!(t.len() > 0 && is_trim_ws(t.last())));
        assert(trim_end_bytes(line@) == t);
    }
    let mut j: usize = 0;
    while j < endx
        invariant
            j <= endx <= line@.len(),
            out@ == old(out)@ + line@.subrange(0, j as int),
        decreases endx - j,
    {
        out.push(line[j]);
        proof {
            assert(line@.subrange(0, j + 1) =~= line@.subrange(0, j as int).push(line@[j as int]));
        }
        j = j + 1;
    }
    proof {
        assert(line@.subrange(0, endx as int) =~= line@.take(endx as int));
    }
}

/// Append table row `i` holding `line`.
fn push_row(out: &mut Vec<u8>, i: usize, line: &Vec<u8>)
    ensures
        final(out)@ == old(out)@ + row_bytes(i as nat, line@),
{
    push_lit(out, "           <tr><td class=line-number>");
    push_line_number(out, i);
    push_lit(out, "</td><td class=tsc-line>");
    push_trimmed(out, line);
    push_lit(out, "</td></tr>\n");
    proof {
        assert(out@ =~= old(out)@ + row_bytes(i as nat, line@));
    }
}

/// Serialize one event stream over `source`, under the decoration table
/// `decor`, into the bytes of the HTML table.
pub fn render_table(decor: &Vec<Option<String>>, source: &[u8], events: &Vec<HighlightEvent>) -> (r:
    Vec<u8>)
    ensures
        r@ == table_bytes(decor_view(decor@), source@, events@),
{
    let mut done: Vec<Vec<u8>> = Vec::new();
    let mut cur: Vec<u8> = Vec::new();
    let mut stack: Vec<usize> = Vec::new();
    let ghost dv = decor_view(decor@);
    let n = events.len();
    let mut e: usize = 0;
    while e < n
        invariant
            e <= n,
            n == events@.len(),
            ({
                let st = run_events(dv, source@, events@.take(e as int));
                lines_view(done@) == st.done && cur@ == st.cur && stack@ == st.stack
            }),
            dv == decor_view(decor@),
        decreases n - e,
    {
        apply_event(&mut done, &mut cur, &mut stack, decor, source, &events[e]);
        proof {
            let next = events@.take(e + 1);
            assert(next.drop_last() =~= events@.take(e as int));
            assert(next.last() == events@[e as int]);
        }
        e = e + 1;
    }
    proof {
        assert(events@.take(n as int) =~= events@);
    }
    if cur.len() > 0 || done.len() == 0 {
        done.push(cur);
        proof {
            assert(lines_view(done@) =~= final_lines(dv, source@, events@));
        }
    }
    let mut out: Vec<u8> = Vec::new();
    push_lit(
        &mut out,
        "\n<div class=\"tsc-table-bg\">\n    <table class=\"tsc-table\">\n        <tbody>\n",
    );
    let rows = done.len();
    let mut i: usize = 0;
    while i < rows
        invariant
            i <= rows,
            rows == done@.len(),
            lines_view(done@) == final_lines(dv, source@, events@),
            out@ == table_header() + rows_bytes(lines_view(done@).take(i as int)),
            dv == decor_view(decor@),
        decreases rows - i,
    {
        push_row(&mut out, i, &done[i]);
        proof {
            let lv = lines_view(done@);
            assert(lv.take(i + 1).drop_last() =~= lv.take(i as int));
            assert(lv.take(i + 1).last() == lv[i as int]);
            assert(lv[i as int] == done@[i as int]@);
        }
        i = i + 1;
    }
    proof {
        assert(lines_view(done@).take(rows as int) =~= lines_view(done@));
    }
    push_lit(&mut out, "        </tbody>\n    </table>\n</div>\n");
    out
}

/// Rendering is deterministic: two render calls that serialized the same
/// decorations, source bytes and event stream returned byte-identical
/// output.
pub proof fn lemma_render_deterministic(
    decor: Seq<Option<Seq<char>>>,
    source: Seq<u8>,
    events: Seq<HighlightEvent>,
    s1: Seq<char>,
    s2: Seq<char>,
)
    requires
        encode_utf8(s1) == table_bytes(decor, source, events),
        encode_utf8(s2) == table_bytes(decor, source, events),
    ensures
        s1 == s2,
{
    encode_utf8_decode_utf8(s1);
    encode_utf8_decode_utf8(s2);
    assert(s1 == decode_utf8(table_bytes(decor, source, events)));
}

/// Number of line feeds in `s`.
pub open spec fn newline_count(s: Seq<u8>) -> nat
    decreases s.len(),
{
    if s.len() == 0 {
        0
    } else {
        newline_count(s.drop_last()) + if s.last() == 10 {
            1nat
        } else {
            0nat
        }
    }
}

/// Number of bytes after the last line feed of `s`.
pub open spec fn tail_len(s: Seq<u8>) -> nat
    decreases s.len(),
{
    if s.len() == 0 {
        0
    } else if s.last() == 10 {
        0
    } else {
        tail_len(s.drop_last()) + 1
    }
}

/// The number of newline-delimited lines of a source text: one more than
/// the number of line feeds, except that a trailing line feed opens no
/// further line; an empty text still has one line.
pub open spec fn source_line_count(s: Seq<u8>) -> nat {
    if s.len() == 0 {
        1
    } else if s.last() == 10 {
        newline_count(s)
    } else {
        newline_count(s) + 1
    }
}

proof fn lemma_esc_byte_nonempty(b: u8)
    requires
        b != 13,
    ensures
        esc_byte(b).len() > 0,
{
    reveal_strlit("&lt;");
    reveal_strlit("&gt;");
    reveal_strlit("&amp;");
    reveal_strlit("&#39;");
    reveal_strlit("&quot;");
    is_ascii_chars_encode_utf8("&lt;"@);
    is_ascii_chars_encode_utf8("&gt;"@);
    is_ascii_chars_encode_utf8("&amp;"@);
    is_ascii_chars_encode_utf8("&#39;"@);
    is_ascii_chars_encode_utf8("&quot;"@);
}

proof fn lemma_step_text_counts(st: SerState, decor: Seq<Option<Seq<char>>>, s: Seq<u8>)
    requires
        st.stack.len() == 0,
        forall|k: int| 0 <= k < s.len() ==> s[k] != 13,
    ensures
        ({
            let st2 = step_text(st, decor, s);
            st2.stack == st.stack && st2.done.len() == st.done.len() + newline_count(s) && (
            st2.cur.len() > 0 <==> (tail_len(s) > 0 || (newline_count(s) == 0 && st.cur.len()
                > 0)))
        }),
    decreases s.len(),
{
    if s.len() > 0 {
        let pre = s.drop_last();
        let b = s.last();
        assert(forall|k: int| 0 <= k < pre.len() ==> pre[k] == s[k] && s[k] != 13);
        assert(b == s[s.len() - 1]);
        assert(b != 13);
        lemma_step_text_counts(st, decor, pre);
        let st1 = step_text(st, decor, pre);
        let st2 = step_byte(st1, decor, b);
        if b == 10 {
            assert(opens(st1.stack, decor) =~= Seq::<u8>::empty());
            assert(st2.cur.len() == 0);
            assert(st2.done.len() == st1.done.len() + 1);
        } else {
            lemma_esc_byte_nonempty(b);
            assert(st2.cur.len() > 0);
            assert(tail_len(s) == tail_len(pre) + 1);
        }
    }
}

/// Round-trip line count, for a whole undecorated document: the table has
/// exactly one row per newline-delimited line of the source — a trailing
/// line feed opens no extra row, and an empty source still fills one row.
/// Carriage returns are excluded: the serializer drops them, so a final
/// line holding only carriage returns would collapse into the row before
/// it.
pub proof fn lemma_row_count(decor: Seq<Option<Seq<char>>>, source: Seq<u8>, end: usize)
    requires
        source.len() == end as int,
        forall|k: int| 0 <= k < source.len() ==> source[k] != 13,
    ensures
        final_lines(decor, source, seq![HighlightEvent::Source { start: 0, end }]).len()
            == source_line_count(source),
{
    let events = seq![HighlightEvent::Source { start: 0, end }];
    assert(events.drop_last() =~= Seq::<HighlightEvent>::empty());
    assert(events.last() == HighlightEvent::Source { start: 0, end });
    assert(clamped(source, 0, end) =~= source);
    lemma_step_text_counts(init_state(), decor, source);
    assert(run_events(decor, source, Seq::<HighlightEvent>::empty()) == init_state());
    let st = run_events(decor, source, events);
    assert(st == step_event(init_state(), decor, source, events.last()));
    assert(st == step_text(init_state(), decor, source));
    if source.len() == 0 {
        assert(st == init_state());
    } else if source.last() == 10 {
        assert(newline_count(source) > 0);
        assert(st.cur.len() == 0);
        assert(st.done.len() == newline_count(source));
    } else {
        assert(tail_len(source) > 0);
        assert(st.cur.len() > 0);
    }
}

} // verus!
