//! A stored game reads back: the PGN text written for a session parses to
//! the session's players, result and moves.
use vstd::prelude::*;
use crate::game::board::{Mv, PieceKind};
use crate::game::san::{
    disambiguation_spec, file_char_spec, file_of, piece_letter_spec, rank_char_spec, rank_of,
    san_body, san_spec, san_suffix, square_name,
};
use crate::game::session::{MoveRecord, Session, known_termination, Outcome, records_match, legal_line, line_end};
use crate::game::board::Side;
use crate::text::decimal;
use crate::game::pgn::{
    escape_spec, iso_date_spec, tc_pgn_spec, tag_line, pgn_spec, tokens_spec,
    PgnScan, movetext_spec, wrap_state, move_token, session_tokens, clean_acc, first_index, keep_token, keep_tokens, scan_line, scan_lines, strip_move_number, move_number_len, digits_from, dots_from,
    trim_quotes_spec,
};
use crate::text::{
    is_ws, lines_spec, split_on, strip_cr, trim_end_spec, trim_spec, trim_start_spec, words_acc,
    words_spec,
};

verus! {

/// Lines, each followed by a line break.
pub open spec fn join_lines(ls: Seq<Seq<char>>) -> Seq<char>
    decreases ls.len(),
{
    if ls.len() == 0 {
        seq![]
    } else {
        join_lines(ls.drop_last()) + ls.last() + seq!['\n']
    }
}

proof fn lemma_join_lines_append(a: Seq<Seq<char>>, b: Seq<Seq<char>>)
    ensures
        join_lines(a + b) == join_lines(a) + join_lines(b),
    decreases b.len(),
{
    if b.len() == 0 {
        assert(a + b =~= a);
        assert(join_lines(a) + join_lines(b) =~= join_lines(a));
    } else {
        lemma_join_lines_append(a, b.drop_last());
        assert((a + b).drop_last() =~= a + b.drop_last());
        assert(join_lines(a + b) =~= join_lines(a) + join_lines(b));
    }
}

proof fn lemma_split_extend(x: Seq<char>, u: Seq<char>, c: char)
    requires
        !u.contains(c),
    ensures
        split_on(x + u, c).len() == split_on(x, c).len(),
        split_on(x + u, c) == split_on(x, c).update(
            split_on(x, c).len() - 1,
            split_on(x, c).last() + u,
        ),
    decreases u.len(),
{
    crate::text::lemma_split_on_nonempty(x, c);
    if u.len() == 0 {
        assert(x + u =~= x);
        assert(split_on(x, c).last() + u =~= split_on(x, c).last());
        assert(split_on(x, c).update(split_on(x, c).len() - 1, split_on(x, c).last()) =~= split_on(
            x,
            c,
        ));
    } else {
        let u0 = u.drop_last();
        assert(!u0.contains(c)) by {
            if u0.contains(c) {
                let k = choose|k: int| 0 <= k < u0.len() && u0[k] == c;
                assert(u[k] == c);
            }
        }
        lemma_split_extend(x, u0, c);
        assert((x + u).drop_last() =~= x + u0);
        assert((x + u).last() == u.last());
        assert(u.last() != c) by {
            assert(u[u.len() - 1] == u.last());
        }
        let p = split_on(x, c);
        let q = split_on(x + u0, c);
        assert(q.last() == p.last() + u0);
        assert(split_on(x + u, c) == q.update(q.len() - 1, q.last().push(u.last())));
        assert(p.last() + u0 + seq![u.last()] =~= p.last() + u);
        assert(q.last().push(u.last()) =~= p.last() + u);
        assert(q.len() == p.len());
        assert forall|i: int| 0 <= i < p.len() - 1 implies q[i] == p[i] by {}
        assert(q.update(q.len() - 1, q.last().push(u.last())) =~= p.update(p.len() - 1, p.last() + u));
    }
}

/// A line break splits off the lines of a joined text.
proof fn lemma_split_join(ls: Seq<Seq<char>>)
    requires
        forall|i: int| 0 <= i < ls.len() ==> !(#[trigger] ls[i]).contains('\n'),
    ensures
        split_on(join_lines(ls), '\n') == ls.push(seq![]),
    decreases ls.len(),
{
    if ls.len() == 0 {
        assert(split_on(seq![], '\n') =~= seq![seq![]]);
        assert(ls.push(seq![]) =~= seq![seq![]]);
    } else {
        let pre = ls.drop_last();
        assert forall|i: int| 0 <= i < pre.len() implies !(#[trigger] pre[i]).contains('\n') by {
            assert(pre[i] == ls[i]);
        }
        lemma_split_join(pre);
        let x = join_lines(pre);
        let u = ls.last();
        assert(!u.contains('\n')) by {
            assert(ls[ls.len() - 1] == u);
        }
        lemma_split_extend(x, u, '\n');
        let t = x + u + seq!['\n'];
        assert(join_lines(ls) == t);
        assert(t.drop_last() =~= x + u);
        assert(t.last() == '\n');
        assert(pre.push(seq![]).last() + u =~= u);
        assert(split_on(x + u, '\n') =~= pre.push(u));
        assert(pre.push(u).push(seq![]) =~= ls.push(seq![]));
    }
}

/// The lines of a joined text are the lines joined, when none holds a line
/// break or ends with a carriage return.
pub proof fn lemma_lines_of_join(ls: Seq<Seq<char>>)
    requires
        ls.len() > 0,
        forall|i: int| 0 <= i < ls.len() ==> !(#[trigger] ls[i]).contains('\n'),
        forall|i: int| 0 <= i < ls.len() ==> strip_cr(#[trigger] ls[i]) == ls[i],
    ensures
        lines_spec(join_lines(ls)) == ls,
{
    lemma_split_join(ls);
    let t = join_lines(ls);
    assert(t == join_lines(ls.drop_last()) + ls.last() + seq!['\n']);
    assert(t.last() == '\n');
    assert(ls.push(seq![]).drop_last() =~= ls);
    assert(ls.map_values(|l: Seq<char>| strip_cr(l)) =~= ls);
}

/// Before white space no word is in progress.
proof fn lemma_words_acc_ws_end(a: Seq<char>)
    requires
        a.len() == 0 || is_ws(a.last()),
    ensures
        words_acc(a).1 == Seq::<char>::empty(),
{
}

proof fn lemma_words_acc_append(a: Seq<char>, b: Seq<char>)
    requires
        a.len() == 0 || is_ws(a.last()),
    ensures
        words_acc(a + b).0 == words_acc(a).0 + words_acc(b).0,
        words_acc(a + b).1 == words_acc(b).1,
    decreases b.len(),
{
    lemma_words_acc_ws_end(a);
    if b.len() == 0 {
        assert(a + b =~= a);
        assert(words_acc(a).0 + words_acc(b).0 =~= words_acc(a).0);
    } else {
        let b0 = b.drop_last();
        lemma_words_acc_append(a, b0);
        assert((a + b).drop_last() =~= a + b0);
        assert((a + b).last() == b.last());
        let (d, c) = words_acc(b0);
        if is_ws(b.last()) && c.len() > 0 {
            assert(words_acc(a).0 + d.push(c) =~= (words_acc(a).0 + d).push(c));
        }
    }
}

/// Words of texts joined after white space are the words of each.
pub proof fn lemma_words_append(a: Seq<char>, b: Seq<char>)
    requires
        a.len() == 0 || is_ws(a.last()),
    ensures
        words_spec(a + b) == words_spec(a) + words_spec(b),
{
    lemma_words_acc_append(a, b);
    lemma_words_acc_ws_end(a);
    let (d, c) = words_acc(b);
    if c.len() > 0 {
        assert(words_acc(a).0 + d.push(c) =~= (words_acc(a).0 + d).push(c));
    } else {
        assert(words_spec(a) =~= words_acc(a).0);
    }
}

/// White space at the end adds no word.
pub proof fn lemma_words_push_ws(s: Seq<char>, c: char)
    requires
        is_ws(c),
    ensures
        words_spec(s.push(c)) == words_spec(s),
{
    assert(s.push(c).drop_last() =~= s);
}

/// A text without white space is one word.
pub proof fn lemma_words_single(s: Seq<char>)
    requires
        s.len() > 0,
        forall|i: int| 0 <= i < s.len() ==> !is_ws(#[trigger] s[i]),
    ensures
        words_spec(s) == seq![s],
{
    lemma_words_acc_solid(s);
}

proof fn lemma_words_acc_solid(s: Seq<char>)
    requires
        forall|i: int| 0 <= i < s.len() ==> !is_ws(#[trigger] s[i]),
    ensures
        words_acc(s) == (Seq::<Seq<char>>::empty(), s),
    decreases s.len(),
{
    if s.len() > 0 {
        let s0 = s.drop_last();
        assert forall|i: int| 0 <= i < s0.len() implies !is_ws(#[trigger] s0[i]) by {
            assert(s0[i] == s[i]);
        }
        lemma_words_acc_solid(s0);
        assert(!is_ws(s[s.len() - 1]));
        assert(s0.push(s.last()) =~= s);
    }
}

/// Trimming leaves alone a text that starts and ends with no white space.
pub proof fn lemma_trim_solid_ends(s: Seq<char>)
    requires
        s.len() == 0 || (!is_ws(s[0]) && !is_ws(s.last())),
    ensures
        trim_spec(s) == s,
{
    assert(trim_start_spec(s) == s);
}

/// The scan of more lines from a given start.
pub open spec fn scan_from(acc: PgnScan, ls: Seq<Seq<char>>) -> PgnScan
    decreases ls.len(),
{
    if ls.len() == 0 {
        acc
    } else {
        scan_line(scan_from(acc, ls.drop_last()), trim_spec(ls.last()))
    }
}

proof fn lemma_scan_lines_from(ls: Seq<Seq<char>>)
    ensures
        scan_lines(ls) == scan_from(scan_lines(seq![]), ls),
    decreases ls.len(),
{
    if ls.len() > 0 {
        lemma_scan_lines_from(ls.drop_last());
    }
}

proof fn lemma_scan_from_append(acc: PgnScan, a: Seq<Seq<char>>, b: Seq<Seq<char>>)
    ensures
        scan_from(acc, a + b) == scan_from(scan_from(acc, a), b),
    decreases b.len(),
{
    if b.len() == 0 {
        assert(a + b =~= a);
    } else {
        lemma_scan_from_append(acc, a, b.drop_last());
        assert((a + b).drop_last() =~= a + b.drop_last());
        assert((a + b).last() == b.last());
    }
}

/// A movetext line as written: no line break, and when not empty, no white
/// space at its ends and no '[' first (so it is not read as a header).
pub open spec fn line_ok(l: Seq<char>) -> bool {
    &&& !l.contains('\n')
    &&& (l.len() > 0 ==> !is_ws(l[0]) && !is_ws(l.last()) && l[0] != '[')
}

/// What scanning movetext lines adds to the movetext: each non-empty line
/// followed by a space.
pub open spec fn scan_text(ls: Seq<Seq<char>>) -> Seq<char>
    decreases ls.len(),
{
    if ls.len() == 0 {
        seq![]
    } else {
        scan_text(ls.drop_last()) + if ls.last().len() > 0 {
            ls.last().push('\n')
        } else {
            seq![]
        }
    }
}

proof fn lemma_scan_movetext(acc: PgnScan, ls: Seq<Seq<char>>)
    requires
        forall|i: int| 0 <= i < ls.len() ==> line_ok(#[trigger] ls[i]),
    ensures
        scan_from(acc, ls) == (PgnScan { movetext: acc.movetext + scan_text(ls), ..acc }),
    decreases ls.len(),
{
    if ls.len() == 0 {
        assert(acc.movetext + scan_text(ls) =~= acc.movetext);
    } else {
        let pre = ls.drop_last();
        assert forall|i: int| 0 <= i < pre.len() implies line_ok(#[trigger] pre[i]) by {
            assert(pre[i] == ls[i]);
        }
        lemma_scan_movetext(acc, pre);
        let l = ls.last();
        assert(line_ok(ls[ls.len() - 1]));
        lemma_trim_solid_ends(l);
        let mid = scan_from(acc, pre);
        if l.len() > 0 {
            assert(mid.movetext + l + seq!['\n'] =~= acc.movetext + scan_text(ls));
        } else {
            assert(acc.movetext + scan_text(pre) =~= acc.movetext + scan_text(ls));
        }
    }
}

/// A header line without its line break: `[key "value"]`.
pub open spec fn tag_unit(key: Seq<char>, value: Seq<char>) -> Seq<char> {
    seq!['['] + key + seq![' ', '"'] + value + seq!['"', ']']
}

/// A header with a known key sets that tag; other keys change nothing.
pub open spec fn tag_update(acc: PgnScan, k: Seq<char>, v: Seq<char>) -> PgnScan {
    if k == "White"@ {
        PgnScan { white: v, ..acc }
    } else if k == "Black"@ {
        PgnScan { black: v, ..acc }
    } else if k == "Result"@ {
        PgnScan { result: v, ..acc }
    } else if k == "Event"@ {
        PgnScan { event: v, ..acc }
    } else if k == "Date"@ {
        PgnScan { date: v, ..acc }
    } else if k == "Termination"@ {
        PgnScan { termination: v, ..acc }
    } else {
        acc
    }
}

/// Reading a header line whose key has no white space.
proof fn lemma_scan_tag(acc: PgnScan, k: Seq<char>, v: Seq<char>)
    requires
        k.len() > 0,
        forall|i: int| 0 <= i < k.len() ==> !is_ws(#[trigger] k[i]),
    ensures
        scan_line(acc, trim_spec(tag_unit(k, v))) == tag_update(
            acc,
            k,
            trim_quotes_spec(trim_spec(seq!['"'] + v + seq!['"'])),
        ),
{
    let t = tag_unit(k, v);
    assert(t[0] == '[');
    assert(t.last() == ']');
    lemma_trim_solid_ends(t);
    let rest = t.drop_first();
    assert(rest.last() == ']');
    let end = rest.drop_last();
    assert(end =~= k + seq![' ', '"'] + v + seq!['"']);
    let n = k.len() as int;
    assert(end[n] == ' ');
    assert forall|j: int| 0 <= j < n implies end[j] != ' ' by {
        assert(end[j] == k[j]);
        assert(!is_ws(k[j]));
    }
    assert(exists|i: int| 0 <= i < end.len() && end[i] == ' ');
    let i = choose|i: int|
        0 <= i < end.len() && end[i] == ' ' && forall|j: int| 0 <= j < i ==> end[j] != ' ';
    assert(0 <= n < end.len() && end[n] == ' ' && forall|j: int| 0 <= j < n ==> end[j] != ' ');
    assert(i == n) by {
        if i < n {
            assert(end[i] != ' ');
        } else if i > n {
            assert(end[n] != ' ');
        }
    }
    assert(first_index(end, ' ') == Some(n));
    assert(end.take(n) =~= k);
    lemma_trim_solid_ends(k);
    assert(end.skip(n + 1) =~= seq!['"'] + v + seq!['"']);
}

/// Quoting a value without double quotes and reading it back gives the value.
proof fn lemma_unquote(v: Seq<char>)
    requires
        !v.contains('"'),
    ensures
        trim_quotes_spec(trim_spec(seq!['"'] + v + seq!['"'])) == v,
{
    let q = seq!['"'] + v + seq!['"'];
    assert(q[0] == '"' && q.last() == '"');
    lemma_trim_solid_ends(q);
    let a = q.drop_first();
    assert(a =~= v + seq!['"']);
    assert(trim_quotes_spec(q) == trim_quotes_spec(a));
    if v.len() == 0 {
        assert(a =~= seq!['"']);
        assert(a.drop_first() =~= Seq::<char>::empty());
        assert(trim_quotes_spec(a) == trim_quotes_spec(a.drop_first()));
        assert(trim_quotes_spec(a.drop_first()) == a.drop_first());
    } else {
        assert(v[0] != '"') by {
            assert(!v.contains('"'));
        }
        assert(a[0] == v[0]);
        assert(a.drop_last() =~= v);
        assert(v.last() != '"') by {
            assert(v[v.len() - 1] == v.last());
        }
        assert(trim_quotes_spec(a) == trim_quotes_spec(a.drop_last()));
        assert(trim_quotes_spec(v) == v);
    }
}

/// Text without comment characters.
pub open spec fn no_comment_chars(s: Seq<char>) -> bool {
    forall|i: int| 0 <= i < s.len() ==> #[trigger] s[i] != '{' && s[i] != '}' && s[i] != ';'
}

proof fn lemma_clean_identity(s: Seq<char>)
    requires
        no_comment_chars(s),
    ensures
        clean_acc(s) == (s, false, false),
    decreases s.len(),
{
    if s.len() > 0 {
        let s0 = s.drop_last();
        assert forall|i: int| 0 <= i < s0.len() implies #[trigger] s0[i] != '{' && s0[i] != '}'
            && s0[i] != ';' by {
            assert(s0[i] == s[i]);
        }
        lemma_clean_identity(s0);
        assert(s[s.len() - 1] == s.last());
        assert(s0.push(s.last()) =~= s);
    }
}

proof fn lemma_keep_tokens_append(a: Seq<Seq<char>>, b: Seq<Seq<char>>)
    ensures
        keep_tokens(a + b) == keep_tokens(a) + keep_tokens(b),
    decreases b.len(),
{
    if b.len() == 0 {
        assert(a + b =~= a);
        assert(keep_tokens(a) + keep_tokens(b) =~= keep_tokens(a));
    } else {
        lemma_keep_tokens_append(a, b.drop_last());
        assert((a + b).drop_last() =~= a + b.drop_last());
        assert((a + b).last() == b.last());
        assert(keep_tokens(a + b) =~= keep_tokens(a) + keep_tokens(b));
    }
}

/// A movetext token as written: not empty, no line break, no comment
/// characters, no white space at its ends, and not starting with '['.
pub open spec fn tok_ok(t: Seq<char>) -> bool {
    &&& t.len() > 0
    &&& !t.contains('\n')
    &&& !is_ws(t[0])
    &&& !is_ws(t.last())
    &&& t[0] != '['
    &&& no_comment_chars(t)
}

/// The words of each text, in order.
pub open spec fn all_words(ts: Seq<Seq<char>>) -> Seq<Seq<char>>
    decreases ts.len(),
{
    if ts.len() == 0 {
        seq![]
    } else {
        all_words(ts.drop_last()) + words_spec(ts.last())
    }
}

proof fn lemma_trim_end_solid(l: Seq<char>)
    requires
        l.len() == 0 || !is_ws(l.last()),
    ensures
        trim_end_spec(l) == l,
{
}

proof fn lemma_no_comment_concat(a: Seq<char>, b: Seq<char>)
    requires
        no_comment_chars(a),
        no_comment_chars(b),
    ensures
        no_comment_chars(a + b),
{
    assert forall|i: int| 0 <= i < (a + b).len() implies #[trigger] (a + b)[i] != '{' && (a
        + b)[i] != '}' && (a + b)[i] != ';' by {
        if i < a.len() {
            assert((a + b)[i] == a[i]);
        } else {
            assert((a + b)[i] == b[i - a.len()]);
        }
    }
}

/// What the line wrapping keeps: the finished lines are joined lines that
/// hold, with the current line, the words of the tokens in order.
pub open spec fn wrap_ok(toks: Seq<Seq<char>>, out: Seq<char>, line: Seq<char>, L: Seq<Seq<char>>) -> bool {
    &&& out == join_lines(L)
    &&& forall|i: int| 0 <= i < L.len() ==> line_ok(#[trigger] L[i]) && no_comment_chars(L[i])
    &&& all_words(L) + words_spec(line) == all_words(toks)
    &&& line_ok(line)
    &&& no_comment_chars(line)
}

proof fn lemma_wrap(toks: Seq<Seq<char>>)
    requires
        forall|i: int| 0 <= i < toks.len() ==> tok_ok(#[trigger] toks[i]),
    ensures
        exists|L: Seq<Seq<char>>| wrap_ok(toks, wrap_state(toks).0, wrap_state(toks).1, L),
    decreases toks.len(),
{
    if toks.len() == 0 {
        let L = Seq::<Seq<char>>::empty();
        assert(words_spec(Seq::<char>::empty()) =~= Seq::<Seq<char>>::empty());
        assert(all_words(L) + words_spec(Seq::<char>::empty()) =~= all_words(toks));
        assert(no_comment_chars(Seq::<char>::empty()));
        assert(wrap_ok(toks, wrap_state(toks).0, wrap_state(toks).1, L));
    } else {
        let pre = toks.drop_last();
        assert forall|i: int| 0 <= i < pre.len() implies tok_ok(#[trigger] pre[i]) by {
            assert(pre[i] == toks[i]);
        }
        lemma_wrap(pre);
        let (out, line, ll) = wrap_state(pre);
        let L = choose|L: Seq<Seq<char>>| wrap_ok(pre, out, line, L);
        let tok = toks.last();
        assert(tok_ok(toks[toks.len() - 1]));
        let flush = ll + crate::game::pgn::byte_len(tok) + 1 > 78;
        let (L2, line2) = if flush {
            (L.push(line), Seq::<char>::empty())
        } else {
            (L, line)
        };
        if flush {
            lemma_trim_end_solid(line);
            assert(out + trim_end_spec(line) + seq!['\n'] == join_lines(L2)) by {
                assert(L2.drop_last() =~= L);
            }
            assert(all_words(L2) == all_words(L) + words_spec(line)) by {
                assert(L2.drop_last() =~= L);
            }
            assert(forall|i: int| 0 <= i < L2.len() ==> line_ok(#[trigger] L2[i]) && no_comment_chars(L2[i])) by {
                assert forall|i: int| 0 <= i < L2.len() implies line_ok(#[trigger] L2[i]) && no_comment_chars(L2[i]) by {
                    if i < L.len() {
                        assert(L2[i] == L[i]);
                    }
                }
            }
            assert(words_spec(line2) =~= Seq::<Seq<char>>::empty());
            assert(no_comment_chars(line2));
        }
        let line3 = if line2.len() > 0 {
            line2.push(' ')
        } else {
            line2
        };
        let fin = line3 + tok;
        if line2.len() > 0 {
            lemma_words_append(line3, tok);
            lemma_words_push_ws(line2, ' ');
            assert(fin[0] == line2[0]);
            assert(no_comment_chars(seq![' '])) by {
                assert(seq![' '][0] == ' ');
            }
            lemma_no_comment_concat(line2, seq![' ']);
            assert(line3 =~= line2 + seq![' ']);
            lemma_no_comment_concat(line3, tok);
        } else {
            assert(fin =~= tok);
            assert(line3 + tok =~= tok);
            assert(words_spec(line2) =~= Seq::<Seq<char>>::empty());
        }
        assert(fin.last() == tok.last()) by {
            assert(fin[fin.len() - 1] == tok[tok.len() - 1]);
        }
        assert(!fin.contains('\n')) by {
            if fin.contains('\n') {
                let k = choose|k: int| 0 <= k < fin.len() && fin[k] == '\n';
                if k < line3.len() {
                    if k < line2.len() {
                        assert(line2[k] == '\n');
                    }
                } else {
                    assert(tok[k - line3.len()] == '\n');
                }
            }
        }
        assert(words_spec(fin) == words_spec(line2) + words_spec(tok));
        assert(all_words(L2) + words_spec(fin) =~= all_words(toks)) by {
            assert(all_words(toks) == all_words(pre) + words_spec(tok));
        }
        assert(wrap_state(toks).0 == join_lines(L2));
        assert(wrap_state(toks).1 == fin);
        assert(wrap_ok(toks, wrap_state(toks).0, wrap_state(toks).1, L2));
    }
}

/// The movetext is joined lines that hold the words of the tokens in order.
proof fn lemma_movetext_lines(toks: Seq<Seq<char>>) -> (L: Seq<Seq<char>>)
    requires
        forall|i: int| 0 <= i < toks.len() ==> tok_ok(#[trigger] toks[i]),
    ensures
        movetext_spec(toks) == join_lines(L),
        forall|i: int| 0 <= i < L.len() ==> line_ok(#[trigger] L[i]) && no_comment_chars(L[i]),
        all_words(L) == all_words(toks),
{
    lemma_wrap(toks);
    let (out, line, ll) = wrap_state(toks);
    let L0 = choose|L: Seq<Seq<char>>| wrap_ok(toks, out, line, L);
    if line.len() > 0 {
        lemma_trim_end_solid(line);
        let L = L0.push(line);
        assert(L.drop_last() =~= L0);
        assert forall|i: int| 0 <= i < L.len() implies line_ok(#[trigger] L[i]) && no_comment_chars(L[i]) by {
            if i < L0.len() {
                assert(L[i] == L0[i]);
            }
        }
        L
    } else {
        assert(words_spec(line) =~= Seq::<Seq<char>>::empty());
        assert(all_words(L0) + words_spec(line) =~= all_words(L0));
        L0
    }
}

proof fn lemma_scan_text_facts(L: Seq<Seq<char>>)
    requires
        forall|i: int| 0 <= i < L.len() ==> line_ok(#[trigger] L[i]) && no_comment_chars(L[i]),
    ensures
        words_spec(scan_text(L)) == all_words(L),
        scan_text(L).len() == 0 || scan_text(L).last() == '\n',
        no_comment_chars(scan_text(L)),
    decreases L.len(),
{
    if L.len() == 0 {
        assert(words_spec(Seq::<char>::empty()) =~= Seq::<Seq<char>>::empty());
        assert(no_comment_chars(Seq::<char>::empty()));
    } else {
        let pre = L.drop_last();
        assert forall|i: int| 0 <= i < pre.len() implies line_ok(#[trigger] pre[i]) && no_comment_chars(pre[i]) by {
            assert(pre[i] == L[i]);
        }
        lemma_scan_text_facts(pre);
        let l = L.last();
        assert(line_ok(L[L.len() - 1]) && no_comment_chars(L[L.len() - 1]));
        let a = scan_text(pre);
        if l.len() > 0 {
            lemma_words_append(a, l.push('\n'));
            lemma_words_push_ws(l, '\n');
            assert(no_comment_chars(seq!['\n'])) by {
                assert(seq!['\n'][0] == '\n');
            }
            lemma_no_comment_concat(l, seq!['\n']);
            assert(l.push('\n') =~= l + seq!['\n']);
            lemma_no_comment_concat(a, l.push('\n'));
            assert(scan_text(L) == a + l.push('\n'));
        } else {
            assert(scan_text(L) =~= a);
            assert(words_spec(l) =~= Seq::<Seq<char>>::empty());
            assert(all_words(L) =~= all_words(pre));
        }
    }
}

/// A character SAN uses: files, ranks, piece letters, and "O-", "x", "=",
/// "+", "#".
pub open spec fn san_char(c: char) -> bool {
    ||| ('a' <= c <= 'h')
    ||| ('1' <= c <= '8')
    ||| c == 'K' || c == 'Q' || c == 'R' || c == 'B' || c == 'N' || c == 'P'
    ||| c == 'O' || c == '-' || c == 'x' || c == '=' || c == '+' || c == '#'
}

/// A SAN token: not empty, made of SAN characters, starting with a letter.
pub open spec fn san_ok(t: Seq<char>) -> bool {
    &&& t.len() > 0
    &&& forall|i: int| 0 <= i < t.len() ==> san_char(#[trigger] t[i])
    &&& (('a' <= t[0] <= 'z') || ('A' <= t[0] <= 'Z'))
}

pub open spec fn all_san_chars(t: Seq<char>) -> bool {
    forall|i: int| 0 <= i < t.len() ==> san_char(#[trigger] t[i])
}

proof fn lemma_san_chars_concat(a: Seq<char>, b: Seq<char>)
    requires
        all_san_chars(a),
        all_san_chars(b),
    ensures
        all_san_chars(a + b),
{
    assert forall|i: int| 0 <= i < (a + b).len() implies san_char(#[trigger] (a + b)[i]) by {
        if i < a.len() {
            assert((a + b)[i] == a[i]);
        } else {
            assert((a + b)[i] == b[i - a.len()]);
        }
    }
}

proof fn lemma_square_name_chars(sq: u8)
    requires
        sq < 64,
    ensures
        all_san_chars(square_name(sq)),
        'a' <= square_name(sq)[0] <= 'h',
{
    let n = square_name(sq);
    assert(0 <= file_of(sq) < 8 && 0 <= rank_of(sq) < 8);
    assert('a' <= file_char_spec(file_of(sq)) <= 'h');
    assert('1' <= rank_char_spec(rank_of(sq)) <= '8');
    assert(n[0] == file_char_spec(file_of(sq)) && n[1] == rank_char_spec(rank_of(sq)));
}

proof fn lemma_piece_letter_char(p: PieceKind)
    ensures
        san_char(piece_letter_spec(p)),
        'A' <= piece_letter_spec(p) <= 'Z',
{
}

/// The SAN of a move on the board is a SAN token.
pub proof fn lemma_san_ok(fen: Seq<char>, m: Mv)
    requires
        m.on_board(),
    ensures
        san_ok(san_spec(fen, m)),
{
    let body = san_body(fen, m);
    let suffix = san_suffix(fen, m);
    lemma_square_name_chars(m.from);
    lemma_square_name_chars(m.to);
    if crate::game::san::is_castle_spec(fen, m) {
        assert(all_san_chars(body));
        assert(body[0] == 'O');
    } else {
        let cap = crate::game::san::is_capture_spec(fen, m);
        let mp = crate::game::san::moving_piece(fen, m);
        let promo = match m.promo {
            Some(p) => seq!['=', piece_letter_spec(p)],
            None => seq![],
        };
        assert(all_san_chars(promo)) by {
            match m.promo {
                Some(p) => lemma_piece_letter_char(p),
                None => {},
            }
        }
        let main = if mp == PieceKind::Pawn {
            (if cap {
                seq![file_char_spec(file_of(m.from)), 'x']
            } else {
                seq![]
            }) + square_name(m.to)
        } else {
            seq![piece_letter_spec(mp)] + disambiguation_spec(fen, m) + (if cap {
                seq!['x']
            } else {
                seq![]
            }) + square_name(m.to)
        };
        if mp == PieceKind::Pawn {
            let a = if cap {
                seq![file_char_spec(file_of(m.from)), 'x']
            } else {
                seq![]
            };
            assert(all_san_chars(a)) by {
                assert(0 <= file_of(m.from) < 8);
            }
            lemma_san_chars_concat(a, square_name(m.to));
            if cap {
                assert(main[0] == file_char_spec(file_of(m.from)));
                assert(0 <= file_of(m.from) < 8);
            } else {
                assert(main =~= square_name(m.to));
            }
        } else {
            lemma_piece_letter_char(mp);
            let d = disambiguation_spec(fen, m);
            assert(all_san_chars(d)) by {
                assert(0 <= file_of(m.from) < 8 && 0 <= rank_of(m.from) < 8);
            }
            let x = if cap {
                seq!['x']
            } else {
                seq![]
            };
            assert(all_san_chars(x));
            assert(all_san_chars(seq![piece_letter_spec(mp)]));
            lemma_san_chars_concat(seq![piece_letter_spec(mp)], d);
            lemma_san_chars_concat(seq![piece_letter_spec(mp)] + d, x);
            lemma_san_chars_concat(seq![piece_letter_spec(mp)] + d + x, square_name(m.to));
            assert(main[0] == piece_letter_spec(mp));
        }
        lemma_san_chars_concat(main, promo);
        assert(body == main + promo);
        assert(body[0] == main[0]);
    }
    assert(all_san_chars(suffix));
    lemma_san_chars_concat(body, suffix);
    assert(san_spec(fen, m)[0] == body[0]);
}

/// The digits of a number in decimal.
proof fn lemma_decimal_digits(n: nat)
    ensures
        decimal(n).len() > 0,
        forall|i: int| 0 <= i < decimal(n).len() ==> '0' <= #[trigger] decimal(n)[i] <= '9',
    decreases n,
{
    if n >= 10 {
        lemma_decimal_digits(n / 10);
        let d = decimal(n / 10);
        assert forall|i: int| 0 <= i < decimal(n).len() implies '0' <= #[trigger] decimal(n)[i] <= '9' by {
            if i < d.len() {
                assert(decimal(n)[i] == d[i]);
            }
        }
    }
}

/// Digits followed by one dot are a whole move number.
proof fn lemma_number_stripped(dn: Seq<char>)
    requires
        dn.len() > 0,
        forall|i: int| 0 <= i < dn.len() ==> '0' <= #[trigger] dn[i] <= '9',
    ensures
        strip_move_number(dn + seq!['.']).len() == 0,
{
    let num = dn + seq!['.'];
    assert(num[dn.len() as int] == '.');
    assert(dots_from(num, dn.len() as int + 1) == 0);
    assert(dots_from(num, dn.len() as int) == 1);
    lemma_digits_run(dn, 0);
    assert(move_number_len(num) == num.len());
}

proof fn lemma_digits_run(dn: Seq<char>, k: int)
    requires
        0 <= k <= dn.len(),
        forall|i: int| 0 <= i < dn.len() ==> '0' <= #[trigger] dn[i] <= '9',
    ensures
        digits_from(dn + seq!['.'], k) == dn.len() - k,
    decreases dn.len() - k,
{
    let num = dn + seq!['.'];
    if k < dn.len() {
        lemma_digits_run(dn, k + 1);
        assert(num[k] == dn[k]);
    } else {
        assert(num[k] == '.');
    }
}

/// A SAN token is a movetext token, is kept when reading, and is one word.
proof fn lemma_san_token(t: Seq<char>)
    requires
        san_ok(t),
    ensures
        tok_ok(t),
        keep_token(t),
        strip_move_number(t) == t,
        words_spec(t) == seq![t],
{
    assert(digits_from(t, 0) == 0);
    assert(t.skip(0) =~= t);
    assert(t[t.len() - 1] == t.last());
    assert(san_char(t.last()));
    assert forall|i: int| 0 <= i < t.len() implies !is_ws(#[trigger] t[i]) by {
        assert(san_char(t[i]));
    }
    assert(!t.contains('\n')) by {
        if t.contains('\n') {
            let k = choose|k: int| 0 <= k < t.len() && t[k] == '\n';
            assert(san_char(t[k]));
        }
    }
    assert(no_comment_chars(t)) by {
        assert forall|i: int| 0 <= i < t.len() implies #[trigger] t[i] != '{' && t[i] != '}' && t[i] != ';' by {
            assert(san_char(t[i]));
        }
    }
    lemma_words_single(t);
    reveal_strlit("1-0");
    reveal_strlit("0-1");
    reveal_strlit("1/2-1/2");
    reveal_strlit("*");
    assert(t != "1-0"@) by {
        assert("1-0"@[0] == '1');
    }
    assert(t != "0-1"@) by {
        assert("0-1"@[0] == '0');
    }
    assert(t != "1/2-1/2"@) by {
        assert("1/2-1/2"@[0] == '1');
    }
    assert(t != "*"@) by {
        assert("*"@[0] == '*');
    }
}

/// A move token of a SAN is a movetext token; its words are the move
/// number (white's moves) and the SAN, and reading keeps only the SAN.
proof fn lemma_move_token(i: int, t: Seq<char>)
    requires
        i >= 0,
        san_ok(t),
    ensures
        tok_ok(move_token(i, t)),
        keep_tokens(words_spec(move_token(i, t))) == seq![t],
{
    lemma_san_token(t);
    if i % 2 == 0 {
        let num = decimal((i / 2 + 1) as nat) + seq!['.'];
        lemma_decimal_digits((i / 2 + 1) as nat);
        let dn = decimal((i / 2 + 1) as nat);
        assert forall|k: int| 0 <= k < num.len() implies !is_ws(#[trigger] num[k]) by {
            if k < dn.len() {
                assert(num[k] == dn[k]);
            }
        }
        lemma_words_single(num);
        let head = num.push(' ');
        lemma_words_push_ws(num, ' ');
        lemma_words_append(head, t);
        let tok = move_token(i, t);
        assert(tok =~= head + t);
        assert(words_spec(tok) == seq![num] + seq![t]);
        assert(seq![num] + seq![t] =~= seq![num, t]);
        assert(num.last() == '.');
        lemma_number_stripped(dn);
        assert(!keep_token(strip_move_number(num)));
        assert(keep_tokens(Seq::<Seq<char>>::empty()) == Seq::<Seq<char>>::empty());
        assert(keep_tokens(seq![num]) =~= Seq::<Seq<char>>::empty()) by {
            assert(seq![num].drop_last() =~= Seq::<Seq<char>>::empty());
        }
        assert(keep_tokens(seq![num, t]) =~= seq![t]) by {
            assert(seq![num, t].drop_last() =~= seq![num]);
            assert(seq![num, t].last() == t);
        }
        // the token as a whole
        assert(tok[0] == dn[0]);
        assert(tok.last() == t.last()) by {
            assert(tok[tok.len() - 1] == t[t.len() - 1]);
        }
        assert(!tok.contains('\n')) by {
            if tok.contains('\n') {
                let k = choose|k: int| 0 <= k < tok.len() && tok[k] == '\n';
                if k < dn.len() {
                    assert(tok[k] == dn[k]);
                } else if k >= head.len() {
                    assert(tok[k] == t[k - head.len()]);
                }
            }
        }
        assert(no_comment_chars(tok)) by {
            assert forall|k: int| 0 <= k < tok.len() implies #[trigger] tok[k] != '{' && tok[k]
                != '}' && tok[k] != ';' by {
                if k < dn.len() {
                    assert(tok[k] == dn[k]);
                } else if k >= head.len() {
                    assert(tok[k] == t[k - head.len()]);
                }
            }
        }
    } else {
        assert(move_token(i, t) == t);
        assert(keep_tokens(Seq::<Seq<char>>::empty()) == Seq::<Seq<char>>::empty());
        assert(keep_tokens(seq![t]) =~= seq![t]) by {
            assert(seq![t].drop_last() =~= Seq::<Seq<char>>::empty());
        }
    }
}

/// The SANs of move records, in order.
pub open spec fn sans_of(moves: Seq<MoveRecord>) -> Seq<Seq<char>> {
    Seq::new(moves.len(), |i: int| moves[i].san@)
}

/// Reading the words of a session's movetext tokens keeps exactly the SANs.
proof fn lemma_session_words(moves: Seq<MoveRecord>)
    requires
        forall|i: int| 0 <= i < moves.len() ==> san_ok(#[trigger] moves[i].san@),
    ensures
        forall|i: int| 0 <= i < moves.len() ==> tok_ok(#[trigger] session_tokens(moves)[i]),
        keep_tokens(all_words(session_tokens(moves))) == sans_of(moves),
    decreases moves.len(),
{
    let toks = session_tokens(moves);
    assert forall|i: int| 0 <= i < moves.len() implies tok_ok(#[trigger] session_tokens(moves)[i]) by {
        lemma_move_token(i, moves[i].san@);
    }
    if moves.len() == 0 {
        assert(toks =~= Seq::<Seq<char>>::empty());
        assert(sans_of(moves) =~= Seq::<Seq<char>>::empty());
    } else {
        let pre = moves.drop_last();
        assert forall|i: int| 0 <= i < pre.len() implies san_ok(#[trigger] pre[i].san@) by {
            assert(pre[i] == moves[i]);
        }
        lemma_session_words(pre);
        assert(toks.drop_last() =~= session_tokens(pre));
        let n = moves.len() - 1;
        lemma_move_token(n, moves[n].san@);
        assert(toks.last() == move_token(n, moves[n].san@));
        lemma_keep_tokens_append(all_words(session_tokens(pre)), words_spec(toks.last()));
        assert(sans_of(moves) =~= sans_of(pre) + seq![moves[n].san@]);
    }
}

/// A line that splits and reads as written: no line break and no
/// carriage return at its end.
pub open spec fn unit_ok(u: Seq<char>) -> bool {
    !u.contains('\n') && strip_cr(u) == u
}

proof fn lemma_no_nl_concat(a: Seq<char>, b: Seq<char>)
    requires
        !a.contains('\n'),
        !b.contains('\n'),
    ensures
        !(a + b).contains('\n'),
{
    if (a + b).contains('\n') {
        let k = choose|k: int| 0 <= k < (a + b).len() && (a + b)[k] == '\n';
        if k < a.len() {
            assert(a[k] == '\n');
        } else {
            assert(b[k - a.len()] == '\n');
        }
    }
}

proof fn lemma_tag_unit(k: Seq<char>, v: Seq<char>)
    requires
        !k.contains('\n'),
        !v.contains('\n'),
    ensures
        unit_ok(tag_unit(k, v)),
        tag_line(k, v) == tag_unit(k, v).push('\n'),
{
    let u = tag_unit(k, v);
    assert(u =~= seq!['['] + k + seq![' ', '"'] + v + seq!['"', ']']);
    assert(!seq!['['].contains('\n')) by {
        assert(seq!['['][0] == '[');
    }
    assert(!seq![' ', '"'].contains('\n')) by {
        assert(seq![' ', '"'][0] == ' ' && seq![' ', '"'][1] == '"');
    }
    assert(!seq!['"', ']'].contains('\n')) by {
        assert(seq!['"', ']'][0] == '"' && seq!['"', ']'][1] == ']');
    }
    lemma_no_nl_concat(seq!['['], k);
    lemma_no_nl_concat(seq!['['] + k, seq![' ', '"']);
    lemma_no_nl_concat(seq!['['] + k + seq![' ', '"'], v);
    lemma_no_nl_concat(seq!['['] + k + seq![' ', '"'] + v, seq!['"', ']']);
    assert(u.last() == ']');
    assert(tag_line(k, v) =~= u.push('\n'));
}

proof fn lemma_escape_plain(n: Seq<char>)
    requires
        !n.contains('"'),
        !n.contains('\\'),
    ensures
        escape_spec(n) == n,
    decreases n.len(),
{
    if n.len() > 0 {
        let n0 = n.drop_last();
        assert(!n0.contains('"') && !n0.contains('\\')) by {
            if n0.contains('"') {
                let k = choose|k: int| 0 <= k < n0.len() && n0[k] == '"';
                assert(n[k] == '"');
            }
            if n0.contains('\\') {
                let k = choose|k: int| 0 <= k < n0.len() && n0[k] == '\\';
                assert(n[k] == '\\');
            }
        }
        lemma_escape_plain(n0);
        assert(n[n.len() - 1] == n.last());
        assert(n0.push(n.last()) =~= n);
    }
}

proof fn lemma_split_pieces_from(s: Seq<char>, c: char)
    ensures
        forall|i: int, j: int|
            0 <= i < split_on(s, c).len() && 0 <= j < split_on(s, c)[i].len() ==> s.contains(
                #[trigger] split_on(s, c)[i][j],
            ),
    decreases s.len(),
{
    crate::text::lemma_split_on_nonempty(s, c);
    if s.len() > 0 {
        let s0 = s.drop_last();
        lemma_split_pieces_from(s0, c);
        crate::text::lemma_split_on_nonempty(s0, c);
        let p = split_on(s0, c);
        assert forall|i: int, j: int|
            0 <= i < split_on(s, c).len() && 0 <= j < split_on(s, c)[i].len() implies s.contains(
                #[trigger] split_on(s, c)[i][j],
            ) by {
            let x = split_on(s, c)[i][j];
            if s.last() == c {
                if i < p.len() {
                    assert(p[i][j] == x);
                    assert(s0.contains(x));
                    let k = choose|k: int| 0 <= k < s0.len() && s0[k] == x;
                    assert(s[k] == x);
                }
            } else {
                if i < p.len() - 1 {
                    assert(p[i][j] == x);
                    let k = choose|k: int| 0 <= k < s0.len() && s0[k] == x;
                    assert(s[k] == x);
                } else {
                    let last = p.last().push(s.last());
                    assert(split_on(s, c)[i] == last);
                    if j < p.last().len() {
                        assert(p[p.len() - 1][j] == x);
                        let k = choose|k: int| 0 <= k < s0.len() && s0[k] == x;
                        assert(s[k] == x);
                    } else {
                        assert(x == s.last());
                        assert(s[s.len() - 1] == x);
                    }
                }
            }
        }
    }
}

proof fn lemma_tc_no_nl(b: u64, i: u64)
    ensures
        !tc_pgn_spec(b, i).contains('\n'),
{
    lemma_decimal_digits(b as nat);
    lemma_decimal_digits(i as nat);
    let t = tc_pgn_spec(b, i);
    if t.contains('\n') {
        let k = choose|k: int| 0 <= k < t.len() && t[k] == '\n';
        let db = decimal(b as nat);
        let di = decimal(i as nat);
        if i == 0 {
            assert(t[k] == db[k]);
        } else {
            assert(t =~= db + seq!['+'] + di);
            if k < db.len() {
                assert(t[k] == db[k]);
            } else if k > db.len() {
                assert(t[k] == di[k - db.len() - 1]);
            }
        }
    }
}

/// The result text of a session is one of the four markers.
pub open spec fn result_marker(r: Seq<char>) -> bool {
    r == "1-0"@ || r == "0-1"@ || r == "1/2-1/2"@ || r == "*"@
}

proof fn lemma_result_marker(r: Seq<char>)
    requires
        result_marker(r),
    ensures
        r.len() > 0,
        !r.contains('\n'),
        !r.contains('"'),
        !is_ws(r[0]) && !is_ws(r.last()) && r[0] != '[',
        no_comment_chars(r),
        !keep_token(r),
        strip_move_number(r) == r,
        forall|i: int| 0 <= i < r.len() ==> !is_ws(#[trigger] r[i]),
{
    reveal_strlit("1-0");
    reveal_strlit("0-1");
    reveal_strlit("1/2-1/2");
    reveal_strlit("*");
    assert(r[r.len() - 1] == r.last());
    if r[0] == '*' {
        assert(digits_from(r, 0) == 0);
    } else {
        assert(r.len() > 1 && !('0' <= r[1] <= '9') && r[1] != '.');
        assert(digits_from(r, 1) == 0);
        assert(digits_from(r, 0) == 1);
        assert(dots_from(r, 1) == 0);
    }
    assert(move_number_len(r) == 0);
    assert(r.skip(0) =~= r);
}

proof fn lemma_known_termination(t: Seq<char>)
    requires
        known_termination(t),
    ensures
        !t.contains('\n'),
        !t.contains('"'),
{
    reveal_strlit("Normal");
    reveal_strlit("Agreement");
    reveal_strlit("Time forfeit");
    reveal_strlit("Abandoned");
    reveal_strlit("Fifty-move rule");
    reveal_strlit("Repetition");
}

/// The header lines of a session's PGN, without their line breaks.
pub open spec fn header_units(s: Session, started: Seq<char>) -> Seq<Seq<char>> {
    let base = Seq::<Seq<char>>::empty().push(tag_unit("Event"@, "p2pawn LAN game"@)).push(
        tag_unit("Site"@, "LAN"@),
    ).push(tag_unit("Date"@, iso_date_spec(started))).push(tag_unit("Round"@, "-"@)).push(
        tag_unit("White"@, escape_spec(s.white_name@)),
    ).push(tag_unit("Black"@, escape_spec(s.black_name@))).push(
        tag_unit("Result"@, s.result_spec()),
    );
    let with_term = match s.end {
        Some(e) => base.push(tag_unit("Termination"@, e.termination@)),
        None => base,
    };
    with_term.push(tag_unit("TimeControl"@, tc_pgn_spec(s.tc.base_secs, s.tc.inc_secs)))
}

proof fn lemma_join_push(a: Seq<Seq<char>>, u: Seq<char>)
    ensures
        join_lines(a.push(u)) == join_lines(a) + u + seq!['\n'],
{
    assert(a.push(u).drop_last() =~= a);
}

proof fn lemma_scan_push(acc: PgnScan, a: Seq<Seq<char>>, u: Seq<char>)
    ensures
        scan_from(acc, a.push(u)) == scan_line(scan_from(acc, a), trim_spec(u)),
{
    assert(a.push(u).drop_last() =~= a);
}

proof fn lemma_key_ok(k: Seq<char>)
    requires
        k == "Event"@ || k == "Site"@ || k == "Date"@ || k == "Round"@ || k == "White"@ || k
            == "Black"@ || k == "Result"@ || k == "Termination"@ || k == "TimeControl"@,
    ensures
        k.len() > 0,
        forall|i: int| 0 <= i < k.len() ==> !is_ws(#[trigger] k[i]),
        !k.contains('\n'),
{
    reveal_strlit("Event");
    reveal_strlit("Site");
    reveal_strlit("Date");
    reveal_strlit("Round");
    reveal_strlit("White");
    reveal_strlit("Black");
    reveal_strlit("Result");
    reveal_strlit("Termination");
    reveal_strlit("TimeControl");
}

/// A header whose key is none of White, Black, Result keeps those tags and
/// the movetext.
proof fn lemma_scan_other(acc: PgnScan, k: Seq<char>, v: Seq<char>)
    requires
        k == "Event"@ || k == "Site"@ || k == "Date"@ || k == "Round"@ || k == "TimeControl"@,
    ensures
        ({
            let n = scan_line(acc, trim_spec(tag_unit(k, v)));
            &&& n.white == acc.white && n.black == acc.black && n.result == acc.result
                && n.movetext == acc.movetext
            &&& n.termination == acc.termination
        }),
{
    lemma_key_ok(k);
    lemma_scan_tag(acc, k, v);
    reveal_strlit("Event");
    reveal_strlit("Site");
    reveal_strlit("Date");
    reveal_strlit("Round");
    reveal_strlit("White");
    reveal_strlit("Black");
    reveal_strlit("Result");
    reveal_strlit("Termination");
    reveal_strlit("TimeControl");
    assert(k != "White"@ && k != "Black"@ && k != "Result"@ && k != "Termination"@) by {
        if k == "Event"@ || k == "Date"@ || k == "Round"@ {
            assert(k[0] != 'W' && k[0] != 'B' && k[0] != 'R' || k[1] != "Result"@[1]);
            assert(k.len() != "Termination"@.len());
        }
        if k == "Site"@ {
            assert(k.len() == 4);
        }
        if k == "TimeControl"@ {
            assert(k.len() > 6);
            assert(k[1] != "Termination"@[1]);
        }
    }
}

/// Reading the `Termination` header line sets the termination, and only it
/// of the fields the law speaks of.
proof fn lemma_scan_termination(acc: PgnScan, v: Seq<char>)
    requires
        !v.contains('"'),
    ensures
        ({
            let n = scan_line(acc, trim_spec(tag_unit("Termination"@, v)));
            &&& n.white == acc.white && n.black == acc.black && n.result == acc.result
                && n.movetext == acc.movetext
            &&& n.termination == v
        }),
{
    let k = "Termination"@;
    lemma_key_ok(k);
    lemma_scan_tag(acc, k, v);
    lemma_unquote(v);
    reveal_strlit("White");
    reveal_strlit("Black");
    reveal_strlit("Result");
    reveal_strlit("Event");
    reveal_strlit("Date");
    reveal_strlit("Termination");
    assert(k != "White"@ && k != "Black"@ && k != "Result"@ && k != "Event"@ && k != "Date"@) by {
        assert(k.len() == 11);
    }
}

/// Reading the White, Black and Result headers of plain values.
proof fn lemma_scan_named(acc: PgnScan, k: Seq<char>, v: Seq<char>)
    requires
        k == "White"@ || k == "Black"@ || k == "Result"@,
        !v.contains('"'),
    ensures
        ({
            let n = scan_line(acc, trim_spec(tag_unit(k, v)));
            &&& n.movetext == acc.movetext
            &&& n.white == (if k == "White"@ { v } else { acc.white })
            &&& n.black == (if k == "Black"@ { v } else { acc.black })
            &&& n.result == (if k == "Result"@ { v } else { acc.result })
            &&& n.termination == acc.termination
        }),
{
    lemma_key_ok(k);
    lemma_scan_tag(acc, k, v);
    lemma_unquote(v);
    reveal_strlit("White");
    reveal_strlit("Black");
    reveal_strlit("Result");
    assert("White"@ != "Black"@) by {
        assert("White"@[0] != "Black"@[0]);
    }
    assert("White"@ != "Result"@) by {
        assert("White"@.len() != "Result"@.len());
    }
    assert("Black"@ != "Result"@) by {
        assert("Black"@.len() != "Result"@.len());
    }
}

/// Reading the header lines of a session's PGN sets White, Black and
/// Result to the players and the result, and leaves the movetext empty.
#[verifier::rlimit(80)]
#[verifier::spinoff_prover]
proof fn lemma_header_scan(s: Session, started: Seq<char>)
    requires
        s.end matches Some(e) ==> known_termination(e.termination@),
        plain_name(s.white_name@),
        plain_name(s.black_name@),
        result_marker(s.result_spec()),
    ensures
        scan_from(scan_lines(seq![]), header_units(s, started)).white == s.white_name@,
        scan_from(scan_lines(seq![]), header_units(s, started)).black == s.black_name@,
        scan_from(scan_lines(seq![]), header_units(s, started)).result == s.result_spec(),
        scan_from(scan_lines(seq![]), header_units(s, started)).movetext == Seq::<char>::empty(),
        scan_from(scan_lines(seq![]), header_units(s, started)).termination == end_termination(s),
{
    let w = s.white_name@;
    let b = s.black_name@;
    let r = s.result_spec();
    lemma_escape_plain(w);
    lemma_escape_plain(b);
    lemma_result_marker(r);
    let u1 = tag_unit("Event"@, "p2pawn LAN game"@);
    let u2 = tag_unit("Site"@, "LAN"@);
    let u3 = tag_unit("Date"@, iso_date_spec(started));
    let u4 = tag_unit("Round"@, "-"@);
    let u5 = tag_unit("White"@, w);
    let u6 = tag_unit("Black"@, b);
    let u7 = tag_unit("Result"@, r);
    let u9 = tag_unit("TimeControl"@, tc_pgn_spec(s.tc.base_secs, s.tc.inc_secs));
    let h0 = Seq::<Seq<char>>::empty();
    let h1 = h0.push(u1);
    let h2 = h1.push(u2);
    let h3 = h2.push(u3);
    let h4 = h3.push(u4);
    let h5 = h4.push(u5);
    let h6 = h5.push(u6);
    let h7 = h6.push(u7);
    let init = scan_lines(seq![]);
    lemma_scan_push(init, h0, u1);
    lemma_scan_push(init, h1, u2);
    lemma_scan_push(init, h2, u3);
    lemma_scan_push(init, h3, u4);
    lemma_scan_push(init, h4, u5);
    lemma_scan_push(init, h5, u6);
    lemma_scan_push(init, h6, u7);
    lemma_scan_other(scan_from(init, h0), "Event"@, "p2pawn LAN game"@);
    lemma_scan_other(scan_from(init, h1), "Site"@, "LAN"@);
    lemma_scan_other(scan_from(init, h2), "Date"@, iso_date_spec(started));
    lemma_scan_other(scan_from(init, h3), "Round"@, "-"@);
    lemma_scan_named(scan_from(init, h4), "White"@, w);
    lemma_scan_named(scan_from(init, h5), "Black"@, b);
    lemma_scan_named(scan_from(init, h6), "Result"@, r);
    reveal_strlit("White");
    reveal_strlit("Black");
    reveal_strlit("Result");
    assert("White"@ != "Black"@) by {
        assert("White"@[0] != "Black"@[0]);
    }
    assert("White"@ != "Result"@) by {
        assert("White"@.len() != "Result"@.len());
    }
    assert("Black"@ != "Result"@) by {
        assert("Black"@.len() != "Result"@.len());
    }
    let a7 = scan_from(init, h7);
    assert(a7.white == w && a7.black == b && a7.result == r && a7.movetext == Seq::<char>::empty());
    assert(a7.termination == Seq::<char>::empty());
    match s.end {
        Some(e) => {
            lemma_known_termination(e.termination@);
            let u8 = tag_unit("Termination"@, e.termination@);
            let h8 = h7.push(u8);
            lemma_scan_push(init, h7, u8);
            lemma_scan_push(init, h8, u9);
            lemma_scan_termination(a7, e.termination@);
            lemma_scan_other(scan_from(init, h8), "TimeControl"@, tc_pgn_spec(s.tc.base_secs, s.tc.inc_secs));
            assert(header_units(s, started) == h8.push(u9));
        },
        None => {
            lemma_scan_push(init, h7, u9);
            lemma_scan_other(a7, "TimeControl"@, tc_pgn_spec(s.tc.base_secs, s.tc.inc_secs));
            assert(header_units(s, started) == h7.push(u9));
        },
    }
}

/// The header lines of a session's PGN are well-formed lines.
#[verifier::rlimit(40)]
proof fn lemma_header_units_ok(s: Session, started: Seq<char>)
    requires
        s.end matches Some(e) ==> known_termination(e.termination@),
        !iso_date_spec(started).contains('\n'),
        plain_name(s.white_name@),
        plain_name(s.black_name@),
        result_marker(s.result_spec()),
    ensures
        forall|i: int|
            0 <= i < header_units(s, started).len() ==> unit_ok(#[trigger] header_units(s, started)[i]),
{
    let w = s.white_name@;
    let b = s.black_name@;
    let r = s.result_spec();
    lemma_escape_plain(w);
    lemma_escape_plain(b);
    lemma_result_marker(r);
    lemma_tc_no_nl(s.tc.base_secs, s.tc.inc_secs);
    reveal_strlit("p2pawn LAN game");
    reveal_strlit("LAN");
    reveal_strlit("-");
    lemma_key_ok("Event"@);
    lemma_key_ok("Site"@);
    lemma_key_ok("Date"@);
    lemma_key_ok("Round"@);
    lemma_key_ok("White"@);
    lemma_key_ok("Black"@);
    lemma_key_ok("Result"@);
    lemma_key_ok("Termination"@);
    lemma_key_ok("TimeControl"@);
    lemma_tag_unit("Event"@, "p2pawn LAN game"@);
    lemma_tag_unit("Site"@, "LAN"@);
    lemma_tag_unit("Date"@, iso_date_spec(started));
    lemma_tag_unit("Round"@, "-"@);
    lemma_tag_unit("White"@, w);
    lemma_tag_unit("Black"@, b);
    lemma_tag_unit("Result"@, r);
    lemma_tag_unit("TimeControl"@, tc_pgn_spec(s.tc.base_secs, s.tc.inc_secs));
    match s.end {
        Some(e) => {
            lemma_known_termination(e.termination@);
            lemma_tag_unit("Termination"@, e.termination@);
        },
        None => {},
    }
    let h = header_units(s, started);
    assert forall|i: int| 0 <= i < h.len() implies unit_ok(#[trigger] h[i]) by {}
}

/// The PGN text of a session is its header lines, a blank line, the
/// movetext and the result line.
#[verifier::rlimit(80)]
#[verifier::spinoff_prover]
proof fn lemma_header_text(s: Session, started: Seq<char>)
    ensures
        pgn_spec(s, started) == join_lines(header_units(s, started)) + seq!['\n'] + movetext_spec(
            session_tokens(s.moves@),
        ) + s.result_spec() + seq!['\n'],
{
    let w = s.white_name@;
    let b = s.black_name@;
    let r = s.result_spec();
    let v9 = tc_pgn_spec(s.tc.base_secs, s.tc.inc_secs);
    let t1 = tag_line("Event"@, "p2pawn LAN game"@);
    let t2 = tag_line("Site"@, "LAN"@);
    let t3 = tag_line("Date"@, iso_date_spec(started));
    let t4 = tag_line("Round"@, "-"@);
    let t5 = tag_line("White"@, escape_spec(w));
    let t6 = tag_line("Black"@, escape_spec(b));
    let t7 = tag_line("Result"@, r);
    let t9 = tag_line("TimeControl"@, v9);
    let u1 = tag_unit("Event"@, "p2pawn LAN game"@);
    let u2 = tag_unit("Site"@, "LAN"@);
    let u3 = tag_unit("Date"@, iso_date_spec(started));
    let u4 = tag_unit("Round"@, "-"@);
    let u5 = tag_unit("White"@, escape_spec(w));
    let u6 = tag_unit("Black"@, escape_spec(b));
    let u7 = tag_unit("Result"@, r);
    let u9 = tag_unit("TimeControl"@, v9);
    assert(t1 =~= u1.push('\n'));
    assert(t2 =~= u2.push('\n'));
    assert(t3 =~= u3.push('\n'));
    assert(t4 =~= u4.push('\n'));
    assert(t5 =~= u5.push('\n'));
    assert(t6 =~= u6.push('\n'));
    assert(t7 =~= u7.push('\n'));
    assert(t9 =~= u9.push('\n'));
    let h0 = Seq::<Seq<char>>::empty();
    let h1 = h0.push(u1);
    let h2 = h1.push(u2);
    let h3 = h2.push(u3);
    let h4 = h3.push(u4);
    let h5 = h4.push(u5);
    let h6 = h5.push(u6);
    let h7 = h6.push(u7);
    lemma_join_push(h0, u1);
    lemma_join_push(h1, u2);
    lemma_join_push(h2, u3);
    lemma_join_push(h3, u4);
    lemma_join_push(h4, u5);
    lemma_join_push(h5, u6);
    lemma_join_push(h6, u7);
    assert(join_lines(h1) =~= t1);
    assert(join_lines(h2) =~= t1 + t2);
    assert(join_lines(h3) =~= t1 + t2 + t3);
    assert(join_lines(h4) =~= t1 + t2 + t3 + t4);
    assert(join_lines(h5) =~= t1 + t2 + t3 + t4 + t5);
    assert(join_lines(h6) =~= t1 + t2 + t3 + t4 + t5 + t6);
    assert(join_lines(h7) =~= t1 + t2 + t3 + t4 + t5 + t6 + t7);
    let hp7 = t1 + t2 + t3 + t4 + t5 + t6 + t7;
    let rest = seq!['\n'] + movetext_spec(session_tokens(s.moves@)) + r + seq!['\n'];
    match s.end {
        Some(e) => {
            let t8 = tag_line("Termination"@, e.termination@);
            let u8 = tag_unit("Termination"@, e.termination@);
            assert(t8 =~= u8.push('\n'));
            let h8 = h7.push(u8);
            lemma_join_push(h7, u8);
            lemma_join_push(h8, u9);
            assert(header_units(s, started) == h8.push(u9));
            assert(join_lines(h8.push(u9)) =~= hp7 + t8 + t9);
            assert(pgn_spec(s, started) =~= hp7 + t8 + t9 + rest);
        },
        None => {
            lemma_join_push(h7, u9);
            assert(header_units(s, started) == h7.push(u9));
            assert(join_lines(h7.push(u9)) =~= hp7 + t9);
            assert(pgn_spec(s, started) =~= hp7 + t9 + rest);
        },
    }
}

/// The `Termination` value of a session's PGN: how it ended, or nothing
/// while it runs.
pub open spec fn end_termination(s: Session) -> Seq<char> {
    match s.end {
        Some(e) => e.termination@,
        None => seq![],
    }
}

/// A player name that reads back as written: no double quote, backslash
/// or line break.
pub open spec fn plain_name(n: Seq<char>) -> bool {
    !n.contains('"') && !n.contains('\\') && !n.contains('\n')
}

/// A stored game reads back: reading the PGN text of a session (as
/// `parse_pgn` does, line by line) gives the names of its players, its
/// result, how it ended (the `Termination` tag) and the SAN of each of its
/// moves in order, when the names need no escaping and hold no line break
/// and the date written from the start time holds no line break.
pub proof fn law_pgn_roundtrip(s: Session, started: Seq<char>)
    requires
        s.wf(),
        !iso_date_spec(started).contains('\n'),
        plain_name(s.white_name@),
        plain_name(s.black_name@),
    ensures
        ({
            let sc = scan_lines(lines_spec(pgn_spec(s, started)));
            &&& sc.white == s.white_name@
            &&& sc.black == s.black_name@
            &&& sc.result == s.result_spec()
            &&& sc.termination == end_termination(s)
            &&& tokens_spec(sc.movetext) == sans_of(s.moves@)
        }),
{
    let moves = s.moves@;
    let r = s.result_spec();
    assert(result_marker(r)) by {
        match s.end {
            Some(e) => match e.outcome {
                Outcome::Win(Side::White) => {},
                Outcome::Win(Side::Black) => {},
                Outcome::Draw => {},
            },
            None => {},
        }
    }
    lemma_result_marker(r);
    // Every recorded SAN is a SAN token.
    assert forall|i: int| 0 <= i < moves.len() implies san_ok(#[trigger] moves[i].san@) by {
        let h = s.hist();
        assert(records_match(moves, h));
        assert(legal_line(h));
        assert(h[i].on_board());
        lemma_san_ok(line_end(h.take(i)), h[i]);
    }
    lemma_session_words(moves);
    let toks = session_tokens(moves);
    let L = lemma_movetext_lines(toks);
    lemma_header_units_ok(s, started);
    lemma_header_text(s, started);
    lemma_header_scan(s, started);
    let hu = header_units(s, started);
    let units = hu.push(Seq::<char>::empty()) + L + seq![r];
    // The text is the units joined.
    lemma_join_push(hu, Seq::<char>::empty());
    lemma_join_lines_append(hu.push(Seq::<char>::empty()), L);
    lemma_join_lines_append(hu.push(Seq::<char>::empty()) + L, seq![r]);
    lemma_join_push(Seq::<Seq<char>>::empty(), r);
    assert(seq![r] =~= Seq::<Seq<char>>::empty().push(r));
    assert(pgn_spec(s, started) =~= join_lines(units));
    // Its lines are the units.
    assert forall|i: int| 0 <= i < units.len() implies !(#[trigger] units[i]).contains('\n')
        && strip_cr(units[i]) == units[i] by {
        let n = hu.len() as int;
        if i < n {
            assert(units[i] == hu[i]);
            assert(unit_ok(hu[i]));
        } else if i == n {
            assert(units[i] == Seq::<char>::empty());
        } else if i < n + 1 + L.len() {
            assert(units[i] == L[i - n - 1]);
            let l = L[i - n - 1];
            assert(line_ok(l));
            if l.len() > 0 {
                assert(l[l.len() - 1] == l.last());
            }
        } else {
            assert(units[i] == r);
            assert(r[r.len() - 1] == r.last());
        }
    }
    lemma_lines_of_join(units);
    // Reading the units.
    let init = scan_lines(seq![]);
    lemma_scan_lines_from(units);
    lemma_scan_from_append(init, hu.push(Seq::<char>::empty()) + L, seq![r]);
    lemma_scan_from_append(init, hu.push(Seq::<char>::empty()), L);
    lemma_scan_push(init, hu, Seq::<char>::empty());
    let a0 = scan_from(init, hu);
    assert(trim_spec(Seq::<char>::empty()) =~= Seq::<char>::empty()) by {
        lemma_trim_solid_ends(Seq::<char>::empty());
    }
    let a1 = scan_from(init, hu.push(Seq::<char>::empty()));
    assert(a1 == a0);
    lemma_scan_movetext(a1, L);
    let a2 = scan_from(a1, L);
    assert(a2.movetext == scan_text(L)) by {
        assert(Seq::<char>::empty() + scan_text(L) =~= scan_text(L));
    }
    lemma_scan_push(a2, Seq::<Seq<char>>::empty(), r);
    assert(seq![r] =~= Seq::<Seq<char>>::empty().push(r));
    lemma_trim_solid_ends(r);
    let sc = scan_from(a2, seq![r]);
    assert(sc.white == s.white_name@ && sc.black == s.black_name@ && sc.result == r);
    assert(sc.termination == end_termination(s));
    assert(sc.movetext == scan_text(L) + r + seq!['\n']);
    // The tokens read.
    lemma_scan_text_facts(L);
    assert(no_comment_chars(seq!['\n'])) by {
        assert(seq!['\n'][0] == '\n');
    }
    lemma_no_comment_concat(scan_text(L), r);
    lemma_no_comment_concat(scan_text(L) + r, seq!['\n']);
    lemma_clean_identity(sc.movetext);
    assert(sc.movetext =~= scan_text(L) + r.push('\n'));
    lemma_words_append(scan_text(L), r.push('\n'));
    lemma_words_push_ws(r, '\n');
    lemma_words_single(r);
    assert(words_spec(sc.movetext) == all_words(toks) + seq![r]);
    lemma_keep_tokens_append(all_words(toks), seq![r]);
    assert(keep_tokens(Seq::<Seq<char>>::empty()) == Seq::<Seq<char>>::empty());
    assert(keep_tokens(seq![r]) =~= Seq::<Seq<char>>::empty()) by {
        assert(seq![r].drop_last() =~= Seq::<Seq<char>>::empty());
    }
    assert(tokens_spec(sc.movetext) =~= sans_of(moves));
    assert(scan_lines(lines_spec(pgn_spec(s, started))) == sc);
}

/// Movetext tokens keep their order: the tokens of two comment-free texts
/// joined by white space are the tokens of the first followed by those of
/// the second.
pub proof fn law_tokens_keep_order(a: Seq<char>, sep: char, b: Seq<char>)
    requires
        is_ws(sep),
        no_comment_chars(a),
        no_comment_chars(b),
    ensures
        tokens_spec(a.push(sep) + b) == tokens_spec(a) + tokens_spec(b),
{
    let a1 = a.push(sep);
    assert(no_comment_chars(seq![sep]));
    assert(a1 =~= a + seq![sep]);
    lemma_no_comment_concat(a, seq![sep]);
    lemma_no_comment_concat(a1, b);
    lemma_clean_identity(a);
    lemma_clean_identity(b);
    lemma_clean_identity(a1 + b);
    lemma_words_append(a1, b);
    lemma_words_push_ws(a, sep);
    lemma_keep_tokens_append(words_spec(a), words_spec(b));
}

} // verus!
