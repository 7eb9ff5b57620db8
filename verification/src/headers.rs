//! Header text: one `name:value` pair per line, lines split on `\n`.
use vstd::prelude::*;
use vstd::utf8::encode_utf8;

use crate::text::{chars_of, push_char, push_str, string_of};

verus! {

/// `s` split at every `sep`, as `str::split` does: one piece more than
/// there are separators.
pub open spec fn split_on(s: Seq<char>, sep: char) -> Seq<Seq<char>>
    decreases s.len(),
{
    if s.len() == 0 {
        seq![Seq::empty()]
    } else {
        let r = split_on(s.drop_last(), sep);
        if s.last() == sep {
            r.push(Seq::empty())
        } else {
            r.update(r.len() - 1, r.last().push(s.last()))
        }
    }
}

/// A split always has at least one piece.
pub proof fn lemma_split_on_len(s: Seq<char>, sep: char)
    ensures
        split_on(s, sep).len() >= 1,
    decreases s.len(),
{
    if s.len() > 0 {
        lemma_split_on_len(s.drop_last(), sep);
    }
}

/// The index of the first `c` in `s`.
pub open spec fn find_char(s: Seq<char>, c: char) -> Option<int>
    decreases s.len(),
{
    if s.len() == 0 {
        None
    } else if s[0] == c {
        Some(0)
    } else {
        match find_char(s.drop_first(), c) {
            Some(i) => Some(i + 1),
            None => None,
        }
    }
}

/// The first `c` in `s` is at `i` when none comes before it (with `i` the
/// length when there is none).
pub proof fn lemma_find_char(s: Seq<char>, c: char, i: int)
    requires
        0 <= i <= s.len(),
        forall|j: int| 0 <= j < i ==> s[j] != c,
        i < s.len() ==> s[i] == c,
    ensures
        find_char(s, c) == (if i < s.len() { Some(i) } else { None::<int> }),
    decreases s.len(),
{
    if s.len() > 0 && i > 0 {
        assert(s[0] != c);
        lemma_find_char(s.drop_first(), c, i - 1);
    }
}

/// `str::split_once`: the text before and after the first `c`.
pub open spec fn split_once(line: Seq<char>, c: char) -> Option<(Seq<char>, Seq<char>)> {
    match find_char(line, c) {
        Some(i) => Some((line.take(i), line.skip(i + 1))),
        None => None,
    }
}

/// The pairs of the lines that hold a `:`, split at the first one, in order.
/// A line without `:` (an empty one too) gives no pair.
pub open spec fn pairs_of_lines(lines: Seq<Seq<char>>) -> Seq<(Seq<char>, Seq<char>)>
    decreases lines.len(),
{
    if lines.len() == 0 {
        Seq::empty()
    } else {
        let rest = pairs_of_lines(lines.drop_last());
        match split_once(lines.last(), ':') {
            Some(p) => rest.push(p),
            None => rest,
        }
    }
}

/// The header pairs of a header text.
pub open spec fn header_pairs(s: Seq<char>) -> Seq<(Seq<char>, Seq<char>)> {
    pairs_of_lines(split_on(s, '\n'))
}

/// String pairs seen as character sequences.
pub open spec fn pairs_view(v: Seq<(String, String)>) -> Seq<(Seq<char>, Seq<char>)> {
    v.map_values(|p: (String, String)| (p.0@, p.1@))
}

/// Splits `cs[start..end]` at its first `c`.
pub(crate) fn split_line(cs: &Vec<char>, start: usize, end: usize, c: char) -> (r: Option<(String, String)>)
    requires
        start <= end <= cs@.len(),
    ensures
        match split_once(cs@.subrange(start as int, end as int), c) {
            Some(p) => r matches Some(q) && q.0@ == p.0 && q.1@ == p.1,
            None => r is None,
        },
{
    let ghost line = cs@.subrange(start as int, end as int);
    let mut i = start;
    while i < end && cs[i] != c
        invariant
            start <= i <= end <= cs@.len(),
            line == cs@.subrange(start as int, end as int),
            forall|j: int| start <= j < i ==> cs@[j] != c,
        decreases end - i,
    {
        i = i + 1;
    }
    proof {
        lemma_find_char(line, c, i - start);
    }
    if i < end {
        let k = string_of(cs, start, i);
        let v = string_of(cs, i + 1, end);
        assert(line.take(i - start) =~= cs@.subrange(start as int, i as int));
        assert(line.skip(i - start + 1) =~= cs@.subrange(i + 1, end as int));
        Some((k, v))
    } else {
        None
    }
}

/// Splits a header text into lines and each line holding a `:` into the
/// name before the first `:` and the value after it. Lines without `:`,
/// empty ones included, are skipped.
pub fn parse_header_pairs(header_str: &str) -> (res: Vec<(String, String)>)
    ensures
        pairs_view(res@) == header_pairs(header_str@),
{
    let cs = chars_of(header_str);
    let n = cs.len();
    let mut res: Vec<(String, String)> = Vec::new();
    let mut start: usize = 0;
    let mut i: usize = 0;
    let ghost mut lines: Seq<Seq<char>> = Seq::empty();
    assert(cs@.take(0) =~= Seq::<char>::empty());
    assert(cs@.subrange(0, 0) =~= Seq::<char>::empty());
    while i < n
        invariant
            n == cs@.len(),
            start <= i <= n,
            split_on(cs@.take(i as int), '\n') == lines.push(cs@.subrange(start as int, i as int)),
            pairs_view(res@) == pairs_of_lines(lines),
        decreases n - i,
    {
        let ghost prev = cs@.take(i as int);
        assert(cs@.take(i + 1).drop_last() =~= prev);
        if cs[i] == '\n' {
            let piece = split_line(&cs, start, i, ':');
            let ghost line = cs@.subrange(start as int, i as int);
            let ghost old_res = res@;
            match piece {
                Some(p) => {
                    res.push(p);
                    assert(pairs_view(res@) =~= pairs_view(old_res).push((p.0@, p.1@)));
                },
                None => {},
            }
            proof {
                assert(lines.push(line).drop_last() =~= lines);
                lines = lines.push(line);
                assert(cs@.subrange(i + 1, i + 1) =~= Seq::<char>::empty());
            }
            start = i + 1;
        } else {
            assert(cs@.subrange(start as int, i + 1) =~= cs@.subrange(start as int, i as int).push(cs@[i as int]));
        }
        i = i + 1;
    }
    let piece = split_line(&cs, start, n, ':');
    let ghost line = cs@.subrange(start as int, n as int);
    let ghost old_res = res@;
    match piece {
        Some(p) => {
            res.push(p);
            assert(pairs_view(res@) =~= pairs_view(old_res).push((p.0@, p.1@)));
        },
        None => {},
    }
    proof {
        assert(lines.push(line).drop_last() =~= lines);
        assert(cs@.take(n as int) =~= header_str@);
    }
    res
}

/// The text shown for a header value that is not visible ASCII.
pub open spec fn malformed_text() -> Seq<char> {
    seq!['M', 'A', 'L', 'F', 'O', 'R', 'M', 'E', 'D']
}

/// A header value as shown: its text, or `MALFORMED` when it has none.
pub open spec fn shown_value(value: Option<Seq<char>>) -> Seq<char> {
    match value {
        Some(v) => v,
        None => malformed_text(),
    }
}

/// The text of one header line, without its `\n`.
pub open spec fn header_line_text(p: (Seq<char>, Option<Seq<char>>)) -> Seq<char> {
    p.0 + seq![':'] + shown_value(p.1)
}

/// Header pairs written one per line as `name:value\n`.
pub open spec fn format_header_lines(pairs: Seq<(Seq<char>, Option<Seq<char>>)>) -> Seq<char>
    decreases pairs.len(),
{
    if pairs.len() == 0 {
        Seq::empty()
    } else {
        format_header_lines(pairs.drop_last()) + header_line_text(pairs.last()) + seq!['\n']
    }
}

/// Pairs with optional values, seen as character sequences.
pub open spec fn opt_pairs_view(v: Seq<(String, Option<String>)>) -> Seq<(Seq<char>, Option<Seq<char>>)> {
    v.map_values(
        |p: (String, Option<String>)|
            (
                p.0@,
                match p.1 {
                    Some(x) => Some(x@),
                    None => None,
                },
            ),
    )
}

/// Writes header pairs one per line as `name:value\n`; a value that is not
/// visible ASCII (given as `None`) is written as `MALFORMED`.
pub fn format_headers(header_map: &Vec<(String, Option<String>)>) -> (headers: String)
    ensures
        headers@ == format_header_lines(opt_pairs_view(header_map@)),
{
    let mut headers = String::new();
    let mut i: usize = 0;
    while i < header_map.len()
        invariant
            i <= header_map@.len(),
            headers@ == format_header_lines(opt_pairs_view(header_map@).take(i as int)),
        decreases header_map@.len() - i,
    {
        let ghost before = headers@;
        let (key, value) = &header_map[i];
        push_str(&mut headers, key.as_str());
        push_char(&mut headers, ':');
        match value {
            Some(v) => push_str(&mut headers, v.as_str()),
            None => {
                push_str(&mut headers, "MALFORMED");
                proof {
                    reveal_strlit("MALFORMED");
                }
            },
        }
        push_char(&mut headers, '\n');
        proof {
            let ps = opt_pairs_view(header_map@);
            assert(ps.take(i + 1).drop_last() =~= ps.take(i as int));
            assert(ps.take(i + 1).last() == ps[i as int]);
            assert(headers@ =~= before + header_line_text(ps[i as int]) + seq!['\n']);
        }
        i = i + 1;
    }
    proof {
        assert(opt_pairs_view(header_map@).take(header_map@.len() as int) =~= opt_pairs_view(header_map@));
    }
    headers
}

/// Appending text without the separator extends the last piece of a split.
pub proof fn lemma_split_append(s: Seq<char>, t: Seq<char>, sep: char)
    requires
        forall|i: int| 0 <= i < t.len() ==> t[i] != sep,
    ensures
        split_on(s, sep).len() >= 1,
        split_on(s + t, sep) == split_on(s, sep).update(
            split_on(s, sep).len() - 1,
            split_on(s, sep).last() + t,
        ),
    decreases t.len(),
{
    lemma_split_on_len(s, sep);
    if t.len() == 0 {
        assert(s + t =~= s);
        assert(split_on(s, sep).last() + t =~= split_on(s, sep).last());
        assert(split_on(s, sep).update(split_on(s, sep).len() - 1, split_on(s, sep).last())
            =~= split_on(s, sep));
    } else {
        let t0 = t.drop_last();
        lemma_split_append(s, t0, sep);
        assert((s + t).drop_last() =~= s + t0);
        assert((s + t).last() == t.last());
        assert(split_on(s, sep).last() + t0 + seq![t.last()] =~= split_on(s, sep).last() + t);
        let r = split_on(s + t0, sep);
        assert(r.last() == split_on(s, sep).last() + t0);
        assert(r.last().push(t.last()) =~= split_on(s, sep).last() + t);
        assert(split_on(s + t, sep) =~= split_on(s, sep).update(
            split_on(s, sep).len() - 1,
            split_on(s, sep).last() + t,
        ));
    }
}

/// Formatted header lines split into one piece per pair and an empty tail.
proof fn lemma_format_lines_split(pairs: Seq<(Seq<char>, Option<Seq<char>>)>)
    requires
        forall|i: int, j: int|
            0 <= i < pairs.len() && 0 <= j < header_line_text(pairs[i]).len() ==> #[trigger] header_line_text(
                pairs[i],
            )[j] != '\n',
    ensures
        split_on(format_header_lines(pairs), '\n') == pairs.map_values(
            |p: (Seq<char>, Option<Seq<char>>)| header_line_text(p),
        ).push(Seq::empty()),
    decreases pairs.len(),
{
    let lines = pairs.map_values(|p: (Seq<char>, Option<Seq<char>>)| header_line_text(p));
    if pairs.len() == 0 {
        assert(lines =~= Seq::<Seq<char>>::empty());
        assert(split_on(Seq::<char>::empty(), '\n') =~= seq![Seq::<char>::empty()]);
        assert(lines.push(Seq::empty()) =~= seq![Seq::<char>::empty()]);
    } else {
        let rest = pairs.drop_last();
        let t = header_line_text(pairs.last());
        assert forall|i: int, j: int|
            0 <= i < rest.len() && 0 <= j < header_line_text(rest[i]).len() implies #[trigger] header_line_text(
            rest[i],
        )[j] != '\n' by {
            assert(rest[i] == pairs[i]);
        }
        lemma_format_lines_split(rest);
        let f = format_header_lines(rest);
        assert forall|j: int| 0 <= j < t.len() implies t[j] != '\n' by {
            assert(header_line_text(pairs[pairs.len() - 1])[j] != '\n');
        }
        lemma_split_append(f, t, '\n');
        let whole = f + t + seq!['\n'];
        assert(format_header_lines(pairs) == whole);
        assert(whole.drop_last() =~= f + t);
        let rest_lines = rest.map_values(|p: (Seq<char>, Option<Seq<char>>)| header_line_text(p));
        assert(split_on(f + t, '\n') =~= rest_lines.push(t));
        assert(lines =~= rest_lines.push(t));
    }
}

/// A line `name:value` whose name holds no `:` splits back into its parts.
proof fn lemma_split_header_line(p: (Seq<char>, Option<Seq<char>>))
    requires
        forall|j: int| 0 <= j < p.0.len() ==> p.0[j] != ':',
    ensures
        split_once(header_line_text(p), ':') == Some((p.0, shown_value(p.1))),
{
    let line = header_line_text(p);
    lemma_find_char(line, ':', p.0.len() as int);
    assert(line.take(p.0.len() as int) =~= p.0);
    assert(line.skip(p.0.len() as int + 1) =~= shown_value(p.1));
}

/// The pairs of the lines of formatted headers, and of the empty tail.
proof fn lemma_pairs_of_formatted(pairs: Seq<(Seq<char>, Option<Seq<char>>)>)
    requires
        forall|i: int, j: int| 0 <= i < pairs.len() && 0 <= j < pairs[i].0.len() ==> #[trigger] pairs[i].0[j] != ':',
    ensures
        pairs_of_lines(pairs.map_values(|p: (Seq<char>, Option<Seq<char>>)| header_line_text(p)))
            == pairs.map_values(|p: (Seq<char>, Option<Seq<char>>)| (p.0, shown_value(p.1))),
    decreases pairs.len(),
{
    let lines = pairs.map_values(|p: (Seq<char>, Option<Seq<char>>)| header_line_text(p));
    let want = pairs.map_values(|p: (Seq<char>, Option<Seq<char>>)| (p.0, shown_value(p.1)));
    if pairs.len() == 0 {
        assert(want =~= Seq::<(Seq<char>, Seq<char>)>::empty());
    } else {
        let rest = pairs.drop_last();
        assert forall|i: int, j: int| 0 <= i < rest.len() && 0 <= j < rest[i].0.len() implies #[trigger] rest[i].0[j]
            != ':' by {
            assert(rest[i] == pairs[i]);
        }
        lemma_pairs_of_formatted(rest);
        assert forall|j: int| 0 <= j < pairs.last().0.len() implies pairs.last().0[j] != ':' by {
            assert(pairs[pairs.len() - 1].0[j] != ':');
        }
        lemma_split_header_line(pairs.last());
        assert(lines.drop_last() =~= rest.map_values(
            |p: (Seq<char>, Option<Seq<char>>)| header_line_text(p),
        ));
        assert(want =~= rest.map_values(
            |p: (Seq<char>, Option<Seq<char>>)| (p.0, shown_value(p.1)),
        ).push((pairs.last().0, shown_value(pairs.last().1))));
    }
}

/// Parsing formatted headers gives the pairs back (a missing value as
/// `MALFORMED`), for names without `:` or `\n` and values without `\n`,
/// which holds of every name and shown value of an HTTP header map.
pub proof fn lemma_header_text_round_trip(pairs: Seq<(Seq<char>, Option<Seq<char>>)>)
    requires
        forall|i: int, j: int|
            0 <= i < pairs.len() && 0 <= j < pairs[i].0.len() ==> #[trigger] pairs[i].0[j] != ':'
                && pairs[i].0[j] != '\n',
        forall|i: int, j: int|
            0 <= i < pairs.len() && 0 <= j < shown_value(pairs[i].1).len() ==> #[trigger] shown_value(
                pairs[i].1,
            )[j] != '\n',
    ensures
        header_pairs(format_header_lines(pairs)) == pairs.map_values(
            |p: (Seq<char>, Option<Seq<char>>)| (p.0, shown_value(p.1)),
        ),
{
    assert forall|i: int, j: int|
        0 <= i < pairs.len() && 0 <= j < header_line_text(pairs[i]).len() implies #[trigger] header_line_text(
        pairs[i],
    )[j] != '\n' by {
        let k = pairs[i].0;
        if j < k.len() {
            assert(header_line_text(pairs[i])[j] == k[j]);
            assert(pairs[i].0[j] != '\n');
        } else if j == k.len() {
        } else {
            assert(header_line_text(pairs[i])[j] == shown_value(pairs[i].1)[j - k.len() - 1]);
            assert(shown_value(pairs[i].1)[j - k.len() - 1] != '\n');
        }
    }
    lemma_format_lines_split(pairs);
    let lines = pairs.map_values(|p: (Seq<char>, Option<Seq<char>>)| header_line_text(p));
    assert(lines.push(Seq::<char>::empty()).drop_last() =~= lines);
    assert(find_char(Seq::<char>::empty(), ':') is None);
    lemma_pairs_of_formatted(pairs);
}

} // verus!
