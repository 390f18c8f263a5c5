//! Decoder for the textual byte encoding used by the asset files.
//!
//! The input is line-oriented text. On each line, only the part after a
//! `db ` marker holds data; it is split on commas into items. An item whose
//! trimmed form has at least four characters, with hex digits at positions
//! one and two, contributes one byte; every other item is silently skipped.

use vstd::prelude::*;

verus! {

/// Newline, the line separator of the encoding.
pub const LINE_SEP: u8 = 10;

/// Comma, the item separator within a line's data section.
pub const ITEM_SEP: u8 = 44;

/// Bytes treated as whitespace when an item is trimmed.
pub open spec fn is_space(b: u8) -> bool {
    b == 32 || b == 9 || b == 13 || b == 10
}

/// ASCII hexadecimal digits, upper or lower case.
pub open spec fn is_hex_digit(b: u8) -> bool {
    (48 <= b && b <= 57) || (65 <= b && b <= 70) || (97 <= b && b <= 102)
}

/// Numeric value of an ASCII hexadecimal digit.
pub open spec fn hex_val(b: u8) -> int {
    if 48 <= b && b <= 57 {
        b - 48
    } else if 65 <= b && b <= 70 {
        b - 55
    } else {
        b - 87
    }
}

/// Splits `s` on the separator `d`; `n` separators yield `n + 1` parts.
pub open spec fn split_on(s: Seq<u8>, d: u8) -> Seq<Seq<u8>>
    decreases s.len(),
{
    if s.len() == 0 {
        seq![Seq::<u8>::empty()]
    } else if s[0] == d {
        seq![Seq::<u8>::empty()] + split_on(s.skip(1), d)
    } else {
        let rest = split_on(s.skip(1), d);
        seq![seq![s[0]] + rest[0]] + rest.skip(1)
    }
}

/// `s` with leading whitespace removed.
pub open spec fn trim_start(s: Seq<u8>) -> Seq<u8>
    decreases s.len(),
{
    if s.len() > 0 && is_space(s[0]) {
        trim_start(s.skip(1))
    } else {
        s
    }
}

/// `s` with trailing whitespace removed.
pub open spec fn trim_end(s: Seq<u8>) -> Seq<u8>
    decreases s.len(),
{
    if s.len() > 0 && is_space(s[s.len() - 1]) {
        trim_end(s.take(s.len() - 1))
    } else {
        s
    }
}

/// `s` with leading and trailing whitespace removed.
pub open spec fn trim_spec(s: Seq<u8>) -> Seq<u8> {
    trim_end(trim_start(s))
}

/// The bytes one comma-separated item contributes: one byte read from the
/// hex digits at positions one and two of the trimmed item, or nothing.
pub open spec fn token_bytes(item: Seq<u8>) -> Seq<u8> {
    let t = trim_spec(item);
    if t.len() >= 4 && is_hex_digit(t[1]) && is_hex_digit(t[2]) {
        seq![(16 * hex_val(t[1]) + hex_val(t[2])) as u8]
    } else {
        Seq::<u8>::empty()
    }
}

/// Concatenation of the bytes of a sequence of items, in item order.
pub open spec fn tokens_bytes(items: Seq<Seq<u8>>) -> Seq<u8>
    decreases items.len(),
{
    if items.len() == 0 {
        Seq::<u8>::empty()
    } else {
        token_bytes(items[0]) + tokens_bytes(items.skip(1))
    }
}

/// Position of the first `db ` marker in a line, or a negative value if
/// the line has none.
pub open spec fn marker_pos(line: Seq<u8>) -> int
    decreases line.len(),
{
    if line.len() < 3 {
        -1
    } else if line[0] == 100 && line[1] == 98 && line[2] == 32 {
        0
    } else {
        let r = marker_pos(line.skip(1));
        if r < 0 {
            -1
        } else {
            r + 1
        }
    }
}

/// The data section of a line: everything after the first `db ` marker,
/// or nothing when the line has no marker.
pub open spec fn line_payload(line: Seq<u8>) -> Seq<u8> {
    if marker_pos(line) < 0 {
        Seq::<u8>::empty()
    } else {
        line.skip(marker_pos(line) + 3)
    }
}

/// The bytes one line contributes.
pub open spec fn line_bytes(line: Seq<u8>) -> Seq<u8> {
    tokens_bytes(split_on(line_payload(line), ITEM_SEP))
}

/// Concatenation of the bytes of a sequence of lines, in line order.
pub open spec fn lines_bytes(lines: Seq<Seq<u8>>) -> Seq<u8>
    decreases lines.len(),
{
    if lines.len() == 0 {
        Seq::<u8>::empty()
    } else {
        line_bytes(lines[0]) + lines_bytes(lines.skip(1))
    }
}

/// The full decoding of a text: the bytes of its lines, in order.
pub open spec fn decode_spec(text: Seq<u8>) -> Seq<u8> {
    lines_bytes(split_on(text, LINE_SEP))
}

/// Views of a sequence of byte vectors.
spec fn views(vs: Seq<Vec<u8>>) -> Seq<Seq<u8>> {
    vs.map_values(|v: Vec<u8>| v@)
}

/// A partial split: the parts already finished, with the part under
/// construction prefixed onto the first part of the remainder's split.
spec fn prepend_first(c: Seq<u8>, parts: Seq<Seq<u8>>) -> Seq<Seq<u8>> {
    seq![c + parts[0]] + parts.skip(1)
}

proof fn lemma_split_on_nonempty(s: Seq<u8>, d: u8)
    ensures
        split_on(s, d).len() >= 1,
{
    if s.len() == 0 {
    } else if s[0] == d {
    } else {
    }
}

proof fn lemma_views_push(vs: Seq<Vec<u8>>, v: Vec<u8>)
    ensures
        views(vs.push(v)) == views(vs).push(v@),
{
    assert(views(vs.push(v)) =~= views(vs).push(v@));
}

proof fn lemma_prepend_first_id(ps: Seq<Seq<u8>>)
    requires
        ps.len() >= 1,
    ensures
        prepend_first(Seq::<u8>::empty(), ps) == ps,
{
    assert(Seq::<u8>::empty() + ps[0] =~= ps[0]);
    assert(prepend_first(Seq::<u8>::empty(), ps) =~~= ps);
}

proof fn lemma_split_step_delim(rest: Seq<u8>, d: u8, c: Seq<u8>)
    requires
        rest.len() > 0,
        rest[0] == d,
    ensures
        prepend_first(c, split_on(rest, d)) == seq![c] + split_on(rest.skip(1), d),
{
    let r2 = split_on(rest.skip(1), d);
    assert(split_on(rest, d) == seq![Seq::<u8>::empty()] + r2);
    assert((seq![Seq::<u8>::empty()] + r2).skip(1) =~= r2);
    assert(c + (seq![Seq::<u8>::empty()] + r2)[0] =~= c);
    assert(prepend_first(c, split_on(rest, d)) =~~= seq![c] + r2);
}

proof fn lemma_split_step_cons(rest: Seq<u8>, d: u8, c: Seq<u8>)
    requires
        rest.len() > 0,
        rest[0] != d,
    ensures
        prepend_first(c, split_on(rest, d)) == prepend_first(
            c.push(rest[0]),
            split_on(rest.skip(1), d),
        ),
{
    let r2 = split_on(rest.skip(1), d);
    lemma_split_on_nonempty(rest.skip(1), d);
    assert(split_on(rest, d) == seq![seq![rest[0]] + r2[0]] + r2.skip(1));
    assert((seq![seq![rest[0]] + r2[0]] + r2.skip(1)).skip(1) =~= r2.skip(1));
    assert(c + (seq![rest[0]] + r2[0]) =~= c.push(rest[0]) + r2[0]);
    assert(prepend_first(c, split_on(rest, d)) =~~= prepend_first(c.push(rest[0]), r2));
}

/// Splits a byte slice on the separator `d`, as `split_on` describes.
fn split_on_exec(s: &[u8], d: u8) -> (r: Vec<Vec<u8>>)
    ensures
        views(r@) == split_on(s@, d),
{
    let mut parts: Vec<Vec<u8>> = Vec::new();
    let mut cur: Vec<u8> = Vec::new();
    let mut i: usize = 0;
    proof {
        lemma_split_on_nonempty(s@, d);
        lemma_prepend_first_id(split_on(s@, d));
        assert(s@.skip(0) =~= s@);
        assert(views(parts@) =~= Seq::<Seq<u8>>::empty());
        assert(views(parts@) + prepend_first(cur@, split_on(s@, d)) =~= split_on(s@, d));
    }
    while i < s.len()
        invariant
            i <= s@.len(),
            split_on(s@, d) == views(parts@) + prepend_first(cur@, split_on(s@.skip(i as int), d)),
        decreases s@.len() - i,
    {
        let ghost rest = s@.skip(i as int);
        let ghost old_parts = parts@;
        let ghost old_cur = cur@;
        proof {
            assert(rest.len() > 0);
            assert(rest[0] == s@[i as int]);
            assert(rest.skip(1) =~= s@.skip(i as int + 1));
        }
        if s[i] == d {
            proof {
                lemma_split_step_delim(rest, d, old_cur);
                lemma_split_on_nonempty(rest.skip(1), d);
                lemma_prepend_first_id(split_on(rest.skip(1), d));
                lemma_views_push(old_parts, cur);
            }
            parts.push(cur);
            cur = Vec::new();
            proof {
                assert(views(parts@) + prepend_first(cur@, split_on(s@.skip(i as int + 1), d))
                    =~= views(old_parts) + (seq![old_cur] + split_on(rest.skip(1), d)));
            }
        } else {
            proof {
                lemma_split_step_cons(rest, d, old_cur);
            }
            cur.push(s[i]);
        }
        i += 1;
    }
    proof {
        assert(s@.skip(i as int) =~= Seq::<u8>::empty());
        let e = split_on(Seq::<u8>::empty(), d);
        assert(e == seq![Seq::<u8>::empty()]);
        assert(cur@ + e[0] =~= cur@);
        assert(e.skip(1) =~= Seq::<Seq<u8>>::empty());
        lemma_views_push(parts@, cur);
        assert(views(parts@) + prepend_first(cur@, e) =~= views(parts@).push(cur@));
    }
    parts.push(cur);
    parts
}

/// Value of one ASCII hexadecimal digit, or nothing for any other byte.
fn hex_digit_value(b: u8) -> (r: Option<u8>)
    ensures
        r is Some <==> is_hex_digit(b),
        r is Some ==> r->0 == hex_val(b),
{
    if 48 <= b && b <= 57 {
        Some(b - 48)
    } else if 65 <= b && b <= 70 {
        Some(b - 55)
    } else if 97 <= b && b <= 102 {
        Some(b - 87)
    } else {
        None
    }
}

fn is_space_exec(b: u8) -> (r: bool)
    ensures
        r == is_space(b),
{
    b == 32 || b == 9 || b == 13 || b == 10
}

/// The byte one item contributes, or nothing when the item is skipped.
fn token_byte(t: &[u8]) -> (r: Option<u8>)
    ensures
        r is Some ==> token_bytes(t@) == seq![r->0],
        r is None ==> token_bytes(t@) == Seq::<u8>::empty(),
{
    let mut lo: usize = 0;
    proof {
        assert(t@.skip(0) =~= t@);
    }
    while lo < t.len() && is_space_exec(t[lo])
        invariant
            lo <= t@.len(),
            trim_start(t@) == trim_start(t@.skip(lo as int)),
        decreases t@.len() - lo,
    {
        proof {
            assert(t@.skip(lo as int).skip(1) =~= t@.skip(lo as int + 1));
        }
        lo += 1;
    }
    proof {
        assert(trim_start(t@) =~= t@.skip(lo as int));
        assert(t@.subrange(lo as int, t@.len() as int) =~= t@.skip(lo as int));
    }
    let mut hi: usize = t.len();
    while hi > lo && is_space_exec(t[hi - 1])
        invariant
            lo <= hi <= t@.len(),
            trim_start(t@) == t@.skip(lo as int),
            trim_spec(t@) == trim_end(t@.subrange(lo as int, hi as int)),
        decreases hi,
    {
        proof {
            let seg = t@.subrange(lo as int, hi as int);
            assert(seg.len() > 0 && is_space(seg[seg.len() - 1]));
            assert(seg.take(seg.len() - 1) =~= t@.subrange(lo as int, hi as int - 1));
        }
        hi -= 1;
    }
    proof {
        let seg = t@.subrange(lo as int, hi as int);
        assert(trim_spec(t@) =~= seg);
    }
    if hi - lo >= 4 {
        let v1 = hex_digit_value(t[lo + 1]);
        let v2 = hex_digit_value(t[lo + 2]);
        proof {
            assert(trim_spec(t@)[1] == t@[lo as int + 1]);
            assert(trim_spec(t@)[2] == t@[lo as int + 2]);
        }
        match (v1, v2) {
            (Some(a), Some(b)) => Some(16 * a + b),
            _ => None,
        }
    } else {
        None
    }
}

/// Position of the first `db ` marker in a line, if any.
fn find_marker(line: &[u8]) -> (r: Option<usize>)
    ensures
        r is Some <==> marker_pos(line@) >= 0,
        r is Some ==> r->0 == marker_pos(line@) && r->0 + 3 <= line@.len(),
{
    if line.len() < 3 {
        return None;
    }
    let mut i: usize = 0;
    proof {
        assert(line@.skip(0) =~= line@);
    }
    while i <= line.len() - 3
        invariant
            line@.len() >= 3,
            i <= line@.len() - 2,
            marker_pos(line@) >= 0 <==> marker_pos(line@.skip(i as int)) >= 0,
            marker_pos(line@.skip(i as int)) >= 0 ==> marker_pos(line@) == marker_pos(
                line@.skip(i as int),
            ) + i,
        decreases line@.len() - i,
    {
        let ghost rest = line@.skip(i as int);
        proof {
            assert(rest.len() >= 3);
            assert(rest[0] == line@[i as int]);
            assert(rest[1] == line@[i as int + 1]);
            assert(rest[2] == line@[i as int + 2]);
            assert(rest.skip(1) =~= line@.skip(i as int + 1));
        }
        if line[i] == 100 && line[i + 1] == 98 && line[i + 2] == 32 {
            return Some(i);
        }
        i += 1;
    }
    proof {
        assert(line@.skip(i as int).len() < 3);
    }
    None
}

proof fn lemma_tokens_bytes_take(items: Seq<Seq<u8>>, i: int)
    requires
        0 <= i < items.len(),
    ensures
        tokens_bytes(items.take(i + 1)) == tokens_bytes(items.take(i)) + token_bytes(items[i]),
    decreases i,
{
    if i == 0 {
        assert(items.take(0) =~= Seq::<Seq<u8>>::empty());
        assert(items.take(1)[0] == items[0]);
        assert(items.take(1).skip(1) =~= Seq::<Seq<u8>>::empty());
        assert(tokens_bytes(Seq::<Seq<u8>>::empty()) == Seq::<u8>::empty());
        assert(tokens_bytes(items.take(1)) == token_bytes(items[0]) + Seq::<u8>::empty());
        assert(token_bytes(items[0]) + Seq::<u8>::empty() =~= token_bytes(items[0]));
        assert(Seq::<u8>::empty() + token_bytes(items[0]) =~= token_bytes(items[0]));
    } else {
        lemma_tokens_bytes_take(items.skip(1), i - 1);
        assert(items.take(i + 1).skip(1) =~= items.skip(1).take(i));
        assert(items.take(i).skip(1) =~= items.skip(1).take(i - 1));
        assert(items.take(i + 1)[0] == items[0]);
        assert(items.take(i)[0] == items[0]);
        assert(items.skip(1)[i - 1] == items[i]);
        assert(tokens_bytes(items.take(i + 1)) == token_bytes(items[0]) + (tokens_bytes(
            items.skip(1).take(i - 1),
        ) + token_bytes(items[i])));
        assert(token_bytes(items[0]) + (tokens_bytes(items.skip(1).take(i - 1)) + token_bytes(
            items[i],
        )) =~= (token_bytes(items[0]) + tokens_bytes(items.skip(1).take(i - 1))) + token_bytes(
            items[i],
        ));
    }
}

proof fn lemma_lines_bytes_take(lines: Seq<Seq<u8>>, i: int)
    requires
        0 <= i < lines.len(),
    ensures
        lines_bytes(lines.take(i + 1)) == lines_bytes(lines.take(i)) + line_bytes(lines[i]),
    decreases i,
{
    if i == 0 {
        assert(lines.take(0) =~= Seq::<Seq<u8>>::empty());
        assert(lines.take(1)[0] == lines[0]);
        assert(lines.take(1).skip(1) =~= Seq::<Seq<u8>>::empty());
        assert(lines_bytes(Seq::<Seq<u8>>::empty()) == Seq::<u8>::empty());
        assert(lines_bytes(lines.take(1)) == line_bytes(lines[0]) + Seq::<u8>::empty());
        assert(line_bytes(lines[0]) + Seq::<u8>::empty() =~= line_bytes(lines[0]));
        assert(Seq::<u8>::empty() + line_bytes(lines[0]) =~= line_bytes(lines[0]));
    } else {
        lemma_lines_bytes_take(lines.skip(1), i - 1);
        assert(lines.take(i + 1).skip(1) =~= lines.skip(1).take(i));
        assert(lines.take(i).skip(1) =~= lines.skip(1).take(i - 1));
        assert(lines.take(i + 1)[0] == lines[0]);
        assert(lines.take(i)[0] == lines[0]);
        assert(lines.skip(1)[i - 1] == lines[i]);
        assert(lines_bytes(lines.take(i + 1)) == line_bytes(lines[0]) + (lines_bytes(
            lines.skip(1).take(i - 1),
        ) + line_bytes(lines[i])));
        assert(line_bytes(lines[0]) + (lines_bytes(lines.skip(1).take(i - 1)) + line_bytes(
            lines[i],
        )) =~= (line_bytes(lines[0]) + lines_bytes(lines.skip(1).take(i - 1))) + line_bytes(
            lines[i],
        ));
    }
}

/// The bytes one line contributes, as `line_bytes` describes.
fn line_bytes_exec(line: &[u8]) -> (r: Vec<u8>)
    ensures
        r@ == line_bytes(line@),
{
    let marker = find_marker(line);
    match marker {
        None => {
            proof {
                let e = Seq::<u8>::empty();
                assert(line_payload(line@) == e);
                assert(split_on(e, ITEM_SEP) == seq![e]);
                assert(seq![e].skip(1) =~= Seq::<Seq<u8>>::empty());
                assert(trim_start(e) == e);
                assert(trim_spec(e) == e);
                assert(token_bytes(e) == e);
                assert(seq![e][0] == e);
                assert(tokens_bytes(Seq::<Seq<u8>>::empty()) == Seq::<u8>::empty());
                assert(tokens_bytes(seq![e]) == token_bytes(e) + Seq::<u8>::empty());
                assert(token_bytes(e) + Seq::<u8>::empty() =~= Seq::<u8>::empty());
            }
            Vec::new()
        },
        Some(p) => {
            let n = line.len();
            let mut payload: Vec<u8> = Vec::new();
            let mut j: usize = p + 3;
            proof {
                assert(payload@ =~= line@.subrange(p + 3, j as int));
            }
            while j < line.len()
                invariant
                    p + 3 <= j <= line@.len(),
                    payload@ == line@.subrange(p + 3, j as int),
                decreases line@.len() - j,
            {
                payload.push(line[j]);
                proof {
                    assert(payload@ =~= line@.subrange(p + 3, j as int + 1));
                }
                j += 1;
            }
            proof {
                assert(line_payload(line@) =~= payload@);
            }
            let items = split_on_exec(payload.as_slice(), ITEM_SEP);
            let ghost parts = split_on(payload@, ITEM_SEP);
            let mut out: Vec<u8> = Vec::new();
            let mut k: usize = 0;
            proof {
                assert(parts.take(0) =~= Seq::<Seq<u8>>::empty());
            }
            while k < items.len()
                invariant
                    k <= items@.len(),
                    views(items@) == parts,
                    line_bytes(line@) == tokens_bytes(parts),
                    out@ == tokens_bytes(parts.take(k as int)),
                decreases items@.len() - k,
            {
                proof {
                    assert(parts[k as int] == items@[k as int]@);
                }
                let tb = token_byte(items[k].as_slice());
                proof {
                    lemma_tokens_bytes_take(parts, k as int);
                }
                match tb {
                    Some(b) => {
                        out.push(b);
                        proof {
                            assert(out@ =~= tokens_bytes(parts.take(k as int + 1)));
                        }
                    },
                    None => {
                        proof {
                            assert(out@ =~= tokens_bytes(parts.take(k as int + 1)));
                        }
                    },
                }
                k += 1;
            }
            proof {
                assert(parts.take(k as int) =~= parts);
            }
            out
        },
    }
}

/// Decodes a whole text, concatenating the bytes of every line in order.
pub fn decode(text: &[u8]) -> (r: Vec<u8>)
    ensures
        r@ == decode_spec(text@),
{
    let lines = split_on_exec(text, LINE_SEP);
    let ghost parts = split_on(text@, LINE_SEP);
    let mut out: Vec<u8> = Vec::new();
    let mut li: usize = 0;
    proof {
        assert(parts.take(0) =~= Seq::<Seq<u8>>::empty());
    }
    while li < lines.len()
        invariant
            li <= lines@.len(),
            views(lines@) == parts,
            out@ == lines_bytes(parts.take(li as int)),
        decreases lines@.len() - li,
    {
        proof {
            assert(parts[li as int] == lines@[li as int]@);
        }
        let lb = line_bytes_exec(lines[li].as_slice());
        proof {
            lemma_lines_bytes_take(parts, li as int);
        }
        out.extend_from_slice(lb.as_slice());
        li += 1;
    }
    proof {
        assert(parts.take(li as int) =~= parts);
    }
    out
}

/// Inserting an item that the decoder skips — one whose trimmed form is
/// shorter than four bytes, or whose bytes at positions one and two are not
/// both hex digits — anywhere into a line's item sequence leaves the decoded
/// bytes unchanged.
pub proof fn lemma_decoder_tolerance(items: Seq<Seq<u8>>, i: int, tok: Seq<u8>)
    requires
        0 <= i <= items.len(),
        trim_spec(tok).len() < 4 || !is_hex_digit(trim_spec(tok)[1]) || !is_hex_digit(
            trim_spec(tok)[2],
        ),
    ensures
        tokens_bytes(items.insert(i, tok)) == tokens_bytes(items),
    decreases i,
{
    assert(token_bytes(tok) == Seq::<u8>::empty());
    if i == 0 {
        assert(items.insert(0, tok)[0] == tok);
        assert(items.insert(0, tok).skip(1) =~= items);
        assert(Seq::<u8>::empty() + tokens_bytes(items) =~= tokens_bytes(items));
    } else {
        lemma_decoder_tolerance(items.skip(1), i - 1, tok);
        assert(items.insert(i, tok)[0] == items[0]);
        assert(items.insert(i, tok).skip(1) =~= items.skip(1).insert(i - 1, tok));
        assert(items.len() > 0);
        assert(tokens_bytes(items.insert(i, tok)) == token_bytes(items[0]) + tokens_bytes(
            items.skip(1).insert(i - 1, tok),
        ));
    }
}

} // verus!
