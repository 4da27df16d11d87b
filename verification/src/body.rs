//! The POST body: ordered `key=value` pairs collapse into a mapping whose
//! duplicate keys keep the last-written value, and the mapping serializes
//! as a flat JSON object.

use vstd::prelude::*;
use vstd::string::*;
use crate::args::pair_views;

verus! {

/// No two entries share a key.
pub open spec fn unique_keys(ps: Seq<(Seq<char>, Seq<char>)>) -> bool {
    forall|i: int, j: int| 0 <= i < j < ps.len() ==> ps[i].0 != ps[j].0
}

/// The value of the first entry with key `k`, if any.
pub open spec fn lookup(ps: Seq<(Seq<char>, Seq<char>)>, k: Seq<char>) -> Option<Seq<char>>
    decreases ps.len(),
{
    if ps.len() == 0 {
        None
    } else if ps[0].0 == k {
        Some(ps[0].1)
    } else {
        lookup(ps.subrange(1, ps.len() as int), k)
    }
}

/// The value of the last entry with key `k`, if any.
pub open spec fn last_value(ps: Seq<(Seq<char>, Seq<char>)>, k: Seq<char>) -> Option<Seq<char>>
    decreases ps.len(),
{
    if ps.len() == 0 {
        None
    } else if ps.last().0 == k {
        Some(ps.last().1)
    } else {
        last_value(ps.drop_last(), k)
    }
}

/// Overwrites the entry with key `k` in place, or appends one.
pub open spec fn upsert(ps: Seq<(Seq<char>, Seq<char>)>, k: Seq<char>, v: Seq<char>) -> Seq<
    (Seq<char>, Seq<char>),
>
    decreases ps.len(),
{
    if ps.len() == 0 {
        seq![(k, v)]
    } else if ps[0].0 == k {
        seq![(k, v)] + ps.subrange(1, ps.len() as int)
    } else {
        seq![ps[0]] + upsert(ps.subrange(1, ps.len() as int), k, v)
    }
}

/// The pairs collapsed into a mapping: keys keep the position of their
/// first occurrence, and a repeated key overwrites the earlier value.
pub open spec fn collapse(ps: Seq<(Seq<char>, Seq<char>)>) -> Seq<(Seq<char>, Seq<char>)>
    decreases ps.len(),
{
    if ps.len() == 0 {
        Seq::empty()
    } else {
        upsert(collapse(ps.drop_last()), ps.last().0, ps.last().1)
    }
}

/// After an upsert, `k` maps to `v` and every other key is untouched.
pub proof fn lemma_upsert_lookup(ps: Seq<(Seq<char>, Seq<char>)>, k: Seq<char>, v: Seq<char>, q: Seq<char>)
    ensures
        q == k ==> lookup(upsert(ps, k, v), q) == Some(v),
        q != k ==> lookup(upsert(ps, k, v), q) == lookup(ps, q),
    decreases ps.len(),
{
    let r = upsert(ps, k, v);
    if ps.len() == 0 {
        assert(r == seq![(k, v)]);
        assert(r.subrange(1, r.len() as int) =~= Seq::<(Seq<char>, Seq<char>)>::empty());
    } else if ps[0].0 == k {
        assert(r[0] == (k, v));
        assert(r.subrange(1, r.len() as int) =~= ps.subrange(1, ps.len() as int));
        if q != k {
            assert(r[0].0 != q);
            assert(lookup(r, q) == lookup(r.subrange(1, r.len() as int), q));
            assert(lookup(ps, q) == lookup(ps.subrange(1, ps.len() as int), q));
        }
    } else {
        let t = ps.subrange(1, ps.len() as int);
        lemma_upsert_lookup(t, k, v, q);
        assert(r[0] == ps[0]);
        assert(r.subrange(1, r.len() as int) =~= upsert(t, k, v));
        if r[0].0 == q {
            assert(lookup(r, q) == Some(r[0].1));
            assert(lookup(ps, q) == Some(ps[0].1));
        } else {
            assert(lookup(r, q) == lookup(upsert(t, k, v), q));
            assert(lookup(ps, q) == lookup(t, q));
        }
    }
}

/// Upserting keeps keys unique.
pub proof fn lemma_upsert_unique(ps: Seq<(Seq<char>, Seq<char>)>, k: Seq<char>, v: Seq<char>)
    requires
        unique_keys(ps),
    ensures
        unique_keys(upsert(ps, k, v)),
{
    let r = upsert(ps, k, v);
    if exists|i: int| 0 <= i < ps.len() && ps[i].0 == k {
        let j = choose|j: int| 0 <= j < ps.len() && ps[j].0 == k;
        assert forall|l: int| 0 <= l < j implies ps[l].0 != k by {
            assert(ps[l].0 != ps[j].0);
        }
        lemma_upsert_found(ps, k, v, j);
        assert forall|a: int, b: int| 0 <= a < b < r.len() implies r[a].0 != r[b].0 by {
            assert(r[a].0 == ps[a].0 && r[b].0 == ps[b].0);
        }
    } else {
        lemma_upsert_missing(ps, k, v);
        assert forall|a: int, b: int| 0 <= a < b < r.len() implies r[a].0 != r[b].0 by {
            assert(r[a] == ps[a]);
            if b < ps.len() {
                assert(r[b] == ps[b]);
            } else {
                assert(r[b].0 == k && ps[a].0 != k);
            }
        }
    }
}

/// Last write wins: after collapsing, each key maps to the value of its
/// last occurrence in the raw pair sequence, and keys are unique.
pub proof fn lemma_collapse_last_write_wins(ps: Seq<(Seq<char>, Seq<char>)>, k: Seq<char>)
    ensures
        lookup(collapse(ps), k) == last_value(ps, k),
        unique_keys(collapse(ps)),
    decreases ps.len(),
{
    if ps.len() == 0 {
    } else {
        let rest = ps.drop_last();
        lemma_collapse_last_write_wins(rest, k);
        lemma_upsert_lookup(collapse(rest), ps.last().0, ps.last().1, k);
        lemma_upsert_unique(collapse(rest), ps.last().0, ps.last().1);
    }
}

/// Collapses the raw pairs: first-occurrence order, last-written value.
pub fn collapse_pairs(pairs: &Vec<(String, String)>) -> (r: Vec<(String, String)>)
    ensures
        pair_views(r@) == collapse(pair_views(pairs@)),
{
    let mut out: Vec<(String, String)> = Vec::new();
    let mut i: usize = 0;
    proof {
        assert(pair_views(pairs@).subrange(0, 0) =~= pair_views(out@));
    }
    while i < pairs.len()
        invariant
            i <= pairs@.len(),
            pair_views(out@) == collapse(pair_views(pairs@).subrange(0, i as int)),
        decreases pairs@.len() - i,
    {
        let ghost all = pair_views(pairs@);
        let ghost before = pair_views(out@);
        let key = pairs[i].0.clone();
        let value = pairs[i].1.clone();
        let mut j: usize = 0;
        let mut found = false;
        while j < out.len() && !found
            invariant
                j <= out@.len(),
                out@.len() == before.len(),
                pair_views(out@) == before,
                key@ == all[i as int].0,
                i < all.len(),
                found ==> j < out@.len() && before[j as int].0 == key@,
                forall|l: int| 0 <= l < j ==> before[l].0 != key@,
            decreases out@.len() - j + if found {
                0int
            } else {
                1int
            },
        {
            if out[j].0 == key {
                found = true;
            } else {
                j = j + 1;
            }
        }
        let ghost stepped = all.subrange(0, i as int + 1);
        proof {
            assert(stepped.drop_last() =~= all.subrange(0, i as int));
            assert(stepped.last() == all[i as int]);
            assert(all[i as int] == (pairs@[i as int].0@, pairs@[i as int].1@));
        }
        if found {
            out[j] = (key, value);
            proof {
                assert(pair_views(out@) =~= upsert_at(before, j as int, all[i as int].1));
                lemma_upsert_found(before, all[i as int].0, all[i as int].1, j as int);
            }
        } else {
            out.push((key, value));
            proof {
                assert(pair_views(out@) =~= before.push((all[i as int].0, all[i as int].1)));
                lemma_upsert_missing(before, all[i as int].0, all[i as int].1);
            }
        }
        i = i + 1;
    }
    proof {
        assert(pair_views(pairs@).subrange(0, pairs@.len() as int) =~= pair_views(pairs@));
    }
    out
}

/// The sequence with the value at `j` overwritten.
pub open spec fn upsert_at(ps: Seq<(Seq<char>, Seq<char>)>, j: int, v: Seq<char>) -> Seq<
    (Seq<char>, Seq<char>),
> {
    ps.update(j, (ps[j].0, v))
}

/// When `k` first occurs at `j`, the upsert overwrites exactly there.
pub proof fn lemma_upsert_found(ps: Seq<(Seq<char>, Seq<char>)>, k: Seq<char>, v: Seq<char>, j: int)
    requires
        0 <= j < ps.len(),
        ps[j].0 == k,
        forall|l: int| 0 <= l < j ==> ps[l].0 != k,
    ensures
        upsert(ps, k, v) == upsert_at(ps, j, v),
    decreases ps.len(),
{
    if j == 0 {
        assert(upsert(ps, k, v) == seq![(k, v)] + ps.subrange(1, ps.len() as int));
        assert(upsert(ps, k, v) =~= upsert_at(ps, 0, v));
    } else {
        let t = ps.subrange(1, ps.len() as int);
        assert(t[j - 1] == ps[j]);
        assert forall|l: int| 0 <= l < j - 1 implies t[l].0 != k by {
            assert(t[l] == ps[l + 1]);
        }
        lemma_upsert_found(t, k, v, j - 1);
        assert(upsert(ps, k, v) == seq![ps[0]] + upsert_at(t, j - 1, v));
        assert(upsert(ps, k, v) =~= upsert_at(ps, j, v));
    }
}

/// When `k` does not occur, the upsert appends.
pub proof fn lemma_upsert_missing(ps: Seq<(Seq<char>, Seq<char>)>, k: Seq<char>, v: Seq<char>)
    requires
        forall|l: int| 0 <= l < ps.len() ==> ps[l].0 != k,
    ensures
        upsert(ps, k, v) == ps.push((k, v)),
    decreases ps.len(),
{
    if ps.len() == 0 {
        assert(upsert(ps, k, v) =~= ps.push((k, v)));
    } else {
        let t = ps.subrange(1, ps.len() as int);
        assert forall|l: int| 0 <= l < t.len() implies t[l].0 != k by {
            assert(t[l] == ps[l + 1]);
        }
        lemma_upsert_missing(t, k, v);
        assert(upsert(ps, k, v) == seq![ps[0]] + t.push((k, v)));
        assert(upsert(ps, k, v) =~= ps.push((k, v)));
    }
}

/// The hexadecimal digit for a value below sixteen.
pub open spec fn hex_digit(n: int) -> char {
    if n == 0 {
        '0'
    } else if n == 1 {
        '1'
    } else if n == 2 {
        '2'
    } else if n == 3 {
        '3'
    } else if n == 4 {
        '4'
    } else if n == 5 {
        '5'
    } else if n == 6 {
        '6'
    } else if n == 7 {
        '7'
    } else if n == 8 {
        '8'
    } else if n == 9 {
        '9'
    } else if n == 10 {
        'a'
    } else if n == 11 {
        'b'
    } else if n == 12 {
        'c'
    } else if n == 13 {
        'd'
    } else if n == 14 {
        'e'
    } else {
        'f'
    }
}

/// How one character appears inside a JSON string literal: quotes and
/// backslashes are escaped, control characters take the `\u00XX` form,
/// everything else stands as itself.
pub open spec fn json_escape_char(c: char) -> Seq<char> {
    if c == '"' {
        seq!['\\', '"']
    } else if c == '\\' {
        seq!['\\', '\\']
    } else if (c as u32) < 0x20 {
        seq!['\\', 'u', '0', '0', hex_digit((c as u32) as int / 16), hex_digit((c as u32) as int % 16)]
    } else {
        seq![c]
    }
}

/// The text escaped character by character.
pub open spec fn json_escape(s: Seq<char>) -> Seq<char>
    decreases s.len(),
{
    if s.len() == 0 {
        Seq::empty()
    } else {
        json_escape(s.drop_last()) + json_escape_char(s.last())
    }
}

/// A JSON string literal: the escaped text between double quotes.
pub open spec fn json_string(s: Seq<char>) -> Seq<char> {
    seq!['"'] + json_escape(s) + seq!['"']
}

/// One `"key":"value"` member.
pub open spec fn json_member(p: (Seq<char>, Seq<char>)) -> Seq<char> {
    json_string(p.0) + seq![':'] + json_string(p.1)
}

/// The members joined with commas.
pub open spec fn json_members(ps: Seq<(Seq<char>, Seq<char>)>) -> Seq<char>
    decreases ps.len(),
{
    if ps.len() == 0 {
        Seq::empty()
    } else if ps.len() == 1 {
        json_member(ps[0])
    } else {
        json_members(ps.drop_last()) + seq![','] + json_member(ps.last())
    }
}

/// A flat JSON object over the entries.
pub open spec fn json_object(ps: Seq<(Seq<char>, Seq<char>)>) -> Seq<char> {
    seq!['{'] + json_members(ps) + seq!['}']
}

/// Relies on `String::push`: appends the character at the end.
#[verifier::external_body]
fn push_char(s: &mut String, c: char)
    ensures
        final(s)@ == old(s)@ + seq![c],
{
    s.push(c);
}

/// The hexadecimal digit character for a value below sixteen.
fn hex_digit_char(n: u32) -> (c: char)
    requires
        n < 16,
    ensures
        c == hex_digit(n as int),
{
    match n {
        0 => '0',
        1 => '1',
        2 => '2',
        3 => '3',
        4 => '4',
        5 => '5',
        6 => '6',
        7 => '7',
        8 => '8',
        9 => '9',
        10 => 'a',
        11 => 'b',
        12 => 'c',
        13 => 'd',
        14 => 'e',
        _ => 'f',
    }
}

/// Appends one character's JSON escape to the output.
fn push_escaped(out: &mut String, c: char)
    ensures
        final(out)@ == old(out)@ + json_escape_char(c),
{
    if c == '"' {
        push_char(out, '\\');
        push_char(out, '"');
    } else if c == '\\' {
        push_char(out, '\\');
        push_char(out, '\\');
    } else if (c as u32) < 0x20 {
        push_char(out, '\\');
        push_char(out, 'u');
        push_char(out, '0');
        push_char(out, '0');
        push_char(out, hex_digit_char((c as u32) / 16));
        push_char(out, hex_digit_char((c as u32) % 16));
        proof {
            assert(old(out)@ + seq!['\\'] + seq!['u'] + seq!['0'] + seq!['0'] + seq![
                hex_digit((c as u32) as int / 16),
            ] + seq![hex_digit((c as u32) as int % 16)] =~= old(out)@ + json_escape_char(c));
        }
    } else {
        push_char(out, c);
    }
}

/// Appends the JSON string literal for `s` to the output.
fn push_json_string(out: &mut String, s: &str)
    ensures
        final(out)@ == old(out)@ + json_string(s@),
{
    push_char(out, '"');
    let n = s.unicode_len();
    let mut i: usize = 0;
    while i < n
        invariant
            n == s@.len(),
            i <= n,
            out@ == old(out)@ + seq!['"'] + json_escape(s@.subrange(0, i as int)),
        decreases n - i,
    {
        let c = s.get_char(i);
        push_escaped(out, c);
        proof {
            let t = s@.subrange(0, i as int + 1);
            assert(t.drop_last() =~= s@.subrange(0, i as int));
            assert(t.last() == s@[i as int]);
        }
        i = i + 1;
    }
    push_char(out, '"');
    proof {
        assert(s@.subrange(0, n as int) =~= s@);
        assert(old(out)@ + seq!['"'] + json_escape(s@) + seq!['"'] =~= old(out)@ + json_string(
            s@,
        ));
    }
}

/// Serializes the body pairs as a flat JSON object: duplicate keys are
/// collapsed first, with the last-written value winning.
pub fn json_body(pairs: &Vec<(String, String)>) -> (r: String)
    ensures
        r@ == json_object(collapse(pair_views(pairs@))),
{
    let entries = collapse_pairs(pairs);
    let ghost es = pair_views(entries@);
    let mut out = String::new();
    push_char(&mut out, '{');
    let mut i: usize = 0;
    while i < entries.len()
        invariant
            i <= entries@.len(),
            es == pair_views(entries@),
            out@ == seq!['{'] + json_members(es.subrange(0, i as int)),
        decreases entries@.len() - i,
    {
        if i > 0 {
            push_char(&mut out, ',');
        }
        push_json_string(&mut out, entries[i].0.as_str());
        push_char(&mut out, ':');
        push_json_string(&mut out, entries[i].1.as_str());
        proof {
            let t = es.subrange(0, i as int + 1);
            assert(t.drop_last() =~= es.subrange(0, i as int));
            assert(t.last() == es[i as int]);
            assert(es[i as int] == (entries@[i as int].0@, entries@[i as int].1@));
            if i == 0 {
                assert(out@ =~= seq!['{'] + json_members(t));
            } else {
                assert(out@ =~= seq!['{'] + (json_members(es.subrange(0, i as int)) + seq![',']
                    + json_member(es[i as int])));
            }
        }
        i = i + 1;
    }
    push_char(&mut out, '}');
    proof {
        assert(es.subrange(0, entries@.len() as int) =~= es);
        assert(seq!['{'] + json_members(es) + seq!['}'] =~= json_object(es));
    }
    out
}

} // verus!
