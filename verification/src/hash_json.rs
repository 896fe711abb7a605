//! The canonical on-disk form of a hash index: JSON with every object's
//! keys in lexicographic order, so that equal indexes serialize to equal
//! bytes and diffs stay stable.
//!
//! The entry map is kept sorted by construction, and the envelope's own
//! fields are emitted in sorted order (hashes, id, localPath, sourceId),
//! so the text is a pure function of the index's contents.

use vstd::prelude::*;

use crate::hash::FileHashV;
use crate::hash::WatcherHashJSON;
use crate::strings::dec_digit;
use crate::strings::dec_int_of;
use crate::strings::dec_of;
use crate::strings::i128_to_dec;
use crate::strings::lex_lt;
use crate::strings::push_char;
use crate::strings::u64_to_dec;

verus! {

/// One character as it appears inside a JSON string literal: quotes and
/// backslashes escaped, control characters as four-digit escapes.
pub open spec fn json_escaped_char(c: char) -> Seq<char> {
    if c == '"' {
        seq!['\\', '"']
    } else if c == '\\' {
        seq!['\\', '\\']
    } else if (c as int) < 32 {
        seq!['\\', 'u', '0', '0', dec_digit((c as int) / 16), hex_digit((c as int) % 16)]
    } else {
        seq![c]
    }
}

/// A hex digit (the escape range only needs 0 to f).
pub open spec fn hex_digit(d: int) -> char {
    if d < 10 {
        dec_digit(d)
    } else if d == 10 {
        'a'
    } else if d == 11 {
        'b'
    } else if d == 12 {
        'c'
    } else if d == 13 {
        'd'
    } else if d == 14 {
        'e'
    } else {
        'f'
    }
}

/// The body of a JSON string literal for `s`.
pub open spec fn json_escaped(s: Seq<char>, i: int) -> Seq<char>
    decreases i,
{
    if i <= 0 {
        Seq::empty()
    } else {
        json_escaped(s, i - 1).add(json_escaped_char(s[i - 1]))
    }
}

/// The JSON string literal for `s`.
pub open spec fn json_string(s: Seq<char>) -> Seq<char> {
    seq!['"'].add(json_escaped(s, s.len() as int)).push('"')
}

fn hex_digit_exec(d: u32) -> (c: char)
    requires
        d < 16,
    ensures
        c == hex_digit(d as int),
{
    if d == 10 {
        'a'
    } else if d == 11 {
        'b'
    } else if d == 12 {
        'c'
    } else if d == 13 {
        'd'
    } else if d == 14 {
        'e'
    } else if d == 15 {
        'f'
    } else if d == 0 {
        '0'
    } else if d == 1 {
        '1'
    } else if d == 2 {
        '2'
    } else if d == 3 {
        '3'
    } else if d == 4 {
        '4'
    } else if d == 5 {
        '5'
    } else if d == 6 {
        '6'
    } else if d == 7 {
        '7'
    } else if d == 8 {
        '8'
    } else {
        '9'
    }
}

/// Renders `s` as a JSON string literal.
pub fn render_json_string(s: &String) -> (r: String)
    ensures
        r@ == json_string(s@),
{
    let mut out = String::new();
    push_char(&mut out, '"');
    let n = s.as_str().unicode_len();
    let mut i: usize = 0;
    while i < n
        invariant
            0 <= i <= n,
            n == s@.len(),
            out@ == seq!['"'].add(json_escaped(s@, i as int)),
        decreases n - i,
    {
        let c = s.as_str().get_char(i);
        if c == '"' {
            push_char(&mut out, '\\');
            push_char(&mut out, '"');
        } else if c == '\\' {
            push_char(&mut out, '\\');
            push_char(&mut out, '\\');
        } else if (c as u32) < 32 {
            push_char(&mut out, '\\');
            push_char(&mut out, 'u');
            push_char(&mut out, '0');
            push_char(&mut out, '0');
            let hi = (c as u32) / 16;
            let lo = (c as u32) % 16;
            push_char(&mut out, hex_digit_exec(hi));
            push_char(&mut out, hex_digit_exec(lo));
            proof {
                assert(hex_digit(hi as int) == dec_digit((c as int) / 16));
            }
        } else {
            push_char(&mut out, c);
        }
        i += 1;
        proof {
            assert(out@ =~= seq!['"'].add(json_escaped(s@, i as int)));
        }
    }
    push_char(&mut out, '"');
    proof {
        assert(out@ =~= json_string(s@));
    }
    out
}

/// One entry of the hashes object: the path, then the record with its
/// fields in sorted order.
pub open spec fn entry_json(k: Seq<char>, v: FileHashV) -> Seq<char> {
    json_string(k).push(':').add("{\"hash\":"@).add(json_string(v.hash)).add(",\"size\":"@).add(
        dec_of(v.size as nat),
    ).add(",\"timestamp\":"@).add(dec_int_of(v.timestamp)).push('}')
}

/// The body of the hashes object over the first `i` entries, comma
/// separated.
pub open spec fn entries_json(entries: Seq<(Seq<char>, FileHashV)>, i: int) -> Seq<char>
    decreases i,
{
    if i <= 0 {
        Seq::empty()
    } else if i == 1 {
        entry_json(entries[0].0, entries[0].1)
    } else {
        entries_json(entries, i - 1).push(',').add(entry_json(entries[i - 1].0, entries[i - 1].1))
    }
}

/// The canonical JSON text of a hash index: every object's keys in
/// lexicographic order, entry paths in the order the sorted map stores
/// them.
pub open spec fn index_json(h: WatcherHashJSON) -> Seq<char> {
    "{\"hashes\":{"@.add(
        entries_json(crate::watchers::hash_entries(h.hashes), h.hashes.spec_len() as int),
    ).add("},\"id\":"@).add(json_string(h.id@)).add(",\"localPath\":"@).add(
        json_string(h.local_path@),
    ).add(",\"sourceId\":"@).add(json_string(h.source_id@)).push('}')
}

/// Serializes a hash index to its canonical JSON text. With the index
/// well-formed its entry paths appear in strictly ascending lexicographic
/// order, so equal contents give equal text.
pub fn hash_index_to_json(h: &WatcherHashJSON) -> (r: String)
    requires
        h.wf(),
        forall|j: int|
            0 <= j < h.hashes.spec_len()
                ==> (#[trigger] h.hashes.entries@[j].1@).timestamp
                != -0x80000000000000000000000000000000,
    ensures
        r@ == index_json(*h),
        forall|i: int, j: int|
            0 <= i < j < h.hashes.spec_len() ==> lex_lt(
                #[trigger] h.hashes.spec_keys()[i],
                #[trigger] h.hashes.spec_keys()[j],
            ),
{
    let ghost entries = crate::watchers::hash_entries(h.hashes);
    let mut body = String::new();
    let n = h.hashes.len();
    let mut i: usize = 0;
    while i < n
        invariant
            0 <= i <= n,
            n == h.hashes.spec_len(),
            h.wf(),
            entries == crate::watchers::hash_entries(h.hashes),
            forall|j: int|
                0 <= j < h.hashes.spec_len() ==> (#[trigger] h.hashes.entries@[j].1@).timestamp
                    != -0x80000000000000000000000000000000,
            body@ == entries_json(entries, i as int),
        decreases n - i,
    {
        if i > 0 {
            push_char(&mut body, ',');
        }
        let k = h.hashes.key_at(i);
        let v = h.hashes.val_at(i);
        let mut e = render_json_string(k);
        push_char(&mut e, ':');
        e.append("{\"hash\":");
        e.append(render_json_string(&v.hash).as_str());
        e.append(",\"size\":");
        e.append(u64_to_dec(v.size).as_str());
        e.append(",\"timestamp\":");
        proof {
            assert(h.hashes.entries@[i as int].1@.timestamp
                != -0x80000000000000000000000000000000);
        }
        e.append(i128_to_dec(v.timestamp).as_str());
        push_char(&mut e, '}');
        let body2 = body.concat(e.as_str());
        body = body2;
        i += 1;
        proof {
            assert(entries[i - 1] == (h.hashes.entries@[i - 1].0@, h.hashes.entries@[i - 1].1@));
            assert(e@ =~= entry_json(entries[i - 1].0, entries[i - 1].1));
            assert(body@ =~= entries_json(entries, i as int));
        }
    }
    let mut out = "{\"hashes\":{".to_owned();
    out.append(body.as_str());
    out.append("},\"id\":");
    out.append(render_json_string(&h.id).as_str());
    out.append(",\"localPath\":");
    out.append(render_json_string(&h.local_path).as_str());
    out.append(",\"sourceId\":");
    out.append(render_json_string(&h.source_id).as_str());
    push_char(&mut out, '}');
    proof {
        assert(out@ =~= index_json(*h));
    }
    out
}

/// In a sorted entry list every earlier key sits below the last.
proof fn lemma_last_key_is_max(s: Seq<(String, crate::hash::FileHashJSON)>, j: int)
    requires
        forall|x: int, y: int| 0 <= x < y < s.len() ==> lex_lt(s[x].0@, s[y].0@),
        s.len() > 0,
        0 <= j < s.len() - 1,
    ensures
        lex_lt(s[j].0@, s[s.len() - 1].0@),
{
}

/// The mirrored entry map of a sorted list, with the last entry split
/// off.
proof fn lemma_view_map_drop_last(s: Seq<(String, crate::hash::FileHashJSON)>)
    requires
        forall|x: int, y: int| 0 <= x < y < s.len() ==> lex_lt(s[x].0@, s[y].0@),
        s.len() > 0,
    ensures
        crate::hash::view_map(crate::smap::map_of_entries(s)) == crate::hash::view_map(
            crate::smap::map_of_entries(s.drop_last()),
        ).insert(s.last().0@, s.last().1@),
        !crate::hash::view_map(crate::smap::map_of_entries(s.drop_last())).contains_key(
            s.last().0@,
        ),
{
    assert(crate::smap::map_of_entries(s) == crate::smap::map_of_entries(s.drop_last()).insert(
        s.last().0@,
        s.last().1,
    ));
    assert(crate::hash::view_map(crate::smap::map_of_entries(s)) =~= crate::hash::view_map(
        crate::smap::map_of_entries(s.drop_last()),
    ).insert(s.last().0@, s.last().1@));
    crate::smap::lemma_entries_contain(s.drop_last(), s.last().0@);
    if crate::smap::map_of_entries(s.drop_last()).contains_key(s.last().0@) {
        let j = choose|j: int|
            0 <= j < s.drop_last().len() && s.drop_last()[j].0@ == s.last().0@;
        lemma_last_key_is_max(s, j);
        crate::strings::lemma_lex_lt_irreflexive(s.last().0@);
    }
}

/// Two sorted entry lists that mirror to the same map hold the same keys
/// and mirrored records, position for position.
proof fn lemma_sorted_entries_canonical(
    s1: Seq<(String, crate::hash::FileHashJSON)>,
    s2: Seq<(String, crate::hash::FileHashJSON)>,
)
    requires
        forall|x: int, y: int| 0 <= x < y < s1.len() ==> lex_lt(s1[x].0@, s1[y].0@),
        forall|x: int, y: int| 0 <= x < y < s2.len() ==> lex_lt(s2[x].0@, s2[y].0@),
        crate::hash::view_map(crate::smap::map_of_entries(s1)) == crate::hash::view_map(
            crate::smap::map_of_entries(s2),
        ),
    ensures
        s1.len() == s2.len(),
        forall|i: int| 0 <= i < s1.len() ==> s1[i].0@ == s2[i].0@ && s1[i].1@ == s2[i].1@,
    decreases s1.len(),
{
    let m1 = crate::hash::view_map(crate::smap::map_of_entries(s1));
    let m2 = crate::hash::view_map(crate::smap::map_of_entries(s2));
    if s1.len() == 0 {
        if s2.len() > 0 {
            lemma_view_map_drop_last(s2);
            assert(m2.contains_key(s2.last().0@));
            crate::smap::lemma_entries_contain(s1, s2.last().0@);
        }
    } else {
        lemma_view_map_drop_last(s1);
        assert(m1.contains_key(s1.last().0@));
        if s2.len() == 0 {
            crate::smap::lemma_entries_contain(s2, s1.last().0@);
            assert(false);
        }
        lemma_view_map_drop_last(s2);
        // each last key sits in the other map, so the two are one key
        let k1 = s1.last().0@;
        let k2 = s2.last().0@;
        crate::smap::lemma_entries_contain(s2, k1);
        assert(m2.contains_key(k1));
        assert(crate::smap::map_of_entries(s2).contains_key(k1));
        assert(exists|j: int| 0 <= j < s2.len() && s2[j].0@ == k1);
        let j1 = choose|j: int| 0 <= j < s2.len() && s2[j].0@ == k1;
        crate::smap::lemma_entries_contain(s1, k2);
        assert(m1.contains_key(k2));
        assert(crate::smap::map_of_entries(s1).contains_key(k2));
        assert(exists|j: int| 0 <= j < s1.len() && s1[j].0@ == k2);
        let j2 = choose|j: int| 0 <= j < s1.len() && s1[j].0@ == k2;
        if j1 < s2.len() - 1 {
            lemma_last_key_is_max(s2, j1);
            if j2 < s1.len() - 1 {
                lemma_last_key_is_max(s1, j2);
                crate::strings::lemma_lex_lt_transitive(k1, k2, k1);
                crate::strings::lemma_lex_lt_irreflexive(k1);
            } else {
                crate::strings::lemma_lex_lt_irreflexive(k1);
            }
        }
        assert(k1 == k2);
        assert(s1.last().1@ == m1[k1]);
        assert(s2.last().1@ == m2[k1]);
        // the tails mirror to the same map
        assert(crate::hash::view_map(crate::smap::map_of_entries(s1.drop_last()))
            =~= crate::hash::view_map(crate::smap::map_of_entries(s2.drop_last()))) by {
            assert(crate::hash::view_map(crate::smap::map_of_entries(s1.drop_last()))
                =~= m1.remove(k1));
            assert(crate::hash::view_map(crate::smap::map_of_entries(s2.drop_last()))
                =~= m2.remove(k1));
        }
        lemma_sorted_entries_canonical(s1.drop_last(), s2.drop_last());
        assert forall|i: int| 0 <= i < s1.len() implies s1[i].0@ == s2[i].0@ && s1[i].1@
            == s2[i].1@ by {
            if i < s1.len() - 1 {
                assert(s1.drop_last()[i] == s1[i]);
                assert(s2.drop_last()[i] == s2[i]);
            }
        }
    }
}

/// Law: the canonical text is a function of the index's contents alone.
/// Two well-formed indexes with the same header fields and the same
/// entry map serialize to the same characters, whatever order their
/// entries were inserted in.
pub proof fn lemma_index_json_canonical(h1: WatcherHashJSON, h2: WatcherHashJSON)
    requires
        h1.wf(),
        h2.wf(),
        h1.id@ == h2.id@,
        h1.source_id@ == h2.source_id@,
        h1.local_path@ == h2.local_path@,
        h1.hash_map() == h2.hash_map(),
    ensures
        index_json(h1) == index_json(h2),
{
    lemma_sorted_entries_canonical(h1.hashes.entries@, h2.hashes.entries@);
    let e1 = crate::watchers::hash_entries(h1.hashes);
    let e2 = crate::watchers::hash_entries(h2.hashes);
    assert(e1 =~= e2);
}

} // verus!
