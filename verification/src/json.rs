//! Compact JSON encoding, byte for byte.
//!
//! Every document the library emits is a concatenation of the forms below:
//! escaped strings, arrays of strings, arrays of string arrays, and arrays of
//! integers, all without any whitespace. The specification functions define
//! the exact byte sequence; the executable builders are proved to produce it.

use crate::digits::{dec_rep_int, push_dec_i64};
use vstd::prelude::*;
use vstd::utf8::encode_utf8;

verus! {

/// The lowercase hexadecimal digit for `n < 16`.
pub open spec fn hex_digit(n: nat) -> u8 {
    if n < 10 {
        (48 + n) as u8
    } else {
        (87 + n) as u8
    }
}

/// The escape of one byte inside a JSON string: quote and backslash get a
/// two-character escape, control bytes get their short form or `\u00XX`, and
/// every other byte stands for itself.
pub open spec fn escape_byte(b: u8) -> Seq<u8> {
    if b == 34 {
        seq![92u8, 34u8]
    } else if b == 92 {
        seq![92u8, 92u8]
    } else if b == 8 {
        seq![92u8, 98u8]
    } else if b == 9 {
        seq![92u8, 116u8]
    } else if b == 10 {
        seq![92u8, 110u8]
    } else if b == 12 {
        seq![92u8, 102u8]
    } else if b == 13 {
        seq![92u8, 114u8]
    } else if b < 32 {
        seq![92u8, 117u8, 48u8, 48u8, hex_digit((b / 16) as nat), hex_digit((b % 16) as nat)]
    } else {
        seq![b]
    }
}

/// The escape of a whole byte sequence.
pub open spec fn escape_bytes(s: Seq<u8>) -> Seq<u8>
    decreases s.len(),
{
    if s.len() == 0 {
        Seq::empty()
    } else {
        escape_byte(s[0]) + escape_bytes(s.drop_first())
    }
}

/// The JSON encoding of a string: its UTF-8 bytes, escaped, in quotes.
pub open spec fn json_string(s: Seq<char>) -> Seq<u8> {
    seq![34u8] + escape_bytes(encode_utf8(s)) + seq![34u8]
}

/// The items of a JSON array, separated by commas.
pub open spec fn join_items(items: Seq<Seq<u8>>) -> Seq<u8>
    decreases items.len(),
{
    if items.len() == 0 {
        Seq::empty()
    } else if items.len() == 1 {
        items[0]
    } else {
        items[0] + seq![44u8] + join_items(items.drop_first())
    }
}

/// A JSON array of already-encoded items.
pub open spec fn json_array(items: Seq<Seq<u8>>) -> Seq<u8> {
    seq![91u8] + join_items(items) + seq![93u8]
}

/// A JSON array of strings.
pub open spec fn json_string_array(a: Seq<Seq<char>>) -> Seq<u8> {
    json_array(a.map_values(|s: Seq<char>| json_string(s)))
}

/// A JSON array of arrays of strings.
pub open spec fn json_string_matrix(m: Seq<Seq<Seq<char>>>) -> Seq<u8> {
    json_array(m.map_values(|a: Seq<Seq<char>>| json_string_array(a)))
}

/// A JSON array of integers.
pub open spec fn json_int_array(v: Seq<int>) -> Seq<u8> {
    json_array(v.map_values(|i: int| dec_rep_int(i)))
}

/// Escaping distributes over concatenation.
pub proof fn lemma_escape_bytes_add(a: Seq<u8>, b: Seq<u8>)
    ensures
        escape_bytes(a + b) == escape_bytes(a) + escape_bytes(b),
    decreases a.len(),
{
    if a.len() == 0 {
        assert(a + b =~= b);
        assert(escape_bytes(a) + escape_bytes(b) =~= escape_bytes(b));
    } else {
        lemma_escape_bytes_add(a.drop_first(), b);
        assert((a + b).drop_first() =~= a.drop_first() + b);
        assert(escape_byte(a[0]) + (escape_bytes(a.drop_first()) + escape_bytes(b)) =~= (escape_byte(
            a[0],
        ) + escape_bytes(a.drop_first())) + escape_bytes(b));
    }
}

/// Joining after appending one more item appends a comma and the item.
pub proof fn lemma_join_items_push(items: Seq<Seq<u8>>, x: Seq<u8>)
    ensures
        join_items(items.push(x)) == if items.len() == 0 {
            x
        } else {
            join_items(items) + seq![44u8] + x
        },
    decreases items.len(),
{
    if items.len() == 0 {
        assert(items.push(x).len() == 1);
        assert(join_items(items.push(x)) == items.push(x)[0]);
        assert(items.push(x)[0] == x);
    } else {
        lemma_join_items_push(items.drop_first(), x);
        assert(items.push(x).drop_first() =~= items.drop_first().push(x));
        assert(items.push(x)[0] == items[0]);
        if items.len() == 1 {
            assert(join_items(items.push(x)) == items[0] + seq![44u8] + join_items(
                items.drop_first().push(x),
            ));
            assert(join_items(items.drop_first().push(x)) == x);
            assert(join_items(items) == items[0]);
        } else {
            assert(join_items(items.push(x)) == items[0] + seq![44u8] + join_items(
                items.drop_first().push(x),
            ));
            assert(items[0] + seq![44u8] + (join_items(items.drop_first()) + seq![44u8] + x)
                =~= (items[0] + seq![44u8] + join_items(items.drop_first())) + seq![44u8] + x);
        }
    }
}

/// Appends the escape of every byte of `bytes` to `out`.
pub fn push_escaped(out: &mut Vec<u8>, bytes: &[u8])
    ensures
        final(out)@ == old(out)@ + escape_bytes(bytes@),
{
    let ghost start = out@;
    let mut i: usize = 0;
    while i < bytes.len()
        invariant
            i <= bytes@.len(),
            out@ == start + escape_bytes(bytes@.take(i as int)),
        decreases bytes@.len() - i,
    {
        let b = bytes[i];
        if b == 34 {
            out.push(92);
            out.push(34);
        } else if b == 92 {
            out.push(92);
            out.push(92);
        } else if b == 8 {
            out.push(92);
            out.push(98);
        } else if b == 9 {
            out.push(92);
            out.push(116);
        } else if b == 10 {
            out.push(92);
            out.push(110);
        } else if b == 12 {
            out.push(92);
            out.push(102);
        } else if b == 13 {
            out.push(92);
            out.push(114);
        } else if b < 32 {
            out.push(92);
            out.push(117);
            out.push(48);
            out.push(48);
            let hi = b / 16;
            let lo = b % 16;
            out.push(if hi < 10 { 48 + hi } else { 87 + hi });
            out.push(if lo < 10 { 48 + lo } else { 87 + lo });
        } else {
            out.push(b);
        }
        proof {
            assert(bytes@.take(i + 1).drop_last() =~= bytes@.take(i as int));
            assert(bytes@.take(i + 1) =~= bytes@.take(i as int).push(bytes@[i as int]));
            lemma_escape_bytes_add(bytes@.take(i as int), seq![bytes@[i as int]]);
            assert(bytes@.take(i as int) + seq![bytes@[i as int]] =~= bytes@.take(i + 1));
            assert(seq![bytes@[i as int]].drop_first() =~= Seq::<u8>::empty());
            assert(escape_bytes(seq![bytes@[i as int]]) == escape_byte(bytes@[i as int])
                + escape_bytes(Seq::<u8>::empty()));
            assert(escape_bytes(seq![bytes@[i as int]]) =~= escape_byte(bytes@[i as int]));
            assert(out@ =~= start + escape_bytes(bytes@.take(i + 1)));
        }
        i = i + 1;
    }
    proof {
        assert(bytes@.take(bytes@.len() as int) =~= bytes@);
    }
}

/// Appends the JSON encoding of the string `s` to `out`.
pub fn push_json_string(out: &mut Vec<u8>, s: &str)
    ensures
        final(out)@ == old(out)@ + json_string(s@),
{
    let ghost start = out@;
    out.push(34);
    push_escaped(out, s.as_bytes());
    out.push(34);
    proof {
        assert(out@ =~= start + json_string(s@));
    }
}

/// Appends the UTF-8 bytes of the string slice `s` to `out`.
pub fn push_str_bytes(out: &mut Vec<u8>, s: &str)
    ensures
        final(out)@ == old(out)@ + encode_utf8(s@),
{
    out.extend_from_slice(s.as_bytes());
}

/// Appends the JSON encoding of an array of strings to `out`.
pub fn push_json_string_array(out: &mut Vec<u8>, a: &Vec<String>)
    ensures
        final(out)@ == old(out)@ + json_string_array(a.deep_view()),
{
    let ghost start = out@;
    let ghost items = a.deep_view().map_values(|s: Seq<char>| json_string(s));
    out.push(91);
    let mut i: usize = 0;
    while i < a.len()
        invariant
            i <= a@.len(),
            a.deep_view().len() == a@.len(),
            items == a.deep_view().map_values(|s: Seq<char>| json_string(s)),
            items.len() == a@.len(),
            out@ == start + seq![91u8] + join_items(items.take(i as int)),
        decreases a@.len() - i,
    {
        if i > 0 {
            out.push(44);
        }
        push_json_string(out, a[i].as_str());
        proof {
            assert(a.deep_view()[i as int] == a@[i as int]@);
            assert(items[i as int] == json_string(a@[i as int]@));
            assert(items.take(i + 1) =~= items.take(i as int).push(items[i as int]));
            lemma_join_items_push(items.take(i as int), items[i as int]);
            assert(out@ =~= start + seq![91u8] + join_items(items.take(i + 1)));
        }
        i = i + 1;
    }
    out.push(93);
    proof {
        assert(items.take(a@.len() as int) =~= items);
        assert(out@ =~= start + json_string_array(a.deep_view()));
    }
}

/// Appends the JSON encoding of an array of string arrays to `out`.
pub fn push_json_string_matrix(out: &mut Vec<u8>, m: &Vec<Vec<String>>)
    ensures
        final(out)@ == old(out)@ + json_string_matrix(m.deep_view()),
{
    let ghost start = out@;
    let ghost items = m.deep_view().map_values(|a: Seq<Seq<char>>| json_string_array(a));
    out.push(91);
    let mut i: usize = 0;
    while i < m.len()
        invariant
            i <= m@.len(),
            m.deep_view().len() == m@.len(),
            items == m.deep_view().map_values(|a: Seq<Seq<char>>| json_string_array(a)),
            items.len() == m@.len(),
            out@ == start + seq![91u8] + join_items(items.take(i as int)),
        decreases m@.len() - i,
    {
        if i > 0 {
            out.push(44);
        }
        push_json_string_array(out, &m[i]);
        proof {
            assert(m.deep_view()[i as int] == m@[i as int].deep_view());
            assert(items[i as int] == json_string_array(m@[i as int].deep_view()));
            assert(items.take(i + 1) =~= items.take(i as int).push(items[i as int]));
            lemma_join_items_push(items.take(i as int), items[i as int]);
            assert(out@ =~= start + seq![91u8] + join_items(items.take(i + 1)));
        }
        i = i + 1;
    }
    out.push(93);
    proof {
        assert(items.take(m@.len() as int) =~= items);
        assert(out@ =~= start + json_string_matrix(m.deep_view()));
    }
}

/// Appends the JSON encoding of an array of integers to `out`.
pub fn push_json_int_array(out: &mut Vec<u8>, v: &Vec<i64>)
    ensures
        final(out)@ == old(out)@ + json_int_array(v@.map_values(|x: i64| x as int)),
{
    let ghost start = out@;
    let ghost ints = v@.map_values(|x: i64| x as int);
    let ghost items = ints.map_values(|i: int| dec_rep_int(i));
    out.push(91);
    let mut i: usize = 0;
    while i < v.len()
        invariant
            i <= v@.len(),
            ints == v@.map_values(|x: i64| x as int),
            items == ints.map_values(|i: int| dec_rep_int(i)),
            items.len() == v@.len(),
            ints.len() == v@.len(),
            out@ == start + seq![91u8] + join_items(items.take(i as int)),
        decreases v@.len() - i,
    {
        if i > 0 {
            out.push(44);
        }
        push_dec_i64(v[i], out);
        proof {
            assert(items[i as int] == dec_rep_int(v@[i as int] as int));
            assert(items.take(i + 1) =~= items.take(i as int).push(items[i as int]));
            lemma_join_items_push(items.take(i as int), items[i as int]);
            assert(out@ =~= start + seq![91u8] + join_items(items.take(i + 1)));
        }
        i = i + 1;
    }
    out.push(93);
    proof {
        assert(items.take(v@.len() as int) =~= items);
        assert(out@ =~= start + json_int_array(ints));
    }
}

} // verus!
