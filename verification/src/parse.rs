//! Strict readers for the JSON shapes the proof callbacks return.
//!
//! The grammar accepted here is the one the proof documents are written in:
//! objects whose members are exactly the declared fields (in any order, each
//! exactly once), arrays of strings, arrays of string arrays, and strings
//! with the standard JSON escapes. Whitespace is allowed between tokens.
//! Every reader is specified positionally over the byte sequence and the
//! executable readers are proved to return exactly what the specification
//! says.

use crate::zk_proof::{GrothZkProofPoints, UltraGrothProofPoints};
use vstd::prelude::*;
use vstd::utf8::{decode_utf8, encode_scalar, encode_utf8, is_scalar, valid_utf8};

verus! {

/// JSON insignificant whitespace.
pub open spec fn is_json_ws(b: u8) -> bool {
    b == 32 || b == 9 || b == 10 || b == 13
}

/// The first position at or after `i` holding a non-whitespace byte.
pub open spec fn sp_ws(s: Seq<u8>, i: int) -> int
    decreases s.len() - i when 0 <= i <= s.len()
{
    if i < s.len() && is_json_ws(s[i]) {
        sp_ws(s, i + 1)
    } else {
        i
    }
}

pub proof fn lemma_sp_ws_bounds(s: Seq<u8>, i: int)
    requires
        0 <= i <= s.len(),
    ensures
        i <= sp_ws(s, i) <= s.len(),
    decreases s.len() - i,
{
    if i < s.len() && is_json_ws(s[i]) {
        lemma_sp_ws_bounds(s, i + 1);
    }
}

/// The value of one hexadecimal digit byte.
pub open spec fn hex_val(b: u8) -> Option<int> {
    if 48 <= b <= 57 {
        Some((b - 48) as int)
    } else if 97 <= b <= 102 {
        Some((b - 87) as int)
    } else if 65 <= b <= 70 {
        Some((b - 55) as int)
    } else {
        None
    }
}

/// The value of the four hexadecimal digits at `i`.
pub open spec fn hex4_val(s: Seq<u8>, i: int) -> Option<int>
    recommends
        0 <= i,
        i + 4 <= s.len(),
{
    if hex_val(s[i]) is Some && hex_val(s[i + 1]) is Some && hex_val(s[i + 2]) is Some && hex_val(
        s[i + 3],
    ) is Some {
        Some(
            hex_val(s[i]).unwrap() * 4096 + hex_val(s[i + 1]).unwrap() * 256 + hex_val(
                s[i + 2],
            ).unwrap() * 16 + hex_val(s[i + 3]).unwrap(),
        )
    } else {
        None
    }
}

/// Reads the remainder of a JSON string whose opening quote stands before
/// `i`, appending the decoded content bytes to `acc`. Returns the content and
/// the position after the closing quote.
pub open spec fn sp_string_acc(s: Seq<u8>, i: int, acc: Seq<u8>) -> Option<(Seq<u8>, int)>
    decreases s.len() - i when 0 <= i <= s.len()
{
    if i >= s.len() {
        None
    } else if s[i] == 34 {
        Some((acc, i + 1))
    } else if s[i] == 92 {
        if i + 2 > s.len() {
            None
        } else {
            let e = s[i + 1];
            if e == 34 {
                sp_string_acc(s, i + 2, acc.push(34u8))
            } else if e == 92 {
                sp_string_acc(s, i + 2, acc.push(92u8))
            } else if e == 47 {
                sp_string_acc(s, i + 2, acc.push(47u8))
            } else if e == 98 {
                sp_string_acc(s, i + 2, acc.push(8u8))
            } else if e == 102 {
                sp_string_acc(s, i + 2, acc.push(12u8))
            } else if e == 110 {
                sp_string_acc(s, i + 2, acc.push(10u8))
            } else if e == 114 {
                sp_string_acc(s, i + 2, acc.push(13u8))
            } else if e == 116 {
                sp_string_acc(s, i + 2, acc.push(9u8))
            } else if e == 117 {
                if i + 6 > s.len() {
                    None
                } else {
                    match hex4_val(s, i + 2) {
                        None => None,
                        Some(v) => {
                            if 0xD800 <= v < 0xDC00 {
                                if i + 12 > s.len() {
                                    None
                                } else if s[i + 6] != 92 || s[i + 7] != 117 {
                                    None
                                } else {
                                    match hex4_val(s, i + 8) {
                                        None => None,
                                        Some(lo) => {
                                            if 0xDC00 <= lo < 0xE000 {
                                                sp_string_acc(
                                                    s,
                                                    i + 12,
                                                    acc + encode_scalar(
                                                        (0x10000 + (v - 0xD800) * 0x400 + (lo
                                                            - 0xDC00)) as u32,
                                                    ),
                                                )
                                            } else {
                                                None
                                            }
                                        },
                                    }
                                }
                            } else if 0xDC00 <= v < 0xE000 {
                                None
                            } else {
                                sp_string_acc(s, i + 6, acc + encode_scalar(v as u32))
                            }
                        },
                    }
                }
            } else {
                None
            }
        }
    } else if s[i] < 32 {
        None
    } else {
        sp_string_acc(s, i + 1, acc.push(s[i]))
    }
}

pub proof fn lemma_sp_string_acc_bounds(s: Seq<u8>, i: int, acc: Seq<u8>)
    requires
        0 <= i <= s.len(),
    ensures
        sp_string_acc(s, i, acc) matches Some(r) ==> i < r.1 <= s.len(),
    decreases s.len() - i,
{
    if i >= s.len() {
    } else if s[i] == 34 {
    } else if s[i] == 92 {
        if i + 2 <= s.len() {
            let e = s[i + 1];
            if e == 34 || e == 92 || e == 47 || e == 98 || e == 102 || e == 110 || e == 114 || e
                == 116 {
                lemma_sp_string_acc_bounds(s, i + 2, acc.push(if e == 34 {
                    34u8
                } else if e == 92 {
                    92u8
                } else if e == 47 {
                    47u8
                } else if e == 98 {
                    8u8
                } else if e == 102 {
                    12u8
                } else if e == 110 {
                    10u8
                } else if e == 114 {
                    13u8
                } else {
                    9u8
                }));
            } else if e == 117 && i + 6 <= s.len() {
                match hex4_val(s, i + 2) {
                    None => {},
                    Some(v) => {
                        if 0xD800 <= v < 0xDC00 {
                            if i + 12 <= s.len() && s[i + 6] == 92 && s[i + 7] == 117 {
                                match hex4_val(s, i + 8) {
                                    None => {},
                                    Some(lo) => {
                                        if 0xDC00 <= lo < 0xE000 {
                                            lemma_sp_string_acc_bounds(
                                                s,
                                                i + 12,
                                                acc + encode_scalar(
                                                    (0x10000 + (v - 0xD800) * 0x400 + (lo
                                                        - 0xDC00)) as u32,
                                                ),
                                            );
                                        }
                                    },
                                }
                            }
                        } else if 0xDC00 <= v < 0xE000 {
                        } else {
                            lemma_sp_string_acc_bounds(s, i + 6, acc + encode_scalar(v as u32));
                        }
                    },
                }
            }
        }
    } else if s[i] < 32 {
    } else {
        lemma_sp_string_acc_bounds(s, i + 1, acc.push(s[i]));
    }
}

/// Reads a whole JSON string starting at the opening quote at `i`; returns
/// its character content and the position after the closing quote. The
/// content bytes must be valid UTF-8.
pub open spec fn sp_string(s: Seq<u8>, i: int) -> Option<(Seq<char>, int)> {
    if 0 <= i < s.len() && s[i] == 34 {
        match sp_string_acc(s, i + 1, Seq::empty()) {
            None => None,
            Some((bytes, j)) => if valid_utf8(bytes) {
                Some((decode_utf8(bytes), j))
            } else {
                None
            },
        }
    } else {
        None
    }
}

/// Like [`sp_string`], but yields the raw content bytes; used for object
/// keys, which are compared byte for byte.
pub open spec fn sp_key(s: Seq<u8>, i: int) -> Option<(Seq<u8>, int)> {
    if 0 <= i < s.len() && s[i] == 34 {
        match sp_string_acc(s, i + 1, Seq::empty()) {
            None => None,
            Some((bytes, j)) => if valid_utf8(bytes) {
                Some((bytes, j))
            } else {
                None
            },
        }
    } else {
        None
    }
}

pub proof fn lemma_sp_string_bounds(s: Seq<u8>, i: int)
    requires
        0 <= i <= s.len(),
    ensures
        sp_string(s, i) matches Some(r) ==> i < r.1 <= s.len(),
        sp_key(s, i) matches Some(r) ==> i < r.1 <= s.len(),
{
    if 0 <= i < s.len() && s[i] == 34 {
        lemma_sp_string_acc_bounds(s, i + 1, Seq::empty());
    }
}

/// The partial Groth point set gathered while reading object members.
pub type GrothAcc = (Option<Seq<Seq<char>>>, Option<Seq<Seq<Seq<char>>>>, Option<
    Seq<Seq<char>>,
>, Option<Seq<char>>);

/// The partial UltraGroth point set gathered while reading object members.
pub type UltraAcc = (Option<Seq<Seq<char>>>, Option<Seq<Seq<Seq<char>>>>, Option<
    Seq<Seq<char>>,
>, Option<Seq<Seq<char>>>);

/// Reads the items of a string array, starting right after the opening
/// bracket or after a comma; ends after the closing bracket.
pub open spec fn sp_string_items(s: Seq<u8>, i: int, acc: Seq<Seq<char>>) -> Option<
    (Seq<Seq<char>>, int),
>
    decreases s.len() - i,
    when 0 <= i <= s.len()
    via sp_string_items_dec
{
    let j = sp_ws(s, i);
    match sp_string(s, j) {
        None => None,
        Some((item, k)) => {
            let f = sp_ws(s, k);
            if f < s.len() && s[f] == 44 {
                sp_string_items(s, f + 1, acc.push(item))
            } else if f < s.len() && s[f] == 93 {
                Some((acc.push(item), f + 1))
            } else {
                None
            }
        },
    }
}

#[via_fn]
proof fn sp_string_items_dec(s: Seq<u8>, i: int, acc: Seq<Seq<char>>) {
    lemma_sp_ws_bounds(s, i);
    let j = sp_ws(s, i);
    lemma_sp_string_bounds(s, j);
    if let Some((item, k)) = sp_string(s, j) {
        lemma_sp_ws_bounds(s, k);
    }
}

pub proof fn lemma_sp_string_items_bounds(s: Seq<u8>, i: int, acc: Seq<Seq<char>>)
    requires
        0 <= i <= s.len(),
    ensures
        sp_string_items(s, i, acc) matches Some(r) ==> i < r.1 <= s.len(),
    decreases s.len() - i,
{
    lemma_sp_ws_bounds(s, i);
    let j = sp_ws(s, i);
    lemma_sp_string_bounds(s, j);
    if let Some((item, k)) = sp_string(s, j) {
        lemma_sp_ws_bounds(s, k);
        let f = sp_ws(s, k);
        if f < s.len() && s[f] == 44 {
            lemma_sp_string_items_bounds(s, f + 1, acc.push(item));
        }
    }
}

/// Reads a whole string array whose opening bracket stands at `i`.
pub open spec fn sp_string_list(s: Seq<u8>, i: int) -> Option<(Seq<Seq<char>>, int)> {
    if 0 <= i < s.len() && s[i] == 91 {
        let j = sp_ws(s, i + 1);
        if j < s.len() && s[j] == 93 {
            Some((Seq::empty(), j + 1))
        } else {
            sp_string_items(s, i + 1, Seq::empty())
        }
    } else {
        None
    }
}

pub proof fn lemma_sp_string_list_bounds(s: Seq<u8>, i: int)
    requires
        0 <= i <= s.len(),
    ensures
        sp_string_list(s, i) matches Some(r) ==> i < r.1 <= s.len(),
{
    if 0 <= i < s.len() && s[i] == 91 {
        lemma_sp_ws_bounds(s, i + 1);
        lemma_sp_string_items_bounds(s, i + 1, Seq::empty());
    }
}

/// Reads the items of an array of string arrays, as [`sp_string_items`].
pub open spec fn sp_matrix_items(s: Seq<u8>, i: int, acc: Seq<Seq<Seq<char>>>) -> Option<
    (Seq<Seq<Seq<char>>>, int),
>
    decreases s.len() - i,
    when 0 <= i <= s.len()
    via sp_matrix_items_dec
{
    let j = sp_ws(s, i);
    match sp_string_list(s, j) {
        None => None,
        Some((item, k)) => {
            let f = sp_ws(s, k);
            if f < s.len() && s[f] == 44 {
                sp_matrix_items(s, f + 1, acc.push(item))
            } else if f < s.len() && s[f] == 93 {
                Some((acc.push(item), f + 1))
            } else {
                None
            }
        },
    }
}

#[via_fn]
proof fn sp_matrix_items_dec(s: Seq<u8>, i: int, acc: Seq<Seq<Seq<char>>>) {
    lemma_sp_ws_bounds(s, i);
    let j = sp_ws(s, i);
    lemma_sp_string_list_bounds(s, j);
    if let Some((item, k)) = sp_string_list(s, j) {
        lemma_sp_ws_bounds(s, k);
    }
}

pub proof fn lemma_sp_matrix_items_bounds(s: Seq<u8>, i: int, acc: Seq<Seq<Seq<char>>>)
    requires
        0 <= i <= s.len(),
    ensures
        sp_matrix_items(s, i, acc) matches Some(r) ==> i < r.1 <= s.len(),
    decreases s.len() - i,
{
    lemma_sp_ws_bounds(s, i);
    let j = sp_ws(s, i);
    lemma_sp_string_list_bounds(s, j);
    if let Some((item, k)) = sp_string_list(s, j) {
        lemma_sp_ws_bounds(s, k);
        let f = sp_ws(s, k);
        if f < s.len() && s[f] == 44 {
            lemma_sp_matrix_items_bounds(s, f + 1, acc.push(item));
        }
    }
}

/// Reads a whole array of string arrays whose opening bracket stands at `i`.
pub open spec fn sp_string_matrix(s: Seq<u8>, i: int) -> Option<(Seq<Seq<Seq<char>>>, int)> {
    if 0 <= i < s.len() && s[i] == 91 {
        let j = sp_ws(s, i + 1);
        if j < s.len() && s[j] == 93 {
            Some((Seq::empty(), j + 1))
        } else {
            sp_matrix_items(s, i + 1, Seq::empty())
        }
    } else {
        None
    }
}

pub proof fn lemma_sp_string_matrix_bounds(s: Seq<u8>, i: int)
    requires
        0 <= i <= s.len(),
    ensures
        sp_string_matrix(s, i) matches Some(r) ==> i < r.1 <= s.len(),
{
    if 0 <= i < s.len() && s[i] == 91 {
        lemma_sp_ws_bounds(s, i + 1);
        lemma_sp_matrix_items_bounds(s, i + 1, Seq::empty());
    }
}

/// Reads the members of a Groth point object, starting right after the
/// opening brace or after a comma. Each declared field may appear once, in
/// any order; a repeated or undeclared field refuses the document.
pub open spec fn sp_groth_members(s: Seq<u8>, i: int, acc: GrothAcc) -> Option<(GrothAcc, int)>
    decreases s.len() - i, 1int,
    when 0 <= i <= s.len()
    via sp_groth_members_dec
{
    let j = sp_ws(s, i);
    match sp_key(s, j) {
        None => None,
        Some((key, k)) => {
            let c = sp_ws(s, k);
            if !(c < s.len() && s[c] == 58) {
                None
            } else {
                let v = sp_ws(s, c + 1);
                if key == encode_utf8("pi_a"@) {
                    if acc.0 is Some {
                        None
                    } else {
                        match sp_string_list(s, v) {
                            None => None,
                            Some((val, e)) => sp_groth_member_end(
                                s,
                                e,
                                (Some(val), acc.1, acc.2, acc.3),
                            ),
                        }
                    }
                } else if key == encode_utf8("pi_b"@) {
                    if acc.1 is Some {
                        None
                    } else {
                        match sp_string_matrix(s, v) {
                            None => None,
                            Some((val, e)) => sp_groth_member_end(
                                s,
                                e,
                                (acc.0, Some(val), acc.2, acc.3),
                            ),
                        }
                    }
                } else if key == encode_utf8("pi_c"@) {
                    if acc.2 is Some {
                        None
                    } else {
                        match sp_string_list(s, v) {
                            None => None,
                            Some((val, e)) => sp_groth_member_end(
                                s,
                                e,
                                (acc.0, acc.1, Some(val), acc.3),
                            ),
                        }
                    }
                } else if key == encode_utf8("proof_protocol"@) {
                    if acc.3 is Some {
                        None
                    } else {
                        match sp_string(s, v) {
                            None => None,
                            Some((val, e)) => sp_groth_member_end(
                                s,
                                e,
                                (acc.0, acc.1, acc.2, Some(val)),
                            ),
                        }
                    }
                } else {
                    None
                }
            }
        },
    }
}

/// After one member of a Groth point object: a comma continues the member
/// list, a closing brace ends it.
pub open spec fn sp_groth_member_end(s: Seq<u8>, i: int, acc: GrothAcc) -> Option<(GrothAcc, int)>
    decreases s.len() - i, 0int,
    when 0 <= i <= s.len()
    via sp_groth_member_end_dec
{
    let f = sp_ws(s, i);
    if f < s.len() && s[f] == 44 {
        sp_groth_members(s, f + 1, acc)
    } else if f < s.len() && s[f] == 125 {
        Some((acc, f + 1))
    } else {
        None
    }
}

#[via_fn]
proof fn sp_groth_members_dec(s: Seq<u8>, i: int, acc: GrothAcc) {
    lemma_sp_ws_bounds(s, i);
    let j = sp_ws(s, i);
    lemma_sp_string_bounds(s, j);
    if let Some((key, k)) = sp_key(s, j) {
        lemma_sp_ws_bounds(s, k);
        let c = sp_ws(s, k);
        if c < s.len() && s[c] == 58 {
            lemma_sp_ws_bounds(s, c + 1);
            let v = sp_ws(s, c + 1);
            lemma_sp_string_list_bounds(s, v);
            lemma_sp_string_matrix_bounds(s, v);
            lemma_sp_string_bounds(s, v);
        }
    }
}

#[via_fn]
proof fn sp_groth_member_end_dec(s: Seq<u8>, i: int, acc: GrothAcc) {
    lemma_sp_ws_bounds(s, i);
}

pub proof fn lemma_sp_groth_members_bounds(s: Seq<u8>, i: int, acc: GrothAcc)
    requires
        0 <= i <= s.len(),
    ensures
        sp_groth_members(s, i, acc) matches Some(r) ==> i < r.1 <= s.len(),
    decreases s.len() - i, 1int,
{
    lemma_sp_ws_bounds(s, i);
    let j = sp_ws(s, i);
    lemma_sp_string_bounds(s, j);
    if let Some((key, k)) = sp_key(s, j) {
        lemma_sp_ws_bounds(s, k);
        let c = sp_ws(s, k);
        if c < s.len() && s[c] == 58 {
            lemma_sp_ws_bounds(s, c + 1);
            let v = sp_ws(s, c + 1);
            lemma_sp_string_list_bounds(s, v);
            lemma_sp_string_matrix_bounds(s, v);
            lemma_sp_string_bounds(s, v);
            if let Some((val, e)) = sp_string_list(s, v) {
                lemma_sp_groth_member_end_bounds(s, e, (Some(val), acc.1, acc.2, acc.3));
                lemma_sp_groth_member_end_bounds(s, e, (acc.0, acc.1, Some(val), acc.3));
            }
            if let Some((val, e)) = sp_string_matrix(s, v) {
                lemma_sp_groth_member_end_bounds(s, e, (acc.0, Some(val), acc.2, acc.3));
            }
            if let Some((val, e)) = sp_string(s, v) {
                lemma_sp_groth_member_end_bounds(s, e, (acc.0, acc.1, acc.2, Some(val)));
            }
        }
    }
}

pub proof fn lemma_sp_groth_member_end_bounds(s: Seq<u8>, i: int, acc: GrothAcc)
    requires
        0 <= i <= s.len(),
    ensures
        sp_groth_member_end(s, i, acc) matches Some(r) ==> i < r.1 <= s.len(),
    decreases s.len() - i, 0int,
{
    lemma_sp_ws_bounds(s, i);
    let f = sp_ws(s, i);
    if f < s.len() && s[f] == 44 {
        lemma_sp_groth_members_bounds(s, f + 1, acc);
    }
}

/// Reads the members of an UltraGroth point object, as [`sp_groth_members`].
pub open spec fn sp_ultra_members(s: Seq<u8>, i: int, acc: UltraAcc) -> Option<(UltraAcc, int)>
    decreases s.len() - i, 1int,
    when 0 <= i <= s.len()
    via sp_ultra_members_dec
{
    let j = sp_ws(s, i);
    match sp_key(s, j) {
        None => None,
        Some((key, k)) => {
            let c = sp_ws(s, k);
            if !(c < s.len() && s[c] == 58) {
                None
            } else {
                let v = sp_ws(s, c + 1);
                if key == encode_utf8("pi_a"@) {
                    if acc.0 is Some {
                        None
                    } else {
                        match sp_string_list(s, v) {
                            None => None,
                            Some((val, e)) => sp_ultra_member_end(
                                s,
                                e,
                                (Some(val), acc.1, acc.2, acc.3),
                            ),
                        }
                    }
                } else if key == encode_utf8("pi_b"@) {
                    if acc.1 is Some {
                        None
                    } else {
                        match sp_string_matrix(s, v) {
                            None => None,
                            Some((val, e)) => sp_ultra_member_end(
                                s,
                                e,
                                (acc.0, Some(val), acc.2, acc.3),
                            ),
                        }
                    }
                } else if key == encode_utf8("pi_f"@) {
                    if acc.2 is Some {
                        None
                    } else {
                        match sp_string_list(s, v) {
                            None => None,
                            Some((val, e)) => sp_ultra_member_end(
                                s,
                                e,
                                (acc.0, acc.1, Some(val), acc.3),
                            ),
                        }
                    }
                } else if key == encode_utf8("pi_r"@) {
                    if acc.3 is Some {
                        None
                    } else {
                        match sp_string_list(s, v) {
                            None => None,
                            Some((val, e)) => sp_ultra_member_end(
                                s,
                                e,
                                (acc.0, acc.1, acc.2, Some(val)),
                            ),
                        }
                    }
                } else {
                    None
                }
            }
        },
    }
}

/// After one member of an UltraGroth point object.
pub open spec fn sp_ultra_member_end(s: Seq<u8>, i: int, acc: UltraAcc) -> Option<(UltraAcc, int)>
    decreases s.len() - i, 0int,
    when 0 <= i <= s.len()
    via sp_ultra_member_end_dec
{
    let f = sp_ws(s, i);
    if f < s.len() && s[f] == 44 {
        sp_ultra_members(s, f + 1, acc)
    } else if f < s.len() && s[f] == 125 {
        Some((acc, f + 1))
    } else {
        None
    }
}

#[via_fn]
proof fn sp_ultra_members_dec(s: Seq<u8>, i: int, acc: UltraAcc) {
    lemma_sp_ws_bounds(s, i);
    let j = sp_ws(s, i);
    lemma_sp_string_bounds(s, j);
    if let Some((key, k)) = sp_key(s, j) {
        lemma_sp_ws_bounds(s, k);
        let c = sp_ws(s, k);
        if c < s.len() && s[c] == 58 {
            lemma_sp_ws_bounds(s, c + 1);
            let v = sp_ws(s, c + 1);
            lemma_sp_string_list_bounds(s, v);
            lemma_sp_string_matrix_bounds(s, v);
            lemma_sp_string_bounds(s, v);
        }
    }
}

#[via_fn]
proof fn sp_ultra_member_end_dec(s: Seq<u8>, i: int, acc: UltraAcc) {
    lemma_sp_ws_bounds(s, i);
}

pub proof fn lemma_sp_ultra_members_bounds(s: Seq<u8>, i: int, acc: UltraAcc)
    requires
        0 <= i <= s.len(),
    ensures
        sp_ultra_members(s, i, acc) matches Some(r) ==> i < r.1 <= s.len(),
    decreases s.len() - i, 1int,
{
    lemma_sp_ws_bounds(s, i);
    let j = sp_ws(s, i);
    lemma_sp_string_bounds(s, j);
    if let Some((key, k)) = sp_key(s, j) {
        lemma_sp_ws_bounds(s, k);
        let c = sp_ws(s, k);
        if c < s.len() && s[c] == 58 {
            lemma_sp_ws_bounds(s, c + 1);
            let v = sp_ws(s, c + 1);
            lemma_sp_string_list_bounds(s, v);
            lemma_sp_string_matrix_bounds(s, v);
            lemma_sp_string_bounds(s, v);
            if let Some((val, e)) = sp_string_list(s, v) {
                lemma_sp_ultra_member_end_bounds(s, e, (Some(val), acc.1, acc.2, acc.3));
                lemma_sp_ultra_member_end_bounds(s, e, (acc.0, acc.1, Some(val), acc.3));
                lemma_sp_ultra_member_end_bounds(s, e, (acc.0, acc.1, acc.2, Some(val)));
            }
            if let Some((val, e)) = sp_string_matrix(s, v) {
                lemma_sp_ultra_member_end_bounds(s, e, (acc.0, Some(val), acc.2, acc.3));
            }
        }
    }
}

pub proof fn lemma_sp_ultra_member_end_bounds(s: Seq<u8>, i: int, acc: UltraAcc)
    requires
        0 <= i <= s.len(),
    ensures
        sp_ultra_member_end(s, i, acc) matches Some(r) ==> i < r.1 <= s.len(),
    decreases s.len() - i, 0int,
{
    lemma_sp_ws_bounds(s, i);
    let f = sp_ws(s, i);
    if f < s.len() && s[f] == 44 {
        lemma_sp_ultra_members_bounds(s, f + 1, acc);
    }
}

/// Reads a whole Groth point document: one object, nothing but whitespace
/// after it, and all four fields present.
pub open spec fn sp_parse_groth(s: Seq<u8>) -> Option<
    (Seq<Seq<char>>, Seq<Seq<Seq<char>>>, Seq<Seq<char>>, Seq<char>),
> {
    let i = sp_ws(s, 0);
    if i < s.len() && s[i] == 123 {
        match sp_groth_members(s, i + 1, (None, None, None, None)) {
            None => None,
            Some((acc, j)) => {
                if sp_ws(s, j) == s.len() {
                    match acc {
                        (Some(pi_a), Some(pi_b), Some(pi_c), Some(protocol)) => Some(
                            (pi_a, pi_b, pi_c, protocol),
                        ),
                        _ => None,
                    }
                } else {
                    None
                }
            },
        }
    } else {
        None
    }
}

/// Reads a whole UltraGroth point document, as [`sp_parse_groth`].
pub open spec fn sp_parse_ultra(s: Seq<u8>) -> Option<
    (Seq<Seq<char>>, Seq<Seq<Seq<char>>>, Seq<Seq<char>>, Seq<Seq<char>>),
> {
    let i = sp_ws(s, 0);
    if i < s.len() && s[i] == 123 {
        match sp_ultra_members(s, i + 1, (None, None, None, None)) {
            None => None,
            Some((acc, j)) => {
                if sp_ws(s, j) == s.len() {
                    match acc {
                        (Some(pi_a), Some(pi_b), Some(pi_f), Some(pi_r)) => Some(
                            (pi_a, pi_b, pi_f, pi_r),
                        ),
                        _ => None,
                    }
                } else {
                    None
                }
            },
        }
    } else {
        None
    }
}

/// Reads a whole public-signal document: one string array and nothing but
/// whitespace after it.
pub open spec fn sp_parse_signals(s: Seq<u8>) -> Option<Seq<Seq<char>>> {
    let i = sp_ws(s, 0);
    match sp_string_list(s, i) {
        None => None,
        Some((v, j)) => {
            if sp_ws(s, j) == s.len() {
                Some(v)
            } else {
                None
            }
        },
    }
}

/// Whether two byte sequences are equal.
fn bytes_eq(a: &Vec<u8>, b: &[u8]) -> (r: bool)
    ensures
        r == (a@ == b@),
{
    if a.len() != b.len() {
        assert(a@ != b@) by {
            assert(a@.len() != b@.len());
        }
        return false;
    }
    let mut i: usize = 0;
    while i < a.len()
        invariant
            i <= a@.len(),
            a@.len() == b@.len(),
            forall|k: int| 0 <= k < i ==> a@[k] == b@[k],
        decreases a@.len() - i,
    {
        if a[i] != b[i] {
            return false;
        }
        i = i + 1;
    }
    assert(a@ =~= b@);
    true
}

/// The first position at or after `i` holding a non-whitespace byte.
fn ws_from(s: &[u8], i: usize) -> (r: usize)
    requires
        i <= s@.len(),
    ensures
        r as int == sp_ws(s@, i as int),
        i <= r <= s@.len(),
{
    let mut cur: usize = i;
    loop
        invariant
            i <= cur <= s@.len(),
            sp_ws(s@, i as int) == sp_ws(s@, cur as int),
        decreases s@.len() - cur,
    {
        if cur >= s.len() {
            return cur;
        }
        let b = s[cur];
        if b == 32 || b == 9 || b == 10 || b == 13 {
            cur = cur + 1;
        } else {
            return cur;
        }
    }
}

/// The value of one hexadecimal digit byte.
fn hex_digit_val(b: u8) -> (r: Option<u32>)
    ensures
        r matches Some(v) ==> hex_val(b) == Some(v as int) && v < 16,
        r is None ==> hex_val(b) is None,
{
    if 48 <= b && b <= 57 {
        Some((b - 48) as u32)
    } else if 97 <= b && b <= 102 {
        Some((b - 87) as u32)
    } else if 65 <= b && b <= 70 {
        Some((b - 55) as u32)
    } else {
        None
    }
}

/// The value of the four hexadecimal digits at `i`.
fn hex4(s: &[u8], i: usize) -> (r: Option<u32>)
    requires
        i + 4 <= s@.len(),
    ensures
        r matches Some(v) ==> hex4_val(s@, i as int) == Some(v as int) && v < 0x10000,
        r is None ==> hex4_val(s@, i as int) is None,
{
    let a = match hex_digit_val(s[i]) {
        Some(v) => v,
        None => {
            return None;
        },
    };
    let b = match hex_digit_val(s[i + 1]) {
        Some(v) => v,
        None => {
            return None;
        },
    };
    let c = match hex_digit_val(s[i + 2]) {
        Some(v) => v,
        None => {
            return None;
        },
    };
    let d = match hex_digit_val(s[i + 3]) {
        Some(v) => v,
        None => {
            return None;
        },
    };
    Some(a * 4096 + b * 256 + c * 16 + d)
}

/// Appends the UTF-8 encoding of the scalar value `v` to `out`.
fn push_scalar_utf8(out: &mut Vec<u8>, v: u32)
    requires
        is_scalar(v),
    ensures
        final(out)@ == old(out)@ + encode_scalar(v),
{
    if v <= 0x7F {
        out.push((v & 0x7F) as u8);
        assert(out@ =~= old(out)@ + encode_scalar(v));
    } else if v <= 0x7FF {
        out.push(0xC0u8 | (((v >> 6) & 0x1F) as u8));
        out.push(0x80u8 | ((v & 0x3F) as u8));
        assert(out@ =~= old(out)@ + encode_scalar(v));
    } else if v <= 0xFFFF {
        out.push(0xE0u8 | (((v >> 12) & 0x0F) as u8));
        out.push(0x80u8 | (((v >> 6) & 0x3F) as u8));
        out.push(0x80u8 | ((v & 0x3F) as u8));
        assert(out@ =~= old(out)@ + encode_scalar(v));
    } else {
        out.push(0xF0u8 | (((v >> 18) & 0x7) as u8));
        out.push(0x80u8 | (((v >> 12) & 0x3F) as u8));
        out.push(0x80u8 | (((v >> 6) & 0x3F) as u8));
        out.push(0x80u8 | ((v & 0x3F) as u8));
        assert(out@ =~= old(out)@ + encode_scalar(v));
    }
}

/// Relies on `str::from_utf8` of std: it succeeds exactly on valid UTF-8.
#[verifier::external_body]
fn utf8_is_valid(v: &Vec<u8>) -> (r: bool)
    ensures
        r == valid_utf8(v@),
{
    core::str::from_utf8(v).is_ok()
}

/// Relies on `String::from_utf8` of std: it succeeds exactly on valid UTF-8
/// input and the string holds exactly those bytes, i.e. their decoding.
#[verifier::external_body]
fn string_from_utf8(v: Vec<u8>) -> (r: Option<String>)
    ensures
        r is Some <==> valid_utf8(v@),
        r matches Some(s) ==> s@ == decode_utf8(v@),
{
    String::from_utf8(v).ok()
}

/// Reads the remainder of a JSON string whose opening quote stands before
/// position `i`; returns the decoded content bytes and the position after
/// the closing quote.
fn parse_string_content(s: &[u8], i: usize) -> (r: Option<(Vec<u8>, usize)>)
    requires
        i <= s@.len(),
    ensures
        r matches Some(p) ==> sp_string_acc(s@, i as int, Seq::empty()) == Some(
            (p.0@, p.1 as int),
        ) && p.1 <= s@.len(),
        r is None ==> sp_string_acc(s@, i as int, Seq::empty()) is None,
{
    let mut acc: Vec<u8> = Vec::new();
    let mut cur: usize = i;
    proof {
        assert(acc@ =~= Seq::<u8>::empty());
    }
    loop
        invariant
            i <= cur <= s@.len(),
            sp_string_acc(s@, i as int, Seq::empty()) == sp_string_acc(s@, cur as int, acc@),
        decreases s@.len() - cur,
    {
        if cur >= s.len() {
            return None;
        }
        let b = s[cur];
        if b == 34 {
            let ghost j = cur as int;
            assert(sp_string_acc(s@, j, acc@) == Some((acc@, j + 1)));
            return Some((acc, cur + 1));
        }
        if b == 92 {
            if s.len() - cur < 2 {
                return None;
            }
            let e = s[cur + 1];
            if e == 34 {
                acc.push(34);
                cur = cur + 2;
            } else if e == 92 {
                acc.push(92);
                cur = cur + 2;
            } else if e == 47 {
                acc.push(47);
                cur = cur + 2;
            } else if e == 98 {
                acc.push(8);
                cur = cur + 2;
            } else if e == 102 {
                acc.push(12);
                cur = cur + 2;
            } else if e == 110 {
                acc.push(10);
                cur = cur + 2;
            } else if e == 114 {
                acc.push(13);
                cur = cur + 2;
            } else if e == 116 {
                acc.push(9);
                cur = cur + 2;
            } else if e == 117 {
                if s.len() - cur < 6 {
                    return None;
                }
                match hex4(s, cur + 2) {
                    None => {
                        return None;
                    },
                    Some(v) => {
                        if 0xD800 <= v && v < 0xDC00 {
                            if s.len() - cur < 12 {
                                return None;
                            }
                            if s[cur + 6] != 92 || s[cur + 7] != 117 {
                                return None;
                            }
                            match hex4(s, cur + 8) {
                                None => {
                                    return None;
                                },
                                Some(lo) => {
                                    if 0xDC00 <= lo && lo < 0xE000 {
                                        let cp: u32 = 0x10000 + (v - 0xD800) * 0x400 + (lo
                                            - 0xDC00);
                                        assert(is_scalar(cp));
                                        push_scalar_utf8(&mut acc, cp);
                                        cur = cur + 12;
                                    } else {
                                        return None;
                                    }
                                },
                            }
                        } else if 0xDC00 <= v && v < 0xE000 {
                            return None;
                        } else {
                            assert(is_scalar(v));
                            push_scalar_utf8(&mut acc, v);
                            cur = cur + 6;
                        }
                    },
                }
            } else {
                return None;
            }
        } else if b < 32 {
            return None;
        } else {
            acc.push(b);
            cur = cur + 1;
        }
    }
}

/// Reads a whole JSON string starting at the opening quote at `i`.
fn parse_string(s: &[u8], i: usize) -> (r: Option<(String, usize)>)
    requires
        i <= s@.len(),
    ensures
        r matches Some(p) ==> sp_string(s@, i as int) == Some((p.0@, p.1 as int)) && i < p.1
            <= s@.len(),
        r is None ==> sp_string(s@, i as int) is None,
{
    if i >= s.len() {
        return None;
    }
    if s[i] != 34 {
        return None;
    }
    match parse_string_content(s, i + 1) {
        None => None,
        Some((content, j)) => {
            let ghost content_bytes = content@;
            proof {
                lemma_sp_string_acc_bounds(s@, i as int + 1, Seq::empty());
            }
            match string_from_utf8(content) {
                None => None,
                Some(st) => Some((st, j)),
            }
        },
    }
}

/// Reads a whole JSON string as raw content bytes; used for object keys.
fn parse_key(s: &[u8], i: usize) -> (r: Option<(Vec<u8>, usize)>)
    requires
        i <= s@.len(),
    ensures
        r matches Some(p) ==> sp_key(s@, i as int) == Some((p.0@, p.1 as int)) && i < p.1
            <= s@.len(),
        r is None ==> sp_key(s@, i as int) is None,
{
    if i >= s.len() {
        return None;
    }
    if s[i] != 34 {
        return None;
    }
    match parse_string_content(s, i + 1) {
        None => None,
        Some((content, j)) => {
            proof {
                lemma_sp_string_acc_bounds(s@, i as int + 1, Seq::empty());
            }
            if utf8_is_valid(&content) {
                Some((content, j))
            } else {
                None
            }
        },
    }
}

/// Reads a whole JSON array of strings whose opening bracket stands at `i`.
fn parse_string_list(s: &[u8], i: usize) -> (r: Option<(Vec<String>, usize)>)
    requires
        i <= s@.len(),
    ensures
        r matches Some(p) ==> sp_string_list(s@, i as int) == Some((p.0.deep_view(), p.1 as int))
            && i < p.1 <= s@.len(),
        r is None ==> sp_string_list(s@, i as int) is None,
{
    if i >= s.len() {
        return None;
    }
    if s[i] != 91 {
        return None;
    }
    let j = ws_from(s, i + 1);
    if j < s.len() && s[j] == 93 {
        let empty: Vec<String> = Vec::new();
        proof {
            assert(empty.deep_view() =~= Seq::<Seq<char>>::empty());
        }
        return Some((empty, j + 1));
    }
    let mut acc: Vec<String> = Vec::new();
    let mut cur: usize = i + 1;
    proof {
        assert(acc.deep_view() =~= Seq::<Seq<char>>::empty());
        assert(sp_string_list(s@, i as int) == sp_string_items(
            s@,
            i as int + 1,
            Seq::<Seq<char>>::empty(),
        ));
    }
    loop
        invariant
            i + 1 <= cur <= s@.len(),
            sp_string_list(s@, i as int) == sp_string_items(
                s@,
                i as int + 1,
                Seq::<Seq<char>>::empty(),
            ),
            sp_string_items(s@, i as int + 1, Seq::<Seq<char>>::empty()) == sp_string_items(
                s@,
                cur as int,
                acc.deep_view(),
            ),
        decreases s@.len() - cur,
    {
        let jj = ws_from(s, cur);
        match parse_string(s, jj) {
            None => {
                return None;
            },
            Some((item, k)) => {
                let ghost old_dv = acc.deep_view();
                let ghost iv = item@;
                let f = ws_from(s, k);
                if f < s.len() && s[f] == 44 {
                    acc.push(item);
                    proof {
                        assert(acc.deep_view() =~= old_dv.push(iv));
                    }
                    cur = f + 1;
                } else if f < s.len() && s[f] == 93 {
                    acc.push(item);
                    proof {
                        assert(acc.deep_view() =~= old_dv.push(iv));
                    }
                    return Some((acc, f + 1));
                } else {
                    return None;
                }
            },
        }
    }
}

/// Reads a whole JSON array of string arrays whose opening bracket stands at
/// `i`.
fn parse_string_matrix(s: &[u8], i: usize) -> (r: Option<(Vec<Vec<String>>, usize)>)
    requires
        i <= s@.len(),
    ensures
        r matches Some(p) ==> sp_string_matrix(s@, i as int) == Some(
            (p.0.deep_view(), p.1 as int),
        ) && i < p.1 <= s@.len(),
        r is None ==> sp_string_matrix(s@, i as int) is None,
{
    if i >= s.len() {
        return None;
    }
    if s[i] != 91 {
        return None;
    }
    let j = ws_from(s, i + 1);
    if j < s.len() && s[j] == 93 {
        let empty: Vec<Vec<String>> = Vec::new();
        proof {
            assert(empty.deep_view() =~= Seq::<Seq<Seq<char>>>::empty());
        }
        return Some((empty, j + 1));
    }
    let mut acc: Vec<Vec<String>> = Vec::new();
    let mut cur: usize = i + 1;
    proof {
        assert(acc.deep_view() =~= Seq::<Seq<Seq<char>>>::empty());
        assert(sp_string_matrix(s@, i as int) == sp_matrix_items(
            s@,
            i as int + 1,
            Seq::<Seq<Seq<char>>>::empty(),
        ));
    }
    loop
        invariant
            i + 1 <= cur <= s@.len(),
            sp_string_matrix(s@, i as int) == sp_matrix_items(
                s@,
                i as int + 1,
                Seq::<Seq<Seq<char>>>::empty(),
            ),
            sp_matrix_items(s@, i as int + 1, Seq::<Seq<Seq<char>>>::empty()) == sp_matrix_items(
                s@,
                cur as int,
                acc.deep_view(),
            ),
        decreases s@.len() - cur,
    {
        let jj = ws_from(s, cur);
        match parse_string_list(s, jj) {
            None => {
                return None;
            },
            Some((item, k)) => {
                let ghost old_dv = acc.deep_view();
                let ghost iv = item.deep_view();
                let f = ws_from(s, k);
                if f < s.len() && s[f] == 44 {
                    acc.push(item);
                    proof {
                        assert(acc.deep_view() =~= old_dv.push(iv));
                    }
                    cur = f + 1;
                } else if f < s.len() && s[f] == 93 {
                    acc.push(item);
                    proof {
                        assert(acc.deep_view() =~= old_dv.push(iv));
                    }
                    return Some((acc, f + 1));
                } else {
                    return None;
                }
            },
        }
    }
}

/// Reads a whole Groth point document from `s`, exactly as
/// [`sp_parse_groth`] describes: one object holding `pi_a`, `pi_b`, `pi_c`
/// and `proof_protocol`, each exactly once, in any order, and nothing but
/// whitespace after it.
pub fn parse_groth_points(s: &[u8]) -> (r: Option<GrothZkProofPoints>)
    ensures
        r matches Some(p) ==> sp_parse_groth(s@) == Some(
            (p.pi_a.deep_view(), p.pi_b.deep_view(), p.pi_c.deep_view(), p.proof_protocol@),
        ),
        r is None ==> sp_parse_groth(s@) is None,
{
    let i = ws_from(s, 0);
    if !(i < s.len() && s[i] == 123) {
        return None;
    }
    let mut pi_a: Option<Vec<String>> = None;
    let mut pi_b: Option<Vec<Vec<String>>> = None;
    let mut pi_c: Option<Vec<String>> = None;
    let mut protocol: Option<String> = None;
    let mut cur: usize = i + 1;
    loop
        invariant
            i + 1 <= cur <= s@.len(),
            i < s@.len(),
            i as int == sp_ws(s@, 0),
            s@[i as int] == 123,
            sp_groth_members(s@, i as int + 1, (None, None, None, None)) == sp_groth_members(
                s@,
                cur as int,
                (pi_a.deep_view(), pi_b.deep_view(), pi_c.deep_view(), protocol.deep_view()),
            ),
        decreases s@.len() - cur,
    {
        let ghost acc_old: GrothAcc = (
            pi_a.deep_view(),
            pi_b.deep_view(),
            pi_c.deep_view(),
            protocol.deep_view(),
        );
        let j = ws_from(s, cur);
        let (key, k) = match parse_key(s, j) {
            None => {
                return None;
            },
            Some(p) => p,
        };
        let c = ws_from(s, k);
        if !(c < s.len() && s[c] == 58) {
            return None;
        }
        let v = ws_from(s, c + 1);
        let e: usize;
        if bytes_eq(&key, "pi_a".as_bytes()) {
            if pi_a.is_some() {
                return None;
            }
            match parse_string_list(s, v) {
                None => {
                    return None;
                },
                Some((val, e1)) => {
                    pi_a = Some(val);
                    e = e1;
                },
            }
        } else if bytes_eq(&key, "pi_b".as_bytes()) {
            if pi_b.is_some() {
                return None;
            }
            match parse_string_matrix(s, v) {
                None => {
                    return None;
                },
                Some((val, e1)) => {
                    pi_b = Some(val);
                    e = e1;
                },
            }
        } else if bytes_eq(&key, "pi_c".as_bytes()) {
            if pi_c.is_some() {
                return None;
            }
            match parse_string_list(s, v) {
                None => {
                    return None;
                },
                Some((val, e1)) => {
                    pi_c = Some(val);
                    e = e1;
                },
            }
        } else if bytes_eq(&key, "proof_protocol".as_bytes()) {
            if protocol.is_some() {
                return None;
            }
            match parse_string(s, v) {
                None => {
                    return None;
                },
                Some((val, e1)) => {
                    protocol = Some(val);
                    e = e1;
                },
            }
        } else {
            return None;
        }
        let ghost acc_new: GrothAcc = (
            pi_a.deep_view(),
            pi_b.deep_view(),
            pi_c.deep_view(),
            protocol.deep_view(),
        );
        proof {
            assert(sp_groth_members(s@, cur as int, acc_old) == sp_groth_member_end(
                s@,
                e as int,
                acc_new,
            ));
        }
        let f = ws_from(s, e);
        if f < s.len() && s[f] == 44 {
            cur = f + 1;
        } else if f < s.len() && s[f] == 125 {
            proof {
                assert(sp_groth_member_end(s@, e as int, acc_new) == Some((acc_new, f + 1)));
            }
            let t = ws_from(s, f + 1);
            if t != s.len() {
                return None;
            }
            match (pi_a, pi_b, pi_c, protocol) {
                (Some(a), Some(b), Some(c2), Some(p)) => {
                    return Some(
                        GrothZkProofPoints {
                            pi_a: a,
                            pi_b: b,
                            pi_c: c2,
                            proof_protocol: p,
                        },
                    );
                },
                _ => {
                    return None;
                },
            }
        } else {
            return None;
        }
    }
}

/// Reads a whole UltraGroth point document from `s`, exactly as
/// [`sp_parse_ultra`] describes: one object holding `pi_a`, `pi_b`, `pi_f`
/// and `pi_r`, each exactly once, in any order.
pub fn parse_ultra_groth_points(s: &[u8]) -> (r: Option<UltraGrothProofPoints>)
    ensures
        r matches Some(p) ==> sp_parse_ultra(s@) == Some(
            (p.pi_a.deep_view(), p.pi_b.deep_view(), p.pi_f.deep_view(), p.pi_r.deep_view()),
        ),
        r is None ==> sp_parse_ultra(s@) is None,
{
    let i = ws_from(s, 0);
    if !(i < s.len() && s[i] == 123) {
        return None;
    }
    let mut pi_a: Option<Vec<String>> = None;
    let mut pi_b: Option<Vec<Vec<String>>> = None;
    let mut pi_f: Option<Vec<String>> = None;
    let mut pi_r: Option<Vec<String>> = None;
    let mut cur: usize = i + 1;
    loop
        invariant
            i + 1 <= cur <= s@.len(),
            i < s@.len(),
            i as int == sp_ws(s@, 0),
            s@[i as int] == 123,
            sp_ultra_members(s@, i as int + 1, (None, None, None, None)) == sp_ultra_members(
                s@,
                cur as int,
                (pi_a.deep_view(), pi_b.deep_view(), pi_f.deep_view(), pi_r.deep_view()),
            ),
        decreases s@.len() - cur,
    {
        let ghost acc_old: UltraAcc = (
            pi_a.deep_view(),
            pi_b.deep_view(),
            pi_f.deep_view(),
            pi_r.deep_view(),
        );
        let j = ws_from(s, cur);
        let (key, k) = match parse_key(s, j) {
            None => {
                return None;
            },
            Some(p) => p,
        };
        let c = ws_from(s, k);
        if !(c < s.len() && s[c] == 58) {
            return None;
        }
        let v = ws_from(s, c + 1);
        let e: usize;
        if bytes_eq(&key, "pi_a".as_bytes()) {
            if pi_a.is_some() {
                return None;
            }
            match parse_string_list(s, v) {
                None => {
                    return None;
                },
                Some((val, e1)) => {
                    pi_a = Some(val);
                    e = e1;
                },
            }
        } else if bytes_eq(&key, "pi_b".as_bytes()) {
            if pi_b.is_some() {
                return None;
            }
            match parse_string_matrix(s, v) {
                None => {
                    return None;
                },
                Some((val, e1)) => {
                    pi_b = Some(val);
                    e = e1;
                },
            }
        } else if bytes_eq(&key, "pi_f".as_bytes()) {
            if pi_f.is_some() {
                return None;
            }
            match parse_string_list(s, v) {
                None => {
                    return None;
                },
                Some((val, e1)) => {
                    pi_f = Some(val);
                    e = e1;
                },
            }
        } else if bytes_eq(&key, "pi_r".as_bytes()) {
            if pi_r.is_some() {
                return None;
            }
            match parse_string_list(s, v) {
                None => {
                    return None;
                },
                Some((val, e1)) => {
                    pi_r = Some(val);
                    e = e1;
                },
            }
        } else {
            return None;
        }
        let ghost acc_new: UltraAcc = (
            pi_a.deep_view(),
            pi_b.deep_view(),
            pi_f.deep_view(),
            pi_r.deep_view(),
        );
        proof {
            assert(sp_ultra_members(s@, cur as int, acc_old) == sp_ultra_member_end(
                s@,
                e as int,
                acc_new,
            ));
        }
        let f = ws_from(s, e);
        if f < s.len() && s[f] == 44 {
            cur = f + 1;
        } else if f < s.len() && s[f] == 125 {
            proof {
                assert(sp_ultra_member_end(s@, e as int, acc_new) == Some((acc_new, f + 1)));
            }
            let t = ws_from(s, f + 1);
            if t != s.len() {
                return None;
            }
            match (pi_a, pi_b, pi_f, pi_r) {
                (Some(a), Some(b), Some(f2), Some(r2)) => {
                    return Some(
                        UltraGrothProofPoints { pi_a: a, pi_b: b, pi_f: f2, pi_r: r2 },
                    );
                },
                _ => {
                    return None;
                },
            }
        } else {
            return None;
        }
    }
}

/// Reads a whole public-signal document from `s`: one string array and
/// nothing but whitespace after it, as [`sp_parse_signals`] describes.
pub fn parse_pub_signals(s: &[u8]) -> (r: Option<Vec<String>>)
    ensures
        r matches Some(v) ==> sp_parse_signals(s@) == Some(v.deep_view()),
        r is None ==> sp_parse_signals(s@) is None,
{
    let i = ws_from(s, 0);
    match parse_string_list(s, i) {
        None => None,
        Some((v, j)) => {
            let t = ws_from(s, j);
            if t == s.len() {
                Some(v)
            } else {
                None
            }
        },
    }
}

} // verus!
