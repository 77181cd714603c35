//! The metadata marker micro-format: a unit's `info.vdf` file declares the
//! unit's name as its first top-level key token.
//!
//! Two forms are accepted, over the raw bytes of the file:
//! - Quoted: when the file contains a `"` character, the name is the byte
//!   substring between the first pair of `"` characters (anything before the
//!   first quote, such as whitespace or newlines, is tolerated). A file with
//!   an unpaired quote yields no name.
//! - Bare: when the file contains no `"` at all, the name is the first
//!   whitespace-delimited token, accepted only when it is non-empty and is
//!   followed (after optional whitespace) by a `{`, the opening of a proper
//!   key-value document body. Anything else yields no name.

use vstd::prelude::*;

verus! {

pub const QUOTE: u8 = 34;

pub const OPEN_BRACE: u8 = 123;

/// ASCII space, tab, line feed or carriage return.
pub open spec fn is_ws_byte(b: u8) -> bool {
    b == 32 || b == 9 || b == 10 || b == 13
}

/// First index `i >= from` with `s[i] == b`, or `s.len()` when there is none.
pub open spec fn find_byte(s: Seq<u8>, b: u8, from: nat) -> nat
    decreases s.len() - from,
{
    if from >= s.len() {
        s.len()
    } else if s[from as int] == b {
        from
    } else {
        find_byte(s, b, from + 1)
    }
}

/// First index `i >= from` holding a non-whitespace byte, or `s.len()`.
pub open spec fn find_non_ws(s: Seq<u8>, from: nat) -> nat
    decreases s.len() - from,
{
    if from >= s.len() {
        s.len()
    } else if !is_ws_byte(s[from as int]) {
        from
    } else {
        find_non_ws(s, from + 1)
    }
}

/// First index `i >= from` holding whitespace or `{`, or `s.len()`.
pub open spec fn find_token_end(s: Seq<u8>, from: nat) -> nat
    decreases s.len() - from,
{
    if from >= s.len() {
        s.len()
    } else if is_ws_byte(s[from as int]) || s[from as int] == OPEN_BRACE {
        from
    } else {
        find_token_end(s, from + 1)
    }
}

/// The unit name declared by a metadata file, if any.
pub open spec fn spec_parse_hud_name(s: Seq<u8>) -> Option<Seq<u8>> {
    let q1 = find_byte(s, QUOTE, 0);
    if q1 < s.len() {
        let q2 = find_byte(s, QUOTE, q1 + 1);
        if q2 < s.len() {
            Some(s.subrange(q1 + 1 as int, q2 as int))
        } else {
            None
        }
    } else {
        let t0 = find_non_ws(s, 0);
        if t0 >= s.len() {
            None
        } else {
            let t1 = find_token_end(s, t0);
            if t1 == t0 {
                None
            } else {
                let b0 = find_non_ws(s, t1);
                if b0 < s.len() && s[b0 as int] == OPEN_BRACE {
                    Some(s.subrange(t0 as int, t1 as int))
                } else {
                    None
                }
            }
        }
    }
}

pub proof fn lemma_find_byte_bounds(s: Seq<u8>, b: u8, from: nat)
    requires
        from <= s.len(),
    ensures
        from <= find_byte(s, b, from) <= s.len(),
    decreases s.len() - from,
{
    if from < s.len() && s[from as int] != b {
        lemma_find_byte_bounds(s, b, from + 1);
    }
}

pub proof fn lemma_find_non_ws_bounds(s: Seq<u8>, from: nat)
    requires
        from <= s.len(),
    ensures
        from <= find_non_ws(s, from) <= s.len(),
    decreases s.len() - from,
{
    if from < s.len() && is_ws_byte(s[from as int]) {
        lemma_find_non_ws_bounds(s, from + 1);
    }
}

pub proof fn lemma_find_token_end_bounds(s: Seq<u8>, from: nat)
    requires
        from <= s.len(),
    ensures
        from <= find_token_end(s, from) <= s.len(),
    decreases s.len() - from,
{
    if from < s.len() && !is_ws_byte(s[from as int]) && s[from as int] != OPEN_BRACE {
        lemma_find_token_end_bounds(s, from + 1);
    }
}

fn find_byte_exec(v: &Vec<u8>, b: u8, from: usize) -> (r: usize)
    requires
        from <= v@.len(),
    ensures
        r == find_byte(v@, b, from as nat),
        r <= v@.len(),
{
    let mut i = from;
    while i < v.len()
        invariant
            from <= i <= v@.len(),
            find_byte(v@, b, from as nat) == find_byte(v@, b, i as nat),
        decreases v@.len() - i,
    {
        if v[i] == b {
            return i;
        }
        i = i + 1;
    }
    i
}

fn find_non_ws_exec(v: &Vec<u8>, from: usize) -> (r: usize)
    requires
        from <= v@.len(),
    ensures
        r == find_non_ws(v@, from as nat),
        r <= v@.len(),
{
    let mut i = from;
    while i < v.len()
        invariant
            from <= i <= v@.len(),
            find_non_ws(v@, from as nat) == find_non_ws(v@, i as nat),
        decreases v@.len() - i,
    {
        let c = v[i];
        if !(c == 32 || c == 9 || c == 10 || c == 13) {
            return i;
        }
        i = i + 1;
    }
    i
}

fn find_token_end_exec(v: &Vec<u8>, from: usize) -> (r: usize)
    requires
        from <= v@.len(),
    ensures
        r == find_token_end(v@, from as nat),
        r <= v@.len(),
{
    let mut i = from;
    while i < v.len()
        invariant
            from <= i <= v@.len(),
            find_token_end(v@, from as nat) == find_token_end(v@, i as nat),
        decreases v@.len() - i,
    {
        let c = v[i];
        if c == 32 || c == 9 || c == 10 || c == 13 || c == OPEN_BRACE {
            return i;
        }
        i = i + 1;
    }
    i
}

/// Parses the unit name declared by the bytes of a metadata file.
pub fn parse_hud_name(content: &Vec<u8>) -> (r: Option<Vec<u8>>)
    ensures
        r matches Some(v) ==> spec_parse_hud_name(content@) == Some(v@),
        r is None ==> spec_parse_hud_name(content@) is None,
{
    let q1 = find_byte_exec(content, QUOTE, 0);
    if q1 < content.len() {
        proof {
            lemma_find_byte_bounds(content@, QUOTE, 0);
        }
        let q2 = find_byte_exec(content, QUOTE, q1 + 1);
        if q2 < content.len() {
            proof {
                lemma_find_byte_bounds(content@, QUOTE, (q1 + 1) as nat);
            }
            Some(crate::strutil::bytes_subrange(content, q1 + 1, q2))
        } else {
            None
        }
    } else {
        let t0 = find_non_ws_exec(content, 0);
        if t0 >= content.len() {
            None
        } else {
            let t1 = find_token_end_exec(content, t0);
            if t1 == t0 {
                None
            } else {
                let b0 = find_non_ws_exec(content, t1);
                if b0 < content.len() && content[b0] == OPEN_BRACE {
                    proof {
                        lemma_find_token_end_bounds(content@, t0 as nat);
                    }
                    Some(crate::strutil::bytes_subrange(content, t0, t1))
                } else {
                    None
                }
            }
        }
    }
}

} // verus!
