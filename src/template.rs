//! Expansion of `{{key}}` placeholders against an environment's values.
//!
//! Expansion is all-or-nothing: when every placeholder names a key of the
//! values the result has each one replaced; when one does not, the body is
//! returned as it was. An opening `{{` without a closing `}}` ends the scan and
//! the rest of the body is copied as it stands.
use vstd::prelude::*;
use crate::text::{chars_of, string_of};
use crate::model::PacsError;

verus! {

/// The characters `c c` stand at position `i` of `s`.
pub open spec fn pair_at(s: Seq<char>, i: int, c: char) -> bool {
    0 <= i && i + 1 < s.len() && s[i] == c && s[i + 1] == c
}

/// Position of the first `c c` in `s` at or after `from`.
pub open spec fn find_pair(s: Seq<char>, c: char, from: int) -> Option<int>
    decreases s.len() - from,
{
    if from < 0 || from + 1 >= s.len() {
        None
    } else if pair_at(s, from, c) {
        Some(from)
    } else {
        find_pair(s, c, from + 1)
    }
}

pub proof fn lemma_find_pair(s: Seq<char>, c: char, from: int)
    requires
        from >= 0,
    ensures
        find_pair(s, c, from) matches Some(i) ==> from <= i && pair_at(s, i, c) && forall|
            j: int,
        |
            from <= j < i ==> !pair_at(s, j, c),
        find_pair(s, c, from) is None ==> forall|j: int| from <= j ==> !pair_at(s, j, c),
    decreases s.len() - from,
{
    if from + 1 < s.len() && !pair_at(s, from, c) {
        lemma_find_pair(s, c, from + 1);
    }
}

/// The value of the first entry whose key is `key`.
pub open spec fn lookup(vals: Seq<(String, String)>, key: Seq<char>) -> Option<Seq<char>>
    decreases vals.len(),
{
    if vals.len() == 0 {
        None
    } else if vals[0].0@ == key {
        Some(vals[0].1@)
    } else {
        lookup(vals.drop_first(), key)
    }
}

/// Expansion of `src` from position `cur` on; `None` when a placeholder has no value.
pub open spec fn expand_from(src: Seq<char>, vals: Seq<(String, String)>, cur: int) -> Option<
    Seq<char>,
>
    decreases src.len() - cur,
{
    if cur < 0 || cur > src.len() {
        None
    } else {
        match find_pair(src, '{', cur) {
            None => Some(src.subrange(cur, src.len() as int)),
            Some(open) => match find_pair(src, '}', open + 2) {
                None => Some(src.subrange(cur, src.len() as int)),
                Some(close) => match lookup(vals, src.subrange(open + 2, close)) {
                    None => None,
                    Some(v) => {
                        proof {
                            lemma_find_pair(src, '{', cur);
                            lemma_find_pair(src, '}', open + 2);
                        }
                        match expand_from(src, vals, close + 2) {
                            None => None,
                            Some(rest) => Some(src.subrange(cur, open) + v + rest),
                        }
                    },
                },
            },
        }
    }
}

/// Expansion of a whole body; `None` when a placeholder has no value.
pub open spec fn expand(src: Seq<char>, vals: Seq<(String, String)>) -> Option<Seq<char>> {
    expand_from(src, vals, 0)
}

/// The text that a body shows under an environment: its expansion, or the
/// body unchanged when a placeholder cannot be resolved.
pub open spec fn render(src: Seq<char>, vals: Seq<(String, String)>) -> Seq<char> {
    match expand(src, vals) {
        Some(t) => t,
        None => src,
    }
}

/// Prefixing a partial expansion result.
pub open spec fn prefixed(p: Seq<char>, r: Option<Seq<char>>) -> Option<Seq<char>> {
    match r {
        Some(t) => Some(p + t),
        None => None,
    }
}

fn find_pair_exec(s: &Vec<char>, c: char, from: usize) -> (r: Option<usize>)
    ensures
        r matches Some(i) ==> find_pair(s@, c, from as int) == Some(i as int),
        r is None ==> find_pair(s@, c, from as int) is None,
{
    let mut i = from;
    while i < s.len() && i + 1 < s.len()
        invariant
            from <= i,
            find_pair(s@, c, from as int) == find_pair(s@, c, i as int),
        decreases s@.len() - i,
    {
        if s[i] == c && s[i + 1] == c {
            return Some(i);
        }
        i = i + 1;
    }
    None
}

/// Looks a key up among environment values; the first entry with that key wins.
pub fn lookup_value<'a>(vals: &'a Vec<(String, String)>, key: &String) -> (r: Option<&'a String>)
    ensures
        r matches Some(v) ==> lookup(vals@, key@) == Some(v@),
        r is None ==> lookup(vals@, key@) is None,
{
    let mut i: usize = 0;
    assert(vals@.skip(0) =~= vals@);
    while i < vals.len()
        invariant
            i <= vals@.len(),
            lookup(vals@, key@) == lookup(vals@.skip(i as int), key@),
        decreases vals@.len() - i,
    {
        assert(vals@.skip(i as int).drop_first() =~= vals@.skip(i + 1));
        if vals[i].0 == *key {
            return Some(&vals[i].1);
        }
        i = i + 1;
    }
    None
}

fn copy_range(src: &Vec<char>, from: usize, to: usize, out: &mut Vec<char>)
    requires
        from <= to <= src@.len(),
    ensures
        final(out)@ == old(out)@ + src@.subrange(from as int, to as int),
{
    let mut i = from;
    while i < to
        invariant
            from <= i <= to <= src@.len(),
            out@ == old(out)@ + src@.subrange(from as int, i as int),
        decreases to - i,
    {
        out.push(src[i]);
        assert(src@.subrange(from as int, i + 1) =~= src@.subrange(from as int, i as int).push(
            src@[i as int],
        ));
        i = i + 1;
    }
}

/// Expands every placeholder of `body` from `vals`; `None` when one has no value.
pub fn expand_template(body: &str, vals: &Vec<(String, String)>) -> (r: Option<String>)
    ensures
        r matches Some(t) ==> expand(body@, vals@) == Some(t@),
        r is None ==> expand(body@, vals@) is None,
{
    let src = chars_of(body);
    let len = src.len();
    let mut out: Vec<char> = Vec::new();
    let mut cur: usize = 0;
    while cur <= len
        invariant
            src@ == body@,
            len == src@.len(),
            cur <= len,
            expand(src@, vals@) == prefixed(out@, expand_from(src@, vals@, cur as int)),
        decreases len - cur,
    {
        proof {
            lemma_find_pair(src@, '{', cur as int);
        }
        let open = match find_pair_exec(&src, '{', cur) {
            None => {
                copy_range(&src, cur, len, &mut out);
                return Some(string_of(&out));
            },
            Some(o) => o,
        };
        proof {
            lemma_find_pair(src@, '}', open + 2);
        }
        let close = match find_pair_exec(&src, '}', open + 2) {
            None => {
                copy_range(&src, cur, len, &mut out);
                return Some(string_of(&out));
            },
            Some(c) => c,
        };
        let mut key_chars: Vec<char> = Vec::new();
        copy_range(&src, open + 2, close, &mut key_chars);
        assert(key_chars@ =~= src@.subrange(open + 2, close as int));
        let key = string_of(&key_chars);
        match lookup_value(vals, &key) {
            None => {
                return None;
            },
            Some(v) => {
                let ghost before = out@;
                copy_range(&src, cur, open, &mut out);
                let mut vc = chars_of(v.as_str());
                out.append(&mut vc);
                assert(out@ =~= before + src@.subrange(cur as int, open as int) + v@);
                cur = close + 2;
            },
        }
    }
    assert(false);
    None
}

/// The text that `body` shows under `vals`: the full expansion, or `body` itself
/// when a placeholder cannot be resolved.
pub fn render_template(body: &str, vals: &Vec<(String, String)>) -> (r: String)
    ensures
        r@ == render(body@, vals@),
{
    match expand_template(body, vals) {
        Some(t) => t,
        None => body.to_owned(),
    }
}

/// Expands every placeholder of `body`, and reports the body as unresolved
/// when a placeholder has no value.
pub fn expand_strict(body: &str, vals: &Vec<(String, String)>) -> (r: Result<String, PacsError>)
    ensures
        r matches Ok(t) ==> expand(body@, vals@) == Some(t@),
        r matches Err(e) ==> expand(body@, vals@) is None && (e matches PacsError::UnresolvedPlaceholders(b) && b@ == body@),
        r is Ok <==> expand(body@, vals@) is Some,
{
    match expand_template(body, vals) {
        Some(t) => Ok(t),
        None => Err(PacsError::UnresolvedPlaceholders(body.to_owned())),
    }
}

} // verus!
