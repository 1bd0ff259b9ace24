//! Bracketed directives at the start of a message, such as
//! `[ZEROCLAW_CWD:/path]` or `[ZEROCLAW_SESSION_KEY:key]`.
//!
//! A directive is the prefix, a value up to the first `]`, then the rest of
//! the message with its leading newlines dropped.
use vstd::prelude::*;
use crate::text::{
    chars_of, find_char, has_char, is_first_index, skip_leading, string_of_range, strip_leading,
    trim_bounds, trim_ws,
};

verus! {

/// `Some(s@)` for `Some(s)`.
pub open spec fn opt_view(o: Option<String>) -> Option<Seq<char>> {
    match o {
        Some(s) => Some(s@),
        None => None,
    }
}

/// `p` is a prefix of `s`.
pub open spec fn starts_with(s: Seq<char>, p: Seq<char>) -> bool {
    p.len() <= s.len() && s.take(p.len() as int) == p
}

/// The value (trimmed) and the remainder (leading newlines dropped) of the
/// directive `prefix` at the start of `msg`, when `msg` starts with `prefix`
/// and a `]` follows it.
pub open spec fn directive_parts(msg: Seq<char>, prefix: Seq<char>) -> Option<(Seq<char>, Seq<char>)> {
    if starts_with(msg, prefix) {
        let rest = msg.skip(prefix.len() as int);
        if has_char(rest, ']') {
            let end = choose|i: int| is_first_index(rest, ']', i);
            Some((trim_ws(rest.take(end)), strip_leading(rest.skip(end + 1), '\n')))
        } else {
            None
        }
    } else {
        None
    }
}

/// A directive with a non-empty value gives that value and the remainder;
/// any other message gives no value and the message unchanged.
pub open spec fn extract_directive(msg: Seq<char>, prefix: Seq<char>) -> (Option<Seq<char>>, Seq<char>) {
    match directive_parts(msg, prefix) {
        Some((value, rest)) => if value.len() > 0 {
            (Some(value), rest)
        } else {
            (None, msg)
        },
        None => (None, msg),
    }
}

/// There is at most one first position of a character.
pub proof fn lemma_first_index_unique(s: Seq<char>, c: char, i: int, j: int)
    requires
        is_first_index(s, c, i),
        is_first_index(s, c, j),
    ensures
        i == j,
{
    if i < j {
        assert(s[i] == c);
    } else if j < i {
        assert(s[j] == c);
    }
}

/// Whether `v` starts with the characters of `p`.
pub fn starts_with_chars(v: &Vec<char>, p: &Vec<char>) -> (r: bool)
    ensures
        r == starts_with(v@, p@),
{
    if p.len() > v.len() {
        return false;
    }
    let mut k: usize = 0;
    while k < p.len()
        invariant
            p@.len() <= v@.len(),
            k <= p@.len(),
            forall|j: int| 0 <= j < k ==> v@[j] == p@[j],
        decreases p.len() - k,
    {
        if v[k] != p[k] {
            assert(v@.take(p@.len() as int)[k as int] != p@[k as int]);
            return false;
        }
        k += 1;
    }
    assert(v@.take(p@.len() as int) =~= p@);
    true
}

/// Splits the directive `prefix` off the start of `msg`: its trimmed value and
/// the remainder without leading newlines.
pub fn parse_directive(msg: &str, prefix: &str) -> (r: Option<(String, String)>)
    ensures
        match r {
            Some((value, rest)) => directive_parts(msg@, prefix@) == Some((value@, rest@)),
            None => directive_parts(msg@, prefix@) is None,
        },
{
    let m = chars_of(msg);
    let p = chars_of(prefix);
    if !starts_with_chars(&m, &p) {
        return None;
    }
    let plen = p.len();
    let ghost rest = m@.skip(plen as int);
    assert(rest =~= m@.subrange(plen as int, m@.len() as int));
    match find_char(&m, plen, ']') {
        None => None,
        Some(e) => {
            let (a, b) = trim_bounds(&m, plen, e);
            let value = string_of_range(&m, a, b);
            let s = skip_leading(&m, e + 1, '\n');
            let remainder = string_of_range(&m, s, m.len());
            proof {
                let end = choose|i: int| is_first_index(rest, ']', i);
                lemma_first_index_unique(rest, ']', end, e - plen);
                assert(rest.take(end) =~= m@.subrange(plen as int, e as int));
                assert(rest.skip(end + 1) =~= m@.subrange(e + 1, m@.len() as int));
            }
            Some((value, remainder))
        },
    }
}

/// The value of the directive `prefix` at the start of `msg` when it is
/// non-empty, with the rest of the message; otherwise no value and `msg`.
pub fn extract(msg: &str, prefix: &str) -> (r: (Option<String>, String))
    ensures
        (opt_view(r.0), r.1@) == extract_directive(msg@, prefix@),
{
    match parse_directive(msg, prefix) {
        Some((value, rest)) => {
            if value.unicode_len() > 0 {
                (Some(value), rest)
            } else {
                (None, msg.to_owned())
            }
        },
        None => (None, msg.to_owned()),
    }
}

/// Round trip: a directive written as `prefix`, a trimmed non-empty value
/// without `]`, `]`, and a remainder that does not start with a newline is
/// read back as that value and that remainder.
pub proof fn law_directive_round_trip(prefix: Seq<char>, value: Seq<char>, rest: Seq<char>)
    requires
        value.len() > 0,
        trim_ws(value) == value,
        !has_char(value, ']'),
        !(rest.len() > 0 && rest[0] == '\n'),
    ensures
        extract_directive(prefix + value + seq![']'] + rest, prefix) == (Some(value), rest),
{
    lemma_directive_parts_of(prefix, value, seq![], rest);
    assert(seq![']'] + seq![] + rest =~= seq![']'] + rest);
    assert(prefix + value + seq![']'] + seq![] + rest =~= prefix + value + seq![']'] + rest);
}

/// A message that does not start with the directive prefix is left unchanged
/// and yields no value.
pub proof fn law_no_directive_keeps_message(msg: Seq<char>, prefix: Seq<char>)
    requires
        !starts_with(msg, prefix),
    ensures
        extract_directive(msg, prefix) == (None::<Seq<char>>, msg),
{
}

/// What `directive_parts` reads from `prefix + value + "]" + newlines + rest`.
pub proof fn lemma_directive_parts_of(prefix: Seq<char>, value: Seq<char>, newlines: Seq<char>, rest: Seq<char>)
    requires
        trim_ws(value) == value,
        !has_char(value, ']'),
        forall|i: int| 0 <= i < newlines.len() ==> #[trigger] newlines[i] == '\n',
        !(rest.len() > 0 && rest[0] == '\n'),
    ensures
        directive_parts(prefix + value + seq![']'] + newlines + rest, prefix) == Some((value, rest)),
{
    let msg = prefix + value + seq![']'] + newlines + rest;
    assert(msg.take(prefix.len() as int) =~= prefix);
    let r = msg.skip(prefix.len() as int);
    assert(r =~= value + seq![']'] + newlines + rest);
    let k = value.len() as int;
    assert(r[k] == ']');
    assert forall|j: int| 0 <= j < k implies r[j] != ']' by {
        assert(r[j] == value[j]);
    }
    assert(is_first_index(r, ']', k));
    assert(has_char(r, ']'));
    let end = choose|i: int| is_first_index(r, ']', i);
    lemma_first_index_unique(r, ']', end, k);
    assert(r.take(end) =~= value);
    lemma_strip_newlines(newlines, rest);
    assert(r.skip(end + 1) =~= newlines + rest);
}

proof fn lemma_strip_newlines(newlines: Seq<char>, rest: Seq<char>)
    requires
        forall|i: int| 0 <= i < newlines.len() ==> #[trigger] newlines[i] == '\n',
        !(rest.len() > 0 && rest[0] == '\n'),
    ensures
        strip_leading(newlines + rest, '\n') == rest,
    decreases newlines.len(),
{
    if newlines.len() > 0 {
        let t = newlines.drop_first();
        assert((newlines + rest).drop_first() =~= t + rest);
        assert((newlines + rest)[0] == '\n');
        lemma_strip_newlines(t, rest);
    } else {
        assert(newlines + rest =~= rest);
    }
}

} // verus!
