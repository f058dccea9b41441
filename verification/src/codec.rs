//! Metadata codec: session id and message index in a description string.
//!
//! The checkpoint store attaches one free-text description to each
//! checkpoint and knows nothing of sessions.  The codec embeds a session id
//! and a message index in that single channel, as
//! `"[<session id>] idx:<index> <message>"`, and recovers them later.  The
//! message is capped at one hundred characters with an ellipsis appended
//! when longer.
//!
//! Decoding is total: a description without a `]` yields no session id, no
//! index and an empty label; a missing or malformed `idx:` marker yields no
//! index.  The recovered label is the text after the `] idx:<index>` prefix,
//! with leading whitespace removed, cut at the first `{` (structured
//! payloads are dropped), trimmed, and capped at one hundred characters.
//! Decoding recovers exactly the session id and index that encoding embedded
//! whenever the session id contains no `]`; the round-trip lemma at the end
//! states this.

use vstd::prelude::*;
use crate::{spec_is_digit, spec_is_space};
use crate::chars::{str_to_chars, chars_to_string};
use crate::digits::{
    spec_dec_digits, spec_dec_val, dec_digits, parse_dec, lemma_dec_digits_all_digits,
    lemma_dec_round_trip,
};
use crate::textscan::{
    spec_find_char, spec_find_sub, spec_match_at, spec_leading_digits, spec_trim_start,
    spec_trim_end, spec_trim, find_char, find_sub, take_digits, trim, trim_start, copy_range,
    lemma_find_char, lemma_find_char_is, lemma_find_sub, lemma_find_sub_is,
    lemma_leading_digits_exact, lemma_trim_start_at, lemma_trim_end_at,
};

verus! {

/// The ellipsis appended to a label that was cut at the cap.
pub open spec fn spec_ellipsis() -> Seq<char> {
    seq!['.', '.', '.']
}

/// The `idx:` marker that precedes the message index.
pub open spec fn spec_marker() -> Seq<char> {
    seq!['i', 'd', 'x', ':']
}

/// A message capped at one hundred characters, with an ellipsis when cut.
pub open spec fn spec_truncate(msg: Seq<char>) -> Seq<char> {
    if msg.len() > 100 {
        msg.subrange(0, 100) + spec_ellipsis()
    } else {
        msg
    }
}

/// The encoded description: `[<sid>] idx:<index> <message, capped>`.
pub open spec fn spec_encode(sid: Seq<char>, idx: usize, msg: Seq<char>) -> Seq<char> {
    seq!['['] + sid + seq![']', ' '] + spec_marker() + spec_dec_digits(idx as nat) + seq![' ']
        + spec_truncate(msg)
}

/// The session id recovered from a description: the text between the start
/// of the string and the first `]`, skipping the opening bracket; `None`
/// when no `]` is present.
pub open spec fn spec_decode_session(desc: Seq<char>) -> Option<Seq<char>> {
    match spec_find_char(desc, ']') {
        None => None,
        Some(b) => Some(
            if b < 1 {
                Seq::<char>::empty()
            } else {
                desc.subrange(1, b)
            },
        ),
    }
}

/// The message index recovered from a description: the run of digits after
/// the first `idx:` marker that follows the first `]`; `None` when either
/// marker is missing, the run is empty, or its value does not fit in
/// `usize`.
pub open spec fn spec_decode_index(desc: Seq<char>) -> Option<usize> {
    match spec_find_char(desc, ']') {
        None => None,
        Some(b) => {
            let after = desc.subrange(b + 1, desc.len() as int);
            match spec_find_sub(after, spec_marker()) {
                None => None,
                Some(p) => {
                    let digits = spec_leading_digits(
                        after.subrange(p + 4, after.len() as int),
                    );
                    if digits.len() == 0 || spec_dec_val(digits) > usize::MAX {
                        None
                    } else {
                        Some(spec_dec_val(digits) as usize)
                    }
                },
            }
        },
    }
}

/// The prefix `] idx:<index>` that separates the metadata from the label.
pub open spec fn spec_label_prefix(idx: usize) -> Seq<char> {
    seq![']', ' '] + spec_marker() + spec_dec_digits(idx as nat)
}

/// The cleaned label recovered from a description: empty when no `]` is
/// present; the original description when the `] idx:<index>` prefix is not
/// found; otherwise the text after the prefix, with leading whitespace
/// removed, cut at the first `{`, trimmed, and capped at one hundred
/// characters.
pub open spec fn spec_clean_label(desc: Seq<char>) -> Seq<char> {
    if spec_find_char(desc, ']') is None {
        Seq::<char>::empty()
    } else {
        let idxv = match spec_decode_index(desc) {
            Some(i) => i,
            None => 0usize,
        };
        let prefix = spec_label_prefix(idxv);
        match spec_find_sub(desc, prefix) {
            None => desc,
            Some(p) => {
                let tail = desc.subrange(p + prefix.len() as int, desc.len() as int);
                let led = spec_trim_start(tail);
                let cut = match spec_find_char(led, '{') {
                    None => led,
                    Some(q) => led.subrange(0, q),
                };
                spec_truncate(spec_trim(cut))
            },
        }
    }
}

/// The `idx:` marker as a character vector.
fn marker() -> (r: Vec<char>)
    ensures
        r@ == spec_marker(),
{
    let mut r: Vec<char> = Vec::new();
    r.push('i');
    r.push('d');
    r.push('x');
    r.push(':');
    proof {
        assert(r@ =~= spec_marker());
    }
    r
}

/// Cap a message at one hundred characters, appending an ellipsis when cut.
pub fn truncate_chars(msg: &Vec<char>) -> (r: Vec<char>)
    ensures
        r@ == spec_truncate(msg@),
{
    if msg.len() > 100 {
        let mut r = copy_range(msg, 0, 100);
        r.push('.');
        r.push('.');
        r.push('.');
        proof {
            assert(r@ =~= spec_truncate(msg@));
        }
        r
    } else {
        let r = copy_range(msg, 0, msg.len());
        proof {
            assert(r@ =~= msg@);
        }
        r
    }
}

/// Encode a session id, a message index and a message into one description
/// string accepted by the store.
pub fn encode(session_id: &str, message_index: usize, message: &str) -> (r: String)
    ensures
        r@ == spec_encode(session_id@, message_index, message@),
{
    let sid = str_to_chars(session_id);
    let msg = str_to_chars(message);
    let mut out: Vec<char> = Vec::new();
    out.push('[');
    let mut i: usize = 0;
    while i < sid.len()
        invariant
            i <= sid@.len(),
            out@ == seq!['['] + sid@.subrange(0, i as int),
        decreases sid@.len() - i,
    {
        out.push(sid[i]);
        i = i + 1;
        proof {
            assert(out@ =~= seq!['['] + sid@.subrange(0, i as int));
        }
    }
    proof {
        assert(sid@.subrange(0, sid@.len() as int) =~= sid@);
    }
    out.push(']');
    out.push(' ');
    out.push('i');
    out.push('d');
    out.push('x');
    out.push(':');
    let mut d = dec_digits(message_index);
    out.append(&mut d);
    out.push(' ');
    let mut t = truncate_chars(&msg);
    out.append(&mut t);
    proof {
        assert(out@ =~= spec_encode(session_id@, message_index, message@));
    }
    chars_to_string(&out)
}

/// Decode a description string into the session id, the message index and
/// the cleaned label it carries.
pub fn decode(description: &str) -> (r: (Option<String>, Option<usize>, String))
    ensures
        r.0 is Some <==> spec_decode_session(description@) is Some,
        r.0 matches Some(s) ==> spec_decode_session(description@) matches Some(sv) && s@ == sv,
        r.1 == spec_decode_index(description@),
        r.2@ == spec_clean_label(description@),
{
    let chars = str_to_chars(description);
    let bracket = match find_char(&chars, ']') {
        None => {
            proof {
                lemma_find_char(chars@, ']');
            }
            return (None, None, String::new());
        },
        Some(b) => b,
    };
    proof {
        lemma_find_char(chars@, ']');
    }
    let sid_chars = if bracket < 1 {
        Vec::new()
    } else {
        copy_range(&chars, 1, bracket)
    };
    let session = chars_to_string(&sid_chars);

    // Message index: digits after the first `idx:` marker past the `]`.
    let mark = marker();
    let n = chars.len();
    assert(bracket < n);
    let after = copy_range(&chars, bracket + 1, n);
    let index = match find_sub(&after, &mark) {
        None => None,
        Some(p) => {
            proof {
                lemma_find_sub(after@, mark@);
            }
            let digits = take_digits(&after, p + 4);
            parse_dec(&digits)
        },
    };

    // Label: the text after the `] idx:<index>` prefix, cleaned.
    let idxv = match index {
        Some(i) => i,
        None => 0,
    };
    let mut prefix: Vec<char> = Vec::new();
    prefix.push(']');
    prefix.push(' ');
    prefix.push('i');
    prefix.push('d');
    prefix.push('x');
    prefix.push(':');
    let mut pd = dec_digits(idxv);
    prefix.append(&mut pd);
    proof {
        assert(prefix@ =~= spec_label_prefix(idxv));
        lemma_dec_digits_all_digits(idxv as nat);
    }
    let label_chars = match find_sub(&chars, &prefix) {
        None => copy_range(&chars, 0, chars.len()),
        Some(p) => {
            proof {
                lemma_find_sub(chars@, prefix@);
            }
            let tail = copy_range(&chars, p + prefix.len(), chars.len());
            let led = trim_start(&tail);
            let cut = match find_char(&led, '{') {
                None => led,
                Some(q) => {
                    proof {
                        lemma_find_char(led@, '{');
                    }
                    copy_range(&led, 0, q)
                },
            };
            let cleaned = trim(&cut);
            truncate_chars(&cleaned)
        },
    };
    proof {
        assert(chars@.subrange(0, chars@.len() as int) =~= chars@);
    }
    let label = chars_to_string(&label_chars);
    (Some(session), index, label)
}

/// Round trip: decoding an encoded description recovers the session id and
/// the message index exactly, for every session id free of `]`, every
/// message index and every message.
pub proof fn lemma_encode_decode_round_trip(sid: Seq<char>, idx: usize, msg: Seq<char>)
    requires
        forall|i: int| 0 <= i < sid.len() ==> sid[i] != ']',
    ensures
        spec_decode_session(spec_encode(sid, idx, msg)) == Some(sid),
        spec_decode_index(spec_encode(sid, idx, msg)) == Some(idx),
{
    let e = spec_encode(sid, idx, msg);
    let l = sid.len() as int;
    let d = spec_dec_digits(idx as nat);
    lemma_dec_digits_all_digits(idx as nat);
    lemma_dec_round_trip(idx as nat);

    // The first `]` stands right after the session id.
    assert(e[1 + l] == ']');
    assert forall|j: int| 0 <= j < 1 + l implies e[j] != ']' by {
        if j == 0 {
            assert(e[0] == '[');
        } else {
            assert(e[j] == sid[j - 1]);
        }
    }
    lemma_find_char_is(e, ']', 1 + l);
    assert(e.subrange(1, 1 + l) =~= sid);

    // The first `idx:` marker after the `]` is the encoder's own.
    let after = e.subrange(1 + l + 1, e.len() as int);
    assert(after =~= seq![' '] + spec_marker() + d + seq![' '] + spec_truncate(msg));
    assert(spec_match_at(after, spec_marker(), 1)) by {
        assert(after.subrange(1, 5) =~= spec_marker());
    }
    assert(!spec_match_at(after, spec_marker(), 0)) by {
        if spec_match_at(after, spec_marker(), 0) {
            assert(after.subrange(0, 4)[0] == after[0]);
        }
    }
    lemma_find_sub_is(after, spec_marker(), 1);

    // The digits after the marker are exactly the rendering of the index.
    let rest = after.subrange(5, after.len() as int);
    assert(rest =~= d + (seq![' '] + spec_truncate(msg)));
    lemma_leading_digits_exact(d, seq![' '] + spec_truncate(msg));
}

/// Label round trip: a message within the hundred-character cap decodes to
/// itself, provided the session id is free of `]` and the message neither
/// begins nor ends with whitespace nor contains `{` (those are structural
/// to the decoder and are trimmed or cut).
pub proof fn lemma_label_round_trip(sid: Seq<char>, idx: usize, msg: Seq<char>)
    requires
        forall|i: int| 0 <= i < sid.len() ==> sid[i] != ']',
        msg.len() <= 100,
        msg.len() > 0 ==> !spec_is_space(msg[0]),
        msg.len() > 0 ==> !spec_is_space(msg.last()),
        forall|i: int| 0 <= i < msg.len() ==> msg[i] != '{',
    ensures
        spec_clean_label(spec_encode(sid, idx, msg)) == msg,
{
    let e = spec_encode(sid, idx, msg);
    let l = sid.len() as int;
    lemma_encode_decode_round_trip(sid, idx, msg);
    lemma_dec_digits_all_digits(idx as nat);

    let prefix = spec_label_prefix(idx);
    assert(spec_match_at(e, prefix, 1 + l)) by {
        assert(e.subrange(1 + l, 1 + l + prefix.len() as int) =~= prefix);
    }
    assert forall|j: int| 0 <= j < 1 + l implies !spec_match_at(e, prefix, j) by {
        if spec_match_at(e, prefix, j) {
            assert(e.subrange(j, j + prefix.len() as int)[0] == e[j]);
            if j == 0 {
                assert(e[0] == '[');
            } else {
                assert(e[j] == sid[j - 1]);
            }
        }
    }
    lemma_find_sub_is(e, prefix, 1 + l);

    // After the prefix stand one space and the message, which the cap left
    // untouched.
    let tail = e.subrange(1 + l + prefix.len() as int, e.len() as int);
    assert(tail =~= seq![' '] + msg);
    if msg.len() == 0 {
        assert(tail =~= seq![' ']);
        lemma_trim_start_at(tail, 1);
        assert(tail.subrange(1, 1) =~= msg);
        lemma_trim_start_at(msg, 0);
        lemma_trim_end_at(msg, 0);
    } else {
        assert(tail[1] == msg[0]);
        lemma_trim_start_at(tail, 1);
        assert(tail.subrange(1, tail.len() as int) =~= msg);
        lemma_find_char(msg, '{');
        match spec_find_char(msg, '{') {
            Some(q) => {
                assert(msg[q] != '{');
            },
            None => {},
        }
        lemma_trim_start_at(msg, 0);
        lemma_trim_end_at(msg, msg.len() as int);
    }
}

/// Truncation: a message longer than one hundred characters decodes to a
/// label of exactly its first hundred characters followed by an ellipsis,
/// provided the session id is free of `]`, the message does not begin with
/// whitespace, and no `{` stands among the kept characters (a leading blank
/// or an embedded `{` shortens the label further).
pub proof fn lemma_truncation(sid: Seq<char>, idx: usize, msg: Seq<char>)
    requires
        forall|i: int| 0 <= i < sid.len() ==> sid[i] != ']',
        msg.len() > 100,
        !spec_is_space(msg[0]),
        forall|i: int| 0 <= i < 100 ==> msg[i] != '{',
    ensures
        spec_clean_label(spec_encode(sid, idx, msg)) == msg.subrange(0, 100) + spec_ellipsis(),
        spec_clean_label(spec_encode(sid, idx, msg)).len() == 103,
{
    let e = spec_encode(sid, idx, msg);
    let l = sid.len() as int;
    let d = spec_dec_digits(idx as nat);
    lemma_encode_decode_round_trip(sid, idx, msg);
    lemma_dec_digits_all_digits(idx as nat);

    // The decoded index is the encoded one, so the label prefix searched for
    // is the encoder's own, and its first occurrence is at the first `]`.
    let prefix = spec_label_prefix(idx);
    assert(spec_match_at(e, prefix, 1 + l)) by {
        assert(e.subrange(1 + l, 1 + l + prefix.len() as int) =~= prefix);
    }
    assert forall|j: int| 0 <= j < 1 + l implies !spec_match_at(e, prefix, j) by {
        if spec_match_at(e, prefix, j) {
            assert(e.subrange(j, j + prefix.len() as int)[0] == e[j]);
            if j == 0 {
                assert(e[0] == '[');
            } else {
                assert(e[j] == sid[j - 1]);
            }
        }
    }
    lemma_find_sub_is(e, prefix, 1 + l);

    // After the prefix stand one space and the capped message.
    let tail = e.subrange(1 + l + prefix.len() as int, e.len() as int);
    let trunc = spec_truncate(msg);
    assert(tail =~= seq![' '] + trunc);
    assert(tail[1] == msg[0]);
    lemma_trim_start_at(tail, 1);
    assert(tail.subrange(1, tail.len() as int) =~= trunc);

    // No `{` among the kept characters, so nothing is cut.
    assert forall|j: int| 0 <= j < trunc.len() implies trunc[j] != '{' by {
        if j < 100 {
            assert(trunc[j] == msg[j]);
        } else {
            assert(trunc[j] == spec_ellipsis()[j - 100]);
        }
    }
    lemma_find_char(trunc, '{');
    match spec_find_char(trunc, '{') {
        Some(q) => {
            assert(trunc[q] != '{');
        },
        None => {},
    }

    // The capped message neither begins nor ends with whitespace.
    lemma_trim_start_at(trunc, 0);
    assert(trunc.last() == '.');
    lemma_trim_end_at(trunc, trunc.len() as int);

    assert(trunc.subrange(0, 100) =~= msg.subrange(0, 100));
    assert(spec_clean_label(e) =~= msg.subrange(0, 100) + spec_ellipsis());
}

} // verus!
