//! Decisions about where job output goes.
//!
//! The writes themselves — files, the chat transport — are I/O and live
//! outside this crate.  Here are the decisions: which destination a
//! destination string names, and how an over-long message is cut into
//! sendable pieces.

use vstd::prelude::*;

use crate::text::{chars_to_string, str_to_chars, subvec};

verus! {

/// A parsed output destination.
pub enum Destination {
    /// Save under the output directory.
    File,
    /// Send to this chat.
    Telegram(i64),
    /// Not recognized; logged and skipped.
    Unknown,
}

/// ASCII decimal digit.
pub open spec fn spec_is_digit(c: char) -> bool {
    '0' <= c && c <= '9'
}

/// Whether every character of `s` is a digit.
pub open spec fn spec_all_digits(s: Seq<char>) -> bool {
    forall|k: int| 0 <= k < s.len() ==> spec_is_digit(s[k])
}

/// The value of a digit string, most significant first.
pub open spec fn spec_digits_val(s: Seq<char>) -> int
    decreases s.len(),
{
    if s.len() == 0 {
        0
    } else {
        spec_digits_val(s.drop_last()) * 10 + (s.last() as u32 - '0' as u32)
    }
}

/// The chat identifier a string names: an optional sign and at least one
/// digit, with the value in the signed 64-bit range (leading zeros allowed,
/// as integer parsing accepts them).
pub open spec fn spec_parse_chat_id(s: Seq<char>) -> Option<i64> {
    let signed = s.len() > 0 && (s[0] == '-' || s[0] == '+');
    let neg = s.len() > 0 && s[0] == '-';
    let digits = if signed {
        s.drop_first()
    } else {
        s
    };
    if digits.len() >= 1 && spec_all_digits(digits) {
        let v = spec_digits_val(digits);
        if neg {
            if -v >= i64::MIN {
                Some((-v) as i64)
            } else {
                None
            }
        } else {
            if v <= i64::MAX {
                Some(v as i64)
            } else {
                None
            }
        }
    } else {
        None
    }
}

/// The value of a digit string is not negative.
proof fn lemma_digits_val_nonneg(s: Seq<char>)
    requires
        spec_all_digits(s),
    ensures
        spec_digits_val(s) >= 0,
    decreases s.len(),
{
    if s.len() > 0 {
        assert(spec_all_digits(s.drop_last()));
        lemma_digits_val_nonneg(s.drop_last());
    }
}

/// Appending digits never shrinks the value: the whole string's value is at
/// least any prefix's.
proof fn lemma_digits_val_prefix(s: Seq<char>, i: int)
    requires
        spec_all_digits(s),
        0 <= i <= s.len(),
    ensures
        spec_digits_val(s) >= spec_digits_val(s.subrange(0, i)),
    decreases s.len() - i,
{
    if i == s.len() {
        assert(s.subrange(0, i) =~= s);
    } else {
        let p = s.subrange(0, i);
        let p1 = s.subrange(0, i + 1);
        assert(p1.drop_last() =~= p);
        assert(p1.last() == s[i]);
        assert(spec_all_digits(p));
        lemma_digits_val_nonneg(p);
        assert(spec_digits_val(p1) >= spec_digits_val(p));
        lemma_digits_val_prefix(s, i + 1);
    }
}

/// Parse a chat identifier: an optional sign and digits, within the signed
/// 64-bit range.
fn parse_chat_id(s: &Vec<char>) -> (r: Option<i64>)
    ensures
        r == spec_parse_chat_id(s@),
{
    let signed = s.len() > 0 && (s[0] == '-' || s[0] == '+');
    let neg = s.len() > 0 && s[0] == '-';
    let start: usize = if signed {
        1
    } else {
        0
    };
    let digits = subvec(s, start, s.len());
    proof {
        if signed {
            assert(digits@ =~= s@.drop_first());
        } else {
            assert(digits@ =~= s@);
        }
    }
    if digits.len() < 1 {
        return None;
    }
    let mut acc: u128 = 0;
    let mut i: usize = 0;
    proof {
        assert(digits@.subrange(0, 0) =~= Seq::<char>::empty());
    }
    while i < digits.len()
        invariant
            i <= digits@.len(),
            digits@ == (if s@.len() > 0 && (s@[0] == '-' || s@[0] == '+') {
                s@.drop_first()
            } else {
                s@
            }),
            digits@.len() >= 1,
            spec_all_digits(digits@.subrange(0, i as int)),
            acc as int == spec_digits_val(digits@.subrange(0, i as int)),
            acc <= 0x8000_0000_0000_0000u128,
        decreases digits@.len() - i,
    {
        let c = digits[i];
        if !('0' <= c && c <= '9') {
            assert(!spec_all_digits(digits@));
            return None;
        }
        proof {
            assert(digits@.subrange(0, i + 1).drop_last() =~= digits@.subrange(0, i as int));
            assert(digits@.subrange(0, i + 1).last() == c);
        }
        acc = acc * 10 + ((c as u32 - '0' as u32) as u128);
        i += 1;
        if acc > 0x8000_0000_0000_0000u128 {
            // every further digit only grows the value, so it is out of
            // range for both signs
            proof {
                if spec_all_digits(digits@) {
                    lemma_digits_val_prefix(digits@, i as int);
                    assert(spec_digits_val(digits@) > 0x8000_0000_0000_0000);
                }
            }
            return None;
        }
    }
    proof {
        assert(digits@.subrange(0, digits@.len() as int) =~= digits@);
    }
    if neg {
        let v = -(acc as i128);
        proof {
            assert(v as int == -(acc as int));
        }
        Some(v as i64)
    } else {
        if acc > 0x7FFF_FFFF_FFFF_FFFFu128 {
            // exactly one past the positive maximum
            return None;
        }
        Some(acc as i64)
    }
}

/// The destination a destination string names: `file`, `telegram:<chat>`,
/// or unknown.
pub open spec fn spec_parse_destination(s: Seq<char>) -> Destination {
    if s == "file"@ {
        Destination::File
    } else if s.len() >= 9 && s.subrange(0, 9) == "telegram:"@ {
        match spec_parse_chat_id(s.skip(9)) {
            Some(id) => Destination::Telegram(id),
            None => Destination::Unknown,
        }
    } else {
        Destination::Unknown
    }
}

/// Parse one output destination string.
pub fn parse_destination(dest: &str) -> (r: Destination)
    ensures
        r == spec_parse_destination(dest@),
{
    let chars = str_to_chars(dest);
    if crate::text::chars_eq_str(&chars, "file") {
        return Destination::File;
    }
    if chars.len() >= 9 {
        let pre = subvec(&chars, 0, 9);
        if crate::text::chars_eq_str(&pre, "telegram:") {
            let rest = subvec(&chars, 9, chars.len());
            proof {
                assert(rest@ =~= dest@.skip(9));
            }
            return match parse_chat_id(&rest) {
                Some(id) => Destination::Telegram(id),
                None => Destination::Unknown,
            };
        }
    }
    Destination::Unknown
}

/// The chunks of `s` from `start`, each at most `max_len` long, cut at the
/// last line break inside the window when there is one.
pub open spec fn spec_plain_split_from(s: Seq<char>, start: int, max_len: int) -> Seq<
    Seq<char>,
>
    decreases s.len() - start,
{
    if start >= s.len() {
        Seq::empty()
    } else if s.len() - start <= max_len {
        seq![s.subrange(start, s.len() as int)]
    } else {
        let window = s.subrange(start, start + max_len);
        let cut = match crate::splitter::spec_rfind(window, seq!['\n']) {
            Some(p) => start + p + 1,
            None => start + max_len,
        };
        if cut <= start || cut > s.len() {
            seq![s.subrange(start, s.len() as int)]
        } else {
            seq![s.subrange(start, cut)] + spec_plain_split_from(s, cut, max_len)
        }
    }
}

/// Split a message into chunks of at most `max_len` characters, preferring
/// line breaks.
pub fn split_message(text: &str, max_len: usize) -> (r: Vec<String>)
    requires
        max_len >= 1,
    ensures
        r.deep_view() == spec_plain_split_from(text@, 0, max_len as int),
{
    let chars = str_to_chars(text);
    let mut out: Vec<String> = Vec::new();
    let mut start: usize = 0;
    proof {
        assert(out.deep_view() + spec_plain_split_from(chars@, 0, max_len as int)
            =~~= spec_plain_split_from(text@, 0, max_len as int));
    }
    loop
        invariant
            start <= chars@.len(),
            chars@ == text@,
            max_len >= 1,
            out.deep_view() + spec_plain_split_from(chars@, start as int, max_len as int)
                == spec_plain_split_from(text@, 0, max_len as int),
        decreases chars@.len() - start,
    {
        if start >= chars.len() {
            proof {
                assert(out.deep_view() + Seq::<Seq<char>>::empty() =~~= out.deep_view());
            }
            return out;
        }
        if chars.len() - start <= max_len {
            let rest = subvec(&chars, start, chars.len());
            let ghost ov0 = out.deep_view();
            let ghost rv = rest@;
            out.push(chars_to_string(&rest));
            proof {
                assert(out.deep_view() =~~= ov0.push(rv));
                assert(ov0.push(rv) =~~= ov0 + seq![rv]);
            }
            return out;
        }
        let window = subvec(&chars, start, start + max_len);
        let mut nl: Vec<char> = Vec::new();
        nl.push('\n');
        assert(nl@ =~= seq!['\n']);
        let cut = match crate::splitter::rfind(&window, &nl) {
            Some(p) => start + p + 1,
            None => start + max_len,
        };
        let chunk = subvec(&chars, start, cut);
        let ghost ov0 = out.deep_view();
        let ghost cv = chunk@;
        out.push(chars_to_string(&chunk));
        proof {
            assert(out.deep_view() =~~= ov0.push(cv));
            assert(ov0.push(cv) =~~= ov0 + seq![cv]);
            assert((ov0 + seq![cv]) + spec_plain_split_from(chars@, cut as int, max_len as int)
                =~~= ov0 + (seq![cv] + spec_plain_split_from(
                chars@,
                cut as int,
                max_len as int,
            )));
        }
        start = cut;
    }
}

/// What a saved result is: the raw text as produced by the subprocess.  The
/// output pipeline inspects JSON results but passes them through whole in
/// every case, so this is the identity, spelled with the check it performs.
pub fn extract_result(result: &str) -> (r: String)
    ensures
        r@ == result@,
{
    let chars = str_to_chars(result);
    let _parsed = crate::codec::parse_json_line(result);
    chars_to_string(&chars)
}

/// Read a one-shot run's standard output: when it is a JSON object, the
/// response text is its `result` string (the whole output when that string
/// is absent) and the session token is its `session_id` string; anything
/// else passes through whole with no token.
pub fn parse_run_output(stdout: &str) -> (r: (String, Option<String>))
    ensures
        ({
            let p = crate::codec::spec_parse_line(stdout@);
            match p {
                Some(j) => {
                    &&& r.0@ == (match crate::codec::str_field(j, "result"@) {
                        Some(t) => t,
                        None => stdout@,
                    })
                    &&& r.1.deep_view() == crate::codec::str_field(j, "session_id"@)
                },
                None => r.0@ == stdout@ && r.1 is None,
            }
        }),
{
    match crate::codec::parse_json_line(stdout) {
        Some(j) => {
            let text = match crate::codec::get_str_field(&j, "result") {
                Some(t) => t,
                None => {
                    let c = str_to_chars(stdout);
                    chars_to_string(&c)
                },
            };
            let sid = crate::codec::get_str_field(&j, "session_id");
            (text, sid)
        },
        None => {
            let c = str_to_chars(stdout);
            (chars_to_string(&c), None)
        },
    }
}

} // verus!
