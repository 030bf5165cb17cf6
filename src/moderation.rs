//! Moderation texts: warning notices, the warning listing split into messages,
//! and colours given in hexadecimal.

use vstd::prelude::*;
use vstd::string::*;
use vstd::utf8::encode_utf8;
use crate::text::{decimal, dec_digits, owned, trim, trim_seq, chars_of};

verus! {

/// The length of a text in UTF-8 bytes, as `str::len` counts it.
pub open spec fn byte_len(s: Seq<char>) -> nat {
    encode_utf8(s).len()
}

/// The most bytes a listing message may reach before a new one is begun.
pub const CHUNK_LIMIT: u128 = 1800;

/// The notice posted when a user is warned.
pub fn warning_notice(user_id: u64, reason: &str) -> (r: String)
    ensures
        r@ == "<@"@ + dec_digits(user_id as nat) + "> you have received a warning: "@ + trim_seq(
            reason@,
        ),
{
    let mut s = owned("<@");
    let id = decimal(user_id);
    s.append(id.as_str());
    s.append("> you have received a warning: ");
    s.append(trim(reason));
    s
}

/// The first line of a warning listing.
pub fn warnings_header(own: bool, tag: &str) -> (r: String)
    ensures
        own ==> r@ == "Your warnings:\n"@,
        !own ==> r@ == "Warnings for "@ + tag@ + ":\n"@,
{
    if own {
        owned("Your warnings:\n")
    } else {
        let mut s = owned("Warnings for ");
        s.append(tag);
        s.append(":\n");
        s
    }
}

/// The reply when a user has no warnings.
pub fn no_warnings_message(own: bool, tag: &str) -> (r: String)
    ensures
        own ==> r@ == "You have no warnings."@,
        !own ==> r@ == tag@ + " has no warnings."@,
{
    if own {
        owned("You have no warnings.")
    } else {
        let mut s = owned(tag);
        s.append(" has no warnings.");
        s
    }
}

/// The listing line of the warning at position `i`.
pub open spec fn warning_line(i: nat, reason: Seq<char>) -> Seq<char> {
    dec_digits(i + 1) + ". "@ + reason + "\n"@
}

/// The listing lines of all warnings, in order.
pub open spec fn warning_lines(reasons: Seq<String>) -> Seq<Seq<char>>
    decreases reasons.len(),
{
    if reasons.len() == 0 {
        Seq::empty()
    } else {
        warning_lines(reasons.drop_last()).push(
            warning_line((reasons.len() - 1) as nat, reasons.last()@),
        )
    }
}

/// The messages closed so far and the one being filled, after the lines. A
/// line that would bring the last closed message, the open one and itself past
/// the limit closes the open one first.
pub open spec fn chunk_fold(header: Seq<char>, lines: Seq<Seq<char>>) -> (Seq<Seq<char>>, Seq<char>)
    decreases lines.len(),
{
    if lines.len() == 0 {
        (seq![header], Seq::empty())
    } else {
        let prev = chunk_fold(header, lines.drop_last());
        let line = lines.last();
        if byte_len(prev.0.last()) + byte_len(prev.1) + byte_len(line) > 1800 {
            (prev.0.push(prev.1), line)
        } else {
            (prev.0, prev.1 + line)
        }
    }
}

/// The texts of `s` that are not empty, in order.
pub open spec fn non_empty(s: Seq<Seq<char>>) -> Seq<Seq<char>>
    decreases s.len(),
{
    if s.len() == 0 {
        Seq::empty()
    } else if s.last().len() > 0 {
        non_empty(s.drop_last()).push(s.last())
    } else {
        non_empty(s.drop_last())
    }
}

/// The messages of a warning listing: the header and the lines split by the
/// limit, the count appended to the last, empty messages left out.
pub open spec fn warning_messages(header: Seq<char>, reasons: Seq<String>) -> Seq<Seq<char>> {
    let f = chunk_fold(header, warning_lines(reasons));
    let chunks = if f.1.len() > 0 {
        f.0.push(f.1)
    } else {
        f.0
    };
    non_empty(
        chunks.update(
            chunks.len() - 1,
            chunks.last() + "Total: "@ + dec_digits(reasons.len()),
        ),
    )
}

/// The messages that list a user's warnings under `header`.
pub fn warning_chunks(header: &str, reasons: &Vec<String>) -> (r: Vec<String>)
    ensures
        r@.map_values(|s: String| s@) == warning_messages(header@, reasons@),
{
    let mut chunks: Vec<String> = Vec::new();
    chunks.push(owned(header));
    let mut current = String::new();
    let mut k: usize = 0;
    assert(chunks@.map_values(|s: String| s@) == seq![header@]);
    assert(reasons@.subrange(0, 0) == Seq::<String>::empty());
    while k < reasons.len()
        invariant
            k <= reasons@.len(),
            chunks@.len() >= 1,
            (chunks@.map_values(|s: String| s@), current@) == chunk_fold(
                header@,
                warning_lines(reasons@.subrange(0, k as int)),
            ),
        decreases reasons@.len() - k,
    {
        let ghost pre = reasons@.subrange(0, k as int);
        let ghost pre1 = reasons@.subrange(0, k as int + 1);
        assert(pre1.drop_last() == pre);
        assert(pre1.last() == reasons@[k as int]);
        let ghost lines1 = warning_lines(pre1);
        assert(lines1.drop_last() == warning_lines(pre));
        let mut line = decimal((k + 1) as u64);
        line.append(". ");
        line.append(reasons[k].as_str());
        line.append("\n");
        assert(lines1.last() == line@);
        let last_len = chunks[chunks.len() - 1].as_str().as_bytes().len();
        let ghost before = chunks@;
        assert(before.map_values(|s: String| s@).last() == before.last()@);
        let cur_len = current.as_str().as_bytes().len();
        let line_len = line.as_str().as_bytes().len();
        if (last_len as u128) + (cur_len as u128) + (line_len as u128) > CHUNK_LIMIT {
            let closed = current;
            chunks.push(closed);
            current = line;
            assert(chunks@.map_values(|s: String| s@) == before.map_values(|s: String| s@).push(
                closed@,
            ));
        } else {
            current.append(line.as_str());
        }
        k = k + 1;
    }
    assert(reasons@.subrange(0, reasons@.len() as int) == reasons@);
    let ghost f = chunk_fold(header@, warning_lines(reasons@));
    if current.as_str().unicode_len() > 0 {
        let ghost before = chunks@;
        chunks.push(current);
        assert(chunks@.map_values(|s: String| s@) == f.0.push(f.1));
    }
    let ghost mid = chunks@.map_values(|s: String| s@);
    let mut last = match chunks.pop() {
        Some(c) => c,
        None => String::new(),
    };
    last.append("Total: ");
    let total = decimal(reasons.len() as u64);
    last.append(total.as_str());
    chunks.push(last);
    let ghost totalled = chunks@.map_values(|s: String| s@);
    assert(totalled == mid.update(mid.len() - 1, mid.last() + "Total: "@ + dec_digits(
        reasons@.len(),
    )));
    let mut out: Vec<String> = Vec::new();
    let mut j: usize = 0;
    while j < chunks.len()
        invariant
            j <= chunks@.len(),
            totalled == chunks@.map_values(|s: String| s@),
            out@.map_values(|s: String| s@) == non_empty(totalled.subrange(0, j as int)),
        decreases chunks@.len() - j,
    {
        let ghost grown = totalled.subrange(0, j as int + 1);
        assert(grown.drop_last() == totalled.subrange(0, j as int));
        assert(grown.last() == chunks@[j as int]@);
        let c = chunks[j].clone();
        if c.as_str().unicode_len() > 0 {
            let ghost before = out@;
            out.push(c);
            assert(out@.map_values(|s: String| s@) == before.map_values(|s: String| s@).push(c@));
        }
        j = j + 1;
    }
    assert(totalled.subrange(0, chunks@.len() as int) == totalled);
    out
}

// ---------------------------------------------------------------------------
// Hexadecimal colours
// ---------------------------------------------------------------------------

/// The value of a hexadecimal digit, or -1 for any other character.
pub open spec fn hex_digit_value(c: char) -> int {
    let u = c as u32;
    if 48 <= u <= 57 {
        u - 48
    } else if 97 <= u <= 102 {
        u - 87
    } else if 65 <= u <= 70 {
        u - 55
    } else {
        -1
    }
}

/// The number written by hexadecimal digits.
pub open spec fn hex_number(s: Seq<char>) -> int
    decreases s.len(),
{
    if s.len() == 0 {
        0
    } else {
        hex_number(s.drop_last()) * 16 + hex_digit_value(s.last())
    }
}

/// Every character of `s` is a hexadecimal digit.
pub open spec fn all_hex(s: Seq<char>) -> bool {
    forall|i: int| 0 <= i < s.len() ==> hex_digit_value(#[trigger] s[i]) >= 0
}

/// The digits of a colour: one leading `#` dropped, then one leading `+`.
pub open spec fn color_body(s: Seq<char>) -> Seq<char> {
    let t = if s.len() > 0 && s[0] == '#' {
        s.drop_first()
    } else {
        s
    };
    if t.len() > 0 && t[0] == '+' {
        t.drop_first()
    } else {
        t
    }
}

/// The colour a text names, as `u32::from_str_radix` reads base 16 after a
/// leading `#`.
pub open spec fn parse_color_spec(s: Seq<char>) -> Option<u32> {
    let d = color_body(s);
    if d.len() == 0 || !all_hex(d) || hex_number(d) > 0xFFFF_FFFF {
        None
    } else {
        Some(hex_number(d) as u32)
    }
}

fn hex_digit(c: char) -> (r: Option<u64>)
    ensures
        hex_digit_value(c) < 0 ==> r is None,
        hex_digit_value(c) >= 0 ==> r == Some(hex_digit_value(c) as u64),
{
    let u = c as u32;
    if 48 <= u && u <= 57 {
        Some((u - 48) as u64)
    } else if 97 <= u && u <= 102 {
        Some((u - 87) as u64)
    } else if 65 <= u && u <= 70 {
        Some((u - 55) as u64)
    } else {
        None
    }
}

proof fn lemma_hex_grows(s: Seq<char>, i: int, j: int)
    requires
        0 <= i <= j <= s.len(),
        all_hex(s),
    ensures
        hex_number(s.subrange(0, i)) <= hex_number(s.subrange(0, j)),
        hex_number(s.subrange(0, j)) >= 0,
    decreases j,
{
    if j > 0 {
        let p = s.subrange(0, j);
        assert(p.drop_last() == s.subrange(0, j - 1));
        assert(hex_digit_value(s[j - 1]) >= 0);
        if i < j {
            lemma_hex_grows(s, i, j - 1);
        } else {
            lemma_hex_grows(s, j - 1, j - 1);
        }
    } else {
        assert(s.subrange(0, 0).len() == 0);
    }
}

/// The colour a text names in hexadecimal, `None` where it names none.
pub fn parse_color(s: &str) -> (r: Option<u32>)
    ensures
        r == parse_color_spec(s@),
{
    let cs = chars_of(s);
    let mut start: usize = 0;
    if cs.len() > 0 && cs[0] == '#' {
        start = 1;
    }
    if start < cs.len() && cs[start] == '+' {
        start = start + 1;
    }
    let ghost d = color_body(s@);
    assert(d == cs@.subrange(start as int, cs@.len() as int));
    if start == cs.len() {
        return None;
    }
    let mut value: u64 = 0;
    let mut i: usize = start;
    while i < cs.len()
        invariant
            start <= i <= cs@.len(),
            d == color_body(s@),
            d == cs@.subrange(start as int, cs@.len() as int),
            all_hex(cs@.subrange(start as int, i as int)),
            value == hex_number(cs@.subrange(start as int, i as int)),
            value <= 0xFFFF_FFFF,
        decreases cs@.len() - i,
    {
        let ghost grown = cs@.subrange(start as int, i as int + 1);
        assert(grown.drop_last() == cs@.subrange(start as int, i as int));
        let digit = match hex_digit(cs[i]) {
            Some(v) => v,
            None => {
                assert(d[i - start] == cs@[i as int]);
                assert(hex_digit_value(d[i - start]) < 0);
                assert(!all_hex(d));
                return None;
            },
        };
        value = value * 16 + digit;
        assert(grown.last() == cs@[i as int]);
        assert(value == hex_number(grown));
        if value > 0xFFFF_FFFF {
            proof {
                assert forall|k: int| 0 <= k < d.len() && hex_digit_value(d[k]) < 0 implies !all_hex(d) by {}
                if all_hex(d) {
                    assert(d.subrange(0, i - start + 1) == grown);
                    lemma_hex_grows(d, i - start + 1, d.len() as int);
                    assert(d.subrange(0, d.len() as int) == d);
                }
            }
            return None;
        }
        proof {
            assert forall|k: int| 0 <= k < grown.len() implies hex_digit_value(#[trigger] grown[k]) >= 0 by {
                if k < grown.len() - 1 {
                    assert(grown[k] == cs@.subrange(start as int, i as int)[k]);
                }
            }
        }
        i = i + 1;
    }
    Some(value as u32)
}

/// A stored warning.
#[derive(Debug, Clone)]
pub struct WarningRow {
    pub id: i64,
    pub guild_id: i64,
    pub user_id: i64,
    pub moderator_id: i64,
    pub reason: String,
    pub created_at: String,
}

/// The text with each written `\\n` turned into a line break, left to right.
pub open spec fn unescape_spec(s: Seq<char>) -> Seq<char>
    decreases s.len(),
{
    if s.len() == 0 {
        Seq::empty()
    } else if s.len() >= 2 && s[0] == '\\' && s[1] == 'n' {
        seq!['\n'] + unescape_spec(s.subrange(2, s.len() as int))
    } else {
        seq![s[0]] + unescape_spec(s.drop_first())
    }
}

/// An announcement body with each written `\\n` turned into a line break.
pub fn unescape_newlines(s: &str) -> (r: String)
    ensures
        r@ == unescape_spec(s@),
{
    let n = s.unicode_len();
    let mut out = String::new();
    let mut i: usize = 0;
    assert(s@.subrange(0, n as int) == s@);
    while i < n
        invariant
            n == s@.len(),
            i <= n,
            out@ + unescape_spec(s@.subrange(i as int, n as int)) == unescape_spec(s@),
        decreases n - i,
    {
        let ghost rest = s@.subrange(i as int, n as int);
        if i + 1 < n && s.get_char(i) == '\\' && s.get_char(i + 1) == 'n' {
            assert(rest.subrange(2, rest.len() as int) == s@.subrange(i + 2, n as int));
            proof {
                reveal_strlit("\n");
            }
            let ghost before = out@;
            out.append("\n");
            assert(out@ + unescape_spec(s@.subrange(i + 2, n as int)) == before + (seq!['\n']
                + unescape_spec(s@.subrange(i + 2, n as int))));
            i = i + 2;
        } else {
            let one = s.substring_char(i, i + 1);
            assert(rest.drop_first() == s@.subrange(i + 1, n as int));
            assert(one@ == seq![rest[0]]);
            let ghost before = out@;
            out.append(one);
            assert(out@ + unescape_spec(s@.subrange(i + 1, n as int)) == before + (seq![rest[0]]
                + unescape_spec(s@.subrange(i + 1, n as int))));
            i = i + 1;
        }
    }
    assert(out@ + Seq::<char>::empty() == out@);
    out
}

} // verus!
