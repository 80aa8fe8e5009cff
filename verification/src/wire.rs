//! The wire format: one message per line, written as a JSON object with the
//! fields `username`, `content`, `timestamp` and `message_type`, in that
//! order and without white space.

use vstd::prelude::*;
use crate::message::{Message, MessageKind, MessageView};
use crate::json::{decode_lenient, lenient_record};
use crate::text::{chars_of, string_of};

verus! {

/// The lower-case hexadecimal digit for `d`, where `d < 16`.
pub open spec fn hex_digit(d: int) -> char {
    if d < 10 {
        ((48 + d) as u8) as char
    } else {
        ((87 + d) as u8) as char
    }
}

/// How one character stands inside a quoted string: the quote, the backslash
/// and the control characters are escaped, every other character stands for
/// itself.
pub open spec fn escape_char(c: char) -> Seq<char> {
    if c == '"' {
        seq!['\\', '"']
    } else if c == '\\' {
        seq!['\\', '\\']
    } else if c == '\u{8}' {
        seq!['\\', 'b']
    } else if c == '\u{c}' {
        seq!['\\', 'f']
    } else if c == '\n' {
        seq!['\\', 'n']
    } else if c == '\r' {
        seq!['\\', 'r']
    } else if c == '\t' {
        seq!['\\', 't']
    } else if (c as u32) < 0x20 {
        seq!['\\', 'u', '0', '0', hex_digit((c as u32) as int / 16), hex_digit((c as u32) as int % 16)]
    } else {
        seq![c]
    }
}

/// The characters of `s`, each escaped.
pub open spec fn escape(s: Seq<char>) -> Seq<char>
    decreases s.len(),
{
    if s.len() == 0 {
        Seq::empty()
    } else {
        escape_char(s[0]) + escape(s.skip(1))
    }
}

/// `s` as a quoted string.
pub open spec fn quote(s: Seq<char>) -> Seq<char> {
    seq!['"'] + escape(s) + seq!['"']
}

/// The name of a kind on the wire.
pub open spec fn kind_name(kind: MessageKind) -> Seq<char> {
    match kind {
        MessageKind::UserMessage => "UserMessage"@,
        MessageKind::SystemNotification => "SystemNotification"@,
    }
}

/// The line that carries `m`, without the line's end.
pub open spec fn encode_spec(m: MessageView) -> Seq<char> {
    "{\"username\":"@ + quote(m.username) + ",\"content\":"@ + quote(m.content)
        + ",\"timestamp\":"@ + quote(m.timestamp) + ",\"message_type\":\""@ + kind_name(m.kind)
        + "\"}"@
}

/// Escaping goes character by character: what `s` followed by `c` gives is
/// what `s` gives followed by what `c` gives.
pub proof fn lemma_escape_push(s: Seq<char>, c: char)
    ensures
        escape(s.push(c)) == escape(s) + escape_char(c),
    decreases s.len(),
{
    if s.len() == 0 {
        assert(s.push(c).skip(1) =~= Seq::<char>::empty());
        assert(escape(s.push(c)) =~= escape_char(c) + escape(Seq::<char>::empty()));
        assert(escape(s) + escape_char(c) =~= escape_char(c));
    } else {
        assert(s.push(c).skip(1) =~= s.skip(1).push(c));
        lemma_escape_push(s.skip(1), c);
        assert(escape(s.push(c)) =~= escape_char(s[0]) + (escape(s.skip(1)) + escape_char(c)));
        assert(escape(s) + escape_char(c) =~= escape_char(s[0]) + (escape(s.skip(1)) + escape_char(c)));
    }
}

/// No escaped text holds a control character: a line's end in a message
/// never ends the line that carries it.
pub proof fn lemma_escape_has_no_control(s: Seq<char>, i: int)
    requires
        0 <= i < escape(s).len(),
    ensures
        (escape(s)[i] as u32) >= 0x20,
    decreases s.len(),
{
    if s.len() > 0 {
        let head = escape_char(s[0]);
        if i < head.len() {
            assert(escape(s)[i] == head[i]);
            let code = (s[0] as u32) as int;
            if code < 0x20 {
                lemma_hex_digit_range(code / 16);
                lemma_hex_digit_range(code % 16);
            }
        } else {
            assert(escape(s)[i] == escape(s.skip(1))[i - head.len()]);
            lemma_escape_has_no_control(s.skip(1), i - head.len());
        }
    }
}

/// A hexadecimal digit is one of `0` to `9` and `a` to `f`.
pub proof fn lemma_hex_digit_range(d: int)
    requires
        0 <= d < 16,
    ensures
        d < 10 ==> hex_digit(d) as u32 == 48 + d,
        d >= 10 ==> hex_digit(d) as u32 == 87 + d,
{
}

/// The character that `hex_digit` names.
fn hex_char(d: u8) -> (c: char)
    requires
        d < 16,
    ensures
        c == hex_digit(d as int),
{
    if d < 10 {
        (48 + d) as char
    } else {
        (87 + d) as char
    }
}

/// Adds `c`, escaped, to the end of `out`.
fn push_escaped(out: &mut String, c: char)
    ensures
        final(out)@ == old(out)@ + escape_char(c),
{
    let ghost before = out@;
    if c == '"' {
        out.push('\\');
        out.push('"');
    } else if c == '\\' {
        out.push('\\');
        out.push('\\');
    } else if c == '\u{8}' {
        out.push('\\');
        out.push('b');
    } else if c == '\u{c}' {
        out.push('\\');
        out.push('f');
    } else if c == '\n' {
        out.push('\\');
        out.push('n');
    } else if c == '\r' {
        out.push('\\');
        out.push('r');
    } else if c == '\t' {
        out.push('\\');
        out.push('t');
    } else if (c as u32) < 0x20 {
        let code: u8 = c as u8;
        out.push('\\');
        out.push('u');
        out.push('0');
        out.push('0');
        out.push(hex_char(code / 16));
        out.push(hex_char(code % 16));
    } else {
        out.push(c);
    }
    assert(out@ =~= before + escape_char(c));
}

/// Adds `s`, as a quoted string, to the end of `out`.
fn push_quoted(out: &mut String, s: &str)
    ensures
        final(out)@ == old(out)@ + quote(s@),
{
    let ghost before = out@;
    out.push('"');
    for c in it: s.chars()
        invariant
            it.seq() == s@,
            out@ == before + seq!['"'] + escape(s@.take(it.index() as int)),
    {
        let ghost sofar = s@.take(it.index() as int);
        push_escaped(out, c);
        proof {
            lemma_escape_push(sofar, c);
            assert(s@.take(it.index() + 1) =~= sofar.push(c));
            assert(out@ =~= before + seq!['"'] + escape(s@.take(it.index() + 1)));
        }
    }
    assert(s@.take(s@.len() as int) =~= s@);
    out.push('"');
    assert(out@ =~= before + quote(s@));
}

/// Writes `m` as one line, without the line's end.
pub fn encode(m: &Message) -> (line: String)
    ensures
        line@ == encode_spec(m@),
{
    let mut out = String::new();
    out.append("{\"username\":");
    push_quoted(&mut out, m.username.as_str());
    out.append(",\"content\":");
    push_quoted(&mut out, m.content.as_str());
    out.append(",\"timestamp\":");
    push_quoted(&mut out, m.timestamp.as_str());
    out.append(",\"message_type\":\"");
    match m.kind {
        MessageKind::UserMessage => out.append("UserMessage"),
        MessageKind::SystemNotification => out.append("SystemNotification"),
    }
    out.append("\"}");
    assert(out@ =~= encode_spec(m@));
    out
}

/// `piece` stands in `text` at position `at`.
#[verifier::opaque]
pub open spec fn has_at(text: Seq<char>, at: int, piece: Seq<char>) -> bool {
    &&& 0 <= at
    &&& at + piece.len() <= text.len()
    &&& text.subrange(at, at + piece.len()) =~= piece
}

/// The value of a lower-case hexadecimal digit.
pub open spec fn hex_value(c: char) -> Option<int> {
    if '0' <= c && c <= '9' {
        Some(c as int - 48)
    } else if 'a' <= c && c <= 'f' {
        Some(c as int - 87)
    } else {
        None
    }
}

/// The character whose escaped form stands in `text` at `i`, with the length
/// of that form; `None` where no character's escaped form stands there.
pub open spec fn token(text: Seq<char>, i: int) -> Option<(char, int)> {
    if !(0 <= i < text.len()) {
        None
    } else if text[i] == '"' || (text[i] as u32) < 0x20 {
        None
    } else if text[i] != '\\' {
        Some((text[i], 1))
    } else if i + 1 >= text.len() {
        None
    } else if text[i + 1] == '"' {
        Some(('"', 2))
    } else if text[i + 1] == '\\' {
        Some(('\\', 2))
    } else if text[i + 1] == 'b' {
        Some(('\u{8}', 2))
    } else if text[i + 1] == 'f' {
        Some(('\u{c}', 2))
    } else if text[i + 1] == 'n' {
        Some(('\n', 2))
    } else if text[i + 1] == 'r' {
        Some(('\r', 2))
    } else if text[i + 1] == 't' {
        Some(('\t', 2))
    } else if text[i + 1] == 'u' && i + 5 < text.len() && text[i + 2] == '0' && text[i + 3] == '0'
        && (text[i + 4] == '0' || text[i + 4] == '1') && hex_value(text[i + 5]) is Some {
        let code = (text[i + 4] as int - 48) * 16 + hex_value(text[i + 5]).unwrap();
        if code == 8 || code == 9 || code == 10 || code == 12 || code == 13 {
            None
        } else {
            Some(((code as u8) as char, 6))
        }
    } else {
        None
    }
}

/// What `token` finds is the escaped form of the character it names.
pub proof fn lemma_token_sound(text: Seq<char>, i: int)
    requires
        token(text, i) is Some,
    ensures
        has_at(text, i, escape_char(token(text, i).unwrap().0)),
        token(text, i).unwrap().1 == escape_char(token(text, i).unwrap().0).len(),
{
    reveal(has_at);
    let (c, n) = token(text, i).unwrap();
    if n == 6 {
        let code = (text[i + 4] as int - 48) * 16 + hex_value(text[i + 5]).unwrap();
        assert(0 <= code < 0x20);
        assert((c as u32) as int == code);
        assert(code / 16 == text[i + 4] as int - 48);
        assert(code % 16 == hex_value(text[i + 5]).unwrap());
        lemma_hex_digit_range(code / 16);
        lemma_hex_digit_range(code % 16);
        assert(hex_digit(code / 16) == text[i + 4]);
        assert(hex_digit(code % 16) == text[i + 5]);
    }
    assert(text.subrange(i, i + n) =~= escape_char(c));
}

/// Where the escaped form of `c` stands, `token` finds `c`.
pub proof fn lemma_token_complete(text: Seq<char>, i: int, c: char)
    requires
        has_at(text, i, escape_char(c)),
    ensures
        token(text, i) == Some((c, escape_char(c).len() as int)),
{
    reveal(has_at);
    let piece = escape_char(c);
    assert forall|k: int| 0 <= k < piece.len() implies text[i + k] == piece[k] by {
        assert(text.subrange(i, i + piece.len())[k] == piece[k]);
    }
    assert(text[i] == piece[0]);
    if piece.len() >= 2 {
        assert(text[i + 1] == piece[1]);
    }
    if piece.len() == 6 {
        let code = (c as u32) as int;
        assert(text[i + 2] == piece[2]);
        assert(text[i + 3] == piece[3]);
        assert(text[i + 4] == piece[4]);
        assert(text[i + 5] == piece[5]);
        lemma_hex_digit_range(code / 16);
        lemma_hex_digit_range(code % 16);
        assert(hex_value(text[i + 5]) == Some(code % 16));
        assert((text[i + 4] as int - 48) * 16 + code % 16 == code);
        assert(((code as u8) as char) == c);
    }
}

/// The escaped form of a character never begins with a quote.
pub proof fn lemma_escape_char_head(c: char)
    ensures
        escape_char(c).len() >= 1,
        escape_char(c)[0] != '"',
{
}

/// Escaping a text that begins with `a` and goes on with `b`.
pub proof fn lemma_escape_concat(a: Seq<char>, b: Seq<char>)
    ensures
        escape(a + b) == escape(a) + escape(b),
    decreases b.len(),
{
    if b.len() == 0 {
        assert(a + b =~= a);
        assert(escape(a) + escape(b) =~= escape(a));
    } else {
        let last = b[b.len() - 1];
        let front = b.take(b.len() - 1);
        assert(b =~= front.push(last));
        assert(a + b =~= (a + front).push(last));
        lemma_escape_concat(a, front);
        lemma_escape_push(a + front, last);
        lemma_escape_push(front, last);
        assert(escape(a + b) =~= escape(a) + escape(b));
    }
}

/// The value of the hexadecimal digit `c`, or `None`.
fn hex_of(c: char) -> (v: Option<u8>)
    ensures
        match hex_value(c) {
            Some(d) => v == Some(d as u8) && 0 <= d < 16,
            None => v is None,
        },
{
    if '0' <= c && c <= '9' {
        Some((c as u8) - 48)
    } else if 'a' <= c && c <= 'f' {
        Some((c as u8) - 87)
    } else {
        None
    }
}

/// Reads the character whose escaped form stands at `i`, and gives the
/// position behind that form.
fn read_token(text: &Vec<char>, i: usize) -> (found: Option<(char, usize)>)
    ensures
        match token(text@, i as int) {
            Some((c, n)) => found == Some((c, (i + n) as usize)) && i + n <= text.len(),
            None => found is None,
        },
{
    if i >= text.len() {
        return None;
    }
    let c = text[i];
    if c == '"' || (c as u32) < 0x20 {
        return None;
    }
    if c != '\\' {
        return Some((c, i + 1));
    }
    if text.len() - i < 2 {
        return None;
    }
    let e = text[i + 1];
    if e == '"' {
        Some(('"', i + 2))
    } else if e == '\\' {
        Some(('\\', i + 2))
    } else if e == 'b' {
        Some(('\u{8}', i + 2))
    } else if e == 'f' {
        Some(('\u{c}', i + 2))
    } else if e == 'n' {
        Some(('\n', i + 2))
    } else if e == 'r' {
        Some(('\r', i + 2))
    } else if e == 't' {
        Some(('\t', i + 2))
    } else if e == 'u' && text.len() - i >= 6 && text[i + 2] == '0' && text[i + 3] == '0' && (text[i
        + 4] == '0' || text[i + 4] == '1') {
        match hex_of(text[i + 5]) {
            Some(low) => {
                let high: u8 = if text[i + 4] == '1' { 16 } else { 0 };
                let code: u8 = high + low;
                if code == 8 || code == 9 || code == 10 || code == 12 || code == 13 {
                    None
                } else {
                    Some((code as char, i + 6))
                }
            },
            None => None,
        }
    } else {
        None
    }
}

/// Reads the quoted string that begins at `at`, and gives the text it stands
/// for with the position behind its closing quote. There is at most one
/// such string, and it is found if it is there.
fn scan_quoted(text: &Vec<char>, at: usize) -> (found: Option<(String, usize)>)
    ensures
        found matches Some((s, next)) ==> has_at(text@, at as int, quote(s@)) && next == at
            + quote(s@).len(),
        forall|s: Seq<char>| #[trigger]
            has_at(text@, at as int, quote(s)) ==> found is Some && found.unwrap().0@ == s,
{
    if at >= text.len() || text[at] != '"' {
        assert forall|s: Seq<char>| !#[trigger] has_at(text@, at as int, quote(s)) by {
            reveal(has_at);
            if has_at(text@, at as int, quote(s)) {
                assert(text@.subrange(at as int, at + quote(s).len())[0] == quote(s)[0]);
            }
        }
        return None;
    }
    let start: usize = at + 1;
    let mut out: Vec<char> = Vec::new();
    let mut i: usize = start;
    loop
        invariant
            start == at + 1,
            start <= i <= text.len(),
            text@[at as int] == '"',
            text@.subrange(start as int, i as int) =~= escape(out@),
            forall|s: Seq<char>| #[trigger]
                has_at(text@, at as int, quote(s)) ==> out@.len() <= s.len() && s.take(
                    out@.len() as int,
                ) == out@,
        decreases text.len() - i,
    {
        let ghost done = out@;
        if i < text.len() && text[i] == '"' {
            let s = string_of(&out, 0, out.len());
            proof {
                reveal(has_at);
                assert(out@.subrange(0, out@.len() as int) =~= out@);
                assert(text@.subrange(at as int, i + 1) =~= quote(done));
                assert forall|t: Seq<char>| #[trigger]
                    has_at(text@, at as int, quote(t)) implies t == done by {
                    lemma_remaining(text@, at as int, t, done);
                    let rest = t.skip(done.len() as int);
                    if rest.len() > 0 {
                        lemma_escape_char_head(rest[0]);
                        assert(escape(rest)[0] == escape_char(rest[0])[0]);
                        assert((escape(rest) + seq!['"'])[0] == escape_char(rest[0])[0]);
                        assert(text@.subrange(i as int, i + (escape(rest) + seq!['"']).len())[0]
                            == (escape(rest) + seq!['"'])[0]);
                    }
                    assert(t =~= done + rest);
                }
            }
            return Some((s, i + 1));
        }
        match read_token(text, i) {
            Some((c, next)) => {
                proof {
                    reveal(has_at);
                    lemma_token_sound(text@, i as int);
                    lemma_escape_push(done, c);
                    assert(text@.subrange(start as int, next as int) =~= text@.subrange(
                        start as int,
                        i as int,
                    ) + text@.subrange(i as int, next as int));
                    assert forall|t: Seq<char>| #[trigger]
                        has_at(text@, at as int, quote(t)) implies done.len() + 1 <= t.len()
                        && t.take(done.len() as int + 1) == done.push(c) by {
                        lemma_remaining(text@, at as int, t, done);
                        let rest = t.skip(done.len() as int);
                        if rest.len() == 0 {
                            assert(escape(rest) + seq!['"'] =~= seq!['"']);
                            assert(text@.subrange(i as int, i + 1)[0] == '"');
                        } else {
                            lemma_head_at(text@, i as int, rest);
                            lemma_token_complete(text@, i as int, rest[0]);
                            assert(t.take(done.len() as int + 1) =~= done.push(rest[0]));
                        }
                    }
                }
                out.push(c);
                i = next;
            },
            None => {
                proof {
                    reveal(has_at);
                    assert forall|t: Seq<char>| !#[trigger] has_at(text@, at as int, quote(t)) by {
                        if has_at(text@, at as int, quote(t)) {
                            lemma_remaining(text@, at as int, t, done);
                            let rest = t.skip(done.len() as int);
                            if rest.len() == 0 {
                                assert(escape(rest) + seq!['"'] =~= seq!['"']);
                                assert(text@.subrange(i as int, i + 1)[0] == '"');
                            } else {
                                lemma_head_at(text@, i as int, rest);
                                lemma_token_complete(text@, i as int, rest[0]);
                            }
                        }
                    }
                }
                return None;
            },
        }
    }
}

/// Where the quoted form of `t` stands at `at` and `t` begins with `done`,
/// the escaped rest of `t` and the closing quote stand behind the escaped
/// `done`.
proof fn lemma_remaining(text: Seq<char>, at: int, t: Seq<char>, done: Seq<char>)
    requires
        has_at(text, at, quote(t)),
        done.len() <= t.len(),
        t.take(done.len() as int) == done,
    ensures
        has_at(
            text,
            at + 1 + escape(done).len(),
            escape(t.skip(done.len() as int)) + seq!['"'],
        ),
{
    reveal(has_at);
    let rest = t.skip(done.len() as int);
    assert(t =~= done + rest);
    lemma_escape_concat(done, rest);
    let q = quote(t);
    assert(q =~= seq!['"'] + escape(done) + (escape(rest) + seq!['"']));
    let from = at + 1 + escape(done).len();
    let piece = escape(rest) + seq!['"'];
    assert forall|k: int| 0 <= k < piece.len() implies text.subrange(from, from + piece.len())[k]
        == piece[k] by {
        assert(text.subrange(at, at + q.len())[1 + escape(done).len() + k] == q[1 + escape(
            done,
        ).len() + k]);
    }
}

/// Where the escaped form of a text that is not empty stands, followed by a
/// quote, the escaped form of its first character stands.
proof fn lemma_head_at(text: Seq<char>, i: int, rest: Seq<char>)
    requires
        rest.len() > 0,
        has_at(text, i, escape(rest) + seq!['"']),
    ensures
        has_at(text, i, escape_char(rest[0])),
{
    reveal(has_at);
    let piece = escape(rest) + seq!['"'];
    let head = escape_char(rest[0]);
    assert forall|k: int| 0 <= k < head.len() implies text.subrange(i, i + head.len())[k]
        == head[k] by {
        assert(text.subrange(i, i + piece.len())[k] == piece[k]);
    }
}

/// Where each part of the line that carries `m` stands in it.
pub proof fn lemma_layout(m: MessageView)
    ensures
        ({
            let e = encode_spec(m);
            let a1 = "{\"username\":"@.len() as int;
            let a2 = a1 + quote(m.username).len();
            let a3 = a2 + ",\"content\":"@.len();
            let a4 = a3 + quote(m.content).len();
            let a5 = a4 + ",\"timestamp\":"@.len();
            let a6 = a5 + quote(m.timestamp).len();
            let a7 = a6 + ",\"message_type\":\""@.len();
            let a8 = a7 + kind_name(m.kind).len();
            &&& has_at(e, 0, "{\"username\":"@)
            &&& has_at(e, a1, quote(m.username))
            &&& has_at(e, a2, ",\"content\":"@)
            &&& has_at(e, a3, quote(m.content))
            &&& has_at(e, a4, ",\"timestamp\":"@)
            &&& has_at(e, a5, quote(m.timestamp))
            &&& has_at(e, a6, ",\"message_type\":\""@)
            &&& has_at(e, a7, kind_name(m.kind))
            &&& has_at(e, a8, "\"}"@)
            &&& e.len() == a8 + "\"}"@.len()
        }),
{
    reveal(has_at);
}

/// A text whose parts stand where the parts of the line that carries `m`
/// stand, and which ends with them, is that line.
pub proof fn lemma_assemble(text: Seq<char>, m: MessageView)
    requires
        ({
            let a1 = "{\"username\":"@.len() as int;
            let a2 = a1 + quote(m.username).len();
            let a3 = a2 + ",\"content\":"@.len();
            let a4 = a3 + quote(m.content).len();
            let a5 = a4 + ",\"timestamp\":"@.len();
            let a6 = a5 + quote(m.timestamp).len();
            let a7 = a6 + ",\"message_type\":\""@.len();
            let a8 = a7 + kind_name(m.kind).len();
            &&& has_at(text, 0, "{\"username\":"@)
            &&& has_at(text, a1, quote(m.username))
            &&& has_at(text, a2, ",\"content\":"@)
            &&& has_at(text, a3, quote(m.content))
            &&& has_at(text, a4, ",\"timestamp\":"@)
            &&& has_at(text, a5, quote(m.timestamp))
            &&& has_at(text, a6, ",\"message_type\":\""@)
            &&& has_at(text, a7, kind_name(m.kind))
            &&& has_at(text, a8, "\"}"@)
            &&& text.len() == a8 + "\"}"@.len()
        }),
    ensures
        text == encode_spec(m),
{
    reveal(has_at);
    let a1 = "{\"username\":"@.len() as int;
    let a2 = a1 + quote(m.username).len();
    let a3 = a2 + ",\"content\":"@.len();
    let a4 = a3 + quote(m.content).len();
    let a5 = a4 + ",\"timestamp\":"@.len();
    let a6 = a5 + quote(m.timestamp).len();
    let a7 = a6 + ",\"message_type\":\""@.len();
    let a8 = a7 + kind_name(m.kind).len();
    let end = a8 + "\"}"@.len();
    assert(text =~= text.subrange(0, a1) + text.subrange(a1, a2) + text.subrange(a2, a3)
        + text.subrange(a3, a4) + text.subrange(a4, a5) + text.subrange(a5, a6) + text.subrange(
        a6,
        a7,
    ) + text.subrange(a7, a8) + text.subrange(a8, end));
}

/// The names of the two kinds do not stand at one place.
pub proof fn lemma_kind_unique(text: Seq<char>, at: int, a: MessageKind, b: MessageKind)
    requires
        has_at(text, at, kind_name(a)),
        has_at(text, at, kind_name(b)),
    ensures
        a == b,
{
    reveal(has_at);
    reveal_strlit("UserMessage");
    reveal_strlit("SystemNotification");
    assert(text.subrange(at, at + kind_name(a).len())[0] == kind_name(a)[0]);
    assert(text.subrange(at, at + kind_name(b).len())[0] == kind_name(b)[0]);
}

/// Tests whether the text of `lit` stands in `text` at `at`, and gives the
/// position behind it.
fn expect(text: &Vec<char>, at: usize, lit: &str) -> (next: Option<usize>)
    requires
        at <= text.len(),
    ensures
        next is Some <==> has_at(text@, at as int, lit@),
        next matches Some(j) ==> j == at + lit@.len(),
{
    let want = chars_of(lit);
    if text.len() - at < want.len() {
        proof {
            reveal(has_at);
        }
        return None;
    }
    let mut k: usize = 0;
    while k < want.len()
        invariant
            want@ == lit@,
            at + want.len() <= text.len(),
            k <= want.len(),
            forall|j: int| 0 <= j < k ==> text@[at + j] == want@[j],
        decreases want.len() - k,
    {
        if text[at + k] != want[k] {
            proof {
                reveal(has_at);
                if has_at(text@, at as int, lit@) {
                    assert(text@.subrange(at as int, at + lit@.len())[k as int] == lit@[k as int]);
                }
            }
            return None;
        }
        k += 1;
    }
    proof {
        reveal(has_at);
        assert(text@.subrange(at as int, at + lit@.len()) =~= lit@);
    }
    Some(at + want.len())
}

/// Reads the field that `label` opens at `at`: the label, then a quoted
/// string.
fn read_field(text: &Vec<char>, at: usize, label: &str) -> (found: Option<(String, usize)>)
    requires
        at <= text.len(),
    ensures
        found matches Some((s, next)) ==> has_at(text@, at as int, label@) && has_at(
            text@,
            at + label@.len(),
            quote(s@),
        ) && next == at + label@.len() + quote(s@).len() && next <= text.len(),
        forall|s: Seq<char>|
            has_at(text@, at as int, label@) && #[trigger] has_at(
                text@,
                at + label@.len(),
                quote(s),
            ) ==> found is Some && found.unwrap().0@ == s,
{
    match expect(text, at, label) {
        Some(open) => {
            proof {
                reveal(has_at);
            }
            let found = scan_quoted(text, open);
            found
        },
        None => None,
    }
}

/// Reads the name of a kind at `at`.
fn read_kind(text: &Vec<char>, at: usize) -> (found: Option<(MessageKind, usize)>)
    requires
        at <= text.len(),
    ensures
        found matches Some((kind, next)) ==> has_at(text@, at as int, kind_name(kind)) && next
            == at + kind_name(kind).len() && next <= text.len(),
        forall|kind: MessageKind| #[trigger]
            has_at(text@, at as int, kind_name(kind)) ==> found is Some && found.unwrap().0
                == kind,
{
    proof {
        reveal(has_at);
    }
    match expect(text, at, "UserMessage") {
        Some(next) => {
            proof {
                assert forall|kind: MessageKind| #[trigger]
                    has_at(text@, at as int, kind_name(kind)) implies kind
                    == MessageKind::UserMessage by {
                    lemma_kind_unique(text@, at as int, kind, MessageKind::UserMessage);
                }
            }
            Some((MessageKind::UserMessage, next))
        },
        None => match expect(text, at, "SystemNotification") {
            Some(next) => {
                proof {
                    assert forall|kind: MessageKind| #[trigger]
                        has_at(text@, at as int, kind_name(kind)) implies kind
                        == MessageKind::SystemNotification by {
                        lemma_kind_unique(text@, at as int, kind, MessageKind::SystemNotification);
                    }
                }
                Some((MessageKind::SystemNotification, next))
            },
            None => None,
        },
    }
}

/// Reads a line that `encode` wrote. The result is `Some` exactly for such a
/// line, and then it is the message that the line carries.
pub fn decode_canonical(line: &str) -> (found: Option<Message>)
    ensures
        found matches Some(m) ==> encode_spec(m@) == line@,
        forall|m: MessageView| encode_spec(m) == line@ ==> found is Some && found.unwrap()@ == m,
        found is Some <==> canonical_record(line@) is Some,
        found matches Some(m) ==> canonical_record(line@) == Some(m@),
{
    let text = chars_of(line);
    proof {
        assert forall|m: MessageView| #[trigger] encode_spec(m) == line@ implies laid_out(
            text@,
            m,
        ) by {
            lemma_layout(m);
        }
    }
    let (username, a2) = match read_field(&text, 0, "{\"username\":") {
        Some(pair) => pair,
        None => {
            assert forall|m: MessageView| encode_spec(m) != line@ by {
                if encode_spec(m) == line@ {
                    assert(has_at(text@, 0 + "{\"username\":"@.len() as int, quote(m.username)));
                }
            }
            return None;
        },
    };
    let (content, a4) = match read_field(&text, a2, ",\"content\":") {
        Some(pair) => pair,
        None => { return None; },
    };
    let (timestamp, a6) = match read_field(&text, a4, ",\"timestamp\":") {
        Some(pair) => pair,
        None => { return None; },
    };
    let a7 = match expect(&text, a6, ",\"message_type\":\"") {
        Some(j) => j,
        None => { return None; },
    };
    proof {
        reveal(has_at);
    }
    let (kind, a8) = match read_kind(&text, a7) {
        Some(pair) => pair,
        None => { return None; },
    };
    let end = match expect(&text, a8, "\"}") {
        Some(j) => j,
        None => { return None; },
    };
    if end != text.len() {
        return None;
    }
    let message = Message { username, content, timestamp, kind };
    proof {
        lemma_assemble(text@, message@);
        lemma_canonical_round_trip(message@);
    }
    Some(message)
}

/// The parts of the line that carries `m` stand in `text`, and `text` ends
/// with them.
pub open spec fn laid_out(text: Seq<char>, m: MessageView) -> bool {
    let a1 = "{\"username\":"@.len() as int;
    let a2 = a1 + quote(m.username).len();
    let a3 = a2 + ",\"content\":"@.len();
    let a4 = a3 + quote(m.content).len();
    let a5 = a4 + ",\"timestamp\":"@.len();
    let a6 = a5 + quote(m.timestamp).len();
    let a7 = a6 + ",\"message_type\":\""@.len();
    let a8 = a7 + kind_name(m.kind).len();
    &&& has_at(text, 0, "{\"username\":"@)
    &&& has_at(text, a1, quote(m.username))
    &&& has_at(text, a2, ",\"content\":"@)
    &&& has_at(text, a3, quote(m.content))
    &&& has_at(text, a4, ",\"timestamp\":"@)
    &&& has_at(text, a5, quote(m.timestamp))
    &&& has_at(text, a6, ",\"message_type\":\""@)
    &&& has_at(text, a7, kind_name(m.kind))
    &&& has_at(text, a8, "\"}"@)
    &&& text.len() == a8 + "\"}"@.len()
}

/// Where the escaped form of a text that is not empty stands, followed by a
/// quote, the escaped form of the rest stands behind that of the first
/// character.
proof fn lemma_tail_at(text: Seq<char>, i: int, rest: Seq<char>)
    requires
        rest.len() > 0,
        has_at(text, i, escape(rest) + seq!['"']),
    ensures
        has_at(text, i + escape_char(rest[0]).len(), escape(rest.skip(1)) + seq!['"']),
{
    reveal(has_at);
    let piece = escape(rest) + seq!['"'];
    let head = escape_char(rest[0]);
    let after = escape(rest.skip(1)) + seq!['"'];
    assert(piece =~= head + after);
    assert forall|k: int| 0 <= k < after.len() implies text.subrange(
        i + head.len(),
        i + head.len() + after.len(),
    )[k] == after[k] by {
        assert(text.subrange(i, i + piece.len())[head.len() + k] == piece[head.len() + k]);
    }
}

/// One place holds the escaped form of at most one text before a quote.
proof fn lemma_escaped_unique(text: Seq<char>, i: int, s: Seq<char>, t: Seq<char>)
    requires
        has_at(text, i, escape(s) + seq!['"']),
        has_at(text, i, escape(t) + seq!['"']),
    ensures
        s == t,
    decreases s.len() + t.len(),
{
    if s.len() == 0 && t.len() == 0 {
        assert(s =~= t);
    } else if s.len() == 0 || t.len() == 0 {
        let (short, long) = if s.len() == 0 { (s, t) } else { (t, s) };
        lemma_head_at(text, i, long);
        lemma_token_complete(text, i, long[0]);
        assert(text[i] == '"') by {
            reveal(has_at);
            assert(escape(short) + seq!['"'] =~= seq!['"']);
            assert(text.subrange(i, i + 1)[0] == '"');
        }
    } else {
        lemma_head_at(text, i, s);
        lemma_head_at(text, i, t);
        lemma_token_complete(text, i, s[0]);
        lemma_token_complete(text, i, t[0]);
        lemma_tail_at(text, i, s);
        lemma_tail_at(text, i, t);
        lemma_escaped_unique(text, i + escape_char(s[0]).len(), s.skip(1), t.skip(1));
        assert(s =~= seq![s[0]] + s.skip(1));
        assert(t =~= seq![t[0]] + t.skip(1));
    }
}

/// One place holds the quoted form of at most one text.
pub proof fn lemma_quote_unique(text: Seq<char>, at: int, s: Seq<char>, t: Seq<char>)
    requires
        has_at(text, at, quote(s)),
        has_at(text, at, quote(t)),
    ensures
        s == t,
{
    assert(s.take(0) =~= Seq::<char>::empty());
    assert(t.take(0) =~= Seq::<char>::empty());
    lemma_remaining(text, at, s, Seq::empty());
    lemma_remaining(text, at, t, Seq::empty());
    assert(s.skip(0) =~= s);
    assert(t.skip(0) =~= t);
    lemma_escaped_unique(text, at + 1, s, t);
}

/// Two messages that are written as the same line are the same message.
pub proof fn lemma_encode_injective(a: MessageView, b: MessageView)
    requires
        encode_spec(a) == encode_spec(b),
    ensures
        a == b,
{
    let e = encode_spec(a);
    lemma_layout(a);
    lemma_layout(b);
    let a1 = "{\"username\":"@.len() as int;
    lemma_quote_unique(e, a1, a.username, b.username);
    let a3 = a1 + quote(a.username).len() + ",\"content\":"@.len();
    lemma_quote_unique(e, a3, a.content, b.content);
    let a5 = a3 + quote(a.content).len() + ",\"timestamp\":"@.len();
    lemma_quote_unique(e, a5, a.timestamp, b.timestamp);
    let a7 = a5 + quote(a.timestamp).len() + ",\"message_type\":\""@.len();
    lemma_kind_unique(e, a7, a.kind, b.kind);
}

/// The message that the line `line` carries in the form that `encode`
/// writes; `None` where `encode` writes no such line.
pub open spec fn canonical_record(line: Seq<char>) -> Option<MessageView> {
    if exists|m: MessageView| encode_spec(m) == line {
        Some(choose|m: MessageView| encode_spec(m) == line)
    } else {
        None
    }
}

/// Reading back the line that carries `m` gives `m`.
pub proof fn lemma_canonical_round_trip(m: MessageView)
    ensures
        canonical_record(encode_spec(m)) == Some(m),
{
    let line = encode_spec(m);
    let found = choose|other: MessageView| encode_spec(other) == line;
    lemma_encode_injective(found, m);
}

/// The message that `line` carries: the one that `encode` wrote it for, or
/// else what the line says as a JSON object; `None` for any other line.
pub open spec fn decode_spec(line: Seq<char>) -> Option<MessageView> {
    match canonical_record(line) {
        Some(m) => Some(m),
        None => lenient_record(line),
    }
}

/// Reads one line, given without its end. A line that carries no message
/// gives `None`: it is dropped, and that is no failure.
pub fn decode(line: &str) -> (found: Option<Message>)
    ensures
        match found {
            Some(m) => decode_spec(line@) == Some(m@),
            None => decode_spec(line@) is None,
        },
{
    match decode_canonical(line) {
        Some(m) => Some(m),
        None => decode_lenient(line),
    }
}

/// Writing a message and reading the line back gives the same message: the
/// same author, content, time stamp and kind, whatever they are, an empty
/// content included.
pub proof fn lemma_round_trip(m: MessageView)
    ensures
        decode_spec(encode_spec(m)) == Some(m),
{
    lemma_canonical_round_trip(m);
}

/// Whether no character of `s` is a control character.
pub open spec fn printable(s: Seq<char>) -> bool {
    forall|k: int| 0 <= k < s.len() ==> (#[trigger] s[k] as u32) >= 0x20
}

/// A quoted string holds no control character.
pub proof fn lemma_quote_printable(s: Seq<char>)
    ensures
        printable(quote(s)),
{
    assert forall|k: int| 0 <= k < quote(s).len() implies (#[trigger] quote(s)[k] as u32)
        >= 0x20 by {
        if 0 < k < quote(s).len() - 1 {
            assert(quote(s)[k] == escape(s)[k - 1]);
            lemma_escape_has_no_control(s, k - 1);
        }
    }
}

/// One line: the line that carries a message holds no control character,
/// so no line's end, whatever the message holds.
pub proof fn lemma_encoded_is_one_line(m: MessageView)
    ensures
        printable(encode_spec(m)),
{
    reveal_strlit("{\"username\":");
    reveal_strlit(",\"content\":");
    reveal_strlit(",\"timestamp\":");
    reveal_strlit(",\"message_type\":\"");
    reveal_strlit("UserMessage");
    reveal_strlit("SystemNotification");
    reveal_strlit("\"}");
    lemma_quote_printable(m.username);
    lemma_quote_printable(m.content);
    lemma_quote_printable(m.timestamp);
    assert(printable("{\"username\":"@));
    assert(printable(",\"content\":"@));
    assert(printable(",\"timestamp\":"@));
    assert(printable(",\"message_type\":\""@));
    assert(printable(kind_name(m.kind)));
    assert(printable("\"}"@));
}

} // verus!
