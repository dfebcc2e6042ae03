//! Connection settings: the `--command-config` properties file, the JAAS
//! options inside it, and the security settings they select.

use vstd::prelude::*;

use crate::cli::property_map::PropertyMap;
use crate::text::{
    chars_of, first_index_of, find_char, is_space, is_whitespace, last_index_of, parse_integer,
    parsed_integer, push_str, rfind_char, slice_chars, str_equal, string_from_chars, trim_end,
    trim_end_chars, trim_start, trim_start_chars,
};

verus! {

/// Why connection settings could not be built.
#[derive(Debug)]
pub enum ConnectionError {
    /// Neither a broker nor a controller address was given.
    MissingBootstrap,
    /// The command-config file could not be read.
    Read { path: String, reason: String },
    /// The command-config file, or a value in it, is invalid.
    Config(String),
    /// The admin client failed; the text is its message.
    Admin(String),
}

impl ConnectionError {
    pub open spec fn spec_message(&self) -> Seq<char> {
        match self {
            ConnectionError::MissingBootstrap => "one of --bootstrap-server or --bootstrap-controller is required"@,
            ConnectionError::Read { path, reason } => "read command config "@ + path@ + ": "@ + reason@,
            ConnectionError::Config(message) => "invalid command config: "@ + message@,
            ConnectionError::Admin(message) => message@,
        }
    }

    /// The text the CLI prints for this error.
    pub fn message(&self) -> (m: String)
        ensures
            m@ == self.spec_message(),
    {
        let mut m = String::new();
        match self {
            ConnectionError::MissingBootstrap => {
                push_str(&mut m, "one of --bootstrap-server or --bootstrap-controller is required");
            },
            ConnectionError::Read { path, reason } => {
                push_str(&mut m, "read command config ");
                push_str(&mut m, path.as_str());
                push_str(&mut m, ": ");
                push_str(&mut m, reason.as_str());
            },
            ConnectionError::Config(message) => {
                push_str(&mut m, "invalid command config: ");
                push_str(&mut m, message.as_str());
            },
            ConnectionError::Admin(message) => {
                push_str(&mut m, message.as_str());
            },
        }
        m
    }
}

fn config_error(message: &str) -> (e: ConnectionError)
    ensures
        e matches ConnectionError::Config(m) && m@ == message@,
{
    ConnectionError::Config(message.to_owned())
}

pub open spec fn lines_view(lines: Seq<Vec<char>>) -> Seq<Seq<char>> {
    lines.map_values(|l: Vec<char>| l@)
}

/// A line without the carriage return of a `\r\n` ending.
pub open spec fn without_cr(line: Seq<char>) -> Seq<char> {
    if line.len() > 0 && line.last() == '\r' {
        line.drop_last()
    } else {
        line
    }
}

/// The pieces of `text` that a newline ends, and the piece still open
/// after the last newline.
pub open spec fn newline_split(text: Seq<char>) -> (Seq<Seq<char>>, Seq<char>)
    decreases text.len(),
{
    if text.len() == 0 {
        (Seq::empty(), Seq::empty())
    } else {
        let before = newline_split(text.drop_last());
        if text.last() == '\n' {
            (before.0.push(before.1), Seq::empty())
        } else {
            (before.0, before.1.push(text.last()))
        }
    }
}

/// The lines of `text`, as `str::lines` gives them: a newline or `\r\n`
/// ends a line, and a last line without an ending still counts unless it
/// is empty.
pub open spec fn text_lines(text: Seq<char>) -> Seq<Seq<char>> {
    let split = newline_split(text);
    let ended = split.0.map_values(|l: Seq<char>| without_cr(l));
    if split.1.len() > 0 {
        ended.push(split.1)
    } else {
        ended
    }
}

/// How many backslashes end `line`.
pub open spec fn trailing_backslashes(line: Seq<char>) -> nat
    decreases line.len(),
{
    if line.len() > 0 && line.last() == '\\' {
        1 + trailing_backslashes(line.drop_last())
    } else {
        0
    }
}

/// Joins continued lines: a line that ends in an odd number of backslashes
/// continues on the next one, with that backslash removed and the next
/// line's leading whitespace dropped. The result holds the finished
/// logical lines and the one still pending.
pub open spec fn joined_lines(lines: Seq<Seq<char>>) -> (Seq<Seq<char>>, Seq<char>)
    decreases lines.len(),
{
    if lines.len() == 0 {
        (Seq::empty(), Seq::empty())
    } else {
        let before = joined_lines(lines.drop_last());
        let line = lines.last();
        let pending = before.1 + trim_start(line);
        if trailing_backslashes(line) % 2 == 1 {
            (before.0, if pending.len() > 0 { pending.drop_last() } else { pending })
        } else {
            (before.0.push(pending), Seq::empty())
        }
    }
}

/// The logical lines of a properties text.
pub open spec fn logical_lines(text: Seq<char>) -> Seq<Seq<char>> {
    let joined = joined_lines(text_lines(text));
    if joined.1.len() > 0 {
        joined.0.push(joined.1)
    } else {
        joined.0
    }
}

fn split_lines(text: &Vec<char>) -> (lines: Vec<Vec<char>>)
    ensures
        lines_view(lines@) == text_lines(text@),
{
    let mut done: Vec<Vec<char>> = Vec::new();
    let mut open: Vec<char> = Vec::new();
    let mut i: usize = 0;
    while i < text.len()
        invariant
            i <= text@.len(),
            lines_view(done@) == newline_split(text@.subrange(0, i as int)).0.map_values(
                |l: Seq<char>| without_cr(l),
            ),
            open@ == newline_split(text@.subrange(0, i as int)).1,
        decreases text@.len() - i,
    {
        let c = text[i];
        let ghost prefix = text@.subrange(0, i + 1);
        proof {
            assert(prefix.drop_last() =~= text@.subrange(0, i as int));
            assert(prefix.last() == c);
        }
        if c == '\n' {
            let ghost piece = open@;
            if open.len() > 0 && open[open.len() - 1] == '\r' {
                open.pop();
            }
            assert(open@ == without_cr(piece));
            let ghost done_before = lines_view(done@);
            let finished = open;
            done.push(finished);
            open = Vec::new();
            proof {
                let before = newline_split(text@.subrange(0, i as int));
                assert(lines_view(done@) =~= done_before.push(without_cr(piece)));
                assert(before.0.push(before.1).map_values(|l: Seq<char>| without_cr(l)) =~= before.0.map_values(
                    |l: Seq<char>| without_cr(l),
                ).push(without_cr(before.1)));
            }
        } else {
            open.push(c);
        }
        i = i + 1;
    }
    assert(text@.subrange(0, i as int) =~= text@);
    if open.len() > 0 {
        let last = open;
        done.push(last);
        proof {
            let split = newline_split(text@);
            assert(lines_view(done@) =~= split.0.map_values(|l: Seq<char>| without_cr(l)).push(split.1));
        }
    }
    done
}

fn count_trailing_backslashes(line: &Vec<char>) -> (n: usize)
    ensures
        n as nat == trailing_backslashes(line@),
{
    let mut k: usize = line.len();
    assert(line@.subrange(0, k as int) =~= line@);
    while k > 0 && line[k - 1] == '\\'
        invariant
            k <= line@.len(),
            trailing_backslashes(line@) == (line@.len() - k) + trailing_backslashes(line@.subrange(0, k as int)),
        decreases k,
    {
        proof {
            let s = line@.subrange(0, k as int);
            assert(s.drop_last() =~= line@.subrange(0, k - 1));
        }
        k = k - 1;
    }
    proof {
        let s = line@.subrange(0, k as int);
        if k > 0 {
            assert(s.last() == line@[k - 1]);
        }
        assert(line@.subrange(0, line@.len() as int) =~= line@);
    }
    line.len() - k
}

fn join_continuations(lines: &Vec<Vec<char>>) -> (logical: Vec<Vec<char>>)
    ensures
        ({
            let joined = joined_lines(lines_view(lines@));
            lines_view(logical@) == (if joined.1.len() > 0 { joined.0.push(joined.1) } else { joined.0 })
        }),
{
    let mut done: Vec<Vec<char>> = Vec::new();
    let mut pending: Vec<char> = Vec::new();
    let mut i: usize = 0;
    while i < lines.len()
        invariant
            i <= lines@.len(),
            (lines_view(done@), pending@) == joined_lines(lines_view(lines@).subrange(0, i as int)),
        decreases lines@.len() - i,
    {
        let line = &lines[i];
        let trailing = count_trailing_backslashes(line);
        let mut trimmed = trim_start_chars(line);
        proof {
            let prefix = lines_view(lines@).subrange(0, i + 1);
            assert(prefix.drop_last() =~= lines_view(lines@).subrange(0, i as int));
            assert(prefix.last() == line@);
        }
        pending.append(&mut trimmed);
        if trailing % 2 == 1 {
            if pending.len() > 0 {
                pending.pop();
                assert(pending@ =~= (joined_lines(lines_view(lines@).subrange(0, i as int)).1 + trim_start(line@)).drop_last());
            }
        } else {
            let finished = pending;
            done.push(finished);
            pending = Vec::new();
            proof {
                let before = joined_lines(lines_view(lines@).subrange(0, i as int));
                assert(lines_view(done@) =~= before.0.push(before.1 + trim_start(line@)));
            }
        }
        i = i + 1;
    }
    assert(lines_view(lines@).subrange(0, i as int) =~= lines_view(lines@));
    if pending.len() > 0 {
        let last = pending;
        let ghost before = lines_view(done@);
        done.push(last);
        assert(lines_view(done@) =~= before.push(last@));
    }
    done
}

/// Where the key of a property line ends: at the first `=`, `:` or
/// whitespace that no backslash escapes, or at the end of the line.
pub open spec fn split_scan(line: Seq<char>, i: int, escaped: bool) -> int
    decreases line.len() - i,
{
    if i < 0 || i >= line.len() {
        line.len() as int
    } else if escaped {
        split_scan(line, i + 1, false)
    } else if line[i] == '\\' {
        split_scan(line, i + 1, true)
    } else if line[i] == '=' || line[i] == ':' || is_space(line[i]) {
        i
    } else {
        split_scan(line, i + 1, false)
    }
}

pub open spec fn key_end(line: Seq<char>) -> int {
    split_scan(line, 0, false)
}

/// The index at which the key of a property line ends.
pub fn property_split(line: &Vec<char>) -> (k: usize)
    ensures
        k as int == key_end(line@),
        k <= line@.len(),
{
    let mut escaped = false;
    let mut i: usize = 0;
    while i < line.len()
        invariant
            i <= line@.len(),
            split_scan(line@, i as int, escaped) == key_end(line@),
        decreases line@.len() - i,
    {
        let c = line[i];
        if escaped {
            escaped = false;
        } else if c == '\\' {
            escaped = true;
        } else if c == '=' || c == ':' || is_whitespace(c) {
            return i;
        }
        i = i + 1;
    }
    i
}

/// Whether `c` may stand between a key and its value.
pub open spec fn is_separator(c: char) -> bool {
    is_space(c) || c == '=' || c == ':'
}

/// The text without the separators at its start.
pub open spec fn trim_separators(s: Seq<char>) -> Seq<char>
    decreases s.len(),
{
    if s.len() > 0 && is_separator(s[0]) {
        trim_separators(s.drop_first())
    } else {
        s
    }
}

fn trim_separator_chars(s: &Vec<char>) -> (out: Vec<char>)
    ensures
        out@ == trim_separators(s@),
{
    let mut i: usize = 0;
    assert(s@.subrange(0, s@.len() as int) =~= s@);
    while i < s.len() && (is_whitespace(s[i]) || s[i] == '=' || s[i] == ':')
        invariant
            i <= s@.len(),
            trim_separators(s@) == trim_separators(s@.subrange(i as int, s@.len() as int)),
        decreases s@.len() - i,
    {
        proof {
            let rest = s@.subrange(i as int, s@.len() as int);
            assert(rest.drop_first() =~= s@.subrange(i + 1, s@.len() as int));
        }
        i = i + 1;
    }
    proof {
        let rest = s@.subrange(i as int, s@.len() as int);
        if rest.len() > 0 {
            assert(rest[0] == s@[i as int]);
        }
    }
    slice_chars(s, i, s.len())
}

/// The value of one hexadecimal digit.
pub open spec fn hex_digit_value(c: char) -> Option<nat> {
    if '0' <= c && c <= '9' {
        Some(((c as int) - ('0' as int)) as nat)
    } else if 'a' <= c && c <= 'f' {
        Some(((c as int) - ('a' as int) + 10) as nat)
    } else if 'A' <= c && c <= 'F' {
        Some(((c as int) - ('A' as int) + 10) as nat)
    } else {
        None
    }
}

/// The value of a run of hexadecimal digits.
pub open spec fn hex_digits_value(s: Seq<char>) -> Option<nat>
    decreases s.len(),
{
    if s.len() == 0 {
        Some(0)
    } else {
        match (hex_digits_value(s.drop_last()), hex_digit_value(s.last())) {
            (Some(high), Some(d)) => Some(high * 16 + d),
            _ => None,
        }
    }
}

/// What `u32::from_str_radix(s, 16)` reads from at most four characters:
/// an optional `+`, then at least one hexadecimal digit.
pub open spec fn parse_hex(s: Seq<char>) -> Option<nat> {
    let body = if s.len() > 0 && s[0] == '+' { s.drop_first() } else { s };
    if body.len() == 0 {
        None
    } else {
        hex_digits_value(body)
    }
}

/// Whether `code` is a Unicode scalar value, a code that `char` can hold.
pub open spec fn is_scalar_value(code: nat) -> bool {
    code < 0xD800 || (0xE000 <= code && code <= 0x10FFFF)
}

pub open spec fn pow16(n: nat) -> nat
    decreases n,
{
    if n == 0 { 1 } else { 16 * pow16((n - 1) as nat) }
}

proof fn lemma_hex_bound(s: Seq<char>)
    requires
        hex_digits_value(s) is Some,
    ensures
        hex_digits_value(s)->0 < pow16(s.len()),
    decreases s.len(),
{
    if s.len() > 0 {
        lemma_hex_bound(s.drop_last());
        let high = hex_digits_value(s.drop_last())->0;
        let d = hex_digit_value(s.last())->0;
        let p = pow16((s.len() - 1) as nat);
        assert(high * 16 + d < p * 16) by (nonlinear_arith)
            requires
                high < p,
                d < 16,
        ;
    }
}

fn hex_value(s: &Vec<char>) -> (r: Option<u32>)
    requires
        s@.len() <= 4,
    ensures
        r matches Some(v) ==> parse_hex(s@) == Some(v as nat),
        r is None ==> parse_hex(s@) is None,
{
    let start: usize = if s.len() > 0 && s[0] == '+' { 1 } else { 0 };
    if start == s.len() {
        return None;
    }
    let ghost body = s@.subrange(start as int, s@.len() as int);
    proof {
        if start == 1 {
            assert(s@.drop_first() =~= body);
        } else {
            assert(body =~= s@);
        }
        assert(pow16(4) == 65536) by {
            reveal_with_fuel(pow16, 5);
        }
    }
    let mut value: u32 = 0;
    let mut i: usize = start;
    while i < s.len()
        invariant
            start <= i <= s@.len() <= 4,
            start == 0 || start == 1,
            start == 1 <==> (s@.len() > 0 && s@[0] == '+'),
            start == 1 ==> s@.drop_first() == body,
            start == 0 ==> s@ == body,
            body == s@.subrange(start as int, s@.len() as int),
            hex_digits_value(body.subrange(0, i - start)) == Some(value as nat),
            value < 65536,
            pow16(4) == 65536,
        decreases s@.len() - i,
    {
        let c = s[i];
        proof {
            let prefix = body.subrange(0, i - start + 1);
            assert(prefix.drop_last() =~= body.subrange(0, i - start));
            assert(prefix.last() == c);
        }
        let d: u32 = if '0' <= c && c <= '9' {
            c as u32 - '0' as u32
        } else if 'a' <= c && c <= 'f' {
            c as u32 - 'a' as u32 + 10
        } else if 'A' <= c && c <= 'F' {
            c as u32 - 'A' as u32 + 10
        } else {
            proof {
                let prefix = body.subrange(0, i - start + 1);
                assert(hex_digits_value(prefix) is None);
                lemma_hex_prefix(body, i - start + 1);
            }
            return None;
        };
        proof {
            let prefix = body.subrange(0, i - start + 1);
            assert(hex_digits_value(prefix) == Some((value * 16 + d) as nat));
            lemma_hex_bound(prefix);
            assert(pow16(prefix.len()) <= pow16(4)) by {
                lemma_pow16_grows(prefix.len(), 4);
            }
        }
        value = value * 16 + d;
        i = i + 1;
    }
    proof {
        assert(body.subrange(0, i - start) =~= body);
    }
    Some(value)
}

proof fn lemma_pow16_grows(a: nat, b: nat)
    requires
        a <= b,
    ensures
        pow16(a) <= pow16(b),
    decreases b,
{
    if a < b {
        lemma_pow16_grows(a, (b - 1) as nat);
    }
}

/// A run whose prefix holds a non-digit holds one too.
proof fn lemma_hex_prefix(s: Seq<char>, i: int)
    requires
        0 <= i <= s.len(),
        hex_digits_value(s.subrange(0, i)) is None,
    ensures
        hex_digits_value(s) is None,
    decreases s.len(),
{
    if i < s.len() {
        assert(s.drop_last().subrange(0, i) =~= s.subrange(0, i));
        lemma_hex_prefix(s.drop_last(), i);
    } else {
        assert(s.subrange(0, i) =~= s);
    }
}

/// `char::from_u32`: the character with code `code`, if `code` is a
/// Unicode scalar value.
#[verifier::external_body]
fn char_from_code(code: u32) -> (r: Option<char>)
    ensures
        r == (if is_scalar_value(code as nat) { Some(code as char) } else { None::<char> }),
{
    char::from_u32(code)
}

pub open spec fn prepend(c: char, r: Result<Seq<char>, Seq<char>>) -> Result<Seq<char>, Seq<char>> {
    match r {
        Ok(t) => Ok(seq![c] + t),
        Err(e) => Err(e),
    }
}

pub open spec fn prepend_all(p: Seq<char>, r: Result<Seq<char>, Seq<char>>) -> Result<Seq<char>, Seq<char>> {
    match r {
        Ok(t) => Ok(p + t),
        Err(e) => Err(e),
    }
}

/// Where the digits of a `\u` escape that starts at `i` end: four
/// characters on, or the end of the text.
pub open spec fn code_end(s: Seq<char>, i: int) -> int {
    if i + 6 <= s.len() { i + 6 } else { s.len() as int }
}

/// The text from position `i` on with its escapes resolved: `\t`, `\n`,
/// `\r`, `\uXXXX`, a backslash before any other character stands for
/// that character, and a backslash at the very end stands for itself.
pub open spec fn unescape_from(s: Seq<char>, i: int) -> Result<Seq<char>, Seq<char>>
    decreases s.len() - i,
{
    if i < 0 || i >= s.len() {
        Ok(Seq::empty())
    } else if s[i] != '\\' {
        prepend(s[i], unescape_from(s, i + 1))
    } else if i + 1 >= s.len() {
        Ok(seq!['\\'])
    } else {
        let c = s[i + 1];
        if c == 't' {
            prepend('\t', unescape_from(s, i + 2))
        } else if c == 'n' {
            prepend('\n', unescape_from(s, i + 2))
        } else if c == 'r' {
            prepend('\r', unescape_from(s, i + 2))
        } else if c == 'u' {
            match parse_hex(s.subrange(i + 2, code_end(s, i))) {
                None => Err("invalid unicode escape"@),
                Some(code) => if is_scalar_value(code) {
                    prepend(code as char, unescape_from(s, code_end(s, i)))
                } else {
                    Err("invalid unicode code point"@)
                },
            }
        } else {
            prepend(c, unescape_from(s, i + 2))
        }
    }
}

pub open spec fn unescaped(s: Seq<char>) -> Result<Seq<char>, Seq<char>> {
    unescape_from(s, 0)
}

proof fn lemma_prepend_step(p: Seq<char>, c: char, r: Result<Seq<char>, Seq<char>>)
    ensures
        prepend_all(p, prepend(c, r)) == prepend_all(p.push(c), r),
{
    if let Ok(t) = r {
        assert(p + (seq![c] + t) =~= p.push(c) + t);
    }
}

/// Resolves the escapes of a properties key or value.
fn unescape(s: &Vec<char>) -> (r: Result<String, ConnectionError>)
    ensures
        r matches Ok(t) ==> unescaped(s@) == Ok::<Seq<char>, Seq<char>>(t@),
        r matches Err(e) ==> e matches ConnectionError::Config(m) && unescaped(s@) == Err::<Seq<char>, Seq<char>>(m@),
{
    let mut out: Vec<char> = Vec::new();
    let mut i: usize = 0;
    while i < s.len()
        invariant
            i <= s@.len(),
            unescaped(s@) == prepend_all(out@, unescape_from(s@, i as int)),
        decreases s@.len() - i,
    {
        let c = s[i];
        if c != '\\' {
            proof {
                lemma_prepend_step(out@, c, unescape_from(s@, i + 1));
            }
            out.push(c);
            i = i + 1;
        } else if i + 1 >= s.len() {
            proof {
                lemma_prepend_step(out@, '\\', unescape_from(s@, i + 1));
            }
            out.push('\\');
            i = i + 1;
        } else {
            let next = s[i + 1];
            if next == 't' || next == 'n' || next == 'r' {
                let resolved = if next == 't' { '\t' } else if next == 'n' { '\n' } else { '\r' };
                proof {
                    lemma_prepend_step(out@, resolved, unescape_from(s@, i + 2));
                }
                out.push(resolved);
                i = i + 2;
            } else if next == 'u' {
                let end: usize = if s.len() - i >= 6 { i + 6 } else { s.len() };
                let digits = slice_chars(s, i + 2, end);
                match hex_value(&digits) {
                    None => {
                        return Err(config_error("invalid unicode escape"));
                    },
                    Some(code) => {
                        match char_from_code(code) {
                            None => {
                                return Err(config_error("invalid unicode code point"));
                            },
                            Some(decoded) => {
                                proof {
                                    lemma_prepend_step(out@, decoded, unescape_from(s@, end as int));
                                }
                                out.push(decoded);
                                i = end;
                            },
                        }
                    },
                }
            } else {
                proof {
                    lemma_prepend_step(out@, next, unescape_from(s@, i + 2));
                }
                out.push(next);
                i = i + 2;
            }
        }
    }
    assert(out@ + Seq::<char>::empty() =~= out@);
    Ok(string_from_chars(out.as_slice()))
}

/// Whether a logical line holds no property: blank, or a `#` or `!` comment.
pub open spec fn is_blank_or_comment(t: Seq<char>) -> bool {
    t.len() == 0 || t[0] == '#' || t[0] == '!'
}

/// The map after one more logical line.
pub open spec fn apply_line(
    acc: Result<Map<Seq<char>, Seq<char>>, Seq<char>>,
    line: Seq<char>,
) -> Result<Map<Seq<char>, Seq<char>>, Seq<char>> {
    match acc {
        Err(e) => Err(e),
        Ok(m) => {
            let t = trim_start(line);
            if is_blank_or_comment(t) {
                Ok(m)
            } else {
                let k = key_end(t);
                match unescaped(trim_end(t.subrange(0, k))) {
                    Err(e) => Err(e),
                    Ok(key) => match unescaped(trim_separators(t.subrange(k, t.len() as int))) {
                        Err(e) => Err(e),
                        Ok(value) => Ok(m.insert(key, value)),
                    },
                }
            }
        },
    }
}

pub open spec fn apply_lines(lines: Seq<Seq<char>>) -> Result<Map<Seq<char>, Seq<char>>, Seq<char>>
    decreases lines.len(),
{
    if lines.len() == 0 {
        Ok(Map::empty())
    } else {
        apply_line(apply_lines(lines.drop_last()), lines.last())
    }
}

/// The properties that a `.properties` text sets, or the message of the
/// first escape in it that cannot be resolved.
pub open spec fn properties_of(text: Seq<char>) -> Result<Map<Seq<char>, Seq<char>>, Seq<char>> {
    apply_lines(logical_lines(text))
}

proof fn lemma_error_sticks(lines: Seq<Seq<char>>, j: int, e: Seq<char>)
    requires
        0 <= j <= lines.len(),
        apply_lines(lines.subrange(0, j)) == Err::<Map<Seq<char>, Seq<char>>, Seq<char>>(e),
    ensures
        apply_lines(lines) == Err::<Map<Seq<char>, Seq<char>>, Seq<char>>(e),
    decreases lines.len(),
{
    if j < lines.len() {
        assert(lines.drop_last().subrange(0, j) =~= lines.subrange(0, j));
        lemma_error_sticks(lines.drop_last(), j, e);
    } else {
        assert(lines.subrange(0, j) =~= lines);
    }
}

/// Parses a `.properties` text: comments, blank lines, continuations,
/// `=`, `:` or whitespace between key and value, and escapes.
pub fn parse_properties(text: &str) -> (r: Result<PropertyMap, ConnectionError>)
    ensures
        r matches Ok(m) ==> properties_of(text@) == Ok::<Map<Seq<char>, Seq<char>>, Seq<char>>(m@),
        r matches Err(e) ==> e matches ConnectionError::Config(msg) && properties_of(text@) == Err::<
            Map<Seq<char>, Seq<char>>,
            Seq<char>,
        >(msg@),
{
    let chars = chars_of(text);
    let lines = split_lines(&chars);
    let logical = join_continuations(&lines);
    let ghost all = lines_view(logical@);
    assert(all == logical_lines(text@));
    let mut out = PropertyMap::new();
    let mut i: usize = 0;
    while i < logical.len()
        invariant
            i <= logical@.len(),
            all == lines_view(logical@),
            all == logical_lines(text@),
            apply_lines(all.subrange(0, i as int)) == Ok::<Map<Seq<char>, Seq<char>>, Seq<char>>(out@),
        decreases logical@.len() - i,
    {
        let ghost line = logical@[i as int]@;
        proof {
            let prefix = all.subrange(0, i + 1);
            assert(prefix.drop_last() =~= all.subrange(0, i as int));
            assert(prefix.last() == line);
        }
        let t = trim_start_chars(&logical[i]);
        if t.len() == 0 || t[0] == '#' || t[0] == '!' {
        } else {
            let k = property_split(&t);
            let key_part = trim_end_chars(&slice_chars(&t, 0, k));
            let value_part = trim_separator_chars(&slice_chars(&t, k, t.len()));
            let key = match unescape(&key_part) {
                Ok(key) => key,
                Err(e) => {
                    proof {
                        lemma_error_sticks(all, i + 1, e->Config_0@);
                    }
                    return Err(e);
                },
            };
            let value = match unescape(&value_part) {
                Ok(value) => value,
                Err(e) => {
                    proof {
                        lemma_error_sticks(all, i + 1, e->Config_0@);
                    }
                    return Err(e);
                },
            };
            out.insert(key, value);
        }
        i = i + 1;
    }
    assert(all.subrange(0, i as int) =~= all);
    Ok(out)
}

/// Where the JAAS option scanner stands.
pub enum JaasState {
    /// Between options.
    Between,
    /// Inside a key.
    Key(Seq<char>),
    /// After a key, before its `=`.
    AfterKey(Seq<char>),
    /// Inside a word that is no option (such as the login module's name).
    SkipWord,
    /// After `=`, before the value.
    ValueStart(Seq<char>),
    /// Inside a value: its key, its quote, whether a backslash was just
    /// read, and what it holds so far.
    Value(Seq<char>, Option<char>, bool, Seq<char>),
}

pub open spec fn value_char(
    key: Seq<char>,
    quote: Option<char>,
    escaped: bool,
    acc: Seq<char>,
    c: char,
    m: Map<Seq<char>, Seq<char>>,
) -> (JaasState, Map<Seq<char>, Seq<char>>) {
    if escaped {
        (JaasState::Value(key, quote, false, acc.push(c)), m)
    } else if c == '\\' {
        (JaasState::Value(key, quote, true, acc), m)
    } else if quote == Some(c) || (quote is None && is_space(c)) {
        (JaasState::Between, m.insert(key, acc))
    } else {
        (JaasState::Value(key, quote, false, acc.push(c)), m)
    }
}

/// One character of JAAS option text.
pub open spec fn jaas_step(
    st: (JaasState, Map<Seq<char>, Seq<char>>),
    c: char,
) -> (JaasState, Map<Seq<char>, Seq<char>>) {
    let m = st.1;
    match st.0 {
        JaasState::Between => if is_space(c) {
            (JaasState::Between, m)
        } else {
            (JaasState::Key(seq![c]), m)
        },
        JaasState::Key(k) => if c == '=' {
            (JaasState::ValueStart(k), m)
        } else if is_space(c) {
            (JaasState::AfterKey(k), m)
        } else {
            (JaasState::Key(k.push(c)), m)
        },
        JaasState::AfterKey(k) => if is_space(c) {
            (JaasState::AfterKey(k), m)
        } else if c == '=' {
            (JaasState::ValueStart(k), m)
        } else {
            (JaasState::SkipWord, m)
        },
        JaasState::SkipWord => if is_space(c) {
            (JaasState::Between, m)
        } else {
            (JaasState::SkipWord, m)
        },
        JaasState::ValueStart(k) => if is_space(c) {
            (JaasState::ValueStart(k), m)
        } else if c == '"' || c == '\'' {
            (JaasState::Value(k, Some(c), false, Seq::empty()), m)
        } else {
            value_char(k, None, false, Seq::empty(), c, m)
        },
        JaasState::Value(k, q, e, acc) => value_char(k, q, e, acc, c, m),
    }
}

pub open spec fn jaas_run(s: Seq<char>) -> (JaasState, Map<Seq<char>, Seq<char>>)
    decreases s.len(),
{
    if s.len() == 0 {
        (JaasState::Between, Map::empty())
    } else {
        jaas_step(jaas_run(s.drop_last()), s.last())
    }
}

/// At the end of the text, a value that was started is kept.
pub open spec fn jaas_finish(st: (JaasState, Map<Seq<char>, Seq<char>>)) -> Map<Seq<char>, Seq<char>> {
    match st.0 {
        JaasState::ValueStart(k) => st.1.insert(k, Seq::empty()),
        JaasState::Value(k, _, _, acc) => st.1.insert(k, acc),
        _ => st.1,
    }
}

pub open spec fn trim_end_semicolons(s: Seq<char>) -> Seq<char>
    decreases s.len(),
{
    if s.len() > 0 && s.last() == ';' {
        trim_end_semicolons(s.drop_last())
    } else {
        s
    }
}

/// The `key=value` options of a JAAS configuration line: the line's
/// trailing `;` are dropped, words without `=` are skipped, a value may be
/// quoted with `"` or `'` and a backslash makes the next character literal.
pub open spec fn jaas_options_of(value: Seq<char>) -> Map<Seq<char>, Seq<char>> {
    jaas_finish(jaas_run(trim_end_semicolons(value)))
}

#[derive(Clone, Copy)]
enum Cursor {
    Between,
    Key,
    AfterKey,
    SkipWord,
    ValueStart,
    Value,
}

spec fn cursor_state(
    cursor: Cursor,
    key: Seq<char>,
    quote: Option<char>,
    escaped: bool,
    acc: Seq<char>,
) -> JaasState {
    match cursor {
        Cursor::Between => JaasState::Between,
        Cursor::Key => JaasState::Key(key),
        Cursor::AfterKey => JaasState::AfterKey(key),
        Cursor::SkipWord => JaasState::SkipWord,
        Cursor::ValueStart => JaasState::ValueStart(key),
        Cursor::Value => JaasState::Value(key, quote, escaped, acc),
    }
}

/// Parses the options of a JAAS configuration line.
pub fn jaas_options(value: &str) -> (options: PropertyMap)
    ensures
        options@ == jaas_options_of(value@),
{
    let all = chars_of(value);
    let mut n: usize = all.len();
    assert(all@.subrange(0, n as int) =~= all@);
    while n > 0 && all[n - 1] == ';'
        invariant
            n <= all@.len(),
            trim_end_semicolons(all@) == trim_end_semicolons(all@.subrange(0, n as int)),
        decreases n,
    {
        proof {
            assert(all@.subrange(0, n as int).drop_last() =~= all@.subrange(0, n - 1));
        }
        n = n - 1;
    }
    let s = slice_chars(&all, 0, n);
    proof {
        if n > 0 {
            assert(s@.last() == all@[n - 1]);
        }
    }
    let ghost text = s@;
    let mut options = PropertyMap::new();
    let mut cursor = Cursor::Between;
    let mut key: Vec<char> = Vec::new();
    let mut quote: Option<char> = None;
    let mut escaped = false;
    let mut acc: Vec<char> = Vec::new();
    let mut i: usize = 0;
    while i < s.len()
        invariant
            i <= s@.len(),
            text == s@,
            (cursor_state(cursor, key@, quote, escaped, acc@), options@) == jaas_run(text.subrange(0, i as int)),
        decreases s@.len() - i,
    {
        let c = s[i];
        proof {
            let prefix = text.subrange(0, i + 1);
            assert(prefix.drop_last() =~= text.subrange(0, i as int));
            assert(prefix.last() == c);
        }
        let space = is_whitespace(c);
        match cursor {
            Cursor::Between => {
                if !space {
                    key = Vec::new();
                    key.push(c);
                    assert(key@ =~= seq![c]);
                    cursor = Cursor::Key;
                }
            },
            Cursor::Key => {
                if c == '=' {
                    cursor = Cursor::ValueStart;
                } else if space {
                    cursor = Cursor::AfterKey;
                } else {
                    key.push(c);
                }
            },
            Cursor::AfterKey => {
                if space {
                } else if c == '=' {
                    cursor = Cursor::ValueStart;
                } else {
                    cursor = Cursor::SkipWord;
                }
            },
            Cursor::SkipWord => {
                if space {
                    cursor = Cursor::Between;
                }
            },
            Cursor::ValueStart => {
                if space {
                } else if c == '"' || c == '\'' {
                    quote = Some(c);
                    escaped = false;
                    acc = Vec::new();
                    cursor = Cursor::Value;
                } else {
                    quote = None;
                    escaped = false;
                    acc = Vec::new();
                    cursor = Cursor::Value;
                    take_value_char(&mut cursor, &key, quote, &mut escaped, &mut acc, &mut options, c);
                }
            },
            Cursor::Value => {
                take_value_char(&mut cursor, &key, quote, &mut escaped, &mut acc, &mut options, c);
            },
        }
        i = i + 1;
    }
    assert(text.subrange(0, i as int) =~= text);
    match cursor {
        Cursor::ValueStart => {
            options.insert(string_from_chars(key.as_slice()), String::new());
        },
        Cursor::Value => {
            options.insert(string_from_chars(key.as_slice()), string_from_chars(acc.as_slice()));
        },
        _ => {},
    }
    options
}

fn take_value_char(
    cursor: &mut Cursor,
    key: &Vec<char>,
    quote: Option<char>,
    escaped: &mut bool,
    acc: &mut Vec<char>,
    options: &mut PropertyMap,
    c: char,
)
    ensures
        ({
            let next = value_char(key@, quote, *old(escaped), old(acc)@, c, old(options)@);
            &&& cursor_state(*final(cursor), key@, quote, *final(escaped), final(acc)@) == next.0
            &&& final(options)@ == next.1
        }),
{
    if *escaped {
        acc.push(c);
        *escaped = false;
        *cursor = Cursor::Value;
    } else if c == '\\' {
        *escaped = true;
        *cursor = Cursor::Value;
    } else if quote == Some(c) || (quote.is_none() && is_whitespace(c)) {
        options.insert(string_from_chars(key.as_slice()), string_from_chars(acc.as_slice()));
        *cursor = Cursor::Between;
    } else {
        acc.push(c);
        *cursor = Cursor::Value;
    }
}

/// The value of `key`, which must be present.
pub fn required_from(values: &PropertyMap, key: &str) -> (r: Result<String, ConnectionError>)
    ensures
        r is Ok <==> values@.contains_key(key@),
        r matches Ok(v) ==> v@ == values@[key@],
        r matches Err(e) ==> e matches ConnectionError::Config(m) && m@ == "missing "@ + key@,
{
    match values.get(key) {
        Some(v) => Ok(v),
        None => {
            let mut m = String::new();
            push_str(&mut m, "missing ");
            push_str(&mut m, key);
            Err(ConnectionError::Config(m))
        },
    }
}

/// The value of a property that must be set.
pub fn required(properties: &PropertyMap, key: &str) -> (r: Result<String, ConnectionError>)
    ensures
        r is Ok <==> properties@.contains_key(key@),
        r matches Ok(v) ==> v@ == properties@[key@],
        r matches Err(e) ==> e matches ConnectionError::Config(m) && m@ == "missing "@ + key@,
{
    required_from(properties, key)
}

/// The transport a listener speaks.
#[derive(Debug, Clone, Copy, PartialEq, Eq, Structural)]
pub enum ListenerProtocol {
    Plaintext,
    Ssl,
    SaslPlaintext,
    SaslSsl,
}

impl ListenerProtocol {
    pub open spec fn spec_requires_tls(self) -> bool {
        self is Ssl || self is SaslSsl
    }

    pub open spec fn spec_requires_sasl(self) -> bool {
        self is SaslPlaintext || self is SaslSsl
    }

    /// Whether the protocol runs over TLS.
    pub fn requires_tls(self) -> (b: bool)
        ensures
            b == self.spec_requires_tls(),
    {
        match self {
            ListenerProtocol::Ssl | ListenerProtocol::SaslSsl => true,
            _ => false,
        }
    }

    /// Whether the protocol authenticates with SASL.
    pub fn requires_sasl(self) -> (b: bool)
        ensures
            b == self.spec_requires_sasl(),
    {
        match self {
            ListenerProtocol::SaslPlaintext | ListenerProtocol::SaslSsl => true,
            _ => false,
        }
    }
}

/// The SCRAM hash.
#[derive(Debug, Clone, Copy, PartialEq, Eq, Structural)]
pub enum ScramMechanism {
    ScramSha256,
    ScramSha512,
}

/// TLS settings: PEM trust roots, the name the server must present, and a
/// PEM certificate and key for the client.
pub struct TlsSettings {
    pub trust_roots_pem: Option<String>,
    pub server_name: String,
    pub client_identity: Option<(String, String)>,
}

/// The SASL credentials of a connection.
pub enum SaslSettings {
    Plain { username: String, password: String },
    Scram { mechanism: ScramMechanism, username: String, password: String },
    Gssapi { keytab_path: String, client_principal: String, service_name: String, kdc_url: String },
    OAuthBearer { token_path: String },
}

/// The security settings of a connection.
pub struct SecuritySettings {
    pub protocol: ListenerProtocol,
    pub tls: Option<TlsSettings>,
    pub sasl: Option<SaslSettings>,
    pub sasl_host: Option<String>,
}

pub open spec fn lookup(m: Map<Seq<char>, Seq<char>>, k: Seq<char>) -> Option<Seq<char>> {
    if m.contains_key(k) {
        Some(m[k])
    } else {
        None
    }
}

pub open spec fn opt_view(o: Option<String>) -> Option<Seq<char>> {
    match o {
        Some(s) => Some(s@),
        None => None,
    }
}

/// The protocol a `security.protocol` value names.
pub open spec fn protocol_named(name: Seq<char>) -> Option<ListenerProtocol> {
    if name == "PLAINTEXT"@ {
        Some(ListenerProtocol::Plaintext)
    } else if name == "SSL"@ {
        Some(ListenerProtocol::Ssl)
    } else if name == "SASL_PLAINTEXT"@ {
        Some(ListenerProtocol::SaslPlaintext)
    } else if name == "SASL_SSL"@ {
        Some(ListenerProtocol::SaslSsl)
    } else {
        None
    }
}

/// The `security.protocol` value, `PLAINTEXT` when it is not set.
pub open spec fn protocol_name(m: Map<Seq<char>, Seq<char>>) -> Seq<char> {
    match lookup(m, "security.protocol"@) {
        Some(n) => n,
        None => "PLAINTEXT"@,
    }
}

pub open spec fn pem_error(m: Map<Seq<char>, Seq<char>>, key: Seq<char>) -> Option<Seq<char>> {
    match lookup(m, key) {
        Some(kind) => if kind != "PEM"@ {
            Some(key + "="@ + kind + " is unsupported; expected PEM"@)
        } else {
            None
        },
        None => None,
    }
}

/// What is wrong with the TLS properties, if anything: a store that is not
/// PEM, or a client certificate without its key (or the reverse).
pub open spec fn tls_error(m: Map<Seq<char>, Seq<char>>) -> Option<Seq<char>> {
    if pem_error(m, "ssl.truststore.type"@) is Some {
        pem_error(m, "ssl.truststore.type"@)
    } else if pem_error(m, "ssl.keystore.type"@) is Some {
        pem_error(m, "ssl.keystore.type"@)
    } else if m.contains_key("ssl.keystore.location"@) != m.contains_key("ssl.key.location"@) {
        Some("ssl.keystore.location and ssl.key.location must be provided together"@)
    } else {
        None
    }
}

/// The TLS settings that the properties describe, for a connection to `host`.
pub open spec fn tls_matches(t: TlsSettings, m: Map<Seq<char>, Seq<char>>, host: Seq<char>) -> bool {
    &&& opt_view(t.trust_roots_pem) == lookup(m, "ssl.truststore.location"@)
    &&& t.server_name@ == (match lookup(m, "ssl.server.name"@) {
        Some(n) => n,
        None => host,
    })
    &&& match t.client_identity {
        Some(identity) => lookup(m, "ssl.keystore.location"@) == Some(identity.0@) && lookup(
            m,
            "ssl.key.location"@,
        ) == Some(identity.1@),
        None => !m.contains_key("ssl.keystore.location"@) && !m.contains_key("ssl.key.location"@),
    }
}

/// The options of `sasl.jaas.config`, none when it is not set.
pub open spec fn jaas_of(m: Map<Seq<char>, Seq<char>>) -> Map<Seq<char>, Seq<char>> {
    match lookup(m, "sasl.jaas.config"@) {
        Some(v) => jaas_options_of(v),
        None => Map::empty(),
    }
}

pub open spec fn missing(key: Seq<char>) -> Seq<char> {
    "missing "@ + key
}

/// What is wrong with the SASL properties, if anything.
pub open spec fn sasl_error(m: Map<Seq<char>, Seq<char>>) -> Option<Seq<char>> {
    match lookup(m, "sasl.mechanism"@) {
        None => Some(missing("sasl.mechanism"@)),
        Some(mech) => {
            let jaas = jaas_of(m);
            if mech == "PLAIN"@ || mech == "SCRAM-SHA-256"@ || mech == "SCRAM-SHA-512"@ {
                if !jaas.contains_key("username"@) {
                    Some(missing("username"@))
                } else if !jaas.contains_key("password"@) {
                    Some(missing("password"@))
                } else {
                    None
                }
            } else if mech == "GSSAPI"@ {
                if !jaas.contains_key("keyTab"@) {
                    Some(missing("keyTab"@))
                } else if !jaas.contains_key("principal"@) {
                    Some(missing("principal"@))
                } else if !m.contains_key("sasl.kerberos.kdc"@) {
                    Some(missing("sasl.kerberos.kdc"@))
                } else {
                    None
                }
            } else if mech == "OAUTHBEARER"@ {
                if m.contains_key("sasl.oauthbearer.token.endpoint.url"@) {
                    Some("sasl.oauthbearer.token.endpoint.url needs client-rs token-endpoint support"@)
                } else if !m.contains_key("sasl.oauthbearer.token.file"@) {
                    Some(missing("sasl.oauthbearer.token.file"@))
                } else {
                    None
                }
            } else {
                Some("unsupported sasl.mechanism "@ + mech)
            }
        },
    }
}

/// The SASL credentials that the properties describe.
pub open spec fn sasl_matches(s: SaslSettings, m: Map<Seq<char>, Seq<char>>) -> bool {
    let mech = m["sasl.mechanism"@];
    let jaas = jaas_of(m);
    match s {
        SaslSettings::Plain { username, password } => mech == "PLAIN"@ && username@ == jaas["username"@]
            && password@ == jaas["password"@],
        SaslSettings::Scram { mechanism, username, password } => ((mech == "SCRAM-SHA-256"@ && mechanism
            == ScramMechanism::ScramSha256) || (mech == "SCRAM-SHA-512"@ && mechanism
            == ScramMechanism::ScramSha512)) && username@ == jaas["username"@] && password@
            == jaas["password"@],
        SaslSettings::Gssapi { keytab_path, client_principal, service_name, kdc_url } => mech
            == "GSSAPI"@ && keytab_path@ == jaas["keyTab"@] && client_principal@ == jaas["principal"@]
            && service_name@ == (match lookup(m, "sasl.kerberos.service.name"@) {
            Some(n) => n,
            None => "kafka"@,
        }) && kdc_url@ == m["sasl.kerberos.kdc"@],
        SaslSettings::OAuthBearer { token_path } => mech == "OAUTHBEARER"@ && token_path@
            == m["sasl.oauthbearer.token.file"@],
    }
}

/// The client authenticates with the mechanism that `sasl.mechanism`
/// names: `PLAIN` gives plain credentials, `SCRAM-SHA-256` SCRAM with the
/// SHA-256 hash and `SCRAM-SHA-512` SCRAM with the SHA-512 hash (so the two
/// SCRAM names never give the same hash), `GSSAPI` Kerberos and
/// `OAUTHBEARER` a token; the credentials come from the JAAS options.
pub proof fn law_sasl_mechanism_is_the_named_one(s: SaslSettings, m: Map<Seq<char>, Seq<char>>)
    requires
        sasl_matches(s, m),
    ensures
        m["sasl.mechanism"@] == "PLAIN"@ <==> s is Plain,
        m["sasl.mechanism"@] == "SCRAM-SHA-256"@ <==> (s matches SaslSettings::Scram { mechanism, .. }
            && mechanism == ScramMechanism::ScramSha256),
        m["sasl.mechanism"@] == "SCRAM-SHA-512"@ <==> (s matches SaslSettings::Scram { mechanism, .. }
            && mechanism == ScramMechanism::ScramSha512),
        m["sasl.mechanism"@] == "GSSAPI"@ <==> s is Gssapi,
        m["sasl.mechanism"@] == "OAUTHBEARER"@ <==> s is OAuthBearer,
        s matches SaslSettings::Scram { username, password, .. } ==> username@ == jaas_of(m)["username"@]
            && password@ == jaas_of(m)["password"@],
{
    reveal_strlit("PLAIN");
    reveal_strlit("SCRAM-SHA-256");
    reveal_strlit("SCRAM-SHA-512");
    reveal_strlit("GSSAPI");
    reveal_strlit("OAUTHBEARER");
    assert("SCRAM-SHA-256"@ != "SCRAM-SHA-512"@) by {
        assert("SCRAM-SHA-256"@[10] != "SCRAM-SHA-512"@[10]);
    }
    assert("PLAIN"@.len() != "SCRAM-SHA-256"@.len());
    assert("PLAIN"@.len() != "SCRAM-SHA-512"@.len());
    assert("GSSAPI"@.len() != "PLAIN"@.len() && "GSSAPI"@.len() != "SCRAM-SHA-256"@.len());
    assert("GSSAPI"@.len() != "SCRAM-SHA-512"@.len() && "GSSAPI"@.len() != "OAUTHBEARER"@.len());
    assert("OAUTHBEARER"@.len() != "PLAIN"@.len() && "OAUTHBEARER"@.len() != "SCRAM-SHA-256"@.len());
    assert("OAUTHBEARER"@.len() != "SCRAM-SHA-512"@.len());
}

/// What is wrong with the security properties, if anything; the first
/// problem in the order the properties are read.
pub open spec fn security_error(m: Map<Seq<char>, Seq<char>>) -> Option<Seq<char>> {
    match protocol_named(protocol_name(m)) {
        None => Some("unsupported security.protocol "@ + protocol_name(m)),
        Some(p) => if p == ListenerProtocol::Plaintext && !m.contains_key("sasl.mechanism"@) {
            None
        } else if p.spec_requires_tls() && tls_error(m) is Some {
            tls_error(m)
        } else if p.spec_requires_sasl() {
            sasl_error(m)
        } else {
            None
        },
    }
}

/// Whether the properties ask for no security settings at all.
pub open spec fn is_plain_connection(m: Map<Seq<char>, Seq<char>>) -> bool {
    protocol_named(protocol_name(m)) == Some(ListenerProtocol::Plaintext) && !m.contains_key(
        "sasl.mechanism"@,
    )
}

/// The security settings that the properties describe.
pub open spec fn security_matches(s: SecuritySettings, m: Map<Seq<char>, Seq<char>>, host: Seq<char>) -> bool {
    &&& protocol_named(protocol_name(m)) == Some(s.protocol)
    &&& (s.tls is Some <==> s.protocol.spec_requires_tls())
    &&& (s.tls matches Some(t) ==> tls_matches(t, m, host))
    &&& (s.sasl is Some <==> s.protocol.spec_requires_sasl())
    &&& (s.sasl matches Some(x) ==> sasl_matches(x, m))
    &&& opt_view(s.sasl_host) == lookup(m, "sasl.kerberos.service.host"@)
}

fn text_error(prefix: &str, value: &str) -> (e: ConnectionError)
    ensures
        e matches ConnectionError::Config(m) && m@ == prefix@ + value@,
{
    let mut m = String::new();
    push_str(&mut m, prefix);
    push_str(&mut m, value);
    ConnectionError::Config(m)
}

fn pem_check(properties: &PropertyMap, key: &str) -> (r: Result<(), ConnectionError>)
    ensures
        r is Ok <==> pem_error(properties@, key@) is None,
        r matches Err(e) ==> e matches ConnectionError::Config(m) && pem_error(properties@, key@) == Some(m@),
{
    match properties.get(key) {
        Some(kind) => {
            if !str_equal(kind.as_str(), "PEM") {
                let mut m = String::new();
                push_str(&mut m, key);
                push_str(&mut m, "=");
                push_str(&mut m, kind.as_str());
                push_str(&mut m, " is unsupported; expected PEM");
                return Err(ConnectionError::Config(m));
            }
            Ok(())
        },
        None => Ok(()),
    }
}

fn tls_settings(properties: &PropertyMap, bootstrap_host: &str) -> (r: Result<TlsSettings, ConnectionError>)
    ensures
        r is Ok <==> tls_error(properties@) is None,
        r matches Ok(t) ==> tls_matches(t, properties@, bootstrap_host@),
        r matches Err(e) ==> e matches ConnectionError::Config(m) && tls_error(properties@) == Some(m@),
{
    pem_check(properties, "ssl.truststore.type")?;
    pem_check(properties, "ssl.keystore.type")?;
    let identity = match (properties.get("ssl.keystore.location"), properties.get("ssl.key.location")) {
        (Some(cert), Some(key)) => Some((cert, key)),
        (None, None) => None,
        _ => {
            return Err(config_error("ssl.keystore.location and ssl.key.location must be provided together"));
        },
    };
    let server_name = match properties.get("ssl.server.name") {
        Some(name) => name,
        None => bootstrap_host.to_owned(),
    };
    Ok(TlsSettings { trust_roots_pem: properties.get("ssl.truststore.location"), server_name, client_identity: identity })
}

fn jaas_config(properties: &PropertyMap) -> (jaas: PropertyMap)
    ensures
        jaas@ == jaas_of(properties@),
{
    match properties.get("sasl.jaas.config") {
        Some(value) => jaas_options(value.as_str()),
        None => PropertyMap::new(),
    }
}

/// The SASL credentials that the properties describe.
pub fn sasl_credentials(properties: &PropertyMap) -> (r: Result<SaslSettings, ConnectionError>)
    ensures
        r is Ok <==> sasl_error(properties@) is None,
        r matches Ok(s) ==> sasl_matches(s, properties@),
        r matches Err(e) ==> e matches ConnectionError::Config(m) && sasl_error(properties@) == Some(m@),
{
    let mechanism = required(properties, "sasl.mechanism")?;
    let jaas = jaas_config(properties);
    let m = mechanism.as_str();
    if str_equal(m, "PLAIN") {
        let username = required_from(&jaas, "username")?;
        let password = Secret(required_from(&jaas, "password")?).0;
        Ok(SaslSettings::Plain { username, password })
    } else if str_equal(m, "SCRAM-SHA-256") || str_equal(m, "SCRAM-SHA-512") {
        let hash = if str_equal(m, "SCRAM-SHA-256") {
            ScramMechanism::ScramSha256
        } else {
            ScramMechanism::ScramSha512
        };
        let username = required_from(&jaas, "username")?;
        let password = Secret(required_from(&jaas, "password")?).0;
        Ok(SaslSettings::Scram { mechanism: hash, username, password })
    } else if str_equal(m, "GSSAPI") {
        let keytab_path = required_from(&jaas, "keyTab")?;
        let client_principal = required_from(&jaas, "principal")?;
        let service_name = match properties.get("sasl.kerberos.service.name") {
            Some(name) => name,
            None => "kafka".to_owned(),
        };
        let kdc_url = required(properties, "sasl.kerberos.kdc")?;
        Ok(SaslSettings::Gssapi { keytab_path, client_principal, service_name, kdc_url })
    } else if str_equal(m, "OAUTHBEARER") {
        if properties.contains_key("sasl.oauthbearer.token.endpoint.url") {
            return Err(config_error("sasl.oauthbearer.token.endpoint.url needs client-rs token-endpoint support"));
        }
        let token_path = required(properties, "sasl.oauthbearer.token.file")?;
        Ok(SaslSettings::OAuthBearer { token_path })
    } else {
        Err(text_error("unsupported sasl.mechanism ", m))
    }
}

/// The security settings that the properties describe, for a connection
/// to `bootstrap_host`; `None` for a plain connection.
pub fn security(properties: &PropertyMap, bootstrap_host: &str) -> (r: Result<Option<SecuritySettings>, ConnectionError>)
    ensures
        r is Ok <==> security_error(properties@) is None,
        r matches Err(e) ==> e matches ConnectionError::Config(m) && security_error(properties@) == Some(m@),
        r matches Ok(None) ==> is_plain_connection(properties@),
        r matches Ok(Some(s)) ==> !is_plain_connection(properties@) && security_matches(s, properties@, bootstrap_host@),
{
    let name = match properties.get("security.protocol") {
        Some(value) => value,
        None => "PLAINTEXT".to_owned(),
    };
    let n = name.as_str();
    let protocol = if str_equal(n, "PLAINTEXT") {
        ListenerProtocol::Plaintext
    } else if str_equal(n, "SSL") {
        ListenerProtocol::Ssl
    } else if str_equal(n, "SASL_PLAINTEXT") {
        ListenerProtocol::SaslPlaintext
    } else if str_equal(n, "SASL_SSL") {
        ListenerProtocol::SaslSsl
    } else {
        return Err(text_error("unsupported security.protocol ", n));
    };
    if protocol == ListenerProtocol::Plaintext && !properties.contains_key("sasl.mechanism") {
        return Ok(None);
    }
    let tls = if protocol.requires_tls() {
        Some(tls_settings(properties, bootstrap_host)?)
    } else {
        None
    };
    let sasl = if protocol.requires_sasl() {
        Some(sasl_credentials(properties)?)
    } else {
        None
    };
    Ok(Some(SecuritySettings { protocol, tls, sasl, sasl_host: properties.get("sasl.kerberos.service.host") }))
}

/// A value that is never shown: its `redacted` text stands in for it.
pub struct Secret<T>(pub T);

impl<T> Secret<T> {
    /// What is shown in place of the value.
    pub fn redacted(&self) -> (s: &'static str)
        ensures
            s@ == "[redacted]"@,
    {
        "[redacted]"
    }
}

/// The host part of a `host:port` address; a bracketed IPv6 address loses
/// its brackets.
pub open spec fn host_of(address: Seq<char>) -> Seq<char> {
    if address.len() > 0 && address[0] == '[' {
        let bracketed = address.drop_first();
        match first_index_of(bracketed, ']') {
            Some(i) => bracketed.subrange(0, i),
            None => bracketed,
        }
    } else {
        match last_index_of(address, ':') {
            Some(i) => address.subrange(0, i),
            None => address,
        }
    }
}

/// The host that TLS checks the broker's name against: the host of the
/// first broker address, else of the first controller address, else
/// `localhost`.
pub open spec fn bootstrap_host_of(servers: Seq<String>, controllers: Seq<String>) -> Seq<char> {
    if servers.len() > 0 {
        host_of(servers[0]@)
    } else if controllers.len() > 0 {
        host_of(controllers[0]@)
    } else {
        "localhost"@
    }
}

fn address_host(address: &String) -> (host: String)
    ensures
        host@ == host_of(address@),
{
    let chars = chars_of(address.as_str());
    if chars.len() > 0 && chars[0] == '[' {
        let bracketed = slice_chars(&chars, 1, chars.len());
        assert(bracketed@ =~= chars@.drop_first());
        match find_char(&bracketed, ']') {
            Some(i) => string_from_chars(slice_chars(&bracketed, 0, i).as_slice()),
            None => string_from_chars(bracketed.as_slice()),
        }
    } else {
        match rfind_char(&chars, ':') {
            Some(i) => string_from_chars(slice_chars(&chars, 0, i).as_slice()),
            None => string_from_chars(chars.as_slice()),
        }
    }
}

/// The host that TLS checks the broker's name against.
pub fn bootstrap_host(servers: &Vec<String>, controllers: &Vec<String>) -> (host: String)
    ensures
        host@ == bootstrap_host_of(servers@, controllers@),
{
    if servers.len() > 0 {
        address_host(&servers[0])
    } else if controllers.len() > 0 {
        address_host(&controllers[0])
    } else {
        "localhost".to_owned()
    }
}

/// Which addresses a command connects to.
#[derive(Debug, Clone, Copy, PartialEq, Eq, Structural)]
pub enum BootstrapTarget {
    Brokers,
    Controllers,
}

/// Controllers when any controller address is given, else brokers; an
/// error when neither is.
pub fn bootstrap_target(servers: &Vec<String>, controllers: &Vec<String>) -> (r: Result<BootstrapTarget, ConnectionError>)
    ensures
        controllers@.len() > 0 ==> r matches Ok(BootstrapTarget::Controllers),
        controllers@.len() == 0 && servers@.len() > 0 ==> r matches Ok(BootstrapTarget::Brokers),
        controllers@.len() == 0 && servers@.len() == 0 ==> r matches Err(ConnectionError::MissingBootstrap),
{
    if controllers.len() == 0 {
        if servers.len() == 0 {
            return Err(ConnectionError::MissingBootstrap);
        }
        Ok(BootstrapTarget::Brokers)
    } else {
        Ok(BootstrapTarget::Controllers)
    }
}

/// What a connection is opened with.
pub struct ConnectionSettings {
    pub client_id: String,
    pub request_timeout_ms: i64,
    pub security: Option<SecuritySettings>,
}

pub open spec fn default_client_id(version: Seq<char>, command: Seq<char>) -> Seq<char> {
    "krabka-cli/"@ + version + " "@ + command
}

/// The client id: the flag, else `client.id`, else one that names the CLI
/// and the command.
pub open spec fn client_id_of(
    flag: Option<String>,
    m: Map<Seq<char>, Seq<char>>,
    version: Seq<char>,
    command: Seq<char>,
) -> Seq<char> {
    match flag {
        Some(c) => c@,
        None => match lookup(m, "client.id"@) {
            Some(c) => c,
            None => default_client_id(version, command),
        },
    }
}

/// The request timeout in milliseconds: the flag, else
/// `request.timeout.ms`, else 30 seconds.
pub open spec fn timeout_of(flag: Option<i64>, m: Map<Seq<char>, Seq<char>>) -> Result<int, Seq<char>> {
    match flag {
        Some(v) => Ok(v as int),
        None => match lookup(m, "request.timeout.ms"@) {
            None => Ok(30000),
            Some(t) => match parsed_integer(t, i64::MIN as int, i64::MAX as int) {
                Some(v) => Ok(v),
                None => Err("request.timeout.ms must be an integer"@),
            },
        },
    }
}

/// What is wrong with the connection settings, if anything.
pub open spec fn settings_error(flag: Option<i64>, m: Map<Seq<char>, Seq<char>>) -> Option<Seq<char>> {
    match timeout_of(flag, m) {
        Err(e) => Some(e),
        Ok(t) => if t <= 0 {
            Some("request.timeout.ms must be positive"@)
        } else {
            security_error(m)
        },
    }
}

/// Builds the connection settings from the flags and the command-config
/// properties.
pub fn connection_settings(
    client_id: Option<String>,
    request_timeout_ms: Option<i64>,
    properties: &PropertyMap,
    bootstrap_host: &str,
    command: &str,
    version: &str,
) -> (r: Result<ConnectionSettings, ConnectionError>)
    ensures
        r is Ok <==> settings_error(request_timeout_ms, properties@) is None,
        r matches Err(e) ==> e matches ConnectionError::Config(m) && settings_error(request_timeout_ms, properties@) == Some(m@),
        r matches Ok(s) ==> {
            &&& s.client_id@ == client_id_of(client_id, properties@, version@, command@)
            &&& timeout_of(request_timeout_ms, properties@) == Ok::<int, Seq<char>>(s.request_timeout_ms as int)
            &&& (s.security is None <==> is_plain_connection(properties@))
            &&& (s.security matches Some(x) ==> security_matches(x, properties@, bootstrap_host@))
        },
{
    let id = match client_id {
        Some(c) => c,
        None => match properties.get("client.id") {
            Some(c) => c,
            None => {
                let mut c = String::new();
                push_str(&mut c, "krabka-cli/");
                push_str(&mut c, version);
                push_str(&mut c, " ");
                push_str(&mut c, command);
                c
            },
        },
    };
    let timeout = match request_timeout_ms {
        Some(v) => v,
        None => match properties.get("request.timeout.ms") {
            None => 30000,
            Some(text) => {
                let chars = chars_of(text.as_str());
                match parse_integer(&chars, i64::MIN, i64::MAX) {
                    Some(v) => v,
                    None => {
                        return Err(config_error("request.timeout.ms must be an integer"));
                    },
                }
            },
        },
    };
    if timeout <= 0 {
        return Err(config_error("request.timeout.ms must be positive"));
    }
    let security = security(properties, bootstrap_host)?;
    Ok(ConnectionSettings { client_id: id, request_timeout_ms: timeout, security })
}

/// A flag on the command line wins over the command-config file: the
/// client id and the request timeout that flags give are the ones used,
/// whatever the file says.
pub proof fn law_flags_override_command_config(
    client_id: String,
    timeout: i64,
    m: Map<Seq<char>, Seq<char>>,
    version: Seq<char>,
    command: Seq<char>,
)
    ensures
        client_id_of(Some(client_id), m, version, command) == client_id@,
        timeout_of(Some(timeout), m) == Ok::<int, Seq<char>>(timeout as int),
{
}

proof fn lemma_unescape_without_backslash(s: Seq<char>, i: int)
    requires
        0 <= i <= s.len(),
        forall|j: int| 0 <= j < s.len() ==> s[j] != '\\',
    ensures
        unescape_from(s, i) == Ok::<Seq<char>, Seq<char>>(s.subrange(i, s.len() as int)),
    decreases s.len() - i,
{
    if i < s.len() {
        lemma_unescape_without_backslash(s, i + 1);
        assert(seq![s[i]] + s.subrange(i + 1, s.len() as int) =~= s.subrange(i, s.len() as int));
    } else {
        assert(s.subrange(i, s.len() as int) =~= Seq::<char>::empty());
    }
}

/// A key or value without a backslash is taken as it is written: only a
/// backslash starts an escape, so only a backslash can make it fail.
pub proof fn law_text_without_backslash_is_literal(s: Seq<char>)
    requires
        forall|j: int| 0 <= j < s.len() ==> s[j] != '\\',
    ensures
        unescaped(s) == Ok::<Seq<char>, Seq<char>>(s),
{
    lemma_unescape_without_backslash(s, 0);
    assert(s.subrange(0, s.len() as int) =~= s);
}


proof fn lemma_newline_split_of_one_line(c: Seq<char>)
    requires
        forall|i: int| 0 <= i < c.len() ==> c[i] != '\n',
    ensures
        newline_split(c) == (Seq::<Seq<char>>::empty(), c),
    decreases c.len(),
{
    if c.len() > 0 {
        lemma_newline_split_of_one_line(c.drop_last());
        assert(c.drop_last().push(c.last()) =~= c);
    }
}

proof fn lemma_newline_split_append(p: Seq<char>, t: Seq<char>)
    requires
        newline_split(p).1.len() == 0,
    ensures
        newline_split(p + t) == (newline_split(p).0 + newline_split(t).0, newline_split(t).1),
    decreases t.len(),
{
    if t.len() == 0 {
        assert(p + t =~= p);
        assert(newline_split(p).0 + newline_split(t).0 =~= newline_split(p).0);
        assert(newline_split(p).1 =~= Seq::<char>::empty());
    } else {
        let q = p + t;
        assert(q.drop_last() =~= p + t.drop_last());
        assert(q.last() == t.last());
        lemma_newline_split_append(p, t.drop_last());
        let before = newline_split(t.drop_last());
        if t.last() == '\n' {
            assert((newline_split(p).0 + before.0).push(before.1) =~= newline_split(p).0 + before.0.push(before.1));
        }
    }
}

proof fn lemma_trim_start_of_indented(indent: Seq<char>, c: Seq<char>)
    requires
        forall|i: int| 0 <= i < indent.len() ==> indent[i] == ' ' || indent[i] == '\t',
        c.len() > 0,
        !is_space(c[0]),
    ensures
        trim_start(indent + c) == c,
    decreases indent.len(),
{
    if indent.len() == 0 {
        assert(indent + c =~= c);
    } else {
        assert((indent + c).drop_first() =~= indent.drop_first() + c);
        lemma_trim_start_of_indented(indent.drop_first(), c);
    }
}

proof fn lemma_joined_lines_prepend(c: Seq<char>, lines: Seq<Seq<char>>)
    requires
        trailing_backslashes(c) % 2 == 0,
    ensures
        joined_lines(seq![c] + lines) == (seq![trim_start(c)] + joined_lines(lines).0, joined_lines(lines).1),
    decreases lines.len(),
{
    let all = seq![c] + lines;
    if lines.len() == 0 {
        let empty = Seq::<Seq<char>>::empty();
        assert(all =~= seq![c]);
        assert(all.drop_last() =~= empty);
        assert(all.last() == c);
        assert(joined_lines(empty) == (empty, Seq::<char>::empty()));
        assert(Seq::<char>::empty() + trim_start(c) =~= trim_start(c));
        assert(joined_lines(all) == (empty.push(trim_start(c)), Seq::<char>::empty()));
        assert(empty.push(trim_start(c)) =~= seq![trim_start(c)] + empty);
        assert(joined_lines(lines) == (empty, Seq::<char>::empty()));
    } else {
        assert(all.drop_last() =~= seq![c] + lines.drop_last());
        assert(all.last() == lines.last());
        lemma_joined_lines_prepend(c, lines.drop_last());
        let before = joined_lines(lines.drop_last());
        let pending = before.1 + trim_start(lines.last());
        assert(joined_lines(all.drop_last()) == (seq![trim_start(c)] + before.0, before.1));
        if trailing_backslashes(lines.last()) % 2 != 1 {
            assert((seq![trim_start(c)] + before.0).push(pending) =~= seq![trim_start(c)] + before.0.push(pending));
        }
    }
}

proof fn lemma_apply_lines_after_comment(c: Seq<char>, lines: Seq<Seq<char>>)
    requires
        is_blank_or_comment(trim_start(c)),
    ensures
        apply_lines(seq![c] + lines) == apply_lines(lines),
    decreases lines.len(),
{
    if lines.len() == 0 {
        let all = seq![c] + lines;
        assert(all =~= seq![c]);
        assert(all.drop_last() =~= Seq::<Seq<char>>::empty());
        assert(all.last() == c);
        assert(apply_lines(Seq::<Seq<char>>::empty()) == Ok::<Map<Seq<char>, Seq<char>>, Seq<char>>(Map::empty()));
        assert(apply_lines(all) == apply_line(Ok(Map::empty()), c));
    } else {
        let all = seq![c] + lines;
        assert(all.drop_last() =~= seq![c] + lines.drop_last());
        assert(all.last() == lines.last());
        lemma_apply_lines_after_comment(c, lines.drop_last());
    }
}

/// A comment line sets nothing: a line whose first character after any
/// indentation is `#` or `!`, put in front of a properties text, leaves
/// what the text sets (or the error it reports) unchanged, whatever the
/// comment says. (A comment that ends in a backslash would continue onto
/// the next line, so the comment here ends otherwise.)
pub proof fn law_comment_line_sets_nothing(indent: Seq<char>, marker: char, comment: Seq<char>, rest: Seq<char>)
    requires
        forall|i: int| 0 <= i < indent.len() ==> indent[i] == ' ' || indent[i] == '\t',
        marker == '#' || marker == '!',
        forall|i: int| 0 <= i < comment.len() ==> comment[i] != '\n',
        comment.len() > 0 ==> comment.last() != '\\' && comment.last() != '\r',
    ensures
        properties_of(indent + seq![marker] + comment + seq!['\n'] + rest) == properties_of(rest),
{
    let c = seq![marker] + comment;
    let line = indent + c;
    let p = line.push('\n');
    assert(indent + seq![marker] + comment + seq!['\n'] + rest =~= p + rest);
    assert(line.len() > 0 && line.last() != '\r' && line.last() != '\\') by {
        if comment.len() > 0 {
            assert(line.last() == comment.last());
        } else {
            assert(line.last() == marker);
        }
    }
    assert forall|i: int| 0 <= i < line.len() implies line[i] != '\n' by {
        if i < indent.len() {
            assert(line[i] == indent[i]);
        } else if i == indent.len() {
            assert(line[i] == marker);
        } else {
            assert(line[i] == comment[i - indent.len() - 1]);
        }
    }
    lemma_newline_split_of_one_line(line);
    assert(p.drop_last() =~= line);
    assert(newline_split(p) == (seq![line], Seq::<char>::empty())) by {
        assert(Seq::<Seq<char>>::empty().push(line) =~= seq![line]);
    }
    lemma_newline_split_append(p, rest);
    let split = newline_split(rest);
    assert(without_cr(line) == line);
    assert(text_lines(p + rest) =~= seq![line] + text_lines(rest)) by {
        assert((seq![line] + split.0).map_values(|l: Seq<char>| without_cr(l)) =~= seq![line] + split.0.map_values(
            |l: Seq<char>| without_cr(l),
        ));
        if split.1.len() > 0 {
            assert((seq![line] + split.0.map_values(|l: Seq<char>| without_cr(l))).push(split.1) =~= seq![line]
                + split.0.map_values(|l: Seq<char>| without_cr(l)).push(split.1));
        }
    }
    assert(trailing_backslashes(line) == 0);
    lemma_joined_lines_prepend(line, text_lines(rest));
    lemma_trim_start_of_indented(indent, c);
    let joined = joined_lines(text_lines(rest));
    assert(logical_lines(p + rest) =~= seq![c] + logical_lines(rest)) by {
        if joined.1.len() > 0 {
            assert((seq![c] + joined.0).push(joined.1) =~= seq![c] + joined.0.push(joined.1));
        }
    }
    lemma_trim_start_of_indented(Seq::<char>::empty(), c);
    assert(Seq::<char>::empty() + c =~= c);
    assert(c[0] == marker);
    lemma_apply_lines_after_comment(c, logical_lines(rest));
}

} // verus!
