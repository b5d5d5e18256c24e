//! Replies on the control connection: construction, their wire text, and the
//! parser that reads such text back.
use vstd::prelude::*;
use crate::reply_code::{ReplyCode, code_of_value, code_value, lemma_code_value_roundtrip};
use crate::text::{
    digits_value, is_white_space, lemma_byte_len_at_least_len,
    lemma_char_index_at_byte_ascii, lemma_decimal_three_digits, lemma_trim_end_append_white_space,
    byte_len, byte_len_exec, char_index_at_byte, char_index_at_byte_exec, decimal, parse_unsigned,
    parse_unsigned_chars, push_char, push_decimal, push_str, str_to_chars, string_from_chars,
    trim_end, trim_end_len,
};
use unicode_segmentation::UnicodeSegmentation;

verus! {

/// A reply: a code and one or more lines of text.
#[derive(Debug, PartialEq)]
pub struct Reply {
    pub code: ReplyCode,
    lines: Vec<String>,
}

/// The characters of each line.
pub open spec fn lines_view(lines: Seq<String>) -> Seq<Seq<char>> {
    lines.map_values(|l: String| l@)
}

impl View for Reply {
    type V = (ReplyCode, Seq<Seq<char>>);

    closed spec fn view(&self) -> (ReplyCode, Seq<Seq<char>>) {
        (self.code, lines_view(self.lines@))
    }
}

/// Carriage return and line feed, which end every line of a reply.
pub open spec fn crlf() -> Seq<char> {
    seq!['\r', '\n']
}

/// The decimal text of a reply code.
pub open spec fn code_text(code: ReplyCode) -> Seq<char> {
    decimal(code_value(code) as nat)
}

/// Each line followed by CR LF, one after the other.
pub open spec fn lines_text(lines: Seq<Seq<char>>) -> Seq<char>
    decreases lines.len(),
{
    if lines.len() == 0 {
        Seq::empty()
    } else {
        lines_text(lines.drop_last()) + lines.last() + crlf()
    }
}

/// The wire text of a reply. A reply of fewer than two lines is
/// `<code> <line>\r\n`; a longer one is `<code>-<first>\r\n`, each middle line
/// with `\r\n`, and `<code> <last>\r\n`.
pub open spec fn reply_text(code: ReplyCode, lines: Seq<Seq<char>>) -> Seq<char> {
    let c = code_text(code);
    if lines.len() < 2 {
        c + seq![' '] + (if lines.len() == 1 { lines[0] } else { Seq::<char>::empty() }) + crlf()
    } else {
        c + seq!['-'] + lines[0] + crlf() + lines_text(lines.subrange(1, lines.len() - 1)) + c
            + seq![' '] + lines.last() + crlf()
    }
}

/// A string with the same characters as a string slice.
pub fn to_owned_string(s: &str) -> (r: String)
    ensures
        r@ == s@,
{
    let chars = str_to_chars(s);
    string_from_chars(chars.as_slice())
}

impl Reply {
    /// A reply of a single line.
    pub fn new(code: ReplyCode, message: &str) -> (r: Reply)
        ensures
            r@ == (code, seq![message@]),
    {
        let mut lines: Vec<String> = Vec::new();
        lines.push(to_owned_string(message));
        let r = Reply { code, lines };
        assert(lines_view(r.lines@) =~= seq![message@]);
        r
    }

    /// A reply of the given lines, in order.
    pub fn new_multiline(code: ReplyCode, lines: Vec<&str>) -> (r: Reply)
        ensures
            r@.0 == code,
            r@.1 == lines@.map_values(|l: &str| l@),
    {
        let mut owned: Vec<String> = Vec::new();
        let mut i: usize = 0;
        while i < lines.len()
            invariant
                i <= lines.len(),
                lines_view(owned@) =~= lines@.take(i as int).map_values(|l: &str| l@),
            decreases lines.len() - i,
        {
            let line = to_owned_string(lines[i]);
            let ghost before = owned@;
            owned.push(line);
            assert(owned@ == before.push(line));
            assert(lines_view(owned@) =~= lines_view(before).push(line@));
            i = i + 1;
            assert(lines@.take(i as int).map_values(|l: &str| l@) =~= lines@.take(i - 1).map_values(|l: &str| l@).push(lines@[i - 1]@));
        }
        assert(lines@.take(i as int) =~= lines@);
        Reply { code, lines: owned }
    }

    /// A reply of the given owned lines, in order.
    pub fn from_lines(code: ReplyCode, lines: Vec<String>) -> (r: Reply)
        ensures
            r@ == (code, lines_view(lines@)),
    {
        Reply { code, lines }
    }

    /// The lines of this reply.
    pub fn lines(&self) -> (l: &Vec<String>)
        ensures
            lines_view(l@) == self@.1,
    {
        &self.lines
    }

    /// The wire text of this reply.
    pub fn to_string(&self) -> (s: String)
        ensures
            s@ == reply_text(self@.0, self@.1),
    {
        let ghost lines = self@.1;
        let value = self.code.value();
        let mut s = String::new();
        push_decimal(&mut s, value as u64);
        let n = self.lines.len();
        if n < 2 {
            push_char(&mut s, ' ');
            if n == 1 {
                push_str(&mut s, self.lines[0].as_str());
            }
            push_char(&mut s, '\r');
            push_char(&mut s, '\n');
            assert(s@ =~= reply_text(self@.0, lines));
            return s;
        }
        push_char(&mut s, '-');
        push_str(&mut s, self.lines[0].as_str());
        push_char(&mut s, '\r');
        push_char(&mut s, '\n');
        let ghost head = s@;
        assert(head =~= code_text(self.code) + seq!['-'] + lines[0] + crlf());
        let mut i: usize = 1;
        while i < n - 1
            invariant
                1 <= i <= n - 1,
                n == self.lines@.len(),
                n >= 2,
                lines == lines_view(self.lines@),
                s@ == head + lines_text(lines.subrange(1, i as int)),
            decreases n - 1 - i,
        {
            push_str(&mut s, self.lines[i].as_str());
            push_char(&mut s, '\r');
            push_char(&mut s, '\n');
            i = i + 1;
            assert(lines.subrange(1, i as int).drop_last() =~= lines.subrange(1, i - 1));
            assert(s@ =~= head + lines_text(lines.subrange(1, i as int)));
        }
        push_decimal(&mut s, value as u64);
        push_char(&mut s, ' ');
        push_str(&mut s, self.lines[n - 1].as_str());
        push_char(&mut s, '\r');
        push_char(&mut s, '\n');
        assert(s@ =~= reply_text(self@.0, lines));
        s
    }
}


/// Why reply text could not be read as a reply.
#[derive(Clone, Copy, Debug, PartialEq, Eq, Structural)]
pub enum ReplyParseError {
    /// No line, or fewer than five bytes.
    TooShort,
    /// The fourth grapheme of the first line is neither a space nor a minus.
    InvalidDelimiter,
    /// The first three bytes are not a number.
    InvalidCode,
    /// The number is not a known reply code.
    UnsupportedCode,
    /// The last line of a multi-line reply has fewer than five bytes.
    InvalidEndLine,
    /// The last line does not start with a number.
    InvalidEndLineCode,
    /// The last line's code differs from the first line's.
    CodeMismatch,
}

/// The text split after each line feed, as `str::split_inclusive("\n")` does:
/// every piece but possibly the last ends with `\n`, and no piece is empty.
pub open spec fn split_lines_inclusive(s: Seq<char>) -> Seq<Seq<char>>
    decreases s.len(),
{
    if s.len() == 0 {
        Seq::empty()
    } else {
        let init = split_lines_inclusive(s.drop_last());
        let c = s.last();
        if init.len() == 0 || init.last().last() == '\n' {
            init.push(seq![c])
        } else {
            init.update(init.len() - 1, init.last().push(c))
        }
    }
}

/// The characters of each piece.
pub open spec fn pieces_view(pieces: Seq<Vec<char>>) -> Seq<Seq<char>> {
    pieces.map_values(|v: Vec<char>| v@)
}

/// Splits text after each line feed.
pub fn split_lines(s: &[char]) -> (r: Vec<Vec<char>>)
    ensures
        pieces_view(r@) == split_lines_inclusive(s@),
{
    let mut done: Vec<Vec<char>> = Vec::new();
    let mut cur: Vec<char> = Vec::new();
    let mut i: usize = 0;
    while i < s.len()
        invariant
            i <= s.len(),
            forall|k: int| 0 <= k < done@.len() ==> (#[trigger] done@[k])@.len() > 0 && done@[k]@.last() == '\n',
            forall|k: int| 0 <= k < cur@.len() ==> #[trigger] cur@[k] != '\n',
            split_lines_inclusive(s@.take(i as int)) == pieces_view(done@) + (if cur@.len() == 0 {
                Seq::<Seq<char>>::empty()
            } else {
                seq![cur@]
            }),
        decreases s.len() - i,
    {
        let c = s[i];
        let ghost old_done = done@;
        let ghost old_cur = cur@;
        assert(s@.take(i + 1).drop_last() =~= s@.take(i as int));
        assert(s@.take(i + 1).last() == c);
        let ghost init = split_lines_inclusive(s@.take(i as int));
        cur.push(c);
        proof {
            if old_cur.len() == 0 {
                assert(init =~= pieces_view(old_done));
                assert(init.len() == 0 || init.last().last() == '\n');
                assert(split_lines_inclusive(s@.take(i + 1)) =~= pieces_view(old_done).push(seq![c]));
                assert(old_cur.push(c) =~= seq![c]);
            } else {
                assert(init =~= pieces_view(old_done).push(old_cur));
                assert(init.last().last() != '\n');
                assert(split_lines_inclusive(s@.take(i + 1)) =~= pieces_view(old_done).push(old_cur.push(c)));
            }
        }
        if c == '\n' {
            let ghost before = done@;
            done.push(cur);
            cur = Vec::new();
            assert(pieces_view(done@) =~= pieces_view(before).push(old_cur.push(c)));
        }
        i = i + 1;
        assert(split_lines_inclusive(s@.take(i as int)) =~= pieces_view(done@) + (if cur@.len() == 0 {
            Seq::<Seq<char>>::empty()
        } else {
            seq![cur@]
        }));
    }
    assert(s@.take(i as int) =~= s@);
    if cur.len() > 0 {
        let ghost before = done@;
        done.push(cur);
        assert(pieces_view(done@) =~= pieces_view(before).push(cur@));
    } else {
        assert(pieces_view(done@) + Seq::<Seq<char>>::empty() =~= pieces_view(done@));
    }
    done
}

/// The `n`-th extended grapheme cluster of the text, counting from zero, as
/// the `unicode-segmentation` crate segments it.
pub uninterp spec fn nth_grapheme(s: Seq<char>, n: nat) -> Option<Seq<char>>;

/// Whether a character is ASCII.
pub open spec fn is_ascii_char(c: char) -> bool {
    (c as u32) < 0x80
}

/// The first `n + 2` characters are ASCII and none of the first `n + 1` is CR.
pub open spec fn ascii_prefix(s: Seq<char>, n: nat) -> bool {
    &&& n + 1 < s.len()
    &&& forall|i: int| 0 <= i <= n + 1 ==> is_ascii_char(#[trigger] s[i])
    &&& forall|i: int| 0 <= i <= n ==> #[trigger] s[i] != '\r'
}

/// The `n`-th extended grapheme cluster of a string.
///
/// Trusted: `UnicodeSegmentation::graphemes(true)` followed by `nth(n)`. Its
/// result is named `nth_grapheme`. Beside the name stands one fact of the
/// segmentation rules (UAX #29, which the crate's `check_pair` implements): two
/// ASCII characters are always split apart unless they are CR followed by LF,
/// so when the first `n + 2` characters are ASCII and none of the first `n + 1`
/// is CR, the `n`-th cluster is the `n`-th character alone.
#[verifier::external_body]
fn grapheme_at(s: &str, n: usize) -> (r: Option<String>)
    ensures
        r is Some ==> nth_grapheme(s@, n as nat) == Some(r->0@),
        r is None ==> nth_grapheme(s@, n as nat) is None,
        ascii_prefix(s@, n as nat) ==> r is Some && r->0@ == seq![s@[n as int]],
{
    s.graphemes(true).nth(n).map(|g| g.to_string())
}

/// The fourth grapheme of the first line is a space or a minus.
pub open spec fn delimiter_ok(line: Seq<char>) -> bool {
    match nth_grapheme(line, 3) {
        Some(g) => g == seq![' '] || g == seq!['-'],
        None => false,
    }
}

/// The result of reading reply text: `None` where the reader would panic
/// (slicing inside a multi-byte character), an error, or the code and lines.
pub type ParseOutcome = Option<Result<(ReplyCode, Seq<Seq<char>>), ReplyParseError>>;

/// What reading reply text gives.
pub open spec fn reply_parse_outcome(s: Seq<char>) -> ParseOutcome {
    let lines = split_lines_inclusive(s);
    if lines.len() == 0 || byte_len(s) < 5 {
        Some(Err(ReplyParseError::TooShort))
    } else if !delimiter_ok(lines[0]) {
        Some(Err(ReplyParseError::InvalidDelimiter))
    } else {
        parse_code_and_lines(lines)
    }
}

/// Reading the code from the first of the pieces, then the rest.
pub open spec fn parse_code_and_lines(lines: Seq<Seq<char>>) -> ParseOutcome {
    let start = lines[0];
    match char_index_at_byte(start, 3) {
        None => None,
        Some(i3) => match parse_unsigned(start.take(i3 as int), 65535) {
            None => Some(Err(ReplyParseError::InvalidCode)),
            Some(v) => match code_of_value(v as u16) {
                None => Some(Err(ReplyParseError::UnsupportedCode)),
                Some(code) => if lines.len() == 1 {
                    parse_single_line(start, code)
                } else {
                    parse_multi_line(lines, code, v)
                },
            },
        },
    }
}

/// The message of a one-line reply.
pub open spec fn parse_single_line(start: Seq<char>, code: ReplyCode) -> ParseOutcome {
    match char_index_at_byte(start, 4) {
        None => None,
        Some(i4) => Some(Ok((code, seq![trim_end(start.skip(i4 as int))]))),
    }
}

/// The lines of a multi-line reply whose first line gave the number `v`.
pub open spec fn parse_multi_line(lines: Seq<Seq<char>>, code: ReplyCode, v: nat) -> ParseOutcome {
    let start = lines[0];
    let last = lines.last();
    if byte_len(last) < 5 {
        Some(Err(ReplyParseError::InvalidEndLine))
    } else {
        match char_index_at_byte(last, 3) {
            None => None,
            Some(j3) => match parse_unsigned(last.take(j3 as int), 65535) {
                None => Some(Err(ReplyParseError::InvalidEndLineCode)),
                Some(w) => if w != v {
                    Some(Err(ReplyParseError::CodeMismatch))
                } else {
                    match (char_index_at_byte(start, 4), char_index_at_byte(last, 4)) {
                        (Some(i4), Some(j4)) => Some(Ok((
                            code,
                            seq![trim_end(start.skip(i4 as int))]
                                + lines.subrange(1, lines.len() - 1).map_values(|l: Seq<char>| trim_end(l))
                                + seq![trim_end(last.skip(j4 as int))],
                        ))),
                        _ => None,
                    }
                },
            },
        }
    }
}

/// The outcome a parse result stands for.
pub open spec fn parse_result_view(r: Option<Result<Reply, ReplyParseError>>) -> ParseOutcome {
    match r {
        None => None,
        Some(Ok(reply)) => Some(Ok(reply@)),
        Some(Err(e)) => Some(Err(e)),
    }
}

/// The characters of `s` from index `from` up to `to`.
pub fn sub_chars(s: &[char], from: usize, to: usize) -> (r: Vec<char>)
    requires
        from <= to <= s.len(),
    ensures
        r@ == s@.subrange(from as int, to as int),
{
    let mut r: Vec<char> = Vec::new();
    let mut i = from;
    while i < to
        invariant
            from <= i <= to <= s.len(),
            r@ =~= s@.subrange(from as int, i as int),
        decreases to - i,
    {
        r.push(s[i]);
        i = i + 1;
    }
    r
}

/// The characters from index `from` on, with trailing white space removed.
fn trimmed_suffix(s: &[char], from: usize) -> (r: String)
    requires
        from <= s.len(),
    ensures
        r@ == trim_end(s@.skip(from as int)),
{
    let rest = sub_chars(s, from, s.len());
    assert(rest@ =~= s@.skip(from as int));
    let n = trim_end_len(rest.as_slice());
    let kept = sub_chars(rest.as_slice(), 0, n);
    assert(kept@ =~= rest@.take(n as int));
    string_from_chars(kept.as_slice())
}

/// Whether the fourth grapheme of a line is a space or a minus.
fn delimiter_ok_exec(line: &[char]) -> (b: bool)
    ensures
        b == delimiter_ok(line@),
        ascii_prefix(line@, 3) ==> nth_grapheme(line@, 3) == Some(seq![line@[3]]),
{
    let text = string_from_chars(line);
    match grapheme_at(text.as_str(), 3) {
        None => false,
        Some(g) => {
            let gc = str_to_chars(g.as_str());
            if gc.len() == 1 && (gc[0] == ' ' || gc[0] == '-') {
                assert(gc@ =~= seq![gc@[0]]);
                true
            } else {
                assert(gc@ != seq![' '] && gc@ != seq!['-']) by {
                    if gc@ == seq![' '] || gc@ == seq!['-'] {
                        assert(gc@.len() == 1);
                    }
                }
                false
            }
        },
    }
}

impl Reply {
    /// Reads reply text. On a line whose first five characters are ASCII, the
    /// fourth grapheme is the fourth character. Reading the wire text of a
    /// reply gives that reply back whenever its lines are as `roundtrip_lines`
    /// describes and its delimiter stands alone, in particular whenever its
    /// first line is empty or starts with ASCII.
    pub fn from_str(s: &str) -> (r: Result<Reply, ReplyParseError>)
        requires
            reply_parse_outcome(s@) is Some,
        ensures
            parse_result_view(Some(r)) == reply_parse_outcome(s@),
            ({
                let lines = split_lines_inclusive(s@);
                lines.len() > 0 && byte_len(s@) >= 5 && ascii_prefix(lines[0], 3) ==> nth_grapheme(
                    lines[0],
                    3,
                ) == Some(seq![lines[0][3]])
            }),
            forall|code: ReplyCode, lines: Seq<Seq<char>>|
                #![trigger reply_text(code, lines)]
                s@ == reply_text(code, lines) && roundtrip_lines(lines) && delimiter_stands_alone(code, lines)
                    ==> (r matches Ok(rep) && rep@ == (code, lines)),
            forall|code: ReplyCode, lines: Seq<Seq<char>>|
                #![trigger reply_text(code, lines)]
                s@ == reply_text(code, lines) && roundtrip_lines(lines) && starts_ascii(lines)
                    ==> (r matches Ok(rep) && rep@ == (code, lines)),
    {
        let parsed = Reply::read(s);
        assert forall|code: ReplyCode, lines: Seq<Seq<char>>|
            #![trigger reply_text(code, lines)]
            s@ == reply_text(code, lines) && roundtrip_lines(lines) && delimiter_stands_alone(code, lines)
                implies reply_parse_outcome(s@) == Some(Ok::<(ReplyCode, Seq<Seq<char>>), ReplyParseError>((code, lines))) by {
            lemma_reply_text_parses_back(code, lines);
        }
        assert forall|code: ReplyCode, lines: Seq<Seq<char>>|
            #![trigger reply_text(code, lines)]
            s@ == reply_text(code, lines) && roundtrip_lines(lines) && starts_ascii(lines)
                implies reply_parse_outcome(s@) == Some(Ok::<(ReplyCode, Seq<Seq<char>>), ReplyParseError>((code, lines))) by {
            lemma_reply_text_parses_back(code, lines);
            let first = split_lines_inclusive(s@)[0];
            assert(first[3] == ' ' || first[3] == '-');
            assert(delimiter_ok(first));
        }
        match parsed {
            Some(r) => r,
            None => {
                assert(false);
                Err(ReplyParseError::TooShort)
            },
        }
    }

    /// Reads reply text, or gives `None` on the text where reading would slice
    /// inside a multi-byte character (where `from_str` may not be called). On a
    /// line whose first five characters are ASCII, the fourth grapheme is the
    /// fourth character.
    pub fn parse(s: &str) -> (r: Option<Result<Reply, ReplyParseError>>)
        ensures
            parse_result_view(r) == reply_parse_outcome(s@),
            ({
                let lines = split_lines_inclusive(s@);
                lines.len() > 0 && byte_len(s@) >= 5 && ascii_prefix(lines[0], 3) ==> nth_grapheme(
                    lines[0],
                    3,
                ) == Some(seq![lines[0][3]])
            }),
    {
        match Reply::read(s) {
            None => None,
            Some(_) => Some(Reply::from_str(s)),
        }
    }

    fn read(s: &str) -> (r: Option<Result<Reply, ReplyParseError>>)
        ensures
            parse_result_view(r) == reply_parse_outcome(s@),
            ({
                let lines = split_lines_inclusive(s@);
                lines.len() > 0 && byte_len(s@) >= 5 && ascii_prefix(lines[0], 3) ==> nth_grapheme(
                    lines[0],
                    3,
                ) == Some(seq![lines[0][3]])
            }),
    {
        let chars = str_to_chars(s);
        let pieces = split_lines(chars.as_slice());
        let ghost lines = split_lines_inclusive(s@);
        let blen = byte_len_exec(chars.as_slice());
        if pieces.len() == 0 || blen < 5 {
            return Some(Err(ReplyParseError::TooShort));
        }
        assert(pieces@[0]@ == lines[0]);
        let start = pieces[0].as_slice();
        if !delimiter_ok_exec(start) {
            return Some(Err(ReplyParseError::InvalidDelimiter));
        }
        let i3 = match char_index_at_byte_exec(start, 3) {
            None => return None,
            Some(i) => i,
        };
        proof {
            crate::text::lemma_char_index_at_byte_bound(start@, 3);
        }
        let prefix = sub_chars(start, 0, i3);
        assert(prefix@ =~= start@.take(i3 as int));
        let v = match parse_unsigned_chars(prefix.as_slice(), 65535) {
            None => return Some(Err(ReplyParseError::InvalidCode)),
            Some(v) => v,
        };
        let code = match ReplyCode::from_repr(v as u16) {
            None => return Some(Err(ReplyParseError::UnsupportedCode)),
            Some(c) => c,
        };
        if pieces.len() == 1 {
            let i4 = match char_index_at_byte_exec(start, 4) {
                None => return None,
                Some(i) => i,
            };
            proof {
                crate::text::lemma_char_index_at_byte_bound(start@, 4);
            }
            let mut out: Vec<String> = Vec::new();
            out.push(trimmed_suffix(start, i4));
            assert(lines_view(out@) =~= seq![trim_end(start@.skip(i4 as int))]);
            return Some(Ok(Reply::from_lines(code, out)));
        }
        let n = pieces.len();
        assert(pieces@[n - 1]@ == lines.last());
        let last = pieces[n - 1].as_slice();
        let last_len = byte_len_exec(last);
        if last_len < 5 {
            return Some(Err(ReplyParseError::InvalidEndLine));
        }
        let j3 = match char_index_at_byte_exec(last, 3) {
            None => return None,
            Some(j) => j,
        };
        proof {
            crate::text::lemma_char_index_at_byte_bound(last@, 3);
        }
        let last_prefix = sub_chars(last, 0, j3);
        assert(last_prefix@ =~= last@.take(j3 as int));
        let w = match parse_unsigned_chars(last_prefix.as_slice(), 65535) {
            None => return Some(Err(ReplyParseError::InvalidEndLineCode)),
            Some(w) => w,
        };
        if w != v {
            return Some(Err(ReplyParseError::CodeMismatch));
        }
        let i4 = match char_index_at_byte_exec(start, 4) {
            None => return None,
            Some(i) => i,
        };
        let j4 = match char_index_at_byte_exec(last, 4) {
            None => return None,
            Some(j) => j,
        };
        proof {
            crate::text::lemma_char_index_at_byte_bound(start@, 4);
            crate::text::lemma_char_index_at_byte_bound(last@, 4);
        }
        let ghost middle = lines.subrange(1, lines.len() - 1).map_values(|l: Seq<char>| trim_end(l));
        let mut out: Vec<String> = Vec::new();
        out.push(trimmed_suffix(start, i4));
        let mut k: usize = 1;
        while k < n - 1
            invariant
                1 <= k <= n - 1,
                n == pieces@.len(),
                n >= 2,
                pieces_view(pieces@) == lines,
                middle == lines.subrange(1, lines.len() - 1).map_values(|l: Seq<char>| trim_end(l)),
                lines_view(out@) =~= seq![trim_end(start@.skip(i4 as int))] + middle.take(k - 1),
            decreases n - 1 - k,
        {
            let line = trimmed_suffix(pieces[k].as_slice(), 0);
            assert(pieces@[k as int]@.skip(0) =~= pieces@[k as int]@);
            let ghost before = out@;
            out.push(line);
            assert(lines_view(out@) =~= lines_view(before).push(line@));
            k = k + 1;
            assert(middle.take(k - 1) =~= middle.take(k - 2).push(middle[k - 2]));
        }
        assert(middle.take(k - 1) =~= middle);
        let ghost before = out@;
        let tail = trimmed_suffix(last, j4);
        out.push(tail);
        assert(lines_view(out@) =~= lines_view(before).push(tail@));
        assert(lines_view(out@) =~= seq![trim_end(start@.skip(i4 as int))] + middle + seq![trim_end(last@.skip(j4 as int))]);
        assert(start@ == lines[0]);
        assert(last@ == lines.last());
        assert(lines.len() == n);
        let r = Reply::from_lines(code, out);
        assert(r@ == (code, seq![trim_end(lines[0].skip(i4 as int))] + middle + seq![trim_end(lines.last().skip(j4 as int))]));
        Some(Ok(r))
    }
}


/// The text holds no line feed.
pub open spec fn no_line_feed(s: Seq<char>) -> bool {
    forall|i: int| 0 <= i < s.len() ==> #[trigger] s[i] != '\n'
}

/// Lines that the wire text of a reply can carry unchanged: at least one
/// line, none holding a line feed or ending in white space.
pub open spec fn roundtrip_lines(lines: Seq<Seq<char>>) -> bool {
    &&& lines.len() >= 1
    &&& forall|i: int| 0 <= i < lines.len() ==> no_line_feed(#[trigger] lines[i])
    &&& forall|i: int| 0 <= i < lines.len() ==> trim_end(#[trigger] lines[i]) == lines[i]
}

/// The first line is empty or starts with an ASCII character.
pub open spec fn starts_ascii(lines: Seq<Seq<char>>) -> bool {
    lines[0].len() == 0 || is_ascii_char(lines[0][0])
}

/// As `unicode-segmentation` splits the first line of the reply's wire text
/// into graphemes, the fourth is the delimiter alone: the first line of the
/// reply does not begin with a character that the segmentation joins to the
/// character before it (a combining mark, a zero-width joiner or a spacing
/// mark).
pub open spec fn delimiter_stands_alone(code: ReplyCode, lines: Seq<Seq<char>>) -> bool {
    delimiter_ok(split_lines_inclusive(reply_text(code, lines))[0])
}

proof fn lemma_split_last(s: Seq<char>)
    requires
        s.len() > 0,
    ensures
        split_lines_inclusive(s).len() > 0,
        split_lines_inclusive(s).last().last() == s.last(),
{
    let init = split_lines_inclusive(s.drop_last());
    if init.len() == 0 || init.last().last() == '\n' {
        assert(init.push(seq![s.last()]).last() == seq![s.last()]);
    } else {
        assert(init.update(init.len() - 1, init.last().push(s.last())).last() == init.last().push(s.last()));
    }
}

proof fn lemma_split_single(s: Seq<char>)
    requires
        s.len() > 0,
        no_line_feed(s.drop_last()),
    ensures
        split_lines_inclusive(s) == seq![s],
    decreases s.len(),
{
    let d = s.drop_last();
    if d.len() == 0 {
        assert(split_lines_inclusive(d) =~= Seq::<Seq<char>>::empty());
        assert(s =~= seq![s.last()]);
    } else {
        assert(d.drop_last() =~= s.drop_last().drop_last());
        assert(no_line_feed(d.drop_last()));
        lemma_split_single(d);
        assert(d.last() != '\n');
        assert(d.push(s.last()) =~= s);
        assert(split_lines_inclusive(s) =~= seq![d].update(0, d.push(s.last())));
        assert(seq![d].update(0, d.push(s.last())) =~= seq![s]);
    }
}

proof fn lemma_split_append(a: Seq<char>, b: Seq<char>)
    requires
        a.len() == 0 || a.last() == '\n',
    ensures
        split_lines_inclusive(a + b) == split_lines_inclusive(a) + split_lines_inclusive(b),
    decreases b.len(),
{
    if b.len() == 0 {
        assert(a + b =~= a);
        assert(split_lines_inclusive(a) + split_lines_inclusive(b) =~= split_lines_inclusive(a));
    } else {
        let u = a + b;
        let c = b.last();
        let bd = b.drop_last();
        assert(u.drop_last() =~= a + bd);
        assert(u.last() == c);
        lemma_split_append(a, bd);
        let sa = split_lines_inclusive(a);
        let sb = split_lines_inclusive(bd);
        let init = split_lines_inclusive(a + bd);
        assert(init == sa + sb);
        if sb.len() == 0 {
            if bd.len() > 0 {
                lemma_split_last(bd);
            }
            assert(bd.len() == 0);
            assert(init =~= sa);
            if a.len() > 0 {
                lemma_split_last(a);
            } else {
                assert(sa =~= Seq::<Seq<char>>::empty());
            }
            assert(split_lines_inclusive(b) =~= sb.push(seq![c]));
            assert(split_lines_inclusive(u) =~= sa.push(seq![c]));
            assert(sa.push(seq![c]) =~= sa + sb.push(seq![c]));
        } else {
            assert(init.last() == sb.last());
            if sb.last().last() == '\n' {
                assert(split_lines_inclusive(u) =~= init.push(seq![c]));
                assert(split_lines_inclusive(b) =~= sb.push(seq![c]));
                assert(init.push(seq![c]) =~= sa + sb.push(seq![c]));
            } else {
                assert(split_lines_inclusive(u) =~= init.update(init.len() - 1, init.last().push(c)));
                assert(split_lines_inclusive(b) =~= sb.update(sb.len() - 1, sb.last().push(c)));
                assert(init.update(init.len() - 1, init.last().push(c)) =~= sa + sb.update(sb.len() - 1, sb.last().push(c)));
            }
        }
    }
}

/// Each line with CR LF after it.
pub open spec fn with_crlf(lines: Seq<Seq<char>>) -> Seq<Seq<char>> {
    lines.map_values(|l: Seq<char>| l + crlf())
}

proof fn lemma_split_lines_text(m: Seq<Seq<char>>)
    requires
        forall|i: int| 0 <= i < m.len() ==> no_line_feed(#[trigger] m[i]),
    ensures
        split_lines_inclusive(lines_text(m)) == with_crlf(m),
        lines_text(m).len() == 0 || lines_text(m).last() == '\n',
    decreases m.len(),
{
    if m.len() == 0 {
        assert(split_lines_inclusive(Seq::<char>::empty()) =~= Seq::<Seq<char>>::empty());
        assert(with_crlf(m) =~= Seq::<Seq<char>>::empty());
    } else {
        let init = m.drop_last();
        assert forall|i: int| 0 <= i < init.len() implies no_line_feed(#[trigger] init[i]) by {
            assert(init[i] == m[i]);
        }
        lemma_split_lines_text(init);
        let p = m.last() + crlf();
        assert(no_line_feed(m.last()));
        assert(p.drop_last() =~= m.last() + seq!['\r']);
        assert(no_line_feed(p.drop_last()));
        lemma_split_single(p);
        lemma_split_append(lines_text(init), p);
        assert(lines_text(m) == lines_text(init) + p) by {
            assert(lines_text(init) + m.last() + crlf() =~= lines_text(init) + p);
        }
        assert(with_crlf(m) =~= with_crlf(init).push(p));
        assert(lines_text(m).last() == p.last());
    }
}

proof fn lemma_trim_line_crlf(l: Seq<char>)
    requires
        trim_end(l) == l,
    ensures
        trim_end(l + crlf()) == l,
{
    assert(is_white_space(crlf()[0]));
    assert(is_white_space(crlf()[1]));
    assert forall|i: int| 0 <= i < crlf().len() implies is_white_space(#[trigger] crlf()[i]) by {}
    lemma_trim_end_append_white_space(l, crlf());
}

proof fn lemma_code_text_facts(code: ReplyCode, rest: Seq<char>)
    requires
        rest.len() >= 1,
        is_ascii_char(rest[0]),
        rest[0] != '\r',
        rest[0] != '\n',
    ensures
        ({
            let t = code_text(code) + rest;
            &&& code_text(code).len() == 3
            &&& char_index_at_byte(t, 3) == Some(3nat)
            &&& char_index_at_byte(t, 4) == Some(4nat)
            &&& t.take(3) == code_text(code)
            &&& parse_unsigned(code_text(code), 65535) == Some(code_value(code) as nat)
            &&& code_of_value(code_value(code)) == Some(code)
            &&& forall|i: int| 0 <= i < 4 ==> is_ascii_char(#[trigger] t[i]) && t[i] != '\r' && t[i] != '\n'
        }),
{
    lemma_code_value_roundtrip(code);
    let c = code_text(code);
    lemma_decimal_three_digits(code_value(code) as nat);
    let t = c + rest;
    let d = decimal(code_value(code) as nat);
    assert(c == d);
    assert forall|i: int| 0 <= i < 4 implies (#[trigger] t[i] as u32) < 0x80 && t[i] != '\r' && t[i] != '\n' by {
        if i < 3 {
            assert(t[i] == d[i]);
            assert((d[i] as u32) < 0x80);
            assert('0' <= d[i] <= '9');
        } else {
            assert(t[i] == rest[0]);
        }
    }
    assert forall|i: int| 0 <= i < 4 implies is_ascii_char(#[trigger] t[i]) && t[i] != '\r' && t[i] != '\n' by {
        assert((t[i] as u32) < 0x80 && t[i] != '\r' && t[i] != '\n');
    }
    lemma_char_index_at_byte_ascii(t, 3);
    lemma_char_index_at_byte_ascii(t, 4);
    assert(t.take(3) =~= c);
    assert(c[0] != '+');
    assert(parse_unsigned(c, 65535) == Some(digits_value(c)));
}

proof fn lemma_single_line_parses_back(code: ReplyCode, lines: Seq<Seq<char>>)
    requires
        roundtrip_lines(lines),
        lines.len() == 1,
    ensures
        split_lines_inclusive(reply_text(code, lines)) == seq![reply_text(code, lines)],
        byte_len(reply_text(code, lines)) >= 5,
        starts_ascii(lines) ==> ascii_prefix(reply_text(code, lines), 3),
        reply_text(code, lines)[3] == ' ',
        parse_code_and_lines(seq![reply_text(code, lines)]) == Some(Ok::<(ReplyCode, Seq<Seq<char>>), ReplyParseError>((code, lines))),
{
    let c = code_text(code);
    let t = reply_text(code, lines);
    let l0 = lines[0];
    assert(no_line_feed(l0));
    assert(trim_end(l0) == l0);
    lemma_byte_len_at_least_len(t);
    let rest = seq![' '] + l0 + crlf();
    assert(t =~= c + rest);
    assert(rest[0] == ' ');
    lemma_code_text_facts(code, rest);
    assert(t.drop_last() =~= c + seq![' '] + l0 + seq!['\r']);
    assert forall|i: int| 0 <= i < t.drop_last().len() implies #[trigger] t.drop_last()[i] != '\n' by {
        if 4 <= i < 4 + l0.len() {
            assert(t.drop_last()[i] == l0[i - 4]);
        }
    }
    lemma_split_single(t);
    assert(t[4] == if l0.len() == 0 { '\r' } else { l0[0] });
    assert(t[3] == ' ');
    if starts_ascii(lines) {
        assert(ascii_prefix(t, 3));
    }
    assert(t.skip(4) =~= l0 + crlf());
    lemma_trim_line_crlf(l0);
    assert(seq![trim_end(t.skip(4))] =~= lines);
    let v = code_value(code) as nat;
    assert((v as u16) == code_value(code));
    assert(parse_single_line(t, code) == Some(Ok::<(ReplyCode, Seq<Seq<char>>), ReplyParseError>((code, lines))));
    assert(seq![t][0] == t);
}

proof fn lemma_multi_line_parses_back(code: ReplyCode, lines: Seq<Seq<char>>)
    requires
        roundtrip_lines(lines),
        lines.len() >= 2,
    ensures
        split_lines_inclusive(reply_text(code, lines)).len() == lines.len(),
        byte_len(reply_text(code, lines)) >= 5,
        starts_ascii(lines) ==> ascii_prefix(split_lines_inclusive(reply_text(code, lines))[0], 3),
        split_lines_inclusive(reply_text(code, lines))[0][3] == '-',
        parse_code_and_lines(split_lines_inclusive(reply_text(code, lines))) == Some(Ok::<(ReplyCode, Seq<Seq<char>>), ReplyParseError>((code, lines))),
{
    let c = code_text(code);
    let t = reply_text(code, lines);
    let l0 = lines[0];
    assert(no_line_feed(l0));
    assert(trim_end(l0) == l0);
    lemma_byte_len_at_least_len(t);
    let n = lines.len();
    let last = lines[n - 1];
    assert(no_line_feed(last));
    assert(trim_end(last) == last);
    let mid = lines.subrange(1, n - 1);
    assert forall|i: int| 0 <= i < mid.len() implies no_line_feed(#[trigger] mid[i]) by {
        assert(mid[i] == lines[i + 1]);
    }
    let first_piece = c + seq!['-'] + l0 + crlf();
    let last_piece = c + seq![' '] + last + crlf();
    assert(t =~= first_piece + (lines_text(mid) + last_piece));
    lemma_code_text_facts(code, seq!['-'] + l0 + crlf());
    assert(first_piece =~= c + (seq!['-'] + l0 + crlf()));
    lemma_code_text_facts(code, seq![' '] + last + crlf());
    assert(last_piece =~= c + (seq![' '] + last + crlf()));
    assert(first_piece.drop_last() =~= c + seq!['-'] + l0 + seq!['\r']);
    assert forall|i: int| 0 <= i < first_piece.drop_last().len() implies #[trigger] first_piece.drop_last()[i] != '\n' by {
        if 4 <= i < 4 + l0.len() {
            assert(first_piece.drop_last()[i] == l0[i - 4]);
        }
    }
    lemma_split_single(first_piece);
    assert(last_piece.drop_last() =~= c + seq![' '] + last + seq!['\r']);
    assert forall|i: int| 0 <= i < last_piece.drop_last().len() implies #[trigger] last_piece.drop_last()[i] != '\n' by {
        if 4 <= i < 4 + last.len() {
            assert(last_piece.drop_last()[i] == last[i - 4]);
        }
    }
    lemma_split_single(last_piece);
    lemma_split_lines_text(mid);
    lemma_split_append(lines_text(mid), last_piece);
    assert(first_piece.last() == '\n');
    lemma_split_append(first_piece, lines_text(mid) + last_piece);
    let pieces = split_lines_inclusive(t);
    assert(pieces =~= seq![first_piece] + with_crlf(mid) + seq![last_piece]);
    assert(pieces.len() == n);
    assert(pieces[0] == first_piece);
    assert(pieces.last() == last_piece);
    assert(first_piece[3] == '-');
    assert(first_piece[4] == if l0.len() == 0 { '\r' } else { l0[0] });
    if starts_ascii(lines) {
        assert(ascii_prefix(first_piece, 3));
    }
    assert(first_piece.skip(4) =~= l0 + crlf());
    assert(last_piece.skip(4) =~= last + crlf());
    lemma_trim_line_crlf(l0);
    lemma_trim_line_crlf(last);
    lemma_byte_len_at_least_len(last_piece);
    assert(pieces.subrange(1, n - 1) =~= with_crlf(mid));
    assert forall|i: int| 0 <= i < mid.len() implies trim_end(#[trigger] with_crlf(mid)[i]) == mid[i] by {
        assert(mid[i] == lines[i + 1]);
        lemma_trim_line_crlf(mid[i]);
    }
    assert(with_crlf(mid).map_values(|l: Seq<char>| trim_end(l)) =~= mid);
    assert(seq![trim_end(first_piece.skip(4))] + mid + seq![trim_end(last_piece.skip(4))] =~= lines);
    let v = code_value(code) as nat;
    assert((v as u16) == code_value(code));
    assert(parse_multi_line(pieces, code, v) == Some(Ok::<(ReplyCode, Seq<Seq<char>>), ReplyParseError>((code, lines))));
}

/// Reading the wire text of a reply gives the reply back: for every code and
/// for lines as `roundtrip_lines` describes them, the text never makes the
/// reader panic and its first line's first four characters are ASCII (the
/// fifth too when the first line starts with ASCII). The reader returns
/// exactly that code and those lines when the delimiter stands alone as a
/// grapheme, and an invalid-delimiter error otherwise.
pub proof fn lemma_reply_text_parses_back(code: ReplyCode, lines: Seq<Seq<char>>)
    requires
        roundtrip_lines(lines),
    ensures
        reply_parse_outcome(reply_text(code, lines)) is Some,
        split_lines_inclusive(reply_text(code, lines)).len() > 0,
        byte_len(reply_text(code, lines)) >= 5,
        starts_ascii(lines) ==> ascii_prefix(split_lines_inclusive(reply_text(code, lines))[0], 3),
        split_lines_inclusive(reply_text(code, lines))[0][3] == ' ' || split_lines_inclusive(
            reply_text(code, lines),
        )[0][3] == '-',
        delimiter_stands_alone(code, lines) ==> reply_parse_outcome(reply_text(code, lines))
            == Some(Ok::<(ReplyCode, Seq<Seq<char>>), ReplyParseError>((code, lines))),
        !delimiter_stands_alone(code, lines) ==> reply_parse_outcome(reply_text(code, lines))
            == Some(Err::<(ReplyCode, Seq<Seq<char>>), ReplyParseError>(ReplyParseError::InvalidDelimiter)),
{
    let t = reply_text(code, lines);
    if lines.len() == 1 {
        lemma_single_line_parses_back(code, lines);
        assert(split_lines_inclusive(t)[0] == t);
    } else {
        lemma_multi_line_parses_back(code, lines);
    }
}

} // verus!
