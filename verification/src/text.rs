//! Character-level helpers shared by the protocol code: conversions between
//! strings and character vectors, decimal numbers, white space and UTF-8 widths.
use vstd::prelude::*;

verus! {

/// The characters of a string slice, in order.
pub fn str_to_chars(s: &str) -> (v: Vec<char>)
    ensures
        v@ == s@,
{
    let mut v: Vec<char> = Vec::new();
    for c in it: s.chars()
        invariant
            v@ == it.seq().take(it.index() as int),
    {
        v.push(c);
    }
    v
}


/// Appends one character to a string.
///
/// Trusted: `String::push`, which std documents as appending the character to
/// the end of the string.
#[verifier::external_body]
pub(crate) fn push_char(s: &mut String, c: char)
    ensures
        final(s)@ == old(s)@.push(c),
{
    s.push(c);
}

/// Appends a sequence of characters to a string.
pub fn push_chars(s: &mut String, chars: &[char])
    ensures
        final(s)@ == old(s)@ + chars@,
{
    let ghost start = s@;
    let mut i: usize = 0;
    while i < chars.len()
        invariant
            i <= chars.len(),
            s@ == start + chars@.take(i as int),
        decreases chars.len() - i,
    {
        push_char(s, chars[i]);
        i = i + 1;
        assert(chars@.take(i as int) =~= chars@.take((i - 1) as int).push(chars@[i - 1]));
    }
    assert(chars@.take(i as int) =~= chars@);
}

/// Appends the characters of a string slice to a string.
pub fn push_str(s: &mut String, other: &str)
    ensures
        final(s)@ == old(s)@ + other@,
{
    let chars = str_to_chars(other);
    push_chars(s, chars.as_slice());
}

/// A string holding exactly the given characters.
pub fn string_from_chars(chars: &[char]) -> (s: String)
    ensures
        s@ == chars@,
{
    let mut s = String::new();
    push_chars(&mut s, chars);
    assert(Seq::<char>::empty() + chars@ =~= chars@);
    s
}

/// The decimal digit character for a value below ten.
pub open spec fn digit_char(d: nat) -> char {
    if d == 0 { '0' }
    else if d == 1 { '1' }
    else if d == 2 { '2' }
    else if d == 3 { '3' }
    else if d == 4 { '4' }
    else if d == 5 { '5' }
    else if d == 6 { '6' }
    else if d == 7 { '7' }
    else if d == 8 { '8' }
    else { '9' }
}

/// The value of a decimal digit character, if it is one.
pub open spec fn digit_value(c: char) -> Option<nat> {
    if '0' <= c <= '9' { Some((c as nat - '0' as nat) as nat) } else { None }
}

/// The shortest decimal representation of a natural number, as `{}` formats it.
pub open spec fn decimal(n: nat) -> Seq<char>
    decreases n,
{
    if n < 10 {
        seq![digit_char(n)]
    } else {
        decimal(n / 10).push(digit_char(n % 10))
    }
}

fn digit_char_exec(d: u64) -> (c: char)
    requires
        d < 10,
    ensures
        c == digit_char(d as nat),
{
    if d == 0 { '0' }
    else if d == 1 { '1' }
    else if d == 2 { '2' }
    else if d == 3 { '3' }
    else if d == 4 { '4' }
    else if d == 5 { '5' }
    else if d == 6 { '6' }
    else if d == 7 { '7' }
    else if d == 8 { '8' }
    else { '9' }
}

/// Appends the decimal representation of `n` to a string.
pub fn push_decimal(s: &mut String, n: u64)
    ensures
        final(s)@ == old(s)@ + decimal(n as nat),
    decreases n,
{
    if n >= 10 {
        push_decimal(s, n / 10);
    }
    push_char(s, digit_char_exec(n % 10));
    assert(n >= 10 ==> decimal(n as nat) == decimal((n / 10) as nat).push(digit_char((n % 10) as nat)));
}

/// The value of a non-empty run of decimal digits.
pub open spec fn digits_value(s: Seq<char>) -> nat
    decreases s.len(),
{
    if s.len() == 0 {
        0
    } else {
        digits_value(s.drop_last()) * 10 + match digit_value(s.last()) {
            Some(d) => d,
            None => 0,
        }
    }
}

/// Every character is a decimal digit.
pub open spec fn all_digits(s: Seq<char>) -> bool {
    forall|i: int| 0 <= i < s.len() ==> '0' <= #[trigger] s[i] <= '9'
}

/// What `str::parse` gives for an unsigned integer type whose largest value is
/// `max`: an optional leading `+`, then at least one decimal digit, and a value
/// that fits.
pub open spec fn parse_unsigned(s: Seq<char>, max: nat) -> Option<nat> {
    let digits = if s.len() > 0 && s[0] == '+' { s.drop_first() } else { s };
    if digits.len() > 0 && all_digits(digits) && digits_value(digits) <= max {
        Some(digits_value(digits))
    } else {
        None
    }
}

proof fn lemma_digits_value_grows(s: Seq<char>, t: Seq<char>)
    requires
        all_digits(s + t),
    ensures
        digits_value(s + t) >= digits_value(s),
    decreases t.len(),
{
    if t.len() > 0 {
        let u = s + t;
        assert(u.drop_last() =~= s + t.drop_last());
        assert(all_digits(s + t.drop_last()));
        lemma_digits_value_grows(s, t.drop_last());
    } else {
        assert(s + t =~= s);
    }
}

/// Parses an unsigned decimal whose value is at most `max`, as `str::parse`
/// does for the unsigned integer types.
pub fn parse_unsigned_chars(s: &[char], max: u64) -> (r: Option<u64>)
    ensures
        r matches Some(v) ==> parse_unsigned(s@, max as nat) == Some(v as nat),
        r is None ==> parse_unsigned(s@, max as nat) is None,
{
    let start: usize = if s.len() > 0 && s[0] == '+' { 1 } else { 0 };
    let ghost digits = if s@.len() > 0 && s@[0] == '+' { s@.drop_first() } else { s@ };
    assert(digits =~= s@.skip(start as int));
    if start >= s.len() {
        return None;
    }
    let mut acc: u64 = 0;
    let mut i: usize = start;
    while i < s.len()
        invariant
            start <= i <= s.len(),
            digits =~= s@.skip(start as int),
            digits == (if s@.len() > 0 && s@[0] == '+' { s@.drop_first() } else { s@ }),
            all_digits(s@.subrange(start as int, i as int)),
            acc as nat == digits_value(s@.subrange(start as int, i as int)),
            acc <= max,
        decreases s.len() - i,
    {
        let c = s[i];
        let prefix = Ghost(s@.subrange(start as int, i as int));
        let next = Ghost(s@.subrange(start as int, i + 1));
        assert(next@.drop_last() =~= prefix@);
        if c < '0' || c > '9' {
            proof {
                assert(digits[i - start] == c);
                assert(!all_digits(digits));
                assert(parse_unsigned(s@, max as nat) is None);
            }
            return None;
        }
        let d: u64 = (c as u32 - '0' as u32) as u64;
        assert(all_digits(next@));
        assert(digits_value(next@) == acc * 10 + d);
        if d > max || acc > (max - d) / 10 {
            assert(digits_value(next@) > max) by (nonlinear_arith)
                requires
                    digits_value(next@) == acc * 10 + d,
                    d > max || acc > (max - d) / 10,
                    d < 10,
            {
            }
            proof {
                if all_digits(digits) {
                    assert(digits =~= next@ + s@.subrange(i + 1, s@.len() as int));
                    lemma_digits_value_grows(next@, s@.subrange(i + 1, s@.len() as int));
                }
                assert(parse_unsigned(s@, max as nat) is None);
            }
            return None;
        }
        assert(acc * 10 + d <= max) by (nonlinear_arith)
            requires
                acc <= (max - d) / 10,
                d <= max,
        {
        }
        acc = acc * 10 + d;
        i = i + 1;
    }
    assert(s@.subrange(start as int, s@.len() as int) =~= digits);
    Some(acc)
}

/// White space as `char::is_whitespace` defines it: the Unicode `White_Space`
/// property.
pub open spec fn is_white_space(c: char) -> bool {
    let v = c as u32;
    ||| 0x09 <= v <= 0x0D
    ||| v == 0x20
    ||| v == 0x85
    ||| v == 0xA0
    ||| v == 0x1680
    ||| 0x2000 <= v <= 0x200A
    ||| v == 0x2028
    ||| v == 0x2029
    ||| v == 0x202F
    ||| v == 0x205F
    ||| v == 0x3000
}

/// Whether a character is white space.
pub fn is_white_space_char(c: char) -> (b: bool)
    ensures
        b == is_white_space(c),
{
    let v = c as u32;
    (0x09 <= v && v <= 0x0D) || v == 0x20 || v == 0x85 || v == 0xA0 || v == 0x1680
        || (0x2000 <= v && v <= 0x200A) || v == 0x2028 || v == 0x2029 || v == 0x202F
        || v == 0x205F || v == 0x3000
}

/// The characters with trailing white space removed, as `str::trim_end` does.
pub open spec fn trim_end(s: Seq<char>) -> Seq<char>
    decreases s.len(),
{
    if s.len() > 0 && is_white_space(s.last()) {
        trim_end(s.drop_last())
    } else {
        s
    }
}

/// The number of characters that `trim_end` keeps.
pub fn trim_end_len(s: &[char]) -> (n: usize)
    ensures
        n <= s.len(),
        s@.take(n as int) == trim_end(s@),
{
    let mut n: usize = s.len();
    assert(s@.take(n as int) =~= s@);
    while n > 0 && is_white_space_char(s[n - 1])
        invariant
            n <= s.len(),
            trim_end(s@.take(n as int)) == trim_end(s@),
        decreases n,
    {
        assert(s@.take(n as int).drop_last() =~= s@.take(n - 1));
        n = n - 1;
    }
    n
}

/// The number of bytes UTF-8 uses to encode a character.
pub open spec fn utf8_width(c: char) -> nat {
    let v = c as u32;
    if v <= 0x7F { 1 } else if v <= 0x7FF { 2 } else if v <= 0xFFFF { 3 } else { 4 }
}

/// The number of bytes of the UTF-8 encoding of a character sequence.
pub open spec fn byte_len(s: Seq<char>) -> nat
    decreases s.len(),
{
    if s.len() == 0 { 0 } else { utf8_width(s[0]) + byte_len(s.drop_first()) }
}

/// The index of the character at which byte offset `k` starts, or `None` when
/// `k` is not a character boundary of the UTF-8 encoding (slicing there panics).
pub open spec fn char_index_at_byte(s: Seq<char>, k: int) -> Option<nat>
    decreases s.len(),
{
    if k == 0 {
        Some(0)
    } else if k < 0 || s.len() == 0 {
        None
    } else {
        match char_index_at_byte(s.drop_first(), k - utf8_width(s[0])) {
            Some(i) => Some(i + 1),
            None => None,
        }
    }
}

/// The UTF-8 width of a character.
pub fn utf8_width_exec(c: char) -> (w: usize)
    ensures
        w == utf8_width(c),
{
    let v = c as u32;
    if v <= 0x7F { 1 } else if v <= 0x7FF { 2 } else if v <= 0xFFFF { 3 } else { 4 }
}

proof fn lemma_byte_len_push(s: Seq<char>, c: char)
    ensures
        byte_len(s.push(c)) == byte_len(s) + utf8_width(c),
    decreases s.len(),
{
    if s.len() > 0 {
        assert(s.push(c).drop_first() =~= s.drop_first().push(c));
        lemma_byte_len_push(s.drop_first(), c);
    } else {
        assert(s.push(c).drop_first() =~= Seq::<char>::empty());
        assert(s.push(c)[0] == c);
        assert(byte_len(Seq::<char>::empty()) == 0);
    }
}

/// The UTF-8 byte length of a character sequence, saturating at `usize::MAX`.
pub fn byte_len_exec(s: &[char]) -> (n: usize)
    ensures
        n == if byte_len(s@) > usize::MAX { usize::MAX as nat } else { byte_len(s@) },
{
    let mut n: usize = 0;
    let mut i: usize = 0;
    while i < s.len()
        invariant
            i <= s.len(),
            n == if byte_len(s@.take(i as int)) > usize::MAX { usize::MAX as nat } else { byte_len(s@.take(i as int)) },
        decreases s.len() - i,
    {
        proof {
            assert(s@.take(i + 1) =~= s@.take(i as int).push(s@[i as int]));
            lemma_byte_len_push(s@.take(i as int), s@[i as int]);
        }
        let w = utf8_width_exec(s[i]);
        if n > usize::MAX - w {
            n = usize::MAX;
        } else {
            n = n + w;
        }
        i = i + 1;
    }
    assert(s@.take(i as int) =~= s@);
    n
}

proof fn lemma_char_index_at_byte_take(s: Seq<char>, i: int)
    requires
        0 <= i <= s.len(),
    ensures
        char_index_at_byte(s, byte_len(s.take(i)) as int) == Some(i as nat),
    decreases i,
{
    if i > 0 {
        assert(s.take(i).drop_first() =~= s.drop_first().take(i - 1));
        assert(byte_len(s.take(i)) == utf8_width(s[0]) + byte_len(s.drop_first().take(i - 1)));
        lemma_char_index_at_byte_take(s.drop_first(), i - 1);
        assert(utf8_width(s[0]) >= 1);
    } else {
        assert(s.take(0) =~= Seq::<char>::empty());
    }
}

proof fn lemma_char_index_at_byte_between(s: Seq<char>, i: int, k: int)
    requires
        0 <= i < s.len(),
        byte_len(s.take(i)) < k < byte_len(s.take(i + 1)),
    ensures
        char_index_at_byte(s, k) is None,
    decreases i,
{
    assert(s.take(i + 1) =~= s.take(i).push(s[i]));
    lemma_byte_len_push(s.take(i), s[i]);
    if i > 0 {
        assert(s.take(i).drop_first() =~= s.drop_first().take(i - 1));
        assert(s.take(i + 1).drop_first() =~= s.drop_first().take(i));
        assert(byte_len(s.take(i)) == utf8_width(s[0]) + byte_len(s.drop_first().take(i - 1)));
        assert(byte_len(s.take(i + 1)) == utf8_width(s[0]) + byte_len(s.drop_first().take(i)));
        lemma_char_index_at_byte_between(s.drop_first(), i - 1, k - utf8_width(s[0]));
    } else {
        assert(s.take(0) =~= Seq::<char>::empty());
        assert(s.take(1).drop_first() =~= Seq::<char>::empty());
        assert(byte_len(s.take(1)) == utf8_width(s[0]));
    }
}

/// The character index at which byte offset `k` starts, or `None` when `k` is
/// not a character boundary.
pub fn char_index_at_byte_exec(s: &[char], k: usize) -> (r: Option<usize>)
    ensures
        r matches Some(i) ==> char_index_at_byte(s@, k as int) == Some(i as nat),
        r is None ==> char_index_at_byte(s@, k as int) is None,
{
    let mut n: usize = 0;
    let mut i: usize = 0;
    while i < s.len() && n < k
        invariant
            i <= s.len(),
            n == byte_len(s@.take(i as int)),
            n <= k,
        decreases s.len() - i,
    {
        proof {
            assert(s@.take(i + 1) =~= s@.take(i as int).push(s@[i as int]));
            lemma_byte_len_push(s@.take(i as int), s@[i as int]);
        }
        let w = utf8_width_exec(s[i]);
        if w > k - n {
            proof {
                lemma_char_index_at_byte_between(s@, i as int, k as int);
            }
            return None;
        }
        n = n + w;
        i = i + 1;
    }
    proof {
        lemma_char_index_at_byte_take(s@, i as int);
    }
    if n == k {
        Some(i)
    } else {
        proof {
            assert(s@.take(i as int) =~= s@);
            lemma_char_index_at_byte_beyond(s@, k as int);
        }
        None
    }
}

/// A character index found for a byte offset lies within the text.
pub proof fn lemma_char_index_at_byte_bound(s: Seq<char>, k: int)
    ensures
        char_index_at_byte(s, k) matches Some(i) ==> i <= s.len(),
    decreases s.len(),
{
    if k != 0 && k >= 0 && s.len() > 0 {
        lemma_char_index_at_byte_bound(s.drop_first(), k - utf8_width(s[0]));
    }
}

/// Every character takes at least one byte.
pub proof fn lemma_byte_len_at_least_len(s: Seq<char>)
    ensures
        byte_len(s) >= s.len(),
    decreases s.len(),
{
    if s.len() > 0 {
        lemma_byte_len_at_least_len(s.drop_first());
    }
}

/// Over an ASCII prefix, byte offsets and character indices agree.
pub proof fn lemma_char_index_at_byte_ascii(s: Seq<char>, k: nat)
    requires
        k <= s.len(),
        forall|i: int| 0 <= i < k ==> (#[trigger] s[i] as u32) < 0x80,
    ensures
        char_index_at_byte(s, k as int) == Some(k),
    decreases k,
{
    if k > 0 {
        assert(utf8_width(s[0]) == 1);
        assert forall|i: int| 0 <= i < k - 1 implies (#[trigger] s.drop_first()[i] as u32) < 0x80 by {
            assert(s.drop_first()[i] == s[i + 1]);
        }
        lemma_char_index_at_byte_ascii(s.drop_first(), (k - 1) as nat);
    }
}

/// Appending white space does not change what `trim_end` keeps.
pub proof fn lemma_trim_end_append_white_space(s: Seq<char>, w: Seq<char>)
    requires
        forall|i: int| 0 <= i < w.len() ==> is_white_space(#[trigger] w[i]),
    ensures
        trim_end(s + w) == trim_end(s),
    decreases w.len(),
{
    if w.len() > 0 {
        let u = s + w;
        assert(u.drop_last() =~= s + w.drop_last());
        assert(u.last() == w.last());
        lemma_trim_end_append_white_space(s, w.drop_last());
    } else {
        assert(s + w =~= s);
    }
}

/// The decimal text of a three-digit number: three digits whose value is the number.
pub proof fn lemma_decimal_three_digits(v: nat)
    requires
        100 <= v <= 999,
    ensures
        decimal(v).len() == 3,
        all_digits(decimal(v)),
        digits_value(decimal(v)) == v,
        forall|i: int| 0 <= i < 3 ==> (#[trigger] decimal(v)[i] as u32) < 0x80,
{
    let a = v / 100;
    let b = (v / 10) % 10;
    let c = v % 10;
    assert(v / 10 >= 10 && v / 10 < 100 && (v / 10) / 10 == a && (v / 10) % 10 == b) by (nonlinear_arith)
        requires
            100 <= v <= 999,
            a == v / 100,
            b == (v / 10) % 10,
    {
    }
    assert(v == (a * 10 + b) * 10 + c) by (nonlinear_arith)
        requires
            a == v / 100,
            b == (v / 10) % 10,
            c == v % 10,
    {
    }
    assert(1 <= a <= 9);
    let d = decimal(v);
    assert(decimal(a) == seq![digit_char(a)]);
    assert(decimal(v / 10) == decimal(a).push(digit_char(b)));
    assert(d == decimal(v / 10).push(digit_char(c)));
    assert(d =~= seq![digit_char(a), digit_char(b), digit_char(c)]);
    lemma_digit_char_value(a);
    lemma_digit_char_value(b);
    lemma_digit_char_value(c);
    assert(d.drop_last() =~= seq![digit_char(a), digit_char(b)]);
    assert(d.drop_last().drop_last() =~= seq![digit_char(a)]);
    assert(d.drop_last().drop_last().drop_last() =~= Seq::<char>::empty());
    assert(digits_value(d.drop_last().drop_last().drop_last()) == 0);
    assert(digits_value(d.drop_last().drop_last()) == a);
    assert(digits_value(d.drop_last()) == a * 10 + b);
    assert(digits_value(d) == (a * 10 + b) * 10 + c);
}

/// The decimal text of a number is a non-empty run of digits whose value is
/// the number.
pub proof fn lemma_decimal_value(n: nat)
    ensures
        decimal(n).len() > 0,
        all_digits(decimal(n)),
        digits_value(decimal(n)) == n,
    decreases n,
{
    if n < 10 {
        lemma_digit_char_value(n);
        let d = decimal(n);
        assert(d.drop_last() =~= Seq::<char>::empty());
        assert(digits_value(d.drop_last()) == 0);
        assert(digit_value(d.last()) == Some(n));
        assert(digits_value(d) == digits_value(d.drop_last()) * 10 + n);
    } else {
        lemma_decimal_value(n / 10);
        lemma_digit_char_value(n % 10);
        let d = decimal(n);
        assert(d.drop_last() =~= decimal(n / 10));
        assert(d.last() == digit_char(n % 10));
        assert(digit_value(d.last()) == Some(n % 10));
        assert(digits_value(d) == digits_value(d.drop_last()) * 10 + n % 10);
        assert((n / 10) * 10 + n % 10 == n) by (nonlinear_arith);
    }
}

/// A digit character has its digit as value.
pub proof fn lemma_digit_char_value(d: nat)
    requires
        d < 10,
    ensures
        digit_value(digit_char(d)) == Some(d),
        '0' <= digit_char(d) <= '9',
{
}

proof fn lemma_char_index_at_byte_beyond(s: Seq<char>, k: int)
    requires
        k > byte_len(s),
    ensures
        char_index_at_byte(s, k) is None,
    decreases s.len(),
{
    if s.len() > 0 {
        lemma_char_index_at_byte_beyond(s.drop_first(), k - utf8_width(s[0]));
    }
}

} // verus!
