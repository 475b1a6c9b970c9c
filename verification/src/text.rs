//! Text helpers: numbers in decimal and hexadecimal, splitting, trimming,
//! and the bridge between bytes and text.

use vstd::prelude::*;
use vstd::string::{StrSliceExecFns, StringExecFns};
use vstd::utf8::{decode_utf8, valid_utf8};

verus! {

/// Whether a character has the Unicode `White_Space` property.
pub open spec fn white_space(c: char) -> bool {
    let n = c as u32;
    ||| 0x9 <= n <= 0xd
    ||| n == 0x20
    ||| n == 0x85
    ||| n == 0xa0
    ||| n == 0x1680
    ||| 0x2000 <= n <= 0x200a
    ||| n == 0x2028
    ||| n == 0x2029
    ||| n == 0x202f
    ||| n == 0x205f
    ||| n == 0x3000
}

/// `char::is_whitespace` tells whether a character has the Unicode
/// `White_Space` property: the twenty-five code points listed for it in the
/// Unicode Character Database.
pub assume_specification[ char::is_whitespace ](c: char) -> (res: bool)
    ensures
        res == white_space(c),
;

/// What a byte string reads as when malformed UTF-8 is replaced.
pub uninterp spec fn utf8_lossy(bytes: Seq<u8>) -> Seq<char>;

/// `String::from_utf8_lossy` reads well-formed UTF-8 as it stands; how
/// malformed bytes are replaced depends on the bytes alone.
#[verifier::external_body]
fn from_utf8_lossy(bytes: &[u8]) -> (res: String)
    ensures
        res@ == utf8_lossy(bytes@),
        valid_utf8(bytes@) ==> res@ == decode_utf8(bytes@),
{
    String::from_utf8_lossy(bytes).into_owned()
}

/// The diagnostic for a byte string that is not well-formed UTF-8.
pub uninterp spec fn utf8_error(bytes: Seq<u8>) -> Seq<char>;

/// `String::from_utf8` accepts exactly the well-formed UTF-8 byte strings
/// and reads them as the text they encode. For any other its error says what
/// is wrong with the bytes, which depends on them alone.
#[verifier::external_body]
pub(crate) fn from_utf8(bytes: Vec<u8>) -> (res: Result<String, String>)
    ensures
        res is Ok <==> valid_utf8(bytes@),
        res matches Ok(s) ==> s@ == decode_utf8(bytes@),
        res matches Err(e) ==> e@ == utf8_error(bytes@),
{
    String::from_utf8(bytes).map_err(|e| e.to_string())
}

/// The quoted form of a text: what `{:?}` prints for it.
pub uninterp spec fn quoted(s: Seq<char>) -> Seq<char>;

/// `<str as Debug>::fmt` prints a text between double quotes with its
/// special characters escaped; the output depends on the text alone.
#[verifier::external_body]
pub(crate) fn quote(s: &str) -> (res: String)
    ensures
        res@ == quoted(s@),
{
    format!("{s:?}")
}

/// The characters of a text, in order.
pub fn chars_of(s: &str) -> (res: Vec<char>)
    ensures
        res@ == s@,
{
    let mut out: Vec<char> = Vec::new();
    for c in it: s.chars()
        invariant
            it.seq() == s@,
            out@ == it.seq().take(it.index() as int),
    {
        out.push(c);
        assert(it.seq().take(it.index() + 1) =~= it.seq().take(it.index() as int).push(c));
    }
    assert(s@.take(s@.len() as int) =~= s@);
    out
}

/// Whether two texts are the same.
pub fn same_text(a: &str, b: &str) -> (same: bool)
    ensures
        same == (a@ == b@),
{
    a.to_owned() == b.to_owned()
}

/// The decimal digit `d`.
pub open spec fn digit_char(d: nat) -> char {
    ('0' as u32 + d) as char
}

/// A number in decimal, without leading zeros.
pub open spec fn decimal(n: nat) -> Seq<char>
    decreases n,
{
    if n < 10 {
        seq![digit_char(n)]
    } else {
        decimal(n / 10).push(digit_char(n % 10))
    }
}

fn digit_text(d: u64) -> (res: &'static str)
    requires
        d < 10,
    ensures
        res@ == seq![digit_char(d as nat)],
{
    proof {
        reveal_strlit("0");
        reveal_strlit("1");
        reveal_strlit("2");
        reveal_strlit("3");
        reveal_strlit("4");
        reveal_strlit("5");
        reveal_strlit("6");
        reveal_strlit("7");
        reveal_strlit("8");
        reveal_strlit("9");
    }
    let res = if d == 0 {
        "0"
    } else if d == 1 {
        "1"
    } else if d == 2 {
        "2"
    } else if d == 3 {
        "3"
    } else if d == 4 {
        "4"
    } else if d == 5 {
        "5"
    } else if d == 6 {
        "6"
    } else if d == 7 {
        "7"
    } else if d == 8 {
        "8"
    } else {
        "9"
    };
    assert(res@ =~= seq![digit_char(d as nat)]);
    res
}

/// Append a number in decimal.
pub fn push_decimal(out: &mut String, n: u64)
    ensures
        final(out)@ == old(out)@ + decimal(n as nat),
{
    push_decimal_wide(out, n as u128);
}

/// Append a wide number in decimal.
pub fn push_decimal_wide(out: &mut String, n: u128)
    ensures
        final(out)@ == old(out)@ + decimal(n as nat),
    decreases n,
{
    if n >= 10 {
        push_decimal_wide(out, n / 10);
    }
    out.append(digit_text((n % 10) as u64));
    assert(out@ =~= old(out)@ + decimal(n as nat));
}

/// A number in decimal.
pub fn decimal_of(n: u64) -> (res: String)
    ensures
        res@ == decimal(n as nat),
{
    let mut out = String::new();
    push_decimal(&mut out, n);
    assert(out@ =~= decimal(n as nat));
    out
}

/// The lower-case hexadecimal digit `d`.
pub open spec fn hex_char(d: nat) -> char {
    if d < 10 {
        digit_char(d)
    } else {
        ('a' as u32 + (d - 10)) as char
    }
}

/// The `n` low-order hexadecimal digits of a number, zero-padded.
pub open spec fn hex(v: nat, n: nat) -> Seq<char>
    decreases n,
{
    if n == 0 {
        Seq::empty()
    } else {
        hex(v / 16, (n - 1) as nat).push(hex_char(v % 16))
    }
}

fn hex_text(d: u64) -> (res: &'static str)
    requires
        d < 16,
    ensures
        res@ == seq![hex_char(d as nat)],
{
    if d < 10 {
        digit_text(d)
    } else {
        proof {
            reveal_strlit("a");
            reveal_strlit("b");
            reveal_strlit("c");
            reveal_strlit("d");
            reveal_strlit("e");
            reveal_strlit("f");
        }
        let res = if d == 10 {
            "a"
        } else if d == 11 {
            "b"
        } else if d == 12 {
            "c"
        } else if d == 13 {
            "d"
        } else if d == 14 {
            "e"
        } else {
            "f"
        };
        assert(res@ =~= seq![hex_char(d as nat)]);
        res
    }
}

/// Append the `n` low-order hexadecimal digits of a number.
pub fn push_hex(out: &mut String, v: u64, n: u8)
    ensures
        final(out)@ == old(out)@ + hex(v as nat, n as nat),
    decreases n,
{
    if n > 0 {
        push_hex(out, v / 16, n - 1);
        out.append(hex_text(v % 16));
    }
    assert(out@ =~= old(out)@ + hex(v as nat, n as nat));
}

/// Whether a character is a decimal digit.
pub open spec fn is_digit(c: char) -> bool {
    '0' <= c <= '9'
}

/// The number that a string of decimal digits spells.
pub open spec fn digits_value(s: Seq<char>) -> nat
    decreases s.len(),
{
    if s.len() == 0 {
        0
    } else {
        digits_value(s.drop_last()) * 10 + (s.last() as nat - '0' as nat) as nat
    }
}

/// A text without one leading plus sign.
pub open spec fn without_plus(s: Seq<char>) -> Seq<char> {
    if s.len() > 0 && s[0] == '+' {
        s.skip(1)
    } else {
        s
    }
}

/// Whether a text is made of decimal digits alone.
pub open spec fn all_digits(s: Seq<char>) -> bool {
    forall|i: int| 0 <= i < s.len() ==> is_digit(s[i])
}

/// The 16-bit number that a text spells: decimal digits, at least one,
/// after an optional plus sign.
pub open spec fn u16_of(s: Seq<char>) -> Option<u16> {
    let digits = without_plus(s);
    if digits.len() > 0 && all_digits(digits) && digits_value(digits) <= u16::MAX {
        Some(digits_value(digits) as u16)
    } else {
        None
    }
}

/// Why a text is not a 16-bit number.
#[derive(Debug, Clone, Copy, PartialEq, Eq, Structural)]
pub enum IntError {
    Empty,
    InvalidDigit,
    TooLarge,
}

impl IntError {
    /// The diagnostic.
    pub open spec fn text(self) -> Seq<char> {
        match self {
            IntError::Empty => "cannot parse integer from empty string"@,
            IntError::InvalidDigit => "invalid digit found in string"@,
            IntError::TooLarge => "number too large to fit in target type"@,
        }
    }

    pub fn to_string(&self) -> (res: String)
        ensures
            res@ == self.text(),
    {
        match self {
            IntError::Empty => "cannot parse integer from empty string".to_owned(),
            IntError::InvalidDigit => "invalid digit found in string".to_owned(),
            IntError::TooLarge => "number too large to fit in target type".to_owned(),
        }
    }
}

/// Whether the leading digits of a text already exceed 16 bits.
pub open spec fn overflows(digits: Seq<char>) -> bool {
    exists|n: int| #![trigger digits.take(n)]
        0 <= n <= digits.len() && all_digits(digits.take(n)) && digits_value(digits.take(n))
            > u16::MAX
}

/// Why a text is not a 16-bit number, where it is none: reading from the
/// left, what goes wrong first decides.
pub open spec fn u16_error(s: Seq<char>) -> IntError {
    if s.len() == 0 {
        IntError::Empty
    } else if overflows(without_plus(s)) {
        IntError::TooLarge
    } else {
        IntError::InvalidDigit
    }
}

/// Digits only ever add to the number spelled so far.
proof fn lemma_digits_value_grows(s: Seq<char>, n: int)
    requires
        0 <= n <= s.len(),
    ensures
        digits_value(s.take(n)) <= digits_value(s),
    decreases s.len() - n,
{
    if n < s.len() {
        lemma_digits_value_grows(s, n + 1);
        assert(s.take(n + 1).drop_last() =~= s.take(n));
    } else {
        assert(s.take(n) =~= s);
    }
}

/// Read a 16-bit number in decimal.
pub fn parse_u16(s: &str) -> (res: Result<u16, IntError>)
    ensures
        match res {
            Ok(v) => u16_of(s@) == Some(v),
            Err(e) => u16_of(s@) is None && e == u16_error(s@),
        },
{
    let chars = chars_of(s);
    if chars.len() == 0 {
        return Err(IntError::Empty);
    }
    let start: usize = if chars[0] == '+' {
        1
    } else {
        0
    };
    let ghost digits = without_plus(s@);
    assert(digits =~= chars@.skip(start as int));
    if chars.len() == start {
        assert(!overflows(digits));
        return Err(IntError::InvalidDigit);
    }
    let mut value: u32 = 0;
    let mut i: usize = start;
    while i < chars.len()
        invariant
            chars@ == s@,
            start <= i <= chars@.len(),
            digits == without_plus(s@),
            digits == chars@.skip(start as int),
            digits.len() > 0,
            value == digits_value(digits.take(i - start)),
            value <= u16::MAX,
            forall|k: int| 0 <= k < i - start ==> is_digit(digits[k]),
        decreases chars@.len() - i,
    {
        let c = chars[i];
        let ghost at = i - start;
        assert(c == digits[at]);
        if c < '0' || c > '9' {
            assert(!is_digit(digits[at]));
            proof {
                assert forall|n: int|
                    #![trigger digits.take(n)]
                    0 <= n <= digits.len() && all_digits(digits.take(n)) implies digits_value(
                    digits.take(n),
                ) <= u16::MAX by {
                    if n > at {
                        assert(digits.take(n)[at] == digits[at]);
                    } else {
                        lemma_digits_value_grows(digits.take(at), n);
                        assert(digits.take(at).take(n) =~= digits.take(n));
                    }
                }
            }
            return Err(IntError::InvalidDigit);
        }
        assert(digits.take(at + 1).drop_last() =~= digits.take(at));
        assert(digits.take(at + 1).last() == c);
        value = value * 10 + (c as u32 - '0' as u32);
        proof {
            lemma_digits_value_grows(digits, at + 1);
        }
        if value > 65535 {
            assert(all_digits(digits.take(at + 1)));
            assert(overflows(digits));
            return Err(IntError::TooLarge);
        }
        i = i + 1;
    }
    assert(digits.take(digits.len() as int) =~= digits);
    Ok(value as u16)
}

/// Where a character first stands in a text.
fn first_index(chars: &Vec<char>, c: char) -> (res: Option<usize>)
    ensures
        match res {
            Some(i) => i < chars@.len() && chars@[i as int] == c && !chars@.take(
                i as int,
            ).contains(c),
            None => !chars@.contains(c),
        },
{
    let mut i: usize = 0;
    while i < chars.len()
        invariant
            i <= chars@.len(),
            forall|k: int| 0 <= k < i ==> chars@[k] != c,
        decreases chars@.len() - i,
    {
        if chars[i] == c {
            return Some(i);
        }
        i = i + 1;
    }
    None
}

/// The parts of a text before and after the first `c`.
pub open spec fn split_first(s: Seq<char>, c: char) -> Option<(Seq<char>, Seq<char>)>
    decreases s.len(),
{
    if s.len() == 0 {
        None
    } else if s[0] == c {
        Some((Seq::empty(), s.skip(1)))
    } else {
        match split_first(s.skip(1), c) {
            Some((head, tail)) => Some((seq![s[0]] + head, tail)),
            None => None,
        }
    }
}

/// The parts of a text before and after the last `c`.
pub open spec fn split_last(s: Seq<char>, c: char) -> Option<(Seq<char>, Seq<char>)>
    decreases s.len(),
{
    if s.len() == 0 {
        None
    } else if s.last() == c {
        Some((s.drop_last(), Seq::empty()))
    } else {
        match split_last(s.drop_last(), c) {
            Some((head, tail)) => Some((head, tail.push(s.last()))),
            None => None,
        }
    }
}

/// A text that holds no `c` has no such parts.
pub proof fn lemma_split_absent(s: Seq<char>, c: char)
    requires
        !s.contains(c),
    ensures
        split_first(s, c) is None,
        split_last(s, c) is None,
    decreases s.len(),
{
    if s.len() > 0 {
        assert(s.contains(s[0]));
        assert(s.contains(s.last()));
        assert forall|x: char| s.skip(1).contains(x) implies s.contains(x) by {
            let i = choose|i: int| 0 <= i < s.skip(1).len() && s.skip(1)[i] == x;
            assert(s[i + 1] == x);
        }
        assert forall|x: char| s.drop_last().contains(x) implies s.contains(x) by {
            let i = choose|i: int| 0 <= i < s.drop_last().len() && s.drop_last()[i] == x;
            assert(s[i] == x);
        }
        lemma_split_absent(s.skip(1), c);
        lemma_split_absent(s.drop_last(), c);
    }
}

/// The first `c` is the one with no other before it.
pub proof fn lemma_split_first(head: Seq<char>, c: char, tail: Seq<char>)
    requires
        !head.contains(c),
    ensures
        split_first(head + seq![c] + tail, c) == Some((head, tail)),
    decreases head.len(),
{
    let s = head + seq![c] + tail;
    if head.len() == 0 {
        assert(s.skip(1) =~= tail);
        assert(head =~= Seq::empty());
    } else {
        assert(head.contains(head[0]));
        assert(s.skip(1) =~= head.skip(1) + seq![c] + tail);
        assert forall|x: char| head.skip(1).contains(x) implies head.contains(x) by {
            let i = choose|i: int| 0 <= i < head.skip(1).len() && head.skip(1)[i] == x;
            assert(head[i + 1] == x);
        }
        lemma_split_first(head.skip(1), c, tail);
        assert(seq![head[0]] + head.skip(1) =~= head);
    }
}

/// The last `c` is the one with no other after it.
pub proof fn lemma_split_last(head: Seq<char>, c: char, tail: Seq<char>)
    requires
        !tail.contains(c),
    ensures
        split_last(head + seq![c] + tail, c) == Some((head, tail)),
    decreases tail.len(),
{
    let s = head + seq![c] + tail;
    if tail.len() == 0 {
        assert(s.drop_last() =~= head);
        assert(tail =~= Seq::empty());
    } else {
        assert(tail.contains(tail.last()));
        assert(s.drop_last() =~= head + seq![c] + tail.drop_last());
        assert forall|x: char| tail.drop_last().contains(x) implies tail.contains(x) by {
            let i = choose|i: int| 0 <= i < tail.drop_last().len() && tail.drop_last()[i] == x;
            assert(tail[i] == x);
        }
        lemma_split_last(head, c, tail.drop_last());
        assert(tail.drop_last().push(tail.last()) =~= tail);
    }
}

/// Whether a pair of texts is the pair of parts given.
pub open spec fn is_split(
    res: Option<(String, String)>,
    parts: Option<(Seq<char>, Seq<char>)>,
) -> bool {
    match (res, parts) {
        (Some((a, b)), Some((x, y))) => a@ == x && b@ == y,
        (None, None) => true,
        _ => false,
    }
}

/// Split at the first `c`, which belongs to neither part.
pub fn split_once(s: &str, c: char) -> (res: Option<(String, String)>)
    ensures
        is_split(res, split_first(s@, c)),
        res matches Some((head, tail)) ==> s@ == head@ + seq![c] + tail@ && !head@.contains(c),
{
    let chars = chars_of(s);
    match first_index(&chars, c) {
        None => {
            proof {
                lemma_split_absent(s@, c);
            }
            None
        },
        Some(i) => {
            let n = chars.len();
            let head = s.substring_char(0, i).to_owned();
            let tail = s.substring_char(i + 1, n).to_owned();
            assert(head@ =~= s@.take(i as int));
            assert(s@ =~= head@ + seq![c] + tail@);
            proof {
                lemma_split_first(head@, c, tail@);
            }
            Some((head, tail))
        },
    }
}

/// Split at the last `c`, which belongs to neither part.
pub fn rsplit_once(s: &str, c: char) -> (res: Option<(String, String)>)
    ensures
        is_split(res, split_last(s@, c)),
{
    let chars = chars_of(s);
    let n = chars.len();
    let mut i: usize = n;
    while i > 0
        invariant
            chars@ == s@,
            n == chars@.len(),
            i <= n,
            forall|k: int| i <= k < n ==> chars@[k] != c,
        decreases i,
    {
        if chars[i - 1] == c {
            let head = s.substring_char(0, i - 1).to_owned();
            let tail = s.substring_char(i, n).to_owned();
            assert(s@ =~= head@ + seq![c] + tail@);
            proof {
                lemma_split_last(head@, c, tail@);
            }
            return Some((head, tail));
        }
        i = i - 1;
    }
    proof {
        lemma_split_absent(s@, c);
    }
    None
}

/// A text without its leading white space.
pub open spec fn trim_front(s: Seq<char>) -> Seq<char>
    decreases s.len(),
{
    if s.len() > 0 && white_space(s[0]) {
        trim_front(s.skip(1))
    } else {
        s
    }
}

/// A text without its trailing white space.
pub open spec fn trim_back(s: Seq<char>) -> Seq<char>
    decreases s.len(),
{
    if s.len() > 0 && white_space(s.last()) {
        trim_back(s.drop_last())
    } else {
        s
    }
}

/// A text without leading and trailing white space.
pub open spec fn trimmed(s: Seq<char>) -> Seq<char> {
    trim_back(trim_front(s))
}

/// Strip leading and trailing white space.
pub fn trim(s: &str) -> (res: String)
    ensures
        res@ == trimmed(s@),
{
    let chars = chars_of(s);
    let mut lo: usize = 0;
    let mut hi: usize = chars.len();
    assert(s@.subrange(0, hi as int) =~= s@);
    while lo < hi && chars[lo].is_whitespace()
        invariant
            chars@ == s@,
            hi == chars@.len(),
            lo <= hi,
            trim_front(s@) == trim_front(s@.subrange(lo as int, hi as int)),
        decreases hi - lo,
    {
        assert(s@.subrange(lo as int, hi as int).skip(1) =~= s@.subrange(lo + 1, hi as int));
        lo = lo + 1;
    }
    assert(trim_front(s@) == s@.subrange(lo as int, hi as int));
    while lo < hi && chars[hi - 1].is_whitespace()
        invariant
            chars@ == s@,
            lo <= hi <= chars@.len(),
            trimmed(s@) == trim_back(s@.subrange(lo as int, hi as int)),
        decreases hi - lo,
    {
        assert(s@.subrange(lo as int, hi as int).drop_last() =~= s@.subrange(lo as int, hi - 1));
        hi = hi - 1;
    }
    s.substring_char(lo, hi).to_owned()
}

/// What a byte string reads as: the text it encodes where it is well-formed
/// UTF-8, else the text left after replacing what is malformed.
pub open spec fn lossy_text(bytes: Seq<u8>) -> Seq<char> {
    if valid_utf8(bytes) {
        decode_utf8(bytes)
    } else {
        utf8_lossy(bytes)
    }
}

/// Read a byte string as text, replacing malformed UTF-8, and strip white
/// space from both ends.
pub fn lossy_trimmed(bytes: &[u8]) -> (res: String)
    ensures
        res@ == trimmed(lossy_text(bytes@)),
{
    let raw = from_utf8_lossy(bytes);
    trim(raw.as_str())
}

/// One text after another.
pub fn join2(a: &str, b: &str) -> (res: String)
    ensures
        res@ == a@ + b@,
{
    let mut out = a.to_owned();
    out.append(b);
    out
}

/// Three texts in a row.
pub fn join3(a: &str, b: &str, c: &str) -> (res: String)
    ensures
        res@ == a@ + b@ + c@,
{
    let mut out = join2(a, b);
    out.append(c);
    out
}

/// Why nothing more comes, where nothing does.
pub open spec fn cause_of(end: Option<&str>) -> Option<Seq<char>> {
    match end {
        Some(cause) => Some(cause@),
        None => None,
    }
}

/// A failure with its cause.
pub open spec fn because(failure: Seq<char>, cause: Seq<char>) -> Seq<char> {
    failure + ": "@ + cause
}

/// A failure with its cause.
pub fn with_cause(failure: &str, cause: &str) -> (res: String)
    ensures
        res@ == because(failure@, cause@),
{
    join3(failure, ": ", cause)
}

/// Whether a text holds another at offset `at`.
pub open spec fn occurs_at(hay: Seq<char>, needle: Seq<char>, at: int) -> bool {
    0 <= at && at + needle.len() <= hay.len() && hay.subrange(at, at + needle.len()) == needle
}

/// Whether a text holds another.
pub fn contains_text(hay: &str, needle: &str) -> (res: bool)
    ensures
        res == exists|at: int| occurs_at(hay@, needle@, at),
{
    let h = chars_of(hay);
    let n = chars_of(needle);
    if n.len() > h.len() {
        return false;
    }
    let mut at: usize = 0;
    while at <= h.len() - n.len()
        invariant
            h@ == hay@,
            n@ == needle@,
            n@.len() <= h@.len(),
            at <= h@.len() - n@.len() + 1,
            forall|k: int| 0 <= k < at ==> !occurs_at(hay@, needle@, k),
        decreases h@.len() + 1 - at,
    {
        let mut i: usize = 0;
        let mut same = true;
        while i < n.len() && same
            invariant
                h@ == hay@,
                n@ == needle@,
                i <= n@.len(),
                at + n@.len() <= h@.len(),
                same ==> forall|k: int| 0 <= k < i ==> h@[at + k] == n@[k],
                !same ==> exists|k: int| 0 <= k < n@.len() && h@[at + k] != n@[k],
            decreases n@.len() - i, if same { 1int } else { 0int },
        {
            assert(h.len() <= usize::MAX);
            if h[at + i] != n[i] {
                assert(h@[at + i] != n@[i as int]);
                same = false;
            } else {
                i = i + 1;
            }
        }
        let ghost here = hay@.subrange(at as int, at + needle@.len());
        if same {
            assert(here =~= needle@);
            assert(occurs_at(hay@, needle@, at as int));
            return true;
        }
        proof {
            let k = choose|k: int| 0 <= k < n@.len() && h@[at + k] != n@[k];
            assert(here[k] != needle@[k]);
        }
        at = at + 1;
    }
    false
}

// ---------------------------------------------------------------------------
// Laws
// ---------------------------------------------------------------------------

/// Decimal digits: one digit is its character, and a longer number is the
/// number without its last digit, then that digit.
pub proof fn law_decimal(n: nat, d: nat)
    requires
        d < 10,
    ensures
        decimal(d) == seq![(48 + d) as char],
        n > 0 ==> decimal(10 * n + d) == decimal(n).push((48 + d) as char),
{
    assert((10 * n + d) / 10 == n);
    assert((10 * n + d) % 10 == d);
}

/// Hexadecimal digits, lower-case and zero-padded: the number without its last
/// digit in one place less, then that digit.
pub proof fn law_hex(v: nat, d: nat, n: nat)
    requires
        d < 16,
    ensures
        hex(v, 0) == Seq::<char>::empty(),
        d < 10 ==> hex(16 * v + d, n + 1) == hex(v, n).push((48 + d) as char),
        d >= 10 ==> hex(16 * v + d, n + 1) == hex(v, n).push((87 + d) as char),
{
    assert((16 * v + d) / 16 == v);
    assert((16 * v + d) % 16 == d);
}

/// A number in decimal is made of digits, at least one, and spells itself.
proof fn lemma_decimal_spells(n: nat)
    ensures
        decimal(n).len() > 0,
        forall|i: int| 0 <= i < decimal(n).len() ==> '0' <= #[trigger] decimal(n)[i] <= '9',
        digits_value(decimal(n)) == n,
    decreases n,
{
    reveal_with_fuel(digits_value, 2);
    if n < 10 {
        assert(decimal(n).drop_last() =~= Seq::<char>::empty());
    } else {
        lemma_decimal_spells(n / 10);
        assert(decimal(n).drop_last() =~= decimal(n / 10));
        assert(decimal(n).last() == digit_char(n % 10));
    }
}

/// Leading zeros add nothing.
proof fn lemma_zeros(zeros: nat, s: Seq<char>)
    ensures
        digits_value(Seq::new(zeros, |i: int| '0') + s) == digits_value(s),
    decreases s.len(), zeros,
{
    let z = Seq::new(zeros, |i: int| '0');
    if s.len() > 0 {
        lemma_zeros(zeros, s.drop_last());
        assert((z + s).drop_last() =~= z + s.drop_last());
    } else {
        assert(z + s =~= z);
        if zeros > 0 {
            let less = Seq::new((zeros - 1) as nat, |i: int| '0');
            lemma_zeros((zeros - 1) as nat, s);
            assert(less + s =~= less);
            assert(z.drop_last() =~= less);
        }
    }
}

/// A 16-bit number reads back from its decimal digits, with or without zeros
/// or a plus sign in front; a larger one does not.
pub proof fn law_u16_reads_decimal(n: nat, zeros: nat)
    ensures
        ({
            let s = Seq::new(zeros, |i: int| '0') + decimal(n);
            let expected = if n <= 65535 {
                Some(n as u16)
            } else {
                None
            };
            &&& u16_of(s) == expected
            &&& u16_of(seq!['+'] + s) == expected
            &&& n > 65535 ==> u16_error(s) == IntError::TooLarge && u16_error(seq!['+'] + s)
                == IntError::TooLarge
        }),
{
    let s = Seq::new(zeros, |i: int| '0') + decimal(n);
    lemma_decimal_spells(n);
    lemma_zeros(zeros, decimal(n));
    assert forall|i: int| 0 <= i < s.len() implies is_digit(#[trigger] s[i]) by {
        if i >= zeros {
            assert(s[i] == decimal(n)[i - zeros]);
        }
    }
    assert(is_digit(s[0]));
    assert(without_plus(s) == s);
    assert((seq!['+'] + s).skip(1) =~= s);
    if n > 65535 {
        assert(s.take(s.len() as int) =~= s);
        assert(overflows(s));
    }
}

/// A text that is empty but for a plus sign, or that holds anything but digits
/// behind one, is no number. Nothing at all is told apart from a character that
/// is no digit, and so is a number that is already too large before it.
pub proof fn law_u16_refuses(sign: bool, zeros: nat, n: nat, c: char, rest: Seq<char>)
    requires
        !('0' <= c <= '9'),
    ensures
        ({
            let plus = if sign {
                seq!['+']
            } else {
                Seq::empty()
            };
            let s = plus + (Seq::new(zeros, |i: int| '0') + decimal(n) + seq![c] + rest);
            &&& u16_of(s) is None
            &&& u16_error(s) == (if n > 65535 {
                IntError::TooLarge
            } else {
                IntError::InvalidDigit
            })
        }),
        c != '+' ==> u16_of(seq![c] + rest) is None && u16_error(seq![c] + rest)
            == IntError::InvalidDigit,
        u16_of(seq!['+', c] + rest) is None,
        u16_error(seq!['+', c] + rest) == IntError::InvalidDigit,
        u16_of(Seq::empty()) is None,
        u16_error(Seq::empty()) == IntError::Empty,
        u16_of(seq!['+']) is None,
        u16_error(seq!['+']) == IntError::InvalidDigit,
{
    let plus = if sign {
        seq!['+']
    } else {
        Seq::empty()
    };
    let head = Seq::new(zeros, |i: int| '0') + decimal(n);
    let digits = head + seq![c] + rest;
    let s = plus + digits;
    lemma_decimal_spells(n);
    lemma_zeros(zeros, decimal(n));
    assert forall|i: int| 0 <= i < head.len() implies is_digit(#[trigger] head[i]) by {
        if i >= zeros {
            assert(head[i] == decimal(n)[i - zeros]);
        }
    }
    assert(digits[0] == head[0]);
    assert(is_digit(head[0]));
    if sign {
        assert(s.skip(1) =~= digits);
    } else {
        assert(s =~= digits);
    }
    assert(without_plus(s) == digits);
    assert(digits.take(head.len() as int) =~= head);
    assert(digits[head.len() as int] == c);
    assert(all_digits(head));
    if n > 65535 {
        assert(all_digits(digits.take(head.len() as int)));
        assert(overflows(digits));
    } else {
        lemma_no_overflow(digits, head.len() as int);
    }
    let a = seq![c] + rest;
    assert(a[0] == c);
    assert(a.take(0) =~= Seq::<char>::empty());
    lemma_no_overflow(a, 0);
    let b = seq!['+', c] + rest;
    assert(b[0] == '+');
    assert(b.skip(1) =~= a);
    assert(seq!['+'].skip(1) =~= Seq::<char>::empty());
    assert(without_plus(seq!['+']) =~= Seq::<char>::empty());
    assert(!overflows(Seq::<char>::empty())) by {
        assert forall|m: int|
            #![trigger Seq::<char>::empty().take(m)]
            0 <= m <= Seq::<char>::empty().len() implies digits_value(
            Seq::<char>::empty().take(m),
        ) <= u16::MAX by {
            assert(Seq::<char>::empty().take(m) =~= Seq::<char>::empty());
        }
    }
}

/// What stands before a character that is no digit decides whether the number
/// is too large.
proof fn lemma_no_overflow(digits: Seq<char>, at: int)
    requires
        0 <= at < digits.len(),
        !is_digit(digits[at]),
        digits_value(digits.take(at)) <= u16::MAX,
    ensures
        !overflows(digits),
        !all_digits(digits),
{
    assert forall|n: int|
        #![trigger digits.take(n)]
        0 <= n <= digits.len() && all_digits(digits.take(n)) implies digits_value(digits.take(n))
        <= u16::MAX by {
        if n > at {
            assert(digits.take(n)[at] == digits[at]);
        } else {
            lemma_digits_value_grows(digits.take(at), n);
            assert(digits.take(at).take(n) =~= digits.take(n));
        }
    }
}

/// A text splits at the first `c` into what stands before and after it, and at
/// the last `c` likewise; one without a `c` does not split.
pub proof fn law_split(s: Seq<char>, c: char, head: Seq<char>, tail: Seq<char>)
    ensures
        split_first(s, c) == Some((head, tail)) <==> s == head + seq![c] + tail && !head.contains(c),
        split_last(s, c) == Some((head, tail)) <==> s == head + seq![c] + tail && !tail.contains(c),
        split_first(s, c) is None <==> !s.contains(c),
        split_last(s, c) is None <==> !s.contains(c),
{
    lemma_parts(s, c);
    if s == head + seq![c] + tail {
        assert(s[head.len() as int] == c);
        if !head.contains(c) {
            lemma_split_first(head, c, tail);
        }
        if !tail.contains(c) {
            lemma_split_last(head, c, tail);
        }
    }
    if !s.contains(c) {
        lemma_split_absent(s, c);
    }
}

/// The parts of a text make it up, and the `c` between them is the one meant.
proof fn lemma_parts(s: Seq<char>, c: char)
    ensures
        split_first(s, c) matches Some((head, tail)) ==> s == head + seq![c] + tail
            && !head.contains(c) && s.contains(c),
        split_last(s, c) matches Some((head, tail)) ==> s == head + seq![c] + tail
            && !tail.contains(c) && s.contains(c),
        s.contains(c) ==> split_first(s, c) is Some && split_last(s, c) is Some,
    decreases s.len(),
{
    if s.len() > 0 {
        let front = s.skip(1);
        let back = s.drop_last();
        lemma_parts(front, c);
        lemma_parts(back, c);
        assert(s =~= seq![s[0]] + front);
        assert(s =~= back.push(s.last()));
        if s.contains(c) {
            let i = choose|i: int| 0 <= i < s.len() && s[i] == c;
            if i > 0 {
                assert(front[i - 1] == c);
            }
            if i < s.len() - 1 {
                assert(back[i] == c);
            }
        }
        if s[0] == c {
            assert(s =~= Seq::<char>::empty() + seq![c] + front);
            assert(s.contains(c));
        } else if let Some((head, tail)) = split_first(front, c) {
            let whole = seq![s[0]] + head;
            assert(s =~= whole + seq![c] + tail);
            assert forall|x: char| whole.contains(x) implies x == s[0] || head.contains(x) by {
                let i = choose|i: int| 0 <= i < whole.len() && whole[i] == x;
                if i > 0 {
                    assert(head[i - 1] == x);
                }
            }
            assert(s[whole.len() as int] == c);
        }
        if s.last() == c {
            assert(s =~= back + seq![c] + Seq::<char>::empty());
            assert(s[s.len() - 1] == c);
        } else if let Some((head, tail)) = split_last(back, c) {
            let whole = tail.push(s.last());
            assert(s =~= head + seq![c] + whole);
            assert forall|x: char| whole.contains(x) implies x == s.last() || tail.contains(x) by {
                let i = choose|i: int| 0 <= i < whole.len() && whole[i] == x;
                if i < tail.len() {
                    assert(tail[i] == x);
                }
            }
            assert(s[head.len() as int] == c);
        }
    }
}

/// Trimming takes the white space off both ends and nothing else.
pub proof fn law_trimmed(front: Seq<char>, s: Seq<char>, back: Seq<char>)
    requires
        forall|i: int| 0 <= i < front.len() ==> white_space(#[trigger] front[i]),
        forall|i: int| 0 <= i < back.len() ==> white_space(#[trigger] back[i]),
        s.len() > 0 ==> !white_space(s[0]) && !white_space(s.last()),
    ensures
        trimmed(front + s + back) == s,
{
    if s.len() == 0 {
        let all = front + s + back;
        assert(all =~= front + back);
        assert forall|i: int| 0 <= i < all.len() implies white_space(#[trigger] all[i]) by {
            if i < front.len() {
                assert(all[i] == front[i]);
            } else {
                assert(all[i] == back[i - front.len()]);
            }
        }
        lemma_trim_front(all, Seq::empty());
        assert(all + Seq::<char>::empty() =~= all);
        assert(s =~= Seq::<char>::empty());
    } else {
        assert(front + s + back =~= front + (s + back));
        assert((s + back)[0] == s[0]);
        lemma_trim_front(front, s + back);
        lemma_trim_back(s, back);
    }
}

proof fn lemma_trim_front(front: Seq<char>, s: Seq<char>)
    requires
        forall|i: int| 0 <= i < front.len() ==> white_space(#[trigger] front[i]),
        s.len() > 0 ==> !white_space(s[0]),
    ensures
        trim_front(front + s) == s,
    decreases front.len(),
{
    let all = front + s;
    if front.len() > 0 {
        assert(all[0] == front[0]);
        assert(all.skip(1) =~= front.skip(1) + s);
        assert forall|i: int| 0 <= i < front.len() - 1 implies white_space(
            #[trigger] front.skip(1)[i],
        ) by {
            assert(front.skip(1)[i] == front[i + 1]);
        }
        lemma_trim_front(front.skip(1), s);
    } else {
        assert(all =~= s);
    }
}

proof fn lemma_trim_back(s: Seq<char>, back: Seq<char>)
    requires
        forall|i: int| 0 <= i < back.len() ==> white_space(#[trigger] back[i]),
        s.len() > 0 ==> !white_space(s.last()),
    ensures
        trim_back(s + back) == s,
    decreases back.len(),
{
    let all = s + back;
    if back.len() > 0 {
        assert(all.last() == back.last());
        assert(back[back.len() - 1] == back.last());
        assert(all.drop_last() =~= s + back.drop_last());
        assert forall|i: int| 0 <= i < back.len() - 1 implies white_space(
            #[trigger] back.drop_last()[i],
        ) by {
            assert(back.drop_last()[i] == back[i]);
        }
        lemma_trim_back(s, back.drop_last());
    } else {
        assert(all =~= s);
    }
}

/// Well-formed bytes read as the text they encode, others as what replacing
/// leaves of them.
pub proof fn law_lossy_text(bytes: Seq<u8>, s: Seq<char>)
    ensures
        lossy_text(vstd::utf8::encode_utf8(s)) == s,
        !valid_utf8(bytes) ==> lossy_text(bytes) == utf8_lossy(bytes),
{
    vstd::utf8::encode_utf8_valid_utf8(s);
    vstd::utf8::encode_utf8_decode_utf8(s);
}

/// A text holds another at an offset exactly where it has the other's
/// characters from there on.
pub proof fn law_occurs_at(hay: Seq<char>, needle: Seq<char>, at: int)
    ensures
        occurs_at(hay, needle, at) <==> 0 <= at && at + needle.len() <= hay.len() && forall|i: int|
            0 <= i < needle.len() ==> #[trigger] hay[at + i] == needle[i],
{
    if 0 <= at && at + needle.len() <= hay.len() {
        let part = hay.subrange(at, at + needle.len());
        if occurs_at(hay, needle, at) {
            assert forall|i: int| 0 <= i < needle.len() implies #[trigger] hay[at + i]
                == needle[i] by {
                assert(part[i] == hay[at + i]);
            }
        }
        if forall|i: int| 0 <= i < needle.len() ==> #[trigger] hay[at + i] == needle[i] {
            assert forall|i: int| 0 <= i < needle.len() implies part[i] == needle[i] by {
                assert(part[i] == hay[at + i]);
            }
            assert(part =~= needle);
        }
    }
}

/// A failure and its cause stand side by side, a colon and a space between
/// them.
pub proof fn law_because(failure: Seq<char>, cause: Seq<char>)
    ensures
        because(failure, cause) == failure + seq![':', ' '] + cause,
{
    reveal_strlit(": ");
    assert(": "@ =~= seq![':', ' ']);
}

/// White space is these twenty-five characters and no other.
pub proof fn law_white_space(c: char)
    ensures
        white_space(c) <==> seq![
            9u32, 10, 11, 12, 13, 32, 133, 160, 5760, 8192, 8193, 8194, 8195, 8196, 8197, 8198,
            8199, 8200, 8201, 8202, 8232, 8233, 8239, 8287, 12288,
        ].contains(c as u32),
{
    let all = seq![
        9u32, 10, 11, 12, 13, 32, 133, 160, 5760, 8192, 8193, 8194, 8195, 8196, 8197, 8198, 8199,
        8200, 8201, 8202, 8232, 8233, 8239, 8287, 12288,
    ];
    let n = c as u32;
    if white_space(c) {
        let i: int = if n <= 13 {
            n - 9
        } else if n == 32 {
            5
        } else if n == 133 {
            6
        } else if n == 160 {
            7
        } else if n == 5760 {
            8
        } else if n <= 8202 {
            n - 8183
        } else if n == 8232 {
            20
        } else if n == 8233 {
            21
        } else if n == 8239 {
            22
        } else if n == 8287 {
            23
        } else {
            24
        };
        assert(all[i] == n);
    }
}

} // verus!
