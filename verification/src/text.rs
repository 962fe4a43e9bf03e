//! Text helpers: the few string operations that the adapters' rules are written with.

use vstd::arithmetic::power::{lemma_pow0, lemma_pow1, lemma_pow_adds, lemma_pow_positive};
use vstd::prelude::*;
use vstd::utf8::{decode_utf8, valid_utf8};

use crate::decimal::{decimal_text, digit_char, digits, last_digits, magnitude, ten_to, Dec};

verus! {

/// Whether `c` has the Unicode `White_Space` property: tab, line feed, vertical tab, form feed,
/// carriage return, space, next line, and the wider spaces and separators.
pub open spec fn white_space(c: char) -> bool {
    let n = c as u32;
    ||| 0x9 <= n <= 0xd
    ||| n == 0x20
    ||| n == 0x85
    ||| n == 0xa0
    ||| n == 0x1680
    ||| 0x2000 <= n <= 0x200a
    ||| n == 0x2028
    ||| n == 0x2029
    ||| n == 0x202f
    ||| n == 0x205f
    ||| n == 0x3000
}

/// `char::is_whitespace` tells whether its argument has the `White_Space` property.
pub assume_specification[ char::is_whitespace ](c: char) -> (r: bool)
    ensures
        r == white_space(c),
;

/// The ASCII lower-case equivalent of `c`: `A` to `Z` become `a` to `z`, all else is unchanged.
pub open spec fn ascii_lower(c: char) -> char {
    if 'A' <= c <= 'Z' {
        ((c as u32) + 32) as char
    } else {
        c
    }
}

/// The text with each character mapped to its ASCII lower-case equivalent.
pub open spec fn lowered(s: Seq<char>) -> Seq<char> {
    s.map_values(|c: char| ascii_lower(c))
}

/// `str::to_ascii_lowercase` copies the text with ASCII letters mapped to lower case and every
/// other character unchanged.
pub assume_specification[ str::to_ascii_lowercase ](s: &str) -> (r: String)
    ensures
        r@ == lowered(s@),
;

/// `String::push` appends one character.
pub assume_specification[ String::push ](s: &mut String, c: char)
    ensures
        final(s)@ == old(s)@.push(c),
;

/// The first index at or after `i` that holds no white space, or the length.
pub open spec fn skip_white(s: Seq<char>, i: int) -> int
    decreases s.len() - i,
{
    if 0 <= i < s.len() && white_space(s[i]) {
        skip_white(s, i + 1)
    } else {
        i
    }
}

/// One past the last index at or after `lo` and before `hi` that holds no white space, or `lo`.
pub open spec fn drop_white(s: Seq<char>, lo: int, hi: int) -> int
    decreases hi - lo,
{
    if lo < hi && white_space(s[hi - 1]) {
        drop_white(s, lo, hi - 1)
    } else {
        hi
    }
}

/// The text without leading and trailing white space.
pub open spec fn trimmed(s: Seq<char>) -> Seq<char> {
    let lo = skip_white(s, 0);
    s.subrange(lo, drop_white(s, lo, s.len() as int))
}

proof fn skipped_is_white(s: Seq<char>, i: int)
    requires
        0 <= i <= s.len(),
    ensures
        i <= skip_white(s, i) <= s.len(),
        forall|k: int| i <= k < skip_white(s, i) ==> white_space(#[trigger] s[k]),
        skip_white(s, i) < s.len() ==> !white_space(s[skip_white(s, i)]),
    decreases s.len() - i,
{
    if i < s.len() && white_space(s[i]) {
        skipped_is_white(s, i + 1);
    }
}

proof fn dropped_is_white(s: Seq<char>, lo: int, hi: int)
    requires
        0 <= lo <= hi <= s.len(),
    ensures
        lo <= drop_white(s, lo, hi) <= hi,
        forall|k: int| drop_white(s, lo, hi) <= k < hi ==> white_space(#[trigger] s[k]),
        lo < drop_white(s, lo, hi) ==> !white_space(s[drop_white(s, lo, hi) - 1]),
    decreases hi - lo,
{
    if lo < hi && white_space(s[hi - 1]) {
        dropped_is_white(s, lo, hi - 1);
    }
}

/// Trimming takes white space off both ends and nothing else: what is left is a stretch of the
/// text that neither begins nor ends with white space, and all before and after it is white space.
/// Nothing is left exactly of a text that is all white space.
pub proof fn only_white_is_trimmed(s: Seq<char>)
    ensures
        exists|lo: int, hi: int|
            0 <= lo <= hi <= s.len() && trimmed(s) == #[trigger] s.subrange(lo, hi) && (forall|
                k: int,
            |
                0 <= k < lo || hi <= k < s.len() ==> white_space(#[trigger] s[k])),
        trimmed(s).len() > 0 ==> !white_space(trimmed(s)[0]) && !white_space(trimmed(s).last()),
        trimmed(s).len() == 0 <==> forall|k: int| 0 <= k < s.len() ==> white_space(#[trigger] s[k]),
{
    let lo = skip_white(s, 0);
    let hi = drop_white(s, lo, s.len() as int);
    skipped_is_white(s, 0);
    dropped_is_white(s, lo, s.len() as int);
    assert(trimmed(s) == s.subrange(lo, hi));
    if trimmed(s).len() > 0 {
        assert(trimmed(s)[0] == s[lo]);
        assert(trimmed(s).last() == s[hi - 1]);
    }
}

/// The characters of `s`.
pub fn chars_of(s: &str) -> (r: Vec<char>)
    ensures
        r@ == s@,
{
    let mut out: Vec<char> = Vec::new();
    for c in it: s.chars()
        invariant
            out@ == s@.subrange(0, it.index()),
            it.seq() == s@,
    {
        out.push(c);
    }
    assert(s@.subrange(0, s@.len() as int) == s@);
    out
}

/// The text without leading and trailing white space.
pub fn trim(s: &str) -> (r: String)
    ensures
        r@ == trimmed(s@),
{
    let chars = chars_of(s);
    let n: usize = chars.len();
    let mut lo: usize = 0;
    while lo < n && chars[lo].is_whitespace()
        invariant
            lo <= n,
            n == chars.len(),
            skip_white(chars@, lo as int) == skip_white(chars@, 0),
        decreases n - lo,
    {
        lo = lo + 1;
    }
    let mut hi: usize = n;
    while hi > lo && chars[hi - 1].is_whitespace()
        invariant
            lo <= hi <= n,
            n == chars.len(),
            drop_white(chars@, lo as int, hi as int) == drop_white(chars@, lo as int, n as int),
        decreases hi,
    {
        hi = hi - 1;
    }
    s.substring_char(lo, hi).to_owned()
}

/// Whether the two texts are the same.
pub fn same_text(a: &str, b: &str) -> (r: bool)
    ensures
        r == (a@ == b@),
{
    a.to_owned() == b.to_owned()
}

/// The decimal digits of `n`.
pub fn nat_text(n: u64) -> (r: String)
    ensures
        r@ == digits(n as nat),
    decreases n,
{
    let digit: u8 = (n % 10) as u8;
    let mut s = if n < 10 {
        String::new()
    } else {
        nat_text(n / 10)
    };
    s.push((48 + digit) as char);
    s
}

/// The text of a truth value.
pub open spec fn bool_shown(b: bool) -> Seq<char> {
    if b {
        "true"@
    } else {
        "false"@
    }
}

/// The text of a truth value.
pub fn bool_text(b: bool) -> (r: &'static str)
    ensures
        r@ == bool_shown(b),
{
    if b {
        "true"
    } else {
        "false"
    }
}

/// What `String::from_utf8_lossy` makes of bytes.
pub uninterp spec fn lossy_text(bytes: Seq<u8>) -> Seq<char>;

/// `String::from_utf8_lossy`: valid UTF-8 is decoded; what other bytes give is left to the name.
#[verifier::external_body]
pub(crate) fn text_of_bytes(bytes: &[u8]) -> (r: String)
    ensures
        r@ == lossy_text(bytes@),
        valid_utf8(bytes@) ==> r@ == decode_utf8(bytes@),
{
    String::from_utf8_lossy(bytes).into_owned()
}

/// The view of an optional text.
pub open spec fn text_view(s: Option<String>) -> Option<Seq<char>> {
    match s {
        Some(t) => Some(t@),
        None => None,
    }
}

/// A copy of an optional text.
pub fn copy_text(s: &Option<String>) -> (r: Option<String>)
    ensures
        text_view(r) == text_view(*s),
{
    match s {
        Some(t) => Some(t.clone()),
        None => None,
    }
}

/// Whether `c`, which is not ASCII, has the Unicode `Alphabetic` property.
pub uninterp spec fn wide_alphabetic(c: char) -> bool;

/// Whether `c` is a letter. On ASCII that is `a` to `z` and `A` to `Z`.
pub open spec fn alphabetic(c: char) -> bool {
    if (c as u32) < 128 {
        'a' <= c <= 'z' || 'A' <= c <= 'Z'
    } else {
        wide_alphabetic(c)
    }
}

/// `char::is_alphabetic` tells whether its argument has the `Alphabetic` property; which
/// characters beyond ASCII have it is left to the name.
pub assume_specification[ char::is_alphabetic ](c: char) -> (r: bool)
    ensures
        r == alphabetic(c),
        (c as u32) >= 128 ==> r == wide_alphabetic(c),
;

/// Whether `c` is a decimal digit of ASCII.
pub open spec fn is_digit(c: char) -> bool {
    '0' <= c <= '9'
}

/// The number that decimal digits write out.
pub open spec fn digits_value(s: Seq<char>) -> nat
    decreases s.len(),
{
    if s.len() == 0 {
        0
    } else {
        (digits_value(s.drop_last()) * 10 + (s.last() as int - 48)) as nat
    }
}

/// Whether a text is made of digits.
pub open spec fn all_digits(s: Seq<char>) -> bool {
    forall|i: int| 0 <= i < s.len() ==> is_digit(#[trigger] s[i])
}

/// The number that a text writes out as decimal digits, with or without a plus sign before them;
/// it has to be less than `2^32`.
pub open spec fn u32_in(s: Seq<char>) -> Option<nat> {
    let d = if s.len() > 0 && s[0] == '+' {
        s.skip(1)
    } else {
        s
    };
    if d.len() > 0 && all_digits(d) && digits_value(d) <= u32::MAX {
        Some(digits_value(d))
    } else {
        None
    }
}

proof fn value_of_prefix(d: Seq<char>, k: int)
    requires
        0 <= k <= d.len(),
        all_digits(d),
    ensures
        digits_value(d.take(k)) <= digits_value(d),
    decreases d.len() - k,
{
    if k < d.len() {
        value_of_prefix(d, k + 1);
        assert(d.take(k + 1).drop_last() =~= d.take(k));
        assert(is_digit(d[k]));
    } else {
        assert(d.take(k) =~= d);
    }
}

/// The number that a text writes out.
pub fn parse_u32(s: &Vec<char>) -> (r: Option<u32>)
    ensures
        match (r, u32_in(s@)) {
            (Some(a), Some(b)) => a == b,
            (None, None) => true,
            _ => false,
        },
{
    let from: usize = if s.len() > 0 && s[0] == '+' {
        1
    } else {
        0
    };
    let ghost d = if s@.len() > 0 && s@[0] == '+' {
        s@.skip(1)
    } else {
        s@
    };
    assert(d =~= s@.skip(from as int));
    if from == s.len() {
        return None;
    }
    let mut value: u64 = 0;
    let mut i: usize = from;
    assert(d.take(0) =~= Seq::<char>::empty());
    while i < s.len()
        invariant
            from <= i <= s.len(),
            d == s@.skip(from as int),
            value == digits_value(d.take(i - from)),
            value <= u32::MAX,
            forall|k: int| 0 <= k < i - from ==> is_digit(#[trigger] d[k]),
            u32_in(s@) is Some ==> all_digits(d),
            u32_in(s@) is Some ==> digits_value(d) <= u32::MAX,
        decreases s.len() - i,
    {
        let c = s[i];
        assert(d[i - from] == c);
        if !('0' <= c && c <= '9') {
            return None;
        }
        value = value * 10 + (c as u64 - 48);
        proof {
            let k = i - from;
            assert(d.take(k + 1).drop_last() =~= d.take(k));
            assert(d.take(k + 1).last() == c);
            assert(value == digits_value(d.take(k + 1)));
            if u32_in(s@) is Some {
                value_of_prefix(d, k + 1);
            }
        }
        if value > u32::MAX as u64 {
            return None;
        }
        i = i + 1;
    }
    assert(d.take(d.len() as int) =~= d);
    Some(value as u32)
}

/// The digits of a number are digits, at least one, and write it out.
pub proof fn digits_write_out(n: nat)
    ensures
        digits(n).len() > 0,
        all_digits(digits(n)),
        digits_value(digits(n)) == n,
    decreases n,
{
    let last = digit_char(n % 10);
    assert(last as int == n % 10 + 48);
    if n < 10 {
        assert(digits(n).drop_last() =~= Seq::<char>::empty());
        assert(digits_value(Seq::<char>::empty()) == 0);
        assert(digits(n).last() == last);
    } else {
        digits_write_out(n / 10);
        assert(digits(n).drop_last() =~= digits(n / 10));
    }
}

proof fn last_digits_write_out(n: nat, k: nat)
    ensures
        last_digits(n, k).len() == k,
        all_digits(last_digits(n, k)),
        digits_value(last_digits(n, k)) == n as int % ten_to(k),
    decreases k,
{
    lemma_pow_positive(10, k);
    if k == 0 {
        lemma_pow0(10);
    } else {
        let j = (k - 1) as nat;
        last_digits_write_out(n / 10, j);
        let last = digit_char(n % 10);
        assert(last as int == n % 10 + 48);
        assert(last_digits(n, k).drop_last() =~= last_digits(n / 10, j));
        lemma_pow_adds(10, j, 1);
        lemma_pow1(10);
        lemma_pow_positive(10, j);
        let t = ten_to(j);
        assert(t * 10 == 10 * t) by (nonlinear_arith);
        vstd::arithmetic::div_mod::lemma_mod_breakdown(n as int, 10, t);
        assert(10 * ((n as int / 10) % t) + n as int % 10 == n as int % (10 * t));
    }
}

/// The text of a number writes it out: a minus sign exactly where it is negative, its whole part,
/// and, where it has decimal places, a point and exactly that many digits. Read without the sign
/// and the point, the digits are its units.
pub proof fn numbers_are_written_out(a: Dec, w: Seq<char>, f: Seq<char>)
    requires
        a.valid(),
        w == digits((magnitude(a.units()) as int / ten_to(a.places())) as nat),
        f == last_digits(magnitude(a.units()), a.places()),
    ensures
        decimal_text(a) == (if a.units() < 0 {
            seq!['-']
        } else {
            Seq::<char>::empty()
        }) + w + (if a.places() > 0 {
            seq!['.']
        } else {
            Seq::<char>::empty()
        }) + f,
        w.len() > 0,
        all_digits(w),
        f.len() == a.places(),
        all_digits(f),
        digits_value(w) * ten_to(a.places()) + digits_value(f) == magnitude(a.units()),
{
    let m = magnitude(a.units());
    let t = ten_to(a.places());
    lemma_pow_positive(10, a.places());
    vstd::arithmetic::div_mod::lemma_div_pos_is_pos(m as int, t);
    digits_write_out((m as int / t) as nat);
    last_digits_write_out(m, a.places());
    vstd::arithmetic::div_mod::lemma_fundamental_div_mod(m as int, t);
    let q = m as int / t;
    assert(t * q == q * t) by (nonlinear_arith);
    let sign = if a.units() < 0 {
        seq!['-']
    } else {
        Seq::<char>::empty()
    };
    if a.places() == 0 {
        assert(f =~= Seq::<char>::empty());
        assert(decimal_text(a) =~= sign + w + Seq::<char>::empty() + f);
    } else {
        assert(decimal_text(a) =~= sign + w + seq!['.'] + f);
    }
}

/// A text cut at each `sep`: the parts between them, in their order.
pub open spec fn split(s: Seq<char>, sep: char) -> Seq<Seq<char>>
    decreases s.len(),
{
    if s.len() == 0 {
        seq![Seq::empty()]
    } else {
        let before = split(s.drop_last(), sep);
        if s.last() == sep {
            before.push(Seq::empty())
        } else {
            before.update(before.len() - 1, before.last().push(s.last()))
        }
    }
}

/// The views of texts.
pub open spec fn views(texts: Seq<String>) -> Seq<Seq<char>> {
    texts.map_values(|s: String| s@)
}

/// A text cut at each `sep`.
pub fn split_text(s: &str, sep: char) -> (r: Vec<String>)
    ensures
        views(r@) == split(s@, sep),
        r@.len() == split(s@, sep).len(),
{
    let chars = chars_of(s);
    let mut out: Vec<String> = Vec::new();
    let mut part = String::new();
    let mut i: usize = 0;
    assert(chars@.take(0) =~= Seq::<char>::empty());
    assert(views(out@).push(part@) =~= seq![Seq::<char>::empty()]);
    while i < chars.len()
        invariant
            i <= chars.len(),
            views(out@).push(part@) == split(chars@.take(i as int), sep),
        decreases chars.len() - i,
    {
        let c = chars[i];
        let ghost before = views(out@).push(part@);
        assert(chars@.take(i + 1).drop_last() =~= chars@.take(i as int));
        assert(chars@.take(i + 1).last() == c);
        if c == sep {
            let ghost done = out@;
            out.push(part);
            part = String::new();
            assert(views(out@) =~= before);
        } else {
            part.push(c);
            assert(views(out@).push(part@) =~= before.update(before.len() - 1, before.last().push(c)));
        }
        i = i + 1;
    }
    assert(chars@.take(i as int) =~= chars@);
    let ghost done = out@;
    let ghost last = part@;
    out.push(part);
    assert(views(out@) =~= views(done).push(last));
    out
}

/// A text has one part more than it has separators, so at least one.
pub proof fn split_is_not_empty(s: Seq<char>, sep: char)
    ensures
        split(s, sep).len() > 0,
    decreases s.len(),
{
    if s.len() > 0 {
        split_is_not_empty(s.drop_last(), sep);
    }
}

/// Two texts joined by a separator are cut into the parts of the first and those of the second.
pub proof fn split_joined(s: Seq<char>, t: Seq<char>, sep: char)
    ensures
        split(s + seq![sep] + t, sep) == split(s, sep) + split(t, sep),
    decreases t.len(),
{
    let whole = s + seq![sep] + t;
    if t.len() == 0 {
        assert(whole =~= s.push(sep));
        assert(whole.drop_last() =~= s);
        assert(split(s, sep).push(Seq::<char>::empty()) =~= split(s, sep) + split(t, sep));
    } else {
        let shorter = t.drop_last();
        split_joined(s, shorter, sep);
        split_is_not_empty(shorter, sep);
        assert(whole.drop_last() =~= s + seq![sep] + shorter);
        assert(whole.last() == t.last());
        let a = split(s, sep);
        let b = split(shorter, sep);
        if t.last() == sep {
            assert((a + b).push(Seq::<char>::empty()) =~= a + b.push(Seq::<char>::empty()));
        } else {
            let c = t.last();
            assert((a + b).last() == b.last());
            assert((a + b).update((a + b).len() - 1, b.last().push(c)) =~= a + b.update(
                b.len() - 1,
                b.last().push(c),
            ));
        }
    }
}

/// A text without a separator is one part.
pub proof fn split_single(part: Seq<char>, sep: char)
    requires
        !part.contains(sep),
    ensures
        split(part, sep) == seq![part],
    decreases part.len(),
{
    if part.len() > 0 {
        let shorter = part.drop_last();
        assert(part[part.len() - 1] == part.last());
        assert forall|c: char| shorter.contains(c) implies part.contains(c) by {
            let i = choose|i: int| 0 <= i < shorter.len() && shorter[i] == c;
            assert(part[i] == c);
        }
        split_single(shorter, sep);
        assert(seq![shorter].update(0, shorter.push(part.last())) =~= seq![part]) by {
            assert(shorter.push(part.last()) =~= part);
        }
    } else {
        assert(part =~= Seq::<char>::empty());
    }
}

/// The hexadecimal digit of `d`, in lower case.
pub open spec fn hex_char(d: nat) -> char {
    if d < 10 {
        ((d + 48) as u32) as char
    } else {
        ((d + 87) as u32) as char
    }
}

/// A character within a JSON string: quotation marks, backslashes and control characters are
/// escaped, all else stands for itself.
pub open spec fn json_char(c: char) -> Seq<char> {
    let n = c as u32 as nat;
    if c == '"' || c == '\\' {
        seq!['\\', c]
    } else if n == 8 {
        seq!['\\', 'b']
    } else if n == 9 {
        seq!['\\', 't']
    } else if n == 10 {
        seq!['\\', 'n']
    } else if n == 12 {
        seq!['\\', 'f']
    } else if n == 13 {
        seq!['\\', 'r']
    } else if n < 32 {
        seq!['\\', 'u', '0', '0', hex_char(n / 16), hex_char(n % 16)]
    } else {
        seq![c]
    }
}

/// The characters of a text within a JSON string.
pub open spec fn json_escaped(s: Seq<char>) -> Seq<char>
    decreases s.len(),
{
    if s.len() == 0 {
        Seq::empty()
    } else {
        json_escaped(s.drop_last()) + json_char(s.last())
    }
}

/// A text as a JSON string: its characters, escaped, between quotation marks.
pub open spec fn json_text(s: Seq<char>) -> Seq<char> {
    seq!['"'] + json_escaped(s) + seq!['"']
}

/// Whether a text stands for itself within a JSON string.
pub open spec fn is_json_plain(s: Seq<char>) -> bool {
    forall|i: int|
        0 <= i < s.len() ==> #[trigger] s[i] != '"' && s[i] != '\\' && s[i] as u32 >= 32
}

/// A text without quotation marks, backslashes and control characters is a JSON string as it is,
/// between quotation marks.
pub proof fn plain_text_is_not_escaped(s: Seq<char>)
    requires
        is_json_plain(s),
    ensures
        json_text(s) == seq!['"'] + s + seq!['"'],
{
    plain_characters(s);
}

proof fn plain_characters(s: Seq<char>)
    requires
        is_json_plain(s),
    ensures
        json_escaped(s) == s,
    decreases s.len(),
{
    if s.len() > 0 {
        let shorter = s.drop_last();
        assert forall|i: int| 0 <= i < shorter.len() implies #[trigger] shorter[i] != '"'
            && shorter[i] != '\\' && shorter[i] as u32 >= 32 by {
            assert(shorter[i] == s[i]);
        }
        plain_characters(shorter);
        assert(s.last() == s[s.len() - 1]);
        assert(shorter + seq![s.last()] =~= s);
    }
}

/// `serde_json::Value::String`, displayed: the text as a JSON string, in quotation marks. Quotation
/// marks, backslashes and control characters are escaped, the common ones by a letter, other
/// control characters by four hexadecimal digits in lower case.
#[verifier::external_body]
pub(crate) fn json_string(s: &str) -> (r: String)
    ensures
        r@ == json_text(s@),
{
    serde_json::Value::String(s.to_owned()).to_string()
}

/// A number of 32 bits is read from its digits, with or without a plus sign, and from zeros in
/// front of them; a larger number, a text with anything but digits, and no digits at all are none.
pub proof fn digits_are_read_as_written(n: nat, s: Seq<char>, i: int)
    ensures
        n <= u32::MAX ==> u32_in(digits(n)) == Some(n) && u32_in(seq!['+'] + digits(n)) == Some(n),
        n > u32::MAX ==> u32_in(digits(n)) is None,
        0 <= i < s.len() && !('0' <= s[i] <= '9') && (i > 0 || s[0] != '+') ==> u32_in(s) is None,
        u32_in(Seq::empty()) is None,
        u32_in(seq!['+']) is None,
{
    digits_write_out(n);
    let d = digits(n);
    assert(is_digit(d[0]));
    assert((seq!['+'] + d).skip(1) =~= d);
    assert(seq!['+'].skip(1) =~= Seq::<char>::empty());
    if 0 <= i < s.len() && !('0' <= s[i] <= '9') && (i > 0 || s[0] != '+') {
        if s[0] == '+' {
            assert(s.skip(1)[i - 1] == s[i]);
            assert(!is_digit(s.skip(1)[i - 1]));
        } else {
            assert(!is_digit(s[i]));
        }
    }
}

/// Digits in front count ten times as much for each digit behind them.
pub proof fn digits_count_by_place(s: Seq<char>, c: char)
    requires
        '0' <= c <= '9',
    ensures
        digits_value(s.push(c)) == 10 * digits_value(s) + (c as int - '0' as int),
        digits_value(Seq::empty()) == 0,
{
    assert(s.push(c).drop_last() =~= s);
}

} // verus!
