//! Text helpers shared by the codec and the stores: decimal numbers as they
//! stand on the wire, case folding, and equality of strings.
use vstd::prelude::*;
use vstd::std_specs::iter::IteratorSpec;
use vstd::string::*;
use vstd::utf8::*;

verus! {

/// The character `'0' + d`.
pub open spec fn digit(d: int) -> char {
    (d + 48) as u8 as char
}

/// `c` is one of `'0'..='9'`.
pub open spec fn is_digit(c: char) -> bool {
    48 <= c as int <= 57
}

/// Every character of `s` is a decimal digit.
pub open spec fn all_digits(s: Seq<char>) -> bool {
    forall|i: int| 0 <= i < s.len() ==> is_digit(#[trigger] s[i])
}

/// The number that the digits of `s` write in base ten.
pub open spec fn digits_value(s: Seq<char>) -> nat
    decreases s.len(),
{
    if s.len() == 0 {
        0
    } else {
        (digits_value(s.drop_last()) * 10 + (s.last() as int - 48)) as nat
    }
}

/// `n` in base ten, without leading zeros.
pub open spec fn decimal(n: nat) -> Seq<char>
    decreases n,
{
    if n < 10 {
        seq![digit(n as int)]
    } else {
        decimal(n / 10).push(digit((n % 10) as int))
    }
}

/// `n` in base ten, with a leading `-` where it is negative.
pub open spec fn signed_decimal(n: int) -> Seq<char> {
    if n < 0 {
        seq!['-'] + decimal((-n) as nat)
    } else {
        decimal(n as nat)
    }
}

/// A non-empty run of digits whose value is at most `max`.
pub open spec fn parse_digits(s: Seq<char>, max: nat) -> Option<nat> {
    if s.len() > 0 && all_digits(s) && digits_value(s) <= max {
        Some(digits_value(s))
    } else {
        None
    }
}

/// An unsigned decimal number: an optional `+`, then digits.
pub open spec fn parse_unsigned(s: Seq<char>, max: nat) -> Option<nat> {
    if s.len() > 0 && s[0] == '+' {
        parse_digits(s.skip(1), max)
    } else {
        parse_digits(s, max)
    }
}

/// A signed decimal number in `min..=max`: an optional `+` or `-`, then digits.
pub open spec fn parse_signed(s: Seq<char>, min: int, max: int) -> Option<int> {
    if s.len() > 0 && s[0] == '-' {
        match parse_digits(s.skip(1), (-min) as nat) {
            Some(n) => Some(-(n as int)),
            None => None,
        }
    } else {
        match parse_unsigned(s, max as nat) {
            Some(n) => Some(n as int),
            None => None,
        }
    }
}

/// Each byte read as the character with that code point.
pub open spec fn latin1(bytes: Seq<u8>) -> Seq<char> {
    Seq::new(bytes.len(), |i: int| bytes[i] as char)
}

/// Appending one digit multiplies the value by ten and adds the digit.
pub proof fn lemma_digits_value_push(s: Seq<char>, c: char)
    requires
        is_digit(c),
    ensures
        digits_value(s.push(c)) == digits_value(s) * 10 + (c as int - 48),
{
    assert(s.push(c).drop_last() =~= s);
    assert(s.push(c).last() == c);
}

/// The value of a run of digits is at least the value of each of its prefixes.
pub proof fn lemma_digits_value_prefix(s: Seq<char>, k: int)
    requires
        all_digits(s),
        0 <= k <= s.len(),
    ensures
        digits_value(s.subrange(0, k)) <= digits_value(s),
    decreases s.len() - k,
{
    if k < s.len() {
        lemma_digits_value_prefix(s, k + 1);
        let p = s.subrange(0, k);
        assert(s.subrange(0, k + 1) =~= p.push(s[k]));
        lemma_digits_value_push(p, s[k]);
    } else {
        assert(s.subrange(0, k) =~= s);
    }
}

/// `decimal(n)` is a non-empty run of digits that writes `n`.
pub proof fn lemma_decimal_digits(n: nat)
    ensures
        decimal(n).len() > 0,
        all_digits(decimal(n)),
        digits_value(decimal(n)) == n,
    decreases n,
{
    if n < 10 {
        let s = seq![digit(n as int)];
        assert(s.drop_last() =~= Seq::<char>::empty());
        assert(digits_value(s.drop_last()) == 0);
        assert(s.last() == digit(n as int));
    } else {
        lemma_decimal_digits(n / 10);
        lemma_digits_value_push(decimal(n / 10), digit((n % 10) as int));
    }
}

/// Reading back a printed number gives the number.
pub proof fn lemma_decimal_parses(n: nat, max: nat)
    requires
        n <= max,
    ensures
        parse_unsigned(decimal(n), max) == Some(n),
{
    lemma_decimal_digits(n);
    assert(is_digit(decimal(n)[0]));
}

/// Reading back a printed signed number gives the number.
pub proof fn lemma_signed_decimal_parses(n: int, min: int, max: int)
    requires
        min <= n <= max,
        min <= 0 <= max,
    ensures
        parse_signed(signed_decimal(n), min, max) == Some(n),
{
    if n < 0 {
        let d = decimal((-n) as nat);
        lemma_decimal_digits((-n) as nat);
        assert(signed_decimal(n).skip(1) =~= d);
    } else {
        lemma_decimal_parses(n as nat, max as nat);
        lemma_decimal_digits(n as nat);
        assert(is_digit(decimal(n as nat)[0]));
    }
}

/// `String::push`: the string grows by the one character `c` at its end.
#[verifier::external_body]
pub(crate) fn push_char(s: &mut String, c: char)
    ensures
        final(s)@ == old(s)@.push(c),
{
    s.push(c)
}

/// `core::str::from_utf8`: the bytes as text where they are UTF-8, the text
/// then having just these bytes; `None` where they are not UTF-8.
#[verifier::external_body]
pub(crate) fn utf8_text(bytes: &[u8]) -> (r: Option<&str>)
    ensures
        r matches Some(s) ==> s.spec_bytes() == bytes@,
        r is None ==> !valid_utf8(bytes@),
{
    core::str::from_utf8(bytes).ok()
}

/// Appends `n` in base ten to `s`.
pub fn push_decimal(s: &mut String, n: u64)
    ensures
        final(s)@ == old(s)@ + decimal(n as nat),
    decreases n,
{
    if n >= 10 {
        push_decimal(s, n / 10);
    }
    let d: u8 = (n % 10) as u8;
    push_char(s, (d + 48) as char);
    assert(final(s)@ =~= old(s)@ + decimal(n as nat));
}

/// The characters of `s` as bytes, each cut to its low eight bits.
pub open spec fn low_bytes(s: Seq<char>) -> Seq<u8> {
    Seq::new(s.len(), |i: int| s[i] as u8)
}

/// Appends the digits of `n` in base ten to `v`, one byte each.
pub fn push_decimal_bytes(v: &mut Vec<u8>, n: u64)
    ensures
        final(v)@ == old(v)@ + low_bytes(decimal(n as nat)),
    decreases n,
{
    if n >= 10 {
        push_decimal_bytes(v, n / 10);
    }
    let d: u8 = (n % 10) as u8;
    v.push(d + 48);
    proof {
        assert(final(v)@ =~= old(v)@ + low_bytes(decimal(n as nat)));
    }
}

/// `n` in base ten.
pub fn u64_to_string(n: u64) -> (r: String)
    ensures
        r@ == decimal(n as nat),
{
    let mut s = String::new();
    push_decimal(&mut s, n);
    assert(s@ =~= decimal(n as nat));
    s
}

/// `n` in base ten, with a leading `-` where it is negative.
pub fn i64_to_string(n: i64) -> (r: String)
    ensures
        r@ == signed_decimal(n as int),
{
    let mut s = String::new();
    if n < 0 {
        push_char(&mut s, '-');
        let m: u64 = if n == i64::MIN {
            9223372036854775808u64
        } else {
            (-n) as u64
        };
        push_decimal(&mut s, m);
        assert(s@ =~= signed_decimal(n as int));
    } else {
        push_decimal(&mut s, n as u64);
        assert(s@ =~= signed_decimal(n as int));
    }
    s
}

/// Reads the digits `data[start..end]` as a number of at most `max`.
pub fn parse_digit_bytes(data: &[u8], start: usize, end: usize, max: u64) -> (r: Option<u64>)
    requires
        start <= end <= data@.len(),
    ensures
        r matches Some(v) ==> parse_digits(latin1(data@.subrange(start as int, end as int)), max as nat)
            == Some(v as nat),
        r is None ==> parse_digits(latin1(data@.subrange(start as int, end as int)), max as nat)
            is None,
{
    let ghost full = latin1(data@.subrange(start as int, end as int));
    if start == end {
        return None;
    }
    let mut i: usize = start;
    let mut acc: u64 = 0;
    while i < end
        invariant
            start <= i <= end <= data@.len(),
            full == latin1(data@.subrange(start as int, end as int)),
            all_digits(full.subrange(0, i - start)),
            acc == digits_value(full.subrange(0, i - start)),
            acc <= max,
        decreases end - i,
    {
        let b = data[i];
        let ghost prefix = full.subrange(0, i - start);
        assert(full[i - start] == b as char);
        if b < 48 || b > 57 {
            assert(!is_digit(full[i - start]));
            return None;
        }
        let d: u64 = (b - 48) as u64;
        proof {
            assert(full.subrange(0, i - start + 1) =~= prefix.push(full[i - start]));
            lemma_digits_value_push(prefix, full[i - start]);
        }
        if acc > max / 10 || (acc == max / 10 && d > max % 10) {
            proof {
                if all_digits(full) {
                    lemma_digits_value_prefix(full, i - start + 1);
                }
            }
            return None;
        }
        acc = acc * 10 + d;
        i = i + 1;
    }
    assert(full.subrange(0, i - start) =~= full);
    Some(acc)
}

/// Reads `data[start..end]` as an unsigned decimal number of at most `max`.
pub fn parse_unsigned_bytes(data: &[u8], start: usize, end: usize, max: u64) -> (r: Option<u64>)
    requires
        start <= end <= data@.len(),
    ensures
        r matches Some(v) ==> parse_unsigned(
            latin1(data@.subrange(start as int, end as int)),
            max as nat,
        ) == Some(v as nat),
        r is None ==> parse_unsigned(latin1(data@.subrange(start as int, end as int)), max as nat)
            is None,
{
    let ghost full = latin1(data@.subrange(start as int, end as int));
    if start < end && data[start] == 43 {
        assert(full[0] == '+');
        assert(full.skip(1) =~= latin1(data@.subrange(start + 1, end as int)));
        parse_digit_bytes(data, start + 1, end, max)
    } else {
        if start < end {
            assert(full[0] == data@[start as int] as char);
        }
        parse_digit_bytes(data, start, end, max)
    }
}

/// Reads `data[start..end]` as a signed decimal number that fits an `isize`.
pub fn parse_isize_bytes(data: &[u8], start: usize, end: usize) -> (r: Option<isize>)
    requires
        start <= end <= data@.len(),
    ensures
        r matches Some(v) ==> parse_signed(
            latin1(data@.subrange(start as int, end as int)),
            isize::MIN as int,
            isize::MAX as int,
        ) == Some(v as int),
        r is None ==> parse_signed(
            latin1(data@.subrange(start as int, end as int)),
            isize::MIN as int,
            isize::MAX as int,
        ) is None,
{
    let ghost full = latin1(data@.subrange(start as int, end as int));
    let top: u64 = isize::MAX as u64;
    if start < end && data[start] == 45 {
        assert(full[0] == '-');
        assert(full.skip(1) =~= latin1(data@.subrange(start + 1, end as int)));
        match parse_digit_bytes(data, start + 1, end, top + 1) {
            Some(v) => {
                if v == top + 1 {
                    Some(isize::MIN)
                } else {
                    Some(-(v as isize))
                }
            },
            None => None,
        }
    } else {
        if start < end {
            assert(full[0] == data@[start as int] as char);
        }
        match parse_unsigned_bytes(data, start, end, top) {
            Some(v) => Some(v as isize),
            None => None,
        }
    }
}

/// The bytes of `s` where `s` is ASCII, each then being one character of it.
pub fn ascii_bytes<'a>(s: &'a str) -> (r: Option<&'a [u8]>)
    ensures
        r matches Some(b) ==> latin1(b@) == s@ && is_ascii_chars(s@),
        r is None ==> !is_ascii_chars(s@),
{
    if s.is_ascii() {
        let b = s.as_bytes();
        proof {
            is_ascii_chars_encode_utf8(s@);
            is_ascii_chars_nat_bound(s@);
            assert(latin1(b@) =~= s@);
        }
        Some(b)
    } else {
        None
    }
}

/// A text that holds a character outside ASCII is no decimal number.
pub proof fn lemma_non_ascii_is_no_number(s: Seq<char>, min: int, max: int)
    requires
        !is_ascii_chars(s),
    ensures
        parse_unsigned(s, max as nat) is None,
        parse_signed(s, min, max) is None,
{
    let i = choose|i: int| 0 <= i < s.len() && !('\0' <= #[trigger] s[i] <= '\u{7f}');
    assert(!is_digit(s[i]));
    if i >= 1 {
        assert(s.skip(1)[i - 1] == s[i]);
    }
}

/// Reads `s` as an unsigned decimal number of at most `max`.
pub fn parse_unsigned_str(s: &str, max: u64) -> (r: Option<u64>)
    ensures
        r matches Some(v) ==> parse_unsigned(s@, max as nat) == Some(v as nat),
        r is None ==> parse_unsigned(s@, max as nat) is None,
{
    match ascii_bytes(s) {
        Some(b) => {
            assert(b@.subrange(0, b@.len() as int) =~= b@);
            parse_unsigned_bytes(b, 0, b.len(), max)
        },
        None => {
            proof {
                lemma_non_ascii_is_no_number(s@, 0, max as int);
            }
            None
        },
    }
}

/// Reads `s` as a signed decimal number that fits an `isize`.
pub fn parse_isize_str(s: &str) -> (r: Option<isize>)
    ensures
        r matches Some(v) ==> parse_signed(s@, isize::MIN as int, isize::MAX as int) == Some(
            v as int,
        ),
        r is None ==> parse_signed(s@, isize::MIN as int, isize::MAX as int) is None,
{
    match ascii_bytes(s) {
        Some(b) => {
            assert(b@.subrange(0, b@.len() as int) =~= b@);
            parse_isize_bytes(b, 0, b.len())
        },
        None => {
            proof {
                lemma_non_ascii_is_no_number(s@, isize::MIN as int, isize::MAX as int);
            }
            None
        },
    }
}

/// Whether `a` and `b` hold the same characters.
pub fn str_eq(a: &str, b: &str) -> (r: bool)
    ensures
        r == (a@ == b@),
{
    let x = a.as_bytes();
    let y = b.as_bytes();
    if x.len() != y.len() {
        return false;
    }
    let mut i: usize = 0;
    while i < x.len()
        invariant
            i <= x@.len(),
            x@.len() == y@.len(),
            x@ == a.spec_bytes(),
            y@ == b.spec_bytes(),
            x@.subrange(0, i as int) == y@.subrange(0, i as int),
        decreases x@.len() - i,
    {
        if x[i] != y[i] {
            assert(x@[i as int] != y@[i as int]);
            return false;
        }
        assert(x@.subrange(0, i + 1) =~= x@.subrange(0, i as int).push(x@[i as int]));
        assert(y@.subrange(0, i + 1) =~= y@.subrange(0, i as int).push(y@[i as int]));
        i = i + 1;
    }
    proof {
        assert(x@ =~= x@.subrange(0, i as int));
        assert(y@ =~= y@.subrange(0, i as int));
        encode_utf8_decode_utf8(a@);
        encode_utf8_decode_utf8(b@);
    }
    true
}

/// What `regex::Regex::new` on `pattern` and then `Regex::is_match` on `text`
/// give: whether the pattern matches somewhere in the text, or `None` where
/// the pattern does not compile.
pub uninterp spec fn regex_search(pattern: Seq<char>, text: Seq<char>) -> Option<bool>;

/// `regex::Regex::new`, then `regex::Regex::is_match`: compiles `pattern` and
/// searches `text` for a match. The result depends on the two texts alone.
#[verifier::external_body]
pub(crate) fn regex_is_match(pattern: &str, text: &str) -> (r: Option<bool>)
    ensures
        r == regex_search(pattern@, text@),
{
    match regex::Regex::new(pattern) {
        Ok(re) => Some(re.is_match(text)),
        Err(_) => None,
    }
}

/// The text of an optional string.
pub open spec fn opt_text(s: Option<String>) -> Option<Seq<char>> {
    match s {
        Some(s) => Some(s@),
        None => None,
    }
}

/// The characters of `s`, in order.
pub fn chars_of(s: &str) -> (r: Vec<char>)
    ensures
        r@ == s@,
{
    let mut out: Vec<char> = Vec::new();
    let mut it = s.chars();
    assert(it.remaining() == s@);
    loop
        invariant
            it.obeys_prophetic_iter_laws(),
            it.decrease() is Some,
            out@ + it.remaining() == s@,
        ensures
            out@ == s@,
        decreases it.decrease()->0,
    {
        let ghost before = it.remaining();
        match it.next() {
            Some(c) => {
                out.push(c);
                assert(out@ + it.remaining() =~= s@);
            },
            None => {
                assert(out@ + it.remaining() =~= out@);
                break ;
            },
        }
    }
    out
}

/// The string of the characters `chars[from..to]`.
pub fn string_of(chars: &Vec<char>, from: usize, to: usize) -> (r: String)
    requires
        from <= to <= chars@.len(),
    ensures
        r@ == chars@.subrange(from as int, to as int),
{
    let mut out = String::new();
    let mut i: usize = from;
    while i < to
        invariant
            from <= i <= to <= chars@.len(),
            out@ == chars@.subrange(from as int, i as int),
        decreases to - i,
    {
        push_char(&mut out, chars[i]);
        assert(out@ =~= chars@.subrange(from as int, i + 1));
        i = i + 1;
    }
    out
}

/// `c` with the letters `A..=Z` folded to `a..=z`.
pub open spec fn lower_char(c: char) -> char {
    if 65 <= c as int <= 90 {
        ((c as int) + 32) as u8 as char
    } else {
        c
    }
}

/// `s` with every character folded by [`lower_char`].
pub open spec fn lower_text(s: Seq<char>) -> Seq<char> {
    Seq::new(s.len(), |i: int| lower_char(s[i]))
}

/// `s` with the upper-case letters of ASCII folded to lower case.
pub fn to_lower(s: &str) -> (r: String)
    ensures
        r@ == lower_text(s@),
{
    let chars = chars_of(s);
    let mut out = String::new();
    let mut i: usize = 0;
    while i < chars.len()
        invariant
            i <= chars@.len(),
            out@ == lower_text(chars@.subrange(0, i as int)),
        decreases chars@.len() - i,
    {
        let c = chars[i];
        let folded = if 'A' <= c && c <= 'Z' {
            ((c as u8) + 32) as char
        } else {
            c
        };
        push_char(&mut out, folded);
        assert(out@ =~= lower_text(chars@.subrange(0, i + 1)));
        i = i + 1;
    }
    assert(chars@.subrange(0, i as int) =~= chars@);
    out
}

} // verus!
