//! Character-level text operations with exact contracts over `Seq<char>`.

use vstd::prelude::*;
use vstd::string::*;
use vstd::utf8::*;

verus! {

/// The number of bytes `s` occupies when encoded as UTF-8.
pub open spec fn byte_len(s: Seq<char>) -> nat {
    encode_utf8(s).len()
}

/// `needle` occurs in `hay` starting at index `at`.
pub open spec fn occurs_at(hay: Seq<char>, needle: Seq<char>, at: int) -> bool {
    0 <= at && at + needle.len() <= hay.len() && hay.subrange(at, at + needle.len()) == needle
}

/// `needle` occurs somewhere in `hay`.
pub open spec fn has_infix(hay: Seq<char>, needle: Seq<char>) -> bool {
    exists|at: int| occurs_at(hay, needle, at)
}

/// The characters of `s`, in order.
pub fn chars_of(s: &str) -> (v: Vec<char>)
    ensures
        v@ == s@,
{
    let mut v: Vec<char> = Vec::new();
    for c in it: s.chars()
        invariant
            v@ == it.seq().take(it.index()),
    {
        v.push(c);
    }
    v
}

/// Whether two character slices hold the same text.
pub fn same_chars(a: &[char], b: &[char]) -> (r: bool)
    ensures
        r == (a@ == b@),
{
    if a.len() != b.len() {
        return false;
    }
    let mut i: usize = 0;
    while i < a.len()
        invariant
            a.len() == b.len(),
            i <= a.len(),
            a@.subrange(0, i as int) == b@.subrange(0, i as int),
        decreases a.len() - i,
    {
        if a[i] != b[i] {
            return false;
        }
        assert(a@.subrange(0, i + 1) =~= a@.subrange(0, i as int).push(a@[i as int]));
        assert(b@.subrange(0, i + 1) =~= b@.subrange(0, i as int).push(b@[i as int]));
        i += 1;
    }
    assert(a@ =~= a@.subrange(0, i as int));
    assert(b@ =~= b@.subrange(0, i as int));
    true
}

/// Whether two strings hold the same text.
pub fn same_text(a: &str, b: &str) -> (r: bool)
    ensures
        r == (a@ == b@),
{
    let x = a.as_bytes();
    let y = b.as_bytes();
    proof {
        encode_utf8_decode_utf8(a@);
        encode_utf8_decode_utf8(b@);
    }
    if x.len() != y.len() {
        return false;
    }
    let mut i: usize = 0;
    while i < x.len()
        invariant
            x@ == encode_utf8(a@),
            y@ == encode_utf8(b@),
            x.len() == y.len(),
            i <= x.len(),
            x@.subrange(0, i as int) == y@.subrange(0, i as int),
        decreases x.len() - i,
    {
        if x[i] != y[i] {
            assert(x@[i as int] != y@[i as int]);
            return false;
        }
        assert(x@.subrange(0, i + 1) =~= x@.subrange(0, i as int).push(x@[i as int]));
        assert(y@.subrange(0, i + 1) =~= y@.subrange(0, i as int).push(y@[i as int]));
        i += 1;
    }
    assert(x@ =~= x@.subrange(0, i as int));
    assert(y@ =~= y@.subrange(0, i as int));
    true
}

/// Whether `hay` holds `needle` at index `at`.
pub fn matches_at(hay: &[char], needle: &[char], at: usize) -> (r: bool)
    ensures
        r == occurs_at(hay@, needle@, at as int),
{
    if at > hay.len() || needle.len() > hay.len() - at {
        return false;
    }
    let mut i: usize = 0;
    while i < needle.len()
        invariant
            at + needle.len() <= hay.len(),
            i <= needle.len(),
            hay@.subrange(at as int, at + i) == needle@.subrange(0, i as int),
        decreases needle.len() - i,
    {
        if hay[at + i] != needle[i] {
            assert(hay@.subrange(at as int, at + needle.len())[i as int] != needle@[i as int]);
            return false;
        }
        assert(hay@.subrange(at as int, at + i + 1) =~= hay@.subrange(at as int, at + i).push(
            hay@[at + i],
        ));
        assert(needle@.subrange(0, i + 1) =~= needle@.subrange(0, i as int).push(
            needle@[i as int],
        ));
        i += 1;
    }
    assert(needle@ =~= needle@.subrange(0, i as int));
    true
}

/// Whether `s` begins with `prefix`.
pub fn starts_with(s: &[char], prefix: &[char]) -> (r: bool)
    ensures
        r == prefix@.is_prefix_of(s@),
{
    let r = matches_at(s, prefix, 0);
    proof {
        if r {
            assert(s@.subrange(0, prefix@.len() as int) == prefix@);
        }
        if prefix@.is_prefix_of(s@) {
            assert(s@.subrange(0, prefix@.len() as int) =~= prefix@);
        }
    }
    r
}

/// Whether `s` ends with `suffix`.
pub fn ends_with(s: &[char], suffix: &[char]) -> (r: bool)
    ensures
        r == suffix@.is_suffix_of(s@),
{
    if suffix.len() > s.len() {
        return false;
    }
    let at: usize = s.len() - suffix.len();
    let r = matches_at(s, suffix, at);
    proof {
        if suffix@.is_suffix_of(s@) {
            assert(s@.subrange(at as int, s@.len() as int) =~= suffix@);
        }
    }
    r
}

/// Whether `needle` occurs anywhere in `hay`.
pub fn contains(hay: &[char], needle: &[char]) -> (r: bool)
    ensures
        r == has_infix(hay@, needle@),
{
    if needle.len() > hay.len() {
        return false;
    }
    let last: usize = hay.len() - needle.len();
    let mut at: usize = 0;
    loop
        invariant
            last == hay.len() - needle.len(),
            at <= last,
            forall|k: int| 0 <= k < at ==> !occurs_at(hay@, needle@, k),
        decreases last - at,
    {
        if matches_at(hay, needle, at) {
            return true;
        }
        if at == last {
            return false;
        }
        at += 1;
    }
}

/// `parts` with `sep` between each two neighbours.
pub open spec fn joined(parts: Seq<Seq<char>>, sep: Seq<char>) -> Seq<char>
    decreases parts.len(),
{
    if parts.len() == 0 {
        Seq::empty()
    } else if parts.len() == 1 {
        parts[0]
    } else {
        joined(parts.drop_last(), sep) + sep + parts.last()
    }
}

/// The texts that a sequence of strings holds.
pub open spec fn texts(v: Seq<String>) -> Seq<Seq<char>> {
    Seq::new(v.len(), |i: int| v[i]@)
}

/// `parts` joined by `sep`.
pub fn join(parts: &Vec<String>, sep: &str) -> (r: String)
    ensures
        r@ == joined(texts(parts@), sep@),
{
    let mut out = String::new();
    let mut i: usize = 0;
    while i < parts.len()
        invariant
            i <= parts.len(),
            out@ == joined(texts(parts@).take(i as int), sep@),
        decreases parts.len() - i,
    {
        if i > 0 {
            out.append(sep);
        }
        out.append(parts[i].as_str());
        proof {
            let all = texts(parts@);
            assert(all.take(i + 1).drop_last() =~= all.take(i as int));
            assert(all.take(i + 1).last() == parts@[i as int]@);
            if i == 0 {
                assert(out@ =~= parts@[0]@);
            }
        }
        i += 1;
    }
    assert(texts(parts@).take(i as int) =~= texts(parts@));
    out
}

/// The decimal digit for `d`.
pub open spec fn digit_char(d: nat) -> char {
    if d == 0 {
        '0'
    } else if d == 1 {
        '1'
    } else if d == 2 {
        '2'
    } else if d == 3 {
        '3'
    } else if d == 4 {
        '4'
    } else if d == 5 {
        '5'
    } else if d == 6 {
        '6'
    } else if d == 7 {
        '7'
    } else if d == 8 {
        '8'
    } else {
        '9'
    }
}

/// The decimal notation of `n`, without leading zeros.
pub open spec fn decimal(n: nat) -> Seq<char>
    decreases n,
{
    if n < 10 {
        seq![digit_char(n)]
    } else {
        decimal(n / 10).push(digit_char(n % 10))
    }
}

/// The decimal notation of `n`, with a leading `-` when it is negative.
pub open spec fn signed_decimal(n: int) -> Seq<char> {
    if n < 0 {
        seq!['-'] + decimal((-n) as nat)
    } else {
        decimal(n as nat)
    }
}

fn digit_text(d: u8) -> (r: &'static str)
    requires
        d < 10,
    ensures
        r@ == seq![digit_char(d as nat)],
{
    proof {
        reveal_strlit("0");
        reveal_strlit("1");
        reveal_strlit("2");
        reveal_strlit("3");
        reveal_strlit("4");
        reveal_strlit("5");
        reveal_strlit("6");
        reveal_strlit("7");
        reveal_strlit("8");
        reveal_strlit("9");
    }
    let r = if d == 0 {
        "0"
    } else if d == 1 {
        "1"
    } else if d == 2 {
        "2"
    } else if d == 3 {
        "3"
    } else if d == 4 {
        "4"
    } else if d == 5 {
        "5"
    } else if d == 6 {
        "6"
    } else if d == 7 {
        "7"
    } else if d == 8 {
        "8"
    } else {
        "9"
    };
    assert(r@ =~= seq![digit_char(d as nat)]);
    r
}

/// Appends the decimal notation of `n` to `out`.
pub fn push_decimal(out: &mut String, n: u128)
    ensures
        final(out)@ == old(out)@ + decimal(n as nat),
{
    let mut digits: Vec<u8> = Vec::new();
    let mut rest: u128 = n;
    while rest >= 10
        invariant
            forall|k: int| 0 <= k < digits@.len() ==> digits@[k] < 10,
            decimal(n as nat) == decimal(rest as nat) + Seq::new(
                digits@.len(),
                |k: int| digit_char(digits@[digits@.len() - 1 - k] as nat),
            ),
        decreases rest,
    {
        let d: u8 = (rest % 10) as u8;
        proof {
            let ghost tail = Seq::new(
                digits@.len(),
                |k: int| digit_char(digits@[digits@.len() - 1 - k] as nat),
            );
            let ghost longer = digits@.push(d);
            let ghost tail2 = Seq::new(
                longer.len(),
                |k: int| digit_char(longer[longer.len() - 1 - k] as nat),
            );
            assert(tail2 =~= seq![digit_char(d as nat)] + tail);
            assert(decimal(rest as nat) == decimal((rest / 10) as nat).push(digit_char(d as nat)));
            assert(decimal(rest as nat) + tail =~= decimal((rest / 10) as nat) + tail2);
        }
        digits.push(d);
        rest = rest / 10;
    }
    let ghost start = out@;
    let ghost tail = Seq::new(
        digits@.len(),
        |k: int| digit_char(digits@[digits@.len() - 1 - k] as nat),
    );
    out.append(digit_text(rest as u8));
    assert(out@ =~= start + decimal(rest as nat));
    let mut i: usize = digits.len();
    while i > 0
        invariant
            i <= digits.len(),
            forall|k: int| 0 <= k < digits@.len() ==> digits@[k] < 10,
            tail == Seq::new(
                digits@.len(),
                |k: int| digit_char(digits@[digits@.len() - 1 - k] as nat),
            ),
            out@ == start + decimal(rest as nat) + tail.take(digits@.len() - i),
        decreases i,
    {
        i -= 1;
        out.append(digit_text(digits[i]));
        assert(tail.take(digits@.len() - i) =~= tail.take(digits@.len() - i - 1).push(
            digit_char(digits@[i as int] as nat),
        ));
        assert(out@ =~= start + decimal(rest as nat) + tail.take(digits@.len() - i));
    }
    assert(tail.take(digits@.len() as int) =~= tail);
    assert(out@ =~= start + (decimal(rest as nat) + tail));
}

/// Appends the decimal notation of `n`, signed when negative, to `out`.
pub fn push_signed_decimal(out: &mut String, n: i32)
    ensures
        final(out)@ == old(out)@ + signed_decimal(n as int),
{
    if n < 0 {
        let ghost start = out@;
        out.append("-");
        proof {
            reveal_strlit("-");
            assert(out@ =~= start + seq!['-']);
        }
        let m: u128 = (-(n as i64)) as u128;
        push_decimal(out, m);
        assert(out@ =~= start + (seq!['-'] + decimal((-n) as nat)));
    } else {
        push_decimal(out, n as u128);
    }
}


/// Whether `c` is white space: a character with Unicode's `White_Space`
/// property.
pub open spec fn white_space(c: char) -> bool {
    ('\u{9}' <= c && c <= '\u{d}') || c == ' ' || c == '\u{85}' || c == '\u{a0}' || c
        == '\u{1680}' || ('\u{2000}' <= c && c <= '\u{200a}') || c == '\u{2028}' || c
        == '\u{2029}' || c == '\u{202f}' || c == '\u{205f}' || c == '\u{3000}'
}

/// Whether `c` is white space.
pub fn is_white_space(c: char) -> (r: bool)
    ensures
        r == white_space(c),
{
    (c >= '\u{9}' && c <= '\u{d}') || c == ' ' || c == '\u{85}' || c == '\u{a0}' || c
        == '\u{1680}' || (c >= '\u{2000}' && c <= '\u{200a}') || c == '\u{2028}' || c
        == '\u{2029}' || c == '\u{202f}' || c == '\u{205f}' || c == '\u{3000}'
}

/// `s` without the white space it begins with.
pub open spec fn trimmed_start(s: Seq<char>) -> Seq<char>
    decreases s.len(),
{
    if s.len() > 0 && white_space(s[0]) {
        trimmed_start(s.drop_first())
    } else {
        s
    }
}

/// `s` without the white space it ends with.
pub open spec fn trimmed_end(s: Seq<char>) -> Seq<char>
    decreases s.len(),
{
    if s.len() > 0 && white_space(s.last()) {
        trimmed_end(s.drop_last())
    } else {
        s
    }
}

/// `s` without the white space at either end.
pub open spec fn trimmed(s: Seq<char>) -> Seq<char> {
    trimmed_end(trimmed_start(s))
}

/// The bounds of `s[from..to]` without the white space at either end.
pub fn trim_bounds(s: &[char], from: usize, to: usize) -> (r: (usize, usize))
    requires
        from <= to <= s@.len(),
    ensures
        from <= r.0 <= r.1 <= to,
        s@.subrange(r.0 as int, r.1 as int) == trimmed(s@.subrange(from as int, to as int)),
{
    let mut start: usize = from;
    while start < to && is_white_space(s[start])
        invariant
            from <= start <= to <= s@.len(),
            trimmed_start(s@.subrange(from as int, to as int)) == trimmed_start(
                s@.subrange(start as int, to as int),
            ),
        decreases to - start,
    {
        assert(s@.subrange(start as int, to as int).drop_first() =~= s@.subrange(
            start + 1,
            to as int,
        ));
        start += 1;
    }
    let mut end: usize = to;
    while end > start && is_white_space(s[end - 1])
        invariant
            start <= end <= to <= s@.len(),
            trimmed_end(s@.subrange(start as int, to as int)) == trimmed_end(
                s@.subrange(start as int, end as int),
            ),
        decreases end - start,
    {
        assert(s@.subrange(start as int, end as int).drop_last() =~= s@.subrange(
            start as int,
            end - 1,
        ));
        end -= 1;
    }
    (start, end)
}

/// The value of a decimal digit, if `c` is one.
pub open spec fn digit_value(c: char) -> Option<nat> {
    if '0' <= c && c <= '9' {
        Some((c as nat - '0' as nat) as nat)
    } else {
        None
    }
}

/// Whether `s` holds decimal digits only.
pub open spec fn all_digits(s: Seq<char>) -> bool {
    forall|i: int| 0 <= i < s.len() ==> digit_value(#[trigger] s[i]) is Some
}

/// The number that the decimal digits of `s` denote.
pub open spec fn digits_value(s: Seq<char>) -> nat
    decreases s.len(),
{
    if s.len() == 0 {
        0
    } else {
        digits_value(s.drop_last()) * 10 + digit_value(s.last()).unwrap_or(0)
    }
}

/// The 32-bit signed integer that `s` denotes in decimal: an optional `+` or
/// `-`, then one digit or more, and nothing else; `None` when `s` has another
/// shape or the number does not fit.
pub open spec fn parsed_i32(s: Seq<char>) -> Option<i32> {
    let negative = s.len() > 0 && s[0] == '-';
    let signed = s.len() > 0 && (s[0] == '-' || s[0] == '+');
    let digits = if signed {
        s.drop_first()
    } else {
        s
    };
    let magnitude = digits_value(digits) as int;
    let value = if negative {
        -magnitude
    } else {
        magnitude
    };
    if digits.len() == 0 || !all_digits(digits) || value < -0x8000_0000 || value > 0x7fff_ffff {
        None
    } else {
        Some(value as i32)
    }
}

proof fn lemma_digits_value_grows(s: Seq<char>, n: int)
    requires
        0 <= n <= s.len(),
    ensures
        digits_value(s.take(n)) <= digits_value(s),
    decreases s.len() - n,
{
    if n < s.len() {
        lemma_digits_value_grows(s, n + 1);
        assert(s.take(n + 1).drop_last() =~= s.take(n));
    } else {
        assert(s.take(n) =~= s);
    }
}

/// Reads a 32-bit signed integer in decimal from `s[from..to]`.
pub fn parse_i32(s: &[char], from: usize, to: usize) -> (r: Option<i32>)
    requires
        from <= to <= s@.len(),
    ensures
        r == parsed_i32(s@.subrange(from as int, to as int)),
{
    let ghost whole = s@.subrange(from as int, to as int);
    if from == to {
        return None;
    }
    let negative = s[from] == '-';
    let signed = negative || s[from] == '+';
    assert(whole[0] == s@[from as int]);
    let first: usize = if signed {
        from + 1
    } else {
        from
    };
    let ghost digits = s@.subrange(first as int, to as int);
    assert(digits =~= if signed {
        whole.drop_first()
    } else {
        whole
    });
    if first == to {
        return None;
    }
    let mut acc: i64 = 0;
    let mut i: usize = first;
    while i < to
        invariant
            first <= i <= to <= s@.len(),
            from < to,
            whole == s@.subrange(from as int, to as int),
            digits == s@.subrange(first as int, to as int),
            negative == (whole[0] == '-'),
            signed == (whole[0] == '-' || whole[0] == '+'),
            digits == if signed {
                whole.drop_first()
            } else {
                whole
            },
            all_digits(digits.take(i - first)),
            acc == digits_value(digits.take(i - first)),
            0 <= acc <= 0x8000_0000,
        decreases to - i,
    {
        let c = s[i];
        assert(digits[i - first] == c);
        if !(c >= '0' && c <= '9') {
            assert(digit_value(digits[i - first]) is None);
            return None;
        }
        let d: i64 = (c as u32 - '0' as u32) as i64;
        proof {
            assert(digits.take(i - first + 1).drop_last() =~= digits.take(i - first));
            assert(digits.take(i - first + 1).last() == c);
        }
        acc = acc * 10 + d;
        if acc > 0x8000_0000 {
            proof {
                lemma_digits_value_grows(digits, i - first + 1);
            }
            return None;
        }
        i += 1;
    }
    assert(digits.take(i - first) =~= digits);
    if negative {
        Some((-acc) as i32)
    } else if acc > 0x7fff_ffff {
        None
    } else {
        Some(acc as i32)
    }
}


/// The lowercase form of a text, by Unicode's rules for whole strings.
pub uninterp spec fn lowercase(text: Seq<char>) -> Seq<char>;

/// `str::to_lowercase` of the standard library. The contract claims only
/// that the result is a function of the text: the same text always has the
/// same lowercase form, which [`lowercase`] names.
#[verifier::external_body]
pub(crate) fn to_lowercase(s: &str) -> (r: String)
    ensures
        r@ == lowercase(s@),
{
    s.to_lowercase()
}

/// `a` followed by `b`.
pub fn append(a: &str, b: &str) -> (r: String)
    ensures
        r@ == a@ + b@,
{
    let mut out = String::from_str(a);
    out.append(b);
    out
}


/// `String::push` of the standard library: the string afterwards is the
/// string before with `c` at its end.
#[verifier::external_body]
pub(crate) fn push_char(s: &mut String, c: char)
    ensures
        final(s)@ == old(s)@.push(c),
{
    s.push(c)
}

/// An owned copy of the characters `from..to` of `chars`.
pub fn slice_text(chars: &[char], from: usize, to: usize) -> (r: String)
    requires
        from <= to <= chars@.len(),
    ensures
        r@ == chars@.subrange(from as int, to as int),
{
    let mut out = String::new();
    let mut i: usize = from;
    assert(out@ =~= chars@.subrange(from as int, from as int));
    while i < to
        invariant
            from <= i <= to <= chars@.len(),
            out@ == chars@.subrange(from as int, i as int),
        decreases to - i,
    {
        push_char(&mut out, chars[i]);
        assert(out@ =~= chars@.subrange(from as int, i + 1));
        i += 1;
    }
    out
}

/// The index of the first `c` in `s` at or behind `from`, or `s.len()` when
/// there is none.
pub open spec fn next_index_of(s: Seq<char>, c: char, from: int) -> int
    decreases s.len() - from,
{
    if from < 0 || from >= s.len() {
        s.len() as int
    } else if s[from] == c {
        from
    } else {
        next_index_of(s, c, from + 1)
    }
}

/// The index of the first `c` in `chars[from..to]`, or `to`.
pub fn find_from(chars: &[char], c: char, from: usize, to: usize) -> (r: usize)
    requires
        from <= to <= chars@.len(),
    ensures
        from <= r <= to,
        r == next_index_of(chars@.take(to as int), c, from as int),
        r < to ==> chars@[r as int] == c,
        forall|k: int| from <= k < r ==> chars@[k] != c,
{
    let ghost s = chars@.take(to as int);
    let mut i: usize = from;
    while i < to && chars[i] != c
        invariant
            from <= i <= to <= chars@.len(),
            s == chars@.take(to as int),
            next_index_of(s, c, i as int) == next_index_of(s, c, from as int),
            forall|k: int| from <= k < i ==> chars@[k] != c,
        decreases to - i,
    {
        assert(s[i as int] == chars@[i as int]);
        i += 1;
    }
    proof {
        if i < to {
            assert(s[i as int] == chars@[i as int]);
        }
    }
    i
}

/// Where the search for `c` in `s` ends: at a `c` with none before it, or
/// at the end of `s` exactly if `s` holds no `c`.
pub proof fn lemma_next_index_of(s: Seq<char>, c: char, from: int)
    requires
        0 <= from <= s.len(),
    ensures
        from <= next_index_of(s, c, from) <= s.len(),
        next_index_of(s, c, from) < s.len() ==> s[next_index_of(s, c, from)] == c,
        forall|k: int| from <= k < next_index_of(s, c, from) ==> s[k] != c,
        from == 0 ==> (s.contains(c) <==> next_index_of(s, c, 0) < s.len()),
    decreases s.len() - from,
{
    if from < s.len() && s[from] != c {
        lemma_next_index_of(s, c, from + 1);
    }
}

/// The index of the first `c` in `s`, if any.
pub fn find_char(s: &[char], c: char) -> (r: Option<usize>)
    ensures
        match r {
            Some(i) => i < s@.len() && i == next_index_of(s@, c, 0) && s@.contains(c),
            None => next_index_of(s@, c, 0) == s@.len() && !s@.contains(c),
        },
{
    let n: usize = s.len();
    let at = find_from(s, c, 0, n);
    proof {
        assert(s@.take(n as int) =~= s@);
        lemma_next_index_of(s@, c, 0);
    }
    if at < n {
        Some(at)
    } else {
        None
    }
}

/// The lines of a text. A line ends at a newline, which is no part of it,
/// nor is a carriage return right before that newline. What stands behind
/// the last newline is a line too, unless it is empty.
pub open spec fn lines_of(s: Seq<char>) -> Seq<Seq<char>>
    decreases s.len(),
{
    if s.len() == 0 {
        Seq::empty()
    } else {
        let end = next_index_of(s, '\n', 0);
        if end < 0 || end >= s.len() {
            seq![s]
        } else {
            let line = s.take(end);
            let bare = if line.len() > 0 && line.last() == '\r' {
                line.drop_last()
            } else {
                line
            };
            seq![bare] + lines_of(s.skip(end + 1))
        }
    }
}

proof fn lemma_next_index_shift(s: Seq<char>, c: char, base: int, from: int)
    requires
        0 <= base <= from <= s.len(),
    ensures
        next_index_of(s.skip(base), c, from - base) == next_index_of(s, c, from) - base,
    decreases s.len() - from,
{
    if from < s.len() {
        assert(s.skip(base)[from - base] == s[from]);
        if s[from] != c {
            lemma_next_index_shift(s, c, base, from + 1);
        }
    }
}

/// Whether every pair of `bounds` delimits a part of a text of length `len`.
pub open spec fn bounds_within(bounds: Seq<(usize, usize)>, len: nat) -> bool {
    forall|k: int| 0 <= k < bounds.len() ==> (#[trigger] bounds[k]).0 <= bounds[k].1 <= len
}

/// The parts of `s` that `bounds` delimit, in order.
pub open spec fn parts_of(s: Seq<char>, bounds: Seq<(usize, usize)>) -> Seq<Seq<char>> {
    Seq::new(bounds.len(), |k: int| s.subrange(bounds[k].0 as int, bounds[k].1 as int))
}

/// The bounds of each line of `chars`, in order.
pub fn line_bounds(chars: &[char]) -> (r: Vec<(usize, usize)>)
    ensures
        bounds_within(r@, chars@.len()),
        parts_of(chars@, r@) == lines_of(chars@),
{
    let mut out: Vec<(usize, usize)> = Vec::new();
    let n: usize = chars.len();
    let mut start: usize = 0;
    assert(chars@.skip(0) =~= chars@);
    assert(parts_of(chars@, out@) =~= Seq::<Seq<char>>::empty());
    while start < n
        invariant
            start <= n,
            n == chars@.len(),
            bounds_within(out@, chars@.len()),
            parts_of(chars@, out@) + lines_of(chars@.skip(start as int)) == lines_of(chars@),
        decreases n - start,
    {
        let ghost rest = chars@.skip(start as int);
        let ghost before = parts_of(chars@, out@);
        let end = find_from(chars, '\n', start, n);
        proof {
            assert(chars@.take(n as int) =~= chars@);
            lemma_next_index_shift(chars@, '\n', start as int, start as int);
            assert(next_index_of(rest, '\n', 0) == end - start);
        }
        if end >= n {
            assert(lines_of(rest) =~= seq![rest]);
            assert(rest =~= chars@.subrange(start as int, n as int));
            out.push((start, n));
            start = n;
            proof {
                assert(lines_of(chars@.skip(n as int)) =~= Seq::<Seq<char>>::empty());
                assert(parts_of(chars@, out@) =~= before.push(rest));
                assert(parts_of(chars@, out@) + lines_of(chars@.skip(n as int)) =~= before
                    + lines_of(rest));
            }
        } else {
            let bare_end: usize = if end > start && chars[end - 1] == '\r' {
                end - 1
            } else {
                end
            };
            proof {
                let line = rest.take(end - start);
                assert(line =~= chars@.subrange(start as int, end as int));
                if line.len() > 0 {
                    assert(line.last() == chars@[end - 1]);
                }
                let bare = if line.len() > 0 && line.last() == '\r' {
                    line.drop_last()
                } else {
                    line
                };
                assert(bare =~= chars@.subrange(start as int, bare_end as int));
                assert(rest.skip(end - start + 1) =~= chars@.skip(end + 1));
                assert(lines_of(rest) == seq![bare] + lines_of(chars@.skip(end + 1)));
            }
            out.push((start, bare_end));
            start = end + 1;
            proof {
                let bare = chars@.subrange(out@.last().0 as int, out@.last().1 as int);
                assert(parts_of(chars@, out@) =~= before.push(bare));
                assert(parts_of(chars@, out@) + lines_of(chars@.skip(start as int)) =~= before + (
                seq![bare] + lines_of(chars@.skip(start as int))));
            }
        }
    }
    proof {
        assert(lines_of(chars@.skip(start as int)) =~= Seq::<Seq<char>>::empty());
        assert(parts_of(chars@, out@) + Seq::<Seq<char>>::empty() =~= parts_of(chars@, out@));
    }
    out
}


/// A copy of the characters `from..to` of `chars`.
pub fn sub_chars(chars: &[char], from: usize, to: usize) -> (r: Vec<char>)
    requires
        from <= to <= chars@.len(),
    ensures
        r@ == chars@.subrange(from as int, to as int),
{
    let mut out: Vec<char> = Vec::new();
    let mut i: usize = from;
    assert(out@ =~= chars@.subrange(from as int, from as int));
    while i < to
        invariant
            from <= i <= to <= chars@.len(),
            out@ == chars@.subrange(from as int, i as int),
        decreases to - i,
    {
        out.push(chars[i]);
        assert(out@ =~= chars@.subrange(from as int, i + 1));
        i += 1;
    }
    out
}

/// The text that `chars` hold.
pub fn text_of(chars: &[char]) -> (r: String)
    ensures
        r@ == chars@,
{
    assert(chars@.subrange(0, chars@.len() as int) =~= chars@);
    slice_text(chars, 0, chars.len())
}

/// `chars` without the white space at either end.
pub fn trim_chars(chars: &[char]) -> (r: Vec<char>)
    ensures
        r@ == trimmed(chars@),
{
    assert(chars@.subrange(0, chars@.len() as int) =~= chars@);
    let bounds = trim_bounds(chars, 0, chars.len());
    sub_chars(chars, bounds.0, bounds.1)
}

/// The index of the first character of `s` at or behind `from` that is no
/// white space, or `s.len()`.
pub open spec fn skip_white(s: Seq<char>, from: int) -> int
    decreases s.len() - from,
{
    if from < 0 || from >= s.len() {
        s.len() as int
    } else if !white_space(s[from]) {
        from
    } else {
        skip_white(s, from + 1)
    }
}

/// The index of the first white space in `s` at or behind `from`, or
/// `s.len()`.
pub open spec fn skip_word(s: Seq<char>, from: int) -> int
    decreases s.len() - from,
{
    if from < 0 || from >= s.len() {
        s.len() as int
    } else if white_space(s[from]) {
        from
    } else {
        skip_word(s, from + 1)
    }
}

/// The word number `k` of `s` behind `from`, counted from 0, where words
/// are what white space separates; empty when there are not so many.
pub open spec fn word_from(s: Seq<char>, from: int, k: nat) -> Seq<char>
    decreases k,
{
    let start = skip_white(s, from);
    let end = skip_word(s, start);
    if k == 0 {
        if 0 <= start <= end <= s.len() {
            s.subrange(start, end)
        } else {
            Seq::empty()
        }
    } else {
        word_from(s, end, (k - 1) as nat)
    }
}

/// The word number `k` of `s`, counted from 0; empty when there are not so
/// many.
pub open spec fn word(s: Seq<char>, k: nat) -> Seq<char> {
    word_from(s, 0, k)
}

fn past_white(chars: &[char], from: usize) -> (r: usize)
    requires
        from <= chars@.len(),
    ensures
        from <= r <= chars@.len(),
        r == skip_white(chars@, from as int),
{
    let mut i: usize = from;
    while i < chars.len() && is_white_space(chars[i])
        invariant
            from <= i <= chars@.len(),
            skip_white(chars@, i as int) == skip_white(chars@, from as int),
        decreases chars.len() - i,
    {
        i += 1;
    }
    i
}

fn past_word(chars: &[char], from: usize) -> (r: usize)
    requires
        from <= chars@.len(),
    ensures
        from <= r <= chars@.len(),
        r == skip_word(chars@, from as int),
{
    let mut i: usize = from;
    while i < chars.len() && !is_white_space(chars[i])
        invariant
            from <= i <= chars@.len(),
            skip_word(chars@, i as int) == skip_word(chars@, from as int),
        decreases chars.len() - i,
    {
        i += 1;
    }
    i
}

/// The word number `k` of `chars`, counted from 0; empty when there are not
/// so many.
pub fn nth_word(chars: &[char], k: usize) -> (r: Vec<char>)
    ensures
        r@ == word(chars@, k as nat),
{
    let mut from: usize = 0;
    let mut left: usize = k;
    loop
        invariant
            from <= chars@.len(),
            left <= k,
            word_from(chars@, from as int, left as nat) == word(chars@, k as nat),
        decreases left,
    {
        let start = past_white(chars, from);
        let end = past_word(chars, start);
        if left == 0 {
            return sub_chars(chars, start, end);
        }
        from = end;
        left -= 1;
    }
}

/// The piece number `k` of `s`, counted from 0, where pieces are what the
/// character `sep` separates; `None` when there are not so many.
pub open spec fn piece(s: Seq<char>, sep: char, k: nat) -> Option<Seq<char>>
    decreases k,
{
    let end = next_index_of(s, sep, 0);
    if k == 0 {
        if 0 <= end <= s.len() {
            Some(s.take(end))
        } else {
            Some(s)
        }
    } else if 0 <= end < s.len() {
        piece(s.skip(end + 1), sep, (k - 1) as nat)
    } else {
        None
    }
}

/// The piece number `k` of `s`, or nothing when there are not so many.
pub open spec fn field(s: Seq<char>, sep: char, k: nat) -> Seq<char> {
    match piece(s, sep, k) {
        Some(text) => text,
        None => Seq::empty(),
    }
}

/// The piece number `k` of `chars`, counted from 0, where pieces are what
/// `sep` separates.
pub fn nth_piece(chars: &[char], sep: char, k: usize) -> (r: Option<Vec<char>>)
    ensures
        match r {
            Some(text) => piece(chars@, sep, k as nat) == Some(text@),
            None => piece(chars@, sep, k as nat) is None,
        },
{
    let n: usize = chars.len();
    let mut from: usize = 0;
    let mut left: usize = k;
    assert(chars@.skip(0) =~= chars@);
    loop
        invariant
            from <= n,
            n == chars@.len(),
            left <= k,
            piece(chars@.skip(from as int), sep, left as nat) == piece(chars@, sep, k as nat),
        decreases left,
    {
        let ghost rest = chars@.skip(from as int);
        let end = find_from(chars, sep, from, n);
        proof {
            assert(chars@.take(n as int) =~= chars@);
            lemma_next_index_shift(chars@, sep, from as int, from as int);
            assert(next_index_of(rest, sep, 0) == end - from);
        }
        if left == 0 {
            assert(rest.take(end - from) =~= chars@.subrange(from as int, end as int));
            return Some(sub_chars(chars, from, end));
        }
        if end >= n {
            return None;
        }
        assert(rest.skip(end - from + 1) =~= chars@.skip(end + 1));
        from = end + 1;
        left -= 1;
    }
}

/// The piece number `k` of `chars`, or nothing when there are not so many.
pub fn nth_field(chars: &[char], sep: char, k: usize) -> (r: Vec<char>)
    ensures
        r@ == field(chars@, sep, k as nat),
{
    match nth_piece(chars, sep, k) {
        Some(text) => text,
        None => Vec::new(),
    }
}

/// What stands before the first `sep` in `s` and what stands behind it;
/// `None` when `s` holds no `sep`.
pub open spec fn split_at_first(s: Seq<char>, sep: char) -> Option<(Seq<char>, Seq<char>)> {
    let at = next_index_of(s, sep, 0);
    if 0 <= at < s.len() {
        Some((s.take(at), s.skip(at + 1)))
    } else {
        None
    }
}

/// What stands before the first `sep` in `chars` and what stands behind it.
pub fn split_once(chars: &[char], sep: char) -> (r: Option<(Vec<char>, Vec<char>)>)
    ensures
        match r {
            Some((before, after)) => split_at_first(chars@, sep) == Some((before@, after@)),
            None => split_at_first(chars@, sep) is None,
        },
{
    let n: usize = chars.len();
    let at = find_from(chars, sep, 0, n);
    assert(chars@.take(n as int) =~= chars@);
    if at >= n {
        None
    } else {
        assert(chars@.take(at as int) =~= chars@.subrange(0, at as int));
        assert(chars@.skip(at + 1) =~= chars@.subrange(at + 1, n as int));
        Some((sub_chars(chars, 0, at), sub_chars(chars, at + 1, n)))
    }
}

/// The words of `s` behind `from`, in order, where words are what white
/// space separates.
pub open spec fn words_from(s: Seq<char>, from: int) -> Seq<Seq<char>>
    decreases s.len() - from,
{
    let start = skip_white(s, from);
    let end = skip_word(s, start);
    if from < 0 || start < from || start >= s.len() || end <= start || end > s.len() {
        Seq::empty()
    } else {
        seq![s.subrange(start, end)] + words_from(s, end)
    }
}

/// The words of `s`, in order.
pub open spec fn words_of(s: Seq<char>) -> Seq<Seq<char>> {
    words_from(s, 0)
}

proof fn lemma_skip_white(s: Seq<char>, from: int)
    requires
        0 <= from <= s.len(),
    ensures
        from <= skip_white(s, from) <= s.len(),
        skip_white(s, from) < s.len() ==> !white_space(s[skip_white(s, from)]),
    decreases s.len() - from,
{
    if from < s.len() && white_space(s[from]) {
        lemma_skip_white(s, from + 1);
    }
}

proof fn lemma_skip_word(s: Seq<char>, from: int)
    requires
        0 <= from <= s.len(),
    ensures
        from <= skip_word(s, from) <= s.len(),
        from < s.len() && !white_space(s[from]) ==> from < skip_word(s, from),
    decreases s.len() - from,
{
    if from < s.len() && !white_space(s[from]) {
        lemma_skip_word(s, from + 1);
    }
}

/// The words of `chars`, in order.
pub fn split_words(chars: &[char]) -> (r: Vec<String>)
    ensures
        texts(r@) == words_of(chars@),
{
    let mut out: Vec<String> = Vec::new();
    let mut from: usize = 0;
    assert(texts(out@) =~= Seq::<Seq<char>>::empty());
    loop
        invariant
            from <= chars@.len(),
            texts(out@) + words_from(chars@, from as int) == words_of(chars@),
        decreases chars@.len() - from,
    {
        let start = past_white(chars, from);
        if start >= chars.len() {
            assert(words_from(chars@, from as int) =~= Seq::<Seq<char>>::empty());
            assert(texts(out@) + Seq::<Seq<char>>::empty() =~= texts(out@));
            return out;
        }
        let end = past_word(chars, start);
        proof {
            lemma_skip_white(chars@, from as int);
            lemma_skip_word(chars@, start as int);
        }
        let ghost before = texts(out@);
        let ghost found = chars@.subrange(start as int, end as int);
        out.push(slice_text(chars, start, end));
        proof {
            assert(texts(out@) =~= before.push(found));
            assert(before.push(found) + words_from(chars@, end as int) =~= before + (seq![found]
                + words_from(chars@, end as int)));
        }
        from = end;
    }
}

} // verus!
