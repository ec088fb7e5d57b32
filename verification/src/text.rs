//! Character-level text helpers shared by the parsers: Unicode whitespace, trimming,
//! ASCII case folding, prefix tests, and conversions between `str` and `Vec<char>`.

use vstd::prelude::*;

verus! {

/// The characters of `s`, in order.
pub fn chars_of(s: &str) -> (r: Vec<char>)
    ensures
        r@ == s@,
{
    broadcast use vstd::string::group_string_axioms;

    let mut v: Vec<char> = Vec::new();
    for c in it: s.chars()
        invariant
            v@ == it.seq().take(it.index()),
    {
        v.push(c);
    }
    assert(v@ =~= s@);
    v
}

/// The `String` made of the characters `cs`, in order.
///
/// Trusted: calls std's `FromIterator<&char> for String` (`Iterator::collect`), which
/// appends each character in turn.
#[verifier::external_body]
pub(crate) fn string_from_chars(cs: &[char]) -> (r: String)
    ensures
        r@ == cs@,
{
    cs.iter().collect::<String>()
}

/// Unicode `White_Space`, the set that `char::is_whitespace` tests.
pub open spec fn is_ws(c: char) -> bool {
    let x = c as u32;
    ||| 0x9 <= x <= 0xd
    ||| x == 0x20
    ||| x == 0x85
    ||| x == 0xa0
    ||| x == 0x1680
    ||| 0x2000 <= x <= 0x200a
    ||| x == 0x2028
    ||| x == 0x2029
    ||| x == 0x202f
    ||| x == 0x205f
    ||| x == 0x3000
}

/// Whether `c` is Unicode whitespace.
pub fn is_whitespace(c: char) -> (r: bool)
    ensures
        r == is_ws(c),
{
    let x = c as u32;
    (0x9 <= x && x <= 0xd) || x == 0x20 || x == 0x85 || x == 0xa0 || x == 0x1680 || (0x2000
        <= x && x <= 0x200a) || x == 0x2028 || x == 0x2029 || x == 0x202f || x == 0x205f || x
        == 0x3000
}

/// `s` without its leading whitespace.
pub open spec fn trim_start(s: Seq<char>) -> Seq<char>
    decreases s.len(),
{
    if s.len() > 0 && is_ws(s[0]) {
        trim_start(s.drop_first())
    } else {
        s
    }
}

/// `s` without its trailing whitespace.
pub open spec fn trim_end(s: Seq<char>) -> Seq<char>
    decreases s.len(),
{
    if s.len() > 0 && is_ws(s.last()) {
        trim_end(s.drop_last())
    } else {
        s
    }
}

/// `s` without leading and trailing whitespace.
pub open spec fn trim(s: Seq<char>) -> Seq<char> {
    trim_end(trim_start(s))
}

/// Whether `s` holds nothing but whitespace.
pub open spec fn all_ws(s: Seq<char>) -> bool {
    forall|i: int| 0 <= i < s.len() ==> is_ws(#[trigger] s[i])
}

/// A string trims to nothing exactly when it is all whitespace.
pub proof fn lemma_trim_empty(s: Seq<char>)
    ensures
        (trim(s).len() == 0) == all_ws(s),
        (trim_end(s).len() == 0) == all_ws(s),
{
    lemma_trim_start_empty(s);
    lemma_trim_end_empty(s);
    lemma_trim_end_empty(trim_start(s));
    lemma_trim_start_suffix(s);
    let t = trim_start(s);
    let k = s.len() - t.len();
    if all_ws(t) {
        assert forall|i: int| 0 <= i < s.len() implies is_ws(#[trigger] s[i]) by {
            if i < k {
                assert(s[i] == s.take(k)[i]);
            } else {
                assert(s[i] == t[i - k]);
            }
        }
    }
    if all_ws(s) {
        assert forall|i: int| 0 <= i < t.len() implies is_ws(#[trigger] t[i]) by {
            assert(t[i] == s[i + k]);
        }
    }
}

proof fn lemma_trim_start_empty(s: Seq<char>)
    ensures
        (trim_start(s).len() == 0) == all_ws(s),
    decreases s.len(),
{
    if s.len() > 0 && is_ws(s[0]) {
        lemma_trim_start_empty(s.drop_first());
        if all_ws(s.drop_first()) {
            assert forall|i: int| 0 <= i < s.len() implies is_ws(#[trigger] s[i]) by {
                if i > 0 {
                    assert(s[i] == s.drop_first()[i - 1]);
                }
            }
        }
        if all_ws(s) {
            assert forall|i: int| 0 <= i < s.len() - 1 implies is_ws(#[trigger] s.drop_first()[i]) by {
                assert(s.drop_first()[i] == s[i + 1]);
            }
        }
    }
}

proof fn lemma_trim_end_empty(s: Seq<char>)
    ensures
        (trim_end(s).len() == 0) == all_ws(s),
    decreases s.len(),
{
    if s.len() > 0 && is_ws(s.last()) {
        lemma_trim_end_empty(s.drop_last());
        if all_ws(s.drop_last()) {
            assert forall|i: int| 0 <= i < s.len() implies is_ws(#[trigger] s[i]) by {
                if i < s.len() - 1 {
                    assert(s[i] == s.drop_last()[i]);
                }
            }
        }
        if all_ws(s) {
            assert forall|i: int| 0 <= i < s.len() - 1 implies is_ws(#[trigger] s.drop_last()[i]) by {
                assert(s.drop_last()[i] == s[i]);
            }
        }
    }
}

/// `trim_start(s)` is a suffix of `s`, and everything it drops is whitespace.
proof fn lemma_trim_start_suffix(s: Seq<char>)
    ensures
        trim_start(s).len() <= s.len(),
        trim_start(s) == s.skip(s.len() - trim_start(s).len()),
        all_ws(s.take(s.len() - trim_start(s).len())),
    decreases s.len(),
{
    if s.len() > 0 && is_ws(s[0]) {
        lemma_trim_start_suffix(s.drop_first());
        let t = s.drop_first();
        let k = t.len() - trim_start(t).len();
        assert(t.skip(k) =~= s.skip(k + 1));
        assert forall|i: int| 0 <= i < k + 1 implies is_ws(#[trigger] s.take(k + 1)[i]) by {
            if i > 0 {
                assert(s.take(k + 1)[i] == t.take(k)[i - 1]);
            }
        }
    } else {
        assert(s.skip(0) =~= s);
        assert(s.take(0) =~= Seq::<char>::empty());
    }
}

/// `trim_end(s)` is a prefix of `s` that, when not empty, ends in a non-whitespace character.
pub proof fn lemma_trim_end_shape(s: Seq<char>)
    ensures
        trim_end(s).len() <= s.len(),
        trim_end(s) == s.take(trim_end(s).len() as int),
        trim_end(s).len() > 0 ==> !is_ws(trim_end(s).last()),
    decreases s.len(),
{
    if s.len() > 0 && is_ws(s.last()) {
        lemma_trim_end_shape(s.drop_last());
        let t = s.drop_last();
        assert(t.take(trim_end(t).len() as int) =~= s.take(trim_end(t).len() as int));
    } else {
        assert(s.take(s.len() as int) =~= s);
    }
}

/// A trimmed string is no longer than the untrimmed one and, when not empty, neither starts nor
/// ends with whitespace.
pub proof fn lemma_trim_shape(s: Seq<char>)
    ensures
        trim(s).len() <= s.len(),
        trim(s).len() > 0 ==> !is_ws(trim(s)[0]) && !is_ws(trim(s).last()),
{
    lemma_trim_start_shape(s);
    lemma_trim_end_shape(trim_start(s));
    let t = trim_start(s);
    if trim(s).len() > 0 {
        assert(trim(s)[0] == t.take(trim(s).len() as int)[0]);
        assert(trim(s)[0] == t[0]);
    }
}

/// The start of the non-whitespace part of `v[from..to]`.
pub fn skip_ws_forward(v: &Vec<char>, from: usize, to: usize) -> (r: usize)
    requires
        from <= to <= v@.len(),
    ensures
        from <= r <= to,
        trim_start(v@.subrange(from as int, to as int)) == v@.subrange(r as int, to as int),
{
    let mut i = from;
    while i < to && is_whitespace(v[i])
        invariant
            from <= i <= to <= v@.len(),
            trim_start(v@.subrange(from as int, to as int)) == trim_start(
                v@.subrange(i as int, to as int),
            ),
        decreases to - i,
    {
        assert(v@.subrange(i as int, to as int).drop_first() =~= v@.subrange(i + 1, to as int));
        i = i + 1;
    }
    i
}

/// The end of the non-whitespace part of `v[from..to]`.
pub fn skip_ws_backward(v: &Vec<char>, from: usize, to: usize) -> (r: usize)
    requires
        from <= to <= v@.len(),
    ensures
        from <= r <= to,
        trim_end(v@.subrange(from as int, to as int)) == v@.subrange(from as int, r as int),
{
    let mut j = to;
    while j > from && is_whitespace(v[j - 1])
        invariant
            from <= j <= to <= v@.len(),
            trim_end(v@.subrange(from as int, to as int)) == trim_end(
                v@.subrange(from as int, j as int),
            ),
        decreases j - from,
    {
        assert(v@.subrange(from as int, j as int).drop_last() =~= v@.subrange(
            from as int,
            j - 1,
        ));
        j = j - 1;
    }
    j
}

/// ASCII upper-case letters folded to lower case; every other character unchanged.
pub open spec fn ascii_lower(c: char) -> char {
    if 'A' <= c && c <= 'Z' {
        ((c as u32) + 32) as char
    } else {
        c
    }
}

/// `s` with ASCII letters folded to lower case (`str::to_ascii_lowercase`).
pub open spec fn ascii_lowercase(s: Seq<char>) -> Seq<char> {
    s.map_values(|c: char| ascii_lower(c))
}

/// Whether `v[from..to]`, folded to ASCII lower case, equals `word`.
pub fn lower_eq(v: &Vec<char>, from: usize, to: usize, word: &str) -> (r: bool)
    requires
        from <= to <= v@.len(),
    ensures
        r == (ascii_lowercase(v@.subrange(from as int, to as int)) == word@),
{
    let w = chars_of(word);
    let ghost s = v@.subrange(from as int, to as int);
    if to - from != w.len() {
        assert(ascii_lowercase(s).len() != w@.len());
        return false;
    }
    let mut i: usize = 0;
    while i < w.len()
        invariant
            to - from == w@.len(),
            from <= to <= v@.len(),
            s == v@.subrange(from as int, to as int),
            w@ == word@,
            0 <= i <= w@.len(),
            forall|k: int| 0 <= k < i ==> ascii_lower(s[k]) == w@[k],
        decreases w.len() - i,
    {
        let c = v[from + i];
        let d = w[i];
        let folded = if 'A' <= c && c <= 'Z' {
            (c as u32) + 32 == d as u32
        } else {
            c == d
        };
        assert(s[i as int] == c);
        proof {
            if 'A' <= c && c <= 'Z' {
                let x = (c as u32) + 32;
                assert(0x61 <= x <= 0x7a);
                assert((x as char) as u32 == x);
                if folded {
                    lemma_char_code_injective(ascii_lower(c), d);
                }
            }
        }
        if !folded {
            assert(ascii_lowercase(s)[i as int] != w@[i as int]);
            return false;
        }
        i = i + 1;
    }
    assert(ascii_lowercase(s) =~= w@);
    true
}

/// Whether `s` begins with `prefix`.
pub open spec fn starts_with(s: Seq<char>, prefix: Seq<char>) -> bool {
    prefix.len() <= s.len() && s.take(prefix.len() as int) == prefix
}

/// Whether `v[from..to]` begins with `prefix`.
pub fn has_prefix(v: &Vec<char>, from: usize, to: usize, prefix: &str) -> (r: bool)
    requires
        from <= to <= v@.len(),
    ensures
        r == starts_with(v@.subrange(from as int, to as int), prefix@),
{
    let p = chars_of(prefix);
    let ghost s = v@.subrange(from as int, to as int);
    if p.len() > to - from {
        return false;
    }
    let mut i: usize = 0;
    while i < p.len()
        invariant
            p.len() <= to - from,
            from <= to <= v@.len(),
            s == v@.subrange(from as int, to as int),
            p@ == prefix@,
            0 <= i <= p@.len(),
            forall|k: int| 0 <= k < i ==> s[k] == p@[k],
        decreases p.len() - i,
    {
        if v[from + i] != p[i] {
            assert(s.take(p@.len() as int)[i as int] != p@[i as int]);
            return false;
        }
        i = i + 1;
    }
    assert(s.take(p@.len() as int) =~= p@);
    true
}

/// Whether `v[from..to]` equals `word`.
pub fn slice_eq(v: &Vec<char>, from: usize, to: usize, word: &str) -> (r: bool)
    requires
        from <= to <= v@.len(),
    ensures
        r == (v@.subrange(from as int, to as int) == word@),
{
    let p = chars_of(word);
    let ghost s = v@.subrange(from as int, to as int);
    if p.len() != to - from {
        assert(s.len() != p@.len());
        return false;
    }
    let r = has_prefix(v, from, to, word);
    assert(s.take(p@.len() as int) =~= s);
    r
}
/// Characters with the same code point are the same character.
proof fn lemma_char_code_injective(a: char, b: char)
    requires
        a as u32 == b as u32,
    ensures
        a == b,
{
}

/// The index of the first `'\n'` in `s`, or `s.len()` when there is none.
pub open spec fn newline_index(s: Seq<char>) -> int
    decreases s.len(),
{
    if s.len() == 0 {
        0
    } else if s[0] == '\n' {
        0
    } else {
        1 + newline_index(s.drop_first())
    }
}

proof fn lemma_newline_index(s: Seq<char>)
    ensures
        0 <= newline_index(s) <= s.len(),
        newline_index(s) < s.len() ==> s[newline_index(s)] == '\n',
        forall|k: int| 0 <= k < newline_index(s) ==> s[k] != '\n',
    decreases s.len(),
{
    if s.len() > 0 && s[0] != '\n' {
        lemma_newline_index(s.drop_first());
        assert forall|k: int| 0 <= k < newline_index(s) implies s[k] != '\n' by {
            if k > 0 {
                assert(s[k] == s.drop_first()[k - 1]);
            }
        }
    }
}

/// A line as `str::lines` yields it: the text up to a `'\n'`, less one `'\r'` right before
/// that `'\n'`.
pub open spec fn line_body(s: Seq<char>, ends_in_newline: bool) -> Seq<char> {
    if ends_in_newline && s.len() > 0 && s.last() == '\r' {
        s.drop_last()
    } else {
        s
    }
}

/// The lines of `s` as `str::lines` splits them: at each `'\n'` (a `"\r\n"` ending loses its
/// `'\r'` as well); a final line ending is optional and yields no extra empty line.
pub open spec fn lines_of(s: Seq<char>) -> Seq<Seq<char>>
    decreases s.len(),
{
    if s.len() == 0 {
        Seq::empty()
    } else {
        let i = newline_index(s);
        if i >= s.len() {
            seq![s]
        } else {
            if 0 <= i {
                seq![line_body(s.take(i), true)] + lines_of(s.skip(i + 1))
            } else {
                Seq::empty()
            }
        }
    }
}

/// The end of the line that starts at `from` (the index of its `'\n'`, or the end of `v`).
pub fn line_end(v: &Vec<char>, from: usize) -> (r: usize)
    requires
        from <= v@.len(),
    ensures
        from <= r <= v@.len(),
        r - from == newline_index(v@.skip(from as int)),
{
    proof {
        lemma_newline_index(v@.skip(from as int));
    }
    let mut j = from;
    while j < v.len() && v[j] != '\n'
        invariant
            from <= j <= v@.len(),
            forall|k: int| from <= k < j ==> v@[k] != '\n',
        decreases v.len() - j,
    {
        j = j + 1;
    }
    proof {
        let s = v@.skip(from as int);
        let n = newline_index(s);
        if n < j - from {
            assert(s[n] == v@[from + n]);
        } else if n > j - from {
            assert(s[j - from] == v@[j as int]);
        }
    }
    j
}

/// The whitespace-separated tokens of `s`, as `str::split_whitespace` yields them.
pub open spec fn tokens_of(s: Seq<char>) -> Seq<Seq<char>>
    decreases s.len(),
{
    let t = trim_start(s);
    if t.len() == 0 {
        Seq::empty()
    } else {
        let k = ws_index(t);
        if 0 < k <= t.len() && t.len() <= s.len() {
            seq![t.take(k)] + tokens_of(t.skip(k))
        } else {
            Seq::empty()
        }
    }
}

/// The index of the first whitespace character of `s`, or `s.len()` when there is none.
pub open spec fn ws_index(s: Seq<char>) -> int
    decreases s.len(),
{
    if s.len() == 0 {
        0
    } else if is_ws(s[0]) {
        0
    } else {
        1 + ws_index(s.drop_first())
    }
}

pub proof fn lemma_ws_index(s: Seq<char>)
    ensures
        0 <= ws_index(s) <= s.len(),
        ws_index(s) < s.len() ==> is_ws(s[ws_index(s)]),
        forall|k: int| 0 <= k < ws_index(s) ==> !is_ws(s[k]),
    decreases s.len(),
{
    if s.len() > 0 && !is_ws(s[0]) {
        lemma_ws_index(s.drop_first());
        assert forall|k: int| 0 <= k < ws_index(s) implies !is_ws(s[k]) by {
            if k > 0 {
                assert(s[k] == s.drop_first()[k - 1]);
            }
        }
    }
}

/// Facts about `trim_start` as a suffix: its length, and that it starts with no whitespace.
pub proof fn lemma_trim_start_shape(s: Seq<char>)
    ensures
        trim_start(s).len() <= s.len(),
        trim_start(s) == s.skip(s.len() - trim_start(s).len()),
        trim_start(s).len() > 0 ==> !is_ws(trim_start(s)[0]),
{
    lemma_trim_start_suffix(s);
    lemma_trim_start_head(s);
}

proof fn lemma_trim_start_head(s: Seq<char>)
    ensures
        trim_start(s).len() > 0 ==> !is_ws(trim_start(s)[0]),
    decreases s.len(),
{
    if s.len() > 0 && is_ws(s[0]) {
        lemma_trim_start_head(s.drop_first());
    }
}

/// The end of the run of non-whitespace characters that starts at `from`.
pub fn skip_non_ws(v: &Vec<char>, from: usize, to: usize) -> (r: usize)
    requires
        from <= to <= v@.len(),
    ensures
        from <= r <= to,
        r - from == ws_index(v@.subrange(from as int, to as int)),
{
    proof {
        lemma_ws_index(v@.subrange(from as int, to as int));
    }
    let mut j = from;
    while j < to && !is_whitespace(v[j])
        invariant
            from <= j <= to <= v@.len(),
            forall|k: int| from <= k < j ==> !is_ws(v@[k]),
        decreases to - j,
    {
        j = j + 1;
    }
    proof {
        let s = v@.subrange(from as int, to as int);
        let n = ws_index(s);
        if n < j - from {
            assert(s[n] == v@[from + n]);
        } else if n > j - from {
            assert(s[j - from] == v@[j as int]);
        }
    }
    j
}

/// The value of a string of decimal digits.
pub open spec fn digits_value(s: Seq<char>) -> int
    decreases s.len(),
{
    if s.len() == 0 {
        0
    } else {
        digits_value(s.drop_last()) * 10 + (s.last() as u32 - '0' as u32)
    }
}

/// Whether every character of `s` is an ASCII digit.
pub open spec fn all_digits(s: Seq<char>) -> bool {
    forall|i: int| 0 <= i < s.len() ==> '0' <= #[trigger] s[i] && s[i] <= '9'
}

/// `u8::from_str`: an optional `'+'`, then one or more ASCII digits whose value fits a `u8`.
pub open spec fn parse_u8_spec(s: Seq<char>) -> Option<u8> {
    let d = if s.len() > 0 && s[0] == '+' {
        s.drop_first()
    } else {
        s
    };
    if d.len() > 0 && all_digits(d) && digits_value(d) <= 255 {
        Some(digits_value(d) as u8)
    } else {
        None
    }
}

/// Parse `v[from..to]` as `u8::from_str` does.
pub fn parse_u8(v: &Vec<char>, from: usize, to: usize) -> (r: Option<u8>)
    requires
        from <= to <= v@.len(),
    ensures
        r == parse_u8_spec(v@.subrange(from as int, to as int)),
{
    let ghost s = v@.subrange(from as int, to as int);
    let mut start = from;
    if from < to && v[from] == '+' {
        start = from + 1;
    }
    let ghost d = v@.subrange(start as int, to as int);
    assert(d == (if s.len() > 0 && s[0] == '+' { s.drop_first() } else { s }));
    if start == to {
        return None;
    }
    let mut acc: u32 = 0;
    let mut i = start;
    while i < to
        invariant
            from <= start <= i <= to <= v@.len(),
            d == v@.subrange(start as int, to as int),
            s == v@.subrange(from as int, to as int),
            d == (if s.len() > 0 && s[0] == '+' { s.drop_first() } else { s }),
            all_digits(v@.subrange(start as int, i as int)),
            digits_value(v@.subrange(start as int, i as int)) >= 0,
            acc as int == if digits_value(v@.subrange(start as int, i as int)) > 256 { 256 } else {
                digits_value(v@.subrange(start as int, i as int))
            },
        decreases to - i,
    {
        let c = v[i];
        let ghost p = v@.subrange(start as int, i as int);
        let ghost p2 = v@.subrange(start as int, i + 1);
        assert(p2.drop_last() =~= p);
        if !('0' <= c && c <= '9') {
            assert(!all_digits(d)) by {
                assert(d[i - start] == c);
            }
            return None;
        }
        assert(all_digits(p2)) by {
            assert forall|k: int| 0 <= k < p2.len() implies '0' <= #[trigger] p2[k] && p2[k] <= '9' by {
                if k < p.len() {
                    assert(p2[k] == p[k]);
                }
            }
        }
        let dig = (c as u32) - ('0' as u32);
        let next = acc * 10 + dig;
        acc = if next > 256 {
            256
        } else {
            next
        };
        i = i + 1;
    }
    assert(v@.subrange(start as int, to as int) =~= d);
    if acc <= 255 {
        Some(acc as u8)
    } else {
        None
    }
}

/// The `String` holding the characters `v[from..to]`.
pub fn string_of_range(v: &Vec<char>, from: usize, to: usize) -> (r: String)
    requires
        from <= to <= v@.len(),
    ensures
        r@ == v@.subrange(from as int, to as int),
{
    let mut part: Vec<char> = Vec::new();
    let mut i = from;
    while i < to
        invariant
            from <= i <= to <= v@.len(),
            part@ == v@.subrange(from as int, i as int),
        decreases to - i,
    {
        part.push(v[i]);
        assert(part@ =~= v@.subrange(from as int, i + 1));
        i = i + 1;
    }
    string_from_chars(part.as_slice())
}

/// The digit character for `d` in `0..10`.
pub open spec fn digit_char(d: nat) -> char {
    seq!['0', '1', '2', '3', '4', '5', '6', '7', '8', '9'][d as int]
}

/// `n` written in decimal, without leading zeros (`0` is one digit).
pub open spec fn decimal(n: nat) -> Seq<char>
    decreases n,
{
    if n < 10 {
        seq![digit_char(n)]
    } else {
        decimal(n / 10).push(digit_char(n % 10))
    }
}

fn digit(d: u64) -> (c: char)
    requires
        d < 10,
    ensures
        c == digit_char(d as nat),
{
    match d {
        0 => '0',
        1 => '1',
        2 => '2',
        3 => '3',
        4 => '4',
        5 => '5',
        6 => '6',
        7 => '7',
        8 => '8',
        _ => '9',
    }
}

/// Append the decimal digits of `n`.
pub(crate) fn push_decimal(out: &mut Vec<char>, n: u64)
    ensures
        final(out)@ == old(out)@ + decimal(n as nat),
    decreases n,
{
    if n >= 10 {
        push_decimal(out, n / 10);
    }
    out.push(digit(n % 10));
    proof {
        if n >= 10 {
            assert(decimal(n as nat) == decimal((n / 10) as nat).push(digit_char((n % 10) as nat)));
        }
    }
}

/// Append the characters of `s`.
pub(crate) fn push_str(out: &mut Vec<char>, s: &str)
    ensures
        final(out)@ == old(out)@ + s@,
{
    let cs = chars_of(s);
    let ghost start = out@;
    let mut i: usize = 0;
    while i < cs.len()
        invariant
            cs@ == s@,
            0 <= i <= cs@.len(),
            out@ == start + cs@.take(i as int),
        decreases cs.len() - i,
    {
        out.push(cs[i]);
        proof {
            assert(cs@.take(i as int + 1) =~= cs@.take(i as int).push(cs@[i as int]));
        }
        i = i + 1;
    }
    proof {
        assert(cs@.take(cs@.len() as int) =~= cs@);
    }
}

/// Append `n` copies of `c`.
pub(crate) fn push_repeat(out: &mut Vec<char>, c: char, n: usize)
    ensures
        final(out)@ == old(out)@ + Seq::new(n as nat, |_i: int| c),
{
    let ghost start = out@;
    let mut i: usize = 0;
    while i < n
        invariant
            0 <= i <= n,
            out@ == start + Seq::new(i as nat, |_i: int| c),
        decreases n - i,
    {
        out.push(c);
        i = i + 1;
        assert(out@ =~= start + Seq::new(i as nat, |_i: int| c));
    }
}

} // verus!
