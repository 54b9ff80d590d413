//! Verified string utilities shared by the parsers, the router and the
//! response serializer: character-level equality, case-insensitive ASCII
//! comparison, splitting, trimming and decimal conversion.

use vstd::prelude::*;

verus! {

/// Whether `c` is an ASCII upper-case letter.
pub open spec fn is_ascii_upper(c: char) -> bool {
    'A' <= c && c <= 'Z'
}

/// Two characters are equal up to ASCII case.
pub open spec fn char_eq_ci(a: char, b: char) -> bool {
    ||| a == b
    ||| (is_ascii_upper(a) && a as u32 + 32 == b as u32)
    ||| (is_ascii_upper(b) && b as u32 + 32 == a as u32)
}

/// Two character sequences are equal up to ASCII case.
pub open spec fn seq_eq_ci(a: Seq<char>, b: Seq<char>) -> bool {
    a.len() == b.len() && forall|i: int| 0 <= i < a.len() ==> char_eq_ci(a[i], b[i])
}

/// Compares two characters up to ASCII case.
pub fn ci_char_eq(a: char, b: char) -> (r: bool)
    ensures
        r == char_eq_ci(a, b),
{
    if a == b {
        true
    } else if 'A' <= a && a <= 'Z' && (a as u32) + 32 == (b as u32) {
        true
    } else if 'A' <= b && b <= 'Z' && (b as u32) + 32 == (a as u32) {
        true
    } else {
        false
    }
}

/// Character-by-character string equality.
pub fn str_eq(a: &str, b: &str) -> (r: bool)
    ensures
        r == (a@ == b@),
{
    let alen = a.unicode_len();
    let blen = b.unicode_len();
    if alen != blen {
        assert(a@ != b@);
        return false;
    }
    let mut i: usize = 0;
    while i < alen
        invariant
            alen == a@.len(),
            alen == b@.len(),
            0 <= i <= alen,
            forall|j: int| 0 <= j < i ==> a@[j] == b@[j],
        decreases alen - i,
    {
        if a.get_char(i) != b.get_char(i) {
            assert(a@ != b@);
            return false;
        }
        i = i + 1;
    }
    assert(a@ =~= b@);
    true
}

/// String equality up to ASCII case.
pub fn str_eq_ci(a: &str, b: &str) -> (r: bool)
    ensures
        r == seq_eq_ci(a@, b@),
{
    let alen = a.unicode_len();
    let blen = b.unicode_len();
    if alen != blen {
        return false;
    }
    let mut i: usize = 0;
    while i < alen
        invariant
            alen == a@.len(),
            alen == b@.len(),
            0 <= i <= alen,
            forall|j: int| 0 <= j < i ==> char_eq_ci(a@[j], b@[j]),
        decreases alen - i,
    {
        if !ci_char_eq(a.get_char(i), b.get_char(i)) {
            return false;
        }
        i = i + 1;
    }
    true
}

/// Whether `s` begins with `prefix`.
pub open spec fn spec_starts_with(s: Seq<char>, prefix: Seq<char>) -> bool {
    prefix.len() <= s.len() && s.subrange(0, prefix.len() as int) == prefix
}

/// Tests whether `s` begins with `prefix`, character by character.
pub fn str_starts_with(s: &str, prefix: &str) -> (r: bool)
    ensures
        r == spec_starts_with(s@, prefix@),
{
    let slen = s.unicode_len();
    let plen = prefix.unicode_len();
    if plen > slen {
        return false;
    }
    let mut i: usize = 0;
    while i < plen
        invariant
            slen == s@.len(),
            plen == prefix@.len(),
            plen <= slen,
            0 <= i <= plen,
            forall|j: int| 0 <= j < i ==> s@[j] == prefix@[j],
        decreases plen - i,
    {
        if s.get_char(i) != prefix.get_char(i) {
            assert(s@.subrange(0, plen as int)[i as int] != prefix@[i as int]);
            return false;
        }
        i = i + 1;
    }
    assert(s@.subrange(0, plen as int) =~= prefix@);
    true
}

/// Prepends `p` to the first piece of a non-empty sequence of pieces.
pub open spec fn prepend_first(p: Seq<char>, pieces: Seq<Seq<char>>) -> Seq<Seq<char>>
    recommends
        pieces.len() > 0,
{
    pieces.update(0, p + pieces[0])
}

/// The pieces of `s` between occurrences of `sep`, with empty pieces kept,
/// as `str::split` produces them: an empty string yields one empty piece.
pub open spec fn spec_split(s: Seq<char>, sep: char) -> Seq<Seq<char>>
    decreases s.len(),
{
    if s.len() == 0 {
        seq![Seq::<char>::empty()]
    } else if s[0] == sep {
        seq![Seq::<char>::empty()] + spec_split(s.drop_first(), sep)
    } else {
        prepend_first(seq![s[0]], spec_split(s.drop_first(), sep))
    }
}

pub proof fn lemma_split_nonempty(s: Seq<char>, sep: char)
    ensures
        spec_split(s, sep).len() >= 1,
    decreases s.len(),
{
    if s.len() != 0 && s[0] != sep {
        lemma_split_nonempty(s.drop_first(), sep);
    }
}

/// Splits `s` at every occurrence of `sep`, keeping empty pieces.
pub fn split_str(s: &str, sep: char) -> (r: Vec<String>)
    ensures
        r.deep_view() == spec_split(s@, sep),
{
    let len = s.unicode_len();
    let mut parts: Vec<String> = Vec::new();
    let mut start: usize = 0;
    let mut i: usize = 0;
    proof {
        assert(s@.skip(0) =~= s@);
        lemma_split_nonempty(s@, sep);
        assert(prepend_first(s@.subrange(0, 0), spec_split(s@, sep)) =~~= spec_split(s@, sep));
    }
    while i < len
        invariant
            len == s@.len(),
            0 <= start <= i <= len,
            spec_split(s@, sep) =~~= parts.deep_view() + prepend_first(
                s@.subrange(start as int, i as int),
                spec_split(s@.skip(i as int), sep),
            ),
        decreases len - i,
    {
        proof {
            lemma_split_nonempty(s@.skip(i as int), sep);
            lemma_split_nonempty(s@.skip(i + 1), sep);
            assert(s@.skip(i as int).drop_first() =~~= s@.skip(i + 1));
        }
        let c = s.get_char(i);
        if c == sep {
            let piece = s.substring_char(start, i).to_owned();
            proof {
                let cur = s@.subrange(start as int, i as int);
                let rest = spec_split(s@.skip(i + 1), sep);
                assert(spec_split(s@.skip(i as int), sep) =~~= seq![Seq::<char>::empty()] + rest);
                assert(prepend_first(cur, seq![Seq::<char>::empty()] + rest) =~~= seq![cur] + rest);
                assert((parts.deep_view() + seq![cur]) + prepend_first(
                    s@.subrange(i + 1, i + 1),
                    rest,
                ) =~~= parts.deep_view() + (seq![cur] + rest));
                assert((parts.deep_view().push(piece@)) =~~= parts.deep_view() + seq![cur]);
            }
            parts.push(piece);
            proof {
                assert(parts.deep_view() =~~= parts@.drop_last().map_values(
                    |x: String| x@,
                ).push(parts@.last()@));
            }
            start = i + 1;
        } else {
            proof {
                let cur = s@.subrange(start as int, i as int);
                let rest = spec_split(s@.skip(i + 1), sep);
                assert(spec_split(s@.skip(i as int), sep) =~~= prepend_first(
                    seq![s@[i as int]],
                    rest,
                ));
                assert(cur + (seq![s@[i as int]] + rest[0]) =~~= s@.subrange(start as int, i + 1)
                    + rest[0]);
                assert(prepend_first(cur, prepend_first(seq![s@[i as int]], rest)) =~~=
                    prepend_first(s@.subrange(start as int, i + 1), rest));
            }
        }
        i = i + 1;
    }
    let piece = s.substring_char(start, len).to_owned();
    proof {
        assert(s@.skip(len as int) =~~= Seq::<char>::empty());
        let cur = s@.subrange(start as int, len as int);
        assert(spec_split(s@.skip(len as int), sep) =~~= seq![Seq::<char>::empty()]);
        assert(prepend_first(cur, seq![Seq::<char>::empty()]) =~~= seq![cur]);
    }
    parts.push(piece);
    proof {
        assert(parts.deep_view() =~~= parts@.drop_last().map_values(|x: String| x@).push(
            parts@.last()@,
        ));
        assert(parts.deep_view() =~~= spec_split(s@, sep));
    }
    parts
}

/// The characters `String::from_utf8_lossy` yields for a byte sequence; it
/// depends on the bytes alone.
pub uninterp spec fn utf8_lossy_of(b: Seq<u8>) -> Seq<char>;

/// Relies on String::from_utf8_lossy: the decoding depends on the bytes
/// alone.
#[verifier::external_body]
pub fn from_utf8_lossy_string(b: &[u8]) -> (r: String)
    ensures
        r@ == utf8_lossy_of(b@),
{
    String::from_utf8_lossy(b).into_owned()
}

/// Relies on String::push: appends exactly the one character.
#[verifier::external_body]
pub fn string_push(s: &mut String, c: char)
    ensures
        final(s)@ == old(s)@.push(c),
{
    s.push(c);
}

/// Whether `c` is ASCII whitespace.
pub open spec fn is_space(c: char) -> bool {
    c == ' ' || c == '\t' || c == '\r' || c == '\n'
}

/// `s` without its leading ASCII whitespace.
pub open spec fn spec_trim_start(s: Seq<char>) -> Seq<char>
    decreases s.len(),
{
    if s.len() > 0 && is_space(s[0]) {
        spec_trim_start(s.drop_first())
    } else {
        s
    }
}

/// `s` without its trailing ASCII whitespace.
pub open spec fn spec_trim_end(s: Seq<char>) -> Seq<char>
    decreases s.len(),
{
    if s.len() > 0 && is_space(s.last()) {
        spec_trim_end(s.drop_last())
    } else {
        s
    }
}

/// `s` without leading and trailing ASCII whitespace.
pub open spec fn spec_trim(s: Seq<char>) -> Seq<char> {
    spec_trim_end(spec_trim_start(s))
}

proof fn lemma_trim_start_skip(s: Seq<char>, lo: int)
    requires
        0 <= lo <= s.len(),
        forall|j: int| 0 <= j < lo ==> is_space(s[j]),
        lo == s.len() || !is_space(s[lo]),
    ensures
        spec_trim_start(s) =~= s.skip(lo),
    decreases lo,
{
    if lo == 0 {
        assert(s.skip(0) =~= s);
    } else {
        assert(is_space(s[0]));
        lemma_trim_start_skip(s.drop_first(), lo - 1);
        assert(s.drop_first().skip(lo - 1) =~= s.skip(lo));
    }
}

proof fn lemma_trim_end_take(s: Seq<char>, hi: int)
    requires
        0 <= hi <= s.len(),
        forall|j: int| hi <= j < s.len() ==> is_space(s[j]),
        hi == 0 || !is_space(s[hi - 1]),
    ensures
        spec_trim_end(s) =~= s.take(hi),
    decreases s.len(),
{
    if hi == s.len() {
        if s.len() > 0 {
            assert(!is_space(s.last()));
        }
        assert(s.take(hi) =~= s);
    } else {
        assert(is_space(s.last()));
        lemma_trim_end_take(s.drop_last(), hi);
        assert(s.drop_last().take(hi) =~= s.take(hi));
    }
}

/// Removes leading and trailing ASCII whitespace.
pub fn trim_str(s: &str) -> (r: String)
    ensures
        r@ == spec_trim(s@),
{
    let len = s.unicode_len();
    let mut lo: usize = 0;
    while lo < len
        invariant
            len == s@.len(),
            0 <= lo <= len,
            forall|j: int| 0 <= j < lo ==> is_space(s@[j]),
        ensures
            0 <= lo <= len,
            forall|j: int| 0 <= j < lo ==> is_space(s@[j]),
            lo == len || !is_space(s@[lo as int]),
        decreases len - lo,
    {
        let c = s.get_char(lo);
        if !(c == ' ' || c == '\t' || c == '\r' || c == '\n') {
            break ;
        }
        lo = lo + 1;
    }
    if lo == len {
        proof {
            lemma_trim_start_skip(s@, lo as int);
            assert(s@.skip(lo as int) =~= Seq::<char>::empty());
        }
        return String::new();
    }
    proof {
        lemma_trim_start_skip(s@, lo as int);
    }
    let mut hi: usize = len;
    while hi > lo + 1
        invariant
            len == s@.len(),
            0 <= lo < hi <= len,
            !is_space(s@[lo as int]),
            forall|j: int| hi <= j < len ==> is_space(s@[j]),
        ensures
            lo < hi <= len,
            forall|j: int| hi <= j < len ==> is_space(s@[j]),
            hi == lo + 1 || !is_space(s@[hi - 1]),
        decreases hi,
    {
        let c = s.get_char(hi - 1);
        if !(c == ' ' || c == '\t' || c == '\r' || c == '\n') {
            break ;
        }
        hi = hi - 1;
    }
    let r = s.substring_char(lo, hi).to_owned();
    proof {
        let tail = s@.skip(lo as int);
        assert(tail[0] == s@[lo as int]);
        if hi == lo + 1 {
            assert(!is_space(tail[(hi - lo - 1) as int]));
        } else {
            assert(tail[(hi - lo - 1) as int] == s@[hi - 1]);
        }
        lemma_trim_end_take(tail, hi - lo);
        assert(tail.take(hi - lo) =~= s@.subrange(lo as int, hi as int));
    }
    r
}

/// The character for a single decimal digit.
pub open spec fn digit_char(d: int) -> char
    recommends
        0 <= d < 10,
{
    if d == 0 {
        '0'
    } else if d == 1 {
        '1'
    } else if d == 2 {
        '2'
    } else if d == 3 {
        '3'
    } else if d == 4 {
        '4'
    } else if d == 5 {
        '5'
    } else if d == 6 {
        '6'
    } else if d == 7 {
        '7'
    } else if d == 8 {
        '8'
    } else {
        '9'
    }
}

/// The decimal representation of `n`, without leading zeros (except for 0
/// itself).
pub open spec fn spec_dec(n: nat) -> Seq<char>
    decreases n,
{
    if n < 10 {
        seq![digit_char(n as int)]
    } else {
        spec_dec(n / 10) + seq![digit_char((n % 10) as int)]
    }
}

/// A one-character string for the decimal digit `d`.
fn digit_str(d: usize) -> (r: &'static str)
    requires
        d < 10,
    ensures
        r@ == seq![digit_char(d as int)],
{
    proof {
        reveal_strlit("0");
        reveal_strlit("1");
        reveal_strlit("2");
        reveal_strlit("3");
        reveal_strlit("4");
        reveal_strlit("5");
        reveal_strlit("6");
        reveal_strlit("7");
        reveal_strlit("8");
        reveal_strlit("9");
    }
    let r = if d == 0 {
        "0"
    } else if d == 1 {
        "1"
    } else if d == 2 {
        "2"
    } else if d == 3 {
        "3"
    } else if d == 4 {
        "4"
    } else if d == 5 {
        "5"
    } else if d == 6 {
        "6"
    } else if d == 7 {
        "7"
    } else if d == 8 {
        "8"
    } else {
        "9"
    };
    proof {
        assert(r@ =~= seq![digit_char(d as int)]);
    }
    r
}

/// Renders `n` in decimal.
pub fn usize_to_string(n: usize) -> (r: String)
    ensures
        r@ == spec_dec(n as nat),
    decreases n,
{
    if n < 10 {
        String::from_str(digit_str(n))
    } else {
        let mut r = usize_to_string(n / 10);
        r.append(digit_str(n % 10));
        proof {
            assert(r@ =~= spec_dec(n as nat));
        }
        r
    }
}

/// Whether `c` is a decimal digit.
pub open spec fn is_digit(c: char) -> bool {
    '0' <= c && c <= '9'
}

/// Whether every character of `s` is a decimal digit.
pub open spec fn all_digits(s: Seq<char>) -> bool {
    forall|i: int| 0 <= i < s.len() ==> is_digit(s[i])
}

/// The numeric value of a sequence of decimal digits.
pub open spec fn digits_val(s: Seq<char>) -> nat
    recommends
        all_digits(s),
    decreases s.len(),
{
    if s.len() == 0 {
        0
    } else {
        (digits_val(s.drop_last()) * 10 + (s.last() as u32 - 48)) as nat
    }
}

/// What `str::parse::<usize>` followed by `unwrap_or(0)` yields: the value of
/// the digits if `s` is a non-empty all-digit string whose value fits in
/// `usize`, and 0 otherwise.
pub open spec fn spec_parse_usize_or_zero(s: Seq<char>) -> nat {
    if s.len() > 0 && all_digits(s) && digits_val(s) <= usize::MAX {
        digits_val(s)
    } else {
        0
    }
}

proof fn lemma_digits_val_prefix_grows(s: Seq<char>, i: int)
    requires
        0 <= i <= s.len(),
        all_digits(s),
    ensures
        digits_val(s.take(i)) <= digits_val(s),
    decreases s.len() - i,
{
    if i < s.len() {
        lemma_digits_val_prefix_grows(s, i + 1);
        assert(s.take(i + 1).drop_last() =~= s.take(i));
        assert(is_digit(s[i]));
        assert(s.take(i + 1).last() as u32 >= 48);
        assert(digits_val(s.take(i)) <= digits_val(s.take(i + 1)));
    } else {
        assert(s.take(i) =~= s);
    }
}

/// Parses `s` as a decimal `usize`, yielding 0 when `s` is empty, holds a
/// non-digit, or overflows.
pub fn parse_usize_or_zero(s: &str) -> (r: usize)
    ensures
        r as nat == spec_parse_usize_or_zero(s@),
{
    let len = s.unicode_len();
    if len == 0 {
        return 0;
    }
    let mut acc: usize = 0;
    let mut i: usize = 0;
    while i < len
        invariant
            len == s@.len(),
            0 <= i <= len,
            forall|j: int| 0 <= j < i ==> is_digit(s@[j]),
            acc as nat == digits_val(s@.take(i as int)),
        decreases len - i,
    {
        let c = s.get_char(i);
        if !('0' <= c && c <= '9') {
            return 0;
        }
        let d: usize = (c as u32 as usize) - 48;
        if acc > (usize::MAX - d) / 10 {
            proof {
                if all_digits(s@) {
                    assert(s@.take(i + 1).drop_last() =~= s@.take(i as int));
                    assert(digits_val(s@.take(i + 1)) > usize::MAX);
                    lemma_digits_val_prefix_grows(s@, i + 1);
                }
            }
            return 0;
        }
        acc = acc * 10 + d;
        proof {
            assert(s@.take(i + 1).drop_last() =~= s@.take(i as int));
        }
        i = i + 1;
    }
    proof {
        assert(s@.take(len as int) =~= s@);
    }
    acc
}

/// Strict lexicographic order on character sequences, by Unicode scalar
/// value.
pub open spec fn lex_lt(a: Seq<char>, b: Seq<char>) -> bool
    decreases a.len(),
{
    &&& b.len() > 0
    &&& {
        ||| a.len() == 0
        ||| (a[0] as int) < (b[0] as int)
        ||| (a[0] == b[0] && lex_lt(a.drop_first(), b.drop_first()))
    }
}

/// Lexicographic order is total: two sequences are ordered one way or the
/// other, or equal.
pub proof fn lemma_lex_total(a: Seq<char>, b: Seq<char>)
    ensures
        lex_lt(a, b) || lex_lt(b, a) || a == b,
    decreases a.len(),
{
    if a.len() == 0 {
        if b.len() == 0 {
            assert(a =~= b);
        }
    } else if b.len() > 0 {
        if a[0] == b[0] {
            lemma_lex_total(a.drop_first(), b.drop_first());
            if a.drop_first() == b.drop_first() {
                assert(a.drop_first().len() == a.len() - 1);
                assert(b.drop_first().len() == b.len() - 1);
                assert forall|i: int| 0 <= i < a.len() implies a[i] == b[i] by {
                    if i > 0 {
                        assert(a[i] == a.drop_first()[i - 1]);
                        assert(b[i] == b.drop_first()[i - 1]);
                    }
                }
                assert(a =~= b);
            }
        }
    }
}

/// Compares two strings in lexicographic order of their characters.
pub fn str_lex_lt(a: &str, b: &str) -> (r: bool)
    ensures
        r == lex_lt(a@, b@),
{
    let alen = a.unicode_len();
    let blen = b.unicode_len();
    let mut i: usize = 0;
    proof {
        assert(a@.skip(0) =~= a@);
        assert(b@.skip(0) =~= b@);
    }
    loop
        invariant
            alen == a@.len(),
            blen == b@.len(),
            0 <= i <= alen,
            i <= blen,
            forall|j: int| 0 <= j < i ==> a@[j] == b@[j],
            lex_lt(a@, b@) == lex_lt(a@.skip(i as int), b@.skip(i as int)),
        decreases alen - i,
    {
        if i == alen || i == blen {
            return i == alen && i < blen;
        }
        let ca = a.get_char(i);
        let cb = b.get_char(i);
        if ca != cb {
            return (ca as u32) < (cb as u32);
        }
        assert(a@.skip(i as int)[0] == b@.skip(i as int)[0]);
        proof {
            assert(a@.skip(i as int).drop_first() =~= a@.skip(i + 1));
            assert(b@.skip(i as int).drop_first() =~= b@.skip(i + 1));
        }
        i = i + 1;
    }
}

} // verus!


verus! {

/// The index of the first occurrence of `c` in `s`, if any.
pub open spec fn spec_find(s: Seq<char>, c: char) -> Option<int>
    decreases s.len(),
{
    if s.len() == 0 {
        None
    } else if s[0] == c {
        Some(0)
    } else {
        match spec_find(s.drop_first(), c) {
            Some(i) => Some(i + 1),
            None => None,
        }
    }
}

proof fn lemma_spec_find_skip(s: Seq<char>, c: char, i: int)
    requires
        0 <= i <= s.len(),
        forall|j: int| 0 <= j < i ==> s[j] != c,
    ensures
        spec_find(s, c) == match spec_find(s.skip(i), c) {
            Some(k) => Some(i + k),
            None => None::<int>,
        },
    decreases i,
{
    if i == 0 {
        assert(s.skip(0) =~= s);
    } else {
        assert(s[0] != c);
        assert(s.drop_first().skip(i - 1) =~= s.skip(i));
        lemma_spec_find_skip(s.drop_first(), c, i - 1);
    }
}

/// Finds the first occurrence of `c` in `s`.
pub fn find_char(s: &str, c: char) -> (r: Option<usize>)
    ensures
        match r {
            Some(i) => spec_find(s@, c) == Some(i as int) && i < s@.len() && s@[i as int] == c,
            None => spec_find(s@, c) is None,
        },
{
    let len = s.unicode_len();
    let mut i: usize = 0;
    while i < len
        invariant
            len == s@.len(),
            0 <= i <= len,
            forall|j: int| 0 <= j < i ==> s@[j] != c,
        decreases len - i,
    {
        if s.get_char(i) == c {
            proof {
                lemma_spec_find_skip(s@, c, i as int);
                assert(s@.skip(i as int)[0] == c);
            }
            return Some(i);
        }
        i = i + 1;
    }
    proof {
        lemma_spec_find_skip(s@, c, len as int);
        assert(s@.skip(len as int) =~= Seq::<char>::empty());
    }
    None
}

/// `c` with an ASCII upper-case letter folded to lower case.
pub open spec fn spec_lower_char(c: char) -> char {
    if is_ascii_upper(c) {
        ((c as u32) + 32) as char
    } else {
        c
    }
}

/// `s` with ASCII upper-case letters folded to lower case.
pub open spec fn spec_lower(s: Seq<char>) -> Seq<char> {
    s.map_values(|c: char| spec_lower_char(c))
}

/// Folds one ASCII upper-case letter to lower case.
pub fn lower_char(c: char) -> (r: char)
    ensures
        r == spec_lower_char(c),
{
    if 'A' <= c && c <= 'Z' {
        let b: u8 = c as u8;
        let lowered: u8 = b | 0x20;
        proof {
            assert(c as int == c as u8 as int) by {
                assert(65 <= c as int <= 90);
            }
            assert(65 <= b <= 90 ==> (b | 0x20) == b + 32) by (bit_vector);
            assert(lowered as int == c as int + 32);
            assert((lowered as char) as int == lowered as int);
            assert(spec_lower_char(c) as int == c as int + 32) by {
                assert(((c as u32) + 32) < 0xD800);
            }
        }
        lowered as char
    } else {
        c
    }
}

/// Folds a string's ASCII upper-case letters to lower case.
pub fn lower_str(s: &str) -> (r: String)
    ensures
        r@ == spec_lower(s@),
{
    let len = s.unicode_len();
    let mut out = String::new();
    let mut i: usize = 0;
    while i < len
        invariant
            len == s@.len(),
            0 <= i <= len,
            out@ =~= spec_lower(s@).take(i as int),
        decreases len - i,
    {
        string_push(&mut out, lower_char(s.get_char(i)));
        proof {
            assert(spec_lower(s@).take(i + 1) =~= spec_lower(s@).take(i as int).push(
                spec_lower_char(s@[i as int]),
            ));
        }
        i = i + 1;
    }
    proof {
        assert(spec_lower(s@).take(len as int) =~= spec_lower(s@));
    }
    out
}

/// The substring of `s` from `from` (inclusive) to `to` (exclusive), as an
/// owned string.
pub fn substring(s: &str, from: usize, to: usize) -> (r: String)
    requires
        from <= to <= s@.len(),
    ensures
        r@ == s@.subrange(from as int, to as int),
{
    s.substring_char(from, to).to_owned()
}

} // verus!
verus! {

/// Clones a byte vector element by element.
pub fn clone_vec_u8(v: &Vec<u8>) -> (r: Vec<u8>)
    ensures
        r@ == v@,
{
    let n = v.len();
    let mut out: Vec<u8> = Vec::new();
    let mut i: usize = 0;
    while i < n
        invariant
            n == v@.len(),
            0 <= i <= n,
            out@ =~= v@.take(i as int),
        decreases n - i,
    {
        out.push(v[i]);
        proof {
            assert(v@.take(i + 1) =~= v@.take(i as int).push(v@[i as int]));
        }
        i = i + 1;
    }
    proof {
        assert(v@.take(n as int) =~= v@);
    }
    out
}

/// Clones a vector of strings element by element.
pub fn clone_string_vec(v: &Vec<String>) -> (r: Vec<String>)
    ensures
        r@ == v@,
{
    let n = v.len();
    let mut out: Vec<String> = Vec::new();
    let mut i: usize = 0;
    while i < n
        invariant
            n == v@.len(),
            0 <= i <= n,
            out@.len() == i,
            forall|j: int| 0 <= j < i ==> out@[j] == v@[j],
        decreases n - i,
    {
        out.push(v[i].clone());
        i = i + 1;
    }
    proof {
        assert(out@ =~= v@);
    }
    out
}

} // verus!
verus! {

/// Renders `n` in decimal.
pub fn u128_to_string(n: u128) -> (r: String)
    ensures
        r@ == spec_dec(n as nat),
    decreases n,
{
    if n < 10 {
        String::from_str(digit_str((n % 10) as usize))
    } else {
        let mut r = u128_to_string(n / 10);
        r.append(digit_str((n % 10) as usize));
        proof {
            assert(r@ =~= spec_dec(n as nat));
        }
        r
    }
}

} // verus!
verus! {

/// The index of the last occurrence of `c` in `s`, if any.
pub open spec fn spec_rfind(s: Seq<char>, c: char) -> Option<int>
    decreases s.len(),
{
    if s.len() == 0 {
        None
    } else if s.last() == c {
        Some(s.len() - 1)
    } else {
        spec_rfind(s.drop_last(), c)
    }
}

proof fn lemma_spec_rfind_take(s: Seq<char>, c: char, i: int)
    requires
        0 <= i <= s.len(),
        forall|j: int| i <= j < s.len() ==> s[j] != c,
    ensures
        spec_rfind(s, c) == spec_rfind(s.take(i), c),
    decreases s.len() - i,
{
    if i < s.len() {
        assert(s.last() != c);
        assert(s.drop_last() =~= s.take(s.len() - 1));
        lemma_spec_rfind_take(s.take(s.len() - 1), c, i);
        assert(s.take(s.len() - 1).take(i) =~= s.take(i));
    } else {
        assert(s.take(i) =~= s);
    }
}

/// Finds the last occurrence of `c` in `s`.
pub fn rfind_char(s: &str, c: char) -> (r: Option<usize>)
    ensures
        match r {
            Some(i) => spec_rfind(s@, c) == Some(i as int) && i < s@.len() && s@[i as int] == c,
            None => spec_rfind(s@, c) is None,
        },
{
    let len = s.unicode_len();
    let mut k: usize = len;
    while k > 0
        invariant
            len == s@.len(),
            0 <= k <= len,
            forall|j: int| k <= j < len ==> s@[j] != c,
        decreases k,
    {
        if s.get_char(k - 1) == c {
            proof {
                lemma_spec_rfind_take(s@, c, k as int);
                assert(s@.take(k as int).last() == s@[k - 1]);
            }
            return Some(k - 1);
        }
        k = k - 1;
    }
    proof {
        lemma_spec_rfind_take(s@, c, 0);
        assert(s@.take(0) =~= Seq::<char>::empty());
    }
    None
}

} // verus!
