//! Character-level text utilities: number formatting and parsing, and the
//! substring, prefix, trimming and splitting operations that the tools use
//! on their arguments and on debugger output.

use vstd::prelude::*;

verus! {

broadcast use vstd::string::group_string_axioms;

// ---------------------------------------------------------------------------
// Number formatting
// ---------------------------------------------------------------------------

/// The lowercase hexadecimal digit for `d` (expected to be below 16).
pub open spec fn hex_char(d: nat) -> char {
    if d == 0 { '0' } else if d == 1 { '1' } else if d == 2 { '2' } else if d == 3 { '3' }
    else if d == 4 { '4' } else if d == 5 { '5' } else if d == 6 { '6' } else if d == 7 { '7' }
    else if d == 8 { '8' } else if d == 9 { '9' } else if d == 10 { 'a' } else if d == 11 { 'b' }
    else if d == 12 { 'c' } else if d == 13 { 'd' } else if d == 14 { 'e' } else { 'f' }
}

/// The decimal digit for `d` (expected to be below 10).
pub open spec fn dec_char(d: nat) -> char {
    hex_char(d)
}

/// `n` written in lowercase hexadecimal without leading zeros, as `{:x}` does.
pub open spec fn hex_str(n: nat) -> Seq<char>
    decreases n,
{
    if n < 16 {
        seq![hex_char(n)]
    } else {
        hex_str(n / 16).push(hex_char(n % 16))
    }
}

/// `n` written in decimal without leading zeros, as `{}` does.
pub open spec fn dec_str(n: nat) -> Seq<char>
    decreases n,
{
    if n < 10 {
        seq![dec_char(n)]
    } else {
        dec_str(n / 10).push(dec_char(n % 10))
    }
}

/// `k` copies of the character `c`.
pub open spec fn repeat_char(c: char, k: nat) -> Seq<char> {
    Seq::new(k, |i: int| c)
}

/// `n` in lowercase hexadecimal, left-padded with zeros to at least `w`
/// characters, as `{:0w$x}` does.
pub open spec fn hex_pad(n: nat, w: nat) -> Seq<char> {
    let h = hex_str(n);
    if h.len() >= w { h } else { repeat_char('0', (w - h.len()) as nat) + h }
}

/// `s` left-justified in a field of `w` characters, as `{:<w$}` does.
pub open spec fn pad_right(s: Seq<char>, w: nat) -> Seq<char> {
    if s.len() >= w { s } else { s + repeat_char(' ', (w - s.len()) as nat) }
}

/// `0x` followed by the hexadecimal form of `n`, as `0x{:x}` does.
pub open spec fn hex_addr(n: nat) -> Seq<char> {
    seq!['0', 'x'] + hex_str(n)
}

/// A signed integer in decimal, as `{}` does.
pub open spec fn int_str(n: int) -> Seq<char> {
    if n < 0 { seq!['-'] + dec_str((-n) as nat) } else { dec_str(n as nat) }
}

/// Sixteen to the power `k`.
pub open spec fn pow16(k: nat) -> nat
    decreases k,
{
    if k == 0 { 1 } else { 16 * pow16((k - 1) as nat) }
}

proof fn lemma_hex_str_len_bound(n: nat, k: nat)
    requires
        k >= 1,
        n < pow16(k),
    ensures
        1 <= hex_str(n).len() <= k,
    decreases n,
{
    if n >= 16 {
        assert(k >= 2) by {
            if k == 1 {
                assert(pow16(1) == 16 * pow16(0));
            }
        }
        assert(pow16(k) == 16 * pow16((k - 1) as nat));
        lemma_hex_str_len_bound(n / 16, (k - 1) as nat);
    }
}

proof fn lemma_hex_str_len(n: nat)
    ensures
        1 <= hex_str(n).len(),
        n < 0x1_0000_0000_0000_0000 ==> hex_str(n).len() <= 16,
{
    reveal_with_fuel(pow16, 17);
    assert(pow16(16) == 0x1_0000_0000_0000_0000);
    if n < 0x1_0000_0000_0000_0000 {
        lemma_hex_str_len_bound(n, 16);
    }
}

/// Appends one character to a string (`String::push`).
#[verifier::external_body]
pub(crate) fn push_char(s: &mut String, c: char)
    ensures
        final(s)@ == old(s)@.push(c),
{
    s.push(c);
}

/// Appends a string slice to a string.
pub fn push_str(s: &mut String, t: &str)
    ensures
        final(s)@ == old(s)@ + t@,
{
    s.append(t);
}

/// The hexadecimal digit character of `d`.
pub fn hex_digit(d: u64) -> (c: char)
    requires
        d < 16,
    ensures
        c == hex_char(d as nat),
{
    if d == 0 { '0' } else if d == 1 { '1' } else if d == 2 { '2' } else if d == 3 { '3' }
    else if d == 4 { '4' } else if d == 5 { '5' } else if d == 6 { '6' } else if d == 7 { '7' }
    else if d == 8 { '8' } else if d == 9 { '9' } else if d == 10 { 'a' } else if d == 11 { 'b' }
    else if d == 12 { 'c' } else if d == 13 { 'd' } else if d == 14 { 'e' } else { 'f' }
}

/// Appends `n` in lowercase hexadecimal.
pub fn push_hex(s: &mut String, n: u64)
    ensures
        final(s)@ == old(s)@ + hex_str(n as nat),
    decreases n,
{
    if n >= 16 {
        push_hex(s, n / 16);
    }
    push_char(s, hex_digit(n % 16));
    proof {
        assert(final(s)@ =~= old(s)@ + hex_str(n as nat)) by {
            if n >= 16 {
                assert(hex_str(n as nat) == hex_str((n / 16) as nat).push(hex_char((n % 16) as nat)));
            }
        }
    }
}

/// Appends `n` in decimal.
pub fn push_dec(s: &mut String, n: u64)
    ensures
        final(s)@ == old(s)@ + dec_str(n as nat),
    decreases n,
{
    if n >= 10 {
        push_dec(s, n / 10);
    }
    push_char(s, hex_digit(n % 10));
    proof {
        assert(final(s)@ =~= old(s)@ + dec_str(n as nat)) by {
            if n >= 10 {
                assert(dec_str(n as nat) == dec_str((n / 10) as nat).push(dec_char((n % 10) as nat)));
            }
        }
    }
}

/// Appends a signed integer in decimal.
pub fn push_int(s: &mut String, n: i64)
    ensures
        final(s)@ == old(s)@ + int_str(n as int),
{
    if n < 0 {
        push_char(s, '-');
        let m: u64 = if n == i64::MIN { 0x8000_0000_0000_0000u64 } else { (-n) as u64 };
        push_dec(s, m);
        assert(final(s)@ =~= old(s)@ + int_str(n as int));
    } else {
        push_dec(s, n as u64);
    }
}

/// The number of hexadecimal digits of `n`.
pub fn hex_len(n: u64) -> (r: usize)
    ensures
        r == hex_str(n as nat).len(),
        1 <= r <= 16,
    decreases n,
{
    proof { lemma_hex_str_len(n as nat); }
    if n < 16 {
        1
    } else {
        let k = hex_len(n / 16);
        k + 1
    }
}

/// Appends `k` copies of `c`.
pub fn push_repeat(s: &mut String, c: char, k: usize)
    ensures
        final(s)@ == old(s)@ + repeat_char(c, k as nat),
{
    let mut i: usize = 0;
    while i < k
        invariant
            i <= k,
            s@ == old(s)@ + repeat_char(c, i as nat),
        decreases k - i,
    {
        push_char(s, c);
        i = i + 1;
        assert(s@ =~= old(s)@ + repeat_char(c, i as nat));
    }
}

/// Appends `n` in hexadecimal, zero-padded to at least `w` digits.
pub fn push_hex_pad(s: &mut String, n: u64, w: usize)
    ensures
        final(s)@ == old(s)@ + hex_pad(n as nat, w as nat),
{
    let k = hex_len(n);
    if k < w {
        push_repeat(s, '0', w - k);
    }
    push_hex(s, n);
    assert(final(s)@ =~= old(s)@ + hex_pad(n as nat, w as nat));
}

/// Appends `t` left-justified in a field of `w` characters.
pub fn push_pad_right(s: &mut String, t: &str, w: usize)
    ensures
        final(s)@ == old(s)@ + pad_right(t@, w as nat),
{
    push_str(s, t);
    let k = t.unicode_len();
    if k < w {
        push_repeat(s, ' ', w - k);
    }
    assert(final(s)@ =~= old(s)@ + pad_right(t@, w as nat));
}

/// `n` as lowercase hexadecimal text.
pub fn hex_string(n: u64) -> (r: String)
    ensures
        r@ == hex_str(n as nat),
{
    let mut s = String::new();
    push_hex(&mut s, n);
    assert(s@ =~= hex_str(n as nat));
    s
}

/// `n` as `0x`-prefixed lowercase hexadecimal text, as `format!("0x{:x}", n)`.
pub fn hex_address(n: u64) -> (r: String)
    ensures
        r@ == hex_addr(n as nat),
{
    let mut s = String::new();
    push_char(&mut s, '0');
    push_char(&mut s, 'x');
    push_hex(&mut s, n);
    assert(s@ =~= hex_addr(n as nat));
    s
}

/// `n` as decimal text.
pub fn dec_string(n: u64) -> (r: String)
    ensures
        r@ == dec_str(n as nat),
{
    let mut s = String::new();
    push_dec(&mut s, n);
    assert(s@ =~= dec_str(n as nat));
    s
}

// ---------------------------------------------------------------------------
// Conversions between strings and character vectors
// ---------------------------------------------------------------------------

/// The characters of a string slice.
pub fn chars_of(s: &str) -> (r: Vec<char>)
    ensures
        r@ == s@,
{
    let mut v: Vec<char> = Vec::new();
    for c in it: s.chars()
        invariant
            v@ == it.seq().take(it.index() as int),
            it.seq() == s@,
    {
        v.push(c);
    }
    v
}

/// A string holding the characters `v[from..to]`.
pub fn string_of_range(v: &Vec<char>, from: usize, to: usize) -> (r: String)
    requires
        from <= to <= v.len(),
    ensures
        r@ == v@.subrange(from as int, to as int),
{
    let mut s = String::new();
    let mut i = from;
    while i < to
        invariant
            from <= i <= to <= v.len(),
            s@ == v@.subrange(from as int, i as int),
        decreases to - i,
    {
        push_char(&mut s, v[i]);
        i = i + 1;
        assert(s@ =~= v@.subrange(from as int, i as int));
    }
    s
}

/// A string holding all the characters of `v`.
pub fn string_of(v: &Vec<char>) -> (r: String)
    ensures
        r@ == v@,
{
    let r = string_of_range(v, 0, v.len());
    assert(v@.subrange(0, v@.len() as int) =~= v@);
    r
}

/// A copy of a string slice as an owned string.
pub fn owned(s: &str) -> (r: String)
    ensures
        r@ == s@,
{
    s.to_owned()
}

// ---------------------------------------------------------------------------
// Substrings, prefixes and suffixes
// ---------------------------------------------------------------------------

/// `p` occurs in `s` starting at index `i`.
pub open spec fn occurs_at(s: Seq<char>, p: Seq<char>, i: int) -> bool {
    0 <= i && i + p.len() <= s.len() && s.subrange(i, i + p.len()) == p
}

/// `p` occurs somewhere in `s` (`str::contains`); the empty pattern occurs
/// in every string.
pub open spec fn has_substr(s: Seq<char>, p: Seq<char>) -> bool {
    exists|i: int| occurs_at(s, p, i)
}

/// `s` begins with `p` (`str::starts_with`).
pub open spec fn has_prefix(s: Seq<char>, p: Seq<char>) -> bool {
    occurs_at(s, p, 0)
}

/// `s` ends with `p` (`str::ends_with`).
pub open spec fn has_suffix(s: Seq<char>, p: Seq<char>) -> bool {
    p.len() <= s.len() && occurs_at(s, p, s.len() - p.len())
}

/// Whether `p` occurs in `s` at index `i`.
pub fn matches_at(s: &Vec<char>, p: &Vec<char>, i: usize) -> (r: bool)
    ensures
        r == occurs_at(s@, p@, i as int),
{
    if i > s.len() || p.len() > s.len() - i {
        return false;
    }
    let mut j: usize = 0;
    while j < p.len()
        invariant
            i + p.len() <= s.len(),
            j <= p.len(),
            forall|k: int| 0 <= k < j ==> s@[i + k] == p@[k],
        decreases p.len() - j,
    {
        if s[i + j] != p[j] {
            assert(s@.subrange(i as int, i + p.len())[j as int] != p@[j as int]);
            return false;
        }
        j = j + 1;
    }
    assert(s@.subrange(i as int, i + p.len()) =~= p@);
    true
}

/// Whether `p` occurs anywhere in `s`.
pub fn seq_contains(s: &Vec<char>, p: &Vec<char>) -> (r: bool)
    ensures
        r == has_substr(s@, p@),
{
    if p.len() > s.len() {
        return false;
    }
    let last = s.len() - p.len();
    let mut i: usize = 0;
    loop
        invariant
            p.len() <= s.len(),
            last == s.len() - p.len(),
            i <= last,
            forall|k: int| 0 <= k < i ==> !occurs_at(s@, p@, k),
        decreases last - i,
    {
        if matches_at(s, p, i) {
            return true;
        }
        if i == last {
            return false;
        }
        i = i + 1;
    }
}

/// `str::contains` with a string pattern.
pub fn str_contains(s: &str, p: &str) -> (r: bool)
    ensures
        r == has_substr(s@, p@),
{
    let sv = chars_of(s);
    let pv = chars_of(p);
    seq_contains(&sv, &pv)
}

/// `str::starts_with` with a string pattern.
pub fn str_starts_with(s: &str, p: &str) -> (r: bool)
    ensures
        r == has_prefix(s@, p@),
{
    let sv = chars_of(s);
    let pv = chars_of(p);
    matches_at(&sv, &pv, 0)
}

/// `str::ends_with` with a string pattern.
pub fn str_ends_with(s: &str, p: &str) -> (r: bool)
    ensures
        r == has_suffix(s@, p@),
{
    let sv = chars_of(s);
    let pv = chars_of(p);
    if pv.len() > sv.len() {
        return false;
    }
    matches_at(&sv, &pv, sv.len() - pv.len())
}

/// Equality of two string slices.
pub fn str_eq(a: &str, b: &str) -> (r: bool)
    ensures
        r == (a@ == b@),
{
    let av = chars_of(a);
    let bv = chars_of(b);
    if av.len() != bv.len() {
        return false;
    }
    let r = matches_at(&av, &bv, 0);
    assert(av@.subrange(0, bv@.len() as int) =~= av@);
    r
}

/// The index of the first occurrence of `c` in `s`.
pub open spec fn index_of(s: Seq<char>, c: char) -> Option<nat>
    decreases s.len(),
{
    if s.len() == 0 {
        None
    } else if s[0] == c {
        Some(0)
    } else {
        match index_of(s.drop_first(), c) {
            Some(i) => Some(i + 1),
            None => None,
        }
    }
}

pub(crate) proof fn lemma_index_of(s: Seq<char>, c: char)
    ensures
        index_of(s, c) is Some <==> s.contains(c),
        index_of(s, c) matches Some(i) ==> i < s.len() && s[i as int] == c && (forall|k: int|
            0 <= k < i ==> s[k] != c),
    decreases s.len(),
{
    if s.len() > 0 {
        lemma_index_of(s.drop_first(), c);
        if s[0] != c {
            if s.contains(c) {
                let k = choose|k: int| 0 <= k < s.len() && s[k] == c;
                assert(s.drop_first()[k - 1] == c);
            }
            if s.drop_first().contains(c) {
                let k = choose|k: int| 0 <= k < s.drop_first().len() && s.drop_first()[k] == c;
                assert(s[k + 1] == c);
            }
            match index_of(s.drop_first(), c) {
                Some(i) => {
                    assert forall|k: int| 0 <= k < i + 1 implies s[k] != c by {
                        if k > 0 {
                            assert(s[k] == s.drop_first()[k - 1]);
                        }
                    }
                },
                None => {},
            }
        } else {
            assert(s[0] == c);
        }
    }
}

/// The index of the first occurrence of `c` in `v`.
pub fn find_char(v: &Vec<char>, c: char) -> (r: Option<usize>)
    ensures
        match r {
            Some(i) => index_of(v@, c) == Some(i as nat),
            None => index_of(v@, c) is None,
        },
        r is Some <==> v@.contains(c),
        r matches Some(i) ==> i < v@.len() && v@[i as int] == c && forall|k: int|
            0 <= k < i ==> v@[k] != c,
{
    proof { lemma_index_of(v@, c); }
    let mut i: usize = 0;
    while i < v.len()
        invariant
            i <= v.len(),
            forall|k: int| 0 <= k < i ==> v@[k] != c,
            index_of(v@, c) is Some <==> v@.contains(c),
            index_of(v@, c) matches Some(j) ==> j < v@.len() && v@[j as int] == c && (forall|k: int|
                0 <= k < j ==> v@[k] != c),
        decreases v.len() - i,
    {
        if v[i] == c {
            assert(v@.contains(c));
            return Some(i);
        }
        i = i + 1;
    }
    assert(!v@.contains(c));
    None
}

// ---------------------------------------------------------------------------
// Whitespace and trimming
// ---------------------------------------------------------------------------

/// The Unicode `White_Space` property, which `char::is_whitespace` tests.
pub open spec fn is_white_space(c: char) -> bool {
    let u = c as u32;
    ||| 0x9 <= u <= 0xd
    ||| u == 0x20
    ||| u == 0x85
    ||| u == 0xa0
    ||| u == 0x1680
    ||| 0x2000 <= u <= 0x200a
    ||| u == 0x2028
    ||| u == 0x2029
    ||| u == 0x202f
    ||| u == 0x205f
    ||| u == 0x3000
}

/// `char::is_whitespace`.
pub fn is_whitespace_char(c: char) -> (r: bool)
    ensures
        r == is_white_space(c),
{
    let u = c as u32;
    (0x9 <= u && u <= 0xd) || u == 0x20 || u == 0x85 || u == 0xa0 || u == 0x1680 || (0x2000 <= u
        && u <= 0x200a) || u == 0x2028 || u == 0x2029 || u == 0x202f || u == 0x205f || u == 0x3000
}

/// `s` without its leading whitespace.
pub open spec fn trim_start(s: Seq<char>) -> Seq<char>
    decreases s.len(),
{
    if s.len() > 0 && is_white_space(s[0]) {
        trim_start(s.drop_first())
    } else {
        s
    }
}

/// `s` without its trailing whitespace.
pub open spec fn trim_end(s: Seq<char>) -> Seq<char>
    decreases s.len(),
{
    if s.len() > 0 && is_white_space(s.last()) {
        trim_end(s.drop_last())
    } else {
        s
    }
}

/// `s` without leading and trailing whitespace (`str::trim`).
pub open spec fn trim(s: Seq<char>) -> Seq<char> {
    trim_end(trim_start(s))
}

/// Every character of `s` is an ASCII character.
pub open spec fn is_ascii_chars(s: Seq<char>) -> bool {
    forall|i: int| 0 <= i < s.len() ==> (#[trigger] s[i] as u32) < 128
}

/// The ASCII lowercase form of `c`: an uppercase ASCII letter becomes its
/// lowercase letter, anything else stays.
pub open spec fn ascii_lower(c: char) -> char {
    if 'A' <= c && c <= 'Z' {
        ((c as u32) + 32) as char
    } else {
        c
    }
}

/// `s` with each character in its ASCII lowercase form.
pub open spec fn ascii_lowercase(s: Seq<char>) -> Seq<char> {
    s.map_values(|c: char| ascii_lower(c))
}

/// Trimming an ASCII text leaves an ASCII text.
pub proof fn lemma_trim_keeps_ascii(s: Seq<char>)
    requires
        is_ascii_chars(s),
    ensures
        is_ascii_chars(trim_start(s)),
        is_ascii_chars(trim(s)),
{
    lemma_trim_start_ascii(s);
    lemma_trim_end_ascii(trim_start(s));
}

proof fn lemma_trim_start_ascii(s: Seq<char>)
    requires
        is_ascii_chars(s),
    ensures
        is_ascii_chars(trim_start(s)),
    decreases s.len(),
{
    if s.len() > 0 && is_white_space(s[0]) {
        assert forall|i: int| 0 <= i < s.drop_first().len() implies (#[trigger] s.drop_first()[i] as u32)
            < 128 by {
            assert(s.drop_first()[i] == s[i + 1]);
        }
        lemma_trim_start_ascii(s.drop_first());
    }
}

proof fn lemma_trim_end_ascii(s: Seq<char>)
    requires
        is_ascii_chars(s),
    ensures
        is_ascii_chars(trim_end(s)),
    decreases s.len(),
{
    if s.len() > 0 && is_white_space(s.last()) {
        assert forall|i: int| 0 <= i < s.drop_last().len() implies (#[trigger] s.drop_last()[i] as u32)
            < 128 by {
            assert(s.drop_last()[i] == s[i]);
        }
        lemma_trim_end_ascii(s.drop_last());
    }
}

proof fn lemma_trim_start_skip(s: Seq<char>, i: int)
    requires
        0 <= i <= s.len(),
        forall|k: int| 0 <= k < i ==> is_white_space(s[k]),
    ensures
        trim_start(s) == trim_start(s.subrange(i, s.len() as int)),
    decreases i,
{
    if i > 0 {
        assert(s.drop_first().subrange(i - 1, s.drop_first().len() as int) =~= s.subrange(
            i,
            s.len() as int,
        ));
        lemma_trim_start_skip(s.drop_first(), i - 1);
    } else {
        assert(s.subrange(0, s.len() as int) =~= s);
    }
}

proof fn lemma_trim_end_skip(s: Seq<char>, j: int)
    requires
        0 <= j <= s.len(),
        forall|k: int| j <= k < s.len() ==> is_white_space(s[k]),
    ensures
        trim_end(s) == trim_end(s.subrange(0, j)),
    decreases s.len() - j,
{
    if j < s.len() {
        assert(s.drop_last().subrange(0, j) =~= s.subrange(0, j));
        lemma_trim_end_skip(s.drop_last(), j);
    } else {
        assert(s.subrange(0, j) =~= s);
    }
}

/// `str::trim` on a character vector.
pub fn trim_chars(v: &Vec<char>) -> (r: Vec<char>)
    ensures
        r@ == trim(v@),
{
    let mut i: usize = 0;
    while i < v.len() && is_whitespace_char(v[i])
        invariant
            i <= v.len(),
            forall|k: int| 0 <= k < i ==> is_white_space(v@[k]),
        decreases v.len() - i,
    {
        i = i + 1;
    }
    proof { lemma_trim_start_skip(v@, i as int); }
    let ghost t = v@.subrange(i as int, v@.len() as int);
    assert(trim_start(t) == t);
    let mut j: usize = v.len();
    while j > i && is_whitespace_char(v[j - 1])
        invariant
            i <= j <= v.len(),
            forall|k: int| j <= k < v.len() ==> is_white_space(v@[k]),
        decreases j,
    {
        j = j - 1;
    }
    proof {
        lemma_trim_end_skip(t, j - i);
        assert(t.subrange(0, j - i) =~= v@.subrange(i as int, j as int));
    }
    let mut r: Vec<char> = Vec::new();
    let mut k = i;
    while k < j
        invariant
            i <= k <= j <= v.len(),
            r@ == v@.subrange(i as int, k as int),
        decreases j - k,
    {
        r.push(v[k]);
        k = k + 1;
        assert(r@ =~= v@.subrange(i as int, k as int));
    }
    r
}

/// `str::trim` on a string slice, as an owned string.
pub fn trim_str(s: &str) -> (r: String)
    ensures
        r@ == trim(s@),
{
    let v = chars_of(s);
    let t = trim_chars(&v);
    string_of(&t)
}

// ---------------------------------------------------------------------------
// Parsing unsigned integers
// ---------------------------------------------------------------------------

/// The value of digit `c` in base `radix` (`char::to_digit`).
pub open spec fn digit_value(c: char, radix: nat) -> Option<nat> {
    let u = c as int;
    let v: int = if 48 <= u <= 57 {
        u - 48
    } else if 97 <= u <= 122 {
        u - 87
    } else if 65 <= u <= 90 {
        u - 55
    } else {
        36
    };
    if v < radix { Some(v as nat) } else { None }
}

/// Every character of `s` is a digit in base `radix`.
pub open spec fn all_digits(s: Seq<char>, radix: nat) -> bool {
    forall|i: int| 0 <= i < s.len() ==> (#[trigger] digit_value(s[i], radix)) is Some
}

/// The number that the digits `s` denote in base `radix`.
pub open spec fn digits_value(s: Seq<char>, radix: nat) -> nat
    decreases s.len(),
{
    if s.len() == 0 {
        0
    } else {
        digits_value(s.drop_last(), radix) * radix + match digit_value(s.last(), radix) {
            Some(d) => d,
            None => 0,
        }
    }
}

/// A hexadecimal digit reads back as its value.
pub proof fn lemma_hex_char_value(d: nat, radix: nat)
    requires
        d < 16,
        d < radix,
    ensures
        digit_value(hex_char(d), radix) == Some(d),
{
}

/// The hexadecimal text of `n` is all hexadecimal digits, starts with
/// one, and denotes `n`.
pub proof fn lemma_hex_str_value(n: nat)
    ensures
        hex_str(n).len() > 0,
        all_digits(hex_str(n), 16),
        digits_value(hex_str(n), 16) == n,
        hex_str(n)[0] != '+',
    decreases n,
{
    if n < 16 {
        lemma_hex_char_value(n, 16);
        assert(hex_str(n).drop_last() =~= Seq::<char>::empty());
        assert(digits_value(hex_str(n).drop_last(), 16) == 0);
    } else {
        lemma_hex_str_value(n / 16);
        lemma_hex_char_value(n % 16, 16);
        let s = hex_str(n);
        assert(s.drop_last() =~= hex_str(n / 16));
        assert(forall|i: int| 0 <= i < s.len() - 1 ==> s[i] == hex_str(n / 16)[i]);
        assert(all_digits(s, 16)) by {
            assert forall|i: int| 0 <= i < s.len() implies (#[trigger] digit_value(s[i], 16)) is Some by {
                if i < s.len() - 1 {
                    assert(s[i] == hex_str(n / 16)[i]);
                    assert(digit_value(hex_str(n / 16)[i], 16) is Some);
                }
            }
        }
        assert(digits_value(s, 16) == (n / 16) * 16 + n % 16);
        assert((n / 16) * 16 + n % 16 == n) by (nonlinear_arith);
    }
}

/// The decimal text of `n` is all decimal digits, starts with one, and
/// denotes `n`.
pub proof fn lemma_dec_str_value(n: nat)
    ensures
        dec_str(n).len() > 0,
        all_digits(dec_str(n), 10),
        digits_value(dec_str(n), 10) == n,
        dec_str(n)[0] != '+',
    decreases n,
{
    if n < 10 {
        lemma_hex_char_value(n, 10);
        assert(dec_str(n).drop_last() =~= Seq::<char>::empty());
        assert(digits_value(dec_str(n).drop_last(), 10) == 0);
    } else {
        lemma_dec_str_value(n / 10);
        lemma_hex_char_value(n % 10, 10);
        let s = dec_str(n);
        assert(s.drop_last() =~= dec_str(n / 10));
        assert(all_digits(s, 10)) by {
            assert forall|i: int| 0 <= i < s.len() implies (#[trigger] digit_value(s[i], 10)) is Some by {
                if i < s.len() - 1 {
                    assert(s[i] == dec_str(n / 10)[i]);
                    assert(digit_value(dec_str(n / 10)[i], 10) is Some);
                }
            }
        }
        assert(digits_value(s, 10) == (n / 10) * 10 + n % 10);
        assert((n / 10) * 10 + n % 10 == n) by (nonlinear_arith);
    }
}

/// The digits of an unsigned number, after an optional leading `+`.
pub open spec fn unsigned_digits(s: Seq<char>) -> Seq<char> {
    if s.len() > 0 && s[0] == '+' { s.drop_first() } else { s }
}

/// The number that `s` denotes as `from_str_radix` reads an unsigned
/// integer: an optional `+`, then one or more digits.
pub open spec fn parse_unsigned(s: Seq<char>, radix: nat) -> Option<nat> {
    let d = unsigned_digits(s);
    if d.len() > 0 && all_digits(d, radix) { Some(digits_value(d, radix)) } else { None }
}

/// `from_str_radix` for an unsigned type whose largest value is `max`.
pub open spec fn parse_bounded(s: Seq<char>, radix: nat, max: nat) -> Option<nat> {
    match parse_unsigned(s, radix) {
        Some(v) => if v <= max { Some(v) } else { None },
        None => None,
    }
}

proof fn lemma_digits_value_prefix(s: Seq<char>, radix: nat, j: int)
    requires
        radix >= 1,
        0 <= j <= s.len(),
        all_digits(s, radix),
    ensures
        digits_value(s.take(j), radix) <= digits_value(s, radix),
    decreases s.len() - j,
{
    if j < s.len() {
        lemma_digits_value_prefix(s, radix, j + 1);
        let t = s.take(j + 1);
        assert(t.drop_last() =~= s.take(j));
        assert(digits_value(t, radix) == digits_value(s.take(j), radix) * radix + match digit_value(
            t.last(),
            radix,
        ) {
            Some(d) => d,
            None => 0,
        });
        assert(digits_value(s.take(j), radix) * radix >= digits_value(s.take(j), radix))
            by (nonlinear_arith)
            requires
                radix >= 1,
        ;
    } else {
        assert(s.take(j) =~= s);
    }
}

/// The value of digit `c` in base `radix`.
pub fn char_digit(c: char, radix: u32) -> (r: Option<u32>)
    requires
        radix <= 36,
    ensures
        match r {
            Some(d) => digit_value(c, radix as nat) == Some(d as nat),
            None => digit_value(c, radix as nat) is None,
        },
{
    let u = c as u32;
    let v: u32 = if 48 <= u && u <= 57 {
        u - 48
    } else if 97 <= u && u <= 122 {
        u - 87
    } else if 65 <= u && u <= 90 {
        u - 55
    } else {
        36
    };
    if v < radix { Some(v) } else { None }
}

/// Reads an unsigned integer of at most `max` in base `radix` the way
/// `from_str_radix` does.
pub fn parse_unsigned_chars(s: &Vec<char>, radix: u32, max: u64) -> (r: Option<u64>)
    requires
        2 <= radix <= 36,
    ensures
        match r {
            Some(v) => parse_bounded(s@, radix as nat, max as nat) == Some(v as nat),
            None => parse_bounded(s@, radix as nat, max as nat) is None,
        },
{
    let start: usize = if s.len() > 0 && s[0] == '+' { 1 } else { 0 };
    let ghost d = unsigned_digits(s@);
    assert(d =~= s@.subrange(start as int, s@.len() as int));
    if start >= s.len() {
        return None;
    }
    let mut acc: u64 = 0;
    let mut i: usize = start;
    while i < s.len()
        invariant
            start <= i <= s.len(),
            d =~= s@.subrange(start as int, s@.len() as int),
            d == unsigned_digits(s@),
            forall|k: int| 0 <= k < i - start ==> (#[trigger] digit_value(d[k], radix as nat)) is Some,
            acc as nat == digits_value(d.take(i - start), radix as nat),
            acc <= max,
            2 <= radix <= 36,
        decreases s.len() - i,
    {
        let ghost j = i - start;
        match char_digit(s[i], radix) {
            None => {
                assert(!all_digits(d, radix as nat)) by {
                    assert(d[j] == s@[i as int]);
                }
                return None;
            },
            Some(dv) => {
                assert(d[j] == s@[i as int]);
                let ghost t = d.take(j + 1);
                assert(t.drop_last() =~= d.take(j));
                assert(t.last() == s@[i as int]);
                assert(acc as u128 * radix as u128 <= 0xffff_ffff_ffff_ffffu128 * 36)
                    by (nonlinear_arith)
                    requires
                        acc <= 0xffff_ffff_ffff_ffffu64,
                        radix <= 36,
                ;
                let nv: u128 = acc as u128 * radix as u128 + dv as u128;
                assert(nv as nat == digits_value(t, radix as nat));
                if nv > max as u128 {
                    proof {
                        if all_digits(d, radix as nat) {
                            lemma_digits_value_prefix(d, radix as nat, j + 1);
                        }
                    }
                    return None;
                }
                acc = nv as u64;
                i = i + 1;
            },
        }
    }
    assert(d.take(d.len() as int) =~= d);
    Some(acc)
}

/// Reads an unsigned integer of at most `max` from a string slice in base
/// `radix` the way `from_str_radix` does.
pub fn parse_unsigned_str(s: &str, radix: u32, max: u64) -> (r: Option<u64>)
    requires
        2 <= radix <= 36,
    ensures
        match r {
            Some(v) => parse_bounded(s@, radix as nat, max as nat) == Some(v as nat),
            None => parse_bounded(s@, radix as nat, max as nat) is None,
        },
{
    let v = chars_of(s);
    parse_unsigned_chars(&v, radix, max)
}

/// The characters `v[from..to]`.
pub fn sub_chars(v: &Vec<char>, from: usize, to: usize) -> (r: Vec<char>)
    requires
        from <= to <= v.len(),
    ensures
        r@ == v@.subrange(from as int, to as int),
{
    let mut r: Vec<char> = Vec::new();
    let mut k = from;
    while k < to
        invariant
            from <= k <= to <= v.len(),
            r@ == v@.subrange(from as int, k as int),
        decreases to - k,
    {
        r.push(v[k]);
        k = k + 1;
        assert(r@ =~= v@.subrange(from as int, k as int));
    }
    r
}

/// `0x` followed by the hexadecimal form of `n` (`format!("0x{:x}")`),
/// appended.
pub fn push_hex_address(s: &mut String, n: u64)
    ensures
        final(s)@ == old(s)@ + hex_addr(n as nat),
{
    push_char(s, '0');
    push_char(s, 'x');
    push_hex(s, n);
    assert(final(s)@ =~= old(s)@ + hex_addr(n as nat));
}

// ---------------------------------------------------------------------------
// Splitting
// ---------------------------------------------------------------------------

/// The separator test: the character `c` where one is given, whitespace
/// otherwise.
pub open spec fn sep_of(c: Option<char>) -> spec_fn(char) -> bool {
    |x: char|
        match c {
            Some(d) => x == d,
            None => is_white_space(x),
        }
}

/// The pieces of `s` between the characters that `sep` holds of, in
/// order: one more piece than there are separators, empty pieces kept.
pub open spec fn split_where(s: Seq<char>, sep: spec_fn(char) -> bool) -> Seq<Seq<char>>
    decreases s.len(),
{
    if s.len() == 0 {
        seq![Seq::empty()]
    } else {
        let parts = split_where(s.drop_last(), sep);
        if sep(s.last()) {
            parts.push(Seq::empty())
        } else {
            parts.update(parts.len() - 1, parts.last().push(s.last()))
        }
    }
}

/// `str::split` on the character `c`.
pub open spec fn split_char(s: Seq<char>, c: char) -> Seq<Seq<char>> {
    split_where(s, sep_of(Some(c)))
}

/// The words of `s`, its maximal runs of non-whitespace characters
/// (`str::split_whitespace`).
pub open spec fn words(s: Seq<char>) -> Seq<Seq<char>> {
    split_where(s, sep_of(None)).filter(|w: Seq<char>| w.len() > 0)
}

/// The views of a sequence of strings.
pub open spec fn views(v: Seq<String>) -> Seq<Seq<char>> {
    v.map_values(|p: String| p@)
}

pub proof fn lemma_split_nonempty(s: Seq<char>, sep: spec_fn(char) -> bool)
    ensures
        split_where(s, sep).len() >= 1,
    decreases s.len(),
{
    if s.len() > 0 {
        lemma_split_nonempty(s.drop_last(), sep);
    }
}

fn is_sep(x: char, c: Option<char>) -> (r: bool)
    ensures
        r == sep_of(c)(x),
{
    match c {
        Some(d) => x == d,
        None => is_whitespace_char(x),
    }
}

fn split_pieces(v: &Vec<char>, c: Option<char>) -> (r: Vec<String>)
    ensures
        views(r@) == split_where(v@, sep_of(c)),
{
    let mut parts: Vec<String> = Vec::new();
    let mut cur = String::new();
    let mut i: usize = 0;
    assert(v@.take(0) =~= Seq::<char>::empty());
    assert(views(parts@).push(cur@) =~= seq![Seq::<char>::empty()]);
    while i < v.len()
        invariant
            i <= v@.len(),
            views(parts@).push(cur@) == split_where(v@.take(i as int), sep_of(c)),
        decreases v@.len() - i,
    {
        let ghost before = split_where(v@.take(i as int), sep_of(c));
        proof {
            lemma_split_nonempty(v@.take(i as int), sep_of(c));
        }
        assert(v@.take(i + 1).drop_last() =~= v@.take(i as int));
        assert(v@.take(i + 1).last() == v@[i as int]);
        let x = v[i];
        if is_sep(x, c) {
            let ghost old_parts = parts@;
            parts.push(cur);
            cur = String::new();
            assert(views(parts@) =~= views(old_parts).push(before.last()));
            assert(views(parts@).push(cur@) =~= before.push(Seq::empty()));
        } else {
            let ghost old_cur = cur@;
            push_char(&mut cur, x);
            assert(views(parts@).push(cur@) =~= before.update(
                before.len() - 1,
                before.last().push(x),
            ));
        }
        i = i + 1;
    }
    assert(v@.take(v@.len() as int) =~= v@);
    let ghost old_parts = parts@;
    parts.push(cur);
    assert(views(parts@) =~= views(old_parts).push(cur@));
    parts
}

/// `str::split` on the character `c`, each piece as an owned string.
pub fn split_on(s: &str, c: char) -> (r: Vec<String>)
    ensures
        views(r@) == split_char(s@, c),
{
    let v = chars_of(s);
    split_pieces(&v, Some(c))
}

/// `str::split_whitespace`, each word as an owned string.
pub fn split_words(s: &str) -> (r: Vec<String>)
    ensures
        views(r@) == words(s@),
{
    let v = chars_of(s);
    let pieces = split_pieces(&v, None);
    let ghost orig = views(pieces@);
    let ghost nonempty = |w: Seq<char>| w.len() > 0;
    let mut rest = pieces;
    let mut kept: Vec<String> = Vec::new();
    let ghost mut k: int = 0;
    assert(orig.take(0) =~= Seq::<Seq<char>>::empty());
    proof {
        reveal(Seq::filter);
    }
    while rest.len() > 0
        invariant
            0 <= k <= orig.len(),
            views(rest@) =~= orig.subrange(k, orig.len() as int),
            views(kept@) == orig.take(k).filter(nonempty),
            nonempty == (|w: Seq<char>| w.len() > 0),
        decreases rest.len(),
    {
        let ghost rest_before = rest@;
        let p = rest.remove(0);
        proof {
            assert(views(rest_before)[0] == p@);
            assert(views(rest@) =~= views(rest_before).drop_first());
            assert(orig.take(k + 1).drop_last() =~= orig.take(k));
            assert(orig.take(k + 1).last() == p@);
            reveal(Seq::filter);
        }
        if p.as_str().unicode_len() > 0 {
            let ghost old_kept = kept@;
            kept.push(p);
            assert(views(kept@) =~= views(old_kept).push(orig.take(k + 1).last()));
        }
        proof {
            k = k + 1;
        }
    }
    assert(orig.take(k) =~= orig);
    kept
}

// ---------------------------------------------------------------------------
// Searching for a pattern, and lines
// ---------------------------------------------------------------------------

/// The index of the first occurrence of `p` in `s` (`str::find` with a
/// string pattern, counted in characters).
#[verifier::opaque]
pub open spec fn first_occurrence(s: Seq<char>, p: Seq<char>) -> Option<nat> {
    if has_substr(s, p) {
        Some(
            (choose|i: int|
                occurs_at(s, p, i) && forall|k: int| 0 <= k < i ==> !occurs_at(s, p, k)) as nat,
        )
    } else {
        None
    }
}

/// The first occurrence of `p` in `s`.
pub fn find_substr(s: &Vec<char>, p: &Vec<char>) -> (r: Option<usize>)
    ensures
        match r {
            Some(i) => first_occurrence(s@, p@) == Some(i as nat) && occurs_at(s@, p@, i as int),
            None => first_occurrence(s@, p@) is None,
        },
{
    reveal(first_occurrence);
    if p.len() > s.len() {
        assert(forall|k: int| !occurs_at(s@, p@, k));
        return None;
    }
    let last = s.len() - p.len();
    let mut i: usize = 0;
    loop
        invariant
            p.len() <= s.len(),
            last == s.len() - p.len(),
            i <= last,
            forall|k: int| 0 <= k < i ==> !occurs_at(s@, p@, k),
        decreases last - i,
    {
        if matches_at(s, p, i) {
            let ghost j = choose|j: int|
                occurs_at(s@, p@, j) && forall|k: int| 0 <= k < j ==> !occurs_at(s@, p@, k);
            assert(occurs_at(s@, p@, i as int) && forall|k: int|
                0 <= k < i ==> !occurs_at(s@, p@, k));
            reveal(first_occurrence);
            assert(j == i) by {
                if j < i {
                    assert(!occurs_at(s@, p@, j));
                }
                if j > i {
                    assert(!occurs_at(s@, p@, i as int));
                }
            }
            return Some(i);
        }
        if i == last {
            reveal(first_occurrence);
            assert(forall|k: int| !occurs_at(s@, p@, k)) by {
                assert forall|k: int| !occurs_at(s@, p@, k) by {
                    if 0 <= k && k + p@.len() <= s@.len() {
                        assert(k <= last);
                    }
                }
            }
            return None;
        }
        i = i + 1;
    }
}

/// The piece of `s` after the first occurrence of `p`, up to the next one
/// (the second piece of `str::split` with the pattern `p`).
pub open spec fn second_piece(s: Seq<char>, p: Seq<char>) -> Option<Seq<char>> {
    match first_occurrence(s, p) {
        Some(i) => {
            let rest = s.subrange(i + p.len() as int, s.len() as int);
            match first_occurrence(rest, p) {
                Some(j) => Some(rest.subrange(0, j as int)),
                None => Some(rest),
            }
        },
        None => None,
    }
}

/// The second piece of `s` split at `p`.
pub fn second_piece_of(s: &Vec<char>, p: &Vec<char>) -> (r: Option<Vec<char>>)
    ensures
        match r {
            Some(v) => second_piece(s@, p@) == Some(v@),
            None => second_piece(s@, p@) is None,
        },
{
    let sl = s.len();
    let pl = p.len();
    match find_substr(s, p) {
        Some(i) => {
            let rest = sub_chars(s, i + pl, sl);
            match find_substr(&rest, p) {
                Some(j) => Some(sub_chars(&rest, 0, j)),
                None => Some(rest),
            }
        },
        None => None,
    }
}

/// A line without the carriage return that ended it.
pub open spec fn strip_cr(l: Seq<char>) -> Seq<char> {
    if l.len() > 0 && l.last() == '\r' {
        l.drop_last()
    } else {
        l
    }
}

/// The lines of `s` (`str::lines`): split at `\n`, a `\r` just before the
/// `\n` dropped, and no empty line after a final `\n`.
pub open spec fn text_lines(s: Seq<char>) -> Seq<Seq<char>> {
    let pieces = split_char(s, '\n');
    let ended = pieces.take(pieces.len() - 1).map_values(|l: Seq<char>| strip_cr(l));
    if pieces.last().len() == 0 {
        ended
    } else {
        ended.push(pieces.last())
    }
}

fn strip_cr_of(l: &String) -> (r: String)
    ensures
        r@ == strip_cr(l@),
{
    let v = chars_of(l.as_str());
    let n = v.len();
    if n > 0 && v[n - 1] == '\r' {
        let r = string_of_range(&v, 0, n - 1);
        assert(v@.subrange(0, n - 1) =~= v@.drop_last());
        r
    } else {
        l.clone()
    }
}

/// `str::lines`, each line as an owned string.
pub fn split_lines(s: &str) -> (r: Vec<String>)
    ensures
        views(r@) == text_lines(s@),
{
    let pieces = split_on(s, '\n');
    proof {
        lemma_split_nonempty(s@, sep_of(Some('\n')));
    }
    let ghost pv = views(pieces@);
    let n = pieces.len();
    let mut out: Vec<String> = Vec::new();
    let mut k: usize = 0;
    while k + 1 < n
        invariant
            n == pieces@.len() >= 1,
            pv == views(pieces@),
            k < n,
            views(out@) == pv.take(k as int).map_values(|l: Seq<char>| strip_cr(l)),
        decreases n - k,
    {
        let line = strip_cr_of(&pieces[k]);
        let ghost old_out = out@;
        assert(pv[k as int] == pieces@[k as int]@);
        out.push(line);
        assert(views(out@) =~= views(old_out).push(strip_cr(pv[k as int])));
        assert(pv.take(k + 1) =~= pv.take(k as int).push(pv[k as int]));
        assert(views(out@) =~= pv.take(k + 1).map_values(|l: Seq<char>| strip_cr(l)));
        k = k + 1;
    }
    let last = &pieces[n - 1];
    if last.as_str().unicode_len() > 0 {
        let ghost old_out = out@;
        out.push(last.clone());
        assert(views(out@) =~= views(old_out).push(pv.last()));
    }
    out
}

// ---------------------------------------------------------------------------
// Binary numbers, signed numbers, replacing and trimming a character
// ---------------------------------------------------------------------------

/// `n` written in binary without leading zeros, as `{:b}` does.
pub open spec fn bin_str(n: nat) -> Seq<char>
    decreases n,
{
    if n < 2 {
        seq![hex_char(n)]
    } else {
        bin_str(n / 2).push(hex_char(n % 2))
    }
}

/// Appends `n` in binary.
pub fn push_bin(s: &mut String, n: u64)
    ensures
        final(s)@ == old(s)@ + bin_str(n as nat),
    decreases n,
{
    if n >= 2 {
        push_bin(s, n / 2);
    }
    push_char(s, hex_digit(n % 2));
    proof {
        assert(final(s)@ =~= old(s)@ + bin_str(n as nat)) by {
            if n >= 2 {
                assert(bin_str(n as nat) == bin_str((n / 2) as nat).push(hex_char((n % 2) as nat)));
            }
        }
    }
}

/// The number that `s` denotes as `str::parse::<i64>` reads it: an
/// optional sign, then one or more decimal digits, within the `i64` range.
pub open spec fn parse_signed(s: Seq<char>) -> Option<int> {
    if s.len() > 0 && s[0] == '-' {
        let d = s.drop_first();
        if d.len() > 0 && all_digits(d, 10) && digits_value(d, 10) <= 0x8000_0000_0000_0000 {
            Some(-(digits_value(d, 10) as int))
        } else {
            None
        }
    } else {
        match parse_bounded(s, 10, 0x7fff_ffff_ffff_ffff) {
            Some(v) => Some(v as int),
            None => None,
        }
    }
}

/// Reads an `i64` the way `str::parse::<i64>` does.
pub fn parse_i64(s: &str) -> (r: Option<i64>)
    ensures
        match r {
            Some(v) => parse_signed(s@) == Some(v as int),
            None => parse_signed(s@) is None,
        },
{
    let v = chars_of(s);
    let n = v.len();
    if n > 0 && v[0] == '-' {
        let d = sub_chars(&v, 1, n);
        assert(d@ =~= s@.drop_first());
        if d.len() > 0 && d[0] == '+' {
            assert(!all_digits(d@, 10)) by {
                assert(digit_value(d@[0], 10) is None);
            }
            return None;
        }
        assert(unsigned_digits(d@) == d@);
        match parse_unsigned_chars(&d, 10, 0x8000_0000_0000_0000) {
            Some(m) => {
                if m == 0x8000_0000_0000_0000 {
                    Some(i64::MIN)
                } else {
                    Some(-(m as i64))
                }
            },
            None => None,
        }
    } else {
        match parse_unsigned_chars(&v, 10, 0x7fff_ffff_ffff_ffff) {
            Some(m) => Some(m as i64),
            None => None,
        }
    }
}

/// `s` with each occurrence of `from`, taken from the left without
/// overlaps, replaced by `to` (`str::replace`; `from` is not empty).
pub open spec fn replace_all(s: Seq<char>, from: Seq<char>, to: Seq<char>) -> Seq<char>
    decreases s.len(),
{
    if from.len() == 0 || s.len() == 0 {
        s
    } else if has_prefix(s, from) {
        to + replace_all(s.subrange(from.len() as int, s.len() as int), from, to)
    } else {
        seq![s[0]] + replace_all(s.drop_first(), from, to)
    }
}

/// `str::replace` with a pattern that is not empty.
pub fn replace_text(s: &str, from: &str, to: &str) -> (r: String)
    requires
        from@.len() > 0,
    ensures
        r@ == replace_all(s@, from@, to@),
{
    let v = chars_of(s);
    let p = chars_of(from);
    let mut out = String::new();
    let mut i: usize = 0;
    assert(v@.subrange(0, v@.len() as int) =~= v@);
    while i < v.len()
        invariant
            i <= v@.len(),
            v@ == s@,
            p@ == from@,
            p@.len() > 0,
            out@ + replace_all(v@.subrange(i as int, v@.len() as int), from@, to@) == replace_all(
                s@,
                from@,
                to@,
            ),
        decreases v@.len() - i,
    {
        let ghost rest = v@.subrange(i as int, v@.len() as int);
        if matches_at(&v, &p, i) {
            assert(has_prefix(rest, from@)) by {
                assert(rest.subrange(0, from@.len() as int) =~= v@.subrange(
                    i as int,
                    i + from@.len(),
                ));
            }
            assert(rest.subrange(from@.len() as int, rest.len() as int) =~= v@.subrange(
                i + p@.len(),
                v@.len() as int,
            ));
            let ghost before = out@;
            push_str(&mut out, to);
            assert(out@ + replace_all(v@.subrange(i + p@.len(), v@.len() as int), from@, to@)
                =~= before + replace_all(rest, from@, to@));
            i = i + p.len();
        } else {
            assert(!has_prefix(rest, from@)) by {
                if has_prefix(rest, from@) {
                    assert(v@.subrange(i as int, i + from@.len()) =~= rest.subrange(
                        0,
                        from@.len() as int,
                    ));
                }
            }
            assert(rest.drop_first() =~= v@.subrange(i + 1, v@.len() as int));
            let ghost before = out@;
            push_char(&mut out, v[i]);
            assert(out@ + replace_all(v@.subrange(i + 1, v@.len() as int), from@, to@) =~= before
                + replace_all(rest, from@, to@));
            i = i + 1;
        }
    }
    out
}

/// `s` without the characters `c` at its start.
pub open spec fn trim_char_start(s: Seq<char>, c: char) -> Seq<char>
    decreases s.len(),
{
    if s.len() > 0 && s[0] == c {
        trim_char_start(s.drop_first(), c)
    } else {
        s
    }
}

/// `s` without the characters `c` at its end.
pub open spec fn trim_char_end(s: Seq<char>, c: char) -> Seq<char>
    decreases s.len(),
{
    if s.len() > 0 && s.last() == c {
        trim_char_end(s.drop_last(), c)
    } else {
        s
    }
}

/// `s` without the characters `c` at either end (`str::trim_matches`).
pub open spec fn trim_char(s: Seq<char>, c: char) -> Seq<char> {
    trim_char_end(trim_char_start(s, c), c)
}

proof fn lemma_trim_char_start_skip(s: Seq<char>, c: char, i: int)
    requires
        0 <= i <= s.len(),
        forall|k: int| 0 <= k < i ==> s[k] == c,
    ensures
        trim_char_start(s, c) == trim_char_start(s.subrange(i, s.len() as int), c),
    decreases i,
{
    if i > 0 {
        assert(s.drop_first().subrange(i - 1, s.drop_first().len() as int) =~= s.subrange(
            i,
            s.len() as int,
        ));
        lemma_trim_char_start_skip(s.drop_first(), c, i - 1);
    } else {
        assert(s.subrange(0, s.len() as int) =~= s);
    }
}

proof fn lemma_trim_char_end_skip(s: Seq<char>, c: char, j: int)
    requires
        0 <= j <= s.len(),
        forall|k: int| j <= k < s.len() ==> s[k] == c,
    ensures
        trim_char_end(s, c) == trim_char_end(s.subrange(0, j), c),
    decreases s.len() - j,
{
    if j < s.len() {
        assert(s.drop_last().subrange(0, j) =~= s.subrange(0, j));
        lemma_trim_char_end_skip(s.drop_last(), c, j);
    } else {
        assert(s.subrange(0, j) =~= s);
    }
}

/// `str::trim_matches` with a character.
pub fn trim_char_str(s: &str, c: char) -> (r: String)
    ensures
        r@ == trim_char(s@, c),
{
    let v = chars_of(s);
    let mut i: usize = 0;
    while i < v.len() && v[i] == c
        invariant
            i <= v.len(),
            forall|k: int| 0 <= k < i ==> v@[k] == c,
        decreases v.len() - i,
    {
        i = i + 1;
    }
    proof {
        lemma_trim_char_start_skip(v@, c, i as int);
    }
    let ghost t = v@.subrange(i as int, v@.len() as int);
    let mut j: usize = v.len();
    while j > i && v[j - 1] == c
        invariant
            i <= j <= v.len(),
            forall|k: int| j <= k < v.len() ==> v@[k] == c,
        decreases j,
    {
        j = j - 1;
    }
    proof {
        lemma_trim_char_end_skip(t, c, j - i);
        assert(t.subrange(0, j - i) =~= v@.subrange(i as int, j as int));
    }
    string_of_range(&v, i, j)
}

} // verus!
