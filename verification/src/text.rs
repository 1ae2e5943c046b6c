//! Character-level text utilities with exact specifications.
//!
//! Strings are reasoned about through their view, a `Seq<char>`. All positions
//! are character positions.
use vstd::prelude::*;

verus! {

/// `String::push` appends one character.
pub assume_specification[ std::string::String::push ](s: &mut std::string::String, ch: char)
    ensures
        final(s)@ == old(s)@.push(ch),
;

// ---------------------------------------------------------------------------
// Conversions between strings and character vectors
// ---------------------------------------------------------------------------

/// The characters of `s`, in order.
pub fn chars_of(s: &str) -> (v: Vec<char>)
    ensures
        v@ == s@,
{
    let n = s.unicode_len();
    let mut v: Vec<char> = Vec::new();
    let mut i: usize = 0;
    while i < n
        invariant
            i <= n,
            n == s@.len(),
            v@ == s@.subrange(0, i as int),
        decreases n - i,
    {
        let c = s.get_char(i);
        v.push(c);
        i += 1;
        assert(v@ =~= s@.subrange(0, i as int));
    }
    assert(v@ =~= s@);
    v
}

/// Appends every character of `cs` to `s`.
pub fn push_chars(s: &mut String, cs: &[char])
    ensures
        final(s)@ == old(s)@ + cs@,
{
    let mut i: usize = 0;
    while i < cs.len()
        invariant
            i <= cs.len(),
            s@ == old(s)@ + cs@.subrange(0, i as int),
        decreases cs.len() - i,
    {
        s.push(cs[i]);
        i += 1;
        assert(s@ =~= old(s)@ + cs@.subrange(0, i as int));
    }
    assert(cs@.subrange(0, cs@.len() as int) =~= cs@);
}

/// A new string holding the characters of `cs`.
pub fn string_of(cs: &[char]) -> (s: String)
    ensures
        s@ == cs@,
{
    let mut s = String::new();
    push_chars(&mut s, cs);
    assert(s@ =~= cs@);
    s
}

/// Appends `t` to `s`.
pub fn push_str(s: &mut String, t: &str)
    ensures
        final(s)@ == old(s)@ + t@,
{
    s.append(t);
}

/// A copy of `s`.
pub fn copy_str(s: &str) -> (r: String)
    ensures
        r@ == s@,
{
    String::from_str(s)
}

/// Whether two strings hold the same characters.
pub fn str_eq(a: &str, b: &str) -> (r: bool)
    ensures
        r == (a@ == b@),
{
    let va = chars_of(a);
    let vb = chars_of(b);
    chars_eq(&va, &vb)
}

/// Whether two character slices are equal.
pub fn chars_eq(a: &[char], b: &[char]) -> (r: bool)
    ensures
        r == (a@ == b@),
{
    if a.len() != b.len() {
        return false;
    }
    let mut i: usize = 0;
    while i < a.len()
        invariant
            a.len() == b.len(),
            i <= a.len(),
            forall|j: int| 0 <= j < i ==> a@[j] == b@[j],
        decreases a.len() - i,
    {
        if a[i] != b[i] {
            return false;
        }
        i += 1;
    }
    assert(a@ =~= b@);
    true
}

// ---------------------------------------------------------------------------
// Decimal formatting
// ---------------------------------------------------------------------------

/// The ASCII digit for `d` (taken modulo ten).
pub open spec fn digit_char(d: nat) -> char {
    let m = d % 10;
    if m == 0 { '0' } else if m == 1 { '1' } else if m == 2 { '2' } else if m == 3 { '3' }
    else if m == 4 { '4' } else if m == 5 { '5' } else if m == 6 { '6' } else if m == 7 { '7' }
    else if m == 8 { '8' } else { '9' }
}

/// Decimal digits of `n`, most significant first, without leading zeros.
pub open spec fn spec_decimal(n: nat) -> Seq<char>
    decreases n,
{
    if n < 10 {
        seq![digit_char(n)]
    } else {
        spec_decimal(n / 10).push(digit_char(n % 10))
    }
}

/// Decimal text of a signed integer: a `-` before the digits of its magnitude
/// when it is negative.
pub open spec fn spec_int_text(n: int) -> Seq<char> {
    if n < 0 {
        seq!['-'] + spec_decimal((-n) as nat)
    } else {
        spec_decimal(n as nat)
    }
}

fn digit_of(d: u64) -> (c: char)
    requires
        d < 10,
    ensures
        c == digit_char(d as nat),
{
    if d == 0 { '0' } else if d == 1 { '1' } else if d == 2 { '2' } else if d == 3 { '3' }
    else if d == 4 { '4' } else if d == 5 { '5' } else if d == 6 { '6' } else if d == 7 { '7' }
    else if d == 8 { '8' } else { '9' }
}

/// Appends the decimal digits of `n` to `s`.
pub fn push_decimal(s: &mut String, n: u64)
    ensures
        final(s)@ == old(s)@ + spec_decimal(n as nat),
    decreases n,
{
    if n >= 10 {
        push_decimal(s, n / 10);
    }
    let c = digit_of(n % 10);
    s.push(c);
    assert(s@ =~= old(s)@ + spec_decimal(n as nat));
}

/// Appends the decimal text of a signed integer to `s`.
pub fn push_int(s: &mut String, n: i64)
    ensures
        final(s)@ == old(s)@ + spec_int_text(n as int),
{
    if n < 0 {
        s.push('-');
        let m: u64 = if n == i64::MIN { 9223372036854775808u64 } else { (-n) as u64 };
        push_decimal(s, m);
        assert(s@ =~= old(s)@ + spec_int_text(n as int));
    } else {
        push_decimal(s, n as u64);
    }
}

/// Decimal text of an unsigned integer.
pub fn u64_text(n: u64) -> (s: String)
    ensures
        s@ == spec_decimal(n as nat),
{
    let mut s = String::new();
    push_decimal(&mut s, n);
    assert(s@ =~= spec_decimal(n as nat));
    s
}

/// Decimal text of a signed integer.
pub fn i64_text(n: i64) -> (s: String)
    ensures
        s@ == spec_int_text(n as int),
{
    let mut s = String::new();
    push_int(&mut s, n);
    assert(s@ =~= spec_int_text(n as int));
    s
}

// ---------------------------------------------------------------------------
// Integer parsing (the grammar of `i64::from_str` / `u64::from_str`)
// ---------------------------------------------------------------------------

pub open spec fn is_digit(c: char) -> bool {
    '0' <= c && c <= '9'
}

pub open spec fn digit_value(c: char) -> int {
    (c as int) - ('0' as int)
}

pub open spec fn all_digits(s: Seq<char>) -> bool {
    forall|i: int| 0 <= i < s.len() ==> #[trigger] is_digit(s[i])
}

/// The number that a string of decimal digits denotes.
pub open spec fn digits_value(s: Seq<char>) -> int
    decreases s.len(),
{
    if s.len() == 0 {
        0
    } else {
        digits_value(s.drop_last()) * 10 + digit_value(s.last())
    }
}

/// The integer that `s` denotes under the syntax of Rust's signed integer
/// parsing: an optional `+` or `-`, then one or more ASCII digits.
pub open spec fn spec_parse_int(s: Seq<char>) -> Option<int> {
    if s.len() > 0 && (s[0] == '+' || s[0] == '-') {
        let rest = s.drop_first();
        if rest.len() > 0 && all_digits(rest) {
            if s[0] == '-' { Some(-digits_value(rest)) } else { Some(digits_value(rest)) }
        } else {
            None
        }
    } else if s.len() > 0 && all_digits(s) {
        Some(digits_value(s))
    } else {
        None
    }
}

/// The number that `s` denotes under the syntax of Rust's unsigned integer
/// parsing: an optional `+`, then one or more ASCII digits.
pub open spec fn spec_parse_nat(s: Seq<char>) -> Option<int> {
    if s.len() > 0 && s[0] == '+' {
        let rest = s.drop_first();
        if rest.len() > 0 && all_digits(rest) { Some(digits_value(rest)) } else { None }
    } else if s.len() > 0 && all_digits(s) {
        Some(digits_value(s))
    } else {
        None
    }
}

/// What `s.parse::<i64>()` gives: the value when the syntax is right and the
/// value fits.
pub open spec fn spec_parse_i64(s: Seq<char>) -> Option<i64> {
    match spec_parse_int(s) {
        Some(v) => if i64::MIN <= v <= i64::MAX { Some(v as i64) } else { None },
        None => None,
    }
}

/// What `s.parse::<u64>()` gives.
pub open spec fn spec_parse_u64(s: Seq<char>) -> Option<u64> {
    match spec_parse_nat(s) {
        Some(v) => if v <= u64::MAX { Some(v as u64) } else { None },
        None => None,
    }
}

proof fn lemma_digits_value_nonneg(s: Seq<char>)
    requires
        all_digits(s),
    ensures
        digits_value(s) >= 0,
    decreases s.len(),
{
    if s.len() > 0 {
        assert(is_digit(s[s.len() - 1]));
        lemma_digits_value_nonneg(s.drop_last());
    }
}

proof fn lemma_digits_value_prefix(s: Seq<char>, k: int)
    requires
        all_digits(s),
        0 <= k <= s.len(),
    ensures
        digits_value(s.take(k)) <= digits_value(s),
    decreases s.len(),
{
    if k < s.len() {
        assert(is_digit(s[s.len() - 1]));
        let d = s.drop_last();
        assert(all_digits(d)) by {
            assert forall|i: int| 0 <= i < d.len() implies #[trigger] is_digit(d[i]) by {
                assert(is_digit(s[i]));
            }
        }
        lemma_digits_value_prefix(d, k);
        assert(d.take(k) =~= s.take(k));
        lemma_digits_value_nonneg(d);
    } else {
        assert(s.take(k) =~= s);
    }
}

/// Magnitude of the digits `s[from..]`, or `None` when it exceeds `limit`.
fn digits_magnitude(s: &[char], from: usize, limit: u64) -> (r: Option<u64>)
    requires
        from < s.len(),
        limit >= 9,
    ensures
        all_digits(s@.skip(from as int)) ==> (match r {
            Some(v) => v as int == digits_value(s@.skip(from as int)) && v <= limit,
            None => digits_value(s@.skip(from as int)) > limit,
        }),
        !all_digits(s@.skip(from as int)) ==> r is None,
{
    let ghost t = s@.skip(from as int);
    let mut acc: u64 = 0;
    let mut i: usize = from;
    while i < s.len()
        invariant
            from <= i <= s.len(),
            t == s@.skip(from as int),
            all_digits(t.take(i - from)),
            acc as int == digits_value(t.take(i - from)),
            acc <= limit,
            limit >= 9,
        decreases s.len() - i,
    {
        let c = s[i];
        if !('0' <= c && c <= '9') {
            assert(t[i - from] == c);
            assert(!is_digit(t[i - from]));
            return None;
        }
        let d: u64 = (c as u32 - '0' as u32) as u64;
        assert(d <= 9);
        assert(d as int == digit_value(c));
        assert(t.take(i + 1 - from).drop_last() =~= t.take(i - from));
        assert(t.take(i + 1 - from).last() == c);
        assert(all_digits(t.take(i + 1 - from))) by {
            assert forall|j: int| 0 <= j < t.take(i + 1 - from).len() implies #[trigger] is_digit(
                t.take(i + 1 - from)[j],
            ) by {
                if j < i - from {
                    assert(t.take(i + 1 - from)[j] == t.take(i - from)[j]);
                }
            }
        }
        if acc > (limit - d) / 10 {
            proof {
                assert(digits_value(t.take(i + 1 - from)) == acc * 10 + d);
                assert(acc * 10 + d > limit) by (nonlinear_arith)
                    requires acc > (limit - d) / 10, d <= 9, d <= limit;
                if all_digits(t) {
                    lemma_digits_value_prefix(t, i + 1 - from);
                }
            }
            return None;
        }
        proof {
            assert(acc * 10 + d <= limit) by (nonlinear_arith)
                requires acc <= (limit - d) / 10, d <= limit;
        }
        acc = acc * 10 + d;
        i += 1;
    }
    assert(t.take(i - from) =~= t);
    Some(acc)
}

/// `s.parse::<i64>()`, as `Option`.
pub fn parse_i64(s: &str) -> (r: Option<i64>)
    ensures
        r == spec_parse_i64(s@),
{
    let v = chars_of(s);
    if v.len() == 0 {
        return None;
    }
    let first = v[0];
    if first == '+' || first == '-' {
        if v.len() == 1 {
            return None;
        }
        let neg = first == '-';
        let limit: u64 = if neg { 9223372036854775808u64 } else { 9223372036854775807u64 };
        let m = digits_magnitude(&v, 1, limit);
        assert(v@.skip(1) =~= v@.drop_first());
        match m {
            Some(x) => {
                if neg {
                    if x == 9223372036854775808u64 {
                        Some(i64::MIN)
                    } else {
                        Some(-(x as i64))
                    }
                } else {
                    Some(x as i64)
                }
            },
            None => None,
        }
    } else {
        let m = digits_magnitude(&v, 0, 9223372036854775807u64);
        assert(v@.skip(0) =~= v@);
        match m {
            Some(x) => Some(x as i64),
            None => None,
        }
    }
}

/// `s.parse::<u64>()`, as `Option`.
pub fn parse_u64(s: &str) -> (r: Option<u64>)
    ensures
        r == spec_parse_u64(s@),
{
    let v = chars_of(s);
    if v.len() == 0 {
        return None;
    }
    if v[0] == '+' {
        if v.len() == 1 {
            return None;
        }
        assert(v@.skip(1) =~= v@.drop_first());
        digits_magnitude(&v, 1, u64::MAX)
    } else {
        assert(v@.skip(0) =~= v@);
        digits_magnitude(&v, 0, u64::MAX)
    }
}


// ---------------------------------------------------------------------------
// Joining
// ---------------------------------------------------------------------------

/// `parts` joined with `sep` between neighbours.
pub open spec fn spec_join(parts: Seq<Seq<char>>, sep: Seq<char>) -> Seq<char>
    decreases parts.len(),
{
    if parts.len() == 0 {
        Seq::empty()
    } else if parts.len() == 1 {
        parts[0]
    } else {
        spec_join(parts.drop_last(), sep) + sep + parts.last()
    }
}

/// The character views of a sequence of strings.
pub open spec fn views(v: Seq<String>) -> Seq<Seq<char>> {
    v.map_values(|s: String| s@)
}

/// `parts.join(sep)`.
pub fn join_strings(parts: &Vec<String>, sep: &str) -> (r: String)
    ensures
        r@ == spec_join(views(parts@), sep@),
{
    let mut r = String::new();
    let mut i: usize = 0;
    while i < parts.len()
        invariant
            i <= parts.len(),
            r@ == spec_join(views(parts@).take(i as int), sep@),
        decreases parts.len() - i,
    {
        let ghost before = r@;
        if i > 0 {
            r.append(sep);
        }
        r.append(parts[i].as_str());
        proof {
            let t = views(parts@).take(i + 1);
            assert(t.drop_last() =~= views(parts@).take(i as int));
            assert(t.last() == parts@[i as int]@);
            if i == 0 {
                assert(r@ =~= t[0]);
            } else {
                assert(r@ =~= before + sep@ + t.last());
            }
        }
        i += 1;
    }
    assert(views(parts@).take(parts.len() as int) =~= views(parts@));
    r
}

// ---------------------------------------------------------------------------
// Searching
// ---------------------------------------------------------------------------

/// Whether `needle` occurs in `hay` at position `i`.
pub open spec fn occurs_at(hay: Seq<char>, needle: Seq<char>, i: int) -> bool {
    0 <= i && i + needle.len() <= hay.len() && hay.subrange(i, i + needle.len()) == needle
}

/// The first position at or after `from` where `needle` occurs in `hay`.
pub open spec fn find_from(hay: Seq<char>, needle: Seq<char>, from: int) -> Option<int>
    decreases hay.len() + 1 - from,
{
    if from < 0 || from + needle.len() > hay.len() {
        None
    } else if occurs_at(hay, needle, from) {
        Some(from)
    } else {
        find_from(hay, needle, from + 1)
    }
}

/// The first position where `needle` occurs in `hay` (`str::find`).
pub open spec fn spec_find(hay: Seq<char>, needle: Seq<char>) -> Option<int> {
    find_from(hay, needle, 0)
}

/// Whether `needle` occurs in `hay` at `i`.
pub fn occurs_at_exec(hay: &[char], needle: &[char], i: usize) -> (r: bool)
    requires
        i + needle.len() <= hay.len(),
    ensures
        r == occurs_at(hay@, needle@, i as int),
{
    let mut j: usize = 0;
    while j < needle.len()
        invariant
            j <= needle.len(),
            i + needle.len() <= hay.len(),
            forall|k: int| 0 <= k < j ==> hay@[i + k] == needle@[k],
        decreases needle.len() - j,
    {
        if hay[i + j] != needle[j] {
            assert(hay@.subrange(i as int, i + needle.len())[j as int] != needle@[j as int]);
            return false;
        }
        j += 1;
    }
    assert(hay@.subrange(i as int, i + needle.len()) =~= needle@);
    true
}

/// `hay.find(needle)`.
pub fn find_chars(hay: &[char], needle: &[char]) -> (r: Option<usize>)
    ensures
        match r {
            Some(i) => spec_find(hay@, needle@) == Some(i as int),
            None => spec_find(hay@, needle@) is None,
        },
{
    find_chars_from(hay, needle, 0)
}

/// The first occurrence of `needle` in `hay` at or after `from`.
pub fn find_chars_from(hay: &[char], needle: &[char], from: usize) -> (r: Option<usize>)
    ensures
        match r {
            Some(i) => find_from(hay@, needle@, from as int) == Some(i as int),
            None => find_from(hay@, needle@, from as int) is None,
        },
    decreases hay.len() - from,
{
    if from > hay.len() || needle.len() > hay.len() - from {
        return None;
    }
    if occurs_at_exec(hay, needle, from) {
        Some(from)
    } else if from >= hay.len() {
        assert(find_from(hay@, needle@, from + 1) is None);
        None
    } else {
        let r = find_chars_from(hay, needle, from + 1);
        assert(find_from(hay@, needle@, from as int) == find_from(hay@, needle@, from + 1));
        r
    }
}

/// The first position of `x` in `s` at or after `from`.
pub open spec fn position_from(s: Seq<Seq<char>>, x: Seq<char>, from: int) -> Option<int>
    decreases s.len() - from,
{
    if from < 0 || from >= s.len() {
        None
    } else if s[from] == x {
        Some(from)
    } else {
        position_from(s, x, from + 1)
    }
}

/// The first position of `c` in `hay`.
pub open spec fn spec_find_char(hay: Seq<char>, c: char) -> Option<int> {
    spec_find(hay, seq![c])
}

/// `hay.find(c)`.
pub fn find_char(hay: &[char], c: char) -> (r: Option<usize>)
    ensures
        match r {
            Some(i) => spec_find_char(hay@, c) == Some(i as int),
            None => spec_find_char(hay@, c) is None,
        },
{
    let needle = vec![c];
    assert(needle@ =~= seq![c]);
    find_chars(hay, &needle)
}

/// The last position where `needle` occurs in `hay`, searching from `before`
/// downwards (`str::rfind` when `before == hay.len()`).
pub open spec fn rfind_before(hay: Seq<char>, needle: Seq<char>, before: int) -> Option<int>
    decreases before + 1,
{
    if before < 0 {
        None
    } else if occurs_at(hay, needle, before) {
        Some(before)
    } else {
        rfind_before(hay, needle, before - 1)
    }
}

/// The last position where `needle` occurs in `hay` (`str::rfind`).
pub open spec fn spec_rfind(hay: Seq<char>, needle: Seq<char>) -> Option<int> {
    rfind_before(hay, needle, hay.len() - needle.len())
}

/// `hay.rfind(needle)`.
pub fn rfind_chars(hay: &[char], needle: &[char]) -> (r: Option<usize>)
    ensures
        match r {
            Some(i) => spec_rfind(hay@, needle@) == Some(i as int),
            None => spec_rfind(hay@, needle@) is None,
        },
{
    if needle.len() > hay.len() {
        return None;
    }
    let mut i: usize = hay.len() - needle.len();
    loop
        invariant
            i + needle.len() <= hay.len(),
            rfind_before(hay@, needle@, hay.len() - needle.len()) == rfind_before(hay@, needle@, i as int),
        decreases i,
    {
        if occurs_at_exec(hay, needle, i) {
            return Some(i);
        }
        if i == 0 {
            assert(rfind_before(hay@, needle@, -1) is None);
            return None;
        }
        i -= 1;
    }
}

/// Whether `s` begins with `p`.
pub open spec fn starts_with(s: Seq<char>, p: Seq<char>) -> bool {
    p.len() <= s.len() && s.subrange(0, p.len() as int) == p
}

/// Whether `s` ends with `p`.
pub open spec fn ends_with(s: Seq<char>, p: Seq<char>) -> bool {
    p.len() <= s.len() && s.subrange(s.len() - p.len(), s.len() as int) == p
}

pub fn starts_with_chars(s: &[char], p: &[char]) -> (r: bool)
    ensures
        r == starts_with(s@, p@),
{
    if p.len() > s.len() {
        return false;
    }
    let r = occurs_at_exec(s, p, 0);
    r
}

pub fn ends_with_chars(s: &[char], p: &[char]) -> (r: bool)
    ensures
        r == ends_with(s@, p@),
{
    if p.len() > s.len() {
        return false;
    }
    occurs_at_exec(s, p, s.len() - p.len())
}

pub fn contains_chars(s: &[char], p: &[char]) -> (r: bool)
    ensures
        r == (spec_find(s@, p@) is Some),
{
    match find_chars(s, p) {
        Some(_) => true,
        None => false,
    }
}

/// A copy of `s[from..to]`.
pub fn slice_chars(s: &[char], from: usize, to: usize) -> (r: Vec<char>)
    requires
        from <= to <= s.len(),
    ensures
        r@ == s@.subrange(from as int, to as int),
{
    let mut r: Vec<char> = Vec::new();
    let mut i = from;
    while i < to
        invariant
            from <= i <= to <= s.len(),
            r@ == s@.subrange(from as int, i as int),
        decreases to - i,
    {
        r.push(s[i]);
        i += 1;
        assert(r@ =~= s@.subrange(from as int, i as int));
    }
    r
}

/// A copy of `s` followed by `t`.
pub fn concat_chars(s: &[char], t: &[char]) -> (r: Vec<char>)
    ensures
        r@ == s@ + t@,
{
    let mut r = slice_chars(s, 0, s.len());
    let mut i: usize = 0;
    while i < t.len()
        invariant
            i <= t.len(),
            r@ == s@ + t@.subrange(0, i as int),
        decreases t.len() - i,
    {
        r.push(t[i]);
        i += 1;
        assert(r@ =~= s@ + t@.subrange(0, i as int));
    }
    assert(t@.subrange(0, t@.len() as int) =~= t@);
    assert(s@.subrange(0, s@.len() as int) =~= s@);
    r
}

// ---------------------------------------------------------------------------
// Case folding and trimming
// ---------------------------------------------------------------------------

/// ASCII upper case of one character; other characters are unchanged.
pub open spec fn upper_char(c: char) -> char {
    if 'a' <= c && c <= 'z' { ((c as u32) - 32) as char } else { c }
}

/// ASCII lower case of one character; other characters are unchanged.
pub open spec fn lower_char(c: char) -> char {
    if 'A' <= c && c <= 'Z' { ((c as u32) + 32) as char } else { c }
}

pub open spec fn spec_upper(s: Seq<char>) -> Seq<char> {
    s.map_values(|c: char| upper_char(c))
}

pub open spec fn spec_lower(s: Seq<char>) -> Seq<char> {
    s.map_values(|c: char| lower_char(c))
}

pub fn upper_of(c: char) -> (r: char)
    ensures
        r == upper_char(c),
{
    if 'a' <= c && c <= 'z' {
        let u: u32 = c as u32 - 32;
        assert(u < 0xD800);
        char_from_u32(u)
    } else {
        c
    }
}

pub fn lower_of(c: char) -> (r: char)
    ensures
        r == lower_char(c),
{
    if 'A' <= c && c <= 'Z' {
        let u: u32 = c as u32 + 32;
        char_from_u32(u)
    } else {
        c
    }
}

/// `char::from_u32` on a value below the surrogate range.
#[verifier::external_body]
fn char_from_u32(u: u32) -> (c: char)
    requires
        u < 0xD800,
    ensures
        c == u as char,
{
    char::from_u32(u).unwrap()
}

/// ASCII upper case of a character sequence.
pub fn upper_chars(s: &[char]) -> (r: Vec<char>)
    ensures
        r@ == spec_upper(s@),
{
    let mut r: Vec<char> = Vec::new();
    let mut i: usize = 0;
    while i < s.len()
        invariant
            i <= s.len(),
            r@ == spec_upper(s@.subrange(0, i as int)),
        decreases s.len() - i,
    {
        r.push(upper_of(s[i]));
        i += 1;
        assert(r@ =~= spec_upper(s@.subrange(0, i as int)));
    }
    assert(s@.subrange(0, s@.len() as int) =~= s@);
    r
}

/// ASCII lower case of a character sequence.
pub fn lower_chars(s: &[char]) -> (r: Vec<char>)
    ensures
        r@ == spec_lower(s@),
{
    let mut r: Vec<char> = Vec::new();
    let mut i: usize = 0;
    while i < s.len()
        invariant
            i <= s.len(),
            r@ == spec_lower(s@.subrange(0, i as int)),
        decreases s.len() - i,
    {
        r.push(lower_of(s[i]));
        i += 1;
        assert(r@ =~= spec_lower(s@.subrange(0, i as int)));
    }
    assert(s@.subrange(0, s@.len() as int) =~= s@);
    r
}

/// Unicode `White_Space`, as `char::is_whitespace` has it.
pub open spec fn is_ws(c: char) -> bool {
    c == ' ' || ('\u{9}' <= c && c <= '\u{d}') || c == '\u{85}' || c == '\u{a0}' || c == '\u{1680}'
        || ('\u{2000}' <= c && c <= '\u{200a}') || c == '\u{2028}' || c == '\u{2029}'
        || c == '\u{202f}' || c == '\u{205f}' || c == '\u{3000}'
}

pub fn is_ws_exec(c: char) -> (r: bool)
    ensures
        r == is_ws(c),
{
    c == ' ' || ('\u{9}' <= c && c <= '\u{d}') || c == '\u{85}' || c == '\u{a0}' || c == '\u{1680}'
        || ('\u{2000}' <= c && c <= '\u{200a}') || c == '\u{2028}' || c == '\u{2029}'
        || c == '\u{202f}' || c == '\u{205f}' || c == '\u{3000}'
}

/// Number of leading characters of `s` that satisfy `p`.
pub open spec fn lead_count(s: Seq<char>, p: spec_fn(char) -> bool) -> nat
    decreases s.len(),
{
    if s.len() > 0 && p(s[0]) { 1 + lead_count(s.drop_first(), p) } else { 0 }
}

/// Number of trailing characters of `s` that satisfy `p`.
pub open spec fn trail_count(s: Seq<char>, p: spec_fn(char) -> bool) -> nat
    decreases s.len(),
{
    if s.len() > 0 && p(s.last()) { 1 + trail_count(s.drop_last(), p) } else { 0 }
}

/// `s` without its leading and trailing characters that satisfy `p`
/// (`str::trim_matches` with a predicate).
pub open spec fn trim_by(s: Seq<char>, p: spec_fn(char) -> bool) -> Seq<char> {
    let a = s.skip(lead_count(s, p) as int);
    a.take(a.len() - trail_count(a, p))
}

/// `s` without trailing characters that satisfy `p` (`str::trim_end_matches`).
pub open spec fn trim_end_by(s: Seq<char>, p: spec_fn(char) -> bool) -> Seq<char> {
    s.take(s.len() - trail_count(s, p))
}

pub open spec fn ws_pred() -> spec_fn(char) -> bool {
    |c: char| is_ws(c)
}

/// `str::trim`.
pub open spec fn spec_trim(s: Seq<char>) -> Seq<char> {
    trim_by(s, ws_pred())
}

/// Whether `c` is one of `set`.
pub open spec fn in_set(set: Seq<char>, c: char) -> bool {
    set.contains(c)
}

pub open spec fn set_pred(set: Seq<char>) -> spec_fn(char) -> bool {
    |c: char| set.contains(c)
}

proof fn lemma_lead_count_bound(s: Seq<char>, p: spec_fn(char) -> bool)
    ensures
        lead_count(s, p) <= s.len(),
    decreases s.len(),
{
    if s.len() > 0 && p(s[0]) {
        lemma_lead_count_bound(s.drop_first(), p);
    }
}

proof fn lemma_trail_count_bound(s: Seq<char>, p: spec_fn(char) -> bool)
    ensures
        trail_count(s, p) <= s.len(),
    decreases s.len(),
{
    if s.len() > 0 && p(s.last()) {
        lemma_trail_count_bound(s.drop_last(), p);
    }
}

/// Leading run of characters in `set`, counted from `from`.
fn lead_in_set(s: &[char], set: &[char], ws: bool, from: usize) -> (n: usize)
    requires
        from <= s.len(),
    ensures
        from + n <= s.len(),
        n == lead_count(s@.skip(from as int), if ws { ws_pred() } else { set_pred(set@) }),
    decreases s.len() - from,
{
    let ghost p = if ws { ws_pred() } else { set_pred(set@) };
    let ghost t = s@.skip(from as int);
    if from == s.len() {
        return 0;
    }
    assert(t[0] == s@[from as int]);
    let hit = if ws { is_ws_exec(s[from]) } else { contains_char_exec(set, s[from]) };
    if hit {
        let n = lead_in_set(s, set, ws, from + 1);
        assert(t.drop_first() =~= s@.skip(from + 1));
        n + 1
    } else {
        0
    }
}

/// Trailing run of characters in `set` within `s[..to]`.
fn trail_in_set(s: &[char], set: &[char], ws: bool, lo: usize, to: usize) -> (n: usize)
    requires
        lo <= to <= s.len(),
    ensures
        n <= to - lo,
        n == trail_count(s@.subrange(lo as int, to as int), if ws { ws_pred() } else { set_pred(set@) }),
    decreases to - lo,
{
    let ghost t = s@.subrange(lo as int, to as int);
    if to == lo {
        return 0;
    }
    assert(t.last() == s@[to - 1]);
    let hit = if ws { is_ws_exec(s[to - 1]) } else { contains_char_exec(set, s[to - 1]) };
    if hit {
        let n = trail_in_set(s, set, ws, lo, to - 1);
        assert(t.drop_last() =~= s@.subrange(lo as int, to - 1));
        n + 1
    } else {
        0
    }
}

pub fn contains_char_exec(set: &[char], c: char) -> (r: bool)
    ensures
        r == set@.contains(c),
{
    let mut i: usize = 0;
    while i < set.len()
        invariant
            i <= set.len(),
            forall|j: int| 0 <= j < i ==> set@[j] != c,
        decreases set.len() - i,
    {
        if set[i] == c {
            assert(set@[i as int] == c);
            return true;
        }
        i += 1;
    }
    false
}

/// Bounds `(a, b)` such that `s[a..b]` is `s` trimmed of whitespace (when `ws`)
/// or of the characters of `set`.
fn trim_bounds(s: &[char], set: &[char], ws: bool) -> (r: (usize, usize))
    ensures
        r.0 <= r.1 <= s.len(),
        s@.subrange(r.0 as int, r.1 as int) == trim_by(s@, if ws { ws_pred() } else { set_pred(set@) }),
{
    let ghost p = if ws { ws_pred() } else { set_pred(set@) };
    let a = lead_in_set(s, set, ws, 0);
    assert(s@.skip(0) =~= s@);
    let n = trail_in_set(s, set, ws, a, s.len());
    assert(s@.subrange(a as int, s.len() as int) =~= s@.skip(a as int));
    let ghost sk = s@.skip(a as int);
    assert(sk.take(sk.len() - n) =~= s@.subrange(a as int, s.len() - n));
    (a, s.len() - n)
}

/// `s.trim()`.
pub fn trim_chars(s: &[char]) -> (r: Vec<char>)
    ensures
        r@ == spec_trim(s@),
{
    let empty: Vec<char> = Vec::new();
    let (a, b) = trim_bounds(s, &empty, true);
    slice_chars(s, a, b)
}

/// `s.trim_matches(|c| set.contains(&c))`.
pub fn trim_set(s: &[char], set: &[char]) -> (r: Vec<char>)
    ensures
        r@ == trim_by(s@, set_pred(set@)),
{
    let (a, b) = trim_bounds(s, set, false);
    slice_chars(s, a, b)
}

/// `s.trim_end_matches(|c| set.contains(&c))`.
pub fn trim_end_set(s: &[char], set: &[char]) -> (r: Vec<char>)
    ensures
        r@ == trim_end_by(s@, set_pred(set@)),
{
    let n = trail_in_set(s, set, false, 0, s.len());
    assert(s@.subrange(0, s.len() as int) =~= s@);
    slice_chars(s, 0, s.len() - n)
}

// ---------------------------------------------------------------------------
// Splitting
// ---------------------------------------------------------------------------

/// `s.split(pat)` for a non-empty pattern: the pieces between the
/// non-overlapping occurrences of `pat`, found from the left.
pub open spec fn spec_split(s: Seq<char>, pat: Seq<char>) -> Seq<Seq<char>>
    recommends
        pat.len() > 0,
    decreases s.len(),
{
    match spec_find(s, pat) {
        Some(i) => if pat.len() > 0 {
            proof {
                lemma_find_bounds(s, pat);
            }
            seq![s.take(i)] + spec_split(s.skip(i + pat.len()), pat)
        } else {
            seq![s]
        },
        None => seq![s],
    }
}

proof fn lemma_find_from_bounds(hay: Seq<char>, needle: Seq<char>, from: int)
    ensures
        find_from(hay, needle, from) matches Some(i) ==> from <= i && occurs_at(hay, needle, i),
    decreases hay.len() + 1 - from,
{
    if from < 0 || from + needle.len() > hay.len() {
    } else if occurs_at(hay, needle, from) {
    } else {
        lemma_find_from_bounds(hay, needle, from + 1);
    }
}

pub proof fn lemma_find_bounds(hay: Seq<char>, needle: Seq<char>)
    ensures
        spec_find(hay, needle) matches Some(i) ==> 0 <= i && i + needle.len() <= hay.len()
            && hay.subrange(i, i + needle.len()) == needle,
{
    lemma_find_from_bounds(hay, needle, 0);
}

proof fn lemma_find_from_shift(hay: Seq<char>, needle: Seq<char>, k: int, from: int)
    requires
        0 <= k <= hay.len(),
        0 <= from,
    ensures
        find_from(hay.skip(k), needle, from) == (match find_from(hay, needle, from + k) {
            Some(i) => Some(i - k),
            None => None::<int>,
        }),
    decreases hay.len() + 1 - k - from,
{
    let t = hay.skip(k);
    if from + needle.len() > t.len() {
    } else {
        assert(occurs_at(t, needle, from) == occurs_at(hay, needle, from + k)) by {
            assert(t.subrange(from, from + needle.len()) =~= hay.subrange(from + k, from + k + needle.len()));
        }
        if !occurs_at(t, needle, from) {
            lemma_find_from_shift(hay, needle, k, from + 1);
        }
    }
}

proof fn lemma_rfind_before_bounds(hay: Seq<char>, needle: Seq<char>, before: int)
    ensures
        rfind_before(hay, needle, before) matches Some(i) ==> 0 <= i <= before && occurs_at(hay, needle, i),
    decreases before + 1,
{
    if before >= 0 && !occurs_at(hay, needle, before) {
        lemma_rfind_before_bounds(hay, needle, before - 1);
    }
}

pub proof fn lemma_rfind_bounds(hay: Seq<char>, needle: Seq<char>)
    ensures
        spec_rfind(hay, needle) matches Some(i) ==> 0 <= i && i + needle.len() <= hay.len()
            && hay.subrange(i, i + needle.len()) == needle,
{
    lemma_rfind_before_bounds(hay, needle, hay.len() - needle.len());
}

/// `s.split(pat)`.
pub fn split_chars(s: &[char], pat: &[char]) -> (r: Vec<Vec<char>>)
    requires
        pat.len() > 0,
    ensures
        r@.map_values(|v: Vec<char>| v@) == spec_split(s@, pat@),
{
    let mut r: Vec<Vec<char>> = Vec::new();
    let mut start: usize = 0;
    assert(s@.skip(0) =~= s@);
    assert(r@.map_values(|v: Vec<char>| v@) =~= Seq::<Seq<char>>::empty());
    loop
        invariant
            start <= s.len(),
            pat.len() > 0,
            r@.map_values(|v: Vec<char>| v@) + spec_split(s@.skip(start as int), pat@) == spec_split(s@, pat@),
        decreases s.len() - start,
    {
        let ghost rest = s@.skip(start as int);
        let f = find_chars_from(s, pat, start);
        proof {
            lemma_find_from_shift(s@, pat@, start as int, 0);
        }
        match f {
            Some(i) => {
                proof {
                    lemma_find_from_bounds(s@, pat@, start as int);
                }
                let piece = slice_chars(s, start, i);
                let ghost old_r = r@.map_values(|v: Vec<char>| v@);
                r.push(piece);
                proof {
                    let j = i - start;
                    assert(spec_find(rest, pat@) == Some(j));
                    assert(rest.take(j) =~= s@.subrange(start as int, i as int));
                    assert(rest.skip(j + pat.len()) =~= s@.skip(i + pat.len()));
                    assert(r@.map_values(|v: Vec<char>| v@) =~= old_r.push(piece@));
                    assert(spec_split(rest, pat@) == seq![rest.take(j)] + spec_split(rest.skip(j + pat.len()), pat@));
                    assert(old_r.push(piece@) + spec_split(s@.skip(i + pat.len()), pat@) =~= old_r + spec_split(rest, pat@));
                }
                start = i + pat.len();
            },
            None => {
                let piece = slice_chars(s, start, s.len());
                let ghost old_r = r@.map_values(|v: Vec<char>| v@);
                r.push(piece);
                proof {
                    assert(spec_find(rest, pat@) is None);
                    assert(piece@ =~= rest);
                    assert(r@.map_values(|v: Vec<char>| v@) =~= old_r.push(piece@));
                    assert(old_r.push(piece@) =~= old_r + spec_split(rest, pat@));
                }
                return r;
            },
        }
    }
}


// ---------------------------------------------------------------------------
// Lexicographic order (the order of `str`: by code point, then by length)
// ---------------------------------------------------------------------------

/// Whether `a` sorts strictly before `b`.
pub open spec fn lex_lt(a: Seq<char>, b: Seq<char>) -> bool
    decreases a.len(),
{
    if a.len() == 0 {
        b.len() > 0
    } else if b.len() == 0 {
        false
    } else if a[0] < b[0] {
        true
    } else if a[0] > b[0] {
        false
    } else {
        lex_lt(a.drop_first(), b.drop_first())
    }
}

proof fn lemma_lex_from(a: Seq<char>, b: Seq<char>, i: int)
    requires
        0 <= i <= a.len(),
        i <= b.len(),
        a.subrange(0, i) == b.subrange(0, i),
    ensures
        lex_lt(a, b) == lex_lt(a.skip(i), b.skip(i)),
    decreases i,
{
    if i > 0 {
        assert(a[0] == a.subrange(0, i)[0]);
        assert(b[0] == b.subrange(0, i)[0]);
        assert(a.drop_first().subrange(0, i - 1) =~= a.subrange(0, i).drop_first());
        assert(b.drop_first().subrange(0, i - 1) =~= b.subrange(0, i).drop_first());
        lemma_lex_from(a.drop_first(), b.drop_first(), i - 1);
        assert(a.drop_first().skip(i - 1) =~= a.skip(i));
        assert(b.drop_first().skip(i - 1) =~= b.skip(i));
    } else {
        assert(a.skip(0) =~= a);
        assert(b.skip(0) =~= b);
    }
}

/// Whether `a` sorts strictly before `b`.
pub fn lex_less(a: &[char], b: &[char]) -> (r: bool)
    ensures
        r == lex_lt(a@, b@),
{
    let mut i: usize = 0;
    while i < a.len() && i < b.len()
        invariant
            i <= a.len(),
            i <= b.len(),
            a@.subrange(0, i as int) == b@.subrange(0, i as int),
        decreases a.len() - i,
    {
        if a[i] != b[i] {
            proof {
                lemma_lex_from(a@, b@, i as int);
                assert(a@.skip(i as int)[0] == a@[i as int]);
                assert(b@.skip(i as int)[0] == b@[i as int]);
                assert(a@.skip(i as int).len() > 0 && b@.skip(i as int).len() > 0);
            }
            return a[i] < b[i];
        }
        assert(a@.subrange(0, i + 1) =~= a@.subrange(0, i as int).push(a@[i as int]));
        assert(b@.subrange(0, i + 1) =~= b@.subrange(0, i as int).push(b@[i as int]));
        i += 1;
    }
    proof {
        lemma_lex_from(a@, b@, i as int);
    }
    i == a.len() && i < b.len()
}

// ---------------------------------------------------------------------------
// Replacing and whitespace words
// ---------------------------------------------------------------------------

/// `s.replace(pat, rep)` for a non-empty pattern: every non-overlapping
/// occurrence of `pat`, found from the left, replaced by `rep`.
pub open spec fn spec_replace(s: Seq<char>, pat: Seq<char>, rep: Seq<char>) -> Seq<char> {
    spec_join(spec_split(s, pat), rep)
}

/// `s.replace(pat, rep)`.
pub fn replace_all(s: &str, pat: &str, rep: &str) -> (r: String)
    requires
        pat@.len() > 0,
    ensures
        r@ == spec_replace(s@, pat@, rep@),
{
    let cs = chars_of(s);
    let ps = chars_of(pat);
    let pieces = split_chars(cs.as_slice(), ps.as_slice());
    let mut parts: Vec<String> = Vec::new();
    let mut i: usize = 0;
    while i < pieces.len()
        invariant
            i <= pieces@.len(),
            pieces@.map_values(|v: Vec<char>| v@) == spec_split(s@, pat@),
            views(parts@) == pieces@.map_values(|v: Vec<char>| v@).take(i as int),
        decreases pieces@.len() - i,
    {
        let ghost before = views(parts@);
        parts.push(string_of(pieces[i].as_slice()));
        assert(views(parts@) =~= before.push(pieces@[i as int]@));
        assert(pieces@.map_values(|v: Vec<char>| v@).take(i + 1) =~= pieces@.map_values(
            |v: Vec<char>| v@,
        ).take(i as int).push(pieces@[i as int]@));
        i = i + 1;
    }
    assert(pieces@.map_values(|v: Vec<char>| v@).take(pieces@.len() as int) =~= pieces@.map_values(
        |v: Vec<char>| v@,
    ));
    join_strings(&parts, rep)
}

/// The words of `s[i..]` separated by whitespace, after the words in `acc`
/// and the unfinished word `cur`.
pub open spec fn words_from(s: Seq<char>, i: int, cur: Seq<char>, acc: Seq<Seq<char>>) -> Seq<Seq<char>>
    decreases s.len() - i,
{
    if i < 0 || i >= s.len() {
        if cur.len() > 0 {
            acc.push(cur)
        } else {
            acc
        }
    } else if is_ws(s[i]) {
        words_from(s, i + 1, Seq::empty(), if cur.len() > 0 { acc.push(cur) } else { acc })
    } else {
        words_from(s, i + 1, cur.push(s[i]), acc)
    }
}

/// `s.split_whitespace()`: the non-empty runs of non-whitespace characters.
pub open spec fn spec_words(s: Seq<char>) -> Seq<Seq<char>> {
    words_from(s, 0, Seq::empty(), Seq::empty())
}

/// `s.split_whitespace()`, collected.
pub fn words(s: &str) -> (r: Vec<String>)
    ensures
        views(r@) == spec_words(s@),
{
    let cs = chars_of(s);
    let mut r: Vec<String> = Vec::new();
    let mut cur: Vec<char> = Vec::new();
    let mut i: usize = 0;
    assert(views(r@) =~= Seq::<Seq<char>>::empty());
    assert(cur@ =~= Seq::<char>::empty());
    while i < cs.len()
        invariant
            i <= cs@.len(),
            cs@ == s@,
            spec_words(s@) == words_from(s@, i as int, cur@, views(r@)),
        decreases cs@.len() - i,
    {
        let c = cs[i];
        if is_ws_exec(c) {
            if cur.len() > 0 {
                let ghost before = views(r@);
                r.push(string_of(cur.as_slice()));
                assert(views(r@) =~= before.push(cur@));
                cur = Vec::new();
            }
            assert(cur@ =~= Seq::<char>::empty());
        } else {
            cur.push(c);
        }
        i = i + 1;
    }
    if cur.len() > 0 {
        let ghost before = views(r@);
        r.push(string_of(cur.as_slice()));
        assert(views(r@) =~= before.push(cur@));
    }
    r
}

// ---------------------------------------------------------------------------
// Unicode case mappings of the standard library
// ---------------------------------------------------------------------------

/// The Unicode lower-case mapping of a text, as `str::to_lowercase` computes
/// it.
pub uninterp spec fn lowercase_of(s: Seq<char>) -> Seq<char>;

/// `str::to_lowercase`. Its result is [`lowercase_of`] of the argument:
/// the same text always maps to the same lower-case text. Nothing more is
/// stated of the mapping.
#[verifier::external_body]
pub(crate) fn to_lowercase(s: &str) -> (r: String)
    ensures
        r@ == lowercase_of(s@),
{
    s.to_lowercase()
}

/// Whether a character has the Unicode `Uppercase` property, as
/// `char::is_uppercase` decides it.
pub uninterp spec fn char_is_uppercase(c: char) -> bool;

/// `char::is_uppercase`. Its result is [`char_is_uppercase`] of the
/// argument; nothing more is stated of the property.
#[verifier::external_body]
pub(crate) fn is_uppercase(c: char) -> (r: bool)
    ensures
        r == char_is_uppercase(c),
{
    c.is_uppercase()
}

/// Whether a character is alphabetic or numeric in Unicode, as
/// `char::is_alphanumeric` decides it.
pub uninterp spec fn char_is_alphanumeric(c: char) -> bool;

/// `char::is_alphanumeric`. Its result is [`char_is_alphanumeric`] of the
/// argument; nothing more is stated of the property.
#[verifier::external_body]
pub(crate) fn is_alphanumeric(c: char) -> (r: bool)
    ensures
        r == char_is_alphanumeric(c),
{
    c.is_alphanumeric()
}

} // verus!
