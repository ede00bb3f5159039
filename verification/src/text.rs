//! Decimal numbers and small string helpers.

use vstd::prelude::*;

verus! {

/// Whether `c` is an ASCII decimal digit.
pub open spec fn is_digit(c: char) -> bool {
    '0' <= c && c <= '9'
}

/// The numeric value of the digit `c`.
pub open spec fn digit_value(c: char) -> nat {
    (c as int - '0' as int) as nat
}

/// The digit character of `d`, for `d < 10`.
pub open spec fn digit_char(d: nat) -> char {
    ((d + '0' as int) as u32) as char
}

/// Whether every character of `s` is a decimal digit.
pub open spec fn all_digits(s: Seq<char>) -> bool {
    forall|i: int| 0 <= i < s.len() ==> #[trigger] is_digit(s[i])
}

/// The value of a string of decimal digits, most significant first.
pub open spec fn digits_value(s: Seq<char>) -> nat
    decreases s.len(),
{
    if s.len() == 0 {
        0
    } else {
        digits_value(s.drop_last()) * 10 + digit_value(s.last())
    }
}

/// The decimal representation of `n`, without sign or leading zeros.
pub open spec fn decimal(n: nat) -> Seq<char>
    decreases n,
{
    if n < 10 {
        seq![digit_char(n)]
    } else {
        decimal(n / 10).push(digit_char(n % 10))
    }
}

/// What `str::parse` gives for an unsigned integer type whose largest value
/// is `max`: an optional `+`, then one or more decimal digits whose value
/// does not exceed `max`.
pub open spec fn parse_unsigned(s: Seq<char>, max: nat) -> Option<nat> {
    let d = if s.len() > 0 && s[0] == '+' { s.drop_first() } else { s };
    if d.len() > 0 && all_digits(d) && digits_value(d) <= max {
        Some(digits_value(d))
    } else {
        None
    }
}

/// The value of a prefix of digits never exceeds the value of the whole.
pub proof fn lemma_prefix_value(s: Seq<char>, k: int)
    requires
        0 <= k <= s.len(),
        all_digits(s),
    ensures
        digits_value(s.take(k)) <= digits_value(s),
    decreases s.len(),
{
    if k < s.len() {
        assert(s.drop_last().take(k) =~= s.take(k));
        lemma_prefix_value(s.drop_last(), k);
    } else {
        assert(s.take(k) =~= s);
    }
}

proof fn lemma_take_step(s: Seq<char>, k: int)
    requires
        0 <= k < s.len(),
    ensures
        digits_value(s.take(k + 1)) == digits_value(s.take(k)) * 10 + digit_value(s[k]),
{
    assert(s.take(k + 1).drop_last() =~= s.take(k));
}

/// Parses the decimal digits of `s[start..]` as a `u64` no larger than `max`.
fn parse_digits(s: &str, start: usize, len: usize, max: u64) -> (res: Option<u64>)
    requires
        len == s@.len(),
        start <= len,
    ensures
        match res {
            Some(v) => {
                &&& all_digits(s@.skip(start as int))
                &&& v == digits_value(s@.skip(start as int))
                &&& v <= max
            },
            None => !all_digits(s@.skip(start as int)) || digits_value(s@.skip(start as int))
                > max,
        },
{
    let ghost d = s@.skip(start as int);
    let mut acc: u64 = 0;
    let mut i: usize = start;
    while i < len
        invariant
            len == s@.len(),
            start <= i <= len,
            d == s@.skip(start as int),
            all_digits(d.take(i - start)),
            acc == digits_value(d.take(i - start)),
            acc <= max,
        decreases len - i,
    {
        let c = s.get_char(i);
        if !('0' <= c && c <= '9') {
            assert(d[i - start] == c);
            assert(!is_digit(d[i - start]));
            return None;
        }
        proof {
            lemma_take_step(d, i - start);
        }
        let v: u64 = (c as u32 - '0' as u32) as u64;
        match acc.checked_mul(10) {
            Some(m) => match m.checked_add(v) {
                Some(n) => {
                    if n > max {
                        proof {
                            if all_digits(d) {
                                lemma_prefix_value(d, i - start + 1);
                            }
                        }
                        return None;
                    }
                    acc = n;
                },
                None => {
                    proof {
                        if all_digits(d) {
                            lemma_prefix_value(d, i - start + 1);
                        }
                    }
                    return None;
                },
            },
            None => {
                proof {
                    if all_digits(d) {
                        lemma_prefix_value(d, i - start + 1);
                    }
                }
                return None;
            },
        }
        assert(all_digits(d.take(i + 1 - start))) by {
            assert forall|j: int| 0 <= j < d.take(i + 1 - start).len() implies is_digit(
                #[trigger] d.take(i + 1 - start)[j],
            ) by {
                if j < i - start {
                    assert(d.take(i + 1 - start)[j] == d.take(i - start)[j]);
                }
            }
        }
        i = i + 1;
    }
    assert(d.take(len - start) =~= d);
    Some(acc)
}

/// Parses `s` as `str::parse::<u64>` does.
pub fn parse_u64(s: &str) -> (res: Option<u64>)
    ensures
        res matches Some(v) ==> parse_unsigned(s@, u64::MAX as nat) == Some(v as nat),
        res is None ==> parse_unsigned(s@, u64::MAX as nat) is None,
{
    let len = s.unicode_len();
    let start: usize = if len > 0 && s.get_char(0) == '+' { 1 } else { 0 };
    let ghost d = if s@.len() > 0 && s@[0] == '+' { s@.drop_first() } else { s@ };
    assert(s@.skip(start as int) =~= d);
    if start == len {
        return None;
    }
    parse_digits(s, start, len, u64::MAX)
}

/// Parses `s` as `str::parse::<usize>` does.
pub fn parse_usize(s: &str) -> (res: Option<usize>)
    ensures
        res matches Some(v) ==> parse_unsigned(s@, usize::MAX as nat) == Some(v as nat),
        res is None ==> parse_unsigned(s@, usize::MAX as nat) is None,
{
    let len = s.unicode_len();
    let start: usize = if len > 0 && s.get_char(0) == '+' { 1 } else { 0 };
    let ghost d = if s@.len() > 0 && s@[0] == '+' { s@.drop_first() } else { s@ };
    assert(s@.skip(start as int) =~= d);
    if start == len {
        return None;
    }
    match parse_digits(s, start, len, usize::MAX as u64) {
        Some(v) => Some(v as usize),
        None => None,
    }
}


/// Appends `c` to `s` (`String::push`).
#[verifier::external_body]
pub fn push_char(s: &mut String, c: char)
    ensures
        final(s)@ == old(s)@.push(c),
{
    s.push(c);
}

/// The digit character for `d`.
pub fn digit(d: u8) -> (c: char)
    requires
        d < 10,
    ensures
        c == digit_char(d as nat),
        is_digit(c),
        digit_value(c) == d,
{
    (48u8 + d) as char
}

proof fn lemma_digit_char(d: nat)
    requires
        d < 10,
    ensures
        is_digit(digit_char(d)),
        digit_value(digit_char(d)) == d,
        d > 0 ==> digit_char(d) != '0',
{
    assert(((d + '0' as int) as u32) as int == d + 48);
    assert((((d + '0' as int) as u32) as char) as int == d + 48);
}

proof fn lemma_decimal_digits(n: nat)
    ensures
        all_digits(decimal(n)),
        digits_value(decimal(n)) == n,
        decimal(n).len() > 0,
        decimal(n).len() == 1 <==> n < 10,
        decimal(n).len() == 1 || decimal(n)[0] != '0',
    decreases n,
{
    lemma_digit_char(n % 10);
    if n >= 10 {
        lemma_decimal_digits(n / 10);
        let d = decimal(n / 10);
        assert(decimal(n).drop_last() =~= d);
        assert(digits_value(decimal(n)) == digits_value(d) * 10 + digit_value(digit_char(n % 10)));
        assert forall|i: int| 0 <= i < decimal(n).len() implies #[trigger] is_digit(decimal(n)[i]) by {
            if i < d.len() {
                assert(decimal(n)[i] == d[i]);
            }
        }
        assert(decimal(n)[0] == d[0]);
        if d.len() == 1 {
            lemma_digit_char(n / 10);
        }
    } else {
        assert(decimal(n).drop_last() =~= Seq::<char>::empty());
        assert(digits_value(decimal(n)) == digits_value(Seq::<char>::empty()) * 10 + digit_value(digit_char(n)));
    }
}

/// Every character of `decimal(n)` is a digit.
pub proof fn lemma_decimal_is_digits(n: nat)
    ensures
        all_digits(decimal(n)),
{
    lemma_decimal_digits(n);
}

/// The digits of `decimal(n)` have the value `n`.
pub proof fn lemma_decimal_value(n: nat)
    ensures
        digits_value(decimal(n)) == n,
{
    lemma_decimal_digits(n);
}

/// Formats `n` in decimal, as `format!("{}", n)` does.
pub fn format_usize(n: usize) -> (s: String)
    ensures
        s@ == decimal(n as nat),
{
    let mut digits: Vec<char> = Vec::new();
    let mut m: usize = n;
    // digits holds the decimal digits of n below those of m, least significant first
    while m >= 10
        invariant
            decimal(n as nat) =~= decimal(m as nat) + digits@.reverse(),
        decreases m,
    {
        let d = (m % 10) as u8;
        digits.push(digit(d));
        proof {
            assert(decimal(m as nat) == decimal((m / 10) as nat).push(digit_char((m % 10) as nat)));
            assert(digits@.reverse() =~= seq![digit_char((m % 10) as nat)] + digits@.drop_last().reverse());
        }
        m = m / 10;
    }
    let mut s = String::new();
    push_char(&mut s, digit(m as u8));
    assert(s@ =~= decimal(m as nat));
    let mut k: usize = digits.len();
    while k > 0
        invariant
            k <= digits.len(),
            decimal(n as nat) =~= decimal(m as nat) + digits@.reverse(),
            s@ =~= decimal(m as nat) + digits@.subrange(k as int, digits.len() as int).reverse(),
        decreases k,
    {
        k = k - 1;
        push_char(&mut s, digits[k]);
        assert(digits@.subrange(k as int, digits.len() as int).reverse() =~= digits@.subrange(
            k + 1,
            digits.len() as int,
        ).reverse().push(digits@[k as int]));
    }
    assert(digits@.subrange(0, digits.len() as int) =~= digits@);
    s
}

/// Formatting then parsing gives the number back: `parse_unsigned` inverts
/// `decimal` on every value in range.
pub proof fn lemma_parse_decimal(n: nat, max: nat)
    requires
        n <= max,
    ensures
        parse_unsigned(decimal(n), max) == Some(n),
{
    lemma_decimal_digits(n);
    assert(is_digit(decimal(n)[0]));
}


/// `k` is the first position of `c` in `s`.
pub open spec fn is_first(s: Seq<char>, c: char, k: int) -> bool {
    &&& 0 <= k < s.len()
    &&& s[k] == c
    &&& forall|j: int| 0 <= j < k ==> s[j] != c
}

/// `k` is the last position of `c` in `s`.
pub open spec fn is_last(s: Seq<char>, c: char, k: int) -> bool {
    &&& 0 <= k < s.len()
    &&& s[k] == c
    &&& forall|j: int| k < j < s.len() ==> s[j] != c
}

/// The first position of `c` in `s` (`str::find` counted in characters).
pub open spec fn find(s: Seq<char>, c: char) -> Option<int> {
    if s.contains(c) {
        Some(choose|k: int| is_first(s, c, k))
    } else {
        None
    }
}

/// The last position of `c` in `s` (`str::rfind` counted in characters).
pub open spec fn rfind(s: Seq<char>, c: char) -> Option<int> {
    if s.contains(c) {
        Some(choose|k: int| is_last(s, c, k))
    } else {
        None
    }
}

/// The first position is the one that `find` names.
pub proof fn lemma_find_is(s: Seq<char>, c: char, k: int)
    requires
        is_first(s, c, k),
    ensures
        find(s, c) == Some(k),
{
    assert(s.contains(c)) by {
        assert(s[k] == c);
    }
    let m = choose|m: int| is_first(s, c, m);
    assert(is_first(s, c, m));
    if m < k {
        assert(s[m] != c);
    } else if k < m {
        assert(s[k] != c);
    }
}

/// The last position is the one that `rfind` names.
pub proof fn lemma_rfind_is(s: Seq<char>, c: char, k: int)
    requires
        is_last(s, c, k),
    ensures
        rfind(s, c) == Some(k),
{
    assert(s.contains(c)) by {
        assert(s[k] == c);
    }
    let m = choose|m: int| is_last(s, c, m);
    assert(is_last(s, c, m));
    if m < k {
        assert(s[k] != c);
    } else if k < m {
        assert(s[m] != c);
    }
}

/// Where `c` occurs in `s`, `find` names its first position.
pub proof fn lemma_find_first(s: Seq<char>, c: char)
    requires
        s.contains(c),
    ensures
        is_first(s, c, find(s, c)->0),
    decreases s.len(),
{
    if s.drop_last().contains(c) {
        lemma_find_first(s.drop_last(), c);
        let k = find(s.drop_last(), c)->0;
        assert(s[k] == s.drop_last()[k]);
        assert forall|j: int| 0 <= j < k implies s[j] != c by {
            assert(s.drop_last()[j] == s[j]);
        }
        assert(is_first(s, c, k));
    } else {
        let k = s.len() - 1;
        assert forall|j: int| 0 <= j < k implies s[j] != c by {
            assert(s.drop_last()[j] == s[j]);
        }
        assert(is_first(s, c, k));
    }
}

/// Where `c` occurs in `s`, `rfind` names its last position.
pub proof fn lemma_rfind_last(s: Seq<char>, c: char)
    requires
        s.contains(c),
    ensures
        is_last(s, c, rfind(s, c)->0),
    decreases s.len(),
{
    if s.drop_first().contains(c) {
        lemma_rfind_last(s.drop_first(), c);
        let k = rfind(s.drop_first(), c)->0;
        assert(s[k + 1] == s.drop_first()[k]);
        assert forall|j: int| k + 1 < j < s.len() implies s[j] != c by {
            assert(s.drop_first()[j - 1] == s[j]);
        }
        assert(is_last(s, c, k + 1));
    } else {
        assert forall|j: int| 0 < j < s.len() implies s[j] != c by {
            assert(s.drop_first()[j - 1] == s[j]);
        }
        assert(is_last(s, c, 0));
    }
}

/// Finds the first position of `c` in `s`, counted in characters.
pub fn find_char(s: &str, c: char) -> (res: Option<usize>)
    ensures
        match res {
            Some(k) => find(s@, c) == Some(k as int) && is_first(s@, c, k as int),
            None => find(s@, c) is None,
        },
{
    let len = s.unicode_len();
    let mut i: usize = 0;
    while i < len
        invariant
            len == s@.len(),
            i <= len,
            forall|j: int| 0 <= j < i ==> s@[j] != c,
        decreases len - i,
    {
        if s.get_char(i) == c {
            proof {
                lemma_find_is(s@, c, i as int);
            }
            return Some(i);
        }
        i = i + 1;
    }
    assert(!s@.contains(c));
    None
}

/// Finds the last position of `c` in `s`, counted in characters.
pub fn rfind_char(s: &str, c: char) -> (res: Option<usize>)
    ensures
        match res {
            Some(k) => rfind(s@, c) == Some(k as int) && is_last(s@, c, k as int),
            None => rfind(s@, c) is None,
        },
{
    let len = s.unicode_len();
    let mut i: usize = len;
    while i > 0
        invariant
            len == s@.len(),
            i <= len,
            forall|j: int| i <= j < len ==> s@[j] != c,
        decreases i,
    {
        i = i - 1;
        if s.get_char(i) == c {
            proof {
                lemma_rfind_is(s@, c, i as int);
            }
            return Some(i);
        }
    }
    assert(!s@.contains(c));
    None
}


/// Whether `a` and `b` hold the same characters.
pub fn equals(a: &str, b: &str) -> (res: bool)
    ensures
        res == (a@ == b@),
{
    let n = a.unicode_len();
    let m = b.unicode_len();
    if n != m {
        return false;
    }
    let mut i: usize = 0;
    while i < n
        invariant
            n == a@.len(),
            m == b@.len(),
            n == m,
            i <= n,
            forall|j: int| 0 <= j < i ==> a@[j] == b@[j],
        decreases n - i,
    {
        if a.get_char(i) != b.get_char(i) {
            return false;
        }
        i = i + 1;
    }
    assert(a@ =~= b@);
    true
}


/// Whether `s` begins with `p`.
pub open spec fn has_prefix(s: Seq<char>, p: Seq<char>) -> bool {
    p.len() <= s.len() && s.take(p.len() as int) == p
}

/// Whether `s` ends with `p`.
pub open spec fn has_suffix(s: Seq<char>, p: Seq<char>) -> bool {
    p.len() <= s.len() && s.skip(s.len() - p.len()) == p
}

/// Whether `s` begins with `p` (`str::starts_with`).
pub fn starts_with(s: &str, p: &str) -> (res: bool)
    ensures
        res == has_prefix(s@, p@),
{
    let n = s.unicode_len();
    let m = p.unicode_len();
    if m > n {
        return false;
    }
    let mut i: usize = 0;
    while i < m
        invariant
            n == s@.len(),
            m == p@.len(),
            m <= n,
            i <= m,
            forall|j: int| 0 <= j < i ==> s@[j] == p@[j],
        decreases m - i,
    {
        if s.get_char(i) != p.get_char(i) {
            assert(s@.take(m as int)[i as int] != p@[i as int]);
            return false;
        }
        i = i + 1;
    }
    assert(s@.take(m as int) =~= p@);
    true
}

/// Whether `s` ends with `p` (`str::ends_with`).
pub fn ends_with(s: &str, p: &str) -> (res: bool)
    ensures
        res == has_suffix(s@, p@),
{
    let n = s.unicode_len();
    let m = p.unicode_len();
    if m > n {
        return false;
    }
    let d = n - m;
    let mut i: usize = 0;
    while i < m
        invariant
            n == s@.len(),
            m == p@.len(),
            d == n - m,
            i <= m,
            forall|j: int| 0 <= j < i ==> s@[d + j] == p@[j],
        decreases m - i,
    {
        if s.get_char(d + i) != p.get_char(i) {
            assert(s@.skip(d as int)[i as int] != p@[i as int]);
            return false;
        }
        i = i + 1;
    }
    assert(s@.skip(d as int) =~= p@);
    true
}

/// The segments of a path between its `/`, empty ones included.
pub open spec fn split_path(path: Seq<char>) -> Seq<Seq<char>>
    decreases path.len(),
{
    if path.len() == 0 {
        seq![Seq::empty()]
    } else {
        let parts = split_path(path.drop_last());
        if path.last() == '/' {
            parts.push(Seq::empty())
        } else {
            parts.update(parts.len() - 1, parts.last().push(path.last()))
        }
    }
}

/// Whether a segment names something: it is neither empty nor `.`.
pub open spec fn is_named(segment: Seq<char>) -> bool {
    segment.len() > 0 && segment != seq!['.']
}

/// The segments that name something, in order.
pub open spec fn named_segments(parts: Seq<Seq<char>>) -> Seq<Seq<char>>
    decreases parts.len(),
{
    if parts.len() == 0 {
        Seq::empty()
    } else if is_named(parts.last()) {
        named_segments(parts.drop_last()).push(parts.last())
    } else {
        named_segments(parts.drop_last())
    }
}

/// The last component of a path on Unix, as `Path::file_name` gives it:
/// the last of the segments between `/` that are neither empty nor `.`;
/// `None` where there is no such segment or the last one is `..`.
pub open spec fn file_name(path: Seq<char>) -> Option<Seq<char>> {
    let named = named_segments(split_path(path));
    if named.len() == 0 || named.last() == seq!['.', '.'] {
        None
    } else {
        Some(named.last())
    }
}

proof fn lemma_split_path_len(path: Seq<char>)
    ensures
        split_path(path).len() >= 1,
    decreases path.len(),
{
    if path.len() > 0 {
        lemma_split_path_len(path.drop_last());
    }
}

/// Characters without `/` extend the last segment.
proof fn lemma_split_path_extend(x: Seq<char>, b: Seq<char>)
    requires
        !b.contains('/'),
    ensures
        split_path(x + b) == split_path(x).update(
            split_path(x).len() - 1,
            split_path(x).last() + b,
        ),
    decreases b.len(),
{
    lemma_split_path_len(x);
    let sx = split_path(x);
    if b.len() == 0 {
        assert(x + b =~= x);
        assert(sx.last() + b =~= sx.last());
        assert(sx.update(sx.len() - 1, sx.last()) =~= sx);
    } else {
        let c = b.last();
        assert(b[b.len() - 1] == c);
        assert(!b.drop_last().contains('/')) by {
            if b.drop_last().contains('/') {
                let i = choose|i: int| 0 <= i < b.drop_last().len() && b.drop_last()[i] == '/';
                assert(b[i] == '/');
            }
        }
        lemma_split_path_extend(x, b.drop_last());
        assert((x + b).drop_last() =~= x + b.drop_last());
        assert((x + b).last() == c);
        let p = split_path(x + b.drop_last());
        assert(p =~= sx.update(sx.len() - 1, sx.last() + b.drop_last()));
        assert(p.len() == sx.len());
        assert(p.last() == sx.last() + b.drop_last());
        assert(sx.last() + b.drop_last() + seq![c] =~= sx.last() + b);
        assert(p.last().push(c) =~= sx.last() + b);
        assert(p.update(p.len() - 1, p.last().push(c)) =~= sx.update(sx.len() - 1, sx.last() + b));
    }
}

/// A `/` and then characters without `/` add a segment.
proof fn lemma_split_path_segment(a: Seq<char>, b: Seq<char>)
    requires
        !b.contains('/'),
    ensures
        split_path(a + seq!['/'] + b) == split_path(a).push(b),
{
    let a1 = a + seq!['/'];
    assert(a1.drop_last() =~= a);
    assert(a1.last() == '/');
    lemma_split_path_extend(a1, b);
    let s = split_path(a).push(Seq::<char>::empty());
    assert(Seq::<char>::empty() + b =~= b);
    assert(s.update(s.len() - 1, s.last() + b) =~= split_path(a).push(b));
}

proof fn lemma_named_push(parts: Seq<Seq<char>>, segment: Seq<char>)
    ensures
        named_segments(parts.push(segment)) == if is_named(segment) {
            named_segments(parts).push(segment)
        } else {
            named_segments(parts)
        },
{
    assert(parts.push(segment).drop_last() =~= parts);
}

/// A path that ends in `/name`, where `name` holds no `/` and is neither
/// empty, `.` nor `..`, has the last component `name`.
pub proof fn law_file_name(dir: Seq<char>, name: Seq<char>)
    requires
        !name.contains('/'),
        is_named(name),
        name != seq!['.', '.'],
    ensures
        file_name(dir + seq!['/'] + name) == Some(name),
{
    lemma_split_path_segment(dir, name);
    lemma_named_push(split_path(dir), name);
}

/// The last component of `path` on Unix (`Path::file_name`).
pub fn path_file_name(path: &str) -> (res: Option<String>)
    ensures
        match res {
            Some(name) => file_name(path@) == Some(name@),
            None => file_name(path@) is None,
        },
{
    let len = path.unicode_len();
    let mut j: usize = len;
    assert(path@.take(len as int) =~= path@);
    loop
        invariant
            len == path@.len(),
            j <= len,
            file_name(path@) == file_name(path@.take(j as int)),
        decreases j,
    {
        let ghost j0 = j;
        while j > 0 && path.get_char(j - 1) == '/'
            invariant
                len == path@.len(),
                j <= j0 <= len,
                file_name(path@) == file_name(path@.take(j as int)),
            decreases j,
        {
            proof {
                let t = path@.take(j - 1);
                assert(path@.take(j as int) =~= t.push('/'));
                assert(t.push('/').drop_last() =~= t);
                lemma_named_push(split_path(t), Seq::empty());
            }
            j = j - 1;
        }
        if j == 0 {
            proof {
                assert(path@.take(0) =~= Seq::<char>::empty());
                assert(split_path(Seq::<char>::empty()) == seq![Seq::<char>::empty()]);
                assert(seq![Seq::<char>::empty()] =~= Seq::<Seq<char>>::empty().push(
                    Seq::<char>::empty(),
                ));
                lemma_named_push(Seq::<Seq<char>>::empty(), Seq::<char>::empty());
            }
            return None;
        }
        let mut i: usize = j;
        while i > 0 && path.get_char(i - 1) != '/'
            invariant
                len == path@.len(),
                i <= j <= len,
                forall|k: int| i <= k < j ==> path@[k] != '/',
            decreases i,
        {
            i = i - 1;
        }
        let segment = path.substring_char(i, j);
        let ghost seg = path@.subrange(i as int, j as int);
        assert(segment@ =~= seg);
        assert(!seg.contains('/')) by {
            if seg.contains('/') {
                let k = choose|k: int| 0 <= k < seg.len() && seg[k] == '/';
                assert(path@[i + k] == '/');
            }
        }
        assert(seg.len() > 0) by {
            assert(path@[j - 1] != '/');
        }
        proof {
            if i == 0 {
                assert(path@.take(j as int) =~= Seq::<char>::empty() + seg);
                lemma_split_path_extend(Seq::<char>::empty(), seg);
                let e = split_path(Seq::<char>::empty());
                assert(e == seq![Seq::<char>::empty()]);
                assert(Seq::<char>::empty() + seg =~= seg);
                assert(e.update(0, e.last() + seg) =~= Seq::<Seq<char>>::empty().push(seg));
                assert(split_path(path@.take(j as int)) =~= Seq::<Seq<char>>::empty().push(seg));
                lemma_named_push(Seq::<Seq<char>>::empty(), seg);
                assert(named_segments(Seq::<Seq<char>>::empty()) == Seq::<Seq<char>>::empty());
                assert(path@.take(0) =~= Seq::<char>::empty());
                assert(seq![Seq::<char>::empty()] =~= Seq::<Seq<char>>::empty().push(
                    Seq::<char>::empty(),
                ));
                lemma_named_push(Seq::<Seq<char>>::empty(), Seq::<char>::empty());
            } else {
                let a = path@.take(i - 1);
                assert(path@[i - 1] == '/');
                assert(path@.take(j as int) =~= a + seq!['/'] + seg);
                lemma_split_path_segment(a, seg);
                lemma_named_push(split_path(a), seg);
                assert(path@.take(i as int) =~= a.push('/'));
                assert(a.push('/').drop_last() =~= a);
                lemma_named_push(split_path(a), Seq::empty());
            }
        }
        if equals(segment, ".") {
            proof {
                reveal_strlit(".");
                assert(seg =~= seq!['.']);
            }
            j = i;
        } else {
            proof {
                reveal_strlit("..");
                assert(".."@ =~= seq!['.', '.']);
                reveal_strlit(".");
                assert("."@ =~= seq!['.']);
            }
            if equals(segment, "..") {
                return None;
            }
            return Some(segment.to_string());
        }
    }
}

} // verus!
