//! Character-level text operations with exact specifications.
use vstd::prelude::*;

verus! {

/// Characters with the Unicode `White_Space` property.
pub open spec fn is_space(c: char) -> bool {
    let n = c as u32;
    ||| 0x9 <= n <= 0xd
    ||| n == 0x20
    ||| n == 0x85
    ||| n == 0xa0
    ||| n == 0x1680
    ||| 0x2000 <= n <= 0x200a
    ||| n == 0x2028
    ||| n == 0x2029
    ||| n == 0x202f
    ||| n == 0x205f
    ||| n == 0x3000
}

/// Whether `c` is white space.
pub fn is_white_space(c: char) -> (b: bool)
    ensures
        b == is_space(c),
{
    let n: u32 = c as u32;
    (0x9 <= n && n <= 0xd) || n == 0x20 || n == 0x85 || n == 0xa0 || n == 0x1680 || (0x2000 <= n
        && n <= 0x200a) || n == 0x2028 || n == 0x2029 || n == 0x202f || n == 0x205f || n == 0x3000
}

/// Appends one character: `String::push` of the standard library.
pub assume_specification[ String::push ](s: &mut String, ch: char)
    ensures
        final(s)@ == old(s)@.push(ch),
;

/// The characters of `s`, in order.
pub fn chars_of(s: &str) -> (v: Vec<char>)
    ensures
        v@ == s@,
{
    let mut v: Vec<char> = Vec::new();
    for c in it: s.chars()
        invariant
            v@ == it.seq().take(it.index()),
            it.seq() == s@,
    {
        v.push(c);
    }
    v
}

/// The text made of the characters `v`, in order.
pub fn string_of(v: &[char]) -> (s: String)
    ensures
        s@ == v@,
{
    let mut s = String::new();
    let mut i: usize = 0;
    while i < v.len()
        invariant
            i <= v@.len(),
            s@ == v@.take(i as int),
        decreases v@.len() - i,
    {
        s.push(v[i]);
        i += 1;
        assert(v@.take(i as int) =~= v@.take(i - 1).push(v@[i - 1]));
    }
    assert(v@.take(i as int) =~= v@);
    s
}

/// The characters `v[from..to]`.
pub fn slice_chars(v: &[char], from: usize, to: usize) -> (r: Vec<char>)
    requires
        from <= to <= v@.len(),
    ensures
        r@ == v@.subrange(from as int, to as int),
{
    let mut r: Vec<char> = Vec::new();
    let mut i: usize = from;
    while i < to
        invariant
            from <= i <= to <= v@.len(),
            r@ == v@.subrange(from as int, i as int),
        decreases to - i,
    {
        r.push(v[i]);
        i += 1;
        assert(v@.subrange(from as int, i as int) =~= v@.subrange(from as int, i - 1).push(
            v@[i - 1],
        ));
    }
    r
}

/// Appends the characters `tail`.
pub fn append_chars(v: &mut Vec<char>, tail: &[char])
    ensures
        final(v)@ == old(v)@ + tail@,
{
    let mut i: usize = 0;
    while i < tail.len()
        invariant
            i <= tail@.len(),
            v@ == old(v)@ + tail@.take(i as int),
        decreases tail@.len() - i,
    {
        v.push(tail[i]);
        i += 1;
        assert(tail@.take(i as int) =~= tail@.take(i - 1).push(tail@[i - 1]));
        assert(v@ =~= old(v)@ + tail@.take(i as int));
    }
    assert(tail@.take(i as int) =~= tail@);
}

/// The number of ASCII digits that stand in `s` from position `i` on.
pub open spec fn digit_run(s: Seq<char>, i: int) -> nat
    decreases s.len() - i,
{
    if 0 <= i < s.len() && '0' <= s[i] && s[i] <= '9' {
        1 + digit_run(s, i + 1)
    } else {
        0
    }
}

/// The number of ASCII digits that stand in `v` from position `from` on.
pub fn digit_run_from(v: &[char], from: usize) -> (n: usize)
    ensures
        n == digit_run(v@, from as int),
        n > 0 ==> from + n <= v@.len(),
{
    let mut i: usize = from;
    while i < v.len() && '0' <= v[i] && v[i] <= '9'
        invariant
            from <= i,
            i > from ==> i <= v@.len(),
            digit_run(v@, from as int) == (i - from) + digit_run(v@, i as int),
        decreases v@.len() - i,
    {
        i += 1;
    }
    i - from
}

/// The last position of `c` in `s`.
pub open spec fn rfind(s: Seq<char>, c: char) -> Option<int>
    decreases s.len(),
{
    if s.len() == 0 {
        None
    } else if s.last() == c {
        Some(s.len() - 1)
    } else {
        rfind(s.drop_last(), c)
    }
}

/// The last position of `c` in `v`.
pub fn rfind_char(v: &[char], c: char) -> (r: Option<usize>)
    ensures
        match r {
            Some(k) => rfind(v@, c) == Some(k as int) && k < v@.len(),
            None => rfind(v@, c) is None,
        },
{
    let mut n: usize = v.len();
    assert(v@.take(n as int) =~= v@);
    while n > 0
        invariant
            n <= v@.len(),
            rfind(v@, c) == rfind(v@.take(n as int), c),
        decreases n,
    {
        if v[n - 1] == c {
            return Some(n - 1);
        }
        assert(v@.take(n as int).drop_last() =~= v@.take(n - 1));
        n -= 1;
    }
    None
}

/// `s` without its leading white space.
pub open spec fn trimmed_start(s: Seq<char>) -> Seq<char>
    decreases s.len(),
{
    if s.len() > 0 && is_space(s[0]) {
        trimmed_start(s.skip(1))
    } else {
        s
    }
}

/// `s` without its trailing white space.
pub open spec fn trimmed_end(s: Seq<char>) -> Seq<char>
    decreases s.len(),
{
    if s.len() > 0 && is_space(s.last()) {
        trimmed_end(s.drop_last())
    } else {
        s
    }
}

/// `s` without its leading and trailing white space.
pub open spec fn trimmed(s: Seq<char>) -> Seq<char> {
    trimmed_end(trimmed_start(s))
}

/// Drops leading white space.
pub fn trim_start_chars(v: &[char]) -> (r: Vec<char>)
    ensures
        r@ == trimmed_start(v@),
{
    let mut i: usize = 0;
    assert(v@.skip(0) =~= v@);
    while i < v.len() && is_white_space(v[i])
        invariant
            i <= v@.len(),
            trimmed_start(v@) == trimmed_start(v@.skip(i as int)),
        decreases v@.len() - i,
    {
        assert(v@.skip(i as int).skip(1) =~= v@.skip(i + 1));
        i += 1;
    }
    assert(v@.subrange(i as int, v@.len() as int) =~= v@.skip(i as int));
    slice_chars(v, i, v.len())
}

/// Drops trailing white space.
pub fn trim_end_chars(v: &[char]) -> (r: Vec<char>)
    ensures
        r@ == trimmed_end(v@),
{
    let mut n: usize = v.len();
    assert(v@.take(n as int) =~= v@);
    while n > 0 && is_white_space(v[n - 1])
        invariant
            n <= v@.len(),
            trimmed_end(v@) == trimmed_end(v@.take(n as int)),
        decreases n,
    {
        assert(v@.take(n as int).drop_last() =~= v@.take(n - 1));
        n -= 1;
    }
    assert(v@.subrange(0, n as int) =~= v@.take(n as int));
    slice_chars(v, 0, n)
}

/// Drops leading and trailing white space.
pub fn trim_chars(v: &[char]) -> (r: Vec<char>)
    ensures
        r@ == trimmed(v@),
{
    let start = trim_start_chars(v);
    trim_end_chars(start.as_slice())
}

/// Drops leading and trailing white space.
pub fn trim(s: &str) -> (r: String)
    ensures
        r@ == trimmed(s@),
{
    string_of(trim_chars(chars_of(s).as_slice()).as_slice())
}

/// Whether the two texts have the same characters.
pub fn same_chars(a: &[char], b: &[char]) -> (r: bool)
    ensures
        r == (a@ == b@),
{
    if a.len() != b.len() {
        return false;
    }
    let mut i: usize = 0;
    while i < a.len()
        invariant
            i <= a@.len(),
            a@.len() == b@.len(),
            a@.take(i as int) == b@.take(i as int),
        decreases a@.len() - i,
    {
        if a[i] != b[i] {
            return false;
        }
        assert(a@.take(i + 1) =~= a@.take(i as int).push(a@[i as int]));
        assert(b@.take(i + 1) =~= b@.take(i as int).push(b@[i as int]));
        i += 1;
    }
    assert(a@.take(i as int) =~= a@);
    assert(b@.take(i as int) =~= b@);
    true
}

/// Whether the two texts are equal.
pub fn same(a: &str, b: &str) -> (r: bool)
    ensures
        r == (a@ == b@),
{
    same_chars(chars_of(a).as_slice(), chars_of(b).as_slice())
}

/// `p` stands in `s` at position `i`.
pub open spec fn occurs_at(s: Seq<char>, p: Seq<char>, i: int) -> bool {
    0 <= i && i + p.len() <= s.len() && s.subrange(i, i + p.len()) == p
}

/// `p` stands somewhere in `s`.
pub open spec fn contains(s: Seq<char>, p: Seq<char>) -> bool {
    exists|i: int| occurs_at(s, p, i)
}

/// The first position, from `i` on, at which `p` stands in `s`.
pub open spec fn find_from(s: Seq<char>, p: Seq<char>, i: int) -> Option<int>
    decreases s.len() + 1 - i,
{
    if i + p.len() > s.len() {
        None
    } else if occurs_at(s, p, i) {
        Some(i)
    } else {
        find_from(s, p, i + 1)
    }
}

/// The first position at which `p` stands in `s`.
pub open spec fn find(s: Seq<char>, p: Seq<char>) -> Option<int> {
    find_from(s, p, 0)
}

/// What `find_from` yields is an occurrence, and none comes before it; it
/// yields nothing only where there is no occurrence.
pub proof fn find_from_is_first(s: Seq<char>, p: Seq<char>, i: int)
    requires
        0 <= i,
    ensures
        match find_from(s, p, i) {
            Some(k) => i <= k && occurs_at(s, p, k) && forall|j: int|
                i <= j < k ==> !occurs_at(s, p, j),
            None => forall|j: int| i <= j ==> !occurs_at(s, p, j),
        },
    decreases s.len() + 1 - i,
{
    if i + p.len() <= s.len() && !occurs_at(s, p, i) {
        find_from_is_first(s, p, i + 1);
    }
}

/// Whether `p` stands in `v` at position `i`.
pub fn matches_at(v: &[char], p: &[char], i: usize) -> (r: bool)
    ensures
        r == occurs_at(v@, p@, i as int),
{
    if v.len() < p.len() || i > v.len() - p.len() {
        return false;
    }
    let n: usize = v.len();
    let mut k: usize = 0;
    while k < p.len()
        invariant
            k <= p@.len(),
            i + p@.len() <= v@.len(),
            v@.len() == n,
            v@.subrange(i as int, i + k) == p@.take(k as int),
        decreases p@.len() - k,
    {
        if v[i + k] != p[k] {
            assert(v@.subrange(i as int, i + p@.len())[k as int] != p@[k as int]);
            return false;
        }
        assert(v@.subrange(i as int, i + k + 1) =~= v@.subrange(i as int, i + k).push(v@[i + k]));
        assert(p@.take(k + 1) =~= p@.take(k as int).push(p@[k as int]));
        k += 1;
    }
    assert(p@.take(k as int) =~= p@);
    true
}

/// The first position, from `from` on, at which `p` stands in `v`.
pub fn find_chars_from(v: &[char], p: &[char], from: usize) -> (r: Option<usize>)
    ensures
        match r {
            Some(k) => find_from(v@, p@, from as int) == Some(k as int),
            None => find_from(v@, p@, from as int) is None,
        },
        r matches Some(k) ==> from <= k && k + p@.len() <= v@.len(),
{
    let mut i: usize = from;
    while i < v.len() && p.len() <= v.len() - i
        invariant
            from <= i,
            find_from(v@, p@, from as int) == find_from(v@, p@, i as int),
        decreases v@.len() - i,
    {
        if matches_at(v, p, i) {
            return Some(i);
        }
        i += 1;
    }
    if i == v.len() && p.len() == 0 {
        assert(v@.subrange(i as int, i as int) =~= p@);
        return Some(i);
    }
    None
}

/// The first position at which `p` stands in `v`.
pub fn find_chars(v: &[char], p: &str) -> (r: Option<usize>)
    ensures
        match r {
            Some(k) => find(v@, p@) == Some(k as int),
            None => find(v@, p@) is None,
        },
        r matches Some(k) ==> k + p@.len() <= v@.len(),
{
    find_chars_from(v, chars_of(p).as_slice(), 0)
}

/// Whether `p` stands somewhere in `v`.
pub fn has(v: &[char], p: &str) -> (r: bool)
    ensures
        r == contains(v@, p@),
{
    proof {
        find_from_is_first(v@, p@, 0);
    }
    let at = find_chars(v, p);
    match at {
        Some(k) => {
            assert(occurs_at(v@, p@, k as int));
            true
        },
        None => false,
    }
}

/// Whether `v` begins with `p`.
pub fn begins_with(v: &[char], p: &str) -> (r: bool)
    ensures
        r == p@.is_prefix_of(v@),
{
    let pat = chars_of(p);
    let r = matches_at(v, pat.as_slice(), 0);
    proof {
        if p@.len() <= v@.len() {
            assert(v@.subrange(0, p@.len() as int) =~= v@.take(p@.len() as int));
        }
    }
    r
}

/// Whether `v` ends with `p`.
pub fn ends_with(v: &[char], p: &str) -> (r: bool)
    ensures
        r == p@.is_suffix_of(v@),
{
    let pat = chars_of(p);
    if pat.len() > v.len() {
        return false;
    }
    let r = matches_at(v, pat.as_slice(), v.len() - pat.len());
    proof {
        assert(v@.subrange(v@.len() - p@.len(), v@.len() as int) =~= v@.skip(v@.len() - p@.len()));
    }
    r
}

/// ASCII upper case of one character; other characters stay as they are.
pub open spec fn ascii_upper(c: char) -> char {
    if 'a' <= c && c <= 'z' {
        ((c as u32) - 32) as char
    } else {
        c
    }
}

/// `s` with its ASCII letters in upper case.
pub open spec fn ascii_uppercase(s: Seq<char>) -> Seq<char> {
    Seq::new(s.len(), |i: int| ascii_upper(s[i]))
}

/// The two texts are equal up to the case of ASCII letters.
pub open spec fn same_ignoring_case(a: Seq<char>, b: Seq<char>) -> bool {
    ascii_uppercase(a) == ascii_uppercase(b)
}

/// ASCII upper case of one character.
pub fn to_ascii_upper(c: char) -> (r: char)
    ensures
        r == ascii_upper(c),
{
    if 'a' <= c && c <= 'z' {
        ((c as u8) - 32) as char
    } else {
        c
    }
}

/// The characters of `v` with ASCII letters in upper case.
pub fn to_ascii_uppercase(v: &[char]) -> (r: Vec<char>)
    ensures
        r@ == ascii_uppercase(v@),
{
    let mut r: Vec<char> = Vec::new();
    let mut i: usize = 0;
    while i < v.len()
        invariant
            i <= v@.len(),
            r@.len() == i,
            forall|k: int| 0 <= k < i ==> r@[k] == ascii_upper(v@[k]),
        decreases v@.len() - i,
    {
        r.push(to_ascii_upper(v[i]));
        i += 1;
    }
    assert(r@ =~= ascii_uppercase(v@));
    r
}

/// Whether the two texts are equal up to the case of ASCII letters.
pub fn eq_ignore_case(a: &str, b: &str) -> (r: bool)
    ensures
        r == same_ignoring_case(a@, b@),
{
    let ua = to_ascii_uppercase(chars_of(a).as_slice());
    let ub = to_ascii_uppercase(chars_of(b).as_slice());
    same_chars(ua.as_slice(), ub.as_slice())
}

/// The character that stands for a decimal digit.
pub open spec fn digit_char(d: int) -> char {
    (48 + d) as char
}

/// `n` in decimal, without leading zeros.
pub open spec fn decimal(n: nat) -> Seq<char>
    decreases n,
{
    if n < 10 {
        seq![digit_char(n as int)]
    } else {
        decimal(n / 10).push(digit_char((n % 10) as int))
    }
}

/// `n` in decimal, with a minus sign where it is negative.
pub open spec fn signed_decimal(n: int) -> Seq<char> {
    if n < 0 {
        seq!['-'] + decimal((-n) as nat)
    } else {
        decimal(n as nat)
    }
}

/// The character of one decimal digit.
pub fn to_digit_char(d: u64) -> (c: char)
    requires
        d < 10,
    ensures
        c == digit_char(d as int),
{
    (48u8 + d as u8) as char
}

/// `n` in decimal.
pub fn decimal_chars(n: u64) -> (r: Vec<char>)
    ensures
        r@ == decimal(n as nat),
    decreases n,
{
    if n < 10 {
        let mut r: Vec<char> = Vec::new();
        r.push(to_digit_char(n));
        assert(r@ =~= decimal(n as nat));
        r
    } else {
        let mut r = decimal_chars(n / 10);
        r.push(to_digit_char(n % 10));
        r
    }
}

/// `n` in decimal.
pub fn decimal_text(n: u64) -> (r: String)
    ensures
        r@ == decimal(n as nat),
{
    string_of(decimal_chars(n).as_slice())
}

/// `n` in decimal, with its sign.
pub fn signed_text(n: i64) -> (r: String)
    ensures
        r@ == signed_decimal(n as int),
{
    if n < 0 {
        let mut r = String::new();
        r.push('-');
        let magnitude: u64 = if n == i64::MIN {
            0x8000_0000_0000_0000
        } else {
            (-n) as u64
        };
        r.append(decimal_text(magnitude).as_str());
        assert(r@ =~= signed_decimal(n as int));
        r
    } else {
        decimal_text(n as u64)
    }
}

/// Every character is an ASCII digit.
pub open spec fn all_digits(s: Seq<char>) -> bool {
    forall|i: int| 0 <= i < s.len() ==> '0' <= #[trigger] s[i] && s[i] <= '9'
}

/// The number that a text of decimal digits stands for.
pub open spec fn digits_value(s: Seq<char>) -> nat
    decreases s.len(),
{
    if s.len() == 0 {
        0
    } else {
        digits_value(s.drop_last()) * 10 + ((s.last() as u32 - 48) as nat)
    }
}

/// The number that a non-empty text of digits stands for.
pub open spec fn unsigned_value(s: Seq<char>) -> Option<nat> {
    if s.len() > 0 && all_digits(s) {
        Some(digits_value(s))
    } else {
        None
    }
}

/// The integer that a text stands for: digits, with a sign in front or none.
pub open spec fn integer_value(s: Seq<char>) -> Option<int> {
    if s.len() > 0 && s[0] == '-' {
        match unsigned_value(s.skip(1)) {
            Some(n) => Some(-n),
            None => None,
        }
    } else if s.len() > 0 && s[0] == '+' {
        match unsigned_value(s.skip(1)) {
            Some(n) => Some(n as int),
            None => None,
        }
    } else {
        match unsigned_value(s) {
            Some(n) => Some(n as int),
            None => None,
        }
    }
}

/// The integer that a text stands for, where it fits in 64 signed bits.
pub open spec fn i64_value(s: Seq<char>) -> Option<i64> {
    match integer_value(s) {
        Some(n) => if i64::MIN <= n <= i64::MAX {
            Some(n as i64)
        } else {
            None
        },
        None => None,
    }
}

/// The number that a text stands for, where it fits in 64 unsigned bits; a
/// minus sign is not accepted.
pub open spec fn u64_value(s: Seq<char>) -> Option<u64> {
    let digits = if s.len() > 0 && s[0] == '+' {
        s.skip(1)
    } else {
        s
    };
    match unsigned_value(digits) {
        Some(n) => if n <= u64::MAX {
            Some(n as u64)
        } else {
            None
        },
        None => None,
    }
}

/// Reads the digits from position `from` on.
fn read_digits(v: &[char], from: usize) -> (r: Option<u64>)
    requires
        from <= v@.len(),
    ensures
        match r {
            Some(n) => unsigned_value(v@.skip(from as int)) == Some(n as nat),
            None => match unsigned_value(v@.skip(from as int)) {
                Some(n) => n > u64::MAX,
                None => true,
            },
        },
{
    let ghost s = v@.skip(from as int);
    if from == v.len() {
        return None;
    }
    let mut n: u64 = 0;
    let mut over: bool = false;
    let mut i: usize = from;
    assert(s.take(0) =~= Seq::<char>::empty());
    while i < v.len()
        invariant
            from <= i <= v@.len(),
            s == v@.skip(from as int),
            forall|k: int| 0 <= k < i - from ==> '0' <= #[trigger] s[k] && s[k] <= '9',
            !over ==> n == digits_value(s.take(i - from)),
            over ==> digits_value(s.take(i - from)) > u64::MAX,
        decreases v@.len() - i,
    {
        let c: char = v[i];
        if !('0' <= c && c <= '9') {
            assert(s[i - from] == c);
            return None;
        }
        let d: u64 = (c as u32 - 48) as u64;
        assert(s.take(i - from + 1).drop_last() =~= s.take(i - from));
        if !over {
            if n > 0x1999_9999_9999_9999 || (n == 0x1999_9999_9999_9999 && d > 5) {
                over = true;
            } else {
                n = n * 10 + d;
            }
        }
        i += 1;
    }
    assert(s.take(i - from) =~= s);
    if over {
        None
    } else {
        Some(n)
    }
}

/// Reads a signed integer, as the standard library's parser for `i64` does.
pub fn parse_i64(s: &str) -> (r: Option<i64>)
    ensures
        r == i64_value(s@),
{
    let v = chars_of(s);
    assert(v@.skip(0) =~= v@);
    if v.len() > 0 && v[0] == '-' {
        match read_digits(v.as_slice(), 1) {
            Some(n) => if n < 0x8000_0000_0000_0000 {
                Some(-(n as i64))
            } else if n == 0x8000_0000_0000_0000 {
                Some(i64::MIN)
            } else {
                None
            },
            None => None,
        }
    } else {
        let from: usize = if v.len() > 0 && v[0] == '+' {
            1
        } else {
            0
        };
        match read_digits(v.as_slice(), from) {
            Some(n) => if n < 0x8000_0000_0000_0000 {
                Some(n as i64)
            } else {
                None
            },
            None => None,
        }
    }
}

/// Reads an unsigned integer, as the standard library's parser for `u64` does.
pub fn parse_u64(s: &str) -> (r: Option<u64>)
    ensures
        r == u64_value(s@),
{
    let v = chars_of(s);
    assert(v@.skip(0) =~= v@);
    if v.len() > 0 && v[0] == '+' {
        read_digits(v.as_slice(), 1)
    } else {
        read_digits(v.as_slice(), 0)
    }
}

/// A text in lower case, by the full Unicode mapping.
pub uninterp spec fn lowercase(s: Seq<char>) -> Seq<char>;

/// A text in upper case, by the full Unicode mapping.
pub uninterp spec fn uppercase(s: Seq<char>) -> Seq<char>;

/// ASCII lower case of one character; other characters stay as they are.
pub open spec fn ascii_lower(c: char) -> char {
    if 'A' <= c && c <= 'Z' {
        ((c as u32) + 32) as char
    } else {
        c
    }
}

/// `s` with its ASCII letters in lower case.
pub open spec fn ascii_lowercase(s: Seq<char>) -> Seq<char> {
    Seq::new(s.len(), |i: int| ascii_lower(s[i]))
}

/// A text in lower case; one of ASCII characters letter by letter.
pub open spec fn lower(s: Seq<char>) -> Seq<char> {
    if vstd::utf8::is_ascii_chars(s) {
        ascii_lowercase(s)
    } else {
        lowercase(s)
    }
}

/// A text in upper case; one of ASCII characters letter by letter. The case of the
/// text's ASCII letters makes no difference.
pub open spec fn upper(s: Seq<char>) -> Seq<char> {
    if vstd::utf8::is_ascii_chars(s) {
        ascii_uppercase(s)
    } else {
        uppercase(ascii_uppercase(s))
    }
}

/// `str::to_lowercase` of the standard library. The result is named; of a
/// text of ASCII characters it is the text with its letters in lower case.
#[verifier::external_body]
pub(crate) fn to_lowercase(s: &str) -> (r: String)
    ensures
        r@ == lowercase(s@),
        vstd::utf8::is_ascii_chars(s@) ==> r@ == ascii_lowercase(s@),
{
    s.to_lowercase()
}

/// `str::to_uppercase` of the standard library. The result is named; of a
/// text of ASCII characters it is the text with its letters in upper case, and
/// of any text it is the same where its ASCII letters are in upper case already.
#[verifier::external_body]
pub(crate) fn to_uppercase(s: &str) -> (r: String)
    ensures
        r@ == uppercase(s@),
        vstd::utf8::is_ascii_chars(s@) ==> r@ == ascii_uppercase(s@),
        r@ == uppercase(ascii_uppercase(s@)),
{
    s.to_uppercase()
}

/// Leading white space is all that is dropped at the start.
pub(crate) proof fn start_is_part(s: Seq<char>)
    ensures
        trimmed_start(s).len() <= s.len(),
        trimmed_start(s) == s.subrange(s.len() - trimmed_start(s).len(), s.len() as int),
    decreases s.len(),
{
    if s.len() > 0 && is_space(s[0]) {
        start_is_part(s.skip(1));
        let n = trimmed_start(s).len();
        assert(s.skip(1).subrange(s.len() - 1 - n, s.len() - 1) =~= s.subrange(
            s.len() - n,
            s.len() as int,
        ));
    } else {
        assert(s =~= s.subrange(0, s.len() as int));
    }
}

/// Trailing white space is all that is dropped at the end.
pub(crate) proof fn end_is_part(s: Seq<char>)
    ensures
        trimmed_end(s).len() <= s.len(),
        trimmed_end(s) == s.subrange(0, trimmed_end(s).len() as int),
    decreases s.len(),
{
    if s.len() > 0 && is_space(s.last()) {
        end_is_part(s.drop_last());
        let n = trimmed_end(s).len();
        assert(s.drop_last().subrange(0, n as int) =~= s.subrange(0, n as int));
    } else {
        assert(s =~= s.subrange(0, s.len() as int));
    }
}

/// White space at the ends can only make a text shorter.
pub(crate) proof fn trimmed_is_shorter(s: Seq<char>)
    ensures
        trimmed(s).len() <= s.len(),
{
    start_is_part(s);
    end_is_part(trimmed_start(s));
}

/// An optional text by its characters.
pub open spec fn text_view(s: Option<String>) -> Option<Seq<char>> {
    match s {
        Some(t) => Some(t@),
        None => None,
    }
}

/// An optional text by its characters.
pub open spec fn str_view(s: Option<&str>) -> Option<Seq<char>> {
    match s {
        Some(t) => Some(t@),
        None => None,
    }
}

/// A list of optional texts, each by its characters.
pub open spec fn text_views(v: Seq<Option<String>>) -> Seq<Option<Seq<char>>> {
    Seq::new(v.len(), |i: int| text_view(v[i]))
}

/// A list of texts, each by its characters.
pub open spec fn string_views(v: Seq<String>) -> Seq<Seq<char>> {
    Seq::new(v.len(), |i: int| v[i]@)
}

/// The number of bytes of a character in UTF-8.
pub open spec fn width(c: char) -> nat {
    vstd::utf8::encode_scalar(c as u32).len()
}

/// The number of leading characters of `s` that fit in `limit` bytes.
pub open spec fn fitting(s: Seq<char>, limit: int) -> nat
    decreases s.len(),
{
    if s.len() > 0 && width(s[0]) <= limit {
        1 + fitting(s.skip(1), limit - width(s[0]))
    } else {
        0
    }
}

/// The number of bytes of a text in UTF-8.
pub open spec fn byte_len(s: Seq<char>) -> nat {
    vstd::utf8::encode_utf8(s).len()
}

/// The number of bytes of a character in UTF-8.
pub fn width_of(c: char) -> (r: usize)
    ensures
        r == width(c),
        1 <= r <= 4,
{
    let n: u32 = c as u32;
    if n <= 0x7f {
        1
    } else if n <= 0x7ff {
        2
    } else if n <= 0xffff {
        3
    } else {
        4
    }
}

/// The leading characters of a text that fit in a number of bytes do fit, and
/// one more would not.
pub proof fn fitting_is_longest(s: Seq<char>, limit: int)
    requires
        0 <= limit,
    ensures
        fitting(s, limit) <= s.len(),
        byte_len(s.take(fitting(s, limit) as int)) <= limit,
        fitting(s, limit) < s.len() ==> byte_len(s.take(fitting(s, limit) + 1int)) > limit,
        fitting(s, limit) == s.len() <==> byte_len(s) <= limit,
    decreases s.len(),
{
    let k = fitting(s, limit) as int;
    if s.len() > 0 {
        let c = s[0];
        assert(s.skip(1) =~= s.drop_first());
        assert(byte_len(s) == width(c) + byte_len(s.skip(1)));
        if width(c) <= limit {
            fitting_is_longest(s.skip(1), limit - width(c));
            let t = s.take(k);
            assert(t.drop_first() =~= s.skip(1).take(k - 1));
            assert(byte_len(t) == width(c) + byte_len(s.skip(1).take(k - 1)));
            if k < s.len() {
                let u = s.take(k + 1);
                assert(u.drop_first() =~= s.skip(1).take(k));
                assert(byte_len(u) == width(c) + byte_len(s.skip(1).take(k)));
            }
        } else {
            assert(s.take(0) =~= Seq::<char>::empty());
            assert(s.take(1) =~= Seq::<char>::empty().push(c));
            push_adds_width(Seq::<char>::empty(), c);
            assert(byte_len(Seq::<char>::empty()) == 0);
        }
    } else {
        assert(s.take(0) =~= s);
    }
}

/// One more character adds its own bytes.
pub proof fn push_adds_width(s: Seq<char>, c: char)
    ensures
        byte_len(s.push(c)) == byte_len(s) + width(c),
    decreases s.len(),
{
    let t = s.push(c);
    if s.len() == 0 {
        assert(t.drop_first() =~= Seq::<char>::empty());
        assert(byte_len(Seq::<char>::empty()) == 0);
    } else {
        assert(t.drop_first() =~= s.drop_first().push(c));
        push_adds_width(s.drop_first(), c);
    }
}

/// The number of leading characters of `v` that fit in `limit` bytes.
pub fn fitting_count(v: &[char], limit: usize) -> (r: usize)
    ensures
        r == fitting(v@, limit as int),
        r <= v@.len(),
{
    let mut i: usize = 0;
    let mut left: usize = limit;
    assert(v@.skip(0) =~= v@);
    while i < v.len()
        invariant
            i <= v@.len(),
            fitting(v@, limit as int) == i + fitting(v@.skip(i as int), left as int),
        decreases v@.len() - i,
    {
        let w: usize = width_of(v[i]);
        if w > left {
            return i;
        }
        assert(v@.skip(i as int).skip(1) =~= v@.skip(i + 1));
        left -= w;
        i += 1;
    }
    i
}

/// `s` without the characters `c` at its end.
pub open spec fn without_trailing(s: Seq<char>, c: char) -> Seq<char>
    decreases s.len(),
{
    if s.len() > 0 && s.last() == c {
        without_trailing(s.drop_last(), c)
    } else {
        s
    }
}

/// Drops the characters `c` at the end.
pub fn strip_trailing(v: &mut Vec<char>, c: char)
    ensures
        final(v)@ == without_trailing(old(v)@, c),
{
    let ghost whole = v@;
    while v.len() > 0 && v[v.len() - 1] == c
        invariant
            without_trailing(whole, c) == without_trailing(v@, c),
        decreases v@.len(),
    {
        let ghost before = v@;
        v.pop();
        assert(v@ =~= before.drop_last());
    }
}

/// A text of nothing but white space.
pub open spec fn is_blank(s: Seq<char>) -> bool {
    forall|i: int| 0 <= i < s.len() ==> is_space(#[trigger] s[i])
}

/// White space in front of a text is dropped.
pub(crate) proof fn start_drops_blank(blank: Seq<char>, s: Seq<char>)
    requires
        is_blank(blank),
    ensures
        trimmed_start(blank + s) == trimmed_start(s),
    decreases blank.len(),
{
    if blank.len() == 0 {
        assert(blank + s =~= s);
    } else {
        assert((blank + s)[0] == blank[0]);
        assert((blank + s).skip(1) =~= blank.skip(1) + s);
        start_drops_blank(blank.skip(1), s);
    }
}

/// White space behind a text is dropped.
pub(crate) proof fn end_drops_blank(s: Seq<char>, blank: Seq<char>)
    requires
        is_blank(blank),
    ensures
        trimmed_end(s + blank) == trimmed_end(s),
    decreases blank.len(),
{
    if blank.len() == 0 {
        assert(s + blank =~= s);
    } else {
        assert((s + blank).last() == blank.last());
        assert((s + blank).drop_last() =~= s + blank.drop_last());
        end_drops_blank(s, blank.drop_last());
    }
}

/// White space at the end is dropped with that at the start.
pub(crate) proof fn trimmed_drops_end(s: Seq<char>, blank: Seq<char>)
    requires
        is_blank(blank),
    ensures
        trimmed(s + blank) == trimmed(s),
    decreases s.len(),
{
    if s.len() == 0 {
        assert(s + blank =~= blank + s);
        start_drops_blank(blank, s);
    } else if is_space(s[0]) {
        assert((s + blank)[0] == s[0]);
        assert((s + blank).skip(1) =~= s.skip(1) + blank);
        trimmed_drops_end(s.skip(1), blank);
    } else {
        assert((s + blank)[0] == s[0]);
        end_drops_blank(s, blank);
    }
}

/// What is left of a text at its start does not begin with white space, and stays
/// in front of what follows the text.
pub(crate) proof fn start_goes_on(s: Seq<char>, rest: Seq<char>)
    ensures
        trimmed_start(s).len() > 0 ==> !is_space(trimmed_start(s)[0]) && trimmed_start(s + rest)
            == trimmed_start(s) + rest,
    decreases s.len(),
{
    if s.len() > 0 {
        assert((s + rest)[0] == s[0]);
        if is_space(s[0]) {
            assert((s + rest).skip(1) =~= s.skip(1) + rest);
            start_goes_on(s.skip(1), rest);
        }
    }
}

/// What is left of a text at its end does not end with white space, and begins as
/// the text does.
pub(crate) proof fn end_settles(s: Seq<char>)
    ensures
        trimmed_end(s).len() > 0 ==> !is_space(trimmed_end(s).last()) && trimmed_end(s)[0] == s[0],
        trimmed_end(trimmed_end(s)) == trimmed_end(s),
        s.len() > 0 && !is_space(s[0]) ==> trimmed_end(s).len() > 0,
    decreases s.len(),
{
    if s.len() > 0 && is_space(s.last()) {
        end_settles(s.drop_last());
    }
}

/// A run of a character at the end is dropped whole.
pub(crate) proof fn trailing_goes(s: Seq<char>, run: Seq<char>, c: char)
    requires
        forall|i: int| 0 <= i < run.len() ==> #[trigger] run[i] == c,
    ensures
        without_trailing(s + run, c) == without_trailing(s, c),
    decreases run.len(),
{
    if run.len() == 0 {
        assert(s + run =~= s);
    } else {
        assert((s + run).last() == run.last());
        assert((s + run).drop_last() =~= s + run.drop_last());
        trailing_goes(s, run.drop_last(), c);
    }
}

/// Case makes no difference to what is dropped at the ends of a text.
pub(crate) proof fn trimmed_keeps_case(s: Seq<char>)
    ensures
        trimmed(ascii_uppercase(s)) == ascii_uppercase(trimmed(s)),
{
    start_keeps_case(s);
    end_keeps_case(trimmed_start(s));
}

proof fn start_keeps_case(s: Seq<char>)
    ensures
        trimmed_start(ascii_uppercase(s)) == ascii_uppercase(trimmed_start(s)),
    decreases s.len(),
{
    if s.len() > 0 && is_space(s[0]) {
        assert(ascii_uppercase(s).skip(1) =~= ascii_uppercase(s.skip(1)));
        start_keeps_case(s.skip(1));
    }
}

proof fn end_keeps_case(s: Seq<char>)
    ensures
        trimmed_end(ascii_uppercase(s)) == ascii_uppercase(trimmed_end(s)),
    decreases s.len(),
{
    if s.len() > 0 && is_space(s.last()) {
        assert(ascii_uppercase(s).drop_last() =~= ascii_uppercase(s.drop_last()));
        end_keeps_case(s.drop_last());
    }
}

/// Case makes no difference to a run at the end that is no letter.
pub(crate) proof fn trailing_keeps_case(s: Seq<char>, c: char)
    requires
        !('a' <= c && c <= 'z'),
        !('A' <= c && c <= 'Z'),
    ensures
        without_trailing(ascii_uppercase(s), c) == ascii_uppercase(without_trailing(s, c)),
    decreases s.len(),
{
    if s.len() > 0 && s.last() == c {
        assert(ascii_uppercase(s).drop_last() =~= ascii_uppercase(s.drop_last()));
        trailing_keeps_case(s.drop_last(), c);
    }
}

/// Texts that differ in the case of ASCII letters alone have one upper case.
pub(crate) proof fn upper_ignores_case(a: Seq<char>, b: Seq<char>)
    requires
        same_ignoring_case(a, b),
    ensures
        upper(a) == upper(b),
{
    case_keeps_ascii(a);
    case_keeps_ascii(b);
}

/// Case makes no difference to whether a text is of ASCII characters.
proof fn case_keeps_ascii(s: Seq<char>)
    ensures
        vstd::utf8::is_ascii_chars(ascii_uppercase(s)) == vstd::utf8::is_ascii_chars(s),
{
    let u = ascii_uppercase(s);
    assert forall|i: int| 0 <= i < s.len() implies (s[i] <= '\u{7f}') == (u[i] <= '\u{7f}') by {
        assert(u[i] == ascii_upper(s[i]));
    }
    if vstd::utf8::is_ascii_chars(u) {
        assert forall|i: int| 0 <= i < s.len() implies '\0' <= #[trigger] s[i] <= '\u{7f}' by {
            assert('\0' <= u[i] <= '\u{7f}');
        }
    }
    if vstd::utf8::is_ascii_chars(s) {
        assert forall|i: int| 0 <= i < u.len() implies '\0' <= #[trigger] u[i] <= '\u{7f}' by {
            assert('\0' <= s[i] <= '\u{7f}');
        }
    }
}

/// What is left of a text without a run at its end is its beginning.
pub(crate) proof fn trailing_is_part(s: Seq<char>, c: char)
    ensures
        without_trailing(s, c).len() <= s.len(),
        without_trailing(s, c) == s.subrange(0, without_trailing(s, c).len() as int),
    decreases s.len(),
{
    if s.len() > 0 && s.last() == c {
        trailing_is_part(s.drop_last(), c);
        let n = without_trailing(s, c).len();
        assert(s.drop_last().subrange(0, n as int) =~= s.subrange(0, n as int));
    } else {
        assert(s =~= s.subrange(0, s.len() as int));
    }
}

/// The value of a decimal digit is that of the character that stands for it.
proof fn digit_stands(d: int)
    requires
        0 <= d < 10,
    ensures
        '0' <= digit_char(d) <= '9',
        digit_char(d) as u32 - 48 == d,
{
}

/// Decimal digits read back as the number that they were written for.
pub proof fn decimals_read_back(n: nat)
    ensures
        unsigned_value(decimal(n)) == Some(n),
        n > 0 ==> decimal(n)[0] != '0',
    decreases n,
{
    let s = decimal(n);
    if n < 10 {
        digit_stands(n as int);
        assert(s.drop_last() =~= Seq::<char>::empty());
        assert(digits_value(s.drop_last()) == 0);
    } else {
        digit_stands((n % 10) as int);
        decimals_read_back(n / 10);
        assert(s.drop_last() =~= decimal(n / 10));
        assert(s[0] == decimal(n / 10)[0]);
        assert forall|i: int| 0 <= i < s.len() implies '0' <= #[trigger] s[i] && s[i] <= '9' by {
            if i < s.len() - 1 {
                assert(s[i] == decimal(n / 10)[i]);
            }
        }
    }
}

/// An integer that is written in decimal reads back as itself, sign included.
pub proof fn integers_read_back(n: int)
    ensures
        integer_value(signed_decimal(n)) == Some(n),
        n < 0 <==> signed_decimal(n)[0] == '-',
        i64::MIN <= n <= i64::MAX ==> i64_value(signed_decimal(n)) == Some(n as i64),
        0 <= n <= u64::MAX ==> u64_value(signed_decimal(n)) == Some(n as u64),
{
    if n < 0 {
        decimals_read_back((-n) as nat);
        assert(signed_decimal(n).skip(1) =~= decimal((-n) as nat));
    } else {
        decimals_read_back(n as nat);
        assert('0' <= decimal(n as nat)[0] <= '9');
    }
}

/// Zeros in front of digits do not change their value.
pub(crate) proof fn zeros_add_nothing(zeros: Seq<char>, digits: Seq<char>)
    requires
        forall|i: int| 0 <= i < zeros.len() ==> #[trigger] zeros[i] == '0',
        all_digits(digits),
    ensures
        all_digits(zeros + digits),
        digits_value(zeros + digits) == digits_value(digits),
    decreases zeros.len() + digits.len(),
{
    let s = zeros + digits;
    if digits.len() > 0 {
        assert(s.drop_last() =~= zeros + digits.drop_last());
        zeros_add_nothing(zeros, digits.drop_last());
    } else if zeros.len() > 0 {
        assert(s.drop_last() =~= zeros.drop_last() + digits);
        assert(s.last() == zeros.last());
        zeros_add_nothing(zeros.drop_last(), digits);
    }
}

/// A power of ten.
pub open spec fn ten_to(n: nat) -> nat
    decreases n,
{
    if n == 0 {
        1
    } else {
        10 * ten_to((n - 1) as nat)
    }
}

/// A number below a power of ten has no more digits than its exponent.
pub(crate) proof fn digits_fit(n: nat, width: nat)
    requires
        width >= 1,
        n < ten_to(width),
    ensures
        1 <= decimal(n).len() <= width,
    decreases width,
{
    if n >= 10 {
        assert(ten_to(1) == 10 * ten_to(0));
        assert(width >= 2);
        assert(n / 10 < ten_to((width - 1) as nat));
        digits_fit(n / 10, (width - 1) as nat);
    }
}

/// A text without white space at its ends is what is left of it within any white
/// space.
pub proof fn trimming_finds_the_core(before: Seq<char>, core: Seq<char>, after: Seq<char>)
    requires
        is_blank(before),
        is_blank(after),
        core.len() > 0 ==> !is_space(core[0]) && !is_space(core.last()),
    ensures
        trimmed(before + core + after) == core,
{
    assert(before + core + after =~= before + (core + after));
    start_drops_blank(before, core + after);
    trimmed_drops_end(core, after);
}

/// Lower and upper case keep the length of a text of ASCII characters, and lower
/// case of the upper case is the lower case.
pub proof fn ascii_cases_agree(s: Seq<char>)
    requires
        vstd::utf8::is_ascii_chars(s),
    ensures
        lower(s).len() == s.len(),
        upper(s).len() == s.len(),
        same_ignoring_case(lower(s), s),
        same_ignoring_case(upper(s), s),
        forall|i: int| 0 <= i < s.len() ==> !('A' <= #[trigger] lower(s)[i] <= 'Z'),
        forall|i: int| 0 <= i < s.len() ==> !('a' <= #[trigger] upper(s)[i] <= 'z'),
{
    assert forall|i: int| 0 <= i < s.len() implies ascii_upper(#[trigger] lower(s)[i])
        == ascii_upper(s[i]) by {
        let c = s[i];
        if 'A' <= c && c <= 'Z' {
            assert(lower(s)[i] as u32 == c as u32 + 32);
        }
    }
    assert(ascii_uppercase(lower(s)) =~= ascii_uppercase(s));
    assert(ascii_uppercase(upper(s)) =~= ascii_uppercase(s));
}

/// Texts of ASCII characters that differ in case alone have one lower case.
pub(crate) proof fn lower_ignores_case(a: Seq<char>, b: Seq<char>)
    requires
        vstd::utf8::is_ascii_chars(b),
        same_ignoring_case(a, b),
    ensures
        vstd::utf8::is_ascii_chars(a),
        lower(a) == lower(b),
{
    case_keeps_ascii(a);
    case_keeps_ascii(b);
    let u = ascii_uppercase(a);
    let v = ascii_uppercase(b);
    assert(u.len() == a.len() && v.len() == b.len());
    assert forall|i: int| 0 <= i < a.len() implies ascii_lower(a[i]) == ascii_lower(b[i]) by {
        assert(u[i] == v[i]);
        assert(ascii_upper(a[i]) == ascii_upper(b[i]));
        cases_are_paired(a[i], b[i]);
    }
    assert(ascii_lowercase(a) =~= ascii_lowercase(b));
}

/// Characters with one upper case have one lower case.
proof fn cases_are_paired(a: char, b: char)
    requires
        ascii_upper(a) == ascii_upper(b),
    ensures
        ascii_lower(a) == ascii_lower(b),
{
    let x = a as u32;
    let y = b as u32;
    if 'a' <= a && a <= 'z' {
        assert(ascii_upper(a) as u32 == x - 32);
    }
    if 'a' <= b && b <= 'z' {
        assert(ascii_upper(b) as u32 == y - 32);
    }
    if 'A' <= a && a <= 'Z' {
        assert(ascii_lower(a) as u32 == x + 32);
    }
    if 'A' <= b && b <= 'Z' {
        assert(ascii_lower(b) as u32 == y + 32);
    }
}

/// Texts that are the same in any case differ, letter by letter, by nothing but the
/// case of ASCII letters.
#[verifier::rlimit(50)]
pub proof fn only_letters_have_case(a: Seq<char>, b: Seq<char>)
    ensures
        same_ignoring_case(a, b) <==> a.len() == b.len() && forall|i: int|
            0 <= i < a.len() ==> (#[trigger] a[i] == b[i] || ('a' <= a[i] <= 'z' && a[i] as u32
                == b[i] as u32 + 32) || ('a' <= b[i] <= 'z' && b[i] as u32 == a[i] as u32 + 32)),
{
    let u = ascii_uppercase(a);
    let v = ascii_uppercase(b);
    if u == v {
        assert(u.len() == a.len() && v.len() == b.len());
        assert forall|i: int| 0 <= i < a.len() implies (#[trigger] a[i] == b[i] || ('a' <= a[i]
            <= 'z' && a[i] as u32 == b[i] as u32 + 32) || ('a' <= b[i] <= 'z' && b[i] as u32
            == a[i] as u32 + 32)) by {
            assert(u[i] == ascii_upper(a[i]) && v[i] == ascii_upper(b[i]));
        }
    }
    if a.len() == b.len() && forall|i: int|
        0 <= i < a.len() ==> (#[trigger] a[i] == b[i] || ('a' <= a[i] <= 'z' && a[i] as u32
            == b[i] as u32 + 32) || ('a' <= b[i] <= 'z' && b[i] as u32 == a[i] as u32 + 32)) {
        assert forall|i: int| 0 <= i < u.len() implies u[i] == v[i] by {
            assert(a[i] == b[i] || ('a' <= a[i] <= 'z' && a[i] as u32 == b[i] as u32 + 32) || ('a'
                <= b[i] <= 'z' && b[i] as u32 == a[i] as u32 + 32));
        }
        assert(u =~= v);
    }
}

/// Among ASCII characters, white space is the space, and tab, line feed, vertical tab,
/// form feed and carriage return.
pub proof fn ascii_spaces_are_six(c: char)
    ensures
        c <= '\u{7f}' ==> (is_space(c) <==> c == ' ' || '\t' <= c <= '\r'),
        is_space('\u{a0}') && is_space('\u{3000}') && is_space('\u{2028}'),
        !is_space('\u{200b}') && !is_space('\u{feff}'),
{
}

/// Trimming takes away white space only, and all of it at both ends.
#[verifier::rlimit(50)]
pub proof fn trimming_takes_white_space(s: Seq<char>)
    ensures
        exists|from: int, to: int|
            0 <= from <= to <= s.len() && trimmed(s) == #[trigger] s.subrange(from, to) && is_blank(
                s.subrange(0, from),
            ) && is_blank(s.subrange(to, s.len() as int)),
        trimmed(s).len() > 0 ==> !is_space(trimmed(s)[0]) && !is_space(trimmed(s).last()),
{
    let start = trimmed_start(s);
    let end = trimmed_end(start);
    start_splits(s);
    end_splits(start);
    let from = s.len() - start.len();
    let to = from + end.len();
    assert(start =~= s.subrange(from, s.len() as int));
    assert(s.subrange(from, to) =~= end);
    assert(is_blank(s.subrange(to, s.len() as int))) by {
        let rest = s.subrange(to, s.len() as int);
        assert forall|i: int| 0 <= i < rest.len() implies is_space(#[trigger] rest[i]) by {
            assert(rest[i] == start.skip(end.len() as int)[i]);
        }
    }
    assert(trimmed(s) == s.subrange(from, to));
    if end.len() > 0 {
        assert(end[0] == start[0]);
    }
}

/// What is dropped from the start is white space, and none is left there.
proof fn start_splits(s: Seq<char>)
    ensures
        trimmed_start(s).len() <= s.len(),
        trimmed_start(s) == s.skip(s.len() - trimmed_start(s).len()),
        is_blank(s.subrange(0, s.len() - trimmed_start(s).len())),
        trimmed_start(s).len() > 0 ==> !is_space(trimmed_start(s)[0]),
    decreases s.len(),
{
    if s.len() > 0 && is_space(s[0]) {
        let rest = s.skip(1);
        start_splits(rest);
        let n = s.len() - trimmed_start(s).len();
        assert(rest.skip(n - 1) =~= s.skip(n));
        assert forall|i: int| 0 <= i < n implies is_space(#[trigger] s.subrange(0, n)[i]) by {
            if i > 0 {
                assert(rest.subrange(0, n - 1)[i - 1] == s.subrange(0, n)[i]);
            }
        }
    } else {
        assert(s.skip(0) =~= s);
    }
}

/// What is dropped from the end is white space, and none is left there.
proof fn end_splits(s: Seq<char>)
    ensures
        trimmed_end(s).len() <= s.len(),
        trimmed_end(s) == s.take(trimmed_end(s).len() as int),
        is_blank(s.skip(trimmed_end(s).len() as int)),
        trimmed_end(s).len() > 0 ==> !is_space(trimmed_end(s).last()),
    decreases s.len(),
{
    if s.len() > 0 && is_space(s.last()) {
        let rest = s.drop_last();
        end_splits(rest);
        let n = trimmed_end(s).len() as int;
        assert(rest.take(n) =~= s.take(n));
        assert forall|i: int| 0 <= i < s.skip(n).len() implies is_space(#[trigger] s.skip(n)[i]) by {
            if n + i < s.len() - 1 {
                assert(rest.skip(n)[i] == s.skip(n)[i]);
            }
        }
    } else {
        assert(s.take(s.len() as int) =~= s);
    }
}

/// The last place of a character is one where it stands, and it stands nowhere behind.
pub proof fn rfind_is_last(s: Seq<char>, c: char)
    ensures
        match rfind(s, c) {
            Some(k) => 0 <= k < s.len() && s[k] == c && forall|j: int| k < j < s.len() ==> s[j] != c,
            None => forall|j: int| 0 <= j < s.len() ==> s[j] != c,
        },
    decreases s.len(),
{
    if s.len() > 0 && s.last() != c {
        rfind_is_last(s.drop_last(), c);
        assert forall|j: int| 0 <= j < s.len() - 1 implies s[j] == s.drop_last()[j] by {}
    }
}

/// A run of digits is of digits, and the character that follows it is none.
pub proof fn digit_runs_are_whole(s: Seq<char>, i: int)
    requires
        0 <= i <= s.len(),
    ensures
        i + digit_run(s, i) <= s.len(),
        forall|j: int| i <= j < i + digit_run(s, i) ==> '0' <= #[trigger] s[j] <= '9',
        i + digit_run(s, i) < s.len() ==> !('0' <= s[i + digit_run(s, i)] <= '9'),
    decreases s.len() - i,
{
    if i < s.len() && '0' <= s[i] && s[i] <= '9' {
        digit_runs_are_whole(s, i + 1);
    }
}

/// A text without the sign that it may have in front.
pub open spec fn unsigned_part(s: Seq<char>) -> Seq<char> {
    if s.len() > 0 && (s[0] == '-' || s[0] == '+') {
        s.skip(1)
    } else {
        s
    }
}

/// A text stands for an integer where it is digits with a sign in front or none, and
/// for no integer else; the integer's magnitude is that of the digits.
pub proof fn integers_are_signed_digits(s: Seq<char>)
    ensures
        integer_value(s) is Some <==> unsigned_part(s).len() > 0 && all_digits(unsigned_part(s)),
        integer_value(s) is Some && s[0] == '-' ==> integer_value(s)->0 == -digits_value(
            unsigned_part(s),
        ),
        integer_value(s) is Some && s[0] != '-' ==> integer_value(s)->0 == digits_value(
            unsigned_part(s),
        ),
        i64_value(s) is Some <==> integer_value(s) is Some && i64::MIN <= integer_value(s)->0
            <= i64::MAX,
        i64_value(s) is Some ==> i64_value(s)->0 == integer_value(s)->0,
        u64_value(s) is Some ==> u64_value(s)->0 == integer_value(s)->0,
        integer_value(s) is Some && s[0] != '-' && integer_value(s)->0 <= u64::MAX ==> u64_value(
            s,
        ) is Some,
{
    if s.len() > 0 && s[0] == '-' {
        assert(!all_digits(s));
    }
    if s.len() > 0 && s[0] == '+' {
        assert(!all_digits(s));
    }
}

/// A digit behind others makes their number ten times as large, and adds to it; a
/// single digit stands for itself.
pub proof fn digits_are_decimal(s: Seq<char>, d: int)
    requires
        0 <= d <= 9,
    ensures
        digits_value(s.push(digit_char(d))) == digits_value(s) * 10 + d,
        digit_char(d) as u32 == '0' as u32 + d,
        digits_value(Seq::empty()) == 0,
{
    assert(s.push(digit_char(d)).drop_last() =~= s);
}

/// Dropping a character from the end drops all that stand there, and nothing else.
pub proof fn trailing_is_dropped(s: Seq<char>, c: char)
    ensures
        without_trailing(s, c).is_prefix_of(s),
        without_trailing(s, c).len() > 0 ==> without_trailing(s, c).last() != c,
        forall|i: int| without_trailing(s, c).len() <= i < s.len() ==> s[i] == c,
    decreases s.len(),
{
    if s.len() > 0 && s.last() == c {
        trailing_is_dropped(s.drop_last(), c);
        let t = without_trailing(s, c);
        assert(s.drop_last().take(t.len() as int) =~= s.take(t.len() as int));
        assert forall|i: int| t.len() <= i < s.len() implies s[i] == c by {
            if i < s.len() - 1 {
                assert(s[i] == s.drop_last()[i]);
            }
        }
    } else {
        assert(s.take(s.len() as int) =~= s);
    }
}

/// The characters of texts, absent ones among them, are taken in order.
pub proof fn texts_are_in_order(texts: Seq<String>, cells: Seq<Option<String>>, i: int)
    ensures
        string_views(texts).len() == texts.len(),
        0 <= i < texts.len() ==> string_views(texts)[i] == texts[i]@,
        text_views(cells).len() == cells.len(),
        0 <= i < cells.len() ==> (cells[i] matches Some(t) ==> text_views(cells)[i] == Some(t@)),
        0 <= i < cells.len() ==> (cells[i] is None ==> text_views(cells)[i] is None),
{
}

} // verus!
