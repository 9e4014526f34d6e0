//! Character-level string helpers with exact specifications over `Seq<char>`.
use vstd::prelude::*;

verus! {

/// Unicode `White_Space`: the characters that `str::trim` removes.
pub open spec fn is_white_space(c: char) -> bool {
    let n = c as u32;
    ||| 9 <= n <= 13
    ||| n == 32
    ||| n == 0x85
    ||| n == 0xA0
    ||| n == 0x1680
    ||| 0x2000 <= n <= 0x200A
    ||| n == 0x2028
    ||| n == 0x2029
    ||| n == 0x202F
    ||| n == 0x205F
    ||| n == 0x3000
}

/// The classes of characters that are stripped from the ends of strings.
#[derive(Clone, Copy, PartialEq, Eq, Structural)]
pub enum Strip {
    WhiteSpace,
    Slash,
}

/// Whether `c` belongs to the class `k`.
pub open spec fn in_class(k: Strip, c: char) -> bool {
    match k {
        Strip::WhiteSpace => is_white_space(c),
        Strip::Slash => c == '/',
    }
}

/// Number of leading characters of `s` that belong to `k`.
pub open spec fn leading_count(s: Seq<char>, k: Strip) -> nat
    decreases s.len(),
{
    if s.len() > 0 && in_class(k, s[0]) {
        1 + leading_count(s.drop_first(), k)
    } else {
        0
    }
}

/// Number of trailing characters of `s` that belong to `k`.
pub open spec fn trailing_count(s: Seq<char>, k: Strip) -> nat
    decreases s.len(),
{
    if s.len() > 0 && in_class(k, s.last()) {
        1 + trailing_count(s.drop_last(), k)
    } else {
        0
    }
}

/// `s` without its leading characters of class `k`.
pub open spec fn strip_start(s: Seq<char>, k: Strip) -> Seq<char> {
    s.skip(leading_count(s, k) as int)
}

/// `s` without its trailing characters of class `k`.
pub open spec fn strip_end(s: Seq<char>, k: Strip) -> Seq<char> {
    s.take(s.len() - trailing_count(s, k))
}

/// What `str::trim` gives back: `s` without leading and trailing white space.
pub open spec fn trimmed(s: Seq<char>) -> Seq<char> {
    strip_end(strip_start(s, Strip::WhiteSpace), Strip::WhiteSpace)
}

/// `s` with every space replaced by a plus sign.
pub open spec fn spaces_to_plus(s: Seq<char>) -> Seq<char> {
    s.map_values(|c: char| if c == ' ' { '+' } else { c })
}

/// Whether `needle` occurs in `s` starting at position `i`.
pub open spec fn occurs_at(s: Seq<char>, needle: Seq<char>, i: int) -> bool {
    0 <= i && i + needle.len() <= s.len() && s.subrange(i, i + needle.len()) == needle
}

/// Whether `needle` occurs anywhere in `s`.
pub open spec fn contains_seq(s: Seq<char>, needle: Seq<char>) -> bool {
    exists|i: int| occurs_at(s, needle, i)
}

/// The decimal digit for `d` (taken modulo ten).
pub open spec fn digit_char(d: nat) -> char {
    let m = d % 10;
    if m == 0 { '0' } else if m == 1 { '1' } else if m == 2 { '2' } else if m == 3 { '3' }
    else if m == 4 { '4' } else if m == 5 { '5' } else if m == 6 { '6' } else if m == 7 { '7' }
    else if m == 8 { '8' } else { '9' }
}

/// The decimal representation of `n`, without leading zeros.
pub open spec fn decimal(n: nat) -> Seq<char>
    decreases n,
{
    if n < 10 {
        seq![digit_char(n)]
    } else {
        decimal(n / 10).push(digit_char(n % 10))
    }
}

/// Whether `c` is an ASCII decimal digit.
pub open spec fn is_digit(c: char) -> bool {
    '0' <= c <= '9'
}

/// The value of a string of decimal digits.
pub open spec fn digits_value(s: Seq<char>) -> nat
    decreases s.len(),
{
    if s.len() == 0 {
        0
    } else {
        digits_value(s.drop_last()) * 10 + ((s.last() as int - '0' as int) as nat)
    }
}

/// The part of a number's text after an optional leading `+`.
pub open spec fn unsigned_digits(s: Seq<char>) -> Seq<char> {
    if s.len() > 0 && s[0] == '+' { s.drop_first() } else { s }
}

/// Whether every character of `d` is a decimal digit.
pub open spec fn all_digits(d: Seq<char>) -> bool {
    forall|i: int| 0 <= i < d.len() ==> is_digit(#[trigger] d[i])
}

/// What `str::parse::<u16>` accepts: an optional `+`, then at least one decimal
/// digit, with a value that fits in 16 bits.
pub open spec fn parsed_u16(s: Seq<char>) -> Option<u16> {
    let d = unsigned_digits(s);
    if d.len() > 0 && all_digits(d) && digits_value(d) <= u16::MAX {
        Some(digits_value(d) as u16)
    } else {
        None
    }
}

proof fn lemma_leading_count(s: Seq<char>, k: Strip, i: int)
    requires
        0 <= i <= s.len(),
        forall|j: int| 0 <= j < i ==> in_class(k, #[trigger] s[j]),
        i == s.len() || !in_class(k, s[i]),
    ensures
        leading_count(s, k) == i,
    decreases i,
{
    if i > 0 {
        let t = s.drop_first();
        assert forall|j: int| 0 <= j < i - 1 implies in_class(k, #[trigger] t[j]) by {
            assert(t[j] == s[j + 1]);
        }
        if i - 1 < t.len() {
            assert(t[i - 1] == s[i]);
        }
        lemma_leading_count(t, k, i - 1);
    }
}

proof fn lemma_trailing_count(s: Seq<char>, k: Strip, j: int)
    requires
        0 <= j <= s.len(),
        forall|m: int| j <= m < s.len() ==> in_class(k, #[trigger] s[m]),
        j == 0 || !in_class(k, s[j - 1]),
    ensures
        trailing_count(s, k) == s.len() - j,
    decreases s.len() - j,
{
    if j < s.len() {
        let t = s.drop_last();
        assert forall|m: int| j <= m < t.len() implies in_class(k, #[trigger] t[m]) by {
            assert(t[m] == s[m]);
        }
        if j > 0 {
            assert(t[j - 1] == s[j - 1]);
        }
        lemma_trailing_count(t, k, j);
    }
}

/// Executable membership test for a character class.
pub fn char_in_class(k: Strip, c: char) -> (b: bool)
    ensures
        b == in_class(k, c),
{
    match k {
        Strip::WhiteSpace => {
            let n = c as u32;
            (9 <= n && n <= 13) || n == 32 || n == 0x85 || n == 0xA0 || n == 0x1680 || (0x2000
                <= n && n <= 0x200A) || n == 0x2028 || n == 0x2029 || n == 0x202F || n == 0x205F
                || n == 0x3000
        },
        Strip::Slash => c == '/',
    }
}

/// The characters of `s`, one by one.
pub fn chars_of(s: &str) -> (v: Vec<char>)
    ensures
        v@ == s@,
{
    let n = s.unicode_len();
    let mut v: Vec<char> = Vec::new();
    let mut i: usize = 0;
    while i < n
        invariant
            n == s@.len(),
            i <= n,
            v@ == s@.take(i as int),
        decreases n - i,
    {
        let c = s.get_char(i);
        v.push(c);
        i = i + 1;
        assert(v@ =~= s@.take(i as int));
    }
    assert(v@ =~= s@);
    v
}

/// The position after the leading characters of class `k` in `s`.
fn leading_end(s: &Vec<char>, k: Strip) -> (i: usize)
    ensures
        i == leading_count(s@, k),
        i <= s@.len(),
{
    let mut i: usize = 0;
    while i < s.len() && char_in_class(k, s[i])
        invariant
            i <= s@.len(),
            forall|j: int| 0 <= j < i ==> in_class(k, #[trigger] s@[j]),
        decreases s.len() - i,
    {
        i = i + 1;
    }
    proof {
        lemma_leading_count(s@, k, i as int);
    }
    i
}

/// The position before the trailing characters of class `k` in `s`, looking no
/// further left than `lo`.
fn trailing_start(s: &Vec<char>, k: Strip, lo: usize) -> (j: usize)
    requires
        lo <= s@.len(),
    ensures
        lo <= j <= s@.len(),
        forall|m: int| j <= m < s@.len() ==> in_class(k, #[trigger] s@[m]),
        j == lo || !in_class(k, s@[j - 1]),
{
    let mut j: usize = s.len();
    while j > lo && char_in_class(k, s[j - 1])
        invariant
            lo <= j <= s@.len(),
            forall|m: int| j <= m < s@.len() ==> in_class(k, #[trigger] s@[m]),
        decreases j,
    {
        j = j - 1;
    }
    j
}

/// `s` without leading and trailing white space, as `str::trim` gives it.
pub fn trim(s: &str) -> (r: &str)
    ensures
        r@ == trimmed(s@),
{
    let v = chars_of(s);
    let i = leading_end(&v, Strip::WhiteSpace);
    let j = trailing_start(&v, Strip::WhiteSpace, i);
    proof {
        let t = s@.skip(i as int);
        assert forall|m: int| j - i <= m < t.len() implies in_class(
            Strip::WhiteSpace,
            #[trigger] t[m],
        ) by {
            assert(t[m] == s@[m + i]);
        }
        if j > i {
            assert(t[j - i - 1] == s@[j - 1]);
        }
        lemma_trailing_count(t, Strip::WhiteSpace, j - i);
        assert(trimmed(s@) =~= s@.subrange(i as int, j as int));
    }
    s.substring_char(i, j)
}

/// `s` without its trailing slashes, as `str::trim_end_matches('/')` gives it.
pub fn trim_end_slashes(s: &str) -> (r: &str)
    ensures
        r@ == strip_end(s@, Strip::Slash),
{
    let v = chars_of(s);
    let j = trailing_start(&v, Strip::Slash, 0);
    proof {
        lemma_trailing_count(s@, Strip::Slash, j as int);
        assert(strip_end(s@, Strip::Slash) =~= s@.subrange(0, j as int));
    }
    s.substring_char(0, j)
}

/// `s` without its leading slashes, as `str::trim_start_matches('/')` gives it.
pub fn trim_start_slashes(s: &str) -> (r: &str)
    ensures
        r@ == strip_start(s@, Strip::Slash),
{
    let v = chars_of(s);
    let i = leading_end(&v, Strip::Slash);
    proof {
        assert(strip_start(s@, Strip::Slash) =~= s@.subrange(i as int, s@.len() as int));
    }
    s.substring_char(i, v.len())
}

/// Whether `a` and `b` hold the same characters.
pub fn str_eq(a: &str, b: &str) -> (r: bool)
    ensures
        r == (a@ == b@),
{
    let va = chars_of(a);
    let vb = chars_of(b);
    if va.len() != vb.len() {
        return false;
    }
    let mut i: usize = 0;
    while i < va.len()
        invariant
            va@ == a@,
            vb@ == b@,
            va@.len() == vb@.len(),
            i <= va@.len(),
            forall|j: int| 0 <= j < i ==> va@[j] == vb@[j],
        decreases va.len() - i,
    {
        if va[i] != vb[i] {
            return false;
        }
        i = i + 1;
    }
    assert(a@ =~= b@);
    true
}

/// Whether `needle` occurs in `s` at position `i`, over character vectors.
fn occurs_at_exec(s: &Vec<char>, needle: &Vec<char>, i: usize) -> (r: bool)
    ensures
        r == occurs_at(s@, needle@, i as int),
{
    if i > s.len() || needle.len() > s.len() - i {
        return false;
    }
    let mut k: usize = 0;
    while k < needle.len()
        invariant
            i + needle@.len() <= s@.len(),
            s@.len() == s.len(),
            k <= needle@.len(),
            forall|m: int| 0 <= m < k ==> s@[i + m] == needle@[m],
        decreases needle.len() - k,
    {
        if s[i + k] != needle[k] {
            assert(s@.subrange(i as int, i + needle@.len())[k as int] != needle@[k as int]);
            return false;
        }
        k = k + 1;
    }
    assert(s@.subrange(i as int, i + needle@.len()) =~= needle@);
    true
}

/// Whether `needle` occurs anywhere in `s`, as `str::contains` answers.
pub fn contains(s: &str, needle: &str) -> (r: bool)
    ensures
        r == contains_seq(s@, needle@),
{
    let vs = chars_of(s);
    let vn = chars_of(needle);
    if vn.len() > vs.len() {
        assert forall|i: int| !occurs_at(s@, needle@, i) by {}
        return false;
    }
    let last = vs.len() - vn.len();
    let mut i: usize = 0;
    loop
        invariant
            vs@ == s@,
            vn@ == needle@,
            last == vs@.len() - vn@.len(),
            i <= last,
            forall|j: int| 0 <= j < i ==> !occurs_at(s@, needle@, j),
        decreases last - i,
    {
        if occurs_at_exec(&vs, &vn, i) {
            return true;
        }
        if i == last {
            assert forall|j: int| !occurs_at(s@, needle@, j) by {
                if 0 <= j <= i {
                }
            }
            return false;
        }
        i = i + 1;
    }
}

/// Whether `s` begins with `prefix`, as `str::starts_with` answers.
pub fn starts_with(s: &str, prefix: &str) -> (r: bool)
    ensures
        r == prefix@.is_prefix_of(s@),
{
    let vs = chars_of(s);
    let vp = chars_of(prefix);
    let r = occurs_at_exec(&vs, &vp, 0);
    proof {
        if r {
            assert forall|i: int| 0 <= i < prefix@.len() implies prefix@[i] == s@[i] by {
                assert(s@.subrange(0, prefix@.len() as int)[i] == s@[i]);
            }
        }
        if prefix@.is_prefix_of(s@) {
            assert(s@.subrange(0, prefix@.len() as int) =~= prefix@);
        }
    }
    r
}

/// `s` with every space replaced by `+`, as `str::replace(' ', "+")` gives it.
pub fn replace_spaces_with_plus(s: &str) -> (r: String)
    ensures
        r@ == spaces_to_plus(s@),
{
    let v = chars_of(s);
    let mut r = String::new();
    let mut i: usize = 0;
    while i < v.len()
        invariant
            v@ == s@,
            i <= v@.len(),
            r@ == spaces_to_plus(s@.take(i as int)),
        decreases v.len() - i,
    {
        if v[i] == ' ' {
            r.append("+");
            proof {
                reveal_strlit("+");
            }
        } else {
            let one = s.substring_char(i, i + 1);
            r.append(one);
        }
        i = i + 1;
        assert(r@ =~= spaces_to_plus(s@.take(i as int)));
    }
    assert(s@.take(v@.len() as int) =~= s@);
    r
}

proof fn lemma_digits_value_prefix(s: Seq<char>, k: int)
    requires
        0 <= k <= s.len(),
    ensures
        digits_value(s.take(k)) <= digits_value(s),
    decreases s.len() - k,
{
    if k < s.len() {
        assert(s.drop_last().take(k) =~= s.take(k));
        lemma_digits_value_prefix(s.drop_last(), k);
    } else {
        assert(s.take(k) =~= s);
    }
}

/// Parses an unsigned 16-bit number as `str::parse::<u16>` does.
pub fn parse_u16(s: &str) -> (r: Option<u16>)
    ensures
        r == parsed_u16(s@),
{
    let v = chars_of(s);
    let start: usize = if v.len() > 0 && v[0] == '+' { 1 } else { 0 };
    let ghost d = if s@.len() > 0 && s@[0] == '+' { s@.drop_first() } else { s@ };
    assert(d =~= s@.skip(start as int));
    if start >= v.len() {
        return None;
    }
    let mut acc: u32 = 0;
    let mut i: usize = start;
    while i < v.len()
        invariant
            v@ == s@,
            d == s@.skip(start as int),
            d == unsigned_digits(s@),
            start <= i <= v@.len(),
            start < v@.len(),
            acc <= u16::MAX,
            acc == digits_value(d.take(i - start)),
            forall|j: int| 0 <= j < i - start ==> is_digit(#[trigger] d[j]),
        decreases v.len() - i,
    {
        let c = v[i];
        assert(d[i - start] == c);
        if !('0' <= c && c <= '9') {
            assert(!is_digit(d[i - start]));
            assert(!all_digits(d));
            return None;
        }
        let dig = (c as u32) - ('0' as u32);
        let ghost t = d.take(i - start + 1);
        assert(t.drop_last() =~= d.take(i - start));
        assert(t.last() == c);
        assert(digits_value(t) == digits_value(t.drop_last()) * 10 + ((t.last() as int - '0' as int) as nat));
        let next = acc * 10 + dig;
        if next > 65535 {
            proof {
                lemma_digits_value_prefix(d, i - start + 1);
                assert(digits_value(d) > u16::MAX);
                assert(parsed_u16(s@) is None);
            }
            return None;
        }
        acc = next;
        i = i + 1;
    }
    assert(d.take(i - start) =~= d);
    Some(acc as u16)
}

/// The one-character text of the digit `d` (below ten).
fn digit_text(d: u64) -> (r: &'static str)
    requires
        d < 10,
    ensures
        r@ == seq![digit_char(d as nat)],
{
    let r = if d == 0 { "0" } else if d == 1 { "1" } else if d == 2 { "2" } else if d == 3 { "3" }
        else if d == 4 { "4" } else if d == 5 { "5" } else if d == 6 { "6" } else if d == 7 { "7" }
        else if d == 8 { "8" } else { "9" };
    proof {
        reveal_strlit("0");
        reveal_strlit("1");
        reveal_strlit("2");
        reveal_strlit("3");
        reveal_strlit("4");
        reveal_strlit("5");
        reveal_strlit("6");
        reveal_strlit("7");
        reveal_strlit("8");
        reveal_strlit("9");
    }
    assert(r@ =~= seq![digit_char(d as nat)]);
    r
}

/// The decimal representation of `n`, as `u64::to_string` gives it.
pub fn decimal_string(n: u64) -> (r: String)
    ensures
        r@ == decimal(n as nat),
    decreases n,
{
    if n < 10 {
        digit_text(n).to_owned()
    } else {
        let mut r = decimal_string(n / 10);
        r.append(digit_text(n % 10));
        assert(r@ =~= decimal((n / 10) as nat).push(digit_char((n % 10) as nat)));
        r
    }
}

/// Unicode lower-case mapping of a whole string, as `str::to_lowercase` gives it.
pub uninterp spec fn lowercase(s: Seq<char>) -> Seq<char>;

/// Whether every character of `s` is ASCII.
pub open spec fn all_ascii(s: Seq<char>) -> bool {
    forall|i: int| 0 <= i < s.len() ==> (#[trigger] s[i] as u32) < 128
}

/// `s` with the ASCII capital letters made small, everything else unchanged.
pub open spec fn ascii_lowercase(s: Seq<char>) -> Seq<char> {
    s.map_values(|c: char| if 'A' <= c <= 'Z' { ((c as u32) + 32) as char } else { c })
}

/// `str::to_lowercase`: its result is the Unicode lower-case mapping of the
/// input, a function of the input alone. Only its documented effect on ASCII
/// text is stated (capital letters become small ones, the rest stays); the
/// mapping of other characters is left unstated.
#[verifier::external_body]
pub fn to_lowercase(s: &str) -> (r: String)
    ensures
        r@ == lowercase(s@),
        all_ascii(s@) ==> r@ == ascii_lowercase(s@),
{
    s.to_lowercase()
}

} // verus!
