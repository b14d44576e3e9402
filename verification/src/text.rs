//! Character-level helpers shared by the command parsers and the policy engine.
use vstd::prelude::*;
use vstd::string::*;

verus! {

/// True when `c` is an ASCII decimal digit.
pub open spec fn is_digit(c: char) -> bool {
    '0' <= c && c <= '9'
}

/// The value of a run of decimal digits (most significant digit first).
pub open spec fn digits_value(s: Seq<char>) -> nat
    decreases s.len(),
{
    if s.len() == 0 {
        0
    } else {
        digits_value(s.drop_last()) * 10 + ((s.last() as int) - ('0' as int)) as nat
    }
}

/// The digits of a decimal literal once an optional leading `+` is removed.
pub open spec fn unsigned_digits(s: Seq<char>) -> Seq<char> {
    if s.len() > 0 && s[0] == '+' {
        s.subrange(1, s.len() as int)
    } else {
        s
    }
}

/// How the standard library reads an unsigned decimal integer no larger than `max`:
/// an optional `+`, then at least one ASCII digit and nothing else.
pub open spec fn parse_unsigned(s: Seq<char>, max: nat) -> Option<nat> {
    let d = unsigned_digits(s);
    if d.len() > 0 && (forall|i: int| 0 <= i < d.len() ==> is_digit(#[trigger] d[i]))
        && digits_value(d) <= max {
        Some(digits_value(d))
    } else {
        None
    }
}

/// `prefix` is a prefix of `s`.
pub open spec fn has_prefix(s: Seq<char>, prefix: Seq<char>) -> bool {
    prefix.len() <= s.len() && s.subrange(0, prefix.len() as int) == prefix
}

/// `suffix` is a suffix of `s`.
pub open spec fn has_suffix(s: Seq<char>, suffix: Seq<char>) -> bool {
    suffix.len() <= s.len() && s.subrange(s.len() - suffix.len(), s.len() as int) == suffix
}

/// Unicode lower-casing of a string, as `str::to_lowercase` computes it.
pub uninterp spec fn lowercase(s: Seq<char>) -> Seq<char>;

/// A character lower-cased by the ASCII rule: `A` to `Z` become `a` to `z`.
pub open spec fn ascii_lower_char(c: char) -> char {
    if 65 <= (c as u32) <= 90 { ((c as u32) + 32) as char } else { c }
}

/// Calls `str::to_lowercase`; the result is named by `lowercase`. On ASCII
/// text, Unicode lower-casing is the ASCII rule.
#[verifier::external_body]
pub(crate) fn to_lowercase(s: &str) -> (r: String)
    ensures
        r@ == lowercase(s@),
        (forall|i: int| 0 <= i < s@.len() ==> (#[trigger] s@[i] as u32) < 128)
            ==> r@ == s@.map_values(|c: char| ascii_lower_char(c)),
{
    s.to_lowercase()
}

/// Appends one character with `String::push`.
#[verifier::external_body]
pub(crate) fn push_char(s: &mut String, c: char)
    ensures
        final(s)@ == old(s)@.push(c),
{
    s.push(c);
}

/// The characters of `s`, in order.
pub fn chars_of(s: &str) -> (r: Vec<char>)
    ensures
        r@ == s@,
{
    let n = s.unicode_len();
    let mut v: Vec<char> = Vec::new();
    let mut i: usize = 0;
    while i < n
        invariant
            n == s@.len(),
            i <= n,
            v@ == s@.subrange(0, i as int),
        decreases n - i,
    {
        let c = s.get_char(i);
        v.push(c);
        i = i + 1;
    }
    assert(v@ == s@);
    v
}

/// A string made of the characters `v[from..to]`.
pub fn string_from_chars(v: &Vec<char>, from: usize, to: usize) -> (r: String)
    requires
        from <= to <= v@.len(),
    ensures
        r@ == v@.subrange(from as int, to as int),
{
    let mut s = String::new();
    let mut i: usize = from;
    while i < to
        invariant
            from <= i <= to <= v@.len(),
            s@ == v@.subrange(from as int, i as int),
        decreases to - i,
    {
        push_char(&mut s, v[i]);
        i = i + 1;
        assert(s@ == v@.subrange(from as int, i as int));
    }
    s
}

/// Equality of two character sequences held in vectors.
pub fn chars_eq(a: &Vec<char>, b: &Vec<char>) -> (r: bool)
    ensures
        r == (a@ == b@),
{
    if a.len() != b.len() {
        return false;
    }
    let mut i: usize = 0;
    while i < a.len()
        invariant
            a@.len() == b@.len(),
            i <= a@.len(),
            forall|j: int| 0 <= j < i ==> a@[j] == b@[j],
        decreases a.len() - i,
    {
        if a[i] != b[i] {
            return false;
        }
        i = i + 1;
    }
    assert(a@ == b@);
    true
}

/// Equality of two string slices.
pub fn str_eq(a: &str, b: &str) -> (r: bool)
    ensures
        r == (a@ == b@),
{
    let x = a.to_owned();
    let y = b.to_owned();
    x == y
}

/// Whether `prefix` is a prefix of `s`.
pub fn starts_with(s: &str, prefix: &str) -> (r: bool)
    ensures
        r == has_prefix(s@, prefix@),
{
    let sv = chars_of(s);
    let pv = chars_of(prefix);
    if pv.len() > sv.len() {
        return false;
    }
    let mut i: usize = 0;
    while i < pv.len()
        invariant
            sv@ == s@,
            pv@ == prefix@,
            pv@.len() <= sv@.len(),
            i <= pv@.len(),
            forall|j: int| 0 <= j < i ==> sv@[j] == pv@[j],
        decreases pv.len() - i,
    {
        if sv[i] != pv[i] {
            assert(sv@.subrange(0, pv@.len() as int)[i as int] != pv@[i as int]);
            assert(sv@.subrange(0, pv@.len() as int) != pv@);
            return false;
        }
        i = i + 1;
    }
    assert(sv@.subrange(0, pv@.len() as int) == pv@);
    true
}

/// Whether `suffix` is a suffix of `s`.
pub fn ends_with(s: &str, suffix: &str) -> (r: bool)
    ensures
        r == has_suffix(s@, suffix@),
{
    let sv = chars_of(s);
    let pv = chars_of(suffix);
    if pv.len() > sv.len() {
        return false;
    }
    let off = sv.len() - pv.len();
    let mut i: usize = 0;
    while i < pv.len()
        invariant
            sv@ == s@,
            pv@ == suffix@,
            pv@.len() <= sv@.len(),
            off + pv@.len() == sv@.len(),
            sv@.len() == sv.len(),
            i <= pv@.len(),
            forall|j: int| 0 <= j < i ==> sv@[off + j] == pv@[j],
        decreases pv.len() - i,
    {
        if sv[off + i] != pv[i] {
            assert(sv@.subrange(off as int, sv@.len() as int)[i as int] != pv@[i as int]);
            assert(sv@.subrange(off as int, sv@.len() as int) != pv@);
            return false;
        }
        i = i + 1;
    }
    assert(sv@.subrange(off as int, sv@.len() as int) == pv@);
    true
}

/// Whether `c` occurs in `s`.
pub fn contains_char(s: &Vec<char>, from: usize, c: char) -> (r: bool)
    requires
        from <= s@.len(),
    ensures
        r == s@.subrange(from as int, s@.len() as int).contains(c),
{
    let mut i: usize = from;
    while i < s.len()
        invariant
            from <= i <= s@.len(),
            forall|j: int| from <= j < i ==> s@[j] != c,
        decreases s.len() - i,
    {
        if s[i] == c {
            assert(s@.subrange(from as int, s@.len() as int)[i - from] == c);
            return true;
        }
        i = i + 1;
    }
    assert forall|k: int| 0 <= k < s@.len() - from implies
        s@.subrange(from as int, s@.len() as int)[k] != c by {
        assert(s@[from + k] != c);
    }
    false
}

proof fn lemma_value_monotone(d: Seq<char>, k: int)
    requires
        0 <= k <= d.len(),
        forall|i: int| 0 <= i < d.len() ==> is_digit(#[trigger] d[i]),
    ensures
        digits_value(d.subrange(0, k)) <= digits_value(d),
    decreases d.len() - k,
{
    if k < d.len() {
        lemma_value_monotone(d, k + 1);
        let p = d.subrange(0, k + 1);
        assert(p.drop_last() == d.subrange(0, k));
        assert(is_digit(d[k]));
    } else {
        assert(d.subrange(0, k) == d);
    }
}

proof fn lemma_digits_value_push(s: Seq<char>, c: char)
    ensures
        digits_value(s.push(c)) == digits_value(s) * 10 + ((c as int) - ('0' as int)) as nat,
{
    assert(s.push(c).drop_last() == s);
}

/// Reads an unsigned decimal integer no larger than `max` the way
/// `str::parse` does for unsigned integer types.
pub fn parse_unsigned_decimal(s: &str, max: u64) -> (r: Option<u64>)
    ensures
        r matches Some(v) ==> parse_unsigned(s@, max as nat) == Some(v as nat),
        r is None ==> parse_unsigned(s@, max as nat) is None,
{
    let v = chars_of(s);
    let start: usize = if v.len() > 0 && v[0] == '+' { 1 } else { 0 };
    let ghost d = unsigned_digits(s@);
    assert(d == v@.subrange(start as int, v@.len() as int));
    if start >= v.len() {
        return None;
    }
    let mut acc: u64 = 0;
    let mut i: usize = start;
    while i < v.len()
        invariant
            start <= i <= v@.len(),
            v@ == s@,
            d == unsigned_digits(s@),
            d == v@.subrange(start as int, v@.len() as int),
            forall|j: int| start <= j < i ==> is_digit(#[trigger] v@[j]),
            acc as nat == digits_value(v@.subrange(start as int, i as int)),
            acc <= max,
        decreases v.len() - i,
    {
        let c = v[i];
        if c < '0' || c > '9' {
            assert(!is_digit(d[i - start]));
            return None;
        }
        let digit: u64 = (c as u32 - '0' as u32) as u64;
        proof {
            assert(v@.subrange(start as int, i + 1) == v@.subrange(start as int, i as int).push(c));
            lemma_digits_value_push(v@.subrange(start as int, i as int), c);
        }
        if digit > max || acc > (max - digit) / 10 {
            proof {
                assert(acc * 10 + digit > max) by (nonlinear_arith)
                    requires
                        digit > max || acc > (max - digit) / 10,
                        digit <= 9,
                ;
                assert(d.subrange(0, i + 1 - start) == v@.subrange(start as int, i + 1));
                if forall|j: int| 0 <= j < d.len() ==> is_digit(#[trigger] d[j]) {
                    lemma_value_monotone(d, i + 1 - start);
                }
            }
            return None;
        }
        assert(acc * 10 + digit <= max) by (nonlinear_arith)
            requires acc <= (max - digit) / 10, digit <= 9;
        acc = acc * 10 + digit;
        i = i + 1;
    }
    assert(v@.subrange(start as int, v@.len() as int) == d);
    Some(acc)
}


/// The decimal digit character for `d < 10`.
pub open spec fn digit_char(d: nat) -> char {
    if d == 0 { '0' } else if d == 1 { '1' } else if d == 2 { '2' } else if d == 3 { '3' }
    else if d == 4 { '4' } else if d == 5 { '5' } else if d == 6 { '6' } else if d == 7 { '7' }
    else if d == 8 { '8' } else { '9' }
}

/// The shortest decimal spelling of `n`, as `format!("{}", n)` writes it.
pub open spec fn decimal_digits(n: nat) -> Seq<char>
    decreases n,
{
    if n < 10 {
        seq![digit_char(n)]
    } else {
        decimal_digits(n / 10).push(digit_char(n % 10))
    }
}

fn digit_of(d: u64) -> (c: char)
    requires
        d < 10,
    ensures
        c == digit_char(d as nat),
{
    if d == 0 { '0' } else if d == 1 { '1' } else if d == 2 { '2' } else if d == 3 { '3' }
    else if d == 4 { '4' } else if d == 5 { '5' } else if d == 6 { '6' } else if d == 7 { '7' }
    else if d == 8 { '8' } else { '9' }
}

/// The decimal spelling of `n`.
pub fn decimal_text(n: u64) -> (r: String)
    ensures
        r@ == decimal_digits(n as nat),
    decreases n,
{
    if n < 10 {
        let mut s = String::new();
        push_char(&mut s, digit_of(n));
        assert(s@ == seq![digit_char(n as nat)]);
        s
    } else {
        let mut s = decimal_text(n / 10);
        push_char(&mut s, digit_of(n % 10));
        s
    }
}

/// The texts of a list of strings.
pub open spec fn texts(v: Seq<String>) -> Seq<Seq<char>> {
    v.map_values(|s: String| s@)
}

/// Whether one of the strings in `v` is `s`.
pub fn contains_text(v: &Vec<String>, s: &str) -> (r: bool)
    ensures
        r == texts(v@).contains(s@),
{
    let mut i: usize = 0;
    while i < v.len()
        invariant
            i <= v@.len(),
            forall|j: int| 0 <= j < i ==> v@[j]@ != s@,
        decreases v.len() - i,
    {
        if str_eq(v[i].as_str(), s) {
            assert(texts(v@)[i as int] == s@);
            return true;
        }
        i = i + 1;
    }
    assert forall|j: int| 0 <= j < texts(v@).len() implies texts(v@)[j] != s@ by {
        assert(texts(v@)[j] == v@[j]@);
    }
    false
}

/// `sub` occurs somewhere in `s`.
pub open spec fn has_infix(s: Seq<char>, sub: Seq<char>) -> bool {
    exists|i: int| 0 <= i && i + sub.len() <= s.len() && #[trigger] s.subrange(i, i + sub.len()) == sub
}

/// Whether `sub` occurs in `s`.
pub fn contains_str(s: &str, sub: &str) -> (r: bool)
    ensures
        r == has_infix(s@, sub@),
{
    let sv = chars_of(s);
    let pv = chars_of(sub);
    if pv.len() > sv.len() {
        return false;
    }
    let last = sv.len() - pv.len();
    let mut i: usize = 0;
    while i <= last
        invariant
            sv@ == s@,
            pv@ == sub@,
            last + pv@.len() == sv@.len(),
            i <= last + 1,
            forall|k: int| 0 <= k < i ==> #[trigger] s@.subrange(k, k + sub@.len()) != sub@,
        decreases last + 1 - i,
    {
        let mut j: usize = 0;
        let mut same = true;
        while j < pv.len()
            invariant
                sv@ == s@,
                pv@ == sub@,
                last + pv@.len() == sv@.len(),
                i <= last,
                sv.len() == last + pv.len(),
                j <= pv@.len(),
                same == (forall|m: int| 0 <= m < j ==> sv@[i + m] == pv@[m]),
            decreases pv.len() - j,
        {
            if sv[i + j] != pv[j] {
                same = false;
            }
            j = j + 1;
        }
        if same {
            assert(s@.subrange(i as int, i + sub@.len()) == sub@);
            return true;
        }
        assert(s@.subrange(i as int, i + sub@.len()) != sub@) by {
            let m = choose|m: int| 0 <= m < pv@.len() && sv@[i + m] != pv@[m];
            assert(s@.subrange(i as int, i + sub@.len())[m] != sub@[m]);
        }
        if i == last {
            assert forall|k: int| 0 <= k && k + sub@.len() <= s@.len() implies #[trigger] s@.subrange(k, k + sub@.len()) != sub@ by {
                assert(k <= i);
            }
            return false;
        }
        i = i + 1;
    }
    assert forall|k: int| 0 <= k && k + sub@.len() <= s@.len() implies #[trigger] s@.subrange(k, k + sub@.len()) != sub@ by {
        assert(k < i);
    }
    false
}

proof fn lemma_digit_char(d: nat)
    requires
        d < 10,
    ensures
        (digit_char(d) as int) - ('0' as int) == d,
        is_digit(digit_char(d)),
{
}

/// The decimal spelling of a number is a run of digits, without a sign,
/// whose value is the number.
pub proof fn lemma_decimal_digits(n: nat)
    ensures
        decimal_digits(n).len() > 0,
        forall|i: int| 0 <= i < decimal_digits(n).len() ==> is_digit(#[trigger] decimal_digits(n)[i]),
        digits_value(decimal_digits(n)) == n,
        decimal_digits(n)[0] != '+',
        !decimal_digits(n).contains(':'),
    decreases n,
{
    let s = decimal_digits(n);
    lemma_digit_char(n % 10);
    if n < 10 {
        assert(s == seq![digit_char(n)]);
        assert(digits_value(s) == digits_value(s.drop_last()) * 10 + ((s.last() as int) - ('0' as int)) as nat);
        assert(s.drop_last().len() == 0);
        assert(s.contains(':') ==> s[0] == ':');
    } else {
        lemma_decimal_digits(n / 10);
        let p = decimal_digits(n / 10);
        assert(s == p.push(digit_char(n % 10)));
        assert(s.drop_last() == p);
        assert(digits_value(s) == digits_value(p) * 10 + ((s.last() as int) - ('0' as int)) as nat);
        assert forall|i: int| 0 <= i < s.len() implies is_digit(#[trigger] s[i]) by {
            if i < p.len() {
                assert(s[i] == p[i]);
            }
        }
        assert(!s.contains(':')) by {
            if s.contains(':') {
                let k = choose|k: int| 0 <= k < s.len() && s[k] == ':';
                assert(is_digit(s[k]));
            }
        }
    }
}

/// Reading back the decimal spelling of a number gives the number.
pub proof fn lemma_parse_decimal(n: nat, max: nat)
    requires
        n <= max,
    ensures
        parse_unsigned(decimal_digits(n), max) == Some(n),
{
    lemma_decimal_digits(n);
}

/// The texts joined with `sep` between each two.
pub open spec fn joined(items: Seq<Seq<char>>, sep: Seq<char>) -> Seq<char>
    decreases items.len(),
{
    if items.len() == 0 {
        Seq::empty()
    } else if items.len() == 1 {
        items[0]
    } else {
        joined(items.drop_last(), sep) + sep + items.last()
    }
}

/// Joins strings with `sep` between each two, as `join` on a slice does.
pub fn join_texts(items: &Vec<String>, sep: &str) -> (r: String)
    ensures
        r@ == joined(texts(items@), sep@),
{
    let mut out = String::new();
    let mut i: usize = 0;
    while i < items.len()
        invariant
            i <= items@.len(),
            out@ == joined(texts(items@.subrange(0, i as int)), sep@),
        decreases items.len() - i,
    {
        let ghost prev = texts(items@.subrange(0, i as int));
        let ghost next = texts(items@.subrange(0, i + 1));
        assert(next.drop_last() == prev);
        assert(next.last() == items@[i as int]@);
        if i == 0 {
            assert(next.len() == 1);
            out = items[i].clone();
        } else {
            out = out.concat(sep).concat(items[i].as_str());
        }
        i = i + 1;
    }
    assert(items@.subrange(0, items@.len() as int) == items@);
    out
}

} // verus!
