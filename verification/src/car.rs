//! The CAR archive a federation is exported to: unsigned varints, the archive's
//! framing, and the checks an imported archive passes.
use vstd::prelude::*;
use vstd::string::*;
use crate::json::{JsonValue, json_get, json_reading, json_str, json_u64, read_json};
use crate::text::{decimal_digits, decimal_text, digit_char, push_char, str_eq, texts};

verus! {

/// `128` raised to the power `n`.
pub open spec fn pow128(n: nat) -> nat
    decreases n,
{
    if n == 0 {
        1
    } else {
        128 * pow128((n - 1) as nat)
    }
}

/// The LEB128 bytes of `v`: seven bits per byte, least significant group first,
/// the high bit set on every byte but the last.
pub open spec fn varint_encode(v: nat) -> Seq<u8>
    decreases v,
{
    if v < 128 {
        seq![v as u8]
    } else {
        seq![((v % 128) + 128) as u8] + varint_encode(v / 128)
    }
}

/// The number the seven-bit groups of `bs` add up to, first group least significant.
pub open spec fn group_sum(bs: Seq<u8>) -> nat
    decreases bs.len(),
{
    if bs.len() == 0 {
        0
    } else {
        group_sum(bs.drop_last()) + ((bs.last() % 128) as nat) * pow128((bs.len() - 1) as nat)
    }
}

/// `2` raised to the power 64.
pub open spec fn two_pow_64() -> nat {
    0x1_0000_0000_0000_0000
}

/// Errors of reading an exported archive.
#[derive(Debug, Clone)]
pub enum ImportError {
    Io(String),
    Serialization(String),
    Ipld(String),
    Car(String),
    FederationExists(String),
    FileNotFound(String),
    VerificationFailed(String),
    Import(String),
}

/// Why a varint could not be read.
#[derive(Debug, Clone, Copy, PartialEq, Eq, Structural)]
pub enum VarintError {
    /// The input ended before the first byte.
    UnexpectedEnd,
    /// Ten bytes in a row had their continuation bit set.
    Overflow,
}

/// Reading a varint at `pos` after `k` continuation bytes: the value read and the
/// position after it. Input that ends after at least one byte yields what was read;
/// a tenth continuation byte is an overflow.
pub open spec fn varint_from(bytes: Seq<u8>, pos: int, k: nat) -> Result<(u64, int), VarintError>
    decreases 10 - k,
{
    if pos + k >= bytes.len() {
        if k == 0 {
            Err(VarintError::UnexpectedEnd)
        } else {
            Ok(((group_sum(bytes.subrange(pos, pos + k)) % two_pow_64()) as u64, pos + k))
        }
    } else if bytes[pos + k] < 128 {
        Ok(((group_sum(bytes.subrange(pos, pos + k + 1)) % two_pow_64()) as u64, pos + k + 1))
    } else if k >= 9 {
        Err(VarintError::Overflow)
    } else {
        varint_from(bytes, pos, k + 1)
    }
}

/// Reading an unsigned varint that starts at `pos`.
pub open spec fn varint_read(bytes: Seq<u8>, pos: int) -> Result<(u64, int), VarintError> {
    varint_from(bytes, pos, 0)
}

proof fn lemma_pow128_facts(n: nat)
    ensures
        pow128(n) > 0,
        n <= 9 ==> pow128(n) <= 0x8000_0000_0000_0000,
        pow128(9) == 0x8000_0000_0000_0000,
    decreases n,
{
    if n > 0 {
        lemma_pow128_facts((n - 1) as nat);
    }
    reveal_with_fuel(pow128, 10);
    assert(pow128(1) == 128);
    assert(pow128(2) == 0x4000);
    assert(pow128(3) == 0x20_0000);
    assert(pow128(4) == 0x1000_0000);
    assert(pow128(5) == 0x8_0000_0000);
    assert(pow128(6) == 0x400_0000_0000);
    assert(pow128(7) == 0x2_0000_0000_0000);
    assert(pow128(8) == 0x100_0000_0000_0000);
    assert(pow128(9) == 0x8000_0000_0000_0000);
}

proof fn lemma_pow128_monotone(a: nat, b: nat)
    requires
        a <= b,
    ensures
        pow128(a) <= pow128(b),
    decreases b,
{
    if a < b {
        lemma_pow128_monotone(a, (b - 1) as nat);
        lemma_pow128_facts((b - 1) as nat);
    }
}

proof fn lemma_group_sum_bound(bs: Seq<u8>)
    ensures
        group_sum(bs) < pow128(bs.len()),
    decreases bs.len(),
{
    if bs.len() > 0 {
        let n = (bs.len() - 1) as nat;
        lemma_group_sum_bound(bs.drop_last());
        let g = (bs.last() % 128) as nat;
        let p = pow128(n);
        assert(g * p + p <= 128 * p) by (nonlinear_arith)
            requires g < 128;
        assert(group_sum(bs.drop_last()) < p);
    }
}

proof fn lemma_group_sum_push(bs: Seq<u8>, b: u8)
    ensures
        group_sum(bs.push(b)) == group_sum(bs) + ((b % 128) as nat) * pow128(bs.len()),
{
    assert(bs.push(b).drop_last() == bs);
}

/// Appends the varint encoding of `value`.
pub fn write_unsigned_varint(out: &mut Vec<u8>, value: u64)
    ensures
        final(out)@ == old(out)@ + varint_encode(value as nat),
{
    let ghost start = out@;
    let mut v: u64 = value;
    loop
        invariant_except_break
            out@ + varint_encode(v as nat) == start + varint_encode(value as nat),
        ensures
            out@ == start + varint_encode(value as nat),
        decreases v,
    {
        let byte: u8 = (v % 128) as u8;
        let rest = v / 128;
        if rest != 0 {
            proof {
                assert(varint_encode(v as nat) == seq![((v % 128) + 128) as u8] + varint_encode(rest as nat));
                assert(out@.push((byte + 128) as u8) + varint_encode(rest as nat)
                    == out@ + varint_encode(v as nat));
            }
            out.push(byte + 128);
            v = rest;
        } else {
            proof {
                assert(varint_encode(v as nat) == seq![v as u8]);
                assert(out@.push(byte) == out@ + varint_encode(v as nat));
            }
            out.push(byte);
            break;
        }
    }
}

/// Reads an unsigned varint starting at `pos`: the value and the position after it.
pub fn read_unsigned_varint(bytes: &Vec<u8>, pos: usize) -> (r: Result<(u64, usize), VarintError>)
    ensures
        match r {
            Ok((v, next)) => varint_read(bytes@, pos as int) == Ok::<(u64, int), VarintError>((v, next as int)),
            Err(e) => varint_read(bytes@, pos as int) == Err::<(u64, int), VarintError>(e),
        },
{
    if pos >= bytes.len() {
        return Err(VarintError::UnexpectedEnd);
    }
    let mut value: u64 = 0;
    let mut mult: u64 = 1;
    let mut k: usize = 0;
    proof {
        lemma_pow128_facts(0);
        assert(bytes@.subrange(pos as int, pos as int) == Seq::<u8>::empty());
    }
    loop
        invariant
            k <= 9,
            mult as nat == pow128(k as nat),
            value as nat == group_sum(bytes@.subrange(pos as int, pos + k)),
            pos < bytes@.len(),
            pos + k <= bytes@.len(),
            varint_read(bytes@, pos as int) == varint_from(bytes@, pos as int, k as nat),
        decreases 10 - k,
    {
        proof {
            lemma_pow128_facts(k as nat);
            lemma_group_sum_bound(bytes@.subrange(pos as int, pos + k));
        }
        if k >= bytes.len() - pos {
            if k == 0 {
                return Err(VarintError::UnexpectedEnd);
            }
            proof {
                assert(value < two_pow_64());
            }
            return Ok((value, pos + k));
        }
        let b = bytes[pos + k];
        let g: u64 = (b % 128) as u64;
        proof {
            assert(bytes@.subrange(pos as int, pos + k + 1) == bytes@.subrange(pos as int, pos + k).push(b));
            lemma_group_sum_push(bytes@.subrange(pos as int, pos + k), b);
        }
        if b < 128 {
            if k < 9 {
                proof {
                    lemma_pow128_facts((k + 1) as nat);
                    assert(value + g * mult < pow128((k + 1) as nat)) by (nonlinear_arith)
                        requires
                            value < mult,
                            g < 128,
                            pow128((k + 1) as nat) == 128 * mult,
                    ;
                }
                let total = value + g * mult;
                return Ok((total, pos + k + 1));
            } else {
                let low: u64 = g % 2;
                proof {
                    let full = value as nat + (g as nat) * pow128(9);
                    assert(full == value as nat + (low as nat) * 0x8000_0000_0000_0000 + ((g / 2) as nat) * two_pow_64()) by (nonlinear_arith)
                        requires
                            full == value as nat + (g as nat) * pow128(9),
                            g == 2 * (g / 2) + low,
                            pow128(9) == 0x8000_0000_0000_0000,
                    ;
                    assert(value as nat + (low as nat) * 0x8000_0000_0000_0000 < two_pow_64());
                    vstd::arithmetic::div_mod::lemma_mod_multiples_vanish(
                        (g / 2) as int, (value as nat + (low as nat) * 0x8000_0000_0000_0000) as int, two_pow_64() as int);
                    vstd::arithmetic::div_mod::lemma_small_mod(
                        (value as nat + (low as nat) * 0x8000_0000_0000_0000) as nat, two_pow_64());
                }
                let total = value + low * 0x8000_0000_0000_0000;
                return Ok((total, pos + k + 1));
            }
        }
        if k >= 9 {
            return Err(VarintError::Overflow);
        }
        proof {
            lemma_pow128_facts((k + 1) as nat);
            assert(value + g * mult < pow128((k + 1) as nat)) by (nonlinear_arith)
                requires
                    value < mult,
                    g < 128,
                    pow128((k + 1) as nat) == 128 * mult,
            ;
            assert(128 * mult <= 0x8000_0000_0000_0000);
        }
        value = value + g * mult;
        mult = mult * 128;
        k = k + 1;
    }
}

proof fn lemma_group_sum_cons(b: u8, rest: Seq<u8>)
    ensures
        group_sum(seq![b] + rest) == ((b % 128) as nat) + 128 * group_sum(rest),
    decreases rest.len(),
{
    let s = seq![b] + rest;
    assert(pow128(0) == 1);
    if rest.len() == 0 {
        assert(s == seq![b]);
        assert(s.drop_last() == Seq::<u8>::empty());
        assert(group_sum(Seq::<u8>::empty()) == 0);
        assert(group_sum(s) == group_sum(s.drop_last()) + ((s.last() % 128) as nat) * pow128(0));
        assert(group_sum(rest) == 0);
    } else {
        assert(s.drop_last() == seq![b] + rest.drop_last());
        lemma_group_sum_cons(b, rest.drop_last());
        assert(group_sum(s) == group_sum(s.drop_last()) + ((s.last() % 128) as nat) * pow128(rest.len()));
        assert(group_sum(rest) == group_sum(rest.drop_last()) + ((rest.last() % 128) as nat) * pow128((rest.len() - 1) as nat));
        let n = (rest.len() - 1) as nat;
        assert(pow128(rest.len()) == 128 * pow128(n));
        let g = (rest.last() % 128) as nat;
        assert(g * pow128(rest.len()) == 128 * (g * pow128(n))) by (nonlinear_arith)
            requires pow128(rest.len()) == 128 * pow128(n);
        assert(s.last() == rest.last());
    }
}

proof fn lemma_encode_props(v: nat)
    ensures
        varint_encode(v).len() >= 1,
        varint_encode(v).last() < 128,
        forall|j: int| 0 <= j < varint_encode(v).len() - 1 ==> #[trigger] varint_encode(v)[j] >= 128,
        group_sum(varint_encode(v)) == v,
        varint_encode(v).len() > 1 ==> v >= pow128((varint_encode(v).len() - 1) as nat),
    decreases v,
{
    if v < 128 {
        assert(varint_encode(v) == seq![v as u8]);
        assert(seq![v as u8].drop_last() == Seq::<u8>::empty());
        assert(pow128(0) == 1);
        assert(group_sum(seq![v as u8]) == group_sum(Seq::<u8>::empty()) + (((v as u8) % 128) as nat) * pow128(0));
    } else {
        let rest = varint_encode(v / 128);
        let b = ((v % 128) + 128) as u8;
        lemma_encode_props(v / 128);
        assert(varint_encode(v) == seq![b] + rest);
        lemma_group_sum_cons(b, rest);
        assert(b % 128 == v % 128);
        assert forall|j: int| 0 <= j < varint_encode(v).len() - 1 implies #[trigger] varint_encode(v)[j] >= 128 by {
            if j > 0 {
                assert(varint_encode(v)[j] == rest[j - 1]);
            }
        }
        assert(varint_encode(v).last() == rest.last());
        if rest.len() > 1 {
            assert(pow128(rest.len()) == 128 * pow128((rest.len() - 1) as nat));
        }
        assert(v >= pow128(rest.len())) by (nonlinear_arith)
            requires
                v >= 128,
                v / 128 >= pow128((rest.len() - 1) as nat) || rest.len() == 1,
                rest.len() == 1 ==> pow128(rest.len()) == 128,
                rest.len() > 1 ==> pow128(rest.len()) == 128 * pow128((rest.len() - 1) as nat),
        ;
    }
}

proof fn lemma_read_encoded(bytes: Seq<u8>, pos: int, v: u64, k: nat)
    requires
        0 <= pos,
        pos + varint_encode(v as nat).len() <= bytes.len(),
        bytes.subrange(pos, pos + varint_encode(v as nat).len()) == varint_encode(v as nat),
        varint_encode(v as nat).len() <= 10,
        k < varint_encode(v as nat).len(),
    ensures
        varint_from(bytes, pos, k) == Ok::<(u64, int), VarintError>((v, pos + varint_encode(v as nat).len())),
    decreases varint_encode(v as nat).len() - k,
{
    let e = varint_encode(v as nat);
    lemma_encode_props(v as nat);
    assert(bytes[pos + k] == e[k as int]);
    if k + 1 < e.len() {
        assert(e[k as int] >= 128);
        lemma_read_encoded(bytes, pos, v, k + 1);
    } else {
        assert(e[k as int] == e.last());
        assert(bytes.subrange(pos, pos + k + 1) == e);
        vstd::arithmetic::div_mod::lemma_small_mod(v as nat, two_pow_64());
    }
}

/// Reading back a written varint gives the value written and the position just
/// after its bytes, whatever precedes or follows it.
pub proof fn law_varint_round_trip(v: u64, prefix: Seq<u8>, rest: Seq<u8>)
    ensures
        varint_read(prefix + varint_encode(v as nat) + rest, prefix.len() as int)
            == Ok::<(u64, int), VarintError>((v, (prefix.len() + varint_encode(v as nat).len()) as int)),
{
    let e = varint_encode(v as nat);
    let bytes = prefix + e + rest;
    lemma_encode_props(v as nat);
    if e.len() > 10 {
        lemma_pow128_monotone(10, (e.len() - 1) as nat);
        lemma_pow128_facts(9);
        assert(pow128(10) == 128 * pow128(9));
        assert(false);
    }
    assert(bytes.subrange(prefix.len() as int, (prefix.len() + e.len()) as int) == e);
    lemma_read_encoded(bytes, prefix.len() as int, v, 0);
}

/// A varint written for a 64-bit number takes one to ten bytes.
pub proof fn law_varint_length(v: u64)
    ensures
        1 <= varint_encode(v as nat).len() <= 10,
{
    let e = varint_encode(v as nat);
    lemma_encode_props(v as nat);
    if e.len() > 10 {
        lemma_pow128_monotone(10, (e.len() - 1) as nat);
        lemma_pow128_facts(9);
        assert(pow128(10) == 128 * pow128(9));
        assert(false);
    }
}

/// The position of the last `c` in `p` at or after `lo` and before `k`, or
/// `lo - 1` when there is none.
pub open spec fn last_before(p: Seq<char>, c: char, lo: int, k: int) -> int
    decreases k - lo,
{
    if k <= lo {
        lo - 1
    } else if p[k - 1] == c {
        k - 1
    } else {
        last_before(p, c, lo, k - 1)
    }
}

/// Where `last_before` can land, and what stands there.
pub proof fn lemma_last_before(p: Seq<char>, c: char, lo: int, k: int)
    ensures
        lo - 1 <= last_before(p, c, lo, k),
        last_before(p, c, lo, k) < k || k <= lo,
        last_before(p, c, lo, k) >= lo ==> p[last_before(p, c, lo, k)] == c,
    decreases k - lo,
{
    if k > lo && p[k - 1] != c {
        lemma_last_before(p, c, lo, k - 1);
    }
}

/// The bounds of the file name of the path `p[0..end]`, as `Path::file_name`
/// finds it with `/` as separator: its last part, passing over empty parts and
/// `.` parts at the end; nothing when that part is `..` or there is none.
pub open spec fn file_name_in(p: Seq<char>, end: int) -> Option<(int, int)>
    decreases end,
{
    if end <= 0 {
        None
    } else {
        let j = last_before(p, '/', 0, end);
        proof {
            lemma_last_before(p, '/', 0, end);
        }
        if end - (j + 1) == 0 || (end - (j + 1) == 1 && p[j + 1] == '.') {
            if j < 0 {
                None
            } else {
                file_name_in(p, j)
            }
        } else if end - (j + 1) == 2 && p[j + 1] == '.' && p[j + 2] == '.' {
            None
        } else {
            Some((j + 1, end))
        }
    }
}

/// The extension of a path, as `Path::extension` reads it: in the path's file
/// name, the part after the last `.`, unless the name has no `.` or its only
/// `.` leads it.
pub open spec fn extension_of(name: Seq<char>) -> Option<Seq<char>> {
    match file_name_in(name, name.len() as int) {
        None => None,
        Some((a, b)) => {
            let d = last_before(name, '.', a, b);
            if d <= a {
                None
            } else {
                Some(name.subrange(d + 1, b))
            }
        },
    }
}

fn last_index_before(cv: &Vec<char>, c: char, lo: usize, k: usize) -> (r: usize)
    requires
        1 <= lo <= k <= cv@.len(),
    ensures
        r + 1 == last_before(cv@, c, lo as int, k as int) + 1,
{
    let mut i: usize = k;
    while i > lo
        invariant
            lo <= i <= k,
            k <= cv@.len(),
            last_before(cv@, c, lo as int, k as int) == last_before(cv@, c, lo as int, i as int),
        decreases i,
    {
        if cv[i - 1] == c {
            return i - 1;
        }
        i = i - 1;
    }
    lo - 1
}

/// The extension of a path (its file name's extension).
pub fn file_extension(name: &str) -> (r: Option<String>)
    ensures
        match extension_of(name@) {
            Some(e) => r matches Some(x) && x@ == e,
            None => r is None,
        },
{
    let raw = crate::text::chars_of(name);
    // A leading sentinel lets positions before the text be written as `usize`.
    let mut cv: Vec<char> = Vec::new();
    cv.push('/');
    let mut t: usize = 0;
    while t < raw.len()
        invariant
            t <= raw@.len(),
            raw@ == name@,
            cv@ == seq!['/'] + raw@.subrange(0, t as int),
        decreases raw.len() - t,
    {
        cv.push(raw[t]);
        t = t + 1;
    }
    let ghost p = name@;
    let ghost q = cv@;
    assert(q == seq!['/'] + p) by {
        assert(raw@.subrange(0, raw@.len() as int) == raw@);
    }
    proof {
        lemma_shifted_file_name(p, p.len() as int);
    }
    let mut end: usize = cv.len();
    loop
        invariant
            1 <= end <= q.len(),
            q == cv@,
            p == name@,
            q == seq!['/'] + p,
            file_name_in(p, p.len() as int) == file_name_in(p, end - 1),
        decreases end,
    {
        proof {
            lemma_shifted_file_name(p, end - 1);
            lemma_last_before(q, '/', 1, end as int);
        }
        let j = last_index_before(&cv, '/', 1, end);
        // `j` is `0` when the part has no `/` before it in the text.
        let len = end - (j + 1);
        proof {
            let e = end - 1;
            let jp = last_before(p, '/', 0, e);
            assert(jp == j - 1);
            assert(forall|x: int| 0 <= x < p.len() ==> q[x + 1] == p[x]);
            assert(file_name_in(p, e) == if e - (jp + 1) == 0 || (e - (jp + 1) == 1 && p[jp + 1] == '.') {
                if jp < 0 { None } else { file_name_in(p, jp) }
            } else if e - (jp + 1) == 2 && p[jp + 1] == '.' && p[jp + 2] == '.' {
                None
            } else {
                Some((jp + 1, e))
            });
        }
        if len == 0 || (len == 1 && cv[j + 1] == '.') {
            if j == 0 {
                return None;
            }
            end = j;
        } else if len == 2 && cv[j + 1] == '.' && cv[j + 2] == '.' {
            return None;
        } else {
            let a = j + 1;
            proof {
                lemma_last_before(q, '.', a as int, end as int);
                lemma_shifted_last(p, '.', a - 1, end - 1);
            }
            let d = last_index_before(&cv, '.', a, end);
            if d <= a {
                return None;
            }
            let r = crate::text::string_from_chars(&cv, d + 1, end);
            assert(q.subrange(d + 1, end as int) == p.subrange(d as int, end - 1));
            return Some(r);
        }
    }
}

proof fn lemma_shifted_last(p: Seq<char>, c: char, lo: int, k: int)
    requires
        0 <= lo <= k <= p.len(),
    ensures
        last_before(seq!['/'] + p, c, lo + 1, k + 1) == last_before(p, c, lo, k) + 1,
    decreases k - lo,
{
    let q = seq!['/'] + p;
    if k > lo {
        assert(q[k] == p[k - 1]);
        lemma_shifted_last(p, c, lo, k - 1);
    }
}

/// The file name of `p[0..end]`, read on `p` with a `/` put before it: the
/// same part, one place on; the `/` before the text ends the search as the
/// start of the text does.
proof fn lemma_shifted_file_name(p: Seq<char>, end: int)
    requires
        0 <= end <= p.len(),
    ensures
        ({
            let q = seq!['/'] + p;
            let j = last_before(q, '/', 1, end + 1);
            &&& 0 <= j <= end
            &&& j == last_before(p, '/', 0, end) + 1
            &&& (j >= 1 ==> q[j] == '/')
        }),
{
    lemma_shifted_last(p, '/', 0, end);
    lemma_last_before(p, '/', 0, end);
}

/// The content type an exported file is recorded with, by its extension.
pub open spec fn content_type_for(ext: Option<Seq<char>>) -> Seq<char> {
    match ext {
        Some(e) => if e == "json"@ {
            "application/json"@
        } else if e == "toml"@ {
            "application/toml"@
        } else if e == "txt"@ {
            "text/plain"@
        } else if e == "md"@ {
            "text/markdown"@
        } else if e == "car"@ {
            "application/vnd.ipld.car"@
        } else if e == "pdf"@ {
            "application/pdf"@
        } else if e == "png"@ {
            "image/png"@
        } else if e == "jpg"@ || e == "jpeg"@ {
            "image/jpeg"@
        } else if e == "gif"@ {
            "image/gif"@
        } else {
            "application/octet-stream"@
        },
        None => "application/octet-stream"@,
    }
}

/// The content type a file is exported with, judged by its name's extension.
pub fn guess_content_type(file_name: &str) -> (r: String)
    ensures
        r@ == content_type_for(extension_of(file_name@)),
{
    let ext = file_extension(file_name);
    match ext {
        None => "application/octet-stream".to_owned(),
        Some(e) => {
            let e = e.as_str();
            if crate::text::str_eq(e, "json") {
                "application/json".to_owned()
            } else if crate::text::str_eq(e, "toml") {
                "application/toml".to_owned()
            } else if crate::text::str_eq(e, "txt") {
                "text/plain".to_owned()
            } else if crate::text::str_eq(e, "md") {
                "text/markdown".to_owned()
            } else if crate::text::str_eq(e, "car") {
                "application/vnd.ipld.car".to_owned()
            } else if crate::text::str_eq(e, "pdf") {
                "application/pdf".to_owned()
            } else if crate::text::str_eq(e, "png") {
                "image/png".to_owned()
            } else if crate::text::str_eq(e, "jpg") || crate::text::str_eq(e, "jpeg") {
                "image/jpeg".to_owned()
            } else if crate::text::str_eq(e, "gif") {
                "image/gif".to_owned()
            } else {
                "application/octet-stream".to_owned()
            }
        },
    }
}

/// The files every export carries, which are written once however often they
/// are listed.
pub open spec fn is_core_file(name: Seq<char>) -> bool {
    name == "federation.toml"@ || name == "genesis_bundle.json"@ || name == "genesis_event.json"@
}

/// Whether a file name is one of the files every export carries.
pub fn core_file(name: &str) -> (r: bool)
    ensures
        r == is_core_file(name@),
{
    crate::text::str_eq(name, "federation.toml") || crate::text::str_eq(name, "genesis_bundle.json")
        || crate::text::str_eq(name, "genesis_event.json")
}

/// The SHA-256 digest of a byte string.
pub uninterp spec fn sha256_of(data: Seq<u8>) -> Seq<u8>;

/// Hashes bytes with `sha2::Sha256::digest`; the digest is named by `sha256_of`.
#[verifier::external_body]
fn sha256(data: &[u8]) -> (r: [u8; 32])
    ensures
        r@ == sha256_of(data@),
{
    <sha2::Sha256 as sha2::Digest>::digest(data).into()
}

/// The text of the CID with these bytes, as `cid::Cid`'s `to_string` writes
/// it (for a version-1 CID: `b` and the bytes in lower-case base32).
pub uninterp spec fn cid_text(bytes: Seq<u8>) -> Seq<char>;

/// The bytes of the version-1 CID of a SHA-256 digest under `codec`: the
/// version, the codec, the multihash code `0x12`, the length 32, the digest.
pub open spec fn cid_v1_bytes(codec: u64, digest: Seq<u8>) -> Seq<u8> {
    varint_encode(1) + varint_encode(codec as nat) + seq![0x12u8, 0x20u8] + digest
}

/// Makes the version-1 CID of a SHA-256 digest with `cid::Cid::new_v1` (the
/// digest wrapped by `multihash::Multihash::wrap` under code `0x12`), and gives
/// its bytes (`to_bytes`) and its text (`to_string`, named by `cid_text`).
/// The bytes read back as themselves from the front of any input, and the
/// text read with `Cid::try_from` gives the bytes back.
#[verifier::external_body]
fn cid_v1_sha256(codec: u64, digest: &[u8; 32]) -> (r: (Vec<u8>, String))
    ensures
        r.0@ == cid_v1_bytes(codec, digest@),
        r.1@ == cid_text(r.0@),
        forall|rest: Seq<u8>| #[trigger] cid_reading(r.0@ + rest) == Ok::<Seq<u8>, Seq<char>>(r.0@),
        (crate::dag::cid_text_reading(r.1@) == Ok::<Seq<u8>, Seq<char>>(r.0@)),
{
    let mh = multihash::Multihash::<64>::wrap(0x12, digest).unwrap();
    let cid = cid::Cid::new_v1(codec, mh);
    (cid.to_bytes(), cid.to_string())
}

/// A CID as the archive writer writes it: version 1, at most 64 bytes, and
/// read back as itself from the front of whatever follows it.
pub open spec fn cid_reads_back(cid: Seq<u8>) -> bool {
    &&& 2 <= cid.len() <= 64
    &&& cid[0] == 0x01u8
    &&& forall|rest: Seq<u8>| #[trigger] cid_reading(cid + rest) == Ok::<Seq<u8>, Seq<char>>(cid)
}

/// The dag-json codec an export's blocks are addressed under.
pub open spec fn dag_json_codec() -> u64 {
    0x0129
}

/// The CID of an exported block: a version-1 dag-json CID of the block's
/// SHA-256 digest, as bytes and as text; the text reads back as the bytes.
pub fn create_cid(data: &[u8]) -> (r: (Vec<u8>, String))
    ensures
        r.0@ == cid_v1_bytes(dag_json_codec(), sha256_of(data@)),
        r.1@ == cid_text(r.0@),
        cid_reads_back(r.0@),
        (crate::dag::cid_text_reading(r.1@) == Ok::<Seq<u8>, Seq<char>>(r.0@)),
{
    let digest = sha256(data);
    let r = cid_v1_sha256(0x0129, &digest);
    proof {
        reveal_with_fuel(varint_encode, 3);
        assert(varint_encode(1) == seq![1u8]);
        assert(varint_encode(0x0129) == seq![0xa9u8] + varint_encode(2));
        assert(varint_encode(0x0129).len() == 2);
        assert(r.0@.len() == 37);
        assert(r.0@[0] == 0x01u8);
    }
    r
}

/// One block of an archive: its CID's bytes and its data.
#[derive(Debug)]
pub struct CarBlock {
    pub cid: Vec<u8>,
    pub data: Vec<u8>,
}

/// A block as the archive frames it: the varint length of CID and data, then both.
pub open spec fn block_frame(b: CarBlock) -> Seq<u8> {
    varint_encode((b.cid@.len() + b.data@.len()) as nat) + b.cid@ + b.data@
}

/// The frames of a list of blocks, in order.
pub open spec fn frames(blocks: Seq<CarBlock>) -> Seq<u8>
    decreases blocks.len(),
{
    if blocks.len() == 0 {
        Seq::empty()
    } else {
        frames(blocks.drop_last()) + block_frame(blocks.last())
    }
}

/// An archive: the varint length of the header, the header, then the blocks.
pub open spec fn car_bytes(header: Seq<u8>, blocks: Seq<CarBlock>) -> Seq<u8> {
    varint_encode(header.len()) + header + frames(blocks)
}

/// Appends bytes.
fn append_bytes(out: &mut Vec<u8>, bytes: &Vec<u8>)
    ensures
        final(out)@ == old(out)@ + bytes@,
{
    let ghost start = out@;
    let mut i: usize = 0;
    while i < bytes.len()
        invariant
            i <= bytes@.len(),
            out@ == start + bytes@.subrange(0, i as int),
        decreases bytes.len() - i,
    {
        out.push(bytes[i]);
        i = i + 1;
        assert(out@ == start + bytes@.subrange(0, i as int));
    }
    assert(bytes@.subrange(0, bytes@.len() as int) == bytes@);
}

/// Writes an archive: the header's length and the header, then each block
/// framed by the length of its CID and data.
pub fn encode_car(header: &Vec<u8>, blocks: &Vec<CarBlock>) -> (r: Vec<u8>)
    requires
        forall|i: int| 0 <= i < blocks@.len() ==> #[trigger] blocks@[i].cid@.len() + blocks@[i].data@.len() <= usize::MAX,
    ensures
        r@ == car_bytes(header@, blocks@),
{
    let mut out: Vec<u8> = Vec::new();
    write_unsigned_varint(&mut out, header.len() as u64);
    append_bytes(&mut out, header);
    let ghost head = out@;
    assert(head == varint_encode(header@.len()) + header@);
    let mut i: usize = 0;
    while i < blocks.len()
        invariant
            i <= blocks@.len(),
            head == varint_encode(header@.len()) + header@,
            out@ == head + frames(blocks@.subrange(0, i as int)),
            forall|i: int| 0 <= i < blocks@.len() ==> #[trigger] blocks@[i].cid@.len() + blocks@[i].data@.len() <= usize::MAX,
        decreases blocks.len() - i,
    {
        let b = &blocks[i];
        assert(blocks@.subrange(0, i + 1).drop_last() == blocks@.subrange(0, i as int));
        assert(blocks@.subrange(0, i + 1).last() == blocks@[i as int]);
        assert(b.cid@.len() + b.data@.len() <= usize::MAX);
        let total = (b.cid.len() + b.data.len()) as u64;
        let ghost before = out@;
        write_unsigned_varint(&mut out, total);
        append_bytes(&mut out, &b.cid);
        append_bytes(&mut out, &b.data);
        assert(out@ == before + block_frame(blocks@[i as int]));
        i = i + 1;
    }
    assert(blocks@.subrange(0, blocks@.len() as int) == blocks@);
    out
}

/// The archive an export is written to when none is named: the federation's name and `.car`.
pub fn default_archive_name(federation_name: &str) -> (r: String)
    ensures
        r@ == federation_name@ + ".car"@,
{
    federation_name.to_owned().concat(".car")
}

/// A file listed in an archive's manifest.
#[derive(Debug)]
pub struct FileEntry {
    pub path: String,
    pub cid: String,
    pub size: u64,
    pub content_type: String,
}

/// A block read from an archive, under the text of its CID.
#[derive(Debug)]
pub struct ArchiveBlock {
    pub cid: String,
    pub data: Vec<u8>,
}

/// Whether a block with this CID was read.
pub open spec fn has_block(blocks: Seq<ArchiveBlock>, cid: Seq<char>) -> bool {
    exists|i: int| 0 <= i < blocks.len() && #[trigger] blocks[i].cid@ == cid
}

/// Whether a block with this CID was read.
pub fn block_present(blocks: &Vec<ArchiveBlock>, cid: &str) -> (r: bool)
    ensures
        r == has_block(blocks@, cid@),
{
    let mut i: usize = 0;
    while i < blocks.len()
        invariant
            i <= blocks@.len(),
            forall|j: int| 0 <= j < i ==> (#[trigger] blocks@[j]).cid@ != cid@,
        decreases blocks.len() - i,
    {
        if crate::text::str_eq(blocks[i].cid.as_str(), cid) {
            return true;
        }
        i = i + 1;
    }
    false
}

/// The CIDs an archive must hold: its bundle, its genesis event, then every listed file.
pub open spec fn required_cids(bundle_cid: Seq<char>, event_cid: Seq<char>, files: Seq<FileEntry>) -> Seq<Seq<char>> {
    seq![bundle_cid, event_cid] + files.map_values(|f: FileEntry| f.cid@)
}

/// The first required CID the archive lacks, if any.
pub open spec fn first_missing(required: Seq<Seq<char>>, blocks: Seq<ArchiveBlock>) -> Option<Seq<char>> {
    if exists|i: int| 0 <= i < required.len() && !has_block(blocks, #[trigger] required[i]) {
        let i = choose|i: int| 0 <= i < required.len() && !has_block(blocks, #[trigger] required[i])
            && forall|j: int| 0 <= j < i ==> has_block(blocks, #[trigger] required[j]);
        Some(required[i])
    } else {
        None
    }
}

/// Checks that an archive holds its bundle, its genesis event and every file
/// its manifest lists; the first one missing is reported.
pub fn check_archive_blocks(
    bundle_cid: &str,
    genesis_event_cid: &str,
    files: &Vec<FileEntry>,
    blocks: &Vec<ArchiveBlock>,
) -> (r: Result<(), ImportError>)
    ensures
        match first_missing(required_cids(bundle_cid@, genesis_event_cid@, files@), blocks@) {
            None => r is Ok,
            Some(c) => r matches Err(ImportError::FileNotFound(m))
                && m@ == "Required file with CID "@ + c + " not found in archive"@,
        },
{
    let ghost req = required_cids(bundle_cid@, genesis_event_cid@, files@);
    assert(req[0] == bundle_cid@ && req[1] == genesis_event_cid@);
    if !block_present(blocks, bundle_cid) {
        proof {
            let c = choose|i: int| 0 <= i < req.len() && !has_block(blocks@, #[trigger] req[i])
                && forall|j: int| 0 <= j < i ==> has_block(blocks@, #[trigger] req[j]);
            assert(c == 0) by {
                if c > 0 {
                    assert(has_block(blocks@, req[0]));
                }
            }
        }
        return Err(ImportError::FileNotFound(
            "Required file with CID ".to_owned().concat(bundle_cid).concat(" not found in archive")));
    }
    if !block_present(blocks, genesis_event_cid) {
        proof {
            assert(!has_block(blocks@, req[1]));
            let c = choose|i: int| 0 <= i < req.len() && !has_block(blocks@, #[trigger] req[i])
                && forall|j: int| 0 <= j < i ==> has_block(blocks@, #[trigger] req[j]);
            assert(c == 1) by {
                if c > 1 {
                    assert(has_block(blocks@, req[1]));
                }
                if c == 0 {
                    assert(has_block(blocks@, req[0]));
                }
            }
        }
        return Err(ImportError::FileNotFound(
            "Required file with CID ".to_owned().concat(genesis_event_cid).concat(" not found in archive")));
    }
    let mut k: usize = 0;
    while k < files.len()
        invariant
            k <= files@.len(),
            req == required_cids(bundle_cid@, genesis_event_cid@, files@),
            forall|j: int| 0 <= j < k + 2 ==> has_block(blocks@, #[trigger] req[j]),
        decreases files.len() - k,
    {
        assert(req[k + 2] == files@[k as int].cid@);
        if !block_present(blocks, files[k].cid.as_str()) {
            proof {
                let c = choose|i: int| 0 <= i < req.len() && !has_block(blocks@, #[trigger] req[i])
                    && forall|j: int| 0 <= j < i ==> has_block(blocks@, #[trigger] req[j]);
                assert(c == k + 2) by {
                    if c > k + 2 {
                        assert(has_block(blocks@, req[k + 2]));
                    }
                    if c < k + 2 {
                        assert(has_block(blocks@, req[c]));
                    }
                }
            }
            return Err(ImportError::FileNotFound(
                "Required file with CID ".to_owned().concat(files[k].cid.as_str()).concat(" not found in archive")));
        }
        k = k + 1;
    }
    assert(!exists|i: int| 0 <= i < req.len() && !has_block(blocks@, #[trigger] req[i]));
    Ok(())
}


/// What `cid::Cid::try_from` reads from the front of a byte string: the bytes
/// of the CID it finds (`to_bytes`), or the text of its error.
pub uninterp spec fn cid_reading(bytes: Seq<u8>) -> Result<Seq<u8>, Seq<char>>;

/// Reads a CID from the front of a byte string with `cid::Cid::try_from`, and
/// gives its bytes (`to_bytes`) and its text (`to_string`); what is read is
/// named by `cid_reading`, the text by `cid_text`, and reading the text back
/// with `Cid::try_from` gives the same bytes.
#[verifier::external_body]
fn read_cid(bytes: &[u8]) -> (r: Result<(Vec<u8>, String), String>)
    ensures
        match r {
            Ok((b, t)) => cid_reading(bytes@) == Ok::<Seq<u8>, Seq<char>>(b@) && t@ == cid_text(b@)
                && crate::dag::cid_text_reading(t@) == Ok::<Seq<u8>, Seq<char>>(b@),
            Err(m) => cid_reading(bytes@) == Err::<Seq<u8>, Seq<char>>(m@),
        },
{
    match cid::Cid::try_from(bytes) {
        Ok(c) => Ok((c.to_bytes(), c.to_string())),
        Err(e) => Err(e.to_string()),
    }
}

/// The lower-case hexadecimal digit for `d < 16`.
pub open spec fn hex_digit(d: nat) -> char {
    if d < 10 { digit_char(d) } else if d == 10 { 'a' } else if d == 11 { 'b' } else if d == 12 { 'c' }
    else if d == 13 { 'd' } else if d == 14 { 'e' } else { 'f' }
}

fn hex_digit_of(d: u8) -> (c: char)
    requires
        d < 16,
    ensures
        c == hex_digit(d as nat),
{
    if d == 0 { '0' } else if d == 1 { '1' } else if d == 2 { '2' } else if d == 3 { '3' }
    else if d == 4 { '4' } else if d == 5 { '5' } else if d == 6 { '6' } else if d == 7 { '7' }
    else if d == 8 { '8' } else if d == 9 { '9' } else if d == 10 { 'a' } else if d == 11 { 'b' }
    else if d == 12 { 'c' } else if d == 13 { 'd' } else if d == 14 { 'e' } else { 'f' }
}

/// A byte as two lower-case hexadecimal digits, as `{:02x}` writes it.
fn hex_byte_text(b: u8) -> (r: String)
    ensures
        r@ == hex_byte(b),
{
    let mut s = String::new();
    push_char(&mut s, hex_digit_of(b / 16));
    push_char(&mut s, hex_digit_of(b % 16));
    s
}

/// A byte as two lower-case hexadecimal digits.
pub open spec fn hex_byte(b: u8) -> Seq<char> {
    seq![hex_digit((b / 16) as nat), hex_digit((b % 16) as nat)]
}

/// The largest size a buffer can be allocated with.
pub open spec fn max_buffer() -> int {
    0x7fff_ffff_ffff_ffff
}

/// What reading one block yields.
pub enum BlockRead {
    /// A block: the text of its CID, its data, and where the next block starts.
    Block(Seq<char>, Seq<u8>, int),
    /// The input ended inside the block, or a seek went before its start.
    Io,
    /// The block is malformed; the message says how.
    Car(Seq<char>),
    /// The block is shorter than its CID, or longer than any buffer.
    Overrun,
}

/// Reads the block whose length `len` was read just before `p`, laid out as
/// the archive writer lays it: the CID from `p` on (its first byte must be
/// `0x01` or `0x12`; it is read from the next 64 bytes at most), then the
/// data, up to `len` bytes from `p` in all.
pub open spec fn block_at(bytes: Seq<u8>, len: u64, p: int) -> BlockRead {
    let n = bytes.len() as int;
    if p + 2 > n {
        BlockRead::Io
    } else if bytes[p] != 0x12 && bytes[p] != 0x01 {
        BlockRead::Car("Unsupported CID version prefix: "@ + hex_byte(bytes[p]))
    } else {
        let got = if n - p < 64 { n - p } else { 64 };
        match cid_reading(bytes.subrange(p, p + got)) {
            Err(e) => BlockRead::Car("Failed to parse CID: "@ + e),
            Ok(cb) => if len < cb.len() || len - cb.len() > max_buffer() {
                BlockRead::Overrun
            } else if p + len > n {
                BlockRead::Io
            } else {
                BlockRead::Block(cid_text(cb), bytes.subrange(p + cb.len(), p + len), p + len)
            },
        }
    }
}

/// What reading the blocks of an archive yields.
pub enum BlocksRead {
    /// The blocks, in the order read: the text of each CID and its data.
    Blocks(Seq<(Seq<char>, Seq<u8>)>),
    Io,
    Car(Seq<char>),
    Overrun,
}

/// Puts a block in front of what the rest of the archive yields.
pub open spec fn prepend_block(b: (Seq<char>, Seq<u8>), rest: BlocksRead) -> BlocksRead {
    match rest {
        BlocksRead::Blocks(bs) => BlocksRead::Blocks(seq![b] + bs),
        other => other,
    }
}

/// Reading a varint moves forward, and not past the end of the input.
pub proof fn lemma_varint_advances(bytes: Seq<u8>, pos: int, k: nat)
    requires
        0 <= pos,
        k == 0 || pos + k <= bytes.len(),
    ensures
        varint_from(bytes, pos, k) matches Ok((v, next)) ==> pos < next <= bytes.len(),
    decreases 10 - k,
{
    if pos + k < bytes.len() && bytes[pos + k] >= 128 && k < 9 {
        lemma_varint_advances(bytes, pos, k + 1);
    }
}

/// Reads blocks from `pos` until a length cannot be read or is zero.
pub open spec fn blocks_from(bytes: Seq<u8>, pos: int) -> BlocksRead
    decreases bytes.len() - pos,
    when 0 <= pos
{
    match varint_read(bytes, pos) {
        Err(_) => BlocksRead::Blocks(Seq::empty()),
        Ok((len, p)) => if len == 0 {
            BlocksRead::Blocks(Seq::empty())
        } else {
            match block_at(bytes, len, p) {
                BlockRead::Block(cid, data, next) => {
                    proof {
                        lemma_varint_advances(bytes, pos, 0);
                    }
                    prepend_block((cid, data), blocks_from(bytes, next))
                },
                BlockRead::Io => BlocksRead::Io,
                BlockRead::Car(m) => BlocksRead::Car(m),
                BlockRead::Overrun => BlocksRead::Overrun,
            }
        },
    }
}

/// The roots and version of an archive's header: an object with `roots` (an
/// array of strings) and `version` (an unsigned integer), other members
/// ignored, or the same two as a two-element array, as the header's derived
/// deserializer reads them.
pub open spec fn car_header(v: JsonValue) -> Option<(Seq<Seq<char>>, u64)> {
    let fields: Option<(JsonValue, JsonValue)> = match v {
        JsonValue::Object(_) => match (json_get(v, "roots"@), json_get(v, "version"@)) {
            (Some(r), Some(n)) => Some((r, n)),
            _ => None,
        },
        JsonValue::Array(items) => if items@.len() == 2 {
            Some((items@[0], items@[1]))
        } else {
            None
        },
        _ => None,
    };
    match fields {
        Some((JsonValue::Array(rs), n)) => match (strict_texts(rs@), json_u64(n)) {
            (Some(roots), Some(version)) => Some((roots, version)),
            _ => None,
        },
        _ => None,
    }
}

/// The texts of an array whose entries are all strings.
pub open spec fn strict_texts(items: Seq<JsonValue>) -> Option<Seq<Seq<char>>>
    decreases items.len(),
{
    if items.len() == 0 {
        Some(Seq::empty())
    } else {
        match (strict_texts(items.drop_last()), json_str(items.last())) {
            (Some(ts), Some(t)) => Some(ts.push(t)),
            _ => None,
        }
    }
}

/// What is said of a header that is JSON but not of the header's shape.
pub open spec fn header_shape_error() -> Seq<char> {
    "Failed to parse CAR header: expected `roots` (an array of strings) and `version` (an unsigned integer)"@
}

/// The data of the last block read under this CID.
pub open spec fn last_data(blocks: Seq<(Seq<char>, Seq<u8>)>, cid: Seq<char>) -> Option<Seq<u8>>
    decreases blocks.len(),
{
    if blocks.len() == 0 {
        None
    } else if blocks.last().0 == cid {
        Some(blocks.last().1)
    } else {
        last_data(blocks.drop_last(), cid)
    }
}

/// What reading an archive yields.
pub enum ArchiveRead {
    /// The manifest's data (the last block under the first root) and every
    /// block, in the order read.
    Read(Seq<u8>, Seq<(Seq<char>, Seq<u8>)>),
    Io,
    Car(Seq<char>),
    /// No block is stored under the first root, this one.
    ManifestMissing(Seq<char>),
    Overrun,
}

/// Reads an archive: the header's length and the header, which must be of
/// version 1 and name a root, then the blocks; the manifest is the block under
/// the first root.
pub open spec fn archive_read(bytes: Seq<u8>) -> ArchiveRead {
    match varint_read(bytes, 0) {
        Err(VarintError::UnexpectedEnd) => ArchiveRead::Car("Unexpected end of file"@),
        Err(VarintError::Overflow) => ArchiveRead::Car("Varint overflow"@),
        Ok((hl, p)) => if hl > max_buffer() {
            ArchiveRead::Overrun
        } else if p + hl > bytes.len() {
            ArchiveRead::Io
        } else {
            match json_reading(bytes.subrange(p, p + hl)) {
                Err(e) => ArchiveRead::Car("Failed to parse CAR header: "@ + e),
                Ok(v) => match car_header(v) {
                    None => ArchiveRead::Car(header_shape_error()),
                    Some((roots, version)) => if version != 1 {
                        ArchiveRead::Car("Unsupported CAR version: "@ + decimal_digits(version as nat))
                    } else if roots.len() == 0 {
                        ArchiveRead::Car("CAR archive has no roots"@)
                    } else {
                        match blocks_from(bytes, p + hl) {
                            BlocksRead::Blocks(bs) => match last_data(bs, roots[0]) {
                                Some(d) => ArchiveRead::Read(d, bs),
                                None => ArchiveRead::ManifestMissing(roots[0]),
                            },
                            BlocksRead::Io => ArchiveRead::Io,
                            BlocksRead::Car(m) => ArchiveRead::Car(m),
                            BlocksRead::Overrun => ArchiveRead::Overrun,
                        }
                    },
                },
            }
        },
    }
}

/// The CID text and data of each block.
pub open spec fn block_views(blocks: Seq<ArchiveBlock>) -> Seq<(Seq<char>, Seq<u8>)> {
    blocks.map_values(|b: ArchiveBlock| (b.cid@, b.data@))
}

/// The bytes `bytes[from..to]`.
fn copy_range(bytes: &Vec<u8>, from: usize, to: usize) -> (r: Vec<u8>)
    requires
        from <= to <= bytes@.len(),
    ensures
        r@ == bytes@.subrange(from as int, to as int),
{
    let mut out: Vec<u8> = Vec::new();
    let mut i: usize = from;
    while i < to
        invariant
            from <= i <= to <= bytes@.len(),
            out@ == bytes@.subrange(from as int, i as int),
        decreases to - i,
    {
        out.push(bytes[i]);
        i = i + 1;
        assert(out@ == bytes@.subrange(from as int, i as int));
    }
    out
}

/// What reading one block gave.
enum StepRead {
    Block(ArchiveBlock, usize),
    Failed(ImportError),
    Overrun,
}

/// The error of reading past the end of the input, with the text
/// `std::io::Read::read_exact` gives it.
fn short_input() -> (e: ImportError)
    ensures
        e matches ImportError::Io(m) && m@ == "failed to fill whole buffer"@,
{
    ImportError::Io("failed to fill whole buffer".to_owned())
}

fn read_block(bytes: &Vec<u8>, len: u64, p: usize) -> (r: StepRead)
    requires
        p <= bytes@.len(),
    ensures
        match block_at(bytes@, len, p as int) {
            BlockRead::Block(c, d, next) => r matches StepRead::Block(b, nx) && b.cid@ == c
                && b.data@ == d && nx == next,
            BlockRead::Io => r matches StepRead::Failed(e) && e is Io,
            BlockRead::Car(m) => r matches StepRead::Failed(ImportError::Car(x)) && x@ == m,
            BlockRead::Overrun => r is Overrun,
        },
{
    let n = bytes.len();
    if n - p < 2 {
        return StepRead::Failed(short_input());
    }
    let b0 = bytes[p];
    if b0 != 0x12 && b0 != 0x01 {
        return StepRead::Failed(ImportError::Car(
            "Unsupported CID version prefix: ".to_owned().concat(hex_byte_text(b0).as_str())));
    }
    let got: usize = if n - p < 64 { n - p } else { 64 };
    let buf = copy_range(bytes, p, p + got);
    match read_cid(buf.as_slice()) {
        Err(e) => StepRead::Failed(ImportError::Car("Failed to parse CID: ".to_owned().concat(e.as_str()))),
        Ok((cb, text)) => {
            let c = cb.len();
            if len < c as u64 || len - (c as u64) > 0x7fff_ffff_ffff_ffff {
                return StepRead::Overrun;
            }
            if len > (n - p) as u64 {
                return StepRead::Failed(short_input());
            }
            let end: usize = p + len as usize;
            let data = copy_range(bytes, p + c, end);
            StepRead::Block(ArchiveBlock { cid: text, data }, end)
        },
    }
}

/// What the blocks after `pos` add to blocks already read.
pub open spec fn after_blocks(read: Seq<(Seq<char>, Seq<u8>)>, rest: BlocksRead) -> BlocksRead {
    match rest {
        BlocksRead::Blocks(bs) => BlocksRead::Blocks(read + bs),
        other => other,
    }
}

/// What reading the blocks gave.
enum BlocksScan {
    Blocks(Vec<ArchiveBlock>),
    Failed(ImportError),
    Overrun,
}

fn read_blocks(bytes: &Vec<u8>, start: usize) -> (r: BlocksScan)
    requires
        start <= bytes@.len(),
    ensures
        match blocks_from(bytes@, start as int) {
            BlocksRead::Blocks(bs) => r matches BlocksScan::Blocks(v) && block_views(v@) == bs,
            BlocksRead::Io => r matches BlocksScan::Failed(e) && e is Io,
            BlocksRead::Car(m) => r matches BlocksScan::Failed(ImportError::Car(x)) && x@ == m,
            BlocksRead::Overrun => r is Overrun,
        },
{
    let mut blocks: Vec<ArchiveBlock> = Vec::new();
    let mut pos: usize = start;
    loop
        invariant
            start <= pos <= bytes@.len(),
            blocks_from(bytes@, start as int) == after_blocks(block_views(blocks@), blocks_from(bytes@, pos as int)),
        decreases bytes@.len() - pos,
    {
        let ghost here = blocks_from(bytes@, pos as int);
        match read_unsigned_varint(bytes, pos) {
            Err(_) => {
                assert(here == BlocksRead::Blocks(Seq::empty()));
                assert(block_views(blocks@) + Seq::<(Seq<char>, Seq<u8>)>::empty() == block_views(blocks@));
                return BlocksScan::Blocks(blocks);
            },
            Ok((len, p)) => {
                proof {
                    lemma_varint_advances(bytes@, pos as int, 0);
                }
                if len == 0 {
                    assert(block_views(blocks@) + Seq::<(Seq<char>, Seq<u8>)>::empty() == block_views(blocks@));
                    return BlocksScan::Blocks(blocks);
                }
                match read_block(bytes, len, p) {
                    StepRead::Block(b, next) => {
                        let ghost x = (b.cid@, b.data@);
                        let ghost before = block_views(blocks@);
                        let ghost rest = blocks_from(bytes@, next as int);
                        assert(here == prepend_block(x, rest));
                        blocks.push(b);
                        assert(block_views(blocks@) == before.push(x));
                        proof {
                            if let BlocksRead::Blocks(bs) = rest {
                                assert(before + (seq![x] + bs) == before.push(x) + bs);
                            }
                        }
                        pos = next;
                    },
                    StepRead::Failed(e) => {
                        return BlocksScan::Failed(e);
                    },
                    StepRead::Overrun => {
                        return BlocksScan::Overrun;
                    },
                }
            },
        }
    }
}

proof fn lemma_strict_texts_none(items: Seq<JsonValue>, j: int)
    requires
        0 <= j < items.len(),
        json_str(items[j]) is None,
    ensures
        strict_texts(items) is None,
    decreases items.len(),
{
    if j < items.len() - 1 {
        lemma_strict_texts_none(items.drop_last(), j);
    }
}

/// The roots and version a parsed header holds.
fn header_fields(v: &JsonValue) -> (r: Option<(Vec<String>, u64)>)
    ensures
        match car_header(*v) {
            Some((roots, version)) => r matches Some((rs, k)) && texts(rs@) == roots && k == version,
            None => r is None,
        },
{
    let (rv, nv): (&JsonValue, &JsonValue) = match v {
        JsonValue::Object(_) => match (v.get("roots"), v.get("version")) {
            (Some(a), Some(b)) => (a, b),
            _ => {
                return None;
            },
        },
        JsonValue::Array(items) => {
            if items.len() == 2 {
                (&items[0], &items[1])
            } else {
                return None;
            }
        },
        _ => {
            return None;
        },
    };
    let rs = match rv {
        JsonValue::Array(rs) => rs,
        _ => {
            return None;
        },
    };
    let version = match nv.as_u64() {
        Some(k) => k,
        None => {
            return None;
        },
    };
    let ghost whole = match strict_texts(rs@) {
        Some(roots) => Some((roots, version)),
        None => None,
    };
    assert(car_header(*v) == whole);
    let mut roots: Vec<String> = Vec::new();
    let mut i: usize = 0;
    while i < rs.len()
        invariant
            i <= rs@.len(),
            car_header(*v) == whole,
            whole == match strict_texts(rs@) {
                Some(roots) => Some((roots, version)),
                None => None::<(Seq<Seq<char>>, u64)>,
            },
            strict_texts(rs@.subrange(0, i as int)) == Some(texts(roots@)),
        decreases rs.len() - i,
    {
        assert(rs@.subrange(0, i + 1).drop_last() == rs@.subrange(0, i as int));
        match rs[i].as_str() {
            Some(t) => {
                roots.push(t.clone());
                assert(texts(roots@) == texts(roots@.drop_last()).push(t@));
            },
            None => {
                proof {
                    lemma_strict_texts_none(rs@, i as int);
                }
                return None;
            },
        }
        i = i + 1;
    }
    assert(rs@.subrange(0, rs@.len() as int) == rs@);
    Some((roots, version))
}

/// The data of the last block read under this CID.
fn last_block_data(blocks: &Vec<ArchiveBlock>, cid: &str) -> (r: Option<Vec<u8>>)
    ensures
        match last_data(block_views(blocks@), cid@) {
            Some(d) => r matches Some(x) && x@ == d,
            None => r is None,
        },
{
    let ghost all = block_views(blocks@);
    let mut i: usize = blocks.len();
    assert(all.subrange(0, i as int) == all);
    while i > 0
        invariant
            i <= blocks@.len(),
            all == block_views(blocks@),
            last_data(all, cid@) == last_data(all.subrange(0, i as int), cid@),
        decreases i,
    {
        let ghost pre = all.subrange(0, i as int);
        assert(pre.drop_last() == all.subrange(0, i - 1));
        assert(pre.last() == (blocks@[i - 1].cid@, blocks@[i - 1].data@));
        if str_eq(blocks[i - 1].cid.as_str(), cid) {
            let d = &blocks[i - 1].data;
            return Some(copy_range(d, 0, d.len()));
        }
        i = i - 1;
    }
    None
}

/// Whether `r` is what reading the archive `bytes` gives.
pub open spec fn reads_as(bytes: Seq<u8>, r: Result<(Vec<u8>, Vec<ArchiveBlock>), ImportError>) -> bool {
    match archive_read(bytes) {
        ArchiveRead::Read(d, bs) => r matches Ok((m, blocks)) && m@ == d && block_views(blocks@) == bs,
        ArchiveRead::Io => r matches Err(e) && e is Io,
        ArchiveRead::Car(msg) => r matches Err(ImportError::Car(x)) && x@ == msg,
        ArchiveRead::ManifestMissing(c) => r matches Err(ImportError::FileNotFound(x))
            && x@ == "Manifest not found with CID: "@ + c,
        ArchiveRead::Overrun => false,
    }
}

/// What reading the archive gave.
enum ArchiveScan {
    Done(Result<(Vec<u8>, Vec<ArchiveBlock>), ImportError>),
    Overrun,
}

fn scan_archive(bytes: &Vec<u8>) -> (r: ArchiveScan)
    ensures
        match r {
            ArchiveScan::Done(x) => reads_as(bytes@, x),
            ArchiveScan::Overrun => archive_read(bytes@) is Overrun,
        },
{
    let (hl, p) = match read_unsigned_varint(bytes, 0) {
        Err(VarintError::UnexpectedEnd) => {
            return ArchiveScan::Done(Err(ImportError::Car("Unexpected end of file".to_owned())));
        },
        Err(VarintError::Overflow) => {
            return ArchiveScan::Done(Err(ImportError::Car("Varint overflow".to_owned())));
        },
        Ok(x) => x,
    };
    proof {
        lemma_varint_advances(bytes@, 0, 0);
    }
    if hl > 0x7fff_ffff_ffff_ffff {
        return ArchiveScan::Overrun;
    }
    if hl > (bytes.len() - p) as u64 {
        return ArchiveScan::Done(Err(short_input()));
    }
    let end: usize = p + hl as usize;
    let header_bytes = copy_range(bytes, p, end);
    let header = match read_json(header_bytes.as_slice()) {
        Err(e) => {
            return ArchiveScan::Done(Err(ImportError::Car("Failed to parse CAR header: ".to_owned().concat(e.as_str()))));
        },
        Ok(v) => v,
    };
    let (roots, version) = match header_fields(&header) {
        None => {
            return ArchiveScan::Done(Err(ImportError::Car(
                "Failed to parse CAR header: expected `roots` (an array of strings) and `version` (an unsigned integer)".to_owned())));
        },
        Some(x) => x,
    };
    if version != 1 {
        return ArchiveScan::Done(Err(ImportError::Car(
            "Unsupported CAR version: ".to_owned().concat(decimal_text(version).as_str()))));
    }
    if roots.len() == 0 {
        return ArchiveScan::Done(Err(ImportError::Car("CAR archive has no roots".to_owned())));
    }
    assert(texts(roots@)[0] == roots@[0]@);
    match read_blocks(bytes, end) {
        BlocksScan::Blocks(blocks) => match last_block_data(&blocks, roots[0].as_str()) {
            Some(d) => ArchiveScan::Done(Ok((d, blocks))),
            None => ArchiveScan::Done(Err(ImportError::FileNotFound(
                "Manifest not found with CID: ".to_owned().concat(roots[0].as_str())))),
        },
        BlocksScan::Failed(e) => ArchiveScan::Done(Err(e)),
        BlocksScan::Overrun => ArchiveScan::Overrun,
    }
}

/// Reads an exported archive: the header, which must be of version 1 and name
/// a root, then every block up to the end or a zero length; gives the data of
/// the manifest (the block under the first root) and the blocks in the order
/// read. Each block is its CID, read from its start, then its data.
pub fn parse_car_archive(bytes: &Vec<u8>) -> (r: Result<(Vec<u8>, Vec<ArchiveBlock>), ImportError>)
    requires
        !(archive_read(bytes@) is Overrun),
    ensures
        reads_as(bytes@, r),
{
    match scan_archive(bytes) {
        ArchiveScan::Done(r) => r,
        ArchiveScan::Overrun => Err(ImportError::Car(String::new())),
    }
}

/// Reads an exported archive as `parse_car_archive` does, or gives nothing
/// where a block is shorter than its CID or a length is beyond any buffer.
pub fn read_car_archive(bytes: &Vec<u8>) -> (r: Option<Result<(Vec<u8>, Vec<ArchiveBlock>), ImportError>>)
    ensures
        r is None <==> archive_read(bytes@) is Overrun,
        r matches Some(x) ==> reads_as(bytes@, x),
{
    match scan_archive(bytes) {
        ArchiveScan::Overrun => None,
        ArchiveScan::Done(_) => Some(parse_car_archive(bytes)),
    }
}

/// The CID text and data of each written block, as a reader finds them.
pub open spec fn written_blocks(blocks: Seq<CarBlock>) -> Seq<(Seq<char>, Seq<u8>)> {
    blocks.map_values(|b: CarBlock| (cid_text(b.cid@), b.data@))
}

/// Blocks whose CIDs the writer makes, and whose lengths a reader can hold.
pub open spec fn writable_blocks(blocks: Seq<CarBlock>) -> bool {
    forall|i: int| 0 <= i < blocks.len() ==> {
        &&& cid_reads_back(#[trigger] blocks[i].cid@)
        &&& blocks[i].data@.len() <= max_buffer()
    }
}

proof fn lemma_frames_front(bs: Seq<CarBlock>)
    requires
        bs.len() > 0,
    ensures
        frames(bs) == block_frame(bs[0]) + frames(bs.drop_first()),
    decreases bs.len(),
{
    if bs.len() == 1 {
        assert(bs.drop_last() == Seq::<CarBlock>::empty());
        assert(bs.drop_first() == Seq::<CarBlock>::empty());
        assert(frames(bs) == frames(bs.drop_last()) + block_frame(bs.last()));
        assert(block_frame(bs[0]) + Seq::<u8>::empty() == block_frame(bs[0]));
    } else {
        lemma_frames_front(bs.drop_last());
        assert(bs.drop_last().drop_first() == bs.drop_first().drop_last());
        assert(bs.drop_first().last() == bs.last());
        assert(bs.drop_last()[0] == bs[0]);
    }
}

proof fn lemma_blocks_read_back(pre: Seq<u8>, bs: Seq<CarBlock>)
    requires
        writable_blocks(bs),
    ensures
        blocks_from(pre + frames(bs), pre.len() as int) == BlocksRead::Blocks(written_blocks(bs)),
    decreases bs.len(),
{
    let bytes = pre + frames(bs);
    if bs.len() == 0 {
        assert(frames(bs) == Seq::<u8>::empty());
        assert(bytes == pre);
        assert(written_blocks(bs) == Seq::<(Seq<char>, Seq<u8>)>::empty());
    } else {
        let b = bs[0];
        let rest = bs.drop_first();
        lemma_frames_front(bs);
        assert(cid_reads_back(b.cid@));
        let c = b.cid@;
        let d = b.data@;
        let l: int = (c.len() + d.len()) as int;
        assert(l <= u64::MAX);
        let e = varint_encode(l as nat);
        let tail = c + d + frames(rest);
        assert(bytes == pre + e + tail);
        law_varint_round_trip(l as u64, pre, tail);
        let p: int = (pre.len() + e.len()) as int;
        assert(varint_read(bytes, pre.len() as int) == Ok::<(u64, int), VarintError>((l as u64, p as int)));
        let n = bytes.len() as int;
        assert(n == p + c.len() + d.len() + frames(rest).len());
        assert(bytes[p as int] == c[0]);
        let got = if n - p < 64 { n - p } else { 64 };
        let follow = bytes.subrange(p + c.len(), p + got);
        assert(bytes.subrange(p as int, p + got) == c + follow);
        assert(cid_reading(c + follow) == Ok::<Seq<u8>, Seq<char>>(c));
        assert(bytes.subrange(p + c.len(), p + l) == d);
        assert(block_at(bytes, l as u64, p as int) == BlockRead::Block(cid_text(c), d, p + l));
        let pre2 = pre + e + c + d;
        assert(pre2 + frames(rest) == bytes);
        assert(pre2.len() == p + l);
        assert(writable_blocks(rest)) by {
            assert forall|i: int| 0 <= i < rest.len() implies {
                &&& cid_reads_back(#[trigger] rest[i].cid@)
                &&& rest[i].data@.len() <= max_buffer()
            } by {
                assert(rest[i] == bs[i + 1]);
            }
        }
        lemma_blocks_read_back(pre2, rest);
        assert(written_blocks(bs) == seq![(cid_text(c), d)] + written_blocks(rest));
    }
}

/// Reading back an archive the writer made, with a version-1 header that names
/// its roots, gives back every block, in order, under its CID's text, and the
/// manifest stored under the first root (or says that none is).
pub proof fn law_export_reads_back(header: Seq<u8>, v: JsonValue, roots: Seq<Seq<char>>, blocks: Seq<CarBlock>)
    requires
        json_reading(header) == Ok::<JsonValue, Seq<char>>(v),
        car_header(v) == Some((roots, 1u64)),
        roots.len() > 0,
        header.len() <= max_buffer(),
        writable_blocks(blocks),
    ensures
        archive_read(car_bytes(header, blocks)) == match last_data(written_blocks(blocks), roots[0]) {
            Some(d) => ArchiveRead::Read(d, written_blocks(blocks)),
            None => ArchiveRead::ManifestMissing(roots[0]),
        },
{
    let e = varint_encode(header.len());
    let bytes = car_bytes(header, blocks);
    let tail = header + frames(blocks);
    assert(bytes == Seq::<u8>::empty() + e + tail);
    law_varint_round_trip(header.len() as u64, Seq::<u8>::empty(), tail);
    assert(varint_read(bytes, 0) == Ok::<(u64, int), VarintError>((header.len() as u64, e.len() as int)));
    assert(bytes.subrange(e.len() as int, (e.len() + header.len()) as int) == header);
    lemma_blocks_read_back(e + header, blocks);
    assert((e + header) + frames(blocks) == bytes);
}

/// Checks that the bundle in an archive belongs to the federation its manifest names.
pub fn check_federation_match(manifest_federation_id: &str, bundle_federation_id: &str) -> (r: Result<(), ImportError>)
    ensures
        (manifest_federation_id@ == bundle_federation_id@) <==> r is Ok,
        r matches Err(e) ==> (e matches ImportError::VerificationFailed(m)
            && m@ == "Federation ID mismatch: "@ + manifest_federation_id@ + " in manifest, "@
                + bundle_federation_id@ + " in TrustBundle"@),
{
    if !crate::text::str_eq(bundle_federation_id, manifest_federation_id) {
        return Err(ImportError::VerificationFailed(
            "Federation ID mismatch: ".to_owned().concat(manifest_federation_id).concat(" in manifest, ")
                .concat(bundle_federation_id).concat(" in TrustBundle")));
    }
    Ok(())
}

/// Whether a listed file is written out on import: key files are left out
/// when keys are not wanted.
pub fn extracts_file(no_keys: bool, path: &str) -> (r: bool)
    ensures
        r == !(no_keys && crate::text::has_infix(path@, "keys"@)),
{
    !(no_keys && crate::text::contains_str(path, "keys"))
}

} // verus!
