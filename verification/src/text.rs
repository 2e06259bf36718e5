//! Character-sequence utilities: trimming, substring search, decimal and
//! hexadecimal formatting and parsing.
//!
//! All dynamic text in the library is carried as `Vec<char>` so that every
//! operation on it can be specified over `Seq<char>`.

use vstd::prelude::*;

verus! {

/// The whitespace characters recognized when trimming text and when
/// separating fields of the inventory tool's output.
pub open spec fn is_space(c: char) -> bool {
    c == ' ' || c == '\t' || c == '\n' || c == '\r' || c == '\u{b}' || c == '\u{c}'
}

pub fn space(c: char) -> (r: bool)
    ensures
        r == is_space(c),
{
    c == ' ' || c == '\t' || c == '\n' || c == '\r' || c == '\u{b}' || c == '\u{c}'
}

/// Index of the first non-space character at or after `i`, or `s.len()`.
pub open spec fn scan_space(s: Seq<char>, i: int) -> int
    decreases s.len() - i when 0 <= i <= s.len()
{
    if i >= s.len() {
        i
    } else if is_space(s[i]) {
        scan_space(s, i + 1)
    } else {
        i
    }
}

/// Exclusive end of the text once trailing spaces before `i` are dropped.
pub open spec fn scan_space_back(s: Seq<char>, i: int) -> int
    decreases i when 0 <= i <= s.len()
{
    if i <= 0 {
        0
    } else if is_space(s[i - 1]) {
        scan_space_back(s, i - 1)
    } else {
        i
    }
}

/// `s` with leading and trailing whitespace removed.
pub open spec fn trim_spec(s: Seq<char>) -> Seq<char> {
    let a = scan_space(s, 0);
    if a == s.len() {
        Seq::empty()
    } else {
        s.subrange(a, scan_space_back(s, s.len() as int))
    }
}

pub proof fn lemma_scan_space(s: Seq<char>, i: int)
    requires
        0 <= i <= s.len(),
    ensures
        i <= scan_space(s, i) <= s.len(),
        forall|j: int| i <= j < scan_space(s, i) ==> is_space(s[j]),
        scan_space(s, i) < s.len() ==> !is_space(s[scan_space(s, i)]),
    decreases s.len() - i,
{
    if i < s.len() && is_space(s[i]) {
        lemma_scan_space(s, i + 1);
    }
}

/// Remove leading and trailing whitespace.
pub fn trim_chars(s: &Vec<char>) -> (r: Vec<char>)
    ensures
        r@ == trim_spec(s@),
{
    let n: usize = s.len();
    let mut a: usize = 0;
    while a < n && space(s[a])
        invariant
            0 <= a <= n == s@.len(),
            scan_space(s@, 0) == scan_space(s@, a as int),
        decreases n - a,
    {
        a = a + 1;
    }
    assert(scan_space(s@, 0) == a as int);
    let mut b: usize = n;
    while b > a && space(s[b - 1])
        invariant
            a <= b <= n == s@.len(),
            a as int == scan_space(s@, 0),
            a < n ==> !is_space(s@[a as int]),
            a < n ==> b > a,
            scan_space_back(s@, n as int) == scan_space_back(s@, b as int),
        decreases b,
    {
        b = b - 1;
    }
    let mut r: Vec<char> = Vec::new();
    let mut i: usize = a;
    while i < b
        invariant
            a <= i <= b <= n == s@.len(),
            r@ == s@.subrange(a as int, i as int),
        decreases b - i,
    {
        r.push(s[i]);
        assert(r@ =~= s@.subrange(a as int, i as int + 1));
        i = i + 1;
    }
    proof {
        if a == n {
            assert(r@ =~= trim_spec(s@));
        } else {
            // the backward scan stops before reaching the non-space at `a`
            lemma_scan_space(s@, 0);
            assert(!is_space(s@[a as int]));
            assert(scan_space_back(s@, b as int) == b as int);
            assert(r@ =~= trim_spec(s@));
        }
    }
    r
}

/// Skip whitespace: the first non-space position at or after `i`.
pub fn skip_spaces(s: &Vec<char>, i: usize) -> (r: usize)
    requires
        i <= s@.len(),
    ensures
        r as int == scan_space(s@, i as int),
        i <= r <= s@.len(),
{
    let n: usize = s.len();
    let mut a: usize = i;
    while a < n && space(s[a])
        invariant
            i <= a <= n == s@.len(),
            scan_space(s@, i as int) == scan_space(s@, a as int),
        decreases n - a,
    {
        a = a + 1;
    }
    a
}

/// Copy of the characters in `[a, b)`.
pub fn copy_range(s: &Vec<char>, a: usize, b: usize) -> (r: Vec<char>)
    requires
        a <= b <= s@.len(),
    ensures
        r@ == s@.subrange(a as int, b as int),
{
    let mut r: Vec<char> = Vec::new();
    let mut i: usize = a;
    while i < b
        invariant
            a <= i <= b <= s@.len(),
            r@ == s@.subrange(a as int, i as int),
        decreases b - i,
    {
        r.push(s[i]);
        assert(r@ =~= s@.subrange(a as int, i as int + 1));
        i = i + 1;
    }
    r
}

/// Copy of a whole character vector.
pub fn clone_chars(v: &Vec<char>) -> (r: Vec<char>)
    ensures
        r@ == v@,
{
    let r = v.clone();
    proof {
        assert(r@ =~= v@);
    }
    r
}

/// `s` starts with `p`.
pub open spec fn has_prefix(s: Seq<char>, p: Seq<char>) -> bool {
    p.len() <= s.len() && s.subrange(0, p.len() as int) == p
}

/// Prefix test, by characters.
pub fn chars_have_prefix(s: &Vec<char>, p: &Vec<char>) -> (r: bool)
    ensures
        r == has_prefix(s@, p@),
{
    let pn: usize = p.len();
    if pn > s.len() {
        return false;
    }
    let mut i: usize = 0;
    while i < pn
        invariant
            0 <= i <= pn == p@.len(),
            pn <= s@.len(),
            forall|k: int| 0 <= k < i ==> s@[k] == p@[k],
        decreases pn - i,
    {
        if s[i] != p[i] {
            proof {
                assert(s@.subrange(0, pn as int)[i as int] != p@[i as int]);
            }
            return false;
        }
        i = i + 1;
    }
    proof {
        assert(s@.subrange(0, pn as int) =~= p@);
    }
    true
}

/// `needle` occurs in `hay` starting at index `i`.
pub open spec fn contains_at(hay: Seq<char>, needle: Seq<char>, i: int) -> bool {
    0 <= i && i + needle.len() <= hay.len() && hay.subrange(i, i + needle.len()) == needle
}

/// `needle` occurs somewhere in `hay` (case-sensitive).
pub open spec fn contains_seq(hay: Seq<char>, needle: Seq<char>) -> bool {
    exists|i: int| contains_at(hay, needle, i)
}

/// Case-sensitive substring search.
pub fn contains_chars(hay: &Vec<char>, needle: &Vec<char>) -> (r: bool)
    ensures
        r == contains_seq(hay@, needle@),
{
    let hn: usize = hay.len();
    let nn: usize = needle.len();
    if nn > hn {
        proof {
            assert(forall|i: int| !contains_at(hay@, needle@, i));
        }
        return false;
    }
    if nn == 0 {
        proof {
            assert(hay@.subrange(0, 0) =~= needle@);
            assert(contains_at(hay@, needle@, 0));
        }
        return true;
    }
    let mut i: usize = 0;
    while i <= hn - nn
        invariant
            0 <= i <= hn - nn + 1,
            1 <= nn <= hn,
            hn == hay@.len(),
            nn == needle@.len(),
            forall|k: int| 0 <= k < i ==> !contains_at(hay@, needle@, k),
        decreases hn - nn - i + 1,
    {
        let mut j: usize = 0;
        let mut matched: bool = true;
        while j < nn
            invariant
                0 <= j <= nn,
                i + nn <= hn,
                hn == hay@.len(),
                nn == needle@.len(),
                matched ==> forall|k: int| 0 <= k < j ==> hay@[i + k] == needle@[k],
                !matched ==> !contains_at(hay@, needle@, i as int),
            decreases nn - j,
        {
            if matched && hay[i + j] != needle[j] {
                proof {
                    let sub = hay@.subrange(i as int, i + nn);
                    assert(sub[j as int] != needle@[j as int]);
                    assert(!contains_at(hay@, needle@, i as int));
                }
                matched = false;
            }
            j = j + 1;
        }
        if matched {
            proof {
                assert(hay@.subrange(i as int, i + nn) =~= needle@);
                assert(contains_at(hay@, needle@, i as int));
            }
            return true;
        }
        i = i + 1;
    }
    proof {
        assert(forall|k: int| i <= k ==> !contains_at(hay@, needle@, k));
    }
    false
}

/// Equality of two character vectors, by contents.
pub fn chars_eq(a: &Vec<char>, b: &Vec<char>) -> (r: bool)
    ensures
        r == (a@ == b@),
{
    if a.len() != b.len() {
        return false;
    }
    let n: usize = a.len();
    let mut i: usize = 0;
    while i < n
        invariant
            0 <= i <= n,
            n == a@.len() == b@.len(),
            forall|k: int| 0 <= k < i ==> a@[k] == b@[k],
        decreases n - i,
    {
        if a[i] != b[i] {
            proof {
                assert(a@[i as int] != b@[i as int]);
            }
            return false;
        }
        i = i + 1;
    }
    proof {
        assert(a@ =~= b@);
    }
    true
}

/// The character for one decimal digit.
pub open spec fn digit_char(d: nat) -> char
    recommends
        d < 10,
{
    if d == 0 {
        '0'
    } else if d == 1 {
        '1'
    } else if d == 2 {
        '2'
    } else if d == 3 {
        '3'
    } else if d == 4 {
        '4'
    } else if d == 5 {
        '5'
    } else if d == 6 {
        '6'
    } else if d == 7 {
        '7'
    } else if d == 8 {
        '8'
    } else {
        '9'
    }
}

fn digit_exec(d: u64) -> (c: char)
    requires
        d < 10,
    ensures
        c == digit_char(d as nat),
{
    if d == 0 {
        '0'
    } else if d == 1 {
        '1'
    } else if d == 2 {
        '2'
    } else if d == 3 {
        '3'
    } else if d == 4 {
        '4'
    } else if d == 5 {
        '5'
    } else if d == 6 {
        '6'
    } else if d == 7 {
        '7'
    } else if d == 8 {
        '8'
    } else {
        '9'
    }
}

/// Decimal digits of a non-negative number, most significant first.
pub open spec fn dec_digits(n: nat) -> Seq<char>
    decreases n,
{
    if n < 10 {
        seq![digit_char(n)]
    } else {
        dec_digits(n / 10).push(digit_char(n % 10))
    }
}

/// Decimal rendering of an integer, with a leading minus sign if negative.
pub open spec fn dec_int(n: int) -> Seq<char> {
    if n < 0 {
        seq!['-'] + dec_digits((-n) as nat)
    } else {
        dec_digits(n as nat)
    }
}

fn dec_of_u64(n: u64) -> (r: Vec<char>)
    ensures
        r@ == dec_digits(n as nat),
    decreases n,
{
    let mut r: Vec<char>;
    if n < 10 {
        r = Vec::new();
        r.push(digit_exec(n));
        assert(r@ =~= dec_digits(n as nat));
    } else {
        r = dec_of_u64(n / 10);
        r.push(digit_exec(n % 10));
    }
    r
}

/// Render a signed number in decimal.
pub fn dec_of_i32(n: i32) -> (r: Vec<char>)
    ensures
        r@ == dec_int(n as int),
{
    if n < 0 {
        let m: u64 = (-(n as i64)) as u64;
        let mut r: Vec<char> = Vec::new();
        r.push('-');
        let mut digits = dec_of_u64(m);
        r.append(&mut digits);
        assert(r@ =~= dec_int(n as int));
        r
    } else {
        dec_of_u64(n as u64)
    }
}

/// Whether `c` is a hexadecimal digit, either case.
pub open spec fn is_hex_digit(c: char) -> bool {
    (48 <= c as u32 && c as u32 <= 57) || (97 <= c as u32 && c as u32 <= 102) || (65 <= c as u32
        && c as u32 <= 70)
}

/// Numeric value of a hexadecimal digit.
pub open spec fn hex_val(c: char) -> nat
    recommends
        is_hex_digit(c),
{
    if 48 <= c as u32 && c as u32 <= 57 {
        (c as u32 - 48) as nat
    } else if 97 <= c as u32 && c as u32 <= 102 {
        (c as u32 - 97 + 10) as nat
    } else {
        (c as u32 - 65 + 10) as nat
    }
}

pub fn hex_digit(c: char) -> (r: bool)
    ensures
        r == is_hex_digit(c),
{
    let u = c as u32;
    (48 <= u && u <= 57) || (97 <= u && u <= 102) || (65 <= u && u <= 70)
}

fn hex_val_exec(c: char) -> (v: u16)
    requires
        is_hex_digit(c),
    ensures
        v as nat == hex_val(c),
        v < 16,
{
    let u = c as u32;
    if 48 <= u && u <= 57 {
        (u - 48) as u16
    } else if 97 <= u && u <= 102 {
        (u - 97 + 10) as u16
    } else {
        (u - 65 + 10) as u16
    }
}

/// The character for one hexadecimal digit, upper case.
pub open spec fn hex_digit_char(d: nat) -> char
    recommends
        d < 16,
{
    if d < 10 {
        digit_char(d)
    } else if d == 10 {
        'A'
    } else if d == 11 {
        'B'
    } else if d == 12 {
        'C'
    } else if d == 13 {
        'D'
    } else if d == 14 {
        'E'
    } else {
        'F'
    }
}

fn hex_digit_exec(d: u16) -> (c: char)
    requires
        d < 16,
    ensures
        c == hex_digit_char(d as nat),
{
    if d < 10 {
        digit_exec(d as u64)
    } else if d == 10 {
        'A'
    } else if d == 11 {
        'B'
    } else if d == 12 {
        'C'
    } else if d == 13 {
        'D'
    } else if d == 14 {
        'E'
    } else {
        'F'
    }
}

/// A boot-entry identifier rendered as four upper-case hexadecimal digits.
pub open spec fn hex4(id: u16) -> Seq<char> {
    seq![
        hex_digit_char((id as nat / 4096) % 16),
        hex_digit_char((id as nat / 256) % 16),
        hex_digit_char((id as nat / 16) % 16),
        hex_digit_char(id as nat % 16),
    ]
}

/// Render a boot-entry identifier as four upper-case hexadecimal digits.
pub fn hex4_chars(id: u16) -> (r: Vec<char>)
    ensures
        r@ == hex4(id),
{
    let mut r: Vec<char> = Vec::new();
    r.push(hex_digit_exec((id / 4096) % 16));
    r.push(hex_digit_exec((id / 256) % 16));
    r.push(hex_digit_exec((id / 16) % 16));
    r.push(hex_digit_exec(id % 16));
    assert(r@ =~= hex4(id));
    r
}

/// Value of a sequence of hexadecimal digits, most significant first.
pub open spec fn hex_value(s: Seq<char>) -> nat
    decreases s.len(),
{
    if s.len() == 0 {
        0
    } else {
        hex_value(s.drop_last()) * 16 + hex_val(s.last())
    }
}

/// A well-formed identifier token: one to four hexadecimal digits.
pub open spec fn is_hex_token(s: Seq<char>) -> bool {
    1 <= s.len() <= 4 && forall|i: int| 0 <= i < s.len() ==> is_hex_digit(#[trigger] s[i])
}

/// The identifier a token denotes, if it is well formed.
pub open spec fn hex_token_val(s: Seq<char>) -> Option<u16> {
    if is_hex_token(s) {
        Some(hex_value(s) as u16)
    } else {
        None
    }
}

pub proof fn lemma_hex_value_bound(s: Seq<char>)
    requires
        s.len() <= 4,
        forall|i: int| 0 <= i < s.len() ==> is_hex_digit(#[trigger] s[i]),
    ensures
        hex_value(s) < 0x10000,
    decreases s.len(),
{
    if s.len() > 0 {
        lemma_hex_value_bound(s.drop_last());
        assert(hex_val(s.last()) < 16);
        assert(hex_value(s.drop_last()) < 0x1000) by {
            lemma_hex_value_small(s.drop_last());
        }
    }
}

proof fn lemma_hex_value_small(s: Seq<char>)
    requires
        s.len() <= 3,
        forall|i: int| 0 <= i < s.len() ==> is_hex_digit(#[trigger] s[i]),
    ensures
        hex_value(s) < 0x1000,
    decreases s.len(),
{
    if s.len() > 0 {
        lemma_hex_value_small2(s.drop_last());
    }
}

proof fn lemma_hex_value_small2(s: Seq<char>)
    requires
        s.len() <= 2,
        forall|i: int| 0 <= i < s.len() ==> is_hex_digit(#[trigger] s[i]),
    ensures
        hex_value(s) < 0x100,
    decreases s.len(),
{
    if s.len() > 0 {
        lemma_hex_value_small3(s.drop_last());
    }
}

proof fn lemma_hex_value_small3(s: Seq<char>)
    requires
        s.len() <= 1,
        forall|i: int| 0 <= i < s.len() ==> is_hex_digit(#[trigger] s[i]),
    ensures
        hex_value(s) < 0x10,
{
    if s.len() > 0 {
        assert(hex_value(s.drop_last()) == 0);
    }
}

/// Parse an identifier token of one to four hexadecimal digits.
pub fn parse_hex_token(s: &Vec<char>) -> (r: Option<u16>)
    ensures
        r == hex_token_val(s@),
{
    let n: usize = s.len();
    if n < 1 || n > 4 {
        return None;
    }
    let mut i: usize = 0;
    let mut acc: u32 = 0;
    while i < n
        invariant
            0 <= i <= n == s@.len(),
            n <= 4,
            forall|k: int| 0 <= k < i ==> is_hex_digit(#[trigger] s@[k]),
            acc as nat == hex_value(s@.subrange(0, i as int)),
            acc < 0x10000,
        decreases n - i,
    {
        let c = s[i];
        if !hex_digit(c) {
            proof {
                assert(!is_hex_token(s@));
            }
            return None;
        }
        let v = hex_val_exec(c);
        proof {
            let pre = s@.subrange(0, i as int);
            let cur = s@.subrange(0, i as int + 1);
            assert(cur.drop_last() =~= pre);
            assert(cur.last() == s@[i as int]);
            lemma_hex_value_small(pre);
            assert(hex_value(cur) == hex_value(pre) * 16 + hex_val(s@[i as int]));
        }
        acc = acc * 16 + v as u32;
        i = i + 1;
    }
    proof {
        assert(s@.subrange(0, n as int) =~= s@);
        lemma_hex_value_bound(s@);
    }
    Some(acc as u16)
}

} // verus!
