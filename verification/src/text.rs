//! Verified text utilities: string equality, whitespace trimming, decimal
//! parsing and formatting, substring search, and path composition.

use vstd::prelude::*;

verus! {

/// The Unicode `White_Space` characters, as `char::is_whitespace` documents them.
pub open spec fn is_wspace(c: char) -> bool {
    c == ' ' || c == '\t' || c == '\n' || c == '\u{b}' || c == '\u{c}' || c == '\r'
        || c == '\u{85}' || c == '\u{a0}' || c == '\u{1680}'
        || ('\u{2000}' <= c && c <= '\u{200a}')
        || c == '\u{2028}' || c == '\u{2029}' || c == '\u{202f}' || c == '\u{205f}'
        || c == '\u{3000}'
}

fn is_wspace_exec(c: char) -> (r: bool)
    ensures
        r == is_wspace(c),
{
    c == ' ' || c == '\t' || c == '\n' || c == '\u{b}' || c == '\u{c}' || c == '\r'
        || c == '\u{85}' || c == '\u{a0}' || c == '\u{1680}'
        || ('\u{2000}' <= c && c <= '\u{200a}')
        || c == '\u{2028}' || c == '\u{2029}' || c == '\u{202f}' || c == '\u{205f}'
        || c == '\u{3000}'
}

/// `s` with its leading whitespace removed.
pub open spec fn trim_front_spec(s: Seq<char>) -> Seq<char>
    decreases s.len(),
{
    if s.len() == 0 {
        s
    } else if is_wspace(s[0]) {
        trim_front_spec(s.drop_first())
    } else {
        s
    }
}

/// `s` with its trailing whitespace removed.
pub open spec fn trim_back_spec(s: Seq<char>) -> Seq<char>
    decreases s.len(),
{
    if s.len() == 0 {
        s
    } else if is_wspace(s.last()) {
        trim_back_spec(s.drop_last())
    } else {
        s
    }
}

/// `s` with leading and trailing whitespace removed, as `str::trim` does.
pub open spec fn trim_spec(s: Seq<char>) -> Seq<char> {
    trim_back_spec(trim_front_spec(s))
}

proof fn lemma_trim_front_skip(s: Seq<char>, i: int)
    requires
        0 <= i <= s.len(),
        forall|k: int| 0 <= k < i ==> is_wspace(s[k]),
        i < s.len() ==> !is_wspace(s[i]),
    ensures
        trim_front_spec(s) =~= s.skip(i),
    decreases i,
{
    if i == 0 {
        if s.len() > 0 {
            assert(!is_wspace(s[0]));
        }
        assert(trim_front_spec(s) =~= s.skip(0));
    } else {
        assert(is_wspace(s[0]));
        let t = s.drop_first();
        assert(forall|k: int| 0 <= k < i - 1 ==> is_wspace(#[trigger] t[k]));
        lemma_trim_front_skip(t, i - 1);
        assert(t.skip(i - 1) =~= s.skip(i));
    }
}

proof fn lemma_trim_back_take(s: Seq<char>, j: int)
    requires
        0 <= j <= s.len(),
        forall|k: int| j <= k < s.len() ==> is_wspace(s[k]),
        j > 0 ==> !is_wspace(s[j - 1]),
    ensures
        trim_back_spec(s) =~= s.take(j),
    decreases s.len() - j,
{
    if j == s.len() {
        if j > 0 {
            assert(!is_wspace(s.last()));
        }
        assert(trim_back_spec(s) =~= s.take(j));
    } else {
        assert(is_wspace(s.last()));
        let t = s.drop_last();
        lemma_trim_back_take(t, j);
        assert(t.take(j) =~= s.take(j));
    }
}

proof fn lemma_trim_front_no_ws(s: Seq<char>)
    ensures
        trim_front_spec(s).len() > 0 ==> !is_wspace(trim_front_spec(s)[0]),
    decreases s.len(),
{
    if s.len() > 0 && is_wspace(s[0]) {
        lemma_trim_front_no_ws(s.drop_first());
    }
}

proof fn lemma_trim_back_no_ws(s: Seq<char>)
    ensures
        trim_back_spec(s).len() > 0 ==> !is_wspace(trim_back_spec(s).last()),
    decreases s.len(),
{
    if s.len() > 0 && is_wspace(s.last()) {
        lemma_trim_back_no_ws(s.drop_last());
    }
}

proof fn lemma_trim_back_prefix(s: Seq<char>)
    ensures
        trim_back_spec(s).len() <= s.len(),
        forall|i: int| 0 <= i < trim_back_spec(s).len() ==> trim_back_spec(s)[i] == s[i],
    decreases s.len(),
{
    if s.len() > 0 && is_wspace(s.last()) {
        let d = s.drop_last();
        lemma_trim_back_prefix(d);
        assert forall|i: int| 0 <= i < trim_back_spec(s).len() implies trim_back_spec(s)[i]
            == s[i] by {
            assert(trim_back_spec(s)[i] == trim_back_spec(d)[i]);
            assert(trim_back_spec(d)[i] == d[i]);
            assert(d[i] == s[i]);
        }
    }
}

/// Trimming is idempotent: what comes out of one trim passes a second
/// trim unchanged.
pub proof fn lemma_trim_idempotent(s: Seq<char>)
    ensures
        trim_spec(trim_spec(s)) == trim_spec(s),
{
    let f = trim_front_spec(s);
    let t = trim_back_spec(f);
    lemma_trim_front_no_ws(s);
    lemma_trim_back_no_ws(f);
    lemma_trim_back_prefix(f);
    if t.len() > 0 {
        assert(t[0] == f[0]);
        assert(!is_wspace(t[0]));
        assert(trim_front_spec(t) == t);
        assert(!is_wspace(t.last()));
        assert(trim_back_spec(t) == t);
    } else {
        assert(t =~= Seq::<char>::empty());
        assert(trim_front_spec(t) == t);
        assert(trim_back_spec(t) == t);
    }
}

/// Remove leading and trailing whitespace, as `str::trim` does.
pub fn trim_str(s: &str) -> (r: String)
    ensures
        r@ == trim_spec(s@),
{
    let n: usize = s.unicode_len();
    let mut i: usize = 0;
    while i < n && is_wspace_exec(s.get_char(i))
        invariant
            0 <= i <= n,
            n == s@.len(),
            forall|k: int| 0 <= k < i ==> is_wspace(s@[k]),
        decreases n - i,
    {
        i = i + 1;
    }
    if i == n {
        proof {
            lemma_trim_front_skip(s@, n as int);
            lemma_trim_back_take(trim_front_spec(s@), 0);
            assert(trim_spec(s@) =~= Seq::<char>::empty());
        }
        let e = String::new();
        assert(e@ =~= trim_spec(s@));
        return e;
    }
    let mut j: usize = n;
    while j > i && is_wspace_exec(s.get_char(j - 1))
        invariant
            0 <= i <= j <= n,
            n == s@.len(),
            forall|k: int| j <= k < n ==> is_wspace(s@[k]),
        decreases j,
    {
        j = j - 1;
    }
    proof {
        lemma_trim_front_skip(s@, i as int);
        let t = s@.skip(i as int);
        assert(forall|k: int| j - i <= k < t.len() ==> is_wspace(#[trigger] t[k]));
        assert(!is_wspace(s@[j - 1]));
        assert(t[j - i - 1] == s@[j - 1]);
        lemma_trim_back_take(t, j - i);
        assert(trim_spec(s@) =~= s@.subrange(i as int, j as int));
    }
    let out = s.substring_char(i, j);
    out.to_owned()
}

/// Exact equality of two string slices.
pub fn str_eq(a: &str, b: &str) -> (r: bool)
    ensures
        r == (a@ == b@),
{
    let na: usize = a.unicode_len();
    let nb: usize = b.unicode_len();
    if na != nb {
        return false;
    }
    let mut i: usize = 0;
    while i < na
        invariant
            0 <= i <= na,
            na == a@.len(),
            na == b@.len(),
            forall|k: int| 0 <= k < i ==> a@[k] == b@[k],
        decreases na - i,
    {
        if a.get_char(i) != b.get_char(i) {
            return false;
        }
        i = i + 1;
    }
    proof {
        assert(a@ =~= b@);
    }
    true
}

/// Whether `p` is a prefix of `s`.
pub fn starts_with(s: &str, p: &str) -> (r: bool)
    ensures
        r == p@.is_prefix_of(s@),
{
    let ns: usize = s.unicode_len();
    let np: usize = p.unicode_len();
    if np > ns {
        return false;
    }
    let mut i: usize = 0;
    while i < np
        invariant
            0 <= i <= np <= ns,
            ns == s@.len(),
            np == p@.len(),
            forall|k: int| 0 <= k < i ==> s@[k] == p@[k],
        decreases np - i,
    {
        if s.get_char(i) != p.get_char(i) {
            return false;
        }
        i = i + 1;
    }
    proof {
        assert(p@ =~= s@.take(np as int));
    }
    true
}

/// Whether the characters of `p` occur in `s` starting at position `i`.
pub open spec fn match_at(s: Seq<char>, p: Seq<char>, i: int) -> bool {
    0 <= i && i + p.len() <= s.len() && s.subrange(i, i + p.len()) == p
}

fn match_at_exec(s: &str, p: &str, i: usize) -> (r: bool)
    requires
        i + p@.len() <= s@.len(),
    ensures
        r == match_at(s@, p@, i as int),
{
    let ns: usize = s.unicode_len();
    let np: usize = p.unicode_len();
    let mut k: usize = 0;
    while k < np
        invariant
            0 <= k <= np,
            np == p@.len(),
            ns == s@.len(),
            i + np <= ns,
            forall|t: int| 0 <= t < k ==> s@[i + t] == p@[t],
        decreases np - k,
    {
        if s.get_char(i + k) != p.get_char(k) {
            assert(s@.subrange(i as int, i + np) != p@) by {
                assert(s@.subrange(i as int, i + np)[k as int] != p@[k as int]);
            }
            return false;
        }
        k = k + 1;
    }
    proof {
        assert(s@.subrange(i as int, i + np) =~= p@);
    }
    true
}

/// Index of the first occurrence of `p` in `s`, if any.
pub fn find_sub(s: &str, p: &str) -> (r: Option<usize>)
    ensures
        match r {
            Some(i) => match_at(s@, p@, i as int) && forall|k: int|
                0 <= k < i ==> !match_at(s@, p@, k),
            None => forall|k: int| !match_at(s@, p@, k),
        },
{
    let ns: usize = s.unicode_len();
    let np: usize = p.unicode_len();
    if np > ns {
        return None;
    }
    if np == 0 {
        assert(s@.subrange(0, 0) =~= p@);
        return Some(0);
    }
    let mut i: usize = 0;
    while i <= ns - np
        invariant
            0 <= i <= ns - np + 1,
            1 <= np <= ns,
            ns == s@.len(),
            np == p@.len(),
            forall|k: int| 0 <= k < i ==> !match_at(s@, p@, k),
        decreases ns + 1 - np - i,
    {
        if match_at_exec(s, p, i) {
            return Some(i);
        }
        i = i + 1;
    }
    assert(forall|k: int| #![auto] k > ns - np ==> !match_at(s@, p@, k));
    None
}

/// Index of the first occurrence of `p` in `s` at or after `from`.
pub open spec fn first_at(s: Seq<char>, p: Seq<char>, from: int) -> Option<int>
    decreases s.len() + 1 - from,
    when 0 <= from
{
    if from + p.len() > s.len() {
        None
    } else if match_at(s, p, from) {
        Some(from)
    } else {
        first_at(s, p, from + 1)
    }
}

/// A match at `i` with none before it, from `from` on, is the first.
pub proof fn lemma_first_at_found(s: Seq<char>, p: Seq<char>, from: int, i: int)
    requires
        0 <= from <= i,
        match_at(s, p, i),
        forall|k: int| from <= k < i ==> !match_at(s, p, k),
    ensures
        first_at(s, p, from) == Some(i),
    decreases i - from,
{
    if from == i {
    } else {
        assert(!match_at(s, p, from));
        assert(from + p.len() <= s.len());
        lemma_first_at_found(s, p, from + 1, i);
    }
}

/// No match anywhere from `from` on means no first match.
pub proof fn lemma_first_at_none(s: Seq<char>, p: Seq<char>, from: int)
    requires
        0 <= from,
        forall|k: int| from <= k ==> !match_at(s, p, k),
    ensures
        first_at(s, p, from) is None,
    decreases s.len() + 1 - from,
{
    if from + p.len() > s.len() {
    } else {
        assert(!match_at(s, p, from));
        lemma_first_at_none(s, p, from + 1);
    }
}

/// ASCII upper-casing of one character.
pub open spec fn up_char(c: char) -> char {
    if 'a' <= c && c <= 'z' {
        ((c as u8) - 0x20) as char
    } else {
        c
    }
}

fn up_char_exec(c: char) -> (r: char)
    ensures
        r == up_char(c),
{
    if 'a' <= c && c <= 'z' {
        ((c as u8) - 0x20) as char
    } else {
        c
    }
}

/// Whether `s`, upper-cased ASCII-wise, contains the word "DATE".
pub open spec fn contains_date(s: Seq<char>) -> bool {
    exists|i: int|
        0 <= i && i + 4 <= s.len() && #[trigger] up_char(s[i]) == 'D' && up_char(s[i + 1]) == 'A'
            && up_char(s[i + 2]) == 'T' && up_char(s[i + 3]) == 'E'
}

/// Whether the name marks a millisecond-timestamp field: it contains
/// "date" in any letter case.
pub fn name_marks_date(s: &str) -> (r: bool)
    ensures
        r == contains_date(s@),
{
    let n: usize = s.unicode_len();
    if n < 4 {
        return false;
    }
    let mut i: usize = 0;
    while i <= n - 4
        invariant
            0 <= i <= n - 3,
            4 <= n,
            n == s@.len(),
            forall|k: int|
                0 <= k < i ==> !(#[trigger] up_char(s@[k]) == 'D' && up_char(s@[k + 1]) == 'A'
                    && up_char(s@[k + 2]) == 'T' && up_char(s@[k + 3]) == 'E'),
        decreases n - i,
    {
        if up_char_exec(s.get_char(i)) == 'D' && up_char_exec(s.get_char(i + 1)) == 'A'
            && up_char_exec(s.get_char(i + 2)) == 'T' && up_char_exec(s.get_char(i + 3)) == 'E' {
            return true;
        }
        i = i + 1;
    }
    false
}

/// Whether `c` is a decimal digit.
pub open spec fn is_digit(c: char) -> bool {
    '0' <= c && c <= '9'
}

/// Numeric value of a digit character.
pub open spec fn digit_val(c: char) -> nat {
    (c as nat - '0' as nat) as nat
}

/// Value of a sequence of decimal digits, most significant first.
pub open spec fn dec_val(s: Seq<char>) -> nat
    decreases s.len(),
{
    if s.len() == 0 {
        0
    } else {
        dec_val(s.drop_last()) * 10 + digit_val(s.last())
    }
}

/// Digit character for a value below ten.
pub open spec fn digit_char(n: nat) -> char {
    (('0' as u8) + (n as u8)) as char
}

/// Decimal representation of `n`, without sign or leading zeros.
pub open spec fn dec_str(n: nat) -> Seq<char>
    decreases n,
{
    if n < 10 {
        seq![digit_char(n)]
    } else {
        dec_str(n / 10).push(digit_char(n % 10))
    }
}

/// Value of a digit run, if it is non-empty, all digits, and fits.
pub open spec fn dec_opt(d: Seq<char>) -> Option<usize> {
    if d.len() > 0 && (forall|k: int| 0 <= k < d.len() ==> is_digit(#[trigger] d[k])) && dec_val(d)
        <= usize::MAX {
        Some(dec_val(d) as usize)
    } else {
        None
    }
}

/// What `str::parse::<usize>` accepts: an optional leading `+`, then one
/// or more decimal digits whose value fits in `usize`.
pub open spec fn parse_usize_spec(s: Seq<char>) -> Option<usize> {
    if s.len() > 0 && s[0] == '+' {
        dec_opt(s.drop_first())
    } else {
        dec_opt(s)
    }
}

proof fn lemma_dec_val_step(s: Seq<char>, k: int)
    requires
        0 <= k < s.len(),
    ensures
        dec_val(s.take(k + 1)) == dec_val(s.take(k)) * 10 + digit_val(s[k]),
{
    assert(s.take(k + 1).drop_last() =~= s.take(k));
    assert(s.take(k + 1).last() == s[k]);
}

proof fn lemma_dec_val_mono(s: Seq<char>, k: int)
    requires
        0 <= k <= s.len(),
    ensures
        dec_val(s.take(k)) <= dec_val(s),
    decreases s.len() - k,
{
    if k == s.len() {
        assert(s.take(k) =~= s);
    } else {
        lemma_dec_val_step(s, k);
        assert(dec_val(s.take(k)) <= dec_val(s.take(k + 1)));
        lemma_dec_val_mono(s, k + 1);
    }
}

fn parse_digits(s: &str, start: usize) -> (r: Option<usize>)
    requires
        start < s@.len(),
    ensures
        r == dec_opt(s@.skip(start as int)),
{
    let ghost d = s@.skip(start as int);
    let n: usize = s.unicode_len();
    let mut acc: usize = 0;
    let mut i: usize = start;
    while i < n
        invariant
            start <= i <= n,
            n == s@.len(),
            start < n,
            d == s@.skip(start as int),
            forall|k: int| 0 <= k < i - start ==> is_digit(d[k]),
            acc == dec_val(d.take(i - start)),
        decreases n - i,
    {
        let c = s.get_char(i);
        assert(d[i - start] == c);
        if !('0' <= c && c <= '9') {
            assert(!is_digit(d[i - start]));
            return None;
        }
        let dv: usize = (c as u8 - 0x30) as usize;
        assert(dv == digit_val(c));
        proof {
            lemma_dec_val_step(d, i - start);
        }
        let m = acc.checked_mul(10);
        let nxt = match m {
            Some(t) => t.checked_add(dv),
            None => None,
        };
        match nxt {
            Some(v) => {
                acc = v;
            },
            None => {
                proof {
                    assert(dec_val(d.take(i - start + 1)) > usize::MAX);
                    lemma_dec_val_mono(d, i - start + 1);
                }
                return None;
            },
        }
        i = i + 1;
    }
    proof {
        assert(d.take(n - start) =~= d);
    }
    Some(acc)
}

/// Parse a non-negative decimal integer as `str::parse::<usize>` does.
pub fn parse_usize(s: &str) -> (r: Option<usize>)
    ensures
        r == parse_usize_spec(s@),
{
    let n: usize = s.unicode_len();
    if n == 0 {
        return None;
    }
    if s.get_char(0) == '+' {
        if n == 1 {
            assert(s@.drop_first().len() == 0);
            return None;
        }
        let r = parse_digits(s, 1);
        assert(s@.skip(1) =~= s@.drop_first());
        r
    } else {
        let r = parse_digits(s, 0);
        assert(s@.skip(0) =~= s@);
        r
    }
}

/// Value of a digit run, if it is non-empty and all digits.
pub open spec fn dec_val_opt(d: Seq<char>) -> Option<nat> {
    if d.len() > 0 && (forall|k: int| 0 <= k < d.len() ==> is_digit(#[trigger] d[k])) {
        Some(dec_val(d))
    } else {
        None
    }
}

/// Value of a digit run as a `u64`, if it is non-empty, all digits, and fits.
pub open spec fn dec_opt_u64(d: Seq<char>) -> Option<u64> {
    match dec_val_opt(d) {
        Some(v) => if v <= u64::MAX {
            Some(v as u64)
        } else {
            None
        },
        None => None,
    }
}

/// What `str::parse::<i64>` accepts: an optional sign, then one or more
/// decimal digits whose signed value fits in `i64`.
pub open spec fn parse_i64_spec(s: Seq<char>) -> Option<i64> {
    if s.len() == 0 {
        None
    } else {
        let neg = s[0] == '-';
        let d = if s[0] == '-' || s[0] == '+' {
            s.drop_first()
        } else {
            s
        };
        match dec_val_opt(d) {
            Some(v) => if neg {
                if v <= 0x8000_0000_0000_0000 {
                    Some((0 - v) as i64)
                } else {
                    None
                }
            } else {
                if v <= i64::MAX {
                    Some(v as i64)
                } else {
                    None
                }
            },
            None => None,
        }
    }
}

fn parse_digits_u64(s: &str, start: usize) -> (r: Option<u64>)
    requires
        start < s@.len(),
    ensures
        r == dec_opt_u64(s@.skip(start as int)),
{
    let ghost d = s@.skip(start as int);
    let n: usize = s.unicode_len();
    let mut acc: u64 = 0;
    let mut i: usize = start;
    while i < n
        invariant
            start <= i <= n,
            n == s@.len(),
            start < n,
            d == s@.skip(start as int),
            forall|k: int| 0 <= k < i - start ==> is_digit(d[k]),
            acc == dec_val(d.take(i - start)),
        decreases n - i,
    {
        let c = s.get_char(i);
        assert(d[i - start] == c);
        if !('0' <= c && c <= '9') {
            assert(!is_digit(d[i - start]));
            return None;
        }
        let dv: u64 = (c as u8 - 0x30) as u64;
        assert(dv == digit_val(c));
        proof {
            lemma_dec_val_step(d, i - start);
        }
        let m = acc.checked_mul(10);
        let nxt = match m {
            Some(t) => t.checked_add(dv),
            None => None,
        };
        match nxt {
            Some(v) => {
                acc = v;
            },
            None => {
                proof {
                    assert(dec_val(d.take(i - start + 1)) > u64::MAX);
                    lemma_dec_val_mono(d, i - start + 1);
                }
                return None;
            },
        }
        i = i + 1;
    }
    proof {
        assert(d.take(n - start) =~= d);
    }
    Some(acc)
}

/// Parse a signed decimal integer as `str::parse::<i64>` does.
pub fn parse_i64(s: &str) -> (r: Option<i64>)
    ensures
        r == parse_i64_spec(s@),
{
    let n: usize = s.unicode_len();
    if n == 0 {
        return None;
    }
    let c0 = s.get_char(0);
    let neg = c0 == '-';
    let skip_sign = c0 == '-' || c0 == '+';
    let mag: Option<u64> = if skip_sign {
        if n == 1 {
            assert(s@.drop_first().len() == 0);
            return None;
        }
        let r = parse_digits_u64(s, 1);
        assert(s@.skip(1) =~= s@.drop_first());
        r
    } else {
        let r = parse_digits_u64(s, 0);
        assert(s@.skip(0) =~= s@);
        r
    };
    let ghost d = if skip_sign {
        s@.drop_first()
    } else {
        s@
    };
    match mag {
        None => {
            proof {
                match dec_val_opt(d) {
                    Some(v) => {
                        assert(v > u64::MAX);
                        assert(parse_i64_spec(s@) is None);
                    },
                    None => {
                        assert(parse_i64_spec(s@) is None);
                    },
                }
            }
            None
        },
        Some(m) => {
            assert(m == dec_val(d));
            if neg {
                if m <= 0x8000_0000_0000_0000 {
                    if m == 0x8000_0000_0000_0000 {
                        assert((0 - dec_val(d)) as i64 == i64::MIN);
                        Some(i64::MIN)
                    } else {
                        let r = 0i64 - (m as i64);
                        assert(r == (0 - dec_val(d)) as i64);
                        Some(r)
                    }
                } else {
                    None
                }
            } else {
                if m <= 0x7fff_ffff_ffff_ffff {
                    let r = m as i64;
                    assert(r == dec_val(d) as i64);
                    Some(r)
                } else {
                    None
                }
            }
        },
    }
}

fn digit_str(d: usize) -> (r: &'static str)
    requires
        d < 10,
    ensures
        r@ =~= seq![digit_char(d as nat)],
{
    proof {
        reveal_strlit("0");
        reveal_strlit("1");
        reveal_strlit("2");
        reveal_strlit("3");
        reveal_strlit("4");
        reveal_strlit("5");
        reveal_strlit("6");
        reveal_strlit("7");
        reveal_strlit("8");
        reveal_strlit("9");
    }
    if d == 0 {
        "0"
    } else if d == 1 {
        "1"
    } else if d == 2 {
        "2"
    } else if d == 3 {
        "3"
    } else if d == 4 {
        "4"
    } else if d == 5 {
        "5"
    } else if d == 6 {
        "6"
    } else if d == 7 {
        "7"
    } else {
        if d == 8 {
            "8"
        } else {
            "9"
        }
    }
}

/// Decimal string of `n`, as `usize::to_string` prints it.
pub fn usize_to_dec(n: usize) -> (r: String)
    ensures
        r@ == dec_str(n as nat),
    decreases n,
{
    if n < 10 {
        let s = digit_str(n);
        s.to_owned()
    } else {
        let mut s = usize_to_dec(n / 10);
        s.append(digit_str(n % 10));
        assert(s@ =~= dec_str(n as nat));
        s
    }
}

/// The sibling temporary path: the final path with ".tmp" appended.
pub open spec fn tmp_path_spec(p: Seq<char>) -> Seq<char> {
    p + ".tmp"@
}

/// Path of the temporary file written before the atomic rename.
pub fn tmp_path(p: &str) -> (r: String)
    ensures
        r@ == tmp_path_spec(p@),
{
    let mut s = p.to_owned();
    s.append(".tmp");
    s
}

/// How a file name is joined onto a directory, as `Path::join` does on
/// Unix-like systems: an absolute name replaces the directory, an empty
/// directory leaves the name alone, and otherwise a single separator is
/// placed between the two unless one is already there.
pub open spec fn join_path_spec(dir: Seq<char>, name: Seq<char>) -> Seq<char> {
    if name.len() > 0 && name[0] == '/' {
        name
    } else if dir.len() == 0 {
        name
    } else if dir.last() == '/' {
        dir + name
    } else {
        dir + seq!['/'] + name
    }
}

/// Join a file name onto a directory path.
pub fn join_path(dir: &str, name: &str) -> (r: String)
    ensures
        r@ == join_path_spec(dir@, name@),
{
    let nd: usize = dir.unicode_len();
    let nn: usize = name.unicode_len();
    if nn > 0 && name.get_char(0) == '/' {
        return name.to_owned();
    }
    if nd == 0 {
        return name.to_owned();
    }
    let mut s = dir.to_owned();
    if dir.get_char(nd - 1) != '/' {
        s.append("/");
        proof {
            reveal_strlit("/");
            assert("/"@ =~= seq!['/']);
        }
    }
    s.append(name);
    assert(s@ =~= join_path_spec(dir@, name@));
    s
}

} // verus!
