//! Version tokens: masking of cache-busting tokens, and version ordering.

use std::cmp::Ordering;
use vstd::prelude::*;

verus! {

/// An ASCII decimal digit.
pub open spec fn is_digit(c: char) -> bool {
    '0' <= c && c <= '9'
}

/// An ASCII hexadecimal digit, in either case.
pub open spec fn is_hex(c: char) -> bool {
    is_digit(c) || ('a' <= c && c <= 'f') || ('A' <= c && c <= 'F')
}

pub open spec fn all_digits(s: Seq<char>) -> bool {
    forall|i: int| 0 <= i < s.len() ==> is_digit(#[trigger] s[i])
}

pub open spec fn all_hex(s: Seq<char>) -> bool {
    forall|i: int| 0 <= i < s.len() ==> is_hex(#[trigger] s[i])
}

/// Ten digits starting with `1` or `2`: a Unix timestamp used to bust caches.
pub open spec fn is_timestamp(s: Seq<char>) -> bool {
    s.len() == 10 && all_digits(s) && (s[0] == '1' || s[0] == '2')
}

/// Seven or more hexadecimal characters, not all digits: a commit hash.
pub open spec fn is_commit_hash(s: Seq<char>) -> bool {
    s.len() >= 7 && all_hex(s) && !all_digits(s)
}

/// The display form of a raw version token.
pub open spec fn normalized(s: Seq<char>) -> Seq<char> {
    if is_timestamp(s) {
        "(timestamp:"@ + s + ")"@
    } else if is_commit_hash(s) {
        "(hash:"@ + s.take(7) + ")"@
    } else {
        s
    }
}

fn scan_digits(s: &str) -> (r: (bool, bool))
    ensures
        r.0 == all_digits(s@),
        r.1 == all_hex(s@),
{
    let n = s.unicode_len();
    let mut digits = true;
    let mut hex = true;
    let mut i: usize = 0;
    while i < n
        invariant
            n == s@.len(),
            i <= n,
            digits == all_digits(s@.take(i as int)),
            hex == all_hex(s@.take(i as int)),
        decreases n - i,
    {
        let c = s.get_char(i);
        proof {
            let t = s@.take(i as int);
            let t2 = s@.take(i + 1);
            assert(t2 == t.push(c));
            assert(t2[i as int] == c);
            assert forall|j: int| 0 <= j < t.len() implies t[j] == #[trigger] t2[j] by {}
        }
        if !('0' <= c && c <= '9') {
            digits = false;
        }
        if !(('0' <= c && c <= '9') || ('a' <= c && c <= 'f') || ('A' <= c && c <= 'F')) {
            hex = false;
        }
        i = i + 1;
    }
    proof {
        assert(s@.take(n as int) == s@);
    }
    (digits, hex)
}

/// Rewrites a raw `ver=` token: a timestamp becomes `(timestamp:<token>)`,
/// a commit hash becomes `(hash:<first seven characters>)`, and anything
/// else is returned as it is.
pub fn normalize_version(version: &str) -> (r: String)
    ensures
        r@ == normalized(version@),
{
    let n = version.unicode_len();
    let (digits, hex) = scan_digits(version);
    if n == 10 && digits && (version.get_char(0) == '1' || version.get_char(0) == '2') {
        let mut r = String::from_str("(timestamp:");
        r.append(version);
        r.append(")");
        r
    } else if n >= 7 && hex && !digits {
        let mut r = String::from_str("(hash:");
        r.append(version.substring_char(0, 7));
        r.append(")");
        r
    } else {
        version.to_owned()
    }
}

/// Normalizing twice gives what normalizing once gives.
pub proof fn lemma_normalize_idempotent(s: Seq<char>)
    ensures
        normalized(normalized(s)) == normalized(s),
{
    reveal_strlit("(timestamp:");
    reveal_strlit("(hash:");
    let t = normalized(s);
    if t != s {
        assert(t[0] == '(');
        assert(!is_hex(t[0]));
        assert(!all_hex(t));
        assert(!all_digits(t));
    }
}


/// A character that starts a pre-release suffix: `-` or an ASCII letter.
pub open spec fn is_suffix_char(c: char) -> bool {
    c == '-' || ('a' <= c && c <= 'z') || ('A' <= c && c <= 'Z')
}

/// The index of the first suffix character at or after `i`, or the length.
pub open spec fn suffix_start_from(v: Seq<char>, i: int) -> int
    decreases v.len() - i,
{
    if i >= v.len() {
        v.len() as int
    } else if is_suffix_char(v[i]) {
        i
    } else {
        suffix_start_from(v, i + 1)
    }
}

/// Whether the version carries a pre-release suffix.
pub open spec fn has_suffix(v: Seq<char>) -> bool {
    suffix_start_from(v, 0) < v.len()
}

/// The part of the version before its suffix.
pub open spec fn numeric_text(v: Seq<char>) -> Seq<char> {
    v.take(suffix_start_from(v, 0))
}

/// The text split at each `.`; always at least one (possibly empty) segment.
pub open spec fn split_dots(s: Seq<char>) -> Seq<Seq<char>>
    decreases s.len(),
{
    if s.len() == 0 {
        seq![Seq::<char>::empty()]
    } else {
        let prev = split_dots(s.drop_last());
        if s.last() == '.' {
            prev.push(Seq::<char>::empty())
        } else {
            prev.update(prev.len() - 1, prev.last().push(s.last()))
        }
    }
}

pub open spec fn digit_value(c: char) -> nat {
    (c as int - '0' as int) as nat
}

/// The number that a string of decimal digits denotes.
pub open spec fn digits_value(s: Seq<char>) -> nat
    decreases s.len(),
{
    if s.len() == 0 {
        0
    } else {
        digits_value(s.drop_last()) * 10 + digit_value(s.last())
    }
}

/// The digits of an unsigned number, after an optional leading `+`.
pub open spec fn unsigned_digits(s: Seq<char>) -> Seq<char> {
    if s.len() > 0 && s[0] == '+' {
        s.drop_first()
    } else {
        s
    }
}

/// What reading `s` as a `u64` gives: `None` unless it is an optional `+`
/// and one or more digits whose value fits.
pub open spec fn parse_u64(s: Seq<char>) -> Option<u64> {
    let d = unsigned_digits(s);
    if d.len() > 0 && all_digits(d) && digits_value(d) <= u64::MAX {
        Some(digits_value(d) as u64)
    } else {
        None
    }
}

/// The numbers of the segments that read as a `u64`, in order; the others
/// are dropped.
pub open spec fn parse_all(segs: Seq<Seq<char>>) -> Seq<u64>
    decreases segs.len(),
{
    if segs.len() == 0 {
        Seq::empty()
    } else {
        let prev = parse_all(segs.drop_last());
        match parse_u64(segs.last()) {
            Some(n) => prev.push(n),
            None => prev,
        }
    }
}

/// The numeric components of a version: `major.minor.patch...`.
pub open spec fn version_parts(v: Seq<char>) -> Seq<u64> {
    parse_all(split_dots(numeric_text(v)))
}

/// The `i`-th component, zero past the end.
pub open spec fn part_at(p: Seq<u64>, i: int) -> u64 {
    if 0 <= i < p.len() {
        p[i]
    } else {
        0
    }
}

pub open spec fn max_len(p: Seq<u64>, q: Seq<u64>) -> int {
    if p.len() >= q.len() {
        p.len() as int
    } else {
        q.len() as int
    }
}

/// Component-wise comparison of `p` and `q` over the indices `i..n`.
pub open spec fn cmp_parts(p: Seq<u64>, q: Seq<u64>, i: int, n: int) -> Ordering
    decreases n - i,
{
    if i >= n {
        Ordering::Equal
    } else if part_at(p, i) < part_at(q, i) {
        Ordering::Less
    } else if part_at(p, i) > part_at(q, i) {
        Ordering::Greater
    } else {
        cmp_parts(p, q, i + 1, n)
    }
}

/// Without a suffix is newer than with one; two of a kind are equal.
pub open spec fn suffix_order(a: bool, b: bool) -> Ordering {
    if !a && b {
        Ordering::Greater
    } else if a && !b {
        Ordering::Less
    } else {
        Ordering::Equal
    }
}

/// The order of two versions: numeric components first, zero-padded, then
/// the suffix rule.
pub open spec fn version_order(a: Seq<char>, b: Seq<char>) -> Ordering {
    let (p, q) = (version_parts(a), version_parts(b));
    let o = cmp_parts(p, q, 0, max_len(p, q));
    if o != Ordering::Equal {
        o
    } else {
        suffix_order(has_suffix(a), has_suffix(b))
    }
}

fn is_suffix_char_exec(c: char) -> (r: bool)
    ensures
        r == is_suffix_char(c),
{
    c == '-' || ('a' <= c && c <= 'z') || ('A' <= c && c <= 'Z')
}

fn parse_segment(seg: &str) -> (r: Option<u64>)
    ensures
        r == parse_u64(seg@),
{
    let n = seg.unicode_len();
    let mut i: usize = 0;
    if n > 0 && seg.get_char(0) == '+' {
        i = 1;
    }
    let start = i;
    let ghost d = seg@.subrange(start as int, n as int);
    assert(d == unsigned_digits(seg@));
    if start == n {
        return None;
    }
    let mut acc: u64 = 0;
    let mut overflow = false;
    while i < n
        invariant
            n == seg@.len(),
            start <= i <= n,
            d == seg@.subrange(start as int, n as int),
            d == unsigned_digits(seg@),
            d.len() > 0,
            all_digits(seg@.subrange(start as int, i as int)),
            !overflow ==> acc == digits_value(seg@.subrange(start as int, i as int)),
            overflow ==> digits_value(seg@.subrange(start as int, i as int)) > u64::MAX,
        decreases n - i,
    {
        let c = seg.get_char(i);
        if !('0' <= c && c <= '9') {
            assert(d[i - start] == c);
            return None;
        }
        let dv = (c as u32 - '0' as u32) as u64;
        let ghost t = seg@.subrange(start as int, i as int);
        let ghost t2 = seg@.subrange(start as int, i + 1);
        proof {
            assert(t2.drop_last() == t);
            assert(t2.last() == c);
            assert forall|j: int| 0 <= j < t2.len() implies is_digit(#[trigger] t2[j]) by {
                if j < t.len() {
                    assert(t2[j] == t[j]);
                }
            }
        }
        if !overflow {
            match acc.checked_mul(10) {
                Some(m) => match m.checked_add(dv) {
                    Some(x) => {
                        acc = x;
                    },
                    None => {
                        overflow = true;
                    },
                },
                None => {
                    overflow = true;
                },
            }
        }
        i = i + 1;
    }
    if overflow {
        None
    } else {
        Some(acc)
    }
}

/// The numeric components of a suffix-free version text.
fn split_parts(s: &str) -> (r: Vec<u64>)
    ensures
        r@ == parse_all(split_dots(s@)),
{
    let n = s.unicode_len();
    let mut parts: Vec<u64> = Vec::new();
    let mut start: usize = 0;
    let mut i: usize = 0;
    proof {
        assert(s@.take(0) == Seq::<char>::empty());
        assert(split_dots(s@.take(0)).drop_last() == Seq::<Seq<char>>::empty());
    }
    while i < n
        invariant
            n == s@.len(),
            start <= i <= n,
            split_dots(s@.take(i as int)).len() >= 1,
            split_dots(s@.take(i as int)).last() == s@.subrange(start as int, i as int),
            parts@ == parse_all(split_dots(s@.take(i as int)).drop_last()),
        decreases n - i,
    {
        let c = s.get_char(i);
        let ghost prev = split_dots(s@.take(i as int));
        proof {
            assert(s@.take(i + 1).drop_last() == s@.take(i as int));
            assert(s@.take(i + 1).last() == c);
            assert(prev == prev.drop_last().push(prev.last()));
        }
        if c == '.' {
            let seg = s.substring_char(start, i);
            match parse_segment(seg) {
                Some(v) => parts.push(v),
                None => {},
            }
            proof {
                assert(split_dots(s@.take(i + 1)).drop_last() == prev);
            }
            start = i + 1;
        } else {
            proof {
                let next = split_dots(s@.take(i + 1));
                assert(next.drop_last() == prev.drop_last());
                assert(s@.subrange(start as int, i + 1) == s@.subrange(start as int, i as int).push(c));
            }
        }
        i = i + 1;
    }
    let seg = s.substring_char(start, n);
    match parse_segment(seg) {
        Some(v) => parts.push(v),
        None => {},
    }
    proof {
        let all = split_dots(s@.take(n as int));
        assert(s@.take(n as int) == s@);
        assert(all == all.drop_last().push(all.last()));
    }
    parts
}

/// Splits a version into its numeric components and whether a suffix follows.
fn parse_version(v: &str) -> (r: (Vec<u64>, bool))
    ensures
        r.0@ == version_parts(v@),
        r.1 == has_suffix(v@),
{
    let n = v.unicode_len();
    let mut end: usize = 0;
    while end < n && !is_suffix_char_exec(v.get_char(end))
        invariant
            n == v@.len(),
            end <= n,
            suffix_start_from(v@, 0) == suffix_start_from(v@, end as int),
        decreases n - end,
    {
        end = end + 1;
    }
    let parts = split_parts(v.substring_char(0, end));
    (parts, end < n)
}

/// Compares two versions: `Less` when `current` is older than `latest`.
/// Numeric components are compared left to right, the shorter padded with
/// zeros; when they all agree, a version without suffix is the newer.
pub fn compare_versions(current: &str, latest: &str) -> (r: Ordering)
    ensures
        r == version_order(current@, latest@),
{
    let (cp, cs) = parse_version(current);
    let (lp, ls) = parse_version(latest);
    let n = if cp.len() >= lp.len() {
        cp.len()
    } else {
        lp.len()
    };
    let mut i: usize = 0;
    while i < n
        invariant
            i <= n,
            n == max_len(cp@, lp@),
            cp@ == version_parts(current@),
            lp@ == version_parts(latest@),
            cs == has_suffix(current@),
            ls == has_suffix(latest@),
            cmp_parts(cp@, lp@, 0, n as int) == cmp_parts(cp@, lp@, i as int, n as int),
        decreases n - i,
    {
        let c = if i < cp.len() {
            cp[i]
        } else {
            0
        };
        let l = if i < lp.len() {
            lp[i]
        } else {
            0
        };
        assert(c == part_at(cp@, i as int));
        assert(l == part_at(lp@, i as int));
        if c < l {
            assert(cmp_parts(cp@, lp@, i as int, n as int) == Ordering::Less);
            return Ordering::Less;
        }
        if c > l {
            assert(cmp_parts(cp@, lp@, i as int, n as int) == Ordering::Greater);
            return Ordering::Greater;
        }
        i = i + 1;
    }
    if !cs && ls {
        Ordering::Greater
    } else if cs && !ls {
        Ordering::Less
    } else {
        Ordering::Equal
    }
}

pub open spec fn reversed(o: Ordering) -> Ordering {
    match o {
        Ordering::Less => Ordering::Greater,
        Ordering::Equal => Ordering::Equal,
        Ordering::Greater => Ordering::Less,
    }
}

proof fn lemma_cmp_parts_reverse(p: Seq<u64>, q: Seq<u64>, i: int, n: int)
    ensures
        cmp_parts(q, p, i, n) == reversed(cmp_parts(p, q, i, n)),
    decreases n - i,
{
    if i < n {
        lemma_cmp_parts_reverse(p, q, i + 1, n);
    }
}

proof fn lemma_cmp_parts_reflexive(p: Seq<u64>, i: int, n: int)
    ensures
        cmp_parts(p, p, i, n) == Ordering::Equal,
    decreases n - i,
{
    if i < n {
        lemma_cmp_parts_reflexive(p, i + 1, n);
    }
}

/// Comparing over more indices past both lengths changes nothing.
proof fn lemma_cmp_parts_extend(p: Seq<u64>, q: Seq<u64>, i: int, n: int)
    requires
        0 <= i,
        n >= max_len(p, q),
    ensures
        cmp_parts(p, q, i, n) == cmp_parts(p, q, i, max_len(p, q)),
    decreases n - i,
{
    if i < n {
        lemma_cmp_parts_extend(p, q, i + 1, n);
    }
}

proof fn lemma_cmp_parts_transitive(p: Seq<u64>, q: Seq<u64>, r: Seq<u64>, i: int, n: int)
    ensures
        cmp_parts(p, q, i, n) != Ordering::Greater && cmp_parts(q, r, i, n) != Ordering::Greater
            ==> cmp_parts(p, r, i, n) != Ordering::Greater,
        cmp_parts(p, q, i, n) == Ordering::Less && cmp_parts(q, r, i, n) != Ordering::Greater
            ==> cmp_parts(p, r, i, n) == Ordering::Less,
        cmp_parts(p, q, i, n) != Ordering::Greater && cmp_parts(q, r, i, n) == Ordering::Less
            ==> cmp_parts(p, r, i, n) == Ordering::Less,
        cmp_parts(p, q, i, n) == Ordering::Equal && cmp_parts(q, r, i, n) == Ordering::Equal
            ==> cmp_parts(p, r, i, n) == Ordering::Equal,
    decreases n - i,
{
    if i < n {
        lemma_cmp_parts_transitive(p, q, r, i + 1, n);
    }
}

pub open spec fn max3(a: int, b: int, c: int) -> int {
    if a >= b && a >= c {
        a
    } else if b >= c {
        b
    } else {
        c
    }
}

/// Every version is equal to itself.
pub proof fn lemma_version_order_reflexive(a: Seq<char>)
    ensures
        version_order(a, a) == Ordering::Equal,
{
    lemma_cmp_parts_reflexive(version_parts(a), 0, max_len(version_parts(a), version_parts(a)));
}

/// Swapping the two versions reverses the result.
pub proof fn lemma_version_order_antisymmetric(a: Seq<char>, b: Seq<char>)
    ensures
        version_order(b, a) == reversed(version_order(a, b)),
{
    let (p, q) = (version_parts(a), version_parts(b));
    lemma_cmp_parts_reverse(p, q, 0, max_len(p, q));
    assert(max_len(p, q) == max_len(q, p));
}

/// The order is transitive: "not newer" chains, "older" chains through
/// "not newer", and "equal" chains.
pub proof fn lemma_version_order_transitive(a: Seq<char>, b: Seq<char>, c: Seq<char>)
    ensures
        version_order(a, b) != Ordering::Greater && version_order(b, c) != Ordering::Greater
            ==> version_order(a, c) != Ordering::Greater,
        version_order(a, b) == Ordering::Less && version_order(b, c) != Ordering::Greater
            ==> version_order(a, c) == Ordering::Less,
        version_order(a, b) != Ordering::Greater && version_order(b, c) == Ordering::Less
            ==> version_order(a, c) == Ordering::Less,
        version_order(a, b) == Ordering::Equal && version_order(b, c) == Ordering::Equal
            ==> version_order(a, c) == Ordering::Equal,
{
    let (p, q, r) = (version_parts(a), version_parts(b), version_parts(c));
    let n = max3(p.len() as int, q.len() as int, r.len() as int);
    lemma_cmp_parts_extend(p, q, 0, n);
    lemma_cmp_parts_extend(q, r, 0, n);
    lemma_cmp_parts_extend(p, r, 0, n);
    lemma_cmp_parts_transitive(p, q, r, 0, n);
}

} // verus!
