//! Verified text utilities: prefix and suffix tests, splitting and joining
//! on a separator, character substitution, and decimal rendering of
//! counters.  Subjects, resource ids and store keys are all built from
//! these.

use vstd::prelude::*;
use vstd::string::*;

verus! {

/// `s` begins with `p`.
pub open spec fn spec_starts_with(s: Seq<char>, p: Seq<char>) -> bool {
    p.len() <= s.len() && s.subrange(0, p.len() as int) == p
}

/// `s` ends with `p`.
pub open spec fn spec_ends_with(s: Seq<char>, p: Seq<char>) -> bool {
    p.len() <= s.len() && s.subrange(s.len() - p.len(), s.len() as int) == p
}

/// Whether the characters of `s` starting at `at` are exactly `p`.
fn match_at(s: &str, p: &str, at: usize) -> (r: bool)
    requires
        at + p@.len() <= s@.len(),
    ensures
        r == (s@.subrange(at as int, at + p@.len()) == p@),
{
    let pn = p.unicode_len();
    let sn = s.unicode_len();
    let mut j: usize = 0;
    while j < pn
        invariant
            j <= pn,
            pn == p@.len(),
            sn == s@.len(),
            at + pn <= sn,
            forall|t: int| 0 <= t < j ==> s@[at + t] == p@[t],
        decreases pn - j,
    {
        if s.get_char(at + j) != p.get_char(j) {
            assert(s@.subrange(at as int, at + p@.len())[j as int] != p@[j as int]);
            return false;
        }
        j += 1;
    }
    assert(s@.subrange(at as int, at + p@.len()) =~= p@);
    true
}

/// Whether `s` begins with `p`.
pub fn starts_with(s: &str, p: &str) -> (r: bool)
    ensures
        r == spec_starts_with(s@, p@),
{
    if p.unicode_len() > s.unicode_len() {
        return false;
    }
    match_at(s, p, 0)
}

/// Whether `s` ends with `p`.
pub fn ends_with(s: &str, p: &str) -> (r: bool)
    ensures
        r == spec_ends_with(s@, p@),
{
    let sn = s.unicode_len();
    let pn = p.unicode_len();
    if pn > sn {
        return false;
    }
    match_at(s, p, sn - pn)
}

/// Whether the views of two string slices are equal.
pub fn str_eq(a: &str, b: &str) -> (r: bool)
    ensures
        r == (a@ == b@),
{
    if a.unicode_len() != b.unicode_len() {
        return false;
    }
    let r = match_at(a, b, 0);
    proof {
        assert(a@.subrange(0, a@.len() as int) =~= a@);
    }
    r
}

/// `p` occurs in `s` as a contiguous run.
pub open spec fn spec_contains(s: Seq<char>, p: Seq<char>) -> bool {
    exists|i: int|
        0 <= i && i + p.len() <= s.len() && #[trigger] s.subrange(i, i + p.len() as int) == p
}

/// Whether `p` occurs in `s`.
pub fn contains_str(s: &str, p: &str) -> (r: bool)
    ensures
        r == spec_contains(s@, p@),
{
    let sn = s.unicode_len();
    let pn = p.unicode_len();
    if pn > sn {
        return false;
    }
    if pn == 0 {
        assert(s@.subrange(0, 0 + p@.len() as int) =~= p@);
        return true;
    }
    let mut i: usize = 0;
    while i <= sn - pn
        invariant
            1 <= pn <= sn,
            i <= sn - pn + 1,
            pn == p@.len(),
            sn == s@.len(),
            forall|k: int| 0 <= k < i ==> #[trigger] s@.subrange(k, k + p@.len() as int) != p@,
        decreases sn - pn + 1 - i,
    {
        if match_at(s, p, i) {
            return true;
        }
        i += 1;
    }
    false
}

/// The smallest index of `sep` in `s`, or `s.len()` if `sep` is absent.
pub open spec fn first_sep(s: Seq<char>, sep: char) -> nat
    decreases s.len(),
{
    if s.len() == 0 {
        0
    } else if s[0] == sep {
        0
    } else {
        1 + first_sep(s.drop_first(), sep)
    }
}

pub proof fn lemma_first_sep(s: Seq<char>, sep: char)
    ensures
        first_sep(s, sep) <= s.len(),
        forall|j: int| 0 <= j < first_sep(s, sep) ==> s[j] != sep,
        first_sep(s, sep) < s.len() ==> s[first_sep(s, sep) as int] == sep,
    decreases s.len(),
{
    if s.len() == 0 {
    } else if s[0] == sep {
    } else {
        lemma_first_sep(s.drop_first(), sep);
        assert forall|j: int| 0 <= j < first_sep(s, sep) implies s[j] != sep by {
            if j > 0 {
                assert(s.drop_first()[j - 1] != sep);
            }
        }
    }
}

/// The index of the first occurrence of `sep` in `s`, or the length of `s`
/// when `sep` is absent.
pub fn find_char(s: &str, sep: char) -> (r: usize)
    ensures
        r as nat == first_sep(s@, sep),
{
    proof {
        lemma_first_sep(s@, sep);
    }
    let n = s.unicode_len();
    let mut i: usize = 0;
    while i < n
        invariant
            i <= n,
            n == s@.len(),
            first_sep(s@, sep) <= s@.len(),
            forall|j: int| 0 <= j < first_sep(s@, sep) ==> s@[j] != sep,
            first_sep(s@, sep) < s@.len() ==> s@[first_sep(s@, sep) as int] == sep,
            forall|j: int| 0 <= j < i ==> s@[j] != sep,
        decreases n - i,
    {
        if s.get_char(i) == sep {
            proof {
                let f = first_sep(s@, sep);
                if f < i {
                    assert(s@[f as int] != sep);
                } else if f > i {
                    assert(s@[i as int] != sep);
                }
            }
            return i;
        }
        i += 1;
    }
    proof {
        let f = first_sep(s@, sep);
        if f < s@.len() {
            assert(s@[f as int] != sep);
        }
    }
    n
}

/// The tokens of `s` delimited by `sep`.  The empty string has one empty
/// token; `n` separators delimit `n + 1` tokens.
pub open spec fn spec_split(s: Seq<char>, sep: char) -> Seq<Seq<char>>
    decreases s.len(),
{
    let i = first_sep(s, sep);
    if i >= s.len() {
        seq![s]
    } else {
        seq![s.subrange(0, i as int)] + spec_split(s.subrange(i as int + 1, s.len() as int), sep)
    }
}

pub proof fn lemma_split_len(s: Seq<char>, sep: char)
    ensures
        spec_split(s, sep).len() >= 1,
    decreases s.len(),
{
    lemma_first_sep(s, sep);
    let i = first_sep(s, sep);
    if i < s.len() {
        lemma_split_len(s.subrange(i as int + 1, s.len() as int), sep);
    }
}

/// Splits `s` at every occurrence of `sep`.
pub fn split_str(s: &str, sep: char) -> (r: Vec<String>)
    ensures
        r.deep_view() == spec_split(s@, sep),
        r.len() >= 1,
    decreases s@.len(),
{
    proof {
        lemma_first_sep(s@, sep);
        lemma_split_len(s@, sep);
    }
    let n = s.unicode_len();
    let i = find_char(s, sep);
    if i == n {
        let mut r: Vec<String> = Vec::new();
        r.push(s.to_owned());
        assert(r.deep_view() =~= spec_split(s@, sep));
        r
    } else {
        let head = s.substring_char(0, i).to_owned();
        let tail = s.substring_char(i + 1, n);
        let mut r = split_str(tail, sep);
        let ghost old_rd = r.deep_view();
        let ghost old_rv = r@;
        r.insert(0, head);
        proof {
            assert forall|t: int| 0 <= t < r.len() implies r.deep_view()[t] == (seq![
                s@.subrange(0, first_sep(s@, sep) as int),
            ] + old_rd)[t] by {
                if t > 0 {
                    assert(r@[t] == old_rv[t - 1]);
                }
            }
            assert(r.deep_view() =~= seq![s@.subrange(0, first_sep(s@, sep) as int)] + old_rd);
        }
        r
    }
}

/// The tokens joined with `sep` between each pair.
pub open spec fn spec_join(parts: Seq<Seq<char>>, sep: char) -> Seq<char>
    decreases parts.len(),
{
    if parts.len() == 0 {
        Seq::empty()
    } else if parts.len() == 1 {
        parts[0]
    } else {
        parts[0] + seq![sep] + spec_join(parts.drop_first(), sep)
    }
}

fn join_from(parts: &Vec<String>, sep: &str, from: usize) -> (r: String)
    requires
        sep@.len() == 1,
        from <= parts.len(),
    ensures
        r@ == spec_join(parts.deep_view().subrange(from as int, parts.len() as int), sep@[0]),
    decreases parts.len() - from,
{
    let ghost sub = parts.deep_view().subrange(from as int, parts.len() as int);
    if from == parts.len() {
        let r = String::new();
        assert(r@ =~= spec_join(sub, sep@[0]));
        r
    } else if from == parts.len() - 1 {
        let item: &String = &parts[from];
        let r = item.clone();
        assert(sub[0] == parts.deep_view()[from as int]);
        r
    } else {
        let item: &String = &parts[from];
        let mut r = item.clone();
        r.append(sep);
        let rest = join_from(parts, sep, from + 1);
        r.append(rest.as_str());
        proof {
            assert(sub[0] == parts.deep_view()[from as int]);
            assert(sub.drop_first() =~= parts.deep_view().subrange(
                from + 1,
                parts.len() as int,
            ));
            assert(sep@ =~= seq![sep@[0]]);
            assert(r@ =~= spec_join(sub, sep@[0]));
        }
        r
    }
}

/// Joins the parts with the one-character separator `sep` between each
/// pair.
pub fn join_strings(parts: &Vec<String>, sep: &str) -> (r: String)
    requires
        sep@.len() == 1,
    ensures
        r@ == spec_join(parts.deep_view(), sep@[0]),
{
    let r = join_from(parts, sep, 0);
    proof {
        assert(parts.deep_view().subrange(0, parts.len() as int) =~= parts.deep_view());
    }
    r
}

/// `s` with every occurrence of `from` replaced by `to`.
pub open spec fn spec_replace(s: Seq<char>, from: char, to: char) -> Seq<char> {
    s.map(|_i: int, c: char| if c == from { to } else { c })
}

/// Replaces every occurrence of `from` in `s` with `to`.
pub fn replace_char(s: &str, from: char, to: char) -> (r: String)
    ensures
        r@ == spec_replace(s@, from, to),
{
    let n = s.unicode_len();
    let mut out: Vec<char> = Vec::new();
    let mut i: usize = 0;
    while i < n
        invariant
            i <= n,
            n == s@.len(),
            out@ =~= spec_replace(s@.subrange(0, i as int), from, to),
        decreases n - i,
    {
        let c = s.get_char(i);
        if c == from {
            out.push(to);
        } else {
            out.push(c);
        }
        assert(out@ =~= spec_replace(s@.subrange(0, i + 1 as int), from, to));
        i += 1;
    }
    assert(s@.subrange(0, s@.len() as int) =~= s@);
    string_from_chars(&out)
}

/// Relies on `core::iter::Iterator::collect` for `String`: collecting the
/// characters of a vector yields the string whose characters they are.
#[verifier::external_body]
pub fn string_from_chars(v: &Vec<char>) -> (r: String)
    ensures
        r@ == v@,
{
    v.iter().collect()
}

/// The decimal digit character for `d`.
pub open spec fn spec_digit(d: nat) -> char {
    if d == 0 {
        '0'
    } else if d == 1 {
        '1'
    } else if d == 2 {
        '2'
    } else if d == 3 {
        '3'
    } else if d == 4 {
        '4'
    } else if d == 5 {
        '5'
    } else if d == 6 {
        '6'
    } else if d == 7 {
        '7'
    } else if d == 8 {
        '8'
    } else {
        '9'
    }
}

/// The decimal rendering of `n`, most significant digit first.
pub open spec fn spec_dec(n: nat) -> Seq<char>
    decreases n,
{
    if n < 10 {
        seq![spec_digit(n)]
    } else {
        spec_dec(n / 10).push(spec_digit(n % 10))
    }
}

/// The decimal rendering of an integer, with a leading minus sign when it
/// is negative.
pub open spec fn spec_dec_int(n: int) -> Seq<char> {
    if n >= 0 {
        spec_dec(n as nat)
    } else {
        seq!['-'] + spec_dec((-n) as nat)
    }
}

fn digit_char(d: u64) -> (r: char)
    requires
        d < 10,
    ensures
        r == spec_digit(d as nat),
{
    match d {
        0 => '0',
        1 => '1',
        2 => '2',
        3 => '3',
        4 => '4',
        5 => '5',
        6 => '6',
        7 => '7',
        8 => '8',
        _ => '9',
    }
}

/// Renders `n` in decimal.
pub fn u64_to_string(n: u64) -> (r: String)
    ensures
        r@ == spec_dec(n as nat),
{
    let mut digits: Vec<char> = Vec::new();
    let mut m = n;
    loop
        invariant_except_break
            spec_dec(n as nat) =~= spec_dec(m as nat) + digits@,
        ensures
            spec_dec(n as nat) =~= digits@,
        decreases m,
    {
        let d = digit_char(m % 10);
        let ghost old_digits = digits@;
        digits.insert(0, d);
        proof {
            assert(digits@ =~= seq![spec_digit((m % 10) as nat)] + old_digits);
            if m >= 10 {
                assert(spec_dec(m as nat) == spec_dec((m / 10) as nat).push(
                    spec_digit((m % 10) as nat),
                ));
                assert(spec_dec(n as nat) =~= spec_dec((m / 10) as nat) + digits@);
            } else {
                assert(spec_dec(m as nat) =~= seq![spec_digit(m as nat)]);
                assert(spec_dec(n as nat) =~= digits@);
            }
        }
        if m < 10 {
            break;
        }
        m = m / 10;
    }
    string_from_chars(&digits)
}

/// Renders `n` in decimal, with a minus sign when negative.
pub fn i64_to_string(n: i64) -> (r: String)
    ensures
        r@ == spec_dec_int(n as int),
{
    if n >= 0 {
        u64_to_string(n as u64)
    } else {
        let mag: u64 = ((-(n + 1)) as u64) + 1;
        assert(mag as int == -(n as int));
        let mut r: String = "-".to_owned();
        let ds = u64_to_string(mag);
        r.append(ds.as_str());
        proof {
            reveal_strlit("-");
            assert(r@ =~= seq!['-'] + spec_dec((-(n as int)) as nat));
        }
        r
    }
}

/// Distinct numbers have distinct decimal renderings.
pub proof fn lemma_dec_injective(a: nat, b: nat)
    requires
        a != b,
    ensures
        spec_dec(a) != spec_dec(b),
    decreases a + b,
{
    lemma_dec_len(a);
    lemma_dec_len(b);
    if a < 10 && b < 10 {
        assert(spec_dec(a)[0] == spec_digit(a));
        assert(spec_dec(b)[0] == spec_digit(b));
    } else if a < 10 {
        assert(spec_dec(a).len() == 1);
        assert(spec_dec(b).len() >= 2);
    } else if b < 10 {
        assert(spec_dec(a).len() >= 2);
        assert(spec_dec(b).len() == 1);
    } else {
        if a % 10 != b % 10 {
            assert(spec_dec(a).last() == spec_digit((a % 10) as nat));
            assert(spec_dec(b).last() == spec_digit((b % 10) as nat));
        } else {
            assert(a / 10 != b / 10);
            lemma_dec_injective(a / 10, b / 10);
            assert(spec_dec(a).drop_last() =~= spec_dec(a / 10));
            assert(spec_dec(b).drop_last() =~= spec_dec(b / 10));
        }
    }
}

pub proof fn lemma_dec_len(n: nat)
    ensures
        spec_dec(n).len() >= 1,
        n >= 10 ==> spec_dec(n).len() >= 2,
    decreases n,
{
    if n >= 10 {
        lemma_dec_len(n / 10);
    }
}

} // verus!
