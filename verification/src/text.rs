//! Character-level text utilities with exact specifications: token
//! substitution, decimal rendering and small string builders.
use vstd::prelude::*;
use vstd::string::*;

verus! {

/// `pat` occurs in `s` starting at position `i`.
pub open spec fn matches_at(s: Seq<char>, i: int, pat: Seq<char>) -> bool {
    &&& 0 <= i
    &&& i + pat.len() <= s.len()
    &&& forall|j: int| 0 <= j < pat.len() ==> #[trigger] s[i + j] == pat[j]
}

/// Left-to-right replacement of every non-overlapping occurrence of `pat`
/// in `s`, starting the scan at position `i`.
pub open spec fn replace_from(s: Seq<char>, pat: Seq<char>, rep: Seq<char>, i: int) -> Seq<char>
    decreases s.len() - i,
{
    if i < 0 || i >= s.len() {
        Seq::empty()
    } else if pat.len() == 0 {
        s.skip(i)
    } else if matches_at(s, i, pat) {
        rep + replace_from(s, pat, rep, i + pat.len())
    } else {
        seq![s[i]] + replace_from(s, pat, rep, i + 1)
    }
}

/// Every non-overlapping occurrence of `pat` in `s`, scanning from the left,
/// replaced by `rep`. An empty pattern leaves `s` unchanged.
pub open spec fn replace_all(s: Seq<char>, pat: Seq<char>, rep: Seq<char>) -> Seq<char> {
    replace_from(s, pat, rep, 0)
}

/// `s` with each occurrence of the character `from` replaced by `to`.
pub open spec fn replace_char_spec(s: Seq<char>, from: char, to: char) -> Seq<char> {
    s.map_values(|c: char| if c == from { to } else { c })
}

/// The ASCII decimal digit for `d` (for `d < 10`).
pub open spec fn digit_char(d: nat) -> char {
    if d == 0 { '0' }
    else if d == 1 { '1' }
    else if d == 2 { '2' }
    else if d == 3 { '3' }
    else if d == 4 { '4' }
    else if d == 5 { '5' }
    else if d == 6 { '6' }
    else if d == 7 { '7' }
    else if d == 8 { '8' }
    else { '9' }
}

/// The decimal representation of `n`, without sign or leading zeros.
pub open spec fn decimal(n: nat) -> Seq<char>
    decreases n,
{
    if n < 10 {
        seq![digit_char(n)]
    } else {
        decimal(n / 10).push(digit_char(n % 10))
    }
}

/// The number that the decimal digits `s` stand for.
pub open spec fn digits_value(s: Seq<char>) -> int
    decreases s.len(),
{
    if s.len() == 0 {
        0
    } else {
        digits_value(s.drop_last()) * 10 + (s.last() as int - '0' as int)
    }
}

proof fn lemma_digit_char_value(d: nat)
    requires
        d < 10,
    ensures
        digit_char(d) as int - '0' as int == d,
        '0' <= digit_char(d) <= '9',
        digit_char(d) == '0' ==> d == 0,
{
    if d == 0 {
    } else if d == 1 {
    } else if d == 2 {
    } else if d == 3 {
    } else if d == 4 {
    } else if d == 5 {
    } else if d == 6 {
    } else if d == 7 {
    } else if d == 8 {
    } else {
        assert(d == 9);
    }
}

/// Decimal rendering is exact: `decimal(n)` is made of digits only, reads
/// back as `n`, and starts with `0` only for `n == 0` itself.
pub proof fn lemma_decimal_law(n: nat)
    ensures
        decimal(n).len() >= 1,
        forall|k: int| 0 <= k < decimal(n).len() ==> '0' <= #[trigger] decimal(n)[k] <= '9',
        digits_value(decimal(n)) == n,
        decimal(n)[0] == '0' ==> n == 0,
    decreases n,
{
    if n < 10 {
        lemma_digit_char_value(n);
        assert(decimal(n) == seq![digit_char(n)]);
        assert(seq![digit_char(n)].drop_last() =~= Seq::<char>::empty());
        assert(digits_value(Seq::<char>::empty()) == 0);
        assert(digits_value(seq![digit_char(n)]) == digits_value(seq![digit_char(n)].drop_last()) * 10 + (digit_char(
            n,
        ) as int - '0' as int));
    } else {
        let q = n / 10;
        let r = n % 10;
        lemma_digit_char_value(r);
        lemma_decimal_law(q);
        let d = decimal(q);
        assert(decimal(n) == d.push(digit_char(r)));
        assert(d.push(digit_char(r)).drop_last() =~= d);
        assert(n == q * 10 + r);
        assert(digits_value(d.push(digit_char(r))) == digits_value(d) * 10 + (digit_char(r) as int - '0' as int));
        assert forall|k: int| 0 <= k < decimal(n).len() implies '0' <= #[trigger] decimal(n)[k] <= '9' by {
            if k < d.len() {
                assert(decimal(n)[k] == d[k]);
            }
        }
        assert(decimal(n)[0] == d[0]);
        assert(q > 0);
    }
}

/// `s` ends with `suffix`.
pub open spec fn ends_with_spec(s: Seq<char>, suffix: Seq<char>) -> bool {
    suffix.len() <= s.len() && s.skip(s.len() - suffix.len()) == suffix
}

/// A replacement scan that starts at a character that `pat` cannot start
/// with copies that character.
proof fn lemma_replace_from_no_start(s: Seq<char>, pat: Seq<char>, rep: Seq<char>, i: int)
    requires
        pat.len() > 0,
        forall|k: int| i <= k < s.len() ==> s[k] != pat[0],
        0 <= i <= s.len(),
    ensures
        replace_from(s, pat, rep, i) == s.skip(i),
    decreases s.len() - i,
{
    if i < s.len() {
        assert(!matches_at(s, i, pat)) by {
            assert(s[i + 0] != pat[0]);
        }
        lemma_replace_from_no_start(s, pat, rep, i + 1);
        assert(seq![s[i]] + s.skip(i + 1) =~= s.skip(i));
    } else {
        assert(s.skip(i) =~= Seq::<char>::empty());
    }
}

/// Replacing a pattern whose first character never occurs in `s` leaves `s`
/// unchanged.
pub proof fn lemma_replace_all_absent(s: Seq<char>, pat: Seq<char>, rep: Seq<char>)
    requires
        pat.len() > 0,
        forall|k: int| 0 <= k < s.len() ==> s[k] != pat[0],
    ensures
        replace_all(s, pat, rep) == s,
{
    lemma_replace_from_no_start(s, pat, rep, 0);
    assert(s.skip(0) =~= s);
}

/// A replacement scan from position `i + j` of `s` is the scan from `j` of
/// `s` without its first `i` characters.
proof fn lemma_replace_from_shift(s: Seq<char>, pat: Seq<char>, rep: Seq<char>, i: int, j: int)
    requires
        0 <= i <= s.len(),
        0 <= j,
    ensures
        replace_from(s, pat, rep, i + j) == replace_from(s.skip(i), pat, rep, j),
    decreases s.len() - i - j,
{
    let t = s.skip(i);
    if i + j < s.len() && pat.len() > 0 {
        assert(matches_at(s, i + j, pat) == matches_at(t, j, pat)) by {
            if matches_at(s, i + j, pat) {
                assert forall|m: int| 0 <= m < pat.len() implies #[trigger] t[j + m] == pat[m] by {
                    assert(t[j + m] == s[i + (j + m)]);
                    assert(s[(i + j) + m] == pat[m]);
                }
            }
            if matches_at(t, j, pat) {
                assert forall|m: int| 0 <= m < pat.len() implies #[trigger] s[(i + j) + m] == pat[m] by {
                    assert(t[j + m] == s[i + (j + m)]);
                    assert(t[j + m] == pat[m]);
                }
            }
        }
        if matches_at(s, i + j, pat) {
            lemma_replace_from_shift(s, pat, rep, i, j + pat.len());
        } else {
            lemma_replace_from_shift(s, pat, rep, i, j + 1);
            assert(s[i + j] == t[j]);
        }
    } else if i + j < s.len() {
        assert(s.skip(i + j) =~= t.skip(j));
    }
}

/// `replace_all` one step at a time: an occurrence at the front is
/// replaced, any other first character is kept, and the rest is scanned.
pub proof fn lemma_replace_all_step(s: Seq<char>, pat: Seq<char>, rep: Seq<char>)
    requires
        pat.len() > 0,
    ensures
        s.len() == 0 ==> replace_all(s, pat, rep) == s,
        s.len() > 0 && matches_at(s, 0, pat) ==> replace_all(s, pat, rep) == rep + replace_all(
            s.skip(pat.len() as int),
            pat,
            rep,
        ),
        s.len() > 0 && !matches_at(s, 0, pat) ==> replace_all(s, pat, rep) == seq![s[0]] + replace_all(
            s.drop_first(),
            pat,
            rep,
        ),
{
    if s.len() == 0 {
        assert(replace_all(s, pat, rep) =~= s);
    } else if matches_at(s, 0, pat) {
        lemma_replace_from_shift(s, pat, rep, pat.len() as int, 0);
    } else {
        lemma_replace_from_shift(s, pat, rep, 1, 0);
        assert(s.skip(1) =~= s.drop_first());
    }
}

/// Where `s` holds no first character of `pat` before position `m`, those
/// characters are kept and the scan goes on from `m`.
pub proof fn lemma_replace_all_keeps_prefix(s: Seq<char>, pat: Seq<char>, rep: Seq<char>, m: int)
    requires
        pat.len() > 0,
        0 <= m <= s.len(),
        forall|k: int| 0 <= k < m ==> s[k] != pat[0],
    ensures
        replace_all(s, pat, rep) == s.take(m) + replace_all(s.skip(m), pat, rep),
    decreases m,
{
    if m == 0 {
        assert(s.take(0) + s.skip(0) =~= s);
        assert(s.take(0) + replace_all(s.skip(0), pat, rep) =~= replace_all(s, pat, rep));
    } else {
        lemma_replace_all_step(s, pat, rep);
        assert(!matches_at(s, 0, pat)) by {
            assert(s[0int + 0int] != pat[0]);
        }
        let t = s.drop_first();
        lemma_replace_all_keeps_prefix(t, pat, rep, m - 1);
        assert(t.skip(m - 1) =~= s.skip(m));
        assert(seq![s[0]] + t.take(m - 1) =~= s.take(m));
        assert(replace_all(s, pat, rep) == seq![s[0]] + (t.take(m - 1) + replace_all(t.skip(m - 1), pat, rep)));
        assert(seq![s[0]] + (t.take(m - 1) + replace_all(s.skip(m), pat, rep)) =~= s.take(m) + replace_all(
            s.skip(m),
            pat,
            rep,
        ));
    }
}

/// The characters of `s`, in order.
#[verifier::external_body]
pub fn chars_of(s: &str) -> (r: Vec<char>)
    ensures
        r@ == s@,
{
    s.chars().collect()
}

/// The string made of the characters of `v`, in order.
#[verifier::external_body]
pub fn string_of(v: &Vec<char>) -> (r: String)
    ensures
        r@ == v@,
{
    v.iter().collect()
}

/// Whether `pat` occurs in `s` at position `i`.
fn matches_at_exec(s: &Vec<char>, i: usize, pat: &Vec<char>) -> (r: bool)
    requires
        i <= s@.len(),
    ensures
        r == matches_at(s@, i as int, pat@),
{
    let sl = s.len();
    if pat.len() > sl - i {
        return false;
    }
    let mut j: usize = 0;
    while j < pat.len()
        invariant
            sl == s@.len(),
            i + pat@.len() <= s@.len(),
            j <= pat@.len(),
            forall|k: int| 0 <= k < j ==> #[trigger] s@[i + k] == pat@[k],
        decreases pat@.len() - j,
    {
        if s[i + j] != pat[j] {
            assert(s@[i + j as int] != pat@[j as int]);
            return false;
        }
        j = j + 1;
    }
    true
}

/// Replaces every non-overlapping occurrence of `pat` in `s`, scanning from
/// the left.
pub fn replace_chars(s: &Vec<char>, pat: &Vec<char>, rep: &Vec<char>) -> (r: Vec<char>)
    requires
        pat@.len() > 0,
    ensures
        r@ == replace_all(s@, pat@, rep@),
{
    let mut out: Vec<char> = Vec::new();
    let mut i: usize = 0;
    while i < s.len()
        invariant
            pat@.len() > 0,
            i <= s@.len(),
            out@ + replace_from(s@, pat@, rep@, i as int) == replace_all(s@, pat@, rep@),
        decreases s@.len() - i,
    {
        let ghost before = out@;
        if matches_at_exec(s, i, pat) {
            let mut k: usize = 0;
            while k < rep.len()
                invariant
                    k <= rep@.len(),
                    out@ == before + rep@.take(k as int),
                decreases rep@.len() - k,
            {
                out.push(rep[k]);
                k = k + 1;
                assert(out@ =~= before + rep@.take(k as int));
            }
            assert(rep@.take(rep@.len() as int) =~= rep@);
            assert(before + (rep@ + replace_from(s@, pat@, rep@, i + pat@.len()))
                =~= out@ + replace_from(s@, pat@, rep@, i + pat@.len()));
            i = i + pat.len();
        } else {
            out.push(s[i]);
            assert(before + (seq![s@[i as int]] + replace_from(s@, pat@, rep@, i + 1))
                =~= out@ + replace_from(s@, pat@, rep@, i + 1));
            i = i + 1;
        }
    }
    assert(replace_from(s@, pat@, rep@, i as int) =~= Seq::<char>::empty());
    assert(out@ + Seq::<char>::empty() =~= out@);
    out
}

/// `s` with each `from` character replaced by `to`.
pub fn replace_char(s: &str, from: char, to: char) -> (r: String)
    ensures
        r@ == replace_char_spec(s@, from, to),
{
    let cs = chars_of(s);
    let mut out: Vec<char> = Vec::new();
    let mut i: usize = 0;
    while i < cs.len()
        invariant
            i <= cs@.len(),
            cs@ == s@,
            out@ == replace_char_spec(s@, from, to).take(i as int),
        decreases cs@.len() - i,
    {
        let c = cs[i];
        if c == from {
            out.push(to);
        } else {
            out.push(c);
        }
        i = i + 1;
        assert(out@ =~= replace_char_spec(s@, from, to).take(i as int));
    }
    assert(replace_char_spec(s@, from, to).take(i as int) =~= replace_char_spec(s@, from, to));
    string_of(&out)
}

fn digit(d: u64) -> (c: char)
    requires
        d < 10,
    ensures
        c == digit_char(d as nat),
{
    if d == 0 { '0' }
    else if d == 1 { '1' }
    else if d == 2 { '2' }
    else if d == 3 { '3' }
    else if d == 4 { '4' }
    else if d == 5 { '5' }
    else if d == 6 { '6' }
    else if d == 7 { '7' }
    else if d == 8 { '8' }
    else { '9' }
}

fn push_decimal(n: u64, out: &mut Vec<char>)
    ensures
        final(out)@ == old(out)@ + decimal(n as nat),
    decreases n,
{
    if n >= 10 {
        push_decimal(n / 10, out);
    }
    let ghost mid = out@;
    out.push(digit(n % 10));
    proof {
        if n >= 10 {
            assert(out@ =~= old(out)@ + decimal(n as nat));
        } else {
            assert(out@ =~= old(out)@ + decimal(n as nat));
        }
    }
}

/// The decimal representation of `n`.
pub fn decimal_string(n: u64) -> (r: String)
    ensures
        r@ == decimal(n as nat),
{
    let mut v: Vec<char> = Vec::new();
    push_decimal(n, &mut v);
    assert(v@ =~= decimal(n as nat));
    string_of(&v)
}

/// `s` followed by `t`.
pub fn concat(s: &str, t: &str) -> (r: String)
    ensures
        r@ == s@ + t@,
{
    let mut r = String::from_str(s);
    r.append(t);
    r
}

/// The three strings, one after the other.
pub fn concat3(a: &str, b: &str, c: &str) -> (r: String)
    ensures
        r@ == a@ + b@ + c@,
{
    let mut r = String::from_str(a);
    r.append(b);
    r.append(c);
    r
}

/// Whether `s` ends with `suffix`.
pub fn ends_with(s: &str, suffix: &str) -> (r: bool)
    ensures
        r == ends_with_spec(s@, suffix@),
{
    let cs = chars_of(s);
    let xs = chars_of(suffix);
    if xs.len() > cs.len() {
        return false;
    }
    let cl = cs.len();
    let off = cl - xs.len();
    let mut j: usize = 0;
    while j < xs.len()
        invariant
            cl == cs@.len(),
            cs@ == s@,
            xs@ == suffix@,
            off + xs@.len() == cs@.len(),
            j <= xs@.len(),
            forall|k: int| 0 <= k < j ==> #[trigger] cs@[off + k] == xs@[k],
        decreases xs@.len() - j,
    {
        if cs[off + j] != xs[j] {
            assert(s@.skip(off as int)[j as int] != suffix@[j as int]);
            return false;
        }
        j = j + 1;
    }
    assert forall|k: int| 0 <= k < suffix@.len() implies s@.skip(off as int)[k] == suffix@[k] by {
        assert(cs@[off + k] == xs@[k]);
    }
    assert(s@.skip(off as int) =~= suffix@);
    true
}

/// Whether the two strings hold the same characters.
pub fn str_equal(a: &str, b: &str) -> (r: bool)
    ensures
        r == (a@ == b@),
{
    let x = String::from_str(a);
    let y = String::from_str(b);
    x == y
}

} // verus!
