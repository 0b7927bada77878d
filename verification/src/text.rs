//! Character-level helpers: prefixes, decimal rendering and decimal parsing.

use vstd::prelude::*;

verus! {

/// `String::push` appends one character at the end of the string (std documentation).
pub assume_specification[ String::push ](string: &mut String, ch: char)
    ensures
        final(string)@ == old(string)@.push(ch),
;

/// Whether `s` begins with `p`.
pub open spec fn has_prefix(s: Seq<char>, p: Seq<char>) -> bool {
    p.len() <= s.len() && s.subrange(0, p.len() as int) == p
}

/// The characters of `s`, one per Unicode scalar value.
pub fn chars_of(s: &str) -> (v: Vec<char>)
    ensures
        v@ == s@,
{
    let n = s.unicode_len();
    let mut v: Vec<char> = Vec::new();
    let mut i: usize = 0;
    while i < n
        invariant
            n == s@.len(),
            i <= n,
            v@ == s@.subrange(0, i as int),
        decreases n - i,
    {
        v.push(s.get_char(i));
        i += 1;
    }
    v
}

/// Whether the characters `v[from..]` begin with `p`.
pub fn has_prefix_at(v: &Vec<char>, from: usize, p: &str) -> (r: bool)
    requires
        from <= v@.len(),
    ensures
        r == has_prefix(v@.subrange(from as int, v@.len() as int), p@),
{
    let pc = chars_of(p);
    let vl = v.len();
    if pc.len() > vl - from {
        return false;
    }
    let mut i: usize = 0;
    while i < pc.len()
        invariant
            vl == v@.len(),
            from + pc@.len() <= v@.len(),
            pc@ == p@,
            i <= pc@.len(),
            forall|k: int| 0 <= k < i ==> v@[from + k] == pc@[k],
        decreases pc@.len() - i,
    {
        if v[from + i] != pc[i] {
            assert(v@.subrange(from as int, v@.len() as int).subrange(0, pc@.len() as int)[i as int]
                != pc@[i as int]);
            return false;
        }
        i += 1;
    }
    assert(v@.subrange(from as int, v@.len() as int).subrange(0, pc@.len() as int) =~= pc@);
    true
}

/// Whether `v` begins with `p`.
pub fn has_prefix_chars(v: &Vec<char>, p: &str) -> (r: bool)
    ensures
        r == has_prefix(v@, p@),
{
    let r = has_prefix_at(v, 0, p);
    assert(v@.subrange(0, v@.len() as int) =~= v@);
    r
}

/// Whether the characters `v[from..to]` are exactly `p`.
pub fn slice_equals(v: &Vec<char>, from: usize, to: usize, p: &str) -> (r: bool)
    requires
        from <= to <= v@.len(),
    ensures
        r == (v@.subrange(from as int, to as int) == p@),
{
    let pc = chars_of(p);
    if pc.len() != to - from {
        return false;
    }
    let mut i: usize = 0;
    while i < pc.len()
        invariant
            from + pc@.len() == to,
            to <= v@.len(),
            pc@ == p@,
            i <= pc@.len(),
            forall|k: int| 0 <= k < i ==> v@[from + k] == pc@[k],
        decreases pc@.len() - i,
    {
        if v[from + i] != pc[i] {
            assert(v@.subrange(from as int, to as int)[i as int] != pc@[i as int]);
            return false;
        }
        i += 1;
    }
    assert(v@.subrange(from as int, to as int) =~= pc@);
    true
}

/// Whether `c` occurs in `v`.
pub fn contains_char(v: &Vec<char>, c: char) -> (r: bool)
    ensures
        r == v@.contains(c),
{
    let mut i: usize = 0;
    while i < v.len()
        invariant
            i <= v@.len(),
            forall|k: int| 0 <= k < i ==> v@[k] != c,
        decreases v@.len() - i,
    {
        if v[i] == c {
            return true;
        }
        i += 1;
    }
    false
}

/// The ASCII digit for a value below ten.
pub open spec fn digit_char(d: int) -> char {
    if d == 0 {
        '0'
    } else if d == 1 {
        '1'
    } else if d == 2 {
        '2'
    } else if d == 3 {
        '3'
    } else if d == 4 {
        '4'
    } else if d == 5 {
        '5'
    } else if d == 6 {
        '6'
    } else if d == 7 {
        '7'
    } else if d == 8 {
        '8'
    } else {
        '9'
    }
}

/// The value of an ASCII digit, or `None` for any other character.
pub open spec fn digit_value(c: char) -> Option<nat> {
    if c == '0' {
        Some(0)
    } else if c == '1' {
        Some(1)
    } else if c == '2' {
        Some(2)
    } else if c == '3' {
        Some(3)
    } else if c == '4' {
        Some(4)
    } else if c == '5' {
        Some(5)
    } else if c == '6' {
        Some(6)
    } else if c == '7' {
        Some(7)
    } else if c == '8' {
        Some(8)
    } else if c == '9' {
        Some(9)
    } else {
        None
    }
}

/// The shortest decimal rendering of `n`, without sign or leading zeros.
pub open spec fn decimal(n: nat) -> Seq<char>
    decreases n,
{
    if n < 10 {
        seq![digit_char(n as int)]
    } else {
        decimal(n / 10) + seq![digit_char((n % 10) as int)]
    }
}

fn digit(d: u64) -> (c: char)
    requires
        d < 10,
    ensures
        c == digit_char(d as int),
{
    if d == 0 {
        '0'
    } else if d == 1 {
        '1'
    } else if d == 2 {
        '2'
    } else if d == 3 {
        '3'
    } else if d == 4 {
        '4'
    } else if d == 5 {
        '5'
    } else if d == 6 {
        '6'
    } else if d == 7 {
        '7'
    } else if d == 8 {
        '8'
    } else {
        '9'
    }
}

/// Appends the decimal rendering of `n` to `out`.
pub fn push_decimal(out: &mut String, n: u64)
    ensures
        final(out)@ == old(out)@ + decimal(n as nat),
    decreases n,
{
    if n >= 10 {
        push_decimal(out, n / 10);
    }
    out.push(digit(n % 10));
    proof {
        if n < 10 {
            assert(old(out)@ + decimal(n as nat) =~= old(out)@.push(digit_char(n as int)));
        } else {
            assert(old(out)@ + decimal(n as nat) =~= (old(out)@ + decimal((n / 10) as nat)).push(
                digit_char((n % 10) as int),
            ));
        }
    }
}

/// Returns the decimal rendering of `n`.
pub fn decimal_string(n: u64) -> (s: String)
    ensures
        s@ == decimal(n as nat),
{
    let mut s = String::new();
    push_decimal(&mut s, n);
    assert(Seq::<char>::empty() + decimal(n as nat) =~= decimal(n as nat));
    s
}

/// The value of a non-empty digit string, or `None` when a character is not a digit.
pub open spec fn digits_value(s: Seq<char>) -> Option<nat>
    decreases s.len(),
{
    if s.len() == 0 {
        None
    } else {
        let last = digit_value(s[s.len() - 1]);
        if last is None {
            None
        } else if s.len() == 1 {
            last
        } else {
            match digits_value(s.subrange(0, s.len() - 1)) {
                None => None,
                Some(v) => Some(v * 10 + last->0),
            }
        }
    }
}

/// The unsigned integer that `str::parse` reads from `s`: an optional `+` followed by at least
/// one decimal digit, or `None` for any other text.
pub open spec fn unsigned_value(s: Seq<char>) -> Option<nat> {
    if s.len() > 0 && s[0] == '+' {
        digits_value(s.subrange(1, s.len() as int))
    } else {
        digits_value(s)
    }
}

fn digit_of(c: char) -> (r: Option<u64>)
    ensures
        r matches Some(d) ==> digit_value(c) == Some(d as nat) && d < 10,
        r is None ==> digit_value(c) is None,
{
    if c == '0' {
        Some(0)
    } else if c == '1' {
        Some(1)
    } else if c == '2' {
        Some(2)
    } else if c == '3' {
        Some(3)
    } else if c == '4' {
        Some(4)
    } else if c == '5' {
        Some(5)
    } else if c == '6' {
        Some(6)
    } else if c == '7' {
        Some(7)
    } else if c == '8' {
        Some(8)
    } else if c == '9' {
        Some(9)
    } else {
        None
    }
}

proof fn lemma_digits_value_step(s: Seq<char>, i: int)
    requires
        0 < i < s.len(),
    ensures
        digits_value(s.subrange(0, i + 1)) == match digits_value(s.subrange(0, i)) {
            None => None::<nat>,
            Some(v) => match digit_value(s[i]) {
                None => None::<nat>,
                Some(d) => Some(v * 10 + d),
            },
        },
{
    let t = s.subrange(0, i + 1);
    assert(t.subrange(0, t.len() - 1) =~= s.subrange(0, i));
    assert(t[t.len() - 1] == s[i]);
}

proof fn lemma_digits_value_grows(s: Seq<char>, i: int, j: int)
    requires
        0 < i <= j <= s.len(),
        digits_value(s.subrange(0, j)) is Some,
    ensures
        digits_value(s.subrange(0, i)) is Some,
        digits_value(s.subrange(0, i))->0 <= digits_value(s.subrange(0, j))->0,
    decreases j - i,
{
    if i < j {
        lemma_digits_value_step(s, j - 1);
        lemma_digits_value_grows(s, i, j - 1);
    }
}

/// Reads the unsigned value of the digit string `v[from..]`, or `None` when it is empty, holds a
/// non-digit, or exceeds `limit`.
fn parse_digits(v: &Vec<char>, from: usize, limit: u64) -> (r: Option<u64>)
    requires
        from <= v@.len(),
    ensures
        r matches Some(n) ==> digits_value(v@.subrange(from as int, v@.len() as int)) == Some(
            n as nat,
        ) && n <= limit,
        r is None ==> match digits_value(v@.subrange(from as int, v@.len() as int)) {
            None => true,
            Some(n) => n > limit,
        },
{
    let ghost s = v@.subrange(from as int, v@.len() as int);
    if from == v.len() {
        return None;
    }
    let mut value: u64 = 0;
    let mut i: usize = from;
    while i < v.len()
        invariant
            from < v@.len(),
            s == v@.subrange(from as int, v@.len() as int),
            from <= i <= v@.len(),
            i == from ==> value == 0,
            i > from ==> digits_value(s.subrange(0, i - from)) == Some(value as nat),
            value <= limit,
        decreases v@.len() - i,
    {
        let d = match digit_of(v[i]) {
            Some(d) => d,
            None => {
                proof {
                    assert(s[i - from] == v@[i as int]);
                    if i == from {
                        assert(s.subrange(0, 1)[0] == s[0]);
                        assert(digits_value(s.subrange(0, 1)) is None);
                    } else {
                        lemma_digits_value_step(s, i - from);
                    }
                    if digits_value(s) is Some {
                        assert(s.subrange(0, s.len() as int) =~= s);
                        lemma_digits_value_grows(s, i - from + 1, s.len() as int);
                    }
                }
                return None;
            },
        };
        proof {
            assert(s[i - from] == v@[i as int]);
            if i > from {
                lemma_digits_value_step(s, i - from);
            } else {
                assert(s.subrange(0, 1)[0] == s[0]);
            }
        }
        if d > limit || value > (limit - d) / 10 {
            proof {
                assert(value * 10 + d > limit) by (nonlinear_arith)
                    requires
                        d > limit || value > (limit - d) / 10,
                        d < 10,
                        value >= 0,
                ;
                if digits_value(s) is Some {
                    assert(s.subrange(0, s.len() as int) =~= s);
                    lemma_digits_value_grows(s, i - from + 1, s.len() as int);
                }
            }
            return None;
        }
        proof {
            assert(value * 10 + d <= limit) by (nonlinear_arith)
                requires
                    value <= (limit - d) / 10,
                    d <= limit,
            ;
        }
        value = value * 10 + d;
        i += 1;
    }
    assert(s.subrange(0, s.len() as int) =~= s);
    Some(value)
}

/// Parses `s` as `str::parse::<u64>` does when the result is at most `limit`.
///
/// Returns `None` exactly when the text is not an optional `+` followed by decimal digits, or
/// when its value exceeds `limit`.
pub fn parse_unsigned(s: &str, limit: u64) -> (r: Option<u64>)
    ensures
        r matches Some(n) ==> unsigned_value(s@) == Some(n as nat) && n <= limit,
        r is None <==> match unsigned_value(s@) {
            None => true,
            Some(n) => n > limit,
        },
{
    let v = chars_of(s);
    if v.len() > 0 && v[0] == '+' {
        parse_digits(&v, 1, limit)
    } else {
        let r = parse_digits(&v, 0, limit);
        assert(v@.subrange(0, v@.len() as int) =~= v@);
        r
    }
}

/// A decimal rendering is never empty, and has more than one digit exactly from ten on.
pub proof fn lemma_decimal_len(n: nat)
    ensures
        decimal(n).len() >= 1,
        n >= 10 <==> decimal(n).len() >= 2,
    decreases n,
{
    if n >= 10 {
        lemma_decimal_len(n / 10);
    }
}

/// Different numbers have different decimal renderings.
pub proof fn lemma_decimal_injective(a: nat, b: nat)
    requires
        decimal(a) == decimal(b),
    ensures
        a == b,
    decreases a,
{
    lemma_decimal_len(a);
    lemma_decimal_len(b);
    let da = decimal(a);
    assert(da.last() == digit_char((a % 10) as int));
    assert(decimal(b).last() == digit_char((b % 10) as int));
    assert(a % 10 == b % 10);
    if a >= 10 {
        assert(da.drop_last() =~= decimal(a / 10));
        assert(decimal(b).drop_last() =~= decimal(b / 10));
        lemma_decimal_injective(a / 10, b / 10);
    }
}


/// The order of `String` and `str`: lexicographic by Unicode scalar value, a proper prefix
/// coming first.
pub open spec fn text_less(a: Seq<char>, b: Seq<char>) -> bool
    decreases a.len(),
{
    if b.len() == 0 {
        false
    } else if a.len() == 0 {
        true
    } else if a[0] != b[0] {
        (a[0] as int) < (b[0] as int)
    } else {
        text_less(a.drop_first(), b.drop_first())
    }
}

/// No text comes before itself.
pub proof fn lemma_text_less_irreflexive(a: Seq<char>)
    ensures
        !text_less(a, a),
    decreases a.len(),
{
    if a.len() > 0 {
        lemma_text_less_irreflexive(a.drop_first());
    }
}

/// The text order is transitive.
pub proof fn lemma_text_less_transitive(a: Seq<char>, b: Seq<char>, c: Seq<char>)
    requires
        text_less(a, b),
        text_less(b, c),
    ensures
        text_less(a, c),
    decreases a.len(),
{
    if a.len() > 0 && b.len() > 0 && c.len() > 0 && a[0] == b[0] && b[0] == c[0] {
        lemma_text_less_transitive(a.drop_first(), b.drop_first(), c.drop_first());
    }
}

/// Of two different texts, one comes before the other.
pub proof fn lemma_text_less_total(a: Seq<char>, b: Seq<char>)
    requires
        a != b,
    ensures
        text_less(a, b) || text_less(b, a),
    decreases a.len(),
{
    if a.len() > 0 && b.len() > 0 && a[0] == b[0] {
        if a.drop_first() == b.drop_first() {
            assert(a =~= seq![a[0]] + a.drop_first());
            assert(b =~= seq![b[0]] + b.drop_first());
        }
        lemma_text_less_total(a.drop_first(), b.drop_first());
    } else if a.len() == 0 && b.len() == 0 {
        assert(a =~= b);
    }
}

/// Returns whether `a` comes before `b` in the order of strings.
pub fn text_before(a: &str, b: &str) -> (r: bool)
    ensures
        r == text_less(a@, b@),
{
    let ca = chars_of(a);
    let cb = chars_of(b);
    let la = ca.len();
    let lb = cb.len();
    let mut i: usize = 0;
    assert(ca@.subrange(0, la as int) =~= ca@);
    assert(cb@.subrange(0, lb as int) =~= cb@);
    loop
        invariant
            la == ca@.len(),
            lb == cb@.len(),
            ca@ == a@,
            cb@ == b@,
            i <= la,
            i <= lb,
            text_less(a@, b@) == text_less(ca@.subrange(i as int, la as int), cb@.subrange(i as int, lb as int)),
        decreases la - i,
    {
        let ghost ra = ca@.subrange(i as int, la as int);
        let ghost rb = cb@.subrange(i as int, lb as int);
        if i == lb {
            assert(rb.len() == 0);
            return false;
        }
        if i == la {
            assert(ra.len() == 0);
            return true;
        }
        assert(ra[0] == ca@[i as int]);
        assert(rb[0] == cb@[i as int]);
        let x = ca[i];
        let y = cb[i];
        if x != y {
            return x < y;
        }
        assert(ra.drop_first() =~= ca@.subrange(i + 1, la as int));
        assert(rb.drop_first() =~= cb@.subrange(i + 1, lb as int));
        i += 1;
    }
}


/// Whether `c` is an ASCII digit.
pub open spec fn is_digit(c: char) -> bool {
    48 <= (c as int) <= 57
}

/// A decimal rendering is made of digits only.
pub proof fn lemma_decimal_digits(n: nat)
    ensures
        forall|i: int| 0 <= i < decimal(n).len() ==> is_digit(#[trigger] decimal(n)[i]),
    decreases n,
{
    if n >= 10 {
        lemma_decimal_digits(n / 10);
        let d = decimal(n);
        assert forall|i: int| 0 <= i < d.len() implies is_digit(#[trigger] d[i]) by {
            if i < decimal(n / 10).len() {
                assert(d[i] == decimal(n / 10)[i]);
            }
        }
    }
}

/// A number written in decimal and followed by a text that starts with a non-digit can be read
/// back: equal texts of that shape have equal numbers and equal followers.
pub proof fn lemma_decimal_then(n: nat, y: Seq<char>, m: nat, z: Seq<char>)
    requires
        decimal(n) + y == decimal(m) + z,
        y.len() > 0,
        z.len() > 0,
        !is_digit(y[0]),
        !is_digit(z[0]),
    ensures
        n == m,
        y == z,
{
    let dn = decimal(n);
    let dm = decimal(m);
    let t = dn + y;
    lemma_decimal_digits(n);
    lemma_decimal_digits(m);
    if dn.len() < dm.len() {
        assert(t[dn.len() as int] == y[0]);
        assert((dm + z)[dn.len() as int] == dm[dn.len() as int]);
    } else if dm.len() < dn.len() {
        assert((dm + z)[dm.len() as int] == z[0]);
        assert(t[dm.len() as int] == dn[dm.len() as int]);
    }
    assert(dn =~= t.subrange(0, dn.len() as int));
    assert(dm =~= (dm + z).subrange(0, dm.len() as int));
    assert(y =~= t.subrange(dn.len() as int, t.len() as int));
    assert(z =~= (dm + z).subrange(dm.len() as int, t.len() as int));
    lemma_decimal_injective(n, m);
}

/// A common prefix cancels.
pub proof fn lemma_cancel_prefix(p: Seq<char>, x: Seq<char>, y: Seq<char>)
    requires
        p + x == p + y,
    ensures
        x == y,
{
    assert(x =~= (p + x).subrange(p.len() as int, (p + x).len() as int));
    assert(y =~= (p + y).subrange(p.len() as int, (p + y).len() as int));
}

} // verus!
