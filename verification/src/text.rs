//! Character and string helpers shared by the rest of the library: Unicode
//! whitespace, trimming, decimal rendering and string building.
use vstd::prelude::*;
use vstd::string::*;

verus! {

broadcast use vstd::string::group_string_axioms;

/// The characters whose Unicode property `White_Space` is set: the set that
/// `char::is_whitespace` and `str::trim` use.
pub open spec fn is_whitespace_spec(c: char) -> bool {
    let u = c as u32;
    ||| (0x09 <= u && u <= 0x0d)
    ||| u == 0x20
    ||| u == 0x85
    ||| u == 0xa0
    ||| u == 0x1680
    ||| (0x2000 <= u && u <= 0x200a)
    ||| u == 0x2028
    ||| u == 0x2029
    ||| u == 0x202f
    ||| u == 0x205f
    ||| u == 0x3000
}

/// Whether `c` is Unicode whitespace.
pub fn is_whitespace(c: char) -> (r: bool)
    ensures
        r == is_whitespace_spec(c),
{
    let u = c as u32;
    (0x09 <= u && u <= 0x0d) || u == 0x20 || u == 0x85 || u == 0xa0 || u == 0x1680 || (0x2000
        <= u && u <= 0x200a) || u == 0x2028 || u == 0x2029 || u == 0x202f || u == 0x205f || u
        == 0x3000
}

/// Every character of `s` is whitespace (the empty sequence included).
pub open spec fn is_blank_spec(s: Seq<char>) -> bool {
    forall|i: int| 0 <= i < s.len() ==> is_whitespace_spec(#[trigger] s[i])
}

/// `s` without its leading whitespace.
pub open spec fn trim_start_spec(s: Seq<char>) -> Seq<char>
    decreases s.len(),
{
    if s.len() > 0 && is_whitespace_spec(s[0]) {
        trim_start_spec(s.drop_first())
    } else {
        s
    }
}

/// `s` without its trailing whitespace.
pub open spec fn trim_end_spec(s: Seq<char>) -> Seq<char>
    decreases s.len(),
{
    if s.len() > 0 && is_whitespace_spec(s.last()) {
        trim_end_spec(s.drop_last())
    } else {
        s
    }
}

/// `s` without leading and trailing whitespace, as `str::trim` returns it.
pub open spec fn trim_spec(s: Seq<char>) -> Seq<char> {
    trim_end_spec(trim_start_spec(s))
}

/// The characters of `s`, in order.
pub fn chars_of(s: &str) -> (v: Vec<char>)
    ensures
        v@ == s@,
{
    let mut v: Vec<char> = Vec::new();
    for c in it: s.chars()
        invariant
            v@ == it.seq().take(it.index() as int),
    {
        v.push(c);
    }
    v
}


/// `String::push`: appends the character `c` to `s`.
#[verifier::external_body]
pub(crate) fn push_char(s: &mut String, c: char)
    ensures
        final(s)@ == old(s)@.push(c),
{
    s.push(c);
}

/// A string holding the characters `v[from..to]`.
pub fn string_from_chars(v: &[char], from: usize, to: usize) -> (s: String)
    requires
        from <= to <= v@.len(),
    ensures
        s@ == v@.subrange(from as int, to as int),
{
    let mut s = String::new();
    let mut i = from;
    while i < to
        invariant
            from <= i <= to <= v@.len(),
            s@ == v@.subrange(from as int, i as int),
        decreases to - i,
    {
        push_char(&mut s, v[i]);
        assert(v@.subrange(from as int, i + 1) =~= v@.subrange(from as int, i as int).push(v@[i as int]));
        i = i + 1;
    }
    s
}

proof fn lemma_trim_start(s: Seq<char>, k: int)
    requires
        0 <= k <= s.len(),
        forall|i: int| 0 <= i < k ==> is_whitespace_spec(#[trigger] s[i]),
        k == s.len() || !is_whitespace_spec(s[k]),
    ensures
        trim_start_spec(s) == s.subrange(k, s.len() as int),
    decreases k,
{
    if k == 0 {
        assert(s.subrange(0, s.len() as int) =~= s);
    } else {
        assert(is_whitespace_spec(s[0]));
        let t = s.drop_first();
        assert forall|i: int| 0 <= i < k - 1 implies is_whitespace_spec(#[trigger] t[i]) by {
            assert(t[i] == s[i + 1]);
        }
        lemma_trim_start(t, k - 1);
        assert(t.subrange(k - 1, t.len() as int) =~= s.subrange(k, s.len() as int));
    }
}

proof fn lemma_trim_end(s: Seq<char>, e: int)
    requires
        0 <= e <= s.len(),
        forall|i: int| e <= i < s.len() ==> is_whitespace_spec(#[trigger] s[i]),
        e == 0 || !is_whitespace_spec(s[e - 1]),
    ensures
        trim_end_spec(s) == s.subrange(0, e),
    decreases s.len() - e,
{
    if e == s.len() {
        assert(s.subrange(0, e) =~= s);
    } else {
        assert(is_whitespace_spec(s[s.len() - 1]));
        let t = s.drop_last();
        assert forall|i: int| e <= i < t.len() implies is_whitespace_spec(#[trigger] t[i]) by {
            assert(t[i] == s[i]);
        }
        lemma_trim_end(t, e);
        assert(t.subrange(0, e) =~= s.subrange(0, e));
    }
}

proof fn lemma_trim_end_keeps_first(t: Seq<char>)
    requires
        t.len() > 0,
        !is_whitespace_spec(t[0]),
    ensures
        trim_end_spec(t).len() > 0,
    decreases t.len(),
{
    if t.len() > 1 && is_whitespace_spec(t.last()) {
        lemma_trim_end_keeps_first(t.drop_last());
    }
}

proof fn lemma_trim_start_blank(s: Seq<char>)
    ensures
        is_blank_spec(s) ==> trim_start_spec(s).len() == 0,
        !is_blank_spec(s) ==> trim_start_spec(s).len() > 0 && !is_whitespace_spec(
            trim_start_spec(s)[0],
        ),
    decreases s.len(),
{
    if s.len() > 0 && is_whitespace_spec(s[0]) {
        let t = s.drop_first();
        lemma_trim_start_blank(t);
        if is_blank_spec(s) {
            assert forall|i: int| 0 <= i < t.len() implies is_whitespace_spec(#[trigger] t[i]) by {
                assert(t[i] == s[i + 1]);
            }
        } else {
            let j = choose|j: int| 0 <= j < s.len() && !is_whitespace_spec(#[trigger] s[j]);
            assert(j > 0);
            assert(t[j - 1] == s[j]);
        }
    } else if s.len() > 0 {
        assert(!is_blank_spec(s));
    }
}

/// A string is blank exactly when trimming it leaves nothing.
pub proof fn lemma_blank_iff_trim_empty(s: Seq<char>)
    ensures
        is_blank_spec(s) <==> trim_spec(s).len() == 0,
{
    lemma_trim_start_blank(s);
    if !is_blank_spec(s) {
        lemma_trim_end_keeps_first(trim_start_spec(s));
    }
}

/// Whether every character of `s` is whitespace.
pub fn is_blank(s: &str) -> (r: bool)
    ensures
        r == is_blank_spec(s@),
        r == (trim_spec(s@).len() == 0),
{
    proof {
        lemma_blank_iff_trim_empty(s@);
    }
    let v = chars_of(s);
    let mut i: usize = 0;
    while i < v.len()
        invariant
            i <= v@.len(),
            v@ == s@,
            forall|j: int| 0 <= j < i ==> is_whitespace_spec(#[trigger] v@[j]),
        decreases v.len() - i,
    {
        if !is_whitespace(v[i]) {
            proof {
                lemma_blank_iff_trim_empty(s@);
            }
            assert(!is_blank_spec(s@));
            return false;
        }
        i = i + 1;
    }
    true
}

/// `s` with leading and trailing Unicode whitespace removed (`str::trim`).
pub fn trim(s: &str) -> (r: String)
    ensures
        r@ == trim_spec(s@),
{
    let v = chars_of(s);
    let n = v.len();
    let mut k: usize = 0;
    while k < n && is_whitespace(v[k])
        invariant
            k <= n == v@.len(),
            forall|i: int| 0 <= i < k ==> is_whitespace_spec(#[trigger] v@[i]),
        decreases n - k,
    {
        k = k + 1;
    }
    let mut e: usize = n;
    while e > k && is_whitespace(v[e - 1])
        invariant
            k <= e <= n == v@.len(),
            forall|i: int| e <= i < n ==> is_whitespace_spec(#[trigger] v@[i]),
        decreases e,
    {
        e = e - 1;
    }
    proof {
        lemma_trim_start(v@, k as int);
        let t = v@.subrange(k as int, n as int);
        assert forall|i: int| e - k <= i < t.len() implies is_whitespace_spec(#[trigger] t[i]) by {
            assert(t[i] == v@[i + k]);
        }
        if e > k {
            assert(t[e - k - 1] == v@[e - 1]);
        }
        lemma_trim_end(t, e - k);
        assert(t.subrange(0, e - k) =~= v@.subrange(k as int, e as int));
    }
    string_from_chars(v.as_slice(), k, e)
}


/// The ASCII digit for `d` (which is below ten).
pub open spec fn digit_char(d: int) -> char {
    if d == 0 {
        '0'
    } else if d == 1 {
        '1'
    } else if d == 2 {
        '2'
    } else if d == 3 {
        '3'
    } else if d == 4 {
        '4'
    } else if d == 5 {
        '5'
    } else if d == 6 {
        '6'
    } else if d == 7 {
        '7'
    } else if d == 8 {
        '8'
    } else {
        '9'
    }
}

/// The decimal digits of `n`, most significant first, without leading zeros:
/// what `Display` writes for an unsigned integer.
pub open spec fn decimal_spec(n: nat) -> Seq<char>
    decreases n,
{
    if n < 10 {
        seq![digit_char(n as int)]
    } else {
        decimal_spec(n / 10).push(digit_char((n % 10) as int))
    }
}

/// What `Display` writes for a signed integer: a minus sign before the
/// digits of a negative number.
pub open spec fn signed_decimal_spec(i: int) -> Seq<char> {
    if i < 0 {
        seq!['-'] + decimal_spec((-i) as nat)
    } else {
        decimal_spec(i as nat)
    }
}

fn digit(d: u64) -> (c: char)
    requires
        d < 10,
    ensures
        c == digit_char(d as int),
{
    if d == 0 {
        '0'
    } else if d == 1 {
        '1'
    } else if d == 2 {
        '2'
    } else if d == 3 {
        '3'
    } else if d == 4 {
        '4'
    } else if d == 5 {
        '5'
    } else if d == 6 {
        '6'
    } else if d == 7 {
        '7'
    } else if d == 8 {
        '8'
    } else {
        '9'
    }
}

/// Appends the decimal digits of `n` to `s`.
pub fn push_decimal(s: &mut String, n: u64)
    ensures
        final(s)@ == old(s)@ + decimal_spec(n as nat),
    decreases n,
{
    if n < 10 {
        push_char(s, digit(n));
        assert(old(s)@.push(digit_char(n as int)) =~= old(s)@ + decimal_spec(n as nat));
    } else {
        push_decimal(s, n / 10);
        push_char(s, digit(n % 10));
        assert(old(s)@ + decimal_spec(n as nat) =~= old(s)@ + decimal_spec((n / 10) as nat) + seq![
            digit_char((n % 10) as int),
        ]);
    }
}

/// Appends the decimal rendering of the signed number `i` to `s`.
pub fn push_signed_decimal(s: &mut String, i: i64)
    ensures
        final(s)@ == old(s)@ + signed_decimal_spec(i as int),
{
    if i < 0 {
        push_char(s, '-');
        let m: u64 = if i == i64::MIN {
            9223372036854775808u64
        } else {
            (-i) as u64
        };
        push_decimal(s, m);
        assert(old(s)@ + signed_decimal_spec(i as int) =~= old(s)@.push('-') + decimal_spec(
            m as nat,
        ));
    } else {
        push_decimal(s, i as u64);
    }
}

/// The decimal rendering of `n` (`n.to_string()`).
pub fn decimal_string(n: u64) -> (s: String)
    ensures
        s@ == decimal_spec(n as nat),
{
    let mut s = String::new();
    push_decimal(&mut s, n);
    assert(Seq::<char>::empty() + decimal_spec(n as nat) =~= decimal_spec(n as nat));
    s
}

/// Appends `t` to `s`.
pub fn push_str(s: &mut String, t: &str)
    ensures
        final(s)@ == old(s)@ + t@,
{
    s.append(t);
}

} // verus!
