//! Character-level text primitives shared by the rest of the library.
//!
//! Strings are specified through their `Seq<char>` view. The few standard
//! library conversions that vstd leaves unspecified are wrapped here, one std
//! function per wrapper.
use vstd::prelude::*;

verus! {

/// The Unicode `White_Space` property, which `char::is_whitespace` follows.
pub open spec fn spec_is_whitespace(c: char) -> bool {
    let u = c as u32;
    ||| 0x09 <= u <= 0x0D
    ||| u == 0x20
    ||| u == 0x85
    ||| u == 0xA0
    ||| u == 0x1680
    ||| 0x2000 <= u <= 0x200A
    ||| u == 0x2028
    ||| u == 0x2029
    ||| u == 0x202F
    ||| u == 0x205F
    ||| u == 0x3000
}

/// Whether `c` is Unicode white space.
pub fn is_whitespace(c: char) -> (r: bool)
    ensures
        r == spec_is_whitespace(c),
{
    let u = c as u32;
    (0x09 <= u && u <= 0x0D) || u == 0x20 || u == 0x85 || u == 0xA0 || u == 0x1680 || (0x2000
        <= u && u <= 0x200A) || u == 0x2028 || u == 0x2029 || u == 0x202F || u == 0x205F || u
        == 0x3000
}

/// The characters of `s`, in order, collected from `str::chars`; the
/// contract claims the vector holds exactly the string's characters.
#[verifier::external_body]
pub(crate) fn chars_of(s: &str) -> (r: Vec<char>)
    ensures
        r@ == s@,
{
    s.chars().collect()
}

/// A string made of the characters of `v`, in order, collected by
/// `FromIterator<&char>` for `String`; the contract claims the string's
/// characters are exactly those of `v`.
#[verifier::external_body]
pub(crate) fn string_of(v: &[char]) -> (r: String)
    ensures
        r@ == v@,
{
    v.iter().collect()
}

/// A fresh string with the characters of `s`.
pub fn owned(s: &str) -> (r: String)
    ensures
        r@ == s@,
{
    String::from_str(s)
}

/// Whether two character sequences are equal, decided character by character.
pub fn chars_eq(a: &[char], b: &[char]) -> (r: bool)
    ensures
        r == (a@ == b@),
{
    if a.len() != b.len() {
        return false;
    }
    let mut i: usize = 0;
    while i < a.len()
        invariant
            a.len() == b.len(),
            i <= a.len(),
            forall|j: int| 0 <= j < i ==> a@[j] == b@[j],
        decreases a.len() - i,
    {
        if a[i] != b[i] {
            return false;
        }
        i = i + 1;
    }
    assert(a@ =~= b@);
    true
}

/// Whether two strings hold the same characters.
pub fn str_eq(a: &str, b: &str) -> (r: bool)
    ensures
        r == (a@ == b@),
{
    let x = chars_of(a);
    let y = chars_of(b);
    chars_eq(x.as_slice(), y.as_slice())
}

/// `p` is a prefix of `s`.
pub open spec fn spec_starts_with(s: Seq<char>, p: Seq<char>) -> bool {
    p.len() <= s.len() && s.subrange(0, p.len() as int) == p
}

/// Whether `s` starts with `p`.
pub fn starts_with(s: &str, p: &str) -> (r: bool)
    ensures
        r == spec_starts_with(s@, p@),
{
    let x = chars_of(s);
    let y = chars_of(p);
    if y.len() > x.len() {
        return false;
    }
    let mut i: usize = 0;
    while i < y.len()
        invariant
            x@ == s@,
            y@ == p@,
            y.len() <= x.len(),
            i <= y.len(),
            forall|j: int| 0 <= j < i ==> x@[j] == y@[j],
        decreases y.len() - i,
    {
        if x[i] != y[i] {
            assert(x@.subrange(0, y@.len() as int)[i as int] != y@[i as int]);
            return false;
        }
        i = i + 1;
    }
    assert(x@.subrange(0, y@.len() as int) =~= y@);
    true
}

/// `n` occurs in `s` at position `i`.
pub open spec fn occurs_at(s: Seq<char>, n: Seq<char>, i: int) -> bool {
    0 <= i && i + n.len() <= s.len() && s.subrange(i, i + n.len()) == n
}

/// `n` occurs somewhere in `s`.
pub open spec fn spec_contains(s: Seq<char>, n: Seq<char>) -> bool {
    exists|i: int| occurs_at(s, n, i)
}

fn occurs_at_exec(s: &Vec<char>, n: &Vec<char>, i: usize) -> (r: bool)
    requires
        i + n@.len() <= s@.len(),
    ensures
        r == occurs_at(s@, n@, i as int),
{
    let mut j: usize = 0;
    let slen = s.len();
    while j < n.len()
        invariant
            slen == s@.len(),
            i + n@.len() <= s@.len(),
            j <= n.len(),
            forall|k: int| 0 <= k < j ==> s@[i + k] == n@[k],
        decreases n.len() - j,
    {
        assert(i + j < slen);
        if s[i + j] != n[j] {
            assert(s@.subrange(i as int, i + n@.len())[j as int] != n@[j as int]);
            return false;
        }
        j = j + 1;
    }
    assert(s@.subrange(i as int, i + n@.len()) =~= n@);
    true
}

/// Whether `n` occurs in `s`.
pub fn contains(s: &str, n: &str) -> (r: bool)
    ensures
        r == spec_contains(s@, n@),
{
    let x = chars_of(s);
    let y = chars_of(n);
    if y.len() > x.len() {
        return false;
    }
    if y.len() == 0 {
        assert(x@.subrange(0, 0) =~= y@);
        assert(occurs_at(x@, y@, 0));
        return true;
    }
    let last = x.len() - y.len();
    let mut i: usize = 0;
    while i <= last
        invariant
            x@ == s@,
            y@ == n@,
            last == x@.len() - y@.len(),
            0 < y@.len() <= x@.len(),
            last < x.len(),
            i <= last + 1,
            forall|k: int| 0 <= k < i ==> !occurs_at(x@, y@, k),
        decreases last + 1 - i,
    {
        if occurs_at_exec(&x, &y, i) {
            return true;
        }
        i = i + 1;
    }
    assert forall|k: int| !occurs_at(x@, y@, k) by {
        if 0 <= k && k + y@.len() <= x@.len() {
            assert(k <= last);
        }
    }
    false
}

/// `s` with leading and trailing white space removed.
pub open spec fn spec_trim(s: Seq<char>) -> Seq<char> {
    spec_trim_end(spec_trim_start(s))
}

/// `s` without its leading white space.
pub open spec fn spec_trim_start(s: Seq<char>) -> Seq<char>
    decreases s.len(),
{
    if s.len() > 0 && spec_is_whitespace(s[0]) {
        spec_trim_start(s.drop_first())
    } else {
        s
    }
}

/// `s` without its trailing white space.
pub open spec fn spec_trim_end(s: Seq<char>) -> Seq<char>
    decreases s.len(),
{
    if s.len() > 0 && spec_is_whitespace(s.last()) {
        spec_trim_end(s.drop_last())
    } else {
        s
    }
}

/// `s` holds white space only (or nothing).
pub open spec fn is_blank(s: Seq<char>) -> bool {
    forall|i: int| 0 <= i < s.len() ==> spec_is_whitespace(#[trigger] s[i])
}

/// Trimming removes everything exactly when the text is blank.
pub proof fn lemma_trim_empty_iff_blank(s: Seq<char>)
    ensures
        (spec_trim(s).len() == 0) == is_blank(s),
{
    lemma_trim_start(s);
    let t = spec_trim_start(s);
    if t.len() > 0 {
        lemma_trim_end_keeps_first(t);
    }
}

proof fn lemma_trim_start(s: Seq<char>)
    ensures
        is_blank(s) ==> spec_trim_start(s).len() == 0,
        !is_blank(s) ==> spec_trim_start(s).len() > 0 && !spec_is_whitespace(
            spec_trim_start(s)[0],
        ),
    decreases s.len(),
{
    if s.len() > 0 && spec_is_whitespace(s[0]) {
        let r = s.drop_first();
        lemma_trim_start(r);
        if is_blank(s) {
            assert forall|i: int| 0 <= i < r.len() implies spec_is_whitespace(#[trigger] r[i]) by {
                assert(r[i] == s[i + 1]);
            }
        }
        if is_blank(r) {
            assert forall|i: int| 0 <= i < s.len() implies spec_is_whitespace(#[trigger] s[i]) by {
                if i > 0 {
                    assert(s[i] == r[i - 1]);
                }
            }
        }
    }
}

proof fn lemma_trim_end_keeps_first(s: Seq<char>)
    requires
        s.len() > 0,
        !spec_is_whitespace(s[0]),
    ensures
        spec_trim_end(s).len() > 0,
    decreases s.len(),
{
    if spec_is_whitespace(s.last()) {
        assert(s.len() > 1);
        assert(s.drop_last()[0] == s[0]);
        lemma_trim_end_keeps_first(s.drop_last());
    }
}

/// Whether `s` holds white space only.
pub fn blank(s: &str) -> (r: bool)
    ensures
        r == is_blank(s@),
        r == (spec_trim(s@).len() == 0),
{
    proof {
        lemma_trim_empty_iff_blank(s@);
    }
    let v = chars_of(s);
    let mut i: usize = 0;
    while i < v.len()
        invariant
            v@ == s@,
            (spec_trim(s@).len() == 0) == is_blank(s@),
            i <= v.len(),
            forall|j: int| 0 <= j < i ==> spec_is_whitespace(#[trigger] v@[j]),
        decreases v.len() - i,
    {
        if !is_whitespace(v[i]) {
            return false;
        }
        i = i + 1;
    }
    true
}

/// The decimal digit for `d`, which is below ten.
pub open spec fn digit_char(d: nat) -> char {
    if d == 0 {
        '0'
    } else if d == 1 {
        '1'
    } else if d == 2 {
        '2'
    } else if d == 3 {
        '3'
    } else if d == 4 {
        '4'
    } else if d == 5 {
        '5'
    } else if d == 6 {
        '6'
    } else if d == 7 {
        '7'
    } else if d == 8 {
        '8'
    } else {
        '9'
    }
}

/// The decimal rendering of `n`, without sign or leading zeros (as `Display` for integers).
pub open spec fn spec_decimal(n: nat) -> Seq<char>
    decreases n,
{
    if n < 10 {
        seq![digit_char(n)]
    } else {
        spec_decimal(n / 10).push(digit_char(n % 10))
    }
}

pub fn digit(d: u64) -> (c: char)
    requires
        d < 10,
    ensures
        c == digit_char(d as nat),
{
    if d == 0 {
        '0'
    } else if d == 1 {
        '1'
    } else if d == 2 {
        '2'
    } else if d == 3 {
        '3'
    } else if d == 4 {
        '4'
    } else if d == 5 {
        '5'
    } else if d == 6 {
        '6'
    } else if d == 7 {
        '7'
    } else if d == 8 {
        '8'
    } else {
        '9'
    }
}

/// The characters of the decimal rendering of `n`.
pub fn decimal_chars(n: u64) -> (r: Vec<char>)
    ensures
        r@ == spec_decimal(n as nat),
    decreases n,
{
    if n < 10 {
        let mut v: Vec<char> = Vec::new();
        v.push(digit(n));
        assert(v@ =~= seq![digit_char(n as nat)]);
        v
    } else {
        let mut v = decimal_chars(n / 10);
        v.push(digit(n % 10));
        v
    }
}

/// The decimal rendering of `n`, as `n.to_string()` gives it.
pub fn decimal(n: u64) -> (r: String)
    ensures
        r@ == spec_decimal(n as nat),
{
    let v = decimal_chars(n);
    string_of(v.as_slice())
}

/// `c` is an ASCII decimal digit.
pub open spec fn is_digit(c: char) -> bool {
    '0' <= c <= '9'
}

/// The value of the ASCII digit `c`.
pub open spec fn digit_value(c: char) -> nat {
    (c as u32 - '0' as u32) as nat
}

/// The value of a string of ASCII digits, read in base ten.
pub open spec fn digits_value(s: Seq<char>) -> nat
    decreases s.len(),
{
    if s.len() == 0 {
        0
    } else {
        digits_value(s.drop_last()) * 10 + digit_value(s.last())
    }
}

/// Every character of `s` is an ASCII digit.
pub open spec fn all_digits(s: Seq<char>) -> bool {
    forall|i: int| 0 <= i < s.len() ==> is_digit(#[trigger] s[i])
}

/// What `str::parse::<u64>` accepts and returns: an optional `+` followed by at
/// least one ASCII digit, with a value that fits in 64 bits.
pub open spec fn spec_parse_u64(s: Seq<char>) -> Option<u64> {
    let body = if s.len() > 0 && s[0] == '+' {
        s.drop_first()
    } else {
        s
    };
    if body.len() > 0 && all_digits(body) && digits_value(body) <= u64::MAX {
        Some(digits_value(body) as u64)
    } else {
        None
    }
}

proof fn lemma_digits_prefix_le(s: Seq<char>, k: int)
    requires
        0 <= k <= s.len(),
        all_digits(s),
    ensures
        digits_value(s.subrange(0, k)) <= digits_value(s),
    decreases s.len(),
{
    if k < s.len() {
        let t = s.drop_last();
        assert(all_digits(t)) by {
            assert forall|i: int| 0 <= i < t.len() implies is_digit(#[trigger] t[i]) by {
                assert(t[i] == s[i]);
            }
        }
        lemma_digits_prefix_le(t, k);
        assert(t.subrange(0, k) =~= s.subrange(0, k));
    } else {
        assert(s.subrange(0, k) =~= s);
    }
}

/// Reads `s` as an unsigned decimal number, as `str::parse::<u64>` does.
pub fn parse_u64(s: &str) -> (r: Option<u64>)
    ensures
        r == spec_parse_u64(s@),
{
    let v = chars_of(s);
    let start: usize = if v.len() > 0 && v[0] == '+' {
        1
    } else {
        0
    };
    let ghost body = if s@.len() > 0 && s@[0] == '+' {
        s@.drop_first()
    } else {
        s@
    };
    assert(body =~= v@.subrange(start as int, v@.len() as int));
    if start >= v.len() {
        return None;
    }
    let mut acc: u64 = 0;
    let mut i: usize = start;
    while i < v.len()
        invariant
            v@ == s@,
            start <= i <= v.len(),
            body == (if s@.len() > 0 && s@[0] == '+' {
                s@.drop_first()
            } else {
                s@
            }),
            body == v@.subrange(start as int, v@.len() as int),
            all_digits(v@.subrange(start as int, i as int)),
            acc as nat == digits_value(v@.subrange(start as int, i as int)),
        decreases v.len() - i,
    {
        let c = v[i];
        let ghost prefix = v@.subrange(start as int, i as int);
        let ghost next = v@.subrange(start as int, i + 1);
        assert(next.drop_last() =~= prefix);
        assert(next.last() == c);
        if !('0' <= c && c <= '9') {
            assert(body[i - start] == c);
            assert(!is_digit(body[i - start]));
            assert(!all_digits(body));
            return None;
        }
        let d = (c as u32 - '0' as u32) as u64;
        assert(all_digits(next)) by {
            assert forall|j: int| 0 <= j < next.len() implies is_digit(#[trigger] next[j]) by {
                if j < prefix.len() {
                    assert(next[j] == prefix[j]);
                }
            }
        }
        if acc > (u64::MAX - d) / 10 {
            proof {
                assert(digits_value(next) == acc * 10 + d);
                assert(digits_value(next) > u64::MAX) by (nonlinear_arith)
                    requires
                        acc > (u64::MAX - d) / 10,
                        digits_value(next) == acc * 10 + d,
                        d < 10,
                ;
                assert(all_digits(next));
                assert(v@.subrange(start as int, v@.len() as int) =~= body);
                if all_digits(body) {
                    assert(body.subrange(0, next.len() as int) =~= next);
                    lemma_digits_prefix_le(body, next.len() as int);
                }
            }
            return None;
        }
        proof {
            assert((acc * 10 + d) <= u64::MAX) by (nonlinear_arith)
                requires
                    acc <= (u64::MAX - d) / 10,
                    d < 10,
            ;
            assert(digits_value(next) == acc * 10 + d);
        }
        acc = acc * 10 + d;
        i = i + 1;
    }
    assert(v@.subrange(start as int, v@.len() as int) =~= body);
    Some(acc)
}


proof fn lemma_trim_start_at(s: Seq<char>, i: int)
    requires
        0 <= i <= s.len(),
        forall|k: int| 0 <= k < i ==> spec_is_whitespace(#[trigger] s[k]),
        i == s.len() || !spec_is_whitespace(s[i]),
    ensures
        spec_trim_start(s) == s.subrange(i, s.len() as int),
    decreases i,
{
    if i == 0 {
        assert(s.subrange(0, s.len() as int) =~= s);
    } else {
        let r = s.drop_first();
        assert(spec_is_whitespace(s[0]));
        assert forall|k: int| 0 <= k < i - 1 implies spec_is_whitespace(#[trigger] r[k]) by {
            assert(r[k] == s[k + 1]);
        }
        if i - 1 < r.len() {
            assert(r[i - 1] == s[i]);
        }
        lemma_trim_start_at(r, i - 1);
        assert(r.subrange(i - 1, r.len() as int) =~= s.subrange(i, s.len() as int));
    }
}

proof fn lemma_trim_end_at(s: Seq<char>, j: int)
    requires
        0 <= j <= s.len(),
        forall|k: int| j <= k < s.len() ==> spec_is_whitespace(#[trigger] s[k]),
        j == 0 || !spec_is_whitespace(s[j - 1]),
    ensures
        spec_trim_end(s) == s.subrange(0, j),
    decreases s.len() - j,
{
    if j == s.len() {
        if s.len() > 0 {
            assert(!spec_is_whitespace(s.last()));
        }
        assert(s.subrange(0, j) =~= s);
    } else {
        let r = s.drop_last();
        assert(spec_is_whitespace(s[s.len() - 1]));
        assert forall|k: int| j <= k < r.len() implies spec_is_whitespace(#[trigger] r[k]) by {
            assert(r[k] == s[k]);
        }
        if j > 0 {
            assert(r[j - 1] == s[j - 1]);
        }
        lemma_trim_end_at(r, j);
        assert(r.subrange(0, j) =~= s.subrange(0, j));
    }
}

/// The characters `v[from..to]` as a string.
pub fn string_between(v: &Vec<char>, from: usize, to: usize) -> (r: String)
    requires
        from <= to <= v.len(),
    ensures
        r@ == v@.subrange(from as int, to as int),
{
    let mut w: Vec<char> = Vec::new();
    let mut k = from;
    while k < to
        invariant
            from <= k <= to <= v.len(),
            w@ == v@.subrange(from as int, k as int),
        decreases to - k,
    {
        w.push(v[k]);
        k = k + 1;
        assert(w@ =~= v@.subrange(from as int, k as int));
    }
    string_of(w.as_slice())
}

/// `s` without leading and trailing white space, as `str::trim` gives it.
pub fn trim(s: &str) -> (r: String)
    ensures
        r@ == spec_trim(s@),
{
    let v = chars_of(s);
    let mut i: usize = 0;
    while i < v.len() && is_whitespace(v[i])
        invariant
            v@ == s@,
            i <= v.len(),
            forall|k: int| 0 <= k < i ==> spec_is_whitespace(#[trigger] v@[k]),
        decreases v.len() - i,
    {
        i = i + 1;
    }
    proof {
        lemma_trim_start_at(s@, i as int);
    }
    let mut j: usize = v.len();
    while j > i && is_whitespace(v[j - 1])
        invariant
            v@ == s@,
            i <= j <= v.len(),
            forall|k: int| j <= k < v.len() ==> spec_is_whitespace(#[trigger] v@[k]),
        decreases j,
    {
        j = j - 1;
    }
    proof {
        let t = s@.subrange(i as int, s@.len() as int);
        let jj = j - i;
        assert forall|k: int| jj <= k < t.len() implies spec_is_whitespace(#[trigger] t[k]) by {
            assert(t[k] == v@[k + i]);
        }
        if jj > 0 {
            assert(t[jj - 1] == v@[j - 1]);
        }
        lemma_trim_end_at(t, jj as int);
        assert(t.subrange(0, jj as int) =~= s@.subrange(i as int, j as int));
    }
    string_between(&v, i, j)
}

/// The pieces of `s` between occurrences of `c`, as `str::split(c)` yields
/// them: one more piece than there are occurrences.
pub open spec fn split_on(s: Seq<char>, c: char) -> Seq<Seq<char>>
    decreases s.len(),
{
    if s.len() == 0 {
        seq![Seq::<char>::empty()]
    } else {
        let p = split_on(s.drop_last(), c);
        if s.last() == c {
            p.push(Seq::<char>::empty())
        } else {
            p.update(p.len() - 1, p.last().push(s.last()))
        }
    }
}

/// Splitting always yields at least one piece.
pub proof fn lemma_split_on_nonempty(s: Seq<char>, c: char)
    ensures
        split_on(s, c).len() >= 1,
    decreases s.len(),
{
    if s.len() > 0 {
        lemma_split_on_nonempty(s.drop_last(), c);
    }
}

/// The pieces of `v[from..]` between occurrences of `c`.
pub fn split_chars(v: &Vec<char>, from: usize, c: char) -> (r: Vec<Vec<char>>)
    requires
        from <= v.len(),
    ensures
        r.deep_view() == split_on(v@.subrange(from as int, v@.len() as int), c),
        r.len() >= 1,
{
    let mut done: Vec<Vec<char>> = Vec::new();
    let mut cur: Vec<char> = Vec::new();
    let mut k = from;
    assert(v@.subrange(from as int, from as int) =~= Seq::<char>::empty());
    while k < v.len()
        invariant
            from <= k <= v.len(),
            done.deep_view().push(cur@) == split_on(v@.subrange(from as int, k as int), c),
        decreases v.len() - k,
    {
        let ch = v[k];
        let ghost before = done.deep_view();
        let ghost prefix = v@.subrange(from as int, k as int);
        let ghost next = v@.subrange(from as int, k + 1);
        assert(next.drop_last() =~= prefix);
        assert(next.last() == ch);
        if ch == c {
            let old_cur = cur;
            assert(old_cur.deep_view() =~= old_cur@);
            done.push(old_cur);
            cur = Vec::new();
            assert(done.deep_view() =~= before.push(old_cur@));
            assert(done.deep_view().push(cur@) =~= split_on(next, c));
        } else {
            cur.push(ch);
            assert(done.deep_view().push(cur@) =~= before.push(cur@));
        }
        k = k + 1;
    }
    let ghost before = done.deep_view();
    let last = cur;
    assert(last.deep_view() =~= last@);
    done.push(last);
    assert(done.deep_view() =~= before.push(last@));
    done
}


/// What `str::parse::<u32>` returns.
pub open spec fn spec_parse_u32(s: Seq<char>) -> Option<u32> {
    match spec_parse_u64(s) {
        Some(n) => if n <= u32::MAX {
            Some(n as u32)
        } else {
            None
        },
        None => None,
    }
}

/// Reads `s` as an unsigned 32-bit decimal number, as `str::parse::<u32>` does.
pub fn parse_u32(s: &str) -> (r: Option<u32>)
    ensures
        r == spec_parse_u32(s@),
{
    match parse_u64(s) {
        Some(n) => if n <= 0xffff_ffff {
            Some(n as u32)
        } else {
            None
        },
        None => None,
    }
}

/// The position of the first `c` in `s`, if any.
pub open spec fn find_char(s: Seq<char>, c: char) -> Option<int>
    decreases s.len(),
{
    if s.len() == 0 {
        None
    } else if s[0] == c {
        Some(0)
    } else {
        match find_char(s.drop_first(), c) {
            Some(i) => Some(i + 1),
            None => None,
        }
    }
}

/// The position found lies inside `s`, holds `c`, and nothing before it does.
pub proof fn lemma_find_char(s: Seq<char>, c: char)
    ensures
        find_char(s, c) matches Some(i) ==> 0 <= i < s.len() && s[i] == c && forall|k: int|
            0 <= k < i ==> s[k] != c,
        find_char(s, c) is None ==> forall|k: int| 0 <= k < s.len() ==> s[k] != c,
    decreases s.len(),
{
    if s.len() > 0 && s[0] != c {
        lemma_find_char(s.drop_first(), c);
        assert forall|k: int| 0 < k < s.len() implies s[k] == s.drop_first()[k - 1] by {}
    }
}

/// Finds the first `c` in `v`.
pub fn find_char_in(v: &Vec<char>, c: char) -> (r: Option<usize>)
    ensures
        match r {
            Some(i) => find_char(v@, c) == Some(i as int),
            None => find_char(v@, c) is None,
        },
{
    proof {
        lemma_find_char(v@, c);
    }
    let mut i: usize = 0;
    while i < v.len()
        invariant
            i <= v.len(),
            forall|k: int| 0 <= k < i ==> v@[k] != c,
        decreases v.len() - i,
    {
        if v[i] == c {
            proof {
                lemma_find_first_is(v@, c, i as int);
            }
            return Some(i);
        }
        i = i + 1;
    }
    None
}

proof fn lemma_find_first_is(s: Seq<char>, c: char, i: int)
    requires
        0 <= i < s.len(),
        s[i] == c,
        forall|k: int| 0 <= k < i ==> s[k] != c,
    ensures
        find_char(s, c) == Some(i),
    decreases i,
{
    if i > 0 {
        let r = s.drop_first();
        assert forall|k: int| 0 <= k < i - 1 implies r[k] != c by {
            assert(r[k] == s[k + 1]);
        }
        lemma_find_first_is(r, c, i - 1);
    }
}

/// The words of `s`: the maximal runs of characters that are not white space,
/// as `str::split_whitespace` yields them.
pub open spec fn words_of(s: Seq<char>) -> Seq<Seq<char>>
    decreases s.len(),
{
    if s.len() == 0 {
        seq![]
    } else {
        let p = words_of(s.drop_last());
        let c = s.last();
        if spec_is_whitespace(c) {
            p
        } else if s.len() >= 2 && !spec_is_whitespace(s[s.len() - 2]) {
            p.update(p.len() - 1, p.last().push(c))
        } else {
            p.push(seq![c])
        }
    }
}

/// A text that ends inside a word has at least one word.
pub proof fn lemma_words_end(s: Seq<char>)
    requires
        s.len() > 0,
        !spec_is_whitespace(s.last()),
    ensures
        words_of(s).len() >= 1,
    decreases s.len(),
{
    if s.len() >= 2 && !spec_is_whitespace(s[s.len() - 2]) {
        let r = s.drop_last();
        assert(r.last() == s[s.len() - 2]);
        lemma_words_end(r);
    }
}

/// A text with a character that is not white space has at least one word.
pub proof fn lemma_words_nonempty(s: Seq<char>, i: int)
    requires
        0 <= i < s.len(),
        !spec_is_whitespace(s[i]),
    ensures
        words_of(s).len() >= 1,
    decreases s.len(),
{
    if spec_is_whitespace(s.last()) {
        assert(i < s.len() - 1);
        assert(s.drop_last()[i] == s[i]);
        lemma_words_nonempty(s.drop_last(), i);
    } else {
        lemma_words_end(s);
    }
}

/// The words of `s`.
pub fn split_whitespace(s: &str) -> (r: Vec<String>)
    ensures
        r.deep_view() == words_of(s@),
{
    let v = chars_of(s);
    let mut done: Vec<String> = Vec::new();
    let mut cur: Vec<char> = Vec::new();
    let mut in_word = false;
    let mut k: usize = 0;
    assert(v@.subrange(0, 0) =~= Seq::<char>::empty());
    while k < v.len()
        invariant
            v@ == s@,
            k <= v.len(),
            in_word == (k > 0 && !spec_is_whitespace(v@[k - 1])),
            in_word ==> done.deep_view().push(cur@) == words_of(v@.subrange(0, k as int)),
            !in_word ==> done.deep_view() == words_of(v@.subrange(0, k as int)),
        decreases v.len() - k,
    {
        let ch = v[k];
        let ghost prefix = v@.subrange(0, k as int);
        let ghost next = v@.subrange(0, k + 1);
        assert(next.drop_last() =~= prefix);
        assert(next.last() == ch);
        if k > 0 {
            assert(next[next.len() - 2] == v@[k - 1]);
        }
        if is_whitespace(ch) {
            if in_word {
                let ghost before = done.deep_view();
                let w = string_of(cur.as_slice());
                done.push(w);
                assert(done.deep_view() =~= before.push(cur@));
                cur = Vec::new();
            }
            in_word = false;
        } else {
            if in_word {
                cur.push(ch);
            } else {
                cur = Vec::new();
                cur.push(ch);
                assert(cur@ =~= seq![ch]);
            }
            in_word = true;
        }
        k = k + 1;
    }
    if in_word {
        let ghost before = done.deep_view();
        let w = string_of(cur.as_slice());
        done.push(w);
        assert(done.deep_view() =~= before.push(cur@));
    }
    assert(v@.subrange(0, v@.len() as int) =~= v@);
    done
}

/// The lines of `s`, as `str::lines` yields them: split at `\n`, a `\r` just
/// before a `\n` dropped, and no empty last line after a final `\n`.
pub open spec fn lines_of(s: Seq<char>) -> Seq<Seq<char>> {
    let p = split_on(s, '\n');
    let q = if p.last().len() == 0 {
        p.drop_last()
    } else {
        p
    };
    Seq::new(
        q.len(),
        |i: int|
            if i < p.len() - 1 && q[i].len() > 0 && q[i].last() == '\r' {
                q[i].drop_last()
            } else {
                q[i]
            },
    )
}

/// The lines of `s`.
pub fn lines(s: &str) -> (r: Vec<String>)
    ensures
        r.deep_view() == lines_of(s@),
{
    let v = chars_of(s);
    let p = split_chars(&v, 0, '\n');
    assert(v@.subrange(0, v@.len() as int) =~= v@);
    let ghost pv = p.deep_view();
    let n = if p[p.len() - 1].len() == 0 {
        p.len() - 1
    } else {
        p.len()
    };
    assert(pv.last() == p[p.len() - 1]@);
    let mut out: Vec<String> = Vec::new();
    let mut i: usize = 0;
    while i < n
        invariant
            pv == p.deep_view(),
            pv == split_on(s@, '\n'),
            n <= p.len(),
            n == (if pv.last().len() == 0 {
                pv.len() - 1
            } else {
                pv.len() as int
            }),
            i <= n,
            out.len() == i,
            forall|j: int| 0 <= j < i ==> (#[trigger] out.deep_view()[j]) == lines_of(s@)[j],
        decreases n - i,
    {
        let piece = &p[i];
        assert(pv[i as int] == piece@);
        let len = piece.len();
        let strip = i + 1 < p.len() && len > 0 && piece[len - 1] == '\r';
        let w = if strip {
            string_between(piece, 0, len - 1)
        } else {
            string_between(piece, 0, len)
        };
        proof {
            assert(piece@.subrange(0, len as int) =~= piece@);
            if strip {
                assert(piece@.subrange(0, len - 1) =~= piece@.drop_last());
            }
        }
        let ghost before = out.deep_view();
        out.push(w);
        assert(out.deep_view() =~= before.push(w@));
        i = i + 1;
    }
    assert(out.deep_view() =~= lines_of(s@));
    out
}

} // verus!
