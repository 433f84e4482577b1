//! Building argument vectors one word at a time.
//!
//! Every process this program starts receives its arguments as a vector of
//! separate words; nothing is ever interpolated into a shell command line.
use crate::text::{blank, decimal, is_blank, owned, spec_decimal};
use vstd::prelude::*;

verus! {

/// The words of an argument vector.
pub open spec fn words(v: Vec<String>) -> Seq<Seq<char>> {
    v.deep_view()
}

/// Appends one word.
pub fn push_word(a: &mut Vec<String>, s: &str)
    ensures
        final(a).deep_view() == old(a).deep_view().push(s@),
{
    let ghost before = a.deep_view();
    a.push(owned(s));
    assert(a.deep_view() =~= before.push(s@));
}

/// Appends one owned word.
pub fn push_string(a: &mut Vec<String>, s: String)
    ensures
        final(a).deep_view() == old(a).deep_view().push(s@),
{
    let ghost before = a.deep_view();
    let ghost sv = s@;
    a.push(s);
    assert(a.deep_view() =~= before.push(sv));
}

/// Appends a key and its value.
pub fn push_pair(a: &mut Vec<String>, key: &str, value: &str)
    ensures
        final(a).deep_view() == old(a).deep_view() + seq![key@, value@],
{
    let ghost before = a.deep_view();
    push_word(a, key);
    push_word(a, value);
    assert(a.deep_view() =~= before + seq![key@, value@]);
}

/// `yes` chooses `y`, otherwise `n`.
pub open spec fn flag_word(yes: bool, y: Seq<char>, n: Seq<char>) -> Seq<char> {
    if yes {
        y
    } else {
        n
    }
}

/// Appends `y` when `yes` holds and `n` otherwise.
pub fn push_flag(a: &mut Vec<String>, yes: bool, y: &str, n: &str)
    ensures
        final(a).deep_view() == old(a).deep_view().push(flag_word(yes, y@, n@)),
{
    if yes {
        push_word(a, y);
    } else {
        push_word(a, n);
    }
}

/// The word `w` when `on` holds, nothing otherwise.
pub open spec fn word_if(on: bool, w: Seq<char>) -> Seq<Seq<char>> {
    if on {
        seq![w]
    } else {
        seq![]
    }
}

/// Appends `w` when `on` holds.
pub fn push_word_if(a: &mut Vec<String>, on: bool, w: &str)
    ensures
        final(a).deep_view() == old(a).deep_view() + word_if(on, w@),
{
    let ghost before = a.deep_view();
    if on {
        push_word(a, w);
    }
    assert(a.deep_view() =~= before + word_if(on, w@));
}

/// The pair `key value` when `on` holds, nothing otherwise.
pub open spec fn pair_if(on: bool, key: Seq<char>, value: Seq<char>) -> Seq<Seq<char>> {
    if on {
        seq![key, value]
    } else {
        seq![]
    }
}

/// Appends `key value` when `on` holds.
pub fn push_pair_if(a: &mut Vec<String>, on: bool, key: &str, value: &str)
    ensures
        final(a).deep_view() == old(a).deep_view() + pair_if(on, key@, value@),
{
    let ghost before = a.deep_view();
    if on {
        push_pair(a, key, value);
    }
    assert(a.deep_view() =~= before + pair_if(on, key@, value@));
}

/// The pair `key value` unless the value is blank.
pub open spec fn opt_pair(key: Seq<char>, value: Seq<char>) -> Seq<Seq<char>> {
    pair_if(!is_blank(value), key, value)
}

/// Appends `key value` unless the value is blank.
pub fn push_opt_pair(a: &mut Vec<String>, key: &str, value: &str)
    ensures
        final(a).deep_view() == old(a).deep_view() + opt_pair(key@, value@),
{
    let b = blank(value);
    push_pair_if(a, !b, key, value);
}

/// Appends all words of `b`.
pub fn append_words(a: &mut Vec<String>, b: Vec<String>)
    ensures
        final(a).deep_view() == old(a).deep_view() + b.deep_view(),
{
    let ghost before = a.deep_view();
    let ghost bd = b.deep_view();
    let ghost av = a@;
    let ghost bv = b@;
    let mut b = b;
    a.append(&mut b);
    assert(a@ == av + bv);
    assert(a.deep_view() =~= before + bd);
}

/// `v` bounded below by `lo` and above by `hi`, as `Ord::clamp` gives it.
pub open spec fn clamp(v: int, lo: int, hi: int) -> int {
    if v < lo {
        lo
    } else if v > hi {
        hi
    } else {
        v
    }
}

/// `v` bounded to `lo..=hi`.
pub fn clamp_usize(v: usize, lo: usize, hi: usize) -> (r: usize)
    requires
        lo <= hi,
    ensures
        r == clamp(v as int, lo as int, hi as int),
{
    if v < lo {
        lo
    } else if v > hi {
        hi
    } else {
        v
    }
}

/// Concatenation of three texts.
pub fn concat3(a: &str, b: &str, c: &str) -> (r: String)
    ensures
        r@ == a@ + b@ + c@,
{
    let mut s = owned(a);
    s.append(b);
    s.append(c);
    s
}

/// Decimal rendering of a count, as a word.
pub fn decimal_word(n: usize) -> (r: String)
    ensures
        r@ == spec_decimal(n as nat),
{
    decimal(n as u64)
}

} // verus!
