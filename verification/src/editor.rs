//! Character-indexed editing of the single-line text field used by dialogs.
//!
//! A cursor counts characters, never bytes, so multi-byte characters are
//! inserted and removed whole.
use crate::text::{chars_of, is_whitespace, spec_is_whitespace, string_of};
use vstd::prelude::*;

verus! {

/// Number of bytes that UTF-8 uses for `c`.
pub open spec fn utf8_width(c: char) -> nat {
    let u = c as u32;
    if u < 0x80 {
        1
    } else if u < 0x800 {
        2
    } else if u < 0x10000 {
        3
    } else {
        4
    }
}

/// Number of UTF-8 bytes of `s`.
pub open spec fn utf8_len(s: Seq<char>) -> nat
    decreases s.len(),
{
    if s.len() == 0 {
        0
    } else {
        utf8_len(s.drop_last()) + utf8_width(s.last())
    }
}

/// Byte offset of the character at `char_index`, or the byte length of `s`
/// when there is no such character.
pub open spec fn spec_byte_index(s: Seq<char>, char_index: nat) -> nat {
    if char_index < s.len() {
        utf8_len(s.take(char_index as int))
    } else {
        utf8_len(s)
    }
}

/// Byte offset in `s` of the character at `char_index`; the byte length of
/// `s` when `char_index` is past the end.
pub fn byte_index(s: &str, char_index: usize) -> (r: usize)
    requires
        utf8_len(s@) <= usize::MAX,
    ensures
        r as nat == spec_byte_index(s@, char_index as nat),
{
    let v = chars_of(s);
    let stop = if char_index < v.len() {
        char_index
    } else {
        v.len()
    };
    proof {
        lemma_utf8_len_prefix_le(s@, stop as int);
    }
    let mut i: usize = 0;
    let mut acc: usize = 0;
    while i < stop
        invariant
            v@ == s@,
            stop <= v.len(),
            i <= stop,
            utf8_len(s@.take(stop as int)) <= usize::MAX,
            acc as nat == utf8_len(s@.take(i as int)),
        decreases stop - i,
    {
        let c = v[i];
        let u = c as u32;
        let w: usize = if u < 0x80 {
            1
        } else if u < 0x800 {
            2
        } else if u < 0x10000 {
            3
        } else {
            4
        };
        proof {
            assert(s@.take(i + 1).drop_last() =~= s@.take(i as int));
            lemma_utf8_len_prefix_le(s@.take(stop as int), i + 1);
            assert(s@.take(stop as int).take(i + 1) =~= s@.take(i + 1));
        }
        acc = acc + w;
        i = i + 1;
    }
    proof {
        if char_index >= s@.len() {
            assert(s@.take(stop as int) =~= s@);
        }
    }
    acc
}

/// The UTF-8 length of a prefix never exceeds that of the whole.
pub proof fn lemma_utf8_len_prefix_le(s: Seq<char>, k: int)
    requires
        0 <= k <= s.len(),
    ensures
        utf8_len(s.take(k)) <= utf8_len(s),
    decreases s.len(),
{
    if k < s.len() {
        lemma_utf8_len_prefix_le(s.drop_last(), k);
        assert(s.drop_last().take(k) =~= s.take(k));
    } else {
        assert(s.take(k) =~= s);
    }
}

/// The text after inserting `text` at character position `cursor` (at the end
/// when the cursor is past it).
pub open spec fn spec_insert_at_char(value: Seq<char>, cursor: nat, text: Seq<char>) -> Seq<char> {
    let k = if cursor < value.len() {
        cursor as int
    } else {
        value.len() as int
    };
    value.take(k) + text + value.skip(k)
}

/// Inserts `text` at character position `cursor`, or at the end when the
/// cursor is past it.
pub fn insert_at_char(value: &mut String, cursor: usize, text: &str)
    ensures
        final(value)@ == spec_insert_at_char(old(value)@, cursor as nat, text@),
{
    let v = chars_of(value.as_str());
    let t = chars_of(text);
    let k = if cursor < v.len() {
        cursor
    } else {
        v.len()
    };
    let mut out: Vec<char> = Vec::new();
    let mut i: usize = 0;
    while i < k
        invariant
            k <= v.len(),
            i <= k,
            out@ == v@.take(i as int),
        decreases k - i,
    {
        out.push(v[i]);
        i = i + 1;
        assert(out@ =~= v@.take(i as int));
    }
    let mut j: usize = 0;
    while j < t.len()
        invariant
            k <= v.len(),
            j <= t.len(),
            out@ == v@.take(k as int) + t@.take(j as int),
        decreases t.len() - j,
    {
        out.push(t[j]);
        j = j + 1;
        assert(out@ =~= v@.take(k as int) + t@.take(j as int));
    }
    let mut m: usize = k;
    while m < v.len()
        invariant
            k <= m <= v.len(),
            out@ == v@.take(k as int) + t@ + v@.subrange(k as int, m as int),
        decreases v.len() - m,
    {
        out.push(v[m]);
        m = m + 1;
        assert(out@ =~= v@.take(k as int) + t@ + v@.subrange(k as int, m as int));
    }
    assert(t@.take(t@.len() as int) =~= t@);
    assert(v@.subrange(k as int, v@.len() as int) =~= v@.skip(k as int));
    *value = string_of(out.as_slice());
}

/// The text after removing the character at position `at`; unchanged when
/// there is none.
pub open spec fn spec_remove_char(value: Seq<char>, at: nat) -> Seq<char> {
    if at < value.len() {
        value.remove(at as int)
    } else {
        value
    }
}

fn without_index(v: &Vec<char>, at: usize) -> (r: Vec<char>)
    requires
        at < v@.len(),
    ensures
        r@ == v@.remove(at as int),
{
    let mut out: Vec<char> = Vec::new();
    let mut i: usize = 0;
    while i < v.len()
        invariant
            at < v@.len(),
            i <= v.len(),
            i <= at ==> out@ == v@.take(i as int),
            i > at ==> out@ == v@.take(at as int) + v@.subrange(at + 1, i as int),
        decreases v.len() - i,
    {
        if i != at {
            out.push(v[i]);
        }
        i = i + 1;
        if i <= at {
            assert(out@ =~= v@.take(i as int));
        } else if i == at + 1 {
            assert(out@ =~= v@.take(at as int) + v@.subrange(at + 1, i as int));
        } else {
            assert(out@ =~= v@.take(at as int) + v@.subrange(at + 1, i as int));
        }
    }
    assert(v@.remove(at as int) =~= v@.take(at as int) + v@.subrange(at + 1, v@.len() as int));
    out
}

/// Removes the character at position `at`; does nothing when there is none.
pub fn remove_char(value: &mut String, at: usize)
    requires
        at < usize::MAX,
    ensures
        final(value)@ == spec_remove_char(old(value)@, at as nat),
{
    let v = chars_of(value.as_str());
    if at < v.len() {
        let out = without_index(&v, at);
        *value = string_of(out.as_slice());
    }
}

/// Length of the run of characters satisfying `ws == spec_is_whitespace` that
/// ends just before position `end`.
pub open spec fn run_before(s: Seq<char>, end: nat, ws: bool) -> nat
    decreases end,
{
    if end > 0 && end <= s.len() && spec_is_whitespace(s[end - 1]) == ws {
        1 + run_before(s, (end - 1) as nat, ws)
    } else {
        0
    }
}

/// The cursor after deleting the previous word: first the white space just
/// before the cursor, then the word before that.
pub open spec fn word_start(s: Seq<char>, cursor: nat) -> nat {
    if cursor > s.len() {
        cursor
    } else {
        let after_space = (cursor - run_before(s, cursor, true)) as nat;
        (after_space - run_before(s, after_space, false)) as nat
    }
}

/// `(text, cursor)` after deleting the word before the cursor.
pub open spec fn spec_delete_previous_word(s: Seq<char>, cursor: nat) -> (Seq<char>, nat) {
    let w = word_start(s, cursor);
    if cursor > s.len() {
        (s, cursor)
    } else {
        (s.take(w as int) + s.skip(cursor as int), w)
    }
}

proof fn lemma_run_before_bound(s: Seq<char>, end: nat, ws: bool)
    ensures
        run_before(s, end, ws) <= end,
        run_before(s, end, ws) > 0 ==> end <= s.len(),
        forall|i: int|
            end - run_before(s, end, ws) <= i < end ==> spec_is_whitespace(#[trigger] s[i]) == ws,
        end - run_before(s, end, ws) > 0 && end <= s.len() ==> spec_is_whitespace(
            s[end - run_before(s, end, ws) - 1],
        ) != ws,
    decreases end,
{
    if end > 0 && end <= s.len() && spec_is_whitespace(s[end - 1]) == ws {
        lemma_run_before_bound(s, (end - 1) as nat, ws);
    }
}

fn run_before_exec(v: &Vec<char>, end: usize, ws: bool) -> (r: usize)
    requires
        end <= v@.len(),
    ensures
        r as nat == run_before(v@, end as nat, ws),
{
    proof {
        lemma_run_before_bound(v@, end as nat, ws);
    }
    let mut e = end;
    while e > 0 && is_whitespace(v[e - 1]) == ws
        invariant
            e <= end <= v@.len(),
            run_before(v@, end as nat, ws) == (end - e) + run_before(v@, e as nat, ws),
        decreases e,
    {
        e = e - 1;
    }
    end - e
}

/// Deletes the word before the cursor together with the white space between
/// them, moving the cursor to where the word began. Nothing changes when the
/// cursor is past the end of the text.
pub fn delete_previous_word(value: &mut String, cursor: &mut usize)
    ensures
        (final(value)@, *final(cursor) as nat) == spec_delete_previous_word(
            old(value)@,
            *old(cursor) as nat,
        ),
{
    let v = chars_of(value.as_str());
    let c = *cursor;
    if c > v.len() {
        return;
    }
    let spaces = run_before_exec(&v, c, true);
    proof {
        lemma_run_before_bound(v@, c as nat, true);
    }
    let after_space = c - spaces;
    let letters = run_before_exec(&v, after_space, false);
    proof {
        lemma_run_before_bound(v@, after_space as nat, false);
    }
    let start = after_space - letters;
    let mut out: Vec<char> = Vec::new();
    let mut i: usize = 0;
    while i < start
        invariant
            start <= c <= v.len(),
            i <= start,
            out@ == v@.take(i as int),
        decreases start - i,
    {
        out.push(v[i]);
        i = i + 1;
        assert(out@ =~= v@.take(i as int));
    }
    let mut m: usize = c;
    while m < v.len()
        invariant
            start <= c <= m <= v.len(),
            out@ == v@.take(start as int) + v@.subrange(c as int, m as int),
        decreases v.len() - m,
    {
        out.push(v[m]);
        m = m + 1;
        assert(out@ =~= v@.take(start as int) + v@.subrange(c as int, m as int));
    }
    assert(v@.subrange(c as int, v@.len() as int) =~= v@.skip(c as int));
    *value = string_of(out.as_slice());
    *cursor = start;
}


/// A key pressed in a text dialog.
#[derive(Clone, Copy, Debug, PartialEq, Eq, Structural)]
pub enum EditKey {
    Esc,
    Enter,
    Backspace,
    Delete,
    Left,
    Right,
    Home,
    End,
    /// Control-U: clear the text.
    ClearLine,
    /// Control-W: delete the previous word.
    DeleteWord,
    Char(char),
    Other,
}

/// What a key does to a text dialog as a whole.
#[derive(Clone, Copy, Debug, PartialEq, Eq, Structural)]
pub enum EditOutcome {
    /// Close the dialog without storing anything.
    Cancel,
    /// Close the dialog and store the text.
    Commit,
    /// Keep editing.
    Continue,
}

/// The text and cursor after `key`, and what happens to the dialog.
pub open spec fn spec_edit_key(value: Seq<char>, cursor: nat, key: EditKey) -> (Seq<char>, nat, EditOutcome) {
    match key {
        EditKey::Esc => (value, cursor, EditOutcome::Cancel),
        EditKey::Enter => (value, cursor, EditOutcome::Commit),
        EditKey::Backspace => if cursor > 0 {
            (spec_remove_char(value, (cursor - 1) as nat), (cursor - 1) as nat, EditOutcome::Continue)
        } else {
            (value, cursor, EditOutcome::Continue)
        },
        EditKey::Delete => if cursor < value.len() {
            (spec_remove_char(value, cursor), cursor, EditOutcome::Continue)
        } else {
            (value, cursor, EditOutcome::Continue)
        },
        EditKey::Left => (value, if cursor > 0 {
            (cursor - 1) as nat
        } else {
            0
        }, EditOutcome::Continue),
        EditKey::Right => (value, if cursor + 1 < value.len() {
            cursor + 1
        } else {
            value.len()
        }, EditOutcome::Continue),
        EditKey::Home => (value, 0, EditOutcome::Continue),
        EditKey::End => (value, value.len(), EditOutcome::Continue),
        EditKey::ClearLine => (Seq::<char>::empty(), 0, EditOutcome::Continue),
        EditKey::DeleteWord => {
            let (v, c) = spec_delete_previous_word(value, cursor);
            (v, c, EditOutcome::Continue)
        },
        EditKey::Char(c) => (spec_insert_at_char(value, cursor, seq![c]), cursor + 1, EditOutcome::Continue),
        EditKey::Other => (value, cursor, EditOutcome::Continue),
    }
}

/// Applies a key to the text and cursor of a dialog.
pub fn edit_key(value: &mut String, cursor: &mut usize, key: EditKey) -> (r: EditOutcome)
    requires
        *old(cursor) < usize::MAX,
    ensures
        (final(value)@, *final(cursor) as nat, r) == spec_edit_key(old(value)@, *old(cursor) as nat, key),
{
    match key {
        EditKey::Esc => EditOutcome::Cancel,
        EditKey::Enter => EditOutcome::Commit,
        EditKey::Backspace => {
            if *cursor > 0 {
                remove_char(value, *cursor - 1);
                *cursor = *cursor - 1;
            }
            EditOutcome::Continue
        },
        EditKey::Delete => {
            let n = chars_of(value.as_str()).len();
            if *cursor < n {
                remove_char(value, *cursor);
            }
            EditOutcome::Continue
        },
        EditKey::Left => {
            if *cursor > 0 {
                *cursor = *cursor - 1;
            }
            EditOutcome::Continue
        },
        EditKey::Right => {
            let n = chars_of(value.as_str()).len();
            *cursor = if *cursor + 1 < n {
                *cursor + 1
            } else {
                n
            };
            EditOutcome::Continue
        },
        EditKey::Home => {
            *cursor = 0;
            EditOutcome::Continue
        },
        EditKey::End => {
            *cursor = chars_of(value.as_str()).len();
            EditOutcome::Continue
        },
        EditKey::ClearLine => {
            *value = String::new();
            *cursor = 0;
            EditOutcome::Continue
        },
        EditKey::DeleteWord => {
            delete_previous_word(value, cursor);
            EditOutcome::Continue
        },
        EditKey::Char(c) => {
            let mut one: Vec<char> = Vec::new();
            one.push(c);
            let t = string_of(one.as_slice());
            assert(t@ =~= seq![c]);
            insert_at_char(value, *cursor, t.as_str());
            *cursor = *cursor + 1;
            EditOutcome::Continue
        },
        EditKey::Other => EditOutcome::Continue,
    }
}

/// Typing a character and then backspace leaves the text as it was, with
/// the cursor back in place (when the cursor was within the text).
pub proof fn lemma_type_then_backspace(value: Seq<char>, cursor: nat, c: char)
    requires
        cursor <= value.len(),
    ensures
        ({
            let (v1, c1, _) = spec_edit_key(value, cursor, EditKey::Char(c));
            let (v2, c2, _) = spec_edit_key(v1, c1, EditKey::Backspace);
            v2 == value && c2 == cursor
        }),
{
    let v1 = spec_insert_at_char(value, cursor, seq![c]);
    let k = if cursor < value.len() {
        cursor as int
    } else {
        value.len() as int
    };
    assert(k == cursor);
    assert(v1 == value.take(k) + seq![c] + value.skip(k));
    assert(v1.len() == value.len() + 1);
    assert(v1.remove(k) =~= value);
}

/// Removing the character at the position where one was just inserted gives
/// the text back.
pub proof fn lemma_remove_undoes_insert(value: Seq<char>, k: nat, c: char)
    requires
        k <= value.len(),
    ensures
        spec_remove_char(spec_insert_at_char(value, k, seq![c]), k) == value,
{
    let v1 = spec_insert_at_char(value, k, seq![c]);
    assert(v1 == value.take(k as int) + seq![c] + value.skip(k as int));
    assert(v1.remove(k as int) =~= value);
}

/// A key other than Esc and Enter keeps the dialog open with its cursor
/// inside the text: a character is inserted at the cursor, which moves past
/// it; Backspace at the start and Delete at the end change nothing.
pub proof fn lemma_edit_key_keeps_editing(value: Seq<char>, cursor: nat, key: EditKey)
    requires
        cursor <= value.len(),
        key != EditKey::Esc,
        key != EditKey::Enter,
    ensures
        ({
            let (v2, c2, out) = spec_edit_key(value, cursor, key);
            &&& out == EditOutcome::Continue
            &&& c2 <= v2.len()
            &&& (key matches EditKey::Char(c) ==> v2 == spec_insert_at_char(value, cursor, seq![c]) && c2
                == cursor + 1)
            &&& (key == EditKey::Backspace && cursor == 0 ==> v2 == value && c2 == cursor)
            &&& (key == EditKey::Delete && cursor == value.len() ==> v2 == value && c2 == cursor)
        }),
{
    if key == EditKey::DeleteWord {
        let after_space = (cursor - run_before(value, cursor, true)) as nat;
        lemma_run_before_bound(value, cursor, true);
        lemma_run_before_bound(value, after_space, false);
    }
}

/// Pasted text on one line: carriage returns and line feeds become spaces.
pub open spec fn one_line(t: Seq<char>) -> Seq<char> {
    t.map_values(|c: char| if c == '\r' || c == '\n' {
        ' '
    } else {
        c
    })
}

/// `t` with line breaks turned into spaces.
pub fn flatten_lines(t: &str) -> (r: String)
    ensures
        r@ == one_line(t@),
{
    let v = chars_of(t);
    let mut out: Vec<char> = Vec::new();
    let mut i: usize = 0;
    while i < v.len()
        invariant
            i <= v@.len(),
            out@ == one_line(v@.take(i as int)),
        decreases v.len() - i,
    {
        let c = v[i];
        out.push(if c == '\r' || c == '\n' {
            ' '
        } else {
            c
        });
        i = i + 1;
        assert(out@ =~= one_line(v@.take(i as int)));
    }
    assert(v@.take(v@.len() as int) =~= v@);
    string_of(out.as_slice())
}

/// Pastes `text` into a dialog at the cursor, on one line, moving the cursor
/// past it.
pub fn paste_into(value: &mut String, cursor: &mut usize, text: &str)
    requires
        *old(cursor) + text@.len() <= usize::MAX,
    ensures
        final(value)@ == spec_insert_at_char(old(value)@, *old(cursor) as nat, one_line(text@)),
        *final(cursor) == *old(cursor) + text@.len(),
{
    let p = flatten_lines(text);
    insert_at_char(value, *cursor, p.as_str());
    let n = chars_of(p.as_str()).len();
    *cursor = *cursor + n;
}

/// Pastes `text` at the end of a field, on one line, after a separating
/// space when the field is not empty.
pub fn append_pasted(field: &mut String, text: &str)
    ensures
        final(field)@ == (if old(field)@.len() == 0 {
            one_line(text@)
        } else {
            old(field)@ + seq![' '] + one_line(text@)
        }),
{
    let p = flatten_lines(text);
    if !field.as_str().is_empty() {
        field.append(" ");
        proof {
            reveal_strlit(" ");
        }
    }
    field.append(p.as_str());
}

} // verus!
