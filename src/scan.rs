//! The scan engine: finds every control character of the table in a text,
//! with its 1-based line and character column.

use vstd::prelude::*;

use crate::registry::{is_bidi_char, is_control_char};

verus! {

/// Number of line feeds in `s`.
pub open spec fn newline_count(s: Seq<char>) -> nat
    decreases s.len(),
{
    if s.len() == 0 {
        0
    } else {
        newline_count(s.drop_last()) + if s.last() == '\n' {
            1nat
        } else {
            0nat
        }
    }
}

/// Number of characters after the last line feed of `s` (all of `s` if it has none).
pub open spec fn chars_since_newline(s: Seq<char>) -> nat
    decreases s.len(),
{
    if s.len() == 0 {
        0
    } else if s.last() == '\n' {
        0
    } else {
        chars_since_newline(s.drop_last()) + 1
    }
}

/// (line, column, character) of the character that follows the text `before`.
pub open spec fn position_after(before: Seq<char>, c: char) -> (nat, nat, char) {
    (newline_count(before) + 1, chars_since_newline(before) + 1, c)
}

/// (line, column, character) of the character at index `i` of `t`.
pub open spec fn position_of(t: Seq<char>, i: int) -> (nat, nat, char) {
    position_after(t.take(i), t[i])
}

/// The occurrences of control characters in `t`, in text order.
pub open spec fn occurrences(t: Seq<char>) -> Seq<(nat, nat, char)>
    decreases t.len(),
{
    if t.len() == 0 {
        Seq::empty()
    } else if is_bidi_char(t.last()) {
        occurrences(t.drop_last()).push(position_after(t.drop_last(), t.last()))
    } else {
        occurrences(t.drop_last())
    }
}

/// Whether `o` is the position of a control character of `t`.
pub open spec fn is_control_position(t: Seq<char>, o: (nat, nat, char)) -> bool {
    exists|i: int| 0 <= i < t.len() && is_bidi_char(t[i]) && o == #[trigger] position_of(t, i)
}

/// Whether `t` holds any control character.
pub open spec fn has_bidi_char(t: Seq<char>) -> bool {
    exists|i: int| 0 <= i < t.len() && is_bidi_char(#[trigger] t[i])
}

/// What a scan of `t` yields: whether anything was found, and the occurrences.
pub open spec fn scan_of(t: Seq<char>) -> (bool, Seq<(nat, nat, char)>) {
    (has_bidi_char(t), occurrences(t))
}

/// One control character found in a text.
#[derive(Debug, Clone, Copy, PartialEq, Eq, Structural)]
pub struct BIDICharOccurence {
    /// 1-based line number.
    pub line: usize,
    /// 1-based column, counted in characters.
    pub char_pos: usize,
    pub found_char: char,
}

impl View for BIDICharOccurence {
    type V = (nat, nat, char);

    open spec fn view(&self) -> (nat, nat, char) {
        (self.line as nat, self.char_pos as nat, self.found_char)
    }
}

/// The result of scanning one text.
#[derive(Debug, Clone)]
pub struct BIDICheckResult {
    pub contains_bidi_chars: bool,
    pub occurences: Vec<BIDICharOccurence>,
}

impl View for BIDICheckResult {
    type V = (bool, Seq<(nat, nat, char)>);

    open spec fn view(&self) -> (bool, Seq<(nat, nat, char)>) {
        (self.contains_bidi_chars, self.occurences@.map_values(|o: BIDICharOccurence| o@))
    }
}

proof fn lemma_counts_bounded(s: Seq<char>)
    ensures
        newline_count(s) <= s.len(),
        chars_since_newline(s) <= s.len(),
    decreases s.len(),
{
    if s.len() > 0 {
        lemma_counts_bounded(s.drop_last());
    }
}

proof fn lemma_found_iff_nonempty(t: Seq<char>)
    ensures
        has_bidi_char(t) <==> occurrences(t).len() > 0,
    decreases t.len(),
{
    if t.len() > 0 {
        let p = t.drop_last();
        lemma_found_iff_nonempty(p);
        if has_bidi_char(p) {
            let i = choose|i: int| 0 <= i < p.len() && is_bidi_char(#[trigger] p[i]);
            assert(t[i] == p[i]);
        }
        if has_bidi_char(t) && !is_bidi_char(t.last()) {
            let i = choose|i: int| 0 <= i < t.len() && is_bidi_char(#[trigger] t[i]);
            assert(p[i] == t[i]);
        }
        if is_bidi_char(t.last()) {
            assert(is_bidi_char(t[t.len() - 1]));
        }
    }
}

/// Scans `test` for control characters. Lines are separated by line feeds,
/// both lines and columns are 1-based, and columns count characters.
pub fn check_for_bidi_chars(test: &str) -> (r: BIDICheckResult)
    ensures
        r@ == scan_of(test@),
        forall|k: int|
            0 <= k < r.occurences@.len() ==> is_bidi_char(#[trigger] r.occurences@[k].found_char),
{
    // The character count bounds every line and column number.
    let len = test.unicode_len();
    let mut result = BIDICheckResult { contains_bidi_chars: false, occurences: Vec::new() };
    let mut newlines: usize = 0;
    let mut column: usize = 0;
    let ghost mut seen: Seq<char> = Seq::empty();
    for single_char in it: test.chars()
        invariant
            it.seq() == test@,
            len == test@.len(),
            seen == test@.take(it.index() as int),
            newlines == newline_count(seen),
            column == chars_since_newline(seen),
            result@ == (occurrences(seen).len() > 0, occurrences(seen)),
    {
        proof {
            let next = test@.take(it.index() + 1);
            assert(next.drop_last() == seen);
            lemma_counts_bounded(seen);
            seen = next;
        }
        if single_char == '\n' {
            newlines = newlines + 1;
            column = 0;
        } else {
            if is_control_char(single_char) {
                result.contains_bidi_chars = true;
                result.occurences.push(
                    BIDICharOccurence {
                        line: newlines + 1,
                        char_pos: column + 1,
                        found_char: single_char,
                    },
                );
                proof {
                    assert(result.occurences@.map_values(|o: BIDICharOccurence| o@)
                        =~= occurrences(seen));
                }
            }
            column = column + 1;
        }
    }
    proof {
        assert(seen == test@);
        lemma_found_iff_nonempty(test@);
        lemma_sound(test@);
        assert forall|k: int| 0 <= k < result.occurences@.len() implies is_bidi_char(
            #[trigger] result.occurences@[k].found_char,
        ) by {
            assert(result.occurences@[k]@ == occurrences(test@)[k]);
            assert(is_control_position(test@, occurrences(test@)[k]));
        }
    }
    result
}

proof fn lemma_prefix_occurrences(t: Seq<char>, n: int)
    requires
        0 <= n <= t.len(),
    ensures
        occurrences(t.take(n)).len() <= occurrences(t).len(),
        forall|k: int|
            0 <= k < occurrences(t.take(n)).len() ==> occurrences(t)[k] == #[trigger] occurrences(
                t.take(n),
            )[k],
    decreases t.len(),
{
    if n < t.len() {
        let p = t.drop_last();
        assert(p.take(n) == t.take(n));
        lemma_prefix_occurrences(p, n);
    } else {
        assert(t.take(n) == t);
    }
}

proof fn lemma_complete(t: Seq<char>, i: int)
    requires
        0 <= i < t.len(),
        is_bidi_char(t[i]),
    ensures
        occurrences(t).contains(position_of(t, i)),
{
    let p = t.take(i + 1);
    assert(p.drop_last() == t.take(i));
    lemma_prefix_occurrences(t, i + 1);
    assert(p.last() == t[i]);
    assert(occurrences(p) == occurrences(t.take(i)).push(position_of(t, i)));
    let k = occurrences(p).len() - 1;
    assert(occurrences(p)[k] == position_of(t, i));
    assert(occurrences(t)[k] == position_of(t, i));
}

proof fn lemma_sound(t: Seq<char>)
    ensures
        forall|k: int|
            0 <= k < occurrences(t).len() ==> is_control_position(t, #[trigger] occurrences(t)[k]),
    decreases t.len(),
{
    if t.len() > 0 {
        let p = t.drop_last();
        lemma_sound(p);
        assert forall|k: int| 0 <= k < occurrences(t).len() implies is_control_position(
            t,
            #[trigger] occurrences(t)[k],
        ) by {
            if k < occurrences(p).len() {
                assert(occurrences(t)[k] == occurrences(p)[k]);
                let i = choose|i: int|
                    0 <= i < p.len() && is_bidi_char(p[i]) && occurrences(p)[k] == #[trigger] position_of(p, i);
                assert(p[i] == t[i]);
                assert(p.take(i) == t.take(i));
                assert(occurrences(t)[k] == position_of(t, i));
            } else {
                assert(t.take(p.len() as int) == p);
                assert(occurrences(t)[k] == position_of(t, p.len() as int));
            }
        }
    } else {
        assert(occurrences(t).len() == 0);
    }
}

proof fn lemma_newlines_concat(a: Seq<char>, b: Seq<char>)
    ensures
        newline_count(a + b) == newline_count(a) + newline_count(b),
    decreases b.len(),
{
    if b.len() == 0 {
        assert(a + b == a);
    } else {
        assert((a + b).drop_last() == a + b.drop_last());
        lemma_newlines_concat(a, b.drop_last());
    }
}

proof fn lemma_column_within_line(before: Seq<char>, line: Seq<char>)
    requires
        before.len() == 0 || before.last() == '\n',
        forall|j: int| 0 <= j < line.len() ==> line[j] != '\n',
    ensures
        chars_since_newline(before + line) == line.len(),
        newline_count(line) == 0,
    decreases line.len(),
{
    if line.len() == 0 {
        assert(before + line == before);
    } else {
        assert((before + line).drop_last() == before + line.drop_last());
        lemma_column_within_line(before, line.drop_last());
    }
}

/// A text without control characters yields no finding and no occurrence.
pub proof fn clean_text_yields_nothing(t: Seq<char>)
    requires
        forall|i: int| 0 <= i < t.len() ==> !is_bidi_char(#[trigger] t[i]),
    ensures
        scan_of(t) == (false, Seq::<(nat, nat, char)>::empty()),
{
    lemma_found_iff_nonempty(t);
}

/// Every occurrence reported stands for a control character of the text at
/// its line and column, and every control character of the text is reported.
pub proof fn occurrences_are_the_control_characters(t: Seq<char>)
    ensures
        forall|k: int|
            0 <= k < occurrences(t).len() ==> is_control_position(t, #[trigger] occurrences(t)[k]),
        forall|i: int|
            0 <= i < t.len() && is_bidi_char(#[trigger] t[i]) ==> occurrences(t).contains(
                position_of(t, i),
            ),
{
    lemma_sound(t);
    assert forall|i: int| 0 <= i < t.len() && is_bidi_char(#[trigger] t[i]) implies occurrences(
        t,
    ).contains(position_of(t, i)) by {
        lemma_complete(t, i);
    }
}

/// A control character placed after the text `before` is reported at the
/// line and column where it stands, whatever text follows it.
pub proof fn inserted_character_is_found(before: Seq<char>, c: char, after: Seq<char>)
    requires
        is_bidi_char(c),
    ensures
        occurrences(before.push(c) + after).contains(position_after(before, c)),
{
    let t = before.push(c) + after;
    let i = before.len() as int;
    assert(t.take(i) == before);
    assert(t[i] == c);
    lemma_complete(t, i);
}

/// The column of a character is the number of characters before it on its
/// line, plus one, however many bytes those characters take.
pub proof fn column_counts_characters(
    before: Seq<char>,
    line: Seq<char>,
    c: char,
    after: Seq<char>,
)
    requires
        before.len() == 0 || before.last() == '\n',
        forall|j: int| 0 <= j < line.len() ==> line[j] != '\n',
        is_bidi_char(c),
    ensures
        occurrences((before + line).push(c) + after).contains(
            (newline_count(before) + 1, line.len() + 1, c),
        ),
{
    lemma_column_within_line(before, line);
    lemma_newlines_concat(before, line);
    inserted_character_is_found(before + line, c, after);
}

/// Lines are numbered from one, and a stretch of text moves the line number
/// on by exactly the number of line feeds it holds.
pub proof fn line_number_counts_line_feeds(before: Seq<char>, stretch: Seq<char>, c: char)
    ensures
        position_after(Seq::empty(), c).0 == 1,
        position_after(before + stretch, c).0 == position_after(before, c).0 + newline_count(
            stretch,
        ),
        newline_count(stretch.push('\n')) == newline_count(stretch) + 1,
{
    lemma_newlines_concat(before, stretch);
    assert(stretch.push('\n').drop_last() == stretch);
}

/// Scanning depends on the text alone: two scans of the same text agree.
pub proof fn scan_is_repeatable(t1: Seq<char>, t2: Seq<char>)
    requires
        t1 == t2,
    ensures
        scan_of(t1) == scan_of(t2),
{
}

} // verus!
