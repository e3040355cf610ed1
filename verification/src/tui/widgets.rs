//! A single-line text input, and the text of elapsed times.
use vstd::prelude::*;
use vstd::string::*;
use vstd::utf8::*;
use crate::numbers;
use crate::numbers::i64_text;
use crate::offsets;
use crate::offsets::{next_char_boundary, prev_char_boundary};
use crate::text;
use crate::text::chars_of;
use crate::tui::keymap::{KeyCode, KeyEvent};

verus! {

/// What a text input holds: its characters, and how many of them stand before
/// the cursor.
pub ghost struct InputModel {
    pub text: Seq<char>,
    pub at: nat,
}

impl InputModel {
    /// The characters before the cursor.
    pub open spec fn left(self) -> Seq<char> {
        self.text.take(self.at as int)
    }

    /// The characters from the cursor on.
    pub open spec fn right(self) -> Seq<char> {
        self.text.skip(self.at as int)
    }

    /// An empty input.
    pub open spec fn empty() -> Self {
        InputModel { text: Seq::empty(), at: 0 }
    }

    /// `text`, with the cursor at its end.
    pub open spec fn ending(text: Seq<char>) -> Self {
        InputModel { text, at: text.len() }
    }

    /// `c` inserted before the cursor.
    pub open spec fn inserted(self, c: char) -> Self {
        InputModel { text: self.left().push(c) + self.right(), at: self.at + 1 }
    }

    /// The character before the cursor removed, if there is one.
    pub open spec fn backspaced(self) -> Self {
        if self.at == 0 {
            self
        } else {
            InputModel {
                text: self.left().drop_last() + self.right(),
                at: (self.at - 1) as nat,
            }
        }
    }

    /// The cursor one character to the left, if it can go there.
    pub open spec fn moved_left(self) -> Self {
        if self.at == 0 {
            self
        } else {
            InputModel { at: (self.at - 1) as nat, ..self }
        }
    }

    /// The cursor one character to the right, if it can go there.
    pub open spec fn moved_right(self) -> Self {
        if self.at < self.text.len() {
            InputModel { at: self.at + 1, ..self }
        } else {
            self
        }
    }

    /// The cursor before the first character.
    pub open spec fn moved_home(self) -> Self {
        InputModel { at: 0, ..self }
    }

    /// The cursor after the last character.
    pub open spec fn moved_end(self) -> Self {
        InputModel { at: self.text.len(), ..self }
    }

    /// What a key does to a prompt: it edits the text or moves the cursor. Keys
    /// that are pressed with the control key are not typed.
    pub open spec fn edited(self, key: KeyEvent) -> Self {
        match key.code {
            KeyCode::Backspace => self.backspaced(),
            KeyCode::Left => self.moved_left(),
            KeyCode::Right => self.moved_right(),
            KeyCode::Home => self.moved_home(),
            KeyCode::End => self.moved_end(),
            KeyCode::Char(c) => if key.ctrl {
                self
            } else {
                self.inserted(c)
            },
            _ => self,
        }
    }

    /// The white space before the cursor removed, and the word before it.
    pub open spec fn word_deleted(self) -> Self {
        let kept = without_trailing(without_trailing(self.left(), true), false);
        InputModel { text: kept + self.right(), at: kept.len() }
    }
}

/// `s` without the ASCII white space at its end (`space`), or without what is
/// not ASCII white space at its end (`!space`).
pub open spec fn without_trailing(s: Seq<char>, space: bool) -> Seq<char>
    decreases s.len(),
{
    if s.len() > 0 && text::is_ascii_white_space(s.last()) == space {
        without_trailing(s.drop_last(), space)
    } else {
        s
    }
}

/// A minimal single-line text input, which owns its cursor.
#[derive(Debug)]
pub struct TextInput {
    buf: String,
    /// A byte offset into `buf`.
    cursor: usize,
}

impl View for TextInput {
    type V = InputModel;

    closed spec fn view(&self) -> InputModel {
        InputModel {
            text: self.buf@,
            at: choose|k: nat| k <= self.buf@.len() && offsets::offset_of(self.buf@, k as int) == self.cursor,
        }
    }
}

impl TextInput {
    /// The cursor stands between two characters.
    pub closed spec fn wf(&self) -> bool {
        exists|k: nat|
            k <= self.buf@.len() && #[trigger] offsets::offset_of(self.buf@, k as int) == self.cursor
    }

    /// What `wf` says of the cursor.
    proof fn lemma_at(&self)
        requires
            self.wf(),
        ensures
            self@.text == self.buf@,
            self@.at <= self.buf@.len(),
            offsets::offset_of(self.buf@, self@.at as int) == self.cursor,
            is_char_boundary(encode_utf8(self.buf@), self.cursor as int),
    {
        offsets::lemma_boundary_is_offset(self.buf@, self.cursor as int);
        assert(offsets::offset_of(self.buf@, self@.at as int) == self.cursor);
    }

    /// A cursor at the offset of character `k` stands before it.
    proof fn lemma_placed(&self, k: nat)
        requires
            k <= self.buf@.len(),
            offsets::offset_of(self.buf@, k as int) == self.cursor,
        ensures
            self.wf(),
            self@ == (InputModel { text: self.buf@, at: k }),
    {
        let at = self@.at;
        assert(at <= self.buf@.len() && offsets::offset_of(self.buf@, at as int) == self.cursor);
        offsets::lemma_offset_unique(self.buf@, at as int, k as int);
    }
}

impl TextInput {
    /// An empty input.
    pub fn new() -> (r: Self)
        ensures
            r.wf(),
            r@ == InputModel::empty(),
    {
        let r = TextInput { buf: String::new(), cursor: 0 };
        proof {
            offsets::lemma_offset_ends(r.buf@);
            r.lemma_placed(0);
        }
        r
    }

    /// An input that holds `s`, with the cursor at its end.
    pub fn with_text(s: &str) -> (r: Self)
        ensures
            r.wf(),
            r@ == InputModel::ending(s@),
    {
        let cursor: usize = s.as_bytes().len();
        let r = TextInput { buf: s.to_owned(), cursor };
        proof {
            offsets::lemma_offset_ends(r.buf@);
            r.lemma_placed(r.buf@.len());
        }
        r
    }

    /// The text.
    pub fn as_str(&self) -> (r: &str)
        ensures
            r@ == self@.text,
    {
        self.buf.as_str()
    }

    /// The cursor as a byte offset into the text.
    pub fn cursor(&self) -> (r: usize)
        requires
            self.wf(),
        ensures
            r == offsets::byte_len(self@.left()),
    {
        proof {
            self.lemma_at();
        }
        self.cursor
    }

    /// Tells whether there is no text.
    pub fn is_empty(&self) -> (r: bool)
        ensures
            r == (self@.text.len() == 0),
    {
        self.buf.as_str().is_empty()
    }

    /// Removes all text.
    pub fn clear(&mut self)
        ensures
            final(self).wf(),
            final(self)@ == InputModel::empty(),
    {
        self.buf = String::new();
        self.cursor = 0;
        proof {
            offsets::lemma_offset_ends(self.buf@);
            self.lemma_placed(0);
        }
    }

    /// The text before the cursor and the text from it on.
    fn halves(&self) -> (r: (&str, &str))
        requires
            self.wf(),
        ensures
            r.0@ == self@.left(),
            r.1@ == self@.right(),
    {
        proof {
            self.lemma_at();
        }
        let (left, right) = self.buf.as_str().split_at(self.cursor);
        proof {
            let m = self@;
            assert(m.text =~= m.left() + m.right());
            offsets::lemma_encode_concat(m.left(), m.right());
            assert(left.spec_bytes() =~= encode_utf8(m.left()));
            assert(right.spec_bytes() =~= encode_utf8(m.right()));
            offsets::lemma_encode_injective(left@, m.left());
            offsets::lemma_encode_injective(right@, m.right());
        }
        (left, right)
    }

    /// Replaces the text before the cursor by `left`, and puts the cursor
    /// after it.
    fn replace_left(&mut self, left: String)
        requires
            old(self).wf(),
        ensures
            final(self).wf(),
            final(self)@ == (InputModel {
                text: left@ + old(self)@.right(),
                at: left@.len(),
            }),
    {
        let cursor: usize = left.as_str().as_bytes().len();
        let ghost l = left@;
        let mut buf: String = left;
        let (_, right) = self.halves();
        buf.append(right);
        self.buf = buf;
        self.cursor = cursor;
        proof {
            assert(self.buf@.take(l.len() as int) =~= l);
            self.lemma_placed(l.len());
        }
    }

    /// Inserts `c` before the cursor.
    pub fn insert(&mut self, c: char)
        requires
            old(self).wf(),
        ensures
            final(self).wf(),
            final(self)@ == old(self)@.inserted(c),
    {
        proof {
            self.lemma_at();
        }
        let (left, _) = self.halves();
        let mut left: String = left.to_owned();
        left.push(c);
        self.replace_left(left);
    }

    /// Removes the character before the cursor.
    pub fn backspace(&mut self)
        requires
            old(self).wf(),
        ensures
            final(self).wf(),
            final(self)@ == old(self)@.backspaced(),
    {
        let ghost m = self@;
        proof {
            self.lemma_at();
            offsets::lemma_offset_ends(self.buf@);
            if m.at > 0 {
                offsets::lemma_offset_increases(self.buf@, 0, m.at as int);
            }
        }
        if self.cursor == 0 {
            return;
        }
        let (left, _) = self.halves();
        let n: usize = left.unicode_len();
        let left: String = left.substring_char(0, n - 1).to_owned();
        assert(left@ =~= m.left().drop_last());
        self.replace_left(left);
    }

    /// The boundary before the cursor is the offset of the character before
    /// it, and likewise after it.
    proof fn lemma_neighbours(&self)
        requires
            self.wf(),
        ensures
            self@.at == 0 <==> self.cursor == 0,
            self@.at == self@.text.len() <==> self.cursor == offsets::byte_len(self.buf@),
            self.cursor <= offsets::byte_len(self.buf@),
            forall|b: int|
                #[trigger] is_char_boundary(encode_utf8(self.buf@), b) && b < self.cursor ==> self@.at
                    > 0 && b <= offsets::offset_of(self.buf@, self@.at - 1),
            forall|b: int|
                #[trigger] is_char_boundary(encode_utf8(self.buf@), b) && b > self.cursor ==> self@.at
                    < self@.text.len() && b >= offsets::offset_of(self.buf@, self@.at as int + 1),
            self@.at > 0 ==> is_char_boundary(
                encode_utf8(self.buf@),
                offsets::offset_of(self.buf@, self@.at - 1) as int,
            ) && offsets::offset_of(self.buf@, self@.at - 1) < self.cursor,
            self@.at < self@.text.len() ==> is_char_boundary(
                encode_utf8(self.buf@),
                offsets::offset_of(self.buf@, self@.at as int + 1) as int,
            ) && offsets::offset_of(self.buf@, self@.at as int + 1) > self.cursor,
    {
        self.lemma_at();
        let s = self.buf@;
        let at = self@.at as int;
        offsets::lemma_offset_ends(s);
        if at > 0 {
            offsets::lemma_offset_increases(s, 0, at);
            offsets::lemma_offset_increases(s, at - 1, at);
            offsets::lemma_boundary_is_offset(s, offsets::offset_of(s, at - 1) as int);
        }
        if at < s.len() {
            offsets::lemma_offset_increases(s, at, s.len() as int);
            offsets::lemma_offset_increases(s, at, at + 1);
            offsets::lemma_boundary_is_offset(s, offsets::offset_of(s, at + 1) as int);
        }
        assert forall|b: int|
            #[trigger] is_char_boundary(encode_utf8(s), b) && b < self.cursor implies at > 0 && b
            <= offsets::offset_of(s, at - 1) by {
            offsets::lemma_boundary_is_offset(s, b);
            let k = choose|k: int| 0 <= k <= s.len() && #[trigger] offsets::offset_of(s, k) == b;
            if k > at {
                offsets::lemma_offset_increases(s, at, k);
            }
            if k < at - 1 {
                offsets::lemma_offset_increases(s, k, at - 1);
            }
        }
        assert forall|b: int|
            #[trigger] is_char_boundary(encode_utf8(s), b) && b > self.cursor implies at < s.len() && b
            >= offsets::offset_of(s, at + 1) by {
            offsets::lemma_boundary_is_offset(s, b);
            let k = choose|k: int| 0 <= k <= s.len() && #[trigger] offsets::offset_of(s, k) == b;
            if k < at {
                offsets::lemma_offset_increases(s, k, at);
            }
            if k > at + 1 {
                offsets::lemma_offset_increases(s, at + 1, k);
            }
        }
    }

    /// Moves the cursor one character to the left.
    pub fn move_left(&mut self)
        requires
            old(self).wf(),
        ensures
            final(self).wf(),
            final(self)@ == old(self)@.moved_left(),
    {
        let ghost m = self@;
        proof {
            self.lemma_at();
            self.lemma_neighbours();
        }
        if self.cursor > 0 {
            self.cursor = prev_char_boundary(self.buf.as_str(), self.cursor);
            proof {
                assert(self.cursor == offsets::offset_of(self.buf@, m.at - 1));
                self.lemma_placed((m.at - 1) as nat);
            }
        }
    }

    /// Moves the cursor one character to the right.
    pub fn move_right(&mut self)
        requires
            old(self).wf(),
        ensures
            final(self).wf(),
            final(self)@ == old(self)@.moved_right(),
    {
        let ghost m = self@;
        proof {
            self.lemma_at();
            self.lemma_neighbours();
        }
        if self.cursor < self.buf.as_str().as_bytes().len() {
            self.cursor = next_char_boundary(self.buf.as_str(), self.cursor);
            proof {
                assert(self.cursor == offsets::offset_of(self.buf@, m.at as int + 1));
                self.lemma_placed(m.at + 1);
            }
        }
    }

    /// Moves the cursor before the first character.
    pub fn move_home(&mut self)
        requires
            old(self).wf(),
        ensures
            final(self).wf(),
            final(self)@ == old(self)@.moved_home(),
    {
        self.cursor = 0;
        proof {
            offsets::lemma_offset_ends(self.buf@);
            self.lemma_placed(0);
        }
    }

    /// Moves the cursor after the last character.
    pub fn move_end(&mut self)
        requires
            old(self).wf(),
        ensures
            final(self).wf(),
            final(self)@ == old(self)@.moved_end(),
    {
        self.cursor = self.buf.as_str().as_bytes().len();
        proof {
            offsets::lemma_offset_ends(self.buf@);
            self.lemma_placed(self.buf@.len());
        }
    }

    /// Deletes from the cursor back to the start of the previous word: first
    /// the white space before the cursor, then what is not white space.
    pub fn delete_word_back(&mut self)
        requires
            old(self).wf(),
        ensures
            final(self).wf(),
            final(self)@ == old(self)@.word_deleted(),
    {
        let ghost m = self@;
        let (left, _) = self.halves();
        let v = chars_of(left);
        let i: usize = trailing_start(&v, v.len(), true);
        let i: usize = trailing_start(&v, i, false);
        let left: String = left.substring_char(0, i).to_owned();
        proof {
            assert(m.left().take(m.left().len() as int) =~= m.left());
            assert(left@ =~= m.left().take(i as int));
        }
        self.replace_left(left);
    }

    /// Takes in a key of a prompt.
    pub fn handle_key(&mut self, key: KeyEvent)
        requires
            old(self).wf(),
        ensures
            final(self).wf(),
            final(self)@ == old(self)@.edited(key),
    {
        match key.code {
            KeyCode::Backspace => self.backspace(),
            KeyCode::Left => self.move_left(),
            KeyCode::Right => self.move_right(),
            KeyCode::Home => self.move_home(),
            KeyCode::End => self.move_end(),
            KeyCode::Char(c) => if !key.ctrl {
                self.insert(c);
            },
            _ => {},
        }
    }

    /// The column of the cursor: the number of characters before it, as far
    /// as 16 bits hold it.
    pub fn display_cursor(&self) -> (r: u16)
        requires
            self.wf(),
        ensures
            r == self@.at % 0x1_0000,
    {
        proof {
            self.lemma_at();
        }
        let (left, _) = self.halves();
        let n: usize = left.unicode_len();
        assert((n as u16) as usize == n % 0x1_0000) by (bit_vector);
        n as u16
    }

    /// The cursor never leaves the text.
    pub proof fn law_cursor_within(&self)
        requires
            self.wf(),
        ensures
            self@.at <= self@.text.len(),
    {
        self.lemma_at();
    }
}

/// Where the run of ASCII white space (`space`), or of anything else
/// (`!space`), at the end of `v[..n]` begins.
fn trailing_start(v: &Vec<char>, n: usize, space: bool) -> (r: usize)
    requires
        n <= v.len(),
    ensures
        r <= n,
        v@.take(r as int) == without_trailing(v@.take(n as int), space),
{
    let mut i: usize = n;
    while i > 0 && is_ascii_whitespace(v[i - 1]) == space
        invariant
            i <= n <= v.len(),
            without_trailing(v@.take(i as int), space) == without_trailing(
                v@.take(n as int),
                space,
            ),
        ensures
            i <= n,
            v@.take(i as int) == without_trailing(v@.take(n as int), space),
        decreases i,
    {
        assert(v@.take(i as int).drop_last() =~= v@.take(i - 1));
        i -= 1;
    }
    i
}

fn is_ascii_whitespace(c: char) -> (r: bool)
    ensures
        r == text::is_ascii_white_space(c),
{
    c == ' ' || c == '\t' || c == '\n' || c == '\x0c' || c == '\r'
}

impl Default for TextInput {
    fn default() -> (r: Self)
        ensures
            r.wf(),
            r@ == InputModel::empty(),
    {
        TextInput::new()
    }
}

impl Clone for TextInput {
    fn clone(&self) -> (r: Self)
        ensures
            r@ == self@,
            self.wf() ==> r.wf(),
    {
        let r = TextInput { buf: self.buf.as_str().to_owned(), cursor: self.cursor };
        proof {
            if self.wf() {
                self.lemma_at();
                r.lemma_placed(self@.at);
            }
        }
        r
    }
}

/// A typed character is taken back by a backspace.
pub proof fn law_backspace_undoes_insert(m: InputModel, c: char)
    requires
        m.at <= m.text.len(),
    ensures
        m.inserted(c).backspaced() == m,
{
    let n = m.inserted(c);
    assert(n.left() =~= m.left().push(c));
    assert(n.right() =~= m.right());
    assert(n.left().drop_last() + n.right() =~= m.text);
}

/// Wherever there is a next character, moving right and then left comes back.
pub proof fn law_left_undoes_right(m: InputModel)
    requires
        m.at < m.text.len(),
    ensures
        m.moved_right().moved_left() == m,
{
}

/// Moving the cursor never changes the text.
pub proof fn law_moves_keep_text(m: InputModel)
    ensures
        m.moved_left().text == m.text,
        m.moved_right().text == m.text,
        m.moved_home().text == m.text,
        m.moved_end().text == m.text,
{
}

/// Typing puts the character between what stood before the cursor and what
/// stood after it, and leaves the cursor behind it.
pub proof fn law_insert_splits(m: InputModel, c: char)
    requires
        m.at <= m.text.len(),
    ensures
        m.inserted(c).left() == m.left().push(c),
        m.inserted(c).right() == m.right(),
{
    assert(m.inserted(c).left() =~= m.left().push(c));
    assert(m.inserted(c).right() =~= m.right());
}

proof fn lemma_without_trailing(s: Seq<char>, space: bool)
    ensures
        without_trailing(s, space).len() <= s.len(),
        without_trailing(s, space) == s.take(without_trailing(s, space).len() as int),
        without_trailing(s, space).len() > 0 ==> text::is_ascii_white_space(
            without_trailing(s, space).last(),
        ) != space,
    decreases s.len(),
{
    if s.len() > 0 && text::is_ascii_white_space(s.last()) == space {
        lemma_without_trailing(s.drop_last(), space);
        let k = without_trailing(s, space).len() as int;
        assert(s.drop_last().take(k) =~= s.take(k));
    } else {
        assert(s.take(s.len() as int) =~= s);
    }
}

/// Deleting a word keeps what stands after the cursor, keeps a prefix of what
/// stands before it, and stops at the start of the text or after white space.
pub proof fn law_word_delete_keeps_right(m: InputModel)
    requires
        m.at <= m.text.len(),
    ensures
        m.word_deleted().right() == m.right(),
        m.word_deleted().at <= m.at,
        m.word_deleted().left() == m.text.take(m.word_deleted().at as int),
        m.word_deleted().at > 0 ==> text::is_ascii_white_space(m.word_deleted().left().last()),
{
    let one = without_trailing(m.left(), true);
    let two = without_trailing(one, false);
    lemma_without_trailing(m.left(), true);
    lemma_without_trailing(one, false);
    let d = m.word_deleted();
    assert(d.right() =~= m.right());
    assert(d.left() =~= two);
    assert(two =~= m.text.take(two.len() as int));
}

/// Deleting a word on a non-empty left part always deletes something.
pub proof fn law_word_delete_progress(m: InputModel)
    requires
        0 < m.at <= m.text.len(),
    ensures
        m.word_deleted().at < m.at,
{
    let one = without_trailing(m.left(), true);
    lemma_without_trailing(m.left(), true);
    lemma_without_trailing(one, false);
    if one.len() > 0 {
        lemma_without_trailing(one.drop_last(), false);
    }
}

/// The text of an age: `now` for a time to come, else whole seconds, minutes,
/// hours or days, rounded down.
pub open spec fn age_text(secs: int) -> Seq<char> {
    if secs < 0 {
        "now"@
    } else if secs < 60 {
        numbers::int_text(secs).push('s')
    } else if secs < 3600 {
        numbers::int_text(secs / 60).push('m')
    } else if secs < 86400 {
        numbers::int_text(secs / 3600).push('h')
    } else {
        numbers::int_text(secs / 86400).push('d')
    }
}

/// Elapsed seconds as a short text.
pub fn format_age(secs: i64) -> (r: String)
    ensures
        r@ == age_text(secs as int),
{
    if secs < 0 {
        return "now".to_owned();
    }
    let (n, unit): (i64, char) = if secs < 60 {
        (secs, 's')
    } else if secs < 3600 {
        (secs / 60, 'm')
    } else if secs < 86400 {
        (secs / 3600, 'h')
    } else {
        (secs / 86400, 'd')
    };
    let mut r: String = i64_text(n);
    r.push(unit);
    r
}

/// The time from one moment to another as a short text.
pub fn format_age_between(from: i64, to: i64) -> (r: String)
    ensures
        r@ == age_text(to - from),
{
    let secs: i128 = to as i128 - from as i128;
    if secs < 0 {
        return "now".to_owned();
    }
    if secs <= i64::MAX as i128 {
        return format_age(secs as i64);
    }
    let days: i128 = secs / 86400;
    let mut r: String = i64_text(days as i64);
    r.push('d');
    r
}

/// An age is given in the largest unit it fills: whole days, hours, minutes or
/// seconds. A time to come has none.
pub proof fn law_ages_in_whole_units(n: nat, rest: nat)
    ensures
        n < 60 ==> age_text(n as int) == numbers::decimal(n).push('s'),
        1 <= n < 60 && rest < 60 ==> age_text((n * 60 + rest) as int) == numbers::decimal(n).push('m'),
        1 <= n < 24 && rest < 3600 ==> age_text((n * 3600 + rest) as int) == numbers::decimal(n).push('h'),
        1 <= n && rest < 86400 ==> age_text((n * 86400 + rest) as int) == numbers::decimal(n).push('d'),
        n > 0 ==> age_text(-(n as int)) == "now"@,
{
    assert(rest < 60 ==> (n * 60 + rest) / 60 == n);
    assert(rest < 3600 ==> (n * 3600 + rest) / 3600 == n);
    assert(rest < 86400 ==> (n * 86400 + rest) / 86400 == n);
}

/// A key that is pressed alone is typed before the cursor, one with the control
/// key is not; Backspace takes away the character before the cursor, and the
/// arrows move it by one.
pub proof fn law_keys_edit_at_the_cursor(m: InputModel, c: char, ctrl: bool)
    requires
        m.at <= m.text.len(),
    ensures
        ({
            let n = m.edited(KeyEvent { code: KeyCode::Char(c), ctrl: false });
            &&& n.text == m.text.take(m.at as int) + seq![c] + m.text.skip(m.at as int)
            &&& n.at == m.at + 1
        }),
        m.edited(KeyEvent { code: KeyCode::Char(c), ctrl: true }) == m,
        ({
            let n = m.edited(KeyEvent { code: KeyCode::Backspace, ctrl });
            &&& m.at > 0 ==> n.text == m.text.take(m.at - 1) + m.text.skip(m.at as int) && n.at
                == m.at - 1
            &&& m.at == 0 ==> n == m
        }),
        ({
            let n = m.edited(KeyEvent { code: KeyCode::Left, ctrl });
            n.text == m.text && n.at == (if m.at > 0 {
                m.at - 1
            } else {
                0
            })
        }),
        ({
            let n = m.edited(KeyEvent { code: KeyCode::Right, ctrl });
            n.text == m.text && n.at == (if m.at < m.text.len() {
                m.at + 1
            } else {
                m.text.len()
            })
        }),
        m.edited(KeyEvent { code: KeyCode::Home, ctrl }) == (InputModel { text: m.text, at: 0 }),
        m.edited(KeyEvent { code: KeyCode::End, ctrl }) == (InputModel {
            text: m.text,
            at: m.text.len(),
        }),
        m.edited(KeyEvent { code: KeyCode::Enter, ctrl }) == m,
        m.edited(KeyEvent { code: KeyCode::Esc, ctrl }) == m,
        m.edited(KeyEvent { code: KeyCode::Tab, ctrl }) == m,
{
    assert(m.inserted(c).text =~= m.text.take(m.at as int) + seq![c] + m.text.skip(m.at as int));
    if m.at > 0 {
        assert(m.backspaced().text =~= m.text.take(m.at - 1) + m.text.skip(m.at as int));
    }
}

proof fn lemma_trailing_splits(s: Seq<char>, space: bool) -> (run: Seq<char>)
    ensures
        s == without_trailing(s, space) + run,
        forall|i: int| 0 <= i < run.len() ==> text::is_ascii_white_space(#[trigger] run[i]) == space,
    decreases s.len(),
{
    if s.len() > 0 && text::is_ascii_white_space(s.last()) == space {
        let rest = lemma_trailing_splits(s.drop_last(), space);
        let run = rest.push(s.last());
        assert(s =~= s.drop_last().push(s.last()));
        assert(s =~= without_trailing(s, space) + run);
        run
    } else {
        assert(s =~= s + Seq::<char>::empty());
        Seq::empty()
    }
}

/// Deleting a word takes away the white space before the cursor and the one word
/// before that, and nothing else.
pub proof fn law_one_word_is_deleted(m: InputModel) -> (r: (Seq<char>, Seq<char>))
    requires
        m.at <= m.text.len(),
    ensures
        m.text == m.word_deleted().left() + r.0 + r.1 + m.right(),
        m.word_deleted().text == m.word_deleted().left() + m.right(),
        forall|i: int| 0 <= i < r.0.len() ==> !text::is_ascii_white_space(#[trigger] r.0[i]),
        forall|i: int| 0 <= i < r.1.len() ==> text::is_ascii_white_space(#[trigger] r.1[i]),
{
    let gap = lemma_trailing_splits(m.left(), true);
    let one = without_trailing(m.left(), true);
    let word = lemma_trailing_splits(one, false);
    let kept = without_trailing(one, false);
    assert(m.word_deleted().left() =~= kept);
    assert(m.text =~= m.left() + m.right());
    assert(m.text =~= kept + word + gap + m.right());
    (word, gap)
}

} // verus!
