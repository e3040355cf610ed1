//! Which account is in use, read from the configuration files of the `gcloud`
//! tool.
use vstd::prelude::*;
use vstd::string::*;
use crate::text;
use crate::text::{eq_ignore_ascii_case, split, split_once, trim};

verus! {

/// The account name where none is known.
pub const DEFAULT_ACCOUNT: &'static str = "default";

/// A line that says nothing: an empty one, or a comment.
pub open spec fn says_nothing(line: Seq<char>) -> bool {
    line.len() == 0 || line[0] == '#' || line[0] == ';'
}

/// The name in a section header.
pub open spec fn header_name(line: Seq<char>) -> Option<Seq<char>> {
    if line.len() >= 2 && line[0] == '[' && line.last() == ']' {
        Some(text::trimmed(line.subrange(1, line.len() - 1)))
    } else {
        None
    }
}

/// The value that a line gives to a key.
pub open spec fn value_for(line: Seq<char>, key: Seq<char>) -> Option<Seq<char>> {
    match text::halves(line, '=') {
        Some((k, v)) => if text::same_ignoring_case(text::trimmed(k), key) {
            Some(text::trimmed(v))
        } else {
            None
        },
        None => None,
    }
}

/// The first value of a key in a section. `inside` tells whether the lines
/// begin in it; a header begins another section.
pub open spec fn lookup(
    lines: Seq<Seq<char>>,
    inside: bool,
    section: Seq<char>,
    key: Seq<char>,
) -> Option<Seq<char>>
    decreases lines.len(),
{
    if lines.len() == 0 {
        None
    } else {
        let line = text::trimmed(lines[0]);
        let rest = lines.drop_first();
        if says_nothing(line) {
            lookup(rest, inside, section, key)
        } else {
            match header_name(line) {
                Some(name) => lookup(rest, text::same_ignoring_case(name, section), section, key),
                None => if inside && value_for(line, key) is Some {
                    value_for(line, key)
                } else {
                    lookup(rest, inside, section, key)
                },
            }
        }
    }
}

/// The first value of a key in a section of an INI file. Sections and keys are
/// told apart without regard to case.
pub fn parse_ini_value(body: &str, section: &str, key: &str) -> (r: Option<String>)
    ensures
        r.deep_view() == lookup(text::pieces(body@, '\n'), false, section@, key@),
{
    let lines: Vec<&str> = split(body, '\n');
    let ghost all = text::pieces(body@, '\n');
    let mut inside: bool = false;
    let mut i: usize = 0;
    assert(all.skip(0) =~= all);
    while i < lines.len()
        invariant
            i <= lines.len(),
            text::texts(lines@) == all,
            all == text::pieces(body@, '\n'),
            lookup(all, false, section@, key@) == lookup(
                all.skip(i as int),
                inside,
                section@,
                key@,
            ),
        decreases lines.len() - i,
    {
        let ghost rest = all.skip(i as int);
        assert(rest[0] == lines@[i as int]@);
        assert(rest.drop_first() =~= all.skip(i + 1));
        let line: &str = trim(lines[i]);
        let n: usize = line.unicode_len();
        i += 1;
        if n == 0 || line.get_char(0) == '#' || line.get_char(0) == ';' {
            continue;
        }
        if n >= 2 && line.get_char(0) == '[' && line.get_char(n - 1) == ']' {
            let name: &str = trim(line.substring_char(1, n - 1));
            inside = eq_ignore_ascii_case(name, section);
            continue;
        }
        if !inside {
            continue;
        }
        if let Some((k, v)) = split_once(line, '=') {
            if eq_ignore_ascii_case(trim(k), key) {
                return Some(trim(v).to_owned());
            }
        }
    }
    assert(all.skip(i as int) =~= Seq::empty());
    None
}

/// The file of the active configuration, by the contents of the file that
/// names it; none where that file is blank.
pub open spec fn config_name(active: Seq<char>) -> Option<Seq<char>> {
    if text::trimmed(active).len() == 0 {
        None
    } else {
        Some("config_"@ + text::trimmed(active))
    }
}

/// The file of the active configuration.
pub fn config_file(active: &str) -> (r: Option<String>)
    ensures
        r.deep_view() == config_name(active@),
{
    let name: &str = trim(active);
    if name.is_empty() {
        return None;
    }
    let mut r: String = "config_".to_owned();
    r.append(name);
    Some(r)
}

/// The account of a configuration file: `account` in its `core` section.
pub fn account_of(body: &str) -> (r: Option<String>)
    ensures
        r.deep_view() == lookup(text::pieces(body@, '\n'), false, "core"@, "account"@),
{
    parse_ini_value(body, "core", "account")
}

/// The account to use, given the one that was found.
pub fn account_or_default(found: Option<String>) -> (r: String)
    ensures
        r@ == (match found {
            Some(a) => a@,
            None => DEFAULT_ACCOUNT@,
        }),
        found is None ==> r@ == "default"@,
{
    match found {
        Some(a) => a,
        None => DEFAULT_ACCOUNT.to_owned(),
    }
}

/// Nothing is found where no line is a header: a value only counts inside its
/// section.
pub proof fn law_values_need_a_section(
    lines: Seq<Seq<char>>,
    section: Seq<char>,
    key: Seq<char>,
)
    requires
        forall|i: int|
            0 <= i < lines.len() ==> header_name(text::trimmed(#[trigger] lines[i])) is None,
    ensures
        lookup(lines, false, section, key) is None,
    decreases lines.len(),
{
    if lines.len() > 0 {
        let rest = lines.drop_first();
        assert forall|i: int| 0 <= i < rest.len() implies header_name(
            text::trimmed(#[trigger] rest[i]),
        ) is None by {
            assert(rest[i] == lines[i + 1]);
        }
        law_values_need_a_section(rest, section, key);
    }
}

/// Inside its section, the first line that gives a value to the key decides:
/// its value is what stands behind the first `=`, without white space around it.
pub proof fn law_first_value_counts(
    name: Seq<char>,
    value: Seq<char>,
    rest: Seq<Seq<char>>,
    section: Seq<char>,
    key: Seq<char>,
)
    requires
        name.len() > 0,
        !name.contains('='),
        !text::is_white_space(name.first()),
        name[0] != '#' && name[0] != ';' && name[0] != '[',
        text::same_ignoring_case(text::trimmed(name), key),
    ensures
        lookup(seq![name + seq!['='] + value] + rest, true, section, key) == Some(
            text::trimmed(value),
        ),
        lookup(seq![name + seq!['='] + value] + rest, false, section, key) == lookup(
            rest,
            false,
            section,
            key,
        ),
{
    let s = name + seq!['='] + value;
    let lines = seq![s] + rest;
    assert(lines[0] == s);
    assert(lines.drop_first() =~= rest);
    let (before, after) = text::law_trimming(s);
    let line = text::trimmed(s);
    if before.len() > 0 {
        assert(s[0] == before[0]);
        assert(text::is_white_space(before[0]));
    }
    assert(before =~= Seq::empty());
    assert(s =~= line + after);
    assert forall|i: int| 0 <= i < name.len() implies name[i] != '=' by {
        assert(name.contains(name[i]));
    }
    let n = name.len() as int;
    assert(s[n] == '=');
    if line.len() <= n {
        assert(after[n - line.len()] == '=');
        assert(text::is_white_space(after[n - line.len()]));
    }
    let tail = line.skip(n + 1);
    assert forall|i: int| 0 <= i < line.len() implies #[trigger] line[i] == s[i] by {
        assert((line + after)[i] == line[i]);
    }
    assert forall|i: int| 0 <= i < value.len() implies #[trigger] value[i] == (tail + after)[i] by {
        assert(s[n + 1 + i] == value[i]);
        assert((line + after)[n + 1 + i] == s[n + 1 + i]);
    }
    assert(s.len() == line.len() + after.len());
    assert(line =~= name + seq!['='] + tail);
    text::law_halves(name, '=', tail);
    assert(value =~= tail + after);
    text::law_trimming_ignores_space(Seq::empty(), tail, after);
    assert(Seq::<char>::empty() + tail + after =~= value);
    assert(line[0] == name[0]);
}

/// A header begins another section, and the lines behind it are inside exactly
/// where its name is that of the section.
pub proof fn law_headers_begin_sections(
    name: Seq<char>,
    rest: Seq<Seq<char>>,
    inside: bool,
    section: Seq<char>,
    key: Seq<char>,
)
    ensures
        lookup(seq![seq!['['] + name + seq![']']] + rest, inside, section, key) == lookup(
            rest,
            text::same_ignoring_case(text::trimmed(name), section),
            section,
            key,
        ),
{
    let s = seq!['['] + name + seq![']'];
    let lines = seq![s] + rest;
    assert(lines[0] == s);
    assert(lines.drop_first() =~= rest);
    text::lemma_trimmed_whole(s);
    assert(s.subrange(1, s.len() - 1) =~= name);
}

/// Blank lines and comments say nothing.
pub proof fn law_comments_say_nothing(
    line: Seq<char>,
    rest: Seq<Seq<char>>,
    inside: bool,
    section: Seq<char>,
    key: Seq<char>,
)
    requires
        text::all_white(line) || (line.len() > 0 && (line[0] == '#' || line[0] == ';')),
    ensures
        lookup(seq![line] + rest, inside, section, key) == lookup(rest, inside, section, key),
{
    let lines = seq![line] + rest;
    assert(lines[0] == line);
    assert(lines.drop_first() =~= rest);
    let (before, after) = text::law_trimming(line);
    let t = text::trimmed(line);
    if text::all_white(line) {
        if t.len() > 0 {
            assert(line[before.len() as int] == t[0]);
        }
    } else {
        if before.len() > 0 {
            assert(before[0] == line[0]);
            assert(text::is_white_space(before[0]));
        }
        if t.len() > 0 {
            assert(t[0] == line[0]);
        }
    }
}

/// A line that gives no value to the key is passed over.
pub proof fn law_other_lines_are_passed_over(
    line: Seq<char>,
    rest: Seq<Seq<char>>,
    inside: bool,
    section: Seq<char>,
    key: Seq<char>,
)
    requires
        line.len() > 0 && line[0] != '[',
        !line.contains('='),
        !text::is_white_space(line.first()),
    ensures
        lookup(seq![line] + rest, inside, section, key) == lookup(rest, inside, section, key),
        lookup(Seq::empty(), inside, section, key) is None,
{
    let lines = seq![line] + rest;
    assert(lines[0] == line);
    assert(lines.drop_first() =~= rest);
    let (before, after) = text::law_trimming(line);
    let t = text::trimmed(line);
    if before.len() > 0 {
        assert(before[0] == line[0]);
        assert(text::is_white_space(before[0]));
    }
    assert(!t.contains('=')) by {
        if t.contains('=') {
            let k = choose|k: int| 0 <= k < t.len() && t[k] == '=';
            assert(line[before.len() + k] == '=');
        }
    }
    if t.len() > 0 {
        assert(t[0] == line[0]);
    }
    text::law_halves(t, '=', Seq::empty());
}

/// The configuration that is named, with white space around the name or without,
/// stands in the file of that name; no name is no file.
pub proof fn law_configuration_by_name(before: Seq<char>, name: Seq<char>, after: Seq<char>)
    requires
        text::all_white(before),
        text::all_white(after),
        name.len() > 0,
        !text::is_white_space(name.first()),
        !text::is_white_space(name.last()),
    ensures
        config_name(before + name + after) == Some("config_"@ + name),
        config_name(before) is None,
{
    text::law_trimming_ignores_space(before, name, after);
    text::lemma_trimmed_whole(name);
    text::law_trimming_ignores_space(before, Seq::empty(), Seq::empty());
    assert(before + Seq::<char>::empty() + Seq::<char>::empty() =~= before);
}

} // verus!
