// SPDX-License-Identifier: GPL-2.0-or-later
//! Text helpers: comparing names, assembling messages, and the small
//! grammars the plugin reads (comma lists, NUL-terminated text, paths).

use vstd::prelude::*;

verus! {

broadcast use vstd::string::group_string_axioms;

/// Whether two texts hold the same characters.
pub fn same_text(a: &str, b: &str) -> (same: bool)
    ensures
        same == (a@ == b@),
{
    let mut left = a.chars();
    let mut right = b.chars();
    let ghost mut done: int = 0;
    loop
        invariant
            0 <= done <= a@.len(),
            done <= b@.len(),
            vstd::std_specs::iter::IteratorSpec::obeys_prophetic_iter_laws(&left),
            vstd::std_specs::iter::IteratorSpec::obeys_prophetic_iter_laws(&right),
            vstd::std_specs::iter::IteratorSpec::remaining(&left) == a@.skip(done),
            vstd::std_specs::iter::IteratorSpec::remaining(&right) == b@.skip(done),
            a@.take(done) == b@.take(done),
        decreases a@.len() - done,
    {
        let x = left.next();
        let y = right.next();
        proof {
            assert(a@ == a@.take(done) + a@.skip(done));
            assert(b@ == b@.take(done) + b@.skip(done));
        }
        match (x, y) {
            (Some(c), Some(d)) => {
                if c != d {
                    assert(a@[done] != b@[done]);
                    return false;
                }
                proof {
                    assert(a@.skip(done).drop_first() == a@.skip(done + 1));
                    assert(b@.skip(done).drop_first() == b@.skip(done + 1));
                    assert(a@.take(done + 1) == b@.take(done + 1));
                    done = done + 1;
                }
            },
            (None, None) => {
                return true;
            },
            _ => {
                assert(a@.len() != b@.len());
                return false;
            },
        }
    }
}

/// Appends one character to the end of a text, as `String::push` documents.
pub assume_specification[ String::push ](text: &mut String, c: char)
    ensures
        final(text)@ == old(text)@.push(c),
;

/// The characters of a text, one after the other.
pub fn chars_of(s: &str) -> (chars: Vec<char>)
    ensures
        chars@ == s@,
{
    let mut rest = s.chars();
    let mut chars: Vec<char> = Vec::new();
    loop
        invariant
            chars@.len() <= s@.len(),
            vstd::std_specs::iter::IteratorSpec::obeys_prophetic_iter_laws(&rest),
            vstd::std_specs::iter::IteratorSpec::remaining(&rest) == s@.skip(chars@.len() as int),
            chars@ == s@.take(chars@.len() as int),
        decreases s@.len() - chars@.len(),
    {
        let ghost done = chars@.len() as int;
        match rest.next() {
            Some(c) => {
                chars.push(c);
                proof {
                    assert(s@.skip(done).drop_first() == s@.skip(done + 1));
                    assert(s@.take(done + 1) == s@.take(done).push(s@[done]));
                }
            },
            None => {
                assert(s@.take(done) == s@);
                return chars;
            },
        }
    }
}

/// The text made of the characters `chars[from..to]`.
pub fn text_from(chars: &Vec<char>, from: usize, to: usize) -> (text: String)
    requires
        from <= to <= chars@.len(),
    ensures
        text@ == chars@.subrange(from as int, to as int),
{
    let mut text = String::new();
    let mut at: usize = from;
    while at < to
        invariant
            from <= at <= to <= chars@.len(),
            text@ == chars@.subrange(from as int, at as int),
        decreases to - at,
    {
        text.push(chars[at]);
        at = at + 1;
        assert(chars@.subrange(from as int, at as int) == chars@.subrange(from as int, at - 1).push(
            chars@[at - 1],
        ));
    }
    text
}

/// The characters of an optional name.
pub open spec fn name_of(name: Option<String>) -> Option<Seq<char>> {
    match name {
        Some(text) => Some(text@),
        None => None,
    }
}

/// A copy of an optional name.
pub fn copy_name(name: &Option<String>) -> (copy: Option<String>)
    ensures
        name_of(copy) == name_of(*name),
        copy is Some <==> *name is Some,
        *name matches Some(text) ==> copy matches Some(same) && same@ == text@,
{
    match name {
        Some(text) => Some(text.clone()),
        None => None,
    }
}

/// The name, or the empty text where there is none.
pub fn or_empty(name: Option<String>) -> (text: String)
    ensures
        text@ == text_or_empty(name_of(name)),
        name matches Some(given) ==> text@ == given@,
        name is None ==> text@.len() == 0,
{
    match name {
        Some(text) => text,
        None => String::new(),
    }
}

pub open spec fn text_or_empty(name: Option<Seq<char>>) -> Seq<char> {
    match name {
        Some(text) => text,
        None => Seq::empty(),
    }
}

/// Two texts in one.
pub fn text2(a: &str, b: &str) -> (text: String)
    ensures
        text@ == a@ + b@,
{
    let mut text = a.to_owned();
    text.append(b);
    text
}

/// Three texts in one.
pub fn text3(a: &str, b: &str, c: &str) -> (text: String)
    ensures
        text@ == a@ + b@ + c@,
{
    let mut text = a.to_owned();
    text.append(b);
    text.append(c);
    text
}

/// Five texts in one.
pub fn text5(a: &str, b: &str, c: &str, d: &str, e: &str) -> (text: String)
    ensures
        text@ == a@ + b@ + c@ + d@ + e@,
{
    let mut text = text3(a, b, c);
    text.append(d);
    text.append(e);
    text
}

/// Where `c` first stands in `s`; the length of `s` where it does not.
pub open spec fn first_at<T>(s: Seq<T>, c: T) -> int
    decreases s.len(),
{
    if s.len() == 0 || s[0] == c {
        0
    } else {
        1 + first_at(s.drop_first(), c)
    }
}

/// `first_at` is the one position that no earlier match precedes.
pub proof fn first_at_is(s: Seq<char>, c: char, at: int)
    requires
        0 <= at <= s.len(),
        forall|i: int| 0 <= i < at ==> s[i] != c,
        at < s.len() ==> s[at] == c,
    ensures
        first_at(s, c) == at,
    decreases s.len(),
{
    if s.len() > 0 && at > 0 {
        assert forall|i: int| 0 <= i < at - 1 implies s.drop_first()[i] != c by {
            assert(s.drop_first()[i] == s[i + 1]);
        }
        first_at_is(s.drop_first(), c, at - 1);
    }
}

fn find_char(chars: &Vec<char>, from: usize, c: char) -> (at: usize)
    requires
        from <= chars@.len(),
    ensures
        at == from + first_at(chars@.skip(from as int), c),
        from <= at <= chars@.len(),
        at < chars@.len() <==> chars@.skip(from as int).contains(c),
        at < chars@.len() ==> chars@[at as int] == c,
{
    let mut at: usize = from;
    while at < chars.len() && chars[at] != c
        invariant
            from <= at <= chars@.len(),
            forall|i: int| from <= i < at ==> chars@[i] != c,
        decreases chars@.len() - at,
    {
        at = at + 1;
    }
    proof {
        let rest = chars@.skip(from as int);
        first_at_is(rest, c, at - from);
        if at < chars@.len() {
            assert(rest[at - from] == c);
        } else if rest.contains(c) {
            let k = choose|k: int| 0 <= k < rest.len() && rest[k] == c;
            assert(chars@[from + k] == c);
        }
    }
    at
}

/// Whether a text holds a NUL, which no C string can carry.
pub fn has_nul(s: &str) -> (found: bool)
    ensures
        found == s@.contains('\0'),
{
    let chars = chars_of(s);
    assert(chars@.skip(0) == s@);
    find_char(&chars, 0, '\0') < chars.len()
}

/// The text up to its first NUL, all of it where it has none: what reaches
/// C when a name has to be handed over whatever it holds.
pub fn until_nul(s: &str) -> (head: String)
    ensures
        head@ == s@.take(first_at(s@, '\0')),
        head@.len() <= s@.len(),
        head@ == s@.take(head@.len() as int),
        !head@.contains('\0'),
        head@.len() < s@.len() ==> s@[head@.len() as int] == '\0',
{
    proof {
        first_at_finds(s@, '\0');
        let head = s@.take(first_at(s@, '\0'));
        if head.contains('\0') {
            let k = choose|k: int| 0 <= k < head.len() && head[k] == '\0';
            assert(s@[k] == '\0');
        }
    }
    let chars = chars_of(s);
    assert(chars@.skip(0) == s@);
    let end = find_char(&chars, 0, '\0');
    text_from(&chars, 0, end)
}

/// `s` without the run of `c` at its end.
pub open spec fn without_trailing(s: Seq<char>, c: char) -> Seq<char>
    decreases s.len(),
{
    if s.len() > 0 && s.last() == c {
        without_trailing(s.drop_last(), c)
    } else {
        s
    }
}

/// Only the run at the end is cut, and all of it.
pub proof fn only_the_end_is_cut(s: Seq<char>, c: char)
    ensures
        without_trailing(s, c).len() <= s.len(),
        without_trailing(s, c) == s.take(without_trailing(s, c).len() as int),
        forall|i: int| without_trailing(s, c).len() <= i < s.len() ==> #[trigger] s[i] == c,
        without_trailing(s, c).len() > 0 ==> without_trailing(s, c).last() != c,
    decreases s.len(),
{
    if s.len() > 0 && s.last() == c {
        let rest = s.drop_last();
        only_the_end_is_cut(rest, c);
        let kept = without_trailing(s, c);
        assert(kept =~= s.take(kept.len() as int));
        assert forall|i: int| kept.len() <= i < s.len() implies #[trigger] s[i] == c by {
            if i < rest.len() {
                assert(rest[i] == s[i]);
            }
        }
    } else {
        assert(s =~= s.take(s.len() as int));
    }
}

/// A directory path without the backslashes at its end.
pub fn trim_backslashes(s: &str) -> (path: String)
    ensures
        path@ == without_trailing(s@, '\\'),
        path@.len() <= s@.len(),
        path@ == s@.take(path@.len() as int),
        forall|i: int| path@.len() <= i < s@.len() ==> #[trigger] s@[i] == '\\',
        path@.len() > 0 ==> path@.last() != '\\',
{
    proof {
        only_the_end_is_cut(s@, '\\');
    }
    let chars = chars_of(s);
    let mut end: usize = chars.len();
    assert(s@.take(end as int) == s@);
    while end > 0 && chars[end - 1] == '\\'
        invariant
            end <= chars@.len(),
            chars@ == s@,
            without_trailing(s@, '\\') == without_trailing(s@.take(end as int), '\\'),
        decreases end,
    {
        assert(s@.take(end as int).drop_last() == s@.take(end - 1));
        end = end - 1;
    }
    text_from(&chars, 0, end)
}

/// The characters with the Unicode property White_Space.
pub open spec fn white_space(c: char) -> bool {
    let code = c as u32;
    ||| 0x9 <= code <= 0xd
    ||| code == 0x20
    ||| code == 0x85
    ||| code == 0xa0
    ||| code == 0x1680
    ||| 0x2000 <= code <= 0x200a
    ||| code == 0x2028
    ||| code == 0x2029
    ||| code == 0x202f
    ||| code == 0x205f
    ||| code == 0x3000
}

/// Which characters are white space: the controls from tab to carriage return,
/// the next-line control, and the spaces and separators of Unicode.
pub proof fn which_characters_are_white(c: char)
    ensures
        white_space(c) <==> ((0x9 <= c as u32 <= 0xd) || c as u32 == 0x20 || c as u32 == 0x85 || c as u32 == 0xa0
            || c as u32 == 0x1680 || (0x2000 <= c as u32 <= 0x200a) || c as u32 == 0x2028 || c as u32 == 0x2029
            || c as u32 == 0x202f || c as u32 == 0x205f || c as u32 == 0x3000),
{
}

fn is_white_space(c: char) -> (white: bool)
    ensures
        white == white_space(c),
{
    let code: u32 = c as u32;
    (0x9 <= code && code <= 0xd) || code == 0x20 || code == 0x85 || code == 0xa0 || code == 0x1680
        || (0x2000 <= code && code <= 0x200a) || code == 0x2028 || code == 0x2029 || code == 0x202f
        || code == 0x205f || code == 0x3000
}

/// `s` without the white space at its start.
pub open spec fn trim_start(s: Seq<char>) -> Seq<char>
    decreases s.len(),
{
    if s.len() > 0 && white_space(s[0]) {
        trim_start(s.drop_first())
    } else {
        s
    }
}

/// `s` without the white space at its end.
pub open spec fn trim_end(s: Seq<char>) -> Seq<char>
    decreases s.len(),
{
    if s.len() > 0 && white_space(s.last()) {
        trim_end(s.drop_last())
    } else {
        s
    }
}

/// `s` without the white space at either end.
pub open spec fn trimmed(s: Seq<char>) -> Seq<char> {
    trim_end(trim_start(s))
}

fn trim_range(chars: &Vec<char>, from: usize, to: usize) -> (text: String)
    requires
        from <= to <= chars@.len(),
    ensures
        text@ == trimmed(chars@.subrange(from as int, to as int)),
{
    let ghost whole = chars@.subrange(from as int, to as int);
    let mut start: usize = from;
    while start < to && is_white_space(chars[start])
        invariant
            from <= start <= to <= chars@.len(),
            trim_start(whole) == trim_start(chars@.subrange(start as int, to as int)),
        decreases to - start,
    {
        assert(chars@.subrange(start as int, to as int).drop_first() == chars@.subrange(
            start + 1,
            to as int,
        ));
        start = start + 1;
    }
    let ghost kept = chars@.subrange(start as int, to as int);
    assert(trim_start(whole) == kept);
    let mut end: usize = to;
    while start < end && is_white_space(chars[end - 1])
        invariant
            start <= end <= to <= chars@.len(),
            trim_end(kept) == trim_end(chars@.subrange(start as int, end as int)),
        decreases end,
    {
        assert(chars@.subrange(start as int, end as int).drop_last() == chars@.subrange(
            start as int,
            end - 1,
        ));
        end = end - 1;
    }
    text_from(chars, start, end)
}

/// The names in a comma list: each piece trimmed, the empty ones left out.
pub open spec fn listed(s: Seq<char>) -> Seq<Seq<char>>
    decreases s.len(),
{
    let at = first_at(s, ',');
    let name = trimmed(s.take(at));
    let here = if name.len() == 0 {
        Seq::empty()
    } else {
        seq![name]
    };
    if 0 <= at < s.len() {
        here + listed(s.skip(at + 1))
    } else {
        here
    }
}

/// The views of a list of names.
pub open spec fn views(names: Seq<String>) -> Seq<Seq<char>> {
    names.map_values(|name: String| name@)
}

/// The views of names are the names' own characters, in order.
pub proof fn views_are_the_names(names: Seq<String>)
    ensures
        views(names).len() == names.len(),
        forall|i: int| 0 <= i < names.len() ==> #[trigger] views(names)[i] == names[i]@,
{
}

/// Reads a comma list of names.
pub fn split_names(s: &str) -> (names: Vec<String>)
    ensures
        views(names@) == listed(s@),
        names@.len() == listed(s@).len(),
        forall|i: int| 0 <= i < names@.len() ==> (#[trigger] names@[i])@ == listed(s@)[i],
{
    let chars = chars_of(s);
    let mut names: Vec<String> = Vec::new();
    let mut from: usize = 0;
    assert(s@.skip(0) == s@);
    assert(views(names@) + listed(s@) == listed(s@));
    loop
        invariant
            from <= chars@.len(),
            chars@ == s@,
            views(names@) + listed(s@.skip(from as int)) == listed(s@),
        decreases s@.len() - from,
    {
        let ghost before = names@;
        let end = find_char(&chars, from, ',');
        let name = trim_range(&chars, from, end);
        let ghost rest = s@.skip(from as int);
        assert(rest.take(end - from) == s@.subrange(from as int, end as int));
        if !name.as_str().is_empty() {
            let ghost shown = name@;
            names.push(name);
            assert(views(names@) == views(before) + seq![shown]);
        }
        if end >= chars.len() {
            assert(views(names@) == listed(s@));
            assert forall|i: int| 0 <= i < names@.len() implies (#[trigger] names@[i])@ == listed(s@)[i] by {
                assert(views(names@)[i] == names@[i]@);
            }
            return names;
        }
        assert(rest.skip(end - from + 1) == s@.skip(end + 1));
        from = end + 1;
        assert(views(names@) + listed(s@.skip(from as int)) == listed(s@));
    }
}

/// Names joined by commas.
pub open spec fn comma_joined(names: Seq<Seq<char>>) -> Seq<char>
    decreases names.len(),
{
    if names.len() == 0 {
        Seq::empty()
    } else if names.len() == 1 {
        names[0]
    } else {
        comma_joined(names.drop_last()).push(',') + names.last()
    }
}

/// Writes a comma list of names.
pub fn join_names(names: &Vec<String>) -> (text: String)
    ensures
        text@ == comma_joined(views(names@)),
{
    let mut text = String::new();
    let mut at: usize = 0;
    while at < names.len()
        invariant
            at <= names@.len(),
            text@ == comma_joined(views(names@).take(at as int)),
        decreases names@.len() - at,
    {
        assert(views(names@).take(at + 1).drop_last() == views(names@).take(at as int));
        if at > 0 {
            text.push(',');
        }
        text.append(names[at].as_str());
        at = at + 1;
    }
    assert(views(names@).take(at as int) == views(names@));
    text
}

/// What `first_at` finds.
pub proof fn first_at_finds<T>(s: Seq<T>, c: T)
    ensures
        0 <= first_at(s, c) <= s.len(),
        forall|i: int| 0 <= i < first_at(s, c) ==> s[i] != c,
        first_at(s, c) < s.len() ==> s[first_at(s, c)] == c,
    decreases s.len(),
{
    if s.len() > 0 && s[0] != c {
        let rest = s.drop_first();
        first_at_finds(rest, c);
        assert forall|i: int| 0 <= i < first_at(s, c) implies s[i] != c by {
            if i > 0 {
                assert(rest[i - 1] == s[i]);
            }
        }
        if first_at(s, c) < s.len() {
            assert(rest[first_at(rest, c)] == s[first_at(s, c)]);
        }
    }
}

/// What trimming leaves is a part of the text: everything before and after it
/// is white space, and it neither begins nor ends with any.
pub proof fn trimming_cuts_only_white_space(s: Seq<char>) -> (range: (int, int))
    ensures
        0 <= range.0 <= range.1 <= s.len(),
        trimmed(s) == s.subrange(range.0, range.1),
        forall|i: int| 0 <= i < range.0 ==> white_space(#[trigger] s[i]),
        forall|i: int| range.1 <= i < s.len() ==> white_space(#[trigger] s[i]),
        trimmed(s).len() > 0 ==> !white_space(trimmed(s)[0]) && !white_space(trimmed(s).last()),
{
    let left = trim_start(s);
    trimming_leaves_a_part(s);
    trimming_the_end_leaves_a_part(left);
    let from = s.len() - left.len();
    let to = from + trim_end(left).len();
    assert(trimmed(s) =~= s.subrange(from, to));
    assert forall|i: int| to <= i < s.len() implies white_space(#[trigger] s[i]) by {
        assert(left[i - from] == s[i]);
    }
    (from, to)
}

/// A list without a comma holds one name, or none where nothing is left of it
/// but white space.
pub proof fn a_list_without_a_comma(s: Seq<char>)
    requires
        !s.contains(','),
    ensures
        trimmed(s).len() > 0 ==> listed(s) == seq![trimmed(s)],
        trimmed(s).len() == 0 ==> listed(s).len() == 0,
{
    first_at_finds(s, ',');
    if first_at(s, ',') < s.len() {
        assert(s.contains(s[first_at(s, ',')]));
    }
    assert(s.take(s.len() as int) =~= s);
}

/// One more name stands behind a comma, unless it is the first.
pub proof fn joining_one_more_name(names: Seq<Seq<char>>, name: Seq<char>)
    ensures
        comma_joined(Seq::<Seq<char>>::empty()).len() == 0,
        names.len() == 0 ==> comma_joined(names.push(name)) == name,
        names.len() > 0 ==> comma_joined(names.push(name)) == comma_joined(names) + seq![','] + name,
{
    assert(names.push(name).drop_last() =~= names);
    assert(comma_joined(names).push(',') =~= comma_joined(names) + seq![',']);
}

/// The name of an option is that of the text it holds.
pub proof fn a_name_is_its_text(name: Option<String>)
    ensures
        name is Some <==> name_of(name) is Some,
        name matches Some(text) ==> name_of(name) == Some(text@),
{
}

/// A comma between two lists puts the names of the second behind those of
/// the first.
pub proof fn listed_splits_at_a_comma(x: Seq<char>, y: Seq<char>)
    ensures
        listed(x.push(',') + y) == listed(x) + listed(y),
    decreases x.len(),
{
    let both = x.push(',') + y;
    let at = first_at(x, ',');
    first_at_finds(x, ',');
    assert forall|i: int| 0 <= i < at implies both[i] != ',' by {
        assert(both[i] == x[i]);
    }
    first_at_is(both, ',', at);
    assert(both.take(at) == x.take(at));
    if at < x.len() {
        let rest = x.skip(at + 1);
        listed_splits_at_a_comma(rest, y);
        assert(both.skip(at + 1) == rest.push(',') + y);
    } else {
        assert(both.skip(at + 1) == y);
    }
    assert(listed(both) == listed(x) + listed(y));
}

/// A name that a comma list can carry: not empty, no comma, and no white
/// space at either end.
pub open spec fn plain_name(name: Seq<char>) -> bool {
    &&& name.len() > 0
    &&& !name.contains(',')
    &&& !white_space(name[0])
    &&& !white_space(name.last())
}

/// Reading back what was joined gives the names that were joined, in order.
pub proof fn joined_names_read_back(names: Seq<Seq<char>>)
    requires
        forall|i: int| 0 <= i < names.len() ==> plain_name(#[trigger] names[i]),
    ensures
        listed(comma_joined(names)) == names,
    decreases names.len(),
{
    if names.len() == 0 {
        assert(listed(Seq::<char>::empty()) == names) by {
            assert(Seq::<char>::empty().take(0) == Seq::<char>::empty());
        }
    } else {
        let last = names.last();
        assert(plain_name(last));
        first_at_finds(last, ',');
        if first_at(last, ',') < last.len() {
            assert(last.contains(last[first_at(last, ',')]));
        }
        assert(last.take(last.len() as int) == last);
        assert(listed(last) == seq![last]);
        if names.len() > 1 {
            joined_names_read_back(names.drop_last());
            listed_splits_at_a_comma(comma_joined(names.drop_last()), last);
            assert(names == names.drop_last() + seq![last]);
        } else {
            assert(names == seq![last]);
        }
    }
}

proof fn trimming_leaves_a_part(s: Seq<char>)
    ensures
        trim_start(s).len() <= s.len(),
        trim_start(s) == s.skip(s.len() - trim_start(s).len()),
        trim_start(s).len() > 0 ==> !white_space(trim_start(s)[0]),
        forall|i: int| 0 <= i < s.len() - trim_start(s).len() ==> white_space(#[trigger] s[i]),
    decreases s.len(),
{
    if s.len() > 0 && white_space(s[0]) {
        let rest = s.drop_first();
        trimming_leaves_a_part(rest);
        assert(rest.skip(rest.len() - trim_start(rest).len()) =~= s.skip(s.len() - trim_start(s).len()));
        assert forall|i: int| 0 <= i < s.len() - trim_start(s).len() implies white_space(#[trigger] s[i]) by {
            if i > 0 {
                assert(rest[i - 1] == s[i]);
            }
        }
    } else {
        assert(s.skip(0) =~= s);
    }
}

proof fn trimming_the_end_leaves_a_part(s: Seq<char>)
    ensures
        trim_end(s).len() <= s.len(),
        trim_end(s) == s.take(trim_end(s).len() as int),
        trim_end(s).len() > 0 ==> !white_space(trim_end(s).last()),
        forall|i: int| trim_end(s).len() <= i < s.len() ==> white_space(#[trigger] s[i]),
    decreases s.len(),
{
    if s.len() > 0 && white_space(s.last()) {
        let rest = s.drop_last();
        trimming_the_end_leaves_a_part(rest);
        assert(rest.take(trim_end(rest).len() as int) =~= s.take(trim_end(s).len() as int));
        assert forall|i: int| trim_end(s).len() <= i < s.len() implies white_space(#[trigger] s[i]) by {
            if i < rest.len() {
                assert(rest[i] == s[i]);
            }
        }
    } else {
        assert(s.take(s.len() as int) =~= s);
    }
}

proof fn a_trimmed_piece_is_plain(piece: Seq<char>)
    requires
        !piece.contains(','),
        trimmed(piece).len() > 0,
    ensures
        plain_name(trimmed(piece)),
{
    let left = trim_start(piece);
    let name = trimmed(piece);
    trimming_leaves_a_part(piece);
    trimming_the_end_leaves_a_part(left);
    assert(name[0] == left[0]);
    if name.contains(',') {
        let k = choose|k: int| 0 <= k < name.len() && name[k] == ',';
        assert(piece[k + (piece.len() - left.len())] == ',');
    }
}

/// Every name that is read from a comma list is one that a list can carry.
pub proof fn listed_names_are_plain(s: Seq<char>)
    ensures
        forall|i: int| 0 <= i < listed(s).len() ==> plain_name(#[trigger] listed(s)[i]),
    decreases s.len(),
{
    let at = first_at(s, ',');
    first_at_finds(s, ',');
    let piece = s.take(at);
    let name = trimmed(piece);
    assert(!piece.contains(',')) by {
        if piece.contains(',') {
            let k = choose|k: int| 0 <= k < piece.len() && piece[k] == ',';
            assert(s[k] == ',');
        }
    }
    if name.len() > 0 {
        a_trimmed_piece_is_plain(piece);
    }
    let here = if name.len() == 0 {
        Seq::<Seq<char>>::empty()
    } else {
        seq![name]
    };
    if at < s.len() {
        let rest = s.skip(at + 1);
        listed_names_are_plain(rest);
        assert(listed(s) == here + listed(rest));
        assert forall|i: int| 0 <= i < listed(s).len() implies plain_name(#[trigger] listed(s)[i]) by {
            if i >= here.len() {
                assert(listed(s)[i] == listed(rest)[i - here.len()]);
            }
        }
    }
}

} // verus!
