//! What the system tells about itself before anything is mounted.

use vstd::prelude::*;
use vstd::string::*;

use crate::text::{
    concat_text, contains_text, is_space, is_text, law_lines, law_occurs, law_prefix_is_stripped,
    law_split_once, law_trimming, lines, lines_spec, occurs, split_once, split_once_spec,
    split_whitespace, strip_prefix, strip_prefix_spec, to_chars, to_text, trim, trim_spec, views,
    words_spec,
};

verus! {

/// The value behind `key` in the first of `words` that starts with it.
pub open spec fn word_value(words: Seq<Seq<char>>, key: Seq<char>) -> Option<Seq<char>>
    decreases words.len(),
{
    if words.len() == 0 {
        None
    } else {
        match strip_prefix_spec(words[0], key) {
            Some(v) => Some(v),
            None => word_value(words.skip(1), key),
        }
    }
}

/// The value that a line of a property file gives to `prop`: blanks around the
/// line, the name and the value do not count, and neither do comments.
pub open spec fn line_value(line: Seq<char>, prop: Seq<char>) -> Option<Seq<char>> {
    let l = trim_spec(line);
    if l.len() == 0 || l[0] == '#' {
        None
    } else {
        match split_once_spec(l, '=') {
            Some((key, value)) => if trim_spec(key) == prop {
                Some(trim_spec(value))
            } else {
                None
            },
            None => None,
        }
    }
}

/// The value that the first of `lines` to do so gives to `prop`.
pub open spec fn lines_value(lines: Seq<Seq<char>>, prop: Seq<char>) -> Option<Seq<char>>
    decreases lines.len(),
{
    if lines.len() == 0 {
        None
    } else {
        match line_value(lines[0], prop) {
            Some(v) => Some(v),
            None => lines_value(lines.skip(1), prop),
        }
    }
}

/// The value that the first of `files` to do so gives to `prop`; files that
/// could not be read are `None`.
pub open spec fn files_value(files: Seq<Option<String>>, prop: Seq<char>) -> Option<Seq<char>>
    decreases files.len(),
{
    if files.len() == 0 {
        None
    } else {
        let found = match files[0] {
            Some(f) => lines_value(lines_spec(f@), prop),
            None => None,
        };
        match found {
            Some(v) => Some(v),
            None => files_value(files.skip(1), prop),
        }
    }
}

/// The value of a property: what the kernel's command line says, or else what
/// the property files say, or else nothing.
pub open spec fn prop_spec(
    cmdline: Option<Seq<char>>,
    files: Seq<Option<String>>,
    prop: Seq<char>,
) -> Seq<char> {
    let given = match cmdline {
        Some(c) => word_value(words_spec(c), prop + "="@),
        None => None,
    };
    match given {
        Some(v) => v,
        None => match files_value(files, prop) {
            Some(v) => v,
            None => Seq::empty(),
        },
    }
}

/// Finds a property on the kernel's command line.
fn cmdline_prop(cmdline: &str, prop: &str) -> (r: Option<String>)
    ensures
        match r {
            Some(v) => word_value(words_spec(cmdline@), prop@ + "="@) == Some(v@),
            None => word_value(words_spec(cmdline@), prop@ + "="@) is None,
        },
{
    let chars = to_chars(cmdline);
    let key = concat_text(prop, "=");
    let words = split_whitespace(chars.as_slice());
    let ghost full = views(words@);
    assert(full.skip(0) =~= full);
    for i in 0..words.len()
        invariant
            full == views(words@),
            full == words_spec(cmdline@),
            key@ == prop@ + "="@,
            word_value(full, key@) == word_value(full.skip(i as int), key@),
    {
        assert(full.skip(i as int)[0] == words@[i as int]@);
        assert(full.skip(i as int).skip(1) =~= full.skip(i + 1));
        match strip_prefix(words[i], key.as_str()) {
            Some(v) => {
                return Some(to_text(v));
            },
            None => {},
        }
    }
    assert(full.skip(full.len() as int) =~= Seq::empty());
    None
}

/// Reads the value that a line of a property file gives to `prop`.
fn line_prop(line: &[char], prop: &str) -> (r: Option<String>)
    ensures
        match r {
            Some(v) => line_value(line@, prop@) == Some(v@),
            None => line_value(line@, prop@) is None,
        },
{
    let l = trim(line);
    if l.len() == 0 || l[0] == '#' {
        return None;
    }
    match split_once(l, '=') {
        Some((key, value)) => {
            if is_text(trim(key), prop) {
                Some(to_text(trim(value)))
            } else {
                None
            }
        },
        None => None,
    }
}

/// Finds a property in the contents of a property file.
fn file_prop(content: &str, prop: &str) -> (r: Option<String>)
    ensures
        match r {
            Some(v) => lines_value(lines_spec(content@), prop@) == Some(v@),
            None => lines_value(lines_spec(content@), prop@) is None,
        },
{
    let chars = to_chars(content);
    let all = lines(chars.as_slice());
    let ghost full = views(all@);
    assert(full.skip(0) =~= full);
    for i in 0..all.len()
        invariant
            full == views(all@),
            full == lines_spec(content@),
            lines_value(full, prop@) == lines_value(full.skip(i as int), prop@),
    {
        assert(full.skip(i as int)[0] == all@[i as int]@);
        assert(full.skip(i as int).skip(1) =~= full.skip(i + 1));
        match line_prop(all[i], prop) {
            Some(v) => {
                return Some(v);
            },
            None => {},
        }
    }
    assert(full.skip(full.len() as int) =~= Seq::empty());
    None
}

/// Finds the value of a property: on the kernel's command line, or else in the
/// property files, in their order; empty where it has none.
pub fn get_prop(cmdline: Option<&str>, files: &[Option<String>], prop: &str) -> (r: String)
    ensures
        r@ == prop_spec(
            match cmdline {
                Some(c) => Some(c@),
                None => None,
            },
            files@,
            prop@,
        ),
{
    match cmdline {
        Some(c) => {
            match cmdline_prop(c, prop) {
                Some(v) => {
                    return v;
                },
                None => {},
            }
        },
        None => {},
    }
    assert(files@.skip(0) =~= files@);
    for i in 0..files.len()
        invariant
            files_value(files@, prop@) == files_value(files@.skip(i as int), prop@),
            prop_spec(
                match cmdline {
                    Some(c) => Some(c@),
                    None => None,
                },
                files@,
                prop@,
            ) == match files_value(files@, prop@) {
                Some(v) => v,
                None => Seq::empty(),
            },
    {
        assert(files@.skip(i as int)[0] == files@[i as int]);
        assert(files@.skip(i as int).skip(1) =~= files@.skip(i + 1));
        match &files[i] {
            Some(content) => {
                match file_prop(content.as_str(), prop) {
                    Some(v) => {
                        return v;
                    },
                    None => {},
                }
            },
            None => {},
        }
    }
    assert(files@.skip(files@.len() as int) =~= Seq::empty());
    String::new()
}

/// The command line overrides every property file.
pub proof fn law_command_line_wins(
    cmdline: Seq<char>,
    files: Seq<Option<String>>,
    others: Seq<Option<String>>,
    prop: Seq<char>,
)
    requires
        word_value(words_spec(cmdline), prop + "="@) is Some,
    ensures
        prop_spec(Some(cmdline), files, prop) == prop_spec(Some(cmdline), others, prop),
{
}

/// A model name is that of a virtual phone.
pub open spec fn is_virtual_model_spec(model: Seq<char>) -> bool {
    occurs(model, "vphone"@) || occurs(model, "VPhone"@) || occurs(model, "titan"@)
}

/// A kernel's command line is that of a virtual phone.
pub open spec fn is_virtual_cmdline_spec(cmdline: Seq<char>) -> bool {
    occurs(cmdline, "vphone"@) || occurs(cmdline, "titan"@)
}

/// Tells whether a model name is that of a virtual phone.
pub fn is_virtual_model(model: &str) -> (r: bool)
    ensures
        r == (occurs(model@, "vphone"@) || occurs(model@, "VPhone"@) || occurs(model@, "titan"@)),
        r == is_virtual_model_spec(model@),
{
    let chars = to_chars(model);
    contains_text(chars.as_slice(), "vphone") || contains_text(chars.as_slice(), "VPhone")
        || contains_text(chars.as_slice(), "titan")
}

/// Tells whether a kernel's command line is that of a virtual phone.
pub fn is_virtual_cmdline(cmdline: &str) -> (r: bool)
    ensures
        r == (occurs(cmdline@, "vphone"@) || occurs(cmdline@, "titan"@)),
        r == is_virtual_cmdline_spec(cmdline@),
{
    let chars = to_chars(cmdline);
    contains_text(chars.as_slice(), "vphone") || contains_text(chars.as_slice(), "titan")
}

/// A phone is virtual where its model or its command line has one of the names of
/// virtual phones somewhere in it, and not otherwise.
pub proof fn law_virtual_phones(a: Seq<char>, b: Seq<char>, other: Seq<char>)
    ensures
        is_virtual_model_spec(a + "vphone"@ + b),
        is_virtual_model_spec(a + "VPhone"@ + b),
        is_virtual_model_spec(a + "titan"@ + b),
        is_virtual_cmdline_spec(a + "vphone"@ + b),
        is_virtual_cmdline_spec(a + "titan"@ + b),
        is_virtual_model_spec(other) ==> exists|x: Seq<char>, y: Seq<char>|
            other == #[trigger] (x + "vphone"@ + y) || other == (x + "VPhone"@ + y) || other == (x
                + "titan"@ + y),
        is_virtual_cmdline_spec(other) ==> exists|x: Seq<char>, y: Seq<char>|
            other == #[trigger] (x + "vphone"@ + y) || other == (x + "titan"@ + y),
{
    law_occurs(other, "vphone"@, a, b);
    law_occurs(other, "VPhone"@, a, b);
    law_occurs(other, "titan"@, a, b);
    if occurs(other, "VPhone"@) {
        let (x, y) = choose|x: Seq<char>, y: Seq<char>| other == #[trigger] (x + "VPhone"@ + y);
        let w = x + "vphone"@ + y;
        assert(other == x + "VPhone"@ + y);
    }
    if occurs(other, "titan"@) {
        let (x, y) = choose|x: Seq<char>, y: Seq<char>| other == #[trigger] (x + "titan"@ + y);
        let w = x + "vphone"@ + y;
        assert(other == x + "titan"@ + y);
    }
}

/// The first word that is the property, an equals sign and a value gives the value;
/// words that do not start so count for nothing.
pub proof fn law_words_give_properties(
    words: Seq<Seq<char>>,
    word: Seq<char>,
    prop: Seq<char>,
    value: Seq<char>,
)
    ensures
        word_value(seq![prop + "="@ + value] + words, prop + "="@) == Some(value),
        (forall|v: Seq<char>| word != #[trigger] (prop + "="@ + v)) ==> word_value(
            seq![word] + words,
            prop + "="@,
        ) == word_value(words, prop + "="@),
        word_value(Seq::empty(), prop + "="@) is None,
{
    let key = prop + "="@;
    law_prefix_is_stripped(key, value);
    law_prefix_is_stripped(key, word);
    let first = seq![key + value] + words;
    assert(first[0] == key + value);
    let second = seq![word] + words;
    assert(second[0] == word);
    assert(second.skip(1) =~= words);
}

/// A line of a name, an equals sign and a value, with white space anywhere around
/// these, gives the value to the name, and nothing to any other.
pub proof fn law_line_gives_property(
    before: Seq<char>,
    key: Seq<char>,
    s1: Seq<char>,
    s2: Seq<char>,
    value: Seq<char>,
    behind: Seq<char>,
    other: Seq<char>,
)
    requires
        forall|i: int| 0 <= i < before.len() ==> is_space(#[trigger] before[i]),
        forall|i: int| 0 <= i < s1.len() ==> is_space(#[trigger] s1[i]),
        forall|i: int| 0 <= i < s2.len() ==> is_space(#[trigger] s2[i]),
        forall|i: int| 0 <= i < behind.len() ==> is_space(#[trigger] behind[i]),
        key.len() > 0 && !is_space(key[0]) && !is_space(key.last()),
        key[0] != '#' && !key.contains('='),
        value.len() > 0 && !is_space(value[0]) && !is_space(value.last()),
        other != key,
    ensures
        line_value(before + ((key + s1).push('=') + (s2 + value)) + behind, key) == Some(value),
        line_value(before + ((key + s1).push('=') + (s2 + value)) + behind, other) is None,
{
    let none = Seq::<char>::empty();
    let name = key + s1;
    let given = s2 + value;
    let l = name.push('=') + given;
    assert(l[0] == key[0]);
    assert(l.last() == value.last());
    law_trimming(before, l, behind);
    assert(!name.contains('=')) by {
        if name.contains('=') {
            let k = choose|k: int| 0 <= k < name.len() && name[k] == '=';
            if k < key.len() {
                assert(key[k] == '=');
            } else {
                assert(is_space(s1[k - key.len()]));
            }
        }
    }
    law_split_once(name, '=', given);
    law_trimming(none, key, s1);
    assert(none + key + s1 =~= name);
    law_trimming(s2, value, none);
    assert(s2 + value + none =~= given);
}

/// A comment gives nothing, nor does a line without an equals sign, or without
/// anything.
pub proof fn law_lines_without_properties(before: Seq<char>, line: Seq<char>, prop: Seq<char>)
    requires
        forall|i: int| 0 <= i < before.len() ==> is_space(#[trigger] before[i]),
        line.len() > 0 && !is_space(line[0]) && !is_space(line.last()),
        line[0] == '#' || !line.contains('='),
    ensures
        line_value(before, prop) is None,
        line_value(before + line, prop) is None,
{
    let none = Seq::<char>::empty();
    law_trimming(before, line, none);
    assert(before + line + none =~= before + line);
    if line[0] != '#' {
        law_split_once(line, '=', none);
    }
}

/// The first line of a file that gives the property a value decides.
pub proof fn law_first_line_counts(line: Seq<char>, rest: Seq<char>, prop: Seq<char>)
    requires
        !line.contains('\n'),
        line.len() == 0 || line.last() != '\r',
    ensures
        line_value(line, prop) is Some ==> lines_value(lines_spec(line.push('\n') + rest), prop)
            == line_value(line, prop),
        line_value(line, prop) is None ==> lines_value(lines_spec(line.push('\n') + rest), prop)
            == lines_value(lines_spec(rest), prop),
        lines_value(lines_spec(Seq::empty()), prop) is None,
{
    law_lines(line, rest);
    let all = seq![line] + lines_spec(rest);
    assert(all[0] == line);
    assert(all.skip(1) =~= lines_spec(rest));
}

/// Property files are asked in their order; one that could not be read, or that
/// does not give the property, is passed over.
pub proof fn law_first_file_counts(
    file: String,
    files: Seq<Option<String>>,
    prop: Seq<char>,
)
    ensures
        files_value(seq![None] + files, prop) == files_value(files, prop),
        lines_value(lines_spec(file@), prop) is None ==> files_value(seq![Some(file)] + files, prop)
            == files_value(files, prop),
        lines_value(lines_spec(file@), prop) is Some ==> files_value(seq![Some(file)] + files, prop)
            == lines_value(lines_spec(file@), prop),
        files_value(Seq::empty(), prop) is None,
{
    let a = seq![None] + files;
    let b = seq![Some(file)] + files;
    assert(a[0] is None);
    assert(a.skip(1) =~= files);
    assert(b[0] == Some(file));
    assert(b.skip(1) =~= files);
}

/// A property that the command line does not give is what the files say, and empty
/// where they say nothing.
pub proof fn law_files_stand_in(
    cmdline: Seq<char>,
    files: Seq<Option<String>>,
    prop: Seq<char>,
)
    ensures
        word_value(words_spec(cmdline), prop + "="@) is Some ==> prop_spec(
            Some(cmdline),
            files,
            prop,
        ) == word_value(words_spec(cmdline), prop + "="@).unwrap(),
        word_value(words_spec(cmdline), prop + "="@) is None ==> prop_spec(
            Some(cmdline),
            files,
            prop,
        ) == prop_spec(None, files, prop),
        files_value(files, prop) is Some ==> prop_spec(None, files, prop) == files_value(
            files,
            prop,
        ).unwrap(),
        files_value(files, prop) is None ==> prop_spec(None, files, prop).len() == 0,
{
}

} // verus!
