//! Command lines, word by word.

use crate::text::{
    begins_with, chars_of, find_text, holds, is_first_place, is_white, slice_of, stands_at, text_of,
    white,
};
use vstd::prelude::*;

verus! {

/// The words of a text, split at white space; `word` is the one being read.
pub open spec fn plain_words(text: Seq<char>, word: Seq<char>) -> Seq<Seq<char>>
    decreases text.len(),
{
    if text.len() == 0 {
        if word.len() == 0 {
            seq![]
        } else {
            seq![word]
        }
    } else if white(text[0]) {
        if word.len() == 0 {
            plain_words(text.drop_first(), seq![])
        } else {
            seq![word] + plain_words(text.drop_first(), seq![])
        }
    } else {
        plain_words(text.drop_first(), word.push(text[0]))
    }
}

/// The words of a text, split at white space.
pub open spec fn words(text: Seq<char>) -> Seq<Seq<char>> {
    plain_words(text, seq![])
}

/// Put one more text at the end of a list.
pub(crate) fn push_text(list: &mut Vec<String>, text: String)
    ensures
        final(list).deep_view() == old(list).deep_view().push(text@),
{
    list.push(text);
    assert(list.deep_view() =~= old(list).deep_view().push(text@));
}

/// The words of a text, split at white space.
pub(crate) fn split_whitespace(text: &str) -> (list: Vec<String>)
    ensures
        list.deep_view() == words(text@),
{
    let chars = chars_of(text);
    let mut list: Vec<String> = Vec::new();
    let mut word: Vec<char> = Vec::new();
    let mut i: usize = 0;
    proof {
        assert(text@.skip(0) =~= text@);
        assert(word@ =~= seq![]);
        assert(list.deep_view() + words(text@) =~= words(text@));
    }
    while i < chars.len()
        invariant
            i <= chars@.len(),
            chars@ == text@,
            list.deep_view() + plain_words(text@.skip(i as int), word@) == words(text@),
        decreases chars@.len() - i,
    {
        let ghost rest = text@.skip(i as int);
        let ghost before = list.deep_view();
        let ghost read = word@;
        assert(rest.drop_first() =~= text@.skip(i + 1));
        if is_white(chars[i]) {
            if word.len() > 0 {
                push_text(&mut list, text_of(word.as_slice()));
                word = Vec::new();
                proof {
                    let others = plain_words(rest.drop_first(), seq![]);
                    assert(before.push(read) + others =~= before + (seq![read] + others));
                }
            }
            assert(word@ =~= seq![]);
        } else {
            word.push(chars[i]);
        }
        i = i + 1;
    }
    proof {
        assert(text@.skip(i as int) =~= Seq::<char>::empty());
    }
    if word.len() > 0 {
        let ghost before = list.deep_view();
        push_text(&mut list, text_of(word.as_slice()));
        assert(before.push(word@) =~= before + seq![word@]);
    } else {
        assert(list.deep_view() + Seq::<Seq<char>>::empty() =~= list.deep_view());
    }
    list
}

/// Words with one space between each two.
pub open spec fn joined(list: Seq<Seq<char>>) -> Seq<char>
    decreases list.len(),
{
    if list.len() == 0 {
        seq![]
    } else if list.len() == 1 {
        list[0]
    } else {
        joined(list.drop_last()) + seq![' '] + list.last()
    }
}

/// Words with one space between each two.
pub(crate) fn join(list: &Vec<String>) -> (text: String)
    ensures
        text@ == joined(list.deep_view()),
{
    let ghost all = list.deep_view();
    let mut text = String::new();
    let mut i: usize = 0;
    assert(all.take(0) =~= seq![]);
    while i < list.len()
        invariant
            i <= list@.len(),
            all == list.deep_view(),
            text@ == joined(all.take(i as int)),
        decreases list@.len() - i,
    {
        proof {
            assert(all.take(i + 1).drop_last() =~= all.take(i as int));
            assert(all.take(i + 1).last() == list@[i as int]@);
        }
        if i > 0 {
            text.push(' ');
        }
        text.append(list[i].as_str());
        assert(text@ =~= joined(all.take(i + 1)));
        i = i + 1;
    }
    assert(all.take(i as int) =~= all);
    text
}

/// Whether a word is a field code: a percent sign and one more byte.
pub open spec fn is_field_code(word: Seq<char>) -> bool {
    word.len() == 2 && word[0] == '%' && (word[1] as u32) < 128
}

/// Drop the `%f`, `%U` and such placeholders a `.desktop` command may carry.
///
/// They stand for files and URLs passed to the program; there are none here, and
/// passing them through literally would have the application open a file called
/// `%U`.
pub fn strip_field_codes(line: &str) -> (command: String)
    ensures
        command@ == joined(words(line@).filter(|word: Seq<char>| !is_field_code(word))),
{
    let list = split_whitespace(line);
    let ghost all = list.deep_view();
    let ghost stays = |word: Seq<char>| !is_field_code(word);
    let mut kept: Vec<String> = Vec::new();
    let mut i: usize = 0;
    proof {
        reveal(Seq::filter);
        assert(kept.deep_view() =~= all.take(0).filter(stays));
    }
    while i < list.len()
        invariant
            i <= list@.len(),
            all == list.deep_view(),
            stays == (|word: Seq<char>| !is_field_code(word)),
            kept.deep_view() == all.take(i as int).filter(stays),
        decreases list@.len() - i,
    {
        proof {
            reveal(Seq::filter);
            assert(all.take(i + 1).drop_last() =~= all.take(i as int));
            assert(all.take(i + 1).last() == list@[i as int]@);
        }
        let word = chars_of(list[i].as_str());
        if !(word.len() == 2 && word[0] == '%' && (word[1] as u32) < 128) {
            push_text(&mut kept, list[i].clone());
        }
        i = i + 1;
    }
    assert(all.take(i as int) =~= all);
    join(&kept)
}

/// Where in a command line a character stands.
#[derive(Debug, Clone, Copy, PartialEq, Eq, Structural)]
pub enum Quoting {
    /// Between quotes, if anywhere.
    Bare,
    /// In single quotes, where every character stands for itself.
    Single,
    /// In double quotes, where a backslash may stand before a few characters.
    Double,
}

/// Whether a backslash in double quotes makes this character stand for itself.
pub open spec fn escapable(c: char) -> bool {
    c == '"' || c == '\\' || c == '$' || c == '`'
}

/// A word with a quoting character read: kept, or done away with.
pub open spec fn with_mark(word: Seq<char>, mark: char, keep: bool) -> Seq<char> {
    if keep {
        word.push(mark)
    } else {
        word
    }
}

/// The words of a command line, split as a shell splits them. `word` is the one
/// being read, and `keep` whether the characters that quote stay in the words.
pub open spec fn split_shell(
    text: Seq<char>,
    quoting: Quoting,
    word: Option<Seq<char>>,
    keep: bool,
) -> Seq<Seq<char>>
    decreases text.len(),
{
    let read: Seq<char> = match word {
        Some(w) => w,
        None => seq![],
    };
    if text.len() == 0 {
        match word {
            Some(w) => seq![w],
            None => seq![],
        }
    } else {
        let c = text[0];
        let rest = text.drop_first();
        match quoting {
            Quoting::Bare => if white(c) {
                match word {
                    Some(w) => seq![w] + split_shell(rest, Quoting::Bare, None, keep),
                    None => split_shell(rest, Quoting::Bare, None, keep),
                }
            } else if c == '\'' {
                split_shell(rest, Quoting::Single, Some(with_mark(read, c, keep)), keep)
            } else if c == '"' {
                split_shell(rest, Quoting::Double, Some(with_mark(read, c, keep)), keep)
            } else if c == '\\' && rest.len() > 0 {
                split_shell(
                    rest.drop_first(),
                    Quoting::Bare,
                    Some(with_mark(read, c, keep).push(rest[0])),
                    keep,
                )
            } else {
                split_shell(rest, Quoting::Bare, Some(read.push(c)), keep)
            },
            Quoting::Single => if c == '\'' {
                split_shell(rest, Quoting::Bare, Some(with_mark(read, c, keep)), keep)
            } else {
                split_shell(rest, Quoting::Single, Some(read.push(c)), keep)
            },
            Quoting::Double => if c == '"' {
                split_shell(rest, Quoting::Bare, Some(with_mark(read, c, keep)), keep)
            } else if c == '\\' && rest.len() > 0 && escapable(rest[0]) {
                split_shell(
                    rest.drop_first(),
                    Quoting::Double,
                    Some(with_mark(read, c, keep).push(rest[0])),
                    keep,
                )
            } else {
                split_shell(rest, Quoting::Double, Some(read.push(c)), keep)
            },
        }
    }
}

/// The words a shell would make of a command line.
pub open spec fn shell_words(text: Seq<char>) -> Seq<Seq<char>> {
    split_shell(text, Quoting::Bare, None, false)
}

/// The words of a command line as they are written, quotes and all.
pub open spec fn written_words(text: Seq<char>) -> Seq<Seq<char>> {
    split_shell(text, Quoting::Bare, None, true)
}

/// The word being read, if any.
pub open spec fn being_read(started: bool, word: Seq<char>) -> Option<Seq<char>> {
    if started {
        Some(word)
    } else {
        None
    }
}

/// The words of a command line, split as a shell splits them.
pub(crate) fn shell_split(text: &str, keep: bool) -> (list: Vec<String>)
    ensures
        list.deep_view() == split_shell(text@, Quoting::Bare, None, keep),
{
    let chars = chars_of(text);
    let n: usize = chars.len();
    let mut list: Vec<String> = Vec::new();
    let mut word: Vec<char> = Vec::new();
    let mut started = false;
    let mut quoting = Quoting::Bare;
    let mut i: usize = 0;
    let ghost wanted = split_shell(text@, Quoting::Bare, None, keep);
    proof {
        assert(text@.skip(0) =~= text@);
        assert(list.deep_view() + wanted =~= wanted);
    }
    while i < n
        invariant
            n == chars@.len(),
            i <= n,
            chars@ == text@,
            !started ==> word@ =~= seq![] && quoting == Quoting::Bare,
            wanted == split_shell(text@, Quoting::Bare, None, keep),
            list.deep_view() + split_shell(
                text@.skip(i as int),
                quoting,
                being_read(started, word@),
                keep,
            ) == wanted,
        decreases n - i,
    {
        let c = chars[i];
        let ghost rest = text@.skip(i as int);
        let ghost before = list.deep_view();
        let ghost read = word@;
        proof {
            assert(rest.drop_first() =~= text@.skip(i + 1));
            if i + 1 < n {
                assert(rest.drop_first().drop_first() =~= text@.skip(i + 2));
            }
        }
        let escapes = c == '\\' && i + 1 < n && match quoting {
            Quoting::Bare => true,
            Quoting::Single => false,
            Quoting::Double => chars[i + 1] == '"' || chars[i + 1] == '\\' || chars[i + 1] == '$'
                || chars[i + 1] == '`',
        };
        if quoting == Quoting::Bare && is_white(c) {
            if started {
                push_text(&mut list, text_of(word.as_slice()));
                word = Vec::new();
                started = false;
                proof {
                    let others = split_shell(rest.drop_first(), Quoting::Bare, None, keep);
                    assert(before.push(read) + others =~= before + (seq![read] + others));
                }
            }
            assert(word@ =~= seq![]);
            i = i + 1;
        } else if escapes {
            if keep {
                word.push(c);
            }
            word.push(chars[i + 1]);
            started = true;
            i = i + 2;
        } else if quoting == Quoting::Bare && (c == '\'' || c == '"') {
            if keep {
                word.push(c);
            }
            quoting = if c == '"' {
                Quoting::Double
            } else {
                Quoting::Single
            };
            started = true;
            i = i + 1;
        } else if (quoting == Quoting::Single && c == '\'') || (quoting == Quoting::Double && c
            == '"') {
            if keep {
                word.push(c);
            }
            quoting = Quoting::Bare;
            i = i + 1;
        } else {
            word.push(c);
            started = true;
            i = i + 1;
        }
    }
    proof {
        assert(text@.skip(i as int) =~= Seq::<char>::empty());
    }
    if started {
        let ghost before = list.deep_view();
        push_text(&mut list, text_of(word.as_slice()));
        assert(before.push(word@) =~= before + seq![word@]);
    } else {
        assert(list.deep_view() + Seq::<Seq<char>>::empty() =~= list.deep_view());
    }
    list
}

/// Whether a text quotes anything.
pub open spec fn is_plain(text: Seq<char>) -> bool {
    forall|i: int|
        0 <= i < text.len() ==> #[trigger] text[i] != '\'' && text[i] != '"' && text[i] != '\\'
}

/// A command line that quotes nothing is split at white space and nowhere else.
pub proof fn plain_commands_split_at_white_space(text: Seq<char>)
    requires
        is_plain(text),
    ensures
        shell_words(text) == words(text),
        written_words(text) == words(text),
{
    plain_commands_split_from(text, None, true);
    plain_commands_split_from(text, None, false);
}

proof fn plain_commands_split_from(text: Seq<char>, word: Option<Seq<char>>, keep: bool)
    requires
        is_plain(text),
        word matches Some(w) ==> w.len() > 0,
    ensures
        split_shell(text, Quoting::Bare, word, keep) == plain_words(
            text,
            match word {
                Some(w) => w,
                None => seq![],
            },
        ),
    decreases text.len(),
{
    let read: Seq<char> = match word {
        Some(w) => w,
        None => seq![],
    };
    if text.len() > 0 {
        let rest = text.drop_first();
        assert forall|i: int| 0 <= i < rest.len() implies #[trigger] rest[i] != '\'' && rest[i]
            != '"' && rest[i] != '\\' by {
            assert(rest[i] == text[i + 1]);
        }
        assert(text[0] != '\\');
        if white(text[0]) {
            plain_commands_split_from(rest, None, keep);
        } else {
            plain_commands_split_from(rest, Some(read.push(text[0])), keep);
        }
    }
}

/// Whatever stands between two double quotes is one word, spaces and all, as long
/// as nothing in it is a quote or a backslash.
pub proof fn quotes_keep_spaces(text: Seq<char>)
    requires
        is_plain(text),
    ensures
        shell_words(seq!['"'] + text + seq!['"']) == seq![text],
{
    let quoted = seq!['"'] + text + seq!['"'];
    assert(quoted.drop_first() =~= text + seq!['"']);
    quotes_keep_spaces_from(text, seq![]);
    assert(Seq::<char>::empty() + text =~= text);
}

proof fn quotes_keep_spaces_from(text: Seq<char>, read: Seq<char>)
    requires
        is_plain(text),
    ensures
        split_shell(text + seq!['"'], Quoting::Double, Some(read), false) == seq![read + text],
    decreases text.len(),
{
    let rest = text + seq!['"'];
    if text.len() == 0 {
        reveal_with_fuel(split_shell, 2);
        assert(rest.drop_first() =~= seq![]);
        assert(read + text =~= read);
    } else {
        assert(rest[0] == text[0]);
        assert(rest.drop_first() =~= text.drop_first() + seq!['"']);
        let others = text.drop_first();
        assert forall|i: int| 0 <= i < others.len() implies #[trigger] others[i] != '\''
            && others[i] != '"' && others[i] != '\\' by {
            assert(others[i] == text[i + 1]);
        }
        quotes_keep_spaces_from(others, read.push(text[0]));
        assert(read.push(text[0]) + others =~= read + text);
    }
}

/// Where a word's home directory sign stands: after a flag's equals sign or at
/// the word's beginning, an opening quote between them or not.
pub open spec fn home_sign(word: Seq<char>) -> Option<int> {
    if holds(word, "=~/"@) {
        Some(first_place(word, "=~/"@) + 1)
    } else if holds(word, "=\"~/"@) {
        Some(first_place(word, "=\"~/"@) + 2)
    } else if holds(word, "='~/"@) {
        Some(first_place(word, "='~/"@) + 2)
    } else if begins_with(word, "~/"@) {
        Some(0)
    } else if begins_with(word, "\"~/"@) || begins_with(word, "'~/"@) {
        Some(1)
    } else {
        None
    }
}

/// Where a pattern first stands in a text that holds it.
pub open spec fn first_place(text: Seq<char>, pattern: Seq<char>) -> int {
    choose|at: int| is_first_place(text, pattern, at)
}

/// A word with its home directory sign replaced by the home directory.
pub open spec fn at_home(word: Seq<char>, home: Seq<char>) -> Seq<char> {
    match home_sign(word) {
        Some(at) => word.take(at) + home + word.skip(at + 1),
        None => word,
    }
}

/// Where a pattern first stands in a text.
fn place_of(word: &Vec<char>, pattern: &str) -> (at: Option<usize>)
    ensures
        match at {
            Some(i) => holds(word@, pattern@) && i == first_place(word@, pattern@) && i
                + pattern@.len() <= word@.len(),
            None => !holds(word@, pattern@),
        },
{
    let at = find_text(word, &chars_of(pattern));
    proof {
        if let Some(i) = at {
            let j = first_place(word@, pattern@);
            assert(is_first_place(word@, pattern@, i as int));
            assert(is_first_place(word@, pattern@, j));
            if i < j {
                assert(!begins_with(word@.skip(i as int), pattern@));
            }
            if j < i {
                assert(!begins_with(word@.skip(j), pattern@));
            }
        }
    }
    at
}

/// Whether a word begins with a text.
fn opens_with(word: &Vec<char>, prefix: &str) -> (opens: bool)
    ensures
        opens == begins_with(word@, prefix@),
{
    assert(word@.skip(0) =~= word@);
    stands_at(word, &chars_of(prefix), 0)
}

/// A word with its home directory sign replaced by the home directory.
fn expand_word(text: &str, home: &str) -> (expanded: String)
    ensures
        expanded@ == at_home(text@, home@),
{
    proof {
        reveal_strlit("=~/");
        reveal_strlit("=\"~/");
        reveal_strlit("='~/");
        reveal_strlit("~/");
        reveal_strlit("\"~/");
        reveal_strlit("'~/");
    }
    let word = chars_of(text);
    assert(word.len() == word@.len());
    let at: usize = if let Some(i) = place_of(&word, "=~/") {
        i + 1
    } else if let Some(i) = place_of(&word, "=\"~/") {
        i + 2
    } else if let Some(i) = place_of(&word, "='~/") {
        i + 2
    } else if opens_with(&word, "~/") {
        0
    } else if opens_with(&word, "\"~/") || opens_with(&word, "'~/") {
        1
    } else {
        return text.to_owned();
    };
    let mut expanded = slice_of(&word, 0, at);
    let rest = slice_of(&word, at + 1, word.len());
    assert(expanded@ =~= text@.take(at as int));
    assert(rest@ =~= text@.skip(at + 1));
    expanded.append(home);
    expanded.append(rest.as_str());
    expanded
}

/// A command line with every word's home directory sign replaced.
pub open spec fn home_expanded(command: Seq<char>, home: Seq<char>) -> Seq<char> {
    joined(written_words(command).map_values(|word: Seq<char>| at_home(word, home)))
}

/// Expand a leading `~/`, whether it opens a word or follows a flag's `=`, and
/// whether or not it is quoted.
///
/// The command is spawned directly, so there is no shell to do this and a literal
/// `~` would become a directory of that name.
pub fn expand_home(command: &str, home: &str) -> (expanded: String)
    ensures
        expanded@ == home_expanded(command@, home@),
{
    let list = shell_split(command, true);
    let ghost all = list.deep_view();
    let ghost expand = |word: Seq<char>| at_home(word, home@);
    let mut out: Vec<String> = Vec::new();
    let mut i: usize = 0;
    assert(out.deep_view() =~= all.take(0).map_values(expand));
    while i < list.len()
        invariant
            i <= list@.len(),
            all == list.deep_view(),
            expand == (|word: Seq<char>| at_home(word, home@)),
            out.deep_view() =~= all.take(i as int).map_values(expand),
        decreases list@.len() - i,
    {
        assert(all[i as int] == list@[i as int]@);
        push_text(&mut out, expand_word(list[i].as_str(), home));
        i = i + 1;
    }
    assert(all.take(i as int) =~= all);
    join(&out)
}

/// Whether a command line, read from between or within quotes, ends with every
/// quote closed and no backslash waiting for what follows.
pub open spec fn closes(text: Seq<char>, quoting: Quoting) -> bool
    decreases text.len(),
{
    if text.len() == 0 {
        quoting == Quoting::Bare
    } else {
        let c = text[0];
        let rest = text.drop_first();
        match quoting {
            Quoting::Bare => if c == '\'' {
                closes(rest, Quoting::Single)
            } else if c == '"' {
                closes(rest, Quoting::Double)
            } else if c == '\\' {
                rest.len() > 0 && closes(rest.drop_first(), Quoting::Bare)
            } else {
                closes(rest, Quoting::Bare)
            },
            Quoting::Single => if c == '\'' {
                closes(rest, Quoting::Bare)
            } else {
                closes(rest, Quoting::Single)
            },
            Quoting::Double => if c == '"' {
                closes(rest, Quoting::Bare)
            } else if c == '\\' && rest.len() > 0 && escapable(rest[0]) {
                closes(rest.drop_first(), Quoting::Double)
            } else {
                closes(rest, Quoting::Double)
            },
        }
    }
}

/// Two command lines with a space between them hold the words of the one and then
/// those of the other, where the first closes its quotes.
pub proof fn words_stand_apart(first: Seq<char>, second: Seq<char>)
    requires
        closes(first, Quoting::Bare),
    ensures
        shell_words(first + seq![' '] + second) == shell_words(first) + shell_words(second),
        written_words(first + seq![' '] + second) == written_words(first) + written_words(second),
{
    words_stand_apart_from(first, second, Quoting::Bare, None, false);
    words_stand_apart_from(first, second, Quoting::Bare, None, true);
}

proof fn words_stand_apart_from(
    first: Seq<char>,
    second: Seq<char>,
    quoting: Quoting,
    word: Option<Seq<char>>,
    keep: bool,
)
    requires
        closes(first, quoting),
    ensures
        split_shell(first + seq![' '] + second, quoting, word, keep) == split_shell(
            first,
            quoting,
            word,
            keep,
        ) + split_shell(second, Quoting::Bare, None, keep),
    decreases first.len(),
{
    let whole = first + seq![' '] + second;
    let after = split_shell(second, Quoting::Bare, None, keep);
    let read: Seq<char> = match word {
        Some(w) => w,
        None => seq![],
    };
    if first.len() == 0 {
        assert(whole.drop_first() =~= second);
        assert(whole[0] == ' ');
        assert(split_shell(first, quoting, word, keep) + after =~= split_shell(
            whole,
            quoting,
            word,
            keep,
        ));
    } else {
        let c = first[0];
        let rest = first.drop_first();
        assert(whole[0] == c);
        assert(whole.drop_first() =~= rest + seq![' '] + second);
        if rest.len() > 0 {
            assert(whole.drop_first()[0] == rest[0]);
            assert(whole.drop_first().drop_first() =~= rest.drop_first() + seq![' '] + second);
        }
        let marked = with_mark(read, c, keep);
        match quoting {
            Quoting::Bare => if white(c) {
                words_stand_apart_from(rest, second, Quoting::Bare, None, keep);
                let others = split_shell(rest, Quoting::Bare, None, keep);
                if let Some(w) = word {
                    assert(seq![w] + (others + after) =~= (seq![w] + others) + after);
                }
            } else if c == '\'' {
                words_stand_apart_from(rest, second, Quoting::Single, Some(marked), keep);
            } else if c == '"' {
                words_stand_apart_from(rest, second, Quoting::Double, Some(marked), keep);
            } else if c == '\\' {
                words_stand_apart_from(
                    rest.drop_first(),
                    second,
                    Quoting::Bare,
                    Some(marked.push(rest[0])),
                    keep,
                );
            } else {
                words_stand_apart_from(rest, second, Quoting::Bare, Some(read.push(c)), keep);
            },
            Quoting::Single => if c == '\'' {
                words_stand_apart_from(rest, second, Quoting::Bare, Some(marked), keep);
            } else {
                words_stand_apart_from(rest, second, Quoting::Single, Some(read.push(c)), keep);
            },
            Quoting::Double => if c == '"' {
                words_stand_apart_from(rest, second, Quoting::Bare, Some(marked), keep);
            } else if c == '\\' && rest.len() > 0 && escapable(rest[0]) {
                words_stand_apart_from(
                    rest.drop_first(),
                    second,
                    Quoting::Double,
                    Some(marked.push(rest[0])),
                    keep,
                );
            } else {
                if c == '\\' && rest.len() == 0 {
                    assert(whole.drop_first()[0] == ' ');
                }
                words_stand_apart_from(rest, second, Quoting::Double, Some(read.push(c)), keep);
            },
        }
    }
}

proof fn joined_apart(one: Seq<Seq<char>>, other: Seq<Seq<char>>)
    requires
        one.len() > 0,
        other.len() > 0,
    ensures
        joined(one + other) == joined(one) + seq![' '] + joined(other),
    decreases other.len(),
{
    let all = one + other;
    assert(all.drop_last() =~= one + other.drop_last());
    assert(all.last() == other.last());
    if other.len() == 1 {
        assert(one + other.drop_last() =~= one);
    } else {
        joined_apart(one, other.drop_last());
        let head = joined(one) + seq![' '];
        let most = joined(other.drop_last());
        assert(head + most + seq![' '] + other.last() =~= head + (most + seq![' ']
            + other.last()));
    }
}

/// Expanding two commands with a space between them is joining their expansions,
/// where each holds a word and the first closes its quotes.
pub proof fn commands_expand_apart(first: Seq<char>, second: Seq<char>, home: Seq<char>)
    requires
        closes(first, Quoting::Bare),
        written_words(first).len() > 0,
        written_words(second).len() > 0,
    ensures
        home_expanded(first + seq![' '] + second, home) == home_expanded(first, home) + seq![' ']
            + home_expanded(second, home),
{
    let expand = |word: Seq<char>| at_home(word, home);
    let one = written_words(first);
    let other = written_words(second);
    words_stand_apart(first, second);
    assert((one + other).map_values(expand) =~= one.map_values(expand) + other.map_values(expand));
    joined_apart(one.map_values(expand), other.map_values(expand));
}

/// A command that quotes nothing closes its quotes, so plain commands expand
/// apart whatever they are.
pub proof fn plain_commands_close(text: Seq<char>)
    requires
        is_plain(text),
    ensures
        closes(text, Quoting::Bare),
    decreases text.len(),
{
    if text.len() > 0 {
        let rest = text.drop_first();
        assert forall|i: int| 0 <= i < rest.len() implies #[trigger] rest[i] != '\'' && rest[i]
            != '"' && rest[i] != '\\' by {
            assert(rest[i] == text[i + 1]);
        }
        assert(text[0] != '\'' && text[0] != '"' && text[0] != '\\');
        plain_commands_close(rest);
    }
}

/// Whether a command line is one word, as it is written.
pub open spec fn is_word(text: Seq<char>) -> bool {
    written_words(text) == seq![text]
}

/// A text that holds no white space and quotes nothing is one word.
pub proof fn plain_text_is_a_word(text: Seq<char>)
    requires
        text.len() > 0,
        is_plain(text),
        forall|i: int| 0 <= i < text.len() ==> !white(#[trigger] text[i]),
    ensures
        is_word(text),
{
    plain_commands_split_at_white_space(text);
    unbroken_text_is_a_word(text, seq![]);
    assert(Seq::<char>::empty() + text =~= text);
}

proof fn unbroken_text_is_a_word(text: Seq<char>, read: Seq<char>)
    requires
        read.len() + text.len() > 0,
        forall|i: int| 0 <= i < text.len() ==> !white(#[trigger] text[i]),
    ensures
        plain_words(text, read) == seq![read + text],
    decreases text.len(),
{
    if text.len() == 0 {
        assert(read + text =~= read);
    } else {
        let rest = text.drop_first();
        assert(!white(text[0]));
        assert forall|i: int| 0 <= i < rest.len() implies !white(#[trigger] rest[i]) by {
            assert(rest[i] == text[i + 1]);
        }
        unbroken_text_is_a_word(rest, read.push(text[0]));
        assert(read.push(text[0]) + rest =~= read + text);
    }
}

proof fn one_word_expands(word: Seq<char>, home: Seq<char>)
    requires
        is_word(word),
    ensures
        home_expanded(word, home) == at_home(word, home),
{
    let expand = |w: Seq<char>| at_home(w, home);
    assert(written_words(word).map_values(expand) =~= seq![at_home(word, home)]);
}

/// A word without a home directory sign, such as `~backup` or `file~`, is left as
/// it is.
pub proof fn other_words_are_left_alone(word: Seq<char>, home: Seq<char>)
    requires
        is_word(word),
        !begins_with(word, "~/"@) && !begins_with(word, "\"~/"@) && !begins_with(word, "'~/"@),
        !holds(word, "=~/"@) && !holds(word, "=\"~/"@) && !holds(word, "='~/"@),
    ensures
        home_expanded(word, home) == word,
{
    one_word_expands(word, home);
}

/// No pattern stands in a text where it neither stands in the text's end nor can
/// begin in the rest of it.
proof fn stands_nowhere(front: Seq<char>, back: Seq<char>, pattern: Seq<char>)
    requires
        pattern.len() > 0,
        forall|i: int| 0 <= i < front.len() ==> #[trigger] front[i] != pattern[0],
        !holds(back, pattern),
    ensures
        !holds(front + back, pattern),
{
    let text = front + back;
    assert forall|i: int| 0 <= i <= text.len() implies !(#[trigger] begins_with(
        text.skip(i),
        pattern,
    )) by {
        if begins_with(text.skip(i), pattern) {
            assert(text.skip(i)[0] == text.skip(i).take(pattern.len() as int)[0]);
            if i < front.len() {
                assert(front[i] == pattern[0]);
            } else {
                assert(text.skip(i) =~= back.skip(i - front.len()));
            }
        }
    }
}

/// A word that begins with the home directory sign begins with the home directory
/// instead, and the rest of it stays, where the rest holds no sign of its own.
pub proof fn a_path_at_home_is_expanded(rest: Seq<char>, home: Seq<char>)
    requires
        is_word("~/"@ + rest),
        !holds(rest, "=~/"@) && !holds(rest, "=\"~/"@) && !holds(rest, "='~/"@),
    ensures
        home_expanded("~/"@ + rest, home) == home + "/"@ + rest,
{
    let word = "~/"@ + rest;
    reveal_strlit("~/");
    reveal_strlit("/");
    reveal_strlit("=~/");
    reveal_strlit("=\"~/");
    reveal_strlit("='~/");
    one_word_expands(word, home);
    stands_nowhere("~/"@, rest, "=~/"@);
    stands_nowhere("~/"@, rest, "=\"~/"@);
    stands_nowhere("~/"@, rest, "='~/"@);
    assert(word.take(2) =~= "~/"@);
    assert(word.take(0) + home + word.skip(1) =~= home + "/"@ + rest);
}

/// A flag's value that begins with the home directory sign begins with the home
/// directory instead, and the rest of the word stays.
pub proof fn a_flag_at_home_is_expanded(flag: Seq<char>, rest: Seq<char>, home: Seq<char>)
    requires
        is_word(flag + "=~/"@ + rest),
        !holds(flag, "=~/"@),
    ensures
        home_expanded(flag + "=~/"@ + rest, home) == flag + "="@ + home + "/"@ + rest,
{
    let sign = "=~/"@;
    let word = flag + sign + rest;
    let at = flag.len() as int;
    reveal_strlit("=~/");
    reveal_strlit("=");
    reveal_strlit("/");
    one_word_expands(word, home);
    assert(word.skip(at).take(3) =~= sign);
    assert(begins_with(word.skip(at), sign));
    assert forall|i: int| 0 <= i < at implies !(#[trigger] begins_with(word.skip(i), sign)) by {
        if begins_with(word.skip(i), sign) {
            let part = word.skip(i).take(3);
            assert(part[1] == word[i + 1] && part[2] == word[i + 2]);
            if i + 3 <= at {
                assert(flag.skip(i).take(3) =~= part);
                assert(begins_with(flag.skip(i), sign));
            } else if i + 1 == at {
                assert(word[i + 1] == '=');
            } else {
                assert(word[i + 2] == '=');
            }
        }
    }
    assert(is_first_place(word, sign, at));
    let first = first_place(word, sign);
    assert(is_first_place(word, sign, first));
    if first < at {
        assert(!begins_with(word.skip(first), sign));
    }
    if at < first {
        assert(!begins_with(word.skip(at), sign));
    }
    assert(word.take(at + 1) + home + word.skip(at + 2) =~= flag + "="@ + home + "/"@ + rest);
}

/// White space parts two texts: what stands on each side of it is split as though
/// it stood alone.
pub proof fn white_space_parts_words(first: Seq<char>, gap: char, second: Seq<char>)
    requires
        white(gap),
    ensures
        words(first + seq![gap] + second) == words(first) + words(second),
{
    white_space_parts_words_from(first, seq![], gap, second);
}

proof fn white_space_parts_words_from(
    first: Seq<char>,
    read: Seq<char>,
    gap: char,
    second: Seq<char>,
)
    requires
        white(gap),
    ensures
        plain_words(first + seq![gap] + second, read) == plain_words(first, read) + words(second),
    decreases first.len(),
{
    let text = first + seq![gap] + second;
    if first.len() == 0 {
        assert(text[0] == gap);
        assert(text.drop_first() =~= second);
        assert(Seq::<Seq<char>>::empty() + words(second) =~= words(second));
    } else {
        assert(text[0] == first[0]);
        assert(text.drop_first() =~= first.drop_first() + seq![gap] + second);
        if white(first[0]) {
            white_space_parts_words_from(first.drop_first(), seq![], gap, second);
            if read.len() > 0 {
                let others = plain_words(first.drop_first(), seq![]);
                assert(seq![read] + (others + words(second)) =~= seq![read] + others + words(
                    second,
                ));
            }
        } else {
            white_space_parts_words_from(first.drop_first(), read.push(first[0]), gap, second);
        }
    }
}

/// Text that no white space parts is one word, as it stands.
pub proof fn unparted_text_is_one_word(text: Seq<char>)
    requires
        text.len() > 0,
        forall|i: int| 0 <= i < text.len() ==> !white(#[trigger] text[i]),
    ensures
        words(text) == seq![text],
{
    unbroken_text_is_a_word(text, seq![]);
    assert(Seq::<char>::empty() + text =~= text);
}

proof fn no_word_is_empty(text: Seq<char>, read: Seq<char>, i: int)
    requires
        0 <= i < plain_words(text, read).len(),
    ensures
        plain_words(text, read)[i].len() > 0,
    decreases text.len(),
{
    if text.len() > 0 {
        let rest = text.drop_first();
        if white(text[0]) {
            if read.len() == 0 {
                no_word_is_empty(rest, seq![], i);
            } else if i > 0 {
                no_word_is_empty(rest, seq![], i - 1);
            }
        } else {
            no_word_is_empty(rest, read.push(text[0]), i);
        }
    }
}

proof fn something_is_joined(list: Seq<Seq<char>>)
    requires
        list.len() > 0,
        forall|i: int| 0 <= i < list.len() ==> (#[trigger] list[i]).len() > 0,
    ensures
        joined(list).len() > 0,
{
    assert(list[0].len() > 0);
    assert(list.last() == list[list.len() - 1]);
}

/// One more word on a command line is one more word of the command that is run,
/// one space behind the rest, unless it is a field code: that changes nothing.
pub proof fn field_codes_are_left_out(
    line: &str,
    command: String,
    longer_line: &str,
    longer_command: String,
    word: Seq<char>,
)
    requires
        call_ensures(strip_field_codes, (line,), command),
        call_ensures(strip_field_codes, (longer_line,), longer_command),
        longer_line@ == line@ + seq![' '] + word,
        word.len() > 0,
        forall|i: int| 0 <= i < word.len() ==> !white(#[trigger] word[i]),
    ensures
        word.len() == 2 && word[0] == '%' && (word[1] as u32) < 128 ==> longer_command@
            == command@,
        word.len() != 2 || word[0] != '%' || (word[1] as u32) >= 128 ==> longer_command@ == (if command@.len()
            == 0 {
            word
        } else {
            command@ + seq![' '] + word
        }),
{
    let stays = |w: Seq<char>| !is_field_code(w);
    let all = words(line@);
    let kept = all.filter(stays);
    white_space_parts_words(line@, ' ', word);
    unparted_text_is_one_word(word);
    assert(all + seq![word] =~= all.push(word));
    assert(words(longer_line@) == all.push(word));
    reveal(Seq::filter);
    assert(all.push(word).drop_last() =~= all);
    assert(all.push(word).last() == word);
    assert(command@ == joined(kept));
    if !is_field_code(word) {
        assert(all.push(word).filter(stays) == kept.push(word));
        assert(longer_command@ == joined(kept.push(word)));
        assert(kept.push(word).drop_last() =~= kept);
        if kept.len() > 0 {
            assert forall|i: int| 0 <= i < kept.len() implies (#[trigger] kept[i]).len() > 0 by {
                assert(kept.contains(kept[i]));
                all.lemma_filter_contains_rev(stays, kept[i]);
                let at = choose|k: int| 0 <= k < all.len() && all[k] == kept[i];
                no_word_is_empty(line@, seq![], at);
            }
            something_is_joined(kept);
        }
    }
}

} // verus!
