//! The session's null sink, and whose it is.
//!
//! Applications play into a null sink of the session's own, never into the
//! machine's speakers: the desktop is being watched somewhere else, and that is
//! where its sound belongs.

use crate::apps::words::{
    push_text, split_whitespace, unparted_text_is_one_word, white_space_parts_words, words,
};
use crate::text::{
    chars_of, contains_text, decimal, decimal_reads_back, find_text, format_decimal,
    holds, is_first_place, lines, lines_of, parse_unsigned, slice_of, trim, trimmed,
    unsigned, white,
};
use vstd::prelude::*;

verus! {

/// The name of the sink that the session's applications play into.
pub open spec fn sink_argument() -> Seq<char> {
    "sink_name=webland"@
}

/// How much of the stream to send at a time. Small enough that a chunk is never
/// worth waiting to fill, large enough not to spend a protocol message on every
/// few samples.
pub const CHUNK: usize = 4096;

/// The property naming the server that owns a sink, up to its value.
pub open spec fn owner_mark() -> Seq<char> {
    "device.webland.pid="@
}

/// The session's null sink, for as long as the server runs.
#[derive(Debug)]
pub struct Sink {
    /// The id the module was given, so it can be unloaded again. A sink left
    /// behind would show up in the machine's mixer for the rest of the login.
    module: String,
}

impl Sink {
    pub closed spec fn view(&self) -> Seq<char> {
        self.module@
    }

    /// The sink whose module was given this id, as it was printed.
    pub fn loaded(output: &str) -> (sink: Self)
        ensures
            sink@ == trimmed(output@),
    {
        Sink { module: trim(output) }
    }

    /// The id to unload the sink by.
    pub fn module(&self) -> (id: &String)
        ensures
            id@ == self@,
    {
        &self.module
    }
}

/// What a sink is created with: a null sink of the session's name, with the
/// server's process id on it, so a later run can tell a sink whose server has
/// died from one that is still in use.
pub fn load_arguments(pid: u32) -> (arguments: Vec<String>)
    ensures
        arguments.deep_view() == seq![
            "load-module"@,
            "module-null-sink"@,
            sink_argument(),
            "sink_properties=device.description=Webland "@ + owner_mark() + decimal(pid as nat),
        ],
{
    let mut properties = "sink_properties=device.description=Webland ".to_owned();
    properties.append("device.webland.pid=");
    properties.append(format_decimal(pid as u64).as_str());
    let mut arguments: Vec<String> = Vec::new();
    push_text(&mut arguments, "load-module".to_owned());
    push_text(&mut arguments, "module-null-sink".to_owned());
    push_text(&mut arguments, "sink_name=webland".to_owned());
    push_text(&mut arguments, properties);
    assert(arguments.deep_view() =~= seq![
        "load-module"@,
        "module-null-sink"@,
        sink_argument(),
        "sink_properties=device.description=Webland "@ + owner_mark() + decimal(pid as nat),
    ]);
    arguments
}

/// The decimal digits at the front of a text.
pub open spec fn leading_digits(text: Seq<char>) -> Seq<char>
    decreases text.len(),
{
    if text.len() > 0 && '0' <= text[0] <= '9' {
        seq![text[0]] + leading_digits(text.drop_first())
    } else {
        seq![]
    }
}

/// The process id recorded on a sink: the digits behind the first mark.
pub open spec fn owner(module: Seq<char>) -> Option<int> {
    if holds(module, owner_mark()) {
        let at = choose|at: int| is_first_place(module, owner_mark(), at);
        unsigned(leading_digits(module.skip(at + owner_mark().len())), u32::MAX as int)
    } else {
        None
    }
}

/// The process id recorded on a sink, if it carries one.
pub fn owner_of(module: &str) -> (pid: Option<u32>)
    ensures
        match pid {
            Some(id) => owner(module@) == Some(id as int),
            None => owner(module@) is None,
        },
{
    let chars = chars_of(module);
    let mark = chars_of("device.webland.pid=");
    match find_text(&chars, &mark) {
        None => None,
        Some(at) => {
            proof {
                let first = choose|at: int| is_first_place(module@, owner_mark(), at);
                assert(is_first_place(module@, owner_mark(), at as int));
                assert(is_first_place(module@, owner_mark(), first));
                if first < at {
                    assert(!begins(module@, first));
                }
                if at < first {
                    assert(!begins(module@, at as int));
                }
            }
            assert(chars.len() == chars@.len());
            let start: usize = at + mark.len();
            let ghost rest = module@.skip(start as int);
            let mut end: usize = start;
            assert(rest.skip(0) =~= rest);
            assert(rest.take(0) + leading_digits(rest) =~= leading_digits(rest));
            while end < chars.len() && '0' <= chars[end] && chars[end] <= '9'
                invariant
                    start <= end <= chars@.len(),
                    chars@ == module@,
                    rest == module@.skip(start as int),
                    leading_digits(rest) == rest.take(end - start) + leading_digits(
                        rest.skip(end - start),
                    ),
                decreases chars@.len() - end,
            {
                proof {
                    let n = end - start;
                    assert(rest.skip(n).drop_first() =~= rest.skip(n + 1));
                    assert(rest.take(n) + (seq![rest[n]] + leading_digits(rest.skip(n + 1)))
                        =~= rest.take(n + 1) + leading_digits(rest.skip(n + 1)));
                }
                end = end + 1;
            }
            let digits = slice_of(&chars, start, end);
            assert(digits@ =~= leading_digits(rest));
            match parse_unsigned(digits.as_str(), u32::MAX as u64) {
                Some(value) => Some(value as u32),
                None => None,
            }
        },
    }
}

/// Whether the mark stands at a place.
spec fn begins(module: Seq<char>, at: int) -> bool {
    crate::text::begins_with(module.skip(at), owner_mark())
}

/// A sink says which server owns it: the process id behind the mark is read back,
/// whatever follows it.
pub proof fn a_sink_names_its_owner(module: Seq<char>, at: int, pid: u32, rest: Seq<char>)
    requires
        is_first_place(module, owner_mark(), at),
        at + owner_mark().len() <= module.len(),
        module.skip(at + owner_mark().len()) == decimal(pid as nat) + rest,
        rest.len() > 0 ==> !('0' <= rest[0] <= '9'),
    ensures
        owner(module) == Some(pid as int),
{
    let first = choose|at: int| is_first_place(module, owner_mark(), at);
    assert(is_first_place(module, owner_mark(), first));
    if first < at {
        assert(!begins(module, first));
    }
    if at < first {
        assert(!begins(module, at));
    }
    assert(crate::text::begins_with(module.skip(at), owner_mark()));
    decimal_reads_back(pid as nat);
    digits_end(decimal(pid as nat), rest);
    let digits = decimal(pid as nat);
    assert('0' <= digits[0] <= '9');
}

proof fn digits_end(digits: Seq<char>, rest: Seq<char>)
    requires
        forall|i: int| 0 <= i < digits.len() ==> '0' <= #[trigger] digits[i] <= '9',
        rest.len() > 0 ==> !('0' <= rest[0] <= '9'),
    ensures
        leading_digits(digits + rest) == digits,
    decreases digits.len(),
{
    let text = digits + rest;
    if digits.len() == 0 {
        assert(text =~= rest);
        assert(leading_digits(text) =~= digits);
    } else {
        assert(text[0] == digits[0]);
        assert(text.drop_first() =~= digits.drop_first() + rest);
        let others = digits.drop_first();
        assert forall|i: int| 0 <= i < others.len() implies '0' <= #[trigger] others[i] <= '9' by {
            assert(others[i] == digits[i + 1]);
        }
        digits_end(others, rest);
        assert(seq![digits[0]] + others =~= digits);
    }
}

/// One of the session's sinks, as the sound server lists it.
#[derive(Debug)]
pub struct Listed {
    /// The id to unload it by.
    pub module: String,
    /// The process that owns it, where it says.
    pub owner: Option<u32>,
}

/// What a [`Listed`] says.
pub type ListedView = (Seq<char>, Option<int>);

impl DeepView for Listed {
    type V = ListedView;

    open spec fn deep_view(&self) -> ListedView {
        (
            self.module@,
            match self.owner {
                Some(pid) => Some(pid as int),
                None => None,
            },
        )
    }
}

/// The sink that a line of the module list is about, where it is one of ours.
pub open spec fn listed(line: Seq<char>) -> Option<ListedView> {
    if holds(line, "module-null-sink"@) && holds(line, sink_argument()) && words(line).len() > 0 {
        Some((words(line)[0], owner(line)))
    } else {
        None
    }
}

/// The sinks that the lines of the module list are about.
pub open spec fn all_listed(list: Seq<Seq<char>>) -> Seq<ListedView>
    decreases list.len(),
{
    if list.len() == 0 {
        seq![]
    } else {
        match listed(list.last()) {
            Some(sink) => all_listed(list.drop_last()).push(sink),
            None => all_listed(list.drop_last()),
        }
    }
}

/// The session's sinks among the modules that the sound server lists.
pub fn sinks(modules: &str) -> (found: Vec<Listed>)
    ensures
        found.deep_view() == all_listed(lines(modules@)),
{
    let list = lines_of(modules);
    let ghost all = list.deep_view();
    let mut found: Vec<Listed> = Vec::new();
    let mut i: usize = 0;
    assert(found.deep_view() =~= all_listed(all.take(0)));
    while i < list.len()
        invariant
            i <= list@.len(),
            all == list.deep_view(),
            found.deep_view() == all_listed(all.take(i as int)),
        decreases list@.len() - i,
    {
        proof {
            assert(all.take(i + 1).drop_last() =~= all.take(i as int));
            assert(all.take(i + 1).last() == list@[i as int]@);
        }
        let line = list[i].as_str();
        if contains_text(line, "module-null-sink") && contains_text(line, "sink_name=webland") {
            let mut parts = split_whitespace(line);
            if parts.len() > 0 {
                let ghost before = found.deep_view();
                assert(parts.deep_view()[0] == parts@[0]@);
                let sink = Listed { module: parts.remove(0), owner: owner_of(line) };
                found.push(sink);
                assert(found.deep_view() =~= before.push(sink.deep_view()));
            }
        }
        i = i + 1;
    }
    assert(all.take(i as int) =~= all);
    found
}

/// Whether a sink is to be unloaded: its server is gone, or it does not say which
/// server that was. One whose server is still running is left alone.
pub fn is_left_behind(sink: &Listed, owner_runs: bool) -> (stale: bool)
    ensures
        stale == !(sink.owner is Some && owner_runs),
{
    !(sink.owner.is_some() && owner_runs)
}

/// Where a process is found as long as it runs.
pub fn process_path(pid: u32) -> (path: String)
    ensures
        path@ == "/proc/"@ + decimal(pid as nat),
{
    "/proc/".to_owned().concat(format_decimal(pid as u64).as_str())
}

/// A sink is known by the first word of its line, and one more line of the list
/// is one more sink, if the line is about one of the session's.
pub proof fn a_sink_is_known_by_its_first_word(
    list: Seq<Seq<char>>,
    id: Seq<char>,
    gap: char,
    rest: Seq<char>,
)
    requires
        id.len() > 0,
        forall|i: int| 0 <= i < id.len() ==> !white(#[trigger] id[i]),
        white(gap),
    ensures
        ({
            let line = id + seq![gap] + rest;
            let ours = holds(line, "module-null-sink"@) && holds(line, "sink_name=webland"@);
            &&& ours ==> all_listed(list.push(line)) == all_listed(list).push((id, owner(line)))
            &&& !ours ==> all_listed(list.push(line)) == all_listed(list)
        }),
{
    let line = id + seq![gap] + rest;
    white_space_parts_words(id, gap, rest);
    unparted_text_is_one_word(id);
    assert(words(line) == seq![id] + words(rest));
    assert(list.push(line).drop_last() =~= list);
    assert(list.push(line).last() == line);
}

/// What is unloaded is what no server answers for: a sink whose server runs is left
/// alone, and one that says nothing of its server is not.
pub proof fn a_running_servers_sink_is_left_alone(sink: Listed, owner_runs: bool, stale: bool)
    requires
        call_ensures(is_left_behind, (&sink, owner_runs), stale),
    ensures
        sink.owner is Some && owner_runs ==> !stale,
        !owner_runs ==> stale,
        sink.owner is None ==> stale,
{
}

/// A sink is created under the session's name, and the last thing it says is which
/// server created it.
pub proof fn a_new_sink_names_its_server(pid: u32, arguments: Vec<String>)
    requires
        call_ensures(load_arguments, (pid,), arguments),
    ensures
        arguments.deep_view().contains("sink_name=webland"@),
        arguments.deep_view().contains("module-null-sink"@),
        arguments@.len() > 0,
        arguments.deep_view().last().len() >= ("device.webland.pid="@ + decimal(pid as nat)).len(),
        arguments.deep_view().last().skip(
            arguments.deep_view().last().len() - ("device.webland.pid="@ + decimal(
                pid as nat,
            )).len(),
        ) == "device.webland.pid="@ + decimal(pid as nat),
{
    let all = arguments.deep_view();
    assert(all[2] == "sink_name=webland"@);
    assert(all[1] == "module-null-sink"@);
    let front = "sink_properties=device.description=Webland "@;
    let own = owner_mark() + decimal(pid as nat);
    assert(all.last() =~= front + own);
    assert((front + own).skip(front.len() as int) =~= own);
}

} // verus!
