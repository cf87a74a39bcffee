//! The desktop entry that starts the console with the session.

use vstd::prelude::*;

use crate::text;
use crate::text::chars_of;
use crate::text::eq_ignore_case;

verus! {

/// Whether a character is white space by Unicode's `White_Space` property.
pub open spec fn is_white_space(c: char) -> bool {
    let n = c as u32;
    ||| 0x09 <= n <= 0x0D
    ||| n == 0x20
    ||| n == 0x85
    ||| n == 0xA0
    ||| n == 0x1680
    ||| 0x2000 <= n <= 0x200A
    ||| n == 0x2028
    ||| n == 0x2029
    ||| n == 0x202F
    ||| n == 0x205F
    ||| n == 0x3000
}

/// `s` without the white space it starts with.
pub open spec fn trimmed_start(s: Seq<char>) -> Seq<char>
    decreases s.len(),
{
    if s.len() > 0 && is_white_space(s[0]) {
        trimmed_start(s.skip(1))
    } else {
        s
    }
}

/// `s` without the white space it ends with.
pub open spec fn trimmed_end(s: Seq<char>) -> Seq<char>
    decreases s.len(),
{
    if s.len() > 0 && is_white_space(s.last()) {
        trimmed_end(s.drop_last())
    } else {
        s
    }
}

/// `s` without the white space around it.
pub open spec fn trimmed(s: Seq<char>) -> Seq<char> {
    trimmed_end(trimmed_start(s))
}

/// The place of the first line break from `from` on, or the end.
pub open spec fn break_from(s: Seq<char>, from: int) -> int
    decreases s.len() - from,
{
    if from >= s.len() || s[from] == '\n' {
        from
    } else {
        break_from(s, from + 1)
    }
}

/// The lines of a text: what stands between its line breaks.
pub open spec fn lines_of(s: Seq<char>) -> Seq<Seq<char>>
    decreases s.len(),
{
    let n = break_from(s, 0);
    if 0 <= n < s.len() {
        seq![s.take(n)] + lines_of(s.skip(n + 1))
    } else {
        seq![s]
    }
}

/// What follows `key` in a line that starts with it.
pub open spec fn value_in(line: Seq<char>, key: Seq<char>) -> Option<Seq<char>> {
    if key.len() <= line.len() && line.take(key.len() as int) == key {
        Some(line.skip(key.len() as int))
    } else {
        None
    }
}

/// The value of the last line with `key`, white space around the line aside.
pub open spec fn last_value(lines: Seq<Seq<char>>, key: Seq<char>) -> Option<Seq<char>>
    decreases lines.len(),
{
    if lines.len() == 0 {
        None
    } else {
        match value_in(trimmed(lines.last()), key) {
            Some(value) => Some(value),
            None => last_value(lines.drop_last(), key),
        }
    }
}

/// The lines of the entry that starts `exec_path` with the session.
pub open spec fn entry_lines(exec_path: Seq<char>) -> Seq<Seq<char>> {
    seq![
        "[Desktop Entry]"@,
        "Type="@ + "Application"@,
        "Name="@ + "OpenAY Mic"@,
        "Comment=OpenAY Mic desktop console"@,
        "Exec="@ + (exec_path + " --minimized"@),
        "X-GNOME-Autostart-enabled="@ + "true"@,
        "X-KDE-autostart-after=panel"@,
        "Terminal=false"@,
    ]
}

/// Lines one after the other, each with a line break behind it.
pub open spec fn joined(lines: Seq<Seq<char>>) -> Seq<char>
    decreases lines.len(),
{
    if lines.len() == 0 {
        Seq::empty()
    } else {
        joined(lines.drop_last()) + lines.last() + "\n"@
    }
}

/// The entry that starts `exec_path` with the session.
pub open spec fn entry_text(exec_path: Seq<char>) -> Seq<char> {
    joined(entry_lines(exec_path))
}

/// The desktop entry for this program.
pub fn autostart_entry(exec_path: &str) -> (text: String)
    ensures
        text@ == entry_text(exec_path@),
{
    let ghost lines = entry_lines(exec_path@);
    let mut text = String::new();
    assert(text@ =~= joined(lines.take(0)));
    push_line(&mut text, "[Desktop Entry]", "", Ghost(lines), Ghost(0));
    push_line(&mut text, "Type=", "Application", Ghost(lines), Ghost(1));
    push_line(&mut text, "Name=", "OpenAY Mic", Ghost(lines), Ghost(2));
    push_line(&mut text, "Comment=OpenAY Mic desktop console", "", Ghost(lines), Ghost(3));
    let mut command = exec_path.to_owned();
    command.append(" --minimized");
    push_line(&mut text, "Exec=", command.as_str(), Ghost(lines), Ghost(4));
    push_line(&mut text, "X-GNOME-Autostart-enabled=", "true", Ghost(lines), Ghost(5));
    push_line(&mut text, "X-KDE-autostart-after=panel", "", Ghost(lines), Ghost(6));
    push_line(&mut text, "Terminal=false", "", Ghost(lines), Ghost(7));
    assert(lines.take(8) =~= lines);
    text
}

/// Appends line number `i`, made of a key and a value.
fn push_line(
    out: &mut String,
    key: &str,
    value: &str,
    Ghost(lines): Ghost<Seq<Seq<char>>>,
    Ghost(i): Ghost<int>,
)
    requires
        0 <= i < lines.len(),
        old(out)@ == joined(lines.take(i)),
        lines[i] == key@ + value@ || (lines[i] == key@ && value@ == ""@),
    ensures
        final(out)@ == joined(lines.take(i + 1)),
{
    out.append(key);
    out.append(value);
    out.append("\n");
    proof {
        reveal_strlit("");
        assert(lines.take(i + 1).drop_last() =~= lines.take(i));
        assert(lines.take(i + 1).last() == lines[i]);
        assert(key@ + ""@ =~= key@);
        assert(out@ =~= joined(lines.take(i)) + (key@ + value@) + "\n"@);
    }
}

/// What a desktop entry says that matters here.
#[derive(Debug, PartialEq, Eq)]
pub struct AutostartEntry {
    pub exec_line: String,
    pub name: String,
    pub enabled: bool,
}

/// An entry as the contracts see it.
pub ghost struct EntryView {
    pub exec_line: Seq<char>,
    pub name: Seq<char>,
    pub enabled: bool,
}

impl View for AutostartEntry {
    type V = EntryView;

    open spec fn view(&self) -> EntryView {
        EntryView { exec_line: self.exec_line@, name: self.name@, enabled: self.enabled }
    }
}

/// The entry in a text: the last value of each key counts. There is none unless
/// the type is `Application` and there is something to execute. Without a name
/// the name is empty; unless the entry says otherwise, it is enabled.
pub open spec fn entry_in(contents: Seq<char>) -> Option<EntryView> {
    let lines = lines_of(contents);
    match (last_value(lines, "Exec="@), last_value(lines, "Type="@)) {
        (Some(command), Some(kind)) => if text::same_ignoring_case(kind, "Application"@) {
            Some(
                EntryView {
                    exec_line: command,
                    name: match last_value(lines, "Name="@) {
                        Some(name) => name,
                        None => Seq::empty(),
                    },
                    enabled: match last_value(lines, "X-GNOME-Autostart-enabled="@) {
                        Some(flag) => text::same_ignoring_case(flag, "true"@),
                        None => true,
                    },
                },
            )
        } else {
            None
        },
        _ => None,
    }
}

/// Whether a character is white space.
fn white_space(c: char) -> (r: bool)
    ensures
        r == is_white_space(c),
{
    let n: u32 = c as u32;
    (0x09 <= n && n <= 0x0D) || n == 0x20 || n == 0x85 || n == 0xA0 || n == 0x1680 || (0x2000 <= n
        && n <= 0x200A) || n == 0x2028 || n == 0x2029 || n == 0x202F || n == 0x205F || n == 0x3000
}

/// Where the text from `from` to `to` starts and ends without the white space
/// around it.
fn trim_range(v: &Vec<char>, from: usize, to: usize) -> (r: (usize, usize))
    requires
        from <= to <= v@.len(),
    ensures
        from <= r.0 <= r.1 <= to,
        v@.subrange(r.0 as int, r.1 as int) == trimmed(v@.subrange(from as int, to as int)),
{
    let ghost whole = v@.subrange(from as int, to as int);
    let mut a: usize = from;
    while a < to && white_space(v[a])
        invariant
            from <= a <= to <= v@.len(),
            trimmed_start(whole) == trimmed_start(v@.subrange(a as int, to as int)),
        decreases to - a,
    {
        assert(v@.subrange(a as int, to as int).skip(1) =~= v@.subrange(a + 1, to as int));
        a = a + 1;
    }
    let ghost rest = v@.subrange(a as int, to as int);
    assert(trimmed_start(whole) == rest);
    let mut b: usize = to;
    while b > a && white_space(v[b - 1])
        invariant
            a <= b <= to <= v@.len(),
            trimmed_end(rest) == trimmed_end(v@.subrange(a as int, b as int)),
        decreases b - a,
    {
        assert(v@.subrange(a as int, b as int).drop_last() =~= v@.subrange(a as int, b - 1));
        b = b - 1;
    }
    (a, b)
}

/// The value behind `key`, if the text from `from` to `to` starts with it.
fn value_of(contents: &str, v: &Vec<char>, from: usize, to: usize, key: &str) -> (r: Option<
    String,
>)
    requires
        v@ == contents@,
        from <= to <= v@.len(),
    ensures
        match (r, value_in(v@.subrange(from as int, to as int), key@)) {
            (Some(s), Some(t)) => s@ == t,
            (None, None) => true,
            _ => false,
        },
{
    let k = chars_of(key);
    let ghost line = v@.subrange(from as int, to as int);
    if k.len() > to - from {
        return None;
    }
    let mut i: usize = 0;
    while i < k.len()
        invariant
            i <= k@.len() <= to - from,
            k@ == key@,
            from <= to <= v@.len(),
            line == v@.subrange(from as int, to as int),
            forall|j: int| 0 <= j < i ==> line[j] == k@[j],
        decreases k@.len() - i,
    {
        if v[from + i] != k[i] {
            assert(line.take(k@.len() as int)[i as int] != k@[i as int]);
            return None;
        }
        i = i + 1;
    }
    assert(line.take(k@.len() as int) =~= k@);
    let value = contents.substring_char(from + k.len(), to).to_owned();
    assert(value@ =~= line.skip(k@.len() as int));
    Some(value)
}

/// Reads a desktop entry.
pub fn parse_autostart(contents: &str) -> (r: Option<AutostartEntry>)
    ensures
        match (r, entry_in(contents@)) {
            (Some(e), Some(v)) => e@ == v,
            (None, None) => true,
            _ => false,
        },
{
    let v = chars_of(contents);
    let mut command: Option<String> = None;
    let mut name: Option<String> = None;
    let mut enabled: Option<bool> = None;
    let mut kind: Option<String> = None;
    let ghost mut done: Seq<Seq<char>> = Seq::empty();
    let mut start: usize = 0;
    let mut more: bool = true;
    proof {
        assert(v@.skip(0) =~= v@);
        assert(done + lines_of(v@) =~= lines_of(v@));
    }
    while more
        invariant
            v@ == contents@,
            start <= v@.len(),
            more ==> done + lines_of(v@.skip(start as int)) == lines_of(v@),
            !more ==> done == lines_of(v@),
            value_view(command) == last_value(done, "Exec="@),
            value_view(name) == last_value(done, "Name="@),
            value_view(kind) == last_value(done, "Type="@),
            flag_matches(enabled, last_value(done, "X-GNOME-Autostart-enabled="@)),
        decreases v@.len() - start + (if more {
            1int
        } else {
            0
        }),
    {
        let ghost rest = v@.skip(start as int);
        let mut end: usize = start;
        while end < v.len() && v[end] != '\n'
            invariant
                start <= end <= v@.len(),
                rest == v@.skip(start as int),
                break_from(rest, 0) == break_from(rest, end - start),
            decreases v@.len() - end,
        {
            end = end + 1;
        }
        let ghost line = v@.subrange(start as int, end as int);
        proof {
            if end < v@.len() {
                assert(rest.take(end - start) =~= line);
                assert(rest.skip(end - start + 1) =~= v@.skip(end + 1));
                assert(done + (seq![line] + lines_of(v@.skip(end + 1))) =~= done.push(line)
                    + lines_of(v@.skip(end + 1)));
            } else {
                assert(rest =~= line);
                assert(done + seq![line] =~= done.push(line));
            }
            assert(done.push(line).drop_last() =~= done);
            lemma_keys_exclude_each_other(trimmed(line));
        }
        let (a, b) = trim_range(&v, start, end);
        if let Some(value) = value_of(contents, &v, a, b, "Type=") {
            kind = Some(value);
        } else if let Some(value) = value_of(contents, &v, a, b, "Exec=") {
            command = Some(value);
        } else if let Some(value) = value_of(contents, &v, a, b, "Name=") {
            name = Some(value);
        } else if let Some(value) = value_of(contents, &v, a, b, "X-GNOME-Autostart-enabled=") {
            enabled = Some(eq_ignore_case(value.as_str(), "true"));
        }
        proof {
            done = done.push(line);
        }
        if end < v.len() {
            start = end + 1;
        } else {
            more = false;
        }
    }
    let exec_line = match command {
        Some(c) => c,
        None => {
            return None;
        },
    };
    let is_application: bool = match &kind {
        Some(kind) => eq_ignore_case(kind.as_str(), "Application"),
        None => false,
    };
    if !is_application {
        return None;
    }
    let name = match name {
        Some(name) => name,
        None => {
            let empty = String::new();
            assert(empty@ =~= Seq::<char>::empty());
            empty
        },
    };
    let enabled: bool = match enabled {
        Some(flag) => flag,
        None => true,
    };
    Some(AutostartEntry { exec_line, name, enabled })
}

/// The characters of an optional text.
pub open spec fn value_view(s: Option<String>) -> Option<Seq<char>> {
    match s {
        Some(t) => Some(t@),
        None => None,
    }
}

/// A flag that was read from a value.
pub open spec fn flag_matches(flag: Option<bool>, value: Option<Seq<char>>) -> bool {
    match (flag, value) {
        (Some(f), Some(v)) => f == text::same_ignoring_case(v, "true"@),
        (None, None) => true,
        _ => false,
    }
}

/// A line has at most one of the keys.
proof fn lemma_keys_exclude_each_other(line: Seq<char>)
    ensures
        value_in(line, "Type="@) is Some ==> {
            &&& value_in(line, "Exec="@) is None
            &&& value_in(line, "Name="@) is None
            &&& value_in(line, "X-GNOME-Autostart-enabled="@) is None
        },
        value_in(line, "Exec="@) is Some ==> {
            &&& value_in(line, "Name="@) is None
            &&& value_in(line, "X-GNOME-Autostart-enabled="@) is None
        },
        value_in(line, "Name="@) is Some ==> value_in(line, "X-GNOME-Autostart-enabled="@) is None,
{
    reveal_strlit("Type=");
    reveal_strlit("Exec=");
    reveal_strlit("Name=");
    reveal_strlit("X-GNOME-Autostart-enabled=");
    if line.len() > 0 {
        assert(forall|n: int| 0 < n <= line.len() ==> (#[trigger] line.take(n))[0] == line[0]);
        assert("Type="@[0] == 'T');
        assert("Exec="@[0] == 'E');
        assert("Name="@[0] == 'N');
        assert("X-GNOME-Autostart-enabled="@[0] == 'X');
    }
}

/// Text without white space at its ends is trimmed already.
proof fn lemma_trimmed_already(s: Seq<char>)
    requires
        s.len() > 0,
        !is_white_space(s[0]),
        !is_white_space(s.last()),
    ensures
        trimmed(s) == s,
{
}

/// What follows a key is its value.
proof fn lemma_value_follows_key(key: Seq<char>, value: Seq<char>)
    ensures
        value_in(key + value, key) == Some(value),
{
    assert((key + value).take(key.len() as int) =~= key);
    assert((key + value).skip(key.len() as int) =~= value);
}

/// A text without a line break in it.
pub open spec fn is_one_line(s: Seq<char>) -> bool {
    forall|i: int| 0 <= i < s.len() ==> s[i] != '\n'
}

proof fn lemma_break_after_line(line: Seq<char>, rest: Seq<char>, from: int)
    requires
        0 <= from <= line.len(),
        is_one_line(line),
    ensures
        break_from(line + "\n"@ + rest, from) == line.len(),
    decreases line.len() - from,
{
    reveal_strlit("\n");
    let s = line + "\n"@ + rest;
    if from < line.len() {
        assert(s[from] == line[from]);
        lemma_break_after_line(line, rest, from + 1);
    } else {
        assert(s[from] == '\n');
    }
}

/// The first line of a text is what stands before its first line break.
proof fn lemma_first_line(line: Seq<char>, rest: Seq<char>)
    requires
        is_one_line(line),
    ensures
        lines_of(line + "\n"@ + rest) == seq![line] + lines_of(rest),
{
    reveal_strlit("\n");
    let s = line + "\n"@ + rest;
    lemma_break_after_line(line, rest, 0);
    assert(s.take(line.len() as int) =~= line);
    assert(s.skip((line.len() + 1) as int) =~= rest);
}

/// Joined lines are the lines of the joined text, with an empty one at the end.
proof fn lemma_lines_of_joined(lines: Seq<Seq<char>>, rest: Seq<char>)
    requires
        forall|i: int| 0 <= i < lines.len() ==> is_one_line(#[trigger] lines[i]),
    ensures
        lines_of(joined(lines) + rest) == lines + lines_of(rest),
    decreases lines.len(),
{
    if lines.len() == 0 {
        assert(joined(lines) + rest =~= rest);
        assert(lines + lines_of(rest) =~= lines_of(rest));
    } else {
        let fewer = lines.drop_last();
        let line = lines.last();
        lemma_lines_of_joined(fewer, line + "\n"@ + rest);
        lemma_first_line(line, rest);
        assert(joined(fewer) + (line + "\n"@ + rest) =~= joined(lines) + rest);
        assert(fewer + (seq![line] + lines_of(rest)) =~= lines + lines_of(rest));
    }
}

/// None of the fixed lines of the entry holds a line break.
proof fn lemma_fixed_parts_are_one_line()
    ensures
        is_one_line("[Desktop Entry]"@),
        is_one_line("Type="@),
        is_one_line("Application"@),
        is_one_line("Name="@),
        is_one_line("OpenAY Mic"@),
        is_one_line("Comment=OpenAY Mic desktop console"@),
        is_one_line("Exec="@),
        is_one_line(" --minimized"@),
        is_one_line("X-GNOME-Autostart-enabled="@),
        is_one_line("true"@),
        is_one_line("X-KDE-autostart-after=panel"@),
        is_one_line("Terminal=false"@),
{
    reveal_strlit("[Desktop Entry]");
    reveal_strlit("Type=");
    reveal_strlit("Application");
    reveal_strlit("Name=");
    reveal_strlit("OpenAY Mic");
    reveal_strlit("Comment=OpenAY Mic desktop console");
    reveal_strlit("Exec=");
    reveal_strlit(" --minimized");
    reveal_strlit("X-GNOME-Autostart-enabled=");
    reveal_strlit("true");
    reveal_strlit("X-KDE-autostart-after=panel");
    reveal_strlit("Terminal=false");
}

/// Reading back the entry gives what it was made from, for every program path
/// on one line.
pub proof fn entry_reads_back(exec_path: Seq<char>)
    requires
        is_one_line(exec_path),
    ensures
        entry_in(entry_text(exec_path)) == Some(
            EntryView {
                exec_line: exec_path + " --minimized"@,
                name: "OpenAY Mic"@,
                enabled: true,
            },
        ),
{
    let lines = entry_lines(exec_path);
    lemma_fixed_parts_are_one_line();
    assert forall|i: int| 0 <= i < lines.len() implies is_one_line(#[trigger] lines[i]) by {
        assert(i == 0 || i == 1 || i == 2 || i == 3 || i == 4 || i == 5 || i == 6 || i == 7);
    }
    lemma_lines_of_joined(lines, Seq::empty());
    assert(joined(lines) + Seq::<char>::empty() =~= joined(lines));
    let all = lines_of(entry_text(exec_path));
    assert(lines_of(Seq::<char>::empty()) =~= seq![Seq::<char>::empty()]);
    assert(all == lines + seq![Seq::<char>::empty()]);
    lemma_values_of_entry(exec_path);
}

/// The last value of each key in the entry.
proof fn lemma_values_of_entry(exec_path: Seq<char>)
    ensures
        ({
            let all = entry_lines(exec_path) + seq![Seq::<char>::empty()];
            &&& last_value(all, "Exec="@) == Some(exec_path + " --minimized"@)
            &&& last_value(all, "Type="@) == Some("Application"@)
            &&& last_value(all, "Name="@) == Some("OpenAY Mic"@)
            &&& last_value(all, "X-GNOME-Autostart-enabled="@) == Some("true"@)
        }),
{
    let lines = entry_lines(exec_path);
    let all = lines + seq![Seq::<char>::empty()];
    reveal_strlit("[Desktop Entry]");
    reveal_strlit("Type=");
    reveal_strlit("Application");
    reveal_strlit("Name=");
    reveal_strlit("OpenAY Mic");
    reveal_strlit("Comment=OpenAY Mic desktop console");
    reveal_strlit("Exec=");
    reveal_strlit(" --minimized");
    reveal_strlit("X-GNOME-Autostart-enabled=");
    reveal_strlit("true");
    reveal_strlit("X-KDE-autostart-after=panel");
    reveal_strlit("Terminal=false");
    lemma_trimmed_already(lines[0]);
    lemma_trimmed_already(lines[1]);
    lemma_trimmed_already(lines[2]);
    lemma_trimmed_already(lines[3]);
    lemma_trimmed_already(lines[4]);
    lemma_trimmed_already(lines[5]);
    lemma_trimmed_already(lines[6]);
    lemma_trimmed_already(lines[7]);
    lemma_value_follows_key("Type="@, "Application"@);
    lemma_value_follows_key("Name="@, "OpenAY Mic"@);
    lemma_value_follows_key("Exec="@, exec_path + " --minimized"@);
    lemma_value_follows_key("X-GNOME-Autostart-enabled="@, "true"@);
    lemma_keys_exclude_each_other(lines[1]);
    lemma_keys_exclude_each_other(lines[2]);
    lemma_keys_exclude_each_other(lines[4]);
    lemma_keys_exclude_each_other(lines[5]);
    lemma_no_value(lines[3], "Exec="@, 0);
    lemma_no_value(lines[3], "Type="@, 0);
    lemma_no_value(lines[3], "Name="@, 0);
    lemma_no_value(lines[6], "Exec="@, 0);
    lemma_no_value(lines[6], "Type="@, 0);
    lemma_no_value(lines[6], "Name="@, 0);
    lemma_no_value(lines[6], "X-GNOME-Autostart-enabled="@, 2);
    lemma_no_value(lines[7], "Exec="@, 0);
    lemma_no_value(lines[7], "Type="@, 1);
    lemma_no_value(lines[7], "Name="@, 0);
    lemma_no_value(lines[7], "X-GNOME-Autostart-enabled="@, 0);
    assert(trimmed(Seq::<char>::empty()) == Seq::<char>::empty());
    lemma_last_value_steps(all, "Exec="@, 4);
    lemma_last_value_steps(all, "Type="@, 1);
    lemma_last_value_steps(all, "Name="@, 2);
    lemma_last_value_steps(all, "X-GNOME-Autostart-enabled="@, 5);
}

/// A line that differs from a key at some place does not start with it.
proof fn lemma_no_value(line: Seq<char>, key: Seq<char>, i: int)
    requires
        0 <= i < key.len(),
        i < line.len(),
        line[i] != key[i],
    ensures
        value_in(line, key) is None,
{
    if key.len() <= line.len() {
        assert(line.take(key.len() as int)[i] == line[i]);
    }
}

/// The last line with a key decides.
proof fn lemma_last_value_steps(lines: Seq<Seq<char>>, key: Seq<char>, i: int)
    requires
        0 <= i < lines.len(),
        value_in(trimmed(lines[i]), key) is Some,
        forall|j: int| i < j < lines.len() ==> value_in(trimmed(#[trigger] lines[j]), key) is None,
    ensures
        last_value(lines, key) == value_in(trimmed(lines[i]), key),
    decreases lines.len(),
{
    if lines.len() - 1 > i {
        let fewer = lines.drop_last();
        assert forall|j: int| i < j < fewer.len() implies value_in(
            trimmed(#[trigger] fewer[j]),
            key,
        ) is None by {
            assert(fewer[j] == lines[j]);
        }
        assert(fewer[i] == lines[i]);
        lemma_last_value_steps(fewer, key, i);
    }
}

/// What stands behind a line break are further lines.
proof fn lemma_lines_join(contents: Seq<char>, rest: Seq<char>)
    ensures
        lines_of(contents + "\n"@ + rest) == lines_of(contents) + lines_of(rest),
    decreases contents.len(),
{
    reveal_strlit("\n");
    let s = contents + "\n"@ + rest;
    let n = break_from(contents, 0);
    lemma_break_is_first(contents, 0);
    if n < contents.len() {
        let line = contents.take(n);
        let tail = contents.skip(n + 1);
        assert(contents =~= line + "\n"@ + tail);
        assert(s =~= line + "\n"@ + (tail + "\n"@ + rest));
        lemma_first_line(line, tail + "\n"@ + rest);
        lemma_lines_join(tail, rest);
        assert(seq![line] + (lines_of(tail) + lines_of(rest)) =~= (seq![line] + lines_of(tail))
            + lines_of(rest));
    } else {
        lemma_first_line(contents, rest);
    }
}

/// The first line break is where it is looked for, and none stands before it.
proof fn lemma_break_is_first(s: Seq<char>, from: int)
    requires
        0 <= from <= s.len(),
    ensures
        from <= break_from(s, from) <= s.len(),
        break_from(s, from) < s.len() ==> s[break_from(s, from)] == '\n',
        forall|i: int| from <= i < break_from(s, from) ==> s[i] != '\n',
    decreases s.len() - from,
{
    if from < s.len() && s[from] != '\n' {
        lemma_break_is_first(s, from + 1);
    }
}

/// A line that is added at the end decides about its key and leaves the others: an
/// entry is switched off by a last line that says so, gets another name or another
/// command by one that gives it, and is none with another type.
pub proof fn last_line_decides(contents: Seq<char>, value: Seq<char>)
    requires
        is_one_line(value),
        value.len() > 0,
        !is_white_space(value.last()),
        entry_in(contents) is Some,
    ensures
        ({
            let e = entry_in(contents)->0;
            &&& entry_in(contents + "\n"@ + ("Exec="@ + value)) == Some(
                EntryView { exec_line: value, ..e },
            )
            &&& entry_in(contents + "\n"@ + ("Name="@ + value)) == Some(
                EntryView { name: value, ..e },
            )
            &&& entry_in(contents + "\n"@ + ("X-GNOME-Autostart-enabled="@ + value)) == Some(
                EntryView { enabled: text::same_ignoring_case(value, "true"@), ..e },
            )
            &&& entry_in(contents + "\n"@ + ("Type="@ + value)) == (if text::same_ignoring_case(
                value,
                "Application"@,
            ) {
                Some(e)
            } else {
                None
            })
        }),
{
    reveal_strlit("Type=");
    reveal_strlit("Exec=");
    reveal_strlit("Name=");
    reveal_strlit("X-GNOME-Autostart-enabled=");
    assert("Type="@[0] == 'T');
    assert("Exec="@[0] == 'E');
    assert("Name="@[0] == 'N');
    assert("X-GNOME-Autostart-enabled="@[0] == 'X');
    lemma_line_added(contents, "Exec="@, value);
    lemma_line_added(contents, "Name="@, value);
    lemma_line_added(contents, "Type="@, value);
    lemma_line_added(contents, "X-GNOME-Autostart-enabled="@, value);
}

/// The last values with one more line.
proof fn lemma_line_added(contents: Seq<char>, key: Seq<char>, value: Seq<char>)
    requires
        is_one_line(value),
        value.len() > 0,
        !is_white_space(value.last()),
        key == "Exec="@ || key == "Name="@ || key == "Type="@ || key
            == "X-GNOME-Autostart-enabled="@,
    ensures
        ({
            let before = lines_of(contents);
            let after = lines_of(contents + "\n"@ + (key + value));
            &&& last_value(after, key) == Some(value)
            &&& key != "Exec="@ ==> last_value(after, "Exec="@) == last_value(before, "Exec="@)
            &&& key != "Name="@ ==> last_value(after, "Name="@) == last_value(before, "Name="@)
            &&& key != "Type="@ ==> last_value(after, "Type="@) == last_value(before, "Type="@)
            &&& key != "X-GNOME-Autostart-enabled="@ ==> last_value(
                after,
                "X-GNOME-Autostart-enabled="@,
            ) == last_value(before, "X-GNOME-Autostart-enabled="@)
        }),
{
    reveal_strlit("Type=");
    reveal_strlit("Exec=");
    reveal_strlit("Name=");
    reveal_strlit("X-GNOME-Autostart-enabled=");
    let line = key + value;
    lemma_lines_join(contents, line);
    lemma_break_is_first(line, 0);
    assert(is_one_line(line));
    assert(lines_of(line) =~= seq![line]);
    let after = lines_of(contents) + seq![line];
    assert(after.drop_last() =~= lines_of(contents));
    assert(after.last() == line);
    lemma_trimmed_already(line);
    lemma_value_follows_key(key, value);
    lemma_keys_exclude_each_other(line);
}

/// The entry that was written for a program on one line is read as what it is for:
/// this program, hidden at first, and switched on.
pub proof fn written_entries_are_read(path: &str, text: String, contents: &str, r: Option<AutostartEntry>)
    requires
        is_one_line(path@),
        call_ensures(autostart_entry, (path,), text),
        contents@ == text@,
        call_ensures(parse_autostart, (contents,), r),
    ensures
        r is Some,
        r->0@.exec_line == path@ + " --minimized"@,
        r->0@.name == "OpenAY Mic"@,
        r->0@.enabled,
{
    entry_reads_back(path@);
}

/// An entry needs a type and a command; without a name it has an empty one, and
/// without a switch it is on.
pub proof fn entries_need_a_type_and_a_command(command: Seq<char>)
    requires
        is_one_line(command),
        command.len() > 0,
        !is_white_space(command.last()),
    ensures
        entry_in("Type=Application"@ + "\n"@ + ("Exec="@ + command)) == Some(
            EntryView { exec_line: command, name: Seq::empty(), enabled: true },
        ),
        entry_in("Type=Application"@) is None,
        entry_in("Exec="@ + command) is None,
        entry_in(Seq::empty()) is None,
{
    reveal_strlit("Type=");
    reveal_strlit("Exec=");
    reveal_strlit("Name=");
    reveal_strlit("X-GNOME-Autostart-enabled=");
    reveal_strlit("Application");
    reveal_strlit("Type=Application");
    let first = "Type=Application"@;
    let second = "Exec="@ + command;
    assert(first =~= "Type="@ + "Application"@);
    lemma_one_line(first);
    lemma_one_line(second);
    lemma_one_line(Seq::empty());
    lemma_trimmed_already(first);
    lemma_trimmed_already(second);
    lemma_value_follows_key("Type="@, "Application"@);
    lemma_value_follows_key("Exec="@, command);
    lemma_no_value(first, "Exec="@, 0);
    lemma_no_value(first, "Name="@, 0);
    lemma_no_value(first, "X-GNOME-Autostart-enabled="@, 0);
    lemma_no_value(second, "Type="@, 0);
    lemma_line_added(first, "Exec="@, command);
    let one = seq![first];
    assert(one.drop_last() =~= Seq::<Seq<char>>::empty());
    let other = seq![second];
    assert(other.drop_last() =~= Seq::<Seq<char>>::empty());
    let none = seq![Seq::<char>::empty()];
    assert(none.drop_last() =~= Seq::<Seq<char>>::empty());
    assert(last_value(one.drop_last(), "Exec="@) is None);
    assert(last_value(one.drop_last(), "Name="@) is None);
    assert(last_value(one.drop_last(), "X-GNOME-Autostart-enabled="@) is None);
    assert(last_value(one, "Exec="@) is None);
    assert(last_value(one, "Name="@) is None);
    assert(last_value(one, "X-GNOME-Autostart-enabled="@) is None);
    assert(last_value(one, "Type="@) == Some("Application"@));
    assert(last_value(other.drop_last(), "Type="@) is None);
    assert(last_value(other, "Type="@) is None);
    assert(last_value(none.drop_last(), "Exec="@) is None);
    assert(last_value(none, "Exec="@) is None);
}

/// A text without a line break is one line.
proof fn lemma_one_line(line: Seq<char>)
    requires
        is_one_line(line),
    ensures
        lines_of(line) == seq![line],
{
    lemma_break_is_first(line, 0);
}

/// White space around a text does not count, and no other character is taken away.
pub proof fn white_space_around_does_not_count(s: Seq<char>, w: char)
    requires
        is_white_space(w),
    ensures
        trimmed(seq![w] + s) == trimmed(s),
        trimmed(s.push(w)) == trimmed(s),
        s.len() > 0 && !is_white_space(s[0]) && !is_white_space(s.last()) ==> trimmed(s) == s,
        trimmed(Seq::empty()).len() == 0,
        w as u32 <= 0x7F <==> w == ' ' || '\t' <= w <= '\r',
{
    assert((seq![w] + s).skip(1) =~= s);
    lemma_trailing_white_space(s, w);
}

proof fn lemma_trailing_white_space(s: Seq<char>, w: char)
    requires
        is_white_space(w),
    ensures
        trimmed(s.push(w)) == trimmed(s),
    decreases s.len(),
{
    if s.len() == 0 {
        assert(s.push(w).skip(1) =~= Seq::<char>::empty());
        assert(s =~= Seq::<char>::empty());
    } else if is_white_space(s[0]) {
        assert(s.push(w).skip(1) =~= s.skip(1).push(w));
        assert(s.push(w)[0] == s[0]);
        lemma_trailing_white_space(s.skip(1), w);
    } else {
        assert(s.push(w)[0] == s[0]);
        assert(s.push(w).drop_last() =~= s);
    }
}

/// The entry, written out.
pub proof fn entry_is_written_out(path: &str, text: String)
    requires
        call_ensures(autostart_entry, (path,), text),
    ensures
        text@ == "[Desktop Entry]"@ + "\n"@ + "Type=Application"@ + "\n"@ + "Name=OpenAY Mic"@
            + "\n"@ + "Comment=OpenAY Mic desktop console"@ + "\n"@ + "Exec="@ + path@
            + " --minimized"@ + "\n"@ + "X-GNOME-Autostart-enabled=true"@ + "\n"@
            + "X-KDE-autostart-after=panel"@ + "\n"@ + "Terminal=false"@ + "\n"@,
{
    let lines = entry_lines(path@);
    reveal_strlit("Type=Application");
    reveal_strlit("Type=");
    reveal_strlit("Application");
    reveal_strlit("Name=OpenAY Mic");
    reveal_strlit("Name=");
    reveal_strlit("OpenAY Mic");
    reveal_strlit("X-GNOME-Autostart-enabled=true");
    reveal_strlit("X-GNOME-Autostart-enabled=");
    reveal_strlit("true");
    assert("Type="@ + "Application"@ =~= "Type=Application"@);
    assert("Name="@ + "OpenAY Mic"@ =~= "Name=OpenAY Mic"@);
    assert("X-GNOME-Autostart-enabled="@ + "true"@ =~= "X-GNOME-Autostart-enabled=true"@);
    let l7 = lines.drop_last();
    let l6 = l7.drop_last();
    let l5 = l6.drop_last();
    let l4 = l5.drop_last();
    let l3 = l4.drop_last();
    let l2 = l3.drop_last();
    let l1 = l2.drop_last();
    let l0 = l1.drop_last();
    assert(l0.len() == 0);
    assert(joined(l0) =~= Seq::<char>::empty());
    assert(joined(l1) =~= "[Desktop Entry]"@ + "\n"@);
    assert(joined(l2) == joined(l1) + "Type=Application"@ + "\n"@);
    assert(joined(l3) == joined(l2) + "Name=OpenAY Mic"@ + "\n"@);
    assert(joined(l4) == joined(l3) + "Comment=OpenAY Mic desktop console"@ + "\n"@);
    assert(joined(l5) == joined(l4) + ("Exec="@ + (path@ + " --minimized"@)) + "\n"@);
    assert(joined(l4) + ("Exec="@ + (path@ + " --minimized"@)) =~= joined(l4) + "Exec="@ + path@
        + " --minimized"@);
    assert(joined(l6) == joined(l5) + "X-GNOME-Autostart-enabled=true"@ + "\n"@);
    assert(joined(l7) == joined(l6) + "X-KDE-autostart-after=panel"@ + "\n"@);
    assert(joined(lines) == joined(l7) + "Terminal=false"@ + "\n"@);
}

} // verus!
