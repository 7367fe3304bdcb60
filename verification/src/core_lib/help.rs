//! Help texts for a module, read from the module's documentation.
//!
//! The documentation is a Markdown text. Its first line is a header with the
//! module's name, `# name`, and what follows up to the next header of that
//! level is the help text of the module itself. Behind that, each header of
//! the second level, `## name`, starts the help text of an item of the module.

use crate::text::string_chars;
use crate::value::{MetaKey, ValueMap, ValueView};
use crate::value_map::{with_help, with_meta};
use vstd::prelude::*;
use vstd::string::*;

verus! {

/// The position of the first line feed at or behind `from`; the length of
/// the text where there is none.
pub open spec fn line_end(text: Seq<char>, from: int) -> int
    decreases text.len() - from,
{
    if from >= text.len() || text[from] == '\n' {
        if from < text.len() { from } else { text.len() as int }
    } else {
        line_end(text, from + 1)
    }
}

/// The lines of `text` from the position `from` on, each as the positions of
/// its first character and behind its last. A line ends at a line feed, or at
/// a carriage return before a line feed, or with the text.
pub open spec fn line_ranges(text: Seq<char>, from: int) -> Seq<(int, int)>
    decreases text.len() - from,
{
    if from < 0 || from >= text.len() {
        seq![]
    } else {
        let end = line_end(text, from);
        let stop = if end < text.len() && end > from && text[end - 1] == '\r' {
            end - 1
        } else {
            end
        };
        if from <= end < text.len() {
            seq![(from, stop)] + line_ranges(text, end + 1)
        } else {
            seq![(from, stop)]
        }
    }
}

/// Where the first line feed is found.
pub proof fn lemma_line_end(text: Seq<char>, from: int)
    requires
        0 <= from <= text.len(),
    ensures
        from <= line_end(text, from) <= text.len(),
        line_end(text, from) < text.len() ==> text[line_end(text, from)] == '\n',
        forall|i: int| from <= i < line_end(text, from) ==> text[i] != '\n',
    decreases text.len() - from,
{
    if from < text.len() && text[from] != '\n' {
        lemma_line_end(text, from + 1);
    }
}

/// Whether `s` starts with `prefix`.
pub open spec fn starts_with(s: Seq<char>, prefix: Seq<char>) -> bool {
    s.len() >= prefix.len() && s.take(prefix.len() as int) == prefix
}

/// Whether a character is white space.
pub open spec fn is_white_space(c: char) -> bool {
    let n = c as u32;
    (0x09 <= n <= 0x0d) || n == 0x20 || n == 0x85 || n == 0xa0 || n == 0x1680 || (0x2000 <= n
        <= 0x200a) || n == 0x2028 || n == 0x2029 || n == 0x202f || n == 0x205f || n == 0x3000
}

/// The text without the white space at its end.
pub open spec fn trimmed_end(s: Seq<char>) -> Seq<char>
    decreases s.len(),
{
    if s.len() > 0 && is_white_space(s.last()) {
        trimmed_end(s.drop_last())
    } else {
        s
    }
}

/// The text without the characters `c` at its start.
pub open spec fn trimmed_start_of(s: Seq<char>, c: char) -> Seq<char>
    decreases s.len(),
{
    if s.len() > 0 && s[0] == c {
        trimmed_start_of(s.drop_first(), c)
    } else {
        s
    }
}

/// The text without the characters `c` at its end.
pub open spec fn trimmed_end_of(s: Seq<char>, c: char) -> Seq<char>
    decreases s.len(),
{
    if s.len() > 0 && s.last() == c {
        trimmed_end_of(s.drop_last(), c)
    } else {
        s
    }
}

/// The line at the position `i` of the lines `lines` of `text`.
pub open spec fn line(text: Seq<char>, lines: Seq<(int, int)>, i: int) -> Seq<char> {
    text.subrange(lines[i].0, lines[i].1)
}

/// What a line adds to a help text: nothing where it marks a block of
/// code, the line without its first character where it is a header of the
/// third level or below, else the line; and a line feed.
pub open spec fn help_line(l: Seq<char>) -> Seq<char> {
    if starts_with(l, "```"@) {
        seq![]
    } else if starts_with(l, "###"@) {
        l.skip(1) + "\n"@
    } else {
        l + "\n"@
    }
}

/// The position of the first line at or behind `from` that starts with
/// `marker`; the number of lines where there is none.
pub open spec fn section_end(
    text: Seq<char>,
    lines: Seq<(int, int)>,
    from: int,
    marker: Seq<char>,
) -> int
    decreases lines.len() - from,
{
    if from >= lines.len() {
        lines.len() as int
    } else if starts_with(line(text, lines, from), marker) {
        from
    } else {
        section_end(text, lines, from + 1, marker)
    }
}

/// What the lines from `from` up to the next line that starts with `marker`
/// add to a help text.
pub open spec fn section_text(
    text: Seq<char>,
    lines: Seq<(int, int)>,
    from: int,
    marker: Seq<char>,
) -> Seq<char>
    decreases lines.len() - from,
{
    if from >= lines.len() || starts_with(line(text, lines, from), marker) {
        seq![]
    } else {
        help_line(line(text, lines, from)) + section_text(text, lines, from + 1, marker)
    }
}

/// Whether the lines are lines of the text.
pub open spec fn lines_fit(text: Seq<char>, lines: Seq<(int, int)>) -> bool {
    forall|i: int| 0 <= i < lines.len() ==> 0 <= (#[trigger] lines[i]).0 <= lines[i].1 <= text.len()
}

/// The name of the module: what follows `# ` in the first line, without
/// backticks round it.
pub open spec fn module_name(text: Seq<char>, lines: Seq<(int, int)>) -> Seq<char> {
    trimmed_end_of(trimmed_start_of(line(text, lines, 0).skip(2), '`'), '`')
}

/// The second line, which is passed over, if there is one.
pub open spec fn behind(lines: Seq<(int, int)>, i: int) -> int {
    if i + 1 < lines.len() {
        i + 1
    } else {
        lines.len() as int
    }
}

/// The help text of the module itself.
pub open spec fn self_help(text: Seq<char>, lines: Seq<(int, int)>) -> Seq<char> {
    trimmed_end(
        line(text, lines, 0) + "\n\n"@ + section_text(text, lines, behind(lines, 1), "# "@),
    )
}

/// The help text of the item whose header is the line at the position `i`.
pub open spec fn item_help(text: Seq<char>, lines: Seq<(int, int)>, i: int) -> Seq<char> {
    trimmed_end(
        "# "@ + module_name(text, lines) + "."@ + line(text, lines, i).skip(3) + "\n\n"@
            + section_text(text, lines, behind(lines, i + 1), "## "@),
    )
}

/// The meta map `meta` after the help texts of the items whose headers stand
/// at or behind the line `from` were set.
pub open spec fn with_item_helps(
    text: Seq<char>,
    lines: Seq<(int, int)>,
    from: int,
    meta: Seq<(MetaKey, ValueView)>,
) -> Seq<(MetaKey, ValueView)>
    decreases lines.len() - from,
{
    if from < 0 || from >= lines.len() {
        meta
    } else if starts_with(line(text, lines, from), "## "@) {
        let next = section_end(text, lines, behind(lines, from + 1), "## "@);
        if from < next <= lines.len() {
            with_item_helps(
                text,
                lines,
                next,
                with_help(meta, line(text, lines, from).skip(3), item_help(text, lines, from)),
            )
        } else {
            meta
        }
    } else {
        with_item_helps(text, lines, from + 1, meta)
    }
}

/// The meta map `meta` of a module after the help texts of the documentation
/// `text` were set.
pub open spec fn with_markdown_help(
    text: Seq<char>,
    meta: Seq<(MetaKey, ValueView)>,
) -> Seq<(MetaKey, ValueView)> {
    let lines = line_ranges(text, 0);
    with_item_helps(
        text,
        lines,
        section_end(text, lines, behind(lines, 1), "# "@),
        with_meta(meta, MetaKey::SelfHelp, ValueView::Str(self_help(text, lines))),
    )
}

/// Whether `text` is the documentation of a module: whether it has a first
/// line, which starts with `# `.
pub open spec fn is_help_source(text: Seq<char>) -> bool {
    line_ranges(text, 0).len() > 0 && starts_with(
        line(text, line_ranges(text, 0), 0),
        "# "@,
    )
}

/// The position at which a search for the first line feed ends is the end of the line.
proof fn lemma_line_end_is(text: Seq<char>, from: int, end: int)
    requires
        0 <= from <= end <= text.len(),
        forall|i: int| from <= i < end ==> text[i] != '\n',
        end < text.len() ==> text[end] == '\n',
    ensures
        line_end(text, from) == end,
    decreases end - from,
{
    if from < end {
        lemma_line_end_is(text, from + 1, end);
    }
}

/// Ranges of positions as they are held, as ranges of integers.
pub open spec fn ranges(lines: Seq<(usize, usize)>) -> Seq<(int, int)> {
    Seq::new(lines.len(), |i: int| (lines[i].0 as int, lines[i].1 as int))
}

/// The lines of a text.
pub fn split_lines(text: &Vec<char>) -> (lines: Vec<(usize, usize)>)
    ensures
        ranges(lines@) == line_ranges(text@, 0),
        lines_fit(text@, ranges(lines@)),
{
    let n = text.len();
    let mut lines: Vec<(usize, usize)> = Vec::new();
    let mut from: usize = 0;
    let mut done = false;
    assert(ranges(lines@) + line_ranges(text@, 0) =~= line_ranges(text@, 0));
    while from < n && !done
        invariant
            n == text@.len(),
            from <= n,
            lines_fit(text@, ranges(lines@)),
            !done ==> line_ranges(text@, 0) == ranges(lines@) + line_ranges(text@, from as int),
            done ==> line_ranges(text@, 0) == ranges(lines@),
        decreases n - from + (if done { 0int } else { 1 }),
    {
        let mut end = from;
        while end < n && text[end] != '\n'
            invariant
                n == text@.len(),
                from <= end <= n,
                forall|i: int| from <= i < end ==> text@[i] != '\n',
            decreases n - end,
        {
            end += 1;
        }
        proof {
            lemma_line_end_is(text@, from as int, end as int);
        }
        let stop = if end < n && end > from && text[end - 1] == '\r' {
            end - 1
        } else {
            end
        };
        let ghost before = ranges(lines@);
        lines.push((from, stop));
        proof {
            assert(ranges(lines@) =~= before.push((from as int, stop as int)));
            if end < n {
                assert(ranges(lines@) + line_ranges(text@, end + 1) =~= before + line_ranges(
                    text@,
                    from as int,
                ));
            } else {
                assert(ranges(lines@) =~= before + line_ranges(text@, from as int));
            }
        }
        if end < n {
            from = end + 1;
        } else {
            done = true;
        }
    }
    proof {
        if !done {
            assert(ranges(lines@) + line_ranges(text@, from as int) =~= ranges(lines@));
        }
    }
    lines
}

/// Whether the stretch of `text` from `start` to `end` starts with `prefix`.
fn stretch_starts_with(text: &Vec<char>, start: usize, end: usize, prefix: &Vec<char>) -> (result:
    bool)
    requires
        start <= end <= text@.len(),
    ensures
        result == starts_with(text@.subrange(start as int, end as int), prefix@),
{
    let ghost s = text@.subrange(start as int, end as int);
    if end - start < prefix.len() {
        return false;
    }
    let mut i: usize = 0;
    while i < prefix.len()
        invariant
            start <= end <= text@.len(),
            prefix@.len() <= end - start,
            i <= prefix@.len(),
            s == text@.subrange(start as int, end as int),
            forall|j: int| 0 <= j < i ==> s[j] == prefix@[j],
        decreases prefix@.len() - i,
    {
        if text[start + i] != prefix[i] {
            assert(s.take(prefix@.len() as int)[i as int] != prefix@[i as int]);
            return false;
        }
        i += 1;
    }
    assert(s.take(prefix@.len() as int) =~= prefix@);
    true
}

/// Where a section ends.
pub proof fn lemma_section_end(
    text: Seq<char>,
    lines: Seq<(int, int)>,
    from: int,
    marker: Seq<char>,
)
    requires
        0 <= from <= lines.len(),
    ensures
        from <= section_end(text, lines, from, marker) <= lines.len(),
    decreases lines.len() - from,
{
    if from < lines.len() && !starts_with(line(text, lines, from), marker) {
        lemma_section_end(text, lines, from + 1, marker);
    }
}

/// Appends to `help` what the lines of `markdown` from the line `from` up to
/// the next line that starts with `end_marker` add to a help text, and
/// returns the position of that line. `text` holds the characters of
/// `markdown`, and `lines` its lines.
pub fn consume_help_section(
    markdown: &str,
    text: &Vec<char>,
    lines: &Vec<(usize, usize)>,
    from: usize,
    help: &mut String,
    end_marker: &str,
) -> (next: usize)
    requires
        text@ == markdown@,
        lines_fit(text@, ranges(lines@)),
        from <= lines@.len(),
    ensures
        next == section_end(text@, ranges(lines@), from as int, end_marker@),
        from <= next <= lines@.len(),
        final(help)@ == old(help)@ + section_text(text@, ranges(lines@), from as int, end_marker@),
{
    let marker = string_chars(end_marker);
    let code = string_chars("```");
    let header = string_chars("###");
    let ghost all = ranges(lines@);
    let mut i = from;
    let mut done = false;
    proof {
        lemma_section_end(text@, all, from as int, end_marker@);
        assert(help@ + Seq::<char>::empty() =~= help@);
    }
    while i < lines.len() && !done
        invariant
            text@ == markdown@,
            all == ranges(lines@),
            lines_fit(text@, all),
            marker@ == end_marker@,
            code@ == "```"@,
            header@ == "###"@,
            from <= i <= lines@.len(),
            section_end(text@, all, from as int, end_marker@) == section_end(
                text@,
                all,
                i as int,
                end_marker@,
            ),
            help@ + section_text(text@, all, i as int, end_marker@) == old(help)@ + section_text(
                text@,
                all,
                from as int,
                end_marker@,
            ),
            done ==> i < lines@.len() && starts_with(line(text@, all, i as int), end_marker@),
        decreases lines@.len() - i + (if done { 0int } else { 1 }),
    {
        let (start, end) = lines[i];
        assert(all[i as int] == (start as int, end as int));
        let ghost l = line(text@, all, i as int);
        if stretch_starts_with(text, start, end, &marker) {
            done = true;
        } else {
            let ghost before = help@;
            if !stretch_starts_with(text, start, end, &code) {
                if stretch_starts_with(text, start, end, &header) {
                    proof {
                        reveal_strlit("###");
                        assert(l.skip(1) =~= text@.subrange(start + 1, end as int));
                    }
                    help.append(markdown.substring_char(start + 1, end));
                } else {
                    help.append(markdown.substring_char(start, end));
                }
                help.append("\n");
            }
            proof {
                assert(help@ == before + help_line(l));
                let rest = section_text(text@, all, i + 1, end_marker@);
                assert(before + help_line(l) + rest =~= before + (help_line(l) + rest));
            }
            i += 1;
        }
    }
    assert(help@ + Seq::<char>::empty() =~= help@);
    i
}

fn char_is_white_space(c: char) -> (result: bool)
    ensures
        result == is_white_space(c),
{
    let n = c as u32;
    (0x09 <= n && n <= 0x0d) || n == 0x20 || n == 0x85 || n == 0xa0 || n == 0x1680 || (0x2000 <= n
        && n <= 0x200a) || n == 0x2028 || n == 0x2029 || n == 0x202f || n == 0x205f || n == 0x3000
}

/// The text without the white space at its end.
pub fn trim_end(text: &str) -> (trimmed: &str)
    ensures
        trimmed@ == trimmed_end(text@),
{
    let chars = string_chars(text);
    let mut end = chars.len();
    assert(chars@.take(end as int) =~= chars@);
    while end > 0 && char_is_white_space(chars[end - 1])
        invariant
            end <= chars@.len(),
            trimmed_end(chars@) == trimmed_end(chars@.take(end as int)),
        decreases end,
    {
        proof {
            let s = chars@.take(end as int);
            assert(s.last() == chars@[end - 1]);
            assert(s.drop_last() =~= chars@.take(end - 1));
        }
        end -= 1;
    }
    proof {
        let s = chars@.take(end as int);
        if end > 0 {
            assert(s.last() == chars@[end - 1]);
        }
        assert(text@.subrange(0, end as int) =~= s);
    }
    text.substring_char(0, end)
}

/// The stretch of `text` from `start` to `end` without the characters `c` at
/// its start and at its end.
fn trim_stretch(text: &Vec<char>, start: usize, end: usize, c: char) -> (trimmed: (usize, usize))
    requires
        start <= end <= text@.len(),
    ensures
        start <= trimmed.0 <= trimmed.1 <= end,
        text@.subrange(trimmed.0 as int, trimmed.1 as int) == trimmed_end_of(
            trimmed_start_of(text@.subrange(start as int, end as int), c),
            c,
        ),
{
    let mut a = start;
    while a < end && text[a] == c
        invariant
            start <= a <= end <= text@.len(),
            trimmed_start_of(text@.subrange(start as int, end as int), c) == trimmed_start_of(
                text@.subrange(a as int, end as int),
                c,
            ),
        decreases end - a,
    {
        proof {
            let s = text@.subrange(a as int, end as int);
            assert(s[0] == text@[a as int]);
            assert(s.drop_first() =~= text@.subrange(a + 1, end as int));
        }
        a += 1;
    }
    proof {
        let s = text@.subrange(a as int, end as int);
        if a < end {
            assert(s[0] == text@[a as int]);
        }
    }
    let mut b = end;
    while b > a && text[b - 1] == c
        invariant
            a <= b <= end <= text@.len(),
            trimmed_end_of(text@.subrange(a as int, end as int), c) == trimmed_end_of(
                text@.subrange(a as int, b as int),
                c,
            ),
        decreases b,
    {
        proof {
            let s = text@.subrange(a as int, b as int);
            assert(s.last() == text@[b - 1]);
            assert(s.drop_last() =~= text@.subrange(a as int, b - 1));
        }
        b -= 1;
    }
    proof {
        let s = text@.subrange(a as int, b as int);
        if b > a {
            assert(s.last() == text@[b - 1]);
        }
    }
    (a, b)
}

/// Sets the help texts of a module, and of its items, from the module's
/// documentation.
pub fn add_help_from_markdown(module: &mut ValueMap, markdown: &str)
    requires
        is_help_source(markdown@),
    ensures
        final(module)@.meta == with_markdown_help(markdown@, old(module)@.meta),
        final(module)@.entries == old(module)@.entries,
{
    // Dirt cheap markdown parsing, splitting up the help markdown by section.
    let text = string_chars(markdown);
    let lines = split_lines(&text);
    let ghost all = ranges(lines@);
    let count = lines.len();
    let (first_start, first_end) = lines[0];
    assert(all[0] == (first_start as int, first_end as int));

    let mut help = String::from_str(markdown.substring_char(first_start, first_end));
    help.append("\n\n");
    proof {
        reveal_strlit("# ");
        assert(line(text@, all, 0).skip(2) =~= text@.subrange(first_start + 2, first_end as int));
    }
    let (name_start, name_end) = trim_stretch(&text, first_start + 2, first_end, '`');
    let name = markdown.substring_char(name_start, name_end);
    assert(name@ == module_name(text@, all));

    // Skip over the line behind the header
    let body = if count > 2 {
        2
    } else {
        count
    };
    let mut i = consume_help_section(markdown, &text, &lines, body, &mut help, "# ");
    module.add_self_help(trim_end(help.as_str()));

    while i < count
        invariant
            text@ == markdown@,
            all == ranges(lines@),
            all == line_ranges(markdown@, 0),
            lines_fit(text@, all),
            count == lines@.len(),
            i <= count,
            name@ == module_name(text@, all),
            module@.entries == old(module)@.entries,
            with_markdown_help(markdown@, old(module)@.meta) == with_item_helps(
                text@,
                all,
                i as int,
                module@.meta,
            ),
        decreases count - i,
    {
        let (start, end) = lines[i];
        assert(all[i as int] == (start as int, end as int));
        let marker = string_chars("## ");
        if stretch_starts_with(&text, start, end, &marker) {
            proof {
                reveal_strlit("## ");
                assert(line(text@, all, i as int).skip(3) =~= text@.subrange(start + 3, end as int));
            }
            let item = markdown.substring_char(start + 3, end);
            let mut help = String::from_str("# ");
            help.append(name);
            help.append(".");
            help.append(item);
            help.append("\n\n");
            // Skip over the line behind the header
            let body = if count - i > 2 {
                i + 2
            } else {
                count
            };
            let next = consume_help_section(markdown, &text, &lines, body, &mut help, "## ");
            module.add_help(item, trim_end(help.as_str()));
            i = next;
        } else {
            i += 1;
        }
    }
}

} // verus!
