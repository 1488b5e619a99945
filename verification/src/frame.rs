//! The frame of a mailbox document: the eight lines of its head, the list
//! of the referenced files and the closing lines, and how a text is cut
//! along them into the kind, the text and the files of a message.
use vstd::prelude::*;
use vstd::string::StrSliceExecFns;
use vstd::string::StringExecFns;

use crate::text::{
    ends_with_text, find_char, lemma_newline_pos, line_spans, matches_at, newline_pos,
    slice_chars, split_lines, starts_with_text, texts, to_chars,
};
use crate::types::MessageType;

verus! {

/// The heading of the list of referenced files, with the empty line before
/// it.
pub open spec fn files_heading() -> Seq<char> {
    "\n\n### Referenced Files\n"@
}

/// The lines that close a document, with the empty line before them.
pub open spec fn closing_lines() -> Seq<char> {
    "\n\n---\n*Generated by BMAD Desktop*\n"@
}

/// The kind of message whose heading a line begins with.
pub open spec fn heading_kind(line: Seq<char>) -> Option<MessageType> {
    if starts_with_text(line, "## Handoff"@) {
        Some(MessageType::Handoff)
    } else if starts_with_text(line, "## Question"@) {
        Some(MessageType::Question)
    } else if starts_with_text(line, "## Status Update"@) {
        Some(MessageType::Update)
    } else if starts_with_text(line, "## Task Complete"@) {
        Some(MessageType::Completion)
    } else if starts_with_text(line, "## Blocker Report"@) {
        Some(MessageType::BlockerReport)
    } else if starts_with_text(line, "## Context Share"@) {
        Some(MessageType::ContextShare)
    } else if starts_with_text(line, "## Assignment"@) {
        Some(MessageType::Assignment)
    } else {
        None
    }
}

/// Whether lines begin with the head of a document: a title, the heading
/// of a kind, and the lines of instant, status and identifier, with empty
/// lines between and behind them.
pub open spec fn is_head(lines: Seq<Seq<char>>) -> bool {
    &&& lines.len() >= 8
    &&& starts_with_text(lines[0], "# "@)
    &&& lines[1].len() == 0
    &&& heading_kind(lines[2]) is Some
    &&& lines[3].len() == 0
    &&& starts_with_text(lines[4], "**Last Updated:**"@)
    &&& starts_with_text(lines[5], "**Status:**"@)
    &&& starts_with_text(lines[6], "**Message ID:**"@)
    &&& lines[7].len() == 0
}

/// The offset behind the first `n` line breaks of a text, if it has as
/// many.
pub open spec fn after_lines(s: Seq<char>, n: nat) -> Option<nat>
    decreases n,
{
    if n == 0 {
        Some(0)
    } else {
        let end = newline_pos(s);
        if end >= s.len() {
            None
        } else {
            match after_lines(s.skip(end as int + 1), (n - 1) as nat) {
                Some(k) => Some(end + 1 + k),
                None => None,
            }
        }
    }
}

/// The length of the head of a document, where the text begins with one.
pub open spec fn head_length(text: Seq<char>) -> Option<nat> {
    if is_head(split_lines(text)) {
        after_lines(text, 8)
    } else {
        None
    }
}

/// A text without the closing lines, where it ends with them.
pub open spec fn without_closing(rest: Seq<char>) -> Seq<char> {
    if ends_with_text(rest, closing_lines()) {
        rest.take(rest.len() - closing_lines().len())
    } else {
        rest
    }
}

/// Where the line begins that ends before the offset `end` of a text.
pub open spec fn line_start(t: Seq<char>, end: int) -> int
    decreases end,
{
    if end <= 0 {
        0
    } else if t[end - 1] == '\n' {
        end
    } else {
        line_start(t, end - 1)
    }
}

/// The file that a line names as a list item: what stands between the
/// first backtick and the last of a line of the form `- `, backtick, name,
/// backtick.
pub open spec fn item_of(line: Seq<char>) -> Option<Seq<char>> {
    if line.len() >= 4 && line[0] == '-' && line[1] == ' ' && line[2] == '`' && line.last() == '`' {
        Some(line.subrange(3, line.len() - 1))
    } else {
        None
    }
}

/// The file that the last line of a text names as a list item, where the
/// text ends with the break of that line.
pub open spec fn last_item(t: Seq<char>) -> Option<Seq<char>> {
    if t.len() >= 1 && t.last() == '\n' {
        item_of(t.subrange(line_start(t, t.len() - 1), t.len() - 1))
    } else {
        None
    }
}

/// A text without the list items that it ends with, and the files that
/// those items name, in their order.
pub open spec fn strip_items(t: Seq<char>) -> (Seq<char>, Seq<Seq<char>>)
    decreases t.len(),
{
    match last_item(t) {
        Some(file) => if file.len() + 5 <= t.len() {
            let before = strip_items(t.take(t.len() - file.len() - 5));
            (before.0, before.1.push(file))
        } else {
            (t, Seq::empty())
        },
        None => (t, Seq::empty()),
    }
}

/// Where the list of referenced files begins with which a text ends, and
/// the files of that list: the text ends with the heading of the list and
/// one list item or more.
pub open spec fn section_split(inner: Seq<char>) -> Option<(nat, Seq<Seq<char>>)> {
    let parts = strip_items(inner);
    if parts.1.len() > 0 && ends_with_text(parts.0, files_heading()) {
        Some(((parts.0.len() - files_heading().len()) as nat, parts.1))
    } else {
        None
    }
}

/// What the frame of a document holds: the kind of the message, its text
/// and the files that it refers to.
pub struct Frame {
    pub kind: MessageType,
    pub body: String,
    pub files: Vec<String>,
}

/// The mathematical value of a frame.
pub ghost struct FrameView {
    pub kind: MessageType,
    pub body: Seq<char>,
    pub files: Seq<Seq<char>>,
}

impl View for Frame {
    type V = FrameView;

    open spec fn view(&self) -> FrameView {
        FrameView { kind: self.kind, body: self.body@, files: texts(self.files@) }
    }
}

/// What is read from a text that begins with the head of a document: the
/// kind from the heading, the files from the list of referenced files
/// that the text ends with, before the closing lines, and as text of the
/// message what stands between the head and that list or those lines.
/// `None` for a text that does not begin with such a head.
pub open spec fn framed_parts(text: Seq<char>) -> Option<FrameView> {
    match head_length(text) {
        Some(start) => {
            let inner = without_closing(text.skip(start as int));
            let kind = heading_kind(split_lines(text)[2])->0;
            match section_split(inner) {
                Some((length, files)) => Some(
                    FrameView { kind, body: inner.take(length as int), files },
                ),
                None => Some(FrameView { kind, body: inner, files: Seq::empty() }),
            }
        },
        None => None,
    }
}

fn begins(line: &Vec<char>, pat: &str) -> (b: bool)
    ensures
        b == starts_with_text(line@, pat@),
{
    let p = to_chars(pat);
    matches_at(line, 0, &p)
}

/// The kind of message whose heading a line begins with.
pub fn read_heading(line: &Vec<char>) -> (kind: Option<MessageType>)
    ensures
        kind == heading_kind(line@),
{
    if begins(line, "## Handoff") {
        Some(MessageType::Handoff)
    } else if begins(line, "## Question") {
        Some(MessageType::Question)
    } else if begins(line, "## Status Update") {
        Some(MessageType::Update)
    } else if begins(line, "## Task Complete") {
        Some(MessageType::Completion)
    } else if begins(line, "## Blocker Report") {
        Some(MessageType::BlockerReport)
    } else if begins(line, "## Context Share") {
        Some(MessageType::ContextShare)
    } else if begins(line, "## Assignment") {
        Some(MessageType::Assignment)
    } else {
        None
    }
}

/// The kind that the head of a text shows, where the text begins with the
/// head of a document.
pub fn head_kind(chars: &Vec<char>) -> (kind: Option<MessageType>)
    ensures
        is_head(split_lines(chars@)) ==> kind == heading_kind(split_lines(chars@)[2]),
        !is_head(split_lines(chars@)) ==> kind is None,
{
    let spans = line_spans(chars);
    if spans.len() < 8 {
        return None;
    }
    let (a0, b0) = spans[0];
    let (a1, b1) = spans[1];
    let (a2, b2) = spans[2];
    let (a3, b3) = spans[3];
    let (a4, b4) = spans[4];
    let (a5, b5) = spans[5];
    let (a6, b6) = spans[6];
    let (a7, b7) = spans[7];
    if a1 != b1 || a3 != b3 || a7 != b7 {
        return None;
    }
    let title = slice_chars(chars, a0, b0);
    let heading = slice_chars(chars, a2, b2);
    let instant = slice_chars(chars, a4, b4);
    let status = slice_chars(chars, a5, b5);
    let id = slice_chars(chars, a6, b6);
    if begins(&title, "# ") && begins(&instant, "**Last Updated:**") && begins(
        &status,
        "**Status:**",
    ) && begins(&id, "**Message ID:**") {
        read_heading(&heading)
    } else {
        None
    }
}

/// The offset behind the first `n` line breaks of a text, if it has as
/// many.
pub fn skip_lines(hay: &Vec<char>, n: usize) -> (found: Option<usize>)
    ensures
        found is Some ==> found->0 <= hay@.len(),
        match found {
            Some(at) => after_lines(hay@, n as nat) == Some(at as nat),
            None => after_lines(hay@, n as nat) is None,
        },
{
    let len: usize = hay.len();
    let mut pos: usize = 0;
    let mut done: usize = 0;
    assert(hay@.skip(0) =~= hay@);
    while done < n
        invariant
            pos <= len,
            len == hay@.len(),
            done <= n,
            after_lines(hay@, n as nat) == match after_lines(
                hay@.skip(pos as int),
                (n - done) as nat,
            ) {
                Some(k) => Some((k + pos) as nat),
                None => None,
            },
        decreases n - done,
    {
        let ghost rest = hay@.skip(pos as int);
        match find_char(hay, pos, len, '\n') {
            Some(at) => {
                proof {
                    assert forall|j: int| 0 <= j < at - pos implies rest[j] != '\n' by {
                        assert(rest[j] == hay@[pos + j]);
                    }
                    assert(rest[at - pos] == hay@[at as int]);
                    lemma_newline_pos(rest, at - pos);
                    assert(rest.skip(at - pos + 1) =~= hay@.skip(at + 1));
                }
                pos = at + 1;
                done += 1;
            },
            None => {
                proof {
                    assert forall|j: int| 0 <= j < rest.len() implies rest[j] != '\n' by {
                        assert(rest[j] == hay@[pos + j]);
                    }
                    lemma_newline_pos(rest, rest.len() as int);
                }
                return None;
            },
        }
    }
    Some(pos)
}

/// The span of the file that the line before the offset `end` names as a
/// list item, where the break of that line stands just before `end`.
fn last_item_span(inner: &Vec<char>, end: usize) -> (span: Option<(usize, usize)>)
    requires
        end <= inner@.len(),
    ensures
        match span {
            Some((a, b)) => 3 <= a <= b && b + 2 == end && last_item(inner@.take(end as int))
                == Some(inner@.subrange(a as int, b as int)),
            None => last_item(inner@.take(end as int)) is None,
        },
{
    let ghost t = inner@.take(end as int);
    if end < 1 || inner[end - 1] != '\n' {
        return None;
    }
    let stop: usize = end - 1;
    let mut s: usize = stop;
    while s > 0 && inner[s - 1] != '\n'
        invariant
            s <= stop < end <= inner@.len(),
            t == inner@.take(end as int),
            line_start(t, stop as int) == line_start(t, s as int),
        decreases s,
    {
        assert(t[s - 1] == inner@[s - 1]);
        s -= 1;
    }
    proof {
        if s > 0 {
            assert(t[s - 1] == inner@[s - 1]);
        }
        assert(line_start(t, stop as int) == s);
    }
    let ghost line = t.subrange(s as int, stop as int);
    if stop - s < 4 {
        return None;
    }
    assert(line[0] == inner@[s as int]);
    assert(line[1] == inner@[s + 1]);
    assert(line[2] == inner@[s + 2]);
    assert(line.last() == inner@[stop - 1]);
    if inner[s] != '-' || inner[s + 1] != ' ' || inner[s + 2] != '`' || inner[stop - 1] != '`' {
        return None;
    }
    assert(line.subrange(3, line.len() - 1) =~= inner@.subrange(s + 3, stop - 1));
    Some((s + 3, stop - 1))
}

/// The texts that spans cut out of a text.
pub open spec fn cut(hay: Seq<char>, spans: Seq<(usize, usize)>) -> Seq<Seq<char>> {
    Seq::new(spans.len(), |i: int| hay.subrange(spans[i].0 as int, spans[i].1 as int))
}

/// Where the list items begin that a text ends with, and the spans of the
/// files that they name, in their order.
fn item_spans(inner: &Vec<char>) -> (found: (usize, Vec<(usize, usize)>))
    ensures
        found.0 <= inner@.len(),
        strip_items(inner@).0 == inner@.take(found.0 as int),
        strip_items(inner@).1 == cut(inner@, found.1@),
        forall|i: int|
            0 <= i < found.1@.len() ==> (#[trigger] found.1@[i]).0 <= found.1@[i].1
                <= inner@.len(),
{
    let mut end: usize = inner.len();
    let mut back: Vec<(usize, usize)> = Vec::new();
    let ghost mut tail: Seq<Seq<char>> = Seq::empty();
    assert(inner@.take(end as int) =~= inner@);
    assert(strip_items(inner@).1 + tail =~= strip_items(inner@).1);
    let mut more: bool = true;
    while more
        invariant
            end <= inner@.len(),
            !more ==> last_item(inner@.take(end as int)) is None,
            strip_items(inner@).0 == strip_items(inner@.take(end as int)).0,
            strip_items(inner@).1 == strip_items(inner@.take(end as int)).1 + tail,
            back@.len() == tail.len(),
            forall|k: int|
                0 <= k < back@.len() ==> (#[trigger] back@[k]).0 <= back@[k].1 <= inner@.len()
                    && inner@.subrange(back@[k].0 as int, back@[k].1 as int) == tail[tail.len()
                    - 1 - k],
        decreases end + (if more { 1int } else { 0int }),
    {
        let ghost t = inner@.take(end as int);
        match last_item_span(inner, end) {
            Some((a, b)) => {
                let ghost file = inner@.subrange(a as int, b as int);
                proof {
                    assert(file.len() + 5 == end - (a - 3));
                    assert(t.take(t.len() - file.len() - 5) =~= inner@.take(a - 3));
                    let before = strip_items(inner@.take(a - 3));
                    assert(strip_items(t).1 == before.1.push(file));
                    assert(before.1.push(file) + tail =~= before.1 + (seq![file] + tail));
                    tail = seq![file] + tail;
                }
                back.push((a, b));
                end = a - 3;
            },
            None => {
                more = false;
            },
        }
    }
    proof {
        assert(strip_items(inner@.take(end as int)).1 =~= Seq::<Seq<char>>::empty());
        assert(strip_items(inner@).1 =~= tail);
    }
    let mut spans: Vec<(usize, usize)> = Vec::new();
    let mut k: usize = back.len();
    while k > 0
        invariant
            k <= back@.len(),
            back@.len() == tail.len(),
            spans@.len() == back@.len() - k,
            forall|i: int| 0 <= i < spans@.len() ==> spans@[i] == back@[back@.len() - 1 - i],
            forall|k: int|
                0 <= k < back@.len() ==> (#[trigger] back@[k]).0 <= back@[k].1 <= inner@.len()
                    && inner@.subrange(back@[k].0 as int, back@[k].1 as int) == tail[tail.len()
                    - 1 - k],
        decreases k,
    {
        k -= 1;
        spans.push(back[k]);
    }
    proof {
        assert forall|i: int| 0 <= i < spans@.len() implies (#[trigger] spans@[i]).0
            <= spans@[i].1 <= inner@.len() && cut(inner@, spans@)[i] == tail[i] by {
            let j = back@.len() - 1 - i;
            assert(spans@[i] == back@[j]);
        }
        assert(cut(inner@, spans@) =~= tail);
    }
    (end, spans)
}

/// What is read from a text that begins with the head of a document; see
/// `framed_parts`.
pub fn read_frame(content: &str) -> (out: Option<Frame>)
    ensures
        match out {
            Some(frame) => framed_parts(content@) == Some(frame@),
            None => framed_parts(content@) is None,
        },
{
    let chars = to_chars(content);
    let kind = match head_kind(&chars) {
        Some(kind) => kind,
        None => {
            return None;
        },
    };
    let start = match skip_lines(&chars, 8) {
        Some(start) => start,
        None => {
            return None;
        },
    };
    let rest = slice_chars(&chars, start, chars.len());
    assert(rest@ =~= content@.skip(start as int));
    let closing = to_chars("\n\n---\n*Generated by BMAD Desktop*\n");
    let inner_len: usize = if rest.len() >= closing.len() && matches_at(
        &rest,
        rest.len() - closing.len(),
        &closing,
    ) {
        rest.len() - closing.len()
    } else {
        rest.len()
    };
    let inner = slice_chars(&rest, 0, inner_len);
    assert(inner@ =~= without_closing(rest@));
    let (rem, spans) = item_spans(&inner);
    let heading = to_chars("\n\n### Referenced Files\n");
    let ghost kept = inner@.take(rem as int);
    if spans.len() > 0 && rem >= heading.len() && matches_at(&inner, rem - heading.len(), &heading) {
        let length: usize = rem - heading.len();
        assert(kept.subrange(length as int, rem as int) =~= inner@.subrange(
            length as int,
            rem as int,
        ));
        assert(ends_with_text(kept, files_heading()));
        let body = content.substring_char(start, start + length);
        assert(body@ =~= inner@.take(length as int));
        let mut files: Vec<String> = Vec::new();
        let mut i: usize = 0;
        while i < spans.len()
            invariant
                i <= spans@.len(),
                content@.len() == chars@.len(),
                chars@.len() <= usize::MAX,
                start + inner@.len() <= content@.len(),
                inner@ == content@.subrange(start as int, start + inner@.len()),
                files@.len() == i,
                forall|k: int|
                    0 <= k < spans@.len() ==> (#[trigger] spans@[k]).0 <= spans@[k].1
                        <= inner@.len(),
                forall|k: int| 0 <= k < i ==> (#[trigger] files@[k])@ == cut(inner@, spans@)[k],
            decreases spans@.len() - i,
        {
            let (a, b) = spans[i];
            assert(spans@[i as int].1 <= inner@.len());
            let file = content.substring_char(start + a, start + b);
            assert(file@ =~= inner@.subrange(a as int, b as int));
            files.push(String::from_str(file));
            i += 1;
        }
        assert(texts(files@) =~= cut(inner@, spans@));
        Some(Frame { kind, body: String::from_str(body), files })
    } else {
        proof {
            if spans@.len() > 0 && rem >= heading@.len() {
                assert(kept.subrange(rem - heading@.len(), rem as int) =~= inner@.subrange(
                    rem - heading@.len(),
                    rem as int,
                ));
            }
            assert(section_split(inner@) is None);
        }
        let body = content.substring_char(start, start + inner_len);
        assert(body@ =~= inner@);
        let files: Vec<String> = Vec::new();
        assert(texts(files@) =~= Seq::<Seq<char>>::empty());
        Some(Frame { kind, body: String::from_str(body), files })
    }
}

} // verus!
