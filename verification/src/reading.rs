//! What reading gives back of a document that was written: the address,
//! the status, the identifier and the kind of the message, and its text
//! and its files where the document keeps them apart.
use vstd::prelude::*;

use crate::clock::{shown, Timestamp, MINUTE_FORMAT};
use crate::communication::{
    cuts_cleanly, declared_id, declared_status, document, document_head, document_tail,
    file_items, files_section, first_id, first_status, frame_reads_back, head_lines, id_line,
    instant_line, kind_line, lemma_address_round_trip, line_id, line_status, mailbox_name,
    parsed_message, status_from_word, status_line, status_sign, title_line, type_heading,
};
use crate::frame::{
    after_lines, closing_lines, files_heading, framed_parts, head_length, heading_kind, is_head,
    last_item, line_start, section_split, strip_items, without_closing,
};
use crate::ident::{uuid_parsed, uuid_text};
use crate::text::{
    ascii_lowercase, ends_with_text, first_word, is_blank, is_single_line, joined,
    lemma_leading_blanks, lemma_newline_pos, lemma_split_joined, lemma_trailing_blanks,
    lemma_word_len, mark, split_lines, starts_with_text, strip_cr, stripped, trim_blanks,
};
use crate::types::{
    agent_display_text, message_status_name, AgentMessageView, AgentType, MessageStatus,
    MessageType,
};

verus! {

/// The status that the first of the lines to give one gives, told from
/// the lines before it.
pub proof fn lemma_first_status_at(lines: Seq<Seq<char>>, k: int, status: MessageStatus)
    requires
        0 <= k < lines.len(),
        forall|j: int| 0 <= j < k ==> line_status(#[trigger] lines[j]) is None,
        line_status(lines[k]) == Some(status),
    ensures
        first_status(lines) == Some(status),
    decreases lines.len(),
{
    if k > 0 {
        let rest = lines.drop_first();
        assert forall|j: int| 0 <= j < k - 1 implies line_status(#[trigger] rest[j]) is None by {
            assert(rest[j] == lines[j + 1]);
        }
        assert(rest[k - 1] == lines[k]);
        lemma_first_status_at(rest, k - 1, status);
    }
}

/// The identifier that the lines give is that of the first line that is
/// marked as the line of the identifier and can be read, or none where
/// that line cannot be read and no later line gives one.
pub proof fn lemma_first_id_at(lines: Seq<Seq<char>>, k: int)
    requires
        0 <= k < lines.len(),
        forall|j: int| 0 <= j < k ==> line_id(#[trigger] lines[j]) is None,
        line_id(lines[k]) is Some,
    ensures
        first_id(lines) == line_id(lines[k]),
    decreases lines.len(),
{
    if k > 0 {
        let rest = lines.drop_first();
        assert forall|j: int| 0 <= j < k - 1 implies line_id(#[trigger] rest[j]) is None by {
            assert(rest[j] == lines[j + 1]);
        }
        assert(rest[k - 1] == lines[k]);
        lemma_first_id_at(rest, k - 1);
    }
}

/// Whether a text is one word: not empty, without blanks, line breaks and
/// carriage returns.
pub open spec fn is_word_text(s: Seq<char>) -> bool {
    &&& s.len() > 0
    &&& forall|i: int|
        0 <= i < s.len() ==> !is_blank(#[trigger] s[i]) && s[i] != '\n' && s[i] != '\r'
}

/// The name of every status is a word, and its small letters name the
/// status.
pub proof fn lemma_status_name(status: MessageStatus)
    ensures
        is_word_text(message_status_name(status)),
        status_from_word(ascii_lowercase(message_status_name(status))) == Some(status),
{
    reveal_strlit("Pending");
    reveal_strlit("Read");
    reveal_strlit("Processed");
    reveal_strlit("Archived");
    reveal_strlit("pending");
    reveal_strlit("read");
    reveal_strlit("processed");
    reveal_strlit("archived");
    assert(mark("pending"@) == (7nat, 'p', 'g'));
    assert(mark("read"@) == (4nat, 'r', 'd'));
    assert(mark("processed"@) == (9nat, 'p', 'd'));
    assert(mark("archived"@) == (8nat, 'a', 'd'));
    assert(ascii_lowercase("Pending"@) =~= "pending"@);
    assert(ascii_lowercase("Read"@) =~= "read"@);
    assert(ascii_lowercase("Processed"@) =~= "processed"@);
    assert(ascii_lowercase("Archived"@) =~= "archived"@);
}

/// The sign of every status is a word.
pub proof fn lemma_status_sign(status: MessageStatus)
    ensures
        is_word_text(status_sign(status)),
{
    reveal_strlit("⏳");
    reveal_strlit("👀");
    reveal_strlit("✅");
    reveal_strlit("📁");
}

/// The text of an identifier is a word of 36 characters.
pub proof fn lemma_uuid_text_is_word(id: u128)
    ensures
        is_word_text(uuid_text(id)),
        uuid_text(id).len() == 36,
{
}

/// The heading of every kind of message begins with `#`, holds no line
/// break and ends with a letter.
pub proof fn lemma_type_heading(kind: MessageType)
    ensures
        is_single_line(type_heading(kind)),
        type_heading(kind).len() > 0,
        type_heading(kind)[0] == '#',
{
    reveal_strlit("## Handoff");
    reveal_strlit("## Question");
    reveal_strlit("## Status Update");
    reveal_strlit("## Task Complete");
    reveal_strlit("## Blocker Report");
    reveal_strlit("## Context Share");
    reveal_strlit("## Assignment");
}

/// The name under which an agent is shown holds no line break.
pub proof fn lemma_display_name(agent: AgentType)
    ensures
        is_single_line(agent_display_text(agent)),
{
    reveal_strlit("Analyst");
    reveal_strlit("Architect");
    reveal_strlit("Product Manager");
    reveal_strlit("Product Owner");
    reveal_strlit("Scrum Master");
    reveal_strlit("Developer");
    reveal_strlit("QA");
    reveal_strlit("UX Expert");
    reveal_strlit("BMAD Orchestrator");
}

/// A line that does not begin with `*` is no line of the metadata.
proof fn lemma_unmarked_line(line: Seq<char>)
    requires
        line.len() == 0 || line[0] != '*',
    ensures
        line_status(line) is None,
        line_id(line) is None,
{
    reveal_strlit("**Status:**");
    reveal_strlit("**Message ID:**");
    if starts_with_text(line, "**Status:**"@) {
        assert(line.subrange(0, 11)[0] == line[0]);
    }
    if starts_with_text(line, "**Message ID:**"@) {
        assert(line.subrange(0, 15)[0] == line[0]);
    }
}

/// The title of a document is one line that ends with a letter and is no
/// line of the metadata.
proof fn lemma_title_line(message: AgentMessageView)
    ensures
        is_single_line(title_line(message)),
        strip_cr(title_line(message)) == title_line(message),
        line_status(title_line(message)) is None,
        line_id(title_line(message)) is None,
{
    reveal_strlit("# ");
    reveal_strlit(" → ");
    reveal_strlit("Team");
    reveal_strlit(" Communication");
    lemma_display_name(message.from_agent);
    match message.to_agent {
        Some(agent) => {
            lemma_display_name(agent);
        },
        None => {},
    }
    let line = title_line(message);
    assert(line[0] == '#');
    assert(line.last() == 'n');
    lemma_unmarked_line(line);
}

/// The line that shows the kind of a message is one line and no line of
/// the metadata.
proof fn lemma_kind_line(message: AgentMessageView)
    ensures
        is_single_line(kind_line(message)),
        strip_cr(kind_line(message)) == kind_line(message),
        line_status(kind_line(message)) is None,
        line_id(kind_line(message)) is None,
{
    reveal_strlit(" ");
    lemma_type_heading(message.message_type);
    lemma_status_sign(message.status);
    let line = kind_line(message);
    let sign = status_sign(message.status);
    assert(line[0] == type_heading(message.message_type)[0]);
    assert(line.last() == sign.last());
    lemma_unmarked_line(line);
}

/// The line that shows the instant of a message is one line, where the
/// written instant is, and it is neither the line of the status nor that
/// of the identifier.
proof fn lemma_instant_line(message: AgentMessageView)
    requires
        is_single_line(shown(message.timestamp, MINUTE_FORMAT@)),
    ensures
        is_single_line(instant_line(message)),
        strip_cr(instant_line(message)) == instant_line(message),
        line_status(instant_line(message)) is None,
        line_id(instant_line(message)) is None,
{
    reveal_strlit("**Last Updated:** ");
    reveal_strlit("  ");
    reveal_strlit("**Status:**");
    reveal_strlit("**Message ID:**");
    let line = instant_line(message);
    assert(line.last() == ' ');
    assert(line[2] == 'L');
    if starts_with_text(line, "**Status:**"@) {
        assert(line.subrange(0, 11)[2] == line[2]);
    }
    if starts_with_text(line, "**Message ID:**"@) {
        assert(line.subrange(0, 15)[2] == line[2]);
    }
}

/// The line that shows the status of a message is one line, gives that
/// status and is not the line of the identifier.
proof fn lemma_status_line(message: AgentMessageView)
    ensures
        is_single_line(status_line(message)),
        strip_cr(status_line(message)) == status_line(message),
        line_status(status_line(message)) == Some(message.status),
        line_id(status_line(message)) is None,
{
    reveal_strlit("**Status:** ");
    reveal_strlit("**Status:**");
    reveal_strlit("**Message ID:**");
    reveal_strlit(" ");
    reveal_strlit("  ");
    lemma_status_name(message.status);
    lemma_status_sign(message.status);
    let name = message_status_name(message.status);
    let sign = status_sign(message.status);
    let line = status_line(message);
    assert(line.last() == ' ');
    assert(line[2] == 'S');
    if starts_with_text(line, "**Message ID:**"@) {
        assert(line.subrange(0, 15)[2] == line[2]);
    }
    assert(line.subrange(0, 11) =~= "**Status:**"@);
    let value = line.skip(11);
    assert(value =~= " "@ + name + " "@ + sign + "  "@);
    assert(value[0] == ' ');
    assert(value[1] == name[0]);
    lemma_leading_blanks(value, 1);
    let rest = value.skip(1);
    assert(rest =~= name + " "@ + sign + "  "@);
    assert(rest[rest.len() - 3] == sign.last());
    lemma_trailing_blanks(rest, 2);
    let trimmed = trim_blanks(value);
    assert(trimmed =~= name + " "@ + sign);
    assert forall|j: int| 0 <= j < name.len() implies !is_blank(trimmed[j]) by {
        assert(trimmed[j] == name[j]);
    }
    assert(trimmed[name.len() as int] == ' ');
    lemma_word_len(trimmed, name.len() as int);
    assert(first_word(trimmed) =~= name);
}

/// The line that shows the identifier of a message is one line and gives
/// what the text of the identifier is read as.
proof fn lemma_id_line(message: AgentMessageView)
    ensures
        is_single_line(id_line(message)),
        strip_cr(id_line(message)) == id_line(message),
        line_id(id_line(message)) == uuid_parsed(uuid_text(message.id)),
{
    reveal_strlit("**Message ID:** ");
    reveal_strlit("**Message ID:**");
    lemma_uuid_text_is_word(message.id);
    let text = uuid_text(message.id);
    let line = id_line(message);
    assert(line.last() == text.last());
    assert(line.subrange(0, 15) =~= "**Message ID:**"@);
    let value = line.skip(15);
    assert(value =~= seq![' '] + text);
    assert(value[0] == ' ');
    assert(value[1] == text[0]);
    lemma_leading_blanks(value, 1);
    let rest = value.skip(1);
    assert(rest =~= text);
    lemma_trailing_blanks(rest, 0);
    assert(trim_blanks(value) =~= text);
}

/// The lines with which a document begins are read as they were written.
proof fn lemma_head_lines(message: AgentMessageView)
    requires
        is_single_line(shown(message.timestamp, MINUTE_FORMAT@)),
    ensures
        split_lines(document(message)) == head_lines(message) + split_lines(
            message.content + document_tail(message),
        ),
{
    lemma_title_line(message);
    lemma_kind_line(message);
    lemma_instant_line(message);
    lemma_status_line(message);
    lemma_id_line(message);
    let lines = head_lines(message);
    let rest = message.content + document_tail(message);
    lemma_split_joined(lines, rest);
    assert(stripped(lines) =~= lines);
    assert(document(message) =~= joined(lines) + rest);
}

/// A document declares the status of its message and the identifier that
/// the text of its identifier is read as. This holds where the written
/// instant of the message holds no line break.
pub proof fn lemma_document_declares(message: AgentMessageView)
    requires
        is_single_line(shown(message.timestamp, MINUTE_FORMAT@)),
    ensures
        declared_status(document(message)) == Some(message.status),
        uuid_parsed(uuid_text(message.id)) is Some ==> declared_id(document(message))
            == uuid_parsed(uuid_text(message.id)),
{
    lemma_head_lines(message);
    lemma_title_line(message);
    lemma_kind_line(message);
    lemma_instant_line(message);
    lemma_status_line(message);
    lemma_id_line(message);
    let empty = Seq::<char>::empty();
    lemma_unmarked_line(empty);
    let lines = split_lines(document(message));
    let head = head_lines(message);
    assert forall|j: int| 0 <= j < 8 implies lines[j] == head[j] by {}
    lemma_first_status_at(lines, 5, message.status);
    if uuid_parsed(uuid_text(message.id)) is Some {
        lemma_first_id_at(lines, 6);
    }
}

/// A text that begins with a pattern holds the characters of the pattern.
proof fn lemma_prefix_char(line: Seq<char>, pat: Seq<char>, i: int)
    requires
        starts_with_text(line, pat),
        0 <= i < pat.len(),
    ensures
        line[i] == pat[i],
{
    assert(line.subrange(0, pat.len() as int)[i] == line[i]);
}

/// A line that begins with the heading of a kind is read as that kind,
/// whatever follows the heading.
pub proof fn lemma_heading_read(kind: MessageType, rest: Seq<char>)
    ensures
        heading_kind(type_heading(kind) + rest) == Some(kind),
{
    reveal_strlit("## Handoff");
    reveal_strlit("## Question");
    reveal_strlit("## Status Update");
    reveal_strlit("## Task Complete");
    reveal_strlit("## Blocker Report");
    reveal_strlit("## Context Share");
    reveal_strlit("## Assignment");
    let own = type_heading(kind);
    let line = own + rest;
    assert(line.subrange(0, own.len() as int) =~= own);
    assert(line[3] == own[3]);
    if starts_with_text(line, "## Handoff"@) {
        lemma_prefix_char(line, "## Handoff"@, 3);
    }
    if starts_with_text(line, "## Question"@) {
        lemma_prefix_char(line, "## Question"@, 3);
    }
    if starts_with_text(line, "## Status Update"@) {
        lemma_prefix_char(line, "## Status Update"@, 3);
    }
    if starts_with_text(line, "## Task Complete"@) {
        lemma_prefix_char(line, "## Task Complete"@, 3);
    }
    if starts_with_text(line, "## Blocker Report"@) {
        lemma_prefix_char(line, "## Blocker Report"@, 3);
    }
    if starts_with_text(line, "## Context Share"@) {
        lemma_prefix_char(line, "## Context Share"@, 3);
    }
    if starts_with_text(line, "## Assignment"@) {
        lemma_prefix_char(line, "## Assignment"@, 3);
    }
}

/// Behind as many line breaks as a text has lines at its beginning, the
/// rest of the text follows.
proof fn lemma_after_joined(lines: Seq<Seq<char>>, rest: Seq<char>)
    requires
        forall|i: int| 0 <= i < lines.len() ==> is_single_line(#[trigger] lines[i]),
    ensures
        after_lines(joined(lines) + rest, lines.len()) == Some(joined(lines).len()),
    decreases lines.len(),
{
    if lines.len() > 0 {
        let tail = lines.drop_first();
        let s = joined(lines) + rest;
        let at = lines[0].len() as int;
        assert forall|i: int| 0 <= i < tail.len() implies is_single_line(#[trigger] tail[i]) by {
            assert(tail[i] == lines[i + 1]);
        }
        lemma_after_joined(tail, rest);
        assert(s =~= lines[0] + seq!['\n'] + (joined(tail) + rest));
        assert forall|j: int| 0 <= j < at implies s[j] != '\n' by {
            assert(s[j] == lines[0][j]);
        }
        assert(s[at] == '\n');
        lemma_newline_pos(s, at);
        assert(s.skip(at + 1) =~= joined(tail) + rest);
        assert(joined(lines).len() == at + 1 + joined(tail).len());
    }
}

/// A written document begins with a head: its first eight lines have the
/// form of one, the third of them shows the kind of the message, and the
/// head ends where the text of the message begins.
proof fn lemma_document_head(message: AgentMessageView)
    requires
        is_single_line(shown(message.timestamp, MINUTE_FORMAT@)),
    ensures
        is_head(split_lines(document(message))),
        heading_kind(split_lines(document(message))[2]) == Some(message.message_type),
        head_length(document(message)) == Some(document_head(message).len()),
{
    lemma_head_lines(message);
    lemma_title_line(message);
    lemma_kind_line(message);
    lemma_instant_line(message);
    lemma_status_line(message);
    lemma_id_line(message);
    let head = head_lines(message);
    let lines = split_lines(document(message));
    let rest = message.content + document_tail(message);
    assert forall|j: int| 0 <= j < 8 implies lines[j] == head[j] by {}
    reveal_strlit("# ");
    reveal_strlit("**Last Updated:**");
    reveal_strlit("**Last Updated:** ");
    reveal_strlit("**Status:**");
    reveal_strlit("**Status:** ");
    reveal_strlit("**Message ID:**");
    reveal_strlit("**Message ID:** ");
    assert(title_line(message).subrange(0, 2) =~= "# "@);
    assert(instant_line(message).subrange(0, 17) =~= "**Last Updated:**"@);
    assert(status_line(message).subrange(0, 11) =~= "**Status:**"@);
    assert(id_line(message).subrange(0, 15) =~= "**Message ID:**"@);
    let behind = " "@ + status_sign(message.status);
    assert(kind_line(message) =~= type_heading(message.message_type) + behind);
    lemma_heading_read(message.message_type, behind);
    assert(is_head(lines));
    lemma_after_joined(head, rest);
    assert(document(message) =~= joined(head) + rest);
}

/// Where a line begins, told from the line break before it.
proof fn lemma_line_start(t: Seq<char>, end: int, s: int)
    requires
        0 <= s <= end <= t.len(),
        forall|j: int| s <= j < end ==> t[j] != '\n',
        s == 0 || t[s - 1] == '\n',
    ensures
        line_start(t, end) == s,
    decreases end - s,
{
    if end > s {
        lemma_line_start(t, end - 1, s);
    }
}

/// A text that ends with the list item of a file is read as ending with
/// that file.
proof fn lemma_last_item_written(before: Seq<char>, file: Seq<char>)
    requires
        before.len() == 0 || before.last() == '\n',
        is_single_line(file),
    ensures
        last_item(before + "- `"@ + file + "`\n"@) == Some(file),
        (before + "- `"@ + file + "`\n"@).len() == before.len() + file.len() + 5,
        (before + "- `"@ + file + "`\n"@).last() == '\n',
{
    reveal_strlit("- `");
    reveal_strlit("`\n");
    let t = before + "- `"@ + file + "`\n"@;
    let n = before.len() as int;
    let stop = t.len() - 1;
    assert forall|j: int| n <= j < stop implies t[j] != '\n' by {
        if j < n + 3 {
            assert(t[j] == "- `"@[j - n]);
        } else if j < n + 3 + file.len() {
            assert(t[j] == file[j - n - 3]);
        } else {
            assert(t[j] == "`\n"@[0]);
        }
    }
    if n > 0 {
        assert(t[n - 1] == before.last());
    }
    lemma_line_start(t, stop, n);
    let line = t.subrange(n, stop);
    assert(line[0] == '-');
    assert(line[1] == ' ');
    assert(line[2] == '`');
    assert(line.last() == '`');
    assert(line.subrange(3, line.len() - 1) =~= file);
}

/// A text that ends with the written list items of files is read as
/// ending with those files, behind what the text before them ends with.
proof fn lemma_strip_written(base: Seq<char>, files: Seq<Seq<char>>)
    requires
        base.len() == 0 || base.last() == '\n',
        forall|i: int| 0 <= i < files.len() ==> is_single_line(#[trigger] files[i]),
    ensures
        strip_items(base + file_items(files)).0 == strip_items(base).0,
        strip_items(base + file_items(files)).1 == strip_items(base).1 + files,
        files.len() > 0 ==> (base + file_items(files)).last() == '\n',
    decreases files.len(),
{
    if files.len() == 0 {
        assert(base + file_items(files) =~= base);
        assert(strip_items(base).1 + files =~= strip_items(base).1);
    } else {
        let prev = files.drop_last();
        let file = files.last();
        assert forall|i: int| 0 <= i < prev.len() implies is_single_line(#[trigger] prev[i]) by {
            assert(prev[i] == files[i]);
        }
        lemma_strip_written(base, prev);
        let before = base + file_items(prev);
        if prev.len() == 0 {
            assert(before =~= base);
        }
        lemma_last_item_written(before, file);
        let t = before + "- `"@ + file + "`\n"@;
        assert(base + file_items(files) =~= t);
        assert(t.take(t.len() - file.len() - 5) =~= before);
        assert(strip_items(t).1 == strip_items(before).1.push(file));
        assert(strip_items(before).1.push(file) =~= strip_items(base).1 + files);
    }
}

/// The heading of the list of referenced files is no list item: a text
/// that ends with it ends with no item.
proof fn lemma_heading_is_no_item(body: Seq<char>)
    ensures
        strip_items(body + files_heading()) == (body + files_heading(), Seq::<Seq<char>>::empty()),
        (body + files_heading()).last() == '\n',
        ends_with_text(body + files_heading(), files_heading()),
{
    reveal_strlit("\n\n### Referenced Files\n");
    let heading = files_heading();
    let base = body + heading;
    let n = body.len() as int;
    assert(heading.len() == 23);
    assert forall|j: int| n + 2 <= j < n + 22 implies base[j] != '\n' by {
        assert(base[j] == heading[j - n]);
    }
    assert(base[n + 1] == heading[1]);
    lemma_line_start(base, n + 22, n + 2);
    let line = base.subrange(n + 2, n + 22);
    assert(line[0] == heading[2]);
    assert(last_item(base) is None);
    assert(base.subrange(n, n + 23) =~= heading);
}

/// The frame of a written document gives the message back: always its
/// kind, and its text and its files where they can be told apart. This
/// holds where the written instant of the message holds no line break.
pub proof fn lemma_document_frame(message: AgentMessageView)
    requires
        is_single_line(shown(message.timestamp, MINUTE_FORMAT@)),
    ensures
        frame_reads_back(message),
{
    lemma_document_head(message);
    reveal_strlit("\n\n---\n*Generated by BMAD Desktop*\n");
    let text = document(message);
    let files = message.files_referenced;
    let start = document_head(message).len() as int;
    let rest = text.skip(start);
    let inner = message.content + files_section(files);
    let closing = closing_lines();
    assert(rest =~= inner + closing);
    assert(rest.subrange(rest.len() - closing.len(), rest.len() as int) =~= closing);
    assert(ends_with_text(rest, closing));
    assert(without_closing(rest) =~= inner);
    if cuts_cleanly(message) {
        if files.len() == 0 {
            assert(inner =~= message.content);
            assert(files =~= Seq::<Seq<char>>::empty());
        } else {
            let base = message.content + files_heading();
            lemma_heading_is_no_item(message.content);
            lemma_strip_written(base, files);
            assert(inner =~= base + file_items(files));
            assert(Seq::<Seq<char>>::empty() + files =~= files);
            assert(strip_items(inner).0 == base);
            assert(strip_items(inner).1 == files);
            assert(inner.take(message.content.len() as int) =~= message.content);
        }
    }
}

/// A message whose files bear names of one line each, and whose text is
/// empty or does not end with a line break, can be told apart again in
/// its document.
pub proof fn lemma_open_text_cuts_cleanly(message: AgentMessageView)
    requires
        forall|i: int|
            0 <= i < message.files_referenced.len() ==> is_single_line(
                #[trigger] message.files_referenced[i],
            ),
        message.content.len() == 0 || message.content.last() != '\n',
    ensures
        cuts_cleanly(message),
{
    assert(last_item(message.content) is None);
    assert(strip_items(message.content).1.len() == 0);
}

/// A line begins at or before the offset at which it ends.
proof fn lemma_line_start_bounds(t: Seq<char>, end: int)
    requires
        0 <= end,
    ensures
        0 <= line_start(t, end) <= end,
    decreases end,
{
    if end > 0 && t[end - 1] != '\n' {
        lemma_line_start_bounds(t, end - 1);
    }
}

/// A text is what is left of it without the list items at its end,
/// followed by the written items of the files that those name.
proof fn lemma_strip_rebuilds(t: Seq<char>)
    ensures
        t == strip_items(t).0 + file_items(strip_items(t).1),
    decreases t.len(),
{
    match last_item(t) {
        Some(file) => {
            if file.len() + 5 <= t.len() {
                reveal_strlit("- `");
                reveal_strlit("`\n");
                let stop = t.len() - 1;
                lemma_line_start_bounds(t, stop);
                let s = line_start(t, stop);
                let line = t.subrange(s, stop);
                assert(file == line.subrange(3, line.len() - 1));
                assert(s == t.len() - file.len() - 5);
                let before = t.take(s);
                let item = "- `"@ + file + "`\n"@;
                assert(t.subrange(s, t.len() as int) =~= item) by {
                    assert(t[s] == line[0]);
                    assert(t[s + 1] == line[1]);
                    assert(t[s + 2] == line[2]);
                    assert(t[stop - 1] == line.last());
                    assert forall|k: int| 0 <= k < file.len() implies t[s + 3 + k] == file[k] by {
                        assert(file[k] == line[3 + k]);
                    }
                }
                assert(t =~= before + item);
                lemma_strip_rebuilds(before);
                let parts = strip_items(before);
                let files = parts.1.push(file);
                assert(files.drop_last() =~= parts.1);
                assert(file_items(files) =~= file_items(parts.1) + item);
                assert(t =~= parts.0 + file_items(files));
            } else {
                assert(t =~= t + file_items(Seq::empty()));
            }
        },
        None => {
            assert(t =~= t + file_items(Seq::empty()));
        },
    }
}

/// A line holds no line break.
proof fn lemma_line_is_single(t: Seq<char>, end: int)
    requires
        0 <= end <= t.len(),
    ensures
        forall|j: int| line_start(t, end) <= j < end ==> t[j] != '\n',
    decreases end,
{
    if end > 0 && t[end - 1] != '\n' {
        lemma_line_is_single(t, end - 1);
    }
}

/// The files that list items name bear names of one line each.
proof fn lemma_items_are_single_lines(t: Seq<char>)
    ensures
        forall|i: int|
            0 <= i < strip_items(t).1.len() ==> is_single_line(#[trigger] strip_items(t).1[i]),
    decreases t.len(),
{
    match last_item(t) {
        Some(file) => {
            if file.len() + 5 <= t.len() {
                let stop = t.len() - 1;
                lemma_line_start_bounds(t, stop);
                lemma_line_is_single(t, stop);
                let s = line_start(t, stop);
                let line = t.subrange(s, stop);
                assert forall|k: int| 0 <= k < file.len() implies file[k] != '\n' by {
                    assert(file[k] == line[3 + k]);
                    assert(line[3 + k] == t[s + 3 + k]);
                }
                let before = t.take(t.len() - file.len() - 5);
                lemma_items_are_single_lines(before);
                let files = strip_items(t).1;
                assert forall|i: int| 0 <= i < files.len() implies is_single_line(
                    #[trigger] files[i],
                ) by {
                    if i < files.len() - 1 {
                        assert(files[i] == strip_items(before).1[i]);
                    }
                }
            }
        },
        None => {},
    }
}

/// Why the name of a file with a line break in it cannot be read back:
/// whatever the text, the files that are read from the frame of a
/// document bear names of one line each.
pub proof fn lemma_read_files_are_single_lines(text: Seq<char>)
    ensures
        framed_parts(text) matches Some(frame) ==> forall|i: int|
            0 <= i < frame.files.len() ==> is_single_line(#[trigger] frame.files[i]),
{
    match head_length(text) {
        Some(start) => {
            lemma_items_are_single_lines(without_closing(text.skip(start as int)));
        },
        None => {},
    }
}

/// Why a text that ends with a list of referenced files cannot be told
/// apart: a message without files whose text ends with such a list has
/// the document of another message, the one with the text before the list
/// and with the files of the list.
pub proof fn lemma_listed_text_is_ambiguous(message: AgentMessageView)
    requires
        message.files_referenced.len() == 0,
        section_split(message.content) is Some,
    ensures
        ({
            let found = section_split(message.content)->0;
            let other = AgentMessageView {
                content: message.content.take(found.0 as int),
                files_referenced: found.1,
                ..message
            };
            &&& other.files_referenced.len() > 0
            &&& other.content.len() < message.content.len()
            &&& document(other) == document(message)
        }),
{
    reveal_strlit("\n\n### Referenced Files\n");
    let content = message.content;
    let found = section_split(content)->0;
    let other = AgentMessageView {
        content: content.take(found.0 as int),
        files_referenced: found.1,
        ..message
    };
    let parts = strip_items(content);
    lemma_strip_rebuilds(content);
    let heading = files_heading();
    let kept = parts.0;
    assert(kept =~= kept.take(found.0 as int) + heading) by {
        assert(kept.subrange(kept.len() - heading.len(), kept.len() as int) == heading);
    }
    assert(content.take(found.0 as int) =~= kept.take(found.0 as int));
    assert(content =~= other.content + heading + file_items(found.1));
    assert(head_lines(other) == head_lines(message));
    assert(document(other) =~= document(message));
}

/// What reading gives back of the document of a message, saved under the
/// name of its slot: the sender, the recipient, the status and the kind
/// of the message; the identifier that the text of the identifier is read
/// as; and the text and the files of the message, where they can be told
/// apart in the document. This holds where the written instant of the
/// message holds no line break, whatever identifier and instant stand in
/// for what a document does not declare.
pub proof fn lemma_message_round_trip(message: AgentMessageView, fresh: u128, now: Timestamp)
    requires
        is_single_line(shown(message.timestamp, MINUTE_FORMAT@)),
    ensures
        ({
            let name = mailbox_name(message.from_agent, message.to_agent);
            let back = parsed_message(name, document(message), fresh, now);
            &&& back is Ok
            &&& back->Ok_0.from_agent == message.from_agent
            &&& back->Ok_0.to_agent == message.to_agent
            &&& back->Ok_0.status == message.status
            &&& back->Ok_0.message_type == message.message_type
            &&& uuid_parsed(uuid_text(message.id)) == Some(message.id) ==> back->Ok_0.id
                == message.id
            &&& cuts_cleanly(message) ==> back->Ok_0.content == message.content
                && back->Ok_0.files_referenced == message.files_referenced
        }),
{
    lemma_address_round_trip(message.from_agent, message.to_agent);
    lemma_document_declares(message);
    lemma_document_frame(message);
}

} // verus!
