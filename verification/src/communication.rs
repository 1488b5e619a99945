//! The mailbox: one Markdown document for each pair of sender and
//! recipient, named after the pair. This module names the documents,
//! writes them, reads them back and keeps the mailbox as a value.
use vstd::prelude::*;
use vstd::string::StrSliceExecFns;
use vstd::string::StringExecFns;

use crate::clock::{
    instant_of, pattern_instant, rfc3339_instant, shown, Timestamp, MINUTE_FORMAT,
};
use crate::frame::{framed_parts, read_frame, section_split};
use crate::ident::{is_random_layout, uuid_parsed, uuid_text};
use crate::text::{
    ascii_lowercase, char_pos, contains_text, ends_with_text, find_char, find_last_dot, find_text,
    first_at, first_word, holds, is_markdown_name, is_single_line, joined, lemma_char_pos,
    lemma_first_at, lemma_joined_push, line_spans, mark, matches_at, occurs_at, slice_chars,
    split_lines, starts_with_text, stem_of, texts, to_ascii_lowercase, to_chars, trim_blanks,
    trim_span, word_end,
};
use crate::types::{
    agent_display_text, message_status_name, AgentMessage, AgentMessageView, AgentType,
    BMadError, MessageStatus, MessageType,
};

verus! {

/// What a listing of the mailbox shows of one message.
#[derive(Debug, Clone)]
pub struct MessageMetadata {
    pub id: u128,
    pub file_path: String,
    pub from_agent: AgentType,
    pub to_agent: Option<AgentType>,
    pub last_modified: Timestamp,
    pub message_type: MessageType,
}

/// The short name of an agent role in the names of mailbox documents.
pub open spec fn agent_slug(agent: AgentType) -> Seq<char> {
    match agent {
        AgentType::Analyst => "analyst"@,
        AgentType::Architect => "architect"@,
        AgentType::ProductManager => "pm"@,
        AgentType::ProductOwner => "po"@,
        AgentType::ScrumMaster => "sm"@,
        AgentType::Developer => "dev"@,
        AgentType::QualityAssurance => "qa"@,
        AgentType::UXExpert => "ux"@,
        AgentType::BMadOrchestrator => "orchestrator"@,
    }
}

/// The name of the document that holds the current message of `from` to
/// `to`, or, without a recipient, the broadcast of `from`.
pub open spec fn mailbox_name(from: AgentType, to: Option<AgentType>) -> Seq<char> {
    match to {
        Some(recipient) => agent_slug(from) + "-to-"@ + agent_slug(recipient) + ".md"@,
        None => agent_slug(from) + "-status.md"@,
    }
}

/// The agent role that a word in small letters names: each role has a
/// short name and one or two long ones.
pub open spec fn agent_from_alias(word: Seq<char>) -> Option<AgentType> {
    if word == "analyst"@ {
        Some(AgentType::Analyst)
    } else if word == "architect"@ {
        Some(AgentType::Architect)
    } else if word == "pm"@ || word == "product-manager"@ || word == "product_manager"@ {
        Some(AgentType::ProductManager)
    } else if word == "po"@ || word == "product-owner"@ || word == "product_owner"@ {
        Some(AgentType::ProductOwner)
    } else if word == "sm"@ || word == "scrum-master"@ || word == "scrum_master"@ {
        Some(AgentType::ScrumMaster)
    } else if word == "dev"@ || word == "developer"@ {
        Some(AgentType::Developer)
    } else if word == "qa"@ || word == "quality-assurance"@ || word == "quality_assurance"@ {
        Some(AgentType::QualityAssurance)
    } else if word == "ux"@ || word == "ux-expert"@ || word == "ux_expert"@ {
        Some(AgentType::UXExpert)
    } else if word == "orchestrator"@ || word == "bmad-orchestrator"@ || word
        == "bmad_orchestrator"@ {
        Some(AgentType::BMadOrchestrator)
    } else {
        None
    }
}

/// The agent role that a name stands for, whatever the case of its ASCII
/// letters.
pub open spec fn agent_named(name: Seq<char>) -> Option<AgentType> {
    agent_from_alias(ascii_lowercase(name))
}

/// What reading fails with where a name stands for no agent.
pub open spec fn unknown_name(name: Seq<char>) -> Seq<char> {
    "Unknown agent name: "@ + name
}

/// Sender and recipient, or what the reading of a name failed with.
pub type Address = Result<(AgentType, Option<AgentType>), Seq<char>>;

/// The address of a directed message from the names of its two agents.
pub open spec fn directed_address(from: Seq<char>, to: Seq<char>) -> Address {
    match agent_named(from) {
        None => Err(unknown_name(from)),
        Some(sender) => match agent_named(to) {
            None => Err(unknown_name(to)),
            Some(recipient) => Ok((sender, Some(recipient))),
        },
    }
}

/// The address of a broadcast from the stem of its document: the name of
/// the sender, with or without `-status` behind it.
pub open spec fn broadcast_address(stem: Seq<char>) -> Address {
    if ends_with_text(stem, "-status"@) && agent_named(stem.take(stem.len() - 7)) is Some {
        Ok((agent_named(stem.take(stem.len() - 7))->0, None))
    } else {
        match agent_named(stem) {
            Some(sender) => Ok((sender, None)),
            None => Err(unknown_name(stem)),
        }
    }
}

/// The address that the stem of a document name gives: with exactly one
/// `-to-` in it, the names on its two sides; otherwise a broadcast.
pub open spec fn address_of(stem: Seq<char>) -> Address {
    match first_at(stem, "-to-"@, 0) {
        Some(i) => if first_at(stem, "-to-"@, i + 4) is None {
            directed_address(stem.take(i), stem.skip(i + 4))
        } else {
            broadcast_address(stem)
        },
        None => broadcast_address(stem),
    }
}

/// Reads and writes the mailbox documents of one project.
#[derive(Debug, Clone)]
pub struct CommunicationManager {
    project_path: String,
}

fn is_word(chars: &Vec<char>, word: &str) -> (same: bool)
    ensures
        same == (chars@ == word@),
{
    let w = to_chars(word);
    if chars.len() != w.len() {
        return false;
    }
    let same = matches_at(chars, 0, &w);
    proof {
        assert(chars@.subrange(0, chars@.len() as int) =~= chars@);
    }
    same
}

fn alias(lower: &Vec<char>) -> (agent: Option<AgentType>)
    ensures
        agent == agent_from_alias(lower@),
{
    if is_word(lower, "analyst") {
        Some(AgentType::Analyst)
    } else if is_word(lower, "architect") {
        Some(AgentType::Architect)
    } else if is_word(lower, "pm") || is_word(lower, "product-manager") || is_word(
        lower,
        "product_manager",
    ) {
        Some(AgentType::ProductManager)
    } else if is_word(lower, "po") || is_word(lower, "product-owner") || is_word(
        lower,
        "product_owner",
    ) {
        Some(AgentType::ProductOwner)
    } else if is_word(lower, "sm") || is_word(lower, "scrum-master") || is_word(
        lower,
        "scrum_master",
    ) {
        Some(AgentType::ScrumMaster)
    } else if is_word(lower, "dev") || is_word(lower, "developer") {
        Some(AgentType::Developer)
    } else if is_word(lower, "qa") || is_word(lower, "quality-assurance") || is_word(
        lower,
        "quality_assurance",
    ) {
        Some(AgentType::QualityAssurance)
    } else if is_word(lower, "ux") || is_word(lower, "ux-expert") || is_word(lower, "ux_expert") {
        Some(AgentType::UXExpert)
    } else if is_word(lower, "orchestrator") || is_word(lower, "bmad-orchestrator") || is_word(
        lower,
        "bmad_orchestrator",
    ) {
        Some(AgentType::BMadOrchestrator)
    } else {
        None
    }
}

fn unknown(name: &str) -> (e: BMadError)
    ensures
        e matches BMadError::Communication(why) && why@ == unknown_name(name@),
{
    let mut why = String::from_str("Unknown agent name: ");
    why.append(name);
    BMadError::Communication(why)
}

/// Whether an outcome is the address, or the failure, that a reading
/// should give.
pub open spec fn address_is(
    outcome: Result<(AgentType, Option<AgentType>), BMadError>,
    expected: Address,
) -> bool {
    match outcome {
        Ok(pair) => expected == Ok::<(AgentType, Option<AgentType>), Seq<char>>(pair),
        Err(BMadError::Communication(why)) => expected == Err::<
            (AgentType, Option<AgentType>),
            Seq<char>,
        >(why@),
        Err(_) => false,
    }
}

impl CommunicationManager {
    /// The manager of the mailbox of the project at `project_path`.
    pub fn new(project_path: &str) -> (manager: CommunicationManager)
        ensures
            manager.path() == project_path@,
    {
        CommunicationManager { project_path: String::from_str(project_path) }
    }

    /// The root of the project whose mailbox this is.
    pub closed spec fn path(&self) -> Seq<char> {
        self.project_path@
    }

    /// The root of the project whose mailbox this is.
    pub fn project_path(&self) -> (path: &str)
        ensures
            path@ == self.path(),
    {
        self.project_path.as_str()
    }

    /// The short name of an agent role in document names.
    pub fn agent_to_filename(&self, agent: &AgentType) -> (slug: &'static str)
        ensures
            slug@ == agent_slug(*agent),
    {
        match agent {
            AgentType::Analyst => "analyst",
            AgentType::Architect => "architect",
            AgentType::ProductManager => "pm",
            AgentType::ProductOwner => "po",
            AgentType::ScrumMaster => "sm",
            AgentType::Developer => "dev",
            AgentType::QualityAssurance => "qa",
            AgentType::UXExpert => "ux",
            AgentType::BMadOrchestrator => "orchestrator",
        }
    }

    /// The agent role that a name stands for.
    pub fn parse_agent_name(&self, name: &str) -> (agent: Result<AgentType, BMadError>)
        ensures
            match agent {
                Ok(a) => agent_named(name@) == Some(a),
                Err(BMadError::Communication(why)) => agent_named(name@) is None && why@
                    == unknown_name(name@),
                Err(_) => false,
            },
    {
        let chars = to_chars(name);
        let lower = to_ascii_lowercase(&chars);
        match alias(&lower) {
            Some(agent) => Ok(agent),
            None => Err(unknown(name)),
        }
    }

    /// The name of the document for the address `from`, `to`.
    pub fn slot_name(&self, from: AgentType, to: Option<AgentType>) -> (name: String)
        ensures
            name@ == mailbox_name(from, to),
    {
        let mut name = String::from_str(self.agent_to_filename(&from));
        match to {
            Some(recipient) => {
                name.append("-to-");
                name.append(self.agent_to_filename(&recipient));
                name.append(".md");
            },
            None => {
                name.append("-status.md");
            },
        }
        name
    }

    /// The stem of a file name: the name without its extension.
    pub fn file_stem<'a>(&self, file_name: &'a str) -> (stem: &'a str)
        ensures
            stem@ == stem_of(file_name@),
    {
        let chars = to_chars(file_name);
        match find_last_dot(&chars) {
            Some(k) => {
                if k == 0 {
                    file_name
                } else {
                    let stem = file_name.substring_char(0, k);
                    assert(stem@ =~= file_name@.take(k as int));
                    stem
                }
            },
            None => file_name,
        }
    }

    /// Whether a file name has the extension of a mailbox document.
    pub fn is_message_file(&self, file_name: &str) -> (is: bool)
        ensures
            is == is_markdown_name(file_name@),
    {
        crate::text::has_markdown_extension(file_name)
    }

    /// Sender and recipient from the stem of a document name.
    pub fn parse_agents_from_filename(&self, stem: &str) -> (outcome: Result<
        (AgentType, Option<AgentType>),
        BMadError,
    >)
        ensures
            address_is(outcome, address_of(stem@)),
    {
        let chars = to_chars(stem);
        let len: usize = chars.len();
        let sep = to_chars("-to-");
        proof {
            reveal_strlit("-to-");
        }
        match find_text(&chars, &sep, 0) {
            Some(i) => {
                if find_text(&chars, &sep, i + 4).is_none() {
                    let from = stem.substring_char(0, i);
                    let to = stem.substring_char(i + 4, len);
                    assert(from@ =~= stem@.take(i as int));
                    assert(to@ =~= stem@.skip(i + 4));
                    let sender = match self.parse_agent_name(from) {
                        Ok(agent) => agent,
                        Err(e) => {
                            return Err(e);
                        },
                    };
                    let recipient = match self.parse_agent_name(to) {
                        Ok(agent) => agent,
                        Err(e) => {
                            return Err(e);
                        },
                    };
                    return Ok((sender, Some(recipient)));
                }
            },
            None => {},
        }
        let tail = to_chars("-status");
        proof {
            reveal_strlit("-status");
        }
        if len >= 7 && matches_at(&chars, len - 7, &tail) {
            let name = stem.substring_char(0, len - 7);
            assert(name@ =~= stem@.take(stem@.len() - 7));
            match self.parse_agent_name(name) {
                Ok(agent) => {
                    return Ok((agent, None));
                },
                Err(_) => {},
            }
        }
        match self.parse_agent_name(stem) {
            Ok(agent) => Ok((agent, None)),
            Err(e) => Err(e),
        }
    }
}

/// Whether a text holds neither a hyphen nor a dot nor an ASCII capital.
pub open spec fn is_plain_word(word: Seq<char>) -> bool {
    forall|j: int|
        0 <= j < word.len() ==> (#[trigger] word[j]) != '-' && word[j] != '.' && !('A' <= word[j]
            && word[j] <= 'Z')
}

/// The short name of every role is a plain word, and names that role.
pub proof fn lemma_slug_names_agent(agent: AgentType)
    ensures
        is_plain_word(agent_slug(agent)),
        agent_slug(agent).len() >= 2,
        agent_named(agent_slug(agent)) == Some(agent),
{
    reveal_strlit("analyst");
    assert(mark("analyst"@) == (7nat, 'a', 't'));
    reveal_strlit("architect");
    assert(mark("architect"@) == (9nat, 'a', 't'));
    reveal_strlit("pm");
    assert(mark("pm"@) == (2nat, 'p', 'm'));
    reveal_strlit("product-manager");
    assert(mark("product-manager"@) == (15nat, 'p', 'r'));
    reveal_strlit("product_manager");
    assert(mark("product_manager"@) == (15nat, 'p', 'r'));
    reveal_strlit("po");
    assert(mark("po"@) == (2nat, 'p', 'o'));
    reveal_strlit("product-owner");
    assert(mark("product-owner"@) == (13nat, 'p', 'r'));
    reveal_strlit("product_owner");
    assert(mark("product_owner"@) == (13nat, 'p', 'r'));
    reveal_strlit("sm");
    assert(mark("sm"@) == (2nat, 's', 'm'));
    reveal_strlit("scrum-master");
    assert(mark("scrum-master"@) == (12nat, 's', 'r'));
    reveal_strlit("scrum_master");
    assert(mark("scrum_master"@) == (12nat, 's', 'r'));
    reveal_strlit("dev");
    assert(mark("dev"@) == (3nat, 'd', 'v'));
    reveal_strlit("developer");
    assert(mark("developer"@) == (9nat, 'd', 'r'));
    reveal_strlit("qa");
    assert(mark("qa"@) == (2nat, 'q', 'a'));
    reveal_strlit("quality-assurance");
    assert(mark("quality-assurance"@) == (17nat, 'q', 'e'));
    reveal_strlit("quality_assurance");
    assert(mark("quality_assurance"@) == (17nat, 'q', 'e'));
    reveal_strlit("ux");
    assert(mark("ux"@) == (2nat, 'u', 'x'));
    reveal_strlit("ux-expert");
    assert(mark("ux-expert"@) == (9nat, 'u', 't'));
    reveal_strlit("ux_expert");
    assert(mark("ux_expert"@) == (9nat, 'u', 't'));
    reveal_strlit("orchestrator");
    assert(mark("orchestrator"@) == (12nat, 'o', 'r'));
    reveal_strlit("bmad-orchestrator");
    assert(mark("bmad-orchestrator"@) == (17nat, 'b', 'r'));
    reveal_strlit("bmad_orchestrator");
    assert(mark("bmad_orchestrator"@) == (17nat, 'b', 'r'));
    let slug = agent_slug(agent);
    assert(is_plain_word(slug));
    assert(ascii_lowercase(slug) =~= slug);
}

/// A directed stem made of two plain words is read as those two words.
proof fn lemma_directed_stem(a: Seq<char>, b: Seq<char>)
    requires
        is_plain_word(a),
        is_plain_word(b),
    ensures
        address_of(a + "-to-"@ + b) == directed_address(a, b),
{
    reveal_strlit("-to-");
    let pat = "-to-"@;
    let stem = a + pat + b;
    let at = a.len() as int;
    assert(stem.subrange(at, at + 4) =~= pat);
    assert forall|j: int| 0 <= j < at implies !occurs_at(stem, pat, j) by {
        if occurs_at(stem, pat, j) {
            assert(stem.subrange(j, j + 4)[0] == stem[j]);
            assert(stem[j] == a[j]);
        }
    }
    lemma_first_at(stem, pat, 0, Some(at));
    assert forall|j: int| at + 4 <= j implies !occurs_at(stem, pat, j) by {
        if occurs_at(stem, pat, j) {
            assert(stem.subrange(j, j + 4)[0] == stem[j]);
            assert(stem[j] == b[j - at - 4]);
        }
    }
    lemma_first_at(stem, pat, at + 4, None);
    assert(stem.take(at) =~= a);
    assert(stem.skip(at + 4) =~= b);
}

/// A broadcast stem made of a plain word is read as that word.
proof fn lemma_broadcast_stem(a: Seq<char>)
    requires
        is_plain_word(a),
        agent_named(a) is Some,
    ensures
        address_of(a + "-status"@) == Ok::<(AgentType, Option<AgentType>), Seq<char>>(
            (agent_named(a)->0, None),
        ),
{
    reveal_strlit("-to-");
    reveal_strlit("-status");
    let pat = "-to-"@;
    let stem = a + "-status"@;
    let at = a.len() as int;
    assert forall|j: int| 0 <= j implies !occurs_at(stem, pat, j) by {
        if occurs_at(stem, pat, j) {
            let cut = stem.subrange(j, j + 4);
            assert(cut[0] == stem[j]);
            assert(cut[1] == stem[j + 1]);
            assert(cut[3] == stem[j + 3]);
            if j < at {
                assert(stem[j] == a[j]);
            } else {
                assert(stem[j] == "-status"@[j - at]);
                assert(stem[j + 1] == "-status"@[j + 1 - at]);
            }
        }
    }
    lemma_first_at(stem, pat, 0, None);
    assert(stem.subrange(stem.len() - 7, stem.len() as int) =~= "-status"@);
    assert(stem.take(stem.len() - 7) =~= a);
}

/// The stem of a name that ends in `.md` is what stands before that.
proof fn lemma_stem_of_document(stem: Seq<char>)
    requires
        stem.len() > 0,
    ensures
        stem_of(stem + ".md"@) == stem,
        is_markdown_name(stem + ".md"@),
{
    reveal_strlit(".md");
    reveal_strlit("md");
    let name = stem + ".md"@;
    let at = stem.len() as int;
    assert(name[at] == ".md"@[0]);
    assert forall|j: int| at < j < name.len() implies name[j] != '.' by {
        assert(name[j] == ".md"@[j - at]);
    }
    crate::text::lemma_last_dot(name, at);
    assert(name.take(at) =~= stem);
    assert(name.skip(at + 1) =~= "md"@);
}

/// Addressing is reversible: the name of the document for a pair of
/// sender and recipient is read back as that pair.
pub proof fn lemma_address_round_trip(from: AgentType, to: Option<AgentType>)
    ensures
        is_markdown_name(mailbox_name(from, to)),
        address_of(stem_of(mailbox_name(from, to))) == Ok::<
            (AgentType, Option<AgentType>),
            Seq<char>,
        >((from, to)),
{
    lemma_slug_names_agent(from);
    let a = agent_slug(from);
    match to {
        Some(recipient) => {
            lemma_slug_names_agent(recipient);
            let b = agent_slug(recipient);
            lemma_directed_stem(a, b);
            lemma_stem_of_document(a + "-to-"@ + b);
        },
        None => {
            reveal_strlit("-status");
            reveal_strlit("-status.md");
            reveal_strlit(".md");
            lemma_broadcast_stem(a);
            lemma_stem_of_document(a + "-status"@);
            assert(a + "-status.md"@ =~= a + "-status"@ + ".md"@);
        },
    }
}

/// Each pair of sender and recipient has a mailbox slot of its own: two
/// pairs share the name of their document only if they are the same pair.
pub proof fn lemma_slots_are_distinct(
    from: AgentType,
    to: Option<AgentType>,
    other_from: AgentType,
    other_to: Option<AgentType>,
)
    ensures
        mailbox_name(from, to) == mailbox_name(other_from, other_to) <==> from == other_from
            && to == other_to,
{
    lemma_address_round_trip(from, to);
    lemma_address_round_trip(other_from, other_to);
}

/// The kind of message that the cues in a document point to. The cues are
/// looked for in a fixed order: handoff, question, update, completion,
/// blocker; a document without any of them shares context.
pub open spec fn detected_type(document: Seq<char>) -> MessageType {
    if contains_text(document, "## Handoff"@) || contains_text(document, "handoff"@) {
        MessageType::Handoff
    } else if contains_text(document, "## Question"@) || contains_text(document, "?"@) {
        MessageType::Question
    } else if contains_text(document, "## Update"@) || contains_text(document, "Status:"@) {
        MessageType::Update
    } else if contains_text(document, "## Complete"@) || contains_text(document, "✅"@) {
        MessageType::Completion
    } else if contains_text(document, "## Blocker"@) || contains_text(document, "blocked"@) {
        MessageType::BlockerReport
    } else {
        MessageType::ContextShare
    }
}

/// Whether `c` stands in a text.
pub open spec fn has_char(s: Seq<char>, c: char) -> bool {
    char_pos(s, c) < s.len()
}

/// The file that a line refers to: on a line with a Markdown link or a
/// list item in backticks, what stands between the first two backticks,
/// where that looks like a path (it holds a slash or a dot).
pub open spec fn file_ref_of(line: Seq<char>) -> Option<Seq<char>> {
    if contains_text(line, "]("@) || contains_text(line, "- `"@) {
        let open = char_pos(line, '`');
        if open < line.len() {
            let rest = line.skip(open as int + 1);
            let close = char_pos(rest, '`');
            if close < rest.len() {
                let inner = rest.take(close as int);
                if has_char(inner, '/') || has_char(inner, '.') {
                    Some(inner)
                } else {
                    None
                }
            } else {
                None
            }
        } else {
            None
        }
    } else {
        None
    }
}

/// The files that a sequence of lines refers to, in their order.
pub open spec fn file_refs(lines: Seq<Seq<char>>) -> Seq<Seq<char>>
    decreases lines.len(),
{
    if lines.len() == 0 {
        Seq::empty()
    } else {
        match file_ref_of(lines.last()) {
            Some(file) => file_refs(lines.drop_last()).push(file),
            None => file_refs(lines.drop_last()),
        }
    }
}

/// The files that a document refers to.
pub open spec fn referenced_files(document: Seq<char>) -> Seq<Seq<char>> {
    file_refs(split_lines(document))
}

/// What follows a marker on a line that begins with it, without the
/// blanks at its two ends.
pub open spec fn marker_value(line: Seq<char>, marker: Seq<char>) -> Option<Seq<char>> {
    if starts_with_text(line, marker) {
        Some(trim_blanks(line.skip(marker.len() as int)))
    } else {
        None
    }
}

/// The instant that a value names: as an RFC 3339 text, or else in the
/// format of the documents.
pub open spec fn instant_of_value(value: Seq<char>) -> Option<Timestamp> {
    match rfc3339_instant(value) {
        Some(parts) => instant_of(Some(parts)),
        None => instant_of(pattern_instant(value, MINUTE_FORMAT@)),
    }
}

/// The instant that a line of a document gives, if it is a line of the
/// instant and can be read.
pub open spec fn line_instant(line: Seq<char>) -> Option<Timestamp> {
    match marker_value(line, "**Last Updated:**"@) {
        Some(value) => instant_of_value(value),
        None => match marker_value(line, "**Timestamp:**"@) {
            Some(value) => instant_of_value(value),
            None => None,
        },
    }
}

/// The status that a word in small letters names.
pub open spec fn status_from_word(word: Seq<char>) -> Option<MessageStatus> {
    if word == "pending"@ {
        Some(MessageStatus::Pending)
    } else if word == "read"@ {
        Some(MessageStatus::Read)
    } else if word == "processed"@ {
        Some(MessageStatus::Processed)
    } else if word == "archived"@ {
        Some(MessageStatus::Archived)
    } else {
        None
    }
}

/// The status that a line of a document gives, if it is the line of the
/// status and its first word names one, in whatever case.
pub open spec fn line_status(line: Seq<char>) -> Option<MessageStatus> {
    match marker_value(line, "**Status:**"@) {
        Some(value) => status_from_word(ascii_lowercase(first_word(value))),
        None => None,
    }
}

/// The identifier that a line of a document gives, if it is the line of
/// the identifier and can be read.
pub open spec fn line_id(line: Seq<char>) -> Option<u128> {
    match marker_value(line, "**Message ID:**"@) {
        Some(value) => uuid_parsed(value),
        None => None,
    }
}

/// The instant that the first line to give one gives.
pub open spec fn first_instant(lines: Seq<Seq<char>>) -> Option<Timestamp>
    decreases lines.len(),
{
    if lines.len() == 0 {
        None
    } else {
        match line_instant(lines[0]) {
            Some(t) => Some(t),
            None => first_instant(lines.drop_first()),
        }
    }
}

/// The status that the first line to give one gives.
pub open spec fn first_status(lines: Seq<Seq<char>>) -> Option<MessageStatus>
    decreases lines.len(),
{
    if lines.len() == 0 {
        None
    } else {
        match line_status(lines[0]) {
            Some(status) => Some(status),
            None => first_status(lines.drop_first()),
        }
    }
}

/// The identifier that the first line to give one gives.
pub open spec fn first_id(lines: Seq<Seq<char>>) -> Option<u128>
    decreases lines.len(),
{
    if lines.len() == 0 {
        None
    } else {
        match line_id(lines[0]) {
            Some(id) => Some(id),
            None => first_id(lines.drop_first()),
        }
    }
}

/// The identifier that a document declares, if it declares one.
pub open spec fn declared_id(document: Seq<char>) -> Option<u128> {
    first_id(split_lines(document))
}

/// The instant that a document declares, if it declares one.
pub open spec fn declared_instant(document: Seq<char>) -> Option<Timestamp> {
    first_instant(split_lines(document))
}

/// The status that a document declares, if it declares one.
pub open spec fn declared_status(document: Seq<char>) -> Option<MessageStatus> {
    first_status(split_lines(document))
}

/// Identifier, instant and status of a document: what it declares, and
/// for what it does not declare the given identifier, the given instant
/// and the status Pending.
pub open spec fn metadata_of(document: Seq<char>, fresh: u128, now: Timestamp) -> (
    u128,
    Timestamp,
    MessageStatus,
) {
    (
        match declared_id(document) {
            Some(id) => id,
            None => fresh,
        },
        match declared_instant(document) {
            Some(t) => t,
            None => now,
        },
        match declared_status(document) {
            Some(status) => status,
            None => MessageStatus::Pending,
        },
    )
}

/// The heading under which a document shows the kind of its message.
pub open spec fn type_heading(kind: MessageType) -> Seq<char> {
    match kind {
        MessageType::Handoff => "## Handoff"@,
        MessageType::Question => "## Question"@,
        MessageType::Update => "## Status Update"@,
        MessageType::Completion => "## Task Complete"@,
        MessageType::BlockerReport => "## Blocker Report"@,
        MessageType::ContextShare => "## Context Share"@,
        MessageType::Assignment => "## Assignment"@,
    }
}

/// The sign with which a document shows the status of its message.
pub open spec fn status_sign(status: MessageStatus) -> Seq<char> {
    match status {
        MessageStatus::Pending => "⏳"@,
        MessageStatus::Read => "👀"@,
        MessageStatus::Processed => "✅"@,
        MessageStatus::Archived => "📁"@,
    }
}

/// Whom a document names as its recipient: the agent, or the team.
pub open spec fn recipient_text(to: Option<AgentType>) -> Seq<char> {
    match to {
        Some(agent) => agent_display_text(agent),
        None => "Team"@,
    }
}

/// The list items that name the referenced files, one on each line.
pub open spec fn file_items(files: Seq<Seq<char>>) -> Seq<char>
    decreases files.len(),
{
    if files.len() == 0 {
        Seq::empty()
    } else {
        file_items(files.drop_last()) + "- `"@ + files.last() + "`\n"@
    }
}

/// The part of a document that lists the referenced files; empty where
/// there are none.
pub open spec fn files_section(files: Seq<Seq<char>>) -> Seq<char> {
    if files.len() == 0 {
        Seq::empty()
    } else {
        "\n\n### Referenced Files\n"@ + file_items(files)
    }
}

/// The title of a document: sender and recipient.
pub open spec fn title_line(message: AgentMessageView) -> Seq<char> {
    "# "@ + agent_display_text(message.from_agent) + " → "@ + recipient_text(message.to_agent)
        + " Communication"@
}

/// The line that shows the kind of a message and the sign of its status.
pub open spec fn kind_line(message: AgentMessageView) -> Seq<char> {
    type_heading(message.message_type) + " "@ + status_sign(message.status)
}

/// The line that shows when a message was written, to the minute.
pub open spec fn instant_line(message: AgentMessageView) -> Seq<char> {
    "**Last Updated:** "@ + shown(message.timestamp, MINUTE_FORMAT@) + "  "@
}

/// The line that shows the status of a message.
pub open spec fn status_line(message: AgentMessageView) -> Seq<char> {
    "**Status:** "@ + message_status_name(message.status) + " "@ + status_sign(message.status)
        + "  "@
}

/// The line that shows the identifier of a message.
pub open spec fn id_line(message: AgentMessageView) -> Seq<char> {
    "**Message ID:** "@ + uuid_text(message.id)
}

/// The eight lines that a document holds before the text of its message.
pub open spec fn head_lines(message: AgentMessageView) -> Seq<Seq<char>> {
    seq![
        title_line(message),
        Seq::empty(),
        kind_line(message),
        Seq::empty(),
        instant_line(message),
        status_line(message),
        id_line(message),
        Seq::empty(),
    ]
}

/// What a document holds before the text of its message: the title, the
/// kind, and the lines of instant, status and identifier.
pub open spec fn document_head(message: AgentMessageView) -> Seq<char> {
    joined(head_lines(message))
}

/// What a document holds behind the text of its message: the referenced
/// files and the closing lines.
pub open spec fn document_tail(message: AgentMessageView) -> Seq<char> {
    files_section(message.files_referenced) + "\n\n---\n*Generated by BMAD Desktop*\n"@
}

/// The document of a message.
pub open spec fn document(message: AgentMessageView) -> Seq<char> {
    document_head(message) + message.content + document_tail(message)
}

/// The text of the message that a document holds: what stands between
/// the head of the document and its list of referenced files or its
/// closing lines; of a text that does not begin with such a head, all of
/// it.
pub open spec fn read_content(text: Seq<char>) -> Seq<char> {
    match framed_parts(text) {
        Some(frame) => frame.body,
        None => text,
    }
}

/// The kind of the message that a document holds: the kind whose heading
/// stands in the head of the document; of a text that does not begin with
/// such a head, the kind that its cues point to.
pub open spec fn read_kind(text: Seq<char>) -> MessageType {
    match framed_parts(text) {
        Some(frame) => frame.kind,
        None => detected_type(text),
    }
}

/// The files that the message of a document refers to: those of the list
/// of referenced files; of a text that does not begin with the head of a
/// document, those that its lines refer to.
pub open spec fn read_files(text: Seq<char>) -> Seq<Seq<char>> {
    match framed_parts(text) {
        Some(frame) => frame.files,
        None => referenced_files(text),
    }
}

/// Whether the text and the files of a message can be told apart again in
/// its document: no name of a file holds a line break, and where there
/// are no files, the text does not itself end with a list of referenced
/// files. A message for which this fails has the document of another
/// message, with another text or other files.
pub open spec fn cuts_cleanly(message: AgentMessageView) -> bool {
    &&& forall|i: int|
        0 <= i < message.files_referenced.len() ==> is_single_line(
            #[trigger] message.files_referenced[i],
        )
    &&& message.files_referenced.len() == 0 ==> section_split(message.content) is None
}

/// Whether the frame of the document of a message gives the message back:
/// always its kind, and its text and its files where they can be told
/// apart.
pub open spec fn frame_reads_back(message: AgentMessageView) -> bool {
    framed_parts(document(message)) matches Some(frame) && frame.kind == message.message_type
        && (cuts_cleanly(message) ==> frame.body == message.content && frame.files
        == message.files_referenced)
}

/// The message that a mailbox document holds, read from the name of its
/// file and its text: the address from the name; identifier, instant and
/// status from the first lines that declare them; kind, text and files
/// from the frame of the document, where it has one. The reading fails
/// where the name gives no address.
pub open spec fn parsed_message(
    file_name: Seq<char>,
    text: Seq<char>,
    fresh: u128,
    now: Timestamp,
) -> Result<AgentMessageView, Seq<char>> {
    match address_of(stem_of(file_name)) {
        Ok((from, to)) => Ok(
            AgentMessageView {
                id: metadata_of(text, fresh, now).0,
                from_agent: from,
                to_agent: to,
                content: read_content(text),
                message_type: read_kind(text),
                files_referenced: read_files(text),
                timestamp: metadata_of(text, fresh, now).1,
                status: metadata_of(text, fresh, now).2,
            },
        ),
        Err(why) => Err(why),
    }
}

/// Whether an outcome is the message, or the failure, that a reading
/// should give.
pub open spec fn message_is(
    outcome: Result<AgentMessage, BMadError>,
    expected: Result<AgentMessageView, Seq<char>>,
) -> bool {
    match outcome {
        Ok(message) => expected == Ok::<AgentMessageView, Seq<char>>(message@),
        Err(BMadError::Communication(why)) => expected == Err::<AgentMessageView, Seq<char>>(
            why@,
        ),
        Err(_) => false,
    }
}

/// Appends a line and its break to a text that is made of lines.
fn push_line(text: &mut String, line: &str, Ghost(lines): Ghost<Seq<Seq<char>>>)
    requires
        old(text)@ == joined(lines),
    ensures
        final(text)@ == joined(lines.push(line@)),
{
    proof {
        reveal_strlit("\n");
        assert("\n"@ =~= seq!['\n']);
        lemma_joined_push(lines, line@);
    }
    text.append(line);
    text.append("\n");
}

/// The span of the value behind `marker` on the line of `chars` between
/// `start` and `end`, if the line begins with the marker.
fn value_span(chars: &Vec<char>, start: usize, end: usize, marker: &str) -> (span: Option<
    (usize, usize),
>)
    requires
        start <= end <= chars.len(),
    ensures
        match span {
            Some((a, b)) => start <= a <= b <= end && marker_value(
                chars@.subrange(start as int, end as int),
                marker@,
            ) == Some(chars@.subrange(a as int, b as int)),
            None => marker_value(chars@.subrange(start as int, end as int), marker@) is None,
        },
{
    let m = to_chars(marker);
    let ghost line = chars@.subrange(start as int, end as int);
    if m.len() <= end - start && matches_at(chars, start, &m) {
        proof {
            assert(line.subrange(0, m@.len() as int) =~= chars@.subrange(
                start as int,
                start + m@.len(),
            ));
            assert(line.skip(m@.len() as int) =~= chars@.subrange(
                start + m@.len(),
                end as int,
            ));
        }
        let span = trim_span(chars, start + m.len(), end);
        Some(span)
    } else {
        proof {
            if m@.len() <= end - start {
                assert(line.subrange(0, m@.len() as int) =~= chars@.subrange(
                    start as int,
                    start + m@.len(),
                ));
            }
        }
        None
    }
}

fn read_instant(value: &str) -> (instant: Option<Timestamp>)
    ensures
        instant == instant_of_value(value@),
{
    match Timestamp::parse_rfc3339(value) {
        Some(t) => Some(t),
        None => Timestamp::parse_pattern(value, MINUTE_FORMAT),
    }
}

fn read_status(chars: &Vec<char>, a: usize, b: usize) -> (status: Option<MessageStatus>)
    requires
        a <= b <= chars.len(),
    ensures
        status == status_from_word(
            ascii_lowercase(first_word(chars@.subrange(a as int, b as int))),
        ),
{
    let end = word_end(chars, a, b);
    let word = slice_chars(chars, a, end);
    let lower = to_ascii_lowercase(&word);
    if is_word(&lower, "pending") {
        Some(MessageStatus::Pending)
    } else if is_word(&lower, "read") {
        Some(MessageStatus::Read)
    } else if is_word(&lower, "processed") {
        Some(MessageStatus::Processed)
    } else if is_word(&lower, "archived") {
        Some(MessageStatus::Archived)
    } else {
        None
    }
}

fn file_ref_span(chars: &Vec<char>, start: usize, end: usize) -> (span: Option<(usize, usize)>)
    requires
        start <= end <= chars.len(),
    ensures
        match span {
            Some((a, b)) => start <= a <= b <= end && file_ref_of(
                chars@.subrange(start as int, end as int),
            ) == Some(chars@.subrange(a as int, b as int)),
            None => file_ref_of(chars@.subrange(start as int, end as int)) is None,
        },
{
    let line = slice_chars(chars, start, end);
    if !(holds(&line, "](") || holds(&line, "- `")) {
        return None;
    }
    let len: usize = line.len();
    let open = match find_char(&line, 0, len, '`') {
        Some(i) => i,
        None => {
            proof {
                lemma_char_pos(line@, '`', len as int);
            }
            return None;
        },
    };
    proof {
        lemma_char_pos(line@, '`', open as int);
    }
    let ghost rest = line@.skip(open + 1);
    let close = match find_char(&line, open + 1, len, '`') {
        Some(i) => i,
        None => {
            proof {
                assert forall|j: int| 0 <= j < rest.len() implies rest[j] != '`' by {
                    assert(rest[j] == line@[open + 1 + j]);
                }
                lemma_char_pos(rest, '`', rest.len() as int);
            }
            return None;
        },
    };
    proof {
        assert forall|j: int| 0 <= j < close - open - 1 implies rest[j] != '`' by {
            assert(rest[j] == line@[open + 1 + j]);
        }
        assert(rest[close - open - 1] == line@[close as int]);
        lemma_char_pos(rest, '`', close - open - 1);
    }
    let ghost inner = rest.take(close - open - 1);
    assert(inner =~= line@.subrange(open + 1, close as int));
    assert(inner =~= chars@.subrange(start + open + 1, start + close));
    let slash = find_char(&line, open + 1, close, '/');
    let dot = find_char(&line, open + 1, close, '.');
    proof {
        match slash {
            Some(i) => {
                assert forall|j: int| 0 <= j < i - open - 1 implies inner[j] != '/' by {
                    assert(inner[j] == line@[open + 1 + j]);
                }
                assert(inner[i - open - 1] == line@[i as int]);
                lemma_char_pos(inner, '/', i - open - 1);
            },
            None => {
                assert forall|j: int| 0 <= j < inner.len() implies inner[j] != '/' by {
                    assert(inner[j] == line@[open + 1 + j]);
                }
                lemma_char_pos(inner, '/', inner.len() as int);
            },
        }
        match dot {
            Some(i) => {
                assert forall|j: int| 0 <= j < i - open - 1 implies inner[j] != '.' by {
                    assert(inner[j] == line@[open + 1 + j]);
                }
                assert(inner[i - open - 1] == line@[i as int]);
                lemma_char_pos(inner, '.', i - open - 1);
            },
            None => {
                assert forall|j: int| 0 <= j < inner.len() implies inner[j] != '.' by {
                    assert(inner[j] == line@[open + 1 + j]);
                }
                lemma_char_pos(inner, '.', inner.len() as int);
            },
        }
    }
    if slash.is_some() || dot.is_some() {
        Some((start + open + 1, start + close))
    } else {
        None
    }
}

impl CommunicationManager {
    /// The name under which a document shows an agent role.
    pub fn agent_display_name(&self, agent: &AgentType) -> (name: String)
        ensures
            name@ == agent_display_text(*agent),
    {
        String::from_str(agent.display_name())
    }

    /// The kind of message that the cues in a document point to.
    pub fn extract_message_type(&self, content: &str) -> (kind: MessageType)
        ensures
            kind == detected_type(content@),
    {
        let text = to_chars(content);
        if holds(&text, "## Handoff") || holds(&text, "handoff") {
            MessageType::Handoff
        } else if holds(&text, "## Question") || holds(&text, "?") {
            MessageType::Question
        } else if holds(&text, "## Update") || holds(&text, "Status:") {
            MessageType::Update
        } else if holds(&text, "## Complete") || holds(&text, "✅") {
            MessageType::Completion
        } else if holds(&text, "## Blocker") || holds(&text, "blocked") {
            MessageType::BlockerReport
        } else {
            MessageType::ContextShare
        }
    }

    /// The files that a document refers to.
    pub fn extract_referenced_files(&self, content: &str) -> (files: Vec<String>)
        ensures
            texts(files@) == referenced_files(content@),
    {
        let chars = to_chars(content);
        let spans = line_spans(&chars);
        let ghost lines = split_lines(content@);
        let mut files: Vec<String> = Vec::new();
        let mut i: usize = 0;
        assert(lines.take(0) =~= Seq::empty());
        while i < spans.len()
            invariant
                i <= spans@.len(),
                chars@ == content@,
                lines == split_lines(content@),
                spans@.len() == lines.len(),
                forall|k: int|
                    0 <= k < spans@.len() ==> (#[trigger] spans@[k]).0 <= spans@[k].1
                        <= chars@.len() && chars@.subrange(
                        spans@[k].0 as int,
                        spans@[k].1 as int,
                    ) == lines[k],
                texts(files@) == file_refs(lines.take(i as int)),
            decreases spans@.len() - i,
        {
            let (start, end) = spans[i];
            proof {
                let next = lines.take(i + 1);
                assert(next.drop_last() =~= lines.take(i as int));
                assert(next.last() == lines[i as int]);
            }
            match file_ref_span(&chars, start, end) {
                Some((a, b)) => {
                    let file = content.substring_char(a, b);
                    files.push(String::from_str(file));
                    assert(texts(files@) =~= file_refs(lines.take(i + 1)));
                },
                None => {},
            }
            i += 1;
        }
        assert(lines.take(i as int) =~= lines);
        files
    }

    /// Identifier, instant and status as far as a document declares them.
    pub fn declared_metadata(&self, content: &str) -> (found: (
        Option<u128>,
        Option<Timestamp>,
        Option<MessageStatus>,
    ))
        ensures
            found.0 == declared_id(content@),
            found.1 == declared_instant(content@),
            found.2 == declared_status(content@),
    {
        let chars = to_chars(content);
        let spans = line_spans(&chars);
        let ghost lines = split_lines(content@);
        let mut id: Option<u128> = None;
        let mut instant: Option<Timestamp> = None;
        let mut status: Option<MessageStatus> = None;
        let mut i: usize = 0;
        assert(lines.skip(0) =~= lines);
        while i < spans.len()
            invariant
                i <= spans@.len(),
                chars@ == content@,
                lines == split_lines(content@),
                spans@.len() == lines.len(),
                forall|k: int|
                    0 <= k < spans@.len() ==> (#[trigger] spans@[k]).0 <= spans@[k].1
                        <= chars@.len() && chars@.subrange(
                        spans@[k].0 as int,
                        spans@[k].1 as int,
                    ) == lines[k],
                first_id(lines) == (match id {
                    Some(found) => Some(found),
                    None => first_id(lines.skip(i as int)),
                }),
                first_instant(lines) == (match instant {
                    Some(found) => Some(found),
                    None => first_instant(lines.skip(i as int)),
                }),
                first_status(lines) == (match status {
                    Some(found) => Some(found),
                    None => first_status(lines.skip(i as int)),
                }),
            decreases spans@.len() - i,
        {
            let (start, end) = spans[i];
            proof {
                let rest = lines.skip(i as int);
                assert(rest[0] == lines[i as int]);
                assert(rest.drop_first() =~= lines.skip(i + 1));
            }
            if instant.is_none() {
                let span = match value_span(&chars, start, end, "**Last Updated:**") {
                    Some(span) => Some(span),
                    None => value_span(&chars, start, end, "**Timestamp:**"),
                };
                match span {
                    Some((a, b)) => {
                        instant = read_instant(content.substring_char(a, b));
                    },
                    None => {},
                }
            }
            if status.is_none() {
                match value_span(&chars, start, end, "**Status:**") {
                    Some((a, b)) => {
                        status = read_status(&chars, a, b);
                    },
                    None => {},
                }
            }
            if id.is_none() {
                match value_span(&chars, start, end, "**Message ID:**") {
                    Some((a, b)) => {
                        id = crate::ident::parse_id(content.substring_char(a, b));
                    },
                    None => {},
                }
            }
            i += 1;
        }
        assert(lines.skip(i as int) =~= Seq::<Seq<char>>::empty());
        (id, instant, status)
    }

    /// Identifier, instant and status of a document, with the given
    /// identifier and instant for what it does not declare.
    pub fn extract_metadata_at(&self, content: &str, fresh: u128, now: Timestamp) -> (found: (
        u128,
        Timestamp,
        MessageStatus,
    ))
        ensures
            found == metadata_of(content@, fresh, now),
    {
        let (id, instant, status) = self.declared_metadata(content);
        (
            match id {
                Some(found) => found,
                None => fresh,
            },
            match instant {
                Some(found) => found,
                None => now,
            },
            match status {
                Some(found) => found,
                None => MessageStatus::Pending,
            },
        )
    }

    /// Identifier, instant and status of a document, with a fresh
    /// identifier and the system clock for what it does not declare.
    pub fn extract_metadata(&self, content: &str) -> (found: (u128, Timestamp, MessageStatus))
        ensures
            exists|fresh: u128, now: Timestamp|
                is_random_layout(fresh) && now.is_plain_second() && found == metadata_of(
                    content@,
                    fresh,
                    now,
                ),
    {
        let fresh = crate::ident::fresh_id();
        let now = Timestamp::now();
        self.extract_metadata_at(content, fresh, now)
    }

    /// The name of the document that holds a message.
    pub fn generate_filename(&self, message: &AgentMessage) -> (name: String)
        ensures
            name@ == mailbox_name(message@.from_agent, message@.to_agent),
    {
        self.slot_name(message.from_agent, message.to_agent)
    }

    /// The document of a message. It declares the status and the
    /// identifier of the message, and its frame gives back the kind of the
    /// message and, where they can be told apart, its text and its files.
    pub fn format_message_content(&self, message: &AgentMessage) -> (text: String)
        ensures
            text@ == document(message@),
            declared_status(text@) == Some(message@.status),
            declared_id(text@) == Some(message@.id),
            frame_reads_back(message@),
    {
        let heading = match message.message_type {
            MessageType::Handoff => "## Handoff",
            MessageType::Question => "## Question",
            MessageType::Update => "## Status Update",
            MessageType::Completion => "## Task Complete",
            MessageType::BlockerReport => "## Blocker Report",
            MessageType::ContextShare => "## Context Share",
            MessageType::Assignment => "## Assignment",
        };
        let sign = match message.status {
            MessageStatus::Pending => "⏳",
            MessageStatus::Read => "👀",
            MessageStatus::Processed => "✅",
            MessageStatus::Archived => "📁",
        };
        let mut title = String::from_str("# ");
        title.append(message.from_agent.display_name());
        title.append(" → ");
        match message.to_agent {
            Some(agent) => {
                title.append(agent.display_name());
            },
            None => {
                title.append("Team");
            },
        }
        title.append(" Communication");
        let mut kind = String::from_str(heading);
        kind.append(" ");
        kind.append(sign);
        let mut instant = String::from_str("**Last Updated:** ");
        instant.append(message.timestamp.format(MINUTE_FORMAT).as_str());
        instant.append("  ");
        proof {
            crate::reading::lemma_document_declares(message@);
            crate::reading::lemma_document_frame(message@);
        }
        let mut status = String::from_str("**Status:** ");
        status.append(message.status.name());
        status.append(" ");
        status.append(sign);
        status.append("  ");
        let mut id = String::from_str("**Message ID:** ");
        id.append(crate::ident::id_to_text(message.id).as_str());
        let mut text = String::new();
        let ghost mut lines: Seq<Seq<char>> = Seq::empty();
        push_line(&mut text, title.as_str(), Ghost(lines));
        proof {
            lines = lines.push(title@);
        }
        push_line(&mut text, "", Ghost(lines));
        proof {
            lines = lines.push(""@);
        }
        push_line(&mut text, kind.as_str(), Ghost(lines));
        proof {
            lines = lines.push(kind@);
        }
        push_line(&mut text, "", Ghost(lines));
        proof {
            lines = lines.push(""@);
        }
        push_line(&mut text, instant.as_str(), Ghost(lines));
        proof {
            lines = lines.push(instant@);
        }
        push_line(&mut text, status.as_str(), Ghost(lines));
        proof {
            lines = lines.push(status@);
        }
        push_line(&mut text, id.as_str(), Ghost(lines));
        proof {
            lines = lines.push(id@);
        }
        push_line(&mut text, "", Ghost(lines));
        proof {
            lines = lines.push(""@);
            reveal_strlit("");
            assert(""@ =~= Seq::<char>::empty());
            assert(lines =~= head_lines(message@));
        }
        text.append(message.content.as_str());
        let ghost files = message@.files_referenced;
        if message.files_referenced.len() > 0 {
            text.append("\n\n### Referenced Files\n");
            let ghost before = text@;
            let mut i: usize = 0;
            assert(files.take(0) =~= Seq::empty());
            while i < message.files_referenced.len()
                invariant
                    i <= message.files_referenced@.len(),
                    files == texts(message.files_referenced@),
                    text@ == before + file_items(files.take(i as int)),
                decreases message.files_referenced@.len() - i,
            {
                proof {
                    let next = files.take(i + 1);
                    assert(next.drop_last() =~= files.take(i as int));
                    assert(next.last() == message.files_referenced@[i as int]@);
                }
                text.append("- `");
                text.append(message.files_referenced[i].as_str());
                text.append("`\n");
                assert(text@ =~= before + file_items(files.take(i + 1)));
                i += 1;
            }
            assert(files.take(i as int) =~= files);
            assert(text@ =~= document_head(message@) + message@.content + files_section(files));
        } else {
            assert(text@ =~= document_head(message@) + message@.content + files_section(files));
        }
        text.append("\n\n---\n*Generated by BMAD Desktop*\n");
        assert(text@ =~= document(message@));
        text
    }

    /// The message that a mailbox document holds, with the given
    /// identifier and instant for what the document does not declare.
    pub fn parse_message_file_at(
        &self,
        file_name: &str,
        content: &str,
        fresh: u128,
        now: Timestamp,
    ) -> (outcome: Result<AgentMessage, BMadError>)
        ensures
            message_is(outcome, parsed_message(file_name@, content@, fresh, now)),
    {
        let (from_agent, to_agent) = match self.parse_agents_from_filename(
            self.file_stem(file_name),
        ) {
            Ok(pair) => pair,
            Err(e) => {
                return Err(e);
            },
        };
        let (id, timestamp, status) = self.extract_metadata_at(content, fresh, now);
        match read_frame(content) {
            Some(frame) => Ok(
                AgentMessage {
                    id,
                    from_agent,
                    to_agent,
                    content: frame.body,
                    message_type: frame.kind,
                    files_referenced: frame.files,
                    timestamp,
                    status,
                },
            ),
            None => Ok(
                AgentMessage {
                    id,
                    from_agent,
                    to_agent,
                    content: String::from_str(content),
                    message_type: self.extract_message_type(content),
                    files_referenced: self.extract_referenced_files(content),
                    timestamp,
                    status,
                },
            ),
        }
    }

    /// The message that a mailbox document holds, with a fresh identifier
    /// and the system clock for what the document does not declare.
    pub fn parse_message_file(&self, file_name: &str, content: &str) -> (outcome: Result<
        AgentMessage,
        BMadError,
    >)
        ensures
            exists|fresh: u128, now: Timestamp|
                is_random_layout(fresh) && now.is_plain_second() && message_is(
                    outcome,
                    parsed_message(file_name@, content@, fresh, now),
                ),
    {
        let fresh = crate::ident::fresh_id();
        let now = Timestamp::now();
        self.parse_message_file_at(file_name, content, fresh, now)
    }

    /// A new message with the given identifier, written at the given
    /// instant, which nobody has read yet.
    pub fn create_message_at(
        &self,
        id: u128,
        now: Timestamp,
        from_agent: AgentType,
        to_agent: Option<AgentType>,
        content: String,
        message_type: MessageType,
        files_referenced: Vec<String>,
    ) -> (message: AgentMessage)
        ensures
            message@ == (AgentMessageView {
                id,
                from_agent,
                to_agent,
                content: content@,
                message_type,
                files_referenced: texts(files_referenced@),
                timestamp: now,
                status: MessageStatus::Pending,
            }),
    {
        AgentMessage::pending(
            id,
            now,
            from_agent,
            to_agent,
            content,
            message_type,
            files_referenced,
        )
    }

    /// A new message with a fresh identifier, written now, which nobody
    /// has read yet.
    pub fn create_message(
        &self,
        from_agent: AgentType,
        to_agent: Option<AgentType>,
        content: String,
        message_type: MessageType,
        files_referenced: Vec<String>,
    ) -> (message: AgentMessage)
        ensures
            message@.from_agent == from_agent,
            message@.to_agent == to_agent,
            message@.content == content@,
            message@.message_type == message_type,
            message@.files_referenced == texts(files_referenced@),
            message@.status == MessageStatus::Pending,
            is_random_layout(message@.id),
            message@.timestamp.is_plain_second(),
    {
        let id = crate::ident::fresh_id();
        let now = Timestamp::now();
        self.create_message_at(
            id,
            now,
            from_agent,
            to_agent,
            content,
            message_type,
            files_referenced,
        )
    }
}

} // verus!
