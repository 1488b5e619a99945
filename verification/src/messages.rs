//! What the mailbox is asked for: its messages in the order of their
//! instants, those of one agent or of one conversation, the latest ones,
//! how many are unread; and what changes it: marking a message read and
//! archiving old ones.
use vstd::prelude::*;
use vstd::string::StringExecFns;

use crate::clock::{shown, Timestamp, MINUTE_FORMAT};
use crate::communication::{
    address_of, cuts_cleanly, declared_id, declared_status, document, lemma_address_round_trip,
    mailbox_name, message_is, parsed_message, CommunicationManager,
};
use crate::mailbox::{
    count_named, distinct_names, lemma_slot_of, lemma_slot_of_bounds, lemma_stored, slot_of,
    stored, Documents, Mailbox,
};
use crate::ident::{is_random_layout, uuid_text};
use crate::reading::lemma_message_round_trip;
use crate::text::{is_markdown_name, is_single_line, stem_of};
use crate::types::{AgentMessage, AgentMessageView, AgentType, BMadError, MessageStatus};

verus! {

/// The views of a list of messages.
pub open spec fn message_views(items: Seq<AgentMessage>) -> Seq<AgentMessageView> {
    Seq::new(items.len(), |i: int| items[i]@)
}

/// Whether `a` has to stand before `b`: its instant is the earlier one,
/// or, with the newest first, the later one.
pub open spec fn goes_before(a: AgentMessageView, b: AgentMessageView, newest_first: bool) -> bool {
    if newest_first {
        b.timestamp.is_before(a.timestamp)
    } else {
        a.timestamp.is_before(b.timestamp)
    }
}

/// Where a message goes into an ordered list: behind every message that
/// it does not have to stand before.
pub open spec fn time_position(
    ordered: Seq<AgentMessageView>,
    item: AgentMessageView,
    newest_first: bool,
) -> nat
    decreases ordered.len(),
{
    if ordered.len() == 0 || goes_before(item, ordered[0], newest_first) {
        0
    } else {
        1 + time_position(ordered.drop_first(), item, newest_first)
    }
}

/// The messages in the order of their instants; messages of the same
/// instant keep the order in which they came.
pub open spec fn in_time_order(items: Seq<AgentMessageView>, newest_first: bool) -> Seq<
    AgentMessageView,
>
    decreases items.len(),
{
    if items.len() == 0 {
        Seq::empty()
    } else {
        let front = in_time_order(items.drop_last(), newest_first);
        front.insert(time_position(front, items.last(), newest_first) as int, items.last())
    }
}

/// Whether a message was sent by `agent` or to it.
pub open spec fn concerns(message: AgentMessageView, agent: AgentType) -> bool {
    message.to_agent == Some(agent) || message.from_agent == agent
}

/// The messages that `agent` sent or received, in their order.
pub open spec fn for_agent(items: Seq<AgentMessageView>, agent: AgentType) -> Seq<AgentMessageView>
    decreases items.len(),
{
    if items.len() == 0 {
        Seq::empty()
    } else if concerns(items.last(), agent) {
        for_agent(items.drop_last(), agent).push(items.last())
    } else {
        for_agent(items.drop_last(), agent)
    }
}

/// Whether a message went from one of two agents to the other.
pub open spec fn is_between(message: AgentMessageView, a: AgentType, b: AgentType) -> bool {
    (message.from_agent == a && message.to_agent == Some(b)) || (message.from_agent == b
        && message.to_agent == Some(a))
}

/// The messages that two agents sent each other, in their order.
pub open spec fn thread_of(items: Seq<AgentMessageView>, a: AgentType, b: AgentType) -> Seq<
    AgentMessageView,
>
    decreases items.len(),
{
    if items.len() == 0 {
        Seq::empty()
    } else if is_between(items.last(), a, b) {
        thread_of(items.drop_last(), a, b).push(items.last())
    } else {
        thread_of(items.drop_last(), a, b)
    }
}

/// The first `n` messages, or all of them where there are fewer.
pub open spec fn first_n(items: Seq<AgentMessageView>, n: int) -> Seq<AgentMessageView> {
    if items.len() <= n {
        items
    } else {
        items.take(n)
    }
}

/// How many messages nobody has read yet.
pub open spec fn pending_count(items: Seq<AgentMessageView>) -> nat
    decreases items.len(),
{
    if items.len() == 0 {
        0
    } else {
        pending_count(items.drop_last()) + if items.last().status == MessageStatus::Pending {
            1nat
        } else {
            0nat
        }
    }
}

/// Whether a file of the communications directory is read as a message:
/// it has the extension of a document and its name gives an address.
pub open spec fn is_message_document(file: (Seq<char>, Seq<char>)) -> bool {
    is_markdown_name(file.0) && address_of(stem_of(file.0)) is Ok
}

/// Whether `messages` is what reading the documents `files` can give: one
/// message for each file that is read as a message, in the order of the
/// files, with some identifier and some instant for what a document does
/// not declare.
pub open spec fn reads_as(files: Documents, messages: Seq<AgentMessageView>) -> bool
    decreases files.len(),
{
    if files.len() == 0 {
        messages.len() == 0
    } else if is_message_document(files.last()) {
        &&& messages.len() > 0
        &&& reads_as(files.drop_last(), messages.drop_last())
        &&& exists|fresh: u128, now: Timestamp|
            is_random_layout(fresh) && now.is_plain_second() && #[trigger] parsed_message(
                files.last().0,
                files.last().1,
                fresh,
                now,
            ) == Ok::<AgentMessageView, Seq<char>>(messages.last())
    } else {
        reads_as(files.drop_last(), messages)
    }
}

/// How many documents hold a message that nobody has read yet. A
/// document that declares no status counts as unread.
pub open spec fn unread_in(files: Documents) -> nat
    decreases files.len(),
{
    if files.len() == 0 {
        0
    } else {
        unread_in(files.drop_last()) + if is_message_document(files.last()) && (declared_status(
            files.last().1,
        ) is None || declared_status(files.last().1) == Some(MessageStatus::Pending)) {
            1nat
        } else {
            0nat
        }
    }
}

/// Whether a message is due for the archive: it is older than `days`
/// whole days at the instant `now` and not archived yet.
pub open spec fn is_stale(message: AgentMessageView, now: Timestamp, days: u64) -> bool {
    message.timestamp.is_older_than(now, days) && message.status != MessageStatus::Archived
}

/// A message with another status.
pub open spec fn with_status(message: AgentMessageView, status: MessageStatus) -> AgentMessageView {
    AgentMessageView { status, ..message }
}

/// The mailbox after every stale message of a list was saved as archived,
/// one after the other.
pub open spec fn archive_all(
    files: Documents,
    messages: Seq<AgentMessageView>,
    now: Timestamp,
    days: u64,
) -> Documents
    decreases messages.len(),
{
    if messages.len() == 0 {
        files
    } else {
        let before = archive_all(files, messages.drop_last(), now, days);
        let last = messages.last();
        if is_stale(last, now, days) {
            stored(
                before,
                mailbox_name(last.from_agent, last.to_agent),
                document(with_status(last, MessageStatus::Archived)),
            )
        } else {
            before
        }
    }
}

/// How many messages of a list are due for the archive.
pub open spec fn stale_count(messages: Seq<AgentMessageView>, now: Timestamp, days: u64) -> nat
    decreases messages.len(),
{
    if messages.len() == 0 {
        0
    } else {
        stale_count(messages.drop_last(), now, days) + if is_stale(messages.last(), now, days) {
            1nat
        } else {
            0nat
        }
    }
}

/// Whether a document holds the message with the identifier `id`: it is
/// read as a message and declares that identifier.
pub open spec fn declares(file: (Seq<char>, Seq<char>), id: u128) -> bool {
    is_message_document(file) && declared_id(file.1) == Some(id)
}

/// The offset of the first document that holds the message with the
/// identifier `id`; the number of documents where none does.
pub open spec fn read_target(files: Documents, id: u128) -> nat
    decreases files.len(),
{
    if files.len() == 0 || declares(files[0], id) {
        0
    } else {
        1 + read_target(files.drop_first(), id)
    }
}

/// The mailbox after the message with the identifier `id` was marked as
/// read at the instant `now`: the first document that declares the
/// identifier holds the document of its message with the status Read; a
/// mailbox without such a document stays as it is.
pub open spec fn marked_read(files: Documents, id: u128, now: Timestamp) -> Documents {
    let at = read_target(files, id) as int;
    if at < files.len() {
        files.update(
            at,
            (
                files[at].0,
                document(
                    with_status(
                        parsed_message(files[at].0, files[at].1, id, now)->Ok_0,
                        MessageStatus::Read,
                    ),
                ),
            ),
        )
    } else {
        files
    }
}

/// What marking fails with where no document holds the message.
pub open spec fn message_missing(id: u128) -> Seq<char> {
    "Message not found: "@ + uuid_text(id)
}

/// Where the first document that declares an identifier stands, told from
/// what stands before it.
pub proof fn lemma_read_target(files: Documents, id: u128, k: int)
    requires
        0 <= k <= files.len(),
        forall|j: int| 0 <= j < k ==> !declares(files[j], id),
        k == files.len() || declares(files[k], id),
    ensures
        read_target(files, id) == k,
    decreases files.len(),
{
    if k > 0 {
        let rest = files.drop_first();
        assert forall|j: int| 0 <= j < k - 1 implies !declares(rest[j], id) by {
            assert(rest[j] == files[j + 1]);
        }
        if k < files.len() {
            assert(rest[k - 1] == files[k]);
        }
        lemma_read_target(rest, id, k - 1);
    }
}

/// Where a message goes into an ordered list, told from what stands
/// before that place.
proof fn lemma_time_position(
    ordered: Seq<AgentMessageView>,
    item: AgentMessageView,
    newest_first: bool,
    pos: int,
)
    requires
        0 <= pos <= ordered.len(),
        forall|j: int| 0 <= j < pos ==> !goes_before(item, ordered[j], newest_first),
        pos == ordered.len() || goes_before(item, ordered[pos], newest_first),
    ensures
        time_position(ordered, item, newest_first) == pos,
    decreases ordered.len(),
{
    if pos > 0 {
        let rest = ordered.drop_first();
        assert forall|j: int| 0 <= j < pos - 1 implies !goes_before(
            item,
            rest[j],
            newest_first,
        ) by {
            assert(rest[j] == ordered[j + 1]);
        }
        if pos != ordered.len() {
            assert(rest[pos - 1] == ordered[pos]);
        }
        lemma_time_position(rest, item, newest_first, pos - 1);
    }
}

/// Takes the first message off a list.
fn take_first(rest: &mut Vec<AgentMessage>, Ghost(all): Ghost<Seq<AgentMessageView>>, done: usize) -> (item:
    AgentMessage)
    requires
        old(rest)@.len() > 0,
        done + old(rest)@.len() == all.len(),
        message_views(old(rest)@) == all.skip(done as int),
    ensures
        item@ == all[done as int],
        final(rest)@.len() == old(rest)@.len() - 1,
        message_views(final(rest)@) == all.skip(done + 1),
        all.take(done + 1).drop_last() == all.take(done as int),
        all.take(done + 1).last() == item@,
{
    let item = rest.remove(0);
    proof {
        assert(all.skip(done as int)[0] == all[done as int]);
        assert(message_views(rest@) =~= all.skip(done + 1)) by {
            assert forall|i: int| 0 <= i < rest@.len() implies message_views(rest@)[i]
                == all.skip(done + 1)[i] by {
                assert(all.skip(done as int)[i + 1] == all[done + 1 + i]);
            }
        }
        assert(all.take(done + 1).drop_last() =~= all.take(done as int));
    }
    item
}

impl CommunicationManager {
    /// Orders messages by their instants, the oldest first or the newest
    /// first; messages of the same instant keep their order.
    pub fn sort_messages(&self, messages: Vec<AgentMessage>, newest_first: bool) -> (out: Vec<
        AgentMessage,
    >)
        ensures
            message_views(out@) == in_time_order(message_views(messages@), newest_first),
    {
        let ghost all = message_views(messages@);
        let mut rest = messages;
        let mut out: Vec<AgentMessage> = Vec::new();
        let mut done: usize = 0;
        let total: usize = rest.len();
        assert(all.take(0) =~= Seq::empty());
        assert(all.skip(0) =~= all);
        while rest.len() > 0
            invariant
                total == all.len(),
                done + rest@.len() == all.len(),
                out@.len() == done,
                message_views(rest@) == all.skip(done as int),
                message_views(out@) == in_time_order(all.take(done as int), newest_first),
            decreases rest@.len(),
        {
            let item = take_first(&mut rest, Ghost(all), done);
            let mut pos: usize = 0;
            let mut found = false;
            while pos < out.len() && !found
                invariant
                    pos <= out@.len(),
                    forall|j: int| 0 <= j < pos ==> !goes_before(item@, out@[j]@, newest_first),
                    found ==> pos < out@.len() && goes_before(
                        item@,
                        out@[pos as int]@,
                        newest_first,
                    ),
                decreases out@.len() - pos + (if found {
                    0int
                } else {
                    1int
                }),
            {
                let other = &out[pos];
                let first = if newest_first {
                    other.timestamp.before(&item.timestamp)
                } else {
                    item.timestamp.before(&other.timestamp)
                };
                if first {
                    found = true;
                } else {
                    pos += 1;
                }
            }
            proof {
                lemma_time_position(message_views(out@), item@, newest_first, pos as int);
            }
            let ghost before = message_views(out@);
            out.insert(pos, item);
            assert(message_views(out@) =~= before.insert(pos as int, all[done as int]));
            done += 1;
        }
        assert(all.take(done as int) =~= all);
        out
    }

    /// The messages that `agent` sent or received.
    pub fn messages_for_agent(&self, messages: Vec<AgentMessage>, agent: &AgentType) -> (out: Vec<
        AgentMessage,
    >)
        ensures
            message_views(out@) == for_agent(message_views(messages@), *agent),
    {
        let ghost all = message_views(messages@);
        let mut rest = messages;
        let mut out: Vec<AgentMessage> = Vec::new();
        let mut done: usize = 0;
        let total: usize = rest.len();
        assert(all.take(0) =~= Seq::empty());
        assert(all.skip(0) =~= all);
        while rest.len() > 0
            invariant
                total == all.len(),
                done + rest@.len() == all.len(),
                message_views(rest@) == all.skip(done as int),
                message_views(out@) == for_agent(all.take(done as int), *agent),
            decreases rest@.len(),
        {
            let item = take_first(&mut rest, Ghost(all), done);
            let to_it = match item.to_agent {
                Some(to) => to == *agent,
                None => false,
            };
            if to_it || item.from_agent == *agent {
                out.push(item);
                assert(message_views(out@) =~= for_agent(all.take(done + 1), *agent));
            }
            done += 1;
        }
        assert(all.take(done as int) =~= all);
        out
    }

    /// The messages that two agents sent each other.
    pub fn conversation_thread(
        &self,
        messages: Vec<AgentMessage>,
        agent1: &AgentType,
        agent2: &AgentType,
    ) -> (out: Vec<AgentMessage>)
        ensures
            message_views(out@) == thread_of(message_views(messages@), *agent1, *agent2),
    {
        let ghost all = message_views(messages@);
        let mut rest = messages;
        let mut out: Vec<AgentMessage> = Vec::new();
        let mut done: usize = 0;
        let total: usize = rest.len();
        assert(all.take(0) =~= Seq::empty());
        assert(all.skip(0) =~= all);
        while rest.len() > 0
            invariant
                total == all.len(),
                done + rest@.len() == all.len(),
                message_views(rest@) == all.skip(done as int),
                message_views(out@) == thread_of(all.take(done as int), *agent1, *agent2),
            decreases rest@.len(),
        {
            let item = take_first(&mut rest, Ghost(all), done);
            let forth = item.from_agent == *agent1 && match item.to_agent {
                Some(to) => to == *agent2,
                None => false,
            };
            let back = item.from_agent == *agent2 && match item.to_agent {
                Some(to) => to == *agent1,
                None => false,
            };
            if forth || back {
                out.push(item);
                assert(message_views(out@) =~= thread_of(all.take(done + 1), *agent1, *agent2));
            }
            done += 1;
        }
        assert(all.take(done as int) =~= all);
        out
    }

    /// The `limit` latest messages, the newest first.
    pub fn latest_messages(&self, messages: Vec<AgentMessage>, limit: usize) -> (out: Vec<
        AgentMessage,
    >)
        ensures
            message_views(out@) == first_n(
                in_time_order(message_views(messages@), true),
                limit as int,
            ),
    {
        let mut out = self.sort_messages(messages, true);
        let ghost full = message_views(out@);
        out.truncate(limit);
        assert(message_views(out@) =~= first_n(full, limit as int));
        out
    }

    /// How many messages of a list nobody has read yet.
    pub fn count_unread(&self, messages: &Vec<AgentMessage>) -> (count: usize)
        ensures
            count == pending_count(message_views(messages@)),
    {
        let ghost all = message_views(messages@);
        let mut count: usize = 0;
        let mut i: usize = 0;
        assert(all.take(0) =~= Seq::empty());
        while i < messages.len()
            invariant
                i <= messages@.len(),
                all == message_views(messages@),
                count <= i,
                count == pending_count(all.take(i as int)),
            decreases messages@.len() - i,
        {
            proof {
                assert(all.take(i + 1).drop_last() =~= all.take(i as int));
                assert(all.take(i + 1).last() == messages@[i as int]@);
            }
            if messages[i].status == MessageStatus::Pending {
                count += 1;
            }
            i += 1;
        }
        assert(all.take(i as int) =~= all);
        count
    }

    /// The messages of a mailbox, the oldest first. A document that
    /// cannot be read as a message is passed over.
    pub fn load_all_messages(&self, mailbox: &Mailbox) -> (out: Vec<AgentMessage>)
        ensures
            exists|read: Seq<AgentMessageView>|
                reads_as(mailbox@, read) && message_views(out@) == in_time_order(read, false),
    {
        let files = mailbox.documents();
        let ghost all = mailbox@;
        let mut read: Vec<AgentMessage> = Vec::new();
        let mut i: usize = 0;
        assert(all.take(0) =~= Documents::empty());
        while i < files.len()
            invariant
                i <= files@.len(),
                all == mailbox@,
                files@.len() == all.len(),
                forall|k: int| 0 <= k < files@.len() ==> (#[trigger] files@[k])@ == all[k],
                reads_as(all.take(i as int), message_views(read@)),
            decreases files@.len() - i,
        {
            let file = &files[i];
            let ghost before = message_views(read@);
            proof {
                assert(all.take(i + 1).drop_last() =~= all.take(i as int));
                assert(all.take(i + 1).last() == file@);
            }
            if self.is_message_file(file.name.as_str()) {
                match self.parse_message_file(file.name.as_str(), file.content.as_str()) {
                    Ok(message) => {
                        read.push(message);
                        proof {
                            let now = message_views(read@);
                            assert(now.drop_last() =~= before);
                            assert(now.last() == message@);
                            let (fresh, at) = choose|fresh: u128, at: Timestamp|
                                message_is(
                                    Ok(message),
                                    parsed_message(file@.0, file@.1, fresh, at),
                                );
                            assert(parsed_message(file@.0, file@.1, fresh, at) == Ok::<
                                AgentMessageView,
                                Seq<char>,
                            >(now.last()));
                        }
                    },
                    Err(_) => {},
                }
            }
            i += 1;
        }
        assert(all.take(i as int) =~= all);
        let ghost collected = message_views(read@);
        let out = self.sort_messages(read, false);
        assert(reads_as(mailbox@, collected) && message_views(out@) == in_time_order(
            collected,
            false,
        ));
        out
    }

    /// The messages of a mailbox that `agent` sent or received, the
    /// oldest first.
    pub fn load_messages_for_agent(&self, mailbox: &Mailbox, agent: &AgentType) -> (out: Vec<
        AgentMessage,
    >)
        ensures
            exists|read: Seq<AgentMessageView>|
                reads_as(mailbox@, read) && message_views(out@) == for_agent(
                    in_time_order(read, false),
                    *agent,
                ),
    {
        let all = self.load_all_messages(mailbox);
        self.messages_for_agent(all, agent)
    }

    /// The `limit` latest messages of a mailbox, the newest first.
    pub fn get_latest_messages(&self, mailbox: &Mailbox, limit: usize) -> (out: Vec<AgentMessage>)
        ensures
            exists|read: Seq<AgentMessageView>|
                reads_as(mailbox@, read) && message_views(out@) == first_n(
                    in_time_order(in_time_order(read, false), true),
                    limit as int,
                ),
    {
        let all = self.load_all_messages(mailbox);
        self.latest_messages(all, limit)
    }

    /// The messages of a mailbox that two agents sent each other, the
    /// oldest first.
    pub fn get_conversation_thread(&self, mailbox: &Mailbox, agent1: &AgentType, agent2: &AgentType) -> (out:
        Vec<AgentMessage>)
        ensures
            exists|read: Seq<AgentMessageView>|
                reads_as(mailbox@, read) && message_views(out@) == thread_of(
                    in_time_order(read, false),
                    *agent1,
                    *agent2,
                ),
    {
        let all = self.load_all_messages(mailbox);
        self.conversation_thread(all, agent1, agent2)
    }

    /// How many documents of a mailbox hold a message that nobody has
    /// read yet.
    pub fn get_unread_message_count(&self, mailbox: &Mailbox) -> (count: usize)
        ensures
            count == unread_in(mailbox@),
    {
        let files = mailbox.documents();
        let ghost all = mailbox@;
        let mut count: usize = 0;
        let mut i: usize = 0;
        assert(all.take(0) =~= Documents::empty());
        while i < files.len()
            invariant
                i <= files@.len(),
                all == mailbox@,
                files@.len() == all.len(),
                forall|k: int| 0 <= k < files@.len() ==> (#[trigger] files@[k])@ == all[k],
                count <= i,
                count == unread_in(all.take(i as int)),
            decreases files@.len() - i,
        {
            let file = &files[i];
            proof {
                assert(all.take(i + 1).drop_last() =~= all.take(i as int));
                assert(all.take(i + 1).last() == file@);
            }
            if self.is_message_file(file.name.as_str()) && self.parse_agents_from_filename(
                self.file_stem(file.name.as_str()),
            ).is_ok() {
                let (_, _, status) = self.declared_metadata(file.content.as_str());
                let unread = match status {
                    Some(s) => s == MessageStatus::Pending,
                    None => true,
                };
                if unread {
                    count += 1;
                }
            }
            i += 1;
        }
        assert(all.take(i as int) =~= all);
        count
    }

    /// Marks the message with the identifier `message_id` as read: the
    /// first document that declares the identifier is written anew, with
    /// the status Read. Fails where no document declares it.
    pub fn mark_message_read_at(&self, mailbox: &mut Mailbox, message_id: u128, now: Timestamp) -> (outcome:
        Result<(), BMadError>)
        ensures
            final(mailbox)@ == marked_read(old(mailbox)@, message_id, now),
            read_target(old(mailbox)@, message_id) < old(mailbox)@.len() ==> outcome is Ok
                && declared_status(
                final(mailbox)@[read_target(old(mailbox)@, message_id) as int].1,
            ) == Some(MessageStatus::Read) && declared_id(
                final(mailbox)@[read_target(old(mailbox)@, message_id) as int].1,
            ) == Some(message_id),
            read_target(old(mailbox)@, message_id) >= old(mailbox)@.len() ==> (
            outcome matches Err(BMadError::Communication(why)) && why@ == message_missing(
                message_id,
            )),
    {
        let ghost all = mailbox@;
        let mut i: usize = 0;
        let len: usize = mailbox.len();
        while i < len
            invariant
                i <= len,
                len == all.len(),
                all == mailbox@,
                all == old(mailbox)@,
                distinct_names(all),
                forall|j: int| 0 <= j < i ==> !declares(all[j], message_id),
            decreases len - i,
        {
            let file = mailbox.file(i);
            if self.is_message_file(file.name.as_str()) {
                let (id, _, _) = self.declared_metadata(file.content.as_str());
                let same = match id {
                    Some(found) => found == message_id,
                    None => false,
                };
                if same {
                    match self.parse_message_file_at(
                        file.name.as_str(),
                        file.content.as_str(),
                        message_id,
                        now,
                    ) {
                        Ok(message) => {
                            proof {
                                lemma_read_target(all, message_id, i as int);
                            }
                            let mut message = message;
                            message.status = MessageStatus::Read;
                            let name = file.name.clone();
                            let text = self.format_message_content(&message);
                            proof {
                                lemma_slot_of(all, name@, i as int);
                            }
                            mailbox.store(name, text);
                            return Ok(());
                        },
                        Err(_) => {},
                    }
                }
            }
            i += 1;
        }
        proof {
            lemma_read_target(all, message_id, len as int);
        }
        let mut why = String::from_str("Message not found: ");
        why.append(crate::ident::id_to_text(message_id).as_str());
        Err(BMadError::Communication(why))
    }

    /// Marks the message with the identifier `message_id` as read, by the
    /// system clock.
    pub fn mark_message_read(&self, mailbox: &mut Mailbox, message_id: u128) -> (outcome: Result<
        (),
        BMadError,
    >)
        ensures
            exists|now: Timestamp|
                now.is_plain_second() && final(mailbox)@ == #[trigger] marked_read(
                    old(mailbox)@,
                    message_id,
                    now,
                ),
            read_target(old(mailbox)@, message_id) < old(mailbox)@.len() ==> outcome is Ok,
            read_target(old(mailbox)@, message_id) >= old(mailbox)@.len() ==> final(mailbox)@
                == old(mailbox)@ && (outcome matches Err(BMadError::Communication(why)) && why@
                == message_missing(message_id)),
    {
        let now = Timestamp::now();
        self.mark_message_read_at(mailbox, message_id, now)
    }

    /// Saves every stale message of a list as archived, one after the
    /// other, and says how many there were.
    pub fn archive_messages(
        &self,
        mailbox: &mut Mailbox,
        messages: Vec<AgentMessage>,
        days_old: u64,
        now: Timestamp,
    ) -> (count: usize)
        ensures
            final(mailbox)@ == archive_all(
                old(mailbox)@,
                message_views(messages@),
                now,
                days_old,
            ),
            count == stale_count(message_views(messages@), now, days_old),
    {
        let ghost all = message_views(messages@);
        let ghost files = mailbox@;
        let mut rest = messages;
        let mut count: usize = 0;
        let mut done: usize = 0;
        let total: usize = rest.len();
        assert(all.take(0) =~= Seq::empty());
        assert(all.skip(0) =~= all);
        while rest.len() > 0
            invariant
                total == all.len(),
                done + rest@.len() == all.len(),
                count <= done,
                message_views(rest@) == all.skip(done as int),
                mailbox@ == archive_all(files, all.take(done as int), now, days_old),
                count == stale_count(all.take(done as int), now, days_old),
            decreases rest@.len(),
        {
            let item = take_first(&mut rest, Ghost(all), done);
            if item.timestamp.older_than_days(&now, days_old) && item.status
                != MessageStatus::Archived {
                let mut item = item;
                item.status = MessageStatus::Archived;
                let _ = self.save_message(mailbox, &item);
                count += 1;
            }
            done += 1;
        }
        assert(all.take(done as int) =~= all);
        count
    }

    /// Archives the messages of a mailbox that are older than `days_old`
    /// whole days by the system clock, and says how many there were.
    pub fn archive_old_messages(&self, mailbox: &mut Mailbox, days_old: u64) -> (count: usize)
        ensures
            exists|read: Seq<AgentMessageView>, now: Timestamp|
                now.is_plain_second() && reads_as(old(mailbox)@, read) && final(mailbox)@
                    == archive_all(
                    old(mailbox)@,
                    in_time_order(read, false),
                    now,
                    days_old,
                ) && count == stale_count(in_time_order(read, false), now, days_old),
    {
        let now = Timestamp::now();
        let messages = self.load_all_messages(mailbox);
        self.archive_messages(mailbox, messages, days_old, now)
    }
}

/// Whether no message of a list has to stand before an earlier one.
pub open spec fn is_in_time_order(items: Seq<AgentMessageView>, newest_first: bool) -> bool {
    forall|i: int, j: int|
        0 <= i < j < items.len() ==> !goes_before(items[j], items[i], newest_first)
}

/// Where a message goes into an ordered list: within the list or at its
/// end, behind messages that it need not stand before, before one that it
/// has to stand before.
pub proof fn lemma_time_position_bounds(
    ordered: Seq<AgentMessageView>,
    item: AgentMessageView,
    newest_first: bool,
)
    ensures
        time_position(ordered, item, newest_first) <= ordered.len(),
        forall|j: int|
            0 <= j < time_position(ordered, item, newest_first) ==> !goes_before(
                item,
                ordered[j],
                newest_first,
            ),
        time_position(ordered, item, newest_first) < ordered.len() ==> goes_before(
            item,
            ordered[time_position(ordered, item, newest_first) as int],
            newest_first,
        ),
    decreases ordered.len(),
{
    if ordered.len() > 0 && !goes_before(item, ordered[0], newest_first) {
        let rest = ordered.drop_first();
        lemma_time_position_bounds(rest, item, newest_first);
        let pos = time_position(ordered, item, newest_first);
        assert forall|j: int| 0 <= j < pos implies !goes_before(
            item,
            ordered[j],
            newest_first,
        ) by {
            if j > 0 {
                assert(rest[j - 1] == ordered[j]);
            }
        }
        if pos < ordered.len() {
            assert(rest[time_position(rest, item, newest_first) as int] == ordered[pos as int]);
        }
    }
}

/// Ordering by instants keeps what a list holds: the ordered list has the
/// messages of the list, each as often as the list has it, and none of
/// them has to stand before an earlier one.
pub proof fn lemma_in_time_order(items: Seq<AgentMessageView>, newest_first: bool)
    ensures
        in_time_order(items, newest_first).len() == items.len(),
        is_in_time_order(in_time_order(items, newest_first), newest_first),
        in_time_order(items, newest_first).to_multiset() == items.to_multiset(),
    decreases items.len(),
{
    if items.len() > 0 {
        let front = in_time_order(items.drop_last(), newest_first);
        let item = items.last();
        lemma_in_time_order(items.drop_last(), newest_first);
        lemma_time_position_bounds(front, item, newest_first);
        let pos = time_position(front, item, newest_first) as int;
        let out = front.insert(pos, item);
        vstd::seq_lib::to_multiset_insert(front, pos, item);
        vstd::seq_lib::to_multiset_build(items.drop_last(), item);
        assert(items.drop_last().push(item) =~= items);
        assert forall|i: int, j: int| 0 <= i < j < out.len() implies !goes_before(
            out[j],
            out[i],
            newest_first,
        ) by {
            if j == pos {
                assert(out[i] == front[i]);
                assert(!goes_before(item, front[i], newest_first));
            } else if i == pos {
                assert(out[j] == front[j - 1]);
                assert(goes_before(item, front[pos], newest_first));
                if j - 1 > pos {
                    assert(!goes_before(front[j - 1], front[pos], newest_first));
                }
            } else if i < pos && j < pos {
                assert(out[i] == front[i] && out[j] == front[j]);
                assert(!goes_before(front[j], front[i], newest_first));
            } else if i < pos {
                assert(out[i] == front[i] && out[j] == front[j - 1]);
                assert(!goes_before(front[j - 1], front[i], newest_first));
            } else {
                assert(out[i] == front[i - 1] && out[j] == front[j - 1]);
                assert(!goes_before(front[j - 1], front[i - 1], newest_first));
            }
        }
    } else {
        assert(in_time_order(items, newest_first) =~= items);
    }
}

/// Ordering keeps the order of a list in which no message has to stand
/// before an earlier one: messages of the same instant stay as they came,
/// and an ordered list stays as it is.
pub proof fn lemma_time_order_keeps_order(items: Seq<AgentMessageView>, newest_first: bool)
    requires
        is_in_time_order(items, newest_first),
    ensures
        in_time_order(items, newest_first) == items,
    decreases items.len(),
{
    if items.len() > 0 {
        let front = items.drop_last();
        assert forall|i: int, j: int| 0 <= i < j < front.len() implies !goes_before(
            front[j],
            front[i],
            newest_first,
        ) by {
            assert(front[i] == items[i] && front[j] == items[j]);
        }
        lemma_time_order_keeps_order(front, newest_first);
        assert forall|j: int| 0 <= j < front.len() implies !goes_before(
            items.last(),
            front[j],
            newest_first,
        ) by {
            assert(front[j] == items[j]);
        }
        lemma_time_position(front, items.last(), newest_first, front.len() as int);
        assert(front.insert(front.len() as int, items.last()) =~= items);
    } else {
        assert(in_time_order(items, newest_first) =~= items);
    }
}

/// What is read from a mailbox holds as many unread messages as the
/// mailbox holds documents of unread messages: the status of a message is
/// read from its document alone.
pub proof fn lemma_unread_are_counted(files: Documents, messages: Seq<AgentMessageView>)
    requires
        reads_as(files, messages),
    ensures
        pending_count(messages) == unread_in(files),
    decreases files.len(),
{
    if files.len() > 0 {
        if is_message_document(files.last()) {
            lemma_unread_are_counted(files.drop_last(), messages.drop_last());
        } else {
            lemma_unread_are_counted(files.drop_last(), messages);
        }
    }
}

/// A message keeps what it says when its document is written anew with
/// another status: what is read from the new document has the sender, the
/// recipient, the kind, the text and the files of the message, and the new
/// status. The document is not wrapped into the new one. This holds where
/// the text and the files of the message can be told apart, and where the
/// instant of the message, and the instant that is read back from its
/// document, are written without a line break.
pub proof fn lemma_rewriting_keeps_the_message(
    message: AgentMessageView,
    status: MessageStatus,
    fresh: u128,
    now: Timestamp,
)
    requires
        cuts_cleanly(message),
        is_single_line(shown(message.timestamp, MINUTE_FORMAT@)),
        is_single_line(
            shown(
                parsed_message(
                    mailbox_name(message.from_agent, message.to_agent),
                    document(message),
                    fresh,
                    now,
                )->Ok_0.timestamp,
                MINUTE_FORMAT@,
            ),
        ),
    ensures
        ({
            let name = mailbox_name(message.from_agent, message.to_agent);
            let back = parsed_message(name, document(message), fresh, now)->Ok_0;
            let again = parsed_message(name, document(with_status(back, status)), fresh, now);
            &&& again is Ok
            &&& again->Ok_0.from_agent == message.from_agent
            &&& again->Ok_0.to_agent == message.to_agent
            &&& again->Ok_0.message_type == message.message_type
            &&& again->Ok_0.content == message.content
            &&& again->Ok_0.files_referenced == message.files_referenced
            &&& again->Ok_0.status == status
        }),
{
    let name = mailbox_name(message.from_agent, message.to_agent);
    lemma_message_round_trip(message, fresh, now);
    let back = parsed_message(name, document(message), fresh, now)->Ok_0;
    let changed = with_status(back, status);
    assert(cuts_cleanly(changed));
    lemma_message_round_trip(changed, fresh, now);
}

/// The mailbox holds one slot for each pair of sender and recipient: of
/// two messages of the same pair that are saved one after the other, one
/// document remains, and it holds the second.
pub proof fn lemma_second_message_overwrites(
    files: Documents,
    first: AgentMessageView,
    second: AgentMessageView,
)
    requires
        distinct_names(files),
        first.from_agent == second.from_agent,
        first.to_agent == second.to_agent,
    ensures
        ({
            let name = mailbox_name(second.from_agent, second.to_agent);
            let after = stored(stored(files, name, document(first)), name, document(second));
            &&& mailbox_name(first.from_agent, first.to_agent) == name
            &&& count_named(after, name) == 1
            &&& after[slot_of(after, name) as int].1 == document(second)
            &&& after == stored(files, name, document(second))
            &&& distinct_names(after)
        }),
{
    let name = mailbox_name(second.from_agent, second.to_agent);
    let once = stored(files, name, document(first));
    lemma_stored(files, name, document(first));
    lemma_stored(once, name, document(second));
    lemma_slot_of_bounds(files, name);
    let at = slot_of(files, name) as int;
    assert(slot_of(once, name) == at) by {
        assert(once[at].0 == name);
        assert forall|j: int| 0 <= j < at implies once[j].0 != name by {
            assert(once[j] == files[j]);
        }
        lemma_slot_of(once, name, at);
    }
    assert(stored(once, name, document(second)) =~= stored(files, name, document(second)));
}

/// Whether what was saved of a message is read back from its document,
/// under the name of its slot: sender, recipient, status, identifier and
/// kind, and the text and the files where they can be told apart in the
/// document, whatever identifier and instant stand in for what a document
/// does not declare.
pub open spec fn saved_reads_back(message: AgentMessageView) -> bool {
    forall|fresh: u128, now: Timestamp|
        (#[trigger] parsed_message(
            mailbox_name(message.from_agent, message.to_agent),
            document(message),
            fresh,
            now,
        ) matches Ok(back) && back.from_agent == message.from_agent && back.to_agent
            == message.to_agent && back.status == message.status && back.id == message.id
            && back.message_type == message.message_type && (cuts_cleanly(message)
            ==> back.content == message.content && back.files_referenced
            == message.files_referenced))
}

impl CommunicationManager {
    /// Saves a message: its document is written into the slot of its
    /// sender and recipient, over what the slot held. Returns the name of
    /// the document.
    pub fn save_message(&self, mailbox: &mut Mailbox, message: &AgentMessage) -> (name: String)
        ensures
            name@ == mailbox_name(message@.from_agent, message@.to_agent),
            final(mailbox)@ == stored(old(mailbox)@, name@, document(message@)),
            saved_reads_back(message@),
    {
        proof {
            lemma_address_round_trip(message@.from_agent, message@.to_agent);
        }
        let name = self.generate_filename(message);
        let content = self.format_message_content(message);
        mailbox.store(name.clone(), content);
        name
    }
}

} // verus!
