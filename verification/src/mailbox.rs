//! The communications directory as a value: its documents by their
//! names, no two of them under the same name, and what writing a document
//! does to it.
use vstd::prelude::*;

verus! {

/// One document of the mailbox: the name of its file and its text.
#[derive(Debug, Clone)]
pub struct MailboxFile {
    pub name: String,
    pub content: String,
}

impl View for MailboxFile {
    type V = (Seq<char>, Seq<char>);

    open spec fn view(&self) -> (Seq<char>, Seq<char>) {
        (self.name@, self.content@)
    }
}

/// The documents of a communications directory, as names with texts.
pub type Documents = Seq<(Seq<char>, Seq<char>)>;

/// The offset of the first document with the given name; the number of
/// documents where none has it.
pub open spec fn slot_of(files: Documents, name: Seq<char>) -> nat
    decreases files.len(),
{
    if files.len() == 0 || files[0].0 == name {
        0
    } else {
        1 + slot_of(files.drop_first(), name)
    }
}

/// Whether no two documents share a name.
pub open spec fn distinct_names(files: Documents) -> bool {
    forall|i: int, j: int| 0 <= i < j < files.len() ==> files[i].0 != files[j].0
}

/// The documents after one was written: the document of that name has the
/// new text, or, where there was none of that name, a new document comes
/// last.
pub open spec fn stored(files: Documents, name: Seq<char>, content: Seq<char>) -> Documents {
    let at = slot_of(files, name);
    if at < files.len() {
        files.update(at as int, (name, content))
    } else {
        files.push((name, content))
    }
}

/// How many documents have the given name.
pub open spec fn count_named(files: Documents, name: Seq<char>) -> nat
    decreases files.len(),
{
    if files.len() == 0 {
        0
    } else {
        count_named(files.drop_last(), name) + if files.last().0 == name {
            1nat
        } else {
            0nat
        }
    }
}

/// Where the first document of a name stands, told from what stands
/// before it.
pub proof fn lemma_slot_of(files: Documents, name: Seq<char>, k: int)
    requires
        0 <= k <= files.len(),
        forall|j: int| 0 <= j < k ==> files[j].0 != name,
        k == files.len() || files[k].0 == name,
    ensures
        slot_of(files, name) == k,
    decreases files.len(),
{
    if k > 0 {
        let rest = files.drop_first();
        assert forall|j: int| 0 <= j < k - 1 implies rest[j].0 != name by {
            assert(rest[j] == files[j + 1]);
        }
        if k < files.len() {
            assert(rest[k - 1] == files[k]);
        }
        lemma_slot_of(rest, name, k - 1);
    }
}

/// The first document of a name stands within the list or at its end, it
/// has that name, and none before it has.
pub proof fn lemma_slot_of_bounds(files: Documents, name: Seq<char>)
    ensures
        slot_of(files, name) <= files.len(),
        slot_of(files, name) < files.len() ==> files[slot_of(files, name) as int].0 == name,
        forall|j: int| 0 <= j < slot_of(files, name) ==> files[j].0 != name,
    decreases files.len(),
{
    if files.len() > 0 && files[0].0 != name {
        let rest = files.drop_first();
        lemma_slot_of_bounds(rest, name);
        assert forall|j: int| 0 <= j < slot_of(files, name) implies files[j].0 != name by {
            if j > 0 {
                assert(rest[j - 1] == files[j]);
            }
        }
        if slot_of(files, name) < files.len() {
            assert(rest[slot_of(rest, name) as int] == files[slot_of(files, name) as int]);
        }
    }
}

/// The views of a list of documents.
pub open spec fn file_views(files: Seq<MailboxFile>) -> Documents {
    Seq::new(files.len(), |i: int| files[i]@)
}

/// The documents of one communications directory. No two of them share a
/// name.
#[derive(Debug)]
pub struct Mailbox {
    files: Vec<MailboxFile>,
}

impl View for Mailbox {
    type V = Documents;

    closed spec fn view(&self) -> Documents {
        file_views(self.files@)
    }
}

impl Mailbox {
    #[verifier::type_invariant]
    closed spec fn names_differ(self) -> bool {
        distinct_names(self@)
    }

    /// The mailbox without documents.
    pub fn new() -> (mailbox: Mailbox)
        ensures
            mailbox@ == Documents::empty(),
    {
        let mailbox = Mailbox { files: Vec::new() };
        assert(mailbox@ =~= Documents::empty());
        mailbox
    }

    /// How many documents the mailbox holds. No two of them share a name.
    pub fn len(&self) -> (n: usize)
        ensures
            n == self@.len(),
            distinct_names(self@),
    {
        proof {
            use_type_invariant(self);
        }
        self.files.len()
    }

    /// The document at offset `i`.
    pub(crate) fn file(&self, i: usize) -> (file: &MailboxFile)
        requires
            i < self@.len(),
        ensures
            file@ == self@[i as int],
    {
        &self.files[i]
    }

    /// The documents, in their order. No two of them share a name.
    pub fn documents(&self) -> (files: &Vec<MailboxFile>)
        ensures
            files@.len() == self@.len(),
            forall|i: int| 0 <= i < files@.len() ==> (#[trigger] files@[i])@ == self@[i],
            distinct_names(self@),
    {
        proof {
            use_type_invariant(self);
        }
        &self.files
    }

    /// The offset of the document with the given name, if there is one.
    pub fn find(&self, name: &str) -> (found: Option<usize>)
        ensures
            match found {
                Some(i) => i < self@.len() && slot_of(self@, name@) == i,
                None => slot_of(self@, name@) == self@.len(),
            },
    {
        let mut i: usize = 0;
        while i < self.files.len()
            invariant
                i <= self.files@.len(),
                forall|j: int| 0 <= j < i ==> self@[j].0 != name@,
            decreases self.files@.len() - i,
        {
            if crate::text::str_equals(self.files[i].name.as_str(), name) {
                proof {
                    lemma_slot_of(self@, name@, i as int);
                }
                return Some(i);
            }
            i += 1;
        }
        proof {
            lemma_slot_of(self@, name@, i as int);
        }
        None
    }

    /// The text of the document with the given name, if there is one.
    pub fn get(&self, name: &str) -> (content: Option<&str>)
        ensures
            match content {
                Some(text) => slot_of(self@, name@) < self@.len() && text@ == self@[slot_of(
                    self@,
                    name@,
                ) as int].1,
                None => slot_of(self@, name@) == self@.len(),
            },
    {
        match self.find(name) {
            Some(i) => Some(self.files[i].content.as_str()),
            None => None,
        }
    }

    /// Writes a document: over the one of that name, or as a new one.
    pub fn store(&mut self, name: String, content: String)
        ensures
            final(self)@ == stored(old(self)@, name@, content@),
    {
        proof {
            use_type_invariant(&*self);
            lemma_slot_of_bounds(self@, name@);
        }
        let ghost before = self@;
        let found = self.find(name.as_str());
        let mut files: Vec<MailboxFile> = Vec::new();
        std::mem::swap(&mut files, &mut self.files);
        match found {
            Some(i) => {
                files.set(i, MailboxFile { name, content });
                assert(file_views(files@) =~= before.update(i as int, (name@, content@)));
            },
            None => {
                files.push(MailboxFile { name, content });
                assert(file_views(files@) =~= before.push((name@, content@)));
            },
        }
        proof {
            lemma_stored(before, name@, content@);
        }
        self.files = files;
    }
}

/// Writing a document keeps the names of a mailbox distinct, leaves
/// exactly one document of the written name, with the written text, and
/// touches no other document.
pub proof fn lemma_stored(files: Documents, name: Seq<char>, content: Seq<char>)
    requires
        distinct_names(files),
    ensures
        distinct_names(stored(files, name, content)),
        count_named(stored(files, name, content), name) == 1,
        slot_of(stored(files, name, content), name) < stored(files, name, content).len(),
        stored(files, name, content)[slot_of(stored(files, name, content), name) as int].1
            == content,
        forall|other: Seq<char>|
            other != name ==> count_named(stored(files, name, content), other) == count_named(
                files,
                other,
            ),
{
    lemma_slot_of_bounds(files, name);
    let after = stored(files, name, content);
    let at = slot_of(files, name) as int;
    assert(after[at].0 == name);
    assert forall|j: int| 0 <= j < at implies after[j].0 != name by {
        assert(after[j] == files[j]);
    }
    lemma_slot_of(after, name, at);
    lemma_count_of_distinct(after, name, at);
    assert forall|other: Seq<char>| other != name implies count_named(after, other)
        == count_named(files, other) by {
        lemma_count_unchanged(files, name, content, other);
    }
}

/// Among documents of distinct names, a name that one of them has is had
/// by exactly one.
pub proof fn lemma_count_of_distinct(files: Documents, name: Seq<char>, at: int)
    requires
        distinct_names(files),
        0 <= at < files.len(),
        files[at].0 == name,
    ensures
        count_named(files, name) == 1,
    decreases files.len(),
{
    let rest = files.drop_last();
    if at == files.len() - 1 {
        lemma_count_absent(rest, name);
    } else {
        assert(rest[at] == files[at]);
        lemma_count_of_distinct(rest, name, at);
    }
}

/// A name that no document has is counted zero times.
pub proof fn lemma_count_absent(files: Documents, name: Seq<char>)
    requires
        forall|j: int| 0 <= j < files.len() ==> files[j].0 != name,
    ensures
        count_named(files, name) == 0,
    decreases files.len(),
{
    if files.len() > 0 {
        lemma_count_absent(files.drop_last(), name);
    }
}

proof fn lemma_count_unchanged(
    files: Documents,
    name: Seq<char>,
    content: Seq<char>,
    other: Seq<char>,
)
    requires
        other != name,
    ensures
        count_named(stored(files, name, content), other) == count_named(files, other),
{
    lemma_slot_of_bounds(files, name);
    let after = stored(files, name, content);
    let at = slot_of(files, name) as int;
    if at < files.len() {
        lemma_count_same_names(files, after, other);
    } else {
        assert(after.drop_last() =~= files);
    }
}

proof fn lemma_count_same_names(a: Documents, b: Documents, name: Seq<char>)
    requires
        a.len() == b.len(),
        forall|j: int| 0 <= j < a.len() ==> a[j].0 == b[j].0,
    ensures
        count_named(a, name) == count_named(b, name),
    decreases a.len(),
{
    if a.len() > 0 {
        lemma_count_same_names(a.drop_last(), b.drop_last(), name);
    }
}

} // verus!
