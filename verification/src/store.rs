//! The memory store: an append-only log of timestamped notes, kept as text.
//!
//! The log is a text that only ever grows at its end. Saving a note adds one
//! entry: a heading line with the time of writing, the note as it was given,
//! and an empty line. Reading gives the whole text back, or a fixed sentence
//! where there is nothing to show.
//!
//! `render_entry` and `render_memories` compute what is written and what is
//! shown, for a host that keeps the log elsewhere. `MemoryStore` keeps a log
//! in memory and stands for the place where one is kept, including a place
//! that cannot be used.

use crate::outcome::view_of;
use crate::text::{
    blank,
    contains_text,
    is_blank,
    lemma_occurs_in_the_middle,
    occurs_at,
    whitespace,
};
use crate::timestamp::{format_timestamp, timestamp_text};
use vstd::prelude::*;
use vstd::string::*;

verus! {

/// What reading gives where no memory has been saved.
pub open spec fn no_memories_text() -> Seq<char> {
    "No memories found yet."@
}

/// One entry of the log: the heading with the time of writing, the note,
/// and an empty line.
pub open spec fn entry_text(unix_secs: int, content: Seq<char>) -> Seq<char> {
    seq!['#', '#', ' '] + timestamp_text(unix_secs) + seq!['\n'] + content + seq!['\n', '\n']
}

/// What reading gives for the text found at the place of the log, `None`
/// where nothing is there: the text itself, or the fixed sentence where it
/// has nothing but white space.
pub open spec fn memories_text(raw: Option<Seq<char>>) -> Seq<char> {
    match raw {
        Some(content) => if blank(content) {
            no_memories_text()
        } else {
            content
        },
        None => no_memories_text(),
    }
}

/// Why the store could not do what was asked.
#[derive(Clone, Debug, PartialEq, Eq)]
pub enum StoreError {
    /// The place of the log could not be opened, read or written.
    IoFailure { message: String },
}

/// A `StoreError` as a specification value.
pub enum StoreFault {
    IoFailure { message: Seq<char> },
}

impl View for StoreError {
    type V = StoreFault;

    open spec fn view(&self) -> StoreFault {
        match self {
            StoreError::IoFailure { message } => StoreFault::IoFailure { message: message@ },
        }
    }
}

impl StoreError {
    /// The failure in words.
    pub fn message(&self) -> (text: String)
        ensures
            text@ == self@->message,
    {
        match self {
            StoreError::IoFailure { message } => message.clone(),
        }
    }
}

/// The place where the log is kept, as a specification value.
pub enum Backing {
    /// Nothing is there yet.
    Absent,
    /// The log is there and holds this text.
    Present(Seq<char>),
    /// The place cannot be opened, read or written, for this reason.
    Unusable(Seq<char>),
}

impl Backing {
    /// The text that the place holds; the empty text where nothing is there.
    pub open spec fn content(self) -> Seq<char> {
        match self {
            Backing::Present(content) => content,
            _ => Seq::empty(),
        }
    }

    /// The place after a note was saved: it holds what it held, and the new
    /// entry behind it. A place that cannot be used stays as it is.
    pub open spec fn after_save(self, unix_secs: int, content: Seq<char>) -> Backing {
        match self {
            Backing::Unusable(reason) => self,
            _ => Backing::Present(self.content() + entry_text(unix_secs, content)),
        }
    }

    /// What saving a note returns.
    pub open spec fn save_outcome(self) -> Result<(), StoreFault> {
        match self {
            Backing::Unusable(reason) => Err(StoreFault::IoFailure { message: reason }),
            _ => Ok(()),
        }
    }

    /// What reading returns.
    pub open spec fn memories(self) -> Result<Seq<char>, StoreFault> {
        match self {
            Backing::Absent => Ok(memories_text(None)),
            Backing::Present(content) => Ok(memories_text(Some(content))),
            Backing::Unusable(reason) => Err(StoreFault::IoFailure { message: reason }),
        }
    }
}

/// The entry for a note written at the given instant.
pub fn render_entry(unix_secs: i64, content: &str) -> (entry: String)
    ensures
        entry@ == entry_text(unix_secs as int, content@),
{
    proof {
        reveal_strlit("## ");
        reveal_strlit("\n");
        reveal_strlit("\n\n");
    }
    let mut entry = String::from_str("## ");
    let stamp = format_timestamp(unix_secs);
    entry.append(stamp.as_str());
    entry.append("\n");
    entry.append(content);
    entry.append("\n\n");
    assert(entry@ =~= entry_text(unix_secs as int, content@)) by {
        assert("## "@ =~= seq!['#', '#', ' ']);
        assert("\n"@ =~= seq!['\n']);
        assert("\n\n"@ =~= seq!['\n', '\n']);
    }
    entry
}

/// What reading gives for the text found at the place of the log, `None`
/// where nothing is there.
pub fn render_memories(raw: Option<&str>) -> (text: String)
    ensures
        text@ == memories_text(
            match raw {
                Some(content) => Some(content@),
                None => None,
            },
        ),
{
    match raw {
        Some(content) => {
            if is_blank(content) {
                String::from_str("No memories found yet.")
            } else {
                String::from_str(content)
            }
        },
        None => String::from_str("No memories found yet."),
    }
}

/// A store that keeps its log in memory.
pub struct MemoryStore {
    place: Place,
}

enum Place {
    Absent,
    Present(String),
    Unusable(String),
}

impl View for MemoryStore {
    type V = Backing;

    closed spec fn view(&self) -> Backing {
        match self.place {
            Place::Absent => Backing::Absent,
            Place::Present(content) => Backing::Present(content@),
            Place::Unusable(reason) => Backing::Unusable(reason@),
        }
    }
}

impl MemoryStore {
    /// A store in which nothing was saved yet.
    pub fn new() -> (store: MemoryStore)
        ensures
            store@ == Backing::Absent,
    {
        MemoryStore { place: Place::Absent }
    }

    /// A store whose log already holds `content`.
    pub fn holding(content: String) -> (store: MemoryStore)
        ensures
            store@ == Backing::Present(content@),
    {
        MemoryStore { place: Place::Present(content) }
    }

    /// A store whose place cannot be used, for the given reason.
    pub fn unusable(reason: String) -> (store: MemoryStore)
        ensures
            store@ == Backing::Unusable(reason@),
    {
        MemoryStore { place: Place::Unusable(reason) }
    }

    /// The text of the log as it stands, `None` where there is no log.
    pub fn contents(&self) -> (raw: Option<&str>)
        ensures
            match raw {
                Some(content) => self@ == Backing::Present(content@),
                None => !(self@ is Present),
            },
    {
        match &self.place {
            Place::Present(content) => Some(content.as_str()),
            _ => None,
        }
    }
}

/// Saves a note, written at the given instant, at the end of the log.
pub fn save_memory(store: &mut MemoryStore, content: &str, unix_secs: i64) -> (result: Result<
    (),
    StoreError,
>)
    ensures
        view_of(result) == old(store)@.save_outcome(),
        final(store)@ == old(store)@.after_save(unix_secs as int, content@),
{
    match &mut store.place {
        Place::Unusable(reason) => Err(StoreError::IoFailure { message: reason.clone() }),
        Place::Present(log) => {
            let entry = render_entry(unix_secs, content);
            log.append(entry.as_str());
            Ok(())
        },
        Place::Absent => {
            let entry = render_entry(unix_secs, content);
            store.place = Place::Present(entry);
            Ok(())
        },
    }
}

/// Reads all that was saved.
pub fn get_memories(store: &MemoryStore) -> (result: Result<String, StoreError>)
    ensures
        view_of(result) == store@.memories(),
{
    match &store.place {
        Place::Unusable(reason) => Err(StoreError::IoFailure { message: reason.clone() }),
        Place::Present(log) => Ok(render_memories(Some(log.as_str()))),
        Place::Absent => Ok(render_memories(None)),
    }
}

/// A memory entry: a note and the instant at which it was written.
pub struct Memory {
    pub unix_secs: int,
    pub content: Seq<char>,
}

/// The text of a log that holds the given entries, the oldest first.
pub open spec fn log_text(entries: Seq<Memory>) -> Seq<char>
    decreases entries.len(),
{
    if entries.len() == 0 {
        Seq::empty()
    } else {
        log_text(entries.drop_last()) + entry_text(
            entries.last().unix_secs,
            entries.last().content,
        )
    }
}

/// A text is a well-formed log where it is made of entries and nothing
/// else.
pub open spec fn well_formed_log(text: Seq<char>) -> bool {
    exists|entries: Seq<Memory>| text == log_text(entries)
}

/// Where the note starts inside its entry: behind the heading line.
pub open spec fn note_offset(unix_secs: int) -> int {
    timestamp_text(unix_secs).len() as int + 4
}

/// An entry holds its note, behind the heading line.
pub proof fn lemma_entry_holds_note(unix_secs: int, content: Seq<char>)
    ensures
        occurs_at(entry_text(unix_secs, content), content, note_offset(unix_secs)),
{
    let entry = entry_text(unix_secs, content);
    let at = note_offset(unix_secs);
    assert(entry.subrange(at, at + content.len()) =~= content);
}

/// A text that ends in an entry is not blank: the heading starts with a
/// character that is no white space.
pub proof fn lemma_entry_not_blank(before: Seq<char>, unix_secs: int, content: Seq<char>)
    ensures
        !blank(before + entry_text(unix_secs, content)),
{
    let text = before + entry_text(unix_secs, content);
    assert(text[before.len() as int] == '#');
    assert(!whitespace(text[before.len() as int]));
}

/// A note that was saved can be read: what reading gives after a save that
/// succeeded holds the note as one piece, whatever the note is.
pub proof fn law_saved_memory_is_read(place: Backing, unix_secs: int, content: Seq<char>)
    requires
        place.save_outcome() is Ok,
    ensures
        place.after_save(unix_secs, content).memories() is Ok,
        contains_text(place.after_save(unix_secs, content).memories()->Ok_0, content),
{
    let before = place.content();
    let entry = entry_text(unix_secs, content);
    lemma_entry_not_blank(before, unix_secs, content);
    lemma_entry_holds_note(unix_secs, content);
    lemma_occurs_in_the_middle(before, entry, Seq::empty(), content, note_offset(unix_secs));
    assert(before + entry + Seq::<char>::empty() =~= before + entry);
    assert(occurs_at(before + entry, content, before.len() + note_offset(unix_secs)));
}

/// A store in which nothing was saved reads as the fixed sentence.
pub proof fn law_empty_store_has_no_memories()
    ensures
        Backing::Absent.memories() == Ok::<Seq<char>, StoreFault>(no_memories_text()),
{
}

/// A log that holds nothing but white space reads as the fixed sentence.
pub proof fn law_blank_log_has_no_memories(content: Seq<char>)
    requires
        blank(content),
    ensures
        Backing::Present(content).memories() == Ok::<Seq<char>, StoreFault>(no_memories_text()),
{
}

/// Notes are read in the order in which they were saved: after three saves
/// what reading gives holds the three notes, each behind the one before it.
pub proof fn law_saved_memories_keep_their_order(
    place: Backing,
    first: Memory,
    second: Memory,
    third: Memory,
)
    requires
        place.save_outcome() is Ok,
    ensures
        ({
            let last = place.after_save(first.unix_secs, first.content).after_save(
                second.unix_secs,
                second.content,
            ).after_save(third.unix_secs, third.content);
            &&& last.memories() is Ok
            &&& exists|a: int, b: int, c: int|
                {
                    &&& occurs_at(last.memories()->Ok_0, first.content, a)
                    &&& occurs_at(last.memories()->Ok_0, second.content, b)
                    &&& occurs_at(last.memories()->Ok_0, third.content, c)
                    &&& a + first.content.len() <= b
                    &&& b + second.content.len() <= c
                }
        }),
{
    let before = place.content();
    let e1 = entry_text(first.unix_secs, first.content);
    let e2 = entry_text(second.unix_secs, second.content);
    let e3 = entry_text(third.unix_secs, third.content);
    let text = before + e1 + e2 + e3;
    let last = place.after_save(first.unix_secs, first.content).after_save(
        second.unix_secs,
        second.content,
    ).after_save(third.unix_secs, third.content);
    assert(last == Backing::Present(text));
    lemma_entry_not_blank(before + e1 + e2, third.unix_secs, third.content);
    assert(last.memories()->Ok_0 == text);

    let a = before.len() + note_offset(first.unix_secs);
    let b = before.len() + e1.len() + note_offset(second.unix_secs);
    let c = before.len() + e1.len() + e2.len() + note_offset(third.unix_secs);
    assert(occurs_at(text, first.content, a)) by {
        lemma_entry_holds_note(first.unix_secs, first.content);
        lemma_occurs_in_the_middle(
            before,
            e1,
            e2 + e3,
            first.content,
            note_offset(first.unix_secs),
        );
        assert(before + e1 + (e2 + e3) =~= text);
    }
    assert(occurs_at(text, second.content, b)) by {
        lemma_entry_holds_note(second.unix_secs, second.content);
        lemma_occurs_in_the_middle(
            before + e1,
            e2,
            e3,
            second.content,
            note_offset(second.unix_secs),
        );
    }
    assert(occurs_at(text, third.content, c)) by {
        lemma_entry_holds_note(third.unix_secs, third.content);
        lemma_occurs_in_the_middle(
            before + e1 + e2,
            e3,
            Seq::empty(),
            third.content,
            note_offset(third.unix_secs),
        );
        assert(before + e1 + e2 + e3 + Seq::<char>::empty() =~= text);
    }
    assert(e1.len() == note_offset(first.unix_secs) + first.content.len() + 2);
    assert(e2.len() == note_offset(second.unix_secs) + second.content.len() + 2);
    assert(a + first.content.len() <= b);
    assert(b + second.content.len() <= c);
}

/// Saving only ever adds at the end: the log after a save starts with the
/// log before it.
pub proof fn law_save_only_appends(place: Backing, unix_secs: int, content: Seq<char>)
    ensures
        place.content().is_prefix_of(place.after_save(unix_secs, content).content()),
        place.save_outcome() is Err ==> place.after_save(unix_secs, content) == place,
{
}

/// The empty text is a well-formed log, and a well-formed log with one
/// more entry behind it is a well-formed log.
pub proof fn law_entries_keep_log_well_formed(text: Seq<char>, unix_secs: int, content: Seq<char>)
    ensures
        well_formed_log(Seq::empty()),
        well_formed_log(text) ==> well_formed_log(text + entry_text(unix_secs, content)),
{
    assert(Seq::<char>::empty() == log_text(Seq::<Memory>::empty()));
    if well_formed_log(text) {
        let entries = choose|entries: Seq<Memory>| text == log_text(entries);
        let longer = entries.push(Memory { unix_secs, content });
        assert(longer.drop_last() =~= entries);
        assert(text + entry_text(unix_secs, content) == log_text(longer));
    }
}

/// Saving keeps a well-formed log well formed.
pub proof fn law_save_keeps_log_well_formed(place: Backing, unix_secs: int, content: Seq<char>)
    requires
        well_formed_log(place.content()),
    ensures
        well_formed_log(place.after_save(unix_secs, content).content()),
{
    law_entries_keep_log_well_formed(place.content(), unix_secs, content);
}

} // verus!
