//! The state that one request accumulates while its upstream events are
//! translated.

use crate::errors::{ErrorModel, OpenAIErrorResponse};
use crate::text::{copy_str, str_eq};
use crate::upstream::{ChatToolCall, FileData, FileDataModel, ToolCallModel};
use vstd::prelude::*;

verus! {

/// Per-request state of the event translation. `file_refs` holds at most
/// one file for each inline reference, `metadata` at most one value for
/// each key (see `wf`).
#[derive(Debug)]
pub struct EventContext {
    pub content: String,
    pub replace_buffer: Option<String>,
    pub file_refs: Vec<FileData>,
    pub tool_calls: Vec<ChatToolCall>,
    pub is_replace_mode: bool,
    pub error: Option<(u16, OpenAIErrorResponse)>,
    pub done: bool,
    pub completion_tokens: u32,
    pub first_text_processed: bool,
    pub role_chunk_sent: bool,
    pub has_new_file_refs: bool,
    pub image_urls_sent: bool,
    pub reasoning_content: String,
    pub in_thinking_mode: bool,
    pub thinking_started: bool,
    pub current_reasoning_line: String,
    pub pending_text: String,
    pub metadata: Vec<(String, usize)>,
}

pub struct ContextModel {
    pub content: Seq<char>,
    pub replace_buffer: Option<Seq<char>>,
    pub file_refs: Seq<FileDataModel>,
    pub tool_calls: Seq<ToolCallModel>,
    pub is_replace_mode: bool,
    pub error: Option<(u16, ErrorModel)>,
    pub done: bool,
    pub completion_tokens: u32,
    pub first_text_processed: bool,
    pub role_chunk_sent: bool,
    pub has_new_file_refs: bool,
    pub image_urls_sent: bool,
    pub reasoning_content: Seq<char>,
    pub in_thinking_mode: bool,
    pub thinking_started: bool,
    pub current_reasoning_line: Seq<char>,
    pub pending_text: Seq<char>,
    pub metadata: Seq<(Seq<char>, usize)>,
}

impl DeepView for EventContext {
    type V = ContextModel;

    open spec fn deep_view(&self) -> ContextModel {
        ContextModel {
            content: self.content@,
            replace_buffer: self.replace_buffer.deep_view(),
            file_refs: self.file_refs.deep_view(),
            tool_calls: self.tool_calls.deep_view(),
            is_replace_mode: self.is_replace_mode,
            error: self.error.deep_view(),
            done: self.done,
            completion_tokens: self.completion_tokens,
            first_text_processed: self.first_text_processed,
            role_chunk_sent: self.role_chunk_sent,
            has_new_file_refs: self.has_new_file_refs,
            image_urls_sent: self.image_urls_sent,
            reasoning_content: self.reasoning_content@,
            in_thinking_mode: self.in_thinking_mode,
            thinking_started: self.thinking_started,
            current_reasoning_line: self.current_reasoning_line@,
            pending_text: self.pending_text@,
            metadata: self.metadata.deep_view(),
        }
    }
}

/// The state before any event.
pub open spec fn initial_context() -> ContextModel {
    ContextModel {
        content: Seq::empty(),
        replace_buffer: None,
        file_refs: Seq::empty(),
        tool_calls: Seq::empty(),
        is_replace_mode: false,
        error: None,
        done: false,
        completion_tokens: 0,
        first_text_processed: false,
        role_chunk_sent: false,
        has_new_file_refs: false,
        image_urls_sent: false,
        reasoning_content: Seq::empty(),
        in_thinking_mode: false,
        thinking_started: false,
        current_reasoning_line: Seq::empty(),
        pending_text: Seq::empty(),
        metadata: Seq::empty(),
    }
}

/// No inline reference is recorded twice.
pub open spec fn refs_unique(refs: Seq<FileDataModel>) -> bool {
    forall|i: int, j: int|
        0 <= i < j < refs.len() ==> #[trigger] refs[i].inline_ref != #[trigger] refs[j].inline_ref
}

/// No key is recorded twice.
pub open spec fn keys_unique(entries: Seq<(Seq<char>, usize)>) -> bool {
    forall|i: int, j: int|
        0 <= i < j < entries.len() ==> #[trigger] entries[i].0 != #[trigger] entries[j].0
}

/// Index of the entry for `key`, if there is one: the first such index.
pub open spec fn key_index(entries: Seq<(Seq<char>, usize)>, key: Seq<char>, i: int) -> Option<int>
    decreases entries.len() - i,
{
    if i < 0 || i >= entries.len() {
        None
    } else if entries[i].0 == key {
        Some(i)
    } else {
        key_index(entries, key, i + 1)
    }
}

/// The value recorded for `key`.
pub open spec fn lookup(entries: Seq<(Seq<char>, usize)>, key: Seq<char>) -> Option<usize> {
    match key_index(entries, key, 0) {
        Some(i) => Some(entries[i].1),
        None => None,
    }
}

/// The entries after `value` is recorded for `key`: an entry for the key
/// is overwritten in place, a new key goes to the end.
pub open spec fn record(entries: Seq<(Seq<char>, usize)>, key: Seq<char>, value: usize) -> Seq<
    (Seq<char>, usize),
> {
    match key_index(entries, key, 0) {
        Some(i) => entries.update(i, (key, value)),
        None => entries.push((key, value)),
    }
}

pub proof fn lemma_key_index(entries: Seq<(Seq<char>, usize)>, key: Seq<char>, i: int)
    requires
        0 <= i,
    ensures
        match key_index(entries, key, i) {
            Some(k) => i <= k < entries.len() && entries[k].0 == key && forall|j: int|
                i <= j < k ==> entries[j].0 != key,
            None => forall|j: int| i <= j < entries.len() ==> entries[j].0 != key,
        },
    decreases entries.len() - i,
{
    if i < entries.len() && entries[i].0 != key {
        lemma_key_index(entries, key, i + 1);
    }
}

/// What was recorded for a key is what a lookup of that key returns, the
/// other keys keep their values, and no key comes to stand twice.
pub proof fn lemma_record_lookup(
    entries: Seq<(Seq<char>, usize)>,
    key: Seq<char>,
    value: usize,
    other: Seq<char>,
)
    requires
        keys_unique(entries),
    ensures
        lookup(record(entries, key, value), key) == Some(value),
        other != key ==> lookup(record(entries, key, value), other) == lookup(entries, other),
        keys_unique(record(entries, key, value)),
{
    let after = record(entries, key, value);
    lemma_key_index(entries, key, 0);
    lemma_key_index(after, key, 0);
    lemma_key_index(entries, other, 0);
    lemma_key_index(after, other, 0);
    match key_index(entries, key, 0) {
        Some(i) => {
            assert(after[i].0 == key);
            assert forall|a: int, b: int| 0 <= a < b < after.len() implies after[a].0
                != after[b].0 by {
                assert(entries[a].0 != entries[b].0);
            }
            if other != key {
                match key_index(entries, other, 0) {
                    Some(k) => {
                        assert(after[k].0 == other);
                    },
                    None => {
                        assert forall|j: int| 0 <= j < after.len() implies after[j].0 != other by {
                            assert(entries[j].0 != other);
                        }
                    },
                }
            }
        },
        None => {
            assert(after[entries.len() as int].0 == key);
            assert forall|a: int, b: int| 0 <= a < b < after.len() implies after[a].0
                != after[b].0 by {
                if b < entries.len() {
                    assert(entries[a].0 != entries[b].0);
                } else {
                    assert(entries[a].0 != key);
                }
            }
            if other != key {
                match key_index(entries, other, 0) {
                    Some(k) => {
                        assert(after[k].0 == other);
                    },
                    None => {
                        assert forall|j: int| 0 <= j < after.len() implies after[j].0 != other by {
                            if j < entries.len() {
                                assert(entries[j].0 != other);
                            }
                        }
                    },
                }
            }
        },
    }
}

impl EventContext {
    /// The invariant of the two tables.
    pub open spec fn wf(&self) -> bool {
        refs_unique(self.file_refs.deep_view()) && keys_unique(self.metadata.deep_view())
    }

    /// The state before any event.
    pub fn new() -> (r: EventContext)
        ensures
            r.deep_view() == initial_context(),
            r.wf(),
    {
        let r = EventContext {
            content: String::new(),
            replace_buffer: None,
            file_refs: Vec::new(),
            tool_calls: Vec::new(),
            is_replace_mode: false,
            error: None,
            done: false,
            completion_tokens: 0,
            first_text_processed: false,
            role_chunk_sent: false,
            has_new_file_refs: false,
            image_urls_sent: false,
            reasoning_content: String::new(),
            in_thinking_mode: false,
            thinking_started: false,
            current_reasoning_line: String::new(),
            pending_text: String::new(),
            metadata: Vec::new(),
        };
        assert(r.file_refs.deep_view() =~= Seq::empty());
        assert(r.tool_calls.deep_view() =~= Seq::empty());
        assert(r.metadata.deep_view() =~= Seq::empty());
        r
    }

    fn find_key(&self, key: &str) -> (r: Option<usize>)
        ensures
            match r {
                Some(i) => key_index(self.metadata.deep_view(), key@, 0) == Some(i as int) && i
                    < self.metadata.len(),
                None => key_index(self.metadata.deep_view(), key@, 0) is None,
            },
    {
        let mut i: usize = 0;
        while i < self.metadata.len()
            invariant
                i <= self.metadata.len(),
                key_index(self.metadata.deep_view(), key@, 0) == key_index(
                    self.metadata.deep_view(),
                    key@,
                    i as int,
                ),
            decreases self.metadata.len() - i,
        {
            if str_eq(self.metadata[i].0.as_str(), key) {
                return Some(i);
            }
            i += 1;
        }
        None
    }

    /// The value recorded under `key`, if any.
    pub fn get(&self, key: &str) -> (r: Option<usize>)
        ensures
            r == lookup(self.deep_view().metadata, key@),
    {
        match self.find_key(key) {
            Some(i) => Some(self.metadata[i].1),
            None => None,
        }
    }

    /// Records `value` under `key`, in place of what was recorded before.
    pub fn insert(&mut self, key: &str, value: usize)
        ensures
            final(self).deep_view() == (ContextModel {
                metadata: record(old(self).deep_view().metadata, key@, value),
                ..old(self).deep_view()
            }),
            old(self).wf() ==> final(self).wf(),
    {
        let ghost before = self.metadata.deep_view();
        proof {
            if self.wf() {
                lemma_record_lookup(before, key@, value, key@);
            }
        }
        match self.find_key(key) {
            Some(i) => {
                self.metadata.set(i, (copy_str(key), value));
                assert(self.metadata.deep_view() =~= before.update(i as int, (key@, value)));
            },
            None => {
                self.metadata.push((copy_str(key), value));
                assert(self.metadata.deep_view() =~= before.push((key@, value)));
            },
        }
    }
}

impl Default for EventContext {
    fn default() -> (r: EventContext)
        ensures
            r.deep_view() == initial_context(),
            r.wf(),
    {
        EventContext::new()
    }
}

} // verus!
