//! Code lists: documents of definition records, each pairing a code (`name`)
//! with its `description`, read into a map from code to description.
use crate::markup::{local_name_is, local_part, MarkupEvent};
use crate::textmap::TextMap;
use vstd::prelude::*;
use vstd::string::StrSliceExecFns;

verus! {

/// The state of a code-list reading, as values.
pub struct CodeListState {
    pub in_name: bool,
    pub in_desc: bool,
    pub name: Seq<char>,
    pub desc: Seq<char>,
    pub map: Map<Seq<char>, Seq<char>>,
}

pub open spec fn code_list_start() -> CodeListState {
    CodeListState {
        in_name: false,
        in_desc: false,
        name: Seq::empty(),
        desc: Seq::empty(),
        map: Map::empty(),
    }
}

/// One event of a code list. Elements are told apart by local name; a record
/// whose code or description is empty when it closes adds nothing.
pub open spec fn code_list_step(s: CodeListState, ev: MarkupEvent) -> CodeListState {
    match ev {
        MarkupEvent::Start { name, .. } => if local_part(name@) == "name"@ {
            CodeListState { in_name: true, ..s }
        } else if local_part(name@) == "description"@ {
            CodeListState { in_desc: true, ..s }
        } else {
            s
        },
        MarkupEvent::End { name } => if local_part(name@) == "name"@ {
            CodeListState { in_name: false, ..s }
        } else if local_part(name@) == "description"@ {
            CodeListState { in_desc: false, ..s }
        } else if local_part(name@) == "Definition"@ {
            CodeListState {
                name: Seq::empty(),
                desc: Seq::empty(),
                map: if s.name.len() > 0 && s.desc.len() > 0 {
                    s.map.insert(s.name, s.desc)
                } else {
                    s.map
                },
                ..s
            }
        } else {
            s
        },
        MarkupEvent::Text { text } => if s.in_name {
            CodeListState { name: text@, ..s }
        } else if s.in_desc {
            CodeListState { desc: text@, ..s }
        } else {
            s
        },
    }
}

/// The state after the events `evs`, from the start.
pub open spec fn code_list_run(evs: Seq<MarkupEvent>) -> CodeListState
    decreases evs.len(),
{
    if evs.len() == 0 {
        code_list_start()
    } else {
        code_list_step(code_list_run(evs.drop_last()), evs.last())
    }
}

/// Reads a code list event by event.
pub struct CodeListReader {
    pub in_name: bool,
    pub in_desc: bool,
    pub name: String,
    pub desc: String,
    pub map: TextMap,
}

impl CodeListReader {
    pub open spec fn state(&self) -> CodeListState {
        CodeListState {
            in_name: self.in_name,
            in_desc: self.in_desc,
            name: self.name@,
            desc: self.desc@,
            map: self.map@,
        }
    }

    pub open spec fn wf(&self) -> bool {
        self.map.wf()
    }

    pub fn new() -> (r: CodeListReader)
        ensures
            r.wf(),
            r.state() == code_list_start(),
    {
        CodeListReader {
            in_name: false,
            in_desc: false,
            name: String::new(),
            desc: String::new(),
            map: TextMap::new(),
        }
    }

    /// Takes in one event.
    pub fn feed(&mut self, ev: &MarkupEvent)
        requires
            old(self).wf(),
        ensures
            final(self).wf(),
            final(self).state() == code_list_step(old(self).state(), *ev),
    {
        match ev {
            MarkupEvent::Start { name, .. } => {
                if local_name_is(name.as_str(), "name") {
                    self.in_name = true;
                } else if local_name_is(name.as_str(), "description") {
                    self.in_desc = true;
                }
            },
            MarkupEvent::End { name } => {
                if local_name_is(name.as_str(), "name") {
                    self.in_name = false;
                } else if local_name_is(name.as_str(), "description") {
                    self.in_desc = false;
                } else if local_name_is(name.as_str(), "Definition") {
                    if self.name.as_str().unicode_len() > 0 && self.desc.as_str().unicode_len() > 0 {
                        self.map.insert(self.name.clone(), self.desc.clone());
                    }
                    self.name = String::new();
                    self.desc = String::new();
                }
            },
            MarkupEvent::Text { text } => {
                if self.in_name {
                    self.name = text.clone();
                } else if self.in_desc {
                    self.desc = text.clone();
                }
            },
        }
    }
}

/// Reads the definition records of a code list into a map from code to
/// description; a later record with the same code replaces an earlier one.
pub fn parse_code_space(events: &Vec<MarkupEvent>) -> (r: TextMap)
    ensures
        r.wf(),
        r@ == code_list_run(events@).map,
{
    let mut reader = CodeListReader::new();
    let mut i: usize = 0;
    while i < events.len()
        invariant
            i <= events@.len(),
            reader.wf(),
            reader.state() == code_list_run(events@.take(i as int)),
        decreases events.len() - i,
    {
        assert(events@.take(i + 1).drop_last() =~= events@.take(i as int));
        reader.feed(&events[i]);
        i = i + 1;
    }
    assert(events@.take(events@.len() as int) =~= events@);
    reader.map
}

/// The state after the events `evs`, from the state `s`.
pub open spec fn code_list_from(s: CodeListState, evs: Seq<MarkupEvent>) -> CodeListState
    decreases evs.len(),
{
    if evs.len() == 0 {
        s
    } else {
        code_list_step(code_list_from(s, evs.drop_last()), evs.last())
    }
}

proof fn lemma_run_is_from_start(evs: Seq<MarkupEvent>)
    ensures
        code_list_run(evs) == code_list_from(code_list_start(), evs),
    decreases evs.len(),
{
    if evs.len() > 0 {
        lemma_run_is_from_start(evs.drop_last());
    }
}

proof fn lemma_from_concat(s: CodeListState, a: Seq<MarkupEvent>, b: Seq<MarkupEvent>)
    ensures
        code_list_from(s, a + b) == code_list_from(code_list_from(s, a), b),
    decreases b.len(),
{
    if b.len() == 0 {
        assert(a + b =~= a);
    } else {
        lemma_from_concat(s, a, b.drop_last());
        assert((a + b).drop_last() =~= a + b.drop_last());
        assert((a + b).last() == b.last());
    }
}

/// Taking out of a document a run of events that leaves the reading where it
/// found it (as an incomplete definition record does, see
/// `lemma_incomplete_record_unchanged`) changes nothing that follows.
pub proof fn lemma_remove_neutral_record(pre: Seq<MarkupEvent>, rec: Seq<MarkupEvent>, post: Seq<MarkupEvent>)
    requires
        code_list_from(code_list_run(pre), rec) == code_list_run(pre),
    ensures
        code_list_run(pre + rec + post) == code_list_run(pre + post),
{
    lemma_run_is_from_start(pre + rec + post);
    lemma_run_is_from_start(pre + post);
    lemma_run_is_from_start(pre);
    lemma_from_concat(code_list_start(), pre + rec, post);
    lemma_from_concat(code_list_start(), pre, rec);
    lemma_from_concat(code_list_start(), pre, post);
}

/// Between records (no element of a record open, no pending code or
/// description), a definition record `<Definition><name>n</name>
/// <description>d</description></Definition>` with `n` or `d` empty leaves the
/// reading as it found it, map included.
pub proof fn lemma_incomplete_record_unchanged(
    s: CodeListState,
    def: String,
    name: String,
    desc: String,
    n: String,
    d: String,
    attrs: Vec<(String, String)>,
)
    requires
        !s.in_name && !s.in_desc && s.name.len() == 0 && s.desc.len() == 0,
        local_part(def@) == "Definition"@,
        local_part(name@) == "name"@,
        local_part(desc@) == "description"@,
        n@.len() == 0 || d@.len() == 0,
    ensures
        code_list_from(
            s,
            seq![
                MarkupEvent::Start { name: def, attrs: attrs },
                MarkupEvent::Start { name: name, attrs: attrs },
                MarkupEvent::Text { text: n },
                MarkupEvent::End { name: name },
                MarkupEvent::Start { name: desc, attrs: attrs },
                MarkupEvent::Text { text: d },
                MarkupEvent::End { name: desc },
                MarkupEvent::End { name: def },
            ],
        ) == s,
{
    reveal_strlit("Definition");
    reveal_strlit("name");
    reveal_strlit("description");
    assert("Definition"@.len() == 10 && "name"@.len() == 4 && "description"@.len() == 11);
    assert("Definition"@ != "name"@);
    assert("Definition"@ != "description"@);
    assert("description"@ != "name"@);
    reveal_with_fuel(code_list_from, 9);
    let r = code_list_from(
        s,
        seq![
            MarkupEvent::Start { name: def, attrs: attrs },
            MarkupEvent::Start { name: name, attrs: attrs },
            MarkupEvent::Text { text: n },
            MarkupEvent::End { name: name },
            MarkupEvent::Start { name: desc, attrs: attrs },
            MarkupEvent::Text { text: d },
            MarkupEvent::End { name: desc },
            MarkupEvent::End { name: def },
        ],
    );
    assert(r.name =~= s.name);
    assert(r.desc =~= s.desc);
}

/// A definition record that closes with an empty code or an empty description
/// leaves the map as it was, and the next record starts afresh.
pub proof fn lemma_incomplete_record_adds_nothing(s: CodeListState, ev: MarkupEvent)
    requires
        s.name.len() == 0 || s.desc.len() == 0,
        ev matches MarkupEvent::End { name } && local_part(name@) == "Definition"@,
    ensures
        code_list_step(s, ev).map == s.map,
        code_list_step(s, ev).name.len() == 0,
        code_list_step(s, ev).desc.len() == 0,
{
    reveal_strlit("Definition");
    reveal_strlit("name");
    reveal_strlit("description");
    assert("Definition"@.len() == 10);
    assert("Definition"@ != "name"@);
    assert("Definition"@ != "description"@);
}

} // verus!
