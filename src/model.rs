//! The data model and the mathematical meaning of replaying operations.
use vstd::prelude::*;
use vstd::string::StringSliceAdditionalSpecFns;
use vstd::utf8::encode_utf8;

use crate::bytes::push_range;

verus! {

/// One edit primitive, anchored at the current cursor.
#[derive(Debug, Clone)]
pub enum Ops {
    /// Insert the bytes of the string at the cursor; the cursor moves past them.
    Insert(String),
    /// Remove that many bytes starting at the cursor; the cursor stays put.
    Delete(usize),
    /// Move the cursor forward by that many bytes.
    Skip(usize),
}

/// An ordered list of operations, applied first to last.
#[derive(Debug, Clone)]
pub struct Transformation {
    pub ops: Vec<Ops>,
}

/// One version of an edited text: its bytes and a cursor offset into them.
#[derive(Debug, Clone)]
pub struct Doc {
    pub text: Vec<u8>,
    pub cursor: usize,
}

/// The abstract state of a document: its bytes and its cursor.
pub type DocState = (Seq<u8>, nat);

impl View for Doc {
    type V = DocState;

    open spec fn view(&self) -> DocState {
        (self.text@, self.cursor as nat)
    }
}

impl Doc {
    /// A document holding the UTF-8 bytes of `text`, with the given cursor.
    pub fn new(text: &str, cursor: usize) -> (r: Doc)
        ensures
            r.text@ == text.spec_bytes(),
            r.cursor == cursor,
    {
        let bytes = text.as_bytes();
        let mut v: Vec<u8> = Vec::new();
        push_range(&mut v, bytes, 0, bytes.len());
        assert(bytes@.subrange(0, bytes@.len() as int) =~= bytes@);
        Doc { text: v, cursor }
    }

    /// The cursor lies within the text (it may sit at its very end).
    pub open spec fn wf(&self) -> bool {
        self.cursor <= self.text.len()
    }
}

/// A state whose cursor lies within its text.
pub open spec fn state_wf(s: DocState) -> bool {
    s.1 <= s.0.len()
}

/// The bytes that an `Insert` of `s` splices in: its UTF-8 encoding.
pub open spec fn insert_bytes(s: &String) -> Seq<u8> {
    encode_utf8(s@)
}

/// Whether a `Skip` or `Delete` would carry the cursor past the end of the text.
pub open spec fn overruns(s: DocState, op: Ops) -> bool {
    match op {
        Ops::Insert(_) => false,
        Ops::Delete(n) => s.1 + n > s.0.len(),
        Ops::Skip(n) => s.1 + n > s.0.len(),
    }
}

/// The effect of one operation on a state, or `None` when it overruns the text.
pub open spec fn step(s: DocState, op: Ops) -> Option<DocState> {
    if overruns(s, op) {
        None
    } else {
        match op {
            Ops::Insert(ins) => Some(
                (
                    s.0.take(s.1 as int) + insert_bytes(&ins) + s.0.skip(s.1 as int),
                    (s.1 + insert_bytes(&ins).len()) as nat,
                ),
            ),
            Ops::Delete(n) => Some((s.0.take(s.1 as int) + s.0.skip(s.1 + n), s.1)),
            Ops::Skip(n) => Some((s.0, (s.1 + n) as nat)),
        }
    }
}

/// The state reached by applying `ops` in order from `start`, or `None` when
/// some operation overruns the text of the state that precedes it.
pub open spec fn replay(start: DocState, ops: Seq<Ops>) -> Option<DocState>
    decreases ops.len(),
{
    if ops.len() == 0 {
        Some(start)
    } else {
        match replay(start, ops.drop_last()) {
            Some(s) => step(s, ops.last()),
            None => None,
        }
    }
}

/// Whether `ops` replayed from `before` ends exactly at `after`, text and cursor.
pub open spec fn accepts(before: DocState, after: DocState, ops: Seq<Ops>) -> bool {
    replay(before, ops) == Some(after)
}

} // verus!
