//! The compiler diagnostics a load's outcome is reported in.
//!
//! mruby's parser records each diagnostic it produces — an error or a
//! warning — as a line, a column, and message text, in a buffer of slots.
//! `ParseMessage` is the shape those cross into Rust in: a load of source
//! that does not parse reports one as `Error::Syntax`.

use vstd::prelude::*;

verus! {

/// One compiler diagnostic's position and text.
///
/// The fields are private so the layout stays the library's to change;
/// read them through `line`, `column`, and `message`.
#[derive(Debug, Clone, PartialEq, Eq)]
pub struct ParseMessage {
    line: u16,
    column: i32,
    message: String,
}

/// One slot of a parser's diagnostic buffer as the parser left it: its
/// position, and its text when the parser wrote one (`None` for a slot
/// whose text pointer is NULL — a slot the parser counted but never
/// wrote).
pub struct ParseSlot {
    /// The 1-based source line.
    pub lineno: u16,
    /// The 0-based column.
    pub column: i32,
    /// The diagnostic text, when the slot was written.
    pub message: Option<String>,
}

impl ParseMessage {
    /// The line the diagnostic points at.
    pub closed spec fn spec_line(&self) -> u16 {
        self.line
    }

    /// The column the diagnostic points at.
    pub closed spec fn spec_column(&self) -> i32 {
        self.column
    }

    /// The diagnostic text.
    pub closed spec fn spec_message(&self) -> Seq<char> {
        self.message@
    }

    /// The diagnostic a written slot records: its position and text.
    pub open spec fn records(&self, slot: &ParseSlot) -> bool {
        &&& slot.message is Some
        &&& self.spec_line() == slot.lineno
        &&& self.spec_column() == slot.column
        &&& self.spec_message() == slot.message.unwrap()@
    }

    /// This is the diagnostic a buffer reports: that of its first
    /// written slot, or `unrecorded` when no slot was written.
    pub open spec fn first_of(&self, buffer: Seq<ParseSlot>) -> bool {
        &&& (exists|i: int| 0 <= i < buffer.len() && #[trigger] buffer[i].message is Some)
            ==> exists|i: int|
            0 <= i < buffer.len() && self.records(&buffer[i]) && forall|j: int|
                0 <= j < i ==> #[trigger] buffer[j].message is None
        &&& (forall|i: int| 0 <= i < buffer.len() ==> #[trigger] buffer[i].message is None)
            ==> self.is_unrecorded()
    }

    /// The diagnostic of a failure the compiler recorded nothing for.
    pub open spec fn is_unrecorded(&self) -> bool {
        &&& self.spec_line() == 0
        &&& self.spec_column() == 0
        &&& self.spec_message() == Seq::<char>::empty()
    }

    /// The 1-based source line the diagnostic points at, or 0 when the
    /// compiler recorded no diagnostic for the failure.
    pub fn line(&self) -> (r: u16)
        ensures
            r == self.spec_line(),
    {
        self.line
    }

    /// The 0-based column the diagnostic points at, or 0 when the
    /// compiler recorded no diagnostic for the failure.
    pub fn column(&self) -> (r: i32)
        ensures
            r == self.spec_column(),
    {
        self.column
    }

    /// The diagnostic text, empty when the compiler recorded no
    /// diagnostic for the failure.
    pub fn message(&self) -> (r: &str)
        ensures
            r@ == self.spec_message(),
    {
        self.message.as_str()
    }

    /// The message for a failure the compiler recorded no diagnostic
    /// for: zero position, empty text.
    pub fn unrecorded() -> (r: Self)
        ensures
            r.is_unrecorded(),
    {
        ParseMessage { line: 0, column: 0, message: String::new() }
    }

    /// Copy one slot of a parser's diagnostic buffer. A slot whose text
    /// was never written carries no position the compiler recorded, so
    /// it reads back as `unrecorded`.
    pub fn from_slot(slot: &ParseSlot) -> (r: Self)
        ensures
            slot.message is Some ==> r.records(slot),
            slot.message is None ==> r.is_unrecorded(),
    {
        match &slot.message {
            Some(text) => ParseMessage { line: slot.lineno, column: slot.column, message: text.clone() },
            None => Self::unrecorded(),
        }
    }

    /// Copy the first diagnostic the compiler wrote into `buffer`.
    ///
    /// A parser counts a diagnostic before it writes one, so a failure
    /// arriving between the two leaves an earlier slot unwritten. An
    /// unwritten slot carries no position, so it is passed over rather
    /// than reported as one; a buffer with no written slot reads back as
    /// `unrecorded`.
    pub fn first_recorded(buffer: &[ParseSlot]) -> (r: Self)
        ensures
            r.first_of(buffer@),
    {
        let mut i: usize = 0;
        while i < buffer.len()
            invariant
                i <= buffer@.len(),
                forall|j: int| 0 <= j < i ==> #[trigger] buffer@[j].message is None,
            decreases buffer@.len() - i,
        {
            if buffer[i].message.is_some() {
                let r = Self::from_slot(&buffer[i]);
                assert(r.records(&buffer@[i as int]));
                return r;
            }
            i = i + 1;
        }
        Self::unrecorded()
    }
}

/// What a parse of source under a compile context answers: nothing to
/// report when the parser produced a tree without errors; otherwise the
/// compiler's first recorded diagnostic from its error buffer `errors`,
/// or — when no parser was allocated at all, so nothing reached the
/// compiler — the unrecorded diagnostic.
pub fn parse_outcome(
    parser_allocated: bool,
    nerr: usize,
    has_tree: bool,
    errors: &[ParseSlot],
) -> (r: Result<(), ParseMessage>)
    ensures
        !parser_allocated ==> (r matches Err(m) && m.is_unrecorded()),
        parser_allocated && nerr == 0 && has_tree ==> r is Ok,
        parser_allocated && !(nerr == 0 && has_tree) ==> (r matches Err(m) && m.first_of(errors@)),
{
    if !parser_allocated {
        return Err(ParseMessage::unrecorded());
    }
    if nerr == 0 && has_tree {
        Ok(())
    } else {
        Err(ParseMessage::first_recorded(errors))
    }
}

} // verus!
