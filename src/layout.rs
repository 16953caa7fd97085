//! Walking the runtime's self-describing table of structure fields.
//!
//! The table is an array of fixed-stride records. Each record holds a pointer
//! to a type name, a pointer to a field name and the field's byte offset; the
//! runtime exports the table's address, the stride and the three column
//! offsets. A record with a null name ends the table. The walk is a state
//! machine: it says which memory to read next, and takes what was read.
use vstd::prelude::*;

use crate::offsets::{recorded, DiscoveredOffsets, TargetField};
use crate::text::has_at;

verus! {

/// The five values that the runtime exports to describe its table.
#[derive(Clone, Copy, Debug, PartialEq, Eq, Structural)]
pub struct LayoutSymbols {
    /// Address of the first record.
    pub base: u64,
    /// Bytes from one record to the next.
    pub stride: u64,
    /// Where in a record the pointer to the type name lies.
    pub type_name_offset: u64,
    /// Where in a record the pointer to the field name lies.
    pub field_name_offset: u64,
    /// Where in a record the field's offset lies.
    pub offset_offset: u64,
}

pub open spec fn type_word_thread() -> Seq<char> {
    seq!['J', 'a', 'v', 'a', 'T', 'h', 'r', 'e', 'a', 'd']
}

pub open spec fn field_word_osthread() -> Seq<char> {
    seq!['_', 'o', 's', 't', 'h', 'r', 'e', 'a', 'd']
}

pub open spec fn type_word_osthread() -> Seq<char> {
    seq!['O', 'S', 'T', 'h', 'r', 'e', 'a', 'd']
}

pub open spec fn field_word_thread_id() -> Seq<char> {
    seq!['_', 't', 'h', 'r', 'e', 'a', 'd', '_', 'i', 'd']
}

/// The field that a record with these names describes, among the two that
/// discovery looks for.
pub open spec fn target_of(owner_name: Seq<char>, field_name: Seq<char>) -> Option<TargetField> {
    if owner_name == type_word_thread() && field_name == field_word_osthread() {
        Some(TargetField::OsThread)
    } else if owner_name == type_word_osthread() && field_name == field_word_thread_id() {
        Some(TargetField::OsThreadId)
    } else {
        None
    }
}

fn text_is(s: &str, word: &str) -> (r: bool)
    ensures
        r == (s@ == word@),
{
    if s.unicode_len() != word.unicode_len() {
        return false;
    }
    let r = has_at(s, 0, word);
    assert(s@.subrange(0, s@.len() as int) =~= s@);
    r
}

/// Which of the two sought fields a record with these names describes.
pub fn classify_record(owner_name: &str, field_name: &str) -> (r: Option<TargetField>)
    ensures
        r == target_of(owner_name@, field_name@),
{
    proof {
        reveal_strlit("JavaThread");
        reveal_strlit("_osthread");
        reveal_strlit("OSThread");
        reveal_strlit("_thread_id");
        assert("JavaThread"@ =~= type_word_thread());
        assert("_osthread"@ =~= field_word_osthread());
        assert("OSThread"@ =~= type_word_osthread());
        assert("_thread_id"@ =~= field_word_thread_id());
    }
    if text_is(owner_name, "JavaThread") && text_is(field_name, "_osthread") {
        Some(TargetField::OsThread)
    } else if text_is(owner_name, "OSThread") && text_is(field_name, "_thread_id") {
        Some(TargetField::OsThreadId)
    } else {
        None
    }
}

/// Where the walk stands.
#[derive(Clone, Copy, Debug, PartialEq, Eq, Structural)]
pub enum WalkPhase {
    /// The names of the current record are to be read.
    Names,
    /// The current record describes this field; its offset is to be read.
    Offset(TargetField),
    /// The table has ended, or its addresses ran past the address space.
    Done,
}

/// What the walk needs read next.
#[derive(Clone, Copy, Debug, PartialEq, Eq, Structural)]
pub enum WalkRequest {
    /// Read the type-name and field-name pointers at these addresses, and the
    /// text that each points to where it is not null.
    ReadNames { type_name_at: u64, field_name_at: u64 },
    /// Read the signed 32-bit offset at this address.
    ReadOffset { at: u64 },
    /// Nothing more: the offsets found are final.
    Finished,
}

/// A walk over the layout table.
#[derive(Clone, Copy, Debug, PartialEq, Eq, Structural)]
pub struct TableWalk {
    pub symbols: LayoutSymbols,
    /// Address of the current record.
    pub cursor: u64,
    pub phase: WalkPhase,
    pub offsets: DiscoveredOffsets,
}

/// Whether every column of the record at `cursor` has an address.
pub open spec fn columns_fit(s: LayoutSymbols, cursor: u64) -> bool {
    cursor + s.type_name_offset <= u64::MAX && cursor + s.field_name_offset <= u64::MAX
        && cursor + s.offset_offset <= u64::MAX
}

/// The walk at the record at `cursor`; it ends where that record's columns
/// have no address.
pub open spec fn at_record(s: LayoutSymbols, cursor: u64, o: DiscoveredOffsets) -> TableWalk {
    TableWalk {
        symbols: s,
        cursor,
        phase: if columns_fit(s, cursor) {
            WalkPhase::Names
        } else {
            WalkPhase::Done
        },
        offsets: o,
    }
}

/// The walk moved on to the next record. A stride of zero would never leave
/// the current record, so such a table ends the walk.
pub open spec fn advanced(w: TableWalk) -> TableWalk {
    if w.symbols.stride > 0 && w.cursor + w.symbols.stride <= u64::MAX {
        at_record(w.symbols, (w.cursor + w.symbols.stride) as u64, w.offsets)
    } else {
        TableWalk { phase: WalkPhase::Done, ..w }
    }
}

/// The walk after the names of its record were read; `None` stands for a
/// null pointer.
pub open spec fn after_names(
    w: TableWalk,
    owner_name: Option<Seq<char>>,
    field_name: Option<Seq<char>>,
) -> TableWalk {
    match (owner_name, field_name) {
        (Some(t), Some(f)) => match target_of(t, f) {
            Some(target) => TableWalk { phase: WalkPhase::Offset(target), ..w },
            None => advanced(w),
        },
        _ => TableWalk { phase: WalkPhase::Done, ..w },
    }
}

/// The walk after the offset of its record was read.
pub open spec fn after_offset(w: TableWalk, value: i32) -> TableWalk {
    match w.phase {
        WalkPhase::Offset(target) => advanced(
            TableWalk { offsets: recorded(w.offsets, target, value), ..w },
        ),
        _ => w,
    }
}

/// What a walk in this state asks to read.
pub open spec fn request_of(w: TableWalk) -> WalkRequest {
    match w.phase {
        WalkPhase::Names => WalkRequest::ReadNames {
            type_name_at: (w.cursor + w.symbols.type_name_offset) as u64,
            field_name_at: (w.cursor + w.symbols.field_name_offset) as u64,
        },
        WalkPhase::Offset(_) => WalkRequest::ReadOffset {
            at: (w.cursor + w.symbols.offset_offset) as u64,
        },
        WalkPhase::Done => WalkRequest::Finished,
    }
}

pub open spec fn text_view(t: Option<&str>) -> Option<Seq<char>> {
    match t {
        Some(s) => Some(s@),
        None => None,
    }
}

impl TableWalk {
    pub open spec fn wf(self) -> bool {
        self.offsets.wf() && (self.phase != WalkPhase::Done ==> columns_fit(
            self.symbols,
            self.cursor,
        ))
    }

    pub open spec fn start_spec(symbols: LayoutSymbols) -> TableWalk {
        at_record(symbols, symbols.base, DiscoveredOffsets::unknown_spec())
    }

    /// A walk that starts at the first record, with no offset found.
    pub fn start(symbols: LayoutSymbols) -> (r: TableWalk)
        ensures
            r == TableWalk::start_spec(symbols),
            r.wf(),
    {
        let offsets = DiscoveredOffsets::unknown();
        TableWalk::at(symbols, symbols.base, offsets)
    }

    fn at(s: LayoutSymbols, cursor: u64, offsets: DiscoveredOffsets) -> (r: TableWalk)
        requires
            offsets.wf(),
        ensures
            r == at_record(s, cursor, offsets),
            r.wf(),
    {
        let fits = cursor.checked_add(s.type_name_offset).is_some() && cursor.checked_add(
            s.field_name_offset,
        ).is_some() && cursor.checked_add(s.offset_offset).is_some();
        let phase = if fits {
            WalkPhase::Names
        } else {
            WalkPhase::Done
        };
        TableWalk { symbols: s, cursor, phase, offsets }
    }

    fn advance(&mut self)
        requires
            old(self).wf(),
        ensures
            *final(self) == advanced(*old(self)),
            final(self).wf(),
    {
        if self.symbols.stride == 0 {
            self.phase = WalkPhase::Done;
            return;
        }
        match self.cursor.checked_add(self.symbols.stride) {
            Some(next) => {
                *self = TableWalk::at(self.symbols, next, self.offsets);
            },
            None => {
                self.phase = WalkPhase::Done;
            },
        }
    }

    /// What to read next.
    pub fn request(&self) -> (r: WalkRequest)
        requires
            self.wf(),
        ensures
            r == request_of(*self),
    {
        match self.phase {
            WalkPhase::Names => WalkRequest::ReadNames {
                type_name_at: self.cursor + self.symbols.type_name_offset,
                field_name_at: self.cursor + self.symbols.field_name_offset,
            },
            WalkPhase::Offset(_) => WalkRequest::ReadOffset {
                at: self.cursor + self.symbols.offset_offset,
            },
            WalkPhase::Done => WalkRequest::Finished,
        }
    }

    /// Takes the names of the current record; `None` stands for a null
    /// pointer, which ends the walk.
    pub fn on_names(&mut self, owner_name: Option<&str>, field_name: Option<&str>)
        requires
            old(self).wf(),
            old(self).phase == WalkPhase::Names,
        ensures
            *final(self) == after_names(*old(self), text_view(owner_name), text_view(field_name)),
            final(self).wf(),
            (owner_name is None || field_name is None) ==> final(self).phase == WalkPhase::Done,
    {
        match (owner_name, field_name) {
            (Some(t), Some(f)) => match classify_record(t, f) {
                Some(target) => {
                    self.phase = WalkPhase::Offset(target);
                },
                None => {
                    self.advance();
                },
            },
            _ => {
                self.phase = WalkPhase::Done;
            },
        }
    }

    /// Takes the offset of the current record and moves on to the next one.
    pub fn on_offset(&mut self, value: i32)
        requires
            old(self).wf(),
            old(self).phase is Offset,
        ensures
            *final(self) == after_offset(*old(self), value),
            final(self).wf(),
    {
        match self.phase {
            WalkPhase::Offset(target) => {
                self.offsets.record(target, value);
                self.advance();
            },
            _ => {},
        }
    }

    /// Whether the walk has finished.
    pub fn is_finished(&self) -> (r: bool)
        ensures
            r == (self.phase == WalkPhase::Done),
    {
        self.phase == WalkPhase::Done
    }
}

/// One record of a layout table as read: its names (`None` for a null
/// pointer) and its offset column.
pub struct LayoutRecord {
    pub owner_name: Option<String>,
    pub field_name: Option<String>,
    pub offset: i32,
}

pub open spec fn name_view(t: Option<String>) -> Option<Seq<char>> {
    match t {
        Some(s) => Some(s@),
        None => None,
    }
}

impl LayoutRecord {
    pub open spec fn view(&self) -> (Option<Seq<char>>, Option<Seq<char>>, i32) {
        (name_view(self.owner_name), name_view(self.field_name), self.offset)
    }
}

/// The walk after it was handed one record: its names, and its offset where
/// the names ask for it. A walk that has finished stays as it is.
pub open spec fn fed(w: TableWalk, rec: (Option<Seq<char>>, Option<Seq<char>>, i32)) -> TableWalk {
    if w.phase == WalkPhase::Names {
        let named = after_names(w, rec.0, rec.1);
        if named.phase is Offset {
            after_offset(named, rec.2)
        } else {
            named
        }
    } else {
        w
    }
}

/// The walk after it was handed the records `recs`, in order.
pub open spec fn walked(w: TableWalk, recs: Seq<(Option<Seq<char>>, Option<Seq<char>>, i32)>) -> TableWalk
    decreases recs.len(),
{
    if recs.len() == 0 {
        w
    } else {
        fed(walked(w, recs.drop_last()), recs.last())
    }
}

fn name_ref(t: &Option<String>) -> (r: Option<&str>)
    ensures
        text_view(r) == name_view(*t),
{
    match t {
        Some(s) => Some(s.as_str()),
        None => None,
    }
}

/// Walks a table whose records are already at hand, from its first record,
/// and gives the offsets found.
pub fn walk_records(symbols: LayoutSymbols, records: &Vec<LayoutRecord>) -> (r: DiscoveredOffsets)
    ensures
        r == walked(
            TableWalk::start_spec(symbols),
            records@.map_values(|x: LayoutRecord| x.view()),
        ).offsets,
        r.wf(),
{
    let ghost recs = records@.map_values(|x: LayoutRecord| x.view());
    let mut walk = TableWalk::start(symbols);
    let mut i: usize = 0;
    while i < records.len()
        invariant
            recs == records@.map_values(|x: LayoutRecord| x.view()),
            i <= records.len(),
            walk.wf(),
            walk == walked(TableWalk::start_spec(symbols), recs.subrange(0, i as int)),
        decreases records.len() - i,
    {
        proof {
            assert(recs.subrange(0, i + 1).drop_last() =~= recs.subrange(0, i as int));
            assert(recs.subrange(0, i + 1).last() == records@[i as int].view());
        }
        let rec = &records[i];
        if walk.phase == WalkPhase::Names {
            walk.on_names(name_ref(&rec.owner_name), name_ref(&rec.field_name));
            if let WalkPhase::Offset(_) = walk.phase {
                walk.on_offset(rec.offset);
            }
        }
        i = i + 1;
    }
    assert(recs.subrange(0, records.len() as int) =~= recs);
    walk.offsets
}

proof fn lemma_fed_not_offset(w: TableWalk, rec: (Option<Seq<char>>, Option<Seq<char>>, i32))
    requires
        !(w.phase is Offset),
    ensures
        !(fed(w, rec).phase is Offset),
{
}

proof fn lemma_walked_not_offset(w: TableWalk, recs: Seq<(Option<Seq<char>>, Option<Seq<char>>, i32)>)
    requires
        !(w.phase is Offset),
    ensures
        !(walked(w, recs).phase is Offset),
    decreases recs.len(),
{
    if recs.len() > 0 {
        lemma_walked_not_offset(w, recs.drop_last());
        lemma_fed_not_offset(walked(w, recs.drop_last()), recs.last());
    }
}

proof fn lemma_walked_concat(
    w: TableWalk,
    a: Seq<(Option<Seq<char>>, Option<Seq<char>>, i32)>,
    b: Seq<(Option<Seq<char>>, Option<Seq<char>>, i32)>,
)
    ensures
        walked(w, a + b) == walked(walked(w, a), b),
    decreases b.len(),
{
    if b.len() == 0 {
        assert(a + b =~= a);
    } else {
        assert((a + b).drop_last() =~= a + b.drop_last());
        lemma_walked_concat(w, a, b.drop_last());
    }
}

proof fn lemma_walked_done(w: TableWalk, recs: Seq<(Option<Seq<char>>, Option<Seq<char>>, i32)>)
    requires
        w.phase == WalkPhase::Done,
    ensures
        walked(w, recs) == w,
    decreases recs.len(),
{
    if recs.len() > 0 {
        lemma_walked_done(w, recs.drop_last());
    }
}

/// The walk ends at the first record with a null type-name or field-name
/// pointer: whatever records follow it, well formed or not, change nothing.
pub proof fn lemma_walk_ends_at_null_record(
    symbols: LayoutSymbols,
    recs: Seq<(Option<Seq<char>>, Option<Seq<char>>, i32)>,
    later: Seq<(Option<Seq<char>>, Option<Seq<char>>, i32)>,
)
    requires
        recs.len() > 0,
        recs.last().0 is None || recs.last().1 is None,
    ensures
        walked(TableWalk::start_spec(symbols), recs).phase == WalkPhase::Done,
        walked(TableWalk::start_spec(symbols), recs + later) == walked(
            TableWalk::start_spec(symbols),
            recs,
        ),
{
    let w = TableWalk::start_spec(symbols);
    lemma_walked_not_offset(w, recs.drop_last());
    lemma_walked_concat(w, recs, later);
    lemma_walked_done(walked(w, recs), later);
}

/// An offset once found is never replaced: the first value found for a
/// field is the one the walk keeps, whatever records follow.
pub proof fn lemma_found_offset_kept(w: TableWalk, recs: Seq<(Option<Seq<char>>, Option<Seq<char>>, i32)>)
    ensures
        w.offsets.osthread >= 0 ==> walked(w, recs).offsets.osthread == w.offsets.osthread,
        w.offsets.os_thread_id >= 0 ==> walked(w, recs).offsets.os_thread_id
            == w.offsets.os_thread_id,
    decreases recs.len(),
{
    if recs.len() > 0 {
        lemma_found_offset_kept(w, recs.drop_last());
    }
}

} // verus!
