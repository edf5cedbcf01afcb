//! The schema mapper: folds the XML token stream into a document.
//!
//! The mapping is one total step function from a mapper state and one event
//! to the next state, the finished document, or a failure. The spec side
//! (`spec_step`, `spec_run`, `spec_parse`) defines the mapping over models;
//! the exec side is proved to compute exactly that.

use vstd::prelude::*;
use crate::error::{DeError, ErrModel};
use crate::event::{attrs_model, EventModel, XmlEvent};
use crate::types::{CcyNtry, DocModel, EntryModel, ListOne};
use crate::validate::{spec_is_fund, spec_minor_units, str_eq, validate_is_fund, validate_minor_units};

verus! {

/// Which schema field of an entry an element is being read into.
#[derive(Clone, Copy)]
pub enum Field {
    CtryNm,
    CcyNm,
    Ccy,
    CcyNbr,
    CcyMnrUnts,
}

/// Model of the fields of one entry while its element is being read.
/// `ccy_mnr_unts` is doubly optional: the outer layer records whether the
/// element occurred at all, the inner one whether it carried a number or
/// the "not applicable" sentinel.
pub struct AccModel {
    pub ctry_nm: Option<Seq<char>>,
    pub ccy_nm: Option<Seq<char>>,
    pub is_fund: bool,
    pub ccy: Option<Seq<char>>,
    pub ccy_nbr: Option<Seq<char>>,
    pub ccy_mnr_unts: Option<Option<i32>>,
}

/// Model of where in the document the mapper stands.
pub enum ModeModel {
    /// Before the root element.
    BeforeRoot,
    /// Inside the root element, between its children.
    InRoot,
    /// Inside an unrecognized child of the root, at the given depth.
    SkipInRoot(nat),
    /// Inside the currency table, between its children.
    InTbl,
    /// Inside an unrecognized child of the table, at the given depth.
    SkipInTbl(nat),
    /// Inside an entry element, between its children.
    InEntry(AccModel),
    /// Inside an unrecognized child of an entry, at the given depth.
    SkipInEntry(nat, AccModel),
    /// Inside a recognized field element: the field, the entry so far, the
    /// text gathered so far, and the depth of nested (ignored) elements.
    InField(Field, AccModel, Seq<char>, nat),
}

/// Model of the whole mapper state.
pub struct StateModel {
    pub pblshd: Seq<char>,
    pub entries: Seq<EntryModel>,
    pub tbl_seen: bool,
    pub mode: ModeModel,
}

/// Model of one step's outcome.
pub enum StepModel {
    Next(StateModel),
    Done(DocModel),
    Fail(ErrModel),
}

/// The state the mapper starts in.
pub open spec fn init_state() -> StateModel {
    StateModel {
        pblshd: Seq::empty(),
        entries: Seq::empty(),
        tbl_seen: false,
        mode: ModeModel::BeforeRoot,
    }
}

/// An entry with no field seen yet.
pub open spec fn empty_acc() -> AccModel {
    AccModel {
        ctry_nm: None,
        ccy_nm: None,
        is_fund: false,
        ccy: None,
        ccy_nbr: None,
        ccy_mnr_unts: None,
    }
}

/// The value of the first attribute with the given name, if any.
pub open spec fn spec_find_attr(attrs: Seq<(Seq<char>, Seq<char>)>, name: Seq<char>) -> Option<Seq<char>>
    decreases attrs.len(),
{
    if attrs.len() == 0 {
        None
    } else if attrs[0].0 == name {
        Some(attrs[0].1)
    } else {
        spec_find_attr(attrs.drop_first(), name)
    }
}

/// Closes a recognized field element: records its gathered text on the
/// entry, running the minor-unit validator where the field asks for it.
pub open spec fn spec_commit(st: StateModel, f: Field, acc: AccModel, text: Seq<char>) -> StepModel {
    match f {
        Field::CtryNm => StepModel::Next(
            StateModel { mode: ModeModel::InEntry(AccModel { ctry_nm: Some(text), ..acc }), ..st },
        ),
        Field::CcyNm => StepModel::Next(
            StateModel { mode: ModeModel::InEntry(AccModel { ccy_nm: Some(text), ..acc }), ..st },
        ),
        Field::Ccy => StepModel::Next(
            StateModel { mode: ModeModel::InEntry(AccModel { ccy: Some(text), ..acc }), ..st },
        ),
        Field::CcyNbr => StepModel::Next(
            StateModel { mode: ModeModel::InEntry(AccModel { ccy_nbr: Some(text), ..acc }), ..st },
        ),
        Field::CcyMnrUnts => match spec_minor_units(text) {
            Ok(v) => StepModel::Next(
                StateModel {
                    mode: ModeModel::InEntry(AccModel { ccy_mnr_unts: Some(v), ..acc }),
                    ..st
                },
            ),
            Err(e) => StepModel::Fail(e),
        },
    }
}

/// One step before the root element: its opening tag must carry the
/// publication date attribute.
pub open spec fn spec_step_before_root(st: StateModel, ev: EventModel) -> StepModel {
    match ev {
        EventModel::Start(_n, attrs) => match spec_find_attr(attrs, "Pblshd"@) {
            Some(p) => StepModel::Next(
                StateModel { pblshd: p, mode: ModeModel::InRoot, ..st },
            ),
            None => StepModel::Fail(ErrModel::MissingField("Pblshd"@)),
        },
        EventModel::Empty(_n, attrs) => match spec_find_attr(attrs, "Pblshd"@) {
            Some(_p) => StepModel::Fail(ErrModel::MissingField("CcyTbl"@)),
            None => StepModel::Fail(ErrModel::MissingField("Pblshd"@)),
        },
        EventModel::End(_n) => StepModel::Fail(ErrModel::Syntax("unexpected closing tag"@)),
        EventModel::Text(_t) => StepModel::Next(st),
        EventModel::Eof => StepModel::Fail(ErrModel::UnexpectedEof),
        EventModel::Other => StepModel::Next(st),
    }
}

/// One step between the root's children: the currency table is required,
/// everything else is ignored.
pub open spec fn spec_step_in_root(st: StateModel, ev: EventModel) -> StepModel {
    match ev {
        EventModel::Start(n, _attrs) => if n == "CcyTbl"@ {
            if st.tbl_seen {
                StepModel::Fail(ErrModel::DuplicateField("CcyTbl"@))
            } else {
                StepModel::Next(StateModel { tbl_seen: true, mode: ModeModel::InTbl, ..st })
            }
        } else {
            StepModel::Next(StateModel { mode: ModeModel::SkipInRoot(1), ..st })
        },
        EventModel::Empty(n, _attrs) => if n == "CcyTbl"@ {
            if st.tbl_seen {
                StepModel::Fail(ErrModel::DuplicateField("CcyTbl"@))
            } else {
                StepModel::Next(StateModel { tbl_seen: true, ..st })
            }
        } else {
            StepModel::Next(st)
        },
        EventModel::End(_n) => if st.tbl_seen {
            StepModel::Done(DocModel { pblshd: st.pblshd, entries: st.entries })
        } else {
            StepModel::Fail(ErrModel::MissingField("CcyTbl"@))
        },
        EventModel::Text(_t) => StepModel::Next(st),
        EventModel::Eof => StepModel::Fail(ErrModel::UnexpectedEof),
        EventModel::Other => StepModel::Next(st),
    }
}

/// One step between the table's children: each entry element opens an
/// entry, everything else is ignored.
pub open spec fn spec_step_in_tbl(st: StateModel, ev: EventModel) -> StepModel {
    match ev {
        EventModel::Start(n, _attrs) => if n == "CcyNtry"@ {
            StepModel::Next(StateModel { mode: ModeModel::InEntry(empty_acc()), ..st })
        } else {
            StepModel::Next(StateModel { mode: ModeModel::SkipInTbl(1), ..st })
        },
        EventModel::Empty(n, _attrs) => if n == "CcyNtry"@ {
            StepModel::Fail(ErrModel::MissingField("CtryNm"@))
        } else {
            StepModel::Next(st)
        },
        EventModel::End(_n) => StepModel::Next(StateModel { mode: ModeModel::InRoot, ..st }),
        EventModel::Text(_t) => StepModel::Next(st),
        EventModel::Eof => StepModel::Fail(ErrModel::UnexpectedEof),
        EventModel::Other => StepModel::Next(st),
    }
}

/// One step between an entry's children: the five schema fields are
/// recognized, each at most once; everything else is ignored. The fund
/// flag is validated on the currency name's opening tag.
pub open spec fn spec_step_in_entry(st: StateModel, acc: AccModel, ev: EventModel) -> StepModel {
    match ev {
        EventModel::Start(n, attrs) => if n == "CtryNm"@ {
            if acc.ctry_nm is Some {
                StepModel::Fail(ErrModel::DuplicateField("CtryNm"@))
            } else {
                StepModel::Next(
                    StateModel {
                        mode: ModeModel::InField(Field::CtryNm, acc, Seq::empty(), 1),
                        ..st
                    },
                )
            }
        } else if n == "CcyNm"@ {
            if acc.ccy_nm is Some {
                StepModel::Fail(ErrModel::DuplicateField("CcyNm"@))
            } else {
                match spec_is_fund(spec_find_attr(attrs, "IsFund"@)) {
                    Ok(b) => StepModel::Next(
                        StateModel {
                            mode: ModeModel::InField(
                                Field::CcyNm,
                                AccModel { is_fund: b, ..acc },
                                Seq::empty(),
                                1,
                            ),
                            ..st
                        },
                    ),
                    Err(e) => StepModel::Fail(e),
                }
            }
        } else if n == "Ccy"@ {
            if acc.ccy is Some {
                StepModel::Fail(ErrModel::DuplicateField("Ccy"@))
            } else {
                StepModel::Next(
                    StateModel { mode: ModeModel::InField(Field::Ccy, acc, Seq::empty(), 1), ..st },
                )
            }
        } else if n == "CcyNbr"@ {
            if acc.ccy_nbr is Some {
                StepModel::Fail(ErrModel::DuplicateField("CcyNbr"@))
            } else {
                StepModel::Next(
                    StateModel {
                        mode: ModeModel::InField(Field::CcyNbr, acc, Seq::empty(), 1),
                        ..st
                    },
                )
            }
        } else if n == "CcyMnrUnts"@ {
            if acc.ccy_mnr_unts is Some {
                StepModel::Fail(ErrModel::DuplicateField("CcyMnrUnts"@))
            } else {
                StepModel::Next(
                    StateModel {
                        mode: ModeModel::InField(Field::CcyMnrUnts, acc, Seq::empty(), 1),
                        ..st
                    },
                )
            }
        } else {
            StepModel::Next(StateModel { mode: ModeModel::SkipInEntry(1, acc), ..st })
        },
        EventModel::Empty(n, attrs) => if n == "CtryNm"@ {
            if acc.ctry_nm is Some {
                StepModel::Fail(ErrModel::DuplicateField("CtryNm"@))
            } else {
                spec_commit(st, Field::CtryNm, acc, Seq::empty())
            }
        } else if n == "CcyNm"@ {
            if acc.ccy_nm is Some {
                StepModel::Fail(ErrModel::DuplicateField("CcyNm"@))
            } else {
                match spec_is_fund(spec_find_attr(attrs, "IsFund"@)) {
                    Ok(b) => spec_commit(st, Field::CcyNm, AccModel { is_fund: b, ..acc }, Seq::empty()),
                    Err(e) => StepModel::Fail(e),
                }
            }
        } else if n == "Ccy"@ {
            if acc.ccy is Some {
                StepModel::Fail(ErrModel::DuplicateField("Ccy"@))
            } else {
                spec_commit(st, Field::Ccy, acc, Seq::empty())
            }
        } else if n == "CcyNbr"@ {
            if acc.ccy_nbr is Some {
                StepModel::Fail(ErrModel::DuplicateField("CcyNbr"@))
            } else {
                spec_commit(st, Field::CcyNbr, acc, Seq::empty())
            }
        } else if n == "CcyMnrUnts"@ {
            if acc.ccy_mnr_unts is Some {
                StepModel::Fail(ErrModel::DuplicateField("CcyMnrUnts"@))
            } else {
                spec_commit(st, Field::CcyMnrUnts, acc, Seq::empty())
            }
        } else {
            StepModel::Next(st)
        },
        EventModel::End(_n) => match acc.ctry_nm {
            None => StepModel::Fail(ErrModel::MissingField("CtryNm"@)),
            Some(ct) => match acc.ccy_nm {
                None => StepModel::Fail(ErrModel::MissingField("CcyNm"@)),
                Some(cn) => StepModel::Next(
                    StateModel {
                        entries: st.entries.push(
                            EntryModel {
                                ctry_nm: ct,
                                ccy_nm: cn,
                                is_fund: acc.is_fund,
                                ccy: acc.ccy,
                                ccy_nbr: acc.ccy_nbr,
                                ccy_mnr_unts: match acc.ccy_mnr_unts {
                                    Some(v) => v,
                                    None => None,
                                },
                            },
                        ),
                        mode: ModeModel::InTbl,
                        ..st
                    },
                ),
            },
        },
        EventModel::Text(_t) => StepModel::Next(st),
        EventModel::Eof => StepModel::Fail(ErrModel::UnexpectedEof),
        EventModel::Other => StepModel::Next(st),
    }
}

/// One step inside a recognized field element: text at depth one is
/// gathered, nested elements are ignored, the matching closing tag
/// commits the field.
pub open spec fn spec_step_in_field(
    st: StateModel,
    f: Field,
    acc: AccModel,
    text: Seq<char>,
    d: nat,
    ev: EventModel,
) -> StepModel {
    match ev {
        EventModel::Start(_n, _attrs) => StepModel::Next(
            StateModel { mode: ModeModel::InField(f, acc, text, d + 1), ..st },
        ),
        EventModel::Empty(_n, _attrs) => StepModel::Next(st),
        EventModel::Text(t) => if d <= 1 {
            StepModel::Next(StateModel { mode: ModeModel::InField(f, acc, text + t, d), ..st })
        } else {
            StepModel::Next(st)
        },
        EventModel::End(_n) => if d > 1 {
            StepModel::Next(StateModel { mode: ModeModel::InField(f, acc, text, (d - 1) as nat), ..st })
        } else {
            spec_commit(st, f, acc, text)
        },
        EventModel::Eof => StepModel::Fail(ErrModel::UnexpectedEof),
        EventModel::Other => StepModel::Next(st),
    }
}

/// One step inside an unrecognized child of the root.
pub open spec fn spec_step_skip_in_root(st: StateModel, d: nat, ev: EventModel) -> StepModel {
    match ev {
        EventModel::Start(_n, _attrs) => StepModel::Next(
            StateModel { mode: ModeModel::SkipInRoot(d + 1), ..st },
        ),
        EventModel::End(_n) => if d > 1 {
            StepModel::Next(StateModel { mode: ModeModel::SkipInRoot((d - 1) as nat), ..st })
        } else {
            StepModel::Next(StateModel { mode: ModeModel::InRoot, ..st })
        },
        EventModel::Eof => StepModel::Fail(ErrModel::UnexpectedEof),
        _ => StepModel::Next(st),
    }
}

/// One step inside an unrecognized child of the table.
pub open spec fn spec_step_skip_in_tbl(st: StateModel, d: nat, ev: EventModel) -> StepModel {
    match ev {
        EventModel::Start(_n, _attrs) => StepModel::Next(
            StateModel { mode: ModeModel::SkipInTbl(d + 1), ..st },
        ),
        EventModel::End(_n) => if d > 1 {
            StepModel::Next(StateModel { mode: ModeModel::SkipInTbl((d - 1) as nat), ..st })
        } else {
            StepModel::Next(StateModel { mode: ModeModel::InTbl, ..st })
        },
        EventModel::Eof => StepModel::Fail(ErrModel::UnexpectedEof),
        _ => StepModel::Next(st),
    }
}

/// One step inside an unrecognized child of an entry.
pub open spec fn spec_step_skip_in_entry(st: StateModel, d: nat, acc: AccModel, ev: EventModel) -> StepModel {
    match ev {
        EventModel::Start(_n, _attrs) => StepModel::Next(
            StateModel { mode: ModeModel::SkipInEntry(d + 1, acc), ..st },
        ),
        EventModel::End(_n) => if d > 1 {
            StepModel::Next(StateModel { mode: ModeModel::SkipInEntry((d - 1) as nat, acc), ..st })
        } else {
            StepModel::Next(StateModel { mode: ModeModel::InEntry(acc), ..st })
        },
        EventModel::Eof => StepModel::Fail(ErrModel::UnexpectedEof),
        _ => StepModel::Next(st),
    }
}

/// The whole transition: dispatches on where the mapper stands.
pub open spec fn spec_step(st: StateModel, ev: EventModel) -> StepModel {
    match st.mode {
        ModeModel::BeforeRoot => spec_step_before_root(st, ev),
        ModeModel::InRoot => spec_step_in_root(st, ev),
        ModeModel::SkipInRoot(d) => spec_step_skip_in_root(st, d, ev),
        ModeModel::InTbl => spec_step_in_tbl(st, ev),
        ModeModel::SkipInTbl(d) => spec_step_skip_in_tbl(st, d, ev),
        ModeModel::InEntry(acc) => spec_step_in_entry(st, acc, ev),
        ModeModel::SkipInEntry(d, acc) => spec_step_skip_in_entry(st, d, acc, ev),
        ModeModel::InField(f, acc, text, d) => spec_step_in_field(st, f, acc, text, d, ev),
    }
}

/// Runs the mapper from position `i` in state `st` to its outcome. A
/// stream that ends without finishing the document is a failure.
pub open spec fn spec_run(events: Seq<EventModel>, i: int, st: StateModel) -> Result<DocModel, ErrModel>
    decreases events.len() - i,
{
    if i < 0 || i >= events.len() {
        Err(ErrModel::UnexpectedEof)
    } else {
        match spec_step(st, events[i]) {
            StepModel::Next(st2) => spec_run(events, i + 1, st2),
            StepModel::Done(d) => Ok(d),
            StepModel::Fail(e) => Err(e),
        }
    }
}

/// What parsing a token stream yields: the document, or the first failure.
pub open spec fn spec_parse(events: Seq<EventModel>) -> Result<DocModel, ErrModel> {
    spec_run(events, 0, init_state())
}

/// The nesting depth a state carries, for bounding it.
pub open spec fn mode_depth(m: ModeModel) -> int {
    match m {
        ModeModel::SkipInRoot(d) => d as int,
        ModeModel::SkipInTbl(d) => d as int,
        ModeModel::SkipInEntry(d, _acc) => d as int,
        ModeModel::InField(_f, _acc, _text, d) => d as int,
        _ => 0,
    }
}

/// One step deepens the nesting by at most one.
pub proof fn lemma_step_depth(st: StateModel, ev: EventModel)
    ensures
        match spec_step(st, ev) {
            StepModel::Next(st2) => mode_depth(st2.mode) <= mode_depth(st.mode) + 1,
            _ => true,
        },
{
}

/// The mapper stands inside an entry element.
pub open spec fn mid_entry(m: ModeModel) -> bool {
    match m {
        ModeModel::InEntry(_) => true,
        ModeModel::SkipInEntry(_, _) => true,
        ModeModel::InField(_, _, _, _) => true,
        _ => false,
    }
}

/// The event opens an entry element at table level.
pub open spec fn opens_entry(st: StateModel, ev: EventModel) -> bool {
    match st.mode {
        ModeModel::InTbl => match ev {
            EventModel::Start(n, _attrs) => n == "CcyNtry"@,
            _ => false,
        },
        _ => false,
    }
}

/// How many entry elements the run opens at table level from position `i`.
pub open spec fn run_entry_opens(events: Seq<EventModel>, i: int, st: StateModel) -> int
    decreases events.len() - i,
{
    if i < 0 || i >= events.len() {
        0
    } else {
        match spec_step(st, events[i]) {
            StepModel::Next(st2) => (if opens_entry(st, events[i]) {
                1int
            } else {
                0int
            }) + run_entry_opens(events, i + 1, st2),
            _ => 0,
        }
    }
}

/// One step either keeps the entries gathered so far or appends one, and
/// the count of finished and in-flight entries grows exactly with each
/// entry element opened at table level.
pub proof fn lemma_step_entries(st: StateModel, ev: EventModel)
    ensures
        match spec_step(st, ev) {
            StepModel::Next(st2) => {
                &&& (st2.entries == st.entries || (st2.entries.len() == st.entries.len() + 1
                    && st2.entries.subrange(0, st.entries.len() as int) == st.entries))
                &&& st2.entries.len() + (if mid_entry(st2.mode) {
                    1int
                } else {
                    0int
                }) == st.entries.len() + (if mid_entry(st.mode) {
                    1int
                } else {
                    0int
                }) + (if opens_entry(st, ev) {
                    1int
                } else {
                    0int
                })
            },
            StepModel::Done(d) => d.entries == st.entries && !mid_entry(st.mode),
            StepModel::Fail(_e) => true,
        },
{
    match spec_step(st, ev) {
        StepModel::Next(st2) => {
            if st2.entries.len() == st.entries.len() + 1 {
                assert(st2.entries.subrange(0, st.entries.len() as int) =~= st.entries);
            } else {
                assert(st2.entries =~= st.entries);
            }
        },
        _ => {},
    }
}

/// Law: a run that parses a document keeps every entry gathered so far, in
/// its place and order — later input only appends entries.
pub proof fn lemma_run_entries_extend(events: Seq<EventModel>, i: int, st: StateModel)
    ensures
        match spec_run(events, i, st) {
            Ok(d) => d.entries.len() >= st.entries.len() && d.entries.subrange(
                0,
                st.entries.len() as int,
            ) == st.entries,
            Err(_e) => true,
        },
    decreases events.len() - i,
{
    if i < 0 || i >= events.len() {
    } else {
        lemma_step_entries(st, events[i]);
        match spec_step(st, events[i]) {
            StepModel::Next(st2) => {
                lemma_run_entries_extend(events, i + 1, st2);
                match spec_run(events, i + 1, st2) {
                    Ok(d) => {
                        assert(d.entries.subrange(0, st.entries.len() as int) =~= st.entries);
                    },
                    Err(_e) => {},
                }
            },
            _ => {},
        }
    }
}

/// Law: a run that parses a document yields one entry for each entry
/// element it opens at table level, besides those already gathered and the
/// one possibly in flight.
pub proof fn lemma_run_entry_count(events: Seq<EventModel>, i: int, st: StateModel)
    ensures
        match spec_run(events, i, st) {
            Ok(d) => d.entries.len() == st.entries.len() + run_entry_opens(events, i, st) + (
            if mid_entry(st.mode) {
                1int
            } else {
                0int
            }),
            Err(_e) => true,
        },
    decreases events.len() - i,
{
    if i < 0 || i >= events.len() {
    } else {
        lemma_step_entries(st, events[i]);
        match spec_step(st, events[i]) {
            StepModel::Next(st2) => {
                lemma_run_entry_count(events, i + 1, st2);
            },
            _ => {},
        }
    }
}

/// Law: a document a token stream parses to exposes exactly as many
/// entries as the stream opens entry elements at table level, in source
/// order.
pub proof fn lemma_parse_entry_count(events: Seq<EventModel>)
    ensures
        match spec_parse(events) {
            Ok(d) => d.entries.len() == run_entry_opens(events, 0, init_state()),
            Err(_e) => true,
        },
{
    lemma_run_entry_count(events, 0, init_state());
}

/// The entry being read, if the mapper stands inside one.
pub open spec fn state_acc(m: ModeModel) -> Option<AccModel> {
    match m {
        ModeModel::InEntry(acc) => Some(acc),
        ModeModel::SkipInEntry(_d, acc) => Some(acc),
        ModeModel::InField(_f, acc, _text, _d) => Some(acc),
        _ => None,
    }
}

/// The event opens a currency-name element of an entry that carries a
/// fund-flag attribute.
pub open spec fn opens_ccy_nm_with_fund_attr(st: StateModel, ev: EventModel) -> bool {
    match st.mode {
        ModeModel::InEntry(_acc) => match ev {
            EventModel::Start(n, attrs) => n == "CcyNm"@ && spec_find_attr(attrs, "IsFund"@)
                is Some,
            EventModel::Empty(n, attrs) => n == "CcyNm"@ && spec_find_attr(attrs, "IsFund"@)
                is Some,
            _ => false,
        },
        _ => false,
    }
}

/// No currency-name element in the rest of the run carries a fund flag.
pub open spec fn run_fund_attr_free(events: Seq<EventModel>, i: int, st: StateModel) -> bool
    decreases events.len() - i,
{
    if i < 0 || i >= events.len() {
        true
    } else {
        match spec_step(st, events[i]) {
            StepModel::Next(st2) => !opens_ccy_nm_with_fund_attr(st, events[i])
                && run_fund_attr_free(events, i + 1, st2),
            _ => true,
        }
    }
}

/// The entry being read, if any, has its fund flag still down.
pub open spec fn state_fund_clean(st: StateModel) -> bool {
    match state_acc(st.mode) {
        Some(acc) => !acc.is_fund,
        None => true,
    }
}

/// One step that opens no fund-flagged currency name keeps the fund flag
/// down, and any entry it finishes carries a down flag.
pub proof fn lemma_step_fund_clean(st: StateModel, ev: EventModel)
    requires
        state_fund_clean(st),
        !opens_ccy_nm_with_fund_attr(st, ev),
    ensures
        match spec_step(st, ev) {
            StepModel::Next(st2) => state_fund_clean(st2) && (st2.entries == st.entries || (
            st2.entries.len() == st.entries.len() + 1 && !st2.entries.last().is_fund
                && st2.entries.drop_last() == st.entries)),
            _ => true,
        },
{
    match spec_step(st, ev) {
        StepModel::Next(st2) => {
            if st2.entries.len() == st.entries.len() + 1 {
                assert(st2.entries.drop_last() =~= st.entries);
            } else {
                assert(st2.entries =~= st.entries);
            }
        },
        _ => {},
    }
}

/// Law: in a run where no currency-name element carries a fund-flag
/// attribute, every entry the parsed document adds has its fund flag
/// false — an absent attribute defaults to "not a fund".
pub proof fn lemma_run_fund_defaults_false(events: Seq<EventModel>, i: int, st: StateModel)
    requires
        state_fund_clean(st),
        run_fund_attr_free(events, i, st),
    ensures
        match spec_run(events, i, st) {
            Ok(d) => forall|k: int|
                st.entries.len() <= k < d.entries.len() ==> !(#[trigger] d.entries[k]).is_fund,
            Err(_e) => true,
        },
    decreases events.len() - i,
{
    if i < 0 || i >= events.len() {
    } else {
        match spec_step(st, events[i]) {
            StepModel::Next(st2) => {
                lemma_step_fund_clean(st, events[i]);
                lemma_run_fund_defaults_false(events, i + 1, st2);
                lemma_run_entries_extend(events, i + 1, st2);
                match spec_run(events, i + 1, st2) {
                    Ok(d) => {
                        assert forall|k: int|
                            st.entries.len() <= k < d.entries.len() implies !(
                        #[trigger] d.entries[k]).is_fund by {
                            if k < st2.entries.len() {
                                assert(d.entries[k] == st2.entries[k]);
                                assert(st2.entries[k] == st2.entries.last());
                            }
                        };
                    },
                    Err(_e) => {},
                }
            },
            _ => {},
        }
    }
}

/// Law: the same, for a whole parse — if no currency-name element of the
/// stream carries a fund-flag attribute, no entry of the document is a
/// fund.
pub proof fn lemma_parse_fund_defaults_false(events: Seq<EventModel>)
    requires
        run_fund_attr_free(events, 0, init_state()),
    ensures
        match spec_parse(events) {
            Ok(d) => forall|k: int|
                0 <= k < d.entries.len() ==> !(#[trigger] d.entries[k]).is_fund,
            Err(_e) => true,
        },
{
    lemma_run_fund_defaults_false(events, 0, init_state());
}

/// `f` is one of the three optional schema fields.
pub open spec fn optional_field(f: Field) -> bool {
    match f {
        Field::Ccy => true,
        Field::CcyNbr => true,
        Field::CcyMnrUnts => true,
        _ => false,
    }
}

/// The element name of a schema field.
pub open spec fn field_name(f: Field) -> Seq<char> {
    match f {
        Field::CtryNm => "CtryNm"@,
        Field::CcyNm => "CcyNm"@,
        Field::Ccy => "Ccy"@,
        Field::CcyNbr => "CcyNbr"@,
        Field::CcyMnrUnts => "CcyMnrUnts"@,
    }
}

/// The entry being read has seen no element of the optional field `f`.
pub open spec fn acc_opt_clean(acc: AccModel, f: Field) -> bool {
    match f {
        Field::Ccy => acc.ccy is None,
        Field::CcyNbr => acc.ccy_nbr is None,
        Field::CcyMnrUnts => acc.ccy_mnr_unts is None,
        _ => true,
    }
}

/// A finished entry carries no value for the optional field `f`.
pub open spec fn entry_opt_absent(e: EntryModel, f: Field) -> bool {
    match f {
        Field::Ccy => e.ccy is None,
        Field::CcyNbr => e.ccy_nbr is None,
        Field::CcyMnrUnts => e.ccy_mnr_unts is None,
        _ => true,
    }
}

/// The event opens an element of field `f` inside an entry.
pub open spec fn opens_field(st: StateModel, ev: EventModel, f: Field) -> bool {
    match st.mode {
        ModeModel::InEntry(_acc) => match ev {
            EventModel::Start(n, _attrs) => n == field_name(f),
            EventModel::Empty(n, _attrs) => n == field_name(f),
            _ => false,
        },
        _ => false,
    }
}

/// No element of field `f` opens inside an entry in the rest of the run.
pub open spec fn run_field_free(events: Seq<EventModel>, i: int, st: StateModel, f: Field) -> bool
    decreases events.len() - i,
{
    if i < 0 || i >= events.len() {
        true
    } else {
        match spec_step(st, events[i]) {
            StepModel::Next(st2) => !opens_field(st, events[i], f) && run_field_free(
                events,
                i + 1,
                st2,
                f,
            ),
            _ => true,
        }
    }
}

/// The entry being read, if any, has seen no element of `f`, and no such
/// element is being read.
pub open spec fn state_opt_clean(st: StateModel, f: Field) -> bool {
    match st.mode {
        ModeModel::InEntry(acc) => acc_opt_clean(acc, f),
        ModeModel::SkipInEntry(_d, acc) => acc_opt_clean(acc, f),
        ModeModel::InField(g, acc, _text, _d) => acc_opt_clean(acc, f) && g != f,
        _ => true,
    }
}

/// One step that opens no element of the optional field `f` keeps the
/// entry clean of it, and any entry it finishes carries no value for it.
pub proof fn lemma_step_opt_clean(st: StateModel, ev: EventModel, f: Field)
    requires
        optional_field(f),
        state_opt_clean(st, f),
        !opens_field(st, ev, f),
    ensures
        match spec_step(st, ev) {
            StepModel::Next(st2) => state_opt_clean(st2, f) && (st2.entries == st.entries || (
            st2.entries.len() == st.entries.len() + 1 && entry_opt_absent(st2.entries.last(), f)
                && st2.entries.drop_last() == st.entries)),
            _ => true,
        },
{
    match spec_step(st, ev) {
        StepModel::Next(st2) => {
            if st2.entries.len() == st.entries.len() + 1 {
                assert(st2.entries.drop_last() =~= st.entries);
            } else {
                assert(st2.entries =~= st.entries);
            }
        },
        _ => {},
    }
}

/// Law: in a run where no element of the optional field `f` occurs inside
/// an entry, every entry the parsed document adds carries no value for
/// `f` — an absent optional child is "no value", not an error.
pub proof fn lemma_run_optional_absent(events: Seq<EventModel>, i: int, st: StateModel, f: Field)
    requires
        optional_field(f),
        state_opt_clean(st, f),
        run_field_free(events, i, st, f),
    ensures
        match spec_run(events, i, st) {
            Ok(d) => forall|k: int|
                st.entries.len() <= k < d.entries.len() ==> entry_opt_absent(
                    #[trigger] d.entries[k],
                    f,
                ),
            Err(_e) => true,
        },
    decreases events.len() - i,
{
    if i < 0 || i >= events.len() {
    } else {
        match spec_step(st, events[i]) {
            StepModel::Next(st2) => {
                lemma_step_opt_clean(st, events[i], f);
                lemma_run_optional_absent(events, i + 1, st2, f);
                lemma_run_entries_extend(events, i + 1, st2);
                match spec_run(events, i + 1, st2) {
                    Ok(d) => {
                        assert forall|k: int|
                            st.entries.len() <= k < d.entries.len() implies entry_opt_absent(
                            #[trigger] d.entries[k],
                            f,
                        ) by {
                            if k < st2.entries.len() {
                                assert(d.entries[k] == st2.entries[k]);
                                assert(st2.entries[k] == st2.entries.last());
                            }
                        };
                    },
                    Err(_e) => {},
                }
            },
            _ => {},
        }
    }
}

/// Law: the same, for a whole parse — a document none of whose entries
/// holds an element of the optional field `f` parses with "no value" for
/// `f` in every entry.
pub proof fn lemma_parse_optional_absent(events: Seq<EventModel>, f: Field)
    requires
        optional_field(f),
        run_field_free(events, 0, init_state(), f),
    ensures
        match spec_parse(events) {
            Ok(d) => forall|k: int|
                0 <= k < d.entries.len() ==> entry_opt_absent(#[trigger] d.entries[k], f),
            Err(_e) => true,
        },
{
    lemma_run_optional_absent(events, 0, init_state(), f);
}

/// The fields of one entry while its element is being read.
pub struct EntryAcc {
    pub ctry_nm: Option<String>,
    pub ccy_nm: Option<String>,
    pub is_fund: bool,
    pub ccy: Option<String>,
    pub ccy_nbr: Option<String>,
    pub ccy_mnr_unts: Option<Option<i32>>,
}

impl View for EntryAcc {
    type V = AccModel;

    open spec fn view(&self) -> AccModel {
        AccModel {
            ctry_nm: self.ctry_nm.deep_view(),
            ccy_nm: self.ccy_nm.deep_view(),
            is_fund: self.is_fund,
            ccy: self.ccy.deep_view(),
            ccy_nbr: self.ccy_nbr.deep_view(),
            ccy_mnr_unts: self.ccy_mnr_unts,
        }
    }
}

/// Where in the document the mapper stands.
pub enum Mode {
    BeforeRoot,
    InRoot,
    SkipInRoot(usize),
    InTbl,
    SkipInTbl(usize),
    InEntry(EntryAcc),
    SkipInEntry(usize, EntryAcc),
    InField(Field, EntryAcc, String, usize),
}

impl View for Mode {
    type V = ModeModel;

    open spec fn view(&self) -> ModeModel {
        match self {
            Mode::BeforeRoot => ModeModel::BeforeRoot,
            Mode::InRoot => ModeModel::InRoot,
            Mode::SkipInRoot(d) => ModeModel::SkipInRoot(*d as nat),
            Mode::InTbl => ModeModel::InTbl,
            Mode::SkipInTbl(d) => ModeModel::SkipInTbl(*d as nat),
            Mode::InEntry(acc) => ModeModel::InEntry(acc@),
            Mode::SkipInEntry(d, acc) => ModeModel::SkipInEntry(*d as nat, acc@),
            Mode::InField(f, acc, text, d) => ModeModel::InField(*f, acc@, text@, *d as nat),
        }
    }
}

/// The whole mapper state.
pub struct MapperState {
    pub pblshd: String,
    pub entries: Vec<CcyNtry>,
    pub tbl_seen: bool,
    pub mode: Mode,
}

impl View for MapperState {
    type V = StateModel;

    open spec fn view(&self) -> StateModel {
        StateModel {
            pblshd: self.pblshd@,
            entries: self.entries.deep_view(),
            tbl_seen: self.tbl_seen,
            mode: self.mode@,
        }
    }
}

/// One step's outcome.
pub enum StepOut {
    Next(MapperState),
    Done(ListOne),
    Fail(DeError),
}

impl View for StepOut {
    type V = StepModel;

    open spec fn view(&self) -> StepModel {
        match self {
            StepOut::Next(st) => StepModel::Next(st@),
            StepOut::Done(d) => StepModel::Done(d@),
            StepOut::Fail(e) => StepModel::Fail(e@),
        }
    }
}

/// The value of the first attribute with the given name, if any, cloned.
pub fn find_attr(attrs: &Vec<(String, String)>, name: &str) -> (r: Option<String>)
    ensures
        r.deep_view() == spec_find_attr(attrs_model(attrs@), name@),
{
    let ghost am = attrs_model(attrs@);
    let n = attrs.len();
    proof {
        assert(am.subrange(0, n as int) =~= am);
    }
    let mut i: usize = 0;
    while i < n
        invariant
            n == attrs@.len(),
            am == attrs_model(attrs@),
            am.len() == n,
            i <= n,
            spec_find_attr(am, name@) == spec_find_attr(
                am.subrange(i as int, n as int),
                name@,
            ),
        decreases n - i,
    {
        let ghost rest = am.subrange(i as int, n as int);
        proof {
            assert(rest[0] == am[i as int]);
            assert(am[i as int] == (attrs@[i as int].0@, attrs@[i as int].1@));
            assert(rest.drop_first() =~= am.subrange(i + 1, n as int));
        }
        if str_eq(attrs[i].0.as_str(), name) {
            let v = attrs[i].1.clone();
            return Some(v);
        }
        i += 1;
    }
    proof {
        assert(am.subrange(n as int, n as int).len() == 0);
    }
    None
}

/// Closes a recognized field element, as `spec_commit` says.
fn commit_field(
    pblshd: String,
    entries: Vec<CcyNtry>,
    tbl_seen: bool,
    f: Field,
    acc: EntryAcc,
    text: String,
    Ghost(stm): Ghost<StateModel>,
) -> (r: StepOut)
    requires
        stm.pblshd == pblshd@,
        stm.entries == entries.deep_view(),
        stm.tbl_seen == tbl_seen,
    ensures
        r@ == spec_commit(stm, f, acc@, text@),
{
    match f {
        Field::CtryNm => StepOut::Next(
            MapperState {
                pblshd,
                entries,
                tbl_seen,
                mode: Mode::InEntry(EntryAcc { ctry_nm: Some(text), ..acc }),
            },
        ),
        Field::CcyNm => StepOut::Next(
            MapperState {
                pblshd,
                entries,
                tbl_seen,
                mode: Mode::InEntry(EntryAcc { ccy_nm: Some(text), ..acc }),
            },
        ),
        Field::Ccy => StepOut::Next(
            MapperState {
                pblshd,
                entries,
                tbl_seen,
                mode: Mode::InEntry(EntryAcc { ccy: Some(text), ..acc }),
            },
        ),
        Field::CcyNbr => StepOut::Next(
            MapperState {
                pblshd,
                entries,
                tbl_seen,
                mode: Mode::InEntry(EntryAcc { ccy_nbr: Some(text), ..acc }),
            },
        ),
        Field::CcyMnrUnts => match validate_minor_units(text.as_str()) {
            Ok(v) => StepOut::Next(
                MapperState {
                    pblshd,
                    entries,
                    tbl_seen,
                    mode: Mode::InEntry(EntryAcc { ccy_mnr_unts: Some(v), ..acc }),
                },
            ),
            Err(e) => StepOut::Fail(e),
        },
    }
}

/// One exec step: computes exactly what `spec_step` says.
pub fn step(st: MapperState, ev: &XmlEvent) -> (r: StepOut)
    requires
        mode_depth(st@.mode) < usize::MAX,
    ensures
        r@ == spec_step(st@, ev.deep_view()),
{
    let ghost stm = st@;
    let MapperState { pblshd, entries, tbl_seen, mode } = st;
    match mode {
        Mode::BeforeRoot => match ev {
            XmlEvent::Start(_n, attrs) => match find_attr(attrs, "Pblshd") {
                Some(p) => StepOut::Next(
                    MapperState { pblshd: p, entries, tbl_seen, mode: Mode::InRoot },
                ),
                None => StepOut::Fail(DeError::MissingField(String::from_str("Pblshd"))),
            },
            XmlEvent::Empty(_n, attrs) => match find_attr(attrs, "Pblshd") {
                Some(_p) => StepOut::Fail(DeError::MissingField(String::from_str("CcyTbl"))),
                None => StepOut::Fail(DeError::MissingField(String::from_str("Pblshd"))),
            },
            XmlEvent::End(_n) => StepOut::Fail(
                DeError::Syntax(String::from_str("unexpected closing tag")),
            ),
            XmlEvent::Text(_t) => StepOut::Next(
                MapperState { pblshd, entries, tbl_seen, mode: Mode::BeforeRoot },
            ),
            XmlEvent::Eof => StepOut::Fail(DeError::UnexpectedEof),
            XmlEvent::Other => StepOut::Next(
                MapperState { pblshd, entries, tbl_seen, mode: Mode::BeforeRoot },
            ),
        },
        Mode::InRoot => match ev {
            XmlEvent::Start(n, _attrs) => if str_eq(n.as_str(), "CcyTbl") {
                if tbl_seen {
                    StepOut::Fail(DeError::DuplicateField(String::from_str("CcyTbl")))
                } else {
                    StepOut::Next(
                        MapperState { pblshd, entries, tbl_seen: true, mode: Mode::InTbl },
                    )
                }
            } else {
                StepOut::Next(
                    MapperState { pblshd, entries, tbl_seen, mode: Mode::SkipInRoot(1) },
                )
            },
            XmlEvent::Empty(n, _attrs) => if str_eq(n.as_str(), "CcyTbl") {
                if tbl_seen {
                    StepOut::Fail(DeError::DuplicateField(String::from_str("CcyTbl")))
                } else {
                    StepOut::Next(
                        MapperState { pblshd, entries, tbl_seen: true, mode: Mode::InRoot },
                    )
                }
            } else {
                StepOut::Next(MapperState { pblshd, entries, tbl_seen, mode: Mode::InRoot })
            },
            XmlEvent::End(_n) => if tbl_seen {
                StepOut::Done(ListOne { pblshd, entries })
            } else {
                StepOut::Fail(DeError::MissingField(String::from_str("CcyTbl")))
            },
            XmlEvent::Text(_t) => StepOut::Next(
                MapperState { pblshd, entries, tbl_seen, mode: Mode::InRoot },
            ),
            XmlEvent::Eof => StepOut::Fail(DeError::UnexpectedEof),
            XmlEvent::Other => StepOut::Next(
                MapperState { pblshd, entries, tbl_seen, mode: Mode::InRoot },
            ),
        },
        Mode::SkipInRoot(d) => match ev {
            XmlEvent::Start(_n, _attrs) => StepOut::Next(
                MapperState { pblshd, entries, tbl_seen, mode: Mode::SkipInRoot(d + 1) },
            ),
            XmlEvent::End(_n) => if d > 1 {
                StepOut::Next(
                    MapperState { pblshd, entries, tbl_seen, mode: Mode::SkipInRoot(d - 1) },
                )
            } else {
                StepOut::Next(MapperState { pblshd, entries, tbl_seen, mode: Mode::InRoot })
            },
            XmlEvent::Eof => StepOut::Fail(DeError::UnexpectedEof),
            _ => StepOut::Next(
                MapperState { pblshd, entries, tbl_seen, mode: Mode::SkipInRoot(d) },
            ),
        },
        Mode::InTbl => match ev {
            XmlEvent::Start(n, _attrs) => if str_eq(n.as_str(), "CcyNtry") {
                StepOut::Next(
                    MapperState {
                        pblshd,
                        entries,
                        tbl_seen,
                        mode: Mode::InEntry(
                            EntryAcc {
                                ctry_nm: None,
                                ccy_nm: None,
                                is_fund: false,
                                ccy: None,
                                ccy_nbr: None,
                                ccy_mnr_unts: None,
                            },
                        ),
                    },
                )
            } else {
                StepOut::Next(
                    MapperState { pblshd, entries, tbl_seen, mode: Mode::SkipInTbl(1) },
                )
            },
            XmlEvent::Empty(n, _attrs) => if str_eq(n.as_str(), "CcyNtry") {
                StepOut::Fail(DeError::MissingField(String::from_str("CtryNm")))
            } else {
                StepOut::Next(MapperState { pblshd, entries, tbl_seen, mode: Mode::InTbl })
            },
            XmlEvent::End(_n) => StepOut::Next(
                MapperState { pblshd, entries, tbl_seen, mode: Mode::InRoot },
            ),
            XmlEvent::Text(_t) => StepOut::Next(
                MapperState { pblshd, entries, tbl_seen, mode: Mode::InTbl },
            ),
            XmlEvent::Eof => StepOut::Fail(DeError::UnexpectedEof),
            XmlEvent::Other => StepOut::Next(
                MapperState { pblshd, entries, tbl_seen, mode: Mode::InTbl },
            ),
        },
        Mode::SkipInTbl(d) => match ev {
            XmlEvent::Start(_n, _attrs) => StepOut::Next(
                MapperState { pblshd, entries, tbl_seen, mode: Mode::SkipInTbl(d + 1) },
            ),
            XmlEvent::End(_n) => if d > 1 {
                StepOut::Next(
                    MapperState { pblshd, entries, tbl_seen, mode: Mode::SkipInTbl(d - 1) },
                )
            } else {
                StepOut::Next(MapperState { pblshd, entries, tbl_seen, mode: Mode::InTbl })
            },
            XmlEvent::Eof => StepOut::Fail(DeError::UnexpectedEof),
            _ => StepOut::Next(
                MapperState { pblshd, entries, tbl_seen, mode: Mode::SkipInTbl(d) },
            ),
        },
        Mode::InEntry(acc) => step_in_entry(pblshd, entries, tbl_seen, acc, ev, Ghost(stm)),
        Mode::SkipInEntry(d, acc) => match ev {
            XmlEvent::Start(_n, _attrs) => StepOut::Next(
                MapperState { pblshd, entries, tbl_seen, mode: Mode::SkipInEntry(d + 1, acc) },
            ),
            XmlEvent::End(_n) => if d > 1 {
                StepOut::Next(
                    MapperState {
                        pblshd,
                        entries,
                        tbl_seen,
                        mode: Mode::SkipInEntry(d - 1, acc),
                    },
                )
            } else {
                StepOut::Next(
                    MapperState { pblshd, entries, tbl_seen, mode: Mode::InEntry(acc) },
                )
            },
            XmlEvent::Eof => StepOut::Fail(DeError::UnexpectedEof),
            _ => StepOut::Next(
                MapperState { pblshd, entries, tbl_seen, mode: Mode::SkipInEntry(d, acc) },
            ),
        },
        Mode::InField(f, acc, text, d) => match ev {
            XmlEvent::Start(_n, _attrs) => StepOut::Next(
                MapperState {
                    pblshd,
                    entries,
                    tbl_seen,
                    mode: Mode::InField(f, acc, text, d + 1),
                },
            ),
            XmlEvent::Empty(_n, _attrs) => StepOut::Next(
                MapperState { pblshd, entries, tbl_seen, mode: Mode::InField(f, acc, text, d) },
            ),
            XmlEvent::Text(t) => if d <= 1 {
                let mut text = text;
                text.append(t.as_str());
                StepOut::Next(
                    MapperState {
                        pblshd,
                        entries,
                        tbl_seen,
                        mode: Mode::InField(f, acc, text, d),
                    },
                )
            } else {
                StepOut::Next(
                    MapperState {
                        pblshd,
                        entries,
                        tbl_seen,
                        mode: Mode::InField(f, acc, text, d),
                    },
                )
            },
            XmlEvent::End(_n) => if d > 1 {
                StepOut::Next(
                    MapperState {
                        pblshd,
                        entries,
                        tbl_seen,
                        mode: Mode::InField(f, acc, text, d - 1),
                    },
                )
            } else {
                commit_field(pblshd, entries, tbl_seen, f, acc, text, Ghost(stm))
            },
            XmlEvent::Eof => StepOut::Fail(DeError::UnexpectedEof),
            XmlEvent::Other => StepOut::Next(
                MapperState { pblshd, entries, tbl_seen, mode: Mode::InField(f, acc, text, d) },
            ),
        },
    }
}

/// One exec step between an entry's children, as `spec_step_in_entry` says.
fn step_in_entry(
    pblshd: String,
    entries: Vec<CcyNtry>,
    tbl_seen: bool,
    acc: EntryAcc,
    ev: &XmlEvent,
    Ghost(stm): Ghost<StateModel>,
) -> (r: StepOut)
    requires
        stm.pblshd == pblshd@,
        stm.entries == entries.deep_view(),
        stm.tbl_seen == tbl_seen,
        stm.mode == ModeModel::InEntry(acc@),
    ensures
        r@ == spec_step_in_entry(stm, acc@, ev.deep_view()),
{
    match ev {
        XmlEvent::Start(n, attrs) => if str_eq(n.as_str(), "CtryNm") {
            if acc.ctry_nm.is_some() {
                StepOut::Fail(DeError::DuplicateField(String::from_str("CtryNm")))
            } else {
                StepOut::Next(
                    MapperState {
                        pblshd,
                        entries,
                        tbl_seen,
                        mode: Mode::InField(Field::CtryNm, acc, String::new(), 1),
                    },
                )
            }
        } else if str_eq(n.as_str(), "CcyNm") {
            if acc.ccy_nm.is_some() {
                StepOut::Fail(DeError::DuplicateField(String::from_str("CcyNm")))
            } else {
                let a = find_attr(attrs, "IsFund");
                let ar: Option<&str> = match &a {
                    Some(s) => Some(s.as_str()),
                    None => None,
                };
                match validate_is_fund(ar) {
                    Ok(b) => StepOut::Next(
                        MapperState {
                            pblshd,
                            entries,
                            tbl_seen,
                            mode: Mode::InField(
                                Field::CcyNm,
                                EntryAcc { is_fund: b, ..acc },
                                String::new(),
                                1,
                            ),
                        },
                    ),
                    Err(e) => StepOut::Fail(e),
                }
            }
        } else if str_eq(n.as_str(), "Ccy") {
            if acc.ccy.is_some() {
                StepOut::Fail(DeError::DuplicateField(String::from_str("Ccy")))
            } else {
                StepOut::Next(
                    MapperState {
                        pblshd,
                        entries,
                        tbl_seen,
                        mode: Mode::InField(Field::Ccy, acc, String::new(), 1),
                    },
                )
            }
        } else if str_eq(n.as_str(), "CcyNbr") {
            if acc.ccy_nbr.is_some() {
                StepOut::Fail(DeError::DuplicateField(String::from_str("CcyNbr")))
            } else {
                StepOut::Next(
                    MapperState {
                        pblshd,
                        entries,
                        tbl_seen,
                        mode: Mode::InField(Field::CcyNbr, acc, String::new(), 1),
                    },
                )
            }
        } else if str_eq(n.as_str(), "CcyMnrUnts") {
            if acc.ccy_mnr_unts.is_some() {
                StepOut::Fail(DeError::DuplicateField(String::from_str("CcyMnrUnts")))
            } else {
                StepOut::Next(
                    MapperState {
                        pblshd,
                        entries,
                        tbl_seen,
                        mode: Mode::InField(Field::CcyMnrUnts, acc, String::new(), 1),
                    },
                )
            }
        } else {
            StepOut::Next(
                MapperState { pblshd, entries, tbl_seen, mode: Mode::SkipInEntry(1, acc) },
            )
        },
        XmlEvent::Empty(n, attrs) => if str_eq(n.as_str(), "CtryNm") {
            if acc.ctry_nm.is_some() {
                StepOut::Fail(DeError::DuplicateField(String::from_str("CtryNm")))
            } else {
                commit_field(pblshd, entries, tbl_seen, Field::CtryNm, acc, String::new(), Ghost(stm))
            }
        } else if str_eq(n.as_str(), "CcyNm") {
            if acc.ccy_nm.is_some() {
                StepOut::Fail(DeError::DuplicateField(String::from_str("CcyNm")))
            } else {
                let a = find_attr(attrs, "IsFund");
                let ar: Option<&str> = match &a {
                    Some(s) => Some(s.as_str()),
                    None => None,
                };
                match validate_is_fund(ar) {
                    Ok(b) => commit_field(
                        pblshd,
                        entries,
                        tbl_seen,
                        Field::CcyNm,
                        EntryAcc { is_fund: b, ..acc },
                        String::new(),
                        Ghost(stm),
                    ),
                    Err(e) => StepOut::Fail(e),
                }
            }
        } else if str_eq(n.as_str(), "Ccy") {
            if acc.ccy.is_some() {
                StepOut::Fail(DeError::DuplicateField(String::from_str("Ccy")))
            } else {
                commit_field(pblshd, entries, tbl_seen, Field::Ccy, acc, String::new(), Ghost(stm))
            }
        } else if str_eq(n.as_str(), "CcyNbr") {
            if acc.ccy_nbr.is_some() {
                StepOut::Fail(DeError::DuplicateField(String::from_str("CcyNbr")))
            } else {
                commit_field(pblshd, entries, tbl_seen, Field::CcyNbr, acc, String::new(), Ghost(stm))
            }
        } else if str_eq(n.as_str(), "CcyMnrUnts") {
            if acc.ccy_mnr_unts.is_some() {
                StepOut::Fail(DeError::DuplicateField(String::from_str("CcyMnrUnts")))
            } else {
                commit_field(pblshd, entries, tbl_seen, Field::CcyMnrUnts, acc, String::new(), Ghost(stm))
            }
        } else {
            StepOut::Next(MapperState { pblshd, entries, tbl_seen, mode: Mode::InEntry(acc) })
        },
        XmlEvent::End(_n) => {
            let EntryAcc { ctry_nm, ccy_nm, is_fund, ccy, ccy_nbr, ccy_mnr_unts } = acc;
            match ctry_nm {
                None => StepOut::Fail(DeError::MissingField(String::from_str("CtryNm"))),
                Some(ct) => match ccy_nm {
                    None => StepOut::Fail(DeError::MissingField(String::from_str("CcyNm"))),
                    Some(cn) => {
                        let mnr: Option<i32> = match ccy_mnr_unts {
                            Some(v) => v,
                            None => None,
                        };
                        let entry = CcyNtry {
                            ctry_nm: ct,
                            ccy_nm: cn,
                            is_fund,
                            ccy,
                            ccy_nbr,
                            ccy_mnr_unts: mnr,
                        };
                        let ghost old_entries = entries.deep_view();
                        let mut entries = entries;
                        entries.push(entry);
                        proof {
                            assert(entries.deep_view() =~= old_entries.push(entry@));
                        }
                        StepOut::Next(
                            MapperState { pblshd, entries, tbl_seen, mode: Mode::InTbl },
                        )
                    },
                },
            }
        },
        XmlEvent::Text(_t) => StepOut::Next(
            MapperState { pblshd, entries, tbl_seen, mode: Mode::InEntry(acc) },
        ),
        XmlEvent::Eof => StepOut::Fail(DeError::UnexpectedEof),
        XmlEvent::Other => StepOut::Next(
            MapperState { pblshd, entries, tbl_seen, mode: Mode::InEntry(acc) },
        ),
    }
}

/// Maps a whole token stream onto a document: returns exactly what
/// `spec_parse` says, the parsed document or the first failure.
pub fn parse_events(events: &Vec<XmlEvent>) -> (r: Result<ListOne, DeError>)
    ensures
        match r {
            Ok(d) => spec_parse(events.deep_view()) == Ok::<DocModel, ErrModel>(d@),
            Err(e) => spec_parse(events.deep_view()) == Err::<DocModel, ErrModel>(e@),
        },
{
    let ghost evm = events.deep_view();
    let mut st = MapperState {
        pblshd: String::new(),
        entries: Vec::new(),
        tbl_seen: false,
        mode: Mode::BeforeRoot,
    };
    proof {
        assert(st.entries.deep_view() =~= Seq::<EntryModel>::empty());
        assert(st@ == init_state());
    }
    let mut i: usize = 0;
    while i < events.len()
        invariant
            evm == events.deep_view(),
            evm.len() == events@.len(),
            i <= events.len(),
            spec_run(evm, 0, init_state()) == spec_run(evm, i as int, st@),
            mode_depth(st@.mode) <= i as int,
        decreases events.len() - i,
    {
        let ghost pre = st@;
        let r = step(st, &events[i]);
        proof {
            assert(evm[i as int] == events@[i as int].deep_view());
            lemma_step_depth(pre, evm[i as int]);
        }
        match r {
            StepOut::Next(s2) => {
                proof {
                    assert(spec_run(evm, i as int, pre) == spec_run(evm, i + 1, s2@));
                }
                st = s2;
                i += 1;
            },
            StepOut::Done(d) => {
                proof {
                    assert(spec_run(evm, i as int, pre) == Ok::<DocModel, ErrModel>(d@));
                }
                return Ok(d);
            },
            StepOut::Fail(e) => {
                proof {
                    assert(spec_run(evm, i as int, pre) == Err::<DocModel, ErrModel>(e@));
                }
                return Err(e);
            },
        }
    }
    Err(DeError::UnexpectedEof)
}

} // verus!
