//! The VialRGB client: one session that checks the lighting protocol
//! version, reads the supported effects page by page, switches to the
//! solid-colour effect and optionally saves it. The caller sends each
//! request and hands back the reply (or the transport's error); any failure
//! ends the session.
//!
//! In an effect-list page the word `0xFFFF` marks the end of the list: the
//! words after it in that page are padding and are not read.
use vstd::prelude::*;

use std::collections::BTreeSet;

use crate::error::DeviceError;
use crate::protocol::{
    le_u16,
    Request,
    CMD_VIA_LIGHTING_GET_VALUE,
    CMD_VIA_LIGHTING_SAVE,
    CMD_VIA_LIGHTING_SET_VALUE,
    COMMAND_ATTEMPTS,
    DEFAULT_EFFECT_SPEED,
    EFFECT_LIST_END,
    MSG_LEN,
    PAGE_ATTEMPTS,
    VIALRGB_EFFECT_SOLID_COLOR,
    VIALRGB_GET_INFO,
    VIALRGB_GET_SUPPORTED,
    VIALRGB_SET_MODE,
};

verus! {

broadcast use vstd::std_specs::btree::group_btree_axioms, vstd::laws_cmp::group_laws_cmp;

/// Pages of the effect list read at most.
pub const MAX_EFFECT_QUERY_ROUNDS: usize = 100;

/// Effect-list words per page: offsets 2, 4, ..., 30.
pub const PAGE_WORDS: usize = 15;

/// The `k`-th effect word of a page.
pub open spec fn page_word(reply: Seq<u8>, k: int) -> u16 {
    le_u16(reply, 2 + 2 * k)
}

/// The effects and cursor after reading words `k..` of a page: each word
/// before the end marker is an effect and raises the cursor to its value;
/// the end marker sets the cursor to `0xFFFF` and ends the page.
pub open spec fn scan_page(effects: Set<u16>, cursor: u16, reply: Seq<u8>, k: int) -> (
    Set<u16>,
    u16,
)
    decreases PAGE_WORDS - k,
{
    if k < 0 || k >= PAGE_WORDS {
        (effects, cursor)
    } else {
        let w = page_word(reply, k);
        if w == EFFECT_LIST_END {
            (effects, EFFECT_LIST_END)
        } else {
            scan_page(effects.insert(w), if w > cursor { w } else { cursor }, reply, k + 1)
        }
    }
}

/// The page holds the end marker.
pub open spec fn page_has_end(reply: Seq<u8>) -> bool {
    exists|k: int| 0 <= k < PAGE_WORDS && page_word(reply, k) == EFFECT_LIST_END
}

/// The stage a session is at.
#[derive(Debug, Clone, PartialEq, Eq)]
pub enum Phase {
    QueryInfo,
    ScanEffects,
    SetMode,
    Save,
    Done,
    Failed(DeviceError),
}

/// The state of a session, as sets and numbers.
pub ghost struct SessionModel {
    pub phase: Phase,
    pub hue: u8,
    pub sat: u8,
    pub val: u8,
    pub persist: bool,
    pub effects: Set<u16>,
    pub cursor: u16,
    pub rounds: nat,
}

/// Setting a solid colour, from the version check to the optional save.
#[derive(Debug)]
pub struct SolidColorSession {
    phase: Phase,
    hue: u8,
    sat: u8,
    val: u8,
    persist: bool,
    effects: BTreeSet<u16>,
    cursor: u16,
    rounds: usize,
}

impl View for SolidColorSession {
    type V = SessionModel;

    closed spec fn view(&self) -> SessionModel {
        SessionModel {
            phase: self.phase,
            hue: self.hue,
            sat: self.sat,
            val: self.val,
            persist: self.persist,
            effects: self.effects@,
            cursor: self.cursor,
            rounds: self.rounds as nat,
        }
    }
}

impl SessionModel {
    /// Mode 0 is always among the effects, the round count stays within its
    /// bound, the scan starts from cursor 0, and an unfinished scan has not
    /// seen the end marker.
    pub open spec fn wf(self) -> bool {
        &&& self.effects.contains(0)
        &&& self.rounds <= MAX_EFFECT_QUERY_ROUNDS
        &&& self.phase is QueryInfo ==> self.cursor == 0 && self.rounds == 0
        &&& self.phase is ScanEffects ==> self.cursor != EFFECT_LIST_END
            && self.rounds < MAX_EFFECT_QUERY_ROUNDS
    }

    /// Waiting for the reply to a request.
    pub open spec fn sending(self) -> bool {
        self.phase is QueryInfo || self.phase is ScanEffects || self.phase is SetMode
            || self.phase is Save
    }

    /// The message to send now.
    pub open spec fn message(self) -> Seq<u8> {
        match self.phase {
            Phase::QueryInfo => seq![CMD_VIA_LIGHTING_GET_VALUE, VIALRGB_GET_INFO],
            Phase::ScanEffects => seq![
                CMD_VIA_LIGHTING_GET_VALUE,
                VIALRGB_GET_SUPPORTED,
                (self.cursor % 256) as u8,
                (self.cursor / 256) as u8,
            ] + Seq::new((MSG_LEN - 4) as nat, |i: int| 0u8),
            Phase::SetMode => seq![
                CMD_VIA_LIGHTING_SET_VALUE,
                VIALRGB_SET_MODE,
                (VIALRGB_EFFECT_SOLID_COLOR % 256) as u8,
                (VIALRGB_EFFECT_SOLID_COLOR / 256) as u8,
                DEFAULT_EFFECT_SPEED,
                self.hue,
                self.sat,
                self.val,
            ],
            _ => seq![CMD_VIA_LIGHTING_SAVE],
        }
    }

    /// How many attempts the current request gets.
    pub open spec fn attempts(self) -> u32 {
        if self.phase is ScanEffects {
            PAGE_ATTEMPTS
        } else {
            COMMAND_ATTEMPTS
        }
    }

    /// The state after the reply to the current request.
    pub open spec fn on_reply(self, reply: Seq<u8>) -> SessionModel {
        match self.phase {
            Phase::QueryInfo => {
                let version = le_u16(reply, 2);
                if version == 1 {
                    SessionModel { phase: Phase::ScanEffects, ..self }
                } else {
                    SessionModel {
                        phase: Phase::Failed(DeviceError::UnsupportedProtocol { version }),
                        ..self
                    }
                }
            },
            Phase::ScanEffects => {
                let (effects, cursor) = scan_page(self.effects, self.cursor, reply, 0);
                let rounds = self.rounds + 1;
                let phase = if cursor == EFFECT_LIST_END {
                    if effects.contains(VIALRGB_EFFECT_SOLID_COLOR) {
                        Phase::SetMode
                    } else {
                        Phase::Failed(DeviceError::UnsupportedEffect)
                    }
                } else if rounds >= MAX_EFFECT_QUERY_ROUNDS {
                    Phase::Failed(DeviceError::TooManyEffects)
                } else {
                    Phase::ScanEffects
                };
                SessionModel { phase, effects, cursor, rounds, ..self }
            },
            Phase::SetMode => SessionModel {
                phase: if self.persist {
                    Phase::Save
                } else {
                    Phase::Done
                },
                ..self
            },
            Phase::Save => SessionModel { phase: Phase::Done, ..self },
            _ => self,
        }
    }
}

proof fn lemma_scan_page(effects: Set<u16>, cursor: u16, reply: Seq<u8>, k: int)
    requires
        0 <= k <= PAGE_WORDS,
        cursor != EFFECT_LIST_END,
    ensures
        scan_page(effects, cursor, reply, k).0.contains(0) <== effects.contains(0),
        effects.subset_of(scan_page(effects, cursor, reply, k).0),
        scan_page(effects, cursor, reply, k).1 == EFFECT_LIST_END <==> exists|j: int|
            k <= j < PAGE_WORDS && page_word(reply, j) == EFFECT_LIST_END,
    decreases PAGE_WORDS - k,
{
    if k < PAGE_WORDS {
        let w = page_word(reply, k);
        if w != EFFECT_LIST_END {
            let c = if w > cursor {
                w
            } else {
                cursor
            };
            lemma_scan_page(effects.insert(w), c, reply, k + 1);
            if exists|j: int| k <= j < PAGE_WORDS && page_word(reply, j) == EFFECT_LIST_END {
                let j = choose|j: int| k <= j < PAGE_WORDS && page_word(reply, j) == EFFECT_LIST_END;
                assert(j != k);
            }
        }
    }
}

/// Reads one page of the effect list into `effects`, returning the next
/// cursor.
fn read_page(effects: &mut BTreeSet<u16>, cursor: u16, reply: &[u8; 32]) -> (next: u16)
    ensures
        (final(effects)@, next) == scan_page(old(effects)@, cursor, reply@, 0),
{
    let ghost start = scan_page(old(effects)@, cursor, reply@, 0);
    let mut c = cursor;
    let mut k: usize = 0;
    while k < PAGE_WORDS
        invariant
            k <= PAGE_WORDS,
            start == scan_page(old(effects)@, cursor, reply@, 0),
            start == scan_page(effects@, c, reply@, k as int),
        decreases PAGE_WORDS - k,
    {
        let w: u16 = reply[2 + 2 * k] as u16 + 256 * reply[3 + 2 * k] as u16;
        assert(w == page_word(reply@, k as int));
        if w == EFFECT_LIST_END {
            return EFFECT_LIST_END;
        }
        effects.insert(w);
        if w > c {
            c = w;
        }
        k = k + 1;
    }
    c
}

impl SolidColorSession {
    /// A session that will set hue `h`, saturation `s` and value `v`, and
    /// save them to the keyboard's memory when `persist` is set.
    pub fn new(h: u8, s: u8, v: u8, persist: bool) -> (r: Self)
        ensures
            r@ == (SessionModel {
                phase: Phase::QueryInfo,
                hue: h,
                sat: s,
                val: v,
                persist,
                effects: set![0u16],
                cursor: 0,
                rounds: 0,
            }),
            r@.wf(),
    {
        let mut effects = BTreeSet::new();
        effects.insert(0u16);
        assert(effects@ =~= set![0u16]);
        SolidColorSession {
            phase: Phase::QueryInfo,
            hue: h,
            sat: s,
            val: v,
            persist,
            effects,
            cursor: 0,
            rounds: 0,
        }
    }

    /// The stage the session is at.
    pub fn phase(&self) -> (r: &Phase)
        ensures
            *r == self@.phase,
    {
        &self.phase
    }

    /// Whether `effect` is among the effects read so far.
    pub fn supports(&self, effect: u16) -> (r: bool)
        ensures
            r == self@.effects.contains(effect),
    {
        self.effects.contains(&effect)
    }

    /// The request to send now, or `None` once the session is over.
    pub fn request(&self) -> (r: Option<Request>)
        ensures
            self@.sending() ==> (r matches Some(q) && q.message@ == self@.message() && q.attempts
                == self@.attempts()),
            !self@.sending() ==> r is None,
    {
        let mut message: Vec<u8> = Vec::new();
        match self.phase {
            Phase::QueryInfo => {
                message.push(CMD_VIA_LIGHTING_GET_VALUE);
                message.push(VIALRGB_GET_INFO);
                assert(message@ =~= self@.message());
                Some(Request { message, attempts: COMMAND_ATTEMPTS })
            },
            Phase::ScanEffects => {
                message.push(CMD_VIA_LIGHTING_GET_VALUE);
                message.push(VIALRGB_GET_SUPPORTED);
                message.push((self.cursor % 256) as u8);
                message.push((self.cursor / 256) as u8);
                while message.len() < MSG_LEN
                    invariant
                        4 <= message@.len() <= MSG_LEN,
                        message@ == seq![
                            CMD_VIA_LIGHTING_GET_VALUE,
                            VIALRGB_GET_SUPPORTED,
                            (self.cursor % 256) as u8,
                            (self.cursor / 256) as u8,
                        ] + Seq::new((message@.len() - 4) as nat, |i: int| 0u8),
                    decreases MSG_LEN - message@.len(),
                {
                    message.push(0);
                    assert(message@ =~= seq![
                        CMD_VIA_LIGHTING_GET_VALUE,
                        VIALRGB_GET_SUPPORTED,
                        (self.cursor % 256) as u8,
                        (self.cursor / 256) as u8,
                    ] + Seq::new((message@.len() - 4) as nat, |i: int| 0u8));
                }
                Some(Request { message, attempts: PAGE_ATTEMPTS })
            },
            Phase::SetMode => {
                message.push(CMD_VIA_LIGHTING_SET_VALUE);
                message.push(VIALRGB_SET_MODE);
                message.push((VIALRGB_EFFECT_SOLID_COLOR % 256) as u8);
                message.push((VIALRGB_EFFECT_SOLID_COLOR / 256) as u8);
                message.push(DEFAULT_EFFECT_SPEED);
                message.push(self.hue);
                message.push(self.sat);
                message.push(self.val);
                assert(message@ =~= self@.message());
                Some(Request { message, attempts: COMMAND_ATTEMPTS })
            },
            Phase::Save => {
                message.push(CMD_VIA_LIGHTING_SAVE);
                assert(message@ =~= self@.message());
                Some(Request { message, attempts: COMMAND_ATTEMPTS })
            },
            _ => None,
        }
    }

    /// Takes the reply to the current request and moves to the next stage.
    pub fn on_reply(&mut self, reply: &[u8; 32])
        requires
            old(self)@.wf(),
            old(self)@.sending(),
        ensures
            final(self)@ == old(self)@.on_reply(reply@),
            final(self)@.wf(),
    {
        match self.phase {
            Phase::QueryInfo => {
                let version: u16 = reply[2] as u16 + 256 * reply[3] as u16;
                if version == 1 {
                    self.phase = Phase::ScanEffects;
                } else {
                    self.phase = Phase::Failed(DeviceError::UnsupportedProtocol { version });
                }
            },
            Phase::ScanEffects => {
                proof {
                    lemma_scan_page(self.effects@, self.cursor, reply@, 0);
                }
                self.cursor = read_page(&mut self.effects, self.cursor, reply);
                self.rounds = self.rounds + 1;
                if self.cursor == EFFECT_LIST_END {
                    if self.effects.contains(&VIALRGB_EFFECT_SOLID_COLOR) {
                        self.phase = Phase::SetMode;
                    } else {
                        self.phase = Phase::Failed(DeviceError::UnsupportedEffect);
                    }
                } else if self.rounds >= MAX_EFFECT_QUERY_ROUNDS {
                    self.phase = Phase::Failed(DeviceError::TooManyEffects);
                }
            },
            Phase::SetMode => {
                if self.persist {
                    self.phase = Phase::Save;
                } else {
                    self.phase = Phase::Done;
                }
            },
            _ => {
                self.phase = Phase::Done;
            },
        }
    }

    /// The current request failed at the transport: the session ends with
    /// that error.
    pub fn on_failure(&mut self, error: DeviceError)
        requires
            old(self)@.wf(),
        ensures
            final(self)@ == (SessionModel { phase: Phase::Failed(error), ..old(self)@ }),
            final(self)@.wf(),
    {
        self.phase = Phase::Failed(error);
    }
}

/// Each reply keeps a session well formed.
pub proof fn lemma_on_reply_wf(m: SessionModel, reply: Seq<u8>)
    requires
        m.wf(),
        m.sending(),
    ensures
        m.on_reply(reply).wf(),
{
    if m.phase is ScanEffects {
        lemma_scan_page(m.effects, m.cursor, reply, 0);
    }
}

/// The session after each page of `pages` in turn, for as long as it is
/// reading the effect list.
pub open spec fn run_scan(m: SessionModel, pages: Seq<Seq<u8>>) -> SessionModel
    decreases pages.len(),
{
    if m.phase is ScanEffects && pages.len() > 0 {
        run_scan(m.on_reply(pages[0]), pages.drop_first())
    } else {
        m
    }
}

proof fn lemma_page_end(m: SessionModel, page: Seq<u8>)
    requires
        m.wf(),
        m.phase is ScanEffects,
    ensures
        m.on_reply(page).cursor == EFFECT_LIST_END <==> page_has_end(page),
        m.on_reply(page).effects.contains(0),
        m.on_reply(page).rounds == m.rounds + 1,
{
    lemma_scan_page(m.effects, m.cursor, page, 0);
}

proof fn lemma_scan_reaches_end(m: SessionModel, pages: Seq<Seq<u8>>, k: int)
    requires
        m.wf(),
        m.phase is ScanEffects,
        0 <= k < MAX_EFFECT_QUERY_ROUNDS - m.rounds,
        k < pages.len(),
        forall|j: int| 0 <= j < k ==> !page_has_end(#[trigger] pages[j]),
        page_has_end(pages[k]),
    ensures
        run_scan(m, pages).rounds == m.rounds + k + 1,
        run_scan(m, pages).effects.contains(0),
        run_scan(m, pages).phase is SetMode || run_scan(m, pages).phase == Phase::Failed(
            DeviceError::UnsupportedEffect,
        ),
        run_scan(m, pages).phase is SetMode <==> run_scan(m, pages).effects.contains(
            VIALRGB_EFFECT_SOLID_COLOR,
        ),
    decreases k,
{
    let m1 = m.on_reply(pages[0]);
    lemma_page_end(m, pages[0]);
    lemma_on_reply_wf(m, pages[0]);
    if k > 0 {
        assert(!page_has_end(pages[0]));
        assert forall|j: int| 0 <= j < k - 1 implies !page_has_end(
            #[trigger] pages.drop_first()[j],
        ) by {
            assert(pages.drop_first()[j] == pages[j + 1]);
        }
        assert(pages.drop_first()[k - 1] == pages[k]);
        lemma_scan_reaches_end(m1, pages.drop_first(), k - 1);
    }
}

/// A scan that starts afresh ends at the first page holding the end
/// marker, provided that page is among the first hundred: after exactly
/// that many rounds it moves on to setting the mode if the solid-colour
/// effect was listed, and fails with `UnsupportedEffect` otherwise. Mode 0
/// is among the effects either way.
pub proof fn lemma_scan_terminates(m: SessionModel, pages: Seq<Seq<u8>>, k: int)
    requires
        m.wf(),
        m.phase is ScanEffects,
        m.rounds == 0,
        0 <= k < MAX_EFFECT_QUERY_ROUNDS,
        k < pages.len(),
        forall|j: int| 0 <= j < k ==> !page_has_end(#[trigger] pages[j]),
        page_has_end(pages[k]),
    ensures
        run_scan(m, pages).rounds == k + 1,
        run_scan(m, pages).effects.contains(0),
        run_scan(m, pages).phase is SetMode || run_scan(m, pages).phase == Phase::Failed(
            DeviceError::UnsupportedEffect,
        ),
        run_scan(m, pages).phase is SetMode <==> run_scan(m, pages).effects.contains(
            VIALRGB_EFFECT_SOLID_COLOR,
        ),
{
    lemma_scan_reaches_end(m, pages, k);
}

proof fn lemma_scan_runs_out(m: SessionModel, pages: Seq<Seq<u8>>)
    requires
        m.wf(),
        m.phase is ScanEffects,
        pages.len() >= MAX_EFFECT_QUERY_ROUNDS - m.rounds,
        forall|j: int|
            0 <= j < MAX_EFFECT_QUERY_ROUNDS - m.rounds ==> !page_has_end(#[trigger] pages[j]),
    ensures
        run_scan(m, pages).phase == Phase::Failed(DeviceError::TooManyEffects),
        run_scan(m, pages).rounds == MAX_EFFECT_QUERY_ROUNDS,
        run_scan(m, pages).effects.contains(0),
    decreases pages.len(),
{
    let m1 = m.on_reply(pages[0]);
    lemma_page_end(m, pages[0]);
    lemma_on_reply_wf(m, pages[0]);
    if m1.phase is ScanEffects {
        assert forall|j: int| 0 <= j < MAX_EFFECT_QUERY_ROUNDS - m1.rounds implies !page_has_end(
            #[trigger] pages.drop_first()[j],
        ) by {
            assert(pages.drop_first()[j] == pages[j + 1]);
        }
        lemma_scan_runs_out(m1, pages.drop_first());
    }
}

/// A scan that starts afresh and sees no end marker in its first hundred
/// pages fails with `TooManyEffects` after exactly a hundred rounds.
pub proof fn lemma_scan_bounded(m: SessionModel, pages: Seq<Seq<u8>>)
    requires
        m.wf(),
        m.phase is ScanEffects,
        m.rounds == 0,
        pages.len() >= MAX_EFFECT_QUERY_ROUNDS,
        forall|j: int| 0 <= j < MAX_EFFECT_QUERY_ROUNDS ==> !page_has_end(#[trigger] pages[j]),
    ensures
        run_scan(m, pages).phase == Phase::Failed(DeviceError::TooManyEffects),
        run_scan(m, pages).rounds == MAX_EFFECT_QUERY_ROUNDS,
{
    lemma_scan_runs_out(m, pages);
}

} // verus!
