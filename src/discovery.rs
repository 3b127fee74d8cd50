//! Finding the keyboard among the attached HID endpoints. Endpoints are
//! tried in the order given; for each, the cheap checks on its descriptor
//! come first, then two probes that the caller performs on the device. An
//! endpoint that cannot be opened or does not answer a probe is simply no
//! match.
use vstd::prelude::*;

use crate::protocol::{
    is_rawhid_reply,
    is_vialrgb_reply,
    rawhid_probe,
    rawhid_probe_message,
    rawhid_reply_ok,
    vial_probe,
    vial_probe_message,
    vialrgb_reply_ok,
    Request,
    PROBE_ATTEMPTS,
    RAW_HID_USAGE,
    RAW_HID_USAGE_PAGE,
};

verus! {

/// What discovery reads of an enumerated endpoint.
#[derive(Debug, Clone, PartialEq, Eq)]
pub struct Descriptor {
    pub serial: Option<String>,
    pub usage_page: u16,
    pub usage: u16,
}

/// The text that Vial firmware puts in its serial number.
pub open spec fn vial_magic() -> Seq<char> {
    "vial:f64c2b3c"@
}

/// `m` occurs in `s` as a contiguous run.
pub open spec fn contains_text(s: Seq<char>, m: Seq<char>) -> bool {
    exists|i: int| 0 <= i <= s.len() - m.len() && #[trigger] s.subrange(i, i + m.len()) == m
}

/// The serial number names Vial firmware; a missing one does not.
pub open spec fn serial_ok(d: Descriptor) -> bool {
    match d.serial {
        Some(s) => contains_text(s@, vial_magic()),
        None => false,
    }
}

/// The endpoint is the raw HID interface.
pub open spec fn usage_ok(d: Descriptor) -> bool {
    d.usage_page == RAW_HID_USAGE_PAGE && d.usage == RAW_HID_USAGE
}

/// A probe answer carrying the raw HID signature.
pub open spec fn raw_answer_ok(a: Option<[u8; 32]>) -> bool {
    a matches Some(r) && rawhid_reply_ok(r@)
}

/// A Vial information answer showing lighting support.
pub open spec fn vial_answer_ok(a: Option<[u8; 32]>) -> bool {
    a matches Some(r) && vialrgb_reply_ok(r@)
}

/// Whether `serial` contains the Vial serial-number marker.
pub fn serial_has_magic(serial: &str) -> (r: bool)
    ensures
        r == contains_text(serial@, vial_magic()),
{
    let magic = "vial:f64c2b3c";
    proof {
        reveal_strlit("vial:f64c2b3c");
    }
    let n = serial.unicode_len();
    let m = magic.unicode_len();
    assert(m == 13);
    if n < m {
        return false;
    }
    let mut i: usize = 0;
    while i <= n - m
        invariant
            n == serial@.len(),
            m == magic@.len(),
            magic@ == vial_magic(),
            m <= n,
            i <= n - m + 1,
            forall|k: int| 0 <= k < i ==> #[trigger] serial@.subrange(k, k + m) != magic@,
        decreases n - m + 1 - i,
    {
        let mut j: usize = 0;
        while j < m && serial.get_char(i + j) == magic.get_char(j)
            invariant
                n == serial@.len(),
                m == magic@.len(),
                i <= n - m,
                j <= m,
                forall|l: int| 0 <= l < j ==> serial@[i + l] == magic@[l],
            decreases m - j,
        {
            j = j + 1;
        }
        if j == m {
            assert(serial@.subrange(i as int, i + m) =~= magic@);
            return true;
        }
        assert(serial@.subrange(i as int, i + m)[j as int] != magic@[j as int]);
        i = i + 1;
    }
    false
}

/// Where discovery stands.
#[derive(Debug, Clone, Copy, PartialEq, Eq)]
pub enum Discovery {
    /// Open endpoint `i` and send it the raw HID capability probe.
    ProbeRawHid(usize),
    /// Open endpoint `i` and send it the Vial information probe.
    ProbeVial(usize),
    /// Endpoint `i` is the keyboard.
    Found(usize),
    /// No endpoint is.
    NotFound,
}

/// The first endpoint from `i` on whose descriptor passes, to be probed.
pub open spec fn screen_from(devs: Seq<Descriptor>, i: int) -> Discovery
    decreases devs.len() - i,
{
    if i < 0 || i >= devs.len() {
        Discovery::NotFound
    } else if serial_ok(devs[i]) && usage_ok(devs[i]) {
        Discovery::ProbeRawHid(i as usize)
    } else {
        screen_from(devs, i + 1)
    }
}

impl Discovery {
    pub open spec fn probing(self) -> bool {
        self is ProbeRawHid || self is ProbeVial
    }

    /// The next state, given the answer to the pending probe (`None` when
    /// the endpoint could not be opened or did not answer).
    pub open spec fn answer_spec(self, devs: Seq<Descriptor>, a: Option<[u8; 32]>) -> Discovery {
        match self {
            Discovery::ProbeRawHid(i) => if raw_answer_ok(a) {
                Discovery::ProbeVial(i)
            } else {
                screen_from(devs, i + 1)
            },
            Discovery::ProbeVial(i) => if vial_answer_ok(a) {
                Discovery::Found(i)
            } else {
                screen_from(devs, i + 1)
            },
            _ => self,
        }
    }

    /// A probe state names an endpoint of the list.
    pub open spec fn wf(self, devs: Seq<Descriptor>) -> bool {
        match self {
            Discovery::ProbeRawHid(i) => i < devs.len(),
            Discovery::ProbeVial(i) => i < devs.len(),
            Discovery::Found(i) => i < devs.len(),
            Discovery::NotFound => true,
        }
    }

    /// Discovery over `devs`, at the first endpoint worth probing.
    pub fn start(devs: &Vec<Descriptor>) -> (r: Discovery)
        ensures
            r == screen_from(devs@, 0),
            r.wf(devs@),
    {
        screen(devs, 0)
    }

    /// The probe to send now, if any.
    pub fn request(&self) -> (r: Option<Request>)
        ensures
            self is ProbeRawHid ==> (r matches Some(q) && q.message@ == rawhid_probe_message()
                && q.attempts == PROBE_ATTEMPTS),
            self is ProbeVial ==> (r matches Some(q) && q.message@ == vial_probe_message()
                && q.attempts == PROBE_ATTEMPTS),
            !self.probing() ==> r is None,
    {
        match self {
            Discovery::ProbeRawHid(_) => Some(rawhid_probe()),
            Discovery::ProbeVial(_) => Some(vial_probe()),
            _ => None,
        }
    }

    /// Takes the answer to the pending probe and moves on.
    pub fn answer(self, devs: &Vec<Descriptor>, a: Option<[u8; 32]>) -> (r: Discovery)
        requires
            self.wf(devs@),
        ensures
            r == self.answer_spec(devs@, a),
            r.wf(devs@),
    {
        let n = devs.len();
        match self {
            Discovery::ProbeRawHid(i) => {
                let ok = match &a {
                    Some(reply) => is_rawhid_reply(reply),
                    None => false,
                };
                if ok {
                    Discovery::ProbeVial(i)
                } else {
                    assert(i < n);
                    screen(devs, i + 1)
                }
            },
            Discovery::ProbeVial(i) => {
                let ok = match &a {
                    Some(reply) => is_vialrgb_reply(reply),
                    None => false,
                };
                if ok {
                    Discovery::Found(i)
                } else {
                    assert(i < n);
                    screen(devs, i + 1)
                }
            },
            _ => self,
        }
    }
}

fn descriptor_passes(d: &Descriptor) -> (r: bool)
    ensures
        r == (serial_ok(*d) && usage_ok(*d)),
{
    let serial = match &d.serial {
        Some(s) => serial_has_magic(s.as_str()),
        None => false,
    };
    serial && d.usage_page == RAW_HID_USAGE_PAGE && d.usage == RAW_HID_USAGE
}

/// The first endpoint from `from` on whose descriptor passes.
fn screen(devs: &Vec<Descriptor>, from: usize) -> (r: Discovery)
    ensures
        r == screen_from(devs@, from as int),
        r.wf(devs@),
{
    let mut i: usize = from;
    while i < devs.len()
        invariant
            from <= i,
            screen_from(devs@, from as int) == screen_from(devs@, i as int),
        decreases devs@.len() - i,
    {
        if descriptor_passes(&devs[i]) {
            return Discovery::ProbeRawHid(i);
        }
        i = i + 1;
    }
    Discovery::NotFound
}

/// Discovery from state `st`, each probe answered in turn from `answers`,
/// until it settles or the answers run out.
pub open spec fn run_discovery(
    devs: Seq<Descriptor>,
    st: Discovery,
    answers: Seq<Option<[u8; 32]>>,
) -> Discovery
    decreases answers.len(),
{
    if st.probing() && answers.len() > 0 {
        run_discovery(devs, st.answer_spec(devs, answers[0]), answers.drop_first())
    } else {
        st
    }
}

/// A single endpoint is found exactly when its serial number, its usage and
/// both probe answers all pass; if any one of the four fails, nothing is
/// found.
pub proof fn lemma_single_endpoint(
    d: Descriptor,
    raw: Option<[u8; 32]>,
    vial: Option<[u8; 32]>,
)
    ensures
        run_discovery(seq![d], screen_from(seq![d], 0), seq![raw, vial]) == if serial_ok(d)
            && usage_ok(d) && raw_answer_ok(raw) && vial_answer_ok(vial) {
            Discovery::Found(0)
        } else {
            Discovery::NotFound
        },
{
    let devs = seq![d];
    let answers = seq![raw, vial];
    assert(screen_from(devs, 1) == Discovery::NotFound);
    assert(answers.drop_first() =~= seq![vial]);
    assert(answers.drop_first().drop_first() =~= Seq::<Option<[u8; 32]>>::empty());
    if serial_ok(d) && usage_ok(d) {
        let s1 = Discovery::ProbeRawHid(0).answer_spec(devs, raw);
        assert(run_discovery(devs, Discovery::ProbeRawHid(0), answers) == run_discovery(
            devs,
            s1,
            seq![vial],
        ));
        if raw_answer_ok(raw) {
            let s2 = s1.answer_spec(devs, vial);
            assert(run_discovery(devs, s1, seq![vial]) == run_discovery(
                devs,
                s2,
                seq![vial].drop_first(),
            ));
        }
    } else {
        assert(screen_from(devs, 0) == screen_from(devs, 1));
    }
}

/// Endpoint `i` passes all the checks, given the answers it would give to
/// the two probes.
pub open spec fn endpoint_matches(d: Descriptor, raw: Option<[u8; 32]>, vial: Option<[u8; 32]>) -> bool {
    serial_ok(d) && usage_ok(d) && raw_answer_ok(raw) && vial_answer_ok(vial)
}

/// The first endpoint from `i` on that passes all the checks.
pub open spec fn first_match(
    devs: Seq<Descriptor>,
    raw: Seq<Option<[u8; 32]>>,
    vial: Seq<Option<[u8; 32]>>,
    i: int,
) -> Discovery
    decreases devs.len() - i,
{
    if i < 0 || i >= devs.len() {
        Discovery::NotFound
    } else if endpoint_matches(devs[i], raw[i], vial[i]) {
        Discovery::Found(i as usize)
    } else {
        first_match(devs, raw, vial, i + 1)
    }
}

/// Discovery from state `st` where endpoint `i` answers the raw HID probe
/// with `raw[i]` and the Vial probe with `vial[i]`, for at most `fuel`
/// probes.
pub open spec fn run_with_answers(
    devs: Seq<Descriptor>,
    raw: Seq<Option<[u8; 32]>>,
    vial: Seq<Option<[u8; 32]>>,
    st: Discovery,
    fuel: nat,
) -> Discovery
    decreases fuel,
{
    match st {
        Discovery::ProbeRawHid(i) => if fuel > 0 {
            run_with_answers(devs, raw, vial, st.answer_spec(devs, raw[i as int]), (fuel - 1) as nat)
        } else {
            st
        },
        Discovery::ProbeVial(i) => if fuel > 0 {
            run_with_answers(devs, raw, vial, st.answer_spec(devs, vial[i as int]), (fuel - 1) as nat)
        } else {
            st
        },
        _ => st,
    }
}

proof fn lemma_run_from(
    devs: Seq<Descriptor>,
    raw: Seq<Option<[u8; 32]>>,
    vial: Seq<Option<[u8; 32]>>,
    i: int,
    fuel: nat,
)
    requires
        0 <= i,
        devs.len() <= usize::MAX,
        raw.len() == devs.len(),
        vial.len() == devs.len(),
        fuel >= 2 * (devs.len() - i),
    ensures
        run_with_answers(devs, raw, vial, screen_from(devs, i), fuel) == first_match(
            devs,
            raw,
            vial,
            i,
        ),
    decreases devs.len() - i,
{
    if i < devs.len() {
        if !(serial_ok(devs[i]) && usage_ok(devs[i])) {
            lemma_run_from(devs, raw, vial, i + 1, fuel);
        } else {
            let st = Discovery::ProbeRawHid(i as usize);
            let s1 = st.answer_spec(devs, raw[i]);
            if raw_answer_ok(raw[i]) {
                let s2 = s1.answer_spec(devs, vial[i]);
                assert(run_with_answers(devs, raw, vial, s1, (fuel - 1) as nat)
                    == run_with_answers(devs, raw, vial, s2, (fuel - 2) as nat));
                if !vial_answer_ok(vial[i]) {
                    lemma_run_from(devs, raw, vial, i + 1, (fuel - 2) as nat);
                }
            } else {
                lemma_run_from(devs, raw, vial, i + 1, (fuel - 1) as nat);
            }
        }
    }
}

/// Over any list of endpoints, discovery ends at the first endpoint (in
/// the order given) whose serial number, usage and probe answers all pass,
/// and reports nothing found when there is none; it sends at most two
/// probes per endpoint.
pub proof fn lemma_discovery_finds_first_match(
    devs: Seq<Descriptor>,
    raw: Seq<Option<[u8; 32]>>,
    vial: Seq<Option<[u8; 32]>>,
)
    requires
        devs.len() <= usize::MAX,
        raw.len() == devs.len(),
        vial.len() == devs.len(),
    ensures
        run_with_answers(devs, raw, vial, screen_from(devs, 0), 2 * devs.len()) == first_match(
            devs,
            raw,
            vial,
            0,
        ),
{
    lemma_run_from(devs, raw, vial, 0, 2 * devs.len());
}

} // verus!
