//! Configuration of a deep probe: the recognized tuning knobs per
//! detector. Every field is optional; absence means "no constraint for
//! this dimension", never zero.

use vstd::prelude::*;

use crate::decimal::{Decimal, MAX_SCALE};

verus! {

/// One entry of a track layout: a stream index paired with its channel
/// count, the unit of the loudness-pairing qualification.
#[derive(Clone, Copy, Debug, PartialEq, Eq, Structural)]
pub struct Track {
    pub index: u32,
    pub channels: u32,
}

/// One tuning knob. `min` and `max` are inclusive duration or size
/// bounds, `num`/`den` a rational constraint, `th` an exact decimal
/// threshold for confidence-driven detectors, and `pairs` the allowed
/// track layouts that gate pairing-based checks such as loudness.
#[derive(Clone, Debug)]
pub struct CheckParameterValue {
    pub min: Option<u64>,
    pub max: Option<u64>,
    pub num: Option<u64>,
    pub den: Option<u64>,
    pub th: Option<Decimal>,
    pub pairs: Option<Vec<Vec<Track>>>,
}

impl CheckParameterValue {
    pub open spec fn wf(self) -> bool {
        match self.th {
            Some(t) => t.wf(),
            None => true,
        }
    }

    /// Tests well-formedness: a threshold, when present, must be a
    /// representable decimal.
    pub fn is_wf(&self) -> (r: bool)
        ensures
            r == self.wf(),
    {
        match &self.th {
            Some(t) => t.scale <= MAX_SCALE,
            None => true,
        }
    }
}

/// Whether two track lists agree entry for entry.
fn tracks_equal(a: &Vec<Track>, b: &Vec<Track>) -> (r: bool)
    ensures
        r == (a@ == b@),
{
    let n = a.len();
    if n != b.len() {
        proof {
            assert(a@ != b@);
        }
        return false;
    }
    let mut i: usize = 0;
    while i < n
        invariant
            i <= n,
            n == a@.len() == b@.len(),
            forall|k: int| 0 <= k < i ==> a@[k] == b@[k],
        decreases n - i,
    {
        if a[i] != b[i] {
            proof {
                assert(a@[i as int] != b@[i as int]);
            }
            return false;
        }
        i = i + 1;
    }
    proof {
        assert(a@ =~= b@);
    }
    true
}

/// The observed tracks match one of the allowed layout qualifications
/// exactly.
pub open spec fn spec_layout_qualifies(layouts: Seq<Vec<Track>>, observed: Seq<Track>) -> bool {
    exists|i: int| 0 <= i < layouts.len() && (#[trigger] layouts[i])@ == observed
}

/// The set-membership check behind the `pairs` knob: whether the
/// observed audio tracks match one of the enumerated valid layouts, so
/// that a pairing-gated measurement such as loudness is meaningful for
/// this file's channel configuration.
pub fn layout_qualifies(layouts: &Vec<Vec<Track>>, observed: &Vec<Track>) -> (r: bool)
    ensures
        r == spec_layout_qualifies(layouts@, observed@),
{
    let n = layouts.len();
    let mut i: usize = 0;
    while i < n
        invariant
            i <= n,
            n == layouts@.len(),
            forall|k: int| 0 <= k < i ==> (#[trigger] layouts@[k])@ != observed@,
        decreases n - i,
    {
        if tracks_equal(&layouts[i], observed) {
            return true;
        }
        i = i + 1;
    }
    false
}

/// A named knob of a detector's parameter map.
pub struct NamedParameter {
    pub name: String,
    pub value: CheckParameterValue,
}

/// The mathematical shadow of a named knob.
pub ghost struct NamedParameterModel {
    pub name: Seq<char>,
    pub value: CheckParameterValue,
}

impl View for NamedParameter {
    type V = NamedParameterModel;

    open spec fn view(&self) -> NamedParameterModel {
        NamedParameterModel { name: self.name@, value: self.value }
    }
}

/// A detector's parameter map: knob name to knob, first match.
pub struct CheckParameterMap {
    pub entries: Vec<NamedParameter>,
}

impl View for CheckParameterMap {
    type V = Seq<NamedParameterModel>;

    open spec fn view(&self) -> Seq<NamedParameterModel> {
        self.entries@.map_values(|p: NamedParameter| p@)
    }
}

/// The knob under `name`, first match.
pub open spec fn spec_param(entries: Seq<NamedParameterModel>, name: Seq<char>) -> Option<
    CheckParameterValue,
>
    decreases entries.len(),
{
    if entries.len() == 0 {
        None
    } else if entries[0].name == name {
        Some(entries[0].value)
    } else {
        spec_param(entries.drop_first(), name)
    }
}

impl CheckParameterMap {
    pub open spec fn wf(self) -> bool {
        forall|k: int| 0 <= k < self@.len() ==> (#[trigger] self@[k].value).wf()
    }

    pub fn new() -> (r: CheckParameterMap)
        ensures
            r@ =~= Seq::<NamedParameterModel>::empty(),
            r.wf(),
    {
        CheckParameterMap { entries: Vec::new() }
    }

    pub fn push(&mut self, name: String, value: CheckParameterValue)
        ensures
            final(self)@ =~= old(self)@.push(NamedParameterModel { name: name@, value }),
            old(self).wf() && value.wf() ==> final(self).wf(),
    {
        let ghost pushed = NamedParameterModel { name: name@, value };
        self.entries.push(NamedParameter { name, value });
        proof {
            assert(self@ =~= old(self)@.push(pushed));
            if old(self).wf() && value.wf() {
                assert forall|k: int| 0 <= k < self@.len() implies (#[trigger] self@[k].value).wf()
                by {
                    if k < old(self)@.len() {
                        assert(self@[k] == old(self)@[k]);
                    }
                }
            }
        }
    }

    /// Tests well-formedness of every knob the map holds.
    pub fn is_wf(&self) -> (r: bool)
        ensures
            r == self.wf(),
    {
        let n = self.entries.len();
        let mut i: usize = 0;
        while i < n
            invariant
                i <= n,
                n == self.entries.len(),
                forall|k: int| 0 <= k < i ==> (#[trigger] self@[k].value).wf(),
            decreases n - i,
        {
            proof {
                assert(self@.len() == n);
                assert(self@[i as int] == self.entries@[i as int]@);
            }
            if !self.entries[i].value.is_wf() {
                proof {
                    assert(!(self@[i as int].value).wf());
                }
                return false;
            }
            i = i + 1;
        }
        proof {
            assert(self@.len() == n);
        }
        true
    }

    /// Looks a knob up by name, first match.
    pub fn get<'a>(&'a self, name: &str) -> (r: Option<&'a CheckParameterValue>)
        ensures
            match r {
                Some(v) => spec_param(self@, name@) == Some(*v),
                None => spec_param(self@, name@) is None,
            },
    {
        let k = name.to_owned();
        let n = self.entries.len();
        let mut i: usize = 0;
        proof {
            assert(self@.skip(0) =~= self@);
        }
        while i < n
            invariant
                n == self.entries.len(),
                i <= n,
                k@ == name@,
                spec_param(self@, name@) == spec_param(self@.skip(i as int), name@),
            decreases n - i,
        {
            proof {
                assert(self@.len() == n);
                assert(self@.skip(i as int)[0] == self@[i as int]);
                assert(self@.skip(i as int).drop_first() =~= self@.skip(i as int + 1));
                assert(self@[i as int] == self.entries@[i as int]@);
            }
            if self.entries[i].name == k {
                return Some(&self.entries[i].value);
            }
            i = i + 1;
        }
        proof {
            assert(self@.skip(n as int) =~= Seq::<NamedParameterModel>::empty());
        }
        None
    }
}

/// The duration bounds a detector works under: the `min`/`max` of the
/// `"duration"` knob, each absent when unconstrained.
pub open spec fn spec_duration_bounds(entries: Seq<NamedParameterModel>) -> (Option<u64>, Option<
    u64,
>) {
    match spec_param(entries, "duration"@) {
        Some(v) => (v.min, v.max),
        None => (None, None),
    }
}

/// Reads the duration bounds off a parameter map.
pub fn duration_bounds(params: &CheckParameterMap) -> (r: (Option<u64>, Option<u64>))
    ensures
        r == spec_duration_bounds(params@),
{
    match params.get("duration") {
        Some(v) => (v.min, v.max),
        None => (None, None),
    }
}

/// Which detectors a deep probe runs: each map's presence requests its
/// detector, with its knobs.
pub struct DeepProbeCheck {
    pub silence_detect: Option<CheckParameterMap>,
    pub black_detect: Option<CheckParameterMap>,
    pub black_and_silence_detect: Option<CheckParameterMap>,
    pub crop_detect: Option<CheckParameterMap>,
    pub ocr_detect: Option<CheckParameterMap>,
}

impl DeepProbeCheck {
    pub open spec fn wf(self) -> bool {
        &&& (self.silence_detect matches Some(m) ==> m.wf())
        &&& (self.black_detect matches Some(m) ==> m.wf())
        &&& (self.black_and_silence_detect matches Some(m) ==> m.wf())
        &&& (self.crop_detect matches Some(m) ==> m.wf())
        &&& (self.ocr_detect matches Some(m) ==> m.wf())
    }

    /// Tests well-formedness of every requested detector's knobs. A
    /// caller outside the verified world should reject a configuration
    /// this refuses before running a probe: malformed configuration is
    /// fatal before any detector runs.
    pub fn is_wf(&self) -> (r: bool)
        ensures
            r == self.wf(),
    {
        let silence_ok = match &self.silence_detect {
            Some(m) => m.is_wf(),
            None => true,
        };
        let black_ok = match &self.black_detect {
            Some(m) => m.is_wf(),
            None => true,
        };
        let bas_ok = match &self.black_and_silence_detect {
            Some(m) => m.is_wf(),
            None => true,
        };
        let crop_ok = match &self.crop_detect {
            Some(m) => m.is_wf(),
            None => true,
        };
        let ocr_ok = match &self.ocr_detect {
            Some(m) => m.is_wf(),
            None => true,
        };
        silence_ok && black_ok && bas_ok && crop_ok && ocr_ok
    }

    /// A check that requests no detector at all.
    pub fn none() -> (r: DeepProbeCheck)
        ensures
            r.silence_detect is None,
            r.black_detect is None,
            r.black_and_silence_detect is None,
            r.crop_detect is None,
            r.ocr_detect is None,
            r.wf(),
    {
        DeepProbeCheck {
            silence_detect: None,
            black_detect: None,
            black_and_silence_detect: None,
            crop_detect: None,
            ocr_detect: None,
        }
    }
}

} // verus!
