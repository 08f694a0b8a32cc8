//! Voicegroup state: the validated contents of `poryaaaa_state.json`.

use vstd::prelude::*;
use crate::text::{concat2, concat3};

verus! {

/// The largest index that the 14-bit Add-Instrument controller pair can carry.
pub const MAX_INSTRUMENT_INDEX: u32 = 16383;

/// One voicegroup slot: a MIDI program in 0 to 127 and a display name.
#[derive(Debug, Clone, PartialEq, Eq)]
pub struct VoiceSlot {
    pub program: u8,
    pub name: String,
}

/// A slot as the state file holds it, before validation.
#[derive(Debug, Clone, PartialEq, Eq)]
pub struct RawSlot {
    pub program: i64,
    pub name: String,
}

/// A slot as a mathematical value.
#[verifier::ext_equal]
pub struct SlotModel {
    pub program: int,
    pub name: Seq<char>,
}

impl View for VoiceSlot {
    type V = SlotModel;

    open spec fn view(&self) -> SlotModel {
        SlotModel { program: self.program as int, name: self.name@ }
    }
}

impl View for RawSlot {
    type V = SlotModel;

    open spec fn view(&self) -> SlotModel {
        SlotModel { program: self.program as int, name: self.name@ }
    }
}

impl SlotModel {
    /// The program is a MIDI program and the name is not empty.
    pub open spec fn usable(self) -> bool {
        0 <= self.program <= 127 && self.name.len() > 0
    }
}

/// The models of a list of slots.
pub open spec fn slot_models(slots: Seq<VoiceSlot>) -> Seq<SlotModel> {
    Seq::new(slots.len(), |i: int| slots[i]@)
}

/// The models of a list of raw slots.
pub open spec fn raw_models(slots: Seq<RawSlot>) -> Seq<SlotModel> {
    Seq::new(slots.len(), |i: int| slots[i]@)
}

/// The usable slots of a list, in order.
pub open spec fn usable_slots(slots: Seq<SlotModel>) -> Seq<SlotModel> {
    slots.filter(|s: SlotModel| s.usable())
}

/// What came of reading and parsing the state file.
#[derive(Debug, Clone, PartialEq, Eq)]
pub enum StateRead {
    /// The file could not be found.
    Missing,
    /// The file is there, with this modification time, but cannot be read.
    Unreadable { mtime_ns: Option<u128> },
    /// The file does not hold the expected JSON, for this reason.
    Malformed { mtime_ns: Option<u128>, reason: String },
    /// The slots that the file holds.
    Parsed { mtime_ns: Option<u128>, slots: Vec<RawSlot> },
}

/// A loaded voicegroup, or why there is none.
///
/// `state_path` is the file that was looked at. On failure `error` says what
/// went wrong and `slots` is empty.
#[derive(Debug, Clone, PartialEq, Eq)]
pub struct VoicegroupState {
    pub slots: Vec<VoiceSlot>,
    pub state_path: Option<String>,
    pub error: Option<String>,
    /// Modification time of the file in nanoseconds since the Unix epoch, where
    /// it is known.
    pub mtime_ns: Option<u128>,
}

/// A voicegroup state as a mathematical value.
#[verifier::ext_equal]
pub struct VoicegroupModel {
    pub slots: Seq<SlotModel>,
    pub state_path: Option<Seq<char>>,
    pub error: Option<Seq<char>>,
    pub mtime_ns: Option<u128>,
}

/// The contents of an optional text.
pub open spec fn text_of(text: Option<String>) -> Option<Seq<char>> {
    match text {
        Some(s) => Some(s@),
        None => None,
    }
}

impl View for VoicegroupState {
    type V = VoicegroupModel;

    open spec fn view(&self) -> VoicegroupModel {
        VoicegroupModel {
            slots: slot_models(self.slots@),
            state_path: text_of(self.state_path),
            error: text_of(self.error),
            mtime_ns: self.mtime_ns,
        }
    }
}

impl VoicegroupModel {
    /// Nothing loaded, and nothing gone wrong.
    pub open spec fn initial() -> VoicegroupModel {
        VoicegroupModel { slots: seq![], state_path: None, error: None, mtime_ns: None }
    }

    /// Loading from `path` failed with `error`.
    pub open spec fn failed(
        path: Seq<char>,
        mtime_ns: Option<u128>,
        error: Seq<char>,
    ) -> VoicegroupModel {
        VoicegroupModel { slots: seq![], state_path: Some(path), error: Some(error), mtime_ns }
    }
}

impl Default for VoicegroupState {
    fn default() -> (state: Self)
        ensures
            state@ == VoicegroupModel::initial(),
            state.slots@.len() == 0,
            state.state_path is None,
            state.error is None,
            state.mtime_ns is None,
    {
        VoicegroupState { slots: Vec::new(), state_path: None, error: None, mtime_ns: None }
    }
}

/// The hint for a file that is not there.
pub open spec fn missing_message(path: Seq<char>) -> Seq<char> {
    "poryaaaa_state.json not found at "@ + path
        + ". Load poryaaaa in the DAW, or set $CCOMIDI_STATE_PATH to override."@
}

/// The state that results from reading the file at `path`.
pub open spec fn loaded(path: Seq<char>, read: StateRead) -> VoicegroupModel {
    match read {
        StateRead::Missing => VoicegroupModel::failed(path, None, missing_message(path)),
        StateRead::Unreadable { mtime_ns } => VoicegroupModel::failed(
            path,
            mtime_ns,
            "Could not read poryaaaa_state.json."@,
        ),
        StateRead::Malformed { mtime_ns, reason } => VoicegroupModel::failed(
            path,
            mtime_ns,
            "JSON parse error: "@ + reason@,
        ),
        StateRead::Parsed { mtime_ns, slots } => {
            let usable = usable_slots(raw_models(slots@));
            if usable.len() == 0 {
                VoicegroupModel::failed(
                    path,
                    mtime_ns,
                    "state.json has no sample-bearing slots."@,
                )
            } else {
                VoicegroupModel { slots: usable, state_path: Some(path), error: None, mtime_ns }
            }
        },
    }
}

/// The usable ones of the slots that a file holds: slots with a program out of
/// range or without a name are dropped.
pub fn validate_slots(raw: &Vec<RawSlot>) -> (slots: Vec<VoiceSlot>)
    ensures
        slot_models(slots@) == usable_slots(raw_models(raw@)),
        forall|i: int|
            0 <= i < raw@.len() && 0 <= (#[trigger] raw@[i]).program <= 127 && raw@[i].name@.len()
                > 0 ==> exists|k: int|
                0 <= k < slots@.len() && (#[trigger] slots@[k]).program == raw@[i].program
                    && slots@[k].name@ == raw@[i].name@,
        forall|k: int|
            0 <= k < slots@.len() ==> (#[trigger] slots@[k]).program <= 127 && slots@[k].name@.len()
                > 0 && exists|i: int|
                0 <= i < raw@.len() && (#[trigger] raw@[i]).program == slots@[k].program
                    && raw@[i].name@ == slots@[k].name@,
{
    let mut out: Vec<VoiceSlot> = Vec::new();
    let ghost models = raw_models(raw@);
    let ghost usable = |s: SlotModel| s.usable();
    let mut i: usize = 0;
    while i < raw.len()
        invariant
            i <= raw.len(),
            models == raw_models(raw@),
            usable == (|s: SlotModel| s.usable()),
            slot_models(out@) == models.take(i as int).filter(usable),
        decreases raw.len() - i,
    {
        let slot = &raw[i];
        let ghost before = out@;
        if !(slot.program < 0 || slot.program > 127 || slot.name.as_str().is_empty()) {
            out.push(VoiceSlot { program: slot.program as u8, name: slot.name.clone() });
            assert(slot_models(out@) == slot_models(before).push(slot@));
        }
        proof {
            reveal_with_fuel(Seq::filter, 2);
            assert(models.take(i + 1).drop_last() == models.take(i as int));
            assert(models.take(i + 1).last() == slot@);
        }
        i += 1;
    }
    assert(models.take(i as int) == models);
    proof {
        assert forall|i: int|
            0 <= i < raw@.len() && 0 <= (#[trigger] raw@[i]).program <= 127 && raw@[i].name@.len()
                > 0 implies exists|k: int|
            0 <= k < out@.len() && (#[trigger] out@[k]).program == raw@[i].program && out@[k].name@
                == raw@[i].name@ by {
            models.lemma_filter_contains(usable, i);
            let k = choose|k: int| 0 <= k < models.filter(usable).len() && models.filter(usable)[k]
                == models[i];
            assert(slot_models(out@)[k] == out@[k]@);
        }
        assert forall|k: int| 0 <= k < out@.len() implies (#[trigger] out@[k]).program <= 127
            && out@[k].name@.len() > 0 && exists|i: int|
            0 <= i < raw@.len() && (#[trigger] raw@[i]).program == out@[k].program
                && raw@[i].name@ == out@[k].name@ by {
            let kept = models.filter(usable);
            assert(slot_models(out@)[k] == out@[k]@);
            models.lemma_filter_pred(usable, k);
            assert(kept.contains(kept[k]));
            models.lemma_filter_contains_rev(usable, kept[k]);
            let i = choose|i: int| 0 <= i < models.len() && models[i] == kept[k];
            assert(raw@[i]@ == out@[k]@);
        }
    }
    out
}

/// The voicegroup state that reading the file at `path` gives. Failures are
/// recorded in it, so that it can always be shown.
pub fn load_state(path: &str, read: &StateRead) -> (state: VoicegroupState)
    ensures
        state@ == loaded(path@, *read),
        state.state_path matches Some(p) && p@ == path@,
        state.error is Some <==> state.slots@.len() == 0,
        state.mtime_ns == match *read {
            StateRead::Missing => None,
            StateRead::Unreadable { mtime_ns } => mtime_ns,
            StateRead::Malformed { mtime_ns, .. } => mtime_ns,
            StateRead::Parsed { mtime_ns, .. } => mtime_ns,
        },
        *read matches StateRead::Parsed { slots, .. } ==> forall|i: int|
            0 <= i < slots@.len() && 0 <= (#[trigger] slots@[i]).program <= 127
                && slots@[i].name@.len() > 0 ==> exists|k: int|
                0 <= k < state.slots@.len() && (#[trigger] state.slots@[k]).program
                    == slots@[i].program && state.slots@[k].name@ == slots@[i].name@,
{
    let mut out = VoicegroupState {
        slots: Vec::new(),
        state_path: Some(path.to_owned()),
        error: None,
        mtime_ns: None,
    };
    match read {
        StateRead::Missing => {
            out.error = Some(
                concat3(
                    "poryaaaa_state.json not found at ",
                    path,
                    ". Load poryaaaa in the DAW, or set $CCOMIDI_STATE_PATH to override.",
                ),
            );
        },
        StateRead::Unreadable { mtime_ns } => {
            out.mtime_ns = *mtime_ns;
            out.error = Some("Could not read poryaaaa_state.json.".to_owned());
        },
        StateRead::Malformed { mtime_ns, reason } => {
            out.mtime_ns = *mtime_ns;
            out.error = Some(concat2("JSON parse error: ", reason.as_str()));
        },
        StateRead::Parsed { mtime_ns, slots } => {
            out.mtime_ns = *mtime_ns;
            out.slots = validate_slots(slots);
            assert(slot_models(out.slots@).len() == out.slots.len());
            if out.slots.len() == 0 {
                out.error = Some("state.json has no sample-bearing slots.".to_owned());
            }
        },
    }
    out
}

/// Nanoseconds in a duration of whole seconds and nanoseconds.
pub fn duration_to_ns(secs: u64, subsec_nanos: u32) -> (ns: u128)
    ensures
        ns == secs * 1_000_000_000 + subsec_nanos,
{
    secs as u128 * 1_000_000_000 + subsec_nanos as u128
}

/// Nanoseconds since the Unix epoch, from the time since then in seconds and
/// nanoseconds; `None` for a time before the epoch, which has none.
pub fn system_time_to_ns(since_epoch: Option<(u64, u32)>) -> (ns: Option<u128>)
    ensures
        ns is Some <==> since_epoch is Some,
        since_epoch matches Some(t) ==> ns matches Some(n) && n == t.0 * 1_000_000_000 + t.1,
{
    match since_epoch {
        Some((secs, subsec_nanos)) => Some(duration_to_ns(secs, subsec_nanos)),
        None => None,
    }
}

/// A state has an error exactly when it has no slots, and always says which file
/// was looked at.
pub proof fn law_error_means_no_slots(path: Seq<char>, read: StateRead)
    ensures
        loaded(path, read).error is Some <==> loaded(path, read).slots.len() == 0,
        loaded(path, read).state_path == Some(path),
{
}

/// Every slot that is loaded has a MIDI program and a name, and is a slot of the
/// file.
pub proof fn law_loaded_slots_are_usable(path: Seq<char>, read: StateRead, i: int)
    requires
        0 <= i < loaded(path, read).slots.len(),
    ensures
        loaded(path, read).slots[i].usable(),
        read is Parsed,
        raw_models(read->slots@).contains(loaded(path, read).slots[i]),
{
    let models = raw_models(read->slots@);
    let usable = |s: SlotModel| s.usable();
    models.lemma_filter_pred(usable, i);
    assert(models.filter(usable).contains(models.filter(usable)[i]));
    models.lemma_filter_contains_rev(usable, models.filter(usable)[i]);
}

/// Every usable slot of a file is loaded.
pub proof fn law_usable_slots_are_kept(
    path: Seq<char>,
    mtime_ns: Option<u128>,
    slots: Vec<RawSlot>,
    i: int,
)
    requires
        0 <= i < slots@.len(),
        slots@[i]@.usable(),
    ensures
        loaded(path, StateRead::Parsed { mtime_ns, slots }).slots.contains(slots@[i]@),
{
    let models = raw_models(slots@);
    let usable = |s: SlotModel| s.usable();
    models.lemma_filter_contains(usable, i);
}

/// Filtering slots by their contents and modelling them can be done in either
/// order.
proof fn lemma_usable_by_contents(slots: Seq<RawSlot>, good: spec_fn(RawSlot) -> bool)
    requires
        forall|r: RawSlot| #[trigger] good(r) <==> 0 <= r.program <= 127 && r.name@.len() > 0,
    ensures
        usable_slots(raw_models(slots)) == raw_models(slots.filter(good)),
    decreases slots.len(),
{
    reveal(Seq::filter);
    let models = raw_models(slots);
    if slots.len() > 0 {
        let before = slots.drop_last();
        lemma_usable_by_contents(before, good);
        assert(models.drop_last() == raw_models(before));
        assert(models.last() == slots.last()@);
        assert(good(slots.last()) == models.last().usable());
    }
}

/// The slots that are loaded from a file are exactly those with a program from 0
/// to 127 and a name of at least one character, whatever the name is: as many of
/// them, in the same order, and each as the file has it.
pub proof fn law_slots_with_a_program_and_a_name_are_loaded(
    path: Seq<char>,
    mtime_ns: Option<u128>,
    slots: Vec<RawSlot>,
    k: int,
)
    ensures
        ({
            let good = slots@.filter(
                |r: RawSlot| 0 <= r.program && r.program <= 127 && r.name@.len() >= 1,
            );
            let state = loaded(path, StateRead::Parsed { mtime_ns, slots });
            &&& state.slots.len() == good.len()
            &&& 0 <= k < good.len() ==> state.slots[k].program == good[k].program
                && state.slots[k].name == good[k].name@
            &&& state.error is None <==> good.len() > 0
            &&& state.mtime_ns == mtime_ns
        }),
{
    lemma_usable_by_contents(
        slots@,
        |r: RawSlot| 0 <= r.program && r.program <= 127 && r.name@.len() >= 1,
    );
}

/// A file with one more slot gives the same slots and one more behind them, if
/// that has a program from 0 to 127 and a name; otherwise the same slots.
pub proof fn law_each_slot_counts_for_itself(slots: Seq<SlotModel>, more: SlotModel)
    ensures
        usable_slots(slots.push(more)) == if 0 <= more.program <= 127 && more.name.len() > 0 {
            usable_slots(slots).push(more)
        } else {
            usable_slots(slots)
        },
        usable_slots(seq![]) == Seq::<SlotModel>::empty(),
{
    reveal(Seq::filter);
    assert(slots.push(more).drop_last() == slots);
}

/// What loading gives where there are no slots: nothing but the path, the time of
/// the file as far as it is known, and a message that fits.
pub proof fn law_why_there_are_no_slots(
    path: Seq<char>,
    mtime_ns: Option<u128>,
    reason: String,
    slots: Vec<RawSlot>,
)
    ensures
        ({
            let state = loaded(path, StateRead::Missing);
            &&& state.slots.len() == 0
            &&& state.mtime_ns is None
            &&& state.error == Some(
                "poryaaaa_state.json not found at "@ + path
                    + ". Load poryaaaa in the DAW, or set $CCOMIDI_STATE_PATH to override."@,
            )
        }),
        ({
            let state = loaded(path, StateRead::Unreadable { mtime_ns });
            &&& state.slots.len() == 0
            &&& state.mtime_ns == mtime_ns
            &&& state.error == Some("Could not read poryaaaa_state.json."@)
        }),
        ({
            let state = loaded(path, StateRead::Malformed { mtime_ns, reason });
            &&& state.slots.len() == 0
            &&& state.mtime_ns == mtime_ns
            &&& state.error == Some("JSON parse error: "@ + reason@)
        }),
        ({
            let state = loaded(path, StateRead::Parsed { mtime_ns, slots });
            state.slots.len() == 0 ==> state.error == Some(
                "state.json has no sample-bearing slots."@,
            )
        }),
        MAX_INSTRUMENT_INDEX == 16383,
{
}

/// Slots are modelled one by one, in order, with their programs and names.
pub proof fn law_slots_are_modelled_as_they_are(slots: Seq<VoiceSlot>, raw: Seq<RawSlot>, i: int)
    ensures
        slot_models(slots).len() == slots.len(),
        raw_models(raw).len() == raw.len(),
        0 <= i < slots.len() ==> slot_models(slots)[i].program == slots[i].program
            && slot_models(slots)[i].name == slots[i].name@,
        0 <= i < raw.len() ==> raw_models(raw)[i].program == raw[i].program && raw_models(
            raw,
        )[i].name == raw[i].name@,
{
}

} // verus!
