//! Moisture levels and the calibration that maps a probe reading to one.
use crate::text::{append_decimal, decimal};
use core::cmp::Ordering;
use vstd::prelude::*;
use vstd::std_specs::cmp::PartialOrdSpecImpl;

verus! {

/// Reading of a probe standing in water.
pub const MOISTURE_MIN: u16 = 900;

/// Reading of a probe in dry air.
pub const MOISTURE_MAX: u16 = 1412;

/// Width of one level's band of readings.
pub const MOISTURE_STEP: u16 = (MOISTURE_MAX - MOISTURE_MIN) / 5;

/// How wet the soil is, from wettest to driest.
#[derive(Debug, Clone, Copy, PartialEq, Eq, Structural)]
pub enum MoistureLevel {
    VeryWet,
    Wet,
    Normal,
    Dry,
    VeryDry,
}

/// Upper end of the band of rank `k`: readings up to and including it are no
/// drier than rank `k`.
pub open spec fn band_limit(k: int) -> int {
    MOISTURE_MIN + MOISTURE_STEP * k
}

/// Rank of a reading: the smallest `k` in `1..=5` whose band limit the reading
/// does not exceed, and 5 for everything above the fourth limit.
pub open spec fn rank_of(value: int) -> int {
    if value <= band_limit(1) {
        1
    } else if value <= band_limit(2) {
        2
    } else if value <= band_limit(3) {
        3
    } else if value <= band_limit(4) {
        4
    } else {
        5
    }
}

impl MoistureLevel {
    /// Position of the level in the order, 1 for the wettest.
    pub open spec fn rank(self) -> int {
        match self {
            MoistureLevel::VeryWet => 1,
            MoistureLevel::Wet => 2,
            MoistureLevel::Normal => 3,
            MoistureLevel::Dry => 4,
            MoistureLevel::VeryDry => 5,
        }
    }

    /// The rank as a machine integer.
    pub fn rank_number(&self) -> (k: u8)
        ensures
            k == self.rank(),
    {
        match self {
            MoistureLevel::VeryWet => 1,
            MoistureLevel::Wet => 2,
            MoistureLevel::Normal => 3,
            MoistureLevel::Dry => 4,
            MoistureLevel::VeryDry => 5,
        }
    }

    /// The name of the level as the display shows it, nine characters wide.
    pub open spec fn label_text(self) -> Seq<char> {
        match self {
            MoistureLevel::VeryWet => "Super wet"@,
            MoistureLevel::Wet => "Quite wet"@,
            MoistureLevel::Normal => "Normal   "@,
            MoistureLevel::Dry => "Quite dry"@,
            MoistureLevel::VeryDry => "Super dry"@,
        }
    }

    /// The name of the level as the display shows it.
    pub fn label(&self) -> (name: &'static str)
        ensures
            name@ == self.label_text(),
    {
        match self {
            MoistureLevel::VeryWet => "Super wet",
            MoistureLevel::Wet => "Quite wet",
            MoistureLevel::Normal => "Normal   ",
            MoistureLevel::Dry => "Quite dry",
            MoistureLevel::VeryDry => "Super dry",
        }
    }

    /// Whether soil at this level is to be watered: only the driest level is.
    pub fn needs_watering(&self) -> (water: bool)
        ensures
            water == (self.rank() >= MoistureLevel::VeryDry.rank()),
            water == (*self == MoistureLevel::VeryDry),
    {
        *self >= MoistureLevel::VeryDry
    }

    /// The level whose rank is `rank_of(value)`.
    pub open spec fn classify(value: u16) -> MoistureLevel {
        let k = rank_of(value as int);
        if k == 1 {
            MoistureLevel::VeryWet
        } else if k == 2 {
            MoistureLevel::Wet
        } else if k == 3 {
            MoistureLevel::Normal
        } else if k == 4 {
            MoistureLevel::Dry
        } else {
            MoistureLevel::VeryDry
        }
    }

    /// Classifies a reading against the fixed calibration.
    pub fn from_value(value: u16) -> (level: MoistureLevel)
        ensures
            level == MoistureLevel::classify(value),
            level.rank() == rank_of(value as int),
    {
        if value <= MOISTURE_MIN + MOISTURE_STEP {
            MoistureLevel::VeryWet
        } else if value <= MOISTURE_MIN + MOISTURE_STEP * 2 {
            MoistureLevel::Wet
        } else if value <= MOISTURE_MIN + MOISTURE_STEP * 3 {
            MoistureLevel::Normal
        } else if value <= MOISTURE_MIN + MOISTURE_STEP * 4 {
            MoistureLevel::Dry
        } else {
            MoistureLevel::VeryDry
        }
    }
}

/// The rank of a reading is the smallest of the five whose band limit the
/// reading does not exceed; a reading on a limit belongs to the wetter side,
/// and readings above the fourth limit all have the driest rank.
pub proof fn lemma_rank_is_smallest_band(value: u16)
    ensures
        1 <= rank_of(value as int) <= 5,
        rank_of(value as int) < 5 ==> value <= band_limit(rank_of(value as int)),
        forall|k: int| 1 <= k < rank_of(value as int) ==> value > band_limit(k),
        MoistureLevel::classify(value).rank() == rank_of(value as int),
{
}

/// A higher reading never classifies as wetter than a lower one.
pub proof fn lemma_classify_monotone(lower: u16, higher: u16)
    requires
        lower <= higher,
    ensures
        MoistureLevel::classify(lower).rank() <= MoistureLevel::classify(higher).rank(),
{
}

/// Number of readings the sensor averages over.
pub const HISTORY_SLOTS: usize = 3;

/// What a sensor remembers: its ring of recent readings and the slot the next
/// reading goes to. A slot holding 0 has not been written yet.
pub struct SampleHistory {
    pub slots: Seq<u16>,
    pub cursor: int,
}

impl SampleHistory {
    /// The ring has its fixed size and the cursor points into it.
    pub open spec fn wf(self) -> bool {
        &&& self.slots.len() == HISTORY_SLOTS
        &&& 0 <= self.cursor < HISTORY_SLOTS
    }

    /// The history of a sensor that has read nothing.
    pub open spec fn fresh() -> SampleHistory {
        SampleHistory { slots: seq![0u16, 0u16, 0u16], cursor: 0 }
    }

    /// The history after one more reading: it replaces the oldest slot and the
    /// cursor moves on, wrapping at the end of the ring.
    pub open spec fn record(self, value: u16) -> SampleHistory {
        SampleHistory {
            slots: self.slots.update(self.cursor, value),
            cursor: (self.cursor + 1) % (HISTORY_SLOTS as int),
        }
    }

    /// Some slot still holds 0, so an average would not be over real readings.
    pub open spec fn warming_up(self) -> bool {
        exists|i: int| 0 <= i < self.slots.len() && self.slots[i] == 0
    }

    /// Arithmetic mean of the slots, rounded down.
    pub open spec fn mean(self) -> int {
        (self.slots[0] + self.slots[1] + self.slots[2]) / (HISTORY_SLOTS as int)
    }

    /// The smoothed reading with its level, or nothing while warming up.
    pub open spec fn smoothed(self) -> Option<(u16, MoistureLevel)> {
        if self.warming_up() {
            None
        } else {
            Some((self.mean() as u16, MoistureLevel::classify(self.mean() as u16)))
        }
    }
}

/// From an empty history the first two readings give no result, whatever
/// they are.
pub proof fn lemma_first_two_readings_give_nothing(first: u16, second: u16)
    ensures
        SampleHistory::fresh().record(first).smoothed() is None,
        SampleHistory::fresh().record(first).record(second).smoothed() is None,
{
    let one = SampleHistory::fresh().record(first);
    assert(one.slots[1] == 0);
    let two = one.record(second);
    assert(two.slots[2] == 0);
}

/// After three readings in a row, none of them 0, the result is their mean,
/// rounded down, with the level of the mean. What the history held before
/// does not matter.
pub proof fn lemma_three_readings_give_their_mean(
    history: SampleHistory,
    first: u16,
    second: u16,
    third: u16,
)
    requires
        history.wf(),
        first != 0,
        second != 0,
        third != 0,
    ensures
        history.record(first).record(second).record(third).smoothed() == Some(
            (
                ((first + second + third) / 3) as u16,
                MoistureLevel::classify(((first + second + third) / 3) as u16),
            ),
        ),
        history.record(first).record(second).record(third).cursor == history.cursor,
{
    let full = history.record(first).record(second).record(third);
    assert(full.slots.len() == 3);
    assert forall|i: int| 0 <= i < full.slots.len() implies full.slots[i] != 0 by {}
}

/// A reading of 0 cannot be told from a slot that was never written: while
/// it is in the ring there is no result.
pub proof fn lemma_zero_reading_gives_nothing(history: SampleHistory)
    requires
        history.wf(),
    ensures
        history.record(0).smoothed() is None,
{
    assert(history.record(0).slots[history.cursor] == 0);
}

/// Smooths the readings of one moisture probe over the last three of them.
pub struct MoistureSensor {
    recent_samples: [u16; HISTORY_SLOTS],
    sample_idx: usize,
}

impl View for MoistureSensor {
    type V = SampleHistory;

    closed spec fn view(&self) -> SampleHistory {
        SampleHistory { slots: self.recent_samples@, cursor: self.sample_idx as int }
    }
}

impl MoistureSensor {
    #[verifier::type_invariant]
    spec fn cursor_in_ring(self) -> bool {
        self.sample_idx < HISTORY_SLOTS
    }

    /// A sensor with an empty history.
    pub fn new() -> (sensor: MoistureSensor)
        ensures
            sensor@.wf(),
            sensor@ == SampleHistory::fresh(),
    {
        let sensor = MoistureSensor { recent_samples: [0; HISTORY_SLOTS], sample_idx: 0 };
        assert(sensor@.slots =~= SampleHistory::fresh().slots);
        sensor
    }

    /// Classifies one raw reading on its own. The history is left alone.
    pub fn read(&self, value: u16) -> (reading: (u16, MoistureLevel))
        ensures
            reading == (value, MoistureLevel::classify(value)),
    {
        (value, MoistureLevel::from_value(value))
    }

    /// Takes one raw reading into the history and returns the mean of the
    /// ring with its level, or `None` while any slot is still unwritten.
    pub fn read_avg(&mut self, value: u16) -> (reading: Option<(u16, MoistureLevel)>)
        ensures
            // Every history is well formed, before the call and after it.
            old(self)@.wf(),
            final(self)@.wf(),
            final(self)@ == old(self)@.record(value),
            reading == final(self)@.smoothed(),
    {
        proof {
            use_type_invariant(&*self);
        }
        self.recent_samples[self.sample_idx] = value;
        self.sample_idx = (self.sample_idx + 1) % HISTORY_SLOTS;

        let a = self.recent_samples[0];
        let b = self.recent_samples[1];
        let c = self.recent_samples[2];
        if a == 0 || b == 0 || c == 0 {
            return None;
        }
        let sum: u32 = a as u32 + b as u32 + c as u32;
        let avg = (sum / 3) as u16;
        Some((avg, MoistureLevel::from_value(avg)))
    }
}

/// The text of the status line for a smoothed reading: the level's name,
/// then the reading in round brackets.
pub open spec fn status_text(level: MoistureLevel, value: u16) -> Seq<char> {
    level.label_text() + seq!['('] + decimal(value as nat) + seq![')']
}

/// Builds the status line for a smoothed reading.
pub fn status_line(level: MoistureLevel, value: u16) -> (line: String)
    ensures
        line@ == status_text(level, value),
{
    proof {
        reveal_strlit("(");
        reveal_strlit(")");
    }
    let mut line = level.label().to_owned();
    line.append("(");
    append_decimal(&mut line, value as u64);
    line.append(")");
    assert(line@ =~= status_text(level, value));
    line
}

impl PartialOrd for MoistureLevel {
    /// Orders levels from wettest to driest. Any two levels compare.
    fn partial_cmp(&self, other: &MoistureLevel) -> (r: Option<Ordering>) {
        let a = self.rank_number();
        let b = other.rank_number();
        if a < b {
            Some(Ordering::Less)
        } else if a == b {
            Some(Ordering::Equal)
        } else {
            Some(Ordering::Greater)
        }
    }
}

impl PartialOrdSpecImpl for MoistureLevel {
    open spec fn obeys_partial_cmp_spec() -> bool {
        true
    }

    open spec fn partial_cmp_spec(&self, other: &MoistureLevel) -> Option<Ordering> {
        if self.rank() < other.rank() {
            Some(Ordering::Less)
        } else if self.rank() == other.rank() {
            Some(Ordering::Equal)
        } else {
            Some(Ordering::Greater)
        }
    }
}

} // verus!
