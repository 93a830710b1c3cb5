use vstd::prelude::*;
use crate::names::{find_name, lemma_find_name_prefix};

verus! {

/// The unit that a sensor reports its readings in.
#[derive(Clone, Copy, Debug, PartialEq, Eq, Structural)]
pub enum Unit {
    Psi,
    Amps,
    Volts,
    Kelvin,
}

/// The integer that stands for a unit in exported files.
pub open spec fn unit_id(u: Unit) -> i8 {
    match u {
        Unit::Psi => 0,
        Unit::Amps => 1,
        Unit::Volts => 2,
        Unit::Kelvin => 3,
    }
}

/// The text that follows a reading's value when it is rendered.
pub open spec fn unit_symbol(u: Unit) -> Seq<char> {
    match u {
        Unit::Psi => seq!['p', 's', 'i'],
        Unit::Amps => seq!['A'],
        Unit::Volts => seq!['V'],
        Unit::Kelvin => seq!['K'],
    }
}

impl Unit {
    /// The integer that stands for this unit in exported files.
    pub fn id(self) -> (r: i8)
        ensures
            r == unit_id(self),
    {
        match self {
            Unit::Psi => 0,
            Unit::Amps => 1,
            Unit::Volts => 2,
            Unit::Kelvin => 3,
        }
    }

    /// The symbol that follows a reading's value when it is rendered.
    pub fn symbol(self) -> (r: &'static str)
        ensures
            r@ == unit_symbol(self),
    {
        proof {
            reveal_strlit("psi");
            reveal_strlit("A");
            reveal_strlit("V");
            reveal_strlit("K");
        }
        match self {
            Unit::Psi => "psi",
            Unit::Amps => "A",
            Unit::Volts => "V",
            Unit::Kelvin => "K",
        }
    }
}

/// The state of one valve, as commanded or as measured.
#[derive(Clone, Copy, Debug, PartialEq, Eq, Structural)]
pub enum ValveState {
    Undetermined,
    Disconnected,
    Open,
    Closed,
    CommandedOpen,
    CommandedClosed,
    Fault,
}

/// The integer that stands for a valve state in exported files.
pub open spec fn valve_state_id(v: ValveState) -> i8 {
    match v {
        ValveState::Undetermined => 0,
        ValveState::Disconnected => 1,
        ValveState::Open => 2,
        ValveState::Closed => 3,
        ValveState::CommandedOpen => 4,
        ValveState::CommandedClosed => 5,
        ValveState::Fault => 6,
    }
}

/// The name under which a valve state is rendered.
pub open spec fn valve_state_name(v: ValveState) -> Seq<char> {
    match v {
        ValveState::Undetermined => "Undetermined"@,
        ValveState::Disconnected => "Disconnected"@,
        ValveState::Open => "Open"@,
        ValveState::Closed => "Closed"@,
        ValveState::CommandedOpen => "CommandedOpen"@,
        ValveState::CommandedClosed => "CommandedClosed"@,
        ValveState::Fault => "Fault"@,
    }
}

impl ValveState {
    /// The state that the given id stands for.
    pub fn from_id(id: i8) -> (r: ValveState)
        requires
            0 <= id < 7,
        ensures
            valve_state_id(r) == id,
    {
        if id == 0 {
            ValveState::Undetermined
        } else if id == 1 {
            ValveState::Disconnected
        } else if id == 2 {
            ValveState::Open
        } else if id == 3 {
            ValveState::Closed
        } else if id == 4 {
            ValveState::CommandedOpen
        } else if id == 5 {
            ValveState::CommandedClosed
        } else {
            ValveState::Fault
        }
    }

    /// The integer that stands for this state in exported files.
    pub fn id(self) -> (r: i8)
        ensures
            r == valve_state_id(self),
    {
        match self {
            ValveState::Undetermined => 0,
            ValveState::Disconnected => 1,
            ValveState::Open => 2,
            ValveState::Closed => 3,
            ValveState::CommandedOpen => 4,
            ValveState::CommandedClosed => 5,
            ValveState::Fault => 6,
        }
    }

    /// The name under which this state is rendered.
    pub fn name(self) -> (r: &'static str)
        ensures
            r@ == valve_state_name(self),
    {
        match self {
            ValveState::Undetermined => "Undetermined",
            ValveState::Disconnected => "Disconnected",
            ValveState::Open => "Open",
            ValveState::Closed => "Closed",
            ValveState::CommandedOpen => "CommandedOpen",
            ValveState::CommandedClosed => "CommandedClosed",
            ValveState::Fault => "Fault",
        }
    }
}

/// What a valve was last commanded to do and what it was measured to do.
#[derive(Clone, Copy, Debug, PartialEq, Eq, Structural)]
pub struct CompositeValveState {
    pub commanded: ValveState,
    pub actual: ValveState,
}

/// One sensor's latest reading. The value is an `f64` carried as its
/// IEEE-754 bit pattern: the server moves it about and never computes on it.
#[derive(Clone, Debug)]
pub struct SensorReading {
    pub name: String,
    pub value_bits: u64,
    pub unit: Unit,
}

/// One valve's latest state.
#[derive(Clone, Debug)]
pub struct ValveReading {
    pub name: String,
    pub state: CompositeValveState,
}

/// The live snapshot of every sensor reading and valve state.
#[derive(Clone, Debug)]
pub struct VehicleState {
    pub sensor_readings: Vec<SensorReading>,
    pub valve_states: Vec<ValveReading>,
}

/// The names of a list of sensor readings, in order.
pub open spec fn sensor_names(s: Seq<SensorReading>) -> Seq<Seq<char>> {
    s.map_values(|r: SensorReading| r.name@)
}

/// The names of a list of valve readings, in order.
pub open spec fn valve_names(s: Seq<ValveReading>) -> Seq<Seq<char>> {
    s.map_values(|r: ValveReading| r.name@)
}

impl VehicleState {
    /// A state with no readings, as the server holds before any telemetry.
    pub fn new() -> (r: VehicleState)
        ensures
            r.sensor_readings@.len() == 0,
            r.valve_states@.len() == 0,
    {
        VehicleState { sensor_readings: Vec::new(), valve_states: Vec::new() }
    }

    /// The position of the first sensor reading with the given name.
    pub fn sensor_index(&self, name: &String) -> (r: Option<usize>)
        ensures
            r matches Some(i) ==> i < self.sensor_readings@.len() && find_name(
                sensor_names(self.sensor_readings@),
                name@,
            ) == Some(i as int),
            r is None ==> find_name(sensor_names(self.sensor_readings@), name@) is None,
    {
        let mut i: usize = 0;
        while i < self.sensor_readings.len()
            invariant
                i <= self.sensor_readings@.len(),
                find_name(sensor_names(self.sensor_readings@).take(i as int), name@) is None,
            decreases self.sensor_readings@.len() - i,
        {
            proof {
                assert(sensor_names(self.sensor_readings@).take(i + 1).drop_last() =~= sensor_names(self.sensor_readings@).take(i as int));
            }
            if self.sensor_readings[i].name.eq(name) {
                proof {
                    lemma_find_name_prefix(sensor_names(self.sensor_readings@), i as int + 1, name@);
                }
                return Some(i);
            }
            i = i + 1;
        }
        proof {
            assert(sensor_names(self.sensor_readings@).take(i as int) =~= sensor_names(self.sensor_readings@));
        }
        None
    }

    /// The position of the first valve reading with the given name.
    pub fn valve_index(&self, name: &String) -> (r: Option<usize>)
        ensures
            r matches Some(i) ==> i < self.valve_states@.len() && find_name(
                valve_names(self.valve_states@),
                name@,
            ) == Some(i as int),
            r is None ==> find_name(valve_names(self.valve_states@), name@) is None,
    {
        let mut i: usize = 0;
        while i < self.valve_states.len()
            invariant
                i <= self.valve_states@.len(),
                find_name(valve_names(self.valve_states@).take(i as int), name@) is None,
            decreases self.valve_states@.len() - i,
        {
            proof {
                assert(valve_names(self.valve_states@).take(i + 1).drop_last() =~= valve_names(self.valve_states@).take(i as int));
            }
            if self.valve_states[i].name.eq(name) {
                proof {
                    lemma_find_name_prefix(valve_names(self.valve_states@), i as int + 1, name@);
                }
                return Some(i);
            }
            i = i + 1;
        }
        proof {
            assert(valve_names(self.valve_states@).take(i as int) =~= valve_names(self.valve_states@));
        }
        None
    }
}

} // verus!
