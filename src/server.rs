use vstd::prelude::*;
use crate::error::{bad_request, ErrorKind, ServerError};
use crate::command::{command_script, operator_command, OperatorCommandRequest};
use crate::flight::{FlightControlMessage, FlightLink};
use crate::forwarding::{address_taken, TargetTable};
use crate::mappings::{
    activated, active_of, has_config, joins_active, single_active, text_ids_unique, stored_rows, upsert_all, without_config, without_keys,
    CalibrationUpdate, ConfigurationGroup, MappingRow, MappingTable, NodeMapping,
};
use crate::names::strings_view;
use crate::sequences::{
    base64_decoded, decode_script, find_sequence, DeleteSequenceRequest, RetrieveSequenceResponse, RunSequenceRequest,
    SaveSequenceRequest, SequenceTable, SequenceWithConfiguration,
};
use crate::vehicle::VehicleState;
use vstd::utf8::{decode_utf8, valid_utf8};

verus! {

/// A request to replace or update the mappings of a configuration.
#[derive(Debug)]
pub struct SetMappingsRequest {
    pub configuration_id: String,
    pub mappings: Vec<NodeMapping>,
}

/// A request to delete mappings of a configuration: the listed ones, or all
/// of them when none are listed.
#[derive(Debug)]
pub struct DeleteMappingsRequest {
    pub configuration_id: String,
    pub mappings: Option<Vec<NodeMapping>>,
}

/// The configuration to activate, or the active one.
#[derive(Clone, Debug)]
pub struct ActiveConfiguration {
    pub configuration_id: String,
}

/// The entries after storing a sequence under `name`: the entry of that name
/// replaced in place, or a new entry appended, holding the script and configuration.
pub open spec fn stored_as(
    before: Seq<SequenceWithConfiguration>,
    after: Seq<SequenceWithConfiguration>,
    name: Seq<char>,
    script: Seq<char>,
    configuration_id: Option<String>,
) -> bool {
    let k = match find_sequence(before, name) {
        Some(i) => i,
        None => before.len() as int,
    };
    &&& after.len() == if find_sequence(before, name) is Some { before.len() } else { before.len() + 1 }
    &&& 0 <= k < after.len()
    &&& after[k].name@ == name && after[k].script@ == script && after[k].configuration_id == configuration_id
    &&& forall|j: int| 0 <= j < before.len() && j != k ==> #[trigger] after[j] == before[j]
}

/// The last message handed to the flight session is the given active set.
pub open spec fn pushed_active(link: FlightLink, rows: Seq<MappingRow>) -> bool {
    link.sent() matches Some(FlightControlMessage::Mappings(v)) && v@ == active_of(rows)
}

/// The server's state: the mapping authority, the sequence registry, the
/// forwarding targets and the flight session slot.
pub struct Servo {
    pub mappings: MappingTable,
    pub sequences: SequenceTable,
    pub targets: TargetTable,
    pub flight: FlightLink,
}

impl Servo {
    /// Every table keeps its keys distinct.
    pub open spec fn wf(&self) -> bool {
        self.mappings.wf() && self.sequences.wf() && self.targets.wf()
    }

    /// A server with empty tables and no flight session.
    pub fn new() -> (r: Servo)
        ensures
            r.wf(),
            r.mappings.rows().len() == 0,
            r.sequences.entries().len() == 0,
            r.targets.targets().len() == 0,
            r.flight.session() is None,
            r.flight.sent() is None,
    {
        Servo {
            mappings: MappingTable::new(),
            sequences: SequenceTable::new(),
            targets: TargetTable::new(),
            flight: FlightLink::new(),
        }
    }

    /// Pushes the active mapping set to the flight computer.
    pub fn send_mappings(&mut self) -> (r: Result<(), ServerError>)
        ensures
            final(self).mappings == old(self).mappings,
            final(self).sequences == old(self).sequences,
            final(self).targets == old(self).targets,
            final(self).flight.session() == old(self).flight.session(),
            r is Ok <==> old(self).flight.session() is Some,
            r is Ok ==> pushed_active(final(self).flight, final(self).mappings.rows()),
            r matches Err(e) ==> e.kind == ErrorKind::Internal && final(self).flight.sent() == old(self).flight.sent(),
    {
        let active = self.mappings.active_mappings();
        self.flight.dispatch(FlightControlMessage::Mappings(active))
    }

    /// Replaces a configuration's mappings, then pushes the active set.
    pub fn post_mappings(&mut self, request: &SetMappingsRequest) -> (r: Result<(), ServerError>)
        requires
            old(self).wf(),
        ensures
            final(self).wf(),
            final(self).flight.session() == old(self).flight.session(),
            final(self).sequences == old(self).sequences,
            final(self).targets == old(self).targets,
            single_active(old(self).mappings.rows()) ==> single_active(final(self).mappings.rows()),
            r is Ok <==> text_ids_unique(request.mappings@) && old(self).flight.session() is Some,
            text_ids_unique(request.mappings@) ==> final(self).mappings.rows() == without_config(
                old(self).mappings.rows(),
                request.configuration_id@,
            ) + stored_rows(
                request.configuration_id,
                request.mappings@,
                joins_active(old(self).mappings.rows(), request.configuration_id@),
            ),
            !text_ids_unique(request.mappings@) ==> final(self).mappings.rows() == old(self).mappings.rows()
                && final(self).flight.sent() == old(self).flight.sent(),
            r is Ok ==> pushed_active(final(self).flight, final(self).mappings.rows()),
            r matches Err(e) ==> e.kind == ErrorKind::Internal,
    {
        self.mappings.replace_configuration(&request.configuration_id, &request.mappings)?;
        self.send_mappings()
    }

    /// Inserts or updates mappings of a configuration, then pushes the active set.
    pub fn put_mappings(&mut self, request: &SetMappingsRequest) -> (r: Result<(), ServerError>)
        requires
            old(self).wf(),
        ensures
            final(self).wf(),
            final(self).flight.session() == old(self).flight.session(),
            final(self).sequences == old(self).sequences,
            final(self).targets == old(self).targets,
            single_active(old(self).mappings.rows()) ==> single_active(final(self).mappings.rows()),
            final(self).mappings.rows() == upsert_all(
                old(self).mappings.rows(),
                request.configuration_id,
                request.mappings@,
                joins_active(old(self).mappings.rows(), request.configuration_id@),
            ),
            r is Ok <==> old(self).flight.session() is Some,
            r is Ok ==> pushed_active(final(self).flight, final(self).mappings.rows()),
            r matches Err(e) ==> e.kind == ErrorKind::Internal,
    {
        self.mappings.upsert_mappings(&request.configuration_id, &request.mappings);
        self.send_mappings()
    }

    /// Deletes the listed mappings of a configuration, or the whole
    /// configuration, then pushes the active set.
    pub fn delete_mappings(&mut self, request: &DeleteMappingsRequest) -> (r: Result<(), ServerError>)
        requires
            old(self).wf(),
        ensures
            final(self).wf(),
            final(self).flight.session() == old(self).flight.session(),
            final(self).sequences == old(self).sequences,
            final(self).targets == old(self).targets,
            single_active(old(self).mappings.rows()) ==> single_active(final(self).mappings.rows()),
            request.mappings matches Some(ms) ==> final(self).mappings.rows() == without_keys(
                old(self).mappings.rows(),
                request.configuration_id@,
                ms@.map_values(|m: NodeMapping| m.text_id@),
            ),
            request.mappings is None ==> final(self).mappings.rows() == without_config(
                old(self).mappings.rows(),
                request.configuration_id@,
            ),
            r is Ok <==> old(self).flight.session() is Some,
            r is Ok ==> pushed_active(final(self).flight, final(self).mappings.rows()),
            r matches Err(e) ==> e.kind == ErrorKind::Internal,
    {
        let text_ids: Option<Vec<String>> = match &request.mappings {
            Some(ms) => {
                let mut ids: Vec<String> = Vec::new();
                let mut i: usize = 0;
                while i < ms.len()
                    invariant
                        i <= ms@.len(),
                        strings_view(ids@) == ms@.take(i as int).map_values(|m: NodeMapping| m.text_id@),
                    decreases ms@.len() - i,
                {
                    let ghost prev = ids@;
                    ids.push(ms[i].text_id.clone());
                    proof {
                        crate::names::lemma_strings_view_push(prev, ms@[i as int].text_id);
                        crate::names::lemma_map_take_push(ms@, |m: NodeMapping| m.text_id@, i as int);
                    }
                    i = i + 1;
                }
                proof {
                    assert(ms@.take(i as int) =~= ms@);
                }
                Some(ids)
            },
            None => None,
        };
        self.mappings.delete_mappings(&request.configuration_id, &text_ids);
        self.send_mappings()
    }

    /// Activates a configuration, then pushes the active set. `BadRequest`
    /// when no mapping belongs to it: nothing changes and nothing is pushed.
    pub fn activate_configuration(&mut self, request: &ActiveConfiguration) -> (r: Result<(), ServerError>)
        requires
            old(self).wf(),
        ensures
            final(self).wf(),
            final(self).flight.session() == old(self).flight.session(),
            final(self).sequences == old(self).sequences,
            final(self).targets == old(self).targets,
            single_active(old(self).mappings.rows()) ==> single_active(final(self).mappings.rows()),
            !has_config(old(self).mappings.rows(), request.configuration_id@) ==> (r matches Err(e) && e.kind
                == ErrorKind::BadRequest && final(self).mappings.rows() == old(self).mappings.rows()
                && final(self).flight.sent() == old(self).flight.sent()),
            has_config(old(self).mappings.rows(), request.configuration_id@) ==> final(self).mappings.rows()
                == activated(old(self).mappings.rows(), request.configuration_id@),
            r is Ok <==> has_config(old(self).mappings.rows(), request.configuration_id@)
                && old(self).flight.session() is Some,
            r is Ok ==> pushed_active(final(self).flight, final(self).mappings.rows()),
            r is Ok ==> forall|i: int| 0 <= i < final(self).mappings.rows().len()
                && (#[trigger] final(self).mappings.rows()[i]).active ==> final(self).mappings.rows()[i].configuration_id@
                == request.configuration_id@,
    {
        self.mappings.activate_configuration(&request.configuration_id)?;
        self.send_mappings()
    }

    /// The configuration of the first active mapping; `NotFound` when none is active.
    pub fn get_active_configuration(&self) -> (r: Result<ActiveConfiguration, ServerError>)
        ensures
            crate::mappings::first_active(self.mappings.rows()) matches Some(i) ==> (r matches Ok(c)
                && c.configuration_id@ == self.mappings.rows()[i].configuration_id@),
            crate::mappings::first_active(self.mappings.rows()) is None ==> (r matches Err(e) && e.kind
                == ErrorKind::NotFound),
    {
        let configuration_id = self.mappings.active_configuration()?;
        Ok(ActiveConfiguration { configuration_id })
    }

    /// Every configuration with its mappings.
    pub fn get_mappings(&self) -> (r: Vec<ConfigurationGroup>)
        ensures
            r@.len() == crate::mappings::listed_configurations(self.mappings.rows()).len(),
            forall|k: int| 0 <= k < r@.len() ==> (#[trigger] r@[k]).configuration_id@
                == crate::mappings::listed_configurations(self.mappings.rows())[k] && r@[k].mappings@
                == crate::mappings::mappings_of(
                self.mappings.rows(),
                crate::mappings::listed_configurations(self.mappings.rows())[k],
            ),
    {
        self.mappings.configurations()
    }

    /// Calibrates the active current-loop and differential-signal mappings
    /// against the live state, then pushes the active set. Returns the offsets set.
    pub fn calibrate(&mut self, state: &VehicleState) -> (r: Result<Vec<CalibrationUpdate>, ServerError>)
        requires
            old(self).wf(),
        ensures
            final(self).wf(),
            final(self).flight.session() == old(self).flight.session(),
            final(self).sequences == old(self).sequences,
            final(self).targets == old(self).targets,
            single_active(old(self).mappings.rows()) ==> single_active(final(self).mappings.rows()),
            final(self).mappings.rows() == old(self).mappings.rows().map_values(
                |row: MappingRow| crate::mappings::calibrated_row(row, *state),
            ),
            r is Ok <==> old(self).flight.session() is Some,
            r matches Ok(u) ==> u@.map_values(|c: CalibrationUpdate| (c.sensor@, c.offset_bits))
                == crate::mappings::calibration_updates(old(self).mappings.rows(), *state),
            r is Ok ==> pushed_active(final(self).flight, final(self).mappings.rows()),
            r matches Err(e) ==> e.kind == ErrorKind::Internal,
    {
        let updates = self.mappings.calibrate(state);
        self.send_mappings()?;
        Ok(updates)
    }

    /// Carries out an operator command: `Internal` when no flight session is
    /// held; `BadRequest` when the command is refused; otherwise the one-shot
    /// sequence is handed to the session.
    pub fn dispatch_operator_command(&mut self, request: &OperatorCommandRequest) -> (r: Result<(), ServerError>)
        requires
            old(self).wf(),
        ensures
            final(self).wf(),
            final(self).mappings == old(self).mappings,
            old(self).flight.session() is None ==> (r matches Err(e) && e.kind == ErrorKind::Internal),
            old(self).flight.session() is Some ==> (r is Ok <==> command_script(
                *request,
                active_of(old(self).mappings.rows()),
            ) is Some),
            old(self).flight.session() is Some && command_script(*request, active_of(old(self).mappings.rows())) is None
                ==> (r matches Err(e) && e.kind == ErrorKind::BadRequest),
            r is Ok ==> (final(self).flight.sent() matches Some(FlightControlMessage::Sequence(s)) && s.name@
                == "command"@ && command_script(*request, active_of(old(self).mappings.rows())) == Some(s.script@)),
            r is Err ==> final(self).flight.sent() == old(self).flight.sent(),
    {
        if !self.flight.is_connected() {
            return Err(crate::error::internal("flight computer not connected"));
        }
        let active = self.mappings.active_mappings();
        let sequence = operator_command(request, &active)?;
        self.flight.dispatch(FlightControlMessage::Sequence(sequence))
    }

    /// Stores a sequence whose script arrives Base64-encoded; `BadRequest`
    /// when the script does not decode to UTF-8 text.
    pub fn save_sequence(&mut self, request: &SaveSequenceRequest) -> (r: Result<(), ServerError>)
        requires
            old(self).wf(),
        ensures
            final(self).wf(),
            r is Ok <==> (base64_decoded(request.script@) matches Some(b) && valid_utf8(b)),
            r is Ok ==> (base64_decoded(request.script@) matches Some(b) && stored_as(
                old(self).sequences.entries(),
                final(self).sequences.entries(),
                request.name@,
                decode_utf8(b),
                request.configuration_id,
            )),
            r matches Err(e) ==> e.kind == ErrorKind::BadRequest && final(self).sequences == old(self).sequences,
    {
        let script = decode_script(&request.script)?;
        let configuration_id = match &request.configuration_id {
            Some(c) => Some(c.clone()),
            None => None,
        };
        let entry = SequenceWithConfiguration { name: request.name.clone(), script, configuration_id };
        self.sequences.store(entry);
        Ok(())
    }

    /// Deletes the sequence of the given name, if there is one.
    pub fn delete_sequence(&mut self, request: &DeleteSequenceRequest)
        requires
            old(self).wf(),
        ensures
            final(self).wf(),
            find_sequence(old(self).sequences.entries(), request.name@) matches Some(i) ==> final(self).sequences.entries()
                == old(self).sequences.entries().remove(i),
            find_sequence(old(self).sequences.entries(), request.name@) is None ==> final(self).sequences.entries()
                == old(self).sequences.entries(),
    {
        self.sequences.remove(&request.name);
    }

    /// Every stored sequence.
    pub fn retrieve_sequences(&self) -> (r: RetrieveSequenceResponse)
        ensures
            r.sequences@ == self.sequences.entries(),
    {
        self.sequences.list()
    }

    /// Sends a stored sequence to the flight computer: `BadRequest` when no
    /// sequence has the name, `Internal` when no flight session is held.
    pub fn run_sequence(&mut self, request: &RunSequenceRequest) -> (r: Result<(), ServerError>)
        requires
            old(self).wf(),
        ensures
            final(self).wf(),
            final(self).mappings == old(self).mappings,
            find_sequence(old(self).sequences.entries(), request.name@) is None ==> (r matches Err(e) && e.kind
                == ErrorKind::BadRequest),
            find_sequence(old(self).sequences.entries(), request.name@) matches Some(i) ==> {
                &&& r is Ok <==> old(self).flight.session() is Some
                &&& old(self).flight.session() is None ==> (r matches Err(e) && e.kind == ErrorKind::Internal)
                &&& r is Ok ==> (final(self).flight.sent() matches Some(FlightControlMessage::Sequence(s)) && s.name@
                    == request.name@ && s.script@ == old(self).sequences.entries()[i].script@)
            },
            r is Err ==> final(self).flight.sent() == old(self).flight.sent(),
    {
        let sequence = match self.sequences.lookup(&request.name) {
            Some(s) => s,
            None => {
                return Err(bad_request("no sequence with that name"));
            },
        };
        self.flight.dispatch(FlightControlMessage::Sequence(sequence))
    }

    /// Registers a forwarding target for the requesting peer's socket address.
    pub fn register_forwarding(&mut self, host: &String, port: u16, now: u64) -> (r: Result<u128, ServerError>)
        requires
            old(self).wf(),
        ensures
            final(self).wf(),
            address_taken(old(self).targets.targets(), host@, port) ==> (r matches Err(e) && e.kind
                == ErrorKind::Conflict),
            !address_taken(old(self).targets.targets(), host@, port) ==> (r matches Err(e) ==> e.kind
                == ErrorKind::Internal),
            old(self).targets.targets().len() == 0 ==> r is Ok,
            r matches Ok(id) ==> final(self).targets.targets() == old(self).targets.targets().push(
                crate::forwarding::ForwardingTarget { target_id: id, host: *host, port, expiration: crate::forwarding::expiry(now) },
            ),
            r is Err ==> final(self).targets.targets() == old(self).targets.targets(),
    {
        self.targets.register(host, port, now)
    }
}

} // verus!
