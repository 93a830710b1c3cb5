use vstd::prelude::*;
use crate::error::{bad_request, internal, not_found, ErrorKind, ServerError};
use crate::names::{contains_name, find_name, first_seen, flatten_names, lists_view, names_union, strings_view};
use crate::vehicle::{sensor_names, VehicleState};

verus! {

/// The kind of physical channel that a mapping declares.
#[derive(Clone, Copy, Debug, PartialEq, Eq, Structural)]
pub enum ChannelType {
    Gpio,
    Led,
    Rail3v3,
    Rail5v,
    Rail5v5,
    Rail24v,
    CurrentLoop,
    DifferentialSignal,
    Tc,
    ValveCurrent,
    ValveVoltage,
    Rtd,
    Valve,
}

/// The computer that a channel is wired to.
#[derive(Clone, Copy, Debug, PartialEq, Eq, Structural)]
pub enum Computer {
    Flight,
    Ground,
}

/// One physical channel. The optional calibration attributes are `f64`
/// values carried as their IEEE-754 bit patterns.
#[derive(Debug)]
pub struct NodeMapping {
    pub text_id: String,
    pub board_id: u32,
    pub channel_type: ChannelType,
    pub channel: u32,
    pub computer: Computer,
    pub max: Option<u64>,
    pub min: Option<u64>,
    pub calibrated_offset: Option<u64>,
    pub connected_threshold: Option<u64>,
    pub powered_threshold: Option<u64>,
    pub normally_closed: Option<bool>,
}

impl NodeMapping {
    /// A copy of this mapping.
    pub fn copy(&self) -> (r: NodeMapping)
        ensures
            r == *self,
    {
        NodeMapping {
            text_id: self.text_id.clone(),
            board_id: self.board_id,
            channel_type: self.channel_type,
            channel: self.channel,
            computer: self.computer,
            max: self.max,
            min: self.min,
            calibrated_offset: self.calibrated_offset,
            connected_threshold: self.connected_threshold,
            powered_threshold: self.powered_threshold,
            normally_closed: self.normally_closed,
        }
    }
}

/// One stored mapping: the configuration it belongs to, the channel, and
/// whether it is part of the active set.
#[derive(Debug)]
pub struct MappingRow {
    pub configuration_id: String,
    pub mapping: NodeMapping,
    pub active: bool,
}

impl MappingRow {
    /// A copy of this row.
    pub fn copy(&self) -> (r: MappingRow)
        ensures
            r == *self,
    {
        MappingRow {
            configuration_id: self.configuration_id.clone(),
            mapping: self.mapping.copy(),
            active: self.active,
        }
    }
}

/// A configuration's mappings, as listed to clients.
#[derive(Debug)]
pub struct ConfigurationGroup {
    pub configuration_id: String,
    pub mappings: Vec<NodeMapping>,
}

/// A sensor whose calibrated offset was set, and the offset (an `f64` bit pattern).
#[derive(Clone, Debug)]
pub struct CalibrationUpdate {
    pub sensor: String,
    pub offset_bits: u64,
}

/// Whether a row has the given key.
pub open spec fn has_key(r: MappingRow, cid: Seq<char>, tid: Seq<char>) -> bool {
    r.configuration_id@ == cid && r.mapping.text_id@ == tid
}

/// No two rows share a key `(configuration_id, text_id)`.
pub open spec fn keys_unique(rows: Seq<MappingRow>) -> bool {
    forall|i: int, j: int|
        0 <= i < j < rows.len() ==> !has_key(
            #[trigger] rows[i],
            (#[trigger] rows[j]).configuration_id@,
            rows[j].mapping.text_id@,
        )
}

/// The rows that satisfy `keep`, in order.
pub open spec fn filter_rows(rows: Seq<MappingRow>, keep: spec_fn(MappingRow) -> bool) -> Seq<MappingRow>
    decreases rows.len(),
{
    if rows.len() == 0 {
        seq![]
    } else {
        let p = filter_rows(rows.drop_last(), keep);
        if keep(rows.last()) {
            p.push(rows.last())
        } else {
            p
        }
    }
}

/// The row that a mapping becomes when it is stored under a configuration.
pub open spec fn stored_row(cid: String, m: NodeMapping, active: bool) -> MappingRow {
    MappingRow { configuration_id: cid, mapping: m, active }
}

/// The rows of other configurations than `cid`, in order.
pub open spec fn without_config(rows: Seq<MappingRow>, cid: Seq<char>) -> Seq<MappingRow> {
    filter_rows(rows, |r: MappingRow| r.configuration_id@ != cid)
}

/// The rows that a delete of the listed text ids of `cid` keeps, in order.
pub open spec fn without_keys(rows: Seq<MappingRow>, cid: Seq<char>, tids: Seq<Seq<char>>) -> Seq<MappingRow> {
    filter_rows(rows, |r: MappingRow| !(r.configuration_id@ == cid && tids.contains(r.mapping.text_id@)))
}

/// The mappings given, stored under `cid`.
pub open spec fn stored_rows(cid: String, ms: Seq<NodeMapping>, active: bool) -> Seq<MappingRow> {
    ms.map_values(|m: NodeMapping| stored_row(cid, m, active))
}

/// The position of the row with the given key.
pub open spec fn find_row(rows: Seq<MappingRow>, cid: Seq<char>, tid: Seq<char>) -> Option<int>
    decreases rows.len(),
{
    if rows.len() == 0 {
        None
    } else {
        match find_row(rows.drop_last(), cid, tid) {
            Some(i) => Some(i),
            None => if has_key(rows.last(), cid, tid) { Some(rows.len() - 1) } else { None },
        }
    }
}

/// The rows after inserting one mapping under `cid`, or updating the row of its key.
pub open spec fn upsert_one(rows: Seq<MappingRow>, cid: String, m: NodeMapping, active: bool) -> Seq<MappingRow> {
    match find_row(rows, cid@, m.text_id@) {
        Some(i) => rows.update(i, stored_row(cid, m, active)),
        None => rows.push(stored_row(cid, m, active)),
    }
}

/// The rows after upserting each mapping in turn.
pub open spec fn upsert_all(rows: Seq<MappingRow>, cid: String, ms: Seq<NodeMapping>, active: bool) -> Seq<MappingRow>
    decreases ms.len(),
{
    if ms.len() == 0 {
        rows
    } else {
        upsert_one(upsert_all(rows, cid, ms.drop_last(), active), cid, ms.last(), active)
    }
}

/// All active rows belong to one configuration.
pub open spec fn single_active(rows: Seq<MappingRow>) -> bool {
    forall|i: int, j: int|
        0 <= i < rows.len() && 0 <= j < rows.len() && (#[trigger] rows[i]).active && (#[trigger] rows[j]).active
            ==> rows[i].configuration_id@ == rows[j].configuration_id@
}

/// Every active row belongs to `cid`.
pub open spec fn only_active(rows: Seq<MappingRow>, cid: Seq<char>) -> bool {
    forall|i: int| 0 <= i < rows.len() && (#[trigger] rows[i]).active ==> rows[i].configuration_id@ == cid
}

/// Whether rows stored under `cid` join the active set: they do when no row
/// is active or when `cid` is the active configuration.
pub open spec fn joins_active(rows: Seq<MappingRow>, cid: Seq<char>) -> bool {
    match first_active(rows) {
        Some(i) => rows[i].configuration_id@ == cid,
        None => true,
    }
}

/// The row with its active flag set to whether it belongs to `cid`.
pub open spec fn with_activation(r: MappingRow, cid: Seq<char>) -> MappingRow {
    MappingRow { configuration_id: r.configuration_id, mapping: r.mapping, active: r.configuration_id@ == cid }
}

/// The rows after making `cid` the active configuration.
pub open spec fn activated(rows: Seq<MappingRow>, cid: Seq<char>) -> Seq<MappingRow> {
    rows.map_values(|r: MappingRow| with_activation(r, cid))
}

/// Some row belongs to `cid`.
pub open spec fn has_config(rows: Seq<MappingRow>, cid: Seq<char>) -> bool {
    exists|i: int| 0 <= i < rows.len() && (#[trigger] rows[i]).configuration_id@ == cid
}

/// The mappings of the active rows, in order: what is pushed to the flight computer.
pub open spec fn active_of(rows: Seq<MappingRow>) -> Seq<NodeMapping>
    decreases rows.len(),
{
    if rows.len() == 0 {
        seq![]
    } else if rows.last().active {
        active_of(rows.drop_last()).push(rows.last().mapping)
    } else {
        active_of(rows.drop_last())
    }
}

/// The position of the first active row.
pub open spec fn first_active(rows: Seq<MappingRow>) -> Option<int>
    decreases rows.len(),
{
    if rows.len() == 0 {
        None
    } else {
        match first_active(rows.drop_last()) {
            Some(i) => Some(i),
            None => if rows.last().active { Some(rows.len() - 1) } else { None },
        }
    }
}

/// The mappings of `cid`, in order.
pub open spec fn mappings_of(rows: Seq<MappingRow>, cid: Seq<char>) -> Seq<NodeMapping>
    decreases rows.len(),
{
    if rows.len() == 0 {
        seq![]
    } else if rows.last().configuration_id@ == cid {
        mappings_of(rows.drop_last(), cid).push(rows.last().mapping)
    } else {
        mappings_of(rows.drop_last(), cid)
    }
}

/// The configuration ids of the rows, in order.
pub open spec fn config_ids(rows: Seq<MappingRow>) -> Seq<Seq<char>> {
    rows.map_values(|r: MappingRow| r.configuration_id@)
}

/// The configurations that the table lists, each once, in order of first appearance.
pub open spec fn listed_configurations(rows: Seq<MappingRow>) -> Seq<Seq<char>> {
    first_seen(flatten_names(seq![config_ids(rows)]))
}

/// Whether a row is calibrated from a live reading: it is active and of a
/// type whose zero is measured.
pub open spec fn calibratable(r: MappingRow) -> bool {
    r.active && (r.mapping.channel_type == ChannelType::CurrentLoop || r.mapping.channel_type
        == ChannelType::DifferentialSignal)
}

/// The row after calibration against a vehicle state.
pub open spec fn calibrated_row(r: MappingRow, st: VehicleState) -> MappingRow {
    if calibratable(r) {
        match find_name(sensor_names(st.sensor_readings@), r.mapping.text_id@) {
            Some(i) => MappingRow {
                configuration_id: r.configuration_id,
                mapping: NodeMapping {
                    calibrated_offset: Some(st.sensor_readings@[i].value_bits),
                    ..r.mapping
                },
                active: r.active,
            },
            None => r,
        }
    } else {
        r
    }
}

/// The offsets that calibration sets, one per calibrated row, in order.
pub open spec fn calibration_updates(rows: Seq<MappingRow>, st: VehicleState) -> Seq<(Seq<char>, u64)>
    decreases rows.len(),
{
    if rows.len() == 0 {
        seq![]
    } else {
        let p = calibration_updates(rows.drop_last(), st);
        let r = rows.last();
        if calibratable(r) {
            match find_name(sensor_names(st.sensor_readings@), r.mapping.text_id@) {
                Some(i) => p.push((r.mapping.text_id@, st.sensor_readings@[i].value_bits)),
                None => p,
            }
        } else {
            p
        }
    }
}

/// The text ids of a list of mappings are distinct.
pub open spec fn text_ids_unique(ms: Seq<NodeMapping>) -> bool {
    forall|i: int, j: int| 0 <= i < j < ms.len() ==> (#[trigger] ms[i]).text_id@ != (#[trigger] ms[j]).text_id@
}

/// Each row of `sub` is a row of `rows` that satisfies `keep`.
pub open spec fn drawn_from(sub: Seq<MappingRow>, rows: Seq<MappingRow>, keep: spec_fn(MappingRow) -> bool) -> bool {
    forall|k: int| 0 <= k < sub.len() ==> keep(#[trigger] sub[k]) && rows.contains(sub[k])
}

/// Filtering keeps rows of the list only, and keeps keys distinct.
pub proof fn lemma_filter_rows(rows: Seq<MappingRow>, keep: spec_fn(MappingRow) -> bool)
    ensures
        drawn_from(filter_rows(rows, keep), rows, keep),
        keys_unique(rows) ==> keys_unique(filter_rows(rows, keep)),
    decreases rows.len(),
{
    if rows.len() > 0 {
        let init = rows.drop_last();
        lemma_filter_rows(init, keep);
        let p = filter_rows(init, keep);
        let f = filter_rows(rows, keep);
        assert(drawn_from(p, init, keep));
        assert forall|k: int| 0 <= k < f.len() implies keep(#[trigger] f[k]) && rows.contains(f[k]) by {
            if k < p.len() {
                assert(f[k] == p[k]);
                let j = choose|j: int| 0 <= j < init.len() && init[j] == p[k];
                assert(rows[j] == init[j]);
            } else {
                assert(f[k] == rows[rows.len() - 1]);
            }
        }
        if keys_unique(rows) {
            assert(keys_unique(init)) by {
                assert forall|i: int, j: int| 0 <= i < j < init.len() implies !has_key(
                    #[trigger] init[i], (#[trigger] init[j]).configuration_id@, init[j].mapping.text_id@) by {
                    assert(init[i] == rows[i] && init[j] == rows[j]);
                }
            }
            if keep(rows.last()) {
                assert forall|i: int, j: int| 0 <= i < j < f.len() implies !has_key(
                    #[trigger] f[i], (#[trigger] f[j]).configuration_id@, f[j].mapping.text_id@) by {
                    if j < p.len() {
                        assert(f[i] == p[i] && f[j] == p[j]);
                    } else {
                        assert(init.contains(p[i]));
                        let a = choose|a: int| 0 <= a < init.len() && init[a] == p[i];
                        assert(f[i] == p[i]);
                        assert(rows[a] == init[a]);
                        assert(f[j] == rows[rows.len() - 1]);
                    }
                }
            }
        }
        assert(drawn_from(filter_rows(rows, keep), rows, keep));
    } else {
        assert(filter_rows(rows, keep) =~= seq![]);
        assert(drawn_from(filter_rows(rows, keep), rows, keep));
    }
}

/// What `find_row` returns is a row of that key and no earlier row has it;
/// `None` means that no row has it.
pub proof fn lemma_find_row(rows: Seq<MappingRow>, cid: Seq<char>, tid: Seq<char>)
    ensures
        find_row(rows, cid, tid) matches Some(i) ==> 0 <= i < rows.len() && has_key(rows[i], cid, tid),
        find_row(rows, cid, tid) is None ==> forall|k: int| 0 <= k < rows.len() ==> !has_key(#[trigger] rows[k], cid, tid),
    decreases rows.len(),
{
    if rows.len() > 0 {
        lemma_find_row(rows.drop_last(), cid, tid);
        assert forall|k: int| 0 <= k < rows.len() - 1 implies rows[k] == rows.drop_last()[k] by {}
    }
}

/// A match found in a prefix is the first match of the whole list.
proof fn lemma_find_row_prefix(rows: Seq<MappingRow>, k: int, cid: Seq<char>, tid: Seq<char>)
    requires
        0 <= k <= rows.len(),
        find_row(rows.take(k), cid, tid) is Some,
    ensures
        find_row(rows, cid, tid) == find_row(rows.take(k), cid, tid),
    decreases rows.len() - k,
{
    if k < rows.len() {
        assert(rows.take(k + 1).drop_last() =~= rows.take(k));
        lemma_find_row_prefix(rows, k + 1, cid, tid);
    } else {
        assert(rows.take(k) =~= rows);
    }
}

/// What `first_active` returns is an active row; `None` means that no row is active.
pub proof fn lemma_first_active(rows: Seq<MappingRow>)
    ensures
        first_active(rows) matches Some(i) ==> 0 <= i < rows.len() && rows[i].active,
        first_active(rows) is None ==> forall|k: int| 0 <= k < rows.len() ==> !(#[trigger] rows[k]).active,
    decreases rows.len(),
{
    if rows.len() > 0 {
        lemma_first_active(rows.drop_last());
        assert forall|k: int| 0 <= k < rows.len() - 1 implies rows[k] == rows.drop_last()[k] by {}
    }
}

/// When the active rows share one configuration and rows of `cid` may join
/// them, every active row belongs to `cid`.
pub proof fn lemma_joins_active(rows: Seq<MappingRow>, cid: Seq<char>)
    requires
        single_active(rows),
        joins_active(rows, cid),
    ensures
        only_active(rows, cid),
{
    lemma_first_active(rows);
    assert forall|k: int| 0 <= k < rows.len() && (#[trigger] rows[k]).active implies rows[k].configuration_id@ == cid by {
        if let Some(i) = first_active(rows) {
            assert(rows[i].active);
        }
    }
}

/// After a configuration is activated, every active row belongs to it.
pub proof fn lemma_activated_unique(rows: Seq<MappingRow>, cid: Seq<char>)
    ensures
        forall|i: int| 0 <= i < activated(rows, cid).len() && (#[trigger] activated(rows, cid)[i]).active
            ==> activated(rows, cid)[i].configuration_id@ == cid,
        forall|i: int| 0 <= i < activated(rows, cid).len() && (#[trigger] activated(rows, cid)[i]).configuration_id@ == cid
            ==> activated(rows, cid)[i].active,
{
}

/// Two filters that agree on every row keep the same rows.
proof fn lemma_filter_rows_same(rows: Seq<MappingRow>, f: spec_fn(MappingRow) -> bool, g: spec_fn(MappingRow) -> bool)
    requires
        forall|x: MappingRow| #[trigger] f(x) == g(x),
    ensures
        filter_rows(rows, f) == filter_rows(rows, g),
    decreases rows.len(),
{
    if rows.len() > 0 {
        lemma_filter_rows_same(rows.drop_last(), f, g);
    }
}

/// An active row found in a prefix is the first active row of the whole list.
proof fn lemma_first_active_prefix(rows: Seq<MappingRow>, k: int)
    requires
        0 <= k <= rows.len(),
        first_active(rows.take(k)) is Some,
    ensures
        first_active(rows) == first_active(rows.take(k)),
    decreases rows.len() - k,
{
    if k < rows.len() {
        assert(rows.take(k + 1).drop_last() =~= rows.take(k));
        lemma_first_active_prefix(rows, k + 1);
    } else {
        assert(rows.take(k) =~= rows);
    }
}

/// The position of the row with the given key.
fn find_row_index(rows: &Vec<MappingRow>, cid: &String, tid: &String) -> (r: Option<usize>)
    ensures
        r matches Some(i) ==> i < rows@.len() && find_row(rows@, cid@, tid@) == Some(i as int),
        r is None ==> find_row(rows@, cid@, tid@) is None,
{
    let mut i: usize = 0;
    while i < rows.len()
        invariant
            i <= rows@.len(),
            find_row(rows@.take(i as int), cid@, tid@) is None,
        decreases rows@.len() - i,
    {
        proof {
            assert(rows@.take(i + 1).drop_last() =~= rows@.take(i as int));
        }
        if rows[i].configuration_id.eq(cid) && rows[i].mapping.text_id.eq(tid) {
            proof {
                lemma_find_row_prefix(rows@, i as int + 1, cid@, tid@);
            }
            return Some(i);
        }
        i = i + 1;
    }
    proof {
        assert(rows@.take(i as int) =~= rows@);
    }
    None
}

/// The position of the first active row.
fn first_active_index(rows: &Vec<MappingRow>) -> (r: Option<usize>)
    ensures
        r matches Some(i) ==> i < rows@.len() && first_active(rows@) == Some(i as int),
        r is None ==> first_active(rows@) is None,
{
    let mut i: usize = 0;
    while i < rows.len()
        invariant
            i <= rows@.len(),
            first_active(rows@.take(i as int)) is None,
        decreases rows@.len() - i,
    {
        proof {
            assert(rows@.take(i + 1).drop_last() =~= rows@.take(i as int));
        }
        if rows[i].active {
            proof {
                lemma_first_active_prefix(rows@, i as int + 1);
            }
            return Some(i);
        }
        i = i + 1;
    }
    proof {
        assert(rows@.take(i as int) =~= rows@);
    }
    None
}

/// Whether rows stored under the configuration join the active set.
fn joins_active_now(rows: &Vec<MappingRow>, cid: &String) -> (r: bool)
    ensures
        r == joins_active(rows@, cid@),
{
    match first_active_index(rows) {
        Some(i) => rows[i].configuration_id.eq(cid),
        None => true,
    }
}

/// Whether some row belongs to the configuration.
fn config_present(rows: &Vec<MappingRow>, cid: &String) -> (r: bool)
    ensures
        r == has_config(rows@, cid@),
{
    let mut i: usize = 0;
    while i < rows.len()
        invariant
            i <= rows@.len(),
            forall|k: int| 0 <= k < i ==> (#[trigger] rows@[k]).configuration_id@ != cid@,
        decreases rows@.len() - i,
    {
        if rows[i].configuration_id.eq(cid) {
            return true;
        }
        i = i + 1;
    }
    false
}

/// Whether some text id occurs twice in a list of mappings.
fn has_repeated_text_id(ms: &Vec<NodeMapping>) -> (r: bool)
    ensures
        r == !text_ids_unique(ms@),
{
    let mut j: usize = 0;
    while j < ms.len()
        invariant
            j <= ms@.len(),
            forall|a: int, b: int| 0 <= a < b < j ==> (#[trigger] ms@[a]).text_id@ != (#[trigger] ms@[b]).text_id@,
        decreases ms@.len() - j,
    {
        let mut a: usize = 0;
        while a < j
            invariant
                a <= j < ms@.len(),
                forall|x: int| 0 <= x < a ==> (#[trigger] ms@[x]).text_id@ != ms@[j as int].text_id@,
            decreases j - a,
        {
            if ms[a].text_id.eq(&ms[j].text_id) {
                return true;
            }
            a = a + 1;
        }
        j = j + 1;
    }
    false
}

/// The stored channel mappings of every configuration.
pub struct MappingTable {
    rows: Vec<MappingRow>,
}

impl MappingTable {
    /// The stored rows, in order.
    pub closed spec fn rows(&self) -> Seq<MappingRow> {
        self.rows@
    }

    /// No two rows share a key.
    pub open spec fn wf(&self) -> bool {
        keys_unique(self.rows())
    }

    /// A table of the given rows; refused when two rows share a key.
    pub fn from_rows(rows: Vec<MappingRow>) -> (r: Result<MappingTable, ServerError>)
        ensures
            keys_unique(rows@) <==> r is Ok,
            r matches Ok(t) ==> t.wf() && t.rows() == rows@,
            r matches Err(e) ==> e.kind == ErrorKind::Internal,
    {
        let mut j: usize = 0;
        while j < rows.len()
            invariant
                j <= rows@.len(),
                forall|a: int, b: int| 0 <= a < b < j ==> !has_key(
                    #[trigger] rows@[a],
                    (#[trigger] rows@[b]).configuration_id@,
                    rows@[b].mapping.text_id@,
                ),
            decreases rows@.len() - j,
        {
            let mut a: usize = 0;
            while a < j
                invariant
                    a <= j < rows@.len(),
                    forall|x: int| 0 <= x < a ==> !has_key(
                        #[trigger] rows@[x],
                        rows@[j as int].configuration_id@,
                        rows@[j as int].mapping.text_id@,
                    ),
                decreases j - a,
            {
                if rows[a].configuration_id.eq(&rows[j].configuration_id) && rows[a].mapping.text_id.eq(
                    &rows[j].mapping.text_id,
                ) {
                    return Err(internal("two mappings share a configuration and text id"));
                }
                a = a + 1;
            }
            j = j + 1;
        }
        Ok(MappingTable { rows })
    }

    /// The stored rows.
    pub fn row_list(&self) -> (r: &Vec<MappingRow>)
        ensures
            r@ == self.rows(),
    {
        &self.rows
    }

    /// Replaces a configuration: removes all of its rows, then stores each given
    /// mapping under it, active when no row was active or the configuration was
    /// the active one, inactive otherwise. Refused, with nothing changed, when
    /// two of the mappings share a text id.
    pub fn replace_configuration(&mut self, configuration_id: &String, mappings: &Vec<NodeMapping>) -> (r: Result<(), ServerError>)
        requires
            old(self).wf(),
        ensures
            final(self).wf(),
            r is Ok <==> text_ids_unique(mappings@),
            r is Ok ==> final(self).rows() == without_config(old(self).rows(), configuration_id@)
                + stored_rows(*configuration_id, mappings@, joins_active(old(self).rows(), configuration_id@)),
            r matches Err(e) ==> e.kind == ErrorKind::Internal && final(self).rows() == old(self).rows(),
            single_active(old(self).rows()) ==> single_active(final(self).rows()),
    {
        if has_repeated_text_id(mappings) {
            return Err(internal("two mappings share a text id"));
        }
        let joins = joins_active_now(&self.rows, configuration_id);
        let ghost old_rows = self.rows@;
        let ghost keep = |r: MappingRow| r.configuration_id@ != configuration_id@;
        let mut kept: Vec<MappingRow> = Vec::new();
        let mut i: usize = 0;
        while i < self.rows.len()
            invariant
                old_rows == self.rows@,
                i <= old_rows.len(),
                kept@ == filter_rows(old_rows.take(i as int), keep),
                forall|x: MappingRow| #[trigger] keep(x) == (x.configuration_id@ != configuration_id@),
            decreases old_rows.len() - i,
        {
            proof {
                assert(old_rows.take(i + 1).drop_last() =~= old_rows.take(i as int));
            }
            if !self.rows[i].configuration_id.eq(configuration_id) {
                kept.push(self.rows[i].copy());
            }
            i = i + 1;
        }
        proof {
            assert(old_rows.take(i as int) =~= old_rows);
            assert(kept@ == without_config(old_rows, configuration_id@));
            lemma_filter_rows(old_rows, keep);
        }
        let ghost base = kept@;
        let mut k: usize = 0;
        while k < mappings.len()
            invariant
                k <= mappings@.len(),
                text_ids_unique(mappings@),
                base == without_config(old_rows, configuration_id@),
                drawn_from(base, old_rows, keep),
                keys_unique(base),
                forall|x: MappingRow| #[trigger] keep(x) == (x.configuration_id@ != configuration_id@),
                kept@ == base + stored_rows(*configuration_id, mappings@.take(k as int), joins),
                keys_unique(kept@),
            decreases mappings@.len() - k,
        {
            let row = MappingRow { configuration_id: configuration_id.clone(), mapping: mappings[k].copy(), active: joins };
            let ghost prev = kept@;
            kept.push(row);
            proof {
                assert(stored_rows(*configuration_id, mappings@.take(k + 1), joins) =~= stored_rows(
                    *configuration_id,
                    mappings@.take(k as int),
                    joins,
                ).push(stored_row(*configuration_id, mappings@[k as int], joins)));
                assert(kept@ =~= base + stored_rows(*configuration_id, mappings@.take(k + 1), joins));
                assert forall|a: int, b: int| 0 <= a < b < kept@.len() implies !has_key(
                    #[trigger] kept@[a],
                    (#[trigger] kept@[b]).configuration_id@,
                    kept@[b].mapping.text_id@,
                ) by {
                    if b < prev.len() {
                        assert(kept@[a] == prev[a] && kept@[b] == prev[b]);
                    } else if a < base.len() {
                        assert(kept@[a] == base[a]);
                        assert(keep(base[a]));
                    } else {
                        let ms = mappings@.take(k as int);
                        assert(kept@[a] == stored_rows(*configuration_id, ms, joins)[a - base.len()]);
                        assert(ms[a - base.len()] == mappings@[a - base.len()]);
                    }
                }
            }
            k = k + 1;
        }
        proof {
            assert(mappings@.take(k as int) =~= mappings@);
            if single_active(old_rows) {
                if joins {
                    lemma_joins_active(old_rows, configuration_id@);
                }
                assert forall|a: int| 0 <= a < kept@.len() && (#[trigger] kept@[a]).active implies (if joins {
                    kept@[a].configuration_id@ == configuration_id@
                } else {
                    a < base.len() && old_rows.contains(kept@[a])
                }) by {
                    if a < base.len() {
                        assert(kept@[a] == base[a]);
                        assert(keep(base[a]) && old_rows.contains(base[a]));
                        let j = choose|j: int| 0 <= j < old_rows.len() && old_rows[j] == base[a];
                        assert(old_rows[j].active);
                    } else {
                        assert(kept@[a] == stored_rows(*configuration_id, mappings@, joins)[a - base.len()]);
                    }
                }
                assert forall|a: int, b: int|
                    0 <= a < kept@.len() && 0 <= b < kept@.len() && (#[trigger] kept@[a]).active && (#[trigger] kept@[b]).active
                    implies kept@[a].configuration_id@ == kept@[b].configuration_id@ by {
                    if !joins {
                        let ja = choose|j: int| 0 <= j < old_rows.len() && old_rows[j] == kept@[a];
                        let jb = choose|j: int| 0 <= j < old_rows.len() && old_rows[j] == kept@[b];
                        assert(old_rows[ja].active && old_rows[jb].active);
                    }
                }
            }
        }
        self.rows = kept;
        Ok(())
    }

    /// Stores each given mapping under a configuration, in turn: a mapping
    /// whose key is stored replaces that row, another is appended. The rows
    /// are active when no row was active or the configuration was the active
    /// one, inactive otherwise.
    pub fn upsert_mappings(&mut self, configuration_id: &String, mappings: &Vec<NodeMapping>)
        requires
            old(self).wf(),
        ensures
            final(self).wf(),
            final(self).rows() == upsert_all(
                old(self).rows(),
                *configuration_id,
                mappings@,
                joins_active(old(self).rows(), configuration_id@),
            ),
            single_active(old(self).rows()) ==> single_active(final(self).rows()),
    {
        let ghost old_rows = self.rows@;
        let joins = joins_active_now(&self.rows, configuration_id);
        proof {
            if single_active(old_rows) && joins {
                lemma_joins_active(old_rows, configuration_id@);
            }
        }
        let mut k: usize = 0;
        while k < mappings.len()
            invariant
                k <= mappings@.len(),
                keys_unique(self.rows@),
                joins == joins_active(old_rows, configuration_id@),
                self.rows@ == upsert_all(old_rows, *configuration_id, mappings@.take(k as int), joins),
                single_active(old_rows) && joins ==> only_active(self.rows@, configuration_id@),
                single_active(old_rows) && !joins ==> single_active(self.rows@),
            decreases mappings@.len() - k,
        {
            let m = &mappings[k];
            let row = MappingRow { configuration_id: configuration_id.clone(), mapping: m.copy(), active: joins };
            let ghost prev = self.rows@;
            proof {
                assert(mappings@.take(k + 1).drop_last() =~= mappings@.take(k as int));
                lemma_find_row(prev, configuration_id@, m.text_id@);
            }
            match find_row_index(&self.rows, configuration_id, &m.text_id) {
                Some(i) => {
                    self.rows.set(i, row);
                    proof {
                        assert forall|a: int, b: int| 0 <= a < b < self.rows@.len() implies !has_key(
                            #[trigger] self.rows@[a],
                            (#[trigger] self.rows@[b]).configuration_id@,
                            self.rows@[b].mapping.text_id@,
                        ) by {
                            if a == i {
                                assert(!has_key(prev[a], prev[b].configuration_id@, prev[b].mapping.text_id@));
                            } else if b == i {
                                assert(!has_key(prev[a], prev[b].configuration_id@, prev[b].mapping.text_id@));
                            } else {
                                assert(self.rows@[a] == prev[a] && self.rows@[b] == prev[b]);
                            }
                        }
                        if single_active(old_rows) && joins {
                            assert forall|a: int| 0 <= a < self.rows@.len() && (#[trigger] self.rows@[a]).active
                                implies self.rows@[a].configuration_id@ == configuration_id@ by {
                                if a != i {
                                    assert(self.rows@[a] == prev[a]);
                                }
                            }
                        }
                        if single_active(old_rows) && !joins {
                            assert forall|a: int, b: int|
                                0 <= a < self.rows@.len() && 0 <= b < self.rows@.len() && (#[trigger] self.rows@[a]).active
                                    && (#[trigger] self.rows@[b]).active
                                implies self.rows@[a].configuration_id@ == self.rows@[b].configuration_id@ by {
                                assert(self.rows@[a] == prev[a] && self.rows@[b] == prev[b]);
                            }
                        }
                    }
                },
                None => {
                    self.rows.push(row);
                    proof {
                        assert forall|a: int, b: int| 0 <= a < b < self.rows@.len() implies !has_key(
                            #[trigger] self.rows@[a],
                            (#[trigger] self.rows@[b]).configuration_id@,
                            self.rows@[b].mapping.text_id@,
                        ) by {
                            if b < prev.len() {
                                assert(self.rows@[a] == prev[a] && self.rows@[b] == prev[b]);
                            } else {
                                assert(self.rows@[a] == prev[a]);
                            }
                        }
                        if single_active(old_rows) && joins {
                            assert forall|a: int| 0 <= a < self.rows@.len() && (#[trigger] self.rows@[a]).active
                                implies self.rows@[a].configuration_id@ == configuration_id@ by {
                                if a < prev.len() {
                                    assert(self.rows@[a] == prev[a]);
                                }
                            }
                        }
                        if single_active(old_rows) && !joins {
                            assert forall|a: int, b: int|
                                0 <= a < self.rows@.len() && 0 <= b < self.rows@.len() && (#[trigger] self.rows@[a]).active
                                    && (#[trigger] self.rows@[b]).active
                                implies self.rows@[a].configuration_id@ == self.rows@[b].configuration_id@ by {
                                assert(self.rows@[a] == prev[a] && self.rows@[b] == prev[b]);
                            }
                        }
                    }
                },
            }
            k = k + 1;
        }
        proof {
            assert(mappings@.take(k as int) =~= mappings@);
            if single_active(old_rows) && joins {
                assert forall|a: int, b: int|
                    0 <= a < self.rows@.len() && 0 <= b < self.rows@.len() && (#[trigger] self.rows@[a]).active
                        && (#[trigger] self.rows@[b]).active
                    implies self.rows@[a].configuration_id@ == self.rows@[b].configuration_id@ by {}
            }
        }
    }

    /// Deletes the rows of a configuration: those with the listed text ids,
    /// or, when no list is given, all of them.
    pub fn delete_mappings(&mut self, configuration_id: &String, text_ids: &Option<Vec<String>>)
        requires
            old(self).wf(),
        ensures
            final(self).wf(),
            text_ids matches Some(ids) ==> final(self).rows() == without_keys(
                old(self).rows(),
                configuration_id@,
                strings_view(ids@),
            ),
            text_ids is None ==> final(self).rows() == without_config(old(self).rows(), configuration_id@),
            single_active(old(self).rows()) ==> single_active(final(self).rows()),
    {
        let ghost old_rows = self.rows@;
        let ghost keep = match text_ids {
            Some(ids) => |r: MappingRow| !(r.configuration_id@ == configuration_id@ && strings_view(ids@).contains(r.mapping.text_id@)),
            None => |r: MappingRow| r.configuration_id@ != configuration_id@,
        };
        let mut kept: Vec<MappingRow> = Vec::new();
        let mut i: usize = 0;
        while i < self.rows.len()
            invariant
                old_rows == self.rows@,
                i <= old_rows.len(),
                kept@ == filter_rows(old_rows.take(i as int), keep),
                text_ids matches Some(ids) ==> forall|x: MappingRow| #[trigger] keep(x) == !(x.configuration_id@ == configuration_id@ && strings_view(ids@).contains(x.mapping.text_id@)),
                text_ids is None ==> forall|x: MappingRow| #[trigger] keep(x) == (x.configuration_id@ != configuration_id@),
            decreases old_rows.len() - i,
        {
            proof {
                assert(old_rows.take(i + 1).drop_last() =~= old_rows.take(i as int));
            }
            let row = &self.rows[i];
            let drop = row.configuration_id.eq(configuration_id) && match text_ids {
                Some(ids) => contains_name(ids, &row.mapping.text_id),
                None => true,
            };
            if !drop {
                kept.push(row.copy());
            }
            i = i + 1;
        }
        proof {
            assert(old_rows.take(i as int) =~= old_rows);
            lemma_filter_rows(old_rows, keep);
            match text_ids {
                Some(ids) => {
                    lemma_filter_rows_same(old_rows, keep, |r: MappingRow| !(r.configuration_id@ == configuration_id@ && strings_view(ids@).contains(r.mapping.text_id@)));
                },
                None => {
                    lemma_filter_rows_same(old_rows, keep, |r: MappingRow| r.configuration_id@ != configuration_id@);
                },
            }
        }
        proof {
            assert forall|a: int, b: int|
                0 <= a < kept@.len() && 0 <= b < kept@.len() && (#[trigger] kept@[a]).active && (#[trigger] kept@[b]).active
                    && single_active(old_rows)
                implies kept@[a].configuration_id@ == kept@[b].configuration_id@ by {
                assert(old_rows.contains(kept@[a]) && old_rows.contains(kept@[b]));
                let ja = choose|j: int| 0 <= j < old_rows.len() && old_rows[j] == kept@[a];
                let jb = choose|j: int| 0 <= j < old_rows.len() && old_rows[j] == kept@[b];
                assert(old_rows[ja].active && old_rows[jb].active);
            }
        }
        self.rows = kept;
    }

    /// Makes a configuration the active one: every row of it becomes active
    /// and every other row inactive. Refused with `BadRequest`, with nothing
    /// changed, when no row belongs to the configuration.
    pub fn activate_configuration(&mut self, configuration_id: &String) -> (r: Result<(), ServerError>)
        requires
            old(self).wf(),
        ensures
            final(self).wf(),
            r is Ok <==> has_config(old(self).rows(), configuration_id@),
            r is Ok ==> final(self).rows() == activated(old(self).rows(), configuration_id@),
            r matches Err(e) ==> e.kind == ErrorKind::BadRequest && final(self).rows() == old(self).rows(),
            r is Ok ==> forall|i: int| 0 <= i < final(self).rows().len() ==> ((#[trigger] final(self).rows()[i]).active
                <==> final(self).rows()[i].configuration_id@ == configuration_id@),
            r is Ok ==> single_active(final(self).rows()),
    {
        let ghost old_rows = self.rows@;
        let found = config_present(&self.rows, configuration_id);
        if !found {
            return Err(bad_request("configuration_id does not exist"));
        }
        let mut next: Vec<MappingRow> = Vec::new();
        let mut i: usize = 0;
        while i < self.rows.len()
            invariant
                old_rows == self.rows@,
                has_config(old_rows, configuration_id@),
                i <= old_rows.len(),
                next@.len() == i,
                forall|k: int| 0 <= k < i ==> #[trigger] next@[k] == with_activation(old_rows[k], configuration_id@),
            decreases old_rows.len() - i,
        {
            let row = &self.rows[i];
            let active = row.configuration_id.eq(configuration_id);
            next.push(MappingRow { configuration_id: row.configuration_id.clone(), mapping: row.mapping.copy(), active });
            i = i + 1;
        }
        proof {
            assert(next@ =~= activated(old_rows, configuration_id@));
        }
        self.rows = next;
        Ok(())
    }

    /// The configuration of the first active row; `NotFound` when no row is active.
    pub fn active_configuration(&self) -> (r: Result<String, ServerError>)
        ensures
            first_active(self.rows()) matches Some(i) ==> (r matches Ok(c) && c@ == self.rows()[i].configuration_id@),
            first_active(self.rows()) is None ==> (r matches Err(e) && e.kind == ErrorKind::NotFound),
    {
        let mut i: usize = 0;
        while i < self.rows.len()
            invariant
                i <= self.rows@.len(),
                first_active(self.rows@.take(i as int)) is None,
            decreases self.rows@.len() - i,
        {
            proof {
                assert(self.rows@.take(i + 1).drop_last() =~= self.rows@.take(i as int));
            }
            if self.rows[i].active {
                proof {
                    lemma_first_active_prefix(self.rows@, i as int + 1);
                }
                return Ok(self.rows[i].configuration_id.clone());
            }
            i = i + 1;
        }
        proof {
            assert(self.rows@.take(i as int) =~= self.rows@);
        }
        Err(not_found("no configurations active"))
    }

    /// The mappings of the active rows, in order.
    pub fn active_mappings(&self) -> (r: Vec<NodeMapping>)
        ensures
            r@ == active_of(self.rows()),
    {
        let mut r: Vec<NodeMapping> = Vec::new();
        let mut i: usize = 0;
        while i < self.rows.len()
            invariant
                i <= self.rows@.len(),
                r@ == active_of(self.rows@.take(i as int)),
            decreases self.rows@.len() - i,
        {
            proof {
                assert(self.rows@.take(i + 1).drop_last() =~= self.rows@.take(i as int));
            }
            if self.rows[i].active {
                r.push(self.rows[i].mapping.copy());
            }
            i = i + 1;
        }
        proof {
            assert(self.rows@.take(i as int) =~= self.rows@);
        }
        r
    }

    /// The mappings of one configuration, in order.
    pub fn mappings_for(&self, configuration_id: &String) -> (r: Vec<NodeMapping>)
        ensures
            r@ == mappings_of(self.rows(), configuration_id@),
    {
        let mut r: Vec<NodeMapping> = Vec::new();
        let mut i: usize = 0;
        while i < self.rows.len()
            invariant
                i <= self.rows@.len(),
                r@ == mappings_of(self.rows@.take(i as int), configuration_id@),
            decreases self.rows@.len() - i,
        {
            proof {
                assert(self.rows@.take(i + 1).drop_last() =~= self.rows@.take(i as int));
            }
            if self.rows[i].configuration_id.eq(configuration_id) {
                r.push(self.rows[i].mapping.copy());
            }
            i = i + 1;
        }
        proof {
            assert(self.rows@.take(i as int) =~= self.rows@);
        }
        r
    }

    /// Every configuration with its mappings: one group per configuration id,
    /// in order of first appearance.
    pub fn configurations(&self) -> (r: Vec<ConfigurationGroup>)
        ensures
            r@.len() == listed_configurations(self.rows()).len(),
            forall|k: int| 0 <= k < r@.len() ==> (#[trigger] r@[k]).configuration_id@ == listed_configurations(self.rows())[k]
                && r@[k].mappings@ == mappings_of(self.rows(), listed_configurations(self.rows())[k]),
    {
        let mut ids: Vec<String> = Vec::new();
        let mut i: usize = 0;
        while i < self.rows.len()
            invariant
                i <= self.rows@.len(),
                ids@.len() == i,
                forall|k: int| 0 <= k < i ==> #[trigger] ids@[k] == self.rows@[k].configuration_id,
            decreases self.rows@.len() - i,
        {
            ids.push(self.rows[i].configuration_id.clone());
            i = i + 1;
        }
        let mut lists: Vec<Vec<String>> = Vec::new();
        lists.push(ids);
        proof {
            assert(strings_view(lists@[0]@) =~= config_ids(self.rows@));
            assert(lists_view(lists@) =~= seq![config_ids(self.rows@)]);
        }
        let names = names_union(&lists);
        let ghost listed_ids = listed_configurations(self.rows@);
        let mut r: Vec<ConfigurationGroup> = Vec::new();
        let mut k: usize = 0;
        while k < names.len()
            invariant
                k <= names@.len(),
                strings_view(names@) == listed_ids,
                listed_ids == listed_configurations(self.rows@),
                r@.len() == k,
                forall|a: int| 0 <= a < k ==> (#[trigger] r@[a]).configuration_id@ == listed_ids[a]
                    && r@[a].mappings@ == mappings_of(self.rows@, listed_ids[a]),
            decreases names@.len() - k,
        {
            let mappings = self.mappings_for(&names[k]);
            assert(listed_ids[k as int] == names@[k as int]@);
            r.push(ConfigurationGroup { configuration_id: names[k].clone(), mappings });
            k = k + 1;
        }
        r
    }

    /// Calibrates against a vehicle state: every active current-loop or
    /// differential-signal row whose text id has a live reading takes that
    /// reading as its calibrated offset. Returns the offsets set, in row order.
    pub fn calibrate(&mut self, state: &VehicleState) -> (r: Vec<CalibrationUpdate>)
        requires
            old(self).wf(),
        ensures
            final(self).wf(),
            final(self).rows() == old(self).rows().map_values(|row: MappingRow| calibrated_row(row, *state)),
            r@.map_values(|u: CalibrationUpdate| (u.sensor@, u.offset_bits)) == calibration_updates(old(self).rows(), *state),
            single_active(old(self).rows()) ==> single_active(final(self).rows()),
    {
        let ghost old_rows = self.rows@;
        let mut next: Vec<MappingRow> = Vec::new();
        let mut updates: Vec<CalibrationUpdate> = Vec::new();
        let mut i: usize = 0;
        while i < self.rows.len()
            invariant
                old_rows == self.rows@,
                i <= old_rows.len(),
                next@.len() == i,
                forall|k: int| 0 <= k < i ==> #[trigger] next@[k] == calibrated_row(old_rows[k], *state),
                updates@.map_values(|u: CalibrationUpdate| (u.sensor@, u.offset_bits)) == calibration_updates(old_rows.take(i as int), *state),
            decreases old_rows.len() - i,
        {
            proof {
                assert(old_rows.take(i + 1).drop_last() =~= old_rows.take(i as int));
            }
            let row = &self.rows[i];
            let ghost prev_updates = updates@;
            let eligible = row.active && (match row.mapping.channel_type {
                ChannelType::CurrentLoop => true,
                ChannelType::DifferentialSignal => true,
                _ => false,
            });
            let mut copy = row.copy();
            if eligible {
                match state.sensor_index(&row.mapping.text_id) {
                    Some(j) => {
                        let bits = state.sensor_readings[j].value_bits;
                        copy.mapping.calibrated_offset = Some(bits);
                        updates.push(CalibrationUpdate { sensor: row.mapping.text_id.clone(), offset_bits: bits });
                        proof {
                            assert(updates@.map_values(|u: CalibrationUpdate| (u.sensor@, u.offset_bits)) =~= prev_updates.map_values(
                                |u: CalibrationUpdate| (u.sensor@, u.offset_bits),
                            ).push((row.mapping.text_id@, bits)));
                        }
                    },
                    None => {},
                }
            }
            next.push(copy);
            i = i + 1;
        }
        proof {
            assert(old_rows.take(i as int) =~= old_rows);
            assert(next@ =~= old_rows.map_values(|row: MappingRow| calibrated_row(row, *state)));
            assert forall|a: int, b: int| 0 <= a < b < next@.len() implies !has_key(
                #[trigger] next@[a],
                (#[trigger] next@[b]).configuration_id@,
                next@[b].mapping.text_id@,
            ) by {
                assert(!has_key(old_rows[a], old_rows[b].configuration_id@, old_rows[b].mapping.text_id@));
            }
            assert forall|a: int, b: int|
                0 <= a < next@.len() && 0 <= b < next@.len() && (#[trigger] next@[a]).active && (#[trigger] next@[b]).active
                    && single_active(old_rows)
                implies next@[a].configuration_id@ == next@[b].configuration_id@ by {
                assert(old_rows[a].active && old_rows[b].active);
            }
        }
        self.rows = next;
        updates
    }

    /// An empty table.
    pub fn new() -> (r: MappingTable)
        ensures
            r.wf(),
            r.rows() == Seq::<MappingRow>::empty(),
    {
        MappingTable { rows: Vec::new() }
    }
}

} // verus!
