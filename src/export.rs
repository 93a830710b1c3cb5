use vstd::prelude::*;
use vstd::string::StringExecFns;
use crate::error::{bad_request, ErrorKind, ServerError};
use crate::names::{
    find_name, first_seen, flatten_names, lemma_find_name, lemma_union_of_lists, lists_view, names_union,
    strings_view,
};
use crate::vehicle::{
    sensor_names, unit_id, unit_symbol, valve_names, valve_state_id, valve_state_name, Unit,
    ValveReading, ValveState, VehicleState,
};

verus! {

/// One sensor reading ready for text export: the value already rendered as
/// decimal text, and its unit.
#[derive(Clone, Debug)]
pub struct SensorText {
    pub name: String,
    pub value: String,
    pub unit: Unit,
}

/// One recorded snapshot ready for text export, its timestamp already
/// rendered as decimal text.
#[derive(Clone, Debug)]
pub struct CsvRecord {
    pub timestamp: String,
    pub sensors: Vec<SensorText>,
    pub valves: Vec<ValveReading>,
}

/// The names of a list of rendered sensor readings, in order.
pub open spec fn text_names(s: Seq<SensorText>) -> Seq<Seq<char>> {
    s.map_values(|r: SensorText| r.name@)
}

/// The sensor columns of a CSV export: every sensor name, in order of first appearance.
pub open spec fn csv_sensor_columns(records: Seq<CsvRecord>) -> Seq<Seq<char>> {
    first_seen(flatten_names(records.map_values(|r: CsvRecord| text_names(r.sensors@))))
}

/// The valve columns of a CSV export: every valve name, in order of first appearance.
pub open spec fn csv_valve_columns(records: Seq<CsvRecord>) -> Seq<Seq<char>> {
    first_seen(flatten_names(records.map_values(|r: CsvRecord| valve_names(r.valves@))))
}

/// The cell of a sensor column: the value, a space and the unit; empty when
/// the snapshot holds no reading of that name.
pub open spec fn sensor_cell(rec: CsvRecord, col: Seq<char>) -> Seq<char> {
    match find_name(text_names(rec.sensors@), col) {
        Some(i) => rec.sensors@[i].value@ + seq![' '] + unit_symbol(rec.sensors@[i].unit),
        None => seq![],
    }
}

/// The cell of a valve column: the name of the measured state; empty when
/// the snapshot holds no state of that valve.
pub open spec fn valve_cell(rec: CsvRecord, col: Seq<char>) -> Seq<char> {
    match find_name(valve_names(rec.valves@), col) {
        Some(i) => valve_state_name(rec.valves@[i].state.actual),
        None => seq![],
    }
}

/// The header cells: `timestamp`, then the sensor columns, then the valve columns.
pub open spec fn csv_header(cs: Seq<Seq<char>>, cv: Seq<Seq<char>>) -> Seq<Seq<char>> {
    seq!["timestamp"@] + cs + cv
}

/// The cells of one snapshot's row, under the given columns.
pub open spec fn csv_row(rec: CsvRecord, cs: Seq<Seq<char>>, cv: Seq<Seq<char>>) -> Seq<Seq<char>> {
    seq![rec.timestamp@] + cs.map_values(|c: Seq<char>| sensor_cell(rec, c)) + cv.map_values(
        |c: Seq<char>| valve_cell(rec, c),
    )
}

/// The table of a CSV export: the header, then one row per snapshot.
pub open spec fn csv_table(records: Seq<CsvRecord>) -> Seq<Seq<Seq<char>>> {
    let cs = csv_sensor_columns(records);
    let cv = csv_valve_columns(records);
    seq![csv_header(cs, cv)] + records.map_values(|r: CsvRecord| csv_row(r, cs, cv))
}

/// Cells separated by commas.
pub open spec fn join_cells(cells: Seq<Seq<char>>) -> Seq<char>
    decreases cells.len(),
{
    if cells.len() == 0 {
        seq![]
    } else if cells.len() == 1 {
        cells[0]
    } else {
        join_cells(cells.drop_last()) + seq![','] + cells.last()
    }
}

/// One line of the export: the cells separated by commas, then a newline.
pub open spec fn csv_line(cells: Seq<Seq<char>>) -> Seq<char> {
    join_cells(cells) + seq!['\n']
}

/// The text of a table: each row as one line.
pub open spec fn table_text(t: Seq<Seq<Seq<char>>>) -> Seq<char>
    decreases t.len(),
{
    if t.len() == 0 {
        seq![]
    } else {
        table_text(t.drop_last()) + csv_line(t.last())
    }
}

/// Appends one line: the cells separated by commas, then a newline.
fn append_line(content: &mut String, cells: &Vec<String>)
    ensures
        final(content)@ == old(content)@ + csv_line(strings_view(cells@)),
{
    let ghost start = content@;
    let mut j: usize = 0;
    proof {
        reveal_strlit(",");
        reveal_strlit("\n");
        assert(strings_view(cells@).take(0) =~= seq![]);
        assert(start + seq![] =~= start);
    }
    while j < cells.len()
        invariant
            j <= cells@.len(),
            content@ == start + join_cells(strings_view(cells@).take(j as int)),
        decreases cells@.len() - j,
    {
        let ghost sv = strings_view(cells@);
        proof {
            reveal_strlit(",");
            assert(sv.take(j + 1).drop_last() =~= sv.take(j as int));
            assert(sv.take(j + 1).last() == cells@[j as int]@);
        }
        if j > 0 {
            content.append(",");
        }
        content.append(cells[j].as_str());
        proof {
            if j == 0 {
                assert(sv.take(1)[0] == cells@[0]@);
                assert(content@ =~= start + join_cells(sv.take(1)));
            } else {
                assert(content@ =~= start + join_cells(sv.take(j + 1)));
            }
        }
        j = j + 1;
    }
    proof {
        reveal_strlit("\n");
        assert(strings_view(cells@).take(j as int) =~= strings_view(cells@));
    }
    content.append("\n");
    proof {
        assert(content@ =~= start + csv_line(strings_view(cells@)));
    }
}

/// The sensor names of each record, in order.
fn sensor_name_lists(records: &Vec<CsvRecord>) -> (r: Vec<Vec<String>>)
    ensures
        lists_view(r@) == records@.map_values(|rec: CsvRecord| text_names(rec.sensors@)),
{
    let mut r: Vec<Vec<String>> = Vec::new();
    let mut i: usize = 0;
    while i < records.len()
        invariant
            i <= records@.len(),
            r@.len() == i,
            lists_view(r@) == records@.take(i as int).map_values(
                |rec: CsvRecord| text_names(rec.sensors@),
            ),
        decreases records@.len() - i,
    {
        let sensors = &records[i].sensors;
        let mut names: Vec<String> = Vec::new();
        let mut j: usize = 0;
        while j < sensors.len()
            invariant
                i < records@.len(),
                *sensors == records@[i as int].sensors,
                j <= sensors@.len(),
                names@.len() == j,
                strings_view(names@) == text_names(sensors@.take(j as int)),
            decreases sensors@.len() - j,
        {
            let ghost old_names = names@;
            let nm = sensors[j].name.clone();
            assert(nm@ == sensors@[j as int].name@);
            names.push(nm);
            proof {
                assert(names@ == old_names.push(nm));
                assert(strings_view(names@).len() == text_names(sensors@.take(j + 1)).len());
                assert forall|k: int| 0 <= k <= j implies strings_view(names@)[k] == text_names(sensors@.take(j + 1))[k] by {
                    if k < j {
                        assert(strings_view(old_names)[k] == text_names(sensors@.take(j as int))[k]);
                    }
                }
                assert(strings_view(names@) =~= text_names(sensors@.take(j + 1)));
            }
            j = j + 1;
        }
        proof {
            assert(sensors@.take(j as int) =~= sensors@);
        }
        let ghost old_r = r@;
        r.push(names);
        proof {
            assert forall|k: int| 0 <= k <= i implies lists_view(r@)[k] == records@.take(i + 1).map_values(
                |rec: CsvRecord| text_names(rec.sensors@),
            )[k] by {
                if k < i {
                    assert(lists_view(old_r)[k] == records@.take(i as int).map_values(
                        |rec: CsvRecord| text_names(rec.sensors@),
                    )[k]);
                }
            }
            assert(lists_view(r@) =~= records@.take(i + 1).map_values(
                |rec: CsvRecord| text_names(rec.sensors@),
            ));
        }
        i = i + 1;
    }
    proof {
        assert(records@.take(i as int) =~= records@);
    }
    r
}

/// The valve names of each record, in order.
fn valve_name_lists(records: &Vec<CsvRecord>) -> (r: Vec<Vec<String>>)
    ensures
        lists_view(r@) == records@.map_values(|rec: CsvRecord| valve_names(rec.valves@)),
{
    let mut r: Vec<Vec<String>> = Vec::new();
    let mut i: usize = 0;
    while i < records.len()
        invariant
            i <= records@.len(),
            r@.len() == i,
            lists_view(r@) == records@.take(i as int).map_values(
                |rec: CsvRecord| valve_names(rec.valves@),
            ),
        decreases records@.len() - i,
    {
        let valves = &records[i].valves;
        let mut names: Vec<String> = Vec::new();
        let mut j: usize = 0;
        while j < valves.len()
            invariant
                i < records@.len(),
                *valves == records@[i as int].valves,
                j <= valves@.len(),
                names@.len() == j,
                strings_view(names@) == valve_names(valves@.take(j as int)),
            decreases valves@.len() - j,
        {
            let ghost old_names = names@;
            let nm = valves[j].name.clone();
            names.push(nm);
            proof {
                assert forall|k: int| 0 <= k <= j implies strings_view(names@)[k] == valve_names(valves@.take(j + 1))[k] by {
                    if k < j {
                        assert(strings_view(old_names)[k] == valve_names(valves@.take(j as int))[k]);
                    }
                }
                assert(strings_view(names@) =~= valve_names(valves@.take(j + 1)));
            }
            j = j + 1;
        }
        proof {
            assert(valves@.take(j as int) =~= valves@);
        }
        let ghost old_r = r@;
        r.push(names);
        proof {
            assert forall|k: int| 0 <= k <= i implies lists_view(r@)[k] == records@.take(i + 1).map_values(
                |rec: CsvRecord| valve_names(rec.valves@),
            )[k] by {
                if k < i {
                    assert(lists_view(old_r)[k] == records@.take(i as int).map_values(
                        |rec: CsvRecord| valve_names(rec.valves@),
                    )[k]);
                }
            }
            assert(lists_view(r@) =~= records@.take(i + 1).map_values(
                |rec: CsvRecord| valve_names(rec.valves@),
            ));
        }
        i = i + 1;
    }
    proof {
        assert(records@.take(i as int) =~= records@);
    }
    r
}

/// The cell of a sensor column for one record.
fn sensor_cell_text(rec: &CsvRecord, col: &String) -> (r: String)
    ensures
        r@ == sensor_cell(*rec, col@),
{
    let mut i: usize = 0;
    while i < rec.sensors.len()
        invariant
            i <= rec.sensors@.len(),
            find_name(text_names(rec.sensors@).take(i as int), col@) is None,
        decreases rec.sensors@.len() - i,
    {
        proof {
            assert(text_names(rec.sensors@).take(i + 1).drop_last() =~= text_names(
                rec.sensors@,
            ).take(i as int));
        }
        if rec.sensors[i].name.eq(col) {
            proof {
                crate::names::lemma_find_name_prefix(text_names(rec.sensors@), i as int + 1, col@);
                reveal_strlit(" ");
            }
            let mut cell = rec.sensors[i].value.clone();
            cell.append(" ");
            cell.append(rec.sensors[i].unit.symbol());
            return cell;
        }
        i = i + 1;
    }
    proof {
        assert(text_names(rec.sensors@).take(i as int) =~= text_names(rec.sensors@));
    }
    String::new()
}

/// The cell of a valve column for one record.
fn valve_cell_text(rec: &CsvRecord, col: &String) -> (r: String)
    ensures
        r@ == valve_cell(*rec, col@),
{
    let mut i: usize = 0;
    while i < rec.valves.len()
        invariant
            i <= rec.valves@.len(),
            find_name(valve_names(rec.valves@).take(i as int), col@) is None,
        decreases rec.valves@.len() - i,
    {
        proof {
            assert(valve_names(rec.valves@).take(i + 1).drop_last() =~= valve_names(
                rec.valves@,
            ).take(i as int));
        }
        if rec.valves[i].name.eq(col) {
            proof {
                crate::names::lemma_find_name_prefix(valve_names(rec.valves@), i as int + 1, col@);
            }
            return String::from_str(rec.valves[i].state.actual.name());
        }
        i = i + 1;
    }
    proof {
        assert(valve_names(rec.valves@).take(i as int) =~= valve_names(rec.valves@));
    }
    String::new()
}

/// Renders recorded snapshots as CSV text: a header of `timestamp`, the sensor
/// columns and the valve columns, then one row per snapshot, with an empty cell
/// where a snapshot holds no reading of a column's name.
pub fn export_csv(records: &Vec<CsvRecord>) -> (r: String)
    ensures
        r@ == table_text(csv_table(records@)),
{
    let sensor_columns = names_union(&sensor_name_lists(records));
    let valve_columns = names_union(&valve_name_lists(records));
    let ghost cs = csv_sensor_columns(records@);
    let ghost cv = csv_valve_columns(records@);
    let ghost table = csv_table(records@);
    assert(strings_view(sensor_columns@) == cs);
    assert(strings_view(valve_columns@) == cv);

    let mut header: Vec<String> = Vec::new();
    header.push(String::from_str("timestamp"));
    let mut k: usize = 0;
    while k < sensor_columns.len()
        invariant
            k <= sensor_columns@.len(),
            header@.len() == k + 1,
            strings_view(header@) == seq!["timestamp"@] + strings_view(sensor_columns@).take(k as int),
        decreases sensor_columns@.len() - k,
    {
        let ghost old_h = header@;
        header.push(sensor_columns[k].clone());
        proof {
            crate::names::lemma_strings_view_push(old_h, sensor_columns@[k as int]);
            assert(strings_view(sensor_columns@).take(k + 1) =~= strings_view(sensor_columns@).take(k as int).push(sensor_columns@[k as int]@));
            assert(strings_view(header@) =~= seq!["timestamp"@] + strings_view(sensor_columns@).take(k + 1));
        }
        k = k + 1;
    }
    let mut k: usize = 0;
    proof {
        assert(strings_view(sensor_columns@).take(sensor_columns@.len() as int) =~= cs);
        assert(cv.take(0) =~= seq![]);
    }
    while k < valve_columns.len()
        invariant
            k <= valve_columns@.len(),
            header@.len() == 1 + cs.len() + k,
            strings_view(header@) == seq!["timestamp"@] + cs + strings_view(valve_columns@).take(k as int),
            strings_view(valve_columns@) == cv,
        decreases valve_columns@.len() - k,
    {
        let ghost old_h = header@;
        header.push(valve_columns[k].clone());
        proof {
            crate::names::lemma_strings_view_push(old_h, valve_columns@[k as int]);
            assert(strings_view(valve_columns@).take(k + 1) =~= strings_view(valve_columns@).take(k as int).push(valve_columns@[k as int]@));
            assert(strings_view(header@) =~= seq!["timestamp"@] + cs + strings_view(valve_columns@).take(k + 1));
        }
        k = k + 1;
    }
    proof {
        assert(cv.take(cv.len() as int) =~= cv);
        assert(strings_view(header@) =~= csv_header(cs, cv));
    }

    let mut content = String::new();
    append_line(&mut content, &header);
    proof {
        assert(table.take(1).drop_last() =~= seq![]);
        assert(table.take(1).last() == csv_header(cs, cv));
        assert(table_text(seq![]) == Seq::<char>::empty());
        assert(content@ =~= table_text(table.take(1)));
    }

    let mut i: usize = 0;
    while i < records.len()
        invariant
            i <= records@.len(),
            strings_view(sensor_columns@) == cs,
            strings_view(valve_columns@) == cv,
            cs == csv_sensor_columns(records@),
            cv == csv_valve_columns(records@),
            table == csv_table(records@),
            content@ == table_text(table.take(i + 1)),
        decreases records@.len() - i,
    {
        let rec = &records[i];
        let ghost sf = |c: Seq<char>| sensor_cell(*rec, c);
        let ghost vf = |c: Seq<char>| valve_cell(*rec, c);
        let mut row: Vec<String> = Vec::new();
        row.push(rec.timestamp.clone());
        let mut k: usize = 0;
        while k < sensor_columns.len()
            invariant
                k <= sensor_columns@.len(),
                strings_view(sensor_columns@) == cs,
                row@.len() == k + 1,
                forall|c: Seq<char>| #[trigger] sf(c) == sensor_cell(*rec, c),
                strings_view(row@) == seq![rec.timestamp@] + cs.take(k as int).map_values(sf),
            decreases sensor_columns@.len() - k,
        {
            let ghost old_row = row@;
            let cell = sensor_cell_text(rec, &sensor_columns[k]);
            row.push(cell);
            proof {
                crate::names::lemma_strings_view_push(old_row, cell);
                crate::names::lemma_map_take_push(cs, sf, k as int);
                assert(cs[k as int] == sensor_columns@[k as int]@);
                assert(sf(cs[k as int]) == sensor_cell(*rec, cs[k as int]));
                assert(cell@ == sf(cs[k as int]));
                assert(cs[k as int] == sensor_columns@[k as int]@);
                assert(strings_view(row@) =~= seq![rec.timestamp@] + cs.take(k + 1).map_values(sf));
            }
            k = k + 1;
        }
        let mut k: usize = 0;
        proof {
            assert(cs.take(cs.len() as int) =~= cs);
            assert(cv.take(0).map_values(vf) =~= seq![]);
        }
        while k < valve_columns.len()
            invariant
                k <= valve_columns@.len(),
                strings_view(valve_columns@) == cv,
                row@.len() == 1 + cs.len() + k,
                forall|c: Seq<char>| #[trigger] sf(c) == sensor_cell(*rec, c),
                forall|c: Seq<char>| #[trigger] vf(c) == valve_cell(*rec, c),
                strings_view(row@) == seq![rec.timestamp@] + cs.map_values(sf) + cv.take(
                    k as int,
                ).map_values(vf),
            decreases valve_columns@.len() - k,
        {
            let ghost old_row = row@;
            let cell = valve_cell_text(rec, &valve_columns[k]);
            row.push(cell);
            proof {
                crate::names::lemma_strings_view_push(old_row, cell);
                crate::names::lemma_map_take_push(cv, vf, k as int);
                assert(cv[k as int] == valve_columns@[k as int]@);
                assert(vf(cv[k as int]) == valve_cell(*rec, cv[k as int]));
                assert(cell@ == vf(cv[k as int]));
                assert(cv[k as int] == valve_columns@[k as int]@);
                assert(strings_view(row@) =~= seq![rec.timestamp@] + cs.map_values(sf)
                    + cv.take(k + 1).map_values(vf));
            }
            k = k + 1;
        }
        proof {
            assert(cv.take(cv.len() as int) =~= cv);
            assert(strings_view(row@) =~= csv_row(*rec, cs, cv));
            assert(table[i + 1] == csv_row(*rec, cs, cv));
        }
        append_line(&mut content, &row);
        proof {
            assert(table.take(i + 2).drop_last() =~= table.take(i + 1));
            assert(table.take(i + 2).last() == table[i + 1]);
        }
        i = i + 1;
    }
    proof {
        assert(table.take(i + 1) =~= table);
    }
    content
}


/// What a CSV export holds: a header and one row per snapshot; the columns
/// after `timestamp` are every sensor name and then every valve name that some
/// snapshot holds, each once; and the cell of row `i` under a column is that
/// snapshot's reading of the name, or empty where it holds none.
pub proof fn lemma_csv_round_trip(records: Seq<CsvRecord>)
    ensures
        ({
            let t = csv_table(records);
            let cs = csv_sensor_columns(records);
            let cv = csv_valve_columns(records);
            &&& t.len() == records.len() + 1
            &&& t[0] == seq!["timestamp"@] + cs + cv
            &&& cs.no_duplicates()
            &&& cv.no_duplicates()
            &&& forall|x: Seq<char>| #[trigger] cs.contains(x) <==> exists|i: int|
                0 <= i < records.len() && #[trigger] text_names(records[i].sensors@).contains(x)
            &&& forall|x: Seq<char>| #[trigger] cv.contains(x) <==> exists|i: int|
                0 <= i < records.len() && #[trigger] valve_names(records[i].valves@).contains(x)
            &&& forall|i: int| 0 <= i < records.len() ==> (#[trigger] t[i + 1]).len() == 1 + cs.len() + cv.len()
            &&& forall|i: int| 0 <= i < records.len() ==> (#[trigger] t[i + 1])[0] == records[i].timestamp@
            &&& forall|i: int, j: int| 0 <= i < records.len() && 0 <= j < cs.len() ==>
                (#[trigger] t[i + 1])[1 + j] == #[trigger] sensor_cell(records[i], cs[j])
            &&& forall|i: int, j: int| 0 <= i < records.len() && 0 <= j < cv.len() ==>
                (#[trigger] t[i + 1])[1 + cs.len() + j] == #[trigger] valve_cell(records[i], cv[j])
        }),
        forall|r: CsvRecord, c: Seq<char>| !text_names(r.sensors@).contains(c) ==> #[trigger] sensor_cell(r, c) == Seq::<char>::empty(),
        forall|r: CsvRecord, c: Seq<char>| #[trigger] sensor_cell(r, c) != Seq::<char>::empty() ==> exists|k: int|
            0 <= k < r.sensors@.len() && (#[trigger] r.sensors@[k]).name@ == c && sensor_cell(r, c)
                == r.sensors@[k].value@ + seq![' '] + unit_symbol(r.sensors@[k].unit),
        forall|r: CsvRecord, c: Seq<char>| !valve_names(r.valves@).contains(c) ==> #[trigger] valve_cell(r, c) == Seq::<char>::empty(),
{
    assert forall|r: CsvRecord, c: Seq<char>| !text_names(r.sensors@).contains(c) implies #[trigger] sensor_cell(r, c) == Seq::<char>::empty() by {
        lemma_find_name(text_names(r.sensors@), c);
    }
    assert forall|r: CsvRecord, c: Seq<char>| #[trigger] sensor_cell(r, c) != Seq::<char>::empty() implies exists|k: int|
        0 <= k < r.sensors@.len() && (#[trigger] r.sensors@[k]).name@ == c && sensor_cell(r, c)
            == r.sensors@[k].value@ + seq![' '] + unit_symbol(r.sensors@[k].unit) by {
        lemma_find_name(text_names(r.sensors@), c);
        let k = find_name(text_names(r.sensors@), c).unwrap();
        assert(r.sensors@[k].name@ == text_names(r.sensors@)[k]);
    }
    assert forall|r: CsvRecord, c: Seq<char>| !valve_names(r.valves@).contains(c) implies #[trigger] valve_cell(r, c) == Seq::<char>::empty() by {
        lemma_find_name(valve_names(r.valves@), c);
    }
    let sl = records.map_values(|r: CsvRecord| text_names(r.sensors@));
    let vl = records.map_values(|r: CsvRecord| valve_names(r.valves@));
    lemma_union_of_lists(sl);
    lemma_union_of_lists(vl);
    let cs = csv_sensor_columns(records);
    let cv = csv_valve_columns(records);
    assert forall|x: Seq<char>| #[trigger] cs.contains(x) <==> exists|i: int|
        0 <= i < records.len() && #[trigger] text_names(records[i].sensors@).contains(x) by {
        if cs.contains(x) {
            let i = choose|i: int| 0 <= i < sl.len() && #[trigger] sl[i].contains(x);
            assert(text_names(records[i].sensors@).contains(x));
        }
        if exists|i: int| 0 <= i < records.len() && #[trigger] text_names(records[i].sensors@).contains(x) {
            let i = choose|i: int| 0 <= i < records.len() && #[trigger] text_names(records[i].sensors@).contains(x);
            assert(sl[i].contains(x));
        }
    }
    assert forall|x: Seq<char>| #[trigger] cv.contains(x) <==> exists|i: int|
        0 <= i < records.len() && #[trigger] valve_names(records[i].valves@).contains(x) by {
        if cv.contains(x) {
            let i = choose|i: int| 0 <= i < vl.len() && #[trigger] vl[i].contains(x);
            assert(valve_names(records[i].valves@).contains(x));
        }
        if exists|i: int| 0 <= i < records.len() && #[trigger] valve_names(records[i].valves@).contains(x) {
            let i = choose|i: int| 0 <= i < records.len() && #[trigger] valve_names(records[i].valves@).contains(x);
            assert(vl[i].contains(x));
        }
    }
}

/// The value written in place of a reading that a snapshot does not hold:
/// the bit pattern of the `f64` -6942069420.0.
pub const MISSING_READING_BITS: u64 = 0xc1f9dc792ac00000;

/// The unit or state id written in place of one that a snapshot does not hold.
pub const MISSING_ID: i8 = -69;

/// One recorded snapshot for binary export: its timestamp as the bit pattern
/// of an `f64` of seconds, and the vehicle state.
#[derive(Clone, Debug)]
pub struct TimedState {
    pub timestamp_bits: u64,
    pub state: VehicleState,
}

/// The datasets of one sensor: a reading and a unit id per snapshot.
#[derive(Clone, Debug)]
pub struct SensorColumn {
    pub name: String,
    pub readings: Vec<u64>,
    pub units: Vec<i8>,
}

/// The dataset of one valve: a state id per snapshot.
#[derive(Clone, Debug)]
pub struct ValveColumn {
    pub name: String,
    pub states: Vec<i8>,
}

/// Everything that a binary export file holds: the timestamps, one column set
/// per sensor, one column per valve, and the valve states that occur, each of
/// which gets an attribute naming its id.
#[derive(Clone, Debug)]
pub struct Hdf5Layout {
    pub timestamps: Vec<u64>,
    pub sensors: Vec<SensorColumn>,
    pub valves: Vec<ValveColumn>,
    pub valve_state_ids: Vec<ValveState>,
}

/// The sensor columns of a binary export: every sensor name, in order of first appearance.
pub open spec fn hdf5_sensor_columns(snaps: Seq<TimedState>) -> Seq<Seq<char>> {
    first_seen(flatten_names(snaps.map_values(|t: TimedState| sensor_names(t.state.sensor_readings@))))
}

/// The valve columns of a binary export: every valve name, in order of first appearance.
pub open spec fn hdf5_valve_columns(snaps: Seq<TimedState>) -> Seq<Seq<char>> {
    first_seen(flatten_names(snaps.map_values(|t: TimedState| valve_names(t.state.valve_states@))))
}

/// The reading of a sensor in one state, or the missing-reading value.
pub open spec fn reading_bits(st: VehicleState, name: Seq<char>) -> u64 {
    match find_name(sensor_names(st.sensor_readings@), name) {
        Some(i) => st.sensor_readings@[i].value_bits,
        None => MISSING_READING_BITS,
    }
}

/// The unit id of a sensor's reading in one state, or the missing id.
pub open spec fn reading_unit(st: VehicleState, name: Seq<char>) -> i8 {
    match find_name(sensor_names(st.sensor_readings@), name) {
        Some(i) => unit_id(st.sensor_readings@[i].unit),
        None => MISSING_ID,
    }
}

/// The id of a valve's measured state in one state, or the missing id.
pub open spec fn valve_state_at(st: VehicleState, name: Seq<char>) -> i8 {
    match find_name(valve_names(st.valve_states@), name) {
        Some(i) => valve_state_id(st.valve_states@[i].state.actual),
        None => MISSING_ID,
    }
}

/// A sensor column holds, for each snapshot in order, the reading and unit of its name.
pub open spec fn sensor_column_of(col: SensorColumn, snaps: Seq<TimedState>, name: Seq<char>) -> bool {
    &&& col.name@ == name
    &&& col.readings@.len() == snaps.len()
    &&& col.units@.len() == snaps.len()
    &&& forall|i: int| 0 <= i < snaps.len() ==> #[trigger] col.readings@[i] == reading_bits(snaps[i].state, name)
    &&& forall|i: int| 0 <= i < snaps.len() ==> #[trigger] col.units@[i] == reading_unit(snaps[i].state, name)
}

/// A valve column holds, for each snapshot in order, the state id of its name.
pub open spec fn valve_column_of(col: ValveColumn, snaps: Seq<TimedState>, name: Seq<char>) -> bool {
    &&& col.name@ == name
    &&& col.states@.len() == snaps.len()
    &&& forall|i: int| 0 <= i < snaps.len() ==> #[trigger] col.states@[i] == valve_state_at(snaps[i].state, name)
}

/// Some cell of some valve column holds the id of the given state.
pub open spec fn state_recorded(valves: Seq<ValveColumn>, v: ValveState) -> bool {
    exists|k: int, i: int|
        0 <= k < valves.len() && 0 <= i < valves[k].states@.len() && #[trigger] valves[k].states@[i]
            == valve_state_id(v)
}

/// The sensor names of each snapshot, in order.
fn snapshot_sensor_names(snaps: &Vec<TimedState>) -> (r: Vec<Vec<String>>)
    ensures
        lists_view(r@) == snaps@.map_values(|t: TimedState| sensor_names(t.state.sensor_readings@)),
{
    let mut r: Vec<Vec<String>> = Vec::new();
    let mut i: usize = 0;
    while i < snaps.len()
        invariant
            i <= snaps@.len(),
            r@.len() == i,
            lists_view(r@) == snaps@.take(i as int).map_values(
                |t: TimedState| sensor_names(t.state.sensor_readings@),
            ),
        decreases snaps@.len() - i,
    {
        let readings = &snaps[i].state.sensor_readings;
        let mut names: Vec<String> = Vec::new();
        let mut j: usize = 0;
        while j < readings.len()
            invariant
                i < snaps@.len(),
                *readings == snaps@[i as int].state.sensor_readings,
                j <= readings@.len(),
                names@.len() == j,
                strings_view(names@) == sensor_names(readings@.take(j as int)),
            decreases readings@.len() - j,
        {
            let ghost old_names = names@;
            names.push(readings[j].name.clone());
            proof {
                assert forall|k: int| 0 <= k <= j implies strings_view(names@)[k] == sensor_names(readings@.take(j + 1))[k] by {
                    if k < j {
                        assert(strings_view(old_names)[k] == sensor_names(readings@.take(j as int))[k]);
                    }
                }
                assert(strings_view(names@) =~= sensor_names(readings@.take(j + 1)));
            }
            j = j + 1;
        }
        proof {
            assert(readings@.take(j as int) =~= readings@);
        }
        let ghost old_r = r@;
        r.push(names);
        proof {
            assert forall|k: int| 0 <= k <= i implies lists_view(r@)[k] == snaps@.take(i + 1).map_values(
                |t: TimedState| sensor_names(t.state.sensor_readings@),
            )[k] by {
                if k < i {
                    assert(lists_view(old_r)[k] == snaps@.take(i as int).map_values(
                        |t: TimedState| sensor_names(t.state.sensor_readings@),
                    )[k]);
                }
            }
            assert(lists_view(r@) =~= snaps@.take(i + 1).map_values(
                |t: TimedState| sensor_names(t.state.sensor_readings@),
            ));
        }
        i = i + 1;
    }
    proof {
        assert(snaps@.take(i as int) =~= snaps@);
    }
    r
}

/// The valve names of each snapshot, in order.
fn snapshot_valve_names(snaps: &Vec<TimedState>) -> (r: Vec<Vec<String>>)
    ensures
        lists_view(r@) == snaps@.map_values(|t: TimedState| valve_names(t.state.valve_states@)),
{
    let mut r: Vec<Vec<String>> = Vec::new();
    let mut i: usize = 0;
    while i < snaps.len()
        invariant
            i <= snaps@.len(),
            r@.len() == i,
            lists_view(r@) == snaps@.take(i as int).map_values(
                |t: TimedState| valve_names(t.state.valve_states@),
            ),
        decreases snaps@.len() - i,
    {
        let valves = &snaps[i].state.valve_states;
        let mut names: Vec<String> = Vec::new();
        let mut j: usize = 0;
        while j < valves.len()
            invariant
                i < snaps@.len(),
                *valves == snaps@[i as int].state.valve_states,
                j <= valves@.len(),
                names@.len() == j,
                strings_view(names@) == valve_names(valves@.take(j as int)),
            decreases valves@.len() - j,
        {
            let ghost old_names = names@;
            names.push(valves[j].name.clone());
            proof {
                assert forall|k: int| 0 <= k <= j implies strings_view(names@)[k] == valve_names(valves@.take(j + 1))[k] by {
                    if k < j {
                        assert(strings_view(old_names)[k] == valve_names(valves@.take(j as int))[k]);
                    }
                }
                assert(strings_view(names@) =~= valve_names(valves@.take(j + 1)));
            }
            j = j + 1;
        }
        proof {
            assert(valves@.take(j as int) =~= valves@);
        }
        let ghost old_r = r@;
        r.push(names);
        proof {
            assert forall|k: int| 0 <= k <= i implies lists_view(r@)[k] == snaps@.take(i + 1).map_values(
                |t: TimedState| valve_names(t.state.valve_states@),
            )[k] by {
                if k < i {
                    assert(lists_view(old_r)[k] == snaps@.take(i as int).map_values(
                        |t: TimedState| valve_names(t.state.valve_states@),
                    )[k]);
                }
            }
            assert(lists_view(r@) =~= snaps@.take(i + 1).map_values(
                |t: TimedState| valve_names(t.state.valve_states@),
            ));
        }
        i = i + 1;
    }
    proof {
        assert(snaps@.take(i as int) =~= snaps@);
    }
    r
}

/// The datasets of one sensor over all snapshots.
fn sensor_column(snaps: &Vec<TimedState>, name: &String) -> (r: SensorColumn)
    ensures
        sensor_column_of(r, snaps@, name@),
{
    let mut readings: Vec<u64> = Vec::new();
    let mut units: Vec<i8> = Vec::new();
    let mut i: usize = 0;
    while i < snaps.len()
        invariant
            i <= snaps@.len(),
            readings@.len() == i,
            units@.len() == i,
            forall|j: int| 0 <= j < i ==> #[trigger] readings@[j] == reading_bits(snaps@[j].state, name@),
            forall|j: int| 0 <= j < i ==> #[trigger] units@[j] == reading_unit(snaps@[j].state, name@),
        decreases snaps@.len() - i,
    {
        let state = &snaps[i].state;
        match state.sensor_index(name) {
            Some(k) => {
                readings.push(state.sensor_readings[k].value_bits);
                units.push(state.sensor_readings[k].unit.id());
            },
            None => {
                readings.push(MISSING_READING_BITS);
                units.push(MISSING_ID);
            },
        }
        i = i + 1;
    }
    SensorColumn { name: name.clone(), readings, units }
}

/// The dataset of one valve over all snapshots.
fn valve_column(snaps: &Vec<TimedState>, name: &String) -> (r: ValveColumn)
    ensures
        valve_column_of(r, snaps@, name@),
{
    let mut states: Vec<i8> = Vec::new();
    let mut i: usize = 0;
    while i < snaps.len()
        invariant
            i <= snaps@.len(),
            states@.len() == i,
            forall|j: int| 0 <= j < i ==> #[trigger] states@[j] == valve_state_at(snaps@[j].state, name@),
        decreases snaps@.len() - i,
    {
        let state = &snaps[i].state;
        match state.valve_index(name) {
            Some(k) => {
                states.push(state.valve_states[k].state.actual.id());
            },
            None => {
                states.push(MISSING_ID);
            },
        }
        i = i + 1;
    }
    ValveColumn { name: name.clone(), states }
}

/// Whether some cell of some valve column holds the given state's id.
fn state_appears(valves: &Vec<ValveColumn>, v: ValveState) -> (r: bool)
    ensures
        r == state_recorded(valves@, v),
{
    let id = v.id();
    let mut k: usize = 0;
    while k < valves.len()
        invariant
            k <= valves@.len(),
            id == valve_state_id(v),
            forall|a: int, b: int|
                0 <= a < k && 0 <= b < valves@[a].states@.len() ==> #[trigger] valves@[a].states@[b] != id,
        decreases valves@.len() - k,
    {
        let states = &valves[k].states;
        let mut i: usize = 0;
        while i < states.len()
            invariant
                k < valves@.len(),
                *states == valves@[k as int].states,
                i <= states@.len(),
                id == valve_state_id(v),
                forall|b: int| 0 <= b < i ==> #[trigger] states@[b] != id,
            decreases states@.len() - i,
        {
            if states[i] == id {
                assert(valves@[k as int].states@[i as int] == valve_state_id(v));
                return true;
            }
            i = i + 1;
        }
        k = k + 1;
    }
    false
}

/// Adds a state to the list when some valve cell holds its id.
fn note_state(ids: &mut Vec<ValveState>, valves: &Vec<ValveColumn>, v: ValveState)
    ensures
        final(ids)@ == if state_recorded(valves@, v) { old(ids)@.push(v) } else { old(ids)@ },
{
    if state_appears(valves, v) {
        ids.push(v);
    }
}

/// A list with one more element holds exactly what it held and that element.
proof fn lemma_push_contains(s: Seq<ValveState>, x: ValveState, w: ValveState)
    ensures
        s.push(x).contains(w) <==> (s.contains(w) || w == x),
{
    if s.contains(w) {
        let j = choose|j: int| 0 <= j < s.len() && s[j] == w;
        assert(s.push(x)[j] == w);
    }
    if w == x {
        assert(s.push(x)[s.len() as int] == w);
    }
    if s.push(x).contains(w) {
        let j = choose|j: int| 0 <= j < s.len() + 1 && s.push(x)[j] == w;
        if j < s.len() {
            assert(s[j] == w);
        }
    }
}

/// Lays out recorded snapshots for a binary export: the timestamps in order,
/// one reading and one unit column per sensor name, one state column per valve
/// name (each cell holding the missing marker where the snapshot has no such
/// name), and every valve state that occurs in some cell, once each.
pub fn hdf5_layout(snaps: &Vec<TimedState>) -> (r: Hdf5Layout)
    ensures
        r.timestamps@ == snaps@.map_values(|t: TimedState| t.timestamp_bits),
        r.sensors@.len() == hdf5_sensor_columns(snaps@).len(),
        forall|k: int| 0 <= k < r.sensors@.len() ==> #[trigger] sensor_column_of(
            r.sensors@[k],
            snaps@,
            hdf5_sensor_columns(snaps@)[k],
        ),
        r.valves@.len() == hdf5_valve_columns(snaps@).len(),
        forall|k: int| 0 <= k < r.valves@.len() ==> #[trigger] valve_column_of(
            r.valves@[k],
            snaps@,
            hdf5_valve_columns(snaps@)[k],
        ),
        r.valve_state_ids@.no_duplicates(),
        forall|v: ValveState| r.valve_state_ids@.contains(v) <==> state_recorded(r.valves@, v),
{
    let mut timestamps: Vec<u64> = Vec::new();
    let mut i: usize = 0;
    while i < snaps.len()
        invariant
            i <= snaps@.len(),
            timestamps@ == snaps@.take(i as int).map_values(|t: TimedState| t.timestamp_bits),
        decreases snaps@.len() - i,
    {
        timestamps.push(snaps[i].timestamp_bits);
        proof {
            assert(timestamps@ =~= snaps@.take(i + 1).map_values(|t: TimedState| t.timestamp_bits));
        }
        i = i + 1;
    }
    proof {
        assert(snaps@.take(i as int) =~= snaps@);
    }

    let sensor_names_all = names_union(&snapshot_sensor_names(snaps));
    let ghost cs = hdf5_sensor_columns(snaps@);
    let mut sensors: Vec<SensorColumn> = Vec::new();
    let mut k: usize = 0;
    while k < sensor_names_all.len()
        invariant
            k <= sensor_names_all@.len(),
            strings_view(sensor_names_all@) == cs,
            sensors@.len() == k,
            forall|a: int| 0 <= a < k ==> #[trigger] sensor_column_of(sensors@[a], snaps@, cs[a]),
        decreases sensor_names_all@.len() - k,
    {
        let col = sensor_column(snaps, &sensor_names_all[k]);
        assert(cs[k as int] == sensor_names_all@[k as int]@);
        sensors.push(col);
        k = k + 1;
    }

    let valve_names_all = names_union(&snapshot_valve_names(snaps));
    let ghost cv = hdf5_valve_columns(snaps@);
    let mut valves: Vec<ValveColumn> = Vec::new();
    let mut k: usize = 0;
    while k < valve_names_all.len()
        invariant
            k <= valve_names_all@.len(),
            strings_view(valve_names_all@) == cv,
            valves@.len() == k,
            forall|a: int| 0 <= a < k ==> #[trigger] valve_column_of(valves@[a], snaps@, cv[a]),
        decreases valve_names_all@.len() - k,
    {
        let col = valve_column(snaps, &valve_names_all[k]);
        assert(cv[k as int] == valve_names_all@[k as int]@);
        valves.push(col);
        k = k + 1;
    }

    let mut ids: Vec<ValveState> = Vec::new();
    let mut n: i8 = 0;
    while n < 7
        invariant
            0 <= n <= 7,
            ids@.no_duplicates(),
            forall|v: ValveState| #[trigger] ids@.contains(v) <==> (state_recorded(valves@, v) && valve_state_id(v) < n),
        decreases 7 - n,
    {
        let v = ValveState::from_id(n);
        let ghost before = ids@;
        note_state(&mut ids, &valves, v);
        proof {
            assert forall|w: ValveState| #[trigger] ids@.contains(w) <==> (state_recorded(valves@, w) && valve_state_id(w) < n + 1) by {
                lemma_push_contains(before, v, w);
            }
            if state_recorded(valves@, v) {
                assert forall|a: int, b: int| 0 <= a < b < ids@.len() implies ids@[a] != ids@[b] by {
                    if b == ids@.len() - 1 {
                        assert(before.contains(ids@[a]));
                    } else {
                        assert(ids@[a] == before[a] && ids@[b] == before[b]);
                    }
                }
            }
        }
        n = n + 1;
    }
    assert forall|v: ValveState| ids@.contains(v) <==> state_recorded(valves@, v) by {
        assert(valve_state_id(v) < 7);
    }
    Hdf5Layout { timestamps, sensors, valves, valve_state_ids: ids }
}

/// The columns of a binary export are every sensor name and every valve name
/// that some snapshot holds, each once; with the contract of `hdf5_layout`,
/// each of them gets one dataset entry per snapshot.
pub proof fn lemma_hdf5_columns(snaps: Seq<TimedState>)
    ensures
        hdf5_sensor_columns(snaps).no_duplicates(),
        hdf5_valve_columns(snaps).no_duplicates(),
        forall|x: Seq<char>| #[trigger] hdf5_sensor_columns(snaps).contains(x) <==> exists|i: int|
            0 <= i < snaps.len() && #[trigger] sensor_names(snaps[i].state.sensor_readings@).contains(x),
        forall|x: Seq<char>| #[trigger] hdf5_valve_columns(snaps).contains(x) <==> exists|i: int|
            0 <= i < snaps.len() && #[trigger] valve_names(snaps[i].state.valve_states@).contains(x),
{
    let sl = snaps.map_values(|t: TimedState| sensor_names(t.state.sensor_readings@));
    let vl = snaps.map_values(|t: TimedState| valve_names(t.state.valve_states@));
    lemma_union_of_lists(sl);
    lemma_union_of_lists(vl);
    assert forall|x: Seq<char>| #[trigger] hdf5_sensor_columns(snaps).contains(x) <==> exists|i: int|
        0 <= i < snaps.len() && #[trigger] sensor_names(snaps[i].state.sensor_readings@).contains(x) by {
        if hdf5_sensor_columns(snaps).contains(x) {
            let i = choose|i: int| 0 <= i < sl.len() && #[trigger] sl[i].contains(x);
            assert(sensor_names(snaps[i].state.sensor_readings@).contains(x));
        }
        if exists|i: int| 0 <= i < snaps.len() && #[trigger] sensor_names(snaps[i].state.sensor_readings@).contains(x) {
            let i = choose|i: int| 0 <= i < snaps.len() && #[trigger] sensor_names(snaps[i].state.sensor_readings@).contains(x);
            assert(sl[i].contains(x));
        }
    }
    assert forall|x: Seq<char>| #[trigger] hdf5_valve_columns(snaps).contains(x) <==> exists|i: int|
        0 <= i < snaps.len() && #[trigger] valve_names(snaps[i].state.valve_states@).contains(x) by {
        if hdf5_valve_columns(snaps).contains(x) {
            let i = choose|i: int| 0 <= i < vl.len() && #[trigger] vl[i].contains(x);
            assert(valve_names(snaps[i].state.valve_states@).contains(x));
        }
        if exists|i: int| 0 <= i < snaps.len() && #[trigger] valve_names(snaps[i].state.valve_states@).contains(x) {
            let i = choose|i: int| 0 <= i < snaps.len() && #[trigger] valve_names(snaps[i].state.valve_states@).contains(x);
            assert(vl[i].contains(x));
        }
    }
}

/// The format of an export.
#[derive(Clone, Copy, Debug, PartialEq, Eq, Structural)]
pub enum ExportFormat {
    Csv,
    Hdf5,
}

/// The export format that a request names: `csv` or `hdf5`; any other name
/// is refused with `BadRequest`.
pub fn export_format(format: &String) -> (r: Result<ExportFormat, ServerError>)
    ensures
        format@ == "csv"@ ==> r == Ok::<ExportFormat, ServerError>(ExportFormat::Csv),
        format@ == "hdf5"@ ==> r == Ok::<ExportFormat, ServerError>(ExportFormat::Hdf5),
        format@ != "csv"@ && format@ != "hdf5"@ ==> (r matches Err(e) && e.kind == ErrorKind::BadRequest),
{
    proof {
        reveal_strlit("csv");
        reveal_strlit("hdf5");
        assert("csv"@.len() != "hdf5"@.len());
    }
    if format.eq(&String::from_str("csv")) {
        Ok(ExportFormat::Csv)
    } else if format.eq(&String::from_str("hdf5")) {
        Ok(ExportFormat::Hdf5)
    } else {
        Err(bad_request("invalid export format"))
    }
}

} // verus!
