//! A whole run: every element of a document through the producer, and every
//! record into the writer of its table.

use vstd::prelude::*;
use crate::dispatcher::{
    AttrView, Dispatcher, DispatcherView, Element, attr_views, lookup, record_views, step,
};
use crate::interner::{first_seen, lemma_intern_step_first_seen};
use crate::error::ConvertError;
use crate::models::{EntityRef, Record, RecordView, record_cells, record_table};
use crate::schema::{Table, header_text};
use crate::sql_file::{SqlFile, batches_for, batches_text};
use crate::text::push_bytes;
use crate::value::SqlCell;

verus! {

/// What a run is configured with.
#[derive(Clone, Copy, PartialEq, Eq, Structural, Debug)]
pub struct Settings {
    /// The most rows that one insert statement holds.
    pub maximum_rows_per_query: usize,
    /// The length of the text columns in the schema headers.
    pub varchar_length: u32,
    /// Whether the insert statements skip rows whose key is taken.
    pub ignore_duplicates: bool,
}

/// An element as a name and its attributes.
pub type ElementView = (Seq<char>, Seq<AttrView>);

pub open spec fn element_views(els: Seq<Element>) -> Seq<ElementView> {
    els.map_values(|e: Element| (e.name@, attr_views(e.attributes@)))
}

/// The producer's state before the first element.
pub open spec fn initial_state() -> DispatcherView {
    DispatcherView { tags: Seq::empty(), current: EntityRef::Node(0) }
}

/// The elements handled in turn: the state after the last one and every
/// record in order, or the first condition that stops the run.
pub open spec fn run_records(els: Seq<ElementView>) -> Result<
    (DispatcherView, Seq<RecordView>),
    ConvertError,
>
    decreases els.len(),
{
    if els.len() == 0 {
        Ok((initial_state(), Seq::empty()))
    } else {
        match run_records(els.drop_last()) {
            Err(e) => Err(e),
            Ok((st, recs)) => match step(st, els.last().0, els.last().1) {
                Err(e) => Err(e),
                Ok((next, more)) => Ok((next, recs + more)),
            },
        }
    }
}

/// The rows of the records that go to table `t`, in order.
pub open spec fn rows_for(t: Table, recs: Seq<RecordView>) -> Seq<Seq<SqlCell>>
    decreases recs.len(),
{
    if recs.len() == 0 {
        Seq::empty()
    } else {
        rows_for(t, recs.drop_last()) + if record_table(recs.last()) == t {
            seq![record_cells(recs.last())]
        } else {
            Seq::empty()
        }
    }
}

/// The output of table `t`: its header, then its rows in grouped insert
/// statements.
pub open spec fn table_output(t: Table, s: Settings, recs: Seq<RecordView>) -> Seq<u8> {
    header_text(t, s.varchar_length) + batches_text(
        t,
        s.ignore_duplicates,
        batches_for(rows_for(t, recs), s.maximum_rows_per_query as nat),
    )
}

/// The tables in the order in which a run lists its outputs.
pub open spec fn table_order() -> Seq<Table> {
    seq![
        Table::Nodes,
        Table::Ways,
        Table::Relations,
        Table::Tags,
        Table::RefTags,
        Table::WayNodes,
        Table::RelationMembers,
    ]
}

/// The outputs of a run, one per table in `table_order`, or the condition
/// that stopped it, in which case there is no output at all.
pub open spec fn run_output(els: Seq<ElementView>, s: Settings) -> Result<
    Seq<Seq<u8>>,
    ConvertError,
> {
    match run_records(els) {
        Err(e) => Err(e),
        Ok((_, recs)) => Ok(table_order().map_values(|t: Table| table_output(t, s, recs))),
    }
}

proof fn lemma_run_error_stays(els: Seq<ElementView>, i: int, e: ConvertError)
    requires
        0 <= i <= els.len(),
        run_records(els.take(i)) == Err::<(DispatcherView, Seq<RecordView>), ConvertError>(e),
    ensures
        run_records(els) == Err::<(DispatcherView, Seq<RecordView>), ConvertError>(e),
    decreases els.len() - i,
{
    if i < els.len() {
        assert(els.take(i + 1).drop_last() =~= els.take(i));
        lemma_run_error_stays(els, i + 1, e);
    } else {
        assert(els.take(i) =~= els);
    }
}

/// Every record of a run, in order.
pub fn collect_records(elements: &Vec<Element>) -> (r: Result<Vec<Record>, ConvertError>)
    ensures
        match run_records(element_views(elements@)) {
            Ok((_, recs)) => r is Ok && record_views(r->Ok_0@) == recs,
            Err(e) => r == Err::<Vec<Record>, ConvertError>(e),
        },
{
    let ghost all = element_views(elements@);
    let mut d = Dispatcher::new();
    let mut out: Vec<Record> = Vec::new();
    let mut i: usize = 0;
    assert(all.take(0) =~= Seq::<ElementView>::empty());
    assert(record_views(out@) =~= Seq::<RecordView>::empty());
    while i < elements.len()
        invariant
            i <= elements@.len(),
            all == element_views(elements@),
            d.wf(),
            run_records(all.take(i as int)) == Ok::<
                (DispatcherView, Seq<RecordView>),
                ConvertError,
            >((d@, record_views(out@))),
        decreases elements@.len() - i,
    {
        assert(all.take(i + 1).drop_last() =~= all.take(i as int));
        assert(all.take(i + 1).last() == all[i as int]);
        let mut more = match d.handle(&elements[i]) {
            Ok(more) => more,
            Err(e) => {
                proof {
                    lemma_run_error_stays(all, i + 1, e);
                }
                return Err(e);
            },
        };
        let ghost before = out@;
        let ghost added = more@;
        out.append(&mut more);
        assert(record_views(out@) =~= record_views(before) + record_views(added));
        i = i + 1;
    }
    assert(all.take(i as int) =~= all);
    Ok(out)
}

/// The output of one table, from the records of a whole run.
pub fn render_table(t: Table, records: &Vec<Record>, settings: Settings) -> (r: Vec<u8>)
    requires
        settings.maximum_rows_per_query >= 1,
    ensures
        r@ == table_output(t, settings, record_views(records@)),
{
    let ghost recs = record_views(records@);
    let ghost max = settings.maximum_rows_per_query as nat;
    let (mut file, mut out) = SqlFile::new(
        t,
        settings.maximum_rows_per_query,
        settings.ignore_duplicates,
        settings.varchar_length,
    );
    let mut i: usize = 0;
    assert(recs.take(0) =~= Seq::<RecordView>::empty());
    while i < records.len()
        invariant
            i <= records@.len(),
            recs == record_views(records@),
            file.wf(),
            file@.table == t,
            file@.maximum_rows_per_query == max,
            file@.ignore_duplicates == settings.ignore_duplicates,
            file@.header == header_text(t, settings.varchar_length),
            file@.batches == batches_for(rows_for(t, recs.take(i as int)), max),
            out@ == file@.text(),
        decreases records@.len() - i,
    {
        let rec = &records[i];
        let ghost pre = recs.take(i as int);
        assert(recs.take(i + 1).drop_last() =~= pre);
        assert(recs.take(i + 1).last() == rec@);
        if rec.table() == t {
            let chunk = file.write_record(rec);
            push_bytes(&mut out, chunk.as_slice());
            proof {
                let rows = rows_for(t, recs.take(i + 1));
                assert(rows =~= rows_for(t, pre).push(record_cells(rec@)));
                assert(rows.drop_last() =~= rows_for(t, pre));
            }
        } else {
            assert(rows_for(t, recs.take(i + 1)) =~= rows_for(t, pre));
        }
        i = i + 1;
    }
    assert(recs.take(i as int) =~= recs);
    out
}

/// Runs a whole document: the outputs of the seven tables in `table_order`,
/// or the condition that stopped the run, in which case nothing is output.
pub fn convert(elements: &Vec<Element>, settings: Settings) -> (r: Result<Vec<Vec<u8>>, ConvertError>)
    requires
        settings.maximum_rows_per_query >= 1,
    ensures
        match run_output(element_views(elements@), settings) {
            Ok(outs) => r is Ok && r->Ok_0@.len() == outs.len() && forall|i: int|
                0 <= i < outs.len() ==> (#[trigger] r->Ok_0@[i])@ == outs[i],
            Err(e) => r == Err::<Vec<Vec<u8>>, ConvertError>(e),
        },
{
    let records = collect_records(elements)?;
    let ghost recs = record_views(records@);
    let tables = Table::all();
    let mut outs: Vec<Vec<u8>> = Vec::new();
    let mut i: usize = 0;
    while i < tables.len()
        invariant
            i <= tables@.len(),
            tables@ == table_order(),
            recs == record_views(records@),
            settings.maximum_rows_per_query >= 1,
            outs@.len() == i,
            forall|j: int| 0 <= j < i ==> (#[trigger] outs@[j])@ == table_output(table_order()[j], settings, recs),
        decreases tables@.len() - i,
    {
        let out = render_table(tables[i], &records, settings);
        outs.push(out);
        i = i + 1;
    }
    Ok(outs)
}

/// A run's outputs depend on nothing but the document and the settings: two
/// runs over the same elements with the same settings give byte-identical
/// outputs, or stop on the same condition.
pub proof fn lemma_runs_agree(a: Seq<Element>, b: Seq<Element>, s: Settings)
    requires
        element_views(a) == element_views(b),
    ensures
        run_output(element_views(a), s) == run_output(element_views(b), s),
{
}

/// A run that stops writes nothing: where any element stops it, the run has
/// no output for any table.
pub proof fn lemma_stop_is_total(els: Seq<ElementView>, i: int, s: Settings)
    requires
        0 <= i < els.len(),
        run_records(els.take(i)) is Ok,
        step(run_records(els.take(i))->Ok_0.0, els[i].0, els[i].1) is Err,
    ensures
        run_output(els, s) is Err,
{
    assert(els.take(i + 1).drop_last() =~= els.take(i));
    assert(els.take(i + 1).last() == els[i]);
    let e = step(run_records(els.take(i))->Ok_0.0, els[i].0, els[i].1)->Err_0;
    lemma_run_error_stays(els, i + 1, e);
}

/// The keys of the tag elements that carry both a key and a value, in order.
pub open spec fn tag_keys(els: Seq<ElementView>) -> Seq<Seq<char>>
    decreases els.len(),
{
    if els.len() == 0 {
        Seq::empty()
    } else {
        let e = els.last();
        tag_keys(els.drop_last()) + if e.0 == "tag"@ && lookup(e.1, "k"@) is Some && lookup(
            e.1,
            "v"@,
        ) is Some {
            seq![lookup(e.1, "k"@)->0]
        } else {
            Seq::empty()
        }
    }
}

/// Over a whole run, the tag table is the distinct keys of the complete tag
/// elements in the order in which they first occur, so ids are dense from 0
/// in order of first sight, and each tag value carries the id of its key.
pub proof fn lemma_run_tag_ids(els: Seq<ElementView>)
    ensures
        run_records(els) matches Ok((st, _)) ==> st.tags == first_seen(tag_keys(els))
            && st.tags.len() <= i32::MAX as int + 1,
    decreases els.len(),
{
    reveal_strlit("node");
    reveal_strlit("way");
    reveal_strlit("relation");
    reveal_strlit("tag");
    assert("tag"@.len() == 3);
    assert("node"@.len() == 4);
    assert("relation"@.len() == 8);
    assert("tag"@ != "way"@) by {
        assert("tag"@[0] != "way"@[0]);
    }
    if els.len() > 0 {
        let d = els.drop_last();
        lemma_run_tag_ids(d);
        let e = els.last();
        if run_records(d) is Ok && e.0 == "tag"@ {
            let st = run_records(d)->Ok_0.0;
            if lookup(e.1, "k"@) is Some && lookup(e.1, "v"@) is Some {
                let k = lookup(e.1, "k"@)->0;
                lemma_intern_step_first_seen(tag_keys(d), k);
                assert(tag_keys(els) =~= tag_keys(d).push(k));
            } else {
                assert(tag_keys(els) =~= tag_keys(d));
            }
        } else if run_records(d) is Ok {
            assert(tag_keys(els) =~= tag_keys(d));
        }
    }
}

} // verus!
