//! The writer of one table: a schema header once, then the rows in grouped
//! insert statements of bounded size.

use vstd::prelude::*;
use crate::argument::{Arguments, ArgumentsView};
use crate::models::{
    MainInfo, Model, Node, Record, RelationMember, Tag, UsedTag, WayNode, info_cells, member_cells,
    node_cells, record_cells, record_table, tag_cells, used_tag_cells, way_node_cells,
};
use crate::schema::{Table, header_text, insert_text, table_columns};
use crate::text::push_bytes;
use crate::value::{COMMA, SqlCell, SqlType, cells, push_tuple, tuple_text};

verus! {

/// A batch's value tuples, separated by commas.
pub open spec fn tuples_text(rows: Seq<Seq<SqlCell>>) -> Seq<u8>
    decreases rows.len(),
{
    if rows.len() == 0 {
        Seq::empty()
    } else if rows.len() == 1 {
        tuple_text(rows[0])
    } else {
        tuples_text(rows.drop_last()) + seq![COMMA] + tuple_text(rows.last())
    }
}

/// One grouped insert statement holding the rows of one batch.
pub open spec fn batch_text(t: Table, ignore_duplicates: bool, rows: Seq<Seq<SqlCell>>) -> Seq<
    u8,
> {
    insert_text(t, ignore_duplicates) + tuples_text(rows)
}

/// The statements of the batches, one after another.
pub open spec fn batches_text(
    t: Table,
    ignore_duplicates: bool,
    batches: Seq<Seq<Seq<SqlCell>>>,
) -> Seq<u8>
    decreases batches.len(),
{
    if batches.len() == 0 {
        Seq::empty()
    } else {
        batches_text(t, ignore_duplicates, batches.drop_last()) + batch_text(
            t,
            ignore_duplicates,
            batches.last(),
        )
    }
}

/// The rows of the batches, in order.
pub open spec fn all_rows(batches: Seq<Seq<Seq<SqlCell>>>) -> Seq<Seq<SqlCell>>
    decreases batches.len(),
{
    if batches.len() == 0 {
        Seq::empty()
    } else {
        all_rows(batches.drop_last()) + batches.last()
    }
}

/// The number of value tuples in the batches.
pub open spec fn tuple_count(batches: Seq<Seq<Seq<SqlCell>>>) -> nat
    decreases batches.len(),
{
    if batches.len() == 0 {
        0
    } else {
        tuple_count(batches.drop_last()) + batches.last().len()
    }
}

/// Every batch holds between one and `max` rows, and every batch but the
/// last holds `max`.
pub open spec fn batches_ok(batches: Seq<Seq<Seq<SqlCell>>>, max: nat) -> bool {
    &&& forall|i: int| 0 <= i < batches.len() ==> 1 <= #[trigger] batches[i].len() <= max
    &&& forall|i: int| 0 <= i < batches.len() - 1 ==> #[trigger] batches[i].len() == max
}

/// The batches after one more row: it opens a new batch where there is none
/// or the last holds `max` rows, and joins the last batch otherwise.
pub open spec fn add_row(batches: Seq<Seq<Seq<SqlCell>>>, max: nat, row: Seq<SqlCell>) -> Seq<
    Seq<Seq<SqlCell>>,
> {
    if batches.len() == 0 || batches.last().len() >= max {
        batches.push(seq![row])
    } else {
        batches.update(batches.len() - 1, batches.last().push(row))
    }
}

/// The batches that rows written one by one to a fresh writer fall into.
pub open spec fn batches_for(rows: Seq<Seq<SqlCell>>, max: nat) -> Seq<Seq<Seq<SqlCell>>>
    decreases rows.len(),
{
    if rows.len() == 0 {
        Seq::empty()
    } else {
        add_row(batches_for(rows.drop_last(), max), max, rows.last())
    }
}

/// What a table's writer has written so far.
pub struct SqlFileView {
    pub table: Table,
    pub maximum_rows_per_query: nat,
    pub ignore_duplicates: bool,
    pub header: Seq<u8>,
    pub batches: Seq<Seq<Seq<SqlCell>>>,
}

impl SqlFileView {
    /// The whole output so far: the header, then one statement per batch.
    pub open spec fn text(self) -> Seq<u8> {
        self.header + batches_text(self.table, self.ignore_duplicates, self.batches)
    }

    /// Every row written so far, in order.
    pub open spec fn rows(self) -> Seq<Seq<SqlCell>> {
        all_rows(self.batches)
    }

    /// Whether the next row opens a new statement: it is the first row, or
    /// the open statement holds the maximum.
    pub open spec fn opens_statement(self) -> bool {
        self.batches.len() == 0 || self.batches.last().len() >= self.maximum_rows_per_query
    }

    /// The batches after one more row.
    pub open spec fn batches_after(self, row: Seq<SqlCell>) -> Seq<Seq<Seq<SqlCell>>> {
        add_row(self.batches, self.maximum_rows_per_query, row)
    }

    /// What writing one more row appends to the output.
    pub open spec fn chunk_for(self, row: Seq<SqlCell>) -> Seq<u8> {
        if self.opens_statement() {
            insert_text(self.table, self.ignore_duplicates) + tuple_text(row)
        } else {
            seq![COMMA] + tuple_text(row)
        }
    }
}

/// The writer of one table. It holds no file: each call returns the bytes to
/// append to the table's output.
pub struct SqlFile {
    table: Table,
    maximum_rows_per_query: usize,
    ignore_duplicates: bool,
    statement: Vec<u8>,
    last_set_rows: usize,
    header: Ghost<Seq<u8>>,
    batches: Ghost<Seq<Seq<Seq<SqlCell>>>>,
}

impl View for SqlFile {
    type V = SqlFileView;

    closed spec fn view(&self) -> SqlFileView {
        SqlFileView {
            table: self.table,
            maximum_rows_per_query: self.maximum_rows_per_query as nat,
            ignore_duplicates: self.ignore_duplicates,
            header: self.header@,
            batches: self.batches@,
        }
    }
}

impl SqlFile {
    pub closed spec fn wf(&self) -> bool {
        &&& self.maximum_rows_per_query >= 1
        &&& self.statement@ == insert_text(self.table, self.ignore_duplicates)
        &&& batches_ok(self.batches@, self.maximum_rows_per_query as nat)
        &&& self.last_set_rows == if self.batches@.len() == 0 {
            0
        } else {
            self.batches@.last().len()
        }
        &&& forall|i: int, j: int|
            0 <= i < self.batches@.len() && 0 <= j < self.batches@[i].len() ==> (
            #[trigger] self.batches@[i][j]).len() == table_columns(self.table).len()
    }

    /// A writer for `table`, and the schema header that opens its output.
    pub fn new(
        table: Table,
        maximum_rows_per_query: usize,
        ignore_duplicates: bool,
        varchar_length: u32,
    ) -> (r: (SqlFile, Vec<u8>))
        requires
            maximum_rows_per_query >= 1,
        ensures
            r.0.wf(),
            r.1@ == header_text(table, varchar_length),
            r.0@ == (SqlFileView {
                table,
                maximum_rows_per_query: maximum_rows_per_query as nat,
                ignore_duplicates,
                header: r.1@,
                batches: Seq::empty(),
            }),
            r.0@.text() == r.1@,
    {
        let header = table.get_create_table_query(varchar_length);
        let file = SqlFile {
            table,
            maximum_rows_per_query,
            ignore_duplicates,
            statement: table.insert_statement(ignore_duplicates),
            last_set_rows: 0,
            header: Ghost(header@),
            batches: Ghost(Seq::empty()),
        };
        assert(file@.text() =~= header@);
        (file, header)
    }

    pub fn table(&self) -> (r: Table)
        ensures
            r == self@.table,
    {
        self.table
    }

    /// Adds one row: it opens a new insert statement where it is the first row
    /// or the open statement holds the maximum, and joins the open statement
    /// otherwise. Returns the bytes to append to the output.
    pub fn write(&mut self, row: &Vec<SqlType>) -> (chunk: Vec<u8>)
        requires
            old(self).wf(),
            row@.len() == table_columns(old(self)@.table).len(),
        ensures
            final(self).wf(),
            final(self)@ == (SqlFileView { batches: old(self)@.batches_after(cells(row@)), ..old(self)@ }),
            chunk@ == old(self)@.chunk_for(cells(row@)),
            final(self)@.text() == old(self)@.text() + chunk@,
            final(self)@.rows() == old(self)@.rows().push(cells(row@)),
    {
        let ghost v = self@;
        let ghost c = cells(row@);
        assert(c.len() == row@.len());
        let mut chunk: Vec<u8> = Vec::new();
        if self.last_set_rows == 0 || self.last_set_rows >= self.maximum_rows_per_query {
            push_bytes(&mut chunk, self.statement.as_slice());
            self.last_set_rows = 1;
            self.batches = Ghost(v.batches.push(seq![c]));
            proof {
                let nb = v.batches.push(seq![c]);
                assert(nb.drop_last() =~= v.batches);
                assert(tuples_text(seq![c]) == tuple_text(seq![c][0]));
                assert(seq![c][0] == c);
                assert(all_rows(nb) =~= all_rows(v.batches).push(c));
            }
        } else {
            chunk.push(COMMA);
            self.last_set_rows = self.last_set_rows + 1;
            let ghost last = v.batches.last();
            let ghost nb = v.batches.update(v.batches.len() - 1, last.push(c));
            self.batches = Ghost(nb);
            proof {
                assert(nb.drop_last() =~= v.batches.drop_last());
                assert(nb.last() == last.push(c));
                assert(last.push(c).drop_last() =~= last);
                assert(all_rows(nb) =~= all_rows(v.batches).push(c));
                assert(batches_text(v.table, v.ignore_duplicates, nb) =~= batches_text(
                    v.table,
                    v.ignore_duplicates,
                    v.batches,
                ) + seq![COMMA] + tuple_text(c));
                assert forall|i: int| 0 <= i < nb.len() - 1 implies #[trigger] nb[i].len()
                    == self.maximum_rows_per_query by {
                    assert(nb[i] == v.batches[i]);
                }
            }
        }
        push_tuple(&mut chunk, row);
        proof {
            let nb = self.batches@;
            assert forall|i: int, j: int|
                0 <= i < nb.len() && 0 <= j < nb[i].len() implies (
                #[trigger] nb[i][j]).len() == table_columns(self.table).len() by {
                if i < v.batches.len() && j < v.batches[i].len() {
                    assert(nb[i][j] == v.batches[i][j]);
                }
            }
        }
        assert(self@.text() =~= v.text() + chunk@);
        chunk
    }

    /// Adds the row of one record of this table.
    pub fn write_record(&mut self, record: &Record) -> (chunk: Vec<u8>)
        requires
            old(self).wf(),
            record_table(record@) == old(self)@.table,
        ensures
            final(self).wf(),
            final(self)@ == (SqlFileView {
                batches: old(self)@.batches_after(record_cells(record@)),
                ..old(self)@
            }),
            chunk@ == old(self)@.chunk_for(record_cells(record@)),
            final(self)@.text() == old(self)@.text() + chunk@,
    {
        let row = record.get_data_set();
        self.write(&row)
    }
}

/// A fresh writer for table `t`, configured by the options of a run.
pub open spec fn fresh_file(t: Table, a: ArgumentsView, header: Seq<u8>) -> SqlFileView {
    SqlFileView {
        table: t,
        maximum_rows_per_query: a.maximum_rows as nat,
        ignore_duplicates: !a.no_ignore,
        header,
        batches: Seq::empty(),
    }
}

/// The writer after one more row, and the bytes that the row appends.
pub open spec fn wrote(old: SqlFileView, new: SqlFileView, chunk: Seq<u8>, row: Seq<SqlCell>) -> bool {
    &&& new == SqlFileView { batches: old.batches_after(row), ..old }
    &&& chunk == old.chunk_for(row)
    &&& new.text() == old.text() + chunk
}

impl SqlFile {
    fn open_for(t: Table, arguments: &Arguments) -> (r: (SqlFile, Vec<u8>))
        requires
            arguments.maximum_rows >= 1,
        ensures
            r.0.wf(),
            r.1@ == header_text(t, arguments.varchar_length),
            r.0@ == fresh_file(t, arguments@, r.1@),
    {
        SqlFile::new(t, arguments.maximum_rows, !arguments.no_ignore, arguments.varchar_length)
    }

    pub fn new_node_file(arguments: &Arguments) -> (r: (SqlFile, Vec<u8>))
        requires
            arguments.maximum_rows >= 1,
        ensures
            r.0.wf(),
            r.1@ == header_text(Table::Nodes, arguments.varchar_length),
            r.0@ == fresh_file(Table::Nodes, arguments@, r.1@),
    {
        SqlFile::open_for(Table::Nodes, arguments)
    }

    pub fn insert_to_node_file(&mut self, node: &Node) -> (chunk: Vec<u8>)
        requires
            old(self).wf(),
            old(self)@.table == Table::Nodes,
        ensures
            final(self).wf(),
            wrote(old(self)@, final(self)@, chunk@, node_cells(node@)),
    {
        let row = node.get_data_set();
        assert(cells(row@).len() == row@.len());
        self.write(&row)
    }

    /// A writer for the table of ways or of relations.
    pub fn new_main_file(arguments: &Arguments, table: Table) -> (r: (SqlFile, Vec<u8>))
        requires
            arguments.maximum_rows >= 1,
            table == Table::Ways || table == Table::Relations,
        ensures
            r.0.wf(),
            r.1@ == header_text(table, arguments.varchar_length),
            r.0@ == fresh_file(table, arguments@, r.1@),
    {
        SqlFile::open_for(table, arguments)
    }

    pub fn insert_to_main_file(&mut self, main_info: &MainInfo) -> (chunk: Vec<u8>)
        requires
            old(self).wf(),
            old(self)@.table == Table::Ways || old(self)@.table == Table::Relations,
        ensures
            final(self).wf(),
            wrote(old(self)@, final(self)@, chunk@, info_cells(main_info@)),
    {
        let row = main_info.get_data_set();
        assert(cells(row@).len() == row@.len());
        self.write(&row)
    }

    pub fn new_tag_file(arguments: &Arguments) -> (r: (SqlFile, Vec<u8>))
        requires
            arguments.maximum_rows >= 1,
        ensures
            r.0.wf(),
            r.1@ == header_text(Table::Tags, arguments.varchar_length),
            r.0@ == fresh_file(Table::Tags, arguments@, r.1@),
    {
        SqlFile::open_for(Table::Tags, arguments)
    }

    pub fn insert_to_tag_file(&mut self, tag: &Tag) -> (chunk: Vec<u8>)
        requires
            old(self).wf(),
            old(self)@.table == Table::Tags,
        ensures
            final(self).wf(),
            wrote(old(self)@, final(self)@, chunk@, tag_cells(tag.id, tag.name@)),
    {
        let row = tag.get_data_set();
        assert(cells(row@).len() == row@.len());
        self.write(&row)
    }

    pub fn new_ref_tags_file(arguments: &Arguments) -> (r: (SqlFile, Vec<u8>))
        requires
            arguments.maximum_rows >= 1,
        ensures
            r.0.wf(),
            r.1@ == header_text(Table::RefTags, arguments.varchar_length),
            r.0@ == fresh_file(Table::RefTags, arguments@, r.1@),
    {
        SqlFile::open_for(Table::RefTags, arguments)
    }

    pub fn insert_to_ref_tags_file(&mut self, used_tag: &UsedTag) -> (chunk: Vec<u8>)
        requires
            old(self).wf(),
            old(self)@.table == Table::RefTags,
        ensures
            final(self).wf(),
            wrote(
                old(self)@,
                final(self)@,
                chunk@,
                used_tag_cells(used_tag.tag_id, used_tag.owner, used_tag.value@),
            ),
    {
        let row = used_tag.get_data_set();
        assert(cells(row@).len() == row@.len());
        self.write(&row)
    }

    pub fn new_way_nodes_file(arguments: &Arguments) -> (r: (SqlFile, Vec<u8>))
        requires
            arguments.maximum_rows >= 1,
        ensures
            r.0.wf(),
            r.1@ == header_text(Table::WayNodes, arguments.varchar_length),
            r.0@ == fresh_file(Table::WayNodes, arguments@, r.1@),
    {
        SqlFile::open_for(Table::WayNodes, arguments)
    }

    pub fn insert_to_way_nodes_file(&mut self, way_node: &WayNode) -> (chunk: Vec<u8>)
        requires
            old(self).wf(),
            old(self)@.table == Table::WayNodes,
        ensures
            final(self).wf(),
            wrote(old(self)@, final(self)@, chunk@, way_node_cells(*way_node)),
    {
        let row = way_node.get_data_set();
        assert(cells(row@).len() == row@.len());
        self.write(&row)
    }

    pub fn new_relation_members_file(arguments: &Arguments) -> (r: (SqlFile, Vec<u8>))
        requires
            arguments.maximum_rows >= 1,
        ensures
            r.0.wf(),
            r.1@ == header_text(Table::RelationMembers, arguments.varchar_length),
            r.0@ == fresh_file(Table::RelationMembers, arguments@, r.1@),
    {
        SqlFile::open_for(Table::RelationMembers, arguments)
    }

    pub fn insert_to_relation_members_file(&mut self, relation_member: &RelationMember) -> (chunk:
        Vec<u8>)
        requires
            old(self).wf(),
            old(self)@.table == Table::RelationMembers,
        ensures
            final(self).wf(),
            wrote(
                old(self)@,
                final(self)@,
                chunk@,
                member_cells(relation_member.relation_id, relation_member.member, relation_member.role@),
            ),
    {
        let row = relation_member.get_data_set();
        assert(cells(row@).len() == row@.len());
        self.write(&row)
    }
}

/// The rows of a table's output are exactly the value tuples of its insert
/// statements, counted over all of them, and no statement holds more rows
/// than the maximum.
pub proof fn lemma_rows_are_batched(file: SqlFile)
    requires
        file.wf(),
    ensures
        file@.rows().len() == tuple_count(file@.batches),
        file@.text() == file@.header + batches_text(file@.table, file@.ignore_duplicates, file@.batches),
        forall|i: int|
            0 <= i < file@.batches.len() ==> 1 <= #[trigger] file@.batches[i].len()
                <= file@.maximum_rows_per_query,
        forall|i: int|
            0 <= i < file@.batches.len() - 1 ==> #[trigger] file@.batches[i].len()
                == file@.maximum_rows_per_query,
{
    lemma_all_rows_len(file@.batches);
}

proof fn lemma_all_rows_len(batches: Seq<Seq<Seq<SqlCell>>>)
    ensures
        all_rows(batches).len() == tuple_count(batches),
    decreases batches.len(),
{
    if batches.len() > 0 {
        lemma_all_rows_len(batches.drop_last());
    }
}

/// Rows written one by one fall into batches that hold exactly those rows in
/// order, one value tuple per row, none over the maximum, and all full but
/// the last.
pub proof fn lemma_batches_for(rows: Seq<Seq<SqlCell>>, max: nat)
    requires
        max >= 1,
    ensures
        all_rows(batches_for(rows, max)) == rows,
        tuple_count(batches_for(rows, max)) == rows.len(),
        batches_ok(batches_for(rows, max), max),
    decreases rows.len(),
{
    if rows.len() > 0 {
        let d = rows.drop_last();
        lemma_batches_for(d, max);
        let bs = batches_for(d, max);
        let row = rows.last();
        let nb = add_row(bs, max, row);
        if bs.len() == 0 || bs.last().len() >= max {
            assert(nb.drop_last() =~= bs);
            assert(nb.last() == seq![row]);
            assert(rows =~= d + seq![row]);
            assert(all_rows(nb) =~= rows);
        } else {
            let last = bs.last();
            assert(nb.drop_last() =~= bs.drop_last());
            assert(nb.last() == last.push(row));
            assert(all_rows(bs) == all_rows(bs.drop_last()) + last);
            assert(rows =~= d + seq![row]);
            assert(all_rows(nb) =~= rows);
            assert forall|i: int| 0 <= i < nb.len() - 1 implies #[trigger] nb[i].len() == max by {
                assert(nb[i] == bs[i]);
            }
        }
        lemma_all_rows_len(nb);
    }
}

} // verus!
