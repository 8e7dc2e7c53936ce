//! The destination tables: their names, their columns in the order values
//! are written, and the statement that creates each.

use vstd::prelude::*;
use crate::number::{int_text, push_int};
use crate::text::{push_str, utf8};
use crate::value::COMMA;

verus! {

/// One destination table.
#[derive(Clone, Copy, PartialEq, Eq, Structural, Debug)]
pub enum Table {
    Nodes,
    Ways,
    Relations,
    Tags,
    RefTags,
    WayNodes,
    RelationMembers,
}

pub open spec fn table_name(t: Table) -> Seq<char> {
    match t {
        Table::Nodes => "nodes"@,
        Table::Ways => "ways"@,
        Table::Relations => "relations"@,
        Table::Tags => "tags"@,
        Table::RefTags => "ref_tags"@,
        Table::WayNodes => "way_nodes"@,
        Table::RelationMembers => "relation_members"@,
    }
}

/// The columns of an entity table other than the node coordinates.
pub open spec fn entity_columns() -> Seq<Seq<char>> {
    seq!["id"@, "version"@, "changeset"@, "user"@, "uid"@, "visible"@, "timestamp"@]
}

pub open spec fn table_columns(t: Table) -> Seq<Seq<char>> {
    match t {
        Table::Nodes => seq![
            "id"@,
            "lat"@,
            "lng"@,
            "version"@,
            "changeset"@,
            "user"@,
            "uid"@,
            "visible"@,
            "timestamp"@,
        ],
        Table::Ways => entity_columns(),
        Table::Relations => entity_columns(),
        Table::Tags => seq!["id"@, "name"@],
        Table::RefTags => seq!["tag_id"@, "node_id"@, "relation_id"@, "way_id"@, "value"@],
        Table::WayNodes => seq!["way_id"@, "node_id"@],
        Table::RelationMembers => seq![
            "relation_id"@,
            "node_id"@,
            "way_id"@,
            "sub_relation_id"@,
            "role"@,
        ],
    }
}

/// The pieces of the creating statement; the text-column length stands
/// between each two of them.
pub open spec fn ddl_parts(t: Table) -> Seq<Seq<char>> {
    match t {
        Table::Nodes => seq![
            "CREATE TABLE nodes (id BIGINT,lat DECIMAL(10,8),lng DECIMAL(11,8),version INTEGER,changeset INTEGER,user VARCHAR("@,
            "),uid INTEGER,visible TINYINT(2),timestamp VARCHAR("@,
            "),CONSTRAINT nodes_pk PRIMARY KEY(id))"@,
        ],
        Table::Ways => seq![
            "CREATE TABLE ways (id BIGINT,version INTEGER,changeset INTEGER,user VARCHAR("@,
            "),uid INTEGER,visible TINYINT(2),timestamp VARCHAR("@,
            "),CONSTRAINT ways_pk PRIMARY KEY(id))"@,
        ],
        Table::Relations => seq![
            "CREATE TABLE relations (id BIGINT,version INTEGER,changeset INTEGER,user VARCHAR("@,
            "),uid INTEGER,visible TINYINT(2),timestamp VARCHAR("@,
            "),CONSTRAINT relations_pk PRIMARY KEY(id))"@,
        ],
        Table::Tags => seq![
            "CREATE TABLE tags (id INTEGER,name VARCHAR("@,
            "),CONSTRAINT tags_pk PRIMARY KEY(id))"@,
        ],
        Table::RefTags => seq![
            "CREATE TABLE ref_tags (rt_id BIGINT AUTO_INCREMENT,tag_id INTEGER,node_id BIGINT DEFAULT NULL,relation_id BIGINT DEFAULT NULL,way_id BIGINT DEFAULT NULL,value VARCHAR("@,
            "),CONSTRAINT ref_tags_pk PRIMARY KEY(rt_id),CONSTRAINT ref_tags_tags_fk FOREIGN KEY(tag_id) REFERENCES tags(id),CONSTRAINT ref_tags_nodes_fk FOREIGN KEY(node_id) REFERENCES nodes(id),CONSTRAINT ref_tags_relations_fk FOREIGN KEY(relation_id) REFERENCES relations(id),CONSTRAINT ref_tags_ways_fk FOREIGN KEY(way_id) REFERENCES ways(id))"@,
        ],
        Table::WayNodes => seq![
            "CREATE TABLE way_nodes (way_id BIGINT,node_id BIGINT,CONSTRAINT way_nodes_pk PRIMARY KEY(way_id,node_id),CONSTRAINT way_nodes_nodes_fk FOREIGN KEY(node_id) REFERENCES nodes(id),CONSTRAINT way_nodes_ways_fk FOREIGN KEY(way_id) REFERENCES ways(id))"@,
        ],
        Table::RelationMembers => seq![
            "CREATE TABLE relation_members (rm_id BIGINT AUTO_INCREMENT,relation_id BIGINT,node_id BIGINT DEFAULT NULL,way_id BIGINT DEFAULT NULL,sub_relation_id BIGINT DEFAULT NULL,role VARCHAR("@,
            "),CONSTRAINT relation_members_pk PRIMARY KEY(rm_id),CONSTRAINT relation_members_nodes_fk FOREIGN KEY(node_id) REFERENCES nodes(id),CONSTRAINT relation_members_ways_fk FOREIGN KEY(way_id) REFERENCES ways(id),CONSTRAINT relation_members_relations_fk FOREIGN KEY(relation_id) REFERENCES relations(id),CONSTRAINT relation_members_sub_relations_fk FOREIGN KEY(sub_relation_id) REFERENCES relations(id))"@,
        ],
    }
}

/// The pieces joined, with `len` written between each two.
pub open spec fn interleave(parts: Seq<Seq<char>>, len: u32) -> Seq<u8>
    decreases parts.len(),
{
    if parts.len() == 0 {
        Seq::empty()
    } else if parts.len() == 1 {
        utf8(parts[0])
    } else {
        interleave(parts.drop_last(), len) + int_text(len as int) + utf8(parts.last())
    }
}

/// The schema header of a table: it drops any earlier table of that name and
/// creates it anew.
pub open spec fn header_text(t: Table, varchar_length: u32) -> Seq<u8> {
    utf8("DROP TABLE IF EXISTS "@) + utf8(table_name(t)) + utf8(";\n"@) + interleave(
        ddl_parts(t),
        varchar_length,
    )
}

/// Column names, separated by commas.
pub open spec fn names_text(names: Seq<Seq<char>>) -> Seq<u8>
    decreases names.len(),
{
    if names.len() == 0 {
        Seq::empty()
    } else if names.len() == 1 {
        utf8(names[0])
    } else {
        names_text(names.drop_last()) + seq![COMMA] + utf8(names.last())
    }
}

/// The text that ends the statement before it and opens a grouped insert
/// statement naming every column.
pub open spec fn insert_text(t: Table, ignore_duplicates: bool) -> Seq<u8> {
    utf8(";\nINSERT "@) + (if ignore_duplicates {
        utf8("IGNORE "@)
    } else {
        Seq::empty()
    }) + utf8("INTO "@) + utf8(table_name(t)) + utf8(" ("@) + names_text(table_columns(t)) + utf8(
        ") VALUES "@,
    )
}

/// Appends each string of `items` in turn, with `sep` between each two when
/// there is one and `len` written between each two when there is none.
fn push_joined(out: &mut Vec<u8>, items: &Vec<&'static str>, len: u32, comma: bool)
    ensures
        comma ==> final(out)@ == old(out)@ + names_text(items@.map_values(|s: &str| s@)),
        !comma ==> final(out)@ == old(out)@ + interleave(items@.map_values(|s: &str| s@), len),
{
    let ghost all = items@.map_values(|s: &str| s@);
    let mut i: usize = 0;
    while i < items.len()
        invariant
            i <= items@.len(),
            all == items@.map_values(|s: &str| s@),
            comma ==> out@ == old(out)@ + names_text(all.take(i as int)),
            !comma ==> out@ == old(out)@ + interleave(all.take(i as int), len),
        decreases items@.len() - i,
    {
        if i > 0 {
            if comma {
                out.push(COMMA);
            } else {
                push_int(out, len as i64);
            }
        }
        push_str(out, items[i]);
        proof {
            let t = all.take(i + 1);
            assert(t.drop_last() =~= all.take(i as int));
            assert(t.last() == items@[i as int]@);
            if i == 0 {
                assert(t[0] == items@[0]@);
            }
        }
        i = i + 1;
        assert(comma ==> out@ =~= old(out)@ + names_text(all.take(i as int)));
        assert(!comma ==> out@ =~= old(out)@ + interleave(all.take(i as int), len));
    }
    assert(all.take(i as int) =~= all);
}

impl Table {
    /// Every table, in the order in which a run's outputs are listed.
    pub fn all() -> (r: Vec<Table>)
        ensures
            r@ == seq![
                Table::Nodes,
                Table::Ways,
                Table::Relations,
                Table::Tags,
                Table::RefTags,
                Table::WayNodes,
                Table::RelationMembers,
            ],
    {
        let mut r: Vec<Table> = Vec::new();
        r.push(Table::Nodes);
        r.push(Table::Ways);
        r.push(Table::Relations);
        r.push(Table::Tags);
        r.push(Table::RefTags);
        r.push(Table::WayNodes);
        r.push(Table::RelationMembers);
        assert(r@ =~= seq![
            Table::Nodes,
            Table::Ways,
            Table::Relations,
            Table::Tags,
            Table::RefTags,
            Table::WayNodes,
            Table::RelationMembers,
        ]);
        r
    }

    pub fn get_table_name(&self) -> (r: &'static str)
        ensures
            r@ == table_name(*self),
    {
        match self {
            Table::Nodes => "nodes",
            Table::Ways => "ways",
            Table::Relations => "relations",
            Table::Tags => "tags",
            Table::RefTags => "ref_tags",
            Table::WayNodes => "way_nodes",
            Table::RelationMembers => "relation_members",
        }
    }

    /// The table's columns, in the order in which a row's values are written.
    pub fn get_columns(&self) -> (r: Vec<&'static str>)
        ensures
            r@.map_values(|s: &str| s@) == table_columns(*self),
    {
        let mut r: Vec<&'static str> = Vec::new();
        match self {
            Table::Nodes => {
                r.push("id");
                r.push("lat");
                r.push("lng");
                r.push("version");
                r.push("changeset");
                r.push("user");
                r.push("uid");
                r.push("visible");
                r.push("timestamp");
            },
            Table::Ways | Table::Relations => {
                r.push("id");
                r.push("version");
                r.push("changeset");
                r.push("user");
                r.push("uid");
                r.push("visible");
                r.push("timestamp");
            },
            Table::Tags => {
                r.push("id");
                r.push("name");
            },
            Table::RefTags => {
                r.push("tag_id");
                r.push("node_id");
                r.push("relation_id");
                r.push("way_id");
                r.push("value");
            },
            Table::WayNodes => {
                r.push("way_id");
                r.push("node_id");
            },
            Table::RelationMembers => {
                r.push("relation_id");
                r.push("node_id");
                r.push("way_id");
                r.push("sub_relation_id");
                r.push("role");
            },
        }
        assert(r@.map_values(|s: &str| s@) =~= table_columns(*self));
        r
    }

    fn ddl_parts(&self) -> (r: Vec<&'static str>)
        ensures
            r@.map_values(|s: &str| s@) == ddl_parts(*self),
    {
        let mut r: Vec<&'static str> = Vec::new();
        match self {
            Table::Nodes => {
                r.push("CREATE TABLE nodes (id BIGINT,lat DECIMAL(10,8),lng DECIMAL(11,8),version INTEGER,changeset INTEGER,user VARCHAR(");
                r.push("),uid INTEGER,visible TINYINT(2),timestamp VARCHAR(");
                r.push("),CONSTRAINT nodes_pk PRIMARY KEY(id))");
            },
            Table::Ways => {
                r.push("CREATE TABLE ways (id BIGINT,version INTEGER,changeset INTEGER,user VARCHAR(");
                r.push("),uid INTEGER,visible TINYINT(2),timestamp VARCHAR(");
                r.push("),CONSTRAINT ways_pk PRIMARY KEY(id))");
            },
            Table::Relations => {
                r.push("CREATE TABLE relations (id BIGINT,version INTEGER,changeset INTEGER,user VARCHAR(");
                r.push("),uid INTEGER,visible TINYINT(2),timestamp VARCHAR(");
                r.push("),CONSTRAINT relations_pk PRIMARY KEY(id))");
            },
            Table::Tags => {
                r.push("CREATE TABLE tags (id INTEGER,name VARCHAR(");
                r.push("),CONSTRAINT tags_pk PRIMARY KEY(id))");
            },
            Table::RefTags => {
                r.push("CREATE TABLE ref_tags (rt_id BIGINT AUTO_INCREMENT,tag_id INTEGER,node_id BIGINT DEFAULT NULL,relation_id BIGINT DEFAULT NULL,way_id BIGINT DEFAULT NULL,value VARCHAR(");
                r.push("),CONSTRAINT ref_tags_pk PRIMARY KEY(rt_id),CONSTRAINT ref_tags_tags_fk FOREIGN KEY(tag_id) REFERENCES tags(id),CONSTRAINT ref_tags_nodes_fk FOREIGN KEY(node_id) REFERENCES nodes(id),CONSTRAINT ref_tags_relations_fk FOREIGN KEY(relation_id) REFERENCES relations(id),CONSTRAINT ref_tags_ways_fk FOREIGN KEY(way_id) REFERENCES ways(id))");
            },
            Table::WayNodes => {
                r.push("CREATE TABLE way_nodes (way_id BIGINT,node_id BIGINT,CONSTRAINT way_nodes_pk PRIMARY KEY(way_id,node_id),CONSTRAINT way_nodes_nodes_fk FOREIGN KEY(node_id) REFERENCES nodes(id),CONSTRAINT way_nodes_ways_fk FOREIGN KEY(way_id) REFERENCES ways(id))");
            },
            Table::RelationMembers => {
                r.push("CREATE TABLE relation_members (rm_id BIGINT AUTO_INCREMENT,relation_id BIGINT,node_id BIGINT DEFAULT NULL,way_id BIGINT DEFAULT NULL,sub_relation_id BIGINT DEFAULT NULL,role VARCHAR(");
                r.push("),CONSTRAINT relation_members_pk PRIMARY KEY(rm_id),CONSTRAINT relation_members_nodes_fk FOREIGN KEY(node_id) REFERENCES nodes(id),CONSTRAINT relation_members_ways_fk FOREIGN KEY(way_id) REFERENCES ways(id),CONSTRAINT relation_members_relations_fk FOREIGN KEY(relation_id) REFERENCES relations(id),CONSTRAINT relation_members_sub_relations_fk FOREIGN KEY(sub_relation_id) REFERENCES relations(id))");
            },
        }
        assert(r@.map_values(|s: &str| s@) =~= ddl_parts(*self));
        r
    }

    /// The schema header that opens the table's output.
    pub fn get_create_table_query(&self, varchar_length: u32) -> (r: Vec<u8>)
        ensures
            r@ == header_text(*self, varchar_length),
    {
        let mut r: Vec<u8> = Vec::new();
        push_str(&mut r, "DROP TABLE IF EXISTS ");
        push_str(&mut r, self.get_table_name());
        push_str(&mut r, ";\n");
        let parts = self.ddl_parts();
        push_joined(&mut r, &parts, varchar_length, false);
        assert(r@ =~= header_text(*self, varchar_length));
        r
    }

    /// The text that opens a grouped insert statement into this table.
    pub fn insert_statement(&self, ignore_duplicates: bool) -> (r: Vec<u8>)
        ensures
            r@ == insert_text(*self, ignore_duplicates),
    {
        let mut r: Vec<u8> = Vec::new();
        push_str(&mut r, ";\nINSERT ");
        if ignore_duplicates {
            push_str(&mut r, "IGNORE ");
        }
        push_str(&mut r, "INTO ");
        push_str(&mut r, self.get_table_name());
        push_str(&mut r, " (");
        let columns = self.get_columns();
        push_joined(&mut r, &columns, 0, true);
        push_str(&mut r, ") VALUES ");
        assert(r@ =~= insert_text(*self, ignore_duplicates));
        r
    }
}

} // verus!
