//! The records that a run writes, one kind per table, and the row of column
//! values that each becomes.

use vstd::prelude::*;
use crate::error::{ConvertError, Field};
use crate::number::{
    Decimal, DecimalView, ZERO, parse_flag_text, parse_i16_text, parse_i32_text,
    parse_i64_text, read_decimal, read_flag, read_i16, read_i32, read_i64,
};
use crate::schema::{Table, table_columns};
use crate::text::{same_text, string_from_utf8, utf8};
use vstd::utf8::valid_utf8;
use crate::value::{SqlCell, SqlType, cells};

verus! {

/// The entity that owns a tag, or that a relation names as a member.
#[derive(Clone, Copy, PartialEq, Eq, Structural, Debug)]
pub enum EntityRef {
    Node(i64),
    Way(i64),
    Relation(i64),
}

impl EntityRef {
    pub open spec fn spec_id(self) -> i64 {
        match self {
            EntityRef::Node(id) => id,
            EntityRef::Way(id) => id,
            EntityRef::Relation(id) => id,
        }
    }

    pub fn id(&self) -> (r: i64)
        ensures
            r == self.spec_id(),
    {
        match self {
            EntityRef::Node(id) => *id,
            EntityRef::Way(id) => *id,
            EntityRef::Relation(id) => *id,
        }
    }

    /// The values of the node, way and relation reference columns: the id in
    /// the column of this entity's kind, `NULL` in the other two.
    pub fn resolve_foreign_key(&self) -> (r: (SqlType, SqlType, SqlType))
        ensures
            r.0@ == ref_cell(*self is Node, self.spec_id()),
            r.1@ == ref_cell(*self is Way, self.spec_id()),
            r.2@ == ref_cell(*self is Relation, self.spec_id()),
    {
        match self {
            EntityRef::Node(id) => (SqlType::BigInt(*id), SqlType::Null, SqlType::Null),
            EntityRef::Way(id) => (SqlType::Null, SqlType::BigInt(*id), SqlType::Null),
            EntityRef::Relation(id) => (SqlType::Null, SqlType::Null, SqlType::BigInt(*id)),
        }
    }
}

/// The column value that stands in a reference column: the id where the
/// reference is of that kind, `NULL` where it is not.
pub open spec fn ref_cell(matches: bool, id: i64) -> SqlCell {
    if matches {
        SqlCell::BigInt(id)
    } else {
        SqlCell::Null
    }
}

/// A record of one table.
pub trait Model {
    /// The table that records of this kind go to.
    spec fn spec_table() -> Table;

    /// The row that this record becomes.
    spec fn row(&self) -> Seq<SqlCell>;

    fn table() -> (r: Table)
        ensures
            r == Self::spec_table(),
    ;

    /// The record's row: one value per column of its table, in column order.
    fn get_data_set(&self) -> (r: Vec<SqlType>)
        ensures
            cells(r@) == self.row(),
            r@.len() == table_columns(Self::spec_table()).len(),
    ;
}

/// What every entity carries.
#[derive(Debug)]
pub struct MainInfo {
    pub changeset: i32,
    pub id: i64,
    pub version: i16,
    pub timestamp: String,
    pub user: String,
    pub uid: i32,
    pub visible: bool,
}

pub struct MainInfoView {
    pub changeset: i32,
    pub id: i64,
    pub version: i16,
    pub timestamp: Seq<char>,
    pub user: Seq<char>,
    pub uid: i32,
    pub visible: bool,
}

impl View for MainInfo {
    type V = MainInfoView;

    open spec fn view(&self) -> MainInfoView {
        MainInfoView {
            changeset: self.changeset,
            id: self.id,
            version: self.version,
            timestamp: self.timestamp@,
            user: self.user@,
            uid: self.uid,
            visible: self.visible,
        }
    }
}

/// The values an entity has where its element leaves an attribute out.
pub open spec fn default_info() -> MainInfoView {
    MainInfoView {
        changeset: 0,
        id: 0,
        version: 8,
        timestamp: "2011-01-12T14:23:49Z"@,
        user: "anonymous"@,
        uid: 0,
        visible: true,
    }
}

/// What one attribute does to an entity's common values: `None` where its
/// name is not one of them, else the new values, or the attribute whose value
/// is not of its type.
pub open spec fn info_attr(info: MainInfoView, name: Seq<char>, value: Seq<char>) -> Option<
    Result<MainInfoView, Field>,
> {
    if name == "id"@ {
        Some(
            match read_i64(value) {
                Some(n) => Ok(MainInfoView { id: n, ..info }),
                None => Err(Field::Id),
            },
        )
    } else if name == "changeset"@ {
        Some(
            match read_i32(value) {
                Some(n) => Ok(MainInfoView { changeset: n, ..info }),
                None => Err(Field::Changeset),
            },
        )
    } else if name == "version"@ {
        Some(
            match read_i16(value) {
                Some(n) => Ok(MainInfoView { version: n, ..info }),
                None => Err(Field::Version),
            },
        )
    } else if name == "timestamp"@ {
        Some(Ok(MainInfoView { timestamp: value, ..info }))
    } else if name == "user"@ {
        Some(Ok(MainInfoView { user: value, ..info }))
    } else if name == "uid"@ {
        Some(
            match read_i32(value) {
                Some(n) => Ok(MainInfoView { uid: n, ..info }),
                None => Err(Field::Uid),
            },
        )
    } else if name == "visible"@ {
        Some(
            match read_flag(value) {
                Some(b) => Ok(MainInfoView { visible: b, ..info }),
                None => Err(Field::Visible),
            },
        )
    } else {
        None
    }
}

/// The row values of an entity's common columns, in the order of the way and
/// relation tables.
pub open spec fn info_cells(i: MainInfoView) -> Seq<SqlCell> {
    seq![
        SqlCell::BigInt(i.id),
        SqlCell::Int(i.version as i32),
        SqlCell::Int(i.changeset),
        SqlCell::Text(i.user),
        SqlCell::Int(i.uid),
        SqlCell::Bool(i.visible),
        SqlCell::Text(i.timestamp),
    ]
}

impl Default for MainInfo {
    fn default() -> (r: MainInfo)
        ensures
            r@ == default_info(),
    {
        MainInfo {
            changeset: 0,
            id: 0,
            version: 8,
            timestamp: "2011-01-12T14:23:49Z".to_owned(),
            user: "anonymous".to_owned(),
            uid: 0,
            visible: true,
        }
    }
}

impl MainInfo {
    /// Sets the value that the attribute `name` names; `Ok(false)` where the
    /// name is none of the common attributes.
    pub fn set_attribute(&mut self, name: String, value: String) -> (r: Result<bool, ConvertError>)
        ensures
            match info_attr(old(self)@, name@, value@) {
                None => r == Ok::<bool, ConvertError>(false) && final(self)@ == old(self)@,
                Some(Ok(v)) => r == Ok::<bool, ConvertError>(true) && final(self)@ == v,
                Some(Err(f)) => r == Err::<bool, ConvertError>(ConvertError::MalformedAttribute(f))
                    && final(self)@ == old(self)@,
            },
    {
        let n = name.as_str();
        let v = value.as_str();
        if same_text(n, "id") {
            match parse_i64_text(v) {
                Some(x) => {
                    self.id = x;
                    Ok(true)
                },
                None => Err(ConvertError::MalformedAttribute(Field::Id)),
            }
        } else if same_text(n, "changeset") {
            match parse_i32_text(v) {
                Some(x) => {
                    self.changeset = x;
                    Ok(true)
                },
                None => Err(ConvertError::MalformedAttribute(Field::Changeset)),
            }
        } else if same_text(n, "version") {
            match parse_i16_text(v) {
                Some(x) => {
                    self.version = x;
                    Ok(true)
                },
                None => Err(ConvertError::MalformedAttribute(Field::Version)),
            }
        } else if same_text(n, "timestamp") {
            self.timestamp = value;
            Ok(true)
        } else if same_text(n, "user") {
            self.user = value;
            Ok(true)
        } else if same_text(n, "uid") {
            match parse_i32_text(v) {
                Some(x) => {
                    self.uid = x;
                    Ok(true)
                },
                None => Err(ConvertError::MalformedAttribute(Field::Uid)),
            }
        } else if same_text(n, "visible") {
            match parse_flag_text(v) {
                Some(x) => {
                    self.visible = x;
                    Ok(true)
                },
                None => Err(ConvertError::MalformedAttribute(Field::Visible)),
            }
        } else {
            Ok(false)
        }
    }

    /// The values of the common columns, in the order of the way and
    /// relation tables.
    pub fn get_data_set(&self) -> (r: Vec<SqlType>)
        ensures
            cells(r@) == info_cells(self@),
    {
        let mut r: Vec<SqlType> = Vec::new();
        r.push(SqlType::BigInt(self.id));
        r.push(SqlType::Int(self.version as i32));
        r.push(SqlType::Int(self.changeset));
        r.push(SqlType::Varchar(self.user.clone()));
        r.push(SqlType::Int(self.uid));
        r.push(SqlType::Bool(self.visible));
        r.push(SqlType::Varchar(self.timestamp.clone()));
        assert(cells(r@) =~= info_cells(self@));
        r
    }
}

/// A point entity.
#[derive(Debug)]
pub struct Node {
    pub main_info: MainInfo,
    pub lat: Decimal,
    pub lng: Decimal,
}

pub struct NodeView {
    pub info: MainInfoView,
    pub lat: DecimalView,
    pub lng: DecimalView,
}

impl View for Node {
    type V = NodeView;

    open spec fn view(&self) -> NodeView {
        NodeView { info: self.main_info@, lat: self.lat@, lng: self.lng@ }
    }
}

/// Zero, as a decimal.
pub open spec fn zero_decimal() -> DecimalView {
    DecimalView { negative: false, whole: seq![ZERO], fraction: Seq::empty() }
}

pub open spec fn default_node() -> NodeView {
    NodeView { info: default_info(), lat: zero_decimal(), lng: zero_decimal() }
}

/// What one attribute does to a point entity: the common attributes first,
/// then its coordinates `lat` and `lon`.
pub open spec fn node_attr(n: NodeView, name: Seq<char>, value: Seq<char>) -> Option<
    Result<NodeView, Field>,
> {
    match info_attr(n.info, name, value) {
        Some(Ok(i)) => Some(Ok(NodeView { info: i, ..n })),
        Some(Err(f)) => Some(Err(f)),
        None => if name == "lat"@ {
            Some(
                match read_decimal(value) {
                    Some(d) => Ok(NodeView { lat: d, ..n }),
                    None => Err(Field::Lat),
                },
            )
        } else if name == "lon"@ {
            Some(
                match read_decimal(value) {
                    Some(d) => Ok(NodeView { lng: d, ..n }),
                    None => Err(Field::Lon),
                },
            )
        } else {
            None
        },
    }
}

pub open spec fn node_cells(n: NodeView) -> Seq<SqlCell> {
    seq![
        SqlCell::BigInt(n.info.id),
        SqlCell::Decimal(n.lat),
        SqlCell::Decimal(n.lng),
        SqlCell::Int(n.info.version as i32),
        SqlCell::Int(n.info.changeset),
        SqlCell::Text(n.info.user),
        SqlCell::Int(n.info.uid),
        SqlCell::Bool(n.info.visible),
        SqlCell::Text(n.info.timestamp),
    ]
}

impl Default for Node {
    fn default() -> (r: Node)
        ensures
            r@ == default_node(),
    {
        Node { main_info: MainInfo::default(), lat: Decimal::zero(), lng: Decimal::zero() }
    }
}

impl Node {
    /// Sets the value that the attribute `name` names; `Ok(false)` where the
    /// name is none of a point entity's attributes.
    pub fn set_attribute(&mut self, name: String, value: String) -> (r: Result<bool, ConvertError>)
        ensures
            match node_attr(old(self)@, name@, value@) {
                None => r == Ok::<bool, ConvertError>(false) && final(self)@ == old(self)@,
                Some(Ok(v)) => r == Ok::<bool, ConvertError>(true) && final(self)@ == v,
                Some(Err(f)) => r == Err::<bool, ConvertError>(ConvertError::MalformedAttribute(f))
                    && final(self)@ == old(self)@,
            },
    {
        let is_lat = same_text(name.as_str(), "lat");
        let is_lon = same_text(name.as_str(), "lon");
        match self.main_info.set_attribute(name, value.clone()) {
            Ok(true) => Ok(true),
            Err(e) => Err(e),
            Ok(false) => {
                if is_lat {
                    match Decimal::parse(value.as_str().as_bytes()) {
                        Some(d) => {
                            self.lat = d;
                            Ok(true)
                        },
                        None => Err(ConvertError::MalformedAttribute(Field::Lat)),
                    }
                } else if is_lon {
                    match Decimal::parse(value.as_str().as_bytes()) {
                        Some(d) => {
                            self.lng = d;
                            Ok(true)
                        },
                        None => Err(ConvertError::MalformedAttribute(Field::Lon)),
                    }
                } else {
                    Ok(false)
                }
            },
        }
    }
}

impl Model for Node {
    open spec fn spec_table() -> Table {
        Table::Nodes
    }

    open spec fn row(&self) -> Seq<SqlCell> {
        node_cells(self@)
    }

    fn table() -> (r: Table) {
        Table::Nodes
    }

    fn get_data_set(&self) -> (r: Vec<SqlType>) {
        let mut r: Vec<SqlType> = Vec::new();
        r.push(SqlType::BigInt(self.main_info.id));
        r.push(SqlType::Decimal(self.lat.duplicate()));
        r.push(SqlType::Decimal(self.lng.duplicate()));
        r.push(SqlType::Int(self.main_info.version as i32));
        r.push(SqlType::Int(self.main_info.changeset));
        r.push(SqlType::Varchar(self.main_info.user.clone()));
        r.push(SqlType::Int(self.main_info.uid));
        r.push(SqlType::Bool(self.main_info.visible));
        r.push(SqlType::Varchar(self.main_info.timestamp.clone()));
        assert(cells(r@) =~= node_cells(self@));
        r
    }
}

/// A line entity: an ordered list of points.
#[derive(Debug)]
pub struct Way {
    pub main_info: MainInfo,
}

impl Default for Way {
    fn default() -> (r: Way)
        ensures
            r.main_info@ == default_info(),
    {
        Way { main_info: MainInfo::default() }
    }
}

impl Model for Way {
    open spec fn spec_table() -> Table {
        Table::Ways
    }

    open spec fn row(&self) -> Seq<SqlCell> {
        info_cells(self.main_info@)
    }

    fn table() -> (r: Table) {
        Table::Ways
    }

    fn get_data_set(&self) -> (r: Vec<SqlType>) {
        let r = self.main_info.get_data_set();
        assert(cells(r@).len() == r@.len());
        r
    }
}

/// A group entity: typed references to other entities.
#[derive(Debug)]
pub struct Relation {
    pub main_info: MainInfo,
}

impl Default for Relation {
    fn default() -> (r: Relation)
        ensures
            r.main_info@ == default_info(),
    {
        Relation { main_info: MainInfo::default() }
    }
}

impl Model for Relation {
    open spec fn spec_table() -> Table {
        Table::Relations
    }

    open spec fn row(&self) -> Seq<SqlCell> {
        info_cells(self.main_info@)
    }

    fn table() -> (r: Table) {
        Table::Relations
    }

    fn get_data_set(&self) -> (r: Vec<SqlType>) {
        let r = self.main_info.get_data_set();
        assert(cells(r@).len() == r@.len());
        r
    }
}

/// An entry of the tag dictionary.
#[derive(Debug)]
pub struct Tag {
    pub id: i32,
    pub name: String,
}

pub open spec fn tag_cells(id: i32, name: Seq<char>) -> Seq<SqlCell> {
    seq![SqlCell::Int(id), SqlCell::Text(name)]
}

impl Model for Tag {
    open spec fn spec_table() -> Table {
        Table::Tags
    }

    open spec fn row(&self) -> Seq<SqlCell> {
        tag_cells(self.id, self.name@)
    }

    fn table() -> (r: Table) {
        Table::Tags
    }

    fn get_data_set(&self) -> (r: Vec<SqlType>) {
        let mut r: Vec<SqlType> = Vec::new();
        r.push(SqlType::Int(self.id));
        r.push(SqlType::Varchar(self.name.clone()));
        assert(cells(r@) =~= tag_cells(self.id, self.name@));
        r
    }
}

/// One tag value of one entity.
#[derive(Debug)]
pub struct UsedTag {
    pub tag_id: i32,
    pub value: String,
    pub owner: EntityRef,
}

/// A tag value's row: the owner's id stands in the column of its kind, and
/// the other two reference columns are `NULL`.
pub open spec fn used_tag_cells(tag_id: i32, owner: EntityRef, value: Seq<char>) -> Seq<SqlCell> {
    seq![
        SqlCell::Int(tag_id),
        ref_cell(owner is Node, owner.spec_id()),
        ref_cell(owner is Relation, owner.spec_id()),
        ref_cell(owner is Way, owner.spec_id()),
        SqlCell::Text(value),
    ]
}

impl Model for UsedTag {
    open spec fn spec_table() -> Table {
        Table::RefTags
    }

    open spec fn row(&self) -> Seq<SqlCell> {
        used_tag_cells(self.tag_id, self.owner, self.value@)
    }

    fn table() -> (r: Table) {
        Table::RefTags
    }

    fn get_data_set(&self) -> (r: Vec<SqlType>) {
        let (node, way, relation) = self.owner.resolve_foreign_key();
        let mut r: Vec<SqlType> = Vec::new();
        r.push(SqlType::Int(self.tag_id));
        r.push(node);
        r.push(relation);
        r.push(way);
        r.push(SqlType::Varchar(self.value.clone()));
        assert(cells(r@) =~= used_tag_cells(self.tag_id, self.owner, self.value@));
        r
    }
}

/// One point of a line entity, in the order the points were listed.
#[derive(Clone, Copy, PartialEq, Eq, Structural, Debug)]
pub struct WayNode {
    pub way_id: i64,
    pub node_id: i64,
}

pub open spec fn way_node_cells(w: WayNode) -> Seq<SqlCell> {
    seq![SqlCell::BigInt(w.way_id), SqlCell::BigInt(w.node_id)]
}

impl Model for WayNode {
    open spec fn spec_table() -> Table {
        Table::WayNodes
    }

    open spec fn row(&self) -> Seq<SqlCell> {
        way_node_cells(*self)
    }

    fn table() -> (r: Table) {
        Table::WayNodes
    }

    fn get_data_set(&self) -> (r: Vec<SqlType>) {
        let mut r: Vec<SqlType> = Vec::new();
        r.push(SqlType::BigInt(self.way_id));
        r.push(SqlType::BigInt(self.node_id));
        assert(cells(r@) =~= way_node_cells(*self));
        r
    }
}

/// One member of a group entity, with its role.
#[derive(Debug)]
pub struct RelationMember {
    pub member: EntityRef,
    pub relation_id: i64,
    pub role: String,
}

/// A member's row: the member's id stands in the column of its kind, and the
/// other two reference columns are `NULL`.
pub open spec fn member_cells(relation_id: i64, member: EntityRef, role: Seq<char>) -> Seq<SqlCell> {
    seq![
        SqlCell::BigInt(relation_id),
        ref_cell(member is Node, member.spec_id()),
        ref_cell(member is Way, member.spec_id()),
        ref_cell(member is Relation, member.spec_id()),
        SqlCell::Text(role),
    ]
}

impl Model for RelationMember {
    open spec fn spec_table() -> Table {
        Table::RelationMembers
    }

    open spec fn row(&self) -> Seq<SqlCell> {
        member_cells(self.relation_id, self.member, self.role@)
    }

    fn table() -> (r: Table) {
        Table::RelationMembers
    }

    fn get_data_set(&self) -> (r: Vec<SqlType>) {
        let (node, way, relation) = self.member.resolve_foreign_key();
        let mut r: Vec<SqlType> = Vec::new();
        r.push(SqlType::BigInt(self.relation_id));
        r.push(node);
        r.push(way);
        r.push(relation);
        r.push(SqlType::Varchar(self.role.clone()));
        assert(cells(r@) =~= member_cells(self.relation_id, self.member, self.role@));
        r
    }
}

/// Any record that a run writes.
#[derive(Debug)]
pub enum Record {
    Node(Node),
    Way(Way),
    Relation(Relation),
    Tag(Tag),
    UsedTag(UsedTag),
    WayNode(WayNode),
    RelationMember(RelationMember),
}

pub enum RecordView {
    Node(NodeView),
    Way(MainInfoView),
    Relation(MainInfoView),
    /// Id and name of a tag.
    Tag(i32, Seq<char>),
    /// Tag id, owner and value.
    UsedTag(i32, EntityRef, Seq<char>),
    WayNode(WayNode),
    /// Relation id, member and role.
    RelationMember(i64, EntityRef, Seq<char>),
}

impl View for Record {
    type V = RecordView;

    open spec fn view(&self) -> RecordView {
        match self {
            Record::Node(n) => RecordView::Node(n@),
            Record::Way(w) => RecordView::Way(w.main_info@),
            Record::Relation(r) => RecordView::Relation(r.main_info@),
            Record::Tag(t) => RecordView::Tag(t.id, t.name@),
            Record::UsedTag(u) => RecordView::UsedTag(u.tag_id, u.owner, u.value@),
            Record::WayNode(w) => RecordView::WayNode(*w),
            Record::RelationMember(m) => RecordView::RelationMember(
                m.relation_id,
                m.member,
                m.role@,
            ),
        }
    }
}

/// The table a record goes to.
pub open spec fn record_table(r: RecordView) -> Table {
    match r {
        RecordView::Node(_) => Table::Nodes,
        RecordView::Way(_) => Table::Ways,
        RecordView::Relation(_) => Table::Relations,
        RecordView::Tag(..) => Table::Tags,
        RecordView::UsedTag(..) => Table::RefTags,
        RecordView::WayNode(_) => Table::WayNodes,
        RecordView::RelationMember(..) => Table::RelationMembers,
    }
}

/// The row a record becomes, one value per column of its table.
pub open spec fn record_cells(r: RecordView) -> Seq<SqlCell> {
    match r {
        RecordView::Node(n) => node_cells(n),
        RecordView::Way(i) => info_cells(i),
        RecordView::Relation(i) => info_cells(i),
        RecordView::Tag(id, name) => tag_cells(id, name),
        RecordView::UsedTag(id, owner, value) => used_tag_cells(id, owner, value),
        RecordView::WayNode(w) => way_node_cells(w),
        RecordView::RelationMember(id, member, role) => member_cells(id, member, role),
    }
}

impl Record {
    pub fn table(&self) -> (r: Table)
        ensures
            r == record_table(self@),
    {
        match self {
            Record::Node(_) => Table::Nodes,
            Record::Way(_) => Table::Ways,
            Record::Relation(_) => Table::Relations,
            Record::Tag(_) => Table::Tags,
            Record::UsedTag(_) => Table::RefTags,
            Record::WayNode(_) => Table::WayNodes,
            Record::RelationMember(_) => Table::RelationMembers,
        }
    }

    pub fn get_data_set(&self) -> (r: Vec<SqlType>)
        ensures
            cells(r@) == record_cells(self@),
            r@.len() == table_columns(record_table(self@)).len(),
    {
        let r = match self {
            Record::Node(n) => n.get_data_set(),
            Record::Way(w) => w.get_data_set(),
            Record::Relation(r) => r.get_data_set(),
            Record::Tag(t) => t.get_data_set(),
            Record::UsedTag(u) => u.get_data_set(),
            Record::WayNode(w) => w.get_data_set(),
            Record::RelationMember(m) => m.get_data_set(),
        };
        assert(cells(r@).len() == r@.len());
        r
    }
}

/// The reference column that an entity of this kind fills in a table of
/// references.
pub open spec fn ref_column(t: Table, e: EntityRef) -> Seq<char> {
    match e {
        EntityRef::Node(_) => "node_id"@,
        EntityRef::Way(_) => "way_id"@,
        EntityRef::Relation(_) => if t == Table::RelationMembers {
            "sub_relation_id"@
        } else {
            "relation_id"@
        },
    }
}

/// The entity that a tag value or a member row refers to.
pub open spec fn referenced(r: RecordView) -> EntityRef {
    match r {
        RecordView::UsedTag(_, owner, _) => owner,
        RecordView::RelationMember(_, member, _) => member,
        _ => EntityRef::Node(0),
    }
}

/// Of the three reference columns of a tag value or member row, exactly one
/// holds a value: the column of the referenced entity's kind, which holds its
/// id. The other two are `NULL`.
pub proof fn lemma_single_reference(r: RecordView)
    requires
        r is UsedTag || r is RelationMember,
    ensures
        ({
            let t = record_table(r);
            let c = record_cells(r);
            let e = referenced(r);
            &&& c.len() == table_columns(t).len()
            &&& forall|j: int|
                1 <= j <= 3 ==> ((c[j] != SqlCell::Null) <==> table_columns(t)[j] == ref_column(
                    t,
                    e,
                ))
            &&& forall|j: int|
                1 <= j <= 3 && table_columns(t)[j] == ref_column(t, e) ==> c[j] == SqlCell::BigInt(
                    e.spec_id(),
                )
            &&& exists|j: int| 1 <= j <= 3 && table_columns(t)[j] == ref_column(t, e)
        }),
{
    reveal_strlit("node_id");
    reveal_strlit("way_id");
    reveal_strlit("relation_id");
    reveal_strlit("sub_relation_id");
    let t = record_table(r);
    let e = referenced(r);
    match e {
        EntityRef::Node(_) => assert(table_columns(t)[1] == ref_column(t, e)),
        EntityRef::Way(_) => if t == Table::RefTags {
            assert(table_columns(t)[3] == ref_column(t, e));
        } else {
            assert(table_columns(t)[2] == ref_column(t, e));
        },
        EntityRef::Relation(_) => if t == Table::RefTags {
            assert(table_columns(t)[2] == ref_column(t, e));
        } else {
            assert(table_columns(t)[3] == ref_column(t, e));
        },
    }
}

/// One attribute of an element, as text.
#[derive(Debug)]
pub struct Attr {
    pub name: String,
    pub value: String,
}

impl Attr {
    /// An attribute from the raw bytes of its name and value; an error where
    /// either is not UTF-8.
    pub fn from_utf8(name: Vec<u8>, value: Vec<u8>) -> (r: Result<Attr, ConvertError>)
        ensures
            r is Ok <==> valid_utf8(name@) && valid_utf8(value@),
            r is Err ==> r == Err::<Attr, ConvertError>(ConvertError::InvalidText),
            r matches Ok(a) ==> utf8(a.name@) == name@ && utf8(a.value@) == value@,
    {
        let name = match string_from_utf8(name) {
            Some(s) => s,
            None => {
                return Err(ConvertError::InvalidText);
            },
        };
        let value = match string_from_utf8(value) {
            Some(s) => s,
            None => {
                return Err(ConvertError::InvalidText);
            },
        };
        Ok(Attr { name, value })
    }
}

} // verus!
