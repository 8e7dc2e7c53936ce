//! The producer of a run: it reads the element events of a document in order
//! and turns them into records, remembering only the entity last opened and
//! the tag names seen so far.

use vstd::prelude::*;
use crate::error::{ConvertError, Field};
use crate::interner::{TagInterner, intern_step};
use crate::models::{
    Attr, EntityRef, Node, NodeView, Record, RecordView, Relation,
    RelationMember, Tag, UsedTag, Way, WayNode, default_node, info_attr, node_attr,
};
use crate::number::{parse_i64_text, read_i64};
use crate::text::{same_text, string_from_utf8, utf8};
use vstd::utf8::valid_utf8;

verus! {

/// An attribute as a name and a value.
pub type AttrView = (Seq<char>, Seq<char>);

/// An opened element: its name and its attributes, in document order.
#[derive(Debug)]
pub struct Element {
    pub name: String,
    pub attributes: Vec<Attr>,
}

impl Element {
    /// An element from the raw bytes of its name and its attributes; an error
    /// where the name is not UTF-8.
    pub fn from_utf8(name: Vec<u8>, attributes: Vec<Attr>) -> (r: Result<Element, ConvertError>)
        ensures
            r is Ok <==> valid_utf8(name@),
            r is Err ==> r == Err::<Element, ConvertError>(ConvertError::InvalidText),
            r matches Ok(e) ==> utf8(e.name@) == name@ && e.attributes@ == attributes@,
    {
        match string_from_utf8(name) {
            Some(name) => Ok(Element { name, attributes }),
            None => Err(ConvertError::InvalidText),
        }
    }
}

pub open spec fn attr_views(attrs: Seq<Attr>) -> Seq<AttrView> {
    attrs.map_values(|a: Attr| (a.name@, a.value@))
}

/// The value of the last attribute named `key`.
pub open spec fn lookup(attrs: Seq<AttrView>, key: Seq<char>) -> Option<Seq<char>>
    decreases attrs.len(),
{
    if attrs.len() == 0 {
        None
    } else if attrs.last().0 == key {
        Some(attrs.last().1)
    } else {
        lookup(attrs.drop_last(), key)
    }
}

/// What one attribute does to an entity; `point` tells whether the entity is
/// a point, which alone has coordinates.
pub open spec fn entity_attr(n: NodeView, a: AttrView, point: bool) -> Option<
    Result<NodeView, Field>,
> {
    if point {
        node_attr(n, a.0, a.1)
    } else {
        match info_attr(n.info, a.0, a.1) {
            Some(Ok(i)) => Some(Ok(NodeView { info: i, ..n })),
            Some(Err(f)) => Some(Err(f)),
            None => None,
        }
    }
}

/// The entity that the attributes describe, each applied in turn to the
/// defaults; the first attribute whose value is not of its type stops it.
pub open spec fn apply_attrs(attrs: Seq<AttrView>, point: bool) -> Result<NodeView, Field>
    decreases attrs.len(),
{
    if attrs.len() == 0 {
        Ok(default_node())
    } else {
        match apply_attrs(attrs.drop_last(), point) {
            Err(f) => Err(f),
            Ok(n) => match entity_attr(n, attrs.last(), point) {
                None => Ok(n),
                Some(r) => r,
            },
        }
    }
}

/// The member that a member element names, by kind and id.
pub open spec fn member_ref(kind: Seq<char>, id: i64) -> Option<EntityRef> {
    if kind == "node"@ {
        Some(EntityRef::Node(id))
    } else if kind == "way"@ {
        Some(EntityRef::Way(id))
    } else if kind == "relation"@ {
        Some(EntityRef::Relation(id))
    } else {
        None
    }
}

/// The state a producer carries from one element to the next.
pub struct DispatcherView {
    /// The tag names seen so far; a name's id is its index.
    pub tags: Seq<Seq<char>>,
    /// The entity last opened.
    pub current: EntityRef,
}

/// One element: the state after it and the records it yields, in order, or
/// the condition that stops the run.
pub open spec fn step(st: DispatcherView, name: Seq<char>, attrs: Seq<AttrView>) -> Result<
    (DispatcherView, Seq<RecordView>),
    ConvertError,
> {
    if name == "node"@ {
        match apply_attrs(attrs, true) {
            Ok(n) => Ok(
                (
                    DispatcherView { current: EntityRef::Node(n.info.id), ..st },
                    seq![RecordView::Node(n)],
                ),
            ),
            Err(f) => Err(ConvertError::MalformedAttribute(f)),
        }
    } else if name == "way"@ {
        match apply_attrs(attrs, false) {
            Ok(n) => Ok(
                (
                    DispatcherView { current: EntityRef::Way(n.info.id), ..st },
                    seq![RecordView::Way(n.info)],
                ),
            ),
            Err(f) => Err(ConvertError::MalformedAttribute(f)),
        }
    } else if name == "relation"@ {
        match apply_attrs(attrs, false) {
            Ok(n) => Ok(
                (
                    DispatcherView { current: EntityRef::Relation(n.info.id), ..st },
                    seq![RecordView::Relation(n.info)],
                ),
            ),
            Err(f) => Err(ConvertError::MalformedAttribute(f)),
        }
    } else if name == "tag"@ {
        match (lookup(attrs, "k"@), lookup(attrs, "v"@)) {
            (Some(k), Some(v)) => match intern_step(st.tags, k) {
                None => Err(ConvertError::TooManyTags),
                Some((t, id, new)) => Ok(
                    (
                        DispatcherView { tags: t, ..st },
                        (if new {
                            seq![RecordView::Tag(id, k)]
                        } else {
                            Seq::empty()
                        }) + seq![RecordView::UsedTag(id, st.current, v)],
                    ),
                ),
            },
            _ => Ok((st, Seq::empty())),
        }
    } else if name == "nd"@ {
        match lookup(attrs, "ref"@) {
            None => Err(ConvertError::MissingAttribute(Field::Ref)),
            Some(r) => match read_i64(r) {
                None => Err(ConvertError::MalformedAttribute(Field::Ref)),
                Some(node_id) => Ok(
                    (
                        st,
                        seq![
                            RecordView::WayNode(
                                WayNode { way_id: st.current.spec_id(), node_id },
                            ),
                        ],
                    ),
                ),
            },
        }
    } else if name == "member"@ {
        match (lookup(attrs, "ref"@), lookup(attrs, "type"@)) {
            (None, _) => Err(ConvertError::MissingAttribute(Field::Ref)),
            (_, None) => Err(ConvertError::MissingAttribute(Field::Type)),
            (Some(r), Some(kind)) => match read_i64(r) {
                None => Err(ConvertError::MalformedAttribute(Field::Ref)),
                Some(id) => match member_ref(kind, id) {
                    None => Err(ConvertError::MalformedAttribute(Field::Type)),
                    Some(m) => Ok(
                        (
                            st,
                            seq![
                                RecordView::RelationMember(
                                    st.current.spec_id(),
                                    m,
                                    match lookup(attrs, "role"@) {
                                        Some(role) => role,
                                        None => Seq::empty(),
                                    },
                                ),
                            ],
                        ),
                    ),
                },
            },
        }
    } else {
        Ok((st, Seq::empty()))
    }
}

pub open spec fn record_views(rs: Seq<Record>) -> Seq<RecordView> {
    rs.map_values(|r: Record| r@)
}

/// The index of the last attribute named `key`.
fn find_attr(attrs: &Vec<Attr>, key: &str) -> (r: Option<usize>)
    ensures
        match lookup(attr_views(attrs@), key@) {
            None => r is None,
            Some(v) => r is Some && r->0 < attrs@.len() && attrs@[r->0 as int].value@ == v,
        },
{
    let ghost all = attr_views(attrs@);
    let mut found: Option<usize> = None;
    let mut i: usize = 0;
    while i < attrs.len()
        invariant
            i <= attrs@.len(),
            all == attr_views(attrs@),
            match lookup(all.take(i as int), key@) {
                None => found is None,
                Some(v) => found is Some && found->0 < i && attrs@[found->0 as int].value@ == v,
            },
        decreases attrs@.len() - i,
    {
        if same_text(attrs[i].name.as_str(), key) {
            found = Some(i);
        }
        assert(all.take(i + 1).drop_last() =~= all.take(i as int));
        assert(all.take(i + 1).last() == all[i as int]);
        i = i + 1;
    }
    assert(all.take(i as int) =~= all);
    found
}

proof fn lemma_error_stays(attrs: Seq<AttrView>, point: bool, i: int, f: Field)
    requires
        0 <= i <= attrs.len(),
        apply_attrs(attrs.take(i), point) == Err::<NodeView, Field>(f),
    ensures
        apply_attrs(attrs, point) == Err::<NodeView, Field>(f),
    decreases attrs.len() - i,
{
    if i < attrs.len() {
        assert(attrs.take(i + 1).drop_last() =~= attrs.take(i));
        lemma_error_stays(attrs, point, i + 1, f);
    } else {
        assert(attrs.take(i) =~= attrs);
    }
}

/// Builds an entity from its attributes, as `apply_attrs` does.
fn build_entity(attrs: &Vec<Attr>, point: bool) -> (r: Result<Node, ConvertError>)
    ensures
        match apply_attrs(attr_views(attrs@), point) {
            Ok(n) => r is Ok && r->Ok_0@ == n,
            Err(f) => r == Err::<Node, ConvertError>(ConvertError::MalformedAttribute(f)),
        },
{
    let ghost all = attr_views(attrs@);
    let mut node = Node::default();
    let mut i: usize = 0;
    assert(all.take(0) =~= Seq::<AttrView>::empty());
    while i < attrs.len()
        invariant
            i <= attrs@.len(),
            all == attr_views(attrs@),
            apply_attrs(all.take(i as int), point) == Ok::<NodeView, Field>(node@),
        decreases attrs@.len() - i,
    {
        let a = &attrs[i];
        assert(all.take(i + 1).drop_last() =~= all.take(i as int));
        assert(all.take(i + 1).last() == (a.name@, a.value@));
        let res = if point {
            node.set_attribute(a.name.clone(), a.value.clone())
        } else {
            node.main_info.set_attribute(a.name.clone(), a.value.clone())
        };
        match res {
            Err(e) => {
                proof {
                    let f = match e {
                        ConvertError::MalformedAttribute(f) => f,
                        _ => Field::Id,
                    };
                    lemma_error_stays(all, point, i + 1, f);
                }
                return Err(e);
            },
            Ok(_) => {},
        }
        i = i + 1;
    }
    assert(all.take(i as int) =~= all);
    Ok(node)
}

/// The producer: the tag names seen so far and the entity last opened.
pub struct Dispatcher {
    tags: TagInterner,
    current: EntityRef,
}

impl View for Dispatcher {
    type V = DispatcherView;

    closed spec fn view(&self) -> DispatcherView {
        DispatcherView { tags: self.tags@, current: self.current }
    }
}

impl Dispatcher {
    pub closed spec fn wf(&self) -> bool {
        self.tags.wf()
    }

    /// A producer that has seen nothing: no tag names, and the point with id
    /// 0 as the entity last opened.
    pub fn new() -> (r: Dispatcher)
        ensures
            r.wf(),
            r@ == (DispatcherView { tags: Seq::empty(), current: EntityRef::Node(0) }),
    {
        Dispatcher { tags: TagInterner::new(), current: EntityRef::Node(0) }
    }

    /// Handles one opened element, as `step` says.
    pub fn handle(&mut self, element: &Element) -> (r: Result<Vec<Record>, ConvertError>)
        requires
            old(self).wf(),
        ensures
            final(self).wf(),
            match step(old(self)@, element.name@, attr_views(element.attributes@)) {
                Ok((st, recs)) => r is Ok && final(self)@ == st && record_views(r->Ok_0@) == recs,
                Err(e) => r == Err::<Vec<Record>, ConvertError>(e),
            },
    {
        let name = element.name.as_str();
        let attrs = &element.attributes;
        let mut out: Vec<Record> = Vec::new();
        if same_text(name, "node") {
            let node = build_entity(attrs, true)?;
            self.current = EntityRef::Node(node.main_info.id);
            out.push(Record::Node(node));
        } else if same_text(name, "way") {
            let node = build_entity(attrs, false)?;
            self.current = EntityRef::Way(node.main_info.id);
            out.push(Record::Way(Way { main_info: node.main_info }));
        } else if same_text(name, "relation") {
            let node = build_entity(attrs, false)?;
            self.current = EntityRef::Relation(node.main_info.id);
            out.push(Record::Relation(Relation { main_info: node.main_info }));
        } else if same_text(name, "tag") {
            let k = find_attr(attrs, "k");
            let v = find_attr(attrs, "v");
            if let (Some(ki), Some(vi)) = (k, v) {
                let key = &attrs[ki].value;
                match self.tags.intern(key) {
                    None => {
                        return Err(ConvertError::TooManyTags);
                    },
                    Some((id, new)) => {
                        if new {
                            out.push(Record::Tag(Tag { id, name: key.clone() }));
                        }
                        out.push(
                            Record::UsedTag(
                                UsedTag { tag_id: id, value: attrs[vi].value.clone(), owner: self.current },
                            ),
                        );
                    },
                }
            }
        } else if same_text(name, "nd") {
            match find_attr(attrs, "ref") {
                None => {
                    return Err(ConvertError::MissingAttribute(Field::Ref));
                },
                Some(ri) => match parse_i64_text(attrs[ri].value.as_str()) {
                    None => {
                        return Err(ConvertError::MalformedAttribute(Field::Ref));
                    },
                    Some(node_id) => {
                        out.push(Record::WayNode(WayNode { way_id: self.current.id(), node_id }));
                    },
                },
            }
        } else if same_text(name, "member") {
            let r = find_attr(attrs, "ref");
            let t = find_attr(attrs, "type");
            let ri = match r {
                None => {
                    return Err(ConvertError::MissingAttribute(Field::Ref));
                },
                Some(ri) => ri,
            };
            let ti = match t {
                None => {
                    return Err(ConvertError::MissingAttribute(Field::Type));
                },
                Some(ti) => ti,
            };
            let id = match parse_i64_text(attrs[ri].value.as_str()) {
                None => {
                    return Err(ConvertError::MalformedAttribute(Field::Ref));
                },
                Some(id) => id,
            };
            let kind = attrs[ti].value.as_str();
            let member = if same_text(kind, "node") {
                EntityRef::Node(id)
            } else if same_text(kind, "way") {
                EntityRef::Way(id)
            } else if same_text(kind, "relation") {
                EntityRef::Relation(id)
            } else {
                return Err(ConvertError::MalformedAttribute(Field::Type));
            };
            let role = match find_attr(attrs, "role") {
                Some(oi) => attrs[oi].value.clone(),
                None => String::new(),
            };
            out.push(
                Record::RelationMember(
                    RelationMember { member, relation_id: self.current.id(), role },
                ),
            );
        }
        assert(record_views(out@) =~= match step(
            old(self)@,
            element.name@,
            attr_views(element.attributes@),
        ) {
            Ok((_, recs)) => recs,
            Err(_) => Seq::empty(),
        });
        Ok(out)
    }
}

} // verus!
