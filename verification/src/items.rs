//! The items of a bulk mutation of the graph store.

use crate::identifier::Identifier;
use vstd::prelude::*;

verus! {

/// One item of a bulk mutation.
#[derive(Debug)]
pub enum BulkInsertItem {
    /// Create the vertex with this id and type.
    Vertex(u128, Identifier),
    /// Create the edge from the first vertex to the second, of this type.
    Edge(u128, Identifier, u128),
    /// Set the property of this name on the vertex with this id to a JSON
    /// string of this text.
    VertexProperty(u128, Identifier, String),
}

/// A [`BulkInsertItem`] with its names and texts as sequences of characters.
pub enum ItemView {
    Vertex { id: u128, t: Seq<char> },
    Edge { outbound_id: u128, t: Seq<char>, inbound_id: u128 },
    VertexProperty { id: u128, name: Seq<char>, value: Seq<char> },
}

impl View for BulkInsertItem {
    type V = ItemView;

    open spec fn view(&self) -> ItemView {
        match *self {
            BulkInsertItem::Vertex(id, t) => ItemView::Vertex { id, t: t@ },
            BulkInsertItem::Edge(outbound_id, t, inbound_id) => ItemView::Edge {
                outbound_id,
                t: t@,
                inbound_id,
            },
            BulkInsertItem::VertexProperty(id, name, value) => ItemView::VertexProperty {
                id,
                name: name@,
                value: value@,
            },
        }
    }
}

impl Clone for BulkInsertItem {
    fn clone(&self) -> (copy: Self)
        ensures
            copy@ == self@,
    {
        match self {
            BulkInsertItem::Vertex(id, t) => BulkInsertItem::Vertex(*id, t.clone()),
            BulkInsertItem::Edge(outbound_id, t, inbound_id) => BulkInsertItem::Edge(
                *outbound_id,
                t.clone(),
                *inbound_id,
            ),
            BulkInsertItem::VertexProperty(id, name, value) => BulkInsertItem::VertexProperty(
                *id,
                name.clone(),
                value.clone(),
            ),
        }
    }
}

impl ItemView {
    /// The vertex that the item creates, if it creates one.
    pub open spec fn created_vertex(self) -> Option<u128> {
        match self {
            ItemView::Vertex { id, .. } => Some(id),
            _ => None,
        }
    }

    /// The vertex on which the item sets a property, if it sets one.
    pub open spec fn property_vertex(self) -> Option<u128> {
        match self {
            ItemView::VertexProperty { id, .. } => Some(id),
            _ => None,
        }
    }
}

/// Whether every item of `items` that sets a property comes after an item
/// that creates the vertex of that property.
pub open spec fn properties_follow_vertices(items: Seq<ItemView>) -> bool {
    forall|k: int|
        0 <= k < items.len() && (#[trigger] items[k]).property_vertex() is Some ==> exists|j: int|
            0 <= j < k && (#[trigger] items[j]).created_vertex() == items[k].property_vertex()
}

/// Whether every edge of `items` comes after every item that creates a
/// vertex.
pub open spec fn edges_follow_vertices(items: Seq<ItemView>) -> bool {
    forall|j: int, k: int|
        0 <= j < items.len() && 0 <= k < items.len() && (#[trigger] items[j]) is Vertex && (
        #[trigger] items[k]) is Edge ==> j < k
}

/// Whether every edge of `items` comes after an item that creates the vertex
/// it leaves and after an item that creates the vertex it leads to.
pub open spec fn edges_follow_ends(items: Seq<ItemView>) -> bool {
    forall|k: int|
        0 <= k < items.len() && (#[trigger] items[k]) is Edge ==> {
            &&& exists|j: int|
                0 <= j < k && (#[trigger] items[j]).created_vertex() == Some(
                    items[k]->outbound_id,
                )
            &&& exists|j: int|
                0 <= j < k && (#[trigger] items[j]).created_vertex() == Some(items[k]->inbound_id)
        }
}

/// Whether every property that `items` set has one of `names`.
pub open spec fn properties_among(items: Seq<ItemView>, names: Seq<Seq<char>>) -> bool {
    forall|k: int|
        0 <= k < items.len() && (#[trigger] items[k]) is VertexProperty ==> names.contains(
            items[k]->name,
        )
}

/// Items whose properties have some of `names`, put one after the other,
/// are such items again.
pub proof fn lemma_properties_among_add(
    front: Seq<ItemView>,
    back: Seq<ItemView>,
    names: Seq<Seq<char>>,
)
    requires
        properties_among(front, names),
        properties_among(back, names),
    ensures
        properties_among(front + back, names),
{
    let all = front + back;
    assert forall|k: int|
        0 <= k < all.len() && (#[trigger] all[k]) is VertexProperty implies names.contains(
        all[k]->name,
    ) by {
        if k < front.len() {
            assert(all[k] == front[k]);
        } else {
            assert(all[k] == back[k - front.len()]);
        }
    }
}

/// Whether `items` hold no edge.
pub open spec fn no_edges(items: Seq<ItemView>) -> bool {
    forall|k: int| 0 <= k < items.len() ==> !((#[trigger] items[k]) is Edge)
}

/// Items in which properties follow their vertices, put one after the
/// other, are such items again; and they hold no edge where neither part
/// does.
pub proof fn lemma_blocks_add(front: Seq<ItemView>, back: Seq<ItemView>)
    requires
        properties_follow_vertices(front),
        properties_follow_vertices(back),
    ensures
        properties_follow_vertices(front + back),
        no_edges(front) && no_edges(back) ==> no_edges(front + back),
{
    let all = front + back;
    assert forall|k: int|
        0 <= k < all.len() && (#[trigger] all[k]).property_vertex() is Some implies exists|j: int|
        0 <= j < k && (#[trigger] all[j]).created_vertex() == all[k].property_vertex() by {
        if k < front.len() {
            assert(all[k] == front[k]);
            let j = choose|j: int|
                0 <= j < k && (#[trigger] front[j]).created_vertex() == front[k].property_vertex();
            assert(all[j] == front[j]);
        } else {
            let at = k - front.len();
            assert(all[k] == back[at]);
            let j = choose|j: int|
                0 <= j < at && (#[trigger] back[j]).created_vertex() == back[at].property_vertex();
            assert(all[j + front.len()] == back[j]);
        }
    }
    if no_edges(front) && no_edges(back) {
        assert forall|k: int| 0 <= k < all.len() implies !((#[trigger] all[k]) is Edge) by {
            if k < front.len() {
                assert(all[k] == front[k]);
            } else {
                assert(all[k] == back[k - front.len()]);
            }
        }
    }
}

} // verus!
