//! Containers: the ordered children of a paragraph, a table cell, the
//! document's header or its body.

use vstd::prelude::*;
use crate::fodt_xml_write::{FlatOdtXmlWrite, OptionalAttributes};
use crate::image::Image;
use crate::paragraph::Paragraph;
use crate::table::Table;
use crate::text::Text;
use crate::xml_event::{
    events_view, lemma_well_nested_concat, lemma_well_nested_empty, well_nested, Event,
    EventView,
};

verus! {

/// One child of a container.
pub enum Node {
    Text(Text),
    Paragraph(Paragraph),
    Table(Table),
    Image(Image),
}

/// An ordered sequence of nodes that only grows.
pub struct Container {
    children: Vec<Node>,
}

/// The events of `nodes`, one node after the other, with nothing between
/// them and nothing around them.
pub open spec fn nodes_events(nodes: Seq<Node>) -> Seq<EventView>
    decreases nodes,
{
    if nodes.len() == 0 {
        Seq::empty()
    } else {
        nodes_events(nodes.drop_last()) + nodes.last().spec_events()
    }
}

/// The events of a run of well-formed fragments are a well-formed fragment.
pub proof fn lemma_nodes_well_nested(nodes: Seq<Node>)
    ensures
        well_nested(nodes_events(nodes)),
    decreases nodes,
{
    if nodes.len() == 0 {
        lemma_well_nested_empty();
    } else {
        lemma_nodes_well_nested(nodes.drop_last());
        nodes.last().lemma_well_nested();
        lemma_well_nested_concat(nodes_events(nodes.drop_last()), nodes.last().spec_events());
    }
}

/// The events of two runs of nodes in a row are the events of the first run
/// followed by those of the second.
pub proof fn lemma_nodes_events_concat(a: Seq<Node>, b: Seq<Node>)
    ensures
        nodes_events(a + b) == nodes_events(a) + nodes_events(b),
    decreases b.len(),
{
    if b.len() == 0 {
        assert(a + b =~= a);
        assert(nodes_events(a) + nodes_events(b) =~= nodes_events(a));
    } else {
        assert((a + b).drop_last() =~= a + b.drop_last());
        assert((a + b).last() == b.last());
        lemma_nodes_events_concat(a, b.drop_last());
        assert(nodes_events(a + b) =~= nodes_events(a) + nodes_events(b));
    }
}

/// Whatever was appended to a container, in whatever order: it emits the
/// fragment of each child once, in the order in which the children were
/// added, with nothing between them; each fragment is well formed, and so is
/// the whole, so that no element is left open at the end.
pub proof fn lemma_container_emits_fragments(container: Container, i: int)
    requires
        0 <= i < container@.len(),
    ensures
        container.spec_events() == nodes_events(container@.take(i)) + container@[i].spec_events()
            + nodes_events(container@.skip(i + 1)),
        well_nested(container@[i].spec_events()),
        well_nested(nodes_events(container@.take(i))),
        well_nested(container.spec_events()),
        crate::xml_event::depth(container.spec_events()) == 0,
{
    let nodes = container@;
    let head = nodes.take(i + 1);
    assert(nodes =~= head + nodes.skip(i + 1));
    lemma_nodes_events_concat(head, nodes.skip(i + 1));
    assert(head.drop_last() =~= nodes.take(i));
    assert(head.last() == nodes[i]);
    nodes[i].lemma_well_nested();
    lemma_nodes_well_nested(nodes.take(i));
    lemma_nodes_well_nested(nodes);
}

/// Appending a child adds its fragment after what the container emitted
/// before.
pub proof fn lemma_append_adds_fragment(nodes: Seq<Node>, child: Node)
    ensures
        nodes_events(nodes.push(child)) == nodes_events(nodes) + child.spec_events(),
{
    assert(nodes.push(child).drop_last() =~= nodes);
}

impl Node {
    /// The events that the node stands for.
    pub open spec fn spec_events(&self) -> Seq<EventView>
        decreases self,
    {
        match self {
            Node::Text(t) => t.spec_events(),
            Node::Paragraph(p) => p.spec_events(),
            Node::Table(t) => t.spec_events(),
            Node::Image(i) => i.spec_events(),
        }
    }

    /// A node emits a well-formed fragment.
    pub proof fn lemma_well_nested(&self)
        ensures
            well_nested(self.spec_events()),
        decreases self,
    {
        match self {
            Node::Text(t) => t.lemma_events_well_nested(),
            Node::Paragraph(p) => p.lemma_well_nested(),
            Node::Table(t) => t.lemma_well_nested(),
            Node::Image(i) => i.lemma_well_nested(),
        }
    }

    /// Appends the node's events to `writer`.
    pub fn write_events(&self, writer: &mut Vec<Event>)
        ensures
            events_view(final(writer)@) == events_view(old(writer)@) + self.spec_events(),
        decreases self,
    {
        match self {
            Node::Text(t) => t.write_flat_odt_xml(writer),
            Node::Paragraph(p) => p.write_events(writer),
            Node::Table(t) => t.write_events(writer),
            Node::Image(i) => i.write_flat_odt_xml(writer),
        }
    }
}

impl View for Container {
    type V = Seq<Node>;

    closed spec fn view(&self) -> Seq<Node> {
        self.children@
    }
}

impl Container {
    /// The events of the children, in the order in which they were added.
    pub open spec fn spec_events(&self) -> Seq<EventView>
        decreases self,
    {
        nodes_events(self@)
    }

    /// A container emits a well-formed fragment.
    pub proof fn lemma_well_nested(&self)
        ensures
            well_nested(self.spec_events()),
        decreases self,
    {
        lemma_nodes_well_nested(self@);
    }

    /// A container without children.
    pub fn new() -> (r: Container)
        ensures
            r@ == Seq::<Node>::empty(),
    {
        Container { children: Vec::new() }
    }

    /// Adds `child` after the children that are there: what the container
    /// emits is then what it emitted before, followed by the child's
    /// fragment.
    pub fn add(&mut self, child: Node)
        ensures
            final(self)@ == old(self)@.push(child),
            final(self).spec_events() == old(self).spec_events() + child.spec_events(),
    {
        self.children.push(child);
        proof {
            lemma_append_adds_fragment(old(self)@, child);
        }
    }

    /// The number of children.
    pub fn len(&self) -> (n: usize)
        ensures
            n == self@.len(),
    {
        self.children.len()
    }

    /// Appends the children's events to `writer`.
    pub fn write_events(&self, writer: &mut Vec<Event>)
        ensures
            events_view(final(writer)@) == events_view(old(writer)@) + self.spec_events(),
        decreases self,
    {
        let mut i: usize = 0;
        while i < self.children.len()
            invariant
                i <= self.children.len(),
                events_view(writer@) == events_view(old(writer)@) + nodes_events(
                    self@.take(i as int),
                ),
            decreases self.children.len() - i,
        {
            proof {
                assert(self@.take(i as int + 1).drop_last() =~= self@.take(i as int));
            }
            self.children[i].write_events(writer);
            i += 1;
        }
        assert(self@.take(self.children.len() as int) =~= self@);
    }
}

impl FlatOdtXmlWrite for Container {
    open spec fn events(&self) -> Seq<EventView> {
        self.spec_events()
    }

    open spec fn optional_attributes(&self) -> OptionalAttributes {
        Seq::empty()
    }

    proof fn lemma_events_well_nested(&self) {
        self.lemma_well_nested();
    }

    fn write_flat_odt_xml(&self, writer: &mut Vec<Event>) {
        self.write_events(writer);
    }

    fn optional_string_attributes(&self) -> (list: Vec<(&'static str, Option<&str>)>) {
        let list: Vec<(&'static str, Option<&str>)> = Vec::new();
        assert(crate::fodt_xml_write::optional_view(list@) =~= Seq::empty());
        list
    }
}

} // verus!
