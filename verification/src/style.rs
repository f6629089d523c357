//! Styles: a named family member with optional links to other styles and,
//! for each property group, a bag of attributes.

use vstd::prelude::*;
use crate::decimal::{decimal_text, u32_to_string};
use crate::fodt_xml_write::{
    optional_view, present_attributes, FlatOdtXmlWrite, OptionalAttributes,
};
use crate::strings::{as_deref, joined, option_string, str_eq};
use crate::xml_event::{
    attributes_view, events_view, lemma_well_nested_concat, lemma_well_nested_element,
    lemma_well_nested_empty, push_attribute, push_event, well_nested, Attribute, AttributeView,
    Event, EventView,
};

verus! {

// ============================================================================
// Style families
// ============================================================================

/// What kind of thing a style applies to.
#[derive(Debug, Clone, Copy, PartialEq, Eq, Hash, Structural)]
pub enum StyleFamily {
    Paragraph,
    Text,
    Table,
    TableColumn,
    TableRow,
    TableCell,
}

impl StyleFamily {
    /// The family's name in a document.
    pub open spec fn spec_name(self) -> Seq<char> {
        match self {
            StyleFamily::Paragraph => "paragraph"@,
            StyleFamily::Text => "text"@,
            StyleFamily::Table => "table"@,
            StyleFamily::TableColumn => "table-column"@,
            StyleFamily::TableRow => "table-row"@,
            StyleFamily::TableCell => "table-cell"@,
        }
    }

    /// The family that `name` names, if it names one.
    pub open spec fn spec_from_name(name: Seq<char>) -> Option<StyleFamily> {
        if name == "paragraph"@ {
            Some(StyleFamily::Paragraph)
        } else if name == "text"@ {
            Some(StyleFamily::Text)
        } else if name == "table"@ {
            Some(StyleFamily::Table)
        } else if name == "table-column"@ {
            Some(StyleFamily::TableColumn)
        } else if name == "table-row"@ {
            Some(StyleFamily::TableRow)
        } else if name == "table-cell"@ {
            Some(StyleFamily::TableCell)
        } else {
            None
        }
    }

    /// The family's name in a document.
    pub fn as_str(&self) -> (name: &'static str)
        ensures
            name@ == self.spec_name(),
    {
        match self {
            StyleFamily::Paragraph => "paragraph",
            StyleFamily::Text => "text",
            StyleFamily::Table => "table",
            StyleFamily::TableColumn => "table-column",
            StyleFamily::TableRow => "table-row",
            StyleFamily::TableCell => "table-cell",
        }
    }

    /// The family that `name` names, if it names one.
    pub fn from_name(name: &str) -> (r: Option<StyleFamily>)
        ensures
            r == StyleFamily::spec_from_name(name@),
    {
        if str_eq(name, "paragraph") {
            Some(StyleFamily::Paragraph)
        } else if str_eq(name, "text") {
            Some(StyleFamily::Text)
        } else if str_eq(name, "table") {
            Some(StyleFamily::Table)
        } else if str_eq(name, "table-column") {
            Some(StyleFamily::TableColumn)
        } else if str_eq(name, "table-row") {
            Some(StyleFamily::TableRow)
        } else if str_eq(name, "table-cell") {
            Some(StyleFamily::TableCell)
        } else {
            None
        }
    }

    /// Each family is found again by its name, and a name names at most the
    /// family that bears it.
    pub proof fn lemma_name_round_trip(self)
        ensures
            StyleFamily::spec_from_name(self.spec_name()) == Some(self),
    {
        reveal_strlit("paragraph");
        reveal_strlit("text");
        reveal_strlit("table");
        reveal_strlit("table-column");
        reveal_strlit("table-row");
        reveal_strlit("table-cell");
        assert("paragraph"@.len() == 9 && "paragraph"@[0] == 'p');
        assert("text"@.len() == 4);
        assert("table"@.len() == 5);
        assert("table-column"@.len() == 12);
        assert("table-row"@.len() == 9 && "table-row"@[0] == 't');
        assert("table-cell"@.len() == 10);
    }

    /// A name that names a family is that family's name.
    pub proof fn lemma_from_name_is_name(name: Seq<char>)
        ensures
            StyleFamily::spec_from_name(name) matches Some(family) ==> family.spec_name() == name,
    {
    }
}

// ============================================================================
// Property groups
// ============================================================================

/// The groups in which a style keeps its properties. The order of the
/// variants is the order in which the groups are written.
#[derive(Debug, Clone, Copy, PartialEq, Eq, Hash, Structural)]
pub enum StylePropertyGroup {
    ParagraphProperties,
    TextProperties,
    TableProperties,
    TableColumnProperties,
    TableRowProperties,
    TableCellProperties,
}

/// All property groups, in the order in which they are declared.
pub open spec fn canonical_groups() -> Seq<StylePropertyGroup> {
    seq![
        StylePropertyGroup::ParagraphProperties,
        StylePropertyGroup::TextProperties,
        StylePropertyGroup::TableProperties,
        StylePropertyGroup::TableColumnProperties,
        StylePropertyGroup::TableRowProperties,
        StylePropertyGroup::TableCellProperties,
    ]
}

impl StylePropertyGroup {
    /// The group's name in a style declaration.
    pub open spec fn spec_name(self) -> Seq<char> {
        match self {
            StylePropertyGroup::ParagraphProperties => "paragraph-properties"@,
            StylePropertyGroup::TextProperties => "text-properties"@,
            StylePropertyGroup::TableProperties => "table-properties"@,
            StylePropertyGroup::TableColumnProperties => "table-column-properties"@,
            StylePropertyGroup::TableRowProperties => "table-row-properties"@,
            StylePropertyGroup::TableCellProperties => "table-cell-properties"@,
        }
    }

    /// The name of the element that holds the group's properties.
    pub open spec fn spec_tag(self) -> Seq<char> {
        "style:"@ + self.spec_name()
    }

    /// The group's name in a style declaration.
    pub fn as_str(&self) -> (name: &'static str)
        ensures
            name@ == self.spec_name(),
    {
        match self {
            StylePropertyGroup::ParagraphProperties => "paragraph-properties",
            StylePropertyGroup::TextProperties => "text-properties",
            StylePropertyGroup::TableProperties => "table-properties",
            StylePropertyGroup::TableColumnProperties => "table-column-properties",
            StylePropertyGroup::TableRowProperties => "table-row-properties",
            StylePropertyGroup::TableCellProperties => "table-cell-properties",
        }
    }

    /// All groups, in the order in which they are declared.
    pub fn all() -> (groups: Vec<StylePropertyGroup>)
        ensures
            groups@ == canonical_groups(),
    {
        let mut groups: Vec<StylePropertyGroup> = Vec::new();
        groups.push(StylePropertyGroup::ParagraphProperties);
        groups.push(StylePropertyGroup::TextProperties);
        groups.push(StylePropertyGroup::TableProperties);
        groups.push(StylePropertyGroup::TableColumnProperties);
        groups.push(StylePropertyGroup::TableRowProperties);
        groups.push(StylePropertyGroup::TableCellProperties);
        assert(groups@ =~= canonical_groups());
        groups
    }

    /// Every group stands in the canonical order, once.
    pub proof fn lemma_canonical_complete(self)
        ensures
            exists|i: int|
                0 <= i < canonical_groups().len() && #[trigger] canonical_groups()[i] == self,
            forall|i: int, j: int|
                0 <= i < j < canonical_groups().len() ==> canonical_groups()[i]
                    != canonical_groups()[j],
    {
        let all = canonical_groups();
        match self {
            StylePropertyGroup::ParagraphProperties => assert(all[0] == self),
            StylePropertyGroup::TextProperties => assert(all[1] == self),
            StylePropertyGroup::TableProperties => assert(all[2] == self),
            StylePropertyGroup::TableColumnProperties => assert(all[3] == self),
            StylePropertyGroup::TableRowProperties => assert(all[4] == self),
            StylePropertyGroup::TableCellProperties => assert(all[5] == self),
        }
    }
}

// ============================================================================
// Property bags
// ============================================================================

/// One tab stop of a paragraph.
#[derive(Debug, PartialEq, Eq)]
pub struct TabStop {
    pub position: String,
    pub type_: Option<String>,
}

/// The mathematical value of a [`TabStop`].
pub struct TabStopView {
    pub position: Seq<char>,
    pub type_: Option<Seq<char>>,
}

impl View for TabStop {
    type V = TabStopView;

    open spec fn view(&self) -> TabStopView {
        TabStopView { position: self.position@, type_: option_string(self.type_) }
    }
}

/// The views of a sequence of tab stops, in order.
pub open spec fn tab_stops_view(stops: Seq<TabStop>) -> Seq<TabStopView> {
    stops.map_values(|t: TabStop| t@)
}

/// No two attributes bear the same name.
pub open spec fn unique_names(attributes: Seq<AttributeView>) -> bool {
    forall|i: int, j: int|
        0 <= i < j < attributes.len() ==> (#[trigger] attributes[i]).name != (
        #[trigger] attributes[j]).name
}

/// Some attribute bears the name `name`.
pub open spec fn has_name(attributes: Seq<AttributeView>, name: Seq<char>) -> bool {
    exists|i: int| 0 <= i < attributes.len() && (#[trigger] attributes[i]).name == name
}

/// `attributes` with `name` set to `value`: in the place where `name` stood,
/// or at the end if it did not stand anywhere.
pub open spec fn set_attribute(
    attributes: Seq<AttributeView>,
    name: Seq<char>,
    value: Seq<char>,
) -> Seq<AttributeView> {
    if has_name(attributes, name) {
        attributes.map_values(
            |a: AttributeView|
                if a.name == name {
                    AttributeView { name, value }
                } else {
                    a
                },
        )
    } else {
        attributes.push(AttributeView { name, value })
    }
}

/// The value that `attributes` gives to `name`, if any.
pub open spec fn value_of(attributes: Seq<AttributeView>, name: Seq<char>) -> Option<Seq<char>> {
    if has_name(attributes, name) {
        let i = choose|i: int| 0 <= i < attributes.len() && (#[trigger] attributes[i]).name == name;
        Some(attributes[i].value)
    } else {
        None
    }
}

/// Setting a name keeps the names unique, gives that name the new value and
/// every other name the value it had.
pub proof fn lemma_set_attribute(
    attributes: Seq<AttributeView>,
    name: Seq<char>,
    value: Seq<char>,
    other: Seq<char>,
)
    requires
        unique_names(attributes),
    ensures
        unique_names(set_attribute(attributes, name, value)),
        value_of(set_attribute(attributes, name, value), name) == Some(value),
        other != name ==> value_of(set_attribute(attributes, name, value), other) == value_of(
            attributes,
            other,
        ),
{
    let after = set_attribute(attributes, name, value);
    assert forall|i: int| 0 <= i < after.len() && i < attributes.len() implies (#[trigger] after[i]).name
        == attributes[i].name by {}
    if has_name(attributes, name) {
        let w = choose|i: int| 0 <= i < attributes.len() && (#[trigger] attributes[i]).name == name;
        assert(after[w].name == name);
        let c = choose|i: int| 0 <= i < after.len() && (#[trigger] after[i]).name == name;
        assert(after[c].value == value);
    } else {
        assert(after[attributes.len() as int].name == name);
        let c = choose|i: int| 0 <= i < after.len() && (#[trigger] after[i]).name == name;
        assert(c == attributes.len()) by {
            if c < attributes.len() {
                assert(attributes[c].name == name);
            }
        }
    }
    assert(unique_names(after)) by {
        assert forall|i: int, j: int| 0 <= i < j < after.len() implies (#[trigger] after[i]).name != (
        #[trigger] after[j]).name by {
            if j < attributes.len() {
                assert(attributes[i].name != attributes[j].name);
            } else {
                assert(attributes[i].name != name);
            }
        }
    }
    if other != name {
        if has_name(attributes, other) {
            let w = choose|i: int| 0 <= i < attributes.len() && (#[trigger] attributes[i]).name == other;
            assert(after[w].name == other);
            assert(after[w].value == attributes[w].value);
            let c = choose|i: int| 0 <= i < after.len() && (#[trigger] after[i]).name == other;
            assert(c < attributes.len());
            assert(attributes[c].name == other);
            if c != w {
                if c < w {
                    assert(attributes[c].name != attributes[w].name);
                } else {
                    assert(attributes[w].name != attributes[c].name);
                }
            }
        } else {
            if has_name(after, other) {
                let c = choose|i: int| 0 <= i < after.len() && (#[trigger] after[i]).name == other;
                if c < attributes.len() {
                    assert(attributes[c].name == other);
                }
            }
        }
    }
}

/// The mathematical value of a [`StyleItem`].
pub struct StyleItemView {
    /// The simple attributes, each name once, in the order in which the
    /// names were first set.
    pub attributes: Seq<AttributeView>,
    /// The tab stops, in the order in which they were added.
    pub tab_stops: Seq<TabStopView>,
}

/// The properties of one group: simple attributes, each name once, and a
/// list of tab stops.
pub struct StyleItem {
    simple_attributes: Vec<Attribute>,
    tab_stops: Vec<TabStop>,
}

impl View for StyleItem {
    type V = StyleItemView;

    closed spec fn view(&self) -> StyleItemView {
        StyleItemView {
            attributes: attributes_view(self.simple_attributes@),
            tab_stops: tab_stops_view(self.tab_stops@),
        }
    }
}

impl Default for StyleItem {
    /// A bag without attributes and without tab stops.
    fn default() -> (r: StyleItem)
        ensures
            r@.attributes == Seq::<AttributeView>::empty(),
            r@.tab_stops == Seq::<TabStopView>::empty(),
    {
        let r = StyleItem { simple_attributes: Vec::new(), tab_stops: Vec::new() };
        assert(r@.attributes =~= Seq::<AttributeView>::empty());
        assert(r@.tab_stops =~= Seq::<TabStopView>::empty());
        r
    }
}

impl StyleItem {
    #[verifier::type_invariant]
    spec fn names_are_unique(&self) -> bool {
        unique_names(attributes_view(self.simple_attributes@))
    }

    /// Sets the attribute `key` to `value`. A value that `key` had is
    /// replaced where it stood; a new key comes last.
    pub fn set(&mut self, key: &str, value: &str)
        ensures
            final(self)@.attributes == set_attribute(old(self)@.attributes, key@, value@),
            final(self)@.tab_stops == old(self)@.tab_stops,
            unique_names(old(self)@.attributes),
            unique_names(final(self)@.attributes),
    {
        proof {
            use_type_invariant(&*self);
            lemma_set_attribute(old(self)@.attributes, key@, value@, key@);
        }
        let ghost before = attributes_view(self.simple_attributes@);
        let mut list: Vec<Attribute> = Vec::new();
        assert(attributes_view(list@) =~= Seq::<AttributeView>::empty());
        core::mem::swap(&mut list, &mut self.simple_attributes);
        let mut found = false;
        let mut i: usize = 0;
        while i < list.len() && !found
            invariant
                i <= list.len(),
                before == attributes_view(list@),
                !found ==> forall|k: int| 0 <= k < i ==> (#[trigger] before[k]).name != key@,
                found ==> i < list.len() && before[i as int].name == key@,
            decreases list.len() - i, (if found { 0int } else { 1int }),
        {
            if str_eq(list[i].name.as_str(), key) {
                found = true;
            } else {
                i += 1;
            }
        }
        let attribute = Attribute::new(key, value);
        if found {
            list.set(i, attribute);
            assert(attributes_view(list@) =~= set_attribute(before, key@, value@)) by {
                let after = attributes_view(list@);
                assert forall|k: int| 0 <= k < before.len() implies after[k] == (if before[k].name
                    == key@ {
                    AttributeView { name: key@, value: value@ }
                } else {
                    before[k]
                }) by {
                    if k != i {
                        if k < i {
                            assert(before[k].name != before[i as int].name);
                        } else {
                            assert(before[i as int].name != before[k].name);
                        }
                    }
                }
            }
        } else {
            assert(!has_name(before, key@));
            list.push(attribute);
            assert(attributes_view(list@) =~= before.push(attribute@));
        }
        self.simple_attributes = list;
    }

    /// Adds `tab_stop` after the tab stops that are there.
    pub fn add_tab_stop(&mut self, tab_stop: TabStop)
        ensures
            final(self)@.tab_stops == old(self)@.tab_stops.push(tab_stop@),
            final(self)@.attributes == old(self)@.attributes,
    {
        proof {
            use_type_invariant(&*self);
        }
        let mut stops: Vec<TabStop> = Vec::new();
        core::mem::swap(&mut stops, &mut self.tab_stops);
        stops.push(tab_stop);
        assert(tab_stops_view(stops@) =~= tab_stops_view(old(self).tab_stops@).push(tab_stop@));
        self.tab_stops = stops;
    }

    /// The value of the attribute `key`, if it is set.
    pub fn get(&self, key: &str) -> (r: Option<&str>)
        ensures
            crate::strings::option_text(r) == value_of(self@.attributes, key@),
    {
        proof {
            use_type_invariant(self);
        }
        let ghost all = attributes_view(self.simple_attributes@);
        let mut i: usize = 0;
        while i < self.simple_attributes.len()
            invariant
                i <= self.simple_attributes.len(),
                all == attributes_view(self.simple_attributes@),
                unique_names(all),
                forall|k: int| 0 <= k < i ==> (#[trigger] all[k]).name != key@,
            decreases self.simple_attributes.len() - i,
        {
            if str_eq(self.simple_attributes[i].name.as_str(), key) {
                proof {
                    assert(all[i as int].name == key@);
                    let c = choose|k: int| 0 <= k < all.len() && (#[trigger] all[k]).name == key@;
                    assert(c == i) by {
                        if c < i {
                            assert(all[c].name != all[i as int].name);
                        } else if i < c {
                            assert(all[i as int].name != all[c].name);
                        }
                    }
                }
                return Some(self.simple_attributes[i].value.as_str());
            }
            i += 1;
        }
        None
    }

    /// A copy of the simple attributes, in their order.
    pub fn attributes(&self) -> (list: Vec<Attribute>)
        ensures
            attributes_view(list@) == self@.attributes,
            unique_names(self@.attributes),
    {
        proof {
            use_type_invariant(self);
        }
        let mut list: Vec<Attribute> = Vec::new();
        let mut i: usize = 0;
        while i < self.simple_attributes.len()
            invariant
                i <= self.simple_attributes.len(),
                attributes_view(list@) == attributes_view(self.simple_attributes@).take(i as int),
            decreases self.simple_attributes.len() - i,
        {
            let a = &self.simple_attributes[i];
            push_attribute(&mut list, a.name.as_str(), a.value.as_str());
            assert(attributes_view(list@) =~= attributes_view(self.simple_attributes@).take(
                i as int + 1,
            ));
            i += 1;
        }
        assert(attributes_view(self.simple_attributes@).take(self.simple_attributes.len() as int)
            =~= attributes_view(self.simple_attributes@));
        list
    }

    /// The number of tab stops.
    pub fn tab_stop_count(&self) -> (n: usize)
        ensures
            n == self@.tab_stops.len(),
    {
        self.tab_stops.len()
    }

    /// The tab stop at `index`.
    pub fn tab_stop(&self, index: usize) -> (stop: &TabStop)
        requires
            index < self@.tab_stops.len(),
        ensures
            stop@ == self@.tab_stops[index as int],
    {
        &self.tab_stops[index]
    }
}

// ============================================================================
// Styles
// ============================================================================

/// The property bags of a style: at most one for each group.
pub struct StyleProperties {
    paragraph: Option<StyleItem>,
    text: Option<StyleItem>,
    table: Option<StyleItem>,
    table_column: Option<StyleItem>,
    table_row: Option<StyleItem>,
    table_cell: Option<StyleItem>,
}

impl View for StyleProperties {
    type V = Map<StylePropertyGroup, StyleItemView>;

    /// The groups that have a bag, each with the value of its bag.
    open spec fn view(&self) -> Map<StylePropertyGroup, StyleItemView> {
        Map::new(
            |group: StylePropertyGroup| self.item(group) is Some,
            |group: StylePropertyGroup| self.item(group)->0@,
        )
    }
}

impl StyleProperties {
    /// The bag of `group`, if the group has one.
    pub closed spec fn item(&self, group: StylePropertyGroup) -> Option<StyleItem> {
        match group {
            StylePropertyGroup::ParagraphProperties => self.paragraph,
            StylePropertyGroup::TextProperties => self.text,
            StylePropertyGroup::TableProperties => self.table,
            StylePropertyGroup::TableColumnProperties => self.table_column,
            StylePropertyGroup::TableRowProperties => self.table_row,
            StylePropertyGroup::TableCellProperties => self.table_cell,
        }
    }

    /// No group has a bag.
    pub fn new() -> (r: StyleProperties)
        ensures
            forall|group: StylePropertyGroup| r.item(group) is None,
            r@ == Map::<StylePropertyGroup, StyleItemView>::empty(),
    {
        let r = StyleProperties {
            paragraph: None,
            text: None,
            table: None,
            table_column: None,
            table_row: None,
            table_cell: None,
        };
        assert(r@ =~= Map::<StylePropertyGroup, StyleItemView>::empty());
        r
    }

    /// Gives `group` the bag `item` and returns the bag that it had. The
    /// other groups keep theirs.
    pub fn insert(&mut self, group: StylePropertyGroup, item: StyleItem) -> (previous: Option<
        StyleItem,
    >)
        ensures
            previous == old(self).item(group),
            final(self).item(group) == Some(item),
            forall|other: StylePropertyGroup|
                other != group ==> final(self).item(other) == old(self).item(other),
            final(self)@ == old(self)@.insert(group, item@),
    {
        let previous = match group {
            StylePropertyGroup::ParagraphProperties => {
                let p = self.paragraph.take();
                self.paragraph = Some(item);
                p
            },
            StylePropertyGroup::TextProperties => {
                let p = self.text.take();
                self.text = Some(item);
                p
            },
            StylePropertyGroup::TableProperties => {
                let p = self.table.take();
                self.table = Some(item);
                p
            },
            StylePropertyGroup::TableColumnProperties => {
                let p = self.table_column.take();
                self.table_column = Some(item);
                p
            },
            StylePropertyGroup::TableRowProperties => {
                let p = self.table_row.take();
                self.table_row = Some(item);
                p
            },
            StylePropertyGroup::TableCellProperties => {
                let p = self.table_cell.take();
                self.table_cell = Some(item);
                p
            },
        };
        assert(self@ =~= old(self)@.insert(group, item@));
        previous
    }

    /// The bag of `group`, if the group has one.
    pub fn get(&self, group: StylePropertyGroup) -> (r: Option<&StyleItem>)
        ensures
            match r {
                Some(item) => self.item(group) == Some(*item),
                None => self.item(group) is None,
            },
    {
        match group {
            StylePropertyGroup::ParagraphProperties => self.paragraph.as_ref(),
            StylePropertyGroup::TextProperties => self.text.as_ref(),
            StylePropertyGroup::TableProperties => self.table.as_ref(),
            StylePropertyGroup::TableColumnProperties => self.table_column.as_ref(),
            StylePropertyGroup::TableRowProperties => self.table_row.as_ref(),
            StylePropertyGroup::TableCellProperties => self.table_cell.as_ref(),
        }
    }
}

/// The element of one property group: its simple attributes and no content.
/// Nothing where the group has no bag. Tab stops are kept in the bag and not
/// written.
pub open spec fn group_events(
    properties: Map<StylePropertyGroup, StyleItemView>,
    group: StylePropertyGroup,
) -> Seq<EventView> {
    if properties.contains_key(group) {
        seq![
            EventView::Start { name: group.spec_tag(), attributes: properties[group].attributes },
            EventView::End,
        ]
    } else {
        Seq::empty()
    }
}

/// The elements of `groups`, in the order of `groups`.
pub open spec fn groups_events(
    properties: Map<StylePropertyGroup, StyleItemView>,
    groups: Seq<StylePropertyGroup>,
) -> Seq<EventView>
    decreases groups.len(),
{
    if groups.len() == 0 {
        Seq::empty()
    } else {
        groups_events(properties, groups.drop_last()) + group_events(properties, groups.last())
    }
}

/// The elements of property groups are a well-formed fragment.
pub proof fn lemma_groups_well_nested(
    properties: Map<StylePropertyGroup, StyleItemView>,
    groups: Seq<StylePropertyGroup>,
)
    ensures
        well_nested(groups_events(properties, groups)),
    decreases groups.len(),
{
    if groups.len() == 0 {
        lemma_well_nested_empty();
    } else {
        lemma_groups_well_nested(properties, groups.drop_last());
        let group = groups.last();
        lemma_well_nested_empty();
        if properties.contains_key(group) {
            lemma_well_nested_element(
                group.spec_tag(),
                properties[group].attributes,
                Seq::<EventView>::empty(),
            );
            assert(group_events(properties, group) =~= seq![
                EventView::Start {
                    name: group.spec_tag(),
                    attributes: properties[group].attributes,
                },
            ] + Seq::<EventView>::empty() + seq![EventView::End]);
        }
        lemma_well_nested_concat(
            groups_events(properties, groups.drop_last()),
            group_events(properties, group),
        );
    }
}

/// The attribute that gives a style's default outline level: none where no
/// level is set.
pub open spec fn outline_attribute(level: Option<u8>) -> Seq<AttributeView> {
    match level {
        Some(l) => seq![
            AttributeView { name: "style:default-outline-level"@, value: decimal_text(l as nat) },
        ],
        None => Seq::empty(),
    }
}

/// A style to be used in a stylesheet.
pub struct Style {
    name: String,
    pub family: StyleFamily,
    pub automatic: bool,
    pub parent_style_name: Option<String>,
    pub next_style_name: Option<String>,
    pub display_name: Option<String>,
    pub class: Option<String>,
    pub default_outline_level: Option<u8>,
    pub properties: StyleProperties,
}

/// The mathematical value of a [`Style`].
pub struct StyleView {
    pub name: Seq<char>,
    pub family: StyleFamily,
    pub automatic: bool,
    pub parent_style_name: Option<Seq<char>>,
    pub next_style_name: Option<Seq<char>>,
    pub display_name: Option<Seq<char>>,
    pub class: Option<Seq<char>>,
    pub default_outline_level: Option<u8>,
    pub properties: Map<StylePropertyGroup, StyleItemView>,
}

impl View for Style {
    type V = StyleView;

    closed spec fn view(&self) -> StyleView {
        StyleView {
            name: self.name@,
            family: self.family,
            automatic: self.automatic,
            parent_style_name: option_string(self.parent_style_name),
            next_style_name: option_string(self.next_style_name),
            display_name: option_string(self.display_name),
            class: option_string(self.class),
            default_outline_level: self.default_outline_level,
            properties: self.properties@,
        }
    }
}

impl StyleView {
    /// The optional attributes of a style, in the order in which they are
    /// written: parent, display name, next style, class.
    pub open spec fn optional_attributes(self) -> OptionalAttributes {
        seq![
            ("style:parent-style-name"@, self.parent_style_name),
            ("style:display-name"@, self.display_name),
            ("style:next-style-name"@, self.next_style_name),
            ("style:class"@, self.class),
        ]
    }

    /// All attributes of the style's element: name, family, the optional
    /// attributes that are set, then the default outline level if it is set.
    pub open spec fn attributes(self) -> Seq<AttributeView> {
        seq![
            AttributeView { name: "style:name"@, value: self.name },
            AttributeView { name: "style:family"@, value: self.family.spec_name() },
        ] + present_attributes(self.optional_attributes()) + outline_attribute(
            self.default_outline_level,
        )
    }

    /// A `style:style` element around one empty element for each property
    /// group that has a bag, in the canonical order of the groups.
    pub open spec fn events(self) -> Seq<EventView> {
        seq![EventView::Start { name: "style:style"@, attributes: self.attributes() }]
            + groups_events(self.properties, canonical_groups()) + seq![EventView::End]
    }

    /// A style emits a well-formed fragment.
    pub proof fn lemma_well_nested(self)
        ensures
            well_nested(self.events()),
    {
        lemma_groups_well_nested(self.properties, canonical_groups());
        lemma_well_nested_element(
            "style:style"@,
            self.attributes(),
            groups_events(self.properties, canonical_groups()),
        );
    }
}

impl Style {
    /// A style called `name` of the given family: not automatic, with no
    /// link to another style and no properties.
    pub fn new(name: String, family: StyleFamily) -> (r: Style)
        ensures
            r@ == (StyleView {
                name: name@,
                family,
                automatic: false,
                parent_style_name: None,
                next_style_name: None,
                display_name: None,
                class: None,
                default_outline_level: None,
                properties: Map::empty(),
            }),
    {
        Style {
            name,
            family,
            parent_style_name: None,
            next_style_name: None,
            display_name: None,
            default_outline_level: None,
            properties: StyleProperties::new(),
            automatic: false,
            class: None,
        }
    }

    /// The style's name.
    pub fn name(&self) -> (name: &str)
        ensures
            name@ == self@.name,
    {
        self.name.as_str()
    }

    /// The style whose value is `view`, with the given property bags.
    pub fn with_fields(
        name: String,
        family: StyleFamily,
        automatic: bool,
        parent_style_name: Option<String>,
        next_style_name: Option<String>,
        display_name: Option<String>,
        class: Option<String>,
        default_outline_level: Option<u8>,
        properties: StyleProperties,
    ) -> (r: Style)
        ensures
            r@ == (StyleView {
                name: name@,
                family,
                automatic,
                parent_style_name: option_string(parent_style_name),
                next_style_name: option_string(next_style_name),
                display_name: option_string(display_name),
                class: option_string(class),
                default_outline_level,
                properties: properties@,
            }),
    {
        Style {
            name,
            family,
            automatic,
            parent_style_name,
            next_style_name,
            display_name,
            class,
            default_outline_level,
            properties,
        }
    }

    /// Whether the style is automatic.
    pub fn is_automatic(&self) -> (r: bool)
        ensures
            r == self@.automatic,
    {
        self.automatic
    }
}

impl FlatOdtXmlWrite for Style {
    open spec fn events(&self) -> Seq<EventView> {
        self@.events()
    }

    open spec fn optional_attributes(&self) -> OptionalAttributes {
        self@.optional_attributes()
    }

    proof fn lemma_events_well_nested(&self) {
        self@.lemma_well_nested();
    }

    fn write_flat_odt_xml(&self, writer: &mut Vec<Event>) {
        // Top-level element
        let mut attributes: Vec<Attribute> = Vec::new();
        push_attribute(&mut attributes, "style:name", self.name.as_str());
        push_attribute(&mut attributes, "style:family", self.family.as_str());
        // Optional string attributes
        self.add_optional_string_attributes(&mut attributes);
        if let Some(level) = self.default_outline_level {
            let text = u32_to_string(level as u32);
            push_attribute(&mut attributes, "style:default-outline-level", text.as_str());
        }
        assert(attributes_view(attributes@) =~= self@.attributes());
        push_event(writer, Event::start("style:style", attributes));
        // Properties
        let ghost opened = events_view(writer@);
        let groups = StylePropertyGroup::all();
        let mut i: usize = 0;
        while i < groups.len()
            invariant
                i <= groups.len(),
                groups@ == canonical_groups(),
                events_view(writer@) == opened + groups_events(
                    self@.properties,
                    groups@.take(i as int),
                ),
            decreases groups.len() - i,
        {
            proof {
                assert(groups@.take(i as int + 1).drop_last() =~= groups@.take(i as int));
            }
            let group = groups[i];
            if let Some(item) = self.properties.get(group) {
                let tag = joined("style:", group.as_str());
                push_event(writer, Event::start(tag.as_str(), item.attributes()));
                push_event(writer, Event::EndElement);
            }
            assert(events_view(writer@) =~= opened + groups_events(
                self@.properties,
                groups@.take(i as int + 1),
            ));
            i += 1;
        }
        assert(groups@.take(groups.len() as int) =~= groups@);
        push_event(writer, Event::EndElement);
        assert(events_view(writer@) =~= events_view(old(writer)@) + self@.events());
    }

    fn optional_string_attributes(&self) -> (list: Vec<(&'static str, Option<&str>)>) {
        let mut list: Vec<(&'static str, Option<&str>)> = Vec::new();
        list.push(("style:parent-style-name", as_deref(&self.parent_style_name)));
        list.push(("style:display-name", as_deref(&self.display_name)));
        list.push(("style:next-style-name", as_deref(&self.next_style_name)));
        list.push(("style:class", as_deref(&self.class)));
        assert(optional_view(list@) =~= self@.optional_attributes());
        list
    }
}

} // verus!
