//! Tables: columns, rows and cells.

use vstd::prelude::*;
use crate::container::{Container, Node};
use crate::decimal::{decimal_text, u32_to_string};
use crate::fodt_xml_write::{
    optional_view, present_attributes, push_present_attributes, FlatOdtXmlWrite,
    OptionalAttributes,
};
use crate::strings::{as_deref, option_string, owned};
use crate::xml_event::{
    attributes_view, events_view, lemma_well_nested_concat, lemma_well_nested_element,
    lemma_well_nested_empty, push_attribute, push_event, well_nested, Attribute, AttributeView,
    Event, EventView,
};

verus! {

/// The attribute that says how often a column or a row is repeated: none
/// where no count is set.
pub open spec fn repeat_attribute(name: Seq<char>, count: Option<u32>) -> Seq<AttributeView> {
    match count {
        Some(n) => seq![AttributeView { name, value: decimal_text(n as nat) }],
        None => Seq::empty(),
    }
}

/// Appends the repeat attribute, if a count is set.
fn push_repeat_attribute(attributes: &mut Vec<Attribute>, name: &str, count: Option<u32>)
    ensures
        attributes_view(final(attributes)@) == attributes_view(old(attributes)@)
            + repeat_attribute(name@, count),
{
    if let Some(n) = count {
        let text = u32_to_string(n);
        push_attribute(attributes, name, text.as_str());
        assert(attributes_view(attributes@) =~= attributes_view(old(attributes)@)
            + repeat_attribute(name@, count));
    } else {
        assert(attributes_view(attributes@) =~= attributes_view(old(attributes)@)
            + repeat_attribute(name@, count));
    }
}

// ----------------------------------------------------------------------------
// Columns
// ----------------------------------------------------------------------------

/// The description of one column, or of several equal ones in a row.
pub struct TableColumn {
    pub style_name: Option<String>,
    pub default_cell_style_name: Option<String>,
    pub number_columns_repeated: Option<u32>,
}

impl TableColumn {
    /// The optional attributes of a column: its style, then the default
    /// style of its cells.
    pub open spec fn spec_optional_attributes(&self) -> OptionalAttributes {
        seq![
            ("table:style-name"@, option_string(self.style_name)),
            ("table:default-cell-style-name"@, option_string(self.default_cell_style_name)),
        ]
    }

    /// All attributes of the column's element, in the order in which they
    /// are written.
    pub open spec fn spec_attributes(&self) -> Seq<AttributeView> {
        present_attributes(self.spec_optional_attributes()) + repeat_attribute(
            "table:number-columns-repeated"@,
            self.number_columns_repeated,
        )
    }

    /// An empty `table:table-column` element.
    pub open spec fn spec_events(&self) -> Seq<EventView> {
        seq![
            EventView::Start { name: "table:table-column"@, attributes: self.spec_attributes() },
            EventView::End,
        ]
    }

    /// A column emits a well-formed fragment.
    pub proof fn lemma_well_nested(&self)
        ensures
            well_nested(self.spec_events()),
    {
        lemma_well_nested_empty();
        lemma_well_nested_element(
            "table:table-column"@,
            self.spec_attributes(),
            Seq::<EventView>::empty(),
        );
        assert(self.spec_events() =~= seq![
            EventView::Start { name: "table:table-column"@, attributes: self.spec_attributes() },
        ] + Seq::<EventView>::empty() + seq![EventView::End]);
    }

    /// A column with nothing set.
    pub fn new() -> (r: TableColumn)
        ensures
            r.style_name is None,
            r.default_cell_style_name is None,
            r.number_columns_repeated is None,
    {
        TableColumn { style_name: None, default_cell_style_name: None, number_columns_repeated: None }
    }
}

impl FlatOdtXmlWrite for TableColumn {
    open spec fn events(&self) -> Seq<EventView> {
        self.spec_events()
    }

    open spec fn optional_attributes(&self) -> OptionalAttributes {
        self.spec_optional_attributes()
    }

    proof fn lemma_events_well_nested(&self) {
        self.lemma_well_nested();
    }

    fn write_flat_odt_xml(&self, writer: &mut Vec<Event>) {
        let mut attributes: Vec<Attribute> = Vec::new();
        self.add_optional_string_attributes(&mut attributes);
        push_repeat_attribute(
            &mut attributes,
            "table:number-columns-repeated",
            self.number_columns_repeated,
        );
        assert(attributes_view(attributes@) =~= self.spec_attributes());
        push_event(writer, Event::start("table:table-column", attributes));
        push_event(writer, Event::EndElement);
        assert(events_view(writer@) =~= events_view(old(writer)@) + self.spec_events());
    }

    fn optional_string_attributes(&self) -> (list: Vec<(&'static str, Option<&str>)>) {
        let mut list: Vec<(&'static str, Option<&str>)> = Vec::new();
        list.push(("table:style-name", as_deref(&self.style_name)));
        list.push(("table:default-cell-style-name", as_deref(&self.default_cell_style_name)));
        assert(optional_view(list@) =~= self.spec_optional_attributes());
        list
    }
}

/// The events of `columns`, one after the other.
pub open spec fn columns_events(columns: Seq<TableColumn>) -> Seq<EventView>
    decreases columns.len(),
{
    if columns.len() == 0 {
        Seq::empty()
    } else {
        columns_events(columns.drop_last()) + columns.last().spec_events()
    }
}

/// The events of a run of columns are a well-formed fragment.
pub proof fn lemma_columns_well_nested(columns: Seq<TableColumn>)
    ensures
        well_nested(columns_events(columns)),
    decreases columns.len(),
{
    if columns.len() == 0 {
        lemma_well_nested_empty();
    } else {
        lemma_columns_well_nested(columns.drop_last());
        columns.last().lemma_well_nested();
        lemma_well_nested_concat(
            columns_events(columns.drop_last()),
            columns.last().spec_events(),
        );
    }
}

// ----------------------------------------------------------------------------
// Cells
// ----------------------------------------------------------------------------

/// One cell of a row, with what it contains.
pub struct TableCell {
    pub style_name: Option<String>,
    pub value_type: Option<String>,
    pub content: Container,
}

impl TableCell {
    /// The optional attributes of a cell: its style, then the type of its
    /// value. Each is written only where it is set.
    pub open spec fn spec_optional_attributes(&self) -> OptionalAttributes {
        seq![
            ("table:style-name"@, option_string(self.style_name)),
            ("office:value-type"@, option_string(self.value_type)),
        ]
    }

    /// A `table:table-cell` element around what the cell contains.
    pub open spec fn spec_events(&self) -> Seq<EventView>
        decreases self,
    {
        seq![
            EventView::Start {
                name: "table:table-cell"@,
                attributes: present_attributes(self.spec_optional_attributes()),
            },
        ] + self.content.spec_events() + seq![EventView::End]
    }

    /// A cell emits a well-formed fragment.
    pub proof fn lemma_well_nested(&self)
        ensures
            well_nested(self.spec_events()),
        decreases self,
    {
        self.content.lemma_well_nested();
        lemma_well_nested_element(
            "table:table-cell"@,
            present_attributes(self.spec_optional_attributes()),
            self.content.spec_events(),
        );
    }

    /// An empty cell with nothing set.
    pub fn new() -> (r: TableCell)
        ensures
            r.style_name is None,
            r.value_type is None,
            r.content@ == Seq::<Node>::empty(),
    {
        TableCell { style_name: None, value_type: None, content: Container::new() }
    }

    /// The cell's optional attributes, each with its value if it has one.
    pub fn optional_list(&self) -> (list: Vec<(&'static str, Option<&str>)>)
        ensures
            optional_view(list@) == self.spec_optional_attributes(),
    {
        let mut list: Vec<(&'static str, Option<&str>)> = Vec::new();
        list.push(("table:style-name", as_deref(&self.style_name)));
        list.push(("office:value-type", as_deref(&self.value_type)));
        assert(optional_view(list@) =~= self.spec_optional_attributes());
        list
    }

    /// Appends the cell's events to `writer`.
    pub fn write_events(&self, writer: &mut Vec<Event>)
        ensures
            events_view(final(writer)@) == events_view(old(writer)@) + self.spec_events(),
        decreases self,
    {
        let mut attributes: Vec<Attribute> = Vec::new();
        let list = self.optional_list();
        push_present_attributes(&mut attributes, &list);
        push_event(writer, Event::start("table:table-cell", attributes));
        self.content.write_events(writer);
        push_event(writer, Event::EndElement);
        assert(events_view(writer@) =~= events_view(old(writer)@) + self.spec_events());
    }
}

impl FlatOdtXmlWrite for TableCell {
    open spec fn events(&self) -> Seq<EventView> {
        self.spec_events()
    }

    open spec fn optional_attributes(&self) -> OptionalAttributes {
        self.spec_optional_attributes()
    }

    proof fn lemma_events_well_nested(&self) {
        self.lemma_well_nested();
    }

    fn write_flat_odt_xml(&self, writer: &mut Vec<Event>) {
        self.write_events(writer);
    }

    fn optional_string_attributes(&self) -> (list: Vec<(&'static str, Option<&str>)>) {
        self.optional_list()
    }
}

/// The events of `cells`, one after the other.
pub open spec fn cells_events(cells: Seq<TableCell>) -> Seq<EventView>
    decreases cells,
{
    if cells.len() == 0 {
        Seq::empty()
    } else {
        cells_events(cells.drop_last()) + cells.last().spec_events()
    }
}

/// The events of a run of cells are a well-formed fragment.
pub proof fn lemma_cells_well_nested(cells: Seq<TableCell>)
    ensures
        well_nested(cells_events(cells)),
    decreases cells,
{
    if cells.len() == 0 {
        lemma_well_nested_empty();
    } else {
        lemma_cells_well_nested(cells.drop_last());
        cells.last().lemma_well_nested();
        lemma_well_nested_concat(cells_events(cells.drop_last()), cells.last().spec_events());
    }
}

// ----------------------------------------------------------------------------
// Rows
// ----------------------------------------------------------------------------

/// One row of a table, or several equal ones in a row.
pub struct TableRow {
    pub cells: Vec<TableCell>,
    pub default_cell_style_name: Option<String>,
    pub number_rows_repeated: Option<u32>,
    pub style_name: Option<String>,
}

impl TableRow {
    /// The optional attributes of a row: its style, then the default style
    /// of its cells.
    pub open spec fn spec_optional_attributes(&self) -> OptionalAttributes {
        seq![
            ("table:style-name"@, option_string(self.style_name)),
            ("table:default-cell-style-name"@, option_string(self.default_cell_style_name)),
        ]
    }

    /// All attributes of the row's element, in the order in which they are
    /// written.
    pub open spec fn spec_attributes(&self) -> Seq<AttributeView> {
        present_attributes(self.spec_optional_attributes()) + repeat_attribute(
            "table:number-rows-repeated"@,
            self.number_rows_repeated,
        )
    }

    /// A `table:table-row` element around the row's cells, in their order.
    pub open spec fn spec_events(&self) -> Seq<EventView>
        decreases self,
    {
        seq![EventView::Start { name: "table:table-row"@, attributes: self.spec_attributes() }]
            + cells_events(self.cells@) + seq![EventView::End]
    }

    /// A row emits a well-formed fragment.
    pub proof fn lemma_well_nested(&self)
        ensures
            well_nested(self.spec_events()),
        decreases self,
    {
        lemma_cells_well_nested(self.cells@);
        lemma_well_nested_element(
            "table:table-row"@,
            self.spec_attributes(),
            cells_events(self.cells@),
        );
    }

    /// A row without cells and with nothing set.
    pub fn new() -> (r: TableRow)
        ensures
            r.cells@ == Seq::<TableCell>::empty(),
            r.default_cell_style_name is None,
            r.number_rows_repeated is None,
            r.style_name is None,
    {
        TableRow {
            cells: Vec::new(),
            default_cell_style_name: None,
            style_name: None,
            number_rows_repeated: None,
        }
    }

    /// Adds `cell` after the cells that are there.
    pub fn add_cell(&mut self, cell: TableCell)
        ensures
            final(self).cells@ == old(self).cells@.push(cell),
            final(self).default_cell_style_name == old(self).default_cell_style_name,
            final(self).number_rows_repeated == old(self).number_rows_repeated,
            final(self).style_name == old(self).style_name,
    {
        self.cells.push(cell);
    }

    /// The row's optional attributes, each with its value if it has one.
    pub fn optional_list(&self) -> (list: Vec<(&'static str, Option<&str>)>)
        ensures
            optional_view(list@) == self.spec_optional_attributes(),
    {
        let mut list: Vec<(&'static str, Option<&str>)> = Vec::new();
        list.push(("table:style-name", as_deref(&self.style_name)));
        list.push(("table:default-cell-style-name", as_deref(&self.default_cell_style_name)));
        assert(optional_view(list@) =~= self.spec_optional_attributes());
        list
    }

    /// Appends the row's events to `writer`.
    pub fn write_events(&self, writer: &mut Vec<Event>)
        ensures
            events_view(final(writer)@) == events_view(old(writer)@) + self.spec_events(),
        decreases self,
    {
        let mut attributes: Vec<Attribute> = Vec::new();
        let list = self.optional_list();
        push_present_attributes(&mut attributes, &list);
        push_repeat_attribute(
            &mut attributes,
            "table:number-rows-repeated",
            self.number_rows_repeated,
        );
        assert(attributes_view(attributes@) =~= self.spec_attributes());
        push_event(writer, Event::start("table:table-row", attributes));
        let ghost opened = events_view(writer@);
        let mut i: usize = 0;
        while i < self.cells.len()
            invariant
                i <= self.cells.len(),
                events_view(writer@) == opened + cells_events(self.cells@.take(i as int)),
            decreases self.cells.len() - i,
        {
            proof {
                assert(self.cells@.take(i as int + 1).drop_last() =~= self.cells@.take(i as int));
            }
            self.cells[i].write_events(writer);
            i += 1;
        }
        assert(self.cells@.take(self.cells.len() as int) =~= self.cells@);
        push_event(writer, Event::EndElement);
        assert(events_view(writer@) =~= events_view(old(writer)@) + self.spec_events());
    }
}

impl FlatOdtXmlWrite for TableRow {
    open spec fn events(&self) -> Seq<EventView> {
        self.spec_events()
    }

    open spec fn optional_attributes(&self) -> OptionalAttributes {
        self.spec_optional_attributes()
    }

    proof fn lemma_events_well_nested(&self) {
        self.lemma_well_nested();
    }

    fn write_flat_odt_xml(&self, writer: &mut Vec<Event>) {
        self.write_events(writer);
    }

    fn optional_string_attributes(&self) -> (list: Vec<(&'static str, Option<&str>)>) {
        self.optional_list()
    }
}

/// The events of `rows`, one after the other.
pub open spec fn rows_events(rows: Seq<TableRow>) -> Seq<EventView>
    decreases rows,
{
    if rows.len() == 0 {
        Seq::empty()
    } else {
        rows_events(rows.drop_last()) + rows.last().spec_events()
    }
}

/// The events of a run of rows are a well-formed fragment.
pub proof fn lemma_rows_well_nested(rows: Seq<TableRow>)
    ensures
        well_nested(rows_events(rows)),
    decreases rows,
{
    if rows.len() == 0 {
        lemma_well_nested_empty();
    } else {
        lemma_rows_well_nested(rows.drop_last());
        rows.last().lemma_well_nested();
        lemma_well_nested_concat(rows_events(rows.drop_last()), rows.last().spec_events());
    }
}

// ----------------------------------------------------------------------------
// Tables
// ----------------------------------------------------------------------------

/// A named table: its columns, then its rows.
pub struct Table {
    pub name: String,
    pub style_name: Option<String>,
    pub columns: Vec<TableColumn>,
    pub rows: Vec<TableRow>,
}

impl Table {
    /// The optional attributes of a table: its style.
    pub open spec fn spec_optional_attributes(&self) -> OptionalAttributes {
        seq![("table:style-name"@, option_string(self.style_name))]
    }

    /// All attributes of the table's element: its name first.
    pub open spec fn spec_attributes(&self) -> Seq<AttributeView> {
        seq![AttributeView { name: "table:name"@, value: self.name@ }] + present_attributes(
            self.spec_optional_attributes(),
        )
    }

    /// A `table:table` element around the columns, in their order, and then
    /// the rows, in theirs.
    pub open spec fn spec_events(&self) -> Seq<EventView>
        decreases self,
    {
        seq![EventView::Start { name: "table:table"@, attributes: self.spec_attributes() }]
            + (columns_events(self.columns@) + rows_events(self.rows@)) + seq![EventView::End]
    }

    /// A table emits a well-formed fragment.
    pub proof fn lemma_well_nested(&self)
        ensures
            well_nested(self.spec_events()),
        decreases self,
    {
        lemma_columns_well_nested(self.columns@);
        lemma_rows_well_nested(self.rows@);
        lemma_well_nested_concat(columns_events(self.columns@), rows_events(self.rows@));
        lemma_well_nested_element(
            "table:table"@,
            self.spec_attributes(),
            columns_events(self.columns@) + rows_events(self.rows@),
        );
    }

    /// A table called `name`, without a style, columns or rows.
    pub fn new(name: &str) -> (r: Table)
        ensures
            r.name@ == name@,
            r.style_name is None,
            r.columns@ == Seq::<TableColumn>::empty(),
            r.rows@ == Seq::<TableRow>::empty(),
    {
        Table { name: owned(name), style_name: None, columns: Vec::new(), rows: Vec::new() }
    }

    /// Adds `column` after the columns that are there.
    pub fn add_column(&mut self, column: TableColumn)
        ensures
            final(self).columns@ == old(self).columns@.push(column),
            final(self).rows == old(self).rows,
            final(self).name == old(self).name,
            final(self).style_name == old(self).style_name,
    {
        self.columns.push(column);
    }

    /// Adds `row` after the rows that are there.
    pub fn add_row(&mut self, row: TableRow)
        ensures
            final(self).rows@ == old(self).rows@.push(row),
            final(self).columns == old(self).columns,
            final(self).name == old(self).name,
            final(self).style_name == old(self).style_name,
    {
        self.rows.push(row);
    }

    /// The table's optional attributes, each with its value if it has one.
    pub fn optional_list(&self) -> (list: Vec<(&'static str, Option<&str>)>)
        ensures
            optional_view(list@) == self.spec_optional_attributes(),
    {
        let mut list: Vec<(&'static str, Option<&str>)> = Vec::new();
        list.push(("table:style-name", as_deref(&self.style_name)));
        assert(optional_view(list@) =~= self.spec_optional_attributes());
        list
    }

    /// Appends the table's events to `writer`.
    pub fn write_events(&self, writer: &mut Vec<Event>)
        ensures
            events_view(final(writer)@) == events_view(old(writer)@) + self.spec_events(),
        decreases self,
    {
        let mut attributes: Vec<Attribute> = Vec::new();
        push_attribute(&mut attributes, "table:name", self.name.as_str());
        let list = self.optional_list();
        push_present_attributes(&mut attributes, &list);
        assert(attributes_view(attributes@) =~= self.spec_attributes());
        push_event(writer, Event::start("table:table", attributes));
        let ghost opened = events_view(writer@);
        let mut i: usize = 0;
        while i < self.columns.len()
            invariant
                i <= self.columns.len(),
                events_view(writer@) == opened + columns_events(self.columns@.take(i as int)),
            decreases self.columns.len() - i,
        {
            proof {
                assert(self.columns@.take(i as int + 1).drop_last() =~= self.columns@.take(
                    i as int,
                ));
            }
            self.columns[i].write_flat_odt_xml(writer);
            i += 1;
        }
        assert(self.columns@.take(self.columns.len() as int) =~= self.columns@);
        let ghost with_columns = events_view(writer@);
        let mut j: usize = 0;
        while j < self.rows.len()
            invariant
                j <= self.rows.len(),
                events_view(writer@) == with_columns + rows_events(self.rows@.take(j as int)),
            decreases self.rows.len() - j,
        {
            proof {
                assert(self.rows@.take(j as int + 1).drop_last() =~= self.rows@.take(j as int));
            }
            self.rows[j].write_events(writer);
            j += 1;
        }
        assert(self.rows@.take(self.rows.len() as int) =~= self.rows@);
        push_event(writer, Event::EndElement);
        assert(events_view(writer@) =~= events_view(old(writer)@) + self.spec_events());
    }
}

impl FlatOdtXmlWrite for Table {
    open spec fn events(&self) -> Seq<EventView> {
        self.spec_events()
    }

    open spec fn optional_attributes(&self) -> OptionalAttributes {
        self.spec_optional_attributes()
    }

    proof fn lemma_events_well_nested(&self) {
        self.lemma_well_nested();
    }

    fn write_flat_odt_xml(&self, writer: &mut Vec<Event>) {
        self.write_events(writer);
    }

    fn optional_string_attributes(&self) -> (list: Vec<(&'static str, Option<&str>)>) {
        self.optional_list()
    }
}

} // verus!
