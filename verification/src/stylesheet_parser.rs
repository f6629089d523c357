//! Loading a stylesheet from style declarations written in YAML.
//!
//! A stylesheet is a sequence of declarations, each a mapping:
//!
//! ```yaml
//! - name: TableHeader
//!   family: table-cell
//!   _scope: automatic
//!   table-cell-properties:
//!     fo:padding-top: 0.1cm
//!     fo:border-top: "1pt solid #000000"
//!
//! - name: TableHeaderParagraph
//!   family: paragraph
//!   _scope: automatic
//!   text-properties:
//!     fo:font-family: "Liberation Sans"
//!     fo:font-weight: bold
//! ```

use vstd::prelude::*;
use crate::strings::{joined, option_string, owned, str_eq};
use crate::style::{
    canonical_groups, set_attribute, Style, StyleFamily, StyleItem, StyleItemView,
    StyleProperties, StylePropertyGroup, StyleView, TabStop, TabStopView,
};
use crate::stylesheet::{automatic_styles, named_styles, put_style, styles_where, Stylesheet};
use crate::yaml::{
    entry_value, get, get_str, parse_sequence, string_field, yaml_declarations, Entries,
    YamlValue,
};

verus! {

// ============================================================================
// Errors
// ============================================================================

/// Why a style declaration was refused.
#[derive(Debug, PartialEq, Eq)]
pub enum DeclarationError {
    /// The declaration is not a mapping.
    NotAMapping,
    /// There is no `name`, or it is not a string.
    MissingName,
    /// There is no `family`, or it is not a string.
    MissingFamily,
    /// The family is none of the style families.
    UnknownFamily(String),
    /// The value of a property group is not a mapping.
    GroupNotAMapping(StylePropertyGroup),
    /// A key of a property group is not a string.
    InvalidKey(StylePropertyGroup),
    /// The value of the given key is neither a string, a number, a boolean
    /// nor the tab stops.
    InvalidValue(StylePropertyGroup, String),
    /// Tab stops stand in a group that is not the paragraph properties.
    MisplacedTabStops(StylePropertyGroup),
    /// A tab stop is not a mapping.
    TabStopNotAMapping,
    /// A tab stop has no `position`, or it is not a string.
    TabStopWithoutPosition,
}

/// The mathematical value of a [`DeclarationError`].
pub enum DeclarationErrorView {
    NotAMapping,
    MissingName,
    MissingFamily,
    UnknownFamily(Seq<char>),
    GroupNotAMapping(StylePropertyGroup),
    InvalidKey(StylePropertyGroup),
    InvalidValue(StylePropertyGroup, Seq<char>),
    MisplacedTabStops(StylePropertyGroup),
    TabStopNotAMapping,
    TabStopWithoutPosition,
}

impl View for DeclarationError {
    type V = DeclarationErrorView;

    open spec fn view(&self) -> DeclarationErrorView {
        match *self {
            DeclarationError::NotAMapping => DeclarationErrorView::NotAMapping,
            DeclarationError::MissingName => DeclarationErrorView::MissingName,
            DeclarationError::MissingFamily => DeclarationErrorView::MissingFamily,
            DeclarationError::UnknownFamily(name) => DeclarationErrorView::UnknownFamily(name@),
            DeclarationError::GroupNotAMapping(group) => DeclarationErrorView::GroupNotAMapping(
                group,
            ),
            DeclarationError::InvalidKey(group) => DeclarationErrorView::InvalidKey(group),
            DeclarationError::InvalidValue(group, key) => DeclarationErrorView::InvalidValue(
                group,
                key@,
            ),
            DeclarationError::MisplacedTabStops(group) => DeclarationErrorView::MisplacedTabStops(
                group,
            ),
            DeclarationError::TabStopNotAMapping => DeclarationErrorView::TabStopNotAMapping,
            DeclarationError::TabStopWithoutPosition => DeclarationErrorView::TabStopWithoutPosition,
        }
    }
}

impl DeclarationErrorView {
    /// The error in words.
    pub open spec fn text(self) -> Seq<char> {
        match self {
            DeclarationErrorView::NotAMapping => "All styles should be mappings!"@,
            DeclarationErrorView::MissingName => "Required field 'name' invalid or not found!"@,
            DeclarationErrorView::MissingFamily => "Required field 'family' invalid or not found!"@,
            DeclarationErrorView::UnknownFamily(name) => "Unknown style family: '"@ + name + "'"@,
            DeclarationErrorView::GroupNotAMapping(group) => "Property "@ + group.spec_name()
                + " should be a dictionary!"@,
            DeclarationErrorView::InvalidKey(group) => "Invalid key in "@ + group.spec_name()
                + "!"@,
            DeclarationErrorView::InvalidValue(group, key) => "Invalid value for: '"@ + key + "'"@,
            DeclarationErrorView::MisplacedTabStops(group) => {
                "Tab stops only allowed in paragraph properties!"@
            },
            DeclarationErrorView::TabStopNotAMapping => "Tab stops must be mappings!"@,
            DeclarationErrorView::TabStopWithoutPosition => {
                "Required field 'position' invalid or not found!"@
            },
        }
    }
}

impl DeclarationError {
    /// The error in words.
    pub fn message(&self) -> (text: String)
        ensures
            text@ == self@.text(),
    {
        match self {
            DeclarationError::NotAMapping => owned("All styles should be mappings!"),
            DeclarationError::MissingName => owned("Required field 'name' invalid or not found!"),
            DeclarationError::MissingFamily => owned(
                "Required field 'family' invalid or not found!",
            ),
            DeclarationError::UnknownFamily(name) => {
                let start = joined("Unknown style family: '", name.as_str());
                joined(start.as_str(), "'")
            },
            DeclarationError::GroupNotAMapping(group) => {
                let start = joined("Property ", group.as_str());
                joined(start.as_str(), " should be a dictionary!")
            },
            DeclarationError::InvalidKey(group) => {
                let start = joined("Invalid key in ", group.as_str());
                joined(start.as_str(), "!")
            },
            DeclarationError::InvalidValue(group, key) => {
                let start = joined("Invalid value for: '", key.as_str());
                joined(start.as_str(), "'")
            },
            DeclarationError::MisplacedTabStops(group) => owned(
                "Tab stops only allowed in paragraph properties!",
            ),
            DeclarationError::TabStopNotAMapping => owned("Tab stops must be mappings!"),
            DeclarationError::TabStopWithoutPosition => owned(
                "Required field 'position' invalid or not found!",
            ),
        }
    }
}

/// Why a stylesheet could not be loaded.
#[derive(Debug, PartialEq, Eq)]
pub enum LoadError {
    /// The text is not a YAML sequence; with the reader's message.
    Syntax(String),
    /// The declaration at the given place, counted from zero, was refused.
    Declaration(usize, DeclarationError),
}

/// The mathematical value of a [`LoadError`].
pub enum LoadErrorView {
    Syntax(Seq<char>),
    Declaration(nat, DeclarationErrorView),
}

impl View for LoadError {
    type V = LoadErrorView;

    open spec fn view(&self) -> LoadErrorView {
        match *self {
            LoadError::Syntax(message) => LoadErrorView::Syntax(message@),
            LoadError::Declaration(index, error) => LoadErrorView::Declaration(
                index as nat,
                error@,
            ),
        }
    }
}

impl LoadErrorView {
    /// The error in words.
    pub open spec fn text(self) -> Seq<char> {
        match self {
            LoadErrorView::Syntax(message) => message,
            LoadErrorView::Declaration(index, error) => error.text(),
        }
    }
}

impl LoadError {
    /// The error in words.
    pub fn message(&self) -> (text: String)
        ensures
            text@ == self@.text(),
    {
        match self {
            LoadError::Syntax(message) => message.clone(),
            LoadError::Declaration(index, error) => error.message(),
        }
    }
}

// ============================================================================
// What a declaration means
// ============================================================================

/// The text of a boolean.
pub open spec fn bool_text(b: bool) -> Seq<char> {
    if b {
        "true"@
    } else {
        "false"@
    }
}

/// The tab stop that `value` declares: a mapping with a `position` and
/// perhaps a `type`.
pub open spec fn spec_tab_stop(value: YamlValue) -> Result<TabStopView, DeclarationErrorView> {
    match value {
        YamlValue::Mapping(entries) => match string_field(entries@, "position"@) {
            Some(position) => Ok(
                TabStopView { position, type_: string_field(entries@, "type"@) },
            ),
            None => Err(DeclarationErrorView::TabStopWithoutPosition),
        },
        _ => Err(DeclarationErrorView::TabStopNotAMapping),
    }
}

/// The tab stops that `items` declare, in their order; the error of the
/// first item that declares none.
pub open spec fn spec_tab_stops(items: Seq<YamlValue>) -> Result<
    Seq<TabStopView>,
    DeclarationErrorView,
>
    decreases items.len(),
{
    if items.len() == 0 {
        Ok(Seq::empty())
    } else {
        match spec_tab_stops(items.drop_last()) {
            Err(e) => Err(e),
            Ok(before) => match spec_tab_stop(items.last()) {
                Err(e) => Err(e),
                Ok(stop) => Ok(before.push(stop)),
            },
        }
    }
}

/// The bag `before` with the attribute `key` set to `value`.
pub open spec fn with_attribute(
    before: StyleItemView,
    key: Seq<char>,
    value: Seq<char>,
) -> StyleItemView {
    StyleItemView {
        attributes: set_attribute(before.attributes, key, value),
        tab_stops: before.tab_stops,
    }
}

/// What one entry of a property group does to the bag `before`: a string, a
/// number or a boolean sets an attribute; a sequence under `tab-stops` adds
/// tab stops, in the paragraph properties only; anything else is an error.
pub open spec fn spec_entry(
    group: StylePropertyGroup,
    before: StyleItemView,
    entry: (YamlValue, YamlValue),
) -> Result<StyleItemView, DeclarationErrorView> {
    match entry.0.spec_as_str() {
        None => Err(DeclarationErrorView::InvalidKey(group)),
        Some(key) => match entry.1 {
            YamlValue::String(s) => Ok(with_attribute(before, key, s@)),
            YamlValue::Number { text, unsigned } => Ok(with_attribute(before, key, text@)),
            YamlValue::Bool(b) => Ok(with_attribute(before, key, bool_text(b))),
            YamlValue::Sequence(items) => if key == "tab-stops"@ {
                if group == StylePropertyGroup::ParagraphProperties {
                    match spec_tab_stops(items@) {
                        Ok(stops) => Ok(
                            StyleItemView {
                                attributes: before.attributes,
                                tab_stops: before.tab_stops + stops,
                            },
                        ),
                        Err(e) => Err(e),
                    }
                } else {
                    Err(DeclarationErrorView::MisplacedTabStops(group))
                }
            } else {
                Err(DeclarationErrorView::InvalidValue(group, key))
            },
            _ => Err(DeclarationErrorView::InvalidValue(group, key)),
        },
    }
}

/// The bag that the entries of a property group make, taken in their order;
/// the error of the first entry that is refused.
pub open spec fn spec_item(group: StylePropertyGroup, entries: Entries) -> Result<
    StyleItemView,
    DeclarationErrorView,
>
    decreases entries.len(),
{
    if entries.len() == 0 {
        Ok(StyleItemView { attributes: Seq::empty(), tab_stops: Seq::empty() })
    } else {
        match spec_item(group, entries.drop_last()) {
            Err(e) => Err(e),
            Ok(before) => spec_entry(group, before, entries.last()),
        }
    }
}

/// What one property group adds to the bags `before`: nothing where the
/// declaration has no key of the group's name; else the group's bag, made
/// from the mapping under that key.
pub open spec fn spec_group(
    entries: Entries,
    before: Map<StylePropertyGroup, StyleItemView>,
    group: StylePropertyGroup,
) -> Result<Map<StylePropertyGroup, StyleItemView>, DeclarationErrorView> {
    match entry_value(entries, group.spec_name()) {
        None => Ok(before),
        Some(value) => match value.spec_as_mapping() {
            None => Err(DeclarationErrorView::GroupNotAMapping(group)),
            Some(properties) => match spec_item(group, properties) {
                Err(e) => Err(e),
                Ok(item) => Ok(before.insert(group, item)),
            },
        },
    }
}

/// The bags that a declaration gives to `groups`, taken in their order; the
/// error of the first group that is refused.
pub open spec fn spec_properties(entries: Entries, groups: Seq<StylePropertyGroup>) -> Result<
    Map<StylePropertyGroup, StyleItemView>,
    DeclarationErrorView,
>
    decreases groups.len(),
{
    if groups.len() == 0 {
        Ok(Map::empty())
    } else {
        match spec_properties(entries, groups.drop_last()) {
            Err(e) => Err(e),
            Ok(before) => spec_group(entries, before, groups.last()),
        }
    }
}

/// The default outline level that a declaration gives: a whole number from 0
/// to 255; none where the value is anything else.
pub open spec fn spec_outline_level(entries: Entries) -> Option<u8> {
    match entry_value(entries, "default-outline-level"@) {
        Some(value) => match value.spec_as_u64() {
            Some(n) => if n <= 255 {
                Some(n as u8)
            } else {
                None
            },
            None => None,
        },
        None => None,
    }
}

/// The style that `declaration` declares, or why it declares none.
pub open spec fn spec_style(declaration: YamlValue) -> Result<StyleView, DeclarationErrorView> {
    match declaration.spec_as_mapping() {
        None => Err(DeclarationErrorView::NotAMapping),
        Some(entries) => match string_field(entries, "name"@) {
            None => Err(DeclarationErrorView::MissingName),
            Some(name) => match string_field(entries, "family"@) {
                None => Err(DeclarationErrorView::MissingFamily),
                Some(family_name) => match StyleFamily::spec_from_name(family_name) {
                    None => Err(DeclarationErrorView::UnknownFamily(family_name)),
                    Some(family) => match spec_properties(entries, canonical_groups()) {
                        Err(e) => Err(e),
                        Ok(properties) => Ok(
                            StyleView {
                                name,
                                family,
                                automatic: string_field(entries, "_scope"@) == Some(
                                    "automatic"@,
                                ),
                                parent_style_name: string_field(entries, "parent-style-name"@),
                                next_style_name: string_field(entries, "next-style-name"@),
                                display_name: string_field(entries, "display-name"@),
                                class: string_field(entries, "class"@),
                                default_outline_level: spec_outline_level(entries),
                                properties,
                            },
                        ),
                    },
                },
            },
        },
    }
}

/// The styles that `declarations` make, each added in its turn so that the
/// last declaration of a name wins; the error of the first declaration that
/// is refused, with its place.
pub open spec fn spec_load(declarations: Seq<YamlValue>) -> Result<Seq<StyleView>, LoadErrorView>
    decreases declarations.len(),
{
    if declarations.len() == 0 {
        Ok(Seq::empty())
    } else {
        match spec_load(declarations.drop_last()) {
            Err(e) => Err(e),
            Ok(before) => match spec_style(declarations.last()) {
                Err(e) => Err(
                    LoadErrorView::Declaration((declarations.len() - 1) as nat, e),
                ),
                Ok(style) => Ok(put_style(before, style)),
            },
        }
    }
}

// ============================================================================
// Errors stay
// ============================================================================

/// An error among the first `k` tab stops is the error of them all.
proof fn lemma_tab_stops_error_stays(items: Seq<YamlValue>, k: int)
    requires
        0 <= k <= items.len(),
        spec_tab_stops(items.take(k)) is Err,
    ensures
        spec_tab_stops(items) == spec_tab_stops(items.take(k)),
    decreases items.len() - k,
{
    if k < items.len() {
        assert(items.take(k + 1).drop_last() =~= items.take(k));
        lemma_tab_stops_error_stays(items, k + 1);
    } else {
        assert(items.take(k) =~= items);
    }
}

/// An error among the first `k` entries of a group is the error of them all.
proof fn lemma_item_error_stays(group: StylePropertyGroup, entries: Entries, k: int)
    requires
        0 <= k <= entries.len(),
        spec_item(group, entries.take(k)) is Err,
    ensures
        spec_item(group, entries) == spec_item(group, entries.take(k)),
    decreases entries.len() - k,
{
    if k < entries.len() {
        assert(entries.take(k + 1).drop_last() =~= entries.take(k));
        lemma_item_error_stays(group, entries, k + 1);
    } else {
        assert(entries.take(k) =~= entries);
    }
}

/// An error among the first `k` groups is the error of them all.
proof fn lemma_properties_error_stays(entries: Entries, groups: Seq<StylePropertyGroup>, k: int)
    requires
        0 <= k <= groups.len(),
        spec_properties(entries, groups.take(k)) is Err,
    ensures
        spec_properties(entries, groups) == spec_properties(entries, groups.take(k)),
    decreases groups.len() - k,
{
    if k < groups.len() {
        assert(groups.take(k + 1).drop_last() =~= groups.take(k));
        lemma_properties_error_stays(entries, groups, k + 1);
    } else {
        assert(groups.take(k) =~= groups);
    }
}

/// An error among the first `k` declarations is the error of them all: no
/// later declaration mends a load that has failed.
pub proof fn lemma_load_error_stays(declarations: Seq<YamlValue>, k: int)
    requires
        0 <= k <= declarations.len(),
        spec_load(declarations.take(k)) is Err,
    ensures
        spec_load(declarations) == spec_load(declarations.take(k)),
    decreases declarations.len() - k,
{
    if k < declarations.len() {
        assert(declarations.take(k + 1).drop_last() =~= declarations.take(k));
        lemma_load_error_stays(declarations, k + 1);
    } else {
        assert(declarations.take(k) =~= declarations);
    }
}

// ============================================================================
// What holds of every load
// ============================================================================

/// One declaration that is refused fails the whole load: no stylesheet is
/// made of the others.
pub proof fn lemma_refused_declaration_fails_load(declarations: Seq<YamlValue>, i: int)
    requires
        0 <= i < declarations.len(),
        spec_style(declarations[i]) is Err,
    ensures
        spec_load(declarations) is Err,
{
    assert(declarations.take(i + 1).drop_last() =~= declarations.take(i));
    assert(declarations.take(i + 1).last() == declarations[i]);
    lemma_load_error_stays(declarations, i + 1);
}

/// A declaration whose family is none of the style families fails the whole
/// load.
pub proof fn lemma_unknown_family_fails_load(declarations: Seq<YamlValue>, i: int)
    requires
        0 <= i < declarations.len(),
        declarations[i].spec_as_mapping() matches Some(entries) && (string_field(
            entries,
            "family"@,
        ) matches Some(family) && StyleFamily::spec_from_name(family) is None),
    ensures
        spec_load(declarations) is Err,
{
    lemma_refused_declaration_fails_load(declarations, i);
}

/// The scope of a declaration decides the view in which its style stands:
/// with `_scope: automatic` the style is automatic, and is among the
/// automatic styles of the loaded sheet and not among the named ones; with
/// any other scope, or none, it is the other way round.
pub proof fn lemma_scope_decides_view(declaration: YamlValue)
    requires
        spec_style(declaration) is Ok,
    ensures
        ({
            let style = spec_style(declaration)->Ok_0;
            let entries = declaration.spec_as_mapping()->0;
            let automatic = string_field(entries, "_scope"@) == Some("automatic"@);
            &&& style.automatic == automatic
            &&& spec_load(seq![declaration]) == Ok::<Seq<StyleView>, LoadErrorView>(seq![style])
            &&& automatic ==> automatic_styles(seq![style]) == seq![style] && named_styles(
                seq![style],
            ) == Seq::<StyleView>::empty()
            &&& !automatic ==> named_styles(seq![style]) == seq![style] && automatic_styles(
                seq![style],
            ) == Seq::<StyleView>::empty()
        }),
{
    let style = spec_style(declaration)->Ok_0;
    let one = seq![declaration];
    assert(one.drop_last() =~= Seq::<YamlValue>::empty());
    assert(one.last() == declaration);
    assert(spec_load(one.drop_last()) == Ok::<Seq<StyleView>, LoadErrorView>(Seq::empty()));
    assert(put_style(Seq::<StyleView>::empty(), style) =~= seq![style]);
    let styles = seq![style];
    assert(styles.drop_last() =~= Seq::<StyleView>::empty());
    assert(styles.last() == style);
    assert(styles_where(styles.drop_last(), true) =~= Seq::<StyleView>::empty());
    assert(styles_where(styles.drop_last(), false) =~= Seq::<StyleView>::empty());
    assert(Seq::<StyleView>::empty().push(style) =~= seq![style]);
}

/// Tab stops that load are recorded one for each item, in the order of the
/// items, each with the position and the type that its item gives.
pub proof fn lemma_tab_stops_recorded(items: Seq<YamlValue>)
    requires
        spec_tab_stops(items) is Ok,
    ensures
        ({
            let stops = spec_tab_stops(items)->Ok_0;
            &&& stops.len() == items.len()
            &&& forall|i: int|
                0 <= i < items.len() ==> (#[trigger] items[i] matches YamlValue::Mapping(entries)
                    && string_field(entries@, "position"@) == Some(stops[i].position)
                    && string_field(entries@, "type"@) == stops[i].type_)
        }),
    decreases items.len(),
{
    if items.len() > 0 {
        lemma_tab_stops_recorded(items.drop_last());
        let before = spec_tab_stops(items.drop_last())->Ok_0;
        let stops = spec_tab_stops(items)->Ok_0;
        assert forall|i: int| 0 <= i < items.len() implies (#[trigger] items[i] matches YamlValue::Mapping(
            entries,
        ) && string_field(entries@, "position"@) == Some(stops[i].position) && string_field(
            entries@,
            "type"@,
        ) == stops[i].type_) by {
            if i < items.len() - 1 {
                assert(items.drop_last()[i] == items[i]);
                assert(stops[i] == before[i]);
            } else {
                assert(items[i] == items.last());
            }
        }
    }
}

/// In the paragraph properties, a sequence under `tab-stops` whose items
/// load adds their tab stops to the bag, after those that are there, and
/// leaves the attributes as they are.
pub proof fn lemma_tab_stops_in_paragraph_properties(
    before: StyleItemView,
    key: YamlValue,
    items: Vec<YamlValue>,
)
    requires
        key.spec_as_str() == Some("tab-stops"@),
        spec_tab_stops(items@) is Ok,
    ensures
        spec_entry(
            StylePropertyGroup::ParagraphProperties,
            before,
            (key, YamlValue::Sequence(items)),
        ) == Ok::<StyleItemView, DeclarationErrorView>(
            StyleItemView {
                attributes: before.attributes,
                tab_stops: before.tab_stops + spec_tab_stops(items@)->Ok_0,
            },
        ),
{
}

/// A property group with an entry that is refused is refused.
proof fn lemma_refused_entry_fails_item(group: StylePropertyGroup, entries: Entries, i: int)
    requires
        0 <= i < entries.len(),
        forall|before: StyleItemView| spec_entry(group, before, entries[i]) is Err,
    ensures
        spec_item(group, entries) is Err,
{
    assert(entries.take(i + 1).drop_last() =~= entries.take(i));
    assert(entries.take(i + 1).last() == entries[i]);
    lemma_item_error_stays(group, entries, i + 1);
}

/// A declaration with a property group that is refused has no property
/// bags.
proof fn lemma_refused_group_fails_properties(
    entries: Entries,
    groups: Seq<StylePropertyGroup>,
    i: int,
)
    requires
        0 <= i < groups.len(),
        forall|before: Map<StylePropertyGroup, StyleItemView>|
            spec_group(entries, before, groups[i]) is Err,
    ensures
        spec_properties(entries, groups) is Err,
{
    assert(groups.take(i + 1).drop_last() =~= groups.take(i));
    assert(groups.take(i + 1).last() == groups[i]);
    lemma_properties_error_stays(entries, groups, i + 1);
}

/// Tab stops in a property group that is not the paragraph properties fail
/// the whole load.
pub proof fn lemma_misplaced_tab_stops_fail_load(
    declarations: Seq<YamlValue>,
    i: int,
    group: StylePropertyGroup,
    j: int,
)
    requires
        0 <= i < declarations.len(),
        group != StylePropertyGroup::ParagraphProperties,
        declarations[i].spec_as_mapping() matches Some(entries) && (entry_value(
            entries,
            group.spec_name(),
        ) matches Some(value) && (value.spec_as_mapping() matches Some(properties) && 0 <= j
            < properties.len() && properties[j].0.spec_as_str() == Some("tab-stops"@)
            && properties[j].1 is Sequence)),
    ensures
        spec_load(declarations) is Err,
{
    let entries = declarations[i].spec_as_mapping()->0;
    let properties = entry_value(entries, group.spec_name())->0.spec_as_mapping()->0;
    lemma_refused_entry_fails_item(group, properties, j);
    group.lemma_canonical_complete();
    let g = choose|g: int|
        0 <= g < canonical_groups().len() && #[trigger] canonical_groups()[g] == group;
    lemma_refused_group_fails_properties(entries, canonical_groups(), g);
    lemma_refused_declaration_fails_load(declarations, i);
}

// ============================================================================
// The loader
// ============================================================================

/// Loads stylesheets from style declarations.
pub struct StylesheetParser {}

impl StylesheetParser {
    /// Loads the stylesheet that the YAML text `yaml` declares. Nothing is
    /// returned of a text of which one declaration is refused.
    pub fn parse_yaml(yaml: &str) -> (r: Result<Stylesheet, LoadError>)
        ensures
            match yaml_declarations(yaml@) {
                None => r matches Err(LoadError::Syntax(_)),
                Some(declarations) => match spec_load(declarations) {
                    Ok(styles) => r matches Ok(sheet) && sheet@ == styles,
                    Err(e) => r matches Err(error) && error@ == e,
                },
            },
    {
        match parse_sequence(yaml) {
            Ok(declarations) => Self::load(&declarations),
            Err(message) => Err(LoadError::Syntax(message)),
        }
    }

    /// Loads the stylesheet that `declarations` declare: each declaration's
    /// style is added in its turn, so that the last declaration of a name
    /// wins. The first declaration that is refused ends the load, and nothing
    /// is returned of the styles before it.
    pub fn load(declarations: &Vec<YamlValue>) -> (r: Result<Stylesheet, LoadError>)
        ensures
            match spec_load(declarations@) {
                Ok(styles) => r matches Ok(sheet) && sheet@ == styles,
                Err(e) => r matches Err(error) && error@ == e,
            },
    {
        let mut stylesheet = Stylesheet::new();
        let mut i: usize = 0;
        assert(declarations@.take(0) =~= Seq::<YamlValue>::empty());
        while i < declarations.len()
            invariant
                i <= declarations.len(),
                spec_load(declarations@.take(i as int)) == Ok::<Seq<StyleView>, LoadErrorView>(
                    stylesheet@,
                ),
            decreases declarations.len() - i,
        {
            proof {
                assert(declarations@.take(i as int + 1).drop_last() =~= declarations@.take(
                    i as int,
                ));
                assert(declarations@.take(i as int + 1).last() == declarations@[i as int]);
            }
            match Self::parse_style(&declarations[i]) {
                Ok(style) => {
                    stylesheet.add_style(style);
                },
                Err(error) => {
                    proof {
                        lemma_load_error_stays(declarations@, i as int + 1);
                    }
                    return Err(LoadError::Declaration(i, error));
                },
            }
            i += 1;
        }
        assert(declarations@.take(declarations.len() as int) =~= declarations@);
        Ok(stylesheet)
    }

    /// The style that one declaration declares.
    pub fn parse_style(declaration: &YamlValue) -> (r: Result<Style, DeclarationError>)
        ensures
            match spec_style(*declaration) {
                Ok(style) => r matches Ok(s) && s@ == style,
                Err(e) => r matches Err(error) && error@ == e,
            },
    {
        let style_dict = match declaration.as_mapping() {
            Some(entries) => entries,
            None => {
                return Err(DeclarationError::NotAMapping);
            },
        };
        // Base
        let name = match Self::yaml_optional_string(style_dict, "name") {
            Some(name) => name,
            None => {
                return Err(DeclarationError::MissingName);
            },
        };
        let family = match Self::yaml_optional_string(style_dict, "family") {
            Some(family) => family,
            None => {
                return Err(DeclarationError::MissingFamily);
            },
        };
        let family = match StyleFamily::from_name(family.as_str()) {
            Some(f) => f,
            None => {
                return Err(DeclarationError::UnknownFamily(family));
            },
        };
        // Normal style or automatic style
        let automatic = match get_str(style_dict, "_scope") {
            Some(scope) => str_eq(scope, "automatic"),
            None => false,
        };
        // Parent style name, next style name, class...
        let parent_style_name = Self::yaml_optional_string(style_dict, "parent-style-name");
        let next_style_name = Self::yaml_optional_string(style_dict, "next-style-name");
        let class = Self::yaml_optional_string(style_dict, "class");
        let display_name = Self::yaml_optional_string(style_dict, "display-name");
        let default_outline_level = match Self::yaml_optional_u64(
            style_dict,
            "default-outline-level",
        ) {
            Some(n) => if n <= 255 {
                Some(n as u8)
            } else {
                None
            },
            None => None,
        };
        // Properties
        match Self::parse_properties(style_dict) {
            Ok(properties) => Ok(
                Style::with_fields(
                    name,
                    family,
                    automatic,
                    parent_style_name,
                    next_style_name,
                    display_name,
                    class,
                    default_outline_level,
                    properties,
                ),
            ),
            Err(error) => Err(error),
        }
    }

    /// The property bags of a declaration: one for each group whose name is
    /// a key of the declaration, the groups taken in their canonical order.
    pub fn parse_properties(mapping: &Vec<(YamlValue, YamlValue)>) -> (r: Result<
        StyleProperties,
        DeclarationError,
    >)
        ensures
            match spec_properties(mapping@, canonical_groups()) {
                Ok(properties) => r matches Ok(p) && p@ == properties,
                Err(e) => r matches Err(error) && error@ == e,
            },
    {
        let mut properties = StyleProperties::new();
        let groups = StylePropertyGroup::all();
        let mut i: usize = 0;
        assert(groups@.take(0) =~= Seq::<StylePropertyGroup>::empty());
        while i < groups.len()
            invariant
                i <= groups.len(),
                groups@ == canonical_groups(),
                spec_properties(mapping@, groups@.take(i as int)) == Ok::<
                    Map<StylePropertyGroup, StyleItemView>,
                    DeclarationErrorView,
                >(properties@),
            decreases groups.len() - i,
        {
            proof {
                assert(groups@.take(i as int + 1).drop_last() =~= groups@.take(i as int));
                assert(groups@.take(i as int + 1).last() == groups@[i as int]);
            }
            let group = groups[i];
            let group_key = group.as_str();
            // If the current property exists in the dictionary
            if let Some(property_val) = get(mapping, group_key) {
                let property_dict = match property_val.as_mapping() {
                    Some(entries) => entries,
                    None => {
                        proof {
                            lemma_properties_error_stays(mapping@, groups@, i as int + 1);
                        }
                        return Err(DeclarationError::GroupNotAMapping(group));
                    },
                };
                match Self::parse_item(group, property_dict) {
                    Ok(style_item) => {
                        properties.insert(group, style_item);
                    },
                    Err(error) => {
                        proof {
                            lemma_properties_error_stays(mapping@, groups@, i as int + 1);
                        }
                        return Err(error);
                    },
                }
            }
            i += 1;
        }
        assert(groups@.take(groups.len() as int) =~= groups@);
        Ok(properties)
    }

    /// The bag that the entries of one property group make.
    pub fn parse_item(group: StylePropertyGroup, entries: &Vec<(YamlValue, YamlValue)>) -> (r:
        Result<StyleItem, DeclarationError>)
        ensures
            match spec_item(group, entries@) {
                Ok(item) => r matches Ok(i) && i@ == item,
                Err(e) => r matches Err(error) && error@ == e,
            },
    {
        let mut style_item = StyleItem::default();
        let mut i: usize = 0;
        assert(entries@.take(0) =~= Seq::<(YamlValue, YamlValue)>::empty());
        while i < entries.len()
            invariant
                i <= entries.len(),
                spec_item(group, entries@.take(i as int)) == Ok::<
                    StyleItemView,
                    DeclarationErrorView,
                >(style_item@),
            decreases entries.len() - i,
        {
            proof {
                assert(entries@.take(i as int + 1).drop_last() =~= entries@.take(i as int));
                assert(entries@.take(i as int + 1).last() == entries@[i as int]);
            }
            let k = match entries[i].0.as_str() {
                Some(k) => k,
                None => {
                    proof {
                        lemma_item_error_stays(group, entries@, i as int + 1);
                    }
                    return Err(DeclarationError::InvalidKey(group));
                },
            };
            let failure: Option<DeclarationError> = match &entries[i].1 {
                YamlValue::String(s) => {
                    style_item.set(k, s.as_str());
                    None
                },
                YamlValue::Number { text, unsigned } => {
                    style_item.set(k, text.as_str());
                    None
                },
                YamlValue::Sequence(seq) => {
                    if str_eq(k, "tab-stops") {
                        if group == StylePropertyGroup::ParagraphProperties {
                            Self::parse_tab_stops(seq, &mut style_item).err()
                        } else {
                            Some(DeclarationError::MisplacedTabStops(group))
                        }
                    } else {
                        Some(DeclarationError::InvalidValue(group, owned(k)))
                    }
                },
                YamlValue::Bool(b) => {
                    style_item.set(k, if *b {
                        "true"
                    } else {
                        "false"
                    });
                    None
                },
                _ => Some(DeclarationError::InvalidValue(group, owned(k))),
            };
            match failure {
                Some(error) => {
                    proof {
                        lemma_item_error_stays(group, entries@, i as int + 1);
                    }
                    return Err(error);
                },
                None => {},
            }
            i += 1;
        }
        assert(entries@.take(entries.len() as int) =~= entries@);
        Ok(style_item)
    }

    /// Adds to `style_item` the tab stops that `tab_stops_seq` declares, in
    /// their order.
    pub fn parse_tab_stops(tab_stops_seq: &Vec<YamlValue>, style_item: &mut StyleItem) -> (r:
        Result<(), DeclarationError>)
        ensures
            match spec_tab_stops(tab_stops_seq@) {
                Ok(stops) => r is Ok && final(style_item)@.tab_stops == old(style_item)@.tab_stops
                    + stops && final(style_item)@.attributes == old(style_item)@.attributes,
                Err(e) => r matches Err(error) && error@ == e,
            },
    {
        let ghost mut done: Seq<TabStopView> = Seq::empty();
        let mut i: usize = 0;
        assert(tab_stops_seq@.take(0) =~= Seq::<YamlValue>::empty());
        assert(old(style_item)@.tab_stops + done =~= old(style_item)@.tab_stops);
        while i < tab_stops_seq.len()
            invariant
                i <= tab_stops_seq.len(),
                spec_tab_stops(tab_stops_seq@.take(i as int)) == Ok::<
                    Seq<TabStopView>,
                    DeclarationErrorView,
                >(done),
                style_item@.tab_stops == old(style_item)@.tab_stops + done,
                style_item@.attributes == old(style_item)@.attributes,
            decreases tab_stops_seq.len() - i,
        {
            proof {
                assert(tab_stops_seq@.take(i as int + 1).drop_last() =~= tab_stops_seq@.take(
                    i as int,
                ));
                assert(tab_stops_seq@.take(i as int + 1).last() == tab_stops_seq@[i as int]);
            }
            match &tab_stops_seq[i] {
                YamlValue::Mapping(mapping) => {
                    let position = match Self::yaml_optional_string(mapping, "position") {
                        Some(position) => position,
                        None => {
                            proof {
                                lemma_tab_stops_error_stays(tab_stops_seq@, i as int + 1);
                            }
                            return Err(DeclarationError::TabStopWithoutPosition);
                        },
                    };
                    let type_ = Self::yaml_optional_string(mapping, "type");
                    let tab_stop = TabStop { position, type_ };
                    proof {
                        assert(old(style_item)@.tab_stops + done.push(tab_stop@) =~= (old(
                            style_item,
                        )@.tab_stops + done).push(tab_stop@));
                        done = done.push(tab_stop@);
                    }
                    style_item.add_tab_stop(tab_stop);
                },
                _ => {
                    proof {
                        lemma_tab_stops_error_stays(tab_stops_seq@, i as int + 1);
                    }
                    return Err(DeclarationError::TabStopNotAMapping);
                },
            }
            i += 1;
        }
        assert(tab_stops_seq@.take(tab_stops_seq.len() as int) =~= tab_stops_seq@);
        Ok(())
    }

    /// An owned copy of the string under `key`, if there is one.
    pub fn yaml_optional_string(mapping: &Vec<(YamlValue, YamlValue)>, key: &str) -> (r: Option<
        String,
    >)
        ensures
            option_string(r) == string_field(mapping@, key@),
    {
        match get_str(mapping, key) {
            Some(text) => Some(owned(text)),
            None => None,
        }
    }

    /// The whole number under `key` that is not negative, if there is one.
    pub fn yaml_optional_u64(mapping: &Vec<(YamlValue, YamlValue)>, key: &str) -> (r: Option<u64>)
        ensures
            r == match entry_value(mapping@, key@) {
                Some(value) => value.spec_as_u64(),
                None => None,
            },
    {
        match get(mapping, key) {
            Some(value) => value.as_u64(),
            None => None,
        }
    }
}

} // verus!
