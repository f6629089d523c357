//! Stylesheets: styles by name, each name once.

use vstd::prelude::*;
use crate::fodt_xml_write::FlatOdtXmlWrite;
use crate::strings::str_eq;
use crate::style::{Style, StyleView};
use crate::stylesheet_parser::{spec_load, LoadError, StylesheetParser};
use crate::yaml::yaml_declarations;
use crate::xml_event::{
    events_view, lemma_well_nested_concat, lemma_well_nested_empty, well_nested, Event,
    EventView,
};

verus! {

/// The declarations of the default stylesheet of a text document.
pub const WRITER_STYLES_YAML: &'static str = r#"- name: Standard
  family: paragraph
  class: text
  paragraph-properties:
    fo:margin-top: 0cm
    fo:margin-bottom: 0.25cm
  text-properties:
    fo:font-size: 12pt

- name: Heading
  family: paragraph
  parent-style-name: Standard
  next-style-name: Text_20_body
  class: text
  paragraph-properties:
    fo:margin-top: 0.42cm
    fo:margin-bottom: 0.21cm
    fo:keep-with-next: always
  text-properties:
    fo:font-size: 14pt
    fo:font-weight: bold

- name: Text_20_body
  display-name: Text body
  family: paragraph
  parent-style-name: Standard
  class: text

- name: Heading_20_1
  display-name: Heading 1
  family: paragraph
  parent-style-name: Heading
  next-style-name: Text_20_body
  default-outline-level: 1
  class: text
  text-properties:
    fo:font-size: 18pt

- name: Table_20_Contents
  display-name: Table Contents
  family: paragraph
  parent-style-name: Standard
  class: extra
"#;

/// The views of a sequence of styles, in order.
pub open spec fn styles_view(styles: Seq<Style>) -> Seq<StyleView> {
    styles.map_values(|s: Style| s@)
}

/// No two styles bear the same name.
pub open spec fn unique_style_names(styles: Seq<StyleView>) -> bool {
    forall|i: int, j: int|
        0 <= i < j < styles.len() ==> (#[trigger] styles[i]).name != (#[trigger] styles[j]).name
}

/// Some style bears the name `name`.
pub open spec fn has_style(styles: Seq<StyleView>, name: Seq<char>) -> bool {
    exists|i: int| 0 <= i < styles.len() && (#[trigger] styles[i]).name == name
}

/// The style called `name`, if there is one.
pub open spec fn style_of(styles: Seq<StyleView>, name: Seq<char>) -> Option<StyleView> {
    if has_style(styles, name) {
        Some(styles[choose|i: int| 0 <= i < styles.len() && (#[trigger] styles[i]).name == name])
    } else {
        None
    }
}

/// `styles` with `style` added: in the place of the style of the same name,
/// or at the end if there was none.
pub open spec fn put_style(styles: Seq<StyleView>, style: StyleView) -> Seq<StyleView> {
    if has_style(styles, style.name) {
        styles.map_values(
            |s: StyleView|
                if s.name == style.name {
                    style
                } else {
                    s
                },
        )
    } else {
        styles.push(style)
    }
}

/// `base` with each style of `incoming` added, in the order of `incoming`.
pub open spec fn merge_styles(base: Seq<StyleView>, incoming: Seq<StyleView>) -> Seq<StyleView>
    decreases incoming.len(),
{
    if incoming.len() == 0 {
        base
    } else {
        put_style(merge_styles(base, incoming.drop_last()), incoming.last())
    }
}

/// The styles of `styles` whose automatic flag is `automatic`, in their
/// order.
pub open spec fn styles_where(styles: Seq<StyleView>, automatic: bool) -> Seq<StyleView>
    decreases styles.len(),
{
    if styles.len() == 0 {
        Seq::empty()
    } else {
        let rest = styles_where(styles.drop_last(), automatic);
        if styles.last().automatic == automatic {
            rest.push(styles.last())
        } else {
            rest
        }
    }
}

/// The named styles: those that are not automatic.
pub open spec fn named_styles(styles: Seq<StyleView>) -> Seq<StyleView> {
    styles_where(styles, false)
}

/// The automatic styles.
pub open spec fn automatic_styles(styles: Seq<StyleView>) -> Seq<StyleView> {
    styles_where(styles, true)
}

/// The events of `styles`, one style after the other.
pub open spec fn styles_events(styles: Seq<StyleView>) -> Seq<EventView>
    decreases styles.len(),
{
    if styles.len() == 0 {
        Seq::empty()
    } else {
        styles_events(styles.drop_last()) + styles.last().events()
    }
}

/// The events of a run of styles are a well-formed fragment.
pub proof fn lemma_styles_well_nested(styles: Seq<StyleView>)
    ensures
        well_nested(styles_events(styles)),
    decreases styles.len(),
{
    if styles.len() == 0 {
        lemma_well_nested_empty();
    } else {
        lemma_styles_well_nested(styles.drop_last());
        styles.last().lemma_well_nested();
        lemma_well_nested_concat(styles_events(styles.drop_last()), styles.last().events());
    }
}

/// A style stands in the view of one kind exactly if it stands in the sheet
/// and is of that kind: each style is in one of the two views and not in the
/// other.
pub proof fn lemma_styles_where_contains(styles: Seq<StyleView>, automatic: bool, style: StyleView)
    ensures
        styles_where(styles, automatic).contains(style) <==> styles.contains(style)
            && style.automatic == automatic,
    decreases styles.len(),
{
    if styles.len() == 0 {
    } else {
        let front = styles.drop_last();
        let last = styles.last();
        lemma_styles_where_contains(front, automatic, style);
        let rest = styles_where(front, automatic);
        let all = styles_where(styles, automatic);
        if styles.contains(style) {
            let i = choose|i: int| 0 <= i < styles.len() && styles[i] == style;
            if i < front.len() {
                assert(front[i] == style);
                assert(front.contains(style));
            } else {
                assert(last == style);
            }
        }
        if front.contains(style) {
            let i = choose|i: int| 0 <= i < front.len() && front[i] == style;
            assert(styles[i] == style);
        }
        assert(styles[styles.len() - 1] == last);
        if last.automatic == automatic {
            assert(all == rest.push(last));
            assert(all[rest.len() as int] == last);
            if rest.contains(style) {
                let i = choose|i: int| 0 <= i < rest.len() && rest[i] == style;
                assert(all[i] == style);
            }
            if all.contains(style) {
                let i = choose|i: int| 0 <= i < all.len() && all[i] == style;
                if i < rest.len() {
                    assert(rest[i] == style);
                }
            }
        }
    }
}

/// Adding a style keeps the names unique; afterwards its name gives the
/// added style, and every other name gives what it gave before.
pub proof fn lemma_put_style(styles: Seq<StyleView>, style: StyleView, name: Seq<char>)
    requires
        unique_style_names(styles),
    ensures
        unique_style_names(put_style(styles, style)),
        style_of(put_style(styles, style), style.name) == Some(style),
        name != style.name ==> style_of(put_style(styles, style), name) == style_of(styles, name),
        has_style(put_style(styles, style), name) <==> has_style(styles, name) || name
            == style.name,
{
    let after = put_style(styles, style);
    assert forall|i: int| 0 <= i < after.len() && i < styles.len() implies (#[trigger] after[i]).name
        == styles[i].name by {}
    if has_style(styles, style.name) {
        let w = choose|i: int| 0 <= i < styles.len() && (#[trigger] styles[i]).name == style.name;
        assert(after[w].name == style.name);
        let c = choose|i: int| 0 <= i < after.len() && (#[trigger] after[i]).name == style.name;
        assert(after[c] == style);
    } else {
        assert(after[styles.len() as int].name == style.name);
        let c = choose|i: int| 0 <= i < after.len() && (#[trigger] after[i]).name == style.name;
        assert(c == styles.len()) by {
            if c < styles.len() {
                assert(styles[c].name == style.name);
            }
        }
    }
    assert(unique_style_names(after)) by {
        assert forall|i: int, j: int| 0 <= i < j < after.len() implies (#[trigger] after[i]).name != (
        #[trigger] after[j]).name by {
            if j < styles.len() {
                assert(styles[i].name != styles[j].name);
            } else {
                assert(styles[i].name != style.name);
            }
        }
    }
    if name != style.name {
        if has_style(styles, name) {
            let w = choose|i: int| 0 <= i < styles.len() && (#[trigger] styles[i]).name == name;
            assert(after[w].name == name);
            assert(after[w] == styles[w]);
            let c = choose|i: int| 0 <= i < after.len() && (#[trigger] after[i]).name == name;
            assert(c < styles.len());
            assert(styles[c].name == name);
            if c != w {
                if c < w {
                    assert(styles[c].name != styles[w].name);
                } else {
                    assert(styles[w].name != styles[c].name);
                }
            }
        } else {
            if has_style(after, name) {
                let c = choose|i: int| 0 <= i < after.len() && (#[trigger] after[i]).name == name;
                if c < styles.len() {
                    assert(styles[c].name == name);
                }
            }
        }
    }
}

/// Merging keeps the names unique. Afterwards a name that `incoming` defines
/// gives the incoming style, and every other name gives what `base` gave:
/// where both define a name only the incoming definition is left, and all
/// other styles of both are there.
pub proof fn lemma_merge_styles(base: Seq<StyleView>, incoming: Seq<StyleView>, name: Seq<char>)
    requires
        unique_style_names(base),
        unique_style_names(incoming),
    ensures
        unique_style_names(merge_styles(base, incoming)),
        has_style(incoming, name) ==> style_of(merge_styles(base, incoming), name) == style_of(
            incoming,
            name,
        ),
        !has_style(incoming, name) ==> style_of(merge_styles(base, incoming), name) == style_of(
            base,
            name,
        ),
    decreases incoming.len(),
{
    if incoming.len() == 0 {
    } else {
        let front = incoming.drop_last();
        let last = incoming.last();
        assert(unique_style_names(front)) by {
            assert forall|i: int, j: int| 0 <= i < j < front.len() implies (#[trigger] front[i]).name
                != (#[trigger] front[j]).name by {
                assert(incoming[i].name != incoming[j].name);
            }
        }
        lemma_merge_styles(base, front, name);
        lemma_put_style(merge_styles(base, front), last, name);
        assert(incoming[incoming.len() - 1] == last);
        if name == last.name {
            assert(has_style(incoming, name));
            let c = choose|i: int| 0 <= i < incoming.len() && (#[trigger] incoming[i]).name == name;
            if c != incoming.len() - 1 {
                assert(incoming[c].name != incoming[incoming.len() - 1].name);
            }
        } else {
            if has_style(front, name) {
                let w = choose|i: int| 0 <= i < front.len() && (#[trigger] front[i]).name == name;
                assert(incoming[w].name == name);
                let c = choose|i: int|
                    0 <= i < incoming.len() && (#[trigger] incoming[i]).name == name;
                assert(c < front.len());
                assert(front[c].name == name);
                if c != w {
                    if c < w {
                        assert(incoming[c].name != incoming[w].name);
                    } else {
                        assert(incoming[w].name != incoming[c].name);
                    }
                }
            } else {
                if has_style(incoming, name) {
                    let c = choose|i: int|
                        0 <= i < incoming.len() && (#[trigger] incoming[i]).name == name;
                    assert(front[c].name == name);
                }
            }
        }
    }
}

/// A collection of styles in which each name stands once. A style that is
/// added under a name that is there takes the place of the earlier one.
pub struct Stylesheet {
    styles: Vec<Style>,
}

impl View for Stylesheet {
    type V = Seq<StyleView>;

    /// The styles, in the order in which their names first came in.
    closed spec fn view(&self) -> Seq<StyleView> {
        styles_view(self.styles@)
    }
}

impl Stylesheet {
    #[verifier::type_invariant]
    spec fn names_are_unique(&self) -> bool {
        unique_style_names(styles_view(self.styles@))
    }

    /// A stylesheet without styles.
    pub fn new() -> (r: Stylesheet)
        ensures
            r@ == Seq::<StyleView>::empty(),
    {
        let r = Stylesheet { styles: Vec::new() };
        assert(r@ =~= Seq::<StyleView>::empty());
        r
    }

    /// The default stylesheet of a text document, loaded from
    /// [`WRITER_STYLES_YAML`].
    pub fn load_default() -> (r: Result<Stylesheet, LoadError>)
        ensures
            match yaml_declarations(WRITER_STYLES_YAML@) {
                None => r matches Err(LoadError::Syntax(_)),
                Some(declarations) => match spec_load(declarations) {
                    Ok(styles) => r matches Ok(sheet) && sheet@ == styles,
                    Err(e) => r matches Err(error) && error@ == e,
                },
            },
    {
        StylesheetParser::parse_yaml(WRITER_STYLES_YAML)
    }

    /// The number of styles.
    pub fn len(&self) -> (n: usize)
        ensures
            n == self@.len(),
            unique_style_names(self@),
    {
        proof {
            use_type_invariant(self);
        }
        self.styles.len()
    }

    /// The style at `index`, in the order of the view.
    pub fn style_at(&self, index: usize) -> (style: &Style)
        requires
            index < self@.len(),
        ensures
            style@ == self@[index as int],
    {
        &self.styles[index]
    }

    /// The style called `name`, if there is one.
    pub fn get(&self, name: &str) -> (r: Option<&Style>)
        ensures
            match r {
                Some(style) => style_of(self@, name@) == Some(style@),
                None => style_of(self@, name@) is None,
            },
    {
        proof {
            use_type_invariant(self);
        }
        let mut i: usize = 0;
        while i < self.styles.len()
            invariant
                i <= self.styles.len(),
                unique_style_names(self@),
                forall|k: int| 0 <= k < i ==> (#[trigger] self@[k]).name != name@,
            decreases self.styles.len() - i,
        {
            if str_eq(self.styles[i].name(), name) {
                proof {
                    assert(self@[i as int].name == name@);
                    let c = choose|k: int|
                        0 <= k < self@.len() && (#[trigger] self@[k]).name == name@;
                    assert(c == i) by {
                        if c < i {
                            assert(self@[c].name != self@[i as int].name);
                        } else if i < c {
                            assert(self@[i as int].name != self@[c].name);
                        }
                    }
                }
                return Some(&self.styles[i]);
            }
            i += 1;
        }
        None
    }

    /// Adds a style. A style of the same name that was there is overridden,
    /// where it stood; a new name comes last.
    pub fn add_style(&mut self, style: Style)
        ensures
            final(self)@ == put_style(old(self)@, style@),
            unique_style_names(old(self)@),
            unique_style_names(final(self)@),
    {
        proof {
            use_type_invariant(&*self);
            lemma_put_style(old(self)@, style@, style@.name);
        }
        let ghost before = styles_view(self.styles@);
        let mut list: Vec<Style> = Vec::new();
        assert(styles_view(list@) =~= Seq::<StyleView>::empty());
        core::mem::swap(&mut list, &mut self.styles);
        let mut found = false;
        let mut i: usize = 0;
        while i < list.len() && !found
            invariant
                i <= list.len(),
                before == styles_view(list@),
                !found ==> forall|k: int| 0 <= k < i ==> (#[trigger] before[k]).name != style@.name,
                found ==> i < list.len() && before[i as int].name == style@.name,
            decreases list.len() - i, (if found { 0int } else { 1int }),
        {
            if str_eq(list[i].name(), style.name()) {
                found = true;
            } else {
                i += 1;
            }
        }
        if found {
            list.set(i, style);
            assert(styles_view(list@) =~= put_style(before, style@)) by {
                let after = styles_view(list@);
                assert forall|k: int| 0 <= k < before.len() implies after[k] == (if before[k].name
                    == style@.name {
                    style@
                } else {
                    before[k]
                }) by {
                    if k != i {
                        if k < i {
                            assert(before[k].name != before[i as int].name);
                        } else {
                            assert(before[i as int].name != before[k].name);
                        }
                    }
                }
            }
        } else {
            assert(!has_style(before, style@.name));
            list.push(style);
            assert(styles_view(list@) =~= before.push(style@));
        }
        self.styles = list;
    }

    /// Adds every style of `other` to this stylesheet, in their order. A
    /// style of `other` overrides the style of the same name here.
    pub fn extend(&mut self, other: Stylesheet)
        ensures
            final(self)@ == merge_styles(old(self)@, other@),
            unique_style_names(old(self)@),
            unique_style_names(other@),
            unique_style_names(final(self)@),
            forall|name: Seq<char>|
                #![trigger style_of(final(self)@, name)]
                style_of(final(self)@, name) == if has_style(other@, name) {
                    style_of(other@, name)
                } else {
                    style_of(old(self)@, name)
                },
    {
        proof {
            use_type_invariant(&*self);
            use_type_invariant(&other);
        }
        let ghost incoming = other@;
        let ghost base = self@;
        let rest = other.styles;
        for style in iter: rest
            invariant
                styles_view(iter.seq()) == incoming,
                self@ == merge_styles(base, incoming.take(iter.index() as int)),
        {
            proof {
                let k = iter.index() as int;
                assert(incoming.take(k + 1).drop_last() =~= incoming.take(k));
                assert(incoming.take(k + 1).last() == incoming[k]);
            }
            self.add_style(style);
        }
        assert(incoming.take(incoming.len() as int) =~= incoming);
        proof {
            use_type_invariant(&*self);
            assert forall|name: Seq<char>|
                #![trigger style_of(self@, name)]
                style_of(self@, name) == if has_style(incoming, name) {
                    style_of(incoming, name)
                } else {
                    style_of(base, name)
                } by {
                lemma_merge_styles(base, incoming, name);
            }
        }
    }

    /// Appends the events of the styles whose automatic flag is `automatic`.
    fn write_where(&self, writer: &mut Vec<Event>, automatic: bool)
        ensures
            events_view(final(writer)@) == events_view(old(writer)@) + styles_events(
                styles_where(self@, automatic),
            ),
    {
        let mut i: usize = 0;
        while i < self.styles.len()
            invariant
                i <= self.styles.len(),
                events_view(writer@) == events_view(old(writer)@) + styles_events(
                    styles_where(self@.take(i as int), automatic),
                ),
            decreases self.styles.len() - i,
        {
            proof {
                assert(self@.take(i as int + 1).drop_last() =~= self@.take(i as int));
                assert(self@.take(i as int + 1).last() == self@[i as int]);
            }
            let style = &self.styles[i];
            if style.is_automatic() == automatic {
                proof {
                    let picked = styles_where(self@.take(i as int + 1), automatic);
                    assert(picked.drop_last() =~= styles_where(self@.take(i as int), automatic));
                }
                style.write_flat_odt_xml(writer);
            }
            i += 1;
        }
        assert(self@.take(self.styles.len() as int) =~= self@);
    }

    /// Appends the events of the named styles, in their order.
    pub fn write_styles(&self, writer: &mut Vec<Event>)
        ensures
            events_view(final(writer)@) == events_view(old(writer)@) + styles_events(
                named_styles(self@),
            ),
    {
        self.write_where(writer, false);
    }

    /// Appends the events of the automatic styles, in their order.
    pub fn write_automatic_styles(&self, writer: &mut Vec<Event>)
        ensures
            events_view(final(writer)@) == events_view(old(writer)@) + styles_events(
                automatic_styles(self@),
            ),
    {
        self.write_where(writer, true);
    }
}

} // verus!
