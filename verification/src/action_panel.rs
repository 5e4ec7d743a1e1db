//! The action panel (Ctrl+K): secondary actions grouped into sections, the
//! confirmation each needs, and the rows the panel lists.
use vstd::prelude::*;

use crate::text::{
    chars_of, extend_all, find, find_from, lowercase, seq_eq, slice_chars, string_of, to_lowercase,
    trim, trim_range,
};

verus! {

/// How dangerous running an action is; anything but `Normal` is confirmed first.
#[derive(Debug, Clone, Copy, PartialEq, Eq, Structural)]
pub enum ActionRisk {
    Normal,
    Shell,
    SystemPower,
    Destructive,
    ClipboardClear,
    ProcessKill,
}

impl ActionRisk {
    /// Whether running an action of this risk waits for a confirmation.
    pub fn requires_confirmation(self) -> (r: bool)
        ensures
            r == (self != ActionRisk::Normal),
    {
        match self {
            ActionRisk::Normal => false,
            _ => true,
        }
    }
}

/// The secondary actions offered for a result.
#[derive(Debug, Clone, Copy, PartialEq, Eq, Structural)]
pub enum SecondaryActionKind {
    Run,
    RunInTerminal,
    CopyValue,
    OpenParent,
    Pin,
    Unpin,
    DeleteClipboardItem,
    ClearClipboardHistory,
}

/// The risk of running secondary action `kind` on an action of risk `risk`:
/// running inherits the action's risk, deleting a clipboard entry is
/// destructive, clearing the clipboard history has a risk of its own, and
/// the rest is harmless.
pub open spec fn secondary_risk(risk: ActionRisk, kind: SecondaryActionKind) -> ActionRisk {
    match kind {
        SecondaryActionKind::Run | SecondaryActionKind::RunInTerminal => risk,
        SecondaryActionKind::DeleteClipboardItem => ActionRisk::Destructive,
        SecondaryActionKind::ClearClipboardHistory => ActionRisk::ClipboardClear,
        _ => ActionRisk::Normal,
    }
}

/// The risk of running secondary action `kind` on an action of risk `action_risk`.
pub fn secondary_action_risk(action_risk: ActionRisk, kind: SecondaryActionKind) -> (r:
    ActionRisk)
    ensures
        r == secondary_risk(action_risk, kind),
{
    match kind {
        SecondaryActionKind::Run | SecondaryActionKind::RunInTerminal => action_risk,
        SecondaryActionKind::DeleteClipboardItem => ActionRisk::Destructive,
        SecondaryActionKind::ClearClipboardHistory => ActionRisk::ClipboardClear,
        _ => ActionRisk::Normal,
    }
}

/// Deleting or clearing clipboard history always asks for a confirmation,
/// whatever the action it is offered for.
pub proof fn lemma_clipboard_removal_is_confirmed(risk: ActionRisk, kind: SecondaryActionKind)
    requires
        kind == SecondaryActionKind::DeleteClipboardItem || kind
            == SecondaryActionKind::ClearClipboardHistory,
    ensures
        secondary_risk(risk, kind) != ActionRisk::Normal,
{
}

/// The sections of the action panel, in the order they are shown.
#[derive(Debug, Clone, Copy, PartialEq, Eq, Structural)]
pub enum ActionPanelSection {
    Primary,
    Manage,
    Clipboard,
    Danger,
}

/// The heading of a section.
pub open spec fn section_title(s: ActionPanelSection) -> Seq<char> {
    match s {
        ActionPanelSection::Primary => "Primary"@,
        ActionPanelSection::Manage => "Manage"@,
        ActionPanelSection::Clipboard => "Clipboard"@,
        ActionPanelSection::Danger => "Danger"@,
    }
}

impl ActionPanelSection {
    /// The heading of this section.
    pub fn title(self) -> (t: &'static str)
        ensures
            t@ == section_title(self),
    {
        match self {
            ActionPanelSection::Primary => "Primary",
            ActionPanelSection::Manage => "Manage",
            ActionPanelSection::Clipboard => "Clipboard",
            ActionPanelSection::Danger => "Danger",
        }
    }

    /// Whether the actions of this section are shown as destructive.
    pub fn is_danger(self) -> (r: bool)
        ensures
            r == (self == ActionPanelSection::Danger),
    {
        match self {
            ActionPanelSection::Danger => true,
            _ => false,
        }
    }
}

/// One row of the action panel as displayed.
pub struct ActionPanelDisplayItem {
    pub title: String,
    pub icon_name: String,
    pub is_section_header: bool,
    pub is_destructive: bool,
}

/// The content of a displayed row.
pub ghost struct DisplayItemView {
    pub title: Seq<char>,
    pub icon_name: Seq<char>,
    pub is_section_header: bool,
    pub is_destructive: bool,
}

impl View for ActionPanelDisplayItem {
    type V = DisplayItemView;

    open spec fn view(&self) -> DisplayItemView {
        DisplayItemView {
            title: self.title@,
            icon_name: self.icon_name@,
            is_section_header: self.is_section_header,
            is_destructive: self.is_destructive,
        }
    }
}

impl ActionPanelDisplayItem {
    /// A copy of this row.
    pub fn duplicate(&self) -> (r: ActionPanelDisplayItem)
        ensures
            r@ == self@,
    {
        ActionPanelDisplayItem {
            title: self.title.clone(),
            icon_name: self.icon_name.clone(),
            is_section_header: self.is_section_header,
            is_destructive: self.is_destructive,
        }
    }
}

/// What choosing a row of the action panel does.
#[derive(Debug, Clone, Copy, PartialEq, Eq, Structural)]
pub enum ActionPanelItemKind {
    Secondary(SecondaryActionKind),
    SetAlias,
}

/// An entry of the action panel.
pub struct ActionPanelItem {
    pub display: ActionPanelDisplayItem,
    pub section: ActionPanelSection,
    pub kind: ActionPanelItemKind,
}

/// The content of an entry.
pub ghost struct ItemView {
    pub display: DisplayItemView,
    pub section: ActionPanelSection,
    pub kind: ActionPanelItemKind,
}

impl View for ActionPanelItem {
    type V = ItemView;

    open spec fn view(&self) -> ItemView {
        ItemView { display: self.display@, section: self.section, kind: self.kind }
    }
}

impl ActionPanelItem {
    /// A copy of this entry.
    pub fn duplicate(&self) -> (r: ActionPanelItem)
        ensures
            r@ == self@,
    {
        ActionPanelItem { display: self.display.duplicate(), section: self.section, kind: self.kind }
    }
}

/// A row of the action panel: a section heading or an entry.
pub enum DisplayedActionPanelRow {
    Header(ActionPanelSection),
    Action(ActionPanelItem),
}

/// The content of a row.
pub ghost enum RowView {
    Header(ActionPanelSection),
    Action(ItemView),
}

impl View for DisplayedActionPanelRow {
    type V = RowView;

    open spec fn view(&self) -> RowView {
        match self {
            DisplayedActionPanelRow::Header(s) => RowView::Header(*s),
            DisplayedActionPanelRow::Action(item) => RowView::Action(item@),
        }
    }
}

/// The views of a sequence of entries.
pub open spec fn item_views(v: Seq<ActionPanelItem>) -> Seq<ItemView> {
    Seq::new(v.len(), |i: int| v[i]@)
}

/// The views of a sequence of rows.
pub open spec fn row_views(v: Seq<DisplayedActionPanelRow>) -> Seq<RowView> {
    Seq::new(v.len(), |i: int| v[i]@)
}

/// The views of a sequence of displayed rows.
pub open spec fn display_views(v: Seq<ActionPanelDisplayItem>) -> Seq<DisplayItemView> {
    Seq::new(v.len(), |i: int| v[i]@)
}

/// The entries of `items` in section `s`, in their order.
pub open spec fn in_section(items: Seq<ItemView>, s: ActionPanelSection) -> Seq<ItemView>
    decreases items.len(),
{
    if items.len() == 0 {
        Seq::empty()
    } else {
        in_section(items.drop_last(), s) + if items.last().section == s {
            seq![items.last()]
        } else {
            Seq::empty()
        }
    }
}

/// The rows of section `s`: its heading and its entries, or nothing when it
/// has no entries.
pub open spec fn section_rows(items: Seq<ItemView>, s: ActionPanelSection) -> Seq<RowView> {
    let entries = in_section(items, s);
    if entries.len() == 0 {
        Seq::empty()
    } else {
        seq![RowView::Header(s)] + entries.map_values(|e: ItemView| RowView::Action(e))
    }
}

/// The rows of the action panel: the sections Primary, Manage, Clipboard and
/// Danger, in that order, each behind its heading, empty sections left out.
pub open spec fn panel_rows(items: Seq<ItemView>) -> Seq<RowView> {
    section_rows(items, ActionPanelSection::Primary) + section_rows(
        items,
        ActionPanelSection::Manage,
    ) + section_rows(items, ActionPanelSection::Clipboard) + section_rows(
        items,
        ActionPanelSection::Danger,
    )
}

/// Whether section `s` has entries among `items`.
fn section_has_entries(items: &[ActionPanelItem], s: ActionPanelSection) -> (r: bool)
    ensures
        r == (in_section(item_views(items@), s).len() > 0),
{
    let mut any = false;
    let mut i: usize = 0;
    while i < items.len()
        invariant
            i <= items.len(),
            any == (in_section(item_views(items@).take(i as int), s).len() > 0),
        decreases items.len() - i,
    {
        assert(item_views(items@).take(i + 1).drop_last() =~= item_views(items@).take(i as int));
        if items[i].section == s {
            any = true;
        }
        i = i + 1;
    }
    assert(item_views(items@).take(i as int) =~= item_views(items@));
    any
}

/// Appends the rows of section `s` to `out`.
fn push_section_rows(
    out: &mut Vec<DisplayedActionPanelRow>,
    items: &[ActionPanelItem],
    s: ActionPanelSection,
)
    ensures
        row_views(final(out)@) == row_views(old(out)@) + section_rows(item_views(items@), s),
{
    if !section_has_entries(items, s) {
        assert(row_views(out@) =~= row_views(out@) + Seq::<RowView>::empty());
        return;
    }
    let ghost start = row_views(out@);
    out.push(DisplayedActionPanelRow::Header(s));
    let ghost with_header = start + seq![RowView::Header(s)];
    assert(row_views(out@) =~= with_header);
    let mut i: usize = 0;
    while i < items.len()
        invariant
            i <= items.len(),
            row_views(out@) == with_header + in_section(item_views(items@).take(i as int), s).map_values(
                |e: ItemView| RowView::Action(e),
            ),
        decreases items.len() - i,
    {
        let ghost before = in_section(item_views(items@).take(i as int), s);
        assert(item_views(items@).take(i + 1).drop_last() =~= item_views(items@).take(i as int));
        if items[i].section == s {
            let ghost prev = row_views(out@);
            out.push(DisplayedActionPanelRow::Action(items[i].duplicate()));
            assert(row_views(out@) =~= prev.push(RowView::Action(item_views(items@)[i as int])));
            assert(in_section(item_views(items@).take(i + 1), s) =~= before.push(
                item_views(items@)[i as int],
            ));
        } else {
            assert(in_section(item_views(items@).take(i + 1), s) =~= before);
        }
        i = i + 1;
        assert(row_views(out@) =~= with_header + in_section(item_views(items@).take(i as int), s).map_values(
            |e: ItemView| RowView::Action(e),
        ));
    }
    assert(item_views(items@).take(i as int) =~= item_views(items@));
    assert(row_views(out@) =~= start + section_rows(item_views(items@), s));
}

/// The rows of the action panel for `items`, grouped by section.
pub fn action_panel_display_rows(items: &[ActionPanelItem]) -> (rows: Vec<
    DisplayedActionPanelRow,
>)
    ensures
        row_views(rows@) == panel_rows(item_views(items@)),
{
    let mut rows: Vec<DisplayedActionPanelRow> = Vec::new();
    push_section_rows(&mut rows, items, ActionPanelSection::Primary);
    push_section_rows(&mut rows, items, ActionPanelSection::Manage);
    push_section_rows(&mut rows, items, ActionPanelSection::Clipboard);
    push_section_rows(&mut rows, items, ActionPanelSection::Danger);
    assert(row_views(rows@) =~= panel_rows(item_views(items@)));
    rows
}


/// How a row is displayed: a heading shows its section's title without an
/// icon; an entry shows its own display.
pub open spec fn row_display(r: RowView) -> DisplayItemView {
    match r {
        RowView::Header(s) => DisplayItemView {
            title: section_title(s),
            icon_name: Seq::empty(),
            is_section_header: true,
            is_destructive: false,
        },
        RowView::Action(item) => item.display,
    }
}

/// The displayed rows for the panel rows `rows`.
pub fn action_panel_display_items(rows: &[DisplayedActionPanelRow]) -> (out: Vec<
    ActionPanelDisplayItem,
>)
    ensures
        display_views(out@) == row_views(rows@).map_values(|r: RowView| row_display(r)),
{
    let mut out: Vec<ActionPanelDisplayItem> = Vec::new();
    let mut i: usize = 0;
    while i < rows.len()
        invariant
            i <= rows.len(),
            display_views(out@) == row_views(rows@).take(i as int).map_values(
                |r: RowView| row_display(r),
            ),
        decreases rows.len() - i,
    {
        let shown = match &rows[i] {
            DisplayedActionPanelRow::Header(section) => ActionPanelDisplayItem {
                title: section.title().to_owned(),
                icon_name: String::new(),
                is_section_header: true,
                is_destructive: false,
            },
            DisplayedActionPanelRow::Action(item) => item.display.duplicate(),
        };
        assert(shown@ == row_display(row_views(rows@)[i as int]));
        let ghost prev = display_views(out@);
        out.push(shown);
        assert(display_views(out@) =~= prev.push(shown@));
        i = i + 1;
        assert(row_views(rows@).take(i as int).map_values(|r: RowView| row_display(r))
            =~= row_views(rows@).take(i - 1).map_values(|r: RowView| row_display(r)).push(
            row_display(row_views(rows@)[i - 1]),
        ));
    }
    assert(row_views(rows@).take(i as int) =~= row_views(rows@));
    out
}

/// Whether an entry stays listed for the search text `q` (already trimmed
/// and lower-cased): an empty search keeps everything, else the lower-cased
/// title must contain `q`.
pub open spec fn item_matches(q: Seq<char>, item: ItemView) -> bool {
    q.len() == 0 || find(lowercase(item.display.title), q) is Some
}

/// The entries of `items` that stay listed for `q`, in their order.
pub open spec fn filter_items(items: Seq<ItemView>, q: Seq<char>) -> Seq<ItemView>
    decreases items.len(),
{
    if items.len() == 0 {
        Seq::empty()
    } else {
        filter_items(items.drop_last(), q) + if item_matches(q, items.last()) {
            seq![items.last()]
        } else {
            Seq::empty()
        }
    }
}

/// The entries that stay listed when the panel's search field holds `query`.
pub fn filter_action_panel_items(query: &str, items: &[ActionPanelItem]) -> (r: Vec<
    ActionPanelItem,
>)
    ensures
        item_views(r@) == filter_items(item_views(items@), lowercase(trim(query@))),
        item_views(r@) == item_views(items@).filter(kept_by_search(lowercase(trim(query@)))),
{
    proof {
        lemma_filter_keeps_titles_containing(item_views(items@), lowercase(trim(query@)));
    }
    let qc = chars_of(query);
    let (lo, hi) = trim_range(&qc);
    let trimmed = string_of(&slice_chars(&qc, lo, hi));
    let q_lower = to_lowercase(trimmed.as_str());
    let q = chars_of(q_lower.as_str());
    let ghost qv = lowercase(trim(query@));
    assert(q@ == qv);
    let mut out: Vec<ActionPanelItem> = Vec::new();
    let mut i: usize = 0;
    while i < items.len()
        invariant
            i <= items.len(),
            q@ == qv,
            item_views(out@) == filter_items(item_views(items@).take(i as int), qv),
        decreases items.len() - i,
    {
        assert(item_views(items@).take(i + 1).drop_last() =~= item_views(items@).take(i as int));
        let keep = if q.len() == 0 {
            true
        } else {
            let title = chars_of(to_lowercase(items[i].display.title.as_str()).as_str());
            assert(title@.skip(0) =~= title@);
            match find_from(&title, &q, 0) {
                Some(_) => true,
                None => false,
            }
        };
        assert(keep == item_matches(qv, item_views(items@)[i as int]));
        let ghost prev = item_views(out@);
        if keep {
            out.push(items[i].duplicate());
            assert(item_views(out@) =~= prev.push(item_views(items@)[i as int]));
        }
        assert(item_views(out@) =~= filter_items(item_views(items@).take(i + 1), qv));
        i = i + 1;
    }
    assert(item_views(items@).take(i as int) =~= item_views(items@));
    out
}

/// Every entry is listed exactly once: the panel shows as many entry rows as
/// there are entries, one section at a time.
pub proof fn lemma_every_entry_listed_once(items: Seq<ItemView>)
    ensures
        in_section(items, ActionPanelSection::Primary).len() + in_section(
            items,
            ActionPanelSection::Manage,
        ).len() + in_section(items, ActionPanelSection::Clipboard).len() + in_section(
            items,
            ActionPanelSection::Danger,
        ).len() == items.len(),
    decreases items.len(),
{
    if items.len() > 0 {
        lemma_every_entry_listed_once(items.drop_last());
    }
}

/// Every listed entry of a section belongs to it and comes from the entries.
pub proof fn lemma_section_entries_belong(items: Seq<ItemView>, s: ActionPanelSection, k: int)
    requires
        0 <= k < in_section(items, s).len(),
    ensures
        in_section(items, s)[k].section == s,
        items.contains(in_section(items, s)[k]),
    decreases items.len(),
{
    if items.len() > 0 {
        let rest = in_section(items.drop_last(), s);
        if k < rest.len() {
            lemma_section_entries_belong(items.drop_last(), s, k);
            let j = choose|j: int| 0 <= j < items.drop_last().len() && items.drop_last()[j] == rest[k];
            assert(items[j] == rest[k]);
        } else {
            assert(items[items.len() - 1] == items.last());
        }
    }
}

/// The detail of the confirmation for running an action: `category: title`,
/// and the action's value on a line of its own when it differs from the title.
pub open spec fn confirmation_detail_text(category: Seq<char>, title: Seq<char>, value: Seq<char>) -> Seq<
    char,
> {
    if value == title {
        category + ": "@ + title
    } else {
        category + ": "@ + title + "\n"@ + value
    }
}

/// The detail of the confirmation for running an action.
pub fn action_confirmation_detail(category: &str, title: &str, value: &str) -> (r: String)
    ensures
        r@ == confirmation_detail_text(category@, title@, value@),
{
    let t = chars_of(title);
    let v = chars_of(value);
    let mut out = chars_of(category);
    extend_all(&mut out, &chars_of(": "));
    extend_all(&mut out, &t);
    if !seq_eq(&v, &t) {
        extend_all(&mut out, &chars_of("\n"));
        extend_all(&mut out, &v);
    }
    string_of(&out)
}

/// The detail of the confirmation for secondary action `kind`.
pub open spec fn secondary_detail_text(
    kind: SecondaryActionKind,
    category: Seq<char>,
    title: Seq<char>,
    value: Seq<char>,
) -> Seq<char> {
    match kind {
        SecondaryActionKind::DeleteClipboardItem => "Delete clipboard item:\n"@ + value,
        SecondaryActionKind::ClearClipboardHistory =>
            "This clears all local clipboard history stored by Zeshicast."@,
        _ => confirmation_detail_text(category, title, value),
    }
}

/// The detail of the confirmation for secondary action `kind` on an action.
pub fn secondary_action_confirmation_detail(
    kind: SecondaryActionKind,
    category: &str,
    title: &str,
    value: &str,
) -> (r: String)
    ensures
        r@ == secondary_detail_text(kind, category@, title@, value@),
{
    match kind {
        SecondaryActionKind::DeleteClipboardItem => {
            let mut out = chars_of("Delete clipboard item:\n");
            extend_all(&mut out, &chars_of(value));
            string_of(&out)
        },
        SecondaryActionKind::ClearClipboardHistory => {
            "This clears all local clipboard history stored by Zeshicast.".to_owned()
        },
        _ => action_confirmation_detail(category, title, value),
    }
}

/// The display items of the action panel for `items`: each non-empty
/// section's heading, then its entries, sections in their fixed order.
pub fn action_panel_displays(items: &[ActionPanelItem]) -> (out: Vec<ActionPanelDisplayItem>)
    ensures
        display_views(out@) == panel_rows(item_views(items@)).map_values(|r: RowView| row_display(r)),
{
    let rows = action_panel_display_rows(items);
    action_panel_display_items(&rows)
}

/// What the search text `q` keeps: everything when it is empty, else the
/// entries whose lower-cased title contains `q` somewhere.
pub open spec fn kept_by_search(q: Seq<char>) -> spec_fn(ItemView) -> bool {
    |it: ItemView| q.len() == 0 || crate::text::occurs_in(lowercase(it.display.title), q)
}

/// The search keeps exactly the entries whose lower-cased title contains the
/// trimmed, lower-cased search text anywhere (all of them for an empty
/// search), in their order.
pub proof fn lemma_filter_keeps_titles_containing(items: Seq<ItemView>, q: Seq<char>)
    ensures
        filter_items(items, q) == items.filter(kept_by_search(q)),
    decreases items.len(),
{
    reveal(Seq::filter);
    if items.len() > 0 {
        let pred = kept_by_search(q);
        lemma_filter_keeps_titles_containing(items.drop_last(), q);
        crate::text::lemma_find_iff_occurs(lowercase(items.last().display.title), q);
        assert(item_matches(q, items.last()) == pred(items.last()));
        let sub = items.drop_last().filter(pred);
        assert(items.filter(pred) == if pred(items.last()) {
            sub.push(items.last())
        } else {
            sub
        });
        if pred(items.last()) {
            assert(sub + seq![items.last()] =~= sub.push(items.last()));
        } else {
            assert(sub + Seq::<ItemView>::empty() =~= sub);
        }
    }
}

} // verus!
