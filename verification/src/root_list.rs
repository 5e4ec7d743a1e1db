//! The root list of the launcher: each action falls into one section —
//! Favourites, Recent, Command Center, Applications or Library — and the
//! sections are listed in that order behind their headings.
use vstd::prelude::*;

use crate::text::{chars_of, lowercase, seq_eq, to_lowercase};

verus! {

/// A section of the root list.
#[derive(Debug, Clone, Copy, PartialEq, Eq, Structural)]
pub enum RootSection {
    Favourites,
    Recent,
    CommandCenter,
    Applications,
    Library,
}

/// The heading of a section.
pub open spec fn root_section_title(s: RootSection) -> Seq<char> {
    match s {
        RootSection::Favourites => "Favourites"@,
        RootSection::Recent => "Recent"@,
        RootSection::CommandCenter => "Command Center"@,
        RootSection::Applications => "Applications"@,
        RootSection::Library => "Library"@,
    }
}

impl RootSection {
    /// The heading of the section.
    pub fn title(self) -> (t: &'static str)
        ensures
            t@ == root_section_title(self),
    {
        match self {
            RootSection::Favourites => "Favourites",
            RootSection::Recent => "Recent",
            RootSection::CommandCenter => "Command Center",
            RootSection::Applications => "Applications",
            RootSection::Library => "Library",
        }
    }
}

/// The categories whose actions control the system.
pub open spec fn is_command_center(category: Seq<char>) -> bool {
    category == "Zeshicast"@ || category == "System"@ || category == "Audio"@ || category
        == "Network"@ || category == "Media"@ || category == "Notifications"@
}

/// The section of an action: pinned actions are favourites, then come the
/// recently used ones (by lower-case identity), then the system controls,
/// the applications, and everything else.
pub open spec fn root_section_of(
    pinned: bool,
    identity: Seq<char>,
    recent: Seq<Seq<char>>,
    category: Seq<char>,
) -> RootSection {
    if pinned {
        RootSection::Favourites
    } else if recent.contains(lowercase(identity)) {
        RootSection::Recent
    } else if is_command_center(category) {
        RootSection::CommandCenter
    } else if category == "App"@ {
        RootSection::Applications
    } else {
        RootSection::Library
    }
}

/// The views of a slice of strings.
pub open spec fn string_seq(v: Seq<String>) -> Seq<Seq<char>> {
    Seq::new(v.len(), |i: int| v[i]@)
}

/// Whether `word` equals `s`.
fn is_word(s: &Vec<char>, word: &str) -> (r: bool)
    ensures
        r == (s@ == word@),
{
    seq_eq(s, &chars_of(word))
}

/// The section of the action with identity `identity` and category
/// `category`, given whether it is pinned and the recently used identities.
pub fn root_action_section(
    pinned: bool,
    identity: &str,
    recent_top: &[String],
    category: &str,
) -> (s: RootSection)
    ensures
        s == root_section_of(pinned, identity@, string_seq(recent_top@), category@),
        !pinned && !string_seq(recent_top@).contains(lowercase(identity@)) ==> ((s
            == RootSection::CommandCenter) <==> system_categories().contains(category@)),
{
    proof {
        lemma_root_section_choice(pinned, identity@, string_seq(recent_top@), category@);
    }
    if pinned {
        return RootSection::Favourites;
    }
    let lower = to_lowercase(identity);
    let key = chars_of(lower.as_str());
    let mut i: usize = 0;
    while i < recent_top.len()
        invariant
            i <= recent_top.len(),
            !pinned,
            key@ == lowercase(identity@),
            forall|j: int| 0 <= j < i ==> string_seq(recent_top@)[j] != key@,
        decreases recent_top.len() - i,
    {
        if seq_eq(&chars_of(recent_top[i].as_str()), &key) {
            assert(string_seq(recent_top@)[i as int] == key@);
            assert(string_seq(recent_top@).contains(lowercase(identity@)));
            return RootSection::Recent;
        }
        i = i + 1;
    }
    assert(!string_seq(recent_top@).contains(lowercase(identity@)));
    let c = chars_of(category);
    if is_word(&c, "Zeshicast") || is_word(&c, "System") || is_word(&c, "Audio") || is_word(
        &c,
        "Network",
    ) || is_word(&c, "Media") || is_word(&c, "Notifications") {
        RootSection::CommandCenter
    } else if is_word(&c, "App") {
        RootSection::Applications
    } else {
        RootSection::Library
    }
}

/// A row of the root list: a section heading, or the action at an index of
/// the list of actions.
#[derive(Debug, Clone, Copy, PartialEq, Eq, Structural)]
pub enum RootRow {
    Header(RootSection),
    Item(usize),
}

/// The rows of the actions of section `s`, in their order, given the section
/// of each action.
pub open spec fn section_items(secs: Seq<RootSection>, s: RootSection) -> Seq<RootRow>
    decreases secs.len(),
{
    if secs.len() == 0 {
        Seq::empty()
    } else {
        section_items(secs.drop_last(), s) + if secs.last() == s {
            seq![RootRow::Item((secs.len() - 1) as usize)]
        } else {
            Seq::empty()
        }
    }
}

/// The heading of section `s` and its actions, or nothing when it has none.
pub open spec fn section_block(secs: Seq<RootSection>, s: RootSection) -> Seq<RootRow> {
    let items = section_items(secs, s);
    if items.len() == 0 {
        Seq::empty()
    } else {
        seq![RootRow::Header(s)] + items
    }
}

/// The rows of the root list: the sections in their fixed order, each behind
/// its heading, empty sections left out.
pub open spec fn root_rows(secs: Seq<RootSection>) -> Seq<RootRow> {
    section_block(secs, RootSection::Favourites) + section_block(secs, RootSection::Recent)
        + section_block(secs, RootSection::CommandCenter) + section_block(
        secs,
        RootSection::Applications,
    ) + section_block(secs, RootSection::Library)
}

/// Appends the block of section `s` to `out`.
fn push_section_block(out: &mut Vec<RootRow>, sections: &[RootSection], s: RootSection)
    ensures
        final(out)@ == old(out)@ + section_block(sections@, s),
{
    let mut items: Vec<RootRow> = Vec::new();
    let mut i: usize = 0;
    while i < sections.len()
        invariant
            i <= sections.len(),
            items@ == section_items(sections@.take(i as int), s),
        decreases sections.len() - i,
    {
        assert(sections@.take(i + 1).drop_last() =~= sections@.take(i as int));
        if sections[i] == s {
            items.push(RootRow::Item(i));
        }
        i = i + 1;
    }
    assert(sections@.take(i as int) =~= sections@);
    if items.len() > 0 {
        out.push(RootRow::Header(s));
        let mut k: usize = 0;
        let ghost start = out@;
        while k < items.len()
            invariant
                k <= items.len(),
                out@ == start + items@.take(k as int),
            decreases items.len() - k,
        {
            assert(items@.take(k + 1) =~= items@.take(k as int).push(items@[k as int]));
            out.push(items[k]);
            k = k + 1;
        }
        assert(items@.take(k as int) =~= items@);
        assert(out@ =~= old(out)@ + section_block(sections@, s));
    } else {
        assert(out@ =~= old(out)@ + section_block(sections@, s));
    }
}

/// The rows of the root list for actions with the sections `sections`.
pub fn grouped_root_rows(sections: &[RootSection]) -> (r: Vec<RootRow>)
    ensures
        r@ == root_rows(sections@),
{
    let mut out: Vec<RootRow> = Vec::new();
    push_section_block(&mut out, sections, RootSection::Favourites);
    push_section_block(&mut out, sections, RootSection::Recent);
    push_section_block(&mut out, sections, RootSection::CommandCenter);
    push_section_block(&mut out, sections, RootSection::Applications);
    push_section_block(&mut out, sections, RootSection::Library);
    assert(out@ =~= root_rows(sections@));
    out
}

/// Every action is listed exactly once: the five sections hold as many rows
/// of actions as there are actions.
pub proof fn lemma_every_action_listed_once(secs: Seq<RootSection>)
    ensures
        section_items(secs, RootSection::Favourites).len() + section_items(
            secs,
            RootSection::Recent,
        ).len() + section_items(secs, RootSection::CommandCenter).len() + section_items(
            secs,
            RootSection::Applications,
        ).len() + section_items(secs, RootSection::Library).len() == secs.len(),
    decreases secs.len(),
{
    if secs.len() > 0 {
        lemma_every_action_listed_once(secs.drop_last());
    }
}

/// The index of the action a row shows; -1 for a heading.
pub open spec fn row_index(r: RootRow) -> int {
    match r {
        RootRow::Item(i) => i as int,
        RootRow::Header(_) => -1,
    }
}

/// An action listed under a section belongs to it, and the actions of a
/// section keep the order of the list of actions.
pub proof fn lemma_section_items_in_order(secs: Seq<RootSection>, s: RootSection)
    requires
        secs.len() <= usize::MAX,
    ensures
        forall|a: int|
            0 <= a < section_items(secs, s).len() ==> {
                let x = row_index(#[trigger] section_items(secs, s)[a]);
                &&& 0 <= x < secs.len()
                &&& secs[x] == s
            },
        forall|a: int, b: int|
            0 <= a < b < section_items(secs, s).len() ==> row_index(
                #[trigger] section_items(secs, s)[a],
            ) < row_index(#[trigger] section_items(secs, s)[b]),
    decreases secs.len(),
{
    if secs.len() > 0 {
        let prefix = secs.drop_last();
        lemma_section_items_in_order(prefix, s);
        let rest = section_items(prefix, s);
        let all = section_items(secs, s);
        assert forall|a: int| 0 <= a < rest.len() implies all[a] == rest[a] by {}
        assert forall|a: int| 0 <= a < rest.len() implies secs[row_index(#[trigger] rest[a])] == s by {
            assert(secs[row_index(rest[a])] == prefix[row_index(rest[a])]);
        }
    }
}

/// The categories of the system's own controls: the launcher itself, the
/// system, and the views reached from it (audio, network, media,
/// notifications).
pub open spec fn system_categories() -> Seq<Seq<char>> {
    seq!["Zeshicast"@, "System"@, "Audio"@, "Network"@, "Media"@, "Notifications"@]
}

/// Which section an action lands in: a pinned one among the favourites;
/// else a recently used one (by lower-case identity) under Recent; else one
/// whose category is one of the system's own controls under Command Center,
/// an application under Applications, and anything else in the Library.
pub proof fn lemma_root_section_choice(
    pinned: bool,
    identity: Seq<char>,
    recent: Seq<Seq<char>>,
    category: Seq<char>,
)
    ensures
        pinned ==> root_section_of(pinned, identity, recent, category) == RootSection::Favourites,
        !pinned && recent.contains(lowercase(identity)) ==> root_section_of(
            pinned,
            identity,
            recent,
            category,
        ) == RootSection::Recent,
        !pinned && !recent.contains(lowercase(identity)) ==> ((root_section_of(
            pinned,
            identity,
            recent,
            category,
        ) == RootSection::CommandCenter) <==> system_categories().contains(category)),
        !pinned && !recent.contains(lowercase(identity)) ==> ((root_section_of(
            pinned,
            identity,
            recent,
            category,
        ) == RootSection::Applications) <==> category == "App"@),
{
    reveal_strlit("Zeshicast");
    reveal_strlit("System");
    reveal_strlit("Audio");
    reveal_strlit("Network");
    reveal_strlit("Media");
    reveal_strlit("Notifications");
    reveal_strlit("App");
    let c = system_categories();
    if c.contains(category) {
        let i = choose|i: int| 0 <= i < c.len() && c[i] == category;
        assert(i == 0 || i == 1 || i == 2 || i == 3 || i == 4 || i == 5);
        assert(category != "App"@) by {
            assert(category.len() != 3 || category[0] != 'A' || category[1] != 'p');
        }
    } else {
        if category == "Zeshicast"@ {
            assert(c[0] == category);
        }
        if category == "System"@ {
            assert(c[1] == category);
        }
        if category == "Audio"@ {
            assert(c[2] == category);
        }
        if category == "Network"@ {
            assert(c[3] == category);
        }
        if category == "Media"@ {
            assert(c[4] == category);
        }
        if category == "Notifications"@ {
            assert(c[5] == category);
        }
    }
}

} // verus!
