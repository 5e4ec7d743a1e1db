//! The launcher's view history: which page is shown, and where Escape leads.
//!
//! The history always starts with the root view; pushing the view that is
//! already current does nothing, and popping never removes the root.
use vstd::prelude::*;

verus! {

/// The pages of the launcher window.
#[derive(Debug, Clone, Copy, PartialEq, Eq, Structural)]
pub enum LauncherView {
    Root,
    Actions,
    AiChat,
    Audio,
    Clipboard,
    Dashboard,
    Emoji,
    Extensions,
    Media,
    Network,
    Notifications,
    Preferences,
    ScriptOutput,
    Snippets,
    SystemMonitor,
}

/// The page name of `v` in the window's stack.
pub open spec fn view_name(v: LauncherView) -> Seq<char> {
    match v {
        LauncherView::Root => "root"@,
        LauncherView::Actions => "actions"@,
        LauncherView::AiChat => "ai-chat"@,
        LauncherView::Audio => "audio"@,
        LauncherView::Clipboard => "clipboard"@,
        LauncherView::Dashboard => "dashboard"@,
        LauncherView::Emoji => "emoji"@,
        LauncherView::Extensions => "extensions"@,
        LauncherView::Media => "media"@,
        LauncherView::Network => "network"@,
        LauncherView::Notifications => "notifications"@,
        LauncherView::Preferences => "preferences"@,
        LauncherView::ScriptOutput => "script-output"@,
        LauncherView::Snippets => "snippets"@,
        LauncherView::SystemMonitor => "system-monitor"@,
    }
}

/// The label of the back button shown while `v` is open; empty where there is none.
pub open spec fn back_label_text(v: LauncherView) -> Seq<char> {
    match v {
        LauncherView::Root => ""@,
        LauncherView::Actions => ""@,
        LauncherView::AiChat => "AI Chat"@,
        LauncherView::Audio => "Audio"@,
        LauncherView::Clipboard => "Clipboard"@,
        LauncherView::Dashboard => "Dashboard"@,
        LauncherView::Emoji => "Emoji"@,
        LauncherView::Extensions => "Extensions"@,
        LauncherView::Media => "Media"@,
        LauncherView::Network => "Network"@,
        LauncherView::Notifications => "Notifications"@,
        LauncherView::Preferences => "Preferences"@,
        LauncherView::ScriptOutput => "Output"@,
        LauncherView::Snippets => "Snippets"@,
        LauncherView::SystemMonitor => "System Monitor"@,
    }
}

impl LauncherView {
    /// The page name of this view in the window's stack.
    pub fn name(self) -> (r: &'static str)
        ensures
            r@ == view_name(self),
    {
        match self {
            LauncherView::Root => "root",
            LauncherView::Actions => "actions",
            LauncherView::AiChat => "ai-chat",
            LauncherView::Audio => "audio",
            LauncherView::Clipboard => "clipboard",
            LauncherView::Dashboard => "dashboard",
            LauncherView::Emoji => "emoji",
            LauncherView::Extensions => "extensions",
            LauncherView::Media => "media",
            LauncherView::Network => "network",
            LauncherView::Notifications => "notifications",
            LauncherView::Preferences => "preferences",
            LauncherView::ScriptOutput => "script-output",
            LauncherView::Snippets => "snippets",
            LauncherView::SystemMonitor => "system-monitor",
        }
    }

    /// The label of the back button shown while this view is open.
    pub fn back_label(self) -> (r: &'static str)
        ensures
            r@ == back_label_text(self),
    {
        match self {
            LauncherView::Root | LauncherView::Actions => "",
            LauncherView::AiChat => "AI Chat",
            LauncherView::Audio => "Audio",
            LauncherView::Clipboard => "Clipboard",
            LauncherView::Dashboard => "Dashboard",
            LauncherView::Emoji => "Emoji",
            LauncherView::Extensions => "Extensions",
            LauncherView::Media => "Media",
            LauncherView::Network => "Network",
            LauncherView::Notifications => "Notifications",
            LauncherView::Preferences => "Preferences",
            LauncherView::ScriptOutput => "Output",
            LauncherView::Snippets => "Snippets",
            LauncherView::SystemMonitor => "System Monitor",
        }
    }
}

/// A history that starts with the root view.
pub open spec fn valid_history(h: Seq<LauncherView>) -> bool {
    h.len() >= 1 && h[0] == LauncherView::Root
}

/// The history after showing `v`: `v` is added unless it is already current.
pub open spec fn pushed(h: Seq<LauncherView>, v: LauncherView) -> Seq<LauncherView> {
    if h.last() == v {
        h
    } else {
        h.push(v)
    }
}

/// The history after going back, and the view then current; at the root
/// nothing changes and no view is reported.
pub open spec fn popped(h: Seq<LauncherView>) -> (Seq<LauncherView>, Option<LauncherView>) {
    if h.len() <= 1 {
        (h, None)
    } else {
        (h.drop_last(), Some(h.drop_last().last()))
    }
}

/// The stack of views the user has opened, the current one last.
pub struct NavigationStack {
    history: Vec<LauncherView>,
}

impl View for NavigationStack {
    type V = Seq<LauncherView>;

    closed spec fn view(&self) -> Seq<LauncherView> {
        self.history@
    }
}

impl NavigationStack {
    #[verifier::type_invariant]
    closed spec fn starts_at_root(self) -> bool {
        valid_history(self.history@)
    }

    /// A history holding only the root view.
    pub fn new() -> (s: Self)
        ensures
            s@ == seq![LauncherView::Root],
    {
        let mut history = Vec::new();
        history.push(LauncherView::Root);
        NavigationStack { history }
    }

    /// The view currently shown.
    pub fn current(&self) -> (v: LauncherView)
        ensures
            v == self@.last(),
            valid_history(self@),
    {
        proof {
            use_type_invariant(self);
        }
        self.history[self.history.len() - 1]
    }

    /// Shows `view`, recording it unless it is already current.
    pub fn push(&mut self, view: LauncherView)
        ensures
            final(self)@ == pushed(old(self)@, view),
            valid_history(final(self)@),
    {
        proof {
            use_type_invariant(&*self);
        }
        if self.current() != view {
            let mut history = vec![LauncherView::Root];
            std::mem::swap(&mut history, &mut self.history);
            history.push(view);
            self.history = history;
        }
    }

    /// Goes back one view; returns the view now current, or `None` at the root.
    pub fn pop(&mut self) -> (r: Option<LauncherView>)
        ensures
            (final(self)@, r) == popped(old(self)@),
            valid_history(final(self)@),
    {
        proof {
            use_type_invariant(&*self);
        }
        if self.history.len() <= 1 {
            return None;
        }
        let mut history = vec![LauncherView::Root];
        std::mem::swap(&mut history, &mut self.history);
        history.pop();
        self.history = history;
        Some(self.current())
    }

    /// Returns to the root view, forgetting the history.
    pub fn reset(&mut self)
        ensures
            final(self)@ == seq![LauncherView::Root],
    {
        let mut history = Vec::new();
        history.push(LauncherView::Root);
        self.history = history;
    }
}


/// Going back right after opening a view other than the current one returns
/// to the view shown before, with the history as it was.
pub proof fn lemma_pop_undoes_push(h: Seq<LauncherView>, v: LauncherView)
    requires
        valid_history(h),
        h.last() != v,
    ensures
        popped(pushed(h, v)) == (h, Some(h.last())),
{
    assert(h.push(v).drop_last() =~= h);
}

/// Opening a view makes it current, and opening it again changes nothing.
pub proof fn lemma_push_idempotent(h: Seq<LauncherView>, v: LauncherView)
    requires
        valid_history(h),
    ensures
        pushed(h, v).last() == v,
        pushed(pushed(h, v), v) == pushed(h, v),
{
}

/// At the root, going back changes nothing and reports no view.
pub proof fn lemma_pop_at_root(h: Seq<LauncherView>)
    requires
        valid_history(h),
        h.len() == 1,
    ensures
        popped(h) == (h, None::<LauncherView>),
        h.last() == LauncherView::Root,
{
}

/// Opening and going back keep the history non-empty with the root at its bottom.
pub proof fn lemma_history_stays_valid(h: Seq<LauncherView>, v: LauncherView)
    requires
        valid_history(h),
    ensures
        valid_history(pushed(h, v)),
        valid_history(popped(h).0),
{
}

/// Each view has its own page name.
pub proof fn lemma_view_names_distinct(a: LauncherView, b: LauncherView)
    requires
        a != b,
    ensures
        view_name(a) != view_name(b),
{
        reveal_strlit("root");
        reveal_strlit("actions");
        reveal_strlit("ai-chat");
        reveal_strlit("audio");
        reveal_strlit("clipboard");
        reveal_strlit("dashboard");
        reveal_strlit("emoji");
        reveal_strlit("extensions");
        reveal_strlit("media");
        reveal_strlit("network");
        reveal_strlit("notifications");
        reveal_strlit("preferences");
        reveal_strlit("script-output");
        reveal_strlit("snippets");
        reveal_strlit("system-monitor");
    if view_name(a) == view_name(b) {
        assert(view_name(a).len() == view_name(b).len());
        assert(view_name(a)[0] == view_name(b)[0]);
        assert(view_name(a)[1] == view_name(b)[1]);
        assert(view_name(a)[2] == view_name(b)[2]);
    }
}

/// What the launcher window shows around a view.
pub struct ViewChrome {
    /// The search entry, the action bar and the action-panel hint: only at
    /// the root.
    pub root_controls: bool,
    /// The back button's label, elsewhere.
    pub back_button: Option<String>,
}

/// What the window shows around `view`: the search controls at the root,
/// else a back button labelled `‹  ` and the view's name.
pub fn view_chrome(view: LauncherView) -> (c: ViewChrome)
    ensures
        c.root_controls == (view == LauncherView::Root),
        c.back_button is Some <==> view != LauncherView::Root,
        c.back_button matches Some(b) ==> b@ == "\u{2039}  "@ + back_label_text(view),
{
    if view == LauncherView::Root {
        ViewChrome { root_controls: true, back_button: None }
    } else {
        let mut out = crate::text::chars_of("\u{2039}  ");
        crate::text::extend_all(&mut out, &crate::text::chars_of(view.back_label()));
        ViewChrome { root_controls: false, back_button: Some(crate::text::string_of(&out)) }
    }
}

} // verus!
