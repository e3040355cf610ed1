//! The list of entitlements: searching, selecting, and what follows from a
//! key or an event.
pub mod view;

use std::collections::BTreeSet;
use vstd::prelude::*;
use vstd::string::*;
use crate::cache::rows;
use crate::cache::rows::{EntitlementModel, GrantModel};
use crate::cache::{Cache, CacheModel, EntitlementRow, GrantRow, meta_keys};
use crate::fuzzy;
use crate::gcp::Scope;
use crate::numbers;
use crate::numbers::u64_text;
use crate::order;
use crate::refresh::{Decision, EventModel, RefreshEvent, RefreshOptions};
use crate::table;
use crate::table::Keyed;
use crate::text;
use crate::text::{join, last_piece};
use crate::tui::keymap;
use crate::tui::keymap::{Action, Focus, KeyEvent, SearchMove, ctrl_c, dispatch};
use crate::tui::widgets;
use crate::tui::widgets::{InputModel, TextInput};

verus! {

broadcast use vstd::std_specs::btree::group_btree_axioms;

/// How the list is left.
#[derive(Debug)]
pub enum BrowseExit {
    Quit,
    /// Request these entitlements.
    Request(Vec<EntitlementRow>),
    OpenApprovalQueue,
}

/// What follows from a key.
#[derive(Debug)]
pub enum BrowseStep {
    /// Nothing more.
    Stay,
    /// Start a refresh.
    StartRefresh,
    /// The logs are read now.
    ReadLogs,
    /// Leave the list.
    Exit(BrowseExit),
}

pub ghost enum ExitModel {
    Quit,
    Request(Seq<EntitlementModel>),
    OpenApprovalQueue,
}

pub ghost enum StepModel {
    Stay,
    StartRefresh,
    ReadLogs,
    Exit(ExitModel),
}

impl View for BrowseStep {
    type V = StepModel;

    open spec fn view(&self) -> StepModel {
        match self {
            BrowseStep::Stay => StepModel::Stay,
            BrowseStep::StartRefresh => StepModel::StartRefresh,
            BrowseStep::ReadLogs => StepModel::ReadLogs,
            BrowseStep::Exit(BrowseExit::Quit) => StepModel::Exit(ExitModel::Quit),
            BrowseStep::Exit(BrowseExit::Request(v)) => StepModel::Exit(
                ExitModel::Request(rows::entitlement_models(v@)),
            ),
            BrowseStep::Exit(BrowseExit::OpenApprovalQueue) => StepModel::Exit(
                ExitModel::OpenApprovalQueue,
            ),
        }
    }
}

/// The state of the list.
pub struct BrowseScreen {
    account: String,
    refresh_options: RefreshOptions,
    focus: Focus,
    query: TextInput,
    entitlements: Vec<EntitlementRow>,
    /// The places of the entitlements that are shown, in order.
    filtered: Vec<usize>,
    /// The places of the entitlements that are selected.
    selected: BTreeSet<usize>,
    cursor: usize,
    scope_filter: Option<Scope>,
    refresh_in_flight: bool,
    /// The list is not shown before the refresh has ended.
    waiting: bool,
    last_refresh: Option<i64>,
    status: String,
    show_raw: bool,
    show_help: bool,
    show_logs: bool,
    only_marked: bool,
    tracked_grants: Vec<GrantRow>,
}

/// The state of the list, as characters and numbers.
pub ghost struct BrowseModel {
    pub account: Seq<char>,
    pub refresh_options: RefreshOptions,
    pub focus: Focus,
    pub query: InputModel,
    pub entitlements: Seq<EntitlementModel>,
    pub filtered: Seq<int>,
    pub selected: Set<usize>,
    pub cursor: nat,
    pub scope_filter: Option<Scope>,
    pub refresh_in_flight: bool,
    pub waiting: bool,
    pub last_refresh: Option<i64>,
    pub status: Seq<char>,
    pub show_raw: bool,
    pub show_help: bool,
    pub show_logs: bool,
    pub only_marked: bool,
    pub tracked_grants: Seq<GrantModel>,
}

impl View for BrowseScreen {
    type V = BrowseModel;

    closed spec fn view(&self) -> BrowseModel {
        BrowseModel {
            account: self.account@,
            refresh_options: self.refresh_options,
            focus: self.focus,
            query: self.query@,
            entitlements: rows::entitlement_models(self.entitlements@),
            filtered: order::ints(self.filtered@),
            selected: self.selected@,
            cursor: self.cursor as nat,
            scope_filter: self.scope_filter,
            refresh_in_flight: self.refresh_in_flight,
            waiting: self.waiting,
            last_refresh: self.last_refresh,
            status: self.status@,
            show_raw: self.show_raw,
            show_help: self.show_help,
            show_logs: self.show_logs,
            only_marked: self.only_marked,
            tracked_grants: rows::grant_models(self.tracked_grants@),
        }
    }
}

// ---------------------------------------------------------------------------
// What is shown of the entitlements
// ---------------------------------------------------------------------------

/// The text that a query is matched against.
pub open spec fn haystack(e: EntitlementModel) -> Seq<char> {
    e.short_name + " "@ + e.scope_type.name_text() + " "@ + e.scope_type.short_text() + " "@
        + e.scope_id + " "@ + text::joined(e.approvers, " "@)
}

/// The texts that a query is matched against.
pub open spec fn haystacks(s: Seq<EntitlementModel>) -> Seq<Seq<char>> {
    Seq::new(s.len(), |i: int| haystack(s[i]))
}

/// The matcher can score every entitlement against a query. With an empty one
/// nothing is scored.
pub open spec fn scorable(s: Seq<EntitlementModel>, query: Seq<char>) -> bool {
    query.len() > 0 ==> forall|i: int|
        0 <= i < s.len() ==> fuzzy::fits(query, haystack(#[trigger] s[i]))
}

/// The entitlements of the scopes that are wanted, in order.
pub open spec fn wanted(s: Seq<EntitlementModel>, options: RefreshOptions) -> Seq<
    EntitlementModel,
> {
    s.filter(|e: EntitlementModel| options.includes_spec(e.scope_type))
}

impl BrowseModel {
    /// The entitlement at a place is shown: it is of the scope that is filtered
    /// for, and selected where only the selection is shown.
    pub open spec fn shows(self, i: int) -> bool {
        &&& self.scope_filter matches Some(want) ==> self.entitlements[i].scope_type == want
        &&& self.only_marked ==> self.selected.contains(i as usize)
    }

    /// The places of the entitlements that match the query and are shown, the
    /// best match first.
    pub open spec fn listing(self) -> Seq<int> {
        fuzzy::ranking(haystacks(self.entitlements), self.query.text).filter(
            |i: int| self.shows(i),
        )
    }

    /// The list brought up to date. The cursor moves to the last row where it
    /// would be behind it.
    pub open spec fn reindexed(self) -> Self {
        let filtered = self.listing();
        BrowseModel {
            filtered,
            cursor: if filtered.len() > 0 && self.cursor >= filtered.len() {
                (filtered.len() - 1) as nat
            } else {
                self.cursor
            },
            ..self
        }
    }

    /// The selected entitlements, in order.
    pub open spec fn chosen(self) -> Seq<EntitlementModel> {
        order::below(self.entitlements.len()).filter(
            |i: int| self.selected.contains(i as usize),
        ).map_values(|i: int| self.entitlements[i])
    }

    /// The rows that are listed are entitlements, no one twice; the cursor is
    /// on one of them, if there are any; and everything can be searched.
    pub open spec fn wf(self) -> bool {
        &&& self.filtered.no_duplicates()
        &&& forall|k: int|
            0 <= k < self.filtered.len() ==> 0 <= #[trigger] self.filtered[k]
                < self.entitlements.len()
        &&& self.filtered.len() > 0 ==> self.cursor < self.filtered.len()
        &&& self.entitlements.len() <= usize::MAX
        &&& self.query.at <= self.query.text.len()
        &&& scorable(self.entitlements, self.query.text)
    }
}

/// The text that a query is matched against.
fn haystack_of(e: &EntitlementRow) -> (r: String)
    ensures
        r@ == haystack(e@),
{
    let mut r: String = e.short_name.as_str().to_owned();
    r.append(" ");
    r.append(e.scope_type.as_str());
    r.append(" ");
    r.append(e.scope_type.short());
    r.append(" ");
    r.append(e.scope_id.as_str());
    r.append(" ");
    r.append(join(&e.approvers, " ").as_str());
    r
}

/// Whether the matcher can score every entitlement against a query.
fn all_scorable(all: &Vec<EntitlementRow>, query: &str) -> (r: bool)
    ensures
        r == scorable(rows::entitlement_models(all@), query@),
{
    if query.is_empty() {
        return true;
    }
    let ghost s = rows::entitlement_models(all@);
    let mut i: usize = 0;
    while i < all.len()
        invariant
            i <= all.len(),
            query@.len() > 0,
            s == rows::entitlement_models(all@),
            forall|k: int| 0 <= k < i ==> fuzzy::fits(query@, haystack(#[trigger] s[k])),
        decreases all.len() - i,
    {
        assert(s[i as int] == all@[i as int]@);
        if !is_scorable(&all[i], query) {
            return false;
        }
        i += 1;
    }
    true
}

/// Whether the matcher can score an entitlement against a query.
fn is_scorable(e: &EntitlementRow, query: &str) -> (r: bool)
    ensures
        r == fuzzy::fits(query@, haystack(e@)),
{
    fuzzy::can_score(query, haystack_of(e).as_str())
}

/// Keeps the entitlements of the scopes that are wanted.
fn keep_wanted(all: Vec<EntitlementRow>, options: RefreshOptions) -> (r: Vec<EntitlementRow>)
    ensures
        rows::entitlement_models(r@) == wanted(rows::entitlement_models(all@), options),
{
    let ghost keep = |e: EntitlementModel| options.includes_spec(e.scope_type);
    let ghost s = rows::entitlement_models(all@);
    let mut out: Vec<EntitlementRow> = Vec::new();
    let mut i: usize = 0;
    proof {
        reveal(Seq::filter);
        assert(s.take(0) =~= Seq::empty());
        assert(rows::entitlement_models(out@) =~= s.take(0).filter(keep));
    }
    while i < all.len()
        invariant
            i <= all.len(),
            s == rows::entitlement_models(all@),
            keep == (|e: EntitlementModel| options.includes_spec(e.scope_type)),
            rows::entitlement_models(out@) == s.take(i as int).filter(keep),
        decreases all.len() - i,
    {
        let e: &EntitlementRow = &all[i];
        let ghost before = rows::entitlement_models(out@);
        proof {
            assert(s[i as int] == e@);
            assert(s.take(i + 1) =~= s.take(i as int).push(e@));
            s.take(i as int).lemma_filter_push(e@, keep);
        }
        if options.includes(e.scope_type) {
            out.push(e.clone());
            assert(rows::entitlement_models(out@) =~= before.push(e@));
        }
        i += 1;
    }
    assert(s.take(i as int) =~= s);
    out
}

/// A ranking without some of its places is still without duplicates, and
/// within bounds.
proof fn lemma_listing(m: BrowseModel)
    ensures
        m.listing().no_duplicates(),
        forall|k: int|
            0 <= k < m.listing().len() ==> 0 <= #[trigger] m.listing()[k] < m.entitlements.len(),
        forall|i: int| #[trigger] m.listing().contains(i) ==> m.shows(i),
{
    let items = haystacks(m.entitlements);
    let ranked = fuzzy::ranking(items, m.query.text);
    if m.query.text.len() > 0 {
        fuzzy::law_ranking(items, m.query.text);
    }
    assert(ranked.no_duplicates());
    assert forall|k: int| 0 <= k < ranked.len() implies 0 <= #[trigger] ranked[k] < items.len() by {
        assert(ranked.contains(ranked[k]));
    }
    lemma_filter_keeps(ranked, |i: int| m.shows(i), items.len() as int);
}

proof fn lemma_filter_keeps(s: Seq<int>, keep: spec_fn(int) -> bool, bound: int)
    requires
        s.no_duplicates(),
        forall|k: int| 0 <= k < s.len() ==> 0 <= #[trigger] s[k] < bound,
    ensures
        s.filter(keep).no_duplicates(),
        forall|k: int| 0 <= k < s.filter(keep).len() ==> 0 <= #[trigger] s.filter(keep)[k] < bound,
        forall|i: int| #[trigger] s.filter(keep).contains(i) <==> s.contains(i) && keep(i),
    decreases s.len(),
{
    reveal(Seq::filter);
    let f = s.filter(keep);
    if s.len() > 0 {
        let init = s.drop_last();
        let g = init.filter(keep);
        assert forall|k: int| 0 <= k < init.len() implies 0 <= #[trigger] init[k] < bound by {
            assert(init[k] == s[k]);
        }
        lemma_filter_keeps(init, keep, bound);
        assert(!init.contains(s.last())) by {
            if init.contains(s.last()) {
                let k = choose|k: int| 0 <= k < init.len() && init[k] == s.last();
                assert(s[k] == s[s.len() - 1]);
            }
        }
        assert(f == if keep(s.last()) {
            g.push(s.last())
        } else {
            g
        });
        assert(!g.contains(s.last()));
        assert forall|i: int| #[trigger] f.contains(i) <==> s.contains(i) && keep(i) by {
            if f.contains(i) {
                let k = choose|k: int| 0 <= k < f.len() && f[k] == i;
                if k < g.len() {
                    assert(g.contains(g[k]));
                    let l = choose|l: int| 0 <= l < init.len() && init[l] == i;
                    assert(s[l] == i);
                } else {
                    assert(s[s.len() - 1] == i);
                }
            }
            if s.contains(i) && keep(i) {
                let l = choose|l: int| 0 <= l < s.len() && s[l] == i;
                if l < init.len() {
                    assert(init[l] == i);
                    assert(g.contains(i));
                    let k = choose|k: int| 0 <= k < g.len() && g[k] == i;
                    assert(f[k] == i);
                } else {
                    assert(f[f.len() - 1] == i);
                }
            }
        }
        assert forall|k: int| 0 <= k < f.len() implies 0 <= #[trigger] f[k] < bound by {
            assert(f.contains(f[k]));
            let l = choose|l: int| 0 <= l < s.len() && s[l] == f[k];
            assert(0 <= s[l] < bound);
        }
        assert forall|a: int, b: int| 0 <= a < f.len() && 0 <= b < f.len() && a != b implies f[a]
            != f[b] by {
            if a < g.len() && b < g.len() {
                assert(g[a] != g[b]);
            } else if a < g.len() {
                assert(g.contains(g[a]));
            } else {
                assert(g.contains(g[b]));
            }
        }
    }
}

/// Bringing the list up to date makes it well-formed.
pub proof fn law_reindexed_is_wf(m: BrowseModel)
    requires
        m.entitlements.len() <= usize::MAX,
        m.query.at <= m.query.text.len(),
        scorable(m.entitlements, m.query.text),
    ensures
        m.reindexed().wf(),
{
    lemma_listing(m);
}

// ---------------------------------------------------------------------------
// Keys
// ---------------------------------------------------------------------------

impl BrowseModel {
    /// The scope filter after the current one: all, projects, folders,
    /// organizations, and all again.
    pub open spec fn next_scope(self) -> Option<Scope> {
        match self.scope_filter {
            None => Some(Scope::Project),
            Some(Scope::Project) => Some(Scope::Folder),
            Some(Scope::Folder) => Some(Scope::Organization),
            Some(Scope::Organization) => None,
        }
    }

    /// The cursor `n` rows further up.
    pub open spec fn moved_up(self, n: int) -> Self {
        BrowseModel {
            focus: Focus::List,
            cursor: if self.cursor >= n {
                (self.cursor - n) as nat
            } else {
                0
            },
            ..self
        }
    }

    /// The cursor `n` rows further down, but not behind the last one.
    pub open spec fn moved_down(self, n: int) -> Self {
        BrowseModel {
            focus: Focus::List,
            cursor: if self.filtered.len() == 0 {
                self.cursor
            } else if self.cursor + n < self.filtered.len() {
                (self.cursor + n) as nat
            } else {
                (self.filtered.len() - 1) as nat
            },
            ..self
        }
    }

    /// The row at the cursor selected, or no longer selected, and the cursor a
    /// row further down.
    pub open spec fn toggled(self) -> Self {
        let selected = if self.cursor < self.filtered.len() {
            let i = self.filtered[self.cursor as int] as usize;
            if self.selected.contains(i) {
                self.selected.remove(i)
            } else {
                self.selected.insert(i)
            }
        } else {
            self.selected
        };
        let cursor = BrowseModel { selected, ..self }.moved_down(1).cursor;
        let m = BrowseModel { selected, cursor, ..self };
        if self.only_marked {
            m.reindexed()
        } else {
            m
        }
    }

    /// The row at the cursor selected, where nothing else is.
    pub open spec fn with_cursor_row(self) -> Self {
        if self.selected.is_empty() && self.cursor < self.filtered.len() {
            BrowseModel {
                selected: self.selected.insert(self.filtered[self.cursor as int] as usize),
                ..self
            }
        } else {
            self
        }
    }

    /// The selection requested. Once it is, nothing is selected any more.
    pub open spec fn submitted(self) -> (Self, StepModel) {
        let m = self.with_cursor_row();
        if m.chosen().len() == 0 {
            (m, StepModel::Stay)
        } else {
            (
                BrowseModel { selected: Set::empty(), ..m },
                StepModel::Exit(ExitModel::Request(m.chosen())),
            )
        }
    }

    /// A refresh asked for: one at a time.
    pub open spec fn refresh_asked(self) -> (Self, StepModel) {
        if self.refresh_in_flight {
            (self, StepModel::Stay)
        } else {
            (
                BrowseModel { refresh_in_flight: true, status: "refreshing..."@, ..self },
                StepModel::StartRefresh,
            )
        }
    }

    /// What is due at the beginning. A cache that is too old is refreshed before
    /// the list is shown; one refresh runs at a time.
    pub open spec fn begun(self, decision: Decision) -> (Self, StepModel) {
        match decision {
            Decision::Fresh => (self, StepModel::Stay),
            Decision::Soft => self.refresh_asked(),
            Decision::Hard => BrowseModel { waiting: true, ..self }.refresh_asked(),
        }
    }

    /// One layer taken away: the view of the selection, then the query, then
    /// the selection, then the screen itself.
    pub open spec fn peeled(self) -> (Self, StepModel) {
        if self.only_marked {
            (BrowseModel { only_marked: false, ..self }.reindexed(), StepModel::Stay)
        } else if self.query.text.len() > 0 {
            (BrowseModel { query: InputModel::empty(), ..self }.reindexed(), StepModel::Stay)
        } else if !self.selected.is_empty() {
            (BrowseModel { selected: Set::empty(), ..self }, StepModel::Stay)
        } else {
            (self, StepModel::Exit(ExitModel::Quit))
        }
    }

    /// The view of the selection turned on or off.
    pub open spec fn view_toggled(self) -> Self {
        BrowseModel {
            only_marked: !self.only_marked,
            status: if self.only_marked {
                "view: all"@
            } else {
                "view: marked ("@ + numbers::decimal(self.selected.len()) + ")"@
            },
            ..self
        }.reindexed()
    }

    /// The next scope filter.
    pub open spec fn scope_cycled(self) -> Self {
        BrowseModel {
            scope_filter: self.next_scope(),
            status: match self.next_scope() {
                None => "scope filter: all"@,
                Some(s) => "scope filter: "@ + s.name_text(),
            },
            ..self
        }.reindexed()
    }

    pub open spec fn with_query(self, query: InputModel) -> Self {
        BrowseModel { query, ..self }
    }

    /// What an action does.
    pub open spec fn applied(self, action: Action) -> (Self, StepModel) {
        match action {
            Action::Quit => (self, StepModel::Exit(ExitModel::Quit)),
            Action::MoveUp(n) => (self.moved_up(n as int), StepModel::Stay),
            Action::MoveDown(n) => (self.moved_down(n as int), StepModel::Stay),
            Action::JumpTop => (BrowseModel { cursor: 0, ..self }, StepModel::Stay),
            Action::JumpBottom => (
                BrowseModel {
                    cursor: if self.filtered.len() > 0 {
                        (self.filtered.len() - 1) as nat
                    } else {
                        0
                    },
                    ..self
                },
                StepModel::Stay,
            ),
            Action::ToggleSelect => (self.toggled(), StepModel::Stay),
            Action::Submit => self.submitted(),
            Action::Refresh => self.refresh_asked(),
            Action::FocusSearch => (BrowseModel { focus: Focus::Search, ..self }, StepModel::Stay),
            Action::FocusList => (BrowseModel { focus: Focus::List, ..self }, StepModel::Stay),
            Action::ClearSelection => self.peeled(),
            Action::SearchInsert(c) => (
                self.with_query(self.query.inserted(c)).reindexed(),
                StepModel::Stay,
            ),
            Action::SearchBackspace => (
                self.with_query(self.query.backspaced()).reindexed(),
                StepModel::Stay,
            ),
            Action::SearchCursor(SearchMove::Left) => (
                self.with_query(self.query.moved_left()),
                StepModel::Stay,
            ),
            Action::SearchCursor(SearchMove::Right) => (
                self.with_query(self.query.moved_right()),
                StepModel::Stay,
            ),
            Action::SearchCursor(SearchMove::Home) => (
                self.with_query(self.query.moved_home()),
                StepModel::Stay,
            ),
            Action::SearchCursor(SearchMove::End) => (
                self.with_query(self.query.moved_end()),
                StepModel::Stay,
            ),
            Action::SearchDeleteWordBack => (
                self.with_query(self.query.word_deleted()).reindexed(),
                StepModel::Stay,
            ),
            Action::Help => (BrowseModel { show_help: true, ..self }, StepModel::Stay),
            Action::ShowLogs => (BrowseModel { show_logs: true, ..self }, StepModel::ReadLogs),
            Action::ToggleRaw => (
                BrowseModel { show_raw: !self.show_raw, ..self },
                StepModel::Stay,
            ),
            Action::CycleScopeFilter => (self.scope_cycled(), StepModel::Stay),
            Action::ToggleMarkedView => (self.view_toggled(), StepModel::Stay),
            Action::OpenApprovalQueue => (self, StepModel::Exit(ExitModel::OpenApprovalQueue)),
        }
    }

    /// What a key does. While the list waits for a refresh only Ctrl-C counts.
    /// While help or the logs are shown, any key closes them, and Ctrl-C still
    /// quits.
    pub open spec fn handled(self, key: KeyEvent) -> (Self, StepModel) {
        if self.waiting {
            if keymap::is_ctrl_c(key) {
                (self, StepModel::Exit(ExitModel::Quit))
            } else {
                (self, StepModel::Stay)
            }
        } else if self.show_help || self.show_logs {
            if keymap::is_ctrl_c(key) {
                (self, StepModel::Exit(ExitModel::Quit))
            } else {
                (BrowseModel { show_help: false, show_logs: false, ..self }, StepModel::Stay)
            }
        } else {
            match keymap::dispatched(self.focus, key) {
                Some(action) => self.applied(action),
                None => (self, StepModel::Stay),
            }
        }
    }

    /// What an action leaves in the query can be scored.
    pub open spec fn can_apply(self, action: Action) -> bool {
        match action {
            Action::SearchInsert(c) => scorable(self.entitlements, self.query.inserted(c).text),
            Action::SearchBackspace => scorable(self.entitlements, self.query.backspaced().text),
            Action::SearchDeleteWordBack => scorable(
                self.entitlements,
                self.query.word_deleted().text,
            ),
            _ => true,
        }
    }

    /// What a key leaves in the query can be scored.
    pub open spec fn accepts(self, key: KeyEvent) -> bool {
        self.waiting || self.show_help || self.show_logs || (match keymap::dispatched(
            self.focus,
            key,
        ) {
            Some(action) => self.can_apply(action),
            None => true,
        })
    }
}

impl BrowseScreen {
    /// The list and the query are well-formed.
    pub closed spec fn wf(&self) -> bool {
        self@.wf() && self.query.wf()
    }

    /// A well-formed screen is well-formed as a model.
    pub proof fn law_model_is_wf(&self)
        requires
            self.wf(),
        ensures
            self@.wf(),
    {
    }

    /// Whether a key can be taken in: what it leaves in the query must be what
    /// can be scored.
    pub fn accepts(&self, key: KeyEvent) -> (r: bool)
        requires
            self.wf(),
        ensures
            r == self@.accepts(key),
    {
        if self.waiting || self.show_help || self.show_logs {
            return true;
        }
        match dispatch(self.focus, key) {
            Some(Action::SearchInsert(c)) => {
                let mut query: TextInput = self.query.clone();
                query.insert(c);
                all_scorable(&self.entitlements, query.as_str())
            },
            Some(Action::SearchBackspace) => {
                let mut query: TextInput = self.query.clone();
                query.backspace();
                all_scorable(&self.entitlements, query.as_str())
            },
            Some(Action::SearchDeleteWordBack) => {
                let mut query: TextInput = self.query.clone();
                query.delete_word_back();
                all_scorable(&self.entitlements, query.as_str())
            },
            _ => true,
        }
    }

    /// Brings the list up to date.
    fn reindex(&mut self)
        requires
            old(self).query.wf(),
            scorable(old(self)@.entitlements, old(self)@.query.text),
        ensures
            final(self).wf(),
            final(self)@ == old(self)@.reindexed(),
    {
        let ghost m = self@;
        let mut texts: Vec<String> = Vec::new();
        let mut i: usize = 0;
        while i < self.entitlements.len()
            invariant
                i <= self.entitlements.len(),
                *self == *old(self),
                texts.len() == i,
                forall|k: int| 0 <= k < i ==> (#[trigger] texts@[k])@ == haystack(self.entitlements@[k]@),
            decreases self.entitlements.len() - i,
        {
            texts.push(haystack_of(&self.entitlements[i]));
            i += 1;
        }
        let mut items: Vec<&str> = Vec::new();
        let mut i: usize = 0;
        while i < texts.len()
            invariant
                i <= texts.len(),
                items.len() == i,
                forall|k: int| 0 <= k < i ==> (#[trigger] items@[k])@ == texts@[k]@,
            decreases texts.len() - i,
        {
            items.push(texts[i].as_str());
            i += 1;
        }
        proof {
            self.query.law_cursor_within();
            assert(text::texts(items@) =~= haystacks(m.entitlements));
            if m.query.text.len() > 0 {
                assert forall|k: int| 0 <= k < items@.len() implies fuzzy::fits(
                    m.query.text,
                    (#[trigger] items@[k])@,
                ) by {
                    assert(m.entitlements[k] == self.entitlements@[k]@);
                    assert(texts@[k]@ == haystack(m.entitlements[k]));
                }
            }
        }
        let ranked: Vec<usize> = fuzzy::rank(items.as_slice(), self.query.as_str());
        let ghost keep = |i: int| m.shows(i);
        let ghost places = order::ints(ranked@);
        proof {
            reveal(Seq::filter);
            lemma_ranking_in_bounds(m);
        }
        let mut kept: Vec<usize> = Vec::new();
        let mut i: usize = 0;
        assert(order::ints(kept@) =~= places.take(0).filter(keep)) by {
            assert(places.take(0) =~= Seq::empty());
        }
        while i < ranked.len()
            invariant
                i <= ranked.len(),
                *self == *old(self),
                m == self@,
                m.entitlements == rows::entitlement_models(self.entitlements@),
                m.selected == self.selected@,
                m.scope_filter == self.scope_filter,
                m.only_marked == self.only_marked,
                keep == (|i: int| m.shows(i)),
                places == order::ints(ranked@),
                forall|k: int| 0 <= k < places.len() ==> 0 <= #[trigger] places[k] < m.entitlements.len(),
                order::ints(kept@) == places.take(i as int).filter(keep),
            decreases ranked.len() - i,
        {
            let at: usize = ranked[i];
            let ghost before = order::ints(kept@);
            proof {
                assert(places[i as int] == at);
                assert(m.entitlements[at as int] == self.entitlements@[at as int]@);
                assert(places.take(i + 1) =~= places.take(i as int).push(at as int));
                places.take(i as int).lemma_filter_push(at as int, keep);
            }
            let in_scope: bool = match self.scope_filter {
                None => true,
                Some(want) => self.entitlements[at].scope_type == want,
            };
            if in_scope && (!self.only_marked || self.selected.contains(&at)) {
                kept.push(at);
                assert(order::ints(kept@) =~= before.push(at as int));
            }
            i += 1;
        }
        assert(places.take(i as int) =~= places);
        self.filtered = kept;
        if self.filtered.len() > 0 && self.cursor >= self.filtered.len() {
            self.cursor = self.filtered.len() - 1;
        }
        proof {
            law_reindexed_is_wf(m);
        }
    }
}

/// A ranking is within bounds.
proof fn lemma_ranking_in_bounds(m: BrowseModel)
    ensures
        ({
            let ranked = fuzzy::ranking(haystacks(m.entitlements), m.query.text);
            forall|k: int| 0 <= k < ranked.len() ==> 0 <= #[trigger] ranked[k] < m.entitlements.len()
        }),
{
    let items = haystacks(m.entitlements);
    let ranked = fuzzy::ranking(items, m.query.text);
    if m.query.text.len() > 0 {
        fuzzy::law_ranking(items, m.query.text);
    }
    assert forall|k: int| 0 <= k < ranked.len() implies 0 <= #[trigger] ranked[k]
        < m.entitlements.len() by {
        assert(ranked.contains(ranked[k]));
    }
}

impl BrowseScreen {
    fn move_down(&mut self, n: usize)
        requires
            old(self).wf(),
        ensures
            final(self).wf(),
            final(self)@ == (BrowseModel {
                cursor: old(self)@.moved_down(n as int).cursor,
                ..old(self)@
            }),
    {
        let rows: usize = self.filtered.len();
        if rows > 0 {
            if n < rows - self.cursor {
                self.cursor = self.cursor + n;
            } else {
                self.cursor = rows - 1;
            }
        }
    }

    #[verifier::rlimit(40)]
    #[verifier::spinoff_prover]
    fn toggle_select(&mut self)
        requires
            old(self).wf(),
        ensures
            final(self).wf(),
            final(self)@ == old(self)@.toggled(),
    {
        let ghost m = self@;
        if self.cursor < self.filtered.len() {
            let at: usize = self.filtered[self.cursor];
            assert(m.filtered[m.cursor as int] == at);
            if !self.selected.insert(at) {
                self.selected.remove(&at);
                assert(self.selected@ =~= m.selected.remove(at));
            }
        }
        self.move_down(1);
        // The view of the selection mirrors it: a row that is no longer
        // selected has to go at once.
        if self.only_marked {
            self.reindex();
        }
    }

    /// The selected entitlements, in order.
    fn chosen(&self) -> (r: Vec<EntitlementRow>)
        ensures
            rows::entitlement_models(r@) == self@.chosen(),
    {
        let ghost m = self@;
        let ghost keep = |i: int| m.selected.contains(i as usize);
        let ghost pick = |i: int| m.entitlements[i];
        let mut out: Vec<EntitlementRow> = Vec::new();
        let mut i: usize = 0;
        proof {
            reveal(Seq::filter);
            assert(order::below(0) =~= Seq::empty());
            assert(rows::entitlement_models(out@) =~= order::below(0).filter(keep).map_values(pick));
        }
        while i < self.entitlements.len()
            invariant
                i <= self.entitlements.len(),
                m == self@,
                keep == (|i: int| m.selected.contains(i as usize)),
                pick == (|i: int| m.entitlements[i]),
                rows::entitlement_models(out@) == order::below(i as nat).filter(keep).map_values(
                    pick,
                ),
            decreases self.entitlements.len() - i,
        {
            let ghost before = rows::entitlement_models(out@);
            let ghost prior = order::below(i as nat).filter(keep);
            proof {
                assert(m.entitlements[i as int] == self.entitlements@[i as int]@);
                assert(order::below((i + 1) as nat) =~= order::below(i as nat).push(i as int));
                order::below(i as nat).lemma_filter_push(i as int, keep);
            }
            if self.selected.contains(&i) {
                out.push(self.entitlements[i].clone());
                proof {
                    let e = m.entitlements[i as int];
                    assert(rows::entitlement_models(out@) =~= before.push(e));
                    assert(prior.push(i as int).map_values(pick) =~= prior.map_values(pick).push(
                        e,
                    ));
                }
            }
            i += 1;
        }
        out
    }

    fn submit(&mut self) -> (r: BrowseStep)
        requires
            old(self).wf(),
        ensures
            final(self).wf(),
            (final(self)@, r@) == old(self)@.submitted(),
    {
        let ghost m = self@;
        if self.selected.is_empty() && self.cursor < self.filtered.len() {
            let at: usize = self.filtered[self.cursor];
            assert(m.filtered[m.cursor as int] == at);
            self.selected.insert(at);
        }
        let chosen: Vec<EntitlementRow> = self.chosen();
        assert(self@ == m.with_cursor_row());
        if chosen.len() == 0 {
            return BrowseStep::Stay;
        }
        self.selected.clear();
        BrowseStep::Exit(BrowseExit::Request(chosen))
    }

    /// Asks for a refresh, unless one is running.
    pub fn start_refresh(&mut self) -> (r: BrowseStep)
        requires
            old(self).wf(),
        ensures
            final(self).wf(),
            (final(self)@, r@) == old(self)@.refresh_asked(),
    {
        if self.refresh_in_flight {
            return BrowseStep::Stay;
        }
        self.refresh_in_flight = true;
        self.status = "refreshing...".to_owned();
        BrowseStep::StartRefresh
    }

    /// Begins with what is due: nothing for a fresh cache, a refresh in the
    /// background for one that is getting old, and for one that is too old a
    /// refresh that is waited for before the list is shown.
    pub fn begin(&mut self, decision: Decision) -> (r: BrowseStep)
        requires
            old(self).wf(),
        ensures
            final(self).wf(),
            (final(self)@, r@) == old(self)@.begun(decision),
    {
        match decision {
            Decision::Fresh => BrowseStep::Stay,
            Decision::Soft => self.start_refresh(),
            Decision::Hard => {
                self.waiting = true;
                self.start_refresh()
            },
        }
    }

    fn clear_layer(&mut self) -> (r: BrowseStep)
        requires
            old(self).wf(),
        ensures
            final(self).wf(),
            (final(self)@, r@) == old(self)@.peeled(),
    {
        if self.only_marked {
            self.only_marked = false;
            self.reindex();
        } else if !self.query.is_empty() {
            self.query.clear();
            self.reindex();
        } else if !self.selected.is_empty() {
            self.selected.clear();
        } else {
            return BrowseStep::Exit(BrowseExit::Quit);
        }
        BrowseStep::Stay
    }

    fn toggle_view(&mut self)
        requires
            old(self).wf(),
        ensures
            final(self).wf(),
            final(self)@ == old(self)@.view_toggled(),
    {
        self.only_marked = !self.only_marked;
        self.status = if self.only_marked {
            let mut s: String = "view: marked (".to_owned();
            s.append(u64_text(self.selected.len() as u64).as_str());
            s.append(")");
            s
        } else {
            "view: all".to_owned()
        };
        self.reindex();
    }

    fn cycle_scope(&mut self)
        requires
            old(self).wf(),
        ensures
            final(self).wf(),
            final(self)@ == old(self)@.scope_cycled(),
    {
        self.scope_filter = match self.scope_filter {
            None => Some(Scope::Project),
            Some(Scope::Project) => Some(Scope::Folder),
            Some(Scope::Folder) => Some(Scope::Organization),
            Some(Scope::Organization) => None,
        };
        self.status = match self.scope_filter {
            None => "scope filter: all".to_owned(),
            Some(s) => {
                let mut r: String = "scope filter: ".to_owned();
                r.append(s.as_str());
                r
            },
        };
        self.reindex();
    }

    fn search_insert(&mut self, c: char)
        requires
            old(self).wf(),
            old(self)@.can_apply(Action::SearchInsert(c)),
        ensures
            final(self).wf(),
            final(self)@ == old(self)@.with_query(old(self)@.query.inserted(c)).reindexed(),
    {
        self.query.insert(c);
        self.reindex();
    }

    fn search_backspace(&mut self)
        requires
            old(self).wf(),
            old(self)@.can_apply(Action::SearchBackspace),
        ensures
            final(self).wf(),
            final(self)@ == old(self)@.with_query(old(self)@.query.backspaced()).reindexed(),
    {
        self.query.backspace();
        self.reindex();
    }

    fn search_delete_word(&mut self)
        requires
            old(self).wf(),
            old(self)@.can_apply(Action::SearchDeleteWordBack),
        ensures
            final(self).wf(),
            final(self)@ == old(self)@.with_query(old(self)@.query.word_deleted()).reindexed(),
    {
        self.query.delete_word_back();
        self.reindex();
    }

    fn search_move(&mut self, to: SearchMove)
        requires
            old(self).wf(),
        ensures
            final(self).wf(),
            (final(self)@, StepModel::Stay) == old(self)@.applied(Action::SearchCursor(to)),
    {
        match to {
            SearchMove::Left => self.query.move_left(),
            SearchMove::Right => self.query.move_right(),
            SearchMove::Home => self.query.move_home(),
            SearchMove::End => self.query.move_end(),
        }
    }

    /// Carries out an action.
    #[verifier::rlimit(40)]
    #[verifier::spinoff_prover]
    pub fn apply(&mut self, action: Action) -> (r: BrowseStep)
        requires
            old(self).wf(),
            old(self)@.can_apply(action),
        ensures
            final(self).wf(),
            (final(self)@, r@) == old(self)@.applied(action),
    {
        match action {
            Action::Quit => {
                return BrowseStep::Exit(BrowseExit::Quit);
            },
            Action::MoveUp(n) => {
                self.focus = Focus::List;
                self.cursor = self.cursor.saturating_sub(n);
            },
            Action::MoveDown(n) => {
                self.focus = Focus::List;
                self.move_down(n);
            },
            Action::JumpTop => {
                self.cursor = 0;
            },
            Action::JumpBottom => {
                self.cursor = self.filtered.len().saturating_sub(1);
            },
            Action::ToggleSelect => {
                self.toggle_select();
            },
            Action::Submit => {
                return self.submit();
            },
            Action::Refresh => {
                return self.start_refresh();
            },
            Action::FocusSearch => {
                self.focus = Focus::Search;
            },
            Action::FocusList => {
                self.focus = Focus::List;
            },
            Action::ClearSelection => {
                return self.clear_layer();
            },
            Action::SearchInsert(c) => {
                self.search_insert(c);
            },
            Action::SearchBackspace => {
                self.search_backspace();
            },
            Action::SearchCursor(to) => {
                self.search_move(to);
            },
            Action::SearchDeleteWordBack => {
                self.search_delete_word();
            },
            Action::Help => {
                self.show_help = true;
            },
            Action::ShowLogs => {
                self.show_logs = true;
                return BrowseStep::ReadLogs;
            },
            Action::ToggleRaw => {
                self.show_raw = !self.show_raw;
            },
            Action::ToggleMarkedView => {
                self.toggle_view();
            },
            Action::CycleScopeFilter => {
                self.cycle_scope();
            },
            Action::OpenApprovalQueue => {
                return BrowseStep::Exit(BrowseExit::OpenApprovalQueue);
            },
        }
        BrowseStep::Stay
    }

    /// Takes in a key.
    pub fn handle_key(&mut self, key: KeyEvent) -> (r: BrowseStep)
        requires
            old(self).wf(),
            old(self)@.accepts(key),
        ensures
            final(self).wf(),
            (final(self)@, r@) == old(self)@.handled(key),
    {
        if self.waiting {
            if ctrl_c(key) {
                return BrowseStep::Exit(BrowseExit::Quit);
            }
            return BrowseStep::Stay;
        }
        if self.show_help || self.show_logs {
            if ctrl_c(key) {
                return BrowseStep::Exit(BrowseExit::Quit);
            }
            self.show_help = false;
            self.show_logs = false;
            return BrowseStep::Stay;
        }
        match dispatch(self.focus, key) {
            Some(action) => self.apply(action),
            None => BrowseStep::Stay,
        }
    }
}

// ---------------------------------------------------------------------------
// Events
// ---------------------------------------------------------------------------

impl BrowseModel {
    /// The list as it is opened over a cache.
    pub open spec fn opened(
        account: Seq<char>,
        cache: CacheModel,
        options: RefreshOptions,
        now: i64,
    ) -> Self {
        let entitlements = wanted(cache.entitlement_listing(), options);
        BrowseModel {
            account,
            refresh_options: options,
            focus: Focus::List,
            query: InputModel::empty(),
            entitlements,
            filtered: order::below(entitlements.len()),
            selected: Set::empty(),
            cursor: 0,
            scope_filter: None,
            refresh_in_flight: false,
            waiting: false,
            last_refresh: cache.timestamp(meta_keys::ENTITLEMENTS_SCANNED_AT@),
            status: Seq::empty(),
            show_raw: false,
            show_help: false,
            show_logs: false,
            only_marked: false,
            tracked_grants: cache.grant_listing(now),
        }
    }

    /// What an event of a refresh brings can be scored against the query.
    pub open spec fn can_search(self, event: EventModel, cache: CacheModel) -> bool {
        match event {
            EventModel::Started => true,
            EventModel::EntitlementUpserted(row) => self.refresh_options.includes_spec(
                row.scope_type,
            ) && self.query.text.len() > 0 ==> fuzzy::fits(self.query.text, haystack(row)),
            EventModel::Finished { .. } => scorable(
                wanted(cache.entitlement_listing(), self.refresh_options),
                self.query.text,
            ),
        }
    }

    /// What an event of a refresh does. An entitlement that was found takes the
    /// place of the one with its name, or comes behind all others; at the end
    /// the whole list is read again.
    pub open spec fn refreshed(self, event: EventModel, cache: CacheModel, now: i64) -> Self {
        match event {
            EventModel::Started => BrowseModel { refresh_in_flight: true, ..self },
            EventModel::EntitlementUpserted(row) => if self.refresh_options.includes_spec(
                row.scope_type,
            ) {
                BrowseModel {
                    entitlements: table::stored(self.entitlements, row),
                    ..self
                }.reindexed()
            } else {
                self
            },
            EventModel::Finished { total, error } => BrowseModel {
                refresh_in_flight: false,
                waiting: false,
                last_refresh: Some(now),
                status: match error {
                    None => "refresh complete: "@ + numbers::decimal(total) + " entitlements"@,
                    Some(e) => "refresh failed: "@ + e,
                },
                entitlements: wanted(cache.entitlement_listing(), self.refresh_options),
                ..self
            }.reindexed(),
        }
    }
}

/// Stores an entitlement: in place of the first one with its name, or behind
/// all others. Names that are distinct stay so, and a second time changes
/// nothing.
fn upsert_in_place(rows: &mut Vec<EntitlementRow>, row: EntitlementRow)
    ensures
        rows::entitlement_models(final(rows)@) == table::stored(
            rows::entitlement_models(old(rows)@),
            row@,
        ),
        table::distinct(rows::entitlement_models(old(rows)@)) ==> table::distinct(
            rows::entitlement_models(final(rows)@),
        ) && table::stored(rows::entitlement_models(final(rows)@), row@)
            == rows::entitlement_models(final(rows)@),
{
    let ghost s = rows::entitlement_models(rows@);
    let mut i: usize = 0;
    while i < rows.len()
        invariant
            i <= rows.len(),
            *rows == *old(rows),
            s == rows::entitlement_models(rows@),
            forall|k: int| 0 <= k < i ==> (#[trigger] s[k]).key() != row@.key(),
        decreases rows.len() - i,
    {
        assert(s[i as int] == rows@[i as int]@);
        if *rows[i].name.as_str() == *row.name.as_str() {
            proof {
                table::lemma_slot_is(s, row@.key(), i as int);
                if table::distinct(s) {
                    law_found_is_stored_once(s, row@);
                }
            }
            let ghost m = row@;
            rows.set(i, row);
            assert(rows::entitlement_models(rows@) =~= s.update(i as int, m));
            return;
        }
        i += 1;
    }
    proof {
        table::lemma_slot_is(s, row@.key(), s.len() as int);
        if table::distinct(s) {
            law_found_is_stored_once(s, row@);
        }
    }
    let ghost m = row@;
    rows.push(row);
    assert(rows::entitlement_models(rows@) =~= s.push(m));
}

impl BrowseScreen {
    /// Opens the list over a cache.
    pub fn new(account: String, cache: &Cache, options: RefreshOptions, now: i64) -> (r: Self)
        requires
            now - crate::cache::FRESH_TERMINAL_WINDOW_SECS >= i64::MIN,
        ensures
            r.wf(),
            r@ == BrowseModel::opened(account@, cache@, options, now),
    {
        let entitlements: Vec<EntitlementRow> = keep_wanted(cache.entitlements_or_none(), options);
        let filtered: Vec<usize> = order::indices(entitlements.len());
        let r = BrowseScreen {
            account,
            refresh_options: options,
            focus: Focus::List,
            query: TextInput::new(),
            entitlements,
            filtered,
            selected: BTreeSet::new(),
            cursor: 0,
            scope_filter: None,
            refresh_in_flight: false,
            waiting: false,
            last_refresh: cache.meta_timestamp(meta_keys::ENTITLEMENTS_SCANNED_AT),
            status: String::new(),
            show_raw: false,
            show_help: false,
            show_logs: false,
            only_marked: false,
            tracked_grants: cache.grants_or_none(now),
        };
        assert(r@.status =~= Seq::empty());
        r
    }

    /// Reads the grants of the strip again.
    pub fn reload_tracked_grants(&mut self, cache: &Cache, now: i64)
        requires
            old(self).wf(),
            now - crate::cache::FRESH_TERMINAL_WINDOW_SECS >= i64::MIN,
        ensures
            final(self).wf(),
            final(self)@ == (BrowseModel {
                tracked_grants: cache@.grant_listing(now),
                ..old(self)@
            }),
    {
        self.tracked_grants = cache.grants_or_none(now);
    }

    /// Reports that a grant could not be polled, by the last segment of its
    /// name.
    pub fn report_grant_error(&mut self, grant_name: &str, error: &str)
        requires
            old(self).wf(),
        ensures
            final(self).wf(),
            final(self)@ == (BrowseModel {
                status: "grant "@ + text::pieces(grant_name@, '/').last() + ": "@ + error@,
                ..old(self)@
            }),
            text::ends_with(final(self)@.status, ": "@ + error@),
    {
        let mut status: String = "grant ".to_owned();
        status.append(last_piece(grant_name, '/'));
        let ghost head = status@;
        status.append(": ");
        status.append(error);
        proof {
            text::lemma_assoc(head, ": "@, error@);
            assert(status@.skip(head.len() as int) =~= ": "@ + error@);
        }
        self.status = status;
    }

    /// Takes in an event of a refresh.
    pub fn handle_refresh_event(&mut self, event: RefreshEvent, cache: &Cache, now: i64)
        requires
            old(self).wf(),
            old(self)@.can_search(event@, cache@),
        ensures
            final(self).wf(),
            final(self)@ == old(self)@.refreshed(event@, cache@, now),
    {
        match event {
            RefreshEvent::Started => {
                self.refresh_in_flight = true;
            },
            RefreshEvent::EntitlementUpserted(row) => {
                if self.refresh_options.includes(row.scope_type) {
                    proof {
                        lemma_stored_scorable(self@.entitlements, row@, self@.query.text);
                    }
                    upsert_in_place(&mut self.entitlements, row);
                    self.reindex();
                }
            },
            RefreshEvent::Finished { total, error } => {
                self.refresh_in_flight = false;
                self.waiting = false;
                self.last_refresh = Some(now);
                self.status = match error {
                    None => {
                        let mut s: String = "refresh complete: ".to_owned();
                        s.append(u64_text(total as u64).as_str());
                        s.append(" entitlements");
                        s
                    },
                    Some(e) => {
                        let mut s: String = "refresh failed: ".to_owned();
                        s.append(e.as_str());
                        s
                    },
                };
                self.entitlements = keep_wanted(
                    cache.entitlements_or_none(),
                    self.refresh_options,
                );
                self.reindex();
            },
        }
    }

    /// Takes in an event of a refresh, unless it brings an entitlement that
    /// cannot be scored against the query. Tells whether it was taken in.
    pub fn take_refresh_event(&mut self, event: RefreshEvent, cache: &Cache, now: i64) -> (r: bool)
        requires
            old(self).wf(),
        ensures
            final(self).wf(),
            r == old(self)@.can_search(event@, cache@),
            r ==> final(self)@ == old(self)@.refreshed(event@, cache@, now),
            !r ==> final(self)@ == old(self)@,
    {
        let query: &str = self.query.as_str();
        let fits: bool = match &event {
            RefreshEvent::Started => true,
            RefreshEvent::EntitlementUpserted(row) => {
                !self.refresh_options.includes(row.scope_type) || query.is_empty() || is_scorable(
                    row,
                    query,
                )
            },
            RefreshEvent::Finished { .. } => all_scorable(
                &keep_wanted(cache.entitlements_or_none(), self.refresh_options),
                query,
            ),
        };
        if fits {
            self.handle_refresh_event(event, cache, now);
        }
        fits
    }
}

proof fn lemma_stored_scorable(s: Seq<EntitlementModel>, row: EntitlementModel, query: Seq<char>)
    requires
        scorable(s, query),
        query.len() > 0 ==> fuzzy::fits(query, haystack(row)),
    ensures
        scorable(table::stored(s, row), query),
{
    if query.len() > 0 {
        table::lemma_slot(s, row.key());
        let t = table::stored(s, row);
        assert forall|i: int| 0 <= i < t.len() implies fuzzy::fits(
            query,
            haystack(#[trigger] t[i]),
        ) by {
            if t[i] != row {
                assert(t[i] == s[i]);
            }
        }
    }
}

// ---------------------------------------------------------------------------
// Laws
// ---------------------------------------------------------------------------

/// The scope filter comes back after four presses.
pub proof fn law_scope_filter_cycles(m: BrowseModel)
    ensures
        m.scope_cycled().scope_cycled().scope_cycled().scope_cycled().scope_filter
            == m.scope_filter,
{
}

/// What is listed once the list is up to date matches the scope filter, and is
/// selected where only the selection is shown.
pub proof fn law_listing_obeys_filters(m: BrowseModel, i: int)
    requires
        m.reindexed().filtered.contains(i),
    ensures
        m.scope_filter matches Some(want) ==> m.entitlements[i].scope_type == want,
        m.only_marked ==> m.selected.contains(i as usize),
{
    lemma_listing(m);
}

/// Without a query and without filters everything is listed, in order.
pub proof fn law_no_filter_lists_all(m: BrowseModel)
    requires
        m.query.text.len() == 0,
        m.scope_filter is None,
        !m.only_marked,
    ensures
        m.reindexed().filtered == order::below(m.entitlements.len()),
{
    let keep = |i: int| m.shows(i);
    let all = order::below(m.entitlements.len());
    lemma_filter_all(all, keep);
}

proof fn lemma_filter_all(s: Seq<int>, keep: spec_fn(int) -> bool)
    requires
        forall|k: int| 0 <= k < s.len() ==> keep(#[trigger] s[k]),
    ensures
        s.filter(keep) == s,
    decreases s.len(),
{
    reveal(Seq::filter);
    if s.len() > 0 {
        let init = s.drop_last();
        assert forall|k: int| 0 <= k < init.len() implies keep(#[trigger] init[k]) by {
            assert(init[k] == s[k]);
        }
        lemma_filter_all(init, keep);
        assert(keep(s[s.len() - 1]));
        assert(init.push(s.last()) =~= s);
    }
}

/// Escape takes away one layer at a time: while there is a layer it leaves the
/// other ones alone, and it only quits when there is none.
pub proof fn law_escape_peels_one_layer(m: BrowseModel)
    ensures
        ({
            let (n, step) = m.applied(Action::ClearSelection);
            &&& step is Exit <==> !m.only_marked && m.query.text.len() == 0 && m.selected.is_empty()
            &&& step is Exit ==> n == m
            &&& m.only_marked ==> n.query == m.query && n.selected == m.selected
                && !n.only_marked
            &&& !m.only_marked && m.query.text.len() > 0 ==> n.query == InputModel::empty()
                && n.selected == m.selected
            &&& !m.only_marked && m.query.text.len() == 0 && !m.selected.is_empty()
                ==> n.selected.is_empty() && n.filtered == m.filtered
        }),
{
}

/// Selecting a row twice leaves the selection as it was, outside the view of
/// the selection.
pub proof fn law_toggle_twice(m: BrowseModel)
    requires
        m.wf(),
        !m.only_marked,
        m.filtered.len() > 0,
    ensures
        ({
            let once = m.toggled();
            let back = BrowseModel { cursor: m.cursor, ..once };
            back.toggled().selected == m.selected
        }),
{
    let i = m.filtered[m.cursor as int] as usize;
    let once = m.toggled();
    if m.selected.contains(i) {
        assert(once.selected.insert(i) =~= m.selected);
    } else {
        assert(once.selected.remove(i) =~= m.selected);
    }
}

/// What is requested is what is selected; with nothing selected it is the row
/// at the cursor.
pub proof fn law_request_is_the_selection(m: BrowseModel)
    requires
        m.wf(),
        m.filtered.len() > 0,
        m.selected.is_empty(),
    ensures
        m.submitted().1 == StepModel::Exit(
            ExitModel::Request(seq![m.entitlements[m.filtered[m.cursor as int]]]),
        ),
{
    let at = m.filtered[m.cursor as int];
    let n = m.with_cursor_row();
    let keep = |i: int| n.selected.contains(i as usize);
    let pick = |i: int| n.entitlements[i];
    let kept = order::below(n.entitlements.len()).filter(keep);
    order::lemma_kept(n.entitlements.len(), keep);
    assert(n.selected =~= Set::<usize>::empty().insert(at as usize));
    assert(kept.contains(at));
    assert(kept =~= seq![at]) by {
        assert forall|k: int| 0 <= k < kept.len() implies kept[k] == at by {
            assert(kept.contains(kept[k]));
            assert(keep(kept[k]));
        }
        if kept.len() > 1 {
            assert(kept[0] != kept[1]);
        }
    }
    assert(n.chosen() =~= seq![n.entitlements[at]]);
}

/// A request empties the selection, so that the next visit starts anew.
pub proof fn law_request_empties_selection(m: BrowseModel)
    ensures
        m.submitted().1 is Exit ==> m.submitted().0.selected.is_empty(),
{
}

/// Only one refresh runs at a time, and the end of one allows the next.
pub proof fn law_one_refresh_at_a_time(m: BrowseModel, total: nat, error: Option<Seq<char>>, c: CacheModel, now: i64)
    ensures
        m.refresh_asked().1 == StepModel::StartRefresh <==> !m.refresh_in_flight,
        m.refresh_asked().0.refresh_in_flight,
        !m.refreshed(EventModel::Finished { total, error }, c, now).refresh_in_flight,
{
}

/// A cache that is too old is refreshed, and the list waits until the refresh
/// has ended; with any other cache the list is shown at once.
pub proof fn law_too_old_is_waited_for(
    m: BrowseModel,
    decision: Decision,
    row: EntitlementModel,
    key: KeyEvent,
    total: nat,
    error: Option<Seq<char>>,
    c: CacheModel,
    now: i64,
)
    requires
        !m.waiting,
    ensures
        ({
            let n = m.begun(decision).0;
            &&& n.waiting <==> decision == Decision::Hard
            &&& decision != Decision::Fresh ==> n.refresh_in_flight
            &&& n.waiting ==> n.handled(key).0 == n
            &&& n.refreshed(EventModel::Started, c, now).waiting == n.waiting
            &&& n.refreshed(EventModel::EntitlementUpserted(row), c, now).waiting == n.waiting
            &&& !n.refreshed(EventModel::Finished { total, error }, c, now).waiting
        }),
{
}

/// Ctrl-C quits the list whatever is shown.
pub proof fn law_ctrl_c_quits_the_list(m: BrowseModel, key: KeyEvent)
    requires
        keymap::is_ctrl_c(key),
    ensures
        m.handled(key).1 == StepModel::Exit(ExitModel::Quit),
{
    keymap::law_ctrl_c_quits(m.focus, key);
}

/// The rows that are listed are rows there are, and the cursor is on one of
/// them, where there is one.
pub open spec fn in_range(m: BrowseModel) -> bool {
    &&& m.filtered.len() > 0 ==> m.cursor < m.filtered.len()
    &&& forall|k: int|
        0 <= k < m.filtered.len() ==> 0 <= #[trigger] m.filtered[k] < m.entitlements.len()
}

/// Bringing the list up to date puts everything in range.
pub proof fn law_reindexed_is_in_range(m: BrowseModel)
    ensures
        in_range(m.reindexed()),
{
    lemma_listing(m);
}

proof fn lemma_toggled_in_range(m: BrowseModel)
    requires
        in_range(m),
    ensures
        in_range(m.toggled()),
{
    let selected = m.toggled().selected;
    let cursor = BrowseModel { selected, ..m }.moved_down(1).cursor;
    law_reindexed_is_in_range(BrowseModel { selected, cursor, ..m });
}

proof fn lemma_peeled_in_range(m: BrowseModel)
    requires
        in_range(m),
    ensures
        in_range(m.peeled().0),
{
    law_reindexed_is_in_range(BrowseModel { only_marked: false, ..m });
    law_reindexed_is_in_range(BrowseModel { query: InputModel::empty(), ..m });
}

proof fn lemma_views_in_range(m: BrowseModel)
    ensures
        in_range(m.view_toggled()),
        in_range(m.scope_cycled()),
{
    let status = m.view_toggled().status;
    law_reindexed_is_in_range(BrowseModel { only_marked: !m.only_marked, status, ..m });
    let status = m.scope_cycled().status;
    law_reindexed_is_in_range(BrowseModel { scope_filter: m.next_scope(), status, ..m });
}

proof fn lemma_same_list_in_range(m: BrowseModel, n: BrowseModel)
    requires
        in_range(m),
        n.filtered == m.filtered,
        n.cursor == m.cursor,
        n.entitlements == m.entitlements,
    ensures
        in_range(n),
{
}

/// Every action keeps the list in range, whatever is typed, and the
/// entitlements as they are.
#[verifier::rlimit(40)]
#[verifier::spinoff_prover]
pub proof fn law_actions_stay_in_range(m: BrowseModel, action: Action)
    requires
        in_range(m),
    ensures
        in_range(m.applied(action).0),
        m.applied(action).0.entitlements == m.entitlements,
{
    law_actions_keep_data(m, action);
    match action {
        Action::ToggleSelect => {
            lemma_toggled_in_range(m);
        },
        Action::ClearSelection => {
            lemma_peeled_in_range(m);
        },
        Action::ToggleMarkedView | Action::CycleScopeFilter => {
            lemma_views_in_range(m);
        },
        Action::SearchInsert(c) => {
            law_reindexed_is_in_range(m.with_query(m.query.inserted(c)));
        },
        Action::SearchBackspace => {
            law_reindexed_is_in_range(m.with_query(m.query.backspaced()));
        },
        Action::SearchDeleteWordBack => {
            law_reindexed_is_in_range(m.with_query(m.query.word_deleted()));
        },
        Action::SearchCursor(to) => {
            lemma_same_list_in_range(m, m.applied(action).0);
        },
        Action::MoveUp(n) => {
            assert(in_range(m.moved_up(n as int)));
        },
        Action::MoveDown(n) => {
            assert(in_range(m.moved_down(n as int)));
        },
        Action::JumpTop => {},
        Action::JumpBottom => {},
        _ => {
            assert(m.applied(action).0.filtered == m.filtered);
            lemma_same_list_in_range(m, m.applied(action).0);
        },
    }
}

/// Storing a found entitlement keeps the names apart: it takes the place of the
/// one with its name, or comes behind all others, and storing it again changes
/// nothing.
pub proof fn law_found_is_stored_once(s: Seq<EntitlementModel>, row: EntitlementModel)
    requires
        table::distinct(s),
    ensures
        table::distinct(table::stored(s, row)),
        forall|k: int|
            0 <= k < s.len() && (#[trigger] s[k]).name == row.name ==> table::stored(s, row)
                == s.update(k, row),
        (forall|k: int| 0 <= k < s.len() ==> (#[trigger] s[k]).name != row.name)
            ==> table::stored(s, row) == s.push(row),
        table::stored(table::stored(s, row), row) == table::stored(s, row),
{
    table::law_stored_once(s, row);
    assert forall|k: int| 0 <= k < s.len() implies (#[trigger] s[k]).name == s[k].key() by {}
}

/// The data of the list: what no key changes.
pub open spec fn same_data(m: BrowseModel, n: BrowseModel) -> bool {
    &&& n.entitlements == m.entitlements
    &&& n.tracked_grants == m.tracked_grants
    &&& n.last_refresh == m.last_refresh
    &&& n.account == m.account
    &&& n.refresh_options == m.refresh_options
}

/// No action changes what is known of the entitlements and the grants.
pub proof fn law_actions_keep_data(m: BrowseModel, action: Action)
    ensures
        same_data(m, m.applied(action).0),
{
    match action {
        Action::ToggleSelect => {
            assert(same_data(m, m.toggled()));
        },
        Action::Submit => {
            assert(same_data(m, m.submitted().0));
        },
        Action::ClearSelection => {
            assert(same_data(m, m.peeled().0));
        },
        Action::CycleScopeFilter => {
            assert(same_data(m, m.scope_cycled()));
        },
        Action::ToggleMarkedView => {
            assert(same_data(m, m.view_toggled()));
        },
        Action::SearchInsert(c) => {
            assert(same_data(m, m.with_query(m.query.inserted(c)).reindexed()));
        },
        _ => {},
    }
}

/// No key changes what is known of the entitlements and the grants.
pub proof fn law_keys_keep_data(m: BrowseModel, key: KeyEvent)
    ensures
        same_data(m, m.handled(key).0),
{
    if let Some(action) = keymap::dispatched(m.focus, key) {
        law_actions_keep_data(m, action);
    }
}

/// Entitlements of a scope that is skipped never enter the list.
pub proof fn law_skipped_scopes_stay_hidden(
    m: BrowseModel,
    row: EntitlementModel,
    c: CacheModel,
    now: i64,
)
    requires
        !m.refresh_options.includes_spec(row.scope_type),
    ensures
        m.refreshed(EventModel::EntitlementUpserted(row), c, now) == m,
{
}

/// An entitlement is found by its short name, its scope's name and tag, its
/// scope's id and each of its approvers: each stands by itself in the text that
/// is searched.
pub proof fn law_searched_text_holds(e: EntitlementModel, i: int)
    ensures
        text::has_word(haystack(e), e.short_name),
        e.scope_type is Project ==> text::has_word(haystack(e), "project"@) && text::has_word(
            haystack(e),
            "proj"@,
        ),
        e.scope_type is Folder ==> text::has_word(haystack(e), "folder"@) && text::has_word(
            haystack(e),
            "fldr"@,
        ),
        e.scope_type is Organization ==> text::has_word(haystack(e), "organization"@)
            && text::has_word(haystack(e), "org"@),
        text::has_word(haystack(e), e.scope_id),
        0 <= i < e.approvers.len() ==> text::has_word(haystack(e), e.approvers[i]),
{
    let name = e.scope_type.name_text();
    let tag = e.scope_type.short_text();
    let rest = text::joined(e.approvers, " "@);
    let s1 = e.short_name;
    let s2 = s1 + " "@ + name;
    let s3 = s2 + " "@ + tag;
    let s4 = s3 + " "@ + e.scope_id;
    text::lemma_own_word(s1);
    text::lemma_own_word(name);
    text::lemma_own_word(tag);
    text::lemma_own_word(e.scope_id);
    text::lemma_word_stays(s1, s1, name);
    text::lemma_word_stays(name, name, s1);
    text::lemma_word_stays(s2, s1, tag);
    text::lemma_word_stays(s2, name, tag);
    text::lemma_word_stays(tag, tag, s2);
    text::lemma_word_stays(s3, s1, e.scope_id);
    text::lemma_word_stays(s3, name, e.scope_id);
    text::lemma_word_stays(s3, tag, e.scope_id);
    text::lemma_word_stays(e.scope_id, e.scope_id, s3);
    text::lemma_word_stays(s4, s1, rest);
    text::lemma_word_stays(s4, name, rest);
    text::lemma_word_stays(s4, tag, rest);
    text::lemma_word_stays(s4, e.scope_id, rest);
    if 0 <= i < e.approvers.len() {
        text::law_joined_parts_are_words(e.approvers, i);
        text::lemma_word_stays(rest, e.approvers[i], s4);
    }
}

proof fn lemma_filter_ordered(s: Seq<int>, keep: spec_fn(int) -> bool, rel: spec_fn(int, int) -> bool)
    requires
        forall|k: int, l: int| 0 <= k < l < s.len() ==> rel(#[trigger] s[k], #[trigger] s[l]),
    ensures
        forall|k: int, l: int|
            0 <= k < l < s.filter(keep).len() ==> rel(
                #[trigger] s.filter(keep)[k],
                #[trigger] s.filter(keep)[l],
            ),
        forall|k: int| 0 <= k < s.filter(keep).len() ==> s.contains(#[trigger] s.filter(keep)[k]),
    decreases s.len(),
{
    reveal(Seq::filter);
    if s.len() > 0 {
        let init = s.drop_last();
        let f = s.filter(keep);
        let g = init.filter(keep);
        assert forall|k: int, l: int| 0 <= k < l < init.len() implies rel(
            #[trigger] init[k],
            #[trigger] init[l],
        ) by {
            assert(rel(s[k], s[l]));
        }
        lemma_filter_ordered(init, keep, rel);
        assert forall|k: int| 0 <= k < f.len() implies s.contains(#[trigger] f[k]) by {
            if k < g.len() {
                assert(init.contains(g[k]));
                let l = choose|l: int| 0 <= l < init.len() && init[l] == g[k];
                assert(s[l] == f[k]);
            } else {
                assert(s[s.len() - 1] == f[k]);
            }
        }
        assert forall|k: int, l: int| 0 <= k < l < f.len() implies rel(
            #[trigger] f[k],
            #[trigger] f[l],
        ) by {
            if l < g.len() {
                assert(rel(g[k], g[l]));
            } else {
                assert(init.contains(g[k]));
                let n = choose|n: int| 0 <= n < init.len() && init[n] == g[k];
                assert(rel(s[n], s[s.len() - 1]));
            }
        }
    }
}

/// A search lists exactly the entitlements whose own text matches the query,
/// that are of the scope filtered for, and selected where only the selection is
/// shown; the better match first, and equal ones in order.
pub proof fn law_search_lists_the_matches(m: BrowseModel, i: int)
    requires
        m.query.text.len() > 0,
    ensures
        m.reindexed().filtered.contains(i) <==> {
            &&& 0 <= i < m.entitlements.len()
            &&& fuzzy::fuzzy_score(m.query.text, haystack(m.entitlements[i])) is Some
            &&& m.scope_filter matches Some(want) ==> m.entitlements[i].scope_type == want
            &&& m.only_marked ==> m.selected.contains(i as usize)
        },
        forall|k: int, l: int|
            0 <= k < l < m.reindexed().filtered.len() ==> {
                let x = #[trigger] m.reindexed().filtered[k];
                let y = #[trigger] m.reindexed().filtered[l];
                let a = fuzzy::fuzzy_score(m.query.text, haystack(m.entitlements[x]))->0;
                let b = fuzzy::fuzzy_score(m.query.text, haystack(m.entitlements[y]))->0;
                a > b || (a == b && x < y)
            },
{
    let items = haystacks(m.entitlements);
    let ranked = fuzzy::ranking(items, m.query.text);
    let keep = |i: int| m.shows(i);
    let score = |i: int| fuzzy::fuzzy_score(m.query.text, items[i])->0;
    let rel = |x: int, y: int| score(x) > score(y) || (score(x) == score(y) && x < y);
    fuzzy::law_ranking(items, m.query.text);
    assert forall|k: int| 0 <= k < ranked.len() implies 0 <= #[trigger] ranked[k] < items.len() by {
        assert(ranked.contains(ranked[k]));
    }
    lemma_filter_keeps(ranked, keep, items.len() as int);
    lemma_filter_ordered(ranked, keep, rel);
    assert(ranked.contains(i) <==> 0 <= i < items.len() && fuzzy::fuzzy_score(
        m.query.text,
        items[i],
    ) is Some);
    let f = m.reindexed().filtered;
    assert forall|k: int, l: int| 0 <= k < l < f.len() implies {
        let x = #[trigger] f[k];
        let y = #[trigger] f[l];
        let a = fuzzy::fuzzy_score(m.query.text, haystack(m.entitlements[x]))->0;
        let b = fuzzy::fuzzy_score(m.query.text, haystack(m.entitlements[y]))->0;
        a > b || (a == b && x < y)
    } by {
        lemma_listing(m);
        assert(rel(f[k], f[l]));
        assert(0 <= f[k] < items.len());
        assert(0 <= f[l] < items.len());
    }
}

/// Without a query the entitlements that the filters let through are listed, in
/// order.
pub proof fn law_filters_without_a_query(m: BrowseModel, i: int)
    requires
        m.query.text.len() == 0,
    ensures
        m.reindexed().filtered.contains(i) <==> {
            &&& 0 <= i < m.entitlements.len()
            &&& m.scope_filter matches Some(want) ==> m.entitlements[i].scope_type == want
            &&& m.only_marked ==> m.selected.contains(i as usize)
        },
        forall|k: int, l: int|
            0 <= k < l < m.reindexed().filtered.len() ==> (
            #[trigger] m.reindexed().filtered[k]) < #[trigger] m.reindexed().filtered[l],
{
    let n = m.entitlements.len();
    order::lemma_kept(n, |i: int| m.shows(i));
}

/// Bringing the list up to date keeps the cursor where it is, or puts it on the
/// last row, and changes nothing else.
pub proof fn law_reindexing_keeps_the_rest(m: BrowseModel)
    ensures
        ({
            let n = m.reindexed();
            &&& m.cursor < n.filtered.len() ==> n.cursor == m.cursor
            &&& 0 < n.filtered.len() <= m.cursor ==> n.cursor == n.filtered.len() - 1
            &&& n.query == m.query && n.selected == m.selected && n.scope_filter == m.scope_filter
                && n.only_marked == m.only_marked && n.focus == m.focus && n.status == m.status
            &&& same_data(m, n)
            &&& n.show_raw == m.show_raw && n.show_help == m.show_help && n.show_logs == m.show_logs
        }),
{
}

/// What is typed into the search box edits the query, and the list follows it.
pub proof fn law_typing_searches(m: BrowseModel, c: char)
    ensures
        m.applied(Action::SearchInsert(c)).0.query == m.query.inserted(c),
        m.applied(Action::SearchBackspace).0.query == m.query.backspaced(),
        m.applied(Action::SearchDeleteWordBack).0.query == m.query.word_deleted(),
        m.applied(Action::SearchInsert(c)).0.filtered == m.with_query(
            m.query.inserted(c),
        ).reindexed().filtered,
        m.applied(Action::SearchBackspace).0.filtered == m.with_query(
            m.query.backspaced(),
        ).reindexed().filtered,
        m.applied(Action::SearchDeleteWordBack).0.filtered == m.with_query(
            m.query.word_deleted(),
        ).reindexed().filtered,
        m.applied(Action::SearchInsert(c)).0.selected == m.selected,
        m.applied(Action::SearchBackspace).0.selected == m.selected,
        m.applied(Action::SearchInsert(c)).1 == StepModel::Stay,
        m.applied(Action::SearchBackspace).1 == StepModel::Stay,
        m.applied(Action::SearchDeleteWordBack).1 == StepModel::Stay,
        m.with_query(m.query.inserted(c)).query == m.query.inserted(c),
        m.with_query(m.query.inserted(c)).entitlements == m.entitlements,
        m.applied(Action::SearchCursor(SearchMove::Left)).0.query == m.query.moved_left(),
        m.applied(Action::SearchCursor(SearchMove::Right)).0.query == m.query.moved_right(),
        m.applied(Action::SearchCursor(SearchMove::Home)).0.query == m.query.moved_home(),
        m.applied(Action::SearchCursor(SearchMove::End)).0.query == m.query.moved_end(),
{
}

/// The cursor moves by as many rows as are asked for, but not out of the list,
/// and the list gets the focus; the jumps go to its ends.
pub proof fn law_cursor_moves_within_the_list(m: BrowseModel, n: usize)
    requires
        m.filtered.len() > 0,
        m.cursor < m.filtered.len(),
    ensures
        m.applied(Action::MoveDown(n)).0.cursor == (if m.cursor + n < m.filtered.len() {
            m.cursor + n
        } else {
            m.filtered.len() - 1
        }),
        m.applied(Action::MoveUp(n)).0.cursor == (if m.cursor >= n {
            m.cursor - n
        } else {
            0
        }),
        m.applied(Action::MoveDown(n)).0.focus == Focus::List,
        m.applied(Action::MoveUp(n)).0.focus == Focus::List,
        m.applied(Action::JumpTop).0.cursor == 0,
        m.applied(Action::JumpBottom).0.cursor == m.filtered.len() - 1,
        m.applied(Action::MoveDown(n)).0.selected == m.selected,
        m.applied(Action::MoveUp(n)).0.selected == m.selected,
        m.applied(Action::MoveDown(n)).0.filtered == m.filtered,
        m.applied(Action::MoveUp(n)).0.filtered == m.filtered,
{
}

/// Selecting changes exactly the row at the cursor, and goes on to the next row.
pub proof fn law_selecting_toggles_the_row(m: BrowseModel, x: usize)
    requires
        m.wf(),
        m.filtered.len() > 0,
    ensures
        m.toggled().selected.contains(x) <==> (m.selected.contains(x) != (x
            == m.filtered[m.cursor as int])),
        !m.only_marked && m.cursor + 1 < m.filtered.len() ==> m.toggled().cursor == m.cursor + 1,
        !m.only_marked && m.cursor + 1 == m.filtered.len() ==> m.toggled().cursor == m.cursor,
        !m.only_marked ==> m.toggled().filtered == m.filtered,
        m.applied(Action::ToggleSelect) == (m.toggled(), StepModel::Stay),
{
    let i = m.filtered[m.cursor as int];
    assert(0 <= i < m.entitlements.len());
    assert((i as usize) as int == i);
}

/// A request holds exactly the entitlements that are selected, in the order they
/// stand in.
pub proof fn law_request_holds_the_selection(m: BrowseModel) -> (places: Seq<int>)
    requires
        m.wf(),
        exists|x: usize| #[trigger] m.selected.contains(x) && x < m.entitlements.len(),
    ensures
        m.applied(Action::Submit).1 matches StepModel::Exit(ExitModel::Request(rows)) && {
            &&& rows.len() == places.len()
            &&& forall|k: int|
                0 <= k < places.len() ==> 0 <= #[trigger] places[k] < m.entitlements.len() && rows[k]
                    == m.entitlements[places[k]] && m.selected.contains(places[k] as usize)
            &&& forall|x: usize| #[trigger]
                m.selected.contains(x) && x < m.entitlements.len() ==> places.contains(x as int)
            &&& forall|k: int, l: int|
                0 <= k < l < places.len() ==> #[trigger] places[k] < #[trigger] places[l]
        },
{
    let x = choose|x: usize| #[trigger] m.selected.contains(x) && x < m.entitlements.len();
    let keep = |i: int| m.selected.contains(i as usize);
    let kept = order::below(m.entitlements.len()).filter(keep);
    order::lemma_kept(m.entitlements.len(), keep);
    assert(kept.contains(x as int));
    assert(!m.selected.is_empty());
    assert(m.with_cursor_row() == m);
    assert(m.chosen().len() == kept.len());
    assert forall|k: int| 0 <= k < kept.len() implies 0 <= #[trigger] kept[k] < m.entitlements.len()
        && m.chosen()[k] == m.entitlements[kept[k]] && m.selected.contains(kept[k] as usize) by {
        assert(kept.contains(kept[k]));
        assert(keep(kept[k]));
    }
    assert forall|y: usize| #[trigger] m.selected.contains(y) && y
        < m.entitlements.len() implies kept.contains(y as int) by {
        assert((y as int) as usize == y);
        assert(keep(y as int));
    }
    kept
}

/// The scope filter goes from all scopes to projects, folders and organizations,
/// and the list follows it.
pub proof fn law_scope_filter_order(m: BrowseModel)
    ensures
        m.scope_filter is None ==> m.scope_cycled().scope_filter == Some(Scope::Project),
        m.scope_filter == Some(Scope::Project) ==> m.scope_cycled().scope_filter == Some(
            Scope::Folder,
        ),
        m.scope_filter == Some(Scope::Folder) ==> m.scope_cycled().scope_filter == Some(
            Scope::Organization,
        ),
        m.scope_filter == Some(Scope::Organization) ==> m.scope_cycled().scope_filter is None,
        m.scope_cycled().filtered == (BrowseModel {
            scope_filter: m.scope_cycled().scope_filter,
            ..m
        }).reindexed().filtered,
        m.scope_cycled().query == m.query,
        m.scope_cycled().selected == m.selected,
        m.applied(Action::CycleScopeFilter) == (m.scope_cycled(), StepModel::Stay),
        m.view_toggled().only_marked == !m.only_marked,
        m.view_toggled().filtered == (BrowseModel {
            only_marked: !m.only_marked,
            ..m
        }).reindexed().filtered,
        m.applied(Action::ToggleMarkedView) == (m.view_toggled(), StepModel::Stay),
{
    let n = m.scope_cycled();
    let p = BrowseModel { scope_filter: n.scope_filter, ..m };
    assert(n.filtered =~= p.reindexed().filtered) by {
        assert((|i: int| n.shows(i)) =~= (|i: int| p.shows(i)));
        let q = BrowseModel { scope_filter: m.next_scope(), status: n.status, ..m };
        assert((|i: int| q.shows(i)) =~= (|i: int| p.shows(i)));
        assert(q.listing() == p.listing());
    }
    let v = m.view_toggled();
    let w = BrowseModel { only_marked: !m.only_marked, ..m };
    assert(v.filtered =~= w.reindexed().filtered) by {
        let q = BrowseModel { only_marked: !m.only_marked, status: v.status, ..m };
        assert((|i: int| q.shows(i)) =~= (|i: int| w.shows(i)));
        assert(q.listing() == w.listing());
    }
}

/// The remaining actions change one thing each, and say what follows.
pub proof fn law_simple_actions(m: BrowseModel)
    ensures
        m.applied(Action::Quit) == (m, StepModel::Exit(ExitModel::Quit)),
        m.applied(Action::OpenApprovalQueue) == (m, StepModel::Exit(ExitModel::OpenApprovalQueue)),
        m.applied(Action::FocusSearch) == (
            (BrowseModel { focus: Focus::Search, ..m }),
            StepModel::Stay,
        ),
        m.applied(Action::FocusList) == ((BrowseModel { focus: Focus::List, ..m }), StepModel::Stay),
        m.applied(Action::Help) == ((BrowseModel { show_help: true, ..m }), StepModel::Stay),
        m.applied(Action::ShowLogs) == ((BrowseModel { show_logs: true, ..m }), StepModel::ReadLogs),
        m.applied(Action::ToggleRaw) == (
            (BrowseModel { show_raw: !m.show_raw, ..m }),
            StepModel::Stay,
        ),
        m.applied(Action::Refresh) == m.refresh_asked(),
{
}

/// A key closes what is shown over the list; otherwise it does what it stands
/// for there.
pub proof fn law_keys_act_on_what_is_shown(m: BrowseModel, key: KeyEvent)
    requires
        !keymap::is_ctrl_c(key),
        !m.waiting,
    ensures
        m.show_help || m.show_logs ==> m.handled(key) == (
            (BrowseModel { show_help: false, show_logs: false, ..m }),
            StepModel::Stay,
        ),
        !m.show_help && !m.show_logs ==> (match keymap::dispatched(m.focus, key) {
            Some(action) => m.handled(key) == m.applied(action),
            None => m.handled(key) == (m, StepModel::Stay),
        }),
{
}

/// The list opens with the entitlements of the scopes that are wanted, all of
/// them shown, none selected, nothing searched, and the grants of the strip.
pub proof fn law_list_opens(account: Seq<char>, c: CacheModel, options: RefreshOptions, now: i64)
    ensures
        ({
            let m = BrowseModel::opened(account, c, options, now);
            &&& m.account == account
            &&& m.refresh_options == options
            &&& m.entitlements == wanted(c.entitlement_listing(), options)
            &&& m.filtered == order::below(m.entitlements.len())
            &&& m.selected.is_empty()
            &&& m.query.text.len() == 0
            &&& m.cursor == 0
            &&& m.focus == Focus::List
            &&& m.scope_filter is None
            &&& !m.only_marked && !m.show_help && !m.show_logs && !m.show_raw && !m.waiting
                && !m.refresh_in_flight
            &&& m.last_refresh == c.timestamp("entitlements_scanned_at"@)
            &&& m.tracked_grants == c.grant_listing(now)
        }),
{
}

/// Exactly the entitlements of the scopes that are wanted are kept, in order.
pub proof fn law_wanted_scopes(s: Seq<EntitlementModel>, e: EntitlementModel, options: RefreshOptions)
    ensures
        wanted(Seq::empty(), options).len() == 0,
        (e.scope_type is Project && options.projects) || (e.scope_type is Folder && options.folders)
            || (e.scope_type is Organization && options.organizations) ==> wanted(
            s.push(e),
            options,
        ) == wanted(s, options).push(e),
        (e.scope_type is Project && !options.projects) || (e.scope_type is Folder
            && !options.folders) || (e.scope_type is Organization && !options.organizations)
            ==> wanted(s.push(e), options) == wanted(s, options),
{
    reveal(Seq::filter);
    s.lemma_filter_push(e, |e: EntitlementModel| options.includes_spec(e.scope_type));
}

/// The events of a refresh: its start is noted; what it found is stored and
/// listed; its end brings the entitlements of the cache, the time, and how many
/// were found or what went wrong.
pub proof fn law_refresh_events(
    m: BrowseModel,
    row: EntitlementModel,
    total: nat,
    error: Seq<char>,
    c: CacheModel,
    now: i64,
)
    requires
        m.refresh_options.includes_spec(row.scope_type),
    ensures
        m.refreshed(EventModel::Started, c, now) == (BrowseModel { refresh_in_flight: true, ..m }),
        ({
            let n = m.refreshed(EventModel::EntitlementUpserted(row), c, now);
            &&& n.entitlements == table::stored(m.entitlements, row)
            &&& n.filtered == (BrowseModel {
                entitlements: n.entitlements,
                ..m
            }).reindexed().filtered
            &&& n.selected == m.selected && n.query == m.query
        }),
        ({
            let n = m.refreshed(EventModel::Finished { total, error: None }, c, now);
            &&& n.entitlements == wanted(c.entitlement_listing(), m.refresh_options)
            &&& n.last_refresh == Some(now)
            &&& !n.refresh_in_flight && !n.waiting
            &&& n.status == "refresh complete: "@ + numbers::decimal(total) + " entitlements"@
            &&& n.selected == m.selected && n.query == m.query
        }),
        ({
            let n = m.refreshed(EventModel::Finished { total, error: Some(error) }, c, now);
            &&& n.entitlements == wanted(c.entitlement_listing(), m.refresh_options)
            &&& n.last_refresh == Some(now)
            &&& !n.refresh_in_flight && !n.waiting
            &&& n.status == "refresh failed: "@ + error
        }),
{
}

/// What follows from a key is what it says.
pub proof fn law_steps_say_what_they_are(step: BrowseStep)
    ensures
        step is Stay <==> step@ is Stay,
        step is StartRefresh <==> step@ is StartRefresh,
        step is ReadLogs <==> step@ is ReadLogs,
        step matches BrowseStep::Exit(BrowseExit::Quit) ==> step@ == StepModel::Exit(
            ExitModel::Quit,
        ),
        step matches BrowseStep::Exit(BrowseExit::OpenApprovalQueue) ==> step@ == StepModel::Exit(
            ExitModel::OpenApprovalQueue,
        ),
        step matches BrowseStep::Exit(BrowseExit::Request(v)) ==> (step@ matches StepModel::Exit(
            ExitModel::Request(rows),
        ) && rows.len() == v@.len() && forall|i: int|
            0 <= i < v@.len() ==> #[trigger] rows[i] == v@[i]@),
{
}

/// Every action changes what it is for and nothing else of the screen.
#[verifier::rlimit(40)]
#[verifier::spinoff_prover]
pub proof fn law_actions_change_nothing_else(m: BrowseModel, action: Action)
    ensures
        ({
            let n = m.applied(action).0;
            let typing = action is SearchInsert || action is SearchBackspace
                || action is SearchDeleteWordBack;
            &&& !(action is ToggleSelect || action is Submit || action is ClearSelection)
                ==> n.selected == m.selected
            &&& !(typing || action is SearchCursor || action is ClearSelection) ==> n.query
                == m.query
            &&& !(action is CycleScopeFilter) ==> n.scope_filter == m.scope_filter
            &&& !(action is ToggleMarkedView || action is ClearSelection) ==> n.only_marked
                == m.only_marked
            &&& !(action is ToggleRaw) ==> n.show_raw == m.show_raw
            &&& !(action is Help) ==> n.show_help == m.show_help
            &&& !(action is ShowLogs) ==> n.show_logs == m.show_logs
            &&& !(action is Refresh || action is ToggleMarkedView || action is CycleScopeFilter)
                ==> n.status == m.status
            &&& !(action is FocusSearch || action is FocusList || action is MoveUp
                || action is MoveDown) ==> n.focus == m.focus
            &&& !(action is Refresh) ==> n.refresh_in_flight == m.refresh_in_flight
            &&& n.waiting == m.waiting
            &&& !(typing || action is ToggleSelect || action is ClearSelection
                || action is CycleScopeFilter || action is ToggleMarkedView) ==> n.filtered
                == m.filtered
            &&& action is Refresh || action is FocusSearch || action is FocusList || action is Help
                || action is ShowLogs || action is ToggleRaw || action is SearchCursor
                || action is Submit ==> n.cursor == m.cursor
        }),
{
}

/// A refresh that is asked for leaves what is listed, selected and typed; one that
/// begins by itself does too.
pub proof fn law_asking_for_a_refresh_changes_nothing_else(m: BrowseModel, decision: Decision)
    ensures
        ({
            let n = m.refresh_asked().0;
            &&& same_data(m, n)
            &&& n.selected == m.selected && n.query == m.query && n.filtered == m.filtered
            &&& n.cursor == m.cursor && n.scope_filter == m.scope_filter
            &&& n.only_marked == m.only_marked && n.focus == m.focus && n.waiting == m.waiting
            &&& n.show_raw == m.show_raw && n.show_help == m.show_help
            &&& n.show_logs == m.show_logs
            &&& n.refresh_in_flight
            &&& !m.refresh_in_flight ==> n.status == "refreshing..."@
        }),
        ({
            let n = m.begun(decision).0;
            &&& same_data(m, n)
            &&& n.selected == m.selected && n.query == m.query && n.filtered == m.filtered
            &&& n.cursor == m.cursor && n.scope_filter == m.scope_filter
            &&& n.only_marked == m.only_marked && n.focus == m.focus
            &&& n.show_raw == m.show_raw && n.show_help == m.show_help
            &&& n.show_logs == m.show_logs
            &&& n.refresh_in_flight == (m.refresh_in_flight || !(decision is Fresh))
            &&& n.waiting == (m.waiting || decision is Hard)
        }),
{
}

/// News of a refresh leave what the user has chosen and typed, and the grants.
pub proof fn law_refresh_events_keep_the_choices(
    m: BrowseModel,
    event: EventModel,
    c: CacheModel,
    now: i64,
)
    ensures
        ({
            let n = m.refreshed(event, c, now);
            &&& n.account == m.account && n.refresh_options == m.refresh_options
            &&& n.tracked_grants == m.tracked_grants
            &&& n.selected == m.selected && n.query == m.query
            &&& n.scope_filter == m.scope_filter && n.only_marked == m.only_marked
            &&& n.focus == m.focus && n.show_raw == m.show_raw
            &&& n.show_help == m.show_help && n.show_logs == m.show_logs
            &&& !(event is Finished) ==> n.last_refresh == m.last_refresh && n.status == m.status
                && n.waiting == m.waiting
            &&& event is EntitlementUpserted ==> n.refresh_in_flight == m.refresh_in_flight
        }),
{
}

/// Requesting changes the marks and nothing else of the screen.
pub proof fn law_submitting_changes_only_the_marks(m: BrowseModel)
    ensures
        ({
            let n = m.submitted().0;
            &&& same_data(m, n)
            &&& n.query == m.query && n.filtered == m.filtered && n.cursor == m.cursor
            &&& n.scope_filter == m.scope_filter && n.only_marked == m.only_marked
            &&& n.status == m.status && n.focus == m.focus
        }),
{
}

/// The searched text holds nothing but those words and the spaces between them.
pub proof fn law_searched_text_holds_no_more(e: EntitlementModel)
    ensures
        haystack(e).len() == e.short_name.len() + e.scope_type.name_text().len()
            + e.scope_type.short_text().len() + e.scope_id.len() + text::joined(
            e.approvers,
            " "@,
        ).len() + 4,
{
    reveal_strlit(" ");
}

} // verus!
