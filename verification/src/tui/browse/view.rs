//! What the list of entitlements shows: titles, rows, the preview, the strip
//! of grants, the status line and the help.
use std::time::SystemTime;
use vstd::prelude::*;
use vstd::string::*;
use crate::cache::rows;
use crate::cache::rows::{EntitlementModel, GrantModel};
use crate::cache::{EntitlementRow, GrantRow};
use crate::gcp::Scope;
use crate::gcp::grants::{GrantState, StateModel};
use crate::numbers;
use crate::numbers::u64_text;
use crate::logs::LogState;
use crate::order;
use crate::text;
use crate::text::{non_empty, opt_str, pad_right, truncate};
use crate::tui::approval_queue;
use crate::tui::approval_queue::{age_in_secs, age_words};
use crate::tui::browse::{BrowseModel, BrowseScreen};
use crate::tui::keymap::Focus;
use crate::tui::styled;
use crate::tui::styled::{Area, Line, SpanModel, Tone, centered};
use crate::tui::widgets;
use crate::tui::widgets::{format_age, format_age_between};

verus! {

broadcast use vstd::std_specs::btree::group_btree_axioms;

// ---------------------------------------------------------------------------
// The search box and the list
// ---------------------------------------------------------------------------

impl BrowseModel {
    /// The title of the search box, with how many rows are listed.
    pub open spec fn search_title(self) -> Seq<char> {
        " search"@ + (if self.focus == Focus::Search {
            "*"@
        } else {
            ""@
        }) + " ("@ + numbers::decimal(self.filtered.len()) + " of "@ + numbers::decimal(
            self.entitlements.len(),
        ) + ") "@
    }

    /// The title of the list.
    pub open spec fn list_title(self) -> Seq<char> {
        " "@ + (if self.only_marked {
            "marked"@
        } else {
            "entitlements"@
        }) + (if self.focus == Focus::List {
            "* "@
        } else {
            " "@
        })
    }

    /// The row of an entitlement.
    pub open spec fn row_model(self, i: int) -> Seq<SpanModel> {
        let e = self.entitlements[i];
        let marked = self.selected.contains(i as usize);
        let auto = e.approvers.len() == 0;
        seq![
            if marked {
                styled::span("[*]"@, Tone::GreenBold)
            } else {
                styled::span("[ ]"@, Tone::Dim)
            },
            styled::plain(" "@),
            if auto {
                styled::span("[auto]"@, Tone::Cyan)
            } else {
                styled::span("[appr]"@, Tone::Yellow)
            },
            styled::plain(" "@),
            styled::plain(e.short_name),
            styled::plain("  "@),
            styled::span(
                scope_label_text(e.scope_type, e.scope_id, e.scope_display_name),
                Tone::Dim,
            ),
        ]
    }

    /// The rows of the list.
    pub open spec fn rows_model(self) -> Seq<Seq<SpanModel>> {
        self.filtered.map_values(|i: int| self.row_model(i))
    }

    /// The row that is highlighted.
    pub open spec fn highlighted(self) -> Option<nat> {
        if self.filtered.len() > 0 {
            Some(styled::least(self.cursor as int, self.filtered.len() - 1) as nat)
        } else {
            None
        }
    }
}

/// A scope, by its name where one is known, else by its id.
pub open spec fn scope_label_text(
    scope: Scope,
    id: Seq<char>,
    name: Option<Seq<char>>,
) -> Seq<char> {
    scope.short_text() + ":"@ + match text::kept_non_empty(name) {
        Some(n) => n,
        None => id,
    }
}

/// A scope, by its name where one is known, else by its id.
pub fn scope_label(scope: Scope, id: &str, name: &Option<String>) -> (r: String)
    ensures
        r@ == scope_label_text(scope, id@, name.deep_view()),
{
    let mut r: String = scope.short().to_owned();
    r.append(":");
    match non_empty(opt_str(name)) {
        Some(n) => r.append(n),
        None => r.append(id),
    }
    r
}

impl BrowseScreen {
    /// What has the focus.
    pub fn focus(&self) -> (r: Focus)
        ensures
            r == self@.focus,
    {
        self.focus
    }

    /// The text of the query.
    pub fn query(&self) -> (r: &str)
        ensures
            r@ == self@.query.text,
    {
        self.query.as_str()
    }

    /// The column of the cursor in the search box.
    pub fn query_cursor(&self) -> (r: u32)
        requires
            self.wf(),
        ensures
            r == 1 + self@.query.at % 0x1_0000,
    {
        1 + self.query.display_cursor() as u32
    }

    /// The help is shown.
    pub fn shows_help(&self) -> (r: bool)
        ensures
            r == self@.show_help,
    {
        self.show_help
    }

    /// The logs are shown.
    pub fn shows_logs(&self) -> (r: bool)
        ensures
            r == self@.show_logs,
    {
        self.show_logs
    }

    /// The options that the list was opened with.
    pub fn refresh_options(&self) -> (r: crate::refresh::RefreshOptions)
        ensures
            r == self@.refresh_options,
    {
        self.refresh_options
    }

    /// The title of the search box.
    pub fn search_title(&self) -> (r: String)
        ensures
            r@ == self@.search_title(),
    {
        let mut r: String = " search".to_owned();
        if self.focus == Focus::Search {
            r.append("*");
        } else {
            r.append("");
        }
        r.append(" (");
        r.append(u64_text(self.filtered.len() as u64).as_str());
        r.append(" of ");
        r.append(u64_text(self.entitlements.len() as u64).as_str());
        r.append(") ");
        r
    }

    /// The title of the list.
    pub fn list_title(&self) -> (r: String)
        ensures
            r@ == self@.list_title(),
    {
        let mut r: String = " ".to_owned();
        if self.only_marked {
            r.append("marked");
        } else {
            r.append("entitlements");
        }
        if self.focus == Focus::List {
            r.append("* ");
        } else {
            r.append(" ");
        }
        r
    }

    /// The row of an entitlement.
    fn row(&self, at: usize) -> (r: Line)
        requires
            at < self@.entitlements.len(),
        ensures
            r@ == self@.row_model(at as int),
    {
        let e: &EntitlementRow = &self.entitlements[at];
        assert(self@.entitlements[at as int] == e@);
        let (mark, mark_tone): (&str, Tone) = if self.selected.contains(&at) {
            ("[*]", Tone::GreenBold)
        } else {
            ("[ ]", Tone::Dim)
        };
        let (badge, badge_tone): (&str, Tone) = if e.approvers.len() == 0 {
            ("[auto]", Tone::Cyan)
        } else {
            ("[appr]", Tone::Yellow)
        };
        let r = Line::of(mark.to_owned(), mark_tone).with(" ".to_owned(), Tone::Plain).with(
            badge.to_owned(),
            badge_tone,
        ).with(" ".to_owned(), Tone::Plain).with(
            e.short_name.as_str().to_owned(),
            Tone::Plain,
        ).with("  ".to_owned(), Tone::Plain).with(
            scope_label(e.scope_type, e.scope_id.as_str(), &e.scope_display_name),
            Tone::Dim,
        );
        assert(r@ =~= self@.row_model(at as int));
        r
    }

    /// The rows of the list.
    pub fn list_rows(&self) -> (r: Vec<Line>)
        requires
            self.wf(),
        ensures
            styled::line_models(r@) == self@.rows_model(),
    {
        let mut out: Vec<Line> = Vec::new();
        let mut i: usize = 0;
        while i < self.filtered.len()
            invariant
                i <= self.filtered.len(),
                self@.wf(),
                self@.filtered == order::ints(self.filtered@),
                out.len() == i,
                forall|k: int|
                    0 <= k < i ==> (#[trigger] out@[k])@ == self@.row_model(self@.filtered[k]),
            decreases self.filtered.len() - i,
        {
            let at: usize = self.filtered[i];
            assert(self@.filtered[i as int] == at);
            out.push(self.row(at));
            i += 1;
        }
        assert(styled::line_models(out@) =~= self@.rows_model());
        out
    }

    /// The row that is highlighted.
    pub fn highlighted(&self) -> (r: Option<usize>)
        ensures
            match r {
                Some(i) => self@.highlighted() == Some(i as nat),
                None => self@.highlighted() is None,
            },
    {
        let rows: usize = self.filtered.len();
        if rows == 0 {
            None
        } else if self.cursor < rows {
            Some(self.cursor)
        } else {
            Some(rows - 1)
        }
    }
}

// ---------------------------------------------------------------------------
// The preview
// ---------------------------------------------------------------------------

/// A JSON text laid out on several lines.
pub uninterp spec fn laid_out(raw: Seq<char>) -> Option<Seq<char>>;

/// `serde_json::to_string_pretty` on the value that `serde_json::from_str`
/// reads from a text. The layout depends on the text alone; `None` where the
/// text is no JSON.
#[verifier::external_body]
fn lay_out(raw: &str) -> (r: Option<String>)
    ensures
        r.deep_view() == laid_out(raw@),
{
    let value: serde_json::Value = serde_json::from_str(raw).ok()?;
    serde_json::to_string_pretty(&value).ok()
}

/// Items, each on a line of its own.
pub open spec fn item_lines(items: Seq<Seq<char>>) -> Seq<char>
    decreases items.len(),
{
    if items.len() == 0 {
        Seq::empty()
    } else {
        item_lines(items.drop_last()) + "  - "@ + items.last() + "\n"@
    }
}

/// What is known of an entitlement.
pub open spec fn summary_text(e: EntitlementModel) -> Seq<char> {
    "name:    "@ + e.short_name + "\n"@ + "scope:   "@ + e.scope_type.plural_text() + "/"@
        + e.scope_id + "\n"@ + (match e.max_request_duration_secs {
        Some(secs) => "max:     "@ + widgets::age_text(secs as int) + "\n"@,
        None => Seq::empty(),
    }) + "justify: "@ + (if e.justification_required {
        "required"@
    } else {
        "optional"@
    }) + "\n"@ + (if e.approvers.len() == 0 {
        "approval: auto\n"@
    } else {
        "approvers:\n"@ + item_lines(e.approvers)
    }) + (if e.roles.len() == 0 {
        "roles:    (none listed)\n"@
    } else {
        "roles:\n"@ + item_lines(e.roles)
    })
}

/// The raw form of an entitlement, given how it is laid out: as it came where
/// it is no JSON.
pub open spec fn raw_text(e: EntitlementModel, layout: Option<Seq<char>>) -> Seq<char> {
    match layout {
        Some(s) => s,
        None => e.raw_json,
    }
}

/// The preview of an entitlement.
pub open spec fn preview_of(e: EntitlementModel, show_raw: bool) -> Seq<char> {
    if show_raw {
        raw_text(e, laid_out(e.raw_json))
    } else {
        summary_text(e)
    }
}

/// Adds items to a text, each on a line of its own.
fn add_items(out: &mut String, items: &Vec<String>)
    ensures
        final(out)@ == old(out)@ + item_lines(items.deep_view()),
{
    let ghost before = out@;
    let ghost all = items.deep_view();
    let mut i: usize = 0;
    assert(out@ =~= before + item_lines(all.take(0)));
    while i < items.len()
        invariant
            i <= items.len(),
            all == items.deep_view(),
            out@ == before + item_lines(all.take(i as int)),
        decreases items.len() - i,
    {
        let ghost prior = out@;
        assert(all.take(i + 1).drop_last() =~= all.take(i as int));
        out.append("  - ");
        out.append(items[i].as_str());
        out.append("\n");
        assert(out@ =~= before + item_lines(all.take(i + 1)));
        i += 1;
    }
    assert(all.take(i as int) =~= all);
}

/// The raw form of an entitlement, given how it is laid out.
pub fn raw_preview(ent: &EntitlementRow, layout: Option<String>) -> (r: String)
    ensures
        r@ == raw_text(ent@, layout.deep_view()),
{
    match layout {
        Some(s) => s,
        None => ent.raw_json.as_str().to_owned(),
    }
}

/// The preview of an entitlement.
pub fn preview_text(ent: &EntitlementRow, show_raw: bool) -> (r: String)
    ensures
        r@ == preview_of(ent@, show_raw),
{
    if show_raw {
        return raw_preview(ent, lay_out(ent.raw_json.as_str()));
    }
    let mut out: String = "name:    ".to_owned();
    out.append(ent.short_name.as_str());
    out.append("\n");
    out.append("scope:   ");
    out.append(ent.scope_type.plural());
    out.append("/");
    out.append(ent.scope_id.as_str());
    out.append("\n");
    let ghost head = out@;
    if let Some(secs) = ent.max_request_duration_secs {
        out.append("max:     ");
        out.append(format_age(secs).as_str());
        out.append("\n");
    }
    let ghost max = match ent.max_request_duration_secs {
        Some(secs) => "max:     "@ + widgets::age_text(secs as int) + "\n"@,
        None => Seq::empty(),
    };
    assert(out@ =~= head + max);
    out.append("justify: ");
    if ent.justification_required {
        out.append("required");
    } else {
        out.append("optional");
    }
    out.append("\n");
    let ghost middle = out@;
    if ent.approvers.len() == 0 {
        out.append("approval: auto\n");
    } else {
        out.append("approvers:\n");
        add_items(&mut out, &ent.approvers);
    }
    let ghost approval = if ent@.approvers.len() == 0 {
        "approval: auto\n"@
    } else {
        "approvers:\n"@ + item_lines(ent@.approvers)
    };
    assert(out@ =~= middle + approval);
    let ghost upper = out@;
    if ent.roles.len() == 0 {
        out.append("roles:    (none listed)\n");
    } else {
        out.append("roles:\n");
        add_items(&mut out, &ent.roles);
    }
    assert(out@ =~= upper + (if ent@.roles.len() == 0 {
        "roles:    (none listed)\n"@
    } else {
        "roles:\n"@ + item_lines(ent@.roles)
    }));
    out
}

impl BrowseModel {
    /// The title of the preview.
    pub open spec fn preview_title(self) -> Seq<char> {
        if self.show_raw {
            " preview (raw, J to collapse) "@
        } else {
            " preview (J for raw) "@
        }
    }

    /// The preview of the row at the cursor.
    pub open spec fn preview(self) -> Seq<char> {
        if self.cursor < self.filtered.len() {
            preview_of(self.entitlements[self.filtered[self.cursor as int]], self.show_raw)
        } else {
            "no entitlement selected"@
        }
    }
}

impl BrowseScreen {
    /// The title of the preview.
    pub fn preview_title(&self) -> (r: &'static str)
        ensures
            r@ == self@.preview_title(),
    {
        if self.show_raw {
            " preview (raw, J to collapse) "
        } else {
            " preview (J for raw) "
        }
    }

    /// The preview of the row at the cursor.
    pub fn preview(&self) -> (r: String)
        requires
            self.wf(),
        ensures
            r@ == self@.preview(),
    {
        if self.cursor < self.filtered.len() {
            let at: usize = self.filtered[self.cursor];
            assert(self@.filtered[self@.cursor as int] == at);
            assert(self@.entitlements[at as int] == self.entitlements@[at as int]@);
            preview_text(&self.entitlements[at], self.show_raw)
        } else {
            "no entitlement selected".to_owned()
        }
    }
}

// ---------------------------------------------------------------------------
// The strip of grants
// ---------------------------------------------------------------------------

/// How many grants the strip shows.
pub const STRIP_MAX_ROWS: usize = 5;

/// A grant that is not over.
pub open spec fn is_live(g: GrantModel) -> bool {
    !StateModel::read(g.state).terminal()
}

/// The grants that are not over, in order.
pub open spec fn live(s: Seq<GrantModel>) -> Seq<GrantModel> {
    s.filter(|g: GrantModel| is_live(g))
}

/// How long a grant lasts, or has been waited for; for one that is over, how it
/// ended.
pub open spec fn timing_text(g: GrantModel, now: i64) -> Seq<char> {
    if StateModel::read(g.state).terminal() {
        StateModel::read(g.state).shown()
    } else if StateModel::read(g.state).active() {
        match g.expires_at {
            Some(t) => if t > now {
                "exp: "@ + widgets::age_text(t - now)
            } else {
                "expired"@
            },
            None => Seq::empty(),
        }
    } else {
        "wait "@ + widgets::age_text(now - g.created_at)
    }
}

/// The line of a grant: a badge, the entitlement, the scope and the time.
pub open spec fn strip_line_model(g: GrantModel, now: i64) -> Seq<SpanModel> {
    seq![
        if StateModel::read(g.state).active() {
            styled::span("[ok]  "@, Tone::GreenBold)
        } else if StateModel::read(g.state).terminal() {
            styled::span("[err] "@, Tone::RedBold)
        } else {
            styled::span("[..]  "@, Tone::YellowBold)
        },
        styled::plain(
            text::padded_right(text::truncated(g.entitlement_short_name, 20), 20) + "  "@,
        ),
        styled::span(
            text::padded_right(
                text::truncated(
                    scope_label_text(g.scope_type, g.scope_id, g.scope_display_name),
                    30,
                ),
                30,
            ) + "  "@,
            Tone::Dim,
        ),
        styled::span(timing_text(g, now), Tone::Dim),
    ]
}

/// The lines of the strip. Where there are more grants than it shows, the last
/// line says how many.
pub open spec fn strip_model(s: Seq<GrantModel>, now: i64) -> Seq<Seq<SpanModel>> {
    let shown = styled::least(s.len() as int, STRIP_MAX_ROWS as int) as nat;
    Seq::new(
        shown,
        |i: int|
            if i == STRIP_MAX_ROWS - 1 && s.len() > STRIP_MAX_ROWS {
                seq![
                    styled::span(
                        "  ... +"@ + numbers::decimal((s.len() - STRIP_MAX_ROWS) as nat)
                            + " more not shown"@,
                        Tone::Dim,
                    ),
                ]
            } else {
                strip_line_model(s[i], now)
            },
    )
}

/// The title of the strip.
pub open spec fn strip_title_text(grants: nat) -> Seq<char> {
    " grants ("@ + numbers::decimal(grants) + ") "@
}

/// The height of the strip with its border; none where there is no grant.
pub open spec fn strip_height_for(grants: nat) -> int {
    if grants == 0 {
        0
    } else {
        styled::least(grants as int, STRIP_MAX_ROWS as int) + 2
    }
}

fn timing(g: &GrantRow, state: &GrantState, now: i64) -> (r: String)
    requires
        state@ == StateModel::read(g.state@),
    ensures
        r@ == timing_text(g@, now),
{
    if state.is_terminal() {
        state.to_string()
    } else if state.is_active() {
        match g.expires_at {
            Some(t) => if t > now {
                let mut r: String = "exp: ".to_owned();
                r.append(format_age_between(now, t).as_str());
                r
            } else {
                "expired".to_owned()
            },
            None => {
                let r: String = String::new();
                assert(r@ =~= Seq::<char>::empty());
                r
            },
        }
    } else {
        let mut r: String = "wait ".to_owned();
        r.append(format_age_between(g.created_at, now).as_str());
        r
    }
}

/// The line of a grant.
pub fn strip_line(g: &GrantRow, now: i64) -> (r: Line)
    ensures
        r@ == strip_line_model(g@, now),
{
    let state: GrantState = GrantState::parse(g.state.as_str());
    let (badge, tone): (&str, Tone) = if state.is_active() {
        ("[ok]  ", Tone::GreenBold)
    } else if state.is_terminal() {
        ("[err] ", Tone::RedBold)
    } else {
        ("[..]  ", Tone::YellowBold)
    };
    let mut name: String = pad_right(truncate(g.entitlement_short_name.as_str(), 20).as_str(), 20);
    name.append("  ");
    let label: String = scope_label(g.scope_type, g.scope_id.as_str(), &g.scope_display_name);
    let mut place: String = pad_right(truncate(label.as_str(), 30).as_str(), 30);
    place.append("  ");
    let r = Line::of(badge.to_owned(), tone).with(name, Tone::Plain).with(place, Tone::Dim).with(
        timing(g, &state, now),
        Tone::Dim,
    );
    assert(r@ =~= strip_line_model(g@, now));
    r
}

impl BrowseScreen {
    /// The places of the grants that are not over.
    fn live_grants(&self) -> (r: Vec<usize>)
        ensures
            r@.len() == live(self@.tracked_grants).len(),
            forall|k: int|
                0 <= k < r@.len() ==> (#[trigger] r@[k]) < self.tracked_grants@.len()
                    && self.tracked_grants@[r@[k] as int]@ == live(self@.tracked_grants)[k],
    {
        let ghost s = self@.tracked_grants;
        let ghost keep = |g: GrantModel| is_live(g);
        let mut out: Vec<usize> = Vec::new();
        let mut i: usize = 0;
        proof {
            reveal(Seq::filter);
            assert(s.take(0) =~= Seq::empty());
        }
        while i < self.tracked_grants.len()
            invariant
                i <= self.tracked_grants.len(),
                s == rows::grant_models(self.tracked_grants@),
                keep == (|g: GrantModel| is_live(g)),
                out@.len() == s.take(i as int).filter(keep).len(),
                forall|k: int|
                    0 <= k < out@.len() ==> (#[trigger] out@[k]) < self.tracked_grants@.len()
                        && self.tracked_grants@[out@[k] as int]@ == s.take(i as int).filter(keep)[k],
            decreases self.tracked_grants.len() - i,
        {
            proof {
                let g = self.tracked_grants@[i as int]@;
                assert(s[i as int] == g);
                assert(s.take(i + 1) =~= s.take(i as int).push(g));
                s.take(i as int).lemma_filter_push(g, keep);
            }
            let state: GrantState = GrantState::parse(self.tracked_grants[i].state.as_str());
            if !state.is_terminal() {
                out.push(i);
            }
            i += 1;
        }
        assert(s.take(i as int) =~= s);
        out
    }

    /// The height of the strip with its border: none without a grant that is
    /// not over.
    pub fn strip_height(&self) -> (r: u16)
        ensures
            r == strip_height_for(live(self@.tracked_grants).len()),
    {
        let n: usize = self.live_grants().len();
        if n == 0 {
            0
        } else if n < STRIP_MAX_ROWS {
            n as u16 + 2
        } else {
            STRIP_MAX_ROWS as u16 + 2
        }
    }

    /// The title of the strip.
    pub fn strip_title(&self) -> (r: String)
        ensures
            r@ == strip_title_text(live(self@.tracked_grants).len()),
    {
        let mut r: String = " grants (".to_owned();
        r.append(u64_text(self.live_grants().len() as u64).as_str());
        r.append(") ");
        r
    }

    /// The lines of the strip.
    pub fn strip_lines(&self, now: i64) -> (r: Vec<Line>)
        ensures
            styled::line_models(r@) == strip_model(live(self@.tracked_grants), now),
    {
        let places: Vec<usize> = self.live_grants();
        let ghost s = live(self@.tracked_grants);
        let n: usize = places.len();
        let shown: usize = if n < STRIP_MAX_ROWS {
            n
        } else {
            STRIP_MAX_ROWS
        };
        let mut out: Vec<Line> = Vec::new();
        let mut i: usize = 0;
        while i < shown
            invariant
                i <= shown <= n,
                n == places@.len(),
                n == s.len(),
                shown == styled::least(n as int, STRIP_MAX_ROWS as int),
                out.len() == i,
                forall|k: int|
                    0 <= k < places@.len() ==> (#[trigger] places@[k]) < self.tracked_grants@.len()
                        && self.tracked_grants@[places@[k] as int]@ == s[k],
                forall|k: int| 0 <= k < i ==> (#[trigger] out@[k])@ == strip_model(s, now)[k],
            decreases shown - i,
        {
            if i == STRIP_MAX_ROWS - 1 && n > STRIP_MAX_ROWS {
                let mut more: String = "  ... +".to_owned();
                more.append(u64_text((n - STRIP_MAX_ROWS) as u64).as_str());
                more.append(" more not shown");
                out.push(Line::of(more, Tone::Dim));
            } else {
                assert(places@[i as int] < self.tracked_grants@.len());
                out.push(strip_line(&self.tracked_grants[places[i]], now));
            }
            i += 1;
        }
        assert(styled::line_models(out@) =~= strip_model(s, now));
        out
    }
}

// ---------------------------------------------------------------------------
// The status line
// ---------------------------------------------------------------------------

/// The hint at the end of the status line.
pub const STATUS_KEYS: &'static str = "? help";

impl BrowseModel {
    /// The status line.
    pub open spec fn status_text(self, now: i64) -> Seq<char> {
        (if self.refresh_in_flight {
            "[refreshing] "@
        } else {
            ""@
        }) + self.account + " | "@ + numbers::decimal(self.entitlements.len())
            + " entitlements | scope:"@ + (match self.scope_filter {
            None => "all"@,
            Some(s) => s.name_text(),
        }) + " | cache age "@ + (match self.last_refresh {
            Some(t) => widgets::age_text(now - t),
            None => "never"@,
        }) + " | "@ + self.status
    }
}

impl BrowseScreen {
    /// Whether the list is shown: not while a refresh is waited for.
    pub fn shows_list(&self) -> (r: bool)
        ensures
            r == !self@.waiting,
    {
        !self.waiting
    }

    /// The status line.
    pub fn status_line(&self, now: i64) -> (r: String)
        ensures
            r@ == self@.status_text(now),
    {
        let mut r: String = if self.refresh_in_flight {
            "[refreshing] ".to_owned()
        } else {
            "".to_owned()
        };
        r.append(self.account.as_str());
        r.append(" | ");
        r.append(u64_text(self.entitlements.len() as u64).as_str());
        r.append(" entitlements | scope:");
        match self.scope_filter {
            None => r.append("all"),
            Some(s) => r.append(s.as_str()),
        }
        r.append(" | cache age ");
        match self.last_refresh {
            Some(t) => r.append(format_age_between(t, now).as_str()),
            None => r.append("never"),
        }
        r.append(" | ");
        r.append(self.status.as_str());
        r
    }
}

/// The number of approvals that are pending, where there are any.
pub open spec fn badge_text(pending: nat) -> Seq<char> {
    if pending == 0 {
        Seq::empty()
    } else {
        " | "@ + numbers::decimal(pending) + " pending approvals (A)"@
    }
}

/// The last warning, and how many came since they were last read; nothing once
/// they were.
pub open spec fn warning_text(logs: LogState) -> Seq<char> {
    match logs.last {
        Some(e) => if logs.unread > 0 {
            " | "@ + e.level.name() + ": "@ + e.message@ + " ("@ + numbers::decimal(
                logs.unread as nat,
            ) + " unread, L)"@
        } else {
            Seq::empty()
        },
        None => Seq::empty(),
    }
}

impl BrowseScreen {
    /// The status bar: the status line, the number of pending approvals, and
    /// the last warning that was not read.
    pub fn status_bar(&self, now: i64, pending: usize, logs: &LogState) -> (r: String)
        ensures
            r@ == self@.status_text(now) + badge_text(pending as nat) + warning_text(*logs),
    {
        let mut r: String = self.status_line(now);
        let ghost line = r@;
        if pending > 0 {
            r.append(" | ");
            r.append(u64_text(pending as u64).as_str());
            r.append(" pending approvals (A)");
        }
        assert(r@ =~= line + badge_text(pending as nat));
        let ghost badged = r@;
        match &logs.last {
            Some(e) => {
                if logs.unread > 0 {
                    r.append(" | ");
                    r.append(e.level.as_str());
                    r.append(": ");
                    r.append(e.message.as_str());
                    r.append(" (");
                    r.append(u64_text(logs.unread as u64).as_str());
                    r.append(" unread, L)");
                }
            },
            None => {},
        }
        assert(r@ =~= badged + warning_text(*logs));
        r
    }
}

// ---------------------------------------------------------------------------
// The logs
// ---------------------------------------------------------------------------

/// The title of the logs.
pub const LOGS_TITLE: &'static str = " logs ";

/// The lines of the logs: the last warning with its age, and where the others
/// are.
pub open spec fn log_lines_model(logs: LogState, now: SystemTime) -> Seq<Seq<SpanModel>> {
    (match logs.last {
        Some(e) => seq![
            seq![
                styled::plain(
                    "["@ + e.level.name() + "] "@ + approval_queue::age_shown(
                        approval_queue::age_at(e.at, now),
                    ) + " ago"@,
                ),
            ],
            seq![styled::plain(e.message@)],
        ],
        None => seq![seq![styled::plain("no warnings"@)]],
    }) + seq![seq![styled::plain(""@)], seq![styled::span(logs.log_path@, Tone::Dim)]]
}

/// The lines of the logs.
pub fn log_lines(logs: &LogState, now: &SystemTime) -> (r: Vec<Line>)
    ensures
        styled::line_models(r@) == log_lines_model(*logs, *now),
{
    let mut out: Vec<Line> = Vec::new();
    match &logs.last {
        Some(e) => {
            let mut head: String = "[".to_owned();
            head.append(e.level.as_str());
            head.append("] ");
            head.append(age_words(age_in_secs(e.at, now)).as_str());
            head.append(" ago");
            out.push(Line::of(head, Tone::Plain));
            out.push(Line::of(e.message.as_str().to_owned(), Tone::Plain));
        },
        None => {
            out.push(Line::of("no warnings".to_owned(), Tone::Plain));
        },
    }
    out.push(Line::of("".to_owned(), Tone::Plain));
    out.push(Line::of(logs.log_path.as_str().to_owned(), Tone::Dim));
    assert(styled::line_models(out@) =~= log_lines_model(*logs, *now));
    out
}

/// The status bar tells of approvals exactly while some are pending, and of a
/// warning exactly while one is unread.
pub proof fn law_status_bar_tells(pending: nat, logs: LogState)
    ensures
        badge_text(pending).len() > 0 <==> pending > 0,
        warning_text(logs).len() > 0 <==> logs.last is Some && logs.unread > 0,
{
    reveal_strlit(" | ");
}

// ---------------------------------------------------------------------------
// The help
// ---------------------------------------------------------------------------

/// The title of the help.
pub const HELP_TITLE: &'static str = " help \u{2014} press any key to close ";

/// A key, and what it does.
pub open spec fn entry(key: Seq<char>, meaning: Seq<char>) -> (Seq<char>, Seq<char>) {
    (key, meaning)
}

/// The keys of the list.
pub open spec fn list_keys_model() -> Seq<(Seq<char>, Seq<char>)> {
    seq![
        entry("j / down / ^n"@, "move down"@),
        entry("k / up / ^p"@, "move up"@),
        entry("^d / ^u"@, "move 10"@),
        entry("g / G"@, "top / bottom"@),
        entry("space"@, "toggle select"@),
        entry("enter"@, "request selected"@),
        entry("esc"@, "clear filter, then selection"@),
        entry("/"@, "focus search"@),
        entry("f"@, "cycle scope filter"@),
        entry("m"@, "show marked only"@),
        entry("J"@, "toggle raw JSON"@),
        entry("R"@, "refresh"@),
        entry("?"@, "this help"@),
        entry("q / ^c"@, "quit"@),
    ]
}

/// The keys of the search box.
pub open spec fn search_keys_model() -> Seq<(Seq<char>, Seq<char>)> {
    seq![
        entry("type"@, "filter entries"@),
        entry("up / down"@, "to list + move"@),
        entry("^n / ^p"@, "to list + move"@),
        entry("^a / ^e"@, "home / end"@),
        entry("^w"@, "delete word"@),
        entry("enter"@, "request match"@),
        entry("esc"@, "back to list"@),
    ]
}

/// The texts of a table of keys.
pub open spec fn entries(v: Seq<(&str, &str)>) -> Seq<(Seq<char>, Seq<char>)> {
    Seq::new(v.len(), |i: int| (v[i].0@, v[i].1@))
}

/// The width of the widest entry, with a gap.
pub open spec fn widest(s: Seq<(Seq<char>, Seq<char>)>) -> int
    decreases s.len(),
{
    if s.len() == 0 {
        0
    } else {
        styled::most(widest(s.drop_last()), (s.last().0.len() + s.last().1.len() + 3) as int)
    }
}

/// The keys of the list.
pub fn list_keys() -> (r: Vec<(&'static str, &'static str)>)
    ensures
        entries(r@) == list_keys_model(),
{
    let mut v: Vec<(&'static str, &'static str)> = Vec::new();
    v.push(("j / down / ^n", "move down"));
    v.push(("k / up / ^p", "move up"));
    v.push(("^d / ^u", "move 10"));
    v.push(("g / G", "top / bottom"));
    v.push(("space", "toggle select"));
    v.push(("enter", "request selected"));
    v.push(("esc", "clear filter, then selection"));
    v.push(("/", "focus search"));
    v.push(("f", "cycle scope filter"));
    v.push(("m", "show marked only"));
    v.push(("J", "toggle raw JSON"));
    v.push(("R", "refresh"));
    v.push(("?", "this help"));
    v.push(("q / ^c", "quit"));
    assert(entries(v@) =~= list_keys_model());
    v
}

/// The keys of the search box.
pub fn search_keys() -> (r: Vec<(&'static str, &'static str)>)
    ensures
        entries(r@) == search_keys_model(),
{
    let mut v: Vec<(&'static str, &'static str)> = Vec::new();
    v.push(("type", "filter entries"));
    v.push(("up / down", "to list + move"));
    v.push(("^n / ^p", "to list + move"));
    v.push(("^a / ^e", "home / end"));
    v.push(("^w", "delete word"));
    v.push(("enter", "request match"));
    v.push(("esc", "back to list"));
    assert(entries(v@) =~= search_keys_model());
    v
}

/// A table of keys, one on a line.
pub fn key_lines(keys: &Vec<(&'static str, &'static str)>) -> (r: Vec<Line>)
    ensures
        styled::line_models(r@) == entries(keys@).map_values(
            |e: (Seq<char>, Seq<char>)|
                seq![
                    styled::span(text::padded_right(e.0, 14), Tone::Cyan),
                    styled::span(e.1, Tone::Dim),
                ],
        ),
{
    let mut out: Vec<Line> = Vec::new();
    let mut i: usize = 0;
    while i < keys.len()
        invariant
            i <= keys.len(),
            out.len() == i,
            forall|k: int|
                0 <= k < i ==> (#[trigger] out@[k])@ == seq![
                    styled::span(text::padded_right(keys@[k].0@, 14), Tone::Cyan),
                    styled::span(keys@[k].1@, Tone::Dim),
                ],
        decreases keys.len() - i,
    {
        let line = Line::of(pad_right(keys[i].0, 14), Tone::Cyan).with(
            keys[i].1.to_owned(),
            Tone::Dim,
        );
        assert(line@ =~= seq![
            styled::span(text::padded_right(keys@[i as int].0@, 14), Tone::Cyan),
            styled::span(keys@[i as int].1@, Tone::Dim),
        ]);
        out.push(line);
        i += 1;
    }
    assert(styled::line_models(out@) =~= entries(keys@).map_values(
        |e: (Seq<char>, Seq<char>)|
            seq![
                styled::span(text::padded_right(e.0, 14), Tone::Cyan),
                styled::span(e.1, Tone::Dim),
            ],
    ));
    out
}

/// The widths of both tables of the help.
proof fn lemma_help_width()
    ensures
        widest(list_keys_model()) == 34,
        widest(search_keys_model()) == 26,
{
    reveal_strlit("j / down / ^n");
    reveal_strlit("move down");
    reveal_strlit("k / up / ^p");
    reveal_strlit("move up");
    reveal_strlit("^d / ^u");
    reveal_strlit("move 10");
    reveal_strlit("g / G");
    reveal_strlit("top / bottom");
    reveal_strlit("space");
    reveal_strlit("toggle select");
    reveal_strlit("enter");
    reveal_strlit("request selected");
    reveal_strlit("esc");
    reveal_strlit("clear filter, then selection");
    reveal_strlit("/");
    reveal_strlit("focus search");
    reveal_strlit("f");
    reveal_strlit("cycle scope filter");
    reveal_strlit("m");
    reveal_strlit("show marked only");
    reveal_strlit("J");
    reveal_strlit("toggle raw JSON");
    reveal_strlit("R");
    reveal_strlit("refresh");
    reveal_strlit("?");
    reveal_strlit("this help");
    reveal_strlit("q / ^c");
    reveal_strlit("quit");
    reveal_strlit("type");
    reveal_strlit("filter entries");
    reveal_strlit("up / down");
    reveal_strlit("to list + move");
    reveal_strlit("^n / ^p");
    reveal_strlit("^a / ^e");
    reveal_strlit("home / end");
    reveal_strlit("^w");
    reveal_strlit("delete word");
    reveal_strlit("request match");
    reveal_strlit("back to list");
    reveal_with_fuel(widest, 15);
}

/// The box of the help in the middle of an area: wide enough for two columns
/// as wide as the widest entry, within the area, but not narrower than forty.
pub open spec fn help_box(area: Area) -> Area {
    let column = styled::most(widest(list_keys_model()), widest(search_keys_model()));
    let rows = styled::most(
        list_keys_model().len() as int,
        search_keys_model().len() as int,
    );
    styled::centered_in(
        area,
        styled::most(
            styled::least(column * 2 + 9, styled::less(area.width as int, 4)),
            40,
        ) as u16,
        styled::least(rows + 4, styled::less(area.height as int, 2)) as u16,
    )
}

/// The box of the help.
pub fn help_area(area: Area) -> (r: Area)
    requires
        area.wf(),
    ensures
        r == help_box(area),
{
    proof {
        lemma_help_width();
    }
    let room: u16 = area.width.saturating_sub(4);
    let fitting: u16 = if room < 77 {
        room
    } else {
        77
    };
    let width: u16 = if fitting > 40 {
        fitting
    } else {
        40
    };
    let tall: u16 = area.height.saturating_sub(2);
    let height: u16 = if tall < 18 {
        tall
    } else {
        18
    };
    centered(area, width, height)
}

/// The strip never shows more than its rows, and nothing where there is no
/// grant that is not over.
pub proof fn law_strip_is_bounded(s: Seq<GrantModel>, now: i64)
    ensures
        strip_model(s, now).len() <= STRIP_MAX_ROWS,
        s.len() > 0 ==> strip_height_for(s.len()) == strip_model(s, now).len() + 2,
        s.len() == 0 ==> strip_height_for(s.len()) == 0,
{
}

/// An area of at least 44 columns and two rows has room for the help.
pub proof fn law_help_fits(area: Area)
    requires
        area.wf(),
        area.width >= 44,
        area.height >= 2,
    ensures
        ({
            let b = help_box(area);
            &&& area.x <= b.x && b.x + b.width <= area.x + area.width
            &&& area.y <= b.y && b.y + b.height <= area.y + area.height
        }),
{
    lemma_help_width();
}

/// A row shows whether it is selected, whether it needs an approval, the
/// entitlement's name and its scope.
pub proof fn law_row_shows_the_entitlement(m: BrowseModel, i: int)
    ensures
        ({
            let r = m.row_model(i);
            let e = m.entitlements[i];
            &&& r.len() == 7
            &&& r[0].text == (if m.selected.contains(i as usize) {
                "[*]"@
            } else {
                "[ ]"@
            })
            &&& r[2].text == (if e.approvers.len() == 0 {
                "[auto]"@
            } else {
                "[appr]"@
            })
            &&& r[4].text == e.short_name
            &&& r[6].text == scope_label_text(e.scope_type, e.scope_id, e.scope_display_name)
        }),
{
}

/// The rows stand in the order of the list, and the one at the cursor is
/// highlighted.
pub proof fn law_rows_follow_the_list(m: BrowseModel, k: int)
    requires
        0 <= k < m.filtered.len(),
    ensures
        m.rows_model().len() == m.filtered.len(),
        m.rows_model()[k] == m.row_model(m.filtered[k]),
        m.cursor < m.filtered.len() ==> m.highlighted() == Some(m.cursor),
        m.filtered.len() == 0 ==> m.highlighted() is None,
{
}

/// A scope is shown by its tag and its name; by its id where it has no name.
pub proof fn law_scope_label(scope: Scope, id: Seq<char>, name: Option<Seq<char>>)
    ensures
        name matches Some(n) ==> (n.len() > 0 ==> scope_label_text(scope, id, name)
            == scope.short_text() + ":"@ + n),
        name matches Some(n) ==> (n.len() == 0 ==> scope_label_text(scope, id, name)
            == scope.short_text() + ":"@ + id),
        name is None ==> scope_label_text(scope, id, name) == scope.short_text() + ":"@ + id,
{
}

/// The search box counts the rows that are listed and those there are.
pub proof fn law_search_title_counts(m: BrowseModel)
    ensures
        text::has_text(
            m.search_title(),
            numbers::decimal(m.filtered.len()) + " of "@ + numbers::decimal(m.entitlements.len()),
        ),
        text::has_text(m.list_title(), "marked"@) || !m.only_marked,
        text::has_text(m.list_title(), "entitlements"@) || m.only_marked,
{
    let head = " search"@ + (if m.focus == Focus::Search {
        "*"@
    } else {
        ""@
    }) + " ("@;
    let a = numbers::decimal(m.filtered.len());
    let b = numbers::decimal(m.entitlements.len());
    text::lemma_assoc(head, a, " of "@);
    text::lemma_assoc(head, a + " of "@, b);
    text::law_occurrence(head, a + " of "@ + b, ") "@);
    let word = if m.only_marked {
        "marked"@
    } else {
        "entitlements"@
    };
    let end = if m.focus == Focus::List {
        "* "@
    } else {
        " "@
    };
    text::law_occurrence(" "@, word, end);
}

/// Items stand on lines of their own, in order.
pub proof fn law_items_on_lines(items: Seq<Seq<char>>, item: Seq<char>)
    ensures
        item_lines(Seq::empty()).len() == 0,
        item_lines(items.push(item)) == item_lines(items) + "  - "@ + item + "\n"@,
{
    assert(items.push(item).drop_last() =~= items);
}

/// The summary of an entitlement holds its name, its scope's id, its maximum,
/// whether a justification is needed, its approvers and its roles.
#[verifier::rlimit(60)]
#[verifier::spinoff_prover]
pub proof fn law_summary_shows_the_entitlement(e: EntitlementModel)
    ensures
        text::has_text(summary_text(e), e.short_name),
        text::has_text(summary_text(e), e.scope_type.plural_text()),
        text::has_text(summary_text(e), e.scope_id),
        e.max_request_duration_secs matches Some(secs) ==> text::has_text(
            summary_text(e),
            "max:     "@ + widgets::age_text(secs as int) + "\n"@,
        ),
        e.justification_required ==> text::has_text(summary_text(e), "required"@),
        !e.justification_required ==> text::has_text(summary_text(e), "optional"@),
        e.approvers.len() > 0 ==> text::has_text(
            summary_text(e),
            "approvers:\n"@ + item_lines(e.approvers),
        ),
        e.approvers.len() == 0 ==> text::has_text(summary_text(e), "approval: auto\n"@),
        e.roles.len() > 0 ==> text::has_text(summary_text(e), "roles:\n"@ + item_lines(e.roles)),
{
    let max = match e.max_request_duration_secs {
        Some(secs) => "max:     "@ + widgets::age_text(secs as int) + "\n"@,
        None => Seq::empty(),
    };
    let need = if e.justification_required {
        "required"@
    } else {
        "optional"@
    };
    let who = if e.approvers.len() == 0 {
        "approval: auto\n"@
    } else {
        "approvers:\n"@ + item_lines(e.approvers)
    };
    let what = if e.roles.len() == 0 {
        "roles:    (none listed)\n"@
    } else {
        "roles:\n"@ + item_lines(e.roles)
    };
    let p0 = "name:    "@;
    let p1 = p0 + e.short_name;
    let p2 = p1 + "\n"@;
    let p3 = p2 + "scope:   "@;
    let p4 = p3 + e.scope_type.plural_text();
    let p5 = p4 + "/"@;
    let p6 = p5 + e.scope_id;
    let p7 = p6 + "\n"@;
    let p8 = p7 + max;
    let p9 = p8 + "justify: "@;
    let p10 = p9 + need;
    let p11 = p10 + "\n"@;
    let p12 = p11 + who;
    let p13 = p12 + what;
    let w1 = e.short_name;
    text::lemma_text_stays(p0, w1, w1);
    text::lemma_text_stays(p1, w1, "\n"@);
    text::lemma_text_stays(p2, w1, "scope:   "@);
    text::lemma_text_stays(p3, w1, e.scope_type.plural_text());
    text::lemma_text_stays(p4, w1, "/"@);
    text::lemma_text_stays(p5, w1, e.scope_id);
    text::lemma_text_stays(p6, w1, "\n"@);
    text::lemma_text_stays(p7, w1, max);
    text::lemma_text_stays(p8, w1, "justify: "@);
    text::lemma_text_stays(p9, w1, need);
    text::lemma_text_stays(p10, w1, "\n"@);
    text::lemma_text_stays(p11, w1, who);
    text::lemma_text_stays(p12, w1, what);
    let w4 = e.scope_type.plural_text();
    text::lemma_text_stays(p3, w4, w4);
    text::lemma_text_stays(p4, w4, "/"@);
    text::lemma_text_stays(p5, w4, e.scope_id);
    text::lemma_text_stays(p6, w4, "\n"@);
    text::lemma_text_stays(p7, w4, max);
    text::lemma_text_stays(p8, w4, "justify: "@);
    text::lemma_text_stays(p9, w4, need);
    text::lemma_text_stays(p10, w4, "\n"@);
    text::lemma_text_stays(p11, w4, who);
    text::lemma_text_stays(p12, w4, what);
    let w6 = e.scope_id;
    text::lemma_text_stays(p5, w6, w6);
    text::lemma_text_stays(p6, w6, "\n"@);
    text::lemma_text_stays(p7, w6, max);
    text::lemma_text_stays(p8, w6, "justify: "@);
    text::lemma_text_stays(p9, w6, need);
    text::lemma_text_stays(p10, w6, "\n"@);
    text::lemma_text_stays(p11, w6, who);
    text::lemma_text_stays(p12, w6, what);
    let w8 = max;
    text::lemma_text_stays(p7, w8, w8);
    text::lemma_text_stays(p8, w8, "justify: "@);
    text::lemma_text_stays(p9, w8, need);
    text::lemma_text_stays(p10, w8, "\n"@);
    text::lemma_text_stays(p11, w8, who);
    text::lemma_text_stays(p12, w8, what);
    let w10 = need;
    text::lemma_text_stays(p9, w10, w10);
    text::lemma_text_stays(p10, w10, "\n"@);
    text::lemma_text_stays(p11, w10, who);
    text::lemma_text_stays(p12, w10, what);
    let w12 = who;
    text::lemma_text_stays(p11, w12, w12);
    text::lemma_text_stays(p12, w12, what);
    let w13 = what;
    text::lemma_text_stays(p12, w13, w13);
    assert(summary_text(e) == p13);
}

/// The preview is that of the row at the cursor: its summary, or its raw form,
/// laid out where it can be.
pub proof fn law_preview_is_of_the_cursor_row(m: BrowseModel, layout: Seq<char>)
    requires
        m.cursor < m.filtered.len(),
    ensures
        ({
            let e = m.entitlements[m.filtered[m.cursor as int]];
            &&& !m.show_raw ==> m.preview() == summary_text(e)
            &&& m.show_raw && laid_out(e.raw_json) is None ==> m.preview() == e.raw_json
            &&& m.show_raw && laid_out(e.raw_json) == Some(layout) ==> m.preview() == layout
        }),
{
}

/// The strip shows exactly the grants that are not over, in order.
pub proof fn law_strip_shows_what_is_not_over(
    s: Seq<GrantModel>,
    g: GrantModel,
    state: StateModel,
)
    requires
        g.state == state.shown(),
    ensures
        live(Seq::empty()).len() == 0,
        !state.terminal() ==> live(s.push(g)) == live(s).push(g),
        state.terminal() ==> live(s.push(g)) == live(s),
{
    reveal(Seq::filter);
    state.law_read_back();
    s.lemma_filter_push(g, |g: GrantModel| is_live(g));
}

/// A grant shows how long it still lasts, how long it has been waited for, or
/// how it ended, behind the badge of its state and what it is for.
pub proof fn law_grant_line_tells(g: GrantModel, state: StateModel, now: i64)
    requires
        g.state == state.shown(),
    ensures
        ({
            let r = strip_line_model(g, now);
            &&& r.len() == 4
            &&& state is Active ==> r[0].text == "[ok]  "@
            &&& state.terminal() ==> r[0].text == "[err] "@ && r[3].text == state.shown()
            &&& !(state is Active) && !state.terminal() ==> r[0].text == "[..]  "@ && r[3].text
                == "wait "@ + widgets::age_text(now - g.created_at)
            &&& state is Active && g.expires_at is Some && g.expires_at->0 > now ==> r[3].text
                == "exp: "@ + widgets::age_text(g.expires_at->0 - now)
            &&& state is Active && g.expires_at is Some && g.expires_at->0 <= now ==> r[3].text
                == "expired"@
            &&& state is Active && g.expires_at is None ==> r[3].text.len() == 0
            &&& g.entitlement_short_name.len() <= 20 ==> r[1].text.take(
                g.entitlement_short_name.len() as int,
            ) == g.entitlement_short_name
            &&& ({
                let place = scope_label_text(g.scope_type, g.scope_id, g.scope_display_name);
                place.len() <= 30 ==> r[2].text.take(place.len() as int) == place
            })
        }),
{
    state.law_read_back();
    let name = g.entitlement_short_name;
    let place = scope_label_text(g.scope_type, g.scope_id, g.scope_display_name);
    let r = strip_line_model(g, now);
    text::law_padding(text::truncated(name, 20), 20);
    text::law_padding(text::truncated(place, 30), 30);
    if name.len() <= 20 {
        assert(r[1].text.take(name.len() as int) =~= text::padded_right(name, 20).take(
            name.len() as int,
        ));
    }
    if place.len() <= 30 {
        assert(r[2].text.take(place.len() as int) =~= text::padded_right(place, 30).take(
            place.len() as int,
        ));
    }
}

/// The strip shows each of at most five grants; of more it shows four, and then
/// how many are over five.
pub proof fn law_strip_lines(s: Seq<GrantModel>, now: i64, i: int)
    requires
        0 <= i < s.len(),
    ensures
        s.len() <= 5 ==> strip_model(s, now).len() == s.len() && strip_model(s, now)[i]
            == strip_line_model(s[i], now),
        s.len() > 5 ==> strip_model(s, now).len() == 5,
        s.len() > 5 && i < 4 ==> strip_model(s, now)[i] == strip_line_model(s[i], now),
        s.len() > 5 ==> text::has_text(
            strip_model(s, now)[4][0].text,
            numbers::decimal((s.len() - 5) as nat),
        ),
        text::has_text(strip_title_text(s.len()), numbers::decimal(s.len())),
{
    text::law_occurrence(
        "  ... +"@,
        numbers::decimal((s.len() - 5) as nat),
        " more not shown"@,
    );
    text::law_occurrence(" grants ("@, numbers::decimal(s.len()), ") "@);
}

/// The status line tells the account, how many entitlements there are, the scope
/// that is filtered for, the age of the cache, and what happened last.
#[verifier::rlimit(60)]
#[verifier::spinoff_prover]
pub proof fn law_status_line_tells(m: BrowseModel, now: i64)
    ensures
        text::has_text(m.status_text(now), m.account),
        text::has_text(m.status_text(now), numbers::decimal(m.entitlements.len())),
        m.scope_filter is None ==> text::has_text(m.status_text(now), "all"@),
        m.scope_filter matches Some(s) ==> text::has_text(m.status_text(now), s.name_text()),
        m.last_refresh matches Some(t) ==> text::has_text(
            m.status_text(now),
            widgets::age_text(now - t),
        ),
        m.last_refresh is None ==> text::has_text(m.status_text(now), "never"@),
        text::has_text(m.status_text(now), m.status),
        m.refresh_in_flight ==> text::has_text(m.status_text(now), "[refreshing] "@),
{
    let flag = if m.refresh_in_flight {
        "[refreshing] "@
    } else {
        ""@
    };
    let scope = match m.scope_filter {
        None => "all"@,
        Some(s) => s.name_text(),
    };
    let age = match m.last_refresh {
        Some(t) => widgets::age_text(now - t),
        None => "never"@,
    };
    let p0 = flag;
    let p1 = p0 + m.account;
    let p2 = p1 + " | "@;
    let p3 = p2 + numbers::decimal(m.entitlements.len());
    let p4 = p3 + " entitlements | scope:"@;
    let p5 = p4 + scope;
    let p6 = p5 + " | cache age "@;
    let p7 = p6 + age;
    let p8 = p7 + " | "@;
    let p9 = p8 + m.status;
    let w0 = p0;
    text::lemma_text_stays(Seq::<char>::empty(), w0, w0);
    assert(Seq::<char>::empty() + w0 =~= w0);
    text::lemma_text_stays(p0, w0, m.account);
    text::lemma_text_stays(p1, w0, " | "@);
    text::lemma_text_stays(p2, w0, numbers::decimal(m.entitlements.len()));
    text::lemma_text_stays(p3, w0, " entitlements | scope:"@);
    text::lemma_text_stays(p4, w0, scope);
    text::lemma_text_stays(p5, w0, " | cache age "@);
    text::lemma_text_stays(p6, w0, age);
    text::lemma_text_stays(p7, w0, " | "@);
    text::lemma_text_stays(p8, w0, m.status);
    let w1 = m.account;
    text::lemma_text_stays(p0, w1, w1);
    text::lemma_text_stays(p1, w1, " | "@);
    text::lemma_text_stays(p2, w1, numbers::decimal(m.entitlements.len()));
    text::lemma_text_stays(p3, w1, " entitlements | scope:"@);
    text::lemma_text_stays(p4, w1, scope);
    text::lemma_text_stays(p5, w1, " | cache age "@);
    text::lemma_text_stays(p6, w1, age);
    text::lemma_text_stays(p7, w1, " | "@);
    text::lemma_text_stays(p8, w1, m.status);
    let w3 = numbers::decimal(m.entitlements.len());
    text::lemma_text_stays(p2, w3, w3);
    text::lemma_text_stays(p3, w3, " entitlements | scope:"@);
    text::lemma_text_stays(p4, w3, scope);
    text::lemma_text_stays(p5, w3, " | cache age "@);
    text::lemma_text_stays(p6, w3, age);
    text::lemma_text_stays(p7, w3, " | "@);
    text::lemma_text_stays(p8, w3, m.status);
    let w5 = scope;
    text::lemma_text_stays(p4, w5, w5);
    text::lemma_text_stays(p5, w5, " | cache age "@);
    text::lemma_text_stays(p6, w5, age);
    text::lemma_text_stays(p7, w5, " | "@);
    text::lemma_text_stays(p8, w5, m.status);
    let w7 = age;
    text::lemma_text_stays(p6, w7, w7);
    text::lemma_text_stays(p7, w7, " | "@);
    text::lemma_text_stays(p8, w7, m.status);
    let w9 = m.status;
    text::lemma_text_stays(p8, w9, w9);
    assert(m.status_text(now) == p9);
}

/// The badge counts the approvals; the warning gives its level, its message and
/// how many there are.
pub proof fn law_bar_gives_the_details(pending: nat, logs: LogState)
    ensures
        pending > 0 ==> text::has_text(badge_text(pending), numbers::decimal(pending)),
        logs.last matches Some(e) ==> (logs.unread > 0 ==> text::has_text(
            warning_text(logs),
            e.level.name(),
        ) && text::has_text(warning_text(logs), e.message@) && text::has_text(
            warning_text(logs),
            numbers::decimal(logs.unread as nat),
        )),
{
    text::law_occurrence(" | "@, numbers::decimal(pending), " pending approvals (A)"@);
    if let Some(e) = logs.last {
    let p0 = " | "@;
    let p1 = p0 + e.level.name();
    let p2 = p1 + ": "@;
    let p3 = p2 + e.message@;
    let p4 = p3 + " ("@;
    let p5 = p4 + numbers::decimal(logs.unread as nat);
    let p6 = p5 + " unread, L)"@;
    let w1 = e.level.name();
    text::lemma_text_stays(p0, w1, w1);
    text::lemma_text_stays(p1, w1, ": "@);
    text::lemma_text_stays(p2, w1, e.message@);
    text::lemma_text_stays(p3, w1, " ("@);
    text::lemma_text_stays(p4, w1, numbers::decimal(logs.unread as nat));
    text::lemma_text_stays(p5, w1, " unread, L)"@);
    let w3 = e.message@;
    text::lemma_text_stays(p2, w3, w3);
    text::lemma_text_stays(p3, w3, " ("@);
    text::lemma_text_stays(p4, w3, numbers::decimal(logs.unread as nat));
    text::lemma_text_stays(p5, w3, " unread, L)"@);
    let w5 = numbers::decimal(logs.unread as nat);
    text::lemma_text_stays(p4, w5, w5);
    text::lemma_text_stays(p5, w5, " unread, L)"@);
    }
}

/// The logs show the last warning with its level and its age, and where the
/// others are.
pub proof fn law_logs_are_shown(logs: LogState, now: SystemTime)
    ensures
        logs.last is Some ==> log_lines_model(logs, now).len() == 4,
        logs.last matches Some(e) ==> log_lines_model(logs, now)[1].last().text == e.message@,
        logs.last matches Some(e) ==> text::has_text(
            log_lines_model(logs, now)[0].last().text,
            e.level.name(),
        ),
        logs.last matches Some(e) ==> text::has_text(
            log_lines_model(logs, now)[0].last().text,
            approval_queue::age_shown(approval_queue::age_at(e.at, now)),
        ),
        logs.last is None ==> log_lines_model(logs, now).len() == 3,
        log_lines_model(logs, now).last().last().text == logs.log_path@,
{
    if let Some(e) = logs.last {
        let age = approval_queue::age_shown(approval_queue::age_at(e.at, now));
        let level = e.level.name();
        text::law_occurrence("["@, level, "] "@ + age + " ago"@);
        assert("["@ + level + "] "@ + age + " ago"@ =~= "["@ + level + ("] "@ + age + " ago"@));
        text::law_occurrence("["@ + level + "] "@, age, " ago"@);
    }
}

/// No entry of the help is wider than the column that is made for it.
pub proof fn law_column_holds_every_entry(s: Seq<(Seq<char>, Seq<char>)>, i: int)
    requires
        0 <= i < s.len(),
    ensures
        s[i].0.len() + s[i].1.len() + 3 <= widest(s),
    decreases s.len(),
{
    if i < s.len() - 1 {
        law_column_holds_every_entry(s.drop_last(), i);
        assert(s.drop_last()[i] == s[i]);
    }
}

/// The strip takes no room where there are no grants; otherwise a line for each
/// of at most five, and the frame around them.
pub proof fn law_strip_takes_its_room(grants: nat)
    ensures
        grants == 0 ==> strip_height_for(grants) == 0,
        1 <= grants <= 5 ==> strip_height_for(grants) == grants + 2,
        grants > 5 ==> strip_height_for(grants) == 7,
{
}

/// The part of the screen that has the focus has a star behind its name, and the
/// other has none.
pub proof fn law_focus_is_starred(m: BrowseModel)
    ensures
        m.focus is List ==> text::ends_with(m.list_title(), "* "@),
        m.focus is List ==> m.search_title() == " search ("@ + numbers::decimal(m.filtered.len())
            + " of "@ + numbers::decimal(m.entitlements.len()) + ") "@,
        m.focus is Search ==> m.search_title() == " search* ("@ + numbers::decimal(
            m.filtered.len(),
        ) + " of "@ + numbers::decimal(m.entitlements.len()) + ") "@,
        m.focus is Search && m.only_marked ==> m.list_title() == " marked "@,
        m.focus is Search && !m.only_marked ==> m.list_title() == " entitlements "@,
        m.show_raw ==> text::has_text(m.preview_title(), "raw, J to collapse"@),
        !m.show_raw ==> text::has_text(m.preview_title(), "J for raw"@),
{
    reveal_strlit(" search");
    reveal_strlit(" (");
    reveal_strlit("");
    reveal_strlit("*");
    reveal_strlit(" search (");
    reveal_strlit(" search* (");
    assert(" search"@ + ""@ + " ("@ =~= " search ("@);
    assert(" search"@ + "*"@ + " ("@ =~= " search* ("@);
    reveal_strlit(" ");
    reveal_strlit("* ");
    reveal_strlit("marked");
    reveal_strlit(" marked ");
    reveal_strlit("entitlements");
    reveal_strlit(" entitlements ");
    assert(" "@ + "marked"@ + " "@ =~= " marked "@);
    assert(" "@ + "entitlements"@ + " "@ =~= " entitlements "@);
    let word = " "@ + (if m.only_marked {
        "marked"@
    } else {
        "entitlements"@
    });
    if m.focus is List {
        assert((word + "* "@).skip(word.len() as int) =~= "* "@);
    }
    reveal_strlit(" preview (raw, J to collapse) ");
    reveal_strlit("raw, J to collapse");
    reveal_strlit(" preview (J for raw) ");
    reveal_strlit("J for raw");
    text::law_occurrence(" preview ("@, "raw, J to collapse"@, ") "@);
    text::law_occurrence(" preview ("@, "J for raw"@, ") "@);
    reveal_strlit(" preview (");
    reveal_strlit(") ");
    assert(" preview ("@ + "raw, J to collapse"@ + ") "@ =~= " preview (raw, J to collapse) "@);
    assert(" preview ("@ + "J for raw"@ + ") "@ =~= " preview (J for raw) "@);
}

/// On a wide screen the help shows both columns and every entry; on a narrow one
/// it keeps to the screen, but for its least width.
pub proof fn law_help_takes_its_room(area: Area)
    ensures
        area.width >= 81 ==> help_box(area).width == 77,
        44 <= area.width < 81 ==> help_box(area).width == area.width - 4,
        area.width < 44 ==> help_box(area).width == 40,
        area.height >= 20 ==> help_box(area).height == 18,
        2 <= area.height < 20 ==> help_box(area).height == area.height - 2,
{
    lemma_help_width();
}

/// The status line holds its parts and what stands between them, and nothing else.
pub proof fn law_status_line_says_no_more(m: BrowseModel, now: i64)
    ensures
        m.status_text(now).len() == (if m.refresh_in_flight {
            13int
        } else {
            0
        }) + m.account.len() + 3 + numbers::decimal(m.entitlements.len()).len() + 22 + (
        match m.scope_filter {
            None => 3,
            Some(s) => s.name_text().len(),
        }) + 13 + (match m.last_refresh {
            Some(t) => widgets::age_text(now - t).len(),
            None => 5,
        }) + 3 + m.status.len(),
{
    reveal_strlit("[refreshing] ");
    reveal_strlit("");
    reveal_strlit(" | ");
    reveal_strlit(" entitlements | scope:");
    reveal_strlit("all");
    reveal_strlit(" | cache age ");
    reveal_strlit("never");
}

/// A summary has no line for a maximum where there is none, and no more text than
/// its parts.
pub proof fn law_summary_shows_no_more(e: EntitlementModel)
    ensures
        summary_text(e).len() == 10 + e.short_name.len() + 11 + e.scope_type.plural_text().len()
            + e.scope_id.len() + (match e.max_request_duration_secs {
            Some(secs) => 10 + widgets::age_text(secs as int).len(),
            None => 0,
        }) + 18 + (if e.approvers.len() == 0 {
            15
        } else {
            11 + item_lines(e.approvers).len()
        }) + (if e.roles.len() == 0 {
            24
        } else {
            7 + item_lines(e.roles).len()
        }),
{
    reveal_strlit("name:    ");
    reveal_strlit("\n");
    reveal_strlit("scope:   ");
    reveal_strlit("/");
    reveal_strlit("max:     ");
    reveal_strlit("justify: ");
    reveal_strlit("required");
    reveal_strlit("optional");
    reveal_strlit("approval: auto\n");
    reveal_strlit("approvers:\n");
    reveal_strlit("roles:    (none listed)\n");
    reveal_strlit("roles:\n");
}

} // verus!
