//! Requesting access: the prompts for each entitlement, what is recorded of
//! each request, and what is shown of it.
use vstd::prelude::*;
use vstd::string::*;
use crate::cache;
use crate::cache::rows;
use crate::cache::rows::{EntitlementModel, GrantModel};
use crate::cache::{Cache, CacheModel, EntitlementRow, GrantRow};
use crate::gcp::grants;
use crate::gcp::grants::{GrantState, MIN_DURATION_SECS, StateModel, parse_duration};
use crate::numbers;
use crate::numbers::u64_text;
use crate::poller::{GrantPoll, PollMode, PollModel};
use crate::table;
use crate::text;
use crate::text::{chars_of, is_blank, last_piece, spaces, string_of};
use crate::tui::keymap;
use crate::tui::keymap::{KeyCode, KeyEvent, ctrl_c};
use crate::tui::styled;
use crate::tui::styled::{Area, Line, SpanModel, Tone, centered};
use crate::tui::widgets;
use crate::tui::widgets::{InputModel, TextInput, format_age};

verus! {

/// The prompt that takes the keys.
#[derive(Debug, Clone, Copy, PartialEq, Eq, Structural)]
pub enum Field {
    Duration,
    Justification,
}

/// The prompts for one entitlement.
#[derive(Debug)]
pub struct Modal {
    pub entitlement: EntitlementRow,
    pub duration: TextInput,
    pub justification: TextInput,
    pub field: Field,
    pub error: Option<String>,
}

/// The prompts for one entitlement, as characters.
pub ghost struct ModalModel {
    pub entitlement: EntitlementModel,
    pub duration: InputModel,
    pub justification: InputModel,
    pub field: Field,
    pub error: Option<Seq<char>>,
}

impl View for Modal {
    type V = ModalModel;

    open spec fn view(&self) -> ModalModel {
        ModalModel {
            entitlement: self.entitlement@,
            duration: self.duration@,
            justification: self.justification@,
            field: self.field,
            error: self.error.deep_view(),
        }
    }
}

/// What a key leads to.
#[derive(Debug)]
pub enum StepOutcome {
    /// Request this entitlement with these values.
    Submit { duration_secs: i64, justification: Option<String> },
    /// Leave this entitlement out, and go on with the next.
    Skip,
    /// Give up on all that is left.
    Abort,
    /// Nothing yet.
    Continue,
}

/// What a key leads to, as characters.
pub ghost enum OutcomeModel {
    Submit { duration_secs: i64, justification: Option<Seq<char>> },
    Skip,
    Abort,
    Continue,
}

impl View for StepOutcome {
    type V = OutcomeModel;

    open spec fn view(&self) -> OutcomeModel {
        match self {
            StepOutcome::Submit { duration_secs, justification } => OutcomeModel::Submit {
                duration_secs: *duration_secs,
                justification: justification.deep_view(),
            },
            StepOutcome::Skip => OutcomeModel::Skip,
            StepOutcome::Abort => OutcomeModel::Abort,
            StepOutcome::Continue => OutcomeModel::Continue,
        }
    }
}

impl ModalModel {
    /// The prompts as they are opened.
    pub open spec fn opened(entitlement: EntitlementModel) -> Self {
        ModalModel {
            entitlement,
            duration: InputModel::ending("1h"@),
            justification: InputModel::empty(),
            field: Field::Duration,
            error: None,
        }
    }

    /// The duration, or what is wrong with it: it is no duration, it is below
    /// the minimum, or above the entitlement's maximum, where there is one.
    pub open spec fn checked_duration(self) -> Result<i64, Seq<char>> {
        match grants::duration_secs(self.duration.text) {
            None => Err(
                "invalid duration '"@ + self.duration.text + "'; try 1h, 30m, 5400s, 3600"@,
            ),
            Some(secs) => if secs < MIN_DURATION_SECS {
                Err("below minimum "@ + widgets::age_text(MIN_DURATION_SECS as int))
            } else {
                match self.entitlement.max_request_duration_secs {
                    Some(max) => if max > 0 && secs > max {
                        Err("exceeds max "@ + widgets::age_text(max as int))
                    } else {
                        Ok(secs)
                    },
                    None => Ok(secs),
                }
            },
        }
    }

    /// What submitting leads to. The justification is sent where one is
    /// required.
    pub open spec fn submitted(self) -> OutcomeModel {
        match self.checked_duration() {
            Ok(duration_secs) => OutcomeModel::Submit {
                duration_secs,
                justification: if self.entitlement.justification_required {
                    Some(self.justification.text)
                } else {
                    None
                },
            },
            Err(_) => OutcomeModel::Continue,
        }
    }

    /// The prompt that has the focus, with another content.
    pub open spec fn with_input(self, input: InputModel) -> Self {
        match self.field {
            Field::Duration => ModalModel { duration: input, ..self },
            Field::Justification => ModalModel { justification: input, ..self },
        }
    }

    /// The prompt that has the focus.
    pub open spec fn input(self) -> InputModel {
        match self.field {
            Field::Duration => self.duration,
            Field::Justification => self.justification,
        }
    }

    /// Enter in the duration prompt: on to the justification where one is
    /// required, else submit.
    pub open spec fn duration_entered(self) -> (Self, OutcomeModel) {
        match self.checked_duration() {
            Ok(_) => if self.entitlement.justification_required {
                (
                    ModalModel { error: None, field: Field::Justification, ..self },
                    OutcomeModel::Continue,
                )
            } else {
                (ModalModel { error: None, ..self }, self.submitted())
            },
            Err(e) => (ModalModel { error: Some(e), ..self }, OutcomeModel::Continue),
        }
    }

    /// Enter in the justification prompt: submit, unless a justification is
    /// required and there is none.
    pub open spec fn justification_entered(self) -> (Self, OutcomeModel) {
        if self.entitlement.justification_required && text::trimmed(
            self.justification.text,
        ).len() == 0 {
            (
                ModalModel { error: Some("justification cannot be empty"@), ..self },
                OutcomeModel::Continue,
            )
        } else {
            (self, self.submitted())
        }
    }

    /// What a key does.
    pub open spec fn handled(self, key: KeyEvent) -> (Self, OutcomeModel) {
        if keymap::is_ctrl_c(key) {
            (self, OutcomeModel::Abort)
        } else {
            match key.code {
                KeyCode::Esc => (self, OutcomeModel::Skip),
                KeyCode::Enter => match self.field {
                    Field::Duration => self.duration_entered(),
                    Field::Justification => self.justification_entered(),
                },
                KeyCode::Tab => (
                    ModalModel {
                        field: match self.field {
                            Field::Duration => Field::Justification,
                            Field::Justification => Field::Duration,
                        },
                        ..self
                    },
                    OutcomeModel::Continue,
                ),
                _ => (self.with_input(self.input().edited(key)), OutcomeModel::Continue),
            }
        }
    }
}

impl Modal {
    /// The prompts hold texts.
    pub open spec fn wf(&self) -> bool {
        self.duration.wf() && self.justification.wf()
    }

    /// Opens the prompts for an entitlement.
    pub fn new(entitlement: EntitlementRow) -> (r: Self)
        ensures
            r.wf(),
            r@ == ModalModel::opened(entitlement@),
    {
        Modal {
            duration: TextInput::with_text("1h"),
            justification: TextInput::new(),
            field: Field::Duration,
            error: None,
            entitlement,
        }
    }

    /// Checks the duration.
    pub fn validate_duration(&self) -> (r: Result<i64, String>)
        ensures
            match r {
                Ok(secs) => self@.checked_duration() == Ok::<i64, Seq<char>>(secs),
                Err(e) => self@.checked_duration() == Err::<i64, Seq<char>>(e@),
            },
            r is Ok <==> (grants::duration_secs(self.duration@.text) matches Some(secs) && secs >= 1800
                && (self.entitlement.max_request_duration_secs matches Some(max) ==> max <= 0 || secs
                <= max)),
            r matches Ok(secs) ==> grants::duration_secs(self.duration@.text) == Some(secs),
    {
        let s: &str = self.duration.as_str();
        match parse_duration(s) {
            None => {
                let mut e: String = "invalid duration '".to_owned();
                e.append(s);
                e.append("'; try 1h, 30m, 5400s, 3600");
                Err(e)
            },
            Some(secs) => {
                if secs < MIN_DURATION_SECS {
                    let mut e: String = "below minimum ".to_owned();
                    e.append(format_age(MIN_DURATION_SECS).as_str());
                    return Err(e);
                }
                if let Some(max) = self.entitlement.max_request_duration_secs {
                    if max > 0 && secs > max {
                        let mut e: String = "exceeds max ".to_owned();
                        e.append(format_age(max).as_str());
                        return Err(e);
                    }
                }
                Ok(secs)
            },
        }
    }

    fn submit(&self) -> (r: StepOutcome)
        ensures
            r@ == self@.submitted(),
    {
        match self.validate_duration() {
            Ok(duration_secs) => {
                let justification: Option<String> = if self.entitlement.justification_required {
                    Some(self.justification.as_str().to_owned())
                } else {
                    None
                };
                StepOutcome::Submit { duration_secs, justification }
            },
            Err(_) => StepOutcome::Continue,
        }
    }

    fn enter(&mut self) -> (r: StepOutcome)
        requires
            old(self).wf(),
        ensures
            final(self).wf(),
            (final(self)@, r@) == (match old(self).field {
                Field::Duration => old(self)@.duration_entered(),
                Field::Justification => old(self)@.justification_entered(),
            }),
    {
        match self.field {
            Field::Duration => match self.validate_duration() {
                Ok(_) => {
                    self.error = None;
                    if self.entitlement.justification_required {
                        self.field = Field::Justification;
                        StepOutcome::Continue
                    } else {
                        self.submit()
                    }
                },
                Err(e) => {
                    self.error = Some(e);
                    StepOutcome::Continue
                },
            },
            Field::Justification => {
                if self.entitlement.justification_required && is_blank(
                    self.justification.as_str(),
                ) {
                    self.error = Some("justification cannot be empty".to_owned());
                    StepOutcome::Continue
                } else {
                    self.submit()
                }
            },
        }
    }

    /// Takes in a key.
    pub fn handle_key(&mut self, key: KeyEvent) -> (r: StepOutcome)
        requires
            old(self).wf(),
        ensures
            final(self).wf(),
            (final(self)@, r@) == old(self)@.handled(key),
    {
        if ctrl_c(key) {
            return StepOutcome::Abort;
        }
        match key.code {
            KeyCode::Esc => {
                return StepOutcome::Skip;
            },
            KeyCode::Enter => {
                return self.enter();
            },
            KeyCode::Tab => {
                self.field = match self.field {
                    Field::Duration => Field::Justification,
                    Field::Justification => Field::Duration,
                };
            },
            _ => match self.field {
                Field::Duration => {
                    self.duration.handle_key(key);
                },
                Field::Justification => {
                    self.justification.handle_key(key);
                },
            },
        }
        StepOutcome::Continue
    }
}

// ---------------------------------------------------------------------------
// The flow
// ---------------------------------------------------------------------------

/// What came of one request.
#[derive(Debug)]
pub struct RequestResult {
    pub short_name: String,
    pub state: ResultState,
}

#[derive(Debug)]
pub enum ResultState {
    /// A grant with this name was created.
    Created(String),
    /// The request failed, for this reason.
    Failed(String),
    Skipped,
}

/// What came of one request, as characters.
pub ghost struct ResultModel {
    pub short_name: Seq<char>,
    pub state: ResultStateModel,
}

pub ghost enum ResultStateModel {
    Created(Seq<char>),
    Failed(Seq<char>),
    Skipped,
}

impl View for RequestResult {
    type V = ResultModel;

    open spec fn view(&self) -> ResultModel {
        ResultModel {
            short_name: self.short_name@,
            state: match self.state {
                ResultState::Created(name) => ResultStateModel::Created(name@),
                ResultState::Failed(message) => ResultStateModel::Failed(message@),
                ResultState::Skipped => ResultStateModel::Skipped,
            },
        }
    }
}

/// The models of a list of results.
pub open spec fn result_models(v: Seq<RequestResult>) -> Seq<ResultModel> {
    Seq::new(v.len(), |i: int| v[i]@)
}

/// The row of a grant that was just created.
pub open spec fn created_grant(
    e: EntitlementModel,
    name: Seq<char>,
    duration_secs: i64,
    justification: Option<Seq<char>>,
    now: i64,
) -> GrantModel {
    GrantModel {
        name,
        entitlement_name: e.name,
        entitlement_short_name: e.short_name,
        scope_type: e.scope_type,
        scope_id: e.scope_id,
        scope_display_name: e.scope_display_name,
        short_id: text::pieces(name, '/').last(),
        state: StateModel::Requested.shown(),
        requested_duration_secs: duration_secs,
        justification,
        created_at: now,
        activated_at: None,
        expires_at: None,
        last_polled_at: None,
        raw_json: None,
    }
}

/// The requests for a selection, one entitlement after the other.
#[derive(Debug)]
pub struct RequestFlow {
    selected: Vec<EntitlementRow>,
    results: Vec<RequestResult>,
}

/// The requests for a selection, as characters.
pub ghost struct FlowModel {
    pub selected: Seq<EntitlementModel>,
    pub results: Seq<ResultModel>,
}

impl View for RequestFlow {
    type V = FlowModel;

    closed spec fn view(&self) -> FlowModel {
        FlowModel {
            selected: rows::entitlement_models(self.selected@),
            results: result_models(self.results@),
        }
    }
}

impl FlowModel {
    /// No more results than entitlements.
    pub open spec fn wf(self) -> bool {
        self.results.len() <= self.selected.len()
    }

    /// There is an entitlement left to ask about.
    pub open spec fn has_current(self) -> bool {
        self.results.len() < self.selected.len()
    }

    /// The entitlement that is asked about: the first one without a result.
    pub open spec fn current(self) -> EntitlementModel {
        self.selected[self.results.len() as int]
    }

    /// The result of the entitlement that was asked about.
    pub open spec fn with_result(self, state: ResultStateModel) -> Self {
        FlowModel {
            results: self.results.push(
                ResultModel { short_name: self.current().short_name, state },
            ),
            ..self
        }
    }
}

/// The names of the grants that were created, in order.
pub open spec fn created_names(s: Seq<ResultModel>) -> Seq<Seq<char>>
    decreases s.len(),
{
    if s.len() == 0 {
        Seq::empty()
    } else {
        match s.last().state {
            ResultStateModel::Created(name) => created_names(s.drop_last()).push(name),
            _ => created_names(s.drop_last()),
        }
    }
}

/// A request failed.
pub open spec fn any_failed(s: Seq<ResultModel>) -> bool {
    exists|i: int| 0 <= i < s.len() && (#[trigger] s[i]).state is Failed
}

impl RequestFlow {
    /// Every result is that of an entitlement.
    pub open spec fn wf(&self) -> bool {
        self@.wf()
    }

    /// Begins with the first entitlement of a selection.
    pub fn new(selected: Vec<EntitlementRow>) -> (r: Self)
        ensures
            r.wf(),
            r@ == (FlowModel {
                selected: rows::entitlement_models(selected@),
                results: Seq::empty(),
            }),
    {
        let r = RequestFlow { selected, results: Vec::new() };
        assert(r@.results =~= Seq::<ResultModel>::empty());
        r
    }

    /// The entitlement to ask about.
    pub fn current(&self) -> (r: Option<&EntitlementRow>)
        ensures
            match r {
                Some(e) => self@.has_current() && e@ == self@.current(),
                None => !self@.has_current(),
            },
    {
        if self.results.len() < self.selected.len() {
            assert(self@.selected[self.results@.len() as int] == self.selected@[self.results@.len() as int]@);
            Some(&self.selected[self.results.len()])
        } else {
            None
        }
    }

    /// The place of the entitlement to ask about, and the number of them.
    pub fn progress(&self) -> (r: (usize, usize))
        ensures
            r.0 == self@.results.len(),
            r.1 == self@.selected.len(),
    {
        (self.results.len(), self.selected.len())
    }

    /// The results so far.
    pub fn results(&self) -> (r: &Vec<RequestResult>)
        ensures
            result_models(r@) == self@.results,
    {
        &self.results
    }

    fn push(&mut self, state: ResultState)
        requires
            old(self).wf(),
            old(self)@.has_current(),
        ensures
            final(self).wf(),
            final(self)@ == old(self)@.with_result(
                match state {
                    ResultState::Created(name) => ResultStateModel::Created(name@),
                    ResultState::Failed(message) => ResultStateModel::Failed(message@),
                    ResultState::Skipped => ResultStateModel::Skipped,
                },
            ),
    {
        let ghost before = self@;
        let n: usize = self.results.len();
        assert(before.selected[n as int] == self.selected@[n as int]@);
        let short_name: String = self.selected[n].short_name.as_str().to_owned();
        let result = RequestResult { short_name, state };
        let ghost m = result@;
        self.results.push(result);
        assert(self@.results =~= before.results.push(m));
    }

    /// Records that a grant was created for the entitlement: it is stored in
    /// the cache, the entitlement counts as used, and the grant is to be
    /// polled.
    pub fn created(
        &mut self,
        cache: &mut Cache,
        name: String,
        duration_secs: i64,
        justification: Option<String>,
        now: i64,
    ) -> (r: GrantPoll)
        requires
            old(self).wf(),
            old(self)@.has_current(),
            old(cache).wf(),
        ensures
            final(self).wf(),
            final(self)@ == old(self)@.with_result(ResultStateModel::Created(name@)),
            final(cache).wf(),
            final(cache)@ == old(cache)@.with_use(old(self)@.current().name, now).with_grant(
                created_grant(
                    old(self)@.current(),
                    name@,
                    duration_secs,
                    justification.deep_view(),
                    now,
                ),
            ),
            r@ == PollModel::starting(
                name@,
                duration_secs,
                StateModel::Requested,
                PollMode::Track,
            ),
            r.grant_name@ == name@,
            r.requested_duration_secs == duration_secs,
            r.mode == PollMode::Track,
            !r.already_active,
    {
        let n: usize = self.results.len();
        assert(self@.selected[n as int] == self.selected@[n as int]@);
        let ent: &EntitlementRow = &self.selected[n];
        let row = GrantRow {
            name: name.as_str().to_owned(),
            entitlement_name: ent.name.as_str().to_owned(),
            entitlement_short_name: ent.short_name.as_str().to_owned(),
            scope_type: ent.scope_type,
            scope_id: ent.scope_id.as_str().to_owned(),
            scope_display_name: ent.scope_display_name.clone(),
            short_id: last_piece(name.as_str(), '/').to_owned(),
            state: GrantState::Requested.to_string(),
            requested_duration_secs: duration_secs,
            justification,
            created_at: now,
            activated_at: None,
            expires_at: None,
            last_polled_at: None,
            raw_json: None,
        };
        cache.bump_used(ent.name.as_str(), now);
        cache.upsert_grant(&row);
        let poll = GrantPoll::new(
            name.as_str().to_owned(),
            duration_secs,
            GrantState::Requested,
            PollMode::Track,
        );
        self.push(ResultState::Created(name));
        poll
    }

    /// Records that the request for the entitlement failed.
    pub fn failed(&mut self, message: String)
        requires
            old(self).wf(),
            old(self)@.has_current(),
        ensures
            final(self).wf(),
            final(self)@ == old(self)@.with_result(ResultStateModel::Failed(message@)),
    {
        self.push(ResultState::Failed(message));
    }

    /// Records that the entitlement was left out.
    pub fn skipped(&mut self)
        requires
            old(self).wf(),
            old(self)@.has_current(),
        ensures
            final(self).wf(),
            final(self)@ == old(self)@.with_result(ResultStateModel::Skipped),
    {
        self.push(ResultState::Skipped);
    }

    /// Tells whether the results are to be shown before the screen is left:
    /// where a request failed.
    pub fn needs_summary(&self) -> (r: bool)
        ensures
            r == any_failed(self@.results),
    {
        let mut i: usize = 0;
        while i < self.results.len()
            invariant
                i <= self.results.len(),
                forall|k: int| 0 <= k < i ==> !((#[trigger] self@.results[k]).state is Failed),
            decreases self.results.len() - i,
        {
            assert(self@.results[i as int] == self.results@[i as int]@);
            if let ResultState::Failed(_) = &self.results[i].state {
                return true;
            }
            i += 1;
        }
        false
    }

    /// The names of the grants that were created.
    pub fn grant_names(&self) -> (r: Vec<String>)
        ensures
            r.deep_view() == created_names(self@.results),
    {
        let ghost all = self@.results;
        let mut out: Vec<String> = Vec::new();
        let mut i: usize = 0;
        assert(out.deep_view() =~= created_names(all.take(0)));
        while i < self.results.len()
            invariant
                i <= self.results.len(),
                all == result_models(self.results@),
                out.deep_view() == created_names(all.take(i as int)),
            decreases self.results.len() - i,
        {
            let ghost before = out.deep_view();
            assert(all[i as int] == self.results@[i as int]@);
            assert(all.take(i + 1).drop_last() =~= all.take(i as int));
            if let ResultState::Created(name) = &self.results[i].state {
                out.push(name.as_str().to_owned());
                assert(out.deep_view() =~= before.push(name@));
            }
            i += 1;
        }
        assert(all.take(i as int) =~= all);
        out
    }
}

/// Tells whether a key leaves the summary.
pub fn leaves_summary(key: KeyEvent) -> (r: bool)
    ensures
        r == (keymap::is_ctrl_c(key) || key.code == KeyCode::Enter || key.code == KeyCode::Esc
            || key.code == KeyCode::Char(' ') || key.code == KeyCode::Char('q')),
{
    match key.code {
        KeyCode::Enter | KeyCode::Esc | KeyCode::Char(' ') | KeyCode::Char('q') => true,
        _ => ctrl_c(key),
    }
}

// ---------------------------------------------------------------------------
// Laws
// ---------------------------------------------------------------------------

/// What is submitted is a duration of at least the minimum and at most the
/// entitlement's maximum; a justification goes with it exactly where one is
/// required, and then it is not blank.
pub proof fn law_submit_is_valid(m: ModalModel, key: KeyEvent)
    ensures
        m.handled(key).1 matches OutcomeModel::Submit { duration_secs, justification } ==> {
            &&& duration_secs >= MIN_DURATION_SECS
            &&& m.entitlement.max_request_duration_secs matches Some(max) ==> (max > 0
                ==> duration_secs <= max)
            &&& justification is Some <==> m.entitlement.justification_required
            &&& justification matches Some(j) ==> text::trimmed(j).len() > 0
            &&& key.code == KeyCode::Enter
        },
{
}

/// A rejected entry never leaves the prompts, and says why.
pub proof fn law_rejected_entry_stays(m: ModalModel, key: KeyEvent)
    requires
        key.code == KeyCode::Enter,
        m.field == Field::Duration,
        m.checked_duration() is Err,
    ensures
        m.handled(key).1 == OutcomeModel::Continue,
        m.handled(key).0.error == Some(m.checked_duration()->Err_0),
        m.handled(key).0.duration == m.duration,
{
}

/// The duration that is offered is accepted wherever the entitlement allows
/// an hour.
pub proof fn law_offered_duration(e: EntitlementModel)
    requires
        e.max_request_duration_secs matches Some(max) ==> (max > 0 ==> max >= 3600),
    ensures
        ModalModel::opened(e).checked_duration() == Ok::<i64, Seq<char>>(3600),
{
    reveal_strlit("1h");
    let t = "1h"@;
    assert(t.len() == 2 && t[0] == '1' && t[1] == 'h');
    assert(text::trim_start(t) == t);
    assert(text::trim_end(t) == t);
    assert(t.drop_last() =~= seq!['1']);
    reveal_with_fuel(numbers::digits_value, 2);
    assert(numbers::digits_value(seq!['1']) == 1) by {
        assert(seq!['1'].drop_last() =~= Seq::<char>::empty());
    }
    assert(numbers::parsed_i64(t.drop_last()) == Some(1i64));
}

/// Control-C gives up, Escape leaves the entitlement out, from either prompt.
pub proof fn law_ways_out(m: ModalModel, key: KeyEvent)
    ensures
        keymap::is_ctrl_c(key) ==> m.handled(key).1 == OutcomeModel::Abort,
        key.code == KeyCode::Esc ==> m.handled(key).1 == OutcomeModel::Skip,
{
}

/// Every entitlement gets one result, in order.
pub proof fn law_one_result_each(f: FlowModel, state: ResultStateModel)
    requires
        f.wf(),
        f.has_current(),
    ensures
        f.with_result(state).wf(),
        f.with_result(state).results.len() == f.results.len() + 1,
        f.with_result(state).results.last().short_name == f.current().short_name,
{
}

// ---------------------------------------------------------------------------
// What is shown
// ---------------------------------------------------------------------------

/// The text below the prompts.
pub const FOOTER: &'static str = "enter confirm | tab swap field | esc skip this | ctrl-c abort all";

/// The text below the summary.
pub const SUMMARY_FOOTER: &'static str = "press enter / esc / q to continue";

/// The text in place of a justification that is not required.
pub const NO_JUSTIFICATION: &'static str = "justification: not required";

/// The text above the prompts for the entitlement at a place.
pub open spec fn header_text(at: nat, total: nat) -> Seq<char> {
    " requesting access -- "@ + numbers::decimal(at + 1) + " of "@ + numbers::decimal(total) + " "@
}

/// The text above the prompts.
pub fn header(at: usize, total: usize) -> (r: String)
    requires
        at < usize::MAX,
    ensures
        r@ == header_text(at as nat, total as nat),
{
    let mut r: String = " requesting access -- ".to_owned();
    r.append(u64_text((at + 1) as u64).as_str());
    r.append(" of ");
    r.append(u64_text(total as u64).as_str());
    r.append(" ");
    r
}

/// The title of the prompts.
pub open spec fn title_text(e: EntitlementModel) -> Seq<char> {
    " "@ + e.short_name + " "@
}

/// The scope of the entitlement, with its name where one is known.
pub open spec fn scope_text(e: EntitlementModel) -> Seq<char> {
    let place = "scope: "@ + e.scope_type.plural_text() + "/"@ + e.scope_id;
    match text::kept_non_empty(e.scope_display_name) {
        Some(name) => place + " ("@ + name + ")"@,
        None => place,
    }
}

/// The least and the greatest duration.
pub open spec fn limits_text(e: EntitlementModel) -> Seq<char> {
    let min = "min "@ + widgets::age_text(MIN_DURATION_SECS as int);
    match e.max_request_duration_secs {
        Some(max) => min + " | max "@ + widgets::age_text(max as int),
        None => min,
    }
}

/// The label of a prompt.
pub open spec fn label_text(field: Field) -> Seq<char> {
    match field {
        Field::Duration => "duration"@,
        Field::Justification => "justify "@,
    }
}

/// The mark before a prompt: an arrow where it has the focus.
pub open spec fn arrow_text(focused: bool) -> Seq<char> {
    if focused {
        "> "@
    } else {
        "  "@
    }
}

/// The tone of a prompt's label.
pub open spec fn label_tone(focused: bool) -> Tone {
    if focused {
        Tone::YellowBold
    } else {
        Tone::Dim
    }
}

/// The width of what stands before a prompt's text.
pub const PREFIX_WIDTH: usize = 12;

/// A prompt on one line.
pub open spec fn field_model(field: Field, content: Seq<char>, focused: bool) -> Seq<SpanModel> {
    let tone = label_tone(focused);
    seq![
        styled::span(arrow_text(focused), tone),
        styled::span(label_text(field) + ": "@, tone),
        styled::plain(content),
    ]
}

/// A text cut into pieces of a width; the last one may be shorter.
pub open spec fn chunks(s: Seq<char>, width: nat) -> Seq<Seq<char>>
    decreases s.len(),
{
    if width == 0 || s.len() <= width {
        seq![s]
    } else {
        seq![s.take(width as int)] + chunks(s.skip(width as int), width)
    }
}

/// The width that is left for a prompt's text.
pub open spec fn text_width(width: u16) -> nat {
    styled::most(width - PREFIX_WIDTH, 1) as nat
}

/// The line of a wrapped prompt that holds its chunk at a place.
pub open spec fn wrapped_line(chunk: Seq<char>, at: int, field: Field, focused: bool) -> Seq<
    SpanModel,
> {
    seq![
        if at == 0 {
            styled::span(
                arrow_text(focused) + label_text(field) + ": "@,
                label_tone(focused),
            )
        } else {
            styled::plain(text::repeated(' ', PREFIX_WIDTH as nat))
        },
        styled::plain(chunk),
    ]
}

/// A prompt that is wrapped to a width, by characters.
pub open spec fn wrapped_model(
    field: Field,
    content: Seq<char>,
    focused: bool,
    width: u16,
) -> Seq<Seq<SpanModel>> {
    if content.len() == 0 {
        seq![
            seq![
                styled::span(
                    arrow_text(focused) + label_text(field) + ": "@,
                    label_tone(focused),
                ),
            ],
        ]
    } else {
        let pieces = chunks(content, text_width(width));
        Seq::new(pieces.len(), |i: int| wrapped_line(pieces[i], i, field, focused))
    }
}

fn label(field: Field) -> (r: &'static str)
    ensures
        r@ == label_text(field),
{
    match field {
        Field::Duration => "duration",
        Field::Justification => "justify ",
    }
}

fn arrow(focused: bool) -> (r: &'static str)
    ensures
        r@ == arrow_text(focused),
{
    if focused {
        "> "
    } else {
        "  "
    }
}

fn tone_of_label(focused: bool) -> (r: Tone)
    ensures
        r == label_tone(focused),
{
    if focused {
        Tone::YellowBold
    } else {
        Tone::Dim
    }
}

/// A prompt on one line.
pub fn field_line(field: Field, input: &TextInput, focused: bool) -> (r: Line)
    ensures
        r@ == field_model(field, input@.text, focused),
{
    let tone = tone_of_label(focused);
    let mut name: String = label(field).to_owned();
    name.append(": ");
    let r = Line::of(arrow(focused).to_owned(), tone).with(name, tone).with(
        input.as_str().to_owned(),
        Tone::Plain,
    );
    assert(r@ =~= field_model(field, input@.text, focused));
    r
}

/// The column of the cursor in a prompt on one line.
pub fn field_cursor(input: &TextInput) -> (r: u32)
    requires
        input.wf(),
    ensures
        r == PREFIX_WIDTH + input@.at % 0x1_0000,
{
    PREFIX_WIDTH as u32 + input.display_cursor() as u32
}

/// The width that is left for a prompt's text.
fn width_for_text(width: u16) -> (r: usize)
    ensures
        r == text_width(width),
{
    let w: usize = width as usize;
    if w > PREFIX_WIDTH {
        w - PREFIX_WIDTH
    } else {
        1
    }
}

/// A prompt that is wrapped to a width. It wraps by characters, so that the
/// cursor is where it seems to be.
pub fn wrapped_lines(field: Field, input: &TextInput, focused: bool, width: u16) -> (r: Vec<Line>)
    ensures
        styled::line_models(r@) == wrapped_model(field, input@.text, focused, width),
{
    let mut prefix: String = arrow(focused).to_owned();
    prefix.append(label(field));
    prefix.append(": ");
    let tone = tone_of_label(focused);
    let ghost content = input@.text;
    let mut out: Vec<Line> = Vec::new();
    let v: Vec<char> = chars_of(input.as_str());
    if v.len() == 0 {
        let line = Line::of(prefix, tone);
        let ghost m = line@;
        out.push(line);
        assert(styled::line_models(out@) =~= seq![m]);
        return out;
    }
    let w: usize = width_for_text(width);
    let ghost all = chunks(content, w as nat);
    let mut from: usize = 0;
    assert(content.skip(0) =~= content);
    assert(all.skip(0) =~= all);
    while from < v.len()
        invariant
            v@ == content,
            w >= 1,
            from <= v.len(),
            prefix@ == arrow_text(focused) + label_text(field) + ": "@,
            tone == label_tone(focused),
            all == chunks(content, w as nat),
            out.len() <= all.len(),
            from < v.len() ==> all.skip(out.len() as int) == chunks(
                content.skip(from as int),
                w as nat,
            ),
            from == v.len() ==> out.len() == all.len(),
            forall|k: int|
                0 <= k < out.len() ==> (#[trigger] out@[k])@ == wrapped_line(
                    all[k],
                    k,
                    field,
                    focused,
                ),
        decreases v.len() - from,
    {
        let ghost k = out.len() as int;
        let ghost rest = content.skip(from as int);
        let to: usize = if w < v.len() - from {
            from + w
        } else {
            v.len()
        };
        let piece: String = string_of(&v, from, to);
        proof {
            let c = chunks(rest, w as nat);
            assert(all.skip(k)[0] == all[k]);
            if rest.len() <= w {
                assert(piece@ =~= rest);
                assert(all.skip(k).len() == 1);
            } else {
                assert(piece@ =~= rest.take(w as int));
                assert(rest.skip(w as int) =~= content.skip(to as int));
                assert(c.skip(1) =~= chunks(content.skip(to as int), w as nat));
                assert(all.skip(k + 1) =~= all.skip(k).skip(1));
            }
            assert(piece@ == all[k]);
        }
        let head: String = if out.len() == 0 {
            prefix.as_str().to_owned()
        } else {
            spaces(PREFIX_WIDTH)
        };
        let head_tone = if out.len() == 0 {
            tone
        } else {
            Tone::Plain
        };
        let line = Line::of(head, head_tone).with(piece, Tone::Plain);
        assert(line@ =~= wrapped_line(all[k], k, field, focused));
        out.push(line);
        from = to;
    }
    assert(styled::line_models(out@) =~= wrapped_model(field, content, focused, width));
    out
}

/// The row and the column of the cursor in a prompt that is wrapped to a width
/// and shown in a number of rows. A cursor below the last row is shown there.
pub fn wrapped_cursor(input: &TextInput, width: u16, height: u16) -> (r: (u32, u32))
    requires
        input.wf(),
    ensures
        ({
            let at = (input@.at % 0x1_0000) as int;
            let w = text_width(width) as int;
            &&& r.0 == styled::least(at / w, styled::less(height as int, 1))
            &&& r.1 == PREFIX_WIDTH + at % w
        }),
{
    let at: usize = input.display_cursor() as usize;
    let w: usize = width_for_text(width);
    let row: usize = at / w;
    let last: usize = if height > 0 {
        height as usize - 1
    } else {
        0
    };
    proof {
        assert(at / w <= at) by (nonlinear_arith)
            requires
                w >= 1,
        ;
        assert(at % w < w) by (nonlinear_arith)
            requires
                w >= 1,
        ;
    }
    let shown: usize = if row <= last {
        row
    } else {
        last
    };
    (shown as u32, (PREFIX_WIDTH + at % w) as u32)
}

/// The title of the prompts.
pub fn title(e: &EntitlementRow) -> (r: String)
    ensures
        r@ == title_text(e@),
{
    let mut r: String = " ".to_owned();
    r.append(e.short_name.as_str());
    r.append(" ");
    r
}

/// The scope of the entitlement.
pub fn scope_line(e: &EntitlementRow) -> (r: String)
    ensures
        r@ == scope_text(e@),
{
    let mut r: String = "scope: ".to_owned();
    r.append(e.scope_type.plural());
    r.append("/");
    r.append(e.scope_id.as_str());
    if let Some(name) = text::non_empty(text::opt_str(&e.scope_display_name)) {
        r.append(" (");
        r.append(name);
        r.append(")");
    }
    r
}

/// The least and the greatest duration.
pub fn limits_line(e: &EntitlementRow) -> (r: String)
    ensures
        r@ == limits_text(e@),
{
    let mut r: String = "min ".to_owned();
    r.append(format_age(MIN_DURATION_SECS).as_str());
    if let Some(max) = e.max_request_duration_secs {
        r.append(" | max ");
        r.append(format_age(max).as_str());
    }
    r
}

/// The box of the prompts in the middle of an area: as wide as given, at most
/// sixteen rows high, and with a row of the area left above and below.
pub open spec fn modal_box(area: Area, width: u16) -> Area {
    styled::centered_in(
        area,
        width,
        styled::least(16, styled::less(area.height as int, 2)) as u16,
    )
}

/// The box of the prompts.
pub fn modal_area(area: Area, width: u16) -> (r: Area)
    requires
        area.wf(),
    ensures
        r == modal_box(area, width),
{
    let room: u16 = area.height.saturating_sub(2);
    let height: u16 = if room < 16 {
        room
    } else {
        16
    };
    centered(area, width, height)
}

/// A result on one line.
pub open spec fn result_model(r: ResultModel) -> Seq<SpanModel> {
    match r.state {
        ResultStateModel::Created(name) => seq![
            styled::span("[ok]   "@, Tone::GreenBold),
            styled::plain(r.short_name + "  ->  "@ + name),
        ],
        ResultStateModel::Failed(message) => seq![
            styled::span("[err]  "@, Tone::RedBold),
            styled::plain(r.short_name + "  "@ + message),
        ],
        ResultStateModel::Skipped => seq![
            styled::span("[skip] "@, Tone::Dim),
            styled::plain(r.short_name + "  (skipped)"@),
        ],
    }
}

/// A result in the summary: a failure takes a line of its own for the reason.
pub open spec fn summary_of(r: ResultModel) -> Seq<Seq<SpanModel>> {
    match r.state {
        ResultStateModel::Failed(message) => seq![
            seq![styled::span("[err]  "@, Tone::RedBold), styled::plain(r.short_name)],
            seq![styled::plain("       "@), styled::span(message, Tone::Red)],
        ],
        _ => seq![result_model(r)],
    }
}

/// The summary of all results.
pub open spec fn summary_model(s: Seq<ResultModel>) -> Seq<Seq<SpanModel>>
    decreases s.len(),
{
    if s.len() == 0 {
        Seq::empty()
    } else {
        summary_model(s.drop_last()) + summary_of(s.last())
    }
}

/// How many results are of a kind.
pub open spec fn count_created(s: Seq<ResultModel>) -> nat {
    s.filter(|r: ResultModel| r.state is Created).len()
}

pub open spec fn count_failed(s: Seq<ResultModel>) -> nat {
    s.filter(|r: ResultModel| r.state is Failed).len()
}

pub open spec fn count_skipped(s: Seq<ResultModel>) -> nat {
    s.filter(|r: ResultModel| r.state is Skipped).len()
}

/// The text above the summary.
pub open spec fn summary_header_text(s: Seq<ResultModel>) -> Seq<char> {
    " request summary -- "@ + numbers::decimal(count_created(s)) + " ok, "@ + numbers::decimal(
        count_failed(s),
    ) + " error, "@ + numbers::decimal(count_skipped(s)) + " skipped "@
}

fn result_line(r: &RequestResult) -> (line: Line)
    ensures
        line@ == result_model(r@),
{
    let mut content: String = r.short_name.as_str().to_owned();
    let line = match &r.state {
        ResultState::Created(name) => {
            content.append("  ->  ");
            content.append(name.as_str());
            Line::of("[ok]   ".to_owned(), Tone::GreenBold).with(content, Tone::Plain)
        },
        ResultState::Failed(message) => {
            content.append("  ");
            content.append(message.as_str());
            Line::of("[err]  ".to_owned(), Tone::RedBold).with(content, Tone::Plain)
        },
        ResultState::Skipped => {
            content.append("  (skipped)");
            Line::of("[skip] ".to_owned(), Tone::Dim).with(content, Tone::Plain)
        },
    };
    assert(line@ =~= result_model(r@));
    line
}

/// The results, one on a line.
pub fn result_lines(results: &Vec<RequestResult>) -> (r: Vec<Line>)
    ensures
        styled::line_models(r@) == result_models(results@).map_values(
            |m: ResultModel| result_model(m),
        ),
{
    let mut out: Vec<Line> = Vec::new();
    let mut i: usize = 0;
    while i < results.len()
        invariant
            i <= results.len(),
            out.len() == i,
            forall|k: int| 0 <= k < i ==> (#[trigger] out@[k])@ == result_model(results@[k]@),
        decreases results.len() - i,
    {
        out.push(result_line(&results[i]));
        i += 1;
    }
    assert(styled::line_models(out@) =~= result_models(results@).map_values(
        |m: ResultModel| result_model(m),
    ));
    out
}

/// The lines of the summary.
pub fn summary_lines(results: &Vec<RequestResult>) -> (r: Vec<Line>)
    ensures
        styled::line_models(r@) == summary_model(result_models(results@)),
{
    let ghost all = result_models(results@);
    let mut out: Vec<Line> = Vec::new();
    let mut i: usize = 0;
    assert(styled::line_models(out@) =~= summary_model(all.take(0)));
    while i < results.len()
        invariant
            i <= results.len(),
            all == result_models(results@),
            styled::line_models(out@) == summary_model(all.take(i as int)),
        decreases results.len() - i,
    {
        let r: &RequestResult = &results[i];
        let ghost before = styled::line_models(out@);
        assert(all[i as int] == r@);
        assert(all.take(i + 1).drop_last() =~= all.take(i as int));
        match &r.state {
            ResultState::Failed(message) => {
                let first = Line::of("[err]  ".to_owned(), Tone::RedBold).with(
                    r.short_name.as_str().to_owned(),
                    Tone::Plain,
                );
                let second = Line::of("       ".to_owned(), Tone::Plain).with(
                    message.as_str().to_owned(),
                    Tone::Red,
                );
                assert(first@ =~= summary_of(r@)[0]);
                assert(second@ =~= summary_of(r@)[1]);
                out.push(first);
                out.push(second);
            },
            _ => {
                out.push(result_line(r));
            },
        }
        assert(styled::line_models(out@) =~= before + summary_of(r@));
        i += 1;
    }
    assert(all.take(i as int) =~= all);
    out
}

/// The text above the summary.
pub fn summary_header(results: &Vec<RequestResult>) -> (r: String)
    ensures
        r@ == summary_header_text(result_models(results@)),
{
    let ghost all = result_models(results@);
    let ghost is_created = |r: ResultModel| r.state is Created;
    let ghost is_failed = |r: ResultModel| r.state is Failed;
    let ghost is_skipped = |r: ResultModel| r.state is Skipped;
    let mut created: usize = 0;
    let mut failed: usize = 0;
    let mut skipped: usize = 0;
    let mut i: usize = 0;
    proof {
        reveal(Seq::filter);
        assert(all.take(0) =~= Seq::empty());
    }
    while i < results.len()
        invariant
            i <= results.len(),
            all == result_models(results@),
            is_created == (|r: ResultModel| r.state is Created),
            is_failed == (|r: ResultModel| r.state is Failed),
            is_skipped == (|r: ResultModel| r.state is Skipped),
            created == all.take(i as int).filter(is_created).len(),
            failed == all.take(i as int).filter(is_failed).len(),
            skipped == all.take(i as int).filter(is_skipped).len(),
            created + failed + skipped == i,
        decreases results.len() - i,
    {
        proof {
            let r = all[i as int];
            assert(r == results@[i as int]@);
            assert(all.take(i + 1) =~= all.take(i as int).push(r));
            all.take(i as int).lemma_filter_push(r, is_created);
            all.take(i as int).lemma_filter_push(r, is_failed);
            all.take(i as int).lemma_filter_push(r, is_skipped);
        }
        match &results[i].state {
            ResultState::Created(_) => {
                created = created + 1;
            },
            ResultState::Failed(_) => {
                failed = failed + 1;
            },
            ResultState::Skipped => {
                skipped = skipped + 1;
            },
        }
        i += 1;
    }
    assert(all.take(i as int) =~= all);
    let mut r: String = " request summary -- ".to_owned();
    r.append(u64_text(created as u64).as_str());
    r.append(" ok, ");
    r.append(u64_text(failed as u64).as_str());
    r.append(" error, ");
    r.append(u64_text(skipped as u64).as_str());
    r.append(" skipped ");
    r
}

/// Wrapping loses nothing, and no piece is wider than there is room.
pub proof fn law_wrapping_keeps_text(s: Seq<char>, width: nat)
    requires
        width >= 1,
    ensures
        chunks(s, width).flatten() == s,
        forall|i: int| 0 <= i < chunks(s, width).len() ==> (#[trigger] chunks(s, width)[i]).len()
            <= width,
    decreases s.len(),
{
    let c = chunks(s, width);
    if s.len() <= width {
        c.lemma_flatten_one_element();
    } else {
        let rest = s.skip(width as int);
        law_wrapping_keeps_text(rest, width);
        assert(c.drop_first() =~= chunks(rest, width));
        assert(c.first() == s.take(width as int));
        assert(s.take(width as int) + rest =~= s);
        assert forall|i: int| 0 <= i < c.len() implies (#[trigger] c[i]).len() <= width by {
            if i > 0 {
                assert(c[i] == chunks(rest, width)[i - 1]);
            }
        }
    }
}

/// The three counts of the summary add up to the number of results.
pub proof fn law_summary_counts_all(s: Seq<ResultModel>)
    ensures
        count_created(s) + count_failed(s) + count_skipped(s) == s.len(),
    decreases s.len(),
{
    reveal(Seq::filter);
    if s.len() > 0 {
        law_summary_counts_all(s.drop_last());
    }
}

/// Enter submits exactly what was typed: the duration that the text stands for,
/// and the justification as it is where one is required.
pub proof fn law_submit_sends_what_was_typed(m: ModalModel, key: KeyEvent)
    ensures
        m.handled(key).1 matches OutcomeModel::Submit { duration_secs, justification } ==> {
            &&& grants::duration_secs(m.duration.text) == Some(duration_secs)
            &&& duration_secs >= 30 * 60
            &&& m.entitlement.justification_required ==> justification == Some(m.justification.text)
            &&& !m.entitlement.justification_required ==> justification is None
        },
{
}

/// A duration between half an hour and the entitlement's maximum is accepted:
/// Enter submits it, or goes on to the justification where one is required, and
/// then submits it with any justification that is not blank.
pub proof fn law_valid_entries_are_submitted(m: ModalModel, secs: i64)
    requires
        grants::duration_secs(m.duration.text) == Some(secs),
        secs >= 1800,
        m.entitlement.max_request_duration_secs matches Some(max) ==> max <= 0 || secs <= max,
    ensures
        ({
            let (n, out) = m.handled(KeyEvent { code: KeyCode::Enter, ctrl: false });
            &&& m.field == Field::Duration && !m.entitlement.justification_required ==> out == (
            OutcomeModel::Submit { duration_secs: secs, justification: None })
            &&& m.field == Field::Duration && m.entitlement.justification_required ==> out
                == OutcomeModel::Continue && n.field == Field::Justification && n.error is None
                && n.duration == m.duration && n.justification == m.justification
            &&& m.field == Field::Justification && m.entitlement.justification_required
                && text::trimmed(m.justification.text).len() > 0 ==> out == (OutcomeModel::Submit {
                duration_secs: secs,
                justification: Some(m.justification.text),
            })
            &&& m.field == Field::Justification && m.entitlement.justification_required
                && text::trimmed(m.justification.text).len() == 0 ==> out == OutcomeModel::Continue
                && n.error is Some
        }),
{
}

/// Any other duration is refused, with the reason: the text that is none, or the
/// limit it breaks.
pub proof fn law_refusals_give_the_reason(m: ModalModel)
    ensures
        grants::duration_secs(m.duration.text) is None ==> m.checked_duration() is Err
            && text::has_text(m.checked_duration()->Err_0, m.duration.text),
        grants::duration_secs(m.duration.text) matches Some(secs) ==> (secs < 1800
            ==> m.checked_duration() is Err && text::has_text(
            m.checked_duration()->Err_0,
            widgets::age_text(1800),
        )),
        grants::duration_secs(m.duration.text) matches Some(secs)
            ==> m.entitlement.max_request_duration_secs matches Some(max) ==> (secs >= 1800 && max
            > 0 && secs > max ==> m.checked_duration() is Err && text::has_text(
            m.checked_duration()->Err_0,
            widgets::age_text(max as int),
        )),
{
    let s = m.duration.text;
    text::law_occurrence("invalid duration '"@, s, "'; try 1h, 30m, 5400s, 3600"@);
    let least = widgets::age_text(1800);
    text::law_occurrence("below minimum "@, least, Seq::empty());
    assert("below minimum "@ + least + Seq::<char>::empty() =~= "below minimum "@ + least);
    if let Some(max) = m.entitlement.max_request_duration_secs {
        let most = widgets::age_text(max as int);
        text::law_occurrence("exceeds max "@, most, Seq::empty());
        assert("exceeds max "@ + most + Seq::<char>::empty() =~= "exceeds max "@ + most);
    }
}

/// What is typed goes into the prompt that has the focus, and Tab moves it.
pub proof fn law_typing_goes_into_the_focus(m: ModalModel, key: KeyEvent)
    requires
        !keymap::is_ctrl_c(key),
        key.code != KeyCode::Esc,
        key.code != KeyCode::Enter,
    ensures
        m.handled(key).1 == OutcomeModel::Continue,
        m.handled(key).0.entitlement == m.entitlement,
        key.code == KeyCode::Tab ==> m.handled(key).0.duration == m.duration
            && m.handled(key).0.justification == m.justification && m.handled(key).0.field
            != m.field,
        key.code != KeyCode::Tab && m.field == Field::Duration ==> m.handled(key).0.duration
            == m.duration.edited(key) && m.handled(key).0.justification == m.justification
            && m.handled(key).0.field == m.field,
        key.code != KeyCode::Tab && m.field == Field::Justification ==> m.handled(key).0.justification
            == m.justification.edited(key) && m.handled(key).0.duration == m.duration
            && m.handled(key).0.field == m.field,
{
}

/// The prompts open for their entitlement, with an hour offered, the cursor
/// behind it, and no justification yet.
pub proof fn law_prompts_open(e: EntitlementModel)
    ensures
        ModalModel::opened(e).entitlement == e,
        ModalModel::opened(e).duration.text == "1h"@,
        ModalModel::opened(e).duration.at == "1h"@.len(),
        ModalModel::opened(e).justification.text.len() == 0,
        ModalModel::opened(e).field == Field::Duration,
        ModalModel::opened(e).error is None,
{
}

/// What a key leads to is what it says.
pub proof fn law_outcomes_say_what_they_are(outcome: StepOutcome)
    ensures
        outcome is Skip <==> outcome@ is Skip,
        outcome is Abort <==> outcome@ is Abort,
        outcome is Continue <==> outcome@ is Continue,
        outcome matches StepOutcome::Submit { duration_secs: d, justification: j } ==> (
        outcome@ matches OutcomeModel::Submit { duration_secs, justification } && duration_secs == d
            && (j is Some <==> justification is Some) && (j matches Some(t) ==> justification
            == Some(t@))),
{
}

/// A grant that was created is recorded with what was asked for: the
/// entitlement and its scope, the duration, the justification and the time. It
/// has not been seen active.
pub proof fn law_created_grant_is_as_requested(
    e: EntitlementModel,
    name: Seq<char>,
    duration_secs: i64,
    justification: Option<Seq<char>>,
    now: i64,
)
    ensures
        ({
            let g = created_grant(e, name, duration_secs, justification, now);
            &&& g.name == name
            &&& g.entitlement_name == e.name
            &&& g.entitlement_short_name == e.short_name
            &&& g.scope_type == e.scope_type
            &&& g.scope_id == e.scope_id
            &&& g.scope_display_name == e.scope_display_name
            &&& g.short_id == text::pieces(name, '/').last()
            &&& StateModel::read(g.state) == StateModel::Requested
            &&& g.requested_duration_secs == duration_secs
            &&& g.justification == justification
            &&& g.created_at == now
            &&& g.activated_at is None
            &&& g.expires_at is None
            &&& g.last_polled_at is None
        }),
{
    StateModel::Requested.law_read_back();
}

/// A grant that was created is read back from the cache, and its entitlement was
/// used then.
pub proof fn law_created_is_recorded(
    c: CacheModel,
    e: EntitlementModel,
    name: Seq<char>,
    duration_secs: i64,
    justification: Option<Seq<char>>,
    now: i64,
)
    requires
        c.wf(),
    ensures
        ({
            let g = created_grant(e, name, duration_secs, justification, now);
            let d = c.with_use(e.name, now).with_grant(g);
            &&& table::get(d.grants, name) matches Some(h) && h.requested_duration_secs
                == duration_secs && h.created_at == now && h.entitlement_name == e.name
                && h.justification == justification
            &&& table::holds(c.entitlements, e.name) ==> d.last_used(e.name) == Some(now)
        }),
{
    let g = created_grant(e, name, duration_secs, justification, now);
    let u = c.with_use(e.name, now);
    let other = e.name.push('x');
    assert(other.len() != e.name.len());
    cache::laws::law_use_is_remembered(c, e.name, now, other);
    if let Some(x) = table::get(c.entitlements, e.name) {
        table::lemma_slot(c.entitlements, e.name);
        table::lemma_stored(
            c.entitlements,
            rows::StoredEntitlementModel { last_used_at: Some(now), ..x },
        );
    }
    table::lemma_stored(u.grants, cache::stored_grant(g));
}

/// A result is added behind those there are, under the name of the entitlement
/// that was asked about, and the next entitlement is asked about.
pub proof fn law_results_are_kept(f: FlowModel, state: ResultStateModel)
    requires
        f.wf(),
        f.has_current(),
    ensures
        f.with_result(state).results.drop_last() == f.results,
        f.with_result(state).results.last().state == state,
        f.with_result(state).results.last().short_name == f.selected[f.results.len() as int].short_name,
        f.with_result(state).selected == f.selected,
        f.with_result(state).has_current() ==> f.with_result(state).current()
            == f.selected[(f.results.len() + 1) as int],
{
    assert(f.with_result(state).results.drop_last() =~= f.results);
}

/// The grants that were created are those of the results that say so, in order;
/// one failure is enough for a summary.
pub proof fn law_results_are_counted(s: Seq<ResultModel>, r: ResultModel)
    ensures
        r.state matches ResultStateModel::Created(name) ==> created_names(s.push(r))
            == created_names(s).push(name),
        !(r.state is Created) ==> created_names(s.push(r)) == created_names(s),
        created_names(Seq::empty()).len() == 0,
        any_failed(s.push(r)) <==> any_failed(s) || r.state is Failed,
        !any_failed(Seq::empty()),
        count_created(s.push(r)) == count_created(s) + (if r.state is Created {
            1nat
        } else {
            0
        }),
        count_failed(s.push(r)) == count_failed(s) + (if r.state is Failed {
            1nat
        } else {
            0
        }),
        count_skipped(s.push(r)) == count_skipped(s) + (if r.state is Skipped {
            1nat
        } else {
            0
        }),
{
    assert(s.push(r).drop_last() =~= s);
    s.lemma_filter_push(r, |r: ResultModel| r.state is Created);
    s.lemma_filter_push(r, |r: ResultModel| r.state is Failed);
    s.lemma_filter_push(r, |r: ResultModel| r.state is Skipped);
    if any_failed(s) {
        let i = choose|i: int| 0 <= i < s.len() && (#[trigger] s[i]).state is Failed;
        assert(s.push(r)[i].state is Failed);
    }
    if r.state is Failed {
        assert(s.push(r)[s.len() as int].state is Failed);
    }
    if any_failed(s.push(r)) {
        let i = choose|i: int|
            0 <= i < s.push(r).len() && (#[trigger] s.push(r)[i]).state is Failed;
        if i < s.len() {
            assert(s[i].state is Failed);
        }
    }
}

/// A result says what it is of, and what it is.
pub proof fn law_results_say_what_they_are(r: RequestResult)
    ensures
        r@.short_name == r.short_name@,
        r.state matches ResultState::Created(name) ==> r@.state == ResultStateModel::Created(name@),
        r.state matches ResultState::Failed(why) ==> r@.state == ResultStateModel::Failed(why@),
        r.state is Skipped ==> r@.state is Skipped,
{
}

/// A result is shown with the entitlement's name and the grant's name or the
/// reason; the three kinds are marked apart.
pub proof fn law_results_are_shown(r: ResultModel)
    ensures
        result_model(r).len() == 2,
        text::has_text(result_model(r)[1].text, r.short_name),
        r.state matches ResultStateModel::Created(name) ==> result_model(r)[0].text == "[ok]   "@
            && text::has_text(result_model(r)[1].text, name),
        r.state matches ResultStateModel::Failed(why) ==> result_model(r)[0].text == "[err]  "@
            && text::has_text(result_model(r)[1].text, why),
        r.state is Skipped ==> result_model(r)[0].text == "[skip] "@,
        r.state matches ResultStateModel::Failed(why) ==> summary_of(r).len() == 2
            && summary_of(r)[0].last().text == r.short_name && summary_of(r)[1].last().text == why,
        !(r.state is Failed) ==> summary_of(r) == seq![result_model(r)],
{
    let none = Seq::<char>::empty();
    match r.state {
        ResultStateModel::Created(name) => {
            text::law_occurrence(none, r.short_name, "  ->  "@ + name);
            assert(none + r.short_name + ("  ->  "@ + name) =~= r.short_name + "  ->  "@ + name);
            text::law_occurrence(r.short_name + "  ->  "@, name, none);
            assert(r.short_name + "  ->  "@ + name + none =~= r.short_name + "  ->  "@ + name);
        },
        ResultStateModel::Failed(why) => {
            text::law_occurrence(none, r.short_name, "  "@ + why);
            assert(none + r.short_name + ("  "@ + why) =~= r.short_name + "  "@ + why);
            text::law_occurrence(r.short_name + "  "@, why, none);
            assert(r.short_name + "  "@ + why + none =~= r.short_name + "  "@ + why);
        },
        ResultStateModel::Skipped => {
            text::law_occurrence(none, r.short_name, "  (skipped)"@);
            assert(none + r.short_name + "  (skipped)"@ =~= r.short_name + "  (skipped)"@);
        },
    }
}

proof fn lemma_summary_counts(a: Seq<char>, b: Seq<char>, c: Seq<char>)
    ensures
        text::has_text(
            " request summary -- "@ + a + " ok, "@ + b + " error, "@ + c + " skipped "@,
            a + " ok, "@ + b + " error, "@ + c + " skipped"@,
        ),
{
    reveal_strlit(" skipped ");
    reveal_strlit(" skipped");
    reveal_strlit(" ");
    assert(" skipped "@ =~= " skipped"@ + " "@);
    let (p, x, y, z, e) = (" request summary -- "@, " ok, "@, " error, "@, " skipped"@, " "@);
    text::lemma_assoc(p, a, x);
    text::lemma_assoc(p, a + x, b);
    text::lemma_assoc(p, a + x + b, y);
    text::lemma_assoc(p, a + x + b + y, c);
    text::lemma_assoc(p, a + x + b + y + c, z);
    text::lemma_assoc(p + a + x + b + y + c, z, e);
    text::law_occurrence(p, a + x + b + y + c + z, e);
}

/// The summary shows every result, in order, below the three counts.
pub proof fn law_summary_shows_all(s: Seq<ResultModel>, r: ResultModel)
    ensures
        summary_model(Seq::empty()).len() == 0,
        summary_model(s.push(r)) == summary_model(s) + summary_of(r),
        text::has_text(
            summary_header_text(s),
            numbers::decimal(count_created(s)) + " ok, "@ + numbers::decimal(count_failed(s))
                + " error, "@ + numbers::decimal(count_skipped(s)) + " skipped"@,
        ),
{
    assert(s.push(r).drop_last() =~= s);
    lemma_summary_counts(
        numbers::decimal(count_created(s)),
        numbers::decimal(count_failed(s)),
        numbers::decimal(count_skipped(s)),
    );
}

proof fn lemma_place_is_shown(root: Seq<char>, id: Seq<char>, name: Seq<char>)
    ensures
        text::has_text("scope: "@ + root + "/"@ + id, root + "/"@ + id),
        text::has_text("scope: "@ + root + "/"@ + id + " ("@ + name + ")"@, root + "/"@ + id),
        text::has_text("scope: "@ + root + "/"@ + id + " ("@ + name + ")"@, "("@ + name + ")"@),
{
    reveal_strlit(" (");
    reveal_strlit(" ");
    reveal_strlit("(");
    assert(" ("@ =~= " "@ + "("@);
    let none = Seq::<char>::empty();
    let place = root + "/"@ + id;
    let (p, o, q, e) = ("scope: "@, "("@, " "@, ")"@);
    text::lemma_assoc(p, root, "/"@);
    text::lemma_assoc(p, root + "/"@, id);
    let base = p + place;
    text::law_occurrence(p, place, none);
    assert(base + none =~= base);
    text::lemma_assoc(base, q + o, name);
    text::lemma_assoc(base, (q + o) + name, e);
    text::law_occurrence(p, place, (q + o) + name + e);
    text::lemma_assoc(base, q, o);
    text::lemma_assoc(base + q, o, name);
    text::lemma_assoc(base + q, o + name, e);
    text::law_occurrence(base + q, o + name + e, none);
    assert((base + q) + (o + name + e) + none =~= (base + q) + (o + name + e));
}

proof fn lemma_limits_are_shown(min: Seq<char>, max: Seq<char>)
    ensures
        text::has_text("min "@ + min, "min "@ + min),
        text::has_text("min "@ + min + " | max "@ + max, "min "@ + min),
        text::has_text("min "@ + min + " | max "@ + max, "max "@ + max),
{
    reveal_strlit(" | max ");
    reveal_strlit(" | ");
    reveal_strlit("max ");
    assert(" | max "@ =~= " | "@ + "max "@);
    let none = Seq::<char>::empty();
    let (a, b, c) = ("min "@ + min, " | "@, "max "@);
    text::lemma_text_stays(none, a, a);
    assert(none + a =~= a);
    text::lemma_text_stays(a, a, b + c);
    text::lemma_text_stays(a + (b + c), a, max);
    text::lemma_assoc(a, b, c);
    text::lemma_assoc(a + b, c, max);
    text::lemma_text_stays(a + b, c + max, c + max);
}

proof fn lemma_place_in_the_list_is_shown(a: Seq<char>, b: Seq<char>)
    ensures
        text::has_text(" requesting access -- "@ + a + " of "@ + b + " "@, a + " of "@ + b),
{
    let (p, o, e) = (" requesting access -- "@, " of "@, " "@);
    text::law_occurrence(p, a + o + b, e);
    assert(p + a + o + b + e =~= p + (a + o + b) + e);
}

/// The prompts say which of how many entitlements they are for, its scope and
/// its limits.
pub proof fn law_prompts_show_the_entitlement(e: EntitlementModel, at: nat, total: nat)
    ensures
        text::has_text(
            header_text(at, total),
            numbers::decimal(at + 1) + " of "@ + numbers::decimal(total),
        ),
        text::has_text(title_text(e), e.short_name),
        text::has_text(scope_text(e), e.scope_type.plural_text() + "/"@ + e.scope_id),
        e.scope_display_name matches Some(name) ==> (name.len() > 0 ==> text::has_text(
            scope_text(e),
            "("@ + name + ")"@,
        )),
        text::has_text(limits_text(e), "min "@ + widgets::age_text(1800)),
        e.max_request_duration_secs matches Some(max) ==> text::has_text(
            limits_text(e),
            "max "@ + widgets::age_text(max as int),
        ),
{
    lemma_place_in_the_list_is_shown(numbers::decimal(at + 1), numbers::decimal(total));
    text::law_occurrence(" "@, e.short_name, " "@);
    let name = match e.scope_display_name {
        Some(name) => name,
        None => Seq::empty(),
    };
    lemma_place_is_shown(e.scope_type.plural_text(), e.scope_id, name);
    let max = match e.max_request_duration_secs {
        Some(max) => widgets::age_text(max as int),
        None => Seq::empty(),
    };
    lemma_limits_are_shown(widgets::age_text(1800), max);
}

/// A prompt shows what was typed behind its label, and an arrow where it has the
/// focus.
pub proof fn law_prompt_shows_the_text(field: Field, content: Seq<char>, focused: bool)
    ensures
        field_model(field, content, focused).len() == 3,
        field_model(field, content, focused)[2].text == content,
        field_model(field, content, focused)[0].text == (if focused {
            "> "@
        } else {
            "  "@
        }),
        field_model(field, content, focused)[1].text == (match field {
            Field::Duration => "duration"@,
            Field::Justification => "justify "@,
        }) + ": "@,
{
}

/// A wrapped prompt shows each piece of what was typed on a line of its own, the
/// first behind the label.
pub proof fn law_wrapped_prompt_shows_the_text(
    field: Field,
    content: Seq<char>,
    focused: bool,
    width: u16,
    i: int,
)
    requires
        content.len() > 0,
        0 <= i < chunks(content, text_width(width)).len(),
    ensures
        wrapped_model(field, content, focused, width).len() == chunks(
            content,
            text_width(width),
        ).len(),
        wrapped_model(field, content, focused, width)[i].last().text == chunks(
            content,
            text_width(width),
        )[i],
        wrapped_model(field, content, focused, width)[i].len() == 2,
        i > 0 ==> wrapped_model(field, content, focused, width)[i][0].text.len() == 12,
        text_width(width) >= 1,
        width > 12 ==> text_width(width) == width - 12,
{
}

/// Keys never change the entitlement that is requested, and a prompt changes only
/// while it has the focus.
pub proof fn law_keys_keep_the_rest(m: ModalModel, key: KeyEvent)
    ensures
        m.handled(key).0.entitlement == m.entitlement,
        m.field is Duration ==> m.handled(key).0.justification == m.justification,
        m.field is Justification ==> m.handled(key).0.duration == m.duration,
        key.code is Enter || key.code is Tab || key.code is Esc ==> m.handled(key).0.duration
            == m.duration && m.handled(key).0.justification == m.justification,
        !(key.code is Enter) ==> m.handled(key).0.error == m.error,
        m.handled(key).0.field != m.field ==> key.code is Enter || key.code is Tab,
{
}

} // verus!
