//! Deciding about a grant that awaits approval.
use vstd::prelude::*;
use vstd::string::*;
use crate::gcp::grants;
use crate::gcp::grants::{BindingModel, DetailsModel, GrantDetails, RoleBindingView};
use crate::text;
use crate::text::{pad_right, trim};
use crate::tui::keymap;
use crate::tui::keymap::{KeyCode, KeyEvent, ctrl_c};
use crate::tui::styled;
use crate::tui::styled::{Area, Line, SpanModel, Tone, centered};
use crate::tui::widgets;
use crate::tui::widgets::{InputModel, TextInput, format_age};

verus! {

/// How the screen was left. Tells whether the event is done with, and whether
/// the program goes on.
#[derive(Debug, Clone, Copy, PartialEq, Eq, Structural)]
pub enum ApproveOutcome {
    Approved,
    Denied,
    /// The grant was already over: there was nothing to decide.
    AlreadyHandled,
    /// Left without a decision.
    Canceled,
    /// The decision could not be sent, for any other reason.
    Failed,
    /// The program is to end.
    Quit,
}

#[derive(Debug, Clone, Copy, PartialEq, Eq, Structural)]
pub enum Decision {
    Approve,
    Deny,
}

impl Decision {
    pub open spec fn label_text(self) -> Seq<char> {
        match self {
            Decision::Approve => "approve"@,
            Decision::Deny => "deny"@,
        }
    }

    pub fn label(self) -> (r: &'static str)
        ensures
            r@ == self.label_text(),
            self is Approve ==> r@ == "approve"@,
            self is Deny ==> r@ == "deny"@,
    {
        match self {
            Decision::Approve => "approve",
            Decision::Deny => "deny",
        }
    }
}

#[derive(Debug)]
pub enum Step {
    /// The grant can be decided about.
    Confirm,
    /// A decision was made, and a reason may be given.
    Reason(Decision),
    /// It is over: the decision was sent, was not needed, or failed.
    Result(StepResult),
}

#[derive(Debug)]
pub enum StepResult {
    Done(Decision),
    AlreadyHandled,
    Failed(String),
}

pub ghost enum StepModel {
    Confirm,
    Reason(Decision),
    Done(Decision),
    AlreadyHandled,
    Failed(Seq<char>),
}

impl View for Step {
    type V = StepModel;

    open spec fn view(&self) -> StepModel {
        match self {
            Step::Confirm => StepModel::Confirm,
            Step::Reason(d) => StepModel::Reason(*d),
            Step::Result(StepResult::Done(d)) => StepModel::Done(*d),
            Step::Result(StepResult::AlreadyHandled) => StepModel::AlreadyHandled,
            Step::Result(StepResult::Failed(e)) => StepModel::Failed(e@),
        }
    }
}

/// The screen: what is asked, the reason so far, and the grant. There is no
/// grant only where it could not be fetched.
#[derive(Debug)]
pub struct Modal {
    pub reason: TextInput,
    pub step: Step,
    pub details: Option<GrantDetails>,
}

/// The screen, as characters.
pub ghost struct ModalModel {
    pub reason: InputModel,
    pub step: StepModel,
    pub details: Option<DetailsModel>,
}

impl View for Modal {
    type V = ModalModel;

    open spec fn view(&self) -> ModalModel {
        ModalModel {
            reason: self.reason@,
            step: self.step@,
            details: match self.details {
                Some(d) => Some(d@),
                None => None,
            },
        }
    }
}

/// What a key leads to.
#[derive(Debug)]
pub enum KeyOutcome {
    /// Go on.
    Stay,
    /// Leave the screen.
    Close(ApproveOutcome),
    /// Send the decision about the grant with this name, and report back.
    Submit { decision: Decision, name: String, reason: Option<String> },
}

pub ghost enum KeyOutcomeModel {
    Stay,
    Close(ApproveOutcome),
    Submit { decision: Decision, name: Seq<char>, reason: Option<Seq<char>> },
}

impl View for KeyOutcome {
    type V = KeyOutcomeModel;

    open spec fn view(&self) -> KeyOutcomeModel {
        match self {
            KeyOutcome::Stay => KeyOutcomeModel::Stay,
            KeyOutcome::Close(o) => KeyOutcomeModel::Close(*o),
            KeyOutcome::Submit { decision, name, reason } => KeyOutcomeModel::Submit {
                decision: *decision,
                name: name@,
                reason: reason.deep_view(),
            },
        }
    }
}

impl ModalModel {
    /// The screen for a grant that was fetched: one that is over needs no
    /// decision.
    pub open spec fn fetched(d: DetailsModel) -> Self {
        ModalModel {
            reason: InputModel::empty(),
            step: if d.state.terminal() {
                StepModel::AlreadyHandled
            } else {
                StepModel::Confirm
            },
            details: Some(d),
        }
    }

    /// The screen for a grant that could not be fetched.
    pub open spec fn not_fetched(message: Seq<char>) -> Self {
        ModalModel {
            reason: InputModel::empty(),
            step: StepModel::Failed("fetch failed: "@ + message),
            details: None,
        }
    }

    pub open spec fn at(self, step: StepModel) -> Self {
        ModalModel { step, ..self }
    }

    /// The reason to send: without white space around it, if any is left.
    pub open spec fn reason_given(self) -> Option<Seq<char>> {
        text::some_unless_empty(text::trimmed(self.reason.text))
    }

    /// A decision sent.
    pub open spec fn submitted(self, decision: Decision) -> (Self, KeyOutcomeModel) {
        match self.details {
            Some(d) => (
                self,
                KeyOutcomeModel::Submit { decision, name: d.name, reason: self.reason_given() },
            ),
            None => (self.at(StepModel::Failed("no grant loaded"@)), KeyOutcomeModel::Stay),
        }
    }

    /// A key where the grant can be decided about.
    pub open spec fn confirm_key(self, code: KeyCode) -> (Self, KeyOutcomeModel) {
        match code {
            KeyCode::Esc => (self, KeyOutcomeModel::Close(ApproveOutcome::Canceled)),
            KeyCode::Char(c) => if c == 'q' {
                (self, KeyOutcomeModel::Close(ApproveOutcome::Canceled))
            } else if c == 'a' || c == 'A' {
                (self.at(StepModel::Reason(Decision::Approve)), KeyOutcomeModel::Stay)
            } else if c == 'd' || c == 'D' {
                (self.at(StepModel::Reason(Decision::Deny)), KeyOutcomeModel::Stay)
            } else {
                (self, KeyOutcomeModel::Stay)
            },
            _ => (self, KeyOutcomeModel::Stay),
        }
    }

    /// A key where a reason may be given.
    pub open spec fn reason_key(self, decision: Decision, key: KeyEvent) -> (
        Self,
        KeyOutcomeModel,
    ) {
        match key.code {
            KeyCode::Esc => (
                ModalModel {
                    reason: InputModel::empty(),
                    step: StepModel::Confirm,
                    ..self
                },
                KeyOutcomeModel::Stay,
            ),
            KeyCode::Enter => self.submitted(decision),
            _ => (ModalModel { reason: self.reason.edited(key), ..self }, KeyOutcomeModel::Stay),
        }
    }

    /// How the screen is left once it is over.
    pub open spec fn outcome(self) -> ApproveOutcome {
        match self.step {
            StepModel::Done(Decision::Approve) => ApproveOutcome::Approved,
            StepModel::Done(Decision::Deny) => ApproveOutcome::Denied,
            StepModel::AlreadyHandled => ApproveOutcome::AlreadyHandled,
            _ => ApproveOutcome::Failed,
        }
    }

    /// What a key does.
    pub open spec fn handled(self, key: KeyEvent) -> (Self, KeyOutcomeModel) {
        if keymap::is_ctrl_c(key) {
            (self, KeyOutcomeModel::Close(ApproveOutcome::Quit))
        } else {
            match self.step {
                StepModel::Confirm => self.confirm_key(key.code),
                StepModel::Reason(decision) => self.reason_key(decision, key),
                _ => if dismisses(key.code) {
                    (self, KeyOutcomeModel::Close(self.outcome()))
                } else {
                    (self, KeyOutcomeModel::Stay)
                },
            }
        }
    }

    /// The screen after a decision was sent. Where that failed and the grant,
    /// fetched again, turns out to be over, someone else was faster.
    pub open spec fn settled(
        self,
        decision: Decision,
        error: Option<Seq<char>>,
        refetched: Option<DetailsModel>,
    ) -> Self {
        match error {
            None => self.at(StepModel::Done(decision)),
            Some(e) => if refetched matches Some(d) && d.state.terminal() {
                self.at(StepModel::AlreadyHandled)
            } else {
                self.at(StepModel::Failed(e))
            },
        }
    }
}

/// A key that leaves the screen once it is over.
pub open spec fn dismisses(code: KeyCode) -> bool {
    code == KeyCode::Enter || code == KeyCode::Esc || code == KeyCode::Char('q') || code
        == KeyCode::Char(' ')
}

impl Modal {
    pub open spec fn wf(&self) -> bool {
        self.reason.wf()
    }

    /// Opens the screen with what fetching the grant brought.
    pub fn open(fetched: Result<GrantDetails, String>) -> (r: Self)
        ensures
            r.wf(),
            r@ == (match fetched {
                Ok(d) => ModalModel::fetched(d@),
                Err(e) => ModalModel::not_fetched(e@),
            }),
    {
        match fetched {
            Ok(d) => {
                let step = if d.state.is_terminal() {
                    Step::Result(StepResult::AlreadyHandled)
                } else {
                    Step::Confirm
                };
                Modal { reason: TextInput::new(), step, details: Some(d) }
            },
            Err(e) => {
                let mut message: String = "fetch failed: ".to_owned();
                message.append(e.as_str());
                Modal {
                    reason: TextInput::new(),
                    step: Step::Result(StepResult::Failed(message)),
                    details: None,
                }
            },
        }
    }

    fn handle_confirm(&mut self, code: KeyCode) -> (r: KeyOutcome)
        requires
            old(self).wf(),
        ensures
            final(self).wf(),
            (final(self)@, r@) == old(self)@.confirm_key(code),
    {
        match code {
            KeyCode::Esc | KeyCode::Char('q') => KeyOutcome::Close(ApproveOutcome::Canceled),
            KeyCode::Char('a') | KeyCode::Char('A') => {
                self.step = Step::Reason(Decision::Approve);
                KeyOutcome::Stay
            },
            KeyCode::Char('d') | KeyCode::Char('D') => {
                self.step = Step::Reason(Decision::Deny);
                KeyOutcome::Stay
            },
            _ => KeyOutcome::Stay,
        }
    }

    fn submit_decision(&mut self, decision: Decision) -> (r: KeyOutcome)
        requires
            old(self).wf(),
        ensures
            final(self).wf(),
            (final(self)@, r@) == old(self)@.submitted(decision),
    {
        let name: String = match &self.details {
            Some(d) => d.name.as_str().to_owned(),
            None => {
                self.step = Step::Result(StepResult::Failed("no grant loaded".to_owned()));
                return KeyOutcome::Stay;
            },
        };
        let reason: Option<String> = text::unless_empty(trim(self.reason.as_str()).to_owned());
        KeyOutcome::Submit { decision, name, reason }
    }

    fn handle_reason(&mut self, decision: Decision, key: KeyEvent) -> (r: KeyOutcome)
        requires
            old(self).wf(),
        ensures
            final(self).wf(),
            (final(self)@, r@) == old(self)@.reason_key(decision, key),
    {
        match key.code {
            KeyCode::Esc => {
                self.reason.clear();
                self.step = Step::Confirm;
                KeyOutcome::Stay
            },
            KeyCode::Enter => self.submit_decision(decision),
            _ => {
                self.reason.handle_key(key);
                KeyOutcome::Stay
            },
        }
    }

    /// Takes in a key.
    pub fn handle_key(&mut self, key: KeyEvent) -> (r: KeyOutcome)
        requires
            old(self).wf(),
        ensures
            final(self).wf(),
            (final(self)@, r@) == old(self)@.handled(key),
    {
        if ctrl_c(key) {
            return KeyOutcome::Close(ApproveOutcome::Quit);
        }
        let outcome: ApproveOutcome = match &self.step {
            Step::Confirm => {
                return self.handle_confirm(key.code);
            },
            Step::Reason(decision) => {
                let decision = *decision;
                return self.handle_reason(decision, key);
            },
            Step::Result(StepResult::Done(Decision::Approve)) => ApproveOutcome::Approved,
            Step::Result(StepResult::Done(Decision::Deny)) => ApproveOutcome::Denied,
            Step::Result(StepResult::AlreadyHandled) => ApproveOutcome::AlreadyHandled,
            Step::Result(StepResult::Failed(_)) => ApproveOutcome::Failed,
        };
        match key.code {
            KeyCode::Enter | KeyCode::Esc | KeyCode::Char('q') | KeyCode::Char(' ') => {
                KeyOutcome::Close(outcome)
            },
            _ => KeyOutcome::Stay,
        }
    }

    /// Takes in what became of a decision that was sent: the error, where
    /// there was one, and the grant as it was fetched again after it, where
    /// that succeeded.
    pub fn settle(
        &mut self,
        decision: Decision,
        error: Option<String>,
        refetched: Option<GrantDetails>,
    )
        requires
            old(self).wf(),
        ensures
            final(self).wf(),
            final(self)@ == old(self)@.settled(
                decision,
                error.deep_view(),
                match refetched {
                    Some(d) => Some(d@),
                    None => None,
                },
            ),
    {
        let over: bool = match &refetched {
            Some(d) => d.state.is_terminal(),
            None => false,
        };
        self.step = match error {
            None => Step::Result(StepResult::Done(decision)),
            Some(e) => if over {
                Step::Result(StepResult::AlreadyHandled)
            } else {
                Step::Result(StepResult::Failed(e))
            },
        };
    }
}

// ---------------------------------------------------------------------------
// Laws
// ---------------------------------------------------------------------------

/// A grant that is over is never decided about: no key sends a decision.
pub proof fn law_over_is_not_decided(d: DetailsModel, key: KeyEvent)
    requires
        d.state.terminal(),
    ensures
        !(ModalModel::fetched(d).handled(key).1 is Submit),
        ModalModel::fetched(d).handled(key).0 == ModalModel::fetched(d),
{
}

/// A decision is only sent from the reason step, by Enter, with the name of
/// the grant on the screen, and a reason is never blank.
pub proof fn law_decision_is_confirmed(m: ModalModel, key: KeyEvent)
    ensures
        m.handled(key).1 matches KeyOutcomeModel::Submit { decision, name, reason } ==> {
            &&& m.step == StepModel::Reason(decision)
            &&& key.code == KeyCode::Enter
            &&& m.details matches Some(d) && d.name == name
            &&& reason matches Some(r) ==> r.len() > 0 && r == text::trimmed(m.reason.text)
        },
{
}

/// Going back from the reason forgets it.
pub proof fn law_back_forgets_reason(m: ModalModel, decision: Decision)
    requires
        m.step == StepModel::Reason(decision),
    ensures
        ({
            let (n, out) = m.handled(KeyEvent { code: KeyCode::Esc, ctrl: false });
            &&& out == KeyOutcomeModel::Stay
            &&& n.step == StepModel::Confirm
            &&& n.reason == InputModel::empty()
            &&& n.details == m.details
        }),
{
}

/// The screen is left with what became of the decision: a failure counts as
/// handled by someone else exactly where the grant was fetched again and is
/// over.
pub proof fn law_outcome_tells_the_decision(
    m: ModalModel,
    decision: Decision,
    error: Option<Seq<char>>,
    refetched: Option<DetailsModel>,
)
    ensures
        ({
            let (_, out) = m.settled(decision, error, refetched).handled(
                KeyEvent { code: KeyCode::Enter, ctrl: false },
            );
            out == KeyOutcomeModel::Close(
                if error is None {
                    if decision == Decision::Approve {
                        ApproveOutcome::Approved
                    } else {
                        ApproveOutcome::Denied
                    }
                } else if refetched matches Some(d) && d.state.terminal() {
                    ApproveOutcome::AlreadyHandled
                } else {
                    ApproveOutcome::Failed
                },
            )
        }),
{
}

// ---------------------------------------------------------------------------
// What is shown
// ---------------------------------------------------------------------------

/// The text above the screen.
pub const HEADER: &'static str = " approve grant ";

/// The keys to decide with.
pub const CHOICES: &'static str = "[a] approve   [d] deny   [esc] cancel";

/// A named field.
pub open spec fn field_model(label: Seq<char>, value: Seq<char>) -> Seq<SpanModel> {
    seq![
        styled::span("  "@ + text::padded_right(label, 11), Tone::Dim),
        styled::plain(value),
    ]
}

/// A role, with its condition where it has one.
pub open spec fn role_text(b: BindingModel) -> Seq<char> {
    match b.condition {
        Some(c) => "    - "@ + b.role + "  ("@ + c + ")"@,
        None => "    - "@ + b.role,
    }
}

/// The roles that the grant gives.
pub open spec fn roles_model(s: Seq<BindingModel>) -> Seq<Seq<SpanModel>> {
    if s.len() == 0 {
        seq![field_model("roles"@, "(none listed)"@)]
    } else {
        seq![seq![styled::span("  roles:      "@, Tone::Dim)]] + Seq::new(
            s.len(),
            |i: int| seq![styled::plain(role_text(s[i]))],
        )
    }
}

/// What is known of the grant.
pub open spec fn facts_model(d: DetailsModel) -> Seq<Seq<SpanModel>> {
    seq![
        field_model("requester"@, d.requester),
        field_model("scope"@, d.scope_type.plural_text() + "/"@ + d.scope_id),
        field_model("entitlement"@, d.entitlement_short_name),
        field_model("duration"@, widgets::age_text(d.requested_duration_secs)),
        field_model("state"@, d.state.shown()),
    ] + roles_model(d.role_bindings) + seq![
        seq![styled::span("  justify:    "@, Tone::Dim)],
        seq![
            styled::plain(
                "    "@ + match d.justification {
                    Some(j) => j,
                    None => "(none)"@,
                },
            ),
        ],
        Seq::<SpanModel>::empty(),
    ]
}

/// The text before the reason.
pub open spec fn reason_prefix(decision: Decision) -> Seq<char> {
    "> reason ("@ + decision.label_text() + "): "@
}

/// What is asked: for the decision, or for the reason of one.
pub open spec fn question_model(decision: Option<Decision>, reason: Seq<char>) -> Seq<
    Seq<SpanModel>,
> {
    match decision {
        None => seq![seq![styled::span(CHOICES@, Tone::YellowBold)]],
        Some(d) => seq![
            seq![
                styled::span(reason_prefix(d), Tone::YellowBold),
                styled::plain(reason),
            ],
            seq![styled::span("enter to confirm  |  esc to go back"@, Tone::Dim)],
        ],
    }
}

/// A named field.
fn field_line(label: &str, value: String) -> (r: Line)
    ensures
        r@ == field_model(label@, value@),
{
    let ghost v = value@;
    let mut name: String = "  ".to_owned();
    name.append(pad_right(label, 11).as_str());
    let r = Line::of(name, Tone::Dim).with(value, Tone::Plain);
    assert(r@ =~= field_model(label@, v));
    r
}

/// Adds a line to a list of lines.
fn add_line(lines: &mut Vec<Line>, line: Line)
    ensures
        styled::line_models(final(lines)@) == styled::line_models(old(lines)@).push(line@),
{
    let ghost before = styled::line_models(lines@);
    let ghost m = line@;
    lines.push(line);
    assert(styled::line_models(lines@) =~= before.push(m));
}

/// Adds the roles that the grant gives to a list of lines.
fn add_roles(lines: &mut Vec<Line>, bindings: &Vec<RoleBindingView>)
    ensures
        styled::line_models(final(lines)@) == styled::line_models(old(lines)@) + roles_model(
            grants::binding_models(bindings@),
        ),
{
    let ghost before = styled::line_models(lines@);
    let ghost all = grants::binding_models(bindings@);
    if bindings.len() == 0 {
        add_line(lines, field_line("roles", "(none listed)".to_owned()));
        assert(styled::line_models(lines@) =~= before + roles_model(all));
        return;
    }
    add_line(lines, Line::of("  roles:      ".to_owned(), Tone::Dim));
    let mut i: usize = 0;
    assert(styled::line_models(lines@) =~= before + roles_model(all).take(1));
    while i < bindings.len()
        invariant
            0 < bindings.len(),
            i <= bindings.len(),
            all == grants::binding_models(bindings@),
            styled::line_models(lines@) == before + roles_model(all).take(i + 1),
        decreases bindings.len() - i,
    {
        let b: &RoleBindingView = &bindings[i];
        assert(all[i as int] == b@);
        let mut content: String = "    - ".to_owned();
        content.append(b.role.as_str());
        if let Some(c) = &b.condition {
            content.append("  (");
            content.append(c.as_str());
            content.append(")");
        }
        assert(content@ =~= role_text(b@));
        add_line(lines, Line::of(content, Tone::Plain));
        assert(roles_model(all)[i + 1] == seq![styled::plain(role_text(b@))]);
        assert(roles_model(all).take(i + 2) =~= roles_model(all).take(i + 1).push(
            roles_model(all)[i + 1],
        ));
        assert(before + roles_model(all).take(i + 2) =~= (before + roles_model(all).take(
            i + 1,
        )).push(roles_model(all)[i + 1]));
        i += 1;
    }
    assert(roles_model(all).take(i + 1) =~= roles_model(all));
}

/// What is known of the grant, and what is asked about it.
pub fn confirm_lines(d: &GrantDetails, decision: Option<Decision>, reason: &TextInput) -> (r: Vec<
    Line,
>)
    ensures
        styled::line_models(r@) == facts_model(d@) + question_model(decision, reason@.text),
{
    let mut lines: Vec<Line> = Vec::new();
    assert(styled::line_models(lines@) =~= Seq::empty());
    add_line(&mut lines, field_line("requester", d.requester.as_str().to_owned()));
    let mut place: String = d.scope_type.plural().to_owned();
    place.append("/");
    place.append(d.scope_id.as_str());
    add_line(&mut lines, field_line("scope", place));
    add_line(
        &mut lines,
        field_line("entitlement", d.entitlement_short_name.as_str().to_owned()),
    );
    add_line(&mut lines, field_line("duration", format_age(d.requested_duration_secs)));
    add_line(&mut lines, field_line("state", d.state.to_string()));
    let ghost head = styled::line_models(lines@);
    add_roles(&mut lines, &d.role_bindings);
    add_line(&mut lines, Line::of("  justify:    ".to_owned(), Tone::Dim));
    let mut why: String = "    ".to_owned();
    match &d.justification {
        Some(j) => why.append(j.as_str()),
        None => why.append("(none)"),
    }
    add_line(&mut lines, Line::of(why, Tone::Plain));
    add_line(&mut lines, Line::new());
    proof {
        let facts = facts_model(d@);
        assert(head =~= facts.take(5));
        assert(styled::line_models(lines@) =~= facts);
    }
    match decision {
        None => {
            add_line(&mut lines, Line::of(CHOICES.to_owned(), Tone::YellowBold));
        },
        Some(dec) => {
            let mut prefix: String = "> reason (".to_owned();
            prefix.append(dec.label());
            prefix.append("): ");
            let line = Line::of(prefix, Tone::YellowBold).with(
                reason.as_str().to_owned(),
                Tone::Plain,
            );
            assert(line@ =~= question_model(decision, reason@.text)[0]);
            add_line(&mut lines, line);
            add_line(
                &mut lines,
                Line::of("enter to confirm  |  esc to go back".to_owned(), Tone::Dim),
            );
        },
    }
    assert(styled::line_models(lines@) =~= facts_model(d@) + question_model(
        decision,
        reason@.text,
    ));
    lines
}

/// The column and the row of the cursor while a reason is given, with a number
/// of lines shown.
pub fn reason_cursor(decision: Decision, reason: &TextInput, lines: usize) -> (r: (u32, u16))
    requires
        reason.wf(),
    ensures
        r.0 == reason_prefix(decision).len() + reason@.at % 0x1_0000,
        r.1 == styled::less((lines % 0x1_0000) as int, 2),
{
    let column: u32 = match decision {
        Decision::Approve => 20,
        Decision::Deny => 17,
    };
    proof {
        reveal_strlit("> reason (");
        reveal_strlit("approve");
        reveal_strlit("deny");
        reveal_strlit("): ");
        assert((lines as u16) as usize == lines % 0x1_0000) by (bit_vector);
    }
    (column + reason.display_cursor() as u32, (lines as u16).saturating_sub(2))
}

/// What became of the decision.
pub open spec fn result_model(step: StepModel, entitlement: Seq<char>) -> Seq<Seq<SpanModel>> {
    (match step {
        StepModel::Done(d) => seq![
            seq![
                styled::span("["@ + d.label_text() + "]  "@, Tone::GreenBold),
                styled::plain("grant "@ + entitlement + " "@ + d.label_text() + "d."@),
            ],
        ],
        StepModel::AlreadyHandled => seq![
            seq![styled::span("[already handled]  "@, Tone::CyanBold)],
            seq![
                styled::plain(
                    "grant "@ + entitlement
                        + " was already approved or denied by someone else."@,
                ),
            ],
        ],
        StepModel::Failed(e) => seq![
            seq![styled::span("[err]  "@, Tone::RedBold)],
            seq![styled::span(e, Tone::Red)],
        ],
        _ => Seq::<Seq<SpanModel>>::empty(),
    }) + seq![
        Seq::<SpanModel>::empty(),
        seq![styled::span("press enter / esc / q to dismiss"@, Tone::Dim)],
    ]
}

/// The name of the entitlement, where there is a grant.
pub open spec fn entitlement_of(details: Option<DetailsModel>) -> Seq<char> {
    match details {
        Some(d) => d.entitlement_short_name,
        None => Seq::empty(),
    }
}

/// What became of the decision.
pub fn result_lines(modal: &Modal) -> (r: Vec<Line>)
    ensures
        styled::line_models(r@) == result_model(modal@.step, entitlement_of(modal@.details)),
{
    let entitlement: &str = match &modal.details {
        Some(d) => d.entitlement_short_name.as_str(),
        None => {
            proof {
                reveal_strlit("");
                assert(""@ =~= Seq::<char>::empty());
            }
            ""
        },
    };
    let mut lines: Vec<Line> = Vec::new();
    assert(styled::line_models(lines@) =~= Seq::empty());
    match &modal.step {
        Step::Result(StepResult::Done(d)) => {
            let mut mark: String = "[".to_owned();
            mark.append(d.label());
            mark.append("]  ");
            let mut content: String = "grant ".to_owned();
            content.append(entitlement);
            content.append(" ");
            content.append(d.label());
            content.append("d.");
            let line = Line::of(mark, Tone::GreenBold).with(content, Tone::Plain);
            assert(line@ =~= result_model(modal@.step, entitlement@)[0]);
            add_line(&mut lines, line);
        },
        Step::Result(StepResult::AlreadyHandled) => {
            add_line(&mut lines, Line::of("[already handled]  ".to_owned(), Tone::CyanBold));
            let mut content: String = "grant ".to_owned();
            content.append(entitlement);
            content.append(" was already approved or denied by someone else.");
            add_line(&mut lines, Line::of(content, Tone::Plain));
        },
        Step::Result(StepResult::Failed(e)) => {
            add_line(&mut lines, Line::of("[err]  ".to_owned(), Tone::RedBold));
            add_line(&mut lines, Line::of(e.as_str().to_owned(), Tone::Red));
        },
        _ => {},
    }
    add_line(&mut lines, Line::new());
    add_line(&mut lines, Line::of("press enter / esc / q to dismiss".to_owned(), Tone::Dim));
    assert(styled::line_models(lines@) =~= result_model(modal@.step, entitlement@));
    lines
}

/// The title of the box.
pub open spec fn title_text(details: Option<DetailsModel>) -> Seq<char> {
    match details {
        Some(d) => " grant: "@ + d.entitlement_short_name + " "@,
        None => " result "@,
    }
}

/// The title of the box.
pub fn title(modal: &Modal) -> (r: String)
    ensures
        r@ == title_text(modal@.details),
{
    match &modal.details {
        Some(d) => {
            let mut r: String = " grant: ".to_owned();
            r.append(d.entitlement_short_name.as_str());
            r.append(" ");
            r
        },
        None => " result ".to_owned(),
    }
}

/// The text below the screen.
pub open spec fn footer_text(step: StepModel) -> Seq<char> {
    match step {
        StepModel::Confirm => "a approve | d deny | esc cancel | ctrl-c quit"@,
        StepModel::Reason(_) => "enter confirm | esc back | ctrl-c quit"@,
        _ => "enter / esc / q dismiss | ctrl-c quit"@,
    }
}

/// The text below the screen.
pub fn footer(modal: &Modal) -> (r: &'static str)
    ensures
        r@ == footer_text(modal@.step),
{
    match &modal.step {
        Step::Confirm => "a approve | d deny | esc cancel | ctrl-c quit",
        Step::Reason(_) => "enter confirm | esc back | ctrl-c quit",
        Step::Result(_) => "enter / esc / q dismiss | ctrl-c quit",
    }
}

/// The box in the middle of an area: as wide as given, at most twenty rows
/// high, and with a row of the area left above and below.
pub open spec fn modal_box(area: Area, width: u16) -> Area {
    styled::centered_in(
        area,
        width,
        styled::least(20, styled::less(area.height as int, 2)) as u16,
    )
}

/// The box in the middle of an area.
pub fn modal_area(area: Area, width: u16) -> (r: Area)
    requires
        area.wf(),
    ensures
        r == modal_box(area, width),
{
    let room: u16 = area.height.saturating_sub(2);
    let height: u16 = if room < 20 {
        room
    } else {
        20
    };
    centered(area, width, height)
}

/// The screen opens for the grant that was fetched, with no reason yet: to
/// decide about it, or to say that it is over.
pub proof fn law_screen_opens_for_the_grant(d: DetailsModel, message: Seq<char>)
    ensures
        ModalModel::fetched(d).details == Some(d),
        ModalModel::fetched(d).reason.text.len() == 0,
        ModalModel::fetched(d).step == StepModel::Confirm <==> !d.state.terminal(),
        ModalModel::fetched(d).step == StepModel::AlreadyHandled <==> d.state.terminal(),
        ModalModel::not_fetched(message).details is None,
        ModalModel::not_fetched(message).step matches StepModel::Failed(e) && text::has_text(
            e,
            message,
        ),
{
    text::law_occurrence("fetch failed: "@, message, Seq::empty());
    assert("fetch failed: "@ + message + Seq::<char>::empty() =~= "fetch failed: "@ + message);
}

/// `a` leads to approving and `d` to denying, in either case; Escape and `q`
/// leave without a decision, and no other key does anything.
pub proof fn law_keys_to_decide(m: ModalModel, c: char)
    requires
        m.step == StepModel::Confirm,
    ensures
        ({
            let (n, out) = m.handled(KeyEvent { code: KeyCode::Char(c), ctrl: false });
            &&& c == 'a' || c == 'A' ==> n == m.at(StepModel::Reason(Decision::Approve)) && out
                == KeyOutcomeModel::Stay
            &&& c == 'd' || c == 'D' ==> n == m.at(StepModel::Reason(Decision::Deny)) && out
                == KeyOutcomeModel::Stay
            &&& c == 'q' ==> n == m && out == KeyOutcomeModel::Close(ApproveOutcome::Canceled)
            &&& c != 'a' && c != 'A' && c != 'd' && c != 'D' && c != 'q' ==> n == m && out
                == KeyOutcomeModel::Stay
        }),
        m.handled(KeyEvent { code: KeyCode::Esc, ctrl: false }) == (
            m,
            KeyOutcomeModel::Close(ApproveOutcome::Canceled),
        ),
        m.handled(KeyEvent { code: KeyCode::Enter, ctrl: false }) == (m, KeyOutcomeModel::Stay),
{
}

/// Enter in the reason step sends the decision that was made, for the grant on
/// the screen, with the reason as it was typed but for white space around it.
pub proof fn law_decision_is_sent_as_made(m: ModalModel, decision: Decision, d: DetailsModel)
    requires
        m.step == StepModel::Reason(decision),
        m.details == Some(d),
    ensures
        ({
            let (n, out) = m.handled(KeyEvent { code: KeyCode::Enter, ctrl: false });
            &&& n == m
            &&& out matches KeyOutcomeModel::Submit { decision: sent, name, reason } && sent
                == decision && name == d.name && (text::trimmed(m.reason.text).len() > 0 ==> reason
                == Some(text::trimmed(m.reason.text))) && (text::trimmed(m.reason.text).len() == 0
                ==> reason is None)
        }),
{
}

/// While a reason is given, other keys edit it and nothing else.
pub proof fn law_reason_is_typed(m: ModalModel, decision: Decision, key: KeyEvent)
    requires
        m.step == StepModel::Reason(decision),
        !keymap::is_ctrl_c(key),
        key.code != KeyCode::Enter,
        key.code != KeyCode::Esc,
    ensures
        m.handled(key).1 == KeyOutcomeModel::Stay,
        m.handled(key).0.reason == m.reason.edited(key),
        m.handled(key).0.step == m.step,
        m.handled(key).0.details == m.details,
{
}

/// A decision that was sent is done; a failure says why, unless someone else was
/// faster. The grant and the reason stay.
pub proof fn law_settling(
    m: ModalModel,
    decision: Decision,
    error: Seq<char>,
    refetched: Option<DetailsModel>,
)
    ensures
        m.settled(decision, None, refetched).step == StepModel::Done(decision),
        refetched is None ==> m.settled(decision, Some(error), refetched).step
            == StepModel::Failed(error),
        refetched matches Some(d) ==> m.settled(decision, Some(error), refetched).step == (
        if d.state.terminal() {
            StepModel::AlreadyHandled
        } else {
            StepModel::Failed(error)
        }),
        m.settled(decision, Some(error), refetched).details == m.details,
        m.settled(decision, None, refetched).details == m.details,
{
}

/// Once it is over, Enter, Escape, `q` and space leave the screen, and no other
/// key does.
pub proof fn law_keys_to_dismiss(code: KeyCode)
    ensures
        dismisses(code) <==> code == KeyCode::Enter || code == KeyCode::Esc || code
            == KeyCode::Char('q') || code == KeyCode::Char(' '),
{
}

/// What a key leads to, and where the screen stands, is what it says.
pub proof fn law_steps_say_what_they_are(step: Step, outcome: KeyOutcome)
    ensures
        step is Confirm <==> step@ is Confirm,
        step matches Step::Reason(d) ==> step@ == StepModel::Reason(d),
        step matches Step::Result(StepResult::Done(d)) ==> step@ == StepModel::Done(d),
        step matches Step::Result(StepResult::AlreadyHandled) ==> step@ == StepModel::AlreadyHandled,
        step matches Step::Result(StepResult::Failed(e)) ==> step@ == StepModel::Failed(e@),
        outcome is Stay <==> outcome@ is Stay,
        outcome matches KeyOutcome::Close(o) ==> outcome@ == KeyOutcomeModel::Close(o),
        outcome matches KeyOutcome::Submit { decision: d, name: n, reason: r } ==> (
        outcome@ matches KeyOutcomeModel::Submit { decision, name, reason } && decision == d && name
            == n@ && (r is Some <==> reason is Some) && (r matches Some(t) ==> reason == Some(t@))),
{
}

/// The approver is shown who asks, for which entitlement in which scope, for how
/// long, in which state, with which roles, and why.
pub proof fn law_facts_are_shown(d: DetailsModel, i: int)
    requires
        0 <= i < d.role_bindings.len(),
    ensures
        ({
            let f = facts_model(d);
            let n = d.role_bindings.len() as int;
            &&& f.len() == n + 9
            &&& f[0].last().text == d.requester
            &&& f[1].last().text == d.scope_type.plural_text() + "/"@ + d.scope_id
            &&& f[2].last().text == d.entitlement_short_name
            &&& f[3].last().text == widgets::age_text(d.requested_duration_secs)
            &&& f[4].last().text == d.state.shown()
            &&& text::has_text(f[6 + i].last().text, d.role_bindings[i].role)
            &&& d.role_bindings[i].condition matches Some(c) ==> text::has_text(
                f[6 + i].last().text,
                c,
            )
            &&& d.justification matches Some(j) ==> f[n + 7].last().text == "    "@ + j
            &&& d.justification is None ==> f[n + 7].last().text == "    "@ + "(none)"@
        }),
{
    let b = d.role_bindings[i];
    let none = Seq::<char>::empty();
    let f = facts_model(d);
    assert(f[6 + i] == roles_model(d.role_bindings)[1 + i]);
    match b.condition {
        Some(c) => {
            let s = "    - "@ + b.role + "  ("@ + c + ")"@;
            text::law_occurrence("    - "@, b.role, "  ("@ + c + ")"@);
            assert(s =~= "    - "@ + b.role + ("  ("@ + c + ")"@));
            text::law_occurrence("    - "@ + b.role + "  ("@, c, ")"@);
        },
        None => {
            text::law_occurrence("    - "@, b.role, none);
            assert("    - "@ + b.role + none =~= "    - "@ + b.role);
        },
    }
}

/// What became of a decision names the entitlement and the decision, or the
/// error.
pub proof fn law_outcome_is_shown(d: Decision, error: Seq<char>, entitlement: Seq<char>)
    ensures
        ({
            let done = result_model(StepModel::Done(d), entitlement);
            &&& done[0][1].text == "grant "@ + entitlement + " "@ + d.label_text() + "d."@
            &&& done[0][0].text == "["@ + d.label_text() + "]  "@
        }),
        result_model(StepModel::Failed(error), entitlement)[1].last().text == error,
        result_model(StepModel::AlreadyHandled, entitlement)[1].last().text == "grant "@
            + entitlement + " was already approved or denied by someone else."@,
        Decision::Approve.label_text() == "approve"@,
        Decision::Deny.label_text() == "deny"@,
{
}

/// Keys never change the grant that is decided on, and the reason changes only
/// where it is asked for.
pub proof fn law_keys_keep_the_grant(m: ModalModel, key: KeyEvent)
    ensures
        m.handled(key).0.details == m.details,
        !(m.step is Reason) ==> m.handled(key).0.reason == m.reason,
        keymap::is_ctrl_c(key) ==> m.handled(key).0 == m,
        m.handled(key).1 is Close ==> m.handled(key).0 == m,
        m.handled(key).1 is Submit ==> m.handled(key).0 == m,
{
}

/// What the service answers leaves the grant and the reason as they were.
pub proof fn law_settling_keeps_the_grant(
    m: ModalModel,
    decision: Decision,
    error: Option<Seq<char>>,
    refetched: Option<DetailsModel>,
)
    ensures
        m.settled(decision, error, refetched).details == m.details,
        m.settled(decision, error, refetched).reason == m.reason,
{
}

} // verus!
