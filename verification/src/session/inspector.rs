//! The inspector of a session: its tabs and its controls.

use vstd::prelude::*;

use crate::controls::{fits, refusal, shown};
use crate::controls::{ControlKind, ControlScope, ControlSpec, ControlState, ControlStateError};
use crate::controls::{ControlValue, FrontendMode};
use crate::faces::{texts, Faces, Target};
use crate::number::{Double, NumberText, Single, HUNDREDTH, ONE};
use crate::search::{has_part, lower_case_of, stripped, wanted};
use crate::search::{is_found, query_of, strip};
use crate::session::media::switched_on;
use crate::session::state::{Said, Session};
use crate::session::state::{EditorView, ExtraGuiPanel, ExtraGuiState, InspectorDock, Notice};
use crate::text::{join2, same_text};

verus! {

/// A tab of the inspector.
#[derive(Debug, Clone, Copy, PartialEq, Eq)]
pub enum InspectorTab {
    Faces,
    Swapper,
    Common,
    Settings,
}

/// The panel that the inspector shows: that of the faces where none of its own is active.
pub open spec fn inspected(panel: ExtraGuiPanel) -> ExtraGuiPanel {
    match panel {
        ExtraGuiPanel::Faces | ExtraGuiPanel::Parameters | ExtraGuiPanel::Settings => panel,
        _ => ExtraGuiPanel::Faces,
    }
}

/// The two other places for the inspector, in the order of their buttons.
pub open spec fn other_docks(dock: InspectorDock) -> (InspectorDock, InspectorDock) {
    match dock {
        InspectorDock::Left => (InspectorDock::Right, InspectorDock::Floating),
        InspectorDock::Right => (InspectorDock::Left, InspectorDock::Floating),
        InspectorDock::Floating => (InspectorDock::Right, InspectorDock::Left),
    }
}

/// The two other places for the inspector, in the order of their buttons.
pub fn dock_choices(dock: InspectorDock) -> (r: (InspectorDock, InspectorDock))
    ensures
        r == other_docks(dock),
{
    match dock {
        InspectorDock::Left => (InspectorDock::Right, InspectorDock::Floating),
        InspectorDock::Right => (InspectorDock::Left, InspectorDock::Floating),
        InspectorDock::Floating => (InspectorDock::Right, InspectorDock::Left),
    }
}

/// The inspector can be moved to any other place, and only there.
pub proof fn every_other_dock_is_offered(dock: InspectorDock, other: InspectorDock)
    ensures
        dock != other <==> (other == other_docks(dock).0 || other == other_docks(dock).1),
{
}

/// The view with a tab of the inspector selected.
pub open spec fn tab_selected(view: EditorView, tab: InspectorTab) -> EditorView {
    match tab {
        InspectorTab::Faces => EditorView { active_panel: ExtraGuiPanel::Faces, ..view },
        InspectorTab::Swapper => EditorView {
            active_panel: ExtraGuiPanel::Parameters,
            inspector_scope: ControlScope::Swapper,
            ..view
        },
        InspectorTab::Common => EditorView {
            active_panel: ExtraGuiPanel::Parameters,
            inspector_scope: ControlScope::Common,
            ..view
        },
        InspectorTab::Settings => EditorView { active_panel: ExtraGuiPanel::Settings, ..view },
    }
}

/// A face is selected whose control values are edited.
pub open spec fn edits_face(s: Session, scope: ControlScope) -> bool {
    scope != ControlScope::Settings && s.faces.selected is Some && s.faces.targets.dom().contains(
        s.faces.selected->0,
    )
}

/// The control values that are edited: those of the selected face, or those of the session.
pub open spec fn scoped_values(s: Session, scope: ControlScope) -> Map<Seq<char>, ControlValue> {
    if edits_face(s, scope) {
        s.faces.targets[s.faces.selected->0].controls
    } else {
        s.controls
    }
}

/// A control is found by what was typed.
pub open spec fn found_control(control: ControlSpec, query: Seq<char>) -> bool {
    stripped(query).len() == 0 || has_part(lower_case_of(control.label@), wanted(query))
        || has_part(lower_case_of(control.section@), wanted(query)) || has_part(
        lower_case_of(control.id@),
        wanted(query),
    )
}

/// A control is listed in a tab of the inspector.
pub open spec fn control_listed(s: Session, scope: ControlScope, control: ControlSpec) -> bool {
    &&& control.scope == scope
    &&& shown(scoped_values(s, scope), control.visibility, FrontendMode::Editor)
    &&& found_control(control, s.filters.parameters@)
}

/// The places of the controls that are listed, among the first `n` of the catalog.
pub open spec fn listed_places(s: Session, scope: ControlScope, n: nat) -> Seq<int>
    decreases n,
{
    if n == 0 {
        Seq::empty()
    } else if control_listed(s, scope, s.catalog[n - 1]) {
        listed_places(s, scope, (n - 1) as nat).push(n - 1)
    } else {
        listed_places(s, scope, (n - 1) as nat)
    }
}

/// Where the group that begins at `from` ends: before the first control of another section.
pub open spec fn group_end(sections: Seq<Seq<char>>, from: int, to: int) -> bool {
    &&& 0 <= from < to <= sections.len()
    &&& forall|i: int| from <= i < to ==> #[trigger] sections[i] == sections[from]
    &&& to < sections.len() ==> sections[to] != sections[from]
}

/// `groups` are the groups of controls that stand together, in order.
pub open spec fn grouped(sections: Seq<Seq<char>>, groups: Seq<(usize, usize)>) -> bool {
    &&& forall|g: int|
        0 <= g < groups.len() ==> group_end(
            sections,
            (#[trigger] groups[g]).0 as int,
            groups[g].1 as int,
        )
    &&& forall|g: int, h: int|
        0 <= g && h == g + 1 && h < groups.len() ==> (#[trigger] groups[g]).1 == (
        #[trigger] groups[h]).0
    &&& if sections.len() == 0 {
        groups.len() == 0
    } else {
        groups.len() > 0 && groups[0].0 == 0 && groups.last().1 == sections.len()
    }
}

/// The groups of controls of one section that stand together.
pub fn section_groups(sections: &Vec<String>) -> (r: Vec<(usize, usize)>)
    ensures
        grouped(texts(sections@), r@),
{
    let ghost all = texts(sections@);
    let mut groups: Vec<(usize, usize)> = Vec::new();
    let mut start: usize = 0;
    while start < sections.len()
        invariant
            start <= sections.len(),
            all == texts(sections@),
            forall|g: int|
                0 <= g < groups@.len() ==> group_end(
                    all,
                    (#[trigger] groups@[g]).0 as int,
                    groups@[g].1 as int,
                ),
            forall|g: int, h: int|
                0 <= g && h == g + 1 && h < groups@.len() ==> (#[trigger] groups@[g]).1 == (
                #[trigger] groups@[h]).0,
            groups@.len() == 0 ==> start == 0,
            groups@.len() > 0 ==> groups@[0].0 == 0 && groups@.last().1 == start,
        decreases sections.len() - start,
    {
        let mut end: usize = start + 1;
        while end < sections.len() && same_text(sections[end].as_str(), sections[start].as_str())
            invariant
                start < end <= sections.len(),
                all == texts(sections@),
                forall|i: int| start <= i < end ==> #[trigger] all[i] == all[start as int],
            decreases sections.len() - end,
        {
            end = end + 1;
        }
        proof {
            assert(group_end(all, start as int, end as int));
        }
        groups.push((start, end));
        start = end;
    }
    groups
}

/// Whether a section is open at first: while something is looked for, and the first two.
pub fn section_is_open(section: &str, searching: bool) -> (r: bool)
    ensures
        r == (searching || section@ == "Swapper"@ || section@ == "Face Similarity"@),
{
    searching || same_text(section, "Swapper") || same_text(section, "Face Similarity")
}

/// One, as a double-precision pattern.
pub const ONE_DOUBLE: u64 = 0x3ff0_0000_0000_0000;

/// The nearest double-precision number to 0.1, as a double-precision pattern.
pub const TENTH_DOUBLE: u64 = 0x3fb9_9999_9999_999a;

/// The number one.
pub open spec fn one() -> Double {
    Double {
        bits: ONE_DOUBLE,
        single: Single { bits: ONE },
        percent: Single { bits: HUNDREDTH },
        whole: 1,
        text: NumberText { code: 0x1c2 },
    }
}

/// The number 0.1.
pub open spec fn tenth() -> Double {
    Double {
        bits: TENTH_DOUBLE,
        single: Single { bits: 0x3dcc_cccd },
        percent: Single { bits: 0x3a83_126f },
        whole: 0,
        text: NumberText { code: 0x2c1 },
    }
}

/// How many decimals a slider with this step shows.
pub fn slider_decimals(step: Double) -> (r: usize)
    ensures
        r == if one().at_most(step) {
            0int
        } else if tenth().at_most(step) {
            1int
        } else {
            2int
        },
{
    let one = Double {
        bits: ONE_DOUBLE,
        single: Single { bits: ONE },
        percent: Single { bits: HUNDREDTH },
        whole: 1,
        text: NumberText { code: 0x1c2 },
    };
    let tenth = Double {
        bits: TENTH_DOUBLE,
        single: Single { bits: 0x3dcc_cccd },
        percent: Single { bits: 0x3a83_126f },
        whole: 0,
        text: NumberText { code: 0x2c1 },
    };
    if one.is_at_most(step) {
        0
    } else if tenth.is_at_most(step) {
        1
    } else {
        2
    }
}

/// Which way a wheel was turned.
#[derive(Debug, Clone, Copy, PartialEq, Eq)]
pub enum Wheel {
    Still,
    Up,
    Down,
}

/// What was done to a control.
#[derive(Debug)]
pub struct ControlInput {
    /// The value that was entered.
    pub entered: Option<ControlValue>,
    pub reset: bool,
    pub wheel: Wheel,
}

/// The place of the first of `choices` that is `value`.
pub open spec fn first_place(choices: Seq<String>, value: Seq<char>, i: int) -> bool {
    &&& 0 <= i < choices.len()
    &&& choices[i]@ == value
    &&& forall|j: int| 0 <= j < i ==> (#[trigger] choices[j])@ != value
}

/// The choice that a wheel goes to: the one before or the one behind, as far as there is one.
pub open spec fn wheel_choice(choices: Seq<String>, i: int, wheel: Wheel) -> String {
    match wheel {
        Wheel::Still => choices[i],
        Wheel::Up => choices[if i == 0 {
            0
        } else {
            i - 1
        }],
        Wheel::Down => choices[if i + 1 < choices.len() {
            i + 1
        } else {
            choices.len() - 1
        }],
    }
}

/// What a control offers: what was found for it, or what the catalog lists.
pub open spec fn choices_for(s: ExtraGuiState, control: ControlSpec) -> Option<Vec<String>> {
    match control.kind {
        ControlKind::Choice { options, default, source } => if source is Some
            && s.dynamic_choices@.dom().contains(control.id@)
            && s.dynamic_choices@[control.id@]@.len() > 0 {
            Some(s.dynamic_choices@[control.id@])
        } else {
            Some(options)
        },
        _ => None,
    }
}

/// `value` is where the wheel leads from `from`, where it is one of the choices.
pub open spec fn turned(choices: Seq<String>, from: String, wheel: Wheel, value: String) -> bool {
    if exists|i: int| first_place(choices, from@, i) {
        exists|i: int| #[trigger]
            first_place(choices, from@, i) && value == match wheel {
                Wheel::Still => from,
                _ => wheel_choice(choices, i, wheel),
            }
    } else {
        value == from
    }
}

/// The value that is in a choice after it was used.
pub open spec fn choice_after(
    s: ExtraGuiState,
    control: ControlSpec,
    current: String,
    input: ControlInput,
    value: String,
) -> bool {
    let entered = match input.entered {
        Some(ControlValue::Choice(text)) => text,
        _ => current,
    };
    let choices = (choices_for(s, control)->0)@;
    if choices.len() == 0 {
        value == current
    } else if switched_on(s@.controls, "ScrollChangesValuesToggle"@) {
        turned(choices, entered, input.wheel, value)
    } else {
        value == entered
    }
}

/// The value that a control is going to have after it was used, where it changes.
pub open spec fn pending_value(
    s: ExtraGuiState,
    control: ControlSpec,
    input: ControlInput,
    r: Option<ControlValue>,
) -> bool {
    let values = scoped_values(s@, control.scope);
    if !values.dom().contains(control.id@) {
        r is None
    } else {
        match (control.kind, values[control.id@]) {
            (ControlKind::Toggle { default }, ControlValue::Toggle(current)) => {
                let value = match input.entered {
                    Some(ControlValue::Toggle(on)) => on,
                    _ => current,
                };
                r == if value != current {
                    Some(ControlValue::Toggle(value))
                } else if input.reset && value != default {
                    Some(ControlValue::Toggle(default))
                } else {
                    None
                }
            },
            (
                ControlKind::Slider { min, max, default, step },
                ControlValue::Slider(current),
            ) => r == match input.entered {
                Some(ControlValue::Slider(value)) => Some(ControlValue::Slider(value)),
                _ => if input.reset && !current.equals(default) {
                    Some(ControlValue::Slider(default))
                } else {
                    None
                },
            },
            (
                ControlKind::Choice { options, default, source },
                ControlValue::Choice(current),
            ) => exists|value: String| #[trigger]
                choice_after(s, control, current, input, value) && r == if value@ != current@ {
                    Some(ControlValue::Choice(value))
                } else if input.reset && current@ != default@ {
                    Some(ControlValue::Choice(default))
                } else {
                    None
                },
            _ => r is None,
        }
    }
}

/// The place of a choice.
fn place_among(choices: &Vec<String>, value: &str) -> (r: Option<usize>)
    ensures
        match r {
            Some(i) => first_place(choices@, value@, i as int),
            None => !exists|i: int| first_place(choices@, value@, i),
        },
{
    let mut i: usize = 0;
    while i < choices.len()
        invariant
            i <= choices.len(),
            forall|j: int| 0 <= j < i ==> (#[trigger] choices@[j])@ != value@,
        decreases choices.len() - i,
    {
        if same_text(choices[i].as_str(), value) {
            return Some(i);
        }
        i = i + 1;
    }
    None
}

/// The choice that a wheel leads to.
pub fn turn_choice(choices: &Vec<String>, from: String, wheel: Wheel) -> (r: String)
    ensures
        turned(choices@, from, wheel, r),
{
    let i: usize = match place_among(choices, from.as_str()) {
        Some(i) => i,
        None => return from,
    };
    proof {
        assert(first_place(choices@, from@, i as int));
    }
    match wheel {
        Wheel::Still => from,
        Wheel::Up => {
            let next: usize = if i == 0 {
                0
            } else {
                i - 1
            };
            choices[next].clone()
        },
        Wheel::Down => {
            let last: usize = choices.len() - 1;
            let next: usize = if i < last {
                i + 1
            } else {
                last
            };
            choices[next].clone()
        },
    }
}

/// The outcome of giving a control a value.
pub open spec fn control_applied(
    s: Session,
    control: ControlSpec,
    value: ControlValue,
    after: Session,
) -> bool {
    if fits(s.catalog, control.id@, value) {
        let told = s.saying("Updated "@ + control.label@).changed();
        after == if edits_face(s, control.scope) {
            let id = s.faces.selected->0;
            let target = s.faces.targets[id];
            told.with_faces(
                Faces {
                    targets: s.faces.targets.insert(
                        id,
                        Target { controls: target.controls.insert(control.id@, value), ..target },
                    ),
                    ..s.faces
                },
            )
        } else {
            Session { controls: s.controls.insert(control.id@, value), ..told }
        }
    } else {
        exists|e: ControlStateError| #[trigger]
            refusal(e, s.catalog, control.id@, value) && after == (Session {
                status: Said::Controls(e),
                ..s
            })
    }
}

impl ExtraGuiState {
    /// Shows a panel that the inspector has.
    pub fn normalize_inspector(&mut self)
        ensures
            final(self)@ == (Session {
                view: EditorView {
                    active_panel: inspected(old(self)@.view.active_panel),
                    ..old(self)@.view
                },
                ..old(self)@
            }),
    {
        match self.view.active_panel {
            ExtraGuiPanel::Faces | ExtraGuiPanel::Parameters | ExtraGuiPanel::Settings => {},
            _ => {
                self.view.active_panel = ExtraGuiPanel::Faces;
            },
        }
    }

    /// Selects a tab of the inspector.
    pub fn select_tab(&mut self, tab: InspectorTab)
        ensures
            final(self)@ == (Session { view: tab_selected(old(self)@.view, tab), ..old(self)@ }),
    {
        match tab {
            InspectorTab::Faces => {
                self.view.active_panel = ExtraGuiPanel::Faces;
            },
            InspectorTab::Swapper => {
                self.view.active_panel = ExtraGuiPanel::Parameters;
                self.view.inspector_scope = ControlScope::Swapper;
            },
            InspectorTab::Common => {
                self.view.active_panel = ExtraGuiPanel::Parameters;
                self.view.inspector_scope = ControlScope::Common;
            },
            InspectorTab::Settings => {
                self.view.active_panel = ExtraGuiPanel::Settings;
            },
        }
    }

    /// The control values that are edited.
    pub fn scoped_control_state(&self, scope: ControlScope) -> (r: &ControlState)
        ensures
            r@ == scoped_values(self@, scope),
    {
        if scope == ControlScope::Settings {
            return &self.controls;
        }
        match self.faces.selected_target() {
            Some(id) => match self.faces.target(id) {
                Some(target) => &target.controls,
                None => &self.controls,
            },
            None => &self.controls,
        }
    }

    /// Whether a wheel changes the values of controls.
    pub fn scroll_changes_values(&self) -> (r: bool)
        ensures
            r == switched_on(self@.controls, "ScrollChangesValuesToggle"@),
    {
        self.is_switched_on("ScrollChangesValuesToggle")
    }

    fn is_control_listed(&self, scope: ControlScope, control: &ControlSpec, part: &Option<String>) -> (r:
        bool)
        requires
            match *part {
                Some(text) => stripped(self@.filters.parameters@).len() > 0 && text@ == wanted(
                    self@.filters.parameters@,
                ),
                None => stripped(self@.filters.parameters@).len() == 0,
            },
        ensures
            r == control_listed(self@, scope, *control),
    {
        if control.scope != scope {
            return false;
        }
        let values = self.scoped_control_state(scope);
        if !values.is_spec_visible(&control.visibility, FrontendMode::Editor) {
            return false;
        }
        match part {
            None => true,
            Some(text) => is_found(control.label.as_str(), text.as_str()) || is_found(
                control.section.as_str(),
                text.as_str(),
            ) || is_found(control.id.as_str(), text.as_str()),
        }
    }

    /// The places in the catalog of the controls that are listed in a tab.
    pub fn listed_controls(&self, scope: ControlScope) -> (r: Vec<usize>)
        ensures
            r@.map_values(|i: usize| i as int) == listed_places(
                self@,
                scope,
                self@.catalog.len(),
            ),
    {
        let typed = strip(self.filters.parameters.as_str());
        let part: Option<String> = if typed.as_str().is_empty() {
            None
        } else {
            Some(query_of(self.filters.parameters.as_str()))
        };
        let mut r: Vec<usize> = Vec::new();
        proof {
            assert(r@.map_values(|i: usize| i as int) =~= listed_places(self@, scope, 0));
        }
        let mut i: usize = 0;
        while i < self.catalog.len()
            invariant
                i <= self.catalog@.len(),
                match part {
                    Some(text) => stripped(self@.filters.parameters@).len() > 0 && text@ == wanted(
                        self@.filters.parameters@,
                    ),
                    None => stripped(self@.filters.parameters@).len() == 0,
                },
                r@.map_values(|i: usize| i as int) == listed_places(self@, scope, i as nat),
            decreases self.catalog@.len() - i,
        {
            let ghost before = r@.map_values(|i: usize| i as int);
            if self.is_control_listed(scope, &self.catalog[i], &part) {
                r.push(i);
                proof {
                    assert(r@.map_values(|i: usize| i as int) =~= before.push(i as int));
                }
            }
            i = i + 1;
        }
        r
    }

    /// What a control offers.
    pub fn offered_choices<'a>(&'a self, control: &'a ControlSpec) -> (r: Option<&'a Vec<String>>)
        ensures
            match r {
                Some(list) => choices_for(*self, *control) == Some(*list),
                None => choices_for(*self, *control) is None,
            },
    {
        match &control.kind {
            ControlKind::Choice { options, default: _, source } => {
                if source.is_some() {
                    if let Some(found) = self.dynamic_choices.get(control.id.as_str()) {
                        if found.len() > 0 {
                            return Some(found);
                        }
                    }
                }
                Some(options)
            },
            _ => None,
        }
    }

    /// The value that is in a choice after it was used.
    fn used_choice(&self, control: &ControlSpec, current: &String, input: &ControlInput) -> (r: String)
        requires
            control.kind is Choice,
        ensures
            choice_after(*self, *control, *current, *input, r),
    {
        let entered: String = match &input.entered {
            Some(ControlValue::Choice(text)) => text.clone(),
            _ => current.clone(),
        };
        match self.offered_choices(control) {
            None => current.clone(),
            Some(choices) => if choices.len() == 0 {
                current.clone()
            } else if self.scroll_changes_values() {
                turn_choice(choices, entered, input.wheel)
            } else {
                entered
            },
        }
    }

    /// The value that a control is going to have after it was used, where it changes.
    pub fn control_used(&self, control: &ControlSpec, input: &ControlInput) -> (r: Option<
        ControlValue,
    >)
        ensures
            pending_value(*self, *control, *input, r),
    {
        let values = self.scoped_control_state(control.scope);
        let held = match values.get(control.id.as_str()) {
            Some(value) => value,
            None => return None,
        };
        match (&control.kind, held) {
            (ControlKind::Toggle { default }, ControlValue::Toggle(current)) => {
                let value: bool = match &input.entered {
                    Some(ControlValue::Toggle(on)) => *on,
                    _ => *current,
                };
                if value != *current {
                    Some(ControlValue::Toggle(value))
                } else if input.reset && value != *default {
                    Some(ControlValue::Toggle(*default))
                } else {
                    None
                }
            },
            (
                ControlKind::Slider { min: _, max: _, default, step: _ },
                ControlValue::Slider(current),
            ) => match &input.entered {
                Some(ControlValue::Slider(value)) => Some(ControlValue::Slider(*value)),
                _ => if input.reset && !current.same_number(*default) {
                    Some(ControlValue::Slider(*default))
                } else {
                    None
                },
            },
            (
                ControlKind::Choice { options: _, default, source: _ },
                ControlValue::Choice(current),
            ) => {
                let value = self.used_choice(control, current, input);
                proof {
                    assert(choice_after(*self, *control, *current, *input, value));
                }
                if !same_text(value.as_str(), current.as_str()) {
                    Some(ControlValue::Choice(value))
                } else if input.reset && !same_text(current.as_str(), default.as_str()) {
                    Some(ControlValue::Choice(default.clone()))
                } else {
                    None
                }
            },
            _ => None,
        }
    }

    /// Gives a control a value: that of the selected face, or that of the session.
    pub fn apply_control(&mut self, control: &ControlSpec, value: ControlValue)
        ensures
            control_applied(old(self)@, *control, value, final(self)@),
    {
        let ghost start = self@;
        let mut values = self.scoped_control_state(control.scope).duplicate();
        match values.set(control.id.as_str(), value, self.catalog.as_slice()) {
            Err(e) => {
                self.status = Notice::Controls(e);
                proof {
                    assert(refusal(e, start.catalog, control.id@, value));
                }
            },
            Ok(()) => {
                let face: Option<String> = if control.scope == ControlScope::Settings {
                    None
                } else {
                    match self.faces.selected_target() {
                        Some(id) => if self.faces.target(id).is_some() {
                            Some(id.to_owned())
                        } else {
                            None
                        },
                        None => None,
                    }
                };
                match face {
                    Some(id) => {
                        let _ = self.faces.set_target_controls(id.as_str(), values);
                    },
                    None => {
                        self.controls = values;
                    },
                }
                let text = join2("Updated ", control.label.as_str());
                self.say(text.as_str());
                self.touch();
            },
        }
    }
}

} // verus!
