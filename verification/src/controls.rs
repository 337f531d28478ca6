//! The editor's controls: their catalog, their values, and which of them are shown.

use vstd::prelude::*;

use crate::json::{Json, JsonNumber};
use crate::number::Double;
use crate::number::{double_worth, doubles_are_compared_by_worth};
use crate::ordered::TextMap;
use crate::ordered::{ascending, entry_is_unique, map_grows, map_of, map_size, place_of};
use crate::text::same_text;

verus! {

/// What a control belongs to.
#[derive(Debug, Clone, Copy, PartialEq, Eq, Structural)]
pub enum ControlScope {
    Settings,
    Common,
    Swapper,
}

/// Where the options of a choice come from at run time.
#[derive(Debug, Clone, Copy, PartialEq, Eq, Structural)]
pub enum ChoiceSource {
    DfmModels,
    Cameras,
}

/// What a control holds, with its default and its limits.
#[derive(Debug, PartialEq, Eq)]
#[allow(inconsistent_fields)]
pub enum ControlKind {
    Toggle { default: bool },
    Slider { min: Double, max: Double, default: Double, step: Double },
    Choice { options: Vec<String>, default: String, source: Option<ChoiceSource> },
}

/// The value of a control.
#[derive(Debug, PartialEq, Eq)]
pub enum ControlValue {
    Toggle(bool),
    Slider(Double),
    Choice(String),
}

impl Clone for ControlValue {
    fn clone(&self) -> (r: Self)
        ensures
            r == *self,
    {
        match self {
            ControlValue::Toggle(b) => ControlValue::Toggle(*b),
            ControlValue::Slider(d) => ControlValue::Slider(*d),
            ControlValue::Choice(s) => ControlValue::Choice(s.clone()),
        }
    }
}

/// The value that another control must have.
#[derive(Debug, PartialEq, Eq)]
pub enum DependencyValue {
    Toggle(bool),
    Choice(String),
}

/// A control is shown where another control has a value.
#[derive(Debug, PartialEq, Eq)]
pub struct ControlDependency {
    pub control: String,
    pub value: DependencyValue,
}

/// Whether one or all dependencies have to hold.
#[derive(Debug, Clone, Copy, PartialEq, Eq, Structural)]
pub enum DependencyMode {
    Any,
    All,
}

impl Default for DependencyMode {
    fn default() -> (r: Self)
        ensures
            r == DependencyMode::All,
    {
        DependencyMode::All
    }
}

/// The frontend that shows the controls.
#[derive(Debug, Clone, Copy, PartialEq, Eq, Structural)]
pub enum FrontendMode {
    Realtime,
    Editor,
}

/// When a control is shown.
#[derive(Debug, PartialEq, Eq)]
pub struct Visibility {
    pub mode: DependencyMode,
    pub dependencies: Vec<ControlDependency>,
    pub hidden_modes: Vec<FrontendMode>,
}

impl Default for Visibility {
    fn default() -> (r: Self)
        ensures
            r.mode == DependencyMode::All,
            r.dependencies@.len() == 0,
            r.hidden_modes@.len() == 0,
    {
        Visibility { mode: DependencyMode::All, dependencies: Vec::new(), hidden_modes: Vec::new() }
    }
}

/// One control of the catalog.
#[derive(Debug, PartialEq, Eq)]
pub struct ControlSpec {
    pub id: String,
    pub scope: ControlScope,
    pub section: String,
    pub label: String,
    pub level: u8,
    pub help: String,
    pub kind: ControlKind,
    pub visibility: Visibility,
}

impl ControlSpec {
    /// The options of a choice.
    pub fn choice_options(&self) -> (r: Option<&Vec<String>>)
        ensures
            match r {
                Some(list) => self.kind is Choice && *list == self.kind->options,
                None => !(self.kind is Choice),
            },
    {
        match &self.kind {
            ControlKind::Choice { options, default: _, source: _ } => Some(options),
            ControlKind::Toggle { .. } | ControlKind::Slider { .. } => None,
        }
    }
}

/// One of `options` is the text `s`.
pub open spec fn offers(options: Seq<String>, s: Seq<char>) -> bool {
    exists|i: int| 0 <= i < options.len() && (#[trigger] options[i])@ == s
}

/// Whether one of `options` is the text `s`.
pub fn is_offered(options: &Vec<String>, s: &str) -> (r: bool)
    ensures
        r == offers(options@, s@),
{
    let mut i: usize = 0;
    while i < options.len()
        invariant
            i <= options.len(),
            forall|j: int| 0 <= j < i ==> (#[trigger] options@[j])@ != s@,
        decreases options.len() - i,
    {
        if same_text(options[i].as_str(), s) {
            assert(options@[i as int]@ == s@);
            return true;
        }
        i = i + 1;
    }
    false
}

/// A control of this kind can have this value.
pub open spec fn accepts(kind: ControlKind, value: ControlValue) -> bool {
    match (kind, value) {
        (ControlKind::Toggle { .. }, ControlValue::Toggle(_)) => true,
        (ControlKind::Slider { min, max, .. }, ControlValue::Slider(d)) => d.within(min, max),
        (ControlKind::Choice { options, source, .. }, ControlValue::Choice(s)) => offers(
            options@,
            s@,
        ) || (options@.len() == 0 && source is Some),
        _ => false,
    }
}

/// Whether a control of this kind can have this value.
pub fn is_accepted(kind: &ControlKind, value: &ControlValue) -> (r: bool)
    ensures
        r == accepts(*kind, *value),
{
    match (kind, value) {
        (ControlKind::Toggle { default: _ }, ControlValue::Toggle(_)) => true,
        (
            ControlKind::Slider { min, max, default: _, step: _ },
            ControlValue::Slider(d),
        ) => d.is_within(*min, *max),
        (
            ControlKind::Choice { options, default: _, source },
            ControlValue::Choice(s),
        ) => is_offered(options, s.as_str()) || (options.len() == 0 && source.is_some()),
        _ => false,
    }
}

/// The default of a control of this kind.
pub open spec fn default_of(kind: ControlKind) -> ControlValue {
    match kind {
        ControlKind::Toggle { default } => ControlValue::Toggle(default),
        ControlKind::Slider { default, .. } => ControlValue::Slider(default),
        ControlKind::Choice { default, .. } => ControlValue::Choice(default),
    }
}

fn default_value(kind: &ControlKind) -> (r: ControlValue)
    ensures
        r == default_of(*kind),
{
    match kind {
        ControlKind::Toggle { default } => ControlValue::Toggle(*default),
        ControlKind::Slider { min: _, max: _, default, step: _ } => ControlValue::Slider(*default),
        ControlKind::Choice { options: _, default, source: _ } => ControlValue::Choice(
            default.clone(),
        ),
    }
}

/// The first control with the given id.
pub open spec fn find(catalog: Seq<ControlSpec>, id: Seq<char>) -> Option<ControlSpec>
    decreases catalog.len(),
{
    if catalog.len() == 0 {
        None
    } else if catalog[0].id@ == id {
        Some(catalog[0])
    } else {
        find(catalog.drop_first(), id)
    }
}

/// The first control with the given id.
pub fn find_control<'a>(catalog: &'a [ControlSpec], id: &str) -> (r: Option<&'a ControlSpec>)
    ensures
        match r {
            Some(control) => find(catalog@, id@) == Some(*control),
            None => find(catalog@, id@) is None,
        },
{
    let mut i: usize = 0;
    proof {
        assert(catalog@.skip(0) =~= catalog@);
    }
    while i < catalog.len()
        invariant
            i <= catalog.len(),
            find(catalog@, id@) == find(catalog@.skip(i as int), id@),
        decreases catalog.len() - i,
    {
        proof {
            assert(catalog@.skip(i as int)[0] == catalog@[i as int]);
            assert(catalog@.skip(i as int).drop_first() =~= catalog@.skip(i + 1));
        }
        if same_text(catalog[i].id.as_str(), id) {
            return Some(&catalog[i]);
        }
        i = i + 1;
    }
    None
}

/// A found control stands in the catalog under its id.
pub proof fn found_control_is_listed(catalog: Seq<ControlSpec>, id: Seq<char>)
    ensures
        match find(catalog, id) {
            Some(control) => control.id@ == id && catalog.contains(control),
            None => forall|i: int| 0 <= i < catalog.len() ==> (#[trigger] catalog[i]).id@ != id,
        },
    decreases catalog.len(),
{
    if catalog.len() > 0 {
        let rest = catalog.drop_first();
        found_control_is_listed(rest, id);
        if catalog[0].id@ == id {
            assert(catalog.contains(catalog[0]));
        } else {
            match find(rest, id) {
                Some(control) => {
                    let i = choose|i: int| 0 <= i < rest.len() && rest[i] == control;
                    assert(catalog[i + 1] == control);
                },
                None => {
                    assert forall|i: int| 0 <= i < catalog.len() implies (
                    #[trigger] catalog[i]).id@ != id by {
                        if i > 0 {
                            assert(rest[i - 1] == catalog[i]);
                        }
                    }
                },
            }
        }
    }
}

/// No two controls of the catalog have the same id.
pub open spec fn unique_ids(catalog: Seq<ControlSpec>) -> bool {
    forall|i: int, j: int|
        0 <= i < j < catalog.len() ==> (#[trigger] catalog[i]).id@ != (#[trigger] catalog[j]).id@
}

/// Where ids are unique, every control is found under its id.
pub proof fn control_is_found(catalog: Seq<ControlSpec>, i: int)
    requires
        unique_ids(catalog),
        0 <= i < catalog.len(),
    ensures
        find(catalog, catalog[i].id@) == Some(catalog[i]),
    decreases catalog.len(),
{
    if i > 0 {
        let rest = catalog.drop_first();
        assert(catalog[0].id@ != catalog[i].id@);
        assert forall|a: int, b: int| 0 <= a < b < rest.len() implies (#[trigger] rest[a]).id@ != (
        #[trigger] rest[b]).id@ by {
            assert(rest[a] == catalog[a + 1] && rest[b] == catalog[b + 1]);
        }
        control_is_found(rest, i - 1);
    }
}

/// The catalog has a control with this id that can have this value.
pub open spec fn fits(catalog: Seq<ControlSpec>, id: Seq<char>, value: ControlValue) -> bool {
    match find(catalog, id) {
        Some(control) => accepts(control.kind, value),
        None => false,
    }
}

/// Why a control's value is refused.
#[derive(Debug, PartialEq, Eq)]
pub enum ControlStateError {
    UnknownControl(String),
    InvalidValue { control: String, value: ControlValue },
    Incomplete { expected: usize, actual: usize },
    InvalidPlainJson(String),
}

/// `e` is what the attempt to give the control `id` the value `value` leads to.
pub open spec fn refusal(
    e: ControlStateError,
    catalog: Seq<ControlSpec>,
    id: Seq<char>,
    value: ControlValue,
) -> bool {
    match find(catalog, id) {
        None => e matches ControlStateError::UnknownControl(name) && name@ == id,
        Some(control) => {
            &&& !accepts(control.kind, value)
            &&& e matches ControlStateError::InvalidValue { control: name, value: given } && name@
                == id && given == value
        },
    }
}

/// The values that the first `n` controls give by default, later ones overriding earlier ones of
/// the same id.
pub open spec fn defaults(catalog: Seq<ControlSpec>, n: nat) -> Map<Seq<char>, ControlValue>
    decreases n,
{
    if n == 0 {
        Map::empty()
    } else {
        defaults(catalog, (n - 1) as nat).insert(
            catalog[n - 1].id@,
            default_of(catalog[n - 1].kind),
        )
    }
}

/// The default of the `i`-th control is a value that the catalog accepts for its id.
pub open spec fn default_fits(catalog: Seq<ControlSpec>, i: int) -> bool {
    fits(catalog, catalog[i].id@, default_of(catalog[i].kind))
}

/// A value that a control of this kind takes from a document.
pub open spec fn plain_value(kind: ControlKind, json: Json) -> Option<ControlValue> {
    match kind {
        ControlKind::Toggle { .. } => match json {
            Json::Bool(b) => Some(ControlValue::Toggle(b)),
            _ => None,
        },
        ControlKind::Slider { .. } => match json.double() {
            Some(d) => Some(ControlValue::Slider(d)),
            None => None,
        },
        ControlKind::Choice { .. } => match json {
            Json::Text(s) => Some(ControlValue::Choice(s)),
            _ => None,
        },
    }
}

fn value_from_json(kind: &ControlKind, json: &Json) -> (r: Option<ControlValue>)
    ensures
        r == plain_value(*kind, *json),
{
    match kind {
        ControlKind::Toggle { default: _ } => match json {
            Json::Bool(b) => Some(ControlValue::Toggle(*b)),
            _ => None,
        },
        ControlKind::Slider { .. } => match json.as_real() {
            Some(d) => Some(ControlValue::Slider(d)),
            None => None,
        },
        ControlKind::Choice { .. } => match json {
            Json::Text(s) => Some(ControlValue::Choice(s.clone())),
            _ => None,
        },
    }
}

/// What a document says of a control: nothing for an unknown one, a value, or something that the
/// control cannot have.
pub enum PlainEntry {
    Skipped,
    Value(ControlValue),
    Refused,
}

/// What an entry of a document says of the control `id`.
pub open spec fn plain_entry(catalog: Seq<ControlSpec>, id: Seq<char>, json: Json) -> PlainEntry {
    match find(catalog, id) {
        None => PlainEntry::Skipped,
        Some(control) => match plain_value(control.kind, json) {
            Some(value) => if accepts(control.kind, value) {
                PlainEntry::Value(value)
            } else {
                PlainEntry::Refused
            },
            None => PlainEntry::Refused,
        },
    }
}

/// The values after the first `n` entries of a document were taken over.
pub open spec fn plain_applied(
    values: Map<Seq<char>, ControlValue>,
    entries: Seq<(Seq<char>, Json)>,
    catalog: Seq<ControlSpec>,
    n: nat,
) -> Map<Seq<char>, ControlValue>
    decreases n,
{
    if n == 0 {
        values
    } else {
        let before = plain_applied(values, entries, catalog, (n - 1) as nat);
        match plain_entry(catalog, entries[n - 1].0, entries[n - 1].1) {
            PlainEntry::Value(value) => before.insert(entries[n - 1].0, value),
            _ => before,
        }
    }
}

/// No entry of the document is refused.
pub open spec fn plain_accepted(
    entries: Seq<(Seq<char>, Json)>,
    catalog: Seq<ControlSpec>,
    n: int,
) -> bool {
    forall|i: int|
        0 <= i < n ==> !(plain_entry(catalog, (#[trigger] entries[i]).0, entries[i].1)
            is Refused)
}

/// `e` is why the entry of a document for the control `id` is refused.
pub open spec fn plain_refusal(
    e: ControlStateError,
    catalog: Seq<ControlSpec>,
    id: Seq<char>,
    json: Json,
) -> bool {
    match find(catalog, id) {
        None => false,
        Some(control) => match plain_value(control.kind, json) {
            None => e matches ControlStateError::InvalidPlainJson(name) && name@ == id,
            Some(value) => !accepts(control.kind, value) && refusal(e, catalog, id, value),
        },
    }
}

/// The value as a document holds it; a number that is not finite has no place there.
pub open spec fn plain_json(value: ControlValue) -> Json {
    match value {
        ControlValue::Toggle(b) => Json::Bool(b),
        ControlValue::Slider(d) => if d.finite() {
            Json::Number(JsonNumber::Real(d))
        } else {
            Json::Null
        },
        ControlValue::Choice(s) => Json::Text(s),
    }
}

impl ControlValue {
    /// The value as a document holds it.
    pub fn plain_json(&self) -> (r: Json)
        ensures
            r == plain_json(*self),
    {
        match self {
            ControlValue::Toggle(b) => Json::Bool(*b),
            ControlValue::Slider(d) => if d.is_finite() {
                Json::Number(JsonNumber::Real(*d))
            } else {
                Json::Null
            },
            ControlValue::Choice(s) => Json::Text(s.clone()),
        }
    }
}

/// Some control of the scope has this id.
pub open spec fn in_scope(catalog: Seq<ControlSpec>, scope: ControlScope, id: Seq<char>) -> bool {
    exists|i: int|
        0 <= i < catalog.len() && (#[trigger] catalog[i]).id@ == id && catalog[i].scope == scope
}

/// The values of the controls of a scope, as a document holds them.
pub open spec fn scope_json(
    values: Map<Seq<char>, ControlValue>,
    scope: ControlScope,
    catalog: Seq<ControlSpec>,
) -> Map<Seq<char>, Json> {
    Map::new(
        |id: Seq<char>| values.dom().contains(id) && in_scope(catalog, scope, id),
        |id: Seq<char>| plain_json(values[id]),
    )
}

/// A dependency holds.
pub open spec fn dependency_holds(
    values: Map<Seq<char>, ControlValue>,
    dependency: ControlDependency,
) -> bool {
    values.dom().contains(dependency.control@) && match (
        values[dependency.control@],
        dependency.value,
    ) {
        (ControlValue::Toggle(actual), DependencyValue::Toggle(required)) => actual == required,
        (ControlValue::Choice(actual), DependencyValue::Choice(required)) => actual@ == required@,
        _ => false,
    }
}

/// A control is shown in a frontend.
pub open spec fn shown(
    values: Map<Seq<char>, ControlValue>,
    visibility: Visibility,
    frontend: FrontendMode,
) -> bool {
    let dependencies = visibility.dependencies@;
    &&& !visibility.hidden_modes@.contains(frontend)
    &&& dependencies.len() == 0 || match visibility.mode {
        DependencyMode::Any => exists|i: int|
            0 <= i < dependencies.len() && dependency_holds(values, #[trigger] dependencies[i]),
        DependencyMode::All => forall|i: int|
            0 <= i < dependencies.len() ==> dependency_holds(values, #[trigger] dependencies[i]),
    }
}

/// The values of the controls.
#[derive(Debug)]
pub struct ControlState {
    values: TextMap<ControlValue>,
}

impl View for ControlState {
    type V = Map<Seq<char>, ControlValue>;

    closed spec fn view(&self) -> Map<Seq<char>, ControlValue> {
        self.values@
    }
}

/// The entries agree with the catalog: there are as many as controls, and each fits.
pub open spec fn complete(
    entries: Seq<(Seq<char>, ControlValue)>,
    catalog: Seq<ControlSpec>,
) -> bool {
    &&& entries.len() == catalog.len()
    &&& forall|i: int|
        0 <= i < entries.len() ==> fits(catalog, (#[trigger] entries[i]).0, entries[i].1)
}

/// `e` is why the entries do not agree with the catalog: their number, or the first that does not
/// fit.
pub open spec fn incompleteness(
    e: ControlStateError,
    entries: Seq<(Seq<char>, ControlValue)>,
    catalog: Seq<ControlSpec>,
) -> bool {
    match e {
        ControlStateError::Incomplete { expected, actual } => {
            &&& entries.len() != catalog.len()
            &&& expected == catalog.len()
            &&& actual == entries.len()
        },
        _ => {
            &&& entries.len() == catalog.len()
            &&& exists|i: int|
                {
                    &&& 0 <= i < entries.len()
                    &&& !fits(catalog, (#[trigger] entries[i]).0, entries[i].1)
                    &&& forall|j: int|
                        0 <= j < i ==> fits(catalog, (#[trigger] entries[j]).0, entries[j].1)
                    &&& refusal(e, catalog, entries[i].0, entries[i].1)
                }
        },
    }
}

/// The outcome of taking over the entries of a document, up to the first that is refused.
pub open spec fn plain_json_applied(
    before: Map<Seq<char>, ControlValue>,
    entries: Seq<(Seq<char>, Json)>,
    catalog: Seq<ControlSpec>,
    after: Map<Seq<char>, ControlValue>,
    r: Result<(), ControlStateError>,
) -> bool {
    match r {
        Ok(()) => {
            &&& plain_accepted(entries, catalog, entries.len() as int)
            &&& after == plain_applied(before, entries, catalog, entries.len())
        },
        Err(e) => exists|i: int|
            {
                &&& 0 <= i < entries.len()
                &&& plain_accepted(entries, catalog, i)
                &&& plain_refusal(e, catalog, (#[trigger] entries[i]).0, entries[i].1)
                &&& after == plain_applied(before, entries, catalog, i as nat)
            },
    }
}

/// The outcome of giving all controls their defaults.
pub open spec fn defaults_given(
    catalog: Seq<ControlSpec>,
    r: Result<Map<Seq<char>, ControlValue>, ControlStateError>,
) -> bool {
    match r {
        Ok(values) => {
            &&& forall|i: int| 0 <= i < catalog.len() ==> #[trigger] default_fits(catalog, i)
            &&& values == defaults(catalog, catalog.len())
        },
        Err(e) => exists|i: int|
            {
                &&& 0 <= i < catalog.len()
                &&& !(#[trigger] default_fits(catalog, i))
                &&& forall|j: int| 0 <= j < i ==> #[trigger] default_fits(catalog, j)
                &&& refusal(e, catalog, catalog[i].id@, default_of(catalog[i].kind))
            },
    }
}

/// The values of a state, where there is one.
pub open spec fn values_result(r: Result<ControlState, ControlStateError>) -> Result<
    Map<Seq<char>, ControlValue>,
    ControlStateError,
> {
    match r {
        Ok(state) => Ok(state@),
        Err(e) => Err(e),
    }
}

impl ControlState {
    /// The values in ascending order of their controls' ids.
    pub closed spec fn entries(&self) -> Seq<(Seq<char>, ControlValue)> {
        self.values.pairs()
    }

    /// No values.
    pub fn new() -> (r: Self)
        ensures
            r@ == Map::<Seq<char>, ControlValue>::empty(),
    {
        ControlState { values: TextMap::new() }
    }

    /// The given values, such as those of a file; no catalog is asked.
    pub fn from_values(values: TextMap<ControlValue>) -> (r: Self)
        ensures
            r@ == values@,
    {
        ControlState { values }
    }

    /// The entries are in order, and the view is their map.
    pub proof fn entries_are_the_view(&self)
        ensures
            self@ == map_of(self.entries()),
    {
    }

    /// The default values of all controls.
    pub fn from_catalog(catalog: &[ControlSpec]) -> (r: Result<Self, ControlStateError>)
        ensures
            defaults_given(catalog@, values_result(r)),
    {
        let mut state = ControlState::new();
        let mut i: usize = 0;
        while i < catalog.len()
            invariant
                i <= catalog.len(),
                forall|j: int| 0 <= j < i ==> #[trigger] default_fits(catalog@, j),
                state@ == defaults(catalog@, i as nat),
            decreases catalog.len() - i,
        {
            let value = default_value(&catalog[i].kind);
            if let Err(e) = state.set(catalog[i].id.as_str(), value, catalog) {
                assert(!default_fits(catalog@, i as int));
                return Err(e);
            }
            assert(default_fits(catalog@, i as int));
            i = i + 1;
        }
        Ok(state)
    }

    /// The number of values.
    pub fn len(&self) -> (r: usize)
        ensures
            r == self.entries().len(),
            ascending(self.entries()),
    {
        self.values.len()
    }

    /// Whether there is no value.
    pub fn is_empty(&self) -> (r: bool)
        ensures
            r == (self.entries().len() == 0),
    {
        self.values.is_empty()
    }

    /// The value of the control `id`.
    pub fn get(&self, id: &str) -> (r: Option<&ControlValue>)
        ensures
            match r {
                Some(value) => self@.dom().contains(id@) && *value == self@[id@],
                None => !self@.dom().contains(id@),
            },
    {
        self.values.get(id)
    }

    /// The id of the `i`-th value.
    pub fn id_at(&self, i: usize) -> (r: &String)
        requires
            i < self.entries().len(),
        ensures
            r@ == self.entries()[i as int].0,
    {
        self.values.key_at(i)
    }

    /// The `i`-th value.
    pub fn value_at(&self, i: usize) -> (r: &ControlValue)
        requires
            i < self.entries().len(),
        ensures
            *r == self.entries()[i as int].1,
    {
        self.values.value_at(i)
    }

    /// A state with the same values.
    pub fn duplicate(&self) -> (r: Self)
        ensures
            r@ == self@,
    {
        let mut r = ControlState::new();
        let n: usize = self.values.len();
        let ghost pairs = self.values.pairs();
        let mut i: usize = 0;
        proof {
            assert(pairs.take(0) =~= Seq::<(Seq<char>, ControlValue)>::empty());
            assert(map_of(pairs.take(0)) =~= Map::<Seq<char>, ControlValue>::empty());
        }
        while i < n
            invariant
                i <= n,
                n == pairs.len(),
                pairs == self.values.pairs(),
                ascending(pairs),
                r@ == map_of(pairs.take(i as int)),
            decreases n - i,
        {
            let key: String = self.values.key_at(i).clone();
            let value: ControlValue = self.values.value_at(i).clone();
            let _ = r.values.insert(key, value);
            proof {
                map_grows(pairs, i as int);
            }
            i = i + 1;
        }
        proof {
            assert(pairs.take(n as int) =~= pairs);
        }
        r
    }

    /// Whether the values are complete: as many as controls, each one that its control can have.
    pub fn validate_against(&self, catalog: &[ControlSpec]) -> (r: Result<(), ControlStateError>)
        ensures
            r is Ok ==> ascending(self.entries()),
            match r {
                Ok(()) => complete(self.entries(), catalog@),
                Err(e) => incompleteness(e, self.entries(), catalog@) && !complete(
                    self.entries(),
                    catalog@,
                ),
            },
    {
        let n: usize = self.values.len();
        if n != catalog.len() {
            return Err(ControlStateError::Incomplete { expected: catalog.len(), actual: n });
        }
        let mut i: usize = 0;
        while i < n
            invariant
                i <= n,
                n == self.entries().len(),
                n == catalog@.len(),
                forall|j: int|
                    0 <= j < i ==> fits(
                        catalog@,
                        (#[trigger] self.entries()[j]).0,
                        self.entries()[j].1,
                    ),
            decreases n - i,
        {
            let mut probe = ControlState::new();
            let id: &String = self.values.key_at(i);
            let value: ControlValue = self.values.value_at(i).clone();
            if let Err(e) = probe.set(id.as_str(), value, catalog) {
                assert(refusal(e, catalog@, self.entries()[i as int].0, self.entries()[i as int].1));
                return Err(e);
            }
            i = i + 1;
        }
        Ok(())
    }

    /// Takes over the values that a document holds for known controls, in the order of their ids,
    /// up to the first one that is refused.
    pub fn apply_plain_json(&mut self, values: &TextMap<Json>, catalog: &[ControlSpec]) -> (r: Result<
        (),
        ControlStateError,
    >)
        ensures
            plain_json_applied(old(self)@, values.pairs(), catalog@, final(self)@, r),
    {
        let n: usize = values.len();
        let ghost pairs = values.pairs();
        let mut i: usize = 0;
        while i < n
            invariant
                i <= n,
                n == pairs.len(),
                pairs == values.pairs(),
                plain_accepted(pairs, catalog@, i as int),
                self@ == plain_applied(old(self)@, pairs, catalog@, i as nat),
            decreases n - i,
        {
            let id: &String = values.key_at(i);
            let json: &Json = values.value_at(i);
            if let Some(control) = find_control(catalog, id.as_str()) {
                match value_from_json(&control.kind, json) {
                    None => {
                        assert(plain_refusal(
                            ControlStateError::InvalidPlainJson(*id),
                            catalog@,
                            pairs[i as int].0,
                            pairs[i as int].1,
                        ));
                        return Err(ControlStateError::InvalidPlainJson(id.clone()));
                    },
                    Some(value) => {
                        if let Err(e) = self.set(id.as_str(), value, catalog) {
                            assert(plain_refusal(
                                e,
                                catalog@,
                                pairs[i as int].0,
                                pairs[i as int].1,
                            ));
                            return Err(e);
                        }
                    },
                }
            }
            i = i + 1;
        }
        Ok(())
    }

    /// The values of the controls of a scope, as a document holds them.
    pub fn plain_json_for_scope(&self, scope: ControlScope, catalog: &[ControlSpec]) -> (r: TextMap<
        Json,
    >)
        ensures
            r@ == scope_json(self@, scope, catalog@),
            ascending(r.pairs()),
    {
        let mut r: TextMap<Json> = TextMap::new();
        self.add_scope_json(scope, catalog, &mut r);
        proof {
            assert(r@ =~= scope_json(self@, scope, catalog@));
        }
        r
    }

    /// Adds the values of the controls of a scope, as a document holds them.
    pub fn add_scope_json(
        &self,
        scope: ControlScope,
        catalog: &[ControlSpec],
        target: &mut TextMap<Json>,
    )
        ensures
            final(target)@ == old(target)@.union_prefer_right(scope_json(self@, scope, catalog@)),
            ascending(final(target).pairs()),
    {
        let ghost before = target@;
        let ghost total = scope_json(self@, scope, catalog@);
        let _ = target.len();
        let mut i: usize = 0;
        proof {
            assert(target@ =~= before.union_prefer_right(scope_json(self@, scope, catalog@.take(0))));
        }
        while i < catalog.len()
            invariant
                i <= catalog.len(),
                ascending(target.pairs()),
                target@ == before.union_prefer_right(
                    scope_json(self@, scope, catalog@.take(i as int)),
                ),
            decreases catalog.len() - i,
        {
            let control: &ControlSpec = &catalog[i];
            let ghost sofar = scope_json(self@, scope, catalog@.take(i as int));
            let ghost next = scope_json(self@, scope, catalog@.take(i + 1));
            let ghost id = control.id@;
            proof {
                scope_grows(self@, scope, catalog@, i as int);
            }
            if control.scope == scope {
                if let Some(value) = self.values.get(control.id.as_str()) {
                    let _ = target.insert(control.id.clone(), value.plain_json());
                    proof {
                        assert(before.union_prefer_right(next) =~= before.union_prefer_right(
                            sofar,
                        ).insert(id, plain_json(*value)));
                    }
                } else {
                    proof {
                        assert(next =~= sofar);
                    }
                }
            } else {
                proof {
                    assert(next =~= sofar);
                }
            }
            i = i + 1;
        }
        proof {
            assert(catalog@.take(catalog.len() as int) =~= catalog@);
        }
    }

    /// Gives the control `id` a value, if the catalog knows it and it can have that value.
    pub fn set(&mut self, id: &str, value: ControlValue, catalog: &[ControlSpec]) -> (r: Result<
        (),
        ControlStateError,
    >)
        ensures
            match r {
                Ok(()) => fits(catalog@, id@, value) && final(self)@ == old(self)@.insert(
                    id@,
                    value,
                ),
                Err(e) => !fits(catalog@, id@, value) && refusal(e, catalog@, id@, value)
                    && final(self)@ == old(self)@,
            },
    {
        match find_control(catalog, id) {
            None => Err(ControlStateError::UnknownControl(id.to_owned())),
            Some(control) => {
                if !is_accepted(&control.kind, &value) {
                    return Err(
                        ControlStateError::InvalidValue { control: id.to_owned(), value },
                    );
                }
                let _ = self.values.insert(id.to_owned(), value);
                Ok(())
            },
        }
    }

    fn holds_dependency(&self, dependency: &ControlDependency) -> (r: bool)
        ensures
            r == dependency_holds(self@, *dependency),
    {
        match self.values.get(dependency.control.as_str()) {
            None => false,
            Some(value) => match (value, &dependency.value) {
                (ControlValue::Toggle(actual), DependencyValue::Toggle(required)) => *actual
                    == *required,
                (ControlValue::Choice(actual), DependencyValue::Choice(required)) => same_text(
                    actual.as_str(),
                    required.as_str(),
                ),
                _ => false,
            },
        }
    }

    /// Whether a control with this visibility is shown in a frontend.
    pub fn is_spec_visible(&self, visibility: &Visibility, frontend: FrontendMode) -> (r: bool)
        ensures
            r == shown(self@, *visibility, frontend),
    {
        let hidden = &visibility.hidden_modes;
        let mut i: usize = 0;
        while i < hidden.len()
            invariant
                i <= hidden.len(),
                hidden@ == visibility.hidden_modes@,
                forall|j: int| 0 <= j < i ==> hidden@[j] != frontend,
            decreases hidden.len() - i,
        {
            if hidden[i] == frontend {
                assert(visibility.hidden_modes@[i as int] == frontend);
                return false;
            }
            i = i + 1;
        }
        let dependencies = &visibility.dependencies;
        if dependencies.len() == 0 {
            return true;
        }
        let mut any = false;
        let mut all = true;
        let mut i: usize = 0;
        while i < dependencies.len()
            invariant
                i <= dependencies.len(),
                dependencies@ == visibility.dependencies@,
                any == exists|j: int|
                    0 <= j < i && dependency_holds(self@, #[trigger] dependencies@[j]),
                all == forall|j: int|
                    0 <= j < i ==> dependency_holds(self@, #[trigger] dependencies@[j]),
            decreases dependencies.len() - i,
        {
            let holds = self.holds_dependency(&dependencies[i]);
            proof {
                assert(holds == dependency_holds(self@, dependencies@[i as int]));
            }
            any = any || holds;
            all = all && holds;
            i = i + 1;
        }
        match visibility.mode {
            DependencyMode::Any => any,
            DependencyMode::All => all,
        }
    }

    /// Whether the control `id` is shown in a frontend.
    pub fn is_visible(&self, id: &str, frontend: FrontendMode, catalog: &[ControlSpec]) -> (r: bool)
        ensures
            r == match find(catalog@, id@) {
                Some(control) => shown(self@, control.visibility, frontend),
                None => false,
            },
    {
        match find_control(catalog, id) {
            Some(control) => self.is_spec_visible(&control.visibility, frontend),
            None => false,
        }
    }
}

proof fn scope_grows(
    values: Map<Seq<char>, ControlValue>,
    scope: ControlScope,
    catalog: Seq<ControlSpec>,
    n: int,
)
    requires
        0 <= n < catalog.len(),
    ensures
        forall|id: Seq<char>| #[trigger]
            in_scope(catalog.take(n + 1), scope, id) <==> in_scope(catalog.take(n), scope, id) || (
            catalog[n].scope == scope && catalog[n].id@ == id),
{
    let before = catalog.take(n);
    let after = catalog.take(n + 1);
    assert forall|id: Seq<char>| #[trigger] in_scope(after, scope, id) <==> in_scope(
        before,
        scope,
        id,
    ) || (catalog[n].scope == scope && catalog[n].id@ == id) by {
        if in_scope(after, scope, id) {
            let i = choose|i: int|
                0 <= i < after.len() && (#[trigger] after[i]).id@ == id && after[i].scope == scope;
            if i < n {
                assert(before[i] == after[i]);
            }
        }
        if in_scope(before, scope, id) {
            let i = choose|i: int|
                0 <= i < before.len() && (#[trigger] before[i]).id@ == id && before[i].scope
                    == scope;
            assert(after[i] == before[i]);
        }
        assert(after[n] == catalog[n]);
    }
}

/// Why a catalog is refused.
#[derive(Debug, PartialEq, Eq)]
pub enum ControlCatalogError {
    DuplicateId(String),
    MissingDependency { control: String, dependency: String },
    InvalidSlider(String),
    InvalidChoice(String),
}

/// The limits of a slider: finite, the default between them, and a step forward.
pub open spec fn sound_slider(min: Double, max: Double, default: Double, step: Double) -> bool {
    &&& min.finite() && max.finite() && default.finite() && step.finite()
    &&& min.rank() <= default.rank() <= max.rank()
    &&& step.rank() > 0
}

/// The options of a choice: they hold the default, or they come from somewhere.
pub open spec fn sound_choice(
    options: Seq<String>,
    default: Seq<char>,
    source: Option<ChoiceSource>,
) -> bool {
    if options.len() == 0 {
        source is Some
    } else {
        offers(options, default)
    }
}

/// The kind of a control is sound.
pub open spec fn sound_kind(kind: ControlKind) -> bool {
    match kind {
        ControlKind::Toggle { .. } => true,
        ControlKind::Slider { min, max, default, step } => sound_slider(min, max, default, step),
        ControlKind::Choice { options, default, source } => sound_choice(
            options@,
            default@,
            source,
        ),
    }
}

/// An earlier control has the id of the `i`-th.
pub open spec fn repeats(catalog: Seq<ControlSpec>, i: int) -> bool {
    exists|j: int| 0 <= j < i && (#[trigger] catalog[j]).id@ == catalog[i].id@
}

/// The `i`-th control is sound by itself: its id is new and its kind is sound.
pub open spec fn sound_control(catalog: Seq<ControlSpec>, i: int) -> bool {
    !repeats(catalog, i) && sound_kind(catalog[i].kind)
}

/// Some control has this id.
pub open spec fn has_control(catalog: Seq<ControlSpec>, id: Seq<char>) -> bool {
    exists|j: int| 0 <= j < catalog.len() && (#[trigger] catalog[j]).id@ == id
}

/// The `d`-th dependency of the `i`-th control is on a control of the catalog.
pub open spec fn sound_dependency(catalog: Seq<ControlSpec>, i: int, d: int) -> bool {
    has_control(catalog, catalog[i].visibility.dependencies@[d].control@)
}

/// The dependencies of the `i`-th control are on controls of the catalog.
pub open spec fn sound_dependencies(catalog: Seq<ControlSpec>, i: int) -> bool {
    forall|d: int|
        0 <= d < catalog[i].visibility.dependencies@.len() ==> #[trigger] sound_dependency(
            catalog,
            i,
            d,
        )
}

/// The catalog is sound: ids are unique, kinds are sound, and dependencies are on controls of the
/// catalog.
pub open spec fn sound(catalog: Seq<ControlSpec>) -> bool {
    &&& forall|i: int| 0 <= i < catalog.len() ==> #[trigger] sound_control(catalog, i)
    &&& forall|i: int| 0 <= i < catalog.len() ==> #[trigger] sound_dependencies(catalog, i)
}

/// `e` is what the `i`-th control by itself is refused for.
pub open spec fn control_refusal(
    e: ControlCatalogError,
    catalog: Seq<ControlSpec>,
    i: int,
) -> bool {
    let id = catalog[i].id@;
    if repeats(catalog, i) {
        e matches ControlCatalogError::DuplicateId(name) && name@ == id
    } else {
        match catalog[i].kind {
            ControlKind::Slider { .. } => e matches ControlCatalogError::InvalidSlider(name)
                && name@ == id,
            ControlKind::Choice { .. } => e matches ControlCatalogError::InvalidChoice(name)
                && name@ == id,
            ControlKind::Toggle { .. } => false,
        }
    }
}

fn is_sound_kind(kind: &ControlKind) -> (r: bool)
    ensures
        r == sound_kind(*kind),
{
    match kind {
        ControlKind::Toggle { default: _ } => true,
        ControlKind::Slider { min, max, default, step } => {
            let zero = Double {
                bits: 0,
                single: crate::number::Single { bits: 0 },
                percent: crate::number::Single { bits: 0 },
                whole: 0,
                text: crate::number::NumberText { code: 0x1c1 },
            };
            min.is_finite() && max.is_finite() && default.is_finite() && step.is_finite()
                && min.is_at_most(*default) && default.is_at_most(*max) && !step.is_at_most(zero)
        },
        ControlKind::Choice { options, default, source } => if options.len() == 0 {
            source.is_some()
        } else {
            is_offered(options, default.as_str())
        },
    }
}

fn is_repeated(catalog: &[ControlSpec], i: usize) -> (r: bool)
    requires
        i < catalog@.len(),
    ensures
        r == repeats(catalog@, i as int),
{
    let mut j: usize = 0;
    while j < i
        invariant
            j <= i < catalog@.len(),
            forall|k: int| 0 <= k < j ==> (#[trigger] catalog@[k]).id@ != catalog@[i as int].id@,
        decreases i - j,
    {
        if same_text(catalog[j].id.as_str(), catalog[i].id.as_str()) {
            assert(catalog@[j as int].id@ == catalog@[i as int].id@);
            return true;
        }
        j = j + 1;
    }
    false
}

/// Why a catalog is refused: for its first unsound control, else for its first unsound
/// dependency.
pub open spec fn catalog_refused(catalog: Seq<ControlSpec>, e: ControlCatalogError) -> bool {
    match e {
        ControlCatalogError::MissingDependency { control, dependency } => {
            &&& forall|i: int| 0 <= i < catalog.len() ==> #[trigger] sound_control(catalog, i)
            &&& exists|i: int, d: int|
                {
                    &&& 0 <= i < catalog.len()
                    &&& 0 <= d < catalog[i].visibility.dependencies@.len()
                    &&& !(#[trigger] sound_dependency(catalog, i, d))
                    &&& forall|j: int| 0 <= j < i ==> #[trigger] sound_dependencies(catalog, j)
                    &&& forall|c: int| 0 <= c < d ==> #[trigger] sound_dependency(catalog, i, c)
                    &&& control@ == catalog[i].id@
                    &&& dependency@ == catalog[i].visibility.dependencies@[d].control@
                }
        },
        _ => exists|i: int|
            {
                &&& 0 <= i < catalog.len()
                &&& !(#[trigger] sound_control(catalog, i))
                &&& forall|j: int| 0 <= j < i ==> #[trigger] sound_control(catalog, j)
                &&& control_refusal(e, catalog, i)
            },
    }
}

/// Checks a catalog: first every control by itself, then the dependencies. The error is the first
/// thing that is wrong.
pub fn validate(catalog: &[ControlSpec]) -> (r: Result<(), ControlCatalogError>)
    ensures
        match r {
            Ok(()) => sound(catalog@),
            Err(e) => catalog_refused(catalog@, e),
        },
{
    let mut i: usize = 0;
    while i < catalog.len()
        invariant
            i <= catalog.len(),
            forall|j: int| 0 <= j < i ==> #[trigger] sound_control(catalog@, j),
        decreases catalog.len() - i,
    {
        if is_repeated(catalog, i) {
            assert(!sound_control(catalog@, i as int));
            return Err(ControlCatalogError::DuplicateId(catalog[i].id.clone()));
        }
        if !is_sound_kind(&catalog[i].kind) {
            assert(!sound_control(catalog@, i as int));
            match &catalog[i].kind {
                ControlKind::Slider { .. } => {
                    return Err(ControlCatalogError::InvalidSlider(catalog[i].id.clone()));
                },
                _ => {
                    return Err(ControlCatalogError::InvalidChoice(catalog[i].id.clone()));
                },
            }
        }
        assert(sound_control(catalog@, i as int));
        i = i + 1;
    }
    let mut i: usize = 0;
    while i < catalog.len()
        invariant
            i <= catalog.len(),
            forall|j: int| 0 <= j < catalog@.len() ==> #[trigger] sound_control(catalog@, j),
            forall|j: int| 0 <= j < i ==> #[trigger] sound_dependencies(catalog@, j),
        decreases catalog.len() - i,
    {
        let dependencies = &catalog[i].visibility.dependencies;
        let mut d: usize = 0;
        while d < dependencies.len()
            invariant
                i < catalog.len(),
                d <= dependencies.len(),
                dependencies@ == catalog@[i as int].visibility.dependencies@,
                forall|j: int| 0 <= j < catalog@.len() ==> #[trigger] sound_control(catalog@, j),
                forall|j: int| 0 <= j < i ==> #[trigger] sound_dependencies(catalog@, j),
                forall|c: int| 0 <= c < d ==> #[trigger] sound_dependency(catalog@, i as int, c),
            decreases dependencies.len() - d,
        {
            let name: &String = &dependencies[d].control;
            proof {
                found_control_is_listed(catalog@, name@);
            }
            if find_control(catalog, name.as_str()).is_none() {
                assert(!sound_dependency(catalog@, i as int, d as int));
                return Err(
                    ControlCatalogError::MissingDependency {
                        control: catalog[i].id.clone(),
                        dependency: name.clone(),
                    },
                );
            }
            proof {
                let control = find(catalog@, name@)->0;
                let k = choose|k: int| 0 <= k < catalog@.len() && catalog@[k] == control;
                assert(catalog@[k].id@ == name@);
                assert(sound_dependency(catalog@, i as int, d as int));
            }
            d = d + 1;
        }
        assert(sound_dependencies(catalog@, i as int));
        i = i + 1;
    }
    Ok(())
}

/// The catalog, if it is sound.
pub fn control_catalog(controls: Vec<ControlSpec>) -> (r: Result<
    Vec<ControlSpec>,
    ControlCatalogError,
>)
    ensures
        match r {
            Ok(catalog) => sound(controls@) && catalog == controls,
            Err(e) => !sound(controls@) && catalog_refused(controls@, e),
        },
{
    match validate(controls.as_slice()) {
        Ok(()) => Ok(controls),
        Err(e) => {
            proof {
                not_sound(controls@);
            }
            Err(e)
        },
    }
}

proof fn not_sound(catalog: Seq<ControlSpec>)
    ensures
        (exists|i: int| 0 <= i < catalog.len() && !(#[trigger] sound_control(catalog, i)))
            ==> !sound(catalog),
        (exists|i: int, d: int|
            0 <= i < catalog.len() && 0 <= d < catalog[i].visibility.dependencies@.len() && !(
            #[trigger] sound_dependency(catalog, i, d))) ==> !sound(catalog),
{
    if exists|i: int, d: int|
        0 <= i < catalog.len() && 0 <= d < catalog[i].visibility.dependencies@.len() && !(
        #[trigger] sound_dependency(catalog, i, d)) {
        let (i, d) = choose|i: int, d: int|
            0 <= i < catalog.len() && 0 <= d < catalog[i].visibility.dependencies@.len() && !(
            #[trigger] sound_dependency(catalog, i, d));
        assert(!sound_dependencies(catalog, i));
    }
}

/// The ids of a sound catalog are unique.
pub proof fn sound_ids_are_unique(catalog: Seq<ControlSpec>)
    requires
        sound(catalog),
    ensures
        unique_ids(catalog),
{
    assert forall|i: int, j: int| 0 <= i < j < catalog.len() implies (#[trigger] catalog[i]).id@ != (
    #[trigger] catalog[j]).id@ by {
        assert(sound_control(catalog, j));
    }
}

/// The defaults of a sound catalog are values that its controls can have.
pub proof fn sound_defaults_fit(catalog: Seq<ControlSpec>, i: int)
    requires
        sound(catalog),
        0 <= i < catalog.len(),
    ensures
        default_fits(catalog, i),
{
    sound_ids_are_unique(catalog);
    control_is_found(catalog, i);
    assert(sound_control(catalog, i));
}

proof fn defaults_of_unique_ids(catalog: Seq<ControlSpec>, n: nat)
    requires
        unique_ids(catalog),
        n <= catalog.len(),
    ensures
        defaults(catalog, n).dom().finite(),
        defaults(catalog, n).dom().len() == n,
        forall|id: Seq<char>| #[trigger]
            defaults(catalog, n).dom().contains(id) <==> exists|i: int|
                0 <= i < n && (#[trigger] catalog[i]).id@ == id,
        forall|i: int|
            0 <= i < n ==> defaults(catalog, n)[(#[trigger] catalog[i]).id@] == default_of(
                catalog[i].kind,
            ),
    decreases n,
{
    if n > 0 {
        let m = (n - 1) as nat;
        defaults_of_unique_ids(catalog, m);
        let id = catalog[m as int].id@;
        let before = defaults(catalog, m);
        let after = defaults(catalog, n);
        assert(!before.dom().contains(id));
        assert(after.dom() =~= before.dom().insert(id));
        assert forall|k: Seq<char>| #[trigger] after.dom().contains(k) <==> exists|i: int|
            0 <= i < n && (#[trigger] catalog[i]).id@ == k by {
            if before.dom().contains(k) {
                let i = choose|i: int| 0 <= i < m && (#[trigger] catalog[i]).id@ == k;
                assert(catalog[i].id@ == k);
            }
            if k == id {
                assert(catalog[m as int].id@ == k);
            }
        }
        assert forall|i: int| 0 <= i < n implies after[(#[trigger] catalog[i]).id@] == default_of(
            catalog[i].kind,
        ) by {
            if i < m {
                assert(catalog[i].id@ != catalog[m as int].id@);
            }
        }
    }
}

/// The values that a sound catalog gives by default are complete.
pub proof fn fresh_values_are_complete(
    catalog: Seq<ControlSpec>,
    entries: Seq<(Seq<char>, ControlValue)>,
)
    requires
        sound(catalog),
        ascending(entries),
        map_of(entries) == defaults(catalog, catalog.len()),
    ensures
        complete(entries, catalog),
{
    sound_ids_are_unique(catalog);
    defaults_of_unique_ids(catalog, catalog.len());
    map_size(entries);
    assert forall|i: int| 0 <= i < entries.len() implies fits(
        catalog,
        (#[trigger] entries[i]).0,
        entries[i].1,
    ) by {
        entry_is_unique(entries, i);
        let id = entries[i].0;
        let k = choose|k: int| 0 <= k < catalog.len() && (#[trigger] catalog[k]).id@ == id;
        assert(catalog[k].id@ == id);
        control_is_found(catalog, k);
        sound_defaults_fit(catalog, k);
    }
}

/// The defaults are for the ids of controls, and there are no more of them than controls.
proof fn defaults_are_for_controls(catalog: Seq<ControlSpec>, n: nat)
    requires
        n <= catalog.len(),
    ensures
        defaults(catalog, n).dom().finite(),
        defaults(catalog, n).dom().len() <= n,
        forall|i: int|
            0 <= i < n ==> defaults(catalog, n).dom().contains((#[trigger] catalog[i]).id@),
    decreases n,
{
    if n > 0 {
        let m = (n - 1) as nat;
        defaults_are_for_controls(catalog, m);
        assert(defaults(catalog, n).dom() =~= defaults(catalog, m).dom().insert(
            catalog[m as int].id@,
        ));
    }
}

/// Complete values are there for every control of the catalog, and for nothing else.
pub proof fn complete_values_are_for_controls(
    catalog: Seq<ControlSpec>,
    entries: Seq<(Seq<char>, ControlValue)>,
)
    requires
        complete(entries, catalog),
        ascending(entries),
    ensures
        map_of(entries).dom() == defaults(catalog, catalog.len()).dom(),
        forall|id: Seq<char>| #[trigger]
            map_of(entries).dom().contains(id) ==> fits(catalog, id, map_of(entries)[id]),
{
    let keys = map_of(entries).dom();
    let ids = defaults(catalog, catalog.len()).dom();
    map_size(entries);
    defaults_are_for_controls(catalog, catalog.len());
    assert forall|id: Seq<char>| #[trigger] keys.contains(id) implies ids.contains(id) && fits(
        catalog,
        id,
        map_of(entries)[id],
    ) by {
        let i = place_of(entries, id);
        assert(entries[i].0 == id);
        entry_is_unique(entries, i);
        found_control_is_listed(catalog, id);
        let k = catalog.index_of(find(catalog, id)->0);
        assert(catalog[k].id@ == id);
    }
    vstd::set_lib::lemma_len_subset(keys, ids);
    vstd::set_lib::lemma_subset_equality(keys, ids);
}

/// What a value is written as is read back as that value, by a control that can have it.
pub proof fn plain_json_reads_back(kind: ControlKind, value: ControlValue)
    requires
        accepts(kind, value),
    ensures
        plain_value(kind, plain_json(value)) == Some(value),
{
}

/// What a document says of controls are values that they can have. What it says beyond that names
/// no control.
pub open spec fn writes(
    document: Map<Seq<char>, Json>,
    values: Map<Seq<char>, ControlValue>,
    catalog: Seq<ControlSpec>,
) -> bool {
    forall|id: Seq<char>| #[trigger]
        document.dom().contains(id) ==> find(catalog, id) is None || {
            &&& values.dom().contains(id)
            &&& document[id] == plain_json(values[id])
            &&& fits(catalog, id, values[id])
        }
}

/// A document that is read gives every control that it names the value that was written, and
/// leaves the others alone.
pub proof fn written_values_are_read(
    values: Map<Seq<char>, ControlValue>,
    target: Map<Seq<char>, ControlValue>,
    entries: Seq<(Seq<char>, Json)>,
    catalog: Seq<ControlSpec>,
    n: nat,
)
    requires
        ascending(entries),
        writes(map_of(entries), values, catalog),
        n <= entries.len(),
    ensures
        plain_accepted(entries, catalog, n as int),
        forall|id: Seq<char>| #[trigger]
            plain_applied(target, entries, catalog, n).dom().contains(id) <==> target.dom().contains(
                id,
            ) || (map_of(entries.take(n as int)).dom().contains(id) && find(catalog, id) is Some),
        forall|id: Seq<char>| #[trigger]
            plain_applied(target, entries, catalog, n).dom().contains(id) ==> plain_applied(
                target,
                entries,
                catalog,
                n,
            )[id] == if map_of(entries.take(n as int)).dom().contains(id) && find(catalog, id)
                is Some {
                values[id]
            } else {
                target[id]
            },
    decreases n,
{
    if n == 0 {
        assert(map_of(entries.take(0)).dom() =~= Set::<Seq<char>>::empty());
    } else {
        let m = (n - 1) as nat;
        written_values_are_read(values, target, entries, catalog, m);
        map_grows(entries, m as int);
        entry_is_unique(entries, m as int);
        let id = entries[m as int].0;
        let json = entries[m as int].1;
        assert(map_of(entries).dom().contains(id));
        if find(catalog, id) is Some {
            assert(json == plain_json(values[id]));
            assert(fits(catalog, id, values[id]));
            let control = find(catalog, id)->0;
            plain_json_reads_back(control.kind, values[id]);
            assert(plain_entry(catalog, id, json) == PlainEntry::Value(values[id]));
        } else {
            assert(plain_entry(catalog, id, json) == PlainEntry::Skipped);
        }
        assert forall|i: int| 0 <= i < n implies !(plain_entry(
            catalog,
            (#[trigger] entries[i]).0,
            entries[i].1,
        ) is Refused) by {
            if i < m {
                assert(plain_accepted(entries, catalog, m as int));
            }
        }
        let before = plain_applied(target, entries, catalog, m);
        let after = plain_applied(target, entries, catalog, n);
        let front = map_of(entries.take(m as int));
        let whole = map_of(entries.take(n as int));
        assert(after == if find(catalog, id) is Some {
            before.insert(id, values[id])
        } else {
            before
        });
        assert(whole == front.insert(id, json));
        assert forall|k: Seq<char>| #[trigger] after.dom().contains(k) <==> target.dom().contains(k)
            || (whole.dom().contains(k) && find(catalog, k) is Some) by {
            assert(before.dom().contains(k) <==> target.dom().contains(k) || (front.dom().contains(
                k,
            ) && find(catalog, k) is Some));
        }
        assert forall|k: Seq<char>| #[trigger] after.dom().contains(k) implies after[k]
            == if whole.dom().contains(k) && find(catalog, k) is Some {
            values[k]
        } else {
            target[k]
        } by {
            if k != id {
                assert(before.dom().contains(k));
            }
        }
    }
}

/// A scope that was written out and is read back gives every one of its controls the value it
/// had, whatever values the reader starts from, and leaves the others alone.
pub proof fn scope_reads_back(
    values: Map<Seq<char>, ControlValue>,
    target: Map<Seq<char>, ControlValue>,
    entries: Seq<(Seq<char>, Json)>,
    scope: ControlScope,
    catalog: Seq<ControlSpec>,
    id: Seq<char>,
)
    requires
        ascending(entries),
        map_of(entries) == scope_json(values, scope, catalog),
        forall|k: Seq<char>| #[trigger] values.dom().contains(k) ==> fits(catalog, k, values[k]),
    ensures
        plain_accepted(entries, catalog, entries.len() as int),
        ({
            let read = plain_applied(target, entries, catalog, entries.len());
            &&& values.dom().contains(id) && in_scope(catalog, scope, id)
                ==> read.dom().contains(id) && read[id] == values[id]
            &&& !(values.dom().contains(id) && in_scope(catalog, scope, id)) ==> (
            read.dom().contains(id) <==> target.dom().contains(id)) && (target.dom().contains(id)
                ==> read[id] == target[id])
        }),
{
    assert(writes(map_of(entries), values, catalog));
    written_values_are_read(values, target, entries, catalog, entries.len());
    assert(entries.take(entries.len() as int) =~= entries);
    let read = plain_applied(target, entries, catalog, entries.len());
    assert(scope_json(values, scope, catalog).dom().contains(id) <==> values.dom().contains(id)
        && in_scope(catalog, scope, id));
    assert(read.dom().contains(id) <==> target.dom().contains(id) || map_of(
        entries,
    ).dom().contains(id));
}

/// A slider takes the finite numbers from its least to its largest, a toggle takes toggles, and a
/// choice takes what it offers, or anything where it is filled from elsewhere.
pub proof fn controls_take_their_own_values(kind: ControlKind, value: ControlValue)
    ensures
        kind is Toggle ==> (accepts(kind, value) <==> value is Toggle),
        (kind, value) matches (ControlKind::Slider { min, max, .. }, ControlValue::Slider(d)) ==> (
        min.finite() && max.finite() ==> (accepts(kind, value) <==> d.finite() && double_worth(
            min.bits,
        ) <= double_worth(d.bits) && double_worth(d.bits) <= double_worth(max.bits))),
        kind is Slider && accepts(kind, value) ==> value is Slider,
        kind is Choice && accepts(kind, value) ==> value is Choice,
        (kind, value) matches (
            ControlKind::Choice { options, source, .. },
            ControlValue::Choice(s),
        ) ==> {
            &&& options@.len() > 0 ==> (accepts(kind, value) <==> exists|i: int|
                0 <= i < options@.len() && (#[trigger] options@[i])@ == s@)
            &&& options@.len() == 0 ==> (accepts(kind, value) <==> source is Some)
        },
{
    if let (ControlKind::Slider { min, max, .. }, ControlValue::Slider(d)) = (kind, value) {
        doubles_are_compared_by_worth(min, d);
        doubles_are_compared_by_worth(d, max);
        doubles_are_compared_by_worth(max, d);
    }
}

/// A control is never shown by a front end from which it is hidden, and always by another where it
/// hangs on nothing.
pub proof fn hidden_controls_are_not_shown(
    values: Map<Seq<char>, ControlValue>,
    visibility: Visibility,
    frontend: FrontendMode,
)
    ensures
        visibility.hidden_modes@.contains(frontend) ==> !shown(values, visibility, frontend),
        !visibility.hidden_modes@.contains(frontend) && visibility.dependencies@.len() == 0
            ==> shown(values, visibility, frontend),
{
}

/// Where a control hangs on one other, it is shown exactly while that has the value it is bound to,
/// whether one or all have to hold. Where it hangs on several, all of them have to hold, or one.
pub proof fn bound_controls_are_shown(
    values: Map<Seq<char>, ControlValue>,
    visibility: Visibility,
    frontend: FrontendMode,
    d: int,
)
    requires
        !visibility.hidden_modes@.contains(frontend),
        0 <= d < visibility.dependencies@.len(),
        values.dom().contains(visibility.dependencies@[d].control@),
    ensures
        visibility.mode is All && shown(values, visibility, frontend) ==> match (
            values[visibility.dependencies@[d].control@],
            visibility.dependencies@[d].value,
        ) {
            (ControlValue::Toggle(on), DependencyValue::Toggle(wanted)) => on == wanted,
            (ControlValue::Choice(text), DependencyValue::Choice(wanted)) => text@ == wanted@,
            _ => false,
        },
        visibility.mode is Any && (match (
            values[visibility.dependencies@[d].control@],
            visibility.dependencies@[d].value,
        ) {
            (ControlValue::Toggle(on), DependencyValue::Toggle(wanted)) => on == wanted,
            (ControlValue::Choice(text), DependencyValue::Choice(wanted)) => text@ == wanted@,
            _ => false,
        }) ==> shown(values, visibility, frontend),
        visibility.dependencies@.len() == 1 ==> (shown(values, visibility, frontend) <==> match (
            values[visibility.dependencies@[d].control@],
            visibility.dependencies@[d].value,
        ) {
            (ControlValue::Toggle(on), DependencyValue::Toggle(wanted)) => on == wanted,
            (ControlValue::Choice(text), DependencyValue::Choice(wanted)) => text@ == wanted@,
            _ => false,
        }),
{
    assert(dependency_holds(values, visibility.dependencies@[d]) || !dependency_holds(
        values,
        visibility.dependencies@[d],
    ));
    if visibility.dependencies@.len() == 1 {
        assert(visibility.dependencies@[0] == visibility.dependencies@[d]);
    }
}

/// Every control that another one depends on is in the catalog, every slider starts in its range,
/// moves by a step above zero, and every choice with options starts at one of them.
pub proof fn sound_controls_are_usable(catalog: Seq<ControlSpec>, i: int, d: int)
    requires
        sound(catalog),
        0 <= i < catalog.len(),
    ensures
        0 <= d < catalog[i].visibility.dependencies@.len() ==> exists|j: int|
            0 <= j < catalog.len() && (#[trigger] catalog[j]).id@
                == catalog[i].visibility.dependencies@[d].control@,
        catalog[i].kind matches ControlKind::Slider { min, max, default, step } ==> min.at_most(
            default,
        ) && default.at_most(max) && 0 < step.bits < 0x7ff0_0000_0000_0000,
        catalog[i].kind matches ControlKind::Choice { options, default, source }
            ==> if options@.len() == 0 {
            source is Some
        } else {
            exists|k: int| 0 <= k < options@.len() && (#[trigger] options@[k])@ == default@
        },
{
    assert(sound_control(catalog, i));
    assert(sound_dependencies(catalog, i));
    if 0 <= d < catalog[i].visibility.dependencies@.len() {
        assert(sound_dependency(catalog, i, d));
    }
}

} // verus!
