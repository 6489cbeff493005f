//! The registry: live control state keyed by logical binding, the
//! routing from raw inputs to bindings, per-input default deltas, and
//! the per-frame tick that advances every control.

use vstd::prelude::*;
use vstd::std_specs::cmp::PartialEqSpec;
use crate::axis::Axis;
use crate::axis::IAxis;
use crate::button::Button;
use crate::button::IButton;
use crate::change::AxisChange;
use crate::change::ButtonChange;
use crate::keys::equatable;
use crate::list_map::ListMap;
use crate::list_map::distinct_keys;
use crate::list_map::has_key;
use crate::list_map::map_of;
use crate::list_map::lemma_map_of_dom;
use crate::list_map::lemma_map_of_first;

verus! {

/// A delta for some control, of whichever kind.
#[derive(Clone, Copy, PartialEq, Eq, Structural, Debug)]
pub enum Change {
    Axis(AxisChange),
    Button(ButtonChange),
}

impl From<AxisChange> for Change {
    /// Wraps an axis delta.
    fn from(change: AxisChange) -> (r: Change)
        ensures
            r == Change::Axis(change),
    {
        Change::Axis(change)
    }
}

impl vstd::std_specs::convert::FromSpecImpl<AxisChange> for Change {
    open spec fn obeys_from_spec() -> bool {
        true
    }

    open spec fn from_spec(change: AxisChange) -> Change {
        Change::Axis(change)
    }
}

impl From<ButtonChange> for Change {
    /// Wraps a button delta.
    fn from(change: ButtonChange) -> (r: Change)
        ensures
            r == Change::Button(change),
    {
        Change::Button(change)
    }
}

impl vstd::std_specs::convert::FromSpecImpl<ButtonChange> for Change {
    open spec fn obeys_from_spec() -> bool {
        true
    }

    open spec fn from_spec(change: ButtonChange) -> Change {
        Change::Button(change)
    }
}

/// Which logical control a raw input routes to: an axis known to the
/// host as `A`, or a button known as `B`.
#[derive(Eq, Clone, Copy, Debug)]
pub enum Binding<A, B> {
    Axis(A),
    Button(B),
}

impl<A: PartialEq, B: PartialEq> PartialEq for Binding<A, B> {
    fn eq(&self, other: &Self) -> bool {
        match (self, other) {
            (Binding::Axis(x), Binding::Axis(y)) => x == y,
            (Binding::Button(x), Binding::Button(y)) => x == y,
            _ => false,
        }
    }
}

impl<A: PartialEq, B: PartialEq> vstd::std_specs::cmp::PartialEqSpecImpl for Binding<A, B> {
    open spec fn obeys_eq_spec() -> bool {
        A::obeys_eq_spec() && B::obeys_eq_spec()
    }

    open spec fn eq_spec(&self, other: &Self) -> bool {
        match (self, other) {
            (Binding::Axis(x), Binding::Axis(y)) => x.eq_spec(y),
            (Binding::Button(x), Binding::Button(y)) => x.eq_spec(y),
            _ => false,
        }
    }
}

/// Equatable axis and button keys make the binding equatable.
pub proof fn lemma_binding_equatable<A: PartialEq, B: PartialEq>()
    requires
        equatable::<A>(),
        equatable::<B>(),
    ensures
        equatable::<Binding<A, B>>(),
{
    assert forall|x: Binding<A, B>, y: Binding<A, B>| #[trigger] x.eq_spec(&y) <==> x == y by {
        match (x, y) {
            (Binding::Axis(a), Binding::Axis(b)) => {
                assert(a.eq_spec(&b) <==> a == b);
            },
            (Binding::Button(a), Binding::Button(b)) => {
                assert(a.eq_spec(&b) <==> a == b);
            },
            _ => {},
        }
    }
}

/// The live state of one control.
#[derive(Clone, Copy, PartialEq, Eq, Structural, Debug)]
pub enum State {
    Axis(Axis),
    Button(Button),
}

/// The delta fits the control it is aimed at.
pub open spec fn kind_matches(s: State, change: Change) -> bool {
    match (s, change) {
        (State::Axis(_), Change::Axis(_)) => true,
        (State::Button(_), Change::Button(_)) => true,
        _ => false,
    }
}

/// One control after absorbing a delta of its own kind.
pub open spec fn state_applied(s: State, change: Change) -> State {
    match (s, change) {
        (State::Axis(a), Change::Axis(c)) => State::Axis(a.applied(c)),
        (State::Button(b), Change::Button(c)) => State::Button(b.applied(c)),
        _ => s,
    }
}

/// One control after one frame of `ms` milliseconds.
pub open spec fn state_ticked(s: State, ms: u64) -> State {
    match s {
        State::Axis(a) => State::Axis(a.ticked(ms)),
        State::Button(b) => State::Button(b.ticked()),
    }
}

/// A live store after dispatching `change` to the control at
/// `binding`; a binding without live state absorbs nothing.
pub open spec fn states_applied<A, B>(
    m: Map<Binding<A, B>, State>,
    binding: Binding<A, B>,
    change: Change,
) -> Map<Binding<A, B>, State> {
    if m.dom().contains(binding) {
        m.insert(binding, state_applied(m[binding], change))
    } else {
        m
    }
}

/// A live store after one frame: every control advances once, under
/// the same elapsed time.
pub open spec fn states_ticked<A, B>(m: Map<Binding<A, B>, State>, ms: u64) -> Map<
    Binding<A, B>,
    State,
> {
    Map::new(|b: Binding<A, B>| m.dom().contains(b), |b: Binding<A, B>| state_ticked(m[b], ms))
}

/// The button entry an all-buttons walk reports for one stored
/// control: its key and state when it is a button whose edge fired.
spec fn changed_entry<A, B>(p: (Binding<A, B>, State)) -> Option<(B, Button)> {
    match (p.0, p.1) {
        (Binding::Button(k), State::Button(b)) => if b.new_event {
            Some((k, b))
        } else {
            None
        },
        _ => None,
    }
}

/// Some entry among the first `bound` of `kv` reports `p`.
spec fn changed_from_prefix<A, B>(
    kv: Seq<(Binding<A, B>, State)>,
    p: (B, Button),
    bound: int,
) -> bool {
    exists|t: int| 0 <= t < bound && changed_entry(#[trigger] kv[t]) == Some(p)
}

/// What a manager holds, seen as three maps.
#[verifier::ext_equal]
#[verifier::reject_recursive_types(A)]
#[verifier::reject_recursive_types(B)]
#[verifier::reject_recursive_types(C)]
pub struct ManagerView<A, B, C> {
    /// Live control state by logical binding.
    pub states: Map<Binding<A, B>, State>,
    /// Routing from raw input to logical binding.
    pub bindings: Map<C, Binding<A, B>>,
    /// Advisory at-rest delta by raw input.
    pub defaults: Map<C, Change>,
}

impl<A, B, C> ManagerView<A, B, C> {
    /// A manager with nothing registered.
    pub open spec fn empty() -> Self {
        ManagerView { states: Map::empty(), bindings: Map::empty(), defaults: Map::empty() }
    }

    /// After routing `input` to the axis `axis`: the route is
    /// inserted, and live state for the axis is created only if none
    /// exists yet.
    pub open spec fn bound_axis(self, axis: A, input: C) -> Self {
        ManagerView {
            bindings: self.bindings.insert(input, Binding::Axis(axis)),
            states: if self.states.dom().contains(Binding::Axis(axis)) {
                self.states
            } else {
                self.states.insert(Binding::Axis(axis), State::Axis(Axis::spec_default()))
            },
            ..self
        }
    }

    /// After routing `input` to the button `button`; live state is
    /// created only if none exists yet.
    pub open spec fn bound_button(self, button: B, input: C) -> Self {
        ManagerView {
            bindings: self.bindings.insert(input, Binding::Button(button)),
            states: if self.states.dom().contains(Binding::Button(button)) {
                self.states
            } else {
                self.states.insert(Binding::Button(button), State::Button(Button::spec_default()))
            },
            ..self
        }
    }

    /// After recording `change` as the default delta for `input`.
    pub open spec fn with_default(self, change: Change, input: C) -> Self {
        ManagerView { defaults: self.defaults.insert(input, change), ..self }
    }

    /// After dispatching `change` to the control live at `binding`; a
    /// binding without live state absorbs nothing.
    pub open spec fn applied(self, binding: Binding<A, B>, change: Change) -> Self {
        ManagerView { states: states_applied(self.states, binding, change), ..self }
    }

    /// After one frame: every live control advances once, under the
    /// same elapsed time.
    pub open spec fn ticked(self, ms: u64) -> Self {
        ManagerView { states: states_ticked(self.states, ms), ..self }
    }

    /// The route registered for a raw input, if any.
    pub open spec fn binding_of(self, input: C) -> Option<Binding<A, B>> {
        if self.bindings.dom().contains(input) {
            Some(self.bindings[input])
        } else {
            None
        }
    }

    /// The default delta recorded for a raw input, if any.
    pub open spec fn default_of(self, input: C) -> Option<Change> {
        if self.defaults.dom().contains(input) {
            Some(self.defaults[input])
        } else {
            None
        }
    }

    /// The axis live under `key`: `None` when the key was never bound
    /// or its binding holds a control of the other kind.
    pub open spec fn axis_of(self, key: A) -> Option<Axis> {
        axis_in(self.states, key)
    }

    /// The button live under `key`, under the same rules as `axis_of`.
    pub open spec fn button_of(self, key: B) -> Option<Button> {
        button_in(self.states, key)
    }

    /// Exactly the bound buttons whose edge pulse is up.
    pub open spec fn changed_buttons(self) -> Map<B, Button> {
        changed_buttons_in(self.states)
    }

    /// Whether `key`'s button was pressed just this frame: its level
    /// is down and its edge pulse is still up.
    pub open spec fn button_pressed(self, key: B) -> bool {
        button_pressed_in(self.states, key)
    }
}

/// The axis a live store holds under `key`: `None` when the key was
/// never bound or its binding holds a control of the other kind.
pub open spec fn axis_in<A, B>(m: Map<Binding<A, B>, State>, key: A) -> Option<Axis> {
    if m.dom().contains(Binding::Axis(key)) {
        match m[Binding::Axis(key)] {
            State::Axis(a) => Some(a),
            State::Button(_) => None,
        }
    } else {
        None
    }
}

/// The button a live store holds under `key`, under the same rules as
/// `axis_in`.
pub open spec fn button_in<A, B>(m: Map<Binding<A, B>, State>, key: B) -> Option<Button> {
    if m.dom().contains(Binding::Button(key)) {
        match m[Binding::Button(key)] {
            State::Button(b) => Some(b),
            State::Axis(_) => None,
        }
    } else {
        None
    }
}

/// Exactly the bound buttons of a live store whose edge pulse is up.
pub open spec fn changed_buttons_in<A, B>(m: Map<Binding<A, B>, State>) -> Map<B, Button> {
    Map::new(
        |k: B| button_in(m, k) matches Some(b) && b.new_event,
        |k: B|
            match button_in(m, k) {
                Some(b) => b,
                None => Button::spec_default(),
            },
    )
}

/// Whether a live store's button under `key` was pressed just this
/// frame: its level is down and its edge pulse is still up.
pub open spec fn button_pressed_in<A, B>(m: Map<Binding<A, B>, State>, key: B) -> bool {
    match button_in(m, key) {
        Some(b) => b.pressed && b.new_event,
        None => false,
    }
}

/// Reading logical state out of a registry. Implementations expose
/// their live store as the map `states_model`; `inv` is their
/// well-formedness and `keys_fine` what they ask of the host's key
/// comparisons.
pub trait IManager<A, B, C>: Sized {
    spec fn states_model(&self) -> Map<Binding<A, B>, State>;

    spec fn inv(&self) -> bool;

    spec fn keys_fine() -> bool;

    fn new() -> (r: Self)
        ensures
            r.inv(),
            r.states_model() == Map::<Binding<A, B>, State>::empty(),
    ;

    fn get_axis(&self, binding: A) -> (r: Option<&Axis>)
        requires
            Self::keys_fine(),
        ensures
            axis_in(self.states_model(), binding) matches Some(a) ==> r matches Some(x) && *x
                == a,
            axis_in(self.states_model(), binding) is None ==> r is None,
    ;

    fn get_button(&self, binding: B) -> (r: Option<&Button>)
        requires
            Self::keys_fine(),
        ensures
            button_in(self.states_model(), binding) matches Some(b) ==> r matches Some(x) && *x
                == b,
            button_in(self.states_model(), binding) is None ==> r is None,
    ;

    fn get_states(&self) -> (r: &ListMap<Binding<A, B>, State>)
        ensures
            r@ == self.states_model(),
            self.inv() ==> r.wf(),
    ;

    fn get_changed_buttons(&self) -> (r: Vec<(B, Button)>)
        requires
            self.inv(),
        ensures
            distinct_keys(r@),
            map_of(r@) == changed_buttons_in(self.states_model()),
    ;

    fn get_button_pressed(&self, button: B) -> (r: bool)
        requires
            Self::keys_fine(),
        ensures
            r == button_pressed_in(self.states_model(), button),
    ;
}

/// Maintaining a registry's raw-input routing and default deltas.
/// Implementations expose their whole content as the `model` view.
pub trait IConverter<A, B, C> {
    spec fn model(&self) -> ManagerView<A, B, C>;

    spec fn inv(&self) -> bool;

    spec fn keys_fine() -> bool;

    fn add_axis_binding(&mut self, axis: A, input: C)
        requires
            Self::keys_fine(),
            old(self).inv(),
        ensures
            final(self).inv(),
            final(self).model() == old(self).model().bound_axis(axis, input),
    ;

    fn get_binding(&self, input: C) -> (r: Option<Binding<A, B>>)
        requires
            Self::keys_fine(),
        ensures
            r == self.model().binding_of(input),
    ;

    fn add_button_binding(&mut self, button: B, input: C)
        requires
            Self::keys_fine(),
            old(self).inv(),
        ensures
            final(self).inv(),
            final(self).model() == old(self).model().bound_button(button, input),
    ;

    fn get_default_change(&self, input: C) -> (r: Option<Change>)
        requires
            Self::keys_fine(),
        ensures
            r == self.model().default_of(input),
    ;

    fn add_default_change(&mut self, change: Change, input: C)
        requires
            Self::keys_fine(),
            old(self).inv(),
        ensures
            final(self).inv(),
            final(self).model() == old(self).model().with_default(change, input),
    ;
}

/// Feeding deltas and frames into a registry's live store, exposed as
/// the map `states_model`.
pub trait IUpdater<A, B> {
    spec fn states_model(&self) -> Map<Binding<A, B>, State>;

    spec fn inv(&self) -> bool;

    spec fn keys_fine() -> bool;

    fn tick(&mut self, ms: u64)
        requires
            old(self).inv(),
        ensures
            final(self).inv(),
            final(self).states_model() == states_ticked(old(self).states_model(), ms),
    ;

    fn apply_change(&mut self, binding: &Binding<A, B>, change: Change)
        requires
            Self::keys_fine(),
            old(self).inv(),
            old(self).states_model().dom().contains(*binding) ==> kind_matches(
                old(self).states_model()[*binding],
                change,
            ),
        ensures
            final(self).inv(),
            final(self).states_model() == states_applied(old(self).states_model(), *binding, change),
    ;
}

/// The registry: owns all live control state, the raw-input routing,
/// and the per-input default deltas.
#[derive(Debug)]
pub struct Manager<A, B, C> {
    states: ListMap<Binding<A, B>, State>,
    bindings: ListMap<C, Binding<A, B>>,
    default_changes: ListMap<C, Change>,
}

impl<A, B, C> Manager<A, B, C> {
    /// The three registries never store a key twice.
    pub closed spec fn wf(self) -> bool {
        self.states.wf() && self.bindings.wf() && self.default_changes.wf()
    }
}

impl<A, B, C> View for Manager<A, B, C> {
    type V = ManagerView<A, B, C>;

    closed spec fn view(&self) -> ManagerView<A, B, C> {
        ManagerView {
            states: self.states@,
            bindings: self.bindings@,
            defaults: self.default_changes@,
        }
    }
}

impl<A: PartialEq + Eq + Copy, B: PartialEq + Eq + Copy, C: PartialEq + Eq> Manager<A, B, C> {
    /// Routes `input` to the axis `axis`, creating live state for it
    /// only when the axis was never bound before.
    pub fn add_axis_binding(&mut self, axis: A, input: C)
        requires
            equatable::<A>(),
            equatable::<B>(),
            equatable::<C>(),
            old(self).wf(),
        ensures
            final(self).wf(),
            final(self)@ == old(self)@.bound_axis(axis, input),
    {
        proof {
            lemma_binding_equatable::<A, B>();
        }
        let binding = Binding::Axis(axis);
        self.bindings.insert(input, binding);
        if !self.states.contains_key(&binding) {
            self.states.insert(binding, State::Axis(Axis::default()));
        }
        proof {
            assert(self@ =~= old(self)@.bound_axis(axis, input));
        }
    }

    /// Routes `input` to the button `button`, creating live state for
    /// it only when the button was never bound before.
    pub fn add_button_binding(&mut self, button: B, input: C)
        requires
            equatable::<A>(),
            equatable::<B>(),
            equatable::<C>(),
            old(self).wf(),
        ensures
            final(self).wf(),
            final(self)@ == old(self)@.bound_button(button, input),
    {
        proof {
            lemma_binding_equatable::<A, B>();
        }
        let binding = Binding::Button(button);
        self.bindings.insert(input, binding);
        if !self.states.contains_key(&binding) {
            self.states.insert(binding, State::Button(Button::default()));
        }
        proof {
            assert(self@ =~= old(self)@.bound_button(button, input));
        }
    }

    /// Records `change` as the default delta for `input`, replacing
    /// any earlier one.
    pub fn add_default_change(&mut self, change: Change, input: C)
        requires
            equatable::<C>(),
            old(self).wf(),
        ensures
            final(self).wf(),
            final(self)@ == old(self)@.with_default(change, input),
    {
        self.default_changes.insert(input, change);
        proof {
            assert(self@ =~= old(self)@.with_default(change, input));
        }
    }

    /// The route registered for `input`, if any.
    pub fn get_binding(&self, input: C) -> (r: Option<Binding<A, B>>)
        requires
            equatable::<C>(),
        ensures
            r == self@.binding_of(input),
    {
        match self.bindings.get(&input) {
            Some(b) => Some(*b),
            None => None,
        }
    }

    /// The default delta recorded for `input`, if any.
    pub fn get_default_change(&self, input: C) -> (r: Option<Change>)
        requires
            equatable::<C>(),
        ensures
            r == self@.default_of(input),
    {
        match self.default_changes.get(&input) {
            Some(c) => Some(*c),
            None => None,
        }
    }

    /// A manager with nothing registered.
    pub fn new() -> (r: Self)
        ensures
            r@ == ManagerView::<A, B, C>::empty(),
            r.wf(),
    {
        let r = Manager {
            states: ListMap::new(),
            bindings: ListMap::new(),
            default_changes: ListMap::new(),
        };
        proof {
            assert(r@ =~= ManagerView::<A, B, C>::empty());
        }
        r
    }

    /// Dispatches `change` to the control live at `binding`; a binding
    /// without live state absorbs nothing. The caller routes a delta of
    /// the kind the binding was registered with: the registry fixes a
    /// binding's kind at creation, so a mismatch is a caller bug, ruled
    /// out here rather than recovered from.
    pub fn apply_change(&mut self, binding: &Binding<A, B>, change: Change)
        requires
            equatable::<A>(),
            equatable::<B>(),
            old(self).wf(),
            old(self)@.states.dom().contains(*binding) ==> kind_matches(
                old(self)@.states[*binding],
                change,
            ),
        ensures
            final(self).wf(),
            final(self)@ == old(self)@.applied(*binding, change),
    {
        proof {
            lemma_binding_equatable::<A, B>();
        }
        match self.states.get(binding) {
            Some(state) => {
                let next = match (*state, change) {
                    (State::Axis(mut a), Change::Axis(c)) => {
                        a.apply(c);
                        State::Axis(a)
                    },
                    (State::Button(mut b), Change::Button(c)) => {
                        b.apply(c);
                        State::Button(b)
                    },
                    // A delta of the wrong kind: impossible under the
                    // caller's obligation, which Verus confirms here.
                    (s, _) => {
                        proof {
                            assert(false);
                        }
                        s
                    },
                };
                self.states.insert(*binding, next);
                proof {
                    assert(self@ =~= old(self)@.applied(*binding, change));
                }
            },
            None => {
                proof {
                    assert(self@ =~= old(self)@.applied(*binding, change));
                }
            },
        }
    }

    /// The axis live under `binding`: `None` when the key was never
    /// bound or its binding carries a button.
    pub fn get_axis(&self, binding: A) -> (r: Option<&Axis>)
        requires
            equatable::<A>(),
            equatable::<B>(),
        ensures
            self@.axis_of(binding) matches Some(a) ==> r matches Some(x) && *x == a,
            self@.axis_of(binding) is None ==> r is None,
    {
        proof {
            lemma_binding_equatable::<A, B>();
        }
        match self.states.get(&Binding::Axis(binding)) {
            Some(state) => match state {
                State::Axis(a) => Some(a),
                State::Button(_) => None,
            },
            None => None,
        }
    }

    /// The button live under `binding`, under the same rules as
    /// `get_axis`.
    pub fn get_button(&self, binding: B) -> (r: Option<&Button>)
        requires
            equatable::<A>(),
            equatable::<B>(),
        ensures
            self@.button_of(binding) matches Some(b) ==> r matches Some(x) && *x == b,
            self@.button_of(binding) is None ==> r is None,
    {
        proof {
            lemma_binding_equatable::<A, B>();
        }
        match self.states.get(&Binding::Button(binding)) {
            Some(state) => match state {
                State::Button(b) => Some(b),
                State::Axis(_) => None,
            },
            None => None,
        }
    }

    /// The whole live store, for hosts that walk every control.
    pub fn get_states(&self) -> (r: &ListMap<Binding<A, B>, State>)
        ensures
            r@ == self@.states,
            self.wf() ==> r.wf(),
    {
        &self.states
    }

    /// Whether `button` was pressed just this frame: its level is down
    /// and its edge pulse is still up.
    pub fn get_button_pressed(&self, button: B) -> (r: bool)
        requires
            equatable::<A>(),
            equatable::<B>(),
        ensures
            r == self@.button_pressed(button),
    {
        match self.get_button(button) {
            Some(b) => b.pressed && b.new_event,
            None => false,
        }
    }

    /// Advances every live control exactly once, all under the same
    /// elapsed time.
    pub fn tick(&mut self, ms: u64)
        requires
            old(self).wf(),
        ensures
            final(self).wf(),
            final(self)@ == old(self)@.ticked(ms),
    {
        let ghost orig = *self;
        let n = self.states.len();
        let mut i: usize = 0;
        while i < n
            invariant
                self.states.wf(),
                self.bindings == orig.bindings,
                self.default_changes == orig.default_changes,
                orig.states.wf(),
                n == orig.states.kv_seq().len(),
                self.states.kv_seq().len() == n,
                i <= n,
                forall|j: int|
                    0 <= j < n ==> (#[trigger] self.states.kv_seq()[j]).0
                        == orig.states.kv_seq()[j].0,
                forall|j: int|
                    0 <= j < i ==> (#[trigger] self.states.kv_seq()[j]).1 == state_ticked(
                        orig.states.kv_seq()[j].1,
                        ms,
                    ),
                forall|j: int|
                    i <= j < n ==> (#[trigger] self.states.kv_seq()[j]).1
                        == orig.states.kv_seq()[j].1,
            decreases n - i,
        {
            let entry = self.states.entry_at(i);
            let next = match entry.1 {
                State::Axis(mut a) => {
                    a.tick(ms);
                    State::Axis(a)
                },
                State::Button(mut b) => {
                    b.tick();
                    State::Button(b)
                },
            };
            self.states.set_value_at(i, next);
            i = i + 1;
        }
        proof {
            self.states.lemma_entries();
            orig.states.lemma_entries();
            let s = self.states.kv_seq();
            let o = orig.states.kv_seq();
            assert forall|k: Binding<A, B>| #[trigger] orig@.states.dom().contains(
                k,
            ) implies self@.states.dom().contains(k) && self@.states[k] == state_ticked(
                orig@.states[k],
                ms,
            ) by {
                let t = choose|t: int| 0 <= t < o.len() && (#[trigger] o[t]).0 == k;
                assert(s[t].0 == k);
                assert(self@.states[s[t].0] == s[t].1);
                assert(orig@.states[o[t].0] == o[t].1);
            }
            assert forall|k: Binding<A, B>| #[trigger] self@.states.dom().contains(
                k,
            ) implies orig@.states.dom().contains(k) by {
                let t = choose|t: int| 0 <= t < s.len() && (#[trigger] s[t]).0 == k;
                assert(o[t].0 == k);
            }
            assert(self@ =~= orig@.ticked(ms));
        }
    }

    /// Exactly the bound buttons whose edge pulse is up this frame,
    /// each with its state, in no particular order.
    pub fn get_changed_buttons(&self) -> (r: Vec<(B, Button)>)
        requires
            self.wf(),
        ensures
            distinct_keys(r@),
            map_of(r@) == self@.changed_buttons(),
    {
        let mut out: Vec<(B, Button)> = Vec::new();
        let n = self.states.len();
        let mut i: usize = 0;
        while i < n
            invariant
                self.states.wf(),
                n == self.states.kv_seq().len(),
                i <= n,
                distinct_keys(out@),
                forall|j: int|
                    0 <= j < out@.len() ==> changed_from_prefix(
                        self.states.kv_seq(),
                        #[trigger] out@[j],
                        i as int,
                    ),
                forall|t: int|
                    0 <= t < i ==> match changed_entry(#[trigger] self.states.kv_seq()[t]) {
                        Some(p) => has_key(out@, p.0),
                        None => true,
                    },
            decreases n - i,
        {
            let entry = self.states.entry_at(i);
            match (entry.0, entry.1) {
                (Binding::Button(bk), State::Button(b)) => {
                    if b.new_event {
                        let ghost out0 = out@;
                        proof {
                            if has_key(out@, bk) {
                                let j = choose|j: int|
                                    0 <= j < out@.len() && (#[trigger] out@[j]).0 == bk;
                                let t = choose|t: int|
                                    0 <= t < i && changed_entry(
                                        #[trigger] self.states.kv_seq()[t],
                                    ) == Some(out@[j]);
                                assert(self.states.kv_seq()[t].0 == self.states.kv_seq()[
                                    i as int].0);
                                assert(false);
                            }
                        }
                        out.push((bk, b));
                        proof {
                            assert forall|a: int, c: int|
                                0 <= a < c < out@.len() implies (#[trigger] out@[a]).0 != (
                            #[trigger] out@[c]).0 by {
                                if c == out@.len() - 1 {
                                    assert(out@[a].0 != bk);
                                }
                            }
                            assert(changed_entry(self.states.kv_seq()[i as int]) == Some(
                                (bk, b),
                            ));
                            assert forall|t: int| 0 <= t < i + 1 implies match changed_entry(
                                #[trigger] self.states.kv_seq()[t],
                            ) {
                                Some(p) => has_key(out@, p.0),
                                None => true,
                            } by {
                                if t < i {
                                    match changed_entry(self.states.kv_seq()[t]) {
                                        Some(p) => {
                                            let j = choose|j: int|
                                                0 <= j < out0.len() && (#[trigger] out0[j]).0
                                                    == p.0;
                                            assert(out@[j].0 == p.0);
                                        },
                                        None => {},
                                    }
                                } else {
                                    assert(out@[out@.len() - 1].0 == bk);
                                }
                            }
                        }
                    }
                },
                _ => {},
            }
            i = i + 1;
        }
        proof {
            lemma_map_of_dom(out@);
            self.states.lemma_entries();
            let kv = self.states.kv_seq();
            assert forall|k: B| #[trigger] map_of(out@).dom().contains(
                k,
            ) implies self@.changed_buttons().dom().contains(k) && map_of(out@)[k]
                == self@.changed_buttons()[k] by {
                let j = choose|j: int| 0 <= j < out@.len() && (#[trigger] out@[j]).0 == k;
                assert forall|jj: int| 0 <= jj < j implies (#[trigger] out@[jj]).0
                    != out@[j].0 by {}
                lemma_map_of_first(out@, j);
                let t = choose|t: int|
                    0 <= t < n && changed_entry(#[trigger] kv[t]) == Some(out@[j]);
                assert(self@.states[kv[t].0] == kv[t].1);
            }
            assert forall|k: B| #[trigger] self@.changed_buttons().dom().contains(
                k,
            ) implies map_of(out@).dom().contains(k) by {
                assert(self@.states.dom().contains(Binding::Button(k)));
                let t = choose|t: int| 0 <= t < kv.len() && (#[trigger] kv[t]).0
                    == Binding::<A, B>::Button(k);
                assert(self@.states[kv[t].0] == kv[t].1);
                assert(changed_entry(kv[t]) matches Some(p) && p.0 == k);
            }
            assert(map_of(out@) =~= self@.changed_buttons());
        }
        out
    }
}

impl<A: PartialEq + Eq + Copy, B: PartialEq + Eq + Copy, C: PartialEq + Eq> IManager<
    A,
    B,
    C,
> for Manager<A, B, C> {
    open spec fn states_model(&self) -> Map<Binding<A, B>, State> {
        self@.states
    }

    open spec fn inv(&self) -> bool {
        self.wf()
    }

    open spec fn keys_fine() -> bool {
        equatable::<A>() && equatable::<B>()
    }

    fn new() -> Self {
        Manager::new()
    }

    fn get_axis(&self, binding: A) -> Option<&Axis> {
        self.get_axis(binding)
    }

    fn get_button(&self, binding: B) -> Option<&Button> {
        self.get_button(binding)
    }

    fn get_states(&self) -> &ListMap<Binding<A, B>, State> {
        self.get_states()
    }

    fn get_changed_buttons(&self) -> Vec<(B, Button)> {
        self.get_changed_buttons()
    }

    fn get_button_pressed(&self, button: B) -> bool {
        self.get_button_pressed(button)
    }
}

impl<A: PartialEq + Eq + Copy, B: PartialEq + Eq + Copy, C: PartialEq + Eq> IConverter<
    A,
    B,
    C,
> for Manager<A, B, C> {
    open spec fn model(&self) -> ManagerView<A, B, C> {
        self@
    }

    open spec fn inv(&self) -> bool {
        self.wf()
    }

    open spec fn keys_fine() -> bool {
        equatable::<A>() && equatable::<B>() && equatable::<C>()
    }

    fn add_axis_binding(&mut self, axis: A, input: C) {
        self.add_axis_binding(axis, input)
    }

    fn get_binding(&self, input: C) -> Option<Binding<A, B>> {
        self.get_binding(input)
    }

    fn add_button_binding(&mut self, button: B, input: C) {
        self.add_button_binding(button, input)
    }

    fn get_default_change(&self, input: C) -> Option<Change> {
        self.get_default_change(input)
    }

    fn add_default_change(&mut self, change: Change, input: C) {
        self.add_default_change(change, input)
    }
}

impl<A: PartialEq + Eq + Copy, B: PartialEq + Eq + Copy, C: PartialEq + Eq> IUpdater<
    A,
    B,
> for Manager<A, B, C> {
    open spec fn states_model(&self) -> Map<Binding<A, B>, State> {
        self@.states
    }

    open spec fn inv(&self) -> bool {
        self.wf()
    }

    open spec fn keys_fine() -> bool {
        equatable::<A>() && equatable::<B>()
    }

    fn tick(&mut self, ms: u64) {
        self.tick(ms)
    }

    fn apply_change(&mut self, binding: &Binding<A, B>, change: Change) {
        self.apply_change(binding, change)
    }
}

/// Rebinding an axis that already has live state, from whatever raw
/// input, preserves the whole live store: state is created once, on
/// first registration, and never reset by a rebind.
pub proof fn lemma_rebind_axis_keeps_states<A, B, C>(
    v: ManagerView<A, B, C>,
    axis: A,
    input: C,
)
    requires
        v.states.dom().contains(Binding::Axis(axis)),
    ensures
        v.bound_axis(axis, input).states == v.states,
{
}

/// The button counterpart of `lemma_rebind_axis_keeps_states`.
pub proof fn lemma_rebind_button_keeps_states<A, B, C>(
    v: ManagerView<A, B, C>,
    button: B,
    input: C,
)
    requires
        v.states.dom().contains(Binding::Button(button)),
    ensures
        v.bound_button(button, input).states == v.states,
{
}

/// A frame spends every edge pulse: right after a tick no button
/// reports a change and none reports pressed-this-frame, however many
/// deltas landed before the tick.
pub proof fn lemma_tick_quiets_buttons<A, B, C>(v: ManagerView<A, B, C>, ms: u64, key: B)
    ensures
        v.ticked(ms).changed_buttons() == Map::<B, Button>::empty(),
        !v.ticked(ms).button_pressed(key),
{
    assert(v.ticked(ms).changed_buttons() =~= Map::<B, Button>::empty());
}

/// A press delta on a released button makes it report
/// pressed-this-frame.
pub proof fn lemma_press_reports_pressed<A, B, C>(v: ManagerView<A, B, C>, key: B)
    requires
        v.button_of(key) matches Some(b) && !b.pressed,
    ensures
        v.applied(Binding::Button(key), Change::Button(ButtonChange(true))).button_pressed(key),
{
}

} // verus!
