//! Fluent construction of a [`Manager`]: the same registration calls,
//! threaded through a self-consuming chain.

use vstd::prelude::*;
use crate::keys::equatable;
use crate::manager::Change;
use crate::manager::Manager;
use crate::manager::ManagerView;

verus! {

/// Fluent accumulation of bindings and defaults, ending in `build`.
/// Implementations expose what they have accumulated as the `model`
/// view; `inv` is their well-formedness and `keys_fine` what they ask
/// of the host's key comparisons.
pub trait IManagerBuilder<A, B, C>: Sized {
    type Product;

    spec fn model(&self) -> ManagerView<A, B, C>;

    spec fn inv(&self) -> bool;

    spec fn keys_fine() -> bool;

    fn new() -> (r: Self)
        ensures
            r.inv(),
            r.model() == ManagerView::<A, B, C>::empty(),
    ;

    fn build(self) -> Self::Product;

    fn add_axis_binding(self, axis: A, input: C) -> (r: Self)
        requires
            Self::keys_fine(),
            self.inv(),
        ensures
            r.inv(),
            r.model() == self.model().bound_axis(axis, input),
    ;

    fn add_button_binding(self, button: B, input: C) -> (r: Self)
        requires
            Self::keys_fine(),
            self.inv(),
        ensures
            r.inv(),
            r.model() == self.model().bound_button(button, input),
    ;

    fn add_default_change(self, change: Change, input: C) -> (r: Self)
        requires
            Self::keys_fine(),
            self.inv(),
        ensures
            r.inv(),
            r.model() == self.model().with_default(change, input),
    ;
}

/// Accumulates bindings and defaults before handing out the manager.
#[derive(Debug)]
pub struct ManagerBuilder<A, B, C> {
    manager: Manager<A, B, C>,
}

impl<A, B, C> ManagerBuilder<A, B, C> {
    /// The built manager never stores a key twice.
    pub closed spec fn wf(self) -> bool {
        self.manager.wf()
    }
}

impl<A, B, C> View for ManagerBuilder<A, B, C> {
    type V = ManagerView<A, B, C>;

    closed spec fn view(&self) -> ManagerView<A, B, C> {
        self.manager@
    }
}

impl<A: PartialEq + Eq + Copy, B: PartialEq + Eq + Copy, C: PartialEq + Eq> ManagerBuilder<
    A,
    B,
    C,
> {
    /// Starts from a manager with nothing registered.
    pub fn new() -> (r: Self)
        ensures
            r@ == ManagerView::<A, B, C>::empty(),
            r.wf(),
    {
        ManagerBuilder { manager: Manager::new() }
    }

    /// Hands out the accumulated manager.
    pub fn build(self) -> (r: Manager<A, B, C>)
        ensures
            r@ == self@,
            self.wf() ==> r.wf(),
    {
        self.manager
    }

    /// As `Manager::add_axis_binding`, threading the chain.
    pub fn add_axis_binding(self, axis: A, input: C) -> (r: Self)
        requires
            equatable::<A>(),
            equatable::<B>(),
            equatable::<C>(),
            self.wf(),
        ensures
            r.wf(),
            r@ == self@.bound_axis(axis, input),
    {
        let mut this = self;
        this.manager.add_axis_binding(axis, input);
        this
    }

    /// As `Manager::add_button_binding`, threading the chain.
    pub fn add_button_binding(self, button: B, input: C) -> (r: Self)
        requires
            equatable::<A>(),
            equatable::<B>(),
            equatable::<C>(),
            self.wf(),
        ensures
            r.wf(),
            r@ == self@.bound_button(button, input),
    {
        let mut this = self;
        this.manager.add_button_binding(button, input);
        this
    }

    /// As `Manager::add_default_change`, threading the chain.
    pub fn add_default_change(self, change: Change, input: C) -> (r: Self)
        requires
            equatable::<C>(),
            self.wf(),
        ensures
            r.wf(),
            r@ == self@.with_default(change, input),
    {
        let mut this = self;
        this.manager.add_default_change(change, input);
        this
    }
}

impl<A: PartialEq + Eq + Copy, B: PartialEq + Eq + Copy, C: PartialEq + Eq> IManagerBuilder<
    A,
    B,
    C,
> for ManagerBuilder<A, B, C> {
    type Product = Manager<A, B, C>;

    open spec fn model(&self) -> ManagerView<A, B, C> {
        self@
    }

    open spec fn inv(&self) -> bool {
        self.wf()
    }

    open spec fn keys_fine() -> bool {
        equatable::<A>() && equatable::<B>() && equatable::<C>()
    }

    fn new() -> Self {
        ManagerBuilder::new()
    }

    fn build(self) -> Manager<A, B, C> {
        self.build()
    }

    fn add_axis_binding(self, axis: A, input: C) -> Self {
        self.add_axis_binding(axis, input)
    }

    fn add_button_binding(self, button: B, input: C) -> Self {
        self.add_button_binding(button, input)
    }

    fn add_default_change(self, change: Change, input: C) -> Self {
        self.add_default_change(change, input)
    }
}

} // verus!
