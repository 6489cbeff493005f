//! A rebinding layer for interactive applications: physical input
//! identifiers are routed to logical controls (continuous axes and
//! discrete buttons), whose state advances once per simulation frame.
//!
//! The host names its controls with three key types of its own — axis
//! ids, button ids and raw-input ids. Between frames it resolves each
//! raw event to a [`Binding`] with [`Manager::get_binding`] and feeds
//! the resulting [`Change`] to [`Manager::apply_change`]; once per
//! frame it calls [`Manager::tick`] with the elapsed milliseconds and
//! reads logical state back through the getters.
//!
//! Axis positions are integers: a whole deflection is `scale` ticks
//! (see [`Axis`]), so arithmetic is exact and every contract states the
//! resulting position to the tick. Contracts about the registry speak
//! of the manager's [`ManagerView`], three maps the registry is a model
//! of; reading them requires the host's key comparisons to mean what
//! they say, which is the [`equatable`] premise.

mod axis;
mod builder;
mod button;
mod change;
mod keys;
mod list_map;
mod manager;

pub use axis::Axis;
pub use axis::DEFAULT_SCALE;
pub use axis::IAxis;
pub use axis::lemma_fall_trigger_gating;
pub use axis::lemma_idle_tick_keeps_position;
pub use axis::lemma_tick_keeps_nominal_range;
pub use builder::IManagerBuilder;
pub use builder::ManagerBuilder;
pub use button::Button;
pub use button::IButton;
pub use button::lemma_button_edge_pulse;
pub use change::AxisChange;
pub use change::ButtonChange;
pub use change::Direction;
pub use keys::equatable;
pub use list_map::ListMap;
pub use list_map::distinct_keys;
pub use list_map::has_key;
pub use list_map::map_of;
pub use manager::Binding;
pub use manager::Change;
pub use manager::IConverter;
pub use manager::IManager;
pub use manager::IUpdater;
pub use manager::Manager;
pub use manager::ManagerView;
pub use manager::State;
pub use manager::axis_in;
pub use manager::button_in;
pub use manager::button_pressed_in;
pub use manager::changed_buttons_in;
pub use manager::kind_matches;
pub use manager::lemma_binding_equatable;
pub use manager::lemma_press_reports_pressed;
pub use manager::lemma_rebind_axis_keeps_states;
pub use manager::lemma_rebind_button_keeps_states;
pub use manager::lemma_tick_quiets_buttons;
pub use manager::state_applied;
pub use manager::state_ticked;
pub use manager::states_applied;
pub use manager::states_ticked;
