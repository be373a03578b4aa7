//! A dispatcher runtime whose scheduling and control rules are verified, and
//! the decision logic that walks Redfish power equipment.

pub mod ids;
pub mod control;
pub mod output;
pub mod stats;
pub mod model;
pub mod wellformed;
pub mod runtime;
pub mod power_equipment;
pub mod laws;
