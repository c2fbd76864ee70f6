pub mod focus_stack;
pub mod geometry;
pub mod container;
pub mod layouts;
pub mod workspace;
pub mod monitors;
pub mod actions;
pub mod keyman;
pub mod bar;
pub mod state;
pub mod atoms;
pub mod properties;
