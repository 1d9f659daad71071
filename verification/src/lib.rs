//! Soil-moisture watering controller: the stateful core that sits between the
//! control loop and the hardware drivers.
//!
//! * [`moisture`] smooths raw probe readings and classifies them into levels.
//! * [`lcd`] remembers what a 2x16 character display shows and works out the
//!   cell writes that bring it to a new text.
//! * [`pump`] tracks the pump output and the instant it was last switched on.
//!
//! Nothing here touches a peripheral. The caller reads the probe and hands
//! the raw value in, sends the returned cell writes to the display, and
//! drives the pump's pin alongside the switches it reports here.
pub mod lcd;
pub mod moisture;
pub mod pump;
pub mod text;
