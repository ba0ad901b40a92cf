//! Control logic for one actuator node of a competition robot: the device
//! state model, the buzzer state machine, edge-triggered reporting of the
//! start trigger, and the text codec for the two report records exchanged
//! with the supervising host over the IO and pneumatic channels.

pub mod buzzer;
pub mod codec;
pub mod node;
pub mod state;
pub mod trigger;
