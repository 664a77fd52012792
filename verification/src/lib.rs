//! Musical jam session as multi-agent coordination: agents improvise within a
//! ternary harmonic framework, competing for harmonic space while cooperating
//! to create consonance.

pub mod note;
pub mod improv;
pub mod voice;
pub mod chord;
pub mod sync;
pub mod mix;
pub mod session;

pub use note::TernaryNote;
pub use improv::ImprovRule;
pub use voice::Voice;
pub use chord::ChordProgression;
pub use sync::JamSync;
pub use mix::JamMix;
pub use session::JamSession;
