//! The intermediate representation: notation values, duration arithmetic and
//! the assembly of parts.

pub mod counts;
pub mod divisions;
pub mod duration;
pub mod duration_laws;
pub mod elements;
pub mod measure_checker;
pub mod measure_laws;
pub mod musical_part;
pub mod notation;
pub mod part_map;
pub mod pitch;
pub mod rhythm;
pub mod tempo;
pub mod texts;
pub mod voices;

pub use elements::{MusicElement, TimeModification};
pub use musical_part::MusicalPart;
pub use notation::{TupletActual, TupletNormal, TupletNumber};
pub use part_map::PartMap;
