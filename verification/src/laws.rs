//! What the engine promises, stated of its functions from the outside: each law
//! takes what functions returned for given arguments, as their contracts allow
//! it, and says how results and arguments relate.

pub mod mixing;
pub mod sources;
pub mod reports;
pub mod outputs;
pub mod preparing;
pub mod playback;
pub mod steering;
pub mod live;
pub mod samples;
pub mod startup;
pub mod wording;
