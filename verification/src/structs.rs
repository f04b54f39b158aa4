use vstd::prelude::*;

verus! {

/// Top-level application phase: loading assets, atlas built, or streaming
/// terrain. The driver advances it; the library only names it.
#[derive(Debug, Clone, Copy, Default, PartialEq, Eq, Structural, Hash)]
pub enum AppState {
    #[default]
    Setup,
    Finished,
    Generating,
}

} // verus!
