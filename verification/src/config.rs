use vstd::prelude::*;

verus! {

/// How a tag is rendered while its source is paused.
///
/// `Passthrough` repeats the last intra-frame without re-encoding; the other
/// three replace the picture and re-encode.
#[derive(Clone, Copy, PartialEq, Eq, Structural, Debug)]
pub enum PauseMode {
    Passthrough,
    Black,
    Still,
    Test,
}

/// The pause policy of one source.
#[derive(Clone, Copy, PartialEq, Eq, Structural, Debug)]
pub struct PauseConfig {
    /// Pause when motion has stopped for `motion_timeout_micros`.
    pub on_motion: bool,
    /// Pause while no consumer is connected to any of the source's tags.
    pub on_client: bool,
    /// What paused tags show.
    pub mode: PauseMode,
    /// How long motion must have stopped before pausing, in microseconds.
    pub motion_timeout_micros: u64,
}

/// Everything configured for one source; immutable after load.
#[derive(Clone, Debug)]
pub struct SourceConfig {
    /// The source's name; its primary tag is mounted under it.
    pub name: String,
    pub username: String,
    pub password: String,
    /// Network address of the upstream source.
    pub address: String,
    pub pause: PauseConfig,
}

} // verus!
