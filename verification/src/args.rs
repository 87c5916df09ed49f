//! The arguments of the beatmap player.

use vstd::prelude::*;

verus! {

/// What the player is started with.
#[derive(Debug, Default, Clone, PartialEq, Eq)]
pub struct PlayBeatmap {
    /// The path to a `.osu` file.
    pub beatmap_path: Option<String>,
}

/// The path of the beatmap to play, if the arguments name one.
pub fn path_from_args(args: PlayBeatmap) -> (path: Option<String>)
    ensures
        path == args.beatmap_path,
{
    if let Some(beatmap_path) = args.beatmap_path {
        return Some(beatmap_path);
    }
    None
}

} // verus!
