//! Asset path selection: which bundled file each asset kind names,
//! relative to the executable's directory. Joining with that directory is
//! filesystem work and stays with the caller.

use vstd::prelude::*;

verus! {

/// The selectable bundled assets.
#[derive(Clone, Copy, Debug, PartialEq, Eq, Structural)]
pub enum Path {
    OptionButton,
    PlayButton,
    QuitButton,
    ResumeButton,
    Font,
}

/// The file each asset kind lives in, relative to the executable's
/// directory.
pub fn asset_subpath(path: Path) -> (r: &'static str)
    ensures
        path == Path::OptionButton ==> r@ == "sprites/Options-Button.png"@,
        path == Path::PlayButton ==> r@ == "sprites/Play-Button.png"@,
        path == Path::QuitButton ==> r@ == "sprites/Quit-Button.png"@,
        path == Path::ResumeButton ==> r@ == "sprites/Resume-Button.png"@,
        path == Path::Font ==> r@ == "fonts/Righteous-Regular.ttf"@,
{
    match path {
        Path::OptionButton => "sprites/Options-Button.png",
        Path::PlayButton => "sprites/Play-Button.png",
        Path::QuitButton => "sprites/Quit-Button.png",
        Path::ResumeButton => "sprites/Resume-Button.png",
        Path::Font => "fonts/Righteous-Regular.ttf",
    }
}

} // verus!
