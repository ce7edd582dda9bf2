//! Where game code lives in memory: choosing the address space slide that
//! applies to game code, and resolving hook targets against it.

use vstd::prelude::*;

verus! {

/// The slide that applies to game code, given the slides of images 0 and 1:
/// before iOS 15 it is image 0's and from iOS 15 image 1's, and it is always
/// the smaller of the two.
pub open spec fn spec_game_slide(slide0: usize, slide1: usize) -> usize {
    if slide0 <= slide1 {
        slide0
    } else {
        slide1
    }
}

/// Returns the slide that applies to game code, given the slides of images
/// 0 and 1.
pub fn get_game_aslr_offset(slide0: usize, slide1: usize) -> (slide: usize)
    ensures
        slide == spec_game_slide(slide0, slide1),
        slide <= slide0 && slide <= slide1,
        slide == slide0 || slide == slide1,
{
    if slide0 <= slide1 {
        slide0
    } else {
        slide1
    }
}

/// Returns `true` if image 0's slide is not the slide for game code.
pub fn has_weird_aslr(slide0: usize, slide1: usize) -> (weird: bool)
    ensures
        weird == (slide0 != spec_game_slide(slide0, slide1)),
        weird == (slide1 < slide0),
{
    slide0 != get_game_aslr_offset(slide0, slide1)
}

/// A place in game code to hook.
#[derive(Clone, Copy, PartialEq, Eq, Structural, Debug)]
pub enum Target {
    /// An address in the game's image, to which the game's slide applies.
    Address(usize),
    /// An address in the image with the given index, to which that image's
    /// slide applies.
    ForeignAddress(usize, u32),
}

impl Target {
    /// The index of the image whose slide applies to this target, if it is
    /// not the game's.
    pub fn foreign_image(&self) -> (image: Option<u32>)
        ensures
            image == match *self {
                Target::Address(_) => None,
                Target::ForeignAddress(_, i) => Some(i),
            },
    {
        match self {
            Target::Address(_) => None,
            Target::ForeignAddress(_, image) => Some(*image),
        }
    }

    /// Returns the address of the target in memory: its address plus the
    /// game's slide, or plus `image_slide` (the slide of its image) for a
    /// target in another image.
    pub fn get_absolute(&self, game_slide: usize, image_slide: usize) -> (addr: usize)
        requires
            match *self {
                Target::Address(a) => a + game_slide <= usize::MAX,
                Target::ForeignAddress(a, _) => a + image_slide <= usize::MAX,
            },
        ensures
            addr == match *self {
                Target::Address(a) => a + game_slide,
                Target::ForeignAddress(a, _) => a + image_slide,
            },
    {
        match self {
            Target::Address(a) => *a + game_slide,
            Target::ForeignAddress(a, _) => *a + image_slide,
        }
    }
}

} // verus!
