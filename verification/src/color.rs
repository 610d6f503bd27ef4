use vstd::prelude::*;
use vstd::string::*;
use crate::clock::nanos_of_second;

verus! {

/// The colours that users are given, in order.
pub open spec fn palette() -> Seq<Seq<char>> {
    seq![
        "#FF0000"@,
        "#00FF00"@,
        "#0000FF"@,
        "#FFFF00"@,
        "#FF00FF"@,
        "#00FFFF"@,
        "#FFA500"@,
        "#800080"@,
        "#008080"@,
        "#FFC0CB"@,
    ]
}

/// True when `color` is one of the palette.
pub open spec fn is_palette_color(color: Seq<char>) -> bool {
    exists|i: int| 0 <= i < palette().len() && palette()[i] == color
}

/// The colour that a reading of `nanos` selects: the palette is walked
/// round by the reading.
pub fn color_for(nanos: u32) -> (color: String)
    ensures
        color@ == palette()[nanos as int % 10],
        is_palette_color(color@),
{
    let colors: [&str; 10] = [
        "#FF0000",
        "#00FF00",
        "#0000FF",
        "#FFFF00",
        "#FF00FF",
        "#00FFFF",
        "#FFA500",
        "#800080",
        "#008080",
        "#FFC0CB",
    ];
    let index: usize = nanos as usize % colors.len();
    let color = String::from_str(colors[index]);
    assert(color@ == palette()[index as int]);
    color
}

/// Picks a colour from the palette by the clock: the nanoseconds of the
/// current second select it.
pub fn get_random_color() -> (color: String)
    ensures
        is_palette_color(color@),
{
    color_for(nanos_of_second())
}

} // verus!
