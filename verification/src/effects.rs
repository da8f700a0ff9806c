//! Deterministic helpers for the startup animation.
use vstd::prelude::*;

verus! {

/// Current phase of the startup boot sequence.
#[derive(Debug, Clone, Copy, PartialEq, Eq)]
pub enum StartupPhase {
    /// Green characters rain down in random columns.
    MatrixRain,
    /// The title types out character by character.
    TitleType,
    /// Main UI fades in over the animation.
    FadeIn,
    /// Animation complete.
    Done,
}

/// The integer mixing function behind the rain pattern, over wrapping 32-bit arithmetic.
pub open spec fn spec_simple_hash(a: u32, b: u32) -> u32 {
    let h0 = a.wrapping_mul(2654435761u32).wrapping_add(b.wrapping_mul(340573321u32));
    let h1 = h0 ^ (h0 >> 16u32);
    let h2 = h1.wrapping_mul(2246822519u32);
    h2 ^ (h2 >> 13u32)
}

/// Deterministic hash of two coordinates.
pub fn simple_hash(a: u32, b: u32) -> (h: u32)
    ensures
        h == spec_simple_hash(a, b),
{
    let x = a.wrapping_mul(2654435761u32);
    let y = b.wrapping_mul(340573321u32);
    let mut h = x.wrapping_add(y);
    h = h ^ (h >> 16u32);
    h = h.wrapping_mul(2246822519u32);
    h = h ^ (h >> 13u32);
    h
}

/// The characters of the matrix rain.
pub open spec fn rain_alphabet() -> Seq<char> {
    seq![
        '0', '1', '2', '3', '4', '5', '6', '7', '8', '9', 'A', 'B', 'C', 'D', 'E', 'F', 'a', 'b',
        'c', 'd', 'e', 'f', '@', '#', '$', '%', '&', '*', '+', '=', '<', '>', '{', '}', '[', ']',
        '|', '/', '\\', '~',
    ]
}

/// Picks a character for the matrix rain from a hash value.
pub fn rain_char(hash: u32) -> (c: char)
    ensures
        c == rain_alphabet()[(hash % 40) as int],
{
    let chars: [char; 40] = [
        '0', '1', '2', '3', '4', '5', '6', '7', '8', '9', 'A', 'B', 'C', 'D', 'E', 'F', 'a', 'b',
        'c', 'd', 'e', 'f', '@', '#', '$', '%', '&', '*', '+', '=', '<', '>', '{', '}', '[', ']',
        '|', '/', '\\', '~',
    ];
    assert(chars@ =~= rain_alphabet());
    chars[(hash % 40) as usize]
}

} // verus!
