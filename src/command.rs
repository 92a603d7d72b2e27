use vstd::prelude::*;

verus! {

/// Resize the image to `w` x `h` pixels, with nearest-neighbour sampling.
#[derive(Clone, Copy, Debug, PartialEq, Eq, Structural)]
pub struct Resize {
    pub w: u32,
    pub h: u32,
}

/// Rotate the image by an angle in degrees.
///
/// The angle is a single-precision float on the wire; it is carried here as
/// its IEEE 754 bit pattern, since nothing in the library reads its value.
#[derive(Clone, Copy, Debug, PartialEq, Eq, Structural)]
pub struct Rotate {
    pub angle_bits: u32,
}

/// One instruction of the closed set that the service knows.
#[derive(Clone, Copy, Debug, PartialEq, Eq, Structural)]
pub enum Op {
    Resize(Resize),
    Rotate(Rotate),
}

/// A slot of the command's operation list: the wire format lets it be empty.
#[derive(Clone, Copy, Debug, PartialEq, Eq, Structural)]
pub struct Operator {
    pub op: Option<Op>,
}

/// A decoded request: where to fetch the source image, and what to do to it,
/// in order.
#[derive(Clone, Debug)]
pub struct ImageCommand {
    pub image_url: String,
    pub ops: Vec<Operator>,
}

} // verus!
