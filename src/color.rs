//! Colors and gradient names.
use vstd::prelude::*;

verus! {

/// An opaque 24-bit color.
#[derive(Clone, Copy, Debug, PartialEq, Eq, Structural)]
pub struct RGB {
    pub r: u8,
    pub g: u8,
    pub b: u8,
}

/// The two colors used for one glyph: `color` is the sampled field color,
/// `contrast` the legible foreground drawn over it when the background is
/// painted.
#[derive(Clone, Copy, Debug, PartialEq, Eq, Structural)]
pub struct Paint {
    pub color: RGB,
    pub contrast: RGB,
}

impl RGB {
    pub fn new(r: u8, g: u8, b: u8) -> (c: RGB)
        ensures
            c.r == r,
            c.g == g,
            c.b == b,
    {
        RGB { r, g, b }
    }
}

impl Paint {
    pub fn new(color: RGB, contrast: RGB) -> (p: Paint)
        ensures
            p.color == color,
            p.contrast == contrast,
    {
        Paint { color, contrast }
    }
}

/// The named color gradients that a color field can be built from.
#[derive(Clone, Copy, Debug, PartialEq, Eq, Structural)]
pub enum Gradient {
    Cividis,
    Cool,
    Cubehelix,
    Fruits,
    Inferno,
    Lolcat,
    Magma,
    Plasma,
    Rainbow,
    RdYlGn,
    Sinebow,
    Spectral,
    Turbo,
    Viridis,
    Warm,
}


impl Gradient {
    /// The gradient's name as given on a command line.
    pub open spec fn spec_name(self) -> Seq<char> {
        match self {
            Gradient::Cividis => "cividis"@,
            Gradient::Cool => "cool"@,
            Gradient::Cubehelix => "cubehelix"@,
            Gradient::Fruits => "fruits"@,
            Gradient::Inferno => "inferno"@,
            Gradient::Lolcat => "lolcat"@,
            Gradient::Magma => "magma"@,
            Gradient::Plasma => "plasma"@,
            Gradient::Rainbow => "rainbow"@,
            Gradient::RdYlGn => "rd-yl-gn"@,
            Gradient::Sinebow => "sinebow"@,
            Gradient::Spectral => "spectral"@,
            Gradient::Turbo => "turbo"@,
            Gradient::Viridis => "viridis"@,
            Gradient::Warm => "warm"@,
        }
    }

    pub fn name(&self) -> (r: &'static str)
        ensures
            r@ == self.spec_name(),
    {
        match self {
            Gradient::Cividis => {
                proof {
                    reveal_strlit("cividis");
                }
                "cividis"
            },
            Gradient::Cool => {
                proof {
                    reveal_strlit("cool");
                }
                "cool"
            },
            Gradient::Cubehelix => {
                proof {
                    reveal_strlit("cubehelix");
                }
                "cubehelix"
            },
            Gradient::Fruits => {
                proof {
                    reveal_strlit("fruits");
                }
                "fruits"
            },
            Gradient::Inferno => {
                proof {
                    reveal_strlit("inferno");
                }
                "inferno"
            },
            Gradient::Lolcat => {
                proof {
                    reveal_strlit("lolcat");
                }
                "lolcat"
            },
            Gradient::Magma => {
                proof {
                    reveal_strlit("magma");
                }
                "magma"
            },
            Gradient::Plasma => {
                proof {
                    reveal_strlit("plasma");
                }
                "plasma"
            },
            Gradient::Rainbow => {
                proof {
                    reveal_strlit("rainbow");
                }
                "rainbow"
            },
            Gradient::RdYlGn => {
                proof {
                    reveal_strlit("rd-yl-gn");
                }
                "rd-yl-gn"
            },
            Gradient::Sinebow => {
                proof {
                    reveal_strlit("sinebow");
                }
                "sinebow"
            },
            Gradient::Spectral => {
                proof {
                    reveal_strlit("spectral");
                }
                "spectral"
            },
            Gradient::Turbo => {
                proof {
                    reveal_strlit("turbo");
                }
                "turbo"
            },
            Gradient::Viridis => {
                proof {
                    reveal_strlit("viridis");
                }
                "viridis"
            },
            Gradient::Warm => {
                proof {
                    reveal_strlit("warm");
                }
                "warm"
            },
        }
    }
}

} // verus!
