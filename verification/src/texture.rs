use vstd::prelude::*;
use crate::color::Color;

verus! {

/// Why a texture could not be built.
#[derive(Clone, Copy, Debug, PartialEq, Eq, Structural)]
pub enum TextureError {
    /// The bytes do not divide into whole red-green-blue triples.
    PartialPixel,
    /// The number of pixels is not `width * height`.
    SizeMismatch,
}

/// A grid of colors, stored row by row. It always holds exactly
/// `width * height` of them.
#[derive(Debug)]
pub struct Texture {
    data: Vec<Color>,
    width: usize,
    height: usize,
}

/// What a texture is: its extent and its pixels, row by row.
pub struct Grid {
    pub width: nat,
    pub height: nat,
    pub pixels: Seq<Color>,
}

/// The color that the cell in column `x` and row `y` shows, on a grid of
/// `width` columns and `height` rows stored row by row in `pixels`. A cell
/// past the last column or row shows what the last one shows; a grid
/// without pixels shows black.
pub open spec fn texel(pixels: Seq<Color>, width: nat, height: nat, x: nat, y: nat) -> Color {
    if pixels.len() == 0 {
        Color { r: 0, g: 0, b: 0 }
    } else {
        let column = if x < width { x as int } else { width - 1 };
        let row = if y < height { y as int } else { height - 1 };
        pixels[row * width + column]
    }
}

/// The pixels that a run of red-green-blue bytes spells out.
pub open spec fn rgb_pixels(bytes: Seq<u8>) -> Seq<Color> {
    Seq::new(
        (bytes.len() / 3) as nat,
        |i: int| (Color { r: bytes[3 * i], g: bytes[3 * i + 1], b: bytes[3 * i + 2] }),
    )
}

impl Grid {
    /// The color that the cell in column `x` and row `y` shows.
    pub open spec fn texel(self, x: nat, y: nat) -> Color {
        texel(self.pixels, self.width, self.height, x, y)
    }
}

impl View for Texture {
    type V = Grid;

    closed spec fn view(&self) -> Grid {
        Grid { width: self.width as nat, height: self.height as nat, pixels: self.data@ }
    }
}

/// The color of a surface where no light has been added: that of the cell
/// of its texture where it has one, else its flat color.
pub open spec fn base_color_of(texture: Option<Grid>, diffuse: Color, x: nat, y: nat) -> Color {
    match texture {
        Some(grid) => grid.texel(x, y),
        None => diffuse,
    }
}

impl Texture {
    #[verifier::type_invariant]
    spec fn well_formed(self) -> bool {
        self.data@.len() == self.width * self.height
    }

    /// The number of columns.
    pub open spec fn spec_width(&self) -> usize {
        self@.width as usize
    }

    /// The number of rows.
    pub open spec fn spec_height(&self) -> usize {
        self@.height as usize
    }

    /// Builds a texture from its pixels, row by row. Fails when their
    /// number is not `width * height`.
    pub fn new(data: Vec<Color>, width: usize, height: usize) -> (made: Result<Texture, TextureError>)
        ensures
            made is Ok <==> data@.len() == width * height,
            made matches Ok(t) ==> t@ == (Grid {
                width: width as nat,
                height: height as nat,
                pixels: data@,
            }),
            made matches Err(e) ==> e == TextureError::SizeMismatch,
    {
        let count: usize = data.len();
        match width.checked_mul(height) {
            Some(cells) => {
                if count == cells {
                    Ok(Texture { data, width, height })
                } else {
                    Err(TextureError::SizeMismatch)
                }
            },
            None => Err(TextureError::SizeMismatch),
        }
    }

    /// Builds a texture from decoded image bytes: three per pixel, red
    /// first, rows from the top.
    pub fn from_rgb(bytes: &[u8], width: usize, height: usize) -> (made: Result<Texture, TextureError>)
        ensures
            made is Ok <==> bytes@.len() == 3 * (width * height),
            made matches Ok(t) ==> t@ == (Grid {
                width: width as nat,
                height: height as nat,
                pixels: rgb_pixels(bytes@),
            }),
            made matches Err(e) ==> (e == TextureError::PartialPixel <==> bytes@.len() % 3 != 0),
    {
        let total: usize = bytes.len();
        if total % 3 != 0 {
            return Err(TextureError::PartialPixel);
        }
        let count: usize = total / 3;
        let mut data: Vec<Color> = Vec::new();
        let mut i: usize = 0;
        while i < count
            invariant
                total == bytes@.len(),
                count == total / 3,
                total % 3 == 0,
                i <= count,
                data@.len() == i,
                forall|k: int| 0 <= k < i ==> data@[k] == rgb_pixels(bytes@)[k],
            decreases count - i,
        {
            data.push(Color::new(bytes[3 * i], bytes[3 * i + 1], bytes[3 * i + 2]));
            i = i + 1;
        }
        assert(data@ =~= rgb_pixels(bytes@));
        Texture::new(data, width, height)
    }

    /// The number of columns.
    #[verifier::when_used_as_spec(spec_width)]
    pub fn width(&self) -> (w: usize)
        ensures
            w == self.width(),
            w == self@.width,
    {
        self.width
    }

    /// The number of rows.
    #[verifier::when_used_as_spec(spec_height)]
    pub fn height(&self) -> (h: usize)
        ensures
            h == self.height(),
            h == self@.height,
    {
        self.height
    }

    /// The color of the cell in column `x` and row `y`, where a coordinate
    /// past the edge reads the last column or row.
    pub fn get_color_at(&self, x: usize, y: usize) -> (c: Color)
        ensures
            c == self@.texel(x as nat, y as nat),
            self@.pixels.len() == self@.width * self@.height,
    {
        proof {
            use_type_invariant(self);
        }
        if self.data.len() == 0 {
            return Color::black();
        }
        let width: usize = self.width;
        let height: usize = self.height;
        assert(width > 0 && height > 0) by (nonlinear_arith)
            requires
                width * height > 0,
        ;
        let column: usize = if x < width { x } else { width - 1 };
        let row: usize = if y < height { y } else { height - 1 };
        assert(row * width + column < width * height) by (nonlinear_arith)
            requires
                row < height,
                column < width,
        ;
        self.data[row * width + column]
    }
}

impl Clone for Texture {
    fn clone(&self) -> (copy: Texture)
        ensures
            copy@ == self@,
    {
        proof {
            use_type_invariant(self);
        }
        let data = self.data.clone();
        assert(data@ =~= self.data@);
        Texture { data, width: self.width, height: self.height }
    }
}

/// The color of a surface before any light is added: read from the cell of
/// its texture where it has one, else its flat color.
pub fn base_color(texture: Option<&Texture>, diffuse: Color, x: usize, y: usize) -> (c: Color)
    ensures
        c == base_color_of(
            match texture {
                Some(t) => Some(t@),
                None => None,
            },
            diffuse,
            x as nat,
            y as nat,
        ),
{
    match texture {
        Some(t) => t.get_color_at(x, y),
        None => diffuse,
    }
}

/// Whatever lies on or past the last column and the last row reads the last
/// pixel of the grid: the one at index `(height - 1) * width + (width - 1)`.
pub proof fn lemma_texel_past_the_edge(pixels: Seq<Color>, width: nat, height: nat, x: nat, y: nat)
    requires
        pixels.len() == width * height,
        pixels.len() > 0,
        x >= width - 1,
        y >= height - 1,
    ensures
        texel(pixels, width, height, x, y) == pixels[(height - 1) * width + (width - 1)],
        (height - 1) * width + (width - 1) == pixels.len() - 1,
{
    assert(width > 0 && height > 0) by (nonlinear_arith)
        requires
            width * height > 0,
    ;
    assert((height - 1) * width + (width - 1) == width * height - 1) by (nonlinear_arith);
}

/// Every cell reads a pixel of the grid, whatever the coordinates.
pub proof fn lemma_texel_in_grid(pixels: Seq<Color>, width: nat, height: nat, x: nat, y: nat)
    requires
        pixels.len() == width * height,
        pixels.len() > 0,
    ensures
        exists|i: int| 0 <= i < pixels.len() && texel(pixels, width, height, x, y) == pixels[i],
{
    assert(width > 0 && height > 0) by (nonlinear_arith)
        requires
            width * height > 0,
    ;
    let column = if x < width { x as int } else { width - 1 };
    let row = if y < height { y as int } else { height - 1 };
    assert(0 <= row * width + column < width * height) by (nonlinear_arith)
        requires
            0 <= row < height,
            0 <= column < width,
    ;
    assert(texel(pixels, width, height, x, y) == pixels[row * width + column]);
}

} // verus!
