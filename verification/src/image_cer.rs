//! The pixel buffer: a `width` by `height` grid of three-channel pixels, stored
//! row by row.
//!
//! The buffer never looks inside a channel, so it is generic in the channel
//! type: the renderer fills it with binary32 radiance, a decoder with bytes.

use itertools::Itertools;
use vstd::prelude::*;

verus! {

/// One pixel: a red, a green and a blue channel.
#[derive(Clone, Copy, Debug, Default, PartialEq)]
pub struct PixRGB<T> {
    pub r: T,
    pub g: T,
    pub b: T,
}

impl<T> PixRGB<T> {
    pub fn new(r: T, g: T, b: T) -> (pix: PixRGB<T>)
        ensures
            pix.r == r,
            pix.g == g,
            pix.b == b,
    {
        PixRGB { r: r, g: g, b: b }
    }
}

/// A grid of pixels. Row `y` holds the pixels `y * width .. (y + 1) * width` of
/// the buffer; the type's invariant is that the buffer holds exactly
/// `width * height` of them.
#[derive(Debug)]
pub struct ImageCer<T> {
    image_data: Vec<PixRGB<T>>,
    width: u16,
    height: u16,
}

/// `y * width + x` stays below `width * height` for a coordinate inside the
/// grid.
pub proof fn lemma_index_in_grid(x: int, y: int, width: int, height: int)
    requires
        0 <= x < width,
        0 <= y < height,
    ensures
        0 <= y * width + x < width * height,
        y * width + x < (y + 1) * width,
        (y + 1) * width <= width * height,
{
    assert(y * width + x < (y + 1) * width) by (nonlinear_arith)
        requires
            x < width,
    ;
    assert((y + 1) * width <= width * height) by (nonlinear_arith)
        requires
            0 <= y < height,
            0 <= width,
    ;
    assert(0 <= y * width) by (nonlinear_arith)
        requires
            0 <= y,
            0 <= width,
    ;
}

impl<T> ImageCer<T> {
    #[verifier::type_invariant]
    closed spec fn well_formed(&self) -> bool {
        self.image_data@.len() == self.width * self.height
    }

    /// The number of columns.
    pub closed spec fn spec_width(&self) -> nat {
        self.width as nat
    }

    /// The number of rows.
    pub closed spec fn spec_height(&self) -> nat {
        self.height as nat
    }

    /// The pixels, row by row.
    pub closed spec fn pixels(&self) -> Seq<PixRGB<T>> {
        self.image_data@
    }

    /// Whether `(x, y)` names a pixel of the grid.
    pub open spec fn in_grid(&self, x: int, y: int) -> bool {
        0 <= x < self.spec_width() && 0 <= y < self.spec_height()
    }

    /// The pixel in column `x` of row `y`.
    pub open spec fn pixel_at(&self, x: int, y: int) -> PixRGB<T>
        recommends
            self.in_grid(x, y),
    {
        self.pixels()[y * self.spec_width() + x]
    }

    pub fn get_width(&self) -> (w: u32)
        ensures
            w == self.spec_width(),
            w <= u16::MAX,
    {
        self.width as u32
    }

    pub fn get_height(&self) -> (h: u32)
        ensures
            h == self.spec_height(),
            h <= u16::MAX,
    {
        self.height as u32
    }

    /// The number of pixels held, which is always `width * height`.
    pub fn pixel_count(&self) -> (n: usize)
        ensures
            n == self.pixels().len(),
            n == self.spec_width() * self.spec_height(),
    {
        proof {
            use_type_invariant(self);
        }
        self.image_data.len()
    }

    /// The buffer index of `(x, y)`, where that is a pixel of the grid.
    fn index_of(&self, x_coord: u16, y_coord: u16) -> (at: Option<usize>)
        ensures
            at is Some <==> self.in_grid(x_coord as int, y_coord as int),
            at matches Some(i) ==> i == y_coord * self.spec_width() + x_coord && i
                < self.pixels().len(),
    {
        proof {
            use_type_invariant(self);
        }
        if x_coord < self.width && y_coord < self.height {
            proof {
                lemma_index_in_grid(
                    x_coord as int,
                    y_coord as int,
                    self.width as int,
                    self.height as int,
                );
                assert(self.width * self.height <= 0xFFFF * 0xFFFF) by (nonlinear_arith)
                    requires
                        self.width <= 0xFFFF,
                        self.height <= 0xFFFF,
                ;
            }
            Some(y_coord as usize * self.width as usize + x_coord as usize)
        } else {
            None
        }
    }

    /// Wraps a buffer that already holds `width * height` pixels, row by row;
    /// a buffer of any other length is refused.
    pub fn from_pixels(img_width: u16, img_height: u16, image_data: Vec<PixRGB<T>>) -> (img:
        Option<ImageCer<T>>)
        ensures
            img is Some <==> image_data@.len() == img_width * img_height,
            img matches Some(i) ==> i.spec_width() == img_width && i.spec_height() == img_height
                && i.pixels() == image_data@,
    {
        proof {
            assert(img_width * img_height <= 0xFFFF * 0xFFFF) by (nonlinear_arith)
                requires
                    img_width <= 0xFFFF,
                    img_height <= 0xFFFF,
            ;
        }
        if image_data.len() == img_width as usize * img_height as usize {
            Some(ImageCer { image_data: image_data, width: img_width, height: img_height })
        } else {
            None
        }
    }

    /// Gives the buffer up, row by row.
    pub fn into_pixels(self) -> (image_data: Vec<PixRGB<T>>)
        ensures
            image_data@ == self.pixels(),
            image_data@.len() == self.spec_width() * self.spec_height(),
    {
        proof {
            use_type_invariant(&self);
        }
        self.image_data
    }

    /// The pixel at `(x_coord, y_coord)`, to be changed in place; nothing for
    /// a coordinate outside the grid.
    pub fn get_mut_pixel(&mut self, x_coord: u16, y_coord: u16) -> (pix: Option<&mut PixRGB<T>>)
        ensures
            final(self).spec_width() == old(self).spec_width(),
            final(self).spec_height() == old(self).spec_height(),
            pix is Some <==> old(self).in_grid(x_coord as int, y_coord as int),
            pix is None ==> final(self).pixels() == old(self).pixels(),
            pix matches Some(p) ==> *p == old(self).pixel_at(x_coord as int, y_coord as int)
                && final(self).pixels() == old(self).pixels().update(
                y_coord * old(self).spec_width() + x_coord,
                *final(p),
            ),
    {
        proof {
            use_type_invariant(&*self);
        }
        match self.index_of(x_coord, y_coord) {
            Some(i) => Some(&mut self.image_data[i]),
            None => None,
        }
    }

    /// Overwrites the pixel at `(x_coord, y_coord)`; a coordinate outside the
    /// grid changes nothing.
    pub fn set_pixel(&mut self, x_coord: u16, y_coord: u16, pixel_val: PixRGB<T>)
        ensures
            final(self).spec_width() == old(self).spec_width(),
            final(self).spec_height() == old(self).spec_height(),
            old(self).in_grid(x_coord as int, y_coord as int) ==> final(self).pixels() == old(
                self,
            ).pixels().update(y_coord * old(self).spec_width() + x_coord, pixel_val),
            !old(self).in_grid(x_coord as int, y_coord as int) ==> final(self).pixels() == old(
                self,
            ).pixels(),
    {
        proof {
            use_type_invariant(&*self);
        }
        match self.index_of(x_coord, y_coord) {
            Some(i) => {
                self.image_data[i] = pixel_val;
            },
            None => {},
        }
    }
}

impl<T: Clone> Clone for ImageCer<T> {
    /// A buffer of the same size with a clone of each pixel.
    fn clone(&self) -> (img: ImageCer<T>)
        ensures
            img.spec_width() == self.spec_width(),
            img.spec_height() == self.spec_height(),
            img.pixels().len() == self.pixels().len(),
            forall|i: int|
                0 <= i < self.pixels().len() ==> cloned(self.pixels()[i], #[trigger] img.pixels()[i]),
    {
        proof {
            use_type_invariant(self);
        }
        ImageCer { image_data: self.image_data.clone(), width: self.width, height: self.height }
    }
}

impl<T: Copy> ImageCer<T> {
    /// A grid of `img_width` by `img_height` pixels, each equal to `fill`.
    pub fn new(img_width: u16, img_height: u16, fill: PixRGB<T>) -> (img: ImageCer<T>)
        ensures
            img.spec_width() == img_width,
            img.spec_height() == img_height,
            img.pixels() == Seq::new((img_width * img_height) as nat, |i: int| fill),
    {
        proof {
            assert(img_width * img_height <= 0xFFFF * 0xFFFF) by (nonlinear_arith)
                requires
                    img_width <= 0xFFFF,
                    img_height <= 0xFFFF,
            ;
        }
        let count: usize = img_width as usize * img_height as usize;
        let mut image_data: Vec<PixRGB<T>> = Vec::with_capacity(count);
        let mut filled: usize = 0;
        while filled < count
            invariant
                filled <= count,
                image_data@ == Seq::new(filled as nat, |i: int| fill),
            decreases count - filled,
        {
            image_data.push(fill);
            filled += 1;
            assert(image_data@ =~= Seq::new(filled as nat, |i: int| fill));
        }
        ImageCer { image_data: image_data, width: img_width, height: img_height }
    }

    /// The pixel at `(x_coord, y_coord)`; nothing for a coordinate outside the
    /// grid.
    pub fn get_pixel(&self, x_coord: u16, y_coord: u16) -> (pix: Option<PixRGB<T>>)
        ensures
            pix is Some <==> self.in_grid(x_coord as int, y_coord as int),
            pix matches Some(p) ==> p == self.pixel_at(x_coord as int, y_coord as int),
    {
        match self.index_of(x_coord, y_coord) {
            Some(i) => Some(self.image_data[i]),
            None => None,
        }
    }
}

/// The `k`-th group of `size` consecutive items of `data`; the last group is
/// shorter where the items run out.
pub open spec fn group_at(data: Seq<u8>, size: int, k: int) -> Seq<u8> {
    data.subrange(
        k * size,
        if (k + 1) * size < data.len() {
            (k + 1) * size
        } else {
            data.len() as int
        },
    )
}

/// `itertools::Itertools::chunks` on the bytes in their order, each chunk
/// collected: the bytes come back in groups of `size`, in order and none
/// missing, the last group shorter where the bytes run out. The call panics
/// for a `size` of 0, which `requires` leaves out.
#[verifier::external_body]
fn byte_chunks(img_data: Vec<u8>, size: usize) -> (groups: Vec<Vec<u8>>)
    requires
        size != 0,
    ensures
        groups@.len() == (img_data@.len() + size - 1) / (size as int),
        forall|k: int|
            0 <= k < groups@.len() ==> (#[trigger] groups@[k])@ == group_at(
                img_data@,
                size as int,
                k,
            ),
{
    let mut groups: Vec<Vec<u8>> = Vec::new();
    for chunk in &img_data.into_iter().chunks(size) {
        groups.push(chunk.collect());
    }
    groups
}

impl ImageCer<u8> {
    /// Frames `img_width * img_height * 3` bytes as pixels: three bytes to a
    /// pixel, red first, the pixels row by row.
    pub fn new_from_bytes(img_width: u16, img_height: u16, img_data: Vec<u8>) -> (img: ImageCer<
        u8,
    >)
        requires
            img_data@.len() == img_width * img_height * 3,
        ensures
            img.spec_width() == img_width,
            img.spec_height() == img_height,
            img.pixels().len() == img_width * img_height,
            forall|k: int|
                0 <= k < img_width * img_height ==> #[trigger] img.pixels()[k] == (PixRGB {
                    r: img_data@[3 * k],
                    g: img_data@[3 * k + 1],
                    b: img_data@[3 * k + 2],
                }),
    {
        let ghost bytes = img_data@;
        proof {
            assert(img_width * img_height <= 0xFFFF * 0xFFFF) by (nonlinear_arith)
                requires
                    img_width <= 0xFFFF,
                    img_height <= 0xFFFF,
            ;
        }
        let count: usize = img_width as usize * img_height as usize;
        let groups = byte_chunks(img_data, 3);
        assert(groups@.len() == count);
        let mut image_data: Vec<PixRGB<u8>> = Vec::with_capacity(count);
        let mut k: usize = 0;
        while k < count
            invariant
                k <= count,
                count == groups@.len(),
                bytes.len() == count * 3,
                image_data@.len() == k,
                forall|j: int| 0 <= j < count ==> (#[trigger] groups@[j])@ == group_at(bytes, 3, j),
                forall|j: int|
                    0 <= j < k ==> #[trigger] image_data@[j] == (PixRGB {
                        r: bytes[3 * j],
                        g: bytes[3 * j + 1],
                        b: bytes[3 * j + 2],
                    }),
            decreases count - k,
        {
            let group = &groups[k];
            assert(group@ == group_at(bytes, 3, k as int));
            image_data.push(PixRGB { r: group[0], g: group[1], b: group[2] });
            k += 1;
        }
        ImageCer { image_data: image_data, width: img_width, height: img_height }
    }
}

} // verus!
