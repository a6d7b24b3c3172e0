use vstd::prelude::*;

verus! {

/// Bytes per pixel of the premultiplied 32-bit ARGB format.
pub const BYTES_PER_PIXEL: u32 = 4;

/// What an image holds: its size and its row-major pixel bytes.
pub ghost struct ImageView {
    pub width: nat,
    pub height: nat,
    pub pixels: Seq<u8>,
}

/// A rendered image: premultiplied ARGB32 pixels, row-major, with no padding
/// beyond what its width and height imply.
#[derive(Debug)]
pub struct Image {
    width: u32,
    height: u32,
    data: Vec<u8>,
}

impl View for Image {
    type V = ImageView;

    closed spec fn view(&self) -> ImageView {
        ImageView { width: self.width as nat, height: self.height as nat, pixels: self.data@ }
    }
}

/// The buffer length that a `width` by `height` image has.
pub open spec fn buffer_len(width: nat, height: nat) -> nat {
    width * height * (BYTES_PER_PIXEL as nat)
}

impl Image {
    /// The well-formedness of an image: its buffer has exactly the length its
    /// size implies.
    #[verifier::type_invariant]
    closed spec fn inv(&self) -> bool {
        self.data@.len() == buffer_len(self.width as nat, self.height as nat)
    }

    /// Wraps a rendered buffer; `None` unless its length is exactly
    /// `width * height * 4`.
    pub fn from_pixels(width: u32, height: u32, data: Vec<u8>) -> (r: Option<Image>)
        ensures
            (data@.len() == buffer_len(width as nat, height as nat)) <==> r is Some,
            r matches Some(img) ==> img@ == (ImageView {
                width: width as nat,
                height: height as nat,
                pixels: data@,
            }),
    {
        assert(width as int * height as int * 4 <= 0x4_0000_0000_0000_0000) by (nonlinear_arith)
            requires
                width <= 0xffff_ffff,
                height <= 0xffff_ffff,
        ;
        let expected: u128 = (width as u128) * (height as u128) * (BYTES_PER_PIXEL as u128);
        if data.len() as u128 == expected {
            Some(Image { width, height, data })
        } else {
            Option::None
        }
    }

    pub fn width(&self) -> (r: u32)
        ensures
            r as nat == self@.width,
    {
        self.width
    }

    pub fn height(&self) -> (r: u32)
        ensures
            r as nat == self@.height,
    {
        self.height
    }

    /// The pixel bytes, `width * height * 4` of them.
    pub fn data(&self) -> (r: &[u8])
        ensures
            r@ == self@.pixels,
            r@.len() == buffer_len(self@.width, self@.height),
    {
        proof {
            use_type_invariant(self);
        }
        self.data.as_slice()
    }
}

} // verus!
