//! Configuration of an image (size, antialiasing) and of its rendering
//! (how pixel work is scheduled).

use vstd::prelude::*;

verus! {

/// Whether each pixel is one ray through its center or the average of
/// several jittered rays.
#[derive(Clone, Copy, Debug, PartialEq, Eq, Structural)]
pub enum AntialiasOptions {
    Disabled,
    /// Samples per pixel; never zero.
    Enabled(u32),
}

/// Size of the output image and its antialiasing setting.
#[derive(Clone, Copy, Debug)]
pub struct ImageOptions {
    width: u32,
    height: u32,
    antialias: AntialiasOptions,
}

impl ImageOptions {
    pub closed spec fn spec_width(&self) -> u32 {
        self.width
    }

    pub closed spec fn spec_height(&self) -> u32 {
        self.height
    }

    pub closed spec fn spec_antialias(&self) -> AntialiasOptions {
        self.antialias
    }

    /// A `width` by `height` image, antialiasing disabled.
    pub fn new(width: u32, height: u32) -> (r: Self)
        ensures
            r.spec_width() == width,
            r.spec_height() == height,
            r.spec_antialias() == AntialiasOptions::Disabled,
    {
        ImageOptions { width, height, antialias: AntialiasOptions::Disabled }
    }

    /// Sets the samples per pixel; zero disables antialiasing.
    pub fn antialias(self, spp: u32) -> (r: Self)
        ensures
            r.spec_width() == self.spec_width(),
            r.spec_height() == self.spec_height(),
            r.spec_antialias() == (if spp == 0 {
                AntialiasOptions::Disabled
            } else {
                AntialiasOptions::Enabled(spp)
            }),
    {
        let mut s = self;
        if spp == 0 {
            s.antialias = AntialiasOptions::Disabled;
        } else {
            s.antialias = AntialiasOptions::Enabled(spp);
        }
        s
    }

    pub fn width(&self) -> (r: u32)
        ensures
            r == self.spec_width(),
    {
        self.width
    }

    pub fn height(&self) -> (r: u32)
        ensures
            r == self.spec_height(),
    {
        self.height
    }

    pub fn antialias_options(&self) -> (r: AntialiasOptions)
        ensures
            r == self.spec_antialias(),
    {
        self.antialias
    }
}

/// How the pixel work of a render is scheduled. Every strategy yields the
/// same pixels in the same row-major order.
#[derive(Clone, Copy, Debug, PartialEq, Eq, Structural)]
pub enum ParallelOptions {
    /// Compute the whole grid in parallel, then encode it.
    AllAtOnce,
    /// Compute one row in parallel, encode it, then go on to the next row.
    ByRows,
    /// Compute and encode one pixel at a time.
    Series,
}

/// Options of a render that do not change the image.
#[derive(Clone, Copy, Debug)]
pub struct RenderOptions {
    parallel: ParallelOptions,
}

impl RenderOptions {
    pub closed spec fn spec_parallel(&self) -> ParallelOptions {
        self.parallel
    }

    /// Row-by-row scheduling.
    pub fn new() -> (r: Self)
        ensures
            r.spec_parallel() == ParallelOptions::ByRows,
    {
        RenderOptions { parallel: ParallelOptions::ByRows }
    }

    pub fn parallel(self, config: ParallelOptions) -> (r: Self)
        ensures
            r.spec_parallel() == config,
    {
        let mut s = self;
        s.parallel = config;
        s
    }

    pub fn parallel_options(&self) -> (r: ParallelOptions)
        ensures
            r == self.spec_parallel(),
    {
        self.parallel
    }
}

/// A field of a builder: set to a value, or not yet set.
#[derive(Clone, Debug)]
pub enum BuildField<T> {
    Init(T),
    Uninit,
}

impl<T> Default for BuildField<T> {
    fn default() -> (r: Self)
        ensures
            r is Uninit,
    {
        BuildField::Uninit
    }
}

} // verus!
