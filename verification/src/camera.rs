use vstd::prelude::*;
use crate::color::Color;
use crate::matrix::{apply_spec, eye_spec, Matrix};
use crate::ray::Ray;
use crate::scalar::{ratio, ratio_spec, Real};
use crate::tuple::Tuple;
use crate::world::World;

verus! {

/// Where the picture is taken from: the numbers of pixels across and down,
/// the field of view, the inverse of the view transform, and what follows
/// from these of the canvas one unit in front of the eye.
pub struct Camera<T> {
    pub hsize: T,
    pub vsize: T,
    pub fov: T,
    pub inv_transform: Matrix<T>,
    pub half_width: T,
    pub half_height: T,
    pub pixel_size: T,
}

/// Half the extent of the canvas along its wider side: the tangent of half
/// the field of view.
pub open spec fn half_view_spec<T: Real>(fov: T) -> T {
    fov.div_spec(T::from_usize_spec(2)).tan_spec()
}

/// Half the width of the canvas: the half view where the picture is at
/// least as wide as high, else the half view by the aspect ratio.
pub open spec fn half_width_spec<T: Real>(hsize: T, vsize: T, fov: T) -> T {
    let aspect = hsize.div_spec(vsize);
    if T::one_spec().le_spec(aspect) {
        half_view_spec(fov)
    } else {
        half_view_spec(fov).mul_spec(aspect)
    }
}

/// Half the height of the canvas: the half view over the aspect ratio
/// where the picture is at least as wide as high, else the half view.
pub open spec fn half_height_spec<T: Real>(hsize: T, vsize: T, fov: T) -> T {
    let aspect = hsize.div_spec(vsize);
    if T::one_spec().le_spec(aspect) {
        half_view_spec(fov).div_spec(aspect)
    } else {
        half_view_spec(fov)
    }
}

/// The side of one pixel on the canvas.
pub open spec fn pixel_size_spec<T: Real>(hsize: T, vsize: T, fov: T) -> T {
    half_width_spec(hsize, vsize, fov).mul_spec(T::from_usize_spec(2)).div_spec(hsize)
}

impl<T: Real> Camera<T> {
    /// The inverse view transform has four rows and at most four columns.
    pub open spec fn wf(&self) -> bool {
        self.inv_transform@.len() == 4 && self.inv_transform@[0].len() <= 4
    }

    /// The centre of the pixel in column `px` and row `py`, on the canvas
    /// one unit in front of the eye, as seen from the world.
    pub open spec fn pixel_spec(&self, px: usize, py: usize) -> Tuple<T> {
        let half = ratio_spec::<T>(1, 2);
        let xoffset = T::from_usize_spec(px).add_spec(half).mul_spec(self.pixel_size);
        let yoffset = T::from_usize_spec(py).add_spec(half).mul_spec(self.pixel_size);
        apply_spec(
            self.inv_transform@,
            Tuple(
                self.half_width.sub_spec(xoffset),
                self.half_height.sub_spec(yoffset),
                T::one_spec().neg_spec(),
                T::one_spec(),
            ),
        )
    }

    /// The eye, as seen from the world.
    pub open spec fn origin_spec(&self) -> Tuple<T> {
        apply_spec(
            self.inv_transform@,
            Tuple(T::zero_spec(), T::zero_spec(), T::zero_spec(), T::one_spec()),
        )
    }

    /// The step from the eye to the pixel is a vector.
    pub open spec fn ray_defined(&self, px: usize, py: usize) -> bool {
        self.pixel_spec(px, py).minus_spec(self.origin_spec()).is_vector()
    }

    /// The ray from the eye through the centre of the pixel in column `px`
    /// and row `py`, with a direction of length one.
    pub open spec fn ray_spec(&self, px: usize, py: usize) -> Ray<T> {
        Ray {
            origin: self.origin_spec(),
            dir: self.pixel_spec(px, py).minus_spec(self.origin_spec()).normalize_spec(),
        }
    }

    /// The camera at the origin that looks along the third axis backwards,
    /// for a picture of `hsize` by `vsize` pixels.
    pub fn new(hsize: T, vsize: T, fov: T) -> (r: Self)
        ensures
            r.hsize == hsize,
            r.vsize == vsize,
            r.fov == fov,
            r.inv_transform@ == eye_spec::<T>(4),
            r.half_width == half_width_spec(hsize, vsize, fov),
            r.half_height == half_height_spec(hsize, vsize, fov),
            r.pixel_size == pixel_size_spec(hsize, vsize, fov),
            r.wf(),
    {
        let half_view = fov.div(T::from_usize(2)).tan();
        let aspect = hsize.div(vsize);

        let (half_width, half_height) = if T::one().le(aspect) {
            (half_view, half_view.div(aspect))
        } else {
            (half_view.mul(aspect), half_view)
        };

        let pixel_size = half_width.mul(T::from_usize(2)).div(hsize);

        Camera {
            hsize,
            vsize,
            fov,
            inv_transform: Matrix::eye(4),
            half_width,
            half_height,
            pixel_size,
        }
    }

    /// The ray from the eye through the centre of the pixel in column `px`
    /// and row `py`; nothing where the step from the eye to the pixel is no
    /// vector.
    pub fn try_ray_for_pixel(&self, px: usize, py: usize) -> (r: Option<Ray<T>>)
        requires
            self.wf(),
        ensures
            match r {
                Some(ray) => self.ray_defined(px, py) && ray == self.ray_spec(px, py),
                None => !self.ray_defined(px, py),
            },
    {
        let xoffset = T::from_usize(px).add(ratio(1, 2)).mul(self.pixel_size);
        let yoffset = T::from_usize(py).add(ratio(1, 2)).mul(self.pixel_size);

        let worldx = self.half_width.sub(xoffset);
        let worldy = self.half_height.sub(yoffset);

        let pixel = self.inv_transform.apply(Tuple::new_point(worldx, worldy, T::one().neg()));
        let origin = self.inv_transform.apply(Tuple::new_point(T::zero(), T::zero(), T::zero()));

        if !pixel.minus(origin).is_vector() {
            return None;
        }
        Some(Ray::new(origin, pixel.minus(origin)))
    }

    /// The ray from the eye through the centre of the pixel in column `px`
    /// and row `py`.
    pub fn ray_for_pixel(&self, px: usize, py: usize) -> (r: Ray<T>)
        requires
            self.wf(),
            self.ray_defined(px, py),
        ensures
            r == self.ray_spec(px, py),
    {
        match self.try_ray_for_pixel(px, py) {
            Some(ray) => ray,
            None => unreached(),
        }
    }

    /// The vector-only steps of `render_pixel` receive vectors.
    pub open spec fn render_defined(&self, world: &World<T>, px: usize, py: usize) -> bool {
        self.ray_defined(px, py) && world.color_defined(self.ray_spec(px, py))
    }

    /// The colour of the pixel in column `px` and row `py`: what the ray
    /// through its centre sees of `world`.
    pub open spec fn render_spec(&self, world: &World<T>, px: usize, py: usize) -> Color<T> {
        world.color_spec(self.ray_spec(px, py))
    }

    /// The colour of the pixel in column `px` and row `py`; nothing where a
    /// vector-only step would receive what is no vector.
    pub fn try_render_pixel(&self, world: &World<T>, px: usize, py: usize) -> (r: Option<Color<T>>)
        requires
            self.wf(),
            world.wf(),
        ensures
            match r {
                Some(c) => self.render_defined(world, px, py) && c == self.render_spec(
                    world,
                    px,
                    py,
                ),
                None => !self.render_defined(world, px, py),
            },
    {
        match self.try_ray_for_pixel(px, py) {
            Some(r) => world.try_color_at(&r),
            None => None,
        }
    }

    /// The colour of the pixel in column `px` and row `py`. It is a
    /// function of the camera, the world and the pixel alone, so that
    /// pixels can be rendered in any order and any number of times.
    pub fn render_pixel(&self, world: &World<T>, px: usize, py: usize) -> (r: Color<T>)
        requires
            self.wf(),
            world.wf(),
            self.render_defined(world, px, py),
        ensures
            r == self.render_spec(world, px, py),
    {
        match self.try_render_pixel(world, px, py) {
            Some(c) => c,
            None => unreached(),
        }
    }
}

} // verus!
