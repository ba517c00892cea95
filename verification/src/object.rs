use vstd::prelude::*;
use crate::material::Material;
use crate::matrix::{
    apply_spec, eye_spec, inverse_spec, is_grid, is_singular, transpose_spec, Matrix,
};
use crate::ray::Ray;
use crate::scalar::{lt_is_asymmetric, lt_is_transitive, Num, Real};
use crate::tuple::{dot, dot_spec, Tuple};

verus! {

/// The shapes that can be placed in a scene.
#[derive(PartialEq, Eq, Structural, Debug)]
pub enum Shape {
    Sphere(Sphere),
}

/// The sphere of radius one about the origin.
#[derive(PartialEq, Eq, Structural, Debug)]
pub struct Sphere;

/// A shape placed in the world. It keeps the inverse of the transform that
/// places it, and its material.
#[derive(Debug)]
pub struct Object<T> {
    pub shape: Shape,
    pub inv_transform: Matrix<T>,
    pub material: Material<T>,
}

/// Where a ray meets an object: the parameter along the ray, and the object.
#[derive(Clone, Copy, Debug)]
pub struct Hitrecord<'a, T> {
    pub hit: T,
    pub obj: &'a Object<T>,
}

/// What a shape can do in its own space: meet a ray, and give the normal at
/// a point of its surface.
pub trait Hittable<T: Real> {
    /// The vector-only steps of `hit` receive vectors.
    spec fn hit_defined(&self, r: Ray<T>) -> bool;

    /// The parameters at which `r` meets the shape.
    spec fn hit_spec(&self, r: Ray<T>) -> Seq<T>;

    /// The vector-only steps of `normal_at` receive vectors.
    spec fn normal_defined(&self, pt: Tuple<T>) -> bool;

    /// The normal of length one at `pt`.
    spec fn normal_spec(&self, pt: Tuple<T>) -> Tuple<T>;

    /// Whether `hit` can be called with `r`.
    fn can_hit(&self, r: &Ray<T>) -> (b: bool)
        ensures
            b == self.hit_defined(*r),
    ;

    /// Whether `normal_at` can be called with `pt`.
    fn can_normal_at(&self, pt: Tuple<T>) -> (b: bool)
        ensures
            b == self.normal_defined(pt),
    ;

    /// The parameters at which `r`, a ray in the shape's own space, meets
    /// the shape.
    fn hit(&self, r: &Ray<T>) -> (v: Vec<T>)
        requires
            self.hit_defined(*r),
        ensures
            v@ == self.hit_spec(*r),
    ;

    /// The normal at `pt`, a point of the shape's own space.
    fn normal_at(&self, pt: Tuple<T>) -> (n: Tuple<T>)
        requires
            self.normal_defined(pt),
        ensures
            n == self.normal_spec(pt),
    ;
}

/// The origin of space, as a point.
pub open spec fn center<T: Num>() -> Tuple<T> {
    Tuple(T::zero_spec(), T::zero_spec(), T::zero_spec(), T::one_spec())
}

/// The discriminant of the equation whose roots are the parameters at
/// which `r` meets the unit sphere.
pub open spec fn discriminant<T: Real>(r: Ray<T>) -> T {
    let sphere_to_ray = r.origin.minus_spec(center());
    let a = dot_spec(r.dir, r.dir);
    let b = T::from_usize_spec(2).mul_spec(dot_spec(r.dir, sphere_to_ray));
    let c = dot_spec(sphere_to_ray, sphere_to_ray).sub_spec(T::one_spec());
    b.mul_spec(b).sub_spec(T::from_usize_spec(4).mul_spec(a).mul_spec(c))
}

/// The parameters at which `r` meets the unit sphere: none where the
/// discriminant is less than zero, else the two roots, the one with the
/// square root subtracted first.
pub open spec fn sphere_hits<T: Real>(r: Ray<T>) -> Seq<T> {
    let sphere_to_ray = r.origin.minus_spec(center());
    let a = dot_spec(r.dir, r.dir);
    let b = T::from_usize_spec(2).mul_spec(dot_spec(r.dir, sphere_to_ray));
    let disc = discriminant(r);
    let twice_a = T::from_usize_spec(2).mul_spec(a);
    if disc.lt_spec(T::zero_spec()) {
        Seq::empty()
    } else {
        seq![
            b.neg_spec().sub_spec(disc.sqrt_spec()).div_spec(twice_a),
            b.neg_spec().add_spec(disc.sqrt_spec()).div_spec(twice_a),
        ]
    }
}

/// The vector-only steps of meeting the unit sphere receive vectors.
pub open spec fn sphere_hit_defined<T: Real>(r: Ray<T>) -> bool {
    r.dir.is_vector() && r.origin.minus_spec(center()).is_vector()
}

/// The step from the origin to `pt` is a vector.
pub open spec fn sphere_normal_defined<T: Real>(pt: Tuple<T>) -> bool {
    pt.minus_spec(center()).is_vector()
}

/// The normal of the unit sphere at `pt`: the step from the origin to `pt`,
/// at length one.
pub open spec fn sphere_normal<T: Real>(pt: Tuple<T>) -> Tuple<T> {
    pt.minus_spec(center()).normalize_spec()
}

impl Sphere {
    /// The unit sphere as a shape.
    pub fn new() -> (r: Shape)
        ensures
            r == Shape::Sphere(Sphere),
    {
        Shape::Sphere(Sphere)
    }
}

impl<T: Real> Hittable<T> for Sphere {
    open spec fn hit_defined(&self, r: Ray<T>) -> bool {
        sphere_hit_defined(r)
    }

    open spec fn hit_spec(&self, r: Ray<T>) -> Seq<T> {
        sphere_hits(r)
    }

    open spec fn normal_defined(&self, pt: Tuple<T>) -> bool {
        sphere_normal_defined(pt)
    }

    open spec fn normal_spec(&self, pt: Tuple<T>) -> Tuple<T> {
        sphere_normal(pt)
    }

    fn can_hit(&self, r: &Ray<T>) -> (b: bool) {
        let sphere_to_ray = r.origin.minus(Tuple::new_point(T::zero(), T::zero(), T::zero()));
        let direction = r.dir.is_vector();
        let offset = sphere_to_ray.is_vector();
        assert(self.hit_defined(*r) == sphere_hit_defined(*r));
        direction && offset
    }

    fn can_normal_at(&self, pt: Tuple<T>) -> (b: bool) {
        let offset = pt.minus(Tuple::new_point(T::zero(), T::zero(), T::zero()));
        offset.is_vector()
    }

    fn hit(&self, r: &Ray<T>) -> (v: Vec<T>) {
        let sphere_to_ray = r.origin.minus(Tuple::new_point(T::zero(), T::zero(), T::zero()));

        let a = dot(r.dir, r.dir);
        let b = T::from_usize(2).mul(dot(r.dir, sphere_to_ray));
        let c = dot(sphere_to_ray, sphere_to_ray).sub(T::one());

        let disc = b.mul(b).sub(T::from_usize(4).mul(a).mul(c));
        let mut hits: Vec<T> = Vec::new();
        if !disc.lt(T::zero()) {
            let t1 = b.neg().sub(disc.sqrt()).div(T::from_usize(2).mul(a));
            let t2 = b.neg().add(disc.sqrt()).div(T::from_usize(2).mul(a));
            hits.push(t1);
            hits.push(t2);
        }
        proof {
            assert(hits@ =~= sphere_hits(*r));
        }
        hits
    }

    fn normal_at(&self, pt: Tuple<T>) -> (n: Tuple<T>) {
        pt.minus(Tuple::new_point(T::zero(), T::zero(), T::zero())).normalize()
    }
}

impl<T: Real> Hittable<T> for Shape {
    open spec fn hit_defined(&self, r: Ray<T>) -> bool {
        match self {
            Shape::Sphere(_) => sphere_hit_defined(r),
        }
    }

    open spec fn hit_spec(&self, r: Ray<T>) -> Seq<T> {
        match self {
            Shape::Sphere(_) => sphere_hits(r),
        }
    }

    open spec fn normal_defined(&self, pt: Tuple<T>) -> bool {
        match self {
            Shape::Sphere(_) => sphere_normal_defined(pt),
        }
    }

    open spec fn normal_spec(&self, pt: Tuple<T>) -> Tuple<T> {
        match self {
            Shape::Sphere(_) => sphere_normal(pt),
        }
    }

    fn can_hit(&self, r: &Ray<T>) -> (b: bool) {
        match self {
            Shape::Sphere(sphere) => sphere.can_hit(r),
        }
    }

    fn can_normal_at(&self, pt: Tuple<T>) -> (b: bool) {
        match self {
            Shape::Sphere(sphere) => sphere.can_normal_at(pt),
        }
    }

    fn hit(&self, r: &Ray<T>) -> (v: Vec<T>) {
        match self {
            Shape::Sphere(sphere) => sphere.hit(r),
        }
    }

    fn normal_at(&self, pt: Tuple<T>) -> (n: Tuple<T>) {
        match self {
            Shape::Sphere(sphere) => sphere.normal_at(pt),
        }
    }
}

/// One record for each parameter of `hits`, in their order, each with `obj`.
pub open spec fn tagged<'a, T>(hits: Seq<T>, obj: &'a Object<T>) -> Seq<Hitrecord<'a, T>> {
    Seq::new(hits.len(), |k: int| Hitrecord { hit: hits[k], obj })
}

impl<'a, T: Real> Hitrecord<'a, T> {
    /// The parameter is at or after the ray's origin.
    pub open spec fn is_forward(self) -> bool {
        T::zero_spec().le_spec(self.hit)
    }

    /// The record of the parameter `hit` with `obj`.
    pub fn new(hit: T, obj: &'a Object<T>) -> (r: Self)
        ensures
            r == (Hitrecord { hit, obj }),
    {
        Hitrecord { hit, obj }
    }

    /// One record for each parameter of `hits`, in their order, each with `obj`.
    pub fn new_vec(hits: Vec<T>, obj: &'a Object<T>) -> (r: Vec<Self>)
        ensures
            r@ == tagged(hits@, obj),
    {
        let mut out: Vec<Hitrecord<'a, T>> = Vec::new();
        let mut k: usize = 0;
        while k < hits.len()
            invariant
                k <= hits.len(),
                out@ == tagged(hits@, obj).take(k as int),
            decreases hits.len() - k,
        {
            out.push(Hitrecord::new(hits[k], obj));
            proof {
                assert(out@ =~= tagged(hits@, obj).take(k + 1));
            }
            k += 1;
        }
        proof {
            assert(out@ =~= tagged(hits@, obj));
        }
        out
    }
}

impl<T: Real> Object<T> {
    /// The inverse transform has four rows and four columns.
    pub open spec fn wf(&self) -> bool {
        is_grid(self.inv_transform@, 4, 4)
    }

    /// The ray `r` as the shape sees it in its own space.
    pub open spec fn local_ray(&self, r: Ray<T>) -> Ray<T> {
        r.transform_spec(self.inv_transform@)
    }

    /// The vector-only steps of `hit` receive vectors.
    pub open spec fn hit_defined(&self, r: Ray<T>) -> bool {
        self.shape.hit_defined(self.local_ray(r))
    }

    /// The parameters at which `r` meets the object. They are those at
    /// which the ray meets the shape in the shape's own space, whose
    /// direction the transform may have stretched.
    pub open spec fn hits(&self, r: Ray<T>) -> Seq<T> {
        self.shape.hit_spec(self.local_ray(r))
    }

    /// The point `pt` of the world as the shape sees it in its own space.
    pub open spec fn local_point(&self, pt: Tuple<T>) -> Tuple<T> {
        apply_spec(self.inv_transform@, pt)
    }

    /// The shape's own normal at `pt`, brought back to the world by the
    /// transposed inverse transform, with its last coordinate set to zero.
    pub open spec fn world_normal(&self, pt: Tuple<T>) -> Tuple<T> {
        let n = apply_spec(
            transpose_spec(self.inv_transform@),
            self.shape.normal_spec(self.local_point(pt)),
        );
        Tuple(n.0, n.1, n.2, T::zero_spec())
    }

    /// The vector-only steps of `normal_at` receive vectors.
    pub open spec fn normal_defined(&self, pt: Tuple<T>) -> bool {
        self.shape.normal_defined(self.local_point(pt)) && self.world_normal(pt).is_vector()
    }

    /// The normal at the point `pt` of the world: the shape's own normal,
    /// brought back by the transposed inverse transform, with its last
    /// coordinate set to zero, at length one.
    pub open spec fn normal_spec(&self, pt: Tuple<T>) -> Tuple<T> {
        self.world_normal(pt).normalize_spec()
    }

    /// The shape and the inverse transform are the same, and the materials
    /// match.
    pub open spec fn matches(&self, other: &Object<T>) -> bool {
        &&& self.shape == other.shape
        &&& self.inv_transform.same_cells(&other.inv_transform)
        &&& self.material.matches(other.material)
    }

    /// The shape where it stands, with the standard material.
    pub fn new(shape: Shape) -> (r: Self)
        ensures
            r.shape == shape,
            r.inv_transform@ == eye_spec::<T>(4),
            r.material == Material::<T>::standard(),
            r.wf(),
    {
        Object { shape, inv_transform: Matrix::eye(4), material: Material::new() }
    }

    /// Places the shape by `transform`, of which the inverse is kept.
    pub fn apply_transform(&mut self, transform: Matrix<T>)
        requires
            is_grid(transform@, 4, 4),
            !is_singular(transform@),
        ensures
            final(self).inv_transform@ == inverse_spec(transform@),
            final(self).shape == old(self).shape,
            final(self).material == old(self).material,
            final(self).wf(),
    {
        match transform.inverse() {
            Some(inverse) => {
                self.inv_transform = inverse;
            },
            None => {},
        }
    }

    /// The records of `r` with the object, in the order in which the shape
    /// gives the parameters; nothing where a vector-only step would receive
    /// what is no vector.
    pub fn try_hit<'a>(&'a self, r: &Ray<T>) -> (v: Option<Vec<Hitrecord<'a, T>>>)
        requires
            self.wf(),
        ensures
            match v {
                Some(records) => self.hit_defined(*r) && records@ == tagged(self.hits(*r), self),
                None => !self.hit_defined(*r),
            },
    {
        let new_r = r.transform(&self.inv_transform);
        if !self.shape.can_hit(&new_r) {
            return None;
        }
        Some(Hitrecord::new_vec(self.shape.hit(&new_r), self))
    }

    /// The records of `r` with the object, in the order in which the shape
    /// gives the parameters.
    pub fn hit<'a>(&'a self, r: &Ray<T>) -> (v: Vec<Hitrecord<'a, T>>)
        requires
            self.wf(),
            self.hit_defined(*r),
        ensures
            v@ == tagged(self.hits(*r), self),
    {
        match self.try_hit(r) {
            Some(records) => records,
            None => unreached(),
        }
    }

    /// The normal at the point `pt` of the world; nothing where a
    /// vector-only step would receive what is no vector.
    pub fn try_normal_at(&self, pt: Tuple<T>) -> (n: Option<Tuple<T>>)
        requires
            self.wf(),
        ensures
            match n {
                Some(normal) => self.normal_defined(pt) && normal == self.normal_spec(pt),
                None => !self.normal_defined(pt),
            },
    {
        let obj_pt = self.inv_transform.apply(pt);
        if !self.shape.can_normal_at(obj_pt) {
            return None;
        }
        let mut normal = self.inv_transform.transpose().apply(self.shape.normal_at(obj_pt));
        normal.3 = T::zero();
        if !normal.is_vector() {
            return None;
        }
        Some(normal.normalize())
    }

    /// The normal at the point `pt` of the world.
    pub fn normal_at(&self, pt: Tuple<T>) -> (n: Tuple<T>)
        requires
            self.wf(),
            self.normal_defined(pt),
        ensures
            n == self.normal_spec(pt),
    {
        match self.try_normal_at(pt) {
            Some(normal) => normal,
            None => unreached(),
        }
    }
}

impl<T: Real> PartialEq for Object<T> {
    fn eq(&self, other: &Object<T>) -> (r: bool) {
        self.shape == other.shape && self.inv_transform.same(&other.inv_transform)
            && self.material == other.material
    }
}

impl<T: Real> vstd::std_specs::cmp::PartialEqSpecImpl for Object<T> {
    open spec fn obeys_eq_spec() -> bool {
        true
    }

    open spec fn eq_spec(&self, other: &Object<T>) -> bool {
        self.matches(other)
    }
}

impl<'a, T: Real> PartialEq for Hitrecord<'a, T> {
    fn eq(&self, other: &Hitrecord<'a, T>) -> (r: bool) {
        self.hit.eq(other.hit) && *self.obj == *other.obj
    }
}

impl<'a, T: Real> vstd::std_specs::cmp::PartialEqSpecImpl for Hitrecord<'a, T> {
    open spec fn obeys_eq_spec() -> bool {
        true
    }

    open spec fn eq_spec(&self, other: &Hitrecord<'a, T>) -> bool {
        self.hit.eq_spec(other.hit) && self.obj.matches(other.obj)
    }
}

/// The nearest forward record among the first `n` of `hits`: going through
/// them in order, the first forward record is kept until one with a
/// parameter less than its own comes.
pub open spec fn nearest<'a, T: Real>(hits: Seq<Hitrecord<'a, T>>, n: nat) -> Option<
    Hitrecord<'a, T>,
>
    decreases n,
{
    if n == 0 {
        None
    } else {
        let best = nearest(hits, (n - 1) as nat);
        let h = hits[n - 1];
        if !h.is_forward() {
            best
        } else {
            match best {
                None => Some(h),
                Some(b) => if h.hit.lt_spec(b.hit) {
                    Some(h)
                } else {
                    best
                },
            }
        }
    }
}

/// What `nearest` gives is a forward record of `hits`, and it gives
/// nothing only where no record is forward.
pub proof fn lemma_nearest_is_forward<'a, T: Real>(hits: Seq<Hitrecord<'a, T>>, n: nat)
    requires
        n <= hits.len(),
    ensures
        match nearest(hits, n) {
            Some(h) => h.is_forward() && exists|k: int| 0 <= k < n && hits[k] == h,
            None => forall|k: int| 0 <= k < n ==> !(#[trigger] hits[k]).is_forward(),
        },
    decreases n,
{
    if n > 0 {
        lemma_nearest_is_forward(hits, (n - 1) as nat);
        let h = hits[n - 1];
        match nearest(hits, n) {
            Some(found) => {
                if found == h {
                    assert(hits[n - 1] == found);
                } else {
                    let k = choose|k: int| 0 <= k < n - 1 && hits[k] == found;
                    assert(hits[k] == found);
                }
            },
            None => {},
        }
    }
}

/// Where "less than" is asymmetric and transitive, no forward record has a
/// parameter less than that of the record that `nearest` gives.
pub proof fn lemma_nearest_is_least<'a, T: Real>(hits: Seq<Hitrecord<'a, T>>, n: nat)
    requires
        n <= hits.len(),
        lt_is_asymmetric::<T>(),
        lt_is_transitive::<T>(),
    ensures
        match nearest(hits, n) {
            Some(h) => forall|k: int|
                0 <= k < n && (#[trigger] hits[k]).is_forward() ==> !hits[k].hit.lt_spec(h.hit),
            None => true,
        },
    decreases n,
{
    if n > 0 {
        lemma_nearest_is_least(hits, (n - 1) as nat);
        lemma_nearest_is_forward(hits, (n - 1) as nat);
        let x = hits[n - 1];
        match nearest(hits, n) {
            Some(h) => {
                assert forall|k: int|
                    0 <= k < n && (#[trigger] hits[k]).is_forward() implies !hits[k].hit.lt_spec(
                    h.hit,
                ) by {
                    if k < n - 1 {
                        match nearest(hits, (n - 1) as nat) {
                            Some(b) => {
                                if hits[k].hit.lt_spec(h.hit) && h != b {
                                    assert(h.hit.lt_spec(b.hit));
                                    assert(hits[k].hit.lt_spec(b.hit));
                                }
                            },
                            None => {},
                        }
                    } else {
                        if h != x {
                            assert(!x.hit.lt_spec(h.hit));
                        } else if x.hit.lt_spec(x.hit) {
                            assert(!x.hit.lt_spec(x.hit));
                        }
                    }
                }
            },
            None => {},
        }
    }
}

/// The nearest record at or after the ray's origin, if there is one.
pub fn find_hit<'a, T: Real>(hits: Vec<Hitrecord<'a, T>>) -> (r: Option<Hitrecord<'a, T>>)
    ensures
        r == nearest(hits@, hits@.len()),
        r is None <==> forall|k: int| 0 <= k < hits@.len() ==> !(#[trigger] hits@[k]).is_forward(),
        match r {
            Some(h) => h.is_forward() && exists|k: int| 0 <= k < hits@.len() && hits@[k] == h,
            None => true,
        },
{
    let mut best: Option<Hitrecord<'a, T>> = None;
    let mut k: usize = 0;
    while k < hits.len()
        invariant
            k <= hits.len(),
            best == nearest(hits@, k as nat),
        decreases hits.len() - k,
    {
        let h = hits[k];
        if T::zero().le(h.hit) {
            best = match best {
                None => Some(h),
                Some(b) => if h.hit.lt(b.hit) {
                    Some(h)
                } else {
                    Some(b)
                },
            };
        }
        k += 1;
    }
    proof {
        lemma_nearest_is_forward(hits@, hits@.len());
    }
    best
}

} // verus!
