use vstd::prelude::*;
use crate::color::Color;
use crate::light::PointLight;
use crate::material::{lighting_defined, lighting_spec, try_lightning, Material};
use crate::matrix::{eye_spec, inverse_spec, is_singular, scaling_spec, Matrix};
use crate::object::{find_hit, nearest, tagged, Hitrecord, Object, Shape, Sphere};
use crate::ray::Ray;
use crate::scalar::{lt_is_asymmetric, ratio, ratio_spec, Real};
use crate::tuple::{dot, dot_spec, Tuple};

verus! {

/// The lights and the objects of a scene, each in the order in which they
/// were added.
pub struct World<T> {
    pub lights: Vec<PointLight<T>>,
    pub objects: Vec<Object<T>>,
}

/// What shading needs to know of the place where a ray meets an object.
pub struct Hitinfo<'a, T> {
    pub hit: T,
    pub obj: &'a Object<T>,
    pub point: Tuple<T>,
    pub over_point: Tuple<T>,
    pub eyev: Tuple<T>,
    pub normalv: Tuple<T>,
    pub inside: bool,
}

/// The records of `ray` with the first `n` of `objects`, object after
/// object.
pub open spec fn gathered<'a, T: Real>(objects: Seq<Object<T>>, ray: Ray<T>, n: nat) -> Seq<
    Hitrecord<'a, T>,
>
    decreases n,
{
    if n == 0 {
        Seq::empty()
    } else {
        gathered(objects, ray, (n - 1) as nat) + tagged(
            objects[n - 1].hits(ray),
            &objects[n - 1],
        )
    }
}

/// The record `h` put into `s` before the trailing records whose parameter
/// is greater than its own.
pub open spec fn inserted<'a, T: Real>(s: Seq<Hitrecord<'a, T>>, h: Hitrecord<'a, T>) -> Seq<
    Hitrecord<'a, T>,
>
    decreases s.len(),
{
    if s.len() == 0 {
        seq![h]
    } else if h.hit.lt_spec(s.last().hit) {
        inserted(s.drop_last(), h).push(s.last())
    } else {
        s.push(h)
    }
}

/// The first `n` records of `s` by ascending parameter. Records none of
/// which is less than the other keep the order that they have in `s`.
pub open spec fn ascending<'a, T: Real>(s: Seq<Hitrecord<'a, T>>, n: nat) -> Seq<
    Hitrecord<'a, T>,
>
    decreases n,
{
    if n == 0 {
        Seq::empty()
    } else {
        inserted(ascending(s, (n - 1) as nat), s[n - 1])
    }
}

/// The distance at which the surface point used for shadow tests lies
/// above the surface: one hundredth.
pub open spec fn shadow_offset<T: Real>() -> T {
    ratio_spec::<T>(1, 100)
}

/// The vector-only steps of `prepare_computations` receive vectors.
pub open spec fn prepare_defined<'a, T: Real>(hr: Hitrecord<'a, T>, ray: Ray<T>) -> bool {
    let normal = hr.obj.normal_spec(ray.pos_spec(hr.hit));
    &&& hr.obj.normal_defined(ray.pos_spec(hr.hit))
    &&& normal.is_vector()
    &&& ray.dir.negated_spec().is_vector()
}

/// What shading needs to know of the record `hr` of `ray`: the point, the
/// eye vector opposite to the ray, whether the ray comes from inside the
/// object, the normal turned towards the eye, and the point lifted off the
/// surface along that normal.
pub open spec fn prepare_spec<'a, T: Real>(hr: Hitrecord<'a, T>, ray: Ray<T>) -> Hitinfo<'a, T> {
    let point = ray.pos_spec(hr.hit);
    let normal = hr.obj.normal_spec(point);
    let eyev = ray.dir.negated_spec();
    let inside = dot_spec(normal, eyev).lt_spec(T::zero_spec());
    let normalv = if inside {
        normal.negated_spec()
    } else {
        normal
    };
    Hitinfo {
        hit: hr.hit,
        obj: hr.obj,
        point,
        over_point: point.plus_spec(normalv.scaled_spec(shadow_offset())),
        eyev,
        normalv,
        inside,
    }
}

impl<T: Real> World<T> {
    /// Every object keeps an inverse transform of four rows and columns.
    pub open spec fn wf(&self) -> bool {
        forall|i: int| 0 <= i < self.objects@.len() ==> (#[trigger] self.objects@[i]).wf()
    }

    /// The vector-only steps of meeting each object receive vectors.
    pub open spec fn intersect_defined(&self, ray: Ray<T>) -> bool {
        forall|i: int|
            0 <= i < self.objects@.len() ==> (#[trigger] self.objects@[i]).hit_defined(ray)
    }

    /// The records of `ray` with all objects, by ascending parameter.
    pub open spec fn intersections<'a>(&self, ray: Ray<T>) -> Seq<Hitrecord<'a, T>> {
        let all = gathered(self.objects@, ray, self.objects@.len());
        ascending(all, all.len())
    }

    /// The nearest record of `ray` at or after its origin.
    pub open spec fn first_hit<'a>(&self, ray: Ray<T>) -> Option<Hitrecord<'a, T>> {
        nearest(self.intersections(ray), self.intersections(ray).len())
    }

    /// The ray from `point` towards `light`.
    pub open spec fn shadow_ray(point: Tuple<T>, light: PointLight<T>) -> Ray<T> {
        Ray { origin: point, dir: light.pos.minus_spec(point).normalize_spec().normalize_spec() }
    }

    /// The vector-only steps of the shadow test receive vectors.
    pub open spec fn shadow_defined(&self, point: Tuple<T>, light: PointLight<T>) -> bool {
        &&& light.pos.minus_spec(point).is_vector()
        &&& light.pos.minus_spec(point).normalize_spec().is_vector()
        &&& self.intersect_defined(Self::shadow_ray(point, light))
    }

    /// An object stands between `point` and `light`: the ray from the point
    /// towards the light has a nearest forward record, whose parameter is
    /// less than the distance to the light.
    pub open spec fn shadow_spec(&self, point: Tuple<T>, light: PointLight<T>) -> bool {
        match self.first_hit(Self::shadow_ray(point, light)) {
            Some(h) => h.hit.lt_spec(light.pos.minus_spec(point).magnitude_spec()),
            None => false,
        }
    }

    /// The vector-only steps of shading under each light receive vectors.
    pub open spec fn shade_defined<'a>(&self, comps: Hitinfo<'a, T>) -> bool {
        forall|i: int|
            0 <= i < self.lights@.len() ==> {
                &&& self.shadow_defined(comps.over_point, #[trigger] self.lights@[i])
                &&& lighting_defined(
                    self.lights@[i],
                    comps.over_point,
                    comps.eyev,
                    comps.normalv,
                    self.shadow_spec(comps.over_point, self.lights@[i]),
                )
            }
    }

    /// The sum, from black and in order, of what the first `n` lights give
    /// at the place that `comps` describes, each light with its own shadow
    /// test.
    pub open spec fn shade_spec<'a>(&self, comps: Hitinfo<'a, T>, n: nat) -> Color<T>
        decreases n,
    {
        if n == 0 {
            Color::black()
        } else {
            self.shade_spec(comps, (n - 1) as nat).plus_spec(
                lighting_spec(
                    comps.obj.material,
                    self.lights@[n - 1],
                    comps.over_point,
                    comps.eyev,
                    comps.normalv,
                    self.shadow_spec(comps.over_point, self.lights@[n - 1]),
                ),
            )
        }
    }

    /// The vector-only steps of `color_at` receive vectors.
    pub open spec fn color_defined(&self, ray: Ray<T>) -> bool {
        &&& self.intersect_defined(ray)
        &&& match self.first_hit(ray) {
            Some(h) => prepare_defined(h, ray) && self.shade_defined(prepare_spec(h, ray)),
            None => true,
        }
    }

    /// The colour that `ray` sees: black where it meets nothing at or after
    /// its origin, else the shading of the nearest such place.
    pub open spec fn color_spec(&self, ray: Ray<T>) -> Color<T> {
        match self.first_hit(ray) {
            Some(h) => self.shade_spec(prepare_spec(h, ray), self.lights@.len()),
            None => Color::black(),
        }
    }

    /// The world without lights and objects.
    pub fn new() -> (r: Self)
        ensures
            r.lights@.len() == 0,
            r.objects@.len() == 0,
            r.wf(),
    {
        World { lights: Vec::new(), objects: Vec::new() }
    }

    /// Adds the light `l` after the lights that are there.
    pub fn add_light(&mut self, l: PointLight<T>)
        ensures
            final(self).lights@ == old(self).lights@.push(l),
            final(self).objects == old(self).objects,
    {
        self.lights.push(l);
    }

    /// Adds the object `obj` after the objects that are there.
    pub fn add_object(&mut self, obj: Object<T>)
        ensures
            final(self).objects@ == old(self).objects@.push(obj),
            final(self).lights == old(self).lights,
            old(self).wf() && obj.wf() ==> final(self).wf(),
    {
        self.objects.push(obj);
    }
}

/// The records of `v` by ascending parameter; records none of which is less
/// than the other stay in the order that they have in `v`.
fn sorted_by_hit<'a, T: Real>(v: Vec<Hitrecord<'a, T>>) -> (r: Vec<Hitrecord<'a, T>>)
    ensures
        r@ == ascending(v@, v@.len()),
{
    let mut out: Vec<Hitrecord<'a, T>> = Vec::new();
    let mut k: usize = 0;
    while k < v.len()
        invariant
            k <= v.len(),
            out@ == ascending(v@, k as nat),
        decreases v.len() - k,
    {
        let h = v[k];
        let ghost s = out@;
        let mut j: usize = out.len();
        proof {
            assert(s.take(j as int) =~= s);
            assert(inserted(s, h) + s.skip(j as int) =~= inserted(s, h));
        }
        while j > 0 && h.hit.lt(out[j - 1].hit)
            invariant
                j <= out.len(),
                out@ == s,
                inserted(s, h) == inserted(s.take(j as int), h) + s.skip(j as int),
            decreases j,
        {
            proof {
                let head = s.take(j as int);
                assert(head.last() == s[j - 1]);
                assert(head.drop_last() =~= s.take(j - 1));
                assert(inserted(head, h) == inserted(s.take(j - 1), h).push(s[j - 1]));
                assert(inserted(s.take(j - 1), h).push(s[j - 1]) + s.skip(j as int) =~= inserted(
                    s.take(j - 1),
                    h,
                ) + s.skip(j - 1));
            }
            j -= 1;
        }
        proof {
            let head = s.take(j as int);
            if j > 0 {
                assert(head.last() == s[j - 1]);
            }
            assert(inserted(head, h) =~= head.push(h));
            assert(head.push(h) + s.skip(j as int) =~= s.insert(j as int, h));
        }
        out.insert(j, h);
        k += 1;
    }
    out
}

impl<T: Real> World<T> {
    /// The inner sphere of the default world can be placed: its stretch by
    /// one half is not singular.
    pub open spec fn default_defined() -> bool {
        !is_singular(scaling_spec::<T>(ratio_spec(5, 10), ratio_spec(5, 10), ratio_spec(5, 10)))
    }

    /// `self` is the default world: a white light at (-10, 10, -10), a unit
    /// sphere with colour (8/10, 1, 6/10), diffuse 7/10 and specular 2/10,
    /// and a sphere of half its size with the standard material.
    pub open spec fn is_default(&self) -> bool {
        &&& self.wf()
        &&& self.lights@.len() == 1
        &&& self.lights@[0].intensity == Color(T::one_spec(), T::one_spec(), T::one_spec())
        &&& self.lights@[0].pos == Tuple(
            T::from_usize_spec(10).neg_spec(),
            T::from_usize_spec(10),
            T::from_usize_spec(10).neg_spec(),
            T::one_spec(),
        )
        &&& self.objects@.len() == 2
        &&& self.objects@[0].shape == Shape::Sphere(Sphere)
        &&& self.objects@[0].inv_transform@ == eye_spec::<T>(4)
        &&& self.objects@[0].material == (Material {
            color: Color(ratio_spec::<T>(8, 10), T::one_spec(), ratio_spec::<T>(6, 10)),
            diffuse: ratio_spec::<T>(7, 10),
            specular: ratio_spec::<T>(2, 10),
            ..Material::<T>::standard()
        })
        &&& self.objects@[1].shape == Shape::Sphere(Sphere)
        &&& self.objects@[1].inv_transform@ == inverse_spec(
            scaling_spec::<T>(ratio_spec(5, 10), ratio_spec(5, 10), ratio_spec(5, 10)),
        )
        &&& self.objects@[1].material == Material::<T>::standard()
    }

    /// The default world; nothing where the stretch of its inner sphere is
    /// singular.
    pub fn try_new_default() -> (r: Option<Self>)
        ensures
            match r {
                Some(world) => Self::default_defined() && world.is_default(),
                None => !Self::default_defined(),
            },
    {
        let light = PointLight::new(
            Color::new(T::one(), T::one(), T::one()),
            Tuple::new_point(T::from_usize(10).neg(), T::from_usize(10), T::from_usize(10).neg()),
        );

        let mut s1 = Object::new(Sphere::new());
        s1.material.color = Color::new(ratio(8, 10), T::one(), ratio(6, 10));
        s1.material.diffuse = ratio(7, 10);
        s1.material.specular = ratio(2, 10);

        let mut s2 = Object::new(Sphere::new());
        match Matrix::scale(ratio(5, 10), ratio(5, 10), ratio(5, 10)).inverse() {
            Some(inverse) => {
                s2.inv_transform = inverse;
            },
            None => {
                return None;
            },
        }

        let mut world = World::new();
        world.add_light(light);
        world.add_object(s1);
        world.add_object(s2);
        Some(world)
    }

    /// The default world.
    pub fn new_default() -> (r: Self)
        requires
            Self::default_defined(),
        ensures
            r.is_default(),
    {
        match Self::try_new_default() {
            Some(world) => world,
            None => unreached(),
        }
    }

    /// The records of `ray` with all objects, by ascending parameter;
    /// nothing where a vector-only step would receive what is no vector.
    pub fn try_intersect_world<'a>(&'a self, ray: &Ray<T>) -> (v: Option<Vec<Hitrecord<'a, T>>>)
        requires
            self.wf(),
        ensures
            match v {
                Some(records) => self.intersect_defined(*ray) && records@ == self.intersections(
                    *ray,
                ),
                None => !self.intersect_defined(*ray),
            },
    {
        let mut all: Vec<Hitrecord<'a, T>> = Vec::new();
        let mut i: usize = 0;
        while i < self.objects.len()
            invariant
                i <= self.objects@.len(),
                self.wf(),
                forall|k: int| 0 <= k < i ==> (#[trigger] self.objects@[k]).hit_defined(*ray),
                all@ == gathered(self.objects@, *ray, i as nat),
            decreases self.objects@.len() - i,
        {
            match self.objects[i].try_hit(ray) {
                Some(mut part) => {
                    all.append(&mut part);
                },
                None => {
                    return None;
                },
            }
            i += 1;
        }
        Some(sorted_by_hit(all))
    }

    /// The records of `ray` with all objects, by ascending parameter;
    /// records none of which is less than the other keep the order of the
    /// objects and, for one object, of its parameters.
    pub fn intersect_world<'a>(&'a self, ray: &Ray<T>) -> (v: Vec<Hitrecord<'a, T>>)
        requires
            self.wf(),
            self.intersect_defined(*ray),
        ensures
            v@ == self.intersections(*ray),
    {
        match self.try_intersect_world(ray) {
            Some(records) => records,
            None => unreached(),
        }
    }

    /// Whether an object stands between `point` and `light`; nothing where
    /// a vector-only step would receive what is no vector.
    pub fn try_is_shadowed(&self, point: &Tuple<T>, light: &PointLight<T>) -> (r: Option<bool>)
        requires
            self.wf(),
        ensures
            match r {
                Some(b) => self.shadow_defined(*point, *light) && b == self.shadow_spec(
                    *point,
                    *light,
                ),
                None => !self.shadow_defined(*point, *light),
            },
    {
        let v = light.pos.minus(*point);
        if !v.is_vector() {
            return None;
        }
        let dist = v.magnitude();
        let dir = v.normalize();
        if !dir.is_vector() {
            return None;
        }
        let r = Ray::new(*point, dir);
        match self.try_intersect_world(&r) {
            Some(i) => match find_hit(i) {
                Some(h) => Some(h.hit.lt(dist)),
                None => Some(false),
            },
            None => None,
        }
    }

    /// Whether an object stands between `point` and `light`.
    pub fn is_shadowed(&self, point: &Tuple<T>, light: &PointLight<T>) -> (r: bool)
        requires
            self.wf(),
            self.shadow_defined(*point, *light),
        ensures
            r == self.shadow_spec(*point, *light),
    {
        match self.try_is_shadowed(point, light) {
            Some(b) => b,
            None => unreached(),
        }
    }

    /// What shading needs to know of the record `hr` of `ray`; nothing
    /// where a vector-only step would receive what is no vector.
    pub fn try_prepare_computations<'a>(hr: &Hitrecord<'a, T>, ray: &Ray<T>) -> (r: Option<
        Hitinfo<'a, T>,
    >)
        requires
            hr.obj.wf(),
        ensures
            match r {
                Some(info) => prepare_defined(*hr, *ray) && info == prepare_spec(*hr, *ray),
                None => !prepare_defined(*hr, *ray),
            },
    {
        let pt = ray.pos(hr.hit);

        let normal = match hr.obj.try_normal_at(pt) {
            Some(normal) => normal,
            None => {
                return None;
            },
        };
        let eyev = ray.dir.negated();
        if !normal.is_vector() || !eyev.is_vector() {
            return None;
        }
        let inside = dot(normal, eyev).lt(T::zero());
        let normalv = if inside {
            normal.negated()
        } else {
            normal
        };
        Some(
            Hitinfo {
                hit: hr.hit,
                obj: hr.obj,
                point: pt,
                over_point: pt.plus(normalv.scaled(ratio(1, 100))),
                eyev,
                normalv,
                inside,
            },
        )
    }

    /// What shading needs to know of the record `hr` of `ray`.
    pub fn prepare_computations<'a>(hr: &Hitrecord<'a, T>, ray: &Ray<T>) -> (r: Hitinfo<'a, T>)
        requires
            hr.obj.wf(),
            prepare_defined(*hr, *ray),
        ensures
            r == prepare_spec(*hr, *ray),
    {
        match Self::try_prepare_computations(hr, ray) {
            Some(info) => info,
            None => unreached(),
        }
    }

    /// The sum of what every light gives at the place that `comps`
    /// describes; nothing where a vector-only step would receive what is no
    /// vector.
    pub fn try_shade_hit<'a>(&self, comps: &Hitinfo<'a, T>) -> (r: Option<Color<T>>)
        requires
            self.wf(),
        ensures
            match r {
                Some(c) => self.shade_defined(*comps) && c == self.shade_spec(
                    *comps,
                    self.lights@.len(),
                ),
                None => !self.shade_defined(*comps),
            },
    {
        let mut sum = Color::new(T::zero(), T::zero(), T::zero());
        let mut i: usize = 0;
        while i < self.lights.len()
            invariant
                i <= self.lights@.len(),
                self.wf(),
                forall|k: int|
                    0 <= k < i ==> {
                        &&& self.shadow_defined(comps.over_point, #[trigger] self.lights@[k])
                        &&& lighting_defined(
                            self.lights@[k],
                            comps.over_point,
                            comps.eyev,
                            comps.normalv,
                            self.shadow_spec(comps.over_point, self.lights@[k]),
                        )
                    },
                sum == self.shade_spec(*comps, i as nat),
            decreases self.lights@.len() - i,
        {
            let l = &self.lights[i];
            let in_shadow = match self.try_is_shadowed(&comps.over_point, l) {
                Some(b) => b,
                None => {
                    return None;
                },
            };
            let share = match try_lightning(
                &comps.obj.material,
                l,
                &comps.over_point,
                &comps.eyev,
                &comps.normalv,
                in_shadow,
            ) {
                Some(c) => c,
                None => {
                    return None;
                },
            };
            sum = sum.plus(share);
            i += 1;
        }
        Some(sum)
    }

    /// The sum of what every light gives at the place that `comps`
    /// describes.
    pub fn shade_hit<'a>(&self, comps: &Hitinfo<'a, T>) -> (r: Color<T>)
        requires
            self.wf(),
            self.shade_defined(*comps),
        ensures
            r == self.shade_spec(*comps, self.lights@.len()),
    {
        match self.try_shade_hit(comps) {
            Some(c) => c,
            None => unreached(),
        }
    }

    /// The colour that `ray` sees; nothing where a vector-only step would
    /// receive what is no vector.
    pub fn try_color_at(&self, ray: &Ray<T>) -> (r: Option<Color<T>>)
        requires
            self.wf(),
        ensures
            match r {
                Some(c) => self.color_defined(*ray) && c == self.color_spec(*ray),
                None => !self.color_defined(*ray),
            },
    {
        let hrs = match self.try_intersect_world(ray) {
            Some(hrs) => hrs,
            None => {
                return None;
            },
        };
        proof {
            self.lemma_records_are_of_the_world(*ray);
        }
        match find_hit(hrs) {
            None => Some(Color::new(T::zero(), T::zero(), T::zero())),
            Some(h) => {
                match Self::try_prepare_computations(&h, ray) {
                    Some(hi) => self.try_shade_hit(&hi),
                    None => None,
                }
            },
        }
    }

    /// The colour that `ray` sees.
    pub fn color_at(&self, ray: &Ray<T>) -> (r: Color<T>)
        requires
            self.wf(),
            self.color_defined(*ray),
        ensures
            r == self.color_spec(*ray),
    {
        match self.try_color_at(ray) {
            Some(c) => c,
            None => unreached(),
        }
    }
}

/// `inserted` puts one record more into the records it is given.
pub proof fn lemma_inserted_permutes<'a, T: Real>(s: Seq<Hitrecord<'a, T>>, h: Hitrecord<'a, T>)
    ensures
        inserted(s, h).len() == s.len() + 1,
        inserted(s, h).to_multiset() == s.to_multiset().insert(h),
    decreases s.len(),
{
    broadcast use vstd::seq_lib::group_to_multiset_ensures;

    if s.len() == 0 {
        assert(s =~= Seq::empty());
        assert(inserted(s, h) =~= Seq::empty().push(h));
    } else if h.hit.lt_spec(s.last().hit) {
        lemma_inserted_permutes(s.drop_last(), h);
        assert(s =~= s.drop_last().push(s.last()));
        let front = s.drop_last().to_multiset();
        assert(front.insert(h).insert(s.last()) =~= front.insert(s.last()).insert(h));
    }
}

/// Sorting loses and adds no record: `ascending` holds each record as
/// often as the records it is given do.
pub proof fn lemma_ascending_permutes<'a, T: Real>(s: Seq<Hitrecord<'a, T>>, n: nat)
    requires
        n <= s.len(),
    ensures
        ascending(s, n).len() == n,
        ascending(s, n).to_multiset() == s.take(n as int).to_multiset(),
    decreases n,
{
    broadcast use vstd::seq_lib::group_to_multiset_ensures;

    if n == 0 {
        assert(s.take(0) =~= Seq::empty());
    } else {
        lemma_ascending_permutes(s, (n - 1) as nat);
        lemma_inserted_permutes(ascending(s, (n - 1) as nat), s[n - 1]);
        assert(s.take(n as int) =~= s.take(n - 1).push(s[n - 1]));
    }
}

/// No record of `s` has a parameter less than that of the record before it.
pub open spec fn in_order<'a, T: Real>(s: Seq<Hitrecord<'a, T>>) -> bool {
    forall|i: int, j: int|
        0 <= i && j == i + 1 && j < s.len() ==> !(#[trigger] s[j]).hit.lt_spec(
            (#[trigger] s[i]).hit,
        )
}

/// Where "less than" is asymmetric, `inserted` keeps records in order, and
/// the last record is the new one or the one that was last.
pub proof fn lemma_inserted_is_ordered<'a, T: Real>(s: Seq<Hitrecord<'a, T>>, h: Hitrecord<'a, T>)
    requires
        lt_is_asymmetric::<T>(),
        in_order(s),
    ensures
        inserted(s, h).len() == s.len() + 1,
        in_order(inserted(s, h)),
        inserted(s, h).last() == h || (s.len() > 0 && inserted(s, h).last() == s.last()),
    decreases s.len(),
{
    let out = inserted(s, h);
    if s.len() == 0 {
    } else if h.hit.lt_spec(s.last().hit) {
        let front = s.drop_last();
        let last = s.last();
        assert(in_order(front)) by {
            assert forall|i: int, j: int| 0 <= i && j == i + 1 && j < front.len() implies !(
            #[trigger] front[j]).hit.lt_spec((#[trigger] front[i]).hit) by {
                assert(front[j] == s[j] && front[i] == s[i]);
            }
        }
        lemma_inserted_is_ordered(front, h);
        let mid = inserted(front, h);
        assert(out == mid.push(last));
        assert(!last.hit.lt_spec(mid.last().hit)) by {
            if mid.last() == h {
                assert(!last.hit.lt_spec(h.hit));
            } else {
                assert(mid.last() == front.last());
                assert(front.last() == s[s.len() - 2]);
                assert(last == s[s.len() - 1]);
            }
        }
        assert forall|i: int, j: int| 0 <= i && j == i + 1 && j < out.len() implies !(
        #[trigger] out[j]).hit.lt_spec((#[trigger] out[i]).hit) by {
            if j < mid.len() {
                assert(out[j] == mid[j] && out[i] == mid[i]);
            } else {
                assert(out[j] == last && out[i] == mid.last());
            }
        }
    } else {
        assert(out == s.push(h));
        assert forall|i: int, j: int| 0 <= i && j == i + 1 && j < out.len() implies !(
        #[trigger] out[j]).hit.lt_spec((#[trigger] out[i]).hit) by {
            if j < s.len() {
                assert(out[j] == s[j] && out[i] == s[i]);
            } else {
                assert(out[j] == h && out[i] == s.last());
            }
        }
    }
}

/// Where "less than" is asymmetric, the records that `ascending` gives are
/// in order.
pub proof fn lemma_ascending_is_ordered<'a, T: Real>(s: Seq<Hitrecord<'a, T>>, n: nat)
    requires
        n <= s.len(),
        lt_is_asymmetric::<T>(),
    ensures
        in_order(ascending(s, n)),
    decreases n,
{
    if n > 0 {
        lemma_ascending_is_ordered(s, (n - 1) as nat);
        lemma_inserted_is_ordered(ascending(s, (n - 1) as nat), s[n - 1]);
    }
}

/// Each of the records gathered from the first `n` objects names one of
/// these objects.
pub proof fn lemma_gathered_names_objects<'a, T: Real>(
    objects: Seq<Object<T>>,
    ray: Ray<T>,
    n: nat,
)
    requires
        n <= objects.len(),
    ensures
        forall|k: int|
            0 <= k < gathered::<T>(objects, ray, n).len() ==> exists|i: int|
                0 <= i < n && *(#[trigger] gathered::<T>(objects, ray, n)[k]).obj == objects[i],
    decreases n,
{
    if n > 0 {
        lemma_gathered_names_objects(objects, ray, (n - 1) as nat);
        let before = gathered::<T>(objects, ray, (n - 1) as nat);
        let all = gathered::<T>(objects, ray, n);
        assert forall|k: int| 0 <= k < all.len() implies exists|i: int|
            0 <= i < n && *(#[trigger] all[k]).obj == objects[i] by {
            if k < before.len() {
                assert(all[k] == before[k]);
                let i = choose|i: int| 0 <= i < n - 1 && *before[k].obj == objects[i];
                assert(*all[k].obj == objects[i]);
            } else {
                assert(*all[k].obj == objects[n - 1]);
            }
        }
    }
}

impl<T: Real> World<T> {
    /// Each record of `ray` with the world names an object of the world; in
    /// a well-formed world that object is well formed.
    pub proof fn lemma_records_are_of_the_world(&self, ray: Ray<T>)
        ensures
            forall|k: int|
                0 <= k < self.intersections(ray).len() ==> exists|i: int|
                    0 <= i < self.objects@.len() && *(#[trigger] self.intersections(ray)[k]).obj
                        == self.objects@[i],
            self.wf() ==> forall|k: int|
                0 <= k < self.intersections(ray).len() ==> (#[trigger] self.intersections(
                    ray,
                )[k]).obj.wf(),
    {
        broadcast use vstd::seq_lib::group_to_multiset_ensures;

        let all = gathered::<T>(self.objects@, ray, self.objects@.len());
        let sorted = self.intersections(ray);
        lemma_gathered_names_objects(self.objects@, ray, self.objects@.len());
        lemma_ascending_permutes(all, all.len());
        assert(all.take(all.len() as int) =~= all);
        assert forall|k: int| 0 <= k < sorted.len() implies exists|i: int|
            0 <= i < self.objects@.len() && *(#[trigger] sorted[k]).obj == self.objects@[i] by {
            assert(sorted.to_multiset().count(sorted[k]) > 0);
            assert(all.to_multiset().count(sorted[k]) > 0);
            assert(all.contains(sorted[k]));
            let q = choose|q: int| 0 <= q < all.len() && all[q] == sorted[k];
            let i = choose|i: int| 0 <= i < self.objects@.len() && *all[q].obj == self.objects@[i];
            assert(*sorted[k].obj == self.objects@[i]);
        }
        if self.wf() {
            assert forall|k: int| 0 <= k < sorted.len() implies (#[trigger] sorted[k]).obj.wf() by {
                let i = choose|i: int|
                    0 <= i < self.objects@.len() && *sorted[k].obj == self.objects@[i];
                assert(self.objects@[i].wf());
            }
        }
    }
}

} // verus!
