use num_traits::Float;
use ray_tracer::camera::Camera;
use ray_tracer::color::Color;
use ray_tracer::light::PointLight;
use ray_tracer::material::{lightning, try_lightning, Material};
use ray_tracer::matrix::{Matrix, TransformBuilder};
use ray_tracer::object::{find_hit, Hitrecord, Hittable, Object, Sphere};
use ray_tracer::ray::Ray;
use ray_tracer::scalar::{Num, Real};
use ray_tracer::tuple::{cross, dot, Tuple};
use ray_tracer::world::World;

/// A floating-point number as a scalar of the library.
#[derive(Clone, Copy, Debug, PartialEq)]
struct Fl<T>(T);

impl<T: Float> Num for Fl<T> {
    fn zero_spec() -> Self {
        Fl(T::zero())
    }
    fn one_spec() -> Self {
        Fl(T::one())
    }
    fn add_spec(self, rhs: Self) -> Self {
        Fl(self.0 + rhs.0)
    }
    fn sub_spec(self, rhs: Self) -> Self {
        Fl(self.0 - rhs.0)
    }
    fn mul_spec(self, rhs: Self) -> Self {
        Fl(self.0 * rhs.0)
    }
    fn eq_spec(self, rhs: Self) -> bool {
        self.0 == rhs.0
    }
    fn zero() -> Self {
        Fl(T::zero())
    }
    fn one() -> Self {
        Fl(T::one())
    }
    fn add(self, rhs: Self) -> Self {
        Fl(self.0 + rhs.0)
    }
    fn sub(self, rhs: Self) -> Self {
        Fl(self.0 - rhs.0)
    }
    fn mul(self, rhs: Self) -> Self {
        Fl(self.0 * rhs.0)
    }
    fn eq(self, rhs: Self) -> bool {
        self.0 == rhs.0
    }
}

impl<T: Float> Real for Fl<T> {
    fn from_usize_spec(n: usize) -> Self {
        Fl(T::from(n).unwrap())
    }
    fn epsilon_spec() -> Self {
        Fl(T::epsilon())
    }
    fn neg_spec(self) -> Self {
        Fl(-self.0)
    }
    fn div_spec(self, rhs: Self) -> Self {
        Fl(self.0 / rhs.0)
    }
    fn abs_spec(self) -> Self {
        Fl(self.0.abs())
    }
    fn sqrt_spec(self) -> Self {
        Fl(self.0.sqrt())
    }
    fn sin_spec(self) -> Self {
        Fl(self.0.sin())
    }
    fn cos_spec(self) -> Self {
        Fl(self.0.cos())
    }
    fn tan_spec(self) -> Self {
        Fl(self.0.tan())
    }
    fn powf_spec(self, exponent: Self) -> Self {
        Fl(self.0.powf(exponent.0))
    }
    fn lt_spec(self, rhs: Self) -> bool {
        self.0 < rhs.0
    }
    fn le_spec(self, rhs: Self) -> bool {
        self.0 <= rhs.0
    }
    fn to_u32_spec(self) -> u32 {
        self.0.to_u32().unwrap_or(0)
    }
    fn from_usize(n: usize) -> Self {
        Fl(T::from(n).unwrap())
    }
    fn epsilon() -> Self {
        Fl(T::epsilon())
    }
    fn neg(self) -> Self {
        Fl(-self.0)
    }
    fn div(self, rhs: Self) -> Self {
        Fl(self.0 / rhs.0)
    }
    fn abs(self) -> Self {
        Fl(self.0.abs())
    }
    fn sqrt(self) -> Self {
        Fl(self.0.sqrt())
    }
    fn sin(self) -> Self {
        Fl(self.0.sin())
    }
    fn cos(self) -> Self {
        Fl(self.0.cos())
    }
    fn tan(self) -> Self {
        Fl(self.0.tan())
    }
    fn powf(self, exponent: Self) -> Self {
        Fl(self.0.powf(exponent.0))
    }
    fn lt(self, rhs: Self) -> bool {
        self.0 < rhs.0
    }
    fn le(self, rhs: Self) -> bool {
        self.0 <= rhs.0
    }
    fn to_u32(self) -> u32 {
        self.0.to_u32().unwrap_or(0)
    }
}

fn point<T: Float>(x: T, y: T, z: T) -> Tuple<Fl<T>> {
    Tuple::new_point(Fl(x), Fl(y), Fl(z))
}

fn vector<T: Float>(x: T, y: T, z: T) -> Tuple<Fl<T>> {
    Tuple::new_vector(Fl(x), Fl(y), Fl(z))
}

fn rows<T: Float>(rows: Vec<Vec<T>>) -> Vec<Vec<Fl<T>>> {
    rows.into_iter().map(|row| row.into_iter().map(Fl).collect()).collect()
}

fn near(a: f64, b: f64, tolerance: f64) -> bool {
    (a - b).abs() <= tolerance
}

fn near_tuple(a: Tuple<Fl<f64>>, b: Tuple<Fl<f64>>, tolerance: f64) -> bool {
    near(a.0 .0, b.0 .0, tolerance)
        && near(a.1 .0, b.1 .0, tolerance)
        && near(a.2 .0, b.2 .0, tolerance)
        && near(a.3 .0, b.3 .0, tolerance)
}

fn near_matrix(a: &Matrix<Fl<f64>>, b: &Matrix<Fl<f64>>, size: usize, tolerance: f64) -> bool {
    (0..size).all(|i| (0..size).all(|j| near(a[(i, j)].0, b[(i, j)].0, tolerance)))
}

fn near_color(a: Color<Fl<f32>>, r: f32, g: f32, b: f32, tolerance: f32) -> bool {
    (a.0 .0 - r).abs() <= tolerance
        && (a.1 .0 - g).abs() <= tolerance
        && (a.2 .0 - b).abs() <= tolerance
}

fn white_light(x: f32, y: f32, z: f32) -> PointLight<Fl<f32>> {
    PointLight::new(Color::new(Fl(1.0), Fl(1.0), Fl(1.0)), point(x, y, z))
}

fn viewing_camera(hsize: f32, vsize: f32) -> Camera<Fl<f32>> {
    let mut c = Camera::new(Fl(hsize), Fl(vsize), Fl(std::f32::consts::PI / 2.0));
    let from = point(0.0, 0.0, -5.0);
    let to = point(0.0, 0.0, 0.0);
    let up = vector(0.0, 1.0, 0.0);
    c.inv_transform = Matrix::view_transform(from, to, up).inverse().unwrap();
    c
}

#[test]
fn normalized_vectors_have_length_one() {
    let vectors = vec![
        vector(1.0, 2.0, 3.0),
        vector(-4.0, 0.5, 0.25),
        vector(1e-3, 0.0, 0.0),
        vector(3.0e5, -4.0e5, 0.0),
    ];
    for v in vectors {
        assert!(near(v.normalize().magnitude().0, 1.0, 1e-12));
    }
    assert!(near_tuple(
        vector(1.0, 2.0, 3.0).normalize(),
        vector(1.0 / 14.0_f64.sqrt(), 2.0 / 14.0_f64.sqrt(), 3.0 / 14.0_f64.sqrt()),
        1e-15
    ));
}

#[test]
fn normalizing_the_zero_vector_gives_no_number() {
    let n = vector(0.0_f64, 0.0, 0.0).normalize();
    assert!(n.0 .0.is_nan());
    assert!(n.1 .0.is_nan());
    assert!(n.2 .0.is_nan());
}

#[test]
fn inverse_undoes_itself_and_the_matrix() {
    let m = Matrix::new(rows(vec![
        vec![-5.0, 2.0, 6.0, -8.0],
        vec![1.0, -5.0, 1.0, 8.0],
        vec![7.0, 7.0, -6.0, -7.0],
        vec![1.0, -3.0, 7.0, 4.0],
    ]));
    assert!(m.det() == Fl(532.0));
    let inv = m.inverse().unwrap();
    assert!(near(inv[(3, 2)].0, -160.0 / 532.0, 1e-12));
    assert!(near(inv[(2, 3)].0, 105.0 / 532.0, 1e-12));
    assert!(near(inv[(0, 0)].0, 0.21805, 1e-5));
    assert!(near(inv[(1, 1)].0, -1.45677, 1e-5));

    let back = inv.inverse().unwrap();
    assert!(near_matrix(&back, &m, 4, 1e-9));

    let identity = Matrix::eye(4);
    assert!(near_matrix(&(&m * &inv), &identity, 4, 1e-12));
    assert!(near_matrix(&(&inv * &m), &identity, 4, 1e-12));
}

#[test]
fn singular_matrices_have_no_inverse() {
    let m = Matrix::new(rows(vec![
        vec![-4.0, 2.0, -2.0, -3.0],
        vec![9.0, 6.0, 2.0, 6.0],
        vec![0.0, -5.0, 1.0, -5.0],
        vec![0.0, 0.0, 0.0, 0.0],
    ]));
    assert!(m.det() == Fl(0.0));
    assert!(m.inverse().is_none());

    let zeros: Matrix<Fl<f64>> = Matrix::zeros(4, 4);
    assert!(zeros.inverse().is_none());

    let tiny = Matrix::scale(Fl(f64::EPSILON), Fl(1.0), Fl(1.0));
    assert!(tiny.inverse().is_none());
    let small = Matrix::scale(Fl(4.0 * f64::EPSILON), Fl(1.0), Fl(1.0));
    assert!(small.inverse().is_some());
}

#[test]
fn builder_applies_transforms_in_declared_order() {
    let angle = std::f64::consts::PI / 2.0;
    let built =
        TransformBuilder::identity().translate(Fl(5.0), Fl(0.0), Fl(0.0)).rotation_z(Fl(angle)).build();
    let by_hand = &Matrix::rotation_z(Fl(angle)) * &Matrix::translate(Fl(5.0), Fl(0.0), Fl(0.0));
    assert!(built.eq_real(by_hand));

    let other_way = &Matrix::translate(Fl(5.0), Fl(0.0), Fl(0.0)) * &Matrix::rotation_z(Fl(angle));
    assert!(!built.eq_real(other_way));

    let p = &built * point(1.0, 0.0, 0.0);
    assert!(near_tuple(p, point(0.0, 6.0, 0.0), 1e-12));
}

#[test]
fn builder_chains_rotation_scaling_translation() {
    let built = TransformBuilder::identity()
        .rotation_x(Fl(std::f64::consts::PI / 2.0))
        .scale(Fl(5.0), Fl(5.0), Fl(5.0))
        .translate(Fl(10.0), Fl(5.0), Fl(7.0))
        .build();
    let p = &built * point(1.0, 0.0, 1.0);
    assert!(near_tuple(p, point(15.0, 0.0, 7.0), 1e-12));

    let turned = TransformBuilder::identity().rotation_y(Fl(std::f64::consts::PI / 2.0)).build();
    assert!(near_tuple(&turned * point(0.0, 0.0, 1.0), point(1.0, 0.0, 0.0), 1e-12));
}

#[test]
fn unit_sphere_intersections() {
    let s = Object::new(Sphere::new());

    let r = Ray::new(point(0.0_f32, 0.0, -5.0), vector(0.0, 0.0, 1.0));
    let xs = s.hit(&r);
    assert!(xs.len() == 2);
    assert!(xs[0].hit == Fl(4.0));
    assert!(xs[1].hit == Fl(6.0));
    assert!(find_hit(xs).unwrap().hit == Fl(4.0));

    let r = Ray::new(point(0.0_f32, 0.0, 0.0), vector(0.0, 0.0, 1.0));
    let xs = s.hit(&r);
    assert!(xs.len() == 2);
    assert!(xs[0].hit == Fl(-1.0));
    assert!(xs[1].hit == Fl(1.0));
    assert!(find_hit(xs).unwrap().hit == Fl(1.0));

    let r = Ray::new(point(0.0_f32, 0.0, 5.0), vector(0.0, 0.0, 1.0));
    let xs = s.hit(&r);
    assert!(xs.len() == 2);
    assert!(xs[0].hit == Fl(-6.0));
    assert!(xs[1].hit == Fl(-4.0));
    assert!(find_hit(xs).is_none());
}

#[test]
fn tangent_and_missing_rays() {
    let s = Sphere::new();
    let r = Ray::new(point(0.0_f32, 1.0, -5.0), vector(0.0, 0.0, 1.0));
    let xs = s.hit(&r);
    assert!(xs == vec![Fl(5.0), Fl(5.0)]);

    let r = Ray::new(point(0.0_f32, 2.0, -5.0), vector(0.0, 0.0, 1.0));
    assert!(s.hit(&r).is_empty());

    let o = Object::new(Sphere::new());
    assert!(find_hit(o.hit(&r)).is_none());
    let nothing: Vec<Hitrecord<Fl<f32>>> = Vec::new();
    assert!(find_hit(nothing).is_none());
}

#[test]
fn translated_sphere_is_missed() {
    let r = Ray::new(point(0.0_f32, 0.0, -5.0), vector(0.0, 0.0, 1.0));
    let mut s = Object::new(Sphere::new());
    s.apply_transform(Matrix::translate(Fl(5.0), Fl(0.0), Fl(0.0)));
    assert!(s.hit(&r).is_empty());
}

#[test]
fn find_hit_keeps_the_first_of_equal_records() {
    let a = Object::new(Sphere::new());
    let mut b = Object::new(Sphere::new());
    b.material.ambient = Fl(0.5_f32);
    let hits = vec![
        Hitrecord::new(Fl(3.0), &a),
        Hitrecord::new(Fl(1.0), &b),
        Hitrecord::new(Fl(-1.0), &a),
        Hitrecord::new(Fl(1.0), &a),
        Hitrecord::new(Fl(0.0), &b),
        Hitrecord::new(Fl(0.0), &a),
    ];
    let h = find_hit(hits).unwrap();
    assert!(h.hit == Fl(0.0));
    assert!(std::ptr::eq(h.obj, &b));

    let hits = vec![Hitrecord::new(Fl(1.0), &b), Hitrecord::new(Fl(1.0), &a)];
    assert!(std::ptr::eq(find_hit(hits).unwrap().obj, &b));
}

#[test]
fn world_records_are_sorted_and_ties_keep_object_order() {
    let mut w: World<Fl<f32>> = World::new();
    w.add_object(Object::new(Sphere::new()));
    let mut second = Object::new(Sphere::new());
    second.material.ambient = Fl(0.75);
    w.add_object(second);
    let mut third = Object::new(Sphere::new());
    third.apply_transform(Matrix::scale(Fl(2.0), Fl(2.0), Fl(2.0)));
    w.add_object(third);

    let r = Ray::new(point(0.0, 0.0, -5.0), vector(0.0, 0.0, 1.0));
    let xs = w.intersect_world(&r);
    let hits: Vec<f32> = xs.iter().map(|x| x.hit.0).collect();
    assert!(hits == vec![3.0, 4.0, 4.0, 6.0, 6.0, 7.0]);
    assert!(std::ptr::eq(xs[0].obj, &w.objects[2]));
    assert!(std::ptr::eq(xs[1].obj, &w.objects[0]));
    assert!(std::ptr::eq(xs[2].obj, &w.objects[1]));
    assert!(std::ptr::eq(xs[3].obj, &w.objects[0]));
    assert!(std::ptr::eq(xs[4].obj, &w.objects[1]));
    assert!(std::ptr::eq(xs[5].obj, &w.objects[2]));
}

#[test]
fn scaled_object_keeps_the_stretched_parameter() {
    let r = Ray::new(point(0.0_f32, 0.0, -5.0), vector(0.0, 0.0, 1.0));
    let m = Matrix::scale(Fl(0.5), Fl(0.5), Fl(0.5));
    let local = r.transform(&m);
    assert!(local.dir == vector(0.0, 0.0, 0.5));
    assert!(local.dir.magnitude() == Fl(0.5));
    assert!(local.pos(Fl(4.0)) == point(0.0, 0.0, -0.5));
}

#[test]
fn shading_follows_the_reflectance_model() {
    let m: Material<Fl<f32>> = Material::new();
    let position = point(0.0, 0.0, 0.0);
    let normalv = vector(0.0, 0.0, -1.0);
    let half = 2.0_f32.sqrt() / 2.0;

    let eye = vector(0.0, 0.0, -1.0);
    let lit = lightning(&m, &white_light(0.0, 0.0, -10.0), &position, &eye, &normalv, false);
    assert!(lit == Color::new(Fl(1.9), Fl(1.9), Fl(1.9)));
    let dark = lightning(&m, &white_light(0.0, 0.0, -10.0), &position, &eye, &normalv, true);
    assert!(dark == Color::new(Fl(0.1), Fl(0.1), Fl(0.1)));

    let eye = vector(0.0, half, -half);
    let lit = lightning(&m, &white_light(0.0, 0.0, -10.0), &position, &eye, &normalv, false);
    assert!(near_color(lit, 1.0, 1.0, 1.0, 1e-5));

    let eye = vector(0.0, 0.0, -1.0);
    let lit = lightning(&m, &white_light(0.0, 10.0, -10.0), &position, &eye, &normalv, false);
    assert!(near_color(lit, 0.7364, 0.7364, 0.7364, 1e-4));

    let eye = vector(0.0, -half, -half);
    let lit = lightning(&m, &white_light(0.0, 10.0, -10.0), &position, &eye, &normalv, false);
    assert!(near_color(lit, 1.6364, 1.6364, 1.6364, 1e-4));

    let eye = vector(0.0, 0.0, -1.0);
    let lit = lightning(&m, &white_light(0.0, 0.0, 10.0), &position, &eye, &normalv, false);
    assert!(lit == Color::new(Fl(0.1), Fl(0.1), Fl(0.1)));
}

#[test]
fn shading_is_not_clamped() {
    let mut m: Material<Fl<f32>> = Material::new();
    m.ambient = Fl(1.0);
    let light = PointLight::new(Color::new(Fl(2.0), Fl(2.0), Fl(2.0)), point(0.0, 0.0, -10.0));
    let lit = lightning(
        &m,
        &light,
        &point(0.0, 0.0, 0.0),
        &vector(0.0, 0.0, -1.0),
        &vector(0.0, 0.0, -1.0),
        false,
    );
    assert!(near_color(lit, 5.6, 5.6, 5.6, 1e-5));
}

#[test]
fn shadows_in_the_default_world() {
    let w: World<Fl<f32>> = World::new_default();
    let light = &w.lights[0];
    assert!(!w.is_shadowed(&point(0.0, 10.0, 0.0), light));
    assert!(w.is_shadowed(&point(10.0, -10.0, 10.0), light));
    assert!(!w.is_shadowed(&point(-20.0, 20.0, -20.0), light));
    assert!(!w.is_shadowed(&point(-2.0, 2.0, -2.0), light));
}

#[test]
fn default_world_is_as_described() {
    let w: World<Fl<f32>> = World::new_default();
    assert!(w.lights.len() == 1);
    assert!(w.lights[0].pos == point(-10.0, 10.0, -10.0));
    assert!(w.lights[0].intensity == Color::new(Fl(1.0), Fl(1.0), Fl(1.0)));
    assert!(w.objects.len() == 2);
    let outer = &w.objects[0].material;
    assert!(outer.color.0 == Fl(0.8) && outer.color.1 == Fl(1.0) && outer.color.2 == Fl(0.6));
    assert!(outer.ambient == Fl(0.1) && outer.diffuse == Fl(0.7) && outer.specular == Fl(0.2));
    assert!(outer.shininess == Fl(200.0));
    assert!(w.objects[0].inv_transform == Matrix::eye(4));
    assert!(w.objects[1].inv_transform == Matrix::scale(Fl(2.0), Fl(2.0), Fl(2.0)));
    let inner = &w.objects[1].material;
    assert!(inner.color.0 == Fl(1.0) && inner.color.1 == Fl(1.0) && inner.color.2 == Fl(1.0));
    assert!(inner.ambient == Fl(0.1) && inner.diffuse == Fl(0.9) && inner.specular == Fl(0.9));
}

#[test]
fn color_at_inside_the_outer_sphere() {
    let mut w: World<Fl<f32>> = World::new_default();
    w.objects[0].material.ambient = Fl(1.0);
    w.objects[1].material.ambient = Fl(1.0);
    let r = Ray::new(point(0.0, 0.0, 0.75), vector(0.0, 0.0, -1.0));
    let c = w.color_at(&r);
    assert!(c.0 == Fl(1.0) && c.1 == Fl(1.0) && c.2 == Fl(1.0));
}

#[test]
fn color_at_misses_and_hits() {
    let w: World<Fl<f32>> = World::new_default();
    let r = Ray::new(point(0.0, 0.0, -5.0), vector(0.0, 1.0, 0.0));
    let c = w.color_at(&r);
    assert!(c.0 == Fl(0.0) && c.1 == Fl(0.0) && c.2 == Fl(0.0));

    let r = Ray::new(point(0.0, 0.0, 5.0), vector(0.0, 0.0, 1.0));
    let c = w.color_at(&r);
    assert!(c.0 == Fl(0.0) && c.1 == Fl(0.0) && c.2 == Fl(0.0));

    let r = Ray::new(point(0.0, 0.0, -5.0), vector(0.0, 0.0, 1.0));
    assert!(near_color(w.color_at(&r), 0.38066, 0.47583, 0.2855, 1e-3));

    let empty: World<Fl<f32>> = World::new();
    let c = empty.color_at(&r);
    assert!(c.0 == Fl(0.0) && c.1 == Fl(0.0) && c.2 == Fl(0.0));
}

#[test]
fn every_light_adds_its_share() {
    let mut w: World<Fl<f32>> = World::new_default();
    let r = Ray::new(point(0.0, 0.0, -5.0), vector(0.0, 0.0, 1.0));
    let one = w.color_at(&r);
    w.add_light(white_light(-10.0, 10.0, -10.0));
    let two = w.color_at(&r);
    assert!(two.0 == Fl(one.0 .0 + one.0 .0));
    assert!(two.1 == Fl(one.1 .0 + one.1 .0));
    assert!(two.2 == Fl(one.2 .0 + one.2 .0));
}

#[test]
fn hit_context_lifts_the_point_off_the_surface() {
    let r = Ray::new(point(0.0_f32, 0.0, -5.0), vector(0.0, 0.0, 1.0));
    let mut s = Object::new(Sphere::new());
    s.apply_transform(Matrix::translate(Fl(0.0), Fl(0.0), Fl(1.0)));
    let i = Hitrecord::new(Fl(5.0), &s);
    let comps = World::prepare_computations(&i, &r);
    assert!(comps.hit == Fl(5.0));
    assert!(comps.point == point(0.0, 0.0, 0.0));
    assert!(comps.normalv == vector(0.0, 0.0, -1.0));
    assert!(comps.over_point == point(0.0, 0.0, -0.01));
    assert!(comps.over_point.2 .0 < comps.point.2 .0);
}

#[test]
fn hit_context_inside_lifts_towards_the_eye() {
    let r = Ray::new(point(0.0_f32, 0.0, 0.0), vector(0.0, 0.0, 1.0));
    let s = Object::new(Sphere::new());
    let i = Hitrecord::new(Fl(1.0), &s);
    let comps = World::prepare_computations(&i, &r);
    assert!(comps.inside);
    assert!(comps.normalv == vector(0.0, 0.0, -1.0));
    assert!(comps.over_point == point(0.0, 0.0, 0.99));
}

#[test]
fn render_pixel_is_repeatable() {
    let w: World<Fl<f32>> = World::new_default();
    let c = viewing_camera(11.0, 11.0);
    let mut first = Vec::new();
    for y in 0..11 {
        for x in 0..11 {
            first.push(c.render_pixel(&w, x, y));
        }
    }
    let mut k = first.len();
    for y in (0..11).rev() {
        for x in (0..11).rev() {
            k -= 1;
            let again = c.render_pixel(&w, x, y);
            assert!(again.0 .0.to_bits() == first[k].0 .0.to_bits());
            assert!(again.1 .0.to_bits() == first[k].1 .0.to_bits());
            assert!(again.2 .0.to_bits() == first[k].2 .0.to_bits());
        }
    }
}

#[test]
fn camera_pixel_size() {
    let c = Camera::new(Fl(200.0_f32), Fl(125.0), Fl(std::f32::consts::PI / 2.0));
    assert!((c.pixel_size.0 - 0.01).abs() <= 1e-7);
    assert!(c.half_width == Fl((std::f32::consts::PI / 4.0).tan()));
    let c = Camera::new(Fl(125.0_f32), Fl(200.0), Fl(std::f32::consts::PI / 2.0));
    assert!((c.pixel_size.0 - 0.01).abs() <= 1e-7);
    assert!(c.half_height == Fl((std::f32::consts::PI / 4.0).tan()));
    assert!(c.inv_transform == Matrix::eye(4));
}

#[test]
fn camera_rays() {
    let mut c = Camera::new(Fl(201.0_f32), Fl(101.0), Fl(std::f32::consts::PI / 2.0));
    let r = c.ray_for_pixel(100, 50);
    assert!(r.origin == point(0.0, 0.0, 0.0));
    assert!((r.dir.0 .0).abs() <= 1e-6 && (r.dir.1 .0).abs() <= 1e-6);
    assert!((r.dir.2 .0 + 1.0).abs() <= 1e-6);

    let r = c.ray_for_pixel(0, 0);
    assert!((r.dir.0 .0 - 0.66519).abs() <= 1e-5);
    assert!((r.dir.1 .0 - 0.33259).abs() <= 1e-5);
    assert!((r.dir.2 .0 + 0.66851).abs() <= 1e-5);

    let placed = &Matrix::rotation_y(Fl(std::f32::consts::PI / 4.0))
        * &Matrix::translate(Fl(0.0), Fl(-2.0), Fl(5.0));
    c.inv_transform = placed.inverse().unwrap();
    let r = c.ray_for_pixel(100, 50);
    let half = 2.0_f32.sqrt() / 2.0;
    assert!((r.origin.0 .0).abs() <= 1e-5);
    assert!((r.origin.1 .0 - 2.0).abs() <= 1e-5);
    assert!((r.origin.2 .0 + 5.0).abs() <= 1e-5);
    assert!((r.dir.0 .0 - half).abs() <= 1e-5);
    assert!((r.dir.1 .0).abs() <= 1e-5);
    assert!((r.dir.2 .0 + half).abs() <= 1e-5);
}

#[test]
fn view_transform_of_an_arbitrary_view() {
    let t = Matrix::view_transform(point(1.0, 3.0, 2.0), point(4.0, -2.0, 8.0), vector(1.0, 1.0, 0.0));
    let want = Matrix::new(rows(vec![
        vec![-0.50709, 0.50709, 0.67612, -2.36643],
        vec![0.76772, 0.60609, 0.12122, -2.82843],
        vec![-0.35857, 0.59761, -0.71714, 0.0],
        vec![0.0, 0.0, 0.0, 1.0],
    ]));
    assert!(near_matrix(&t, &want, 4, 1e-5));

    let moved = Matrix::view_transform(point(0.0, 0.0, 8.0), point(0.0, 0.0, 0.0), vector(0.0, 1.0, 0.0));
    assert!(moved == Matrix::translate(Fl(0.0), Fl(0.0), Fl(-8.0)));
}

#[test]
fn normals_of_placed_spheres() {
    let mut s = Object::new(Sphere::new());
    let m = &Matrix::scale(Fl(1.0), Fl(0.5), Fl(1.0)) * &Matrix::rotation_z(Fl(std::f64::consts::PI / 5.0));
    s.apply_transform(m);
    let half = 2.0_f64.sqrt() / 2.0;
    let n = s.normal_at(point(0.0, half, -half));
    assert!(near_tuple(n, vector(0.0, 0.97014, -0.24254), 1e-5));
    assert!(near(n.magnitude().0, 1.0, 1e-12));
    assert!(n.3 == Fl(0.0));
}

#[test]
fn determinants_by_expansion() {
    let m = Matrix::new(vec![vec![1, 2, 6], vec![-5, 8, -4], vec![2, 6, 4]]);
    assert!(m.cofactor(0, 0) == 56);
    assert!(m.cofactor(0, 1) == 12);
    assert!(m.cofactor(0, 2) == -46);
    assert!(m.det() == -196);

    let m = Matrix::new(vec![
        vec![-2, -8, 3, 5],
        vec![-3, 1, 7, 3],
        vec![1, 2, -9, 6],
        vec![-6, 7, 7, -9],
    ]);
    assert!(m.cofactor(0, 0) == 690);
    assert!(m.cofactor(0, 1) == 447);
    assert!(m.cofactor(0, 2) == 210);
    assert!(m.cofactor(0, 3) == 51);
    assert!(m.det() == -4071);

    assert!(Matrix::new(vec![vec![7_i64]]).det() == 7);
    let none: Matrix<i32> = Matrix::zeros(0, 0);
    assert!(none.det() == 0);
}

#[test]
fn matrix_builders() {
    let z: Matrix<i32> = Matrix::zeros(3, 2);
    assert!(z == Matrix::new(vec![vec![0, 0, 0], vec![0, 0, 0]]));
    let e: Matrix<i32> = Matrix::eye(3);
    assert!(e == Matrix::new(vec![vec![1, 0, 0], vec![0, 1, 0], vec![0, 0, 1]]));

    let f = Matrix::new_fn(|i, j| 10 * i + j, 3, 2);
    assert!(f == Matrix::new(vec![vec![0, 1, 2], vec![10, 11, 12]]));
    assert!(f[(1, 2)] == 12);
    assert!(*f.get(0, 1) == 1);

    let some = Matrix::new_fn_option(|i, j| Some(i + j), 2, 2);
    assert!(some == Some(Matrix::new(vec![vec![0, 1], vec![1, 2]])));
    let none = Matrix::new_fn_option(|i, j| if i == 1 && j == 0 { None } else { Some(i + j) }, 2, 2);
    assert!(none.is_none());

    let mut m = Matrix::new(vec![vec![1, 2], vec![3, 4]]);
    m.set(0, 1, 9);
    assert!(m == Matrix::new(vec![vec![1, 9], vec![3, 4]]));
    assert!(m.clone() == m);
    assert!(m.same(&m.clone()));
    assert!(!m.same(&Matrix::new(vec![vec![1, 9], vec![3, 5]])));
    assert!(!m.same(&Matrix::zeros(2, 3)));

    let t = Matrix::new(vec![vec![0, 9, 3, 0], vec![9, 8, 0, 8], vec![1, 8, 5, 3], vec![0, 0, 5, 8]]);
    let want =
        Matrix::new(vec![vec![0, 9, 1, 0], vec![9, 8, 8, 0], vec![3, 0, 5, 5], vec![0, 8, 3, 8]]);
    assert!(t.transpose() == want);
    assert!(Matrix::<i32>::eye(4).transpose() == Matrix::eye(4));
}

#[test]
fn identity_is_neutral_for_integers() {
    let m = Matrix::new(vec![vec![0, 1, 2, 4], vec![1, 2, 4, 8], vec![2, 4, 8, 16], vec![4, 8, 16, 32]]);
    let e: Matrix<i32> = Matrix::eye(4);
    assert!(&m * &e == m);
    assert!(&e * &m == m);
    assert!(&e * Tuple(1, 2, 3, 4) == Tuple(1, 2, 3, 4));
    assert!(Matrix::translate(5, -3, 2).times(&e) == Matrix::translate(5, -3, 2));
    assert!(&Matrix::translate(5, -3, 2) * Tuple(-3, 4, 5, 1) == Tuple(2, 1, 7, 1));
    assert!(&Matrix::translate(5, -3, 2) * Tuple(-3, 4, 5, 0) == Tuple(-3, 4, 5, 0));
    assert!(&Matrix::scale(2, 3, 4) * Tuple(-4, 6, 8, 1) == Tuple(-8, 18, 32, 1));
}

#[test]
fn tolerance_compares_cell_by_cell() {
    let a = Matrix::new(rows(vec![vec![1.0, 2.0], vec![3.0, 4.0]]));
    let b = Matrix::new(rows(vec![vec![1.0, 2.0 + f64::EPSILON], vec![3.0, 4.0]]));
    let c = Matrix::new(rows(vec![vec![1.0, 2.0], vec![3.0, 4.5]]));
    assert!(a.eq_real(b));
    assert!(!a.eq_real(c));
    assert!(Fl(1.0).le(Fl(1.0)) && !Fl(1.0).lt(Fl(1.0)));
    assert!(vector(1.0, 0.0, 0.0).eq_real(&vector(1.0 + f64::EPSILON, 0.0, 0.0)));
    assert!(!vector(1.0, 0.0, 0.0).eq_real(&vector(1.0 + 4.0 * f64::EPSILON, 0.0, 0.0)));
}

#[test]
fn tuple_algebra() {
    let a = Tuple(3, -2, 5, 1);
    let b = Tuple(-2, 3, 1, 0);
    assert!(a + b == Tuple(1, 1, 6, 1));
    assert!(a - b == Tuple(5, -5, 4, 1));
    assert!(-a == Tuple(-3, 2, -5, -1));
    assert!(a * 2 == Tuple(6, -4, 10, 2));
    assert!(a[0] == 3 && a[1] == -2 && a[2] == 5 && a[3] == 1);
    assert!(Tuple::new_vec(vec![1, 2, 3, 4]) == Tuple(1, 2, 3, 4));
    assert!(Tuple::new_point(1, 2, 3) == Tuple(1, 2, 3, 1));
    assert!(Tuple::new_vector(1, 2, 3) == Tuple(1, 2, 3, 0));

    let x = Tuple::new_vector(1, 2, 3);
    let y = Tuple::new_vector(2, 3, 4);
    assert!(cross(x, y) == Tuple::new_vector(-1, 2, -1));
    assert!(cross(y, x) == Tuple::new_vector(1, -2, 1));
    assert!(dot(x, y) == 20);
    assert!(Tuple::new_vector(1, -1, 0).reflect(&Tuple::new_vector(0, 1, 0)) == Tuple::new_vector(1, 1, 0));
}

#[test]
fn integers_wrap_around() {
    assert!(Tuple(i32::MAX, 0, 0, 0) + Tuple(1, 0, 0, 0) == Tuple(i32::MIN, 0, 0, 0));
    assert!(Tuple(i32::MIN, 0, 0, 0) - Tuple(1, 0, 0, 0) == Tuple(i32::MAX, 0, 0, 0));
    assert!(Tuple(1_i64 << 62, 0, 0, 0) * 4 == Tuple(0, 0, 0, 0));
    assert!(<i32 as Num>::zero() == 0 && <i32 as Num>::one() == 1);
    assert!(Num::eq(5_i64, 5) && !Num::eq(5_i64, 6));
}

#[test]
fn color_algebra() {
    let c1 = Color(Fl(0.9_f64), Fl(0.6), Fl(0.75));
    let c2 = Color(Fl(0.7), Fl(0.1), Fl(0.25));
    assert!(c1 + c2 == Color(Fl(1.6), Fl(0.7), Fl(1.0)));
    assert!(c1 - c2 == Color(Fl(0.2), Fl(0.5), Fl(0.5)));
    assert!(Color(Fl(0.2_f64), Fl(0.3), Fl(0.4)) * Fl(2.0) == Color(Fl(0.4), Fl(0.6), Fl(0.8)));
    assert!(c1 != c2);
    let doubled = Color(1, 2, 3).fmap(|x| 2 * x);
    assert!(doubled.0 == 2 && doubled.1 == 4 && doubled.2 == 6);
    let sum = Color(1, 2, 3) + Color(10, 20, 30);
    assert!(sum.0 == 11 && sum.1 == 22 && sum.2 == 33);
}

#[test]
fn material_defaults() {
    let m: Material<Fl<f32>> = Material::new();
    assert!(m.ambient == Fl(0.1));
    assert!(m.diffuse == Fl(0.9));
    assert!(m.specular == Fl(0.9));
    assert!(m.shininess == Fl(200.0));
    assert!(m == Material::new());
    let mut other: Material<Fl<f32>> = Material::new();
    other.shininess = Fl(10.0);
    assert!(m != other);
    let s: Object<Fl<f32>> = Object::new(Sphere::new());
    assert!(s.material == m);
    assert!(s.inv_transform == Matrix::eye(4));
}

#[test]
fn points_are_no_vectors() {
    assert!(vector(1.0_f32, 2.0, 3.0).is_vector());
    assert!(!point(1.0_f32, 2.0, 3.0).is_vector());
    assert!(Tuple(1, 2, 3, 0).is_vector());
    assert!(!Tuple(1, 2, 3, 2).is_vector());
    assert!(Tuple(Fl(1.0_f32), Fl(2.0), Fl(3.0), Fl(-0.0)).is_vector());
    assert!(!Tuple(Fl(1.0_f32), Fl(2.0), Fl(3.0), Fl(f32::NAN)).is_vector());
}

#[test]
fn view_transform_refuses_what_is_no_vector() {
    let from = point(0.0_f64, 0.0, 8.0);
    let to = point(0.0, 0.0, 0.0);
    let up = vector(0.0, 1.0, 0.0);
    assert!(
        Matrix::try_view_transform(from, to, up) == Some(Matrix::view_transform(from, to, up))
    );
    assert!(Matrix::try_view_transform(from, from, up).is_none());
    assert!(Matrix::try_view_transform(from, to, point(0.0, 1.0, 0.0)).is_none());
    assert!(Matrix::try_view_transform(from, vector(0.0, 0.0, 1.0), up).is_none());
    assert!(Matrix::try_view_transform(from, to, vector(0.0, 0.0, 0.0)).is_none());
}

#[test]
fn shading_refuses_what_is_no_vector() {
    let m: Material<Fl<f32>> = Material::new();
    let light = white_light(0.0, 0.0, -10.0);
    let position = point(0.0, 0.0, 0.0);
    let eye = vector(0.0, 0.0, -1.0);
    let normal = vector(0.0, 0.0, -1.0);

    let lit = try_lightning(&m, &light, &position, &eye, &normal, false).unwrap();
    assert!(lit == Color::new(Fl(1.9), Fl(1.9), Fl(1.9)));

    let as_point = point(0.0, 0.0, -1.0);
    assert!(try_lightning(&m, &light, &position, &eye, &as_point, false).is_none());
    assert!(try_lightning(&m, &light, &position, &as_point, &normal, false).is_none());
    assert!(try_lightning(&m, &light, &vector(0.0, 0.0, 0.0), &eye, &normal, false).is_none());
    assert!(try_lightning(&m, &light, &point(0.0, 0.0, -10.0), &eye, &normal, false).is_none());

    let dark = try_lightning(&m, &light, &position, &as_point, &as_point, true).unwrap();
    assert!(dark == Color::new(Fl(0.1), Fl(0.1), Fl(0.1)));

    let behind = white_light(0.0, 0.0, 10.0);
    let unlit = try_lightning(&m, &behind, &position, &as_point, &normal, false).unwrap();
    assert!(unlit == Color::new(Fl(0.1), Fl(0.1), Fl(0.1)));
}

#[test]
fn objects_refuse_what_is_no_vector() {
    let s = Object::new(Sphere::new());
    let good = Ray::new(point(0.0_f32, 0.0, -5.0), vector(0.0, 0.0, 1.0));
    let xs = s.try_hit(&good).unwrap();
    assert!(xs.len() == 2 && xs[0].hit == Fl(4.0) && xs[1].hit == Fl(6.0));

    let bad = Ray { origin: point(0.0_f32, 0.0, -5.0), dir: point(0.0, 0.0, 1.0) };
    assert!(s.try_hit(&bad).is_none());
    let bad = Ray { origin: vector(0.0_f32, 0.0, -5.0), dir: vector(0.0, 0.0, 1.0) };
    assert!(s.try_hit(&bad).is_none());

    assert!(s.try_normal_at(point(1.0, 0.0, 0.0)) == Some(vector(1.0, 0.0, 0.0)));
    assert!(s.try_normal_at(vector(1.0, 0.0, 0.0)).is_none());

    let shape = Sphere::new();
    assert!(shape.can_hit(&good) && !shape.can_hit(&bad));
    assert!(shape.can_normal_at(point(1.0_f32, 0.0, 0.0)));
    assert!(!shape.can_normal_at(vector(1.0_f32, 0.0, 0.0)));
}

#[test]
fn worlds_refuse_what_is_no_vector() {
    let w: World<Fl<f32>> = World::try_new_default().unwrap();
    let light = &w.lights[0];
    let good = Ray::new(point(0.0, 0.0, -5.0), vector(0.0, 0.0, 1.0));
    let bad = Ray { origin: point(0.0, 0.0, -5.0), dir: point(0.0, 0.0, 1.0) };

    assert!(w.try_intersect_world(&good).unwrap().len() == 4);
    assert!(w.try_intersect_world(&bad).is_none());
    let empty: World<Fl<f32>> = World::new();
    assert!(empty.try_intersect_world(&bad).unwrap().is_empty());

    assert!(w.try_is_shadowed(&point(10.0, -10.0, 10.0), light) == Some(true));
    assert!(w.try_is_shadowed(&point(0.0, 10.0, 0.0), light) == Some(false));
    assert!(w.try_is_shadowed(&vector(0.0, 10.0, 0.0), light).is_none());
    assert!(w.try_is_shadowed(&point(-10.0, 10.0, -10.0), light).is_none());

    let h = find_hit(w.intersect_world(&good)).unwrap();
    let comps = World::try_prepare_computations(&h, &good).unwrap();
    assert!(comps.point == point(0.0, 0.0, -1.0));
    assert!(World::try_prepare_computations(&h, &bad).is_none());

    assert!(w.try_shade_hit(&comps).unwrap() == w.shade_hit(&comps));
    let mut broken = World::try_prepare_computations(&h, &good).unwrap();
    broken.over_point = vector(0.0, 0.0, -1.01);
    assert!(w.try_shade_hit(&broken).is_none());
    let mut broken = World::try_prepare_computations(&h, &good).unwrap();
    broken.normalv = point(0.0, 0.0, -1.0);
    assert!(w.try_shade_hit(&broken).is_none());
    assert!(empty.try_shade_hit(&broken) == Some(Color::new(Fl(0.0), Fl(0.0), Fl(0.0))));

    assert!(w.try_color_at(&good).unwrap() == w.color_at(&good));
    assert!(w.try_color_at(&bad).is_none());
    assert!(empty.try_color_at(&bad) == Some(Color::new(Fl(0.0), Fl(0.0), Fl(0.0))));
}

#[test]
fn cameras_refuse_what_is_no_vector() {
    let w: World<Fl<f32>> = World::new_default();
    let c = viewing_camera(11.0, 11.0);
    let r = c.try_ray_for_pixel(5, 5).unwrap();
    assert!(r.origin == point(0.0, 0.0, -5.0) && r.dir == vector(0.0, 0.0, 1.0));
    assert!(c.try_render_pixel(&w, 5, 5).unwrap() == c.render_pixel(&w, 5, 5));
    let corner = c.try_render_pixel(&w, 0, 0).unwrap();
    assert!(corner.0 == Fl(0.0) && corner.1 == Fl(0.0) && corner.2 == Fl(0.0));

    let mut skewed = Camera::new(Fl(11.0_f32), Fl(11.0), Fl(std::f32::consts::PI / 2.0));
    skewed.inv_transform = Matrix::new(vec![
        vec![Fl(1.0), Fl(0.0), Fl(0.0), Fl(0.0)],
        vec![Fl(0.0), Fl(1.0), Fl(0.0), Fl(0.0)],
        vec![Fl(0.0), Fl(0.0), Fl(1.0), Fl(0.0)],
        vec![Fl(0.0), Fl(0.0), Fl(1.0), Fl(1.0)],
    ]);
    assert!(skewed.try_ray_for_pixel(5, 5).is_none());
    assert!(skewed.try_render_pixel(&w, 5, 5).is_none());
}
