use vstd::prelude::*;
use crate::color::Color;
use crate::light::PointLight;
use crate::scalar::{ratio, ratio_spec, Real};
use crate::tuple::{dot, dot_spec, Tuple};

verus! {

/// How a surface answers to light: its colour, and how much of the
/// ambient, diffuse and specular light it gives back.
#[derive(Debug, Clone)]
pub struct Material<T> {
    pub color: Color<T>,
    pub ambient: T,
    pub diffuse: T,
    pub specular: T,
    pub shininess: T,
}

impl<T: Real> Material<T> {
    /// A white surface with ambient 1/10, diffuse and specular 9/10, and
    /// shininess 200.
    pub open spec fn standard() -> Material<T> {
        Material {
            color: Color(T::one_spec(), T::one_spec(), T::one_spec()),
            ambient: ratio_spec::<T>(1, 10),
            diffuse: ratio_spec::<T>(9, 10),
            specular: ratio_spec::<T>(9, 10),
            shininess: T::from_usize_spec(200),
        }
    }

    /// The colour matches within the tolerance and the four factors test
    /// equal.
    pub open spec fn matches(self, other: Material<T>) -> bool {
        &&& self.color.approx(other.color)
        &&& self.ambient.eq_spec(other.ambient)
        &&& self.diffuse.eq_spec(other.diffuse)
        &&& self.specular.eq_spec(other.specular)
        &&& self.shininess.eq_spec(other.shininess)
    }

    /// The standard material.
    pub fn new() -> (r: Self)
        ensures
            r == Self::standard(),
    {
        Material {
            color: Color::new(T::one(), T::one(), T::one()),
            ambient: ratio(1, 10),
            diffuse: ratio(9, 10),
            specular: ratio(9, 10),
            shininess: T::from_usize(200),
        }
    }
}

impl<T: Real> PartialEq for Material<T> {
    fn eq(&self, other: &Material<T>) -> (r: bool) {
        self.color.is_close_to(&other.color) && self.ambient.eq(other.ambient) && self.diffuse.eq(
            other.diffuse,
        ) && self.specular.eq(other.specular) && self.shininess.eq(other.shininess)
    }
}

impl<T: Real> vstd::std_specs::cmp::PartialEqSpecImpl for Material<T> {
    open spec fn obeys_eq_spec() -> bool {
        true
    }

    open spec fn eq_spec(&self, other: &Material<T>) -> bool {
        self.matches(*other)
    }
}

/// The direction from `pos` to the light, of length one.
pub open spec fn light_direction<T: Real>(light: PointLight<T>, pos: Tuple<T>) -> Tuple<T> {
    light.pos.minus_spec(pos).normalize_spec()
}

/// Every vector-only step of the shading receives a vector. In shadow
/// there is no such step.
pub open spec fn lighting_defined<T: Real>(
    light: PointLight<T>,
    pos: Tuple<T>,
    eyev: Tuple<T>,
    normalv: Tuple<T>,
    in_shadow: bool,
) -> bool {
    let lightv = light_direction(light, pos);
    in_shadow || {
        &&& light.pos.minus_spec(pos).is_vector()
        &&& lightv.is_vector()
        &&& normalv.is_vector()
        &&& dot_spec(lightv, normalv).lt_spec(T::zero_spec()) || {
            &&& lightv.negated_spec().is_vector()
            &&& lightv.negated_spec().reflect_spec(normalv).is_vector()
            &&& eyev.is_vector()
        }
    }
}

/// The diffuse share: nothing where the surface faces away from the light,
/// else the effective colour by the diffuse factor and the cosine of the
/// angle between light and normal.
pub open spec fn diffuse_spec<T: Real>(
    material: Material<T>,
    light: PointLight<T>,
    pos: Tuple<T>,
    normalv: Tuple<T>,
) -> Color<T> {
    let cosine = dot_spec(light_direction(light, pos), normalv);
    if cosine.lt_spec(T::zero_spec()) {
        Color::black()
    } else {
        material.color.blended_spec(light.intensity).scaled_spec(material.diffuse).scaled_spec(
            cosine,
        )
    }
}

/// The specular share: nothing where the surface faces away from the light
/// or the reflected light points away from the eye, else the light by the
/// specular factor and the cosine of the angle between reflection and eye,
/// raised to the shininess.
pub open spec fn specular_spec<T: Real>(
    material: Material<T>,
    light: PointLight<T>,
    pos: Tuple<T>,
    eyev: Tuple<T>,
    normalv: Tuple<T>,
) -> Color<T> {
    let lightv = light_direction(light, pos);
    let cosine = dot_spec(lightv.negated_spec().reflect_spec(normalv), eyev);
    if dot_spec(lightv, normalv).lt_spec(T::zero_spec()) || cosine.lt_spec(T::zero_spec()) {
        Color::black()
    } else {
        light.intensity.scaled_spec(material.specular).scaled_spec(
            cosine.powf_spec(material.shininess),
        )
    }
}

/// The colour of a point of a surface under one light: the ambient share
/// alone in shadow, else the sum of the ambient, diffuse and specular
/// shares.
pub open spec fn lighting_spec<T: Real>(
    material: Material<T>,
    light: PointLight<T>,
    pos: Tuple<T>,
    eyev: Tuple<T>,
    normalv: Tuple<T>,
    in_shadow: bool,
) -> Color<T> {
    let ambient = material.color.blended_spec(light.intensity).scaled_spec(material.ambient);
    if in_shadow {
        ambient
    } else {
        ambient.plus_spec(diffuse_spec(material, light, pos, normalv)).plus_spec(
            specular_spec(material, light, pos, eyev, normalv),
        )
    }
}

/// The colour of a point of a surface under one light; nothing where a
/// vector-only step would receive what is no vector.
pub fn try_lightning<T: Real>(
    material: &Material<T>,
    light: &PointLight<T>,
    pos: &Tuple<T>,
    eyev: &Tuple<T>,
    normalv: &Tuple<T>,
    in_shadow: bool,
) -> (r: Option<Color<T>>)
    ensures
        match r {
            Some(c) => lighting_defined(*light, *pos, *eyev, *normalv, in_shadow) && c
                == lighting_spec(*material, *light, *pos, *eyev, *normalv, in_shadow),
            None => !lighting_defined(*light, *pos, *eyev, *normalv, in_shadow),
        },
{
    let black = Color::new(T::zero(), T::zero(), T::zero());
    let effective_color = material.color.blended(light.intensity);
    let ambient = effective_color.scaled(material.ambient);

    if in_shadow {
        return Some(ambient);
    }
    if !light.pos.minus(*pos).is_vector() {
        return None;
    }
    let lightv = light.pos.minus(*pos).normalize();
    if !lightv.is_vector() || !normalv.is_vector() {
        return None;
    }
    let light_dot_normal = dot(lightv, *normalv);
    let (diffuse, specular) = if light_dot_normal.lt(T::zero()) {
        (black, black)
    } else {
        let diffuse = effective_color.scaled(material.diffuse).scaled(light_dot_normal);

        if !lightv.negated().is_vector() {
            return None;
        }
        let reflectv = lightv.negated().reflect(normalv);
        if !reflectv.is_vector() || !eyev.is_vector() {
            return None;
        }
        let reflect_dot_eye = dot(reflectv, *eyev);
        let specular = if reflect_dot_eye.lt(T::zero()) {
            black
        } else {
            let f = reflect_dot_eye.powf(material.shininess);
            light.intensity.scaled(material.specular).scaled(f)
        };

        (diffuse, specular)
    };

    Some(ambient.plus(diffuse).plus(specular))
}

/// The colour of a point of a surface under one light.
pub fn lightning<T: Real>(
    material: &Material<T>,
    light: &PointLight<T>,
    pos: &Tuple<T>,
    eyev: &Tuple<T>,
    normalv: &Tuple<T>,
    in_shadow: bool,
) -> (r: Color<T>)
    requires
        lighting_defined(*light, *pos, *eyev, *normalv, in_shadow),
    ensures
        r == lighting_spec(*material, *light, *pos, *eyev, *normalv, in_shadow),
{
    match try_lightning(material, light, pos, eyev, normalv, in_shadow) {
        Some(c) => c,
        None => unreached(),
    }
}

} // verus!
