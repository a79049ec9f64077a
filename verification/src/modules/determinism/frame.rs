//! One configuration, one frame.
use crate::modules::arithmetic::{is_quotient, Arithmetic};
use crate::modules::camera::{
    floor_at_one, is_first_pixel, is_frame, is_image_height, is_pixel_delta, is_sample_scale,
    is_upper_left, is_viewport_height, is_viewport_width, CameraView,
};
use crate::modules::conversion::{is_integer, lemma_integer_round_trip};
use crate::modules::determinism::is_function;
use crate::modules::scalar::{lemma_weight_increases, Scalar};
use crate::modules::vec3::{is_scaled, Point3, Vec3};
use vstd::prelude::*;

verus! {

/// A whole number is held by one value.
pub proof fn lemma_integer_is_determined(x: Scalar, y: Scalar, n: int)
    requires
        is_integer(x, n),
        is_integer(y, n),
    ensures
        x == y,
{
    if x.magnitude() < y.magnitude() {
        lemma_weight_increases(x.magnitude(), y.magnitude());
    } else if y.magnitude() < x.magnitude() {
        lemma_weight_increases(y.magnitude(), x.magnitude());
    }
}

/// A width and an aspect ratio have one image height.
pub proof fn lemma_image_height_is_determined<A: Arithmetic>(
    ar: &A,
    width: u32,
    aspect_ratio: Scalar,
    a: u32,
    b: u32,
)
    requires
        is_function(ar),
        is_image_height(ar, width, aspect_ratio, a),
        is_image_height(ar, width, aspect_ratio, b),
    ensures
        a == b,
{
    let (wide, q) = choose|wide: Scalar, q: Scalar|
        is_integer(wide, width as int) && is_quotient(ar, wide, aspect_ratio, q) && a
            == floor_at_one(q.truncated());
    let (wide2, q2) = choose|wide: Scalar, q: Scalar|
        is_integer(wide, width as int) && is_quotient(ar, wide, aspect_ratio, q) && b
            == floor_at_one(q.truncated());
    lemma_integer_is_determined(wide, wide2, width as int);
}

/// Where the arithmetic gives a whole number for the width over the aspect
/// ratio, the image has that many rows, and one row where the number is
/// zero.
pub proof fn lemma_height_of_whole_quotient<A: Arithmetic>(
    ar: &A,
    width: u32,
    aspect_ratio: Scalar,
    wide: Scalar,
    q: Scalar,
    rows: int,
    height: u32,
)
    requires
        is_function(ar),
        is_integer(wide, width as int),
        is_quotient(ar, wide, aspect_ratio, q),
        is_integer(q, rows),
        0 <= rows <= u32::MAX,
        is_image_height(ar, width, aspect_ratio, height),
    ensures
        height == floor_at_one(rows),
{
    let (wide2, q2) = choose|wide2: Scalar, q2: Scalar|
        is_integer(wide2, width as int) && is_quotient(ar, wide2, aspect_ratio, q2) && height
            == floor_at_one(q2.truncated());
    lemma_integer_is_determined(wide, wide2, width as int);
    lemma_integer_round_trip(q, rows);
}

/// A number of samples has one scale.
pub proof fn lemma_sample_scale_is_determined<A: Arithmetic>(
    ar: &A,
    samples: u32,
    a: Scalar,
    b: Scalar,
)
    requires
        is_function(ar),
        is_sample_scale(ar, samples, a),
        is_sample_scale(ar, samples, b),
    ensures
        a == b,
{
    assert forall|x: Scalar, y: Scalar|
        is_integer(x, samples as int) && is_integer(y, samples as int) implies x == y by {
        lemma_integer_is_determined(x, y, samples as int);
    }
}

/// A viewport height and an image size have one viewport width.
pub proof fn lemma_viewport_width_is_determined<A: Arithmetic>(
    ar: &A,
    vh: Scalar,
    width: u32,
    height: u32,
    a: Scalar,
    b: Scalar,
)
    requires
        is_function(ar),
        is_viewport_width(ar, vh, width, height, a),
        is_viewport_width(ar, vh, width, height, b),
    ensures
        a == b,
{
    assert forall|x: Scalar, y: Scalar, n: int| is_integer(x, n) && is_integer(y, n) implies x
        == y by {
        lemma_integer_is_determined(x, y, n);
    }
}

/// A viewport edge and a number of pixels have one step from pixel to pixel.
pub proof fn lemma_pixel_delta_is_determined<A: Arithmetic>(
    ar: &A,
    edge: Vec3,
    pixels: u32,
    a: Vec3,
    b: Vec3,
)
    requires
        is_function(ar),
        is_pixel_delta(ar, edge, pixels, a),
        is_pixel_delta(ar, edge, pixels, b),
    ensures
        a == b,
{
    assert forall|x: Scalar, y: Scalar, n: int| is_integer(x, n) && is_integer(y, n) implies x
        == y by {
        lemma_integer_is_determined(x, y, n);
    }
}

/// Getting a camera ready twice, from one configuration, derives one frame.
pub proof fn lemma_frame_is_determined<A: Arithmetic>(ar: &A, a: CameraView, b: CameraView)
    requires
        is_function(ar),
        a.same_config(b),
        is_frame(ar, a, a.frame),
        is_frame(ar, b, b.frame),
    ensures
        a.frame == b.frame,
{
    let f = a.frame;
    let g = b.frame;
    lemma_image_height_is_determined(ar, a.image_width, a.aspect_ratio, f.image_height, g.image_height);
    lemma_sample_scale_is_determined(
        ar,
        a.samples_per_pixel,
        f.pixel_samples_scale,
        g.pixel_samples_scale,
    );
    assert(f.u == g.u && f.v == g.v && f.w == g.w);
    let (vh, vw, edge_u, edge_v, corner) = choose|
        vh: Scalar,
        vw: Scalar,
        edge_u: Vec3,
        edge_v: Vec3,
        corner: Point3,
    |
        is_viewport_height(ar, a.vfov, a.focus_dist, vh) && is_viewport_width(
            ar,
            vh,
            a.image_width,
            f.image_height,
            vw,
        ) && is_scaled(ar, vw, f.u, edge_u) && is_scaled(ar, vh.opposite(), f.v, edge_v)
            && is_pixel_delta(ar, edge_u, a.image_width, f.pixel_delta_u) && is_pixel_delta(
            ar,
            edge_v,
            f.image_height,
            f.pixel_delta_v,
        ) && is_upper_left(ar, f.center, a.focus_dist, f.w, edge_u, edge_v, corner)
            && is_first_pixel(ar, corner, f.pixel_delta_u, f.pixel_delta_v, f.pixel00_loc);
    let (vh2, vw2, edge_u2, edge_v2, corner2) = choose|
        vh: Scalar,
        vw: Scalar,
        edge_u: Vec3,
        edge_v: Vec3,
        corner: Point3,
    |
        is_viewport_height(ar, b.vfov, b.focus_dist, vh) && is_viewport_width(
            ar,
            vh,
            b.image_width,
            g.image_height,
            vw,
        ) && is_scaled(ar, vw, g.u, edge_u) && is_scaled(ar, vh.opposite(), g.v, edge_v)
            && is_pixel_delta(ar, edge_u, b.image_width, g.pixel_delta_u) && is_pixel_delta(
            ar,
            edge_v,
            g.image_height,
            g.pixel_delta_v,
        ) && is_upper_left(ar, g.center, b.focus_dist, g.w, edge_u, edge_v, corner)
            && is_first_pixel(ar, corner, g.pixel_delta_u, g.pixel_delta_v, g.pixel00_loc);
    assert(vh == vh2);
    lemma_viewport_width_is_determined(ar, vh, a.image_width, f.image_height, vw, vw2);
    assert(edge_u == edge_u2);
    assert(edge_v == edge_v2);
    lemma_pixel_delta_is_determined(ar, edge_u, a.image_width, f.pixel_delta_u, g.pixel_delta_u);
    lemma_pixel_delta_is_determined(ar, edge_v, f.image_height, f.pixel_delta_v, g.pixel_delta_v);
    assert(corner == corner2);
    assert(f.pixel00_loc == g.pixel00_loc);
    assert(f.defocus_disk_u == g.defocus_disk_u);
    assert(f.defocus_disk_v == g.defocus_disk_v);
}

} // verus!
