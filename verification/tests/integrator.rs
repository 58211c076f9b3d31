use rusty_trace::integrator::{cast_ray, cast_ray_extended, Encounter};

type Colour = [f32; 3];

const BLACK: Colour = [0.0, 0.0, 0.0];

fn blend(attenuation: Colour, incoming: Colour, emitted: Colour) -> Colour {
    [
        attenuation[0] * incoming[0] + emitted[0],
        attenuation[1] * incoming[1] + emitted[1],
        attenuation[2] * incoming[2] + emitted[2],
    ]
}

/// A corridor of mirrors: ray `n` is scattered on as ray `n + 1` and loses
/// half of what comes back, until ray `limit` escapes to a white sky.
fn corridor(limit: u32) -> impl Fn(u32) -> Encounter<u32, Colour> {
    move |ray| {
        if ray >= limit {
            Encounter::Escaped { background: [1.0, 1.0, 1.0] }
        } else {
            Encounter::Scattered { emitted: BLACK, attenuation: [0.5, 0.5, 0.5], ray: ray + 1 }
        }
    }
}

#[test]
fn no_bounce_left_is_black() {
    let lit = |_ray: u32| Encounter::Absorbed { emitted: [5.0, 5.0, 5.0] };
    assert_eq!(cast_ray(0, 0, BLACK, &lit, &blend), BLACK);
    assert_eq!(cast_ray(0, 0, BLACK, &corridor(0), &blend), BLACK);
    assert_eq!(cast_ray(7, 0, BLACK, &corridor(3), &blend), BLACK);
}

#[test]
fn escaped_ray_sees_the_background() {
    assert_eq!(cast_ray(0, 1, BLACK, &corridor(0), &blend), [1.0, 1.0, 1.0]);
    assert_eq!(cast_ray(0, 50, BLACK, &corridor(0), &blend), [1.0, 1.0, 1.0]);
}

#[test]
fn absorbed_ray_sees_what_is_emitted() {
    let lit = |_ray: u32| Encounter::Absorbed { emitted: [5.0, 4.0, 3.0] };
    assert_eq!(cast_ray(0, 1, BLACK, &lit, &blend), [5.0, 4.0, 3.0]);
}

#[test]
fn scattered_ray_attenuates_what_comes_back() {
    // two mirrors, then the sky: 0.5 * 0.5 * 1
    assert_eq!(cast_ray(0, 3, BLACK, &corridor(2), &blend), [0.25, 0.25, 0.25]);
    assert_eq!(cast_ray(0, 10, BLACK, &corridor(2), &blend), [0.25, 0.25, 0.25]);
}

#[test]
fn depth_cuts_the_path_to_black() {
    // the sky is three bounces away; with fewer the path ends in black
    assert_eq!(cast_ray(0, 1, BLACK, &corridor(2), &blend), BLACK);
    assert_eq!(cast_ray(0, 2, BLACK, &corridor(2), &blend), BLACK);
    assert_eq!(cast_ray(0, 3, BLACK, &corridor(2), &blend), [0.25, 0.25, 0.25]);
}

#[test]
fn emitted_light_is_added_at_each_bounce() {
    let glowing = |ray: u32| {
        if ray == 0 {
            Encounter::Scattered { emitted: [0.1, 0.0, 0.0], attenuation: [0.5, 0.5, 0.5], ray: 1 }
        } else {
            Encounter::Absorbed { emitted: [2.0, 4.0, 8.0] }
        }
    };
    assert_eq!(cast_ray(0, 2, BLACK, &glowing, &blend), [1.1, 2.0, 4.0]);
    assert_eq!(cast_ray(0, 1, BLACK, &glowing, &blend), [0.1, 0.0, 0.0]);
}

#[test]
fn each_bounce_casts_one_ray() {
    let casts = std::cell::Cell::new(0u32);
    let counting = |ray: u32| {
        casts.set(casts.get() + 1);
        Encounter::Scattered { emitted: BLACK, attenuation: [1.0, 1.0, 1.0], ray: ray + 1 }
    };
    cast_ray(0, 30, BLACK, &counting, &blend);
    assert_eq!(casts.get(), 30);
}

#[test]
fn extended_without_bounce_is_blank() {
    let first = |_ray: u32| (Encounter::Absorbed { emitted: [5.0, 5.0, 5.0] }, [0.0, 1.0, 0.0]);
    let seen = cast_ray_extended(0, 0, BLACK, [0.0f32; 3], &first, &corridor(0), &blend);
    assert_eq!(seen, (BLACK, BLACK, [0.0, 0.0, 0.0]));
}

#[test]
fn extended_reports_albedo_and_normal_of_the_first_bounce() {
    let up = [0.0f32, 1.0, 0.0];
    let escaped = |_ray: u32| (Encounter::Escaped { background: [0.1, 0.65, 0.9] }, up);
    assert_eq!(
        cast_ray_extended(0, 4, BLACK, [0.0f32; 3], &escaped, &corridor(0), &blend),
        ([0.1, 0.65, 0.9], [0.1, 0.65, 0.9], up)
    );
    let absorbed = |_ray: u32| (Encounter::Absorbed { emitted: [15.0, 15.0, 15.0] }, up);
    assert_eq!(
        cast_ray_extended(0, 4, BLACK, [0.0f32; 3], &absorbed, &corridor(0), &blend),
        ([15.0, 15.0, 15.0], [15.0, 15.0, 15.0], up)
    );
    let scattered = |_ray: u32| {
        (Encounter::Scattered { emitted: BLACK, attenuation: [0.5, 0.25, 1.0], ray: 1 }, up)
    };
    assert_eq!(
        cast_ray_extended(0, 4, BLACK, [0.0f32; 3], &scattered, &corridor(2), &blend),
        ([0.25, 0.125, 0.5], [0.5, 0.25, 1.0], up)
    );
    assert_eq!(
        cast_ray_extended(0, 1, BLACK, [0.0f32; 3], &scattered, &corridor(2), &blend),
        (BLACK, [0.5, 0.25, 1.0], up)
    );
}

#[test]
fn light_stays_non_negative() {
    let scene = |ray: u32| match ray % 3 {
        0 => Encounter::Scattered { emitted: [0.0, 0.2, 0.0], attenuation: [0.9, 0.0, 0.5], ray: ray + 1 },
        1 => Encounter::Scattered { emitted: BLACK, attenuation: [1.0, 1.0, 1.0], ray: ray + 1 },
        _ if ray < 8 => Encounter::Scattered { emitted: BLACK, attenuation: [0.3, 0.3, 0.3], ray: ray + 1 },
        _ => Encounter::Absorbed { emitted: [15.0, 15.0, 15.0] },
    };
    for depth in 0..12 {
        for ray in 0..9 {
            let colour = cast_ray(ray, depth, BLACK, &scene, &blend);
            assert!(colour.iter().all(|channel| *channel >= 0.0));
        }
    }
}
