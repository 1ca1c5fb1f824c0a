//! Truncation, bad-magic, comparison and simulation behavior checks.

use one_and_all::explconv::ExplConvParticleSystem;
use one_and_all::fbits::{f32_ge, f32_gt, f32_le, f32_lt};
use one_and_all::fish::{Fish, FishState, FishStateSeed};
use one_and_all::geom::{Circle, Color, Rectangle, Vector};
use one_and_all::particle::Particle;
use one_and_all::planet::{MoonParams, Planet, PlanetParams, MAX_MOONS};
use one_and_all::psystem::{ParticleSpawn, ParticleStep, ParticleSystem, SystemAdvance};
use one_and_all::rotating::RotatingParticleSystem;
use one_and_all::savedata::SaveData;
use one_and_all::star::{star_burst_count, Star};

fn b(x: f32) -> u32 {
    x.to_bits()
}

fn small_save() -> SaveData {
    let mut save = SaveData::default();
    save.player.x = b(7.0);
    let mut fish = Fish::default();
    fish.pos.x = b(3.5);
    save.fishes.push(fish);
    save
}

#[test]
fn truncated_particle_fails() {
    let p = Particle::default();
    let bytes = p.serialize();
    for k in 0..bytes.len() {
        assert!(Particle::deserialize(&bytes[0..k], 0).is_err());
    }
}

#[test]
fn truncated_save_fails() {
    let save = small_save();
    let bytes = save.serialize();
    for k in 0..bytes.len() {
        assert!(SaveData::deserialize(&bytes[0..k]).is_err());
    }
}

#[test]
fn bad_magic_rejected() {
    let zeros = vec![0u8; 64];
    assert!(SaveData::deserialize(&zeros).is_err());
    let mut bytes = small_save().serialize();
    bytes[0] = 0x54;
    assert!(SaveData::deserialize(&bytes).is_err());
}

#[test]
fn deserialize_at_offset() {
    let v = Vector::new(b(5.0), b(-2.5));
    let mut bytes = vec![0xAAu8, 0xBB];
    bytes.extend(v.serialize());
    let (got, n) = Vector::deserialize(&bytes, 2).expect("offset read");
    assert_eq!(got, v);
    assert_eq!(n, 8);
    assert!(Vector::deserialize(&bytes, 3).is_err());
}

#[test]
fn comparisons_match_hardware() {
    let cases: [(f32, f32); 10] = [
        (0.0, -0.0),
        (-0.0, 1.0),
        (1.5, 1.5),
        (-3.0, -2.0),
        (2.0, 3.0),
        (f32::NAN, 1.0),
        (1.0, f32::NAN),
        (f32::INFINITY, 1.0),
        (f32::NEG_INFINITY, 0.0),
        (-1.0, 1.0),
    ];
    for (x, y) in cases {
        assert_eq!(f32_lt(b(x), b(y)), x < y, "lt {x} {y}");
        assert_eq!(f32_le(b(x), b(y)), x <= y, "le {x} {y}");
        assert_eq!(f32_gt(b(x), b(y)), x > y, "gt {x} {y}");
        assert_eq!(f32_ge(b(x), b(y)), x >= y, "ge {x} {y}");
    }
}

fn step_for(p: &Particle, dt: f32) -> ParticleStep {
    let lt = f32::from_bits(p.life_timer) + dt;
    let x = f32::from_bits(p.rect.x) + f32::from_bits(p.velx) * dt;
    let y = f32::from_bits(p.rect.y) + f32::from_bits(p.vely) * dt;
    let r = f32::from_bits(p.r) + f32::from_bits(p.velr) * dt;
    ParticleStep { life_timer: b(lt), x: b(x), y: b(y), r: b(r) }
}

#[test]
fn update_prunes_expired_particles() {
    let mut ps = ParticleSystem::default();
    ps.is_rect = true;
    ps.spawn_timer = b(0.0);
    ps.spawn_time = b(10.0);
    let mut p1 = Particle::default();
    p1.lifetime = b(1.0);
    p1.life_timer = b(0.95);
    let mut p2 = Particle::default();
    p2.lifetime = b(5.0);
    p2.life_timer = b(0.95);
    p2.velx = b(2.0);
    ps.particles.push(p1);
    ps.particles.push(p2);

    let dt = 0.25f32;
    let adv = SystemAdvance {
        steps: vec![step_for(&p1, dt), step_for(&p2, dt)],
        spawn_timer_inc: b(0.0 + dt),
        spawn_timer_dec: b(0.0 + dt - 10.0),
        spawn: ParticleSpawn { velx: 0, vely: 0, velr: 0, r: 0 },
    };
    ps.update_with(&adv);

    assert_eq!(ps.particles.len(), 1);
    assert_eq!(ps.particles[0].life_timer, b(0.95 + 0.25));
    assert_eq!(ps.particles[0].rect.x, b(0.0 + 2.0 * 0.25));
    assert_eq!(ps.spawn_timer, b(0.25));
    assert!(f32::from_bits(ps.particles[0].life_timer) <= f32::from_bits(ps.particles[0].lifetime));
}

#[test]
fn update_spawns_when_accumulator_wraps() {
    let mut ps = ParticleSystem::default();
    ps.spawn_timer = b(0.9);
    ps.spawn_time = b(1.0);
    ps.lifetime = b(3.0);
    let adv = SystemAdvance {
        steps: Vec::new(),
        spawn_timer_inc: b(0.9 + 0.2),
        spawn_timer_dec: b(0.9 + 0.2 - 1.0),
        spawn: ParticleSpawn { velx: b(4.0), vely: b(5.0), velr: b(0.5), r: b(30.0) },
    };
    ps.update_with(&adv);
    assert_eq!(ps.particles.len(), 1);
    let np = ps.particles[0];
    assert_eq!(np.velx, b(4.0));
    assert_eq!(np.lifetime, b(3.0));
    assert_eq!(np.life_timer, b(0.0));
    assert_eq!(ps.spawn_timer, b(0.9 + 0.2 - 1.0));
}

#[test]
fn force_spawn_adds_one_per_seed() {
    let mut ps = ParticleSystem::default();
    let seeds = vec![
        ParticleSpawn { velx: b(1.0), vely: b(2.0), velr: b(3.0), r: b(4.0) },
        ParticleSpawn { velx: b(5.0), vely: b(6.0), velr: b(7.0), r: b(8.0) },
    ];
    ps.force_spawn(&seeds);
    assert_eq!(ps.particles.len(), 2);
    assert_eq!(ps.particles[1].vely, b(6.0));
}

#[test]
fn rotating_update_restores_host() {
    let mut rps = RotatingParticleSystem::default();
    rps.particle_system.is_rect = true;
    rps.particle_system.host_rect = Rectangle::new(b(10.0), b(20.0), b(1.0), b(1.0));
    rps.particle_system.spawn_timer = b(0.0);
    rps.particle_system.spawn_time = b(100.0);
    let adv = SystemAdvance {
        steps: Vec::new(),
        spawn_timer_inc: b(0.1),
        spawn_timer_dec: b(0.1 - 100.0),
        spawn: ParticleSpawn { velx: 0, vely: 0, velr: 0, r: 0 },
    };
    let displaced = Rectangle::new(b(60.0), b(20.0), b(1.0), b(1.0));
    rps.update_with(displaced, Circle::default(), &adv, b(0.5));
    assert_eq!(rps.particle_system.host_rect, Rectangle::new(b(10.0), b(20.0), b(1.0), b(1.0)));
    assert_eq!(rps.r, b(0.5));
}

fn moon_params() -> PlanetParams {
    PlanetParams {
        ps_spawn_time: b(3.0),
        angle: b(45.0),
        moon_host_r: b(12.5),
        moons: vec![
            MoonParams { spawn_time: b(1.5), velr: b(0.1), offset: b(50.0) },
            MoonParams { spawn_time: b(2.0), velr: b(0.1), offset: b(60.0) },
            MoonParams { spawn_time: b(2.5), velr: b(0.1), offset: b(70.0) },
            MoonParams { spawn_time: b(1.2), velr: b(0.1), offset: b(80.0) },
        ],
    }
}

#[test]
fn planet_never_reaches_max_moons() {
    for _ in 0..64 {
        let planet = Planet::new(Circle::new(b(1.0), b(2.0), b(40.0)), Color::default(), &moon_params());
        assert!(planet.moons.len() < MAX_MOONS);
        for moon in &planet.moons {
            assert_eq!(moon.r, b(45.0));
            assert_eq!(moon.particle_system.host_circle.r, b(12.5));
        }
    }
}

#[test]
fn burst_converts_exactly_once() {
    let mut sys = ExplConvParticleSystem::new(b(1.0), Circle::new(b(3.0), b(4.0), b(20.0)), Color::default(), b(1.0));
    let angles = vec![b(10.0); 30];
    sys.activate(30, b(200.0), &angles);
    assert_eq!(sys.particles.len(), 30);

    let mut planets: Vec<Planet> = Vec::new();
    let dt = 0.25f32;
    let mut t = 0.0f32;
    let mut conversions = 0;
    for _ in 0..4 {
        t += dt;
        let moved = vec![Vector::new(b(0.0), b(0.0)); sys.particles.len()];
        if sys.update_with(b(t), &moved, &mut planets, &moon_params()) {
            conversions += 1;
        }
    }
    assert_eq!(conversions, 1);
    assert_eq!(planets.len(), 1);
    assert_eq!(sys.particles.len(), 0);
    assert_eq!(planets[0].circle, Circle::new(b(3.0), b(4.0), b(20.0)));

    t += dt;
    let moved: Vec<Vector> = Vec::new();
    assert!(!sys.update_with(b(t), &moved, &mut planets, &moon_params()));
    assert_eq!(planets.len(), 1);
}

#[test]
fn star_color_is_floored_bright() {
    let burst: Vec<ParticleSpawn> = vec![ParticleSpawn { velx: 0, vely: 0, velr: 0, r: 0 }; 3];
    let star = Star::new(
        Circle::new(b(1.0), b(2.0), b(3.0)),
        Color::from_rgba(10, 200, 30, 77),
        b(0.4),
        b(0.0),
        b(0.1),
        &burst,
    );
    assert_eq!(star.color, Color::from_rgba(191, 200, 191, 77));
    assert_eq!(star.particle_system.color, Color::from_rgba(10, 200, 30, 77));
    assert_eq!(star.particle_system.particles.len(), 3);
}

#[test]
fn star_burst_count_in_range() {
    for _ in 0..64 {
        let n = star_burst_count();
        assert!((20..45).contains(&n));
    }
}

#[test]
fn fish_transition_keeps_cycle_in_range() {
    let mut fish = Fish::new(Vector::new(b(0.0), b(0.0)), b(0.0), Color::default(), b(0.9));
    assert_eq!(fish.swim_time, b(0.8));
    assert_eq!(fish.swim_timer, b(0.8));

    let idle = FishStateSeed { swim_time: b(1.7), r: b(0.0), anim_timer: b(0.0), swim_v: b(0.0) };
    let swim = FishStateSeed { swim_time: b(1.9), r: b(1.2), anim_timer: b(1.8), swim_v: b(0.225) };
    let entered = fish.step_swim(b(-0.01), b(0.2 / 1.1), &idle, &swim);
    let state = entered.expect("the countdown ran out");
    let cycle = f32::from_bits(fish.swim_timer);
    assert!((1.1..2.4).contains(&cycle));
    match state {
        FishState::Idle => {
            assert_eq!(fish.swim_timer, b(1.7));
            assert_eq!(fish.swim_v, b(0.0));
            assert_eq!(fish.anim_time, b(1.6));
        },
        FishState::Swim => {
            assert_eq!(fish.swim_timer, b(1.9));
            assert_eq!(fish.swim_v, b(0.225));
            assert_eq!(fish.r, b(1.2));
        },
    }
}

#[test]
fn fish_speed_decays_in_tail_off() {
    let mut fish = Fish::new(Vector::new(b(0.0), b(0.0)), b(0.0), Color::default(), b(0.9));
    let idle = FishStateSeed { swim_time: b(1.7), r: b(0.0), anim_timer: b(0.0), swim_v: b(0.0) };
    let swim = FishStateSeed { swim_time: b(1.9), r: b(0.0), anim_timer: b(1.8), swim_v: b(0.225) };
    let decayed = 0.2f32 / 1.1;
    let entered = fish.step_swim(b(0.1), b(decayed), &idle, &swim);
    assert!(entered.is_none());
    assert_eq!(fish.swim_time, b(0.1));
    assert_eq!(fish.swim_v, b(decayed));
    assert!(f32::from_bits(fish.swim_v) < 0.2);
}

#[test]
fn fish_anim_timer_wraps() {
    let mut fish = Fish::new(Vector::new(b(0.0), b(0.0)), b(0.0), Color::default(), b(0.9));
    fish.step_anim(b(0.4));
    assert_eq!(fish.anim_timer, b(0.4));
    fish.step_anim(b(-0.05));
    assert_eq!(fish.anim_timer, fish.anim_time);
    assert_eq!(fish.anim_time, b(0.9));
}

#[test]
fn color_deserialize_needs_four_bytes() {
    let bytes = [1u8, 2, 3];
    assert_eq!(Color::deserialize(&bytes, 0), Err(()));
    assert_eq!(Color::deserialize(&bytes, 200), Err(()));
}
