//! Round-trip checks of every persisted type, on concrete values.

use one_and_all::fish::Fish;
use one_and_all::geom::{Circle, Color, Rectangle, Vector};
use one_and_all::particle::Particle;
use one_and_all::planet::Planet;
use one_and_all::psystem::ParticleSystem;
use one_and_all::rotating::RotatingParticleSystem;
use one_and_all::savedata::SaveData;
use one_and_all::star::Star;

fn b(x: f32) -> u32 {
    x.to_bits()
}

fn particle(v: [f32; 13], is_rect: bool) -> Particle {
    let mut p = Particle::default();
    p.rect.x = b(v[0]);
    p.rect.y = b(v[1]);
    p.rect.w = b(v[2]);
    p.rect.h = b(v[3]);
    p.circle.x = b(v[4]);
    p.circle.y = b(v[5]);
    p.circle.r = b(v[6]);
    p.is_rect = is_rect;
    p.velx = b(v[7]);
    p.vely = b(v[8]);
    p.velr = b(v[9]);
    p.r = b(v[10]);
    p.lifetime = b(v[11]);
    p.life_timer = b(v[12]);
    p
}

#[allow(clippy::too_many_arguments)]
fn fill_ps(
    ps: &mut ParticleSystem,
    timers: [f32; 3],
    host_rect: [f32; 4],
    host_circle: [f32; 3],
    is_rect: bool,
    direction: [f32; 2],
    color: [u8; 4],
    tail: [f32; 2],
) {
    ps.spawn_timer = b(timers[0]);
    ps.spawn_time = b(timers[1]);
    ps.lifetime = b(timers[2]);
    ps.host_rect.x = b(host_rect[0]);
    ps.host_rect.y = b(host_rect[1]);
    ps.host_rect.w = b(host_rect[2]);
    ps.host_rect.h = b(host_rect[3]);
    ps.host_circle.x = b(host_circle[0]);
    ps.host_circle.y = b(host_circle[1]);
    ps.host_circle.r = b(host_circle[2]);
    ps.is_rect = is_rect;
    ps.direction.x = b(direction[0]);
    ps.direction.y = b(direction[1]);
    ps.color.r = color[0];
    ps.color.g = color[1];
    ps.color.b = color[2];
    ps.color.a = color[3];
    ps.opacity = b(tail[0]);
    ps.vel_multiplier = b(tail[1]);
}

#[test]
fn test_de_serialize_color() {
    let color = Color::from_rgba(1, 2, 3, 4);
    let bytes = color.serialize();
    let (des_color, size) =
        Color::deserialize(&bytes, 0).expect("Should be able to deserialize Color!");
    assert_eq!(color, des_color);
    assert_eq!(bytes.len(), size);
}

#[test]
fn test_de_serialize_rectangle() {
    let rect = Rectangle::new(b(1.0), b(2.0), b(3.0), b(4.0));
    let bytes = rect.serialize();
    let (des_rect, size) =
        Rectangle::deserialize(&bytes, 0).expect("Should be able to deserialize Rectangle!");
    assert_eq!(rect, des_rect);
    assert_eq!(bytes.len(), size);
}

#[test]
fn test_de_serialize_circle() {
    let circle = Circle::new(b(1.0), b(2.0), b(3.0));
    let bytes = circle.serialize();
    let (des_circle, size) =
        Circle::deserialize(&bytes, 0).expect("Should be able to deserialize Circle!");
    assert_eq!(circle, des_circle);
    assert_eq!(bytes.len(), size);
}

#[test]
fn test_de_serialize_vector() {
    let vect = Vector::new(b(1.0), b(2.0));
    let bytes = vect.serialize();
    let (des_vect, size) =
        Vector::deserialize(&bytes, 0).expect("Should be able to deserialize Vector!");
    assert_eq!(vect, des_vect);
    assert_eq!(bytes.len(), size);
}

#[test]
fn test_de_serialize_particle() {
    let p = particle(
        [1.0, 2.0, 3.0, 4.0, 5.0, 6.0, 7.0, 8.0, 9.0, 10.0, 11.0, 12.0, 13.0],
        true,
    );
    let bytes = p.serialize();
    let (des_particle, size) =
        Particle::deserialize(&bytes, 0).expect("Should be able to deserialize Particle!");
    assert_eq!(p, des_particle);
    assert_eq!(bytes.len(), size);

    let p = particle(
        [14.0, 15.0, 16.0, 17.0, 18.0, 19.0, 20.0, 21.0, 22.0, 23.0, 24.0, 25.0, 26.0],
        false,
    );
    let bytes = p.serialize();
    let (des_particle, size) =
        Particle::deserialize(&bytes, 0).expect("Should be able to deserialize Particle!");
    assert_eq!(p, des_particle);
    assert_eq!(bytes.len(), size);
}

fn ps_sample_a() -> ParticleSystem {
    let mut ps = ParticleSystem::default();
    ps.particles.push(particle(
        [1.0, 2.0, 3.0, 4.0, 5.0, 6.0, 7.0, 8.0, 9.0, 10.0, 11.0, 12.0, 13.0],
        true,
    ));
    ps.particles.push(particle(
        [14.0, 15.0, 16.0, 17.0, 18.0, 19.0, 20.0, 21.0, 22.0, 23.0, 24.0, 25.0, 26.0],
        false,
    ));
    fill_ps(
        &mut ps,
        [27.0, 28.0, 29.0],
        [30.0, 31.0, 32.0, 33.0],
        [34.0, 35.0, 36.0],
        true,
        [37.0, 38.0],
        [39, 40, 41, 42],
        [43.0, 44.0],
    );
    ps
}

#[test]
fn test_de_serialize_particle_system() {
    let ps = ps_sample_a();
    let bytes = ps.serialize();
    let (des_ps, size) = ParticleSystem::deserialize(&bytes, 0)
        .expect("Should be able to deserialize ParticleSystem!");
    assert_eq!(ps, des_ps);
    assert_eq!(bytes.len(), size);

    let mut ps = ParticleSystem::default();
    ps.particles.push(particle(
        [45.0, 46.0, 47.0, 48.0, 49.0, 50.0, 51.0, 52.0, 53.0, 54.0, 55.0, 56.0, 57.0],
        true,
    ));
    ps.particles.push(particle(
        [58.0, 59.0, 60.0, 61.0, 62.0, 63.0, 64.0, 65.0, 66.0, 67.0, 68.0, 69.0, 70.0],
        false,
    ));
    fill_ps(
        &mut ps,
        [71.0, 72.0, 73.0],
        [74.0, 75.0, 76.0, 77.0],
        [78.0, 79.0, 80.0],
        false,
        [81.0, 82.0],
        [83, 84, 85, 86],
        [87.0, 88.0],
    );
    let bytes = ps.serialize();
    let (des_ps, size) = ParticleSystem::deserialize(&bytes, 0)
        .expect("Should be able to deserialize ParticleSystem!");
    assert_eq!(ps, des_ps);
    assert_eq!(bytes.len(), size);
}

#[test]
fn test_de_serialize_rotating_particle_system() {
    let mut rps = RotatingParticleSystem::default();
    rps.particle_system = ps_sample_a();
    rps.r = b(45.0);
    rps.velr = b(46.0);
    rps.offset = b(47.0);

    let bytes = rps.serialize();
    let (des_rps, size) = RotatingParticleSystem::deserialize(&bytes, 0)
        .expect("Should be able to deserialize RotatingParticleSystem!");
    assert_eq!(rps, des_rps);
    assert_eq!(bytes.len(), size);
}

fn planet_sample() -> Planet {
    let mut planet = Planet::default();
    planet.circle.x = b(1.0);
    planet.circle.y = b(2.0);
    planet.circle.r = b(3.0);
    planet.color.r = 4;
    planet.color.g = 5;
    planet.color.b = 6;
    planet.color.a = 7;

    planet.particle_system.particles.push(particle(
        [8.0, 9.0, 10.0, 11.0, 12.0, 13.0, 14.0, 15.0, 16.0, 17.0, 18.0, 19.0, 20.0],
        true,
    ));
    planet.particle_system.particles.push(particle(
        [21.0, 22.0, 23.0, 24.0, 25.0, 26.0, 27.0, 28.0, 29.0, 30.0, 31.0, 32.0, 33.0],
        false,
    ));
    fill_ps(
        &mut planet.particle_system,
        [34.0, 35.0, 36.0],
        [37.0, 38.0, 39.0, 40.0],
        [41.0, 42.0, 43.0],
        true,
        [44.0, 45.0],
        [46, 47, 48, 49],
        [50.0, 51.0],
    );

    let mut rps = RotatingParticleSystem::default();
    rps.particle_system = planet.particle_system.clone();
    rps.r = b(52.0);
    rps.velr = b(53.0);
    rps.offset = b(54.0);
    planet.moons.push(rps);

    let mut rps = RotatingParticleSystem::default();
    rps.particle_system = ParticleSystem::default();
    rps.r = b(55.0);
    rps.velr = b(56.0);
    rps.offset = b(57.0);
    planet.moons.push(rps);
    planet
}

#[test]
fn test_de_serialize_planet() {
    let planet = planet_sample();
    let bytes = planet.serialize();
    let (des_planet, size) =
        Planet::deserialize(&bytes, 0).expect("Should be able to deserialize Planet!");
    assert_eq!(planet, des_planet);
    assert_eq!(bytes.len(), size);
}

fn star_sample() -> Star {
    let mut star = Star::default();
    star.color.r = 1;
    star.color.g = 2;
    star.color.b = 3;
    star.color.a = 4;

    star.particle_system.particles.push(particle(
        [5.0, 6.0, 7.0, 8.0, 9.0, 10.0, 11.0, 12.0, 13.0, 14.0, 15.0, 16.0, 17.0],
        true,
    ));
    star.particle_system.particles.push(particle(
        [18.0, 19.0, 20.0, 21.0, 22.0, 23.0, 24.0, 25.0, 26.0, 27.0, 28.0, 29.0, 30.0],
        false,
    ));
    fill_ps(
        &mut star.particle_system,
        [31.0, 32.0, 33.0],
        [34.0, 35.0, 36.0, 37.0],
        [38.0, 39.0, 40.0],
        true,
        [41.0, 42.0],
        [43, 44, 45, 46],
        [47.0, 48.0],
    );

    star.velr = b(49.0);
    star.r = b(50.0);
    star
}

#[test]
fn test_de_serialize_star() {
    let star = star_sample();
    let bytes = star.serialize();
    let (des_star, size) =
        Star::deserialize(&bytes, 0).expect("Should be able to deserialize Star!");
    assert_eq!(star, des_star);
    assert_eq!(bytes.len(), size);
}

fn fish_sample() -> Fish {
    let mut fish = Fish::default();
    fish.pos.x = b(1.0);
    fish.pos.y = b(2.0);
    fish.r = b(3.0);
    fish.swim_time = b(4.0);
    fish.swim_timer = b(5.0);
    fish.swim_v = b(6.0);
    fish.anim_timer = b(7.0);
    fish.anim_time = b(8.0);
    fish.color.r = 9;
    fish.color.g = 10;
    fish.color.b = 11;
    fish.color.a = 12;
    fish.body_rect.x = b(13.0);
    fish.body_rect.y = b(14.0);
    fish.body_rect.w = b(15.0);
    fish.body_rect.h = b(16.0);
    fish.tail_rect.x = b(17.0);
    fish.tail_rect.y = b(18.0);
    fish.tail_rect.w = b(19.0);
    fish.tail_rect.h = b(20.0);
    fish
}

#[test]
fn test_de_serialize_fish() {
    let fish = fish_sample();
    let bytes = fish.serialize();
    let (des_fish, size) =
        Fish::deserialize(&bytes, 0).expect("Should be able to deserialize Fish!");
    assert_eq!(fish, des_fish);
    assert_eq!(bytes.len(), size);
}

#[test]
fn test_de_serialize_save_data() {
    let mut save_data = SaveData::default();
    let mut planet = planet_sample();
    save_data.planets.push(planet.clone());

    planet.color.r = 58;
    planet.color.g = 59;
    planet.color.b = 60;
    planet.color.a = 61;
    save_data.planets.push(planet.clone());

    planet.color.r = 62;
    planet.color.g = 63;
    planet.color.b = 64;
    planet.color.a = 65;
    save_data.planets.push(planet);

    let mut star = star_sample();
    save_data.stars.push(star.clone());

    star.color.r = 51;
    star.color.g = 52;
    star.color.b = 53;
    star.color.a = 54;
    save_data.stars.push(star.clone());

    star.color.r = 55;
    star.color.g = 56;
    star.color.b = 57;
    star.color.a = 58;
    save_data.stars.push(star);

    let mut fish = fish_sample();
    save_data.fishes.push(fish.clone());

    fish.pos.x = b(21.0);
    fish.pos.y = b(22.0);
    fish.r = b(23.0);
    save_data.fishes.push(fish.clone());

    fish.pos.x = b(24.0);
    fish.pos.y = b(25.0);
    fish.r = b(26.0);
    save_data.fishes.push(fish);

    save_data.player.x = b(100.0);
    save_data.player.y = b(101.0);
    save_data.player.w = b(102.0);
    save_data.player.h = b(103.0);

    save_data.joining_particles.particle_system = ps_sample_a();
    save_data.joining_particles.r = b(45.0);
    save_data.joining_particles.velr = b(46.0);
    save_data.joining_particles.offset = b(47.0);

    let bytes = save_data.serialize();
    let (des_save_data, size) =
        SaveData::deserialize(&bytes).expect("Should be able to deserialize SaveData!");
    assert_eq!(save_data, des_save_data);
    assert_eq!(bytes.len(), size);
}
