use kinematic_controller::config::ControllerConfig;
use kinematic_controller::input::{axis_vector, select_look, AxisState, InputSampler};
use kinematic_controller::math::{cap_to_unit, lerp_angle, scale, wrap_angle, Vec2, Vec3};
use kinematic_controller::player::{CameraRig, Player, VELOCITY_LIMIT};
use kinematic_controller::{clamp, move_toward, OptRef};

const SIXTIETH_OF_A_SECOND: i64 = 16_667;

fn axes(nx: i64, px: i64, ny: i64, py: i64) -> AxisState {
    AxisState { negative_x: nx, positive_x: px, negative_y: ny, positive_y: py }
}

fn still() -> AxisState {
    axes(0, 0, 0, 0)
}

fn player_with_camera(cfg: &ControllerConfig) -> Player {
    Player::new(cfg, 0, OptRef::Present(CameraRig { yaw: 0, pitch: 0 }))
}

#[test]
fn clamp_keeps_values_inside() {
    assert_eq!(clamp(5, 0, 10), 5);
    assert_eq!(clamp(-3, 0, 10), 0);
    assert_eq!(clamp(12, 0, 10), 10);
    assert_eq!(clamp(7, 7, 7), 7);
}

#[test]
fn move_toward_steps_without_overshoot() {
    assert_eq!(move_toward(10, 0, 3), 7);
    assert_eq!(move_toward(-10, 0, 3), -7);
    assert_eq!(move_toward(2, 0, 3), 0);
    assert_eq!(move_toward(-2, 0, 3), 0);
    assert_eq!(move_toward(0, 5, 10), 5);
    assert_eq!(move_toward(i64::MIN, i64::MAX, 1), i64::MIN + 1);
}

#[test]
fn scale_rounds_toward_zero() {
    assert_eq!(scale(7, 1, 2), 3);
    assert_eq!(scale(-7, 1, 2), -3);
    assert_eq!(scale(1000, 14000, 1000), 14000);
}

#[test]
fn wrap_angle_brings_into_one_turn() {
    assert_eq!(wrap_angle(-1), 65535);
    assert_eq!(wrap_angle(65536), 0);
    assert_eq!(wrap_angle(-65536), 0);
    assert_eq!(wrap_angle(70000), 70000 - 65536);
}

#[test]
fn lerp_angle_takes_the_short_way_round() {
    // From just below a full turn toward just above zero: forward across zero.
    assert_eq!(lerp_angle(65000, 500, 500), 65518);
    assert_eq!(lerp_angle(1000, 2000, 150), 1150);
    assert_eq!(lerp_angle(2000, 1000, 1000), 1000);
    assert_eq!(lerp_angle(300, 300, 150), 300);
}

#[test]
fn short_vectors_are_not_rescaled() {
    assert_eq!(cap_to_unit(Vec2 { x: 300, y: -400 }), Vec2 { x: 300, y: -400 });
    assert_eq!(cap_to_unit(Vec2 { x: 0, y: 1000 }), Vec2 { x: 0, y: 1000 });
    assert_eq!(cap_to_unit(Vec2 { x: 0, y: 0 }), Vec2 { x: 0, y: 0 });
}

#[test]
fn long_vectors_are_shortened_to_unit_length() {
    assert_eq!(cap_to_unit(Vec2 { x: 3000, y: 4000 }), Vec2 { x: 600, y: 800 });
    let d = cap_to_unit(Vec2 { x: 1000, y: 1000 });
    assert_eq!(d, Vec2 { x: 707, y: 707 });
    assert!(d.x * d.x + d.y * d.y <= 1_000_000);
    assert!(d.x * d.x + d.y * d.y >= 997 * 997);
}

#[test]
fn axis_vector_combines_opposing_strengths() {
    assert_eq!(axis_vector(axes(200, 700, 0, 0)), Vec2 { x: 500, y: 0 });
    assert_eq!(axis_vector(axes(0, 1000, 1000, 0)), Vec2 { x: 707, y: -707 });
    assert_eq!(axis_vector(axes(1000, 1000, 0, 0)), Vec2 { x: 0, y: 0 });
}

#[test]
fn config_rejects_unusable_settings() {
    assert!(ControllerConfig::new(14000, 75000, 20000, 10430, 1043, -8192, 8192, 150).is_some());
    assert!(ControllerConfig::new(14000, 75000, 20000, 10430, 1043, 100, -100, 150).is_none());
    assert!(ControllerConfig::new(14000, 75000, 20000, 10430, 1043, 5, 5, 150).is_none());
    assert!(ControllerConfig::new(0, 75000, 20000, 10430, 1043, -8192, 8192, 150).is_none());
    assert!(ControllerConfig::new(14000, -1, 20000, 10430, 1043, -8192, 8192, 150).is_none());
    assert!(ControllerConfig::new(14000, 75000, 20000, 10430, 1043, -8192, 8192, 1001).is_none());
    assert_eq!(
        ControllerConfig::new(14000, 75000, 20000, 10430, 1043, -8192, 8192, 150),
        Some(ControllerConfig::standard())
    );
}

#[test]
fn opt_ref_reports_presence() {
    let present = OptRef::from_option(Some(4u8));
    let absent: OptRef<u8> = OptRef::from_option(None);
    assert!(present.is_some());
    assert!(!absent.is_some());
    assert_eq!(*present.tref(), 4);
}

#[test]
fn first_tick_moving_right_from_rest() {
    let cfg = ControllerConfig::standard();
    let mut p = player_with_camera(&cfg);
    let v = p.step(&cfg, Vec2 { x: 1000, y: 0 }, true, false, SIXTIETH_OF_A_SECOND);
    assert_eq!(v.x, 14000);
    assert_eq!(v.z, 0);
    // 75 units/s^2 over a sixtieth of a second: about 1.25 units/s downward.
    assert_eq!(v.y, -1250);
    assert_eq!(p.velocity, v);
}

#[test]
fn full_speed_stops_after_one_idle_tick() {
    let cfg = ControllerConfig::standard();
    let mut p = player_with_camera(&cfg);
    p.set_velocity(&cfg, Vec3 { x: 14000, y: 0, z: 0 });
    let v = p.step(&cfg, Vec2 { x: 0, y: 0 }, true, false, SIXTIETH_OF_A_SECOND);
    assert_eq!(v.x, 0);
    let v = p.step(&cfg, Vec2 { x: 0, y: 0 }, true, false, SIXTIETH_OF_A_SECOND);
    assert_eq!(v.x, 0);
}

#[test]
fn idle_ticks_decay_monotonically_to_rest() {
    let cfg = ControllerConfig::standard();
    let mut p = player_with_camera(&cfg);
    p.set_velocity(&cfg, Vec3 { x: 30000, y: 0, z: -20000 });
    let expected_x = [16000, 2000, 0, 0];
    let expected_z = [-6000, 0, 0, 0];
    for i in 0..4 {
        let v = p.step(&cfg, Vec2 { x: 0, y: 0 }, true, false, 0);
        assert_eq!(v.x, expected_x[i]);
        assert_eq!(v.z, expected_z[i]);
    }
}

#[test]
fn diagonal_movement_is_not_faster() {
    let cfg = ControllerConfig::standard();
    let mut p = player_with_camera(&cfg);
    let v = p.step(&cfg, Vec2 { x: 1000, y: 1000 }, true, false, 0);
    assert_eq!(v.x, 9899);
    assert_eq!(v.z, 9899);
    let sq = v.x * v.x + v.z * v.z;
    // The full speed up to a thousandth's rounding per axis, not speed * sqrt(2).
    assert!(sq <= 14000 * 14000);
    assert!(sq >= 13999 * 13999);
}

#[test]
fn diagonal_intent_from_the_sampler_moves_at_full_speed() {
    let cfg = ControllerConfig::standard();
    let mut s = InputSampler::new();
    let f = s.sample(&cfg, axes(0, 1000, 0, 1000), still(), false);
    assert_eq!(f.movement_intent, Vec2 { x: 707, y: 707 });
    let mut p = player_with_camera(&cfg);
    let v = p.step(&cfg, f.movement_intent, true, false, 0);
    assert_eq!(v, Vec3 { x: 9898, y: 0, z: 9898 });
    let sq = v.x * v.x + v.z * v.z;
    assert!(sq <= 14000 * 14000);
    assert!(sq >= 13997 * 13997);
}

#[test]
fn long_directions_are_resized_to_full_speed() {
    let cfg = ControllerConfig::standard();
    let mut p = player_with_camera(&cfg);
    let v = p.step(&cfg, Vec2 { x: 3000, y: -4000 }, true, false, 0);
    assert_eq!(v, Vec3 { x: 8400, y: 0, z: -11200 });
    let v = p.step(&cfg, Vec2 { x: 0, y: 1000 }, true, false, 0);
    assert_eq!(v, Vec3 { x: 0, y: 0, z: 14000 });
}

#[test]
fn huge_look_deltas_are_taken_whole() {
    let cfg = ControllerConfig::standard();
    let mut p = player_with_camera(&cfg);
    p.look(&cfg, Vec2 { x: i64::MIN, y: i64::MAX });
    assert_eq!(p.camera, OptRef::Present(CameraRig { yaw: 0, pitch: 8192 }));
    p.look(&cfg, Vec2 { x: i64::MAX, y: i64::MIN });
    assert_eq!(p.camera, OptRef::Present(CameraRig { yaw: 1, pitch: -8192 }));
}

#[test]
fn analog_movement_is_kept_below_full_speed() {
    let cfg = ControllerConfig::standard();
    let mut p = player_with_camera(&cfg);
    let v = p.step(&cfg, Vec2 { x: 0, y: -500 }, true, false, 0);
    assert_eq!(v, Vec3 { x: 0, y: 0, z: -7000 });
}

#[test]
fn jump_adds_to_rising_velocity() {
    let cfg = ControllerConfig::standard();
    let mut p = player_with_camera(&cfg);
    p.set_velocity(&cfg, Vec3 { x: 0, y: 5000, z: 0 });
    let v = p.step(&cfg, Vec2 { x: 0, y: 0 }, true, true, SIXTIETH_OF_A_SECOND);
    assert_eq!(v.y, 5000 + 20000 - 1250);
}

#[test]
fn jump_needs_the_floor() {
    let cfg = ControllerConfig::standard();
    let mut p = player_with_camera(&cfg);
    let v = p.step(&cfg, Vec2 { x: 0, y: 0 }, false, true, SIXTIETH_OF_A_SECOND);
    assert_eq!(v.y, -1250);
}

#[test]
fn falling_speed_saturates_at_the_limit() {
    let cfg = ControllerConfig::standard();
    let mut p = player_with_camera(&cfg);
    p.set_velocity(&cfg, Vec3 { x: 0, y: i64::MIN, z: 0 });
    assert_eq!(p.velocity.y, -VELOCITY_LIMIT);
    let v = p.step(&cfg, Vec2 { x: 0, y: 0 }, false, false, 1_000_000);
    assert_eq!(v.y, -VELOCITY_LIMIT);
}

#[test]
fn pitch_is_clamped_in_a_single_step() {
    let cfg = ControllerConfig::standard();
    let mut p = player_with_camera(&cfg);
    p.look(&cfg, Vec2 { x: 0, y: 1_000_000 });
    assert_eq!(p.camera, OptRef::Present(CameraRig { yaw: 0, pitch: 8192 }));
    p.look(&cfg, Vec2 { x: 0, y: -1_000_000 });
    assert_eq!(p.camera, OptRef::Present(CameraRig { yaw: 0, pitch: -8192 }));
    p.look(&cfg, Vec2 { x: 0, y: 100 });
    assert_eq!(p.camera, OptRef::Present(CameraRig { yaw: 0, pitch: -8092 }));
}

#[test]
fn looking_right_turns_yaw_the_other_way() {
    let cfg = ControllerConfig::standard();
    let mut p = player_with_camera(&cfg);
    p.look(&cfg, Vec2 { x: 100, y: 0 });
    assert_eq!(p.camera, OptRef::Present(CameraRig { yaw: 65436, pitch: 0 }));
}

#[test]
fn look_without_camera_changes_nothing() {
    let cfg = ControllerConfig::standard();
    let mut p = Player::new(&cfg, 0, OptRef::Absent);
    let before = p;
    p.look(&cfg, Vec2 { x: 500, y: 500 });
    assert_eq!(p, before);
    let v = p.step(&cfg, Vec2 { x: 1000, y: 0 }, true, false, 0);
    assert_eq!(v.x, 14000);
}

#[test]
fn new_player_fits_the_rig_into_the_limits() {
    let cfg = ControllerConfig::standard();
    let p = Player::new(&cfg, -1, OptRef::Present(CameraRig { yaw: 65537, pitch: 9000 }));
    assert_eq!(p.body_yaw, 65535);
    assert_eq!(p.camera, OptRef::Present(CameraRig { yaw: 1, pitch: 8192 }));
    assert_eq!(p.velocity, Vec3 { x: 0, y: 0, z: 0 });
}

#[test]
fn body_turns_only_while_moving() {
    let cfg = ControllerConfig::standard();
    let mut p = player_with_camera(&cfg);
    p.turn_body(&cfg, Vec2 { x: 0, y: 0 }, 10000);
    assert_eq!(p.body_yaw, 0);
    p.turn_body(&cfg, Vec2 { x: 1000, y: 0 }, 10000);
    assert_eq!(p.body_yaw, 1500);
    p.turn_body(&cfg, Vec2 { x: 1000, y: 0 }, 65000);
    // The short way from 1500 to 65000 goes backward across zero by 2036.
    assert_eq!(p.body_yaw, 1500 - 305);
}

#[test]
fn controller_look_wins_over_mouse() {
    let cfg = ControllerConfig::standard();
    let mut s = InputSampler::new();
    s.add_mouse_motion(300, -200);
    let f = s.sample(&cfg, still(), axes(0, 1000, 0, 0), false);
    assert_eq!(f.look_intent, Vec2 { x: 1043, y: 0 });
    assert_eq!(s.mouse, Vec2 { x: 0, y: 0 });
    let mut p = player_with_camera(&cfg);
    p.look(&cfg, f.look_intent);
    assert_eq!(p.camera, OptRef::Present(CameraRig { yaw: 65536 - 1043, pitch: 0 }));
}

#[test]
fn mouse_look_is_used_when_axes_are_centred() {
    let cfg = ControllerConfig::standard();
    let mut s = InputSampler::new();
    s.add_mouse_motion(60, -20);
    s.add_mouse_motion(40, 0);
    assert_eq!(s.mouse, Vec2 { x: 100, y: -20 });
    let f = s.sample(&cfg, still(), still(), false);
    assert_eq!(f.look_intent, Vec2 { x: 1043, y: -208 });
    let f = s.sample(&cfg, still(), still(), false);
    assert_eq!(f.look_intent, Vec2 { x: 0, y: 0 });
}

#[test]
fn select_look_scales_each_source_by_its_sensitivity() {
    let cfg = ControllerConfig::standard();
    assert_eq!(
        select_look(&cfg, Vec2 { x: -500, y: 250 }, Vec2 { x: 9, y: 9 }),
        Vec2 { x: -521, y: 260 }
    );
    assert_eq!(select_look(&cfg, Vec2 { x: 0, y: 0 }, Vec2 { x: -10, y: 0 }), Vec2 { x: -104, y: 0 });
}

#[test]
fn mouse_buffer_saturates() {
    let mut s = InputSampler::new();
    for _ in 0..3 {
        s.add_mouse_motion(i32::MAX, i32::MIN);
    }
    assert_eq!(s.mouse, Vec2 { x: 1_000_000_000, y: -1_000_000_000 });
}

#[test]
fn jump_is_reported_on_the_press_only() {
    let cfg = ControllerConfig::standard();
    let mut s = InputSampler::new();
    assert!(!s.sample(&cfg, still(), still(), false).jump_requested);
    assert!(s.sample(&cfg, still(), still(), true).jump_requested);
    assert!(!s.sample(&cfg, still(), still(), true).jump_requested);
    assert!(!s.sample(&cfg, still(), still(), false).jump_requested);
    assert!(s.sample(&cfg, still(), still(), true).jump_requested);
}

#[test]
fn movement_intent_is_capped_in_the_sample() {
    let cfg = ControllerConfig::standard();
    let mut s = InputSampler::new();
    let f = s.sample(&cfg, axes(1000, 0, 1000, 0), still(), false);
    assert_eq!(f.movement_intent, Vec2 { x: -707, y: -707 });
    let f = s.sample(&cfg, axes(0, 400, 0, 300), still(), false);
    assert_eq!(f.movement_intent, Vec2 { x: 400, y: 300 });
}

#[test]
fn replaying_the_same_ticks_gives_the_same_state() {
    let cfg = ControllerConfig::standard();
    let run = || {
        let mut s = InputSampler::new();
        let mut p = player_with_camera(&cfg);
        let mut log = Vec::new();
        for i in 0..20i64 {
            s.add_mouse_motion((i * 7 % 13) as i32, -(i as i32));
            let f = s.sample(&cfg, axes(0, i * 50, 0, 1000 - i * 50), axes(0, 0, 0, 0), i % 5 == 0);
            p.look(&cfg, f.look_intent);
            let v = p.step(&cfg, f.movement_intent, i % 3 == 0, f.jump_requested, SIXTIETH_OF_A_SECOND);
            p.turn_body(&cfg, f.movement_intent, (i * 3000) % 65536);
            log.push((v, p));
        }
        log
    };
    assert_eq!(run(), run());
}
